//! The decorator that shows a surface from its other side.

use vstd::prelude::*;
use crate::hit_record::HitRecord;

verus! {

/// Passes on what the wrapped object reported, with the front-face flag of a
/// hit inverted and nothing else changed.
pub fn flip_face<S>(inner: Option<HitRecord<S>>) -> (r: Option<HitRecord<S>>)
    ensures
        r.is_some() <==> inner.is_some(),
        inner.is_some() ==> r.unwrap() == (HitRecord {
            front_face: !inner.unwrap().front_face,
            ..inner.unwrap()
        }),
{
    match inner {
        Some(rec) => Some(
            HitRecord {
                t: rec.t,
                front_face: !rec.front_face,
                material: rec.material,
                surface: rec.surface,
            },
        ),
        None => None,
    }
}

/// Flipping twice changes nothing.
pub proof fn lemma_flip_twice<S>(rec: HitRecord<S>)
    ensures
        (HitRecord { front_face: !(!rec.front_face), ..rec }) == rec,
{
}

} // verus!
