//! The participating medium: the stretch of a ray that runs inside it.

use vstd::prelude::*;
use crate::hit_record::HitRecord;
use crate::vec3::{lower, upper, Key};

verus! {

/// The stretch of a ray inside a medium, by the parameters where it begins
/// and ends.
#[derive(Clone, Copy, Debug, PartialEq, Eq, Structural)]
pub struct Segment {
    pub begin: Key,
    pub end: Key,
}

/// The stretch inside the medium of a ray that enters the boundary at
/// `entry` and leaves it at `exit`, looked at between `t_min` and `t_max`:
/// entry and exit are brought into that range; there is no stretch unless
/// the entry then lies strictly before the exit; and a stretch does not
/// begin behind the origin of the ray, which has parameter zero.
pub open spec fn stretch(entry: Key, exit: Key, t_min: Key, t_max: Key) -> Option<Segment> {
    let begin = upper(entry, t_min);
    let end = lower(exit, t_max);
    if begin >= end {
        None
    } else {
        Some(Segment { begin: upper(begin, 0), end })
    }
}

/// Computes [`stretch`].
pub fn segment(entry: Key, exit: Key, t_min: Key, t_max: Key) -> (r: Option<Segment>)
    ensures
        r == stretch(entry, exit, t_min, t_max),
{
    let mut begin = entry;
    let mut end = exit;
    if begin < t_min {
        begin = t_min;
    }
    if end > t_max {
        end = t_max;
    }
    if begin >= end {
        return None;
    }
    if begin < 0 {
        begin = 0;
    }
    Some(Segment { begin, end })
}

/// A stretch lies inside the range it was looked for in and inside the
/// boundary, except that its beginning may have been moved up to the origin
/// of the ray.
pub proof fn lemma_stretch_bounds(entry: Key, exit: Key, t_min: Key, t_max: Key)
    requires
        stretch(entry, exit, t_min, t_max).is_some(),
    ensures
        ({
            let s = stretch(entry, exit, t_min, t_max).unwrap();
            &&& entry < exit
            &&& t_min < t_max
            &&& s.end <= exit
            &&& s.end <= t_max
            &&& s.begin >= entry
            &&& s.begin >= t_min
            &&& s.begin >= 0
            &&& (s.begin < s.end || s.end <= 0)
        }),
{
}

/// Whether the three functions can have given the answers from which `r` is
/// the hit of a ray with a medium between `t_min` and `t_max`: `enter`
/// reports where the ray enters the boundary, `leave` where it leaves the
/// boundary after that, and `scatter` where, on the stretch inside, the ray
/// is scattered. There is no hit unless the ray enters and leaves the
/// boundary, a stretch inside is left within the range, and the ray is
/// scattered on it.
pub open spec fn passes<S, N, L, F>(
    r: Option<HitRecord<S>>,
    t_min: Key,
    t_max: Key,
    enter: N,
    leave: L,
    scatter: F,
) -> bool where
    N: Fn() -> Option<HitRecord<S>>,
    L: Fn(&HitRecord<S>) -> Option<HitRecord<S>>,
    F: Fn(Segment) -> Option<HitRecord<S>>,
{
    exists|entry: Option<HitRecord<S>>| #[trigger]
        call_ensures(enter, (), entry) && match entry {
            None => r.is_none(),
            Some(rec1) => exists|exit: Option<HitRecord<S>>| #[trigger]
                call_ensures(leave, (&rec1,), exit) && match exit {
                    None => r.is_none(),
                    Some(rec2) => match stretch(rec1.t, rec2.t, t_min, t_max) {
                        None => r.is_none(),
                        Some(inside) => call_ensures(scatter, (inside,), r),
                    },
                },
        }
}

/// Finds the hit of a ray with a medium of constant density inside a
/// boundary.
///
/// `enter` is asked where the ray enters the boundary, anywhere along its
/// line; `leave` where it leaves the boundary after the entry it is handed;
/// and, if a stretch inside the boundary is left between `t_min` and
/// `t_max`, `scatter` whether and where the ray is scattered on that
/// stretch. What `scatter` reports is the hit.
pub fn hit<S, N, L, F>(t_min: Key, t_max: Key, enter: &N, leave: &L, scatter: &F) -> (r: Option<
    HitRecord<S>,
>) where
    N: Fn() -> Option<HitRecord<S>>,
    L: Fn(&HitRecord<S>) -> Option<HitRecord<S>>,
    F: Fn(Segment) -> Option<HitRecord<S>>,
    requires
        call_requires(*enter, ()),
        forall|rec: &HitRecord<S>| call_requires(*leave, (rec,)),
        forall|inside: Segment| call_requires(*scatter, (inside,)),
    ensures
        passes(r, t_min, t_max, *enter, *leave, *scatter),
{
    let rec1 = match enter() {
        Some(rec) => rec,
        None => {
            return None;
        },
    };
    let rec2 = match leave(&rec1) {
        Some(rec) => rec,
        None => {
            return None;
        },
    };
    let inside = match segment(rec1.t, rec2.t, t_min, t_max) {
        Some(inside) => inside,
        None => {
            return None;
        },
    };
    scatter(inside)
}

} // verus!
