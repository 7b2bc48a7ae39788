//! The record of one intersection.

use vstd::prelude::*;
use crate::material::Material;
use crate::vec3::Key;

verus! {

/// One intersection of a ray with a surface. What is decided by stands in
/// fields of its own: the ray parameter, the side of the surface that was
/// met, and the material. Whatever else belongs to the hit (the point, the
/// normal, the texture coordinates) is carried along in `surface`.
#[derive(Debug)]
pub struct HitRecord<S> {
    pub t: Key,
    pub front_face: bool,
    pub material: Material,
    pub surface: S,
}

impl<S> HitRecord<S> {
    /// Records which side of the surface the ray met, given the key of the
    /// dot product of the ray direction with the outward normal: the front
    /// face if the two point against each other, that is if the product is
    /// negative.
    pub fn set_face_normal(&mut self, dot: Key)
        ensures
            final(self).front_face == (dot < 0),
            final(self).t == old(self).t,
            final(self).material == old(self).material,
            final(self).surface == old(self).surface,
    {
        self.front_face = dot < 0;
    }
}

/// The hit `hit` as a search bounded above by `t_max` sees it: the hit if
/// its parameter lies before the bound, and nothing otherwise.
pub open spec fn clip<S>(hit: Option<HitRecord<S>>, t_max: Key) -> Option<HitRecord<S>> {
    match hit {
        Some(rec) => if rec.t < t_max {
            Some(rec)
        } else {
            None
        },
        None => None,
    }
}

/// The bound for a search that goes on after `found`: a hit counts only if
/// it lies before the hit found so far, or before `t_max` while none is
/// found.
pub open spec fn bound_after<S>(found: Option<(usize, HitRecord<S>)>, t_max: Key) -> Key {
    match found {
        Some((_, rec)) => rec.t,
        None => t_max,
    }
}

/// The hit that a search ends with after it has looked first for `earlier`
/// and then, before that hit, for `later`: the later one if there is one.
pub open spec fn later_of<S>(
    earlier: Option<(usize, HitRecord<S>)>,
    later: Option<(usize, HitRecord<S>)>,
) -> Option<(usize, HitRecord<S>)> {
    if later.is_some() {
        later
    } else {
        earlier
    }
}

/// The ray parameter of a hit, if there is one.
pub open spec fn parameter<S>(hit: Option<(usize, HitRecord<S>)>) -> Option<Key> {
    match hit {
        Some((_, rec)) => Some(rec.t),
        None => None,
    }
}

/// Whether `nearest` tells what the test `object_test` answers: asked for an
/// object and the range from `t_min` to some bound, the test reports the
/// nearest intersection of the ray with that object beyond `t_min` if it lies
/// before the bound, and nothing otherwise.
pub open spec fn answers<S, H: Fn(usize, Key, Key) -> Option<HitRecord<S>>>(
    object_test: H,
    t_min: Key,
    nearest: spec_fn(usize) -> Option<HitRecord<S>>,
) -> bool {
    forall|object: usize, t_max: Key, r: Option<HitRecord<S>>| #[trigger]
        call_ensures(object_test, (object, t_min, t_max), r) ==> r == clip(nearest(object), t_max)
}

} // verus!
