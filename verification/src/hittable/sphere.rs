//! Shapes met by solving a quadratic: which of the two roots is the hit.

use vstd::prelude::*;
use crate::vec3::Key;

verus! {

/// Whether the parameter `t` lies strictly between `t_min` and `t_max`.
pub open spec fn within(t: Key, t_min: Key, t_max: Key) -> bool {
    t_min < t && t < t_max
}

/// Picks the hit among the two roots of an intersection quadratic: the root
/// `near` if it lies strictly inside the range, else the root `far` if that
/// one does, else none.
pub fn nearest_root(near: Key, far: Key, t_min: Key, t_max: Key) -> (r: Option<Key>)
    ensures
        r == if within(near, t_min, t_max) {
            Some(near)
        } else if within(far, t_min, t_max) {
            Some(far)
        } else {
            None::<Key>
        },
{
    if t_min < near && near < t_max {
        return Some(near);
    }
    if t_min < far && far < t_max {
        return Some(far);
    }
    None
}

/// With the roots in order, the hit is the least root inside the range, and
/// there is a hit whenever a root lies inside the range.
pub proof fn lemma_nearest_root_is_least(near: Key, far: Key, t_min: Key, t_max: Key, r: Option<Key>)
    requires
        near <= far,
        r == if within(near, t_min, t_max) {
            Some(near)
        } else if within(far, t_min, t_max) {
            Some(far)
        } else {
            None::<Key>
        },
    ensures
        r.is_some() <==> within(near, t_min, t_max) || within(far, t_min, t_max),
        r.is_some() ==> within(r.unwrap(), t_min, t_max) && (r.unwrap() == near || r.unwrap()
            == far),
        r.is_some() && within(near, t_min, t_max) ==> r.unwrap() <= near,
        r.is_some() && within(far, t_min, t_max) ==> r.unwrap() <= far,
{
}

} // verus!
