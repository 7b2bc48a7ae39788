//! Searching a scene for the nearest hit of a ray: what it means to be
//! nearest, and that the hierarchy and the plain list find the same.

use vstd::prelude::*;
use crate::aabb::{Slab, AABB};
use crate::bvh::{BVHNode, Extent};
use crate::hit_record::{clip, parameter, HitRecord};
use crate::hittable_list::scan;
use crate::sort::positions;
use crate::vec3::Key;

verus! {

/// Whether `hit` is a nearest hit before `t_max` among the objects `among`:
/// if it is nothing, no object is hit before `t_max`; if it is a hit, it is
/// the nearest intersection of one of the objects, lies before `t_max`, and
/// no object is hit at a smaller parameter.
pub open spec fn is_nearest<S>(
    hit: Option<(usize, HitRecord<S>)>,
    among: Seq<usize>,
    t_max: Key,
    nearest: spec_fn(usize) -> Option<HitRecord<S>>,
) -> bool {
    match hit {
        None => forall|k: int|
            0 <= k < among.len() ==> clip(nearest(#[trigger] among[k]), t_max).is_none(),
        Some((object, rec)) => {
            &&& among.contains(object)
            &&& nearest(object) == Some(rec)
            &&& rec.t < t_max
            &&& forall|k: int|
                0 <= k < among.len() ==> match nearest(#[trigger] among[k]) {
                    Some(other) => rec.t <= other.t,
                    None => true,
                }
        },
    }
}

/// Whether the ray is inside the three slabs at the parameter `t`: at or
/// past each entry and before each exit.
pub open spec fn inside(slabs: (Slab, Slab, Slab), t: Key) -> bool {
    let (x, y, z) = slabs;
    &&& x.entry() <= t < x.exit()
    &&& y.entry() <= t < y.exit()
    &&& z.entry() <= t < z.exit()
}

/// Whether what a ray sees of the boxes fits what it sees of the objects:
/// where the ray meets an object, it does so beyond `t_min` and inside every
/// box that contains the box of the object.
pub open spec fn sees<S>(
    extents: Seq<Extent>,
    t_min: Key,
    crossings: spec_fn(AABB) -> (Slab, Slab, Slab),
    nearest: spec_fn(usize) -> Option<HitRecord<S>>,
) -> bool {
    forall|object: usize, bbox: AABB|
        object < extents.len() && bbox.contains(extents[object as int].swept) && nearest(
            object,
        ).is_some() ==> t_min < nearest(object).unwrap().t && inside(
            #[trigger] crossings(bbox),
            #[trigger] nearest(object).unwrap().t,
        )
}

/// Whether no two of the first `n` objects are hit at the same parameter.
pub open spec fn distinct_hits<S>(n: nat, nearest: spec_fn(usize) -> Option<HitRecord<S>>) -> bool {
    forall|a: usize, b: usize|
        a < n && b < n && a != b && (#[trigger] nearest(a)).is_some() && (#[trigger] nearest(
            b,
        )).is_some() ==> nearest(a).unwrap().t != nearest(b).unwrap().t
}

/// The search through a list ends with a nearest hit among its objects.
pub proof fn lemma_scan_is_nearest<S>(
    n: nat,
    t_max: Key,
    nearest: spec_fn(usize) -> Option<HitRecord<S>>,
)
    requires
        n <= usize::MAX,
    ensures
        is_nearest(scan(n, t_max, nearest), positions(n), t_max, nearest),
    decreases n,
{
    if n > 0 {
        let m = (n - 1) as nat;
        let last = (n - 1) as usize;
        lemma_scan_is_nearest::<S>(m, t_max, nearest);
        let before = scan(m, t_max, nearest);
        let found = scan(n, t_max, nearest);
        let all = positions(n);
        assert forall|k: int| 0 <= k < m implies all[k] == (#[trigger] positions(m)[k]) by {}
        assert(all[n - 1] == last);
        match found {
            None => {
                assert forall|k: int| 0 <= k < all.len() implies clip(
                    nearest(#[trigger] all[k]),
                    t_max,
                ).is_none() by {
                    if k < m {
                        assert(all[k] == positions(m)[k]);
                    }
                }
            },
            Some((object, rec)) => {
                if clip(
                    nearest(last),
                    match before {
                        Some((_, r)) => r.t,
                        None => t_max,
                    },
                ).is_some() {
                    assert(all[n - 1] == object);
                } else {
                    let k0 = choose|k: int| 0 <= k < m && positions(m)[k] == object;
                    assert(all[k0] == object);
                }
                assert forall|k: int| 0 <= k < all.len() implies match nearest(#[trigger] all[k]) {
                    Some(other) => rec.t <= other.t,
                    None => true,
                } by {
                    if k < m {
                        assert(all[k] == positions(m)[k]);
                    }
                }
            },
        }
    }
}

impl BVHNode {
    /// The search through a hierarchy ends with a nearest hit among the
    /// objects below its root, provided that the ray, where it meets an
    /// object, is inside the boxes around it.
    pub proof fn lemma_nearest_hit_is_nearest<S>(
        self,
        extents: Seq<Extent>,
        t_min: Key,
        t_max: Key,
        crossings: spec_fn(AABB) -> (Slab, Slab, Slab),
        nearest: spec_fn(usize) -> Option<HitRecord<S>>,
    )
        requires
            self.wf(extents),
            sees(extents, t_min, crossings, nearest),
        ensures
            is_nearest(
                self.nearest_hit(t_min, t_max, crossings, nearest),
                self.objects(),
                t_max,
                nearest,
            ),
        decreases self,
    {
        let among = self.objects();
        let (x, y, z) = crossings(self.bbox());
        if !crate::aabb::reaches(x, y, z, t_min, t_max) {
            assert forall|k: int| 0 <= k < among.len() implies clip(
                nearest(#[trigger] among[k]),
                t_max,
            ).is_none() by {
                self.lemma_encloses(extents, k);
                if clip(nearest(among[k]), t_max).is_some() {
                    let t = nearest(among[k]).unwrap().t;
                    assert(inside(crossings(self.bbox()), t));
                }
            }
        } else {
            match self {
                BVHNode::Leaf { object, .. } => {
                    assert(among[0] == object);
                },
                BVHNode::Branch { left, right, .. } => {
                    let on_left = left.nearest_hit(t_min, t_max, crossings, nearest);
                    let bound = match on_left {
                        Some((_, rec)) => rec.t,
                        None => t_max,
                    };
                    let on_right = right.nearest_hit(t_min, bound, crossings, nearest);
                    left.lemma_nearest_hit_is_nearest(extents, t_min, t_max, crossings, nearest);
                    right.lemma_nearest_hit_is_nearest(extents, t_min, bound, crossings, nearest);
                    let ls = left.objects();
                    let rs = right.objects();
                    assert forall|k: int| 0 <= k < among.len() implies (if k < ls.len() {
                        among[k] == ls[k]
                    } else {
                        among[k] == rs[k - ls.len()]
                    }) by {}
                    let found = self.nearest_hit(t_min, t_max, crossings, nearest);
                    match found {
                        None => {
                            assert forall|k: int| 0 <= k < among.len() implies clip(
                                nearest(#[trigger] among[k]),
                                t_max,
                            ).is_none() by {
                                if k < ls.len() {
                                    assert(among[k] == ls[k]);
                                } else {
                                    assert(among[k] == rs[k - ls.len()]);
                                }
                            }
                        },
                        Some((object, rec)) => {
                            if on_right.is_some() {
                                let k0 = choose|k: int| 0 <= k < rs.len() && rs[k] == object;
                                assert(among[ls.len() + k0] == object);
                            } else {
                                let k0 = choose|k: int| 0 <= k < ls.len() && ls[k] == object;
                                assert(among[k0] == object);
                            }
                            assert forall|k: int| 0 <= k < among.len() implies match nearest(
                                #[trigger] among[k],
                            ) {
                                Some(other) => rec.t <= other.t,
                                None => true,
                            } by {
                                if k < ls.len() {
                                    assert(among[k] == ls[k]);
                                } else {
                                    assert(among[k] == rs[k - ls.len()]);
                                }
                            }
                        },
                    }
                },
            }
        }
    }

    /// The hierarchy finds what the plain search through all objects finds.
    ///
    /// For a hierarchy built over the objects `extents`, and a ray that is
    /// inside the boxes around an object where it meets the object, the
    /// search through the hierarchy and the search through the list of all
    /// objects end alike: both find nothing, or both find a hit at the same
    /// ray parameter. If no two objects are hit at the same parameter they
    /// find the same object and the same record.
    pub proof fn lemma_hit_matches_scan<S>(
        self,
        extents: Seq<Extent>,
        t_min: Key,
        t_max: Key,
        crossings: spec_fn(AABB) -> (Slab, Slab, Slab),
        nearest: spec_fn(usize) -> Option<HitRecord<S>>,
    )
        requires
            extents.len() <= usize::MAX,
            self.wf(extents),
            self.objects().to_multiset() == positions(extents.len()).to_multiset(),
            sees(extents, t_min, crossings, nearest),
        ensures
            parameter(self.nearest_hit(t_min, t_max, crossings, nearest)) == parameter(
                scan(extents.len(), t_max, nearest),
            ),
            distinct_hits(extents.len(), nearest) ==> self.nearest_hit(
                t_min,
                t_max,
                crossings,
                nearest,
            ) == scan(extents.len(), t_max, nearest),
    {
        let n = extents.len();
        let by_tree = self.nearest_hit(t_min, t_max, crossings, nearest);
        let by_list = scan(n, t_max, nearest);
        let among = self.objects();
        let all = positions(n);
        self.lemma_nearest_hit_is_nearest(extents, t_min, t_max, crossings, nearest);
        lemma_scan_is_nearest::<S>(n, t_max, nearest);
        self.lemma_every_object_once(n);
        assert forall|object: usize| all.contains(object) <==> object < n by {
            if object < n {
                assert(all[object as int] == object);
            }
        }
        match (by_tree, by_list) {
            (None, None) => {},
            (Some((object, rec)), None) => {
                assert(among.contains(object));
                assert(all[object as int] == object);
                assert(clip(nearest(all[object as int]), t_max).is_none());
            },
            (None, Some((object, rec))) => {
                assert(all.contains(object));
                assert(object < n);
                assert(among.contains(object));
                let k = choose|k: int| 0 <= k < among.len() && among[k] == object;
                assert(clip(nearest(among[k]), t_max).is_none());
            },
            (Some((a, ra)), Some((b, rb))) => {
                assert(among.contains(a));
                assert(all[a as int] == a);
                assert(all.contains(b));
                assert(b < n);
                assert(among.contains(b));
                let k = choose|k: int| 0 <= k < among.len() && among[k] == b;
                assert(nearest(among[k]) == Some(rb));
                assert(ra.t <= rb.t);
                assert(nearest(all[a as int]) == Some(ra));
                assert(rb.t <= ra.t);
                if distinct_hits(n, nearest) {
                    if a != b {
                        assert(nearest(a).is_some() && nearest(b).is_some());
                        assert(false);
                    }
                }
            },
        }
    }
}

} // verus!
