//! The bounding volume hierarchy: a binary tree over the objects of a scene,
//! each node holding the box that encloses everything below it.

use vstd::prelude::*;
use vstd::seq_lib::lemma_multiset_commutative;
use crate::aabb::{reaches, Slab, AABB};
use crate::hit_record::{answers, bound_after, clip, later_of, HitRecord};
use crate::rng::random_below;
use crate::sort::{lemma_stable_order, positions, sort_by_keys, stable_order, stable_sort};
use crate::vec3::Key;

verus! {

/// What the hierarchy reads of one object: its two bounding boxes.
#[derive(Clone, Copy, Debug, PartialEq, Eq, Structural)]
pub struct Extent {
    /// The box of the object at time zero. Objects are ordered by its
    /// minimum corner.
    pub at_rest: AABB,
    /// The box of the object over the time range of the scene. The boxes of
    /// the nodes enclose it.
    pub swept: AABB,
}

/// A node of the hierarchy. Objects are named by their position in the list
/// the hierarchy was built from.
#[derive(Debug)]
pub enum BVHNode {
    /// One object and its box.
    Leaf { object: usize, bbox: AABB },
    /// Two subtrees and the union of their boxes.
    Branch { left: Box<BVHNode>, right: Box<BVHNode>, bbox: AABB },
}

/// The key by which `object` is ordered along `axis`: the minimum corner of
/// its box at time zero.
pub open spec fn sort_key(extents: Seq<Extent>, object: usize, axis: int) -> Key {
    extents[object as int].at_rest.min.get(axis)
}

/// The keys of the objects `ids` along `axis`, in the order of `ids`.
pub open spec fn keys_on(extents: Seq<Extent>, ids: Seq<usize>, axis: int) -> Seq<Key> {
    Seq::new(ids.len(), |i: int| sort_key(extents, ids[i], axis))
}

/// Whether, along `axis`, no object of `low` has a larger key than any object
/// of `high`.
pub open spec fn separates(extents: Seq<Extent>, axis: int, low: Seq<usize>, high: Seq<usize>) -> bool {
    forall|i: int, j: int|
        0 <= i < low.len() && 0 <= j < high.len() ==> sort_key(extents, #[trigger] low[i], axis)
            <= sort_key(extents, #[trigger] high[j], axis)
}

/// Whether every entry of `ids` names an object of a list of `n`.
pub open spec fn all_below(ids: Seq<usize>, n: nat) -> bool {
    forall|i: int| 0 <= i < ids.len() ==> (#[trigger] ids[i]) < n
}

/// Whether `crossings` tells what `slabs` answers: asked for a box, the
/// parameters at which the ray crosses the planes of that box on each of the
/// three axes.
pub open spec fn measures<C: Fn(AABB) -> (Slab, Slab, Slab)>(
    slabs: C,
    crossings: spec_fn(AABB) -> (Slab, Slab, Slab),
) -> bool {
    forall|bbox: AABB, r: (Slab, Slab, Slab)| #[trigger]
        call_ensures(slabs, (bbox,), r) ==> r == crossings(bbox)
}

/// The objects `ids` sorted along `axis`: by increasing key, objects with
/// equal keys in the order they have in `ids`.
pub open spec fn sorted_on(extents: Seq<Extent>, ids: Seq<usize>, axis: int) -> Seq<usize> {
    stable_sort(ids, keys_on(extents, ids, axis))
}

/// Reads the keys of the objects `ids` along `axis`.
fn keys_along(ids: &Vec<usize>, extents: &Vec<Extent>, axis: usize) -> (keys: Vec<Key>)
    requires
        axis < 3,
        all_below(ids@, extents@.len()),
    ensures
        keys@ == keys_on(extents@, ids@, axis as int),
{
    let mut keys: Vec<Key> = Vec::new();
    let mut i: usize = 0;
    while i < ids.len()
        invariant
            i <= ids.len(),
            axis < 3,
            all_below(ids@, extents@.len()),
            keys@ == keys_on(extents@, ids@.subrange(0, i as int), axis as int),
        decreases ids.len() - i,
    {
        let object = ids[i];
        keys.push(extents[object].at_rest.min.index(axis));
        i += 1;
        assert(keys@ =~= keys_on(extents@, ids@.subrange(0, i as int), axis as int));
    }
    assert(ids@.subrange(0, i as int) =~= ids@);
    keys
}

impl BVHNode {
    /// The box cached at this node.
    pub open spec fn bbox(self) -> AABB {
        match self {
            BVHNode::Leaf { bbox, .. } => bbox,
            BVHNode::Branch { bbox, .. } => bbox,
        }
    }

    /// The objects at the leaves below this node, from left to right.
    pub open spec fn objects(self) -> Seq<usize>
        decreases self,
    {
        match self {
            BVHNode::Leaf { object, .. } => seq![object],
            BVHNode::Branch { left, right, .. } => left.objects() + right.objects(),
        }
    }

    /// The hit that a search through the hierarchy ends with, where
    /// `crossings` gives the slabs of each box along the ray and `nearest`
    /// the nearest intersection of the ray with each object. A node whose
    /// box the ray does not pass through within the range has no hit. A leaf
    /// has the hit of its object, if that lies before `t_max`. A branch asks
    /// its left subtree, then its right subtree for a hit before the one
    /// found on the left, and has the hit of the right subtree if there is
    /// one, else that of the left.
    pub open spec fn nearest_hit<S>(
        self,
        t_min: Key,
        t_max: Key,
        crossings: spec_fn(AABB) -> (Slab, Slab, Slab),
        nearest: spec_fn(usize) -> Option<HitRecord<S>>,
    ) -> Option<(usize, HitRecord<S>)>
        decreases self,
    {
        let (x, y, z) = crossings(self.bbox());
        if !reaches(x, y, z, t_min, t_max) {
            None
        } else {
            match self {
                BVHNode::Leaf { object, .. } => match clip(nearest(object), t_max) {
                    Some(rec) => Some((object, rec)),
                    None => None,
                },
                BVHNode::Branch { left, right, .. } => {
                    let on_left = left.nearest_hit(t_min, t_max, crossings, nearest);
                    let bound = bound_after(on_left, t_max);
                    let on_right = right.nearest_hit(t_min, bound, crossings, nearest);
                    later_of(on_left, on_right)
                },
            }
        }
    }

    /// Whether `slabs` and `object_test` can have given the answers from
    /// which `r` is the hit that a search through the hierarchy ends with:
    /// the hit of [`BVHNode::nearest_hit`], with each answer one that the
    /// function asked may give.
    pub open spec fn searched<S, C, H>(
        self,
        r: Option<(usize, HitRecord<S>)>,
        t_min: Key,
        t_max: Key,
        slabs: C,
        object_test: H,
    ) -> bool where
        C: Fn(AABB) -> (Slab, Slab, Slab),
        H: Fn(usize, Key, Key) -> Option<HitRecord<S>>,
        decreases self,
    {
        exists|crossing: (Slab, Slab, Slab)| #[trigger]
            call_ensures(slabs, (self.bbox(),), crossing) && if !reaches(
                crossing.0,
                crossing.1,
                crossing.2,
                t_min,
                t_max,
            ) {
                r.is_none()
            } else {
                match self {
                    BVHNode::Leaf { object, .. } => exists|answer: Option<HitRecord<S>>| #[trigger]
                        call_ensures(object_test, (object, t_min, t_max), answer) && r
                            == match answer {
                            Some(rec) => Some((object, rec)),
                            None => None,
                        },
                    BVHNode::Branch { left, right, .. } => exists|
                        on_left: Option<(usize, HitRecord<S>)>,
                        on_right: Option<(usize, HitRecord<S>)>,
                    |
                        {
                            &&& left.searched(on_left, t_min, t_max, slabs, object_test)
                            &&& right.searched(
                                on_right,
                                t_min,
                                bound_after(on_left, t_max),
                                slabs,
                                object_test,
                            )
                            &&& r == #[trigger] later_of(on_left, on_right)
                        },
                }
            }
    }

    /// The invariant of a hierarchy over the objects `extents`.
    ///
    /// A leaf holds an object of the list and that object's box. A branch
    /// holds two well-formed subtrees and the union of their boxes; its right
    /// subtree holds half of the objects below the branch, rounded down; and
    /// along one of the three axes no object on the right has a larger key
    /// than any object on the left.
    pub open spec fn wf(self, extents: Seq<Extent>) -> bool
        decreases self,
    {
        match self {
            BVHNode::Leaf { object, bbox } => {
                &&& object < extents.len()
                &&& bbox == extents[object as int].swept
            },
            BVHNode::Branch { left, right, bbox } => {
                &&& left.wf(extents)
                &&& right.wf(extents)
                &&& bbox == left.bbox().union(right.bbox())
                &&& right.objects().len() == (left.objects().len() + right.objects().len()) / 2
                &&& exists|axis: int|
                    0 <= axis < 3 && #[trigger] separates(
                        extents,
                        axis,
                        right.objects(),
                        left.objects(),
                    )
            },
        }
    }

    /// Reads the box cached at this node.
    pub fn cached_box(&self) -> (r: AABB)
        ensures
            r == self.bbox(),
    {
        match self {
            BVHNode::Leaf { bbox, .. } => *bbox,
            BVHNode::Branch { bbox, .. } => *bbox,
        }
    }

    /// The bounding box of a hierarchy: the box cached at its root. A
    /// hierarchy is never unbounded.
    pub fn bounding_box(&self) -> (r: Option<AABB>)
        ensures
            r == Some(self.bbox()),
    {
        Some(self.cached_box())
    }

    /// Finds the nearest hit of a ray with the objects of the hierarchy.
    ///
    /// `slabs` is asked for the parameters at which the ray crosses the
    /// planes of a box, and `object_test` for the hit of one object within a
    /// range. A subtree is searched only if the slab test on its box
    /// succeeds for the range that still counts, and the right subtree of a
    /// branch only for hits before the one found on the left.
    pub fn hit<S, C, H>(&self, t_min: Key, t_max: Key, slabs: &C, object_test: &H) -> (r: Option<
        (usize, HitRecord<S>),
    >) where C: Fn(AABB) -> (Slab, Slab, Slab), H: Fn(usize, Key, Key) -> Option<HitRecord<S>>
        requires
            forall|bbox: AABB| call_requires(*slabs, (bbox,)),
            forall|object: usize, bound: Key|
                self.objects().contains(object) ==> call_requires(
                    *object_test,
                    (object, t_min, bound),
                ),
        ensures
            self.searched(r, t_min, t_max, *slabs, *object_test),
            forall|
                crossings: spec_fn(AABB) -> (Slab, Slab, Slab),
                nearest: spec_fn(usize) -> Option<HitRecord<S>>,
            |
                measures(*slabs, crossings) && answers(*object_test, t_min, nearest) ==> r
                    == #[trigger] self.nearest_hit(t_min, t_max, crossings, nearest),
        decreases self,
    {
        let (x, y, z) = slabs(self.cached_box());
        if AABB::hit(x, y, z, t_min, t_max).is_none() {
            return None;
        }
        match self {
            BVHNode::Leaf { object, .. } => {
                assert(self.objects()[0] == *object);
                assert(self.objects().contains(*object));
                let answer = object_test(*object, t_min, t_max);
                let ghost told = answer;
                let r = match answer {
                    Some(rec) => Some((*object, rec)),
                    None => None,
                };
                proof {
                    assert(call_ensures(*slabs, (self.bbox(),), (x, y, z)));
                    assert(call_ensures(*object_test, (*object, t_min, t_max), told));
                    assert(self.searched(r, t_min, t_max, *slabs, *object_test));
                    assert forall|
                        crossings: spec_fn(AABB) -> (Slab, Slab, Slab),
                        nearest: spec_fn(usize) -> Option<HitRecord<S>>,
                    |
                        measures(*slabs, crossings) && answers(
                            *object_test,
                            t_min,
                            nearest,
                        ) implies r == #[trigger] self.nearest_hit(
                        t_min,
                        t_max,
                        crossings,
                        nearest,
                    ) by {
                        assert(crossings(self.bbox()) == (x, y, z));
                    }
                }
                r
            },
            BVHNode::Branch { left, right, .. } => {
                proof {
                    assert forall|object: usize| left.objects().contains(object) implies #[trigger]
                        self.objects().contains(object) by {
                        let k = choose|k: int|
                            0 <= k < left.objects().len() && left.objects()[k] == object;
                        assert(self.objects()[k] == object);
                    }
                    assert forall|object: usize| right.objects().contains(object) implies #[trigger]
                        self.objects().contains(object) by {
                        let k = choose|k: int|
                            0 <= k < right.objects().len() && right.objects()[k] == object;
                        assert(self.objects()[left.objects().len() + k] == object);
                    }
                }
                let on_left = left.hit(t_min, t_max, slabs, object_test);
                let bound = match &on_left {
                    Some((_, rec)) => rec.t,
                    None => t_max,
                };
                let on_right = right.hit(t_min, bound, slabs, object_test);
                let r = if on_right.is_some() {
                    on_right
                } else {
                    on_left
                };
                proof {
                    assert(call_ensures(*slabs, (self.bbox(),), (x, y, z)));
                    assert(left.searched(on_left, t_min, t_max, *slabs, *object_test));
                    assert(bound == bound_after(on_left, t_max));
                    assert(right.searched(
                        on_right,
                        t_min,
                        bound_after(on_left, t_max),
                        *slabs,
                        *object_test,
                    ));
                    assert(r == later_of(on_left, on_right));
                    assert(self.searched(r, t_min, t_max, *slabs, *object_test));
                    assert forall|
                        crossings: spec_fn(AABB) -> (Slab, Slab, Slab),
                        nearest: spec_fn(usize) -> Option<HitRecord<S>>,
                    |
                        measures(*slabs, crossings) && answers(
                            *object_test,
                            t_min,
                            nearest,
                        ) implies r == #[trigger] self.nearest_hit(
                        t_min,
                        t_max,
                        crossings,
                        nearest,
                    ) by {
                        assert(crossings(self.bbox()) == (x, y, z));
                        assert(on_left == left.nearest_hit(t_min, t_max, crossings, nearest));
                        assert(on_right == right.nearest_hit(t_min, bound, crossings, nearest));
                    }
                }
                r
            },
        }
    }

    /// Sorts the objects `ids` along `axis` and cuts the sorted list at its
    /// midpoint. The first half returned holds the objects before the
    /// midpoint, the second those from the midpoint on; with an odd number
    /// of objects the second half is the longer.
    pub fn split(ids: Vec<usize>, extents: &Vec<Extent>, axis: usize) -> (halves: (
        Vec<usize>,
        Vec<usize>,
    ))
        requires
            axis < 3,
            all_below(ids@, extents@.len()),
        ensures
            halves.0@ == sorted_on(extents@, ids@, axis as int).subrange(0, (ids@.len() / 2) as int),
            halves.1@ == sorted_on(extents@, ids@, axis as int).subrange(
                (ids@.len() / 2) as int,
                ids@.len() as int,
            ),
            (halves.0@ + halves.1@).to_multiset() == ids@.to_multiset(),
            all_below(halves.0@, extents@.len()),
            all_below(halves.1@, extents@.len()),
            separates(extents@, axis as int, halves.0@, halves.1@),
    {
        let ghost given = ids@;
        let ghost keys_given = keys_on(extents@, given, axis as int);
        let keys = keys_along(&ids, extents, axis);
        let mut lower = ids;
        sort_by_keys(&mut lower, &keys);
        let ghost sorted = lower@;
        let upper = lower.split_off(lower.len() / 2);
        proof {
            let order = stable_order(keys_given);
            lemma_stable_order(keys_given);
            assert(lower@ + upper@ =~= sorted);
            assert forall|i: int| 0 <= i < sorted.len() implies (#[trigger] sorted[i])
                < extents@.len() by {
                assert(sorted[i] == given[order[i] as int]);
            }
            assert forall|i: int, j: int| 0 <= i < lower@.len() && 0 <= j < upper@.len() implies sort_key(
                extents@,
                #[trigger] lower@[i],
                axis as int,
            ) <= sort_key(extents@, #[trigger] upper@[j], axis as int) by {
                let a = i;
                let b = lower@.len() + j;
                assert(lower@[i] == sorted[a]);
                assert(upper@[j] == sorted[b]);
                assert(crate::sort::precedes(keys_given, order[a], order[b]));
                assert(keys_given[order[a] as int] == sort_key(extents@, sorted[a], axis as int));
                assert(keys_given[order[b] as int] == sort_key(extents@, sorted[b], axis as int));
            }
        }
        (lower, upper)
    }

    /// Builds the hierarchy over the objects `ids`.
    fn build(ids: Vec<usize>, extents: &Vec<Extent>) -> (node: BVHNode)
        requires
            ids@.len() >= 1,
            all_below(ids@, extents@.len()),
        ensures
            node.wf(extents@),
            node.objects().to_multiset() == ids@.to_multiset(),
        decreases ids@.len(),
    {
        let ghost given = ids@;
        let n = ids.len();
        let axis = random_below(3);
        let (lower, upper) = BVHNode::split(ids, extents, axis);
        if n == 1 {
            let object = upper[0];
            assert(lower@ + upper@ =~= seq![object]);
            BVHNode::Leaf { object, bbox: extents[object].swept }
        } else {
            let left = BVHNode::build(upper, extents);
            let right = BVHNode::build(lower, extents);
            let bbox = left.cached_box().surrounding_box(right.cached_box());
            proof {
                broadcast use vstd::seq_lib::group_to_multiset_ensures;

                lemma_multiset_commutative(left.objects(), right.objects());
                lemma_multiset_commutative(lower@, upper@);
                assert(left.objects().to_multiset().add(right.objects().to_multiset())
                    =~= lower@.to_multiset().add(upper@.to_multiset()));
                assert(left.objects().len() == upper@.len()) by {
                    assert(left.objects().to_multiset().len() == upper@.to_multiset().len());
                }
                assert(right.objects().len() == lower@.len()) by {
                    assert(right.objects().to_multiset().len() == lower@.to_multiset().len());
                }
                assert forall|i: int, j: int|
                    0 <= i < right.objects().len() && 0 <= j < left.objects().len() implies sort_key(
                    extents@,
                    #[trigger] right.objects()[i],
                    axis as int,
                ) <= sort_key(extents@, #[trigger] left.objects()[j], axis as int) by {
                    let a = right.objects()[i];
                    let b = left.objects()[j];
                    assert(right.objects().contains(a));
                    assert(left.objects().contains(b));
                    assert(lower@.to_multiset().count(a) > 0);
                    assert(upper@.to_multiset().count(b) > 0);
                    assert(lower@.contains(a));
                    assert(upper@.contains(b));
                    let ia = choose|ia: int| 0 <= ia < lower@.len() && lower@[ia] == a;
                    let jb = choose|jb: int| 0 <= jb < upper@.len() && upper@[jb] == b;
                    assert(sort_key(extents@, lower@[ia], axis as int) <= sort_key(
                        extents@,
                        upper@[jb],
                        axis as int,
                    ));
                }
                assert(separates(extents@, axis as int, right.objects(), left.objects()));
            }
            BVHNode::Branch { left: Box::new(left), right: Box::new(right), bbox }
        }
    }

    /// Builds the hierarchy over a list of objects, each given by its extent.
    ///
    /// A single object becomes a leaf. Otherwise one of the three axes is
    /// drawn at random, the objects are sorted along it and cut at the
    /// midpoint, and a hierarchy is built over each half: the half from the
    /// midpoint on becomes the left subtree, the half before it the right
    /// one. Whatever axes are drawn, the result is well formed and holds
    /// every object of the list in exactly one leaf.
    pub fn new(extents: &Vec<Extent>) -> (node: BVHNode)
        requires
            extents@.len() >= 1,
        ensures
            node.wf(extents@),
            node.objects().to_multiset() == positions(extents@.len()).to_multiset(),
    {
        let mut ids: Vec<usize> = Vec::new();
        let mut i: usize = 0;
        while i < extents.len()
            invariant
                i <= extents.len(),
                ids@ == positions(i as nat),
            decreases extents.len() - i,
        {
            ids.push(i);
            i += 1;
            assert(ids@ =~= positions(i as nat));
        }
        BVHNode::build(ids, extents)
    }

    /// A hierarchy built over `n` objects names each of them in exactly one
    /// leaf, and names nothing else.
    pub proof fn lemma_every_object_once(self, n: nat)
        requires
            n <= usize::MAX,
            self.objects().to_multiset() == positions(n).to_multiset(),
        ensures
            self.objects().len() == n,
            self.objects().no_duplicates(),
            forall|object: usize| self.objects().contains(object) <==> object < n,
    {
        broadcast use vstd::seq_lib::group_to_multiset_ensures;

        let all = positions(n);
        assert(self.objects().len() == n) by {
            assert(self.objects().to_multiset().len() == all.to_multiset().len());
        }
        assert(all.no_duplicates());
        all.lemma_multiset_has_no_duplicates();
        self.objects().lemma_multiset_has_no_duplicates_conv();
        assert forall|object: usize| self.objects().contains(object) <==> object < n by {
            if object < n {
                assert(all[object as int] == object);
                assert(all.contains(object));
            }
            if self.objects().contains(object) {
                assert(all.to_multiset().count(object) > 0);
                assert(all.contains(object));
            }
        }
    }

    /// Every node has at least one object below it.
    pub proof fn lemma_objects_nonempty(self)
        ensures
            self.objects().len() >= 1,
        decreases self,
    {
        match self {
            BVHNode::Leaf { .. } => {},
            BVHNode::Branch { left, right, .. } => {
                left.lemma_objects_nonempty();
            },
        }
    }

    /// The box of a node encloses the box of every object below it.
    pub proof fn lemma_encloses(self, extents: Seq<Extent>, k: int)
        requires
            self.wf(extents),
            0 <= k < self.objects().len(),
        ensures
            self.objects()[k] < extents.len(),
            self.bbox().contains(extents[self.objects()[k] as int].swept),
        decreases self,
    {
        match self {
            BVHNode::Leaf { .. } => {},
            BVHNode::Branch { left, right, .. } => {
                left.bbox().lemma_union_contains_both(right.bbox());
                if k < left.objects().len() {
                    left.lemma_encloses(extents, k);
                } else {
                    right.lemma_encloses(extents, k - left.objects().len());
                }
            },
        }
    }
}

} // verus!
