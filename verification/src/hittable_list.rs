//! A list of objects and the box that encloses them all.

use vstd::prelude::*;
use crate::aabb::AABB;
use crate::hit_record::{answers, bound_after, clip, HitRecord};
use crate::rng::random_below;
use crate::vec3::Key;

verus! {

/// A list of objects, each held by what the list reads of it: its bounding
/// box, or nothing where the object is unbounded.
#[derive(Debug)]
pub struct HittableList {
    pub objects: Vec<Option<AABB>>,
}

/// Whether every object of the list has a bounding box.
pub open spec fn all_bounded(boxes: Seq<Option<AABB>>) -> bool {
    forall|i: int| 0 <= i < boxes.len() ==> (#[trigger] boxes[i]).is_some()
}

/// The union of the zero box with the boxes of the list, taken in order.
pub open spec fn enclosure(boxes: Seq<Option<AABB>>) -> AABB
    decreases boxes.len(),
{
    if boxes.len() == 0 {
        AABB::zero()
    } else {
        enclosure(boxes.drop_last()).union(boxes.last().unwrap())
    }
}

/// The enclosure of a list contains the box of each of its objects, and the
/// zero box it starts from.
pub proof fn lemma_enclosure_contains(boxes: Seq<Option<AABB>>, i: int)
    requires
        all_bounded(boxes),
        0 <= i < boxes.len(),
    ensures
        enclosure(boxes).contains(boxes[i].unwrap()),
        enclosure(boxes).contains(AABB::zero()),
    decreases boxes.len(),
{
    let rest = boxes.drop_last();
    let last = boxes.last().unwrap();
    enclosure(rest).lemma_union_contains_both(last);
    if rest.len() > 0 {
        lemma_enclosure_contains(rest, if i < rest.len() { i } else { 0 });
        enclosure(boxes).lemma_contains_transitive(enclosure(rest), AABB::zero());
        if i < rest.len() {
            enclosure(boxes).lemma_contains_transitive(enclosure(rest), rest[i].unwrap());
        }
    }
}

/// The hit that a search through the first `n` objects ends with, where
/// `nearest` gives the nearest intersection of the ray with each object:
/// the objects are asked in order, each for a hit before the one found so
/// far, or before `t_max` while none is found.
pub open spec fn scan<S>(
    n: nat,
    t_max: Key,
    nearest: spec_fn(usize) -> Option<HitRecord<S>>,
) -> Option<(usize, HitRecord<S>)>
    decreases n,
{
    if n == 0 {
        None
    } else {
        let last = (n - 1) as usize;
        let before = scan((n - 1) as nat, t_max, nearest);
        match clip(nearest(last), bound_after(before, t_max)) {
            Some(rec) => Some((last, rec)),
            None => before,
        }
    }
}

/// Whether `object_test` can have given the answers from which `r` is the
/// hit that a search through the first `n` objects ends with: the hit of
/// [`scan`], with each answer one that the test may give when asked.
pub open spec fn scanned<S, H: Fn(usize, Key, Key) -> Option<HitRecord<S>>>(
    r: Option<(usize, HitRecord<S>)>,
    n: nat,
    t_min: Key,
    t_max: Key,
    object_test: H,
) -> bool
    decreases n,
{
    if n == 0 {
        r.is_none()
    } else {
        let last = (n - 1) as usize;
        exists|before: Option<(usize, HitRecord<S>)>, answer: Option<HitRecord<S>>|
            {
                &&& scanned(before, (n - 1) as nat, t_min, t_max, object_test)
                &&& #[trigger] call_ensures(
                    object_test,
                    (last, t_min, bound_after(before, t_max)),
                    answer,
                )
                &&& r == match answer {
                    Some(rec) => Some((last, rec)),
                    None => before,
                }
            }
    }
}

impl HittableList {
    /// The empty list.
    pub fn new() -> (r: Self)
        ensures
            r.objects@.len() == 0,
    {
        HittableList { objects: Vec::new() }
    }

    /// Appends an object.
    pub fn add(&mut self, object: Option<AABB>)
        ensures
            final(self).objects@ == old(self).objects@.push(object),
    {
        self.objects.push(object);
    }

    /// Removes every object.
    pub fn clear(&mut self)
        ensures
            final(self).objects@.len() == 0,
    {
        self.objects.clear();
    }

    /// Whether the list holds no object.
    pub fn is_empty(&self) -> (r: bool)
        ensures
            r == (self.objects@.len() == 0),
    {
        self.objects.len() == 0
    }

    /// Picks the object that a direction towards the list is aimed at: one
    /// of the objects, drawn at random. An empty list has none.
    pub fn random(&self) -> (r: Option<usize>)
        ensures
            r.is_some() <==> self.objects@.len() > 0,
            r.is_some() ==> r.unwrap() < self.objects@.len(),
    {
        if self.objects.len() == 0 {
            None
        } else {
            Some(random_below(self.objects.len()))
        }
    }

    /// Finds the nearest hit of a ray with the objects of the list.
    ///
    /// `object_test` is asked for each object in turn, by its position in
    /// the list, with the range in which a hit still counts: from `t_min` to
    /// the nearest hit found so far, or to `t_max` while none is found. The
    /// last hit reported is returned with the position of its object.
    pub fn hit<S, H>(&self, t_min: Key, t_max: Key, object_test: &H) -> (r: Option<
        (usize, HitRecord<S>),
    >) where H: Fn(usize, Key, Key) -> Option<HitRecord<S>>
        requires
            forall|object: usize, bound: Key|
                object < self.objects@.len() ==> call_requires(
                    *object_test,
                    (object, t_min, bound),
                ),
        ensures
            scanned(r, self.objects@.len(), t_min, t_max, *object_test),
            forall|nearest: spec_fn(usize) -> Option<HitRecord<S>>|
                answers(*object_test, t_min, nearest) ==> r == #[trigger] scan(
                    self.objects@.len(),
                    t_max,
                    nearest,
                ),
    {
        let mut found: Option<(usize, HitRecord<S>)> = None;
        let mut closest_so_far = t_max;
        let mut i: usize = 0;
        while i < self.objects.len()
            invariant
                i <= self.objects@.len(),
                forall|object: usize, bound: Key|
                    object < self.objects@.len() ==> call_requires(
                        *object_test,
                        (object, t_min, bound),
                    ),
                closest_so_far == bound_after(found, t_max),
                scanned(found, i as nat, t_min, t_max, *object_test),
                forall|nearest: spec_fn(usize) -> Option<HitRecord<S>>|
                    answers(*object_test, t_min, nearest) ==> found == #[trigger] scan(
                        i as nat,
                        t_max,
                        nearest,
                    ),
            decreases self.objects@.len() - i,
        {
            let ghost before = found;
            let answer = object_test(i, t_min, closest_so_far);
            let ghost told = answer;
            if let Some(rec) = answer {
                closest_so_far = rec.t;
                found = Some((i, rec));
            }
            proof {
                assert(call_ensures(*object_test, (i, t_min, bound_after(before, t_max)), told));
                assert(scanned(before, i as nat, t_min, t_max, *object_test));
                assert(scanned(found, (i + 1) as nat, t_min, t_max, *object_test));
                assert forall|nearest: spec_fn(usize) -> Option<HitRecord<S>>|
                    answers(*object_test, t_min, nearest) implies found == #[trigger] scan(
                    (i + 1) as nat,
                    t_max,
                    nearest,
                ) by {
                    assert(before == scan(i as nat, t_max, nearest));
                }
            }
            i += 1;
        }
        found
    }

    /// The box that encloses the list: the union of the zero box with the
    /// box of every object. There is none if the list is empty or if any
    /// object is unbounded.
    pub fn bounding_box(&self) -> (r: Option<AABB>)
        ensures
            r.is_some() <==> self.objects@.len() > 0 && all_bounded(self.objects@),
            r.is_some() ==> r.unwrap() == enclosure(self.objects@),
    {
        if self.objects.len() == 0 {
            return None;
        }
        let mut temp_box = AABB::default();
        let mut i: usize = 0;
        while i < self.objects.len()
            invariant
                i <= self.objects@.len(),
                all_bounded(self.objects@.subrange(0, i as int)),
                temp_box == enclosure(self.objects@.subrange(0, i as int)),
            decreases self.objects@.len() - i,
        {
            let ghost seen = self.objects@.subrange(0, i as int);
            match self.objects[i] {
                Some(bbox) => {
                    temp_box = temp_box.surrounding_box(bbox);
                },
                None => {
                    return None;
                },
            }
            i += 1;
            assert(self.objects@.subrange(0, i as int).drop_last() =~= seen);
        }
        assert(self.objects@.subrange(0, i as int) =~= self.objects@);
        Some(temp_box)
    }
}

} // verus!
