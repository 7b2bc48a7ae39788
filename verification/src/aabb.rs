//! Axis-aligned bounding boxes and their union.

use vstd::prelude::*;
use crate::vec3::{key_max, key_min, lower, upper, Key, Point, Vec3};

verus! {

/// An axis-aligned box, given by its two extreme corners.
#[derive(Clone, Copy, Debug, PartialEq, Eq, Structural)]
pub struct AABB {
    pub min: Point,
    pub max: Point,
}

/// The two ray parameters at which a ray crosses the pair of planes that
/// bound a box on one axis, in either order.
#[derive(Clone, Copy, Debug, PartialEq, Eq, Structural)]
pub struct Slab {
    pub t0: Key,
    pub t1: Key,
}

impl Slab {
    /// The parameter at which the ray enters the slab.
    pub open spec fn entry(self) -> Key {
        lower(self.t0, self.t1)
    }

    /// The parameter at which the ray leaves the slab.
    pub open spec fn exit(self) -> Key {
        upper(self.t0, self.t1)
    }
}

/// The greatest of the lower bound `t_min` and the entries of the slabs:
/// where a ray that starts at `t_min` is first inside all of them.
pub open spec fn latest_entry(x: Slab, y: Slab, z: Slab, t_min: Key) -> Key {
    upper(upper(upper(t_min, x.entry()), y.entry()), z.entry())
}

/// The least of the upper bound `t_max` and the exits of the slabs: where a
/// ray that ends at `t_max` first leaves one of them.
pub open spec fn earliest_exit(x: Slab, y: Slab, z: Slab, t_max: Key) -> Key {
    lower(lower(lower(t_max, x.exit()), y.exit()), z.exit())
}

/// Whether something is left of the range from `t_min` to `t_max` after it
/// has been narrowed by the three slabs: whether the ray, within the range,
/// passes through the box.
pub open spec fn reaches(x: Slab, y: Slab, z: Slab, t_min: Key, t_max: Key) -> bool {
    latest_entry(x, y, z, t_min) < earliest_exit(x, y, z, t_max)
}

impl AABB {
    /// The box that is the single point at the origin.
    pub open spec fn zero() -> AABB {
        AABB { min: Vec3::splat(0), max: Vec3::splat(0) }
    }

    /// A box is well formed when its minimum corner is not above its maximum
    /// corner on any axis.
    pub open spec fn wf(self) -> bool {
        self.min.le(self.max)
    }

    /// Whether `inner` lies within `self` on every axis.
    pub open spec fn contains(self, inner: AABB) -> bool {
        self.min.le(inner.min) && inner.max.le(self.max)
    }

    /// Whether the point `p` lies within `self` on every axis.
    pub open spec fn contains_point(self, p: Point) -> bool {
        self.min.le(p) && p.le(self.max)
    }

    /// The box that holds the single point `p`.
    pub open spec fn around(p: Point) -> AABB {
        AABB { min: p, max: p }
    }

    /// The union of two boxes: the smaller minimum and the larger maximum on
    /// each axis.
    pub open spec fn union(self, other: AABB) -> AABB {
        AABB { min: self.min.meet(other.min), max: self.max.join(other.max) }
    }

    /// Returns the union of `self` and `other`.
    pub fn surrounding_box(&self, other: AABB) -> (r: AABB)
        ensures
            r == self.union(other),
    {
        let min = Point {
            x: key_min(self.min.x, other.min.x),
            y: key_min(self.min.y, other.min.y),
            z: key_min(self.min.z, other.min.z),
        };
        let max = Point {
            x: key_max(self.max.x, other.max.x),
            y: key_max(self.max.y, other.max.y),
            z: key_max(self.max.z, other.max.z),
        };
        AABB { min, max }
    }

    /// The slab test. Given for each axis the parameters at which a ray
    /// crosses the two planes of a box, it narrows the range from `t_min` to
    /// `t_max` by each slab in turn, and fails as soon as nothing is left of
    /// it. On success it returns the parameter at which the ray, within the
    /// range, is first inside the box.
    pub fn hit(x: Slab, y: Slab, z: Slab, t_min: Key, t_max: Key) -> (r: Option<Key>)
        ensures
            r == if reaches(x, y, z, t_min, t_max) {
                Some(latest_entry(x, y, z, t_min))
            } else {
                None
            },
    {
        let slabs = [x, y, z];
        let mut min = t_min;
        let mut max = t_max;
        let mut a: usize = 0;
        while a < 3
            invariant
                a <= 3,
                slabs@ == seq![x, y, z],
                min < max || a == 0,
                a == 0 ==> min == t_min && max == t_max,
                a == 1 ==> min == upper(t_min, x.entry()) && max == lower(t_max, x.exit()),
                a == 2 ==> min == upper(upper(t_min, x.entry()), y.entry()) && max == lower(
                    lower(t_max, x.exit()),
                    y.exit(),
                ),
                a == 3 ==> min == latest_entry(x, y, z, t_min) && max == earliest_exit(
                    x,
                    y,
                    z,
                    t_max,
                ),
            decreases 3 - a,
        {
            let slab = slabs[a];
            let t0 = key_min(slab.t0, slab.t1);
            let t1 = key_max(slab.t0, slab.t1);
            min = key_max(min, t0);
            max = key_min(max, t1);
            if max <= min {
                return None;
            }
            a += 1;
        }
        Some(min)
    }

    /// A ray whose range misses the box on some axis misses the box: if on
    /// one axis the range ends before the slab begins, or begins after the
    /// slab ends, nothing is left of it.
    pub proof fn lemma_hit_needs_overlap(x: Slab, y: Slab, z: Slab, t_min: Key, t_max: Key)
        requires
            t_max <= x.entry() || x.exit() <= t_min || t_max <= y.entry() || y.exit() <= t_min
                || t_max <= z.entry() || z.exit() <= t_min || t_max <= t_min,
        ensures
            !reaches(x, y, z, t_min, t_max),
    {
    }

    /// Where the slab test succeeds, the parameter it returns lies in the
    /// range, at or after `t_min` and before `t_max`; the ray is inside every
    /// slab there; and it is either the start of the range or a parameter
    /// at which the ray crosses a plane of the box.
    pub proof fn lemma_hit_is_entry(x: Slab, y: Slab, z: Slab, t_min: Key, t_max: Key)
        requires
            reaches(x, y, z, t_min, t_max),
        ensures
            t_min <= latest_entry(x, y, z, t_min) < t_max,
            x.entry() <= latest_entry(x, y, z, t_min) < x.exit(),
            y.entry() <= latest_entry(x, y, z, t_min) < y.exit(),
            z.entry() <= latest_entry(x, y, z, t_min) < z.exit(),
            latest_entry(x, y, z, t_min) == t_min || latest_entry(x, y, z, t_min) == x.entry()
                || latest_entry(x, y, z, t_min) == y.entry() || latest_entry(x, y, z, t_min)
                == z.entry(),
    {
    }

    /// The eight corners of a box, the x coordinate changing slowest and the
    /// z coordinate fastest, each from the minimum to the maximum.
    pub open spec fn corner_points(self) -> Seq<Point> {
        seq![
            Vec3 { x: self.min.x, y: self.min.y, z: self.min.z },
            Vec3 { x: self.min.x, y: self.min.y, z: self.max.z },
            Vec3 { x: self.min.x, y: self.max.y, z: self.min.z },
            Vec3 { x: self.min.x, y: self.max.y, z: self.max.z },
            Vec3 { x: self.max.x, y: self.min.y, z: self.min.z },
            Vec3 { x: self.max.x, y: self.min.y, z: self.max.z },
            Vec3 { x: self.max.x, y: self.max.y, z: self.min.z },
            Vec3 { x: self.max.x, y: self.max.y, z: self.max.z },
        ]
    }

    /// Lists the eight corners of the box.
    pub fn corners(&self) -> (r: Vec<Point>)
        ensures
            r@ == self.corner_points(),
    {
        let mut r: Vec<Point> = Vec::new();
        let mut i: usize = 0;
        while i < 8
            invariant
                i <= 8,
                r@ == self.corner_points().subrange(0, i as int),
            decreases 8 - i,
        {
            let x = if i / 4 == 1 {
                self.max.x
            } else {
                self.min.x
            };
            let y = if (i / 2) % 2 == 1 {
                self.max.y
            } else {
                self.min.y
            };
            let z = if i % 2 == 1 {
                self.max.z
            } else {
                self.min.z
            };
            r.push(Vec3 { x, y, z });
            i += 1;
            assert(r@ =~= self.corner_points().subrange(0, i as int));
        }
        assert(self.corner_points().subrange(0, 8) =~= self.corner_points());
        r
    }

    /// The least box that holds all of `points`, of which there is at least
    /// one.
    pub open spec fn hull(points: Seq<Point>) -> AABB
        decreases points.len(),
    {
        if points.len() <= 1 {
            AABB::around(points[0])
        } else {
            AABB::hull(points.drop_last()).union(AABB::around(points.last()))
        }
    }

    /// Returns the axis-aligned extent of a set of points: the least box that
    /// holds them all. No points have no extent.
    pub fn enclosing(points: &Vec<Point>) -> (r: Option<AABB>)
        ensures
            r.is_some() <==> points@.len() > 0,
            r.is_some() ==> r.unwrap() == AABB::hull(points@),
    {
        if points.len() == 0 {
            return None;
        }
        let mut hull = AABB { min: points[0], max: points[0] };
        let mut i: usize = 1;
        assert(points@.subrange(0, 1)[0] == points@[0]);
        while i < points.len()
            invariant
                1 <= i <= points@.len(),
                hull == AABB::hull(points@.subrange(0, i as int)),
            decreases points@.len() - i,
        {
            let ghost seen = points@.subrange(0, i as int);
            let p = points[i];
            hull = hull.surrounding_box(AABB { min: p, max: p });
            i += 1;
            assert(points@.subrange(0, i as int).drop_last() =~= seen);
        }
        assert(points@.subrange(0, i as int) =~= points@);
        Some(hull)
    }

    /// The hull of a set of points is well formed and holds each of them.
    pub proof fn lemma_hull_contains(points: Seq<Point>, i: int)
        requires
            0 <= i < points.len(),
        ensures
            AABB::hull(points).wf(),
            AABB::hull(points).contains_point(points[i]),
        decreases points.len(),
    {
        if points.len() > 1 {
            let rest = points.drop_last();
            AABB::lemma_hull_contains(rest, if i < rest.len() { i } else { 0 });
        }
    }

    /// The hull is the least such box: a box that holds every point holds
    /// the hull.
    pub proof fn lemma_hull_least(points: Seq<Point>, outer: AABB)
        requires
            points.len() > 0,
            forall|i: int| 0 <= i < points.len() ==> outer.contains_point(#[trigger] points[i]),
        ensures
            outer.contains(AABB::hull(points)),
        decreases points.len(),
    {
        if points.len() > 1 {
            let rest = points.drop_last();
            assert forall|i: int| 0 <= i < rest.len() implies outer.contains_point(
                #[trigger] rest[i],
            ) by {
                assert(rest[i] == points[i]);
            }
            AABB::lemma_hull_least(rest, outer);
            assert(outer.contains_point(points[points.len() - 1]));
        } else {
            assert(outer.contains_point(points[0]));
        }
    }

    /// A well-formed box is the hull of its corners.
    pub proof fn lemma_hull_of_corners(self)
        requires
            self.wf(),
        ensures
            AABB::hull(self.corner_points()) == self,
    {
        reveal_with_fuel(AABB::hull, 9);
        let c = self.corner_points();
        assert(c.drop_last().len() == 7);
        assert(c.drop_last().drop_last().len() == 6);
        assert(c.drop_last().drop_last().drop_last().len() == 5);
        assert(c.drop_last().drop_last().drop_last().drop_last().len() == 4);
        assert(c.drop_last().drop_last().drop_last().drop_last().drop_last().len() == 3);
    }

    /// The union of a box with itself is that box.
    pub proof fn lemma_union_idempotent(self)
        ensures
            self.union(self) == self,
    {
    }

    /// The union of two boxes contains both of them.
    pub proof fn lemma_union_contains_both(self, other: AABB)
        ensures
            self.union(other).contains(self),
            self.union(other).contains(other),
    {
    }

    /// The union is the least box that contains both: any box that contains
    /// the two contains their union.
    pub proof fn lemma_union_least(self, other: AABB, outer: AABB)
        requires
            outer.contains(self),
            outer.contains(other),
        ensures
            outer.contains(self.union(other)),
    {
    }

    /// The union does not depend on the order of the two boxes.
    pub proof fn lemma_union_commutative(self, other: AABB)
        ensures
            self.union(other) == other.union(self),
    {
    }

    /// Folding boxes into a union gives the same box however the unions are
    /// grouped.
    pub proof fn lemma_union_associative(self, b: AABB, c: AABB)
        ensures
            self.union(b).union(c) == self.union(b.union(c)),
    {
    }

    /// The union of well-formed boxes is well formed.
    pub proof fn lemma_union_wf(self, other: AABB)
        requires
            self.wf(),
            other.wf(),
        ensures
            self.union(other).wf(),
    {
    }

    /// Containment is transitive.
    pub proof fn lemma_contains_transitive(self, middle: AABB, inner: AABB)
        requires
            self.contains(middle),
            middle.contains(inner),
        ensures
            self.contains(inner),
    {
    }

    /// A box contains any point that a box inside it contains.
    pub proof fn lemma_contains_point_of_inner(self, inner: AABB, p: Point)
        requires
            self.contains(inner),
            inner.contains_point(p),
        ensures
            self.contains_point(p),
    {
    }
}

impl Default for AABB {
    /// The zero box.
    fn default() -> (r: Self)
        ensures
            r == AABB::zero(),
    {
        AABB { min: Vec3::zeros(), max: Vec3::zeros() }
    }
}

} // verus!
