//! The pyramid over a four-sided base: six triangles.

use vstd::prelude::*;
use crate::aabb::AABB;
use crate::hittable::triangle::Triangle;
use crate::vec3::{key_max, key_min, Key, Point};

verus! {

/// A pyramid, given by its apex and the four corners of its base in order
/// around the base, with its six triangles.
#[derive(Debug)]
pub struct Pyramid {
    pub top: Point,
    pub base0: Point,
    pub base1: Point,
    pub base2: Point,
    pub base3: Point,
    pub sides: Vec<Triangle>,
}

/// The least of five keys.
fn least(a: Key, b: Key, c: Key, d: Key, e: Key) -> (r: Key)
    ensures
        r == crate::vec3::lower(
            crate::vec3::lower(crate::vec3::lower(crate::vec3::lower(a, b), c), d),
            e,
        ),
{
    key_min(key_min(key_min(key_min(a, b), c), d), e)
}

/// The greatest of five keys.
fn greatest(a: Key, b: Key, c: Key, d: Key, e: Key) -> (r: Key)
    ensures
        r == crate::vec3::upper(
            crate::vec3::upper(crate::vec3::upper(crate::vec3::upper(a, b), c), d),
            e,
        ),
{
    key_max(key_max(key_max(key_max(a, b), c), d), e)
}

impl Pyramid {
    /// The six triangles, in the order they are built: the base, cut along
    /// the diagonal from `base0` to `base2`, then the four flanks around the
    /// apex.
    pub open spec fn triangles(
        top: Point,
        base0: Point,
        base1: Point,
        base2: Point,
        base3: Point,
    ) -> Seq<Triangle> {
        seq![
            Triangle { v0: base0, v1: base1, v2: base2 },
            Triangle { v0: base0, v1: base2, v2: base3 },
            Triangle { v0: top, v1: base0, v2: base1 },
            Triangle { v0: top, v1: base1, v2: base2 },
            Triangle { v0: top, v1: base2, v2: base3 },
            Triangle { v0: top, v1: base3, v2: base0 },
        ]
    }

    /// The least box that holds the five corners.
    pub open spec fn hull(self) -> AABB {
        AABB::around(self.top).union(AABB::around(self.base0)).union(
            AABB::around(self.base1),
        ).union(AABB::around(self.base2)).union(AABB::around(self.base3))
    }

    /// Builds the pyramid with apex `top` over the base `base0 .. base3`.
    pub fn new(top: Point, base0: Point, base1: Point, base2: Point, base3: Point) -> (r: Self)
        ensures
            r.top == top,
            r.base0 == base0,
            r.base1 == base1,
            r.base2 == base2,
            r.base3 == base3,
            r.sides@ == Pyramid::triangles(top, base0, base1, base2, base3),
    {
        let mut sides: Vec<Triangle> = Vec::new();
        sides.push(Triangle { v0: base0, v1: base1, v2: base2 });
        sides.push(Triangle { v0: base0, v1: base2, v2: base3 });
        sides.push(Triangle { v0: top, v1: base0, v2: base1 });
        sides.push(Triangle { v0: top, v1: base1, v2: base2 });
        sides.push(Triangle { v0: top, v1: base2, v2: base3 });
        sides.push(Triangle { v0: top, v1: base3, v2: base0 });
        assert(sides@ =~= Pyramid::triangles(top, base0, base1, base2, base3));
        Pyramid { top, base0, base1, base2, base3, sides }
    }

    /// The bounding box of a pyramid: on each axis, from the least to the
    /// greatest coordinate of its five corners.
    pub fn bounding_box(&self) -> (r: Option<AABB>)
        ensures
            r == Some(self.hull()),
    {
        Some(
            AABB {
                min: Point {
                    x: least(self.top.x, self.base0.x, self.base1.x, self.base2.x, self.base3.x),
                    y: least(self.top.y, self.base0.y, self.base1.y, self.base2.y, self.base3.y),
                    z: least(self.top.z, self.base0.z, self.base1.z, self.base2.z, self.base3.z),
                },
                max: Point {
                    x: greatest(
                        self.top.x,
                        self.base0.x,
                        self.base1.x,
                        self.base2.x,
                        self.base3.x,
                    ),
                    y: greatest(
                        self.top.y,
                        self.base0.y,
                        self.base1.y,
                        self.base2.y,
                        self.base3.y,
                    ),
                    z: greatest(
                        self.top.z,
                        self.base0.z,
                        self.base1.z,
                        self.base2.z,
                        self.base3.z,
                    ),
                },
            },
        )
    }

    /// The hull of a pyramid contains the hull of each of its triangles.
    pub proof fn lemma_hull_contains_sides(self, i: int)
        requires
            self.sides@ == Pyramid::triangles(
                self.top,
                self.base0,
                self.base1,
                self.base2,
                self.base3,
            ),
            0 <= i < 6,
        ensures
            self.hull().contains(self.sides@[i].hull()),
    {
    }
}

} // verus!
