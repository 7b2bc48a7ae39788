//! Triangles and the box around one.

use vstd::prelude::*;
use crate::aabb::AABB;
use crate::vec3::{key_max, key_min, Point};

verus! {

/// A triangle, given by its three vertices.
#[derive(Clone, Copy, Debug, PartialEq, Eq, Structural)]
pub struct Triangle {
    pub v0: Point,
    pub v1: Point,
    pub v2: Point,
}

impl Triangle {
    /// The least box that holds the three vertices.
    pub open spec fn hull(self) -> AABB {
        AABB::around(self.v0).union(AABB::around(self.v1)).union(AABB::around(self.v2))
    }

    /// The bounding box of a triangle: on each axis, from the least to the
    /// greatest coordinate of its vertices.
    pub fn bounding_box(&self) -> (r: Option<AABB>)
        ensures
            r == Some(self.hull()),
    {
        Some(
            AABB {
                min: Point {
                    x: key_min(key_min(self.v0.x, self.v1.x), self.v2.x),
                    y: key_min(key_min(self.v0.y, self.v1.y), self.v2.y),
                    z: key_min(key_min(self.v0.z, self.v1.z), self.v2.z),
                },
                max: Point {
                    x: key_max(key_max(self.v0.x, self.v1.x), self.v2.x),
                    y: key_max(key_max(self.v0.y, self.v1.y), self.v2.y),
                    z: key_max(key_max(self.v0.z, self.v1.z), self.v2.z),
                },
            },
        )
    }

    /// The hull is well formed, holds the three vertices, and lies inside
    /// every box that holds them.
    pub proof fn lemma_hull(self, outer: AABB)
        ensures
            self.hull().wf(),
            self.hull().contains_point(self.v0),
            self.hull().contains_point(self.v1),
            self.hull().contains_point(self.v2),
            outer.contains_point(self.v0) && outer.contains_point(self.v1) && outer.contains_point(
                self.v2,
            ) ==> outer.contains(self.hull()),
    {
    }
}

} // verus!
