//! Orientation of axis-aligned rectangles.

use vstd::prelude::*;
use crate::vec3::Key;

verus! {

/// The coordinate plane that an axis-aligned rectangle lies parallel to.
#[derive(Clone, Copy, Debug, PartialEq, Eq, Structural)]
pub enum Plane {
    XY,
    XZ,
    YZ,
}

impl Plane {
    /// The axes of this orientation as `(k, a, b)`: `k` is the axis the
    /// rectangle is perpendicular to, `a` and `b` are the two axes it spans,
    /// in increasing order. Axes are numbered x = 0, y = 1, z = 2.
    pub open spec fn axes(self) -> (usize, usize, usize) {
        match self {
            Plane::XY => (2, 0, 1),
            Plane::XZ => (1, 0, 2),
            Plane::YZ => (0, 1, 2),
        }
    }

    /// Returns the fixed axis and the two free axes of this orientation.
    pub fn get_index(&self) -> (r: (usize, usize, usize))
        ensures
            r == self.axes(),
    {
        match self {
            Plane::XY => (2, 0, 1),
            Plane::XZ => (1, 0, 2),
            Plane::YZ => (0, 1, 2),
        }
    }

    /// The three axes of an orientation are the three coordinate axes, each
    /// once: the fixed axis is the one the two free axes leave out, and the
    /// free axes come in increasing order.
    pub proof fn lemma_axes_partition(self)
        ensures
            self.axes().0 < 3,
            self.axes().1 < self.axes().2 < 3,
            self.axes().0 != self.axes().1,
            self.axes().0 != self.axes().2,
            self.axes().0 + self.axes().1 + self.axes().2 == 3,
    {
    }
}

/// An axis-aligned rectangle: the plane `k` along the fixed axis of its
/// orientation, and the ranges `a0..a1` and `b0..b1` along its two free axes.
#[derive(Clone, Copy, Debug, PartialEq, Eq, Structural)]
pub struct Rect {
    pub a0: Key,
    pub a1: Key,
    pub b0: Key,
    pub b1: Key,
    pub k: Key,
    pub plane: Plane,
}

impl Rect {
    /// Whether the point with coordinates `a` and `b` on the free axes lies
    /// on the rectangle, its edges included.
    pub open spec fn covers(self, a: Key, b: Key) -> bool {
        self.a0 <= a <= self.a1 && self.b0 <= b <= self.b1
    }

    /// Decides whether a ray hits the rectangle, given the parameter `t` at
    /// which it crosses the plane of the rectangle and the coordinates `a`
    /// and `b` of the crossing on the free axes: the parameter must lie
    /// strictly between `t_min` and `t_max`, and the crossing on the
    /// rectangle.
    pub fn hit(&self, t: Key, a: Key, b: Key, t_min: Key, t_max: Key) -> (r: bool)
        ensures
            r == (t_min < t < t_max && self.covers(a, b)),
    {
        if t <= t_min || t >= t_max {
            return false;
        }
        if a < self.a0 || a > self.a1 || b < self.b0 || b > self.b1 {
            return false;
        }
        true
    }
}

} // verus!
