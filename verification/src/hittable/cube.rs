//! The box as a shape: six rectangles, one per face.

use vstd::prelude::*;
use crate::aabb::AABB;
use crate::hittable::rectangle::{Plane, Rect};
use crate::vec3::Point;

verus! {

/// An axis-aligned box between two corners, with its six faces.
#[derive(Debug)]
pub struct Cube {
    pub box_min: Point,
    pub box_max: Point,
    pub sides: Vec<Rect>,
}

/// The face of the box between `box_min` and `box_max` that is parallel to
/// `plane`: the one through `box_max` if `far`, else the one through
/// `box_min`. It spans the whole range of the box on both free axes.
pub open spec fn face(box_min: Point, box_max: Point, plane: Plane, far: bool) -> Rect {
    let (k, a, b) = plane.axes();
    Rect {
        a0: box_min.get(a as int),
        a1: box_max.get(a as int),
        b0: box_min.get(b as int),
        b1: box_max.get(b as int),
        k: if far {
            box_max.get(k as int)
        } else {
            box_min.get(k as int)
        },
        plane,
    }
}

/// Computes [`face`].
fn make_face(box_min: &Point, box_max: &Point, plane: Plane, far: bool) -> (r: Rect)
    ensures
        r == face(*box_min, *box_max, plane, far),
{
    let (k, a, b) = plane.get_index();
    Rect {
        a0: box_min.index(a),
        a1: box_max.index(a),
        b0: box_min.index(b),
        b1: box_max.index(b),
        k: if far {
            box_max.index(k)
        } else {
            box_min.index(k)
        },
        plane,
    }
}

impl Cube {
    /// The six faces, in the order they are built: for each of the planes
    /// XY, XZ and YZ the near face, then the far one.
    pub open spec fn faces(box_min: Point, box_max: Point) -> Seq<Rect> {
        seq![
            face(box_min, box_max, Plane::XY, false),
            face(box_min, box_max, Plane::XY, true),
            face(box_min, box_max, Plane::XZ, false),
            face(box_min, box_max, Plane::XZ, true),
            face(box_min, box_max, Plane::YZ, false),
            face(box_min, box_max, Plane::YZ, true),
        ]
    }

    /// Builds the box between two corners.
    pub fn new(box_min: Point, box_max: Point) -> (r: Self)
        ensures
            r.box_min == box_min,
            r.box_max == box_max,
            r.sides@ == Cube::faces(box_min, box_max),
    {
        let mut sides: Vec<Rect> = Vec::new();
        sides.push(make_face(&box_min, &box_max, Plane::XY, false));
        sides.push(make_face(&box_min, &box_max, Plane::XY, true));
        sides.push(make_face(&box_min, &box_max, Plane::XZ, false));
        sides.push(make_face(&box_min, &box_max, Plane::XZ, true));
        sides.push(make_face(&box_min, &box_max, Plane::YZ, false));
        sides.push(make_face(&box_min, &box_max, Plane::YZ, true));
        assert(sides@ =~= Cube::faces(box_min, box_max));
        Cube { box_min, box_max, sides }
    }

    /// The bounding box of a box is the box itself.
    pub fn bounding_box(&self) -> (r: Option<AABB>)
        ensures
            r == Some(AABB { min: self.box_min, max: self.box_max }),
    {
        Some(AABB { min: self.box_min, max: self.box_max })
    }

    /// Every face lies in a boundary plane of the box and spans the box on
    /// its two free axes, and every boundary plane holds a face.
    pub proof fn lemma_faces_cover(box_min: Point, box_max: Point)
        ensures
            Cube::faces(box_min, box_max).len() == 6,
            forall|i: int|
                0 <= i < 6 ==> {
                    let side = #[trigger] Cube::faces(box_min, box_max)[i];
                    let (k, a, b) = side.plane.axes();
                    &&& side.a0 == box_min.get(a as int)
                    &&& side.a1 == box_max.get(a as int)
                    &&& side.b0 == box_min.get(b as int)
                    &&& side.b1 == box_max.get(b as int)
                    &&& (side.k == box_min.get(k as int) || side.k == box_max.get(k as int))
                },
            forall|plane: Plane, far: bool|
                Cube::faces(box_min, box_max).contains(#[trigger] face(box_min, box_max, plane, far)),
    {
        let faces = Cube::faces(box_min, box_max);
        assert forall|plane: Plane, far: bool| faces.contains(
            #[trigger] face(box_min, box_max, plane, far),
        ) by {
            let near: int = match plane {
                Plane::XY => 0int,
                Plane::XZ => 2int,
                Plane::YZ => 4int,
            };
            let i: int = if far {
                near + 1
            } else {
                near
            };
            assert(faces[i] == face(box_min, box_max, plane, far));
        }
    }
}

} // verus!
