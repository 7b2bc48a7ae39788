//! The decorator that turns an object: the box around the turned object.

use vstd::prelude::*;
use crate::aabb::AABB;
use crate::vec3::Point;

verus! {

/// Whether `turned` tells where `turn` takes a point.
pub open spec fn turns<T: Fn(Point) -> Point>(turn: T, turned: spec_fn(Point) -> Point) -> bool {
    forall|p: Point, r: Point| #[trigger] call_ensures(turn, (p,), r) ==> r == turned(p)
}

/// Whether `turn` can have taken the points `from` to the points `to`, one
/// by one.
pub open spec fn taken<T: Fn(Point) -> Point>(turn: T, from: Seq<Point>, to: Seq<Point>) -> bool {
    &&& to.len() == from.len()
    &&& forall|i: int| 0 <= i < from.len() ==> call_ensures(turn, (from[i],), #[trigger] to[i])
}

/// The box around a turned object: the axis-aligned extent of the eight
/// corners of the box of the object, each turned by `turn`. An object
/// without a box has none when turned.
pub fn bounding_box<T: Fn(Point) -> Point>(bbox: Option<AABB>, turn: &T) -> (r: Option<AABB>)
    requires
        forall|p: Point| call_requires(*turn, (p,)),
    ensures
        r.is_some() <==> bbox.is_some(),
        bbox.is_some() ==> exists|to: Seq<Point>| #[trigger]
            taken(*turn, bbox.unwrap().corner_points(), to) && r.unwrap() == AABB::hull(to),
        forall|turned: spec_fn(Point) -> Point|
            turns(*turn, turned) && bbox.is_some() ==> r.unwrap() == AABB::hull(
                #[trigger] bbox.unwrap().corner_points().map_values(turned),
            ),
{
    let bbox = match bbox {
        Some(bbox) => bbox,
        None => {
            return None;
        },
    };
    let corners = bbox.corners();
    let mut to: Vec<Point> = Vec::new();
    let mut i: usize = 0;
    while i < corners.len()
        invariant
            i <= corners@.len(),
            corners@ == bbox.corner_points(),
            forall|p: Point| call_requires(*turn, (p,)),
            taken(*turn, corners@.subrange(0, i as int), to@),
        decreases corners@.len() - i,
    {
        let moved = turn(corners[i]);
        to.push(moved);
        i += 1;
    }
    assert(corners@.subrange(0, i as int) =~= corners@);
    let r = AABB::enclosing(&to);
    proof {
        assert forall|turned: spec_fn(Point) -> Point| turns(*turn, turned) implies r.unwrap()
            == AABB::hull(#[trigger] bbox.corner_points().map_values(turned)) by {
            assert(to@ =~= bbox.corner_points().map_values(turned));
        }
    }
    r
}

} // verus!
