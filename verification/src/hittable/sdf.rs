//! Distance fields: the march along a ray that turns a field into a shape,
//! and the bounding boxes of combined fields.
//!
//! A combinator is held here by what it reads of its children when asked for
//! its box: each child's own box, or nothing where the child is unbounded.

use vstd::prelude::*;
use crate::aabb::AABB;
use crate::vec3::Key;

verus! {

/// The number of steps after which a march gives up.
pub const MAX_STEPS: u16 = 2000;

/// What a march along a ray does next.
#[derive(Clone, Copy, Debug, PartialEq, Eq, Structural)]
pub enum March {
    /// The surface is reached at the current parameter.
    Hit,
    /// The ray misses the field.
    Miss,
    /// The parameter moves on by the distance to the surface.
    Advance,
}

/// Where a march begins: where the ray enters the bounding box of the field,
/// if the field has a box and the ray meets it, else at the lower end of the
/// range.
pub fn march_start(box_entry: Option<Key>, t_min: Key) -> (r: Key)
    ensures
        r == match box_entry {
            Some(t) => t,
            None => t_min,
        },
{
    match box_entry {
        Some(t) => t,
        None => t_min,
    }
}

/// What a march does after `steps` steps, at the parameter `t`, where the
/// field gives the signed distance `distance`: it gives up if the step
/// budget is spent; it has missed if the parameter has left the range, which
/// ends before `t_max`; it has hit if the distance is below `epsilon`; it
/// has missed if the distance is beyond `horizon`; else it moves on.
pub open spec fn verdict(steps: u16, distance: Key, t: Key, t_max: Key, epsilon: Key, horizon: Key) -> March {
    if steps >= MAX_STEPS || t >= t_max {
        March::Miss
    } else if distance < epsilon {
        March::Hit
    } else if distance > horizon {
        March::Miss
    } else {
        March::Advance
    }
}

/// Decides the next move of a march. A march that moves on has taken fewer
/// than [`MAX_STEPS`] steps, so no march moves on more often than that.
pub fn march(steps: u16, distance: Key, t: Key, t_max: Key, epsilon: Key, horizon: Key) -> (r:
    March)
    ensures
        r == verdict(steps, distance, t, t_max, epsilon, horizon),
        r == March::Advance ==> steps < MAX_STEPS,
{
    if steps >= MAX_STEPS || t >= t_max {
        return March::Miss;
    }
    if distance < epsilon {
        return March::Hit;
    }
    if distance > horizon {
        return March::Miss;
    }
    March::Advance
}

/// What a field reports at one ray parameter: the signed distance to the
/// surface there, and the parameter moved on by that distance.
#[derive(Clone, Copy, Debug, PartialEq, Eq, Structural)]
pub struct Probe {
    pub distance: Key,
    pub next: Key,
}

/// Whether `probe` tells what `field` answers when asked at a ray parameter.
pub open spec fn probes<F: Fn(Key) -> Probe>(field: F, probe: spec_fn(Key) -> Probe) -> bool {
    forall|t: Key, r: Probe| #[trigger] call_ensures(field, (t,), r) ==> r == probe(t)
}

/// Where a march that has taken `steps` steps and stands at the parameter
/// `t` ends: at the parameter where it hits, or nowhere if it misses or
/// gives up.
pub open spec fn traced(
    steps: u16,
    t: Key,
    t_max: Key,
    epsilon: Key,
    horizon: Key,
    probe: spec_fn(Key) -> Probe,
) -> Option<Key>
    decreases MAX_STEPS - steps,
{
    match verdict(steps, probe(t).distance, t, t_max, epsilon, horizon) {
        March::Hit => Some(t),
        March::Miss => None,
        March::Advance => traced(
            (steps + 1) as u16,
            probe(t).next,
            t_max,
            epsilon,
            horizon,
            probe,
        ),
    }
}

/// Whether `field` can have given the answers from which `r` is where a
/// march that has taken `steps` steps and stands at the parameter `t` ends:
/// the end of [`traced`], with each answer one that the field may give when
/// asked.
pub open spec fn marched<F: Fn(Key) -> Probe>(
    r: Option<Key>,
    steps: u16,
    t: Key,
    t_max: Key,
    epsilon: Key,
    horizon: Key,
    field: F,
) -> bool
    decreases MAX_STEPS - steps,
{
    if steps >= MAX_STEPS {
        r.is_none()
    } else {
        exists|here: Probe| #[trigger]
            call_ensures(field, (t,), here) && match verdict(
                steps,
                here.distance,
                t,
                t_max,
                epsilon,
                horizon,
            ) {
                March::Hit => r == Some(t),
                March::Miss => r.is_none(),
                March::Advance => marched(
                    r,
                    (steps + 1) as u16,
                    here.next,
                    t_max,
                    epsilon,
                    horizon,
                    field,
                ),
            }
    }
}

/// Marches along a ray from the parameter `start`, asking `field` at each
/// step for the distance to the surface and for the parameter moved on by
/// it, until the surface is reached or the march ends without a hit. The
/// field is asked at most [`MAX_STEPS`] times.
pub fn trace<F>(start: Key, t_max: Key, epsilon: Key, horizon: Key, field: &F) -> (r: Option<
    Key,
>) where F: Fn(Key) -> Probe
    requires
        forall|t: Key| call_requires(*field, (t,)),
    ensures
        forall|probe: spec_fn(Key) -> Probe|
            probes(*field, probe) ==> r == #[trigger] traced(
                0,
                start,
                t_max,
                epsilon,
                horizon,
                probe,
            ),
        marched(r, 0, start, t_max, epsilon, horizon, *field),
        r.is_some() ==> r.unwrap() < t_max && exists|here: Probe| #[trigger]
            call_ensures(*field, (r.unwrap(),), here) && here.distance < epsilon,
{
    let mut t = start;
    let mut steps: u16 = 0;
    loop
        invariant
            steps <= MAX_STEPS,
            forall|t: Key| call_requires(*field, (t,)),
            forall|probe: spec_fn(Key) -> Probe|
                probes(*field, probe) ==> traced(steps, t, t_max, epsilon, horizon, probe)
                    == #[trigger] traced(0, start, t_max, epsilon, horizon, probe),
            forall|end: Option<Key>| #[trigger]
                marched(end, steps, t, t_max, epsilon, horizon, *field) ==> marched(
                    end,
                    0,
                    start,
                    t_max,
                    epsilon,
                    horizon,
                    *field,
                ),
        decreases MAX_STEPS - steps,
    {
        if steps >= MAX_STEPS {
            assert(marched(None, steps, t, t_max, epsilon, horizon, *field));
            return None;
        }
        let here = field(t);
        match march(steps, here.distance, t, t_max, epsilon, horizon) {
            March::Hit => {
                assert(call_ensures(*field, (t,), here) && here.distance < epsilon);
                assert(marched(Some(t), steps, t, t_max, epsilon, horizon, *field));
                return Some(t);
            },
            March::Miss => {
                assert(call_ensures(*field, (t,), here));
                assert(marched(None, steps, t, t_max, epsilon, horizon, *field));
                return None;
            },
            March::Advance => {
                proof {
                    assert forall|end: Option<Key>| #[trigger]
                        marched(
                            end,
                            (steps + 1) as u16,
                            here.next,
                            t_max,
                            epsilon,
                            horizon,
                            *field,
                        ) implies marched(end, 0, start, t_max, epsilon, horizon, *field) by {
                        assert(call_ensures(*field, (t,), here));
                        assert(marched(end, steps, t, t_max, epsilon, horizon, *field));
                    }
                    assert forall|probe: spec_fn(Key) -> Probe| probes(*field, probe) implies traced(
                        (steps + 1) as u16,
                        here.next,
                        t_max,
                        epsilon,
                        horizon,
                        probe,
                    ) == #[trigger] traced(0, start, t_max, epsilon, horizon, probe) by {
                        assert(traced(steps, t, t_max, epsilon, horizon, probe) == traced(
                            0,
                            start,
                            t_max,
                            epsilon,
                            horizon,
                            probe,
                        ));
                    }
                }
                t = here.next;
                steps += 1;
            },
        }
    }
}

/// A march that hits has reached the surface within the range: at the
/// parameter where it ends, which lies before `t_max`, the field is nearer
/// than `epsilon`.
pub proof fn lemma_traced_reaches_surface(
    steps: u16,
    t: Key,
    t_max: Key,
    epsilon: Key,
    horizon: Key,
    probe: spec_fn(Key) -> Probe,
)
    requires
        traced(steps, t, t_max, epsilon, horizon, probe).is_some(),
    ensures
        probe(traced(steps, t, t_max, epsilon, horizon, probe).unwrap()).distance < epsilon,
        traced(steps, t, t_max, epsilon, horizon, probe).unwrap() < t_max,
    decreases MAX_STEPS - steps,
{
    match verdict(steps, probe(t).distance, t, t_max, epsilon, horizon) {
        March::Advance => {
            lemma_traced_reaches_surface(
                (steps + 1) as u16,
                probe(t).next,
                t_max,
                epsilon,
                horizon,
                probe,
            );
        },
        _ => {},
    }
}

/// The union of two fields: the nearer of the two surfaces.
#[derive(Clone, Copy, Debug, PartialEq, Eq, Structural)]
pub struct SDFUnion {
    pub a: Option<AABB>,
    pub b: Option<AABB>,
}

/// The field `a` with the field `b` carved out of it.
#[derive(Clone, Copy, Debug, PartialEq, Eq, Structural)]
pub struct SDFSubstraction {
    pub a: Option<AABB>,
    pub b: Option<AABB>,
}

/// The part that two fields have in common.
#[derive(Clone, Copy, Debug, PartialEq, Eq, Structural)]
pub struct SDFIntersection {
    pub a: Option<AABB>,
    pub b: Option<AABB>,
}

/// The field `a` repeated without end along a period.
#[derive(Clone, Copy, Debug, PartialEq, Eq, Structural)]
pub struct SDFRepetition {
    pub a: Option<AABB>,
}

/// The field `a`, or its bounding box drawn in its place.
#[derive(Clone, Copy, Debug, PartialEq, Eq, Structural)]
pub struct SDFDebugBounding {
    pub a: Option<AABB>,
    pub debug: bool,
}

impl SDFUnion {
    /// The union of the children's boxes; unbounded as soon as one child is.
    pub fn bounding_box(&self) -> (r: Option<AABB>)
        ensures
            r.is_some() <==> self.a.is_some() && self.b.is_some(),
            r.is_some() ==> r.unwrap() == self.a.unwrap().union(self.b.unwrap()),
    {
        if let Some(box_a) = self.a {
            if let Some(box_b) = self.b {
                return Some(box_a.surrounding_box(box_b));
            }
        }
        None
    }
}

impl SDFSubstraction {
    /// The box of `a`: carving takes away and adds nothing.
    pub fn bounding_box(&self) -> (r: Option<AABB>)
        ensures
            r == self.a,
    {
        self.a
    }
}

impl SDFIntersection {
    /// The box of `a` if it has one, else the box of `b`: the common part
    /// lies inside either.
    pub fn bounding_box(&self) -> (r: Option<AABB>)
        ensures
            r == if self.a.is_some() {
                self.a
            } else {
                self.b
            },
    {
        if let Some(box_a) = self.a {
            return Some(box_a);
        }
        if let Some(box_b) = self.b {
            return Some(box_b);
        }
        None
    }
}

impl SDFRepetition {
    /// A repeated field has no finite extent.
    pub fn bounding_box(&self) -> (r: Option<AABB>)
        ensures
            r.is_none(),
    {
        None
    }
}

impl SDFDebugBounding {
    /// The box of `a`, whether the field or its box is drawn.
    pub fn bounding_box(&self) -> (r: Option<AABB>)
        ensures
            r == self.a,
    {
        self.a
    }
}

} // verus!
