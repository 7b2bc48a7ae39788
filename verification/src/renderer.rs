//! The path integrator: for one ray and what the scene reports about it,
//! how the radiance estimate is put together and with what budget the path
//! goes on; and the recursion that follows a path to its end.
//!
//! Rays and radiance are the caller's. The integrator is handed the
//! functions that look into the scene, shade a hit and continue a ray, and
//! decides which of them is asked when.

use vstd::prelude::*;
use crate::hit_record::HitRecord;
use crate::material::{Emission, Incidence, Material, ScatterRecord, SpecularRay};
use crate::pdf::PDF;

verus! {

/// How the radiance along one ray is estimated.
#[derive(Debug, PartialEq, Eq)]
pub enum Estimate {
    /// The bounce budget is used up: no light is gathered.
    Black,
    /// The ray left the scene: the background gradient at its direction.
    Background,
    /// The surface does not scatter: what it emits, and nothing more.
    Emitted,
    /// The attenuation times the radiance along the one continuation ray,
    /// which is traced with the budget `depth`.
    Specular { specular_ray: SpecularRay, depth: u16 },
    /// The continuation is drawn from `pdf` and traced with the budget
    /// `depth`. The estimate is what the surface emits, plus the
    /// attenuation times the scattering density of the material times the
    /// radiance along the continuation, divided by the density of `pdf` in
    /// the drawn direction.
    Sampled { pdf: PDF, depth: u16 },
}

/// The distribution that a diffuse continuation is drawn from: the
/// material's own where the scene names no lights, else an even mixture of a
/// distribution towards the lights and the material's own.
pub open spec fn sampling_pdf(material_pdf: PDF, lights: nat) -> PDF {
    if lights == 0 {
        material_pdf
    } else {
        PDF::Mixture { p: Box::new(PDF::Hittable), q: Box::new(material_pdf) }
    }
}

/// The estimate for a ray traced with the budget `depth`, given the material
/// at the nearest hit if there is a hit, the incidence at that hit, and the
/// number of lights that the scene names for importance sampling.
pub open spec fn estimate(depth: u16, hit: Option<Material>, incidence: Incidence, lights: nat) -> Estimate {
    if depth == 0 {
        Estimate::Black
    } else {
        match hit {
            None => Estimate::Background,
            Some(material) => match material.scattering(incidence) {
                None => Estimate::Emitted,
                Some(ScatterRecord::Specular { specular_ray }) => Estimate::Specular {
                    specular_ray,
                    depth: (depth - 1) as u16,
                },
                Some(ScatterRecord::Scatter { pdf }) => Estimate::Sampled {
                    pdf: sampling_pdf(pdf, lights),
                    depth: (depth - 1) as u16,
                },
            },
        }
    }
}

/// Decides how the radiance along a ray is estimated.
///
/// `hit` is the nearest intersection of the ray with the scene, `incidence`
/// what the geometry of that hit says, `lights` the number of objects that
/// the scene names as lights. With no budget left the hit is not looked at.
pub fn choose_estimate<S>(
    depth: u16,
    hit: Option<&HitRecord<S>>,
    incidence: &Incidence,
    lights: usize,
) -> (r: Estimate)
    ensures
        r == estimate(
            depth,
            match hit {
                Some(rec) => Some(rec.material),
                None => None,
            },
            *incidence,
            lights as nat,
        ),
{
    if depth == 0 {
        return Estimate::Black;
    }
    let rec = match hit {
        Some(rec) => rec,
        None => {
            return Estimate::Background;
        },
    };
    match rec.material.scatter(incidence) {
        Some(ScatterRecord::Scatter { pdf }) => {
            let p = if lights == 0 {
                pdf
            } else {
                PDF::Mixture { p: Box::new(PDF::Hittable), q: Box::new(pdf) }
            };
            Estimate::Sampled { pdf: p, depth: depth - 1 }
        },
        Some(ScatterRecord::Specular { specular_ray }) => Estimate::Specular {
            specular_ray,
            depth: depth - 1,
        },
        None => Estimate::Emitted,
    }
}

/// With no budget left the estimate is black, whatever the scene holds.
pub proof fn lemma_no_budget_is_black(hit: Option<Material>, incidence: Incidence, lights: nat)
    ensures
        estimate(0, hit, incidence, lights) == Estimate::Black,
{
}

/// A path that goes on goes on with a budget that is one less: a path
/// started with the budget `depth` meets the scene at most `depth` times.
pub proof fn lemma_budget_decreases(
    depth: u16,
    hit: Option<Material>,
    incidence: Incidence,
    lights: nat,
)
    ensures
        match estimate(depth, hit, incidence, lights) {
            Estimate::Specular { depth: next, .. } => next + 1 == depth,
            Estimate::Sampled { depth: next, .. } => next + 1 == depth,
            _ => true,
        },
{
}

/// A light is seen as it is: with budget left, a ray that meets a light on
/// its front face is estimated by the light's own emission alone, and a ray
/// that meets nothing by the background.
pub proof fn lemma_light_is_seen_directly(
    depth: u16,
    material: Material,
    incidence: Incidence,
    lights: nat,
)
    requires
        depth > 0,
        material == Material::DiffuseLight || material == Material::DiffuseLightTexture,
    ensures
        estimate(depth, Some(material), incidence, lights) == Estimate::Emitted,
        material.emission(true) != Emission::Zero,
        estimate(depth, None, incidence, lights) == Estimate::Background,
{
}

/// Only a diffuse surface is sampled, and the lights are mixed in exactly
/// when the scene names some.
pub proof fn lemma_sampling(depth: u16, material: Material, incidence: Incidence, lights: nat)
    requires
        depth > 0,
    ensures
        estimate(depth, Some(material), incidence, lights) matches Estimate::Sampled { .. }
            <==> material.is_diffuse(),
        material.is_diffuse() && lights == 0 ==> estimate(depth, Some(material), incidence, lights)
            == (Estimate::Sampled { pdf: PDF::Cosine, depth: (depth - 1) as u16 }),
        material.is_diffuse() && lights > 0 ==> estimate(depth, Some(material), incidence, lights)
            == (Estimate::Sampled {
            pdf: PDF::Mixture { p: Box::new(PDF::Hittable), q: Box::new(PDF::Cosine) },
            depth: (depth - 1) as u16,
        }),
{
}

/// What a path sees of a scene: for each of the functions that the
/// integrator is handed, what that function answers.
#[verifier::reject_recursive_types(R)]
#[verifier::reject_recursive_types(H)]
#[verifier::reject_recursive_types(C)]
pub struct Shading<R, H, C> {
    /// The nearest hit along a ray, with the incidence at the hit.
    pub look: spec_fn(R) -> Option<(HitRecord<H>, Incidence)>,
    /// The radiance of the background along a ray that leaves the scene.
    pub background: spec_fn(R) -> C,
    /// The radiance that a surface emits at a hit, read from the given
    /// source.
    pub emit: spec_fn(HitRecord<H>, Emission) -> C,
    /// The continuation of a ray after a specular event, and its
    /// attenuation.
    pub reflect: spec_fn(R, HitRecord<H>, SpecularRay) -> (R, C),
    /// A continuation of a ray drawn from a distribution, and its weight:
    /// the attenuation times the scattering density of the material,
    /// divided by the density of the distribution.
    pub draw: spec_fn(R, HitRecord<H>, PDF) -> (R, C),
    /// What is emitted, plus a weight times what comes in.
    pub gather: spec_fn(C, C, C) -> C,
}

/// Whether `shading` tells what the six functions answer.
pub open spec fn shades<R, H, C, L, B, E, F, D, G>(
    shading: Shading<R, H, C>,
    look: L,
    background: B,
    emit: E,
    reflect: F,
    draw: D,
    gather: G,
) -> bool where
    L: Fn(&R) -> Option<(HitRecord<H>, Incidence)>,
    B: Fn(&R) -> C,
    E: Fn(&HitRecord<H>, Emission) -> C,
    F: Fn(&R, &HitRecord<H>, SpecularRay) -> (R, C),
    D: Fn(&R, &HitRecord<H>, &PDF) -> (R, C),
    G: Fn(C, C, C) -> C,
{
    &&& forall|ray: &R, r: Option<(HitRecord<H>, Incidence)>| #[trigger]
        call_ensures(look, (ray,), r) ==> r == (shading.look)(*ray)
    &&& forall|ray: &R, r: C| #[trigger]
        call_ensures(background, (ray,), r) ==> r == (shading.background)(*ray)
    &&& forall|rec: &HitRecord<H>, source: Emission, r: C| #[trigger]
        call_ensures(emit, (rec, source), r) ==> r == (shading.emit)(*rec, source)
    &&& forall|ray: &R, rec: &HitRecord<H>, which: SpecularRay, r: (R, C)| #[trigger]
        call_ensures(reflect, (ray, rec, which), r) ==> r == (shading.reflect)(*ray, *rec, which)
    &&& forall|ray: &R, rec: &HitRecord<H>, pdf: &PDF, r: (R, C)| #[trigger]
        call_ensures(draw, (ray, rec, pdf), r) ==> r == (shading.draw)(*ray, *rec, *pdf)
    &&& forall|emitted: C, weight: C, incoming: C, r: C| #[trigger]
        call_ensures(gather, (emitted, weight, incoming), r) ==> r == (shading.gather)(
            emitted,
            weight,
            incoming,
        )
}

/// The radiance that arrives along `ray`, estimated from one path with the
/// budget `depth`.
///
/// With no budget left it is `black`. A ray that leaves the scene brings
/// the background. At a hit the material decides: a surface that does not
/// scatter shows what it emits; a specular surface the radiance along its
/// one continuation, attenuated; a diffuse surface what it emits plus the
/// weighted radiance along a continuation drawn from its own distribution,
/// mixed with the lights where the scene names some. Every continuation is
/// followed with a budget that is one less.
pub open spec fn radiance<R, H, C>(
    ray: R,
    depth: u16,
    lights: nat,
    black: C,
    shading: Shading<R, H, C>,
) -> C
    decreases depth,
{
    let hit = (shading.look)(ray);
    let material = match hit {
        Some((rec, _)) => Some(rec.material),
        None => None,
    };
    let incidence = match hit {
        Some((_, incidence)) => incidence,
        None => Incidence {
            inward: false,
            total_internal_reflection: false,
            fresnel_reflection: false,
        },
    };
    match estimate(depth, material, incidence, lights) {
        Estimate::Black => black,
        Estimate::Background => (shading.background)(ray),
        Estimate::Emitted => {
            let rec = hit.unwrap().0;
            (shading.emit)(rec, rec.material.emission(rec.front_face))
        },
        Estimate::Specular { specular_ray, depth: left } => {
            let rec = hit.unwrap().0;
            let (next, attenuation) = (shading.reflect)(ray, rec, specular_ray);
            (shading.gather)(black, attenuation, radiance(next, left, lights, black, shading))
        },
        Estimate::Sampled { pdf, depth: left } => {
            let rec = hit.unwrap().0;
            let emitted = (shading.emit)(rec, rec.material.emission(rec.front_face));
            let (next, weight) = (shading.draw)(ray, rec, pdf);
            (shading.gather)(emitted, weight, radiance(next, left, lights, black, shading))
        },
    }
}

/// Whether the six functions can have given the answers from which `r` is
/// the estimate along `ray` with the budget `depth`: the estimate of
/// [`radiance`], with each answer one that the function asked may give. The
/// functions may draw at random, and answer one question in two ways.
pub open spec fn explains<R, H, C, L, B, E, F, D, G>(
    r: C,
    ray: R,
    depth: u16,
    lights: nat,
    black: C,
    look: L,
    background: B,
    emit: E,
    reflect: F,
    draw: D,
    gather: G,
) -> bool where
    L: Fn(&R) -> Option<(HitRecord<H>, Incidence)>,
    B: Fn(&R) -> C,
    E: Fn(&HitRecord<H>, Emission) -> C,
    F: Fn(&R, &HitRecord<H>, SpecularRay) -> (R, C),
    D: Fn(&R, &HitRecord<H>, &PDF) -> (R, C),
    G: Fn(C, C, C) -> C,
    decreases depth,
{
    if depth == 0 {
        r == black
    } else {
        exists|hit: Option<(HitRecord<H>, Incidence)>| #[trigger]
            call_ensures(look, (&ray,), hit) && match hit {
                None => call_ensures(background, (&ray,), r),
                Some((rec, incidence)) => {
                    let source = rec.material.emission(rec.front_face);
                    match estimate(depth, Some(rec.material), incidence, lights) {
                        Estimate::Specular { specular_ray, depth: left } => exists|
                            next: R,
                            attenuation: C,
                            incoming: C,
                        |
                            {
                                &&& #[trigger] call_ensures(
                                    reflect,
                                    (&ray, &rec, specular_ray),
                                    (next, attenuation),
                                )
                                &&& explains(
                                    incoming,
                                    next,
                                    left,
                                    lights,
                                    black,
                                    look,
                                    background,
                                    emit,
                                    reflect,
                                    draw,
                                    gather,
                                )
                                &&& #[trigger] call_ensures(
                                    gather,
                                    (black, attenuation, incoming),
                                    r,
                                )
                            },
                        Estimate::Sampled { pdf, depth: left } => exists|
                            emitted: C,
                            next: R,
                            weight: C,
                            incoming: C,
                        |
                            {
                                &&& call_ensures(emit, (&rec, source), emitted)
                                &&& #[trigger] call_ensures(draw, (&ray, &rec, &pdf), (next, weight))
                                &&& explains(
                                    incoming,
                                    next,
                                    left,
                                    lights,
                                    black,
                                    look,
                                    background,
                                    emit,
                                    reflect,
                                    draw,
                                    gather,
                                )
                                &&& #[trigger] call_ensures(gather, (emitted, weight, incoming), r)
                            },
                        _ => call_ensures(emit, (&rec, source), r),
                    }
                },
            }
    }
}

/// With no budget left a path gathers no light, whatever the scene holds.
pub proof fn lemma_no_budget_gathers_nothing<R, H, C>(
    ray: R,
    lights: nat,
    black: C,
    shading: Shading<R, H, C>,
)
    ensures
        radiance(ray, 0, lights, black, shading) == black,
{
}

/// A scene is seen as it is: with budget left, a ray that meets nothing
/// brings the background, and a ray that meets a light brings what the light
/// emits towards it and nothing else.
pub proof fn lemma_light_and_background_are_seen_directly<R, H, C>(
    ray: R,
    depth: u16,
    lights: nat,
    black: C,
    shading: Shading<R, H, C>,
)
    requires
        depth > 0,
    ensures
        (shading.look)(ray).is_none() ==> radiance(ray, depth, lights, black, shading)
            == (shading.background)(ray),
        (shading.look)(ray).is_some() && (shading.look)(ray).unwrap().0.material.is_emissive()
            ==> radiance(ray, depth, lights, black, shading) == (shading.emit)(
            (shading.look)(ray).unwrap().0,
            (shading.look)(ray).unwrap().0.material.emission(
                (shading.look)(ray).unwrap().0.front_face,
            ),
        ),
{
}

/// Estimates the radiance that arrives along `ray` from one path of at most
/// `depth` bounces.
///
/// `look` finds the nearest hit of a ray with the scene and the incidence
/// there, `background` gives the radiance of a ray that hits nothing,
/// `emit` the radiance that a surface emits, `reflect` and `draw` continue
/// a ray after a specular event and by a draw from a distribution, and
/// `gather` adds what is emitted to the weighted radiance that comes in.
/// `lights` is the number of objects that the scene names as lights, and
/// `black` is no radiance. With no budget left nothing is asked.
pub fn ray_color<R, H, C: Copy, L, B, E, F, D, G>(
    ray: &R,
    depth: u16,
    lights: usize,
    black: C,
    look: &L,
    background: &B,
    emit: &E,
    reflect: &F,
    draw: &D,
    gather: &G,
) -> (r: C) where
    L: Fn(&R) -> Option<(HitRecord<H>, Incidence)>,
    B: Fn(&R) -> C,
    E: Fn(&HitRecord<H>, Emission) -> C,
    F: Fn(&R, &HitRecord<H>, SpecularRay) -> (R, C),
    D: Fn(&R, &HitRecord<H>, &PDF) -> (R, C),
    G: Fn(C, C, C) -> C,
    requires
        forall|ray: &R| call_requires(*look, (ray,)),
        forall|ray: &R| call_requires(*background, (ray,)),
        forall|rec: &HitRecord<H>, source: Emission| call_requires(*emit, (rec, source)),
        forall|ray: &R, rec: &HitRecord<H>, which: SpecularRay|
            call_requires(*reflect, (ray, rec, which)),
        forall|ray: &R, rec: &HitRecord<H>, pdf: &PDF| call_requires(*draw, (ray, rec, pdf)),
        forall|emitted: C, weight: C, incoming: C|
            call_requires(*gather, (emitted, weight, incoming)),
    ensures
        explains(
            r,
            *ray,
            depth,
            lights as nat,
            black,
            *look,
            *background,
            *emit,
            *reflect,
            *draw,
            *gather,
        ),
        forall|shading: Shading<R, H, C>|
            shades(shading, *look, *background, *emit, *reflect, *draw, *gather) ==> r
                == #[trigger] radiance(*ray, depth, lights as nat, black, shading),
        depth == 0 ==> r == black,
    decreases depth,
{
    if depth == 0 {
        return black;
    }
    let (rec, incidence) = match look(ray) {
        Some(hit) => hit,
        None => {
            return background(ray);
        },
    };
    let ghost seen = Some((rec, incidence));
    match choose_estimate(depth, Some(&rec), &incidence, lights) {
        Estimate::Specular { specular_ray, depth: left } => {
            let (next, attenuation) = reflect(ray, &rec, specular_ray);
            let incoming = ray_color(
                &next,
                left,
                lights,
                black,
                look,
                background,
                emit,
                reflect,
                draw,
                gather,
            );
            let r = gather(black, attenuation, incoming);
            proof {
                assert forall|shading: Shading<R, H, C>|
                    shades(
                        shading,
                        *look,
                        *background,
                        *emit,
                        *reflect,
                        *draw,
                        *gather,
                    ) implies r == #[trigger] radiance(
                    *ray,
                    depth,
                    lights as nat,
                    black,
                    shading,
                ) by {
                    assert((shading.look)(*ray) == seen);
                    assert((shading.reflect)(*ray, rec, specular_ray) == (next, attenuation));
                    assert(incoming == radiance(next, left, lights as nat, black, shading));
                }
            }
            r
        },
        Estimate::Sampled { pdf, depth: left } => {
            let emitted = emit(&rec, rec.material.emitted(rec.front_face));
            let (next, weight) = draw(ray, &rec, &pdf);
            let incoming = ray_color(
                &next,
                left,
                lights,
                black,
                look,
                background,
                emit,
                reflect,
                draw,
                gather,
            );
            let r = gather(emitted, weight, incoming);
            proof {
                assert forall|shading: Shading<R, H, C>|
                    shades(
                        shading,
                        *look,
                        *background,
                        *emit,
                        *reflect,
                        *draw,
                        *gather,
                    ) implies r == #[trigger] radiance(
                    *ray,
                    depth,
                    lights as nat,
                    black,
                    shading,
                ) by {
                    assert((shading.look)(*ray) == seen);
                    assert((shading.emit)(rec, rec.material.emission(rec.front_face)) == emitted);
                    assert((shading.draw)(*ray, rec, pdf) == (next, weight));
                    assert(incoming == radiance(next, left, lights as nat, black, shading));
                }
            }
            r
        },
        _ => {
            let r = emit(&rec, rec.material.emitted(rec.front_face));
            proof {
                assert forall|shading: Shading<R, H, C>|
                    shades(
                        shading,
                        *look,
                        *background,
                        *emit,
                        *reflect,
                        *draw,
                        *gather,
                    ) implies r == #[trigger] radiance(
                    *ray,
                    depth,
                    lights as nat,
                    black,
                    shading,
                ) by {
                    assert((shading.look)(*ray) == seen);
                    assert((shading.emit)(rec, rec.material.emission(rec.front_face)) == r);
                }
            }
            r
        },
    }
}

} // verus!
