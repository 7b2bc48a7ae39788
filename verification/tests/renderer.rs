use raytracer::hit_record::HitRecord;
use raytracer::material::{Emission, Incidence, Material, SpecularRay};
use raytracer::pdf::PDF;
use raytracer::renderer::{choose_estimate, ray_color, Estimate};

const ALL: [Material; 8] = [
    Material::Normal,
    Material::Lambertian,
    Material::LambertianTexture,
    Material::Metal,
    Material::Dielectric,
    Material::DiffuseLight,
    Material::DiffuseLightTexture,
    Material::Isotropic,
];

fn plain() -> Incidence {
    Incidence { inward: false, total_internal_reflection: false, fresnel_reflection: false }
}

fn hit(material: Material) -> HitRecord<()> {
    HitRecord { t: 4, front_face: true, material, surface: () }
}

#[test]
fn zero_depth_is_black_whatever_the_scene_holds() {
    assert_eq!(choose_estimate::<()>(0, None, &plain(), 0), Estimate::Black);
    for m in ALL.iter() {
        for lights in [0usize, 1, 7] {
            for flags in 0..8 {
                let i = Incidence {
                    inward: flags & 1 != 0,
                    total_internal_reflection: flags & 2 != 0,
                    fresnel_reflection: flags & 4 != 0,
                };
                assert_eq!(choose_estimate(0, Some(&hit(*m)), &i, lights), Estimate::Black);
            }
        }
    }
}

#[test]
fn a_miss_is_the_background() {
    assert_eq!(choose_estimate::<()>(1, None, &plain(), 0), Estimate::Background);
    assert_eq!(choose_estimate::<()>(50, None, &plain(), 3), Estimate::Background);
    assert_eq!(choose_estimate::<()>(u16::MAX, None, &plain(), 3), Estimate::Background);
}

#[test]
fn a_single_emissive_sphere_shows_its_own_color() {
    // The scene of one light and nothing else: a ray that hits sees the
    // emission alone, a ray that misses sees the background.
    let light = hit(Material::DiffuseLight);
    for depth in [1u16, 2, 50] {
        assert_eq!(choose_estimate(depth, Some(&light), &plain(), 0), Estimate::Emitted);
        assert_eq!(choose_estimate(depth, Some(&light), &plain(), 1), Estimate::Emitted);
        assert_eq!(choose_estimate::<()>(depth, None, &plain(), 0), Estimate::Background);
    }
    assert_eq!(light.material.emitted(light.front_face), Emission::Solid);
    assert_eq!(choose_estimate(0, Some(&light), &plain(), 0), Estimate::Black);
}

#[test]
fn a_specular_surface_goes_on_with_one_ray_and_one_bounce_less() {
    assert_eq!(
        choose_estimate(50, Some(&hit(Material::Metal)), &plain(), 2),
        Estimate::Specular { specular_ray: SpecularRay::FuzzyReflection, depth: 49 }
    );
    assert_eq!(
        choose_estimate(1, Some(&hit(Material::Dielectric)), &plain(), 0),
        Estimate::Specular { specular_ray: SpecularRay::Refraction, depth: 0 }
    );
    let grazing = Incidence { inward: false, total_internal_reflection: true, fresnel_reflection: false };
    assert_eq!(
        choose_estimate(7, Some(&hit(Material::Dielectric)), &grazing, 0),
        Estimate::Specular { specular_ray: SpecularRay::Reflection, depth: 6 }
    );
    assert_eq!(
        choose_estimate(u16::MAX, Some(&hit(Material::Isotropic)), &plain(), 0),
        Estimate::Specular { specular_ray: SpecularRay::Uniform, depth: u16::MAX - 1 }
    );
}

#[test]
fn metal_that_reflects_inward_shows_its_emission_alone() {
    let inward = Incidence { inward: true, total_internal_reflection: false, fresnel_reflection: false };
    assert_eq!(choose_estimate(5, Some(&hit(Material::Metal)), &inward, 0), Estimate::Emitted);
}

#[test]
fn a_diffuse_surface_is_sampled_by_its_own_distribution_without_lights() {
    assert_eq!(
        choose_estimate(50, Some(&hit(Material::Lambertian)), &plain(), 0),
        Estimate::Sampled { pdf: PDF::Cosine, depth: 49 }
    );
    assert_eq!(
        choose_estimate(1, Some(&hit(Material::LambertianTexture)), &plain(), 0),
        Estimate::Sampled { pdf: PDF::Cosine, depth: 0 }
    );
}

#[test]
fn a_diffuse_surface_is_sampled_by_a_mixture_with_the_lights() {
    let mixed = PDF::Mixture { p: Box::new(PDF::Hittable), q: Box::new(PDF::Cosine) };
    assert_eq!(
        choose_estimate(50, Some(&hit(Material::Lambertian)), &plain(), 1),
        Estimate::Sampled { pdf: mixed, depth: 49 }
    );
    let mixed = PDF::Mixture { p: Box::new(PDF::Hittable), q: Box::new(PDF::Cosine) };
    assert_eq!(
        choose_estimate(3, Some(&hit(Material::LambertianTexture)), &plain(), 12),
        Estimate::Sampled { pdf: mixed, depth: 2 }
    );
}

#[test]
fn a_path_with_budget_n_meets_the_scene_at_most_n_times() {
    // A hall of mirrors: every ray hits metal.
    for budget in [0u16, 1, 2, 10, 50] {
        let mut depth = budget;
        let mut met = 0u32;
        loop {
            match choose_estimate(depth, Some(&hit(Material::Metal)), &plain(), 0) {
                Estimate::Specular { depth: next, .. } => {
                    met += 1;
                    assert_eq!(next + 1, depth);
                    depth = next;
                }
                Estimate::Black => break,
                other => panic!("unexpected estimate {:?}", other),
            }
        }
        assert_eq!(met, budget as u32);
    }
}

// A scene along the x axis for the integrator: a ray is the position it
// starts from, radiance is a number. Position 0 looks at a light, position 1
// at nothing, position 2 at a mirror that sends the ray to position 0,
// positions from 10 on at a mirror that sends the ray one position on, and
// position 3 at a diffuse wall that sends the ray to position 0.
fn look(ray: &i64) -> Option<(HitRecord<i64>, Incidence)> {
    let material = match *ray {
        0 => Material::DiffuseLight,
        1 => return None,
        3 => Material::Lambertian,
        _ => Material::Metal,
    };
    Some((HitRecord { t: 1, front_face: true, material, surface: *ray }, plain()))
}

fn trace(ray: i64, depth: u16, lights: usize) -> i64 {
    let background = |_ray: &i64| 7;
    let emit = |rec: &HitRecord<i64>, source: Emission| match source {
        Emission::Solid => 100 + rec.surface,
        Emission::Zero => 0,
        _ => -1,
    };
    let reflect = |ray: &i64, _rec: &HitRecord<i64>, which: SpecularRay| {
        assert_eq!(which, SpecularRay::FuzzyReflection);
        (if *ray >= 10 { *ray + 1 } else { 0 }, 2)
    };
    let draw = |_ray: &i64, _rec: &HitRecord<i64>, pdf: &PDF| {
        (0, if *pdf == PDF::Cosine { 3 } else { 5 })
    };
    let gather = |emitted: i64, weight: i64, incoming: i64| emitted + weight * incoming;
    ray_color(&ray, depth, lights, 0, &look, &background, &emit, &reflect, &draw, &gather)
}

#[test]
fn integrator_with_no_budget_returns_black() {
    for ray in [0, 1, 2, 3, 10] {
        for lights in [0, 1] {
            assert_eq!(trace(ray, 0, lights), 0);
        }
    }
}

#[test]
fn integrator_sees_a_light_and_the_background_directly() {
    for depth in [1u16, 2, 50] {
        assert_eq!(trace(0, depth, 0), 100);
        assert_eq!(trace(1, depth, 0), 7);
    }
}

#[test]
fn integrator_attenuates_along_a_specular_bounce() {
    assert_eq!(trace(2, 2, 0), 2 * 100);
    // One bounce is not enough to reach the light.
    assert_eq!(trace(2, 1, 0), 2 * 0);
}

#[test]
fn integrator_weights_a_sampled_bounce_and_mixes_in_the_lights() {
    assert_eq!(trace(3, 2, 0), 0 + 3 * 100);
    assert_eq!(trace(3, 2, 4), 0 + 5 * 100);
    assert_eq!(trace(3, 1, 0), 0);
}

#[test]
fn integrator_follows_a_path_for_as_many_bounces_as_the_budget() {
    // A hall of mirrors: the path ends black after `depth` bounces.
    let asked = std::cell::Cell::new(0u32);
    let counted = |ray: &i64| {
        asked.set(asked.get() + 1);
        look(ray)
    };
    let background = |_ray: &i64| 7;
    let emit = |_rec: &HitRecord<i64>, _source: Emission| 1;
    let reflect = |ray: &i64, _rec: &HitRecord<i64>, _which: SpecularRay| (*ray + 1, 2);
    let draw = |_ray: &i64, _rec: &HitRecord<i64>, _pdf: &PDF| (0, 1);
    let gather = |emitted: i64, weight: i64, incoming: i64| emitted + weight * incoming;
    for depth in [0u16, 1, 5, 50] {
        asked.set(0);
        let r = ray_color(&10, depth, 0, 0, &counted, &background, &emit, &reflect, &draw, &gather);
        assert_eq!(r, 0);
        assert_eq!(asked.get(), depth as u32);
    }
}
