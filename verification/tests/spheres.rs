use rand::rngs::StdRng;
use rand::{Rng, SeedableRng};
use raytracer::aabb::{Slab, AABB};
use raytracer::bvh::{BVHNode, Extent};
use raytracer::hit_record::HitRecord;
use raytracer::hittable::sphere::nearest_root;
use raytracer::hittable_list::HittableList;
use raytracer::material::Material;
use raytracer::sort::sort_by_keys;
use raytracer::vec3::Vec3;

fn key(x: f32) -> i64 {
    assert!(!x.is_nan());
    let bits = x.to_bits();
    let magnitude = (bits & 0x7fff_ffff) as i64;
    if bits >> 31 == 1 {
        -magnitude
    } else {
        magnitude
    }
}

fn unkey(k: i64) -> f32 {
    if k < 0 {
        -f32::from_bits((-k) as u32)
    } else {
        f32::from_bits(k as u32)
    }
}

#[derive(Clone, Copy)]
struct Ball {
    center: [f32; 3],
    radius: f32,
}

#[derive(Clone, Copy)]
struct Ray {
    origin: [f32; 3],
    direction: [f32; 3],
}

fn dot(a: [f32; 3], b: [f32; 3]) -> f32 {
    a[0] * b[0] + a[1] * b[1] + a[2] * b[2]
}

impl Ball {
    fn extent(&self) -> Extent {
        let r = self.radius;
        let c = self.center;
        let bbox = AABB {
            min: Vec3::new(key(c[0] - r), key(c[1] - r), key(c[2] - r)),
            max: Vec3::new(key(c[0] + r), key(c[1] + r), key(c[2] + r)),
        };
        Extent { at_rest: bbox, swept: bbox }
    }

    fn hit(&self, ray: &Ray, t_min: f32, t_max: f32) -> Option<f32> {
        let oc = [
            ray.origin[0] - self.center[0],
            ray.origin[1] - self.center[1],
            ray.origin[2] - self.center[2],
        ];
        let a = dot(ray.direction, ray.direction);
        let half_b = dot(oc, ray.direction);
        let c = dot(oc, oc) - self.radius * self.radius;
        let discriminant = half_b * half_b - a * c;
        if discriminant > 0.0 {
            let root = discriminant.sqrt();
            let near = (-half_b - root) / a;
            let far = (-half_b + root) / a;
            return nearest_root(key(near), key(far), key(t_min), key(t_max)).map(unkey);
        }
        None
    }
}

fn slabs(bbox: AABB, ray: &Ray) -> (Slab, Slab, Slab) {
    let along = |a: usize| {
        let lo = unkey(bbox.min.index(a));
        let hi = unkey(bbox.max.index(a));
        let t0 = (lo - ray.origin[a]) / ray.direction[a];
        let t1 = (hi - ray.origin[a]) / ray.direction[a];
        match (t0.is_nan(), t1.is_nan()) {
            (false, false) => Slab { t0: key(t0), t1: key(t1) },
            (false, true) => Slab { t0: key(t0), t1: key(t0) },
            (true, false) => Slab { t0: key(t1), t1: key(t1) },
            (true, true) => Slab { t0: key(f32::NEG_INFINITY), t1: key(f32::INFINITY) },
        }
    };
    (along(0), along(1), along(2))
}

fn by_tree(tree: &BVHNode, balls: &Vec<Ball>, ray: &Ray) -> Option<(usize, f32)> {
    let test = |object: usize, lo: i64, hi: i64| {
        balls[object].hit(ray, unkey(lo), unkey(hi)).map(|t| HitRecord {
            t: key(t),
            front_face: true,
            material: Material::Lambertian,
            surface: t,
        })
    };
    let crossings = |bbox: AABB| slabs(bbox, ray);
    tree.hit(key(0.001), key(f32::INFINITY), &crossings, &test).map(|(o, rec)| (o, rec.surface))
}

fn by_list(balls: &Vec<Ball>, ray: &Ray) -> Option<(usize, f32)> {
    let mut list = HittableList::new();
    for ball in balls {
        list.add(Some(ball.extent().swept));
    }
    let test = |object: usize, lo: i64, hi: i64| {
        balls[object].hit(ray, unkey(lo), unkey(hi)).map(|t| HitRecord {
            t: key(t),
            front_face: true,
            material: Material::Lambertian,
            surface: t,
        })
    };
    list.hit(key(0.001), key(f32::INFINITY), &test).map(|(o, rec)| (o, rec.surface))
}

fn by_hand(balls: &Vec<Ball>, ray: &Ray) -> Option<f32> {
    let mut best: Option<f32> = None;
    for ball in balls {
        if let Some(t) = ball.hit(ray, 0.001, f32::INFINITY) {
            if best.map_or(true, |b| t < b) {
                best = Some(t);
            }
        }
    }
    best
}

fn random_balls(rng: &mut StdRng, n: usize) -> Vec<Ball> {
    (0..n)
        .map(|_| Ball {
            center: [
                rng.gen_range(-20.0f32, 20.0),
                rng.gen_range(-20.0f32, 20.0),
                rng.gen_range(-20.0f32, 20.0),
            ],
            radius: rng.gen_range(0.5f32, 3.0),
        })
        .collect()
}

fn random_ray(rng: &mut StdRng) -> Ray {
    let origin = [rng.gen_range(-40.0f32, 40.0), rng.gen_range(-40.0f32, 40.0), -60.0];
    let target =
        [rng.gen_range(-20.0f32, 20.0), rng.gen_range(-20.0f32, 20.0), rng.gen_range(-20.0f32, 20.0)];
    Ray {
        origin,
        direction: [target[0] - origin[0], target[1] - origin[1], target[2] - origin[2]],
    }
}

fn compare(rng: &mut StdRng, n: usize, rays: usize) {
    let balls = random_balls(rng, n);
    let extents: Vec<Extent> = balls.iter().map(|b| b.extent()).collect();
    let tree = BVHNode::new(&extents);
    let mut hits = 0;
    for _ in 0..rays {
        let ray = random_ray(rng);
        let tree_hit = by_tree(&tree, &balls, &ray);
        let list_hit = by_list(&balls, &ray);
        assert_eq!(tree_hit.map(|h| h.1), list_hit.map(|h| h.1));
        assert_eq!(tree_hit.map(|h| h.1), by_hand(&balls, &ray));
        if tree_hit.is_some() {
            hits += 1;
        }
    }
    if n >= 50 {
        assert!(hits > 0);
    }
}

#[test]
fn hierarchy_of_spheres_agrees_with_the_list_for_one_sphere() {
    let mut rng = StdRng::seed_from_u64(1);
    for _ in 0..20 {
        compare(&mut rng, 1, 50);
    }
}

#[test]
fn hierarchy_of_spheres_agrees_with_the_list_for_two_spheres() {
    let mut rng = StdRng::seed_from_u64(2);
    for _ in 0..20 {
        compare(&mut rng, 2, 50);
    }
}

#[test]
fn hierarchy_of_spheres_agrees_with_the_list_for_many_spheres() {
    let mut rng = StdRng::seed_from_u64(3);
    for n in [3usize, 4, 7, 50, 200] {
        compare(&mut rng, n, 300);
    }
}

#[test]
fn unit_sphere_in_a_hierarchy_is_hit_at_t_four() {
    let balls = vec![Ball { center: [0.0, 0.0, 0.0], radius: 1.0 }];
    let extents: Vec<Extent> = balls.iter().map(|b| b.extent()).collect();
    let tree = BVHNode::new(&extents);
    let ray = Ray { origin: [-5.0, 0.0, 0.0], direction: [1.0, 0.0, 0.0] };
    assert_eq!(by_tree(&tree, &balls, &ray), Some((0, 4.0)));
    assert_eq!(by_list(&balls, &ray), Some((0, 4.0)));
    let away = Ray { origin: [-5.0, 0.0, 0.0], direction: [-1.0, 0.0, 0.0] };
    assert_eq!(by_tree(&tree, &balls, &away), None);
    let past = Ray { origin: [-5.0, 2.0, 0.0], direction: [1.0, 0.0, 0.0] };
    assert_eq!(by_tree(&tree, &balls, &past), None);
}

#[test]
fn sort_by_keys_agrees_with_a_stable_sort() {
    let mut rng = StdRng::seed_from_u64(4);
    for _ in 0..200 {
        let n = rng.gen_range(0usize, 40);
        let keys: Vec<i64> = (0..n).map(|_| rng.gen_range(-3i64, 4)).collect();
        let items: Vec<usize> = (0..n).map(|_| rng.gen_range(0usize, 1000)).collect();
        let mut sorted = items.clone();
        sort_by_keys(&mut sorted, &keys);
        let mut expected: Vec<(i64, usize)> =
            keys.iter().cloned().zip(items.iter().cloned()).collect();
        expected.sort_by_key(|pair| pair.0);
        let expected: Vec<usize> = expected.into_iter().map(|pair| pair.1).collect();
        assert_eq!(sorted, expected);
    }
}
