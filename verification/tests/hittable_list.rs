use raytracer::aabb::AABB;
use raytracer::hit_record::HitRecord;
use raytracer::hittable_list::HittableList;
use raytracer::material::Material;
use raytracer::vec3::Vec3;

fn hit_at(t: i64, surface: u32) -> HitRecord<u32> {
    HitRecord { t, front_face: true, material: Material::Metal, surface }
}

fn list_of(n: usize) -> HittableList {
    let mut list = HittableList::new();
    for _ in 0..n {
        list.add(None);
    }
    list
}

#[test]
fn new_list_is_empty_and_unbounded() {
    let list = HittableList::new();
    assert!(list.is_empty());
    assert_eq!(list.objects.len(), 0);
    assert_eq!(list.bounding_box(), None);
}

#[test]
fn add_appends_and_clear_empties() {
    let a = AABB { min: Vec3::new(1, 2, 3), max: Vec3::new(4, 5, 6) };
    let mut list = HittableList::new();
    list.add(Some(a));
    list.add(None);
    assert!(!list.is_empty());
    assert_eq!(list.objects, vec![Some(a), None]);
    list.clear();
    assert!(list.is_empty());
    assert_eq!(list.bounding_box(), None);
}

#[test]
fn bounding_box_is_the_union_with_the_zero_box() {
    let a = AABB { min: Vec3::new(1, 2, -3), max: Vec3::new(4, 5, 6) };
    let b = AABB { min: Vec3::new(-7, 3, 1), max: Vec3::new(2, 9, 2) };
    let mut list = HittableList::new();
    list.add(Some(a));
    assert_eq!(
        list.bounding_box(),
        Some(AABB { min: Vec3::new(0, 0, -3), max: Vec3::new(4, 5, 6) })
    );
    list.add(Some(b));
    assert_eq!(
        list.bounding_box(),
        Some(AABB { min: Vec3::new(-7, 0, -3), max: Vec3::new(4, 9, 6) })
    );
}

#[test]
fn bounding_box_of_a_list_with_an_unbounded_object_is_none() {
    let a = AABB { min: Vec3::new(1, 2, -3), max: Vec3::new(4, 5, 6) };
    let mut list = HittableList::new();
    list.add(Some(a));
    list.add(None);
    list.add(Some(a));
    assert_eq!(list.bounding_box(), None);
}

#[test]
fn hit_of_an_empty_list_is_none() {
    let list = HittableList::new();
    let test = |_object: usize, _lo: i64, _hi: i64| Some(hit_at(1, 0));
    assert!(list.hit(0, 100, &test).is_none());
}

#[test]
fn hit_returns_the_closest_object() {
    let list = list_of(4);
    let table = [Some(70), None, Some(50), Some(60)];
    let test = |object: usize, lo: i64, hi: i64| match table[object] {
        Some(t) if lo < t && t < hi => Some(hit_at(t, object as u32)),
        _ => None,
    };
    let found = list.hit(0, 100, &test).unwrap();
    assert_eq!(found.0, 2);
    assert_eq!(found.1.t, 50);
    assert_eq!(found.1.surface, 2);
    assert!(list.hit(0, 50, &test).is_none());
    assert_eq!(list.hit(0, 51, &test).unwrap().0, 2);
    assert_eq!(list.hit(50, 100, &test).unwrap().0, 3);
}

#[test]
fn hit_keeps_the_first_of_two_equally_near_objects() {
    let list = list_of(3);
    let test = |object: usize, lo: i64, hi: i64| {
        if lo < 40 && 40 < hi {
            Some(hit_at(40, object as u32))
        } else {
            None
        }
    };
    assert_eq!(list.hit(0, 100, &test).unwrap().0, 0);
}

#[test]
fn hit_asks_each_object_with_the_bound_found_so_far() {
    let list = list_of(3);
    let asked = std::cell::RefCell::new(vec![]);
    let table = [30, 20, 25];
    let test = |object: usize, lo: i64, hi: i64| {
        asked.borrow_mut().push((object, lo, hi));
        if lo < table[object] && table[object] < hi {
            Some(hit_at(table[object], 0))
        } else {
            None
        }
    };
    let found = list.hit(1, 100, &test).unwrap();
    assert_eq!(found.0, 1);
    assert_eq!(*asked.borrow(), vec![(0, 1, 100), (1, 1, 30), (2, 1, 20)]);
}

#[test]
fn random_picks_an_object_of_the_list() {
    assert_eq!(HittableList::new().random(), None);
    assert_eq!(list_of(1).random(), Some(0));
    let list = list_of(3);
    let mut seen = [0u32; 3];
    for _ in 0..600 {
        seen[list.random().unwrap()] += 1;
    }
    assert!(seen.iter().all(|&n| n > 100));
}
