use raytracer::pdf::{Strategy, PDF};

fn mixture(p: PDF, q: PDF) -> PDF {
    PDF::Mixture { p: Box::new(p), q: Box::new(q) }
}

#[test]
fn a_plain_distribution_is_drawn_from_itself() {
    for _ in 0..20 {
        assert_eq!(PDF::Cosine.generate(), Strategy::Cosine);
        assert_eq!(PDF::Hittable.generate(), Strategy::Hittable);
    }
}

#[test]
fn choose_child_takes_the_first_child_on_heads() {
    let m = mixture(PDF::Hittable, PDF::Cosine);
    assert_eq!(*m.choose_child(true), PDF::Hittable);
    assert_eq!(*m.choose_child(false), PDF::Cosine);
    assert_eq!(*PDF::Cosine.choose_child(true), PDF::Cosine);
    assert_eq!(*PDF::Hittable.choose_child(false), PDF::Hittable);
    let nested = mixture(mixture(PDF::Cosine, PDF::Hittable), PDF::Cosine);
    assert_eq!(*nested.choose_child(true), mixture(PDF::Cosine, PDF::Hittable));
}

#[test]
fn a_mixture_draws_from_both_children() {
    let m = mixture(PDF::Hittable, PDF::Cosine);
    let mut lights = 0;
    let mut cosine = 0;
    for _ in 0..400 {
        match m.generate() {
            Strategy::Hittable => lights += 1,
            Strategy::Cosine => cosine += 1,
        }
    }
    assert_eq!(lights + cosine, 400);
    assert!(lights > 100);
    assert!(cosine > 100);
}

#[test]
fn a_mixture_of_one_strategy_draws_that_strategy() {
    let m = mixture(PDF::Cosine, mixture(PDF::Cosine, PDF::Cosine));
    for _ in 0..50 {
        assert_eq!(m.generate(), Strategy::Cosine);
    }
}

#[test]
fn value_of_a_plain_distribution_is_its_own_density() {
    let average = |a: f64, b: f64| 0.5 * a + 0.5 * b;
    assert_eq!(PDF::Cosine.value(0.25, 4.0, &average), 0.25);
    assert_eq!(PDF::Hittable.value(0.25, 4.0, &average), 4.0);
}

#[test]
fn value_of_a_mixture_is_the_average_of_its_children() {
    let average = |a: f64, b: f64| 0.5 * a + 0.5 * b;
    for (c, h) in [(0.25, 4.0), (0.0, 0.0), (0.3, 0.0), (0.0, 1.5), (0.318, 0.125)] {
        let of_cosine = PDF::Cosine.value(c, h, &average);
        let of_lights = PDF::Hittable.value(c, h, &average);
        let m = mixture(PDF::Hittable, PDF::Cosine);
        assert_eq!(m.value(c, h, &average), 0.5 * of_lights + 0.5 * of_cosine);
        let inner = mixture(PDF::Cosine, PDF::Hittable);
        let of_inner = inner.value(c, h, &average);
        let outer = mixture(mixture(PDF::Cosine, PDF::Hittable), PDF::Cosine);
        assert_eq!(outer.value(c, h, &average), 0.5 * of_inner + 0.5 * of_cosine);
        let twice = mixture(
            mixture(PDF::Cosine, PDF::Hittable),
            mixture(PDF::Hittable, PDF::Cosine),
        );
        assert_eq!(
            twice.value(c, h, &average),
            0.5 * of_inner + 0.5 * mixture(PDF::Hittable, PDF::Cosine).value(c, h, &average)
        );
    }
    assert_eq!(mixture(PDF::Hittable, PDF::Cosine).value(0.25, 4.0, &average), 2.125);
}

#[test]
fn value_keeps_the_order_of_the_children() {
    // With an average that is not symmetric the first child comes first.
    let first = |a: i32, _b: i32| a;
    assert_eq!(mixture(PDF::Hittable, PDF::Cosine).value(1, 2, &first), 2);
    assert_eq!(mixture(PDF::Cosine, PDF::Hittable).value(1, 2, &first), 1);
}
