use raytracer::perlin::{perlin_generate_perm, swap_entries, Perlin, POINT_COUNT};

fn is_permutation(perm: &Vec<usize>) -> bool {
    let mut seen = vec![false; perm.len()];
    for &p in perm.iter() {
        if p >= perm.len() || seen[p] {
            return false;
        }
        seen[p] = true;
    }
    true
}

#[test]
fn generated_permutation_holds_every_point_once() {
    for _ in 0..50 {
        let perm = perlin_generate_perm();
        assert_eq!(perm.len(), POINT_COUNT);
        assert_eq!(perm.len(), 256);
        assert!(is_permutation(&perm));
    }
}

#[test]
fn generated_permutation_moves_the_last_point() {
    // The last position is exchanged with one drawn strictly below it and is
    // not touched again.
    for _ in 0..50 {
        let perm = perlin_generate_perm();
        assert_ne!(perm[255], 255);
        assert!(perm[255] < 255);
    }
}

#[test]
fn generated_permutations_differ() {
    let first = perlin_generate_perm();
    let mut differs = false;
    for _ in 0..10 {
        if perlin_generate_perm() != first {
            differs = true;
        }
    }
    assert!(differs);
}

#[test]
fn swap_entries_exchanges_two_positions() {
    let mut perm = vec![10, 11, 12, 13];
    swap_entries(&mut perm, 0, 3);
    assert_eq!(perm, vec![13, 11, 12, 10]);
    swap_entries(&mut perm, 2, 2);
    assert_eq!(perm, vec![13, 11, 12, 10]);
    swap_entries(&mut perm, 2, 1);
    assert_eq!(perm, vec![13, 12, 11, 10]);
}

#[test]
fn new_lattice_holds_three_permutations() {
    let lattice = Perlin::new();
    assert!(is_permutation(&lattice.perm_x));
    assert!(is_permutation(&lattice.perm_y));
    assert!(is_permutation(&lattice.perm_z));
    assert_eq!(lattice.perm_x.len(), 256);
    assert_eq!(lattice.perm_y.len(), 256);
    assert_eq!(lattice.perm_z.len(), 256);
}

#[test]
fn gradient_index_is_the_exclusive_or_of_the_permuted_coordinates() {
    let identity: Vec<usize> = (0..256).collect();
    let reversed: Vec<usize> = (0..256).rev().collect();
    let shifted: Vec<usize> = (0..256).map(|i| (i + 1) % 256).collect();
    let lattice = Perlin { perm_x: identity, perm_y: reversed, perm_z: shifted };
    assert_eq!(lattice.gradient_index(0, 0, 0), 0 ^ 255 ^ 1);
    assert_eq!(lattice.gradient_index(3, 5, 255), 3 ^ 250 ^ 0);
    assert_eq!(lattice.gradient_index(256, 256, 256), 0 ^ 255 ^ 1);
    assert_eq!(lattice.gradient_index(-1, -1, -1), 255 ^ 0 ^ 0);
    assert_eq!(lattice.gradient_index(-256, 257, -255), 0 ^ 254 ^ 2);
    assert_eq!(lattice.gradient_index(i16::MAX, i16::MIN, 0), 255 ^ 255 ^ 1);
}

#[test]
fn gradient_index_stays_within_the_table() {
    let lattice = Perlin::new();
    for i in (-300i16..300).step_by(7) {
        for j in (-300i16..300).step_by(11) {
            for k in (-300i16..300).step_by(13) {
                assert!(lattice.gradient_index(i, j, k) < POINT_COUNT);
            }
        }
    }
}
