//! The lattice of gradient noise: three random permutations of the lattice
//! points, and the hash that picks a gradient for a lattice corner.

use vstd::prelude::*;
use crate::rng::random_below;
use crate::sort::{lemma_swap_keeps_multiset, positions};

verus! {

/// The number of gradients, and the length of each permutation.
pub const POINT_COUNT: usize = 256;

/// Whether `perm` holds each of the numbers below its length exactly once.
pub open spec fn is_permutation(perm: Seq<usize>) -> bool {
    perm.to_multiset() == positions(perm.len()).to_multiset()
}

/// Every entry of a permutation is below its length.
pub proof fn lemma_permutation_entries(perm: Seq<usize>, i: int)
    requires
        is_permutation(perm),
        0 <= i < perm.len(),
    ensures
        perm[i] < perm.len(),
{
    broadcast use vstd::seq_lib::group_to_multiset_ensures;

    assert(perm.contains(perm[i]));
    assert(positions(perm.len()).to_multiset().count(perm[i]) > 0);
    assert(positions(perm.len()).contains(perm[i]));
}

/// Exchanges the entries at `i` and `j`.
pub fn swap_entries(perm: &mut Vec<usize>, i: usize, j: usize)
    requires
        i < old(perm)@.len(),
        j < old(perm)@.len(),
    ensures
        final(perm)@ == old(perm)@.update(i as int, old(perm)@[j as int]).update(
            j as int,
            old(perm)@[i as int],
        ),
        final(perm)@.to_multiset() == old(perm)@.to_multiset(),
{
    proof {
        lemma_swap_keeps_multiset(perm@, i as int, j as int);
    }
    let at_i = perm[i];
    let at_j = perm[j];
    perm.set(i, at_j);
    perm.set(j, at_i);
}

/// Draws a random permutation of the lattice points.
///
/// Starting from the identity, each position from the last down to the
/// second is exchanged with a position drawn at random below it. Whatever is
/// drawn, the result holds every lattice point exactly once.
pub fn perlin_generate_perm() -> (perm: Vec<usize>)
    ensures
        perm@.len() == POINT_COUNT,
        is_permutation(perm@),
{
    let mut perm: Vec<usize> = Vec::new();
    let mut p: usize = 0;
    while p < POINT_COUNT
        invariant
            p <= POINT_COUNT,
            perm@ == positions(p as nat),
        decreases POINT_COUNT - p,
    {
        perm.push(p);
        p += 1;
        assert(perm@ =~= positions(p as nat));
    }
    let mut i: usize = POINT_COUNT - 1;
    while i >= 1
        invariant
            i < POINT_COUNT,
            perm@.len() == POINT_COUNT,
            is_permutation(perm@),
        decreases i,
    {
        let j = random_below(i);
        swap_entries(&mut perm, i, j);
        i -= 1;
    }
    perm
}

/// The three permutations of a noise lattice, one per axis.
#[derive(Debug)]
pub struct Perlin {
    pub perm_x: Vec<usize>,
    pub perm_y: Vec<usize>,
    pub perm_z: Vec<usize>,
}

/// The index into a permutation for the lattice coordinate `c`: its low
/// eight bits.
pub open spec fn wrap(c: i16) -> int {
    (c & 255) as int
}

impl Perlin {
    /// Each of the three lists is a permutation of the lattice points.
    pub open spec fn wf(self) -> bool {
        &&& self.perm_x@.len() == POINT_COUNT
        &&& self.perm_y@.len() == POINT_COUNT
        &&& self.perm_z@.len() == POINT_COUNT
        &&& is_permutation(self.perm_x@)
        &&& is_permutation(self.perm_y@)
        &&& is_permutation(self.perm_z@)
    }

    /// The gradient that the lattice corner `(i, j, k)` is given: the
    /// exclusive or of the three permuted coordinates.
    pub open spec fn hash(self, i: i16, j: i16, k: i16) -> usize {
        self.perm_x@[wrap(i)] ^ self.perm_y@[wrap(j)] ^ self.perm_z@[wrap(k)]
    }

    /// Draws three independent permutations.
    pub fn new() -> (r: Perlin)
        ensures
            r.wf(),
    {
        Perlin {
            perm_x: perlin_generate_perm(),
            perm_y: perlin_generate_perm(),
            perm_z: perlin_generate_perm(),
        }
    }

    /// Returns the index of the gradient at the lattice corner `(i, j, k)`.
    /// It is a valid index for a table of `POINT_COUNT` gradients.
    pub fn gradient_index(&self, i: i16, j: i16, k: i16) -> (r: usize)
        requires
            self.wf(),
        ensures
            r == self.hash(i, j, k),
            r < POINT_COUNT,
    {
        let xi = i & 255;
        let yi = j & 255;
        let zi = k & 255;
        assert(0 <= xi < 256) by (bit_vector)
            requires
                xi == i & 255,
        ;
        assert(0 <= yi < 256) by (bit_vector)
            requires
                yi == j & 255,
        ;
        assert(0 <= zi < 256) by (bit_vector)
            requires
                zi == k & 255,
        ;
        let a = self.perm_x[xi as usize];
        let b = self.perm_y[yi as usize];
        let c = self.perm_z[zi as usize];
        proof {
            lemma_permutation_entries(self.perm_x@, xi as int);
            lemma_permutation_entries(self.perm_y@, yi as int);
            lemma_permutation_entries(self.perm_z@, zi as int);
        }
        assert(a ^ b ^ c < 256) by (bit_vector)
            requires
                a < 256,
                b < 256,
                c < 256,
        ;
        a ^ b ^ c
    }
}

} // verus!
