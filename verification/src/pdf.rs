//! Sampling distributions, by shape: which strategies a distribution mixes,
//! and which of them a draw is taken from.

use vstd::prelude::*;
use crate::rng::random_below;

verus! {

/// A distribution over directions.
#[derive(Debug, PartialEq, Eq)]
pub enum PDF {
    /// Cosine-weighted around the surface normal.
    Cosine,
    /// Weighted towards the solid angle of a piece of geometry.
    Hittable,
    /// Each of two distributions with probability one half.
    Mixture { p: Box<PDF>, q: Box<PDF> },
}

/// A distribution that is drawn from directly.
#[derive(Clone, Copy, Debug, PartialEq, Eq, Structural)]
pub enum Strategy {
    Cosine,
    Hittable,
}

/// Whether `mean` tells what `average` answers for two densities.
pub open spec fn averages<D, A: Fn(D, D) -> D>(average: A, mean: spec_fn(D, D) -> D) -> bool {
    forall|a: D, b: D, r: D| #[trigger] call_ensures(average, (a, b), r) ==> r == mean(a, b)
}

/// Whether `average` can have given the answers from which `r` is the
/// density of `pdf`: the density of [`PDF::density`], with each mean one that
/// `average` may give for the two densities it is asked with.
pub open spec fn valued<D, A: Fn(D, D) -> D>(
    r: D,
    pdf: PDF,
    cosine: D,
    hittable: D,
    average: A,
) -> bool
    decreases pdf,
{
    match pdf {
        PDF::Cosine => r == cosine,
        PDF::Hittable => r == hittable,
        PDF::Mixture { p, q } => exists|of_p: D, of_q: D|
            {
                &&& valued(of_p, *p, cosine, hittable, average)
                &&& valued(of_q, *q, cosine, hittable, average)
                &&& #[trigger] call_ensures(average, (of_p, of_q), r)
            },
    }
}

impl PDF {
    /// The strategies that a distribution mixes, from left to right.
    pub open spec fn strategies(self) -> Seq<Strategy>
        decreases self,
    {
        match self {
            PDF::Cosine => seq![Strategy::Cosine],
            PDF::Hittable => seq![Strategy::Hittable],
            PDF::Mixture { p, q } => p.strategies() + q.strategies(),
        }
    }

    /// The density of the distribution in one direction, where `cosine` and
    /// `hittable` are the densities of the two strategies in that direction
    /// and `mean` averages two densities: a mixture has the mean of the
    /// densities of its two children.
    pub open spec fn density<D>(self, cosine: D, hittable: D, mean: spec_fn(D, D) -> D) -> D
        decreases self,
    {
        match self {
            PDF::Cosine => cosine,
            PDF::Hittable => hittable,
            PDF::Mixture { p, q } => mean(
                p.density(cosine, hittable, mean),
                q.density(cosine, hittable, mean),
            ),
        }
    }

    /// The density of a mixture is the mean of the densities of its two
    /// children, whatever the children are.
    pub proof fn lemma_mixture_is_mean<D>(
        p: PDF,
        q: PDF,
        cosine: D,
        hittable: D,
        mean: spec_fn(D, D) -> D,
    )
        ensures
            (PDF::Mixture { p: Box::new(p), q: Box::new(q) }).density(cosine, hittable, mean)
                == mean(p.density(cosine, hittable, mean), q.density(cosine, hittable, mean)),
    {
    }

    /// Computes the density of the distribution in one direction from the
    /// densities `cosine` and `hittable` of the two strategies in that
    /// direction, with `average` to average the two children of a mixture.
    pub fn value<D: Copy, A: Fn(D, D) -> D>(&self, cosine: D, hittable: D, average: &A) -> (r: D)
        requires
            forall|a: D, b: D| call_requires(*average, (a, b)),
        ensures
            valued(r, *self, cosine, hittable, *average),
            forall|mean: spec_fn(D, D) -> D|
                averages(*average, mean) ==> r == #[trigger] self.density(cosine, hittable, mean),
        decreases self,
    {
        match self {
            PDF::Cosine => cosine,
            PDF::Hittable => hittable,
            PDF::Mixture { p, q } => {
                let of_p = p.value(cosine, hittable, average);
                let of_q = q.value(cosine, hittable, average);
                let r = average(of_p, of_q);
                proof {
                    assert forall|mean: spec_fn(D, D) -> D| averages(*average, mean) implies r
                        == #[trigger] self.density(cosine, hittable, mean) by {
                        assert(of_p == p.density(cosine, hittable, mean));
                        assert(of_q == q.density(cosine, hittable, mean));
                    }
                }
                r
            },
        }
    }

    /// The distribution that a draw goes on with when the coin shows `heads`:
    /// the first child of a mixture on heads, the second on tails, and the
    /// distribution itself where there is nothing to choose.
    pub open spec fn child(self, heads: bool) -> PDF {
        match self {
            PDF::Mixture { p, q } => if heads {
                *p
            } else {
                *q
            },
            _ => self,
        }
    }

    /// Whatever the coin shows, the strategies of the chosen child are among
    /// those of the mixture.
    pub proof fn lemma_child_strategies(self, heads: bool, s: Strategy)
        requires
            self.child(heads).strategies().contains(s),
        ensures
            self.strategies().contains(s),
    {
        match self {
            PDF::Mixture { p, q } => {
                let ps = p.strategies();
                let qs = q.strategies();
                if heads {
                    let i = choose|i: int| 0 <= i < ps.len() && ps[i] == s;
                    assert((ps + qs)[i] == s);
                } else {
                    let i = choose|i: int| 0 <= i < qs.len() && qs[i] == s;
                    assert((ps + qs)[ps.len() + i] == s);
                }
            },
            _ => {},
        }
    }

    /// Returns the distribution to go on with for one toss of the coin.
    pub fn choose_child(&self, heads: bool) -> (r: &PDF)
        ensures
            *r == self.child(heads),
    {
        match self {
            PDF::Mixture { p, q } => {
                if heads {
                    &**p
                } else {
                    &**q
                }
            },
            _ => self,
        }
    }

    /// Picks the strategy to draw a direction from: at each mixture a fair
    /// coin decides between the two children. Whatever the coin shows, the
    /// strategy is one that the distribution mixes.
    pub fn generate(&self) -> (r: Strategy)
        ensures
            self.strategies().contains(r),
        decreases self,
    {
        match self {
            PDF::Cosine => {
                assert(self.strategies()[0] == Strategy::Cosine);
                Strategy::Cosine
            },
            PDF::Hittable => {
                assert(self.strategies()[0] == Strategy::Hittable);
                Strategy::Hittable
            },
            PDF::Mixture { .. } => {
                let heads = random_below(2) == 0;
                let r = self.choose_child(heads).generate();
                proof {
                    self.lemma_child_strategies(heads, r);
                }
                r
            },
        }
    }
}

} // verus!
