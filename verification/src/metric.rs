//! The concept of a metric: a point-pair distance function.
//!
//! A metric must be symmetric, non-negative and zero between a point and
//! itself.  No triangle inequality is required: callers may supply any
//! dissimilarity with these properties.  Implementations prove the three
//! properties as part of implementing the trait.

use crate::rat::{
    all_fit, fits, radd, radd_c, rat_eq, rint, rle, rmul, rmul_c, rsub, rsub_c, seq_v, wf_v, Rat,
    RatV,
};
use vstd::prelude::*;

verus! {

/// A point type with an exact distance function.
pub trait Metric: Sized {
    /// The pairs for which the distance is computable within the machine
    /// range of exact rationals.
    spec fn distance_pre(a: Self, b: Self) -> bool;

    /// The exact distance between two points.
    spec fn spec_distance(a: Self, b: Self) -> RatV;

    /// The distance is a well-formed, non-negative rational.
    proof fn lemma_distance_nonneg(a: Self, b: Self)
        requires
            Self::distance_pre(a, b),
        ensures
            wf_v(Self::spec_distance(a, b)),
            rle(rint(0), Self::spec_distance(a, b)),
    ;

    /// The distance is symmetric.
    proof fn lemma_distance_symm(a: Self, b: Self)
        requires
            Self::distance_pre(a, b),
        ensures
            Self::distance_pre(b, a),
            rat_eq(Self::spec_distance(a, b), Self::spec_distance(b, a)),
    ;

    /// The distance from a point to itself is zero.
    proof fn lemma_distance_self(a: Self)
        requires
            Self::distance_pre(a, a),
        ensures
            rat_eq(Self::spec_distance(a, a), rint(0)),
    ;

    /// Compute the distance between `a` and `b`.
    fn distance(a: &Self, b: &Self) -> (r: Rat)
        requires
            Self::distance_pre(*a, *b),
        ensures
            r.wf(),
            r@ == Self::spec_distance(*a, *b),
    ;
}

impl Metric for Rat {
    /// Both scalars are representable and so is their difference.
    open spec fn distance_pre(a: Rat, b: Rat) -> bool {
        a.wf() && b.wf() && fits(rsub(a@, b@))
    }

    /// The absolute difference: an exact metric on scalar points.
    open spec fn spec_distance(a: Rat, b: Rat) -> RatV {
        crate::rat::rabs(rsub(a@, b@))
    }

    proof fn lemma_distance_nonneg(a: Rat, b: Rat) {
    }

    proof fn lemma_distance_symm(a: Rat, b: Rat) {
        let d1 = rsub(a@, b@);
        let d2 = rsub(b@, a@);
        assert(d2.n == -d1.n && d2.d == d1.d);
        assert(crate::rat::rabs(d2) == crate::rat::rabs(d1));
    }

    proof fn lemma_distance_self(a: Rat) {
    }

    fn distance(a: &Rat, b: &Rat) -> (r: Rat) {
        let d = match a.sub(*b) {
            Some(v) => v,
            None => Rat::from_int(0),
        };
        d.abs()
    }
}

/// The checked squared Euclidean distance between two coordinate
/// sequences, folded left to right from the accumulator `acc`.
pub open spec fn sq_dist_c(a: Seq<RatV>, b: Seq<RatV>, i: int, acc: RatV) -> Option<RatV>
    decreases a.len() - i,
{
    if i < 0 || i >= a.len() {
        Some(acc)
    } else {
        match rsub_c(a[i], b[i]) {
            None => None,
            Some(d) => match rmul_c(d, d) {
                None => None,
                Some(sq) => match radd_c(acc, sq) {
                    None => None,
                    Some(acc2) => sq_dist_c(a, b, i + 1, acc2),
                },
            },
        }
    }
}

proof fn lemma_sq_dist_nonneg(a: Seq<RatV>, b: Seq<RatV>, i: int, acc: RatV)
    requires
        wf_v(acc),
        rle(rint(0), acc),
        sq_dist_c(a, b, i, acc) is Some,
    ensures
        wf_v(sq_dist_c(a, b, i, acc).unwrap()),
        rle(rint(0), sq_dist_c(a, b, i, acc).unwrap()),
    decreases a.len() - i,
{
    if i < 0 || i >= a.len() {
    } else {
        let d = rsub(a[i], b[i]);
        let sq = rmul(d, d);
        let acc2 = radd(acc, sq);
        assert(wf_v(acc2) && rle(rint(0), acc2)) by (nonlinear_arith)
            requires
                wf_v(acc),
                rle(rint(0), acc),
                fits(d),
                fits(sq),
                fits(acc2),
                sq == rmul(d, d),
                acc2 == radd(acc, sq),
        ;
        lemma_sq_dist_nonneg(a, b, i + 1, acc2);
    }
}

proof fn lemma_sq_dist_symm(a: Seq<RatV>, b: Seq<RatV>, i: int, acc: RatV)
    requires
        a.len() == b.len(),
    ensures
        sq_dist_c(a, b, i, acc) == sq_dist_c(b, a, i, acc),
    decreases a.len() - i,
{
    if i < 0 || i >= a.len() {
    } else {
        let d = rsub(a[i], b[i]);
        let e = rsub(b[i], a[i]);
        assert(e.n == -d.n && e.d == d.d);
        assert(rmul(e, e) == rmul(d, d)) by (nonlinear_arith)
            requires
                e.n == -d.n,
                e.d == d.d,
        ;
        if fits(d) && fits(rmul(d, d)) && fits(radd(acc, rmul(d, d))) {
            lemma_sq_dist_symm(a, b, i + 1, radd(acc, rmul(d, d)));
        }
        assert(fits(e) <==> fits(d));
    }
}

proof fn lemma_sq_dist_self(a: Seq<RatV>, i: int, acc: RatV)
    requires
        acc.n == 0,
        sq_dist_c(a, a, i, acc) is Some,
    ensures
        sq_dist_c(a, a, i, acc).unwrap().n == 0,
    decreases a.len() - i,
{
    if i < 0 || i >= a.len() {
    } else {
        let d = rsub(a[i], a[i]);
        let sq = rmul(d, d);
        let acc2 = radd(acc, sq);
        assert(d.n == a[i].n * a[i].d - a[i].n * a[i].d);
        assert(sq.n == 0 * 0);
        assert(acc2.n == 0 * sq.d + 0 * acc.d);
        lemma_sq_dist_self(a, i + 1, acc2);
    }
}

impl Metric for Vec<Rat> {
    /// The points have the same dimension, their coordinates are
    /// representable, and the whole fold stays within the machine range.
    open spec fn distance_pre(a: Vec<Rat>, b: Vec<Rat>) -> bool {
        &&& a@.len() == b@.len()
        &&& all_fit(seq_v(a@))
        &&& all_fit(seq_v(b@))
        &&& sq_dist_c(seq_v(a@), seq_v(b@), 0, rint(0)) is Some
    }

    /// The squared Euclidean distance: exact over rationals, symmetric,
    /// non-negative and zero between equal points, so a valid
    /// dissimilarity for inverse-distance weighting.
    open spec fn spec_distance(a: Vec<Rat>, b: Vec<Rat>) -> RatV {
        sq_dist_c(seq_v(a@), seq_v(b@), 0, rint(0)).unwrap()
    }

    proof fn lemma_distance_nonneg(a: Vec<Rat>, b: Vec<Rat>) {
        lemma_sq_dist_nonneg(seq_v(a@), seq_v(b@), 0, rint(0));
    }

    proof fn lemma_distance_symm(a: Vec<Rat>, b: Vec<Rat>) {
        lemma_sq_dist_symm(seq_v(a@), seq_v(b@), 0, rint(0));
    }

    proof fn lemma_distance_self(a: Vec<Rat>) {
        lemma_sq_dist_self(seq_v(a@), 0, rint(0));
        let v = sq_dist_c(seq_v(a@), seq_v(a@), 0, rint(0)).unwrap();
        lemma_sq_dist_nonneg(seq_v(a@), seq_v(a@), 0, rint(0));
        assert(v.n * 1 == 0 * v.d);
    }

    fn distance(a: &Vec<Rat>, b: &Vec<Rat>) -> (r: Rat) {
        let ghost av = seq_v(a@);
        let ghost bv = seq_v(b@);
        proof {
            crate::rat::lemma_all_fit_wf(a@);
            crate::rat::lemma_all_fit_wf(b@);
        }
        let mut acc = Rat::from_int(0);
        let mut i: usize = 0;
        let n = a.len();
        while i < n
            invariant
                av == seq_v(a@),
                bv == seq_v(b@),
                n == a@.len(),
                a@.len() == b@.len(),
                all_fit(av),
                all_fit(bv),
                forall|m: int| 0 <= m < a@.len() ==> (#[trigger] a@[m]).wf() && a@[m]@ == av[m],
                forall|m: int| 0 <= m < b@.len() ==> (#[trigger] b@[m]).wf() && b@[m]@ == bv[m],
                0 <= i <= n,
                acc.wf(),
                sq_dist_c(av, bv, i as int, acc@) == sq_dist_c(av, bv, 0, rint(0)),
                sq_dist_c(av, bv, 0, rint(0)) is Some,
            decreases n - i,
        {
            let d = match a[i].sub(b[i]) {
                Some(v) => v,
                None => {
                    proof {
                        assert(false);
                    }
                    Rat::from_int(0)
                },
            };
            let sq = match d.mul(d) {
                Some(v) => v,
                None => {
                    proof {
                        assert(false);
                    }
                    Rat::from_int(0)
                },
            };
            acc = match acc.add(sq) {
                Some(v) => v,
                None => {
                    proof {
                        assert(false);
                    }
                    Rat::from_int(0)
                },
            };
            i = i + 1;
        }
        acc
    }
}

} // verus!
