//! Exact rational numbers.
//!
//! Coordinates, sample values and interpolation results are rationals with
//! `i64` numerator and positive `i64` denominator.  At the specification
//! level a rational is a [`RatV`]: an unbounded integer numerator over a
//! positive unbounded integer denominator.  Values are not kept in lowest
//! terms; two rationals denote the same number exactly when [`rat_eq`]
//! holds, which cross-multiplies the fractions.
//!
//! Every arithmetic operation computes the exact mathematical result and
//! reports `None` instead when that result does not fit the `i64` ranges,
//! so no operation overflows and no verified function panics.

use vstd::prelude::*;

verus! {

/// The mathematical value of a rational: numerator `n` over denominator `d`.
pub ghost struct RatV {
    /// Numerator.
    pub n: int,
    /// Denominator; well-formed values keep it positive.
    pub d: int,
}

/// A well-formed rational value has a positive denominator.
pub open spec fn wf_v(a: RatV) -> bool {
    a.d > 0
}

/// Two rationals denote the same number: a.n/a.d == b.n/b.d by cross-multiplication.
pub open spec fn rat_eq(a: RatV, b: RatV) -> bool {
    a.n * b.d == b.n * a.d
}

/// a.n/a.d <= b.n/b.d, for positive denominators.
pub open spec fn rle(a: RatV, b: RatV) -> bool {
    a.n * b.d <= b.n * a.d
}

/// a.n/a.d < b.n/b.d, for positive denominators.
pub open spec fn rlt(a: RatV, b: RatV) -> bool {
    a.n * b.d < b.n * a.d
}

/// The rational denoting the integer `i`.
pub open spec fn rint(i: int) -> RatV {
    RatV { n: i, d: 1 }
}

/// Exact sum.
pub open spec fn radd(a: RatV, b: RatV) -> RatV {
    RatV { n: a.n * b.d + b.n * a.d, d: a.d * b.d }
}

/// Exact difference.
pub open spec fn rsub(a: RatV, b: RatV) -> RatV {
    RatV { n: a.n * b.d - b.n * a.d, d: a.d * b.d }
}

/// Exact product.
pub open spec fn rmul(a: RatV, b: RatV) -> RatV {
    RatV { n: a.n * b.n, d: a.d * b.d }
}

/// Exact quotient; meaningful when `b.n != 0`.  The sign of the divisor's
/// numerator moves into the result's numerator so the denominator stays
/// positive.
pub open spec fn rdiv(a: RatV, b: RatV) -> RatV {
    if b.n >= 0 {
        RatV { n: a.n * b.d, d: a.d * b.n }
    } else {
        RatV { n: -(a.n * b.d), d: -(a.d * b.n) }
    }
}

/// Exact negation.
pub open spec fn rneg(a: RatV) -> RatV {
    RatV { n: -a.n, d: a.d }
}

/// Exact half.
pub open spec fn rhalf(a: RatV) -> RatV {
    RatV { n: a.n, d: 2 * a.d }
}

/// Exact absolute value.
pub open spec fn rabs(a: RatV) -> RatV {
    if a.n >= 0 {
        a
    } else {
        rneg(a)
    }
}

/// The components fit the machine representation: numerator strictly above
/// `i64::MIN` and denominator a positive `i64`.
pub open spec fn fits(a: RatV) -> bool {
    -0x7fff_ffff_ffff_ffff <= a.n <= 0x7fff_ffff_ffff_ffff && 0 < a.d <= 0x7fff_ffff_ffff_ffff
}

/// Checked sum: the exact result, or `None` when it does not fit.
pub open spec fn radd_c(a: RatV, b: RatV) -> Option<RatV> {
    if fits(radd(a, b)) {
        Some(radd(a, b))
    } else {
        None
    }
}

/// Checked difference.
pub open spec fn rsub_c(a: RatV, b: RatV) -> Option<RatV> {
    if fits(rsub(a, b)) {
        Some(rsub(a, b))
    } else {
        None
    }
}

/// Checked product.
pub open spec fn rmul_c(a: RatV, b: RatV) -> Option<RatV> {
    if fits(rmul(a, b)) {
        Some(rmul(a, b))
    } else {
        None
    }
}

/// Checked quotient; meaningful when `b.n != 0`.
pub open spec fn rdiv_c(a: RatV, b: RatV) -> Option<RatV> {
    if fits(rdiv(a, b)) {
        Some(rdiv(a, b))
    } else {
        None
    }
}

/// Checked half.
pub open spec fn rhalf_c(a: RatV) -> Option<RatV> {
    if fits(rhalf(a)) {
        Some(rhalf(a))
    } else {
        None
    }
}

/// An exact rational number backed by `i64` components.
#[derive(Clone, Copy, Debug)]
pub struct Rat {
    num: i64,
    den: i64,
}

impl View for Rat {
    type V = RatV;

    closed spec fn view(&self) -> RatV {
        RatV { n: self.num as int, d: self.den as int }
    }
}

/// The value of an optional rational, for stating checked-arithmetic results.
pub open spec fn opt_v(r: Option<Rat>) -> Option<RatV> {
    match r {
        Some(v) => Some(v@),
        None => None,
    }
}

impl Rat {
    /// The machine representation is well-formed: see [`fits`].
    pub open spec fn wf(self) -> bool {
        fits(self@)
    }

    /// Builds the rational `num / den`.
    pub fn new(num: i64, den: i64) -> (r: Rat)
        requires
            den > 0,
            num > i64::MIN,
        ensures
            r.wf(),
            r@ == (RatV { n: num as int, d: den as int }),
    {
        Rat { num, den }
    }

    /// Builds the rational denoting the integer `i`.
    pub fn from_int(i: i64) -> (r: Rat)
        requires
            i > i64::MIN,
        ensures
            r.wf(),
            r@ == rint(i as int),
    {
        Rat { num: i, den: 1 }
    }

    /// The numerator of the stored (not necessarily reduced) representation.
    pub fn num(&self) -> (r: i64)
        ensures
            r as int == self@.n,
    {
        self.num
    }

    /// The denominator of the stored (not necessarily reduced) representation.
    pub fn den(&self) -> (r: i64)
        ensures
            r as int == self@.d,
    {
        self.den
    }

    /// Checked sum: exact, or `None` when the result does not fit.
    pub fn add(self, other: Rat) -> (r: Option<Rat>)
        requires
            self.wf(),
            other.wf(),
        ensures
            opt_v(r) == radd_c(self@, other@),
            r matches Some(v) ==> v.wf(),
    {
        proof {
            lemma_mul_bound(self.num as int, other.den as int);
            lemma_mul_bound(other.num as int, self.den as int);
            lemma_mul_bound(self.den as int, other.den as int);
            lemma_pos_mul_pos(self.den as int, other.den as int);
        }
        let n: i128 = self.num as i128 * other.den as i128 + other.num as i128 * self.den as i128;
        let d: i128 = self.den as i128 * other.den as i128;
        if -0x7fff_ffff_ffff_ffff <= n && n <= 0x7fff_ffff_ffff_ffff && d <= 0x7fff_ffff_ffff_ffff {
            Some(Rat { num: n as i64, den: d as i64 })
        } else {
            None
        }
    }

    /// Checked difference: exact, or `None` when the result does not fit.
    pub fn sub(self, other: Rat) -> (r: Option<Rat>)
        requires
            self.wf(),
            other.wf(),
        ensures
            opt_v(r) == rsub_c(self@, other@),
            r matches Some(v) ==> v.wf(),
    {
        proof {
            lemma_mul_bound(self.num as int, other.den as int);
            lemma_mul_bound(other.num as int, self.den as int);
            lemma_mul_bound(self.den as int, other.den as int);
            lemma_pos_mul_pos(self.den as int, other.den as int);
        }
        let n: i128 = self.num as i128 * other.den as i128 - other.num as i128 * self.den as i128;
        let d: i128 = self.den as i128 * other.den as i128;
        if -0x7fff_ffff_ffff_ffff <= n && n <= 0x7fff_ffff_ffff_ffff && d <= 0x7fff_ffff_ffff_ffff {
            Some(Rat { num: n as i64, den: d as i64 })
        } else {
            None
        }
    }

    /// Checked product: exact, or `None` when the result does not fit.
    pub fn mul(self, other: Rat) -> (r: Option<Rat>)
        requires
            self.wf(),
            other.wf(),
        ensures
            opt_v(r) == rmul_c(self@, other@),
            r matches Some(v) ==> v.wf(),
    {
        proof {
            lemma_mul_bound(self.num as int, other.num as int);
            lemma_mul_bound(self.den as int, other.den as int);
            lemma_pos_mul_pos(self.den as int, other.den as int);
        }
        let n: i128 = self.num as i128 * other.num as i128;
        let d: i128 = self.den as i128 * other.den as i128;
        if -0x7fff_ffff_ffff_ffff <= n && n <= 0x7fff_ffff_ffff_ffff && d <= 0x7fff_ffff_ffff_ffff {
            Some(Rat { num: n as i64, den: d as i64 })
        } else {
            None
        }
    }

    /// Checked quotient: exact, or `None` when the result does not fit.
    /// The divisor must be nonzero.
    pub fn div(self, other: Rat) -> (r: Option<Rat>)
        requires
            self.wf(),
            other.wf(),
            other@.n != 0,
        ensures
            opt_v(r) == rdiv_c(self@, other@),
            r matches Some(v) ==> v.wf(),
    {
        proof {
            lemma_mul_bound(self.num as int, other.den as int);
            lemma_mul_bound(self.den as int, other.num as int);
            if other.num > 0 {
                lemma_pos_mul_pos(self.den as int, other.num as int);
            } else {
                lemma_pos_mul_neg(self.den as int, other.num as int);
            }
        }
        let n: i128 = self.num as i128 * other.den as i128;
        let d: i128 = self.den as i128 * other.num as i128;
        let (n, d): (i128, i128) = if other.num >= 0 { (n, d) } else { (-n, -d) };
        if -0x7fff_ffff_ffff_ffff <= n && n <= 0x7fff_ffff_ffff_ffff && d <= 0x7fff_ffff_ffff_ffff {
            Some(Rat { num: n as i64, den: d as i64 })
        } else {
            None
        }
    }

    /// Exact negation; always fits.
    pub fn neg(self) -> (r: Rat)
        requires
            self.wf(),
        ensures
            r.wf(),
            r@ == rneg(self@),
    {
        Rat { num: -self.num, den: self.den }
    }

    /// Exact absolute value; always fits.
    pub fn abs(self) -> (r: Rat)
        requires
            self.wf(),
        ensures
            r.wf(),
            r@ == rabs(self@),
    {
        if self.num >= 0 {
            self
        } else {
            Rat { num: -self.num, den: self.den }
        }
    }

    /// Checked half: exact, or `None` when the doubled denominator does not fit.
    pub fn half(self) -> (r: Option<Rat>)
        requires
            self.wf(),
        ensures
            opt_v(r) == rhalf_c(self@),
            r matches Some(v) ==> v.wf(),
    {
        if self.den <= 0x3fff_ffff_ffff_ffff {
            Some(Rat { num: self.num, den: 2 * self.den })
        } else {
            None
        }
    }

    /// Returns the same value with the magnitude of the numerator and the
    /// denominator divided by their greatest common divisor.
    pub fn reduced(self) -> (r: Rat)
        requires
            self.wf(),
        ensures
            r.wf(),
            r@ == norm_v(self@),
            rat_eq(r@, self@),
    {
        proof {
            lemma_norm_v_eq(self@);
        }
        let m: u64 = if self.num >= 0 {
            self.num as u64
        } else {
            (-self.num) as u64
        };
        let ghost m0 = m as int;
        let ghost d0 = self.den as int;
        let mut a: u64 = m;
        let mut b: u64 = self.den as u64;
        while b > 0
            invariant
                gcd(a as int, b as int) == gcd(m0, d0),
            decreases b,
        {
            let t = a % b;
            a = b;
            b = t;
        }
        let g = a;
        proof {
            lemma_gcd_bounds(m0, d0);
            assert(gcd(g as int, 0) == g as int);
            assert(g as int == gcd(m0, d0));
        }
        let nn = m / g;
        let dd = (self.den as u64) / g;
        proof {
            vstd::arithmetic::div_mod::lemma_div_nonincreasing(m0, g as int);
            vstd::arithmetic::div_mod::lemma_div_nonincreasing(d0, g as int);
            vstd::arithmetic::div_mod::lemma_div_non_zero(d0, g as int);
        }
        let num: i64 = if self.num >= 0 {
            nn as i64
        } else {
            -(nn as i64)
        };
        Rat { num, den: dd as i64 }
    }

    /// Whether `self <= other` as numbers.
    pub fn le(&self, other: &Rat) -> (r: bool)
        requires
            self.wf(),
            other.wf(),
        ensures
            r == rle(self@, other@),
    {
        proof {
            lemma_mul_bound(self.num as int, other.den as int);
            lemma_mul_bound(other.num as int, self.den as int);
        }
        self.num as i128 * other.den as i128 <= other.num as i128 * self.den as i128
    }

    /// Whether `self < other` as numbers.
    pub fn lt(&self, other: &Rat) -> (r: bool)
        requires
            self.wf(),
            other.wf(),
        ensures
            r == rlt(self@, other@),
    {
        proof {
            lemma_mul_bound(self.num as int, other.den as int);
            lemma_mul_bound(other.num as int, self.den as int);
        }
        (self.num as i128 * other.den as i128) < (other.num as i128 * self.den as i128)
    }

    /// Whether `self` and `other` denote the same number.
    pub fn eq_val(&self, other: &Rat) -> (r: bool)
        requires
            self.wf(),
            other.wf(),
        ensures
            r == rat_eq(self@, other@),
    {
        proof {
            lemma_mul_bound(self.num as int, other.den as int);
            lemma_mul_bound(other.num as int, self.den as int);
        }
        self.num as i128 * other.den as i128 == other.num as i128 * self.den as i128
    }
}

/// The value sequence of a sequence of machine rationals.
pub open spec fn seq_v(s: Seq<Rat>) -> Seq<RatV> {
    Seq::new(s.len(), |i: int| s[i]@)
}

/// Every element of the sequence fits the machine representation.
pub open spec fn all_fit(s: Seq<RatV>) -> bool {
    forall|i: int| 0 <= i < s.len() ==> fits(#[trigger] s[i])
}

/// Machine rationals whose values all fit are all well-formed, and the
/// value sequence indexes to their views.
pub proof fn lemma_all_fit_wf(s: Seq<Rat>)
    requires
        all_fit(seq_v(s)),
    ensures
        forall|i: int| 0 <= i < s.len() ==> (#[trigger] s[i]).wf() && s[i]@ == seq_v(s)[i],
{
    assert forall|i: int|
        0 <= i < s.len() implies (#[trigger] s[i]).wf() && s[i]@ == seq_v(s)[i] by {
        assert(seq_v(s)[i] == s[i]@);
        assert(fits(seq_v(s)[i]));
    }
}

/// `<` composes with `<=` across a common middle value.
pub proof fn lemma_rlt_rle_trans(a: RatV, b: RatV, c: RatV)
    by (nonlinear_arith)
    requires
        wf_v(a),
        wf_v(b),
        wf_v(c),
        rlt(a, b),
        rle(b, c),
    ensures
        rlt(a, c),
{
}

/// `<` is transitive.
pub proof fn lemma_rlt_trans(a: RatV, b: RatV, c: RatV)
    by (nonlinear_arith)
    requires
        wf_v(a),
        wf_v(b),
        wf_v(c),
        rlt(a, b),
        rlt(b, c),
    ensures
        rlt(a, c),
{
}

/// The difference of a strictly larger value has a positive numerator.
pub proof fn lemma_rsub_pos(a: RatV, b: RatV)
    requires
        wf_v(a),
        wf_v(b),
        rlt(a, b),
    ensures
        rsub(b, a).n > 0,
{
}

/// Denoting the same number is symmetric.
pub proof fn lemma_rat_eq_sym(a: RatV, b: RatV)
    requires
        rat_eq(a, b),
    ensures
        rat_eq(b, a),
{
}

/// Denoting the same number is transitive.
pub proof fn lemma_rat_eq_trans(a: RatV, b: RatV, c: RatV)
    by (nonlinear_arith)
    requires
        wf_v(a),
        wf_v(b),
        wf_v(c),
        rat_eq(a, b),
        rat_eq(b, c),
    ensures
        rat_eq(a, c),
{
}

/// Sums and products of well-formed values are well-formed.
pub proof fn lemma_ops_wf(a: RatV, b: RatV)
    by (nonlinear_arith)
    requires
        wf_v(a),
        wf_v(b),
    ensures
        wf_v(radd(a, b)),
        wf_v(rsub(a, b)),
        wf_v(rmul(a, b)),
{
}

/// The sum respects value equality in its left operand.
pub proof fn lemma_radd_cong(a: RatV, a2: RatV, b: RatV)
    requires
        wf_v(a),
        wf_v(a2),
        wf_v(b),
        rat_eq(a, a2),
    ensures
        rat_eq(radd(a, b), radd(a2, b)),
{
    assert((a.n * b.d + b.n * a.d) * (a2.d * b.d) == a.n * b.d * (a2.d * b.d) + b.n * a.d * (
    a2.d * b.d)) by (nonlinear_arith);
    assert((a2.n * b.d + b.n * a2.d) * (a.d * b.d) == a2.n * b.d * (a.d * b.d) + b.n * a2.d * (
    a.d * b.d)) by (nonlinear_arith);
    assert(a.n * b.d * (a2.d * b.d) == a2.n * b.d * (a.d * b.d)) by (nonlinear_arith)
        requires
            a.n * a2.d == a2.n * a.d,
    ;
    assert(b.n * a.d * (a2.d * b.d) == b.n * a2.d * (a.d * b.d)) by (nonlinear_arith);
}

/// The product respects value equality in its left operand.
pub proof fn lemma_rmul_cong(a: RatV, a2: RatV, b: RatV)
    by (nonlinear_arith)
    requires
        wf_v(a),
        wf_v(a2),
        wf_v(b),
        rat_eq(a, a2),
    ensures
        rat_eq(rmul(a, b), rmul(a2, b)),
{
}

/// The sum respects value equality in its right operand.
pub proof fn lemma_radd_cong2(a: RatV, b: RatV, b2: RatV)
    requires
        wf_v(a),
        wf_v(b),
        wf_v(b2),
        rat_eq(b, b2),
    ensures
        rat_eq(radd(a, b), radd(a, b2)),
{
    lemma_radd_comm(a, b);
    lemma_radd_comm(a, b2);
    lemma_radd_cong(b, b2, a);
}

/// The product respects value equality in its right operand.
pub proof fn lemma_rmul_cong2(a: RatV, b: RatV, b2: RatV)
    requires
        wf_v(a),
        wf_v(b),
        wf_v(b2),
        rat_eq(b, b2),
    ensures
        rat_eq(rmul(a, b), rmul(a, b2)),
{
    lemma_rmul_comm(a, b);
    lemma_rmul_comm(a, b2);
    lemma_rmul_cong(b, b2, a);
}

/// The sum is commutative.
pub proof fn lemma_radd_comm(a: RatV, b: RatV)
    by (nonlinear_arith)
    ensures
        radd(a, b) == radd(b, a),
{
}

/// The product is commutative.
pub proof fn lemma_rmul_comm(a: RatV, b: RatV)
    by (nonlinear_arith)
    ensures
        rmul(a, b) == rmul(b, a),
{
}

/// The sum is associative: over a common (unreduced) denominator, exactly.
pub proof fn lemma_radd_assoc(a: RatV, b: RatV, c: RatV)
    ensures
        radd(radd(a, b), c) == radd(a, radd(b, c)),
{
    broadcast use vstd::arithmetic::mul::group_mul_is_commutative_and_distributive;
    broadcast use vstd::arithmetic::mul::lemma_mul_is_associative;

    assert((a.n * b.d + b.n * a.d) * c.d + c.n * (a.d * b.d) == a.n * (b.d * c.d) + (b.n * c.d
        + c.n * b.d) * a.d);
    assert((a.d * b.d) * c.d == a.d * (b.d * c.d));
}

/// The product distributes over the sum up to value equality.
pub proof fn lemma_rmul_distrib(a: RatV, b: RatV, c: RatV)
    ensures
        rat_eq(rmul(a, radd(b, c)), radd(rmul(a, b), rmul(a, c))),
{
    let x = rmul(a, radd(b, c));
    let y = radd(rmul(a, b), rmul(a, c));
    assert(x.n == a.n * (b.n * c.d + c.n * b.d));
    assert(x.d == a.d * (b.d * c.d));
    assert(y.n == (a.n * b.n) * (a.d * c.d) + (a.n * c.n) * (a.d * b.d));
    assert(y.d == (a.d * b.d) * (a.d * c.d));
    broadcast use vstd::arithmetic::mul::group_mul_is_commutative_and_distributive;
    broadcast use vstd::arithmetic::mul::lemma_mul_is_associative;

    let t1 = (a.n * b.n) * ((a.d * b.d) * (a.d * c.d));
    let t2 = (a.n * c.n) * ((a.d * b.d) * (a.d * c.d));
    assert((a.n * (b.n * c.d + c.n * b.d)) * ((a.d * b.d) * (a.d * c.d)) == c.d * t1 + b.d * t2);
    assert(((a.n * b.n) * (a.d * c.d) + (a.n * c.n) * (a.d * b.d)) * (a.d * (b.d * c.d)) == c.d
        * t1 + b.d * t2);
}

/// Adding a zero-valued term does not change the value.
pub proof fn lemma_radd_zero(a: RatV, z: RatV)
    by (nonlinear_arith)
    requires
        z.n == 0,
    ensures
        rat_eq(radd(a, z), a),
{
}

/// Multiplying by a term whose numerator and denominator agree does not
/// change the value.
pub proof fn lemma_rmul_diag(a: RatV, u: RatV)
    by (nonlinear_arith)
    requires
        u.n == u.d,
    ensures
        rat_eq(rmul(a, u), a),
{
}

/// Subtraction is addition of the negation, exactly.
pub proof fn lemma_rsub_is_radd_neg(a: RatV, b: RatV)
    ensures
        rsub(a, b) == radd(a, rneg(b)),
{
    assert((-(b.n)) * a.d == -(b.n * a.d)) by (nonlinear_arith);
}

/// Negation respects value equality.
pub proof fn lemma_rneg_cong(a: RatV, b: RatV)
    requires
        rat_eq(a, b),
    ensures
        rat_eq(rneg(a), rneg(b)),
{
    assert((-(a.n)) * b.d == -(a.n * b.d)) by (nonlinear_arith);
    assert((-(b.n)) * a.d == -(b.n * a.d)) by (nonlinear_arith);
}

/// Negation distributes over the sum, exactly.
pub proof fn lemma_rneg_radd(a: RatV, b: RatV)
    ensures
        rneg(radd(a, b)) == radd(rneg(a), rneg(b)),
{
    assert(-(a.n * b.d + b.n * a.d) == (-(a.n)) * b.d + (-(b.n)) * a.d) by (nonlinear_arith);
}

/// A value plus its negation has a zero numerator.
pub proof fn lemma_radd_neg_zero(a: RatV)
    ensures
        radd(a, rneg(a)).n == 0,
{
    assert(a.n * a.d + (-(a.n)) * a.d == 0) by (nonlinear_arith);
}

/// The difference respects value equality in its left operand.
pub proof fn lemma_rsub_cong(a: RatV, a2: RatV, b: RatV)
    requires
        wf_v(a),
        wf_v(a2),
        wf_v(b),
        rat_eq(a, a2),
    ensures
        rat_eq(rsub(a, b), rsub(a2, b)),
{
    lemma_rsub_is_radd_neg(a, b);
    lemma_rsub_is_radd_neg(a2, b);
    lemma_radd_cong(a, a2, rneg(b));
}

/// The difference respects value equality in its right operand.
pub proof fn lemma_rsub_cong2(a: RatV, b: RatV, b2: RatV)
    requires
        wf_v(a),
        wf_v(b),
        wf_v(b2),
        rat_eq(b, b2),
    ensures
        rat_eq(rsub(a, b), rsub(a, b2)),
{
    lemma_rsub_is_radd_neg(a, b);
    lemma_rsub_is_radd_neg(a, b2);
    lemma_rneg_cong(b, b2);
    lemma_radd_cong2(a, rneg(b), rneg(b2));
}

/// The product of a value with a negation is the negated product, exactly.
pub proof fn lemma_rmul_neg(a: RatV, b: RatV)
    ensures
        rmul(a, rneg(b)) == rneg(rmul(a, b)),
{
    assert(a.n * (-(b.n)) == -(a.n * b.n)) by (nonlinear_arith);
}

/// The product distributes over the difference up to value equality.
pub proof fn lemma_rmul_distrib_sub(a: RatV, b: RatV, c: RatV)
    ensures
        rat_eq(rmul(a, rsub(b, c)), rsub(rmul(a, b), rmul(a, c))),
{
    lemma_rsub_is_radd_neg(b, c);
    lemma_rmul_distrib(a, b, rneg(c));
    lemma_rmul_neg(a, c);
    lemma_rsub_is_radd_neg(rmul(a, b), rmul(a, c));
}

/// Subtracting a common addend cancels it.
pub proof fn lemma_sub_same_addend(u: RatV, v: RatV, w: RatV)
    requires
        wf_v(u),
        wf_v(v),
        wf_v(w),
    ensures
        rat_eq(rsub(radd(u, w), radd(v, w)), rsub(u, v)),
{
    let vn = rneg(v);
    let wn = rneg(w);
    lemma_rsub_is_radd_neg(radd(u, w), radd(v, w));
    lemma_rneg_radd(v, w);
    // (u + w) + (vn + wn) == (u + vn) + (w + wn)
    lemma_radd_assoc(u, w, radd(vn, wn));
    lemma_radd_assoc(w, vn, wn);
    lemma_radd_comm(w, vn);
    lemma_radd_assoc(vn, w, wn);
    lemma_radd_assoc(u, vn, radd(w, wn));
    assert(radd(radd(u, w), radd(vn, wn)) == radd(radd(u, vn), radd(w, wn)));
    lemma_radd_neg_zero(w);
    lemma_radd_zero(radd(u, vn), radd(w, wn));
    lemma_rsub_is_radd_neg(u, v);
}

/// Adding the difference to a value recovers the subtrahend plus addend:
/// `(x + b) + (y - x)` denotes `y + b`.
pub proof fn lemma_add_sub_shuffle(x: RatV, y: RatV, b: RatV)
    requires
        wf_v(x),
        wf_v(y),
        wf_v(b),
    ensures
        rat_eq(radd(radd(x, b), rsub(y, x)), radd(y, b)),
{
    let xn = rneg(x);
    lemma_rsub_is_radd_neg(y, x);
    // (x + b) + (y + xn) == (y + b) + (x + xn)
    lemma_radd_assoc(x, b, radd(y, xn));
    lemma_radd_assoc(b, y, xn);
    lemma_radd_comm(b, y);
    lemma_radd_assoc(y, b, xn);
    lemma_radd_assoc(x, radd(y, b), xn);
    lemma_radd_comm(x, radd(y, b));
    lemma_radd_assoc(radd(y, b), x, xn);
    assert(radd(radd(x, b), radd(y, xn)) == radd(radd(y, b), radd(x, xn)));
    lemma_radd_neg_zero(x);
    lemma_radd_zero(radd(y, b), radd(x, xn));
}

/// A quotient whose dividend is a multiple of the divisor denotes the
/// multiplier.
pub proof fn lemma_rdiv_of_mul(dy: RatV, dx: RatV, a: RatV)
    requires
        wf_v(dy),
        wf_v(dx),
        wf_v(a),
        dx.n > 0,
        rat_eq(dy, rmul(a, dx)),
    ensures
        rat_eq(rdiv(dy, dx), a),
{
    assert((dy.n * dx.d) * a.d == a.n * (dy.d * dx.n)) by (nonlinear_arith)
        requires
            dy.n * (a.d * dx.d) == (a.n * dx.n) * dy.d,
    ;
}

/// Multiplying a slope scaled by a width with a ratio over the same width
/// cancels the width.
pub proof fn lemma_mul_div_cancel(a: RatV, dx: RatV, s: RatV)
    requires
        wf_v(a),
        wf_v(dx),
        wf_v(s),
        dx.n > 0,
    ensures
        rat_eq(rmul(rmul(dx, a), rdiv(s, dx)), rmul(a, s)),
{
    let k = ((a.n * s.n) * (a.d * s.d)) * (dx.n * dx.d);
    assert(((dx.n * a.n) * (s.n * dx.d)) * (a.d * s.d) == k) by (nonlinear_arith)
        requires
            k == ((a.n * s.n) * (a.d * s.d)) * (dx.n * dx.d),
    ;
    assert((a.n * s.n) * ((dx.d * a.d) * (s.d * dx.n)) == k) by (nonlinear_arith)
        requires
            k == ((a.n * s.n) * (a.d * s.d)) * (dx.n * dx.d),
    ;
}

/// The half of the sum of two values that both denote `a` denotes `a`.
pub proof fn lemma_half_avg(s1: RatV, s2: RatV, a: RatV)
    requires
        wf_v(s1),
        wf_v(s2),
        wf_v(a),
        rat_eq(s1, a),
        rat_eq(s2, a),
    ensures
        rat_eq(rhalf(radd(s1, s2)), a),
{
    assert((s1.n * s2.d + s2.n * s1.d) * a.d == a.n * (2 * (s1.d * s2.d))) by (nonlinear_arith)
        requires
            s1.n * a.d == a.n * s1.d,
            s2.n * a.d == a.n * s2.d,
    ;
}

/// Euclid's greatest common divisor of two non-negative integers.
pub open spec fn gcd(a: int, b: int) -> int
    decreases b,
{
    if b <= 0 {
        a
    } else {
        gcd(b, a % b)
    }
}

proof fn lemma_gcd_bounds(a: int, b: int)
    requires
        a >= 0,
        b >= 1,
    ensures
        1 <= gcd(a, b) <= b,
    decreases b,
{
    if a % b == 0 {
        assert(gcd(b, 0) == b);
    } else {
        lemma_gcd_bounds(b, a % b);
    }
}

proof fn lemma_gcd_divides(a: int, b: int)
    requires
        a >= 0,
        b >= 1,
    ensures
        a % gcd(a, b) == 0,
        b % gcd(a, b) == 0,
    decreases b,
{
    lemma_gcd_bounds(a, b);
    let g = gcd(a, b);
    if a % b == 0 {
        assert(gcd(b, 0) == b);
        vstd::arithmetic::div_mod::lemma_mod_multiples_basic(1, b);
    } else {
        lemma_gcd_divides(b, a % b);
        vstd::arithmetic::div_mod::lemma_fundamental_div_mod(a, b);
        vstd::arithmetic::div_mod::lemma_fundamental_div_mod(b, g);
        vstd::arithmetic::div_mod::lemma_fundamental_div_mod(a % b, g);
        let k = (b / g) * (a / b) + (a % b) / g;
        assert(a == g * k + 0) by (nonlinear_arith)
            requires
                a == b * (a / b) + (a % b),
                b == g * (b / g),
                a % b == g * ((a % b) / g),
                k == (b / g) * (a / b) + (a % b) / g,
        ;
        vstd::arithmetic::div_mod::lemma_mod_multiples_vanish(k, 0, g);
        vstd::arithmetic::div_mod::lemma_small_mod(0, g as nat);
    }
}

/// Reduction preserves well-formedness and the denoted value.
pub proof fn lemma_norm_v_eq(v: RatV)
    requires
        wf_v(v),
    ensures
        wf_v(norm_v(v)),
        rat_eq(norm_v(v), v),
{
    let m = if v.n >= 0 {
        v.n
    } else {
        -v.n
    };
    lemma_gcd_bounds(m, v.d);
    lemma_gcd_divides(m, v.d);
    let g = gcd(m, v.d);
    vstd::arithmetic::div_mod::lemma_fundamental_div_mod(m, g);
    vstd::arithmetic::div_mod::lemma_fundamental_div_mod(v.d, g);
    assert(v.d / g >= 1) by (nonlinear_arith)
        requires
            v.d == g * (v.d / g),
            v.d >= 1,
            g >= 1,
    ;
    if v.n >= 0 {
        assert((m / g) * v.d == v.n * (v.d / g)) by (nonlinear_arith)
            requires
                v.n == m,
                m == g * (m / g),
                v.d == g * (v.d / g),
    ;
    } else {
        assert((-(m / g)) * v.d == v.n * (v.d / g)) by (nonlinear_arith)
            requires
                v.n == -m,
                m == g * (m / g),
                v.d == g * (v.d / g),
    ;
    }
}

/// The reduced representation of a value: magnitude of the numerator and
/// the denominator both divided by their greatest common divisor.
pub open spec fn norm_v(v: RatV) -> RatV {
    let m = if v.n >= 0 {
        v.n
    } else {
        -v.n
    };
    let g = gcd(m, v.d);
    if g >= 1 {
        RatV {
            n: if v.n >= 0 {
                m / g
            } else {
                -(m / g)
            },
            d: v.d / g,
        }
    } else {
        v
    }
}

/// Adding a positive value to a non-negative one yields a positive value.
pub proof fn lemma_radd_pos(a: RatV, b: RatV)
    by (nonlinear_arith)
    requires
        wf_v(a),
        wf_v(b),
        rle(rint(0), a),
        rlt(rint(0), b),
    ensures
        rlt(rint(0), radd(a, b)),
        wf_v(radd(a, b)),
{
}

/// Product of two values of `i64::MAX` magnitude stays well within `i128`.
proof fn lemma_mul_bound(a: int, b: int)
    by (nonlinear_arith)
    requires
        -0x7fff_ffff_ffff_ffff <= a <= 0x7fff_ffff_ffff_ffff,
        -0x7fff_ffff_ffff_ffff <= b <= 0x7fff_ffff_ffff_ffff,
    ensures
        -(0x7fff_ffff_ffff_ffff * 0x7fff_ffff_ffff_ffff) <= a * b
            <= 0x7fff_ffff_ffff_ffff * 0x7fff_ffff_ffff_ffff,
{
}

/// A product of positive factors is positive.
proof fn lemma_pos_mul_pos(a: int, b: int)
    by (nonlinear_arith)
    requires
        a > 0,
        b > 0,
    ensures
        a * b > 0,
{
}

/// A positive times a negative is negative.
proof fn lemma_pos_mul_neg(a: int, b: int)
    by (nonlinear_arith)
    requires
        a > 0,
        b < 0,
    ensures
        a * b < 0,
{
}

} // verus!
