//! Inverse-distance weighting over a neighbour set.
//!
//! The evaluator retrieves the neighbour identifiers of the query from its
//! finder and returns the distance-reciprocal-weighted average of their
//! values.  A neighbour closer than the exact-match threshold returns its
//! stored value directly, which keeps the evaluation exact on stored
//! samples and avoids dividing by a vanishing distance.

use crate::interpolate::{ErrV, InterpolationError, Interpolator, Input};
use crate::metric::Metric;
use crate::rat::{
    all_fit, lemma_all_fit_wf, lemma_radd_pos, radd, radd_c, rat_eq, rdiv, rdiv_c, rint, rle, rlt,
    Rat, RatV,
};
use crate::scatter::commons::{input_points, input_values, Commons};
use crate::scatter::knn::KNN;
use vstd::prelude::*;

verus! {

/// The exact-match threshold: a neighbour closer than this is taken as the
/// queried point itself.
pub open spec fn eps_v() -> RatV {
    RatV { n: 1, d: 10_000_000_000 }
}

/// The weighted accumulation over the neighbour identifiers from position
/// `i` on, starting from the running sums `acc_v` (of `value / distance`)
/// and `acc_n` (of `1 / distance`): the first neighbour within the
/// exact-match threshold returns its value; an identifier outside the
/// dataset is an invariant violation; otherwise the final result is
/// `acc_v / acc_n`.
pub open spec fn invdist_fold<Point: Metric>(
    points: Seq<Point>,
    values: Seq<RatV>,
    q: Point,
    ids: Seq<usize>,
    i: int,
    acc_v: RatV,
    acc_n: RatV,
) -> Result<RatV, ErrV>
    decreases ids.len() - i,
{
    if i < 0 || i >= ids.len() {
        match rdiv_c(acc_v, acc_n) {
            Some(v) => Ok(v),
            None => Err(ErrV::Range),
        }
    } else {
        let id = ids[i] as int;
        if id >= points.len() {
            Err(ErrV::BadId)
        } else {
            let d = Point::spec_distance(q, points[id]);
            if rlt(d, eps_v()) {
                Ok(values[id])
            } else {
                match rdiv_c(values[id], d) {
                    None => Err(ErrV::Range),
                    Some(w) => match radd_c(acc_v, w) {
                        None => Err(ErrV::Range),
                        Some(av) => match rdiv_c(rint(1), d) {
                            None => Err(ErrV::Range),
                            Some(iw) => match radd_c(acc_n, iw) {
                                None => Err(ErrV::Range),
                                Some(an) => invdist_fold(points, values, q, ids, i + 1, av, an),
                            },
                        },
                    },
                }
            }
        }
    }
}

/// The exact result of inverse-distance interpolation: an absent finder
/// and an empty neighbour set are configuration errors, surfaced
/// distinctly; otherwise the weighted accumulation over the neighbour
/// identifiers decides.
pub open spec fn invdist_res<Point: Metric>(
    points: Seq<Point>,
    values: Seq<RatV>,
    q: Point,
    finder_ids: Option<Seq<usize>>,
) -> Result<RatV, ErrV> {
    match finder_ids {
        None => Err(ErrV::NoFinder),
        Some(ids) => if ids.len() == 0 {
            Err(ErrV::Empty)
        } else {
            invdist_fold(points, values, q, ids, 0, rint(0), rint(0))
        },
    }
}

/// The inverse-distance evaluator: a scattered dataset queried through a
/// nearest-neighbour finder.
#[verifier::reject_recursive_types(Point)]
#[verifier::reject_recursive_types(Finder)]
pub struct InvDistBase<Point, Finder> where Point: Metric, Finder: KNN<Point = Point> {
    /// The dataset and the finder over it.
    pub commons: Commons<Point, Finder>,
}

impl<Point, Finder> InvDistBase<Point, Finder> where Point: Metric, Finder: KNN<Point = Point> {
    /// The dataset is well-formed.
    pub open spec fn wf(self) -> bool {
        self.commons.wf()
    }

    /// Builds the evaluator over samples; no finder is set yet.
    pub fn new(inputs: Vec<Input<Point>>) -> (r: Self)
        requires
            forall|i: int| 0 <= i < inputs@.len() ==> (#[trigger] inputs@[i].value).wf(),
        ensures
            r.wf(),
            r.commons.spec_points() == input_points(inputs@),
            r.commons.spec_values() == input_values(inputs@),
            r.commons.spec_finder() is None,
    {
        InvDistBase { commons: Commons::new(inputs) }
    }

    /// Configure the nearest-neighbour finder the evaluator queries.
    pub fn set_finder(&mut self, finder: Finder)
        ensures
            final (self).commons.spec_points() == old(self).commons.spec_points(),
            final (self).commons.spec_values() == old(self).commons.spec_values(),
            final (self).commons.spec_finder() == Some(finder),
    {
        self.commons.set_finder(finder)
    }
}

impl<'a, Point, Finder> Interpolator<&'a Point> for InvDistBase<
    Point,
    Finder,
> where Point: Metric, Finder: KNN<Point = Point> {
    open spec fn interpolate_req(&self, query: &'a Point) -> bool {
        &&& self.wf()
        &&& forall|id: int|
            0 <= id < self.commons.spec_points().len() ==> Point::distance_pre(
                *query,
                #[trigger] self.commons.spec_points()[id],
            )
    }

    open spec fn spec_interpolate(&self, query: &'a Point) -> Result<RatV, ErrV> {
        invdist_res(
            self.commons.spec_points(),
            self.commons.spec_values(),
            *query,
            match self.commons.spec_finder() {
                None => None,
                Some(f) => Some(f.spec_neighbors(query)),
            },
        )
    }

    /// Weighted average of the neighbours' values with reciprocal
    /// distances as weights; a neighbour within the exact-match threshold
    /// returns its stored value directly.
    fn interpolate(&self, query: &'a Point) -> (r: Result<Rat, InterpolationError>) {
        let ghost pts = self.commons.spec_points();
        let ghost vals = self.commons.spec_values();
        proof {
            lemma_all_fit_wf(self.commons.values@);
        }
        let finder = match &self.commons.finder {
            Some(f) => f,
            None => {
                return Err(InterpolationError::MissingFinder);
            },
        };
        let nbs = finder.neighbors(query);
        let ghost ids = nbs@;
        if nbs.len() == 0 {
            return Err(InterpolationError::NoNeighbors);
        }
        let eps = Rat::new(1, 10_000_000_000);
        let mut value = Rat::from_int(0);
        let mut norm = Rat::from_int(0);
        let mut i: usize = 0;
        let n = nbs.len();
        while i < n
            invariant
                self.interpolate_req(query),
                pts == self.commons.spec_points(),
                vals == self.commons.spec_values(),
                forall|m: int|
                    0 <= m < self.commons.values@.len() ==> (#[trigger] self.commons.values@[m]).wf()
                        && self.commons.values@[m]@ == vals[m],
                self.commons.spec_finder() == Some(*finder),
                finder.spec_neighbors(query) == ids,
                nbs@ == ids,
                n == ids.len(),
                ids.len() > 0,
                0 <= i <= n,
                eps.wf(),
                eps@ == eps_v(),
                value.wf(),
                norm.wf(),
                rle(rint(0), norm@),
                i > 0 ==> rlt(rint(0), norm@),
                invdist_fold(pts, vals, *query, ids, i as int, value@, norm@) == invdist_fold(
                    pts,
                    vals,
                    *query,
                    ids,
                    0,
                    rint(0),
                    rint(0),
                ),
            decreases n - i,
        {
            let nb_id = nbs[i];
            if nb_id >= self.commons.points.len() {
                return Err(InterpolationError::UnknownIdentifier);
            }
            let dist = Point::distance(query, &self.commons.points[nb_id]);
            let nb_value = self.commons.values[nb_id];
            if dist.lt(&eps) {
                return Ok(nb_value);
            }
            assert(dist@.n > 0) by (nonlinear_arith)
                requires
                    !rlt(dist@, eps_v()),
                    dist@.d >= 1,
            ;
            let w = match nb_value.div(dist) {
                Some(v) => v,
                None => {
                    return Err(InterpolationError::RangeExceeded);
                },
            };
            let value2 = match value.add(w) {
                Some(v) => v,
                None => {
                    return Err(InterpolationError::RangeExceeded);
                },
            };
            let one = Rat::from_int(1);
            let iw = match one.div(dist) {
                Some(v) => v,
                None => {
                    return Err(InterpolationError::RangeExceeded);
                },
            };
            let norm2 = match norm.add(iw) {
                Some(v) => v,
                None => {
                    return Err(InterpolationError::RangeExceeded);
                },
            };
            proof {
                assert(rlt(rint(0), iw@));
                lemma_radd_pos(norm@, iw@);
            }
            value = value2;
            norm = norm2;
            i = i + 1;
        }
        assert(norm@.n > 0);
        match value.div(norm) {
            Some(v) => Ok(v),
            None => Err(InterpolationError::RangeExceeded),
        }
    }
}


/// Exact-match short circuit: when the accumulation succeeds and a
/// neighbour lies within the exact-match threshold, the result is the
/// stored value of the first such neighbour, whatever the other
/// neighbours' values.
pub proof fn lemma_fold_exact_match<Point: Metric>(
    points: Seq<Point>,
    values: Seq<RatV>,
    q: Point,
    ids: Seq<usize>,
    i: int,
    acc_v: RatV,
    acc_n: RatV,
    k: int,
)
    requires
        invdist_fold(points, values, q, ids, i, acc_v, acc_n) is Ok,
        0 <= i <= k < ids.len(),
        (ids[k] as int) < points.len(),
        rlt(Point::spec_distance(q, points[ids[k] as int]), eps_v()),
        forall|j: int|
            i <= j < k ==> !rlt(
                Point::spec_distance(q, points[(#[trigger] ids[j]) as int]),
                eps_v(),
            ),
    ensures
        invdist_fold(points, values, q, ids, i, acc_v, acc_n) == Ok::<RatV, ErrV>(
            values[ids[k] as int],
        ),
    decreases k - i,
{
    if i < k {
        let id = ids[i] as int;
        assert(id < points.len());
        let d = Point::spec_distance(q, points[id]);
        assert(!rlt(d, eps_v()));
        let w = rdiv_c(values[id], d).unwrap();
        let av = radd_c(acc_v, w).unwrap();
        let iw = rdiv_c(rint(1), d).unwrap();
        let an = radd_c(acc_n, iw).unwrap();
        lemma_fold_exact_match(points, values, q, ids, i + 1, av, an, k);
    }
}

/// Exact-match short circuit of the evaluator: a successful evaluation
/// whose neighbour set contains a point within the exact-match threshold
/// returns the stored value of the first such neighbour.
pub proof fn lemma_exact_match<Point: Metric>(
    points: Seq<Point>,
    values: Seq<RatV>,
    q: Point,
    ids: Seq<usize>,
    k: int,
)
    requires
        invdist_res(points, values, q, Some(ids)) is Ok,
        0 <= k < ids.len(),
        (ids[k] as int) < points.len(),
        rlt(Point::spec_distance(q, points[ids[k] as int]), eps_v()),
        forall|j: int|
            0 <= j < k ==> !rlt(
                Point::spec_distance(q, points[(#[trigger] ids[j]) as int]),
                eps_v(),
            ),
    ensures
        invdist_res(points, values, q, Some(ids)) == Ok::<RatV, ErrV>(values[ids[k] as int]),
{
    lemma_fold_exact_match(points, values, q, ids, 0, rint(0), rint(0), k);
}

/// With exactly two neighbours at equal distances, neither within the
/// exact-match threshold, a successful evaluation returns the plain
/// average of the two stored values.
pub proof fn lemma_two_equidistant<Point: Metric>(
    points: Seq<Point>,
    values: Seq<RatV>,
    q: Point,
    ids: Seq<usize>,
)
    requires
        ids.len() == 2,
        (ids[0] as int) < points.len(),
        (ids[1] as int) < points.len(),
        values.len() == points.len(),
        all_fit(values),
        Point::distance_pre(q, points[ids[0] as int]),
        Point::distance_pre(q, points[ids[1] as int]),
        rat_eq(
            Point::spec_distance(q, points[ids[0] as int]),
            Point::spec_distance(q, points[ids[1] as int]),
        ),
        !rlt(Point::spec_distance(q, points[ids[0] as int]), eps_v()),
        !rlt(Point::spec_distance(q, points[ids[1] as int]), eps_v()),
        invdist_res(points, values, q, Some(ids)) is Ok,
    ensures
        rat_eq(
            invdist_res(points, values, q, Some(ids))->Ok_0,
            crate::rat::rhalf(radd(values[ids[0] as int], values[ids[1] as int])),
        ),
{
    let i0 = ids[0] as int;
    let i1 = ids[1] as int;
    let v0 = values[i0];
    let v1 = values[i1];
    let d0 = Point::spec_distance(q, points[i0]);
    let d1 = Point::spec_distance(q, points[i1]);
    Point::lemma_distance_nonneg(q, points[i0]);
    Point::lemma_distance_nonneg(q, points[i1]);
    assert(d0.n > 0) by (nonlinear_arith)
        requires
            !rlt(d0, eps_v()),
            d0.d >= 1,
    ;
    assert(d1.n > 0) by (nonlinear_arith)
        requires
            !rlt(d1, eps_v()),
            d1.d >= 1,
    ;
    assert(invdist_fold(points, values, q, ids, 0, rint(0), rint(0)) is Ok);
    assert(rdiv_c(v0, d0) is Some);
    let w0 = rdiv_c(v0, d0).unwrap();
    let av1 = radd_c(rint(0), w0).unwrap();
    let iw0 = rdiv_c(rint(1), d0).unwrap();
    let an1 = radd_c(rint(0), iw0).unwrap();
    assert(invdist_fold(points, values, q, ids, 0, rint(0), rint(0)) == invdist_fold(
        points,
        values,
        q,
        ids,
        1,
        av1,
        an1,
    ));
    assert(av1 == w0 && an1 == iw0);
    assert(rdiv_c(v1, d1) is Some);
    let w1 = rdiv_c(v1, d1).unwrap();
    let av2 = radd_c(av1, w1).unwrap();
    let iw1 = rdiv_c(rint(1), d1).unwrap();
    let an2 = radd_c(an1, iw1).unwrap();
    assert(invdist_fold(points, values, q, ids, 1, av1, an1) == invdist_fold(
        points,
        values,
        q,
        ids,
        2,
        av2,
        an2,
    ));
    let r = invdist_res(points, values, q, Some(ids))->Ok_0;
    assert(invdist_fold(points, values, q, ids, 2, av2, an2) == Ok::<RatV, ErrV>(
        rdiv(av2, an2),
    ));
    assert(r == rdiv(av2, an2));
    let e = d0.d * d1.n;
    assert(e == d1.d * d0.n) by (nonlinear_arith)
        requires
            e == d0.d * d1.n,
            d0.n * d1.d == d1.n * d0.d,
    ;
    let sn = v0.n * v1.d + v1.n * v0.d;
    assert(av2.n == (v0.n * d0.d) * (v1.d * d1.n) + (v1.n * d1.d) * (v0.d * d0.n));
    assert((v0.n * d0.d) * (v1.d * d1.n) == (v0.n * v1.d) * e) by (nonlinear_arith)
        requires
            e == d0.d * d1.n,
    ;
    assert((v1.n * d1.d) * (v0.d * d0.n) == (v1.n * v0.d) * e) by (nonlinear_arith)
        requires
            e == d1.d * d0.n,
    ;
    assert((v0.n * v1.d) * e + (v1.n * v0.d) * e == sn * e) by (nonlinear_arith)
        requires
            sn == v0.n * v1.d + v1.n * v0.d,
    ;
    assert(av2.n == sn * e);
    assert(an2.n == (1 * d0.d) * (1 * d1.n) + (1 * d1.d) * (1 * d0.n));
    assert(an2.n == 2 * e) by (nonlinear_arith)
        requires
            an2.n == (1 * d0.d) * (1 * d1.n) + (1 * d1.d) * (1 * d0.n),
            e == d0.d * d1.n,
            e == d1.d * d0.n,
    ;
    assert(an2.n > 0) by (nonlinear_arith)
        requires
            an2.n == 2 * e,
            e == d0.d * d1.n,
            d0.d > 0,
            d1.n > 0,
    ;
    assert(av2.d == (1 * (v0.d * d0.n)) * (1 * (v1.d * d1.n)));
    assert(an2.d == (1 * d0.n) * (1 * d1.n));
    assert(r.n == av2.n * an2.d && r.d == av2.d * an2.n);
    let target = crate::rat::rhalf(radd(v0, v1));
    assert(target.n == v0.n * v1.d + v1.n * v0.d);
    assert(target.d == 2 * (v0.d * v1.d));
    assert(r.n * target.d == target.n * r.d) by (nonlinear_arith)
        requires
            r.n == (sn * e) * ((1 * d0.n) * (1 * d1.n)),
            r.d == ((1 * (v0.d * d0.n)) * (1 * (v1.d * d1.n))) * (2 * e),
            target.n == sn,
            target.d == 2 * (v0.d * v1.d),
    ;
}

} // verus!
