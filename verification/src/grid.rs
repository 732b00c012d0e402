//! Interpolation support for gridded base points.
//!
//! A [`Grid`] pairs a list of sorted coordinate axes with the sample values
//! of the function on the grid those axes span.  This module provides the
//! index search that brackets a query coordinate on each axis, and the
//! finite-difference slope estimates used by the cubic Hermite evaluator.

use crate::interpolate::InterpolationError;
use crate::rat::{
    all_fit, fits, lemma_all_fit_wf, lemma_rlt_rle_trans, lemma_rlt_trans, lemma_rsub_pos,
    opt_v, radd_c, rdiv_c, rhalf_c, rle, rlt, rsub_c, seq_v, wf_v, Rat, RatV,
};
use vstd::prelude::*;

pub mod cubic;

verus! {

/// A sorted coordinate axis: at least two points, every point representable,
/// strictly increasing.
pub open spec fn axis_wf(ax: Seq<RatV>) -> bool {
    &&& ax.len() >= 2
    &&& all_fit(ax)
    &&& forall|i: int, j: int| 0 <= i < j < ax.len() ==> rlt(#[trigger] ax[i], #[trigger] ax[j])
}

/// The query lies in the sampled range of the axis: at or above the first
/// point and strictly below the last.  A query equal to the last point
/// counts as extrapolation, matching the `<` semantics of the bracket.
pub open spec fn in_range(ax: Seq<RatV>, q: RatV) -> bool {
    rle(ax[0], q) && rlt(q, ax[ax.len() - 1])
}

/// The largest index at or below `i` whose axis point is at or below `q`,
/// scanning downwards.
pub open spec fn bracket_from(ax: Seq<RatV>, q: RatV, i: int) -> int
    decreases i,
{
    if i <= 0 {
        0
    } else if rle(ax[i], q) {
        i
    } else {
        bracket_from(ax, q, i - 1)
    }
}

/// The bracket of an in-range query on an axis: the largest index `i` such
/// that `ax[i] <= q`, which then satisfies `ax[i] <= q < ax[i + 1]`.
pub open spec fn bracket(ax: Seq<RatV>, q: RatV) -> int {
    bracket_from(ax, q, ax.len() - 2)
}

proof fn lemma_bracket_from(ax: Seq<RatV>, q: RatV, i: int)
    requires
        axis_wf(ax),
        wf_v(q),
        rle(ax[0], q),
        0 <= i <= ax.len() - 2,
        rlt(q, ax[i + 1]),
    ensures
        0 <= bracket_from(ax, q, i) <= i,
        rle(ax[bracket_from(ax, q, i)], q),
        rlt(q, ax[bracket_from(ax, q, i) + 1]),
    decreases i,
{
    if i <= 0 {
    } else if rle(ax[i], q) {
    } else {
        lemma_bracket_from(ax, q, i - 1);
    }
}

/// The bracket of an in-range query exists: it lies between the first and
/// the last axis interval and the query sits inside it.
pub proof fn lemma_bracket_props(ax: Seq<RatV>, q: RatV)
    requires
        axis_wf(ax),
        wf_v(q),
        in_range(ax, q),
    ensures
        0 <= bracket(ax, q) <= ax.len() - 2,
        rle(ax[bracket(ax, q)], q),
        rlt(q, ax[bracket(ax, q) + 1]),
{
    lemma_bracket_from(ax, q, ax.len() - 2);
}

/// The bracket of an in-range query is unique: any index whose interval
/// contains the query is the bracket.  Together with [`lemma_bracket_props`]
/// this makes the index search exhaustive: every interior query is bracketed
/// by exactly one interval.
pub proof fn lemma_bracket_unique(ax: Seq<RatV>, q: RatV, i: int)
    requires
        axis_wf(ax),
        wf_v(q),
        in_range(ax, q),
        0 <= i <= ax.len() - 2,
        rle(ax[i], q),
        rlt(q, ax[i + 1]),
    ensures
        i == bracket(ax, q),
{
    lemma_bracket_props(ax, q);
    let b = bracket(ax, q);
    if b < i {
        // ax[b + 1] <= ax[i] <= q contradicts q < ax[b + 1]
        if b + 1 < i {
            lemma_rlt_rle_trans(ax[b + 1], ax[i], q);
        }
        lemma_rlt_trans(q, ax[b + 1], q);
    } else if i < b {
        if i + 1 < b {
            lemma_rlt_rle_trans(ax[i + 1], ax[b], q);
        }
        lemma_rlt_trans(q, ax[i + 1], q);
    }
}

/// The first axis (in axis order) whose query coordinate is out of range,
/// scanning from axis `a`; the number of axes when every one is in range.
pub open spec fn first_out_from(xg: Seq<Seq<RatV>>, qs: Seq<RatV>, a: int) -> int
    decreases xg.len() - a,
{
    if a < 0 || a >= xg.len() {
        xg.len() as int
    } else if !in_range(xg[a], qs[a]) {
        a
    } else {
        first_out_from(xg, qs, a + 1)
    }
}

/// The first axis whose query coordinate is out of range; it determines
/// which extrapolation error the index search raises.
pub open spec fn first_out(xg: Seq<Seq<RatV>>, qs: Seq<RatV>) -> int {
    first_out_from(xg, qs, 0)
}

proof fn lemma_first_out_from(xg: Seq<Seq<RatV>>, qs: Seq<RatV>, a: int, o: int)
    requires
        0 <= a <= o <= xg.len(),
        forall|b: int| a <= b < o ==> in_range(#[trigger] xg[b], qs[b]),
        o < xg.len() ==> !in_range(xg[o], qs[o]),
    ensures
        first_out_from(xg, qs, a) == o,
    decreases o - a,
{
    if a < o {
        lemma_first_out_from(xg, qs, a + 1, o);
    }
}

/// Entry `b` of the index list brackets the query on axis `b`: the query
/// sits between the indexed axis point and the next one.
pub open spec fn bracketed(xg: Seq<Seq<RatV>>, qs: Seq<RatV>, ids: Seq<usize>, b: int) -> bool {
    &&& (ids[b] as int) + 1 < xg[b].len()
    &&& ids[b] as int == bracket(xg[b], qs[b])
    &&& rle(xg[b][ids[b] as int], qs[b])
    &&& rlt(qs[b], xg[b][ids[b] as int + 1])
}

/// The value sequences of the axes of a grid.
pub open spec fn axes_v(xg: Seq<Vec<Rat>>) -> Seq<Seq<RatV>> {
    Seq::new(xg.len(), |a: int| seq_v(xg[a]@))
}

/// The number of samples a list of axes spans, counting from axis `a`:
/// the product of the axis lengths.
pub open spec fn span_from(xg: Seq<Seq<RatV>>, a: int) -> int
    decreases xg.len() - a,
{
    if a < 0 || a >= xg.len() {
        1
    } else {
        xg[a].len() * span_from(xg, a + 1)
    }
}

/// A grid is made of two components: a list of sorted one-dimensional axes
/// for the input points, and the flattened (row-major) list of sample
/// values on the grid the axes span.
#[derive(Debug)]
pub struct Grid {
    /// Arrays with the input coordinates, one per dimension.
    pub xgrid: Vec<Vec<Rat>>,
    /// Sample values at every grid point, flattened in row-major order:
    /// the index along the last axis varies fastest.
    pub values: Vec<Rat>,
}

impl Grid {
    /// Every axis is sorted with at least two points, and the value list
    /// covers the grid exactly.
    pub open spec fn wf(self) -> bool {
        &&& self.xgrid@.len() >= 1
        &&& forall|a: int|
            0 <= a < self.xgrid@.len() ==> axis_wf(#[trigger] axes_v(self.xgrid@)[a])
        &&& self.values@.len() == span_from(axes_v(self.xgrid@), 0)
        &&& all_fit(seq_v(self.values@))
    }

    /// The number of dimensions.
    pub open spec fn dims(self) -> int {
        self.xgrid@.len() as int
    }

    /// Find, for every axis, the index of the last axis point at or below
    /// the query coordinate.  If any coordinate is outside its axis the
    /// first out-of-range axis (axis 0 first) determines the extrapolation
    /// error, which carries the offending query coordinate unchanged.
    pub fn closest_below(&self, input_query: &Vec<Rat>) -> (r: Result<
        Vec<usize>,
        InterpolationError,
    >)
        requires
            self.wf(),
            input_query@.len() == self.dims(),
            all_fit(seq_v(input_query@)),
        ensures
            ({
                let xg = axes_v(self.xgrid@);
                let qs = seq_v(input_query@);
                let fo = first_out(xg, qs);
                match r {
                    Ok(ids) => {
                        &&& fo == xg.len()
                        &&& ids@.len() == xg.len()
                        &&& forall|a: int| 0 <= a < xg.len() ==> #[trigger] bracketed(xg, qs, ids@, a)
                    },
                    Err(InterpolationError::ExtrapolationAbove(v)) => {
                        &&& fo < xg.len()
                        &&& rle(xg[fo][xg[fo].len() - 1], qs[fo])
                        &&& v == input_query@[fo]
                    },
                    Err(InterpolationError::ExtrapolationBelow(v)) => {
                        &&& fo < xg.len()
                        &&& rlt(qs[fo], xg[fo][0])
                        &&& v == input_query@[fo]
                    },
                    _ => false,
                }
            }),
    {
        let ghost xg = axes_v(self.xgrid@);
        let ghost qs = seq_v(input_query@);
        let mut ret: Vec<usize> = Vec::new();
        let mut a: usize = 0;
        while a < self.xgrid.len()
            invariant
                self.wf(),
                input_query@.len() == self.dims(),
                all_fit(seq_v(input_query@)),
                xg == axes_v(self.xgrid@),
                qs == seq_v(input_query@),
                0 <= a <= self.xgrid@.len(),
                ret@.len() == a,
                forall|b: int| 0 <= b < a ==> in_range(#[trigger] xg[b], qs[b]),
                forall|b: int| 0 <= b < a ==> #[trigger] bracketed(xg, qs, ret@, b),
            decreases self.xgrid@.len() - a,
        {
            let igrid: &Vec<Rat> = &self.xgrid[a];
            let query: Rat = input_query[a];
            assert(seq_v(igrid@) == xg[a as int]);
            assert(query@ == qs[a as int]);
            assert(query.wf()) by {
                assert(fits(qs[a as int]));
            }
            proof {
                lemma_all_fit_wf(igrid@);
            }
            if !query.lt(&igrid[igrid.len() - 1]) {
                proof {
                    lemma_first_out_from(xg, qs, 0, a as int);
                }
                return Err(InterpolationError::ExtrapolationAbove(query));
            }
            if query.lt(&igrid[0]) {
                proof {
                    lemma_first_out_from(xg, qs, 0, a as int);
                }
                return Err(InterpolationError::ExtrapolationBelow(query));
            }
            let idx = bracket_search(igrid, &query);
            let ghost pre = ret@;
            ret.push(idx);
            proof {
                assert forall|b: int| 0 <= b < a + 1 implies #[trigger] bracketed(
                    xg,
                    qs,
                    ret@,
                    b,
                ) by {
                    if b < a {
                        assert(bracketed(xg, qs, pre, b));
                        assert(ret@[b] == pre[b]);
                    } else {
                        assert(ret@[b] == idx);
                        assert(xg[b] == seq_v(igrid@));
                    }
                }
            }
            a = a + 1;
        }
        proof {
            lemma_first_out_from(xg, qs, 0, xg.len() as int);
        }
        Ok(ret)
    }
}

/// Binary search for the bracket of an in-range query on a sorted axis.
fn bracket_search(ax: &Vec<Rat>, query: &Rat) -> (r: usize)
    requires
        axis_wf(seq_v(ax@)),
        query.wf(),
        in_range(seq_v(ax@), query@),
    ensures
        r as int == bracket(seq_v(ax@), query@),
        r as int + 1 < ax@.len(),
        rle(seq_v(ax@)[r as int], query@),
        rlt(query@, seq_v(ax@)[r as int + 1]),
{
    let ghost axv = seq_v(ax@);
    let mut lo: usize = 0;
    let mut hi: usize = ax.len() - 1;
    while hi - lo > 1
        invariant
            axis_wf(axv),
            axv == seq_v(ax@),
            query.wf(),
            0 <= lo < hi < ax@.len(),
            rle(axv[lo as int], query@),
            rlt(query@, axv[hi as int]),
        decreases hi - lo,
    {
        let mid = lo + (hi - lo) / 2;
        proof {
            lemma_all_fit_wf(ax@);
        }
        if ax[mid].le(query) {
            lo = mid;
        } else {
            hi = mid;
        }
    }
    proof {
        lemma_bracket_unique(axv, query@, lo as int);
    }
    lo
}

/// A grid slice is always one-dimensional: the coordinates of one axis
/// paired with the sample values along that axis, all other indices fixed,
/// such that `f(x) = y`.
pub struct GridSlice<'a> {
    /// One of the coordinate axes of a grid.
    pub x: &'a Vec<Rat>,
    /// The sample values along that axis.
    pub y: &'a Vec<Rat>,
}

/// The checked forward-difference slope at `i`: the exact value of
/// `(y[i] - y[i-1]) / (x[i] - x[i-1])`, or `None` where an intermediate
/// value does not fit.
pub open spec fn fwd_slope_c(x: Seq<RatV>, y: Seq<RatV>, i: int) -> Option<RatV> {
    match rsub_c(x[i], x[i - 1]) {
        None => None,
        Some(dx) => match rsub_c(y[i], y[i - 1]) {
            None => None,
            Some(dy) => rdiv_c(dy, dx),
        },
    }
}

/// The checked central slope at `i`: the exact value of
/// `((y'(i+1) + y'(i)) / 2` over the forward-difference slopes, or `None`
/// where an intermediate value does not fit.
pub open spec fn central_slope_c(x: Seq<RatV>, y: Seq<RatV>, i: int) -> Option<RatV> {
    match fwd_slope_c(x, y, i + 1) {
        None => None,
        Some(f) => match fwd_slope_c(x, y, i) {
            None => None,
            Some(b) => match radd_c(f, b) {
                None => None,
                Some(s) => rhalf_c(s),
            },
        },
    }
}

impl<'a> GridSlice<'a> {
    /// The axis is sorted and the values run parallel to it.
    pub open spec fn wf(self) -> bool {
        &&& axis_wf(seq_v(self.x@))
        &&& self.y@.len() == self.x@.len()
        &&& all_fit(seq_v(self.y@))
    }

    /// Computes the numerical derivative of the values with respect to the
    /// input at position `index` as the ratio of the backward differences
    /// `dy = y[i] - y[i-1]` and `dx = x[i] - x[i-1]`.
    pub fn derivative_at(&self, index: usize) -> (r: Option<Rat>)
        requires
            self.wf(),
            1 <= index < self.x@.len(),
        ensures
            opt_v(r) == fwd_slope_c(seq_v(self.x@), seq_v(self.y@), index as int),
            r matches Some(v) ==> v.wf(),
    {
        proof {
            lemma_all_fit_wf(self.x@);
            lemma_all_fit_wf(self.y@);
            lemma_rsub_pos(seq_v(self.x@)[index - 1], seq_v(self.x@)[index as int]);
        }
        let dx = match self.x[index].sub(self.x[index - 1]) {
            Some(v) => v,
            None => {
                return None;
            },
        };
        let dy = match self.y[index].sub(self.y[index - 1]) {
            Some(v) => v,
            None => {
                return None;
            },
        };
        dy.div(dx)
    }

    /// Computes the numerical derivative at position `index` as the average
    /// of the forward and backward difference slopes.
    pub fn central_derivative_at(&self, index: usize) -> (r: Option<Rat>)
        requires
            self.wf(),
            1 <= index,
            index + 1 < self.x@.len(),
        ensures
            opt_v(r) == central_slope_c(seq_v(self.x@), seq_v(self.y@), index as int),
            r matches Some(v) ==> v.wf(),
    {
        let n = self.x.len();
        let dy_f = match self.derivative_at(index + 1) {
            Some(v) => v,
            None => {
                return None;
            },
        };
        let dy_b = match self.derivative_at(index) {
            Some(v) => v,
            None => {
                return None;
            },
        };
        let s = match dy_f.add(dy_b) {
            Some(v) => v,
            None => {
                return None;
            },
        };
        s.half()
    }
}

} // verus!
