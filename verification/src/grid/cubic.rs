//! Cubic Hermite interpolation on gridded base points.
//!
//! Given a bracket `[x_i, x_{i+1}]` with values `y_i, y_{i+1}` and
//! boundary-adjusted slopes `m_i, m_{i+1}` (already scaled by the bracket
//! width `dx`), and the normalized position `t = (q - x_i) / dx`, the
//! one-dimensional kernel evaluates
//!
//! ```text
//! y(t) = h00(t)*y_i + h10(t)*m_i + h01(t)*y_{i+1} + h11(t)*m_{i+1}
//! ```
//!
//! with `h00, h10, h01, h11` the Hermite basis polynomials.  In two
//! dimensions the evaluation reduces recursively along the last axis: the
//! kernel runs on four values interpolated along the first axis.

use crate::grid::{
    axes_v, axis_wf, bracket, bracketed, central_slope_c, first_out, first_out_from, fwd_slope_c,
    in_range, lemma_bracket_props, lemma_bracket_unique, span_from, Grid, GridSlice,
};
use crate::interpolate::{res_v, ErrV, InterpolationError, Interpolator};
use crate::rat::{
    all_fit, fits, lemma_add_sub_shuffle, lemma_all_fit_wf, lemma_half_avg, lemma_mul_div_cancel,
    lemma_norm_v_eq, lemma_ops_wf, lemma_radd_assoc, lemma_radd_cong, lemma_radd_cong2,
    lemma_radd_zero, lemma_rat_eq_sym, lemma_rat_eq_trans, lemma_rdiv_of_mul, lemma_rlt_trans,
    lemma_rmul_comm, lemma_rmul_cong, lemma_rmul_cong2, lemma_rmul_diag, lemma_rmul_distrib,
    lemma_rmul_distrib_sub, lemma_rsub_cong, lemma_rsub_cong2, lemma_rsub_pos,
    lemma_sub_same_addend, norm_v, opt_v, radd, radd_c, rat_eq, rdiv, rdiv_c, rhalf_c, rint, rle,
    rlt, rmul, rmul_c, rneg, rsub, rsub_c, seq_v, wf_v, Rat, RatV,
};
use vstd::prelude::*;

verus! {

/// `t * t`.
pub open spec fn t2v(t: RatV) -> RatV {
    rmul(t, t)
}

/// `t * t * t`.
pub open spec fn t3v(t: RatV) -> RatV {
    rmul(t2v(t), t)
}

/// The Hermite basis polynomial `h00(t) = 2t^3 - 3t^2 + 1`.
pub open spec fn h00v(t: RatV) -> RatV {
    radd(rsub(rmul(rint(2), t3v(t)), rmul(rint(3), t2v(t))), rint(1))
}

/// The Hermite basis polynomial `h01(t) = -2t^3 + 3t^2`.
pub open spec fn h01v(t: RatV) -> RatV {
    radd(rneg(rmul(rint(2), t3v(t))), rmul(rint(3), t2v(t)))
}

/// The Hermite basis polynomial `h10(t) = t^3 - 2t^2 + t`.
pub open spec fn h10v(t: RatV) -> RatV {
    radd(rsub(t3v(t), rmul(rint(2), t2v(t))), t)
}

/// The Hermite basis polynomial `h11(t) = t^3 - t^2`.
pub open spec fn h11v(t: RatV) -> RatV {
    rsub(t3v(t), t2v(t))
}

/// The exact value of the cubic Hermite kernel:
/// `yl*h00(t) + yu*h01(t) + ml*h10(t) + mu*h11(t)`, summed in the order the
/// evaluator uses.
pub open spec fn hermite(t: RatV, yl: RatV, yu: RatV, ml: RatV, mu: RatV) -> RatV {
    radd(
        radd(radd(rmul(yl, h00v(t)), rmul(yu, h01v(t))), rmul(ml, h10v(t))),
        rmul(mu, h11v(t)),
    )
}

/// Every intermediate value of the kernel evaluation fits the machine
/// range; exactly then the kernel produces a value.
pub open spec fn hermite_fits(t: RatV, yl: RatV, yu: RatV, ml: RatV, mu: RatV) -> bool {
    &&& fits(t2v(t))
    &&& fits(t3v(t))
    &&& fits(rmul(rint(2), t3v(t)))
    &&& fits(rmul(rint(3), t2v(t)))
    &&& fits(rsub(rmul(rint(2), t3v(t)), rmul(rint(3), t2v(t))))
    &&& fits(h00v(t))
    &&& fits(rmul(yl, h00v(t)))
    &&& fits(h01v(t))
    &&& fits(rmul(yu, h01v(t)))
    &&& fits(rmul(rint(2), t2v(t)))
    &&& fits(rsub(t3v(t), rmul(rint(2), t2v(t))))
    &&& fits(h10v(t))
    &&& fits(rmul(ml, h10v(t)))
    &&& fits(h11v(t))
    &&& fits(rmul(mu, h11v(t)))
    &&& fits(radd(rmul(yl, h00v(t)), rmul(yu, h01v(t))))
    &&& fits(radd(radd(rmul(yl, h00v(t)), rmul(yu, h01v(t))), rmul(ml, h10v(t))))
    &&& fits(hermite(t, yl, yu, ml, mu))
}

/// One-dimensional cubic Hermite interpolation: combines the bracket's end
/// values `yl, yu` and their width-scaled slopes `dydxl, dydxu` at the
/// normalized position `t`.
fn cubic_interpolation_1d(t: Rat, yl: Rat, yu: Rat, dydxl: Rat, dydxu: Rat) -> (r: Option<Rat>)
    requires
        t.wf(),
        yl.wf(),
        yu.wf(),
        dydxl.wf(),
        dydxu.wf(),
    ensures
        r is Some <==> hermite_fits(t@, yl@, yu@, dydxl@, dydxu@),
        r matches Some(v) ==> v.wf() && v@ == hermite(t@, yl@, yu@, dydxl@, dydxu@),
{
    let two = Rat::from_int(2);
    let three = Rat::from_int(3);
    let one = Rat::from_int(1);

    let t2 = match t.mul(t) {
        Some(v) => v,
        None => {
            return None;
        },
    };
    let t3 = match t2.mul(t) {
        Some(v) => v,
        None => {
            return None;
        },
    };

    let a1 = match two.mul(t3) {
        Some(v) => v,
        None => {
            return None;
        },
    };
    let a2 = match three.mul(t2) {
        Some(v) => v,
        None => {
            return None;
        },
    };
    let a3 = match a1.sub(a2) {
        Some(v) => v,
        None => {
            return None;
        },
    };
    let h00 = match a3.add(one) {
        Some(v) => v,
        None => {
            return None;
        },
    };
    let p0 = match yl.mul(h00) {
        Some(v) => v,
        None => {
            return None;
        },
    };

    let h01 = match a1.neg().add(a2) {
        Some(v) => v,
        None => {
            return None;
        },
    };
    let p1 = match yu.mul(h01) {
        Some(v) => v,
        None => {
            return None;
        },
    };

    let c1 = match two.mul(t2) {
        Some(v) => v,
        None => {
            return None;
        },
    };
    let c2 = match t3.sub(c1) {
        Some(v) => v,
        None => {
            return None;
        },
    };
    let h10 = match c2.add(t) {
        Some(v) => v,
        None => {
            return None;
        },
    };
    let m0 = match dydxl.mul(h10) {
        Some(v) => v,
        None => {
            return None;
        },
    };

    let h11 = match t3.sub(t2) {
        Some(v) => v,
        None => {
            return None;
        },
    };
    let m1 = match dydxu.mul(h11) {
        Some(v) => v,
        None => {
            return None;
        },
    };

    let s1 = match p0.add(p1) {
        Some(v) => v,
        None => {
            return None;
        },
    };
    let s2 = match s1.add(m0) {
        Some(v) => v,
        None => {
            return None;
        },
    };
    s2.add(m1)
}

/// The checked one-dimensional cubic interpolation over a slice: the exact
/// result of interpolating `q` inside the bracket at `idx`, or `None` where
/// an intermediate value does not fit the machine range.
pub open spec fn cubic1_c(x: Seq<RatV>, y: Seq<RatV>, q: RatV, idx: int) -> Option<RatV> {
    match rsub_c(x[idx + 1], x[idx]) {
        None => None,
        Some(dx) => {
            let ou = if idx == x.len() - 2 {
                fwd_slope_c(x, y, idx + 1)
            } else {
                central_slope_c(x, y, idx + 1)
            };
            match ou {
                None => None,
                Some(su) => match rmul_c(dx, su) {
                    None => None,
                    Some(dydxu) => {
                        let ol = if idx == 0 {
                            fwd_slope_c(x, y, idx + 1)
                        } else {
                            central_slope_c(x, y, idx)
                        };
                        match ol {
                            None => None,
                            Some(sl) => match rmul_c(dx, sl) {
                                None => None,
                                Some(dydxl) => match rsub_c(q, x[idx]) {
                                    None => None,
                                    Some(qd) => match rdiv_c(qd, dx) {
                                        None => None,
                                        Some(t) => if hermite_fits(
                                            t,
                                            y[idx],
                                            y[idx + 1],
                                            dydxl,
                                            dydxu,
                                        ) {
                                            Some(hermite(t, y[idx], y[idx + 1], dydxl, dydxu))
                                        } else {
                                            None
                                        },
                                    },
                                },
                            },
                        }
                    },
                },
            }
        },
    }
}

impl<'a> GridSlice<'a> {
    /// Perform one-dimensional cubic interpolation of the query inside the
    /// bracket at `idx`.  The slopes at the bracket ends are the central
    /// estimates, except at the first and last bracket, where the estimate
    /// falls back to the one-sided forward slope of the bracket itself.
    pub fn cubic_interpolate_1d(&self, query: Rat, idx: usize) -> (r: Option<Rat>)
        requires
            self.wf(),
            query.wf(),
            idx + 1 < self.x@.len(),
        ensures
            opt_v(r) == cubic1_c(seq_v(self.x@), seq_v(self.y@), query@, idx as int),
            r matches Some(v) ==> v.wf(),
    {
        let ghost xv = seq_v(self.x@);
        let ghost yv = seq_v(self.y@);
        proof {
            lemma_all_fit_wf(self.x@);
            lemma_all_fit_wf(self.y@);
            lemma_rsub_pos(xv[idx as int], xv[idx as int + 1]);
        }
        let n = self.x.len();
        let dx = match self.x[idx + 1].sub(self.x[idx]) {
            Some(v) => v,
            None => {
                return None;
            },
        };

        let yu = self.y[idx + 1];
        let yl = self.y[idx];

        let su = if idx == n - 2 {
            self.derivative_at(idx + 1)
        } else {
            self.central_derivative_at(idx + 1)
        };
        let su = match su {
            Some(v) => v,
            None => {
                return None;
            },
        };
        let dydxu = match dx.mul(su) {
            Some(v) => v,
            None => {
                return None;
            },
        };

        let sl = if idx == 0 {
            self.derivative_at(idx + 1)
        } else {
            self.central_derivative_at(idx)
        };
        let sl = match sl {
            Some(v) => v,
            None => {
                return None;
            },
        };
        let dydxl = match dx.mul(sl) {
            Some(v) => v,
            None => {
                return None;
            },
        };

        let qd = match query.sub(self.x[idx]) {
            Some(v) => v,
            None => {
                return None;
            },
        };
        let t = match qd.div(dx) {
            Some(v) => v,
            None => {
                return None;
            },
        };

        cubic_interpolation_1d(t, yl, yu, dydxl, dydxu)
    }
}

/// Cubic interpolation over a `D`-dimensional grid.
#[derive(Debug)]
pub struct Cubic<const D: usize> {
    /// The grid object contains all necessary information to perform the
    /// interpolation.
    pub grid: Grid,
}

impl<const D: usize> Cubic<D> {
    /// The wrapped grid is well-formed and has exactly `D` dimensions.
    pub open spec fn wf(self) -> bool {
        self.grid.wf() && self.grid.dims() == D
    }
}

/// The exact result of one-dimensional grid interpolation: the query is
/// checked against the axis range, then interpolated inside its bracket.
pub open spec fn grid1_res(g: Grid, q: RatV) -> Result<RatV, ErrV> {
    let ax = axes_v(g.xgrid@)[0];
    let ys = seq_v(g.values@);
    if !rlt(q, ax[ax.len() - 1]) {
        Err(ErrV::Above(q))
    } else if rlt(q, ax[0]) {
        Err(ErrV::Below(q))
    } else {
        match cubic1_c(ax, ys, q, bracket(ax, q)) {
            Some(v) => Ok(v),
            None => Err(ErrV::Range),
        }
    }
}

impl Interpolator<Rat> for Cubic<1> {
    open spec fn interpolate_req(&self, query: Rat) -> bool {
        self.wf() && fits(query@)
    }

    open spec fn spec_interpolate(&self, query: Rat) -> Result<RatV, ErrV> {
        grid1_res(self.grid, query@)
    }

    /// Use cubic interpolation to compute `y(query)` from the two nearest
    /// nodes and their derivatives, computed as the average of the
    /// differences above and below; between the first (last) two nodes the
    /// derivative at the boundary is the forward (backward) difference.
    fn interpolate(&self, query: Rat) -> (r: Result<Rat, InterpolationError>) {
        let ghost xgg = axes_v(self.grid.xgrid@);
        let ghost ax = xgg[0];
        let ghost ys = seq_v(self.grid.values@);
        let mut qv: Vec<Rat> = Vec::new();
        qv.push(query);
        assert(seq_v(qv@) =~= seq![query@]);
        let ghost qss = seq_v(qv@);
        proof {
            assert(axis_wf(ax));
            assert(fits(ax[0]) && fits(ax[ax.len() - 1]));
            assert(rlt(ax[0], ax[ax.len() - 1]));
            assert(first_out_from(xgg, qss, 1) == 1);
        }
        match self.grid.closest_below(&qv) {
            Ok(raw_idx) => {
                let idx = raw_idx[0];
                assert(bracketed(xgg, qss, raw_idx@, 0));
                assert(in_range(ax, query@));
                let grid_sl = GridSlice { x: &self.grid.xgrid[0], y: &self.grid.values };
                assert(grid_sl.wf()) by {
                    assert(xgg[0] == seq_v(grid_sl.x@));
                    assert(span_from(xgg, 1) == 1);
                }
                match grid_sl.cubic_interpolate_1d(query, idx) {
                    Some(v) => Ok(v),
                    None => Err(InterpolationError::RangeExceeded),
                }
            },
            Err(e) => {
                proof {
                    if rlt(query@, ax[0]) {
                        lemma_rlt_trans(query@, ax[0], ax[ax.len() - 1]);
                    }
                }
                Err(e)
            },
        }
    }
}


/// The one-dimensional projection of the row-major value list along the
/// first axis, with the second axis fixed at `j`: entry `k` is the sample
/// at grid point `(k, j)`.
pub open spec fn col(ys: Seq<RatV>, n1: int, n2: int, j: int) -> Seq<RatV> {
    Seq::new(n1 as nat, |k: int| ys[k * n2 + j])
}

/// A row-major index lies inside the flattened value list.
proof fn lemma_rowmajor(k: int, j: int, n1: int, n2: int)
    by (nonlinear_arith)
    requires
        0 <= k < n1,
        0 <= j < n2,
    ensures
        0 <= k * n2 + j < n1 * n2,
{
}

/// The checked two-dimensional cubic interpolation: the query is first
/// interpolated along the first axis on the four second-axis nodes around
/// its bracket, then the kernel runs along the second axis on those four
/// values (kept in lowest terms), with central slopes derived from them.
/// `None` where an intermediate value does not fit the machine range.
pub open spec fn cubic2_c(
    ax1: Seq<RatV>,
    ax2: Seq<RatV>,
    ys: Seq<RatV>,
    q1: RatV,
    q2: RatV,
) -> Option<RatV> {
    let i1 = bracket(ax1, q1);
    let i2 = bracket(ax2, q2);
    let n1 = ax1.len() as int;
    let n2 = ax2.len() as int;
    match cubic1_c(ax1, col(ys, n1, n2, i2 - 1), q1, i1) {
        None => None,
        Some(w0) => match cubic1_c(ax1, col(ys, n1, n2, i2), q1, i1) {
            None => None,
            Some(w1) => match cubic1_c(ax1, col(ys, n1, n2, i2 + 1), q1, i1) {
                None => None,
                Some(w2) => match cubic1_c(ax1, col(ys, n1, n2, i2 + 2), q1, i1) {
                    None => None,
                    Some(w3) => {
                        let v0 = norm_v(w0);
                        let v1 = norm_v(w1);
                        let v2 = norm_v(w2);
                        let v3 = norm_v(w3);
                        match rsub_c(ax2[i2], ax2[i2 - 1]) {
                        None => None,
                        Some(dx20) => match rsub_c(ax2[i2 + 1], ax2[i2]) {
                            None => None,
                            Some(dx21) => match rsub_c(ax2[i2 + 2], ax2[i2 + 1]) {
                                None => None,
                                Some(dx22) => match rsub_c(v2, v1) {
                                    None => None,
                                    Some(d21) => match rsub_c(v1, v0) {
                                        None => None,
                                        Some(d10) => match rmul_c(d10, dx21) {
                                            None => None,
                                            Some(pl) => match rdiv_c(pl, dx20) {
                                                None => None,
                                                Some(pdl) => match radd_c(d21, pdl) {
                                                    None => None,
                                                    Some(sl) => match rhalf_c(sl) {
                                                        None => None,
                                                        Some(lower) => match rsub_c(v3, v2) {
                                                            None => None,
                                                            Some(d32) => match rmul_c(d32, dx21) {
                                                                None => None,
                                                                Some(pu) => match rdiv_c(pu, dx22) {
                                                                    None => None,
                                                                    Some(pdu) => match radd_c(
                                                                        d21,
                                                                        pdu,
                                                                    ) {
                                                                        None => None,
                                                                        Some(su) => match rhalf_c(
                                                                            su,
                                                                        ) {
                                                                            None => None,
                                                                            Some(upper) => match rsub_c(
                                                                                q2,
                                                                                ax2[i2],
                                                                            ) {
                                                                                None => None,
                                                                                Some(qd) => match rdiv_c(
                                                                                    qd,
                                                                                    dx21,
                                                                                ) {
                                                                                    None => None,
                                                                                    Some(t) => if hermite_fits(
                                                                                        t,
                                                                                        v1,
                                                                                        v2,
                                                                                        lower,
                                                                                        upper,
                                                                                    ) {
                                                                                        Some(
                                                                                            hermite(
                                                                                                t,
                                                                                                v1,
                                                                                                v2,
                                                                                                lower,
                                                                                                upper,
                                                                                            ),
                                                                                        )
                                                                                    } else {
                                                                                        None
                                                                                    },
                                                                                },
                                                                            },
                                                                        },
                                                                    },
                                                                },
                                                            },
                                                        },
                                                    },
                                                },
                                            },
                                        },
                                    },
                                },
                            },
                        },
                        }
                    },
                },
            },
        },
    }
}

/// The exact result of two-dimensional grid interpolation: both query
/// coordinates are checked against their axis ranges in axis order, then
/// the query is interpolated around its bracket.
pub open spec fn grid2_res(g: Grid, q1: RatV, q2: RatV) -> Result<RatV, ErrV> {
    let ax1 = axes_v(g.xgrid@)[0];
    let ax2 = axes_v(g.xgrid@)[1];
    let ys = seq_v(g.values@);
    if !rlt(q1, ax1[ax1.len() - 1]) {
        Err(ErrV::Above(q1))
    } else if rlt(q1, ax1[0]) {
        Err(ErrV::Below(q1))
    } else if !rlt(q2, ax2[ax2.len() - 1]) {
        Err(ErrV::Above(q2))
    } else if rlt(q2, ax2[0]) {
        Err(ErrV::Below(q2))
    } else {
        match cubic2_c(ax1, ax2, ys, q1, q2) {
            Some(v) => Ok(v),
            None => Err(ErrV::Range),
        }
    }
}

impl Cubic<2> {
    /// Interpolate along the first axis at the column with second-axis
    /// index `j`, inside the first-axis bracket `i1`.
    fn interp_col(&self, j: usize, q1: Rat, i1: usize) -> (r: Option<Rat>)
        requires
            self.wf(),
            q1.wf(),
            j < self.grid.xgrid@[1]@.len(),
            i1 + 1 < self.grid.xgrid@[0]@.len(),
        ensures
            ({
                let xgg = axes_v(self.grid.xgrid@);
                opt_v(r) == cubic1_c(
                    xgg[0],
                    col(
                        seq_v(self.grid.values@),
                        xgg[0].len() as int,
                        xgg[1].len() as int,
                        j as int,
                    ),
                    q1@,
                    i1 as int,
                )
            }),
            r matches Some(v) ==> v.wf(),
    {
        let ghost xgg = axes_v(self.grid.xgrid@);
        let ghost ys = seq_v(self.grid.values@);
        let ghost n1g = xgg[0].len() as int;
        let ghost n2g = xgg[1].len() as int;
        proof {
            assert(axis_wf(xgg[0]));
            assert(axis_wf(xgg[1]));
            assert(span_from(xgg, 2) == 1);
            assert(span_from(xgg, 1) == n2g * 1);
            assert(self.grid.values@.len() == n1g * n2g);
        }
        let n1 = self.grid.xgrid[0].len();
        let n2 = self.grid.xgrid[1].len();
        let total = self.grid.values.len();
        assert(n1 * n2 == total);
        let mut yc: Vec<Rat> = Vec::new();
        let mut k: usize = 0;
        while k < n1
            invariant
                self.wf(),
                xgg == axes_v(self.grid.xgrid@),
                ys == seq_v(self.grid.values@),
                n1g == xgg[0].len() as int,
                n2g == xgg[1].len() as int,
                n1 == n1g,
                n2 == n2g,
                self.grid.values@.len() == n1g * n2g,
                n1g * n2g <= usize::MAX,
                j < n2g,
                0 <= k <= n1,
                yc@.len() == k,
                forall|m: int| 0 <= m < k ==> yc@[m] == self.grid.values@[m * n2g + j],
            decreases n1 - k,
        {
            proof {
                lemma_rowmajor(k as int, j as int, n1g, n2g);
            }
            assert(k * n2 + j < n1g * n2g);
            let pos = k * n2 + j;
            let ghost pre = yc@;
            yc.push(self.grid.values[pos]);
            proof {
                assert forall|m: int|
                    0 <= m < k + 1 implies yc@[m] == self.grid.values@[m * n2g + j] by {
                    if m < k {
                        assert(pre[m] == self.grid.values@[m * n2g + j]);
                    }
                }
            }
            k = k + 1;
        }
        assert(seq_v(yc@) =~= col(ys, n1g, n2g, j as int)) by {
            assert forall|m: int| 0 <= m < n1g implies seq_v(yc@)[m] == col(ys, n1g, n2g, j as int)[m]
            by {
                assert(yc@[m] == self.grid.values@[m * n2g + j]);
                lemma_rowmajor(m, j as int, n1g, n2g);
            }
        }
        let gs = GridSlice { x: &self.grid.xgrid[0], y: &yc };
        proof {
            assert forall|m: int|
                0 <= m < n1g implies fits(#[trigger] col(ys, n1g, n2g, j as int)[m]) by {
                lemma_rowmajor(m, j as int, n1g, n2g);
                assert(col(ys, n1g, n2g, j as int)[m] == ys[m * n2g + j]);
                assert(fits(ys[m * n2g + j]));
            }
            assert(xgg[0] == seq_v(gs.x@));
            assert(gs.wf());
        }
        gs.cubic_interpolate_1d(q1, i1)
    }
}

impl<'a> Interpolator<&'a Vec<Rat>> for Cubic<2> {
    open spec fn interpolate_req(&self, query: &'a Vec<Rat>) -> bool {
        &&& self.wf()
        &&& query@.len() == 2
        &&& all_fit(seq_v(query@))
        &&& ({
            let ax1 = axes_v(self.grid.xgrid@)[0];
            let ax2 = axes_v(self.grid.xgrid@)[1];
            let q1 = seq_v(query@)[0];
            let q2 = seq_v(query@)[1];
            (in_range(ax1, q1) && in_range(ax2, q2)) ==> 1 <= bracket(ax2, q2) && bracket(ax2, q2)
                + 2 < ax2.len()
        })
    }

    open spec fn spec_interpolate(&self, query: &'a Vec<Rat>) -> Result<RatV, ErrV> {
        grid2_res(self.grid, seq_v(query@)[0], seq_v(query@)[1])
    }

    /// Use two-dimensional cubic interpolation to compute `y(x1, x2)`: the
    /// query is interpolated along the first axis on the four second-axis
    /// nodes around its bracket, and the kernel then combines those four
    /// values along the second axis.
    fn interpolate(&self, query: &'a Vec<Rat>) -> (r: Result<Rat, InterpolationError>) {
        let ghost xgg = axes_v(self.grid.xgrid@);
        let ghost ax1 = xgg[0];
        let ghost ax2 = xgg[1];
        let ghost ys = seq_v(self.grid.values@);
        let ghost qss = seq_v(query@);
        proof {
            lemma_all_fit_wf(query@);
            assert(axis_wf(ax1));
            assert(axis_wf(ax2));
            assert(fits(ax1[0]) && fits(ax1[ax1.len() - 1]));
            assert(fits(ax2[0]) && fits(ax2[ax2.len() - 1]));
            assert(rlt(ax1[0], ax1[ax1.len() - 1]));
            assert(rlt(ax2[0], ax2[ax2.len() - 1]));
            assert(first_out_from(xgg, qss, 2) == 2);
            assert(first_out_from(xgg, qss, 1) == 1 || first_out_from(xgg, qss, 1) == 2);
            assert(first_out(xgg, qss) == 0 || first_out(xgg, qss) == 1 || first_out(xgg, qss)
                == 2);
        }
        let raw_idx = match self.grid.closest_below(query) {
            Ok(ids) => ids,
            Err(e) => {
                proof {
                    let fo = first_out(xgg, qss);
                    assert(fo == 0 || fo == 1);
                    if rlt(qss[0], ax1[0]) {
                        lemma_rlt_trans(qss[0], ax1[0], ax1[ax1.len() - 1]);
                    }
                    if rlt(qss[1], ax2[0]) {
                        lemma_rlt_trans(qss[1], ax2[0], ax2[ax2.len() - 1]);
                    }
                }
                return Err(e);
            },
        };
        assert(in_range(ax1, qss[0]) && in_range(ax2, qss[1])) by {
            assert(first_out_from(xgg, qss, 0) == 2);
            if !in_range(ax1, qss[0]) {
                assert(first_out_from(xgg, qss, 0) == 0);
            }
            assert(first_out_from(xgg, qss, 1) == 2);
            if !in_range(ax2, qss[1]) {
                assert(first_out_from(xgg, qss, 1) == 1);
            }
        }
        let id_x1 = raw_idx[0];
        let id_x2 = raw_idx[1];
        assert(bracketed(xgg, qss, raw_idx@, 0));
        assert(bracketed(xgg, qss, raw_idx@, 1));
        let n2ax = self.grid.xgrid[1].len();
        assert(1 <= id_x2 && (id_x2 as int) + 2 < n2ax);

        let x1 = query[0];
        let x2 = query[1];
        let v0 = match self.interp_col(id_x2 - 1, x1, id_x1) {
            Some(v) => v.reduced(),
            None => {
                return Err(InterpolationError::RangeExceeded);
            },
        };
        let v1 = match self.interp_col(id_x2, x1, id_x1) {
            Some(v) => v.reduced(),
            None => {
                return Err(InterpolationError::RangeExceeded);
            },
        };
        let v2 = match self.interp_col(id_x2 + 1, x1, id_x1) {
            Some(v) => v.reduced(),
            None => {
                return Err(InterpolationError::RangeExceeded);
            },
        };
        let v3 = match self.interp_col(id_x2 + 2, x1, id_x1) {
            Some(v) => v.reduced(),
            None => {
                return Err(InterpolationError::RangeExceeded);
            },
        };

        let x2_grid = &self.grid.xgrid[1];
        proof {
            lemma_all_fit_wf(x2_grid@);
            lemma_rsub_pos(ax2[id_x2 - 1], ax2[id_x2 as int]);
            lemma_rsub_pos(ax2[id_x2 as int], ax2[id_x2 + 1]);
            lemma_rsub_pos(ax2[id_x2 + 1], ax2[id_x2 + 2]);
        }
        let dx20 = match x2_grid[id_x2].sub(x2_grid[id_x2 - 1]) {
            Some(v) => v,
            None => {
                return Err(InterpolationError::RangeExceeded);
            },
        };
        let dx21 = match x2_grid[id_x2 + 1].sub(x2_grid[id_x2]) {
            Some(v) => v,
            None => {
                return Err(InterpolationError::RangeExceeded);
            },
        };
        let dx22 = match x2_grid[id_x2 + 2].sub(x2_grid[id_x2 + 1]) {
            Some(v) => v,
            None => {
                return Err(InterpolationError::RangeExceeded);
            },
        };
        let d21 = match v2.sub(v1) {
            Some(v) => v,
            None => {
                return Err(InterpolationError::RangeExceeded);
            },
        };
        let d10 = match v1.sub(v0) {
            Some(v) => v,
            None => {
                return Err(InterpolationError::RangeExceeded);
            },
        };
        let pl = match d10.mul(dx21) {
            Some(v) => v,
            None => {
                return Err(InterpolationError::RangeExceeded);
            },
        };
        let pdl = match pl.div(dx20) {
            Some(v) => v,
            None => {
                return Err(InterpolationError::RangeExceeded);
            },
        };
        let sl = match d21.add(pdl) {
            Some(v) => v,
            None => {
                return Err(InterpolationError::RangeExceeded);
            },
        };
        let lower_derivative = match sl.half() {
            Some(v) => v,
            None => {
                return Err(InterpolationError::RangeExceeded);
            },
        };
        let d32 = match v3.sub(v2) {
            Some(v) => v,
            None => {
                return Err(InterpolationError::RangeExceeded);
            },
        };
        let pu = match d32.mul(dx21) {
            Some(v) => v,
            None => {
                return Err(InterpolationError::RangeExceeded);
            },
        };
        let pdu = match pu.div(dx22) {
            Some(v) => v,
            None => {
                return Err(InterpolationError::RangeExceeded);
            },
        };
        let su = match d21.add(pdu) {
            Some(v) => v,
            None => {
                return Err(InterpolationError::RangeExceeded);
            },
        };
        let upper_derivative = match su.half() {
            Some(v) => v,
            None => {
                return Err(InterpolationError::RangeExceeded);
            },
        };
        let qd = match x2.sub(x2_grid[id_x2]) {
            Some(v) => v,
            None => {
                return Err(InterpolationError::RangeExceeded);
            },
        };
        let t = match qd.div(dx21) {
            Some(v) => v,
            None => {
                return Err(InterpolationError::RangeExceeded);
            },
        };
        match cubic_interpolation_1d(t, v1, v2, lower_derivative, upper_derivative) {
            Some(v) => Ok(v),
            None => Err(InterpolationError::RangeExceeded),
        }
    }
}


/// Hermite property at the kernel: with the normalized position at zero
/// the kernel reproduces the lower node's value exactly — the spline
/// interpolates its nodes, it does not approximate them.
pub proof fn lemma_hermite_at_node(t: RatV, yl: RatV, yu: RatV, ml: RatV, mu: RatV)
    requires
        wf_v(t),
        wf_v(yl),
        wf_v(yu),
        wf_v(ml),
        wf_v(mu),
        t.n == 0,
    ensures
        rat_eq(hermite(t, yl, yu, ml, mu), yl),
{
    broadcast use vstd::arithmetic::mul::group_mul_basics;
    broadcast use vstd::arithmetic::mul::lemma_mul_by_zero_is_zero;

    let t2 = t2v(t);
    let t3 = t3v(t);
    let a1 = rmul(rint(2), t3);
    let a2 = rmul(rint(3), t2);
    let a3 = rsub(a1, a2);
    let h00 = radd(a3, rint(1));
    let h01 = radd(rneg(a1), a2);
    let c1 = rmul(rint(2), t2);
    let c2 = rsub(t3, c1);
    let h10 = radd(c2, t);
    let h11 = rsub(t3, t2);
    lemma_ops_wf(t, t);
    lemma_ops_wf(t2, t);
    lemma_ops_wf(rint(2), t3);
    lemma_ops_wf(rint(3), t2);
    lemma_ops_wf(a1, a2);
    lemma_ops_wf(a3, rint(1));
    lemma_ops_wf(rneg(a1), a2);
    lemma_ops_wf(rint(2), t2);
    lemma_ops_wf(t3, c1);
    lemma_ops_wf(c2, t);
    lemma_ops_wf(t3, t2);
    assert(t2.n == 0);
    assert(t3.n == 0);
    assert(a3.n == 0);
    assert(h00.n == a3.d && h00.d == a3.d);
    assert(h01.n == 0);
    assert(h10.n == 0);
    assert(h11.n == 0);
    let p0 = rmul(yl, h00);
    let p1 = rmul(yu, h01);
    let m0 = rmul(ml, h10);
    let m1 = rmul(mu, h11);
    lemma_ops_wf(yl, h00);
    lemma_ops_wf(yu, h01);
    lemma_ops_wf(ml, h10);
    lemma_ops_wf(mu, h11);
    assert(p1.n == 0 && m0.n == 0 && m1.n == 0);
    let s1 = radd(p0, p1);
    let s2 = radd(s1, m0);
    let s = radd(s2, m1);
    lemma_ops_wf(p0, p1);
    lemma_ops_wf(s1, m0);
    lemma_ops_wf(s2, m1);
    assert(s == hermite(t, yl, yu, ml, mu));
    crate::rat::lemma_radd_zero(p0, p1);
    crate::rat::lemma_radd_zero(s1, m0);
    crate::rat::lemma_radd_zero(s2, m1);
    crate::rat::lemma_rmul_diag(yl, h00);
    crate::rat::lemma_rat_eq_trans(s, s2, s1);
    crate::rat::lemma_rat_eq_trans(s, s1, p0);
    crate::rat::lemma_rat_eq_trans(s, p0, yl);
}

/// Hermite property on a slice: interpolating exactly at the lower node
/// of a bracket returns that node's value.
pub proof fn lemma_cubic1_at_node(x: Seq<RatV>, y: Seq<RatV>, i: int)
    requires
        axis_wf(x),
        y.len() == x.len(),
        all_fit(y),
        0 <= i <= x.len() - 2,
        cubic1_c(x, y, x[i], i) is Some,
    ensures
        rat_eq(cubic1_c(x, y, x[i], i).unwrap(), y[i]),
{
    let q = x[i];
    assert(fits(x[i]) && fits(x[i + 1]));
    let c = cubic1_c(x, y, q, i);
    let v = c.unwrap();
    let dx = rsub(x[i + 1], x[i]);
    assert(fits(dx));
    lemma_rsub_pos(x[i], x[i + 1]);
    let ou = if i == x.len() - 2 {
        fwd_slope_c(x, y, i + 1)
    } else {
        central_slope_c(x, y, i + 1)
    };
    let ol = if i == 0 {
        fwd_slope_c(x, y, i + 1)
    } else {
        central_slope_c(x, y, i)
    };
    assert(ou is Some && ol is Some);
    let dydxu = rmul(dx, ou.unwrap());
    let dydxl = rmul(dx, ol.unwrap());
    assert(fits(dydxu) && fits(dydxl));
    let qd = rsub(q, x[i]);
    assert(qd.n == 0);
    let t = rdiv(qd, dx);
    assert(fits(t));
    assert(t.n == 0);
    assert(v == hermite(t, y[i], y[i + 1], dydxl, dydxu));
    assert(fits(y[i]) && fits(y[i + 1]));
    lemma_hermite_at_node(t, y[i], y[i + 1], dydxl, dydxu);
}

/// Hermite property on a one-dimensional grid: querying exactly at a
/// non-boundary node returns that node's stored value.
pub proof fn lemma_grid1_at_node(g: Grid, i: int)
    requires
        g.wf(),
        g.dims() == 1,
        0 <= i < axes_v(g.xgrid@)[0].len() - 1,
        grid1_res(g, axes_v(g.xgrid@)[0][i]) is Ok,
    ensures
        rat_eq(grid1_res(g, axes_v(g.xgrid@)[0][i])->Ok_0, seq_v(g.values@)[i]),
{
    let ax = axes_v(g.xgrid@)[0];
    let ys = seq_v(g.values@);
    let q = ax[i];
    assert(axis_wf(ax));
    assert(fits(ax[0]) && fits(ax[i]) && fits(ax[i + 1]) && fits(ax[ax.len() - 1]));
    if i > 0 {
        assert(rlt(ax[0], ax[i]));
    }
    assert(rle(ax[0], q));
    assert(rlt(q, ax[ax.len() - 1]));
    assert(in_range(ax, q));
    assert(rle(ax[i], q));
    assert(rlt(q, ax[i + 1]));
    lemma_bracket_unique(ax, q, i);
    assert(!rlt(q, ax[0]));
    assert(span_from(axes_v(g.xgrid@), 1) == 1);
    assert(ys.len() == ax.len());
    assert(cubic1_c(ax, ys, q, i) is Some);
    lemma_cubic1_at_node(ax, ys, i);
}


/// The four Hermite basis polynomials are well-formed rationals.
proof fn lemma_h_wf(t: RatV)
    requires
        wf_v(t),
    ensures
        wf_v(h00v(t)),
        wf_v(h01v(t)),
        wf_v(h10v(t)),
        wf_v(h11v(t)),
{
    lemma_ops_wf(t, t);
    lemma_ops_wf(t2v(t), t);
    lemma_ops_wf(rint(2), t3v(t));
    lemma_ops_wf(rint(3), t2v(t));
    lemma_ops_wf(rmul(rint(2), t3v(t)), rmul(rint(3), t2v(t)));
    lemma_ops_wf(rsub(rmul(rint(2), t3v(t)), rmul(rint(3), t2v(t))), rint(1));
    lemma_ops_wf(rneg(rmul(rint(2), t3v(t))), rmul(rint(3), t2v(t)));
    lemma_ops_wf(rint(2), t2v(t));
    lemma_ops_wf(t3v(t), rmul(rint(2), t2v(t)));
    lemma_ops_wf(rsub(t3v(t), rmul(rint(2), t2v(t))), t);
    lemma_ops_wf(t3v(t), t2v(t));
}

/// The first two Hermite basis polynomials sum to one: the sum's numerator
/// and denominator agree.
proof fn lemma_h_sum_diag(t: RatV)
    ensures
        radd(h00v(t), h01v(t)).n == radd(h00v(t), h01v(t)).d,
{
    let a1 = rmul(rint(2), t3v(t));
    let a2 = rmul(rint(3), t2v(t));
    let h00 = h00v(t);
    let h01 = h01v(t);
    let dd = a1.d * a2.d;
    assert(h00.d == dd && h01.d == dd);
    assert((-(a1.n)) * a2.d == -(a1.n * a2.d)) by (nonlinear_arith);
    assert(h00.n + h01.n == dd);
    assert(radd(h00, h01).n == h00.n * dd + h01.n * dd);
    assert(h00.n * dd + h01.n * dd == (h00.n + h01.n) * dd) by (nonlinear_arith);
    assert(radd(h00, h01).n == dd * dd);
    assert(radd(h00, h01).d == dd * dd);
}

/// The last three Hermite basis polynomials sum to the normalized
/// position itself.
proof fn lemma_h_slope_sum(t: RatV)
    requires
        wf_v(t),
    ensures
        rat_eq(radd(h01v(t), radd(h10v(t), h11v(t))), t),
{
    let p = t.n;
    let d = t.d;
    let p2 = p * p;
    let p3 = p2 * p;
    let d2 = d * d;
    let d3 = d2 * d;
    let d4 = d3 * d;
    let d5 = d4 * d;
    let d6 = d5 * d;
    let d11 = d6 * d5;
    let h01 = h01v(t);
    let h10 = h10v(t);
    let h11 = h11v(t);
    assert(h01.n == 3 * (p2 * d3) - 2 * (p3 * d2)) by (nonlinear_arith)
        requires
            h01.n == (-(2 * ((t.n * t.n) * t.n))) * (1 * (t.d * t.d)) + (3 * (t.n * t.n)) * (1 * (
            (t.d * t.d) * t.d)),
            p2 == t.n * t.n,
            p3 == p2 * t.n,
            d2 == t.d * t.d,
            d3 == d2 * t.d,
            p == t.n,
            d == t.d,
    ;
    assert(h01.d == d5) by (nonlinear_arith)
        requires
            h01.d == (1 * ((t.d * t.d) * t.d)) * (1 * (t.d * t.d)),
            d2 == t.d * t.d,
            d3 == d2 * t.d,
            d4 == d3 * t.d,
            d5 == d4 * t.d,
            d == t.d,
    ;
    let c2 = rsub(t3v(t), rmul(rint(2), t2v(t)));
    assert(c2.n == ((t.n * t.n) * t.n) * (1 * (t.d * t.d)) - (2 * (t.n * t.n)) * ((t.d * t.d)
        * t.d));
    assert(c2.d == ((t.d * t.d) * t.d) * (1 * (t.d * t.d)));
    assert(h10.n == c2.n * t.d + t.n * c2.d);
    assert(h10.d == c2.d * t.d);
    assert(h10.n == (p3 * d3 - 2 * (p2 * d4)) + p * d5) by (nonlinear_arith)
        requires
            h10.n == (((t.n * t.n) * t.n) * (1 * (t.d * t.d)) - (2 * (t.n * t.n)) * ((t.d * t.d)
                * t.d)) * t.d + t.n * (((t.d * t.d) * t.d) * (1 * (t.d * t.d))),
            p2 == t.n * t.n,
            p3 == p2 * t.n,
            d2 == t.d * t.d,
            d3 == d2 * t.d,
            d4 == d3 * t.d,
            d5 == d4 * t.d,
            p == t.n,
            d == t.d,
    ;
    assert(h10.d == d6) by (nonlinear_arith)
        requires
            h10.d == (((t.d * t.d) * t.d) * (1 * (t.d * t.d))) * t.d,
            d2 == t.d * t.d,
            d3 == d2 * t.d,
            d4 == d3 * t.d,
            d5 == d4 * t.d,
            d6 == d5 * t.d,
            d == t.d,
    ;
    assert(h11.n == p3 * d2 - p2 * d3) by (nonlinear_arith)
        requires
            h11.n == ((t.n * t.n) * t.n) * (t.d * t.d) - (t.n * t.n) * ((t.d * t.d) * t.d),
            p2 == t.n * t.n,
            p3 == p2 * t.n,
            d2 == t.d * t.d,
            d3 == d2 * t.d,
    ;
    assert(h11.d == d5) by (nonlinear_arith)
        requires
            h11.d == ((t.d * t.d) * t.d) * (t.d * t.d),
            d2 == t.d * t.d,
            d3 == d2 * t.d,
            d4 == d3 * t.d,
            d5 == d4 * t.d,
    ;
    let inner = radd(h10, h11);
    assert(inner.n == h10.n * d5 + h11.n * d6);
    assert(inner.d == d6 * d5);
    let outer = radd(h01, inner);
    assert(outer.n == h01.n * (d6 * d5) + inner.n * d5);
    assert(outer.d == d5 * (d6 * d5));
    assert((2 * (p2 * d3) - p3 * d2) * d + (p3 * d3 - 2 * (p2 * d4)) == 0) by (nonlinear_arith)
        requires
            d3 == d2 * d,
            d4 == d3 * d,
    ;
    assert((h10.n * d5 + h11.n * d6) * d5 == h10.n * (d5 * d5) + h11.n * (d6 * d5))
        by (nonlinear_arith);
    assert(outer.n * d == (h01.n * (d6 * d5)) * d + ((h10.n * (d5 * d5)) * d + (h11.n * (d6 * d5))
        * d)) by (nonlinear_arith)
        requires
            outer.n == h01.n * (d6 * d5) + (h10.n * (d5 * d5) + h11.n * (d6 * d5)),
    ;
    assert((h01.n * (d6 * d5)) * d == h01.n * ((d6 * d5) * d)) by (nonlinear_arith);
    assert((h10.n * (d5 * d5)) * d == h10.n * ((d5 * d5) * d)) by (nonlinear_arith);
    assert((h11.n * (d6 * d5)) * d == h11.n * ((d6 * d5) * d)) by (nonlinear_arith);
    assert(outer.n * d == h01.n * ((d6 * d5) * d) + h10.n * ((d5 * d5) * d) + h11.n * ((d6 * d5)
        * d));
    assert(h01.n * ((d6 * d5) * d) + h11.n * ((d6 * d5) * d) == (2 * (p2 * d3) - p3 * d2) * ((d6
        * d5) * d)) by (nonlinear_arith)
        requires
            h01.n == 3 * (p2 * d3) - 2 * (p3 * d2),
            h11.n == p3 * d2 - p2 * d3,
    ;
    assert(h10.n * ((d5 * d5) * d) == (p3 * d3 - 2 * (p2 * d4)) * ((d5 * d5) * d) + p * (d5 * ((d5
        * d5) * d))) by (nonlinear_arith)
        requires
            h10.n == (p3 * d3 - 2 * (p2 * d4)) + p * d5,
    ;
    assert((2 * (p2 * d3) - p3 * d2) * ((d6 * d5) * d) + (p3 * d3 - 2 * (p2 * d4)) * ((d5 * d5)
        * d) == 0) by (nonlinear_arith)
        requires
            d6 == d5 * d,
            (2 * (p2 * d3) - p3 * d2) * d + (p3 * d3 - 2 * (p2 * d4)) == 0,
    ;
    assert(p * (d5 * ((d5 * d5) * d)) == p * (d5 * (d6 * d5))) by (nonlinear_arith)
        requires
            d6 == d5 * d,
    ;
    assert(outer.n * d == p * (d5 * (d6 * d5)));
    assert(outer.n * t.d == t.n * outer.d);
}


/// Linear reproduction at the kernel: when the bracket's end values lie on
/// a line — the upper value exceeds the lower by `m`, the rise of the line
/// over the bracket — and both width-scaled slopes equal `m`, the
/// interpolant is the line's value at the normalized position.  The spline
/// reduces to linear interpolation when the slopes are consistent.
pub proof fn lemma_hermite_linear(t: RatV, yl: RatV, yu: RatV, ml: RatV, mu: RatV, m: RatV)
    requires
        wf_v(t),
        wf_v(yl),
        wf_v(yu),
        wf_v(ml),
        wf_v(mu),
        wf_v(m),
        rat_eq(yu, radd(yl, m)),
        rat_eq(ml, m),
        rat_eq(mu, m),
    ensures
        rat_eq(hermite(t, yl, yu, ml, mu), radd(yl, rmul(m, t))),
{
    let h00 = h00v(t);
    let h01 = h01v(t);
    let h10 = h10v(t);
    let h11 = h11v(t);
    lemma_h_wf(t);
    let p0 = rmul(yl, h00);
    let p1 = rmul(yu, h01);
    let m0 = rmul(ml, h10);
    let m1 = rmul(mu, h11);
    let q1 = rmul(yl, h01);
    let q2 = rmul(m, h01);
    let n0 = rmul(m, h10);
    let n1 = rmul(m, h11);
    lemma_ops_wf(yl, m);
    lemma_ops_wf(yl, h00);
    lemma_ops_wf(yu, h01);
    lemma_ops_wf(ml, h10);
    lemma_ops_wf(mu, h11);
    lemma_ops_wf(yl, h01);
    lemma_ops_wf(m, h01);
    lemma_ops_wf(m, h10);
    lemma_ops_wf(m, h11);
    lemma_ops_wf(radd(yl, m), h01);
    lemma_ops_wf(q1, q2);

    lemma_rmul_cong(yu, radd(yl, m), h01);
    lemma_rmul_comm(radd(yl, m), h01);
    lemma_rmul_distrib(h01, yl, m);
    lemma_rmul_comm(h01, yl);
    lemma_rmul_comm(h01, m);
    lemma_rat_eq_trans(p1, rmul(h01, radd(yl, m)), radd(q1, q2));
    lemma_rmul_cong(ml, m, h10);
    lemma_rmul_cong(mu, m, h11);

    let s1 = radd(p0, p1);
    let s2 = radd(s1, m0);
    let s = radd(s2, m1);
    assert(s == hermite(t, yl, yu, ml, mu));
    let r1 = radd(p0, radd(q1, q2));
    let r2 = radd(r1, n0);
    let r = radd(r2, n1);
    lemma_ops_wf(p0, p1);
    lemma_ops_wf(p0, radd(q1, q2));
    lemma_ops_wf(s1, m0);
    lemma_ops_wf(r1, m0);
    lemma_ops_wf(r1, n0);
    lemma_ops_wf(s2, m1);
    lemma_ops_wf(r2, m1);
    lemma_ops_wf(r2, n1);
    lemma_radd_cong2(p0, p1, radd(q1, q2));
    lemma_radd_cong(s1, r1, m0);
    lemma_radd_cong2(r1, m0, n0);
    lemma_rat_eq_trans(s2, radd(r1, m0), r2);
    lemma_radd_cong(s2, r2, m1);
    lemma_radd_cong2(r2, m1, n1);
    lemma_rat_eq_trans(s, radd(r2, m1), r);

    let x = radd(p0, q1);
    let y = radd(q2, radd(n0, n1));
    lemma_radd_assoc(p0, q1, q2);
    lemma_radd_assoc(x, q2, n0);
    lemma_radd_assoc(x, radd(q2, n0), n1);
    lemma_radd_assoc(q2, n0, n1);
    assert(r == radd(x, y));

    lemma_ops_wf(h00, h01);
    lemma_ops_wf(yl, radd(h00, h01));
    lemma_ops_wf(p0, q1);
    lemma_rmul_distrib(yl, h00, h01);
    lemma_rat_eq_sym(rmul(yl, radd(h00, h01)), x);
    lemma_h_sum_diag(t);
    lemma_rmul_diag(yl, radd(h00, h01));
    lemma_rat_eq_trans(x, rmul(yl, radd(h00, h01)), yl);

    let z = radd(h10, h11);
    lemma_ops_wf(h10, h11);
    lemma_ops_wf(m, z);
    lemma_ops_wf(n0, n1);
    lemma_ops_wf(h01, z);
    lemma_ops_wf(m, radd(h01, z));
    lemma_ops_wf(q2, rmul(m, z));
    lemma_ops_wf(q2, radd(n0, n1));
    lemma_rmul_distrib(m, h10, h11);
    lemma_rat_eq_sym(rmul(m, z), radd(n0, n1));
    lemma_radd_cong2(q2, radd(n0, n1), rmul(m, z));
    lemma_rmul_distrib(m, h01, z);
    lemma_rat_eq_sym(rmul(m, radd(h01, z)), radd(q2, rmul(m, z)));
    lemma_rat_eq_trans(y, radd(q2, rmul(m, z)), rmul(m, radd(h01, z)));
    lemma_h_slope_sum(t);
    lemma_rmul_cong2(m, radd(h01, z), t);
    lemma_ops_wf(m, t);
    lemma_rat_eq_trans(y, rmul(m, radd(h01, z)), rmul(m, t));

    lemma_ops_wf(x, y);
    lemma_ops_wf(yl, y);
    lemma_ops_wf(yl, rmul(m, t));
    lemma_radd_cong(x, yl, y);
    lemma_radd_cong2(yl, y, rmul(m, t));
    lemma_rat_eq_trans(radd(x, y), radd(yl, y), radd(yl, rmul(m, t)));
    lemma_rat_eq_trans(s, r, radd(yl, rmul(m, t)));
}


/// Forward-difference slope of samples on a line: the estimate denotes
/// the line's slope.
proof fn lemma_fwd_slope_linear(x: Seq<RatV>, y: Seq<RatV>, a: RatV, b: RatV, j: int)
    requires
        axis_wf(x),
        y.len() == x.len(),
        all_fit(y),
        wf_v(a),
        wf_v(b),
        1 <= j < x.len(),
        rat_eq(y[j], radd(rmul(a, x[j]), b)),
        rat_eq(y[j - 1], radd(rmul(a, x[j - 1]), b)),
        fwd_slope_c(x, y, j) is Some,
    ensures
        rat_eq(fwd_slope_c(x, y, j).unwrap(), a),
{
    let xj = x[j];
    let xp = x[j - 1];
    let yj = y[j];
    let yp = y[j - 1];
    let dx = rsub(xj, xp);
    let dy = rsub(yj, yp);
    assert(fits(xj) && fits(xp));
    assert(fits(yj) && fits(yp));
    assert(rlt(xp, xj));
    lemma_rsub_pos(xp, xj);
    lemma_ops_wf(xj, xp);
    lemma_ops_wf(yj, yp);
    let lj = radd(rmul(a, xj), b);
    let lp = radd(rmul(a, xp), b);
    lemma_ops_wf(a, xj);
    lemma_ops_wf(a, xp);
    lemma_ops_wf(rmul(a, xj), b);
    lemma_ops_wf(rmul(a, xp), b);
    lemma_rsub_cong(yj, lj, yp);
    lemma_rsub_cong2(lj, yp, lp);
    lemma_ops_wf(lj, yp);
    lemma_ops_wf(lj, lp);
    lemma_rat_eq_trans(dy, rsub(lj, yp), rsub(lj, lp));
    lemma_sub_same_addend(rmul(a, xj), rmul(a, xp), b);
    lemma_ops_wf(rmul(a, xj), rmul(a, xp));
    lemma_rat_eq_trans(dy, rsub(lj, lp), rsub(rmul(a, xj), rmul(a, xp)));
    lemma_rmul_distrib_sub(a, xj, xp);
    lemma_rat_eq_sym(rmul(a, dx), rsub(rmul(a, xj), rmul(a, xp)));
    lemma_ops_wf(a, dx);
    lemma_rat_eq_trans(dy, rsub(rmul(a, xj), rmul(a, xp)), rmul(a, dx));
    lemma_rdiv_of_mul(dy, dx, a);
}

/// Central slope of samples on a line: the estimate denotes the line's
/// slope.
proof fn lemma_central_slope_linear(x: Seq<RatV>, y: Seq<RatV>, a: RatV, b: RatV, j: int)
    requires
        axis_wf(x),
        y.len() == x.len(),
        all_fit(y),
        wf_v(a),
        wf_v(b),
        1 <= j,
        j + 1 < x.len(),
        rat_eq(y[j - 1], radd(rmul(a, x[j - 1]), b)),
        rat_eq(y[j], radd(rmul(a, x[j]), b)),
        rat_eq(y[j + 1], radd(rmul(a, x[j + 1]), b)),
        central_slope_c(x, y, j) is Some,
    ensures
        rat_eq(central_slope_c(x, y, j).unwrap(), a),
{
    lemma_fwd_slope_linear(x, y, a, b, j + 1);
    lemma_fwd_slope_linear(x, y, a, b, j);
    let f = fwd_slope_c(x, y, j + 1).unwrap();
    let bk = fwd_slope_c(x, y, j).unwrap();
    lemma_half_avg(f, bk, a);
}

/// Linear reproduction on a one-dimensional grid: when every sample lies
/// on the line `a*x + b`, interpolation at any in-range query returns the
/// line's value at the query.
pub proof fn lemma_grid1_linear(g: Grid, q: RatV, a: RatV, b: RatV)
    requires
        g.wf(),
        g.dims() == 1,
        wf_v(q),
        wf_v(a),
        wf_v(b),
        forall|i: int|
            0 <= i < seq_v(g.values@).len() ==> rat_eq(
                #[trigger] seq_v(g.values@)[i],
                radd(rmul(a, axes_v(g.xgrid@)[0][i]), b),
            ),
        grid1_res(g, q) is Ok,
    ensures
        rat_eq(grid1_res(g, q)->Ok_0, radd(rmul(a, q), b)),
{
    let ax = axes_v(g.xgrid@)[0];
    let ys = seq_v(g.values@);
    assert(axis_wf(ax));
    assert(span_from(axes_v(g.xgrid@), 1) == 1);
    assert(ys.len() == ax.len());
    assert(in_range(ax, q));
    lemma_bracket_props(ax, q);
    let i = bracket(ax, q);
    let c = cubic1_c(ax, ys, q, i);
    assert(c is Some);
    let v = c.unwrap();
    assert(grid1_res(g, q)->Ok_0 == v);
    assert(fits(ax[i]) && fits(ax[i + 1]));
    let dx = rsub(ax[i + 1], ax[i]);
    lemma_rsub_pos(ax[i], ax[i + 1]);
    lemma_ops_wf(ax[i + 1], ax[i]);
    let ou = if i == ax.len() - 2 {
        fwd_slope_c(ax, ys, i + 1)
    } else {
        central_slope_c(ax, ys, i + 1)
    };
    let ol = if i == 0 {
        fwd_slope_c(ax, ys, i + 1)
    } else {
        central_slope_c(ax, ys, i)
    };
    assert(ou is Some && ol is Some);
    let su = ou.unwrap();
    let sl = ol.unwrap();
    assert(rat_eq(ys[i], radd(rmul(a, ax[i]), b)));
    assert(rat_eq(ys[i + 1], radd(rmul(a, ax[i + 1]), b)));
    if i == ax.len() - 2 {
        lemma_fwd_slope_linear(ax, ys, a, b, i + 1);
    } else {
        assert(rat_eq(ys[i + 2], radd(rmul(a, ax[i + 2]), b)));
        lemma_central_slope_linear(ax, ys, a, b, i + 1);
    }
    if i == 0 {
        lemma_fwd_slope_linear(ax, ys, a, b, i + 1);
    } else {
        assert(rat_eq(ys[i - 1], radd(rmul(a, ax[i - 1]), b)));
        lemma_central_slope_linear(ax, ys, a, b, i);
    }
    assert(rat_eq(su, a) && rat_eq(sl, a));
    let m = rmul(dx, a);
    assert(fits(su) && fits(sl));
    lemma_ops_wf(dx, a);
    lemma_ops_wf(dx, su);
    lemma_ops_wf(dx, sl);
    lemma_rmul_cong2(dx, su, a);
    lemma_rmul_cong2(dx, sl, a);
    let qd = rsub(q, ax[i]);
    let t = rdiv(qd, dx);
    assert(fits(t) && fits(qd));
    assert(v == hermite(t, ys[i], ys[i + 1], rmul(dx, sl), rmul(dx, su)));
    let xx = rmul(a, ax[i]);
    let yy = rmul(a, ax[i + 1]);
    lemma_ops_wf(a, ax[i]);
    lemma_ops_wf(a, ax[i + 1]);
    lemma_ops_wf(xx, b);
    lemma_ops_wf(yy, b);
    // ys[i+1] denotes ys[i] + m
    lemma_rmul_comm(dx, a);
    lemma_rmul_distrib_sub(a, ax[i + 1], ax[i]);
    lemma_ops_wf(yy, xx);
    lemma_add_sub_shuffle(xx, yy, b);
    lemma_ops_wf(radd(xx, b), rsub(yy, xx));
    lemma_radd_cong2(radd(xx, b), rmul(a, dx), rsub(yy, xx));
    lemma_ops_wf(radd(xx, b), rmul(a, dx));
    lemma_rat_eq_trans(radd(radd(xx, b), m), radd(radd(xx, b), rsub(yy, xx)), radd(yy, b));
    lemma_radd_cong(ys[i], radd(xx, b), m);
    lemma_ops_wf(ys[i], m);
    lemma_ops_wf(radd(xx, b), m);
    lemma_rat_eq_trans(radd(ys[i], m), radd(radd(xx, b), m), radd(yy, b));
    lemma_rat_eq_sym(radd(ys[i], m), radd(yy, b));
    lemma_rat_eq_sym(ys[i + 1], radd(yy, b));
    lemma_rat_eq_trans(ys[i + 1], radd(yy, b), radd(ys[i], m));
    // kernel linearity
    lemma_hermite_linear(t, ys[i], ys[i + 1], rmul(dx, sl), rmul(dx, su), m);
    // m * t denotes a * (q - ax[i])
    lemma_mul_div_cancel(a, dx, qd);
    // assemble the line value at q
    lemma_ops_wf(m, t);
    lemma_ops_wf(a, qd);
    lemma_ops_wf(a, q);
    lemma_ops_wf(rmul(a, q), b);
    lemma_radd_cong2(ys[i], rmul(m, t), rmul(a, qd));
    lemma_radd_cong(ys[i], radd(xx, b), rmul(a, qd));
    lemma_rmul_distrib_sub(a, q, ax[i]);
    lemma_ops_wf(rmul(a, q), xx);
    lemma_radd_cong2(radd(xx, b), rmul(a, qd), rsub(rmul(a, q), xx));
    lemma_add_sub_shuffle(xx, rmul(a, q), b);
    lemma_ops_wf(ys[i], rmul(m, t));
    lemma_ops_wf(ys[i], rmul(a, qd));
    lemma_ops_wf(radd(xx, b), rmul(a, qd));
    lemma_ops_wf(radd(xx, b), rsub(rmul(a, q), xx));
    lemma_rat_eq_trans(v, radd(ys[i], rmul(m, t)), radd(ys[i], rmul(a, qd)));
    lemma_rat_eq_trans(v, radd(ys[i], rmul(a, qd)), radd(radd(xx, b), rmul(a, qd)));
    lemma_rat_eq_trans(
        v,
        radd(radd(xx, b), rmul(a, qd)),
        radd(radd(xx, b), rsub(rmul(a, q), xx)),
    );
    lemma_rat_eq_trans(v, radd(radd(xx, b), rsub(rmul(a, q), xx)), radd(rmul(a, q), b));
}


/// Hermite property on a two-dimensional grid: querying exactly at a grid
/// node whose second-axis bracket keeps the four-node stencil interior
/// returns that node's stored value.
pub proof fn lemma_grid2_at_node(g: Grid, i: int, j: int)
    requires
        g.wf(),
        g.dims() == 2,
        0 <= i < axes_v(g.xgrid@)[0].len() - 1,
        1 <= j && j + 2 < axes_v(g.xgrid@)[1].len(),
        grid2_res(g, axes_v(g.xgrid@)[0][i], axes_v(g.xgrid@)[1][j]) is Ok,
    ensures
        rat_eq(
            grid2_res(g, axes_v(g.xgrid@)[0][i], axes_v(g.xgrid@)[1][j])->Ok_0,
            seq_v(g.values@)[i * axes_v(g.xgrid@)[1].len() + j],
        ),
{
    let ax1 = axes_v(g.xgrid@)[0];
    let ax2 = axes_v(g.xgrid@)[1];
    let ys = seq_v(g.values@);
    let n1 = ax1.len() as int;
    let n2 = ax2.len() as int;
    let q1 = ax1[i];
    let q2 = ax2[j];
    assert(axis_wf(ax1));
    assert(axis_wf(ax2));
    assert(span_from(axes_v(g.xgrid@), 2) == 1);
    assert(span_from(axes_v(g.xgrid@), 1) == n2 * 1);
    assert(ys.len() == n1 * n2);
    assert(fits(ax1[0]) && fits(ax1[i]) && fits(ax1[i + 1]) && fits(ax1[n1 - 1]));
    assert(fits(ax2[0]) && fits(ax2[j]) && fits(ax2[j + 1]) && fits(ax2[n2 - 1]));
    if i > 0 {
        assert(rlt(ax1[0], ax1[i]));
    }
    assert(rlt(ax2[0], ax2[j]));
    assert(rlt(q1, ax1[n1 - 1]));
    assert(rlt(q2, ax2[n2 - 1]));
    assert(in_range(ax1, q1));
    assert(in_range(ax2, q2));
    assert(rle(ax1[i], q1) && rlt(q1, ax1[i + 1]));
    lemma_bracket_unique(ax1, q1, i);
    assert(rle(ax2[j], q2) && rlt(q2, ax2[j + 1]));
    lemma_bracket_unique(ax2, q2, j);
    let c = cubic2_c(ax1, ax2, ys, q1, q2);
    assert(c is Some);
    let v = c.unwrap();
    assert(grid2_res(g, q1, q2)->Ok_0 == v);
    let colj = col(ys, n1, n2, j);
    assert(cubic1_c(ax1, colj, q1, i) is Some);
    let w1 = cubic1_c(ax1, colj, q1, i).unwrap();
    assert(fits(w1));
    assert forall|m: int| 0 <= m < n1 implies fits(#[trigger] colj[m]) by {
        lemma_rowmajor(m, j, n1, n2);
        assert(colj[m] == ys[m * n2 + j]);
        assert(fits(ys[m * n2 + j]));
    }
    lemma_cubic1_at_node(ax1, colj, i);
    lemma_rowmajor(i, j, n1, n2);
    assert(colj[i] == ys[i * n2 + j]);
    let v1 = norm_v(w1);
    lemma_norm_v_eq(w1);
    let w2 = cubic1_c(ax1, col(ys, n1, n2, j + 1), q1, i).unwrap();
    let v2 = norm_v(w2);
    let dx20 = rsub(ax2[j], ax2[j - 1]);
    let dx21 = rsub(ax2[j + 1], ax2[j]);
    let dx22 = rsub(ax2[j + 2], ax2[j + 1]);
    let d21 = rsub(v2, v1);
    let v0 = norm_v(cubic1_c(ax1, col(ys, n1, n2, j - 1), q1, i).unwrap());
    let v3 = norm_v(cubic1_c(ax1, col(ys, n1, n2, j + 2), q1, i).unwrap());
    let d10 = rsub(v1, v0);
    let pl = rmul(d10, dx21);
    let pdl = rdiv(pl, dx20);
    let sl = radd(d21, pdl);
    let lower = crate::rat::rhalf(sl);
    let d32 = rsub(v3, v2);
    let pu = rmul(d32, dx21);
    let pdu = rdiv(pu, dx22);
    let su = radd(d21, pdu);
    let upper = crate::rat::rhalf(su);
    let qd = rsub(q2, ax2[j]);
    assert(qd.n == 0);
    lemma_rsub_pos(ax2[j], ax2[j + 1]);
    let t = rdiv(qd, dx21);
    assert(fits(t));
    assert(t.n == 0);
    assert(fits(lower) && fits(upper));
    assert(v == hermite(t, v1, v2, lower, upper));
    assert(fits(v));
    assert(wf_v(v1) && wf_v(v2));
    lemma_hermite_at_node(t, v1, v2, lower, upper);
    crate::rat::lemma_rat_eq_trans(v, v1, w1);
    crate::rat::lemma_rat_eq_trans(v, w1, colj[i]);
}

} // verus!
