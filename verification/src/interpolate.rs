//! The interpolation result type and the capability every interpolator offers.

use crate::rat::{Rat, RatV};
use vstd::prelude::*;

verus! {

/// Conditions under which an evaluator returns no value.
///
/// Extrapolation is an expected, recoverable condition that callers branch
/// on: the evaluator never extrapolates silently.  The remaining variants
/// surface configuration errors of the scattered evaluator and the machine
/// limit of the exact rational arithmetic.
#[derive(Clone, Copy, Debug)]
pub enum InterpolationError {
    /// The queried coordinate is at or above the maximum of an axis.
    ExtrapolationAbove(Rat),
    /// The queried coordinate is below the minimum of an axis.
    ExtrapolationBelow(Rat),
    /// An exact intermediate value did not fit the `i64` rational range.
    RangeExceeded,
    /// The scattered evaluator was queried before a neighbour finder was set.
    MissingFinder,
    /// The neighbour finder returned no identifiers.
    NoNeighbors,
    /// The neighbour finder returned an identifier outside the dataset.
    UnknownIdentifier,
}

/// The specification-level mirror of [`InterpolationError`].
pub ghost enum ErrV {
    /// Query at or above the axis maximum; carries the query value.
    Above(RatV),
    /// Query below the axis minimum; carries the query value.
    Below(RatV),
    /// Exact arithmetic left the representable range.
    Range,
    /// No neighbour finder was set.
    NoFinder,
    /// The neighbour set was empty.
    Empty,
    /// A neighbour identifier did not resolve to a stored sample.
    BadId,
}

/// The value of an interpolation result, for stating contracts.
pub open spec fn res_v(r: Result<Rat, InterpolationError>) -> Result<RatV, ErrV> {
    match r {
        Ok(v) => Ok(v@),
        Err(InterpolationError::ExtrapolationAbove(q)) => Err(ErrV::Above(q@)),
        Err(InterpolationError::ExtrapolationBelow(q)) => Err(ErrV::Below(q@)),
        Err(InterpolationError::RangeExceeded) => Err(ErrV::Range),
        Err(InterpolationError::MissingFinder) => Err(ErrV::NoFinder),
        Err(InterpolationError::NoNeighbors) => Err(ErrV::Empty),
        Err(InterpolationError::UnknownIdentifier) => Err(ErrV::BadId),
    }
}

/// One sample of a scattered dataset: a point and the value at it.
pub struct Input<Point> {
    /// The sample's location.
    pub point: Point,
    /// The sample's value.
    pub value: Rat,
}

/// Methods which all interpolators must implement.
///
/// An implementation fixes, through its two specification members, exactly
/// which queries it accepts and which result each accepted query produces;
/// `interpolate` is then bound to that description.
pub trait Interpolator<T>: Sized {
    /// The queries this evaluator accepts.
    spec fn interpolate_req(&self, query: T) -> bool;

    /// The exact result of the interpolation for an accepted query.
    spec fn spec_interpolate(&self, query: T) -> Result<RatV, ErrV>;

    /// Produce the result of the interpolation for a (possibly
    /// multi-dimensional) point `query`.
    fn interpolate(&self, query: T) -> (r: Result<Rat, InterpolationError>)
        requires
            self.interpolate_req(query),
        ensures
            res_v(r) == self.spec_interpolate(query),
            r matches Ok(v) ==> v.wf(),
    ;
}

} // verus!
