//! Interpolation of a scalar function known at a finite set of sample points.
//!
//! Two regimes are supported: samples arranged on a structured axis-aligned
//! grid, interpolated with cubic Hermite splines, and samples scattered in a
//! metric space, interpolated by inverse-distance weighting over a queryable
//! set of nearest neighbours.
//!
//! All coordinates and sample values are exact rationals ([`rat::Rat`]), so
//! every evaluator's result is pinned down exactly by its contract.

pub mod rat;

pub mod interpolate;

pub mod grid;

pub mod metric;

pub mod scatter;
