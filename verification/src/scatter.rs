//! Interpolation of data points scattered in a metric space.

pub mod commons;

pub mod invdist;

pub mod knn;

pub mod utils;
