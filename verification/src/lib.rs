//! Cubic spline interpolation in one dimension: the verified core.
//!
//! Real numbers are carried as IEEE-754 binary64 bit patterns (`u64`), so
//! that ordering, finiteness tests, interval lookup and the bookkeeping of
//! spline containers can be stated and proved exactly.

pub mod binsearch;
pub mod ieee;
pub mod multispline;
pub mod spline;
pub mod table;

pub use crate::binsearch::{binary_search_interval, check_floats, interval_inside, slice_locator};
pub use crate::ieee::{abs, check_float, float_eq, float_gt, float_lt, is_infinite, is_nan, max_abs, min_abs, sign};
pub use crate::multispline::{MultiSpline, Route};
pub use crate::spline::Spline;
pub use crate::table::{csv_columns, TableError};
