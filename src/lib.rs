//! Streaming technical-analysis indicators over price bars, in fixed-point
//! integer arithmetic.
use vstd::prelude::*;

pub mod arith;
pub mod bar;
pub mod result;
pub mod window;
pub mod methods;
pub mod signals;
pub mod text;
pub mod average_directional_index;
pub mod coppock_curve;

verus! {

/// A numeric value in fixed point: `SCALE` stands for one.
pub type ValueType = i64;

/// A period or span length.
pub type PeriodType = u8;

/// The fixed-point unit.
pub const SCALE: i64 = 1_000_000;

/// Bound on the magnitude of any value fed to a smoothing method.
pub const VALUE_LIMIT: i64 = 1_099_511_627_776;

} // verus!
