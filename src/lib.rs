//! Event windows over a stream of bid/ask quotes: trading-calendar gating,
//! an anchored window state machine, calendar features and a fixed byte layout
//! for model tensors.

pub mod util;
pub mod data_info;
pub mod convert;
pub mod chrono_util;
pub mod series;
pub mod series_proc;
pub mod quote;
pub mod label;

use vstd::prelude::*;

verus! {

pub type VersionType = u32;

/// A unique, order-preserving counter for an event within a partition.
pub type EventId = i64;

pub type OffsetId = i64;

/// Milliseconds since the Unix epoch, everywhere.
pub type Timestamp = i64;

/// Byte width of one model value (an IEEE-754 single-precision float).
pub const MODEL_FLOAT_SIZE: usize = 4;

} // verus!
