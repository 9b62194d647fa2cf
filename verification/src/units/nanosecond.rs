//! Nanosecond-based conversion constants: how many nanoseconds one of each
//! larger unit lasts.
//!
//! The month and year constants use the fixed approximations of 30.44 days
//! per month and 365.25 days per year, rounded independently of the
//! second-based table; the two tables do not agree bit for bit and both are
//! kept exactly as given.

use vstd::prelude::*;

verus! {

/// A count of whole nanoseconds.
pub type Nanosecond = u128;

/// Nanoseconds per nanosecond.
pub const NANOSECOND: Nanosecond = 1;

/// Nanoseconds per microsecond.
pub const MICROSECOND: Nanosecond = NANOSECOND * 1000;

/// Nanoseconds per millisecond.
pub const MILLISECOND: Nanosecond = MICROSECOND * 1000;

/// Nanoseconds per second.
pub const SECOND: Nanosecond = MILLISECOND * 1000;

/// Nanoseconds per minute.
pub const MINUTE: Nanosecond = SECOND * 60;

/// Nanoseconds per hour.
pub const HOUR: Nanosecond = MINUTE * 60;

/// Nanoseconds per day.
pub const DAY: Nanosecond = HOUR * 24;

/// Nanoseconds per month, from 30.44 days per month.
pub const MONTH: Nanosecond = 2_630_016_000_000_000_000;

/// Nanoseconds per year, from 365.25 days per year.
pub const YEAR: Nanosecond = 31_556_736_000_000_000_000;

} // verus!
