//! Second-based conversion constants: how many seconds one of each larger
//! unit lasts.
//!
//! The month and year constants use the fixed approximations of 30.44 days
//! per month and 365.25 days per year. They are given as exact decimal
//! constants and are deliberately independent of the nanosecond-based table.

use vstd::prelude::*;

verus! {

/// A count of whole seconds.
pub type Second = u64;

/// Seconds per second.
pub const SECOND: Second = 1;

/// Seconds per minute.
pub const MINUTE: Second = SECOND * 60;

/// Seconds per hour.
pub const HOUR: Second = MINUTE * 60;

/// Seconds per day.
pub const DAY: Second = HOUR * 24;

/// Seconds per month, from 30.44 days per month.
pub const MONTH: Second = 2_630_016;

/// Seconds per year, from 365.25 days per year.
pub const YEAR: Second = 31_557_600;

} // verus!
