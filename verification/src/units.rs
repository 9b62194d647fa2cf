//! Time units and their input aliases.
//!
//! A [`TimeUnit`] names one of the ten units a textual duration may mention.
//! Week is an input-only unit: it folds into the days field (at seven days a
//! week) while parsing and is never a storage field of a duration value.

use vstd::prelude::*;
use vstd::string::StringExecFns;

pub mod nanosecond;
pub mod second;

verus! {

/// One of the time units recognized in textual input.
#[derive(Debug, Clone, Copy, PartialEq, Eq)]
pub enum TimeUnit {
    Nanosecond,
    Microsecond,
    Millisecond,
    Second,
    Minute,
    Hour,
    Day,
    Week,
    Month,
    Year,
}

/// Failure when a candidate unit string matches no alias.
#[derive(Debug, PartialEq, Eq)]
pub enum Error {
    UnknownUnit,
}

/// The fixed, case-sensitive alias table: which unit a candidate unit
/// string names, or `None` when it names none.
pub open spec fn unit_for_alias(s: Seq<char>) -> Option<TimeUnit> {
    if s == "ns"@ || s == "nsec"@ || s == "nsecs"@ || s == "nanosec"@ || s == "nanosecs"@
        || s == "nanosecond"@ || s == "nanoseconds"@ {
        Some(TimeUnit::Nanosecond)
    } else if s == "μs"@ || s == "us"@ || s == "usec"@ || s == "usecs"@ || s == "microsec"@
        || s == "microsecs"@ || s == "microsecond"@ || s == "microseconds"@ {
        Some(TimeUnit::Microsecond)
    } else if s == "ms"@ || s == "msec"@ || s == "msecs"@ || s == "millisecond"@
        || s == "milliseconds"@ {
        Some(TimeUnit::Millisecond)
    } else if s == "s"@ || s == "sec"@ || s == "secs"@ || s == "second"@ || s == "seconds"@ {
        Some(TimeUnit::Second)
    } else if s == "m"@ || s == "min"@ || s == "mins"@ || s == "minute"@ || s == "minutes"@ {
        Some(TimeUnit::Minute)
    } else if s == "h"@ || s == "hr"@ || s == "hrs"@ || s == "hour"@ || s == "hours"@ {
        Some(TimeUnit::Hour)
    } else if s == "d"@ || s == "day"@ || s == "days"@ {
        Some(TimeUnit::Day)
    } else if s == "w"@ || s == "wk"@ || s == "wks"@ || s == "week"@ || s == "weeks"@ {
        Some(TimeUnit::Week)
    } else if s == "mo"@ || s == "month"@ || s == "months"@ {
        Some(TimeUnit::Month)
    } else if s == "y"@ || s == "yr"@ || s == "yrs"@ || s == "year"@ || s == "years"@ {
        Some(TimeUnit::Year)
    } else {
        None
    }
}

/// Relies on `str`'s `PartialEq` implementation: two string slices are
/// equal exactly when their character sequences are equal.
#[verifier::external_body]
fn str_eq(a: &str, b: &str) -> (r: bool)
    ensures
        r == (a@ == b@),
{
    a == b
}

/// The long display name of a unit, capitalized and singular.
pub open spec fn spec_unit_title(u: TimeUnit) -> Seq<char> {
    match u {
        TimeUnit::Nanosecond => "Nanosecond"@,
        TimeUnit::Microsecond => "Microsecond"@,
        TimeUnit::Millisecond => "Millisecond"@,
        TimeUnit::Second => "Second"@,
        TimeUnit::Minute => "Minute"@,
        TimeUnit::Hour => "Hour"@,
        TimeUnit::Day => "Day"@,
        TimeUnit::Week => "Week"@,
        TimeUnit::Month => "Month"@,
        TimeUnit::Year => "Year"@,
    }
}

impl TimeUnit {
    /// Resolves a candidate unit string against the fixed alias table,
    /// case-sensitively.
    pub fn from_alias(s: &str) -> (result: Result<TimeUnit, Error>)
        ensures
            result == match unit_for_alias(s@) {
                Some(u) => Ok::<TimeUnit, Error>(u),
                None => Err::<TimeUnit, Error>(Error::UnknownUnit),
            },
    {
        if str_eq(s, "ns") || str_eq(s, "nsec") || str_eq(s, "nsecs") || str_eq(s, "nanosec")
            || str_eq(s, "nanosecs") || str_eq(s, "nanosecond") || str_eq(s, "nanoseconds") {
            Ok(TimeUnit::Nanosecond)
        } else if str_eq(s, "μs") || str_eq(s, "us") || str_eq(s, "usec") || str_eq(s, "usecs")
            || str_eq(s, "microsec") || str_eq(s, "microsecs") || str_eq(s, "microsecond")
            || str_eq(s, "microseconds") {
            Ok(TimeUnit::Microsecond)
        } else if str_eq(s, "ms") || str_eq(s, "msec") || str_eq(s, "msecs")
            || str_eq(s, "millisecond") || str_eq(s, "milliseconds") {
            Ok(TimeUnit::Millisecond)
        } else if str_eq(s, "s") || str_eq(s, "sec") || str_eq(s, "secs") || str_eq(s, "second")
            || str_eq(s, "seconds") {
            Ok(TimeUnit::Second)
        } else if str_eq(s, "m") || str_eq(s, "min") || str_eq(s, "mins") || str_eq(s, "minute")
            || str_eq(s, "minutes") {
            Ok(TimeUnit::Minute)
        } else if str_eq(s, "h") || str_eq(s, "hr") || str_eq(s, "hrs") || str_eq(s, "hour")
            || str_eq(s, "hours") {
            Ok(TimeUnit::Hour)
        } else if str_eq(s, "d") || str_eq(s, "day") || str_eq(s, "days") {
            Ok(TimeUnit::Day)
        } else if str_eq(s, "w") || str_eq(s, "wk") || str_eq(s, "wks") || str_eq(s, "week")
            || str_eq(s, "weeks") {
            Ok(TimeUnit::Week)
        } else if str_eq(s, "mo") || str_eq(s, "month") || str_eq(s, "months") {
            Ok(TimeUnit::Month)
        } else if str_eq(s, "y") || str_eq(s, "yr") || str_eq(s, "yrs") || str_eq(s, "year")
            || str_eq(s, "years") {
            Ok(TimeUnit::Year)
        } else {
            Err(Error::UnknownUnit)
        }
    }

    /// The long display name of the unit, capitalized and singular.
    pub fn title(&self) -> (result: String)
        ensures
            result@ == spec_unit_title(*self),
    {
        match self {
            TimeUnit::Nanosecond => String::from_str("Nanosecond"),
            TimeUnit::Microsecond => String::from_str("Microsecond"),
            TimeUnit::Millisecond => String::from_str("Millisecond"),
            TimeUnit::Second => String::from_str("Second"),
            TimeUnit::Minute => String::from_str("Minute"),
            TimeUnit::Hour => String::from_str("Hour"),
            TimeUnit::Day => String::from_str("Day"),
            TimeUnit::Week => String::from_str("Week"),
            TimeUnit::Month => String::from_str("Month"),
            TimeUnit::Year => String::from_str("Year"),
        }
    }
}

impl core::str::FromStr for TimeUnit {
    type Err = Error;

    fn from_str(s: &str) -> Result<TimeUnit, Error> {
        TimeUnit::from_alias(s)
    }
}

} // verus!
