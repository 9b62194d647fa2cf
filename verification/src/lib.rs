//! A human-readable duration library.
//!
//! * Parse strings like `15 years 5 weeks 2 hours` or `28m15s10ns` into a
//!   structured [`Duration`] value.
//! * Normalize the fields of a [`Duration`] across unit boundaries.
//! * Convert a [`Duration`] to and from flat scalars (total seconds or total
//!   nanoseconds), in checked and unchecked forms.
//! * Render a [`Duration`] back to text under configurable options.
//!
//! ## Aliases accepted as input when parsing
//!
//! * Nanoseconds: `ns`, `nsec`, `nsecs`, `nanosec`, `nanosecs`, `nanosecond`, `nanoseconds`
//! * Microseconds: `μs`, `us`, `usec`, `usecs`, `microsec`, `microsecs`, `microsecond`, `microseconds`
//! * Milliseconds: `ms`, `msec`, `msecs`, `millisecond`, `milliseconds`
//! * Seconds: `s`, `sec`, `secs`, `second`, `seconds`
//! * Minutes: `m`, `min`, `mins`, `minute`, `minutes`
//! * Hours: `h`, `hr`, `hrs`, `hour`, `hours`
//! * Days: `d`, `day`, `days`
//! * Weeks: `w`, `wk`, `wks`, `week`, `weeks`
//! * Months: `mo`, `month`, `months`
//! * Years: `y`, `yr`, `yrs`, `year`, `years`

pub mod duration;
pub mod formatter;
pub mod units;
pub mod util;

pub use duration::Duration;
pub use duration::Error as DurationConversionError;
pub use formatter::Error as FormatterError;
pub use formatter::FormatterOptions;
pub use formatter::MAX_DATA_CHUNK_LENGTH;
pub use util::should_apply_plural;
