use core::str::FromStr;

use zuck::units::TimeUnit;
use zuck::util::CheckedU128;
use zuck::util::CheckedU64;
use zuck::Duration;
use zuck::DurationConversionError;
use zuck::FormatterError;
use zuck::FormatterOptions;
use zuck::MAX_DATA_CHUNK_LENGTH;

fn parse(s: &str) -> Result<Duration, FormatterError> {
    Duration::from_str(s)
}

// Scalar round trips: decomposing a checked total reproduces the total.

#[test]
fn nanosecond_total_round_trip() {
    let d = parse("1y2mo3d4h5m6s7ms8μs9ns").unwrap();
    let total = d.into_nanoseconds().unwrap();
    let again = Duration::from_nanoseconds(total);
    assert_eq!(again.into_nanoseconds().unwrap(), total);
}

#[test]
fn second_total_round_trip() {
    let d = parse("7y11mo29d23h59m59s").unwrap();
    let total = d.into_seconds().unwrap();
    let again = Duration::from_seconds(total);
    assert_eq!(again.into_seconds().unwrap(), total);
}

#[test]
fn second_decomposition_can_leave_thirty_days() {
    // 30 plain days in seconds sit below the 30.44-day month constant,
    // so the greedy decomposition leaves the days field at 30.
    let d = Duration::from_seconds(2_592_000);
    assert_eq!(d.days, 30);
    assert_eq!(d.months, 0);
}

// Idempotence of normalization.

#[test]
fn normalize_twice_is_normalize_once() {
    let d = parse("5000ns 3000ms 90m 50h 100d 25mo").unwrap();
    let once = d.clone().normalize();
    let twice = d.normalize().normalize();
    assert_eq!(once, twice);
}

#[test]
fn normalize_example() {
    let d = Duration {
        milliseconds: 50020,
        seconds: 150,
        minutes: 200,
        hours: 49,
        days: 35,
        months: 28,
        ..Default::default()
    };
    let expected = Duration {
        milliseconds: 20,
        seconds: 20,
        minutes: 23,
        hours: 4,
        days: 7,
        months: 5,
        years: 2,
        ..Default::default()
    };
    assert_eq!(d.normalize(), expected);
}

// Overflow behavior of the checked and unchecked second totals.

#[test]
fn into_seconds_overflow_is_reported() {
    let d = parse("99999999999999y").unwrap();
    assert_eq!(d.into_seconds(), Err(DurationConversionError::IntOverflow));
}

#[test]
fn into_seconds_unchecked_wraps() {
    let d = parse("99999999999999y").unwrap();
    let expected = (99999999999999u128 * 31_557_600u128 % (1u128 << 64)) as u64;
    assert_eq!(d.into_seconds_unchecked(), expected);
}

#[test]
fn into_nanoseconds_overflow_is_reported() {
    let d = Duration {
        years: u64::MAX,
        ..Default::default()
    };
    assert_eq!(
        d.into_nanoseconds(),
        Err(DurationConversionError::IntOverflow)
    );
}

// Week and day interaction.

#[test]
fn week_then_day_adds_into_days() {
    assert_eq!(parse("1w3d").unwrap().days, 10);
}

#[test]
fn day_then_week_adds_into_days() {
    assert_eq!(parse("3d1w").unwrap().days, 10);
}

#[test]
fn day_twice_is_repeated() {
    assert_eq!(
        parse("3d3d"),
        Err(FormatterError::TimeUnitRepeated {
            start: 3,
            end: 4,
            unit: TimeUnit::Day,
            value: 3,
        })
    );
}

#[test]
fn week_twice_is_repeated() {
    assert_eq!(
        parse("1w1w"),
        Err(FormatterError::TimeUnitRepeated {
            start: 3,
            end: 4,
            unit: TimeUnit::Week,
            value: 1,
        })
    );
}

#[test]
fn other_unit_twice_is_repeated() {
    assert_eq!(
        parse("2mo3h1mo5s"),
        Err(FormatterError::TimeUnitRepeated {
            start: 6,
            end: 8,
            unit: TimeUnit::Month,
            value: 1,
        })
    );
}

// Zero formatting.

#[test]
fn format_zero_short() {
    let d = Duration::default();
    assert_eq!(d.format(&FormatterOptions::default()), "0ns");
}

#[test]
fn format_zero_long() {
    let d = Duration::default();
    let result = d.format(&FormatterOptions {
        long_unit_names: true,
        ..Default::default()
    });
    assert_eq!(result, "0 nanoseconds");
}

#[test]
fn format_zero_fields_shown_on_request() {
    let d = Duration::default();
    let result = d.format(&FormatterOptions {
        show_value_if_zero: true,
        ..Default::default()
    });
    assert_eq!(result, "0y0mo0d0h0m0s0ms0μs0ns");
}

#[test]
fn format_singular_long_names() {
    let d = parse("1y1mo1d1h1m1s1ms1μs1ns").unwrap();
    let result = d.format(&FormatterOptions {
        long_unit_names: true,
        ..Default::default()
    });
    assert_eq!(
        result,
        "1 year 1 month 1 day 1 hour 1 minute 1 second 1 millisecond 1 microsecond 1 nanosecond"
    );
}

// Alias exhaustiveness: every listed alias parses to its documented unit.

fn assert_aliases(aliases: &[&str], expected: Duration) {
    for alias in aliases {
        let input = format!("4{}", alias);
        assert_eq!(parse(&input).unwrap(), expected, "alias {:?}", alias);
        let spaced = format!("4 {}", alias);
        assert_eq!(parse(&spaced).unwrap(), expected, "alias {:?}", alias);
    }
}

#[test]
fn aliases_nanoseconds() {
    let aliases = [
        "ns",
        "nsec",
        "nsecs",
        "nanosec",
        "nanosecs",
        "nanosecond",
        "nanoseconds",
    ];
    let expected = Duration {
        nanoseconds: 4,
        ..Default::default()
    };
    assert_aliases(&aliases, expected);
}

#[test]
fn aliases_microseconds() {
    let aliases = [
        "μs",
        "us",
        "usec",
        "usecs",
        "microsec",
        "microsecs",
        "microsecond",
        "microseconds",
    ];
    let expected = Duration {
        microseconds: 4,
        ..Default::default()
    };
    assert_aliases(&aliases, expected);
}

#[test]
fn aliases_milliseconds() {
    let aliases = ["ms", "msec", "msecs", "millisecond", "milliseconds"];
    let expected = Duration {
        milliseconds: 4,
        ..Default::default()
    };
    assert_aliases(&aliases, expected);
}

#[test]
fn aliases_seconds() {
    let aliases = ["s", "sec", "secs", "second", "seconds"];
    let expected = Duration {
        seconds: 4,
        ..Default::default()
    };
    assert_aliases(&aliases, expected);
}

#[test]
fn aliases_minutes() {
    let aliases = ["m", "min", "mins", "minute", "minutes"];
    let expected = Duration {
        minutes: 4,
        ..Default::default()
    };
    assert_aliases(&aliases, expected);
}

#[test]
fn aliases_hours() {
    let aliases = ["h", "hr", "hrs", "hour", "hours"];
    let expected = Duration {
        hours: 4,
        ..Default::default()
    };
    assert_aliases(&aliases, expected);
}

#[test]
fn aliases_days() {
    let aliases = ["d", "day", "days"];
    let expected = Duration {
        days: 4,
        ..Default::default()
    };
    assert_aliases(&aliases, expected);
}

#[test]
fn aliases_weeks() {
    let aliases = ["w", "wk", "wks", "week", "weeks"];
    let expected = Duration {
        days: 28,
        ..Default::default()
    };
    assert_aliases(&aliases, expected);
}

#[test]
fn aliases_months() {
    let aliases = ["mo", "month", "months"];
    let expected = Duration {
        months: 4,
        ..Default::default()
    };
    assert_aliases(&aliases, expected);
}

#[test]
fn aliases_years() {
    let aliases = ["y", "yr", "yrs", "year", "years"];
    let expected = Duration {
        years: 4,
        ..Default::default()
    };
    assert_aliases(&aliases, expected);
}

// Every parse error on an input that provokes it.

#[test]
fn error_empty_input() {
    assert_eq!(parse(""), Err(FormatterError::EmptyInput));
}

#[test]
fn error_number_expected() {
    assert_eq!(
        parse("dad2bm"),
        Err(FormatterError::NumberExpected {
            value: 'd',
            index: 0,
        })
    );
}

#[test]
fn error_number_expected_after_unit() {
    assert_eq!(
        parse("3d  2h"),
        Err(FormatterError::NumberExpected {
            value: ' ',
            index: 3,
        })
    );
}

#[test]
fn error_unknown_unit() {
    assert_eq!(
        parse("23yays"),
        Err(FormatterError::UnknownUnit {
            start: 2,
            end: 6,
            input_unit: "yays".to_string(),
            value: 23,
        })
    );
}

#[test]
fn error_value_without_unit() {
    assert_eq!(parse("15"), Err(FormatterError::ValueWithoutUnit));
    assert_eq!(parse("15 "), Err(FormatterError::ValueWithoutUnit));
}

#[test]
fn error_value_too_long() {
    let n = "9".repeat(MAX_DATA_CHUNK_LENGTH + 1);
    assert_eq!(
        parse(&format!("{n}d")),
        Err(FormatterError::InputIsTooLong)
    );
}

#[test]
fn error_unit_too_long() {
    let n = "d".repeat(MAX_DATA_CHUNK_LENGTH + 1);
    assert_eq!(
        parse(&format!("9{n}")),
        Err(FormatterError::InputIsTooLong)
    );
}

#[test]
fn error_value_out_of_range() {
    assert_eq!(
        parse("99999999999999999999999999yrs"),
        Err(FormatterError::ValueParseError)
    );
}

#[test]
fn largest_value_parses() {
    let d = parse("18446744073709551615s").unwrap();
    assert_eq!(d.seconds, u64::MAX);
}

// Host duration interop.

#[test]
fn from_rs_duration_as_secs_decomposes() {
    let rdur = core::time::Duration::from_secs(90061);
    let d = Duration::from_rs_duration_as_secs(rdur).unwrap();
    let expected = Duration {
        days: 1,
        hours: 1,
        minutes: 1,
        seconds: 1,
        ..Default::default()
    };
    assert_eq!(d, expected);
}

#[test]
fn from_rs_duration_as_nanos_decomposes() {
    let rdur = core::time::Duration::new(6, 5_000);
    let d = Duration::from_rs_duration_as_nanos(rdur).unwrap();
    let expected = Duration {
        seconds: 6,
        microseconds: 5,
        ..Default::default()
    };
    assert_eq!(d, expected);
}

// Small helpers.

#[test]
fn plural_applies_to_everything_but_one() {
    assert!(zuck::should_apply_plural(0));
    assert!(!zuck::should_apply_plural(1));
    assert!(zuck::should_apply_plural(2));
}

#[test]
fn checked_accumulators() {
    assert_eq!(CheckedU64::new(5).add_mul_result(2, 3).0, Some(11));
    assert_eq!(CheckedU64::new(1).add_mul_result(u64::MAX, 2).0, None);
    // once failed, later steps stay failed
    assert_eq!(
        CheckedU64::new(1).add_mul_result(u64::MAX, 2).add_mul_result(1, 1).0,
        None
    );
    assert_eq!(
        CheckedU128::new(7).add_mul_result(10, 10).0,
        Some(107)
    );
    assert_eq!(
        CheckedU128::new(u128::MAX).add_mul_result(1, 1).0,
        None
    );
}

#[test]
fn time_unit_titles() {
    assert_eq!(TimeUnit::Day.title(), "Day");
    assert_eq!(TimeUnit::Microsecond.title(), "Microsecond");
}

// Parse then format in canonical short order is an exact text round trip.

#[test]
fn canonical_text_round_trip() {
    for text in ["2d3h15m", "1y2mo25d5h6m7s8ms9μs10ns", "0ns", "42s"] {
        let d = parse(text).unwrap();
        assert_eq!(d.format(&FormatterOptions::default()), text);
    }
}

#[test]
fn error_messages() {
    assert_eq!(
        FormatterError::NumberExpected {
            value: 'x',
            index: 4,
        }
        .message(),
        "expected number at index 4 but received x"
    );
    assert_eq!(
        FormatterError::UnknownUnit {
            start: 2,
            end: 6,
            input_unit: "yays".to_string(),
            value: 23,
        }
        .message(),
        "unknown time unit \"yays\" was provided, assigned number for it was 23"
    );
    assert_eq!(
        FormatterError::TimeUnitRepeated {
            start: 3,
            end: 4,
            unit: TimeUnit::Week,
            value: 1,
        }
        .message(),
        "unit Week was provided 2x times or more"
    );
    assert_eq!(
        FormatterError::EmptyInput.message(),
        "input is empty"
    );
}
