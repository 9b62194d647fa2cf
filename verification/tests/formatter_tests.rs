use core::str::FromStr;

use zuck::Duration;
use zuck::FormatterOptions;

#[test]
fn from_str_normal() {
    let result =
        Duration::from_str("6yr3mo2d5h7m20s600ms200microsec80ns").expect("fail on valid input");
    let expected = Duration {
        years: 6,
        months: 3,
        days: 2,
        hours: 5,
        minutes: 7,
        seconds: 20,
        milliseconds: 600,
        microseconds: 200,
        nanoseconds: 80,
    };

    assert_eq!(result, expected);
}

#[test]
fn from_str_with_spaces() {
    let result = Duration::from_str("3 days 2 hours 1 minute").expect("fail on valid input");

    let expected = Duration {
        days: 3,
        hours: 2,
        minutes: 1,
        ..Default::default()
    };

    assert_eq!(result, expected);
}

#[test]
fn from_str_larger_non_ascii_matching() {
    let result = Duration::from_str("200μs").unwrap();
    let expected = Duration {
        microseconds: 200,
        ..Default::default()
    };

    assert_eq!(result, expected);
}

#[test]
fn into_string() {
    let orig = "2d3h15m";
    let result = Duration::from_str(orig)
        .expect("fail on valid input")
        .format(&FormatterOptions::default());

    assert_eq!(orig, result)
}

#[test]
fn into_string_with_long_unit_names() {
    let d = Duration::from_str("1yr2mo3w4d5h6m7s8ms9microsec10ns").expect("fail on valid input");
    let result = d.format(&FormatterOptions {
        long_unit_names: true,
        ..Default::default()
    });

    assert_eq!(result,
        "1 year 2 months 25 days 5 hours 6 minutes 7 seconds 8 milliseconds 9 microseconds 10 nanoseconds");
}

#[test]
fn into_string_with_short_unit_names() {
    let d =
        Duration::from_str("1year2mo3weeks4d5h6m7s8ms9microsec10ns").expect("fail on valid input");
    let result = d.format(&FormatterOptions {
        long_unit_names: false,
        ..Default::default()
    });

    assert_eq!(result, "1y2mo25d5h6m7s8ms9μs10ns");
}

#[test]
fn into_string_no_nanoseconds() {
    let d = Duration::from_str("1yr2mo3w4d5h6m7s8ms9microsec10ns").expect("fail on valid input");
    let result = d.format(&FormatterOptions {
        long_unit_names: false,
        show_nanoseconds: false,
        ..Default::default()
    });

    assert_eq!(result, "1y2mo25d5h6m7s8ms9μs");
}

#[test]
fn into_string_no_microseconds() {
    let d = Duration::from_str("1yr2mo3w4d5h6m7s8ms9microsec10ns").expect("fail on valid input");
    let result = d.format(&FormatterOptions {
        long_unit_names: false,
        show_microseconds: false,
        ..Default::default()
    });

    assert_eq!(result, "1y2mo25d5h6m7s8ms10ns");
}

#[test]
fn into_string_no_milliseconds() {
    let d = Duration::from_str("1yr2mo3w4d5h6m7s8ms9microsec10ns").expect("fail on valid input");
    let result = d.format(&FormatterOptions {
        long_unit_names: false,
        show_milliseconds: false,
        ..Default::default()
    });

    assert_eq!(result, "1y2mo25d5h6m7s9μs10ns");
}

#[test]
fn into_string_no_seconds() {
    let d = Duration::from_str("1yr2mo3w4d5h6m7s8ms9microsec10ns").expect("fail on valid input");
    let result = d.format(&FormatterOptions {
        long_unit_names: false,
        show_seconds: false,
        ..Default::default()
    });

    assert_eq!(result, "1y2mo25d5h6m8ms9μs10ns");
}

#[test]
fn into_string_no_minutes() {
    let d = Duration::from_str("1yr2mo3w4d5h6m7s8ms9microsec10ns").expect("fail on valid input");
    let result = d.format(&FormatterOptions {
        long_unit_names: false,
        show_minutes: false,
        ..Default::default()
    });

    assert_eq!(result, "1y2mo25d5h7s8ms9μs10ns");
}

#[test]
fn into_string_no_hours() {
    let d = Duration::from_str("1yr2mo3w4d5h6m7s8ms9microsec10ns").expect("fail on valid input");
    let result = d.format(&FormatterOptions {
        long_unit_names: false,
        show_hours: false,
        ..Default::default()
    });

    assert_eq!(result, "1y2mo25d6m7s8ms9μs10ns");
}

#[test]
fn into_string_no_days() {
    let d = Duration::from_str("1yr2mo3w4d5h6m7s8ms9microsec10ns").expect("fail on valid input");
    let result = d.format(&FormatterOptions {
        long_unit_names: false,
        show_days: false,
        ..Default::default()
    });

    assert_eq!(result, "1y2mo5h6m7s8ms9μs10ns");
}

#[test]
fn into_string_no_months() {
    let d = Duration::from_str("1yr2mo3w4d5h6m7s8ms9microsec10ns").expect("fail on valid input");
    let result = d.format(&FormatterOptions {
        long_unit_names: false,
        show_months: false,
        ..Default::default()
    });

    assert_eq!(result, "1y25d5h6m7s8ms9μs10ns");
}

#[test]
fn into_string_no_years() {
    let d = Duration::from_str("1yr2mo3w4d5h6m7s8ms9microsec10ns").expect("fail on valid input");
    let result = d.format(&FormatterOptions {
        long_unit_names: false,
        show_years: false,
        ..Default::default()
    });

    assert_eq!(result, "2mo25d5h6m7s8ms9μs10ns");
}
