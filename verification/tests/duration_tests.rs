use core::str::FromStr;

use zuck::units;
use zuck::Duration;

#[test]
fn from_eq_into_seconds() {
    let orig_raw = 60000000 as units::second::Second;
    let orig = Duration::from_seconds(orig_raw);
    let converted_back = orig.into_seconds().unwrap();

    assert_eq!(orig_raw, converted_back);
}

#[test]
fn from_eq_into_nanoseconds() {
    let orig_raw = 6000000000 as units::nanosecond::Nanosecond;
    let orig = Duration::from_nanoseconds(orig_raw);
    let converted_back = orig.into_nanoseconds().unwrap();

    assert_eq!(orig_raw, converted_back);
}

#[test]
fn normalize_normal() {
    let orig = Duration::from_str("28mo35d49h200m150s50020ms").expect("fail on valid input");
    let balanced = orig.clone().normalize();
    assert_ne!(orig, balanced); // orig value != balanced value in this case

    assert_eq!(
        balanced,
        Duration {
            nanoseconds: 0,
            microseconds: 0,
            milliseconds: 20,
            seconds: 20,
            minutes: 23,
            hours: 4,
            days: 7,
            months: 5,
            years: 2
        }
    );
}

#[test]
fn normalize_nothing_to_balance() {
    let result = Duration::from_str("2d50s")
        .expect("fail on valid input")
        .normalize();
    let expected = Duration {
        days: 2,
        seconds: 50,
        ..Default::default()
    };

    assert_eq!(result, expected);
}

#[test]
fn into_seconds() {
    let d = Duration::from_str("3d").expect("fail on valid input");
    let result = d.into_seconds().expect("fail on valid int");
    let expected = 259200 as units::second::Second;

    assert_eq!(result, expected);
}

#[test]
fn into_nanoseconds() {
    let d = Duration::from_str("1m").expect("fail on valid input");
    let result = d.into_nanoseconds().expect("fail on valid int");
    let expected = 60000000000 as units::nanosecond::Nanosecond;

    assert_eq!(result, expected);
}

#[test]
fn from_nanoseconds() {
    let result = Duration::from_nanoseconds(6000000000);
    let expected = Duration {
        seconds: 6,
        ..Default::default()
    };

    assert_eq!(result, expected);
}

#[test]
fn from_seconds() {
    let result = Duration::from_seconds(2000000);
    let expected = Duration {
        nanoseconds: 0,
        microseconds: 0,
        milliseconds: 0,
        seconds: 20,
        minutes: 33,
        hours: 3,
        days: 23,
        months: 0,
        years: 0,
    };
    assert_eq!(2000000, expected.into_seconds().unwrap());

    assert_eq!(result, expected);
}

#[test]
fn from_seconds_large() {
    let result = Duration::from_seconds(200000000);
    let expected = Duration {
        nanoseconds: 0,
        microseconds: 0,
        milliseconds: 0,
        seconds: 56,
        minutes: 18,
        hours: 13,
        days: 1,
        months: 4,
        years: 6,
    };
    assert_eq!(200000000, expected.into_seconds().unwrap());

    assert_eq!(result, expected);
}

#[test]
fn from_rust_duration() {
    let rdur = core::time::Duration::from_secs(6000);
    let result = Duration::try_from(rdur).unwrap();

    assert_eq!(result, Duration::from_nanoseconds(6000_000_000_000));
}
