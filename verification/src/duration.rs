//! The structured duration value: nine unsigned fields, normalization
//! across unit boundaries, and checked/unchecked conversion to and from
//! flat scalars (total seconds, total nanoseconds).

use vstd::arithmetic::div_mod::lemma_add_mod_noop;
use vstd::arithmetic::div_mod::lemma_div_is_ordered;
use vstd::arithmetic::div_mod::lemma_fundamental_div_mod;
use vstd::arithmetic::div_mod::lemma_mod_sub_multiples_vanish;
use vstd::arithmetic::div_mod::lemma_small_mod;
use vstd::prelude::*;

use crate::units::nanosecond;
use crate::units::nanosecond::Nanosecond;
use crate::units::second;
use crate::units::second::Second;
use crate::util::CheckedU128;
use crate::util::CheckedU64;

verus! {

/// A duration split into nine unsigned fields. No range invariant is
/// enforced until [`Duration::normalize`] is invoked: any field may hold an
/// arbitrarily large accumulated value.
#[derive(Debug, Clone, PartialEq, Eq, PartialOrd, Ord)]
pub struct Duration {
    pub nanoseconds: u64,
    pub microseconds: u64,
    pub milliseconds: u64,
    pub seconds: u64,
    pub minutes: u64,
    pub hours: u64,
    pub days: u64,
    pub months: u64,
    pub years: u64,
}

/// The mathematical model of a [`Duration`]: the same nine fields as
/// unbounded naturals.
pub struct DurationView {
    pub nanoseconds: nat,
    pub microseconds: nat,
    pub milliseconds: nat,
    pub seconds: nat,
    pub minutes: nat,
    pub hours: nat,
    pub days: nat,
    pub months: nat,
    pub years: nat,
}

impl View for Duration {
    type V = DurationView;

    open spec fn view(&self) -> DurationView {
        DurationView {
            nanoseconds: self.nanoseconds as nat,
            microseconds: self.microseconds as nat,
            milliseconds: self.milliseconds as nat,
            seconds: self.seconds as nat,
            minutes: self.minutes as nat,
            hours: self.hours as nat,
            days: self.days as nat,
            months: self.months as nat,
            years: self.years as nat,
        }
    }
}

/// The all-zero duration model.
pub open spec fn duration_zero() -> DurationView {
    DurationView {
        nanoseconds: 0,
        microseconds: 0,
        milliseconds: 0,
        seconds: 0,
        minutes: 0,
        hours: 0,
        days: 0,
        months: 0,
        years: 0,
    }
}

/// Failure of a checked scalar conversion.
#[derive(Debug, PartialEq, Clone)]
pub enum Error {
    IntOverflow,
}

/// Whether every field sits below its natural bound: the invariant that
/// holds after normalization. Years have no upper bound.
pub open spec fn is_normalized(v: DurationView) -> bool {
    &&& v.nanoseconds < 1000
    &&& v.microseconds < 1000
    &&& v.milliseconds < 1000
    &&& v.seconds < 60
    &&& v.minutes < 60
    &&& v.hours < 24
    &&& v.days < 30
    &&& v.months < 12
}

/// One-directional carry propagation from the smallest unit to the
/// largest: each field folds its overflow into the next-larger field, with
/// months folding at 30 days and years never folding further.
pub open spec fn spec_normalize(v: DurationView) -> DurationView {
    let microseconds = v.microseconds + v.nanoseconds / 1000;
    let milliseconds = v.milliseconds + microseconds / 1000;
    let seconds = v.seconds + milliseconds / 1000;
    let minutes = v.minutes + seconds / 60;
    let hours = v.hours + minutes / 60;
    let days = v.days + hours / 24;
    let months = v.months + days / 30;
    let years = v.years + months / 12;
    DurationView {
        nanoseconds: v.nanoseconds % 1000,
        microseconds: microseconds % 1000,
        milliseconds: milliseconds % 1000,
        seconds: seconds % 60,
        minutes: minutes % 60,
        hours: hours % 24,
        days: days % 30,
        months: months % 12,
        years,
    }
}

/// Whether every intermediate carry of normalization fits in a `u64`, so
/// that the executable carry chain cannot overflow.
pub open spec fn normalize_fits(v: DurationView) -> bool {
    let microseconds = v.microseconds + v.nanoseconds / 1000;
    let milliseconds = v.milliseconds + microseconds / 1000;
    let seconds = v.seconds + milliseconds / 1000;
    let minutes = v.minutes + seconds / 60;
    let hours = v.hours + minutes / 60;
    let days = v.days + hours / 24;
    let months = v.months + days / 30;
    let years = v.years + months / 12;
    &&& microseconds <= u64::MAX
    &&& milliseconds <= u64::MAX
    &&& seconds <= u64::MAX
    &&& minutes <= u64::MAX
    &&& hours <= u64::MAX
    &&& days <= u64::MAX
    &&& months <= u64::MAX
    &&& years <= u64::MAX
}

/// The nominal length of a duration in nanoseconds, counting a month as
/// exactly 30 days and a year as exactly 12 such months. This is the
/// quantity that normalization preserves; the scalar conversions instead
/// use the approximated constant tables.
pub open spec fn nominal_ns(v: DurationView) -> nat {
    v.nanoseconds + 1000 * v.microseconds + 1_000_000 * v.milliseconds + 1_000_000_000 * v.seconds
        + 60_000_000_000 * v.minutes + 3_600_000_000_000 * v.hours + 86_400_000_000_000 * v.days
        + 2_592_000_000_000_000 * v.months + 31_104_000_000_000_000 * v.years
}

/// The total nanosecond count of a duration under the nanosecond-based
/// constant table.
pub open spec fn ns_total(v: DurationView) -> nat {
    v.nanoseconds + v.microseconds * (nanosecond::MICROSECOND as nat) + v.milliseconds * (
    nanosecond::MILLISECOND as nat) + v.seconds * (nanosecond::SECOND as nat) + v.minutes * (
    nanosecond::MINUTE as nat) + v.hours * (nanosecond::HOUR as nat) + v.days * (
    nanosecond::DAY as nat) + v.months * (nanosecond::MONTH as nat) + v.years * (
    nanosecond::YEAR as nat)
}

/// The total second count of a duration under the second-based constant
/// table; subsecond fields contribute their whole-second part.
pub open spec fn sec_total(v: DurationView) -> nat {
    v.nanoseconds / 1_000_000_000 + v.microseconds / 1_000_000 + v.milliseconds / 1000 + v.seconds
        + v.minutes * (second::MINUTE as nat) + v.hours * (second::HOUR as nat) + v.days * (
    second::DAY as nat) + v.months * (second::MONTH as nat) + v.years * (second::YEAR as nat)
}

/// Greedy decomposition of a total nanosecond count, dividing by the
/// largest constant first and assigning the final remainder to the
/// nanoseconds field.
pub open spec fn ns_decompose(n: nat) -> DurationView {
    let years = n / (nanosecond::YEAR as nat);
    let r1 = n % (nanosecond::YEAR as nat);
    let months = r1 / (nanosecond::MONTH as nat);
    let r2 = r1 % (nanosecond::MONTH as nat);
    let days = r2 / (nanosecond::DAY as nat);
    let r3 = r2 % (nanosecond::DAY as nat);
    let hours = r3 / (nanosecond::HOUR as nat);
    let r4 = r3 % (nanosecond::HOUR as nat);
    let minutes = r4 / (nanosecond::MINUTE as nat);
    let r5 = r4 % (nanosecond::MINUTE as nat);
    let seconds = r5 / (nanosecond::SECOND as nat);
    let r6 = r5 % (nanosecond::SECOND as nat);
    let milliseconds = r6 / (nanosecond::MILLISECOND as nat);
    let r7 = r6 % (nanosecond::MILLISECOND as nat);
    let microseconds = r7 / (nanosecond::MICROSECOND as nat);
    let nanoseconds = r7 % (nanosecond::MICROSECOND as nat);
    DurationView {
        nanoseconds,
        microseconds,
        milliseconds,
        seconds,
        minutes,
        hours,
        days,
        months,
        years,
    }
}

/// Greedy decomposition of a total second count, dividing by the largest
/// constant first and assigning the final remainder to the seconds field.
pub open spec fn sec_decompose(n: nat) -> DurationView {
    let years = n / (second::YEAR as nat);
    let r1 = n % (second::YEAR as nat);
    let months = r1 / (second::MONTH as nat);
    let r2 = r1 % (second::MONTH as nat);
    let days = r2 / (second::DAY as nat);
    let r3 = r2 % (second::DAY as nat);
    let hours = r3 / (second::HOUR as nat);
    let r4 = r3 % (second::HOUR as nat);
    let minutes = r4 / (second::MINUTE as nat);
    let seconds = r4 % (second::MINUTE as nat);
    DurationView {
        nanoseconds: 0,
        microseconds: 0,
        milliseconds: 0,
        seconds,
        minutes,
        hours,
        days,
        months,
        years,
    }
}

/// Wrapping addition on `u64` equals addition modulo two to the 64th.
proof fn lemma_wrap_add_u64(x: u64, y: u64)
    ensures
        vstd::wrapping::u64_specs::wrapping_add(x, y) as int == (x + y) % (0x1_0000_0000_0000_0000
            as int),
{
    let m: int = 0x1_0000_0000_0000_0000int;
    if x + y > u64::MAX {
        lemma_mod_sub_multiples_vanish((x + y) as int, m);
        lemma_small_mod((x + y - m) as nat, m as nat);
    } else {
        lemma_small_mod((x + y) as nat, m as nat);
    }
}

/// Wrapping addition on `u128` equals addition modulo two to the 128th.
proof fn lemma_wrap_add_u128(x: u128, y: u128)
    ensures
        vstd::wrapping::u128_specs::wrapping_add(x, y) as int == (x + y)
            % 0x1_0000_0000_0000_0000_0000_0000_0000_0000int,
{
    let m: int = 0x1_0000_0000_0000_0000_0000_0000_0000_0000int;
    if x + y > u128::MAX {
        lemma_mod_sub_multiples_vanish((x + y) as int, m);
        lemma_small_mod((x + y - m) as nat, m as nat);
    } else {
        lemma_small_mod((x + y) as nat, m as nat);
    }
}

/// One step of a wrapping sum of products in the 64-bit domain: given the
/// reduced running total of `sum`, produces the reduced total of
/// `sum + f * c`.
fn wrap_step_u64(total: u64, f: u64, c: u64, Ghost(sum): Ghost<nat>) -> (r: u64)
    requires
        total as nat == sum % 0x1_0000_0000_0000_0000nat,
    ensures
        r as nat == (sum + (f as nat) * (c as nat)) % 0x1_0000_0000_0000_0000nat,
{
    let t = f.wrapping_mul(c);
    proof {
        lemma_wrap_add_u64(total, t);
        lemma_add_mod_noop(sum as int, (f as int) * (c as int), 0x1_0000_0000_0000_0000int);
    }
    total.wrapping_add(t)
}

/// One step of a wrapping sum of products in the 128-bit domain: given the
/// reduced running total of `sum`, produces the reduced total of
/// `sum + f * c`.
fn wrap_step_u128(total: u128, f: u128, c: u128, Ghost(sum): Ghost<nat>) -> (r: u128)
    requires
        total as nat == sum % 0x1_0000_0000_0000_0000_0000_0000_0000_0000nat,
    ensures
        r as nat == (sum + (f as nat) * (c as nat)) % (0x1_0000_0000_0000_0000_0000_0000_0000_0000
            as nat),
{
    let t = f.wrapping_mul(c);
    proof {
        lemma_wrap_add_u128(total, t);
        lemma_add_mod_noop(
            sum as int,
            (f as int) * (c as int),
            0x1_0000_0000_0000_0000_0000_0000_0000_0000int,
        );
    }
    total.wrapping_add(t)
}

/// Relies on `core::time::Duration::as_secs`: reads the number of whole
/// seconds in a host duration value.
#[verifier::external_body]
fn host_duration_secs(value: &core::time::Duration) -> u64 {
    value.as_secs()
}

/// Relies on `core::time::Duration::as_nanos`: reads the total number of
/// nanoseconds in a host duration value.
#[verifier::external_body]
fn host_duration_nanos(value: &core::time::Duration) -> u128 {
    value.as_nanos()
}

impl Default for Duration {
    /// The all-zero duration.
    fn default() -> (result: Duration)
        ensures
            result@ == duration_zero(),
    {
        Duration {
            nanoseconds: 0,
            microseconds: 0,
            milliseconds: 0,
            seconds: 0,
            minutes: 0,
            hours: 0,
            days: 0,
            months: 0,
            years: 0,
        }
    }
}

impl Duration {
    /// Normalizes the time units within the duration so that each field
    /// sits below its natural bound: fewer than 1000 nanoseconds in a
    /// microsecond, fewer than 1000 microseconds in a millisecond, and so
    /// on, with months folding at 30 days.
    pub fn normalize(self) -> (result: Duration)
        requires
            normalize_fits(self@),
        ensures
            result@ == spec_normalize(self@),
    {
        let mut d = self;
        if d.nanoseconds >= 1000 {
            d.microseconds = d.microseconds + d.nanoseconds / 1000;
            d.nanoseconds = d.nanoseconds % 1000;
        }
        if d.microseconds >= 1000 {
            d.milliseconds = d.milliseconds + d.microseconds / 1000;
            d.microseconds = d.microseconds % 1000;
        }
        if d.milliseconds >= 1000 {
            d.seconds = d.seconds + d.milliseconds / 1000;
            d.milliseconds = d.milliseconds % 1000;
        }
        if d.seconds >= 60 {
            d.minutes = d.minutes + d.seconds / 60;
            d.seconds = d.seconds % 60;
        }
        if d.minutes >= 60 {
            d.hours = d.hours + d.minutes / 60;
            d.minutes = d.minutes % 60;
        }
        if d.hours >= 24 {
            d.days = d.days + d.hours / 24;
            d.hours = d.hours % 24;
        }
        if d.days >= 30 {
            d.months = d.months + d.days / 30;
            d.days = d.days % 30;
        }
        if d.months >= 12 {
            d.years = d.years + d.months / 12;
            d.months = d.months % 12;
        }
        d
    }

    /// Converts the duration into nanoseconds without checking for
    /// overflow: the result wraps modulo two to the 128th power.
    pub fn into_nanoseconds_unchecked(&self) -> (result: Nanosecond)
        ensures
            result as nat == ns_total(self@) % 0x1_0000_0000_0000_0000_0000_0000_0000_0000nat,
    {
        let ghost m: nat = 0x1_0000_0000_0000_0000_0000_0000_0000_0000nat;
        let ghost v = self@;
        let ghost s1 = v.nanoseconds + v.microseconds * (nanosecond::MICROSECOND as nat);
        let ghost s2 = s1 + v.milliseconds * (nanosecond::MILLISECOND as nat);
        let ghost s3 = s2 + v.seconds * (nanosecond::SECOND as nat);
        let ghost s4 = s3 + v.minutes * (nanosecond::MINUTE as nat);
        let ghost s5 = s4 + v.hours * (nanosecond::HOUR as nat);
        let ghost s6 = s5 + v.days * (nanosecond::DAY as nat);
        let ghost s7 = s6 + v.months * (nanosecond::MONTH as nat);

        let mut total: u128 = self.nanoseconds as u128;
        proof {
            lemma_small_mod(v.nanoseconds, m);
        }
        total = wrap_step_u128(
            total,
            self.microseconds as u128,
            nanosecond::MICROSECOND,
            Ghost(v.nanoseconds),
        );
        total = wrap_step_u128(
            total,
            self.milliseconds as u128,
            nanosecond::MILLISECOND,
            Ghost(s1),
        );
        total = wrap_step_u128(total, self.seconds as u128, nanosecond::SECOND, Ghost(s2));
        total = wrap_step_u128(total, self.minutes as u128, nanosecond::MINUTE, Ghost(s3));
        total = wrap_step_u128(total, self.hours as u128, nanosecond::HOUR, Ghost(s4));
        total = wrap_step_u128(total, self.days as u128, nanosecond::DAY, Ghost(s5));
        total = wrap_step_u128(total, self.months as u128, nanosecond::MONTH, Ghost(s6));
        total = wrap_step_u128(total, self.years as u128, nanosecond::YEAR, Ghost(s7));
        total
    }

    /// Converts the duration into nanoseconds with overflow checking:
    /// succeeds exactly when the total fits in the 128-bit domain.
    pub fn into_nanoseconds(&self) -> (result: Result<Nanosecond, Error>)
        ensures
            result == if ns_total(self@) <= u128::MAX as nat {
                Ok::<Nanosecond, Error>(ns_total(self@) as u128)
            } else {
                Err::<Nanosecond, Error>(Error::IntOverflow)
            },
    {
        let acc = CheckedU128::new(self.nanoseconds as u128).add_mul_result(
            self.microseconds as u128,
            nanosecond::MICROSECOND,
        ).add_mul_result(self.milliseconds as u128, nanosecond::MILLISECOND).add_mul_result(
            self.seconds as u128,
            nanosecond::SECOND,
        ).add_mul_result(self.minutes as u128, nanosecond::MINUTE).add_mul_result(
            self.hours as u128,
            nanosecond::HOUR,
        ).add_mul_result(self.days as u128, nanosecond::DAY).add_mul_result(
            self.months as u128,
            nanosecond::MONTH,
        ).add_mul_result(self.years as u128, nanosecond::YEAR);
        match acc.0 {
            Some(total) => Ok(total),
            None => Err(Error::IntOverflow),
        }
    }

    /// Converts the duration into seconds without checking for overflow:
    /// the result wraps modulo two to the 64th power.
    pub fn into_seconds_unchecked(&self) -> (result: Second)
        ensures
            result as nat == sec_total(self@) % 0x1_0000_0000_0000_0000nat,
    {
        let ghost m: nat = 0x1_0000_0000_0000_0000nat;
        let ghost v = self@;
        let ghost t0 = v.nanoseconds / 1_000_000_000;
        let ghost t1 = t0 + v.microseconds / 1_000_000;
        let ghost t2 = t1 + v.milliseconds / 1000;
        let ghost t3 = t2 + v.seconds;
        let ghost t4 = t3 + v.minutes * (second::MINUTE as nat);
        let ghost t5 = t4 + v.hours * (second::HOUR as nat);
        let ghost t6 = t5 + v.days * (second::DAY as nat);
        let ghost t7 = t6 + v.months * (second::MONTH as nat);

        let mut total: u64 = self.nanoseconds / 1_000_000_000;
        proof {
            lemma_small_mod(t0, m);
        }
        total = wrap_step_u64(total, self.microseconds / 1_000_000, second::SECOND, Ghost(t0));
        total = wrap_step_u64(total, self.milliseconds / 1_000, second::SECOND, Ghost(t1));
        total = wrap_step_u64(total, self.seconds, second::SECOND, Ghost(t2));
        total = wrap_step_u64(total, self.minutes, second::MINUTE, Ghost(t3));
        total = wrap_step_u64(total, self.hours, second::HOUR, Ghost(t4));
        total = wrap_step_u64(total, self.days, second::DAY, Ghost(t5));
        total = wrap_step_u64(total, self.months, second::MONTH, Ghost(t6));
        total = wrap_step_u64(total, self.years, second::YEAR, Ghost(t7));
        total
    }

    /// Converts the duration into seconds with overflow checking:
    /// succeeds exactly when the total fits in the 64-bit domain.
    pub fn into_seconds(&self) -> (result: Result<Second, Error>)
        ensures
            result == if sec_total(self@) <= u64::MAX as nat {
                Ok::<Second, Error>(sec_total(self@) as u64)
            } else {
                Err::<Second, Error>(Error::IntOverflow)
            },
    {
        let acc = CheckedU64::new(self.nanoseconds / 1_000_000_000).add_mul_result(
            self.microseconds / 1_000_000,
            second::SECOND,
        ).add_mul_result(self.milliseconds / 1_000, second::SECOND).add_mul_result(
            self.seconds,
            second::SECOND,
        ).add_mul_result(self.minutes, second::MINUTE).add_mul_result(
            self.hours,
            second::HOUR,
        ).add_mul_result(self.days, second::DAY).add_mul_result(
            self.months,
            second::MONTH,
        ).add_mul_result(self.years, second::YEAR);
        match acc.0 {
            Some(total) => Ok(total),
            None => Err(Error::IntOverflow),
        }
    }

    /// Decomposes a total second count greedily, dividing by the largest
    /// constant first and assigning the final remainder to the seconds
    /// field.
    pub fn from_seconds(s: Second) -> (result: Self)
        ensures
            result@ == sec_decompose(s as nat),
    {
        let mut s = s;

        let years: u64 = s / second::YEAR;
        s = s % second::YEAR;

        let months: u64 = s / second::MONTH;
        s = s % second::MONTH;

        let days: u64 = s / second::DAY;
        s = s % second::DAY;

        let hours: u64 = s / second::HOUR;
        s = s % second::HOUR;

        let minutes: u64 = s / second::MINUTE;
        s = s % second::MINUTE;

        Duration {
            nanoseconds: 0,
            microseconds: 0,
            milliseconds: 0,
            seconds: s,
            minutes,
            hours,
            days,
            months,
            years,
        }
    }

    /// Decomposes a total nanosecond count greedily, dividing by the
    /// largest constant first and assigning the final remainder to the
    /// nanoseconds field.
    pub fn from_nanoseconds(ns: Nanosecond) -> (result: Self)
        ensures
            result@ == ns_decompose(ns as nat),
    {
        let mut ns = ns;

        let years: u128 = ns / nanosecond::YEAR;
        proof {
            lemma_div_is_ordered(ns as int, u128::MAX as int, nanosecond::YEAR as int);
        }
        ns = ns % nanosecond::YEAR;

        let months: u128 = ns / nanosecond::MONTH;
        proof {
            lemma_div_is_ordered(ns as int, (nanosecond::YEAR - 1) as int, nanosecond::MONTH as int);
        }
        ns = ns % nanosecond::MONTH;

        let days: u128 = ns / nanosecond::DAY;
        proof {
            lemma_div_is_ordered(ns as int, (nanosecond::MONTH - 1) as int, nanosecond::DAY as int);
        }
        ns = ns % nanosecond::DAY;

        let hours: u128 = ns / nanosecond::HOUR;
        proof {
            lemma_div_is_ordered(ns as int, (nanosecond::DAY - 1) as int, nanosecond::HOUR as int);
        }
        ns = ns % nanosecond::HOUR;

        let minutes: u128 = ns / nanosecond::MINUTE;
        proof {
            lemma_div_is_ordered(ns as int, (nanosecond::HOUR - 1) as int, nanosecond::MINUTE as int);
        }
        ns = ns % nanosecond::MINUTE;

        let seconds: u128 = ns / nanosecond::SECOND;
        proof {
            lemma_div_is_ordered(ns as int, (nanosecond::MINUTE - 1) as int, nanosecond::SECOND as int);
        }
        ns = ns % nanosecond::SECOND;

        let milliseconds: u128 = ns / nanosecond::MILLISECOND;
        proof {
            lemma_div_is_ordered(
                ns as int,
                (nanosecond::SECOND - 1) as int,
                nanosecond::MILLISECOND as int,
            );
        }
        ns = ns % nanosecond::MILLISECOND;

        let microseconds: u128 = ns / nanosecond::MICROSECOND;
        proof {
            lemma_div_is_ordered(
                ns as int,
                (nanosecond::MILLISECOND - 1) as int,
                nanosecond::MICROSECOND as int,
            );
        }
        ns = ns % nanosecond::MICROSECOND;

        Duration {
            nanoseconds: ns as u64,
            microseconds: microseconds as u64,
            milliseconds: milliseconds as u64,
            seconds: seconds as u64,
            minutes: minutes as u64,
            hours: hours as u64,
            days: days as u64,
            months: months as u64,
            years: years as u64,
        }
    }

    /// Builds a duration from the whole-second count of a host duration
    /// value, as a greedy decomposition. Never fails.
    pub fn from_rs_duration_as_secs(value: core::time::Duration) -> (result: Result<
        Self,
        core::num::TryFromIntError,
    >)
        ensures
            result is Ok,
            exists|t: u64| (#[trigger] sec_decompose(t as nat)) == result->Ok_0@,
    {
        let secs = host_duration_secs(&value);
        let d = Duration::from_seconds(secs);
        proof {
            assert(sec_decompose(secs as nat) == d@);
        }
        Ok(d)
    }

    /// Builds a duration from the total nanosecond count of a host
    /// duration value, as a greedy decomposition. Never fails.
    pub fn from_rs_duration_as_nanos(value: core::time::Duration) -> (result: Result<
        Self,
        core::num::TryFromIntError,
    >)
        ensures
            result is Ok,
            exists|t: u128| (#[trigger] ns_decompose(t as nat)) == result->Ok_0@,
    {
        let nanos = host_duration_nanos(&value);
        let d = Duration::from_nanoseconds(nanos);
        proof {
            assert(ns_decompose(nanos as nat) == d@);
        }
        Ok(d)
    }

    /// Builds a duration from a host duration value through the
    /// nanosecond decomposition. Never fails.
    pub fn try_from(value: core::time::Duration) -> (result: Result<
        Self,
        core::num::TryFromIntError,
    >)
        ensures
            result is Ok,
            exists|t: u128| (#[trigger] ns_decompose(t as nat)) == result->Ok_0@,
    {
        Duration::from_rs_duration_as_nanos(value)
    }
}

/// Normalization establishes the bounded-field invariant: every field of
/// a normalized value sits below its natural bound.
pub proof fn lemma_normalize_is_normalized(v: DurationView)
    ensures
        is_normalized(spec_normalize(v)),
{
}

/// Normalization is idempotent: normalizing a normalized value changes
/// nothing, so `normalize(normalize(d)) == normalize(d)` for every `d`.
pub proof fn lemma_normalize_idempotent(v: DurationView)
    ensures
        spec_normalize(spec_normalize(v)) == spec_normalize(v),
{
    let w = spec_normalize(v);
    lemma_small_mod(w.nanoseconds, 1000);
    lemma_small_mod(w.microseconds, 1000);
    lemma_small_mod(w.milliseconds, 1000);
    lemma_small_mod(w.seconds, 60);
    lemma_small_mod(w.minutes, 60);
    lemma_small_mod(w.hours, 24);
    lemma_small_mod(w.days, 30);
    lemma_small_mod(w.months, 12);
}

/// Normalization preserves the nominal length of the duration, counting
/// a month as 30 days and a year as 12 such months.
pub proof fn lemma_normalize_preserves_nominal(v: DurationView)
    ensures
        nominal_ns(spec_normalize(v)) == nominal_ns(v),
{
    let microseconds = v.microseconds + v.nanoseconds / 1000;
    let milliseconds = v.milliseconds + microseconds / 1000;
    let seconds = v.seconds + milliseconds / 1000;
    let minutes = v.minutes + seconds / 60;
    let hours = v.hours + minutes / 60;
    let days = v.days + hours / 24;
    let months = v.months + days / 30;
    lemma_fundamental_div_mod(v.nanoseconds as int, 1000);
    lemma_fundamental_div_mod(microseconds as int, 1000);
    lemma_fundamental_div_mod(milliseconds as int, 1000);
    lemma_fundamental_div_mod(seconds as int, 60);
    lemma_fundamental_div_mod(minutes as int, 60);
    lemma_fundamental_div_mod(hours as int, 24);
    lemma_fundamental_div_mod(days as int, 30);
    lemma_fundamental_div_mod(months as int, 12);
}

/// Decomposing a total nanosecond count yields a duration with exactly
/// that total: the scalar round trip is lossless.
pub proof fn lemma_ns_decompose_total(n: nat)
    ensures
        ns_total(ns_decompose(n)) == n,
{
    let y = nanosecond::YEAR as int;
    let mo = nanosecond::MONTH as int;
    let d = nanosecond::DAY as int;
    let h = nanosecond::HOUR as int;
    let mi = nanosecond::MINUTE as int;
    let s = nanosecond::SECOND as int;
    let ms = nanosecond::MILLISECOND as int;
    let us = nanosecond::MICROSECOND as int;
    lemma_fundamental_div_mod(n as int, y);
    lemma_fundamental_div_mod((n as int) % y, mo);
    lemma_fundamental_div_mod((n as int) % y % mo, d);
    lemma_fundamental_div_mod((n as int) % y % mo % d, h);
    lemma_fundamental_div_mod((n as int) % y % mo % d % h, mi);
    lemma_fundamental_div_mod((n as int) % y % mo % d % h % mi, s);
    lemma_fundamental_div_mod((n as int) % y % mo % d % h % mi % s, ms);
    lemma_fundamental_div_mod((n as int) % y % mo % d % h % mi % s % ms, us);
}

/// Decomposing a total second count yields a duration with exactly that
/// total: the scalar round trip is lossless.
pub proof fn lemma_sec_decompose_total(n: nat)
    ensures
        sec_total(sec_decompose(n)) == n,
{
    let y = second::YEAR as int;
    let mo = second::MONTH as int;
    let d = second::DAY as int;
    let h = second::HOUR as int;
    let mi = second::MINUTE as int;
    lemma_fundamental_div_mod(n as int, y);
    lemma_fundamental_div_mod((n as int) % y, mo);
    lemma_fundamental_div_mod((n as int) % y % mo, d);
    lemma_fundamental_div_mod((n as int) % y % mo % d, h);
    lemma_fundamental_div_mod((n as int) % y % mo % d % h, mi);
}

/// The round trip through the checked nanosecond total: for any duration
/// value, decomposing its nanosecond total reproduces a value with the
/// same total, and that value's fields are bounded as the greedy
/// decomposition guarantees.
pub proof fn lemma_duration_nanoseconds_round_trip(v: DurationView)
    ensures
        ns_total(ns_decompose(ns_total(v))) == ns_total(v),
{
    lemma_ns_decompose_total(ns_total(v));
}

/// Bounds of the greedy nanosecond decomposition: every field below its
/// divisor ratio; in particular the time-of-day and subsecond fields are
/// in normalized range.
pub proof fn lemma_ns_decompose_bounded(n: nat)
    ensures
        ns_decompose(n).nanoseconds < 1000,
        ns_decompose(n).microseconds < 1000,
        ns_decompose(n).milliseconds < 1000,
        ns_decompose(n).seconds < 60,
        ns_decompose(n).minutes < 60,
        ns_decompose(n).hours < 24,
        ns_decompose(n).days < (nanosecond::MONTH / nanosecond::DAY) as nat,
        ns_decompose(n).months < 12,
{
    let y = nanosecond::YEAR as int;
    let mo = nanosecond::MONTH as int;
    let d = nanosecond::DAY as int;
    let h = nanosecond::HOUR as int;
    let mi = nanosecond::MINUTE as int;
    let s = nanosecond::SECOND as int;
    let ms = nanosecond::MILLISECOND as int;
    let us = nanosecond::MICROSECOND as int;
    lemma_div_is_ordered((n as int) % y, y - 1, mo);
    lemma_div_is_ordered((n as int) % y % mo, mo - 1, d);
    lemma_div_is_ordered((n as int) % y % mo % d, d - 1, h);
    lemma_div_is_ordered((n as int) % y % mo % d % h, h - 1, mi);
    lemma_div_is_ordered((n as int) % y % mo % d % h % mi, mi - 1, s);
    lemma_div_is_ordered((n as int) % y % mo % d % h % mi % s, s - 1, ms);
    lemma_div_is_ordered((n as int) % y % mo % d % h % mi % s % ms, ms - 1, us);
}

/// Bounds of the greedy second decomposition: every field below its
/// natural bound, except that days may reach 30.
pub proof fn lemma_sec_decompose_bounded(n: nat)
    ensures
        sec_decompose(n).nanoseconds == 0,
        sec_decompose(n).microseconds == 0,
        sec_decompose(n).milliseconds == 0,
        sec_decompose(n).seconds < 60,
        sec_decompose(n).minutes < 60,
        sec_decompose(n).hours < 24,
        sec_decompose(n).days <= 30,
        sec_decompose(n).months < 12,
{
    let y = second::YEAR as int;
    let mo = second::MONTH as int;
    let d = second::DAY as int;
    let h = second::HOUR as int;
    let mi = second::MINUTE as int;
    lemma_div_is_ordered((n as int) % y, y - 1, mo);
    lemma_div_is_ordered((n as int) % y % mo, mo - 1, d);
    lemma_div_is_ordered((n as int) % y % mo % d, d - 1, h);
    lemma_div_is_ordered((n as int) % y % mo % d % h, h - 1, mi);
}

} // verus!
