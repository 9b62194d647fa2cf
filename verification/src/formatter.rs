//! Parsing textual duration expressions into [`Duration`] values and
//! rendering [`Duration`] values back to text under configurable options.

use vstd::prelude::*;
use vstd::string::StrSliceExecFns;
use vstd::string::StringExecFns;
use vstd::wrapping::u64_specs;

use crate::duration::Duration;
use crate::duration::DurationView;
use crate::units::spec_unit_title;
use crate::units::unit_for_alias;
use crate::units::TimeUnit;

verus! {

/// Max allowed string length of the raw time unit or int value.
pub const MAX_DATA_CHUNK_LENGTH: usize = 32;

/// Options controlling how a duration is rendered to text.
#[derive(Debug, Clone, Copy, PartialEq, Eq, PartialOrd, Ord)]
pub struct FormatterOptions {
    /// `true` by default
    pub show_nanoseconds: bool,
    /// `true` by default
    pub show_microseconds: bool,
    /// `true` by default
    pub show_milliseconds: bool,
    /// `true` by default
    pub show_seconds: bool,
    /// `true` by default
    pub show_minutes: bool,
    /// `true` by default
    pub show_hours: bool,
    /// `true` by default
    pub show_days: bool,
    /// `true` by default
    pub show_months: bool,
    /// `true` by default
    pub show_years: bool,
    /// Whether to use long unit names (such as "seconds") or short unit
    /// names (such as "s").
    ///
    /// `false` by default
    pub long_unit_names: bool,
    /// Whether to include units with a value of zero in the formatted
    /// string.
    ///
    /// `false` by default
    pub show_value_if_zero: bool,
}

/// The default formatting configuration: every unit shown, short names,
/// zero-valued units suppressed.
pub open spec fn default_options() -> FormatterOptions {
    FormatterOptions {
        show_nanoseconds: true,
        show_microseconds: true,
        show_milliseconds: true,
        show_seconds: true,
        show_minutes: true,
        show_hours: true,
        show_days: true,
        show_months: true,
        show_years: true,
        long_unit_names: false,
        show_value_if_zero: false,
    }
}

impl Default for FormatterOptions {
    /// Every unit shown, short names, zero-valued units suppressed.
    fn default() -> (result: FormatterOptions)
        ensures
            result == default_options(),
    {
        FormatterOptions {
            show_nanoseconds: true,
            show_microseconds: true,
            show_milliseconds: true,
            show_seconds: true,
            show_minutes: true,
            show_hours: true,
            show_days: true,
            show_months: true,
            show_years: true,
            long_unit_names: false,
            show_value_if_zero: false,
        }
    }
}

/// Failure while parsing a textual duration expression. Indices count
/// characters, not bytes; spans are half-open.
#[derive(Debug, PartialEq, Clone)]
pub enum Error {
    /// A digit was expected but another character was found.
    NumberExpected {
        /// The character that was found instead of a number.
        value: char,
        /// The index at which the error occurred.
        index: usize,
    },
    /// Unknown time unit was provided.
    UnknownUnit {
        /// The starting index of the unknown unit in the input string.
        start: usize,
        /// The index one past the unknown unit in the input string.
        end: usize,
        /// The unknown unit that was provided.
        input_unit: String,
        /// The value associated with the unknown unit.
        value: u64,
    },
    /// A time unit was repeated in the input.
    TimeUnitRepeated {
        /// The starting index of the repeated unit in the input string.
        start: usize,
        /// The index one past the repeated unit in the input string.
        end: usize,
        /// The time unit that was repeated.
        unit: TimeUnit,
        /// The value associated with the repeated unit.
        value: u64,
    },
    /// Input time unit or value is too long.
    InputIsTooLong,
    /// A value was provided without a corresponding time unit.
    ValueWithoutUnit,
    /// A numeric literal does not fit the 64-bit value domain.
    ValueParseError,
    /// Input string is empty.
    EmptyInput,
}

/// The model of a parse failure: the same variants over mathematical
/// indices and character sequences.
pub enum ErrorView {
    NumberExpected { value: char, index: nat },
    UnknownUnit { start: nat, end: nat, input_unit: Seq<char>, value: u64 },
    TimeUnitRepeated { start: nat, end: nat, unit: TimeUnit, value: u64 },
    InputIsTooLong,
    ValueWithoutUnit,
    ValueParseError,
    EmptyInput,
}

impl View for Error {
    type V = ErrorView;

    open spec fn view(&self) -> ErrorView {
        match self {
            Error::NumberExpected { value, index } => ErrorView::NumberExpected {
                value: *value,
                index: *index as nat,
            },
            Error::UnknownUnit { start, end, input_unit, value } => ErrorView::UnknownUnit {
                start: *start as nat,
                end: *end as nat,
                input_unit: input_unit@,
                value: *value,
            },
            Error::TimeUnitRepeated { start, end, unit, value } => ErrorView::TimeUnitRepeated {
                start: *start as nat,
                end: *end as nat,
                unit: *unit,
                value: *value,
            },
            Error::InputIsTooLong => ErrorView::InputIsTooLong,
            Error::ValueWithoutUnit => ErrorView::ValueWithoutUnit,
            Error::ValueParseError => ErrorView::ValueParseError,
            Error::EmptyInput => ErrorView::EmptyInput,
        }
    }
}

/// The decimal digit character for a value below ten.
pub open spec fn digit_char(d: nat) -> char {
    if d == 0 {
        '0'
    } else if d == 1 {
        '1'
    } else if d == 2 {
        '2'
    } else if d == 3 {
        '3'
    } else if d == 4 {
        '4'
    } else if d == 5 {
        '5'
    } else if d == 6 {
        '6'
    } else if d == 7 {
        '7'
    } else if d == 8 {
        '8'
    } else {
        '9'
    }
}

/// The decimal representation of a number, most significant digit first,
/// without leading zeros.
pub open spec fn spec_dec(n: nat) -> Seq<char>
    decreases n,
{
    if n < 10 {
        seq![digit_char(n)]
    } else {
        spec_dec(n / 10).push(digit_char(n % 10))
    }
}

/// The decimal digits of a digit-value sequence read back to front: the
/// character form of a remainder stack.
spec fn rev_digit_chars(ds: Seq<u64>) -> Seq<char> {
    Seq::new(ds.len(), |t: int| digit_char(ds[ds.len() - 1 - t] as nat))
}

/// The single-character string for a decimal digit value.
fn digit_str(d: u64) -> (result: &'static str)
    requires
        d < 10,
    ensures
        result@ == seq![digit_char(d as nat)],
{
    proof {
        reveal_strlit("0");
        reveal_strlit("1");
        reveal_strlit("2");
        reveal_strlit("3");
        reveal_strlit("4");
        reveal_strlit("5");
        reveal_strlit("6");
        reveal_strlit("7");
        reveal_strlit("8");
        reveal_strlit("9");
    }
    let result = if d == 0 {
        "0"
    } else if d == 1 {
        "1"
    } else if d == 2 {
        "2"
    } else if d == 3 {
        "3"
    } else if d == 4 {
        "4"
    } else if d == 5 {
        "5"
    } else if d == 6 {
        "6"
    } else if d == 7 {
        "7"
    } else if d == 8 {
        "8"
    } else {
        "9"
    };
    proof {
        assert(result@ =~= seq![digit_char(d as nat)]);
    }
    result
}

/// Renders a value as decimal text, most significant digit first, without
/// leading zeros.
pub fn u64_to_string(n: u64) -> (result: String)
    ensures
        result@ == spec_dec(n as nat),
{
    if n == 0 {
        let zero = String::from_str(digit_str(0));
        proof {
            assert(zero@ =~= spec_dec(0));
        }
        return zero;
    }
    let mut rem: Vec<u64> = Vec::new();
    let mut m: u64 = n;
    proof {
        assert(rev_digit_chars(rem@) =~= Seq::<char>::empty());
        assert(spec_dec(n as nat) =~= spec_dec(m as nat) + rev_digit_chars(rem@));
    }
    while m > 0
        invariant
            forall|t: int| 0 <= t < rem@.len() ==> rem@[t] < 10,
            spec_dec(n as nat) == (if m > 0 {
                spec_dec(m as nat)
            } else {
                Seq::<char>::empty()
            }) + rev_digit_chars(rem@),
        decreases m,
    {
        let ghost old_rem = rem@;
        let ghost old_m = m;
        let d = m % 10;
        rem.push(d);
        m = m / 10;
        proof {
            assert(rev_digit_chars(rem@) =~= seq![digit_char(d as nat)] + rev_digit_chars(old_rem));
            if old_m >= 10 {
                assert(spec_dec(old_m as nat) == spec_dec((old_m / 10) as nat).push(
                    digit_char((old_m % 10) as nat),
                ));
                assert(spec_dec((old_m / 10) as nat).push(digit_char(d as nat)) =~= spec_dec(
                    (old_m / 10) as nat,
                ) + seq![digit_char(d as nat)]);
            } else {
                assert(spec_dec(old_m as nat) == seq![digit_char(old_m as nat)]);
            }
            assert(spec_dec(n as nat) =~= (if m > 0 {
                spec_dec(m as nat)
            } else {
                Seq::<char>::empty()
            }) + rev_digit_chars(rem@));
        }
    }
    let mut out = String::new();
    let mut i: usize = rem.len();
    proof {
        assert(out@ =~= rev_digit_chars(rem@).subrange(0, (rem@.len() - i) as int));
    }
    while i > 0
        invariant
            i <= rem@.len(),
            forall|t: int| 0 <= t < rem@.len() ==> rem@[t] < 10,
            spec_dec(n as nat) == rev_digit_chars(rem@),
            out@ == rev_digit_chars(rem@).subrange(0, (rem@.len() - i) as int),
        decreases i,
    {
        let ghost old_out = out@;
        i = i - 1;
        out.append(digit_str(rem[i]));
        proof {
            assert(out@ =~= rev_digit_chars(rem@).subrange(0, (rem@.len() - i) as int));
        }
    }
    proof {
        assert(out@ =~= rev_digit_chars(rem@));
    }
    out
}

/// One rendered field of the output: the decimal value followed by the
/// unit's short suffix, or by its spaced long name pluralized when the
/// value is not exactly one; empty when the field is hidden or zero.
#[verifier::opaque]
pub open spec fn spec_segment(
    value: nat,
    show: bool,
    opts: FormatterOptions,
    short: Seq<char>,
    singular: Seq<char>,
    plural: Seq<char>,
) -> Seq<char> {
    if show && (opts.show_value_if_zero || value != 0) {
        spec_dec(value) + (if opts.long_unit_names {
            if value != 1 {
                plural
            } else {
                singular
            }
        } else {
            short
        })
    } else {
        Seq::<char>::empty()
    }
}

/// The rendered text of a duration: the nine fields from largest to
/// smallest, one trailing space trimmed, and the fixed zero form when
/// nothing was emitted.
pub open spec fn spec_format(v: DurationView, opts: FormatterOptions) -> Seq<char> {
    let body = spec_segment(v.years, opts.show_years, opts, "y"@, " year "@, " years "@)
        + spec_segment(v.months, opts.show_months, opts, "mo"@, " month "@, " months "@)
        + spec_segment(v.days, opts.show_days, opts, "d"@, " day "@, " days "@) + spec_segment(
        v.hours,
        opts.show_hours,
        opts,
        "h"@,
        " hour "@,
        " hours "@,
    ) + spec_segment(v.minutes, opts.show_minutes, opts, "m"@, " minute "@, " minutes "@)
        + spec_segment(v.seconds, opts.show_seconds, opts, "s"@, " second "@, " seconds "@)
        + spec_segment(
        v.milliseconds,
        opts.show_milliseconds,
        opts,
        "ms"@,
        " millisecond "@,
        " milliseconds "@,
    ) + spec_segment(
        v.microseconds,
        opts.show_microseconds,
        opts,
        "μs"@,
        " microsecond "@,
        " microseconds "@,
    ) + spec_segment(
        v.nanoseconds,
        opts.show_nanoseconds,
        opts,
        "ns"@,
        " nanosecond "@,
        " nanoseconds "@,
    );
    let trimmed = if body.len() > 0 && body.last() == ' ' {
        body.drop_last()
    } else {
        body
    };
    if trimmed.len() == 0 {
        if opts.long_unit_names {
            "0 nanoseconds"@
        } else {
            "0ns"@
        }
    } else {
        trimmed
    }
}

/// Appends one rendered field to the output: the decimal value and the
/// unit's short suffix, or its spaced long name pluralized when the value
/// is not exactly one; appends nothing when the field is hidden or zero.
fn push_segment(
    out: &mut String,
    value: u64,
    show: bool,
    opts: &FormatterOptions,
    short: &str,
    singular: &str,
    plural: &str,
)
    ensures
        final(out)@ == old(out)@ + spec_segment(
            value as nat,
            show,
            *opts,
            short@,
            singular@,
            plural@,
        ),
{
    proof {
        reveal(spec_segment);
    }
    if show && (opts.show_value_if_zero || value != 0) {
        let num = u64_to_string(value);
        out.append(num.as_str());
        if opts.long_unit_names {
            if crate::util::should_apply_plural(value) {
                out.append(plural);
            } else {
                out.append(singular);
            }
        } else {
            out.append(short);
        }
    }
    proof {
        assert(out@ =~= old(out)@ + spec_segment(
            value as nat,
            show,
            *opts,
            short@,
            singular@,
            plural@,
        ));
    }
}

impl Duration {
    /// Formats the duration based on the provided options: fields from
    /// largest to smallest, each rendered as its decimal value and unit
    /// name, with hidden and zero-valued fields omitted.
    #[verifier::rlimit(100)]
    #[verifier::spinoff_prover]
    pub fn format(&self, options: &FormatterOptions) -> (result: String)
        ensures
            result@ == spec_format(self@, *options),
    {
        let opts = *options;
        let ghost v = self@;
        let ghost g1 = spec_segment(v.years, opts.show_years, opts, "y"@, " year "@, " years "@);
        let ghost g2 = g1 + spec_segment(
            v.months,
            opts.show_months,
            opts,
            "mo"@,
            " month "@,
            " months "@,
        );
        let ghost g3 = g2 + spec_segment(v.days, opts.show_days, opts, "d"@, " day "@, " days "@);
        let ghost g4 = g3 + spec_segment(
            v.hours,
            opts.show_hours,
            opts,
            "h"@,
            " hour "@,
            " hours "@,
        );
        let ghost g5 = g4 + spec_segment(
            v.minutes,
            opts.show_minutes,
            opts,
            "m"@,
            " minute "@,
            " minutes "@,
        );
        let ghost g6 = g5 + spec_segment(
            v.seconds,
            opts.show_seconds,
            opts,
            "s"@,
            " second "@,
            " seconds "@,
        );
        let ghost g7 = g6 + spec_segment(
            v.milliseconds,
            opts.show_milliseconds,
            opts,
            "ms"@,
            " millisecond "@,
            " milliseconds "@,
        );
        let ghost g8 = g7 + spec_segment(
            v.microseconds,
            opts.show_microseconds,
            opts,
            "μs"@,
            " microsecond "@,
            " microseconds "@,
        );
        let ghost g9 = g8 + spec_segment(
            v.nanoseconds,
            opts.show_nanoseconds,
            opts,
            "ns"@,
            " nanosecond "@,
            " nanoseconds "@,
        );

        let mut out = String::new();
        push_segment(&mut out, self.years, options.show_years, options, "y", " year ", " years ");
        proof {
            assert(out@ == g1);
        }
        push_segment(
            &mut out,
            self.months,
            options.show_months,
            options,
            "mo",
            " month ",
            " months ",
        );
        proof {
            assert(out@ == g2);
        }
        push_segment(&mut out, self.days, options.show_days, options, "d", " day ", " days ");
        proof {
            assert(out@ == g3);
        }
        push_segment(&mut out, self.hours, options.show_hours, options, "h", " hour ", " hours ");
        proof {
            assert(out@ == g4);
        }
        push_segment(
            &mut out,
            self.minutes,
            options.show_minutes,
            options,
            "m",
            " minute ",
            " minutes ",
        );
        proof {
            assert(out@ == g5);
        }
        push_segment(
            &mut out,
            self.seconds,
            options.show_seconds,
            options,
            "s",
            " second ",
            " seconds ",
        );
        proof {
            assert(out@ == g6);
        }
        push_segment(
            &mut out,
            self.milliseconds,
            options.show_milliseconds,
            options,
            "ms",
            " millisecond ",
            " milliseconds ",
        );
        proof {
            assert(out@ == g7);
        }
        push_segment(
            &mut out,
            self.microseconds,
            options.show_microseconds,
            options,
            "μs",
            " microsecond ",
            " microseconds ",
        );
        proof {
            assert(out@ == g8);
        }
        push_segment(
            &mut out,
            self.nanoseconds,
            options.show_nanoseconds,
            options,
            "ns",
            " nanosecond ",
            " nanoseconds ",
        );
        proof {
            assert(out@ == g9);
        }

        let n = out.unicode_len();
        let trimmed: String = if n > 0 && out.as_str().get_char(n - 1) == ' ' {
            let shorter = out.as_str().substring_char(0, n - 1).to_owned();
            proof {
                assert(shorter@ =~= g9.drop_last());
            }
            shorter
        } else {
            out
        };
        if trimmed.unicode_len() == 0 {
            if opts.long_unit_names {
                String::from_str("0 nanoseconds")
            } else {
                String::from_str("0ns")
            }
        } else {
            trimmed
        }
    }
}

/// Whether a character is an ASCII decimal digit.
pub open spec fn is_dec_digit(c: char) -> bool {
    48 <= c as int && c as int <= 57
}

/// The numeric value of a decimal digit character.
pub open spec fn digit_val(c: char) -> nat {
    (c as int - 48) as nat
}

/// Whether a character may continue a unit token: ASCII alphabetic or
/// the micro sign.
pub open spec fn is_unit_char(c: char) -> bool {
    (97 <= c as int && c as int <= 122) || (65 <= c as int && c as int <= 90) || c as int == 956
}

/// The value of a digit string, most significant digit first.
pub open spec fn digits_val(s: Seq<char>) -> nat
    decreases s.len(),
{
    if s.len() == 0 {
        0
    } else {
        digits_val(s.drop_last()) * 10 + digit_val(s.last())
    }
}

/// The length of the run of decimal digits starting at a position.
pub open spec fn digit_run_len(s: Seq<char>, i: int) -> nat
    decreases s.len() - i,
{
    if i < 0 || i >= s.len() || !is_dec_digit(s[i]) {
        0
    } else {
        1 + digit_run_len(s, i + 1)
    }
}

/// The length of the run of unit characters starting at a position.
pub open spec fn unit_run_len(s: Seq<char>, i: int) -> nat
    decreases s.len() - i,
{
    if i < 0 || i >= s.len() || !is_unit_char(s[i]) {
        0
    } else {
        1 + unit_run_len(s, i + 1)
    }
}

/// A run of digits that extends at least to an exclusive bound has at
/// least that run length.
proof fn lemma_digit_run_at_least(s: Seq<char>, i: int, j: int)
    requires
        0 <= i <= j <= s.len(),
        forall|m: int| i <= m < j ==> is_dec_digit(s[m]),
    ensures
        digit_run_len(s, i) >= j - i,
    decreases j - i,
{
    if i < j {
        lemma_digit_run_at_least(s, i + 1, j);
    }
}

/// A run of digits that ends exactly at a non-digit or at the end of the
/// input has exactly that run length.
proof fn lemma_digit_run_exact(s: Seq<char>, i: int, j: int)
    requires
        0 <= i <= j <= s.len(),
        forall|m: int| i <= m < j ==> is_dec_digit(s[m]),
        j == s.len() || !is_dec_digit(s[j]),
    ensures
        digit_run_len(s, i) == j - i,
    decreases j - i,
{
    if i < j {
        lemma_digit_run_exact(s, i + 1, j);
    }
}

/// A run of unit characters that extends at least to an exclusive bound
/// has at least that run length.
proof fn lemma_unit_run_at_least(s: Seq<char>, i: int, j: int)
    requires
        0 <= i <= j <= s.len(),
        forall|m: int| i <= m < j ==> is_unit_char(s[m]),
    ensures
        unit_run_len(s, i) >= j - i,
    decreases j - i,
{
    if i < j {
        lemma_unit_run_at_least(s, i + 1, j);
    }
}

/// A run of unit characters that ends exactly at a non-unit character or
/// at the end of the input has exactly that run length.
proof fn lemma_unit_run_exact(s: Seq<char>, i: int, j: int)
    requires
        0 <= i <= j <= s.len(),
        forall|m: int| i <= m < j ==> is_unit_char(s[m]),
        j == s.len() || !is_unit_char(s[j]),
    ensures
        unit_run_len(s, i) == j - i,
    decreases j - i,
{
    if i < j {
        lemma_unit_run_exact(s, i + 1, j);
    }
}

/// Supplies one parsed value into the accumulated duration. The eight
/// plain units may each be supplied once (a stored zero does not count as
/// supplied); week folds into days at seven days a week and may come
/// once; day adds into days, and a second day contribution is refused
/// unless a week came before. Day accumulation wraps on overflow.
pub open spec fn spec_apply_unit(acc: Duration, week_seen: bool, unit: TimeUnit, value: u64) -> Result<
    (Duration, bool),
    TimeUnit,
> {
    match unit {
        TimeUnit::Nanosecond => if acc.nanoseconds != 0 {
            Err(unit)
        } else {
            Ok((Duration { nanoseconds: value, ..acc }, week_seen))
        },
        TimeUnit::Microsecond => if acc.microseconds != 0 {
            Err(unit)
        } else {
            Ok((Duration { microseconds: value, ..acc }, week_seen))
        },
        TimeUnit::Millisecond => if acc.milliseconds != 0 {
            Err(unit)
        } else {
            Ok((Duration { milliseconds: value, ..acc }, week_seen))
        },
        TimeUnit::Second => if acc.seconds != 0 {
            Err(unit)
        } else {
            Ok((Duration { seconds: value, ..acc }, week_seen))
        },
        TimeUnit::Minute => if acc.minutes != 0 {
            Err(unit)
        } else {
            Ok((Duration { minutes: value, ..acc }, week_seen))
        },
        TimeUnit::Hour => if acc.hours != 0 {
            Err(unit)
        } else {
            Ok((Duration { hours: value, ..acc }, week_seen))
        },
        TimeUnit::Month => if acc.months != 0 {
            Err(unit)
        } else {
            Ok((Duration { months: value, ..acc }, week_seen))
        },
        TimeUnit::Year => if acc.years != 0 {
            Err(unit)
        } else {
            Ok((Duration { years: value, ..acc }, week_seen))
        },
        TimeUnit::Week => if week_seen {
            Err(unit)
        } else {
            Ok(
                (
                    Duration {
                        days: u64_specs::wrapping_add(acc.days, u64_specs::wrapping_mul(value, 7)),
                        ..acc
                    },
                    true,
                ),
            )
        },
        TimeUnit::Day => if acc.days != 0 && !week_seen {
            Err(unit)
        } else {
            Ok((Duration { days: u64_specs::wrapping_add(acc.days, value), ..acc }, week_seen))
        },
    }
}

/// One pass of the parser from a position: a digit run, the parsed value,
/// an optional single space, a unit token, the alias lookup, the
/// duplicate rule, and an optional trailing space, repeated to the end of
/// the input.
pub open spec fn spec_parse_loop(s: Seq<char>, i: int, acc: Duration, week_seen: bool) -> Result<
    Duration,
    ErrorView,
>
    decreases s.len() - i,
{
    if i >= s.len() {
        Ok(acc)
    } else if !is_dec_digit(s[i]) {
        Err(ErrorView::NumberExpected { value: s[i], index: i as nat })
    } else {
        let j = i + 1 + digit_run_len(s, i + 1);
        if j - i > MAX_DATA_CHUNK_LENGTH as int {
            Err(ErrorView::InputIsTooLong)
        } else if digits_val(s.subrange(i, j)) > u64::MAX as nat {
            Err(ErrorView::ValueParseError)
        } else {
            let value = digits_val(s.subrange(i, j)) as u64;
            if j >= s.len() {
                Err(ErrorView::ValueWithoutUnit)
            } else {
                let u = if s[j] == ' ' {
                    j + 1
                } else {
                    j
                };
                if u >= s.len() {
                    Err(ErrorView::ValueWithoutUnit)
                } else {
                    let k = u + 1 + unit_run_len(s, u + 1);
                    if k - u > MAX_DATA_CHUNK_LENGTH as int {
                        Err(ErrorView::InputIsTooLong)
                    } else {
                        match unit_for_alias(s.subrange(u, k)) {
                            None => Err(
                                ErrorView::UnknownUnit {
                                    start: u as nat,
                                    end: k as nat,
                                    input_unit: s.subrange(u, k),
                                    value,
                                },
                            ),
                            Some(t) => match spec_apply_unit(acc, week_seen, t, value) {
                                Err(repeated) => Err(
                                    ErrorView::TimeUnitRepeated {
                                        start: u as nat,
                                        end: k as nat,
                                        unit: repeated,
                                        value,
                                    },
                                ),
                                Ok(applied) => {
                                    let next = if k < s.len() && s[k] == ' ' {
                                        k + 1
                                    } else {
                                        k
                                    };
                                    let bounded = if next > s.len() {
                                        s.len() as int
                                    } else {
                                        next
                                    };
                                    spec_parse_loop(s, bounded, applied.0, applied.1)
                                },
                            },
                        }
                    }
                }
            }
        }
    }
}

/// What parsing a character sequence yields: the empty input is refused
/// outright, anything else goes through the token loop starting from the
/// all-zero accumulator.
pub open spec fn spec_parse(s: Seq<char>) -> Result<Duration, ErrorView> {
    if s.len() == 0 {
        Err(ErrorView::EmptyInput)
    } else {
        spec_parse_loop(
            s,
            0,
            Duration {
                nanoseconds: 0,
                microseconds: 0,
                milliseconds: 0,
                seconds: 0,
                minutes: 0,
                hours: 0,
                days: 0,
                months: 0,
                years: 0,
            },
            false,
        )
    }
}

/// A parse result with its error taken to the model: what the parser's
/// contract compares against [`spec_parse`].
pub open spec fn parse_result_view(r: Result<Duration, Error>) -> Result<Duration, ErrorView> {
    match r {
        Ok(d) => Ok(d),
        Err(e) => Err(e@),
    }
}

/// Whether a character is an ASCII decimal digit.
fn is_digit_exec(c: char) -> (result: bool)
    ensures
        result == is_dec_digit(c),
{
    let u = c as u32;
    48 <= u && u <= 57
}

/// Whether a character may continue a unit token.
fn is_unit_char_exec(c: char) -> (result: bool)
    ensures
        result == is_unit_char(c),
{
    let u = c as u32;
    (97 <= u && u <= 122) || (65 <= u && u <= 90) || u == 956
}

/// Collects the characters of a string slice into a vector.
fn str_to_chars(s: &str) -> (result: Vec<char>)
    ensures
        result@ == s@,
{
    let n = s.unicode_len();
    let mut v: Vec<char> = Vec::new();
    let mut i: usize = 0;
    while i < n
        invariant
            i <= n,
            n as nat == s@.len(),
            v@ == s@.subrange(0, i as int),
        decreases n - i,
    {
        v.push(s.get_char(i));
        i = i + 1;
        proof {
            assert(v@ =~= s@.subrange(0, i as int));
        }
    }
    proof {
        assert(v@ =~= s@);
    }
    v
}

impl Duration {
    /// Parses a textual duration expression: alternating number and unit
    /// tokens, each pair separated by at most one space, with unit names
    /// resolved case-sensitively against the alias table and each unit
    /// accepted at most once (weeks fold into days).
    #[verifier::loop_isolation(false)]
    #[verifier::rlimit(100)]
    #[verifier::spinoff_prover]
    pub fn parse(s: &str) -> (result: Result<Duration, Error>)
        ensures
            parse_result_view(result) == spec_parse(s@),
    {
        let n = s.unicode_len();
        if n == 0 {
            return Err(Error::EmptyInput);
        }
        let cs = str_to_chars(s);
        let mut acc = Duration::default();
        let mut week_seen = false;
        let mut i: usize = 0;
        while i < n
            invariant
                n as nat == s@.len(),
                cs@ == s@,
                0 < n,
                i <= n,
                spec_parse_loop(s@, i as int, acc, week_seen) == spec_parse(s@),
            decreases n - i,
        {
            let ghost i0 = i as int;
            let ghost acc0 = acc;
            let ghost w0 = week_seen;

            let start = i;
            let c0 = cs[start];
            if !is_digit_exec(c0) {
                return Err(Error::NumberExpected { value: c0, index: start });
            }
            let mut idx = start + 1;
            let mut value: u64 = (c0 as u32 - 48) as u64;
            let mut overflowed = false;
            proof {
                let first = s@.subrange(start as int, idx as int);
                assert(first.len() == 1);
                assert(first.drop_last() =~= Seq::<char>::empty());
                assert(first.last() == s@[start as int]);
                assert(digits_val(first.drop_last()) == 0);
                assert(digits_val(first) == digit_val(c0));
            }
            while idx < n && is_digit_exec(cs[idx])
                invariant
                    n as nat == s@.len(),
                    cs@ == s@,
                    start < idx <= n,
                    idx - start <= MAX_DATA_CHUNK_LENGTH,
                    is_dec_digit(s@[start as int]),
                    forall|m: int| start < m < idx ==> is_dec_digit(s@[m]),
                    !overflowed ==> value as nat == digits_val(
                        s@.subrange(start as int, idx as int),
                    ),
                    overflowed ==> digits_val(s@.subrange(start as int, idx as int)) > u64::MAX
                        as nat,
                decreases n - idx,
            {
                if idx - start == MAX_DATA_CHUNK_LENGTH {
                    proof {
                        lemma_digit_run_at_least(s@, start as int + 1, idx as int + 1);
                    }
                    return Err(Error::InputIsTooLong);
                }
                let c = cs[idx];
                let d = (c as u32 - 48) as u64;
                let ghost prefix = s@.subrange(start as int, idx as int);
                if !overflowed {
                    match value.checked_mul(10) {
                        Some(v10) => {
                            match v10.checked_add(d) {
                                Some(v) => {
                                    value = v;
                                },
                                None => {
                                    overflowed = true;
                                },
                            }
                        },
                        None => {
                            overflowed = true;
                        },
                    }
                }
                idx = idx + 1;
                proof {
                    let sub = s@.subrange(start as int, idx as int);
                    assert(sub.drop_last() =~= prefix);
                    assert(sub.last() == s@[idx - 1]);
                }
            }
            proof {
                lemma_digit_run_exact(s@, start as int + 1, idx as int);
            }
            if overflowed {
                return Err(Error::ValueParseError);
            }
            if idx == n {
                return Err(Error::ValueWithoutUnit);
            }
            let mut u = idx;
            if cs[u] == ' ' {
                u = u + 1;
                if u == n {
                    return Err(Error::ValueWithoutUnit);
                }
            }
            let ustart = u;
            let mut k = ustart + 1;
            while k < n && is_unit_char_exec(cs[k])
                invariant
                    n as nat == s@.len(),
                    cs@ == s@,
                    ustart < k <= n,
                    k - ustart <= MAX_DATA_CHUNK_LENGTH,
                    forall|m: int| ustart < m < k ==> is_unit_char(s@[m]),
                decreases n - k,
            {
                if k - ustart == MAX_DATA_CHUNK_LENGTH {
                    proof {
                        lemma_unit_run_at_least(s@, ustart as int + 1, k as int + 1);
                    }
                    return Err(Error::InputIsTooLong);
                }
                k = k + 1;
            }
            proof {
                lemma_unit_run_exact(s@, ustart as int + 1, k as int);
            }
            let token = s.substring_char(ustart, k);
            let unit = match TimeUnit::from_alias(token) {
                Ok(t) => t,
                Err(_) => {
                    return Err(
                        Error::UnknownUnit {
                            start: ustart,
                            end: k,
                            input_unit: token.to_owned(),
                            value,
                        },
                    );
                },
            };
            match unit {
                TimeUnit::Nanosecond => {
                    if acc.nanoseconds != 0 {
                        return Err(
                            Error::TimeUnitRepeated { start: ustart, end: k, unit, value },
                        );
                    }
                    acc.nanoseconds = value;
                },
                TimeUnit::Microsecond => {
                    if acc.microseconds != 0 {
                        return Err(
                            Error::TimeUnitRepeated { start: ustart, end: k, unit, value },
                        );
                    }
                    acc.microseconds = value;
                },
                TimeUnit::Millisecond => {
                    if acc.milliseconds != 0 {
                        return Err(
                            Error::TimeUnitRepeated { start: ustart, end: k, unit, value },
                        );
                    }
                    acc.milliseconds = value;
                },
                TimeUnit::Second => {
                    if acc.seconds != 0 {
                        return Err(
                            Error::TimeUnitRepeated { start: ustart, end: k, unit, value },
                        );
                    }
                    acc.seconds = value;
                },
                TimeUnit::Minute => {
                    if acc.minutes != 0 {
                        return Err(
                            Error::TimeUnitRepeated { start: ustart, end: k, unit, value },
                        );
                    }
                    acc.minutes = value;
                },
                TimeUnit::Hour => {
                    if acc.hours != 0 {
                        return Err(
                            Error::TimeUnitRepeated { start: ustart, end: k, unit, value },
                        );
                    }
                    acc.hours = value;
                },
                TimeUnit::Month => {
                    if acc.months != 0 {
                        return Err(
                            Error::TimeUnitRepeated { start: ustart, end: k, unit, value },
                        );
                    }
                    acc.months = value;
                },
                TimeUnit::Year => {
                    if acc.years != 0 {
                        return Err(
                            Error::TimeUnitRepeated { start: ustart, end: k, unit, value },
                        );
                    }
                    acc.years = value;
                },
                TimeUnit::Week => {
                    if week_seen {
                        return Err(
                            Error::TimeUnitRepeated { start: ustart, end: k, unit, value },
                        );
                    }
                    week_seen = true;
                    acc.days = acc.days.wrapping_add(value.wrapping_mul(7));
                },
                TimeUnit::Day => {
                    if acc.days != 0 && !week_seen {
                        return Err(
                            Error::TimeUnitRepeated { start: ustart, end: k, unit, value },
                        );
                    }
                    acc.days = acc.days.wrapping_add(value);
                },
            }
            if k < n && cs[k] == ' ' {
                i = k + 1;
            } else {
                i = k;
            }
            proof {
                assert(spec_parse_loop(s@, i as int, acc, week_seen) == spec_parse_loop(
                    s@,
                    i0,
                    acc0,
                    w0,
                ));
            }
        }
        Ok(acc)
    }
}

impl core::str::FromStr for Duration {
    type Err = Error;

    fn from_str(s: &str) -> Result<Duration, Error> {
        Duration::parse(s)
    }
}

/// Powers of ten.
spec fn pow10(k: nat) -> nat
    decreases k,
{
    if k == 0 {
        1
    } else {
        10 * pow10((k - 1) as nat)
    }
}

/// The decimal form of a number is a nonempty digit string that reads
/// back to the number itself.
proof fn lemma_spec_dec_digits(n: nat)
    ensures
        spec_dec(n).len() >= 1,
        forall|i: int| 0 <= i < spec_dec(n).len() ==> is_dec_digit(#[trigger] spec_dec(n)[i]),
        digits_val(spec_dec(n)) == n,
    decreases n,
{
    if n < 10 {
        let s1 = spec_dec(n);
        assert(s1 == seq![digit_char(n)]);
        assert(s1.len() == 1);
        assert(is_dec_digit(digit_char(n)));
        assert(digits_val(s1) == digits_val(s1.drop_last()) * 10 + digit_val(s1.last()));
        assert(s1.drop_last().len() == 0);
        assert(digits_val(s1.drop_last()) == 0);
        assert(s1.last() == digit_char(n));
        assert(digit_val(digit_char(n)) == n);
    } else {
        lemma_spec_dec_digits(n / 10);
        let prev = spec_dec(n / 10);
        let whole = spec_dec(n);
        assert(whole == prev.push(digit_char(n % 10)));
        assert(whole.drop_last() =~= prev);
        assert(whole.last() == digit_char(n % 10));
        assert(is_dec_digit(digit_char(n % 10)));
        assert(digit_val(digit_char(n % 10)) == n % 10);
        assert(digits_val(whole) == digits_val(prev) * 10 + digit_val(whole.last()));
        vstd::arithmetic::div_mod::lemma_fundamental_div_mod(n as int, 10);
        assert(forall|i: int|
            0 <= i < whole.len() ==> is_dec_digit(#[trigger] whole[i])) by {
            assert(forall|i: int| 0 <= i < prev.len() ==> whole[i] == prev[i]);
        }
    }
}

/// A number below the k-th power of ten has at most k decimal digits.
proof fn lemma_dec_len(n: nat, k: nat)
    requires
        k >= 1,
        n < pow10(k),
    ensures
        spec_dec(n).len() <= k,
    decreases n,
{
    if n < 10 {
    } else {
        assert(pow10(k) == 10 * pow10((k - 1) as nat));
        if k == 1 {
            assert(pow10(0nat) == 1);
            assert(pow10(1nat) == 10);
            assert(false);
        }
        assert(n / 10 < pow10((k - 1) as nat)) by {
            vstd::arithmetic::div_mod::lemma_fundamental_div_mod(n as int, 10);
        }
        lemma_dec_len(n / 10, (k - 1) as nat);
    }
}

/// Any 64-bit value prints in at most twenty digits, well below the
/// input length cap.
proof fn lemma_dec_len_u64(f: u64)
    ensures
        spec_dec(f as nat).len() <= 20,
{
    assert(pow10(0nat) == 1);
    assert(pow10(1nat) == pow10(0nat) * 10);
    assert(pow10(2nat) == pow10(1nat) * 10);
    assert(pow10(3nat) == pow10(2nat) * 10);
    assert(pow10(4nat) == pow10(3nat) * 10);
    assert(pow10(5nat) == pow10(4nat) * 10);
    assert(pow10(6nat) == pow10(5nat) * 10);
    assert(pow10(7nat) == pow10(6nat) * 10);
    assert(pow10(8nat) == pow10(7nat) * 10);
    assert(pow10(9nat) == pow10(8nat) * 10);
    assert(pow10(10nat) == pow10(9nat) * 10);
    assert(pow10(11nat) == pow10(10nat) * 10);
    assert(pow10(12nat) == pow10(11nat) * 10);
    assert(pow10(13nat) == pow10(12nat) * 10);
    assert(pow10(14nat) == pow10(13nat) * 10);
    assert(pow10(15nat) == pow10(14nat) * 10);
    assert(pow10(16nat) == pow10(15nat) * 10);
    assert(pow10(17nat) == pow10(16nat) * 10);
    assert(pow10(18nat) == pow10(17nat) * 10);
    assert(pow10(19nat) == pow10(18nat) * 10);
    assert(pow10(20nat) == pow10(19nat) * 10);
    lemma_dec_len(f as nat, 20);
}

/// Whether every character of a sequence may appear in a unit token.
pub open spec fn all_unit_chars(s: Seq<char>) -> bool {
    forall|i: int| 0 <= i < s.len() ==> is_unit_char(#[trigger] s[i])
}

/// The short unit suffixes that the formatter emits resolve in the alias
/// table to their own units, and consist of unit characters only.
#[verifier::rlimit(100)]
#[verifier::spinoff_prover]
proof fn lemma_short_aliases()
    ensures
        unit_for_alias("y"@) == Some(TimeUnit::Year),
        unit_for_alias("mo"@) == Some(TimeUnit::Month),
        unit_for_alias("d"@) == Some(TimeUnit::Day),
        unit_for_alias("h"@) == Some(TimeUnit::Hour),
        unit_for_alias("m"@) == Some(TimeUnit::Minute),
        unit_for_alias("s"@) == Some(TimeUnit::Second),
        unit_for_alias("ms"@) == Some(TimeUnit::Millisecond),
        unit_for_alias("μs"@) == Some(TimeUnit::Microsecond),
        unit_for_alias("ns"@) == Some(TimeUnit::Nanosecond),
        "y"@.len() == 1 && all_unit_chars("y"@),
        "mo"@.len() == 2 && all_unit_chars("mo"@),
        "d"@.len() == 1 && all_unit_chars("d"@),
        "h"@.len() == 1 && all_unit_chars("h"@),
        "m"@.len() == 1 && all_unit_chars("m"@),
        "s"@.len() == 1 && all_unit_chars("s"@),
        "ms"@.len() == 2 && all_unit_chars("ms"@),
        "μs"@.len() == 2 && all_unit_chars("μs"@),
        "ns"@.len() == 2 && all_unit_chars("ns"@),
{
    reveal_strlit("ns");
    reveal_strlit("nsec");
    reveal_strlit("nsecs");
    reveal_strlit("nanosec");
    reveal_strlit("nanosecs");
    reveal_strlit("nanosecond");
    reveal_strlit("nanoseconds");
    reveal_strlit("μs");
    reveal_strlit("us");
    reveal_strlit("usec");
    reveal_strlit("usecs");
    reveal_strlit("microsec");
    reveal_strlit("microsecs");
    reveal_strlit("microsecond");
    reveal_strlit("microseconds");
    reveal_strlit("ms");
    reveal_strlit("msec");
    reveal_strlit("msecs");
    reveal_strlit("millisecond");
    reveal_strlit("milliseconds");
    reveal_strlit("s");
    reveal_strlit("sec");
    reveal_strlit("secs");
    reveal_strlit("second");
    reveal_strlit("seconds");
    reveal_strlit("m");
    reveal_strlit("min");
    reveal_strlit("mins");
    reveal_strlit("minute");
    reveal_strlit("minutes");
    reveal_strlit("h");
    reveal_strlit("hr");
    reveal_strlit("hrs");
    reveal_strlit("hour");
    reveal_strlit("hours");
    reveal_strlit("d");
    reveal_strlit("day");
    reveal_strlit("days");
    reveal_strlit("w");
    reveal_strlit("wk");
    reveal_strlit("wks");
    reveal_strlit("week");
    reveal_strlit("weeks");
    reveal_strlit("mo");
    reveal_strlit("month");
    reveal_strlit("months");
    reveal_strlit("y");
    reveal_strlit("yr");
    reveal_strlit("yrs");
    reveal_strlit("year");
    reveal_strlit("years");
    assert("μs"@ != "ns"@) by {
        assert("μs"@[0] == 'μ');
        assert("ns"@[0] == 'n');
    }
    assert("μs"@ != "nsec"@) by {
        assert("μs"@.len() == 2);
        assert("nsec"@.len() == 4);
    }
    assert("μs"@ != "nsecs"@) by {
        assert("μs"@.len() == 2);
        assert("nsecs"@.len() == 5);
    }
    assert("μs"@ != "nanosec"@) by {
        assert("μs"@.len() == 2);
        assert("nanosec"@.len() == 7);
    }
    assert("μs"@ != "nanosecs"@) by {
        assert("μs"@.len() == 2);
        assert("nanosecs"@.len() == 8);
    }
    assert("μs"@ != "nanosecond"@) by {
        assert("μs"@.len() == 2);
        assert("nanosecond"@.len() == 10);
    }
    assert("μs"@ != "nanoseconds"@) by {
        assert("μs"@.len() == 2);
        assert("nanoseconds"@.len() == 11);
    }
    assert("ms"@ != "ns"@) by {
        assert("ms"@[0] == 'm');
        assert("ns"@[0] == 'n');
    }
    assert("ms"@ != "nsec"@) by {
        assert("ms"@.len() == 2);
        assert("nsec"@.len() == 4);
    }
    assert("ms"@ != "nsecs"@) by {
        assert("ms"@.len() == 2);
        assert("nsecs"@.len() == 5);
    }
    assert("ms"@ != "nanosec"@) by {
        assert("ms"@.len() == 2);
        assert("nanosec"@.len() == 7);
    }
    assert("ms"@ != "nanosecs"@) by {
        assert("ms"@.len() == 2);
        assert("nanosecs"@.len() == 8);
    }
    assert("ms"@ != "nanosecond"@) by {
        assert("ms"@.len() == 2);
        assert("nanosecond"@.len() == 10);
    }
    assert("ms"@ != "nanoseconds"@) by {
        assert("ms"@.len() == 2);
        assert("nanoseconds"@.len() == 11);
    }
    assert("ms"@ != "μs"@) by {
        assert("ms"@[0] == 'm');
        assert("μs"@[0] == 'μ');
    }
    assert("ms"@ != "us"@) by {
        assert("ms"@[0] == 'm');
        assert("us"@[0] == 'u');
    }
    assert("ms"@ != "usec"@) by {
        assert("ms"@.len() == 2);
        assert("usec"@.len() == 4);
    }
    assert("ms"@ != "usecs"@) by {
        assert("ms"@.len() == 2);
        assert("usecs"@.len() == 5);
    }
    assert("ms"@ != "microsec"@) by {
        assert("ms"@.len() == 2);
        assert("microsec"@.len() == 8);
    }
    assert("ms"@ != "microsecs"@) by {
        assert("ms"@.len() == 2);
        assert("microsecs"@.len() == 9);
    }
    assert("ms"@ != "microsecond"@) by {
        assert("ms"@.len() == 2);
        assert("microsecond"@.len() == 11);
    }
    assert("ms"@ != "microseconds"@) by {
        assert("ms"@.len() == 2);
        assert("microseconds"@.len() == 12);
    }
    assert("s"@ != "ns"@) by {
        assert("s"@.len() == 1);
        assert("ns"@.len() == 2);
    }
    assert("s"@ != "nsec"@) by {
        assert("s"@.len() == 1);
        assert("nsec"@.len() == 4);
    }
    assert("s"@ != "nsecs"@) by {
        assert("s"@.len() == 1);
        assert("nsecs"@.len() == 5);
    }
    assert("s"@ != "nanosec"@) by {
        assert("s"@.len() == 1);
        assert("nanosec"@.len() == 7);
    }
    assert("s"@ != "nanosecs"@) by {
        assert("s"@.len() == 1);
        assert("nanosecs"@.len() == 8);
    }
    assert("s"@ != "nanosecond"@) by {
        assert("s"@.len() == 1);
        assert("nanosecond"@.len() == 10);
    }
    assert("s"@ != "nanoseconds"@) by {
        assert("s"@.len() == 1);
        assert("nanoseconds"@.len() == 11);
    }
    assert("s"@ != "μs"@) by {
        assert("s"@.len() == 1);
        assert("μs"@.len() == 2);
    }
    assert("s"@ != "us"@) by {
        assert("s"@.len() == 1);
        assert("us"@.len() == 2);
    }
    assert("s"@ != "usec"@) by {
        assert("s"@.len() == 1);
        assert("usec"@.len() == 4);
    }
    assert("s"@ != "usecs"@) by {
        assert("s"@.len() == 1);
        assert("usecs"@.len() == 5);
    }
    assert("s"@ != "microsec"@) by {
        assert("s"@.len() == 1);
        assert("microsec"@.len() == 8);
    }
    assert("s"@ != "microsecs"@) by {
        assert("s"@.len() == 1);
        assert("microsecs"@.len() == 9);
    }
    assert("s"@ != "microsecond"@) by {
        assert("s"@.len() == 1);
        assert("microsecond"@.len() == 11);
    }
    assert("s"@ != "microseconds"@) by {
        assert("s"@.len() == 1);
        assert("microseconds"@.len() == 12);
    }
    assert("s"@ != "ms"@) by {
        assert("s"@.len() == 1);
        assert("ms"@.len() == 2);
    }
    assert("s"@ != "msec"@) by {
        assert("s"@.len() == 1);
        assert("msec"@.len() == 4);
    }
    assert("s"@ != "msecs"@) by {
        assert("s"@.len() == 1);
        assert("msecs"@.len() == 5);
    }
    assert("s"@ != "millisecond"@) by {
        assert("s"@.len() == 1);
        assert("millisecond"@.len() == 11);
    }
    assert("s"@ != "milliseconds"@) by {
        assert("s"@.len() == 1);
        assert("milliseconds"@.len() == 12);
    }
    assert("m"@ != "ns"@) by {
        assert("m"@.len() == 1);
        assert("ns"@.len() == 2);
    }
    assert("m"@ != "nsec"@) by {
        assert("m"@.len() == 1);
        assert("nsec"@.len() == 4);
    }
    assert("m"@ != "nsecs"@) by {
        assert("m"@.len() == 1);
        assert("nsecs"@.len() == 5);
    }
    assert("m"@ != "nanosec"@) by {
        assert("m"@.len() == 1);
        assert("nanosec"@.len() == 7);
    }
    assert("m"@ != "nanosecs"@) by {
        assert("m"@.len() == 1);
        assert("nanosecs"@.len() == 8);
    }
    assert("m"@ != "nanosecond"@) by {
        assert("m"@.len() == 1);
        assert("nanosecond"@.len() == 10);
    }
    assert("m"@ != "nanoseconds"@) by {
        assert("m"@.len() == 1);
        assert("nanoseconds"@.len() == 11);
    }
    assert("m"@ != "μs"@) by {
        assert("m"@.len() == 1);
        assert("μs"@.len() == 2);
    }
    assert("m"@ != "us"@) by {
        assert("m"@.len() == 1);
        assert("us"@.len() == 2);
    }
    assert("m"@ != "usec"@) by {
        assert("m"@.len() == 1);
        assert("usec"@.len() == 4);
    }
    assert("m"@ != "usecs"@) by {
        assert("m"@.len() == 1);
        assert("usecs"@.len() == 5);
    }
    assert("m"@ != "microsec"@) by {
        assert("m"@.len() == 1);
        assert("microsec"@.len() == 8);
    }
    assert("m"@ != "microsecs"@) by {
        assert("m"@.len() == 1);
        assert("microsecs"@.len() == 9);
    }
    assert("m"@ != "microsecond"@) by {
        assert("m"@.len() == 1);
        assert("microsecond"@.len() == 11);
    }
    assert("m"@ != "microseconds"@) by {
        assert("m"@.len() == 1);
        assert("microseconds"@.len() == 12);
    }
    assert("m"@ != "ms"@) by {
        assert("m"@.len() == 1);
        assert("ms"@.len() == 2);
    }
    assert("m"@ != "msec"@) by {
        assert("m"@.len() == 1);
        assert("msec"@.len() == 4);
    }
    assert("m"@ != "msecs"@) by {
        assert("m"@.len() == 1);
        assert("msecs"@.len() == 5);
    }
    assert("m"@ != "millisecond"@) by {
        assert("m"@.len() == 1);
        assert("millisecond"@.len() == 11);
    }
    assert("m"@ != "milliseconds"@) by {
        assert("m"@.len() == 1);
        assert("milliseconds"@.len() == 12);
    }
    assert("m"@ != "s"@) by {
        assert("m"@[0] == 'm');
        assert("s"@[0] == 's');
    }
    assert("m"@ != "sec"@) by {
        assert("m"@.len() == 1);
        assert("sec"@.len() == 3);
    }
    assert("m"@ != "secs"@) by {
        assert("m"@.len() == 1);
        assert("secs"@.len() == 4);
    }
    assert("m"@ != "second"@) by {
        assert("m"@.len() == 1);
        assert("second"@.len() == 6);
    }
    assert("m"@ != "seconds"@) by {
        assert("m"@.len() == 1);
        assert("seconds"@.len() == 7);
    }
    assert("h"@ != "ns"@) by {
        assert("h"@.len() == 1);
        assert("ns"@.len() == 2);
    }
    assert("h"@ != "nsec"@) by {
        assert("h"@.len() == 1);
        assert("nsec"@.len() == 4);
    }
    assert("h"@ != "nsecs"@) by {
        assert("h"@.len() == 1);
        assert("nsecs"@.len() == 5);
    }
    assert("h"@ != "nanosec"@) by {
        assert("h"@.len() == 1);
        assert("nanosec"@.len() == 7);
    }
    assert("h"@ != "nanosecs"@) by {
        assert("h"@.len() == 1);
        assert("nanosecs"@.len() == 8);
    }
    assert("h"@ != "nanosecond"@) by {
        assert("h"@.len() == 1);
        assert("nanosecond"@.len() == 10);
    }
    assert("h"@ != "nanoseconds"@) by {
        assert("h"@.len() == 1);
        assert("nanoseconds"@.len() == 11);
    }
    assert("h"@ != "μs"@) by {
        assert("h"@.len() == 1);
        assert("μs"@.len() == 2);
    }
    assert("h"@ != "us"@) by {
        assert("h"@.len() == 1);
        assert("us"@.len() == 2);
    }
    assert("h"@ != "usec"@) by {
        assert("h"@.len() == 1);
        assert("usec"@.len() == 4);
    }
    assert("h"@ != "usecs"@) by {
        assert("h"@.len() == 1);
        assert("usecs"@.len() == 5);
    }
    assert("h"@ != "microsec"@) by {
        assert("h"@.len() == 1);
        assert("microsec"@.len() == 8);
    }
    assert("h"@ != "microsecs"@) by {
        assert("h"@.len() == 1);
        assert("microsecs"@.len() == 9);
    }
    assert("h"@ != "microsecond"@) by {
        assert("h"@.len() == 1);
        assert("microsecond"@.len() == 11);
    }
    assert("h"@ != "microseconds"@) by {
        assert("h"@.len() == 1);
        assert("microseconds"@.len() == 12);
    }
    assert("h"@ != "ms"@) by {
        assert("h"@.len() == 1);
        assert("ms"@.len() == 2);
    }
    assert("h"@ != "msec"@) by {
        assert("h"@.len() == 1);
        assert("msec"@.len() == 4);
    }
    assert("h"@ != "msecs"@) by {
        assert("h"@.len() == 1);
        assert("msecs"@.len() == 5);
    }
    assert("h"@ != "millisecond"@) by {
        assert("h"@.len() == 1);
        assert("millisecond"@.len() == 11);
    }
    assert("h"@ != "milliseconds"@) by {
        assert("h"@.len() == 1);
        assert("milliseconds"@.len() == 12);
    }
    assert("h"@ != "s"@) by {
        assert("h"@[0] == 'h');
        assert("s"@[0] == 's');
    }
    assert("h"@ != "sec"@) by {
        assert("h"@.len() == 1);
        assert("sec"@.len() == 3);
    }
    assert("h"@ != "secs"@) by {
        assert("h"@.len() == 1);
        assert("secs"@.len() == 4);
    }
    assert("h"@ != "second"@) by {
        assert("h"@.len() == 1);
        assert("second"@.len() == 6);
    }
    assert("h"@ != "seconds"@) by {
        assert("h"@.len() == 1);
        assert("seconds"@.len() == 7);
    }
    assert("h"@ != "m"@) by {
        assert("h"@[0] == 'h');
        assert("m"@[0] == 'm');
    }
    assert("h"@ != "min"@) by {
        assert("h"@.len() == 1);
        assert("min"@.len() == 3);
    }
    assert("h"@ != "mins"@) by {
        assert("h"@.len() == 1);
        assert("mins"@.len() == 4);
    }
    assert("h"@ != "minute"@) by {
        assert("h"@.len() == 1);
        assert("minute"@.len() == 6);
    }
    assert("h"@ != "minutes"@) by {
        assert("h"@.len() == 1);
        assert("minutes"@.len() == 7);
    }
    assert("d"@ != "ns"@) by {
        assert("d"@.len() == 1);
        assert("ns"@.len() == 2);
    }
    assert("d"@ != "nsec"@) by {
        assert("d"@.len() == 1);
        assert("nsec"@.len() == 4);
    }
    assert("d"@ != "nsecs"@) by {
        assert("d"@.len() == 1);
        assert("nsecs"@.len() == 5);
    }
    assert("d"@ != "nanosec"@) by {
        assert("d"@.len() == 1);
        assert("nanosec"@.len() == 7);
    }
    assert("d"@ != "nanosecs"@) by {
        assert("d"@.len() == 1);
        assert("nanosecs"@.len() == 8);
    }
    assert("d"@ != "nanosecond"@) by {
        assert("d"@.len() == 1);
        assert("nanosecond"@.len() == 10);
    }
    assert("d"@ != "nanoseconds"@) by {
        assert("d"@.len() == 1);
        assert("nanoseconds"@.len() == 11);
    }
    assert("d"@ != "μs"@) by {
        assert("d"@.len() == 1);
        assert("μs"@.len() == 2);
    }
    assert("d"@ != "us"@) by {
        assert("d"@.len() == 1);
        assert("us"@.len() == 2);
    }
    assert("d"@ != "usec"@) by {
        assert("d"@.len() == 1);
        assert("usec"@.len() == 4);
    }
    assert("d"@ != "usecs"@) by {
        assert("d"@.len() == 1);
        assert("usecs"@.len() == 5);
    }
    assert("d"@ != "microsec"@) by {
        assert("d"@.len() == 1);
        assert("microsec"@.len() == 8);
    }
    assert("d"@ != "microsecs"@) by {
        assert("d"@.len() == 1);
        assert("microsecs"@.len() == 9);
    }
    assert("d"@ != "microsecond"@) by {
        assert("d"@.len() == 1);
        assert("microsecond"@.len() == 11);
    }
    assert("d"@ != "microseconds"@) by {
        assert("d"@.len() == 1);
        assert("microseconds"@.len() == 12);
    }
    assert("d"@ != "ms"@) by {
        assert("d"@.len() == 1);
        assert("ms"@.len() == 2);
    }
    assert("d"@ != "msec"@) by {
        assert("d"@.len() == 1);
        assert("msec"@.len() == 4);
    }
    assert("d"@ != "msecs"@) by {
        assert("d"@.len() == 1);
        assert("msecs"@.len() == 5);
    }
    assert("d"@ != "millisecond"@) by {
        assert("d"@.len() == 1);
        assert("millisecond"@.len() == 11);
    }
    assert("d"@ != "milliseconds"@) by {
        assert("d"@.len() == 1);
        assert("milliseconds"@.len() == 12);
    }
    assert("d"@ != "s"@) by {
        assert("d"@[0] == 'd');
        assert("s"@[0] == 's');
    }
    assert("d"@ != "sec"@) by {
        assert("d"@.len() == 1);
        assert("sec"@.len() == 3);
    }
    assert("d"@ != "secs"@) by {
        assert("d"@.len() == 1);
        assert("secs"@.len() == 4);
    }
    assert("d"@ != "second"@) by {
        assert("d"@.len() == 1);
        assert("second"@.len() == 6);
    }
    assert("d"@ != "seconds"@) by {
        assert("d"@.len() == 1);
        assert("seconds"@.len() == 7);
    }
    assert("d"@ != "m"@) by {
        assert("d"@[0] == 'd');
        assert("m"@[0] == 'm');
    }
    assert("d"@ != "min"@) by {
        assert("d"@.len() == 1);
        assert("min"@.len() == 3);
    }
    assert("d"@ != "mins"@) by {
        assert("d"@.len() == 1);
        assert("mins"@.len() == 4);
    }
    assert("d"@ != "minute"@) by {
        assert("d"@.len() == 1);
        assert("minute"@.len() == 6);
    }
    assert("d"@ != "minutes"@) by {
        assert("d"@.len() == 1);
        assert("minutes"@.len() == 7);
    }
    assert("d"@ != "h"@) by {
        assert("d"@[0] == 'd');
        assert("h"@[0] == 'h');
    }
    assert("d"@ != "hr"@) by {
        assert("d"@.len() == 1);
        assert("hr"@.len() == 2);
    }
    assert("d"@ != "hrs"@) by {
        assert("d"@.len() == 1);
        assert("hrs"@.len() == 3);
    }
    assert("d"@ != "hour"@) by {
        assert("d"@.len() == 1);
        assert("hour"@.len() == 4);
    }
    assert("d"@ != "hours"@) by {
        assert("d"@.len() == 1);
        assert("hours"@.len() == 5);
    }
    assert("w"@ != "ns"@) by {
        assert("w"@.len() == 1);
        assert("ns"@.len() == 2);
    }
    assert("w"@ != "nsec"@) by {
        assert("w"@.len() == 1);
        assert("nsec"@.len() == 4);
    }
    assert("w"@ != "nsecs"@) by {
        assert("w"@.len() == 1);
        assert("nsecs"@.len() == 5);
    }
    assert("w"@ != "nanosec"@) by {
        assert("w"@.len() == 1);
        assert("nanosec"@.len() == 7);
    }
    assert("w"@ != "nanosecs"@) by {
        assert("w"@.len() == 1);
        assert("nanosecs"@.len() == 8);
    }
    assert("w"@ != "nanosecond"@) by {
        assert("w"@.len() == 1);
        assert("nanosecond"@.len() == 10);
    }
    assert("w"@ != "nanoseconds"@) by {
        assert("w"@.len() == 1);
        assert("nanoseconds"@.len() == 11);
    }
    assert("w"@ != "μs"@) by {
        assert("w"@.len() == 1);
        assert("μs"@.len() == 2);
    }
    assert("w"@ != "us"@) by {
        assert("w"@.len() == 1);
        assert("us"@.len() == 2);
    }
    assert("w"@ != "usec"@) by {
        assert("w"@.len() == 1);
        assert("usec"@.len() == 4);
    }
    assert("w"@ != "usecs"@) by {
        assert("w"@.len() == 1);
        assert("usecs"@.len() == 5);
    }
    assert("w"@ != "microsec"@) by {
        assert("w"@.len() == 1);
        assert("microsec"@.len() == 8);
    }
    assert("w"@ != "microsecs"@) by {
        assert("w"@.len() == 1);
        assert("microsecs"@.len() == 9);
    }
    assert("w"@ != "microsecond"@) by {
        assert("w"@.len() == 1);
        assert("microsecond"@.len() == 11);
    }
    assert("w"@ != "microseconds"@) by {
        assert("w"@.len() == 1);
        assert("microseconds"@.len() == 12);
    }
    assert("w"@ != "ms"@) by {
        assert("w"@.len() == 1);
        assert("ms"@.len() == 2);
    }
    assert("w"@ != "msec"@) by {
        assert("w"@.len() == 1);
        assert("msec"@.len() == 4);
    }
    assert("w"@ != "msecs"@) by {
        assert("w"@.len() == 1);
        assert("msecs"@.len() == 5);
    }
    assert("w"@ != "millisecond"@) by {
        assert("w"@.len() == 1);
        assert("millisecond"@.len() == 11);
    }
    assert("w"@ != "milliseconds"@) by {
        assert("w"@.len() == 1);
        assert("milliseconds"@.len() == 12);
    }
    assert("w"@ != "s"@) by {
        assert("w"@[0] == 'w');
        assert("s"@[0] == 's');
    }
    assert("w"@ != "sec"@) by {
        assert("w"@.len() == 1);
        assert("sec"@.len() == 3);
    }
    assert("w"@ != "secs"@) by {
        assert("w"@.len() == 1);
        assert("secs"@.len() == 4);
    }
    assert("w"@ != "second"@) by {
        assert("w"@.len() == 1);
        assert("second"@.len() == 6);
    }
    assert("w"@ != "seconds"@) by {
        assert("w"@.len() == 1);
        assert("seconds"@.len() == 7);
    }
    assert("w"@ != "m"@) by {
        assert("w"@[0] == 'w');
        assert("m"@[0] == 'm');
    }
    assert("w"@ != "min"@) by {
        assert("w"@.len() == 1);
        assert("min"@.len() == 3);
    }
    assert("w"@ != "mins"@) by {
        assert("w"@.len() == 1);
        assert("mins"@.len() == 4);
    }
    assert("w"@ != "minute"@) by {
        assert("w"@.len() == 1);
        assert("minute"@.len() == 6);
    }
    assert("w"@ != "minutes"@) by {
        assert("w"@.len() == 1);
        assert("minutes"@.len() == 7);
    }
    assert("w"@ != "h"@) by {
        assert("w"@[0] == 'w');
        assert("h"@[0] == 'h');
    }
    assert("w"@ != "hr"@) by {
        assert("w"@.len() == 1);
        assert("hr"@.len() == 2);
    }
    assert("w"@ != "hrs"@) by {
        assert("w"@.len() == 1);
        assert("hrs"@.len() == 3);
    }
    assert("w"@ != "hour"@) by {
        assert("w"@.len() == 1);
        assert("hour"@.len() == 4);
    }
    assert("w"@ != "hours"@) by {
        assert("w"@.len() == 1);
        assert("hours"@.len() == 5);
    }
    assert("w"@ != "d"@) by {
        assert("w"@[0] == 'w');
        assert("d"@[0] == 'd');
    }
    assert("w"@ != "day"@) by {
        assert("w"@.len() == 1);
        assert("day"@.len() == 3);
    }
    assert("w"@ != "days"@) by {
        assert("w"@.len() == 1);
        assert("days"@.len() == 4);
    }
    assert("mo"@ != "ns"@) by {
        assert("mo"@[0] == 'm');
        assert("ns"@[0] == 'n');
    }
    assert("mo"@ != "nsec"@) by {
        assert("mo"@.len() == 2);
        assert("nsec"@.len() == 4);
    }
    assert("mo"@ != "nsecs"@) by {
        assert("mo"@.len() == 2);
        assert("nsecs"@.len() == 5);
    }
    assert("mo"@ != "nanosec"@) by {
        assert("mo"@.len() == 2);
        assert("nanosec"@.len() == 7);
    }
    assert("mo"@ != "nanosecs"@) by {
        assert("mo"@.len() == 2);
        assert("nanosecs"@.len() == 8);
    }
    assert("mo"@ != "nanosecond"@) by {
        assert("mo"@.len() == 2);
        assert("nanosecond"@.len() == 10);
    }
    assert("mo"@ != "nanoseconds"@) by {
        assert("mo"@.len() == 2);
        assert("nanoseconds"@.len() == 11);
    }
    assert("mo"@ != "μs"@) by {
        assert("mo"@[0] == 'm');
        assert("μs"@[0] == 'μ');
    }
    assert("mo"@ != "us"@) by {
        assert("mo"@[0] == 'm');
        assert("us"@[0] == 'u');
    }
    assert("mo"@ != "usec"@) by {
        assert("mo"@.len() == 2);
        assert("usec"@.len() == 4);
    }
    assert("mo"@ != "usecs"@) by {
        assert("mo"@.len() == 2);
        assert("usecs"@.len() == 5);
    }
    assert("mo"@ != "microsec"@) by {
        assert("mo"@.len() == 2);
        assert("microsec"@.len() == 8);
    }
    assert("mo"@ != "microsecs"@) by {
        assert("mo"@.len() == 2);
        assert("microsecs"@.len() == 9);
    }
    assert("mo"@ != "microsecond"@) by {
        assert("mo"@.len() == 2);
        assert("microsecond"@.len() == 11);
    }
    assert("mo"@ != "microseconds"@) by {
        assert("mo"@.len() == 2);
        assert("microseconds"@.len() == 12);
    }
    assert("mo"@ != "ms"@) by {
        assert("mo"@[1] == 'o');
        assert("ms"@[1] == 's');
    }
    assert("mo"@ != "msec"@) by {
        assert("mo"@.len() == 2);
        assert("msec"@.len() == 4);
    }
    assert("mo"@ != "msecs"@) by {
        assert("mo"@.len() == 2);
        assert("msecs"@.len() == 5);
    }
    assert("mo"@ != "millisecond"@) by {
        assert("mo"@.len() == 2);
        assert("millisecond"@.len() == 11);
    }
    assert("mo"@ != "milliseconds"@) by {
        assert("mo"@.len() == 2);
        assert("milliseconds"@.len() == 12);
    }
    assert("mo"@ != "s"@) by {
        assert("mo"@.len() == 2);
        assert("s"@.len() == 1);
    }
    assert("mo"@ != "sec"@) by {
        assert("mo"@.len() == 2);
        assert("sec"@.len() == 3);
    }
    assert("mo"@ != "secs"@) by {
        assert("mo"@.len() == 2);
        assert("secs"@.len() == 4);
    }
    assert("mo"@ != "second"@) by {
        assert("mo"@.len() == 2);
        assert("second"@.len() == 6);
    }
    assert("mo"@ != "seconds"@) by {
        assert("mo"@.len() == 2);
        assert("seconds"@.len() == 7);
    }
    assert("mo"@ != "m"@) by {
        assert("mo"@.len() == 2);
        assert("m"@.len() == 1);
    }
    assert("mo"@ != "min"@) by {
        assert("mo"@.len() == 2);
        assert("min"@.len() == 3);
    }
    assert("mo"@ != "mins"@) by {
        assert("mo"@.len() == 2);
        assert("mins"@.len() == 4);
    }
    assert("mo"@ != "minute"@) by {
        assert("mo"@.len() == 2);
        assert("minute"@.len() == 6);
    }
    assert("mo"@ != "minutes"@) by {
        assert("mo"@.len() == 2);
        assert("minutes"@.len() == 7);
    }
    assert("mo"@ != "h"@) by {
        assert("mo"@.len() == 2);
        assert("h"@.len() == 1);
    }
    assert("mo"@ != "hr"@) by {
        assert("mo"@[0] == 'm');
        assert("hr"@[0] == 'h');
    }
    assert("mo"@ != "hrs"@) by {
        assert("mo"@.len() == 2);
        assert("hrs"@.len() == 3);
    }
    assert("mo"@ != "hour"@) by {
        assert("mo"@.len() == 2);
        assert("hour"@.len() == 4);
    }
    assert("mo"@ != "hours"@) by {
        assert("mo"@.len() == 2);
        assert("hours"@.len() == 5);
    }
    assert("mo"@ != "d"@) by {
        assert("mo"@.len() == 2);
        assert("d"@.len() == 1);
    }
    assert("mo"@ != "day"@) by {
        assert("mo"@.len() == 2);
        assert("day"@.len() == 3);
    }
    assert("mo"@ != "days"@) by {
        assert("mo"@.len() == 2);
        assert("days"@.len() == 4);
    }
    assert("mo"@ != "w"@) by {
        assert("mo"@.len() == 2);
        assert("w"@.len() == 1);
    }
    assert("mo"@ != "wk"@) by {
        assert("mo"@[0] == 'm');
        assert("wk"@[0] == 'w');
    }
    assert("mo"@ != "wks"@) by {
        assert("mo"@.len() == 2);
        assert("wks"@.len() == 3);
    }
    assert("mo"@ != "week"@) by {
        assert("mo"@.len() == 2);
        assert("week"@.len() == 4);
    }
    assert("mo"@ != "weeks"@) by {
        assert("mo"@.len() == 2);
        assert("weeks"@.len() == 5);
    }
    assert("y"@ != "ns"@) by {
        assert("y"@.len() == 1);
        assert("ns"@.len() == 2);
    }
    assert("y"@ != "nsec"@) by {
        assert("y"@.len() == 1);
        assert("nsec"@.len() == 4);
    }
    assert("y"@ != "nsecs"@) by {
        assert("y"@.len() == 1);
        assert("nsecs"@.len() == 5);
    }
    assert("y"@ != "nanosec"@) by {
        assert("y"@.len() == 1);
        assert("nanosec"@.len() == 7);
    }
    assert("y"@ != "nanosecs"@) by {
        assert("y"@.len() == 1);
        assert("nanosecs"@.len() == 8);
    }
    assert("y"@ != "nanosecond"@) by {
        assert("y"@.len() == 1);
        assert("nanosecond"@.len() == 10);
    }
    assert("y"@ != "nanoseconds"@) by {
        assert("y"@.len() == 1);
        assert("nanoseconds"@.len() == 11);
    }
    assert("y"@ != "μs"@) by {
        assert("y"@.len() == 1);
        assert("μs"@.len() == 2);
    }
    assert("y"@ != "us"@) by {
        assert("y"@.len() == 1);
        assert("us"@.len() == 2);
    }
    assert("y"@ != "usec"@) by {
        assert("y"@.len() == 1);
        assert("usec"@.len() == 4);
    }
    assert("y"@ != "usecs"@) by {
        assert("y"@.len() == 1);
        assert("usecs"@.len() == 5);
    }
    assert("y"@ != "microsec"@) by {
        assert("y"@.len() == 1);
        assert("microsec"@.len() == 8);
    }
    assert("y"@ != "microsecs"@) by {
        assert("y"@.len() == 1);
        assert("microsecs"@.len() == 9);
    }
    assert("y"@ != "microsecond"@) by {
        assert("y"@.len() == 1);
        assert("microsecond"@.len() == 11);
    }
    assert("y"@ != "microseconds"@) by {
        assert("y"@.len() == 1);
        assert("microseconds"@.len() == 12);
    }
    assert("y"@ != "ms"@) by {
        assert("y"@.len() == 1);
        assert("ms"@.len() == 2);
    }
    assert("y"@ != "msec"@) by {
        assert("y"@.len() == 1);
        assert("msec"@.len() == 4);
    }
    assert("y"@ != "msecs"@) by {
        assert("y"@.len() == 1);
        assert("msecs"@.len() == 5);
    }
    assert("y"@ != "millisecond"@) by {
        assert("y"@.len() == 1);
        assert("millisecond"@.len() == 11);
    }
    assert("y"@ != "milliseconds"@) by {
        assert("y"@.len() == 1);
        assert("milliseconds"@.len() == 12);
    }
    assert("y"@ != "s"@) by {
        assert("y"@[0] == 'y');
        assert("s"@[0] == 's');
    }
    assert("y"@ != "sec"@) by {
        assert("y"@.len() == 1);
        assert("sec"@.len() == 3);
    }
    assert("y"@ != "secs"@) by {
        assert("y"@.len() == 1);
        assert("secs"@.len() == 4);
    }
    assert("y"@ != "second"@) by {
        assert("y"@.len() == 1);
        assert("second"@.len() == 6);
    }
    assert("y"@ != "seconds"@) by {
        assert("y"@.len() == 1);
        assert("seconds"@.len() == 7);
    }
    assert("y"@ != "m"@) by {
        assert("y"@[0] == 'y');
        assert("m"@[0] == 'm');
    }
    assert("y"@ != "min"@) by {
        assert("y"@.len() == 1);
        assert("min"@.len() == 3);
    }
    assert("y"@ != "mins"@) by {
        assert("y"@.len() == 1);
        assert("mins"@.len() == 4);
    }
    assert("y"@ != "minute"@) by {
        assert("y"@.len() == 1);
        assert("minute"@.len() == 6);
    }
    assert("y"@ != "minutes"@) by {
        assert("y"@.len() == 1);
        assert("minutes"@.len() == 7);
    }
    assert("y"@ != "h"@) by {
        assert("y"@[0] == 'y');
        assert("h"@[0] == 'h');
    }
    assert("y"@ != "hr"@) by {
        assert("y"@.len() == 1);
        assert("hr"@.len() == 2);
    }
    assert("y"@ != "hrs"@) by {
        assert("y"@.len() == 1);
        assert("hrs"@.len() == 3);
    }
    assert("y"@ != "hour"@) by {
        assert("y"@.len() == 1);
        assert("hour"@.len() == 4);
    }
    assert("y"@ != "hours"@) by {
        assert("y"@.len() == 1);
        assert("hours"@.len() == 5);
    }
    assert("y"@ != "d"@) by {
        assert("y"@[0] == 'y');
        assert("d"@[0] == 'd');
    }
    assert("y"@ != "day"@) by {
        assert("y"@.len() == 1);
        assert("day"@.len() == 3);
    }
    assert("y"@ != "days"@) by {
        assert("y"@.len() == 1);
        assert("days"@.len() == 4);
    }
    assert("y"@ != "w"@) by {
        assert("y"@[0] == 'y');
        assert("w"@[0] == 'w');
    }
    assert("y"@ != "wk"@) by {
        assert("y"@.len() == 1);
        assert("wk"@.len() == 2);
    }
    assert("y"@ != "wks"@) by {
        assert("y"@.len() == 1);
        assert("wks"@.len() == 3);
    }
    assert("y"@ != "week"@) by {
        assert("y"@.len() == 1);
        assert("week"@.len() == 4);
    }
    assert("y"@ != "weeks"@) by {
        assert("y"@.len() == 1);
        assert("weeks"@.len() == 5);
    }
    assert("y"@ != "mo"@) by {
        assert("y"@.len() == 1);
        assert("mo"@.len() == 2);
    }
    assert("y"@ != "month"@) by {
        assert("y"@.len() == 1);
        assert("month"@.len() == 5);
    }
    assert("y"@ != "months"@) by {
        assert("y"@.len() == 1);
        assert("months"@.len() == 6);
    }
}

/// Parsing one canonical segment: at a position holding the decimal form
/// of a value directly followed by a recognized unit alias, with a digit
/// or the end of the input after it, one pass of the parse loop consumes
/// exactly the segment and applies the unit to the accumulator.
#[verifier::rlimit(60)]
#[verifier::spinoff_prover]
proof fn lemma_parse_step(
    s: Seq<char>,
    p: int,
    f: u64,
    alias: Seq<char>,
    t: TimeUnit,
    acc: Duration,
    acc2: Duration,
)
    requires
        0 <= p,
        p + spec_dec(f as nat).len() + alias.len() <= s.len(),
        s.subrange(p, p + spec_dec(f as nat).len() as int) == spec_dec(f as nat),
        s.subrange(
            p + spec_dec(f as nat).len() as int,
            p + spec_dec(f as nat).len() + alias.len(),
        ) == alias,
        1 <= alias.len() <= MAX_DATA_CHUNK_LENGTH as int,
        all_unit_chars(alias),
        unit_for_alias(alias) == Some(t),
        p + spec_dec(f as nat).len() + alias.len() == s.len() || is_dec_digit(
            s[p + spec_dec(f as nat).len() + alias.len()],
        ),
        spec_apply_unit(acc, false, t, f) == Ok::<(Duration, bool), TimeUnit>((acc2, false)),
    ensures
        spec_parse_loop(s, p, acc, false) == spec_parse_loop(
            s,
            p + spec_dec(f as nat).len() + alias.len(),
            acc2,
            false,
        ),
{
    let dec = spec_dec(f as nat);
    let dl = dec.len() as int;
    let al = alias.len() as int;
    let pend = p + dl + al;
    lemma_spec_dec_digits(f as nat);
    lemma_dec_len_u64(f);

    assert(forall|m: int| p <= m < p + dl ==> is_dec_digit(#[trigger] s[m])) by {
        assert(forall|m: int|
            p <= m < p + dl ==> s[m] == s.subrange(p, p + dl)[m - p]);
    }
    assert(s[p + dl] == alias[0]) by {
        assert(s.subrange(p + dl, pend)[0] == alias[0]);
    }
    assert(is_unit_char(alias[0]));
    assert(!is_dec_digit(s[p + dl]));
    lemma_digit_run_exact(s, p + 1, p + dl);
    assert(digits_val(s.subrange(p, p + dl)) == f as nat);

    assert(forall|m: int| p + dl < m < pend ==> is_unit_char(#[trigger] s[m])) by {
        assert(forall|m: int|
            p + dl <= m < pend ==> s[m] == s.subrange(p + dl, pend)[m - (p + dl)]);
    }
    if pend < s.len() {
        assert(!is_unit_char(s[pend]));
    }
    lemma_unit_run_exact(s, p + dl + 1, pend);
    assert(s[p + dl] != ' ');
    if pend < s.len() {
        assert(s[pend] != ' ');
    }
    assert(spec_parse_loop(s, p, acc, false) == spec_parse_loop(s, pend, acc2, false));
}

/// A canonical segment awaiting parsing: a field value, the alias text
/// that follows it, and the unit that alias names.
pub open spec fn wf_entry(e: (u64, Seq<char>, TimeUnit)) -> bool {
    &&& 1 <= e.1.len() <= MAX_DATA_CHUNK_LENGTH as int
    &&& all_unit_chars(e.1)
    &&& unit_for_alias(e.1) == Some(e.2)
}

/// The text of a list of canonical segments, each a decimal value
/// directly followed by its alias.
pub open spec fn segs_text(l: Seq<(u64, Seq<char>, TimeUnit)>) -> Seq<char>
    decreases l.len(),
{
    if l.len() == 0 {
        Seq::<char>::empty()
    } else {
        (spec_dec(l[0].0 as nat) + l[0].1) + segs_text(l.drop_first())
    }
}

/// The accumulator after supplying every segment of a list in order,
/// or nothing when some segment is refused or folds a week in.
pub open spec fn apply_entries(acc: Duration, l: Seq<(u64, Seq<char>, TimeUnit)>) -> Option<
    Duration,
>
    decreases l.len(),
{
    if l.len() == 0 {
        Some(acc)
    } else {
        match spec_apply_unit(acc, false, l[0].2, l[0].0) {
            Ok(r) => if r.1 == false {
                apply_entries(r.0, l.drop_first())
            } else {
                None
            },
            Err(repeated) => None,
        }
    }
}

/// Appending a segment to a list appends its text.
proof fn lemma_segs_text_push(l: Seq<(u64, Seq<char>, TimeUnit)>, e: (u64, Seq<char>, TimeUnit))
    ensures
        segs_text(l.push(e)) == segs_text(l) + (spec_dec(e.0 as nat) + e.1),
    decreases l.len(),
{
    let lp = l.push(e);
    if l.len() == 0 {
        assert(lp[0] == e);
        assert(lp.drop_first() =~= Seq::<(u64, Seq<char>, TimeUnit)>::empty());
        assert(segs_text(lp) == (spec_dec(e.0 as nat) + e.1) + segs_text(lp.drop_first()));
        assert(segs_text(lp) =~= segs_text(l) + (spec_dec(e.0 as nat) + e.1));
    } else {
        let head = spec_dec(l[0].0 as nat) + l[0].1;
        assert(lp[0] == l[0]);
        assert(lp.drop_first() =~= l.drop_first().push(e));
        lemma_segs_text_push(l.drop_first(), e);
        assert(segs_text(lp) == head + segs_text(lp.drop_first()));
        assert(segs_text(lp.drop_first()) == segs_text(l.drop_first().push(e)));
        assert(segs_text(l) == head + segs_text(l.drop_first()));
        assert(segs_text(lp) =~= segs_text(l) + (spec_dec(e.0 as nat) + e.1));
    }
}

/// Appending a segment to a list applies its unit after the others.
proof fn lemma_apply_entries_push(
    acc: Duration,
    l: Seq<(u64, Seq<char>, TimeUnit)>,
    e: (u64, Seq<char>, TimeUnit),
    mid: Duration,
    fin: Duration,
)
    requires
        apply_entries(acc, l) == Some(mid),
        spec_apply_unit(mid, false, e.2, e.0) == Ok::<(Duration, bool), TimeUnit>((fin, false)),
    ensures
        apply_entries(acc, l.push(e)) == Some(fin),
    decreases l.len(),
{
    let lp = l.push(e);
    if l.len() == 0 {
        assert(acc == mid);
        assert(lp[0] == e);
        assert(lp.drop_first() =~= Seq::<(u64, Seq<char>, TimeUnit)>::empty());
        assert(lp.drop_first().len() == 0);
        assert(apply_entries(fin, lp.drop_first()) == Some(fin));
        assert(apply_entries(acc, lp) == Some(fin));
    } else {
        assert(lp[0] == l[0]);
        assert(lp.drop_first() =~= l.drop_first().push(e));
        match spec_apply_unit(acc, false, l[0].2, l[0].0) {
            Ok(r) => {
                lemma_apply_entries_push(r.0, l.drop_first(), e, mid, fin);
                assert(apply_entries(acc, lp) == Some(fin));
            },
            Err(repeated) => {
                assert(false);
            },
        }
    }
}

/// Parsing the text of a list of canonical segments from a position at
/// which it ends the input consumes them all and yields the accumulator
/// they build.
proof fn lemma_parse_segs(
    s: Seq<char>,
    p: int,
    l: Seq<(u64, Seq<char>, TimeUnit)>,
    acc: Duration,
    fin: Duration,
)
    requires
        0 <= p <= s.len(),
        s.subrange(p, s.len() as int) == segs_text(l),
        forall|i: int| 0 <= i < l.len() ==> wf_entry(#[trigger] l[i]),
        apply_entries(acc, l) == Some(fin),
    ensures
        spec_parse_loop(s, p, acc, false) == Ok::<Duration, ErrorView>(fin),
    decreases l.len(),
{
    if l.len() == 0 {
        assert(s.len() - p == 0);
    } else {
        let e = l[0];
        let dec = spec_dec(e.0 as nat);
        let dl = dec.len() as int;
        let al = e.1.len() as int;
        let pend = p + dl + al;
        let rest = l.drop_first();
        assert(wf_entry(e));
        lemma_spec_dec_digits(e.0 as nat);
        assert(segs_text(l) == (dec + e.1) + segs_text(rest));
        assert(s.len() - p == dl + al + segs_text(rest).len());
        assert(forall|m: int| 0 <= m < s.len() - p ==> s[p + m] == segs_text(l)[m]) by {
            assert(forall|m: int|
                0 <= m < s.len() - p ==> s.subrange(p, s.len() as int)[m] == s[p + m]);
        }
        assert(forall|m: int| 0 <= m < dl ==> s[p + m] == dec[m]) by {
            assert(forall|m: int|
                0 <= m < dl ==> segs_text(l)[m] == #[trigger] ((dec + e.1) + segs_text(
                    rest,
                ))[m]);
            assert(forall|m: int|
                0 <= m < dl ==> ((dec + e.1) + segs_text(rest))[m] == #[trigger] (dec + e.1)[m]);
            assert(forall|m: int| 0 <= m < dl ==> (dec + e.1)[m] == dec[m]);
        }
        assert(s.subrange(p, p + dl) =~= dec);
        assert(forall|m: int| 0 <= m < al ==> s[p + dl + m] == e.1[m]) by {
            assert(forall|m: int|
                0 <= m < al ==> segs_text(l)[dl + m] == #[trigger] ((dec + e.1) + segs_text(
                    rest,
                ))[dl + m]);
            assert(forall|m: int|
                0 <= m < al ==> ((dec + e.1) + segs_text(rest))[dl + m] == #[trigger] (dec
                    + e.1)[dl + m]);
            assert(forall|m: int| 0 <= m < al ==> (dec + e.1)[dl + m] == e.1[m]);
        }
        assert(s.subrange(p + dl, pend) =~= e.1);
        assert(forall|m: int|
            0 <= m < segs_text(rest).len() ==> s[pend + m] == segs_text(rest)[m]) by {
            assert(forall|m: int|
                0 <= m < segs_text(rest).len() ==> segs_text(l)[dl + al + m] == #[trigger] ((dec
                    + e.1) + segs_text(rest))[dl + al + m]);
            assert(forall|m: int|
                0 <= m < segs_text(rest).len() ==> ((dec + e.1) + segs_text(rest))[dl + al + m]
                    == #[trigger] segs_text(rest)[m]);
        }
        assert(s.subrange(pend, s.len() as int) =~= segs_text(rest));
        if pend < s.len() {
            assert(segs_text(rest).len() > 0);
            assert(rest.len() > 0);
            assert(wf_entry(rest[0]));
            lemma_spec_dec_digits(rest[0].0 as nat);
            assert(segs_text(rest) == (spec_dec(rest[0].0 as nat) + rest[0].1) + segs_text(
                rest.drop_first(),
            ));
            assert(segs_text(rest)[0] == spec_dec(rest[0].0 as nat)[0]);
            assert(is_dec_digit(segs_text(rest)[0]));
            assert(s[pend] == segs_text(rest)[0]);
        }
        match spec_apply_unit(acc, false, e.2, e.0) {
            Ok(r) => {
                assert(r.1 == false);
                lemma_parse_step(s, p, e.0, e.1, e.2, acc, r.0);
                lemma_parse_segs(s, pend, rest, r.0, fin);
            },
            Err(repeated) => {
                assert(false);
            },
        }
    }
}

/// Every character of a canonical segment list's text is a digit or a
/// unit character; in particular none is a space.
proof fn lemma_segs_text_chars(l: Seq<(u64, Seq<char>, TimeUnit)>)
    requires
        forall|i: int| 0 <= i < l.len() ==> wf_entry(#[trigger] l[i]),
    ensures
        forall|i: int|
            0 <= i < segs_text(l).len() ==> (is_dec_digit(#[trigger] segs_text(l)[i])
                || is_unit_char(segs_text(l)[i])),
    decreases l.len(),
{
    if l.len() > 0 {
        let e = l[0];
        let dec = spec_dec(e.0 as nat);
        let head = dec + e.1;
        let rest = l.drop_first();
        assert(wf_entry(e));
        lemma_spec_dec_digits(e.0 as nat);
        lemma_segs_text_chars(rest);
        assert(segs_text(l) == head + segs_text(rest));
        assert(forall|i: int|
            0 <= i < segs_text(l).len() ==> (is_dec_digit(#[trigger] segs_text(l)[i])
                || is_unit_char(segs_text(l)[i]))) by {
            assert(forall|i: int|
                0 <= i < head.len() ==> (is_dec_digit(#[trigger] head[i]) || is_unit_char(
                    head[i],
                )));
            assert(forall|i: int|
                0 <= i < segs_text(l).len() ==> segs_text(l)[i] == #[trigger] (head + segs_text(
                    rest,
                ))[i]);
        }
    }
}

/// The fixed zero form parses back to the all-zero duration.
proof fn lemma_parse_zero_text()
    ensures
        spec_parse("0ns"@) == Ok::<Duration, ErrorView>(
            Duration {
                nanoseconds: 0,
                microseconds: 0,
                milliseconds: 0,
                seconds: 0,
                minutes: 0,
                hours: 0,
                days: 0,
                months: 0,
                years: 0,
            },
        ),
{
    let s = "0ns"@;
    let z = Duration {
        nanoseconds: 0,
        microseconds: 0,
        milliseconds: 0,
        seconds: 0,
        minutes: 0,
        hours: 0,
        days: 0,
        months: 0,
        years: 0,
    };
    reveal_strlit("0ns");
    lemma_short_aliases();
    let l = seq![(0u64, "ns"@, TimeUnit::Nanosecond)];
    assert(wf_entry(l[0]));
    assert(l.drop_first().len() == 0);
    assert(segs_text(l) == (spec_dec(0) + "ns"@) + segs_text(l.drop_first()));
    lemma_spec_dec_digits(0);
    assert(spec_dec(0) == seq![digit_char(0)]);
    assert(s.len() == 3);
    assert(s.subrange(0, 3) =~= segs_text(l)) by {
        reveal_strlit("ns");
        assert(s[0] == '0' && s[1] == 'n' && s[2] == 's');
        assert(segs_text(l).len() == 3);
        assert(segs_text(l)[0] == digit_char(0));
        assert(segs_text(l)[1] == "ns"@[0]);
        assert(segs_text(l)[2] == "ns"@[1]);
    }
    assert(spec_apply_unit(z, false, TimeUnit::Nanosecond, 0u64) == Ok::<
        (Duration, bool),
        TimeUnit,
    >((z, false))) by {
        assert(Duration { nanoseconds: 0u64, ..z } == z);
    }
    assert(apply_entries(z, l.drop_first()) == Some(z));
    assert(apply_entries(z, l) == Some(z));
    lemma_parse_segs(s, 0, l, z, z);
}

/// Rendering under the default options and parsing the text back is
/// lossless: for every duration value, the default-formatted text parses
/// to exactly that value. Text already in canonical largest-to-smallest
/// short-unit order therefore round-trips exactly through parse and
/// format.
#[verifier::rlimit(100)]
#[verifier::spinoff_prover]
pub proof fn lemma_format_parse_round_trip(d: Duration)
    ensures
        spec_parse(spec_format(d@, default_options())) == Ok::<Duration, ErrorView>(d),
{
    reveal(spec_segment);
    lemma_short_aliases();
    let o = default_options();
    let v = d@;
    let z = Duration {
        nanoseconds: 0,
        microseconds: 0,
        milliseconds: 0,
        seconds: 0,
        minutes: 0,
        hours: 0,
        days: 0,
        months: 0,
        years: 0,
    };
    let s1 = spec_segment(v.years, o.show_years, o, "y"@, " year "@, " years "@);
    let s2 = spec_segment(v.months, o.show_months, o, "mo"@, " month "@, " months "@);
    let s3 = spec_segment(v.days, o.show_days, o, "d"@, " day "@, " days "@);
    let s4 = spec_segment(v.hours, o.show_hours, o, "h"@, " hour "@, " hours "@);
    let s5 = spec_segment(v.minutes, o.show_minutes, o, "m"@, " minute "@, " minutes "@);
    let s6 = spec_segment(v.seconds, o.show_seconds, o, "s"@, " second "@, " seconds "@);
    let s7 = spec_segment(v.milliseconds, o.show_milliseconds, o, "ms"@, " millisecond "@, " milliseconds "@);
    let s8 = spec_segment(v.microseconds, o.show_microseconds, o, "μs"@, " microsecond "@, " microseconds "@);
    let s9 = spec_segment(v.nanoseconds, o.show_nanoseconds, o, "ns"@, " nanosecond "@, " nanoseconds "@);
    let body = s1 + s2 + s3 + s4 + s5 + s6 + s7 + s8 + s9;

    let l0 = Seq::<(u64, Seq<char>, TimeUnit)>::empty();
    let l1 = if d.years != 0 { l0.push((d.years, "y"@, TimeUnit::Year)) } else { l0 };
    let l2 = if d.months != 0 { l1.push((d.months, "mo"@, TimeUnit::Month)) } else { l1 };
    let l3 = if d.days != 0 { l2.push((d.days, "d"@, TimeUnit::Day)) } else { l2 };
    let l4 = if d.hours != 0 { l3.push((d.hours, "h"@, TimeUnit::Hour)) } else { l3 };
    let l5 = if d.minutes != 0 { l4.push((d.minutes, "m"@, TimeUnit::Minute)) } else { l4 };
    let l6 = if d.seconds != 0 { l5.push((d.seconds, "s"@, TimeUnit::Second)) } else { l5 };
    let l7 = if d.milliseconds != 0 { l6.push((d.milliseconds, "ms"@, TimeUnit::Millisecond)) } else { l6 };
    let l8 = if d.microseconds != 0 { l7.push((d.microseconds, "μs"@, TimeUnit::Microsecond)) } else { l7 };
    let l9 = if d.nanoseconds != 0 { l8.push((d.nanoseconds, "ns"@, TimeUnit::Nanosecond)) } else { l8 };

    let a0 = z;
    let a1 = if d.years != 0 { Duration { years: d.years, ..a0 } } else { a0 };
    let a2 = if d.months != 0 { Duration { months: d.months, ..a1 } } else { a1 };
    let a3 = if d.days != 0 { Duration { days: d.days, ..a2 } } else { a2 };
    let a4 = if d.hours != 0 { Duration { hours: d.hours, ..a3 } } else { a3 };
    let a5 = if d.minutes != 0 { Duration { minutes: d.minutes, ..a4 } } else { a4 };
    let a6 = if d.seconds != 0 { Duration { seconds: d.seconds, ..a5 } } else { a5 };
    let a7 = if d.milliseconds != 0 { Duration { milliseconds: d.milliseconds, ..a6 } } else { a6 };
    let a8 = if d.microseconds != 0 { Duration { microseconds: d.microseconds, ..a7 } } else { a7 };
    let a9 = if d.nanoseconds != 0 { Duration { nanoseconds: d.nanoseconds, ..a8 } } else { a8 };

    if d.years != 0 {
        lemma_segs_text_push(l0, (d.years, "y"@, TimeUnit::Year));
        lemma_apply_entries_push(z, l0, (d.years, "y"@, TimeUnit::Year), a0, a1);
    }
    assert(segs_text(l1) =~= s1);
    assert(apply_entries(z, l1) == Some(a1));
    assert(forall|i: int| 0 <= i < l1.len() ==> wf_entry(#[trigger] l1[i]));

    if d.months != 0 {
        lemma_segs_text_push(l1, (d.months, "mo"@, TimeUnit::Month));
        lemma_apply_entries_push(z, l1, (d.months, "mo"@, TimeUnit::Month), a1, a2);
    }
    assert(segs_text(l2) =~= s1 + s2);
    assert(apply_entries(z, l2) == Some(a2));
    assert(forall|i: int| 0 <= i < l2.len() ==> wf_entry(#[trigger] l2[i]));

    if d.days != 0 {
        lemma_segs_text_push(l2, (d.days, "d"@, TimeUnit::Day));
        lemma_apply_entries_push(z, l2, (d.days, "d"@, TimeUnit::Day), a2, a3);
    }
    assert(segs_text(l3) =~= s1 + s2 + s3);
    assert(apply_entries(z, l3) == Some(a3));
    assert(forall|i: int| 0 <= i < l3.len() ==> wf_entry(#[trigger] l3[i]));

    if d.hours != 0 {
        lemma_segs_text_push(l3, (d.hours, "h"@, TimeUnit::Hour));
        lemma_apply_entries_push(z, l3, (d.hours, "h"@, TimeUnit::Hour), a3, a4);
    }
    assert(segs_text(l4) =~= s1 + s2 + s3 + s4);
    assert(apply_entries(z, l4) == Some(a4));
    assert(forall|i: int| 0 <= i < l4.len() ==> wf_entry(#[trigger] l4[i]));

    if d.minutes != 0 {
        lemma_segs_text_push(l4, (d.minutes, "m"@, TimeUnit::Minute));
        lemma_apply_entries_push(z, l4, (d.minutes, "m"@, TimeUnit::Minute), a4, a5);
    }
    assert(segs_text(l5) =~= s1 + s2 + s3 + s4 + s5);
    assert(apply_entries(z, l5) == Some(a5));
    assert(forall|i: int| 0 <= i < l5.len() ==> wf_entry(#[trigger] l5[i]));

    if d.seconds != 0 {
        lemma_segs_text_push(l5, (d.seconds, "s"@, TimeUnit::Second));
        lemma_apply_entries_push(z, l5, (d.seconds, "s"@, TimeUnit::Second), a5, a6);
    }
    assert(segs_text(l6) =~= s1 + s2 + s3 + s4 + s5 + s6);
    assert(apply_entries(z, l6) == Some(a6));
    assert(forall|i: int| 0 <= i < l6.len() ==> wf_entry(#[trigger] l6[i]));

    if d.milliseconds != 0 {
        lemma_segs_text_push(l6, (d.milliseconds, "ms"@, TimeUnit::Millisecond));
        lemma_apply_entries_push(z, l6, (d.milliseconds, "ms"@, TimeUnit::Millisecond), a6, a7);
    }
    assert(segs_text(l7) =~= s1 + s2 + s3 + s4 + s5 + s6 + s7);
    assert(apply_entries(z, l7) == Some(a7));
    assert(forall|i: int| 0 <= i < l7.len() ==> wf_entry(#[trigger] l7[i]));

    if d.microseconds != 0 {
        lemma_segs_text_push(l7, (d.microseconds, "μs"@, TimeUnit::Microsecond));
        lemma_apply_entries_push(z, l7, (d.microseconds, "μs"@, TimeUnit::Microsecond), a7, a8);
    }
    assert(segs_text(l8) =~= s1 + s2 + s3 + s4 + s5 + s6 + s7 + s8);
    assert(apply_entries(z, l8) == Some(a8));
    assert(forall|i: int| 0 <= i < l8.len() ==> wf_entry(#[trigger] l8[i]));

    if d.nanoseconds != 0 {
        lemma_segs_text_push(l8, (d.nanoseconds, "ns"@, TimeUnit::Nanosecond));
        lemma_apply_entries_push(z, l8, (d.nanoseconds, "ns"@, TimeUnit::Nanosecond), a8, a9);
    }
    assert(segs_text(l9) =~= body);
    assert(apply_entries(z, l9) == Some(a9));
    assert(forall|i: int| 0 <= i < l9.len() ==> wf_entry(#[trigger] l9[i]));

    assert(a9 == d);

    if body.len() == 0 {
        assert(d.years == 0 && d.months == 0 && d.days == 0 && d.hours == 0 && d.minutes == 0
            && d.seconds == 0 && d.milliseconds == 0 && d.microseconds == 0 && d.nanoseconds
            == 0) by {
            lemma_spec_dec_digits(v.years);
            lemma_spec_dec_digits(v.months);
            lemma_spec_dec_digits(v.days);
            lemma_spec_dec_digits(v.hours);
            lemma_spec_dec_digits(v.minutes);
            lemma_spec_dec_digits(v.seconds);
            lemma_spec_dec_digits(v.milliseconds);
            lemma_spec_dec_digits(v.microseconds);
            lemma_spec_dec_digits(v.nanoseconds);
        }
        assert(d == z);
        assert(spec_format(v, o) == "0ns"@);
        lemma_parse_zero_text();
    } else {
        lemma_segs_text_chars(l9);
        assert(body.last() == segs_text(l9)[segs_text(l9).len() - 1]);
        assert(is_dec_digit(body.last()) || is_unit_char(body.last()));
        assert(body.last() != ' ');
        assert(spec_format(v, o) == body);
        assert(body.subrange(0, body.len() as int) =~= segs_text(l9));
        lemma_parse_segs(body, 0, l9, z, a9);
    }
}

/// Relies on `String::push`: appends exactly one character to the end of
/// the string.
#[verifier::external_body]
fn push_char(out: &mut String, c: char)
    ensures
        final(out)@ == old(out)@.push(c),
{
    out.push(c);
}

/// The human-readable description of a parse failure.
pub open spec fn spec_message(e: ErrorView) -> Seq<char> {
    match e {
        ErrorView::NumberExpected { value, index } => "expected number at index "@ + spec_dec(
            index,
        ) + " but received "@ + seq![value],
        ErrorView::UnknownUnit { input_unit, value, .. } => "unknown time unit \""@ + input_unit
            + "\" was provided, assigned number for it was "@ + spec_dec(value as nat),
        ErrorView::TimeUnitRepeated { unit, .. } => "unit "@ + spec_unit_title(unit)
            + " was provided 2x times or more"@,
        ErrorView::InputIsTooLong => "input time unit name or value was too long"@,
        ErrorView::ValueWithoutUnit => "value was provided but the time unit name was not"@,
        ErrorView::ValueParseError => "got invalid int in the input"@,
        ErrorView::EmptyInput => "input is empty"@,
    }
}

impl Error {
    /// Renders the failure as human-readable text with its structured
    /// fields interpolated.
    pub fn message(&self) -> (result: String)
        ensures
            result@ == spec_message(self@),
    {
        match self {
            Error::NumberExpected { value, index } => {
                let mut out = String::from_str("expected number at index ");
                let num = u64_to_string(*index as u64);
                out.append(num.as_str());
                out.append(" but received ");
                push_char(&mut out, *value);
                proof {
                    assert(out@ =~= spec_message(self@));
                }
                out
            },
            Error::UnknownUnit { input_unit, value, .. } => {
                let mut out = String::from_str("unknown time unit \"");
                out.append(input_unit.as_str());
                out.append("\" was provided, assigned number for it was ");
                let num = u64_to_string(*value);
                out.append(num.as_str());
                proof {
                    assert(out@ =~= spec_message(self@));
                }
                out
            },
            Error::TimeUnitRepeated { unit, .. } => {
                let mut out = String::from_str("unit ");
                let name = unit.title();
                out.append(name.as_str());
                out.append(" was provided 2x times or more");
                proof {
                    assert(out@ =~= spec_message(self@));
                }
                out
            },
            Error::InputIsTooLong => String::from_str("input time unit name or value was too long"),
            Error::ValueWithoutUnit => String::from_str(
                "value was provided but the time unit name was not",
            ),
            Error::ValueParseError => String::from_str("got invalid int in the input"),
            Error::EmptyInput => String::from_str("input is empty"),
        }
    }
}

} // verus!
