//! Parsing of human-readable durations such as `250ms`, `5s`, `1m`, `24h`
//! and `14d`.
use std::time::Duration;
use vstd::prelude::*;

use crate::text;
use crate::text::{chars_of, parse_u64_digits, substring, trim_bounds};

verus! {

/// Why a duration string was rejected.
#[derive(Debug, Clone, PartialEq, Eq)]
pub enum DurationParseError {
    Empty,
    NoUnit(String),
    InvalidNumber(String),
    UnknownUnit(String),
    Overflow(String),
}

/// The abstract content of a `DurationParseError`.
pub ghost enum DurationParseErrorView {
    Empty,
    NoUnit(Seq<char>),
    InvalidNumber(Seq<char>),
    UnknownUnit(Seq<char>),
    Overflow(Seq<char>),
}

impl View for DurationParseError {
    type V = DurationParseErrorView;

    open spec fn view(&self) -> DurationParseErrorView {
        match self {
            DurationParseError::Empty => DurationParseErrorView::Empty,
            DurationParseError::NoUnit(s) => DurationParseErrorView::NoUnit(s@),
            DurationParseError::InvalidNumber(s) => DurationParseErrorView::InvalidNumber(s@),
            DurationParseError::UnknownUnit(s) => DurationParseErrorView::UnknownUnit(s@),
            DurationParseError::Overflow(s) => DurationParseErrorView::Overflow(s@),
        }
    }
}

/// The number of milliseconds that one unit stands for, if the unit is known.
pub open spec fn unit_millis(unit: Seq<char>) -> Option<nat> {
    if unit == seq!['m', 's'] {
        Some(1)
    } else if unit == seq!['s'] {
        Some(1000)
    } else if unit == seq!['m'] {
        Some(60_000)
    } else if unit == seq!['h'] {
        Some(3_600_000)
    } else if unit == seq!['d'] {
        Some(86_400_000)
    } else {
        None
    }
}

/// What parsing the duration text `s` gives: its length in milliseconds, or
/// the reason it is rejected. The text is trimmed first; it must be a run of
/// decimal digits followed by a unit.
pub open spec fn spec_parse_duration(s: Seq<char>) -> Result<nat, DurationParseErrorView> {
    let t = text::trim(s);
    let i = text::digit_prefix_len(t);
    if t.len() == 0 {
        Err(DurationParseErrorView::Empty)
    } else if i == 0 || i == t.len() {
        Err(DurationParseErrorView::NoUnit(t))
    } else if text::digits_value(t.take(i as int)) > u64::MAX {
        Err(DurationParseErrorView::InvalidNumber(t.take(i as int)))
    } else {
        match unit_millis(t.skip(i as int)) {
            None => Err(DurationParseErrorView::UnknownUnit(t.skip(i as int))),
            Some(m) => if text::digits_value(t.take(i as int)) * m > u64::MAX {
                Err(DurationParseErrorView::Overflow(t))
            } else {
                Ok(text::digits_value(t.take(i as int)) * m)
            },
        }
    }
}

/// The message of a duration error, as its display writes it.
pub open spec fn duration_error_message(e: DurationParseErrorView) -> Seq<char> {
    match e {
        DurationParseErrorView::Empty => "empty duration string"@,
        DurationParseErrorView::NoUnit(s) => "no unit suffix in duration: "@ + s,
        DurationParseErrorView::InvalidNumber(s) => "invalid number in duration: "@ + s,
        DurationParseErrorView::UnknownUnit(s) => "unknown unit in duration: "@ + s,
        DurationParseErrorView::Overflow(s) => "duration value would overflow: "@ + s,
    }
}

impl DurationParseError {
    /// The error's message.
    pub fn to_string(&self) -> (r: String)
        ensures
            r@ == duration_error_message(self@),
    {
        match self {
            DurationParseError::Empty => String::from_str("empty duration string"),
            DurationParseError::NoUnit(s) => crate::text::concat("no unit suffix in duration: ", s.as_str()),
            DurationParseError::InvalidNumber(s) => crate::text::concat("invalid number in duration: ", s.as_str()),
            DurationParseError::UnknownUnit(s) => crate::text::concat("unknown unit in duration: ", s.as_str()),
            DurationParseError::Overflow(s) => crate::text::concat("duration value would overflow: ", s.as_str()),
        }
    }
}

/// The length of a `Duration` in nanoseconds, as `Duration::as_nanos`
/// gives it.
pub uninterp spec fn duration_nanos(d: Duration) -> nat;

/// `Duration::as_nanos` gives the whole length in nanoseconds; its result
/// is named `duration_nanos`.
pub assume_specification[ core::time::Duration::as_nanos ](d: &Duration) -> (r: u128)
    ensures
        r as nat == duration_nanos(*d),
;

/// `Duration::from_millis` builds the duration of the given number of
/// milliseconds.
pub assume_specification[ core::time::Duration::from_millis ](millis: u64) -> (d: Duration)
    ensures
        duration_nanos(d) == millis as nat * 1_000_000,
;

/// `Duration::from_secs` builds the duration of the given number of
/// seconds.
pub assume_specification[ core::time::Duration::from_secs ](secs: u64) -> (d: Duration)
    ensures
        duration_nanos(d) == secs as nat * 1_000_000_000,
;

/// `Duration::from_nanos` builds the duration of the given number of
/// nanoseconds.
pub assume_specification[ core::time::Duration::from_nanos ](nanos: u64) -> (d: Duration)
    ensures
        duration_nanos(d) == nanos as nat,
;

/// `Duration` is `Copy`; its `clone` gives an equal duration.
pub assume_specification[ <core::time::Duration as core::clone::Clone>::clone ](d: &Duration) -> (r: Duration)
    ensures
        r == *d,
;

/// The number of milliseconds that the duration text `s` stands for.
pub fn parse_duration_millis(s: &str) -> (r: Result<u64, DurationParseError>)
    ensures
        match (r, spec_parse_duration(s@)) {
            (Ok(v), Ok(w)) => v == w,
            (Err(e), Err(w)) => e@ == w,
            _ => false,
        },
{
    let all = chars_of(s);
    let (start, end) = trim_bounds(all.as_slice());
    let ghost t = text::trim(s@);
    let trimmed = s.substring_char(start, end);
    let n = end - start;
    if n == 0 {
        return Err(DurationParseError::Empty);
    }
    let tcs = &all.as_slice()[start..end];
    let mut i: usize = 0;
    while i < n && '0' <= tcs[i] && tcs[i] <= '9'
        invariant
            n == tcs@.len(),
            t == tcs@,
            i <= n,
            forall|k: int| 0 <= k < i ==> text::is_digit(#[trigger] t[k]),
        decreases n - i,
    {
        i = i + 1;
    }
    proof {
        text::lemma_digit_prefix(t, i as int);
    }
    if i == 0 || i == n {
        return Err(DurationParseError::NoUnit(trimmed.to_owned()));
    }
    let digits = &tcs[0..i];
    assert(digits@ =~= t.take(i as int));
    let value = match parse_u64_digits(digits) {
        Some(v) => v,
        None => {
            return Err(DurationParseError::InvalidNumber(trimmed.substring_char(0, i).to_owned()));
        },
    };
    let unit = &tcs[i..n];
    assert(unit@ =~= t.skip(i as int));
    let mult: u64 = if unit.len() == 2 && unit[0] == 'm' && unit[1] == 's' {
        assert(unit@ =~= seq!['m', 's']);
        1
    } else if unit.len() == 1 && unit[0] == 's' {
        assert(unit@ =~= seq!['s']);
        1000
    } else if unit.len() == 1 && unit[0] == 'm' {
        assert(unit@ =~= seq!['m']);
        60_000
    } else if unit.len() == 1 && unit[0] == 'h' {
        assert(unit@ =~= seq!['h']);
        3_600_000
    } else if unit.len() == 1 && unit[0] == 'd' {
        assert(unit@ =~= seq!['d']);
        86_400_000
    } else {
        return Err(DurationParseError::UnknownUnit(trimmed.substring_char(i, n).to_owned()));
    };
    match value.checked_mul(mult) {
        Some(m) => Ok(m),
        None => Err(DurationParseError::Overflow(trimmed.to_owned())),
    }
}

/// Parses a duration such as `250ms`, `5s`, `1m`, `24h` or `14d`.
pub fn parse_duration(s: &str) -> (r: Result<Duration, DurationParseError>)
    ensures
        match (r, spec_parse_duration(s@)) {
            (Ok(d), Ok(w)) => duration_nanos(d) == w * 1_000_000,
            (Err(e), Err(w)) => e@ == w,
            _ => false,
        },
{
    match parse_duration_millis(s) {
        Ok(m) => Ok(Duration::from_millis(m)),
        Err(e) => Err(e),
    }
}

/// Splits the trimmed duration text into its number and its unit.
pub fn split_duration(s: &str) -> (r: Result<(String, String), DurationParseError>)
    ensures
        match r {
            Ok((num, unit)) => {
                let i = text::digit_prefix_len(s@);
                &&& 0 < i < s@.len()
                &&& num@ == s@.take(i as int)
                &&& unit@ == s@.skip(i as int)
            },
            Err(e) => {
                let i = text::digit_prefix_len(s@);
                &&& (i == 0 || i == s@.len())
                &&& e@ == DurationParseErrorView::NoUnit(s@)
            },
        },
{
    let cs = chars_of(s);
    let n = cs.len();
    let mut i: usize = 0;
    while i < n && '0' <= cs[i] && cs[i] <= '9'
        invariant
            n == s@.len(),
            cs@ == s@,
            i <= n,
            forall|k: int| 0 <= k < i ==> text::is_digit(#[trigger] s@[k]),
        decreases n - i,
    {
        i = i + 1;
    }
    proof {
        text::lemma_digit_prefix(s@, i as int);
    }
    if i == 0 || i == n {
        return Err(DurationParseError::NoUnit(s.to_owned()));
    }
    Ok((substring(s, 0, i), substring(s, i, n)))
}

} // verus!
