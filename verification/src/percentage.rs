//! Whole percentages from 0% to 100%.
use vstd::prelude::*;

use crate::text;
use crate::text::{chars_of, concat, parse_uint, u64_to_decimal};

verus! {

/// Why a percentage was rejected.
#[derive(Debug, Clone, PartialEq, Eq)]
pub enum PercentageParseError {
    Empty,
    MissingPercent(String),
    InvalidNumber(String),
    OutOfRange(u8),
}

/// The abstract content of a `PercentageParseError`.
pub ghost enum PercentageParseErrorView {
    Empty,
    MissingPercent(Seq<char>),
    InvalidNumber(Seq<char>),
    OutOfRange(u8),
}

impl View for PercentageParseError {
    type V = PercentageParseErrorView;

    open spec fn view(&self) -> PercentageParseErrorView {
        match self {
            PercentageParseError::Empty => PercentageParseErrorView::Empty,
            PercentageParseError::MissingPercent(s) => PercentageParseErrorView::MissingPercent(
                s@,
            ),
            PercentageParseError::InvalidNumber(s) => PercentageParseErrorView::InvalidNumber(
                s@,
            ),
            PercentageParseError::OutOfRange(v) => PercentageParseErrorView::OutOfRange(*v),
        }
    }
}

/// A whole percentage; its value never exceeds 100.
#[derive(Debug, Clone, Copy, PartialEq, Eq)]
pub struct Percentage(u8);

impl Percentage {
    /// The type's invariant: the value is at most 100.
    #[verifier::type_invariant]
    pub closed spec fn wf(self) -> bool {
        self.0 <= 100
    }

    /// The percentage as a number from 0 to 100.
    pub closed spec fn spec_value(self) -> u8 {
        self.0
    }

    /// The percentage `value`; values above 100 are rejected.
    pub fn new(value: u8) -> (r: Result<Self, PercentageParseError>)
        ensures
            value <= 100 ==> (r matches Ok(p) && p.spec_value() == value),
            value > 100 ==> (r matches Err(e) && e@ == PercentageParseErrorView::OutOfRange(value)),
    {
        if value > 100 {
            return Err(PercentageParseError::OutOfRange(value));
        }
        Ok(Self(value))
    }

    /// The percentage as a number from 0 to 100.
    pub fn value(self) -> (r: u8)
        ensures
            r == self.spec_value(),
            r <= 100,
    {
        proof {
            use_type_invariant(&self);
        }
        self.0
    }

    /// The text `N%` for this percentage.
    pub fn to_string(&self) -> (r: String)
        ensures
            r@ == text::decimal(self.spec_value() as nat) + seq!['%'],
    {
        let mut r = u64_to_decimal(self.0 as u64);
        proof {
            reveal_strlit("%");
        }
        r.append("%");
        r
    }

    /// Parses text such as `10%`.
    pub fn parse(s: &str) -> (r: Result<Self, PercentageParseError>)
        ensures
            match (r, spec_parse_percentage(s@)) {
                (Ok(p), Ok(v)) => p.spec_value() == v,
                (Err(e), Err(w)) => e@ == w,
                _ => false,
            },
    {
        let all = chars_of(s);
        let (start, end) = text::trim_bounds(all.as_slice());
        let trimmed = s.substring_char(start, end);
        let t = &all.as_slice()[start..end];
        let n = end - start;
        if n == 0 {
            return Err(PercentageParseError::Empty);
        }
        if t[n - 1] != '%' {
            return Err(PercentageParseError::MissingPercent(trimmed.to_owned()));
        }
        let num = &t[0..n - 1];
        assert(num@ =~= t@.drop_last());
        match parse_uint(num, 255) {
            Some(v) => Self::new(v as u8),
            None => Err(PercentageParseError::InvalidNumber(trimmed.substring_char(0, n - 1).to_owned())),
        }
    }
}

/// What parsing the percentage text `s` gives: its value, or the reason it
/// is rejected. The text is trimmed, must end in `%`, and the rest must be
/// an unsigned number from 0 to 100.
pub open spec fn spec_parse_percentage(s: Seq<char>) -> Result<u8, PercentageParseErrorView> {
    let t = text::trim(s);
    if t.len() == 0 {
        Err(PercentageParseErrorView::Empty)
    } else if t.last() != '%' {
        Err(PercentageParseErrorView::MissingPercent(t))
    } else {
        match text::uint_value(t.drop_last()) {
            Some(v) => if v > 255 {
                Err(PercentageParseErrorView::InvalidNumber(t.drop_last()))
            } else if v > 100 {
                Err(PercentageParseErrorView::OutOfRange(v as u8))
            } else {
                Ok(v as u8)
            },
            None => Err(PercentageParseErrorView::InvalidNumber(t.drop_last())),
        }
    }
}

impl std::str::FromStr for Percentage {
    type Err = PercentageParseError;

    fn from_str(s: &str) -> Result<Self, PercentageParseError> {
        Self::parse(s)
    }
}

} // verus!
