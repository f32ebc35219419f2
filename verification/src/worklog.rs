//! Durations of work, as the user writes them: `30m`, `1.5h`, `2d`, `1w`.
//!
//! A duration is a number, with or without a fraction, and a unit; where
//! the unit is left out, minutes are meant.

use crate::case::{char_is_digit, is_digit};
use crate::error::Error;
use crate::text::{chars_of, slice, string_of};
use vstd::prelude::*;

verus! {

/// The index of the first digit at or after `from`, or the length of `s`
/// where no digit follows.
pub open spec fn next_digit(s: Seq<char>, from: int) -> int
    decreases s.len() - from,
{
    if from < 0 || from >= s.len() {
        s.len() as int
    } else if is_digit(s[from]) {
        from
    } else {
        next_digit(s, from + 1)
    }
}

/// The index of the first character at or after `from` that is no digit.
pub open spec fn digits_end(s: Seq<char>, from: int) -> int
    decreases s.len() - from,
{
    if 0 <= from < s.len() && is_digit(s[from]) {
        digits_end(s, from + 1)
    } else {
        from
    }
}

/// The end of the number that begins at `from`: behind its digits, and
/// behind its fraction where a dot and a digit follow them.
pub open spec fn number_end(s: Seq<char>, from: int) -> int {
    let whole = digits_end(s, from);
    if whole + 1 < s.len() && s[whole] == '.' && is_digit(s[whole + 1]) {
        digits_end(s, whole + 1)
    } else {
        whole
    }
}

/// The seconds in one unit: a minute, an hour, a day of eight hours, a
/// week of five days. Units are told by their letter, small or capital.
pub open spec fn unit_seconds(unit: char) -> Option<u32> {
    if unit == 'm' || unit == 'M' {
        Some(60u32)
    } else if unit == 'h' || unit == 'H' {
        Some(3600u32)
    } else if unit == 'd' || unit == 'D' {
        Some(28800u32)
    } else if unit == 'w' || unit == 'W' {
        Some(144000u32)
    } else {
        None
    }
}

/// The number and the seconds of its unit in the first duration that `s`
/// holds; `None` where `s` holds no digit.
pub open spec fn duration_parts(s: Seq<char>) -> Option<(Seq<char>, u32)> {
    let from = next_digit(s, 0);
    if from >= s.len() {
        None
    } else {
        let to = number_end(s, from);
        let seconds = if to < s.len() && unit_seconds(s[to]) is Some {
            unit_seconds(s[to])->Some_0
        } else {
            60u32
        };
        Some((s.subrange(from, to), seconds))
    }
}

/// A duration of work in seconds, as text.
#[derive(Debug, Clone, PartialEq, Eq)]
pub struct WorklogDuration(pub String);

/// A duration as it was written: its number, and the seconds in its unit.
#[derive(Debug, Clone, PartialEq, Eq)]
pub struct WorklogParts {
    /// The number: digits, with or without a dot and more digits.
    pub number: String,
    /// The seconds in one unit.
    pub multiplier: u32,
}

impl View for WorklogDuration {
    type V = Seq<char>;

    open spec fn view(&self) -> Seq<char> {
        self.0@
    }
}

/// The seconds in the unit that `unit` names.
pub fn seconds_of_unit(unit: char) -> (r: Option<u32>)
    ensures
        r == unit_seconds(unit),
{
    if unit == 'm' || unit == 'M' {
        Some(60)
    } else if unit == 'h' || unit == 'H' {
        Some(3600)
    } else if unit == 'd' || unit == 'D' {
        Some(28800)
    } else if unit == 'w' || unit == 'W' {
        Some(144000)
    } else {
        None
    }
}

/// The index of the first character at or after `from` that is no digit.
fn skip_digits(s: &Vec<char>, from: usize) -> (r: usize)
    requires
        from <= s.len(),
    ensures
        r == digits_end(s@, from as int),
        from <= r <= s.len(),
{
    let mut i: usize = from;
    while i < s.len() && char_is_digit(s[i])
        invariant
            from <= i <= s.len(),
            digits_end(s@, from as int) == digits_end(s@, i as int),
        decreases s.len() - i,
    {
        i += 1;
    }
    i
}

impl WorklogDuration {
    /// Reads the first duration in `value`: its number as it is written, and
    /// the seconds in its unit. Text before the first digit is passed over.
    pub fn parts(value: &str) -> (r: Result<WorklogParts, Error>)
        ensures
            match r {
                Ok(parts) => duration_parts(value@) == Some((parts.number@, parts.multiplier)),
                Err(e) => e == Error::MalformedDuration && duration_parts(value@) is None,
            },
    {
        let s = chars_of(value);
        let mut from: usize = 0;
        while from < s.len() && !char_is_digit(s[from])
            invariant
                from <= s.len(),
                next_digit(s@, 0) == next_digit(s@, from as int),
            decreases s.len() - from,
        {
            from += 1;
        }
        if from >= s.len() {
            return Err(Error::MalformedDuration);
        }
        let whole = skip_digits(&s, from);
        let to = if whole < s.len() - 1 && s[whole] == '.' && char_is_digit(s[whole + 1]) {
            skip_digits(&s, whole + 1)
        } else {
            whole
        };
        let multiplier: u32 = if to < s.len() {
            match seconds_of_unit(s[to]) {
                Some(seconds) => seconds,
                None => 60,
            }
        } else {
            60
        };
        Ok(WorklogParts { number: string_of(&slice(&s, from, to)), multiplier })
    }

    /// The seconds as text.
    pub fn to_string(&self) -> (r: String)
        ensures
            r@ == self@,
    {
        self.0.clone()
    }
}

} // verus!
