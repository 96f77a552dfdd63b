//! The numeric input policies: free-form numbers, signed integers and
//! unsigned integers.
//!
//! Each validator judges a candidate insertion against the pre-mutation text;
//! the parsers give the text its numeric meaning.

use vstd::prelude::*;
use vstd::string::*;

verus! {

use crate::chars::{is_digit_char, all_digits, digit_char, check_all_digits, contains_char};
use crate::digits::{NumParseError, spec_parse_uint, spec_parse_int, parse_u64, parse_i64};
use crate::{ValText, TextParser, InputValidator};

/// Every candidate character is a digit, or — when `allow_dot` holds and the
/// text has no decimal point yet — a `.`.
pub open spec fn number_digit_like(text: Seq<char>, cand: Seq<char>, allow_dot: bool) -> bool {
    forall|j: int|
        0 <= j < cand.len() ==> is_digit_char(#[trigger] cand[j]) || (allow_dot && cand[j] == '.'
            && !text.contains('.'))
}

pub fn check_digit_like(text: &str, cand: &str, allow_dot: bool) -> (b: bool)
    ensures
        b == number_digit_like(text@, cand@, allow_dot),
{
    let has_dot = contains_char(text, '.');
    let len: usize = cand.unicode_len();
    for i in 0..len
        invariant
            len == cand@.len(),
            has_dot == text@.contains('.'),
            forall|j: int|
                0 <= j < i ==> is_digit_char(#[trigger] cand@[j]) || (allow_dot && cand@[j] == '.'
                    && !text@.contains('.')),
    {
        let c = cand.get_char(i);
        if !(digit_char(c) || (allow_dot && !has_dot && c == '.')) {
            proof {
                assert(cand@[i as int] == c);
            }
            return false;
        }
        proof {
            assert(cand@[i as int] == c);
        }
    }
    true
}

/// Free numeric input: digits and one `.` anywhere, an optional `+` or `-`
/// only as the leading character.
pub struct NumberValidator;

impl InputValidator for NumberValidator {
    open spec fn spec_accepts(&self, text: Seq<char>, cand: Seq<char>, index: int) -> bool {
        (index == 0 && cand.len() > 0 && (cand[0] == '+' || cand[0] == '-'))
            || number_digit_like(text, cand, true)
    }

    fn validate(&self, text: &str, cand: &str, index: usize) -> (b: bool) {
        if index == 0 && !cand.is_empty() {
            let c0 = cand.get_char(0);
            if c0 == '+' || c0 == '-' {
                return true;
            }
        }
        check_digit_like(text, cand, true)
    }
}

/// Integer input: digits only, an optional `+` or `-` only as the leading
/// character; a `.` is never accepted.
pub struct IntValidator;

impl InputValidator for IntValidator {
    open spec fn spec_accepts(&self, text: Seq<char>, cand: Seq<char>, index: int) -> bool {
        (index == 0 && cand.len() > 0 && (cand[0] == '+' || cand[0] == '-')) || all_digits(cand)
    }

    fn validate(&self, text: &str, cand: &str, index: usize) -> (b: bool) {
        if index == 0 && !cand.is_empty() {
            let c0 = cand.get_char(0);
            if c0 == '+' || c0 == '-' {
                return true;
            }
        }
        check_all_digits(cand)
    }
}

/// Unsigned integer input: digits only, an optional `+` (never `-`) only as
/// the leading character.
pub struct UintValidator;

impl InputValidator for UintValidator {
    open spec fn spec_accepts(&self, text: Seq<char>, cand: Seq<char>, index: int) -> bool {
        (index == 0 && cand.len() > 0 && cand[0] == '+') || all_digits(cand)
    }

    fn validate(&self, text: &str, cand: &str, index: usize) -> (b: bool) {
        if index == 0 && !cand.is_empty() {
            if cand.get_char(0) == '+' {
                return true;
            }
        }
        check_all_digits(cand)
    }
}

/// Parses the whole text as a signed 64-bit integer.
pub struct IntParser;

impl TextParser<i64, NumParseError> for IntParser {
    open spec fn spec_parse(&self, text: Seq<char>) -> Result<i64, NumParseError> {
        match spec_parse_int(text) {
            Ok(v) => Ok(v as i64),
            Err(e) => Err(e),
        }
    }

    fn parse(&self, text: &str) -> (r: Result<i64, NumParseError>) {
        parse_i64(text)
    }
}

/// Parses the whole text as an unsigned 64-bit integer.
pub struct UintParser;

impl TextParser<u64, NumParseError> for UintParser {
    open spec fn spec_parse(&self, text: Seq<char>) -> Result<u64, NumParseError> {
        match spec_parse_uint(text, u64::MAX as int) {
            Ok(v) => Ok(v as u64),
            Err(e) => Err(e),
        }
    }

    fn parse(&self, text: &str) -> (r: Result<u64, NumParseError>) {
        parse_u64(text)
    }
}

impl<T, E, P: TextParser<T, E>> ValText<T, E, P, NumberValidator> {
    /// A buffer for free numeric input around the given parser: only digits
    /// and one `.` may be typed, plus a leading `+` or `-`.
    pub fn number(parser: P) -> (v: Self)
        ensures
            v.text_view() == Seq::<char>::empty(),
            v.cache() is None,
            v.parser() == parser,
            v.coherent(),
    {
        Self::new(parser, NumberValidator)
    }
}

impl<T, E, P: TextParser<T, E>> ValText<T, E, P, IntValidator> {
    /// A buffer for integer input around the given parser: only digits may be
    /// typed, plus a leading `+` or `-`.
    pub fn number_int(parser: P) -> (v: Self)
        ensures
            v.text_view() == Seq::<char>::empty(),
            v.cache() is None,
            v.parser() == parser,
            v.coherent(),
    {
        Self::new(parser, IntValidator)
    }
}

impl<T, E, P: TextParser<T, E>> ValText<T, E, P, UintValidator> {
    /// A buffer for unsigned integer input around the given parser: only
    /// digits may be typed, plus a leading `+`.
    pub fn number_uint(parser: P) -> (v: Self)
        ensures
            v.text_view() == Seq::<char>::empty(),
            v.cache() is None,
            v.parser() == parser,
            v.coherent(),
    {
        Self::new(parser, UintValidator)
    }
}

} // verus!
