//! The bounded percentage policy.
//!
//! The validator lets through every valid value in `[0, 100]` and every
//! prefix of one, while rejecting additions that could only lead outside the
//! range, judging nothing but the current text and the proposed candidate.
//! The decimal flavour additionally allows one `.` and a leading `+`.

use vstd::prelude::*;
use vstd::string::*;

verus! {

use crate::chars::contains_char;
use crate::digits::{NumParseError, spec_parse_uint, parse_u32};
use crate::numeric::{number_digit_like, check_digit_like};
use crate::{ValText, TextParser, InputValidator};

/// How a percentage text can fail to denote a value.
#[derive(Clone, Copy, Debug, PartialEq, Eq, Structural)]
pub enum PercentageParseError {
    /// The value is greater than 100.
    OutOfRangeHigh,
    /// The value is less than 0.
    Neg,
    /// The text is not a numeral at all.
    Parse(NumParseError),
}

/// The length of the whole (integer) part of the text: everything before the
/// first `.`, or the full length if there is none.
pub open spec fn whole_len(text: Seq<char>) -> int
    decreases text.len(),
{
    if text.len() == 0 {
        0
    } else if text[0] == '.' {
        0
    } else {
        1 + whole_len(text.drop_first())
    }
}

/// `whole_len` is the index of the first `.`, or the length of the text.
pub proof fn lemma_whole_len(text: Seq<char>)
    ensures
        0 <= whole_len(text) <= text.len(),
        forall|j: int| 0 <= j < whole_len(text) ==> text[j] != '.',
        whole_len(text) < text.len() ==> text[whole_len(text)] == '.',
    decreases text.len(),
{
    if text.len() > 0 && text[0] != '.' {
        lemma_whole_len(text.drop_first());
        assert forall|j: int| 0 <= j < whole_len(text) implies text[j] != '.' by {
            if j >= 1 {
                assert(text[j] == text.drop_first()[j - 1]);
            }
        }
        if whole_len(text) < text.len() {
            assert(text[whole_len(text)] == text.drop_first()[whole_len(text) - 1]);
        }
    }
}

/// Counts the characters before the first `.` of `text`.
pub fn compute_whole_len(text: &str) -> (n: usize)
    ensures
        n as int == whole_len(text@),
{
    let len: usize = text.unicode_len();
    for i in 0..len
        invariant
            len == text@.len(),
            forall|j: int| 0 <= j < i ==> text@[j] != '.',
    {
        if text.get_char(i) == '.' {
            proof {
                lemma_whole_len(text@);
                assert(text@[i as int] == '.');
            }
            return i;
        }
    }
    proof {
        lemma_whole_len(text@);
    }
    len
}

/// The text begins with the two characters `10`; the only two-digit whole
/// part that a third whole digit (a `0`) may follow.
pub open spec fn starts_with_10(text: Seq<char>) -> bool {
    text.len() >= 2 && text[0] == '1' && text[1] == '0'
}

/// Whether a percentage field accepts inserting `cand` at character position
/// `index` of `text`.  In order:
/// 1. if the text has no `.` yet and the whole part plus the candidate would
///    exceed three characters, reject;
/// 2. if the text ends in a `.`, accept any digit-like candidate;
/// 3. at exactly two whole digits, accept only a `.`-led digit-like candidate
///    or the single `0` completing `100`;
/// 4. otherwise accept a digit-like candidate, or (decimal flavour) a
///    candidate led by `+` at position 0.
pub open spec fn pct_accepts(text: Seq<char>, cand: Seq<char>, index: int, decimal: bool) -> bool {
    if whole_len(text) + cand.len() > 3 && !text.contains('.') {
        false
    } else if text.len() > 0 && text.last() == '.' && number_digit_like(text, cand, decimal) {
        true
    } else if whole_len(text) == 2 {
        (cand.len() > 0 && cand[0] == '.' && number_digit_like(text, cand, decimal)) || (cand.len()
            == 1 && cand[0] == '0' && starts_with_10(text))
    } else {
        (decimal && index == 0 && cand.len() > 0 && cand[0] == '+') || number_digit_like(
            text,
            cand,
            decimal,
        )
    }
}

/// The percentage input rule.  With `decimal` set (the flavour for fractional
/// values) one `.` and a leading `+` are also allowed.
pub struct PercentageValidator {
    pub decimal: bool,
}

impl InputValidator for PercentageValidator {
    open spec fn spec_accepts(&self, text: Seq<char>, cand: Seq<char>, index: int) -> bool {
        pct_accepts(text, cand, index, self.decimal)
    }

    fn validate(&self, text: &str, cand: &str, index: usize) -> (b: bool) {
        let wl: usize = compute_whole_len(text);
        let clen: usize = cand.unicode_len();
        let tlen: usize = text.unicode_len();
        let has_dot = contains_char(text, '.');
        if (wl > 3 || clen > 3 || wl + clen > 3) && !has_dot {
            return false;
        }
        if tlen > 0 && text.get_char(tlen - 1) == '.' {
            proof {
                assert(text@.last() == text@[tlen - 1]);
            }
            if check_digit_like(text, cand, self.decimal) {
                return true;
            }
        }
        if wl == 2 {
            if clen > 0 && cand.get_char(0) == '.' && check_digit_like(text, cand, self.decimal) {
                return true;
            }
            if clen == 1 && cand.get_char(0) == '0' && tlen >= 2 && text.get_char(0) == '1'
                && text.get_char(1) == '0' {
                return true;
            }
            return false;
        }
        if self.decimal && index == 0 && clen > 0 && cand.get_char(0) == '+' {
            return true;
        }
        check_digit_like(text, cand, self.decimal)
    }
}

/// Parses the whole text as an unsigned integer percentage: a numeral whose
/// value must lie in `[0, 100]`.
pub struct PercentageUintParser;

impl TextParser<u32, PercentageParseError> for PercentageUintParser {
    open spec fn spec_parse(&self, text: Seq<char>) -> Result<u32, PercentageParseError> {
        match spec_parse_uint(text, u32::MAX as int) {
            Err(e) => Err(PercentageParseError::Parse(e)),
            Ok(v) => if v > 100 {
                Err(PercentageParseError::OutOfRangeHigh)
            } else {
                Ok(v as u32)
            },
        }
    }

    fn parse(&self, text: &str) -> (r: Result<u32, PercentageParseError>) {
        proof {
            let body = crate::digits::uint_body(text@);
            if crate::chars::all_digits(body) {
                crate::digits::lemma_digits_val_nonneg(body);
            }
        }
        match parse_u32(text) {
            Err(e) => Err(PercentageParseError::Parse(e)),
            Ok(v) => if v > 100 {
                Err(PercentageParseError::OutOfRangeHigh)
            } else {
                Ok(v)
            },
        }
    }
}

impl ValText<u32, PercentageParseError, PercentageUintParser, PercentageValidator> {
    /// A percentage in `[0, 100]` typed as an unsigned integer: only digits
    /// may be entered, at most three of them, and a third one only to
    /// complete `100`.
    pub fn percentage_uint() -> (v: Self)
        ensures
            v.text_view() == Seq::<char>::empty(),
            v.cache() is None,
            v.parser() == PercentageUintParser,
            v.validator() == (PercentageValidator { decimal: false }),
            v.coherent(),
    {
        Self::new(PercentageUintParser, PercentageValidator { decimal: false })
    }
}

} // verus!
