//! Decimal digit strings: their numeric value, parsing with overflow
//! detection, and canonical formatting.

use vstd::prelude::*;
use vstd::string::*;

verus! {

use crate::chars::{is_digit_char, all_digits, digit_char};
use crate::ToText;

/// Why a numeric parse failed.
#[derive(Clone, Copy, Debug, PartialEq, Eq, Structural)]
pub enum NumParseError {
    /// No digits (after an optional sign).
    Empty,
    /// A character that is not an ASCII decimal digit (or a misplaced sign).
    InvalidChar,
    /// The digits denote a value outside the target type's range.
    OutOfRange,
}

/// The numeric value of one ASCII decimal digit.
pub open spec fn digit_val(c: char) -> int {
    c as int - '0' as int
}

/// The value of a digit string read in base 10.
pub open spec fn digits_val(s: Seq<char>) -> int
    decreases s.len(),
{
    if s.len() == 0 {
        0
    } else {
        digits_val(s.drop_last()) * 10 + digit_val(s.last())
    }
}

pub proof fn lemma_digits_val_nonneg(s: Seq<char>)
    requires
        all_digits(s),
    ensures
        digits_val(s) >= 0,
    decreases s.len(),
{
    if s.len() > 0 {
        assert(all_digits(s.drop_last()));
        lemma_digits_val_nonneg(s.drop_last());
        assert(is_digit_char(s.last()));
    }
}

/// A digit string is worth at least any of its prefixes.
pub proof fn lemma_digits_val_prefix_le(s: Seq<char>, k: int)
    requires
        all_digits(s),
        0 <= k <= s.len(),
    ensures
        digits_val(s.subrange(0, k)) <= digits_val(s),
    decreases s.len() - k,
{
    if k < s.len() {
        let t = s.subrange(0, k + 1);
        assert(all_digits(t));
        assert(t.drop_last() =~= s.subrange(0, k));
        lemma_digits_val_nonneg(s.subrange(0, k));
        assert(is_digit_char(t.last()));
        assert(digits_val(t) == digits_val(s.subrange(0, k)) * 10 + digit_val(t.last()));
        assert(digits_val(s.subrange(0, k)) <= digits_val(t)) by {
            assert(digits_val(s.subrange(0, k)) * 10 >= digits_val(s.subrange(0, k)));
            assert(digit_val(t.last()) >= 0);
        }
        lemma_digits_val_prefix_le(s, k + 1);
        assert(s.subrange(0, s.len() as int) =~= s);
    } else {
        assert(s.subrange(0, k) =~= s);
    }
}

/// The body of an unsigned numeral: the text with one optional leading `+`
/// removed.
pub open spec fn uint_body(text: Seq<char>) -> Seq<char> {
    if text.len() > 0 && text[0] == '+' {
        text.drop_first()
    } else {
        text
    }
}

/// What parsing `text` as an unsigned integer bounded by `max` yields:
/// an optional leading `+`, then at least one decimal digit, whose value must
/// not exceed `max`.
pub open spec fn spec_parse_uint(text: Seq<char>, max: int) -> Result<int, NumParseError> {
    let body = uint_body(text);
    if body.len() == 0 {
        Err(NumParseError::Empty)
    } else if !all_digits(body) {
        Err(NumParseError::InvalidChar)
    } else if digits_val(body) > max {
        Err(NumParseError::OutOfRange)
    } else {
        Ok(digits_val(body))
    }
}

/// Parses an unsigned decimal numeral into a `u64`.
pub fn parse_u64(text: &str) -> (r: Result<u64, NumParseError>)
    ensures
        r == match spec_parse_uint(text@, u64::MAX as int) {
            Ok(v) => Ok::<u64, NumParseError>(v as u64),
            Err(e) => Err::<u64, NumParseError>(e),
        },
{
    let len: usize = text.unicode_len();
    let start: usize = if len > 0 && text.get_char(0) == '+' {
        1
    } else {
        0
    };
    let ghost body = uint_body(text@);
    proof {
        assert(body =~= text@.subrange(start as int, len as int));
    }
    if start == len {
        return Err(NumParseError::Empty);
    }
    let mut i: usize = start;
    while i < len
        invariant
            start <= i <= len,
            len == text@.len(),
            start <= len,
            body == uint_body(text@),
            body =~= text@.subrange(start as int, len as int),
            forall|j: int| start <= j < i ==> is_digit_char(#[trigger] text@[j]),
        decreases len - i,
    {
        if !digit_char(text.get_char(i)) {
            proof {
                assert(body[i - start as int] == text@[i as int]);
                assert(!all_digits(body));
            }
            return Err(NumParseError::InvalidChar);
        }
        i = i + 1;
    }
    proof {
        assert(forall|j: int| 0 <= j < body.len() ==> is_digit_char(#[trigger] body[j]));
        lemma_digits_val_nonneg(body);
    }
    let mut acc: u64 = 0;
    let mut k: usize = start;
    while k < len
        invariant
            start <= k <= len,
            len == text@.len(),
            start <= len,
            body == uint_body(text@),
            body =~= text@.subrange(start as int, len as int),
            all_digits(body),
            acc as int == digits_val(body.subrange(0, k - start as int)),
        decreases len - k,
    {
        let c = text.get_char(k);
        proof {
            assert(body[k - start as int] == text@[k as int]);
            assert(is_digit_char(c));
        }
        let d: u64 = (c as u32 - 48) as u64;
        proof {
            assert(d as int == digit_val(c));
        }
        if acc > (u64::MAX - d) / 10 {
            proof {
                let p = body.subrange(0, k + 1 - start as int);
                assert(p.drop_last() =~= body.subrange(0, k - start as int));
                assert(p.last() == body[k - start as int]);
                assert(digits_val(p) == acc as int * 10 + d as int);
                assert(acc as int * 10 + d as int > u64::MAX as int) by {
                    assert(acc as int > (u64::MAX as int - d as int) / 10);
                };
                assert(all_digits(p)) by {
                    assert(forall|j: int| 0 <= j < p.len() ==> p[j] == body[j]);
                };
                lemma_digits_val_prefix_le(body, k + 1 - start as int);
                assert(digits_val(body) > u64::MAX as int);
            }
            return Err(NumParseError::OutOfRange);
        }
        acc = acc * 10 + d;
        proof {
            let p = body.subrange(0, k + 1 - start as int);
            assert(p.drop_last() =~= body.subrange(0, k - start as int));
            assert(p.last() == body[k - start as int]);
        }
        k = k + 1;
    }
    proof {
        assert(body.subrange(0, len - start as int) =~= body);
    }
    Ok(acc)
}

/// Parses an unsigned decimal numeral into a `u32`.
pub fn parse_u32(text: &str) -> (r: Result<u32, NumParseError>)
    ensures
        r == match spec_parse_uint(text@, u32::MAX as int) {
            Ok(v) => Ok::<u32, NumParseError>(v as u32),
            Err(e) => Err::<u32, NumParseError>(e),
        },
{
    proof {
        let body = uint_body(text@);
        if all_digits(body) {
            lemma_digits_val_nonneg(body);
        }
    }
    match parse_u64(text) {
        Err(e) => Err(e),
        Ok(v) => if v > 0xffff_ffffu64 {
            Err(NumParseError::OutOfRange)
        } else {
            Ok(v as u32)
        },
    }
}

/// The body of a signed numeral: the text with one optional leading `+` or
/// `-` removed.
pub open spec fn int_body(text: Seq<char>) -> Seq<char> {
    if text.len() > 0 && (text[0] == '+' || text[0] == '-') {
        text.drop_first()
    } else {
        text
    }
}

/// What parsing `text` as a signed 64-bit integer yields: an optional leading
/// sign, then at least one decimal digit, whose signed value must fit in
/// `i64`.
pub open spec fn spec_parse_int(text: Seq<char>) -> Result<int, NumParseError> {
    let body = int_body(text);
    let neg = text.len() > 0 && text[0] == '-';
    if body.len() == 0 {
        Err(NumParseError::Empty)
    } else if !all_digits(body) {
        Err(NumParseError::InvalidChar)
    } else {
        let v = if neg {
            -digits_val(body)
        } else {
            digits_val(body)
        };
        if v < i64::MIN as int || v > i64::MAX as int {
            Err(NumParseError::OutOfRange)
        } else {
            Ok(v)
        }
    }
}

/// Parses a signed decimal numeral into an `i64`.
pub fn parse_i64(text: &str) -> (r: Result<i64, NumParseError>)
    ensures
        r == match spec_parse_int(text@) {
            Ok(v) => Ok::<i64, NumParseError>(v as i64),
            Err(e) => Err::<i64, NumParseError>(e),
        },
{
    let len: usize = text.unicode_len();
    let mut neg = false;
    let mut start: usize = 0;
    if len > 0 {
        let c0 = text.get_char(0);
        if c0 == '-' {
            neg = true;
            start = 1;
        } else if c0 == '+' {
            start = 1;
        }
    }
    let ghost body = int_body(text@);
    proof {
        assert(body =~= text@.subrange(start as int, len as int));
    }
    if start == len {
        return Err(NumParseError::Empty);
    }
    // The magnitude may not exceed this bound; for a negative numeral the
    // most negative value has magnitude one above `i64::MAX`.
    let limit: u64 = if neg {
        9223372036854775808u64
    } else {
        9223372036854775807u64
    };
    let mut i: usize = start;
    while i < len
        invariant
            start <= i <= len,
            len == text@.len(),
            start <= len,
            body == int_body(text@),
            body =~= text@.subrange(start as int, len as int),
            forall|j: int| start <= j < i ==> is_digit_char(#[trigger] text@[j]),
        decreases len - i,
    {
        if !digit_char(text.get_char(i)) {
            proof {
                assert(body[i - start as int] == text@[i as int]);
                assert(!all_digits(body));
            }
            return Err(NumParseError::InvalidChar);
        }
        i = i + 1;
    }
    proof {
        assert(forall|j: int| 0 <= j < body.len() ==> is_digit_char(#[trigger] body[j]));
        lemma_digits_val_nonneg(body);
    }
    let mut acc: u64 = 0;
    let mut k: usize = start;
    while k < len
        invariant
            start <= k <= len,
            len == text@.len(),
            start <= len,
            body == int_body(text@),
            body =~= text@.subrange(start as int, len as int),
            all_digits(body),
            acc as int == digits_val(body.subrange(0, k - start as int)),
            acc <= limit,
            neg ==> limit == 9223372036854775808u64,
            !neg ==> limit == 9223372036854775807u64,
            neg == (text@.len() > 0 && text@[0] == '-'),
        decreases len - k,
    {
        let c = text.get_char(k);
        proof {
            assert(body[k - start as int] == text@[k as int]);
            assert(is_digit_char(c));
        }
        let d: u64 = (c as u32 - 48) as u64;
        proof {
            assert(d as int == digit_val(c));
        }
        if acc > (limit - d) / 10 || acc * 10 > limit - d {
            proof {
                let p = body.subrange(0, k + 1 - start as int);
                assert(p.drop_last() =~= body.subrange(0, k - start as int));
                assert(p.last() == body[k - start as int]);
                assert(digits_val(p) == acc as int * 10 + d as int);
                assert(acc as int * 10 + d as int > limit as int) by {
                    if acc as int > (limit as int - d as int) / 10 {
                        assert(acc as int * 10 + d as int > limit as int) by (nonlinear_arith)
                            requires
                                acc as int > (limit as int - d as int) / 10,
                                0 <= d as int <= 9,
                                limit as int >= d as int,
                        ;
                    }
                };
                assert(all_digits(p)) by {
                    assert(forall|j: int| 0 <= j < p.len() ==> p[j] == body[j]);
                };
                lemma_digits_val_prefix_le(body, k + 1 - start as int);
                assert(digits_val(body) > limit as int);
            }
            return Err(NumParseError::OutOfRange);
        }
        acc = acc * 10 + d;
        proof {
            let p = body.subrange(0, k + 1 - start as int);
            assert(p.drop_last() =~= body.subrange(0, k - start as int));
            assert(p.last() == body[k - start as int]);
        }
        k = k + 1;
    }
    proof {
        assert(body.subrange(0, len - start as int) =~= body);
    }
    if neg {
        if acc == 9223372036854775808u64 {
            Ok(i64::MIN)
        } else {
            Ok(-(acc as i64))
        }
    } else {
        Ok(acc as i64)
    }
}

/// The character for one decimal digit value.
pub open spec fn digit_char_of(d: int) -> char {
    if d == 0 {
        '0'
    } else if d == 1 {
        '1'
    } else if d == 2 {
        '2'
    } else if d == 3 {
        '3'
    } else if d == 4 {
        '4'
    } else if d == 5 {
        '5'
    } else if d == 6 {
        '6'
    } else if d == 7 {
        '7'
    } else if d == 8 {
        '8'
    } else {
        '9'
    }
}

/// The canonical decimal form of a non-negative number: no sign and no
/// leading zero, except for the single digit `0` itself.
pub open spec fn dec_digits(n: int) -> Seq<char>
    decreases n,
{
    if n < 10 {
        seq![digit_char_of(n)]
    } else {
        dec_digits(n / 10) + seq![digit_char_of(n % 10)]
    }
}

fn digit_str(d: u64) -> (s: &'static str)
    requires
        d < 10,
    ensures
        s@ == seq![digit_char_of(d as int)],
{
    proof {
        reveal_strlit("0");
        reveal_strlit("1");
        reveal_strlit("2");
        reveal_strlit("3");
        reveal_strlit("4");
        reveal_strlit("5");
        reveal_strlit("6");
        reveal_strlit("7");
        reveal_strlit("8");
        reveal_strlit("9");
    }
    let s = if d == 0 {
        "0"
    } else if d == 1 {
        "1"
    } else if d == 2 {
        "2"
    } else if d == 3 {
        "3"
    } else if d == 4 {
        "4"
    } else if d == 5 {
        "5"
    } else if d == 6 {
        "6"
    } else if d == 7 {
        "7"
    } else if d == 8 {
        "8"
    } else {
        "9"
    };
    proof {
        assert(s@ =~= seq![digit_char_of(d as int)]);
    }
    s
}

/// Formats a number in canonical decimal.
pub fn format_u64(n: u64) -> (s: String)
    ensures
        s@ == dec_digits(n as int),
    decreases n,
{
    if n < 10 {
        String::from_str(digit_str(n))
    } else {
        let mut s = format_u64(n / 10);
        s.append(digit_str(n % 10));
        proof {
            assert(s@ =~= dec_digits(n as int));
        }
        s
    }
}

impl ToText for u64 {
    open spec fn spec_text(&self) -> Seq<char> {
        dec_digits(*self as int)
    }

    fn to_text(&self) -> (s: String) {
        format_u64(*self)
    }
}

impl ToText for u32 {
    open spec fn spec_text(&self) -> Seq<char> {
        dec_digits(*self as int)
    }

    fn to_text(&self) -> (s: String) {
        format_u64(*self as u64)
    }
}

impl ToText for i64 {
    open spec fn spec_text(&self) -> Seq<char> {
        if *self < 0 {
            seq!['-'] + dec_digits(-(*self as int))
        } else {
            dec_digits(*self as int)
        }
    }

    fn to_text(&self) -> (s: String) {
        if *self < 0 {
            let mag: u64 = if *self == i64::MIN {
                9223372036854775808u64
            } else {
                (-*self) as u64
            };
            let mut s = String::from_str("-");
            let tail = format_u64(mag);
            s.append(tail.as_str());
            proof {
                reveal_strlit("-");
                assert(s@ =~= self.spec_text());
            }
            s
        } else {
            format_u64(*self as u64)
        }
    }
}

} // verus!
