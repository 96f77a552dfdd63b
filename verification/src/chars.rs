//! Character classes and character-indexed editing of UTF-8 strings.
//!
//! Every index in this crate counts characters, never bytes, so a multi-byte
//! character is one unit.  The editing functions below are the only places
//! where the buffer's text is rebuilt.

use vstd::prelude::*;
use vstd::string::*;

verus! {

/// An ASCII decimal digit.
pub open spec fn is_digit_char(c: char) -> bool {
    '0' <= c && c <= '9'
}

/// An ASCII hexadecimal digit.
pub open spec fn is_hex_digit_char(c: char) -> bool {
    is_digit_char(c) || ('a' <= c && c <= 'f') || ('A' <= c && c <= 'F')
}

/// Every character of `s` is an ASCII decimal digit.
pub open spec fn all_digits(s: Seq<char>) -> bool {
    forall|i: int| 0 <= i < s.len() ==> is_digit_char(#[trigger] s[i])
}

/// Every character of `s` is an ASCII hexadecimal digit.
pub open spec fn all_hex_digits(s: Seq<char>) -> bool {
    forall|i: int| 0 <= i < s.len() ==> is_hex_digit_char(#[trigger] s[i])
}

pub fn digit_char(c: char) -> (b: bool)
    ensures
        b == is_digit_char(c),
{
    '0' <= c && c <= '9'
}

pub fn hex_digit_char(c: char) -> (b: bool)
    ensures
        b == is_hex_digit_char(c),
{
    digit_char(c) || ('a' <= c && c <= 'f') || ('A' <= c && c <= 'F')
}

pub fn check_all_digits(s: &str) -> (b: bool)
    ensures
        b == all_digits(s@),
{
    let len: usize = s.unicode_len();
    for i in 0..len
        invariant
            len == s@.len(),
            forall|j: int| 0 <= j < i ==> is_digit_char(#[trigger] s@[j]),
    {
        if !digit_char(s.get_char(i)) {
            return false;
        }
    }
    true
}

pub fn check_all_hex_digits(s: &str) -> (b: bool)
    ensures
        b == all_hex_digits(s@),
{
    let len: usize = s.unicode_len();
    for i in 0..len
        invariant
            len == s@.len(),
            forall|j: int| 0 <= j < i ==> is_hex_digit_char(#[trigger] s@[j]),
    {
        if !hex_digit_char(s.get_char(i)) {
            return false;
        }
    }
    true
}

pub fn contains_char(s: &str, c: char) -> (b: bool)
    ensures
        b == s@.contains(c),
{
    let len: usize = s.unicode_len();
    for i in 0..len
        invariant
            len == s@.len(),
            forall|j: int| 0 <= j < i ==> s@[j] != c,
    {
        if s.get_char(i) == c {
            proof {
                assert(s@[i as int] == c);
            }
            return true;
        }
    }
    proof {
        assert(forall|j: int| 0 <= j < s@.len() ==> s@[j] != c);
    }
    false
}

/// `text` with `cand` spliced in at character position `i`; an `i` past the
/// end inserts at the end.
pub open spec fn spliced(text: Seq<char>, cand: Seq<char>, i: int) -> Seq<char> {
    let k = if 0 <= i && i <= text.len() {
        i
    } else {
        text.len() as int
    };
    text.subrange(0, k) + cand + text.subrange(k, text.len() as int)
}

/// `text` with the character range `start..end` removed; bounds past the end
/// are clamped to the end.
pub open spec fn removed(text: Seq<char>, start: int, end: int) -> Seq<char> {
    let s = if start <= text.len() {
        start
    } else {
        text.len() as int
    };
    let e = if end <= text.len() {
        end
    } else {
        text.len() as int
    };
    text.subrange(0, s) + text.subrange(e, text.len() as int)
}

pub fn splice_at_char(text: &str, cand: &str, char_index: usize) -> (r: String)
    ensures
        r@ == spliced(text@, cand@, char_index as int),
{
    let len: usize = text.unicode_len();
    let k: usize = if char_index <= len {
        char_index
    } else {
        len
    };
    let pre = text.substring_char(0, k);
    let post = text.substring_char(k, len);
    let mut r = String::from_str(pre);
    r.append(cand);
    r.append(post);
    proof {
        assert(r@ =~= spliced(text@, cand@, char_index as int));
    }
    r
}

pub fn remove_char_range(text: &str, start: usize, end: usize) -> (r: String)
    requires
        start <= end,
    ensures
        r@ == removed(text@, start as int, end as int),
{
    let len: usize = text.unicode_len();
    let s: usize = if start <= len {
        start
    } else {
        len
    };
    let e: usize = if end <= len {
        end
    } else {
        len
    };
    let pre = text.substring_char(0, s);
    let post = text.substring_char(e, len);
    let mut r = String::from_str(pre);
    r.append(post);
    proof {
        assert(r@ =~= removed(text@, start as int, end as int));
    }
    r
}

} // verus!
