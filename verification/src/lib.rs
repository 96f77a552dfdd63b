//! A typed, incrementally validated text-input buffer.
//!
//! [`ValText`] owns a piece of UTF-8 text together with a cached parse of it.
//! A parse policy — a [`TextParser`] paired with an [`InputValidator`] —
//! decides which insertions are allowed and what value the text denotes.
//! Every accepted mutation re-derives the cache, so a host can always ask
//! cheaply what value the text currently represents and whether it is valid.

use vstd::prelude::*;
use vstd::string::*;

pub mod chars;
pub mod digits;
pub mod numeric;
pub mod percentage;
pub mod hexcolor;

verus! {

use crate::chars::{spliced, removed, splice_at_char, remove_char_range};

/// Turns the whole current text into either a success value or a typed error.
///
/// `spec_parse` is the mathematical meaning of the parser; `parse` is bound to
/// it exactly, so a buffer's cached outcome is pinned by the policy alone.
pub trait TextParser<T, E> {
    spec fn spec_parse(&self, text: Seq<char>) -> Result<T, E>;

    fn parse(&self, text: &str) -> (r: Result<T, E>)
        ensures
            r == self.spec_parse(text@),
    ;
}

/// Decides whether a candidate string may be inserted into the current text
/// at a given character index, judging the pre-mutation text only.
pub trait InputValidator {
    spec fn spec_accepts(&self, text: Seq<char>, cand: Seq<char>, index: int) -> bool;

    fn validate(&self, text: &str, cand: &str, index: usize) -> (b: bool)
        ensures
            b == self.spec_accepts(text@, cand@, index as int),
    ;
}

/// A value with a canonical text form, used by [`ValText::set_val`] to
/// overwrite the buffer programmatically.
pub trait ToText {
    spec fn spec_text(&self) -> Seq<char>;

    fn to_text(&self) -> (s: String)
        ensures
            s@ == self.spec_text(),
    ;
}

/// A mutable text buffer that validates each insertion before applying it and
/// keeps a cached parse of the current text.
///
/// The cache is re-derived on every accepted mutation, so after any sequence
/// of inserts and deletes it equals the parser applied to the current text
/// (see [`ValText::coherent`]).
pub struct ValText<T, E, P, V> {
    text: String,
    parsed_val: Option<Result<T, E>>,
    value_parser: P,
    input_validator: V,
}

impl<T, E, P: TextParser<T, E>, V: InputValidator> ValText<T, E, P, V> {
    /// The current text, as a sequence of characters.
    pub closed spec fn text_view(&self) -> Seq<char> {
        self.text@
    }

    /// The cached outcome of the most recent parse, absent before the first
    /// mutation unless the policy pre-seeds it.
    pub closed spec fn cache(&self) -> Option<Result<T, E>> {
        self.parsed_val
    }

    pub closed spec fn parser(&self) -> P {
        self.value_parser
    }

    pub closed spec fn validator(&self) -> V {
        self.input_validator
    }

    /// Cache coherence: whatever the cache holds is exactly the parse of the
    /// current text.  Established at construction and re-established by every
    /// insert and delete.
    pub open spec fn coherent(&self) -> bool {
        match self.cache() {
            Some(r) => r == self.parser().spec_parse(self.text_view()),
            None => true,
        }
    }

    pub fn new(value_parser: P, input_validator: V) -> (v: Self)
        ensures
            v.text_view() == Seq::<char>::empty(),
            v.cache() is None,
            v.parser() == value_parser,
            v.validator() == input_validator,
            v.coherent(),
    {
        ValText { text: String::new(), parsed_val: None, value_parser, input_validator }
    }

    pub fn new_box(value_parser: Box<P>, input_validator: Box<V>) -> (v: Self)
        ensures
            v.text_view() == Seq::<char>::empty(),
            v.cache() is None,
            v.parser() == *value_parser,
            v.validator() == *input_validator,
            v.coherent(),
    {
        Self::new(*value_parser, *input_validator)
    }

    /// Read-only view of the cache.
    pub fn get_val(&self) -> (r: Option<Result<&T, &E>>)
        ensures
            match self.cache() {
                None => r is None,
                Some(res) => match (res, r) {
                    (Ok(t), Some(Ok(rt))) => *rt == t,
                    (Err(e), Some(Err(re))) => *re == e,
                    _ => false,
                },
            },
    {
        match &self.parsed_val {
            None => None,
            Some(res) => Some(res.as_ref()),
        }
    }

    /// True iff the cache holds a success.
    pub fn is_valid(&self) -> (b: bool)
        ensures
            b == match self.cache() {
                Some(res) => res is Ok,
                None => false,
            },
    {
        match &self.parsed_val {
            Some(res) => res.is_ok(),
            None => false,
        }
    }

    /// This buffer can always be edited.
    pub fn is_mutable(&self) -> (b: bool)
        ensures
            b,
    {
        true
    }

    /// The current raw text.
    pub fn as_str(&self) -> (s: &str)
        ensures
            s@ == self.text_view(),
    {
        self.text.as_str()
    }

    /// Proposes `text` for insertion at character position `char_index`.
    ///
    /// The validator judges the pre-mutation text.  If it rejects, nothing
    /// changes and 0 is returned; if it accepts, the candidate is spliced in
    /// whole, the cache is re-derived from the new text, and the number of
    /// characters inserted is returned.  An index past the end inserts at the
    /// end.
    pub fn insert_text(&mut self, text: &str, char_index: usize) -> (n: usize)
        ensures
            old(self).validator().spec_accepts(old(self).text_view(), text@, char_index as int)
                ==> {
                &&& final(self).text_view() == spliced(
                    old(self).text_view(),
                    text@,
                    char_index as int,
                )
                &&& n == text@.len()
                &&& final(self).cache() == Some(
                    final(self).parser().spec_parse(final(self).text_view()),
                )
            },
            !old(self).validator().spec_accepts(old(self).text_view(), text@, char_index as int)
                ==> *final(self) == *old(self) && n == 0,
            final(self).parser() == old(self).parser(),
            final(self).validator() == old(self).validator(),
            old(self).coherent() ==> final(self).coherent(),
    {
        if self.input_validator.validate(self.text.as_str(), text, char_index) {
            let new_text = splice_at_char(self.text.as_str(), text, char_index);
            self.text = new_text;
            self.parsed_val = Some(self.value_parser.parse(self.text.as_str()));
            text.unicode_len()
        } else {
            0
        }
    }

    /// Removes the character range `start..end` unconditionally and re-derives
    /// the cache from the shorter text.  Bounds past the end are clamped;
    /// there is no validator hook for deletion.
    pub fn delete_char_range(&mut self, char_range: core::ops::Range<usize>)
        requires
            char_range.start <= char_range.end,
        ensures
            final(self).text_view() == removed(
                old(self).text_view(),
                char_range.start as int,
                char_range.end as int,
            ),
            final(self).cache() == Some(
                final(self).parser().spec_parse(final(self).text_view()),
            ),
            final(self).parser() == old(self).parser(),
            final(self).validator() == old(self).validator(),
            final(self).coherent(),
    {
        let new_text = remove_char_range(self.text.as_str(), char_range.start, char_range.end);
        self.text = new_text;
        self.parsed_val = Some(self.value_parser.parse(self.text.as_str()));
    }
}

impl<T: ToText, E, P: TextParser<T, E>, V: InputValidator> ValText<T, E, P, V> {
    /// Overwrites the text with the canonical form of `val` and sets the
    /// cache to success directly, bypassing the validator.  Used for
    /// programmatic assignment, not user typing.
    pub fn set_val(&mut self, val: T)
        ensures
            final(self).text_view() == val.spec_text(),
            final(self).cache() == Some(Ok::<T, E>(val)),
            final(self).parser() == old(self).parser(),
            final(self).validator() == old(self).validator(),
    {
        self.text = val.to_text();
        self.parsed_val = Some(Ok(val));
    }
}

/// The validator that accepts every insertion.
pub struct AcceptAll;

impl InputValidator for AcceptAll {
    open spec fn spec_accepts(&self, text: Seq<char>, cand: Seq<char>, index: int) -> bool {
        true
    }

    fn validate(&self, text: &str, cand: &str, index: usize) -> (b: bool) {
        true
    }
}

/// Accepts a candidate iff every one of its characters is in `allowed`.
pub struct FixedCharset {
    pub allowed: Vec<char>,
}

impl InputValidator for FixedCharset {
    open spec fn spec_accepts(&self, text: Seq<char>, cand: Seq<char>, index: int) -> bool {
        forall|i: int| 0 <= i < cand.len() ==> self.allowed@.contains(#[trigger] cand[i])
    }

    fn validate(&self, text: &str, cand: &str, index: usize) -> (b: bool) {
        let len: usize = cand.unicode_len();
        for i in 0..len
            invariant
                len == cand@.len(),
                forall|j: int| 0 <= j < i ==> self.allowed@.contains(#[trigger] cand@[j]),
        {
            let c = cand.get_char(i);
            let mut found = false;
            let alen: usize = self.allowed.len();
            for k in 0..alen
                invariant
                    alen == self.allowed@.len(),
                    found ==> self.allowed@.contains(c),
                    !found ==> forall|m: int| 0 <= m < k ==> self.allowed@[m] != c,
            {
                if self.allowed[k] == c {
                    found = true;
                }
            }
            if !found {
                proof {
                    assert(cand@[i as int] == c);
                    assert(!self.allowed@.contains(c));
                }
                return false;
            }
            proof {
                assert(cand@[i as int] == c);
            }
        }
        true
    }
}

impl<T, E, P: TextParser<T, E>> ValText<T, E, P, AcceptAll> {
    /// A buffer whose validator always accepts: the parse alone decides
    /// validity.
    pub fn with_parser(parser: P) -> (v: Self)
        ensures
            v.text_view() == Seq::<char>::empty(),
            v.cache() is None,
            v.parser() == parser,
            v.coherent(),
    {
        Self::new(parser, AcceptAll)
    }
}

impl<T, E, P: TextParser<T, E>> ValText<T, E, P, FixedCharset> {
    /// A buffer that only lets characters of `charset` be typed.
    pub fn with_parser_fixed_charset(parser: P, charset: &[char]) -> (v: Self)
        ensures
            v.text_view() == Seq::<char>::empty(),
            v.cache() is None,
            v.parser() == parser,
            v.validator().allowed@ == charset@,
            v.coherent(),
    {
        Self::new(parser, FixedCharset { allowed: vstd::slice::slice_to_vec(charset) })
    }
}

/// Treats empty text as "no value": parses it to `Ok(None)` and wraps the
/// inner parser's success in `Some` otherwise.
pub struct OptionalParser<P> {
    pub inner: P,
}

impl<T, E, P: TextParser<T, E>> TextParser<Option<T>, E> for OptionalParser<P> {
    open spec fn spec_parse(&self, text: Seq<char>) -> Result<Option<T>, E> {
        if text.len() == 0 {
            Ok(None)
        } else {
            match self.inner.spec_parse(text) {
                Ok(t) => Ok(Some(t)),
                Err(e) => Err(e),
            }
        }
    }

    fn parse(&self, text: &str) -> (r: Result<Option<T>, E>) {
        if text.is_empty() {
            Ok(None)
        } else {
            match self.inner.parse(text) {
                Ok(t) => Ok(Some(t)),
                Err(e) => Err(e),
            }
        }
    }
}

impl<T, E, P: TextParser<T, E>> ValText<Option<T>, E, OptionalParser<P>, AcceptAll> {
    /// A buffer for an optional value: empty text is a valid "none".
    pub fn option_parse(parser: P) -> (v: Self)
        ensures
            v.text_view() == Seq::<char>::empty(),
            v.cache() is None,
            v.parser() == (OptionalParser { inner: parser }),
            v.coherent(),
    {
        Self::new(OptionalParser { inner: parser }, AcceptAll)
    }
}

} // verus!
