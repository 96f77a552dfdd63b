//! The hexadecimal colour policy.
//!
//! A colour text is a `#` marker followed by 3, 4, 6 or 8 hex digits.  The
//! decoding of the digit groups (including alpha premultiplication) is done
//! by egui's colour parser behind one trusted wrapper; everything around it —
//! the input rule, the marker and length errors, the buffer — is verified.

use vstd::prelude::*;
use vstd::string::*;

verus! {

use crate::chars::{all_hex_digits, check_all_hex_digits};
use crate::{ValText, TextParser, InputValidator};

/// An sRGBA colour with premultiplied alpha, as the hex parser produces it.
#[derive(Clone, Copy, Debug, PartialEq, Eq, Structural)]
pub struct Color {
    pub r: u8,
    pub g: u8,
    pub b: u8,
    pub a: u8,
}

/// Why a text fails to denote a hex colour.
#[derive(Clone, Copy, Debug, PartialEq, Eq, Structural)]
pub enum HexColorError {
    /// The text does not begin with the `#` marker.
    MissingHash,
    /// The part after `#` does not have 3, 4, 6 or 8 characters.
    InvalidLength,
    /// A digit group is not a valid hexadecimal numeral.
    InvalidDigit,
}

/// What a `#`-marked text denotes as a hex colour: the colour its digit part
/// decodes to, or the length or digit error it produces.  Only the trusted
/// parser below gives this name its meaning.
pub uninterp spec fn hex_color_of(s: Seq<char>) -> Result<Color, HexColorError>;

/// The digit part of a hex colour has 3, 4, 6 or 8 characters.
pub open spec fn hex_digit_count_ok(n: int) -> bool {
    n == 3 || n == 4 || n == 6 || n == 8
}

/// What parsing a hex colour text yields: a text without the leading `#` is
/// rejected as such; a marked text means whatever its digit part denotes.
pub open spec fn spec_hex_parse(s: Seq<char>) -> Result<Color, HexColorError> {
    if s.len() == 0 || s[0] != '#' {
        Err(HexColorError::MissingHash)
    } else {
        hex_color_of(s)
    }
}

/// Relies on `egui::Color32::from_hex`: it rejects exactly the texts without
/// the leading `#` marker as unmarked; a marked text whose digit part is all
/// ASCII hex digits decodes successfully when that part has 3, 4, 6 or 8
/// characters and is a length error otherwise.  The result depends on the
/// text alone.
#[verifier::external_body]
fn parse_hex_color(s: &str) -> (r: Result<Color, HexColorError>)
    ensures
        r == spec_hex_parse(s@),
        (s@.len() >= 1 && s@[0] == '#') ==> r == hex_color_of(s@),
        (s@.len() >= 1 && s@[0] == '#' && all_hex_digits(s@.skip(1)) && hex_digit_count_ok(
            s@.len() - 1,
        )) ==> r is Ok,
        (s@.len() >= 1 && s@[0] == '#' && all_hex_digits(s@.skip(1)) && !hex_digit_count_ok(
            s@.len() - 1,
        )) ==> r is Err && r->Err_0 == HexColorError::InvalidLength,
{
    match egui::Color32::from_hex(s) {
        Ok(c) => Ok(Color { r: c.r(), g: c.g(), b: c.b(), a: c.a() }),
        Err(egui::ecolor::ParseHexColorError::MissingHash) => Err(HexColorError::MissingHash),
        Err(egui::ecolor::ParseHexColorError::InvalidLength) => Err(HexColorError::InvalidLength),
        Err(egui::ecolor::ParseHexColorError::InvalidInt(_)) => Err(HexColorError::InvalidDigit),
    }
}

/// Hex colour input: the first character must make the text start with the
/// `#` marker; everywhere else only hex digits may be typed.
pub struct HexColorValidator;

impl InputValidator for HexColorValidator {
    open spec fn spec_accepts(&self, text: Seq<char>, cand: Seq<char>, index: int) -> bool {
        if index == 0 {
            cand.len() > 0 && cand[0] == '#'
        } else {
            all_hex_digits(cand)
        }
    }

    fn validate(&self, text: &str, cand: &str, index: usize) -> (b: bool) {
        if index == 0 {
            !cand.is_empty() && cand.get_char(0) == '#'
        } else {
            check_all_hex_digits(cand)
        }
    }
}

/// Parses the whole text as a `#`-marked hex colour.
pub struct HexColorParser;

impl TextParser<Color, HexColorError> for HexColorParser {
    open spec fn spec_parse(&self, text: Seq<char>) -> Result<Color, HexColorError> {
        spec_hex_parse(text)
    }

    fn parse(&self, text: &str) -> (r: Result<Color, HexColorError>) {
        parse_hex_color(text)
    }
}

impl ValText<Color, HexColorError, HexColorParser, HexColorValidator> {
    /// A hex colour starting with `#`, in the 3, 4, 6 or 8-digit form.
    ///
    /// Unlike the other policies this buffer starts out with an opinion: the
    /// cache is pre-seeded with the missing-marker error, which is exactly
    /// what parsing the empty text yields.
    pub fn color_hex() -> (v: Self)
        ensures
            v.text_view() == Seq::<char>::empty(),
            v.cache() == Some(Err::<Color, HexColorError>(HexColorError::MissingHash)),
            v.parser() == HexColorParser,
            v.validator() == HexColorValidator,
            v.coherent(),
    {
        ValText {
            text: String::new(),
            parsed_val: Some(Err(HexColorError::MissingHash)),
            value_parser: HexColorParser,
            input_validator: HexColorValidator,
        }
    }
}

} // verus!
