//! The core buffer: validation-gated insertion, unconditional deletion, the
//! cache, and programmatic assignment.

use egui_typed_input::digits::NumParseError;
use egui_typed_input::numeric::{IntParser, UintParser};
use egui_typed_input::{AcceptAll, TextParser, ValText};

#[test]
fn fresh_buffer_is_empty_and_unparsed() {
    let v = ValText::new(IntParser, AcceptAll);
    assert_eq!(v.as_str(), "");
    assert_eq!(v.get_val(), None);
    assert!(!v.is_valid());
    assert!(v.is_mutable());
}

#[test]
fn new_box_behaves_like_new() {
    let mut v = ValText::new_box(Box::new(IntParser), Box::new(AcceptAll));
    assert_eq!(v.get_val(), None);
    assert_eq!(v.insert_text("41", 0), 2);
    assert_eq!(v.get_val(), Some(Ok(&41i64)));
}

#[test]
fn insert_returns_character_count_and_reparses() {
    let mut v = ValText::new(UintParser, AcceptAll);
    assert_eq!(v.insert_text("12", 0), 2);
    assert_eq!(v.as_str(), "12");
    assert_eq!(v.get_val(), Some(Ok(&12u64)));
    assert_eq!(v.insert_text("0", 1), 1);
    assert_eq!(v.as_str(), "102");
    assert_eq!(v.get_val(), Some(Ok(&102u64)));
}

#[test]
fn insert_index_counts_characters_not_bytes() {
    let mut v = ValText::new(UintParser, AcceptAll);
    assert_eq!(v.insert_text("äöü", 0), 3);
    assert_eq!(v.insert_text("12", 1), 2);
    assert_eq!(v.as_str(), "ä12öü");
    assert_eq!(v.insert_text("9", 5), 1);
    assert_eq!(v.as_str(), "ä12öü9");
}

#[test]
fn insert_past_the_end_appends() {
    let mut v = ValText::new(UintParser, AcceptAll);
    assert_eq!(v.insert_text("42", 100), 2);
    assert_eq!(v.as_str(), "42");
}

#[test]
fn delete_counts_characters_and_reparses() {
    let mut v = ValText::new(UintParser, AcceptAll);
    v.insert_text("ä105", 0);
    v.delete_char_range(0..1);
    assert_eq!(v.as_str(), "105");
    assert_eq!(v.get_val(), Some(Ok(&105u64)));
    v.delete_char_range(1..2);
    assert_eq!(v.as_str(), "15");
    assert_eq!(v.get_val(), Some(Ok(&15u64)));
}

#[test]
fn delete_clamps_to_end() {
    let mut v = ValText::new(UintParser, AcceptAll);
    v.insert_text("7", 0);
    v.delete_char_range(1..100);
    assert_eq!(v.as_str(), "7");
    v.delete_char_range(0..100);
    assert_eq!(v.as_str(), "");
    assert_eq!(v.get_val(), Some(Err(&NumParseError::Empty)));
}

// Cache coherence: after any sequence of inserts and deletes the cached
// outcome equals the parser applied to the current text at that instant.
#[test]
fn cache_always_equals_reparse_of_current_text() {
    let mut v = ValText::new(IntParser, AcceptAll);
    let steps: [(&str, usize); 5] = [("-", 0), ("12", 1), (".", 2), ("9", 4), ("x", 1)];
    for (cand, at) in steps {
        v.insert_text(cand, at);
        let reparsed = IntParser.parse(v.as_str());
        let cached = v.get_val().expect("cache is filled after a mutation");
        match (cached, &reparsed) {
            (Ok(c), Ok(r)) => assert_eq!(c, r),
            (Err(c), Err(r)) => assert_eq!(c, r),
            _ => panic!("cache and reparse disagree"),
        }
    }
    for end in [5usize, 3, 2, 1] {
        v.delete_char_range(end - 1..end);
        let reparsed = IntParser.parse(v.as_str());
        let cached = v.get_val().expect("cache is filled after a mutation");
        match (cached, &reparsed) {
            (Ok(c), Ok(r)) => assert_eq!(c, r),
            (Err(c), Err(r)) => assert_eq!(c, r),
            _ => panic!("cache and reparse disagree"),
        }
    }
}

#[test]
fn set_val_writes_canonical_text_and_success() {
    let mut v = ValText::new(IntParser, AcceptAll);
    v.insert_text("oops", 0);
    assert!(!v.is_valid());
    v.set_val(-207i64);
    assert_eq!(v.as_str(), "-207");
    assert_eq!(v.get_val(), Some(Ok(&-207i64)));
    v.set_val(0i64);
    assert_eq!(v.as_str(), "0");
    let mut u = ValText::new(UintParser, AcceptAll);
    u.set_val(18446744073709551615u64);
    assert_eq!(u.as_str(), "18446744073709551615");
}

#[test]
fn with_parser_accepts_everything() {
    let mut v = ValText::with_parser(UintParser);
    assert_eq!(v.insert_text("x!", 0), 2);
    assert_eq!(v.as_str(), "x!");
    assert_eq!(v.get_val(), Some(Err(&NumParseError::InvalidChar)));
}

#[test]
fn fixed_charset_blocks_other_characters() {
    let mut v = ValText::with_parser_fixed_charset(UintParser, &['1', '2']);
    assert_eq!(v.insert_text("121", 0), 3);
    assert_eq!(v.as_str(), "121");
    assert_eq!(v.insert_text("3", 3), 0);
    assert_eq!(v.as_str(), "121");
    assert_eq!(v.insert_text("13", 1), 0);
    assert_eq!(v.as_str(), "121");
    assert_eq!(v.get_val(), Some(Ok(&121u64)));
}

#[test]
fn option_parse_treats_empty_as_none() {
    let mut v = ValText::option_parse(UintParser);
    assert_eq!(v.get_val(), None);
    v.insert_text("12", 0);
    assert_eq!(v.get_val(), Some(Ok(&Some(12u64))));
    v.delete_char_range(0..2);
    assert_eq!(v.as_str(), "");
    assert_eq!(v.get_val(), Some(Ok(&None)));
    assert!(v.is_valid());
    v.insert_text("-", 0);
    assert_eq!(v.get_val(), Some(Err(&NumParseError::InvalidChar)));
}
