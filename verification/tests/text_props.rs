use std::borrow::Cow;

use muskitty_cascade::style::{ComputedStyle, ComputedValue};
use muskitty_cascade::text_props::{
    apply_text_transform, apply_white_space, is_cjk_break_dropping, text_transform_keyword,
    white_space_keyword, WhiteSpace,
};
use muskitty_cascade::token::{ComponentValue, Token};

fn kw(s: &str) -> ComponentValue {
    ComponentValue::PreservedToken(Token::Ident(s.to_string()))
}

fn ws_style(value: Option<&str>) -> ComputedStyle {
    let mut cs = ComputedStyle::new();
    if let Some(v) = value {
        cs.set("white-space", ComputedValue::from_tokens(vec![kw(v)]));
    }
    cs
}

#[test]
fn white_space_keyword_reads_computed_style() {
    assert_eq!(white_space_keyword(&ws_style(Some("pre"))), Some("pre"));
    assert_eq!(white_space_keyword(&ws_style(None)), None);
}

#[test]
fn white_space_model_matches_spec_table() {
    let cases = [
        ("normal", (true, false, true)),
        ("pre", (false, true, false)),
        ("nowrap", (true, false, false)),
        ("pre-wrap", (false, true, true)),
        ("break-spaces", (false, true, true)),
        ("pre-line", (true, true, true)),
    ];
    for (kw, (collapse, preserve_newlines, wrap)) in cases {
        let ws = WhiteSpace::from_keyword(Some(kw));
        assert_eq!(
            (ws.collapse, ws.preserve_newlines, ws.wrap),
            (collapse, preserve_newlines, wrap),
            "keyword {kw} model mismatch"
        );
    }
    for absent in [None, Some(""), Some("bogus")] {
        let ws = WhiteSpace::from_keyword(absent);
        assert_eq!(
            (ws.collapse, ws.preserve_newlines, ws.wrap),
            (true, false, true),
            "absent/unknown must behave as normal"
        );
    }
}

#[test]
fn collapse_runs_of_spaces_and_tabs() {
    let ws = WhiteSpace::from_keyword(Some("normal"));
    assert_eq!(apply_white_space("a  \t b", ws), "a b");
    assert_eq!(apply_white_space("a\tb", ws), "a b");
}

#[test]
fn segment_break_becomes_space_between_latin() {
    let ws = WhiteSpace::from_keyword(Some("normal"));
    assert_eq!(apply_white_space("foo\nbar", ws), "foo bar");
    assert_eq!(apply_white_space("foo  \n\t  bar", ws), "foo bar");
}

#[test]
fn segment_break_dropped_between_cjk() {
    let ws = WhiteSpace::from_keyword(Some("normal"));
    assert_eq!(apply_white_space("這個\n段落", ws), "這個段落");
    assert_eq!(apply_white_space("這個foo\nbar", ws), "這個foo bar");
    assert_eq!(apply_white_space("foo\n這個", ws), "foo 這個");
}

#[test]
fn leading_trailing_whitespace_removed_when_collapsing() {
    let ws = WhiteSpace::from_keyword(Some("normal"));
    assert_eq!(apply_white_space("   leading", ws), "leading");
    assert_eq!(apply_white_space("trailing   ", ws), "trailing");
    assert_eq!(apply_white_space("  \n\t  ", ws), "");
}

#[test]
fn nowrap_collapses_same_as_normal() {
    let ws = WhiteSpace::from_keyword(Some("nowrap"));
    assert_eq!(apply_white_space("a  \n\t b", ws), "a b");
}

#[test]
fn pre_line_preserves_newlines_but_collapses_spaces() {
    let ws = WhiteSpace::from_keyword(Some("pre-line"));
    assert_eq!(apply_white_space("foo  \n  bar", ws), "foo\nbar");
    assert_eq!(apply_white_space("a  b", ws), "a b");
    assert_eq!(apply_white_space("a\n\nb", ws), "a\n\nb");
    assert_eq!(apply_white_space("這個\n段落", ws), "這個\n段落");
}

#[test]
fn preserve_values_keep_everything() {
    for kw in ["pre", "pre-wrap", "break-spaces"] {
        let ws = WhiteSpace::from_keyword(Some(kw));
        let src = "  a \t\n b  ";
        let out = apply_white_space(src, ws);
        assert_eq!(out, src, "keyword {kw} must preserve all whitespace");
        assert!(matches!(out, Cow::Borrowed(_)), "{kw} should borrow");
    }
}

#[test]
fn collapse_borrows_when_nothing_to_collapse() {
    let ws = WhiteSpace::from_keyword(Some("normal"));
    let out = apply_white_space("cleantext", ws);
    assert!(matches!(out, Cow::Borrowed(_)));
    assert_eq!(out, "cleantext");
    assert_eq!(apply_white_space("clean text", ws), "clean text");
}

#[test]
fn text_transform_uppercase_and_lowercase() {
    assert_eq!(apply_text_transform("straße", Some("uppercase")), "STRASSE");
    assert_eq!(apply_text_transform("ABC def", Some("LOWERCASE")), "abc def");
}

#[test]
fn text_transform_capitalize_words() {
    assert_eq!(
        apply_text_transform("hello  wide\tworld", Some("capitalize")),
        "Hello  Wide\tWorld"
    );
    assert_eq!(apply_text_transform("étoile", Some("capitalize")), "Étoile");
}

#[test]
fn text_transform_none_missing_and_unknown_borrow() {
    for keyword in [None, Some("none"), Some("full-width"), Some("bogus")] {
        let out = apply_text_transform("Mixed Case", keyword);
        assert_eq!(out, "Mixed Case");
        assert!(matches!(out, Cow::Borrowed(_)), "should borrow untouched text");
    }
}

#[test]
fn text_transform_capitalize_borrows_when_unchanged() {
    let out = apply_text_transform("Already Capitalized", Some("capitalize"));
    assert!(matches!(out, Cow::Borrowed(_)));
}

#[test]
fn text_transform_keyword_reads_computed_style() {
    let mut cs = ComputedStyle::new();
    cs.set("text-transform", ComputedValue::from_keyword("uppercase"));
    assert_eq!(text_transform_keyword(&cs), Some("uppercase"));
    assert_eq!(text_transform_keyword(&ComputedStyle::new()), None);
}

#[test]
fn cjk_break_dropping_classes() {
    assert!(is_cjk_break_dropping('這'));
    assert!(is_cjk_break_dropping('カ'));
    assert!(!is_cjk_break_dropping('a'));
    assert!(!is_cjk_break_dropping(' '));
}

#[test]
fn collapsing_is_idempotent_on_examples() {
    let ws = WhiteSpace::from_keyword(None);
    for s in ["a  b", " x \n y ", "這個\n段落", "\t\t"] {
        let once = apply_white_space(s, ws).into_owned();
        let twice = apply_white_space(&once, ws).into_owned();
        assert_eq!(once, twice);
        assert!(!once.contains("  "));
        assert!(!once.contains('\n'));
    }
}

#[test]
fn leading_segment_break_is_removed() {
    let ws = WhiteSpace::from_keyword(Some("normal"));
    assert_eq!(apply_white_space("\nfoo", ws), "foo");
    assert_eq!(apply_white_space(" \n \tfoo bar", ws), "foo bar");
    let pre_line = WhiteSpace::from_keyword(Some("pre-line"));
    assert_eq!(apply_white_space("  foo", pre_line), "foo");
}

#[test]
fn collapsing_twice_is_collapsing_once() {
    for k in ["normal", "nowrap", "pre-line"] {
        let ws = WhiteSpace::from_keyword(Some(k));
        for text in ["\nfoo", "  a \n\n b\t", "x \n y\n", "這個\n段落 z"] {
            let once = apply_white_space(text, ws).into_owned();
            assert_eq!(apply_white_space(&once, ws), once.as_str());
        }
    }
}

#[test]
fn other_characters_pass_through_in_order() {
    let ws = WhiteSpace::from_keyword(Some("pre-line"));
    let text = " a\tb \n c\r\nd ";
    let keep = |c: &char| *c != ' ' && *c != '\t';
    let out: String = apply_white_space(text, ws).chars().filter(keep).collect();
    let src: String = text.chars().filter(keep).collect();
    assert_eq!(out, src);
}
