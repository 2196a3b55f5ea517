use muskitty_cascade::defaulting::apply_defaulting;
use muskitty_cascade::style::ComputedValue;
use muskitty_cascade::token::{ComponentValue, Token};

fn ident(s: &str) -> Vec<ComponentValue> {
    vec![ComponentValue::PreservedToken(Token::Ident(s.to_string()))]
}

fn parent_keyword(s: &str) -> ComputedValue {
    ComputedValue::from_keyword(s)
}

#[test]
fn initial_keyword_returns_property_initial_value() {
    let result = apply_defaulting("color", Some(&ident("initial")), None);
    assert_eq!(result.keyword(), Some("black"));
}

#[test]
fn initial_keyword_for_non_inherited_property() {
    let result = apply_defaulting("display", Some(&ident("initial")), None);
    assert_eq!(result.keyword(), Some("inline"));
}

#[test]
fn inherit_keyword_returns_parent_computed() {
    let parent = parent_keyword("red");
    let result = apply_defaulting("color", Some(&ident("inherit")), Some(&parent));
    assert_eq!(result.keyword(), Some("red"));
}

#[test]
fn inherit_keyword_no_parent_falls_back_to_initial() {
    let result = apply_defaulting("color", Some(&ident("inherit")), None);
    assert_eq!(result.keyword(), Some("black"));
}

#[test]
fn unset_on_inherited_property_acts_as_inherit() {
    let parent = parent_keyword("blue");
    let result = apply_defaulting("color", Some(&ident("unset")), Some(&parent));
    assert_eq!(result.keyword(), Some("blue"));
}

#[test]
fn unset_on_non_inherited_property_acts_as_initial() {
    let parent = parent_keyword("block");
    let result = apply_defaulting("display", Some(&ident("unset")), Some(&parent));
    assert_eq!(result.keyword(), Some("inline"));
}

#[test]
fn unset_on_inherited_no_parent_falls_back_to_initial() {
    let result = apply_defaulting("color", Some(&ident("unset")), None);
    assert_eq!(result.keyword(), Some("black"));
}

#[test]
fn no_cascaded_value_inherited_property_inherits_from_parent() {
    let parent = parent_keyword("green");
    let result = apply_defaulting("color", None, Some(&parent));
    assert_eq!(result.keyword(), Some("green"));
}

#[test]
fn no_cascaded_value_non_inherited_property_uses_initial() {
    let parent = parent_keyword("block");
    let result = apply_defaulting("display", None, Some(&parent));
    assert_eq!(result.keyword(), Some("inline"));
}

#[test]
fn no_cascaded_value_inherited_no_parent_uses_initial() {
    let result = apply_defaulting("color", None, None);
    assert_eq!(result.keyword(), Some("black"));
}

#[test]
fn normal_value_passes_through_as_raw() {
    let result = apply_defaulting("color", Some(&ident("red")), None);
    assert_eq!(result.tokens().len(), 1);
}

#[test]
fn unknown_property_initial_keyword() {
    let result = apply_defaulting("unknown-prop", Some(&ident("initial")), None);
    assert_eq!(result.keyword(), Some("initial"));
}

#[test]
fn keyword_case_insensitive() {
    let result = apply_defaulting("color", Some(&ident("INITIAL")), None);
    assert_eq!(result.keyword(), Some("black"));
}

#[test]
fn revert_acts_as_no_cascaded_value_inherited_no_parent() {
    let result = apply_defaulting("color", Some(&ident("revert")), None);
    assert_eq!(result.keyword(), Some("black"));
}

#[test]
fn revert_acts_as_no_cascaded_value_inherited_with_parent() {
    let parent = parent_keyword("green");
    let result = apply_defaulting("color", Some(&ident("revert")), Some(&parent));
    assert_eq!(result.keyword(), Some("green"));
}

#[test]
fn revert_acts_as_no_cascaded_value_non_inherited() {
    let parent = parent_keyword("block");
    let result = apply_defaulting("display", Some(&ident("revert")), Some(&parent));
    assert_eq!(result.keyword(), Some("inline"));
}

#[test]
fn revert_layer_acts_as_no_cascaded_value() {
    let parent = parent_keyword("blue");
    let result = apply_defaulting("color", Some(&ident("revert-layer")), Some(&parent));
    assert_eq!(result.keyword(), Some("blue"));
}

#[test]
fn keyword_with_surrounding_whitespace_still_defaults() {
    let v = vec![
        ComponentValue::PreservedToken(Token::Whitespace),
        ComponentValue::PreservedToken(Token::Ident("inherit".to_string())),
        ComponentValue::PreservedToken(Token::Whitespace),
    ];
    let parent = parent_keyword("teal");
    assert_eq!(apply_defaulting("color", Some(&v), Some(&parent)).keyword(), Some("teal"));
    // Two identifiers are an ordinary value.
    let two = vec![
        ComponentValue::PreservedToken(Token::Ident("inherit".to_string())),
        ComponentValue::PreservedToken(Token::Ident("x".to_string())),
    ];
    assert_eq!(apply_defaulting("color", Some(&two), Some(&parent)).tokens().len(), 2);
}
