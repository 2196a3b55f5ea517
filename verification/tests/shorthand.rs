use muskitty_cascade::shorthand::{expand_shorthand, normalize_line_width};
use muskitty_cascade::style::ComputedValue;
use muskitty_cascade::token::{ComponentValue, Function, Numeric, Token};

fn ident(s: &str) -> ComponentValue {
    ComponentValue::PreservedToken(Token::Ident(s.to_string()))
}

fn ws() -> ComponentValue {
    ComponentValue::PreservedToken(Token::Whitespace)
}

fn px(v: f64) -> ComponentValue {
    ComponentValue::PreservedToken(Token::Dimension(Numeric { bits: v.to_bits(), is_integer: v.fract() == 0.0 }, "px".to_string()))
}

fn number(v: f64) -> ComponentValue {
    ComponentValue::PreservedToken(Token::Number(Numeric { bits: v.to_bits(), is_integer: v.fract() == 0.0 }))
}

fn spaced(vs: Vec<ComponentValue>) -> Vec<ComponentValue> {
    let mut out = Vec::new();
    for (i, v) in vs.into_iter().enumerate() {
        if i > 0 {
            out.push(ws());
        }
        out.push(v);
    }
    out
}

fn ident_of(v: &[ComponentValue]) -> Option<String> {
    match v {
        [ComponentValue::PreservedToken(Token::Ident(s))] => Some(s.clone()),
        _ => None,
    }
}

fn px_of(v: &[ComponentValue]) -> Option<f64> {
    match v {
        [ComponentValue::PreservedToken(Token::Dimension(n, u))] if u == "px" => Some(f64::from_bits(n.bits)),
        _ => None,
    }
}

fn names(es: &[(String, Vec<ComponentValue>)]) -> Vec<String> {
    es.iter().map(|e| e.0.clone()).collect()
}

#[test]
fn border_width_one_value_sets_all_sides() {
    let es = expand_shorthand("border-width", &[px(4.0)]).expect("border-width is a shorthand");
    assert_eq!(names(&es), vec!["border-top-width", "border-right-width", "border-bottom-width", "border-left-width"]);
    for e in &es {
        assert_eq!(px_of(&e.1), Some(4.0));
    }
}

#[test]
fn border_width_two_values_pair_vertical_and_horizontal() {
    let es = expand_shorthand("border-width", &spaced(vec![px(1.0), px(2.0)])).unwrap();
    let vals: Vec<Option<f64>> = es.iter().map(|e| px_of(&e.1)).collect();
    assert_eq!(vals, vec![Some(1.0), Some(2.0), Some(1.0), Some(2.0)]);
}

#[test]
fn border_width_three_values_left_copies_right() {
    let es = expand_shorthand("border-width", &spaced(vec![px(1.0), px(2.0), px(3.0)])).unwrap();
    let vals: Vec<Option<f64>> = es.iter().map(|e| px_of(&e.1)).collect();
    assert_eq!(vals, vec![Some(1.0), Some(2.0), Some(3.0), Some(2.0)]);
}

#[test]
fn border_color_four_values_in_order() {
    let es = expand_shorthand("border-color", &spaced(vec![ident("red"), ident("green"), ident("blue"), ident("black")])).unwrap();
    assert_eq!(names(&es), vec!["border-top-color", "border-right-color", "border-bottom-color", "border-left-color"]);
    let vals: Vec<Option<String>> = es.iter().map(|e| ident_of(&e.1)).collect();
    assert_eq!(
        vals,
        vec![Some("red".to_string()), Some("green".to_string()), Some("blue".to_string()), Some("black".to_string())]
    );
}

#[test]
fn box_shorthand_with_five_values_is_invalid() {
    let es = expand_shorthand("border-width", &spaced(vec![px(1.0), px(2.0), px(3.0), px(4.0), px(5.0)])).unwrap();
    assert!(es.is_empty());
    let es = expand_shorthand("border-style", &[]).unwrap();
    assert!(es.is_empty());
}

#[test]
fn wide_keyword_alone_sets_every_longhand() {
    let es = expand_shorthand("border-style", &[ident("inherit")]).unwrap();
    assert_eq!(es.len(), 4);
    for e in &es {
        assert_eq!(ident_of(&e.1).as_deref(), Some("inherit"));
    }
    let es = expand_shorthand("border", &[ws(), ident("unset"), ws()]).unwrap();
    assert_eq!(es.len(), 12);
    for e in &es {
        assert_eq!(ident_of(&e.1).as_deref(), Some("unset"));
    }
}

#[test]
fn wide_keyword_mixed_with_values_is_invalid() {
    let es = expand_shorthand("border-width", &spaced(vec![px(1.0), ident("inherit")])).unwrap();
    assert!(es.is_empty());
    let es = expand_shorthand("border", &spaced(vec![ident("thin"), ident("initial")])).unwrap();
    assert!(es.is_empty());
}

#[test]
fn border_sets_width_style_color_of_every_side() {
    let es = expand_shorthand("border", &spaced(vec![ident("thin"), ident("solid"), ident("red")])).unwrap();
    assert_eq!(
        names(&es),
        vec![
            "border-top-width", "border-top-style", "border-top-color",
            "border-right-width", "border-right-style", "border-right-color",
            "border-bottom-width", "border-bottom-style", "border-bottom-color",
            "border-left-width", "border-left-style", "border-left-color",
        ]
    );
    for side in es.chunks(3) {
        assert_eq!(ident_of(&side[0].1).as_deref(), Some("thin"));
        assert_eq!(ident_of(&side[1].1).as_deref(), Some("solid"));
        assert_eq!(ident_of(&side[2].1).as_deref(), Some("red"));
    }
}

#[test]
fn line_shorthand_takes_values_in_any_order_and_resets_omitted() {
    let es = expand_shorthand("outline", &spaced(vec![ident("solid"), px(2.0)])).unwrap();
    assert_eq!(names(&es), vec!["outline-width", "outline-style", "outline-color"]);
    assert_eq!(px_of(&es[0].1), Some(2.0));
    assert_eq!(ident_of(&es[1].1).as_deref(), Some("solid"));
    assert_eq!(ident_of(&es[2].1).as_deref(), Some("initial"));
}

#[test]
fn line_shorthand_zero_is_a_width() {
    let es = expand_shorthand("border-top", &spaced(vec![number(0.0), ident("none")])).unwrap();
    assert_eq!(names(&es), vec!["border-top-width", "border-top-style", "border-top-color"]);
    assert!(matches!(es[0].1.as_slice(), [ComponentValue::PreservedToken(Token::Number(_))]));
    assert_eq!(ident_of(&es[1].1).as_deref(), Some("none"));
}

#[test]
fn line_shorthand_repeated_kind_is_invalid() {
    let es = expand_shorthand("border", &spaced(vec![ident("thin"), ident("thick")])).unwrap();
    assert!(es.is_empty());
    let es = expand_shorthand("border-left", &spaced(vec![ident("red"), ident("blue")])).unwrap();
    assert!(es.is_empty());
}

#[test]
fn function_value_is_a_color() {
    let rgb = ComponentValue::Function(Function { name: "rgb".to_string(), value: vec![number(0.0)] });
    let es = expand_shorthand("border-bottom", &spaced(vec![rgb, ident("dashed")])).unwrap();
    assert!(matches!(es[2].1.as_slice(), [ComponentValue::Function(f)] if f.name == "rgb"));
    assert_eq!(ident_of(&es[0].1).as_deref(), Some("initial"));
}

#[test]
fn longhands_and_other_names_are_not_shorthands() {
    assert!(expand_shorthand("border-top-width", &[px(1.0)]).is_none());
    assert!(expand_shorthand("margin", &[px(1.0)]).is_none());
    assert!(expand_shorthand("padding", &[px(1.0)]).is_none());
    assert!(expand_shorthand("color", &[ident("red")]).is_none());
    assert!(expand_shorthand("gap", &[px(1.0)]).is_none());
}

#[test]
fn width_keywords_compute_to_px() {
    let thin = normalize_line_width("border-top-width", ComputedValue::from_tokens(vec![ident("thin")]));
    assert_eq!(px_of(thin.tokens()), Some(1.0));
    let medium = normalize_line_width("outline-width", ComputedValue::from_tokens(vec![ident("MEDIUM")]));
    assert_eq!(px_of(medium.tokens()), Some(3.0));
    let thick = normalize_line_width("border-left-width", ComputedValue::from_tokens(vec![ws(), ident("thick")]));
    assert_eq!(px_of(thick.tokens()), Some(5.0));
}

#[test]
fn other_widths_and_properties_stay() {
    let seven = normalize_line_width("border-top-width", ComputedValue::from_tokens(vec![px(7.0)]));
    assert_eq!(px_of(seven.tokens()), Some(7.0));
    let font = normalize_line_width("font-size", ComputedValue::from_tokens(vec![ident("medium")]));
    assert_eq!(ident_of(font.tokens()).as_deref(), Some("medium"));
    let inherit = normalize_line_width("outline-width", ComputedValue::from_tokens(vec![ident("inherit")]));
    assert_eq!(ident_of(inherit.tokens()).as_deref(), Some("inherit"));
}

#[test]
fn computing_a_width_twice_changes_nothing() {
    let once = normalize_line_width("border-right-width", ComputedValue::from_tokens(vec![ident("thick")]));
    let again = match once.tokens() {
        [ComponentValue::PreservedToken(Token::Dimension(n, u))] => ComponentValue::PreservedToken(Token::Dimension(*n, u.clone())),
        other => panic!("expected one dimension, got {:?}", other),
    };
    let twice = normalize_line_width("border-right-width", ComputedValue::from_tokens(vec![again]));
    assert_eq!(px_of(twice.tokens()), Some(5.0));
}

#[test]
fn calc_in_a_line_shorthand_is_a_width() {
    let calc = ComponentValue::Function(Function { name: "calc".to_string(), value: vec![px(1.0)] });
    let es = expand_shorthand("outline", &spaced(vec![ident("dotted"), calc, ident("blue")])).unwrap();
    assert!(matches!(es[0].1.as_slice(), [ComponentValue::Function(f)] if f.name == "calc"));
    assert_eq!(ident_of(&es[1].1).as_deref(), Some("dotted"));
    assert_eq!(ident_of(&es[2].1).as_deref(), Some("blue"));
}
