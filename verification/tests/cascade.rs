use muskitty_cascade::cascade::{cascade_for_element, cascade_winner, wins_over};
use muskitty_cascade::compute::{compute_property_tokens, style_property_names, CustomPropertySource};
use muskitty_cascade::custom_properties::{derive_own_custom_props, is_css_wide_keyword, CustomProperties};
use muskitty_cascade::style::{ComputedStyle, ComputedValue, DeclaredValue, Origin, Specificity};
use muskitty_cascade::token::{ComponentValue, Function, Token};

fn ident(s: &str) -> ComponentValue {
    ComponentValue::PreservedToken(Token::Ident(s.to_string()))
}

fn decl(property: &str, value: &str, order: usize) -> DeclaredValue {
    DeclaredValue {
        property: property.to_string(),
        value: vec![ident(value)],
        important: false,
        origin: Origin::Author,
        specificity: Specificity::new(0, 0, 1),
        order,
        from_style_attr: false,
        layer_order: None,
    }
}

fn winner_keyword(declared: Vec<DeclaredValue>, property: &str) -> Option<String> {
    let groups = cascade_for_element(declared);
    let group = groups.get(property)?;
    match &cascade_winner(group)?.value[0] {
        ComponentValue::PreservedToken(Token::Ident(s)) => Some(s.clone()),
        _ => None,
    }
}

#[test]
fn cascade_criteria_in_order() {
    // Origin and importance first.
    let mut ua = decl("color", "ua", 2);
    ua.origin = Origin::UserAgent;
    ua.important = true;
    let mut author = decl("color", "author", 1);
    author.important = true;
    assert_eq!(winner_keyword(vec![author, ua], "color").as_deref(), Some("ua"));

    // The style attribute beats any selector.
    let mut attr = decl("color", "attr", 1);
    attr.from_style_attr = true;
    attr.specificity = Specificity::new(0, 0, 0);
    let mut id = decl("color", "id", 2);
    id.specificity = Specificity::new(1, 0, 0);
    assert_eq!(winner_keyword(vec![id, attr], "color").as_deref(), Some("attr"));

    // Specificity before order.
    let mut class = decl("color", "class", 1);
    class.specificity = Specificity::new(0, 1, 0);
    let later = decl("color", "later", 5);
    assert_eq!(winner_keyword(vec![class, later], "color").as_deref(), Some("class"));

    // Order breaks the remaining ties.
    assert_eq!(
        winner_keyword(vec![decl("color", "first", 1), decl("color", "second", 2)], "color").as_deref(),
        Some("second")
    );
}

#[test]
fn cascade_layers_order_normal_and_important_oppositely() {
    let mut a = decl("color", "a", 1);
    a.layer_order = Some(0);
    let mut b = decl("color", "b", 2);
    b.layer_order = Some(1);
    let unlayered = decl("color", "none", 0);
    assert_eq!(winner_keyword(vec![a.clone(), b.clone(), unlayered.clone()], "color").as_deref(), Some("none"));
    assert_eq!(winner_keyword(vec![a.clone(), b.clone()], "color").as_deref(), Some("b"));
    let (mut ai, mut bi, mut ui) = (a, b, unlayered);
    ai.important = true;
    bi.important = true;
    ui.important = true;
    assert_eq!(winner_keyword(vec![ai.clone(), bi.clone(), ui], "color").as_deref(), Some("a"));
    assert!(wins_over(&ai, &bi));
    assert!(!wins_over(&bi, &ai));
}

#[test]
fn groups_hold_every_declaration_of_their_property() {
    let groups = cascade_for_element(vec![
        decl("color", "x", 1),
        decl("display", "block", 2),
        decl("color", "y", 3),
    ]);
    assert_eq!(groups.get("color").unwrap().len(), 2);
    assert_eq!(groups.get("display").unwrap().len(), 1);
    assert!(groups.get("width").is_none());
    assert!(cascade_winner(&[]).is_none());
}

#[test]
fn own_custom_properties_skip_css_wide_keywords() {
    let groups = cascade_for_element(vec![
        decl("--a", "red", 1),
        decl("--b", "inherit", 2),
        decl("color", "blue", 3),
    ]);
    let own = derive_own_custom_props(&groups);
    assert_eq!(own.len(), 1);
    assert!(own.contains_key("--a"));
    assert!(is_css_wide_keyword(&[ident("UNSET")]));
    assert!(!is_css_wide_keyword(&[ident("revert-layer")]));
    assert!(!is_css_wide_keyword(&[ident("inherit"), ident("x")]));
}

#[test]
fn property_tokens_default_substitute_and_fall_back() {
    let var = ComponentValue::Function(Function { name: "var".to_string(), value: vec![ident("--c")] });
    let mut d = decl("color", "", 1);
    d.value = vec![var];
    let groups = cascade_for_element(vec![d, decl("display", "inherit", 2)]);
    let mut parent = ComputedStyle::new();
    parent.set("color", ComputedValue::from_keyword("navy"));
    parent.set("display", ComputedValue::from_keyword("flex"));

    // Defined variable: substituted.
    let mut props = CustomProperties::new();
    props.insert("--c".to_string(), vec![ident("teal")]);
    let src = CustomPropertySource::flat(&props);
    let (v, substituted) = compute_property_tokens("color", &groups, Some(&parent), &src);
    assert!(substituted);
    assert_eq!(v.keyword(), Some("teal"));

    // Undefined variable: invalid at computed-value time, so `unset`, which
    // inherits `color`.
    let empty = CustomProperties::new();
    let src = CustomPropertySource::flat(&empty);
    let (v, substituted) = compute_property_tokens("color", &groups, Some(&parent), &src);
    assert!(!substituted);
    assert_eq!(v.keyword(), Some("navy"));

    // `inherit` takes the parent's value; an undeclared property its
    // initial value.
    assert_eq!(compute_property_tokens("display", &groups, Some(&parent), &src).0.keyword(), Some("flex"));
    assert_eq!(compute_property_tokens("position", &groups, Some(&parent), &src).0.keyword(), Some("static"));
}

#[test]
fn style_property_names_cover_groups_and_registry() {
    let groups = cascade_for_element(vec![decl("--x", "1", 1), decl("font-size", "big", 2)]);
    let names = style_property_names(&groups);
    assert!(names.iter().any(|n| n == "--x"));
    assert!(names.iter().any(|n| n == "color"));
    assert!(!names.iter().any(|n| n == "font-size"));
    let mut sorted = names.clone();
    sorted.sort();
    sorted.dedup();
    assert_eq!(sorted.len(), names.len());
}

#[test]
fn computed_style_set_replaces() {
    let mut cs = ComputedStyle::new();
    cs.set("color", ComputedValue::from_keyword("red"));
    cs.set("color", ComputedValue::from_keyword("blue"));
    assert_eq!(cs.get("color").unwrap().keyword(), Some("blue"));
    assert_eq!(cs.names().len(), 1);
    assert!(cs.contains("color"));
    assert!(!cs.contains("display"));
}
