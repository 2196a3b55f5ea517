use muskitty_cascade::compute::{substitute_vars, CustomPropertySource};
use muskitty_cascade::custom_properties::CustomProperties;
use muskitty_cascade::token::{ComponentValue, Function, Numeric, SimpleBlock, BlockKind, Token};

fn ident(s: &str) -> ComponentValue {
    ComponentValue::PreservedToken(Token::Ident(s.to_string()))
}

fn var_fn(name: &str) -> ComponentValue {
    ComponentValue::Function(Function { name: "var".to_string(), value: vec![ident(name)] })
}

fn var_fn_fb(name: &str, fallback: &str) -> ComponentValue {
    ComponentValue::Function(Function {
        name: "var".to_string(),
        value: vec![
            ident(name),
            ComponentValue::PreservedToken(Token::Comma),
            ComponentValue::PreservedToken(Token::Whitespace),
            ident(fallback),
        ],
    })
}

fn props(entries: Vec<(&str, Vec<ComponentValue>)>) -> CustomProperties {
    let mut p = CustomProperties::new();
    for (k, v) in entries {
        p.insert(k.to_string(), v);
    }
    p
}

/// Substitution as the pipeline uses it: an invalid value yields no tokens.
fn compute(value: &[ComponentValue], p: &CustomProperties) -> Vec<ComponentValue> {
    let src = CustomPropertySource::flat(p);
    substitute_vars(value, &src).unwrap_or_default()
}

fn idents(cvs: &[ComponentValue]) -> Vec<String> {
    cvs.iter()
        .filter_map(|c| match c {
            ComponentValue::PreservedToken(Token::Ident(s)) => Some(s.clone()),
            _ => None,
        })
        .collect()
}

#[test]
fn var_substitutes_custom_property() {
    let p = props(vec![("--main-color", vec![ident("red")])]);
    let cvs = compute(&[var_fn("--main-color")], &p);
    assert_eq!(cvs.len(), 1);
    match &cvs[0] {
        ComponentValue::PreservedToken(Token::Ident(s)) => assert_eq!(s, "red"),
        other => panic!("expected Ident, got {:?}", other),
    }
}

#[test]
fn var_uses_fallback_when_undefined() {
    let p = props(vec![]);
    let cvs = compute(&[var_fn_fb("--undefined", "blue")], &p);
    assert!(idents(&cvs).contains(&"blue".to_string()));
}

#[test]
fn var_self_reference_returns_empty() {
    let p = props(vec![("--a", vec![var_fn("--a")])]);
    assert!(compute(&[var_fn("--a")], &p).is_empty(), "self-cycle must resolve to empty");
}

#[test]
fn var_two_cycle_returns_empty() {
    let p = props(vec![("--a", vec![var_fn("--b")]), ("--b", vec![var_fn("--a")])]);
    assert!(compute(&[var_fn("--a")], &p).is_empty(), "two-cycle must resolve to empty");
}

#[test]
fn var_triangle_cycle_returns_empty() {
    let p = props(vec![
        ("--a", vec![var_fn("--b")]),
        ("--b", vec![var_fn("--c")]),
        ("--c", vec![var_fn("--a")]),
    ]);
    assert!(compute(&[var_fn("--a")], &p).is_empty(), "triangle-cycle must resolve to empty");
}

#[test]
fn var_normal_chain_still_resolves() {
    let p = props(vec![("--a", vec![var_fn("--b")]), ("--b", vec![ident("red")])]);
    let cvs = compute(&[var_fn("--a")], &p);
    assert_eq!(cvs.len(), 1);
    match &cvs[0] {
        ComponentValue::PreservedToken(Token::Ident(s)) => assert_eq!(s, "red"),
        other => panic!("expected Ident, got {:?}", other),
    }
}

#[test]
fn var_repeated_reference_is_not_a_cycle() {
    let p = props(vec![("--a", vec![var_fn("--b"), var_fn("--b")]), ("--b", vec![ident("red")])]);
    let cvs = compute(&[var_fn("--a")], &p);
    assert_eq!(cvs.len(), 2);
    assert_eq!(idents(&cvs).iter().filter(|s| *s == "red").count(), 2);
}

#[test]
fn var_doubling_chain_resolves_in_linear_time() {
    const N: usize = 18;
    let mut p = CustomProperties::new();
    p.insert("--v0".to_string(), vec![ident("red")]);
    for i in 1..=N {
        let prev = format!("--v{}", i - 1);
        p.insert(format!("--v{}", i), vec![var_fn(&prev), var_fn(&prev)]);
    }
    let cvs = compute(&[var_fn(&format!("--v{}", N))], &p);
    assert_eq!(cvs.len(), 1 << N, "doubling chain expands to 2^N tokens");
    let reds = cvs
        .iter()
        .filter(|c| matches!(c, ComponentValue::PreservedToken(Token::Ident(s)) if s == "red"))
        .count();
    assert_eq!(reds, 1 << N, "all tokens must be `red`");
}

#[test]
fn var_cycle_with_fallback_resolves_to_fallback() {
    let p = props(vec![("--a", vec![var_fn_fb("--b", "red")]), ("--b", vec![var_fn_fb("--a", "blue")])]);
    let cvs = compute(&[var_fn("--a")], &p);
    let ids = idents(&cvs);
    assert!(ids.iter().any(|s| s == "blue"), "expected fallback blue, got {:?}", ids);
}

#[test]
fn var_undefined_with_fallback_still_resolves() {
    let p = props(vec![]);
    let cvs = compute(&[var_fn_fb("--nope", "green")], &p);
    assert!(
        cvs.iter().any(|c| matches!(c, ComponentValue::PreservedToken(Token::Ident(s)) if s == "green")),
        "expected fallback green, got {:?}",
        cvs
    );
}

#[test]
fn compute_value_with_reports_invalid_var() {
    let p = props(vec![]);
    let bad = ComponentValue::Function(Function { name: "var".to_string(), value: vec![ident("color")] });
    let src = CustomPropertySource::flat(&p);
    assert!(substitute_vars(&[bad], &src).is_err(), "var(color) must be Err");
    let bad = ComponentValue::Function(Function { name: "var".to_string(), value: vec![ident("color")] });
    assert!(compute(&[bad], &p).is_empty());
}

#[test]
fn keyword_value_preserved() {
    let p = props(vec![]);
    let cvs = compute(&[ident("auto")], &p);
    assert_eq!(cvs.len(), 1);
    match &cvs[0] {
        ComponentValue::PreservedToken(Token::Ident(s)) => assert_eq!(s, "auto"),
        other => panic!("expected Ident, got {:?}", other),
    }
}

// ---- own checks ----

#[test]
fn var_inside_other_functions_is_substituted_but_not_inside_blocks() {
    let p = props(vec![("--w", vec![ident("thin")])]);
    let f = ComponentValue::Function(Function { name: "calc".to_string(), value: vec![var_fn("--w")] });
    let b = ComponentValue::SimpleBlock(SimpleBlock { kind: BlockKind::Paren, value: vec![var_fn("--w")] });
    let cvs = compute(&[f, b], &p);
    assert_eq!(cvs.len(), 2);
    match &cvs[0] {
        ComponentValue::Function(f) => {
            assert_eq!(f.name, "calc");
            assert_eq!(idents(&f.value), vec!["thin".to_string()]);
        }
        other => panic!("expected calc(), got {:?}", other),
    }
    match &cvs[1] {
        ComponentValue::SimpleBlock(b) => assert!(matches!(&b.value[0], ComponentValue::Function(_))),
        other => panic!("expected block, got {:?}", other),
    }
}

#[test]
fn var_name_is_case_insensitive_but_custom_names_are_not() {
    let p = props(vec![("--X", vec![ident("big")])]);
    let upper = ComponentValue::Function(Function { name: "VAR".to_string(), value: vec![ident("--X")] });
    assert_eq!(idents(&compute(&[upper], &p)), vec!["big".to_string()]);
    let src = CustomPropertySource::flat(&p);
    assert!(substitute_vars(&[var_fn("--x")], &src).is_err());
}

#[test]
fn stray_tokens_before_the_comma_make_var_invalid() {
    let p = props(vec![("--a", vec![ident("x")])]);
    let bad = ComponentValue::Function(Function {
        name: "var".to_string(),
        value: vec![ident("--a"), ident("junk"), ComponentValue::PreservedToken(Token::Comma), ident("y")],
    });
    let src = CustomPropertySource::flat(&p);
    assert!(substitute_vars(&[bad], &src).is_err());
}

#[test]
fn chained_sources_prefer_the_nearest_table() {
    let parent = props(vec![("--a", vec![ident("parent")]), ("--b", vec![ident("only-parent")])]);
    let own = props(vec![("--a", vec![ident("own")])]);
    let root = CustomPropertySource::flat(&parent);
    let src = CustomPropertySource::chain(&own, Some(&root));
    let out = substitute_vars(&[var_fn("--a"), var_fn("--b")], &src).unwrap();
    assert_eq!(idents(&out), vec!["own".to_string(), "only-parent".to_string()]);
    assert!(src.get("--zzz").is_none());
}

#[test]
fn numbers_pass_through_unchanged() {
    let p = props(vec![]);
    let n = ComponentValue::PreservedToken(Token::Dimension(
        Numeric { bits: 2.5f64.to_bits(), is_integer: false },
        "em".to_string(),
    ));
    let cvs = compute(&[n], &p);
    match &cvs[0] {
        ComponentValue::PreservedToken(Token::Dimension(n, u)) => {
            assert_eq!(f64::from_bits(n.bits), 2.5);
            assert_eq!(u, "em");
        }
        other => panic!("expected Dimension, got {:?}", other),
    }
}
