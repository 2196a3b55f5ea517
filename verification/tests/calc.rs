use muskitty_cascade::calc::{parse_calc, CalcKind, CalcTerm};
use muskitty_cascade::token::{BlockKind, ComponentValue, Function, Numeric, SimpleBlock, Token};

fn n(v: f64) -> Numeric {
    Numeric { bits: v.to_bits(), is_integer: false }
}

fn dim(v: f64, unit: &str) -> ComponentValue {
    ComponentValue::PreservedToken(Token::Dimension(n(v), unit.to_string()))
}

fn num(v: f64) -> ComponentValue {
    ComponentValue::PreservedToken(Token::Number(n(v)))
}

fn pct(v: f64) -> ComponentValue {
    ComponentValue::PreservedToken(Token::Percentage(n(v)))
}

fn delim(c: char) -> ComponentValue {
    ComponentValue::PreservedToken(Token::Delim(c))
}

fn ws() -> ComponentValue {
    ComponentValue::PreservedToken(Token::Whitespace)
}

fn paren(args: Vec<ComponentValue>) -> ComponentValue {
    ComponentValue::SimpleBlock(SimpleBlock { kind: BlockKind::Paren, value: args })
}

fn calc_fn(args: Vec<ComponentValue>) -> ComponentValue {
    ComponentValue::Function(Function { name: "calc".to_string(), value: args })
}

/// Evaluates a parsed tree the way the pipeline does.
fn eval(t: &CalcTerm) -> Option<f64> {
    match t {
        CalcTerm::Number(x) | CalcTerm::Dimension(x, _) | CalcTerm::Percentage(x) => Some(f64::from_bits(x.bits)),
        CalcTerm::Add(a, b) => Some(eval(a)? + eval(b)?),
        CalcTerm::Sub(a, b) => Some(eval(a)? - eval(b)?),
        CalcTerm::Mul(a, b) => Some(eval(a)? * eval(b)?),
        CalcTerm::Div(a, b) => {
            let (x, y) = (eval(a)?, eval(b)?);
            if y != 0.0 {
                Some(x / y)
            } else {
                None
            }
        }
    }
}

fn unit_of(k: &CalcKind) -> &str {
    match k {
        CalcKind::Number => "number",
        CalcKind::Dimension(u) => u,
        CalcKind::Percentage => "%",
    }
}

fn value(args: Vec<ComponentValue>) -> Option<(f64, String)> {
    let (t, k) = parse_calc(&args)?;
    Some((eval(&t)?, unit_of(&k).to_string()))
}

#[test]
fn calc_sums_and_differences_of_one_unit() {
    assert_eq!(value(vec![dim(10.0, "px"), ws(), delim('+'), ws(), dim(5.0, "px")]), Some((15.0, "px".into())));
    assert_eq!(value(vec![dim(10.0, "px"), ws(), delim('-'), ws(), dim(5.0, "PX")]), Some((5.0, "px".into())));
    assert_eq!(value(vec![num(10.0), delim('+'), num(5.0)]), Some((15.0, "number".into())));
    assert_eq!(value(vec![pct(50.0), delim('+'), pct(25.0)]), Some((75.0, "%".into())));
}

#[test]
fn calc_products_take_a_number_operand() {
    assert_eq!(value(vec![num(2.0), ws(), delim('*'), ws(), dim(3.0, "px")]), Some((6.0, "px".into())));
    assert_eq!(value(vec![dim(3.0, "px"), delim('*'), num(2.0)]), Some((6.0, "px".into())));
    assert_eq!(value(vec![dim(10.0, "px"), delim('/'), num(2.0)]), Some((5.0, "px".into())));
    // number / dimension is not a type calc() has.
    assert!(parse_calc(&[num(2.0), delim('/'), dim(3.0, "px")]).is_none());
    assert!(parse_calc(&[dim(10.0, "px"), delim('*'), dim(2.0, "px")]).is_none());
}

#[test]
fn calc_precedence_and_grouping() {
    let e = vec![dim(10.0, "px"), ws(), delim('+'), ws(), dim(5.0, "px"), ws(), delim('*'), ws(), num(2.0)];
    assert_eq!(value(e), Some((20.0, "px".into())));
    let g = paren(vec![dim(10.0, "px"), ws(), delim('+'), ws(), dim(5.0, "px")]);
    assert_eq!(value(vec![g, ws(), delim('*'), ws(), num(2.0)]), Some((30.0, "px".into())));
    let nested = calc_fn(vec![num(1.0), delim('+'), num(2.0)]);
    assert_eq!(value(vec![nested, delim('*'), dim(2.0, "em")]), Some((6.0, "em".into())));
    // Left associativity: 10 - 4 - 3 = 3, 24 / 4 / 2 = 3.
    assert_eq!(value(vec![num(10.0), delim('-'), num(4.0), delim('-'), num(3.0)]), Some((3.0, "number".into())));
    assert_eq!(value(vec![num(24.0), delim('/'), num(4.0), delim('/'), num(2.0)]), Some((3.0, "number".into())));
}

#[test]
fn calc_rejects_mixed_types_and_bad_syntax() {
    assert!(parse_calc(&[pct(100.0), ws(), delim('-'), ws(), dim(10.0, "px")]).is_none());
    assert!(parse_calc(&[dim(10.0, "px"), ws(), delim('+'), ws(), num(5.0)]).is_none());
    assert!(parse_calc(&[dim(10.0, "px"), ws(), dim(5.0, "px")]).is_none());
    assert!(parse_calc(&[dim(10.0, "px"), delim('+')]).is_none());
    assert!(parse_calc(&[delim('+'), dim(10.0, "px")]).is_none());
    assert!(parse_calc(&[]).is_none());
    assert!(parse_calc(&[paren(vec![])]).is_none());
    assert!(parse_calc(&[dim(1.0, "px"), delim('%'), dim(1.0, "px")]).is_none());
}

#[test]
fn calc_division_by_zero_parses_but_does_not_evaluate() {
    let (t, k) = parse_calc(&[dim(10.0, "px"), ws(), delim('/'), ws(), num(0.0)]).unwrap();
    assert_eq!(unit_of(&k), "px");
    assert_eq!(eval(&t), None);
}
