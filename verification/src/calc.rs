//! `calc()`: the grammar of a sum of products of
//! numbers, dimensions, percentages, parenthesised sums and nested
//! `calc()`s, with the type rules of its operators.
//!
//! Parsing yields a typed expression tree, or nothing when the arguments
//! are not such an expression or an operator is applied to incompatible
//! types. Whitespace between the parts is insignificant.
use vstd::prelude::*;
use crate::media::{lemma_strip_ws_size, strip_ws, strip_ws_vec};
use crate::strutil::{eq_ascii_ci, eq_ignore_ascii_case};
use crate::token::{
    cv_size, cvs_view, lemma_cvs_view_index, lemma_cvs_view_len, lemma_cvs_view_subrange, lemma_size_elem,
    lemma_size_split, lemma_sizes_pos, lemma_suffix_smaller, seq_size, BlockKind, ComponentValue, CvView, Numeric,
    Token, TokenView,
};

verus! {

/// The type of a `calc()` expression.
#[derive(Debug)]
pub enum CalcKind {
    /// A plain number.
    Number,
    /// A dimension in the given unit.
    Dimension(String),
    /// A percentage.
    Percentage,
}

/// A `calc()` expression tree.
#[derive(Debug)]
pub enum CalcTerm {
    /// A number.
    Number(Numeric),
    /// A dimension: number and unit.
    Dimension(Numeric, String),
    /// A percentage.
    Percentage(Numeric),
    /// `a + b`.
    Add(Box<CalcTerm>, Box<CalcTerm>),
    /// `a - b`.
    Sub(Box<CalcTerm>, Box<CalcTerm>),
    /// `a * b`.
    Mul(Box<CalcTerm>, Box<CalcTerm>),
    /// `a / b`.
    Div(Box<CalcTerm>, Box<CalcTerm>),
}

/// View of a type: units as character sequences.
pub enum KindView {
    Number,
    Dimension(Seq<char>),
    Percentage,
}

/// View of an expression tree.
pub enum TermView {
    Number(Numeric),
    Dimension(Numeric, Seq<char>),
    Percentage(Numeric),
    Add(Box<TermView>, Box<TermView>),
    Sub(Box<TermView>, Box<TermView>),
    Mul(Box<TermView>, Box<TermView>),
    Div(Box<TermView>, Box<TermView>),
}

impl View for CalcKind {
    type V = KindView;

    open spec fn view(&self) -> KindView {
        match self {
            CalcKind::Number => KindView::Number,
            CalcKind::Dimension(u) => KindView::Dimension(u@),
            CalcKind::Percentage => KindView::Percentage,
        }
    }
}

/// View of an expression tree.
pub open spec fn term_view(t: CalcTerm) -> TermView
    decreases t,
{
    match t {
        CalcTerm::Number(n) => TermView::Number(n),
        CalcTerm::Dimension(n, u) => TermView::Dimension(n, u@),
        CalcTerm::Percentage(n) => TermView::Percentage(n),
        CalcTerm::Add(a, b) => TermView::Add(Box::new(term_view(*a)), Box::new(term_view(*b))),
        CalcTerm::Sub(a, b) => TermView::Sub(Box::new(term_view(*a)), Box::new(term_view(*b))),
        CalcTerm::Mul(a, b) => TermView::Mul(Box::new(term_view(*a)), Box::new(term_view(*b))),
        CalcTerm::Div(a, b) => TermView::Div(Box::new(term_view(*a)), Box::new(term_view(*b))),
    }
}

impl View for CalcTerm {
    type V = TermView;

    open spec fn view(&self) -> TermView {
        term_view(*self)
    }
}

// ── type rules ───────────────────────────────────────────────────────────

/// `+` and `-`: both sides of one type (dimensions in units equal up to
/// ASCII case, the left unit kept).
pub open spec fn add_kind(a: KindView, b: KindView) -> Option<KindView> {
    match (a, b) {
        (KindView::Number, KindView::Number) => Some(KindView::Number),
        (KindView::Dimension(u), KindView::Dimension(v)) => if eq_ascii_ci(u, v) {
            Some(KindView::Dimension(u))
        } else {
            None
        },
        (KindView::Percentage, KindView::Percentage) => Some(KindView::Percentage),
        _ => None,
    }
}

/// `*` and `/`: the right side a number; for `*` also a number on the left
/// with anything on the right.
pub open spec fn mul_kind(a: KindView, b: KindView, is_mul: bool) -> Option<KindView> {
    match (a, b) {
        (KindView::Number, KindView::Number) => Some(KindView::Number),
        (KindView::Dimension(u), KindView::Number) => Some(KindView::Dimension(u)),
        (KindView::Percentage, KindView::Number) => Some(KindView::Percentage),
        (KindView::Number, KindView::Dimension(u)) => if is_mul {
            Some(KindView::Dimension(u))
        } else {
            None
        },
        (KindView::Number, KindView::Percentage) => if is_mul {
            Some(KindView::Percentage)
        } else {
            None
        },
        _ => None,
    }
}

// ── the grammar over whitespace-free values ──────────────────────────────

/// `+` or `-`.
pub open spec fn is_additive(c: CvView) -> bool {
    c == CvView::Tok(TokenView::Delim('+')) || c == CvView::Tok(TokenView::Delim('-'))
}

/// `*` or `/`.
pub open spec fn is_multiplicative(c: CvView) -> bool {
    c == CvView::Tok(TokenView::Delim('*')) || c == CvView::Tok(TokenView::Delim('/'))
}

/// The last operator position (odd index, at most `i`) holding `+` or `-`;
/// `-1` when there is none.
pub open spec fn last_additive(t: Seq<CvView>, i: int) -> int
    decreases i,
{
    if i < 1 {
        -1
    } else if i % 2 == 1 && is_additive(t[i]) {
        i
    } else {
        last_additive(t, i - 1)
    }
}

/// `<calc-sum>`: products joined by `+`/`-`, left-associative.
pub open spec fn calc_sum(t: Seq<CvView>) -> Option<(TermView, KindView)>
    decreases seq_size(t), 2nat,
{
    let k = last_additive(t, t.len() - 1);
    if k < 1 || k >= t.len() {
        calc_product(t)
    } else {
        proof {
            lemma_size_split(t, k);
            lemma_sizes_pos(t.subrange(k, t.len() as int));
            lemma_suffix_smaller(t, k + 1);
        }
        match calc_sum(t.take(k)) {
            Some(a) => match calc_product(t.subrange(k + 1, t.len() as int)) {
                Some(b) => match add_kind(a.1, b.1) {
                    Some(kind) => Some((
                        if t[k] == CvView::Tok(TokenView::Delim('+')) {
                            TermView::Add(Box::new(a.0), Box::new(b.0))
                        } else {
                            TermView::Sub(Box::new(a.0), Box::new(b.0))
                        },
                        kind,
                    )),
                    None => None,
                },
                None => None,
            },
            None => None,
        }
    }
}

/// `<calc-product>`: values joined by `*`/`/`, left-associative.
pub open spec fn calc_product(t: Seq<CvView>) -> Option<(TermView, KindView)>
    decreases seq_size(t), 1nat,
{
    if t.len() == 1 {
        proof {
            lemma_size_elem(t, 0);
        }
        calc_value(t[0])
    } else if t.len() >= 3 && is_multiplicative(t[t.len() - 2]) {
        proof {
            lemma_size_elem(t, t.len() - 1);
            lemma_size_split(t, t.len() - 2);
            lemma_sizes_pos(t.subrange(t.len() - 2, t.len() as int));
        }
        let is_mul = t[t.len() - 2] == CvView::Tok(TokenView::Delim('*'));
        match calc_product(t.take(t.len() - 2)) {
            Some(a) => match calc_value(t[t.len() - 1]) {
                Some(b) => match mul_kind(a.1, b.1, is_mul) {
                    Some(kind) => Some((
                        if is_mul {
                            TermView::Mul(Box::new(a.0), Box::new(b.0))
                        } else {
                            TermView::Div(Box::new(a.0), Box::new(b.0))
                        },
                        kind,
                    )),
                    None => None,
                },
                None => None,
            },
            None => None,
        }
    } else {
        None
    }
}

/// `<calc-value>`: a number, dimension or percentage, or a parenthesised
/// sum, or a nested `calc()`.
pub open spec fn calc_value(c: CvView) -> Option<(TermView, KindView)>
    decreases cv_size(c), 0nat,
{
    match c {
        CvView::Tok(TokenView::Number(n)) => Some((TermView::Number(n), KindView::Number)),
        CvView::Tok(TokenView::Dimension(n, u)) => Some((TermView::Dimension(n, u), KindView::Dimension(u))),
        CvView::Tok(TokenView::Percentage(n)) => Some((TermView::Percentage(n), KindView::Percentage)),
        CvView::Block(k, body) => if k == BlockKind::Paren {
            proof {
                lemma_strip_ws_size(body);
            }
            calc_sum(strip_ws(body))
        } else {
            None
        },
        CvView::Func(name, args) => if eq_ascii_ci(name, "calc"@) {
            proof {
                lemma_strip_ws_size(args);
            }
            calc_sum(strip_ws(args))
        } else {
            None
        },
        _ => None,
    }
}

/// The `calc()` arguments as a typed expression, if they are one.
pub open spec fn calc_expression(args: Seq<CvView>) -> Option<(TermView, KindView)> {
    calc_sum(strip_ws(args))
}

// ── executable parser ────────────────────────────────────────────────────

/// View of a parse result.
pub open spec fn parsed_view(r: Option<(CalcTerm, CalcKind)>) -> Option<(TermView, KindView)> {
    match r {
        Some(p) => Some((p.0@, p.1@)),
        None => None,
    }
}

fn delim_is(c: &ComponentValue, d: char) -> (r: bool)
    ensures
        r == (c@ == CvView::Tok(TokenView::Delim(d))),
{
    match c {
        ComponentValue::PreservedToken(Token::Delim(x)) => *x == d,
        _ => false,
    }
}

fn add_kind_of(a: CalcKind, b: CalcKind) -> (r: Option<CalcKind>)
    ensures
        match r {
            Some(k) => add_kind(a@, b@) == Some(k@),
            None => add_kind(a@, b@) is None,
        },
{
    match (a, b) {
        (CalcKind::Number, CalcKind::Number) => Some(CalcKind::Number),
        (CalcKind::Dimension(u), CalcKind::Dimension(v)) => {
            if eq_ignore_ascii_case(u.as_str(), v.as_str()) {
                Some(CalcKind::Dimension(u))
            } else {
                None
            }
        },
        (CalcKind::Percentage, CalcKind::Percentage) => Some(CalcKind::Percentage),
        _ => None,
    }
}

fn mul_kind_of(a: CalcKind, b: CalcKind, is_mul: bool) -> (r: Option<CalcKind>)
    ensures
        match r {
            Some(k) => mul_kind(a@, b@, is_mul) == Some(k@),
            None => mul_kind(a@, b@, is_mul) is None,
        },
{
    match (a, b) {
        (CalcKind::Number, CalcKind::Number) => Some(CalcKind::Number),
        (CalcKind::Dimension(u), CalcKind::Number) => Some(CalcKind::Dimension(u)),
        (CalcKind::Percentage, CalcKind::Number) => Some(CalcKind::Percentage),
        (CalcKind::Number, CalcKind::Dimension(u)) => if is_mul {
            Some(CalcKind::Dimension(u))
        } else {
            None
        },
        (CalcKind::Number, CalcKind::Percentage) => if is_mul {
            Some(CalcKind::Percentage)
        } else {
            None
        },
        _ => None,
    }
}

fn last_additive_of(t: &[ComponentValue]) -> (r: usize)
    ensures
        r == 0 ==> last_additive(cvs_view(t@), t@.len() - 1) < 1,
        r > 0 ==> r < t@.len() && r as int == last_additive(cvs_view(t@), t@.len() - 1),
{
    let ghost tv = cvs_view(t@);
    proof {
        lemma_cvs_view_len(t@);
    }
    let mut i: usize = t.len();
    while i > 1
        invariant
            i <= t@.len(),
            tv == cvs_view(t@),
            tv.len() == t@.len(),
            last_additive(tv, tv.len() - 1) == last_additive(tv, i - 1),
        decreases i,
    {
        let j = i - 1;
        proof {
            lemma_cvs_view_index(t@, j as int);
        }
        if j % 2 == 1 && (delim_is(&t[j], '+') || delim_is(&t[j], '-')) {
            return j;
        }
        i = j;
    }
    0
}

fn calc_sum_of(t: &[ComponentValue]) -> (r: Option<(CalcTerm, CalcKind)>)
    ensures
        parsed_view(r) == calc_sum(cvs_view(t@)),
    decreases seq_size(cvs_view(t@)), 2nat,
{
    let ghost tv = cvs_view(t@);
    proof {
        lemma_cvs_view_len(t@);
    }
    let k = last_additive_of(t);
    if k == 0 {
        return calc_product_of(t);
    }
    let n = t.len();
    assert(k < n);
    proof {
        lemma_size_split(tv, k as int);
        lemma_sizes_pos(tv.subrange(k as int, tv.len() as int));
        lemma_suffix_smaller(tv, k + 1);
        lemma_cvs_view_subrange(t@, 0, k as int);
        lemma_cvs_view_subrange(t@, k + 1, t@.len() as int);
        lemma_cvs_view_index(t@, k as int);
        assert(tv.subrange(0, k as int) =~= tv.take(k as int));
    }
    let left = vstd::slice::slice_subrange(t, 0, k);
    let right = vstd::slice::slice_subrange(t, k + 1, n);
    match calc_sum_of(left) {
        Some(a) => match calc_product_of(right) {
            Some(b) => match add_kind_of(a.1, b.1) {
                Some(kind) => {
                    let term = if delim_is(&t[k], '+') {
                        CalcTerm::Add(Box::new(a.0), Box::new(b.0))
                    } else {
                        CalcTerm::Sub(Box::new(a.0), Box::new(b.0))
                    };
                    Some((term, kind))
                },
                None => None,
            },
            None => None,
        },
        None => None,
    }
}

fn calc_product_of(t: &[ComponentValue]) -> (r: Option<(CalcTerm, CalcKind)>)
    ensures
        parsed_view(r) == calc_product(cvs_view(t@)),
    decreases seq_size(cvs_view(t@)), 1nat,
{
    let ghost tv = cvs_view(t@);
    proof {
        lemma_cvs_view_len(t@);
    }
    let n = t.len();
    if n == 1 {
        proof {
            lemma_cvs_view_index(t@, 0);
            lemma_size_elem(tv, 0);
        }
        return calc_value_of(&t[0]);
    }
    if n < 3 {
        return None;
    }
    proof {
        lemma_cvs_view_index(t@, n - 2);
        lemma_cvs_view_index(t@, n - 1);
    }
    let is_mul = delim_is(&t[n - 2], '*');
    if !is_mul && !delim_is(&t[n - 2], '/') {
        return None;
    }
    proof {
        lemma_size_elem(tv, n - 1);
        lemma_size_split(tv, n - 2);
        lemma_sizes_pos(tv.subrange(n - 2, n as int));
        lemma_cvs_view_subrange(t@, 0, n - 2);
        assert(tv.subrange(0, n - 2) =~= tv.take(n - 2));
    }
    let left = vstd::slice::slice_subrange(t, 0, n - 2);
    match calc_product_of(left) {
        Some(a) => match calc_value_of(&t[n - 1]) {
            Some(b) => match mul_kind_of(a.1, b.1, is_mul) {
                Some(kind) => {
                    let term = if is_mul {
                        CalcTerm::Mul(Box::new(a.0), Box::new(b.0))
                    } else {
                        CalcTerm::Div(Box::new(a.0), Box::new(b.0))
                    };
                    Some((term, kind))
                },
                None => None,
            },
            None => None,
        },
        None => None,
    }
}

fn calc_value_of(c: &ComponentValue) -> (r: Option<(CalcTerm, CalcKind)>)
    ensures
        parsed_view(r) == calc_value(c@),
    decreases cv_size(c@), 0nat,
{
    match c {
        ComponentValue::PreservedToken(Token::Number(n)) => Some((CalcTerm::Number(*n), CalcKind::Number)),
        ComponentValue::PreservedToken(Token::Dimension(n, u)) => {
            Some((CalcTerm::Dimension(*n, u.clone()), CalcKind::Dimension(u.clone())))
        },
        ComponentValue::PreservedToken(Token::Percentage(n)) => Some((CalcTerm::Percentage(*n), CalcKind::Percentage)),
        ComponentValue::SimpleBlock(b) => {
            if b.kind == BlockKind::Paren {
                let inner = strip_ws_vec(b.value.as_slice());
                proof {
                    lemma_strip_ws_size(cvs_view(b.value@));
                }
                calc_sum_of(inner.as_slice())
            } else {
                None
            }
        },
        ComponentValue::Function(f) => {
            if eq_ignore_ascii_case(f.name.as_str(), "calc") {
                let inner = strip_ws_vec(f.value.as_slice());
                proof {
                    lemma_strip_ws_size(cvs_view(f.value@));
                }
                calc_sum_of(inner.as_slice())
            } else {
                None
            }
        },
        _ => None,
    }
}

/// Parses `calc()` arguments into a typed expression tree: `None` when
/// they are not a sum of products of values, or when an operator is
/// applied to incompatible types (see [`add_kind`] and [`mul_kind`]).
pub fn parse_calc(args: &[ComponentValue]) -> (r: Option<(CalcTerm, CalcKind)>)
    ensures
        parsed_view(r) == calc_expression(cvs_view(args@)),
{
    let t = strip_ws_vec(args);
    calc_sum_of(t.as_slice())
}

} // verus!
