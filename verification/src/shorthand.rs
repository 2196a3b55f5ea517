//! Shorthand properties of boxes and lines, and the computed value of line
//! widths.
//!
//! Box shorthands (`border-width`, `border-style`, `border-color`) take
//! one to four values for the top, right, bottom and left sides. Line shorthands (`border`, `border-top`, `border-right`,
//! `border-bottom`, `border-left`, `outline`) take a width, a style and a
//! color in any order, each at most once; an omitted one is reset to its
//! initial value. A single CSS-wide keyword sets every longhand. A value
//! that fits neither form is invalid and sets nothing.
use vstd::prelude::*;
use vstd::arithmetic::power2::{lemma2_to64_rest, pow2};
use crate::media::{f64_exponent, f64_significand, strip_ws, strip_ws_vec, zero_bits};
use crate::style::ComputedValue;
use crate::strutil::{ascii_lower, eq_ascii_ci, eq_ignore_ascii_case, owned, str_eq};
use crate::token::{clone_cv, cvs_view, lemma_cvs_view_index, lemma_cvs_view_len, lemma_cvs_view_push, ComponentValue, CvView, Numeric, Token, TokenView};

verus! {

// ── which shorthands there are ───────────────────────────────────────────

/// The longhands of a box shorthand, top, right, bottom, left (empty for
/// any other name).
pub open spec fn box_longhands(s: Seq<char>) -> Seq<Seq<char>> {
    if s == "border-width"@ {
        seq!["border-top-width"@, "border-right-width"@, "border-bottom-width"@, "border-left-width"@]
    } else if s == "border-style"@ {
        seq!["border-top-style"@, "border-right-style"@, "border-bottom-style"@, "border-left-style"@]
    } else if s == "border-color"@ {
        seq!["border-top-color"@, "border-right-color"@, "border-bottom-color"@, "border-left-color"@]
    } else {
        seq![]
    }
}

/// The (width, style, color) longhands a line shorthand sets, one triple
/// per side (empty for any other name).
pub open spec fn line_targets(s: Seq<char>) -> Seq<(Seq<char>, Seq<char>, Seq<char>)> {
    if s == "border"@ {
        seq![
            ("border-top-width"@, "border-top-style"@, "border-top-color"@),
            ("border-right-width"@, "border-right-style"@, "border-right-color"@),
            ("border-bottom-width"@, "border-bottom-style"@, "border-bottom-color"@),
            ("border-left-width"@, "border-left-style"@, "border-left-color"@),
        ]
    } else if s == "border-top"@ {
        seq![("border-top-width"@, "border-top-style"@, "border-top-color"@)]
    } else if s == "border-right"@ {
        seq![("border-right-width"@, "border-right-style"@, "border-right-color"@)]
    } else if s == "border-bottom"@ {
        seq![("border-bottom-width"@, "border-bottom-style"@, "border-bottom-color"@)]
    } else if s == "border-left"@ {
        seq![("border-left-width"@, "border-left-style"@, "border-left-color"@)]
    } else if s == "outline"@ {
        seq![("outline-width"@, "outline-style"@, "outline-color"@)]
    } else {
        seq![]
    }
}

// ── the values ───────────────────────────────────────────────────────────

/// `initial`, `inherit`, `unset`, `revert` or `revert-layer`.
pub open spec fn is_wide_keyword(c: CvView) -> bool {
    match c {
        CvView::Tok(TokenView::Ident(x)) => eq_ascii_ci(x, "initial"@) || eq_ascii_ci(x, "inherit"@) || eq_ascii_ci(x, "unset"@)
            || eq_ascii_ci(x, "revert"@) || eq_ascii_ci(x, "revert-layer"@),
        _ => false,
    }
}

/// Some value of the list is a CSS-wide keyword.
pub open spec fn has_wide_keyword(p: Seq<CvView>) -> bool {
    exists|i: int| 0 <= i < p.len() && #[trigger] is_wide_keyword(p[i])
}

/// A line width: `thin`, `medium`, `thick`, a dimension, zero, or a
/// `calc()`, `min()`, `max()` or `clamp()` expression.
pub open spec fn is_line_width(c: CvView) -> bool {
    match c {
        CvView::Tok(TokenView::Ident(x)) => eq_ascii_ci(x, "thin"@) || eq_ascii_ci(x, "medium"@) || eq_ascii_ci(x, "thick"@),
        CvView::Tok(TokenView::Dimension(_, _)) => true,
        CvView::Tok(TokenView::Number(n)) => f64_significand(n.bits) == 0,
        CvView::Func(f, _) => eq_ascii_ci(f, "calc"@) || eq_ascii_ci(f, "min"@) || eq_ascii_ci(f, "max"@) || eq_ascii_ci(f, "clamp"@),
        _ => false,
    }
}

/// A line style keyword.
pub open spec fn is_line_style(c: CvView) -> bool {
    match c {
        CvView::Tok(TokenView::Ident(x)) => eq_ascii_ci(x, "none"@) || eq_ascii_ci(x, "hidden"@) || eq_ascii_ci(x, "dotted"@)
            || eq_ascii_ci(x, "dashed"@) || eq_ascii_ci(x, "solid"@) || eq_ascii_ci(x, "double"@) || eq_ascii_ci(x, "groove"@)
            || eq_ascii_ci(x, "ridge"@) || eq_ascii_ci(x, "inset"@) || eq_ascii_ci(x, "outset"@),
        _ => false,
    }
}

/// The four side values of a box shorthand from its one to four values.
pub open spec fn box_four(p: Seq<CvView>) -> Option<Seq<CvView>> {
    if p.len() == 1 {
        Some(seq![p[0], p[0], p[0], p[0]])
    } else if p.len() == 2 {
        Some(seq![p[0], p[1], p[0], p[1]])
    } else if p.len() == 3 {
        Some(seq![p[0], p[1], p[2], p[1]])
    } else if p.len() == 4 {
        Some(p)
    } else {
        None
    }
}

/// Width, style and color found so far in a line shorthand.
pub type LineSlots = (Option<CvView>, Option<CvView>, Option<CvView>);

/// Sorting the values of a line shorthand into width, style and color;
/// `None` when a kind comes twice or a CSS-wide keyword is mixed in.
pub open spec fn line_slots(p: Seq<CvView>) -> Option<LineSlots>
    decreases p.len(),
{
    if p.len() == 0 {
        Some((None, None, None))
    } else {
        match line_slots(p.drop_last()) {
            None => None,
            Some(s) => {
                let c = p.last();
                if is_wide_keyword(c) {
                    None
                } else if is_line_width(c) {
                    if s.0 is None { Some((Some(c), s.1, s.2)) } else { None }
                } else if is_line_style(c) {
                    if s.1 is None { Some((s.0, Some(c), s.2)) } else { None }
                } else {
                    if s.2 is None { Some((s.0, s.1, Some(c))) } else { None }
                }
            },
        }
    }
}

/// The keyword `initial`.
pub open spec fn initial_keyword() -> CvView {
    CvView::Tok(TokenView::Ident("initial"@))
}

/// The value a line shorthand gives one longhand: the value found, or
/// `initial` when it was omitted.
pub open spec fn slot_value(o: Option<CvView>) -> Seq<CvView> {
    match o {
        Some(c) => seq![c],
        None => seq![initial_keyword()],
    }
}

/// Width, style and color values of a line shorthand.
pub open spec fn line_values(p: Seq<CvView>) -> Option<(Seq<CvView>, Seq<CvView>, Seq<CvView>)> {
    if p.len() == 1 && is_wide_keyword(p[0]) {
        Some((p, p, p))
    } else if p.len() == 0 {
        None
    } else {
        match line_slots(p) {
            Some(s) => Some((slot_value(s.0), slot_value(s.1), slot_value(s.2))),
            None => None,
        }
    }
}

/// For each side, its width, style and color longhands with the values.
pub open spec fn line_entries(targets: Seq<(Seq<char>, Seq<char>, Seq<char>)>, t: (Seq<CvView>, Seq<CvView>, Seq<CvView>)) -> Seq<(Seq<char>, Seq<CvView>)>
    decreases targets.len(),
{
    if targets.len() == 0 {
        seq![]
    } else {
        let l = targets.last();
        line_entries(targets.drop_last(), t) + seq![(l.0, t.0), (l.1, t.1), (l.2, t.2)]
    }
}

/// The longhand declarations of a shorthand (`s` in lower case, `v` its
/// value): `None` when `s` is not a shorthand; an empty list when the
/// value is invalid.
pub open spec fn shorthand_entries(s: Seq<char>, v: Seq<CvView>) -> Option<Seq<(Seq<char>, Seq<CvView>)>> {
    let p = strip_ws(v);
    let names = box_longhands(s);
    let targets = line_targets(s);
    if names.len() == 4 {
        Some(
            match box_four(p) {
                Some(f) => if p.len() > 1 && has_wide_keyword(p) {
                    seq![]
                } else {
                    Seq::new(4, |i: int| (names[i], seq![f[i]]))
                },
                None => seq![],
            },
        )
    } else if targets.len() > 0 {
        Some(
            match line_values(p) {
                Some(t) => line_entries(targets, t),
                None => seq![],
            },
        )
    } else {
        None
    }
}

// ── executable expansion ─────────────────────────────────────────────────

/// Views of longhand declarations.
pub open spec fn entry_views(es: Seq<(String, Vec<ComponentValue>)>) -> Seq<(Seq<char>, Seq<CvView>)> {
    Seq::new(es.len(), |i: int| (es[i].0@, cvs_view(es[i].1@)))
}

fn box_longhands_of(s: &str) -> (r: Vec<&'static str>)
    ensures
        r@.len() == box_longhands(s@).len(),
        forall|i: int| 0 <= i < r@.len() ==> (#[trigger] r@[i])@ == box_longhands(s@)[i],
{
    if str_eq(s, "border-width") {
        vec!["border-top-width", "border-right-width", "border-bottom-width", "border-left-width"]
    } else if str_eq(s, "border-style") {
        vec!["border-top-style", "border-right-style", "border-bottom-style", "border-left-style"]
    } else if str_eq(s, "border-color") {
        vec!["border-top-color", "border-right-color", "border-bottom-color", "border-left-color"]
    } else {
        Vec::new()
    }
}

fn line_targets_of(s: &str) -> (r: Vec<(&'static str, &'static str, &'static str)>)
    ensures
        r@.len() == line_targets(s@).len(),
        forall|i: int| 0 <= i < r@.len() ==> ((#[trigger] r@[i]).0@, r@[i].1@, r@[i].2@) == line_targets(s@)[i],
{
    if str_eq(s, "border") {
        vec![
            ("border-top-width", "border-top-style", "border-top-color"),
            ("border-right-width", "border-right-style", "border-right-color"),
            ("border-bottom-width", "border-bottom-style", "border-bottom-color"),
            ("border-left-width", "border-left-style", "border-left-color"),
        ]
    } else if str_eq(s, "border-top") {
        vec![("border-top-width", "border-top-style", "border-top-color")]
    } else if str_eq(s, "border-right") {
        vec![("border-right-width", "border-right-style", "border-right-color")]
    } else if str_eq(s, "border-bottom") {
        vec![("border-bottom-width", "border-bottom-style", "border-bottom-color")]
    } else if str_eq(s, "border-left") {
        vec![("border-left-width", "border-left-style", "border-left-color")]
    } else if str_eq(s, "outline") {
        vec![("outline-width", "outline-style", "outline-color")]
    } else {
        Vec::new()
    }
}

fn ident_in(c: &ComponentValue, words: &[&str]) -> (r: bool)
    ensures
        r == (c@ matches CvView::Tok(TokenView::Ident(x)) && exists|i: int| 0 <= i < words@.len() && eq_ascii_ci(x, (#[trigger] words@[i])@)),
{
    match c {
        ComponentValue::PreservedToken(Token::Ident(x)) => {
            let mut i: usize = 0;
            while i < words.len()
                invariant
                    i <= words@.len(),
                    c@ == CvView::Tok(TokenView::Ident(x@)),
                    forall|j: int| 0 <= j < i ==> !eq_ascii_ci(x@, (#[trigger] words@[j])@),
                decreases words.len() - i,
            {
                if eq_ignore_ascii_case(x.as_str(), words[i]) {
                    assert(eq_ascii_ci(x@, words@[i as int]@));
                    return true;
                }
                i += 1;
            }
            false
        },
        _ => false,
    }
}

fn is_wide_keyword_of(c: &ComponentValue) -> (r: bool)
    ensures
        r == is_wide_keyword(c@),
{
    let words: [&str; 5] = ["initial", "inherit", "unset", "revert", "revert-layer"];
    let r = ident_in(c, &words);
    proof {
        assert(words@ == seq!["initial", "inherit", "unset", "revert", "revert-layer"]);
        if let CvView::Tok(TokenView::Ident(x)) = c@ {
            if is_wide_keyword(c@) {
                if eq_ascii_ci(x, "initial"@) { assert(eq_ascii_ci(x, words@[0]@)); }
                else if eq_ascii_ci(x, "inherit"@) { assert(eq_ascii_ci(x, words@[1]@)); }
                else if eq_ascii_ci(x, "unset"@) { assert(eq_ascii_ci(x, words@[2]@)); }
                else if eq_ascii_ci(x, "revert"@) { assert(eq_ascii_ci(x, words@[3]@)); }
                else { assert(eq_ascii_ci(x, words@[4]@)); }
            }
        }
    }
    r
}

fn is_line_width_of(c: &ComponentValue) -> (r: bool)
    ensures
        r == is_line_width(c@),
{
    match c {
        ComponentValue::PreservedToken(Token::Ident(x)) => {
            eq_ignore_ascii_case(x.as_str(), "thin") || eq_ignore_ascii_case(x.as_str(), "medium") || eq_ignore_ascii_case(x.as_str(), "thick")
        },
        ComponentValue::PreservedToken(Token::Dimension(_, _)) => true,
        ComponentValue::PreservedToken(Token::Number(n)) => zero_bits(n.bits),
        ComponentValue::Function(f) => {
            eq_ignore_ascii_case(f.name.as_str(), "calc") || eq_ignore_ascii_case(f.name.as_str(), "min")
                || eq_ignore_ascii_case(f.name.as_str(), "max") || eq_ignore_ascii_case(f.name.as_str(), "clamp")
        },
        _ => false,
    }
}

fn is_line_style_of(c: &ComponentValue) -> (r: bool)
    ensures
        r == is_line_style(c@),
{
    let words: [&str; 10] = ["none", "hidden", "dotted", "dashed", "solid", "double", "groove", "ridge", "inset", "outset"];
    let r = ident_in(c, &words);
    proof {
        assert(words@ == seq!["none", "hidden", "dotted", "dashed", "solid", "double", "groove", "ridge", "inset", "outset"]);
        if let CvView::Tok(TokenView::Ident(x)) = c@ {
            if is_line_style(c@) {
                if eq_ascii_ci(x, "none"@) { assert(eq_ascii_ci(x, words@[0]@)); }
                else if eq_ascii_ci(x, "hidden"@) { assert(eq_ascii_ci(x, words@[1]@)); }
                else if eq_ascii_ci(x, "dotted"@) { assert(eq_ascii_ci(x, words@[2]@)); }
                else if eq_ascii_ci(x, "dashed"@) { assert(eq_ascii_ci(x, words@[3]@)); }
                else if eq_ascii_ci(x, "solid"@) { assert(eq_ascii_ci(x, words@[4]@)); }
                else if eq_ascii_ci(x, "double"@) { assert(eq_ascii_ci(x, words@[5]@)); }
                else if eq_ascii_ci(x, "groove"@) { assert(eq_ascii_ci(x, words@[6]@)); }
                else if eq_ascii_ci(x, "ridge"@) { assert(eq_ascii_ci(x, words@[7]@)); }
                else if eq_ascii_ci(x, "inset"@) { assert(eq_ascii_ci(x, words@[8]@)); }
                else { assert(eq_ascii_ci(x, words@[9]@)); }
            }
        }
    }
    r
}


fn has_wide_keyword_of(p: &[ComponentValue]) -> (r: bool)
    ensures
        r == has_wide_keyword(cvs_view(p@)),
{
    proof {
        lemma_cvs_view_len(p@);
    }
    let mut i: usize = 0;
    while i < p.len()
        invariant
            i <= p@.len(),
            cvs_view(p@).len() == p@.len(),
            forall|j: int| 0 <= j < i ==> !is_wide_keyword(#[trigger] cvs_view(p@)[j]),
        decreases p.len() - i,
    {
        proof {
            lemma_cvs_view_index(p@, i as int);
        }
        if is_wide_keyword_of(&p[i]) {
            return true;
        }
        i += 1;
    }
    false
}

/// The value at an optional position.
pub open spec fn opt_at(p: Seq<CvView>, o: Option<usize>) -> Option<CvView> {
    match o {
        Some(i) => Some(p[i as int]),
        None => None,
    }
}

/// A position is absent or below `n`.
pub open spec fn opt_below(o: Option<usize>, n: int) -> bool {
    match o {
        Some(i) => i < n,
        None => true,
    }
}

fn line_slots_of(p: &[ComponentValue]) -> (r: Option<(Option<usize>, Option<usize>, Option<usize>)>)
    ensures
        match r {
            Some(s) => opt_below(s.0, p@.len() as int) && opt_below(s.1, p@.len() as int) && opt_below(s.2, p@.len() as int)
                && line_slots(cvs_view(p@)) == Some((opt_at(cvs_view(p@), s.0), opt_at(cvs_view(p@), s.1), opt_at(cvs_view(p@), s.2))),
            None => line_slots(cvs_view(p@)) is None,
        },
{
    let ghost pv = cvs_view(p@);
    proof {
        lemma_cvs_view_len(p@);
        assert(pv.take(0) =~= Seq::<CvView>::empty());
    }
    let mut w: Option<usize> = None;
    let mut st: Option<usize> = None;
    let mut co: Option<usize> = None;
    let mut i: usize = 0;
    while i < p.len()
        invariant
            i <= p@.len(),
            pv == cvs_view(p@),
            pv.len() == p@.len(),
            opt_below(w, i as int) && opt_below(st, i as int) && opt_below(co, i as int),
            line_slots(pv.take(i as int)) == Some((opt_at(pv, w), opt_at(pv, st), opt_at(pv, co))),
        decreases p.len() - i,
    {
        proof {
            lemma_cvs_view_index(p@, i as int);
            assert(pv.take(i + 1).drop_last() =~= pv.take(i as int));
            assert(pv.take(i + 1).last() == pv[i as int]);
        }
        let c = &p[i];
        if is_wide_keyword_of(c) {
            proof {
                lemma_line_slots_stop(pv, i + 1);
            }
            return None;
        } else if is_line_width_of(c) {
            if w.is_some() {
                proof {
                    lemma_line_slots_stop(pv, i + 1);
                }
                return None;
            }
            w = Some(i);
        } else if is_line_style_of(c) {
            if st.is_some() {
                proof {
                    lemma_line_slots_stop(pv, i + 1);
                }
                return None;
            }
            st = Some(i);
        } else {
            if co.is_some() {
                proof {
                    lemma_line_slots_stop(pv, i + 1);
                }
                return None;
            }
            co = Some(i);
        }
        i += 1;
    }
    proof {
        assert(pv.take(p@.len() as int) =~= pv);
    }
    Some((w, st, co))
}

proof fn lemma_line_slots_stop(p: Seq<CvView>, k: int)
    requires
        0 <= k <= p.len(),
        line_slots(p.take(k)) is None,
    ensures
        line_slots(p) is None,
    decreases p.len(),
{
    if k == p.len() {
        assert(p.take(k) =~= p);
    } else {
        assert(p.drop_last().take(k) =~= p.take(k));
        lemma_line_slots_stop(p.drop_last(), k);
    }
}

fn one_value(c: &ComponentValue) -> (r: Vec<ComponentValue>)
    ensures
        cvs_view(r@) == seq![c@],
{
    let v = vec![clone_cv(c)];
    proof {
        lemma_cvs_view_push(Seq::<ComponentValue>::empty(), v@[0]);
        assert(Seq::<ComponentValue>::empty().push(v@[0]) =~= v@);
    }
    v
}

fn slot_value_of(p: &[ComponentValue], o: Option<usize>) -> (r: Vec<ComponentValue>)
    requires
        opt_below(o, p@.len() as int),
    ensures
        cvs_view(r@) == slot_value(opt_at(cvs_view(p@), o)),
{
    match o {
        Some(i) => {
            proof {
                lemma_cvs_view_index(p@, i as int);
            }
            one_value(&p[i])
        },
        None => {
            let k = ComponentValue::PreservedToken(Token::Ident(owned("initial")));
            one_value(&k)
        },
    }
}

fn copy_values(v: &Vec<ComponentValue>) -> (r: Vec<ComponentValue>)
    ensures
        cvs_view(r@) == cvs_view(v@),
{
    crate::token::clone_cvs(v.as_slice())
}

/// Expands a shorthand declaration (`name` in lower case) into its
/// longhand declarations: `None` when `name` is not a shorthand, and no
/// declarations when the value is invalid (see [`shorthand_entries`]).
pub fn expand_shorthand(name: &str, value: &[ComponentValue]) -> (r: Option<Vec<(String, Vec<ComponentValue>)>>)
    ensures
        match r {
            Some(es) => shorthand_entries(name@, cvs_view(value@)) == Some(entry_views(es@)),
            None => shorthand_entries(name@, cvs_view(value@)) is None,
        },
{
    let p = strip_ws_vec(value);
    let ghost pv = cvs_view(p@);
    proof {
        lemma_cvs_view_len(p@);
    }
    let names = box_longhands_of(name);
    if names.len() == 4 {
        let mut out: Vec<(String, Vec<ComponentValue>)> = Vec::new();
        let n = p.len();
        if n >= 1 && n <= 4 && !(n > 1 && has_wide_keyword_of(p.as_slice())) {
            let idx: [usize; 4] = if n == 1 {
                [0, 0, 0, 0]
            } else if n == 2 {
                [0, 1, 0, 1]
            } else if n == 3 {
                [0, 1, 2, 1]
            } else {
                [0, 1, 2, 3]
            };
            let ghost f = box_four(pv)->0;
            let mut k: usize = 0;
            while k < 4
                invariant
                    k <= 4,
                    n == p@.len(),
                    1 <= n <= 4,
                    pv == cvs_view(p@),
                    pv.len() == p@.len(),
                    names@.len() == 4,
                    forall|i: int| 0 <= i < 4 ==> (#[trigger] names@[i])@ == box_longhands(name@)[i],
                    idx@.len() == 4,
                    forall|i: int| 0 <= i < 4 ==> (#[trigger] idx@[i]) < n && pv[idx@[i] as int] == f[i],
                    f == box_four(pv)->0,
                    out@.len() == k,
                    forall|j: int| 0 <= j < k ==> (#[trigger] entry_views(out@)[j]) == (box_longhands(name@)[j], seq![f[j]]),
                decreases 4 - k,
            {
                proof {
                    lemma_cvs_view_index(p@, idx@[k as int] as int);
                }
                let v = one_value(&p[idx[k]]);
                let ghost o0 = out@;
                out.push((owned(names[k]), v));
                proof {
                    assert forall|j: int| 0 <= j < k + 1 implies (#[trigger] entry_views(out@)[j]) == (box_longhands(name@)[j], seq![f[j]]) by {
                        if j < k {
                            assert(entry_views(out@)[j] == entry_views(o0)[j]);
                        }
                    }
                }
                k += 1;
            }
            proof {
                let expected = Seq::new(4, |i: int| (box_longhands(name@)[i], seq![f[i]]));
                assert(entry_views(out@) =~= expected);
            }
        } else {
            proof {
                assert(entry_views(out@) =~= Seq::<(Seq<char>, Seq<CvView>)>::empty());
            }
        }
        return Some(out);
    }
    let targets = line_targets_of(name);
    if targets.len() == 0 {
        return None;
    }
    let mut out: Vec<(String, Vec<ComponentValue>)> = Vec::new();
    let vals: Option<(Vec<ComponentValue>, Vec<ComponentValue>, Vec<ComponentValue>)> = if p.len() == 1 && is_wide_keyword_of(&p[0]) {
        proof {
            lemma_cvs_view_index(p@, 0);
        }
        Some((copy_values(&p), copy_values(&p), copy_values(&p)))
    } else if p.len() == 0 {
        None
    } else {
        proof {
            if p@.len() >= 1 {
                lemma_cvs_view_index(p@, 0);
            }
        }
        match line_slots_of(p.as_slice()) {
            Some(s) => Some((slot_value_of(p.as_slice(), s.0), slot_value_of(p.as_slice(), s.1), slot_value_of(p.as_slice(), s.2))),
            None => None,
        }
    };
    match vals {
        Some(t) => {
            let ghost tv = (cvs_view(t.0@), cvs_view(t.1@), cvs_view(t.2@));
            assert(line_values(pv) == Some(tv));
            let mut k: usize = 0;
            proof {
                assert(entry_views(out@) =~= line_entries(line_targets(name@).take(0), tv));
            }
            while k < targets.len()
                invariant
                    k <= targets@.len(),
                    targets@.len() == line_targets(name@).len(),
                    forall|i: int| 0 <= i < targets@.len() ==> ((#[trigger] targets@[i]).0@, targets@[i].1@, targets@[i].2@) == line_targets(name@)[i],
                    tv == (cvs_view(t.0@), cvs_view(t.1@), cvs_view(t.2@)),
                    entry_views(out@) == line_entries(line_targets(name@).take(k as int), tv),
                decreases targets.len() - k,
            {
                let ghost o0 = out@;
                let tg = targets[k];
                out.push((owned(tg.0), copy_values(&t.0)));
                out.push((owned(tg.1), copy_values(&t.1)));
                out.push((owned(tg.2), copy_values(&t.2)));
                proof {
                    let lt = line_targets(name@);
                    assert(lt.take(k + 1).drop_last() =~= lt.take(k as int));
                    assert(lt.take(k + 1).last() == lt[k as int]);
                    assert(entry_views(out@) =~= entry_views(o0) + seq![(lt[k as int].0, tv.0), (lt[k as int].1, tv.1), (lt[k as int].2, tv.2)]);
                }
                k += 1;
            }
            proof {
                assert(line_targets(name@).take(targets@.len() as int) =~= line_targets(name@));
            }
        },
        None => {
            proof {
                assert(entry_views(out@) =~= Seq::<(Seq<char>, Seq<CvView>)>::empty());
            }
        },
    }
    Some(out)
}

// ── what an expansion sets ───────────────────────────────────────────────

/// The longhands that the shorthands set.
pub open spec fn is_longhand_name(p: Seq<char>) -> bool {
    ||| p == "border-top-width"@
    ||| p == "border-top-style"@
    ||| p == "border-top-color"@
    ||| p == "border-right-width"@
    ||| p == "border-right-style"@
    ||| p == "border-right-color"@
    ||| p == "border-bottom-width"@
    ||| p == "border-bottom-style"@
    ||| p == "border-bottom-color"@
    ||| p == "border-left-width"@
    ||| p == "border-left-style"@
    ||| p == "border-left-color"@
    ||| p == "outline-width"@
    ||| p == "outline-style"@
    ||| p == "outline-color"@
}

/// No shorthand sets `gap`.
pub proof fn lemma_longhand_is_not_gap(p: Seq<char>)
    requires
        is_longhand_name(p),
    ensures
        p != "gap"@,
{
    reveal_strlit("gap");
    reveal_strlit("border-top-width");
    reveal_strlit("border-top-style");
    reveal_strlit("border-top-color");
    reveal_strlit("border-right-width");
    reveal_strlit("border-right-style");
    reveal_strlit("border-right-color");
    reveal_strlit("border-bottom-width");
    reveal_strlit("border-bottom-style");
    reveal_strlit("border-bottom-color");
    reveal_strlit("border-left-width");
    reveal_strlit("border-left-style");
    reveal_strlit("border-left-color");
    reveal_strlit("outline-width");
    reveal_strlit("outline-style");
    reveal_strlit("outline-color");
    assert("gap"@.len() == 3);
    assert(p.len() > 3);
}

proof fn lemma_line_entries_names(targets: Seq<(Seq<char>, Seq<char>, Seq<char>)>, t: (Seq<CvView>, Seq<CvView>, Seq<CvView>))
    requires
        forall|j: int| 0 <= j < targets.len() ==> is_longhand_name((#[trigger] targets[j]).0) && is_longhand_name(targets[j].1)
            && is_longhand_name(targets[j].2),
    ensures
        forall|i: int| 0 <= i < line_entries(targets, t).len() ==> is_longhand_name((#[trigger] line_entries(targets, t)[i]).0),
    decreases targets.len(),
{
    if targets.len() > 0 {
        let a = line_entries(targets.drop_last(), t);
        let l = targets.last();
        assert(is_longhand_name(targets[targets.len() - 1].0));
        lemma_line_entries_names(targets.drop_last(), t);
        assert forall|i: int| 0 <= i < line_entries(targets, t).len() implies is_longhand_name((#[trigger] line_entries(targets, t)[i]).0) by {
            if i < a.len() {
                assert(line_entries(targets, t)[i] == a[i]);
            }
        }
    }
}

/// Every declaration that a shorthand expands to sets one of the
/// longhands.
pub proof fn lemma_expansion_sets_longhands(s: Seq<char>, v: Seq<CvView>)
    ensures
        shorthand_entries(s, v) matches Some(es) ==> forall|i: int| 0 <= i < es.len() ==> is_longhand_name((#[trigger] es[i]).0),
{
    let targets = line_targets(s);
    assert forall|j: int| 0 <= j < targets.len() implies is_longhand_name((#[trigger] targets[j]).0) && is_longhand_name(targets[j].1)
        && is_longhand_name(targets[j].2) by {
        if s == "border"@ {
            assert(j == 0 || j == 1 || j == 2 || j == 3);
        }
    }
    let p = strip_ws(v);
    match line_values(p) {
        Some(t) => lemma_line_entries_names(targets, t),
        None => {},
    }
}

// ── computed line widths ─────────────────────────────────────────────────

/// A longhand whose value is a line width.
pub open spec fn is_line_width_property(p: Seq<char>) -> bool {
    ||| p == "border-top-width"@
    ||| p == "border-right-width"@
    ||| p == "border-bottom-width"@
    ||| p == "border-left-width"@
    ||| p == "outline-width"@
}

/// The binary64 bit pattern of the px length a line-width keyword stands
/// for: `thin` 1, `medium` 3, `thick` 5.
pub open spec fn line_width_keyword_bits(x: Seq<char>) -> Option<u64> {
    if eq_ascii_ci(x, "thin"@) {
        Some(0x3ff0_0000_0000_0000u64)
    } else if eq_ascii_ci(x, "medium"@) {
        Some(0x4008_0000_0000_0000u64)
    } else if eq_ascii_ci(x, "thick"@) {
        Some(0x4014_0000_0000_0000u64)
    } else {
        None
    }
}

/// The line-width keyword a value consists of (whitespace aside).
pub open spec fn line_width_keyword(v: Seq<CvView>) -> Option<u64> {
    let s = strip_ws(v);
    if s.len() == 1 {
        match s[0] {
            CvView::Tok(TokenView::Ident(x)) => line_width_keyword_bits(x),
            _ => None,
        }
    } else {
        None
    }
}

/// The `px` dimension with the given bit pattern.
pub open spec fn px_dimension(bits: u64) -> CvView {
    CvView::Tok(TokenView::Dimension(Numeric { bits, is_integer: true }, "px"@))
}

/// The computed value of property `p`: a line width given as `thin`,
/// `medium` or `thick` becomes `1px`, `3px` or `5px`; every other value
/// stays as it is.
pub open spec fn line_width_computed(p: Seq<char>, v: Seq<CvView>) -> Seq<CvView> {
    if is_line_width_property(p) {
        match line_width_keyword(v) {
            Some(b) => seq![px_dimension(b)],
            None => v,
        }
    } else {
        v
    }
}

/// The bit patterns of the keyword widths are the binary64 values 1, 3
/// and 5: significand times two to the exponent.
pub proof fn lemma_line_width_keyword_values()
    ensures
        f64_significand(0x3ff0_0000_0000_0000u64) == pow2(52) && f64_exponent(0x3ff0_0000_0000_0000u64) == -52,
        f64_significand(0x4008_0000_0000_0000u64) == 3 * pow2(51) && f64_exponent(0x4008_0000_0000_0000u64) == -51,
        f64_significand(0x4014_0000_0000_0000u64) == 5 * pow2(50) && f64_exponent(0x4014_0000_0000_0000u64) == -50,
{
    assert((0x3ff0_0000_0000_0000u64 >> 52u64) & 0x7ffu64 == 0x3ffu64) by (bit_vector);
    assert(0x3ff0_0000_0000_0000u64 & 0xf_ffff_ffff_ffffu64 == 0u64) by (bit_vector);
    assert((0x4008_0000_0000_0000u64 >> 52u64) & 0x7ffu64 == 0x400u64) by (bit_vector);
    assert(0x4008_0000_0000_0000u64 & 0xf_ffff_ffff_ffffu64 == 0x8_0000_0000_0000u64) by (bit_vector);
    assert((0x4014_0000_0000_0000u64 >> 52u64) & 0x7ffu64 == 0x401u64) by (bit_vector);
    assert(0x4014_0000_0000_0000u64 & 0xf_ffff_ffff_ffffu64 == 0x4_0000_0000_0000u64) by (bit_vector);
    lemma2_to64_rest();
}

/// The computed value of a property's tokens as far as line widths go
/// (see [`line_width_computed`]).
pub fn normalize_line_width(property: &str, value: ComputedValue) -> (r: ComputedValue)
    ensures
        r@ == line_width_computed(property@, value@),
{
    let is_width = str_eq(property, "border-top-width") || str_eq(property, "border-right-width")
        || str_eq(property, "border-bottom-width") || str_eq(property, "border-left-width") || str_eq(property, "outline-width");
    if !is_width {
        return value;
    }
    let s = strip_ws_vec(value.tokens());
    proof {
        lemma_cvs_view_len(s@);
    }
    if s.len() != 1 {
        return value;
    }
    proof {
        lemma_cvs_view_index(s@, 0);
    }
    let bits: u64 = match &s[0] {
        ComponentValue::PreservedToken(Token::Ident(x)) => {
            if eq_ignore_ascii_case(x.as_str(), "thin") {
                0x3ff0_0000_0000_0000u64
            } else if eq_ignore_ascii_case(x.as_str(), "medium") {
                0x4008_0000_0000_0000u64
            } else if eq_ignore_ascii_case(x.as_str(), "thick") {
                0x4014_0000_0000_0000u64
            } else {
                return value;
            }
        },
        _ => {
            return value;
        },
    };
    let px = ComponentValue::PreservedToken(Token::Dimension(Numeric { bits, is_integer: true }, owned("px")));
    ComputedValue::from_tokens(one_value(&px))
}

proof fn lemma_line_entries_values(targets: Seq<(Seq<char>, Seq<char>, Seq<char>)>, t: (Seq<CvView>, Seq<CvView>, Seq<CvView>))
    ensures
        line_entries(targets, t).len() == 3 * targets.len(),
        forall|i: int| 0 <= i < line_entries(targets, t).len() ==> {
            let e = #[trigger] line_entries(targets, t)[i];
            e.1 == t.0 || e.1 == t.1 || e.1 == t.2
        },
    decreases targets.len(),
{
    if targets.len() > 0 {
        let a = line_entries(targets.drop_last(), t);
        lemma_line_entries_values(targets.drop_last(), t);
        assert forall|i: int| 0 <= i < line_entries(targets, t).len() implies {
            let e = #[trigger] line_entries(targets, t)[i];
            e.1 == t.0 || e.1 == t.1 || e.1 == t.2
        } by {
            if i < a.len() {
                assert(line_entries(targets, t)[i] == a[i]);
            }
        }
    }
}

/// Law: a value that is one CSS-wide keyword (whitespace aside) sets every
/// longhand of a shorthand, and at least one, to that keyword.
pub proof fn lemma_wide_keyword_sets_every_longhand(s: Seq<char>, v: Seq<CvView>, k: CvView)
    requires
        strip_ws(v) == seq![k],
        is_wide_keyword(k),
    ensures
        shorthand_entries(s, v) matches Some(es) ==> es.len() > 0 && forall|i: int| 0 <= i < es.len() ==> (#[trigger] es[i]).1 == seq![k],
{
    let p = strip_ws(v);
    if box_longhands(s).len() != 4 && line_targets(s).len() > 0 {
        assert(line_values(p) == Some((p, p, p)));
        lemma_line_entries_values(line_targets(s), (p, p, p));
    }
}

/// Law: computing a line width again changes nothing.
pub proof fn lemma_line_width_computed_idempotent(p: Seq<char>, v: Seq<CvView>)
    ensures
        line_width_computed(p, line_width_computed(p, v)) == line_width_computed(p, v),
{
    if is_line_width_property(p) {
        if let Some(b) = line_width_keyword(v) {
            let w = seq![px_dimension(b)];
            assert(strip_ws(w.drop_last()) =~= Seq::<CvView>::empty());
            assert(strip_ws(w) =~= w);
        }
    }
}

/// Law: a line shorthand whose value is one keyword (in any ASCII case)
/// sorts it by kind: a border style (`none`, `hidden`, `dotted`, `dashed`,
/// `solid`, `double`, `groove`, `ridge`, `inset`, `outset`) sets the style
/// and resets width and color to `initial`; a width keyword (`thin`,
/// `medium`, `thick`) sets the width and resets style and color; a CSS-wide
/// keyword (`initial`, `inherit`, `unset`, `revert`, `revert-layer`) sets
/// all three.
pub proof fn lemma_line_keyword_slots(x: Seq<char>)
    ensures
        (ascii_lower(x) == "none"@ || ascii_lower(x) == "hidden"@ || ascii_lower(x) == "dotted"@ || ascii_lower(x) == "dashed"@ || ascii_lower(x) == "solid"@ || ascii_lower(x) == "double"@ || ascii_lower(x) == "groove"@ || ascii_lower(x) == "ridge"@ || ascii_lower(x) == "inset"@ || ascii_lower(x) == "outset"@) ==> line_values(seq![CvView::Tok(TokenView::Ident(x))]) == Some((
            seq![initial_keyword()], seq![CvView::Tok(TokenView::Ident(x))], seq![initial_keyword()])),
        (ascii_lower(x) == "thin"@ || ascii_lower(x) == "medium"@ || ascii_lower(x) == "thick"@) ==> line_values(seq![CvView::Tok(TokenView::Ident(x))]) == Some((
            seq![CvView::Tok(TokenView::Ident(x))], seq![initial_keyword()], seq![initial_keyword()])),
        (ascii_lower(x) == "initial"@ || ascii_lower(x) == "inherit"@ || ascii_lower(x) == "unset"@ || ascii_lower(x) == "revert"@ || ascii_lower(x) == "revert-layer"@) ==> line_values(seq![CvView::Tok(TokenView::Ident(x))]) == Some((
            seq![CvView::Tok(TokenView::Ident(x))], seq![CvView::Tok(TokenView::Ident(x))], seq![CvView::Tok(TokenView::Ident(x))])),
{
    reveal_strlit("none");
    reveal_strlit("hidden");
    reveal_strlit("dotted");
    reveal_strlit("dashed");
    reveal_strlit("solid");
    reveal_strlit("double");
    reveal_strlit("groove");
    reveal_strlit("ridge");
    reveal_strlit("inset");
    reveal_strlit("outset");
    reveal_strlit("thin");
    reveal_strlit("medium");
    reveal_strlit("thick");
    reveal_strlit("initial");
    reveal_strlit("inherit");
    reveal_strlit("unset");
    reveal_strlit("revert");
    reveal_strlit("revert-layer");
    assert(ascii_lower("none"@) =~= "none"@);
    assert(ascii_lower("hidden"@) =~= "hidden"@);
    assert(ascii_lower("dotted"@) =~= "dotted"@);
    assert(ascii_lower("dashed"@) =~= "dashed"@);
    assert(ascii_lower("solid"@) =~= "solid"@);
    assert(ascii_lower("double"@) =~= "double"@);
    assert(ascii_lower("groove"@) =~= "groove"@);
    assert(ascii_lower("ridge"@) =~= "ridge"@);
    assert(ascii_lower("inset"@) =~= "inset"@);
    assert(ascii_lower("outset"@) =~= "outset"@);
    assert(ascii_lower("thin"@) =~= "thin"@);
    assert(ascii_lower("medium"@) =~= "medium"@);
    assert(ascii_lower("thick"@) =~= "thick"@);
    assert(ascii_lower("initial"@) =~= "initial"@);
    assert(ascii_lower("inherit"@) =~= "inherit"@);
    assert(ascii_lower("unset"@) =~= "unset"@);
    assert(ascii_lower("revert"@) =~= "revert"@);
    assert(ascii_lower("revert-layer"@) =~= "revert-layer"@);
    assert("none"@.len() == 4);
    assert("hidden"@.len() == 6);
    assert("dotted"@.len() == 6);
    assert("dashed"@.len() == 6);
    assert("solid"@.len() == 5);
    assert("double"@.len() == 6);
    assert("groove"@.len() == 6);
    assert("ridge"@.len() == 5);
    assert("inset"@.len() == 5);
    assert("outset"@.len() == 6);
    assert("thin"@.len() == 4);
    assert("medium"@.len() == 6);
    assert("thick"@.len() == 5);
    assert("initial"@.len() == 7);
    assert("inherit"@.len() == 7);
    assert("unset"@.len() == 5);
    assert("revert"@.len() == 6);
    assert("revert-layer"@.len() == 12);
    assert("none"@[0] != "thin"@[0]);
    assert("hidden"@[0] != "medium"@[0]);
    assert("hidden"@[0] != "revert"@[0]);
    assert("dotted"@[0] != "medium"@[0]);
    assert("dotted"@[0] != "revert"@[0]);
    assert("dashed"@[0] != "medium"@[0]);
    assert("dashed"@[0] != "revert"@[0]);
    assert("solid"@[0] != "thick"@[0]);
    assert("solid"@[0] != "unset"@[0]);
    assert("double"@[0] != "medium"@[0]);
    assert("double"@[0] != "revert"@[0]);
    assert("groove"@[0] != "medium"@[0]);
    assert("groove"@[0] != "revert"@[0]);
    assert("ridge"@[0] != "thick"@[0]);
    assert("ridge"@[0] != "unset"@[0]);
    assert("inset"@[0] != "thick"@[0]);
    assert("inset"@[0] != "unset"@[0]);
    assert("outset"@[0] != "revert"@[0]);
    assert("medium"@[0] != "outset"@[0]);
    assert("medium"@[0] != "revert"@[0]);
    assert("thick"@[0] != "unset"@[0]);
    let c = CvView::Tok(TokenView::Ident(x));
    let p = seq![c];
    assert(p.drop_last() =~= Seq::<CvView>::empty());
    assert(p[0] == c && p.last() == c);
    assert(line_slots(Seq::<CvView>::empty()) == Some((None::<CvView>, None::<CvView>, None::<CvView>)));
    if !is_wide_keyword(c) {
        if is_line_width(c) {
            assert(line_slots(p) == Some((Some(c), None::<CvView>, None::<CvView>)));
        } else if is_line_style(c) {
            assert(line_slots(p) == Some((None::<CvView>, Some(c), None::<CvView>)));
        }
    }
}

} // verus!
