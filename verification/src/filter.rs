//! Filtering: which declarations apply to an element.
//!
//! Style sheets are first *prepared*: their rules are flattened in document
//! order, `@media` and `@supports` groups whose condition fails are pruned,
//! `@layer` names get global indices in order of first appearance, and each
//! style rule's selector is parsed once. Collecting an element's declared
//! values then walks the prepared rules, keeps those whose selector matches
//! the element, and adds the declarations of its `style` attribute.
use vstd::prelude::*;
use muskitty_selectors::matching::DomElement;
use muskitty_selectors::types::SelectorList;
use crate::compute::first_non_ws;
use crate::media::{default_media, eval_media_query, media_list_holds, strip_ws, strip_ws_vec, MediaContext};
use crate::registry::{is_registered, lookup_property};
use crate::style_attr::{parse_style_attribute, style_text_declarations};
use crate::shorthand::{entry_views, expand_shorthand, is_longhand_name, lemma_expansion_sets_longhands, lemma_longhand_is_not_gap, shorthand_entries};
use crate::strutil::{ascii_lower, eq_ascii_ci, eq_ignore_ascii_case, has_dashdash_prefix, owned, starts_with_dashdash, str_eq, to_ascii_lowercase};
use crate::style::{declared_view, declared_views, DeclaredValue, DeclaredView, Origin, Specificity};
use crate::token::{
    clone_cv, clone_cvs, cvs_view, lemma_cvs_view_index, lemma_cvs_view_len, BlockKind, ComponentValue,
    CvView, Token, TokenView,
};

verus! {

// ── the outside selector engine ──────────────────────────────────────────

/// A parsed selector list of the selector engine.
#[verifier::external_type_specification]
#[verifier::external_body]
pub struct ExSelectorList(SelectorList);

/// An element of the document, as the selector engine sees it.
#[verifier::external_type_specification]
#[verifier::external_body]
pub struct ExDomElement(DomElement);

/// Whether the selector engine accepts a selector text (its parser is a
/// function of the text).
pub uninterp spec fn selector_text_parses(text: Seq<char>) -> bool;

/// The greatest specificity of the selector list a text parses to, as
/// `SelectorList::specificity_max` computes it (a function of the parsed
/// list, hence of the text).
pub uninterp spec fn selector_text_specificity(text: Seq<char>) -> (u32, u32, u32);

/// Parses a selector list with `muskitty_selectors::parser::parse_a_selector`
/// and takes its `SelectorList::specificity_max`. Trusted: the result is
/// `Some` exactly when that parser accepts the text, and then carries the
/// list with the specificity named for the text.
#[verifier::external_body]
fn parse_selector_with_specificity(text: &str) -> (r: Option<(SelectorList, Specificity)>)
    ensures
        r is Some == selector_text_parses(text@),
        r matches Some(p) ==> (p.1.a, p.1.b, p.1.c) == selector_text_specificity(text@),
{
    match muskitty_selectors::parser::parse_a_selector(text) {
        Ok(list) => {
            let s = list.specificity_max();
            Some((list, Specificity { a: s.a, b: s.b, c: s.c }))
        },
        Err(_) => None,
    }
}

/// The specificity named for a selector text, as the library's type.
pub open spec fn text_specificity(text: Seq<char>) -> Specificity {
    let s = selector_text_specificity(text);
    Specificity { a: s.0, b: s.1, c: s.2 }
}

/// Whether an element matches a selector list, from
/// `muskitty_selectors::matches`. It depends on the document, so nothing is
/// claimed of the result.
#[verifier::external_body]
fn element_matches(list: &SelectorList, element: &DomElement) -> (r: bool) {
    muskitty_selectors::matches(list, element)
}

// ── the style sheet model ────────────────────────────────────────────────

/// A declaration of a style sheet or a `style` attribute.
#[derive(Debug)]
pub struct SheetDeclaration {
    /// Property name as written.
    pub name: String,
    /// Declared value.
    pub value: Vec<ComponentValue>,
    /// `!important`.
    pub important: bool,
}

/// A rule of a style sheet, with what filtering reads of it.
#[derive(Debug)]
pub enum SheetRule {
    /// A style rule: its selector text, declarations and nested rules.
    Style { selector_text: String, declarations: Vec<SheetDeclaration>, children: Vec<SheetRule> },
    /// `@media` with its query list.
    Media { condition: Vec<ComponentValue>, children: Vec<SheetRule> },
    /// `@supports` with its condition.
    Supports { condition: Vec<ComponentValue>, children: Vec<SheetRule> },
    /// `@container` (its condition needs layout, so its rules always take part).
    Container { children: Vec<SheetRule> },
    /// `@layer` block, named or anonymous.
    LayerBlock { name: Option<String>, children: Vec<SheetRule> },
    /// `@layer a, b;`: declares layer order only.
    LayerStatement { names: Vec<String> },
    /// `@scope`.
    Scope { children: Vec<SheetRule> },
    /// An unknown at-rule with nested rules.
    Other { children: Vec<SheetRule> },
    /// A rule that never matches elements (`@import`, `@namespace`,
    /// `@font-face`, `@page`, `@keyframes` and their blocks,
    /// `@counter-style`, `@property`).
    Inert,
}

/// A style sheet with its origin and the fields that decide whether it
/// applies at all.
#[derive(Debug)]
pub struct StyleSheet {
    /// Cascade origin.
    pub origin: Origin,
    /// The owner's `media` list (empty: no condition).
    pub media: Vec<ComponentValue>,
    /// Disabled sheets do not apply.
    pub disabled: bool,
    /// Alternate sheets are not enabled, so they do not apply.
    pub alternate: bool,
    /// Top-level rules.
    pub rules: Vec<SheetRule>,
}

/// What a declaration carries: name, value and importance.
pub type DeclView = (Seq<char>, Seq<CvView>, bool);

/// View of a declaration.
pub open spec fn decl_view(d: SheetDeclaration) -> DeclView {
    (d.name@, cvs_view(d.value@), d.important)
}

/// Views of declarations.
pub open spec fn decl_views(ds: Seq<SheetDeclaration>) -> Seq<DeclView> {
    Seq::new(ds.len(), |i: int| decl_view(ds[i]))
}

pub(crate) fn clone_declarations(ds: &Vec<SheetDeclaration>) -> (r: Vec<SheetDeclaration>)
    ensures
        decl_views(r@) == decl_views(ds@),
{
    let mut out: Vec<SheetDeclaration> = Vec::new();
    let mut i: usize = 0;
    while i < ds.len()
        invariant
            i <= ds@.len(),
            out@.len() == i,
            forall|j: int| 0 <= j < i ==> decl_view(#[trigger] out@[j]) == decl_view(ds@[j]),
        decreases ds.len() - i,
    {
        let d = &ds[i];
        out.push(SheetDeclaration { name: d.name.clone(), value: clone_cvs(d.value.as_slice()), important: d.important });
        i += 1;
    }
    proof {
        assert(decl_views(out@) =~= decl_views(ds@));
    }
    out
}

// ── @layer ordering ──────────────────────────────────────────────────────

/// Layer bookkeeping: the index of each named layer seen so far and the
/// next index to give.
pub type LayerState = (Map<Seq<char>, nat>, nat);

/// Declaring a layer: a name seen before keeps its index; a new name and an
/// anonymous layer get the next index. Yields the new state and the index.
pub open spec fn declare_layer(st: LayerState, name: Option<Seq<char>>) -> (LayerState, nat) {
    match name {
        Some(n) => {
            if st.0.contains_key(n) {
                (st, st.0[n])
            } else {
                ((st.0.insert(n, st.1), st.1 + 1), st.1)
            }
        },
        None => ((st.0, st.1 + 1), st.1),
    }
}

/// Declaring the names of an `@layer a, b;` statement in order.
pub open spec fn declare_layer_names(st: LayerState, names: Seq<String>) -> LayerState
    decreases names.len(),
{
    if names.len() == 0 {
        st
    } else {
        declare_layer(declare_layer_names(st, names.drop_last()), Some(names.last()@)).0
    }
}

/// Entering a layer block: the layer is declared and pushed as current.
pub open spec fn enter_view(v: (LayerState, Seq<Option<usize>>), n: Option<Seq<char>>) -> (LayerState, Seq<Option<usize>>) {
    let d = declare_layer(v.0, n);
    (d.0, v.1.push(Some(d.1 as usize)))
}

/// Leaving a layer block: the innermost block is popped (nothing happens
/// at top level); declared layers stay.
pub open spec fn exit_view(v: (LayerState, Seq<Option<usize>>)) -> (LayerState, Seq<Option<usize>>) {
    (v.0, if v.1.len() == 0 { v.1 } else { v.1.drop_last() })
}

/// Entering a layer block (with an optional name) or leaving one.
pub enum LayerOp {
    Enter(Option<Seq<char>>),
    Exit,
}

/// The bookkeeping after a sequence of block entries and exits.
pub open spec fn run_layer_ops(v: (LayerState, Seq<Option<usize>>), ops: Seq<LayerOp>) -> (LayerState, Seq<Option<usize>>)
    decreases ops.len(),
{
    if ops.len() == 0 {
        v
    } else {
        let w = run_layer_ops(v, ops.drop_last());
        match ops.last() {
            LayerOp::Enter(n) => enter_view(w, n),
            LayerOp::Exit => exit_view(w),
        }
    }
}

/// Entries minus exits.
pub open spec fn ops_depth(ops: Seq<LayerOp>) -> int
    decreases ops.len(),
{
    if ops.len() == 0 {
        0
    } else {
        ops_depth(ops.drop_last()) + if ops.last() is Enter { 1int } else { -1int }
    }
}

/// Every exit closes a block entered earlier in the sequence, and every
/// block entered is closed again.
pub open spec fn balanced_layer_ops(ops: Seq<LayerOp>) -> bool {
    &&& ops_depth(ops) == 0
    &&& forall|k: int| 0 <= k <= ops.len() ==> ops_depth(#[trigger] ops.take(k)) >= 0
}

proof fn lemma_layer_ops_stack(v: (LayerState, Seq<Option<usize>>), ops: Seq<LayerOp>)
    requires
        forall|k: int| 0 <= k <= ops.len() ==> ops_depth(#[trigger] ops.take(k)) >= 0,
    ensures
        run_layer_ops(v, ops).1.len() == v.1.len() + ops_depth(ops),
        run_layer_ops(v, ops).1.take(v.1.len() as int) == v.1,
        forall|k: Seq<char>| #[trigger] v.0.0.contains_key(k) ==> run_layer_ops(v, ops).0.0.contains_key(k)
            && run_layer_ops(v, ops).0.0[k] == v.0.0[k],
    decreases ops.len(),
{
    if ops.len() == 0 {
        assert(v.1.take(v.1.len() as int) =~= v.1);
    } else {
        let p = ops.drop_last();
        assert forall|k: int| 0 <= k <= p.len() implies ops_depth(#[trigger] p.take(k)) >= 0 by {
            assert(p.take(k) =~= ops.take(k));
        }
        lemma_layer_ops_stack(v, p);
        assert(ops.take(ops.len() as int) =~= ops);
        let w = run_layer_ops(v, p);
        match ops.last() {
            LayerOp::Enter(n) => {
                assert(w.1.push(Some(declare_layer(w.0, n).1 as usize)).take(v.1.len() as int) =~= w.1.take(v.1.len() as int));
            },
            LayerOp::Exit => {
                assert(w.1.drop_last().take(v.1.len() as int) =~= w.1.take(v.1.len() as int));
            },
        }
    }
}

/// Law: a balanced sequence of layer block entries and exits leaves the
/// stack of blocks, hence the current layer, as it was, and every layer
/// declared before keeps its index.
pub proof fn lemma_balanced_layer_blocks_restore(v: (LayerState, Seq<Option<usize>>), ops: Seq<LayerOp>)
    requires
        balanced_layer_ops(ops),
    ensures
        run_layer_ops(v, ops).1 == v.1,
        forall|k: Seq<char>| #[trigger] v.0.0.contains_key(k) ==> run_layer_ops(v, ops).0.0.contains_key(k)
            && run_layer_ops(v, ops).0.0[k] == v.0.0[k],
{
    lemma_layer_ops_stack(v, ops);
    assert(run_layer_ops(v, ops).1.take(v.1.len() as int) =~= run_layer_ops(v, ops).1);
}

/// Global `@layer` numbering: names in order of first appearance across all
/// sheets, anonymous layers each a fresh index; a stack of the layer blocks
/// being walked.
pub struct LayerTracker {
    by_name: Vec<(String, usize)>,
    next: usize,
    stack: Vec<Option<usize>>,
}

/// The map an association list describes.
pub open spec fn layer_names_map(e: Seq<(String, usize)>) -> Map<Seq<char>, nat>
    decreases e.len(),
{
    if e.len() == 0 {
        Map::empty()
    } else {
        layer_names_map(e.drop_last()).insert(e.last().0@, e.last().1 as nat)
    }
}

proof fn lemma_layer_names_lookup(e: Seq<(String, usize)>, k: Seq<char>, i: int)
    requires
        -1 <= i < e.len(),
        forall|j: int| i < j < e.len() ==> (#[trigger] e[j]).0@ != k,
    ensures
        i >= 0 && e[i].0@ == k ==> layer_names_map(e).contains_key(k) && layer_names_map(e)[k] == e[i].1 as nat,
        i == -1 ==> !layer_names_map(e).contains_key(k),
    decreases e.len(),
{
    if e.len() > 0 && i < e.len() - 1 {
        let p = e.drop_last();
        assert forall|j: int| i < j < p.len() implies (#[trigger] p[j]).0@ != k by {
            assert(p[j] == e[j]);
        }
        lemma_layer_names_lookup(p, k, i);
        if i >= 0 {
            assert(p[i] == e[i]);
        }
    }
}

impl View for LayerTracker {
    type V = (LayerState, Seq<Option<usize>>);

    closed spec fn view(&self) -> (LayerState, Seq<Option<usize>>) {
        ((layer_names_map(self.by_name@), self.next as nat), self.stack@)
    }
}

impl LayerTracker {
    #[verifier::type_invariant]
    spec fn inv(self) -> bool {
        forall|j: int| 0 <= j < self.by_name@.len() ==> (#[trigger] self.by_name@[j]).1 < self.next
    }

    /// No layer seen yet, outside any block.
    pub fn new() -> (r: Self)
        ensures
            r@ == ((Map::<Seq<char>, nat>::empty(), 0nat), Seq::<Option<usize>>::empty()),
    {
        let r = LayerTracker { by_name: Vec::new(), next: 0, stack: Vec::new() };
        proof {
            assert(r.stack@ =~= Seq::<Option<usize>>::empty());
        }
        r
    }

    /// Declares (or refers again to) a layer and returns its index.
    pub fn declare(&mut self, name: Option<&str>) -> (r: usize)
        requires
            old(self)@.0.1 < usize::MAX,
        ensures
            (final(self)@.0, r as nat) == declare_layer(old(self)@.0, match name {
                Some(n) => Some(n@),
                None => None,
            }),
            final(self)@.1 == old(self)@.1,
    {
        proof {
            use_type_invariant(&*self);
        }
        match name {
            Some(n) => {
                let mut i: usize = self.by_name.len();
                while i > 0
                    invariant
                        *self == *old(self),
                        name == Some(n),
                        i <= self.by_name@.len(),
                        forall|j: int| i <= j < self.by_name@.len() ==> (#[trigger] self.by_name@[j]).0@ != n@,
                    decreases i,
                {
                    if str_eq(self.by_name[i - 1].0.as_str(), n) {
                        proof {
                            lemma_layer_names_lookup(self.by_name@, n@, i - 1);
                        }
                        return self.by_name[i - 1].1;
                    }
                    i -= 1;
                }
                proof {
                    lemma_layer_names_lookup(self.by_name@, n@, -1);
                }
                let idx = self.next;
                let mut names = Vec::new();
                std::mem::swap(&mut names, &mut self.by_name);
                let ghost e0 = names@;
                names.push((n.to_owned(), idx));
                proof {
                    assert(names@.drop_last() =~= e0);
                }
                self.next = idx + 1;
                self.by_name = names;
                idx
            },
            None => {
                let idx = self.next;
                self.next = idx + 1;
                idx
            },
        }
    }

    /// Enters a layer block: declares it and makes it current.
    pub fn enter(&mut self, name: Option<&str>)
        requires
            old(self)@.0.1 < usize::MAX,
        ensures
            final(self)@ == enter_view(old(self)@, match name {
                Some(n) => Some(n@),
                None => None,
            }),
    {
        let idx = self.declare(name);
        proof {
            use_type_invariant(&*self);
        }
        let mut stack = Vec::new();
        std::mem::swap(&mut stack, &mut self.stack);
        stack.push(Some(idx));
        self.stack = stack;
    }

    /// Leaves the current layer block.
    pub fn exit(&mut self)
        ensures
            final(self)@ == exit_view(old(self)@),
    {
        proof {
            use_type_invariant(&*self);
        }
        let mut stack = Vec::new();
        std::mem::swap(&mut stack, &mut self.stack);
        let _ = stack.pop();
        self.stack = stack;
    }

    /// Index of the innermost layer block being walked (`None` at top level).
    pub fn current(&self) -> (r: Option<usize>)
        ensures
            r == (if self@.1.len() == 0 { None } else { self@.1.last() }),
    {
        if self.stack.len() == 0 {
            None
        } else {
            self.stack[self.stack.len() - 1]
        }
    }
}

// ── @supports ────────────────────────────────────────────────────────────

/// First identifier of a `(prop: value)` block: the first value that is not
/// whitespace, when it is an identifier.
pub open spec fn decl_block_property(body: Seq<CvView>) -> Option<Seq<char>> {
    let i = first_non_ws(body, 0);
    if i < body.len() {
        match body[i] {
            CvView::Tok(TokenView::Ident(s)) => Some(s),
            _ => None,
        }
    } else {
        None
    }
}

/// `(prop: value)` in `@supports`: a custom property, or a registered
/// property name (ASCII case-insensitive).
pub open spec fn supports_feature(kind: BlockKind, body: Seq<CvView>) -> bool {
    kind == BlockKind::Paren && match decl_block_property(body) {
        Some(n) => has_dashdash_prefix(n) || is_registered(ascii_lower(n)),
        None => false,
    }
}

/// Folds one more condition into the running result: the first one is
/// taken as is, later ones are joined by the pending `and` (`Some(true)`)
/// or `or` (`Some(false)`), and without an operator the latest one wins.
pub open spec fn combine_condition_spec(result: Option<bool>, op: Option<bool>, cond: bool) -> Option<bool> {
    match result {
        None => Some(cond),
        Some(prev) => match op {
            Some(true) => Some(prev && cond),
            Some(false) => Some(prev || cond),
            None => Some(cond),
        },
    }
}

/// State while reading an `@supports` condition: result so far, pending
/// operator, pending `not`.
pub type SupportsState = (Option<bool>, Option<bool>, bool);

/// Reads one value of an `@supports` condition; `None` stops on syntax it
/// does not know.
pub open spec fn supports_step(st: SupportsState, c: CvView) -> Option<SupportsState> {
    match c {
        CvView::Tok(TokenView::Whitespace) => Some(st),
        CvView::Tok(TokenView::Ident(n)) => {
            if eq_ascii_ci(n, "not"@) {
                Some((st.0, st.1, true))
            } else if eq_ascii_ci(n, "and"@) {
                Some((st.0, Some(true), st.2))
            } else if eq_ascii_ci(n, "or"@) {
                Some((st.0, Some(false), st.2))
            } else {
                None
            }
        },
        CvView::Block(k, body) => {
            let f = supports_feature(k, body);
            let cond = if st.2 { !f } else { f };
            Some((combine_condition_spec(st.0, st.1, cond), None, false))
        },
        _ => None,
    }
}

/// Reads a whole condition.
pub open spec fn supports_run(s: Seq<CvView>) -> Option<SupportsState>
    decreases s.len(),
{
    if s.len() == 0 {
        Some((None, None, false))
    } else {
        match supports_run(s.drop_last()) {
            Some(st) => supports_step(st, s.last()),
            None => None,
        }
    }
}

/// An `@supports` condition holds: it reads through and its result is true.
pub open spec fn supports_holds(s: Seq<CvView>) -> bool {
    match supports_run(s) {
        Some(st) => st.0 == Some(true),
        None => false,
    }
}

/// Folds one more `@supports` condition into the running result (`op`:
/// `Some(true)` for a pending `and`, `Some(false)` for `or`): the first
/// condition is taken as is, later ones are joined by the operator, and
/// without one the latest condition wins.
pub fn combine_condition(result: Option<bool>, op: Option<bool>, cond: bool) -> (r: Option<bool>)
    ensures
        r == combine_condition_spec(result, op, cond),
{
    match result {
        None => Some(cond),
        Some(prev) => match op {
            Some(true) => Some(prev && cond),
            Some(false) => Some(prev || cond),
            None => Some(cond),
        },
    }
}

fn decl_block_property_of(body: &[ComponentValue]) -> (r: Option<&String>)
    ensures
        match r {
            Some(s) => decl_block_property(cvs_view(body@)) == Some(s@),
            None => decl_block_property(cvs_view(body@)) is None,
        },
{
    let i = crate::compute::skip_ws_from(body, 0);
    proof {
        lemma_cvs_view_len(body@);
    }
    if i < body.len() {
        proof {
            lemma_cvs_view_index(body@, i as int);
        }
        match &body[i] {
            ComponentValue::PreservedToken(Token::Ident(s)) => Some(s),
            _ => None,
        }
    } else {
        None
    }
}

fn supports_feature_of(kind: BlockKind, body: &[ComponentValue]) -> (r: bool)
    ensures
        r == supports_feature(kind, cvs_view(body@)),
{
    if kind != BlockKind::Paren {
        return false;
    }
    match decl_block_property_of(body) {
        Some(n) => {
            if starts_with_dashdash(n.as_str()) {
                true
            } else {
                let lower = to_ascii_lowercase(n.as_str());
                lookup_property(lower.as_str()).is_some()
            }
        },
        None => false,
    }
}

/// Evaluates an `@supports` condition: `(prop: value)` holds when the
/// property is registered or custom; `not`, `and` and `or` combine; any
/// other syntax fails the whole condition.
pub fn eval_supports_condition(condition: &[ComponentValue]) -> (r: bool)
    ensures
        r == supports_holds(cvs_view(condition@)),
{
    let ghost sv = cvs_view(condition@);
    proof {
        lemma_cvs_view_len(condition@);
        assert(sv.take(0) =~= Seq::<CvView>::empty());
    }
    let mut result: Option<bool> = None;
    let mut pending: Option<bool> = None;
    let mut negate: bool = false;
    let mut i: usize = 0;
    while i < condition.len()
        invariant
            i <= condition@.len(),
            sv == cvs_view(condition@),
            sv.len() == condition@.len(),
            supports_run(sv.take(i as int)) == Some((result, pending, negate)),
        decreases condition.len() - i,
    {
        proof {
            lemma_cvs_view_index(condition@, i as int);
            assert(sv.take(i + 1).drop_last() =~= sv.take(i as int));
            assert(sv.take(i + 1).last() == sv[i as int]);
        }
        match &condition[i] {
            ComponentValue::PreservedToken(Token::Whitespace) => {},
            ComponentValue::PreservedToken(Token::Ident(n)) => {
                if eq_ignore_ascii_case(n.as_str(), "not") {
                    negate = true;
                } else if eq_ignore_ascii_case(n.as_str(), "and") {
                    pending = Some(true);
                } else if eq_ignore_ascii_case(n.as_str(), "or") {
                    pending = Some(false);
                } else {
                    proof {
                        lemma_supports_stops(sv, i + 1);
                    }
                    return false;
                }
            },
            ComponentValue::SimpleBlock(b) => {
                let f = supports_feature_of(b.kind, b.value.as_slice());
                let cond = if negate { !f } else { f };
                result = combine_condition(result, pending, cond);
                pending = None;
                negate = false;
            },
            _ => {
                proof {
                    lemma_supports_stops(sv, i + 1);
                }
                return false;
            },
        }
        i += 1;
    }
    proof {
        assert(sv.take(condition@.len() as int) =~= sv);
    }
    result == Some(true)
}

/// Once reading stops, it stays stopped.
proof fn lemma_supports_stops(s: Seq<CvView>, k: int)
    requires
        0 <= k <= s.len(),
        supports_run(s.take(k)) is None,
    ensures
        supports_run(s) is None,
    decreases s.len(),
{
    if k == s.len() {
        assert(s.take(k) =~= s);
    } else {
        assert(s.drop_last().take(k) =~= s.take(k));
        lemma_supports_stops(s.drop_last(), k);
    }
}

// ── preparing sheets ─────────────────────────────────────────────────────

/// A style rule ready for matching: selector parsed once, with the data
/// its declared values carry.
pub struct PreparedRule {
    /// The selector as written.
    pub selector_text: String,
    /// The parsed selector.
    pub selector_list: SelectorList,
    /// Its greatest specificity.
    pub specificity: Specificity,
    /// Origin of the sheet.
    pub origin: Origin,
    /// Index of the innermost enclosing `@layer` block.
    pub layer_order: Option<usize>,
    /// The rule's declarations.
    pub declarations: Vec<SheetDeclaration>,
}

/// Prepared style sheets: style rules in document order, pruned and layered.
pub struct PreparedSheets {
    /// The rules, nested rules right after their parent.
    pub rules: Vec<PreparedRule>,
}

/// What preparation decides of a rule: selector text, origin, layer,
/// declarations and specificity.
pub type PrepView = (Seq<char>, Origin, Option<usize>, Seq<DeclView>, Specificity);

/// View of a prepared rule.
pub open spec fn prepared_view(r: PreparedRule) -> PrepView {
    (r.selector_text@, r.origin, r.layer_order, decl_views(r.declarations@), r.specificity)
}

/// Views of prepared rules.
pub open spec fn prepared_views(rs: Seq<PreparedRule>) -> Seq<PrepView> {
    Seq::new(rs.len(), |i: int| prepared_view(rs[i]))
}

/// View of an optional name.
pub open spec fn opt_name(n: Option<String>) -> Option<Seq<char>> {
    match n {
        Some(s) => Some(s@),
        None => None,
    }
}

/// Flattening a list of rules in document order, with the enclosing layer
/// `cur` and the layer state threaded through.
pub open spec fn prep_rules(rules: Seq<SheetRule>, origin: Origin, cur: Option<usize>, st: LayerState, ctx: MediaContext) -> (Seq<PrepView>, LayerState)
    decreases rules,
{
    if rules.len() == 0 {
        (seq![], st)
    } else {
        let a = prep_rules(rules.drop_last(), origin, cur, st, ctx);
        let b = prep_rule(rules[rules.len() - 1], origin, cur, a.1, ctx);
        (a.0 + b.0, b.1)
    }
}

/// Flattening one rule: a style rule whose selector parses yields itself
/// (with the specificity of its selector), then its nested rules; `@media` and `@supports` keep their rules only
/// when their condition holds; `@layer` blocks declare their layer and
/// make it current; `@layer` statements declare names; inert rules yield
/// nothing.
pub open spec fn prep_rule(rule: SheetRule, origin: Origin, cur: Option<usize>, st: LayerState, ctx: MediaContext) -> (Seq<PrepView>, LayerState)
    decreases rule,
{
    match rule {
        SheetRule::Style { selector_text, declarations, children } => {
            let own: Seq<PrepView> = if selector_text_parses(selector_text@) {
                seq![(selector_text@, origin, cur, decl_views(declarations@), text_specificity(selector_text@))]
            } else {
                seq![]
            };
            let c = prep_rules(children@, origin, cur, st, ctx);
            (own + c.0, c.1)
        },
        SheetRule::Media { condition, children } => {
            if media_list_holds(cvs_view(condition@), ctx) {
                prep_rules(children@, origin, cur, st, ctx)
            } else {
                (seq![], st)
            }
        },
        SheetRule::Supports { condition, children } => {
            if supports_holds(cvs_view(condition@)) {
                prep_rules(children@, origin, cur, st, ctx)
            } else {
                (seq![], st)
            }
        },
        SheetRule::Container { children } => prep_rules(children@, origin, cur, st, ctx),
        SheetRule::LayerBlock { name, children } => {
            let d = declare_layer(st, opt_name(name));
            prep_rules(children@, origin, Some(d.1 as usize), d.0, ctx)
        },
        SheetRule::LayerStatement { names } => (seq![], declare_layer_names(st, names@)),
        SheetRule::Scope { children } => prep_rules(children@, origin, cur, st, ctx),
        SheetRule::Other { children } => prep_rules(children@, origin, cur, st, ctx),
        SheetRule::Inert => (seq![], st),
    }
}

/// Most layer declarations a list of rules can make.
pub open spec fn layer_budget(rules: Seq<SheetRule>) -> nat
    decreases rules,
{
    if rules.len() == 0 {
        0
    } else {
        layer_budget(rules.drop_last()) + rule_layer_budget(rules[rules.len() - 1])
    }
}

/// Most layer declarations a rule can make.
pub open spec fn rule_layer_budget(rule: SheetRule) -> nat
    decreases rule,
{
    match rule {
        SheetRule::Style { children, .. } => layer_budget(children@),
        SheetRule::Media { children, .. } => layer_budget(children@),
        SheetRule::Supports { children, .. } => layer_budget(children@),
        SheetRule::Container { children } => layer_budget(children@),
        SheetRule::LayerBlock { children, .. } => 1 + layer_budget(children@),
        SheetRule::LayerStatement { names } => names@.len(),
        SheetRule::Scope { children } => layer_budget(children@),
        SheetRule::Other { children } => layer_budget(children@),
        SheetRule::Inert => 0,
    }
}

proof fn lemma_layer_budget_prefix(rules: Seq<SheetRule>, i: int)
    requires
        0 <= i <= rules.len(),
    ensures
        layer_budget(rules.take(i)) <= layer_budget(rules),
    decreases rules.len(),
{
    if i < rules.len() {
        assert(rules.drop_last().take(i) =~= rules.take(i));
        lemma_layer_budget_prefix(rules.drop_last(), i);
    } else {
        assert(rules.take(i) =~= rules);
    }
}

/// The innermost layer of a layer stack.
pub open spec fn stack_top(stack: Seq<Option<usize>>) -> Option<usize> {
    if stack.len() == 0 {
        None
    } else {
        stack.last()
    }
}

fn push_prepared(out: &mut Vec<PreparedRule>, r: PreparedRule)
    ensures
        prepared_views(final(out)@) == prepared_views(old(out)@).push(prepared_view(r)),
{
    let ghost o0 = out@;
    out.push(r);
    proof {
        assert(prepared_views(out@) =~= prepared_views(o0).push(prepared_view(r)));
    }
}

fn declare_names(names: &Vec<String>, layers: &mut LayerTracker)
    requires
        old(layers)@.0.1 + names@.len() <= usize::MAX,
    ensures
        final(layers)@.0 == declare_layer_names(old(layers)@.0, names@),
        final(layers)@.1 == old(layers)@.1,
        final(layers)@.0.1 <= old(layers)@.0.1 + names@.len(),
{
    let mut j: usize = 0;
    proof {
        assert(names@.take(0) =~= Seq::<String>::empty());
    }
    while j < names.len()
        invariant
            j <= names@.len(),
            old(layers)@.0.1 + names@.len() <= usize::MAX,
            layers@.0 == declare_layer_names(old(layers)@.0, names@.take(j as int)),
            layers@.1 == old(layers)@.1,
            layers@.0.1 <= old(layers)@.0.1 + j,
        decreases names.len() - j,
    {
        proof {
            assert(names@.take(j + 1).drop_last() =~= names@.take(j as int));
            assert(names@.take(j + 1).last() == names@[j as int]);
        }
        let _ = layers.declare(Some(names[j].as_str()));
        j += 1;
    }
    proof {
        assert(names@.take(names@.len() as int) =~= names@);
    }
}

fn prepare_rules(rules: &Vec<SheetRule>, origin: Origin, layers: &mut LayerTracker, media: &MediaContext, out: &mut Vec<PreparedRule>)
    requires
        old(layers)@.0.1 + layer_budget(rules@) <= usize::MAX,
    ensures
        prepared_views(final(out)@) == prepared_views(old(out)@) + prep_rules(rules@, origin, stack_top(old(layers)@.1), old(layers)@.0, *media).0,
        final(layers)@.0 == prep_rules(rules@, origin, stack_top(old(layers)@.1), old(layers)@.0, *media).1,
        final(layers)@.1 == old(layers)@.1,
        final(layers)@.0.1 <= old(layers)@.0.1 + layer_budget(rules@),
    decreases rules@,
{
    let ghost cur = stack_top(layers@.1);
    let ghost st0 = layers@.0;
    let ghost o0 = prepared_views(out@);
    let mut i: usize = 0;
    proof {
        assert(rules@.take(0) =~= Seq::<SheetRule>::empty());
        assert(o0 + Seq::<PrepView>::empty() =~= o0);
    }
    while i < rules.len()
        invariant
            i <= rules@.len(),
            cur == stack_top(old(layers)@.1),
            st0 == old(layers)@.0,
            o0 == prepared_views(old(out)@),
            layers@.1 == old(layers)@.1,
            st0.1 + layer_budget(rules@) <= usize::MAX,
            prepared_views(out@) == o0 + prep_rules(rules@.take(i as int), origin, cur, st0, *media).0,
            layers@.0 == prep_rules(rules@.take(i as int), origin, cur, st0, *media).1,
            layers@.0.1 <= st0.1 + layer_budget(rules@.take(i as int)),
        decreases rules.len() - i,
    {
        let ghost t1 = rules@.take(i + 1);
        proof {
            assert(t1.drop_last() =~= rules@.take(i as int));
            assert(t1[t1.len() - 1] == rules@[i as int]);
            lemma_layer_budget_prefix(rules@, i + 1);
            assert(layer_budget(t1) == layer_budget(rules@.take(i as int)) + rule_layer_budget(rules@[i as int]));
            assert(layers@.0.1 + rule_layer_budget(rules@[i as int]) <= usize::MAX);
        }
        let ghost before = prepared_views(out@);
        let ghost stb = layers@.0;
        match &rules[i] {
            SheetRule::Style { selector_text, declarations, children } => {
                match parse_selector_with_specificity(selector_text.as_str()) {
                    Some((list, sp)) => {
                        let lo = layers.current();
                        let ds = clone_declarations(declarations);
                        push_prepared(out, PreparedRule {
                            selector_text: selector_text.clone(),
                            selector_list: list,
                            specificity: sp,
                            origin,
                            layer_order: lo,
                            declarations: ds,
                        });
                    },
                    None => {},
                }
                let ghost mid = prepared_views(out@);
                prepare_rules(children, origin, layers, media, out);
                proof {
                    let own: Seq<PrepView> = if selector_text_parses(selector_text@) {
                        seq![(selector_text@, origin, cur, decl_views(declarations@), text_specificity(selector_text@))]
                    } else {
                        seq![]
                    };
                    assert(mid =~= before + own);
                }
            },
            SheetRule::Media { condition, children } => {
                if eval_media_query(media, condition.as_slice()) {
                    prepare_rules(children, origin, layers, media, out);
                }
            },
            SheetRule::Supports { condition, children } => {
                if eval_supports_condition(condition.as_slice()) {
                    prepare_rules(children, origin, layers, media, out);
                }
            },
            SheetRule::Container { children } => {
                prepare_rules(children, origin, layers, media, out);
            },
            SheetRule::LayerBlock { name, children } => {
                let n: Option<&str> = match name {
                    Some(x) => Some(x.as_str()),
                    None => None,
                };
                layers.enter(n);
                prepare_rules(children, origin, layers, media, out);
                layers.exit();
                proof {
                    assert(layers@.1 =~= old(layers)@.1);
                }
            },
            SheetRule::LayerStatement { names } => {
                declare_names(names, layers);
            },
            SheetRule::Scope { children } => {
                prepare_rules(children, origin, layers, media, out);
            },
            SheetRule::Other { children } => {
                prepare_rules(children, origin, layers, media, out);
            },
            SheetRule::Inert => {},
        }
        proof {
            let pb = prep_rule(rules@[i as int], origin, cur, stb, *media);
            assert(prepared_views(out@) =~= before + pb.0);
            assert(o0 + prep_rules(t1, origin, cur, st0, *media).0 =~= o0 + prep_rules(rules@.take(i as int), origin, cur, st0, *media).0 + pb.0);
        }
        i += 1;
    }
    proof {
        assert(rules@.take(rules@.len() as int) =~= rules@);
    }
}

/// A sheet takes part: it is neither disabled nor an alternate, and its
/// `media` list holds.
pub open spec fn sheet_applies(s: StyleSheet, ctx: MediaContext) -> bool {
    !s.disabled && !s.alternate && media_list_holds(cvs_view(s.media@), ctx)
}

/// Preparing sheets in order: layer indices are shared by all of them.
pub open spec fn prep_sheets(sheets: Seq<StyleSheet>, ctx: MediaContext) -> (Seq<PrepView>, LayerState)
    decreases sheets.len(),
{
    if sheets.len() == 0 {
        (seq![], (Map::empty(), 0nat))
    } else {
        let p = prep_sheets(sheets.drop_last(), ctx);
        let s = sheets.last();
        if sheet_applies(s, ctx) {
            let q = prep_rules(s.rules@, s.origin, None, p.1, ctx);
            (p.0 + q.0, q.1)
        } else {
            p
        }
    }
}

/// Most layer declarations a list of sheets can make.
pub open spec fn sheets_layer_budget(sheets: Seq<StyleSheet>) -> nat
    decreases sheets.len(),
{
    if sheets.len() == 0 {
        0
    } else {
        sheets_layer_budget(sheets.drop_last()) + layer_budget(sheets.last().rules@)
    }
}

proof fn lemma_sheets_budget_prefix(sheets: Seq<StyleSheet>, i: int)
    requires
        0 <= i <= sheets.len(),
    ensures
        sheets_layer_budget(sheets.take(i)) <= sheets_layer_budget(sheets),
    decreases sheets.len(),
{
    if i < sheets.len() {
        assert(sheets.drop_last().take(i) =~= sheets.take(i));
        lemma_sheets_budget_prefix(sheets.drop_last(), i);
    } else {
        assert(sheets.take(i) =~= sheets);
    }
}

fn rules_layer_budget(rules: &Vec<SheetRule>) -> (r: Option<usize>)
    ensures
        match r {
            Some(n) => n as nat == layer_budget(rules@),
            None => layer_budget(rules@) > usize::MAX,
        },
    decreases rules@,
{
    let mut total: usize = 0;
    let mut i: usize = 0;
    proof {
        assert(rules@.take(0) =~= Seq::<SheetRule>::empty());
    }
    while i < rules.len()
        invariant
            i <= rules@.len(),
            total as nat == layer_budget(rules@.take(i as int)),
        decreases rules.len() - i,
    {
        let ghost t1 = rules@.take(i + 1);
        proof {
            assert(t1.drop_last() =~= rules@.take(i as int));
            assert(t1[t1.len() - 1] == rules@[i as int]);
            lemma_layer_budget_prefix(rules@, i + 1);
            assert(layer_budget(t1) == layer_budget(rules@.take(i as int)) + rule_layer_budget(rules@[i as int]));
        }
        let own: Option<usize> = match &rules[i] {
            SheetRule::Style { children, .. } => rules_layer_budget(children),
            SheetRule::Media { children, .. } => rules_layer_budget(children),
            SheetRule::Supports { children, .. } => rules_layer_budget(children),
            SheetRule::Container { children } => rules_layer_budget(children),
            SheetRule::LayerBlock { children, .. } => match rules_layer_budget(children) {
                Some(n) => n.checked_add(1),
                None => None,
            },
            SheetRule::LayerStatement { names } => Some(names.len()),
            SheetRule::Scope { children } => rules_layer_budget(children),
            SheetRule::Other { children } => rules_layer_budget(children),
            SheetRule::Inert => Some(0),
        };
        match own {
            Some(n) => match total.checked_add(n) {
                Some(t) => {
                    total = t;
                },
                None => {
                    return None;
                },
            },
            None => {
                assert(rule_layer_budget(rules@[i as int]) > usize::MAX);
                return None;
            },
        }
        i += 1;
    }
    proof {
        assert(rules@.take(rules@.len() as int) =~= rules@);
    }
    Some(total)
}

/// How many layer declarations the sheets can make at most, or `None` when
/// that is more than `usize::MAX` (preparing them needs it to fit).
pub fn layer_declaration_bound(sheets: &[StyleSheet]) -> (r: Option<usize>)
    ensures
        match r {
            Some(n) => n as nat == sheets_layer_budget(sheets@),
            None => sheets_layer_budget(sheets@) > usize::MAX,
        },
{
    let mut total: usize = 0;
    let mut i: usize = 0;
    proof {
        assert(sheets@.take(0) =~= Seq::<StyleSheet>::empty());
    }
    while i < sheets.len()
        invariant
            i <= sheets@.len(),
            total as nat == sheets_layer_budget(sheets@.take(i as int)),
        decreases sheets.len() - i,
    {
        proof {
            assert(sheets@.take(i + 1).drop_last() =~= sheets@.take(i as int));
            assert(sheets@.take(i + 1).last() == sheets@[i as int]);
            lemma_sheets_budget_prefix(sheets@, i + 1);
        }
        match rules_layer_budget(&sheets[i].rules) {
            Some(n) => match total.checked_add(n) {
                Some(t) => {
                    total = t;
                },
                None => {
                    return None;
                },
            },
            None => {
                return None;
            },
        }
        i += 1;
    }
    proof {
        assert(sheets@.take(sheets@.len() as int) =~= sheets@);
    }
    Some(total)
}

/// Prepares style sheets against a media environment: sheets that are
/// disabled, alternate or whose `media` list fails are skipped; `@media`
/// and `@supports` groups whose condition fails are pruned; style rules
/// whose selector does not parse are dropped (their nested rules stay).
pub fn prepare_sheets_with_context(sheets: &[StyleSheet], media: &MediaContext) -> (r: PreparedSheets)
    requires
        sheets_layer_budget(sheets@) <= usize::MAX,
    ensures
        prepared_views(r.rules@) == prep_sheets(sheets@, *media).0,
{
    let mut rules: Vec<PreparedRule> = Vec::new();
    let mut layers = LayerTracker::new();
    let mut i: usize = 0;
    proof {
        assert(sheets@.take(0) =~= Seq::<StyleSheet>::empty());
        assert(prepared_views(rules@) =~= Seq::<PrepView>::empty());
    }
    while i < sheets.len()
        invariant
            i <= sheets@.len(),
            sheets_layer_budget(sheets@) <= usize::MAX,
            layers@.1 == Seq::<Option<usize>>::empty(),
            prepared_views(rules@) == prep_sheets(sheets@.take(i as int), *media).0,
            layers@.0 == prep_sheets(sheets@.take(i as int), *media).1,
            layers@.0.1 <= sheets_layer_budget(sheets@.take(i as int)),
        decreases sheets.len() - i,
    {
        proof {
            assert(sheets@.take(i + 1).drop_last() =~= sheets@.take(i as int));
            assert(sheets@.take(i + 1).last() == sheets@[i as int]);
            lemma_sheets_budget_prefix(sheets@, i + 1);
        }
        let sheet = &sheets[i];
        if !sheet.disabled && !sheet.alternate && eval_media_query(media, sheet.media.as_slice()) {
            prepare_rules(&sheet.rules, sheet.origin, &mut layers, media, &mut rules);
        }
        i += 1;
    }
    proof {
        assert(sheets@.take(sheets@.len() as int) =~= sheets@);
    }
    PreparedSheets { rules }
}

/// Prepares style sheets for the default media environment (a 1920×1080
/// screen).
pub fn prepare_sheets(sheets: &[StyleSheet]) -> (r: PreparedSheets)
    requires
        sheets_layer_budget(sheets@) <= usize::MAX,
    ensures
        prepared_views(r.rules@) == prep_sheets(sheets@, default_media()).0,
{
    let media = MediaContext::default();
    prepare_sheets_with_context(sheets, &media)
}

// ── declared values ──────────────────────────────────────────────────────

/// A property name as the cascade keys it: custom properties as written,
/// registered properties in ASCII lower case, others dropped.
pub open spec fn normalize_name(n: Seq<char>) -> Option<Seq<char>> {
    if has_dashdash_prefix(n) {
        Some(n)
    } else if is_registered(n) {
        Some(ascii_lower(n))
    } else {
        None
    }
}

/// `gap: <row-gap> <column-gap>?`: the first two non-whitespace values; a
/// single value serves both axes.
pub open spec fn gap_parts(v: Seq<CvView>) -> (Seq<CvView>, Seq<CvView>) {
    let p = strip_ws(v);
    if p.len() == 0 {
        (seq![], seq![])
    } else if p.len() == 1 {
        (seq![p[0]], seq![p[0]])
    } else {
        (seq![p[0]], seq![p[1]])
    }
}

/// A declared value with the given fields.
pub open spec fn mk_declared(p: Seq<char>, v: Seq<CvView>, important: bool, origin: Origin, specificity: Specificity, order: nat, layer_order: Option<usize>, attr: bool) -> DeclaredView {
    DeclaredView { property: p, value: v, important, origin, specificity, order, from_style_attr: attr, layer_order }
}

/// The longhand declarations that a declaration named `n` with value `v`
/// stands for: `None` for a custom property or a name that is no
/// shorthand (shorthand names match ASCII case-insensitively).
pub open spec fn longhand_expansion(n: Seq<char>, v: Seq<CvView>) -> Option<Seq<(Seq<char>, Seq<CvView>)>> {
    if has_dashdash_prefix(n) {
        None
    } else {
        shorthand_entries(ascii_lower(n), v)
    }
}

/// What one declaration contributes: a shorthand its longhands (none when
/// its value is invalid), nothing for an unknown property, a `row-gap`
/// and a `column-gap` for `gap`, else itself under its normalised name.
pub open spec fn declared_entries(d: DeclView, origin: Origin, specificity: Specificity, order: nat, layer_order: Option<usize>, attr: bool) -> Seq<DeclaredView> {
    match longhand_expansion(d.0, d.1) {
        Some(es) => Seq::new(es.len(), |i: int| mk_declared(es[i].0, es[i].1, d.2, origin, specificity, order, layer_order, attr)),
        None => match normalize_name(d.0) {
            None => seq![],
            Some(p) => {
                if p == "gap"@ {
                    let g = gap_parts(d.1);
                    seq![
                        mk_declared("row-gap"@, g.0, d.2, origin, specificity, order, layer_order, attr),
                        mk_declared("column-gap"@, g.1, d.2, origin, specificity, order, layer_order, attr),
                    ]
                } else {
                    seq![mk_declared(p, d.1, d.2, origin, specificity, order, layer_order, attr)]
                }
            },
        },
    }
}

/// The declarations of one block, numbered `start + 1`, `start + 2`, …
pub open spec fn decl_block(ds: Seq<DeclView>, origin: Origin, specificity: Specificity, layer_order: Option<usize>, attr: bool, start: nat) -> Seq<DeclaredView>
    decreases ds.len(),
{
    if ds.len() == 0 {
        seq![]
    } else {
        decl_block(ds.drop_last(), origin, specificity, layer_order, attr, start)
            + declared_entries(ds.last(), origin, specificity, start + ds.len(), layer_order, attr)
    }
}

/// The declarations of the rules marked matched, in order, numbered from
/// `start + 1` over every declaration of a matched rule; also the last
/// number used.
pub open spec fn matched_decls(rules: Seq<PreparedRule>, m: Seq<bool>, start: nat) -> (Seq<DeclaredView>, nat)
    decreases rules.len(),
{
    if rules.len() == 0 {
        (seq![], start)
    } else {
        let a = matched_decls(rules.drop_last(), m, start);
        let r = rules.last();
        if m[rules.len() - 1] {
            (a.0 + decl_block(decl_views(r.declarations@), r.origin, r.specificity, r.layer_order, false, a.1), a.1 + r.declarations@.len())
        } else {
            a
        }
    }
}

/// The declared values of an element, given which prepared rules match it
/// and the declarations of its `style` attribute (author origin,
/// specificity `(0,0,0)`, no layer, numbered after the sheets).
pub open spec fn collect_spec(rules: Seq<PreparedRule>, m: Seq<bool>, inline: Seq<SheetDeclaration>) -> Seq<DeclaredView> {
    let a = matched_decls(rules, m, 0);
    a.0 + decl_block(decl_views(inline), Origin::Author, Specificity { a: 0, b: 0, c: 0 }, None, true, a.1)
}

/// How many declarations the prepared rules hold.
pub open spec fn decl_total(rules: Seq<PreparedRule>) -> nat
    decreases rules.len(),
{
    if rules.len() == 0 {
        0
    } else {
        decl_total(rules.drop_last()) + rules.last().declarations@.len()
    }
}

proof fn lemma_decl_total_prefix(rules: Seq<PreparedRule>, i: int)
    requires
        0 <= i <= rules.len(),
    ensures
        decl_total(rules.take(i)) <= decl_total(rules),
    decreases rules.len(),
{
    if i < rules.len() {
        assert(rules.drop_last().take(i) =~= rules.take(i));
        lemma_decl_total_prefix(rules.drop_last(), i);
    } else {
        assert(rules.take(i) =~= rules);
    }
}

proof fn lemma_matched_bound(rules: Seq<PreparedRule>, m: Seq<bool>, start: nat)
    ensures
        matched_decls(rules, m, start).1 <= start + decl_total(rules),
    decreases rules.len(),
{
    if rules.len() > 0 {
        lemma_matched_bound(rules.drop_last(), m, start);
    }
}

/// Normalises a property name for the cascade: custom properties (`--*`)
/// keep their case, registered properties are lower-cased, unknown
/// properties give `None` (their declarations are dropped).
pub fn normalize_property_name(name: &str) -> (r: Option<String>)
    ensures
        match r {
            Some(s) => normalize_name(name@) == Some(s@),
            None => normalize_name(name@) is None,
        },
{
    if starts_with_dashdash(name) {
        Some(owned(name))
    } else if lookup_property(name).is_some() {
        Some(to_ascii_lowercase(name))
    } else {
        None
    }
}

/// Splits a `gap` value into its row and column parts.
pub fn split_gap_value(value: &[ComponentValue]) -> (r: (Vec<ComponentValue>, Vec<ComponentValue>))
    ensures
        (cvs_view(r.0@), cvs_view(r.1@)) == gap_parts(cvs_view(value@)),
{
    let parts = strip_ws_vec(value);
    proof {
        lemma_cvs_view_len(parts@);
    }
    let mut row: Vec<ComponentValue> = Vec::new();
    let mut col: Vec<ComponentValue> = Vec::new();
    if parts.len() >= 1 {
        proof {
            lemma_cvs_view_index(parts@, 0);
        }
        row.push(clone_cv(&parts[0]));
        if parts.len() == 1 {
            col.push(clone_cv(&parts[0]));
        } else {
            proof {
                lemma_cvs_view_index(parts@, 1);
            }
            col.push(clone_cv(&parts[1]));
        }
        proof {
            crate::token::lemma_cvs_view_push(Seq::<ComponentValue>::empty(), row@[0]);
            crate::token::lemma_cvs_view_push(Seq::<ComponentValue>::empty(), col@[0]);
            assert(Seq::<ComponentValue>::empty().push(row@[0]) =~= row@);
            assert(Seq::<ComponentValue>::empty().push(col@[0]) =~= col@);
        }
    } else {
        proof {
            assert(cvs_view(row@) =~= Seq::<CvView>::empty());
        }
    }
    (row, col)
}

fn push_view(result: &mut Vec<DeclaredValue>, d: DeclaredValue)
    ensures
        declared_views(final(result)@) == declared_views(old(result)@).push(declared_view(d)),
{
    let ghost r0 = result@;
    result.push(d);
    proof {
        assert(declared_views(result@) =~= declared_views(r0).push(declared_view(d)));
    }
}

/// Adds what one declaration contributes (see [`declared_entries`]).
fn push_declared(result: &mut Vec<DeclaredValue>, order: usize, d: &SheetDeclaration, origin: Origin, specificity: Specificity, layer_order: Option<usize>, from_style_attr: bool)
    ensures
        declared_views(final(result)@) == declared_views(old(result)@) + declared_entries(decl_view(*d), origin, specificity, order as nat, layer_order, from_style_attr),
{
    let ghost r0 = declared_views(result@);
    if !starts_with_dashdash(d.name.as_str()) {
        let lower = to_ascii_lowercase(d.name.as_str());
        if let Some(es) = expand_shorthand(lower.as_str(), d.value.as_slice()) {
            let ghost ev = entry_views(es@);
            let ghost want = declared_entries(decl_view(*d), origin, specificity, order as nat, layer_order, from_style_attr);
            assert(want.len() == ev.len());
            let mut k: usize = 0;
            while k < es.len()
                invariant
                    k <= es@.len(),
                    ev == entry_views(es@),
                    want.len() == es@.len(),
                    forall|i: int| 0 <= i < es@.len() ==> #[trigger] want[i] == mk_declared(ev[i].0, ev[i].1, d.important, origin, specificity, order as nat, layer_order, from_style_attr),
                    declared_views(result@) == r0 + want.take(k as int),
                decreases es.len() - k,
            {
                let ghost mid = declared_views(result@);
                let dv = DeclaredValue {
                    property: owned(es[k].0.as_str()),
                    value: clone_cvs(es[k].1.as_slice()),
                    important: d.important,
                    origin,
                    specificity,
                    order,
                    from_style_attr,
                    layer_order,
                };
                push_view(result, dv);
                proof {
                    assert(want.take(k + 1) =~= want.take(k as int).push(want[k as int]));
                    assert(declared_views(result@) =~= r0 + want.take(k + 1));
                }
                k += 1;
            }
            proof {
                assert(want.take(es@.len() as int) =~= want);
            }
            return;
        }
    }
    let property = match normalize_property_name(d.name.as_str()) {
        Some(p) => p,
        None => {
            proof {
                assert(r0 + Seq::<DeclaredView>::empty() =~= r0);
            }
            return;
        },
    };
    if str_eq(property.as_str(), "gap") {
        let (row, col) = split_gap_value(d.value.as_slice());
        let d1 = DeclaredValue {
            property: owned("row-gap"),
            value: row,
            important: d.important,
            origin,
            specificity,
            order,
            from_style_attr,
            layer_order,
        };
        push_view(result, d1);
        let d2 = DeclaredValue {
            property: owned("column-gap"),
            value: col,
            important: d.important,
            origin,
            specificity,
            order,
            from_style_attr,
            layer_order,
        };
        push_view(result, d2);
        proof {
            assert(declared_views(result@) =~= r0 + declared_entries(decl_view(*d), origin, specificity, order as nat, layer_order, from_style_attr));
        }
    } else {
        let d1 = DeclaredValue {
            property,
            value: clone_cvs(d.value.as_slice()),
            important: d.important,
            origin,
            specificity,
            order,
            from_style_attr,
            layer_order,
        };
        push_view(result, d1);
        proof {
            assert(declared_views(result@) =~= r0 + declared_entries(decl_view(*d), origin, specificity, order as nat, layer_order, from_style_attr));
        }
    }
}

/// Adds the declarations of one block, numbering them from `order + 1`;
/// returns the last number used.
fn push_block(result: &mut Vec<DeclaredValue>, order: usize, ds: &[SheetDeclaration], origin: Origin, specificity: Specificity, layer_order: Option<usize>, from_style_attr: bool) -> (r: usize)
    requires
        order + ds@.len() <= usize::MAX,
    ensures
        declared_views(final(result)@) == declared_views(old(result)@) + decl_block(decl_views(ds@), origin, specificity, layer_order, from_style_attr, order as nat),
        r == order + ds@.len(),
{
    let ghost r0 = declared_views(result@);
    let ghost dv = decl_views(ds@);
    let mut n: usize = order;
    let mut j: usize = 0;
    proof {
        assert(dv.take(0) =~= Seq::<DeclView>::empty());
        assert(r0 + Seq::<DeclaredView>::empty() =~= r0);
    }
    while j < ds.len()
        invariant
            j <= ds@.len(),
            order + ds@.len() <= usize::MAX,
            dv == decl_views(ds@),
            n == order + j,
            declared_views(result@) == r0 + decl_block(dv.take(j as int), origin, specificity, layer_order, from_style_attr, order as nat),
        decreases ds.len() - j,
    {
        proof {
            assert(dv.take(j + 1).drop_last() =~= dv.take(j as int));
            assert(dv.take(j + 1).last() == decl_view(ds@[j as int]));
        }
        n = n + 1;
        let ghost mid = declared_views(result@);
        push_declared(result, n, &ds[j], origin, specificity, layer_order, from_style_attr);
        proof {
            assert(declared_views(result@) =~= r0 + decl_block(dv.take(j + 1), origin, specificity, layer_order, from_style_attr, order as nat));
        }
        j += 1;
    }
    proof {
        assert(dv.take(ds@.len() as int) =~= dv);
    }
    n
}

/// The declared values of an element given which prepared rules match it
/// (`matched[i]` for rule `i`) and its `style` attribute's declarations.
pub fn declared_values_for(prepared: &PreparedSheets, matched: &[bool], inline: &[SheetDeclaration]) -> (r: Vec<DeclaredValue>)
    requires
        matched@.len() == prepared.rules@.len(),
        decl_total(prepared.rules@) + inline@.len() < usize::MAX,
    ensures
        declared_views(r@) == collect_spec(prepared.rules@, matched@, inline@),
{
    let ghost rules = prepared.rules@;
    let mut result: Vec<DeclaredValue> = Vec::new();
    let mut order: usize = 0;
    let mut i: usize = 0;
    proof {
        assert(rules.take(0) =~= Seq::<PreparedRule>::empty());
        assert(declared_views(result@) =~= Seq::<DeclaredView>::empty());
    }
    while i < prepared.rules.len()
        invariant
            i <= rules.len(),
            rules == prepared.rules@,
            matched@.len() == rules.len(),
            decl_total(rules) + inline@.len() < usize::MAX,
            (declared_views(result@), order as nat) == matched_decls(rules.take(i as int), matched@, 0),
        decreases rules.len() - i,
    {
        let ghost t1 = rules.take(i + 1);
        proof {
            assert(t1.drop_last() =~= rules.take(i as int));
            assert(t1.last() == rules[i as int]);
            lemma_matched_bound(rules.take(i as int), matched@, 0);
            lemma_decl_total_prefix(rules, i + 1);
        }
        let rule = &prepared.rules[i];
        if matched[i] {
            order = push_block(&mut result, order, rule.declarations.as_slice(), rule.origin, rule.specificity, rule.layer_order, false);
        }
        i += 1;
    }
    proof {
        assert(rules.take(rules.len() as int) =~= rules);
        lemma_matched_bound(rules, matched@, 0);
    }
    let _ = push_block(&mut result, order, inline, Origin::Author, Specificity::new(0, 0, 0), None, true);
    result
}

/// Collects an element's declared values from prepared sheets: the
/// declarations of the rules whose selector matches it, in order, then
/// those of its `style` attribute.
pub fn collect_declared_values_prepared(element: &DomElement, prepared: &PreparedSheets, inline: &[SheetDeclaration]) -> (r: Vec<DeclaredValue>)
    requires
        decl_total(prepared.rules@) + inline@.len() < usize::MAX,
    ensures
        exists|m: Seq<bool>| m.len() == prepared.rules@.len() && declared_views(r@) == #[trigger] collect_spec(prepared.rules@, m, inline@),
{
    let mut matched: Vec<bool> = Vec::new();
    let mut i: usize = 0;
    while i < prepared.rules.len()
        invariant
            i <= prepared.rules@.len(),
            matched@.len() == i,
        decreases prepared.rules.len() - i,
    {
        matched.push(element_matches(&prepared.rules[i].selector_list, element));
        i += 1;
    }
    let r = declared_values_for(prepared, matched.as_slice(), inline);
    assert(collect_spec(prepared.rules@, matched@, inline@) == declared_views(r@));
    r
}

/// How many declarations prepared rule views hold.
pub open spec fn views_decl_total(vs: Seq<PrepView>) -> nat
    decreases vs.len(),
{
    if vs.len() == 0 {
        0
    } else {
        views_decl_total(vs.drop_last()) + vs.last().3.len()
    }
}

/// The declaration count of prepared rules is that of their views.
pub proof fn lemma_views_decl_total(rules: Seq<PreparedRule>)
    ensures
        views_decl_total(prepared_views(rules)) == decl_total(rules),
    decreases rules.len(),
{
    if rules.len() > 0 {
        lemma_views_decl_total(rules.drop_last());
        assert(prepared_views(rules).drop_last() =~= prepared_views(rules.drop_last()));
    }
}

impl PreparedSheets {
    /// Number of declarations in the prepared rules, or `None` when it
    /// exceeds `usize::MAX`.
    pub fn declaration_total(&self) -> (r: Option<usize>)
        ensures
            match r {
                Some(n) => n as nat == decl_total(self.rules@),
                None => decl_total(self.rules@) > usize::MAX,
            },
    {
        let mut total: usize = 0;
        let mut i: usize = 0;
        proof {
            assert(self.rules@.take(0) =~= Seq::<PreparedRule>::empty());
        }
        while i < self.rules.len()
            invariant
                i <= self.rules@.len(),
                total as nat == decl_total(self.rules@.take(i as int)),
            decreases self.rules.len() - i,
        {
            proof {
                assert(self.rules@.take(i + 1).drop_last() =~= self.rules@.take(i as int));
                lemma_decl_total_prefix(self.rules@, i + 1);
            }
            match total.checked_add(self.rules[i].declarations.len()) {
                Some(t) => {
                    total = t;
                },
                None => {
                    return None;
                },
            }
            i += 1;
        }
        proof {
            assert(self.rules@.take(self.rules@.len() as int) =~= self.rules@);
        }
        Some(total)
    }
}

/// Collects an element's declared values from style sheets prepared for
/// the default media environment (see [`prepare_sheets`]).
pub fn collect_declared_values(element: &DomElement, sheets: &[StyleSheet], inline: &[SheetDeclaration]) -> (r: Vec<DeclaredValue>)
    requires
        sheets_layer_budget(sheets@) <= usize::MAX,
        views_decl_total(prep_sheets(sheets@, default_media()).0) + inline@.len() < usize::MAX,
    ensures
        exists|p: Seq<PreparedRule>, m: Seq<bool>|
            #![trigger collect_spec(p, m, inline@)]
            prepared_views(p) == prep_sheets(sheets@, default_media()).0
            && m.len() == p.len() && declared_views(r@) == collect_spec(p, m, inline@),
{
    let prepared = prepare_sheets(sheets);
    proof {
        lemma_views_decl_total(prepared.rules@);
    }
    let r = collect_declared_values_prepared(element, &prepared, inline);
    r
}

/// The text of an optional `style` attribute.
pub open spec fn opt_text(t: Option<&str>) -> Option<Seq<char>> {
    match t {
        Some(x) => Some(x@),
        None => None,
    }
}

/// The declarations of an optional `style` attribute.
pub open spec fn style_decls(t: Option<Seq<char>>) -> Seq<DeclView> {
    match t {
        Some(x) => style_text_declarations(x),
        None => seq![],
    }
}

pub(crate) fn parse_style_opt(style_attr: Option<&str>) -> (r: Vec<SheetDeclaration>)
    ensures
        decl_views(r@) == style_decls(opt_text(style_attr)),
{
    match style_attr {
        Some(t) => parse_style_attribute(t),
        None => {
            let v: Vec<SheetDeclaration> = Vec::new();
            assert(decl_views(v@) =~= Seq::<DeclView>::empty());
            v
        },
    }
}

/// Collects an element's declared values from prepared sheets and the
/// text of its `style` attribute (parsed by [`parse_style_attribute`]):
/// `None` when the declarations are too many to number.
pub fn collect_declared_values_with_style(element: &DomElement, prepared: &PreparedSheets, style_attr: Option<&str>) -> (r: Option<Vec<DeclaredValue>>)
    ensures
        r is Some <==> decl_total(prepared.rules@) + style_decls(opt_text(style_attr)).len() < usize::MAX,
        r matches Some(v) ==> exists|m: Seq<bool>, inline: Seq<SheetDeclaration>|
            #![trigger collect_spec(prepared.rules@, m, inline)]
            m.len() == prepared.rules@.len() && decl_views(inline) == style_decls(opt_text(style_attr))
            && declared_views(v@) == collect_spec(prepared.rules@, m, inline),
{
    let inline = parse_style_opt(style_attr);
    let total = match prepared.declaration_total() {
        Some(n) => n,
        None => {
            return None;
        },
    };
    if total >= usize::MAX - inline.len() {
        return None;
    }
    let r = collect_declared_values_prepared(element, prepared, inline.as_slice());
    let ghost m = choose|m: Seq<bool>| m.len() == prepared.rules@.len() && declared_views(r@) == #[trigger] collect_spec(prepared.rules@, m, inline@);
    assert(m.len() == prepared.rules@.len() && decl_views(inline@) == style_decls(opt_text(style_attr))
        && declared_views(r@) == collect_spec(prepared.rules@, m, inline@));
    Some(r)
}

/// Collects an element's declared values from style sheets (prepared for
/// the default media environment) and the text of its `style` attribute:
/// `None` when the sheets declare more layers, or the sheets and the
/// attribute more declarations, than can be numbered.
pub fn collect_declared_values_checked(element: &DomElement, sheets: &[StyleSheet], style_attr: Option<&str>) -> (r: Option<Vec<DeclaredValue>>)
    ensures
        r is Some <==> (sheets_layer_budget(sheets@) <= usize::MAX
            && views_decl_total(prep_sheets(sheets@, default_media()).0) + style_decls(opt_text(style_attr)).len() < usize::MAX),
        r matches Some(v) ==> exists|p: Seq<PreparedRule>, m: Seq<bool>, inline: Seq<SheetDeclaration>|
            #![trigger collect_spec(p, m, inline)]
            prepared_views(p) == prep_sheets(sheets@, default_media()).0 && m.len() == p.len()
            && decl_views(inline) == style_decls(opt_text(style_attr)) && declared_views(v@) == collect_spec(p, m, inline),
{
    if layer_declaration_bound(sheets).is_none() {
        return None;
    }
    let inline = parse_style_opt(style_attr);
    let prepared = prepare_sheets(sheets);
    proof {
        lemma_views_decl_total(prepared.rules@);
    }
    let total = match prepared.declaration_total() {
        Some(n) => n,
        None => {
            return None;
        },
    };
    if total >= usize::MAX - inline.len() {
        return None;
    }
    let r = collect_declared_values(element, sheets, inline.as_slice());
    let ghost pm = choose|p: Seq<PreparedRule>, m: Seq<bool>|
        prepared_views(p) == prep_sheets(sheets@, default_media()).0 && m.len() == p.len() && declared_views(r@) == #[trigger] collect_spec(p, m, inline@);
    assert(prepared_views(pm.0) == prep_sheets(sheets@, default_media()).0 && pm.1.len() == pm.0.len()
        && decl_views(inline@) == style_decls(opt_text(style_attr)) && declared_views(r@) == collect_spec(pm.0, pm.1, inline@));
    Some(r)
}

// ── laws ─────────────────────────────────────────────────────────────────

/// Law: declaring a named layer again gives the index it got first, and an
/// anonymous layer always gets a fresh index.
pub proof fn lemma_layer_index_stable(st: LayerState, n: Seq<char>)
    ensures
        declare_layer(declare_layer(st, Some(n)).0, Some(n)).1 == declare_layer(st, Some(n)).1,
        declare_layer(declare_layer(st, Some(n)).0, Some(n)).0 == declare_layer(st, Some(n)).0,
        declare_layer(st, None).1 == st.1,
        declare_layer(st, None).0.1 == st.1 + 1,
{
}

/// A property name that can key a declared value: a custom property, one
/// of the `gap` longhands, a longhand that a shorthand sets, or the
/// lower-case form of a registered name other than `gap`.
pub open spec fn is_cascade_property(p: Seq<char>) -> bool {
    &&& p != "gap"@
    &&& (has_dashdash_prefix(p) || p == "row-gap"@ || p == "column-gap"@ || is_longhand_name(p)
        || exists|n: Seq<char>| is_registered(n) && p == #[trigger] ascii_lower(n))
}

proof fn lemma_entries_cascade_property(d: DeclView, origin: Origin, sp: Specificity, order: nat, lo: Option<usize>, attr: bool)
    ensures
        forall|i: int| 0 <= i < declared_entries(d, origin, sp, order, lo, attr).len() ==> {
            let e = #[trigger] declared_entries(d, origin, sp, order, lo, attr)[i];
            &&& is_cascade_property(e.property)
            &&& e.order == order
            &&& e.from_style_attr == attr
        },
{
    reveal_strlit("gap");
    reveal_strlit("row-gap");
    reveal_strlit("column-gap");
    assert("gap"@[0] == 'g');
    assert("row-gap"@.len() == 7 && "column-gap"@.len() == 10 && "gap"@.len() == 3);
    if let Some(es) = longhand_expansion(d.0, d.1) {
        lemma_expansion_sets_longhands(ascii_lower(d.0), d.1);
        assert forall|i: int| 0 <= i < es.len() implies is_cascade_property((#[trigger] es[i]).0) by {
            lemma_longhand_is_not_gap(es[i].0);
        }
    } else {
        match normalize_name(d.0) {
            None => {},
            Some(p) => {
                if has_dashdash_prefix(d.0) {
                    assert(p == d.0);
                    assert(p != "gap"@);
                    assert(is_cascade_property(p));
                } else if p != "gap"@ {
                    assert(is_registered(d.0) && p == ascii_lower(d.0));
                    assert(is_cascade_property(p));
                } else {
                    assert(is_cascade_property("row-gap"@));
                    assert(is_cascade_property("column-gap"@));
                }
            },
        }
    }
}

proof fn lemma_block_entries(ds: Seq<DeclView>, origin: Origin, sp: Specificity, lo: Option<usize>, attr: bool, start: nat)
    ensures
        forall|i: int| 0 <= i < decl_block(ds, origin, sp, lo, attr, start).len() ==> {
            let e = #[trigger] decl_block(ds, origin, sp, lo, attr, start)[i];
            &&& is_cascade_property(e.property)
            &&& start < e.order <= start + ds.len()
            &&& e.from_style_attr == attr
        },
    decreases ds.len(),
{
    if ds.len() > 0 {
        lemma_block_entries(ds.drop_last(), origin, sp, lo, attr, start);
        lemma_entries_cascade_property(ds.last(), origin, sp, start + ds.len(), lo, attr);
        let a = decl_block(ds.drop_last(), origin, sp, lo, attr, start);
        let b = declared_entries(ds.last(), origin, sp, start + ds.len(), lo, attr);
        assert forall|i: int| 0 <= i < (a + b).len() implies {
            let e = #[trigger] (a + b)[i];
            &&& is_cascade_property(e.property)
            &&& start < e.order <= start + ds.len()
            &&& e.from_style_attr == attr
        } by {
            if i < a.len() {
                assert((a + b)[i] == a[i]);
            } else {
                assert((a + b)[i] == b[i - a.len()]);
            }
        }
    }
}

proof fn lemma_matched_entries(rules: Seq<PreparedRule>, m: Seq<bool>, start: nat)
    ensures
        start <= matched_decls(rules, m, start).1,
        forall|i: int| 0 <= i < matched_decls(rules, m, start).0.len() ==> {
            let e = #[trigger] matched_decls(rules, m, start).0[i];
            &&& is_cascade_property(e.property)
            &&& start < e.order <= matched_decls(rules, m, start).1
            &&& !e.from_style_attr
        },
    decreases rules.len(),
{
    if rules.len() > 0 {
        lemma_matched_entries(rules.drop_last(), m, start);
        let a = matched_decls(rules.drop_last(), m, start);
        let r = rules.last();
        if m[rules.len() - 1] {
            lemma_block_entries(decl_views(r.declarations@), r.origin, r.specificity, r.layer_order, false, a.1);
            let b = decl_block(decl_views(r.declarations@), r.origin, r.specificity, r.layer_order, false, a.1);
            assert forall|i: int| 0 <= i < (a.0 + b).len() implies {
                let e = #[trigger] (a.0 + b)[i];
                &&& is_cascade_property(e.property)
                &&& start < e.order <= a.1 + r.declarations@.len()
                &&& !e.from_style_attr
            } by {
                if i < a.0.len() {
                    assert((a.0 + b)[i] == a.0[i]);
                } else {
                    assert((a.0 + b)[i] == b[i - a.0.len()]);
                }
            }
        }
    }
}

/// Law: every declared value is keyed by a custom property, a registered
/// property (lower-cased) or a longhand of a shorthand; unknown properties
/// are dropped, and `gap` and the shorthands are replaced by their
/// longhands.
pub proof fn lemma_declared_properties_normalised(rules: Seq<PreparedRule>, m: Seq<bool>, inline: Seq<SheetDeclaration>)
    ensures
        forall|i: int| 0 <= i < collect_spec(rules, m, inline).len() ==> is_cascade_property(#[trigger] collect_spec(rules, m, inline)[i].property),
{
    lemma_matched_entries(rules, m, 0);
    let a = matched_decls(rules, m, 0);
    lemma_block_entries(decl_views(inline), Origin::Author, Specificity { a: 0, b: 0, c: 0 }, None, true, a.1);
    let b = decl_block(decl_views(inline), Origin::Author, Specificity { a: 0, b: 0, c: 0 }, None, true, a.1);
    assert forall|i: int| 0 <= i < (a.0 + b).len() implies is_cascade_property(#[trigger] (a.0 + b)[i].property) by {
        if i < a.0.len() {
            assert((a.0 + b)[i] == a.0[i]);
        } else {
            assert((a.0 + b)[i] == b[i - a.0.len()]);
        }
    }
}

/// Law: declarations of the `style` attribute come after
/// every declaration of the style sheets in document order.
pub proof fn lemma_style_attribute_orders_last(rules: Seq<PreparedRule>, m: Seq<bool>, inline: Seq<SheetDeclaration>)
    ensures
        forall|i: int, j: int|
            0 <= i < collect_spec(rules, m, inline).len() && 0 <= j < collect_spec(rules, m, inline).len()
                && (#[trigger] collect_spec(rules, m, inline)[i]).from_style_attr && !(#[trigger] collect_spec(rules, m, inline)[j]).from_style_attr
                ==> collect_spec(rules, m, inline)[i].order > collect_spec(rules, m, inline)[j].order,
{
    lemma_matched_entries(rules, m, 0);
    let a = matched_decls(rules, m, 0);
    lemma_block_entries(decl_views(inline), Origin::Author, Specificity { a: 0, b: 0, c: 0 }, None, true, a.1);
    let b = decl_block(decl_views(inline), Origin::Author, Specificity { a: 0, b: 0, c: 0 }, None, true, a.1);
    let out = a.0 + b;
    assert forall|i: int, j: int| 0 <= i < out.len() && 0 <= j < out.len() && out[i].from_style_attr && !out[j].from_style_attr implies out[i].order > out[j].order by {
        if i < a.0.len() {
            assert(out[i] == a.0[i]);
        } else {
            assert(out[i] == b[i - a.0.len()]);
        }
        if j < a.0.len() {
            assert(out[j] == a.0[j]);
        } else {
            assert(out[j] == b[j - a.0.len()]);
        }
    }
}

/// Law: a sheet that does not apply (disabled, alternate, or with a
/// `media` list that fails) contributes no rules and declares no layers.
pub proof fn lemma_inapplicable_sheet_is_inert(sheets: Seq<StyleSheet>, s: StyleSheet, ctx: MediaContext)
    requires
        !sheet_applies(s, ctx),
    ensures
        prep_sheets(sheets.push(s), ctx) == prep_sheets(sheets, ctx),
{
    assert(sheets.push(s).drop_last() =~= sheets);
}

proof fn lemma_block_orders_sorted(ds: Seq<DeclView>, origin: Origin, sp: Specificity, lo: Option<usize>, attr: bool, start: nat)
    ensures
        forall|i: int, j: int| 0 <= i < j < decl_block(ds, origin, sp, lo, attr, start).len()
            ==> (#[trigger] decl_block(ds, origin, sp, lo, attr, start)[i]).order <= (#[trigger] decl_block(ds, origin, sp, lo, attr, start)[j]).order,
    decreases ds.len(),
{
    if ds.len() > 0 {
        lemma_block_orders_sorted(ds.drop_last(), origin, sp, lo, attr, start);
        lemma_block_entries(ds.drop_last(), origin, sp, lo, attr, start);
        lemma_entries_cascade_property(ds.last(), origin, sp, start + ds.len(), lo, attr);
        let a = decl_block(ds.drop_last(), origin, sp, lo, attr, start);
        let b = declared_entries(ds.last(), origin, sp, start + ds.len(), lo, attr);
        assert forall|i: int, j: int| 0 <= i < j < (a + b).len() implies (#[trigger] (a + b)[i]).order <= (#[trigger] (a + b)[j]).order by {
            if j < a.len() {
                assert((a + b)[i] == a[i] && (a + b)[j] == a[j]);
            } else if i < a.len() {
                assert((a + b)[i] == a[i] && (a + b)[j] == b[j - a.len()]);
            } else {
                assert((a + b)[i] == b[i - a.len()] && (a + b)[j] == b[j - a.len()]);
            }
        }
    }
}

proof fn lemma_matched_orders_sorted(rules: Seq<PreparedRule>, m: Seq<bool>, start: nat)
    ensures
        forall|i: int, j: int| 0 <= i < j < matched_decls(rules, m, start).0.len()
            ==> (#[trigger] matched_decls(rules, m, start).0[i]).order <= (#[trigger] matched_decls(rules, m, start).0[j]).order,
    decreases rules.len(),
{
    if rules.len() > 0 {
        lemma_matched_orders_sorted(rules.drop_last(), m, start);
        lemma_matched_entries(rules.drop_last(), m, start);
        let a = matched_decls(rules.drop_last(), m, start);
        let r = rules.last();
        if m[rules.len() - 1] {
            let dv = decl_views(r.declarations@);
            lemma_block_orders_sorted(dv, r.origin, r.specificity, r.layer_order, false, a.1);
            lemma_block_entries(dv, r.origin, r.specificity, r.layer_order, false, a.1);
            let b = decl_block(dv, r.origin, r.specificity, r.layer_order, false, a.1);
            assert forall|i: int, j: int| 0 <= i < j < (a.0 + b).len() implies (#[trigger] (a.0 + b)[i]).order <= (#[trigger] (a.0 + b)[j]).order by {
                if j < a.0.len() {
                    assert((a.0 + b)[i] == a.0[i] && (a.0 + b)[j] == a.0[j]);
                } else if i < a.0.len() {
                    assert((a.0 + b)[i] == a.0[i] && (a.0 + b)[j] == b[j - a.0.len()]);
                } else {
                    assert((a.0 + b)[i] == b[i - a.0.len()] && (a.0 + b)[j] == b[j - a.0.len()]);
                }
            }
        }
    }
}

/// Law: declared values come out in document order: their order numbers
/// never decrease along the list (the values one declaration expands to,
/// `gap` or a shorthand, share a number).
pub proof fn lemma_declared_in_document_order(rules: Seq<PreparedRule>, m: Seq<bool>, inline: Seq<SheetDeclaration>)
    ensures
        forall|i: int, j: int| 0 <= i < j < collect_spec(rules, m, inline).len()
            ==> (#[trigger] collect_spec(rules, m, inline)[i]).order <= (#[trigger] collect_spec(rules, m, inline)[j]).order,
{
    lemma_matched_orders_sorted(rules, m, 0);
    lemma_matched_entries(rules, m, 0);
    let a = matched_decls(rules, m, 0);
    let sp = Specificity { a: 0, b: 0, c: 0 };
    lemma_block_orders_sorted(decl_views(inline), Origin::Author, sp, None, true, a.1);
    lemma_block_entries(decl_views(inline), Origin::Author, sp, None, true, a.1);
    let b = decl_block(decl_views(inline), Origin::Author, sp, None, true, a.1);
    assert forall|i: int, j: int| 0 <= i < j < (a.0 + b).len() implies (#[trigger] (a.0 + b)[i]).order <= (#[trigger] (a.0 + b)[j]).order by {
        if j < a.0.len() {
            assert((a.0 + b)[i] == a.0[i] && (a.0 + b)[j] == a.0[j]);
        } else if i < a.0.len() {
            assert((a.0 + b)[i] == a.0[i] && (a.0 + b)[j] == b[j - a.0.len()]);
        } else {
            assert((a.0 + b)[i] == b[i - a.0.len()] && (a.0 + b)[j] == b[j - a.0.len()]);
        }
    }
}

/// What the values one declaration contributes have in common besides
/// their order number: importance, origin, specificity, layer and whether
/// they come from the `style` attribute.
pub open spec fn same_declaration_data(x: DeclaredView, y: DeclaredView) -> bool {
    &&& x.important == y.important
    &&& x.origin == y.origin
    &&& x.specificity == y.specificity
    &&& x.layer_order == y.layer_order
    &&& x.from_style_attr == y.from_style_attr
}

proof fn lemma_entries_data(d: DeclView, origin: Origin, sp: Specificity, order: nat, lo: Option<usize>, attr: bool)
    ensures
        forall|i: int| 0 <= i < declared_entries(d, origin, sp, order, lo, attr).len() ==> {
            let e = #[trigger] declared_entries(d, origin, sp, order, lo, attr)[i];
            &&& e.order == order
            &&& e.important == d.2
            &&& e.origin == origin
            &&& e.specificity == sp
            &&& e.layer_order == lo
            &&& e.from_style_attr == attr
        },
{
}

proof fn lemma_block_data(ds: Seq<DeclView>, origin: Origin, sp: Specificity, lo: Option<usize>, attr: bool, start: nat)
    ensures
        forall|i: int| 0 <= i < decl_block(ds, origin, sp, lo, attr, start).len() ==> {
            let e = #[trigger] decl_block(ds, origin, sp, lo, attr, start)[i];
            &&& start < e.order <= start + ds.len()
            &&& e.important == ds[e.order - start - 1].2
            &&& e.origin == origin
            &&& e.specificity == sp
            &&& e.layer_order == lo
            &&& e.from_style_attr == attr
        },
    decreases ds.len(),
{
    if ds.len() > 0 {
        let p = ds.drop_last();
        lemma_block_data(p, origin, sp, lo, attr, start);
        lemma_entries_data(ds.last(), origin, sp, start + ds.len(), lo, attr);
        let a = decl_block(p, origin, sp, lo, attr, start);
        let b = declared_entries(ds.last(), origin, sp, start + ds.len(), lo, attr);
        assert forall|i: int| 0 <= i < (a + b).len() implies {
            let e = #[trigger] (a + b)[i];
            &&& start < e.order <= start + ds.len()
            &&& e.important == ds[e.order - start - 1].2
            &&& e.origin == origin
            &&& e.specificity == sp
            &&& e.layer_order == lo
            &&& e.from_style_attr == attr
        } by {
            if i < a.len() {
                assert((a + b)[i] == a[i]);
                assert(p[a[i].order - start - 1] == ds[a[i].order - start - 1]);
            } else {
                assert((a + b)[i] == b[i - a.len()]);
            }
        }
    }
}

proof fn lemma_block_same_order(ds: Seq<DeclView>, origin: Origin, sp: Specificity, lo: Option<usize>, attr: bool, start: nat)
    ensures
        forall|i: int, j: int| 0 <= i < decl_block(ds, origin, sp, lo, attr, start).len() && 0 <= j < decl_block(ds, origin, sp, lo, attr, start).len()
            && (#[trigger] decl_block(ds, origin, sp, lo, attr, start)[i]).order == (#[trigger] decl_block(ds, origin, sp, lo, attr, start)[j]).order
            ==> same_declaration_data(decl_block(ds, origin, sp, lo, attr, start)[i], decl_block(ds, origin, sp, lo, attr, start)[j]),
{
    lemma_block_data(ds, origin, sp, lo, attr, start);
}

proof fn lemma_matched_same_order(rules: Seq<PreparedRule>, m: Seq<bool>, start: nat)
    ensures
        forall|i: int, j: int| 0 <= i < matched_decls(rules, m, start).0.len() && 0 <= j < matched_decls(rules, m, start).0.len()
            && (#[trigger] matched_decls(rules, m, start).0[i]).order == (#[trigger] matched_decls(rules, m, start).0[j]).order
            ==> same_declaration_data(matched_decls(rules, m, start).0[i], matched_decls(rules, m, start).0[j]),
    decreases rules.len(),
{
    if rules.len() > 0 {
        lemma_matched_same_order(rules.drop_last(), m, start);
        lemma_matched_entries(rules.drop_last(), m, start);
        let a = matched_decls(rules.drop_last(), m, start);
        let r = rules.last();
        if m[rules.len() - 1] {
            let ds = decl_views(r.declarations@);
            lemma_block_same_order(ds, r.origin, r.specificity, r.layer_order, false, a.1);
            lemma_block_data(ds, r.origin, r.specificity, r.layer_order, false, a.1);
            let b = decl_block(ds, r.origin, r.specificity, r.layer_order, false, a.1);
            assert forall|i: int, j: int| 0 <= i < (a.0 + b).len() && 0 <= j < (a.0 + b).len()
                && (#[trigger] (a.0 + b)[i]).order == (#[trigger] (a.0 + b)[j]).order
                implies same_declaration_data((a.0 + b)[i], (a.0 + b)[j]) by {
                if i < a.0.len() {
                    assert((a.0 + b)[i] == a.0[i]);
                } else {
                    assert((a.0 + b)[i] == b[i - a.0.len()]);
                }
                if j < a.0.len() {
                    assert((a.0 + b)[j] == a.0[j]);
                } else {
                    assert((a.0 + b)[j] == b[j - a.0.len()]);
                }
            }
        }
    }
}

/// Law: declared values that share an order number come from one
/// declaration: they agree on importance, origin, specificity, layer and
/// whether they come from the `style` attribute.
pub proof fn lemma_shared_order_is_one_declaration(rules: Seq<PreparedRule>, m: Seq<bool>, inline: Seq<SheetDeclaration>)
    ensures
        forall|i: int, j: int| 0 <= i < collect_spec(rules, m, inline).len() && 0 <= j < collect_spec(rules, m, inline).len()
            && (#[trigger] collect_spec(rules, m, inline)[i]).order == (#[trigger] collect_spec(rules, m, inline)[j]).order
            ==> same_declaration_data(collect_spec(rules, m, inline)[i], collect_spec(rules, m, inline)[j]),
{
    lemma_matched_same_order(rules, m, 0);
    lemma_matched_entries(rules, m, 0);
    let a = matched_decls(rules, m, 0);
    let sp = Specificity { a: 0, b: 0, c: 0 };
    let ds = decl_views(inline);
    lemma_block_same_order(ds, Origin::Author, sp, None, true, a.1);
    lemma_block_data(ds, Origin::Author, sp, None, true, a.1);
    let b = decl_block(ds, Origin::Author, sp, None, true, a.1);
    assert forall|i: int, j: int| 0 <= i < (a.0 + b).len() && 0 <= j < (a.0 + b).len()
        && (#[trigger] (a.0 + b)[i]).order == (#[trigger] (a.0 + b)[j]).order
        implies same_declaration_data((a.0 + b)[i], (a.0 + b)[j]) by {
        if i < a.0.len() {
            assert((a.0 + b)[i] == a.0[i]);
        } else {
            assert((a.0 + b)[i] == b[i - a.0.len()]);
        }
        if j < a.0.len() {
            assert((a.0 + b)[j] == a.0[j]);
        } else {
            assert((a.0 + b)[j] == b[j - a.0.len()]);
        }
    }
}

/// Law (`@supports`): `not` inverts a single declaration test.
pub proof fn lemma_supports_not_inverts(kind: BlockKind, body: Seq<CvView>)
    ensures
        supports_holds(seq![CvView::Tok(TokenView::Ident("not"@)), CvView::Tok(TokenView::Whitespace), CvView::Block(kind, body)])
            == !supports_feature(kind, body),
        supports_holds(seq![CvView::Block(kind, body)]) == supports_feature(kind, body),
{
    let s = seq![CvView::Tok(TokenView::Ident("not"@)), CvView::Tok(TokenView::Whitespace), CvView::Block(kind, body)];
    assert(eq_ascii_ci("not"@, "not"@));
    let e = Seq::<CvView>::empty();
    assert(supports_run(e) == Some((None::<bool>, None::<bool>, false)));
    assert(s.drop_last().drop_last().drop_last() =~= e);
    assert(s.drop_last().drop_last().last() == CvView::Tok(TokenView::Ident("not"@)));
    assert(s.drop_last().last() == CvView::Tok(TokenView::Whitespace));
    assert(supports_run(s.drop_last().drop_last()) == Some((None::<bool>, None::<bool>, true)));
    assert(supports_run(s.drop_last()) == Some((None::<bool>, None::<bool>, true)));
    let t = seq![CvView::Block(kind, body)];
    assert(t.drop_last() =~= e);
    assert(t.last() == CvView::Block(kind, body));
}

} // verus!
