//! Computed values, token part: `var()` substitution with cycle
//! detection, memoisation and fallbacks. Relative units and `calc()` are
//! numeric and resolved by the caller on the substituted tokens.
use vstd::prelude::*;
use crate::cascade::{cascade_winner, CascadeGroups};
use crate::custom_properties::CustomProperties;
use crate::defaulting::{apply_defaulting, spec_apply_defaulting};
use crate::registry::{builtin_properties, property_table};
use crate::style::{ComputedStyle, ComputedValue, DeclaredValue};
use crate::strutil::{eq_ascii_ci, eq_ignore_ascii_case, has_dashdash_prefix, starts_with_dashdash, str_eq};
use crate::token::{clone_cv, cv_size, cvs_view, lemma_cvs_view_index, lemma_cvs_view_len, lemma_cvs_view_push, lemma_cvs_view_subrange, lemma_size_elem, lemma_sizes_pos, lemma_suffix_smaller, seq_size, ComponentValue, CvView, Function, Token, TokenView};

verus! {

// ── where var() finds custom properties ──────────────────────────────────

/// Custom properties visible to `var()`: the element's own table first,
/// then each ancestor's, nearest first.
pub struct CustomPropertySource<'a> {
    layers: Vec<&'a CustomProperties>,
}

/// The map the layers describe: nearer layers hide farther ones.
pub open spec fn layers_map(ls: Seq<&CustomProperties>) -> Map<Seq<char>, Seq<CvView>>
    decreases ls.len(),
{
    if ls.len() == 0 {
        Map::empty()
    } else {
        layers_map(ls.drop_first()).union_prefer_right(ls[0]@)
    }
}

impl<'a> View for CustomPropertySource<'a> {
    type V = Map<Seq<char>, Seq<CvView>>;

    closed spec fn view(&self) -> Map<Seq<char>, Seq<CvView>> {
        layers_map(self.layers@)
    }
}

impl<'a> CustomPropertySource<'a> {
    #[verifier::type_invariant]
    spec fn inv(self) -> bool {
        forall|i: int| 0 <= i < self.layers@.len() ==> (#[trigger] self.layers@[i])@.dom().finite()
    }

    /// A source made of one table.
    pub fn flat(props: &'a CustomProperties) -> (r: Self)
        ensures
            r@ == props@,
    {
        props.note_finite();
        let mut layers: Vec<&'a CustomProperties> = Vec::new();
        layers.push(props);
        proof {
            assert(layers@.drop_first() =~= Seq::<&CustomProperties>::empty());
            assert(layers_map(layers@.drop_first()) == Map::<Seq<char>, Seq<CvView>>::empty());
            assert(layers_map(layers@) =~= props@);
        }
        CustomPropertySource { layers }
    }

    /// The element's own table in front of its parent's source.
    pub fn chain(own: &'a CustomProperties, parent: Option<&CustomPropertySource<'a>>) -> (r: Self)
        ensures
            r@ == match parent {
                Some(p) => p@.union_prefer_right(own@),
                None => own@,
            },
    {
        own.note_finite();
        let mut layers: Vec<&'a CustomProperties> = Vec::new();
        layers.push(own);
        match parent {
            Some(p) => {
                proof {
                    use_type_invariant(p);
                }
                let mut i: usize = 0;
                while i < p.layers.len()
                    invariant
                        i <= p.layers@.len(),
                        layers@ == seq![own] + p.layers@.take(i as int),
                        own@.dom().finite(),
                        forall|j: int| 0 <= j < p.layers@.len() ==> (#[trigger] p.layers@[j])@.dom().finite(),
                    decreases p.layers.len() - i,
                {
                    layers.push(p.layers[i]);
                    i += 1;
                    assert(layers@ =~= seq![own] + p.layers@.take(i as int));
                }
                proof {
                    assert(p.layers@.take(p.layers@.len() as int) =~= p.layers@);
                    assert(layers@.drop_first() =~= p.layers@);
                }
            },
            None => {
                proof {
                    assert(layers@.drop_first() =~= Seq::<&CustomProperties>::empty());
                    assert(layers_map(layers@.drop_first()) == Map::<Seq<char>, Seq<CvView>>::empty());
                    assert(layers_map(layers@) =~= own@);
                }
            },
        }
        proof {
            assert forall|j: int| 0 <= j < layers@.len() implies (#[trigger] layers@[j])@.dom().finite() by {
                if j > 0 {
                    match parent {
                        Some(p) => { assert(layers@[j] == p.layers@[j - 1]); },
                        None => {},
                    }
                }
            }
        }
        CustomPropertySource { layers }
    }

    /// The source's names are finitely many (a proof step, no run-time work).
    pub(crate) fn note_finite(&self)
        ensures
            self@.dom().finite(),
    {
        proof {
            use_type_invariant(self);
            lemma_layers_finite(self.layers@);
        }
    }

    /// Looks a custom property up: the nearest table that has it wins.
    pub fn get(&self, name: &str) -> (r: Option<&'a Vec<ComponentValue>>)
        ensures
            r is Some == self@.contains_key(name@),
            r matches Some(v) ==> cvs_view(v@) == self@[name@],
    {
        let mut i: usize = 0;
        proof {
            assert(self.layers@.skip(0) =~= self.layers@);
        }
        while i < self.layers.len()
            invariant
                i <= self.layers@.len(),
                layers_map(self.layers@).contains_key(name@) == layers_map(self.layers@.skip(i as int)).contains_key(name@),
                layers_map(self.layers@).contains_key(name@) ==> layers_map(self.layers@)[name@] == layers_map(self.layers@.skip(i as int))[name@],
            decreases self.layers.len() - i,
        {
            proof {
                assert(self.layers@.skip(i as int).drop_first() =~= self.layers@.skip(i + 1));
                assert(self.layers@.skip(i as int)[0] == self.layers@[i as int]);
            }
            let layer: &'a CustomProperties = self.layers[i];
            match layer.get(name) {
                Some(v) => {
                    return Some(v);
                },
                None => {},
            }
            i += 1;
        }
        None
    }
}

proof fn lemma_layers_finite(ls: Seq<&CustomProperties>)
    requires
        forall|i: int| 0 <= i < ls.len() ==> (#[trigger] ls[i])@.dom().finite(),
    ensures
        layers_map(ls).dom().finite(),
    decreases ls.len(),
{
    if ls.len() > 0 {
        assert forall|i: int| 0 <= i < ls.drop_first().len() implies (#[trigger] ls.drop_first()[i])@.dom().finite() by {
            assert(ls.drop_first()[i] == ls[i + 1]);
        }
        lemma_layers_finite(ls.drop_first());
        assert(ls[0]@.dom().finite());
        assert(layers_map(ls).dom() =~= layers_map(ls.drop_first()).dom().union(ls[0]@.dom()));
    }
}

// ── var() arguments ──────────────────────────────────────────────────────

/// Index of the first non-whitespace value at or after `i` (`v.len()` when
/// there is none).
pub open spec fn first_non_ws(v: Seq<CvView>, i: int) -> int
    decreases v.len() - i,
{
    if i >= v.len() {
        v.len() as int
    } else if v[i] == CvView::Tok(TokenView::Whitespace) {
        first_non_ws(v, i + 1)
    } else {
        i
    }
}

/// `var(<custom-property-name> [, <fallback>]?)`: the name and the
/// fallback (leading whitespace dropped). `None` when the first argument is
/// not a `--*` identifier or something other than whitespace stands between
/// it and the comma.
pub open spec fn var_args(v: Seq<CvView>) -> Option<(Seq<char>, Seq<CvView>)> {
    let i0 = first_non_ws(v, 0);
    if i0 >= v.len() {
        None
    } else {
        match v[i0] {
            CvView::Tok(TokenView::Ident(n)) => {
                if !has_dashdash_prefix(n) {
                    None
                } else {
                    let j = first_non_ws(v, i0 + 1);
                    if j < v.len() && v[j] != CvView::Tok(TokenView::Comma) {
                        None
                    } else if j < v.len() {
                        Some((n, v.subrange(first_non_ws(v, j + 1), v.len() as int)))
                    } else {
                        Some((n, seq![]))
                    }
                }
            },
            _ => None,
        }
    }
}

pub proof fn lemma_first_non_ws_bounds(v: Seq<CvView>, i: int)
    requires
        0 <= i,
    ensures
        i <= first_non_ws(v, i) || (i > v.len() && first_non_ws(v, i) == v.len()),
        first_non_ws(v, i) <= v.len() || i > v.len(),
        first_non_ws(v, i) <= v.len() ==> (first_non_ws(v, i) >= i || i > v.len()),
        first_non_ws(v, i) < v.len() ==> v[first_non_ws(v, i)] != CvView::Tok(TokenView::Whitespace),
        forall|k: int| i <= k < first_non_ws(v, i) && k < v.len() ==> v[k] == CvView::Tok(TokenView::Whitespace),
    decreases v.len() - i,
{
    if i < v.len() && v[i] == CvView::Tok(TokenView::Whitespace) {
        lemma_first_non_ws_bounds(v, i + 1);
    }
}

pub proof fn lemma_var_args_smaller(v: Seq<CvView>)
    requires
        var_args(v) is Some,
    ensures
        seq_size((var_args(v)->0).1) < seq_size(v),
{
    lemma_first_non_ws_bounds(v, 0);
    let i0 = first_non_ws(v, 0);
    lemma_first_non_ws_bounds(v, i0 + 1);
    let j = first_non_ws(v, i0 + 1);
    lemma_sizes_pos(v);
    if j < v.len() {
        lemma_first_non_ws_bounds(v, j + 1);
        lemma_suffix_smaller(v, first_non_ws(v, j + 1));
    }
}

pub(crate) fn skip_ws_from(v: &[ComponentValue], i: usize) -> (r: usize)
    requires
        i <= v@.len(),
    ensures
        r as int == first_non_ws(cvs_view(v@), i as int),
    decreases v.len() - i,
{
    proof {
        lemma_cvs_view_len(v@);
    }
    if i >= v.len() {
        return v.len();
    }
    proof {
        lemma_cvs_view_index(v@, i as int);
    }
    match &v[i] {
        ComponentValue::PreservedToken(Token::Whitespace) => skip_ws_from(v, i + 1),
        _ => i,
    }
}

/// Splits `var()` arguments into the custom property name and the fallback.
fn parse_var_args(value: &[ComponentValue]) -> (r: Option<(String, &[ComponentValue])>)
    ensures
        match r {
            Some((n, fb)) => var_args(cvs_view(value@)) == Some((n@, cvs_view(fb@))),
            None => var_args(cvs_view(value@)) is None,
        },
{
    let ghost v = cvs_view(value@);
    proof {
        lemma_cvs_view_len(value@);
    }
    let i0 = skip_ws_from(value, 0);
    if i0 >= value.len() {
        return None;
    }
    proof {
        lemma_cvs_view_index(value@, i0 as int);
    }
    let name = match &value[i0] {
        ComponentValue::PreservedToken(Token::Ident(s)) => s.clone(),
        _ => {
            return None;
        },
    };
    if !starts_with_dashdash(name.as_str()) {
        return None;
    }
    let j = skip_ws_from(value, i0 + 1);
    if j < value.len() {
        proof {
            lemma_cvs_view_index(value@, j as int);
        }
        match &value[j] {
            ComponentValue::PreservedToken(Token::Comma) => {},
            _ => {
                return None;
            },
        }
        proof {
            lemma_first_non_ws_bounds(v, j + 1);
        }
        let start = skip_ws_from(value, j + 1);
        let fb = vstd::slice::slice_subrange(value, start, value.len());
        proof {
            lemma_cvs_view_subrange(value@, start as int, value@.len() as int);
        }
        Some((name, fb))
    } else {
        let fb = vstd::slice::slice_subrange(value, 0, 0);
        proof {
            assert(fb@ =~= Seq::<ComponentValue>::empty());
            assert(cvs_view(fb@) =~= Seq::<CvView>::empty());
        }
        Some((name, fb))
    }
}


// ── the substitution ─────────────────────────────────────────────────────

/// Memoised results: name → substituted value, or `None` when the custom
/// property is guaranteed-invalid (undefined, cyclic or containing an
/// invalid `var()`).
pub type VarMemoMap = Map<Seq<char>, Option<Seq<CvView>>>;

/// The names currently being substituted (the cycle-detection stack).
pub open spec fn prog_set(p: Seq<String>) -> Set<Seq<char>> {
    Set::new(|k: Seq<char>| exists|i: int| 0 <= i < p.len() && p[i]@ == k)
}

/// Custom properties of the source not yet on the substitution stack.
pub open spec fn var_remaining(src: Map<Seq<char>, Seq<CvView>>, prog: Set<Seq<char>>) -> nat {
    src.dom().difference(prog).len()
}

pub proof fn lemma_remaining_decreases(src: Map<Seq<char>, Seq<CvView>>, prog: Set<Seq<char>>, n: Seq<char>)
    requires
        src.dom().finite(),
        src.contains_key(n),
        !prog.contains(n),
    ensures
        var_remaining(src, prog.insert(n)) < var_remaining(src, prog),
{
    let d = src.dom().difference(prog);
    assert(src.dom().difference(prog.insert(n)) =~= d.remove(n));
    assert(d.contains(n));
}

/// Substitution of a sequence, left to right; the first failure stops it.
pub open spec fn subst_seq(src: Map<Seq<char>, Seq<CvView>>, prog: Set<Seq<char>>, memo: VarMemoMap, s: Seq<CvView>) -> (Option<Seq<CvView>>, VarMemoMap)
    decreases var_remaining(src, prog), seq_size(s),
{
    if s.len() == 0 {
        (Some(seq![]), memo)
    } else {
        proof {
            lemma_size_elem(s, s.len() - 1);
            lemma_sizes_pos(s.drop_last());
        }
        let r1 = subst_seq(src, prog, memo, s.drop_last());
        match r1.0 {
            None => (None, r1.1),
            Some(po) => {
                let r2 = subst_cv(src, prog, r1.1, s[s.len() - 1]);
                match r2.0 {
                    None => (None, r2.1),
                    Some(co) => (Some(po + co), r2.1),
                }
            },
        }
    }
}

/// Substitution of one component value: `var()` is replaced; the arguments
/// of other functions are substituted; tokens and simple blocks stay.
pub open spec fn subst_cv(src: Map<Seq<char>, Seq<CvView>>, prog: Set<Seq<char>>, memo: VarMemoMap, c: CvView) -> (Option<Seq<CvView>>, VarMemoMap)
    decreases var_remaining(src, prog), cv_size(c),
{
    match c {
        CvView::Func(name, args) => {
            if eq_ascii_ci(name, "var"@) {
                match var_args(args) {
                    None => (None, memo),
                    Some(p) => {
                        proof {
                            lemma_var_args_smaller(args);
                        }
                        subst_var(src, prog, memo, p.0, p.1)
                    },
                }
            } else {
                let r = subst_seq(src, prog, memo, args);
                (
                    match r.0 {
                        Some(a) => Some(seq![CvView::Func(name, a)]),
                        None => None,
                    },
                    r.1,
                )
            }
        },
        _ => (Some(seq![c]), memo),
    }
}

/// One `var(n, fb)` reference: a memoised result is reused; a name on the
/// stack is a cycle; otherwise the property's value is substituted (with
/// `n` on the stack) and memoised. A guaranteed-invalid reference takes the
/// fallback, and fails when there is none.
pub open spec fn subst_var(src: Map<Seq<char>, Seq<CvView>>, prog: Set<Seq<char>>, memo: VarMemoMap, n: Seq<char>, fb: Seq<CvView>) -> (Option<Seq<CvView>>, VarMemoMap)
    decreases var_remaining(src, prog), seq_size(fb) + 1,
{
    if memo.contains_key(n) {
        match memo[n] {
            Some(t) => (Some(t), memo),
            None => if fb.len() == 0 {
                (None, memo)
            } else {
                subst_seq(src, prog, memo, fb)
            },
        }
    } else if prog.contains(n) {
        if fb.len() == 0 {
            (None, memo)
        } else {
            subst_seq(src, prog, memo, fb)
        }
    } else {
        let r = if src.contains_key(n) && src.dom().finite() {
            proof {
                lemma_remaining_decreases(src, prog, n);
            }
            subst_seq(src, prog.insert(n), memo, src[n])
        } else {
            (None, memo)
        };
        let m2 = r.1.insert(n, r.0);
        match r.0 {
            Some(t) => (Some(t), m2),
            None => if fb.len() == 0 {
                (None, m2)
            } else {
                subst_seq(src, prog, m2, fb)
            },
        }
    }
}

/// A failure in a prefix is the failure of the whole sequence.
pub proof fn lemma_subst_seq_prefix_fail(src: Map<Seq<char>, Seq<CvView>>, prog: Set<Seq<char>>, memo: VarMemoMap, s: Seq<CvView>, k: int)
    requires
        0 <= k <= s.len(),
        subst_seq(src, prog, memo, s.take(k)).0 is None,
    ensures
        subst_seq(src, prog, memo, s) == subst_seq(src, prog, memo, s.take(k)),
    decreases s.len(),
{
    if k == s.len() {
        assert(s.take(k) =~= s);
    } else {
        assert(s.drop_last().take(k) =~= s.take(k));
        lemma_subst_seq_prefix_fail(src, prog, memo, s.drop_last(), k);
    }
}

/// What `substitute_vars` yields: the substituted tokens, or `None` when the
/// value is invalid at computed-value time.
pub open spec fn spec_substitute_vars(src: Map<Seq<char>, Seq<CvView>>, s: Seq<CvView>) -> Option<Seq<CvView>> {
    subst_seq(src, Set::empty(), Map::empty(), s).0
}

/// View of an optional token list.
pub open spec fn opt_cvs_view(o: Option<Vec<ComponentValue>>) -> Option<Seq<CvView>> {
    match o {
        Some(v) => Some(cvs_view(v@)),
        None => None,
    }
}

struct VarMemo {
    entries: Vec<(String, Option<Vec<ComponentValue>>)>,
}

/// The map a memo list describes (later entries win).
pub open spec fn memo_map(e: Seq<(String, Option<Vec<ComponentValue>>)>) -> VarMemoMap
    decreases e.len(),
{
    if e.len() == 0 {
        Map::empty()
    } else {
        memo_map(e.drop_last()).insert(e.last().0@, opt_cvs_view(e.last().1))
    }
}

proof fn lemma_memo_lookup(e: Seq<(String, Option<Vec<ComponentValue>>)>, k: Seq<char>, i: int)
    requires
        -1 <= i < e.len(),
        forall|j: int| i < j < e.len() ==> (#[trigger] e[j]).0@ != k,
    ensures
        i >= 0 && e[i].0@ == k ==> memo_map(e).contains_key(k) && memo_map(e)[k] == opt_cvs_view(e[i].1),
        memo_map(e).contains_key(k) == memo_map(e.take(i + 1)).contains_key(k),
    decreases e.len(),
{
    if e.len() > 0 && i < e.len() - 1 {
        let p = e.drop_last();
        assert forall|j: int| i < j < p.len() implies (#[trigger] p[j]).0@ != k by {
            assert(p[j] == e[j]);
        }
        lemma_memo_lookup(p, k, i);
        assert(p.take(i + 1) =~= e.take(i + 1));
        if i >= 0 {
            assert(p[i] == e[i]);
        }
    } else if e.len() > 0 {
        assert(e.take(i + 1) =~= e);
    }
}

impl View for VarMemo {
    type V = VarMemoMap;

    closed spec fn view(&self) -> VarMemoMap {
        memo_map(self.entries@)
    }
}

impl VarMemo {
    fn lookup(&self, name: &str) -> (r: Option<&Option<Vec<ComponentValue>>>)
        ensures
            r is Some == self@.contains_key(name@),
            r matches Some(v) ==> opt_cvs_view(*v) == self@[name@],
    {
        let mut i: usize = self.entries.len();
        while i > 0
            invariant
                i <= self.entries@.len(),
                forall|j: int| i <= j < self.entries@.len() ==> (#[trigger] self.entries@[j]).0@ != name@,
            decreases i,
        {
            if str_eq(self.entries[i - 1].0.as_str(), name) {
                proof {
                    lemma_memo_lookup(self.entries@, name@, i - 1);
                }
                return Some(&self.entries[i - 1].1);
            }
            i -= 1;
        }
        proof {
            lemma_memo_lookup(self.entries@, name@, -1);
            assert(self.entries@.take(0) =~= Seq::<(String, Option<Vec<ComponentValue>>)>::empty());
        }
        None
    }

    fn insert(&mut self, name: String, v: Option<Vec<ComponentValue>>)
        ensures
            final(self)@ == old(self)@.insert(name@, opt_cvs_view(v)),
    {
        let ghost e0 = self.entries@;
        self.entries.push((name, v));
        proof {
            assert(self.entries@.drop_last() =~= e0);
        }
    }
}

fn clone_opt_cvs(o: &Option<Vec<ComponentValue>>) -> (r: Option<Vec<ComponentValue>>)
    ensures
        opt_cvs_view(r) == opt_cvs_view(*o),
{
    match o {
        Some(v) => Some(crate::token::clone_cvs(v.as_slice())),
        None => None,
    }
}

fn prog_contains(prog: &Vec<String>, name: &str) -> (r: bool)
    ensures
        r == prog_set(prog@).contains(name@),
{
    let mut i: usize = 0;
    while i < prog.len()
        invariant
            i <= prog@.len(),
            forall|j: int| 0 <= j < i ==> (#[trigger] prog@[j])@ != name@,
        decreases prog.len() - i,
    {
        if str_eq(prog[i].as_str(), name) {
            assert(prog@[i as int]@ == name@);
            return true;
        }
        i += 1;
    }
    false
}

fn prog_push(prog: &Vec<String>, name: &str) -> (r: Vec<String>)
    ensures
        prog_set(r@) == prog_set(prog@).insert(name@),
{
    let mut r: Vec<String> = Vec::new();
    let mut i: usize = 0;
    while i < prog.len()
        invariant
            i <= prog@.len(),
            r@.len() == i,
            forall|j: int| 0 <= j < i ==> (#[trigger] r@[j])@ == prog@[j]@,
        decreases prog.len() - i,
    {
        r.push(prog[i].clone());
        i += 1;
    }
    r.push(name.to_owned());
    proof {
        assert forall|k: Seq<char>| #[trigger] prog_set(r@).contains(k) == prog_set(prog@).insert(name@).contains(k) by {
            if prog_set(r@).contains(k) {
                let j = choose|j: int| 0 <= j < r@.len() && r@[j]@ == k;
                if j < prog@.len() {
                    assert(prog@[j]@ == k);
                }
            }
            if prog_set(prog@).contains(k) {
                let j = choose|j: int| 0 <= j < prog@.len() && prog@[j]@ == k;
                assert(r@[j]@ == k);
            }
            if k == name@ {
                assert(r@[r@.len() - 1]@ == k);
            }
        }
        assert(prog_set(r@) =~= prog_set(prog@).insert(name@));
    }
    r
}

fn subst_seq_exec(src: &CustomPropertySource, prog: &Vec<String>, memo: &mut VarMemo, s: &[ComponentValue]) -> (r: Option<Vec<ComponentValue>>)
    requires
        src@.dom().finite(),
    ensures
        opt_cvs_view(r) == subst_seq(src@, prog_set(prog@), old(memo)@, cvs_view(s@)).0,
        final(memo)@ == subst_seq(src@, prog_set(prog@), old(memo)@, cvs_view(s@)).1,
    decreases var_remaining(src@, prog_set(prog@)), seq_size(cvs_view(s@)),
{
    let ghost sv = cvs_view(s@);
    let ghost pset = prog_set(prog@);
    let ghost m0 = memo@;
    let mut out: Vec<ComponentValue> = Vec::new();
    let mut i: usize = 0;
    proof {
        lemma_cvs_view_len(s@);
        assert(sv.take(0) =~= Seq::<CvView>::empty());
    }
    while i < s.len()
        invariant
            i <= s@.len(),
            sv == cvs_view(s@),
            sv.len() == s@.len(),
            pset == prog_set(prog@),
            m0 == old(memo)@,
            src@.dom().finite(),
            subst_seq(src@, pset, m0, sv.take(i as int)) == (Some(cvs_view(out@)), memo@),
        decreases s.len() - i,
    {
        proof {
            lemma_cvs_view_index(s@, i as int);
            lemma_size_elem(sv, i as int);
            assert(sv.take(i + 1).drop_last() =~= sv.take(i as int));
            assert(sv.take(i + 1)[i as int] == sv[i as int]);
            lemma_sizes_pos(sv.take(i + 1));
        }
        let ghost mi = memo@;
        let part = subst_cv_exec(src, prog, memo, &s[i]);
        match part {
            None => {
                proof {
                    let t = sv.take(i + 1);
                    assert(t.drop_last() =~= sv.take(i as int));
                    assert(t[t.len() - 1] == s@[i as int]@);
                    assert(subst_seq(src@, pset, m0, t).0 is None);
                    lemma_subst_seq_prefix_fail(src@, pset, m0, sv, i + 1);
                }
                return None;
            },
            Some(p) => {
                let ghost o0 = out@;
                let mut k: usize = 0;
                let mut pp = p;
                proof {
                    assert(cvs_view(pp@).skip(0) =~= cvs_view(pp@));
                }
                while k < pp.len()
                    invariant
                        k <= pp@.len(),
                        cvs_view(out@) == cvs_view(o0) + cvs_view(pp@).take(k as int),
                    decreases pp.len() - k,
                {
                    let c = clone_cv(&pp[k]);
                    let ghost before = out@;
                    out.push(c);
                    proof {
                        lemma_cvs_view_push(before, c);
                        lemma_cvs_view_index(pp@, k as int);
                        assert(cvs_view(pp@).take(k + 1) =~= cvs_view(pp@).take(k as int).push(pp@[k as int]@));
                    }
                    k += 1;
                }
                proof {
                    lemma_cvs_view_len(pp@);
                    assert(cvs_view(pp@).take(pp@.len() as int) =~= cvs_view(pp@));
                }
            },
        }
        i += 1;
    }
    proof {
        assert(sv.take(s@.len() as int) =~= sv);
    }
    Some(out)
}

fn subst_cv_exec(src: &CustomPropertySource, prog: &Vec<String>, memo: &mut VarMemo, c: &ComponentValue) -> (r: Option<Vec<ComponentValue>>)
    requires
        src@.dom().finite(),
    ensures
        opt_cvs_view(r) == subst_cv(src@, prog_set(prog@), old(memo)@, c@).0,
        final(memo)@ == subst_cv(src@, prog_set(prog@), old(memo)@, c@).1,
    decreases var_remaining(src@, prog_set(prog@)), cv_size(c@),
{
    match c {
        ComponentValue::Function(f) => {
            if eq_ignore_ascii_case(f.name.as_str(), "var") {
                match parse_var_args(f.value.as_slice()) {
                    None => None,
                    Some((name, fb)) => {
                        proof {
                            lemma_var_args_smaller(cvs_view(f.value@));
                        }
                        subst_var_exec(src, prog, memo, name.as_str(), fb)
                    },
                }
            } else {
                match subst_seq_exec(src, prog, memo, f.value.as_slice()) {
                    Some(a) => {
                        let v = vec![ComponentValue::Function(Function { name: f.name.clone(), value: a })];
                        proof {
                            lemma_cvs_view_push(seq![], v@[0]);
                            assert(seq![].push(v@[0]) =~= v@);
                        }
                        Some(v)
                    },
                    None => None,
                }
            }
        },
        _ => {
            let v = vec![clone_cv(c)];
            proof {
                lemma_cvs_view_push(seq![], v@[0]);
                assert(seq![].push(v@[0]) =~= v@);
            }
            Some(v)
        },
    }
}

fn subst_var_exec(src: &CustomPropertySource, prog: &Vec<String>, memo: &mut VarMemo, name: &str, fb: &[ComponentValue]) -> (r: Option<Vec<ComponentValue>>)
    requires
        src@.dom().finite(),
    ensures
        opt_cvs_view(r) == subst_var(src@, prog_set(prog@), old(memo)@, name@, cvs_view(fb@)).0,
        final(memo)@ == subst_var(src@, prog_set(prog@), old(memo)@, name@, cvs_view(fb@)).1,
    decreases var_remaining(src@, prog_set(prog@)), seq_size(cvs_view(fb@)) + 1,
{
    proof {
        lemma_cvs_view_len(fb@);
    }
    let cached = match memo.lookup(name) {
        Some(rv) => Some(clone_opt_cvs(rv)),
        None => None,
    };
    match cached {
        Some(Some(t)) => {
            return Some(t);
        },
        Some(None) => {
            if fb.len() == 0 {
                return None;
            }
            return subst_seq_exec(src, prog, memo, fb);
        },
        None => {},
    }
    if prog_contains(prog, name) {
        if fb.len() == 0 {
            return None;
        }
        return subst_seq_exec(src, prog, memo, fb);
    }
    let result = match src.get(name) {
        Some(value) => {
            proof {
                lemma_remaining_decreases(src@, prog_set(prog@), name@);
            }
            let p2 = prog_push(prog, name);
            subst_seq_exec(src, &p2, memo, value.as_slice())
        },
        None => None,
    };
    let stored = clone_opt_cvs(&result);
    memo.insert(name.to_owned(), stored);
    match result {
        Some(t) => Some(t),
        None => {
            if fb.len() == 0 {
                None
            } else {
                subst_seq_exec(src, prog, memo, fb)
            }
        },
    }
}

/// Replaces every `var()` in a specified value.
///
/// Each custom property is substituted at most once per call (later
/// references reuse the result); a reference to a property that is being
/// substituted is a cycle; undefined and cyclic properties, and those whose
/// value holds an invalid `var()`, are guaranteed-invalid, and a reference
/// to them takes its fallback. `Err(())` means the value is invalid at
/// computed-value time: a `var()` whose first argument is not a `--*` name,
/// or a guaranteed-invalid reference without fallback.
pub fn substitute_vars(specified: &[ComponentValue], source: &CustomPropertySource) -> (r: Result<Vec<ComponentValue>, ()>)
    ensures
        match r {
            Ok(v) => spec_substitute_vars(source@, cvs_view(specified@)) == Some(cvs_view(v@)),
            Err(_) => spec_substitute_vars(source@, cvs_view(specified@)) is None,
        },
{
    source.note_finite();
    let prog: Vec<String> = Vec::new();
    let mut memo = VarMemo { entries: Vec::new() };
    proof {
        assert(prog_set(prog@) =~= Set::<Seq<char>>::empty());
        assert(memo@ =~= Map::<Seq<char>, Option<Seq<CvView>>>::empty());
    }
    match subst_seq_exec(source, &prog, &mut memo, specified) {
        Some(v) => Ok(v),
        None => Err(()),
    }
}


// ── laws of substitution ─────────────────────────────────────────────────

/// No `var()` function appears in the value, at top level or in the
/// arguments of other functions (simple blocks are left as they are).
pub open spec fn var_free(s: Seq<CvView>) -> bool
    decreases seq_size(s), 1nat,
{
    if s.len() == 0 {
        true
    } else {
        proof {
            lemma_size_elem(s, s.len() - 1);
            lemma_sizes_pos(s.drop_last());
        }
        var_free(s.drop_last()) && var_free_cv(s[s.len() - 1])
    }
}

/// No `var()` function appears in the component value (see [`var_free`]).
pub open spec fn var_free_cv(c: CvView) -> bool
    decreases cv_size(c), 0nat,
{
    match c {
        CvView::Func(name, args) => !eq_ascii_ci(name, "var"@) && var_free(args),
        _ => true,
    }
}

proof fn lemma_var_free_seq_unchanged(src: Map<Seq<char>, Seq<CvView>>, prog: Set<Seq<char>>, memo: VarMemoMap, s: Seq<CvView>)
    requires
        var_free(s),
    ensures
        subst_seq(src, prog, memo, s) == (Some(s), memo),
    decreases seq_size(s), 1nat,
{
    if s.len() > 0 {
        lemma_size_elem(s, s.len() - 1);
        lemma_sizes_pos(s.drop_last());
        lemma_var_free_seq_unchanged(src, prog, memo, s.drop_last());
        lemma_var_free_cv_unchanged(src, prog, memo, s[s.len() - 1]);
        assert(s.drop_last() + seq![s[s.len() - 1]] =~= s);
    }
}

proof fn lemma_var_free_cv_unchanged(src: Map<Seq<char>, Seq<CvView>>, prog: Set<Seq<char>>, memo: VarMemoMap, c: CvView)
    requires
        var_free_cv(c),
    ensures
        subst_cv(src, prog, memo, c) == (Some(seq![c]), memo),
    decreases cv_size(c), 0nat,
{
    match c {
        CvView::Func(name, args) => {
            lemma_var_free_seq_unchanged(src, prog, memo, args);
        },
        _ => {},
    }
}

/// Law: substitution leaves a value without `var()` unchanged.
pub proof fn lemma_substitution_keeps_var_free(src: Map<Seq<char>, Seq<CvView>>, s: Seq<CvView>)
    requires
        var_free(s),
    ensures
        spec_substitute_vars(src, s) == Some(s),
{
    lemma_var_free_seq_unchanged(src, Set::empty(), Map::empty(), s);
}

/// Law: a property that refers to itself with no
/// fallback is guaranteed-invalid, so a value made of a reference to it
/// with no fallback is invalid at computed-value time.
pub proof fn lemma_self_reference_is_invalid(src: Map<Seq<char>, Seq<CvView>>, n: Seq<char>)
    requires
        src.dom().finite(),
        src.contains_key(n),
        src[n] == seq![CvView::Func("var"@, seq![CvView::Tok(TokenView::Ident(n))])],
        has_dashdash_prefix(n),
    ensures
        spec_substitute_vars(src, src[n]) is None,
{
    let r = CvView::Func("var"@, seq![CvView::Tok(TokenView::Ident(n))]);
    let args = seq![CvView::Tok(TokenView::Ident(n))];
    reveal_strlit("var");
    assert(eq_ascii_ci("var"@, "var"@));
    assert(first_non_ws(args, 0) == 0);
    assert(first_non_ws(args, 1) == 1);
    assert(var_args(args) == Some((n, Seq::<CvView>::empty())));
    let p0: Set<Seq<char>> = Set::empty();
    let m0: VarMemoMap = Map::empty();
    // Inner: with `n` on the stack the reference is a cycle.
    let p1 = p0.insert(n);
    assert(src[n].drop_last() =~= Seq::<CvView>::empty());
    assert(subst_cv(src, p1, m0, r) == subst_var(src, p1, m0, n, seq![]));
    assert(subst_var(src, p1, m0, n, seq![]) == (None::<Seq<CvView>>, m0));
    assert(subst_seq(src, p1, m0, src[n]).0 is None);
    // Outer: the first reference substitutes the property's value.
    assert(subst_cv(src, p0, m0, r) == subst_var(src, p0, m0, n, seq![]));
    assert(subst_var(src, p0, m0, n, seq![]).0 is None);
    assert(src[n][src[n].len() - 1] == r);
    assert(subst_seq(src, p0, m0, src[n].drop_last()) == (Some(Seq::<CvView>::empty()), m0));
    assert(subst_seq(src, p0, m0, src[n]).0 is None);
}

// ── one property of one element ──────────────────────────────────────────

/// The cascaded value of a property: the winner of its group.
pub open spec fn cascaded_of(g: Map<Seq<char>, Seq<DeclaredValue>>, p: Seq<char>) -> Option<Seq<CvView>> {
    if g.contains_key(p) && g[p].len() > 0 {
        Some(cvs_view(g[p][0].value@))
    } else {
        None
    }
}

/// A property's value in an optional (parent) style.
pub open spec fn style_value_of(style: Option<Map<Seq<char>, Seq<CvView>>>, p: Seq<char>) -> Option<Seq<CvView>> {
    match style {
        Some(m) => if m.contains_key(p) {
            Some(m[p])
        } else {
            None
        },
        None => None,
    }
}

/// The token part of computing one property: the cascaded value is
/// defaulted, then its `var()`s are substituted. A value invalid at
/// computed-value time is treated as `unset`. The flag
/// says whether substitution succeeded, so that relative units are
/// resolved on the result.
pub open spec fn property_tokens(g: Map<Seq<char>, Seq<DeclaredValue>>, p: Seq<char>, parent: Option<Seq<CvView>>, src: Map<Seq<char>, Seq<CvView>>) -> (Seq<CvView>, bool) {
    let specified = spec_apply_defaulting(p, cascaded_of(g, p), parent);
    match spec_substitute_vars(src, specified) {
        Some(v) => (v, true),
        None => (spec_apply_defaulting(p, None, parent), false),
    }
}

/// Computes the token part of one property of an element (see
/// [`property_tokens`]).
pub fn compute_property_tokens(property: &str, groups: &CascadeGroups, parent_style: Option<&ComputedStyle>, source: &CustomPropertySource) -> (r: (ComputedValue, bool))
    ensures
        (r.0@, r.1) == property_tokens(groups@, property@, style_value_of(match parent_style {
            Some(s) => Some(s@),
            None => None,
        }, property@), source@),
{
    let cascaded: Option<&[ComponentValue]> = match groups.get(property) {
        Some(g) => match cascade_winner(g.as_slice()) {
            Some(w) => Some(w.value.as_slice()),
            None => None,
        },
        None => None,
    };
    let parent_value: Option<&ComputedValue> = match parent_style {
        Some(ps) => ps.get(property),
        None => None,
    };
    let specified = apply_defaulting(property, cascaded, parent_value);
    match substitute_vars(specified.tokens(), source) {
        Ok(v) => (ComputedValue::from_tokens(v), true),
        Err(_) => (apply_defaulting(property, None, parent_value), false),
    }
}

/// A registered property's name.
pub open spec fn is_builtin_name(k: Seq<char>) -> bool {
    exists|i: int| 0 <= i < property_table().len() && #[trigger] property_table()[i].name@ == k
}

/// One of the strings is `k`.
pub open spec fn has_name(s: Seq<String>, k: Seq<char>) -> bool {
    exists|a: int| 0 <= a < s.len() && #[trigger] s[a]@ == k
}

/// One of the first `t` registered properties is named `k`.
pub open spec fn table_prefix_has(t: int, k: Seq<char>) -> bool {
    exists|j: int| 0 <= j < t && #[trigger] property_table()[j].name@ == k
}

/// Properties an element's style lists apart from `font-size` (computed
/// first): those it has declarations for, and every registered one.
pub fn style_property_names(groups: &CascadeGroups) -> (r: Vec<String>)
    ensures
        forall|k: Seq<char>| #[trigger] has_name(r@, k) <==> (k != "font-size"@ && (groups@.contains_key(k) || is_builtin_name(k))),
{
    let names = groups.names();
    let table = builtin_properties();
    let mut r: Vec<String> = Vec::new();
    let mut i: usize = 0;
    while i < names.len()
        invariant
            i <= names@.len(),
            forall|k: Seq<char>| groups@.contains_key(k) <==> has_name(names@, k),
            forall|k: Seq<char>| #[trigger] has_name(r@, k) <==> (k != "font-size"@ && crate::custom_properties::seen_name(names@, i as int, k)),
        decreases names.len() - i,
    {
        let ghost r0 = r@;
        if !str_eq(names[i].as_str(), "font-size") {
            r.push(names[i].clone());
        }
        proof {
            assert forall|k: Seq<char>| #[trigger] has_name(r@, k) <==> (k != "font-size"@ && crate::custom_properties::seen_name(names@, i + 1, k)) by {
                if has_name(r@, k) {
                    let a = choose|a: int| 0 <= a < r@.len() && #[trigger] r@[a]@ == k;
                    if a < r0.len() {
                        assert(r0[a] == r@[a]);
                        assert(has_name(r0, k));
                    } else {
                        assert(names@[i as int]@ == k);
                    }
                }
                if k != "font-size"@ && crate::custom_properties::seen_name(names@, i + 1, k) {
                    let j = choose|j: int| 0 <= j < i + 1 && #[trigger] names@[j]@ == k;
                    if j < i {
                        assert(crate::custom_properties::seen_name(names@, i as int, k));
                        assert(has_name(r0, k));
                        let a = choose|a: int| 0 <= a < r0.len() && #[trigger] r0[a]@ == k;
                        assert(r@[a] == r0[a]);
                    } else {
                        assert(r@[r@.len() - 1]@ == k);
                    }
                }
            }
        }
        i += 1;
    }
    proof {
        assert forall|k: Seq<char>| crate::custom_properties::seen_name(names@, names@.len() as int, k) == has_name(names@, k) by {
            if has_name(names@, k) {
                let a = choose|a: int| 0 <= a < names@.len() && #[trigger] names@[a]@ == k;
                assert(names@[a]@ == k);
            }
        }
    }
    let mut t: usize = 0;
    while t < table.len()
        invariant
            t <= table@.len(),
            table@ == property_table(),
            forall|k: Seq<char>| #[trigger] has_name(r@, k) <==> (k != "font-size"@ && (groups@.contains_key(k) || table_prefix_has(t as int, k))),
        decreases table.len() - t,
    {
        let ghost r0 = r@;
        let nm: &str = table[t].name;
        if !str_eq(nm, "font-size") && groups.get(nm).is_none() {
            r.push(crate::strutil::owned(nm));
        }
        proof {
            assert forall|k: Seq<char>| #[trigger] has_name(r@, k) <==> (k != "font-size"@ && (groups@.contains_key(k) || table_prefix_has(t + 1, k))) by {
                if has_name(r@, k) {
                    let a = choose|a: int| 0 <= a < r@.len() && #[trigger] r@[a]@ == k;
                    if a < r0.len() {
                        assert(r0[a] == r@[a]);
                        assert(has_name(r0, k));
                        if table_prefix_has(t as int, k) {
                            let j = choose|j: int| 0 <= j < t && #[trigger] property_table()[j].name@ == k;
                            assert(property_table()[j].name@ == k);
                        }
                    } else {
                        assert(property_table()[t as int].name@ == k);
                    }
                }
                if k != "font-size"@ && (groups@.contains_key(k) || table_prefix_has(t + 1, k)) {
                    if groups@.contains_key(k) || table_prefix_has(t as int, k) {
                        assert(has_name(r0, k));
                        let a = choose|a: int| 0 <= a < r0.len() && #[trigger] r0[a]@ == k;
                        assert(r@[a] == r0[a]);
                    } else {
                        let j = choose|j: int| 0 <= j < t + 1 && #[trigger] property_table()[j].name@ == k;
                        assert(j == t);
                        assert(r@[r@.len() - 1]@ == k);
                    }
                }
            }
        }
        t += 1;
    }
    proof {
        assert forall|k: Seq<char>| table_prefix_has(property_table().len() as int, k) == is_builtin_name(k) by {}
    }
    r
}

} // verus!
