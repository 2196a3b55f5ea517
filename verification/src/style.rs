//! Declared values (cascade input), computed values (cascade output) and the
//! per-element computed style table.
use vstd::prelude::*;
use crate::strutil::str_eq;
use crate::token::{lemma_cvs_view_len, clone_cvs, cvs_view, ident_cv, lemma_cvs_view_index, lemma_cvs_view_push, ComponentValue, CvView, Token, TokenView};

verus! {

/// Cascade origin of a style sheet.
#[derive(Debug, Clone, Copy, PartialEq, Eq, Structural)]
pub enum Origin {
    /// User-agent default style sheet.
    UserAgent,
    /// User style sheet.
    User,
    /// Author style sheet.
    Author,
}

/// Selector specificity `(a, b, c)`, compared lexicographically.
#[derive(Debug, Clone, Copy, PartialEq, Eq, Structural)]
pub struct Specificity {
    /// ID selectors.
    pub a: u32,
    /// Class, attribute and pseudo-class selectors.
    pub b: u32,
    /// Type selectors and pseudo-elements.
    pub c: u32,
}

impl Specificity {
    /// Builds a specificity triple.
    pub fn new(a: u32, b: u32, c: u32) -> (r: Self)
        ensures
            r == (Specificity { a, b, c }),
    {
        Specificity { a, b, c }
    }
}

/// A declared value: one declaration that applies to the element, with the
/// data the cascade orders it by.
#[derive(Debug, Clone)]
pub struct DeclaredValue {
    /// Property name.
    pub property: String,
    /// Declared component values.
    pub value: Vec<ComponentValue>,
    /// `!important`.
    pub important: bool,
    /// Origin of the declaration.
    pub origin: Origin,
    /// Specificity of the rule's selector.
    pub specificity: Specificity,
    /// Document order (grows over sheets and the style attribute).
    pub order: usize,
    /// The declaration comes from the `style` attribute.
    pub from_style_attr: bool,
    /// Global index of the declaration's `@layer` (`None` when unlayered).
    pub layer_order: Option<usize>,
}

/// What a declared value says: its fields with the value as a sequence of
/// component-value views.
pub struct DeclaredView {
    /// Property name.
    pub property: Seq<char>,
    /// Declared value.
    pub value: Seq<CvView>,
    /// `!important`.
    pub important: bool,
    /// Origin.
    pub origin: Origin,
    /// Specificity.
    pub specificity: Specificity,
    /// Document order.
    pub order: nat,
    /// From the `style` attribute.
    pub from_style_attr: bool,
    /// `@layer` index.
    pub layer_order: Option<usize>,
}

/// View of a declared value.
pub open spec fn declared_view(d: DeclaredValue) -> DeclaredView {
    DeclaredView {
        property: d.property@,
        value: cvs_view(d.value@),
        important: d.important,
        origin: d.origin,
        specificity: d.specificity,
        order: d.order as nat,
        from_style_attr: d.from_style_attr,
        layer_order: d.layer_order,
    }
}

/// Views of declared values.
pub open spec fn declared_views(ds: Seq<DeclaredValue>) -> Seq<DeclaredView> {
    Seq::new(ds.len(), |i: int| declared_view(ds[i]))
}

/// A computed value: a single token sequence (keywords are `[Ident]`).
#[derive(Debug, Clone)]
pub struct ComputedValue(pub Vec<ComponentValue>);

impl View for ComputedValue {
    type V = Seq<CvView>;

    open spec fn view(&self) -> Seq<CvView> {
        cvs_view(self.0@)
    }
}

/// The one-token value `[Ident(k)]`.
pub open spec fn keyword_value(k: Seq<char>) -> Seq<CvView> {
    seq![CvView::Tok(TokenView::Ident(k))]
}

/// The first identifier among the top-level tokens.
pub open spec fn first_ident(s: Seq<CvView>) -> Option<Seq<char>>
    decreases s.len(),
{
    if s.len() == 0 {
        None
    } else {
        match s[0] {
            CvView::Tok(TokenView::Ident(k)) => Some(k),
            _ => first_ident(s.drop_first()),
        }
    }
}

impl ComputedValue {
    /// The keyword value `[Ident(s)]`.
    pub fn from_keyword(s: &str) -> (r: Self)
        ensures
            r@ == keyword_value(s@),
    {
        let v = vec![ident_cv(s.to_owned())];
        proof {
            lemma_cvs_view_push(seq![], v@[0]);
            assert(seq![].push(v@[0]) =~= v@);
        }
        ComputedValue(v)
    }

    /// A value made of the given component values.
    pub fn from_tokens(tokens: Vec<ComponentValue>) -> (r: Self)
        ensures
            r@ == cvs_view(tokens@),
    {
        ComputedValue(tokens)
    }

    /// The underlying component values.
    pub fn tokens(&self) -> (r: &[ComponentValue])
        ensures
            cvs_view(r@) == self@,
    {
        self.0.as_slice()
    }

    /// A copy of the value.
    pub fn duplicate(&self) -> (r: Self)
        ensures
            r@ == self@,
    {
        ComputedValue(clone_cvs(self.0.as_slice()))
    }

    /// The first identifier keyword, if any.
    pub fn keyword(&self) -> (r: Option<&str>)
        ensures
            match r {
                Some(k) => first_ident(self@) == Some(k@),
                None => first_ident(self@) is None,
            },
    {
        let mut i: usize = 0;
        proof {
            lemma_cvs_view_len(self.0@);
            assert(cvs_view(self.0@).skip(0) =~= cvs_view(self.0@));
        }
        while i < self.0.len()
            invariant
                i <= self.0.len(),
                cvs_view(self.0@).len() == self.0@.len(),
                first_ident(self@) == first_ident(cvs_view(self.0@).skip(i as int)),
            decreases self.0.len() - i,
        {
            proof {
                lemma_cvs_view_index(self.0@, i as int);
                assert(cvs_view(self.0@).skip(i as int).drop_first() =~= cvs_view(self.0@).skip(i + 1));
            }
            match &self.0[i] {
                ComponentValue::PreservedToken(Token::Ident(s)) => {
                    return Some(s.as_str());
                },
                _ => {},
            }
            i += 1;
        }
        None
    }
}

/// Per-element computed style: property name → computed value.
#[derive(Debug)]
pub struct ComputedStyle {
    entries: Vec<(String, ComputedValue)>,
}

/// The map that an association list describes.
pub open spec fn entries_map(e: Seq<(String, ComputedValue)>) -> Map<Seq<char>, Seq<CvView>>
    decreases e.len(),
{
    if e.len() == 0 {
        Map::empty()
    } else {
        entries_map(e.drop_last()).insert(e.last().0@, e.last().1@)
    }
}

/// Keys of an association list are pairwise distinct.
pub open spec fn distinct_keys(e: Seq<(String, ComputedValue)>) -> bool {
    forall|i: int, j: int| 0 <= i < j < e.len() ==> e[i].0@ != e[j].0@
}

proof fn lemma_entries_map_index(e: Seq<(String, ComputedValue)>, k: Seq<char>)
    requires
        distinct_keys(e),
    ensures
        entries_map(e).contains_key(k) <==> exists|i: int| 0 <= i < e.len() && e[i].0@ == k,
        forall|i: int| 0 <= i < e.len() && e[i].0@ == k ==> entries_map(e)[k] == e[i].1@,
    decreases e.len(),
{
    if e.len() > 0 {
        let p = e.drop_last();
        assert forall|i: int, j: int| 0 <= i < j < p.len() implies p[i].0@ != p[j].0@ by {
            assert(p[i] == e[i] && p[j] == e[j]);
        }
        lemma_entries_map_index(p, k);
        if entries_map(e).contains_key(k) && e.last().0@ != k {
            let i = choose|i: int| 0 <= i < p.len() && p[i].0@ == k;
            assert(e[i] == p[i]);
        }
        assert forall|i: int| 0 <= i < e.len() && e[i].0@ == k implies entries_map(e)[k] == e[i].1@ by {
            if i < e.len() - 1 {
                assert(e[i] == p[i]);
            }
        }
        if exists|i: int| 0 <= i < e.len() && e[i].0@ == k {
            let i = choose|i: int| 0 <= i < e.len() && e[i].0@ == k;
            if i < e.len() - 1 {
                assert(e[i] == p[i]);
            }
        }
    }
}

impl View for ComputedStyle {
    type V = Map<Seq<char>, Seq<CvView>>;

    closed spec fn view(&self) -> Map<Seq<char>, Seq<CvView>> {
        entries_map(self.entries@)
    }
}

impl ComputedStyle {
    #[verifier::type_invariant]
    spec fn inv(self) -> bool {
        distinct_keys(self.entries@)
    }

    /// An empty style.
    pub fn new() -> (r: Self)
        ensures
            r@ == Map::<Seq<char>, Seq<CvView>>::empty(),
    {
        ComputedStyle { entries: Vec::new() }
    }

    fn find(&self, name: &str) -> (r: Option<usize>)
        ensures
            match r {
                Some(i) => i < self.entries@.len() && self.entries@[i as int].0@ == name@,
                None => forall|i: int| 0 <= i < self.entries@.len() ==> self.entries@[i].0@ != name@,
            },
    {
        let mut i: usize = 0;
        while i < self.entries.len()
            invariant
                i <= self.entries@.len(),
                forall|j: int| 0 <= j < i ==> self.entries@[j].0@ != name@,
            decreases self.entries.len() - i,
        {
            if str_eq(self.entries[i].0.as_str(), name) {
                return Some(i);
            }
            i += 1;
        }
        None
    }

    /// The value of a property.
    pub fn get(&self, name: &str) -> (r: Option<&ComputedValue>)
        ensures
            r is Some == self@.contains_key(name@),
            r matches Some(v) ==> v@ == self@[name@],
    {
        proof {
            use_type_invariant(self);
            lemma_entries_map_index(self.entries@, name@);
        }
        match self.find(name) {
            Some(i) => Some(&self.entries[i].1),
            None => None,
        }
    }

    /// Whether a property has a value.
    pub fn contains(&self, name: &str) -> (r: bool)
        ensures
            r == self@.contains_key(name@),
    {
        self.get(name).is_some()
    }

    /// Sets the value of a property.
    pub fn set(&mut self, name: &str, value: ComputedValue)
        ensures
            final(self)@ == old(self)@.insert(name@, value@),
    {
        proof {
            use_type_invariant(&*self);
        }
        let ghost old_e = self.entries@;
        let ghost vv = value@;
        match self.find(name) {
            Some(i) => {
                let mut entries: Vec<(String, ComputedValue)> = Vec::new();
                std::mem::swap(&mut entries, &mut self.entries);
                let key = entries[i].0.clone();
                entries[i] = (key, value);
                proof {
                    assert(entries@ =~= old_e.update(i as int, entries@[i as int]));
                    assert forall|a: int, b: int| 0 <= a < b < entries@.len() implies entries@[a].0@
                        != entries@[b].0@ by {
                        assert(entries@[a].0@ == old_e[a].0@);
                        assert(entries@[b].0@ == old_e[b].0@);
                    }
                    assert forall|k: Seq<char>| #[trigger] entries_map(entries@).contains_key(k)
                        == entries_map(old_e).insert(name@, vv).contains_key(k) by {
                        lemma_entries_map_index(old_e, k);
                        lemma_entries_map_index(entries@, k);
                        if exists|a: int| 0 <= a < old_e.len() && old_e[a].0@ == k {
                            let a = choose|a: int| 0 <= a < old_e.len() && old_e[a].0@ == k;
                            assert(entries@[a].0@ == k);
                        }
                        if exists|a: int| 0 <= a < entries@.len() && entries@[a].0@ == k {
                            let a = choose|a: int| 0 <= a < entries@.len() && entries@[a].0@ == k;
                            assert(old_e[a].0@ == k);
                        }
                    }
                    assert forall|k: Seq<char>| #[trigger] entries_map(entries@).contains_key(k)
                        implies entries_map(entries@)[k] == entries_map(old_e).insert(name@, vv)[k] by {
                        lemma_entries_map_index(old_e, k);
                        lemma_entries_map_index(entries@, k);
                        let a = choose|a: int| 0 <= a < entries@.len() && entries@[a].0@ == k;
                        if a != i {
                            assert(entries@[a] == old_e[a]);
                        }
                    }
                    assert(entries_map(entries@) =~= entries_map(old_e).insert(name@, vv));
                }
                self.entries = entries;
            },
            None => {
                let key = name.to_owned();
                let mut entries: Vec<(String, ComputedValue)> = Vec::new();
                std::mem::swap(&mut entries, &mut self.entries);
                entries.push((key, value));
                proof {
                    assert(entries@.drop_last() =~= old_e);
                    assert forall|a: int, b: int| 0 <= a < b < entries@.len() implies entries@[a].0@
                        != entries@[b].0@ by {
                        if b < entries@.len() - 1 {
                            assert(entries@[a] == old_e[a] && entries@[b] == old_e[b]);
                        } else {
                            assert(entries@[a] == old_e[a]);
                        }
                    }
                }
                self.entries = entries;
            },
        }
    }

    /// Names of all properties that have a value.
    pub fn names(&self) -> (r: Vec<String>)
        ensures
            forall|k: Seq<char>| self@.contains_key(k) <==> exists|i: int| 0 <= i < r@.len() && r@[i]@ == k,
    {
        proof {
            use_type_invariant(self);
        }
        let mut r: Vec<String> = Vec::new();
        let mut i: usize = 0;
        while i < self.entries.len()
            invariant
                i <= self.entries@.len(),
                r@.len() == i,
                forall|j: int| 0 <= j < i ==> r@[j]@ == self.entries@[j].0@,
            decreases self.entries.len() - i,
        {
            r.push(self.entries[i].0.clone());
            i += 1;
        }
        proof {
            assert forall|k: Seq<char>| self@.contains_key(k) <==> exists|i: int| 0 <= i < r@.len() && r@[i]@ == k by {
                lemma_entries_map_index(self.entries@, k);
                if exists|i: int| 0 <= i < r@.len() && r@[i]@ == k {
                    let i = choose|i: int| 0 <= i < r@.len() && r@[i]@ == k;
                    assert(self.entries@[i].0@ == k);
                }
                if self@.contains_key(k) {
                    let i = choose|i: int| 0 <= i < self.entries@.len() && self.entries@[i].0@ == k;
                    assert(r@[i]@ == k);
                }
            }
        }
        r
    }
}

} // verus!
