//! Custom property (`--*`) tables and their collection from the cascade.
use vstd::prelude::*;
use muskitty_selectors::matching::DomElement;
use crate::cascade::{cascade_for_element, cascade_winner, is_cascade_of, CascadeGroups};
use crate::defaulting::{extract_single_ident, single_ident};
use crate::filter::{collect_declared_values, collect_spec, decl_views, layer_declaration_bound, lemma_views_decl_total, opt_text, parse_style_opt, prepare_sheets, style_decls, DeclView, prep_sheets, prepared_views, sheets_layer_budget, views_decl_total, PreparedRule, SheetDeclaration, StyleSheet};
use crate::media::default_media;
use crate::strutil::{ascii_lower, eq_ascii_ci, eq_ignore_ascii_case, has_dashdash_prefix, starts_with_dashdash, str_eq};
use crate::style::{declared_views, DeclaredValue};
use crate::token::{clone_cvs, cvs_view, ComponentValue, CvView};

verus! {

/// A table of custom properties: name → declared component values.
#[derive(Debug)]
pub struct CustomProperties {
    entries: Vec<(String, Vec<ComponentValue>)>,
}

/// The map an association list of custom properties describes.
pub open spec fn props_map(e: Seq<(String, Vec<ComponentValue>)>) -> Map<Seq<char>, Seq<CvView>>
    decreases e.len(),
{
    if e.len() == 0 {
        Map::empty()
    } else {
        props_map(e.drop_last()).insert(e.last().0@, cvs_view(e.last().1@))
    }
}

/// Names of an association list are pairwise distinct.
pub open spec fn distinct_prop_names(e: Seq<(String, Vec<ComponentValue>)>) -> bool {
    forall|i: int, j: int| 0 <= i < j < e.len() ==> e[i].0@ != e[j].0@
}

proof fn lemma_props_map_index(e: Seq<(String, Vec<ComponentValue>)>, k: Seq<char>)
    requires
        distinct_prop_names(e),
    ensures
        props_map(e).contains_key(k) <==> exists|i: int| 0 <= i < e.len() && e[i].0@ == k,
        forall|i: int| 0 <= i < e.len() && e[i].0@ == k ==> props_map(e)[k] == cvs_view(e[i].1@),
        props_map(e).dom().finite(),
        props_map(e).dom().len() == e.len(),
    decreases e.len(),
{
    if e.len() > 0 {
        let p = e.drop_last();
        assert forall|i: int, j: int| 0 <= i < j < p.len() implies p[i].0@ != p[j].0@ by {
            assert(p[i] == e[i] && p[j] == e[j]);
        }
        lemma_props_map_index(p, k);
        lemma_props_map_index(p, e.last().0@);
        if props_map(e).contains_key(k) && e.last().0@ != k {
            let i = choose|i: int| 0 <= i < p.len() && p[i].0@ == k;
            assert(e[i] == p[i]);
        }
        assert forall|i: int| 0 <= i < e.len() && e[i].0@ == k implies props_map(e)[k] == cvs_view(e[i].1@) by {
            if i < e.len() - 1 {
                assert(e[i] == p[i]);
            }
        }
        if exists|i: int| 0 <= i < e.len() && e[i].0@ == k {
            let i = choose|i: int| 0 <= i < e.len() && e[i].0@ == k;
            if i < e.len() - 1 {
                assert(e[i] == p[i]);
            }
        }
        if props_map(p).contains_key(e.last().0@) {
            let i = choose|i: int| 0 <= i < p.len() && p[i].0@ == e.last().0@;
            assert(e[i] == p[i]);
            assert(false);
        }
    }
}

impl View for CustomProperties {
    type V = Map<Seq<char>, Seq<CvView>>;

    closed spec fn view(&self) -> Map<Seq<char>, Seq<CvView>> {
        props_map(self.entries@)
    }
}

impl CustomProperties {
    #[verifier::type_invariant]
    spec fn inv(self) -> bool {
        distinct_prop_names(self.entries@)
    }

    /// An empty table.
    pub fn new() -> (r: Self)
        ensures
            r@ == Map::<Seq<char>, Seq<CvView>>::empty(),
    {
        CustomProperties { entries: Vec::new() }
    }

    /// The table holds finitely many names (a proof step, no run-time work).
    pub(crate) fn note_finite(&self)
        ensures
            self@.dom().finite(),
    {
        proof {
            use_type_invariant(self);
            lemma_props_map_index(self.entries@, seq![]);
        }
    }

    fn find(&self, name: &str) -> (r: Option<usize>)
        ensures
            match r {
                Some(i) => i < self.entries@.len() && self.entries@[i as int].0@ == name@,
                None => forall|i: int| 0 <= i < self.entries@.len() ==> self.entries@[i].0@ != name@,
            },
    {
        let mut i: usize = 0;
        while i < self.entries.len()
            invariant
                i <= self.entries@.len(),
                forall|j: int| 0 <= j < i ==> self.entries@[j].0@ != name@,
            decreases self.entries.len() - i,
        {
            if str_eq(self.entries[i].0.as_str(), name) {
                return Some(i);
            }
            i += 1;
        }
        None
    }

    /// The value of a custom property.
    pub fn get(&self, name: &str) -> (r: Option<&Vec<ComponentValue>>)
        ensures
            r is Some == self@.contains_key(name@),
            r matches Some(v) ==> cvs_view(v@) == self@[name@],
    {
        proof {
            use_type_invariant(self);
            lemma_props_map_index(self.entries@, name@);
        }
        match self.find(name) {
            Some(i) => Some(&self.entries[i].1),
            None => None,
        }
    }

    /// Whether a custom property is present.
    pub fn contains_key(&self, name: &str) -> (r: bool)
        ensures
            r == self@.contains_key(name@),
    {
        self.get(name).is_some()
    }

    /// Number of custom properties.
    pub fn len(&self) -> (r: usize)
        ensures
            r == self@.dom().len(),
    {
        proof {
            use_type_invariant(self);
            lemma_props_map_index(self.entries@, seq![]);
        }
        self.entries.len()
    }

    /// Sets a custom property.
    pub fn insert(&mut self, name: String, value: Vec<ComponentValue>)
        ensures
            final(self)@ == old(self)@.insert(name@, cvs_view(value@)),
    {
        proof {
            use_type_invariant(&*self);
        }
        let ghost old_e = self.entries@;
        let ghost vv = cvs_view(value@);
        let ghost nv = name@;
        match self.find(name.as_str()) {
            Some(i) => {
                let mut entries: Vec<(String, Vec<ComponentValue>)> = Vec::new();
                std::mem::swap(&mut entries, &mut self.entries);
                entries[i] = (name, value);
                proof {
                    assert(entries@ =~= old_e.update(i as int, entries@[i as int]));
                    assert forall|a: int, b: int| 0 <= a < b < entries@.len() implies entries@[a].0@
                        != entries@[b].0@ by {
                        assert(entries@[a].0@ == old_e[a].0@);
                        assert(entries@[b].0@ == old_e[b].0@);
                    }
                    assert forall|k: Seq<char>| #[trigger] props_map(entries@).contains_key(k)
                        == props_map(old_e).insert(nv, vv).contains_key(k) by {
                        lemma_props_map_index(old_e, k);
                        lemma_props_map_index(entries@, k);
                        if exists|a: int| 0 <= a < old_e.len() && old_e[a].0@ == k {
                            let a = choose|a: int| 0 <= a < old_e.len() && old_e[a].0@ == k;
                            assert(entries@[a].0@ == k);
                        }
                        if exists|a: int| 0 <= a < entries@.len() && entries@[a].0@ == k {
                            let a = choose|a: int| 0 <= a < entries@.len() && entries@[a].0@ == k;
                            assert(old_e[a].0@ == k);
                        }
                    }
                    assert forall|k: Seq<char>| #[trigger] props_map(entries@).contains_key(k)
                        implies props_map(entries@)[k] == props_map(old_e).insert(nv, vv)[k] by {
                        lemma_props_map_index(old_e, k);
                        lemma_props_map_index(entries@, k);
                        let a = choose|a: int| 0 <= a < entries@.len() && entries@[a].0@ == k;
                        if a != i {
                            assert(entries@[a] == old_e[a]);
                        }
                    }
                    assert(props_map(entries@) =~= props_map(old_e).insert(nv, vv));
                }
                self.entries = entries;
            },
            None => {
                let mut entries: Vec<(String, Vec<ComponentValue>)> = Vec::new();
                std::mem::swap(&mut entries, &mut self.entries);
                entries.push((name, value));
                proof {
                    assert(entries@.drop_last() =~= old_e);
                    assert forall|a: int, b: int| 0 <= a < b < entries@.len() implies entries@[a].0@
                        != entries@[b].0@ by {
                        if b < entries@.len() - 1 {
                            assert(entries@[a] == old_e[a] && entries@[b] == old_e[b]);
                        } else {
                            assert(entries@[a] == old_e[a]);
                        }
                    }
                }
                self.entries = entries;
            },
        }
    }

    /// A copy of the table.
    pub fn duplicate(&self) -> (r: Self)
        ensures
            r@ == self@,
    {
        proof {
            use_type_invariant(self);
        }
        let mut entries: Vec<(String, Vec<ComponentValue>)> = Vec::new();
        let mut i: usize = 0;
        while i < self.entries.len()
            invariant
                i <= self.entries@.len(),
                entries@.len() == i,
                forall|j: int| 0 <= j < i ==> entries@[j].0@ == self.entries@[j].0@ && cvs_view(entries@[j].1@) == cvs_view(self.entries@[j].1@),
            decreases self.entries.len() - i,
        {
            let name = self.entries[i].0.clone();
            let value = clone_cvs(self.entries[i].1.as_slice());
            entries.push((name, value));
            i += 1;
        }
        proof {
            assert forall|a: int, b: int| 0 <= a < b < entries@.len() implies entries@[a].0@ != entries@[b].0@ by {
                assert(self.entries@[a].0@ != self.entries@[b].0@);
            }
            assert forall|k: Seq<char>| #[trigger] props_map(entries@).contains_key(k) == props_map(self.entries@).contains_key(k) by {
                lemma_props_map_index(entries@, k);
                lemma_props_map_index(self.entries@, k);
                if exists|a: int| 0 <= a < entries@.len() && entries@[a].0@ == k {
                    let a = choose|a: int| 0 <= a < entries@.len() && entries@[a].0@ == k;
                    assert(self.entries@[a].0@ == k);
                }
                if exists|a: int| 0 <= a < self.entries@.len() && self.entries@[a].0@ == k {
                    let a = choose|a: int| 0 <= a < self.entries@.len() && self.entries@[a].0@ == k;
                    assert(entries@[a].0@ == k);
                }
            }
            assert forall|k: Seq<char>| #[trigger] props_map(entries@).contains_key(k) implies props_map(entries@)[k] == props_map(self.entries@)[k] by {
                lemma_props_map_index(entries@, k);
                lemma_props_map_index(self.entries@, k);
                let a = choose|a: int| 0 <= a < entries@.len() && entries@[a].0@ == k;
                assert(self.entries@[a].0@ == k);
            }
            assert(props_map(entries@) =~= props_map(self.entries@));
        }
        CustomProperties { entries }
    }

    /// Names of all custom properties.
    pub fn names(&self) -> (r: Vec<String>)
        ensures
            forall|k: Seq<char>| self@.contains_key(k) <==> exists|i: int| 0 <= i < r@.len() && r@[i]@ == k,
    {
        proof {
            use_type_invariant(self);
        }
        let mut r: Vec<String> = Vec::new();
        let mut i: usize = 0;
        while i < self.entries.len()
            invariant
                i <= self.entries@.len(),
                r@.len() == i,
                forall|j: int| 0 <= j < i ==> r@[j]@ == self.entries@[j].0@,
            decreases self.entries.len() - i,
        {
            r.push(self.entries[i].0.clone());
            i += 1;
        }
        proof {
            assert forall|k: Seq<char>| self@.contains_key(k) <==> exists|i: int| 0 <= i < r@.len() && r@[i]@ == k by {
                lemma_props_map_index(self.entries@, k);
                if exists|i: int| 0 <= i < r@.len() && r@[i]@ == k {
                    let i = choose|i: int| 0 <= i < r@.len() && r@[i]@ == k;
                    assert(self.entries@[i].0@ == k);
                }
                if self@.contains_key(k) {
                    let i = choose|i: int| 0 <= i < self.entries@.len() && self.entries@[i].0@ == k;
                    assert(r@[i]@ == k);
                }
            }
        }
        r
    }
}


// ── collection from the cascade ──────────────────────────────────────────

/// A CSS-wide keyword value (`initial`, `inherit`, `unset`, `revert`, one
/// identifier up to whitespace): such a declaration takes
/// its keyword meaning, so it is not stored as a custom property value.
pub open spec fn is_css_wide_value(s: Seq<CvView>) -> bool {
    match single_ident(s) {
        Some(k) => eq_ascii_ci(k, "initial"@) || eq_ascii_ci(k, "inherit"@) || eq_ascii_ci(k, "unset"@) || eq_ascii_ci(k, "revert"@),
        None => false,
    }
}

/// Whether a value is a CSS-wide keyword.
pub fn is_css_wide_keyword(value: &[ComponentValue]) -> (r: bool)
    ensures
        r == is_css_wide_value(cvs_view(value@)),
{
    match extract_single_ident(value) {
        Some(k) => {
            let w = k.as_str();
            eq_ignore_ascii_case(w, "initial") || eq_ignore_ascii_case(w, "inherit") || eq_ignore_ascii_case(w, "unset")
                || eq_ignore_ascii_case(w, "revert")
        },
        None => false,
    }
}

/// The element sets custom property `n` itself: a `--*` group with a
/// winner whose value is not a CSS-wide keyword.
pub open spec fn declares_custom(g: Map<Seq<char>, Seq<DeclaredValue>>, n: Seq<char>) -> bool {
    has_dashdash_prefix(n) && g.contains_key(n) && g[n].len() > 0 && !is_css_wide_value(cvs_view(g[n][0].value@))
}

/// The custom properties an element sets itself, with their winning values.
pub open spec fn own_custom_props(g: Map<Seq<char>, Seq<DeclaredValue>>) -> Map<Seq<char>, Seq<CvView>> {
    Map::new(|n: Seq<char>| declares_custom(g, n), |n: Seq<char>| cvs_view(g[n][0].value@))
}

/// Some of the first `i` names is `k`.
pub open spec fn seen_name(names: Seq<String>, i: int, k: Seq<char>) -> bool {
    exists|j: int| 0 <= j < i && #[trigger] names[j]@ == k
}

fn add_winners(props: &mut CustomProperties, groups: &CascadeGroups)
    ensures
        final(props)@ == old(props)@.union_prefer_right(own_custom_props(groups@)),
{
    let ghost p0 = props@;
    let ghost g = groups@;
    let names = groups.names();
    let mut i: usize = 0;
    while i < names.len()
        invariant
            i <= names@.len(),
            g == groups@,
            forall|k: Seq<char>| g.contains_key(k) <==> exists|j: int| 0 <= j < names@.len() && names@[j]@ == k,
            forall|k: Seq<char>| #[trigger] props@.contains_key(k) == (p0.contains_key(k) || (declares_custom(g, k) && seen_name(names@, i as int, k))),
            forall|k: Seq<char>| #[trigger] props@.contains_key(k) ==> props@[k] == (if declares_custom(g, k) && seen_name(names@, i as int, k) { cvs_view(g[k][0].value@) } else { p0[k] }),
        decreases names.len() - i,
    {
        let ghost pi = props@;
        let name = &names[i];
        proof {
            assert(names@[i as int]@ == name@);
            assert forall|k: Seq<char>| seen_name(names@, i + 1, k) == (seen_name(names@, i as int, k) || k == name@) by {
                if seen_name(names@, i + 1, k) && !seen_name(names@, i as int, k) {
                    let j = choose|j: int| 0 <= j < i + 1 && #[trigger] names@[j]@ == k;
                    assert(j == i);
                }
                if k == name@ {
                    assert(names@[i as int]@ == k);
                }
            }
        }
        if starts_with_dashdash(name.as_str()) {
            match groups.get(name.as_str()) {
                Some(gr) => match cascade_winner(gr.as_slice()) {
                    Some(w) => {
                        if !is_css_wide_keyword(w.value.as_slice()) {
                            props.insert(name.clone(), clone_cvs(w.value.as_slice()));
                        }
                    },
                    None => {},
                },
                None => {},
            }
        }
        i += 1;
    }
    proof {
        assert forall|k: Seq<char>| declares_custom(g, k) implies seen_name(names@, names@.len() as int, k) by {
            let j = choose|j: int| 0 <= j < names@.len() && names@[j]@ == k;
            assert(names@[j]@ == k);
        }
        assert(props@ =~= p0.union_prefer_right(own_custom_props(g)));
    }
}

/// The custom properties an element sets itself (not inherited ones): each
/// `--*` property's cascade winner, except CSS-wide keyword values.
pub fn derive_own_custom_props(groups: &CascadeGroups) -> (r: CustomProperties)
    ensures
        r@ == own_custom_props(groups@),
{
    let mut props = CustomProperties::new();
    add_winners(&mut props, groups);
    proof {
        assert(Map::<Seq<char>, Seq<CvView>>::empty().union_prefer_right(own_custom_props(groups@)) =~= own_custom_props(groups@));
    }
    props
}

/// An element's custom property table: the parent's, overridden by those
/// the element sets itself.
pub fn custom_properties_from(parent_props: &CustomProperties, groups: &CascadeGroups) -> (r: CustomProperties)
    ensures
        r@ == parent_props@.union_prefer_right(own_custom_props(groups@)),
{
    let mut props = parent_props.duplicate();
    add_winners(&mut props, groups);
    props
}

/// What collecting an element's custom properties gives: the parent's
/// table overridden by the own `--*` winners of the cascade of the
/// element's declared values, those of the rules (prepared for the default
/// media environment) marked matched and of `inline`.
pub open spec fn custom_properties_outcome(r: Map<Seq<char>, Seq<CvView>>, parent: Map<Seq<char>, Seq<CvView>>, sheets: Seq<StyleSheet>, inline: Seq<SheetDeclaration>) -> bool {
    exists|ds: Seq<DeclaredValue>, g: Map<Seq<char>, Seq<DeclaredValue>>|
        #![trigger is_cascade_of(g, ds)]
        is_cascade_of(g, ds) && r == parent.union_prefer_right(own_custom_props(g))
        && exists|p: Seq<PreparedRule>, m: Seq<bool>|
            #![trigger collect_spec(p, m, inline)]
            prepared_views(p) == prep_sheets(sheets, default_media()).0
            && m.len() == p.len() && declared_views(ds) == collect_spec(p, m, inline)
}

/// Collects an element's custom properties from style sheets (for
/// the default media environment) and its `style` attribute: the parent's
/// table, overridden by the element's own `--*` cascade winners.
pub fn collect_custom_properties(element: &DomElement, sheets: &[StyleSheet], inline: &[SheetDeclaration], parent_props: &CustomProperties) -> (r: CustomProperties)
    requires
        sheets_layer_budget(sheets@) <= usize::MAX,
        views_decl_total(prep_sheets(sheets@, default_media()).0) + inline@.len() < usize::MAX,
    ensures
        custom_properties_outcome(r@, parent_props@, sheets@, inline@),
{
    let declared = collect_declared_values(element, sheets, inline);
    let ghost ds = declared@;
    let groups = cascade_for_element(declared);
    let r = custom_properties_from(parent_props, &groups);
    assert(is_cascade_of(groups@, ds));
    r
}

/// Collects an element's custom properties from style sheets (for the
/// default media environment) and the text of its `style` attribute:
/// `None` when the sheets declare more layers, or the sheets and the
/// attribute more declarations, than can be numbered.
pub fn collect_custom_properties_checked(element: &DomElement, sheets: &[StyleSheet], style_attr: Option<&str>, parent_props: &CustomProperties) -> (r: Option<CustomProperties>)
    ensures
        r is Some <==> (sheets_layer_budget(sheets@) <= usize::MAX
            && views_decl_total(prep_sheets(sheets@, default_media()).0) + style_decls(opt_text(style_attr)).len() < usize::MAX),
        r matches Some(t) ==> exists|inline: Seq<SheetDeclaration>|
            #![trigger decl_views(inline)]
            decl_views(inline) == style_decls(opt_text(style_attr)) && custom_properties_outcome(t@, parent_props@, sheets@, inline),
{
    let b = layer_declaration_bound(sheets);
    if b.is_none() {
        return None;
    }
    let inline = parse_style_opt(style_attr);
    let prepared = prepare_sheets(sheets);
    proof {
        lemma_views_decl_total(prepared.rules@);
    }
    let total = match prepared.declaration_total() {
        Some(n) => n,
        None => {
            return None;
        },
    };
    if total >= usize::MAX - inline.len() {
        return None;
    }
    let r = collect_custom_properties(element, sheets, inline.as_slice(), parent_props);
    let ghost iv = inline@;
    assert(decl_views(iv) == style_decls(opt_text(style_attr)) && custom_properties_outcome(r@, parent_props@, sheets@, iv));
    Some(r)
}

/// Law: a custom property whose winning value is one of the CSS-wide
/// keywords `initial`, `inherit`, `unset` or `revert` (in any ASCII case,
/// whitespace aside) is not set by the element, so an element's table
/// keeps the parent's entry for it, or has none; a winning value that is
/// not a lone identifier is set as it is.
pub proof fn lemma_wide_keyword_values_not_stored(g: Map<Seq<char>, Seq<DeclaredValue>>, parent: Map<Seq<char>, Seq<CvView>>, n: Seq<char>)
    requires
        g.contains_key(n),
        g[n].len() > 0,
    ensures
        (single_ident(cvs_view(g[n][0].value@)) matches Some(w) && (ascii_lower(w) == "initial"@ || ascii_lower(w) == "inherit"@
            || ascii_lower(w) == "unset"@ || ascii_lower(w) == "revert"@)) ==> {
            &&& !own_custom_props(g).contains_key(n)
            &&& parent.union_prefer_right(own_custom_props(g)).contains_key(n) == parent.contains_key(n)
            &&& parent.contains_key(n) ==> parent.union_prefer_right(own_custom_props(g))[n] == parent[n]
        },
        has_dashdash_prefix(n) && single_ident(cvs_view(g[n][0].value@)) is None ==> {
            &&& parent.union_prefer_right(own_custom_props(g)).contains_key(n)
            &&& parent.union_prefer_right(own_custom_props(g))[n] == cvs_view(g[n][0].value@)
        },
{
    reveal_strlit("initial");
    reveal_strlit("inherit");
    reveal_strlit("unset");
    reveal_strlit("revert");
    assert(ascii_lower("initial"@) =~= "initial"@);
    assert(ascii_lower("inherit"@) =~= "inherit"@);
    assert(ascii_lower("unset"@) =~= "unset"@);
    assert(ascii_lower("revert"@) =~= "revert"@);
}

} // verus!
