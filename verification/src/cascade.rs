//! Cascade ordering: grouping declared values by property and sorting each
//! group by origin and importance, element-attached styles, layers,
//! specificity and order of appearance (highest precedence first).
use vstd::prelude::*;
use crate::strutil::str_eq;
use crate::style::{DeclaredValue, Origin};

verus! {

broadcast use vstd::seq_lib::group_to_multiset_ensures;

/// Origin and importance (criterion 1): normal UA < normal user < normal
/// author < important author < important user < important UA.
pub open spec fn origin_importance_rank(d: DeclaredValue) -> int {
    if !d.important {
        match d.origin {
            Origin::UserAgent => 0,
            Origin::User => 1,
            Origin::Author => 2,
        }
    } else {
        match d.origin {
            Origin::Author => 3,
            Origin::User => 4,
            Origin::UserAgent => 5,
        }
    }
}

/// Layer rank (criterion 4): for normal declarations later layers win and
/// unlayered declarations beat every layer; for important declarations
/// earlier layers win and unlayered declarations lose to every layer.
pub open spec fn layer_rank(d: DeclaredValue) -> int {
    if !d.important {
        match d.layer_order {
            None => usize::MAX as int + 1,
            Some(i) => i as int,
        }
    } else {
        match d.layer_order {
            None => -(usize::MAX as int) - 1,
            Some(i) => -(i as int),
        }
    }
}

/// `x` takes precedence over `y`: lexicographic on origin and importance,
/// style attribute, layer, specificity `(a, b, c)` and order of appearance.
pub open spec fn beats(x: DeclaredValue, y: DeclaredValue) -> bool {
    let (ox, oy) = (origin_importance_rank(x), origin_importance_rank(y));
    let (sx, sy) = (if x.from_style_attr { 1int } else { 0int }, if y.from_style_attr { 1int } else { 0int });
    let (lx, ly) = (layer_rank(x), layer_rank(y));
    if ox != oy {
        ox > oy
    } else if sx != sy {
        sx > sy
    } else if lx != ly {
        lx > ly
    } else if x.specificity.a != y.specificity.a {
        x.specificity.a > y.specificity.a
    } else if x.specificity.b != y.specificity.b {
        x.specificity.b > y.specificity.b
    } else if x.specificity.c != y.specificity.c {
        x.specificity.c > y.specificity.c
    } else {
        x.order > y.order
    }
}

/// The group is ordered from the winner down: no later entry beats an
/// earlier one.
pub open spec fn sorted_desc(s: Seq<DeclaredValue>) -> bool {
    forall|i: int, j: int| 0 <= i < j < s.len() ==> !beats(#[trigger] s[j], #[trigger] s[i])
}

/// The declarations of property `n`, in input order.
pub open spec fn decls_of(declared: Seq<DeclaredValue>, n: Seq<char>) -> Seq<DeclaredValue> {
    declared.filter(property_is(n))
}

/// The predicate "is a declaration of property `n`".
pub open spec fn property_is(n: Seq<char>) -> spec_fn(DeclaredValue) -> bool {
    |d: DeclaredValue| d.property@ == n
}

/// Law: `beats` is a strict order (irreflexive and transitive) and any two
/// declarations are either comparable or tie on every criterion.
pub proof fn lemma_beats_strict_total(x: DeclaredValue, y: DeclaredValue, z: DeclaredValue)
    ensures
        !beats(x, x),
        beats(x, y) && beats(y, z) ==> beats(x, z),
        beats(x, y) ==> !beats(y, x),
        !beats(x, y) && !beats(y, z) ==> !beats(x, z),
{
}

fn oi_rank(d: &DeclaredValue) -> (r: u8)
    ensures
        r as int == origin_importance_rank(*d),
{
    if !d.important {
        match d.origin {
            Origin::UserAgent => 0,
            Origin::User => 1,
            Origin::Author => 2,
        }
    } else {
        match d.origin {
            Origin::Author => 3,
            Origin::User => 4,
            Origin::UserAgent => 5,
        }
    }
}

/// Compares the layer ranks: `Some(true)` when `x` ranks higher, `Some(false)`
/// when `y` does, `None` on a tie. Both share the same importance.
fn compare_layers(x: &DeclaredValue, y: &DeclaredValue) -> (r: Option<bool>)
    requires
        x.important == y.important,
    ensures
        r == Some(true) <==> layer_rank(*x) > layer_rank(*y),
        r == Some(false) <==> layer_rank(*x) < layer_rank(*y),
        r is None <==> layer_rank(*x) == layer_rank(*y),
{
    match (x.layer_order, y.layer_order) {
        (None, None) => None,
        (None, Some(_)) => Some(!x.important),
        (Some(_), None) => Some(x.important),
        (Some(i), Some(j)) => {
            if i == j {
                None
            } else if !x.important {
                Some(i > j)
            } else {
                Some(i < j)
            }
        },
    }
}

/// Whether `x` takes precedence over `y` in the cascade.
pub fn wins_over(x: &DeclaredValue, y: &DeclaredValue) -> (r: bool)
    ensures
        r == beats(*x, *y),
{
    let ox = oi_rank(x);
    let oy = oi_rank(y);
    if ox != oy {
        return ox > oy;
    }
    if x.from_style_attr != y.from_style_attr {
        return x.from_style_attr;
    }
    match compare_layers(x, y) {
        Some(b) => {
            return b;
        },
        None => {},
    }
    if x.specificity.a != y.specificity.a {
        return x.specificity.a > y.specificity.a;
    }
    if x.specificity.b != y.specificity.b {
        return x.specificity.b > y.specificity.b;
    }
    if x.specificity.c != y.specificity.c {
        return x.specificity.c > y.specificity.c;
    }
    x.order > y.order
}

/// Inserts `d` into a group kept in cascade order, after every entry it does
/// not beat (so equal entries keep their arrival order).
fn insert_sorted(g: &mut Vec<DeclaredValue>, d: DeclaredValue)
    requires
        sorted_desc(old(g)@),
    ensures
        sorted_desc(final(g)@),
        final(g)@.to_multiset() == old(g)@.to_multiset().insert(d),
{
    let mut p: usize = 0;
    while p < g.len()
        invariant
            p <= g.len(),
            g@ == old(g)@,
            forall|k: int| 0 <= k < p ==> !beats(d, #[trigger] g@[k]),
        ensures
            p <= g.len(),
            g@ == old(g)@,
            forall|k: int| 0 <= k < p ==> !beats(d, #[trigger] g@[k]),
            p < g.len() ==> beats(d, g@[p as int]),
        decreases g.len() - p,
    {
        if wins_over(&d, &g[p]) {
            break;
        }
        p += 1;
    }
    let ghost before = g@;
    g.insert(p, d);
    proof {
        assert(g@ == before.insert(p as int, d));
        assert forall|i: int, j: int| 0 <= i < j < g@.len() implies !beats(#[trigger] g@[j], #[trigger] g@[i]) by {
            lemma_beats_strict_total(d, d, d);
            if j < p {
                assert(g@[i] == before[i] && g@[j] == before[j]);
            } else if j == p {
                assert(g@[i] == before[i]);
                assert(!beats(d, before[i]));
            } else if i == p {
                assert(g@[j] == before[j - 1]);
                if p < before.len() {
                    assert(beats(d, before[p as int]));
                    if j - 1 > p {
                        assert(!beats(before[j - 1], before[p as int]));
                        lemma_beats_strict_total(before[j - 1], before[p as int], d);
                        lemma_beats_strict_total(d, before[p as int], before[j - 1]);
                    }
                }
            } else if i < p {
                assert(g@[i] == before[i] && g@[j] == before[j - 1]);
            } else {
                assert(g@[i] == before[i - 1] && g@[j] == before[j - 1]);
            }
        }
    }
}

/// Declared values grouped by property; each group is in cascade order,
/// winner first.
#[derive(Debug)]
pub struct CascadeGroups {
    entries: Vec<(String, Vec<DeclaredValue>)>,
}

/// The map that a group list describes.
pub open spec fn groups_map(e: Seq<(String, Vec<DeclaredValue>)>) -> Map<Seq<char>, Seq<DeclaredValue>>
    decreases e.len(),
{
    if e.len() == 0 {
        Map::empty()
    } else {
        groups_map(e.drop_last()).insert(e.last().0@, e.last().1@)
    }
}

/// Group names are pairwise distinct.
pub open spec fn distinct_group_names(e: Seq<(String, Vec<DeclaredValue>)>) -> bool {
    forall|i: int, j: int| 0 <= i < j < e.len() ==> e[i].0@ != e[j].0@
}

proof fn lemma_groups_map_index(e: Seq<(String, Vec<DeclaredValue>)>, k: Seq<char>)
    requires
        distinct_group_names(e),
    ensures
        groups_map(e).contains_key(k) <==> exists|i: int| 0 <= i < e.len() && e[i].0@ == k,
        forall|i: int| 0 <= i < e.len() && e[i].0@ == k ==> groups_map(e)[k] == e[i].1@,
    decreases e.len(),
{
    if e.len() > 0 {
        let p = e.drop_last();
        assert forall|i: int, j: int| 0 <= i < j < p.len() implies p[i].0@ != p[j].0@ by {
            assert(p[i] == e[i] && p[j] == e[j]);
        }
        lemma_groups_map_index(p, k);
        if groups_map(e).contains_key(k) && e.last().0@ != k {
            let i = choose|i: int| 0 <= i < p.len() && p[i].0@ == k;
            assert(e[i] == p[i]);
        }
        assert forall|i: int| 0 <= i < e.len() && e[i].0@ == k implies groups_map(e)[k] == e[i].1@ by {
            if i < e.len() - 1 {
                assert(e[i] == p[i]);
            }
        }
        if exists|i: int| 0 <= i < e.len() && e[i].0@ == k {
            let i = choose|i: int| 0 <= i < e.len() && e[i].0@ == k;
            if i < e.len() - 1 {
                assert(e[i] == p[i]);
            }
        }
    }
}

impl View for CascadeGroups {
    type V = Map<Seq<char>, Seq<DeclaredValue>>;

    closed spec fn view(&self) -> Map<Seq<char>, Seq<DeclaredValue>> {
        groups_map(self.entries@)
    }
}

impl CascadeGroups {
    #[verifier::type_invariant]
    spec fn inv(self) -> bool {
        distinct_group_names(self.entries@)
    }

    fn find(&self, name: &str) -> (r: Option<usize>)
        ensures
            match r {
                Some(i) => i < self.entries@.len() && self.entries@[i as int].0@ == name@,
                None => forall|i: int| 0 <= i < self.entries@.len() ==> self.entries@[i].0@ != name@,
            },
    {
        let mut i: usize = 0;
        while i < self.entries.len()
            invariant
                i <= self.entries@.len(),
                forall|j: int| 0 <= j < i ==> self.entries@[j].0@ != name@,
            decreases self.entries.len() - i,
        {
            if str_eq(self.entries[i].0.as_str(), name) {
                return Some(i);
            }
            i += 1;
        }
        None
    }

    /// The cascade-ordered declarations of a property.
    pub fn get(&self, name: &str) -> (r: Option<&Vec<DeclaredValue>>)
        ensures
            r is Some == self@.contains_key(name@),
            r matches Some(g) ==> g@ == self@[name@],
    {
        proof {
            use_type_invariant(self);
            lemma_groups_map_index(self.entries@, name@);
        }
        match self.find(name) {
            Some(i) => Some(&self.entries[i].1),
            None => None,
        }
    }

    /// Names of all grouped properties.
    pub fn names(&self) -> (r: Vec<String>)
        ensures
            forall|k: Seq<char>| self@.contains_key(k) <==> exists|i: int| 0 <= i < r@.len() && r@[i]@ == k,
    {
        proof {
            use_type_invariant(self);
        }
        let mut r: Vec<String> = Vec::new();
        let mut i: usize = 0;
        while i < self.entries.len()
            invariant
                i <= self.entries@.len(),
                r@.len() == i,
                forall|j: int| 0 <= j < i ==> r@[j]@ == self.entries@[j].0@,
            decreases self.entries.len() - i,
        {
            r.push(self.entries[i].0.clone());
            i += 1;
        }
        proof {
            assert forall|k: Seq<char>| self@.contains_key(k) <==> exists|i: int| 0 <= i < r@.len() && r@[i]@ == k by {
                lemma_groups_map_index(self.entries@, k);
                if exists|i: int| 0 <= i < r@.len() && r@[i]@ == k {
                    let i = choose|i: int| 0 <= i < r@.len() && r@[i]@ == k;
                    assert(self.entries@[i].0@ == k);
                }
                if self@.contains_key(k) {
                    let i = choose|i: int| 0 <= i < self.entries@.len() && self.entries@[i].0@ == k;
                    assert(r@[i]@ == k);
                }
            }
        }
        r
    }
}

/// What `cascade_for_element` promises of its result for the given input.
pub open spec fn is_cascade_of(g: Map<Seq<char>, Seq<DeclaredValue>>, declared: Seq<DeclaredValue>) -> bool {
    &&& forall|n: Seq<char>| g.contains_key(n) <==> exists|i: int| 0 <= i < declared.len() && #[trigger] declared[i].property@ == n
    &&& forall|n: Seq<char>| #[trigger] g.contains_key(n) ==> g[n].to_multiset() == decls_of(declared, n).to_multiset() && sorted_desc(g[n])
}


proof fn lemma_decls_of_push(p: Seq<DeclaredValue>, d: DeclaredValue, n: Seq<char>)
    ensures
        decls_of(p.push(d), n) == if d.property@ == n { decls_of(p, n).push(d) } else { decls_of(p, n) },
{
    p.lemma_filter_push(d, property_is(n));
}

/// Some group carries the name `nm`.
pub open spec fn group_named(g: Seq<(String, Vec<DeclaredValue>)>, nm: Seq<char>) -> bool {
    exists|i: int| 0 <= i < g.len() && #[trigger] g[i].0@ == nm
}

/// One of the first `k` declarations is for property `nm`.
pub open spec fn declares(all: Seq<DeclaredValue>, k: int, nm: Seq<char>) -> bool {
    exists|t: int| 0 <= t < k && #[trigger] all[t].property@ == nm
}

proof fn lemma_decls_of_none(p: Seq<DeclaredValue>, n: Seq<char>)
    requires
        forall|t: int| 0 <= t < p.len() ==> #[trigger] p[t].property@ != n,
    ensures
        decls_of(p, n) == Seq::<DeclaredValue>::empty(),
    decreases p.len(),
{
    if p.len() > 0 {
        let q = p.drop_last();
        assert forall|t: int| 0 <= t < q.len() implies #[trigger] q[t].property@ != n by {
            assert(q[t] == p[t]);
        }
        lemma_decls_of_none(q, n);
        assert(q.push(p.last()) =~= p);
        lemma_decls_of_push(q, p.last(), n);
    } else {
        assert(decls_of(p, n) =~= Seq::<DeclaredValue>::empty());
    }
}

/// Groups the declared values of one element by property and orders
/// every group from the winning declaration down.
pub fn cascade_for_element(declared: Vec<DeclaredValue>) -> (r: CascadeGroups)
    ensures
        is_cascade_of(r@, declared@),
{
    let ghost all = declared@;
    let mut rest = declared;
    let mut groups: Vec<(String, Vec<DeclaredValue>)> = Vec::new();
    let n = rest.len();
    let mut k: usize = 0;
    while k < n
        invariant
            n == all.len(),
            k <= n,
            rest@ == all.skip(k as int),
            distinct_group_names(groups@),
            forall|i: int| 0 <= i < groups@.len() ==> (#[trigger] groups@[i]).1@.to_multiset() == decls_of(all.take(k as int), groups@[i].0@).to_multiset() && sorted_desc(groups@[i].1@),
            forall|nm: Seq<char>| #[trigger] group_named(groups@, nm) <==> declares(all, k as int, nm),
        decreases n - k,
    {
        let d = rest.remove(0);
        assert(d == all[k as int]);
        let ghost old_groups = groups@;
        let ghost dn = d.property@;
        proof {
            assert(all.take(k + 1) =~= all.take(k as int).push(d));
            assert(rest@ =~= all.skip(k + 1));
        }
        let mut found: Option<usize> = None;
        let mut j: usize = 0;
        while j < groups.len()
            invariant_except_break
                found is None,
            invariant
                j <= groups@.len(),
                forall|i: int| 0 <= i < j ==> groups@[i].0@ != dn,
                d.property@ == dn,
            ensures
                match found {
                    Some(f) => f < groups@.len() && groups@[f as int].0@ == dn,
                    None => forall|i: int| 0 <= i < groups@.len() ==> groups@[i].0@ != dn,
                },
            decreases groups.len() - j,
        {
            if str_eq(groups[j].0.as_str(), d.property.as_str()) {
                found = Some(j);
                break;
            }
            j += 1;
        }
        match found {
            Some(f) => {
                let (name, mut g) = groups.remove(f);
                insert_sorted(&mut g, d);
                groups.insert(f, (name, g));
                proof {
                    assert(groups@ =~= old_groups.update(f as int, groups@[f as int]));
                    assert forall|a: int, b: int| 0 <= a < b < groups@.len() implies groups@[a].0@ != groups@[b].0@ by {
                        assert(groups@[a].0@ == old_groups[a].0@ && groups@[b].0@ == old_groups[b].0@);
                    }
                    assert forall|i: int| 0 <= i < groups@.len() implies (#[trigger] groups@[i]).1@.to_multiset() == decls_of(all.take(k + 1), groups@[i].0@).to_multiset() && sorted_desc(groups@[i].1@) by {
                        lemma_decls_of_push(all.take(k as int), d, groups@[i].0@);
                        if i != f {
                            assert(groups@[i] == old_groups[i]);
                        }
                    }
                    assert forall|nm: Seq<char>| #[trigger] group_named(groups@, nm) <==> declares(all, k + 1, nm) by {
                        assert(group_named(old_groups, nm) <==> declares(all, k as int, nm));
                        if exists|i: int| 0 <= i < groups@.len() && #[trigger] groups@[i].0@ == nm {
                            let i = choose|i: int| 0 <= i < groups@.len() && #[trigger] groups@[i].0@ == nm;
                            assert(old_groups[i].0@ == nm);
                        }
                        if exists|t: int| 0 <= t < k + 1 && #[trigger] all[t].property@ == nm {
                            let t = choose|t: int| 0 <= t < k + 1 && #[trigger] all[t].property@ == nm;
                            if t < k {
                                let i = choose|i: int| 0 <= i < old_groups.len() && #[trigger] old_groups[i].0@ == nm;
                                assert(groups@[i].0@ == nm);
                            } else {
                                assert(groups@[f as int].0@ == nm);
                            }
                        }
                    }
                }
            },
            None => {
                let name = d.property.clone();
                let mut g: Vec<DeclaredValue> = Vec::new();
                g.push(d);
                groups.push((name, g));
                proof {
                    assert(groups@ =~= old_groups.push(groups@.last()));
                    assert forall|a: int, b: int| 0 <= a < b < groups@.len() implies groups@[a].0@ != groups@[b].0@ by {
                        assert(groups@[a] == old_groups[a]);
                        if b < old_groups.len() {
                            assert(groups@[b] == old_groups[b]);
                        }
                    }
                    assert forall|i: int| 0 <= i < groups@.len() implies (#[trigger] groups@[i]).1@.to_multiset() == decls_of(all.take(k + 1), groups@[i].0@).to_multiset() && sorted_desc(groups@[i].1@) by {
                        lemma_decls_of_push(all.take(k as int), d, groups@[i].0@);
                        if i < old_groups.len() {
                            assert(groups@[i] == old_groups[i]);
                        } else {
                            assert(groups@[i].0@ == dn);
                            assert(!group_named(old_groups, dn));
                            assert(!declares(all, k as int, dn));
                            assert forall|t: int| 0 <= t < all.take(k as int).len() implies #[trigger] all.take(k as int)[t].property@ != dn by {
                                assert(all.take(k as int)[t] == all[t]);
                                if all[t].property@ == dn {
                                    assert(declares(all, k as int, dn));
                                }
                            }
                            lemma_decls_of_none(all.take(k as int), dn);
                            assert(g@ =~= seq![d]);
                            assert(Seq::<DeclaredValue>::empty().push(d) =~= seq![d]);
                        }
                    }
                    assert forall|nm: Seq<char>| #[trigger] group_named(groups@, nm) <==> declares(all, k + 1, nm) by {
                        assert(group_named(old_groups, nm) <==> declares(all, k as int, nm));
                        if exists|i: int| 0 <= i < groups@.len() && #[trigger] groups@[i].0@ == nm {
                            let i = choose|i: int| 0 <= i < groups@.len() && #[trigger] groups@[i].0@ == nm;
                            if i < old_groups.len() {
                                assert(old_groups[i].0@ == nm);
                            } else {
                                assert(all[k as int].property@ == nm);
                            }
                        }
                        if exists|t: int| 0 <= t < k + 1 && #[trigger] all[t].property@ == nm {
                            let t = choose|t: int| 0 <= t < k + 1 && #[trigger] all[t].property@ == nm;
                            if t < k {
                                let i = choose|i: int| 0 <= i < old_groups.len() && #[trigger] old_groups[i].0@ == nm;
                                assert(groups@[i].0@ == nm);
                            } else {
                                assert(groups@[groups@.len() - 1].0@ == nm);
                            }
                        }
                    }
                }
            },
        }
        k += 1;
    }
    proof {
        assert(all.take(n as int) =~= all);
        assert forall|nm: Seq<char>| #[trigger] groups_map(groups@).contains_key(nm) <==> exists|i: int| 0 <= i < all.len() && #[trigger] all[i].property@ == nm by {
            lemma_groups_map_index(groups@, nm);
            assert(group_named(groups@, nm) <==> declares(all, n as int, nm));
        }
        assert forall|nm: Seq<char>| #[trigger] groups_map(groups@).contains_key(nm) implies groups_map(groups@)[nm].to_multiset() == decls_of(all, nm).to_multiset() && sorted_desc(groups_map(groups@)[nm]) by {
            lemma_groups_map_index(groups@, nm);
            let i = choose|i: int| 0 <= i < groups@.len() && groups@[i].0@ == nm;
            assert(groups@[i].1@ == groups_map(groups@)[nm]);
        }
    }
    CascadeGroups { entries: groups }
}

/// The cascaded value's declaration: the first entry of a cascade-ordered
/// group (`None` for an empty group).
pub fn cascade_winner(group: &[DeclaredValue]) -> (r: Option<&DeclaredValue>)
    ensures
        r is None <==> group@.len() == 0,
        r matches Some(w) ==> *w == group@[0],
{
    if group.len() == 0 {
        None
    } else {
        Some(&group[0])
    }
}


/// Law: in every group of a cascade, the winner is a declaration of that
/// property and no declaration of the property takes precedence over it.
pub proof fn lemma_winner_beats_group(g: Map<Seq<char>, Seq<DeclaredValue>>, declared: Seq<DeclaredValue>, n: Seq<char>)
    requires
        is_cascade_of(g, declared),
        g.contains_key(n),
    ensures
        g[n].len() > 0,
        decls_of(declared, n).contains(g[n][0]),
        g[n][0].property@ == n,
        forall|d: DeclaredValue| decls_of(declared, n).contains(d) ==> !beats(d, g[n][0]),
{
    broadcast use vstd::seq_lib::group_seq_properties;
    let i = choose|i: int| 0 <= i < declared.len() && #[trigger] declared[i].property@ == n;
    let f = decls_of(declared, n);
    declared.filter_lemma(property_is(n));
    assert(f.contains(declared[i]));
    assert(f.to_multiset().count(declared[i]) > 0);
    assert(g[n].to_multiset().count(declared[i]) > 0);
    assert(g[n].len() > 0);
    assert(g[n].to_multiset().count(g[n][0]) > 0);
    assert(f.to_multiset().count(g[n][0]) > 0);
    assert(f.contains(g[n][0]));
    let j = choose|j: int| 0 <= j < f.len() && f[j] == g[n][0];
    assert(property_is(n)(f[j]));
    assert forall|d: DeclaredValue| f.contains(d) implies !beats(d, g[n][0]) by {
        assert(f.to_multiset().count(d) > 0);
        assert(g[n].to_multiset().count(d) > 0);
        assert(g[n].contains(d));
        let k = choose|k: int| 0 <= k < g[n].len() && g[n][k] == d;
        lemma_beats_strict_total(d, d, d);
        if k > 0 {
            assert(!beats(g[n][k], g[n][0]));
        }
    }
}

/// Law (the seven cascade criteria as the order applies them): an important
/// declaration beats a normal one; normal author beats normal user beats
/// normal user-agent and important user-agent beats important user beats
/// important author; with equal origin and importance the style attribute
/// wins; then layers (normal: unlayered beats layered and later layers win;
/// important: layered beats unlayered and earlier layers win); then higher
/// specificity; then the later declaration.
pub proof fn lemma_cascade_criteria(x: DeclaredValue, y: DeclaredValue)
    ensures
        x.important && !y.important ==> beats(x, y),
        !x.important && !y.important && x.origin == Origin::Author && y.origin != Origin::Author ==> beats(x, y),
        !x.important && !y.important && x.origin == Origin::User && y.origin == Origin::UserAgent ==> beats(x, y),
        x.important && y.important && x.origin == Origin::UserAgent && y.origin != Origin::UserAgent ==> beats(x, y),
        x.important && y.important && x.origin == Origin::User && y.origin == Origin::Author ==> beats(x, y),
        origin_importance_rank(x) == origin_importance_rank(y) && x.from_style_attr && !y.from_style_attr ==> beats(x, y),
        origin_importance_rank(x) == origin_importance_rank(y) && x.from_style_attr == y.from_style_attr && !x.important && !y.important ==> (
            (x.layer_order is None && y.layer_order is Some ==> beats(x, y))
            && (x.layer_order matches Some(i) && y.layer_order matches Some(j) && i > j ==> beats(x, y))),
        origin_importance_rank(x) == origin_importance_rank(y) && x.from_style_attr == y.from_style_attr && x.important && y.important ==> (
            (x.layer_order is Some && y.layer_order is None ==> beats(x, y))
            && (x.layer_order matches Some(i) && y.layer_order matches Some(j) && i < j ==> beats(x, y))),
        origin_importance_rank(x) == origin_importance_rank(y) && x.from_style_attr == y.from_style_attr && layer_rank(x) == layer_rank(y) ==> (
            ((x.specificity.a, x.specificity.b, x.specificity.c) != (y.specificity.a, y.specificity.b, y.specificity.c) ==> (beats(x, y) <==> (
                x.specificity.a > y.specificity.a || (x.specificity.a == y.specificity.a && x.specificity.b > y.specificity.b)
                || (x.specificity.a == y.specificity.a && x.specificity.b == y.specificity.b && x.specificity.c > y.specificity.c))))
            && (x.specificity == y.specificity ==> (beats(x, y) <==> x.order > y.order))),
{
}

} // verus!
