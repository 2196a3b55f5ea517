//! Defaulting: the CSS-wide keywords and the value of a property with no
//! cascaded value.
use vstd::prelude::*;
use crate::registry::{css_inherited, is_registered, lemma_registry_inheritance, lookup_property, spec_is_inherited, spec_lookup_property};
use crate::strutil::ascii_lower;
use crate::strutil::{eq_ascii_ci, eq_ignore_ascii_case};
use crate::style::{keyword_value, ComputedValue};
use crate::token::{clone_cvs, cvs_view, lemma_cvs_view_index, lemma_cvs_view_len, ComponentValue, CvView, Token, TokenView};

verus! {

/// The only identifier of a value made of one identifier and whitespace,
/// continuing from `found`.
pub open spec fn single_ident_from(s: Seq<CvView>, found: Option<Seq<char>>) -> Option<Seq<char>>
    decreases s.len(),
{
    if s.len() == 0 {
        found
    } else {
        match s[0] {
            CvView::Tok(TokenView::Whitespace) => single_ident_from(s.drop_first(), found),
            CvView::Tok(TokenView::Ident(k)) => if found is Some {
                None
            } else {
                single_ident_from(s.drop_first(), Some(k))
            },
            _ => None,
        }
    }
}

/// The identifier of a value that is exactly one identifier up to
/// whitespace; `None` otherwise.
pub open spec fn single_ident(s: Seq<CvView>) -> Option<Seq<char>> {
    single_ident_from(s, None)
}

/// The value is exactly the keyword `kw` (ASCII case-insensitively), up to
/// whitespace.
pub open spec fn is_keyword_value(s: Seq<CvView>, kw: Seq<char>) -> bool {
    single_ident(s) matches Some(k) && eq_ascii_ci(k, kw)
}

/// Initial value of a property: its registry initial keyword, or the
/// keyword `initial` for an unregistered property.
pub open spec fn initial_value_of(p: Seq<char>) -> Seq<CvView> {
    match spec_lookup_property(p) {
        Some(d) => keyword_value(d.initial_value@),
        None => keyword_value("initial"@),
    }
}

/// The parent's computed value, or the initial value at the root.
pub open spec fn inherited_value_of(p: Seq<char>, parent: Option<Seq<CvView>>) -> Seq<CvView> {
    match parent {
        Some(v) => v,
        None => initial_value_of(p),
    }
}

/// Value when there is no cascaded value: inherited properties inherit,
/// others take their initial value.
pub open spec fn default_value_of(p: Seq<char>, parent: Option<Seq<CvView>>) -> Seq<CvView> {
    if spec_is_inherited(p) {
        inherited_value_of(p, parent)
    } else {
        initial_value_of(p)
    }
}

/// The specified value from the cascaded value.
pub open spec fn spec_apply_defaulting(p: Seq<char>, cascaded: Option<Seq<CvView>>, parent: Option<Seq<CvView>>) -> Seq<CvView> {
    match cascaded {
        Some(cvs) => if is_keyword_value(cvs, "initial"@) {
            initial_value_of(p)
        } else if is_keyword_value(cvs, "inherit"@) {
            inherited_value_of(p, parent)
        } else if is_keyword_value(cvs, "unset"@) || is_keyword_value(cvs, "revert"@)
            || is_keyword_value(cvs, "revert-layer"@) {
            default_value_of(p, parent)
        } else {
            cvs
        },
        None => default_value_of(p, parent),
    }
}

/// The identifier of a value that is one identifier up to whitespace.
pub fn extract_single_ident(cvs: &[ComponentValue]) -> (r: Option<String>)
    ensures
        match r {
            Some(k) => single_ident(cvs_view(cvs@)) == Some(k@),
            None => single_ident(cvs_view(cvs@)) is None,
        },
{
    let mut found: Option<String> = None;
    let mut i: usize = 0;
    proof {
        lemma_cvs_view_len(cvs@);
        assert(cvs_view(cvs@).skip(0) =~= cvs_view(cvs@));
    }
    while i < cvs.len()
        invariant
            i <= cvs.len(),
            cvs_view(cvs@).len() == cvs@.len(),
            single_ident(cvs_view(cvs@)) == single_ident_from(cvs_view(cvs@).skip(i as int), match found {
                Some(k) => Some(k@),
                None => None,
            }),
        decreases cvs.len() - i,
    {
        proof {
            lemma_cvs_view_index(cvs@, i as int);
            assert(cvs_view(cvs@).skip(i as int).drop_first() =~= cvs_view(cvs@).skip(i + 1));
        }
        match &cvs[i] {
            ComponentValue::PreservedToken(Token::Whitespace) => {},
            ComponentValue::PreservedToken(Token::Ident(s)) => {
                if found.is_some() {
                    return None;
                }
                found = Some(s.clone());
            },
            _ => {
                return None;
            },
        }
        i += 1;
    }
    found
}

fn initial_keyword(property: &str) -> (r: ComputedValue)
    ensures
        r@ == initial_value_of(property@),
{
    match lookup_property(property) {
        Some(d) => ComputedValue::from_keyword(d.initial_value),
        None => ComputedValue::from_keyword("initial"),
    }
}

fn inherit_or_initial(property: &str, parent: Option<&ComputedValue>) -> (r: ComputedValue)
    ensures
        r@ == inherited_value_of(property@, match parent {
            Some(v) => Some(v@),
            None => None,
        }),
{
    match parent {
        Some(v) => v.duplicate(),
        None => initial_keyword(property),
    }
}

/// Turns a cascaded value into a specified value.
///
/// `initial` gives the initial value; `inherit` the parent's computed value
/// (the initial value at the root); `unset`, `revert` and `revert-layer`
/// behave as if there were no cascaded value, which inherits for inherited
/// properties and takes the initial value otherwise. Any other value passes
/// through.
pub fn apply_defaulting(property: &str, cascaded: Option<&[ComponentValue]>, parent_computed: Option<&ComputedValue>) -> (r: ComputedValue)
    ensures
        r@ == spec_apply_defaulting(property@, match cascaded {
            Some(c) => Some(cvs_view(c@)),
            None => None,
        }, match parent_computed {
            Some(v) => Some(v@),
            None => None,
        }),
{
    let is_inherited = match lookup_property(property) {
        Some(d) => d.inherited,
        None => false,
    };
    assert(is_inherited == spec_is_inherited(property@));
    match cascaded {
        Some(cvs) => {
            match extract_single_ident(cvs) {
                Some(k) => {
                    if eq_ignore_ascii_case(k.as_str(), "initial") {
                        return initial_keyword(property);
                    }
                    if eq_ignore_ascii_case(k.as_str(), "inherit") {
                        return inherit_or_initial(property, parent_computed);
                    }
                    if eq_ignore_ascii_case(k.as_str(), "unset") || eq_ignore_ascii_case(k.as_str(), "revert")
                        || eq_ignore_ascii_case(k.as_str(), "revert-layer") {
                        if is_inherited {
                            return inherit_or_initial(property, parent_computed);
                        } else {
                            return initial_keyword(property);
                        }
                    }
                },
                None => {},
            }
            ComputedValue::from_tokens(clone_cvs(cvs))
        },
        None => {
            if is_inherited {
                inherit_or_initial(property, parent_computed)
            } else {
                initial_keyword(property)
            }
        },
    }
}

/// Law: `unset`, `revert` and `revert-layer` give what no cascaded value
/// gives; `inherit` does so on inherited properties and `initial` on the
/// others.
pub proof fn lemma_css_wide_keywords_default(p: Seq<char>, cvs: Seq<CvView>, parent: Option<Seq<CvView>>)
    ensures
        (is_keyword_value(cvs, "unset"@) || is_keyword_value(cvs, "revert"@) || is_keyword_value(cvs, "revert-layer"@))
            ==> spec_apply_defaulting(p, Some(cvs), parent) == spec_apply_defaulting(p, None, parent),
        is_keyword_value(cvs, "inherit"@) && spec_is_inherited(p)
            ==> spec_apply_defaulting(p, Some(cvs), parent) == spec_apply_defaulting(p, None, parent),
        is_keyword_value(cvs, "initial"@) && !spec_is_inherited(p)
            ==> spec_apply_defaulting(p, Some(cvs), parent) == spec_apply_defaulting(p, None, parent),
{
    reveal_strlit("initial");
    reveal_strlit("inherit");
    reveal_strlit("unset");
    reveal_strlit("revert");
    reveal_strlit("revert-layer");
    let l = |s: Seq<char>| crate::strutil::ascii_lower(s);
    if let Some(k) = single_ident(cvs) {
        assert(l("initial"@) =~= "initial"@);
        assert(l("inherit"@) =~= "inherit"@);
        assert(l("unset"@) =~= "unset"@);
        assert(l("revert"@) =~= "revert"@);
        assert(l("revert-layer"@) =~= "revert-layer"@);
        if eq_ascii_ci(k, "unset"@) || eq_ascii_ci(k, "revert"@) || eq_ascii_ci(k, "revert-layer"@) {
            assert(!eq_ascii_ci(k, "initial"@)) by {
                if l(k) == "initial"@ {
                    assert(l(k).len() == 7);
                    if l(k) == "unset"@ { assert(l(k).len() == 5); }
                    if l(k) == "revert"@ { assert(l(k)[0] == 'i'); }
                    if l(k) == "revert-layer"@ { assert(l(k).len() == 12); }
                }
            }
            assert(!eq_ascii_ci(k, "inherit"@)) by {
                if l(k) == "inherit"@ {
                    if l(k) == "unset"@ { assert(l(k).len() == 5); }
                    if l(k) == "revert"@ { assert(l(k).len() == 6); }
                    if l(k) == "revert-layer"@ { assert(l(k).len() == 12); }
                }
            }
        }
        if eq_ascii_ci(k, "inherit"@) {
            assert(!eq_ascii_ci(k, "initial"@)) by {
                if l(k) == "initial"@ { assert(l(k)[2] == 'h'); }
            }
        }
    }
}


/// Law: with no cascaded value, a registered property that CSS makes
/// inherited (see [`css_inherited`]) takes the parent's computed value, and
/// any other registered property its initial value.
pub proof fn lemma_no_cascaded_value(p: Seq<char>, parent: Option<Seq<CvView>>)
    requires
        is_registered(p),
    ensures
        css_inherited(ascii_lower(p)) && parent is Some ==> spec_apply_defaulting(p, None, parent) == parent->0,
        !css_inherited(ascii_lower(p)) ==> spec_apply_defaulting(p, None, parent) == initial_value_of(p),
{
    lemma_registry_inheritance(p);
}

} // verus!
