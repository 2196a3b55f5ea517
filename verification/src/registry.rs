//! Property registry: initial values, inheritance and percentage bases of
//! the built-in properties.
use vstd::prelude::*;
use crate::strutil::{ascii_lower, lower_chars_of, str_eq_chars};

verus! {

/// What a percentage of the property refers to.
#[derive(Debug, Clone, Copy, PartialEq, Eq, Structural)]
pub enum PercentageBasis {
    /// The property takes no percentage.
    NotApplicable,
    /// The parent's value of the same property.
    ParentSameProperty,
    /// The parent's width.
    ParentWidth,
    /// The parent's height.
    ParentHeight,
    /// The parent's font size.
    ParentFontSize,
    /// The root element's font size.
    RootFontSize,
}

/// Metadata of one property.
#[derive(Debug, Clone, Copy)]
pub struct PropertyDefinition {
    /// Property name (ASCII lowercase).
    pub name: &'static str,
    /// Initial value keyword.
    pub initial_value: &'static str,
    /// Whether the property is inherited.
    pub inherited: bool,
    /// Percentage basis.
    pub percentages: PercentageBasis,
}

/// The built-in property table, in registry order.
pub open spec fn property_table() -> Seq<PropertyDefinition> {
    seq![
        PropertyDefinition { name: "color", initial_value: "black", inherited: true, percentages: PercentageBasis::NotApplicable },
        PropertyDefinition { name: "font-size", initial_value: "medium", inherited: true, percentages: PercentageBasis::ParentFontSize },
        PropertyDefinition { name: "font-family", initial_value: "serif", inherited: true, percentages: PercentageBasis::NotApplicable },
        PropertyDefinition { name: "font-weight", initial_value: "normal", inherited: true, percentages: PercentageBasis::NotApplicable },
        PropertyDefinition { name: "line-height", initial_value: "normal", inherited: true, percentages: PercentageBasis::NotApplicable },
        PropertyDefinition { name: "display", initial_value: "inline", inherited: false, percentages: PercentageBasis::NotApplicable },
        PropertyDefinition { name: "margin-top", initial_value: "0", inherited: false, percentages: PercentageBasis::ParentWidth },
        PropertyDefinition { name: "margin-right", initial_value: "0", inherited: false, percentages: PercentageBasis::ParentWidth },
        PropertyDefinition { name: "margin-bottom", initial_value: "0", inherited: false, percentages: PercentageBasis::ParentWidth },
        PropertyDefinition { name: "margin-left", initial_value: "0", inherited: false, percentages: PercentageBasis::ParentWidth },
        PropertyDefinition { name: "padding-top", initial_value: "0", inherited: false, percentages: PercentageBasis::ParentWidth },
        PropertyDefinition { name: "padding-right", initial_value: "0", inherited: false, percentages: PercentageBasis::ParentWidth },
        PropertyDefinition { name: "padding-bottom", initial_value: "0", inherited: false, percentages: PercentageBasis::ParentWidth },
        PropertyDefinition { name: "padding-left", initial_value: "0", inherited: false, percentages: PercentageBasis::ParentWidth },
        PropertyDefinition { name: "width", initial_value: "auto", inherited: false, percentages: PercentageBasis::ParentWidth },
        PropertyDefinition { name: "height", initial_value: "auto", inherited: false, percentages: PercentageBasis::ParentHeight },
        PropertyDefinition { name: "background-color", initial_value: "transparent", inherited: false, percentages: PercentageBasis::NotApplicable },
        PropertyDefinition { name: "visibility", initial_value: "visible", inherited: true, percentages: PercentageBasis::NotApplicable },
        PropertyDefinition { name: "text-align", initial_value: "start", inherited: true, percentages: PercentageBasis::NotApplicable },
        PropertyDefinition { name: "opacity", initial_value: "1", inherited: false, percentages: PercentageBasis::NotApplicable },
        PropertyDefinition { name: "flex-direction", initial_value: "row", inherited: false, percentages: PercentageBasis::NotApplicable },
        PropertyDefinition { name: "flex-wrap", initial_value: "nowrap", inherited: false, percentages: PercentageBasis::NotApplicable },
        PropertyDefinition { name: "justify-content", initial_value: "normal", inherited: false, percentages: PercentageBasis::NotApplicable },
        PropertyDefinition { name: "align-items", initial_value: "normal", inherited: false, percentages: PercentageBasis::NotApplicable },
        PropertyDefinition { name: "align-self", initial_value: "auto", inherited: false, percentages: PercentageBasis::NotApplicable },
        PropertyDefinition { name: "flex-grow", initial_value: "0", inherited: false, percentages: PercentageBasis::NotApplicable },
        PropertyDefinition { name: "flex-shrink", initial_value: "1", inherited: false, percentages: PercentageBasis::NotApplicable },
        PropertyDefinition { name: "flex-basis", initial_value: "auto", inherited: false, percentages: PercentageBasis::ParentWidth },
        PropertyDefinition { name: "gap", initial_value: "normal", inherited: false, percentages: PercentageBasis::NotApplicable },
        PropertyDefinition { name: "row-gap", initial_value: "normal", inherited: false, percentages: PercentageBasis::NotApplicable },
        PropertyDefinition { name: "column-gap", initial_value: "normal", inherited: false, percentages: PercentageBasis::NotApplicable },
        PropertyDefinition { name: "box-sizing", initial_value: "content-box", inherited: false, percentages: PercentageBasis::NotApplicable },
        PropertyDefinition { name: "cursor", initial_value: "auto", inherited: true, percentages: PercentageBasis::NotApplicable },
        PropertyDefinition { name: "direction", initial_value: "ltr", inherited: true, percentages: PercentageBasis::NotApplicable },
        PropertyDefinition { name: "letter-spacing", initial_value: "normal", inherited: true, percentages: PercentageBasis::NotApplicable },
        PropertyDefinition { name: "white-space", initial_value: "normal", inherited: true, percentages: PercentageBasis::NotApplicable },
        PropertyDefinition { name: "word-spacing", initial_value: "normal", inherited: true, percentages: PercentageBasis::NotApplicable },
        PropertyDefinition { name: "font-style", initial_value: "normal", inherited: true, percentages: PercentageBasis::NotApplicable },
        PropertyDefinition { name: "text-transform", initial_value: "none", inherited: true, percentages: PercentageBasis::NotApplicable },
        PropertyDefinition { name: "text-indent", initial_value: "0", inherited: true, percentages: PercentageBasis::ParentWidth },
        PropertyDefinition { name: "tab-size", initial_value: "8", inherited: true, percentages: PercentageBasis::NotApplicable },
        PropertyDefinition { name: "orphans", initial_value: "2", inherited: true, percentages: PercentageBasis::NotApplicable },
        PropertyDefinition { name: "widows", initial_value: "2", inherited: true, percentages: PercentageBasis::NotApplicable },
        PropertyDefinition { name: "position", initial_value: "static", inherited: false, percentages: PercentageBasis::NotApplicable },
        PropertyDefinition { name: "top", initial_value: "auto", inherited: false, percentages: PercentageBasis::ParentHeight },
        PropertyDefinition { name: "right", initial_value: "auto", inherited: false, percentages: PercentageBasis::ParentWidth },
        PropertyDefinition { name: "bottom", initial_value: "auto", inherited: false, percentages: PercentageBasis::ParentHeight },
        PropertyDefinition { name: "left", initial_value: "auto", inherited: false, percentages: PercentageBasis::ParentWidth },
        PropertyDefinition { name: "z-index", initial_value: "auto", inherited: false, percentages: PercentageBasis::NotApplicable },
        PropertyDefinition { name: "overflow", initial_value: "visible", inherited: false, percentages: PercentageBasis::NotApplicable },
        PropertyDefinition { name: "min-width", initial_value: "auto", inherited: false, percentages: PercentageBasis::ParentWidth },
        PropertyDefinition { name: "min-height", initial_value: "auto", inherited: false, percentages: PercentageBasis::ParentHeight },
        PropertyDefinition { name: "max-width", initial_value: "none", inherited: false, percentages: PercentageBasis::ParentWidth },
        PropertyDefinition { name: "max-height", initial_value: "none", inherited: false, percentages: PercentageBasis::ParentHeight },
        PropertyDefinition { name: "border-top-width", initial_value: "medium", inherited: false, percentages: PercentageBasis::NotApplicable },
        PropertyDefinition { name: "border-right-width", initial_value: "medium", inherited: false, percentages: PercentageBasis::NotApplicable },
        PropertyDefinition { name: "border-bottom-width", initial_value: "medium", inherited: false, percentages: PercentageBasis::NotApplicable },
        PropertyDefinition { name: "border-left-width", initial_value: "medium", inherited: false, percentages: PercentageBasis::NotApplicable },
        PropertyDefinition { name: "border-top-style", initial_value: "none", inherited: false, percentages: PercentageBasis::NotApplicable },
        PropertyDefinition { name: "border-right-style", initial_value: "none", inherited: false, percentages: PercentageBasis::NotApplicable },
        PropertyDefinition { name: "border-bottom-style", initial_value: "none", inherited: false, percentages: PercentageBasis::NotApplicable },
        PropertyDefinition { name: "border-left-style", initial_value: "none", inherited: false, percentages: PercentageBasis::NotApplicable },
        PropertyDefinition { name: "border-top-color", initial_value: "currentcolor", inherited: false, percentages: PercentageBasis::NotApplicable },
        PropertyDefinition { name: "border-right-color", initial_value: "currentcolor", inherited: false, percentages: PercentageBasis::NotApplicable },
        PropertyDefinition { name: "border-bottom-color", initial_value: "currentcolor", inherited: false, percentages: PercentageBasis::NotApplicable },
        PropertyDefinition { name: "border-left-color", initial_value: "currentcolor", inherited: false, percentages: PercentageBasis::NotApplicable },
        PropertyDefinition { name: "outline-width", initial_value: "medium", inherited: false, percentages: PercentageBasis::NotApplicable },
        PropertyDefinition { name: "outline-style", initial_value: "none", inherited: false, percentages: PercentageBasis::NotApplicable },
        PropertyDefinition { name: "outline-color", initial_value: "auto", inherited: false, percentages: PercentageBasis::NotApplicable },
        PropertyDefinition { name: "flex", initial_value: "0 1 auto", inherited: false, percentages: PercentageBasis::NotApplicable },
        PropertyDefinition { name: "order", initial_value: "0", inherited: false, percentages: PercentageBasis::NotApplicable },
        PropertyDefinition { name: "align-content", initial_value: "normal", inherited: false, percentages: PercentageBasis::NotApplicable },
        PropertyDefinition { name: "justify-items", initial_value: "legacy", inherited: false, percentages: PercentageBasis::NotApplicable },
        PropertyDefinition { name: "justify-self", initial_value: "auto", inherited: false, percentages: PercentageBasis::NotApplicable },
        PropertyDefinition { name: "grid-template-columns", initial_value: "none", inherited: false, percentages: PercentageBasis::NotApplicable },
        PropertyDefinition { name: "grid-template-rows", initial_value: "none", inherited: false, percentages: PercentageBasis::NotApplicable },
        PropertyDefinition { name: "grid-auto-flow", initial_value: "row", inherited: false, percentages: PercentageBasis::NotApplicable },
        PropertyDefinition { name: "grid-auto-columns", initial_value: "auto", inherited: false, percentages: PercentageBasis::NotApplicable },
        PropertyDefinition { name: "grid-auto-rows", initial_value: "auto", inherited: false, percentages: PercentageBasis::NotApplicable },
    ]
}

/// First entry of `t` whose name is exactly `n`.
pub open spec fn lookup_in(t: Seq<PropertyDefinition>, n: Seq<char>) -> Option<PropertyDefinition>
    decreases t.len(),
{
    if t.len() == 0 {
        None
    } else if t[0].name@ == n {
        Some(t[0])
    } else {
        lookup_in(t.drop_first(), n)
    }
}

/// Registry lookup: property names match ASCII case-insensitively.
pub open spec fn spec_lookup_property(name: Seq<char>) -> Option<PropertyDefinition> {
    lookup_in(property_table(), ascii_lower(name))
}

/// Whether `name` is a registered property.
pub open spec fn is_registered(name: Seq<char>) -> bool {
    spec_lookup_property(name) is Some
}

/// Whether `name` is registered and inherited.
pub open spec fn spec_is_inherited(name: Seq<char>) -> bool {
    match spec_lookup_property(name) {
        Some(d) => d.inherited,
        None => false,
    }
}

/// The built-in property table.
pub fn builtin_properties() -> (r: Vec<PropertyDefinition>)
    ensures
        r@ == property_table(),
{
    let r = vec![
        PropertyDefinition { name: "color", initial_value: "black", inherited: true, percentages: PercentageBasis::NotApplicable },
        PropertyDefinition { name: "font-size", initial_value: "medium", inherited: true, percentages: PercentageBasis::ParentFontSize },
        PropertyDefinition { name: "font-family", initial_value: "serif", inherited: true, percentages: PercentageBasis::NotApplicable },
        PropertyDefinition { name: "font-weight", initial_value: "normal", inherited: true, percentages: PercentageBasis::NotApplicable },
        PropertyDefinition { name: "line-height", initial_value: "normal", inherited: true, percentages: PercentageBasis::NotApplicable },
        PropertyDefinition { name: "display", initial_value: "inline", inherited: false, percentages: PercentageBasis::NotApplicable },
        PropertyDefinition { name: "margin-top", initial_value: "0", inherited: false, percentages: PercentageBasis::ParentWidth },
        PropertyDefinition { name: "margin-right", initial_value: "0", inherited: false, percentages: PercentageBasis::ParentWidth },
        PropertyDefinition { name: "margin-bottom", initial_value: "0", inherited: false, percentages: PercentageBasis::ParentWidth },
        PropertyDefinition { name: "margin-left", initial_value: "0", inherited: false, percentages: PercentageBasis::ParentWidth },
        PropertyDefinition { name: "padding-top", initial_value: "0", inherited: false, percentages: PercentageBasis::ParentWidth },
        PropertyDefinition { name: "padding-right", initial_value: "0", inherited: false, percentages: PercentageBasis::ParentWidth },
        PropertyDefinition { name: "padding-bottom", initial_value: "0", inherited: false, percentages: PercentageBasis::ParentWidth },
        PropertyDefinition { name: "padding-left", initial_value: "0", inherited: false, percentages: PercentageBasis::ParentWidth },
        PropertyDefinition { name: "width", initial_value: "auto", inherited: false, percentages: PercentageBasis::ParentWidth },
        PropertyDefinition { name: "height", initial_value: "auto", inherited: false, percentages: PercentageBasis::ParentHeight },
        PropertyDefinition { name: "background-color", initial_value: "transparent", inherited: false, percentages: PercentageBasis::NotApplicable },
        PropertyDefinition { name: "visibility", initial_value: "visible", inherited: true, percentages: PercentageBasis::NotApplicable },
        PropertyDefinition { name: "text-align", initial_value: "start", inherited: true, percentages: PercentageBasis::NotApplicable },
        PropertyDefinition { name: "opacity", initial_value: "1", inherited: false, percentages: PercentageBasis::NotApplicable },
        PropertyDefinition { name: "flex-direction", initial_value: "row", inherited: false, percentages: PercentageBasis::NotApplicable },
        PropertyDefinition { name: "flex-wrap", initial_value: "nowrap", inherited: false, percentages: PercentageBasis::NotApplicable },
        PropertyDefinition { name: "justify-content", initial_value: "normal", inherited: false, percentages: PercentageBasis::NotApplicable },
        PropertyDefinition { name: "align-items", initial_value: "normal", inherited: false, percentages: PercentageBasis::NotApplicable },
        PropertyDefinition { name: "align-self", initial_value: "auto", inherited: false, percentages: PercentageBasis::NotApplicable },
        PropertyDefinition { name: "flex-grow", initial_value: "0", inherited: false, percentages: PercentageBasis::NotApplicable },
        PropertyDefinition { name: "flex-shrink", initial_value: "1", inherited: false, percentages: PercentageBasis::NotApplicable },
        PropertyDefinition { name: "flex-basis", initial_value: "auto", inherited: false, percentages: PercentageBasis::ParentWidth },
        PropertyDefinition { name: "gap", initial_value: "normal", inherited: false, percentages: PercentageBasis::NotApplicable },
        PropertyDefinition { name: "row-gap", initial_value: "normal", inherited: false, percentages: PercentageBasis::NotApplicable },
        PropertyDefinition { name: "column-gap", initial_value: "normal", inherited: false, percentages: PercentageBasis::NotApplicable },
        PropertyDefinition { name: "box-sizing", initial_value: "content-box", inherited: false, percentages: PercentageBasis::NotApplicable },
        PropertyDefinition { name: "cursor", initial_value: "auto", inherited: true, percentages: PercentageBasis::NotApplicable },
        PropertyDefinition { name: "direction", initial_value: "ltr", inherited: true, percentages: PercentageBasis::NotApplicable },
        PropertyDefinition { name: "letter-spacing", initial_value: "normal", inherited: true, percentages: PercentageBasis::NotApplicable },
        PropertyDefinition { name: "white-space", initial_value: "normal", inherited: true, percentages: PercentageBasis::NotApplicable },
        PropertyDefinition { name: "word-spacing", initial_value: "normal", inherited: true, percentages: PercentageBasis::NotApplicable },
        PropertyDefinition { name: "font-style", initial_value: "normal", inherited: true, percentages: PercentageBasis::NotApplicable },
        PropertyDefinition { name: "text-transform", initial_value: "none", inherited: true, percentages: PercentageBasis::NotApplicable },
        PropertyDefinition { name: "text-indent", initial_value: "0", inherited: true, percentages: PercentageBasis::ParentWidth },
        PropertyDefinition { name: "tab-size", initial_value: "8", inherited: true, percentages: PercentageBasis::NotApplicable },
        PropertyDefinition { name: "orphans", initial_value: "2", inherited: true, percentages: PercentageBasis::NotApplicable },
        PropertyDefinition { name: "widows", initial_value: "2", inherited: true, percentages: PercentageBasis::NotApplicable },
        PropertyDefinition { name: "position", initial_value: "static", inherited: false, percentages: PercentageBasis::NotApplicable },
        PropertyDefinition { name: "top", initial_value: "auto", inherited: false, percentages: PercentageBasis::ParentHeight },
        PropertyDefinition { name: "right", initial_value: "auto", inherited: false, percentages: PercentageBasis::ParentWidth },
        PropertyDefinition { name: "bottom", initial_value: "auto", inherited: false, percentages: PercentageBasis::ParentHeight },
        PropertyDefinition { name: "left", initial_value: "auto", inherited: false, percentages: PercentageBasis::ParentWidth },
        PropertyDefinition { name: "z-index", initial_value: "auto", inherited: false, percentages: PercentageBasis::NotApplicable },
        PropertyDefinition { name: "overflow", initial_value: "visible", inherited: false, percentages: PercentageBasis::NotApplicable },
        PropertyDefinition { name: "min-width", initial_value: "auto", inherited: false, percentages: PercentageBasis::ParentWidth },
        PropertyDefinition { name: "min-height", initial_value: "auto", inherited: false, percentages: PercentageBasis::ParentHeight },
        PropertyDefinition { name: "max-width", initial_value: "none", inherited: false, percentages: PercentageBasis::ParentWidth },
        PropertyDefinition { name: "max-height", initial_value: "none", inherited: false, percentages: PercentageBasis::ParentHeight },
        PropertyDefinition { name: "border-top-width", initial_value: "medium", inherited: false, percentages: PercentageBasis::NotApplicable },
        PropertyDefinition { name: "border-right-width", initial_value: "medium", inherited: false, percentages: PercentageBasis::NotApplicable },
        PropertyDefinition { name: "border-bottom-width", initial_value: "medium", inherited: false, percentages: PercentageBasis::NotApplicable },
        PropertyDefinition { name: "border-left-width", initial_value: "medium", inherited: false, percentages: PercentageBasis::NotApplicable },
        PropertyDefinition { name: "border-top-style", initial_value: "none", inherited: false, percentages: PercentageBasis::NotApplicable },
        PropertyDefinition { name: "border-right-style", initial_value: "none", inherited: false, percentages: PercentageBasis::NotApplicable },
        PropertyDefinition { name: "border-bottom-style", initial_value: "none", inherited: false, percentages: PercentageBasis::NotApplicable },
        PropertyDefinition { name: "border-left-style", initial_value: "none", inherited: false, percentages: PercentageBasis::NotApplicable },
        PropertyDefinition { name: "border-top-color", initial_value: "currentcolor", inherited: false, percentages: PercentageBasis::NotApplicable },
        PropertyDefinition { name: "border-right-color", initial_value: "currentcolor", inherited: false, percentages: PercentageBasis::NotApplicable },
        PropertyDefinition { name: "border-bottom-color", initial_value: "currentcolor", inherited: false, percentages: PercentageBasis::NotApplicable },
        PropertyDefinition { name: "border-left-color", initial_value: "currentcolor", inherited: false, percentages: PercentageBasis::NotApplicable },
        PropertyDefinition { name: "outline-width", initial_value: "medium", inherited: false, percentages: PercentageBasis::NotApplicable },
        PropertyDefinition { name: "outline-style", initial_value: "none", inherited: false, percentages: PercentageBasis::NotApplicable },
        PropertyDefinition { name: "outline-color", initial_value: "auto", inherited: false, percentages: PercentageBasis::NotApplicable },
        PropertyDefinition { name: "flex", initial_value: "0 1 auto", inherited: false, percentages: PercentageBasis::NotApplicable },
        PropertyDefinition { name: "order", initial_value: "0", inherited: false, percentages: PercentageBasis::NotApplicable },
        PropertyDefinition { name: "align-content", initial_value: "normal", inherited: false, percentages: PercentageBasis::NotApplicable },
        PropertyDefinition { name: "justify-items", initial_value: "legacy", inherited: false, percentages: PercentageBasis::NotApplicable },
        PropertyDefinition { name: "justify-self", initial_value: "auto", inherited: false, percentages: PercentageBasis::NotApplicable },
        PropertyDefinition { name: "grid-template-columns", initial_value: "none", inherited: false, percentages: PercentageBasis::NotApplicable },
        PropertyDefinition { name: "grid-template-rows", initial_value: "none", inherited: false, percentages: PercentageBasis::NotApplicable },
        PropertyDefinition { name: "grid-auto-flow", initial_value: "row", inherited: false, percentages: PercentageBasis::NotApplicable },
        PropertyDefinition { name: "grid-auto-columns", initial_value: "auto", inherited: false, percentages: PercentageBasis::NotApplicable },
        PropertyDefinition { name: "grid-auto-rows", initial_value: "auto", inherited: false, percentages: PercentageBasis::NotApplicable },
    ];
    assert(r@ =~= property_table());
    r
}

proof fn lemma_lookup_in_suffix(t: Seq<PropertyDefinition>, n: Seq<char>, i: int)
    requires
        0 <= i < t.len(),
        t[i].name@ != n,
    ensures
        lookup_in(t.subrange(i, t.len() as int), n) == lookup_in(t.subrange(i + 1, t.len() as int), n),
{
    assert(t.subrange(i, t.len() as int).drop_first() =~= t.subrange(i + 1, t.len() as int));
}

/// Looks up a property definition; `None` when the property is not registered.
pub fn lookup_property(name: &str) -> (r: Option<PropertyDefinition>)
    ensures
        r == spec_lookup_property(name@),
{
    let lower = lower_chars_of(name);
    let table = builtin_properties();
    let mut i: usize = 0;
    assert(table@.subrange(0, table@.len() as int) =~= table@);
    while i < table.len()
        invariant
            i <= table.len(),
            table@ == property_table(),
            lower@ == ascii_lower(name@),
            lookup_in(table@.subrange(i as int, table@.len() as int), lower@) == spec_lookup_property(name@),
        decreases table.len() - i,
    {
        let d = table[i];
        if str_eq_chars(d.name, lower.as_slice()) {
            assert(table@.subrange(i as int, table@.len() as int)[0] == d);
            return Some(d);
        }
        proof { lemma_lookup_in_suffix(table@, lower@, i as int); }
        i += 1;
    }
    assert(table@.subrange(i as int, table@.len() as int).len() == 0);
    None
}


/// Lower-casing ASCII twice is lower-casing once.
pub proof fn lemma_ascii_lower_idempotent(n: Seq<char>)
    ensures
        ascii_lower(ascii_lower(n)) == ascii_lower(n),
{
    assert(ascii_lower(ascii_lower(n)) =~= ascii_lower(n));
}

/// Law: property lookup ignores ASCII case: names equal up to ASCII case
/// find the same definition, in particular a name and its lower-case form.
pub proof fn lemma_lookup_case_insensitive(a: Seq<char>, b: Seq<char>)
    requires
        ascii_lower(a) == ascii_lower(b),
    ensures
        spec_lookup_property(a) == spec_lookup_property(b),
        spec_lookup_property(a) == spec_lookup_property(ascii_lower(a)),
{
    lemma_ascii_lower_idempotent(a);
}

// ── inheritance ──────────────────────────────────────────────────────────

/// The registered properties that CSS defines as inherited: the font and
/// text properties, `color`, `visibility`, `cursor`, `direction`,
/// `orphans` and `widows`.
pub open spec fn css_inherited(n: Seq<char>) -> bool {
    ||| n == "color"@
    ||| n == "font-size"@
    ||| n == "font-family"@
    ||| n == "font-weight"@
    ||| n == "line-height"@
    ||| n == "visibility"@
    ||| n == "text-align"@
    ||| n == "cursor"@
    ||| n == "direction"@
    ||| n == "letter-spacing"@
    ||| n == "white-space"@
    ||| n == "word-spacing"@
    ||| n == "font-style"@
    ||| n == "text-transform"@
    ||| n == "text-indent"@
    ||| n == "tab-size"@
    ||| n == "orphans"@
    ||| n == "widows"@
}

proof fn lemma_table_entry_inheritance(i: int)
    requires
        0 <= i < property_table().len(),
    ensures
        property_table()[i].inherited == css_inherited(property_table()[i].name@),
{
    reveal_strlit("color");
    reveal_strlit("font-size");
    reveal_strlit("font-family");
    reveal_strlit("font-weight");
    reveal_strlit("line-height");
    reveal_strlit("visibility");
    reveal_strlit("text-align");
    reveal_strlit("cursor");
    reveal_strlit("direction");
    reveal_strlit("letter-spacing");
    reveal_strlit("white-space");
    reveal_strlit("word-spacing");
    reveal_strlit("font-style");
    reveal_strlit("text-transform");
    reveal_strlit("text-indent");
    reveal_strlit("tab-size");
    reveal_strlit("orphans");
    reveal_strlit("widows");
    assert("color"@.len() == 5);
    assert("font-size"@.len() == 9);
    assert("font-family"@.len() == 11);
    assert("font-weight"@.len() == 11);
    assert("line-height"@.len() == 11);
    assert("visibility"@.len() == 10);
    assert("text-align"@.len() == 10);
    assert("cursor"@.len() == 6);
    assert("direction"@.len() == 9);
    assert("letter-spacing"@.len() == 14);
    assert("white-space"@.len() == 11);
    assert("word-spacing"@.len() == 12);
    assert("font-style"@.len() == 10);
    assert("text-transform"@.len() == 14);
    assert("text-indent"@.len() == 11);
    assert("tab-size"@.len() == 8);
    assert("orphans"@.len() == 7);
    assert("widows"@.len() == 6);
    if i == 0 {
        assert(property_table()[0].inherited == css_inherited(property_table()[0].name@));
    } else if i == 1 {
        assert(property_table()[1].inherited == css_inherited(property_table()[1].name@));
    } else if i == 2 {
        assert(property_table()[2].inherited == css_inherited(property_table()[2].name@));
    } else if i == 3 {
        assert(property_table()[3].inherited == css_inherited(property_table()[3].name@));
    } else if i == 4 {
        assert(property_table()[4].inherited == css_inherited(property_table()[4].name@));
    } else if i == 5 {
        reveal_strlit("display");
        assert("display"@.len() == 7);
        assert("display"@[0] != "orphans"@[0]);
        assert(property_table()[5].inherited == css_inherited(property_table()[5].name@));
    } else if i == 6 {
        reveal_strlit("margin-top");
        assert("margin-top"@.len() == 10);
        assert("margin-top"@[0] != "visibility"@[0] && "margin-top"@[0] != "text-align"@[0] && "margin-top"@[0] != "font-style"@[0]);
        assert(property_table()[6].inherited == css_inherited(property_table()[6].name@));
    } else if i == 7 {
        reveal_strlit("margin-right");
        assert("margin-right"@.len() == 12);
        assert("margin-right"@[0] != "word-spacing"@[0]);
        assert(property_table()[7].inherited == css_inherited(property_table()[7].name@));
    } else if i == 8 {
        reveal_strlit("margin-bottom");
        assert("margin-bottom"@.len() == 13);
        assert(property_table()[8].inherited == css_inherited(property_table()[8].name@));
    } else if i == 9 {
        reveal_strlit("margin-left");
        assert("margin-left"@.len() == 11);
        assert("margin-left"@[0] != "font-family"@[0] && "margin-left"@[0] != "font-weight"@[0] && "margin-left"@[0] != "line-height"@[0] && "margin-left"@[0] != "white-space"@[0] && "margin-left"@[0] != "text-indent"@[0]);
        assert(property_table()[9].inherited == css_inherited(property_table()[9].name@));
    } else if i == 10 {
        reveal_strlit("padding-top");
        assert("padding-top"@.len() == 11);
        assert("padding-top"@[0] != "font-family"@[0] && "padding-top"@[0] != "font-weight"@[0] && "padding-top"@[0] != "line-height"@[0] && "padding-top"@[0] != "white-space"@[0] && "padding-top"@[0] != "text-indent"@[0]);
        assert(property_table()[10].inherited == css_inherited(property_table()[10].name@));
    } else if i == 11 {
        reveal_strlit("padding-right");
        assert("padding-right"@.len() == 13);
        assert(property_table()[11].inherited == css_inherited(property_table()[11].name@));
    } else if i == 12 {
        reveal_strlit("padding-bottom");
        assert("padding-bottom"@.len() == 14);
        assert("padding-bottom"@[0] != "letter-spacing"@[0] && "padding-bottom"@[0] != "text-transform"@[0]);
        assert(property_table()[12].inherited == css_inherited(property_table()[12].name@));
    } else if i == 13 {
        reveal_strlit("padding-left");
        assert("padding-left"@.len() == 12);
        assert("padding-left"@[0] != "word-spacing"@[0]);
        assert(property_table()[13].inherited == css_inherited(property_table()[13].name@));
    } else if i == 14 {
        reveal_strlit("width");
        assert("width"@.len() == 5);
        assert("width"@[0] != "color"@[0]);
        assert(property_table()[14].inherited == css_inherited(property_table()[14].name@));
    } else if i == 15 {
        reveal_strlit("height");
        assert("height"@.len() == 6);
        assert("height"@[0] != "cursor"@[0] && "height"@[0] != "widows"@[0]);
        assert(property_table()[15].inherited == css_inherited(property_table()[15].name@));
    } else if i == 16 {
        reveal_strlit("background-color");
        assert("background-color"@.len() == 16);
        assert(property_table()[16].inherited == css_inherited(property_table()[16].name@));
    } else if i == 17 {
        assert(property_table()[17].inherited == css_inherited(property_table()[17].name@));
    } else if i == 18 {
        assert(property_table()[18].inherited == css_inherited(property_table()[18].name@));
    } else if i == 19 {
        reveal_strlit("opacity");
        assert("opacity"@.len() == 7);
        assert("opacity"@[1] != "orphans"@[1]);
        assert(property_table()[19].inherited == css_inherited(property_table()[19].name@));
    } else if i == 20 {
        reveal_strlit("flex-direction");
        assert("flex-direction"@.len() == 14);
        assert("flex-direction"@[0] != "letter-spacing"@[0] && "flex-direction"@[0] != "text-transform"@[0]);
        assert(property_table()[20].inherited == css_inherited(property_table()[20].name@));
    } else if i == 21 {
        reveal_strlit("flex-wrap");
        assert("flex-wrap"@.len() == 9);
        assert("flex-wrap"@[1] != "font-size"@[1] && "flex-wrap"@[0] != "direction"@[0]);
        assert(property_table()[21].inherited == css_inherited(property_table()[21].name@));
    } else if i == 22 {
        reveal_strlit("justify-content");
        assert("justify-content"@.len() == 15);
        assert(property_table()[22].inherited == css_inherited(property_table()[22].name@));
    } else if i == 23 {
        reveal_strlit("align-items");
        assert("align-items"@.len() == 11);
        assert("align-items"@[0] != "font-family"@[0] && "align-items"@[0] != "font-weight"@[0] && "align-items"@[0] != "line-height"@[0] && "align-items"@[0] != "white-space"@[0] && "align-items"@[0] != "text-indent"@[0]);
        assert(property_table()[23].inherited == css_inherited(property_table()[23].name@));
    } else if i == 24 {
        reveal_strlit("align-self");
        assert("align-self"@.len() == 10);
        assert("align-self"@[0] != "visibility"@[0] && "align-self"@[0] != "text-align"@[0] && "align-self"@[0] != "font-style"@[0]);
        assert(property_table()[24].inherited == css_inherited(property_table()[24].name@));
    } else if i == 25 {
        reveal_strlit("flex-grow");
        assert("flex-grow"@.len() == 9);
        assert("flex-grow"@[1] != "font-size"@[1] && "flex-grow"@[0] != "direction"@[0]);
        assert(property_table()[25].inherited == css_inherited(property_table()[25].name@));
    } else if i == 26 {
        reveal_strlit("flex-shrink");
        assert("flex-shrink"@.len() == 11);
        assert("flex-shrink"@[1] != "font-family"@[1] && "flex-shrink"@[1] != "font-weight"@[1] && "flex-shrink"@[0] != "line-height"@[0] && "flex-shrink"@[0] != "white-space"@[0] && "flex-shrink"@[0] != "text-indent"@[0]);
        assert(property_table()[26].inherited == css_inherited(property_table()[26].name@));
    } else if i == 27 {
        reveal_strlit("flex-basis");
        assert("flex-basis"@.len() == 10);
        assert("flex-basis"@[0] != "visibility"@[0] && "flex-basis"@[0] != "text-align"@[0] && "flex-basis"@[1] != "font-style"@[1]);
        assert(property_table()[27].inherited == css_inherited(property_table()[27].name@));
    } else if i == 28 {
        reveal_strlit("gap");
        assert("gap"@.len() == 3);
        assert(property_table()[28].inherited == css_inherited(property_table()[28].name@));
    } else if i == 29 {
        reveal_strlit("row-gap");
        assert("row-gap"@.len() == 7);
        assert("row-gap"@[0] != "orphans"@[0]);
        assert(property_table()[29].inherited == css_inherited(property_table()[29].name@));
    } else if i == 30 {
        reveal_strlit("column-gap");
        assert("column-gap"@.len() == 10);
        assert("column-gap"@[0] != "visibility"@[0] && "column-gap"@[0] != "text-align"@[0] && "column-gap"@[0] != "font-style"@[0]);
        assert(property_table()[30].inherited == css_inherited(property_table()[30].name@));
    } else if i == 31 {
        reveal_strlit("box-sizing");
        assert("box-sizing"@.len() == 10);
        assert("box-sizing"@[0] != "visibility"@[0] && "box-sizing"@[0] != "text-align"@[0] && "box-sizing"@[0] != "font-style"@[0]);
        assert(property_table()[31].inherited == css_inherited(property_table()[31].name@));
    } else if i == 32 {
        assert(property_table()[32].inherited == css_inherited(property_table()[32].name@));
    } else if i == 33 {
        assert(property_table()[33].inherited == css_inherited(property_table()[33].name@));
    } else if i == 34 {
        assert(property_table()[34].inherited == css_inherited(property_table()[34].name@));
    } else if i == 35 {
        assert(property_table()[35].inherited == css_inherited(property_table()[35].name@));
    } else if i == 36 {
        assert(property_table()[36].inherited == css_inherited(property_table()[36].name@));
    } else if i == 37 {
        assert(property_table()[37].inherited == css_inherited(property_table()[37].name@));
    } else if i == 38 {
        assert(property_table()[38].inherited == css_inherited(property_table()[38].name@));
    } else if i == 39 {
        assert(property_table()[39].inherited == css_inherited(property_table()[39].name@));
    } else if i == 40 {
        assert(property_table()[40].inherited == css_inherited(property_table()[40].name@));
    } else if i == 41 {
        assert(property_table()[41].inherited == css_inherited(property_table()[41].name@));
    } else if i == 42 {
        assert(property_table()[42].inherited == css_inherited(property_table()[42].name@));
    } else if i == 43 {
        reveal_strlit("position");
        assert("position"@.len() == 8);
        assert("position"@[0] != "tab-size"@[0]);
        assert(property_table()[43].inherited == css_inherited(property_table()[43].name@));
    } else if i == 44 {
        reveal_strlit("top");
        assert("top"@.len() == 3);
        assert(property_table()[44].inherited == css_inherited(property_table()[44].name@));
    } else if i == 45 {
        reveal_strlit("right");
        assert("right"@.len() == 5);
        assert("right"@[0] != "color"@[0]);
        assert(property_table()[45].inherited == css_inherited(property_table()[45].name@));
    } else if i == 46 {
        reveal_strlit("bottom");
        assert("bottom"@.len() == 6);
        assert("bottom"@[0] != "cursor"@[0] && "bottom"@[0] != "widows"@[0]);
        assert(property_table()[46].inherited == css_inherited(property_table()[46].name@));
    } else if i == 47 {
        reveal_strlit("left");
        assert("left"@.len() == 4);
        assert(property_table()[47].inherited == css_inherited(property_table()[47].name@));
    } else if i == 48 {
        reveal_strlit("z-index");
        assert("z-index"@.len() == 7);
        assert("z-index"@[0] != "orphans"@[0]);
        assert(property_table()[48].inherited == css_inherited(property_table()[48].name@));
    } else if i == 49 {
        reveal_strlit("overflow");
        assert("overflow"@.len() == 8);
        assert("overflow"@[0] != "tab-size"@[0]);
        assert(property_table()[49].inherited == css_inherited(property_table()[49].name@));
    } else if i == 50 {
        reveal_strlit("min-width");
        assert("min-width"@.len() == 9);
        assert("min-width"@[0] != "font-size"@[0] && "min-width"@[0] != "direction"@[0]);
        assert(property_table()[50].inherited == css_inherited(property_table()[50].name@));
    } else if i == 51 {
        reveal_strlit("min-height");
        assert("min-height"@.len() == 10);
        assert("min-height"@[0] != "visibility"@[0] && "min-height"@[0] != "text-align"@[0] && "min-height"@[0] != "font-style"@[0]);
        assert(property_table()[51].inherited == css_inherited(property_table()[51].name@));
    } else if i == 52 {
        reveal_strlit("max-width");
        assert("max-width"@.len() == 9);
        assert("max-width"@[0] != "font-size"@[0] && "max-width"@[0] != "direction"@[0]);
        assert(property_table()[52].inherited == css_inherited(property_table()[52].name@));
    } else if i == 53 {
        reveal_strlit("max-height");
        assert("max-height"@.len() == 10);
        assert("max-height"@[0] != "visibility"@[0] && "max-height"@[0] != "text-align"@[0] && "max-height"@[0] != "font-style"@[0]);
        assert(property_table()[53].inherited == css_inherited(property_table()[53].name@));
    } else if i == 54 {
        reveal_strlit("border-top-width");
        assert("border-top-width"@.len() == 16);
        assert(property_table()[54].inherited == css_inherited(property_table()[54].name@));
    } else if i == 55 {
        reveal_strlit("border-right-width");
        assert("border-right-width"@.len() == 18);
        assert(property_table()[55].inherited == css_inherited(property_table()[55].name@));
    } else if i == 56 {
        reveal_strlit("border-bottom-width");
        assert("border-bottom-width"@.len() == 19);
        assert(property_table()[56].inherited == css_inherited(property_table()[56].name@));
    } else if i == 57 {
        reveal_strlit("border-left-width");
        assert("border-left-width"@.len() == 17);
        assert(property_table()[57].inherited == css_inherited(property_table()[57].name@));
    } else if i == 58 {
        reveal_strlit("border-top-style");
        assert("border-top-style"@.len() == 16);
        assert(property_table()[58].inherited == css_inherited(property_table()[58].name@));
    } else if i == 59 {
        reveal_strlit("border-right-style");
        assert("border-right-style"@.len() == 18);
        assert(property_table()[59].inherited == css_inherited(property_table()[59].name@));
    } else if i == 60 {
        reveal_strlit("border-bottom-style");
        assert("border-bottom-style"@.len() == 19);
        assert(property_table()[60].inherited == css_inherited(property_table()[60].name@));
    } else if i == 61 {
        reveal_strlit("border-left-style");
        assert("border-left-style"@.len() == 17);
        assert(property_table()[61].inherited == css_inherited(property_table()[61].name@));
    } else if i == 62 {
        reveal_strlit("border-top-color");
        assert("border-top-color"@.len() == 16);
        assert(property_table()[62].inherited == css_inherited(property_table()[62].name@));
    } else if i == 63 {
        reveal_strlit("border-right-color");
        assert("border-right-color"@.len() == 18);
        assert(property_table()[63].inherited == css_inherited(property_table()[63].name@));
    } else if i == 64 {
        reveal_strlit("border-bottom-color");
        assert("border-bottom-color"@.len() == 19);
        assert(property_table()[64].inherited == css_inherited(property_table()[64].name@));
    } else if i == 65 {
        reveal_strlit("border-left-color");
        assert("border-left-color"@.len() == 17);
        assert(property_table()[65].inherited == css_inherited(property_table()[65].name@));
    } else if i == 66 {
        reveal_strlit("outline-width");
        assert("outline-width"@.len() == 13);
        assert(property_table()[66].inherited == css_inherited(property_table()[66].name@));
    } else if i == 67 {
        reveal_strlit("outline-style");
        assert("outline-style"@.len() == 13);
        assert(property_table()[67].inherited == css_inherited(property_table()[67].name@));
    } else if i == 68 {
        reveal_strlit("outline-color");
        assert("outline-color"@.len() == 13);
        assert(property_table()[68].inherited == css_inherited(property_table()[68].name@));
    } else if i == 69 {
        reveal_strlit("flex");
        assert("flex"@.len() == 4);
        assert(property_table()[69].inherited == css_inherited(property_table()[69].name@));
    } else if i == 70 {
        reveal_strlit("order");
        assert("order"@.len() == 5);
        assert("order"@[0] != "color"@[0]);
        assert(property_table()[70].inherited == css_inherited(property_table()[70].name@));
    } else if i == 71 {
        reveal_strlit("align-content");
        assert("align-content"@.len() == 13);
        assert(property_table()[71].inherited == css_inherited(property_table()[71].name@));
    } else if i == 72 {
        reveal_strlit("justify-items");
        assert("justify-items"@.len() == 13);
        assert(property_table()[72].inherited == css_inherited(property_table()[72].name@));
    } else if i == 73 {
        reveal_strlit("justify-self");
        assert("justify-self"@.len() == 12);
        assert("justify-self"@[0] != "word-spacing"@[0]);
        assert(property_table()[73].inherited == css_inherited(property_table()[73].name@));
    } else if i == 74 {
        reveal_strlit("grid-template-columns");
        assert("grid-template-columns"@.len() == 21);
        assert(property_table()[74].inherited == css_inherited(property_table()[74].name@));
    } else if i == 75 {
        reveal_strlit("grid-template-rows");
        assert("grid-template-rows"@.len() == 18);
        assert(property_table()[75].inherited == css_inherited(property_table()[75].name@));
    } else if i == 76 {
        reveal_strlit("grid-auto-flow");
        assert("grid-auto-flow"@.len() == 14);
        assert("grid-auto-flow"@[0] != "letter-spacing"@[0] && "grid-auto-flow"@[0] != "text-transform"@[0]);
        assert(property_table()[76].inherited == css_inherited(property_table()[76].name@));
    } else if i == 77 {
        reveal_strlit("grid-auto-columns");
        assert("grid-auto-columns"@.len() == 17);
        assert(property_table()[77].inherited == css_inherited(property_table()[77].name@));
    } else if i == 78 {
        reveal_strlit("grid-auto-rows");
        assert("grid-auto-rows"@.len() == 14);
        assert("grid-auto-rows"@[0] != "letter-spacing"@[0] && "grid-auto-rows"@[0] != "text-transform"@[0]);
        assert(property_table()[78].inherited == css_inherited(property_table()[78].name@));
    }
}

proof fn lemma_lookup_in_found(t: Seq<PropertyDefinition>, n: Seq<char>)
    ensures
        lookup_in(t, n) matches Some(d) ==> exists|k: int| 0 <= k < t.len() && #[trigger] t[k] == d && d.name@ == n,
    decreases t.len(),
{
    if t.len() > 0 && t[0].name@ != n {
        lemma_lookup_in_found(t.drop_first(), n);
        if let Some(d) = lookup_in(t.drop_first(), n) {
            let k = choose|k: int| 0 <= k < t.drop_first().len() && #[trigger] t.drop_first()[k] == d && d.name@ == n;
            assert(t[k + 1] == d);
        }
    }
}

/// Law: a registered property is inherited exactly when CSS makes it an
/// inherited property (see [`css_inherited`]), whatever the case of its
/// name.
pub proof fn lemma_registry_inheritance(n: Seq<char>)
    requires
        is_registered(n),
    ensures
        spec_is_inherited(n) == css_inherited(ascii_lower(n)),
{
    lemma_lookup_in_found(property_table(), ascii_lower(n));
    let d = spec_lookup_property(n)->0;
    let k = choose|k: int| 0 <= k < property_table().len() && #[trigger] property_table()[k] == d && d.name@ == ascii_lower(n);
    lemma_table_entry_inheritance(k);
}
} // verus!
