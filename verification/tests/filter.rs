use muskitty_cascade::cascade::{cascade_for_element, cascade_winner};
use muskitty_cascade::compute::{compute_property_tokens, style_property_names, substitute_vars, CustomPropertySource};
use muskitty_cascade::custom_properties::{
    collect_custom_properties, collect_custom_properties_checked, derive_own_custom_props, CustomProperties,
};
use muskitty_cascade::defaulting::apply_defaulting;
use muskitty_cascade::style::{ComputedStyle, ComputedValue};
use muskitty_cascade::filter::{
    collect_declared_values, collect_declared_values_checked, collect_declared_values_prepared,
    collect_declared_values_with_style, combine_condition, eval_supports_condition, LayerTracker,
    normalize_property_name, prepare_sheets_with_context, split_gap_value, PreparedSheets, SheetDeclaration,
    SheetRule, StyleSheet,
};
use muskitty_cascade::media::{eval_media_query, eval_media_type, MediaContext};
use muskitty_cascade::shorthand::normalize_line_width;
use muskitty_cascade::style_attr::parse_style_attribute;
use muskitty_cascade::style::{DeclaredValue, Origin};
use muskitty_cascade::token::{BlockKind, ComponentValue, Function, HashType, Numeric, SimpleBlock, Token};
use muskitty_css::parse_stylesheet;
use muskitty_css::parser as mp;
use muskitty_css::tokenizer as mt;
use muskitty_cssom::{from_stylesheet, CssRule, CssStyleSheet};
use muskitty_dom::{Attribute, Node};
use muskitty_selectors::matching::{DomElement, Element};

// ---- turning parsed CSS into the library's model ----

fn num(n: &mt::Numeric) -> Numeric {
    Numeric { bits: n.value.to_bits(), is_integer: n.is_integer }
}

fn token(t: &mt::Token) -> Token {
    match t {
        mt::Token::Ident(s) => Token::Ident(s.clone()),
        mt::Token::Function(s) => Token::Function(s.clone()),
        mt::Token::AtKeyword(s) => Token::AtKeyword(s.clone()),
        mt::Token::Hash(s, h) => Token::Hash(
            s.clone(),
            match h {
                mt::HashType::Id => HashType::Id,
                mt::HashType::Unrestricted => HashType::Unrestricted,
            },
        ),
        mt::Token::String(s) => Token::QuotedString(s.clone()),
        mt::Token::BadString => Token::BadString,
        mt::Token::Url(s) => Token::Url(s.clone()),
        mt::Token::BadUrl => Token::BadUrl,
        mt::Token::Delim(c) => Token::Delim(*c),
        mt::Token::Number(n) => Token::Number(num(n)),
        mt::Token::Percentage(n) => Token::Percentage(num(n)),
        mt::Token::Dimension(n, u) => Token::Dimension(num(n), u.clone()),
        mt::Token::UnicodeRange(a, b) => Token::UnicodeRange(*a, *b),
        mt::Token::Whitespace => Token::Whitespace,
        mt::Token::Comment(s) => Token::Comment(s.clone()),
        mt::Token::Colon => Token::Colon,
        mt::Token::Semicolon => Token::Semicolon,
        mt::Token::Comma => Token::Comma,
        mt::Token::OpenBracket => Token::OpenBracket,
        mt::Token::CloseBracket => Token::CloseBracket,
        mt::Token::OpenParen => Token::OpenParen,
        mt::Token::CloseParen => Token::CloseParen,
        mt::Token::OpenBrace => Token::OpenBrace,
        mt::Token::CloseBrace => Token::CloseBrace,
        mt::Token::Cdo => Token::Cdo,
        mt::Token::Cdc => Token::Cdc,
        mt::Token::Eof => Token::Eof,
    }
}

fn cv(c: &mp::ComponentValue) -> ComponentValue {
    match c {
        mp::ComponentValue::PreservedToken(t) => ComponentValue::PreservedToken(token(t)),
        mp::ComponentValue::Function(f) => {
            ComponentValue::Function(Function { name: f.name.clone(), value: cvs(&f.value) })
        }
        mp::ComponentValue::SimpleBlock(b) => ComponentValue::SimpleBlock(SimpleBlock {
            kind: match b.kind {
                mp::BlockKind::Curly => BlockKind::Curly,
                mp::BlockKind::Square => BlockKind::Square,
                mp::BlockKind::Paren => BlockKind::Paren,
            },
            value: cvs(&b.value),
        }),
    }
}

fn cvs(v: &[mp::ComponentValue]) -> Vec<ComponentValue> {
    v.iter().map(cv).collect()
}

fn decls(ds: &[muskitty_cssom::CssDeclaration]) -> Vec<SheetDeclaration> {
    ds.iter()
        .map(|d| SheetDeclaration { name: d.name.clone(), value: cvs(&d.value), important: d.important })
        .collect()
}

fn rule(r: &CssRule) -> SheetRule {
    let kids = |rs: &[CssRule]| rs.iter().map(rule).collect::<Vec<_>>();
    match r {
        CssRule::Style(s) => SheetRule::Style {
            selector_text: muskitty_cssom::serialize_component_values(&s.selectors),
            declarations: decls(&s.style.declarations),
            children: kids(&s.css_rules),
        },
        CssRule::Media(m) => SheetRule::Media { condition: cvs(&m.condition), children: kids(&m.css_rules) },
        CssRule::Supports(m) => SheetRule::Supports { condition: cvs(&m.condition), children: kids(&m.css_rules) },
        CssRule::Container(m) => SheetRule::Container { children: kids(&m.css_rules) },
        CssRule::LayerBlock(m) => SheetRule::LayerBlock { name: m.name.clone(), children: kids(&m.css_rules) },
        CssRule::LayerStatement(m) => SheetRule::LayerStatement { names: m.names.clone() },
        CssRule::Scope(m) => SheetRule::Scope { children: kids(&m.css_rules) },
        CssRule::Other(m) => SheetRule::Other { children: kids(&m.child_rules) },
        _ => SheetRule::Inert,
    }
}

fn origin(o: muskitty_cssom::Origin) -> Origin {
    match o {
        muskitty_cssom::Origin::UserAgent => Origin::UserAgent,
        muskitty_cssom::Origin::User => Origin::User,
        muskitty_cssom::Origin::Author => Origin::Author,
    }
}

fn sheet(s: &CssStyleSheet) -> StyleSheet {
    StyleSheet {
        origin: origin(s.origin),
        media: cvs(&s.media),
        disabled: s.disabled,
        alternate: s.alternate,
        rules: s.css_rules.iter().map(rule).collect(),
    }
}

fn inline(element: &DomElement) -> Vec<SheetDeclaration> {
    match element.get_attribute("style") {
        Some(text) => parse_style_attribute(&text),
        None => Vec::new(),
    }
}

fn collect(element: &DomElement, sheets: &[CssStyleSheet]) -> Vec<DeclaredValue> {
    let own: Vec<StyleSheet> = sheets.iter().map(sheet).collect();
    collect_declared_values(element, &own, &inline(element))
}

// ---- helpers ----

fn make_element(tag: &str, attrs: &[(&str, &str)]) -> DomElement {
    let doc = Node::new_document();
    let attrs: Vec<Attribute> = attrs.iter().map(|(k, v)| Attribute::new(k, v)).collect();
    let node = Node::new_element_html(tag, attrs, &doc);
    DomElement::new(node)
}

fn make_sheet(css: &str, o: muskitty_cssom::Origin) -> CssStyleSheet {
    let parsed = parse_stylesheet(css);
    let mut s = from_stylesheet(&parsed);
    s.origin = o;
    s
}

const AUTHOR: muskitty_cssom::Origin = muskitty_cssom::Origin::Author;

fn media_decl_count(condition: &str, viewport: (u32, u32)) -> usize {
    media_decl_count_at(condition, (viewport.0 as f64, viewport.1 as f64))
}

fn media_decl_count_at(condition: &str, viewport: (f64, f64)) -> usize {
    let element = make_element("div", &[]);
    let css = format!("@media {condition} {{ div {{ color: red; }} }}");
    let s = sheet(&make_sheet(&css, AUTHOR));
    let media = MediaContext { media_type: "screen", viewport_w: viewport.0.to_bits(), viewport_h: viewport.1.to_bits() };
    let prepared = prepare_sheets_with_context(&[s], &media);
    collect_declared_values_prepared(&element, &prepared, &[]).len()
}

fn media_count_screen(condition: &str) -> usize {
    media_decl_count(condition, (1920, 1080))
}

fn has_ident(value: &[ComponentValue], want: &str) -> bool {
    value
        .iter()
        .any(|c| matches!(c, ComponentValue::PreservedToken(Token::Ident(n)) if n == want))
}

fn with_media_query(mut s: CssStyleSheet, query: &str) -> CssStyleSheet {
    let groups = mp::parse_a_comma_separated_list_of_component_values(query);
    let mut out: Vec<mp::ComponentValue> = Vec::new();
    for (i, mut group) in groups.into_iter().enumerate() {
        if i > 0 {
            out.push(mp::ComponentValue::PreservedToken(mt::Token::Comma));
        }
        out.append(&mut group);
    }
    s.media = out;
    s
}

fn sheet_media_count(query: &str, viewport: (u32, u32)) -> usize {
    let element = make_element("div", &[]);
    let s = sheet(&with_media_query(make_sheet("div { color: red; }", AUTHOR), query));
    let media = MediaContext {
        media_type: "screen",
        viewport_w: (viewport.0 as f64).to_bits(),
        viewport_h: (viewport.1 as f64).to_bits(),
    };
    let prepared = prepare_sheets_with_context(&[s], &media);
    collect_declared_values_prepared(&element, &prepared, &[]).len()
}

fn with_media_attr(mut s: CssStyleSheet, idents: &[&str]) -> CssStyleSheet {
    s.media = idents
        .iter()
        .map(|i| mp::ComponentValue::PreservedToken(mt::Token::Ident((*i).to_string())))
        .collect();
    s
}

// ---- selector matching and collection ----

#[test]
fn simple_type_selector_match() {
    let element = make_element("div", &[]);
    let declared = collect(&element, &[make_sheet("div { color: red; }", AUTHOR)]);
    assert_eq!(declared.len(), 1);
    assert_eq!(declared[0].property, "color");
    assert_eq!(declared[0].origin, Origin::Author);
    assert!(!declared[0].important);
    assert!(!declared[0].from_style_attr);
}

#[test]
fn class_selector_match() {
    let element = make_element("div", &[("class", "foo")]);
    let declared = collect(&element, &[make_sheet(".foo { color: blue; }", AUTHOR)]);
    assert_eq!(declared.len(), 1);
    assert_eq!(declared[0].property, "color");
}

#[test]
fn id_selector_match() {
    let element = make_element("div", &[("id", "bar")]);
    let declared = collect(&element, &[make_sheet("#bar { color: green; }", AUTHOR)]);
    assert_eq!(declared.len(), 1);
}

#[test]
fn non_matching_selector() {
    let element = make_element("div", &[]);
    let declared = collect(&element, &[make_sheet("span { color: red; }", AUTHOR)]);
    assert!(declared.is_empty());
}

#[test]
fn multiple_declarations_in_one_rule() {
    let element = make_element("div", &[]);
    let declared = collect(&element, &[make_sheet("div { color: red; font-size: 16px; }", AUTHOR)]);
    assert_eq!(declared.len(), 2);
    assert_eq!(declared[0].property, "color");
    assert_eq!(declared[1].property, "font-size");
}

#[test]
fn multiple_rules_matching_same_element() {
    let element = make_element("div", &[("class", "foo")]);
    let declared = collect(&element, &[make_sheet("div { color: red; } .foo { color: blue; }", AUTHOR)]);
    assert_eq!(declared.len(), 2);
    assert!(declared[0].order < declared[1].order);
}

#[test]
fn important_flag_collected() {
    let element = make_element("div", &[]);
    let declared = collect(&element, &[make_sheet("div { color: red !important; }", AUTHOR)]);
    assert_eq!(declared.len(), 1);
    assert!(declared[0].important);
}

#[test]
fn media_rule_screen_collected() {
    let element = make_element("div", &[]);
    let declared = collect(&element, &[make_sheet("@media screen { div { color: black; } }", AUTHOR)]);
    assert_eq!(declared.len(), 1);
    assert_eq!(declared[0].property, "color");
}

#[test]
fn nested_rules_collected() {
    let element = make_element("div", &[]);
    let declared = collect(&element, &[make_sheet("div { color: red; &:hover { color: blue; } }", AUTHOR)]);
    assert_eq!(declared.len(), 1);
    assert_eq!(declared[0].property, "color");
}

#[test]
fn specificity_recorded() {
    let element = make_element("div", &[("id", "bar"), ("class", "foo")]);
    let declared = collect(
        &element,
        &[make_sheet("#bar { color: red; } .foo { color: blue; } div { color: green; }", AUTHOR)],
    );
    assert_eq!(declared.len(), 3);
    let id_decl = declared.iter().find(|d| d.specificity.a == 1).unwrap();
    assert_eq!(id_decl.property, "color");
    let class_decl = declared.iter().find(|d| d.specificity.b == 1 && d.specificity.a == 0).unwrap();
    let type_decl = declared.iter().find(|d| d.specificity.c == 1 && d.specificity.b == 0).unwrap();
    assert!(id_decl.order < class_decl.order);
    assert!(class_decl.order < type_decl.order);
}

#[test]
fn origin_recorded() {
    let element = make_element("div", &[]);
    let ua_sheet = make_sheet("div { color: black; }", muskitty_cssom::Origin::UserAgent);
    let author_sheet = make_sheet("div { color: red; }", AUTHOR);
    let declared = collect(&element, &[ua_sheet, author_sheet]);
    assert_eq!(declared.len(), 2);
    let ua_decl = declared.iter().find(|d| d.origin == Origin::UserAgent).unwrap();
    let author_decl = declared.iter().find(|d| d.origin == Origin::Author).unwrap();
    assert!(ua_decl.order < author_decl.order);
}

#[test]
fn layer_block_rules_collected() {
    let element = make_element("div", &[]);
    let declared = collect(&element, &[make_sheet("@layer base { div { color: red; } }", AUTHOR)]);
    assert_eq!(declared.len(), 1);
}

#[test]
fn keyframes_content_does_not_pollute_element_matching() {
    let element = make_element("from", &[]);
    let declared = collect(
        &element,
        &[make_sheet("@keyframes fade { from { opacity: 0; } to { opacity: 1; } }", AUTHOR)],
    );
    assert!(declared.is_empty(), "keyframe blocks must not produce declared values, got {:?}", declared);
}

#[test]
fn font_face_and_page_do_not_pollute_element_matching() {
    let element = make_element("div", &[]);
    let declared = collect(
        &element,
        &[make_sheet(
            "@font-face { font-family: X; src: url(x); } @page { margin: 1cm; } div { color: red; }",
            AUTHOR,
        )],
    );
    assert_eq!(declared.len(), 1);
    assert_eq!(declared[0].property, "color");
}

#[test]
fn import_and_namespace_skipped() {
    let element = make_element("div", &[]);
    let declared = collect(
        &element,
        &[make_sheet(
            "@import \"style.css\"; @namespace svg \"http://www.w3.org/2000/svg\"; div { color: red; }",
            AUTHOR,
        )],
    );
    assert_eq!(declared.len(), 1);
    assert_eq!(declared[0].property, "color");
}

#[test]
fn multiple_stylesheets() {
    let element = make_element("div", &[]);
    let declared = collect(
        &element,
        &[make_sheet("div { color: red; }", AUTHOR), make_sheet("div { color: blue; }", AUTHOR)],
    );
    assert_eq!(declared.len(), 2);
    assert!(declared[0].order < declared[1].order);
}

#[test]
fn style_attr_collected() {
    let element = make_element("div", &[("style", "color: red")]);
    let declared = collect(&element, &[]);
    let color_decl = declared.iter().find(|d| d.property == "color");
    assert!(color_decl.is_some(), "style attr 'color: red' should be collected");
    let color_decl = color_decl.unwrap();
    assert!(color_decl.from_style_attr, "from_style_attr should be true");
    assert_eq!(color_decl.origin, Origin::Author);
    assert!(!color_decl.important);
}

#[test]
fn style_attr_multiple_declarations() {
    let element = make_element("div", &[("style", "color: red; margin-top: 10px")]);
    let declared = collect(&element, &[]);
    assert_eq!(declared.len(), 2);
    assert!(declared.iter().all(|d| d.from_style_attr));
}

#[test]
fn style_attr_with_important() {
    let element = make_element("div", &[("style", "color: red !important")]);
    let declared = collect(&element, &[]);
    assert_eq!(declared.len(), 1);
    assert!(declared[0].important);
    assert!(declared[0].from_style_attr);
}

#[test]
fn style_attr_combined_with_stylesheet() {
    let element = make_element("div", &[("style", "color: green")]);
    let declared = collect(&element, &[make_sheet("div { color: red; }", AUTHOR)]);
    assert_eq!(declared.len(), 2);
    let style_decl = declared.iter().find(|d| d.from_style_attr).unwrap();
    let sheet_decl = declared.iter().find(|d| !d.from_style_attr).unwrap();
    assert!(style_decl.order > sheet_decl.order, "style attr order should be greater");
}

// ---- @media / @supports ----

#[test]
fn media_print_pruned_on_screen() {
    let element = make_element("div", &[]);
    let declared = collect(&element, &[make_sheet("@media print { div { color: red; } }", AUTHOR)]);
    assert!(declared.is_empty(), "@media print must not produce declarations on screen, got {:?}", declared);
}

#[test]
fn media_all_matches() {
    let element = make_element("div", &[]);
    let declared = collect(&element, &[make_sheet("@media all { div { color: red; } }", AUTHOR)]);
    assert_eq!(declared.len(), 1);
    assert_eq!(declared[0].property, "color");
}

#[test]
fn media_screen_min_width_matches_default_viewport() {
    let element = make_element("div", &[]);
    let declared = collect(
        &element,
        &[make_sheet("@media screen and (min-width: 100px) { div { color: red; } }", AUTHOR)],
    );
    assert_eq!(declared.len(), 1);
    assert_eq!(declared[0].property, "color");
}

#[test]
fn media_min_width_pruned_on_narrow_viewport() {
    let element = make_element("div", &[]);
    let s = sheet(&make_sheet("@media screen and (min-width: 100px) { div { color: red; } }", AUTHOR));
    let prepared = prepare_sheets_with_context(
        &[s],
        &MediaContext { media_type: "screen", viewport_w: 50f64.to_bits(), viewport_h: 1080f64.to_bits() },
    );
    let declared = collect_declared_values_prepared(&element, &prepared, &[]);
    assert!(declared.is_empty(), "narrow viewport must prune min-width:100px rule, got {:?}", declared);
}

#[test]
fn media_unknown_feature_fails_closed() {
    let element = make_element("div", &[]);
    let declared = collect(&element, &[make_sheet("@media (orientation: portrait) { div { color: red; } }", AUTHOR)]);
    assert!(declared.is_empty(), "unknown media feature must fail closed, got {:?}", declared);
}

#[test]
fn supports_display_flex_matches() {
    let element = make_element("div", &[]);
    let declared = collect(&element, &[make_sheet("@supports (display: flex) { div { color: red; } }", AUTHOR)]);
    assert_eq!(declared.len(), 1);
    assert_eq!(declared[0].property, "color");
}

#[test]
fn supports_custom_property_matches() {
    let element = make_element("div", &[]);
    let declared = collect(&element, &[make_sheet("@supports (--foo: red) { div { color: red; } }", AUTHOR)]);
    assert_eq!(declared.len(), 1);
}

#[test]
fn supports_unknown_property_fails_closed() {
    let element = make_element("div", &[]);
    let declared = collect(&element, &[make_sheet("@supports (bogus-prop: x) { div { color: red; } }", AUTHOR)]);
    assert!(declared.is_empty(), "unknown property in @supports must fail closed, got {:?}", declared);
}

#[test]
fn supports_not_inverts() {
    let element = make_element("div", &[]);
    let declared = collect(&element, &[make_sheet("@supports not (bogus-prop: x) { div { color: red; } }", AUTHOR)]);
    assert_eq!(declared.len(), 1);
}

#[test]
fn supports_and_chain() {
    let element = make_element("div", &[]);
    let declared = collect(
        &element,
        &[make_sheet("@supports (display: flex) and (color: red) { div { color: red; } }", AUTHOR)],
    );
    assert_eq!(declared.len(), 1);
}

#[test]
fn media_comma_list_is_or() {
    let element = make_element("div", &[]);
    let declared = collect(&element, &[make_sheet("@media print, screen { div { color: red; } }", AUTHOR)]);
    assert_eq!(declared.len(), 1);
}

#[test]
fn media_not_negates_the_whole_query() {
    assert_eq!(media_count_screen("not print"), 1);
    assert_eq!(media_count_screen("not screen"), 0);
    assert_eq!(media_count_screen("not all"), 0);
}

#[test]
fn media_only_modifier_is_transparent() {
    assert_eq!(media_count_screen("only screen"), 1);
    assert_eq!(media_count_screen("only print"), 0);
    assert_eq!(media_count_screen("only all"), 1);
}

#[test]
fn media_unknown_feature_negated_stays_false() {
    assert_eq!(media_count_screen("not (orientation: bogus)"), 0);
    assert_eq!(media_count_screen("not (unknown-feature: 1px)"), 0);
    assert_eq!(media_count_screen("not (min-resolution: 2dppx)"), 0);
}

#[test]
fn media_unknown_absorbs_and_short_circuits_or() {
    assert_eq!(media_count_screen("(min-width: 9999px) and (unknown-feature: x)"), 0, "false AND unknown = false");
    assert_eq!(media_count_screen("(min-width: 100px) or (unknown-feature: x)"), 1, "true OR unknown = true");
    assert_eq!(
        media_count_screen("(min-width: 100px) and (unknown-feature: x)"),
        0,
        "true AND unknown = unknown -> false"
    );
}

#[test]
fn media_malformed_query_is_not_all_but_recovers_at_comma() {
    assert_eq!(media_count_screen("screen (min-width: 100px)"), 0, "missing operator must be malformed");
    assert_eq!(media_count_screen("screen (min-width: 100px), screen"), 1, "recovery at the next comma");
    assert_eq!(media_count_screen("screen and"), 0, "dangling `and` is malformed");
    assert_eq!(media_count_screen("and screen"), 0, "leading `and` is malformed");
}

#[test]
fn media_em_and_rem_units_resolve_against_initial_font_size() {
    assert_eq!(media_count_screen("(min-width: 60em)"), 1);
    assert_eq!(media_count_screen("(min-width: 200em)"), 0);
    assert_eq!(media_count_screen("(min-width: 60rem)"), 1);
    assert_eq!(media_count_screen("(min-width: 120em)"), 1);
    assert_eq!(media_count_screen("(max-width: 120em)"), 1);
}

#[test]
fn media_orientation_landscape_and_portrait() {
    assert_eq!(media_count_screen("(orientation: landscape)"), 1);
    assert_eq!(media_count_screen("(orientation: portrait)"), 0);
    assert_eq!(media_decl_count("(orientation: portrait)", (768, 1024)), 1);
    assert_eq!(media_decl_count("(orientation: landscape)", (768, 1024)), 0);
}

#[test]
fn media_height_features_and_units() {
    assert_eq!(media_count_screen("(min-height: 1000px)"), 1);
    assert_eq!(media_count_screen("(max-height: 1000px)"), 0);
    assert_eq!(media_count_screen("(max-height: 70em)"), 1);
    assert_eq!(media_count_screen("(min-height: 70em)"), 0);
    assert_eq!(media_count_screen("(min-height: 60em)"), 1);
}

#[test]
fn media_or_chain_of_features() {
    assert_eq!(media_count_screen("(min-width: 9999px) or (min-width: 100px)"), 1, "false OR true = true");
    assert_eq!(media_count_screen("(min-width: 9999px) or (min-width: 8888px)"), 0, "false OR false = false");
    assert_eq!(
        media_count_screen("(min-width: 100px) and (max-width: 1px) or (min-width: 100px)"),
        0,
        "mixing and/or at one level is malformed"
    );
}

#[test]
fn media_nested_parenthesized_condition() {
    assert_eq!(media_count_screen("((min-width: 100px) and (max-width: 9999px))"), 1);
    assert_eq!(media_count_screen("((min-width: 9999px))"), 0);
    assert_eq!(media_count_screen("(not (min-width: 9999px))"), 1);
}

#[test]
fn media_type_with_and_condition() {
    assert_eq!(media_count_screen("screen and (min-width: 100px)"), 1);
    assert_eq!(media_count_screen("screen and (min-width: 9999px)"), 0);
    assert_eq!(media_count_screen("print and (min-width: 100px)"), 0);
}

#[test]
fn media_zero_length_without_unit() {
    assert_eq!(media_count_screen("(min-width: 0)"), 1);
}

// ---- sheet-level fields ----

#[test]
fn disabled_sheet_is_skipped() {
    let element = make_element("div", &[]);
    let mut s = make_sheet("div { color: red; }", AUTHOR);
    s.disabled = true;
    assert!(collect(&element, &[s]).is_empty());
}

#[test]
fn alternate_sheet_is_skipped() {
    let element = make_element("div", &[]);
    let mut s = make_sheet("div { color: red; }", AUTHOR);
    s.alternate = true;
    assert!(collect(&element, &[s]).is_empty());
}

#[test]
fn sheet_media_attribute_gates_whole_sheet() {
    let element = make_element("div", &[]);
    let print_sheet = with_media_attr(make_sheet("div { color: red; }", AUTHOR), &["print"]);
    let screen_sheet = with_media_attr(make_sheet("div { color: blue; }", AUTHOR), &["screen"]);
    assert!(collect(&element, &[print_sheet]).is_empty(), "media=print does not apply on screen");
    assert_eq!(collect(&element, &[screen_sheet]).len(), 1, "media=screen applies");
}

#[test]
fn sheet_media_attribute_comma_list_is_or() {
    let element = make_element("div", &[]);
    let mut s = make_sheet("div { color: red; }", AUTHOR);
    s.media = vec![
        mp::ComponentValue::PreservedToken(mt::Token::Ident("print".to_string())),
        mp::ComponentValue::PreservedToken(mt::Token::Comma),
        mp::ComponentValue::PreservedToken(mt::Token::Ident("screen".to_string())),
    ];
    assert_eq!(collect(&element, &[s]).len(), 1);
}

#[test]
fn empty_sheet_media_applies() {
    let element = make_element("div", &[]);
    let s = make_sheet("div { color: red; }", AUTHOR);
    assert!(s.media.is_empty());
    assert_eq!(collect(&element, &[s]).len(), 1);
}

#[test]
fn sheet_media_attribute_with_feature_query() {
    assert_eq!(sheet_media_count("(min-width: 1000px)", (1920, 1080)), 1);
    assert_eq!(sheet_media_count("(min-width: 3000px)", (1920, 1080)), 0);
    assert_eq!(sheet_media_count("(max-width: 800px)", (640, 480)), 1);
    assert_eq!(sheet_media_count("(min-width: 60em)", (1920, 1080)), 1);
    assert_eq!(sheet_media_count("(orientation: landscape)", (1920, 1080)), 1);
    assert_eq!(sheet_media_count("(orientation: portrait)", (1920, 1080)), 0);
}

#[test]
fn sheet_media_attribute_negation_and_unknown() {
    assert_eq!(sheet_media_count("not screen", (1920, 1080)), 0);
    assert_eq!(sheet_media_count("not print", (1920, 1080)), 1);
    assert_eq!(sheet_media_count("not (unknown-feature: 1px)", (1920, 1080)), 0, "unknown negated stays unknown -> false");
}

#[test]
fn sheet_media_attribute_malformed_is_pruned() {
    assert_eq!(sheet_media_count("screen (min-width: 1px)", (1920, 1080)), 0);
    assert_eq!(sheet_media_count("and screen", (1920, 1080)), 0);
    assert_eq!(sheet_media_count("screen (min-width: 1px), screen", (1920, 1080)), 1);
}

#[test]
fn disabled_first_sheet_lets_later_one_win() {
    let element = make_element("div", &[]);
    let mut first = make_sheet("div { color: red; }", AUTHOR);
    first.disabled = true;
    let second = make_sheet("div { color: green; }", AUTHOR);
    let declared = collect(&element, &[first, second]);
    assert_eq!(declared.len(), 1);
    assert_eq!(declared[0].origin, Origin::Author);
    assert!(has_ident(&declared[0].value, "green"), "the winner comes from the enabled second sheet");
}

// ---- own checks ----

#[test]
fn media_exact_boundaries_and_fractions() {
    // 100.5px lies strictly between 100 and 101 viewport pixels.
    assert_eq!(media_decl_count("(min-width: 100.5px)", (100, 1080)), 0);
    assert_eq!(media_decl_count("(min-width: 100.5px)", (101, 1080)), 1);
    assert_eq!(media_decl_count("(max-width: 100.5px)", (100, 1080)), 1);
    assert_eq!(media_decl_count("(min-width: 100px)", (100, 1080)), 1);
    assert_eq!(media_decl_count("(max-width: 100px)", (100, 1080)), 1);
    // A fractional viewport is compared exactly.
    assert_eq!(media_decl_count_at("(min-width: 100.5px)", (100.5, 1080.0)), 1);
    assert_eq!(media_decl_count_at("(max-width: 100.5px)", (100.5, 1080.0)), 1);
    assert_eq!(media_decl_count_at("(min-width: 100.5px)", (100.25, 1080.0)), 0);
    assert_eq!(media_decl_count_at("(min-height: 0.5px)", (1.0, 0.75)), 1);
    assert_eq!(media_decl_count_at("(orientation: portrait)", (100.5, 100.5)), 1);
    assert_eq!(media_decl_count_at("(orientation: landscape)", (100.75, 100.5)), 1);
    // A NaN viewport satisfies no size comparison.
    assert_eq!(media_decl_count_at("(min-width: 1px)", (f64::NAN, 1.0)), 0);
    assert_eq!(media_decl_count_at("(max-width: 1px)", (f64::NAN, 1.0)), 0);
    // An infinite viewport is wider than every length.
    assert_eq!(media_decl_count_at("(min-width: 100000px)", (f64::INFINITY, 1.0)), 1);
    // A negative length: every viewport is at least that wide.
    assert_eq!(media_decl_count("(min-width: -5px)", (0, 0)), 1);
    // Units other than px/em/rem are unsupported: unknown.
    assert_eq!(media_count_screen("(min-width: 10vw)"), 0);
    assert_eq!(media_count_screen("not (min-width: 10vw)"), 0);
    // A non-zero bare number is not a length.
    assert_eq!(media_count_screen("(min-width: 5)"), 0);
}

#[test]
fn empty_media_list_holds() {
    let ctx = MediaContext::default();
    assert!(eval_media_query(&ctx, &[]));
    assert!(eval_media_query(&ctx, &[ComponentValue::PreservedToken(Token::Whitespace)]));
    assert!(!eval_media_query(&ctx, &[ComponentValue::PreservedToken(Token::Comma)]));
}

#[test]
fn supports_condition_edge_cases() {
    let parse = |s: &str| cvs(&mp::parse_a_comma_separated_list_of_component_values(s).remove(0));
    assert!(!eval_supports_condition(&[]));
    assert!(eval_supports_condition(&parse("(DISPLAY: flex)")));
    assert!(eval_supports_condition(&parse("(bogus: x) or (color: red)")));
    assert!(!eval_supports_condition(&parse("(bogus: x) and (color: red)")));
    assert!(!eval_supports_condition(&parse("foo (color: red)")));
    assert!(!eval_supports_condition(&parse("[color: red]")));
}

#[test]
fn property_names_are_normalised() {
    assert_eq!(normalize_property_name("COLOR").as_deref(), Some("color"));
    assert_eq!(normalize_property_name("--Brand").as_deref(), Some("--Brand"));
    assert_eq!(normalize_property_name("bogus-prop"), None);
}

#[test]
fn gap_value_splits_into_axes() {
    let parse = |s: &str| cvs(&mp::parse_a_comma_separated_list_of_component_values(s).remove(0));
    let (row, col) = split_gap_value(&parse("1px 2px"));
    assert!(matches!(&row[..], [ComponentValue::PreservedToken(Token::Dimension(_, u))] if u == "px"));
    assert_eq!(row.len(), 1);
    assert_eq!(col.len(), 1);
    let (row, col) = split_gap_value(&parse(" 3px "));
    assert_eq!((row.len(), col.len()), (1, 1));
    let (row, col) = split_gap_value(&[]);
    assert!(row.is_empty() && col.is_empty());
}

#[test]
fn gap_shorthand_becomes_longhands() {
    let element = make_element("div", &[("style", "gap: 4px 8px; bogus: 1; GAP: 1px")]);
    let declared = collect(&element, &[]);
    let names: Vec<&str> = declared.iter().map(|d| d.property.as_str()).collect();
    assert_eq!(names, vec!["row-gap", "column-gap", "row-gap", "column-gap"]);
    assert_eq!(declared[0].order, declared[1].order);
    assert!(declared[1].order < declared[2].order);
}

#[test]
fn layers_are_numbered_in_order_of_first_appearance() {
    let element = make_element("div", &[]);
    let declared = collect(
        &element,
        &[make_sheet(
            "@layer a, b; @layer b { div { color: red; } } @layer a { div { color: blue; } } @layer { div { color: green; } } div { color: black; }",
            AUTHOR,
        )],
    );
    let layers: Vec<Option<usize>> = declared.iter().map(|d| d.layer_order).collect();
    assert_eq!(layers, vec![Some(1), Some(0), Some(2), None]);
}

// ---- the pipeline for one property (token part) ----

fn compute_property(
    element: &DomElement,
    sheets: &[CssStyleSheet],
    property: &str,
    parent_computed: Option<&ComputedValue>,
    props: &CustomProperties,
) -> ComputedValue {
    let declared = collect(element, sheets);
    let groups = cascade_for_element(declared);
    let group: &[DeclaredValue] = groups.get(property).map(|g| g.as_slice()).unwrap_or(&[]);
    let winner = cascade_winner(group);
    let cascaded = winner.map(|w| w.value.as_slice());
    let specified = apply_defaulting(property, cascaded, parent_computed);
    let src = CustomPropertySource::flat(props);
    ComputedValue::from_tokens(substitute_vars(specified.tokens(), &src).unwrap_or_default())
}

fn assert_dimension(cv: &ComputedValue, value: f64, unit: &str) {
    match &cv.tokens()[0] {
        ComponentValue::PreservedToken(Token::Dimension(n, u)) => {
            assert_eq!(f64::from_bits(n.bits), value);
            assert_eq!(u, unit);
        }
        other => panic!("expected Dimension, got {:?}", other),
    }
}

fn no_props() -> CustomProperties {
    CustomProperties::new()
}

#[test]
fn single_rule_single_property() {
    let element = make_element("div", &[]);
    let result = compute_property(&element, &[make_sheet("div { color: red; }", AUTHOR)], "color", None, &no_props());
    assert_eq!(result.tokens().len(), 1);
    assert_eq!(result.keyword(), Some("red"));
}

#[test]
fn higher_specificity_wins() {
    let element = make_element("div", &[("id", "main")]);
    let sheet = make_sheet("div { color: red; } #main { color: blue; }", AUTHOR);
    assert_eq!(compute_property(&element, &[sheet], "color", None, &no_props()).keyword(), Some("blue"));
}

#[test]
fn important_beats_normal() {
    let element = make_element("div", &[]);
    let sheet = make_sheet("div { color: red; } div { color: blue !important; }", AUTHOR);
    assert_eq!(compute_property(&element, &[sheet], "color", None, &no_props()).keyword(), Some("blue"));
}

#[test]
fn later_declaration_wins_on_tie() {
    let element = make_element("div", &[]);
    let sheet = make_sheet("div { color: red; } div { color: green; }", AUTHOR);
    assert_eq!(compute_property(&element, &[sheet], "color", None, &no_props()).keyword(), Some("green"));
}

#[test]
fn no_declaration_uses_initial_value() {
    let element = make_element("div", &[]);
    let sheet = make_sheet("div { font-size: 16px; }", AUTHOR);
    assert_eq!(compute_property(&element, &[sheet], "color", None, &no_props()).keyword(), Some("black"));
}

#[test]
fn inherited_property_inherits_from_parent() {
    let element = make_element("div", &[]);
    let sheet = make_sheet("div { font-size: 16px; }", AUTHOR);
    let parent_color = ComputedValue::from_keyword("red");
    let result = compute_property(&element, &[sheet], "color", Some(&parent_color), &no_props());
    assert_eq!(result.keyword(), Some("red"));
}

#[test]
fn initial_keyword_resets_to_initial() {
    let element = make_element("div", &[]);
    let sheet = make_sheet("div { color: initial; }", AUTHOR);
    let parent_color = ComputedValue::from_keyword("red");
    let result = compute_property(&element, &[sheet], "color", Some(&parent_color), &no_props());
    assert_eq!(result.keyword(), Some("black"));
}

#[test]
fn inherit_keyword_explicitly_inherits() {
    let element = make_element("div", &[]);
    let sheet = make_sheet("div { color: inherit; }", AUTHOR);
    let parent_color = ComputedValue::from_keyword("blue");
    let result = compute_property(&element, &[sheet], "color", Some(&parent_color), &no_props());
    assert_eq!(result.keyword(), Some("blue"));
}

#[test]
fn author_beats_user_agent() {
    let element = make_element("div", &[]);
    let ua = make_sheet("div { color: gray; }", muskitty_cssom::Origin::UserAgent);
    let author = make_sheet("div { color: red; }", AUTHOR);
    assert_eq!(compute_property(&element, &[ua, author], "color", None, &no_props()).keyword(), Some("red"));
}

#[test]
fn important_ua_beats_important_author() {
    let element = make_element("div", &[]);
    let ua = make_sheet("div { color: gray !important; }", muskitty_cssom::Origin::UserAgent);
    let author = make_sheet("div { color: red !important; }", AUTHOR);
    assert_eq!(compute_property(&element, &[ua, author], "color", None, &no_props()).keyword(), Some("gray"));
}

#[test]
fn multiple_properties_computed() {
    let element = make_element("div", &[]);
    let sheets = [make_sheet("div { color: red; font-size: 16px; display: block; }", AUTHOR)];
    assert_eq!(compute_property(&element, &sheets, "color", None, &no_props()).keyword(), Some("red"));
    assert_dimension(&compute_property(&element, &sheets, "font-size", None, &no_props()), 16.0, "px");
    assert_eq!(compute_property(&element, &sheets, "display", None, &no_props()).keyword(), Some("block"));
}

#[test]
fn var_in_full_pipeline() {
    let element = make_element("div", &[]);
    let sheet = make_sheet("div { color: var(--main); }", AUTHOR);
    let mut props = CustomProperties::new();
    props.insert("--main".to_string(), vec![ComponentValue::PreservedToken(Token::Ident("blue".to_string()))]);
    assert_eq!(compute_property(&element, &[sheet], "color", None, &props).keyword(), Some("blue"));
}

#[test]
fn unlayered_normal_beats_layered_normal_in_pipeline() {
    let element = make_element("div", &[]);
    let sheet = make_sheet("div { color: red; } @layer a { div { color: blue; } }", AUTHOR);
    assert_eq!(compute_property(&element, &[sheet], "color", None, &no_props()).keyword(), Some("red"));
}

#[test]
fn earlier_layer_wins_for_important_in_pipeline() {
    let element = make_element("div", &[]);
    let sheet = make_sheet(
        "@layer a { div { color: red !important; } } @layer b { div { color: blue !important; } }",
        AUTHOR,
    );
    assert_eq!(compute_property(&element, &[sheet], "color", None, &no_props()).keyword(), Some("red"));
}

#[test]
fn later_layer_wins_for_normal_in_pipeline() {
    let element = make_element("div", &[]);
    let sheet = make_sheet("@layer a { div { color: red; } } @layer b { div { color: blue; } }", AUTHOR);
    assert_eq!(compute_property(&element, &[sheet], "color", None, &no_props()).keyword(), Some("blue"));
}

#[test]
fn case_insensitive_property_name_collected() {
    let element = make_element("div", &[]);
    let sheet = make_sheet("div { COLOR: red; }", AUTHOR);
    assert_eq!(compute_property(&element, &[sheet], "color", None, &no_props()).keyword(), Some("red"));
}

#[test]
fn unknown_property_dropped() {
    let element = make_element("div", &[]);
    let declared = collect(&element, &[make_sheet("div { foo: 1; color: red; }", AUTHOR)]);
    let props: Vec<&str> = declared.iter().map(|d| d.property.as_str()).collect();
    assert!(!props.contains(&"foo"), "unknown prop should be dropped");
    assert!(props.contains(&"color"));
}

#[test]
fn custom_property_case_preserved() {
    let element = make_element("div", &[]);
    let declared = collect(&element, &[make_sheet("div { --Main: red; color: var(--Main); }", AUTHOR)]);
    let props: Vec<&str> = declared.iter().map(|d| d.property.as_str()).collect();
    assert!(props.contains(&"--Main"));
}

#[test]
fn gap_shorthand_overrides_column_gap() {
    let element = make_element("div", &[]);
    let sheet = make_sheet("div { column-gap: 20px; gap: 10px; }", AUTHOR);
    assert_dimension(&compute_property(&element, &[sheet], "column-gap", None, &no_props()), 10.0, "px");
}

#[test]
fn gap_shorthand_two_values_split() {
    let element = make_element("div", &[]);
    let sheet = make_sheet("div { gap: 10px 20px; }", AUTHOR);
    let row = compute_property(&element, std::slice::from_ref(&sheet), "row-gap", None, &no_props());
    assert_dimension(&row, 10.0, "px");
    let col = compute_property(&element, &[sheet], "column-gap", None, &no_props());
    assert_dimension(&col, 20.0, "px");
}

#[test]
fn gap_shorthand_no_longer_emits_gap_itself() {
    let element = make_element("div", &[]);
    let declared = collect(&element, &[make_sheet("div { gap: 10px; }", AUTHOR)]);
    let props: Vec<&str> = declared.iter().map(|d| d.property.as_str()).collect();
    assert!(!props.contains(&"gap"), "gap should be expanded away");
    assert!(props.contains(&"row-gap"));
    assert!(props.contains(&"column-gap"));
}

#[test]
fn non_matching_selector_falls_back_to_initial() {
    let element = make_element("span", &[]);
    let sheet = make_sheet("div { color: red; }", AUTHOR);
    assert_eq!(compute_property(&element, &[sheet], "color", None, &no_props()).keyword(), Some("black"));
}

// ---- custom properties ----

fn find_element(
    node: &std::rc::Rc<std::cell::RefCell<Node>>,
    predicate: &dyn Fn(&DomElement) -> bool,
) -> Option<DomElement> {
    if matches!(&node.borrow().kind, muskitty_dom::NodeKind::Element(_)) {
        let el = DomElement::new(std::rc::Rc::clone(node));
        if predicate(&el) {
            return Some(el);
        }
    }
    for child in node.borrow().child_nodes() {
        if let Some(found) = find_element(child, predicate) {
            return Some(found);
        }
    }
    None
}

fn element_with_id(node: &std::rc::Rc<std::cell::RefCell<Node>>, id: &str) -> Option<DomElement> {
    find_element(node, &|el| el.get_attribute("id").as_deref() == Some(id))
}

fn custom_props(element: &DomElement, sheets: &[CssStyleSheet], parent: &CustomProperties) -> CustomProperties {
    let own: Vec<StyleSheet> = sheets.iter().map(sheet).collect();
    collect_custom_properties(element, &own, &inline(element), parent)
}

#[test]
fn collects_custom_property_from_root() {
    let dom = muskitty_html5_parser::parse(r#"<html><body><div id="a"></div></body></html>"#);
    let sheets = [make_sheet(":root { --brand: red; }", AUTHOR)];
    let empty = CustomProperties::new();
    let root = find_element(&dom, &|el| el.local_name() == "html").expect("html root");
    let props = custom_props(&root, &sheets, &empty);
    assert_eq!(props.len(), 1);
    assert!(props.contains_key("--brand"));
    let el = element_with_id(&dom, "a").expect("div#a");
    let inherited = custom_props(&el, &sheets, &props);
    assert!(inherited.contains_key("--brand"));
}

#[test]
fn child_inherits_and_override() {
    let dom = muskitty_html5_parser::parse(
        r#"<html><body>
                <div id="child" style="--brand: blue">
                    <span id="grand"></span>
                </div>
            </body></html>"#,
    );
    let sheets = [make_sheet(":root { --brand: red; }", AUTHOR)];
    let empty = CustomProperties::new();
    let child = element_with_id(&dom, "child").expect("div#child");
    let child_props = custom_props(&child, &sheets, &empty);
    assert_eq!(child_props.get("--brand").unwrap().len(), 1);
    let grand = element_with_id(&dom, "grand").expect("span#grand");
    let grand_props = custom_props(&grand, &sheets, &child_props);
    assert_eq!(grand_props.get("--brand").unwrap().len(), 1);
}

#[test]
fn css_wide_keywords_are_not_stored_as_custom_values() {
    let element = make_element("div", &[("style", "--a: inherit; --b: initial; --c: x")]);
    let mut parent = CustomProperties::new();
    parent.insert("--a".to_string(), vec![ComponentValue::PreservedToken(Token::Ident("from-parent".to_string()))]);
    let props = custom_props(&element, &[], &parent);
    assert!(has_ident(props.get("--a").unwrap(), "from-parent"));
    assert!(!props.contains_key("--b"));
    assert!(has_ident(props.get("--c").unwrap(), "x"));
}

// ---- shorthands and line widths ----

#[test]
fn border_width_keywords_normalize_to_px() {
    let element = make_element(
        "div",
        &[("style", "border: thin solid red; border-left-width: thick; outline: medium solid")],
    );
    let empty = CustomProperties::new();
    let width = |p: &str| normalize_line_width(p, compute_property(&element, &[], p, None, &empty));
    assert_dimension(&width("border-top-width"), 1.0, "px");
    assert_dimension(&width("border-right-width"), 1.0, "px");
    assert_dimension(&width("border-left-width"), 5.0, "px");
    assert_dimension(&width("outline-width"), 3.0, "px");
    let style = compute_property(&element, &[], "border-bottom-style", None, &empty);
    assert!(has_ident(style.tokens(), "solid"));
    let color = compute_property(&element, &[], "outline-color", None, &empty);
    assert!(has_ident(color.tokens(), "auto"));
}

#[test]
fn border_width_default_medium_normalizes_without_declaration() {
    let element = make_element("div", &[]);
    let empty = CustomProperties::new();
    let w = normalize_line_width("border-top-width", compute_property(&element, &[], "border-top-width", None, &empty));
    assert_dimension(&w, 3.0, "px");
    let element = make_element("div", &[("style", "border-width: 7px; border-style: solid")]);
    let w = normalize_line_width("border-top-width", compute_property(&element, &[], "border-top-width", None, &empty));
    assert_dimension(&w, 7.0, "px");
}

#[test]
fn shorthand_declarations_share_their_order() {
    let element = make_element("div", &[("style", "border-style: solid dashed; color: red")]);
    let declared = collect(&element, &[]);
    let names: Vec<&str> = declared.iter().map(|d| d.property.as_str()).collect();
    assert_eq!(names, vec!["border-top-style", "border-right-style", "border-bottom-style", "border-left-style", "color"]);
    let orders: Vec<usize> = declared.iter().map(|d| d.order).collect();
    assert_eq!(orders, vec![1, 1, 1, 1, 2]);
    assert!(declared.iter().all(|d| d.from_style_attr));
}

#[test]
fn invalid_shorthand_value_sets_nothing() {
    let element = make_element("div", &[("style", "border: thin thick; border-color: red red red red red")]);
    assert!(collect(&element, &[]).is_empty());
}

// ---- styles down a document, token part ----

fn walk_styles<'a>(
    node: &std::rc::Rc<std::cell::RefCell<Node>>,
    prepared: &PreparedSheets,
    parent_style: Option<&ComputedStyle>,
    parent_source: Option<&'a CustomPropertySource<'a>>,
    out: &mut std::collections::HashMap<String, ComputedStyle>,
) {
    let children: Vec<_> = node.borrow().child_nodes().to_vec();
    if !matches!(&node.borrow().kind, muskitty_dom::NodeKind::Element(_)) {
        for child in &children {
            walk_styles(child, prepared, parent_style, parent_source, out);
        }
        return;
    }
    let element = DomElement::new(std::rc::Rc::clone(node));
    let groups = cascade_for_element(collect_declared_values_prepared(&element, prepared, &inline(&element)));
    let own = derive_own_custom_props(&groups);
    let source = CustomPropertySource::chain(&own, parent_source);
    let mut cs = ComputedStyle::new();
    let mut names = style_property_names(&groups);
    names.push("font-size".to_string());
    for p in &names {
        let (value, _) = compute_property_tokens(p, &groups, parent_style, &source);
        cs.set(p, normalize_line_width(p, value));
    }
    for child in &children {
        walk_styles(child, prepared, Some(&cs), Some(&source), out);
    }
    if let Some(id) = element.get_attribute("id") {
        out.insert(id.to_string(), cs);
    }
}

fn styles_with(html: &str, css: &str, media: &MediaContext) -> std::collections::HashMap<String, ComputedStyle> {
    let dom = muskitty_html5_parser::parse(html);
    let sheets = [sheet(&make_sheet(css, AUTHOR))];
    let prepared = prepare_sheets_with_context(&sheets, media);
    let mut out = std::collections::HashMap::new();
    walk_styles(&dom, &prepared, None, None, &mut out);
    out
}

fn styles(html: &str, css: &str) -> std::collections::HashMap<String, ComputedStyle> {
    styles_with(html, css, &MediaContext::default())
}

fn style_ident(cs: &ComputedStyle, prop: &str) -> String {
    let cv = cs.get(prop).unwrap_or_else(|| panic!("{prop} not in style"));
    for v in cv.tokens() {
        if let ComponentValue::PreservedToken(Token::Ident(s)) = v {
            return s.clone();
        }
    }
    panic!("{prop} has no Ident in {:?}", cv.tokens());
}

fn style_px(cs: &ComputedStyle, prop: &str) -> f64 {
    let cv = cs.get(prop).unwrap_or_else(|| panic!("{prop} not in style"));
    for v in cv.tokens() {
        if let ComponentValue::PreservedToken(Token::Dimension(n, u)) = v {
            assert_eq!(u, "px", "expected px for {prop}");
            return f64::from_bits(n.bits);
        }
    }
    panic!("{prop} has no px dimension in {:?}", cv.tokens());
}

#[test]
fn var_references_initial_css_wide_keyword_as_undefined() {
    let st = styles(r#"<html><body><div id="a" style="color: var(--x, orange)"></div></body></html>"#, ":root { --x: initial; }");
    assert_eq!(style_ident(&st["a"], "color"), "orange");
}

#[test]
fn var_references_inherit_keyword_uses_parent_chain() {
    let st = styles(
        r#"<html><body>
            <div class="child" id="c" style="--x: inherit">
                <span id="g" style="color: var(--x)"></span>
            </div>
        </body></html>"#,
        ":root { --x: red; }",
    );
    assert_eq!(style_ident(&st["g"], "color"), "red");
}

#[test]
fn invalid_var_treats_property_as_unset() {
    let st = styles(r#"<html style="color: red"><body><div id="a" style="color: var(color)"></div></body></html>"#, "");
    assert_eq!(style_ident(&st["a"], "color"), "red");
}

#[test]
fn media_min_width_applies_at_wide_viewport() {
    let st = styles(r#"<html><body><div id="a"></div></body></html>"#, "@media (min-width: 800px) { div { color: red } }");
    assert_eq!(style_ident(&st["a"], "color"), "red");
}

#[test]
fn media_min_width_pruned_at_narrow_viewport() {
    let narrow = MediaContext { media_type: "screen", viewport_w: 640f64.to_bits(), viewport_h: 480f64.to_bits() };
    let st = styles_with(
        r#"<html><body><div id="a"></div></body></html>"#,
        "@media (min-width: 800px) { div { color: red } }",
        &narrow,
    );
    assert_eq!(style_ident(&st["a"], "color"), "black");
}

#[test]
fn css_wide_keywords_default_not_shared() {
    let st = styles(
        r#"<html style="color: red"><body><div id="a" style="color: revert-layer; display: revert"></div></body></html>"#,
        "",
    );
    assert_eq!(style_ident(&st["a"], "color"), "red");
    assert_eq!(style_ident(&st["a"], "display"), "inline");
}

#[test]
fn undeclared_properties_fill_initial_and_parent() {
    let st = styles(r#"<html style="white-space: pre"><body><div id="a"></div></body></html>"#, "");
    assert_eq!(style_ident(&st["a"], "overflow"), "visible");
    assert_eq!(style_ident(&st["a"], "white-space"), "pre");
}

#[test]
fn plain_declared_value_computes_identically() {
    let st = styles(
        r#"<html><body><div id="a" style="color: rgb(0, 0, 255); margin-left: 10px"></div></body></html>"#,
        "",
    );
    let color = st["a"].get("color").unwrap();
    assert!(
        color.tokens().iter().any(|cv| matches!(cv, ComponentValue::Function(f) if f.name.eq_ignore_ascii_case("rgb"))),
        "rgb() must stay a function token, got {:?}",
        color.tokens()
    );
    assert_eq!(style_px(&st["a"], "margin-left"), 10.0);
}

#[test]
fn border_widths_through_the_tree() {
    let st = styles(
        r#"<html><body><div id="a" style="border: thin solid red; border-left-width: thick; outline: medium solid"></div><div id="b"></div></body></html>"#,
        "",
    );
    assert_eq!(style_px(&st["a"], "border-top-width"), 1.0);
    assert_eq!(style_px(&st["a"], "border-right-width"), 1.0);
    assert_eq!(style_px(&st["a"], "border-left-width"), 5.0);
    assert_eq!(style_px(&st["a"], "outline-width"), 3.0);
    assert_eq!(style_px(&st["b"], "border-top-width"), 3.0);
    assert_eq!(style_px(&st["b"], "outline-width"), 3.0);
}

#[test]
fn font_size_inherits_to_child() {
    let st = styles(
        r#"<html><body><div id="a" style="font-size: 28px"><span id="b"></span></div></body></html>"#,
        "",
    );
    assert_eq!(style_px(&st["a"], "font-size"), 28.0);
    assert_eq!(style_px(&st["b"], "font-size"), 28.0);
}

// ---- the style attribute through the library ----

#[test]
fn style_attribute_text_parses_into_declarations() {
    let ds = parse_style_attribute("color: red; margin-top: 10px !important; --x: a b");
    let names: Vec<&str> = ds.iter().map(|d| d.name.as_str()).collect();
    assert_eq!(names, vec!["color", "margin-top", "--x"]);
    assert!(!ds[0].important && ds[1].important);
    assert!(has_ident(&ds[0].value, "red"));
    assert!(parse_style_attribute("").is_empty());
}

#[test]
fn style_attribute_nested_rule_contributes_nothing() {
    let ds = parse_style_attribute("color: red; div { color: blue } width: 1px");
    assert!(ds.iter().all(|d| !has_ident(&d.value, "blue")));
    assert_eq!(ds[0].name, "color");
}

#[test]
fn collect_with_style_text_matches_collect_with_parsed_declarations() {
    let element = make_element("div", &[("class", "x")]);
    let sheets = [sheet(&make_sheet(".x { color: red; }", AUTHOR))];
    let prepared = prepare_sheets_with_context(&sheets, &MediaContext::default());
    let with_style = collect_declared_values_with_style(&element, &prepared, Some("margin-top: 1px; color: blue"))
        .expect("few declarations");
    let names: Vec<&str> = with_style.iter().map(|d| d.property.as_str()).collect();
    assert_eq!(names, vec!["color", "margin-top", "color"]);
    assert!(with_style[1].from_style_attr && with_style[2].from_style_attr && !with_style[0].from_style_attr);
    let none = collect_declared_values_with_style(&element, &prepared, None).unwrap();
    assert_eq!(none.len(), 1);
}

#[test]
fn checked_collection_prepares_for_the_default_screen() {
    let element = make_element("div", &[]);
    let sheets = [sheet(&make_sheet("@media (min-width: 800px) { div { color: red; } } @media print { div { width: 1px } }", AUTHOR))];
    let declared = collect_declared_values_checked(&element, &sheets, Some("display: block")).unwrap();
    let names: Vec<&str> = declared.iter().map(|d| d.property.as_str()).collect();
    assert_eq!(names, vec!["color", "display"]);
    let empty = CustomProperties::new();
    let props = collect_custom_properties_checked(&element, &[sheet(&make_sheet("div { --a: 1 }", AUTHOR))], Some("--b: 2"), &empty)
        .unwrap();
    assert!(props.contains_key("--a") && props.contains_key("--b"));
}

// ---- media types, condition folding, layer blocks ----

#[test]
fn media_type_names_match_case_insensitively() {
    assert!(eval_media_type("screen", "ALL"));
    assert!(!eval_media_type("screen", "Print"));
    assert!(eval_media_type("print", "PRINT"));
    assert!(eval_media_type("screen", "screen"));
    assert!(!eval_media_type("screen", "tv"));
}

#[test]
fn supports_conditions_fold_by_operator() {
    assert_eq!(combine_condition(None, Some(true), false), Some(false));
    assert_eq!(combine_condition(Some(true), Some(true), false), Some(false));
    assert_eq!(combine_condition(Some(false), Some(false), true), Some(true));
    assert_eq!(combine_condition(Some(true), None, false), Some(false));
}

#[test]
fn balanced_layer_blocks_restore_the_current_layer() {
    let mut t = LayerTracker::new();
    assert_eq!(t.current(), None);
    t.enter(Some("base"));
    let base = t.current();
    t.enter(Some("inner"));
    t.enter(None);
    t.exit();
    t.exit();
    assert_eq!(t.current(), base);
    t.exit();
    assert_eq!(t.current(), None);
    t.exit();
    assert_eq!(t.current(), None);
    assert_eq!(Some(t.declare(Some("base"))), base);
    assert_eq!(t.declare(Some("inner")), 1);
    assert_eq!(t.declare(None), 3);
}

#[test]
fn values_sharing_an_order_share_their_declaration_data() {
    let element = make_element("div", &[("style", "border: thin solid red !important; gap: 1px; color: blue")]);
    let declared = collect(&element, &[]);
    assert_eq!(declared.len(), 15);
    for d in &declared[..12] {
        assert_eq!(d.order, 1);
        assert!(d.important && d.from_style_attr && d.layer_order.is_none());
    }
    assert_eq!((declared[12].order, declared[13].order, declared[14].order), (2, 2, 3));
    assert!(!declared[12].important && !declared[13].important);
}
