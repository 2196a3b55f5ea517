//! The declarations of an element's `style` attribute.
//!
//! The attribute's text is parsed as the contents of a declaration block
//! by the CSS parser (`parse_a_blocks_contents`), whose component values
//! are turned one for one into the library's. The parser groups
//! consecutive declarations into runs between nested rules; the attribute
//! contributes the declarations of every run, in order.
use vstd::prelude::*;
use muskitty_css::parser::{BlockKind as CssBlockKind, ComponentValue as CssComponentValue, Declaration as CssDeclaration, Rule as CssRule};
use muskitty_css::tokenizer::{HashType as CssHashType, Numeric as CssNumeric, Token as CssToken};
use crate::filter::{clone_declarations, decl_views, DeclView, SheetDeclaration};
use crate::token::{BlockKind, ComponentValue, Function, HashType, Numeric, SimpleBlock, Token};

verus! {

// ── the CSS parser's values ──────────────────────────────────────────────

/// A token of the CSS tokenizer.
#[verifier::external_type_specification]
#[verifier::external_body]
pub struct ExCssToken(CssToken);

/// A number of the CSS tokenizer.
#[verifier::external_type_specification]
#[verifier::external_body]
pub struct ExCssNumeric(CssNumeric);

/// A component value of the CSS parser.
#[verifier::external_type_specification]
#[verifier::external_body]
pub struct ExCssComponentValue(CssComponentValue);

/// A declaration of the CSS parser.
#[verifier::external_type_specification]
#[verifier::external_body]
pub struct ExCssDeclaration(muskitty_css::parser::Declaration);

/// An item of a block's contents of the CSS parser.
#[verifier::external_type_specification]
#[verifier::external_body]
pub struct ExCssRule(muskitty_css::parser::Rule);

/// A tokenizer number as the library carries it: the bit pattern of its
/// value and its integer flag.
#[verifier::external_body]
fn numeric_of(n: &CssNumeric) -> Numeric {
    Numeric { bits: n.value.to_bits(), is_integer: n.is_integer }
}

/// A token with a text or character value, one variant for one; the
/// others are converted by [`valued_token_of`].
#[verifier::external_body]
fn token_of(t: &CssToken) -> Token {
    match t {
        CssToken::Ident(s) => Token::Ident(s.clone()),
        CssToken::Function(s) => Token::Function(s.clone()),
        CssToken::AtKeyword(s) => Token::AtKeyword(s.clone()),
        CssToken::String(s) => Token::QuotedString(s.clone()),
        CssToken::Url(s) => Token::Url(s.clone()),
        CssToken::Comment(s) => Token::Comment(s.clone()),
        CssToken::Delim(c) => Token::Delim(*c),
        other => valued_token_of(other),
    }
}

/// A hash, numeric or unicode-range token, one variant for one; the
/// others are converted by [`punct_token_of`].
#[verifier::external_body]
fn valued_token_of(t: &CssToken) -> Token {
    match t {
        CssToken::Hash(s, CssHashType::Id) => Token::Hash(s.clone(), HashType::Id),
        CssToken::Hash(s, CssHashType::Unrestricted) => Token::Hash(s.clone(), HashType::Unrestricted),
        CssToken::Number(n) => Token::Number(numeric_of(n)),
        CssToken::Percentage(n) => Token::Percentage(numeric_of(n)),
        CssToken::Dimension(n, u) => Token::Dimension(numeric_of(n), u.clone()),
        CssToken::UnicodeRange(a, b) => Token::UnicodeRange(*a, *b),
        other => punct_token_of(other),
    }
}

/// A bad, whitespace or punctuation token, one variant for one; the
/// others are converted by [`bracket_token_of`].
#[verifier::external_body]
fn punct_token_of(t: &CssToken) -> Token {
    match t {
        CssToken::BadString => Token::BadString,
        CssToken::BadUrl => Token::BadUrl,
        CssToken::Whitespace => Token::Whitespace,
        CssToken::Colon => Token::Colon,
        CssToken::Semicolon => Token::Semicolon,
        CssToken::Comma => Token::Comma,
        other => bracket_token_of(other),
    }
}

/// A bracket, CDO, CDC or end-of-input token, one variant for one (the
/// variants with values never reach here).
#[verifier::external_body]
fn bracket_token_of(t: &CssToken) -> Token {
    match t {
        CssToken::OpenBracket => Token::OpenBracket,
        CssToken::CloseBracket => Token::CloseBracket,
        CssToken::OpenParen => Token::OpenParen,
        CssToken::CloseParen => Token::CloseParen,
        CssToken::OpenBrace => Token::OpenBrace,
        CssToken::CloseBrace => Token::CloseBrace,
        CssToken::Cdo => Token::Cdo,
        CssToken::Cdc => Token::Cdc,
        _ => Token::Eof,
    }
}

/// A component value, one variant for one.
#[verifier::external_body]
fn component_value_of(c: &CssComponentValue) -> ComponentValue {
    match c {
        CssComponentValue::PreservedToken(t) => ComponentValue::PreservedToken(token_of(t)),
        CssComponentValue::Function(f) => ComponentValue::Function(Function { name: f.name.clone(), value: component_values_of(&f.value) }),
        CssComponentValue::SimpleBlock(b) => ComponentValue::SimpleBlock(SimpleBlock {
            kind: match b.kind {
                CssBlockKind::Curly => BlockKind::Curly,
                CssBlockKind::Square => BlockKind::Square,
                CssBlockKind::Paren => BlockKind::Paren,
            },
            value: component_values_of(&b.value),
        }),
    }
}

/// A list of component values, element for element.
#[verifier::external_body]
fn component_values_of(v: &Vec<CssComponentValue>) -> Vec<ComponentValue> {
    v.iter().map(component_value_of).collect()
}

/// A declaration: name, value and `!important` flag.
#[verifier::external_body]
fn declaration_of(d: &CssDeclaration) -> SheetDeclaration {
    SheetDeclaration { name: d.name.clone(), value: component_values_of(&d.value), important: d.important }
}

/// An item of a block's contents: a run of declarations, or `None` for a
/// nested rule.
#[verifier::external_body]
fn run_of(r: &CssRule) -> Option<Vec<SheetDeclaration>> {
    match r {
        CssRule::Declarations(ds) => Some(ds.iter().map(declaration_of).collect()),
        CssRule::AtRule(_) => None,
        CssRule::QualifiedRule(_) => None,
    }
}

// ── parsing the attribute ────────────────────────────────────────────────

/// What `parse_a_blocks_contents` makes of a text, item by item: a run of
/// declarations, or `None` for a nested rule (the parser is a function of
/// the text).
pub uninterp spec fn style_text_runs(text: Seq<char>) -> Seq<Option<Seq<DeclView>>>;

/// Views of the items of a block's contents.
pub open spec fn runs_view(rs: Seq<Option<Vec<SheetDeclaration>>>) -> Seq<Option<Seq<DeclView>>> {
    Seq::new(rs.len(), |i: int| match rs[i] {
        Some(ds) => Some(decl_views(ds@)),
        None => None,
    })
}

/// Parses a text as a block's contents with
/// `muskitty_css::parser::parse_a_blocks_contents`. Trusted: the items are,
/// one for one, those that parser returns, as the name
/// [`style_text_runs`] gives them for the text.
#[verifier::external_body]
fn parse_block_runs(text: &str) -> (r: Vec<Option<Vec<SheetDeclaration>>>)
    ensures
        runs_view(r@) == style_text_runs(text@),
{
    muskitty_css::parser::parse_a_blocks_contents(text).rules.iter().map(run_of).collect()
}

/// The declarations of all runs, in order.
pub open spec fn flatten_runs(rs: Seq<Option<Seq<DeclView>>>) -> Seq<DeclView>
    decreases rs.len(),
{
    if rs.len() == 0 {
        seq![]
    } else {
        flatten_runs(rs.drop_last()) + match rs.last() {
            Some(ds) => ds,
            None => seq![],
        }
    }
}

/// The declarations of a `style` attribute with the given text.
pub open spec fn style_text_declarations(text: Seq<char>) -> Seq<DeclView> {
    flatten_runs(style_text_runs(text))
}

/// Parses the text of a `style` attribute into its declarations, in
/// order; nested rules contribute nothing.
pub fn parse_style_attribute(text: &str) -> (r: Vec<SheetDeclaration>)
    ensures
        decl_views(r@) == style_text_declarations(text@),
{
    let runs = parse_block_runs(text);
    let ghost rv = runs_view(runs@);
    let mut out: Vec<SheetDeclaration> = Vec::new();
    let mut i: usize = 0;
    proof {
        assert(rv.take(0) =~= Seq::<Option<Seq<DeclView>>>::empty());
        assert(decl_views(out@) =~= Seq::<DeclView>::empty());
    }
    while i < runs.len()
        invariant
            i <= runs@.len(),
            rv == runs_view(runs@),
            decl_views(out@) == flatten_runs(rv.take(i as int)),
        decreases runs.len() - i,
    {
        proof {
            assert(rv.take(i + 1).drop_last() =~= rv.take(i as int));
            assert(rv.take(i + 1).last() == rv[i as int]);
        }
        match &runs[i] {
            Some(ds) => {
                let mut more = clone_declarations(ds);
                let ghost o0 = out@;
                let ghost m0 = more@;
                out.append(&mut more);
                proof {
                    assert(decl_views(out@) =~= decl_views(o0) + decl_views(m0));
                }
            },
            None => {
                proof {
                    assert(flatten_runs(rv.take(i + 1)) =~= flatten_runs(rv.take(i as int)));
                }
            },
        }
        i += 1;
    }
    proof {
        assert(rv.take(runs@.len() as int) =~= rv);
    }
    out
}

} // verus!
