//! The component-value model the cascade works on: CSS tokens,
//! functions and simple blocks. Numbers are carried as the bit pattern of
//! the tokenizer's IEEE-754 binary64 value, so the library moves them around
//! exactly without doing arithmetic on them.
use vstd::prelude::*;

verus! {

/// A numeric token value: the IEEE-754 binary64 bit pattern of the number
/// and whether it was written as an integer.
#[derive(Debug, Clone, Copy, PartialEq, Eq, Structural)]
pub struct Numeric {
    /// Bit pattern of the binary64 value.
    pub bits: u64,
    /// The source had neither a fraction nor an exponent.
    pub is_integer: bool,
}

/// Type flag of a hash token.
#[derive(Debug, Clone, Copy, PartialEq, Eq, Structural)]
pub enum HashType {
    /// `#` followed by an identifier.
    Id,
    /// Any other hash.
    Unrestricted,
}

/// A CSS token.
#[derive(Debug, Clone)]
pub enum Token {
    /// `<ident-token>`.
    Ident(String),
    /// `<function-token>`.
    Function(String),
    /// `<at-keyword-token>`.
    AtKeyword(String),
    /// `<hash-token>`.
    Hash(String, HashType),
    /// `<string-token>`.
    QuotedString(String),
    /// `<bad-string-token>`.
    BadString,
    /// `<url-token>`.
    Url(String),
    /// `<bad-url-token>`.
    BadUrl,
    /// `<delim-token>`.
    Delim(char),
    /// `<number-token>`.
    Number(Numeric),
    /// `<percentage-token>`.
    Percentage(Numeric),
    /// `<dimension-token>`: number and unit.
    Dimension(Numeric, String),
    /// `<unicode-range-token>`.
    UnicodeRange(Option<u32>, Option<u32>),
    /// `<whitespace-token>`.
    Whitespace,
    /// A comment.
    Comment(String),
    /// `:`.
    Colon,
    /// `;`.
    Semicolon,
    /// `,`.
    Comma,
    /// `[`.
    OpenBracket,
    /// `]`.
    CloseBracket,
    /// `(`.
    OpenParen,
    /// `)`.
    CloseParen,
    /// `{`.
    OpenBrace,
    /// `}`.
    CloseBrace,
    /// `<!--`.
    Cdo,
    /// `-->`.
    Cdc,
    /// End of input.
    Eof,
}

/// Kind of a simple block.
#[derive(Debug, Clone, Copy, PartialEq, Eq, Structural)]
pub enum BlockKind {
    /// `{}`.
    Curly,
    /// `[]`.
    Square,
    /// `()`.
    Paren,
}

/// A component value: a preserved token, a function or a simple block.
#[derive(Debug)]
pub enum ComponentValue {
    /// A preserved token.
    PreservedToken(Token),
    /// A function with its arguments.
    Function(Function),
    /// A simple block with its contents.
    SimpleBlock(SimpleBlock),
}

/// A function: name and argument component values.
#[derive(Debug)]
pub struct Function {
    /// Function name (without the parenthesis).
    pub name: String,
    /// Arguments.
    pub value: Vec<ComponentValue>,
}

/// A simple block: kind and contents.
#[derive(Debug)]
pub struct SimpleBlock {
    /// Which bracket opened it.
    pub kind: BlockKind,
    /// Contents.
    pub value: Vec<ComponentValue>,
}


/// Mathematical view of a token: strings become character sequences.
pub enum TokenView {
    Ident(Seq<char>),
    Function(Seq<char>),
    AtKeyword(Seq<char>),
    Hash(Seq<char>, HashType),
    QuotedString(Seq<char>),
    BadString,
    Url(Seq<char>),
    BadUrl,
    Delim(char),
    Number(Numeric),
    Percentage(Numeric),
    Dimension(Numeric, Seq<char>),
    UnicodeRange(Option<u32>, Option<u32>),
    Whitespace,
    Comment(Seq<char>),
    Colon,
    Semicolon,
    Comma,
    OpenBracket,
    CloseBracket,
    OpenParen,
    CloseParen,
    OpenBrace,
    CloseBrace,
    Cdo,
    Cdc,
    Eof,
}

impl View for Token {
    type V = TokenView;

    open spec fn view(&self) -> TokenView {
        match self {
            Token::Ident(s) => TokenView::Ident(s@),
            Token::Function(s) => TokenView::Function(s@),
            Token::AtKeyword(s) => TokenView::AtKeyword(s@),
            Token::Hash(s, h) => TokenView::Hash(s@, *h),
            Token::QuotedString(s) => TokenView::QuotedString(s@),
            Token::BadString => TokenView::BadString,
            Token::Url(s) => TokenView::Url(s@),
            Token::BadUrl => TokenView::BadUrl,
            Token::Delim(c) => TokenView::Delim(*c),
            Token::Number(n) => TokenView::Number(*n),
            Token::Percentage(n) => TokenView::Percentage(*n),
            Token::Dimension(n, u) => TokenView::Dimension(*n, u@),
            Token::UnicodeRange(a, b) => TokenView::UnicodeRange(*a, *b),
            Token::Whitespace => TokenView::Whitespace,
            Token::Comment(s) => TokenView::Comment(s@),
            Token::Colon => TokenView::Colon,
            Token::Semicolon => TokenView::Semicolon,
            Token::Comma => TokenView::Comma,
            Token::OpenBracket => TokenView::OpenBracket,
            Token::CloseBracket => TokenView::CloseBracket,
            Token::OpenParen => TokenView::OpenParen,
            Token::CloseParen => TokenView::CloseParen,
            Token::OpenBrace => TokenView::OpenBrace,
            Token::CloseBrace => TokenView::CloseBrace,
            Token::Cdo => TokenView::Cdo,
            Token::Cdc => TokenView::Cdc,
            Token::Eof => TokenView::Eof,
        }
    }
}

/// Mathematical view of a component value.
pub enum CvView {
    /// A preserved token.
    Tok(TokenView),
    /// A function: name and arguments.
    Func(Seq<char>, Seq<CvView>),
    /// A simple block: kind and contents.
    Block(BlockKind, Seq<CvView>),
}

/// View of one component value.
pub open spec fn cv_view(c: ComponentValue) -> CvView
    decreases c,
{
    match c {
        ComponentValue::PreservedToken(t) => CvView::Tok(t@),
        ComponentValue::Function(f) => CvView::Func(f.name@, cvs_view(f.value@)),
        ComponentValue::SimpleBlock(b) => CvView::Block(b.kind, cvs_view(b.value@)),
    }
}

/// View of a sequence of component values.
pub open spec fn cvs_view(s: Seq<ComponentValue>) -> Seq<CvView>
    decreases s,
{
    if s.len() == 0 {
        seq![]
    } else {
        cvs_view(s.drop_last()).push(cv_view(s[s.len() - 1]))
    }
}

/// Viewing one element of a sequence.
pub proof fn lemma_cvs_view_index(s: Seq<ComponentValue>, i: int)
    requires
        0 <= i < s.len(),
    ensures
        cvs_view(s).len() == s.len(),
        cvs_view(s)[i] == s[i]@,
    decreases s.len(),
{
    if i < s.len() - 1 {
        lemma_cvs_view_index(s.drop_last(), i);
    } else {
        lemma_cvs_view_len(s.drop_last());
    }
}

/// A sequence and its view have the same length.
pub proof fn lemma_cvs_view_len(s: Seq<ComponentValue>)
    ensures
        cvs_view(s).len() == s.len(),
    decreases s.len(),
{
    if s.len() > 0 {
        lemma_cvs_view_len(s.drop_last());
    }
}

impl View for ComponentValue {
    type V = CvView;

    open spec fn view(&self) -> CvView {
        cv_view(*self)
    }
}

/// Viewing a sequence element by element.
pub proof fn lemma_cvs_view_push(s: Seq<ComponentValue>, c: ComponentValue)
    ensures
        cvs_view(s.push(c)) == cvs_view(s).push(c@),
{
    assert(s.push(c).drop_last() =~= s);
}

/// Copies a token.
pub fn clone_token(t: &Token) -> (r: Token)
    ensures
        r@ == t@,
{
    match t {
        Token::Ident(s) => Token::Ident(s.clone()),
        Token::Function(s) => Token::Function(s.clone()),
        Token::AtKeyword(s) => Token::AtKeyword(s.clone()),
        Token::Hash(s, h) => Token::Hash(s.clone(), *h),
        Token::QuotedString(s) => Token::QuotedString(s.clone()),
        Token::BadString => Token::BadString,
        Token::Url(s) => Token::Url(s.clone()),
        Token::BadUrl => Token::BadUrl,
        Token::Delim(c) => Token::Delim(*c),
        Token::Number(n) => Token::Number(*n),
        Token::Percentage(n) => Token::Percentage(*n),
        Token::Dimension(n, u) => Token::Dimension(*n, u.clone()),
        Token::UnicodeRange(a, b) => Token::UnicodeRange(*a, *b),
        Token::Whitespace => Token::Whitespace,
        Token::Comment(s) => Token::Comment(s.clone()),
        Token::Colon => Token::Colon,
        Token::Semicolon => Token::Semicolon,
        Token::Comma => Token::Comma,
        Token::OpenBracket => Token::OpenBracket,
        Token::CloseBracket => Token::CloseBracket,
        Token::OpenParen => Token::OpenParen,
        Token::CloseParen => Token::CloseParen,
        Token::OpenBrace => Token::OpenBrace,
        Token::CloseBrace => Token::CloseBrace,
        Token::Cdo => Token::Cdo,
        Token::Cdc => Token::Cdc,
        Token::Eof => Token::Eof,
    }
}

/// Copies a component value.
pub fn clone_cv(cv: &ComponentValue) -> (r: ComponentValue)
    ensures
        r@ == cv@,
    decreases cv,
{
    match cv {
        ComponentValue::PreservedToken(t) => ComponentValue::PreservedToken(clone_token(t)),
        ComponentValue::Function(f) => ComponentValue::Function(
            Function { name: f.name.clone(), value: clone_cvs_rec(&f.value) },
        ),
        ComponentValue::SimpleBlock(b) => ComponentValue::SimpleBlock(
            SimpleBlock { kind: b.kind, value: clone_cvs_rec(&b.value) },
        ),
    }
}

fn clone_cvs_rec(v: &Vec<ComponentValue>) -> (r: Vec<ComponentValue>)
    ensures
        cvs_view(r@) == cvs_view(v@),
    decreases v,
{
    let mut r: Vec<ComponentValue> = Vec::new();
    let mut i: usize = 0;
    while i < v.len()
        invariant
            i <= v.len(),
            cvs_view(r@) == cvs_view(v@.take(i as int)),
        decreases v.len() - i,
    {
        assert(decreases_to!(v => v@[i as int]));
        let c = clone_cv(&v[i]);
        let ghost r0 = r@;
        r.push(c);
        proof {
            lemma_cvs_view_push(r0, c);
            lemma_cvs_view_push(v@.take(i as int), v@[i as int]);
            assert(v@.take(i as int).push(v@[i as int]) =~= v@.take(i + 1));
        }
        i += 1;
    }
    assert(v@ =~= v@.take(v.len() as int));
    r
}

/// Copies a slice of component values.
pub fn clone_cvs(v: &[ComponentValue]) -> (r: Vec<ComponentValue>)
    ensures
        cvs_view(r@) == cvs_view(v@),
{
    let mut r: Vec<ComponentValue> = Vec::new();
    let mut i: usize = 0;
    while i < v.len()
        invariant
            i <= v.len(),
            cvs_view(r@) == cvs_view(v@.take(i as int)),
        decreases v.len() - i,
    {
        let c = clone_cv(&v[i]);
        let ghost r0 = r@;
        r.push(c);
        proof {
            lemma_cvs_view_push(r0, c);
            lemma_cvs_view_push(v@.take(i as int), v@[i as int]);
            assert(v@.take(i as int).push(v@[i as int]) =~= v@.take(i + 1));
        }
        i += 1;
    }
    assert(v@ =~= v@.take(v.len() as int));
    r
}

impl Clone for ComponentValue {
    fn clone(&self) -> (r: Self)
        ensures
            r@ == self@,
    {
        clone_cv(self)
    }
}

/// The component value is a whitespace token.
pub open spec fn is_ws(cv: ComponentValue) -> bool {
    cv matches ComponentValue::PreservedToken(Token::Whitespace)
}

/// Whether a component value is whitespace.
pub fn cv_is_ws(cv: &ComponentValue) -> (r: bool)
    ensures
        r == is_ws(*cv),
{
    match cv {
        ComponentValue::PreservedToken(Token::Whitespace) => true,
        _ => false,
    }
}

/// A one-ident component value list.
pub fn ident_cv(s: String) -> (r: ComponentValue)
    ensures
        r == ComponentValue::PreservedToken(Token::Ident(s)),
{
    ComponentValue::PreservedToken(Token::Ident(s))
}

// ── sizes for termination ────────────────────────────────────────────────

/// Size of a component value (functions and blocks count their contents).
pub open spec fn cv_size(c: CvView) -> nat
    decreases c,
{
    match c {
        CvView::Func(_, args) => 1 + seq_size(args),
        CvView::Block(_, body) => 1 + seq_size(body),
        _ => 1,
    }
}

/// Size of a sequence of component values (at least 1).
pub open spec fn seq_size(s: Seq<CvView>) -> nat
    decreases s,
{
    if s.len() == 0 {
        1
    } else {
        seq_size(s.drop_last()) + cv_size(s[s.len() - 1])
    }
}

pub proof fn lemma_sizes_pos(s: Seq<CvView>)
    ensures
        seq_size(s) >= 1,
        s.len() > 0 ==> seq_size(s) >= 2,
    decreases s.len(),
{
    if s.len() > 0 {
        lemma_sizes_pos(s.drop_last());
        assert(cv_size(s[s.len() - 1]) >= 1);
    }
}

pub proof fn lemma_size_elem(s: Seq<CvView>, i: int)
    requires
        0 <= i < s.len(),
    ensures
        cv_size(s[i]) < seq_size(s),
    decreases s.len(),
{
    lemma_sizes_pos(s.drop_last());
    if i < s.len() - 1 {
        lemma_size_elem(s.drop_last(), i);
    }
}

pub proof fn lemma_size_split(s: Seq<CvView>, a: int)
    requires
        0 <= a <= s.len(),
    ensures
        seq_size(s.subrange(a, s.len() as int)) + seq_size(s.take(a)) == seq_size(s) + 1,
    decreases s.len(),
{
    if a == s.len() {
        assert(s.subrange(a, s.len() as int) =~= Seq::<CvView>::empty());
        assert(s.take(a) =~= s);
    } else {
        let p = s.drop_last();
        lemma_size_split(p, a);
        assert(s.subrange(a, s.len() as int).drop_last() =~= p.subrange(a, p.len() as int));
        assert(p.take(a) =~= s.take(a));
    }
}

pub proof fn lemma_suffix_smaller(s: Seq<CvView>, a: int)
    requires
        1 <= a <= s.len(),
    ensures
        seq_size(s.subrange(a, s.len() as int)) < seq_size(s),
{
    lemma_size_split(s, a);
    lemma_sizes_pos(s.take(a));
}

/// Viewing a subrange.
pub proof fn lemma_cvs_view_subrange(s: Seq<ComponentValue>, a: int, b: int)
    requires
        0 <= a <= b <= s.len(),
    ensures
        cvs_view(s.subrange(a, b)) == cvs_view(s).subrange(a, b),
{
    lemma_cvs_view_len(s);
    lemma_cvs_view_len(s.subrange(a, b));
    assert forall|k: int| 0 <= k < b - a implies cvs_view(s.subrange(a, b))[k] == cvs_view(s).subrange(a, b)[k] by {
        lemma_cvs_view_index(s.subrange(a, b), k);
        lemma_cvs_view_index(s, a + k);
    }
    assert(cvs_view(s.subrange(a, b)) =~= cvs_view(s).subrange(a, b));
}


} // verus!
