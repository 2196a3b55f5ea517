//! Character-level helpers shared by the property registry, the keyword
//! matchers and the text processing routines.
use vstd::prelude::*;

verus! {

/// ASCII lowercase mapping of one character (non-ASCII letters unchanged).
pub open spec fn ascii_lower_char(c: char) -> char {
    if 'A' <= c && c <= 'Z' {
        ((c as u32) + 32) as char
    } else {
        c
    }
}

/// ASCII lowercase mapping of a character sequence.
pub open spec fn ascii_lower(s: Seq<char>) -> Seq<char> {
    s.map_values(|c: char| ascii_lower_char(c))
}

/// Two character sequences are equal up to ASCII case.
pub open spec fn eq_ascii_ci(a: Seq<char>, b: Seq<char>) -> bool {
    ascii_lower(a) == ascii_lower(b)
}

/// The sequence starts with two hyphens (custom property / custom ident).
pub open spec fn has_dashdash_prefix(s: Seq<char>) -> bool {
    s.len() >= 2 && s[0] == '-' && s[1] == '-'
}

/// Lowercases one ASCII character.
pub fn lower_char(c: char) -> (r: char)
    ensures
        r == ascii_lower_char(c),
{
    if 'A' <= c && c <= 'Z' {
        let b: u8 = (c as u32 + 32) as u8;
        assert(b as u32 == (c as u32) + 32);
        b as char
    } else {
        c
    }
}

/// Collects the characters of a string slice into a vector.
pub fn chars_of(s: &str) -> (r: Vec<char>)
    ensures
        r@ == s@,
{
    broadcast use vstd::string::group_string_axioms;

    let mut r: Vec<char> = Vec::new();
    for c in it: s.chars()
        invariant
            it.seq() == s@,
            r@ == s@.take(it.index() as int),
    {
        r.push(c);
    }
    assert(r@ =~= s@);
    r
}

/// ASCII-lowercased characters of a string slice.
pub fn lower_chars_of(s: &str) -> (r: Vec<char>)
    ensures
        r@ == ascii_lower(s@),
{
    let cs = chars_of(s);
    let mut r: Vec<char> = Vec::new();
    let mut i: usize = 0;
    while i < cs.len()
        invariant
            i <= cs.len(),
            cs@ == s@,
            r@ == ascii_lower(s@).take(i as int),
        decreases cs.len() - i,
    {
        let l = lower_char(cs[i]);
        r.push(l);
        i += 1;
        assert(r@ =~= ascii_lower(s@).take(i as int));
    }
    assert(r@ =~= ascii_lower(s@));
    r
}

/// Compares two character slices for equality.
pub fn chars_eq(a: &[char], b: &[char]) -> (r: bool)
    ensures
        r == (a@ == b@),
{
    if a.len() != b.len() {
        return false;
    }
    let mut i: usize = 0;
    while i < a.len()
        invariant
            a.len() == b.len(),
            i <= a.len(),
            a@.take(i as int) == b@.take(i as int),
        decreases a.len() - i,
    {
        if a[i] != b[i] {
            assert(a@[i as int] != b@[i as int]);
            return false;
        }
        i += 1;
        assert(a@.take(i as int) =~= b@.take(i as int));
    }
    assert(a@ =~= a@.take(a.len() as int));
    assert(b@ =~= b@.take(b.len() as int));
    true
}

/// Compares a string slice with a character slice.
pub fn str_eq_chars(s: &str, v: &[char]) -> (r: bool)
    ensures
        r == (s@ == v@),
{
    let cs = chars_of(s);
    chars_eq(cs.as_slice(), v)
}

/// Compares two string slices for equality.
pub fn str_eq(a: &str, b: &str) -> (r: bool)
    ensures
        r == (a@ == b@),
{
    let bs = chars_of(b);
    str_eq_chars(a, bs.as_slice())
}

/// ASCII case-insensitive equality of two string slices.
pub fn eq_ignore_ascii_case(a: &str, b: &str) -> (r: bool)
    ensures
        r == eq_ascii_ci(a@, b@),
{
    let la = lower_chars_of(a);
    let lb = lower_chars_of(b);
    chars_eq(la.as_slice(), lb.as_slice())
}

/// Whether a string slice starts with `--`.
pub fn starts_with_dashdash(s: &str) -> (r: bool)
    ensures
        r == has_dashdash_prefix(s@),
{
    let cs = chars_of(s);
    cs.len() >= 2 && cs[0] == '-' && cs[1] == '-'
}

/// Appends one character to a string.
#[verifier::external_body]
pub(crate) fn push_char(s: &mut String, c: char)
    ensures
        final(s)@ == old(s)@.push(c),
{
    s.push(c);
}

/// Builds a string from a character slice.
pub fn string_from_chars(v: &[char]) -> (r: String)
    ensures
        r@ == v@,
{
    let mut r = String::new();
    let mut i: usize = 0;
    while i < v.len()
        invariant
            i <= v.len(),
            r@ == v@.take(i as int),
        decreases v.len() - i,
    {
        push_char(&mut r, v[i]);
        i += 1;
        assert(r@ =~= v@.take(i as int));
    }
    assert(v@ =~= v@.take(v.len() as int));
    r
}

/// ASCII-lowercased copy of a string slice.
pub fn to_ascii_lowercase(s: &str) -> (r: String)
    ensures
        r@ == ascii_lower(s@),
{
    let l = lower_chars_of(s);
    string_from_chars(l.as_slice())
}

/// Copies a string slice into an owned string.
pub fn owned(s: &str) -> (r: String)
    ensures
        r@ == s@,
{
    s.to_owned()
}

} // verus!
