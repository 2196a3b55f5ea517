//! Used-value semantics of the text properties: `white-space` collapsing and
//! `text-transform` case mapping.
use std::borrow::Cow;
use vstd::prelude::*;
use crate::strutil::{chars_of, chars_eq, eq_ascii_ci, eq_ignore_ascii_case, push_char, string_from_chars};
use crate::style::{first_ident, ComputedStyle};
use crate::token::CvView;

verus! {

// ── Unicode facts of std that the text transforms rely on ──────────────

/// Whether a character has the Unicode White_Space property, which is
/// what `char::is_whitespace` answers: U+0009–U+000D, U+0020, U+0085,
/// U+00A0, U+1680, U+2000–U+200A, U+2028, U+2029, U+202F, U+205F and
/// U+3000.
pub open spec fn unicode_is_whitespace(c: char) -> bool {
    let u = c as u32;
    ||| 0x9 <= u <= 0xD
    ||| u == 0x20
    ||| u == 0x85
    ||| u == 0xA0
    ||| u == 0x1680
    ||| 0x2000 <= u <= 0x200A
    ||| u == 0x2028
    ||| u == 0x2029
    ||| u == 0x202F
    ||| u == 0x205F
    ||| u == 0x3000
}

/// What `str::to_uppercase` yields for a string.
pub uninterp spec fn unicode_upper_str(s: Seq<char>) -> Seq<char>;

/// What `str::to_lowercase` yields for a string.
pub uninterp spec fn unicode_lower_str(s: Seq<char>) -> Seq<char>;

/// Whether `c` has the Unicode White_Space property (see
/// [`unicode_is_whitespace`]).
fn is_unicode_whitespace(c: char) -> (r: bool)
    ensures
        r == unicode_is_whitespace(c),
{
    let u = c as u32;
    (0x9 <= u && u <= 0xD) || u == 0x20 || u == 0x85 || u == 0xA0 || u == 0x1680 || (0x2000 <= u && u <= 0x200A)
        || u == 0x2028 || u == 0x2029 || u == 0x202F || u == 0x205F || u == 0x3000
}

/// `str::to_uppercase`: the language-independent full uppercase mapping.
#[verifier::external_body]
fn str_to_uppercase(s: &str) -> (r: String)
    ensures
        r@ == unicode_upper_str(s@),
{
    s.to_uppercase()
}

/// `str::to_lowercase`: the language-independent full lowercase mapping.
#[verifier::external_body]
fn str_to_lowercase(s: &str) -> (r: String)
    ensures
        r@ == unicode_lower_str(s@),
{
    s.to_lowercase()
}

// ── text-transform ──────────────────────────────────────────────────────

/// The part of the capitalized text contributed by character `i`.
pub open spec fn capitalize_piece(t: Seq<char>, i: int) -> Seq<char> {
    if unicode_is_whitespace(t[i]) {
        seq![t[i]]
    } else if i == 0 || unicode_is_whitespace(t[i - 1]) {
        unicode_upper_str(seq![t[i]])
    } else {
        seq![t[i]]
    }
}

/// Capitalization of the first `n` characters: every character that starts a
/// whitespace-separated word is uppercased, all others are kept.
pub open spec fn capitalize_upto(t: Seq<char>, n: int) -> Seq<char>
    decreases n,
{
    if n <= 0 {
        seq![]
    } else {
        capitalize_upto(t, n - 1) + capitalize_piece(t, n - 1)
    }
}

/// `text-transform: capitalize` of a whole text.
pub open spec fn capitalize(t: Seq<char>) -> Seq<char> {
    capitalize_upto(t, t.len() as int)
}

/// The text-transform keyword names `target` (ASCII case-insensitively).
pub open spec fn keyword_is(k: Option<&str>, target: Seq<char>) -> bool {
    match k {
        Some(s) => eq_ascii_ci(s@, target),
        None => false,
    }
}

/// Rewrites `text` according to a `text-transform` keyword.
///
/// `uppercase` / `lowercase` apply std's full Unicode case mappings;
/// `capitalize` uppercases the first character of every whitespace-separated
/// word and borrows the input when nothing changes; `none`, a missing or an
/// unknown keyword borrow the input unchanged.
pub fn apply_text_transform<'a>(text: &'a str, keyword: Option<&str>) -> (r: Cow<'a, str>)
    ensures
        keyword_is(keyword, "uppercase"@) ==> r@ == unicode_upper_str(text@) && r is Owned,
        !keyword_is(keyword, "uppercase"@) && keyword_is(keyword, "lowercase"@) ==> r@
            == unicode_lower_str(text@) && r is Owned,
        !keyword_is(keyword, "uppercase"@) && !keyword_is(keyword, "lowercase"@) && keyword_is(
            keyword,
            "capitalize"@,
        ) ==> r@ == capitalize(text@) && ((r is Borrowed) == (capitalize(text@) == text@)),
        !keyword_is(keyword, "uppercase"@) && !keyword_is(keyword, "lowercase"@) && !keyword_is(
            keyword,
            "capitalize"@,
        ) ==> r@ == text@ && r is Borrowed,
{
    let kw_up = match keyword {
        Some(k) => eq_ignore_ascii_case(k, "uppercase"),
        None => false,
    };
    if kw_up {
        return Cow::Owned(str_to_uppercase(text));
    }
    let kw_low = match keyword {
        Some(k) => eq_ignore_ascii_case(k, "lowercase"),
        None => false,
    };
    if kw_low {
        return Cow::Owned(str_to_lowercase(text));
    }
    let kw_cap = match keyword {
        Some(k) => eq_ignore_ascii_case(k, "capitalize"),
        None => false,
    };
    if !kw_cap {
        return Cow::Borrowed(text);
    }
    let cs = chars_of(text);
    let mut out = String::new();
    let mut at_word_start = true;
    let mut i: usize = 0;
    while i < cs.len()
        invariant
            i <= cs.len(),
            cs@ == text@,
            out@ == capitalize_upto(text@, i as int),
            at_word_start == (i == 0 || unicode_is_whitespace(text@[i - 1])),
        decreases cs.len() - i,
    {
        let ch = cs[i];
        if is_unicode_whitespace(ch) {
            at_word_start = true;
            push_char(&mut out, ch);
        } else if at_word_start {
            at_word_start = false;
            let mut one = String::new();
            push_char(&mut one, ch);
            let up = chars_of(str_to_uppercase(one.as_str()).as_str());
            let ghost o0 = out@;
            let mut k: usize = 0;
            while k < up.len()
                invariant
                    k <= up@.len(),
                    out@ == o0 + up@.take(k as int),
                decreases up.len() - k,
            {
                push_char(&mut out, up[k]);
                proof {
                    assert(up@.take(k + 1) =~= up@.take(k as int).push(up@[k as int]));
                }
                k += 1;
            }
            proof {
                assert(one@ =~= seq![ch]);
                assert(up@.take(up@.len() as int) =~= up@);
            }
        } else {
            push_char(&mut out, ch);
        }
        proof {
            assert(capitalize_upto(text@, i + 1) == capitalize_upto(text@, i as int)
                + capitalize_piece(text@, i as int));
        }
        i += 1;
    }
    let out_chars = chars_of(out.as_str());
    if chars_eq(out_chars.as_slice(), cs.as_slice()) {
        Cow::Borrowed(text)
    } else {
        Cow::Owned(out)
    }
}


// ── white-space ─────────────────────────────────────────────────────────

/// Semantic model of a `white-space` keyword: three independent behaviours
/// shared by text measurement and painting.
#[derive(Debug, Clone, Copy, PartialEq, Eq, Structural)]
pub struct WhiteSpace {
    /// Whitespace collapsing is in effect.
    pub collapse: bool,
    /// Source newlines (segment breaks) are kept as forced line breaks.
    pub preserve_newlines: bool,
    /// Soft wrapping is allowed.
    pub wrap: bool,
}

/// The model of `normal` (also used for a missing or unknown keyword).
pub open spec fn ws_normal() -> WhiteSpace {
    WhiteSpace { collapse: true, preserve_newlines: false, wrap: true }
}

/// The `white-space` table: keyword → (collapse, preserve newlines, wrap).
pub open spec fn spec_white_space(k: Option<&str>) -> WhiteSpace {
    if keyword_is(k, "pre"@) {
        WhiteSpace { collapse: false, preserve_newlines: true, wrap: false }
    } else if keyword_is(k, "nowrap"@) {
        WhiteSpace { collapse: true, preserve_newlines: false, wrap: false }
    } else if keyword_is(k, "pre-wrap"@) {
        WhiteSpace { collapse: false, preserve_newlines: true, wrap: true }
    } else if keyword_is(k, "break-spaces"@) {
        WhiteSpace { collapse: false, preserve_newlines: true, wrap: true }
    } else if keyword_is(k, "pre-line"@) {
        WhiteSpace { collapse: true, preserve_newlines: true, wrap: true }
    } else {
        ws_normal()
    }
}

fn keyword_eq(k: Option<&str>, target: &str) -> (r: bool)
    ensures
        r == keyword_is(k, target@),
{
    match k {
        Some(s) => eq_ignore_ascii_case(s, target),
        None => false,
    }
}

impl WhiteSpace {
    /// Maps a `white-space` keyword to its model; a missing or unknown
    /// keyword behaves as `normal`.
    pub fn from_keyword(keyword: Option<&str>) -> (r: Self)
        ensures
            r == spec_white_space(keyword),
    {
        if keyword_eq(keyword, "pre") {
            WhiteSpace { collapse: false, preserve_newlines: true, wrap: false }
        } else if keyword_eq(keyword, "nowrap") {
            WhiteSpace { collapse: true, preserve_newlines: false, wrap: false }
        } else if keyword_eq(keyword, "pre-wrap") {
            WhiteSpace { collapse: false, preserve_newlines: true, wrap: true }
        } else if keyword_eq(keyword, "break-spaces") {
            WhiteSpace { collapse: false, preserve_newlines: true, wrap: true }
        } else if keyword_eq(keyword, "pre-line") {
            WhiteSpace { collapse: true, preserve_newlines: true, wrap: true }
        } else {
            WhiteSpace { collapse: true, preserve_newlines: false, wrap: true }
        }
    }

    /// Whether every whitespace character is kept (`pre`, `pre-wrap`,
    /// `break-spaces`).
    pub fn preserve_spaces(self) -> (r: bool)
        ensures
            r == !self.collapse,
    {
        !self.collapse
    }
}

/// CJK characters around which a collapsed segment break is removed rather
/// than turned into a space (Hangul excluded).
pub open spec fn spec_is_cjk_break_dropping(c: char) -> bool {
    let u = c as u32;
    if (0x1100 <= u <= 0x11FF) || (0xAC00 <= u <= 0xD7A3) {
        false
    } else {
        (0x2E80 <= u <= 0x312F) || (0x3190 <= u <= 0x322F) || (0x3248 <= u <= 0x4DBF) || (0x4E00
            <= u <= 0x9FFF) || (0xA000 <= u <= 0xA4CF) || (0xF900 <= u <= 0xFAFF) || (0xFF00 <= u
            <= 0xFF60)
    }
}

/// Whether a segment break next to `c` is dropped (CJK) when collapsing.
pub fn is_cjk_break_dropping(c: char) -> (r: bool)
    ensures
        r == spec_is_cjk_break_dropping(c),
{
    let u = c as u32;
    if (0x1100 <= u && u <= 0x11FF) || (0xAC00 <= u && u <= 0xD7A3) {
        return false;
    }
    (0x2E80 <= u && u <= 0x312F) || (0x3190 <= u && u <= 0x322F) || (0x3248 <= u && u <= 0x4DBF)
        || (0x4E00 <= u && u <= 0x9FFF) || (0xA000 <= u && u <= 0xA4CF) || (0xF900 <= u && u
        <= 0xFAFF) || (0xFF00 <= u && u <= 0xFF60)
}

/// A character that disables the untouched fast path.
pub open spec fn is_fast_path_breaker(c: char) -> bool {
    c == ' ' || c == '\t' || c == '\n' || c == '\r'
}

/// State of the single left-to-right collapsing pass.
pub struct CollapseState {
    /// A whitespace run is pending.
    pub pending_space: bool,
    /// The pending run holds a segment break (collapsed newline).
    pub pending_break: bool,
    /// The last output was a forced newline (`pre-line`).
    pub after_break: bool,
    /// Something has been output already.
    pub emitted_any: bool,
    /// The last non-whitespace character output since the last forced break.
    pub prev: Option<char>,
}

/// The state before the first character.
pub open spec fn collapse_start() -> CollapseState {
    CollapseState { pending_space: false, pending_break: false, after_break: false, emitted_any: false, prev: None }
}

/// What a pending whitespace run turns into just before character `ch`:
/// nothing when no run is pending, right after a forced break, or before
/// anything has been output (leading white space, segment breaks included,
/// is removed); nothing for a segment break between two CJK characters;
/// otherwise one space.
pub open spec fn pending_separator(st: CollapseState, ch: char) -> Seq<char> {
    if !st.pending_space || st.after_break || !st.emitted_any {
        seq![]
    } else if st.pending_break {
        if (st.prev matches Some(p) && spec_is_cjk_break_dropping(p)) && spec_is_cjk_break_dropping(ch) {
            seq![]
        } else {
            seq![' ']
        }
    } else {
        seq![' ']
    }
}

/// One step of the collapsing pass over white space and segment breaks:
/// spaces and tabs start or extend a pending run; a newline is a
/// forced break under `pre-line` and part of the run otherwise; any other
/// character first emits what the run collapses to.
pub open spec fn collapse_step(ws: WhiteSpace, st: CollapseState, out: Seq<char>, ch: char) -> (CollapseState, Seq<char>) {
    if ch == ' ' || ch == '\t' {
        (CollapseState { pending_space: true, pending_break: st.pending_break, after_break: st.after_break, emitted_any: st.emitted_any, prev: st.prev }, out)
    } else if ch == '\n' && ws.preserve_newlines {
        (CollapseState { pending_space: false, pending_break: false, after_break: true, emitted_any: true, prev: None }, out.push('\n'))
    } else if ch == '\n' {
        (CollapseState { pending_space: true, pending_break: true, after_break: st.after_break, emitted_any: st.emitted_any, prev: st.prev }, out)
    } else {
        (CollapseState { pending_space: false, pending_break: if st.pending_space { false } else { st.pending_break }, after_break: false, emitted_any: true, prev: Some(ch) }, out + pending_separator(st, ch) + seq![ch])
    }
}

/// State and output after the first `n` characters.
pub open spec fn collapse_upto(ws: WhiteSpace, t: Seq<char>, n: int) -> (CollapseState, Seq<char>)
    decreases n,
{
    if n <= 0 {
        (collapse_start(), seq![])
    } else {
        let prevs = collapse_upto(ws, t, n - 1);
        collapse_step(ws, prevs.0, prevs.1, t[n - 1])
    }
}

/// Output of the collapsing pass over a whole text.
pub open spec fn collapse_text(ws: WhiteSpace, t: Seq<char>) -> Seq<char> {
    collapse_upto(ws, t, t.len() as int).1
}

/// The text holds a space, tab, newline or carriage return.
pub open spec fn has_fast_path_breaker(t: Seq<char>) -> bool {
    exists|i: int| 0 <= i < t.len() && is_fast_path_breaker(#[trigger] t[i])
}

/// What `apply_white_space` yields: preserving modes and texts without any
/// whitespace are untouched; otherwise the collapsing pass runs.
pub open spec fn spec_apply_white_space(t: Seq<char>, ws: WhiteSpace) -> Seq<char> {
    if !ws.collapse || !has_fast_path_breaker(t) {
        t
    } else {
        collapse_text(ws, t)
    }
}

fn has_breaker(cs: &Vec<char>) -> (r: bool)
    ensures
        r == has_fast_path_breaker(cs@),
{
    let mut i: usize = 0;
    while i < cs.len()
        invariant
            i <= cs.len(),
            forall|j: int| 0 <= j < i ==> !is_fast_path_breaker(#[trigger] cs@[j]),
        decreases cs.len() - i,
    {
        let c = cs[i];
        if c == ' ' || c == '\t' || c == '\n' || c == '\r' {
            assert(is_fast_path_breaker(cs@[i as int]));
            return true;
        }
        i += 1;
    }
    false
}

/// Applies `white-space` processing to one text node.
///
/// `pre` / `pre-wrap` / `break-spaces` keep every character; `normal`,
/// `nowrap` and `pre-line` collapse space/tab runs to one space, drop
/// leading and trailing runs (segment breaks included), turn segment
/// breaks into a space (or nothing
/// between two CJK characters), and under `pre-line` keep each newline as a
/// forced break with the spaces around it removed. Text that is left as it
/// was is borrowed.
pub fn apply_white_space(text: &str, ws: WhiteSpace) -> (r: Cow<'_, str>)
    ensures
        r@ == spec_apply_white_space(text@, ws),
        (!ws.collapse || !has_fast_path_breaker(text@)) ==> r is Borrowed,
        (ws.collapse && has_fast_path_breaker(text@)) ==> ((r is Borrowed) == (collapse_text(ws, text@).len() == 0)),
{
    if ws.preserve_spaces() {
        return Cow::Borrowed(text);
    }
    let cs = chars_of(text);
    if !has_breaker(&cs) {
        return Cow::Borrowed(text);
    }
    let mut out: Vec<char> = Vec::new();
    let mut pending_space = false;
    let mut pending_break = false;
    let mut after_break = false;
    let mut emitted_any = false;
    let mut prev_cjk: Option<char> = None;
    let mut i: usize = 0;
    while i < cs.len()
        invariant
            i <= cs.len(),
            cs@ == text@,
            ({
                let st = collapse_upto(ws, text@, i as int);
                &&& st.0.pending_space == pending_space
                &&& st.0.pending_break == pending_break
                &&& st.0.after_break == after_break
                &&& st.0.emitted_any == emitted_any
                &&& st.0.prev == prev_cjk
                &&& st.1 == out@
            }),
        decreases cs.len() - i,
    {
        let ch = cs[i];
        let ghost st = CollapseState { pending_space, pending_break, after_break, emitted_any, prev: prev_cjk };
        let ghost out0 = out@;
        if ch == ' ' || ch == '\t' {
            pending_space = true;
        } else if ch == '\n' && ws.preserve_newlines {
            pending_space = false;
            pending_break = false;
            out.push('\n');
            after_break = true;
            prev_cjk = None;
            emitted_any = true;
        } else if ch == '\n' {
            pending_space = true;
            pending_break = true;
        } else {
            if pending_space {
                if after_break || !emitted_any {
                } else if pending_break {
                    let drop = match prev_cjk {
                        Some(p) => is_cjk_break_dropping(p),
                        None => false,
                    } && is_cjk_break_dropping(ch);
                    if !drop {
                        out.push(' ');
                    }
                } else {
                    out.push(' ');
                }
                pending_space = false;
                pending_break = false;
            }
            out.push(ch);
            after_break = false;
            prev_cjk = Some(ch);
            emitted_any = true;
            assert(out@ =~= out0 + pending_separator(st, ch) + seq![ch]);
        }
        i += 1;
    }
    if out.len() == 0 {
        proof {
            reveal_strlit("");
            assert(out@ =~= ""@);
        }
        Cow::Borrowed("")
    } else {
        Cow::Owned(string_from_chars(out.as_slice()))
    }
}


/// No tab, no two adjacent spaces and no trailing space.
pub open spec fn single_spaced(o: Seq<char>) -> bool {
    &&& forall|i: int| 0 <= i < o.len() ==> #[trigger] o[i] != '\t'
    &&& forall|i: int| 0 <= i < o.len() - 1 ==> !(#[trigger] o[i] == ' ' && o[i + 1] == ' ')
    &&& o.len() > 0 ==> o[o.len() - 1] != ' '
}

/// No newline at all.
pub open spec fn newline_free(o: Seq<char>) -> bool {
    forall|i: int| 0 <= i < o.len() ==> #[trigger] o[i] != '\n'
}

/// No space right before or right after a newline.
pub open spec fn no_space_by_newline(o: Seq<char>) -> bool {
    forall|i: int| 0 <= i < o.len() - 1 ==> !(#[trigger] o[i] == ' ' && o[i + 1] == '\n') && !(o[i]
        == '\n' && o[i + 1] == ' ')
}

proof fn lemma_collapse_upto_shape(ws: WhiteSpace, t: Seq<char>, n: int)
    requires
        0 <= n <= t.len(),
    ensures
        single_spaced(collapse_upto(ws, t, n).1),
        !ws.preserve_newlines ==> newline_free(collapse_upto(ws, t, n).1),
        ws.preserve_newlines ==> no_space_by_newline(collapse_upto(ws, t, n).1),
        ws.preserve_newlines ==> (collapse_upto(ws, t, n).0.after_break == (collapse_upto(ws, t, n).1.len() > 0
            && collapse_upto(ws, t, n).1.last() == '\n')),
        collapse_upto(ws, t, n).0.emitted_any == (collapse_upto(ws, t, n).1.len() > 0),
        collapse_upto(ws, t, n).1.len() > 0 ==> collapse_upto(ws, t, n).1[0] != ' ',
    decreases n,
{
    if n > 0 {
        lemma_collapse_upto_shape(ws, t, n - 1);
        let p = collapse_upto(ws, t, n - 1);
        let o = collapse_upto(ws, t, n).1;
        let ch = t[n - 1];
        if ch == ' ' || ch == '\t' {
        } else if ch == '\n' && ws.preserve_newlines {
            assert(o =~= p.1.push('\n'));
            if p.1.len() > 0 {
                assert(o[0] == p.1[0]);
            }
            assert forall|i: int| 0 <= i < o.len() - 1 implies !(#[trigger] o[i] == ' ' && o[i + 1]
                == ' ') by {
                if i < p.1.len() - 1 {
                    assert(o[i] == p.1[i] && o[i + 1] == p.1[i + 1]);
                }
            }
            assert forall|i: int| 0 <= i < o.len() - 1 implies !(#[trigger] o[i] == ' ' && o[i + 1]
                == '\n') && !(o[i] == '\n' && o[i + 1] == ' ') by {
                if i < p.1.len() - 1 {
                    assert(o[i] == p.1[i] && o[i + 1] == p.1[i + 1]);
                }
            }
        } else if ch == '\n' {
        } else {
            let sep = pending_separator(p.0, ch);
            assert(o =~= p.1 + sep + seq![ch]);
            if p.1.len() > 0 {
                assert(o[0] == p.1[0]);
            }
            assert forall|i: int| 0 <= i < o.len() - 1 implies !(#[trigger] o[i] == ' ' && o[i + 1]
                == ' ') by {
                if i < p.1.len() - 1 {
                    assert(o[i] == p.1[i] && o[i + 1] == p.1[i + 1]);
                }
            }
            if ws.preserve_newlines {
                assert forall|i: int| 0 <= i < o.len() - 1 implies !(#[trigger] o[i] == ' ' && o[i
                    + 1] == '\n') && !(o[i] == '\n' && o[i + 1] == ' ') by {
                    if i < p.1.len() - 1 {
                        assert(o[i] == p.1[i] && o[i + 1] == p.1[i + 1]);
                    }
                }
            }
        }
    }
}

/// Law: under a collapsing `white-space` value the processed text never
/// holds a tab, two adjacent spaces or a trailing space; without preserved
/// newlines (`normal`, `nowrap`) it holds no newline either, and with them
/// (`pre-line`) no space stands next to a newline.
pub proof fn lemma_collapsed_text_shape(t: Seq<char>, ws: WhiteSpace)
    requires
        ws.collapse,
    ensures
        has_fast_path_breaker(t) ==> single_spaced(spec_apply_white_space(t, ws)),
        !ws.preserve_newlines ==> newline_free(spec_apply_white_space(t, ws)),
        ws.preserve_newlines ==> no_space_by_newline(spec_apply_white_space(t, ws)),
{
    lemma_collapse_upto_shape(ws, t, t.len() as int);
    if !has_fast_path_breaker(t) {
        assert forall|i: int| 0 <= i < t.len() implies #[trigger] t[i] != '\n' by {
            assert(!is_fast_path_breaker(t[i]));
        }
        assert forall|i: int| 0 <= i < t.len() - 1 implies !(#[trigger] t[i] == ' ' && t[i + 1] == '\n') && !(t[i]
            == '\n' && t[i + 1] == ' ') by {
            assert(!is_fast_path_breaker(t[i]));
        }
    }
}

/// A text that collapsing leaves as it is: no leading space, single
/// spaces only, and newlines only where they are kept, with no space
/// beside them.
pub open spec fn collapsed_form(ws: WhiteSpace, o: Seq<char>) -> bool {
    &&& single_spaced(o)
    &&& o.len() > 0 ==> o[0] != ' '
    &&& !ws.preserve_newlines ==> newline_free(o)
    &&& ws.preserve_newlines ==> no_space_by_newline(o)
}

proof fn lemma_collapse_upto_collapsed(ws: WhiteSpace, o: Seq<char>, n: int)
    requires
        collapsed_form(ws, o),
        0 <= n <= o.len(),
    ensures
        !collapse_upto(ws, o, n).0.pending_break,
        n > 0 && o[n - 1] == ' ' ==> {
            let st = collapse_upto(ws, o, n);
            &&& st.1 == o.take(n - 1)
            &&& st.0.pending_space
            &&& !st.0.after_break
            &&& st.0.emitted_any
        },
        !(n > 0 && o[n - 1] == ' ') ==> {
            let st = collapse_upto(ws, o, n);
            &&& st.1 == o.take(n)
            &&& !st.0.pending_space
            &&& st.0.after_break == (n > 0 && o[n - 1] == '\n')
            &&& st.0.emitted_any == (n > 0)
        },
    decreases n,
{
    if n > 0 {
        lemma_collapse_upto_collapsed(ws, o, n - 1);
        let c = o[n - 1];
        assert(c != '\t');
        if n >= 2 {
            assert(!(o[n - 2] == ' ' && o[n - 1] == ' '));
            if ws.preserve_newlines {
                assert(!(o[n - 2] == ' ' && o[n - 1] == '\n') && !(o[n - 2] == '\n' && o[n - 1] == ' '));
            } else {
                assert(o[n - 2] != '\n');
            }
        }
        if c == ' ' {
            assert(n >= 2);
        } else if c == '\n' {
            assert(ws.preserve_newlines);
            assert(o.take(n - 1).push('\n') =~= o.take(n));
        } else if n >= 2 && o[n - 2] == ' ' {
            assert(o.take(n - 2) + seq![' '] + seq![c] =~= o.take(n));
        } else {
            assert(o.take(n - 1) + Seq::<char>::empty() + seq![c] =~= o.take(n));
        }
    }
}

/// Collapsing a text already in collapsed form changes nothing.
proof fn lemma_collapsed_form_fixed(ws: WhiteSpace, o: Seq<char>)
    requires
        collapsed_form(ws, o),
    ensures
        collapse_text(ws, o) == o,
{
    lemma_collapse_upto_collapsed(ws, o, o.len() as int);
    assert(o.take(o.len() as int) =~= o);
}

/// Law: under a collapsing `white-space` value, processing processed text
/// again changes nothing.
pub proof fn lemma_collapsing_is_idempotent(t: Seq<char>, ws: WhiteSpace)
    requires
        ws.collapse,
    ensures
        spec_apply_white_space(spec_apply_white_space(t, ws), ws) == spec_apply_white_space(t, ws),
{
    if has_fast_path_breaker(t) {
        let r = collapse_text(ws, t);
        lemma_collapse_upto_shape(ws, t, t.len() as int);
        if has_fast_path_breaker(r) {
            lemma_collapsed_form_fixed(ws, r);
        }
    }
}

/// The characters that white-space processing keeps as they are: all but
/// spaces, tabs, and newlines that are not preserved.
pub open spec fn kept_char(ws: WhiteSpace, c: char) -> bool {
    c != ' ' && c != '\t' && (c != '\n' || ws.preserve_newlines)
}

proof fn lemma_collapse_upto_keeps(ws: WhiteSpace, t: Seq<char>, n: int)
    requires
        0 <= n <= t.len(),
    ensures
        collapse_upto(ws, t, n).1.filter(|c: char| kept_char(ws, c)) == t.take(n).filter(|c: char| kept_char(ws, c)),
    decreases n,
{
    let f = |c: char| kept_char(ws, c);
    if n == 0 {
        assert(t.take(0) =~= Seq::<char>::empty());
        assert(Seq::<char>::empty().filter(f) =~= Seq::<char>::empty()) by {
            Seq::<char>::empty().lemma_filter_len(f);
        }
    } else {
        lemma_collapse_upto_keeps(ws, t, n - 1);
        let p = collapse_upto(ws, t, n - 1);
        let o = collapse_upto(ws, t, n).1;
        let ch = t[n - 1];
        assert(t.take(n) =~= t.take(n - 1) + seq![ch]);
        Seq::filter_distributes_over_add(t.take(n - 1), seq![ch], f);
        assert(seq![ch].drop_last() =~= Seq::<char>::empty());
        assert(Seq::<char>::empty().filter(f) =~= Seq::<char>::empty()) by {
            Seq::<char>::empty().lemma_filter_len(f);
        }
        assert(seq![ch].filter(f) == (if f(ch) { seq![ch] } else { Seq::<char>::empty() })) by {
            reveal_with_fuel(Seq::filter, 2);
        }
        if ch == ' ' || ch == '\t' {
        } else if ch == '\n' && ws.preserve_newlines {
            assert(o =~= p.1 + seq!['\n']);
            Seq::filter_distributes_over_add(p.1, seq!['\n'], f);
        } else if ch == '\n' {
        } else {
            let sep = pending_separator(p.0, ch);
            assert(o =~= p.1 + (sep + seq![ch]));
            Seq::filter_distributes_over_add(p.1, sep + seq![ch], f);
            Seq::filter_distributes_over_add(sep, seq![ch], f);
            if sep.len() > 0 {
                assert(sep =~= seq![' ']);
                assert(sep.drop_last() =~= Seq::<char>::empty());
                assert(sep.filter(f) =~= Seq::<char>::empty()) by {
                    reveal_with_fuel(Seq::filter, 2);
                }
            } else {
                assert(sep =~= Seq::<char>::empty());
            }
        }
    }
}

/// Law: white-space processing never adds, drops or reorders any character
/// other than spaces, tabs and newlines that are not preserved.
pub proof fn lemma_white_space_keeps_other_characters(t: Seq<char>, ws: WhiteSpace)
    ensures
        spec_apply_white_space(t, ws).filter(|c: char| kept_char(ws, c)) == t.filter(|c: char| kept_char(ws, c)),
{
    if ws.collapse && has_fast_path_breaker(t) {
        lemma_collapse_upto_keeps(ws, t, t.len() as int);
        assert(t.take(t.len() as int) =~= t);
    }
}

/// Law: the preserving values (`pre`, `pre-wrap`, `break-spaces`) leave
/// every text exactly as it is.
pub proof fn lemma_preserving_white_space_is_identity(t: Seq<char>, k: Option<&str>)
    requires
        !spec_white_space(k).collapse,
    ensures
        spec_apply_white_space(t, spec_white_space(k)) == t,
{
}


// ── reading the keywords from a computed style ───────────────────────────

/// The keyword a style holds for a property: the first identifier of its
/// computed value.
pub open spec fn style_keyword(style: Map<Seq<char>, Seq<CvView>>, p: Seq<char>) -> Option<Seq<char>> {
    if style.contains_key(p) {
        first_ident(style[p])
    } else {
        None
    }
}

/// The `text-transform` keyword of a computed style.
pub fn text_transform_keyword(style: &ComputedStyle) -> (r: Option<&str>)
    ensures
        match r {
            Some(k) => style_keyword(style@, "text-transform"@) == Some(k@),
            None => style_keyword(style@, "text-transform"@) is None,
        },
{
    match style.get("text-transform") {
        Some(cv) => cv.keyword(),
        None => None,
    }
}

/// The `white-space` keyword of a computed style.
pub fn white_space_keyword(style: &ComputedStyle) -> (r: Option<&str>)
    ensures
        match r {
            Some(k) => style_keyword(style@, "white-space"@) == Some(k@),
            None => style_keyword(style@, "white-space"@) is None,
        },
{
    match style.get("white-space") {
        Some(cv) => cv.keyword(),
        None => None,
    }
}

// ── segment breaks between CJK characters ───────────────────────────────

/// Characters of the wide East Asian scripts and symbol blocks: CJK
/// radicals, Kangxi radicals and ideographic description characters
/// (U+2E80–U+2FFF), CJK symbols and punctuation (U+3000–U+303F), Hiragana
/// (U+3040–U+309F), Katakana (U+30A0–U+30FF), Bopomofo (U+3100–U+312F),
/// Kanbun to enclosed CJK letters (U+3190–U+322F), enclosed CJK and
/// compatibility characters and ideographs extension A (U+3248–U+4DBF),
/// CJK unified ideographs (U+4E00–U+9FFF), Yi (U+A000–U+A4CF), CJK
/// compatibility ideographs (U+F900–U+FAFF) and fullwidth forms
/// (U+FF00–U+FF60).
pub open spec fn cjk_wide_char(c: char) -> bool {
    let u = c as u32;
    ||| 0x2E80 <= u <= 0x2FFF
    ||| 0x3000 <= u <= 0x303F
    ||| 0x3040 <= u <= 0x309F
    ||| 0x30A0 <= u <= 0x30FF
    ||| 0x3100 <= u <= 0x312F
    ||| 0x3190 <= u <= 0x322F
    ||| 0x3248 <= u <= 0x4DBF
    ||| 0x4E00 <= u <= 0x9FFF
    ||| 0xA000 <= u <= 0xA4CF
    ||| 0xF900 <= u <= 0xFAFF
    ||| 0xFF00 <= u <= 0xFF60
}

/// Hangul: Jamo (U+1100–U+11FF), compatibility Jamo (U+3130–U+318F) and
/// syllables (U+AC00–U+D7A3).
pub open spec fn hangul_char(c: char) -> bool {
    let u = c as u32;
    ||| 0x1100 <= u <= 0x11FF
    ||| 0x3130 <= u <= 0x318F
    ||| 0xAC00 <= u <= 0xD7A3
}

/// Law: a segment break next to a character is dropped exactly for the
/// wide CJK characters (see [`cjk_wide_char`]); never for Hangul.
pub proof fn lemma_cjk_break_dropping_chars(c: char)
    ensures
        spec_is_cjk_break_dropping(c) == cjk_wide_char(c),
        hangul_char(c) ==> !spec_is_cjk_break_dropping(c),
{
}

/// Law: under `normal` or `nowrap`, a newline between two characters that
/// are not spaces, tabs or newlines is removed when both are wide CJK
/// characters and becomes one space otherwise.
pub proof fn lemma_segment_break_between(x: char, y: char, ws: WhiteSpace)
    requires
        ws.collapse,
        !ws.preserve_newlines,
        x != ' ' && x != '\t' && x != '\n',
        y != ' ' && y != '\t' && y != '\n',
    ensures
        spec_apply_white_space(seq![x, '\n', y], ws) == (if cjk_wide_char(x) && cjk_wide_char(y) {
            seq![x, y]
        } else {
            seq![x, ' ', y]
        }),
{
    let t = seq![x, '\n', y];
    assert(is_fast_path_breaker(t[1]));
    lemma_cjk_break_dropping_chars(x);
    lemma_cjk_break_dropping_chars(y);
    assert(t[0] == x && t[1] == '\n' && t[2] == y);
    let s0 = collapse_upto(ws, t, 0);
    assert(s0.0 == collapse_start() && s0.1 =~= Seq::<char>::empty());
    assert(pending_separator(s0.0, x) =~= Seq::<char>::empty());
    let s1 = collapse_upto(ws, t, 1);
    let s2 = collapse_upto(ws, t, 2);
    let s3 = collapse_upto(ws, t, 3);
    assert(s1.1 =~= seq![x]);
    assert(s1.0.emitted_any && !s1.0.pending_space && !s1.0.after_break && s1.0.prev == Some(x));
    assert(s2.1 =~= seq![x]);
    assert(s2.0.pending_space && s2.0.pending_break && s2.0.emitted_any && !s2.0.after_break && s2.0.prev == Some(x));
    assert(s3 == collapse_step(ws, s2.0, s2.1, y));
    if cjk_wide_char(x) && cjk_wide_char(y) {
        assert(pending_separator(s2.0, y) =~= Seq::<char>::empty());
        assert(s3.1 =~= seq![x, y]);
    } else {
        assert(pending_separator(s2.0, y) =~= seq![' ']);
        assert(s3.1 =~= seq![x, ' ', y]);
    }
}


/// The code points with the Unicode White_Space property.
pub open spec fn white_space_code_points() -> Seq<u32> {
    seq![0x9u32, 0xAu32, 0xBu32, 0xCu32, 0xDu32, 0x20u32, 0x85u32, 0xA0u32, 0x1680u32, 0x2000u32, 0x2001u32, 0x2002u32, 0x2003u32, 0x2004u32, 0x2005u32, 0x2006u32, 0x2007u32, 0x2008u32, 0x2009u32, 0x200Au32, 0x2028u32, 0x2029u32, 0x202Fu32, 0x205Fu32, 0x3000u32]
}

/// Law: a character counts as white space (for `capitalize`) exactly when
/// its code point is one of the 25 with the Unicode White_Space property.
pub proof fn lemma_unicode_white_space_code_points(c: char)
    ensures
        unicode_is_whitespace(c) == white_space_code_points().contains(c as u32),
{
    let s = white_space_code_points();
    let u = c as u32;
    if unicode_is_whitespace(c) {
        if u == 0x9 {
            assert(s[0] == u);
        } else if u == 0xA {
            assert(s[1] == u);
        } else if u == 0xB {
            assert(s[2] == u);
        } else if u == 0xC {
            assert(s[3] == u);
        } else if u == 0xD {
            assert(s[4] == u);
        } else if u == 0x20 {
            assert(s[5] == u);
        } else if u == 0x85 {
            assert(s[6] == u);
        } else if u == 0xA0 {
            assert(s[7] == u);
        } else if u == 0x1680 {
            assert(s[8] == u);
        } else if u == 0x2000 {
            assert(s[9] == u);
        } else if u == 0x2001 {
            assert(s[10] == u);
        } else if u == 0x2002 {
            assert(s[11] == u);
        } else if u == 0x2003 {
            assert(s[12] == u);
        } else if u == 0x2004 {
            assert(s[13] == u);
        } else if u == 0x2005 {
            assert(s[14] == u);
        } else if u == 0x2006 {
            assert(s[15] == u);
        } else if u == 0x2007 {
            assert(s[16] == u);
        } else if u == 0x2008 {
            assert(s[17] == u);
        } else if u == 0x2009 {
            assert(s[18] == u);
        } else if u == 0x200A {
            assert(s[19] == u);
        } else if u == 0x2028 {
            assert(s[20] == u);
        } else if u == 0x2029 {
            assert(s[21] == u);
        } else if u == 0x202F {
            assert(s[22] == u);
        } else if u == 0x205F {
            assert(s[23] == u);
        } else if u == 0x3000 {
            assert(s[24] == u);
        }
    }
    if s.contains(u) {
        let i = choose|i: int| 0 <= i < s.len() && s[i] == u;
        if i == 0 {
            assert(s[0] == 0x9u32);
        } else if i == 1 {
            assert(s[1] == 0xAu32);
        } else if i == 2 {
            assert(s[2] == 0xBu32);
        } else if i == 3 {
            assert(s[3] == 0xCu32);
        } else if i == 4 {
            assert(s[4] == 0xDu32);
        } else if i == 5 {
            assert(s[5] == 0x20u32);
        } else if i == 6 {
            assert(s[6] == 0x85u32);
        } else if i == 7 {
            assert(s[7] == 0xA0u32);
        } else if i == 8 {
            assert(s[8] == 0x1680u32);
        } else if i == 9 {
            assert(s[9] == 0x2000u32);
        } else if i == 10 {
            assert(s[10] == 0x2001u32);
        } else if i == 11 {
            assert(s[11] == 0x2002u32);
        } else if i == 12 {
            assert(s[12] == 0x2003u32);
        } else if i == 13 {
            assert(s[13] == 0x2004u32);
        } else if i == 14 {
            assert(s[14] == 0x2005u32);
        } else if i == 15 {
            assert(s[15] == 0x2006u32);
        } else if i == 16 {
            assert(s[16] == 0x2007u32);
        } else if i == 17 {
            assert(s[17] == 0x2008u32);
        } else if i == 18 {
            assert(s[18] == 0x2009u32);
        } else if i == 19 {
            assert(s[19] == 0x200Au32);
        } else if i == 20 {
            assert(s[20] == 0x2028u32);
        } else if i == 21 {
            assert(s[21] == 0x2029u32);
        } else if i == 22 {
            assert(s[22] == 0x202Fu32);
        } else if i == 23 {
            assert(s[23] == 0x205Fu32);
        } else if i == 24 {
            assert(s[24] == 0x3000u32);
        }
    }
}

} // verus!
