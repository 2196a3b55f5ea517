//! Media queries: the `@media` prelude and a style
//! sheet's `media` list, evaluated in Kleene three-valued logic against a
//! media environment.
//!
//! A malformed query evaluates as `not all`; an unknown or unsupported
//! feature is *unknown*, which `not` keeps unknown, which `and` with a false
//! operand and `or` with a true operand absorb, and which otherwise makes
//! the query false.
use vstd::prelude::*;
use vstd::arithmetic::power2::{lemma2_to64, lemma2_to64_rest, lemma_pow2_strictly_increases, lemma_pow2_unfold, pow2};
use crate::strutil::{ascii_lower, eq_ascii_ci, eq_ignore_ascii_case};
use crate::token::{
    clone_cv, cv_size, cvs_view, lemma_cvs_view_index, lemma_cvs_view_len, lemma_cvs_view_push,
    lemma_cvs_view_subrange, lemma_size_elem, lemma_size_split, lemma_sizes_pos, seq_size, BlockKind,
    ComponentValue, CvView, Numeric, Token, TokenView,
};

verus! {

// ── exact comparison of a binary64 length with an integer ─────────────────

/// Biased exponent field of a binary64 bit pattern.
pub open spec fn f64_exp_field(bits: u64) -> u64 {
    (bits >> 52u64) & 0x7ffu64
}

/// Fraction field of a binary64 bit pattern.
pub open spec fn f64_frac_field(bits: u64) -> u64 {
    bits & 0xf_ffff_ffff_ffffu64
}

/// Sign bit of a binary64 bit pattern.
pub open spec fn f64_sign_bit(bits: u64) -> bool {
    (bits >> 63u64) == 1u64
}

/// The bit pattern is a NaN.
pub open spec fn f64_is_nan(bits: u64) -> bool {
    f64_exp_field(bits) == 0x7ff && f64_frac_field(bits) != 0
}

/// Integer significand of a finite binary64 value.
pub open spec fn f64_significand(bits: u64) -> nat {
    if f64_exp_field(bits) == 0 {
        f64_frac_field(bits) as nat
    } else {
        (f64_frac_field(bits) + pow2(52)) as nat
    }
}

/// Binary exponent of a finite binary64 value: its magnitude is
/// `significand * 2^exponent`.
pub open spec fn f64_exponent(bits: u64) -> int {
    if f64_exp_field(bits) == 0 {
        -1074
    } else {
        f64_exp_field(bits) - 1075
    }
}

/// `-1`, `0` or `1` by the sign of `d`.
pub open spec fn int_sign(d: int) -> int {
    if d < 0 {
        -1
    } else if d == 0 {
        0
    } else {
        1
    }
}

/// Sign of `sa * 2^ea - sb * 2^eb`.
pub open spec fn dyadic_sign(sa: nat, ea: int, sb: nat, eb: int) -> int {
    if ea >= eb {
        int_sign(sa * pow2((ea - eb) as nat) - sb)
    } else {
        int_sign(sa - sb * pow2((eb - ea) as nat))
    }
}

/// The bit pattern is an infinity.
pub open spec fn f64_is_inf(bits: u64) -> bool {
    f64_exp_field(bits) == 0x7ff && f64_frac_field(bits) == 0
}

/// Sign of a binary64 value that is not NaN: `0` for both zeros.
pub open spec fn f64_value_sign(bits: u64) -> int {
    if !f64_is_inf(bits) && f64_significand(bits) == 0 {
        0
    } else if f64_sign_bit(bits) {
        -1
    } else {
        1
    }
}

/// Sign of `value(a) * 2^k - value(b)` for binary64 values that are not
/// NaN, infinities beyond every finite value: `-1`, `0` or `1`.
pub open spec fn f64_scaled_order(a: u64, k: nat, b: u64) -> int {
    let sa = f64_value_sign(a);
    let sb = f64_value_sign(b);
    if sa != sb {
        int_sign(sa - sb)
    } else if sa == 0 {
        0
    } else {
        let mag = if f64_is_inf(a) && f64_is_inf(b) {
            0
        } else if f64_is_inf(a) {
            1
        } else if f64_is_inf(b) {
            -1
        } else {
            dyadic_sign(f64_significand(a), f64_exponent(a) + k, f64_significand(b), f64_exponent(b))
        };
        sa * mag
    }
}

/// `value(a) * 2^k <= value(b)`; false when either is NaN.
pub open spec fn f64_scaled_le(a: u64, k: nat, b: u64) -> bool {
    !f64_is_nan(a) && !f64_is_nan(b) && f64_scaled_order(a, k, b) <= 0
}

/// `value(a) * 2^k >= value(b)`; false when either is NaN.
pub open spec fn f64_scaled_ge(a: u64, k: nat, b: u64) -> bool {
    !f64_is_nan(a) && !f64_is_nan(b) && f64_scaled_order(a, k, b) >= 0
}

/// `value(a) * 2^k > value(b)`; false when either is NaN.
pub open spec fn f64_scaled_gt(a: u64, k: nat, b: u64) -> bool {
    !f64_is_nan(a) && !f64_is_nan(b) && f64_scaled_order(a, k, b) > 0
}

/// `2^n` as a `u128`.
fn pow2_u128(n: u32) -> (r: u128)
    requires
        n <= 64,
    ensures
        r == pow2(n as nat),
        r <= pow2(64),
{
    proof {
        lemma2_to64();
    }
    let mut p: u128 = 1;
    let mut i: u32 = 0;
    while i < n
        invariant
            i <= n,
            n <= 64,
            p == pow2(i as nat),
            pow2(64) == 0x10000000000000000,
        decreases n - i,
    {
        proof {
            lemma_pow2_unfold((i + 1) as nat);
            if i + 1 < 64 {
                lemma_pow2_strictly_increases((i + 1) as nat, 64);
            }
        }
        p = p * 2;
        i += 1;
    }
    proof {
        if n < 64 {
            lemma_pow2_strictly_increases(n as nat, 64);
        }
    }
    p
}

fn diff_sign_u128(a: u128, b: u128) -> (r: i8)
    ensures
        r as int == int_sign(a - b),
{
    if a < b {
        -1
    } else if a == b {
        0
    } else {
        1
    }
}

/// Sign of `sa * 2^ea - sb * 2^eb` for significands below `2^53`.
fn dyadic_compare(sa: u64, ea: i64, sb: u64, eb: i64) -> (r: i8)
    requires
        1 <= sa < 0x20_0000_0000_0000,
        1 <= sb < 0x20_0000_0000_0000,
        -2000 <= ea <= 2000,
        -2000 <= eb <= 2000,
    ensures
        r as int == dyadic_sign(sa as nat, ea as int, sb as nat, eb as int),
{
    proof {
        lemma2_to64();
        lemma2_to64_rest();
    }
    if ea >= eb {
        let d: i64 = ea - eb;
        if d >= 54 {
            proof {
                if d > 54 {
                    lemma_pow2_strictly_increases(54, d as nat);
                }
                assert(sa * pow2(d as nat) >= pow2(d as nat)) by (nonlinear_arith)
                    requires
                        sa >= 1,
                ;
            }
            return 1;
        }
        let p: u128 = pow2_u128(d as u32);
        proof {
            if d < 54 {
                lemma_pow2_strictly_increases(d as nat, 54);
            }
            assert(sa * p <= 0x20_0000_0000_0000 * 0x40_0000_0000_0000) by (nonlinear_arith)
                requires
                    sa <= 0x20_0000_0000_0000,
                    p <= 0x40_0000_0000_0000,
            ;
        }
        let prod: u128 = sa as u128 * p;
        diff_sign_u128(prod, sb as u128)
    } else {
        let d: i64 = eb - ea;
        if d >= 54 {
            proof {
                if d > 54 {
                    lemma_pow2_strictly_increases(54, d as nat);
                }
                assert(sb * pow2(d as nat) >= pow2(d as nat)) by (nonlinear_arith)
                    requires
                        sb >= 1,
                ;
            }
            return -1;
        }
        let p: u128 = pow2_u128(d as u32);
        proof {
            lemma_pow2_strictly_increases(d as nat, 54);
            assert(sb * p <= 0x20_0000_0000_0000 * 0x40_0000_0000_0000) by (nonlinear_arith)
                requires
                    sb <= 0x20_0000_0000_0000,
                    p <= 0x40_0000_0000_0000,
            ;
        }
        let prod: u128 = sb as u128 * p;
        diff_sign_u128(sa as u128, prod)
    }
}

/// The fields of a binary64 bit pattern: sign, biased exponent field,
/// integer significand and binary exponent.
fn f64_parts(bits: u64) -> (r: (bool, u64, u64, i64))
    ensures
        r.0 == f64_sign_bit(bits),
        r.1 == f64_exp_field(bits),
        r.1 <= 0x7ff,
        r.1 != 0x7ff ==> r.2 as nat == f64_significand(bits) && r.2 < 0x20_0000_0000_0000,
        r.1 == 0x7ff ==> (r.2 == 0) == (f64_frac_field(bits) == 0),
        r.3 as int == f64_exponent(bits),
        -1074 <= r.3 <= 972,
{
    let e: u64 = (bits >> 52u64) & 0x7ffu64;
    let f: u64 = bits & 0xf_ffff_ffff_ffffu64;
    let neg: bool = (bits >> 63u64) == 1u64;
    proof {
        lemma2_to64();
        lemma2_to64_rest();
        assert(f < 0x10_0000_0000_0000u64) by (bit_vector)
            requires
                f == bits & 0xf_ffff_ffff_ffffu64,
        ;
        assert(e <= 0x7ffu64) by (bit_vector)
            requires
                e == (bits >> 52u64) & 0x7ffu64,
        ;
    }
    if e == 0x7ff {
        return (neg, e, f, e as i64 - 1075);
    }
    let sig: u64 = if e == 0 { f } else { f + 0x10_0000_0000_0000u64 };
    let ex: i64 = if e == 0 { -1074 } else { e as i64 - 1075 };
    (neg, e, sig, ex)
}

/// Compares `value(a) * 2^k` with `value(b)`: `-1`, `0` or `1` (see
/// [`f64_scaled_order`]).
pub fn f64_scaled_compare(a: u64, k: u32, b: u64) -> (r: i8)
    requires
        !f64_is_nan(a),
        !f64_is_nan(b),
        k <= 4,
    ensures
        r as int == f64_scaled_order(a, k as nat, b),
{
    let pa = f64_parts(a);
    let pb = f64_parts(b);
    let inf_a = pa.1 == 0x7ff;
    let inf_b = pb.1 == 0x7ff;
    let sa: i8 = if !inf_a && pa.2 == 0 { 0 } else if pa.0 { -1 } else { 1 };
    let sb: i8 = if !inf_b && pb.2 == 0 { 0 } else if pb.0 { -1 } else { 1 };
    assert(inf_a == f64_is_inf(a) && inf_b == f64_is_inf(b));
    assert(sa as int == f64_value_sign(a) && sb as int == f64_value_sign(b));
    if sa != sb {
        return if sa < sb { -1 } else { 1 };
    }
    if sa == 0 {
        return 0;
    }
    let mag: i8 = if inf_a && inf_b {
        0
    } else if inf_a {
        1
    } else if inf_b {
        -1
    } else {
        dyadic_compare(pa.2, pa.3 + k as i64, pb.2, pb.3)
    };
    if sa < 0 {
        -mag
    } else {
        mag
    }
}

// ── the media environment ────────────────────────────────────────────────

/// What media queries are evaluated against: the media type and the
/// viewport size in CSS pixels.
#[derive(Debug, Clone, Copy)]
pub struct MediaContext {
    /// Current media type (`"screen"`, `"print"`, …).
    pub media_type: &'static str,
    /// Viewport width, as the bit pattern of a binary64 value.
    pub viewport_w: u64,
    /// Viewport height, as the bit pattern of a binary64 value.
    pub viewport_h: u64,
}

/// The bit pattern of 1920.0.
pub const PX_1920: u64 = 0x409e_0000_0000_0000u64;

/// The bit pattern of 1080.0.
pub const PX_1080: u64 = 0x4090_e000_0000_0000u64;

/// The default media environment: a 1920×1080 screen.
pub open spec fn default_media() -> MediaContext {
    MediaContext { media_type: "screen", viewport_w: PX_1920, viewport_h: PX_1080 }
}

impl Default for MediaContext {
    /// A 1920×1080 screen.
    fn default() -> (r: Self)
        ensures
            r == default_media(),
            r.media_type@ == "screen"@,
            r.viewport_w == PX_1920,
            r.viewport_h == PX_1080,
    {
        MediaContext { media_type: "screen", viewport_w: PX_1920, viewport_h: PX_1080 }
    }
}

/// The default viewport's bit patterns are the binary64 values 1920 and
/// 1080: significand times two to the exponent.
pub proof fn lemma_default_viewport_values()
    ensures
        f64_significand(PX_1920) == 1920 * pow2(42) && f64_exponent(PX_1920) == -42,
        f64_significand(PX_1080) == 1080 * pow2(42) && f64_exponent(PX_1080) == -42,
{
    assert((0x409e_0000_0000_0000u64 >> 52u64) & 0x7ffu64 == 0x409u64) by (bit_vector);
    assert(0x409e_0000_0000_0000u64 & 0xf_ffff_ffff_ffffu64 == 0xe_0000_0000_0000u64) by (bit_vector);
    assert((0x4090_e000_0000_0000u64 >> 52u64) & 0x7ffu64 == 0x409u64) by (bit_vector);
    assert(0x4090_e000_0000_0000u64 & 0xf_ffff_ffff_ffffu64 == 0x0_e000_0000_0000u64) by (bit_vector);
    lemma2_to64();
    lemma2_to64_rest();
}

// ── Kleene logic ─────────────────────────────────────────────────────────

/// Three-valued `not` (`None` is unknown).
pub open spec fn k_not(a: Option<bool>) -> Option<bool> {
    match a {
        Some(b) => Some(!b),
        None => None,
    }
}

/// Three-valued `and`.
pub open spec fn k_and(a: Option<bool>, b: Option<bool>) -> Option<bool> {
    if a == Some(false) || b == Some(false) {
        Some(false)
    } else if a is None || b is None {
        None
    } else {
        Some(true)
    }
}

/// Three-valued `or`.
pub open spec fn k_or(a: Option<bool>, b: Option<bool>) -> Option<bool> {
    if a == Some(true) || b == Some(true) {
        Some(true)
    } else if a is None || b is None {
        None
    } else {
        Some(false)
    }
}

fn kleene_not(a: Option<bool>) -> (r: Option<bool>)
    ensures
        r == k_not(a),
{
    match a {
        Some(b) => Some(!b),
        None => None,
    }
}

fn kleene_and(a: Option<bool>, b: Option<bool>) -> (r: Option<bool>)
    ensures
        r == k_and(a, b),
{
    if a == Some(false) || b == Some(false) {
        Some(false)
    } else if a.is_none() || b.is_none() {
        None
    } else {
        Some(true)
    }
}

fn kleene_or(a: Option<bool>, b: Option<bool>) -> (r: Option<bool>)
    ensures
        r == k_or(a, b),
{
    if a == Some(true) || b == Some(true) {
        Some(true)
    } else if a.is_none() || b.is_none() {
        None
    } else {
        Some(false)
    }
}

// ── token helpers ────────────────────────────────────────────────────────

/// The values without whitespace tokens, in order.
pub open spec fn strip_ws(s: Seq<CvView>) -> Seq<CvView>
    decreases s.len(),
{
    if s.len() == 0 {
        seq![]
    } else if s.last() == CvView::Tok(TokenView::Whitespace) {
        strip_ws(s.drop_last())
    } else {
        strip_ws(s.drop_last()).push(s.last())
    }
}

/// Stripping whitespace does not grow a sequence.
pub proof fn lemma_strip_ws_size(s: Seq<CvView>)
    ensures
        seq_size(strip_ws(s)) <= seq_size(s),
    decreases s.len(),
{
    if s.len() > 0 {
        lemma_strip_ws_size(s.drop_last());
        if s.last() != CvView::Tok(TokenView::Whitespace) {
            let x = strip_ws(s.drop_last());
            assert(x.push(s.last()).drop_last() =~= x);
        }
    }
}

/// The values between top-level commas (at least one segment).
pub open spec fn comma_segments(s: Seq<CvView>) -> Seq<Seq<CvView>>
    decreases s.len(),
{
    if s.len() == 0 {
        seq![seq![]]
    } else {
        let p = comma_segments(s.drop_last());
        if s.last() == CvView::Tok(TokenView::Comma) {
            p.push(seq![])
        } else {
            p.update(p.len() - 1, p.last().push(s.last()))
        }
    }
}

proof fn lemma_comma_segments_nonempty(s: Seq<CvView>)
    ensures
        comma_segments(s).len() >= 1,
    decreases s.len(),
{
    if s.len() > 0 {
        lemma_comma_segments_nonempty(s.drop_last());
    }
}

/// The value is the identifier `w`, ASCII case-insensitively.
pub open spec fn is_ident_ci(c: CvView, w: Seq<char>) -> bool {
    c matches CvView::Tok(TokenView::Ident(x)) && eq_ascii_ci(x, w)
}

/// The value is an identifier.
pub open spec fn is_ident(c: CvView) -> bool {
    c matches CvView::Tok(TokenView::Ident(_))
}

fn ident_is(c: &ComponentValue, w: &str) -> (r: bool)
    ensures
        r == is_ident_ci(c@, w@),
{
    match c {
        ComponentValue::PreservedToken(Token::Ident(x)) => eq_ignore_ascii_case(x.as_str(), w),
        _ => false,
    }
}

fn ident_at(c: &ComponentValue) -> (r: bool)
    ensures
        r == is_ident(c@),
{
    match c {
        ComponentValue::PreservedToken(Token::Ident(_)) => true,
        _ => false,
    }
}

pub(crate) fn strip_ws_vec(v: &[ComponentValue]) -> (r: Vec<ComponentValue>)
    ensures
        cvs_view(r@) == strip_ws(cvs_view(v@)),
{
    let ghost sv = cvs_view(v@);
    proof {
        lemma_cvs_view_len(v@);
        assert(sv.take(0) =~= Seq::<CvView>::empty());
    }
    let mut out: Vec<ComponentValue> = Vec::new();
    let mut i: usize = 0;
    while i < v.len()
        invariant
            i <= v@.len(),
            sv == cvs_view(v@),
            sv.len() == v@.len(),
            cvs_view(out@) == strip_ws(sv.take(i as int)),
        decreases v.len() - i,
    {
        proof {
            lemma_cvs_view_index(v@, i as int);
            assert(sv.take(i + 1).drop_last() =~= sv.take(i as int));
            assert(sv.take(i + 1).last() == sv[i as int]);
        }
        match &v[i] {
            ComponentValue::PreservedToken(Token::Whitespace) => {},
            _ => {
                let c = clone_cv(&v[i]);
                let ghost before = out@;
                out.push(c);
                proof {
                    lemma_cvs_view_push(before, c);
                }
            },
        }
        i += 1;
    }
    proof {
        assert(sv.take(v@.len() as int) =~= sv);
    }
    out
}

/// Views of a list of segments.
pub open spec fn segment_views(segs: Seq<Vec<ComponentValue>>) -> Seq<Seq<CvView>> {
    Seq::new(segs.len(), |j: int| cvs_view(segs[j]@))
}

fn split_commas(v: &[ComponentValue]) -> (r: Vec<Vec<ComponentValue>>)
    ensures
        segment_views(r@) == comma_segments(cvs_view(v@)),
{
    let ghost sv = cvs_view(v@);
    proof {
        lemma_cvs_view_len(v@);
        assert(sv.take(0) =~= Seq::<CvView>::empty());
        assert(cvs_view(Seq::<ComponentValue>::empty()) =~= Seq::<CvView>::empty());
        assert(segment_views(Seq::<Vec<ComponentValue>>::empty()).push(seq![]) =~= seq![seq![]]);
    }
    let mut segs: Vec<Vec<ComponentValue>> = Vec::new();
    let mut cur: Vec<ComponentValue> = Vec::new();
    let mut i: usize = 0;
    while i < v.len()
        invariant
            i <= v@.len(),
            sv == cvs_view(v@),
            sv.len() == v@.len(),
            segment_views(segs@).push(cvs_view(cur@)) == comma_segments(sv.take(i as int)),
        decreases v.len() - i,
    {
        proof {
            lemma_cvs_view_index(v@, i as int);
            assert(sv.take(i + 1).drop_last() =~= sv.take(i as int));
            assert(sv.take(i + 1).last() == sv[i as int]);
        }
        let ghost s0 = segs@;
        let ghost c0 = cur@;
        match &v[i] {
            ComponentValue::PreservedToken(Token::Comma) => {
                segs.push(cur);
                cur = Vec::new();
                proof {
                    assert(segment_views(segs@) =~= segment_views(s0).push(cvs_view(c0)));
                    assert(cvs_view(cur@) =~= Seq::<CvView>::empty());
                }
            },
            _ => {
                let c = clone_cv(&v[i]);
                cur.push(c);
                proof {
                    lemma_cvs_view_push(c0, c);
                    assert(segment_views(segs@).push(cvs_view(cur@)) =~= segment_views(s0).push(cvs_view(c0)).update(
                        segment_views(s0).len() as int,
                        segment_views(s0).push(cvs_view(c0)).last().push(c@),
                    ));
                }
            },
        }
        i += 1;
    }
    let ghost s0 = segs@;
    let ghost c0 = cur@;
    segs.push(cur);
    proof {
        assert(sv.take(v@.len() as int) =~= sv);
        assert(segment_views(segs@) =~= segment_views(s0).push(cvs_view(c0)));
    }
    segs
}

// ── the grammar ──────────────────────────────────────────────────────────

/// A length in a media feature: the number's bits and the power of two it
/// scales by (`px` and a bare zero: 1; `em` and `rem`: the initial font
/// size, 16px).
pub open spec fn media_length(c: CvView) -> Option<(u64, nat)> {
    match c {
        CvView::Tok(TokenView::Dimension(n, u)) => {
            if f64_is_nan(n.bits) {
                None
            } else if eq_ascii_ci(u, "px"@) {
                Some((n.bits, 0nat))
            } else if eq_ascii_ci(u, "em"@) || eq_ascii_ci(u, "rem"@) {
                Some((n.bits, 4nat))
            } else {
                None
            }
        },
        CvView::Tok(TokenView::Number(n)) => {
            if f64_significand(n.bits) == 0 {
                Some((n.bits, 0nat))
            } else {
                None
            }
        },
        _ => None,
    }
}

/// Value of a media feature `name: v` (`v` without whitespace); `None`
/// for an unknown feature or a value it does not take.
pub open spec fn feature_value(name: Seq<char>, v: Seq<CvView>, ctx: MediaContext) -> Option<bool> {
    if v.len() != 1 {
        None
    } else if eq_ascii_ci(name, "orientation"@) {
        if is_ident_ci(v[0], "portrait"@) {
            Some(f64_scaled_le(ctx.viewport_w, 0, ctx.viewport_h))
        } else if is_ident_ci(v[0], "landscape"@) {
            Some(f64_scaled_gt(ctx.viewport_w, 0, ctx.viewport_h))
        } else {
            None
        }
    } else {
        match media_length(v[0]) {
            None => None,
            Some(l) => {
                if eq_ascii_ci(name, "min-width"@) {
                    Some(f64_scaled_le(l.0, l.1, ctx.viewport_w))
                } else if eq_ascii_ci(name, "max-width"@) {
                    Some(f64_scaled_ge(l.0, l.1, ctx.viewport_w))
                } else if eq_ascii_ci(name, "min-height"@) {
                    Some(f64_scaled_le(l.0, l.1, ctx.viewport_h))
                } else if eq_ascii_ci(name, "max-height"@) {
                    Some(f64_scaled_ge(l.0, l.1, ctx.viewport_h))
                } else {
                    None
                }
            },
        }
    }
}

/// Contents of a parenthesised block that is not a condition: a media
/// feature `ident : value`, or anything else (unknown).
pub open spec fn feature_or_enclosed(t: Seq<CvView>, ctx: MediaContext) -> Option<bool> {
    if t.len() >= 3 && t[1] == CvView::Tok(TokenView::Colon) {
        match t[0] {
            CvView::Tok(TokenView::Ident(name)) => feature_value(name, t.subrange(2, t.len() as int), ctx),
            _ => None,
        }
    } else {
        None
    }
}

/// `<media-in-parens>`: `None` when malformed, else its three-valued value.
pub open spec fn mq_in_parens(c: CvView, ctx: MediaContext) -> Option<Option<bool>>
    decreases cv_size(c), 0nat,
{
    match c {
        CvView::Block(k, body) => {
            if k == BlockKind::Paren {
                proof {
                    lemma_strip_ws_size(body);
                }
                let t = strip_ws(body);
                match mq_condition(t, true, ctx) {
                    Some(r) => Some(r),
                    None => Some(feature_or_enclosed(t, ctx)),
                }
            } else {
                None
            }
        },
        CvView::Func(_, _) => Some(None),
        _ => None,
    }
}

/// `<media-in-parens> [ op <media-in-parens> ]*` with one operator `and`
/// (`is_and`) or `or` throughout, over whitespace-free values.
pub open spec fn mq_chain(t: Seq<CvView>, is_and: bool, ctx: MediaContext) -> Option<Option<bool>>
    decreases seq_size(t), 1nat,
{
    if t.len() == 0 {
        None
    } else if t.len() == 1 {
        proof {
            lemma_size_elem(t, 0);
        }
        mq_in_parens(t[0], ctx)
    } else if t.len() >= 3 && is_ident_ci(t[t.len() - 2], if is_and { "and"@ } else { "or"@ }) {
        proof {
            lemma_size_elem(t, t.len() - 1);
            lemma_size_split(t, t.len() - 2);
            lemma_sizes_pos(t.subrange(t.len() - 2, t.len() as int));
        }
        match mq_chain(t.take(t.len() - 2), is_and, ctx) {
            Some(a) => match mq_in_parens(t[t.len() - 1], ctx) {
                Some(b) => Some(if is_and { k_and(a, b) } else { k_or(a, b) }),
                None => None,
            },
            None => None,
        }
    } else {
        None
    }
}

/// `<media-condition>`, or `<media-condition-without-or>` when `allow_or`
/// is false, over whitespace-free values.
pub open spec fn mq_condition(t: Seq<CvView>, allow_or: bool, ctx: MediaContext) -> Option<Option<bool>>
    decreases seq_size(t), 2nat,
{
    if t.len() == 0 {
        None
    } else if is_ident_ci(t[0], "not"@) {
        if t.len() == 2 {
            proof {
                lemma_size_elem(t, 1);
            }
            match mq_in_parens(t[1], ctx) {
                Some(v) => Some(k_not(v)),
                None => None,
            }
        } else {
            None
        }
    } else if t.len() == 1 {
        mq_chain(t, true, ctx)
    } else if is_ident_ci(t[1], "and"@) {
        mq_chain(t, true, ctx)
    } else if allow_or && is_ident_ci(t[1], "or"@) {
        mq_chain(t, false, ctx)
    } else {
        None
    }
}

/// Words that cannot name a media type.
pub open spec fn reserved_media_type(ty: Seq<char>) -> bool {
    eq_ascii_ci(ty, "not"@) || eq_ascii_ci(ty, "only"@) || eq_ascii_ci(ty, "and"@) || eq_ascii_ci(ty, "or"@)
        || eq_ascii_ci(ty, "layer"@)
}

/// Whether a media type named `name` (ASCII case-insensitively) matches
/// the current media type: `all` always, `screen` and `print` when the
/// current type is that one, any other type never.
pub open spec fn media_type_named(current: Seq<char>, name: Seq<char>) -> bool {
    if eq_ascii_ci(name, "all"@) {
        true
    } else if eq_ascii_ci(name, "screen"@) {
        current == "screen"@
    } else if eq_ascii_ci(name, "print"@) {
        current == "print"@
    } else {
        false
    }
}

/// Whether a media type matches the environment (see [`media_type_named`]).
pub open spec fn media_type_matches(ty: Seq<char>, ctx: MediaContext) -> bool {
    media_type_named(ctx.media_type@, ty)
}

/// `<media-type> [ and <media-condition-without-or> ]?`.
pub open spec fn mq_type_query(t: Seq<CvView>, ctx: MediaContext) -> Option<Option<bool>> {
    if t.len() == 0 {
        None
    } else {
        match t[0] {
            CvView::Tok(TokenView::Ident(ty)) => {
                if reserved_media_type(ty) {
                    None
                } else if t.len() == 1 {
                    Some(Some(media_type_matches(ty, ctx)))
                } else if t.len() >= 3 && is_ident_ci(t[1], "and"@) {
                    match mq_condition(t.subrange(2, t.len() as int), false, ctx) {
                        Some(c) => Some(k_and(Some(media_type_matches(ty, ctx)), c)),
                        None => None,
                    }
                } else {
                    None
                }
            },
            _ => None,
        }
    }
}

/// `<media-query>` over whitespace-free values: a condition, or an
/// optionally `not`/`only`-prefixed type query.
pub open spec fn mq_query(t: Seq<CvView>, ctx: MediaContext) -> Option<Option<bool>> {
    if t.len() == 0 {
        None
    } else if is_ident_ci(t[0], "not"@) {
        if t.len() >= 2 && is_ident(t[1]) {
            match mq_type_query(t.subrange(1, t.len() as int), ctx) {
                Some(v) => Some(k_not(v)),
                None => None,
            }
        } else {
            mq_condition(t, true, ctx)
        }
    } else if is_ident_ci(t[0], "only"@) {
        if t.len() >= 2 && is_ident(t[1]) {
            mq_type_query(t.subrange(1, t.len() as int), ctx)
        } else {
            None
        }
    } else if is_ident(t[0]) {
        mq_type_query(t, ctx)
    } else {
        mq_condition(t, true, ctx)
    }
}

/// One query of a list holds: it is well formed and true (malformed is
/// `not all`, unknown is false).
pub open spec fn query_holds(seg: Seq<CvView>, ctx: MediaContext) -> bool {
    mq_query(strip_ws(seg), ctx) == Some(Some(true))
}

/// A media query list holds when it is empty or one of its queries holds.
pub open spec fn media_list_holds(s: Seq<CvView>, ctx: MediaContext) -> bool {
    strip_ws(s).len() == 0 || exists|i: int| 0 <= i < comma_segments(s).len() && #[trigger] query_holds(comma_segments(s)[i], ctx)
}

// ── evaluation ───────────────────────────────────────────────────────────

fn nan_bits(bits: u64) -> (r: bool)
    ensures
        r == f64_is_nan(bits),
{
    ((bits >> 52u64) & 0x7ffu64) == 0x7ffu64 && (bits & 0xf_ffff_ffff_ffffu64) != 0
}

pub(crate) fn zero_bits(bits: u64) -> (r: bool)
    ensures
        r == (f64_significand(bits) == 0),
{
    proof {
        lemma2_to64_rest();
        assert(((bits & 0x7fff_ffff_ffff_ffffu64) == 0u64) == (((bits >> 52u64) & 0x7ffu64) == 0u64 && (bits
            & 0xf_ffff_ffff_ffffu64) == 0u64)) by (bit_vector);
    }
    (bits & 0x7fff_ffff_ffff_ffffu64) == 0
}

fn media_length_of(c: &ComponentValue) -> (r: Option<(u64, u32)>)
    ensures
        match r {
            Some(l) => media_length(c@) == Some((l.0, l.1 as nat)) && l.1 <= 4 && !f64_is_nan(l.0),
            None => media_length(c@) is None,
        },
{
    match c {
        ComponentValue::PreservedToken(Token::Dimension(n, u)) => {
            if nan_bits(n.bits) {
                None
            } else if eq_ignore_ascii_case(u.as_str(), "px") {
                Some((n.bits, 0))
            } else if eq_ignore_ascii_case(u.as_str(), "em") || eq_ignore_ascii_case(u.as_str(), "rem") {
                Some((n.bits, 4))
            } else {
                None
            }
        },
        ComponentValue::PreservedToken(Token::Number(n)) => {
            if zero_bits(n.bits) {
                Some((n.bits, 0))
            } else {
                None
            }
        },
        _ => None,
    }
}

fn scaled_le(a: u64, k: u32, b: u64) -> (r: bool)
    requires
        k <= 4,
    ensures
        r == f64_scaled_le(a, k as nat, b),
{
    !nan_bits(a) && !nan_bits(b) && f64_scaled_compare(a, k, b) <= 0
}

fn scaled_ge(a: u64, k: u32, b: u64) -> (r: bool)
    requires
        k <= 4,
    ensures
        r == f64_scaled_ge(a, k as nat, b),
{
    !nan_bits(a) && !nan_bits(b) && f64_scaled_compare(a, k, b) >= 0
}

fn scaled_gt(a: u64, k: u32, b: u64) -> (r: bool)
    requires
        k <= 4,
    ensures
        r == f64_scaled_gt(a, k as nat, b),
{
    !nan_bits(a) && !nan_bits(b) && f64_scaled_compare(a, k, b) > 0
}

fn feature_value_of(name: &str, v: &[ComponentValue], ctx: &MediaContext) -> (r: Option<bool>)
    ensures
        r == feature_value(name@, cvs_view(v@), *ctx),
{
    proof {
        lemma_cvs_view_len(v@);
    }
    if v.len() != 1 {
        return None;
    }
    proof {
        lemma_cvs_view_index(v@, 0);
    }
    if eq_ignore_ascii_case(name, "orientation") {
        if ident_is(&v[0], "portrait") {
            Some(scaled_le(ctx.viewport_w, 0, ctx.viewport_h))
        } else if ident_is(&v[0], "landscape") {
            Some(scaled_gt(ctx.viewport_w, 0, ctx.viewport_h))
        } else {
            None
        }
    } else {
        match media_length_of(&v[0]) {
            None => None,
            Some(l) => {
                if eq_ignore_ascii_case(name, "min-width") {
                    Some(scaled_le(l.0, l.1, ctx.viewport_w))
                } else if eq_ignore_ascii_case(name, "max-width") {
                    Some(scaled_ge(l.0, l.1, ctx.viewport_w))
                } else if eq_ignore_ascii_case(name, "min-height") {
                    Some(scaled_le(l.0, l.1, ctx.viewport_h))
                } else if eq_ignore_ascii_case(name, "max-height") {
                    Some(scaled_ge(l.0, l.1, ctx.viewport_h))
                } else {
                    None
                }
            },
        }
    }
}

fn feature_or_enclosed_of(t: &[ComponentValue], ctx: &MediaContext) -> (r: Option<bool>)
    ensures
        r == feature_or_enclosed(cvs_view(t@), *ctx),
{
    proof {
        lemma_cvs_view_len(t@);
    }
    if t.len() < 3 {
        return None;
    }
    proof {
        lemma_cvs_view_index(t@, 0);
        lemma_cvs_view_index(t@, 1);
        lemma_cvs_view_subrange(t@, 2, t@.len() as int);
    }
    match &t[1] {
        ComponentValue::PreservedToken(Token::Colon) => {},
        _ => {
            return None;
        },
    }
    match &t[0] {
        ComponentValue::PreservedToken(Token::Ident(name)) => {
            let v = vstd::slice::slice_subrange(t, 2, t.len());
            feature_value_of(name.as_str(), v, ctx)
        },
        _ => None,
    }
}

fn in_parens_of(c: &ComponentValue, ctx: &MediaContext) -> (r: Option<Option<bool>>)
    ensures
        r == mq_in_parens(c@, *ctx),
    decreases cv_size(c@), 0nat,
{
    match c {
        ComponentValue::SimpleBlock(b) => {
            if b.kind == BlockKind::Paren {
                let t = strip_ws_vec(b.value.as_slice());
                proof {
                    lemma_strip_ws_size(cvs_view(b.value@));
                }
                match condition_of(t.as_slice(), true, ctx) {
                    Some(r) => Some(r),
                    None => Some(feature_or_enclosed_of(t.as_slice(), ctx)),
                }
            } else {
                None
            }
        },
        ComponentValue::Function(_) => Some(None),
        _ => None,
    }
}

fn chain_of(t: &[ComponentValue], is_and: bool, ctx: &MediaContext) -> (r: Option<Option<bool>>)
    ensures
        r == mq_chain(cvs_view(t@), is_and, *ctx),
    decreases seq_size(cvs_view(t@)), 1nat,
{
    let ghost tv = cvs_view(t@);
    proof {
        lemma_cvs_view_len(t@);
    }
    let n = t.len();
    if n == 0 {
        return None;
    }
    if n == 1 {
        proof {
            lemma_cvs_view_index(t@, 0);
            lemma_size_elem(tv, 0);
        }
        return in_parens_of(&t[0], ctx);
    }
    let op: &str = if is_and { "and" } else { "or" };
    if n >= 3 && ident_is(&t[n - 2], op) {
        proof {
            lemma_cvs_view_index(t@, n - 2);
            lemma_cvs_view_index(t@, n - 1);
            lemma_cvs_view_subrange(t@, 0, n - 2);
            assert(tv.subrange(0, n - 2) =~= tv.take(n - 2));
            lemma_size_elem(tv, n - 1);
            lemma_size_split(tv, n - 2);
            lemma_sizes_pos(tv.subrange(n - 2, n as int));
        }
        let prefix = vstd::slice::slice_subrange(t, 0, n - 2);
        match chain_of(prefix, is_and, ctx) {
            Some(a) => match in_parens_of(&t[n - 1], ctx) {
                Some(b) => Some(if is_and { kleene_and(a, b) } else { kleene_or(a, b) }),
                None => None,
            },
            None => None,
        }
    } else {
        proof {
            if n >= 3 {
                lemma_cvs_view_index(t@, n - 2);
            }
        }
        None
    }
}

fn condition_of(t: &[ComponentValue], allow_or: bool, ctx: &MediaContext) -> (r: Option<Option<bool>>)
    ensures
        r == mq_condition(cvs_view(t@), allow_or, *ctx),
    decreases seq_size(cvs_view(t@)), 2nat,
{
    let ghost tv = cvs_view(t@);
    proof {
        lemma_cvs_view_len(t@);
    }
    if t.len() == 0 {
        return None;
    }
    proof {
        lemma_cvs_view_index(t@, 0);
    }
    if ident_is(&t[0], "not") {
        if t.len() == 2 {
            proof {
                lemma_cvs_view_index(t@, 1);
                lemma_size_elem(tv, 1);
            }
            match in_parens_of(&t[1], ctx) {
                Some(v) => Some(kleene_not(v)),
                None => None,
            }
        } else {
            None
        }
    } else if t.len() == 1 {
        chain_of(t, true, ctx)
    } else {
        proof {
            lemma_cvs_view_index(t@, 1);
        }
        if ident_is(&t[1], "and") {
            chain_of(t, true, ctx)
        } else if allow_or && ident_is(&t[1], "or") {
            chain_of(t, false, ctx)
        } else {
            None
        }
    }
}

/// Whether media type `name` matches the current media type `current`
/// (see [`media_type_named`]); unknown types never match.
pub fn eval_media_type(current: &str, name: &str) -> (r: bool)
    ensures
        r == media_type_named(current@, name@),
{
    if eq_ignore_ascii_case(name, "all") {
        true
    } else if eq_ignore_ascii_case(name, "screen") {
        crate::strutil::str_eq(current, "screen")
    } else if eq_ignore_ascii_case(name, "print") {
        crate::strutil::str_eq(current, "print")
    } else {
        false
    }
}

fn media_type_matches_of(ty: &str, ctx: &MediaContext) -> (r: bool)
    ensures
        r == media_type_matches(ty@, *ctx),
{
    eval_media_type(ctx.media_type, ty)
}

fn type_query_of(t: &[ComponentValue], ctx: &MediaContext) -> (r: Option<Option<bool>>)
    ensures
        r == mq_type_query(cvs_view(t@), *ctx),
{
    proof {
        lemma_cvs_view_len(t@);
    }
    if t.len() == 0 {
        return None;
    }
    proof {
        lemma_cvs_view_index(t@, 0);
    }
    match &t[0] {
        ComponentValue::PreservedToken(Token::Ident(ty)) => {
            let w = ty.as_str();
            if eq_ignore_ascii_case(w, "not") || eq_ignore_ascii_case(w, "only") || eq_ignore_ascii_case(w, "and")
                || eq_ignore_ascii_case(w, "or") || eq_ignore_ascii_case(w, "layer") {
                return None;
            }
            let m = media_type_matches_of(w, ctx);
            if t.len() == 1 {
                return Some(Some(m));
            }
            proof {
                lemma_cvs_view_index(t@, 1);
            }
            if t.len() >= 3 && ident_is(&t[1], "and") {
                proof {
                    lemma_cvs_view_subrange(t@, 2, t@.len() as int);
                }
                let rest = vstd::slice::slice_subrange(t, 2, t.len());
                match condition_of(rest, false, ctx) {
                    Some(c) => Some(kleene_and(Some(m), c)),
                    None => None,
                }
            } else {
                None
            }
        },
        _ => None,
    }
}

fn query_of(t: &[ComponentValue], ctx: &MediaContext) -> (r: Option<Option<bool>>)
    ensures
        r == mq_query(cvs_view(t@), *ctx),
{
    proof {
        lemma_cvs_view_len(t@);
    }
    if t.len() == 0 {
        return None;
    }
    proof {
        lemma_cvs_view_index(t@, 0);
        if t@.len() >= 2 {
            lemma_cvs_view_index(t@, 1);
        }
        lemma_cvs_view_subrange(t@, 1, t@.len() as int);
    }
    if ident_is(&t[0], "not") {
        if t.len() >= 2 && ident_at(&t[1]) {
            let rest = vstd::slice::slice_subrange(t, 1, t.len());
            match type_query_of(rest, ctx) {
                Some(v) => Some(kleene_not(v)),
                None => None,
            }
        } else {
            condition_of(t, true, ctx)
        }
    } else if ident_is(&t[0], "only") {
        if t.len() >= 2 && ident_at(&t[1]) {
            let rest = vstd::slice::slice_subrange(t, 1, t.len());
            type_query_of(rest, ctx)
        } else {
            None
        }
    } else if ident_at(&t[0]) {
        type_query_of(t, ctx)
    } else {
        condition_of(t, true, ctx)
    }
}

/// Evaluates a media query list (an `@media` prelude or a sheet's `media`
/// list) against `media`: true when the list is empty or one of its
/// comma-separated queries is well formed and true.
pub fn eval_media_query(media: &MediaContext, condition: &[ComponentValue]) -> (r: bool)
    ensures
        r == media_list_holds(cvs_view(condition@), *media),
{
    let ghost sv = cvs_view(condition@);
    let stripped = strip_ws_vec(condition);
    proof {
        lemma_cvs_view_len(stripped@);
    }
    if stripped.len() == 0 {
        return true;
    }
    let segs = split_commas(condition);
    let mut i: usize = 0;
    while i < segs.len()
        invariant
            i <= segs@.len(),
            sv == cvs_view(condition@),
            segment_views(segs@) == comma_segments(sv),
            forall|j: int| 0 <= j < i ==> !#[trigger] query_holds(comma_segments(sv)[j], *media),
        decreases segs.len() - i,
    {
        assert(segment_views(segs@)[i as int] == cvs_view(segs@[i as int]@));
        let t = strip_ws_vec(segs[i].as_slice());
        let q = query_of(t.as_slice(), media);
        match q {
            Some(Some(true)) => {
                assert(query_holds(comma_segments(sv)[i as int], *media));
                return true;
            },
            _ => {},
        }
        i += 1;
    }
    false
}

// ── laws ─────────────────────────────────────────────────────────────────

/// Law: the `only` modifier does not change a
/// media-type query.
pub proof fn lemma_only_is_transparent(t: Seq<CvView>, ctx: MediaContext)
    requires
        t.len() >= 1,
        is_ident(t[0]),
        !is_ident_ci(t[0], "not"@),
        !is_ident_ci(t[0], "only"@),
    ensures
        mq_query(seq![CvView::Tok(TokenView::Ident("only"@))] + t, ctx) == mq_query(t, ctx),
{
    let u = seq![CvView::Tok(TokenView::Ident("only"@))] + t;
    reveal_strlit("only");
    reveal_strlit("not");
    assert(u[0] == CvView::Tok(TokenView::Ident("only"@)));
    assert(crate::strutil::ascii_lower("only"@).len() == 4);
    assert(crate::strutil::ascii_lower("not"@).len() == 3);
    assert(!eq_ascii_ci("only"@, "not"@));
    assert(u[1] == t[0]);
    assert(u.subrange(1, u.len() as int) =~= t);
}

/// Splitting at a comma: the segments of `a , b` are those of `a` then
/// those of `b`.
pub proof fn lemma_comma_segments_concat(a: Seq<CvView>, b: Seq<CvView>)
    ensures
        comma_segments(a + seq![CvView::Tok(TokenView::Comma)] + b) == comma_segments(a) + comma_segments(b),
    decreases b.len(),
{
    let c = CvView::Tok(TokenView::Comma);
    let x = a + seq![c] + b;
    if b.len() == 0 {
        assert(x =~= a.push(c));
        assert(a.push(c).drop_last() =~= a);
        assert(comma_segments(b) =~= seq![seq![]]);
        assert(comma_segments(a).push(seq![]) =~= comma_segments(a) + comma_segments(b));
    } else {
        let b1 = b.drop_last();
        lemma_comma_segments_concat(a, b1);
        lemma_comma_segments_nonempty(b1);
        lemma_comma_segments_nonempty(a);
        assert(x.drop_last() =~= a + seq![c] + b1);
        assert(x.last() == b.last());
        let p = comma_segments(a) + comma_segments(b1);
        if b.last() == c {
            assert(p.push(seq![]) =~= comma_segments(a) + comma_segments(b1).push(seq![]));
        } else {
            let q = comma_segments(b1);
            assert(p.update(p.len() - 1, p.last().push(b.last())) =~= comma_segments(a) + q.update(q.len() - 1, q.last().push(b.last())));
        }
    }
}

proof fn lemma_strip_ws_concat(a: Seq<CvView>, b: Seq<CvView>)
    ensures
        strip_ws(a + b) == strip_ws(a) + strip_ws(b),
    decreases b.len(),
{
    if b.len() == 0 {
        assert(a + b =~= a);
        assert(strip_ws(a) + strip_ws(b) =~= strip_ws(a));
    } else {
        lemma_strip_ws_concat(a, b.drop_last());
        assert((a + b).drop_last() =~= a + b.drop_last());
        assert((a + b).last() == b.last());
        if b.last() != CvView::Tok(TokenView::Whitespace) {
            assert((strip_ws(a) + strip_ws(b.drop_last())).push(b.last()) =~= strip_ws(a) + strip_ws(b.drop_last()).push(b.last()));
        }
    }
}

/// Law: a comma-separated list holds when either
/// side holds; a malformed query on one side does not affect the other.
pub proof fn lemma_media_list_is_or(a: Seq<CvView>, b: Seq<CvView>, ctx: MediaContext)
    requires
        strip_ws(a).len() > 0,
        strip_ws(b).len() > 0,
    ensures
        media_list_holds(a + seq![CvView::Tok(TokenView::Comma)] + b, ctx) == (media_list_holds(a, ctx) || media_list_holds(b, ctx)),
{
    let c = CvView::Tok(TokenView::Comma);
    let x = a + seq![c] + b;
    lemma_comma_segments_concat(a, b);
    lemma_strip_ws_concat(a + seq![c], b);
    lemma_strip_ws_concat(a, seq![c]);
    let sa = comma_segments(a);
    let sb = comma_segments(b);
    let sx = comma_segments(x);
    if media_list_holds(x, ctx) {
        let i = choose|i: int| 0 <= i < sx.len() && #[trigger] query_holds(sx[i], ctx);
        if i < sa.len() {
            assert(sx[i] == sa[i]);
        } else {
            assert(sx[i] == sb[i - sa.len()]);
            assert(query_holds(sb[i - sa.len()], ctx));
        }
    }
    if media_list_holds(a, ctx) {
        let i = choose|i: int| 0 <= i < sa.len() && #[trigger] query_holds(sa[i], ctx);
        assert(sx[i] == sa[i]);
    }
    if media_list_holds(b, ctx) {
        let i = choose|i: int| 0 <= i < sb.len() && #[trigger] query_holds(sb[i], ctx);
        assert(sx[i + sa.len()] == sb[i]);
    }
}

/// Law: `not` before a media-type query negates the
/// whole query in three-valued logic (an unknown result stays unknown, a
/// malformed query stays malformed).
pub proof fn lemma_not_negates_type_query(t: Seq<CvView>, ctx: MediaContext)
    requires
        t.len() >= 1,
        is_ident(t[0]),
        !is_ident_ci(t[0], "not"@),
        !is_ident_ci(t[0], "only"@),
    ensures
        mq_query(seq![CvView::Tok(TokenView::Ident("not"@))] + t, ctx) == match mq_query(t, ctx) {
            Some(v) => Some(k_not(v)),
            None => None::<Option<bool>>,
        },
{
    let u = seq![CvView::Tok(TokenView::Ident("not"@))] + t;
    assert(u[0] == CvView::Tok(TokenView::Ident("not"@)));
    assert(u[1] == t[0]);
    assert(u.subrange(1, u.len() as int) =~= t);
}


// ── size features ────────────────────────────────────────────────────────

/// Whether a width or height feature with a length (bits, in px) holds:
/// `min-width` when the length is at most the viewport width, `max-width`
/// when at least, and the same for `min-height` and `max-height`.
pub open spec fn size_feature_holds(f: Seq<char>, bits: u64, ctx: MediaContext) -> bool {
    if f == "min-width"@ {
        f64_scaled_le(bits, 0, ctx.viewport_w)
    } else if f == "max-width"@ {
        f64_scaled_ge(bits, 0, ctx.viewport_w)
    } else if f == "min-height"@ {
        f64_scaled_le(bits, 0, ctx.viewport_h)
    } else {
        f64_scaled_ge(bits, 0, ctx.viewport_h)
    }
}

/// One of the four size feature names.
pub open spec fn is_size_feature(f: Seq<char>) -> bool {
    f == "min-width"@ || f == "max-width"@ || f == "min-height"@ || f == "max-height"@
}

/// The block `(f: <length>px)` as the tokenizer gives it.
pub open spec fn size_feature_block(f: Seq<char>, n: Numeric) -> CvView {
    CvView::Block(BlockKind::Paren, seq![
        CvView::Tok(TokenView::Ident(f)),
        CvView::Tok(TokenView::Colon),
        CvView::Tok(TokenView::Whitespace),
        CvView::Tok(TokenView::Dimension(n, "px"@)),
    ])
}

proof fn lemma_comma_free_segments(s: Seq<CvView>)
    requires
        forall|i: int| 0 <= i < s.len() ==> s[i] != CvView::Tok(TokenView::Comma),
    ensures
        comma_segments(s) == seq![s],
    decreases s.len(),
{
    if s.len() == 0 {
        assert(s =~= Seq::<CvView>::empty());
        assert(comma_segments(s) =~= seq![s]);
    } else {
        let p = s.drop_last();
        assert forall|i: int| 0 <= i < p.len() implies p[i] != CvView::Tok(TokenView::Comma) by {
            assert(p[i] == s[i]);
        }
        lemma_comma_free_segments(p);
        assert(s[s.len() - 1] != CvView::Tok(TokenView::Comma));
        assert(p.push(s.last()) =~= s);
        assert(comma_segments(s) =~= seq![s]);
    }
}

proof fn lemma_size_feature_in_parens(f: Seq<char>, n: Numeric, ctx: MediaContext)
    requires
        is_size_feature(f),
        !f64_is_nan(n.bits),
    ensures
        mq_in_parens(size_feature_block(f, n), ctx) == Some(Some(size_feature_holds(f, n.bits, ctx))),
{
    reveal_strlit("min-width");
    reveal_strlit("max-width");
    reveal_strlit("min-height");
    reveal_strlit("max-height");
    reveal_strlit("orientation");
    reveal_strlit("not");
    reveal_strlit("px");
    let d = CvView::Tok(TokenView::Dimension(n, "px"@));
    let body = seq![CvView::Tok(TokenView::Ident(f)), CvView::Tok(TokenView::Colon), CvView::Tok(TokenView::Whitespace), d];
    let t = seq![CvView::Tok(TokenView::Ident(f)), CvView::Tok(TokenView::Colon), d];
    assert(strip_ws(body) =~= t) by {
        reveal_with_fuel(strip_ws, 5);
        assert(body.drop_last() =~= seq![CvView::Tok(TokenView::Ident(f)), CvView::Tok(TokenView::Colon), CvView::Tok(TokenView::Whitespace)]);
        assert(body.drop_last().drop_last() =~= seq![CvView::Tok(TokenView::Ident(f)), CvView::Tok(TokenView::Colon)]);
        assert(body.drop_last().drop_last().drop_last() =~= seq![CvView::Tok(TokenView::Ident(f))]);
        assert(body.drop_last().drop_last().drop_last().drop_last() =~= Seq::<CvView>::empty());
    }
    assert(f.len() >= 9);
    assert(ascii_lower(f).len() == f.len());
    assert(!eq_ascii_ci(f, "not"@));
    assert(!eq_ascii_ci(f, "orientation"@));
    assert(mq_condition(t, true, ctx) is None);
    assert(t.subrange(2, 3) =~= seq![d]);
    assert(eq_ascii_ci("px"@, "px"@));
    assert(media_length(d) == Some((n.bits, 0nat)));
    let lmin = ascii_lower("min-width"@);
    assert(lmin[1] == 'i');
    let lmax = ascii_lower("max-width"@);
    assert(lmax[1] == 'a');
    let lminh = ascii_lower("min-height"@);
    assert(lminh[1] == 'i');
    let lmaxh = ascii_lower("max-height"@);
    assert(lmaxh[1] == 'a');
    assert(eq_ascii_ci(f, "min-width"@) == (f == "min-width"@));
    assert(eq_ascii_ci(f, "max-width"@) == (f == "max-width"@));
    assert(eq_ascii_ci(f, "min-height"@) == (f == "min-height"@));
    assert(eq_ascii_ci(f, "max-height"@) == (f == "max-height"@));
}

proof fn lemma_single_query_list(s: Seq<CvView>, t: Seq<CvView>, ctx: MediaContext)
    requires
        forall|i: int| 0 <= i < s.len() ==> s[i] != CvView::Tok(TokenView::Comma),
        strip_ws(s) == t,
        t.len() > 0,
    ensures
        media_list_holds(s, ctx) == (mq_query(t, ctx) == Some(Some(true))),
{
    lemma_comma_free_segments(s);
    assert(comma_segments(s)[0] == s);
    if mq_query(t, ctx) == Some(Some(true)) {
        assert(query_holds(comma_segments(s)[0], ctx));
    }
    if media_list_holds(s, ctx) {
        let i = choose|i: int| 0 <= i < comma_segments(s).len() && #[trigger] query_holds(comma_segments(s)[i], ctx);
        assert(i == 0);
    }
}

proof fn lemma_media_word_facts()
    ensures
        !reserved_media_type("print"@),
        !reserved_media_type("screen"@),
        !eq_ascii_ci("print"@, "all"@) && !eq_ascii_ci("print"@, "screen"@) && eq_ascii_ci("print"@, "print"@),
        !eq_ascii_ci("screen"@, "all"@) && eq_ascii_ci("screen"@, "screen"@),
        !eq_ascii_ci("print"@, "only"@) && !eq_ascii_ci("screen"@, "only"@),
        !eq_ascii_ci("print"@, "not"@) && !eq_ascii_ci("screen"@, "not"@),
        eq_ascii_ci("not"@, "not"@) && eq_ascii_ci("and"@, "and"@),
        "screen"@ != "print"@,
{
    reveal_strlit("not");
    reveal_strlit("only");
    reveal_strlit("and");
    reveal_strlit("or");
    reveal_strlit("layer");
    reveal_strlit("all");
    reveal_strlit("print");
    reveal_strlit("screen");
    assert(ascii_lower("not"@).len() == 3 && ascii_lower("only"@).len() == 4 && ascii_lower("and"@).len() == 3);
    assert(ascii_lower("or"@).len() == 2 && ascii_lower("layer"@).len() == 5 && ascii_lower("all"@).len() == 3);
    assert(ascii_lower("print"@).len() == 5 && ascii_lower("screen"@).len() == 6);
    assert(ascii_lower("print"@)[0] == 'p' && ascii_lower("layer"@)[0] == 'l');
}

/// Law: a size feature `(F: Lpx)` (F one of `min-width`, `max-width`,
/// `min-height`, `max-height`) holds exactly when the viewport is at
/// least (`min-`) or at most (`max-`) the length; `not (F: Lpx)` holds
/// exactly when it does not; on a screen, `print and (F: Lpx)` never holds
/// and `screen and (F: Lpx)` holds exactly when the feature does.
pub proof fn lemma_size_feature_queries(f: Seq<char>, n: Numeric, ctx: MediaContext)
    requires
        is_size_feature(f),
        !f64_is_nan(n.bits),
    ensures
        media_list_holds(seq![size_feature_block(f, n)], ctx) == size_feature_holds(f, n.bits, ctx),
        media_list_holds(seq![
            CvView::Tok(TokenView::Ident("not"@)), CvView::Tok(TokenView::Whitespace), size_feature_block(f, n),
        ], ctx) == !size_feature_holds(f, n.bits, ctx),
        ctx.media_type@ == "screen"@ ==> !media_list_holds(seq![
            CvView::Tok(TokenView::Ident("print"@)), CvView::Tok(TokenView::Whitespace),
            CvView::Tok(TokenView::Ident("and"@)), CvView::Tok(TokenView::Whitespace), size_feature_block(f, n),
        ], ctx),
        ctx.media_type@ == "screen"@ ==> media_list_holds(seq![
            CvView::Tok(TokenView::Ident("screen"@)), CvView::Tok(TokenView::Whitespace),
            CvView::Tok(TokenView::Ident("and"@)), CvView::Tok(TokenView::Whitespace), size_feature_block(f, n),
        ], ctx) == size_feature_holds(f, n.bits, ctx),
{
    lemma_media_word_facts();
    let q = size_feature_block(f, n);
    let w = CvView::Tok(TokenView::Whitespace);
    let b = size_feature_holds(f, n.bits, ctx);
    lemma_size_feature_in_parens(f, n, ctx);
    let not_ = CvView::Tok(TokenView::Ident("not"@));
    let and_ = CvView::Tok(TokenView::Ident("and"@));
    let print_ = CvView::Tok(TokenView::Ident("print"@));
    let screen_ = CvView::Tok(TokenView::Ident("screen"@));
    // (F: L)
    let s1 = seq![q];
    assert(strip_ws(s1) =~= s1) by {
        reveal_with_fuel(strip_ws, 2);
        assert(s1.drop_last() =~= Seq::<CvView>::empty());
    }
    assert(mq_chain(s1, true, ctx) == Some(Some(b)));
    assert(mq_query(s1, ctx) == Some(Some(b)));
    lemma_single_query_list(s1, s1, ctx);
    // not (F: L)
    let s2 = seq![not_, w, q];
    let t2 = seq![not_, q];
    assert(strip_ws(s2) =~= t2) by {
        reveal_with_fuel(strip_ws, 4);
        assert(s2.drop_last() =~= seq![not_, w]);
        assert(s2.drop_last().drop_last() =~= seq![not_]);
        assert(s2.drop_last().drop_last().drop_last() =~= Seq::<CvView>::empty());
    }
    assert(mq_condition(t2, true, ctx) == Some(k_not(Some(b))));
    assert(mq_query(t2, ctx) == Some(Some(!b)));
    lemma_single_query_list(s2, t2, ctx);
    // <type> and (F: L)
    let tail = seq![q];
    assert(mq_condition(tail, false, ctx) == Some(Some(b)));
    let s3 = seq![print_, w, and_, w, q];
    let t3 = seq![print_, and_, q];
    assert(strip_ws(s3) =~= t3) by {
        reveal_with_fuel(strip_ws, 6);
        assert(s3.drop_last() =~= seq![print_, w, and_, w]);
        assert(s3.drop_last().drop_last() =~= seq![print_, w, and_]);
        assert(s3.drop_last().drop_last().drop_last() =~= seq![print_, w]);
        assert(s3.drop_last().drop_last().drop_last().drop_last() =~= seq![print_]);
        assert(s3.drop_last().drop_last().drop_last().drop_last().drop_last() =~= Seq::<CvView>::empty());
    }
    assert(t3.subrange(2, 3) =~= tail);
    lemma_single_query_list(s3, t3, ctx);
    let s4 = seq![screen_, w, and_, w, q];
    let t4 = seq![screen_, and_, q];
    assert(strip_ws(s4) =~= t4) by {
        reveal_with_fuel(strip_ws, 6);
        assert(s4.drop_last() =~= seq![screen_, w, and_, w]);
        assert(s4.drop_last().drop_last() =~= seq![screen_, w, and_]);
        assert(s4.drop_last().drop_last().drop_last() =~= seq![screen_, w]);
        assert(s4.drop_last().drop_last().drop_last().drop_last() =~= seq![screen_]);
        assert(s4.drop_last().drop_last().drop_last().drop_last().drop_last() =~= Seq::<CvView>::empty());
    }
    assert(t4.subrange(2, 3) =~= tail);
    lemma_single_query_list(s4, t4, ctx);
    if ctx.media_type@ == "screen"@ {
        assert(!media_type_matches("print"@, ctx));
        assert(media_type_matches("screen"@, ctx));
        assert(mq_type_query(t3, ctx) == Some(Some(false)));
        assert(mq_query(t3, ctx) == Some(Some(false)));
        assert(mq_type_query(t4, ctx) == Some(Some(b)));
        assert(mq_query(t4, ctx) == Some(Some(b)));
    }
}
} // verus!
