//! Number formats of quantised weights, as bit patterns.
//!
//! Single-precision values appear as their IEEE bit pattern in a [`Scalar`].
//! Magnitudes are compared as exact integers: a single-precision magnitude in
//! units of 2^-149, an e4m3 magnitude in units of 2^-9.
use crate::device::Scalar;
use vstd::arithmetic::power2::{lemma2_to64, lemma_pow2_adds, lemma_pow2_pos, pow2};
use vstd::prelude::*;

verus! {

// ---- single precision ------------------------------------------------------

/// Biased exponent field of a single-precision pattern.
pub open spec fn f32_exp(bits: int) -> int {
    bits / 0x80_0000 % 0x100
}

/// Mantissa field of a single-precision pattern.
pub open spec fn f32_mant(bits: int) -> int {
    bits % 0x80_0000
}

pub open spec fn f32_is_nan(bits: int) -> bool {
    f32_exp(bits) == 0xff && f32_mant(bits) != 0
}

pub open spec fn f32_negative(bits: int) -> bool {
    bits >= 0x8000_0000
}

/// Magnitude of a finite single-precision pattern, in units of 2^-149.
pub open spec fn f32_units(bits: int) -> int {
    if f32_exp(bits) == 0 {
        f32_mant(bits)
    } else {
        (0x80_0000 + f32_mant(bits)) * pow2((f32_exp(bits) - 1) as nat)
    }
}

// ---- e4m3 -------------------------------------------------------------------

pub open spec fn e4m3_is_nan(b: int) -> bool {
    b % 0x80 == 0x7f
}

/// Magnitude of an e4m3 code, in units of 2^-9.
pub open spec fn e4m3_units(b: int) -> int {
    let exp = b / 8 % 16;
    let mant = b % 8;
    if exp == 0 {
        mant
    } else {
        (8 + mant) * pow2((exp - 1) as nat)
    }
}

/// 2^-9 in units of 2^-149.
pub open spec fn unit_ratio() -> int {
    pow2(140) as int
}

/// `r` has the value of e4m3 code `b`, or is no number where `b` is none.
pub open spec fn e4m3_decodes(b: u8, r: Scalar) -> bool {
    if e4m3_is_nan(b as int) {
        f32_is_nan(r.0 as int)
    } else {
        &&& f32_exp(r.0 as int) < 0xff
        &&& f32_negative(r.0 as int) == (b >= 0x80)
        &&& f32_units(r.0 as int) == e4m3_units(b as int) * unit_ratio()
    }
}

/// Decodes an e4m3 byte to the single-precision pattern of the same value.
pub fn e4m3_to_f32(b: u8) -> (r: Scalar)
    ensures
        e4m3_decodes(b, r),
{
    let sign: u32 = if b >= 0x80 {
        0x8000_0000
    } else {
        0
    };
    let exp: u32 = ((b / 8) % 16) as u32;
    let mant: u32 = (b % 8) as u32;
    proof {
        lemma_decode_units(exp as int, mant as int);
    }
    if exp == 15 && mant == 7 {
        return Scalar(0x7fc0_0000);
    }
    let mag: u32 = if exp != 0 {
        (exp + 120) * 0x80_0000 + mant * 0x10_0000
    } else if mant >= 4 {
        120 * 0x80_0000 + (mant - 4) * 0x20_0000
    } else if mant >= 2 {
        119 * 0x80_0000 + (mant - 2) * 0x40_0000
    } else if mant == 1 {
        118 * 0x80_0000
    } else {
        0
    };
    Scalar(sign + mag)
}

proof fn lemma_decode_units(exp: int, mant: int)
    requires
        0 <= exp < 16,
        0 <= mant < 8,
    ensures
        exp >= 1 ==> (0x80_0000 + mant * 0x10_0000) * pow2((exp + 119) as nat) == (8 + mant) * pow2(
            (exp - 1) as nat,
        ) * unit_ratio(),
        4 <= mant ==> (0x80_0000 + (mant - 4) * 0x20_0000) * pow2(119) == mant * unit_ratio(),
        2 <= mant < 4 ==> (0x80_0000 + (mant - 2) * 0x40_0000) * pow2(118) == mant * unit_ratio(),
        mant == 1 ==> 0x80_0000 * pow2(117) == mant * unit_ratio(),
{
    lemma2_to64();
    if exp >= 1 {
        let p = pow2((exp - 1) as nat);
        lemma_pow2_adds((exp - 1) as nat, 120);
        lemma_pow2_adds(20, 120);
        let u = pow2(120);
        assert((0x80_0000 + mant * 0x10_0000) * (p * u) == (8 + mant) * p * (0x10_0000 * u))
            by (nonlinear_arith);
    }
    lemma_pow2_adds(21, 119);
    lemma_pow2_adds(22, 118);
    lemma_pow2_adds(23, 117);
    let a = pow2(119);
    let b = pow2(118);
    let c = pow2(117);
    assert((0x80_0000 + (mant - 4) * 0x20_0000) * a == mant * (0x20_0000 * a)) by (nonlinear_arith);
    assert((0x80_0000 + (mant - 2) * 0x40_0000) * b == mant * (0x40_0000 * b)) by (nonlinear_arith);
}

/// `r` has the value of e4m3 code `b`, or is zero where `b` is no number.
pub open spec fn e4m3_byte_decodes(b: u8, r: Scalar) -> bool {
    if e4m3_is_nan(b as int) {
        r == Scalar(0)
    } else {
        e4m3_decodes(b, r)
    }
}

/// Decodes an e4m3 byte like [`e4m3_to_f32`], but the two codes that are no
/// number to zero.
pub fn e4m3_byte_to_f32(b: u8) -> (r: Scalar)
    ensures
        e4m3_byte_decodes(b, r),
{
    if b % 0x80 == 0x7f {
        Scalar(0)
    } else {
        e4m3_to_f32(b)
    }
}

/// Distance of `x` (in units of 2^-149) from the magnitude of e4m3 code `c`.
pub open spec fn e4m3_distance(x: int, c: int) -> int {
    let v = e4m3_units(c) * unit_ratio();
    if x >= v {
        x - v
    } else {
        v - x
    }
}

/// `c` is the finite e4m3 magnitude nearest to `x`, and the even one of two
/// that are equally near.
pub open spec fn e4m3_nearest(x: int, c: int) -> bool {
    &&& 0 <= c <= 0x7e
    &&& forall|d: int|
        0 <= d <= 0x7e ==> #[trigger] e4m3_distance(x, c) <= #[trigger] e4m3_distance(x, d) && (d != c
            && e4m3_distance(x, c) == e4m3_distance(x, d) ==> c % 2 == 0)
}

/// Consecutive codes have increasing magnitudes.
proof fn lemma_units_step(c: int)
    requires
        0 <= c < 0x7e,
    ensures
        e4m3_units(c) < e4m3_units(c + 1),
        0 <= e4m3_units(c),
        c / 8 % 16 == 0 ==> e4m3_units(c + 1) == e4m3_units(c) + 1,
        c / 8 % 16 >= 1 ==> e4m3_units(c + 1) == e4m3_units(c) + pow2((c / 8 % 16 - 1) as nat),
{
    lemma2_to64();
    let e = c / 8 % 16;
    if e >= 1 && c % 8 == 7 {
        lemma_pow2_adds((e - 1) as nat, 1);
        let p = pow2((e - 1) as nat);
        assert(pow2(e as nat) == 2 * p);
        assert((c + 1) / 8 % 16 == e + 1);
    }
    if e == 0 && c % 8 == 7 {
        assert((c + 1) / 8 % 16 == 1);
        assert((c + 1) % 8 == 0);
        assert(pow2((1 - 1) as nat) == 1);
    }
    if e >= 1 {
        lemma_pow2_pos((e - 1) as nat);
        let p = pow2((e - 1) as nat) as int;
        let m = c % 8;
        if m < 7 {
            assert((c + 1) / 8 % 16 == e && (c + 1) % 8 == m + 1);
            assert(e4m3_units(c + 1) == (8 + m + 1) * p);
        } else {
            assert((c + 1) % 8 == 0);
            assert(e4m3_units(c + 1) == 8 * pow2(e as nat));
        }
        assert((8 + m) * p >= 0 && (8 + m + 1) * p == (8 + m) * p + p) by (nonlinear_arith)
            requires
                p > 0,
                0 <= m < 8,
        ;
    }
}

/// Magnitudes increase with the code.
pub proof fn law_e4m3_monotone(c: int, d: int)
    requires
        0 <= c < d <= 0x7e,
    ensures
        0 <= e4m3_units(c) < e4m3_units(d),
    decreases d - c,
{
    lemma_units_step(d - 1);
    if c < d - 1 {
        law_e4m3_monotone(c, d - 1);
    } else {
        lemma_units_step(c);
    }
}

proof fn lemma_scaled(a: int, b: int, u: int)
    by (nonlinear_arith)
    requires
        a < b,
        u > 0,
    ensures
        a * u < b * u,
{
}

/// A value between two neighbouring codes rounds to the nearer, or the even one.
proof fn lemma_between(x: int, q: int, c: int)
    requires
        0 <= q < 0x7e,
        e4m3_units(q) * unit_ratio() <= x <= e4m3_units(q + 1) * unit_ratio(),
        c == q || c == q + 1,
        c == q ==> e4m3_distance(x, q) <= e4m3_distance(x, q + 1),
        c == q + 1 ==> e4m3_distance(x, q + 1) <= e4m3_distance(x, q),
        e4m3_distance(x, q) == e4m3_distance(x, q + 1) ==> c % 2 == 0,
    ensures
        e4m3_nearest(x, c),
{
    let u = unit_ratio();
    lemma_pow2_pos(140);
    assert forall|d: int| 0 <= d <= 0x7e implies #[trigger] e4m3_distance(x, c) <= #[trigger] e4m3_distance(
        x,
        d,
    ) && (d != c && e4m3_distance(x, c) == e4m3_distance(x, d) ==> c % 2 == 0) by {
        if d < q {
            law_e4m3_monotone(d, q);
            lemma_scaled(e4m3_units(d), e4m3_units(q), u);
        } else if d > q + 1 {
            law_e4m3_monotone(q + 1, d);
            lemma_scaled(e4m3_units(q + 1), e4m3_units(d), u);
        }
    }
}

/// A value at or above the largest magnitude rounds to it.
proof fn lemma_saturates(x: int)
    requires
        x >= e4m3_units(0x7e) * unit_ratio(),
    ensures
        e4m3_nearest(x, 0x7e),
{
    let u = unit_ratio();
    lemma_pow2_pos(140);
    assert forall|d: int| 0 <= d <= 0x7e implies #[trigger] e4m3_distance(x, 0x7e)
        <= #[trigger] e4m3_distance(x, d) by {
        if d < 0x7e {
            law_e4m3_monotone(d, 0x7e);
            lemma_scaled(e4m3_units(d), e4m3_units(0x7e), u);
        }
    }
}

/// Single-precision magnitudes that do not fit are at least the largest code.
proof fn lemma_large(exp: int, mant: int)
    requires
        0 <= mant < 0x80_0000,
        135 <= exp < 0xff,
        exp == 135 ==> mant >= 0x60_0000,
    ensures
        (0x80_0000 + mant) * pow2((exp - 1) as nat) >= e4m3_units(0x7e) * unit_ratio(),
{
    lemma2_to64();
    lemma_pow2_adds(14, 140);
    lemma_pow2_adds(20, 134);
    lemma_pow2_adds(134, (exp - 135) as nat);
    lemma_pow2_pos((exp - 135) as nat);
    if exp > 135 {
        lemma_pow2_adds(1, (exp - 136) as nat);
        lemma_pow2_pos((exp - 136) as nat);
    }
    let u = pow2(134) as int;
    let w = pow2((exp - 135) as nat) as int;
    lemma_pow2_pos(134);
    assert(w >= 1);
    assert(exp > 135 ==> w >= 2);
    assert(e4m3_units(0x7e) == 14 * pow2(14));
    assert(unit_ratio() == 0x40 * u) by {
        lemma_pow2_adds(6, 134);
    }
    assert(14 * 0x4000 * (0x40 * u) == 0xe0_0000 * u) by (nonlinear_arith);
    assert((0x80_0000 + mant) * (u * w) >= 0xe0_0000 * u) by (nonlinear_arith)
        requires
            u > 0,
            w >= 1,
            0 <= mant,
            w >= 2 || mant >= 0x60_0000,
    ;
}

/// Rounding in the range of normal codes.
proof fn lemma_encode_normal(exp: int, mant: int, q: int, rem: int)
    requires
        121 <= exp <= 135,
        0 <= mant < 0x80_0000,
        q == (exp - 120) * 8 + mant / 0x10_0000,
        rem == mant % 0x10_0000,
        q < 0x7e,
    ensures
        ({
            let x = (0x80_0000 + mant) * pow2((exp - 1) as nat);
            let c = if rem > 0x8_0000 || (rem == 0x8_0000 && q % 2 == 1) {
                q + 1
            } else {
                q
            };
            e4m3_nearest(x, c)
        }),
{
    let u = pow2((exp - 1) as nat) as int;
    let x = (0x80_0000 + mant) * u;
    let m = mant / 0x10_0000;
    let p = pow2((exp - 121) as nat) as int;
    let r = unit_ratio();
    lemma2_to64();
    lemma_pow2_pos((exp - 1) as nat);
    lemma_pow2_adds((exp - 121) as nat, 140);
    lemma_pow2_adds((exp - 1) as nat, 20);
    assert(p * r == u * 0x10_0000);
    lemma_units_step(q);
    assert(q / 8 % 16 == exp - 120);
    assert(q % 8 == m);
    assert(e4m3_units(q) * r == (8 + m) * 0x10_0000 * u) by (nonlinear_arith)
        requires
            e4m3_units(q) == (8 + m) * p,
            p * r == u * 0x10_0000,
    ;
    assert(e4m3_units(q + 1) * r == e4m3_units(q) * r + 0x10_0000 * u) by (nonlinear_arith)
        requires
            e4m3_units(q + 1) == e4m3_units(q) + p,
            p * r == u * 0x10_0000,
    ;
    assert(x == (8 + m) * 0x10_0000 * u + rem * u) by (nonlinear_arith)
        requires
            x == (0x80_0000 + mant) * u,
            mant == m * 0x10_0000 + rem,
    ;
    lemma_split(rem, 0x10_0000, u);
    let c = if rem > 0x8_0000 || (rem == 0x8_0000 && q % 2 == 1) {
        q + 1
    } else {
        q
    };
    assert(e4m3_distance(x, q) == rem * u);
    assert(e4m3_distance(x, q + 1) == (0x10_0000 - rem) * u);
    lemma_between(x, q, c);
}

/// Orders the two parts of a step of `d` units cut at `rem`.
proof fn lemma_split(rem: int, d: int, u: int)
    by (nonlinear_arith)
    requires
        0 <= rem <= d,
        u > 0,
    ensures
        0 <= rem * u,
        0 <= (d - rem) * u,
        rem * u + (d - rem) * u == d * u,
        2 * rem < d ==> rem * u < (d - rem) * u,
        2 * rem > d ==> rem * u > (d - rem) * u,
        2 * rem == d ==> rem * u == (d - rem) * u,
{
}

/// Rounding in the range of subnormal codes; `step` is 2^(141 - exp).
proof fn lemma_encode_subnormal(exp: int, mant: int, step: int, q: int, rem: int)
    requires
        117 <= exp <= 120,
        0 <= mant < 0x80_0000,
        step == pow2((141 - exp) as nat),
        q == (0x80_0000 + mant) / step,
        rem == (0x80_0000 + mant) % step,
    ensures
        ({
            let x = (0x80_0000 + mant) * pow2((exp - 1) as nat);
            let c = if 2 * rem > step || (2 * rem == step && q % 2 == 1) {
                q + 1
            } else {
                q
            };
            q < 8 && e4m3_nearest(x, c)
        }),
{
    let u = pow2((exp - 1) as nat) as int;
    let sig = 0x80_0000 + mant;
    let x = sig * u;
    let r = unit_ratio();
    lemma2_to64();
    lemma_pow2_pos((exp - 1) as nat);
    lemma_pow2_adds((141 - exp) as nat, (exp - 1) as nat);
    assert(r == step * u);
    assert(step == 0x20_0000 || step == 0x40_0000 || step == 0x80_0000 || step == 0x100_0000);
    if step == 0x20_0000 {
        assert(0 <= sig / 0x20_0000 < 8);
    } else if step == 0x40_0000 {
        assert(0 <= sig / 0x40_0000 < 8);
    } else if step == 0x80_0000 {
        assert(0 <= sig / 0x80_0000 < 8);
    } else {
        assert(0 <= sig / 0x100_0000 < 8);
    }
    assert(0 <= q < 8);
    lemma_units_step(q);
    assert(e4m3_units(q) == q);
    assert(e4m3_units(q + 1) == q + 1);
    assert(sig == q * step + rem) by {
        vstd::arithmetic::div_mod::lemma_fundamental_div_mod(sig, step);
        assert(step * q == q * step) by (nonlinear_arith);
    }
    assert(x == q * r + rem * u) by (nonlinear_arith)
        requires
            x == sig * u,
            sig == q * step + rem,
            r == step * u,
    ;
    assert((q + 1) * r == q * r + step * u) by (nonlinear_arith)
        requires
            r == step * u,
    ;
    lemma_split(rem, step, u);
    let c = if 2 * rem > step || (2 * rem == step && q % 2 == 1) {
        q + 1
    } else {
        q
    };
    lemma_between(x, q, c);
}

/// Magnitudes below half the smallest code round to zero.
proof fn lemma_encode_tiny(bits: int)
    requires
        0 <= bits < 117 * 0x80_0000,
    ensures
        e4m3_nearest(f32_units(bits), 0),
{
    let exp = f32_exp(bits);
    let x = f32_units(bits);
    let r = unit_ratio();
    lemma2_to64();
    lemma_units_step(0);
    lemma_pow2_adds(24, 116);
    lemma_pow2_pos(116);
    let w = pow2(116) as int;
    assert(r == 0x100_0000 * w);
    if exp > 0 {
        let u = pow2((exp - 1) as nat) as int;
        lemma_pow2_pos((exp - 1) as nat);
        lemma_pow2_adds((exp - 1) as nat, (117 - exp) as nat);
        lemma_pow2_adds(1, (116 - exp) as nat);
        lemma_pow2_pos((116 - exp) as nat);
        let k = pow2((116 - exp) as nat) as int;
        assert(w == u * (2 * k));
        let sig = 0x80_0000 + f32_mant(bits);
        assert(0 <= x && 2 * x < r) by (nonlinear_arith)
            requires
                x == sig * u,
                r == 0x100_0000 * w,
                w == u * (2 * k),
                0 < sig < 0x100_0000,
                k >= 1,
                u >= 1,
        ;
    } else {
        assert(0 <= x && 2 * x < r) by (nonlinear_arith)
            requires
                0 <= x < 0x80_0000,
                r == 0x100_0000 * w,
                w >= 1,
        ;
    }
    assert(e4m3_units(0) * r == 0) by (nonlinear_arith)
        requires
            e4m3_units(0) == 0,
    ;
    assert(e4m3_units(1) * r == r) by (nonlinear_arith)
        requires
            e4m3_units(1) == 1,
    ;
    lemma_between(x, 0, 0);
}

/// Code of a magnitude in the range of subnormal codes.
fn encode_subnormal(exp: u32, mant: u32) -> (r: u8)
    requires
        117 <= exp <= 120,
        mant < 0x80_0000,
    ensures
        e4m3_nearest((0x80_0000 + mant) * pow2((exp - 1) as nat), r as int),
{
    let step: u32 = if exp == 120 {
        0x20_0000
    } else if exp == 119 {
        0x40_0000
    } else if exp == 118 {
        0x80_0000
    } else {
        0x100_0000
    };
    let sig: u32 = 0x80_0000 + mant;
    let q: u32 = sig / step;
    let rem: u32 = sig % step;
    proof {
        lemma2_to64();
        lemma_encode_subnormal(exp as int, mant as int, step as int, q as int, rem as int);
        vstd::arithmetic::div_mod::lemma_mod_bound(sig as int, step as int);
    }
    if 2 * rem > step || (2 * rem == step && q % 2 == 1) {
        (q + 1) as u8
    } else {
        q as u8
    }
}

/// Code of a magnitude in the range of normal codes.
fn encode_normal(exp: u32, mant: u32) -> (r: u8)
    requires
        121 <= exp <= 135,
        mant < 0x80_0000,
        exp == 135 ==> mant < 0x60_0000,
    ensures
        e4m3_nearest((0x80_0000 + mant) * pow2((exp - 1) as nat), r as int),
{
    let q: u32 = (exp - 120) * 8 + mant / 0x10_0000;
    let rem: u32 = mant % 0x10_0000;
    proof {
        lemma_encode_normal(exp as int, mant as int, q as int, rem as int);
    }
    if rem > 0x8_0000 || (rem == 0x8_0000 && q % 2 == 1) {
        (q + 1) as u8
    } else {
        q as u8
    }
}

/// Code of a magnitude given as the pattern of a non-negative finite value.
fn encode_magnitude(mag: u32) -> (r: u8)
    requires
        mag < 0x7f80_0000,
    ensures
        e4m3_nearest(f32_units(mag as int), r as int),
{
    let exp: u32 = mag / 0x80_0000;
    let mant: u32 = mag % 0x80_0000;
    assert(f32_exp(mag as int) == exp && f32_mant(mag as int) == mant);
    if mag >= 0x43e0_0000 {
        proof {
            lemma_large(exp as int, mant as int);
            lemma_saturates(f32_units(mag as int));
        }
        0x7e
    } else if exp >= 121 {
        encode_normal(exp, mant)
    } else if exp >= 117 {
        encode_subnormal(exp, mant)
    } else {
        proof {
            lemma_encode_tiny(mag as int);
        }
        0
    }
}

/// `r` is the e4m3 code of `x`: the nearest magnitude under the same sign, the
/// largest beyond the range, and `0x7f` for what is no number.
pub open spec fn e4m3_encodes(x: Scalar, r: u8) -> bool {
    let bits = x.0 as int;
    if f32_is_nan(bits) {
        r == 0x7f
    } else {
        &&& (r >= 0x80) == f32_negative(bits)
        &&& f32_exp(bits) < 0xff ==> e4m3_nearest(f32_units(bits), r as int % 0x80)
        &&& f32_exp(bits) == 0xff ==> r as int % 0x80 == 0x7e
    }
}

/// Encodes a single-precision value as e4m3, rounding to nearest even. Values
/// beyond the range take the largest finite code; NaN takes code `0x7f`.
pub fn f32_to_e4m3(x: Scalar) -> (r: u8)
    ensures
        e4m3_encodes(x, r),
{
    let bits: u32 = x.0;
    let mag: u32 = bits % 0x8000_0000;
    assert(f32_exp(bits as int) == f32_exp(mag as int));
    assert(f32_mant(bits as int) == f32_mant(mag as int));
    if mag > 0x7f80_0000 {
        return 0x7f;
    }
    let code: u8 = if mag == 0x7f80_0000 {
        0x7e
    } else {
        encode_magnitude(mag)
    };
    if bits >= 0x8000_0000 {
        0x80 + code
    } else {
        code
    }
}

/// A value has one code.
pub proof fn law_e4m3_encoding_is_unique(x: Scalar, c: u8, d: u8)
    requires
        e4m3_encodes(x, c),
        e4m3_encodes(x, d),
    ensures
        c == d,
{
    if f32_exp(x.0 as int) < 0xff {
        law_e4m3_nearest_is_unique(f32_units(x.0 as int), c as int % 0x80, d as int % 0x80);
    }
}

/// Decoding a finite code and encoding the value again gives the code back.
pub proof fn law_e4m3_round_trip(c: int, d: int)
    requires
        0 <= c <= 0x7e,
        e4m3_nearest(e4m3_units(c) * unit_ratio(), d),
    ensures
        d == c,
{
    let x = e4m3_units(c) * unit_ratio();
    lemma_pow2_pos(140);
    assert(e4m3_distance(x, c) == 0);
    assert(e4m3_distance(x, d) <= e4m3_distance(x, c));
    if d < c {
        law_e4m3_monotone(d, c);
        lemma_scaled(e4m3_units(d), e4m3_units(c), unit_ratio());
    } else if d > c {
        law_e4m3_monotone(c, d);
        lemma_scaled(e4m3_units(c), e4m3_units(d), unit_ratio());
    }
}

/// Only one code is nearest.
pub proof fn law_e4m3_nearest_is_unique(x: int, c: int, d: int)
    requires
        e4m3_nearest(x, c),
        e4m3_nearest(x, d),
    ensures
        c == d,
{
    assert(e4m3_distance(x, c) <= e4m3_distance(x, d));
    assert(e4m3_distance(x, d) <= e4m3_distance(x, c));
    if c != d {
        assert(c % 2 == 0 && d % 2 == 0);
        let u = unit_ratio();
        lemma_pow2_pos(140);
        let (lo, hi) = if c < d {
            (c, d)
        } else {
            (d, c)
        };
        // A third code lies between the two and is nearer.
        law_e4m3_monotone(lo, lo + 1);
        law_e4m3_monotone(lo + 1, hi);
        lemma_scaled(e4m3_units(lo), e4m3_units(lo + 1), u);
        lemma_scaled(e4m3_units(lo + 1), e4m3_units(hi), u);
        assert(e4m3_distance(x, c) <= e4m3_distance(x, lo + 1));
        assert(false);
    }
}

// ---- bfloat16 ---------------------------------------------------------------

/// `x / d` rounded to the nearest integer, ties to even.
pub open spec fn round_half_even(x: int, d: int) -> int {
    let q = x / d;
    let rem = x % d;
    if 2 * rem > d || (2 * rem == d && q % 2 == 1) {
        q + 1
    } else {
        q
    }
}

/// `r` is the bfloat16 pattern nearest to `f`, the even one of two that are equally
/// near. What is no number keeps its upper half and stays none.
pub open spec fn bf16_rounds(f: Scalar, r: u16) -> bool {
    if f32_is_nan(f.0 as int) {
        r == ((f.0 >> 16) | 0x0040) as u16
    } else {
        r == round_half_even(f.0 as int, 0x1_0000)
    }
}

/// Rounds a single-precision pattern to bfloat16, ties to even. A NaN keeps its
/// upper half and stays a NaN.
pub fn f32_to_bf16_bits(f: Scalar) -> (r: u16)
    ensures
        bf16_rounds(f, r),
{
    let bits: u32 = f.0;
    if bits % 0x8000_0000 > 0x7f80_0000 {
        return ((bits >> 16) | 0x0040) as u16;
    }
    let q: u32 = bits / 0x1_0000;
    let rem: u32 = bits % 0x1_0000;
    if rem > 0x8000 || (rem == 0x8000 && q % 2 == 1) {
        (q + 1) as u16
    } else {
        q as u16
    }
}

} // verus!
