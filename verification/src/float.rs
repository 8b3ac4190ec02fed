//! Products of single-precision values, as bit patterns.
//!
//! A product is the representable value nearest to the exact one. Exact products
//! of two values are whole multiples of 2^-298, so they are compared as integers.
use crate::codec::{f32_exp, f32_is_nan, f32_mant, f32_negative, f32_units};
use crate::device::Scalar;
use vstd::arithmetic::power2::{lemma2_to64, lemma_pow2_adds, lemma_pow2_pos, pow2};
use vstd::prelude::*;

verus! {

/// Pattern of infinity. As a magnitude it stands for 2^128, the first power of two
/// that is out of range.
pub const INFINITY_BITS: u32 = 0x7f80_0000;

pub open spec fn f32_is_infinite(bits: int) -> bool {
    bits % 0x8000_0000 == 0x7f80_0000
}

pub open spec fn f32_is_finite(bits: int) -> bool {
    f32_exp(bits) < 0xff
}

pub open spec fn f32_is_zero(bits: int) -> bool {
    bits % 0x8000_0000 == 0
}

/// Distance of `x`, in units of 2^-298, from the magnitude with pattern `c`.
pub open spec fn f32_distance(x: int, c: int) -> int {
    let v = f32_units(c) * pow2(149);
    if x >= v {
        x - v
    } else {
        v - x
    }
}

/// `c` is the pattern of the magnitude nearest to `x`, and the even one of two that
/// are equally near. What rounds to 2^128 is infinite.
pub open spec fn f32_nearest(x: int, c: int) -> bool {
    &&& 0 <= c <= 0x7f80_0000
    &&& forall|d: int|
        #![trigger f32_distance(x, d)]
        0 <= d <= 0x7f80_0000 ==> f32_distance(x, c) <= f32_distance(x, d) && (d != c
            && f32_distance(x, c) == f32_distance(x, d) ==> c % 2 == 0)
}

/// `r` is the product of `a` and `b`.
pub open spec fn f32_product(a: Scalar, b: Scalar, r: Scalar) -> bool {
    let (x, y, z) = (a.0 as int, b.0 as int, r.0 as int);
    let negative = f32_negative(x) != f32_negative(y);
    if f32_is_nan(x) || f32_is_nan(y) {
        f32_is_nan(z)
    } else if f32_is_infinite(x) || f32_is_infinite(y) {
        if f32_is_zero(x) || f32_is_zero(y) {
            f32_is_nan(z)
        } else {
            f32_is_infinite(z) && f32_negative(z) == negative
        }
    } else {
        f32_nearest(f32_units(x) * f32_units(y), z % 0x8000_0000) && f32_negative(z) == negative
    }
}

/// Neighbouring patterns lie one step of their binade apart.
proof fn lemma_step(c: int)
    requires
        0 <= c < 0x7f80_0000,
    ensures
        0 <= f32_units(c) < f32_units(c + 1),
{
    lemma2_to64();
    let e = c / 0x80_0000;
    let m = c % 0x80_0000;
    assert(f32_exp(c) == e && f32_mant(c) == m);
    if m == 0x7f_ffff {
        assert((c + 1) / 0x80_0000 == e + 1 && (c + 1) % 0x80_0000 == 0);
        assert(f32_exp(c + 1) == e + 1 && f32_mant(c + 1) == 0);
        if e >= 1 {
            lemma_pow2_adds((e - 1) as nat, 1);
            lemma_pow2_pos((e - 1) as nat);
        }
    } else {
        assert((c + 1) / 0x80_0000 == e && (c + 1) % 0x80_0000 == m + 1);
        assert(f32_exp(c + 1) == e && f32_mant(c + 1) == m + 1);
        if e >= 1 {
            lemma_pow2_pos((e - 1) as nat);
        }
    }
    if e >= 1 {
        let p = pow2((e - 1) as nat) as int;
        assert(0 <= (0x80_0000 + m) * p && (0x80_0000 + m) * p < (0x80_0000 + m + 1) * p)
            by (nonlinear_arith)
            requires
                p > 0,
                0 <= m,
        ;
        assert((0x80_0000 + 0x7f_ffff + 1) * p == 0x80_0000 * (p * 2)) by (nonlinear_arith);
    }
}

/// Magnitudes increase with the pattern.
pub proof fn law_f32_monotone(c: int, d: int)
    requires
        0 <= c < d <= 0x7f80_0000,
    ensures
        0 <= f32_units(c) < f32_units(d),
    decreases d - c,
{
    lemma_step(d - 1);
    if c < d - 1 {
        law_f32_monotone(c, d - 1);
    } else {
        lemma_step(c);
    }
}

proof fn lemma_scaled(a: int, b: int, u: int)
    by (nonlinear_arith)
    requires
        a < b,
        u > 0,
    ensures
        a * u < b * u,
{
}

/// A value between two neighbouring patterns rounds to the nearer, or the even one.
proof fn lemma_between(x: int, q: int, c: int)
    requires
        0 <= q < 0x7f80_0000,
        f32_units(q) * pow2(149) <= x <= f32_units(q + 1) * pow2(149),
        c == q || c == q + 1,
        c == q ==> f32_distance(x, q) <= f32_distance(x, q + 1),
        c == q + 1 ==> f32_distance(x, q + 1) <= f32_distance(x, q),
        f32_distance(x, q) == f32_distance(x, q + 1) ==> c % 2 == 0,
    ensures
        f32_nearest(x, c),
{
    let u = pow2(149) as int;
    lemma_pow2_pos(149);
    assert forall|d: int|
        #![trigger f32_distance(x, d)]
        0 <= d <= 0x7f80_0000 implies f32_distance(x, c) <= f32_distance(x, d) && (d != c
        && f32_distance(x, c) == f32_distance(x, d) ==> c % 2 == 0) by {
        if d < q {
            law_f32_monotone(d, q);
            lemma_scaled(f32_units(d), f32_units(q), u);
        } else if d > q + 1 {
            law_f32_monotone(q + 1, d);
            lemma_scaled(f32_units(q + 1), f32_units(d), u);
        }
    }
}

/// A representable value rounds to itself.
proof fn lemma_exact(x: int, c: int)
    requires
        0 <= c <= 0x7f80_0000,
        f32_units(c) * pow2(149) == x,
    ensures
        f32_nearest(x, c),
{
    let u = pow2(149) as int;
    lemma_pow2_pos(149);
    assert forall|d: int|
        #![trigger f32_distance(x, d)]
        0 <= d <= 0x7f80_0000 implies f32_distance(x, c) <= f32_distance(x, d) && (d != c
        && f32_distance(x, c) == f32_distance(x, d) ==> c % 2 == 0) by {
        if d < c {
            law_f32_monotone(d, c);
            lemma_scaled(f32_units(d), f32_units(c), u);
        } else if d > c {
            law_f32_monotone(c, d);
            lemma_scaled(f32_units(c), f32_units(d), u);
        }
    }
}

/// A value out of range is infinite.
proof fn lemma_overflows(x: int)
    requires
        x >= f32_units(0x7f80_0000) * pow2(149),
    ensures
        f32_nearest(x, 0x7f80_0000),
{
    let u = pow2(149) as int;
    lemma_pow2_pos(149);
    assert forall|d: int|
        #![trigger f32_distance(x, d)]
        0 <= d <= 0x7f80_0000 implies f32_distance(x, 0x7f80_0000) <= f32_distance(x, d) && (d
        != 0x7f80_0000 && f32_distance(x, 0x7f80_0000) == f32_distance(x, d) ==> 0x7f80_0000int % 2
        == 0) by {
        if d < 0x7f80_0000 {
            law_f32_monotone(d, 0x7f80_0000);
            lemma_scaled(f32_units(d), f32_units(0x7f80_0000), u);
        }
    }
}

/// Only one pattern is nearest.
pub proof fn law_f32_nearest_is_unique(x: int, c: int, d: int)
    requires
        f32_nearest(x, c),
        f32_nearest(x, d),
    ensures
        c == d,
{
    assert(f32_distance(x, c) <= f32_distance(x, d));
    assert(f32_distance(x, d) <= f32_distance(x, c));
    if c != d {
        assert(c % 2 == 0 && d % 2 == 0);
        let u = pow2(149) as int;
        lemma_pow2_pos(149);
        let (lo, hi) = if c < d {
            (c, d)
        } else {
            (d, c)
        };
        // A third pattern lies between the two and is nearer.
        law_f32_monotone(lo, lo + 1);
        law_f32_monotone(lo + 1, hi);
        lemma_scaled(f32_units(lo), f32_units(lo + 1), u);
        lemma_scaled(f32_units(lo + 1), f32_units(hi), u);
        assert(f32_distance(x, c) <= f32_distance(x, lo + 1));
        assert(false);
    }
}

/// Magnitude of the pattern that holds `m` in binade `t`; a mantissa that is one
/// too large is the first of the next binade.
proof fn lemma_pattern(t: int, m: int)
    requires
        0 <= t,
        0 <= m <= 0x100_0000,
        t > 0 ==> m >= 0x80_0000,
        t * 0x80_0000 + m <= 0x7f80_0000,
    ensures
        f32_units(t * 0x80_0000 + m) == m * pow2(t as nat),
{
    lemma2_to64();
    let c = t * 0x80_0000 + m;
    assert(m * pow2(0) == m) by (nonlinear_arith)
        requires
            pow2(0) == 1,
    ;
    if m < 0x80_0000 {
        assert(c / 0x80_0000 == 0 && c % 0x80_0000 == m);
    } else if m < 0x100_0000 {
        assert(c / 0x80_0000 == t + 1 && c % 0x80_0000 == m - 0x80_0000);
        assert(f32_exp(c) == t + 1);
    } else {
        assert(c / 0x80_0000 == t + 2 && c % 0x80_0000 == 0);
        assert(f32_exp(c) == t + 2);
        lemma_pow2_adds(t as nat, 1);
        let p = pow2(t as nat);
        assert(0x80_0000 * (p * 2) == 0x100_0000 * p) by (nonlinear_arith);
    }
}

/// Bits of `q`.
fn bit_length(q: u64) -> (r: u32)
    requires
        0 < q < 0x1_0000_0000_0000,
    ensures
        1 <= r <= 48,
        pow2((r - 1) as nat) <= q < pow2(r as nat),
{
    let mut len: u32 = 1;
    let mut top: u64 = 2;
    proof {
        lemma2_to64();
    }
    while top <= q
        invariant
            1 <= len <= 48,
            top == pow2(len as nat),
            pow2((len - 1) as nat) <= q < 0x1_0000_0000_0000,
        decreases 48 - len,
    {
        proof {
            lemma2_to64();
            lemma_pow2_adds(len as nat, 1);
            if len == 48 {
                lemma_pow2_adds(24, 24);
                assert(false);
            }
            assert(top < 0x1_0000_0000_0000);
        }
        top = top * 2;
        len = len + 1;
    }
    len
}

/// `2^e`.
fn power(e: u32) -> (r: u64)
    requires
        e <= 60,
    ensures
        r == pow2(e as nat),
{
    let mut i: u32 = 0;
    let mut p: u64 = 1;
    proof {
        lemma2_to64();
    }
    while i < e
        invariant
            i <= e <= 60,
            p == pow2(i as nat),
        decreases e - i,
    {
        proof {
            lemma_pow2_adds(i as nat, 1);
            lemma2_to64();
            vstd::arithmetic::power2::lemma_pow2_strictly_increases(i as nat, 60);
            assert(pow2(60) == 0x1000_0000_0000_0000) by {
                lemma_pow2_adds(30, 30);
            }
        }
        p = p * 2;
        i = i + 1;
    }
    p
}

/// Rounding of a value whose lowest `d` bits do not fit.
proof fn lemma_dropped(q: int, k: int, d: int, t: int, lo: int, rem: int, c: int)
    requires
        0 <= q,
        0 <= k,
        0 < d,
        t == d + k - 149,
        t >= 0,
        lo == q / (pow2(d as nat) as int),
        rem == q % (pow2(d as nat) as int),
        lo < 0x100_0000,
        t > 0 ==> lo >= 0x80_0000,
        c == (if 2 * rem > pow2(d as nat) || (2 * rem == pow2(d as nat) && lo % 2 == 1) {
            lo + 1
        } else {
            lo
        }),
    ensures
        t * 0x80_0000 + c <= 0x7f80_0000 ==> f32_nearest(
            q * pow2(k as nat),
            t * 0x80_0000 + c,
        ),
        t * 0x80_0000 + c >= 0x7f80_0000 ==> f32_nearest(q * pow2(k as nat), 0x7f80_0000),
{
    let p = pow2(d as nat) as int;
    let w = pow2(k as nat) as int;
    let u = pow2(149) as int;
    let s = pow2(t as nat) as int;
    let x = q * w;
    lemma_pow2_pos(d as nat);
    lemma_pow2_pos(k as nat);
    lemma_pow2_pos(149);
    lemma_pow2_pos(t as nat);
    lemma_pow2_adds(d as nat, k as nat);
    lemma_pow2_adds(t as nat, 149);
    assert(p * w == s * u);
    vstd::arithmetic::div_mod::lemma_fundamental_div_mod(q, p);
    vstd::arithmetic::div_mod::lemma_mod_bound(q, p);
    assert(x == lo * (p * w) + rem * w) by (nonlinear_arith)
        requires
            x == q * w,
            q == p * lo + rem,
    ;
    assert(0 <= lo) by {
        vstd::arithmetic::div_mod::lemma_div_pos_is_pos(q, p);
    }
    assert(lo * (s * u) == (lo * s) * u) by (nonlinear_arith);
    assert((lo + 1) * (s * u) == ((lo + 1) * s) * u) by (nonlinear_arith);
    assert((lo + 1) * (p * w) == lo * (p * w) + p * w) by (nonlinear_arith);
    assert(0 <= rem * w <= p * w) by (nonlinear_arith)
        requires
            0 <= rem <= p,
            w > 0,
    ;
    let base = t * 0x80_0000;
    if base + lo < 0x7f80_0000 {
        lemma_pattern(t, lo);
        lemma_pattern(t, lo + 1);
        assert((p - rem) * w == p * w - rem * w) by (nonlinear_arith);
        assert(f32_distance(x, base + lo) == rem * w);
        assert(f32_distance(x, base + lo + 1) == (p - rem) * w);
        assert(2 * rem < p ==> rem * w < (p - rem) * w) by (nonlinear_arith)
            requires
                w > 0,
        ;
        assert(2 * rem > p ==> rem * w > (p - rem) * w) by (nonlinear_arith)
            requires
                w > 0,
        ;
        assert(2 * rem == p ==> rem * w == (p - rem) * w) by (nonlinear_arith);
        assert((base + lo) % 2 == lo % 2);
        lemma_between(x, base + lo, base + c);
    } else {
        lemma_beyond(t, lo, s);
        assert(x >= (lo * s) * u);
        assert((lo * s) * u >= f32_units(0x7f80_0000) * u) by (nonlinear_arith)
            requires
                lo * s >= f32_units(0x7f80_0000),
                u > 0,
        ;
        lemma_overflows(x);
    }
}

/// A mantissa in a binade past the last is out of range.
proof fn lemma_beyond(t: int, m: int, s: int)
    requires
        0 <= t,
        0x80_0000 <= m < 0x100_0000,
        t * 0x80_0000 + m >= 0x7f80_0000,
        s == pow2(t as nat),
    ensures
        m * s >= f32_units(0x7f80_0000),
{
    assert(t >= 254);
    assert(f32_exp(0x7f80_0000) == 0xff && f32_mant(0x7f80_0000) == 0);
    lemma_pow2_adds(254, (t - 254) as nat);
    lemma_pow2_pos((t - 254) as nat);
    lemma_pow2_pos(254);
    let a = pow2(254) as int;
    let b = pow2((t - 254) as nat) as int;
    assert(m * (a * b) >= 0x80_0000 * a) by (nonlinear_arith)
        requires
            m >= 0x80_0000,
            a > 0,
            b >= 1,
    ;
}

/// A value that fits without rounding.
proof fn lemma_kept(q: int, k: int, e: int, t: int, m: int)
    requires
        0 <= q,
        0 <= k,
        0 <= e,
        t == k - e - 149,
        t >= 0,
        m == q * pow2(e as nat),
        m < 0x100_0000,
        t > 0 ==> m >= 0x80_0000,
    ensures
        t * 0x80_0000 + m <= 0x7f80_0000 ==> f32_nearest(q * pow2(k as nat), t * 0x80_0000 + m),
        t * 0x80_0000 + m >= 0x7f80_0000 ==> f32_nearest(q * pow2(k as nat), 0x7f80_0000),
{
    let g = pow2(e as nat) as int;
    let u = pow2(149) as int;
    let s = pow2(t as nat) as int;
    lemma_pow2_pos(e as nat);
    lemma_pow2_pos(149);
    lemma_pow2_adds(e as nat, (t + 149) as nat);
    lemma_pow2_adds(t as nat, 149);
    let x = q * pow2(k as nat);
    assert(x == (m * s) * u) by (nonlinear_arith)
        requires
            x == q * (g * (s * u)),
            m == q * g,
    ;
    assert(0 <= m) by (nonlinear_arith)
        requires
            m == q * g,
            0 <= q,
            g > 0,
    ;
    if t * 0x80_0000 + m <= 0x7f80_0000 {
        lemma_pattern(t, m);
        lemma_exact(x, t * 0x80_0000 + m);
    }
    if t * 0x80_0000 + m >= 0x7f80_0000 {
        assert(t > 0);
        lemma_beyond(t, m, s);
        assert((m * s) * u >= f32_units(0x7f80_0000) * u) by (nonlinear_arith)
            requires
                m * s >= f32_units(0x7f80_0000),
                u > 0,
        ;
        lemma_overflows(x);
    }
}

/// A value below half of the smallest step rounds to zero.
proof fn lemma_vanishes(q: int, k: int)
    requires
        0 <= q < 0x1_0000_0000_0000,
        0 <= k,
        k + 49 <= 149,
    ensures
        f32_nearest(q * pow2(k as nat), 0),
{
    lemma2_to64();
    let w = pow2(k as nat) as int;
    let x = q * w;
    lemma_pow2_pos(k as nat);
    lemma_pow2_adds(k as nat, (149 - k) as nat);
    lemma_pow2_adds(25, 24);
    lemma_pow2_adds(49, (100 - k) as nat);
    lemma_pow2_pos((100 - k) as nat);
    let g = pow2((149 - k) as nat) as int;
    assert(g >= 0x2_0000_0000_0000) by (nonlinear_arith)
        requires
            g == 0x2_0000_0000_0000 * pow2((100 - k) as nat),
            pow2((100 - k) as nat) >= 1,
    ;
    assert(0 <= x && 2 * x < w * g) by (nonlinear_arith)
        requires
            x == q * w,
            0 <= q < 0x1_0000_0000_0000,
            g >= 0x2_0000_0000_0000,
            w >= 1,
    ;
    lemma_pattern(0, 0);
    lemma_pattern(0, 1);
    lemma_between(x, 0, 0);
}

/// Pattern of the magnitude nearest to `q * 2^k`, in units of 2^-298.
fn round_product(q: u64, k: u32) -> (r: u32)
    requires
        q < 0x1_0000_0000_0000,
        k <= 600,
    ensures
        f32_nearest(q * pow2(k as nat), r as int),
{
    if q == 0 {
        proof {
            lemma_pattern(0, 0);
            lemma2_to64();
            assert(0 * pow2(k as nat) == 0) by (nonlinear_arith);
            assert(f32_units(0) * pow2(149) == 0) by (nonlinear_arith)
                requires
                    f32_units(0) == 0,
            ;
            lemma_exact(0, 0);
        }
        return 0;
    }
    let len: u32 = bit_length(q);
    if k + 49 <= 149 {
        proof {
            lemma_vanishes(q as int, k as int);
        }
        return 0;
    }
    // Bits that do not fit: beyond 24 of them, or below the smallest step.
    let wide: u32 = if len > 24 {
        len - 24
    } else {
        0
    };
    let low: u32 = if k < 149 {
        149 - k
    } else {
        0
    };
    let d: u32 = if wide > low {
        wide
    } else {
        low
    };
    if d > 0 {
        let p: u64 = power(d);
        let t: u32 = d + k - 149;
        proof {
            lemma_pow2_pos(d as nat);
        }
        let lo: u64 = q / p;
        let rem: u64 = q % p;
        proof {
            lemma2_to64();
            lemma_quotient(q as int, len as int, d as int);
            vstd::arithmetic::div_mod::lemma_mod_bound(q as int, p as int);
            vstd::arithmetic::power2::lemma_pow2_strictly_increases(d as nat, 60);
            assert(pow2(60) == 0x1000_0000_0000_0000) by {
                lemma_pow2_adds(30, 30);
            }
        }
        let m: u64 = if 2 * rem > p || (2 * rem == p && lo % 2 == 1) {
            lo + 1
        } else {
            lo
        };
        proof {
            lemma_dropped(
                q as int,
                k as int,
                d as int,
                t as int,
                lo as int,
                rem as int,
                m as int,
            );
        }
        pattern(t, m as u32)
    } else {
        // The value fits. It moves up as far as 24 bits allow, or to the smallest step.
        let room: u32 = 24 - len;
        let above: u32 = k - 149;
        let e: u32 = if room < above {
            room
        } else {
            above
        };
        let p: u64 = power(e);
        proof {
            lemma2_to64();
            lemma_raised(q as int, len as int, e as int);
        }
        let m: u64 = q * p;
        let t: u32 = above - e;
        proof {
            lemma_kept(q as int, k as int, e as int, t as int, m as int);
        }
        pattern(t, m as u32)
    }
}

/// Pattern that holds `m` in binade `t`, infinity where that is out of range.
fn pattern(t: u32, m: u32) -> (r: u32)
    requires
        t <= 1000,
        m <= 0x100_0000,
    ensures
        r == (if t * 0x80_0000 + m >= 0x7f80_0000 {
            0x7f80_0000
        } else {
            t * 0x80_0000 + m
        }),
{
    let c: u64 = t as u64 * 0x80_0000 + m as u64;
    if c >= 0x7f80_0000 {
        INFINITY_BITS
    } else {
        c as u32
    }
}

/// What is left of `len` bits after `d` of them are dropped.
proof fn lemma_quotient(q: int, len: int, d: int)
    requires
        1 <= len <= 48,
        pow2((len - 1) as nat) <= q < pow2(len as nat),
        0 < d,
        d >= len - 24,
    ensures
        0 <= q / (pow2(d as nat) as int) < 0x100_0000,
        d == len - 24 ==> q / (pow2(d as nat) as int) >= 0x80_0000,
{
    lemma2_to64();
    let p = pow2(d as nat) as int;
    lemma_pow2_pos(d as nat);
    lemma_pow2_adds(d as nat, 24);
    if len < d + 24 {
        vstd::arithmetic::power2::lemma_pow2_strictly_increases(len as nat, (d + 24) as nat);
    }
    vstd::arithmetic::div_mod::lemma_fundamental_div_mod(q, p);
    vstd::arithmetic::div_mod::lemma_mod_bound(q, p);
    let lo = q / p;
    assert(0 <= lo < 0x100_0000) by (nonlinear_arith)
        requires
            q == p * lo + q % p,
            0 <= q % p < p,
            0 <= q < p * 0x100_0000,
            p > 0,
    ;
    if d == len - 24 {
        lemma_pow2_adds(d as nat, 23);
        assert(lo >= 0x80_0000) by (nonlinear_arith)
            requires
                q == p * lo + q % p,
                0 <= q % p < p,
                q >= p * 0x80_0000,
                p > 0,
        ;
    }
}

/// `len` bits moved up by `e` places fit in 24 where there is room.
proof fn lemma_raised(q: int, len: int, e: int)
    requires
        1 <= len <= 24,
        pow2((len - 1) as nat) <= q < pow2(len as nat),
        0 <= e <= 24 - len,
    ensures
        q * pow2(e as nat) < 0x100_0000,
        e == 24 - len ==> q * pow2(e as nat) >= 0x80_0000,
{
    lemma2_to64();
    let g = pow2(e as nat) as int;
    lemma_pow2_pos(e as nat);
    lemma_pow2_adds(len as nat, e as nat);
    lemma_pow2_adds((len - 1) as nat, e as nat);
    if len + e < 24 {
        vstd::arithmetic::power2::lemma_pow2_strictly_increases((len + e) as nat, 24);
    }
    let (a, b) = (pow2((len - 1) as nat) as int, pow2(len as nat) as int);
    assert(q * g < b * g) by (nonlinear_arith)
        requires
            q < b,
            g > 0,
    ;
    assert(q * g >= a * g) by (nonlinear_arith)
        requires
            q >= a,
            g > 0,
    ;
}

/// Mantissa and place of a finite magnitude.
fn split(mag: u32) -> (r: (u32, u32))
    requires
        mag < 0x7f80_0000,
    ensures
        r.0 < 0x100_0000,
        r.1 <= 253,
        f32_units(mag as int) == r.0 * pow2(r.1 as nat),
{
    let exp: u32 = mag / 0x80_0000;
    let mant: u32 = mag % 0x80_0000;
    assert(f32_exp(mag as int) == exp && f32_mant(mag as int) == mant);
    proof {
        lemma2_to64();
        assert(mant * pow2(0) == mant) by (nonlinear_arith)
            requires
                pow2(0) == 1,
        ;
    }
    if exp == 0 {
        (mant, 0)
    } else {
        (0x80_0000 + mant, exp - 1)
    }
}

/// The product of two single-precision values, rounded to nearest even.
pub fn f32_mul(a: Scalar, b: Scalar) -> (r: Scalar)
    ensures
        f32_product(a, b, r),
{
    let x: u32 = a.0 % 0x8000_0000;
    let y: u32 = b.0 % 0x8000_0000;
    let sign: u32 = if (a.0 >= 0x8000_0000) != (b.0 >= 0x8000_0000) {
        0x8000_0000
    } else {
        0
    };
    proof {
        lemma_same_magnitude(a.0 as int);
        lemma_same_magnitude(b.0 as int);
    }
    if x > INFINITY_BITS || y > INFINITY_BITS {
        assert(f32_is_nan(0x7fc0_0000));
        return Scalar(0x7fc0_0000);
    }
    if x == INFINITY_BITS || y == INFINITY_BITS {
        if x == 0 || y == 0 {
            assert(f32_is_nan(0x7fc0_0000));
            return Scalar(0x7fc0_0000);
        }
        return Scalar(sign + INFINITY_BITS);
    }
    let (ma, ka) = split(x);
    let (mb, kb) = split(y);
    proof {
        let (p, q, v, w) = (
            ma as int,
            mb as int,
            pow2(ka as nat) as int,
            pow2(kb as nat) as int,
        );
        lemma_pow2_adds(ka as nat, kb as nat);
        assert((p * v) * (q * w) == (p * q) * (v * w)) by (nonlinear_arith);
        assert(0 <= p * q < 0x1_0000_0000_0000) by (nonlinear_arith)
            requires
                0 <= p < 0x100_0000,
                0 <= q < 0x100_0000,
        ;
    }
    let mag: u32 = round_product(ma as u64 * mb as u64, ka + kb);
    Scalar(sign + mag)
}

/// Fields of a pattern without its sign.
proof fn lemma_same_magnitude(bits: int)
    requires
        0 <= bits < 0x1_0000_0000,
    ensures
        ({
            let mag = bits % 0x8000_0000;
            &&& f32_exp(bits) == f32_exp(mag)
            &&& f32_mant(bits) == f32_mant(mag)
            &&& f32_units(bits) == f32_units(mag)
            &&& f32_is_nan(bits) <==> mag > 0x7f80_0000
            &&& f32_is_finite(bits) <==> mag < 0x7f80_0000
        }),
{
}

/// A finite value has one pattern: sign and magnitude fix it.
pub proof fn law_f32_value_fixes_pattern(a: Scalar, b: Scalar)
    requires
        f32_is_finite(a.0 as int),
        f32_is_finite(b.0 as int),
        f32_negative(a.0 as int) == f32_negative(b.0 as int),
        f32_units(a.0 as int) == f32_units(b.0 as int),
    ensures
        a == b,
{
    lemma_same_magnitude(a.0 as int);
    lemma_same_magnitude(b.0 as int);
    let (x, y) = (a.0 as int % 0x8000_0000, b.0 as int % 0x8000_0000);
    if x < y {
        law_f32_monotone(x, y);
    } else if y < x {
        law_f32_monotone(y, x);
    }
}

/// Products do not depend on the order of their factors.
pub proof fn law_f32_product_commutes(a: Scalar, b: Scalar, r: Scalar)
    requires
        f32_product(a, b, r),
    ensures
        f32_product(b, a, r),
{
    let (x, y) = (f32_units(a.0 as int), f32_units(b.0 as int));
    assert(x * y == y * x) by (nonlinear_arith);
}

/// A product of numbers has one pattern. Only what is no number has several.
pub proof fn law_f32_product_is_unique(a: Scalar, b: Scalar, r: Scalar, s: Scalar)
    requires
        f32_product(a, b, r),
        f32_product(a, b, s),
    ensures
        r == s || f32_is_nan(r.0 as int) && f32_is_nan(s.0 as int),
{
    lemma_same_magnitude(a.0 as int);
    lemma_same_magnitude(b.0 as int);
    lemma_same_magnitude(r.0 as int);
    lemma_same_magnitude(s.0 as int);
    if f32_is_finite(a.0 as int) && f32_is_finite(b.0 as int) {
        let x = f32_units(a.0 as int) * f32_units(b.0 as int);
        law_f32_nearest_is_unique(x, r.0 as int % 0x8000_0000, s.0 as int % 0x8000_0000);
    }
}

} // verus!
