//! Scale preprocessing for the Marlin four-bit kernel.
//!
//! Scales go from checkpoint rows `[N, K/16]` to groups `[K/16, N]`, are
//! permuted within runs of 64, and re-encoded from e4m3 to a format without
//! sign, five exponent bits and three mantissa bits.
use crate::codec::{e4m3_is_nan, e4m3_units, f32_exp, f32_mant, f32_negative, f32_units};
use crate::device::Scalar;
use crate::float::{f32_mul, f32_product};
use vstd::arithmetic::power2::{
    lemma2_to64, lemma_pow2_adds, lemma_pow2_pos, lemma_pow2_strictly_increases, pow2,
};
use vstd::prelude::*;

verus! {

/// Scale of column `c` in group `kg` of the concatenated projection: gate in
/// the left half, up in the right half.
pub open spec fn w13_scale(gate: Seq<u8>, up: Seq<u8>, n: int, k_groups: int, kg: int, c: int) -> u8 {
    if c < n {
        gate[c * k_groups + kg]
    } else {
        up[(c - n) * k_groups + kg]
    }
}

/// Appends column `kg` of a row-major `[n, k_groups]` table.
fn push_column(out: &mut Vec<u8>, src: &[u8], n: usize, k_groups: usize, kg: usize)
    requires
        src@.len() >= n * k_groups,
        kg < k_groups,
    ensures
        final(out)@ == old(out)@ + Seq::new(n as nat, |c: int| src@[c * k_groups + kg]),
{
    let ghost before = out@;
    assert(src.len() <= usize::MAX);
    let mut col: usize = 0;
    assert(out@ =~= before + Seq::new(0, |c: int| src@[c * k_groups + kg]));
    while col < n
        invariant
            col <= n,
            kg < k_groups,
            src@.len() >= n * k_groups,
            src@.len() <= usize::MAX,
            out@ == before + Seq::new(col as nat, |c: int| src@[c * k_groups + kg]),
        decreases n - col,
    {
        proof {
            crate::num::lemma_row_in(col as int, n as int, k_groups as int);
        }
        out.push(src[col * k_groups + kg]);
        col = col + 1;
        assert(out@ =~= before + Seq::new(col as nat, |c: int| src@[c * k_groups + kg]));
    }
}

/// Transposes the scales of both halves to `[k_groups, 2n]`, gate before up.
pub fn transpose_w13(gate: &[u8], up: &[u8], n: usize, k_groups: usize) -> (r: Vec<u8>)
    requires
        gate@.len() >= n * k_groups,
        up@.len() >= n * k_groups,
    ensures
        r@.len() == k_groups * (2 * n),
        forall|kg: int, c: int|
            0 <= kg < k_groups && 0 <= c < 2 * n ==> #[trigger] r@[kg * (2 * n) + c] == w13_scale(
                gate@,
                up@,
                n as int,
                k_groups as int,
                kg,
                c,
            ),
{
    let mut out: Vec<u8> = Vec::new();
    let ghost width = 2 * n as int;
    let mut kg: usize = 0;
    while kg < k_groups
        invariant
            kg <= k_groups,
            width == 2 * n,
            gate@.len() >= n * k_groups,
            up@.len() >= n * k_groups,
            out@.len() == kg * width,
            forall|g: int, c: int|
                0 <= g < kg && 0 <= c < width ==> #[trigger] out@[g * width + c] == w13_scale(
                    gate@,
                    up@,
                    n as int,
                    k_groups as int,
                    g,
                    c,
                ),
        decreases k_groups - kg,
    {
        let ghost before = out@;
        push_column(&mut out, gate, n, k_groups, kg);
        push_column(&mut out, up, n, k_groups, kg);
        proof {
            assert((kg + 1) * width == kg * width + width) by (nonlinear_arith);
            assert forall|g: int, c: int|
                0 <= g < kg + 1 && 0 <= c < width implies #[trigger] out@[g * width + c]
                == w13_scale(gate@, up@, n as int, k_groups as int, g, c) by {
                if g < kg {
                    lemma_earlier_row(g, kg as int, width, c);
                    assert(out@[g * width + c] == before[g * width + c]);
                }
            }
        }
        kg = kg + 1;
    }
    out
}

proof fn lemma_earlier_row(g: int, rows: int, width: int, c: int)
    by (nonlinear_arith)
    requires
        0 <= g < rows,
        0 <= c < width,
    ensures
        0 <= g * width,
        g * width + c < rows * width,
{
}

/// Transposes scales to `[k_groups, n]`.
pub fn transpose_single(src: &[u8], n: usize, k_groups: usize) -> (r: Vec<u8>)
    requires
        src@.len() >= n * k_groups,
    ensures
        r@.len() == k_groups * n,
        forall|kg: int, c: int|
            0 <= kg < k_groups && 0 <= c < n ==> #[trigger] r@[kg * n + c] == src@[c * k_groups + kg],
{
    let mut out: Vec<u8> = Vec::new();
    let ghost width = n as int;
    let mut kg: usize = 0;
    while kg < k_groups
        invariant
            kg <= k_groups,
            width == n,
            src@.len() >= n * k_groups,
            out@.len() == kg * width,
            forall|g: int, c: int|
                0 <= g < kg && 0 <= c < width ==> #[trigger] out@[g * width + c] == src@[c * k_groups
                    + g],
        decreases k_groups - kg,
    {
        let ghost before = out@;
        push_column(&mut out, src, n, k_groups, kg);
        proof {
            assert((kg + 1) * width == kg * width + width) by (nonlinear_arith);
            assert forall|g: int, c: int|
                0 <= g < kg + 1 && 0 <= c < width implies #[trigger] out@[g * width + c] == src@[c
                * k_groups + g] by {
                if g < kg {
                    lemma_earlier_row(g, kg as int, width, c);
                    assert(out@[g * width + c] == before[g * width + c]);
                }
            }
        }
        kg = kg + 1;
    }
    out
}

/// Magnitude of a scale code in units of 2^-9, for codes that take part in the
/// choice of a factor: positive and finite.
pub open spec fn factor_units(b: u8) -> int {
    if b < 0x7f {
        e4m3_units(b as int)
    } else {
        0
    }
}

/// Magnitude of the largest finite code, 448, in units of 2^-9.
pub const MAX_UNITS: u64 = 229376;

pub open spec fn is_power_of_two(p: int) -> bool {
    exists|t: nat| p == #[trigger] pow2(t)
}

/// Magnitude of a finite code in units of 2^-9.
fn units(b: u8) -> (r: u64)
    requires
        !e4m3_is_nan(b as int),
    ensures
        r == e4m3_units(b as int),
        r <= MAX_UNITS,
{
    let exp: u8 = b / 8 % 16;
    let mant: u64 = (b % 8) as u64;
    proof {
        lemma2_to64();
    }
    if exp == 0 {
        return mant;
    }
    let mut p: u64 = 1;
    let mut e: u8 = 1;
    while e < exp
        invariant
            1 <= e <= exp,
            exp < 16,
            p == pow2((e - 1) as nat),
            p <= 0x4000,
        decreases exp - e,
    {
        proof {
            lemma_pow2_adds((e - 1) as nat, 1);
            lemma2_to64();
        }
        p = p * 2;
        e = e + 1;
    }
    proof {
        let m = 8 + mant as int;
        let q = p as int;
        assert(m * q <= 15 * 0x4000) by (nonlinear_arith)
            requires
                8 <= m <= 15,
                0 <= q <= 0x4000,
        ;
        assert(m <= 14 ==> m * q <= 14 * 0x4000) by (nonlinear_arith)
            requires
                8 <= m <= 15,
                0 <= q <= 0x4000,
        ;
        assert(q <= 0x2000 ==> m * q <= 15 * 0x2000) by (nonlinear_arith)
            requires
                8 <= m <= 15,
                0 <= q <= 0x4000,
        ;
    }
    (8 + mant) * p
}

/// Largest magnitude among the scales of all experts.
pub open spec fn max_units_row(s: Seq<u8>) -> int
    decreases s.len(),
{
    if s.len() == 0 {
        0
    } else {
        crate::num::max_int(max_units_row(s.drop_last()), factor_units(s.last()))
    }
}

/// Largest magnitude among the scales of all experts.
pub open spec fn max_units(scales: Seq<Vec<u8>>) -> int
    decreases scales.len(),
{
    if scales.len() == 0 {
        0
    } else {
        crate::num::max_int(max_units(scales.drop_last()), max_units_row(scales.last()@))
    }
}

/// One power of two for every expert of a projection: the largest that keeps
/// the largest scale within the format, and one where there is no scale.
pub fn combined_scale_factor(scales: &[Vec<u8>]) -> (r: u32)
    ensures
        is_power_of_two(r as int),
        1 <= r <= 0x2_0000,
        ({
            let m = max_units(scales@);
            if m == 0 || m >= MAX_UNITS {
                r == 1
            } else {
                r * m <= MAX_UNITS < 2 * r * m
            }
        }),
{
    let mut best: u64 = 0;
    let mut i: usize = 0;
    while i < scales.len()
        invariant
            i <= scales@.len(),
            best == max_units(scales@.take(i as int)),
            best <= MAX_UNITS,
        decreases scales@.len() - i,
    {
        let row: &Vec<u8> = &scales[i];
        let mut row_best: u64 = 0;
        let mut j: usize = 0;
        while j < row.len()
            invariant
                j <= row@.len(),
                row_best == max_units_row(row@.take(j as int)),
                row_best <= MAX_UNITS,
            decreases row@.len() - j,
        {
            let b: u8 = row[j];
            if b < 0x7f {
                let u: u64 = units(b);
                if u > row_best {
                    row_best = u;
                }
            }
            proof {
                let next = row@.take(j + 1);
                assert(next.drop_last() =~= row@.take(j as int));
                assert(next.last() == b);
                if b < 0x7f && b > 0 {
                    crate::codec::law_e4m3_monotone(0, b as int);
                }
            }
            j = j + 1;
        }
        assert(row@.take(row@.len() as int) =~= row@);
        if row_best > best {
            best = row_best;
        }
        proof {
            let next = scales@.take(i + 1);
            assert(next.drop_last() =~= scales@.take(i as int));
            assert(next.last() == row);
        }
        i = i + 1;
    }
    assert(scales@.take(scales@.len() as int) =~= scales@);
    proof {
        lemma2_to64();
        assert(1 == pow2(0));
    }
    if best == 0 || best >= MAX_UNITS {
        return 1;
    }
    let mut factor: u64 = 1;
    while factor * best <= MAX_UNITS / 2
        invariant
            1 <= best < MAX_UNITS,
            1 <= factor <= 0x2_0000,
            is_power_of_two(factor as int),
            factor * best <= MAX_UNITS,
        decreases MAX_UNITS - factor * best,
    {
        proof {
            let t = choose|t: nat| factor as int == #[trigger] pow2(t);
            lemma_pow2_adds(t, 1);
            lemma2_to64();
            assert(2 * factor as int == pow2(t + 1));
            assert(2 * factor * best == 2 * (factor * best)) by (nonlinear_arith);
            assert(2 * factor <= 229376) by (nonlinear_arith)
                requires
                    2 * (factor * best) <= 229376,
                    best >= 1,
            ;
            lemma_power_below(t + 1);
            assert(factor * best >= 1) by (nonlinear_arith)
                requires
                    factor >= 1,
                    best >= 1,
            ;
        }
        factor = factor * 2;
    }
    proof {
        let f = factor as int;
        let m = best as int;
        assert(2 * f * m == 2 * (f * m)) by (nonlinear_arith);
    }
    factor as u32
}

/// A power of two below 2^18 is at most 2^17.
proof fn lemma_power_below(t: nat)
    requires
        pow2(t) <= 229376,
    ensures
        pow2(t) <= 0x2_0000,
{
    lemma2_to64();
    if t >= 18 {
        lemma_pow2_adds(18, (t - 18) as nat);
        lemma_pow2_pos((t - 18) as nat);
        let w = pow2((t - 18) as nat) as int;
        assert(0x4_0000 * w >= 0x4_0000) by (nonlinear_arith)
            requires
                w >= 1,
        ;
    } else {
        assert(t == 0 || t == 1 || t == 2 || t == 3 || t == 4 || t == 5 || t == 6 || t == 7 || t
            == 8 || t == 9 || t == 10 || t == 11 || t == 12 || t == 13 || t == 14 || t == 15 || t
            == 16 || t == 17);
    }
}

/// Value of a re-encoded scale, in units of 2^-18.
pub open spec fn s0e5m3_units(c: int) -> int {
    (8 + c % 8) * pow2((c / 8) as nat)
}

/// What a scale code becomes under `factor`: zero below the smallest value
/// kept, the code of infinity beyond the largest, and 128 times the scaled
/// value otherwise. A NaN stays one.
pub open spec fn encodes(b: u8, factor: int, c: u8) -> bool {
    let scaled = e4m3_units(b as int) * factor;
    if e4m3_is_nan(b as int) {
        c == 0xfc
    } else if b >= 0x80 || scaled < 8 {
        c == 0
    } else if scaled >= 0x4_0000 {
        c == 0xf8
    } else {
        8 * 16 <= c < 0xf8 && s0e5m3_units(c as int) == scaled * 0x1_0000
    }
}

/// Re-encodes one scale code under a power-of-two factor.
pub fn encode_s0e5m3(b: u8, factor: u32) -> (c: u8)
    requires
        is_power_of_two(factor as int),
    ensures
        encodes(b, factor as int, c),
{
    if b % 0x80 == 0x7f {
        return 0xfc;
    }
    let u: u64 = units(b);
    proof {
        let x = u as int;
        let f = factor as int;
        assert(0 <= x * f <= 229376 * 0xffff_ffff) by (nonlinear_arith)
            requires
                0 <= x <= 229376,
                0 <= f <= 0xffff_ffff,
        ;
    }
    let scaled: u64 = u * (factor as u64);
    if b >= 0x80 || scaled < 8 {
        return 0;
    }
    if scaled >= 0x4_0000 {
        return 0xf8;
    }
    proof {
        lemma_four_bits(b, factor as int);
        lemma2_to64();
    }
    let mut top: u64 = scaled;
    let mut k: u8 = 0;
    let ghost whole = scaled as int;
    while top >= 16
        invariant
            scaled == whole,
            8 <= top,
            top * pow2(k as nat) == whole,
            8 <= whole < 0x4_0000,
            k <= 14,
            exists|m: nat, t: nat| #[trigger] four_bits(whole, m, t),
        decreases top,
    {
        proof {
            let (m, t) = choose|m: nat, t: nat| #[trigger] four_bits(whole, m, t);
            lemma_even(top as int, k as nat, m, t);
            lemma_pow2_adds(k as nat, 1);
            lemma2_to64();
            let p = pow2(k as nat) as int;
            let h = top as int / 2;
            assert(top as int == 2 * h);
            assert(h * (2 * p) == top * p) by (nonlinear_arith)
                requires
                    top as int == 2 * h,
            ;
            assert(pow2((k + 1) as nat) == 2 * p);
            if k >= 14 {
                assert(p == 0x4000);
                assert(top * p >= 16 * 0x4000) by (nonlinear_arith)
                    requires
                        top >= 16,
                        p == 0x4000,
                ;
            }
        }
        top = top / 2;
        k = k + 1;
    }
    proof {
        let c = (k + 16) * 8 + (top - 8);
        let p = pow2(k as nat) as int;
        assert(c / 8 == k + 16 && c % 8 == top - 8);
        lemma_pow2_adds(k as nat, 16);
        assert(top * (p * 0x1_0000) == top * p * 0x1_0000) by (nonlinear_arith);
    }
    (k + 16) * 8 + (top - 8) as u8
}

/// `x` is a four-bit number `m` with `t` zeros behind it.
spec fn four_bits(x: int, m: nat, t: nat) -> bool {
    m < 16 && x == m * pow2(t)
}

/// Magnitude times a power of two has at most four significant bits.
proof fn lemma_four_bits(b: u8, factor: int)
    requires
        is_power_of_two(factor),
        !e4m3_is_nan(b as int),
    ensures
        exists|m: nat, t: nat| #[trigger] four_bits(e4m3_units(b as int) * factor, m, t),
{
    let t = choose|t: nat| factor == #[trigger] pow2(t);
    let exp = b as int / 8 % 16;
    let mant = b as int % 8;
    if exp == 0 {
        assert(four_bits(e4m3_units(b as int) * factor, mant as nat, t));
    } else {
        lemma_pow2_adds((exp - 1) as nat, t);
        let p = pow2((exp - 1) as nat) as int;
        assert((8 + mant) * p * factor == (8 + mant) * (p * factor)) by (nonlinear_arith);
        assert(four_bits(
            e4m3_units(b as int) * factor,
            (8 + mant) as nat,
            ((exp - 1) as nat + t) as nat,
        ));
    }
}

/// What is left of a four-bit value after shifting out zeros is even as long
/// as it does not fit in four bits.
proof fn lemma_even(top: int, k: nat, m: nat, t: nat)
    requires
        top >= 16,
        m < 16,
        top * pow2(k) == m * pow2(t),
    ensures
        top % 2 == 0,
{
    lemma_pow2_pos(k);
    lemma_pow2_pos(t);
    if t > k {
        let d = (t - k) as nat;
        lemma_pow2_adds(k, d);
        let p = pow2(k) as int;
        let q = pow2(d) as int;
        assert(top * p == (m * q) * p) by (nonlinear_arith)
            requires
                top * p == m * (p * q),
        ;
        assert(top == m * q) by (nonlinear_arith)
            requires
                top * p == (m * q) * p,
                p > 0,
        ;
        lemma_pow2_adds(1, (d - 1) as nat);
        lemma2_to64();
        let h = pow2((d - 1) as nat) as int;
        assert(m * (2 * h) == 2 * (m * h)) by (nonlinear_arith);
        assert(top == 2 * (m * h));
    } else {
        let d = (k - t) as nat;
        lemma_pow2_adds(t, d);
        lemma_pow2_pos(d);
        let p = pow2(t) as int;
        let q = pow2(d) as int;
        assert(top <= m) by (nonlinear_arith)
            requires
                top * (p * q) == m * p,
                p > 0,
                q > 0,
                top >= 0,
        ;
    }
}

/// Within four scales the middle two change places.
pub open spec fn marlin_lane(lane: int) -> int {
    if lane == 1 {
        2
    } else if lane == 2 {
        1
    } else {
        lane
    }
}

/// Source position, within a run of 64, of the scale that lands at `i`.
pub open spec fn marlin_source(i: int) -> int {
    let j = i / 4 * 4 + marlin_lane(i % 4);
    (j % 8) * 8 + j / 8
}

/// A whole run fits where one of its positions does.
proof fn lemma_run_fits(i: int, len: int)
    requires
        0 <= i < len,
        len % 64 == 0,
    ensures
        i / 64 * 64 + 64 <= len,
{
    assert(i / 64 < len / 64);
}

/// Position of the scale that lands at `i` of a run of 64.
#[verifier::spinoff_prover]
fn source_within(i: usize) -> (r: usize)
    requires
        i < 64,
    ensures
        r == marlin_source(i as int),
        r < 64,
{
    let lane: usize = i % 4;
    let swapped: usize = if lane == 1 {
        2
    } else if lane == 2 {
        1
    } else {
        lane
    };
    let j: usize = i / 4 * 4 + swapped;
    (j % 8) * 8 + j / 8
}

/// Position of the scale that lands at `i` of `len`.
#[verifier::spinoff_prover]
fn source_of(i: usize, len: usize) -> (r: usize)
    requires
        i < len,
        len % 64 == 0,
    ensures
        r == i as int / 64 * 64 + marlin_source(i as int % 64),
        r < len,
{
    let within: usize = source_within(i % 64);
    let run: usize = i / 64;
    proof {
        lemma_run_fits(i as int, len as int);
    }
    run * 64 + within
}

/// Permutes scales within each run of 64 and re-encodes them under `factor`.
pub fn process(logical: &[u8], factor: u32) -> (r: Vec<u8>)
    requires
        logical@.len() % 64 == 0,
        is_power_of_two(factor as int),
    ensures
        r@.len() == logical@.len(),
        forall|i: int|
            0 <= i < logical@.len() ==> encodes(
                logical@[i / 64 * 64 + marlin_source(i % 64)],
                factor as int,
                #[trigger] r@[i],
            ),
{
    let mut out: Vec<u8> = Vec::new();
    let mut i: usize = 0;
    while i < logical.len()
        invariant
            i <= logical@.len(),
            logical@.len() % 64 == 0,
            is_power_of_two(factor as int),
            out@.len() == i,
            forall|j: int|
                0 <= j < i ==> encodes(
                    logical@[j / 64 * 64 + marlin_source(j % 64)],
                    factor as int,
                    #[trigger] out@[j],
                ),
        decreases logical@.len() - i,
    {
        let source: usize = source_of(i, logical.len());
        let c: u8 = encode_s0e5m3(logical[source], factor);
        out.push(c);
        i = i + 1;
    }
    out
}

/// The permutation visits every position of a run exactly once: position `p`
/// is the source of `marlin_target(p)` and of no other.
pub open spec fn marlin_target(p: int) -> int {
    let j = (p % 8) * 8 + p / 8;
    j / 4 * 4 + marlin_lane(j % 4)
}

/// The scale permutation is a bijection of a run of 64.
#[verifier::spinoff_prover]
pub proof fn law_marlin_permutation(i: int)
    requires
        0 <= i < 64,
    ensures
        0 <= marlin_source(i) < 64,
        0 <= marlin_target(i) < 64,
        marlin_target(marlin_source(i)) == i,
        marlin_source(marlin_target(i)) == i,
{
    let a = i / 4;
    let lane = marlin_lane(i % 4);
    let j = 4 * a + lane;
    assert(j % 8 == 4 * (a % 2) + lane && j / 8 == a / 2);
    let p = marlin_source(i);
    assert(p == (4 * (a % 2) + lane) * 8 + a / 2);
    assert(p % 8 == a / 2 && p / 8 == 4 * (a % 2) + lane);
    assert((p % 8) * 8 + p / 8 == j);
    let k = (i % 8) * 8 + i / 8;
    assert(0 <= k < 64);
    let q = marlin_target(i);
    assert(q / 4 == k / 4 && q % 4 == marlin_lane(k % 4));
    assert(q / 4 * 4 + marlin_lane(q % 4) == k);
    assert(k % 8 == i / 8 && k / 8 == i % 8);
}

/// A factor chosen for a projection never drives one of its scales into the
/// code of infinity.
pub proof fn law_factor_keeps_scales_finite(units: int, max: int, factor: int)
    requires
        0 <= units <= max,
        factor >= 1,
        factor * max <= MAX_UNITS,
    ensures
        units * factor < 0x4_0000,
{
    assert(units * factor <= factor * max) by (nonlinear_arith)
        requires
            0 <= units <= max,
            factor >= 1,
    ;
}

/// Pattern of 2^119, by which the kernel's reading of its four-bit values is off.
pub const GLOBAL_BIAS_BITS: u32 = 0x7b00_0000;

/// `inv` is exactly one over `factor`.
pub open spec fn is_reciprocal(inv: Scalar, factor: int) -> bool {
    &&& f32_exp(inv.0 as int) < 0xff
    &&& !f32_negative(inv.0 as int)
    &&& f32_units(inv.0 as int) * factor == pow2(149)
}

/// `r` is a global scale times 2^119 over the shared factor. Dividing by a power of
/// two is the same as multiplying by its reciprocal.
pub open spec fn biases(scale: Scalar, factor: int, r: Scalar) -> bool {
    exists|mid: Scalar, inv: Scalar|
        #![trigger f32_product(mid, inv, r)]
        f32_product(scale, Scalar(GLOBAL_BIAS_BITS), mid) && is_reciprocal(inv, factor)
            && f32_product(mid, inv, r)
}

/// Pattern of one over a power of two.
fn reciprocal(factor: u32) -> (r: Scalar)
    requires
        is_power_of_two(factor as int),
    ensures
        is_reciprocal(r, factor as int),
{
    let mut left: u32 = factor;
    let mut e: u32 = 0;
    let ghost top = choose|t: nat| factor == #[trigger] pow2(t);
    proof {
        lemma2_to64();
        if top >= 32 {
            if top > 32 {
                lemma_pow2_strictly_increases(32, top);
            }
            assert(false);
        }
    }
    while left > 1
        invariant
            e <= top < 32,
            left == pow2((top - e) as nat),
            factor == pow2(top),
        decreases left,
    {
        proof {
            lemma2_to64();
            if e == top {
                assert(false);
            }
            lemma_pow2_adds(1, (top - e - 1) as nat);
            assert(pow2(1) == 2);
        }
        left = left / 2;
        e = e + 1;
    }
    proof {
        lemma2_to64();
        if e < top {
            lemma_pow2_strictly_increases(0, (top - e) as nat);
            assert(false);
        }
        let bits = (127 - e) * 0x80_0000;
        assert(bits / 0x80_0000 == 127 - e && bits % 0x80_0000 == 0);
        assert(f32_exp(bits) == 127 - e && f32_mant(bits) == 0);
        lemma_pow2_adds((126 - e) as nat, e as nat);
        lemma_pow2_adds(23, 126);
        let (a, b) = (pow2((126 - e) as nat), pow2(e as nat));
        assert((0x80_0000 * a) * b == 0x80_0000 * (a * b)) by (nonlinear_arith);
    }
    Scalar((127 - e) * 0x80_0000)
}

/// Global scale of a projection for the kernel, which adds a bias of 119 to the
/// exponent and does not see the factor that the block scales share.
pub fn process_global(scale: Scalar, factor: u32) -> (r: Scalar)
    requires
        is_power_of_two(factor as int),
    ensures
        biases(scale, factor as int, r),
{
    let mid: Scalar = f32_mul(scale, Scalar(GLOBAL_BIAS_BITS));
    let inv: Scalar = reciprocal(factor);
    f32_mul(mid, inv)
}

} // verus!
