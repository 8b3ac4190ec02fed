//! Integer helpers shared by the planning code.
use crate::device::Scalar;
use vstd::prelude::*;

verus! {

/// `ceil(a / b)` over the integers.
pub open spec fn ceil_div(a: int, b: int) -> int {
    if a % b == 0 {
        a / b
    } else {
        a / b + 1
    }
}

/// Smallest integer not below `a / b`.
pub fn div_ceil(a: usize, b: usize) -> (r: usize)
    requires
        b > 0,
    ensures
        r == ceil_div(a as int, b as int),
        r <= a,
{
    proof {
        lemma_ceil_div_bound(a as int, b as int);
    }
    if a % b == 0 {
        a / b
    } else {
        a / b + 1
    }
}

/// Smallest integer not below `a / b`, for grid dimensions.
pub fn div_ceil_u32(a: u32, b: u32) -> (r: u32)
    requires
        b > 0,
    ensures
        r == ceil_div(a as int, b as int),
        r <= a,
{
    proof {
        lemma_ceil_div_bound(a as int, b as int);
    }
    if a % b == 0 {
        a / b
    } else {
        a / b + 1
    }
}

proof fn lemma_ceil_div_bound(a: int, b: int)
    requires
        a >= 0,
        b > 0,
    ensures
        0 <= ceil_div(a, b) <= a,
        a / b <= a,
{
    assert(0 <= a / b <= a && (a % b != 0 ==> a / b < a)) by (nonlinear_arith)
        requires
            a >= 0,
            b > 0,
    ;
}

/// `ceil_div(a, b)` blocks of `b` cover `a` items, and one block fewer does not.
pub proof fn lemma_ceil_div_covers(a: int, b: int)
    requires
        a >= 0,
        b > 0,
    ensures
        ceil_div(a, b) * b >= a,
        a > 0 ==> (ceil_div(a, b) - 1) * b < a,
        ceil_div(a, b) >= 0,
{
    let q = a / b;
    let r = a % b;
    assert(a == q * b + r && 0 <= r < b && q >= 0) by (nonlinear_arith)
        requires
            a >= 0,
            b > 0,
            q == a / b,
            r == a % b,
    ;
    assert((q + 1) * b == q * b + b) by (nonlinear_arith);
    assert((q - 1) * b == q * b - b) by (nonlinear_arith);
}

/// Row `i` of `n` rows of `stride` ends within `n * stride`.
pub proof fn lemma_row_in(i: int, n: int, stride: int)
    requires
        0 <= i < n,
        0 <= stride,
    ensures
        0 <= i * stride,
        i * stride + stride <= n * stride,
        i * stride <= n * stride,
        (i + 1) * stride == i * stride + stride,
{
    assert(0 <= i * stride && i * stride + stride <= n * stride && (i + 1) * stride == i * stride
        + stride) by (nonlinear_arith)
        requires
            0 <= i < n,
            0 <= stride,
    ;
}

/// `max(a, b)`.
pub open spec fn max_int(a: int, b: int) -> int {
    if a >= b {
        a
    } else {
        b
    }
}

/// `min(a, b)`.
pub open spec fn min_int(a: int, b: int) -> int {
    if a <= b {
        a
    } else {
        b
    }
}

/// `a * b`, or the largest `usize` where the product does not fit.
pub fn saturating_mul(a: usize, b: usize) -> (r: usize)
    ensures
        r == min_int(a * b, usize::MAX as int),
{
    match a.checked_mul(b) {
        Some(p) => p,
        None => usize::MAX,
    }
}

/// Value of four little-endian bytes.
pub open spec fn le_u32(b: Seq<u8>, at: int) -> int {
    b[at] + 0x100 * b[at + 1] + 0x1_0000 * b[at + 2] + 0x100_0000 * b[at + 3]
}

/// Value of eight little-endian bytes.
pub open spec fn le_u64(b: Seq<u8>, at: int) -> int {
    le_u32(b, at) + 0x1_0000_0000 * le_u32(b, at + 4)
}

/// Two's-complement reading of a 32-bit word.
pub open spec fn as_signed(w: int) -> int {
    if w >= 0x8000_0000 {
        w - 0x1_0000_0000
    } else {
        w
    }
}

/// Reads the little-endian word that starts at byte `at`.
pub fn read_u32(b: &[u8], at: usize) -> (r: u32)
    requires
        at + 4 <= b@.len(),
    ensures
        r == le_u32(b@, at as int),
{
    b[at] as u32 + 0x100 * (b[at + 1] as u32) + 0x1_0000 * (b[at + 2] as u32) + 0x100_0000 * (b[at
        + 3] as u32)
}

/// Reads the little-endian signed word that starts at byte `at`.
pub fn read_i32(b: &[u8], at: usize) -> (r: i32)
    requires
        at + 4 <= b@.len(),
    ensures
        r == as_signed(le_u32(b@, at as int)),
{
    let w: u32 = read_u32(b, at);
    if w >= 0x8000_0000 {
        (w as i64 - 0x1_0000_0000) as i32
    } else {
        w as i32
    }
}

/// Reads the little-endian double word that starts at byte `at`.
pub fn read_u64(b: &[u8], at: usize) -> (r: u64)
    requires
        at + 8 <= b.len(),
    ensures
        r == le_u64(b@, at as int),
{
    read_u32(b, at) as u64 + 0x1_0000_0000 * (read_u32(b, at + 4) as u64)
}

/// The four little-endian bytes of `w`.
pub open spec fn u32_bytes(w: int) -> Seq<u8> {
    seq![
        (w % 0x100) as u8,
        (w / 0x100 % 0x100) as u8,
        (w / 0x1_0000 % 0x100) as u8,
        (w / 0x100_0000 % 0x100) as u8,
    ]
}

/// The eight little-endian bytes of `w`.
pub open spec fn u64_bytes(w: int) -> Seq<u8> {
    u32_bytes(w % 0x1_0000_0000) + u32_bytes(w / 0x1_0000_0000)
}

/// Decoding an encoded word gives the word back.
pub proof fn lemma_u32_bytes_round_trip(w: int)
    requires
        0 <= w < 0x1_0000_0000,
    ensures
        u32_bytes(w).len() == 4,
        le_u32(u32_bytes(w), 0) == w,
{
}

/// Decoding an encoded double word gives it back.
pub proof fn lemma_u64_bytes_round_trip(w: int)
    requires
        0 <= w < 0x1_0000_0000_0000_0000,
    ensures
        u64_bytes(w).len() == 8,
        le_u64(u64_bytes(w), 0) == w,
{
    let s = u64_bytes(w);
    let lo = w % 0x1_0000_0000;
    let hi = w / 0x1_0000_0000;
    lemma_u32_bytes_round_trip(lo);
    lemma_u32_bytes_round_trip(hi);
    assert(forall|i: int| 0 <= i < 4 ==> s[i] == u32_bytes(lo)[i]);
    assert(forall|i: int| 0 <= i < 4 ==> s[i + 4] == #[trigger] u32_bytes(hi)[i]);
    assert(s[4] == u32_bytes(hi)[0] && s[5] == u32_bytes(hi)[1] && s[6] == u32_bytes(hi)[2] && s[7]
        == u32_bytes(hi)[3]);
    assert(s[0] == u32_bytes(lo)[0] && s[1] == u32_bytes(lo)[1] && s[2] == u32_bytes(lo)[2] && s[3]
        == u32_bytes(lo)[3]);
}

/// Appends the little-endian bytes of `w`.
pub fn push_u32(out: &mut Vec<u8>, w: u32)
    ensures
        final(out)@ == old(out)@ + u32_bytes(w as int),
{
    out.push((w % 0x100) as u8);
    out.push((w / 0x100 % 0x100) as u8);
    out.push((w / 0x1_0000 % 0x100) as u8);
    out.push((w / 0x100_0000 % 0x100) as u8);
}

/// Appends the little-endian bytes of `w`.
pub fn push_u64(out: &mut Vec<u8>, w: u64)
    ensures
        final(out)@ == old(out)@ + u64_bytes(w as int),
{
    let ghost before = out@;
    push_u32(out, (w % 0x1_0000_0000) as u32);
    push_u32(out, (w / 0x1_0000_0000) as u32);
    assert(out@ =~= before + u64_bytes(w as int));
}

/// Double words of a readback.
pub fn decode_u64s(bytes: &[u8], n: usize) -> (r: Vec<u64>)
    requires
        bytes.len() >= 8 * n,
    ensures
        r@.len() == n,
        forall|i: int| 0 <= i < n ==> #[trigger] r@[i] == le_u64(bytes@, 8 * i),
{
    let mut out: Vec<u64> = Vec::new();
    let mut i: usize = 0;
    while i < n
        invariant
            i <= n,
            bytes.len() >= 8 * n,
            out@.len() == i,
            forall|j: int| 0 <= j < i ==> #[trigger] out@[j] == le_u64(bytes@, 8 * j),
        decreases n - i,
    {
        out.push(read_u64(bytes, 8 * i));
        i = i + 1;
    }
    out
}

/// Words of a readback.
pub fn decode_scalars(bytes: &[u8], n: usize) -> (r: Vec<Scalar>)
    requires
        bytes.len() >= 4 * n,
    ensures
        r@.len() == n,
        forall|i: int| 0 <= i < n ==> (#[trigger] r@[i]).0 == le_u32(bytes@, 4 * i),
{
    let mut out: Vec<Scalar> = Vec::new();
    let mut i: usize = 0;
    while i < n
        invariant
            i <= n,
            bytes.len() >= 4 * n,
            out@.len() == i,
            forall|j: int| 0 <= j < i ==> (#[trigger] out@[j]).0 == le_u32(bytes@, 4 * j),
        decreases n - i,
    {
        out.push(Scalar(read_u32(bytes, 4 * i)));
        i = i + 1;
    }
    out
}

/// Signed words of a readback.
pub fn decode_i32s(bytes: &[u8], n: usize) -> (r: Vec<i32>)
    requires
        bytes.len() >= 4 * n,
    ensures
        r@.len() == n,
        forall|i: int| 0 <= i < n ==> #[trigger] r@[i] == as_signed(le_u32(bytes@, 4 * i)),
{
    let mut out: Vec<i32> = Vec::new();
    let mut i: usize = 0;
    while i < n
        invariant
            i <= n,
            bytes.len() >= 4 * n,
            out@.len() == i,
            forall|j: int| 0 <= j < i ==> #[trigger] out@[j] == as_signed(le_u32(bytes@, 4 * j)),
        decreases n - i,
    {
        out.push(read_i32(bytes, 4 * i));
        i = i + 1;
    }
    out
}

/// Little-endian bytes of signed words.
pub open spec fn i32s_bytes(vals: Seq<i32>) -> Seq<u8>
    decreases vals.len(),
{
    if vals.len() == 0 {
        Seq::empty()
    } else {
        i32s_bytes(vals.drop_last()) + u32_bytes(vals.last() as u32 as int)
    }
}

/// Little-endian bytes of signed words.
pub fn encode_i32s(vals: &Vec<i32>) -> (r: Vec<u8>)
    ensures
        r@ == i32s_bytes(vals@),
{
    let mut out: Vec<u8> = Vec::new();
    let mut i: usize = 0;
    while i < vals.len()
        invariant
            i <= vals@.len(),
            out@ == i32s_bytes(vals@.take(i as int)),
        decreases vals@.len() - i,
    {
        push_u32(&mut out, vals[i] as u32);
        proof {
            let next = vals@.take(i + 1);
            assert(next.drop_last() =~= vals@.take(i as int));
        }
        i = i + 1;
    }
    assert(vals@.take(i as int) =~= vals@);
    out
}

/// Word `i` of encoded signed words is word `i`.
pub proof fn lemma_i32s_word(vals: Seq<i32>, i: int)
    requires
        0 <= i < vals.len(),
    ensures
        i32s_bytes(vals).len() == 4 * vals.len(),
        le_u32(i32s_bytes(vals), 4 * i) == vals[i] as u32,
    decreases vals.len(),
{
    let prev = vals.drop_last();
    let last = u32_bytes(vals.last() as u32 as int);
    let all = i32s_bytes(vals);
    lemma_i32s_len(prev);
    if i < prev.len() {
        lemma_i32s_word(prev, i);
        let b = i32s_bytes(prev);
        assert(all[4 * i] == b[4 * i] && all[4 * i + 1] == b[4 * i + 1] && all[4 * i + 2] == b[4 * i
            + 2] && all[4 * i + 3] == b[4 * i + 3]);
    } else {
        lemma_u32_bytes_round_trip(vals.last() as u32 as int);
        assert(all[4 * i] == last[0] && all[4 * i + 1] == last[1] && all[4 * i + 2] == last[2]
            && all[4 * i + 3] == last[3]);
    }
}

/// Signed words take four bytes each.
pub proof fn lemma_i32s_len(vals: Seq<i32>)
    ensures
        i32s_bytes(vals).len() == 4 * vals.len(),
    decreases vals.len(),
{
    if vals.len() > 0 {
        lemma_i32s_len(vals.drop_last());
    }
}

} // verus!
