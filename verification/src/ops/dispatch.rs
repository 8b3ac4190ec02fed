//! Routes of projections through external libraries, and what is logged of them.
//!
//! Weights that a route needs in another format are converted once. A cache
//! keeps the converted weight under the address of the original.
use crate::device::{Cmd, CommandBuffer, DevicePtr, Dim3, KernelArg, KernelHandle, KernelLaunch, Launch, Scalar};
use crate::env::EnvVars;
use crate::moe::b12x_scales::ONE_BITS;
use crate::num::{ceil_div, div_ceil_u32};
use crate::ops_table::{DeviceOp, LibraryGemm, LibraryGemmArgs};
use crate::text::same_text;
use crate::weights::{Fp8Weight, QuantizedWeight};
use vstd::prelude::*;

verus! {

/// Whether prefill of eight-bit weights keeps a scale per block, which is the default.
pub fn fp8_blockscaled_prefill_enabled(env: &EnvVars) -> (r: bool)
    ensures
        r == !env.says("ATLAS_FP8_SINGLE_SCALE"@, "1"@),
{
    !env.is("ATLAS_FP8_SINGLE_SCALE", "1")
}

/// Whether projections may run through cuBLASLt in bfloat16.
pub fn cublas_gemm_enabled(env: &EnvVars) -> (r: bool)
    ensures
        r == env.says("ATLAS_CUBLAS_GEMM"@, "1"@),
{
    env.is("ATLAS_CUBLAS_GEMM", "1")
}

/// Whether projections may run through cuBLASLt in eight bits.
pub fn cublas_fp8_enabled(env: &EnvVars) -> (r: bool)
    ensures
        r == env.says("ATLAS_CUBLAS_FP8"@, "1"@),
{
    env.is("ATLAS_CUBLAS_FP8", "1")
}

/// Whether projections may run through CUTLASS in bfloat16.
pub fn cutlass_gemm_enabled(env: &EnvVars) -> (r: bool)
    ensures
        r == env.says("ATLAS_CUTLASS_GEMM"@, "1"@),
{
    env.is("ATLAS_CUTLASS_GEMM", "1")
}

/// Whether projections may run through CUTLASS in four bits.
pub fn cutlass_nvfp4_gemm_enabled(env: &EnvVars) -> (r: bool)
    ensures
        r == env.says("ATLAS_CUTLASS_NVFP4_GEMM"@, "1"@),
{
    env.is("ATLAS_CUTLASS_NVFP4_GEMM", "1")
}

/// Whether the recurrent input projection may run through CUTLASS in four bits.
pub fn cutlass_nvfp4_qkvz_enabled(env: &EnvVars) -> (r: bool)
    ensures
        r == (env.says("ATLAS_CUTLASS_NVFP4_GEMM"@, "1"@) || env.says("ATLAS_CUTLASS_NVFP4_QKVZ"@, "1"@)),
{
    cutlass_nvfp4_gemm_enabled(env) || env.is("ATLAS_CUTLASS_NVFP4_QKVZ", "1")
}

/// Whether the named attention projection may run through CUTLASS in four bits.
pub fn cutlass_nvfp4_attn_qkv_enabled(env: &EnvVars, label: &str) -> (r: bool)
    ensures
        r == (env.says("ATLAS_CUTLASS_NVFP4_GEMM"@, "1"@) || (label@ == "q_proj"@ && env.says(
            "ATLAS_CUTLASS_NVFP4_ATTN_Q"@,
            "1"@,
        )) || (label@ != "q_proj"@ && (label@ == "k_proj"@ || label@ == "v_proj"@) && env.says(
            "ATLAS_CUTLASS_NVFP4_ATTN_KV"@,
            "1"@,
        ))),
{
    if cutlass_nvfp4_gemm_enabled(env) {
        return true;
    }
    if same_text(label, "q_proj") {
        env.is("ATLAS_CUTLASS_NVFP4_ATTN_Q", "1")
    } else if same_text(label, "k_proj") || same_text(label, "v_proj") {
        env.is("ATLAS_CUTLASS_NVFP4_ATTN_KV", "1")
    } else {
        false
    }
}

/// Whether the attention output projection may run through CUTLASS in four bits.
pub fn cutlass_nvfp4_attn_o_enabled(env: &EnvVars) -> (r: bool)
    ensures
        r == (env.says("ATLAS_CUTLASS_NVFP4_GEMM"@, "1"@) || env.says("ATLAS_CUTLASS_NVFP4_ATTN_O"@, "1"@)),
{
    cutlass_nvfp4_gemm_enabled(env) || env.is("ATLAS_CUTLASS_NVFP4_ATTN_O", "1")
}

/// Whether the recurrent output projection may run through CUTLASS in four bits. The
/// general switch does not turn it on.
pub fn cutlass_nvfp4_ssm_out_enabled(env: &EnvVars) -> (r: bool)
    ensures
        r == env.says("ATLAS_CUTLASS_NVFP4_SSM_OUT"@, "1"@),
{
    env.is("ATLAS_CUTLASS_NVFP4_SSM_OUT", "1")
}

/// Start value and factor of the 64-bit FNV-1a hash.
pub const FNV_BASIS: u64 = 1_469_598_103_934_665_603;

pub const FNV_PRIME: u64 = 1_099_511_628_211;

/// Hash of bytes: each is mixed in and the result multiplied, modulo 2^64.
pub open spec fn fnv(b: Seq<u8>) -> u64
    decreases b.len(),
{
    if b.len() == 0 {
        FNV_BASIS
    } else {
        (((fnv(b.drop_last()) ^ (b.last() as u64)) * FNV_PRIME) % 0x1_0000_0000_0000_0000) as u64
    }
}

/// Hash of a name's bytes.
pub fn hash_name(name: &str) -> (r: u64)
    ensures
        r == fnv(vstd::utf8::encode_utf8(name@)),
{
    let b: &[u8] = name.as_bytes();
    let mut h: u64 = FNV_BASIS;
    let mut i: usize = 0;
    while i < b.len()
        invariant
            i <= b@.len(),
            b@ == vstd::utf8::encode_utf8(name@),
            h == fnv(b@.take(i as int)),
        decreases b@.len() - i,
    {
        proof {
            let next = b@.take(i + 1);
            assert(next.drop_last() =~= b@.take(i as int));
            assert(next.last() == b@[i as int]);
        }
        let mixed: u64 = h ^ (b[i] as u64);
        h = mixed.wrapping_mul(FNV_PRIME);
        i = i + 1;
    }
    assert(b@.take(i as int) =~= b@);
    h
}

/// A product of a named route.
#[derive(Debug, Clone, Copy, PartialEq, Eq, Structural)]
pub struct ShapeKey {
    pub name_hash: u64,
    pub m: u32,
    pub n: u32,
    pub k: u32,
}

/// Products that were logged, each once.
#[derive(Debug, PartialEq, Eq)]
pub struct SeenShapes {
    pub keys: Vec<ShapeKey>,
}

impl SeenShapes {
    /// No product was logged twice.
    pub open spec fn wf(&self) -> bool {
        forall|i: int, j: int|
            0 <= i < j < self.keys@.len() ==> #[trigger] self.keys@[i] != #[trigger] self.keys@[j]
    }

    pub fn new() -> (r: SeenShapes)
        ensures
            r.wf(),
            r.keys@.len() == 0,
    {
        SeenShapes { keys: Vec::new() }
    }

    /// Adds a product, and says whether it is new.
    pub fn insert(&mut self, key: ShapeKey) -> (fresh: bool)
        requires
            old(self).wf(),
        ensures
            final(self).wf(),
            fresh == !old(self).keys@.contains(key),
            final(self).keys@ == (if fresh {
                old(self).keys@.push(key)
            } else {
                old(self).keys@
            }),
    {
        let mut i: usize = 0;
        while i < self.keys.len()
            invariant
                i <= self.keys@.len(),
                self.wf(),
                self.keys@ == old(self).keys@,
                forall|j: int| 0 <= j < i ==> #[trigger] self.keys@[j] != key,
            decreases self.keys@.len() - i,
        {
            if self.keys[i] == key {
                assert(self.keys@[i as int] == key);
                return false;
            }
            i = i + 1;
        }
        self.keys.push(key);
        true
    }
}

/// Key of a product.
pub open spec fn shape_key(name: Seq<char>, m: u32, n: u32, k: u32) -> ShapeKey {
    ShapeKey { name_hash: fnv(vstd::utf8::encode_utf8(name)), m, n, k }
}

/// Remembers a product through CUTLASS, and says whether it is to be logged: the
/// first time only.
pub fn log_cutlass_nvfp4_route(seen: &mut SeenShapes, name: &str, m: u32, n: u32, k: u32) -> (log: bool)
    requires
        old(seen).wf(),
    ensures
        final(seen).wf(),
        log == !old(seen).keys@.contains(shape_key(name@, m, n, k)),
        final(seen).keys@ == (if log {
            old(seen).keys@.push(shape_key(name@, m, n, k))
        } else {
            old(seen).keys@
        }),
{
    let key = ShapeKey { name_hash: hash_name(name), m, n, k };
    seen.insert(key)
}

/// Remembers a product where shapes are logged, and says whether it is to be: the
/// first time only.
pub fn log_gemm_shape(seen: &mut SeenShapes, env: &EnvVars, name: &str, m: u32, n: u32, k: u32) -> (log:
    bool)
    requires
        old(seen).wf(),
    ensures
        final(seen).wf(),
        log == (env.says("ATLAS_GEMM_SHAPE_LOG"@, "1"@) && !old(seen).keys@.contains(
            shape_key(name@, m, n, k),
        )),
        final(seen).keys@ == (if log {
            old(seen).keys@.push(shape_key(name@, m, n, k))
        } else {
            old(seen).keys@
        }),
{
    if !env.is("ATLAS_GEMM_SHAPE_LOG", "1") {
        return false;
    }
    let key = ShapeKey { name_hash: hash_name(name), m, n, k };
    seen.insert(key)
}

/// A converted weight and its scales.
#[derive(Debug, Clone, Copy, PartialEq, Eq, Structural)]
pub struct CachedWeight {
    pub weight: DevicePtr,
    /// Null where the format has none.
    pub scale: DevicePtr,
}

/// An original and what became of it.
#[derive(Debug, Clone, Copy, PartialEq, Eq, Structural)]
pub struct CacheEntry {
    pub original: DevicePtr,
    pub converted: CachedWeight,
}

/// Converted weights by the address of the original.
#[derive(Debug, PartialEq, Eq)]
pub struct WeightCache {
    pub entries: Vec<CacheEntry>,
}

/// The entry for `original` among the first `n`.
pub open spec fn cached(entries: Seq<CacheEntry>, original: DevicePtr, n: nat) -> Option<CachedWeight>
    decreases n,
{
    if n == 0 {
        None
    } else {
        match cached(entries, original, (n - 1) as nat) {
            Some(w) => Some(w),
            None => if entries[n - 1].original == original {
                Some(entries[n - 1].converted)
            } else {
                None
            },
        }
    }
}

proof fn lemma_cached_extends(entries: Seq<CacheEntry>, e: CacheEntry, p: DevicePtr, n: nat)
    requires
        n <= entries.len(),
    ensures
        cached(entries.push(e), p, n) == cached(entries, p, n),
    decreases n,
{
    if n > 0 {
        lemma_cached_extends(entries, e, p, (n - 1) as nat);
    }
}

proof fn lemma_cached_at(entries: Seq<CacheEntry>, p: DevicePtr, i: nat, n: nat)
    requires
        i < n <= entries.len(),
        cached(entries, p, i) is None,
        entries[i as int].original == p,
    ensures
        cached(entries, p, n) == Some(entries[i as int].converted),
    decreases n,
{
    if i < n - 1 {
        lemma_cached_at(entries, p, i, (n - 1) as nat);
    }
}

impl WeightCache {
    /// What an original was converted to.
    pub open spec fn find(&self, original: DevicePtr) -> Option<CachedWeight> {
        cached(self.entries@, original, self.entries@.len())
    }

    /// What an original is converted to once it was asked for: what it was converted
    /// to before, else `to`.
    pub open spec fn find_or(&self, original: DevicePtr, to: CachedWeight) -> CachedWeight {
        match self.find(original) {
            Some(c) => c,
            None => to,
        }
    }

    /// This cache holds `c` for `original`, and for all others what `before` held.
    pub open spec fn extends(&self, before: &WeightCache, original: DevicePtr, c: CachedWeight) -> bool {
        &&& self.find(original) == Some(c)
        &&& forall|p: DevicePtr| p != original ==> #[trigger] self.find(p) == before.find(p)
    }

    pub fn new() -> (r: WeightCache)
        ensures
            forall|p: DevicePtr| #[trigger] r.find(p) is None,
    {
        WeightCache { entries: Vec::new() }
    }

    /// What an original was converted to.
    pub fn get(&self, original: DevicePtr) -> (r: Option<CachedWeight>)
        ensures
            r == self.find(original),
    {
        let mut i: usize = 0;
        while i < self.entries.len()
            invariant
                i <= self.entries@.len(),
                cached(self.entries@, original, i as nat) is None,
            decreases self.entries@.len() - i,
        {
            if self.entries[i].original == original {
                proof {
                    lemma_cached_at(self.entries@, original, i as nat, self.entries@.len());
                }
                return Some(self.entries[i].converted);
            }
            i = i + 1;
        }
        None
    }

    fn insert(&mut self, original: DevicePtr, converted: CachedWeight)
        requires
            old(self).find(original) is None,
        ensures
            final(self).find(original) == Some(converted),
            forall|p: DevicePtr|
                p != original ==> #[trigger] final(self).find(p) == old(self).find(p),
    {
        let ghost was = self.entries@;
        let e = CacheEntry { original, converted };
        self.entries.push(e);
        proof {
            lemma_cached_extends(was, e, original, was.len());
            assert forall|p: DevicePtr| p != original implies #[trigger] self.find(p) == cached(
                was,
                p,
                was.len(),
            ) by {
                lemma_cached_extends(was, e, p, was.len());
            }
        }
    }
}

/// Expands an eight-bit `[n, k]` weight with a single-precision scale per block of 128 by 128.
pub open spec fn dequant_fp8_blockscaled_launch(
    kernel: KernelHandle,
    weight: DevicePtr, scale: DevicePtr, out: DevicePtr, n: u32, k: u32,
) -> Launch {
    Launch {
        kernel,
        grid: Dim3 { x: ceil_div(k as int, 64) as u32, y: ceil_div(n as int, 4) as u32, z: 1 },
        block: Dim3 { x: 64, y: 4, z: 1 },
        shared_mem: 0,
        args: seq![
            KernelArg::Ptr(weight), KernelArg::Ptr(scale), KernelArg::Ptr(out), KernelArg::U32(n),
            KernelArg::U32(k), KernelArg::U32(128), KernelArg::U32(128), KernelArg::U32(k / 128),
            KernelArg::U32(1),
        ],
    }
}

/// Records the launch that [`dequant_fp8_blockscaled_launch`] describes.
pub fn dequant_fp8_blockscaled(
    cb: &mut CommandBuffer,
    kernel: KernelHandle,
    weight: DevicePtr, scale: DevicePtr, out: DevicePtr, n: u32, k: u32,
)
    ensures
        final(cb)@ == old(cb)@.push(
            Cmd::Launch(
                dequant_fp8_blockscaled_launch(
                    kernel, weight, scale, out, n, k,
                ),
            ),
        ),
{
    let launch = KernelLaunch {
        kernel,
        grid: Dim3 { x: div_ceil_u32(k, 64), y: div_ceil_u32(n, 4), z: 1 },
        block: Dim3 { x: 64, y: 4, z: 1 },
        shared_mem: 0,
        args: vec![
            KernelArg::Ptr(weight), KernelArg::Ptr(scale), KernelArg::Ptr(out), KernelArg::U32(n),
            KernelArg::U32(k), KernelArg::U32(128), KernelArg::U32(128), KernelArg::U32(k / 128),
            KernelArg::U32(1),
        ],
    };
    assert(launch@ =~= dequant_fp8_blockscaled_launch(
        kernel, weight, scale, out, n, k,
    ));
    cb.launch(launch);
}

/// Quantises `rows` rows of `k` values to eight bits with one scale each.
pub open spec fn quant_rowwise_fp8_launch(
    kernel: KernelHandle,
    input: DevicePtr, out: DevicePtr, scale: DevicePtr, rows: u32, k: u32,
) -> Launch {
    Launch {
        kernel,
        grid: Dim3 { x: rows, y: 1, z: 1 },
        block: Dim3 { x: 256, y: 1, z: 1 },
        shared_mem: 0,
        args: seq![
            KernelArg::Ptr(input), KernelArg::Ptr(out), KernelArg::Ptr(scale),
            KernelArg::U32(rows), KernelArg::U32(k),
        ],
    }
}

/// Records the launch that [`quant_rowwise_fp8_launch`] describes.
pub fn quant_rowwise_fp8(
    cb: &mut CommandBuffer,
    kernel: KernelHandle,
    input: DevicePtr, out: DevicePtr, scale: DevicePtr, rows: u32, k: u32,
)
    ensures
        final(cb)@ == old(cb)@.push(
            Cmd::Launch(
                quant_rowwise_fp8_launch(
                    kernel, input, out, scale, rows, k,
                ),
            ),
        ),
{
    let launch = KernelLaunch {
        kernel,
        grid: Dim3 { x: rows, y: 1, z: 1 },
        block: Dim3 { x: 256, y: 1, z: 1 },
        shared_mem: 0,
        args: vec![
            KernelArg::Ptr(input), KernelArg::Ptr(out), KernelArg::Ptr(scale),
            KernelArg::U32(rows), KernelArg::U32(k),
        ],
    };
    assert(launch@ =~= quant_rowwise_fp8_launch(
        kernel, input, out, scale, rows, k,
    ));
    cb.launch(launch);
}

/// Bytes of an `[n, k]` weight in bfloat16.
pub open spec fn bf16_bytes(w: Fp8Weight) -> int {
    w.n * w.k * 2
}

/// Sizes to allocate for a row-wise conversion: expanded copy, values, scales.
pub fn rowwise_bytes(w: &Fp8Weight) -> (r: (usize, usize, usize))
    requires
        bf16_bytes(*w) <= usize::MAX,
        w.n * 4 <= usize::MAX,
    ensures
        r.0 == w.n * w.k * 2,
        r.1 == w.n * w.k,
        r.2 == w.n * 4,
{
    proof {
        crate::device::lemma_row_bound(w.n as int, w.n as int, w.k as int, 2);
    }
    (w.n as usize * w.k as usize * 2, w.n as usize * w.k as usize, w.n as usize * 4)
}

/// Work of a row-wise conversion.
pub open spec fn rowwise_cmds(
    dequant: KernelHandle,
    quant: KernelHandle,
    w: Fp8Weight,
    bf16: DevicePtr,
    to: CachedWeight,
) -> Seq<Cmd> {
    seq![
        Cmd::Launch(dequant_fp8_blockscaled_launch(dequant, w.weight, w.row_scale, bf16, w.n, w.k)),
        Cmd::Launch(quant_rowwise_fp8_launch(quant, bf16, to.weight, to.scale, w.n, w.k)),
        Cmd::Op(DeviceOp::Synchronize),
        Cmd::Op(DeviceOp::Free { ptr: bf16 }),
    ]
}

/// Converts a weight to row-wise scales, unless that was done before. `bf16` and
/// `to` are memory for it; the expanded copy is released again.
pub fn requant_weight_rowwise_fp8_cached(
    cb: &mut CommandBuffer,
    cache: &mut WeightCache,
    dequant: KernelHandle,
    quant: KernelHandle,
    w: &Fp8Weight,
    bf16: DevicePtr,
    to: CachedWeight,
) -> (r: CachedWeight)
    ensures
        final(cache).extends(old(cache), w.weight, r),
        r == old(cache).find_or(w.weight, to),
        final(cb)@ == old(cb)@ + (if old(cache).find(w.weight) is Some {
            Seq::empty()
        } else {
            rowwise_cmds(dequant, quant, *w, bf16, to)
        }),
{
    let ghost before = cb@;
    if let Some(c) = cache.get(w.weight) {
        assert(cb@ =~= before + Seq::<Cmd>::empty());
        return c;
    }
    dequant_fp8_blockscaled(cb, dequant, w.weight, w.row_scale, bf16, w.n, w.k);
    quant_rowwise_fp8(cb, quant, bf16, to.weight, to.scale, w.n, w.k);
    cb.op(DeviceOp::Synchronize);
    cb.op(DeviceOp::Free { ptr: bf16 });
    cache.insert(w.weight, to);
    assert(cb@ =~= before + rowwise_cmds(dequant, quant, *w, bf16, to));
    to
}

/// A converted weight that has no scales of its own.
pub open spec fn without_scale(weight: DevicePtr) -> CachedWeight {
    CachedWeight { weight, scale: DevicePtr(0) }
}

/// Work of an expansion to bfloat16.
pub open spec fn expand_cmds(dequant: KernelHandle, w: Fp8Weight, to: DevicePtr) -> Seq<Cmd> {
    seq![
        Cmd::Launch(dequant_fp8_blockscaled_launch(dequant, w.weight, w.row_scale, to, w.n, w.k)),
    ]
}

/// Expands a weight to bfloat16, unless that was done before. `to` is memory for
/// it.
pub fn dequant_fp8_bf16_cached(
    cb: &mut CommandBuffer,
    cache: &mut WeightCache,
    dequant: KernelHandle,
    w: &Fp8Weight,
    to: DevicePtr,
) -> (r: DevicePtr)
    ensures
        final(cache).extends(old(cache), w.weight, old(cache).find_or(w.weight, without_scale(to))),
        r == old(cache).find_or(w.weight, without_scale(to)).weight,
        final(cb)@ == old(cb)@ + (if old(cache).find(w.weight) is Some {
            Seq::empty()
        } else {
            expand_cmds(dequant, *w, to)
        }),
{
    let ghost before = cb@;
    if let Some(c) = cache.get(w.weight) {
        assert(cb@ =~= before + Seq::<Cmd>::empty());
        return c.weight;
    }
    dequant_fp8_blockscaled(cb, dequant, w.weight, w.row_scale, to, w.n, w.k);
    cache.insert(w.weight, CachedWeight { weight: to, scale: DevicePtr::null() });
    assert(cb@ =~= before + expand_cmds(dequant, *w, to));
    to
}

/// Work of a transposition of packed values.
pub open spec fn transpose_cmds(w: QuantizedWeight, n: u32, k: u32, to: DevicePtr) -> Seq<Cmd> {
    seq![
        Cmd::Op(DeviceOp::TransposeNvfp4Packed { src: w.weight, dst: to, n, k }),
        Cmd::Op(DeviceOp::Synchronize),
    ]
}

/// Transposes a packed four-bit weight, unless that was done before. `to` is
/// memory of `n * k / 2` bytes for it.
pub fn cutlass_nvfp4_weight_transposed_cached(
    cb: &mut CommandBuffer,
    cache: &mut WeightCache,
    weight_t: &QuantizedWeight,
    n: u32,
    k: u32,
    to: DevicePtr,
) -> (r: DevicePtr)
    ensures
        final(cache).extends(
            old(cache),
            weight_t.weight,
            old(cache).find_or(weight_t.weight, without_scale(to)),
        ),
        r == old(cache).find_or(weight_t.weight, without_scale(to)).weight,
        final(cb)@ == old(cb)@ + (if old(cache).find(weight_t.weight) is Some {
            Seq::empty()
        } else {
            transpose_cmds(*weight_t, n, k, to)
        }),
{
    let ghost before = cb@;
    if let Some(c) = cache.get(weight_t.weight) {
        assert(cb@ =~= before + Seq::<Cmd>::empty());
        return c.weight;
    }
    cb.op(DeviceOp::TransposeNvfp4Packed { src: weight_t.weight, dst: to, n, k });
    cb.op(DeviceOp::Synchronize);
    cache.insert(weight_t.weight, CachedWeight { weight: to, scale: DevicePtr::null() });
    assert(cb@ =~= before + transpose_cmds(*weight_t, n, k, to));
    to
}

/// Work of a conversion to four bits.
pub open spec fn nvfp4_cmds(dequant: KernelHandle, w: Fp8Weight, bf16: DevicePtr, to: CachedWeight) -> Seq<
    Cmd,
> {
    seq![
        Cmd::Launch(dequant_fp8_blockscaled_launch(dequant, w.weight, w.row_scale, bf16, w.n, w.k)),
        Cmd::Op(
            DeviceOp::PackBf16ToNvfp4 {
                src: bf16,
                packed: to.weight,
                scale: to.scale,
                n: w.n,
                k: w.k,
            },
        ),
        Cmd::Op(DeviceOp::Synchronize),
        Cmd::Op(DeviceOp::Free { ptr: bf16 }),
    ]
}

/// Converts an eight-bit weight to four bits, unless that was done before. `bf16`
/// and `to` are memory for it; the expanded copy is released again.
pub fn cutlass_nvfp4_weight_from_fp8_cached(
    cb: &mut CommandBuffer,
    cache: &mut WeightCache,
    dequant: KernelHandle,
    w: &Fp8Weight,
    bf16: DevicePtr,
    to: CachedWeight,
) -> (r: CachedWeight)
    ensures
        final(cache).extends(old(cache), w.weight, r),
        r == old(cache).find_or(w.weight, to),
        final(cb)@ == old(cb)@ + (if old(cache).find(w.weight) is Some {
            Seq::empty()
        } else {
            nvfp4_cmds(dequant, *w, bf16, to)
        }),
{
    let ghost before = cb@;
    if let Some(c) = cache.get(w.weight) {
        assert(cb@ =~= before + Seq::<Cmd>::empty());
        return c;
    }
    dequant_fp8_blockscaled(cb, dequant, w.weight, w.row_scale, bf16, w.n, w.k);
    cb.op(
        DeviceOp::PackBf16ToNvfp4 { src: bf16, packed: to.weight, scale: to.scale, n: w.n, k: w.k },
    );
    cb.op(DeviceOp::Synchronize);
    cb.op(DeviceOp::Free { ptr: bf16 });
    cache.insert(w.weight, to);
    assert(cb@ =~= before + nvfp4_cmds(dequant, *w, bf16, to));
    to
}

/// Rows after padding to whole groups of 16.
pub open spec fn padded_rows(m: u32) -> int {
    ceil_div(m as int, 16) * 16
}

/// Operands of a projection on scratch for quantised activations.
#[derive(Debug, Clone, Copy, PartialEq, Eq, Structural)]
pub struct ProjArgs {
    pub act: DevicePtr,
    pub act_fp8: DevicePtr,
    pub act_scale: DevicePtr,
    pub out: DevicePtr,
    pub m: u32,
    pub n: u32,
    pub k: u32,
}

/// Work of a block-scaled eight-bit projection. Scales of padding rows are zero.
pub open spec fn cublas_fp8_cmds(quant: KernelHandle, p: ProjArgs, w: Fp8Weight) -> Seq<Cmd> {
    let pad = padded_rows(p.m);
    let groups = p.k as int / 128;
    seq![
        Cmd::Op(
            DeviceOp::PerTokenGroupQuantFp8 {
                kernel: quant,
                input: p.act,
                output: p.act_fp8,
                scales: p.act_scale,
                m: p.m,
                k: p.k,
            },
        ),
    ] + (if pad > p.m {
        seq![
            Cmd::Op(
                DeviceOp::Memset {
                    dst: p.act_scale.at(p.m * groups * 4),
                    value: 0,
                    bytes: ((pad - p.m) * groups * 4) as usize,
                },
            ),
        ]
    } else {
        Seq::empty()
    }) + seq![
        Cmd::Op(
            DeviceOp::LibraryGemm(
                LibraryGemmArgs {
                    gemm: LibraryGemm::CublasFp8BlockScaled,
                    act: p.act_fp8,
                    act_scale: p.act_scale,
                    weight: w.weight,
                    weight_scale: w.row_scale,
                    weight_scale_2: Scalar(ONE_BITS),
                    out: p.out,
                    m: pad as u32,
                    n: p.n,
                    k: p.k,
                },
            ),
        ),
    ]
}

/// Records a block-scaled eight-bit projection through cuBLASLt, on rows padded to
/// whole groups of 16.
pub fn cublas_fp8_proj(cb: &mut CommandBuffer, quant: KernelHandle, p: &ProjArgs, w: &Fp8Weight)
    requires
        padded_rows(p.m) <= u32::MAX,
        p.act_scale.holds(padded_rows(p.m), p.k as int / 128, 4),
    ensures
        final(cb)@ == old(cb)@ + cublas_fp8_cmds(quant, *p, *w),
{
    let ghost before = cb@;
    cb.op(
        DeviceOp::PerTokenGroupQuantFp8 {
            kernel: quant,
            input: p.act,
            output: p.act_fp8,
            scales: p.act_scale,
            m: p.m,
            k: p.k,
        },
    );
    let pad: u32 = div_ceil_u32(p.m, 16) * 16;
    proof {
        crate::num::lemma_ceil_div_covers(p.m as int, 16);
    }
    if pad > p.m {
        let groups: usize = (p.k / 128) as usize;
        proof {
            crate::device::lemma_row_bound(p.m as int, pad as int, groups as int, 4);
            crate::device::lemma_row_bound((pad - p.m) as int, pad as int, groups as int, 4);
        }
        let at: usize = p.m as usize * groups * 4;
        let bytes: usize = (pad - p.m) as usize * groups * 4;
        cb.op(DeviceOp::Memset { dst: p.act_scale.offset(at), value: 0, bytes });
    }
    cb.op(
        DeviceOp::LibraryGemm(
            LibraryGemmArgs {
                gemm: LibraryGemm::CublasFp8BlockScaled,
                act: p.act_fp8,
                act_scale: p.act_scale,
                weight: w.weight,
                weight_scale: w.row_scale,
                weight_scale_2: Scalar(ONE_BITS),
                out: p.out,
                m: pad,
                n: p.n,
                k: p.k,
            },
        ),
    );
    assert(cb@ =~= before + cublas_fp8_cmds(quant, *p, *w));
}

/// Product of a row-wise eight-bit projection with a converted weight.
pub open spec fn rowwise_product(quant: KernelHandle, p: ProjArgs, w: CachedWeight) -> Seq<Cmd> {
    seq![
        Cmd::Launch(quant_rowwise_fp8_launch(quant, p.act, p.act_fp8, p.act_scale, p.m, p.k)),
        Cmd::Op(
            DeviceOp::LibraryGemm(
                LibraryGemmArgs {
                    gemm: LibraryGemm::CublasFp8Rowwise,
                    act: p.act_fp8,
                    act_scale: p.act_scale,
                    weight: w.weight,
                    weight_scale: w.scale,
                    weight_scale_2: Scalar(ONE_BITS),
                    out: p.out,
                    m: p.m,
                    n: p.n,
                    k: p.k,
                },
            ),
        ),
    ]
}

/// Records a row-wise eight-bit projection through cuBLASLt. The weight is converted
/// for it the first time; `bf16` and `to` are memory for that, which a weight that was
/// converted before does not use.
pub fn cublas_fp8_rowwise_proj(
    cb: &mut CommandBuffer,
    cache: &mut WeightCache,
    dequant: KernelHandle,
    quant: KernelHandle,
    p: &ProjArgs,
    w: &Fp8Weight,
    bf16: DevicePtr,
    to: CachedWeight,
)
    ensures
        final(cache).extends(old(cache), w.weight, old(cache).find_or(w.weight, to)),
        final(cb)@ == old(cb)@ + (if old(cache).find(w.weight) is Some {
            Seq::empty()
        } else {
            rowwise_cmds(dequant, quant, *w, bf16, to)
        }) + rowwise_product(quant, *p, old(cache).find_or(w.weight, to)),
{
    let c: CachedWeight = requant_weight_rowwise_fp8_cached(cb, cache, dequant, quant, w, bf16, to);
    let ghost before = cb@;
    quant_rowwise_fp8(cb, quant, p.act, p.act_fp8, p.act_scale, p.m, p.k);
    cb.op(
        DeviceOp::LibraryGemm(
            LibraryGemmArgs {
                gemm: LibraryGemm::CublasFp8Rowwise,
                act: p.act_fp8,
                act_scale: p.act_scale,
                weight: c.weight,
                weight_scale: c.scale,
                weight_scale_2: Scalar(ONE_BITS),
                out: p.out,
                m: p.m,
                n: p.n,
                k: p.k,
            },
        ),
    );
    assert(cb@ =~= before + rowwise_product(quant, *p, c));
}

/// A product of activations as they are with a converted weight.
pub open spec fn plain_gemm(
    gemm: LibraryGemm,
    act: DevicePtr,
    w: CachedWeight,
    scale2: Scalar,
    out: DevicePtr,
    m: u32,
    n: u32,
    k: u32,
) -> Cmd {
    Cmd::Op(
        DeviceOp::LibraryGemm(
            LibraryGemmArgs {
                gemm,
                act,
                act_scale: DevicePtr(0),
                weight: w.weight,
                weight_scale: w.scale,
                weight_scale_2: scale2,
                out,
                m,
                n,
                k,
            },
        ),
    )
}

fn record_plain(
    cb: &mut CommandBuffer,
    gemm: LibraryGemm,
    act: DevicePtr,
    w: CachedWeight,
    scale2: Scalar,
    out: DevicePtr,
    m: u32,
    n: u32,
    k: u32,
)
    ensures
        final(cb)@ == old(cb)@.push(plain_gemm(gemm, act, w, scale2, out, m, n, k)),
{
    cb.op(
        DeviceOp::LibraryGemm(
            LibraryGemmArgs {
                gemm,
                act,
                act_scale: DevicePtr::null(),
                weight: w.weight,
                weight_scale: w.scale,
                weight_scale_2: scale2,
                out,
                m,
                n,
                k,
            },
        ),
    );
}

/// Records a bfloat16 projection through cuBLASLt. The weight is expanded for it the
/// first time; `to` is memory for that, which a weight that was expanded before does
/// not use.
pub fn cublas_bf16_proj(
    cb: &mut CommandBuffer,
    cache: &mut WeightCache,
    dequant: KernelHandle,
    act: DevicePtr,
    w: &Fp8Weight,
    to: DevicePtr,
    out: DevicePtr,
    m: u32,
    n: u32,
    k: u32,
)
    ensures
        final(cache).extends(old(cache), w.weight, old(cache).find_or(w.weight, without_scale(to))),
        final(cb)@ == (old(cb)@ + (if old(cache).find(w.weight) is Some {
            Seq::empty()
        } else {
            expand_cmds(dequant, *w, to)
        })).push(
            plain_gemm(
                LibraryGemm::CublasBf16,
                act,
                without_scale(old(cache).find_or(w.weight, without_scale(to)).weight),
                Scalar(ONE_BITS),
                out,
                m,
                n,
                k,
            ),
        ),
{
    let weight: DevicePtr = dequant_fp8_bf16_cached(cb, cache, dequant, w, to);
    let c = CachedWeight { weight, scale: DevicePtr::null() };
    record_plain(cb, LibraryGemm::CublasBf16, act, c, Scalar(ONE_BITS), out, m, n, k);
}

/// Records a bfloat16 projection through CUTLASS. The weight is expanded for it the
/// first time; `to` is memory for that, which a weight that was expanded before does
/// not use.
pub fn cutlass_bf16_proj(
    cb: &mut CommandBuffer,
    cache: &mut WeightCache,
    dequant: KernelHandle,
    act: DevicePtr,
    w: &Fp8Weight,
    to: DevicePtr,
    out: DevicePtr,
    m: u32,
    n: u32,
    k: u32,
)
    ensures
        final(cache).extends(old(cache), w.weight, old(cache).find_or(w.weight, without_scale(to))),
        final(cb)@ == (old(cb)@ + (if old(cache).find(w.weight) is Some {
            Seq::empty()
        } else {
            expand_cmds(dequant, *w, to)
        })).push(
            plain_gemm(
                LibraryGemm::CutlassBf16,
                act,
                without_scale(old(cache).find_or(w.weight, without_scale(to)).weight),
                Scalar(ONE_BITS),
                out,
                m,
                n,
                k,
            ),
        ),
{
    let weight: DevicePtr = dequant_fp8_bf16_cached(cb, cache, dequant, w, to);
    let c = CachedWeight { weight, scale: DevicePtr::null() };
    record_plain(cb, LibraryGemm::CutlassBf16, act, c, Scalar(ONE_BITS), out, m, n, k);
}

/// Records a four-bit projection through CUTLASS. The packed values are transposed
/// for it the first time, into `to`; scales are those of the original.
pub fn cutlass_nvfp4_proj(
    cb: &mut CommandBuffer,
    cache: &mut WeightCache,
    act: DevicePtr,
    weight_t: &QuantizedWeight,
    to: DevicePtr,
    out: DevicePtr,
    m: u32,
    n: u32,
    k: u32,
)
    ensures
        final(cache).extends(
            old(cache),
            weight_t.weight,
            old(cache).find_or(weight_t.weight, without_scale(to)),
        ),
        final(cb)@ == (old(cb)@ + (if old(cache).find(weight_t.weight) is Some {
            Seq::empty()
        } else {
            transpose_cmds(*weight_t, n, k, to)
        })).push(
            plain_gemm(
                LibraryGemm::CutlassNvfp4,
                act,
                CachedWeight {
                    weight: old(cache).find_or(weight_t.weight, without_scale(to)).weight,
                    scale: weight_t.weight_scale,
                },
                weight_t.weight_scale_2,
                out,
                m,
                n,
                k,
            ),
        ),
{
    let weight: DevicePtr = cutlass_nvfp4_weight_transposed_cached(cb, cache, weight_t, n, k, to);
    let c = CachedWeight { weight, scale: weight_t.weight_scale };
    record_plain(cb, LibraryGemm::CutlassNvfp4, act, c, weight_t.weight_scale_2, out, m, n, k);
}

/// Records a four-bit projection through CUTLASS of a weight that is stored in eight
/// bits. The weight is converted for it the first time; `bf16` and `to` are memory for
/// that. The global scale of a converted weight is one.
pub fn cutlass_nvfp4_proj_from_fp8(
    cb: &mut CommandBuffer,
    cache: &mut WeightCache,
    dequant: KernelHandle,
    act: DevicePtr,
    w: &Fp8Weight,
    bf16: DevicePtr,
    to: CachedWeight,
    out: DevicePtr,
    m: u32,
    n: u32,
    k: u32,
)
    ensures
        final(cache).extends(old(cache), w.weight, old(cache).find_or(w.weight, to)),
        final(cb)@ == (old(cb)@ + (if old(cache).find(w.weight) is Some {
            Seq::empty()
        } else {
            nvfp4_cmds(dequant, *w, bf16, to)
        })).push(
            plain_gemm(
                LibraryGemm::CutlassNvfp4,
                act,
                old(cache).find_or(w.weight, to),
                Scalar(ONE_BITS),
                out,
                m,
                n,
                k,
            ),
        ),
{
    let c: CachedWeight = cutlass_nvfp4_weight_from_fp8_cached(cb, cache, dequant, w, bf16, to);
    record_plain(cb, LibraryGemm::CutlassNvfp4, act, c, Scalar(ONE_BITS), out, m, n, k);
}

/// A weight is converted once: whatever other weights are asked for in between, a
/// weight that was asked for before is found, and is what it was converted to then.
pub proof fn law_conversions_are_kept(
    first: WeightCache,
    second: WeightCache,
    third: WeightCache,
    p: DevicePtr,
    q: DevicePtr,
    to_p: CachedWeight,
    to_q: CachedWeight,
    again: CachedWeight,
)
    requires
        second.extends(&first, p, first.find_or(p, to_p)),
        third.extends(&second, q, second.find_or(q, to_q)),
    ensures
        third.find(p) is Some,
        third.find_or(p, again) == first.find_or(p, to_p),
{
    if p != q {
        assert(third.find(p) == second.find(p));
    }
}

/// Padding adds fewer than 16 rows and reaches a whole group.
pub proof fn law_padding_is_minimal(m: u32)
    ensures
        m <= padded_rows(m) < m + 16,
        padded_rows(m) % 16 == 0,
{
    crate::num::lemma_ceil_div_covers(m as int, 16);
}

} // verus!
