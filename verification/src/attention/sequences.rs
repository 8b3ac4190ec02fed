//! What a decode step of many sequences leaves in their blocks and in the cache.
use crate::attention::layer::{fp8_of, nvfp4_of, LoraRoute, Qwen3AttentionLayer};
use crate::attention::multi_seq_attn::AttnMetadataDev;
use crate::attention::multi_seq_qkv::MultiSeqCtx;
use crate::context::ForwardContext;
use crate::dataflow::{
    after, lemma_after_adapters, lemma_after_copy, lemma_after_dual, lemma_after_matmul,
    lemma_after_norm, lemma_after_cache_write, lemma_after_parting, lemma_after_rope,
    lemma_after_rope_scaled, lemma_after_rope_strided, lemma_after_query, lemma_one_row_miss,
    lemma_row_gap, lemma_row_hit, lemma_row_inside, lemma_row_miss, lemma_row_part, lemma_run_add,
    lemma_run_one, lemma_run_three, lemma_run_two, rotated, row_of, run, slice, CacheRow, Held,
    Memory, Places, Rotation,
};
use crate::device::{lemma_row_bound, Cmd, DevicePtr, Scalar};
use crate::dflash_head::disjoint;
use crate::env::EnvVars;
use crate::ops_table::{DeviceOp, WeightRef};
use crate::ssm::mixing::clear_of;
use crate::weights::DenseWeight;
use vstd::prelude::*;

verus! {

impl MultiSeqCtx {
    /// Blocks hold heads as they are counted, and counts fit their kernel arguments.
    pub open spec fn laid_out(self, gated: bool) -> bool {
        &&& self.nq > 0
        &&& self.nkv > 0
        &&& self.hd > 0
        &&& 0 < self.h <= u32::MAX
        &&& self.q_dim == self.nq * self.hd
        &&& self.q_dim <= self.q_proj_dim
        &&& gated || self.q_dim == self.q_proj_dim
        &&& self.q_proj_bytes == 2 * self.q_proj_dim
        &&& self.per_seq_qkv % 2 == 0
        &&& self.per_seq_qkv / 2 <= u32::MAX
    }

    /// Buffers of a step and their bytes.
    pub open spec fn areas(self, ctx: &ForwardContext, meta: AttnMetadataDev) -> Seq<(DevicePtr, int)> {
        seq![
            (self.qkv_buf, self.n * self.per_seq_qkv),
            (self.normed, self.n * (2 * self.h)),
            (ctx.buffers.ssm_qkvz, 3 * self.q_proj_bytes),
            (ctx.buffers.attn_output, 6 * self.kv_bytes()),
            (meta.positions, self.n * 4),
            (meta.slot, self.n * 8),
            (self.seq_slot, self.n * 4),
            (ctx.buffers.lora_xa, 1),
        ]
    }

    /// No buffer of a step overlaps another.
    #[verifier::opaque]
    pub open spec fn apart(self, ctx: &ForwardContext, meta: AttnMetadataDev) -> bool {
        let s = self.areas(ctx, meta);
        forall|a: int, b: int|
            0 <= a < b < s.len() ==> disjoint((#[trigger] s[a]).0, s[a].1, (#[trigger] s[b]).0, s[b].1)
    }

    /// The block of sequence `i` holds query values, keys and values.
    pub open spec fn block(self, m: Memory, i: int, q: Held, k: Held, v: Held) -> bool {
        let b = self.qkv_buf.0 + i * self.per_seq_qkv;
        &&& forall|o: int|
            0 <= o < 2 * self.q_dim ==> #[trigger] (m.at)(b + o) == slice(q, o)
        &&& forall|o: int|
            0 <= o < self.kv_bytes() ==> #[trigger] (m.at)(b + self.q_proj_bytes + o) == slice(k, o)
        &&& forall|o: int|
            0 <= o < self.kv_bytes() ==> #[trigger] (m.at)(
                b + self.q_proj_bytes + self.kv_bytes() + o,
            ) == slice(v, o)
    }
}

impl Qwen3AttentionLayer {
    /// Weights of the query projection.
    pub open spec fn query_weight(&self) -> WeightRef {
        match fp8_of(self.q_weight) {
            Some(f) => WeightRef::Fp8(f),
            None => match nvfp4_of(self.q_weight) {
                Some(w) => WeightRef::Quantized(w),
                None => WeightRef::Dense(self.attn.q_proj),
            },
        }
    }

    /// Weights of the key and of the value projection.
    pub open spec fn key_value_weights(&self) -> (WeightRef, WeightRef) {
        match (fp8_of(self.k_weight), fp8_of(self.v_weight)) {
            (Some(k), Some(v)) => (WeightRef::Fp8(k), WeightRef::Fp8(v)),
            _ => (
                match nvfp4_of(self.k_weight) {
                    Some(w) => WeightRef::Quantized(w),
                    None => WeightRef::Dense(self.attn.k_proj),
                },
                match nvfp4_of(self.v_weight) {
                    Some(w) => WeightRef::Quantized(w),
                    None => WeightRef::Dense(self.attn.v_proj),
                },
            ),
        }
    }

    /// Query values of a row, parted from gates where there are any.
    pub open spec fn query_of(&self, c: MultiSeqCtx, x: Held) -> Held {
        let p = Held::Product {
            row: Box::new(x),
            weight: self.query_weight(),
            n: if self.gated {
                c.q_proj_dim
            } else {
                c.q_dim
            },
            k: c.h as u32,
        };
        if self.gated {
            Held::Parted { of: Box::new(p), nq: c.nq, hd: c.hd }
        } else {
            p
        }
    }

    /// Keys of a row.
    pub open spec fn key_of(&self, c: MultiSeqCtx, x: Held) -> Held {
        Held::Product {
            row: Box::new(x),
            weight: self.key_value_weights().0,
            n: c.kv_dim() as u32,
            k: c.h as u32,
        }
    }

    /// Values of a row.
    pub open spec fn value_of(&self, c: MultiSeqCtx, x: Held) -> Held {
        Held::Product {
            row: Box::new(x),
            weight: self.key_value_weights().1,
            n: c.kv_dim() as u32,
            k: c.h as u32,
        }
    }

    /// The block of sequence `i` holds the projections of its own row, as `m` has it.
    pub open spec fn projects(&self, c: MultiSeqCtx, m: Memory, v: Memory, i: int) -> bool {
        let x = m.row(c.normed, i, 2 * c.h);
        c.block(v, i, self.query_of(c, x), self.key_of(c, x), self.value_of(c, x))
    }
}

/// Addresses of the block of sequence `i`.
#[verifier::rlimit(50)]
proof fn lemma_block_at(c: MultiSeqCtx, ctx: &ForwardContext, gated: bool, i: int)
    requires
        c.fits(ctx),
        c.laid_out(gated),
        0 <= i < c.n,
    ensures
        c.q_at(i).0 == c.qkv_buf.0 + i * c.per_seq_qkv,
        c.k_at(i).0 == c.qkv_buf.0 + i * c.per_seq_qkv + c.q_proj_bytes,
        c.v_at(i).0 == c.qkv_buf.0 + i * c.per_seq_qkv + c.q_proj_bytes + c.kv_bytes(),
        c.normed.row_at(i, c.h as int, 2).0 == c.normed.0 + i * (2 * c.h),
        0 <= i * (2 * c.h),
        i * (2 * c.h) + 2 * c.h <= c.n * (2 * c.h),
        0 <= i * c.per_seq_qkv,
        i * c.per_seq_qkv + c.per_seq_qkv <= c.n * c.per_seq_qkv,
        c.kv_bytes() == 2 * c.kv_dim(),
        c.kv_dim() > 0,
        c.kv_dim() <= u32::MAX,
        2 * c.q_dim <= c.q_proj_bytes,
        c.q_dim > 0,
        c.q_proj_bytes + 2 * c.kv_bytes() <= c.per_seq_qkv,
{
    let (w, n, h) = (c.per_seq_qkv as int, c.n as int, c.h as int);
    lemma_row_bound(i, n, h, 2);
    assert(i * w * 1 == i * w && n * w * 1 == n * w && 0 <= i * w && i * w + w <= n * w)
        by (nonlinear_arith)
        requires
            0 <= i < n,
            0 <= w,
    ;
    assert(i * h * 2 == i * (2 * h) && 0 <= i * (2 * h) && i * (2 * h) + 2 * h <= n * (2 * h))
        by (nonlinear_arith)
        requires
            0 <= i < n,
            0 <= h,
    ;
    assert(c.nkv * c.hd > 0 && c.nq * c.hd > 0) by (nonlinear_arith)
        requires
            c.nkv > 0,
            c.nq > 0,
            c.hd > 0,
    ;
    assert(c.nkv * c.hd * 2 == 2 * (c.nkv * c.hd));
}

#[verifier::rlimit(50)]
proof fn lemma_seq_query(
    l: &Qwen3AttentionLayer,
    ctx: &ForwardContext,
    c: MultiSeqCtx,
    places: Places,
    m: Memory,
    i: int,
)
    requires
        c.fits(ctx),
        c.laid_out(l.gated),
        0 <= i < c.n,
    ensures
        ({
            let b = c.qkv_buf.0 + i * c.per_seq_qkv;
            let x = m.row(c.normed, i, 2 * c.h);
            let input = c.normed.row_at(i, c.h as int, 2);
            &&& run(places, m, l.seq_q_cmds(c, input, c.q_at(i))) matches Some(v)
            &&& forall|o: int|
                0 <= o < 2 * c.q_dim ==> #[trigger] (v.at)(b + o) == slice(l.query_of(c, x), o)
            &&& forall|a: int| clear_of(a, b, c.q_proj_bytes as int) ==> #[trigger] (v.at)(a) == (m.at)(a)
            &&& v.cache == m.cache
        }),
{
    lemma_block_at(c, ctx, l.gated, i);
    let b = c.qkv_buf.0 + i * c.per_seq_qkv;
    let x = m.row(c.normed, i, 2 * c.h);
    let input = c.normed.row_at(i, c.h as int, 2);
    let q = c.q_at(i);
    let cmds = l.seq_q_cmds(c, input, q);
    let w = if l.gated {
        2 * c.q_proj_dim
    } else {
        2 * c.q_dim
    };
    if cmds.len() == 1 {
        assert(cmds =~= seq![cmds[0]]);
        lemma_run_one(places, m, cmds[0]);
        if l.gated {
            lemma_after_query(places, m, cmds[0]->Op_0);
        } else {
            lemma_after_matmul(places, m, cmds[0]->Op_0);
        }
        let v = after(places, m, cmds[0])->0;
        assert forall|o: int| 0 <= o < 2 * c.q_dim implies #[trigger] (v.at)(b + o) == slice(
            l.query_of(c, x),
            o,
        ) by {
            lemma_row_part(b, w, w, 1, 0, o);
        }
        assert forall|a: int| clear_of(a, b, c.q_proj_bytes as int) implies #[trigger] (v.at)(a) == (
        m.at)(a) by {
            lemma_one_row_miss(a, b, w, w);
        }
    } else {
        assert(cmds =~= seq![cmds[0], cmds[1]]);
        lemma_run_two(places, m, cmds[0], cmds[1]);
        lemma_after_matmul(places, m, cmds[0]->Op_0);
        let u = after(places, m, cmds[0])->0;
        lemma_after_parting(places, u, cmds[1]->Op_0);
        let v = after(places, u, cmds[1])->0;
        assert forall|o: int| 0 <= o < 2 * c.q_dim implies #[trigger] (v.at)(b + o) == slice(
            l.query_of(c, x),
            o,
        ) by {
            lemma_row_part(b, w, w, 1, 0, o);
            lemma_row_part(b, w, w, 1, 0, 0);
        }
        assert forall|a: int| clear_of(a, b, c.q_proj_bytes as int) implies #[trigger] (v.at)(a) == (
        m.at)(a) by {
            lemma_one_row_miss(a, b, w, w);
        }
    }
}

#[verifier::rlimit(50)]
proof fn lemma_seq_key_value(
    l: &Qwen3AttentionLayer,
    ctx: &ForwardContext,
    c: MultiSeqCtx,
    places: Places,
    m: Memory,
    i: int,
)
    requires
        c.fits(ctx),
        c.laid_out(l.gated),
        0 <= i < c.n,
        clear_of(
            c.normed.0 + i * (2 * c.h),
            c.qkv_buf.0 + i * c.per_seq_qkv,
            c.per_seq_qkv as int,
        ),
    ensures
        ({
            let k = c.qkv_buf.0 + i * c.per_seq_qkv + c.q_proj_bytes;
            let x = m.row(c.normed, i, 2 * c.h);
            let input = c.normed.row_at(i, c.h as int, 2);
            &&& run(places, m, l.seq_kv_cmds(c, input, c.k_at(i), c.v_at(i))) matches Some(v)
            &&& forall|o: int|
                0 <= o < c.kv_bytes() ==> #[trigger] (v.at)(k + o) == slice(l.key_of(c, x), o)
            &&& forall|o: int|
                0 <= o < c.kv_bytes() ==> #[trigger] (v.at)(k + c.kv_bytes() + o) == slice(
                    l.value_of(c, x),
                    o,
                )
            &&& forall|a: int| clear_of(a, k, 2 * c.kv_bytes()) ==> #[trigger] (v.at)(a) == (m.at)(a)
            &&& v.cache == m.cache
        }),
{
    lemma_block_at(c, ctx, l.gated, i);
    let x = m.row(c.normed, i, 2 * c.h);
    let xa = c.normed.0 + i * (2 * c.h);
    let input = c.normed.row_at(i, c.h as int, 2);
    let k = c.qkv_buf.0 + i * c.per_seq_qkv + c.q_proj_bytes;
    let w = c.kv_bytes();
    let cmds = l.seq_kv_cmds(c, input, c.k_at(i), c.v_at(i));
    let v = if cmds.len() == 1 {
        assert(cmds =~= seq![cmds[0]]);
        lemma_run_one(places, m, cmds[0]);
        lemma_after_dual(places, m, cmds[0]->Op_0);
        after(places, m, cmds[0])->0
    } else {
        assert(cmds =~= seq![cmds[0], cmds[1]]);
        lemma_run_two(places, m, cmds[0], cmds[1]);
        lemma_after_matmul(places, m, cmds[0]->Op_0);
        let u = after(places, m, cmds[0])->0;
        lemma_after_matmul(places, u, cmds[1]->Op_0);
        lemma_one_row_miss(xa, k, w, w);
        assert((u.at)(xa) == (m.at)(xa));
        after(places, u, cmds[1])->0
    };
    assert forall|o: int| 0 <= o < w implies #[trigger] (v.at)(k + o) == slice(l.key_of(c, x), o) by {
        lemma_row_part(k, w, w, 1, 0, o);
        lemma_one_row_miss(k + o, k + w, w, w);
    }
    assert forall|o: int| 0 <= o < w implies #[trigger] (v.at)(k + w + o) == slice(
        l.value_of(c, x),
        o,
    ) by {
        lemma_row_part(k + w, w, w, 1, 0, o);
    }
    assert forall|a: int| clear_of(a, k, 2 * w) implies #[trigger] (v.at)(a) == (m.at)(a) by {
        lemma_one_row_miss(a, k, w, w);
        lemma_one_row_miss(a, k + w, w, w);
    }
}

/// Rows of a step and its blocks lie apart.
proof fn lemma_areas(c: MultiSeqCtx, ctx: &ForwardContext, meta: AttnMetadataDev, a: int, b: int)
    requires
        c.apart(ctx, meta),
        0 <= a < b < 8,
    ensures
        disjoint(
            c.areas(ctx, meta)[a].0,
            c.areas(ctx, meta)[a].1,
            c.areas(ctx, meta)[b].0,
            c.areas(ctx, meta)[b].1,
        ),
{
    reveal(MultiSeqCtx::apart);
}

/// What the projections may write.
pub open spec fn outside_projections(c: MultiSeqCtx, ctx: &ForwardContext, a: int) -> bool {
    &&& clear_of(a, c.qkv_buf.0 as int, c.n * c.per_seq_qkv)
    &&& clear_of(a, ctx.buffers.ssm_qkvz.0 as int, 3 * c.q_proj_bytes)
    &&& clear_of(a, ctx.buffers.attn_output.0 as int, 6 * c.kv_bytes())
}

/// Rows of `normed` are not written by projections.
proof fn lemma_input_outside(
    c: MultiSeqCtx,
    ctx: &ForwardContext,
    meta: AttnMetadataDev,
    gated: bool,
    i: int,
)
    requires
        c.fits(ctx),
        c.laid_out(gated),
        c.apart(ctx, meta),
        0 <= i < c.n,
    ensures
        outside_projections(c, ctx, c.normed.0 + i * (2 * c.h)),
{
    lemma_block_at(c, ctx, gated, i);
    lemma_areas(c, ctx, meta, 0, 1);
    lemma_areas(c, ctx, meta, 1, 2);
    lemma_areas(c, ctx, meta, 1, 3);
}

proof fn lemma_seq(
    l: &Qwen3AttentionLayer,
    ctx: &ForwardContext,
    c: MultiSeqCtx,
    meta: AttnMetadataDev,
    places: Places,
    m: Memory,
    i: int,
)
    requires
        c.fits(ctx),
        c.laid_out(l.gated),
        c.apart(ctx, meta),
        0 <= i < c.n,
    ensures
        ({
            let b = c.qkv_buf.0 + i * c.per_seq_qkv;
            &&& run(places, m, l.seq_cmds(c, i)) matches Some(v)
            &&& l.projects(c, m, v, i)
            &&& forall|a: int| clear_of(a, b, c.per_seq_qkv as int) ==> #[trigger] (v.at)(a) == (m.at)(a)
            &&& v.cache == m.cache
        }),
{
    lemma_block_at(c, ctx, l.gated, i);
    lemma_input_outside(c, ctx, meta, l.gated, i);
    let b = c.qkv_buf.0 + i * c.per_seq_qkv;
    let input = c.normed.row_at(i, c.h as int, 2);
    let xa = c.normed.0 + i * (2 * c.h);
    assert(clear_of(xa, b, c.per_seq_qkv as int));
    lemma_seq_query(l, ctx, c, places, m, i);
    let u = run(places, m, l.seq_q_cmds(c, input, c.q_at(i)))->0;
    assert((u.at)(xa) == (m.at)(xa));
    lemma_seq_key_value(l, ctx, c, places, u, i);
    lemma_run_add(
        places,
        m,
        l.seq_q_cmds(c, input, c.q_at(i)),
        l.seq_kv_cmds(c, input, c.k_at(i), c.v_at(i)),
    );
}

/// Blocks do not reach into each other.
proof fn lemma_blocks_apart(i: int, j: int, w: int)
    by (nonlinear_arith)
    requires
        i < j,
        w >= 0,
    ensures
        i * w + w <= j * w,
{
}

#[verifier::rlimit(50)]
proof fn lemma_seqs(
    l: &Qwen3AttentionLayer,
    ctx: &ForwardContext,
    c: MultiSeqCtx,
    meta: AttnMetadataDev,
    places: Places,
    m: Memory,
    n: nat,
)
    requires
        c.fits(ctx),
        c.laid_out(l.gated),
        c.apart(ctx, meta),
        n <= c.n,
    ensures
        ({
            &&& run(places, m, l.seqs_cmds(c, n)) matches Some(v)
            &&& forall|i: int| 0 <= i < n ==> #[trigger] l.projects(c, m, v, i)
            &&& forall|a: int|
                clear_of(a, c.qkv_buf.0 as int, n * c.per_seq_qkv) ==> #[trigger] (v.at)(a) == (m.at)(a)
            &&& v.cache == m.cache
        }),
    decreases n,
{
    if n == 0 {
    } else {
        let p = (n - 1) as nat;
        let (w, b0) = (c.per_seq_qkv as int, c.qkv_buf.0 as int);
        lemma_seqs(l, ctx, c, meta, places, m, p);
        let u = run(places, m, l.seqs_cmds(c, p))->0;
        lemma_seq(l, ctx, c, meta, places, u, p as int);
        lemma_run_add(places, m, l.seqs_cmds(c, p), l.seq_cmds(c, p as int));
        let v = run(places, u, l.seq_cmds(c, p as int))->0;
        lemma_block_at(c, ctx, l.gated, p as int);
        lemma_input_outside(c, ctx, meta, l.gated, p as int);
        assert(n * w == p * w + w) by (nonlinear_arith)
            requires
                n == p + 1,
        ;
        lemma_blocks_apart(p as int, c.n as int, w);
        assert(u.row(c.normed, p as int, 2 * c.h) == m.row(c.normed, p as int, 2 * c.h));
        assert forall|i: int| 0 <= i < n implies #[trigger] l.projects(c, m, v, i) by {
            if i < p {
                assert(l.projects(c, m, u, i));
                lemma_blocks_apart(i, p as int, w);
                lemma_block_at(c, ctx, l.gated, i);
            }
        }
    }
}

/// What a tile leaves in scratch: rows of query values, of keys, and of values.
pub open spec fn scratched(
    l: &Qwen3AttentionLayer,
    ctx: &ForwardContext,
    c: MultiSeqCtx,
    m: Memory,
    v: Memory,
    s: int,
    rows: int,
    j: int,
) -> bool {
    let x = m.row(c.normed, s + j, 2 * c.h);
    let (q, kv) = (ctx.buffers.ssm_qkvz.0, ctx.buffers.attn_output.0);
    let (qb, kb) = (c.q_proj_bytes as int, c.kv_bytes());
    &&& forall|o: int| 0 <= o < qb ==> #[trigger] (v.at)(q + j * qb + o) == slice(l.query_of(c, x), o)
    &&& forall|o: int| 0 <= o < kb ==> #[trigger] (v.at)(kv + j * kb + o) == slice(l.key_of(c, x), o)
    &&& forall|o: int|
        0 <= o < kb ==> #[trigger] (v.at)(kv + (rows + j) * kb + o) == slice(l.value_of(c, x), o)
}

#[verifier::rlimit(50)]
proof fn lemma_tile_scratch(
    l: &Qwen3AttentionLayer,
    ctx: &ForwardContext,
    c: MultiSeqCtx,
    meta: AttnMetadataDev,
    places: Places,
    m: Memory,
    s: int,
    rows: int,
)
    requires
        c.fits(ctx),
        c.laid_out(l.gated),
        c.apart(ctx, meta),
        l.all_nvfp4(),
        2 <= rows <= 3,
        0 <= s,
        s + rows <= c.n,
    ensures
        ({
            let cmds = l.tile_gemv_cmds(
                ctx,
                c,
                s,
                rows,
                nvfp4_of(l.q_weight)->0,
                nvfp4_of(l.k_weight)->0,
                nvfp4_of(l.v_weight)->0,
            );
            &&& run(places, m, cmds) matches Some(v)
            &&& forall|j: int| 0 <= j < rows ==> #[trigger] scratched(l, ctx, c, m, v, s, rows, j)
            &&& forall|a: int|
                clear_of(a, ctx.buffers.ssm_qkvz.0 as int, 3 * c.q_proj_bytes) && clear_of(
                    a,
                    ctx.buffers.attn_output.0 as int,
                    6 * c.kv_bytes(),
                ) ==> #[trigger] (v.at)(a) == (m.at)(a)
            &&& v.cache == m.cache
        }),
{
    lemma_block_at(c, ctx, l.gated, s);
    let cmds = l.tile_gemv_cmds(
        ctx,
        c,
        s,
        rows,
        nvfp4_of(l.q_weight)->0,
        nvfp4_of(l.k_weight)->0,
        nvfp4_of(l.v_weight)->0,
    );
    let (q, kv) = (ctx.buffers.ssm_qkvz.0 as int, ctx.buffers.attn_output.0 as int);
    let (qb, kb) = (c.q_proj_bytes as int, c.kv_bytes());
    let h = 2 * c.h;
    assert(cmds =~= seq![cmds[0], cmds[1]]);
    lemma_run_two(places, m, cmds[0], cmds[1]);
    if l.gated {
        lemma_after_query(places, m, cmds[0]->Op_0);
    } else {
        lemma_after_matmul(places, m, cmds[0]->Op_0);
    }
    let u = after(places, m, cmds[0])->0;
    lemma_after_dual(places, u, cmds[1]->Op_0);
    let v = after(places, u, cmds[1])->0;
    lemma_areas(c, ctx, meta, 2, 3);
    assert(rows * kb >= 0 && rows * kb <= 3 * kb && rows * kb + rows * kb <= 6 * kb && rows * qb <= 3 * qb)
        by (nonlinear_arith)
        requires
            2 <= rows <= 3,
            kb > 0,
            qb > 0,
    ;
    assert forall|j: int| 0 <= j < rows implies #[trigger] scratched(l, ctx, c, m, v, s, rows, j) by {
        lemma_block_at(c, ctx, l.gated, s + j);
        lemma_input_outside(c, ctx, meta, l.gated, s + j);
        let x = m.row(c.normed, s + j, h);
        assert(s * h + j * h == (s + j) * h && (rows + j) * kb == rows * kb + j * kb && 0 <= j * kb
            && j * kb + kb <= rows * kb && 0 <= j * qb && j * qb + qb <= rows * qb) by (nonlinear_arith)
            requires
                0 <= j < rows,
                kb > 0,
                qb > 0,
        ;
        let input = c.normed.row_at(s, c.h as int, 2);
        assert(m.row(input, j, h) == x);
        lemma_row_miss(c.normed.0 + (s + j) * h, q, qb, qb, rows);
        assert(u.row(input, j, h) == x);
        assert forall|o: int| 0 <= o < qb implies #[trigger] (v.at)(q + j * qb + o) == slice(
            l.query_of(c, x),
            o,
        ) by {
            lemma_row_part(q, qb, qb, rows, j, o);
            lemma_row_miss(q + j * qb + o, kv, kb, kb, rows);
            lemma_row_miss(q + j * qb + o, kv + rows * kb, kb, kb, rows);
        }
        assert forall|o: int| 0 <= o < kb implies #[trigger] (v.at)(kv + j * kb + o) == slice(
            l.key_of(c, x),
            o,
        ) by {
            lemma_row_part(kv, kb, kb, rows, j, o);
            lemma_row_miss(kv + j * kb + o, kv + rows * kb, kb, kb, rows);
        }
        assert forall|o: int| 0 <= o < kb implies #[trigger] (v.at)(kv + (rows + j) * kb + o) == slice(
            l.value_of(c, x),
            o,
        ) by {
            lemma_row_part(kv + rows * kb, kb, kb, rows, j, o);
            assert(kv + (rows + j) * kb + o == kv + rows * kb + j * kb + o);
        }
    }
    assert forall|a: int|
        clear_of(a, q, 3 * qb) && clear_of(a, kv, 6 * kb) implies #[trigger] (v.at)(a) == (m.at)(a) by {
        lemma_row_miss(a, q, qb, qb, rows);
        lemma_row_miss(a, kv, kb, kb, rows);
        lemma_row_miss(a, kv + rows * kb, kb, kb, rows);
    }
}

#[verifier::rlimit(50)]
proof fn lemma_scatter(
    l: &Qwen3AttentionLayer,
    ctx: &ForwardContext,
    c: MultiSeqCtx,
    meta: AttnMetadataDev,
    places: Places,
    m: Memory,
    u: Memory,
    s: int,
    rows: int,
    k: nat,
)
    requires
        c.fits(ctx),
        c.laid_out(l.gated),
        c.apart(ctx, meta),
        2 <= rows <= 3,
        0 <= s,
        s + rows <= c.n,
        k <= rows,
        forall|j: int| 0 <= j < rows ==> #[trigger] scratched(l, ctx, c, m, u, s, rows, j),
    ensures
        ({
            &&& run(places, u, l.scatter_cmds(ctx, c, s, rows, k)) matches Some(v)
            &&& forall|j: int| 0 <= j < k ==> #[trigger] l.projects(c, m, v, s + j)
            &&& forall|a: int|
                clear_of(a, c.qkv_buf.0 + s * c.per_seq_qkv, k * c.per_seq_qkv) ==> #[trigger] (v.at)(a)
                    == (u.at)(a)
            &&& v.cache == u.cache
        }),
    decreases k,
{
    if k == 0 {
        assert(0 * c.per_seq_qkv == 0) by (nonlinear_arith);
    } else {
        let j = k - 1;
        let i = s + j;
        let (w, b0) = (c.per_seq_qkv as int, c.qkv_buf.0 as int);
        let (q, kv) = (ctx.buffers.ssm_qkvz.0 as int, ctx.buffers.attn_output.0 as int);
        let (qb, kb) = (c.q_proj_bytes as int, c.kv_bytes());
        lemma_scatter(l, ctx, c, meta, places, m, u, s, rows, j as nat);
        let t = run(places, u, l.scatter_cmds(ctx, c, s, rows, j as nat))->0;
        let cmds = l.scatter_row_cmds(ctx, c, s, rows, j);
        lemma_run_add(places, u, l.scatter_cmds(ctx, c, s, rows, j as nat), cmds);
        lemma_run_three(places, t, cmds[0], cmds[1], cmds[2]);
        assert(cmds =~= seq![cmds[0], cmds[1], cmds[2]]);
        lemma_after_copy(places, t, cmds[0]->Op_0);
        let t1 = after(places, t, cmds[0])->0;
        lemma_after_copy(places, t1, cmds[1]->Op_0);
        let t2 = after(places, t1, cmds[1])->0;
        lemma_after_copy(places, t2, cmds[2]->Op_0);
        let v = after(places, t2, cmds[2])->0;
        lemma_block_at(c, ctx, l.gated, s);
        lemma_block_at(c, ctx, l.gated, i);
        lemma_areas(c, ctx, meta, 0, 2);
        lemma_areas(c, ctx, meta, 0, 3);
        assert(i * w == s * w + j * w && k * w == j * w + w && 0 <= j * w && (rows + j) * kb == rows * kb
            + j * kb && 0 <= rows * kb && 0 <= j * kb && j * kb + kb <= 3 * kb && rows * kb <= 3 * kb && 0
            <= j * qb && j * qb + qb <= 3 * qb) by (nonlinear_arith)
            requires
                i == s + j,
                k == j + 1,
                0 <= j < rows <= 3,
                kb > 0,
                qb > 0,
                w >= 0,
        ;
        assert(scratched(l, ctx, c, m, u, s, rows, j));
        let x = m.row(c.normed, i, 2 * c.h);
        let b = b0 + i * w;
        assert forall|o: int| 0 <= o < qb implies #[trigger] (v.at)(b + o) == slice(l.query_of(c, x), o) by {
            assert((t.at)(q + j * qb + o) == (u.at)(q + j * qb + o));
        }
        assert forall|o: int| 0 <= o < kb implies #[trigger] (v.at)(b + qb + o) == slice(
            l.key_of(c, x),
            o,
        ) by {
            assert((t.at)(kv + j * kb + o) == (u.at)(kv + j * kb + o));
        }
        assert forall|o: int| 0 <= o < kb implies #[trigger] (v.at)(b + qb + kb + o) == slice(
            l.value_of(c, x),
            o,
        ) by {
            assert((t.at)(kv + (rows + j) * kb + o) == (u.at)(kv + (rows + j) * kb + o));
        }
        assert(l.projects(c, m, v, i));
        assert forall|e: int| 0 <= e < k implies #[trigger] l.projects(c, m, v, s + e) by {
            if e < j {
                assert(l.projects(c, m, t, s + e));
                lemma_blocks_apart(s + e, i, w);
                lemma_block_at(c, ctx, l.gated, s + e);
            }
        }
    }
}

#[verifier::rlimit(50)]
proof fn lemma_tile(
    l: &Qwen3AttentionLayer,
    ctx: &ForwardContext,
    c: MultiSeqCtx,
    meta: AttnMetadataDev,
    places: Places,
    m: Memory,
    s: int,
    rows: int,
)
    requires
        c.fits(ctx),
        c.laid_out(l.gated),
        c.apart(ctx, meta),
        l.all_nvfp4(),
        2 <= rows <= 3,
        0 <= s,
        s + rows <= c.n,
    ensures
        ({
            &&& run(places, m, l.tile_cmds(ctx, c, s, rows)) matches Some(v)
            &&& forall|i: int| s <= i < s + rows ==> #[trigger] l.projects(c, m, v, i)
            &&& forall|a: int|
                clear_of(a, c.qkv_buf.0 + s * c.per_seq_qkv, rows * c.per_seq_qkv) && clear_of(
                    a,
                    ctx.buffers.ssm_qkvz.0 as int,
                    3 * c.q_proj_bytes,
                ) && clear_of(a, ctx.buffers.attn_output.0 as int, 6 * c.kv_bytes()) ==> #[trigger] (v.at)(a)
                    == (m.at)(a)
            &&& v.cache == m.cache
        }),
{
    lemma_tile_scratch(l, ctx, c, meta, places, m, s, rows);
    let cmds = l.tile_gemv_cmds(
        ctx,
        c,
        s,
        rows,
        nvfp4_of(l.q_weight)->0,
        nvfp4_of(l.k_weight)->0,
        nvfp4_of(l.v_weight)->0,
    );
    let u = run(places, m, cmds)->0;
    lemma_scatter(l, ctx, c, meta, places, m, u, s, rows, rows as nat);
    lemma_run_add(places, m, cmds, l.scatter_cmds(ctx, c, s, rows, rows as nat));
    let v = run(places, m, l.tile_cmds(ctx, c, s, rows))->0;
    assert forall|i: int| s <= i < s + rows implies #[trigger] l.projects(c, m, v, i) by {
        assert(l.projects(c, m, v, s + (i - s)));
    }
}

/// What leaves a block as it is leaves its projections.
proof fn lemma_projects_stays(
    l: &Qwen3AttentionLayer,
    ctx: &ForwardContext,
    c: MultiSeqCtx,
    m: Memory,
    u: Memory,
    v: Memory,
    i: int,
)
    requires
        c.fits(ctx),
        c.laid_out(l.gated),
        0 <= i < c.n,
        l.projects(c, m, u, i),
        forall|a: int|
            c.qkv_buf.0 + i * c.per_seq_qkv <= a < c.qkv_buf.0 + i * c.per_seq_qkv + c.per_seq_qkv
                ==> #[trigger] (v.at)(a) == (u.at)(a),
    ensures
        l.projects(c, m, v, i),
{
    lemma_block_at(c, ctx, l.gated, i);
}

#[verifier::rlimit(60)]
proof fn lemma_tiled(
    l: &Qwen3AttentionLayer,
    ctx: &ForwardContext,
    c: MultiSeqCtx,
    meta: AttnMetadataDev,
    places: Places,
    m: Memory,
    s: int,
)
    requires
        c.fits(ctx),
        c.laid_out(l.gated),
        c.apart(ctx, meta),
        l.all_nvfp4(),
        0 <= s <= c.n,
    ensures
        ({
            &&& run(places, m, l.tiled_from(ctx, c, s)) matches Some(v)
            &&& forall|i: int| s <= i < c.n ==> #[trigger] l.projects(c, m, v, i)
            &&& forall|a: int|
                clear_of(a, c.qkv_buf.0 + s * c.per_seq_qkv, (c.n - s) * c.per_seq_qkv) && clear_of(
                    a,
                    ctx.buffers.ssm_qkvz.0 as int,
                    3 * c.q_proj_bytes,
                ) && clear_of(a, ctx.buffers.attn_output.0 as int, 6 * c.kv_bytes()) ==> #[trigger] (v.at)(a)
                    == (m.at)(a)
            &&& v.cache == m.cache
        }),
    decreases c.n - s,
{
    let w = c.per_seq_qkv as int;
    let left = c.n - s;
    if left >= 3 {
        lemma_tile(l, ctx, c, meta, places, m, s, 3);
        let u = run(places, m, l.tile_cmds(ctx, c, s, 3))->0;
        lemma_tiled(l, ctx, c, meta, places, u, s + 3);
        lemma_run_add(places, m, l.tile_cmds(ctx, c, s, 3), l.tiled_from(ctx, c, s + 3));
        let v = run(places, m, l.tiled_from(ctx, c, s))->0;
        assert((s + 3) * w == s * w + 3 * w && left * w == 3 * w + (left - 3) * w && 0 <= (left - 3) * w)
            by (nonlinear_arith)
            requires
                w >= 0,
                left >= 3,
        ;
        lemma_block_at(c, ctx, l.gated, s);
        assert(c.n * w == s * w + left * w) by (nonlinear_arith)
            requires
                left == c.n - s,
        ;
        assert forall|i: int| s <= i < c.n implies #[trigger] l.projects(c, m, v, i) by {
            if i < s + 3 {
                assert(l.projects(c, m, u, i));
                assert forall|a: int|
                    c.qkv_buf.0 + i * w <= a < c.qkv_buf.0 + i * w + w implies #[trigger] (v.at)(a) == (
                u.at)(a) by {
                    lemma_block_at(c, ctx, l.gated, i);
                    lemma_blocks_apart(i, s + 3, w);
                    lemma_areas(c, ctx, meta, 0, 2);
                    lemma_areas(c, ctx, meta, 0, 3);
                }
                lemma_projects_stays(l, ctx, c, m, u, v, i);
            } else {
                assert(l.projects(c, u, v, i));
                let xa = c.normed.0 + i * (2 * c.h);
                assert((u.at)(xa) == (m.at)(xa)) by {
                    lemma_input_outside(c, ctx, meta, l.gated, i);
                }
                assert(u.row(c.normed, i, 2 * c.h) == m.row(c.normed, i, 2 * c.h));
            }
        }
    } else if left == 2 {
        lemma_tile(l, ctx, c, meta, places, m, s, 2);
    } else if left == 1 {
        lemma_seq(l, ctx, c, meta, places, m, s);
        assert(1 * w == w);
    }
}

proof fn lemma_projection(
    l: &Qwen3AttentionLayer,
    ctx: &ForwardContext,
    c: MultiSeqCtx,
    meta: AttnMetadataDev,
    places: Places,
    m: Memory,
)
    requires
        c.fits(ctx),
        c.laid_out(l.gated),
        c.apart(ctx, meta),
    ensures
        ({
            &&& run(places, m, l.projection_cmds(ctx, c)) matches Some(v)
            &&& forall|i: int| 0 <= i < c.n ==> #[trigger] l.projects(c, m, v, i)
            &&& forall|a: int| outside_projections(c, ctx, a) ==> #[trigger] (v.at)(a) == (m.at)(a)
            &&& v.cache == m.cache
        }),
{
    let w = c.per_seq_qkv as int;
    assert(0 * w == 0 && (c.n - 0) * w == c.n * w) by (nonlinear_arith);
    if c.n == 3 && l.all_nvfp4() {
        lemma_tile(l, ctx, c, meta, places, m, 0, 3);
    } else if c.n == 2 && l.all_nvfp4() {
        lemma_tile(l, ctx, c, meta, places, m, 0, 2);
    } else if c.n >= 4 && l.all_nvfp4() {
        lemma_tiled(l, ctx, c, meta, places, m, 0);
    } else {
        lemma_seqs(l, ctx, c, meta, places, m, c.n as nat);
    }
}

/// What lies at an offset of a block is in no row that takes another part of blocks.
proof fn lemma_part_miss(base: int, w: int, d: int, width: int, count: int, i: int, o: int)
    requires
        0 <= d,
        0 < width,
        d + width <= w,
        0 <= o < w,
        o < d || d + width <= o,
    ensures
        row_of(base + i * w + o, base + d, w, width, count) is None,
{
    if o < d {
        assert((i - 1) * w == i * w - w) by (nonlinear_arith);
        lemma_row_gap(base + d, w, width, count, i - 1, w + o - d);
    } else {
        lemma_row_gap(base + d, w, width, count, i, o - d);
    }
}

impl Qwen3AttentionLayer {
    /// Adapter of the keys, where rows have any.
    pub open spec fn key_route(&self, c: MultiSeqCtx) -> Option<LoraRoute> {
        match self.lora {
            Some(l) => if c.seq_slot.0 != 0 {
                l.k_route
            } else {
                None
            },
            None => None,
        }
    }

    /// Adapter of the values, where rows have any.
    pub open spec fn value_route(&self, c: MultiSeqCtx) -> Option<LoraRoute> {
        match self.lora {
            Some(l) => if c.seq_slot.0 != 0 {
                l.v_route
            } else {
                None
            },
            None => None,
        }
    }

    /// Adapters give keys and values of the layer's width.
    pub open spec fn adapters_fit(&self, c: MultiSeqCtx) -> bool {
        &&& self.key_route(c) matches Some(r) ==> r.n_out == c.kv_dim()
        &&& self.value_route(c) matches Some(r) ==> r.n_out == c.kv_dim()
    }
}

/// A projection of sequence `i` with the adapter of its own slot folded in.
pub open spec fn adapted(c: MultiSeqCtx, m: Memory, route: Option<LoraRoute>, i: int, of: Held) -> Held {
    match route {
        Some(r) => Held::Adapted {
            of: Box::new(of),
            row: Box::new(m.row(c.normed, i, 2 * c.h)),
            route: r,
            slot: Box::new(m.row(c.seq_slot, i, 4)),
        },
        None => of,
    }
}

/// What adapters may write.
pub open spec fn outside_adapters(c: MultiSeqCtx, ctx: &ForwardContext, a: int) -> bool {
    &&& clear_of(a, c.qkv_buf.0 as int, c.n * c.per_seq_qkv)
    &&& clear_of(a, ctx.buffers.lora_xa.0 as int, 1)
}

/// One adapter over all blocks, `d` bytes into each.
#[verifier::rlimit(50)]
proof fn lemma_adapter(
    ctx: &ForwardContext,
    c: MultiSeqCtx,
    meta: AttnMetadataDev,
    gated: bool,
    places: Places,
    m: Memory,
    u: Memory,
    op: DeviceOp,
    route: LoraRoute,
    d: int,
    f: spec_fn(int) -> Held,
)
    requires
        c.fits(ctx),
        c.laid_out(gated),
        c.apart(ctx, meta),
        route.n_out == c.kv_dim(),
        d == c.q_proj_bytes || d == c.q_proj_bytes + c.kv_bytes(),
        op is LoraBgmv,
        op->LoraBgmv_route == route,
        op->LoraBgmv_x == c.normed,
        op->LoraBgmv_base_out.0 == c.qkv_buf.0 + d,
        op->LoraBgmv_seq_slot == c.seq_slot,
        op->LoraBgmv_rows == c.n,
        op->LoraBgmv_x_stride == c.h,
        op->LoraBgmv_out_stride == c.per_seq_qkv / 2,
        op->LoraBgmv_xa == ctx.buffers.lora_xa,
        forall|i: int|
            0 <= i < c.n ==> #[trigger] u.row(c.normed, i, 2 * c.h) == m.row(c.normed, i, 2 * c.h),
        forall|i: int| 0 <= i < c.n ==> #[trigger] u.row(c.seq_slot, i, 4) == m.row(c.seq_slot, i, 4),
        forall|i: int|
            0 <= i < c.n ==> (u.at)(c.qkv_buf.0 + i * c.per_seq_qkv + d) == #[trigger] f(i),
    ensures
        ({
            &&& after(places, u, Cmd::Op(op)) matches Some(v)
            &&& forall|i: int, o: int|
                0 <= i < c.n && 0 <= o < c.kv_bytes() ==> #[trigger] (v.at)(
                    c.qkv_buf.0 + i * c.per_seq_qkv + d + o,
                ) == slice(adapted(c, m, Some(route), i, f(i)), o)
            &&& forall|i: int, o: int|
                0 <= i < c.n && 0 <= o < c.per_seq_qkv && (o < d || d + c.kv_bytes() <= o)
                    ==> #[trigger] (v.at)(c.qkv_buf.0 + i * c.per_seq_qkv + o) == (u.at)(
                    c.qkv_buf.0 + i * c.per_seq_qkv + o,
                )
            &&& forall|a: int| outside_adapters(c, ctx, a) ==> #[trigger] (v.at)(a) == (u.at)(a)
            &&& v.cache == u.cache
        }),
{
    lemma_after_adapters(places, u, op);
    let v = after(places, u, Cmd::Op(op))->0;
    let (w, b0, kb) = (c.per_seq_qkv as int, c.qkv_buf.0 as int, c.kv_bytes());
    lemma_areas(c, ctx, meta, 0, 7);
    assert(2 * (c.per_seq_qkv / 2) == w);
    assert forall|i: int, o: int| 0 <= i < c.n && 0 <= o < kb implies #[trigger] (v.at)(b0 + i * w + d + o)
        == slice(adapted(c, m, Some(route), i, f(i)), o) by {
        lemma_block_at(c, ctx, gated, i);
        lemma_row_part(b0 + d, w, kb, c.n as int, i, o);
        assert(b0 + i * w + d + o == b0 + d + i * w + o);
        assert(u.row(c.normed, i, 2 * c.h) == m.row(c.normed, i, 2 * c.h));
        assert(u.row(c.seq_slot, i, 4) == m.row(c.seq_slot, i, 4));
        assert(b0 + i * w + d == b0 + d + i * w);
        assert((u.at)(b0 + i * w + d) == f(i));
        assert(u.row(op->LoraBgmv_base_out, i, w) == f(i));
    }
    assert forall|i: int, o: int|
        0 <= i < c.n && 0 <= o < w && (o < d || d + kb <= o) implies #[trigger] (v.at)(b0 + i * w + o) == (
    u.at)(b0 + i * w + o) by {
        lemma_block_at(c, ctx, gated, i);
        lemma_part_miss(b0, w, d, kb, c.n as int, i, o);
    }
    assert forall|a: int| outside_adapters(c, ctx, a) implies #[trigger] (v.at)(a) == (u.at)(a) by {
        if c.n > 0 {
            lemma_block_at(c, ctx, gated, 0);
            lemma_block_at(c, ctx, gated, c.n - 1);
            if row_of(a, b0 + d, w, kb, c.n as int) is Some {
                lemma_row_inside(a, b0 + d, w, kb, c.n as int);
                let r = (row_of(a, b0 + d, w, kb, c.n as int)->0).0;
                lemma_block_at(c, ctx, gated, r);
            }
        }
    }
}

/// Blocks of all sequences after their adapters.
#[verifier::rlimit(60)]
proof fn lemma_adapters(
    l: &Qwen3AttentionLayer,
    ctx: &ForwardContext,
    c: MultiSeqCtx,
    meta: AttnMetadataDev,
    places: Places,
    m: Memory,
    u: Memory,
    q: spec_fn(int) -> Held,
    k: spec_fn(int) -> Held,
    v: spec_fn(int) -> Held,
)
    requires
        c.fits(ctx),
        c.laid_out(l.gated),
        c.apart(ctx, meta),
        l.adapters_fit(c),
        forall|i: int| 0 <= i < c.n ==> #[trigger] c.block(u, i, q(i), k(i), v(i)),
        forall|a: int| outside_projections(c, ctx, a) ==> #[trigger] (u.at)(a) == (m.at)(a),
    ensures
        ({
            &&& run(places, u, l.kv_lora_cmds(ctx, c)) matches Some(t)
            &&& forall|i: int|
                0 <= i < c.n ==> #[trigger] c.block(
                    t,
                    i,
                    q(i),
                    adapted(c, m, l.key_route(c), i, k(i)),
                    adapted(c, m, l.value_route(c), i, v(i)),
                )
            &&& forall|a: int| outside_adapters(c, ctx, a) ==> #[trigger] (t.at)(a) == (u.at)(a)
            &&& t.cache == u.cache
        }),
{
    let (w, b0, qb, kb) = (
        c.per_seq_qkv as int,
        c.qkv_buf.0 as int,
        c.q_proj_bytes as int,
        c.kv_bytes(),
    );
    let cmds = l.kv_lora_cmds(ctx, c);
    let ks = match l.key_route(c) {
        Some(r) => seq![cmds[0]],
        None => Seq::empty(),
    };
    let vs = match l.value_route(c) {
        Some(r) => seq![cmds[cmds.len() - 1]],
        None => Seq::empty(),
    };
    assert(cmds =~= ks + vs);
    lemma_run_add(places, u, ks, vs);
    assert(0 * w * 1 == 0) by (nonlinear_arith);
    if c.n > 0 {
        lemma_block_at(c, ctx, l.gated, 0);
    } else {
        assert(c.n * c.per_seq_qkv == 0) by (nonlinear_arith)
            requires
                c.n == 0,
        ;
    }
    assert(c.qkv_buf.spans(w));
    assert(c.k_at(0).0 == b0 + qb && c.v_at(0).0 == b0 + qb + kb);
    assert forall|i: int| 0 <= i < c.n implies #[trigger] u.row(c.normed, i, 2 * c.h) == m.row(
        c.normed,
        i,
        2 * c.h,
    ) by {
        lemma_input_outside(c, ctx, meta, l.gated, i);
    }
    assert forall|i: int| 0 <= i < c.n implies #[trigger] u.row(c.seq_slot, i, 4) == m.row(
        c.seq_slot,
        i,
        4,
    ) by {
        lemma_areas(c, ctx, meta, 0, 6);
        lemma_areas(c, ctx, meta, 2, 6);
        lemma_areas(c, ctx, meta, 3, 6);
        assert(outside_projections(c, ctx, c.seq_slot.0 + i * 4));
    }
    if let Some(r) = l.key_route(c) {
        lemma_run_one(places, u, cmds[0]);
        assert forall|i: int| 0 <= i < c.n implies (u.at)(b0 + i * w + qb) == #[trigger] k(i) by {
            lemma_block_at(c, ctx, l.gated, i);
            assert(c.block(u, i, q(i), k(i), v(i)));
            assert((u.at)(b0 + i * w + qb + 0) == slice(k(i), 0));
        }
        lemma_adapter(ctx, c, meta, l.gated, places, m, u, cmds[0]->Op_0, r, qb, k);
    }
    let t1 = run(places, u, ks)->0;
    let k1 = |i: int| adapted(c, m, l.key_route(c), i, k(i));
    assert forall|i: int| 0 <= i < c.n implies #[trigger] c.block(t1, i, q(i), k1(i), v(i)) by {
        lemma_block_at(c, ctx, l.gated, i);
        assert(c.block(u, i, q(i), k(i), v(i)));
        if l.key_route(c) is Some {
            assert forall|o: int| 0 <= o < 2 * c.q_dim implies #[trigger] (t1.at)(b0 + i * w + o)
                == slice(q(i), o) by {}
            assert forall|o: int| 0 <= o < kb implies #[trigger] (t1.at)(b0 + i * w + qb + o) == slice(
                k1(i),
                o,
            ) by {}
            assert forall|o: int| 0 <= o < kb implies #[trigger] (t1.at)(b0 + i * w + qb + kb + o)
                == slice(v(i), o) by {
                assert((t1.at)(b0 + i * w + (qb + kb + o)) == (u.at)(b0 + i * w + (qb + kb + o)));
            }
        }
    }
    if let Some(r) = l.value_route(c) {
        let op = cmds[cmds.len() - 1];
        lemma_run_one(places, t1, op);
        assert forall|i: int| 0 <= i < c.n implies #[trigger] t1.row(c.normed, i, 2 * c.h) == m.row(
            c.normed,
            i,
            2 * c.h,
        ) by {
            lemma_block_at(c, ctx, l.gated, i);
            lemma_input_outside(c, ctx, meta, l.gated, i);
            lemma_areas(c, ctx, meta, 1, 7);
            assert(u.row(c.normed, i, 2 * c.h) == m.row(c.normed, i, 2 * c.h));
            assert(outside_adapters(c, ctx, c.normed.0 + i * (2 * c.h)));
        }
        assert forall|i: int| 0 <= i < c.n implies #[trigger] t1.row(c.seq_slot, i, 4) == m.row(
            c.seq_slot,
            i,
            4,
        ) by {
            lemma_areas(c, ctx, meta, 0, 6);
            lemma_areas(c, ctx, meta, 6, 7);
            assert(u.row(c.seq_slot, i, 4) == m.row(c.seq_slot, i, 4));
            assert(outside_adapters(c, ctx, c.seq_slot.0 + i * 4));
        }
        assert forall|i: int| 0 <= i < c.n implies (t1.at)(b0 + i * w + (qb + kb)) == #[trigger] v(i) by {
            lemma_block_at(c, ctx, l.gated, i);
            assert(c.block(t1, i, q(i), k1(i), v(i)));
            assert((t1.at)(b0 + i * w + qb + kb + 0) == slice(v(i), 0));
        }
        lemma_adapter(ctx, c, meta, l.gated, places, m, t1, op->Op_0, r, qb + kb, v);
    }
    let t = run(places, t1, vs)->0;
    let v1 = |i: int| adapted(c, m, l.value_route(c), i, v(i));
    assert forall|i: int| 0 <= i < c.n implies #[trigger] c.block(t, i, q(i), k1(i), v1(i)) by {
        lemma_block_at(c, ctx, l.gated, i);
        assert(c.block(t1, i, q(i), k1(i), v(i)));
        if l.value_route(c) is Some {
            assert forall|o: int| 0 <= o < 2 * c.q_dim implies #[trigger] (t.at)(b0 + i * w + o)
                == slice(q(i), o) by {}
            assert forall|o: int| 0 <= o < kb implies #[trigger] (t.at)(b0 + i * w + qb + o) == slice(
                k1(i),
                o,
            ) by {
                assert((t.at)(b0 + i * w + (qb + o)) == (t1.at)(b0 + i * w + (qb + o)));
            }
            assert forall|o: int| 0 <= o < kb implies #[trigger] (t.at)(b0 + i * w + qb + kb + o)
                == slice(v1(i), o) by {
                assert((t.at)(b0 + i * w + (qb + kb) + o) == slice(v1(i), o));
            }
        }
    }
    assert(run(places, u, cmds) == Some(t));
    assert forall|i: int| 0 <= i < c.n implies #[trigger] c.block(
        t,
        i,
        q(i),
        adapted(c, m, l.key_route(c), i, k(i)),
        adapted(c, m, l.value_route(c), i, v(i)),
    ) by {
        assert(c.block(t, i, q(i), k1(i), v1(i)));
    }
    assert forall|a: int| outside_adapters(c, ctx, a) implies #[trigger] (t.at)(a) == (u.at)(a) by {
        assert((t1.at)(a) == (u.at)(a));
    }
}

/// What lies where head `e` starts.
pub open spec fn head(m: Memory, p: int, e: int, hd: u32) -> Held {
    (m.at)(p + e * (2 * hd))
}

impl MultiSeqCtx {
    /// Heads of sequence `i` start as `q`, `k` and `v` say.
    pub open spec fn heads(
        self,
        m: Memory,
        i: int,
        q: spec_fn(int) -> Held,
        k: spec_fn(int) -> Held,
        v: spec_fn(int) -> Held,
    ) -> bool {
        let b = self.qkv_buf.0 + i * self.per_seq_qkv;
        &&& forall|e: int| 0 <= e < self.nq ==> #[trigger] head(m, b, e, self.hd) == q(e)
        &&& forall|e: int|
            0 <= e < self.nkv ==> #[trigger] head(m, b + self.q_proj_bytes, e, self.hd) == k(e)
        &&& forall|e: int|
            0 <= e < self.nkv ==> #[trigger] head(
                m,
                b + self.q_proj_bytes + self.kv_bytes(),
                e,
                self.hd,
            ) == v(e)
    }
}

/// Heads lie inside of their rows.
proof fn lemma_head_inside(c: MultiSeqCtx, n: int, e: int)
    requires
        0 <= e < n,
        c.hd > 0,
    ensures
        0 <= e * (2 * c.hd),
        e * (2 * c.hd) + 2 * c.hd <= n * (2 * c.hd),
        n * (2 * c.hd) == 2 * (n * c.hd),
{
    let w = 2 * c.hd;
    assert(0 <= e * w && e * w + w <= n * w && n * (2 * c.hd) == 2 * (n * c.hd)) by (nonlinear_arith)
        requires
            0 <= e < n,
            w == 2 * c.hd,
            w > 0,
    ;
}

/// Heads of a row.
pub open spec fn heads_of(of: Held, hd: u32) -> spec_fn(int) -> Held {
    |e: int| slice(of, e * (2 * hd))
}

proof fn lemma_block_heads(
    ctx: &ForwardContext,
    c: MultiSeqCtx,
    gated: bool,
    m: Memory,
    i: int,
    q: Held,
    k: Held,
    v: Held,
)
    requires
        c.fits(ctx),
        c.laid_out(gated),
        0 <= i < c.n,
        c.block(m, i, q, k, v),
    ensures
        c.heads(m, i, heads_of(q, c.hd), heads_of(k, c.hd), heads_of(v, c.hd)),
{
    lemma_block_at(c, ctx, gated, i);
    let b = c.qkv_buf.0 + i * c.per_seq_qkv;
    assert forall|e: int| 0 <= e < c.nq implies #[trigger] head(m, b, e, c.hd) == heads_of(q, c.hd)(e) by {
        lemma_head_inside(c, c.nq as int, e);
        assert((m.at)(b + e * (2 * c.hd)) == slice(q, e * (2 * c.hd)));
    }
    assert forall|e: int| 0 <= e < c.nkv implies #[trigger] head(m, b + c.q_proj_bytes, e, c.hd)
        == heads_of(k, c.hd)(e) by {
        lemma_head_inside(c, c.nkv as int, e);
        assert((m.at)(b + c.q_proj_bytes + e * (2 * c.hd)) == slice(k, e * (2 * c.hd)));
    }
    assert forall|e: int| 0 <= e < c.nkv implies #[trigger] head(
        m,
        b + c.q_proj_bytes + c.kv_bytes(),
        e,
        c.hd,
    ) == heads_of(v, c.hd)(e) by {
        lemma_head_inside(c, c.nkv as int, e);
        assert((m.at)(b + c.q_proj_bytes + c.kv_bytes() + e * (2 * c.hd)) == slice(v, e * (2 * c.hd)));
    }
}

/// What leaves a block as it is leaves its heads.
#[verifier::rlimit(50)]
proof fn lemma_heads_stay(
    ctx: &ForwardContext,
    c: MultiSeqCtx,
    gated: bool,
    u: Memory,
    v: Memory,
    i: int,
    q: spec_fn(int) -> Held,
    k: spec_fn(int) -> Held,
    w: spec_fn(int) -> Held,
)
    requires
        c.fits(ctx),
        c.laid_out(gated),
        0 <= i < c.n,
        c.heads(u, i, q, k, w),
        forall|a: int|
            c.qkv_buf.0 + i * c.per_seq_qkv <= a < c.qkv_buf.0 + i * c.per_seq_qkv + c.per_seq_qkv
                ==> #[trigger] (v.at)(a) == (u.at)(a),
    ensures
        c.heads(v, i, q, k, w),
{
    lemma_block_at(c, ctx, gated, i);
    let b = c.qkv_buf.0 + i * c.per_seq_qkv;
    assert forall|e: int| 0 <= e < c.nq implies #[trigger] head(v, b, e, c.hd) == q(e) by {
        lemma_head_inside(c, c.nq as int, e);
        assert(head(u, b, e, c.hd) == q(e));
    }
    assert forall|e: int| 0 <= e < c.nkv implies #[trigger] head(v, b + c.q_proj_bytes, e, c.hd) == k(e) by {
        lemma_head_inside(c, c.nkv as int, e);
        assert(head(u, b + c.q_proj_bytes, e, c.hd) == k(e));
    }
    assert forall|e: int| 0 <= e < c.nkv implies #[trigger] head(
        v,
        b + c.q_proj_bytes + c.kv_bytes(),
        e,
        c.hd,
    ) == w(e) by {
        lemma_head_inside(c, c.nkv as int, e);
        assert(head(u, b + c.q_proj_bytes + c.kv_bytes(), e, c.hd) == w(e));
    }
}

/// Heads after their norm, where the layer has one.
pub open spec fn normed_heads(
    c: MultiSeqCtx,
    weight: DenseWeight,
    f: spec_fn(int) -> Held,
) -> spec_fn(int) -> Held {
    |e: int|
        if weight.weight.0 != 0 {
            Held::Normed { row: Box::new(f(e)), weight, eps: c.eps, dim: c.hd }
        } else {
            f(e)
        }
}

/// Work of one run of heads' norms.
spec fn norm_cmds(
    l: &Qwen3AttentionLayer,
    c: MultiSeqCtx,
    p: DevicePtr,
    weight: DenseWeight,
    n: u32,
) -> Seq<Cmd> {
    if weight.weight.0 != 0 {
        seq![
            Cmd::Op(
                DeviceOp::RmsNorm {
                    kernel: l.kernels.rms_norm,
                    input: p,
                    weight,
                    output: p,
                    rows: n,
                    dim: c.hd,
                    eps: c.eps,
                },
            ),
        ]
    } else {
        Seq::empty()
    }
}

/// Norms of one run of heads.
#[verifier::rlimit(50)]
proof fn lemma_norm(
    l: &Qwen3AttentionLayer,
    c: MultiSeqCtx,
    places: Places,
    u: Memory,
    p: DevicePtr,
    weight: DenseWeight,
    n: u32,
    f: spec_fn(int) -> Held,
)
    requires
        c.hd > 0,
        forall|e: int| 0 <= e < n ==> #[trigger] head(u, p.0 as int, e, c.hd) == f(e),
    ensures
        ({
            &&& run(places, u, norm_cmds(l, c, p, weight, n)) matches Some(v)
            &&& forall|e: int|
                0 <= e < n ==> #[trigger] head(v, p.0 as int, e, c.hd) == normed_heads(c, weight, f)(e)
            &&& forall|a: int| clear_of(a, p.0 as int, 2 * (n * c.hd)) ==> #[trigger] (v.at)(a) == (u.at)(a)
            &&& v.cache == u.cache
        }),
{
    if weight.weight.0 != 0 {
        let op = DeviceOp::RmsNorm {
            kernel: l.kernels.rms_norm,
            input: p,
            weight,
            output: p,
            rows: n,
            dim: c.hd,
            eps: c.eps,
        };
        lemma_run_one(places, u, Cmd::Op(op));
        lemma_after_norm(places, u, op);
        let v = after(places, u, Cmd::Op(op))->0;
        assert forall|e: int| 0 <= e < n implies #[trigger] head(v, p.0 as int, e, c.hd) == normed_heads(
            c,
            weight,
            f,
        )(e) by {
            lemma_row_hit(p.0 as int, 2 * c.hd, 2 * c.hd, n as int, e);
            assert(head(u, p.0 as int, e, c.hd) == f(e));
        }
        assert forall|a: int| clear_of(a, p.0 as int, 2 * (n * c.hd)) implies #[trigger] (v.at)(a) == (
        u.at)(a) by {
            assert(n * (2 * c.hd) == 2 * (n * c.hd)) by (nonlinear_arith);
            lemma_row_miss(a, p.0 as int, 2 * c.hd, 2 * c.hd, n as int);
        }
    } else {
        assert forall|e: int| 0 <= e < n implies #[trigger] head(u, p.0 as int, e, c.hd) == normed_heads(
            c,
            weight,
            f,
        )(e) by {}
    }
}

#[verifier::rlimit(50)]
proof fn lemma_norms_of(
    l: &Qwen3AttentionLayer,
    ctx: &ForwardContext,
    c: MultiSeqCtx,
    places: Places,
    u: Memory,
    i: int,
    q: spec_fn(int) -> Held,
    k: spec_fn(int) -> Held,
    w: spec_fn(int) -> Held,
)
    requires
        c.fits(ctx),
        c.laid_out(l.gated),
        0 <= i < c.n,
        c.heads(u, i, q, k, w),
    ensures
        ({
            let b = c.qkv_buf.0 + i * c.per_seq_qkv;
            &&& run(places, u, l.norms_of_cmds(c, i)) matches Some(v)
            &&& c.heads(
                v,
                i,
                normed_heads(c, l.attn.q_norm, q),
                normed_heads(c, l.attn.k_norm, k),
                w,
            )
            &&& forall|a: int| clear_of(a, b, c.per_seq_qkv as int) ==> #[trigger] (v.at)(a) == (u.at)(a)
            &&& v.cache == u.cache
        }),
{
    lemma_block_at(c, ctx, l.gated, i);
    let b = c.qkv_buf.0 + i * c.per_seq_qkv;
    let (qb, kb) = (c.q_proj_bytes as int, c.kv_bytes());
    let qs = norm_cmds(l, c, c.q_at(i), l.attn.q_norm, c.nq);
    let ks = norm_cmds(l, c, c.k_at(i), l.attn.k_norm, c.nkv);
    assert(l.norms_of_cmds(c, i) =~= qs + ks);
    lemma_run_add(places, u, qs, ks);
    lemma_norm(l, c, places, u, c.q_at(i), l.attn.q_norm, c.nq, q);
    let t = run(places, u, qs)->0;
    assert forall|e: int| 0 <= e < c.nkv implies #[trigger] head(t, b + qb, e, c.hd) == k(e) by {
        lemma_head_inside(c, c.nkv as int, e);
        assert(head(u, b + qb, e, c.hd) == k(e));
    }
    lemma_norm(l, c, places, t, c.k_at(i), l.attn.k_norm, c.nkv, k);
    let v = run(places, t, ks)->0;
    assert forall|e: int| 0 <= e < c.nq implies #[trigger] head(v, b, e, c.hd) == normed_heads(
        c,
        l.attn.q_norm,
        q,
    )(e) by {
        lemma_head_inside(c, c.nq as int, e);
        assert(head(t, b, e, c.hd) == normed_heads(c, l.attn.q_norm, q)(e));
    }
    assert forall|e: int| 0 <= e < c.nkv implies #[trigger] head(v, b + qb + kb, e, c.hd) == w(e) by {
        lemma_head_inside(c, c.nkv as int, e);
        assert(head(u, b + qb + kb, e, c.hd) == w(e));
        assert((t.at)(b + qb + kb + e * (2 * c.hd)) == (u.at)(b + qb + kb + e * (2 * c.hd)));
    }
}

#[verifier::rlimit(50)]
proof fn lemma_norms(
    l: &Qwen3AttentionLayer,
    ctx: &ForwardContext,
    c: MultiSeqCtx,
    places: Places,
    u: Memory,
    n: nat,
    q: spec_fn(int) -> spec_fn(int) -> Held,
    k: spec_fn(int) -> spec_fn(int) -> Held,
    w: spec_fn(int) -> spec_fn(int) -> Held,
)
    requires
        c.fits(ctx),
        c.laid_out(l.gated),
        n <= c.n,
        forall|i: int| 0 <= i < c.n ==> #[trigger] c.heads(u, i, q(i), k(i), w(i)),
    ensures
        ({
            &&& run(places, u, l.norms_cmds(c, n)) matches Some(v)
            &&& forall|i: int|
                0 <= i < n ==> #[trigger] c.heads(
                    v,
                    i,
                    normed_heads(c, l.attn.q_norm, q(i)),
                    normed_heads(c, l.attn.k_norm, k(i)),
                    w(i),
                )
            &&& forall|a: int|
                clear_of(a, c.qkv_buf.0 as int, n * c.per_seq_qkv) ==> #[trigger] (v.at)(a) == (u.at)(a)
            &&& v.cache == u.cache
        }),
    decreases n,
{
    if n > 0 {
        let p = n - 1;
        let (wd, b0) = (c.per_seq_qkv as int, c.qkv_buf.0 as int);
        lemma_norms(l, ctx, c, places, u, p as nat, q, k, w);
        let t = run(places, u, l.norms_cmds(c, p as nat))->0;
        lemma_block_at(c, ctx, l.gated, p);
        assert(n * wd == p * wd + wd) by (nonlinear_arith)
            requires
                n == p + 1,
        ;
        assert(c.heads(u, p, q(p), k(p), w(p)));
        lemma_heads_stay(ctx, c, l.gated, u, t, p, q(p), k(p), w(p));
        lemma_norms_of(l, ctx, c, places, t, p, q(p), k(p), w(p));
        lemma_run_add(places, u, l.norms_cmds(c, p as nat), l.norms_of_cmds(c, p));
        let v = run(places, t, l.norms_of_cmds(c, p))->0;
        assert forall|i: int| 0 <= i < n implies #[trigger] c.heads(
            v,
            i,
            normed_heads(c, l.attn.q_norm, q(i)),
            normed_heads(c, l.attn.k_norm, k(i)),
            w(i),
        ) by {
            if i < p {
                let (q1, k1) = (
                    normed_heads(c, l.attn.q_norm, q(i)),
                    normed_heads(c, l.attn.k_norm, k(i)),
                );
                assert(c.heads(t, i, q1, k1, w(i)));
                lemma_blocks_apart(i, p, wd);
                lemma_heads_stay(ctx, c, l.gated, t, v, i, q1, k1, w(i));
            }
        }
    }
}

impl Qwen3AttentionLayer {
    /// How the layer rotates heads.
    pub open spec fn rotation(&self, ctx: &ForwardContext, c: MultiSeqCtx) -> Rotation {
        if self.yarn_inv_freq.0 == 0 {
            Rotation {
                hd: c.hd,
                dim: self.rotary_dim(ctx),
                theta: Some(self.theta(ctx)),
                inv_freq: DevicePtr(0),
                factor: Scalar(0),
            }
        } else {
            Rotation {
                hd: c.hd,
                dim: self.rotary_dim(ctx),
                theta: None,
                inv_freq: self.yarn_inv_freq,
                factor: self.yarn_attention_factor,
            }
        }
    }
}

/// Heads after their rotation to a position.
pub open spec fn rotated_heads(
    by: Rotation,
    position: Held,
    f: spec_fn(int) -> Held,
) -> spec_fn(int) -> Held {
    |e: int| Held::Rotated { of: Box::new(f(e)), position: Box::new(position), by }
}

/// A head that is written is found where it starts.
proof fn lemma_head_hit(
    to: Memory,
    m: Memory,
    p: DevicePtr,
    stride: int,
    positions: DevicePtr,
    count: int,
    n: u32,
    by: Rotation,
    r: int,
    e: int,
)
    requires
        0 <= r < count,
        0 <= e < n,
        by.hd > 0,
        n * (2 * by.hd) <= stride,
    ensures
        (rotated(to, m, p, stride, positions, count, n, by).at)(p.0 + r * stride + e * (2 * by.hd))
            == (Held::Rotated {
            of: Box::new((m.at)(p.0 + r * stride + e * (2 * by.hd))),
            position: Box::new(m.row(positions, r, 4)),
            by,
        }),
{
    let w = 2 * by.hd;
    assert(0 <= e * w && e * w < n * w && (e * w) / w == e && (e * w) % w == 0) by (nonlinear_arith)
        requires
            0 <= e < n,
            w > 0,
    ;
    lemma_row_part(p.0 as int, stride, n * w, count, r, e * w);
}

#[verifier::rlimit(40)]
proof fn lemma_rope_of(
    l: &Qwen3AttentionLayer,
    ctx: &ForwardContext,
    c: MultiSeqCtx,
    meta: AttnMetadataDev,
    places: Places,
    u: Memory,
    i: int,
    q: spec_fn(int) -> Held,
    k: spec_fn(int) -> Held,
    w: spec_fn(int) -> Held,
)
    requires
        c.fits(ctx),
        c.laid_out(l.gated),
        c.meta_fits(meta),
        0 <= i < c.n,
        c.heads(u, i, q, k, w),
    ensures
        ({
            let b = c.qkv_buf.0 + i * c.per_seq_qkv;
            let by = l.rotation(ctx, c);
            let at = u.row(meta.positions, i, 4);
            &&& run(places, u, l.rope_of_cmds(ctx, c, meta, i)) matches Some(v)
            &&& c.heads(v, i, rotated_heads(by, at, q), rotated_heads(by, at, k), w)
            &&& forall|a: int| clear_of(a, b, c.per_seq_qkv as int) ==> #[trigger] (v.at)(a) == (u.at)(a)
            &&& v.cache == u.cache
        }),
{
    lemma_block_at(c, ctx, l.gated, i);
    let b = c.qkv_buf.0 + i * c.per_seq_qkv;
    let by = l.rotation(ctx, c);
    let at = u.row(meta.positions, i, 4);
    let (qb, kb, hd) = (c.q_proj_bytes as int, c.kv_bytes(), c.hd);
    let (sq, sk) = (2 * (c.nq * hd), 2 * (c.nkv * hd));
    let cmds = l.rope_of_cmds(ctx, c, meta, i);
    let pos = meta.positions.row_at(i, 1, 4);
    assert(cmds =~= seq![cmds[0]]);
    lemma_run_one(places, u, cmds[0]);
    if l.yarn_inv_freq.0 == 0 {
        lemma_after_rope(places, u, cmds[0]->Op_0);
    } else {
        lemma_after_rope_scaled(places, u, cmds[0]->Op_0);
    }
    let v = after(places, u, cmds[0])->0;
    let t = rotated(u, u, c.q_at(i), sq, pos, 1, c.nq, by);
    assert(v == rotated(t, u, c.k_at(i), sk, pos, 1, c.nkv, by));
    assert(u.row(pos, 0, 4) == at);
    assert(c.nq * (2 * hd) == sq && c.nkv * (2 * hd) == sk) by (nonlinear_arith)
        requires
            sq == 2 * (c.nq * hd),
            sk == 2 * (c.nkv * hd),
    ;
    assert forall|e: int| 0 <= e < c.nq implies #[trigger] head(v, b, e, hd) == rotated_heads(by, at, q)(
        e,
    ) by {
        lemma_head_inside(c, c.nq as int, e);
        lemma_head_hit(u, u, c.q_at(i), sq, pos, 1, c.nq, by, 0, e);
        assert(head(u, b, e, hd) == q(e));
        lemma_one_row_miss(b + e * (2 * hd), b + qb, sk, sk);
    }
    assert forall|e: int| 0 <= e < c.nkv implies #[trigger] head(v, b + qb, e, hd) == rotated_heads(
        by,
        at,
        k,
    )(e) by {
        lemma_head_hit(t, u, c.k_at(i), sk, pos, 1, c.nkv, by, 0, e);
        assert(head(u, b + qb, e, hd) == k(e));
    }
    assert forall|e: int| 0 <= e < c.nkv implies #[trigger] head(v, b + qb + kb, e, hd) == w(e) by {
        lemma_head_inside(c, c.nkv as int, e);
        assert(head(u, b + qb + kb, e, hd) == w(e));
        let a = b + qb + kb + e * (2 * hd);
        lemma_one_row_miss(a, b, sq, sq);
        lemma_one_row_miss(a, b + qb, sk, sk);
    }
    assert forall|a: int| clear_of(a, b, c.per_seq_qkv as int) implies #[trigger] (v.at)(a) == (u.at)(a) by {
        lemma_one_row_miss(a, b, sq, sq);
        lemma_one_row_miss(a, b + qb, sk, sk);
    }
}

#[verifier::rlimit(50)]
proof fn lemma_ropes(
    l: &Qwen3AttentionLayer,
    ctx: &ForwardContext,
    c: MultiSeqCtx,
    meta: AttnMetadataDev,
    places: Places,
    u: Memory,
    n: nat,
    q: spec_fn(int) -> spec_fn(int) -> Held,
    k: spec_fn(int) -> spec_fn(int) -> Held,
    w: spec_fn(int) -> spec_fn(int) -> Held,
)
    requires
        c.fits(ctx),
        c.laid_out(l.gated),
        c.meta_fits(meta),
        c.apart(ctx, meta),
        n <= c.n,
        forall|i: int| 0 <= i < c.n ==> #[trigger] c.heads(u, i, q(i), k(i), w(i)),
    ensures
        ({
            &&& run(places, u, l.ropes_cmds(ctx, c, meta, n)) matches Some(v)
            &&& forall|i: int|
                0 <= i < n ==> #[trigger] c.heads(
                    v,
                    i,
                    rotated_heads(l.rotation(ctx, c), u.row(meta.positions, i, 4), q(i)),
                    rotated_heads(l.rotation(ctx, c), u.row(meta.positions, i, 4), k(i)),
                    w(i),
                )
            &&& forall|a: int|
                clear_of(a, c.qkv_buf.0 as int, n * c.per_seq_qkv) ==> #[trigger] (v.at)(a) == (u.at)(a)
            &&& v.cache == u.cache
        }),
    decreases n,
{
    if n > 0 {
        let p = n - 1;
        let (wd, b0) = (c.per_seq_qkv as int, c.qkv_buf.0 as int);
        let by = l.rotation(ctx, c);
        lemma_ropes(l, ctx, c, meta, places, u, p as nat, q, k, w);
        let t = run(places, u, l.ropes_cmds(ctx, c, meta, p as nat))->0;
        lemma_block_at(c, ctx, l.gated, p);
        lemma_areas(c, ctx, meta, 0, 4);
        assert(n * wd == p * wd + wd) by (nonlinear_arith)
            requires
                n == p + 1,
        ;
        assert(c.heads(u, p, q(p), k(p), w(p)));
        lemma_heads_stay(ctx, c, l.gated, u, t, p, q(p), k(p), w(p));
        lemma_rope_of(l, ctx, c, meta, places, t, p, q(p), k(p), w(p));
        assert(t.row(meta.positions, p, 4) == u.row(meta.positions, p, 4));
        lemma_run_add(places, u, l.ropes_cmds(ctx, c, meta, p as nat), l.rope_of_cmds(ctx, c, meta, p));
        let v = run(places, t, l.rope_of_cmds(ctx, c, meta, p))->0;
        assert forall|i: int| 0 <= i < n implies #[trigger] c.heads(
            v,
            i,
            rotated_heads(by, u.row(meta.positions, i, 4), q(i)),
            rotated_heads(by, u.row(meta.positions, i, 4), k(i)),
            w(i),
        ) by {
            if i < p {
                let (q1, k1) = (
                    rotated_heads(by, u.row(meta.positions, i, 4), q(i)),
                    rotated_heads(by, u.row(meta.positions, i, 4), k(i)),
                );
                assert(c.heads(t, i, q1, k1, w(i)));
                lemma_blocks_apart(i, p, wd);
                lemma_heads_stay(ctx, c, l.gated, t, v, i, q1, k1, w(i));
            }
        }
    }
}

#[verifier::rlimit(40)]
proof fn lemma_shared_rope(
    l: &Qwen3AttentionLayer,
    ctx: &ForwardContext,
    c: MultiSeqCtx,
    meta: AttnMetadataDev,
    env: &EnvVars,
    places: Places,
    u: Memory,
    q: spec_fn(int) -> spec_fn(int) -> Held,
    k: spec_fn(int) -> spec_fn(int) -> Held,
    w: spec_fn(int) -> spec_fn(int) -> Held,
)
    requires
        c.fits(ctx),
        c.laid_out(l.gated),
        l.shares_rotation(env, c),
        forall|i: int| 0 <= i < c.n ==> #[trigger] c.heads(u, i, q(i), k(i), w(i)),
    ensures
        ({
            &&& run(places, u, l.rope_cmds(ctx, env, c, meta)) matches Some(v)
            &&& forall|i: int|
                0 <= i < c.n ==> #[trigger] c.heads(
                    v,
                    i,
                    rotated_heads(l.rotation(ctx, c), u.row(meta.positions, i, 4), q(i)),
                    rotated_heads(l.rotation(ctx, c), u.row(meta.positions, i, 4), k(i)),
                    w(i),
                )
            &&& forall|a: int|
                clear_of(a, c.qkv_buf.0 as int, c.n * c.per_seq_qkv) ==> #[trigger] (v.at)(a) == (u.at)(a)
            &&& v.cache == u.cache
        }),
{
    let by = l.rotation(ctx, c);
    let (wd, b0, n) = (c.per_seq_qkv as int, c.qkv_buf.0 as int, c.n as int);
    let (qb, kb, hd) = (c.q_proj_bytes as int, c.kv_bytes(), c.hd);
    let cmds = l.rope_cmds(ctx, env, c, meta);
    assert(cmds =~= seq![cmds[0]]);
    lemma_run_one(places, u, cmds[0]);
    lemma_after_rope_strided(places, u, cmds[0]->Op_0);
    let v = after(places, u, cmds[0])->0;
    lemma_block_at(c, ctx, l.gated, 0);
    assert(0 * wd == 0);
    let pos = meta.positions;
    let t = rotated(u, u, c.qkv_buf, wd, pos, n, c.nq, by);
    assert(2 * (c.per_seq_qkv / 2) == wd);
    assert(v == rotated(t, u, c.k_at(0), wd, pos, n, c.nkv, by));
    assert(c.nq * (2 * hd) == 2 * (c.nq * hd) && c.nkv * (2 * hd) == kb) by (nonlinear_arith)
        requires
            kb == c.nkv * c.hd * 2,
            hd == c.hd,
    ;
    assert forall|i: int| 0 <= i < n implies #[trigger] c.heads(
        v,
        i,
        rotated_heads(by, u.row(pos, i, 4), q(i)),
        rotated_heads(by, u.row(pos, i, 4), k(i)),
        w(i),
    ) by {
        let b = b0 + i * wd;
        let at = u.row(pos, i, 4);
        lemma_block_at(c, ctx, l.gated, i);
        assert(c.heads(u, i, q(i), k(i), w(i)));
        assert forall|e: int| 0 <= e < c.nq implies #[trigger] head(v, b, e, hd) == rotated_heads(
            by,
            at,
            q(i),
        )(e) by {
            lemma_head_inside(c, c.nq as int, e);
            lemma_head_hit(u, u, c.qkv_buf, wd, pos, n, c.nq, by, i, e);
            assert(head(u, b, e, hd) == q(i)(e));
            lemma_part_miss(b0, wd, qb, kb, n, i, e * (2 * hd));
        }
        assert forall|e: int| 0 <= e < c.nkv implies #[trigger] head(v, b + qb, e, hd) == rotated_heads(
            by,
            at,
            k(i),
        )(e) by {
            lemma_head_hit(t, u, c.k_at(0), wd, pos, n, c.nkv, by, i, e);
            assert(head(u, b + qb, e, hd) == k(i)(e));
            assert(c.k_at(0).0 + i * wd + e * (2 * hd) == b + qb + e * (2 * hd));
        }
        assert forall|e: int| 0 <= e < c.nkv implies #[trigger] head(v, b + qb + kb, e, hd) == w(i)(e) by {
            lemma_head_inside(c, c.nkv as int, e);
            assert(head(u, b + qb + kb, e, hd) == w(i)(e));
            let o = qb + kb + e * (2 * hd);
            lemma_part_miss(b0, wd, 0, 2 * c.q_dim, n, i, o);
            lemma_part_miss(b0, wd, qb, kb, n, i, o);
            assert(b + qb + kb + e * (2 * hd) == b0 + i * wd + o);
        }
    }
    assert forall|a: int| clear_of(a, b0, n * wd) implies #[trigger] (v.at)(a) == (u.at)(a) by {
        lemma_row_miss(a, b0, wd, 2 * c.q_dim, n);
        if row_of(a, b0 + qb, wd, kb, n) is Some {
            lemma_row_inside(a, b0 + qb, wd, kb, n);
            let r = (row_of(a, b0 + qb, wd, kb, n)->0).0;
            lemma_block_at(c, ctx, l.gated, r);
        }
    }
}

/// A row of the cache from the heads of sequence `i`.
pub open spec fn cached(
    c: MultiSeqCtx,
    slot: Held,
    k: spec_fn(int) -> Held,
    v: spec_fn(int) -> Held,
) -> CacheRow {
    CacheRow {
        slot,
        keys: Seq::new(c.nkv as nat, |e: int| k(e)),
        values: Seq::new(c.nkv as nat, |e: int| v(e)),
        block_size: c.bs,
    }
}

#[verifier::rlimit(50)]
proof fn lemma_writes(
    l: &Qwen3AttentionLayer,
    ctx: &ForwardContext,
    c: MultiSeqCtx,
    meta: AttnMetadataDev,
    places: Places,
    u: Memory,
    n: nat,
    q: spec_fn(int) -> spec_fn(int) -> Held,
    k: spec_fn(int) -> spec_fn(int) -> Held,
    w: spec_fn(int) -> spec_fn(int) -> Held,
)
    requires
        c.fits(ctx),
        c.laid_out(l.gated),
        c.meta_fits(meta),
        n <= c.n,
        forall|i: int| 0 <= i < c.n ==> #[trigger] c.heads(u, i, q(i), k(i), w(i)),
    ensures
        ({
            &&& run(places, u, l.writes_cmds(ctx, c, meta, n)) matches Some(v)
            &&& v.at == u.at
            &&& v.cache =~= u.cache + Seq::new(
                n,
                |i: int| cached(c, u.row(meta.slot, i, 8), k(i), w(i)),
            )
        }),
    decreases n,
{
    if n > 0 {
        let p = n - 1;
        lemma_writes(l, ctx, c, meta, places, u, p as nat, q, k, w);
        let t = run(places, u, l.writes_cmds(ctx, c, meta, p as nat))->0;
        let cmds = l.write_of_cmds(ctx, c, meta, p);
        lemma_run_add(places, u, l.writes_cmds(ctx, c, meta, p as nat), cmds);
        assert(cmds =~= seq![cmds[0]]);
        lemma_run_one(places, t, cmds[0]);
        lemma_after_cache_write(places, t, cmds[0]->Op_0);
        lemma_block_at(c, ctx, l.gated, p);
        let v = after(places, t, cmds[0])->0;
        assert(c.heads(u, p, q(p), k(p), w(p)));
        let (b, qb, kb) = (c.qkv_buf.0 + p * c.per_seq_qkv, c.q_proj_bytes as int, c.kv_bytes());
        let slot = meta.slot.row_at(p, 1, 8);
        let row = v.cache[v.cache.len() - 1];
        let want = cached(c, u.row(meta.slot, p, 8), k(p), w(p));
        assert(row.slot == want.slot);
        assert forall|e: int| 0 <= e < c.nkv implies row.keys[e] == want.keys[e] by {
            assert(head(u, b + qb, e, c.hd) == k(p)(e));
        }
        assert forall|e: int| 0 <= e < c.nkv implies row.values[e] == want.values[e] by {
            assert(head(u, b + qb + kb, e, c.hd) == w(p)(e));
        }
        assert(row.keys =~= want.keys);
        assert(row.values =~= want.values);
        assert(v.cache =~= t.cache.push(want));
    } else {
        assert(u.cache + Seq::<CacheRow>::empty() =~= u.cache);
    }
}

#[verifier::rlimit(50)]
proof fn lemma_cache_write(
    l: &Qwen3AttentionLayer,
    ctx: &ForwardContext,
    c: MultiSeqCtx,
    meta: AttnMetadataDev,
    env: &EnvVars,
    places: Places,
    u: Memory,
    q: spec_fn(int) -> spec_fn(int) -> Held,
    k: spec_fn(int) -> spec_fn(int) -> Held,
    w: spec_fn(int) -> spec_fn(int) -> Held,
)
    requires
        c.fits(ctx),
        c.laid_out(l.gated),
        c.meta_fits(meta),
        forall|i: int| 0 <= i < c.n ==> #[trigger] c.heads(u, i, q(i), k(i), w(i)),
    ensures
        ({
            &&& run(places, u, l.cache_write_cmds(ctx, env, c, meta)) matches Some(v)
            &&& v.at == u.at
            &&& v.cache =~= u.cache + Seq::new(
                c.n as nat,
                |i: int| cached(c, u.row(meta.slot, i, 8), k(i), w(i)),
            )
        }),
{
    let cmds = l.cache_write_cmds(ctx, env, c, meta);
    if c.n > 1 && !env.says("ATLAS_NO_ATTN_BATCH_CACHE_WRITE"@, "1"@) && c.per_seq_qkv % 2 == 0 {
        assert(cmds =~= seq![cmds[0]]);
        lemma_run_one(places, u, cmds[0]);
        lemma_after_cache_write(places, u, cmds[0]->Op_0);
        let v = after(places, u, cmds[0])->0;
        let (wd, b0, qb, kb) = (
            c.per_seq_qkv as int,
            c.qkv_buf.0 as int,
            c.q_proj_bytes as int,
            c.kv_bytes(),
        );
        lemma_block_at(c, ctx, l.gated, 0);
        assert(0 * wd == 0);
        assert(2 * (c.per_seq_qkv / 2) == wd);
        let rows = Seq::new(c.n as nat, |i: int| cached(c, u.row(meta.slot, i, 8), k(i), w(i)));
        assert forall|i: int| 0 <= i < c.n implies v.cache[u.cache.len() + i] == #[trigger] rows[i] by {
            assert(c.heads(u, i, q(i), k(i), w(i)));
            let row = v.cache[u.cache.len() + i];
            assert forall|e: int| 0 <= e < c.nkv implies row.keys[e] == rows[i].keys[e] by {
                assert(head(u, b0 + i * wd + qb, e, c.hd) == k(i)(e));
                assert(c.k_at(0).0 + i * wd + e * (2 * c.hd) == b0 + i * wd + qb + e * (2 * c.hd));
            }
            assert forall|e: int| 0 <= e < c.nkv implies row.values[e] == rows[i].values[e] by {
                assert(head(u, b0 + i * wd + qb + kb, e, c.hd) == w(i)(e));
                assert(c.v_at(0).0 + i * wd + e * (2 * c.hd) == b0 + i * wd + qb + kb + e * (2 * c.hd));
            }
            assert(row.keys =~= rows[i].keys);
            assert(row.values =~= rows[i].values);
        }
        assert(v.cache =~= u.cache + rows);
    } else {
        lemma_writes(l, ctx, c, meta, places, u, c.n as nat, q, k, w);
    }
}

impl Qwen3AttentionLayer {
    /// Query heads of sequence `i`: its own row's projection, normed, at its own position.
    pub open spec fn query_heads(
        &self,
        ctx: &ForwardContext,
        c: MultiSeqCtx,
        meta: AttnMetadataDev,
        m: Memory,
        i: int,
    ) -> spec_fn(int) -> Held {
        let row = self.query_of(c, m.row(c.normed, i, 2 * c.h));
        rotated_heads(
            self.rotation(ctx, c),
            m.row(meta.positions, i, 4),
            normed_heads(c, self.attn.q_norm, heads_of(row, c.hd)),
        )
    }

    /// Key heads of sequence `i`: its own row's projection and adapter, normed, at its own
    /// position.
    pub open spec fn key_heads(
        &self,
        ctx: &ForwardContext,
        c: MultiSeqCtx,
        meta: AttnMetadataDev,
        m: Memory,
        i: int,
    ) -> spec_fn(int) -> Held {
        let row = adapted(
            c,
            m,
            self.key_route(c),
            i,
            self.key_of(c, m.row(c.normed, i, 2 * c.h)),
        );
        rotated_heads(
            self.rotation(ctx, c),
            m.row(meta.positions, i, 4),
            normed_heads(c, self.attn.k_norm, heads_of(row, c.hd)),
        )
    }

    /// Value heads of sequence `i`: its own row's projection and adapter.
    pub open spec fn value_heads(&self, c: MultiSeqCtx, m: Memory, i: int) -> spec_fn(int) -> Held {
        heads_of(
            adapted(
                c,
                m,
                self.value_route(c),
                i,
                self.value_of(c, m.row(c.normed, i, 2 * c.h)),
            ),
            c.hd,
        )
    }

    /// Projections, adapters, head norms, rotation and cache write of a step.
    pub open spec fn caching_cmds(
        &self,
        ctx: &ForwardContext,
        env: &EnvVars,
        c: MultiSeqCtx,
        meta: AttnMetadataDev,
    ) -> Seq<Cmd> {
        self.projection_cmds(ctx, c) + self.kv_lora_cmds(ctx, c) + self.norms_cmds(c, c.n as nat)
            + self.rope_cmds(ctx, env, c, meta) + self.cache_write_cmds(ctx, env, c, meta)
    }
}

/// Whichever launches a step shares between its sequences, the cache grows by one row for
/// each sequence, in order: at the sequence's own slot, with the rotated keys and the
/// unrotated values that its own row projects to. The rotated queries stay in its block.
#[verifier::rlimit(50)]
pub proof fn law_cache_rows_are_each_sequences_own(
    l: &Qwen3AttentionLayer,
    ctx: &ForwardContext,
    env: &EnvVars,
    c: MultiSeqCtx,
    meta: AttnMetadataDev,
    places: Places,
    m: Memory,
)
    requires
        c.fits(ctx),
        c.meta_fits(meta),
        c.laid_out(l.gated),
        c.apart(ctx, meta),
        l.adapters_fit(c),
    ensures
        ({
            &&& run(places, m, l.caching_cmds(ctx, env, c, meta)) matches Some(v)
            &&& v.cache == m.cache + Seq::new(
                c.n as nat,
                |i: int|
                    CacheRow {
                        slot: m.row(meta.slot, i, 8),
                        keys: Seq::new(c.nkv as nat, |e: int| l.key_heads(ctx, c, meta, m, i)(e)),
                        values: Seq::new(c.nkv as nat, |e: int| l.value_heads(c, m, i)(e)),
                        block_size: c.bs,
                    },
            )
            &&& forall|i: int|
                0 <= i < c.n ==> #[trigger] c.heads(
                    v,
                    i,
                    l.query_heads(ctx, c, meta, m, i),
                    l.key_heads(ctx, c, meta, m, i),
                    l.value_heads(c, m, i),
                )
            &&& forall|a: int|
                outside_projections(c, ctx, a) && outside_adapters(c, ctx, a) ==> #[trigger] (v.at)(a) == (
                m.at)(a)
        }),
{
    let (h, hd, n) = (2 * c.h, c.hd, c.n as int);
    let by = l.rotation(ctx, c);
    let (s0, s1, s2, s3, s4) = (
        l.projection_cmds(ctx, c),
        l.kv_lora_cmds(ctx, c),
        l.norms_cmds(c, c.n as nat),
        l.rope_cmds(ctx, env, c, meta),
        l.cache_write_cmds(ctx, env, c, meta),
    );
    lemma_run_add(places, m, s0, s1);
    lemma_run_add(places, m, s0 + s1, s2);
    lemma_run_add(places, m, s0 + s1 + s2, s3);
    lemma_run_add(places, m, s0 + s1 + s2 + s3, s4);
    lemma_projection(l, ctx, c, meta, places, m);
    let m0 = run(places, m, s0)->0;
    let q0 = |i: int| l.query_of(c, m.row(c.normed, i, h));
    let k0 = |i: int| l.key_of(c, m.row(c.normed, i, h));
    let v0 = |i: int| l.value_of(c, m.row(c.normed, i, h));
    assert forall|i: int| 0 <= i < n implies #[trigger] c.block(m0, i, q0(i), k0(i), v0(i)) by {
        assert(l.projects(c, m, m0, i));
    }
    lemma_adapters(l, ctx, c, meta, places, m, m0, q0, k0, v0);
    let m1 = run(places, m0, s1)->0;
    let k1 = |i: int| adapted(c, m, l.key_route(c), i, k0(i));
    let v1 = |i: int| adapted(c, m, l.value_route(c), i, v0(i));
    let qh = |i: int| heads_of(q0(i), hd);
    let kh = |i: int| heads_of(k1(i), hd);
    let vh = |i: int| heads_of(v1(i), hd);
    assert forall|i: int| 0 <= i < n implies #[trigger] c.heads(m1, i, qh(i), kh(i), vh(i)) by {
        assert(c.block(
            m1,
            i,
            q0(i),
            adapted(c, m, l.key_route(c), i, k0(i)),
            adapted(c, m, l.value_route(c), i, v0(i)),
        ));
        lemma_block_heads(ctx, c, l.gated, m1, i, q0(i), k1(i), v1(i));
    }
    lemma_norms(l, ctx, c, places, m1, c.n as nat, qh, kh, vh);
    let m2 = run(places, m1, s2)->0;
    let qn = |i: int| normed_heads(c, l.attn.q_norm, qh(i));
    let kn = |i: int| normed_heads(c, l.attn.k_norm, kh(i));
    assert forall|i: int| 0 <= i < n implies #[trigger] c.heads(m2, i, qn(i), kn(i), vh(i)) by {
        assert(c.heads(
            m2,
            i,
            normed_heads(c, l.attn.q_norm, qh(i)),
            normed_heads(c, l.attn.k_norm, kh(i)),
            vh(i),
        ));
    }
    if l.shares_rotation(env, c) {
        lemma_shared_rope(l, ctx, c, meta, env, places, m2, qn, kn, vh);
    } else {
        lemma_ropes(l, ctx, c, meta, places, m2, c.n as nat, qn, kn, vh);
    }
    let m3 = run(places, m2, s3)->0;
    assert forall|i: int| 0 <= i < n implies #[trigger] m2.row(meta.positions, i, 4) == m.row(
        meta.positions,
        i,
        4,
    ) && m3.row(meta.slot, i, 8) == m.row(meta.slot, i, 8) by {
        lemma_areas(c, ctx, meta, 0, 4);
        lemma_areas(c, ctx, meta, 2, 4);
        lemma_areas(c, ctx, meta, 3, 4);
        lemma_areas(c, ctx, meta, 4, 7);
        lemma_areas(c, ctx, meta, 0, 5);
        lemma_areas(c, ctx, meta, 2, 5);
        lemma_areas(c, ctx, meta, 3, 5);
        lemma_areas(c, ctx, meta, 5, 7);
        let (a, b) = (meta.positions.0 + i * 4, meta.slot.0 + i * 8);
        assert(outside_projections(c, ctx, a) && outside_adapters(c, ctx, a));
        assert(outside_projections(c, ctx, b) && outside_adapters(c, ctx, b));
        assert((m0.at)(a) == (m.at)(a) && (m1.at)(a) == (m0.at)(a) && (m2.at)(a) == (m1.at)(a));
        assert((m0.at)(b) == (m.at)(b) && (m1.at)(b) == (m0.at)(b) && (m2.at)(b) == (m1.at)(b) && (m3.at)(b)
            == (m2.at)(b));
    }
    let qr = |i: int| l.query_heads(ctx, c, meta, m, i);
    let kr = |i: int| l.key_heads(ctx, c, meta, m, i);
    let vr = |i: int| l.value_heads(c, m, i);
    assert forall|i: int| 0 <= i < n implies #[trigger] c.heads(m3, i, qr(i), kr(i), vr(i)) by {
        let at = m2.row(meta.positions, i, 4);
        assert(c.heads(m3, i, rotated_heads(by, at, qn(i)), rotated_heads(by, at, kn(i)), vh(i)));
    }
    lemma_cache_write(l, ctx, c, meta, env, places, m3, qr, kr, vr);
    let v = run(places, m3, s4)->0;
    assert forall|i: int| 0 <= i < n implies #[trigger] c.heads(
        v,
        i,
        l.query_heads(ctx, c, meta, m, i),
        l.key_heads(ctx, c, meta, m, i),
        l.value_heads(c, m, i),
    ) by {
        assert(c.heads(m3, i, qr(i), kr(i), vr(i)));
        lemma_heads_stay(ctx, c, l.gated, m3, v, i, qr(i), kr(i), vr(i));
    }
    assert forall|a: int|
        outside_projections(c, ctx, a) && outside_adapters(c, ctx, a) implies #[trigger] (v.at)(a) == (
    m.at)(a) by {
        assert((m1.at)(a) == (m0.at)(a) && (m2.at)(a) == (m1.at)(a) && (m3.at)(a) == (m2.at)(a));
    }
    let want = Seq::new(
        c.n as nat,
        |i: int|
            CacheRow {
                slot: m.row(meta.slot, i, 8),
                keys: Seq::new(c.nkv as nat, |e: int| l.key_heads(ctx, c, meta, m, i)(e)),
                values: Seq::new(c.nkv as nat, |e: int| l.value_heads(c, m, i)(e)),
                block_size: c.bs,
            },
    );
    let have = Seq::new(c.n as nat, |i: int| cached(c, m3.row(meta.slot, i, 8), kr(i), vr(i)));
    assert forall|i: int| 0 <= i < n implies have[i] == want[i] by {
        assert(m2.row(meta.positions, i, 4) == m.row(meta.positions, i, 4));
        assert(have[i].keys =~= want[i].keys);
        assert(have[i].values =~= want[i].values);
    }
    assert(have =~= want);
}

} // verus!
