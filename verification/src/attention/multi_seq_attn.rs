//! Rotary embedding, cache write, attention and output projection of many
//! sequences in decode.
//!
//! Sequences share one launch wherever a kernel takes row strides. Each of these
//! launches can be switched off in the environment.
use crate::attention::layer::{as_fp8, as_packed_q2, fp8_of, q2_of, HeadGateActivation, Qwen3AttentionLayer};
use crate::attention::multi_seq_qkv::MultiSeqCtx;
use crate::context::ForwardContext;
use crate::device::{Cmd, CommandBuffer, DevicePtr, Dim3, KernelArg, KernelHandle, KernelLaunch, Launch, Scalar};
use crate::env::EnvVars;
use crate::ops_table::{DeviceOp, MatmulKind, WeightRef};
use crate::text::{is_true_text, same_text, spells_true};
use vstd::prelude::*;

verus! {

/// Device arrays that describe the sequences of one step.
#[derive(Debug, Clone, Copy, PartialEq, Eq, Structural)]
pub struct AttnMetadataDev {
    /// One 32-bit position per sequence.
    pub positions: DevicePtr,
    /// One 64-bit cache slot per sequence.
    pub slot: DevicePtr,
    pub block_table: DevicePtr,
    pub seq_len: DevicePtr,
    pub max_blocks_per_seq: u32,
}

impl MultiSeqCtx {
    /// Arrays of `n` sequences lie inside the address space.
    pub open spec fn meta_fits(self, m: AttnMetadataDev) -> bool {
        &&& m.positions.holds(self.n as int, 1, 4)
        &&& m.slot.holds(self.n as int, 1, 8)
    }

    /// Attention results and projected rows lie inside the address space.
    pub open spec fn out_fits(self, ctx: &ForwardContext, attn_out: DevicePtr) -> bool {
        &&& ctx.buffers.ssm_qkvz.holds(self.n as int, self.q_dim as int, 2)
        &&& attn_out.holds(self.n as int, self.q_dim as int, 2)
        &&& ctx.buffers.moe_output.holds(self.n as int, self.h as int, 2)
    }
}

/// The environment says that weights were rotated when they were loaded.
pub open spec fn weights_pre_rotated(env: &EnvVars) -> bool {
    match env.value("TQ_PLUS_WEIGHT_ROTATION"@) {
        Some(v) => v == "1"@ || spells_true(vstd::utf8::encode_utf8(v)),
        None => false,
    }
}

fn are_weights_pre_rotated(env: &EnvVars) -> (r: bool)
    ensures
        r == weights_pre_rotated(env),
{
    match env.get("TQ_PLUS_WEIGHT_ROTATION") {
        Some(s) => same_text(s, "1") || is_true_text(s),
        None => false,
    }
}

/// A launch of one warp for each of `blocks` heads at `ptr`, in place.
pub open spec fn head_launch(kernel: KernelHandle, blocks: u32, ptr: DevicePtr, hd: u32) -> Launch {
    Launch {
        kernel,
        grid: Dim3 { x: blocks, y: 1, z: 1 },
        block: Dim3 { x: 32, y: 1, z: 1 },
        shared_mem: 0,
        args: seq![KernelArg::Ptr(ptr), KernelArg::U32(hd)],
    }
}

/// Records the launch that [`head_launch`] describes.
fn head(cb: &mut CommandBuffer, kernel: KernelHandle, blocks: u32, ptr: DevicePtr, hd: u32)
    ensures
        final(cb)@ == old(cb)@.push(Cmd::Launch(head_launch(kernel, blocks, ptr, hd))),
{
    let launch = KernelLaunch {
        kernel,
        grid: Dim3 { x: blocks, y: 1, z: 1 },
        block: Dim3 { x: 32, y: 1, z: 1 },
        shared_mem: 0,
        args: vec![KernelArg::Ptr(ptr), KernelArg::U32(hd)],
    };
    assert(launch@ =~= head_launch(kernel, blocks, ptr, hd));
    cb.launch(launch);
}

impl Qwen3AttentionLayer {
    /// Rotated values of each head.
    pub open spec fn rotary_dim(&self, ctx: &ForwardContext) -> u32 {
        match self.rotary_dim_override {
            Some(d) => d,
            None => ctx.config.rotary_dim as u32,
        }
    }

    pub open spec fn theta(&self, ctx: &ForwardContext) -> Scalar {
        match self.rope_theta_override {
            Some(t) => t,
            None => ctx.config.rope_theta,
        }
    }

    fn rotary_dim_of(&self, ctx: &ForwardContext) -> (r: u32)
        ensures
            r == self.rotary_dim(ctx),
    {
        match self.rotary_dim_override {
            Some(d) => d,
            None => ctx.config.rotary_dim as u32,
        }
    }

    fn theta_of(&self, ctx: &ForwardContext) -> (r: Scalar)
        ensures
            r == self.theta(ctx),
    {
        match self.rope_theta_override {
            Some(t) => t,
            None => ctx.config.rope_theta,
        }
    }

    /// Rotary embedding of sequence `i`.
    pub open spec fn rope_of_cmds(&self, ctx: &ForwardContext, c: MultiSeqCtx,
        meta: AttnMetadataDev, i: int) -> Seq<Cmd> {
        let q = c.q_at(i);
        let k = c.k_at(i);
        let pos = meta.positions.row_at(i, 1, 4);
        let dim = self.rotary_dim(ctx);
        (if self.yarn_inv_freq.0 == 0 {
            seq![
                Cmd::Op(DeviceOp::Rope { kernel: self.kernels.rope, q: q, k: k, positions: pos,
                    rows: 1, nq: c.nq, nkv: c.nkv, hd: c.hd, rotary_dim: dim,
                    theta: self.theta(ctx) }),
            ]
        } else {
            seq![
                Cmd::Op(DeviceOp::RopeYarnScaled { kernel: self.kernels.rope_yarn_scaled, q: q,
                    k: k, positions: pos, rows: 1, nq: c.nq, nkv: c.nkv, hd: c.hd, rotary_dim: dim,
                    inv_freq: self.yarn_inv_freq, attention_factor: self.yarn_attention_factor }),
            ]
        })
    }

    fn record_rope_of(&self, cb: &mut CommandBuffer, ctx: &ForwardContext, c: &MultiSeqCtx,
        meta: AttnMetadataDev, i: usize)
        requires
            c.fits(ctx),
            c.meta_fits(meta),
            i < c.n,
        ensures
            final(cb)@ == old(cb)@ + self.rope_of_cmds(ctx, *c, meta, i as int),
    {
        let ghost before = cb@;
        let q: DevicePtr = c.q_row(i, ctx);
        let k: DevicePtr = c.k_row(i, ctx);
        let pos: DevicePtr = meta.positions.row(i, c.n, 1, 4);
        let dim: u32 = self.rotary_dim_of(ctx);
        if self.yarn_inv_freq.is_null() {
            cb.op(DeviceOp::Rope { kernel: self.kernels.rope, q: q, k: k, positions: pos, rows: 1,
                nq: c.nq, nkv: c.nkv, hd: c.hd, rotary_dim: dim, theta: self.theta_of(ctx) });
        } else {
            cb.op(DeviceOp::RopeYarnScaled { kernel: self.kernels.rope_yarn_scaled, q: q, k: k,
                positions: pos, rows: 1, nq: c.nq, nkv: c.nkv, hd: c.hd, rotary_dim: dim,
                inv_freq: self.yarn_inv_freq, attention_factor: self.yarn_attention_factor });
        }
        assert(cb@ =~= before + self.rope_of_cmds(ctx, *c, meta, i as int));
    }

    /// Rotary embedding of the first `n` sequences, one by one.
    pub open spec fn ropes_cmds(&self, ctx: &ForwardContext, c: MultiSeqCtx, meta: AttnMetadataDev,
        n: nat) -> Seq<Cmd>
        decreases n,
    {
        if n == 0 {
            Seq::empty()
        } else {
            self.ropes_cmds(ctx, c, meta, (n - 1) as nat) + self.rope_of_cmds(ctx, c, meta, (n - 1))
        }
    }

    fn record_ropes(&self, cb: &mut CommandBuffer, ctx: &ForwardContext, c: &MultiSeqCtx,
        meta: AttnMetadataDev)
        requires
            c.fits(ctx),
            c.meta_fits(meta),
        ensures
            final(cb)@ == old(cb)@ + self.ropes_cmds(ctx, *c, meta, c.n as nat),
    {
        let ghost before = cb@;
        let mut i: usize = 0;
        assert(cb@ =~= before + self.ropes_cmds(ctx, *c, meta, 0));
        while i < c.n
            invariant
                i <= c.n,
                c.fits(ctx),
                c.meta_fits(meta),
                cb@ == before + self.ropes_cmds(ctx, *c, meta, i as nat),
            decreases c.n - i,
        {
            self.record_rope_of(cb, ctx, c, meta, i);
            i = i + 1;
            assert(cb@ =~= before + self.ropes_cmds(ctx, *c, meta, i as nat));
        }
    }

    /// All sequences are rotated in one launch. It knows no scaled frequencies, so
    /// a layer with any takes the kernel for one sequence.
    pub open spec fn shares_rotation(&self, env: &EnvVars, c: MultiSeqCtx) -> bool {
        c.n > 1 && self.kernels.rope_strided.present() && self.yarn_inv_freq.0 == 0
            && !env.says("ATLAS_NO_ROPE_STRIDED"@, "1"@)
    }

    /// Rotary embedding of all sequences, in one launch where blocks can be strided over.
    pub open spec fn rope_cmds(&self, ctx: &ForwardContext, env: &EnvVars, c: MultiSeqCtx,
        meta: AttnMetadataDev) -> Seq<Cmd> {
        (if self.shares_rotation(env, c) {
            seq![
                Cmd::Op(DeviceOp::RopeStrided { kernel: self.kernels.rope_strided, q: c.qkv_buf,
                    k: c.k_at(0), positions: meta.positions, rows: c.n as u32, nq: c.nq,
                    nkv: c.nkv, hd: c.hd, rotary_dim: self.rotary_dim(ctx), theta: self.theta(ctx),
                    q_stride: (c.per_seq_qkv / 2) as u32, k_stride: (c.per_seq_qkv / 2) as u32 }),
            ]
        } else {
            self.ropes_cmds(ctx, c, meta, c.n as nat)
        })
    }

    /// Records the rotary embedding of all sequences, each at its own position.
    pub fn ms_phase_rope(&self, cb: &mut CommandBuffer, ctx: &ForwardContext, env: &EnvVars,
        c: &MultiSeqCtx, meta: AttnMetadataDev)
        requires
            c.fits(ctx),
            c.meta_fits(meta),
        ensures
            final(cb)@ == old(cb)@ + self.rope_cmds(ctx, env, *c, meta),
    {
        let ghost before = cb@;
        if c.n > 1 && self.kernels.rope_strided.is_present() && self.yarn_inv_freq.is_null()
            && !env.is("ATLAS_NO_ROPE_STRIDED", "1") {
            cb.op(DeviceOp::RopeStrided { kernel: self.kernels.rope_strided, q: c.qkv_buf,
                k: c.first_k(ctx), positions: meta.positions, rows: c.n as u32, nq: c.nq,
                nkv: c.nkv, hd: c.hd, rotary_dim: self.rotary_dim_of(ctx),
                theta: self.theta_of(ctx), q_stride: (c.per_seq_qkv / 2) as u32,
                k_stride: (c.per_seq_qkv / 2) as u32 });
        } else {
            self.record_ropes(cb, ctx, c, meta);
        }
        assert(cb@ =~= before + self.rope_cmds(ctx, env, *c, meta));
    }

    /// Cache write of sequence `i`.
    pub open spec fn write_of_cmds(&self, ctx: &ForwardContext, c: MultiSeqCtx,
        meta: AttnMetadataDev, i: int) -> Seq<Cmd> {
        let k = c.k_at(i);
        let v = c.v_at(i);
        let slot = meta.slot.row_at(i, 1, 8);
        let stride = c.kv_dim() as u32;
        seq![
            Cmd::Op(DeviceOp::KvCacheWrite { k: k, v: v, slots: slot, rows: 1, nkv: c.nkv,
                hd: c.hd, block_size: c.bs, k_stride: stride, v_stride: stride,
                graph_capture: ctx.graph_capture }),
        ]
    }

    fn record_write_of(&self, cb: &mut CommandBuffer, ctx: &ForwardContext, c: &MultiSeqCtx,
        meta: AttnMetadataDev, i: usize)
        requires
            c.fits(ctx),
            c.meta_fits(meta),
            i < c.n,
        ensures
            final(cb)@ == old(cb)@ + self.write_of_cmds(ctx, *c, meta, i as int),
    {
        let ghost before = cb@;
        let k: DevicePtr = c.k_row(i, ctx);
        let v: DevicePtr = c.v_row(i, ctx);
        let slot: DevicePtr = meta.slot.row(i, c.n, 1, 8);
        let stride: u32 = c.nkv * c.hd;
        cb.op(DeviceOp::KvCacheWrite { k: k, v: v, slots: slot, rows: 1, nkv: c.nkv, hd: c.hd,
            block_size: c.bs, k_stride: stride, v_stride: stride,
            graph_capture: ctx.graph_capture });
        assert(cb@ =~= before + self.write_of_cmds(ctx, *c, meta, i as int));
    }

    /// Cache writes of the first `n` sequences, one by one.
    pub open spec fn writes_cmds(&self, ctx: &ForwardContext, c: MultiSeqCtx,
        meta: AttnMetadataDev, n: nat) -> Seq<Cmd>
        decreases n,
    {
        if n == 0 {
            Seq::empty()
        } else {
            self.writes_cmds(ctx, c, meta, (n - 1) as nat) + self.write_of_cmds(ctx, c, meta,
                (n - 1))
        }
    }

    fn record_writes(&self, cb: &mut CommandBuffer, ctx: &ForwardContext, c: &MultiSeqCtx,
        meta: AttnMetadataDev)
        requires
            c.fits(ctx),
            c.meta_fits(meta),
        ensures
            final(cb)@ == old(cb)@ + self.writes_cmds(ctx, *c, meta, c.n as nat),
    {
        let ghost before = cb@;
        let mut i: usize = 0;
        assert(cb@ =~= before + self.writes_cmds(ctx, *c, meta, 0));
        while i < c.n
            invariant
                i <= c.n,
                c.fits(ctx),
                c.meta_fits(meta),
                cb@ == before + self.writes_cmds(ctx, *c, meta, i as nat),
            decreases c.n - i,
        {
            self.record_write_of(cb, ctx, c, meta, i);
            i = i + 1;
            assert(cb@ =~= before + self.writes_cmds(ctx, *c, meta, i as nat));
        }
    }

    /// Cache write of all sequences, in one launch where blocks are whole values apart.
    pub open spec fn cache_write_cmds(&self, ctx: &ForwardContext, env: &EnvVars, c: MultiSeqCtx,
        meta: AttnMetadataDev) -> Seq<Cmd> {
        (if c.n > 1 && !env.says("ATLAS_NO_ATTN_BATCH_CACHE_WRITE"@,
            "1"@) && c.per_seq_qkv % 2 == 0 {
            seq![
                Cmd::Op(DeviceOp::KvCacheWrite { k: c.k_at(0), v: c.v_at(0), slots: meta.slot,
                    rows: c.n as u32, nkv: c.nkv, hd: c.hd, block_size: c.bs,
                    k_stride: (c.per_seq_qkv / 2) as u32, v_stride: (c.per_seq_qkv / 2) as u32,
                    graph_capture: ctx.graph_capture }),
            ]
        } else {
            self.writes_cmds(ctx, c, meta, c.n as nat)
        })
    }

    /// Records the cache write of all sequences' keys and values.
    pub fn ms_phase_cache_write(&self, cb: &mut CommandBuffer, ctx: &ForwardContext, env: &EnvVars,
        c: &MultiSeqCtx, meta: AttnMetadataDev)
        requires
            c.fits(ctx),
            c.meta_fits(meta),
        ensures
            final(cb)@ == old(cb)@ + self.cache_write_cmds(ctx, env, *c, meta),
    {
        let ghost before = cb@;
        if c.n > 1 && !env.is("ATLAS_NO_ATTN_BATCH_CACHE_WRITE", "1") && c.per_seq_qkv % 2 == 0 {
            cb.op(DeviceOp::KvCacheWrite { k: c.first_k(ctx), v: c.first_v(ctx),
                slots: meta.slot, rows: c.n as u32, nkv: c.nkv, hd: c.hd, block_size: c.bs,
                k_stride: (c.per_seq_qkv / 2) as u32, v_stride: (c.per_seq_qkv / 2) as u32,
                graph_capture: ctx.graph_capture });
        } else {
            self.record_writes(cb, ctx, c, meta);
        }
        assert(cb@ =~= before + self.cache_write_cmds(ctx, env, *c, meta));
    }

    /// Copy of the query of sequence `i` to packed rows.
    pub open spec fn stage_of_cmds(&self, ctx: &ForwardContext, c: MultiSeqCtx,
        i: int) -> Seq<Cmd> {
        let q = c.q_at(i);
        let dst = ctx.buffers.ssm_qkvz.row_at(i, c.q_dim as int, 2);
        seq![
            Cmd::Op(DeviceOp::CopyD2D { src: q, dst: dst, bytes: (c.q_dim * 2) as usize }),
        ]
    }

    fn record_stage_of(&self, cb: &mut CommandBuffer, ctx: &ForwardContext, c: &MultiSeqCtx,
        attn_out: DevicePtr, i: usize)
        requires
            c.fits(ctx),
            c.out_fits(ctx, attn_out),
            i < c.n,
        ensures
            final(cb)@ == old(cb)@ + self.stage_of_cmds(ctx, *c, i as int),
    {
        let ghost before = cb@;
        let q: DevicePtr = c.q_row(i, ctx);
        let dst: DevicePtr = ctx.buffers.ssm_qkvz.row(i, c.n, c.q_dim as usize, 2);
        cb.op(DeviceOp::CopyD2D { src: q, dst: dst, bytes: c.q_dim as usize * 2 });
        assert(cb@ =~= before + self.stage_of_cmds(ctx, *c, i as int));
    }

    /// Copies of the queries of the first `n` sequences to packed rows.
    pub open spec fn stages_cmds(&self, ctx: &ForwardContext, c: MultiSeqCtx, n: nat) -> Seq<Cmd>
        decreases n,
    {
        if n == 0 {
            Seq::empty()
        } else {
            self.stages_cmds(ctx, c, (n - 1) as nat) + self.stage_of_cmds(ctx, c, (n - 1))
        }
    }

    fn record_stages(&self, cb: &mut CommandBuffer, ctx: &ForwardContext, c: &MultiSeqCtx,
        attn_out: DevicePtr)
        requires
            c.fits(ctx),
            c.out_fits(ctx, attn_out),
        ensures
            final(cb)@ == old(cb)@ + self.stages_cmds(ctx, *c, c.n as nat),
    {
        let ghost before = cb@;
        let mut i: usize = 0;
        assert(cb@ =~= before + self.stages_cmds(ctx, *c, 0));
        while i < c.n
            invariant
                i <= c.n,
                c.fits(ctx),
                c.out_fits(ctx, attn_out),
                cb@ == before + self.stages_cmds(ctx, *c, i as nat),
            decreases c.n - i,
        {
            self.record_stage_of(cb, ctx, c, attn_out, i);
            i = i + 1;
            assert(cb@ =~= before + self.stages_cmds(ctx, *c, i as nat));
        }
    }

    /// Queries are read where they lie. Not where the cache is rotated: rotation
    /// changes them in place, and blocks must stay as they are.
    pub open spec fn q_inplace(&self, env: &EnvVars, c: MultiSeqCtx) -> bool {
        !self.k_is_turbo && !self.v_is_turbo && !env.says("ATLAS_NO_ATTN_Q_INPLACE"@, "1"@)
            && c.per_seq_qkv % 2 == 0
    }

    fn is_q_inplace(&self, env: &EnvVars, c: &MultiSeqCtx) -> (r: bool)
        ensures
            r == self.q_inplace(env, *c),
    {
        !self.k_is_turbo && !self.v_is_turbo && !env.is("ATLAS_NO_ATTN_Q_INPLACE", "1")
            && c.per_seq_qkv % 2 == 0
    }

    /// Heads are rotated at run time.
    pub open spec fn rotates(&self, env: &EnvVars, c: MultiSeqCtx) -> bool {
        !weights_pre_rotated(env) && (c.hd == 128 || c.hd == 256 || c.hd == 512)
    }

    /// Queries are packed unless they are read in place, rotated like the cached keys,
    /// and results are rotated back like the cached values.
    pub open spec fn paged_decode_cmds(&self, ctx: &ForwardContext, env: &EnvVars, c: MultiSeqCtx,
        meta: AttnMetadataDev) -> Seq<Cmd> {
        let k = self.kernels;
        let inplace = self.q_inplace(env, c);
        let q = if inplace { c.qkv_buf } else { ctx.buffers.ssm_qkvz };
        let q_stride = if inplace { (c.per_seq_qkv / 2) as u32 } else { (c.nq * c.hd) as u32 };
        let out = ctx.buffers.attn_output;
        let rotate = self.rotates(env, c);
        let heads = (c.n * c.nq) as u32;
        (if !inplace {
            self.stages_cmds(ctx, c, c.n as nat)
        } else {
            Seq::empty()
        }) + (if self.k_is_turbo && k.innerq_apply_q.present() && c.hd == 128 {
            seq![
                Cmd::Launch(crate::attention::multi_seq_attn::head_launch(k.innerq_apply_q, heads,
                    q, c.hd)),
            ]
        } else {
            Seq::empty()
        }) + (if self.k_is_turbo && rotate && k.wht_bf16.present() {
            seq![
                Cmd::Launch(crate::attention::multi_seq_attn::head_launch(k.wht_bf16, heads, q,
                    c.hd)),
            ]
        } else {
            Seq::empty()
        }) + seq![
            Cmd::Op(DeviceOp::PagedDecode { q: q, output: out, block_table: meta.block_table,
                seq_len: meta.seq_len, max_blocks_per_seq: meta.max_blocks_per_seq,
                rows: c.n as u32, nq: c.nq, nkv: c.nkv, hd: c.hd, block_size: c.bs,
                scale: c.attn_scale, q_stride: q_stride, workspace: ctx.buffers.splitk_workspace,
                max_decode_seqs: ctx.max_decode_seqs }),
        ] + (if self.v_is_turbo && rotate && k.wht_bf16_inv.present() {
            seq![
                Cmd::Launch(crate::attention::multi_seq_attn::head_launch(k.wht_bf16_inv, heads,
                    out, c.hd)),
            ]
        } else {
            Seq::empty()
        })
    }

    #[verifier::rlimit(60)]
    fn record_paged_decode(&self, cb: &mut CommandBuffer, ctx: &ForwardContext, env: &EnvVars,
        c: &MultiSeqCtx, meta: AttnMetadataDev)
        requires
            c.fits(ctx),
            c.out_fits(ctx, ctx.buffers.attn_output),
        ensures
            final(cb)@ == old(cb)@ + self.paged_decode_cmds(ctx, env, *c, meta),
    {
        let ghost before = cb@;
        let k: crate::attention::layer::AttnKernels = self.kernels;
        let inplace: bool = self.is_q_inplace(env, c);
        let q: DevicePtr = if inplace { c.qkv_buf } else { ctx.buffers.ssm_qkvz };
        let q_stride: u32 = if inplace { (c.per_seq_qkv / 2) as u32 } else { c.nq * c.hd };
        let out: DevicePtr = ctx.buffers.attn_output;
        let rotate: bool = !are_weights_pre_rotated(env) && (c.hd == 128 || c.hd == 256 || c.hd == 512);
        let heads: u32 = c.n as u32 * c.nq;
        if !inplace {
            self.record_stages(cb, ctx, c, ctx.buffers.attn_output);
        }
        if self.k_is_turbo && k.innerq_apply_q.is_present() && c.hd == 128 {
            crate::attention::multi_seq_attn::head(cb, k.innerq_apply_q, heads, q, c.hd);
        }
        if self.k_is_turbo && rotate && k.wht_bf16.is_present() {
            crate::attention::multi_seq_attn::head(cb, k.wht_bf16, heads, q, c.hd);
        }
        cb.op(DeviceOp::PagedDecode { q: q, output: out, block_table: meta.block_table,
            seq_len: meta.seq_len, max_blocks_per_seq: meta.max_blocks_per_seq, rows: c.n as u32,
            nq: c.nq, nkv: c.nkv, hd: c.hd, block_size: c.bs, scale: c.attn_scale,
            q_stride: q_stride, workspace: ctx.buffers.splitk_workspace,
            max_decode_seqs: ctx.max_decode_seqs });
        if self.v_is_turbo && rotate && k.wht_bf16_inv.is_present() {
            crate::attention::multi_seq_attn::head(cb, k.wht_bf16_inv, heads, out, c.hd);
        }
        assert(cb@ =~= before + self.paged_decode_cmds(ctx, env, *c, meta));
    }

    /// Records the attention of all sequences and gives where its results lie.
    pub fn ms_phase_paged_decode(
        &self,
        cb: &mut CommandBuffer,
        ctx: &ForwardContext,
        env: &EnvVars,
        c: &MultiSeqCtx,
        meta: AttnMetadataDev,
    ) -> (r: DevicePtr)
        requires
            c.fits(ctx),
            c.out_fits(ctx, ctx.buffers.attn_output),
        ensures
            r == ctx.buffers.attn_output,
            final(cb)@ == old(cb)@ + self.paged_decode_cmds(ctx, env, *c, meta),
    {
        self.record_paged_decode(cb, ctx, env, c, meta);
        ctx.buffers.attn_output
    }

    /// Gates of values and of heads. Gates of heads are projected into the query blocks,
    /// which nothing reads any more.
    pub open spec fn gates_cmds(&self, c: MultiSeqCtx, attn_out: DevicePtr) -> Seq<Cmd> {
        let k = self.kernels;
        let gate = c.qkv_buf;
        (if self.gated {
            seq![
                Cmd::Op(DeviceOp::SigmoidGateMul { kernel: k.sigmoid_gate_mul_batched,
                    input: attn_out, gate: c.qkv_buf.at(c.q_dim * 2), output: attn_out,
                    dim: c.q_dim, gate_stride: (c.per_seq_qkv / 2) as u32, rows: c.n as u32 }),
            ]
        } else {
            Seq::empty()
        }) + (match self.head_gate_weight {
            Some(w) => {
                (if k.dense_gemv_batchm.present() && c.bf16_batchm {
                    seq![
                        Cmd::Op(DeviceOp::DenseGemvBatchM { kernel: k.dense_gemv_batchm,
                            input: c.normed, weight: w, output: gate, m: c.n as u32, n: c.nq,
                            k: c.h as u32, out_stride: c.nq }),
                    ]
                } else {
                    seq![
                        Cmd::Op(DeviceOp::Matmul { kind: MatmulKind::DenseGemmTc,
                            kernel: k.dense_gemm_tc, input: c.normed, weight: WeightRef::Dense(w),
                            output: gate, m: c.n as u32, n: c.nq, k: c.h as u32 }),
                    ]
                }) + (match self.head_gate_activation {
                    HeadGateActivation::Sigmoid => {
                        seq![
                            Cmd::Op(DeviceOp::HeadGateMul { kernel: k.sigmoid_gate_head_broadcast,
                                activation: HeadGateActivation::Sigmoid, input: attn_out,
                                gate: gate, output: attn_out, nq: c.nq, hd: c.hd,
                                rows: c.n as u32 }),
                        ]
                    },
                    HeadGateActivation::Softplus => {
                        seq![
                            Cmd::Op(DeviceOp::HeadGateMul { kernel: k.softplus_gate_head_broadcast,
                                activation: HeadGateActivation::Softplus, input: attn_out,
                                gate: gate, output: attn_out, nq: c.nq, hd: c.hd,
                                rows: c.n as u32 }),
                        ]
                    },
                })
            },
            None => {
                Seq::empty()
            },
        })
    }

    fn record_gates(&self, cb: &mut CommandBuffer, ctx: &ForwardContext, c: &MultiSeqCtx,
        attn_out: DevicePtr)
        requires
            c.fits(ctx),
        ensures
            final(cb)@ == old(cb)@ + self.gates_cmds(*c, attn_out),
    {
        let ghost before = cb@;
        let k: crate::attention::layer::AttnKernels = self.kernels;
        let gate: DevicePtr = c.qkv_buf;
        if self.gated {
            cb.op(DeviceOp::SigmoidGateMul { kernel: k.sigmoid_gate_mul_batched, input: attn_out,
                gate: c.qkv_buf.offset(c.q_dim as usize * 2), output: attn_out,
                dim: c.q_dim, gate_stride: (c.per_seq_qkv / 2) as u32, rows: c.n as u32 });
        }
        match self.head_gate_weight {
            Some(w) => {
                if k.dense_gemv_batchm.is_present() && c.bf16_batchm {
                    cb.op(DeviceOp::DenseGemvBatchM { kernel: k.dense_gemv_batchm, input: c.normed,
                        weight: w, output: gate, m: c.n as u32, n: c.nq, k: c.h as u32,
                        out_stride: c.nq });
                } else {
                    cb.op(DeviceOp::Matmul { kind: MatmulKind::DenseGemmTc,
                        kernel: k.dense_gemm_tc, input: c.normed, weight: WeightRef::Dense(w),
                        output: gate, m: c.n as u32, n: c.nq, k: c.h as u32 });
                }
                match self.head_gate_activation {
                    HeadGateActivation::Sigmoid => {
                        cb.op(DeviceOp::HeadGateMul { kernel: k.sigmoid_gate_head_broadcast,
                            activation: HeadGateActivation::Sigmoid, input: attn_out, gate: gate,
                            output: attn_out, nq: c.nq, hd: c.hd, rows: c.n as u32 });
                    },
                    HeadGateActivation::Softplus => {
                        cb.op(DeviceOp::HeadGateMul { kernel: k.softplus_gate_head_broadcast,
                            activation: HeadGateActivation::Softplus, input: attn_out, gate: gate,
                            output: attn_out, nq: c.nq, hd: c.hd, rows: c.n as u32 });
                    },
                }
            },
            None => {
            },
        }
        assert(cb@ =~= before + self.gates_cmds(*c, attn_out));
    }

    /// Output projection of row `i` on its own. Only two-bit, eight-bit and absent
    /// weights are projected row by row.
    pub open spec fn o_row_cmd(
        &self,
        ctx: &ForwardContext,
        c: MultiSeqCtx,
        attn_out: DevicePtr,
        i: int,
    ) -> Cmd {
        let x = attn_out.row_at(i, c.q_dim as int, 2);
        let y = ctx.buffers.moe_output.row_at(i, c.h as int, 2);
        let k = (c.nq * c.hd) as u32;
        match q2_of(self.o_weight) {
            Some(q2) => Cmd::Op(
                DeviceOp::Q2Gemv { kernel: self.kernels.q2_0_gemv, input: x, weight: q2, output: y },
            ),
            None => match fp8_of(self.o_weight) {
                Some(f) => Cmd::Op(
                    DeviceOp::Matmul {
                        kind: MatmulKind::W8a16Gemv,
                        kernel: self.kernels.w8a16_gemv,
                        input: x,
                        weight: WeightRef::Fp8(f),
                        output: y,
                        m: 1,
                        n: c.h as u32,
                        k,
                    },
                ),
                None => Cmd::Op(
                    DeviceOp::Matmul {
                        kind: MatmulKind::W4a16Gemv,
                        kernel: self.kernels.w4a16_gemv,
                        input: x,
                        weight: WeightRef::Quantized(self.attn.o_proj),
                        output: y,
                        m: 1,
                        n: c.h as u32,
                        k,
                    },
                ),
            },
        }
    }

    fn record_o_row(
        &self,
        cb: &mut CommandBuffer,
        ctx: &ForwardContext,
        c: &MultiSeqCtx,
        attn_out: DevicePtr,
        i: usize,
    )
        requires
            c.fits(ctx),
            c.out_fits(ctx, attn_out),
            i < c.n,
        ensures
            final(cb)@ == old(cb)@ + seq![self.o_row_cmd(ctx, *c, attn_out, i as int)],
    {
        let ghost before = cb@;
        let x: DevicePtr = attn_out.row(i, c.n, c.q_dim as usize, 2);
        let y: DevicePtr = ctx.buffers.moe_output.row(i, c.n, c.h, 2);
        let k: u32 = c.nq * c.hd;
        match as_packed_q2(&self.o_weight) {
            Some(q2) => {
                cb.op(
                    DeviceOp::Q2Gemv {
                        kernel: self.kernels.q2_0_gemv,
                        input: x,
                        weight: q2,
                        output: y,
                    },
                );
            },
            None => match as_fp8(&self.o_weight) {
                Some(f) => {
                    cb.op(
                        DeviceOp::Matmul {
                            kind: MatmulKind::W8a16Gemv,
                            kernel: self.kernels.w8a16_gemv,
                            input: x,
                            weight: WeightRef::Fp8(f),
                            output: y,
                            m: 1,
                            n: c.h as u32,
                            k,
                        },
                    );
                },
                None => {
                    cb.op(
                        DeviceOp::Matmul {
                            kind: MatmulKind::W4a16Gemv,
                            kernel: self.kernels.w4a16_gemv,
                            input: x,
                            weight: WeightRef::Quantized(self.attn.o_proj),
                            output: y,
                            m: 1,
                            n: c.h as u32,
                            k,
                        },
                    );
                },
            },
        }
        assert(cb@ =~= before + seq![self.o_row_cmd(ctx, *c, attn_out, i as int)]);
    }

    /// Output projections of the first `n` rows, one by one.
    pub open spec fn o_rows_cmds(&self, ctx: &ForwardContext, c: MultiSeqCtx, attn_out: DevicePtr,
        n: nat) -> Seq<Cmd>
        decreases n,
    {
        if n == 0 {
            Seq::empty()
        } else {
            self.o_rows_cmds(ctx, c, attn_out, (n - 1) as nat) + seq![self.o_row_cmd(ctx, c,
                attn_out, (n - 1))]
        }
    }

    fn record_o_rows(&self, cb: &mut CommandBuffer, ctx: &ForwardContext, c: &MultiSeqCtx,
        attn_out: DevicePtr)
        requires
            c.fits(ctx),
            c.out_fits(ctx, attn_out),
        ensures
            final(cb)@ == old(cb)@ + self.o_rows_cmds(ctx, *c, attn_out, c.n as nat),
    {
        let ghost before = cb@;
        let mut i: usize = 0;
        assert(cb@ =~= before + self.o_rows_cmds(ctx, *c, attn_out, 0));
        while i < c.n
            invariant
                i <= c.n,
                c.fits(ctx),
                c.out_fits(ctx, attn_out),
                cb@ == before + self.o_rows_cmds(ctx, *c, attn_out, i as nat),
            decreases c.n - i,
        {
            self.record_o_row(cb, ctx, c, attn_out, i);
            i = i + 1;
            assert(cb@ =~= before + self.o_rows_cmds(ctx, *c, attn_out, i as nat));
        }
    }

    /// Output projection of all rows. Two-bit weights come first, then a bfloat16 copy,
    /// eight-bit weights and the four-bit weight, which reads once for all rows.
    pub open spec fn o_cmds(&self, ctx: &ForwardContext, c: MultiSeqCtx,
        attn_out: DevicePtr) -> Seq<Cmd> {
        let k = self.kernels;
        let out = ctx.buffers.moe_output;
        let n = c.n as u32;
        let h = c.h as u32;
        let width = (c.nq * c.hd) as u32;
        (if q2_of(self.o_weight) is Some {
            self.o_rows_cmds(ctx, c, attn_out, c.n as nat)
        } else {
            (match self.o_dense_bf16 {
                Some(w) => {
                    (if 2 <= c.n && c.n <= 8 && k.dense_gemv_batchm.present() && c.bf16_batchm {
                        seq![
                            Cmd::Op(DeviceOp::DenseGemvBatchM { kernel: k.dense_gemv_batchm,
                                input: attn_out, weight: w, output: out, m: n, n: h, k: width,
                                out_stride: h }),
                        ]
                    } else {
                        seq![
                            Cmd::Op(DeviceOp::Matmul { kind: MatmulKind::DenseGemm,
                                kernel: k.dense_gemm, input: attn_out, weight: WeightRef::Dense(w),
                                output: out, m: n, n: h, k: width }),
                        ]
                    })
                },
                None => {
                    (if fp8_of(self.o_weight) is Some || self.attn.o_proj.null() {
                        self.o_rows_cmds(ctx, c, attn_out, c.n as nat)
                    } else if c.n == 3 {
                        seq![
                            Cmd::Op(DeviceOp::Matmul { kind: MatmulKind::W4a16GemvBatch3,
                                kernel: k.w4a16_gemv_batch3, input: attn_out,
                                weight: WeightRef::Quantized(self.attn.o_proj), output: out, m: 3,
                                n: h, k: width }),
                        ]
                    } else if c.n == 2 {
                        seq![
                            Cmd::Op(DeviceOp::Matmul { kind: MatmulKind::W4a16GemvBatch2,
                                kernel: k.w4a16_gemv_batch2, input: attn_out,
                                weight: WeightRef::Quantized(self.attn.o_proj), output: out, m: 2,
                                n: h, k: width }),
                        ]
                    } else {
                        seq![
                            Cmd::Op(DeviceOp::WideGemm { input: attn_out, weight: self.attn.o_proj,
                                weight_t: self.o_nvfp4_t, output: out, m: n, n: h, k: width }),
                        ]
                    })
                },
            })
        })
    }

    fn record_o(&self, cb: &mut CommandBuffer, ctx: &ForwardContext, c: &MultiSeqCtx,
        attn_out: DevicePtr)
        requires
            c.fits(ctx),
            c.out_fits(ctx, attn_out),
        ensures
            final(cb)@ == old(cb)@ + self.o_cmds(ctx, *c, attn_out),
    {
        let ghost before = cb@;
        let k: crate::attention::layer::AttnKernels = self.kernels;
        let out: DevicePtr = ctx.buffers.moe_output;
        let n: u32 = c.n as u32;
        let h: u32 = c.h as u32;
        let width: u32 = c.nq * c.hd;
        if as_packed_q2(&self.o_weight).is_some() {
            self.record_o_rows(cb, ctx, c, attn_out);
        } else {
            match self.o_dense_bf16 {
                Some(w) => {
                    if 2 <= c.n && c.n <= 8 && k.dense_gemv_batchm.is_present() && c.bf16_batchm {
                        cb.op(DeviceOp::DenseGemvBatchM { kernel: k.dense_gemv_batchm,
                            input: attn_out, weight: w, output: out, m: n, n: h, k: width,
                            out_stride: h });
                    } else {
                        cb.op(DeviceOp::Matmul { kind: MatmulKind::DenseGemm, kernel: k.dense_gemm,
                            input: attn_out, weight: WeightRef::Dense(w), output: out, m: n, n: h,
                            k: width });
                    }
                },
                None => {
                    if as_fp8(&self.o_weight).is_some() || self.attn.o_proj.is_null() {
                        self.record_o_rows(cb, ctx, c, attn_out);
                    } else if c.n == 3 {
                        cb.op(DeviceOp::Matmul { kind: MatmulKind::W4a16GemvBatch3,
                            kernel: k.w4a16_gemv_batch3, input: attn_out,
                            weight: WeightRef::Quantized(self.attn.o_proj), output: out, m: 3,
                            n: h, k: width });
                    } else if c.n == 2 {
                        cb.op(DeviceOp::Matmul { kind: MatmulKind::W4a16GemvBatch2,
                            kernel: k.w4a16_gemv_batch2, input: attn_out,
                            weight: WeightRef::Quantized(self.attn.o_proj), output: out, m: 2,
                            n: h, k: width });
                    } else {
                        cb.op(DeviceOp::WideGemm { input: attn_out, weight: self.attn.o_proj,
                            weight_t: self.o_nvfp4_t, output: out, m: n, n: h, k: width });
                    }
                },
            }
        }
        assert(cb@ =~= before + self.o_cmds(ctx, *c, attn_out));
    }

    /// Adapters of the output projection, where rows have any.
    pub open spec fn o_lora_cmds(&self, ctx: &ForwardContext, c: MultiSeqCtx,
        attn_out: DevicePtr) -> Seq<Cmd> {
        (match self.lora {
            Some(l) => {
                (if c.seq_slot.0 != 0 {
                    (match l.o_route {
                        Some(r) => {
                            seq![
                                Cmd::Op(DeviceOp::LoraBgmv { kernels: l.kernels, route: r,
                                    x: attn_out, base_out: ctx.buffers.moe_output,
                                    seq_slot: c.seq_slot, rows: c.n as u32, x_stride: c.q_dim,
                                    out_stride: c.h as u32, xa: ctx.buffers.lora_xa }),
                            ]
                        },
                        None => {
                            Seq::empty()
                        },
                    })
                } else {
                    Seq::empty()
                })
            },
            None => {
                Seq::empty()
            },
        })
    }

    fn record_o_lora(&self, cb: &mut CommandBuffer, ctx: &ForwardContext, c: &MultiSeqCtx,
        attn_out: DevicePtr)
        ensures
            final(cb)@ == old(cb)@ + self.o_lora_cmds(ctx, *c, attn_out),
    {
        let ghost before = cb@;
        match self.lora {
            Some(l) => {
                if !c.seq_slot.is_null() {
                    match l.o_route {
                        Some(r) => {
                            cb.op(DeviceOp::LoraBgmv { kernels: l.kernels, route: r, x: attn_out,
                                base_out: ctx.buffers.moe_output, seq_slot: c.seq_slot,
                                rows: c.n as u32, x_stride: c.q_dim, out_stride: c.h as u32,
                                xa: ctx.buffers.lora_xa });
                        },
                        None => {
                        },
                    }
                }
            },
            None => {
            },
        }
        assert(cb@ =~= before + self.o_lora_cmds(ctx, *c, attn_out));
    }

    /// Records gates, output projection and adapters, and gives where the result
    /// lies.
    pub fn ms_phase_o_proj(
        &self,
        cb: &mut CommandBuffer,
        ctx: &ForwardContext,
        c: &MultiSeqCtx,
        attn_out: DevicePtr,
    ) -> (r: DevicePtr)
        requires
            c.fits(ctx),
            c.out_fits(ctx, attn_out),
        ensures
            r == ctx.buffers.moe_output,
            final(cb)@ == old(cb)@ + self.gates_cmds(*c, attn_out) + self.o_cmds(ctx, *c, attn_out)
                + self.o_lora_cmds(ctx, *c, attn_out),
    {
        self.record_gates(cb, ctx, c, attn_out);
        self.record_o(cb, ctx, c, attn_out);
        self.record_o_lora(cb, ctx, c, attn_out);
        ctx.buffers.moe_output
    }
}

/// The shared rotation does to sequence `i` what the kernel for one sequence
/// does: only the address of the row is found another way.
pub proof fn law_shared_rotation_is_alike(
    layer: &Qwen3AttentionLayer,
    ctx: &ForwardContext,
    env: &EnvVars,
    c: MultiSeqCtx,
    meta: AttnMetadataDev,
    i: int,
)
    requires
        c.fits(ctx),
        c.per_seq_qkv % 2 == 0,
        c.per_seq_qkv / 2 <= u32::MAX,
        0 <= i < c.n,
        layer.shares_rotation(env, c),
    ensures
        ({
            let step = 2 * (i * ((c.per_seq_qkv / 2) as u32));
            layer.rope_of_cmds(ctx, c, meta, i) == seq![
                Cmd::Op(
                    DeviceOp::Rope {
                        kernel: layer.kernels.rope,
                        q: c.qkv_buf.at(step),
                        k: c.k_at(0).at(step),
                        positions: meta.positions.row_at(i, 1, 4),
                        rows: 1,
                        nq: c.nq,
                        nkv: c.nkv,
                        hd: c.hd,
                        rotary_dim: layer.rotary_dim(ctx),
                        theta: layer.theta(ctx),
                    },
                ),
            ]
        }),
{
    let half = (c.per_seq_qkv / 2) as int;
    assert(i * c.per_seq_qkv * 1 == 2 * (i * half)) by (nonlinear_arith)
        requires
            c.per_seq_qkv == 2 * half,
    ;
    assert(i * c.per_seq_qkv * 1 + c.per_seq_qkv <= c.n * c.per_seq_qkv * 1) by (nonlinear_arith)
        requires
            0 <= i < c.n,
            0 <= c.per_seq_qkv,
    ;
    assert(0 <= i * half) by (nonlinear_arith)
        requires
            0 <= i,
            0 <= half,
    ;
}

/// Blocks are never rotated: where rotation is due, packed copies are.
pub proof fn law_rotation_spares_blocks(layer: &Qwen3AttentionLayer, env: &EnvVars, c: MultiSeqCtx)
    requires
        layer.q_inplace(env, c),
    ensures
        !layer.k_is_turbo,
        !layer.v_is_turbo,
{
}

} // verus!
