//! One decode step of several sequences through a linear-attention layer.
//!
//! The mixer carries state per sequence, so its recurrence runs sequence by
//! sequence, or batched where the states lie next to each other. The large
//! projections read their weights once for all sequences where the layer's
//! weights and kernels allow it. The feed-forward block follows.
use crate::context::{ForwardContext, ModelConfig};
use crate::device::{Cmd, CommandBuffer, DevicePtr, KernelHandle, Scalar};
use crate::env::EnvVars;
use crate::ops_table::{DeviceOp, FfnEntry, FusedNorm, GdnDecode, MatmulKind, WeightRef};
use crate::ssm::layer::{Qwen3SsmLayer, SsmLayerState};
use crate::weights::Fp8Weight;
use vstd::prelude::*;

verus! {

/// Bit pattern of 1e-6, the floor under the norm of query and key heads.
pub const L2_EPS_BITS: u32 = 0x3586_37bd;

impl ModelConfig {
    pub open spec fn key_dim(self) -> int {
        self.linear_num_key_heads * self.linear_key_head_dim
    }

    pub open spec fn value_dim(self) -> int {
        self.linear_num_value_heads * self.linear_value_head_dim
    }

    /// Channels of the short convolution: queries, keys and values.
    pub open spec fn conv_channels(self) -> int {
        2 * self.key_dim() + self.value_dim()
    }
}

/// The rows of `n` sequences lie inside the address space.
pub open spec fn rows_fit(ctx: &ForwardContext, hidden: DevicePtr, residual: DevicePtr, n: int) -> bool {
    let h = ctx.config.hidden_size as int;
    &&& hidden.holds(n, h, 2)
    &&& residual.holds(n, h, 2)
    &&& ctx.buffers.norm_output.holds(n, h, 2)
    &&& ctx.buffers.moe_output.holds(n, h, 2)
}

/// Every table of a batched step over `n` sequences lies inside the address space.
pub open spec fn mixer_fits(ctx: &ForwardContext, hidden: DevicePtr, residual: DevicePtr, n: int) -> bool {
    let c = ctx.config;
    let b = ctx.buffers;
    &&& rows_fit(ctx, hidden, residual, n)
    &&& c.linear_num_key_heads > 0
    &&& 4 * c.conv_channels() <= usize::MAX
    &&& n * c.ssm_qkvz_size * 2 + 2 * c.conv_channels() <= usize::MAX
    &&& b.ssm_deinterleaved.spans(n * c.ssm_qkvz_size * 2 + 2 * c.conv_channels())
    &&& b.ssm_qkvz.holds(n, c.value_dim(), 2)
    &&& 4 * c.linear_num_value_heads <= usize::MAX
    &&& b.ssm_gates.spans(4 * c.linear_num_value_heads)
    &&& n * (c.conv_channels() as u32) * 4 + n * c.value_dim() * 4 <= usize::MAX
    &&& b.ssm_conv_out_f32.spans(n * (c.conv_channels() as u32) * 4 + n * c.value_dim() * 4)
    &&& b.ssm_conv_out_f32.spans(4 * c.conv_channels())
}

impl Qwen3SsmLayer {
    /// The large projections can run once for all `n` sequences.
    pub open spec fn batches(&self, n: int) -> bool {
        &&& n >= 2
        &&& self.sequential_qkvz
        &&& self.kernels.conv1d_l2norm_f32.present()
        &&& self.kernels.gdn_f32.present()
        &&& self.kernels.gated_rms_norm_f32.present()
        &&& self.qkvz_nvfp4 is None
        &&& self.kernels.w8a16_gemm.present()
        &&& self.out_proj_fp8w is Some || self.out_proj_dense is Some
    }

    /// Weight-streaming kernel for `n` rows.
    pub open spec fn gemv_kernel(&self, n: int) -> KernelHandle {
        if n <= 4 {
            self.kernels.w8a16_gemv_batch4
        } else {
            self.kernels.w8a16_gemv_batch16
        }
    }

    /// `n` rows go through the weight-streaming kernel.
    pub open spec fn streams_weights(&self, n: int, env: &EnvVars) -> bool {
        self.gemv_kernel(n).present() && n <= 16 && !env.says("ATLAS_SSM_GEMV_BATCH4"@, "0"@)
    }

    /// Product of `n` rows with an eight-bit weight.
    pub open spec fn fp8_cmd(
        &self,
        env: &EnvVars,
        w: Fp8Weight,
        input: DevicePtr,
        output: DevicePtr,
        m: int,
        n: u32,
        k: u32,
    ) -> Cmd {
        let (kind, kernel) = if self.streams_weights(m, env) {
            (MatmulKind::W8a16GemvBatch, self.gemv_kernel(m))
        } else if self.kernels.w8a16_gemm_pipelined.present() {
            (MatmulKind::W8a16GemmPipelined, self.kernels.w8a16_gemm_pipelined)
        } else {
            (MatmulKind::W8a16Gemm, self.kernels.w8a16_gemm)
        };
        Cmd::Op(
            DeviceOp::Matmul {
                kind,
                kernel,
                input,
                weight: WeightRef::Fp8(w),
                output,
                m: m as u32,
                n,
                k,
            },
        )
    }

    fn record_fp8(
        &self,
        cb: &mut CommandBuffer,
        env: &EnvVars,
        w: Fp8Weight,
        input: DevicePtr,
        output: DevicePtr,
        m: usize,
        n: u32,
        k: u32,
    )
        ensures
            final(cb)@ == old(cb)@.push(self.fp8_cmd(env, w, input, output, m as int, n, k)),
    {
        let gemv: KernelHandle = if m <= 4 {
            self.kernels.w8a16_gemv_batch4
        } else {
            self.kernels.w8a16_gemv_batch16
        };
        let streams: bool = gemv.is_present() && m <= 16 && !env.is("ATLAS_SSM_GEMV_BATCH4", "0");
        let weight: WeightRef = WeightRef::Fp8(w);
        if streams {
            cb.op(
                DeviceOp::Matmul {
                    kind: MatmulKind::W8a16GemvBatch,
                    kernel: gemv,
                    input,
                    weight,
                    output,
                    m: m as u32,
                    n,
                    k,
                },
            );
        } else if self.kernels.w8a16_gemm_pipelined.is_present() {
            cb.op(
                DeviceOp::Matmul {
                    kind: MatmulKind::W8a16GemmPipelined,
                    kernel: self.kernels.w8a16_gemm_pipelined,
                    input,
                    weight,
                    output,
                    m: m as u32,
                    n,
                    k,
                },
            );
        } else {
            cb.op(
                DeviceOp::Matmul {
                    kind: MatmulKind::W8a16Gemm,
                    kernel: self.kernels.w8a16_gemm,
                    input,
                    weight,
                    output,
                    m: m as u32,
                    n,
                    k,
                },
            );
        }
    }

    /// Norm of the incoming rows.
    pub open spec fn input_norm_cmd(
        &self,
        ctx: &ForwardContext,
        hidden: DevicePtr,
        residual: DevicePtr,
        normed: DevicePtr,
        rows: int,
    ) -> Cmd {
        Cmd::Op(
            DeviceOp::RmsNormResidual {
                kernel: self.kernels.rms_norm_residual,
                input: hidden,
                weight: self.input_norm,
                output: normed,
                residual,
                rows: rows as u32,
                dim: ctx.config.hidden_size as u32,
                eps: ctx.config.rms_norm_eps,
            },
        )
    }

    /// Residual add and norm of the mixer's result.
    pub open spec fn post_norm_cmd(
        &self,
        ctx: &ForwardContext,
        hidden: DevicePtr,
        residual: DevicePtr,
        mixed: DevicePtr,
        normed: DevicePtr,
        rows: int,
    ) -> Cmd {
        Cmd::Op(
            DeviceOp::ResidualAddRmsNorm {
                kernel: self.kernels.residual_add_rms_norm,
                hidden,
                addend: mixed,
                weight: self.post_attn_norm,
                output: normed,
                residual,
                rows: rows as u32,
                dim: ctx.config.hidden_size as u32,
                eps: ctx.config.rms_norm_eps,
            },
        )
    }

    /// Input projection of all sequences.
    pub open spec fn qkvz_cmd(&self, ctx: &ForwardContext, env: &EnvVars, n: int) -> Cmd {
        let b = ctx.buffers;
        let out_n = ctx.config.ssm_qkvz_size as u32;
        let k = ctx.config.hidden_size as u32;
        match self.qkvz_fp8w {
            Some(w) => self.fp8_cmd(env, w, b.norm_output, b.ssm_deinterleaved, n, out_n, k),
            None => Cmd::Op(
                DeviceOp::Matmul {
                    kind: MatmulKind::DenseGemm,
                    kernel: self.kernels.dense_gemm,
                    input: b.norm_output,
                    weight: WeightRef::Dense(self.ssm.in_proj_qkvz),
                    output: b.ssm_deinterleaved,
                    m: n as u32,
                    n: out_n,
                    k,
                },
            ),
        }
    }

    /// Output projection of all sequences.
    pub open spec fn out_proj_cmds(&self, ctx: &ForwardContext, env: &EnvVars, n: int) -> Seq<Cmd> {
        let b = ctx.buffers;
        let out_n = ctx.config.hidden_size as u32;
        let k = ctx.config.value_dim() as u32;
        match self.out_proj_fp8w {
            Some(w) => seq![self.fp8_cmd(env, w, b.ssm_qkvz, b.moe_output, n, out_n, k)],
            None => match self.out_proj_dense {
                Some(w) => seq![
                    Cmd::Op(
                        DeviceOp::Matmul {
                            kind: MatmulKind::DenseGemm,
                            kernel: self.kernels.dense_gemm,
                            input: b.ssm_qkvz,
                            weight: WeightRef::Dense(w),
                            output: b.moe_output,
                            m: n as u32,
                            n: out_n,
                            k,
                        },
                    ),
                ],
                None => Seq::empty(),
            },
        }
    }

    /// The states of the first `n` sequences lie one behind the other.
    pub open spec fn states_adjacent(&self, states: Seq<SsmLayerState>, n: int) -> bool {
        forall|i: int|
            0 < i < n ==> (#[trigger] states[i]).h_state.0 == states[0].h_state.0 + i
                * self.h_state_bytes && states[i].conv_state.0 == states[0].conv_state.0 + i
                * self.conv_state_bytes
    }

    /// The recurrence of all sequences runs in one launch per step.
    pub open spec fn recurs_batched(&self, env: &EnvVars, states: Seq<SsmLayerState>, n: int) -> bool {
        &&& env.says("ATLAS_SSM_BATCHED_RECURRENT"@, "1"@)
        &&& self.kernels.gdn_f32_strided.present()
        &&& self.states_adjacent(states, n)
    }

    /// Recurrent operands of `batch` sequences whose state starts at `h_state`.
    pub open spec fn gdn_args(&self, ctx: &ForwardContext, h_state: DevicePtr, batch: int) -> GdnDecode {
        let c = ctx.config;
        let conv = ctx.buffers.ssm_conv_out_f32;
        GdnDecode {
            h_state,
            q: conv,
            k: conv.at(4 * c.key_dim()),
            v: conv.at(8 * c.key_dim()),
            gates: ctx.buffers.ssm_gates,
            beta: ctx.buffers.ssm_gates.at(4 * c.linear_num_value_heads),
            batch: batch as u32,
            nk: c.linear_num_key_heads as u32,
            nv: c.linear_num_value_heads as u32,
            kd: c.linear_key_head_dim as u32,
            vd: c.linear_value_head_dim as u32,
        }
    }

    /// Gate of sequence `i`, behind its queries, keys and values.
    pub open spec fn z_of(&self, ctx: &ForwardContext, i: int) -> DevicePtr {
        ctx.buffers.ssm_deinterleaved.row_at(i, ctx.config.ssm_qkvz_size as int, 2).at(
            2 * ctx.config.conv_channels(),
        )
    }

    /// Norm that a recurrent kernel folds in.
    pub open spec fn fused_norm(&self, ctx: &ForwardContext, i: int) -> FusedNorm {
        FusedNorm { z: self.z_of(ctx, i), weight: self.ssm.norm.weight, eps: ctx.config.rms_norm_eps }
    }

    /// Gated norm of sequence `i`.
    pub open spec fn gated_norm_cmd(&self, ctx: &ForwardContext, input: DevicePtr, i: int) -> Cmd {
        let vd = ctx.config.linear_value_head_dim as u32;
        Cmd::Op(
            DeviceOp::GatedRmsNorm {
                kernel: self.kernels.gated_rms_norm_f32,
                input,
                z: self.z_of(ctx, i),
                weight: self.ssm.norm,
                output: ctx.buffers.ssm_qkvz.row_at(i, ctx.config.value_dim(), 2),
                heads: ctx.config.linear_num_value_heads as u32,
                head_dim: vd,
                input_stride: vd,
                eps: ctx.config.rms_norm_eps,
                z_stride: vd,
            },
        )
    }

    /// Convolution of `batch` sequences from `input` on.
    pub open spec fn conv_cmd(
        &self,
        ctx: &ForwardContext,
        state: DevicePtr,
        input: DevicePtr,
        batch: int,
    ) -> Cmd {
        let c = ctx.config;
        Cmd::Op(
            DeviceOp::Conv1dUpdateL2norm {
                kernel: self.kernels.conv1d_l2norm_f32,
                state,
                input,
                weight: self.ssm.conv1d,
                output: ctx.buffers.ssm_conv_out_f32,
                conv_dim: c.conv_channels() as u32,
                d_conv: c.linear_conv_kernel_dim as u32,
                batch: batch as u32,
                qk_channels: (2 * c.key_dim()) as u32,
                head_dim: c.linear_key_head_dim as u32,
                eps: Scalar(L2_EPS_BITS),
            },
        )
    }

    /// Recurrence of sequence `i` by itself.
    pub open spec fn recurrence_of(
        &self,
        ctx: &ForwardContext,
        env: &EnvVars,
        state: SsmLayerState,
        i: int,
    ) -> Seq<Cmd> {
        let c = ctx.config;
        let b = ctx.buffers;
        let gates = Cmd::Op(
            DeviceOp::BaGates {
                kernel: self.kernels.ba_gates,
                input: b.norm_output.row_at(i, c.hidden_size as int, 2),
                weight: self.ssm.in_proj_ba,
                a_log: self.ssm.a_log.weight,
                dt_bias: self.ssm.dt_bias.weight,
                gates: b.ssm_gates,
                beta: b.ssm_gates.at(4 * c.linear_num_value_heads),
                ba_size: c.ssm_ba_size as u32,
                k: c.hidden_size as u32,
                heads_per_group: (c.linear_num_value_heads / c.linear_num_key_heads) as u32,
            },
        );
        let conv = self.conv_cmd(
            ctx,
            state.conv_state,
            b.ssm_deinterleaved.row_at(i, c.ssm_qkvz_size as int, 2),
            1,
        );
        let args = self.gdn_args(ctx, state.h_state, 1);
        let out = b.ssm_conv_out_f32.at(4 * c.conv_channels());
        if self.kernels.gdn_f32_norm.present() && env.says("ATLAS_GDN_FUSED_NORM"@, "1"@) {
            seq![
                gates,
                conv,
                Cmd::Op(
                    DeviceOp::GdnDecodeNorm {
                        kernel: self.kernels.gdn_f32_norm,
                        args,
                        norm: self.fused_norm(ctx, i),
                        out: b.ssm_qkvz.row_at(i, c.value_dim(), 2),
                    },
                ),
            ]
        } else {
            seq![
                gates,
                conv,
                Cmd::Op(DeviceOp::GdnDecode { kernel: self.kernels.gdn_f32, args, out }),
                self.gated_norm_cmd(ctx, out, i),
            ]
        }
    }

    /// Recurrence of the first `n` sequences, one after the other.
    pub open spec fn recurrence_each(
        &self,
        ctx: &ForwardContext,
        env: &EnvVars,
        states: Seq<SsmLayerState>,
        n: nat,
    ) -> Seq<Cmd>
        decreases n,
    {
        if n == 0 {
            Seq::empty()
        } else {
            self.recurrence_each(ctx, env, states, (n - 1) as nat) + self.recurrence_of(
                ctx,
                env,
                states[n - 1],
                n - 1,
            )
        }
    }

    /// Single-precision result of the batched recurrence.
    pub open spec fn batched_gdn_out(&self, ctx: &ForwardContext, n: int) -> DevicePtr {
        ctx.buffers.ssm_conv_out_f32.row_at(n, (ctx.config.conv_channels() as u32) as int, 4)
    }

    /// Gated norms behind the batched recurrence.
    pub open spec fn batched_norms(&self, ctx: &ForwardContext, total: int, n: nat) -> Seq<Cmd>
        decreases n,
    {
        if n == 0 {
            Seq::empty()
        } else {
            self.batched_norms(ctx, total, (n - 1) as nat).push(
                self.gated_norm_cmd(
                    ctx,
                    self.batched_gdn_out(ctx, total).row_at(n - 1, ctx.config.value_dim(), 4),
                    n - 1,
                ),
            )
        }
    }

    /// Recurrence of `n` sequences with adjacent states.
    pub open spec fn recurrence_batched(
        &self,
        ctx: &ForwardContext,
        env: &EnvVars,
        first: SsmLayerState,
        n: int,
    ) -> Seq<Cmd> {
        let c = ctx.config;
        let b = ctx.buffers;
        let conv_dim = c.conv_channels() as u32;
        let gate_stride = (c.linear_num_value_heads * 2) as u32;
        let gates = Cmd::Op(
            DeviceOp::BaGatesPrefill {
                kernel: self.kernels.ba_gates_prefill,
                input: b.norm_output,
                weight: self.ssm.in_proj_ba,
                a_log: self.ssm.a_log.weight,
                dt_bias: self.ssm.dt_bias.weight,
                gates: b.ssm_gates,
                rows: n as u32,
                ba_size: c.ssm_ba_size as u32,
                k: c.hidden_size as u32,
                input_stride: c.hidden_size as u32,
                gate_stride,
                nv: c.linear_num_value_heads as u32,
                heads_per_group: (c.linear_num_value_heads / c.linear_num_key_heads) as u32,
            },
        );
        let conv = self.conv_cmd(ctx, first.conv_state, b.ssm_deinterleaved, n);
        let args = self.gdn_args(ctx, first.h_state, n);
        if self.kernels.gdn_f32_strided_norm.present() && env.says("ATLAS_GDN_FUSED_NORM"@, "1"@) {
            seq![
                gates,
                conv,
                Cmd::Op(
                    DeviceOp::GdnDecodeStridedNorm {
                        kernel: self.kernels.gdn_f32_strided_norm,
                        args,
                        norm: self.fused_norm(ctx, 0),
                        out: b.ssm_qkvz,
                        qk_stride: conv_dim,
                        v_stride: conv_dim,
                        gate_stride,
                        z_stride: c.ssm_qkvz_size as u32,
                        out_stride: c.value_dim() as u32,
                    },
                ),
            ]
        } else {
            seq![
                gates,
                conv,
                Cmd::Op(
                    DeviceOp::GdnDecodeStrided {
                        kernel: self.kernels.gdn_f32_strided,
                        args,
                        out: self.batched_gdn_out(ctx, n),
                        qk_stride: conv_dim,
                        v_stride: conv_dim,
                        gate_stride,
                        out_stride: c.value_dim() as u32,
                    },
                ),
            ] + self.batched_norms(ctx, n, n as nat)
        }
    }

    /// The mixer of `n` sequences with projections that read weights once.
    pub open spec fn mixer_batched(
        &self,
        ctx: &ForwardContext,
        env: &EnvVars,
        hidden: DevicePtr,
        residual: DevicePtr,
        states: Seq<SsmLayerState>,
        n: int,
    ) -> Seq<Cmd> {
        let b = ctx.buffers;
        let recurrence = if self.recurs_batched(env, states, n) {
            self.recurrence_batched(ctx, env, states[0], n)
        } else {
            self.recurrence_each(ctx, env, states, n as nat)
        };
        seq![
            self.input_norm_cmd(ctx, hidden, residual, b.norm_output, n),
            self.qkvz_cmd(ctx, env, n),
        ] + recurrence + self.out_proj_cmds(ctx, env, n) + seq![
            self.post_norm_cmd(ctx, hidden, residual, b.moe_output, b.norm_output, n),
        ]
    }
}

/// Whether `at` lies `i` blocks of `bytes` behind `base`.
fn is_block_behind(at: u64, base: u64, i: usize, bytes: usize) -> (r: bool)
    ensures
        r == (at == base + i * bytes),
{
    proof {
        let x = i as int;
        let y = bytes as int;
        assert(0 <= x * y <= 0xffff_ffff_ffff_ffff * 0xffff_ffff_ffff_ffff) by (nonlinear_arith)
            requires
                0 <= x <= 0xffff_ffff_ffff_ffff,
                0 <= y <= 0xffff_ffff_ffff_ffff,
        ;
    }
    at as u128 == base as u128 + (i as u128) * (bytes as u128)
}

impl Qwen3SsmLayer {
    /// Whether the states of the first `n` sequences lie one behind the other.
    fn adjacent(&self, states: &[SsmLayerState], n: usize) -> (r: bool)
        requires
            1 <= n <= states@.len(),
        ensures
            r == self.states_adjacent(states@, n as int),
    {
        let first: SsmLayerState = states[0];
        let mut i: usize = 1;
        while i < n
            invariant
                1 <= i <= n,
                n <= states@.len(),
                first == states@[0],
                self.states_adjacent(states@, i as int),
            decreases n - i,
        {
            let s: SsmLayerState = states[i];
            if !is_block_behind(s.h_state.0, first.h_state.0, i, self.h_state_bytes)
                || !is_block_behind(s.conv_state.0, first.conv_state.0, i, self.conv_state_bytes) {
                assert(states@[i as int] == s);
                return false;
            }
            i = i + 1;
        }
        true
    }

    fn record_conv(
        &self,
        cb: &mut CommandBuffer,
        ctx: &ForwardContext,
        state: DevicePtr,
        input: DevicePtr,
        batch: usize,
    )
        requires
            ctx.config.conv_channels() <= usize::MAX,
        ensures
            final(cb)@ == old(cb)@.push(self.conv_cmd(ctx, state, input, batch as int)),
    {
        let c: ModelConfig = ctx.config;
        proof {
            lemma_dims(c);
        }
        let key_dim: usize = c.linear_num_key_heads * c.linear_key_head_dim;
        let value_dim: usize = c.linear_num_value_heads * c.linear_value_head_dim;
        cb.op(
            DeviceOp::Conv1dUpdateL2norm {
                kernel: self.kernels.conv1d_l2norm_f32,
                state,
                input,
                weight: self.ssm.conv1d,
                output: ctx.buffers.ssm_conv_out_f32,
                conv_dim: (key_dim * 2 + value_dim) as u32,
                d_conv: c.linear_conv_kernel_dim as u32,
                batch: batch as u32,
                qk_channels: (key_dim * 2) as u32,
                head_dim: c.linear_key_head_dim as u32,
                eps: Scalar(L2_EPS_BITS),
            },
        );
    }

    fn make_gdn_args(&self, ctx: &ForwardContext, h_state: DevicePtr, batch: usize) -> (r: GdnDecode)
        requires
            4 * ctx.config.conv_channels() <= usize::MAX,
            4 * ctx.config.linear_num_value_heads <= usize::MAX,
            ctx.buffers.ssm_gates.spans(4 * ctx.config.linear_num_value_heads),
            ctx.buffers.ssm_conv_out_f32.spans(4 * ctx.config.conv_channels()),
        ensures
            r == self.gdn_args(ctx, h_state, batch as int),
    {
        let c: ModelConfig = ctx.config;
        let conv: DevicePtr = ctx.buffers.ssm_conv_out_f32;
        proof {
            lemma_dims(c);
        }
        let key_dim: usize = c.linear_num_key_heads * c.linear_key_head_dim;
        GdnDecode {
            h_state,
            q: conv,
            k: conv.offset(key_dim * 4),
            v: conv.offset(key_dim * 2 * 4),
            gates: ctx.buffers.ssm_gates,
            beta: ctx.buffers.ssm_gates.offset(c.linear_num_value_heads * 4),
            batch: batch as u32,
            nk: c.linear_num_key_heads as u32,
            nv: c.linear_num_value_heads as u32,
            kd: c.linear_key_head_dim as u32,
            vd: c.linear_value_head_dim as u32,
        }
    }

    fn make_z(&self, ctx: &ForwardContext, i: usize, n: usize) -> (r: DevicePtr)
        requires
            i < n,
            4 * ctx.config.conv_channels() <= usize::MAX,
            n * ctx.config.ssm_qkvz_size * 2 + 2 * ctx.config.conv_channels() <= usize::MAX,
            ctx.buffers.ssm_deinterleaved.spans(
                n * ctx.config.ssm_qkvz_size * 2 + 2 * ctx.config.conv_channels(),
            ),
        ensures
            r == self.z_of(ctx, i as int),
    {
        let c: ModelConfig = ctx.config;
        proof {
            lemma_dims(c);
        }
        let key_dim: usize = c.linear_num_key_heads * c.linear_key_head_dim;
        let value_dim: usize = c.linear_num_value_heads * c.linear_value_head_dim;
        let row: DevicePtr = ctx.buffers.ssm_deinterleaved.row(i, n, c.ssm_qkvz_size, 2);
        row.offset((key_dim * 2 + value_dim) * 2)
    }

    fn record_gated_norm(
        &self,
        cb: &mut CommandBuffer,
        ctx: &ForwardContext,
        input: DevicePtr,
        i: usize,
        n: usize,
    )
        requires
            i < n,
            4 * ctx.config.conv_channels() <= usize::MAX,
            n * ctx.config.ssm_qkvz_size * 2 + 2 * ctx.config.conv_channels() <= usize::MAX,
            ctx.buffers.ssm_deinterleaved.spans(
                n * ctx.config.ssm_qkvz_size * 2 + 2 * ctx.config.conv_channels(),
            ),
            ctx.buffers.ssm_qkvz.holds(n as int, ctx.config.value_dim(), 2),
        ensures
            final(cb)@ == old(cb)@.push(self.gated_norm_cmd(ctx, input, i as int)),
    {
        let c: ModelConfig = ctx.config;
        proof {
            lemma_dims(c);
        }
        let value_dim: usize = c.linear_num_value_heads * c.linear_value_head_dim;
        let vd: u32 = c.linear_value_head_dim as u32;
        let z: DevicePtr = self.make_z(ctx, i, n);
        cb.op(
            DeviceOp::GatedRmsNorm {
                kernel: self.kernels.gated_rms_norm_f32,
                input,
                z,
                weight: self.ssm.norm,
                output: ctx.buffers.ssm_qkvz.row(i, n, value_dim, 2),
                heads: c.linear_num_value_heads as u32,
                head_dim: vd,
                input_stride: vd,
                eps: c.rms_norm_eps,
                z_stride: vd,
            },
        );
    }

    fn record_recurrence_of(
        &self,
        cb: &mut CommandBuffer,
        ctx: &ForwardContext,
        env: &EnvVars,
        hidden: DevicePtr,
        residual: DevicePtr,
        state: SsmLayerState,
        i: usize,
        n: usize,
    )
        requires
            i < n,
            mixer_fits(ctx, hidden, residual, n as int),
        ensures
            final(cb)@ == old(cb)@ + self.recurrence_of(ctx, env, state, i as int),
    {
        let ghost before = cb@;
        let c: ModelConfig = ctx.config;
        proof {
            lemma_dims(c);
        }
        let key_dim: usize = c.linear_num_key_heads * c.linear_key_head_dim;
        let value_dim: usize = c.linear_num_value_heads * c.linear_value_head_dim;
        let gates: DevicePtr = ctx.buffers.ssm_gates;
        cb.op(
            DeviceOp::BaGates {
                kernel: self.kernels.ba_gates,
                input: ctx.buffers.norm_output.row(i, n, c.hidden_size, 2),
                weight: self.ssm.in_proj_ba,
                a_log: self.ssm.a_log.weight,
                dt_bias: self.ssm.dt_bias.weight,
                gates,
                beta: gates.offset(c.linear_num_value_heads * 4),
                ba_size: c.ssm_ba_size as u32,
                k: c.hidden_size as u32,
                heads_per_group: (c.linear_num_value_heads / c.linear_num_key_heads) as u32,
            },
        );
        let row: DevicePtr = ctx.buffers.ssm_deinterleaved.row(i, n, c.ssm_qkvz_size, 2);
        self.record_conv(cb, ctx, state.conv_state, row, 1);
        let args: GdnDecode = self.make_gdn_args(ctx, state.h_state, 1);
        if self.kernels.gdn_f32_norm.is_present() && env.is("ATLAS_GDN_FUSED_NORM", "1") {
            let z: DevicePtr = self.make_z(ctx, i, n);
            cb.op(
                DeviceOp::GdnDecodeNorm {
                    kernel: self.kernels.gdn_f32_norm,
                    args,
                    norm: FusedNorm { z, weight: self.ssm.norm.weight, eps: c.rms_norm_eps },
                    out: ctx.buffers.ssm_qkvz.row(i, n, value_dim, 2),
                },
            );
        } else {
            let out: DevicePtr = ctx.buffers.ssm_conv_out_f32.offset((key_dim * 2 + value_dim) * 4);
            cb.op(DeviceOp::GdnDecode { kernel: self.kernels.gdn_f32, args, out });
            self.record_gated_norm(cb, ctx, out, i, n);
        }
        assert(cb@ =~= before + self.recurrence_of(ctx, env, state, i as int));
    }

    fn record_recurrence_batched(
        &self,
        cb: &mut CommandBuffer,
        ctx: &ForwardContext,
        env: &EnvVars,
        hidden: DevicePtr,
        residual: DevicePtr,
        first: SsmLayerState,
        n: usize,
    )
        requires
            n >= 1,
            mixer_fits(ctx, hidden, residual, n as int),
        ensures
            final(cb)@ == old(cb)@ + self.recurrence_batched(ctx, env, first, n as int),
    {
        let ghost before = cb@;
        let c: ModelConfig = ctx.config;
        proof {
            lemma_dims(c);
        }
        let key_dim: usize = c.linear_num_key_heads * c.linear_key_head_dim;
        let value_dim: usize = c.linear_num_value_heads * c.linear_value_head_dim;
        let conv_dim: u32 = (key_dim * 2 + value_dim) as u32;
        let gate_stride: u32 = (c.linear_num_value_heads * 2) as u32;
        let gates: DevicePtr = ctx.buffers.ssm_gates;
        cb.op(
            DeviceOp::BaGatesPrefill {
                kernel: self.kernels.ba_gates_prefill,
                input: ctx.buffers.norm_output,
                weight: self.ssm.in_proj_ba,
                a_log: self.ssm.a_log.weight,
                dt_bias: self.ssm.dt_bias.weight,
                gates,
                rows: n as u32,
                ba_size: c.ssm_ba_size as u32,
                k: c.hidden_size as u32,
                input_stride: c.hidden_size as u32,
                gate_stride,
                nv: c.linear_num_value_heads as u32,
                heads_per_group: (c.linear_num_value_heads / c.linear_num_key_heads) as u32,
            },
        );
        self.record_conv(cb, ctx, first.conv_state, ctx.buffers.ssm_deinterleaved, n);
        let args: GdnDecode = self.make_gdn_args(ctx, first.h_state, n);
        if self.kernels.gdn_f32_strided_norm.is_present() && env.is("ATLAS_GDN_FUSED_NORM", "1") {
            let z: DevicePtr = self.make_z(ctx, 0, n);
            cb.op(
                DeviceOp::GdnDecodeStridedNorm {
                    kernel: self.kernels.gdn_f32_strided_norm,
                    args,
                    norm: FusedNorm { z, weight: self.ssm.norm.weight, eps: c.rms_norm_eps },
                    out: ctx.buffers.ssm_qkvz,
                    qk_stride: conv_dim,
                    v_stride: conv_dim,
                    gate_stride,
                    z_stride: c.ssm_qkvz_size as u32,
                    out_stride: value_dim as u32,
                },
            );
            assert(cb@ =~= before + self.recurrence_batched(ctx, env, first, n as int));
        } else {
            proof {
                crate::device::lemma_row_bound(n as int, n as int, conv_dim as int, 4);
                crate::device::lemma_row_bound(n as int, n as int, value_dim as int, 4);
            }
            let out: DevicePtr = ctx.buffers.ssm_conv_out_f32.row(n, n, conv_dim as usize, 4);
            cb.op(
                DeviceOp::GdnDecodeStrided {
                    kernel: self.kernels.gdn_f32_strided,
                    args,
                    out,
                    qk_stride: conv_dim,
                    v_stride: conv_dim,
                    gate_stride,
                    out_stride: value_dim as u32,
                },
            );
            let ghost head = cb@;
            assert(out.holds(n as int, value_dim as int, 4));
            let mut i: usize = 0;
            assert(cb@ =~= head + self.batched_norms(ctx, n as int, 0));
            while i < n
                invariant
                    i <= n,
                    mixer_fits(ctx, hidden, residual, n as int),
                    value_dim == ctx.config.value_dim(),
                    out == self.batched_gdn_out(ctx, n as int),
                    out.holds(n as int, value_dim as int, 4),
                    cb@ == head + self.batched_norms(ctx, n as int, i as nat),
                decreases n - i,
            {
                let input: DevicePtr = out.row(i, n, value_dim, 4);
                self.record_gated_norm(cb, ctx, input, i, n);
                i = i + 1;
                assert(cb@ =~= head + self.batched_norms(ctx, n as int, i as nat));
            }
            assert(cb@ =~= before + self.recurrence_batched(ctx, env, first, n as int));
        }
    }

    fn record_in_proj(
        &self,
        cb: &mut CommandBuffer,
        ctx: &ForwardContext,
        env: &EnvVars,
        hidden: DevicePtr,
        residual: DevicePtr,
        n: usize,
    )
        ensures
            final(cb)@ == old(cb)@ + seq![
                self.input_norm_cmd(ctx, hidden, residual, ctx.buffers.norm_output, n as int),
                self.qkvz_cmd(ctx, env, n as int),
            ],
    {
        let k: &crate::ssm::layer::SsmKernels = &self.kernels;
        let c: ModelConfig = ctx.config;
        let b: crate::context::Buffers = ctx.buffers;
        cb.op(
            DeviceOp::RmsNormResidual {
                kernel: k.rms_norm_residual,
                input: hidden,
                weight: self.input_norm,
                output: b.norm_output,
                residual,
                rows: n as u32,
                dim: c.hidden_size as u32,
                eps: c.rms_norm_eps,
            },
        );
        let qkvz: u32 = c.ssm_qkvz_size as u32;
        let h: u32 = c.hidden_size as u32;
        match self.qkvz_fp8w {
            Some(w) => {
                self.record_fp8(cb, env, w, b.norm_output, b.ssm_deinterleaved, n, qkvz, h);
            },
            None => {
                cb.op(
                    DeviceOp::Matmul {
                        kind: MatmulKind::DenseGemm,
                        kernel: k.dense_gemm,
                        input: b.norm_output,
                        weight: WeightRef::Dense(self.ssm.in_proj_qkvz),
                        output: b.ssm_deinterleaved,
                        m: n as u32,
                        n: qkvz,
                        k: h,
                    },
                );
            },
        }
    }

    fn record_out_proj(
        &self,
        cb: &mut CommandBuffer,
        ctx: &ForwardContext,
        env: &EnvVars,
        hidden: DevicePtr,
        residual: DevicePtr,
        n: usize,
    )
        requires
            ctx.config.conv_channels() <= usize::MAX,
        ensures
            final(cb)@ == old(cb)@ + self.out_proj_cmds(ctx, env, n as int) + seq![
                self.post_norm_cmd(
                    ctx,
                    hidden,
                    residual,
                    ctx.buffers.moe_output,
                    ctx.buffers.norm_output,
                    n as int,
                ),
            ],
    {
        let ghost mid = cb@;
        let k: &crate::ssm::layer::SsmKernels = &self.kernels;
        let c: ModelConfig = ctx.config;
        let b: crate::context::Buffers = ctx.buffers;
        let h: u32 = c.hidden_size as u32;
        proof {
            lemma_dims(c);
        }
        let value_dim: usize = c.linear_num_value_heads * c.linear_value_head_dim;
        match self.out_proj_fp8w {
            Some(w) => {
                self.record_fp8(cb, env, w, b.ssm_qkvz, b.moe_output, n, h, value_dim as u32);
            },
            None => {
                if let Some(w) = self.out_proj_dense {
                    cb.op(
                        DeviceOp::Matmul {
                            kind: MatmulKind::DenseGemm,
                            kernel: k.dense_gemm,
                            input: b.ssm_qkvz,
                            weight: WeightRef::Dense(w),
                            output: b.moe_output,
                            m: n as u32,
                            n: h,
                            k: value_dim as u32,
                        },
                    );
                }
            },
        }
        assert(cb@ =~= mid + self.out_proj_cmds(ctx, env, n as int));
        cb.op(
            DeviceOp::ResidualAddRmsNorm {
                kernel: k.residual_add_rms_norm,
                hidden,
                addend: b.moe_output,
                weight: self.post_attn_norm,
                output: b.norm_output,
                residual,
                rows: n as u32,
                dim: h,
                eps: c.rms_norm_eps,
            },
        );
    }

    /// Records the mixer of `n` sequences with projections that read their
    /// weights once, or nothing where the layer does not allow that.
    pub fn try_decode_multi_seq_ssm_batched(
        &self,
        cb: &mut CommandBuffer,
        hidden: DevicePtr,
        residual: DevicePtr,
        n: usize,
        states: &[SsmLayerState],
        ctx: &ForwardContext,
        env: &EnvVars,
    ) -> (r: bool)
        requires
            self.batches(n as int) ==> n <= states@.len() && mixer_fits(
                ctx,
                hidden,
                residual,
                n as int,
            ),
        ensures
            r == self.batches(n as int),
            !r ==> final(cb)@ == old(cb)@,
            r ==> final(cb)@ == old(cb)@ + self.mixer_batched(
                ctx,
                env,
                hidden,
                residual,
                states@,
                n as int,
            ),
    {
        let k: &crate::ssm::layer::SsmKernels = &self.kernels;
        let ready: bool = k.conv1d_l2norm_f32.is_present() && k.gdn_f32.is_present()
            && k.gated_rms_norm_f32.is_present() && self.qkvz_nvfp4.is_none()
            && k.w8a16_gemm.is_present() && (self.out_proj_fp8w.is_some()
            || self.out_proj_dense.is_some());
        if n < 2 || !self.sequential_qkvz || !ready {
            return false;
        }
        let ghost start = cb@;
        proof {
            lemma_dims(ctx.config);
        }
        self.record_in_proj(cb, ctx, env, hidden, residual, n);
        let ghost head = cb@;
        let batched: bool = env.is("ATLAS_SSM_BATCHED_RECURRENT", "1") && k.gdn_f32_strided.is_present()
            && self.adjacent(states, n);
        if batched {
            self.record_recurrence_batched(cb, ctx, env, hidden, residual, states[0], n);
        } else {
            let mut i: usize = 0;
            assert(cb@ =~= head + self.recurrence_each(ctx, env, states@, 0));
            while i < n
                invariant
                    i <= n,
                    n <= states@.len(),
                    mixer_fits(ctx, hidden, residual, n as int),
                    cb@ == head + self.recurrence_each(ctx, env, states@, i as nat),
                decreases n - i,
            {
                self.record_recurrence_of(cb, ctx, env, hidden, residual, states[i], i, n);
                i = i + 1;
                assert(cb@ =~= head + self.recurrence_each(ctx, env, states@, i as nat));
            }
        }
        self.record_out_proj(cb, ctx, env, hidden, residual, n);
        assert(cb@ =~= start + self.mixer_batched(ctx, env, hidden, residual, states@, n as int));
        true
    }
}

/// Products of head counts and widths fit where the channel count does.
proof fn lemma_dims(c: ModelConfig)
    ensures
        0 <= c.key_dim(),
        0 <= c.value_dim(),
        c.key_dim() <= c.conv_channels(),
        2 * c.key_dim() <= c.conv_channels(),
        c.value_dim() <= c.conv_channels(),
{
    let a = c.linear_num_key_heads as int;
    let b = c.linear_key_head_dim as int;
    let d = c.linear_num_value_heads as int;
    let e = c.linear_value_head_dim as int;
    assert(0 <= a * b) by (nonlinear_arith)
        requires
            0 <= a,
            0 <= b,
    ;
    assert(0 <= d * e) by (nonlinear_arith)
        requires
            0 <= d,
            0 <= e,
    ;
}

impl Qwen3SsmLayer {
    /// The mixer of sequence `i` by itself.
    pub open spec fn mixer_of(
        &self,
        ctx: &ForwardContext,
        hidden: DevicePtr,
        residual: DevicePtr,
        i: int,
    ) -> Seq<Cmd> {
        let h = ctx.config.hidden_size as int;
        let normed = ctx.buffers.norm_output.row_at(i, h, 2);
        seq![
            self.input_norm_cmd(ctx, hidden.row_at(i, h, 2), residual.row_at(i, h, 2), normed, 1),
            Cmd::Op(DeviceOp::SsmForward { input: normed, seq: i as usize }),
            self.post_norm_cmd(
                ctx,
                hidden.row_at(i, h, 2),
                residual.row_at(i, h, 2),
                ctx.buffers.moe_output,
                normed,
                1,
            ),
        ]
    }

    /// The mixers of the first `n` sequences, one after the other.
    pub open spec fn mixer_each(
        &self,
        ctx: &ForwardContext,
        hidden: DevicePtr,
        residual: DevicePtr,
        n: nat,
    ) -> Seq<Cmd>
        decreases n,
    {
        if n == 0 {
            Seq::empty()
        } else {
            self.mixer_each(ctx, hidden, residual, (n - 1) as nat) + self.mixer_of(
                ctx,
                hidden,
                residual,
                n - 1,
            )
        }
    }

    /// Adds `count` elements of `addend` to `hidden`.
    pub open spec fn add_cmd(&self, hidden: DevicePtr, addend: DevicePtr, count: u32) -> Cmd {
        Cmd::Op(
            DeviceOp::ResidualAdd { kernel: self.kernels.residual_add, hidden, addend, n: count },
        )
    }

    /// Adds the first `n` feed-forward results row by row.
    pub open spec fn add_rows(&self, ctx: &ForwardContext, hidden: DevicePtr, n: nat) -> Seq<Cmd>
        decreases n,
    {
        let h = ctx.config.hidden_size as int;
        if n == 0 {
            Seq::empty()
        } else {
            self.add_rows(ctx, hidden, (n - 1) as nat).push(
                self.add_cmd(
                    hidden.row_at(n - 1, h, 2),
                    ctx.buffers.moe_output.row_at(n - 1, h, 2),
                    h as u32,
                ),
            )
        }
    }

    /// Feed-forward block of the first `n` rows, each added before the next
    /// overwrites it.
    pub open spec fn ffn_each(&self, ctx: &ForwardContext, hidden: DevicePtr, n: nat) -> Seq<Cmd>
        decreases n,
    {
        let h = ctx.config.hidden_size as int;
        if n == 0 {
            Seq::empty()
        } else {
            self.ffn_each(ctx, hidden, (n - 1) as nat) + seq![
                Cmd::Op(
                    DeviceOp::Ffn {
                        entry: FfnEntry::Single,
                        input: ctx.buffers.norm_output.row_at(n - 1, h, 2),
                        n: 1,
                    },
                ),
                self.add_cmd(hidden.row_at(n - 1, h, 2), ctx.buffers.moe_output, h as u32),
            ]
        }
    }

    /// Feed-forward entry that takes all `n` rows at once, where one applies.
    pub open spec fn batched_entry(env: &EnvVars, n: int) -> Option<FfnEntry> {
        if n == 2 {
            Some(FfnEntry::K2)
        } else if n == 3 {
            Some(FfnEntry::K3)
        } else if env.says("ATLAS_MOE_GROUPED_DECODE"@, "1"@) {
            Some(FfnEntry::Prefill)
        } else if n == 4 && env.says("ATLAS_MOE_ATOMIC_C4_DECODE"@, "1"@) {
            Some(FfnEntry::AtomicC4)
        } else if env.says("ATLAS_MOE_TOKEN_MAJOR_DECODE"@, "1"@) {
            Some(FfnEntry::TokenMajor)
        } else if env.says("ATLAS_MOE_BATCHED_DECODE"@, "1"@) {
            Some(FfnEntry::Batched)
        } else {
            None
        }
    }

    /// Feed-forward block of `n` rows and the residual adds behind it.
    pub open spec fn ffn_cmds(
        &self,
        ctx: &ForwardContext,
        env: &EnvVars,
        hidden: DevicePtr,
        n: int,
    ) -> Seq<Cmd> {
        let b = ctx.buffers;
        match Self::batched_entry(env, n) {
            Some(entry) => seq![
                Cmd::Op(DeviceOp::Ffn { entry, input: b.norm_output, n: n as usize }),
            ] + (if n == 2 || n == 3 {
                self.add_rows(ctx, hidden, n as nat)
            } else {
                seq![
                    self.add_cmd(hidden, b.moe_output, (n * ctx.config.hidden_size) as u32),
                ]
            }),
            None => self.ffn_each(ctx, hidden, n as nat),
        }
    }

    /// The whole layer for `n` sequences.
    pub open spec fn layer_cmds(
        &self,
        ctx: &ForwardContext,
        env: &EnvVars,
        hidden: DevicePtr,
        residual: DevicePtr,
        states: Seq<SsmLayerState>,
        n: int,
    ) -> Seq<Cmd> {
        let mixer = if self.batches(n) {
            self.mixer_batched(ctx, env, hidden, residual, states, n)
        } else {
            self.mixer_each(ctx, hidden, residual, n as nat)
        };
        mixer + self.ffn_cmds(ctx, env, hidden, n)
    }

    fn pick_batched_entry(env: &EnvVars, n: usize) -> (r: Option<FfnEntry>)
        ensures
            r == Self::batched_entry(env, n as int),
    {
        if n == 2 {
            Some(FfnEntry::K2)
        } else if n == 3 {
            Some(FfnEntry::K3)
        } else if env.is("ATLAS_MOE_GROUPED_DECODE", "1") {
            Some(FfnEntry::Prefill)
        } else if n == 4 && env.is("ATLAS_MOE_ATOMIC_C4_DECODE", "1") {
            Some(FfnEntry::AtomicC4)
        } else if env.is("ATLAS_MOE_TOKEN_MAJOR_DECODE", "1") {
            Some(FfnEntry::TokenMajor)
        } else if env.is("ATLAS_MOE_BATCHED_DECODE", "1") {
            Some(FfnEntry::Batched)
        } else {
            None
        }
    }

    fn record_mixer_of(
        &self,
        cb: &mut CommandBuffer,
        ctx: &ForwardContext,
        hidden: DevicePtr,
        residual: DevicePtr,
        i: usize,
        n: usize,
    )
        requires
            i < n,
            rows_fit(ctx, hidden, residual, n as int),
        ensures
            final(cb)@ == old(cb)@ + self.mixer_of(ctx, hidden, residual, i as int),
    {
        let ghost before = cb@;
        let h: usize = ctx.config.hidden_size;
        let hidden_i: DevicePtr = hidden.row(i, n, h, 2);
        let residual_i: DevicePtr = residual.row(i, n, h, 2);
        let normed_i: DevicePtr = ctx.buffers.norm_output.row(i, n, h, 2);
        cb.op(
            DeviceOp::RmsNormResidual {
                kernel: self.kernels.rms_norm_residual,
                input: hidden_i,
                weight: self.input_norm,
                output: normed_i,
                residual: residual_i,
                rows: 1,
                dim: h as u32,
                eps: ctx.config.rms_norm_eps,
            },
        );
        cb.op(DeviceOp::SsmForward { input: normed_i, seq: i });
        cb.op(
            DeviceOp::ResidualAddRmsNorm {
                kernel: self.kernels.residual_add_rms_norm,
                hidden: hidden_i,
                addend: ctx.buffers.moe_output,
                weight: self.post_attn_norm,
                output: normed_i,
                residual: residual_i,
                rows: 1,
                dim: h as u32,
                eps: ctx.config.rms_norm_eps,
            },
        );
        assert(cb@ =~= before + self.mixer_of(ctx, hidden, residual, i as int));
    }

    fn record_ffn(
        &self,
        cb: &mut CommandBuffer,
        ctx: &ForwardContext,
        env: &EnvVars,
        hidden: DevicePtr,
        residual: DevicePtr,
        n: usize,
    )
        requires
            rows_fit(ctx, hidden, residual, n as int),
        ensures
            final(cb)@ == old(cb)@ + self.ffn_cmds(ctx, env, hidden, n as int),
    {
        let ghost before = cb@;
        let h: usize = ctx.config.hidden_size;
        let b: crate::context::Buffers = ctx.buffers;
        let kernel: KernelHandle = self.kernels.residual_add;
        match Self::pick_batched_entry(env, n) {
            Some(entry) => {
                cb.op(DeviceOp::Ffn { entry, input: b.norm_output, n });
                let ghost head = cb@;
                if n == 2 || n == 3 {
                    let mut i: usize = 0;
                    assert(cb@ =~= head + self.add_rows(ctx, hidden, 0));
                    while i < n
                        invariant
                            i <= n,
                            h == ctx.config.hidden_size,
                            b == ctx.buffers,
                            kernel == self.kernels.residual_add,
                            rows_fit(ctx, hidden, residual, n as int),
                            cb@ == head + self.add_rows(ctx, hidden, i as nat),
                        decreases n - i,
                    {
                        let hidden_i: DevicePtr = hidden.row(i, n, h, 2);
                        let out_i: DevicePtr = b.moe_output.row(i, n, h, 2);
                        cb.op(
                            DeviceOp::ResidualAdd { kernel, hidden: hidden_i, addend: out_i, n: h as u32 },
                        );
                        i = i + 1;
                        assert(cb@ =~= head + self.add_rows(ctx, hidden, i as nat));
                    }
                } else {
                    proof {
                        crate::device::lemma_row_bound(n as int, n as int, h as int, 2);
                    }
                    cb.op(
                        DeviceOp::ResidualAdd {
                            kernel,
                            hidden,
                            addend: b.moe_output,
                            n: (n * h) as u32,
                        },
                    );
                }
                assert(cb@ =~= before + self.ffn_cmds(ctx, env, hidden, n as int));
            },
            None => {
                let mut i: usize = 0;
                assert(cb@ =~= before + self.ffn_each(ctx, hidden, 0));
                while i < n
                    invariant
                        i <= n,
                        h == ctx.config.hidden_size,
                        b == ctx.buffers,
                        kernel == self.kernels.residual_add,
                        rows_fit(ctx, hidden, residual, n as int),
                        cb@ == before + self.ffn_each(ctx, hidden, i as nat),
                    decreases n - i,
                {
                    let hidden_i: DevicePtr = hidden.row(i, n, h, 2);
                    let normed_i: DevicePtr = b.norm_output.row(i, n, h, 2);
                    cb.op(DeviceOp::Ffn { entry: FfnEntry::Single, input: normed_i, n: 1 });
                    cb.op(
                        DeviceOp::ResidualAdd {
                            kernel,
                            hidden: hidden_i,
                            addend: b.moe_output,
                            n: h as u32,
                        },
                    );
                    i = i + 1;
                    assert(cb@ =~= before + self.ffn_each(ctx, hidden, i as nat));
                }
            },
        }
    }

    /// Records one decode step of `num_seqs` sequences through this layer.
    pub fn decode_multi_seq_inner(
        &self,
        cb: &mut CommandBuffer,
        hidden: DevicePtr,
        residual: DevicePtr,
        num_seqs: usize,
        states: &[SsmLayerState],
        ctx: &ForwardContext,
        env: &EnvVars,
    )
        requires
            num_seqs <= states@.len(),
            rows_fit(ctx, hidden, residual, num_seqs as int),
            self.batches(num_seqs as int) ==> mixer_fits(ctx, hidden, residual, num_seqs as int),
        ensures
            final(cb)@ == old(cb)@ + self.layer_cmds(
                ctx,
                env,
                hidden,
                residual,
                states@,
                num_seqs as int,
            ),
    {
        let ghost before = cb@;
        let n: usize = num_seqs;
        if !self.try_decode_multi_seq_ssm_batched(cb, hidden, residual, n, states, ctx, env) {
            let mut i: usize = 0;
            assert(cb@ =~= before + self.mixer_each(ctx, hidden, residual, 0));
            while i < n
                invariant
                    i <= n,
                    rows_fit(ctx, hidden, residual, n as int),
                    cb@ == before + self.mixer_each(ctx, hidden, residual, i as nat),
                decreases n - i,
            {
                self.record_mixer_of(cb, ctx, hidden, residual, i, n);
                i = i + 1;
                assert(cb@ =~= before + self.mixer_each(ctx, hidden, residual, i as nat));
            }
        }
        self.record_ffn(cb, ctx, env, hidden, residual, n);
        assert(cb@ =~= before + self.layer_cmds(ctx, env, hidden, residual, states@, n as int));
    }
}

/// A matrix product that streams a projection's weights.
pub open spec fn is_matmul(c: Cmd) -> bool {
    c matches Cmd::Op(DeviceOp::Matmul { .. })
}

proof fn lemma_recurrence_each_streams_nothing(
    l: Qwen3SsmLayer,
    ctx: &ForwardContext,
    env: &EnvVars,
    states: Seq<SsmLayerState>,
    n: nat,
)
    ensures
        forall|j: int|
            0 <= j < l.recurrence_each(ctx, env, states, n).len() ==> !is_matmul(
                #[trigger] l.recurrence_each(ctx, env, states, n)[j],
            ),
    decreases n,
{
    if n > 0 {
        let prev = l.recurrence_each(ctx, env, states, (n - 1) as nat);
        let last = l.recurrence_of(ctx, env, states[n - 1], n - 1);
        lemma_recurrence_each_streams_nothing(l, ctx, env, states, (n - 1) as nat);
        assert forall|j: int| 0 <= j < (prev + last).len() implies !is_matmul(
            #[trigger] (prev + last)[j],
        ) by {
            if j < prev.len() {
                assert((prev + last)[j] == prev[j]);
            } else {
                assert((prev + last)[j] == last[j - prev.len()]);
            }
        }
    }
}

proof fn lemma_norms_stream_nothing(l: Qwen3SsmLayer, ctx: &ForwardContext, total: int, n: nat)
    ensures
        forall|j: int|
            0 <= j < l.batched_norms(ctx, total, n).len() ==> !is_matmul(
                #[trigger] l.batched_norms(ctx, total, n)[j],
            ),
    decreases n,
{
    if n > 0 {
        lemma_norms_stream_nothing(l, ctx, total, (n - 1) as nat);
        let prev = l.batched_norms(ctx, total, (n - 1) as nat);
        let all = l.batched_norms(ctx, total, n);
        assert forall|j: int| 0 <= j < all.len() implies !is_matmul(#[trigger] all[j]) by {
            if j < prev.len() {
                assert(all[j] == prev[j]);
            }
        }
    }
}

/// However many sequences take part, the batched mixer streams the weights of
/// each large projection exactly once: only its second and its last but one
/// command are matrix products.
pub proof fn law_projections_read_weights_once(
    l: Qwen3SsmLayer,
    ctx: &ForwardContext,
    env: &EnvVars,
    hidden: DevicePtr,
    residual: DevicePtr,
    states: Seq<SsmLayerState>,
    n: int,
    j: int,
)
    requires
        l.batches(n),
        0 <= j < l.mixer_batched(ctx, env, hidden, residual, states, n).len(),
    ensures
        ({
            let m = l.mixer_batched(ctx, env, hidden, residual, states, n);
            is_matmul(m[j]) <==> j == 1 || j == m.len() - 2
        }),
{
    let m = l.mixer_batched(ctx, env, hidden, residual, states, n);
    let rec = if l.recurs_batched(env, states, n) {
        l.recurrence_batched(ctx, env, states[0], n)
    } else {
        l.recurrence_each(ctx, env, states, n as nat)
    };
    lemma_recurrence_each_streams_nothing(l, ctx, env, states, n as nat);
    lemma_norms_stream_nothing(l, ctx, n, n as nat);
    assert forall|i: int| 0 <= i < rec.len() implies !is_matmul(#[trigger] rec[i]) by {
        if l.recurs_batched(env, states, n) && i >= 3 {
            assert(rec[i] == l.batched_norms(ctx, n, n as nat)[i - 3]);
        }
    }
    let out = l.out_proj_cmds(ctx, env, n);
    assert(out.len() == 1);
    assert(m.len() == rec.len() + 4);
    if j >= 2 && j < 2 + rec.len() {
        assert(m[j] == rec[j - 2]);
    }
    if j == m.len() - 2 {
        assert(m[j] == out[0]);
    }
}

} // verus!
