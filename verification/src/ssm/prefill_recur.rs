//! Choice of the recurrent kernel for prefill.
use crate::context::ForwardContext;
use crate::device::{Cmd, CommandBuffer, DevicePtr, Scalar};
use crate::env::EnvVars;
use crate::num::{ceil_div, div_ceil_u32};
use crate::ops_table::{DeviceOp, GdnPrefill};
use crate::ssm::layer::Qwen3SsmLayer;
use vstd::prelude::*;

verus! {

/// Bit pattern of `1 / sqrt(128)`, the query scale of 128-wide heads.
pub const GDN_SCALE_BITS: u32 = 0x3db5_04f3;

/// Tokens per chunk of the chunked recurrence.
pub const FLA_CHUNK: u32 = 64;

/// What the platform offers for the recurrence.
#[derive(Debug, Clone, Copy, PartialEq, Eq, Structural)]
pub struct GdnBackends {
    /// Shared memory is too small for kernels that keep the state there.
    pub small_shared_memory: bool,
    /// The chunked library is enabled and loaded.
    pub flashinfer: bool,
    /// That library can write single precision.
    pub flashinfer_f32: bool,
}

/// Tensors and dimensions of one prefill recurrence.
#[derive(Debug, Clone, Copy, PartialEq, Eq, Structural)]
pub struct GdnCall {
    pub h_state: DevicePtr,
    pub q_ptr: DevicePtr,
    pub k_ptr: DevicePtr,
    pub v_ptr: DevicePtr,
    pub gates_buf: DevicePtr,
    pub gdn_out_buf: DevicePtr,
    pub tokens: u32,
    pub nk: usize,
    pub nv: usize,
    pub kd: usize,
    pub vd: usize,
    pub conv_dim: usize,
}

/// Which kernel runs.
#[derive(Debug, Clone, Copy, PartialEq, Eq, Structural)]
pub enum GdnPath {
    Split4,
    FlashInfer { f32_out: bool },
    Fla,
    RegResident,
    Wy4,
    Persistent,
}

impl GdnCall {
    /// Tables of the call lie inside the address space.
    pub open spec fn fits(self) -> bool {
        &&& 4 * self.nv <= usize::MAX
        &&& self.gates_buf.spans(4 * self.nv)
    }

    pub open spec fn args(self) -> GdnPrefill {
        GdnPrefill {
            h_state: self.h_state,
            q: self.q_ptr,
            k: self.k_ptr,
            v: self.v_ptr,
            gates: self.gates_buf,
            beta: self.gates_buf.at(4 * self.nv),
            out: self.gdn_out_buf,
            batch: 1,
            tokens: self.tokens,
            nk: self.nk as u32,
            nv: self.nv as u32,
            kd: self.kd as u32,
            vd: self.vd as u32,
            qk_stride: self.conv_dim as u32,
            v_stride: self.conv_dim as u32,
            gate_stride: (self.nv * 2) as u32,
        }
    }

    /// Chunks of the chunked recurrence.
    pub open spec fn chunks(self) -> int {
        ceil_div(self.tokens as int, FLA_CHUNK as int)
    }

    /// Bytes of one head's intermediate rows over all chunks.
    pub open spec fn chunk_rows_bytes(self, width: int) -> int {
        self.chunks() * self.nv * 64 * width * 2
    }

    /// Bytes of the chunk states.
    pub open spec fn chunk_state_bytes(self) -> int {
        self.chunks() * self.nv * self.kd * self.vd * 2
    }

    /// Offsets of the chunked recurrence's scratch tables.
    pub open spec fn fla_u(self) -> int {
        self.chunk_rows_bytes(self.kd as int)
    }

    pub open spec fn fla_s(self) -> int {
        self.fla_u() + self.chunk_rows_bytes(self.vd as int)
    }

    pub open spec fn fla_uc(self) -> int {
        self.fla_s() + self.chunk_state_bytes()
    }

    pub open spec fn fla_gc(self) -> int {
        self.fla_uc() + self.chunk_rows_bytes(self.vd as int)
    }

    fn make_args(self) -> (r: GdnPrefill)
        requires
            self.fits(),
        ensures
            r == self.args(),
    {
        GdnPrefill {
            h_state: self.h_state,
            q: self.q_ptr,
            k: self.k_ptr,
            v: self.v_ptr,
            gates: self.gates_buf,
            beta: self.gates_buf.offset(self.nv * 4),
            out: self.gdn_out_buf,
            batch: 1,
            tokens: self.tokens,
            nk: self.nk as u32,
            nv: self.nv as u32,
            kd: self.kd as u32,
            vd: self.vd as u32,
            qk_stride: self.conv_dim as u32,
            v_stride: self.conv_dim as u32,
            gate_stride: (self.nv * 2) as u32,
        }
    }
}

impl Qwen3SsmLayer {
    /// The kernel for a call.
    ///
    /// An exact replay of restored state never takes a chunked path: chunking
    /// regroups the recurrence and drifts.
    pub open spec fn gdn_path(
        &self,
        ctx: &ForwardContext,
        env: &EnvVars,
        backends: GdnBackends,
        call: GdnCall,
    ) -> GdnPath {
        let k = self.kernels;
        let wide = call.kd == 128 && call.vd == 128;
        if backends.small_shared_memory {
            GdnPath::Split4
        } else if !ctx.gdn_exact_replay && wide && backends.flashinfer {
            GdnPath::FlashInfer {
                f32_out: backends.flashinfer_f32 && k.gated_rms_norm_prefill_f32.present()
                    && ctx.buffers.ssm_conv_out_f32.0 != 0,
            }
        } else if !ctx.gdn_exact_replay && wide && ctx.buffers.gdn_fla_scratch.0 != 0
            && k.gdn_prefill_fla_recompute_wu.present() && k.gdn_prefill_fla_chunk_delta_h.present()
            && k.gdn_prefill_fla_chunk_fwd_o.present() {
            GdnPath::Fla
        } else if env.value("ATLAS_GDN_REGRESIDENT"@) is Some && wide
            && k.gdn_prefill_regresident.present() {
            GdnPath::RegResident
        } else if k.gdn_prefill_persistent_wy4.present() {
            GdnPath::Wy4
        } else if 256 <= call.tokens <= 4096 && k.gdn_prefill_persistent.present() {
            GdnPath::Persistent
        } else {
            GdnPath::Split4
        }
    }

    /// The launch of a path.
    pub open spec fn gdn_cmd(&self, ctx: &ForwardContext, call: GdnCall, path: GdnPath) -> Cmd {
        let k = self.kernels;
        let scratch = ctx.buffers.gdn_fla_scratch;
        Cmd::Op(
            match path {
                GdnPath::Split4 => DeviceOp::GdnPrefillSplit4 {
                    kernel: k.gdn_prefill_split4,
                    args: call.args(),
                },
                GdnPath::FlashInfer { f32_out } => DeviceOp::GdnPrefillFlashInfer {
                    qkv: call.q_ptr,
                    gates: call.gates_buf,
                    out: if f32_out {
                        ctx.buffers.ssm_conv_out_f32
                    } else {
                        call.gdn_out_buf
                    },
                    h_state: call.h_state,
                    scale: Scalar(GDN_SCALE_BITS),
                    tokens: call.tokens,
                    nk: call.nk as u32,
                    nv: call.nv as u32,
                    kd: call.kd as u32,
                    vd: call.vd as u32,
                    conv_dim: call.conv_dim as u32,
                    gate_stride: (call.nv * 2) as u32,
                    batch: 1,
                    f32_out,
                },
                GdnPath::Fla => DeviceOp::GdnPrefillFla {
                    recompute_wu: k.gdn_prefill_fla_recompute_wu,
                    chunk_delta_h: k.gdn_prefill_fla_chunk_delta_h,
                    chunk_delta_h_tc: k.gdn_prefill_fla_chunk_delta_h_tc_vblock,
                    chunk_fwd_o: k.gdn_prefill_fla_chunk_fwd_o,
                    args: call.args(),
                    w_out: scratch,
                    u_out: scratch.at(call.fla_u()),
                    s_out: scratch.at(call.fla_s()),
                    uc_out: scratch.at(call.fla_uc()),
                    gc_out: scratch.at(call.fla_gc()),
                    num_chunks: call.chunks() as u32,
                    profile: ctx.profile,
                },
                GdnPath::RegResident => DeviceOp::GdnPrefillRegResident {
                    kernel: k.gdn_prefill_regresident,
                    args: call.args(),
                },
                GdnPath::Wy4 => DeviceOp::GdnPrefillPersistentSmem {
                    kernel: k.gdn_prefill_persistent_wy4,
                    args: call.args(),
                    shared_mem: (call.kd * call.vd * 4 + 8 * call.kd * 4 + 56) as u32,
                },
                GdnPath::Persistent => DeviceOp::GdnPrefillPersistent {
                    kernel: k.gdn_prefill_persistent,
                    args: call.args(),
                },
            },
        )
    }

    fn pick_gdn_path(
        &self,
        ctx: &ForwardContext,
        env: &EnvVars,
        backends: GdnBackends,
        call: GdnCall,
    ) -> (r: GdnPath)
        ensures
            r == self.gdn_path(ctx, env, backends, call),
    {
        let k: &crate::ssm::layer::SsmKernels = &self.kernels;
        let wide: bool = call.kd == 128 && call.vd == 128;
        if backends.small_shared_memory {
            return GdnPath::Split4;
        }
        if !ctx.gdn_exact_replay && wide && backends.flashinfer {
            return GdnPath::FlashInfer {
                f32_out: backends.flashinfer_f32 && k.gated_rms_norm_prefill_f32.is_present()
                    && !ctx.buffers.ssm_conv_out_f32.is_null(),
            };
        }
        if !ctx.gdn_exact_replay && wide && !ctx.buffers.gdn_fla_scratch.is_null()
            && k.gdn_prefill_fla_recompute_wu.is_present()
            && k.gdn_prefill_fla_chunk_delta_h.is_present()
            && k.gdn_prefill_fla_chunk_fwd_o.is_present() {
            return GdnPath::Fla;
        }
        if env.has("ATLAS_GDN_REGRESIDENT") && wide && k.gdn_prefill_regresident.is_present() {
            return GdnPath::RegResident;
        }
        if k.gdn_prefill_persistent_wy4.is_present() {
            return GdnPath::Wy4;
        }
        if 256 <= call.tokens && call.tokens <= 4096 && k.gdn_prefill_persistent.is_present() {
            return GdnPath::Persistent;
        }
        GdnPath::Split4
    }

    fn make_fla(&self, ctx: &ForwardContext, call: GdnCall) -> (r: DeviceOp)
        requires
            call.fits(),
            call.kd == 128,
            call.vd == 128,
            call.fla_gc() <= usize::MAX,
            ctx.buffers.gdn_fla_scratch.spans(call.fla_gc()),
        ensures
            Cmd::Op(r) == self.gdn_cmd(ctx, call, GdnPath::Fla),
    {
        let k: &crate::ssm::layer::SsmKernels = &self.kernels;
        let num_chunks: u32 = div_ceil_u32(call.tokens, FLA_CHUNK);
        let nt: usize = num_chunks as usize;
        let nv: usize = call.nv;
        let scratch: DevicePtr = ctx.buffers.gdn_fla_scratch;
        proof {
            lemma_fla_sizes(call);
            let heads = nt * nv;
            assert(heads * 64 * 128 * 2 == heads * 16384) by (nonlinear_arith);
            assert(heads * 128 * 128 * 2 == heads * 32768) by (nonlinear_arith);
            assert(0 <= heads) by (nonlinear_arith)
                requires
                    heads == nt * nv,
            ;
        }
        let rows: usize = nt * nv * 64 * call.kd * 2;
        let u_out: DevicePtr = scratch.offset(rows);
        let s_out: DevicePtr = u_out.offset(nt * nv * 64 * call.vd * 2);
        let uc_out: DevicePtr = s_out.offset(nt * nv * call.kd * call.vd * 2);
        let gc_out: DevicePtr = uc_out.offset(nt * nv * 64 * call.vd * 2);
        DeviceOp::GdnPrefillFla {
            recompute_wu: k.gdn_prefill_fla_recompute_wu,
            chunk_delta_h: k.gdn_prefill_fla_chunk_delta_h,
            chunk_delta_h_tc: k.gdn_prefill_fla_chunk_delta_h_tc_vblock,
            chunk_fwd_o: k.gdn_prefill_fla_chunk_fwd_o,
            args: call.make_args(),
            w_out: scratch,
            u_out,
            s_out,
            uc_out,
            gc_out,
            num_chunks,
            profile: ctx.profile,
        }
    }

    /// Records the recurrence of a prefill and says whether its result is in
    /// single precision, in the convolution scratch.
    pub fn prefill_gdn_recurrence(
        &self,
        cb: &mut CommandBuffer,
        call: GdnCall,
        backends: GdnBackends,
        ctx: &ForwardContext,
        env: &EnvVars,
    ) -> (r: bool)
        requires
            call.fits(),
            self.gdn_path(ctx, env, backends, call) == GdnPath::Fla ==> call.fla_gc() <= usize::MAX
                && ctx.buffers.gdn_fla_scratch.spans(call.fla_gc()),
            self.gdn_path(ctx, env, backends, call) == GdnPath::Wy4 ==> call.kd * call.vd * 4 + 8
                * call.kd * 4 + 56 <= usize::MAX,
        ensures
            final(cb)@ == old(cb)@.push(
                self.gdn_cmd(ctx, call, self.gdn_path(ctx, env, backends, call)),
            ),
            r == (self.gdn_path(ctx, env, backends, call) == GdnPath::FlashInfer { f32_out: true }),
    {
        let k: &crate::ssm::layer::SsmKernels = &self.kernels;
        match self.pick_gdn_path(ctx, env, backends, call) {
            GdnPath::Split4 => {
                cb.op(
                    DeviceOp::GdnPrefillSplit4 {
                        kernel: k.gdn_prefill_split4,
                        args: call.make_args(),
                    },
                );
                false
            },
            GdnPath::FlashInfer { f32_out } => {
                cb.op(
                    DeviceOp::GdnPrefillFlashInfer {
                        qkv: call.q_ptr,
                        gates: call.gates_buf,
                        out: if f32_out {
                            ctx.buffers.ssm_conv_out_f32
                        } else {
                            call.gdn_out_buf
                        },
                        h_state: call.h_state,
                        scale: Scalar(GDN_SCALE_BITS),
                        tokens: call.tokens,
                        nk: call.nk as u32,
                        nv: call.nv as u32,
                        kd: call.kd as u32,
                        vd: call.vd as u32,
                        conv_dim: call.conv_dim as u32,
                        gate_stride: (call.nv * 2) as u32,
                        batch: 1,
                        f32_out,
                    },
                );
                f32_out
            },
            GdnPath::Fla => {
                cb.op(self.make_fla(ctx, call));
                false
            },
            GdnPath::RegResident => {
                cb.op(
                    DeviceOp::GdnPrefillRegResident {
                        kernel: k.gdn_prefill_regresident,
                        args: call.make_args(),
                    },
                );
                false
            },
            GdnPath::Wy4 => {
                proof {
                    let a = call.kd as int;
                    let b = call.vd as int;
                    assert(0 <= a * b <= a * b * 4) by (nonlinear_arith)
                        requires
                            0 <= a,
                            0 <= b,
                    ;
                }
                cb.op(
                    DeviceOp::GdnPrefillPersistentSmem {
                        kernel: k.gdn_prefill_persistent_wy4,
                        args: call.make_args(),
                        shared_mem: (call.kd * call.vd * 4 + 8 * call.kd * 4 + 56) as u32,
                    },
                );
                false
            },
            GdnPath::Persistent => {
                cb.op(
                    DeviceOp::GdnPrefillPersistent {
                        kernel: k.gdn_prefill_persistent,
                        args: call.make_args(),
                    },
                );
                false
            },
        }
    }

    /// Records the gated norm behind the recurrence, from wherever its result is.
    pub fn prefill_gdn_gated_norm(
        &self,
        cb: &mut CommandBuffer,
        gdn_out_f32: bool,
        gdn_out_buf: DevicePtr,
        z_base: DevicePtr,
        normed_out_buf: DevicePtr,
        nv: usize,
        vd: usize,
        eps: Scalar,
        k: u32,
        value_dim: usize,
        qkvz_size: usize,
        ctx: &ForwardContext,
    )
        ensures
            final(cb)@ == old(cb)@.push(
                Cmd::Op(
                    DeviceOp::GatedRmsNormPrefill {
                        kernel: if gdn_out_f32 {
                            self.kernels.gated_rms_norm_prefill_f32
                        } else {
                            self.kernels.gated_rms_norm_prefill
                        },
                        f32_input: gdn_out_f32,
                        input: if gdn_out_f32 {
                            ctx.buffers.ssm_conv_out_f32
                        } else {
                            gdn_out_buf
                        },
                        z: z_base,
                        weight: self.ssm.norm,
                        output: normed_out_buf,
                        heads: nv as u32,
                        head_dim: vd as u32,
                        eps,
                        tokens: k,
                        value_dim: value_dim as u32,
                        qkvz_size: qkvz_size as u32,
                    },
                ),
            ),
    {
        let (kernel, input) = if gdn_out_f32 {
            (self.kernels.gated_rms_norm_prefill_f32, ctx.buffers.ssm_conv_out_f32)
        } else {
            (self.kernels.gated_rms_norm_prefill, gdn_out_buf)
        };
        cb.op(
            DeviceOp::GatedRmsNormPrefill {
                kernel,
                f32_input: gdn_out_f32,
                input,
                z: z_base,
                weight: self.ssm.norm,
                output: normed_out_buf,
                heads: nv as u32,
                head_dim: vd as u32,
                eps,
                tokens: k,
                value_dim: value_dim as u32,
                qkvz_size: qkvz_size as u32,
            },
        );
    }
}

/// Scratch tables of the chunked recurrence in multiples of a head's chunk.
proof fn lemma_fla_sizes(call: GdnCall)
    requires
        call.kd == 128,
        call.vd == 128,
    ensures
        ({
            let heads = call.chunks() * call.nv;
            &&& 0 <= heads
            &&& call.fla_u() == heads * 16384
            &&& call.fla_s() == heads * 32768
            &&& call.fla_uc() == heads * 65536
            &&& call.fla_gc() == heads * 81920
        }),
{
    let heads = call.chunks() * call.nv;
    crate::num::lemma_ceil_div_covers(call.tokens as int, 64);
    assert(0 <= heads) by (nonlinear_arith)
        requires
            heads == call.chunks() * call.nv,
            call.chunks() >= 0,
            call.nv >= 0,
    ;
    assert(heads * 64 * 128 * 2 == heads * 16384) by (nonlinear_arith);
    assert(heads * 128 * 128 * 2 == heads * 32768) by (nonlinear_arith);
}

/// The scratch tables of the chunked recurrence follow one another without
/// overlap.
pub proof fn law_fla_tables_follow(call: GdnCall)
    requires
        call.kd == 128,
        call.vd == 128,
    ensures
        0 <= call.fla_u() <= call.fla_s() <= call.fla_uc() <= call.fla_gc(),
        call.fla_s() - call.fla_u() == call.chunk_rows_bytes(call.vd as int),
        call.fla_uc() - call.fla_s() == call.chunk_state_bytes(),
        call.fla_gc() - call.fla_uc() == call.chunk_rows_bytes(call.vd as int),
{
    lemma_fla_sizes(call);
}

/// An exact replay of restored state takes a token-sequential kernel.
pub proof fn law_exact_replay_is_token_sequential(
    l: Qwen3SsmLayer,
    ctx: &ForwardContext,
    env: &EnvVars,
    backends: GdnBackends,
    call: GdnCall,
)
    requires
        ctx.gdn_exact_replay,
    ensures
        !(l.gdn_path(ctx, env, backends, call) is FlashInfer),
        l.gdn_path(ctx, env, backends, call) != GdnPath::Fla,
{
}

/// Tensors that a recurrence reads and writes, and how far apart its rows are.
#[verifier::ext_equal]
pub struct Recurrence {
    pub h_state: DevicePtr,
    pub q: DevicePtr,
    pub k: DevicePtr,
    pub v: DevicePtr,
    /// Decay and update gates of the first token.
    pub decay: DevicePtr,
    pub beta: DevicePtr,
    pub out: DevicePtr,
    pub tokens: u32,
    /// Bytes from one token to the next: of projected rows in bfloat16, and of gates in
    /// single precision.
    pub row_bytes: int,
    pub gate_bytes: int,
}

/// The recurrence that an operation runs. A library takes one block of rows, in which keys
/// and values follow the queries, and one block of gates.
pub open spec fn recurrence_in(op: DeviceOp, call: GdnCall) -> Option<Recurrence> {
    let of = |a: GdnPrefill|
        Recurrence {
            h_state: a.h_state,
            q: a.q,
            k: a.k,
            v: a.v,
            decay: a.gates,
            beta: a.beta,
            out: a.out,
            tokens: a.tokens,
            row_bytes: 2 * a.qk_stride,
            gate_bytes: 4 * a.gate_stride,
        };
    match op {
        DeviceOp::GdnPrefillSplit4 { kernel, args } => Some(of(args)),
        DeviceOp::GdnPrefillFla { args, .. } => Some(of(args)),
        DeviceOp::GdnPrefillRegResident { kernel, args } => Some(of(args)),
        DeviceOp::GdnPrefillPersistentSmem { args, .. } => Some(of(args)),
        DeviceOp::GdnPrefillPersistent { kernel, args } => Some(of(args)),
        DeviceOp::GdnPrefillFlashInfer { qkv, gates, out, h_state, tokens, nv, conv_dim, gate_stride, .. } => Some(
            Recurrence {
                h_state,
                q: qkv,
                k: call.k_ptr,
                v: call.v_ptr,
                decay: gates,
                beta: gates.at(4 * nv),
                out,
                tokens,
                row_bytes: 2 * conv_dim,
                gate_bytes: 4 * gate_stride,
            },
        ),
        _ => None,
    }
}

/// Whichever kernel runs, it steps the call's own state over the call's own rows: decay and
/// update gates of a token lie side by side, one value per value head, and the result lies
/// where the gated norm reads it.
pub proof fn law_paths_run_one_recurrence(
    l: Qwen3SsmLayer,
    ctx: &ForwardContext,
    env: &EnvVars,
    backends: GdnBackends,
    call: GdnCall,
)
    requires
        call.fits(),
        call.conv_dim <= u32::MAX,
        2 * call.nv <= u32::MAX,
    ensures
        ({
            let path = l.gdn_path(ctx, env, backends, call);
            let wide = path matches GdnPath::FlashInfer { f32_out } && f32_out;
            let op = l.gdn_cmd(ctx, call, path)->Op_0;
            &&& recurrence_in(op, call) matches Some(r)
            &&& r.h_state == call.h_state
            &&& r.q == call.q_ptr
            &&& r.k == call.k_ptr
            &&& r.v == call.v_ptr
            &&& r.decay == call.gates_buf
            &&& r.beta.0 == call.gates_buf.0 + 4 * call.nv
            &&& r.gate_bytes == 2 * (r.beta.0 - r.decay.0)
            &&& r.row_bytes == 2 * call.conv_dim
            &&& r.tokens == call.tokens
            &&& r.out == if wide {
                ctx.buffers.ssm_conv_out_f32
            } else {
                call.gdn_out_buf
            }
        }),
{
}

} // verus!
