//! Decode through experts that are served from packed trellis codes.
//!
//! The shared expert runs apart from the routed ones and is blended in once,
//! after the ranks' partial sums were added up.
use crate::context::{ForwardContext, ScoringFunc};
use crate::dataflow::{
    after, after_op, lemma_after_matmul, lemma_after_router, lemma_blend_launch, lemma_localise_launch,
    lemma_one_row_miss, lemma_repeat_launch, lemma_row_hit, lemma_run_add, lemma_run_one, lemma_run_push,
    lemma_run_three, lemma_run_two, lemma_silu_pairs_launch, run, Held, Memory, Places, Trellis,
};
use crate::device::{Cmd, CommandBuffer, DevicePtr, Scalar};
use crate::dflash_head::disjoint;
use crate::env::EnvVars;
use crate::moe::exl3::{Exl3ExpertPtrTable, Exl3MoeState, Exl3Tables};
use crate::moe::layer::MoeLayer;
use crate::ops::exl3_moe_decode::{
    exl3_moe_decode_routed, Exl3DecodeError, Exl3MoeProj, Exl3MoeScratch, Exl3Pass,
};
use crate::ops::moe_grouped_a::{
    moe_topk_sigmoid_batched, moe_topk_sigmoid_batched_launch, moe_topk_softmax_batched,
    moe_topk_softmax_batched_launch,
};
use crate::ops::moe_grouped_a2::{moe_batched_blend, moe_batched_blend_launch};
use crate::ops_table::{DeviceOp, MatmulKind, WeightRef};
use vstd::prelude::*;

verus! {

/// Why the trellis decode did not run, in the order in which it is checked.
#[derive(Debug, Clone, Copy, PartialEq, Eq, Structural)]
pub enum Exl3Error {
    /// Cooperative launches cannot be captured.
    GraphCapture,
    /// Extra router outputs or hash routing.
    Routing,
    Lora,
    PreExpertNorm,
    NoState,
    /// A correction bias with softmax scores.
    BiasScoring,
    Decode(Exl3DecodeError),
}

/// Rows are routed one by one.
pub open spec fn small_exact_batch(enabled: bool, exact_pass: bool, rows: int) -> bool {
    enabled && exact_pass && 2 <= rows <= 4
}

/// Whether rows are routed one by one: only in an exact pass over two to four
/// rows, and only where it is asked for.
pub fn row_router_required(enabled: bool, exact_pass: bool, rows: usize) -> (r: bool)
    ensures
        r == small_exact_batch(enabled, exact_pass, rows as int),
{
    enabled && exact_pass && 2 <= rows && rows <= 4
}

/// The routed products keep the geometry of a single row.
pub open spec fn stable_grid(ctx: &ForwardContext, env: &EnvVars, rows: int) -> bool {
    small_exact_batch(
        env.says("ATLAS_VERIFY_EXL3_STABLE_GRID"@, "1"@),
        ctx.gdn_exact_replay,
        rows,
    )
}

/// Whether the routed products keep the geometry of a single row.
pub fn stable_grid_enabled(ctx: &ForwardContext, env: &EnvVars, rows: usize) -> (r: bool)
    ensures
        r == stable_grid(ctx, env, rows as int),
{
    row_router_required(
        env.is("ATLAS_VERIFY_EXL3_STABLE_GRID", "1"),
        ctx.gdn_exact_replay,
        rows,
    )
}

/// Scores that a correction bias cannot be added to.
pub open spec fn scores_refuse_bias(f: ScoringFunc) -> bool {
    f == ScoringFunc::SqrtSoftplus || f == ScoringFunc::Softmax
}

fn do_scores_refuse_bias(f: ScoringFunc) -> (r: bool)
    ensures
        r == scores_refuse_bias(f),
{
    f == ScoringFunc::SqrtSoftplus || f == ScoringFunc::Softmax
}

/// Router tables of `rows` rows lie inside the address space, and counts fit
/// their kernel arguments.
pub open spec fn router_fits(ctx: &ForwardContext, input: DevicePtr, rows: int) -> bool {
    let c = ctx.config;
    &&& rows <= u32::MAX
    &&& c.hidden_size <= u32::MAX
    &&& c.num_experts <= u32::MAX
    &&& c.num_experts_per_tok <= u32::MAX
    &&& input.holds(rows, c.hidden_size as int, 2)
    &&& ctx.buffers.gate_logits.holds(rows, c.num_experts as int, 2)
    &&& ctx.buffers.scratch.holds(2 * rows, c.num_experts_per_tok as int, 4)
    &&& 2 * rows <= usize::MAX
}

impl MoeLayer {
    /// Whether the routed experts are served from packed trellis codes. Graphs
    /// must not be captured then.
    pub fn exl3_native_active(&self) -> (r: bool)
        ensures
            r == (self.exl3_expert_tables is Some),
    {
        self.exl3_expert_tables.is_some()
    }

    /// Router projection of row `i`.
    pub open spec fn route_row_cmd(&self, ctx: &ForwardContext, input: DevicePtr, i: int) -> Cmd {
        let src = input.row_at(i, ctx.config.hidden_size as int, 2);
        let dst = ctx.buffers.gate_logits.row_at(i, ctx.config.num_experts as int, 2);
        match self.gate_nvfp4 {
            Some(w) => Cmd::Op(
                DeviceOp::W4a16DecodeGemv {
                    kernel: self.kernels.w4a16_gemv,
                    kernel_sw: self.kernels.w4a16_gemv_sw,
                    single_wave: ctx.gemv_sw,
                    input: src,
                    weight: w,
                    output: dst,
                    n: self.router_logits_n,
                    k: ctx.config.hidden_size as u32,
                },
            ),
            None => Cmd::Op(
                DeviceOp::Matmul {
                    kind: MatmulKind::DenseGemv,
                    kernel: self.kernels.dense_gemv,
                    input: src,
                    weight: WeightRef::Dense(self.weights.gate),
                    output: dst,
                    m: 1,
                    n: self.router_logits_n,
                    k: ctx.config.hidden_size as u32,
                },
            ),
        }
    }

    /// Router projections of the first `n` rows.
    pub open spec fn route_rows_cmds(&self, ctx: &ForwardContext, input: DevicePtr, n: nat) -> Seq<Cmd> {
        Seq::new(n, |i: int| self.route_row_cmd(ctx, input, i))
    }

    /// Rows are routed one by one in this pass.
    pub open spec fn routes_rows(&self, ctx: &ForwardContext, env: &EnvVars, rows: int) -> bool {
        small_exact_batch(
            env.says("ATLAS_VERIFY_EXL3_ROW_ROUTER"@, "1"@),
            ctx.gdn_exact_replay,
            rows,
        )
    }

    /// Records one router projection per row where rows are routed one by one, and
    /// says whether they are.
    pub fn exl3_row_router(
        &self,
        cb: &mut CommandBuffer,
        input: DevicePtr,
        rows: usize,
        ctx: &ForwardContext,
        env: &EnvVars,
    ) -> (r: bool)
        requires
            router_fits(ctx, input, rows as int),
        ensures
            r == self.routes_rows(ctx, env, rows as int),
            final(cb)@ == (if r {
                old(cb)@ + self.route_rows_cmds(ctx, input, rows as nat)
            } else {
                old(cb)@
            }),
    {
        if !row_router_required(
            env.is("ATLAS_VERIFY_EXL3_ROW_ROUTER", "1"),
            ctx.gdn_exact_replay,
            rows,
        ) {
            return false;
        }
        let ghost before = cb@;
        let h: usize = ctx.config.hidden_size;
        let experts: usize = ctx.config.num_experts;
        let logits: DevicePtr = ctx.buffers.gate_logits;
        let mut i: usize = 0;
        assert(cb@ =~= before + self.route_rows_cmds(ctx, input, 0));
        while i < rows
            invariant
                i <= rows,
                router_fits(ctx, input, rows as int),
                h == ctx.config.hidden_size,
                experts == ctx.config.num_experts,
                logits == ctx.buffers.gate_logits,
                cb@ == before + self.route_rows_cmds(ctx, input, i as nat),
            decreases rows - i,
        {
            let src: DevicePtr = input.row(i, rows, h, 2);
            let dst: DevicePtr = logits.row(i, rows, experts, 2);
            match self.gate_nvfp4 {
                Some(w) => {
                    cb.op(
                        DeviceOp::W4a16DecodeGemv {
                            kernel: self.kernels.w4a16_gemv,
                            kernel_sw: self.kernels.w4a16_gemv_sw,
                            single_wave: ctx.gemv_sw,
                            input: src,
                            weight: w,
                            output: dst,
                            n: self.router_logits_n,
                            k: h as u32,
                        },
                    );
                },
                None => {
                    cb.op(
                        DeviceOp::Matmul {
                            kind: MatmulKind::DenseGemv,
                            kernel: self.kernels.dense_gemv,
                            input: src,
                            weight: WeightRef::Dense(self.weights.gate),
                            output: dst,
                            m: 1,
                            n: self.router_logits_n,
                            k: h as u32,
                        },
                    );
                },
            }
            assert(cb@ =~= before + self.route_rows_cmds(ctx, input, (i + 1) as nat));
            i = i + 1;
        }
        true
    }

    /// Choice of experts for `rows` rows that start at the given addresses.
    pub open spec fn topk_cmd(
        &self,
        ctx: &ForwardContext,
        batched: bool,
        logits: DevicePtr,
        ids: DevicePtr,
        probs: DevicePtr,
        rows: u32,
    ) -> Cmd {
        let c = ctx.config;
        let experts = c.num_experts as u32;
        let top_k = c.num_experts_per_tok as u32;
        match self.correction_bias_dev {
            Some(bias) => if batched {
                Cmd::Launch(
                    moe_topk_sigmoid_batched_launch(
                        self.kernels.moe_topk_sigmoid_batched, logits, bias, ids, probs, experts,
                        top_k, c.norm_topk_prob, c.routed_scaling_factor, rows,
                    ),
                )
            } else {
                Cmd::Op(
                    DeviceOp::TopkSigmoid {
                        kernel: self.kernels.moe_topk_sigmoid,
                        logits,
                        bias,
                        ids,
                        probs,
                        experts,
                        top_k,
                        normalise: c.norm_topk_prob,
                        scale: c.routed_scaling_factor,
                    },
                )
            },
            None => if batched {
                Cmd::Launch(
                    moe_topk_softmax_batched_launch(
                        self.kernels.moe_topk_batched, logits, ids, probs, experts, top_k,
                        c.norm_topk_prob, rows,
                    ),
                )
            } else {
                Cmd::Op(
                    DeviceOp::TopkSoftmax {
                        kernel: self.kernels.moe_topk,
                        logits,
                        ids,
                        probs,
                        experts,
                        top_k,
                        normalise: c.norm_topk_prob,
                    },
                )
            },
        }
    }

    /// A correction bias meets scores that refuse it.
    pub open spec fn refuses_bias(&self, ctx: &ForwardContext) -> bool {
        self.correction_bias_dev is Some && scores_refuse_bias(ctx.config.scoring_func)
    }

    fn record_topk(
        &self,
        cb: &mut CommandBuffer,
        ctx: &ForwardContext,
        batched: bool,
        logits: DevicePtr,
        ids: DevicePtr,
        probs: DevicePtr,
        rows: u32,
    )
        ensures
            final(cb)@ == old(cb)@.push(self.topk_cmd(ctx, batched, logits, ids, probs, rows)),
    {
        let c: crate::context::ModelConfig = ctx.config;
        let experts: u32 = c.num_experts as u32;
        let top_k: u32 = c.num_experts_per_tok as u32;
        match self.correction_bias_dev {
            Some(bias) => if batched {
                moe_topk_sigmoid_batched(
                    cb, self.kernels.moe_topk_sigmoid_batched, logits, bias, ids, probs, experts,
                    top_k, c.norm_topk_prob, c.routed_scaling_factor, rows,
                );
            } else {
                cb.op(
                    DeviceOp::TopkSigmoid {
                        kernel: self.kernels.moe_topk_sigmoid,
                        logits,
                        bias,
                        ids,
                        probs,
                        experts,
                        top_k,
                        normalise: c.norm_topk_prob,
                        scale: c.routed_scaling_factor,
                    },
                );
            },
            None => if batched {
                moe_topk_softmax_batched(
                    cb, self.kernels.moe_topk_batched, logits, ids, probs, experts, top_k,
                    c.norm_topk_prob, rows,
                );
            } else {
                cb.op(
                    DeviceOp::TopkSoftmax {
                        kernel: self.kernels.moe_topk,
                        logits,
                        ids,
                        probs,
                        experts,
                        top_k,
                        normalise: c.norm_topk_prob,
                    },
                );
            },
        }
    }

    /// Where the probabilities of `rows` rows start: behind their expert ids.
    pub open spec fn probs_at(ctx: &ForwardContext, rows: int) -> DevicePtr {
        ctx.buffers.scratch.row_at(rows, ctx.config.num_experts_per_tok as int, 4)
    }

    /// Choices of experts of the first `n` of `rows` rows, one by one.
    pub open spec fn topk_rows_cmds(&self, ctx: &ForwardContext, rows: int, n: nat) -> Seq<Cmd> {
        let k = ctx.config.num_experts_per_tok as int;
        Seq::new(
            n,
            |i: int|
                self.topk_cmd(
                    ctx,
                    false,
                    ctx.buffers.gate_logits.row_at(i, ctx.config.num_experts as int, 2),
                    ctx.buffers.scratch.row_at(i, k, 4),
                    Self::probs_at(ctx, rows).row_at(i, k, 4),
                    1,
                ),
        )
    }

    /// Records one choice of experts per row. Ids and probabilities of all rows lie
    /// one after the other in the scratch.
    pub fn exl3_row_topk(&self, cb: &mut CommandBuffer, rows: usize, ctx: &ForwardContext) -> (r:
        Result<(), Exl3Error>)
        requires
            router_fits(ctx, DevicePtr(0), rows as int),
        ensures
            rows > 0 && self.refuses_bias(ctx) ==> r == Err::<(), Exl3Error>(Exl3Error::BiasScoring)
                && final(cb)@ == old(cb)@,
            rows == 0 || !self.refuses_bias(ctx) ==> r is Ok && final(cb)@ == old(cb)@
                + self.topk_rows_cmds(ctx, rows as int, rows as nat),
    {
        let ghost before = cb@;
        let experts: usize = ctx.config.num_experts;
        let k: usize = ctx.config.num_experts_per_tok;
        let scratch: DevicePtr = ctx.buffers.scratch;
        proof {
            lemma_probs_fit(ctx, rows as int);
        }
        let probs: DevicePtr = scratch.row(rows, 2 * rows, k, 4);
        if rows > 0 && self.correction_bias_dev.is_some() && do_scores_refuse_bias(
            ctx.config.scoring_func,
        ) {
            return Err(Exl3Error::BiasScoring);
        }
        let mut i: usize = 0;
        assert(cb@ =~= before + self.topk_rows_cmds(ctx, rows as int, 0));
        while i < rows
            invariant
                i <= rows,
                router_fits(ctx, DevicePtr(0), rows as int),
                experts == ctx.config.num_experts,
                k == ctx.config.num_experts_per_tok,
                scratch == ctx.buffers.scratch,
                probs == Self::probs_at(ctx, rows as int),
                probs.holds(rows as int, k as int, 4),
                cb@ == before + self.topk_rows_cmds(ctx, rows as int, i as nat),
            decreases rows - i,
        {
            let src: DevicePtr = ctx.buffers.gate_logits.row(i, rows, experts, 2);
            let ids: DevicePtr = scratch.row(i, 2 * rows, k, 4);
            let row_probs: DevicePtr = probs.row(i, rows, k, 4);
            self.record_topk(cb, ctx, false, src, ids, row_probs, 1);
            assert(cb@ =~= before + self.topk_rows_cmds(ctx, rows as int, (i + 1) as nat));
            i = i + 1;
        }
        Ok(())
    }

    /// Router projection of all rows at once, or row by row.
    pub open spec fn router_cmds(
        &self,
        ctx: &ForwardContext,
        env: &EnvVars,
        router_in: DevicePtr,
        rows: int,
    ) -> Seq<Cmd> {
        let c = ctx.config;
        if self.routes_rows(ctx, env, rows) {
            self.route_rows_cmds(ctx, router_in, rows as nat)
        } else {
            let (kind, kernel, weight) = match self.gate_nvfp4 {
                Some(w) => (MatmulKind::W4a16Gemm, self.kernels.w4a16_gemm, WeightRef::Quantized(w)),
                None => (
                    MatmulKind::DenseGemm,
                    self.kernels.dense_gemm,
                    WeightRef::Dense(self.weights.gate),
                ),
            };
            seq![
                Cmd::Op(
                    DeviceOp::Matmul {
                        kind,
                        kernel,
                        input: router_in,
                        weight,
                        output: ctx.buffers.gate_logits,
                        m: rows as u32,
                        n: c.num_experts as u32,
                        k: c.hidden_size as u32,
                    },
                ),
            ]
        }
    }

    /// Choice of experts of all rows at once, or row by row.
    pub open spec fn router_topk_cmds(&self, ctx: &ForwardContext, env: &EnvVars, rows: int) -> Seq<Cmd> {
        if self.routes_rows(ctx, env, rows) {
            self.topk_rows_cmds(ctx, rows, rows as nat)
        } else {
            seq![
                self.topk_cmd(
                    ctx,
                    true,
                    ctx.buffers.gate_logits,
                    ctx.buffers.scratch,
                    Self::probs_at(ctx, rows),
                    rows as u32,
                ),
            ]
        }
    }

    /// Why the experts cannot run, if anything keeps them from it.
    pub open spec fn exl3_refusal(&self, ctx: &ForwardContext) -> Option<Exl3Error> {
        if ctx.graph_capture {
            Some(Exl3Error::GraphCapture)
        } else if self.router_logits_n as int != ctx.config.num_experts || self.tid2eid_dev is Some {
            Some(Exl3Error::Routing)
        } else if self.lora is Some {
            Some(Exl3Error::Lora)
        } else if self.pre_expert_norm is Some {
            Some(Exl3Error::PreExpertNorm)
        } else if self.exl3_moe_state is None {
            Some(Exl3Error::NoState)
        } else {
            None
        }
    }

    /// What the routed pipeline reads in this pass.
    pub open spec fn exl3_pass(
        &self,
        ctx: &ForwardContext,
        env: &EnvVars,
        input: DevicePtr,
        rows: usize,
        ids: DevicePtr,
        probs: DevicePtr,
    ) -> Exl3Pass {
        let t = self.exl3_expert_tables->0;
        let st = self.exl3_moe_state->0;
        Exl3Pass {
            input_bf16: input,
            indices_u32: ids,
            probs_f32: probs,
            out_bf16: ctx.buffers.moe_output,
            gate: proj_of(t.gate),
            up: proj_of(t.up),
            down: proj_of(t.down),
            scratch: scratch_of(st),
            locks: st.locks,
            num_tokens: rows,
            top_k: ctx.config.num_experts_per_tok,
            hidden: ctx.config.hidden_size,
            inter: ctx.config.moe_intermediate_size,
            local_start: t.gate.local_start,
            num_local: t.gate.num_local,
            act_limit: Scalar(0),
            stable_token_grid: stable_grid(ctx, env, rows as int),
            sm_count: st.sm_count,
        }
    }

    /// The expert tables are there, and what the routed pipeline reads and the tail
    /// sums lies inside the address space.
    pub open spec fn exl3_pass_fits(
        &self,
        ctx: &ForwardContext,
        env: &EnvVars,
        input: DevicePtr,
        rows: usize,
        ids: DevicePtr,
        probs: DevicePtr,
    ) -> bool {
        let p = self.exl3_pass(ctx, env, input, rows, ids, probs);
        let st = self.exl3_moe_state->0;
        &&& self.exl3_expert_tables is Some
        &&& st.s_cap * st.hidden <= usize::MAX
        &&& p.slots() <= usize::MAX
        &&& p.refusal() is None ==> p.fits() && rows * ctx.config.hidden_size * 2 <= usize::MAX
    }

    /// The routed pipeline and its tail. No other pass may use the shared scratch until
    /// the blend is recorded.
    pub open spec fn exl3_guarded_cmds(
        &self,
        ctx: &ForwardContext,
        p: Exl3Pass,
        input: DevicePtr,
        rows: usize,
    ) -> Seq<Cmd> {
        seq![Cmd::Op(DeviceOp::Exl3DispatchBegin)] + p.cmds(self.kernels.exl3)
            + self.exl3_tail_cmds(ctx, input, rows) + seq![Cmd::Op(DeviceOp::Exl3DispatchEnd)]
    }

    /// Shared expert, sum over ranks, and one blend. The sum comes before the blend, so
    /// the shared expert counts once.
    pub open spec fn exl3_tail_cmds(&self, ctx: &ForwardContext, input: DevicePtr,
        rows: usize) -> Seq<Cmd> {
        let out = ctx.buffers.moe_output;
        let h = ctx.config.hidden_size as u32;
        let shared = ctx.config.shared_expert_intermediate_size as u32;
        (if shared > 0 {
            seq![
                Cmd::Op(DeviceOp::SharedExpert { input: input, n: rows as u32, h: h,
                    inter: shared }),
            ]
        } else {
            Seq::empty()
        }) + (if ctx.expert_parallel() {
            seq![
                Cmd::Op(DeviceOp::AllReduce { ptr: out,
                    bytes: (rows * ctx.config.hidden_size * 2) as usize }),
            ]
        } else {
            Seq::empty()
        }) + (if shared > 0 {
            seq![
                Cmd::Launch(
                    moe_batched_blend_launch(
                        self.kernels.moe_batched_blend, out, ctx.buffers.attn_output, input,
                        self.weights.shared_expert_gate.weight, h, rows as u32,
                    ),
                ),
            ]
        } else {
            Seq::empty()
        })
    }

    fn record_exl3_tail(&self, cb: &mut CommandBuffer, ctx: &ForwardContext, input: DevicePtr,
        rows: usize)
        requires
            rows * ctx.config.hidden_size * 2 <= usize::MAX,
        ensures
            final(cb)@ == old(cb)@ + self.exl3_tail_cmds(ctx, input, rows),
    {
        let ghost before = cb@;
        proof { crate::device::lemma_row_bound(rows as int, rows as int,
            ctx.config.hidden_size as int, 2); }
        let out: DevicePtr = ctx.buffers.moe_output;
        let h: u32 = ctx.config.hidden_size as u32;
        let shared: u32 = ctx.config.shared_expert_intermediate_size as u32;
        if shared > 0 {
            cb.op(DeviceOp::SharedExpert { input: input, n: rows as u32, h: h, inter: shared });
        }
        if ctx.is_expert_parallel() {
            cb.op(DeviceOp::AllReduce { ptr: out, bytes: rows * ctx.config.hidden_size * 2 });
        }
        if shared > 0 {
            moe_batched_blend(
                cb, self.kernels.moe_batched_blend, out, ctx.buffers.attn_output, input,
                self.weights.shared_expert_gate.weight, h, rows as u32,
            );
        }
        assert(cb@ =~= before + self.exl3_tail_cmds(ctx, input, rows));
    }

    /// Records the expert phase for rows that are already routed, and gives where
    /// its result lies.
    pub fn forward_exl3_after_routing(
        &self,
        cb: &mut CommandBuffer,
        input: DevicePtr,
        rows: usize,
        ids: DevicePtr,
        probs: DevicePtr,
        ctx: &ForwardContext,
        env: &EnvVars,
    ) -> (r: Result<DevicePtr, Exl3Error>)
        requires
            self.exl3_refusal(ctx) is None ==> self.exl3_pass_fits(ctx, env, input, rows, ids, probs),
        ensures
            match self.exl3_refusal(ctx) {
                Some(e) => r == Err::<DevicePtr, Exl3Error>(e) && final(cb)@ == old(cb)@,
                None => {
                    let p = self.exl3_pass(ctx, env, input, rows, ids, probs);
                    match p.refusal() {
                        Some(e) => r == Err::<DevicePtr, Exl3Error>(Exl3Error::Decode(e)) && final(cb)@
                            == old(cb)@,
                        None => r == Ok::<DevicePtr, Exl3Error>(ctx.buffers.moe_output) && final(cb)@
                            == old(cb)@ + self.exl3_guarded_cmds(ctx, p, input, rows),
                    }
                },
            },
    {
        if ctx.graph_capture {
            return Err(Exl3Error::GraphCapture);
        }
        if self.router_logits_n as usize != ctx.config.num_experts || self.tid2eid_dev.is_some() {
            return Err(Exl3Error::Routing);
        }
        if self.lora.is_some() {
            return Err(Exl3Error::Lora);
        }
        if self.pre_expert_norm.is_some() {
            return Err(Exl3Error::PreExpertNorm);
        }
        let st: Exl3MoeState = match self.exl3_moe_state {
            Some(st) => st,
            None => {
                return Err(Exl3Error::NoState);
            },
        };
        let t: Exl3Tables = self.exl3_expert_tables.unwrap();
        let pass = Exl3Pass {
            input_bf16: input,
            indices_u32: ids,
            probs_f32: probs,
            out_bf16: ctx.buffers.moe_output,
            gate: to_proj(t.gate),
            up: to_proj(t.up),
            down: to_proj(t.down),
            scratch: to_scratch(st),
            locks: st.locks,
            num_tokens: rows,
            top_k: ctx.config.num_experts_per_tok,
            hidden: ctx.config.hidden_size,
            inter: ctx.config.moe_intermediate_size,
            local_start: t.gate.local_start,
            num_local: t.gate.num_local,
            act_limit: Scalar(0),
            stable_token_grid: stable_grid_enabled(ctx, env, rows),
            sm_count: st.sm_count,
        };
        if let Some(e) = pass.check() {
            return Err(Exl3Error::Decode(e));
        }
        let ghost before = cb@;
        cb.op(DeviceOp::Exl3DispatchBegin);
        match exl3_moe_decode_routed(cb, self.kernels.exl3, &pass) {
            Ok(()) => {},
            Err(e) => {
                return Err(Exl3Error::Decode(e));
            },
        }
        self.record_exl3_tail(cb, ctx, input, rows);
        cb.op(DeviceOp::Exl3DispatchEnd);
        assert(cb@ =~= before + self.exl3_guarded_cmds(ctx, pass, input, rows));
        Ok(ctx.buffers.moe_output)
    }

    /// Records routing and the expert phase of `rows` rows. `router_in` is where the
    /// router's input is left, `input` what the experts read.
    pub fn forward_exl3_decode(
        &self,
        cb: &mut CommandBuffer,
        input: DevicePtr,
        router_in: DevicePtr,
        rows: usize,
        ctx: &ForwardContext,
        env: &EnvVars,
    ) -> (r: Result<(), Exl3Error>)
        requires
            router_fits(ctx, router_in, rows as int),
            !self.refuses_bias(ctx) && self.exl3_refusal(ctx) is None ==> self.exl3_pass_fits(
                ctx,
                env,
                input,
                rows,
                ctx.buffers.scratch,
                Self::probs_at(ctx, rows as int),
            ),
        ensures
            ({
                let routed = old(cb)@.push(
                    Cmd::Op(
                        DeviceOp::RouterInput {
                            input,
                            output: router_in,
                            n: rows as u32,
                            h: ctx.config.hidden_size as u32,
                        },
                    ),
                ) + self.router_cmds(ctx, env, router_in, rows as int);
                if self.refuses_bias(ctx) {
                    r == Err::<(), Exl3Error>(Exl3Error::BiasScoring) && final(cb)@ == routed
                } else {
                    let chosen = routed + self.router_topk_cmds(ctx, env, rows as int);
                    let p = self.exl3_pass(
                        ctx,
                        env,
                        input,
                        rows,
                        ctx.buffers.scratch,
                        Self::probs_at(ctx, rows as int),
                    );
                    match self.exl3_refusal(ctx) {
                        Some(e) => r == Err::<(), Exl3Error>(e) && final(cb)@ == chosen,
                        None => match p.refusal() {
                            Some(e) => r == Err::<(), Exl3Error>(Exl3Error::Decode(e)) && final(cb)@
                                == chosen,
                            None => r is Ok && final(cb)@ == chosen + self.exl3_guarded_cmds(
                                ctx,
                                p,
                                input,
                                rows,
                            ),
                        },
                    }
                }
            }),
    {
        let c: crate::context::ModelConfig = ctx.config;
        cb.op(
            DeviceOp::RouterInput {
                input,
                output: router_in,
                n: rows as u32,
                h: c.hidden_size as u32,
            },
        );
        let ghost before = cb@;
        let by_row: bool = self.exl3_row_router(cb, router_in, rows, ctx, env);
        if !by_row {
            match self.gate_nvfp4 {
                Some(w) => {
                    cb.op(
                        DeviceOp::Matmul {
                            kind: MatmulKind::W4a16Gemm,
                            kernel: self.kernels.w4a16_gemm,
                            input: router_in,
                            weight: WeightRef::Quantized(w),
                            output: ctx.buffers.gate_logits,
                            m: rows as u32,
                            n: c.num_experts as u32,
                            k: c.hidden_size as u32,
                        },
                    );
                },
                None => {
                    cb.op(
                        DeviceOp::Matmul {
                            kind: MatmulKind::DenseGemm,
                            kernel: self.kernels.dense_gemm,
                            input: router_in,
                            weight: WeightRef::Dense(self.weights.gate),
                            output: ctx.buffers.gate_logits,
                            m: rows as u32,
                            n: c.num_experts as u32,
                            k: c.hidden_size as u32,
                        },
                    );
                },
            }
        }
        assert(cb@ =~= before + self.router_cmds(ctx, env, router_in, rows as int));
        let ghost routed = cb@;
        proof {
            lemma_probs_fit(ctx, rows as int);
        }
        let probs: DevicePtr = ctx.buffers.scratch.row(rows, 2 * rows, c.num_experts_per_tok, 4);
        if by_row {
            match self.exl3_row_topk(cb, rows, ctx) {
                Ok(()) => {},
                Err(e) => {
                    return Err(e);
                },
            }
        } else {
            if self.correction_bias_dev.is_some() && do_scores_refuse_bias(c.scoring_func) {
                return Err(Exl3Error::BiasScoring);
            }
            self.record_topk(
                cb,
                ctx,
                true,
                ctx.buffers.gate_logits,
                ctx.buffers.scratch,
                probs,
                rows as u32,
            );
        }
        assert(cb@ =~= routed + self.router_topk_cmds(ctx, env, rows as int));
        match self.forward_exl3_after_routing(cb, input, rows, ctx.buffers.scratch, probs, ctx, env) {
            Ok(_) => Ok(()),
            Err(e) => Err(e),
        }
    }
}

/// Operands of one projection.
pub open spec fn proj_of(t: Exl3ExpertPtrTable) -> Exl3MoeProj {
    Exl3MoeProj {
        trellis_ptrs: t.trellis_ptrs,
        suh_ptrs: t.suh_ptrs,
        svh_ptrs: t.svh_ptrs,
        k_bits: t.k_bits,
        cb: t.cb,
    }
}

fn to_proj(t: Exl3ExpertPtrTable) -> (r: Exl3MoeProj)
    ensures
        r == proj_of(t),
{
    Exl3MoeProj {
        trellis_ptrs: t.trellis_ptrs,
        suh_ptrs: t.suh_ptrs,
        svh_ptrs: t.svh_ptrs,
        k_bits: t.k_bits,
        cb: t.cb,
    }
}

/// Slabs of a layer's state.
pub open spec fn scratch_of(st: Exl3MoeState) -> Exl3MoeScratch {
    Exl3MoeScratch {
        a_f16: st.a_f16,
        a_had_f16: st.a_had_f16,
        a_had_capacity_elems: (st.s_cap * st.hidden) as usize,
        c_gate_f16: st.c_gate_f32,
        c_up_f16: st.c_up_f32,
        inter_f16: st.inter_f16,
        c_down_f32: st.c_down_f32,
        b_indices: st.b_indices,
        b_weights: st.b_weights,
        s_cap: st.s_cap,
    }
}

fn to_scratch(st: Exl3MoeState) -> (r: Exl3MoeScratch)
    requires
        st.s_cap * st.hidden <= usize::MAX,
    ensures
        r == scratch_of(st),
{
    Exl3MoeScratch {
        a_f16: st.a_f16,
        a_had_f16: st.a_had_f16,
        a_had_capacity_elems: st.s_cap * st.hidden,
        c_gate_f16: st.c_gate_f32,
        c_up_f16: st.c_up_f32,
        inter_f16: st.inter_f16,
        c_down_f32: st.c_down_f32,
        b_indices: st.b_indices,
        b_weights: st.b_weights,
        s_cap: st.s_cap,
    }
}

proof fn lemma_probs_fit(ctx: &ForwardContext, rows: int)
    requires
        router_fits(ctx, DevicePtr(0), rows),
        0 <= rows,
    ensures
        MoeLayer::probs_at(ctx, rows).holds(rows, ctx.config.num_experts_per_tok as int, 4),
{
    let k = ctx.config.num_experts_per_tok as int;
    crate::device::lemma_row_bound(rows, 2 * rows, k, 4);
    assert((2 * rows) * k * 4 == rows * k * 4 + rows * k * 4) by (nonlinear_arith);
}

/// Ids and probabilities of all rows do not overlap.
pub proof fn law_ids_and_probs_are_disjoint(ctx: &ForwardContext, rows: int, i: int, j: int)
    requires
        router_fits(ctx, DevicePtr(0), rows),
        0 <= i < rows,
        0 <= j < rows,
    ensures
        ctx.buffers.scratch.row_at(i, ctx.config.num_experts_per_tok as int, 4).0
            + ctx.config.num_experts_per_tok * 4 <= MoeLayer::probs_at(ctx, rows).row_at(
            j,
            ctx.config.num_experts_per_tok as int,
            4,
        ).0,
{
    let k = ctx.config.num_experts_per_tok as int;
    lemma_probs_fit(ctx, rows);
    crate::device::lemma_row_bound(i, 2 * rows, k, 4);
    crate::device::lemma_row_bound(j, rows, k, 4);
    crate::device::lemma_row_bound(rows, 2 * rows, k, 4);
    assert(i * k * 4 + k * 4 <= rows * k * 4) by (nonlinear_arith)
        requires
            0 <= i < rows,
            0 <= k,
    ;
}

/// The shared expert counts once: its blend is the only launch behind the routed
/// experts, and the sum over ranks comes before it.
pub proof fn law_shared_expert_counts_once(
    layer: &MoeLayer,
    ctx: &ForwardContext,
    input: DevicePtr,
    rows: usize,
    i: int,
    j: int,
)
    requires
        0 <= i < layer.exl3_tail_cmds(ctx, input, rows).len(),
        0 <= j < layer.exl3_tail_cmds(ctx, input, rows).len(),
        layer.exl3_tail_cmds(ctx, input, rows)[j] is Launch,
    ensures
        layer.exl3_tail_cmds(ctx, input, rows)[i] is Launch ==> i == j,
        layer.exl3_tail_cmds(ctx, input, rows)[i] matches Cmd::Op(DeviceOp::AllReduce { .. }) ==> i < j,
{
}

/// Product of every slot's row with its expert's codes in `t`.
pub open spec fn decoded(
    t: Exl3ExpertPtrTable,
    rows: Held,
    experts: Held,
    weights: Option<Box<Held>>,
    k: usize,
    n: usize,
    slots: int,
    results: usize,
    wide: bool,
) -> Held {
    Held::Trellis(
        Trellis {
            rows: Box::new(rows),
            trellis_ptrs: t.trellis_ptrs,
            suh_ptrs: t.suh_ptrs,
            svh_ptrs: t.svh_ptrs,
            k_bits: t.k_bits,
            codebook: t.cb,
            experts: Some(Box::new(experts)),
            weights,
            rows_per_slot: 1,
            k,
            n,
            slots_in: slots as usize,
            slots_out: slots as usize,
            results,
            wide,
        },
    )
}

impl MoeLayer {
    /// No two of the buffers that the trellis pipeline reads and writes are the same.
    pub open spec fn exl3_apart(
        &self,
        ctx: &ForwardContext,
        input: DevicePtr,
        ids: DevicePtr,
        probs: DevicePtr,
    ) -> bool {
        let st = self.exl3_moe_state->0;
        seq![
            input,
            ids,
            probs,
            st.a_f16,
            st.a_had_f16,
            st.c_gate_f32,
            st.c_up_f32,
            st.inter_f16,
            st.c_down_f32,
            st.b_indices,
            st.b_weights,
            ctx.buffers.moe_output,
            ctx.buffers.attn_output,
        ].no_duplicates()
    }

    /// What the experts of this layer make of rows: every row goes to each of its
    /// experts, `down(silu(gate(x)) * up(x))` there, and the results are summed with the
    /// routing weights.
    pub open spec fn exl3_result(
        &self,
        ctx: &ForwardContext,
        x: Held,
        ids: Held,
        probs: Held,
        rows: usize,
    ) -> Held {
        let t = self.exl3_expert_tables->0;
        let c = ctx.config;
        let slots = rows * c.num_experts_per_tok;
        let start = (t.gate.local_start as i32) as int;
        let held = (t.gate.num_local as i32) as int;
        let (h, inter) = (c.hidden_size, c.moe_intermediate_size);
        let each = Held::Repeated {
            rows: Box::new(x),
            times: (c.num_experts_per_tok as i32) as int,
            width: h as int,
            total: slots * h,
        };
        let experts = Held::LocalExperts { ids: Box::new(ids), start, held, slots };
        let weights = Held::LocalWeights {
            ids: Box::new(ids),
            probs: Box::new(probs),
            start,
            held,
            slots,
        };
        let act = Held::Gated {
            gate: Box::new(decoded(t.gate, each, experts, None, h, inter, slots, 1, false)),
            up: Box::new(decoded(t.up, each, experts, None, h, inter, slots, 1, false)),
            kernel: self.kernels.exl3.silu_mul,
            limit: Scalar(0),
            count: slots * inter,
        };
        Held::Rounded {
            of: Box::new(
                decoded(
                    t.down,
                    act,
                    experts,
                    Some(Box::new(weights)),
                    inter,
                    h,
                    slots,
                    rows,
                    true,
                ),
            ),
            count: rows * h,
        }
    }
}

proof fn lemma_exl3_apart(
    layer: &MoeLayer,
    ctx: &ForwardContext,
    input: DevicePtr,
    ids: DevicePtr,
    probs: DevicePtr,
    i: int,
    j: int,
)
    requires
        layer.exl3_apart(ctx, input, ids, probs),
        0 <= i < j < 13,
    ensures
        ({
            let st = layer.exl3_moe_state->0;
            let s = seq![
                input,
                ids,
                probs,
                st.a_f16,
                st.a_had_f16,
                st.c_gate_f32,
                st.c_up_f32,
                st.inter_f16,
                st.c_down_f32,
                st.b_indices,
                st.b_weights,
                ctx.buffers.moe_output,
                ctx.buffers.attn_output,
            ];
            s[i].0 != s[j].0
        }),
{
}

#[verifier::rlimit(50)]
proof fn lemma_exl3_pipeline(
    layer: &MoeLayer,
    ctx: &ForwardContext,
    env: &EnvVars,
    input: DevicePtr,
    rows: usize,
    ids: DevicePtr,
    probs: DevicePtr,
    places: Places,
    m: Memory,
)
    requires
        layer.exl3_apart(ctx, input, ids, probs),
        layer.exl3_pass_fits(ctx, env, input, rows, ids, probs),
        layer.exl3_pass(ctx, env, input, rows, ids, probs).refusal() is None,
    ensures
        ({
            let p = layer.exl3_pass(ctx, env, input, rows, ids, probs);
            &&& run(places, m, p.cmds(layer.kernels.exl3)) matches Some(v)
            &&& v.held(ctx.buffers.moe_output) == layer.exl3_result(
                ctx,
                m.held(input),
                m.held(ids),
                m.held(probs),
                rows,
            )
            &&& v.held(input) == m.held(input)
        }),
{
    reveal(after_op);
    let st = layer.exl3_moe_state->0;
    let p = layer.exl3_pass(ctx, env, input, rows, ids, probs);
    let k = layer.kernels.exl3;
    let c = p.cmds(k);
    let all = seq![
        input,
        ids,
        probs,
        st.a_f16,
        st.a_had_f16,
        st.c_gate_f32,
        st.c_up_f32,
        st.inter_f16,
        st.c_down_f32,
        st.b_indices,
        st.b_weights,
        ctx.buffers.moe_output,
        ctx.buffers.attn_output,
    ];
    assert forall|i: int, j: int| 0 <= i < j < 13 implies (#[trigger] all[i]).0 != (
    #[trigger] all[j]).0 by {
        lemma_exl3_apart(layer, ctx, input, ids, probs, i, j);
    }
    assert(c =~= seq![c[0], c[1], c[2]] + seq![c[3], c[4], c[5]] + seq![c[6]]);
    let a = seq![c[0], c[1], c[2]];
    let b = seq![c[3], c[4], c[5]];
    lemma_run_add(places, m, a + b, seq![c[6]]);
    lemma_run_add(places, m, a, b);
    lemma_run_three(places, m, c[0], c[1], c[2]);
    let slots = p.slots();
    lemma_localise_launch(
        m, c[0]->Launch_0, ids, probs, st.b_indices, st.b_weights, p.local_start as i32,
        p.num_local as i32, slots as u64,
    );
    let m1 = after(places, m, c[0])->0;
    lemma_repeat_launch(
        m1, c[1]->Launch_0, input, st.a_f16, p.top_k as i32, p.hidden as u64,
        (slots * p.hidden) as usize as u64,
    );
    let m2 = after(places, m1, c[1])->0;
    assert(m1.held(input) == m.held(input)) by {
        assert(all[0].0 != all[9].0 && all[0].0 != all[10].0);
    }
    let m3 = after(places, m2, c[2])->0;
    lemma_run_three(places, m3, c[3], c[4], c[5]);
    let m4 = after(places, m3, c[3])->0;
    lemma_slots_even(slots, p.inter as int);
    lemma_silu_pairs_launch(
        m4, c[4]->Launch_0, st.c_gate_f32, st.c_up_f32, st.inter_f16, Scalar(0),
        ((slots * p.inter) as usize / 2) as u64,
    );
    let m5 = after(places, m4, c[4])->0;
    let m6 = after(places, m5, c[5])->0;
    lemma_run_one(places, m6, c[6]);
    assert(all[3].0 != all[4].0);
}

proof fn lemma_slots_even(slots: int, inter: int)
    requires
        inter % 128 == 0,
    ensures
        2 * ((slots * inter) / 2) == slots * inter,
{
    let half = inter / 2;
    let q = slots * half;
    assert(inter == 2 * half);
    assert(slots * inter == 2 * q) by (nonlinear_arith)
        requires
            inter == 2 * half,
            q == slots * half,
    ;
}

/// A pass that is not refused leaves what the experts of this layer make of its rows,
/// summed over the ranks, with the gated shared expert added once: silu is applied to the
/// product with the codes of the gating table, which is multiplied with the product with the up
/// table's codes of the same rows.
#[verifier::rlimit(50)]
pub proof fn law_trellis_pass_applies_its_experts(
    layer: &MoeLayer,
    ctx: &ForwardContext,
    env: &EnvVars,
    input: DevicePtr,
    rows: usize,
    ids: DevicePtr,
    probs: DevicePtr,
    places: Places,
    m: Memory,
)
    requires
        layer.exl3_refusal(ctx) is None,
        layer.exl3_pass(ctx, env, input, rows, ids, probs).refusal() is None,
        layer.exl3_pass_fits(ctx, env, input, rows, ids, probs),
        layer.exl3_apart(ctx, input, ids, probs),
        places.shared_out == ctx.buffers.attn_output,
    ensures
        ({
            let p = layer.exl3_pass(ctx, env, input, rows, ids, probs);
            let h = ctx.config.hidden_size;
            let shared = ctx.config.shared_expert_intermediate_size as u32;
            let routed = layer.exl3_result(ctx, m.held(input), m.held(ids), m.held(probs), rows);
            let summed = if ctx.expert_parallel() {
                Held::Summed { of: Box::new(routed), bytes: rows * h * 2 }
            } else {
                routed
            };
            let blended = Held::Blended {
                routed: Box::new(summed),
                shared: Box::new(
                    Held::Shared {
                        rows: Box::new(m.held(input)),
                        count: (rows as u32) as int,
                        h: (h as u32) as int,
                        inter: shared as int,
                    },
                ),
                input: Box::new(m.held(input)),
                gate: layer.weights.shared_expert_gate.weight,
                h: (h as u32) as int,
                rows: (rows as u32) as int,
            };
            &&& run(places, m, layer.exl3_guarded_cmds(ctx, p, input, rows)) matches Some(v)
            &&& v.held(ctx.buffers.moe_output) == (if shared > 0 {
                blended
            } else {
                summed
            })
        }),
{
    reveal(after_op);
    let p = layer.exl3_pass(ctx, env, input, rows, ids, probs);
    let st = layer.exl3_moe_state->0;
    let begin = seq![Cmd::Op(DeviceOp::Exl3DispatchBegin)];
    let end = seq![Cmd::Op(DeviceOp::Exl3DispatchEnd)];
    let pipeline = p.cmds(layer.kernels.exl3);
    let tail = layer.exl3_tail_cmds(ctx, input, rows);
    lemma_run_add(places, m, begin + pipeline + tail, end);
    lemma_run_add(places, m, begin + pipeline, tail);
    lemma_run_add(places, m, begin, pipeline);
    lemma_run_one(places, m, begin[0]);
    lemma_exl3_pipeline(layer, ctx, env, input, rows, ids, probs, places, m);
    let m1 = run(places, m, pipeline)->0;
    let out = ctx.buffers.moe_output;
    let shared = ctx.config.shared_expert_intermediate_size as u32;
    lemma_exl3_apart(layer, ctx, input, ids, probs, 0, 11);
    lemma_exl3_apart(layer, ctx, input, ids, probs, 0, 12);
    lemma_exl3_apart(layer, ctx, input, ids, probs, 11, 12);
    assert(out.0 != ctx.buffers.attn_output.0 && input.0 != out.0 && input.0
        != ctx.buffers.attn_output.0);
    if tail.len() == 0 {
        assert(run(places, m1, tail) == Some(m1));
    } else if tail.len() == 1 {
        assert(tail =~= seq![tail[0]]);
        lemma_run_one(places, m1, tail[0]);
    } else if tail.len() == 2 {
        assert(tail =~= seq![tail[0], tail[1]]);
        lemma_run_two(places, m1, tail[0], tail[1]);
        let m2 = after(places, m1, tail[0])->0;
        lemma_blend_launch(
            m2, tail[1]->Launch_0, out, ctx.buffers.attn_output, input,
            layer.weights.shared_expert_gate.weight, ctx.config.hidden_size as u32, rows as u32,
        );
    } else {
        assert(tail =~= seq![tail[0], tail[1], tail[2]]);
        lemma_run_three(places, m1, tail[0], tail[1], tail[2]);
        let m2 = after(places, m1, tail[0])->0;
        let m3 = after(places, m2, tail[1])->0;
        lemma_blend_launch(
            m3, tail[2]->Launch_0, out, ctx.buffers.attn_output, input,
            layer.weights.shared_expert_gate.weight, ctx.config.hidden_size as u32, rows as u32,
        );
    }
    lemma_run_one(places, run(places, m1, tail)->0, end[0]);
}

/// All work of a pass lies between the beginning and the end of its use of the shared
/// scratch.
pub proof fn law_trellis_scratch_is_guarded(
    layer: &MoeLayer,
    ctx: &ForwardContext,
    p: Exl3Pass,
    input: DevicePtr,
    rows: usize,
    i: int,
)
    requires
        0 <= i < layer.exl3_guarded_cmds(ctx, p, input, rows).len(),
    ensures
        ({
            let all = layer.exl3_guarded_cmds(ctx, p, input, rows);
            &&& all[i] == Cmd::Op(DeviceOp::Exl3DispatchBegin) <==> i == 0
            &&& all[i] == Cmd::Op(DeviceOp::Exl3DispatchEnd) <==> i == all.len() - 1
        }),
{
    let pipeline = p.cmds(layer.kernels.exl3);
    let tail = layer.exl3_tail_cmds(ctx, input, rows);
    let all = layer.exl3_guarded_cmds(ctx, p, input, rows);
    if 1 <= i < 1 + pipeline.len() {
        assert(all[i] == pipeline[i - 1]);
    } else if 1 + pipeline.len() <= i < all.len() - 1 {
        assert(all[i] == tail[i - 1 - pipeline.len()]);
    }
}

/// Router input, scores, and chosen experts with their probabilities do not overlap, and
/// a row of scores has room for all of them.
pub open spec fn router_apart(l: &MoeLayer, ctx: &ForwardContext, input: DevicePtr, rows: int) -> bool {
    let c = ctx.config;
    let b = ctx.buffers;
    let chosen = 2 * rows * (4 * c.num_experts_per_tok);
    &&& 0 < rows
    &&& 0 < c.hidden_size
    &&& 0 < l.router_logits_n <= c.num_experts
    &&& 0 < c.num_experts_per_tok
    &&& disjoint(input, rows * (2 * c.hidden_size), b.gate_logits, rows * (2 * c.num_experts))
    &&& disjoint(b.gate_logits, rows * (2 * c.num_experts), b.scratch, chosen)
}

impl MoeLayer {
    /// Scores of a row, where rows are routed one by one.
    pub open spec fn scores_of(&self, ctx: &ForwardContext, row: Held) -> Held {
        Held::Product {
            row: Box::new(row),
            weight: match self.gate_nvfp4 {
                Some(w) => WeightRef::Quantized(w),
                None => WeightRef::Dense(self.weights.gate),
            },
            n: self.router_logits_n,
            k: ctx.config.hidden_size as u32,
        }
    }
}

proof fn lemma_rows_apart(i: int, j: int, w: int)
    by (nonlinear_arith)
    requires
        i < j,
        w >= 0,
    ensures
        i * w + w <= j * w,
{
}

proof fn lemma_row_at(p: DevicePtr, rows: int, i: int, dim: int, elem: int)
    requires
        p.holds(rows, dim, elem),
        0 <= i < rows,
        0 <= dim,
        0 < elem,
    ensures
        p.row_at(i, dim, elem).0 == p.0 + i * (elem * dim),
        0 <= i * (elem * dim),
        i * (elem * dim) + elem * dim <= rows * (elem * dim),
{
    assert(i * dim * elem == i * (elem * dim) && rows * dim * elem == rows * (elem * dim) && 0 <= i * (elem
        * dim) && i * (elem * dim) + elem * dim <= rows * (elem * dim)) by (nonlinear_arith)
        requires
            0 <= i < rows,
            0 <= dim,
            0 < elem,
    ;
}

/// Where rows are routed one by one, every row has the scores of its own input.
#[verifier::rlimit(50)]
pub proof fn law_rows_are_scored_alone(
    l: &MoeLayer,
    ctx: &ForwardContext,
    input: DevicePtr,
    rows: int,
    n: nat,
    places: Places,
    m: Memory,
)
    requires
        router_fits(ctx, input, rows),
        router_apart(l, ctx, input, rows),
        n <= rows,
    ensures
        ({
            let c = ctx.config;
            let w = 2 * c.num_experts;
            let logits = ctx.buffers.gate_logits;
            &&& run(places, m, l.route_rows_cmds(ctx, input, n)) matches Some(v)
            &&& forall|i: int|
                0 <= i < n ==> #[trigger] v.row(logits, i, w) == l.scores_of(
                    ctx,
                    m.row(input, i, 2 * c.hidden_size),
                )
            &&& forall|a: int|
                a < logits.0 || logits.0 + n * w <= a ==> #[trigger] (v.at)(a) == (m.at)(a)
        }),
    decreases n,
{
    let c = ctx.config;
    let (w, h) = (2 * c.num_experts, 2 * c.hidden_size);
    let logits = ctx.buffers.gate_logits;
    let nl = 2 * l.router_logits_n;
    if n > 0 {
        let p = n - 1;
        law_rows_are_scored_alone(l, ctx, input, rows, p as nat, places, m);
        let t = run(places, m, l.route_rows_cmds(ctx, input, p as nat))->0;
        let cmd = l.route_row_cmd(ctx, input, p);
        assert(l.route_rows_cmds(ctx, input, n) =~= l.route_rows_cmds(ctx, input, p as nat).push(cmd));
        lemma_run_push(places, m, l.route_rows_cmds(ctx, input, p as nat), cmd);
        if l.gate_nvfp4 is Some {
            lemma_after_router(places, t, cmd->Op_0);
        } else {
            lemma_after_matmul(places, t, cmd->Op_0);
        }
        let v = after(places, t, cmd)->0;
        lemma_row_at(input, rows, p, c.hidden_size as int, 2);
        lemma_row_at(logits, rows, p, c.num_experts as int, 2);
        assert(n * w == p * w + w) by (nonlinear_arith)
            requires
                n == p + 1,
        ;
        assert(t.row(input, p, h) == m.row(input, p, h));
        let y = logits.0 + p * w;
        assert forall|i: int| 0 <= i < n implies #[trigger] v.row(logits, i, w) == l.scores_of(
            ctx,
            m.row(input, i, h),
        ) by {
            if i < p {
                assert(t.row(logits, i, w) == l.scores_of(ctx, m.row(input, i, h)));
                lemma_rows_apart(i, p, w);
                lemma_one_row_miss(logits.0 + i * w, y, nl, nl);
            } else {
                lemma_row_hit(y, nl, nl, 1, 0);
            }
        }
        assert forall|a: int| a < logits.0 || logits.0 + n * w <= a implies #[trigger] (v.at)(a) == (m.at)(
            a,
        ) by {
            lemma_one_row_miss(a, y, nl, nl);
            assert((t.at)(a) == (m.at)(a));
        }
    } else {
        assert(l.route_rows_cmds(ctx, input, 0) =~= Seq::empty());
        assert(0 * w == 0) by (nonlinear_arith);
    }
}

/// Where rows choose one by one, every row's experts and probabilities come from its own
/// scores; ids of all rows come first, then probabilities of all rows.
#[verifier::rlimit(50)]
pub proof fn law_rows_choose_alone(
    l: &MoeLayer,
    ctx: &ForwardContext,
    input: DevicePtr,
    rows: int,
    n: nat,
    places: Places,
    m: Memory,
)
    requires
        router_fits(ctx, input, rows),
        router_apart(l, ctx, input, rows),
        n <= rows,
    ensures
        ({
            let c = ctx.config;
            let (w, k) = (2 * c.num_experts, 4 * c.num_experts_per_tok);
            let (logits, scratch) = (ctx.buffers.gate_logits, ctx.buffers.scratch);
            &&& run(places, m, l.topk_rows_cmds(ctx, rows, n)) matches Some(v)
            &&& forall|i: int|
                0 <= i < n ==> #[trigger] v.row(scratch, i, k) == (Held::Chosen {
                    scores: Box::new(m.row(logits, i, w)),
                    bias: l.correction_bias_dev,
                    experts: c.num_experts as u32,
                    top_k: c.num_experts_per_tok as u32,
                    normalise: c.norm_topk_prob,
                })
            &&& forall|i: int|
                0 <= i < n ==> #[trigger] (v.at)(scratch.0 + rows * k + i * k) == (Held::Probabilities {
                    scores: Box::new(m.row(logits, i, w)),
                    bias: l.correction_bias_dev,
                    experts: c.num_experts as u32,
                    top_k: c.num_experts_per_tok as u32,
                    normalise: c.norm_topk_prob,
                })
            &&& forall|a: int|
                a < scratch.0 || scratch.0 + 2 * rows * k <= a ==> #[trigger] (v.at)(a) == (m.at)(a)
        }),
    decreases n,
{
    let c = ctx.config;
    let (w, k) = (2 * c.num_experts, 4 * c.num_experts_per_tok);
    let kk = c.num_experts_per_tok as int;
    let (logits, scratch) = (ctx.buffers.gate_logits, ctx.buffers.scratch);
    if n > 0 {
        let p = n - 1;
        law_rows_choose_alone(l, ctx, input, rows, p as nat, places, m);
        let t = run(places, m, l.topk_rows_cmds(ctx, rows, p as nat))->0;
        let probs = MoeLayer::probs_at(ctx, rows).row_at(p, kk, 4);
        let cmd = l.topk_cmd(
            ctx,
            false,
            logits.row_at(p, c.num_experts as int, 2),
            scratch.row_at(p, kk, 4),
            probs,
            1,
        );
        assert(l.topk_rows_cmds(ctx, rows, n) =~= l.topk_rows_cmds(ctx, rows, p as nat).push(cmd));
        lemma_run_push(places, m, l.topk_rows_cmds(ctx, rows, p as nat), cmd);
        lemma_after_router(places, t, cmd->Op_0);
        let v = after(places, t, cmd)->0;
        lemma_row_at(logits, rows, p, c.num_experts as int, 2);
        lemma_row_at(scratch, 2 * rows, p, kk, 4);
        lemma_row_at(scratch, 2 * rows, rows, kk, 4);
        lemma_row_at(scratch, 2 * rows, rows + p, kk, 4);
        assert(p * kk * 4 == p * k && rows * k + p * k == (rows + p) * k && 0 <= p * k && p * k + k <= rows
            * k && 2 * rows * k == rows * k + rows * k) by (nonlinear_arith)
            requires
                k == 4 * kk,
                0 <= p < rows,
                0 < kk,
        ;
        assert(probs.0 == scratch.0 + rows * k + p * k);
        assert(t.row(logits, p, w) == m.row(logits, p, w));
        assert forall|i: int| 0 <= i < n implies #[trigger] v.row(scratch, i, k) == (Held::Chosen {
            scores: Box::new(m.row(logits, i, w)),
            bias: l.correction_bias_dev,
            experts: c.num_experts as u32,
            top_k: c.num_experts_per_tok as u32,
            normalise: c.norm_topk_prob,
        }) by {
            if i < p {
                lemma_rows_apart(i, p, k);
                assert(t.row(scratch, i, k) == (Held::Chosen {
                    scores: Box::new(m.row(logits, i, w)),
                    bias: l.correction_bias_dev,
                    experts: c.num_experts as u32,
                    top_k: c.num_experts_per_tok as u32,
                    normalise: c.norm_topk_prob,
                }));
            }
        }
        assert forall|i: int| 0 <= i < n implies #[trigger] (v.at)(scratch.0 + rows * k + i * k) == (
        Held::Probabilities {
            scores: Box::new(m.row(logits, i, w)),
            bias: l.correction_bias_dev,
            experts: c.num_experts as u32,
            top_k: c.num_experts_per_tok as u32,
            normalise: c.norm_topk_prob,
        }) by {
            if i < p {
                lemma_rows_apart(i, p, k);
                lemma_row_at(scratch, 2 * rows, i, kk, 4);
            }
        }
    } else {
        assert(l.topk_rows_cmds(ctx, rows, 0) =~= Seq::empty());
    }
}

} // verus!
