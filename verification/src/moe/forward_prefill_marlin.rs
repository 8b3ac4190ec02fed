//! Small batches through two grouped products of the Marlin kernel.
use crate::context::ForwardContext;
use crate::dataflow::{
    after, after_op, lemma_after_routes, lemma_run_add, lemma_run_one, lemma_run_push, lemma_run_three, run,
    Held, Memory, Places, RouteList,
};
use crate::device::{Cmd, CommandBuffer, DevicePtr};
use crate::env::EnvVars;
use crate::moe::layer::MoeLayer;
use crate::moe::marlin_weights::MarlinMoeWeights;
use crate::ops_table::DeviceOp;
use vstd::prelude::*;

verus! {

/// Operands of one routed pass.
#[derive(Debug, Clone, Copy, PartialEq, Eq, Structural)]
pub struct RoutedRows {
    pub input: DevicePtr,
    pub indices: DevicePtr,
    pub weights: DevicePtr,
    pub output: DevicePtr,
    pub n: u32,
}

/// More than one rank takes part.
pub open spec fn many_ranks(ctx: &ForwardContext) -> bool {
    ctx.comm_world_size matches Some(w) && w > 1
}

fn has_many_ranks(ctx: &ForwardContext) -> (r: bool)
    ensures
        r == many_ranks(ctx),
{
    match ctx.comm_world_size {
        Some(w) => w > 1,
        None => false,
    }
}

impl MoeLayer {
    /// A decode batch goes through the Marlin kernel.
    pub open spec fn takes_marlin_decode(&self, ctx: &ForwardContext, num_tokens: int) -> bool {
        &&& 4 <= num_tokens <= 8
        &&& self.marlin is Some
        &&& self.lora is None
        &&& !many_ranks(ctx)
    }

    /// A routed pass goes through the Marlin kernel.
    pub open spec fn takes_marlin(&self, ctx: &ForwardContext, n: u32) -> bool {
        &&& self.marlin is Some
        &&& 4 <= n <= 8
        &&& self.pre_expert_norm is None
        &&& self.lora is None
        &&& ctx.config.shared_expert_intermediate_size != 0
        &&& !many_ranks(ctx)
    }

    /// Records the whole layer where the batch goes through the Marlin kernel, and
    /// says whether it does.
    pub fn try_marlin_decode(
        &self,
        cb: &mut CommandBuffer,
        input: DevicePtr,
        num_tokens: usize,
        ctx: &ForwardContext,
    ) -> (r: bool)
        ensures
            r == self.takes_marlin_decode(ctx, num_tokens as int),
            final(cb)@ == (if r {
                old(cb)@.push(Cmd::Op(DeviceOp::MoePrefill { input, n: num_tokens }))
            } else {
                old(cb)@
            }),
    {
        if num_tokens < 4 || num_tokens > 8 || self.marlin.is_none() || self.lora.is_some()
            || has_many_ranks(ctx) {
            return false;
        }
        cb.op(DeviceOp::MoePrefill { input, n: num_tokens });
        true
    }

    /// Both grouped products and the blend with the shared expert. The routing lists
    /// take 512 sorted ids and 64 expert ids: at most 64 routes reach 64 experts, each
    /// padded to a block of eight rows.
    pub open spec fn marlin_cmds(&self, ctx: &ForwardContext, env: &EnvVars, m: MarlinMoeWeights,
        x: RoutedRows) -> Seq<Cmd> {
        let sorted = ctx.buffers.gate_logits;
        let experts = ctx.buffers.gate_logits.at(2048);
        let padded = ctx.buffers.gate_logits.at(2304);
        let routes = (x.n * 8) as u32;
        seq![
            Cmd::Op(DeviceOp::MarlinAlign { ids: x.indices, sorted: sorted, experts: experts,
                padded: padded, tokens: x.n }),
            Cmd::Op(DeviceOp::MarlinGemm { a: x.input, weights: m.w13, output: m.w13_out,
                reduce_tmp: m.reduce_tmp, scales: m.w13_scales, global_scales: m.w13_global,
                sorted: sorted, experts: experts, padded: padded, topk_weights: x.weights,
                top_k: 8, mul_topk_weights: false, m: x.n, n: 1024, k: 2048,
                workspace: m.workspace }),
            Cmd::Op(DeviceOp::MarlinSiluMul { gate_up: m.w13_out,
                output: ctx.buffers.expert_gate_out, routes: routes, intermediate: 512 }),
            Cmd::Op(DeviceOp::MarlinGemm { a: ctx.buffers.expert_gate_out, weights: m.w2,
                output: ctx.buffers.expert_down_out, reduce_tmp: m.reduce_tmp, scales: m.w2_scales,
                global_scales: m.w2_global, sorted: sorted, experts: experts, padded: padded,
                topk_weights: x.weights, top_k: 1, mul_topk_weights: false, m: routes, n: 2048,
                k: 512, workspace: m.workspace }),
        ] + (if !ctx.profile && !env.says("ATLAS_MOE_MARLIN_SHARED_OVERLAP"@, "0"@) {
            seq![
                Cmd::Op(DeviceOp::WaitEvent { event: self.event_b }),
            ]
        } else {
            Seq::empty()
        }) + seq![
            Cmd::Op(DeviceOp::WeightedSumBlend { kernel: self.kernels.moe_weighted_sum_blend_token_major,
                output: x.output, experts: ctx.buffers.expert_down_out, weights: x.weights,
                shared: ctx.buffers.attn_output, input: x.input,
                shared_gate: self.weights.shared_expert_gate.weight, hidden: 2048, top_k: 8,
                input_dim: 2048, tokens: x.n }),
        ]
    }

    fn record_marlin(&self, cb: &mut CommandBuffer, ctx: &ForwardContext, env: &EnvVars,
        m: MarlinMoeWeights, x: &RoutedRows)
        requires
            x.n <= 8,
            ctx.buffers.gate_logits.spans(2304),
        ensures
            final(cb)@ == old(cb)@ + self.marlin_cmds(ctx, env, m, *x),
    {
        let ghost before = cb@;
        let sorted: DevicePtr = ctx.buffers.gate_logits;
        let experts: DevicePtr = ctx.buffers.gate_logits.offset(2048);
        let padded: DevicePtr = ctx.buffers.gate_logits.offset(2304);
        let routes: u32 = x.n * 8;
        cb.op(DeviceOp::MarlinAlign { ids: x.indices, sorted: sorted, experts: experts,
            padded: padded, tokens: x.n });
        cb.op(DeviceOp::MarlinGemm { a: x.input, weights: m.w13, output: m.w13_out,
            reduce_tmp: m.reduce_tmp, scales: m.w13_scales, global_scales: m.w13_global,
            sorted: sorted, experts: experts, padded: padded, topk_weights: x.weights, top_k: 8,
            mul_topk_weights: false, m: x.n, n: 1024, k: 2048, workspace: m.workspace });
        cb.op(DeviceOp::MarlinSiluMul { gate_up: m.w13_out, output: ctx.buffers.expert_gate_out,
            routes: routes, intermediate: 512 });
        cb.op(DeviceOp::MarlinGemm { a: ctx.buffers.expert_gate_out, weights: m.w2,
            output: ctx.buffers.expert_down_out, reduce_tmp: m.reduce_tmp, scales: m.w2_scales,
            global_scales: m.w2_global, sorted: sorted, experts: experts, padded: padded,
            topk_weights: x.weights, top_k: 1, mul_topk_weights: false, m: routes, n: 2048, k: 512,
            workspace: m.workspace });
        if !ctx.profile && !env.is("ATLAS_MOE_MARLIN_SHARED_OVERLAP", "0") {
            cb.op(DeviceOp::WaitEvent { event: self.event_b });
        }
        cb.op(DeviceOp::WeightedSumBlend { kernel: self.kernels.moe_weighted_sum_blend_token_major,
            output: x.output, experts: ctx.buffers.expert_down_out, weights: x.weights,
            shared: ctx.buffers.attn_output, input: x.input,
            shared_gate: self.weights.shared_expert_gate.weight, hidden: 2048, top_k: 8,
            input_dim: 2048, tokens: x.n });
        assert(cb@ =~= before + self.marlin_cmds(ctx, env, m, *x));
    }

    /// Records both products and the blend where the pass goes through the Marlin
    /// kernel, and says whether it does.
    pub fn try_marlin_prefill(
        &self,
        cb: &mut CommandBuffer,
        x: &RoutedRows,
        ctx: &ForwardContext,
        env: &EnvVars,
    ) -> (r: bool)
        requires
            self.takes_marlin(ctx, x.n) ==> ctx.buffers.gate_logits.spans(2304),
        ensures
            r == self.takes_marlin(ctx, x.n),
            final(cb)@ == (if r {
                old(cb)@ + self.marlin_cmds(ctx, env, self.marlin->0, *x)
            } else {
                old(cb)@
            }),
    {
        match self.marlin {
            Some(m) => {
                if x.n < 4 || x.n > 8 || self.pre_expert_norm.is_some() || self.lora.is_some()
                    || ctx.config.shared_expert_intermediate_size == 0 || has_many_ranks(ctx) {
                    return false;
                }
                self.record_marlin(cb, ctx, env, m, x);
                true
            },
            None => false,
        }
    }
}

impl RoutedRows {
    /// Buffers of a pass are distinct.
    pub open spec fn apart(self, ctx: &ForwardContext, m: MarlinMoeWeights) -> bool {
        let b = ctx.buffers;
        seq![
            b.gate_logits,
            b.gate_logits.at(2048),
            b.gate_logits.at(2304),
            m.w13_out,
            m.reduce_tmp,
            m.workspace,
            b.expert_gate_out,
            b.expert_down_out,
            self.input,
            self.weights,
            b.attn_output,
        ].no_duplicates()
    }
}

/// `p` is a product over the routes of these rows, as all three lists give them, with
/// weights that no probability scales.
pub open spec fn over_routes(p: Held, ids: Held, tokens: u32) -> bool {
    p matches Held::RouteProduct { sorted, experts, padded, weighted, .. } && {
        let of = |list: RouteList| Held::Aligned { ids: Box::new(ids), tokens, list };
        &&& *sorted == of(RouteList::Sorted)
        &&& *experts == of(RouteList::Experts)
        &&& *padded == of(RouteList::Padded)
        &&& !weighted
    }
}

/// Both products run over the same routes: the second, with the down weights, on the
/// activated halves of the first, with the gating and up weights. Probabilities enter once, in
/// the sum over a row's experts, to which the gated shared result is added.
#[verifier::rlimit(60)]
pub proof fn law_both_products_share_their_routes(
    l: &MoeLayer,
    ctx: &ForwardContext,
    env: &EnvVars,
    w: MarlinMoeWeights,
    x: RoutedRows,
    places: Places,
    m: Memory,
)
    requires
        x.apart(ctx, w),
        x.n <= 8,
    ensures
        ({
            let ids = m.held(x.indices);
            &&& run(places, m, l.marlin_cmds(ctx, env, w, x)) matches Some(v)
            &&& v.held(x.output) matches Held::Weighted { experts, weights, shared, input, gate, top_k, tokens, .. }
            &&& *weights == m.held(x.weights)
            &&& *shared == m.held(ctx.buffers.attn_output)
            &&& *input == m.held(x.input)
            &&& gate == l.weights.shared_expert_gate.weight
            &&& tokens == x.n
            &&& over_routes(*experts, ids, x.n)
            &&& experts->RouteProduct_weights == w.w2
            &&& experts->RouteProduct_scales == w.w2_scales
            &&& experts->RouteProduct_global_scales == w.w2_global
            &&& experts->RouteProduct_top_k == 1
            &&& *experts->RouteProduct_rows matches Held::Halves { of, routes, width }
            &&& top_k == 8
            &&& routes == 8 * x.n
            &&& experts->RouteProduct_m == routes
            &&& experts->RouteProduct_k == width
            &&& over_routes(*of, ids, x.n)
            &&& *of->RouteProduct_rows == m.held(x.input)
            &&& of->RouteProduct_weights == w.w13
            &&& of->RouteProduct_scales == w.w13_scales
            &&& of->RouteProduct_global_scales == w.w13_global
            &&& of->RouteProduct_m == x.n
            &&& of->RouteProduct_top_k == top_k
            &&& of->RouteProduct_n == 2 * width
            &&& of->RouteProduct_k == experts->RouteProduct_n
        }),
{
    let b = ctx.buffers;
    let here = seq![
        b.gate_logits,
        b.gate_logits.at(2048),
        b.gate_logits.at(2304),
        w.w13_out,
        w.reduce_tmp,
        w.workspace,
        b.expert_gate_out,
        b.expert_down_out,
        x.input,
        x.weights,
        b.attn_output,
    ];
    assert forall|i: int, j: int| 0 <= i < j < 11 implies here[i] != here[j] by {}
    assert(here[0] == b.gate_logits && here[1] == b.gate_logits.at(2048) && here[2] == b.gate_logits.at(
        2304,
    ) && here[3] == w.w13_out && here[4] == w.reduce_tmp && here[5] == w.workspace && here[6]
        == b.expert_gate_out && here[7] == b.expert_down_out && here[8] == x.input && here[9] == x.weights
        && here[10] == b.attn_output);
    let all = l.marlin_cmds(ctx, env, w, x);
    let n = all.len() as int;
    let head = seq![all[0], all[1], all[2]].push(all[3]);
    let wait = if n == 6 {
        seq![all[4]]
    } else {
        Seq::empty()
    };
    let last = seq![all[n - 1]];
    assert(all =~= head + wait + last);
    lemma_run_add(places, m, head + wait, last);
    lemma_run_add(places, m, head, wait);
    lemma_run_three(places, m, all[0], all[1], all[2]);
    lemma_run_push(places, m, seq![all[0], all[1], all[2]], all[3]);
    lemma_after_routes(places, m, all[0]->Op_0);
    let m1 = after(places, m, all[0])->0;
    lemma_after_routes(places, m1, all[1]->Op_0);
    let m2 = after(places, m1, all[1])->0;
    lemma_after_routes(places, m2, all[2]->Op_0);
    let m3 = after(places, m2, all[2])->0;
    lemma_after_routes(places, m3, all[3]->Op_0);
    let m4 = after(places, m3, all[3])->0;
    if n == 6 {
        lemma_run_one(places, m4, all[4]);
        assert(after(places, m4, all[4]) == Some(m4)) by {
            reveal(after_op);
        }
    }
    assert(run(places, m, head + wait) == Some(m4));
    lemma_run_one(places, m4, all[n - 1]);
    lemma_after_routes(places, m4, all[n - 1]->Op_0);
    assert(m1.held(x.input) == m.held(x.input));
    let (s0, s1, s2) = (b.gate_logits, b.gate_logits.at(2048), b.gate_logits.at(2304));
    let ids = m.held(x.indices);
    assert(m1.held(s0) == (Held::Aligned { ids: Box::new(ids), tokens: x.n, list: RouteList::Sorted }));
    assert(m1.held(s1) == (Held::Aligned { ids: Box::new(ids), tokens: x.n, list: RouteList::Experts }));
    assert(m1.held(s2) == (Held::Aligned { ids: Box::new(ids), tokens: x.n, list: RouteList::Padded }));
    assert(over_routes(m2.held(w.w13_out), ids, x.n));
    assert(m3.held(s0) == m1.held(s0) && m3.held(s1) == m1.held(s1) && m3.held(s2) == m1.held(s2));
    assert(m3.held(b.expert_gate_out) == (Held::Halves {
        of: Box::new(m2.held(w.w13_out)),
        routes: (x.n * 8) as u32,
        width: 512,
    }));
    assert(over_routes(m4.held(b.expert_down_out), ids, x.n));
    let v = after(places, m4, all[n - 1])->0;
    assert(run(places, m, all) == Some(v));
    assert(m4.held(x.input) == m.held(x.input));
    assert(m4.held(x.weights) == m.held(x.weights));
    assert(m4.held(b.attn_output) == m.held(b.attn_output));
}

} // verus!
