//! What the batched mixer makes of the rows and states of its sequences.
use crate::context::{ForwardContext, ModelConfig};
use crate::dataflow::{
    after, lemma_after_add_norm, lemma_after_convolution, lemma_after_matmul,
    lemma_after_norm_residual, lemma_after_gate_rows, lemma_after_gated_norm, lemma_after_gates,
    lemma_after_step, lemma_after_step_norm, lemma_after_steps, lemma_after_steps_norm,
    lemma_one_row_miss, lemma_row_gap, lemma_row_hit, lemma_row_inside, lemma_row_miss,
    lemma_row_part, lemma_run_add, lemma_run_push, lemma_run_three, lemma_run_two, row_of, run,
    step_of, Convolution, GateWeights, Held, Memory, Places, Step,
};
use crate::device::{lemma_row_bound, DevicePtr, Scalar};
use crate::dflash_head::disjoint;
use crate::env::EnvVars;
use crate::ops_table::WeightRef;
use crate::ssm::decode_multi_seq::{mixer_fits, L2_EPS_BITS};
use crate::ssm::layer::{Qwen3SsmLayer, SsmLayerState};
use vstd::prelude::*;

verus! {

impl Qwen3SsmLayer {
    /// Projection to the gates of a step.
    pub open spec fn gates_by(&self, c: ModelConfig) -> GateWeights {
        GateWeights {
            weight: self.ssm.in_proj_ba,
            a_log: self.ssm.a_log.weight,
            dt_bias: self.ssm.dt_bias.weight,
            ba_size: c.ssm_ba_size as u32,
            k: c.hidden_size as u32,
            heads_per_group: (c.linear_num_value_heads / c.linear_num_key_heads) as u32,
        }
    }

    /// The short convolution.
    pub open spec fn convolves_by(&self, c: ModelConfig) -> Convolution {
        Convolution {
            weight: self.ssm.conv1d,
            conv_dim: c.conv_channels() as u32,
            d_conv: c.linear_conv_kernel_dim as u32,
            qk_channels: (2 * c.key_dim()) as u32,
            head_dim: c.linear_key_head_dim as u32,
            eps: Scalar(L2_EPS_BITS),
        }
    }

    /// The recurrent step of a sequence: `x` is its normalised row, `p` the projection of
    /// that row, `h` and `conv` are its own states.
    pub open spec fn step(&self, c: ModelConfig, x: Held, p: Held, h: Held, conv: Held) -> Step {
        let qkv = Held::Convolved {
            state: Box::new(conv),
            row: Box::new(p),
            by: self.convolves_by(c),
        };
        Step {
            state: Box::new(h),
            q: Box::new(qkv),
            k: Box::new(Held::Part { of: Box::new(qkv), from: 4 * c.key_dim() }),
            v: Box::new(Held::Part { of: Box::new(qkv), from: 8 * c.key_dim() }),
            decay: Box::new(Held::Decay { row: Box::new(x), by: self.gates_by(c) }),
            beta: Box::new(Held::Beta { row: Box::new(x), by: self.gates_by(c) }),
            nk: c.linear_num_key_heads as u32,
            nv: c.linear_num_value_heads as u32,
            kd: c.linear_key_head_dim as u32,
            vd: c.linear_value_head_dim as u32,
        }
    }

    /// The result of that step, normalised and gated by `z`.
    pub open spec fn gated(&self, c: ModelConfig, s: Step, z: Held) -> Held {
        Held::GatedNorm {
            row: Box::new(Held::Read(s)),
            z: Box::new(z),
            weight: self.ssm.norm.weight,
            eps: c.rms_norm_eps,
            heads: c.linear_num_value_heads as u32,
            head_dim: c.linear_value_head_dim as u32,
        }
    }
}

/// Buffers of the mixer and their bytes for `n` sequences.
pub open spec fn areas(ctx: &ForwardContext, hidden: DevicePtr, residual: DevicePtr, n: int) -> Seq<
    (DevicePtr, int),
> {
    let c = ctx.config;
    let b = ctx.buffers;
    let rows = n * (2 * c.hidden_size);
    seq![
        (b.norm_output, rows),
        (b.ssm_deinterleaved, n * (2 * c.ssm_qkvz_size)),
        (b.ssm_gates, n * (8 * c.linear_num_value_heads)),
        (b.ssm_conv_out_f32, n * (4 * c.conv_channels()) + n * (4 * c.value_dim())),
        (b.ssm_qkvz, n * (2 * c.value_dim())),
        (b.moe_output, rows),
        (hidden, rows),
        (residual, rows),
    ]
}

/// `len` bytes at `p` lie outside of all buffers.
pub open spec fn outside_areas(s: Seq<(DevicePtr, int)>, p: DevicePtr, len: int) -> bool {
    forall|a: int| 0 <= a < s.len() ==> disjoint(p, len, (#[trigger] s[a]).0, s[a].1)
}

impl Qwen3SsmLayer {
    /// Rows and states have values, a projected row holds queries, keys, values and gate,
    /// and counts fit their kernel arguments.
    pub open spec fn sized(&self, c: ModelConfig, n: int) -> bool {
        &&& 2 <= n <= u32::MAX
        &&& 0 < c.hidden_size <= u32::MAX
        &&& 0 < c.linear_num_value_heads
        &&& 2 * c.linear_num_value_heads <= u32::MAX
        &&& 0 < c.key_dim()
        &&& 0 < c.value_dim()
        &&& c.conv_channels() < c.ssm_qkvz_size <= u32::MAX
        &&& 0 < self.h_state_bytes
        &&& 0 < self.conv_state_bytes
    }

    /// No buffer and no state of the first `n` sequences overlaps another.
    #[verifier::opaque]
    pub open spec fn mixer_apart(
        &self,
        ctx: &ForwardContext,
        hidden: DevicePtr,
        residual: DevicePtr,
        states: Seq<SsmLayerState>,
        n: int,
    ) -> bool {
        let s = areas(ctx, hidden, residual, n);
        let (h, v) = (self.h_state_bytes as int, self.conv_state_bytes as int);
        &&& forall|a: int, b: int|
            0 <= a < b < s.len() ==> disjoint(
                (#[trigger] s[a]).0,
                s[a].1,
                (#[trigger] s[b]).0,
                s[b].1,
            )
        &&& forall|i: int|
            0 <= i < n ==> outside_areas(s, (#[trigger] states[i]).h_state, h) && outside_areas(
                s,
                states[i].conv_state,
                v,
            )
        &&& forall|i: int, j: int|
            0 <= i < n && 0 <= j < n ==> disjoint(
                (#[trigger] states[i]).h_state,
                h,
                (#[trigger] states[j]).conv_state,
                v,
            )
        &&& forall|i: int, j: int|
            0 <= i < n && 0 <= j < n && i != j ==> disjoint(
                (#[trigger] states[i]).h_state,
                h,
                (#[trigger] states[j]).h_state,
                h,
            ) && disjoint(states[i].conv_state, v, states[j].conv_state, v)
    }

    /// What operations of this layer do not name.
    pub open spec fn mixer_places(&self, ctx: &ForwardContext, p: Places) -> bool {
        &&& p.block_out == ctx.buffers.moe_output
        &&& p.row_bytes == 2 * ctx.config.hidden_size
        &&& p.h_state_bytes == self.h_state_bytes
        &&& p.conv_state_bytes == self.conv_state_bytes
        &&& p.projected_bytes == 2 * ctx.config.ssm_qkvz_size
    }
}

/// Addresses of sequence `i`.
#[verifier::rlimit(50)]
proof fn lemma_addresses(l: &Qwen3SsmLayer, ctx: &ForwardContext, hidden: DevicePtr, residual: DevicePtr, n: int, i: int)
    requires
        l.sized(ctx.config, n),
        mixer_fits(ctx, hidden, residual, n),
        0 <= i < n,
    ensures
        ({
            let c = ctx.config;
            let b = ctx.buffers;
            let h = 2 * c.hidden_size;
            let d = 2 * c.ssm_qkvz_size;
            let q = 2 * c.value_dim();
            &&& b.norm_output.row_at(i, c.hidden_size as int, 2).0 == b.norm_output.0 + i * h
            &&& 0 <= i * h && i * h + h <= n * h
            &&& b.ssm_deinterleaved.row_at(i, c.ssm_qkvz_size as int, 2).0 == b.ssm_deinterleaved.0
                + i * d
            &&& 0 <= i * d && i * d + d <= n * d
            &&& l.z_of(ctx, i).0 == b.ssm_deinterleaved.0 + i * d + 2 * c.conv_channels()
            &&& b.ssm_qkvz.row_at(i, c.value_dim(), 2).0 == b.ssm_qkvz.0 + i * q
            &&& 0 <= i * q && i * q + q <= n * q
            &&& b.ssm_gates.at(4 * c.linear_num_value_heads).0 == b.ssm_gates.0 + 4
                * c.linear_num_value_heads
            &&& b.ssm_conv_out_f32.at(4 * c.conv_channels()).0 == b.ssm_conv_out_f32.0 + 4
                * c.conv_channels()
            &&& b.ssm_conv_out_f32.at(4 * c.key_dim()).0 == b.ssm_conv_out_f32.0 + 4 * c.key_dim()
            &&& b.ssm_conv_out_f32.at(8 * c.key_dim()).0 == b.ssm_conv_out_f32.0 + 8 * c.key_dim()
            &&& 8 * c.linear_num_value_heads <= n * (8 * c.linear_num_value_heads)
            &&& 4 * c.conv_channels() + 4 * c.value_dim() <= n * (4 * c.conv_channels()) + n * (4
                * c.value_dim())
        }),
{
    let c = ctx.config;
    let (h, d, q) = (c.hidden_size as int, c.ssm_qkvz_size as int, c.value_dim());
    lemma_row_bound(i, n, h, 2);
    lemma_row_bound(i, n, d, 2);
    lemma_row_bound(i, n, q, 2);
    lemma_stretch(i, n, h);
    lemma_stretch(i, n, d);
    lemma_stretch(i, n, q);
    lemma_stretch(0, n, 4 * c.linear_num_value_heads);
    lemma_stretch(0, n, 2 * c.conv_channels());
    lemma_stretch(0, n, 2 * c.value_dim());
}

proof fn lemma_stretch(i: int, n: int, w: int)
    by (nonlinear_arith)
    requires
        0 <= i < n,
        0 <= w,
    ensures
        i * w * 2 == i * (2 * w),
        n * w * 2 == n * (2 * w),
        0 <= i * (2 * w),
        i * (2 * w) + 2 * w <= n * (2 * w),
        2 * w <= n * (2 * w),
{
}

/// `a` lies in none of what sequence `i` writes in its step.
pub open spec fn untouched(
    l: &Qwen3SsmLayer,
    ctx: &ForwardContext,
    state: SsmLayerState,
    n: int,
    i: int,
    a: int,
) -> bool {
    let c = ctx.config;
    let b = ctx.buffers;
    let q = 2 * c.value_dim();
    &&& clear_of(a, b.ssm_gates.0 as int, n * (8 * c.linear_num_value_heads))
    &&& clear_of(
        a,
        b.ssm_conv_out_f32.0 as int,
        n * (4 * c.conv_channels()) + n * (4 * c.value_dim()),
    )
    &&& clear_of(a, b.ssm_qkvz.0 + i * q, q)
    &&& clear_of(a, state.h_state.0 as int, l.h_state_bytes as int)
    &&& clear_of(a, state.conv_state.0 as int, l.conv_state_bytes as int)
}

/// `a` lies outside of `len` bytes from `base` on.
pub open spec fn clear_of(a: int, base: int, len: int) -> bool {
    a < base || base + len <= a
}

#[verifier::rlimit(60)]
proof fn lemma_one_step(
    l: &Qwen3SsmLayer,
    ctx: &ForwardContext,
    env: &EnvVars,
    hidden: DevicePtr,
    residual: DevicePtr,
    states: Seq<SsmLayerState>,
    n: int,
    i: int,
    places: Places,
    u: Memory,
)
    requires
        l.sized(ctx.config, n),
        mixer_fits(ctx, hidden, residual, n),
        l.mixer_apart(ctx, hidden, residual, states, n),
        l.mixer_places(ctx, places),
        0 <= i < n,
    ensures
        ({
            let c = ctx.config;
            let b = ctx.buffers;
            let s = states[i];
            let x = u.row(b.norm_output, i, 2 * c.hidden_size);
            let p = u.row(b.ssm_deinterleaved, i, 2 * c.ssm_qkvz_size);
            let z = u.held(l.z_of(ctx, i));
            let step = l.step(c, x, p, u.held(s.h_state), u.held(s.conv_state));
            &&& run(places, u, l.recurrence_of(ctx, env, s, i)) matches Some(v)
            &&& v.row(b.ssm_qkvz, i, 2 * c.value_dim()) == l.gated(c, step, z)
            &&& v.held(s.h_state) == Held::Stepped(step)
            &&& v.held(s.conv_state) == (Held::Shifted {
                state: Box::new(u.held(s.conv_state)),
                row: Box::new(p),
            })
            &&& forall|a: int| untouched(l, ctx, s, n, i, a) ==> #[trigger] (v.at)(a) == (u.at)(a)
        }),
{
    reveal(Qwen3SsmLayer::mixer_apart);
    let c = ctx.config;
    let b = ctx.buffers;
    let s = states[i];
    let st = areas(ctx, hidden, residual, n);
    lemma_addresses(l, ctx, hidden, residual, n, i);
    let cmds = l.recurrence_of(ctx, env, s, i);
    let conv = 4 * c.conv_channels();
    let g = b.ssm_gates.0 as int;
    let o = b.ssm_conv_out_f32.0 as int;
    let qi = b.ssm_qkvz.0 + i * (2 * c.value_dim());
    let xi = b.norm_output.0 + i * (2 * c.hidden_size);
    let di = b.ssm_deinterleaved.0 + i * (2 * c.ssm_qkvz_size);
    let zi = di + 2 * c.conv_channels();
    // What lies apart from what.
    assert(st[0] == (b.norm_output, n * (2 * c.hidden_size)));
    assert(st[1] == (b.ssm_deinterleaved, n * (2 * c.ssm_qkvz_size)));
    assert(st[2] == (b.ssm_gates, n * (8 * c.linear_num_value_heads)));
    assert(st[3] == (
        b.ssm_conv_out_f32,
        n * (4 * c.conv_channels()) + n * (4 * c.value_dim()),
    ));
    assert(st[4] == (b.ssm_qkvz, n * (2 * c.value_dim())));
    assert(outside_areas(st, s.h_state, l.h_state_bytes as int));
    assert(outside_areas(st, s.conv_state, l.conv_state_bytes as int));
    assert(disjoint(
        states[i].h_state,
        l.h_state_bytes as int,
        states[i].conv_state,
        l.conv_state_bytes as int,
    ));
    lemma_after_gates(places, u, cmds[0]->Op_0);
    let m1 = after(places, u, cmds[0])->0;
    lemma_after_convolution(places, m1, cmds[1]->Op_0);
    let m2 = after(places, m1, cmds[1])->0;
    let qkv = Held::Convolved {
        state: Box::new(u.held(s.conv_state)),
        row: Box::new((u.at)(di)),
        by: l.convolves_by(c),
    };
    let cs = s.conv_state.0 as int;
    let sb = l.conv_state_bytes as int;
    // Frames.
    assert((m1.at)(cs) == (u.at)(cs));
    assert((m1.at)(di) == (u.at)(di));
    lemma_row_part(o, conv, conv, 1, 0, 4 * c.key_dim());
    lemma_row_part(o, conv, conv, 1, 0, 8 * c.key_dim());
    assert((m2.at)(o) == qkv);
    assert((m2.at)(o + 4 * c.key_dim()) == Held::Part {
        of: Box::new(qkv),
        from: 4 * c.key_dim(),
    });
    assert((m2.at)(o + 8 * c.key_dim()) == Held::Part {
        of: Box::new(qkv),
        from: 8 * c.key_dim(),
    });
    lemma_one_row_miss(cs, o, conv, conv);
    assert((m2.at)(cs) == Held::Shifted {
        state: Box::new(u.held(s.conv_state)),
        row: Box::new((u.at)(di)),
    });
    assert forall|a: int| clear_of(a, o, conv) && clear_of(a, cs, sb) implies #[trigger] (m2.at)(a)
        == (m1.at)(a) by {
        lemma_one_row_miss(a, o, conv, conv);
        lemma_one_row_miss(a, cs, sb, sb);
    }
    let ga = g + 4 * c.linear_num_value_heads;
    let x = (u.at)(xi);
    assert((m1.at)(ga) == Held::Beta { row: Box::new(x), by: l.gates_by(c) });
    assert((m1.at)(g) == Held::Decay { row: Box::new(x), by: l.gates_by(c) });
    assert((m2.at)(g) == (m1.at)(g));
    assert((m2.at)(ga) == (m1.at)(ga));
    let hs = s.h_state.0 as int;
    assert((m2.at)(hs) == (u.at)(hs));
    assert((m2.at)(zi) == (u.at)(zi));
    let step = l.step(c, x, (u.at)(di), u.held(s.h_state), u.held(s.conv_state));
    let m3 = after(places, m2, cmds[2])->0;
    if l.kernels.gdn_f32_norm.present() && env.says("ATLAS_GDN_FUSED_NORM"@, "1"@) {
        lemma_after_step_norm(places, m2, cmds[2]->Op_0);
        assert(cmds =~= seq![cmds[0], cmds[1], cmds[2]]);
        lemma_run_three(places, u, cmds[0], cmds[1], cmds[2]);
        assert((m3.at)(qi) == l.gated(c, step, (u.at)(zi)));
    } else {
        let first = seq![cmds[0], cmds[1], cmds[2]];
        lemma_after_step(places, m2, cmds[2]->Op_0);
        lemma_after_gated_norm(places, m3, cmds[3]->Op_0);
        assert(cmds =~= first.push(cmds[3]));
        lemma_run_three(places, u, cmds[0], cmds[1], cmds[2]);
        lemma_run_push(places, u, first, cmds[3]);
        assert((m3.at)(o + conv) == Held::Read(step));
        assert((m3.at)(zi) == (u.at)(zi));
        let v = after(places, m3, cmds[3])->0;
        assert((v.at)(qi) == l.gated(c, step, (u.at)(zi)));
    }
}

/// `v` is what `m` becomes by the step of sequence `i`: its result, and both of its own
/// states one step further.
pub open spec fn stepped(
    l: &Qwen3SsmLayer,
    ctx: &ForwardContext,
    states: Seq<SsmLayerState>,
    m: Memory,
    v: Memory,
    i: int,
) -> bool {
    let c = ctx.config;
    let b = ctx.buffers;
    let s = states[i];
    let x = m.row(b.norm_output, i, 2 * c.hidden_size);
    let p = m.row(b.ssm_deinterleaved, i, 2 * c.ssm_qkvz_size);
    let z = (m.at)(b.ssm_deinterleaved.0 + i * (2 * c.ssm_qkvz_size) + 2 * c.conv_channels());
    let step = l.step(c, x, p, m.held(s.h_state), m.held(s.conv_state));
    &&& v.row(b.ssm_qkvz, i, 2 * c.value_dim()) == l.gated(c, step, z)
    &&& v.held(s.h_state) == Held::Stepped(step)
    &&& v.held(s.conv_state) == (Held::Shifted {
        state: Box::new(m.held(s.conv_state)),
        row: Box::new(p),
    })
}

/// `a` lies in nothing that the steps of all sequences write.
pub open spec fn spared(
    l: &Qwen3SsmLayer,
    ctx: &ForwardContext,
    states: Seq<SsmLayerState>,
    n: int,
    a: int,
) -> bool {
    let c = ctx.config;
    let b = ctx.buffers;
    &&& clear_of(a, b.ssm_gates.0 as int, n * (8 * c.linear_num_value_heads))
    &&& clear_of(
        a,
        b.ssm_conv_out_f32.0 as int,
        n * (4 * c.conv_channels()) + n * (4 * c.value_dim()),
    )
    &&& clear_of(a, b.ssm_qkvz.0 as int, n * (2 * c.value_dim()))
    &&& forall|i: int|
        0 <= i < n ==> clear_of(a, (#[trigger] states[i]).h_state.0 as int, l.h_state_bytes as int)
            && clear_of(a, states[i].conv_state.0 as int, l.conv_state_bytes as int)
}

/// Inputs of the steps are spared: normalised and projected rows with their gates.
#[verifier::rlimit(50)]
proof fn lemma_inputs_spared(
    l: &Qwen3SsmLayer,
    ctx: &ForwardContext,
    hidden: DevicePtr,
    residual: DevicePtr,
    states: Seq<SsmLayerState>,
    n: int,
    i: int,
)
    requires
        l.sized(ctx.config, n),
        mixer_fits(ctx, hidden, residual, n),
        l.mixer_apart(ctx, hidden, residual, states, n),
        0 <= i < n,
    ensures
        ({
            let c = ctx.config;
            let b = ctx.buffers;
            let d = b.ssm_deinterleaved.0 + i * (2 * c.ssm_qkvz_size);
            &&& spared(l, ctx, states, n, b.norm_output.0 + i * (2 * c.hidden_size))
            &&& spared(l, ctx, states, n, d)
            &&& spared(l, ctx, states, n, d + 2 * c.conv_channels())
        }),
{
    reveal(Qwen3SsmLayer::mixer_apart);
    let c = ctx.config;
    let b = ctx.buffers;
    let st = areas(ctx, hidden, residual, n);
    lemma_addresses(l, ctx, hidden, residual, n, i);
    assert(st[0] == (b.norm_output, n * (2 * c.hidden_size)));
    assert(st[1] == (b.ssm_deinterleaved, n * (2 * c.ssm_qkvz_size)));
    assert(st[2] == (b.ssm_gates, n * (8 * c.linear_num_value_heads)));
    assert(st[3] == (
        b.ssm_conv_out_f32,
        n * (4 * c.conv_channels()) + n * (4 * c.value_dim()),
    ));
    assert(st[4] == (b.ssm_qkvz, n * (2 * c.value_dim())));
    let d = b.ssm_deinterleaved.0 + i * (2 * c.ssm_qkvz_size);
    let x = b.norm_output.0 + i * (2 * c.hidden_size);
    assert forall|j: int| 0 <= j < n implies clear_of(
        x,
        (#[trigger] states[j]).h_state.0 as int,
        l.h_state_bytes as int,
    ) && clear_of(x, states[j].conv_state.0 as int, l.conv_state_bytes as int) && clear_of(
        d,
        states[j].h_state.0 as int,
        l.h_state_bytes as int,
    ) && clear_of(d, states[j].conv_state.0 as int, l.conv_state_bytes as int) && clear_of(
        d + 2 * c.conv_channels(),
        states[j].h_state.0 as int,
        l.h_state_bytes as int,
    ) && clear_of(
        d + 2 * c.conv_channels(),
        states[j].conv_state.0 as int,
        l.conv_state_bytes as int,
    ) by {
        assert(outside_areas(st, states[j].h_state, l.h_state_bytes as int));
        assert(outside_areas(st, states[j].conv_state, l.conv_state_bytes as int));
    }
}

/// States lie outside of what a step writes elsewhere.
#[verifier::rlimit(50)]
proof fn lemma_states_clear(
    l: &Qwen3SsmLayer,
    ctx: &ForwardContext,
    hidden: DevicePtr,
    residual: DevicePtr,
    states: Seq<SsmLayerState>,
    n: int,
    i: int,
    j: int,
)
    requires
        l.sized(ctx.config, n),
        mixer_fits(ctx, hidden, residual, n),
        l.mixer_apart(ctx, hidden, residual, states, n),
        0 <= i < n,
        0 <= j < n,
        i != j,
    ensures
        untouched(l, ctx, states[i], n, i, states[j].h_state.0 as int),
        untouched(l, ctx, states[i], n, i, states[j].conv_state.0 as int),
        untouched(
            l,
            ctx,
            states[i],
            n,
            i,
            ctx.buffers.ssm_qkvz.0 + j * (2 * ctx.config.value_dim()),
        ),
{
    reveal(Qwen3SsmLayer::mixer_apart);
    let c = ctx.config;
    let b = ctx.buffers;
    let st = areas(ctx, hidden, residual, n);
    lemma_addresses(l, ctx, hidden, residual, n, i);
    lemma_addresses(l, ctx, hidden, residual, n, j);
    assert(st[2] == (b.ssm_gates, n * (8 * c.linear_num_value_heads)));
    assert(st[3] == (
        b.ssm_conv_out_f32,
        n * (4 * c.conv_channels()) + n * (4 * c.value_dim()),
    ));
    assert(st[4] == (b.ssm_qkvz, n * (2 * c.value_dim())));
    assert(outside_areas(st, states[j].h_state, l.h_state_bytes as int));
    assert(outside_areas(st, states[j].conv_state, l.conv_state_bytes as int));
    assert(outside_areas(st, states[i].h_state, l.h_state_bytes as int));
    assert(outside_areas(st, states[i].conv_state, l.conv_state_bytes as int));
    let q = 2 * c.value_dim();
    assert((i < j ==> i * q + q <= j * q) && (j < i ==> j * q + q <= i * q)) by (nonlinear_arith)
        requires
            q > 0,
    ;
}

#[verifier::rlimit(50)]
proof fn lemma_each_steps(
    l: &Qwen3SsmLayer,
    ctx: &ForwardContext,
    env: &EnvVars,
    hidden: DevicePtr,
    residual: DevicePtr,
    states: Seq<SsmLayerState>,
    n: int,
    k: nat,
    places: Places,
    m: Memory,
)
    requires
        l.sized(ctx.config, n),
        mixer_fits(ctx, hidden, residual, n),
        l.mixer_apart(ctx, hidden, residual, states, n),
        l.mixer_places(ctx, places),
        k <= n,
    ensures
        run(places, m, l.recurrence_each(ctx, env, states, k)) matches Some(v) && (forall|i: int|
            0 <= i < k ==> #[trigger] stepped(l, ctx, states, m, v, i)) && (forall|i: int|
            k <= i < n ==> v.held((#[trigger] states[i]).h_state) == m.held(states[i].h_state)
                && v.held(states[i].conv_state) == m.held(states[i].conv_state)) && (forall|a: int|
            spared(l, ctx, states, n, a) ==> #[trigger] (v.at)(a) == (m.at)(a)),
    decreases k,
{
    let all = l.recurrence_each(ctx, env, states, k);
    if k == 0 {
        assert(run(places, m, all) == Some(m));
    } else {
        let i = k - 1;
        lemma_each_steps(l, ctx, env, hidden, residual, states, n, (k - 1) as nat, places, m);
        let before = l.recurrence_each(ctx, env, states, (k - 1) as nat);
        let u = run(places, m, before)->0;
        lemma_run_add(places, m, before, l.recurrence_of(ctx, env, states[i], i));
        lemma_one_step(l, ctx, env, hidden, residual, states, n, i, places, u);
        let v = run(places, u, l.recurrence_of(ctx, env, states[i], i))->0;
        lemma_inputs_spared(l, ctx, hidden, residual, states, n, i);
        lemma_addresses(l, ctx, hidden, residual, n, i);
        assert(stepped(l, ctx, states, m, v, i));
        assert forall|j: int| 0 <= j < k implies #[trigger] stepped(l, ctx, states, m, v, j) by {
            if j < i {
                assert(stepped(l, ctx, states, m, u, j));
                lemma_states_clear(l, ctx, hidden, residual, states, n, i, j);
            }
        }
        assert forall|j: int| k <= j < n implies v.held((#[trigger] states[j]).h_state) == m.held(
            states[j].h_state,
        ) && v.held(states[j].conv_state) == m.held(states[j].conv_state) by {
            lemma_states_clear(l, ctx, hidden, residual, states, n, i, j);
        }
        assert forall|a: int| spared(l, ctx, states, n, a) implies #[trigger] (v.at)(a) == (m.at)(a) by {
            assert(clear_of(a, states[i].h_state.0 as int, l.h_state_bytes as int));
            assert(untouched(l, ctx, states[i], n, i, a));
        }
    }
}

/// Addresses of row `i` in buffers of all sequences.
proof fn lemma_batch_addresses(
    l: &Qwen3SsmLayer,
    ctx: &ForwardContext,
    hidden: DevicePtr,
    residual: DevicePtr,
    n: int,
    i: int,
)
    requires
        l.sized(ctx.config, n),
        mixer_fits(ctx, hidden, residual, n),
        0 <= i < n,
    ensures
        ({
            let c = ctx.config;
            let b = ctx.buffers;
            let g = 8 * c.linear_num_value_heads;
            let w = 4 * c.conv_channels();
            let o = 4 * c.value_dim();
            &&& 0 <= i * g && i * g + g <= n * g
            &&& 0 <= i * w && i * w + w <= n * w
            &&& 0 <= i * o && i * o + o <= n * o
            &&& l.batched_gdn_out(ctx, n).0 == b.ssm_conv_out_f32.0 + n * w
            &&& l.batched_gdn_out(ctx, n).row_at(i, c.value_dim(), 4).0 == b.ssm_conv_out_f32.0 + n * w
                + i * o
        }),
{
    let c = ctx.config;
    lemma_row_bound(n, n, c.conv_channels(), 4);
    lemma_row_bound(i, n, c.value_dim(), 4);
    lemma_row_bound(n, n, c.value_dim(), 4);
    let (x, y, z) = (c.linear_num_value_heads as int, c.conv_channels(), c.value_dim());
    assert(n * y * 4 == n * (4 * y) && i * z * 4 == i * (4 * z) && n * z * 4 == n * (4 * z))
        by (nonlinear_arith);
    lemma_stretch(i, n, 4 * x);
    lemma_stretch(i, n, 2 * y);
    lemma_stretch(i, n, 2 * z);
}

#[verifier::rlimit(50)]
proof fn lemma_batch_gates(
    l: &Qwen3SsmLayer,
    ctx: &ForwardContext,
    env: &EnvVars,
    hidden: DevicePtr,
    residual: DevicePtr,
    first: SsmLayerState,
    n: int,
    places: Places,
    m: Memory,
)
    requires
        l.sized(ctx.config, n),
        mixer_fits(ctx, hidden, residual, n),
    ensures
        ({
            let c = ctx.config;
            let g = ctx.buffers.ssm_gates.0 as int;
            let nv = c.linear_num_value_heads as int;
            &&& after(places, m, l.recurrence_batched(ctx, env, first, n)[0]) matches Some(v)
            &&& forall|i: int|
                #![trigger m.row(ctx.buffers.norm_output, i, 2 * c.hidden_size)]
                0 <= i < n ==> {
                    let x = m.row(ctx.buffers.norm_output, i, 2 * c.hidden_size);
                    &&& (v.at)(g + i * (8 * nv)) == (Held::Decay { row: Box::new(x), by: l.gates_by(c) })
                    &&& (v.at)(g + 4 * nv + i * (8 * nv)) == (Held::Beta {
                        row: Box::new(x),
                        by: l.gates_by(c),
                    })
                }
            &&& forall|a: int| clear_of(a, g, n * (8 * nv)) ==> #[trigger] (v.at)(a) == (m.at)(a)
        }),
{
    let c = ctx.config;
    let g = ctx.buffers.ssm_gates.0 as int;
    let nv = c.linear_num_value_heads as int;
    let cmd = l.recurrence_batched(ctx, env, first, n)[0];
    lemma_after_gate_rows(places, m, cmd->Op_0);
    let v = after(places, m, cmd)->0;
    lemma_addresses(l, ctx, hidden, residual, n, 0);
    assert(ctx.buffers.ssm_gates.at(4 * nv).0 == g + 4 * nv);
    assert forall|i: int|
        #![trigger m.row(ctx.buffers.norm_output, i, 2 * c.hidden_size)]
        0 <= i < n implies ({
        let x = m.row(ctx.buffers.norm_output, i, 2 * c.hidden_size);
        &&& (v.at)(g + i * (8 * nv)) == (Held::Decay { row: Box::new(x), by: l.gates_by(c) })
        &&& (v.at)(g + 4 * nv + i * (8 * nv)) == (Held::Beta { row: Box::new(x), by: l.gates_by(c) })
    }) by {
        lemma_row_hit(g, 8 * nv, 4 * nv, n, i);
        lemma_row_hit(g + 4 * nv, 8 * nv, 4 * nv, n, i);
        assert((i - 1) * (8 * nv) + 8 * nv == i * (8 * nv)) by (nonlinear_arith);
        lemma_row_gap(g + 4 * nv, 8 * nv, 4 * nv, n, i - 1, 4 * nv);
        assert(g + 4 * nv + (i - 1) * (8 * nv) + 4 * nv == g + i * (8 * nv));
    }
    assert forall|a: int| clear_of(a, g, n * (8 * nv)) implies #[trigger] (v.at)(a) == (m.at)(a) by {
        lemma_row_miss(a, g, 8 * nv, 4 * nv, n);
        if row_of(a, g + 4 * nv, 8 * nv, 4 * nv, n) is Some {
            lemma_row_inside(a, g + 4 * nv, 8 * nv, 4 * nv, n);
            let (r, o) = row_of(a, g + 4 * nv, 8 * nv, 4 * nv, n)->0;
            lemma_batch_addresses(l, ctx, hidden, residual, n, r);
        }
    }
}

#[verifier::rlimit(50)]
proof fn lemma_batch_conv(
    l: &Qwen3SsmLayer,
    ctx: &ForwardContext,
    env: &EnvVars,
    hidden: DevicePtr,
    residual: DevicePtr,
    states: Seq<SsmLayerState>,
    n: int,
    places: Places,
    m: Memory,
)
    requires
        l.sized(ctx.config, n),
        mixer_fits(ctx, hidden, residual, n),
        l.mixer_apart(ctx, hidden, residual, states, n),
        l.mixer_places(ctx, places),
        l.states_adjacent(states, n),
    ensures
        ({
            let c = ctx.config;
            let o = ctx.buffers.ssm_conv_out_f32.0 as int;
            let w = 4 * c.conv_channels();
            &&& after(places, m, l.recurrence_batched(ctx, env, states[0], n)[1]) matches Some(v)
            &&& forall|i: int|
                #![trigger states[i]]
                0 <= i < n ==> {
                    let p = m.row(ctx.buffers.ssm_deinterleaved, i, 2 * c.ssm_qkvz_size);
                    let qkv = Held::Convolved {
                        state: Box::new(m.held(states[i].conv_state)),
                        row: Box::new(p),
                        by: l.convolves_by(c),
                    };
                    &&& (v.at)(o + i * w) == qkv
                    &&& (v.at)(o + 4 * c.key_dim() + i * w) == (Held::Part {
                        of: Box::new(qkv),
                        from: 4 * c.key_dim(),
                    })
                    &&& (v.at)(o + 8 * c.key_dim() + i * w) == (Held::Part {
                        of: Box::new(qkv),
                        from: 8 * c.key_dim(),
                    })
                    &&& v.held(states[i].conv_state) == (Held::Shifted {
                        state: Box::new(m.held(states[i].conv_state)),
                        row: Box::new(p),
                    })
                }
            &&& forall|a: int|
                clear_of(a, o, n * w) && (forall|i: int|
                    0 <= i < n ==> clear_of(
                        a,
                        (#[trigger] states[i]).conv_state.0 as int,
                        l.conv_state_bytes as int,
                    )) ==> #[trigger] (v.at)(a) == (m.at)(a)
        }),
{
    reveal(Qwen3SsmLayer::mixer_apart);
    let c = ctx.config;
    let o = ctx.buffers.ssm_conv_out_f32.0 as int;
    let w = 4 * c.conv_channels();
    let sb = l.conv_state_bytes as int;
    let base = states[0].conv_state.0 as int;
    let cmd = l.recurrence_batched(ctx, env, states[0], n)[1];
    lemma_after_convolution(places, m, cmd->Op_0);
    let v = after(places, m, cmd)->0;
    let st = areas(ctx, hidden, residual, n);
    assert(st[3] == (
        ctx.buffers.ssm_conv_out_f32,
        n * (4 * c.conv_channels()) + n * (4 * c.value_dim()),
    ));
    assert forall|i: int| 0 <= i < n implies (#[trigger] states[i]).conv_state.0 == base + i * sb by {
        assert(0 * sb == 0);
    }
    assert forall|i: int|
        #![trigger states[i]]
        0 <= i < n implies ({
        let p = m.row(ctx.buffers.ssm_deinterleaved, i, 2 * c.ssm_qkvz_size);
        let qkv = Held::Convolved {
            state: Box::new(m.held(states[i].conv_state)),
            row: Box::new(p),
            by: l.convolves_by(c),
        };
        &&& (v.at)(o + i * w) == qkv
        &&& (v.at)(o + 4 * c.key_dim() + i * w) == (Held::Part {
            of: Box::new(qkv),
            from: 4 * c.key_dim(),
        })
        &&& (v.at)(o + 8 * c.key_dim() + i * w) == (Held::Part {
            of: Box::new(qkv),
            from: 8 * c.key_dim(),
        })
        &&& v.held(states[i].conv_state) == (Held::Shifted {
            state: Box::new(m.held(states[i].conv_state)),
            row: Box::new(p),
        })
    }) by {
        lemma_row_hit(o, w, w, n, i);
        lemma_row_part(o, w, w, n, i, 4 * c.key_dim());
        lemma_row_part(o, w, w, n, i, 8 * c.key_dim());
        lemma_row_hit(base, sb, sb, n, i);
        lemma_batch_addresses(l, ctx, hidden, residual, n, i);
        assert(outside_areas(st, states[i].conv_state, sb));
        lemma_row_miss(base + i * sb, o, w, w, n);
    }
    assert forall|a: int|
        clear_of(a, o, n * w) && (forall|i: int|
            0 <= i < n ==> clear_of(
                a,
                (#[trigger] states[i]).conv_state.0 as int,
                l.conv_state_bytes as int,
            )) implies #[trigger] (v.at)(a) == (m.at)(a) by {
        lemma_row_miss(a, o, w, w, n);
        if row_of(a, base, sb, sb, n) is Some {
            lemma_row_inside(a, base, sb, sb, n);
            let (r, q) = row_of(a, base, sb, sb, n)->0;
            assert(clear_of(a, states[r].conv_state.0 as int, sb));
        }
    }
}

/// The step of sequence `i` on the rows and states of `m`.
spec fn step_in(l: &Qwen3SsmLayer, ctx: &ForwardContext, states: Seq<SsmLayerState>, m: Memory, i: int) -> Step {
    let c = ctx.config;
    let b = ctx.buffers;
    l.step(
        c,
        m.row(b.norm_output, i, 2 * c.hidden_size),
        m.row(b.ssm_deinterleaved, i, 2 * c.ssm_qkvz_size),
        m.held(states[i].h_state),
        m.held(states[i].conv_state),
    )
}

/// Memory of all sequences before their recurrent step: gates and convolved rows are
/// there.
#[verifier::rlimit(50)]
proof fn lemma_batch_ready(
    l: &Qwen3SsmLayer,
    ctx: &ForwardContext,
    env: &EnvVars,
    hidden: DevicePtr,
    residual: DevicePtr,
    states: Seq<SsmLayerState>,
    n: int,
    places: Places,
    m: Memory,
)
    requires
        l.sized(ctx.config, n),
        mixer_fits(ctx, hidden, residual, n),
        l.mixer_apart(ctx, hidden, residual, states, n),
        l.mixer_places(ctx, places),
        l.states_adjacent(states, n),
    ensures
        ({
            let c = ctx.config;
            let cmds = l.recurrence_batched(ctx, env, states[0], n);
            let w = 4 * c.conv_channels();
            let g = 8 * c.linear_num_value_heads;
            let args = l.gdn_args(ctx, states[0].h_state, n);
            &&& run(places, m, cmds.take(2)) matches Some(v)
            &&& forall|i: int|
                #![trigger states[i]]
                0 <= i < n ==> step_of(places, v, args, i, w, w, g) == step_in(l, ctx, states, m, i)
                    && v.held(states[i].conv_state) == (Held::Shifted {
                    state: Box::new(m.held(states[i].conv_state)),
                    row: Box::new(m.row(ctx.buffers.ssm_deinterleaved, i, 2 * c.ssm_qkvz_size)),
                })
            &&& forall|a: int| spared(l, ctx, states, n, a) ==> #[trigger] (v.at)(a) == (m.at)(a)
        }),
{
    reveal(Qwen3SsmLayer::mixer_apart);
    let c = ctx.config;
    let b = ctx.buffers;
    let cmds = l.recurrence_batched(ctx, env, states[0], n);
    let w = 4 * c.conv_channels();
    let g = 8 * c.linear_num_value_heads;
    let gp = b.ssm_gates.0 as int;
    let nv = c.linear_num_value_heads as int;
    let args = l.gdn_args(ctx, states[0].h_state, n);
    let st = areas(ctx, hidden, residual, n);
    assert(cmds.take(2) =~= seq![cmds[0], cmds[1]]);
    lemma_run_two(places, m, cmds[0], cmds[1]);
    lemma_batch_gates(l, ctx, env, hidden, residual, states[0], n, places, m);
    let m1 = after(places, m, cmds[0])->0;
    lemma_batch_conv(l, ctx, env, hidden, residual, states, n, places, m1);
    let v = after(places, m1, cmds[1])->0;
    assert(st[1] == (b.ssm_deinterleaved, n * (2 * c.ssm_qkvz_size)));
    assert(st[2] == (b.ssm_gates, n * (8 * c.linear_num_value_heads)));
    assert(st[3] == (
        b.ssm_conv_out_f32,
        n * (4 * c.conv_channels()) + n * (4 * c.value_dim()),
    ));
    assert(0 <= n * (4 * c.value_dim())) by {
        lemma_batch_addresses(l, ctx, hidden, residual, n, 0);
    }
    lemma_addresses(l, ctx, hidden, residual, n, 0);
    assert forall|i: int|
        #![trigger states[i]]
        0 <= i < n implies step_of(places, v, args, i, w, w, g) == step_in(l, ctx, states, m, i)
        && v.held(states[i].conv_state) == (Held::Shifted {
        state: Box::new(m.held(states[i].conv_state)),
        row: Box::new(m.row(b.ssm_deinterleaved, i, 2 * c.ssm_qkvz_size)),
    }) by {
        let x = m.row(b.norm_output, i, 2 * c.hidden_size);
        assert(outside_areas(st, states[i].conv_state, l.conv_state_bytes as int));
        assert(outside_areas(st, states[i].h_state, l.h_state_bytes as int));
        lemma_addresses(l, ctx, hidden, residual, n, i);
        lemma_batch_addresses(l, ctx, hidden, residual, n, i);
        assert(m1.held(states[i].conv_state) == m.held(states[i].conv_state));
        assert(m1.held(states[i].h_state) == m.held(states[i].h_state));
        assert(m1.row(b.ssm_deinterleaved, i, 2 * c.ssm_qkvz_size) == m.row(
            b.ssm_deinterleaved,
            i,
            2 * c.ssm_qkvz_size,
        ));
        assert((m1.at)(gp + i * (8 * nv)) == (Held::Decay { row: Box::new(x), by: l.gates_by(c) }));
        let ga = gp + i * (8 * nv);
        let be = gp + 4 * nv + i * (8 * nv);
        assert forall|j: int| 0 <= j < n implies clear_of(
            ga,
            (#[trigger] states[j]).conv_state.0 as int,
            l.conv_state_bytes as int,
        ) && clear_of(be, states[j].conv_state.0 as int, l.conv_state_bytes as int) && clear_of(
            states[i].h_state.0 as int,
            states[j].conv_state.0 as int,
            l.conv_state_bytes as int,
        ) by {
            assert(outside_areas(st, states[j].conv_state, l.conv_state_bytes as int));
            assert(disjoint(
                states[i].h_state,
                l.h_state_bytes as int,
                states[j].conv_state,
                l.conv_state_bytes as int,
            ));
        }
        assert((v.at)(ga) == (m1.at)(ga));
        assert((v.at)(be) == (m1.at)(be));
        assert(v.held(states[i].h_state) == m.held(states[i].h_state));
        assert(states[i].h_state.0 == states[0].h_state.0 + i * l.h_state_bytes) by {
            assert(0 * l.h_state_bytes == 0);
        }
        let got = step_of(places, v, args, i, w, w, g);
        let want = step_in(l, ctx, states, m, i);
        assert(got.state == want.state);
        assert(got.q == want.q);
        assert(got.k == want.k);
        assert(got.v == want.v);
        assert(got.decay == want.decay);
        assert(got.beta == want.beta);
    }
    assert forall|a: int| spared(l, ctx, states, n, a) implies #[trigger] (v.at)(a) == (m.at)(a) by {
        assert forall|i: int| 0 <= i < n implies clear_of(
            a,
            (#[trigger] states[i]).conv_state.0 as int,
            l.conv_state_bytes as int,
        ) by {}
        assert((m1.at)(a) == (m.at)(a));
    }
}

/// The recurrent step itself: states move on, and nothing else but the results changes.
proof fn lemma_batch_states(
    l: &Qwen3SsmLayer,
    ctx: &ForwardContext,
    hidden: DevicePtr,
    residual: DevicePtr,
    states: Seq<SsmLayerState>,
    n: int,
    v: Memory,
    f: spec_fn(int) -> Held,
    a: int,
)
    requires
        l.sized(ctx.config, n),
        l.states_adjacent(states, n),
        l.mixer_apart(ctx, hidden, residual, states, n),
    ensures
        ({
            let h = l.h_state_bytes as int;
            let w = v.put_rows(states[0].h_state, h, h, n, f);
            &&& forall|i: int| 0 <= i < n ==> w.held((#[trigger] states[i]).h_state) == f(i)
            &&& (forall|i: int| 0 <= i < n ==> clear_of(a, (#[trigger] states[i]).h_state.0 as int, h))
                ==> (w.at)(a) == (v.at)(a)
        }),
{
    let h = l.h_state_bytes as int;
    let base = states[0].h_state.0 as int;
    assert forall|i: int| 0 <= i < n implies (#[trigger] states[i]).h_state.0 == base + i * h by {
        assert(0 * h == 0);
    }
    let w = v.put_rows(states[0].h_state, h, h, n, f);
    assert forall|i: int| 0 <= i < n implies w.held((#[trigger] states[i]).h_state) == f(i) by {
        lemma_row_hit(base, h, h, n, i);
    }
    if row_of(a, base, h, h, n) is Some {
        lemma_row_inside(a, base, h, h, n);
        let (r, o) = row_of(a, base, h, h, n)->0;
        assert(states[r].h_state.0 == base + r * h);
    }
}

#[verifier::rlimit(50)]
proof fn lemma_batch_norms(
    l: &Qwen3SsmLayer,
    ctx: &ForwardContext,
    hidden: DevicePtr,
    residual: DevicePtr,
    states: Seq<SsmLayerState>,
    n: int,
    k: nat,
    places: Places,
    m: Memory,
)
    requires
        l.sized(ctx.config, n),
        mixer_fits(ctx, hidden, residual, n),
        l.mixer_apart(ctx, hidden, residual, states, n),
        k <= n,
    ensures
        ({
            let c = ctx.config;
            let q = 2 * c.value_dim();
            let o = ctx.buffers.ssm_conv_out_f32.0 + n * (4 * c.conv_channels());
            let qp = ctx.buffers.ssm_qkvz.0 as int;
            &&& run(places, m, l.batched_norms(ctx, n, k)) matches Some(v)
            &&& forall|i: int|
                0 <= i < k ==> #[trigger] v.row(ctx.buffers.ssm_qkvz, i, q) == (Held::GatedNorm {
                    row: Box::new((m.at)(o + i * (4 * c.value_dim()))),
                    z: Box::new(m.held(l.z_of(ctx, i))),
                    weight: l.ssm.norm.weight,
                    eps: c.rms_norm_eps,
                    heads: c.linear_num_value_heads as u32,
                    head_dim: c.linear_value_head_dim as u32,
                })
            &&& forall|a: int| clear_of(a, qp, n * q) ==> #[trigger] (v.at)(a) == (m.at)(a)
        }),
    decreases k,
{
    reveal(Qwen3SsmLayer::mixer_apart);
    let c = ctx.config;
    let b = ctx.buffers;
    let q = 2 * c.value_dim();
    let o = b.ssm_conv_out_f32.0 + n * (4 * c.conv_channels());
    let qp = b.ssm_qkvz.0 as int;
    if k == 0 {
        assert(run(places, m, l.batched_norms(ctx, n, k)) == Some(m));
    } else {
        let j = k - 1;
        lemma_batch_norms(l, ctx, hidden, residual, states, n, (k - 1) as nat, places, m);
        let before = l.batched_norms(ctx, n, (k - 1) as nat);
        let u = run(places, m, before)->0;
        let cmd = l.gated_norm_cmd(
            ctx,
            l.batched_gdn_out(ctx, n).row_at(j, c.value_dim(), 4),
            j,
        );
        lemma_run_push(places, m, before, cmd);
        lemma_after_gated_norm(places, u, cmd->Op_0);
        let v = after(places, u, cmd)->0;
        lemma_addresses(l, ctx, hidden, residual, n, j);
        lemma_batch_addresses(l, ctx, hidden, residual, n, j);
        let st = areas(ctx, hidden, residual, n);
        assert(st[1] == (b.ssm_deinterleaved, n * (2 * c.ssm_qkvz_size)));
        assert(st[3] == (
            b.ssm_conv_out_f32,
            n * (4 * c.conv_channels()) + n * (4 * c.value_dim()),
        ));
        assert(st[4] == (b.ssm_qkvz, n * (2 * c.value_dim())));
        assert forall|i: int| 0 <= i < k implies #[trigger] v.row(b.ssm_qkvz, i, q)
            == (Held::GatedNorm {
            row: Box::new((m.at)(o + i * (4 * c.value_dim()))),
            z: Box::new(m.held(l.z_of(ctx, i))),
            weight: l.ssm.norm.weight,
            eps: c.rms_norm_eps,
            heads: c.linear_num_value_heads as u32,
            head_dim: c.linear_value_head_dim as u32,
        }) by {
            if i < j {
                assert(i * q + q <= j * q) by (nonlinear_arith)
                    requires
                        i < j,
                        q > 0,
                ;
                assert(v.row(b.ssm_qkvz, i, q) == u.row(b.ssm_qkvz, i, q));
            }
        }
    }
}

/// Memory of all sequences with their recurrent states one step further.
#[verifier::opaque]
spec fn moved_on(
    l: &Qwen3SsmLayer,
    ctx: &ForwardContext,
    states: Seq<SsmLayerState>,
    n: int,
    places: Places,
    ready: Memory,
) -> Memory {
    let c = ctx.config;
    let w = 4 * c.conv_channels();
    let g = 8 * c.linear_num_value_heads;
    let args = l.gdn_args(ctx, states[0].h_state, n);
    let h = l.h_state_bytes as int;
    ready.put_rows(
        states[0].h_state,
        h,
        h,
        n,
        |r: int| Held::Stepped(step_of(places, ready, args, r, w, w, g)),
    )
}

#[verifier::rlimit(50)]
proof fn lemma_batch_moved(
    l: &Qwen3SsmLayer,
    ctx: &ForwardContext,
    env: &EnvVars,
    hidden: DevicePtr,
    residual: DevicePtr,
    states: Seq<SsmLayerState>,
    n: int,
    places: Places,
    m: Memory,
)
    requires
        l.sized(ctx.config, n),
        mixer_fits(ctx, hidden, residual, n),
        l.mixer_apart(ctx, hidden, residual, states, n),
        l.mixer_places(ctx, places),
        l.states_adjacent(states, n),
    ensures
        ({
            let c = ctx.config;
            let cmds = l.recurrence_batched(ctx, env, states[0], n);
            let w = 4 * c.conv_channels();
            let g = 8 * c.linear_num_value_heads;
            let args = l.gdn_args(ctx, states[0].h_state, n);
            &&& run(places, m, cmds.take(2)) matches Some(ready)
            &&& forall|i: int|
                #![trigger states[i]]
                0 <= i < n ==> {
                    let v = moved_on(l, ctx, states, n, places, ready);
                    &&& step_of(places, ready, args, i, w, w, g) == step_in(l, ctx, states, m, i)
                    &&& v.held(states[i].h_state) == Held::Stepped(step_in(l, ctx, states, m, i))
                    &&& v.held(states[i].conv_state) == (Held::Shifted {
                        state: Box::new(m.held(states[i].conv_state)),
                        row: Box::new(m.row(ctx.buffers.ssm_deinterleaved, i, 2 * c.ssm_qkvz_size)),
                    })
                }
            &&& forall|a: int|
                spared(l, ctx, states, n, a) ==> #[trigger] (ready.at)(a) == (m.at)(a) && (moved_on(
                    l,
                    ctx,
                    states,
                    n,
                    places,
                    ready,
                ).at)(a) == (m.at)(a)
        }),
{
    reveal(moved_on);
    reveal(Qwen3SsmLayer::mixer_apart);
    let c = ctx.config;
    let cmds = l.recurrence_batched(ctx, env, states[0], n);
    let w = 4 * c.conv_channels();
    let g = 8 * c.linear_num_value_heads;
    let args = l.gdn_args(ctx, states[0].h_state, n);
    let h = l.h_state_bytes as int;
    lemma_batch_ready(l, ctx, env, hidden, residual, states, n, places, m);
    let ready = run(places, m, cmds.take(2))->0;
    let v = moved_on(l, ctx, states, n, places, ready);
    let f = |r: int| Held::Stepped(step_of(places, ready, args, r, w, w, g));
    assert forall|i: int|
        #![trigger states[i]]
        0 <= i < n implies v.held(states[i].h_state) == Held::Stepped(step_in(l, ctx, states, m, i))
        && v.held(states[i].conv_state) == ready.held(states[i].conv_state) by {
        assert(step_of(places, ready, args, i, w, w, g) == step_in(l, ctx, states, m, i));
        assert forall|j: int| 0 <= j < n implies clear_of(
            states[i].conv_state.0 as int,
            (#[trigger] states[j]).h_state.0 as int,
            h,
        ) by {
            assert(disjoint(states[j].h_state, h, states[i].conv_state, l.conv_state_bytes as int));
        }
        lemma_batch_states(
            l,
            ctx,
            hidden,
            residual,
            states,
            n,
            ready,
            f,
            states[i].conv_state.0 as int,
        );
        assert(ready.put_rows(states[0].h_state, h, h, n, f).held(states[i].h_state) == f(i));
    }
    assert forall|a: int| spared(l, ctx, states, n, a) implies #[trigger] (ready.at)(a) == (m.at)(a)
        && (v.at)(a) == (m.at)(a) by {
        lemma_batch_states(l, ctx, hidden, residual, states, n, ready, f, a);
    }
}

/// States lie outside of results and of the mixer's buffers.
#[verifier::rlimit(50)]
proof fn lemma_states_outside(
    l: &Qwen3SsmLayer,
    ctx: &ForwardContext,
    hidden: DevicePtr,
    residual: DevicePtr,
    states: Seq<SsmLayerState>,
    n: int,
    i: int,
)
    requires
        l.sized(ctx.config, n),
        mixer_fits(ctx, hidden, residual, n),
        l.mixer_apart(ctx, hidden, residual, states, n),
        0 <= i < n,
    ensures
        ({
            let c = ctx.config;
            let b = ctx.buffers;
            let q = 2 * c.value_dim();
            let w = 4 * c.conv_channels();
            let o4 = 4 * c.value_dim();
            let o = b.ssm_conv_out_f32.0 + n * w;
            let qp = b.ssm_qkvz.0 as int;
            let (x, y) = (states[i].h_state.0 as int, states[i].conv_state.0 as int);
            &&& clear_of(x, qp, n * q) && clear_of(y, qp, n * q)
            &&& clear_of(x, o, n * o4) && clear_of(y, o, n * o4)
            &&& clear_of(o + i * o4, qp, n * q)
        }),
{
    reveal(Qwen3SsmLayer::mixer_apart);
    let c = ctx.config;
    let b = ctx.buffers;
    let st = areas(ctx, hidden, residual, n);
    lemma_addresses(l, ctx, hidden, residual, n, i);
    lemma_batch_addresses(l, ctx, hidden, residual, n, i);
    assert(st[3] == (
        b.ssm_conv_out_f32,
        n * (4 * c.conv_channels()) + n * (4 * c.value_dim()),
    ));
    assert(st[4] == (b.ssm_qkvz, n * (2 * c.value_dim())));
    assert(outside_areas(st, states[i].h_state, l.h_state_bytes as int));
    assert(outside_areas(st, states[i].conv_state, l.conv_state_bytes as int));
}

#[verifier::rlimit(50)]
proof fn lemma_batch_fused(
    l: &Qwen3SsmLayer,
    ctx: &ForwardContext,
    env: &EnvVars,
    hidden: DevicePtr,
    residual: DevicePtr,
    states: Seq<SsmLayerState>,
    n: int,
    places: Places,
    m: Memory,
)
    requires
        l.sized(ctx.config, n),
        mixer_fits(ctx, hidden, residual, n),
        l.mixer_apart(ctx, hidden, residual, states, n),
        l.mixer_places(ctx, places),
        l.states_adjacent(states, n),
        l.kernels.gdn_f32_strided_norm.present(),
        env.says("ATLAS_GDN_FUSED_NORM"@, "1"@),
    ensures
        run(places, m, l.recurrence_batched(ctx, env, states[0], n)) matches Some(v) && (forall|i: int|
            0 <= i < n ==> #[trigger] stepped(l, ctx, states, m, v, i)) && (forall|a: int|
            spared(l, ctx, states, n, a) ==> #[trigger] (v.at)(a) == (m.at)(a)),
{
    reveal(moved_on);
    let c = ctx.config;
    let b = ctx.buffers;
    let cmds = l.recurrence_batched(ctx, env, states[0], n);
    let w = 4 * c.conv_channels();
    let g = 8 * c.linear_num_value_heads;
    let q = 2 * c.value_dim();
    let qp = b.ssm_qkvz.0 as int;
    let args = l.gdn_args(ctx, states[0].h_state, n);
    lemma_batch_moved(l, ctx, env, hidden, residual, states, n, places, m);
    let ready = run(places, m, cmds.take(2))->0;
    let moved = moved_on(l, ctx, states, n, places, ready);
    lemma_run_push(places, m, cmds.take(2), cmds[2]);
    assert(cmds =~= cmds.take(2).push(cmds[2]));
    lemma_after_steps_norm(places, ready, cmds[2]->Op_0);
    let v = after(places, ready, cmds[2])->0;
    lemma_addresses(l, ctx, hidden, residual, n, 0);
    assert forall|a: int| clear_of(a, qp, n * q) implies #[trigger] (v.at)(a) == (moved.at)(a) by {
        lemma_row_miss(a, qp, q, q, n);
    }
    assert forall|i: int| 0 <= i < n implies #[trigger] stepped(l, ctx, states, m, v, i) by {
        lemma_states_outside(l, ctx, hidden, residual, states, n, i);
        lemma_inputs_spared(l, ctx, hidden, residual, states, n, i);
        lemma_row_hit(qp, q, q, n, i);
        assert(step_of(places, ready, args, i, w, w, g) == step_in(l, ctx, states, m, i)) by {
            assert(states[i] == states[i]);
        }
        let z = b.ssm_deinterleaved.0 + i * (2 * c.ssm_qkvz_size) + 2 * c.conv_channels();
        assert((ready.at)(z) == (m.at)(z));
        assert(l.z_of(ctx, 0).0 + i * (2 * c.ssm_qkvz_size) == z);
        assert(v.row(b.ssm_qkvz, i, q) == l.gated(c, step_in(l, ctx, states, m, i), (m.at)(z)));
        assert((v.at)(states[i].h_state.0 as int) == (moved.at)(states[i].h_state.0 as int));
        assert((v.at)(states[i].conv_state.0 as int) == (moved.at)(states[i].conv_state.0 as int));
    }
    assert forall|a: int| spared(l, ctx, states, n, a) implies #[trigger] (v.at)(a) == (m.at)(a) by {
        assert((ready.at)(a) == (m.at)(a));
    }
}

#[verifier::rlimit(50)]
proof fn lemma_batch_read(
    l: &Qwen3SsmLayer,
    ctx: &ForwardContext,
    env: &EnvVars,
    hidden: DevicePtr,
    residual: DevicePtr,
    states: Seq<SsmLayerState>,
    n: int,
    places: Places,
    ready: Memory,
)
    requires
        l.sized(ctx.config, n),
        mixer_fits(ctx, hidden, residual, n),
        l.mixer_places(ctx, places),
        !(l.kernels.gdn_f32_strided_norm.present() && env.says("ATLAS_GDN_FUSED_NORM"@, "1"@)),
    ensures
        ({
            let c = ctx.config;
            let w = 4 * c.conv_channels();
            let g = 8 * c.linear_num_value_heads;
            let o4 = 4 * c.value_dim();
            let o = ctx.buffers.ssm_conv_out_f32.0 + n * w;
            let args = l.gdn_args(ctx, states[0].h_state, n);
            let moved = moved_on(l, ctx, states, n, places, ready);
            &&& after(places, ready, l.recurrence_batched(ctx, env, states[0], n)[2]) matches Some(v)
            &&& forall|i: int|
                0 <= i < n ==> #[trigger] (v.at)(o + i * o4) == Held::Read(
                    step_of(places, ready, args, i, w, w, g),
                )
            &&& forall|a: int| clear_of(a, o, n * o4) ==> #[trigger] (v.at)(a) == (moved.at)(a)
        }),
{
    reveal(moved_on);
    let c = ctx.config;
    let w = 4 * c.conv_channels();
    let o4 = 4 * c.value_dim();
    let o = ctx.buffers.ssm_conv_out_f32.0 + n * w;
    let cmd = l.recurrence_batched(ctx, env, states[0], n)[2];
    let moved = moved_on(l, ctx, states, n, places, ready);
    let g = 8 * c.linear_num_value_heads;
    let args = l.gdn_args(ctx, states[0].h_state, n);
    lemma_after_steps(places, ready, cmd->Op_0);
    let v = after(places, ready, cmd)->0;
    lemma_batch_addresses(l, ctx, hidden, residual, n, 0);
    assert forall|a: int| clear_of(a, o, n * o4) implies #[trigger] (v.at)(a) == (moved.at)(a) by {
        lemma_row_miss(a, o, o4, o4, n);
    }
    assert forall|i: int| 0 <= i < n implies #[trigger] (v.at)(o + i * o4) == Held::Read(
        step_of(places, ready, args, i, w, w, g),
    ) by {
        lemma_row_hit(o, o4, o4, n, i);
    }
}

#[verifier::rlimit(50)]
proof fn lemma_batch_split(
    l: &Qwen3SsmLayer,
    ctx: &ForwardContext,
    env: &EnvVars,
    hidden: DevicePtr,
    residual: DevicePtr,
    states: Seq<SsmLayerState>,
    n: int,
    places: Places,
    m: Memory,
)
    requires
        l.sized(ctx.config, n),
        mixer_fits(ctx, hidden, residual, n),
        l.mixer_apart(ctx, hidden, residual, states, n),
        l.mixer_places(ctx, places),
        l.states_adjacent(states, n),
        !(l.kernels.gdn_f32_strided_norm.present() && env.says("ATLAS_GDN_FUSED_NORM"@, "1"@)),
    ensures
        run(places, m, l.recurrence_batched(ctx, env, states[0], n)) matches Some(v) && (forall|i: int|
            0 <= i < n ==> #[trigger] stepped(l, ctx, states, m, v, i)) && (forall|a: int|
            spared(l, ctx, states, n, a) ==> #[trigger] (v.at)(a) == (m.at)(a)),
{
    let c = ctx.config;
    let b = ctx.buffers;
    let cmds = l.recurrence_batched(ctx, env, states[0], n);
    let w = 4 * c.conv_channels();
    let g = 8 * c.linear_num_value_heads;
    let q = 2 * c.value_dim();
    let qp = b.ssm_qkvz.0 as int;
    let o4 = 4 * c.value_dim();
    let o = b.ssm_conv_out_f32.0 + n * w;
    let args = l.gdn_args(ctx, states[0].h_state, n);
    lemma_batch_moved(l, ctx, env, hidden, residual, states, n, places, m);
    let ready = run(places, m, cmds.take(2))->0;
    let moved = moved_on(l, ctx, states, n, places, ready);
    let norms = l.batched_norms(ctx, n, n as nat);
    let first = cmds.take(2).push(cmds[2]);
    lemma_run_push(places, m, cmds.take(2), cmds[2]);
    assert(cmds =~= first + norms);
    lemma_run_add(places, m, first, norms);
    lemma_batch_read(l, ctx, env, hidden, residual, states, n, places, ready);
    let next = after(places, ready, cmds[2])->0;
    lemma_batch_norms(l, ctx, hidden, residual, states, n, n as nat, places, next);
    let v = run(places, next, norms)->0;
    assert forall|i: int| 0 <= i < n implies #[trigger] stepped(l, ctx, states, m, v, i) by {
        let (x, y) = (states[i].h_state.0 as int, states[i].conv_state.0 as int);
        lemma_states_outside(l, ctx, hidden, residual, states, n, i);
        lemma_inputs_spared(l, ctx, hidden, residual, states, n, i);
        lemma_addresses(l, ctx, hidden, residual, n, i);
        assert(step_of(places, ready, args, i, w, w, g) == step_in(l, ctx, states, m, i));
        let z = b.ssm_deinterleaved.0 + i * (2 * c.ssm_qkvz_size) + 2 * c.conv_channels();
        assert((ready.at)(z) == (m.at)(z));
        lemma_parts_spared(ctx, l, states, n, z);
        assert((next.at)(z) == (moved.at)(z));
        assert((next.at)(o + i * o4) == Held::Read(step_in(l, ctx, states, m, i)));
        assert(v.row(b.ssm_qkvz, i, q) == l.gated(c, step_in(l, ctx, states, m, i), (m.at)(z)));
        assert((v.at)(x) == (next.at)(x) && (next.at)(x) == (moved.at)(x));
        assert((v.at)(y) == (next.at)(y) && (next.at)(y) == (moved.at)(y));
    }
    assert forall|a: int| spared(l, ctx, states, n, a) implies #[trigger] (v.at)(a) == (m.at)(a) by {
        assert((ready.at)(a) == (m.at)(a));
        lemma_parts_spared(ctx, l, states, n, a);
        assert((next.at)(a) == (moved.at)(a));
    }
}

/// What all steps spare lies outside of their results in single precision.
proof fn lemma_parts_spared(ctx: &ForwardContext, l: &Qwen3SsmLayer, states: Seq<SsmLayerState>, n: int, a: int)
    requires
        spared(l, ctx, states, n, a),
        l.sized(ctx.config, n),
    ensures
        ({
            let c = ctx.config;
            let o = ctx.buffers.ssm_conv_out_f32.0 + n * (4 * c.conv_channels());
            &&& clear_of(a, o, n * (4 * c.value_dim()))
            &&& clear_of(a, ctx.buffers.ssm_qkvz.0 as int, n * (2 * c.value_dim()))
        }),
{
    lemma_stretch(0, n, 2 * ctx.config.conv_channels());
}

impl Qwen3SsmLayer {
    /// Weights of the input projection.
    pub open spec fn qkvz_weight(&self) -> WeightRef {
        match self.qkvz_fp8w {
            Some(w) => WeightRef::Fp8(w),
            None => WeightRef::Dense(self.ssm.in_proj_qkvz),
        }
    }

    /// Weights of the output projection: eight-bit ones first.
    pub open spec fn out_weight(&self) -> WeightRef {
        match self.out_proj_fp8w {
            Some(w) => WeightRef::Fp8(w),
            None => WeightRef::Dense(self.out_proj_dense->0),
        }
    }

    /// Norm of an incoming row.
    pub open spec fn normalised(&self, c: ModelConfig, row: Held) -> Held {
        Held::Normed {
            row: Box::new(row),
            weight: self.input_norm,
            eps: c.rms_norm_eps,
            dim: c.hidden_size as u32,
        }
    }

    /// Projection of a normalised row.
    pub open spec fn projected(&self, c: ModelConfig, x: Held) -> Held {
        Held::Product {
            row: Box::new(x),
            weight: self.qkvz_weight(),
            n: c.ssm_qkvz_size as u32,
            k: c.hidden_size as u32,
        }
    }

    /// The step that a row of a sequence takes with the sequence's own states.
    pub open spec fn mixer_step(&self, c: ModelConfig, row: Held, h: Held, conv: Held) -> Step {
        let x = self.normalised(c, row);
        self.step(c, x, self.projected(c, x), h, conv)
    }

    /// What the mixer adds to that row.
    pub open spec fn mixed_row(&self, c: ModelConfig, row: Held, h: Held, conv: Held) -> Held {
        let p = self.projected(c, self.normalised(c, row));
        Held::Product {
            row: Box::new(
                self.gated(
                    c,
                    self.mixer_step(c, row, h, conv),
                    Held::Part { of: Box::new(p), from: 2 * c.conv_channels() },
                ),
            ),
            weight: self.out_weight(),
            n: c.hidden_size as u32,
            k: c.value_dim() as u32,
        }
    }
}

/// An address in buffer `k` lies outside of buffer `j` and of all states.
#[verifier::rlimit(50)]
proof fn lemma_in_area(
    l: &Qwen3SsmLayer,
    ctx: &ForwardContext,
    hidden: DevicePtr,
    residual: DevicePtr,
    states: Seq<SsmLayerState>,
    n: int,
    k: int,
    a: int,
)
    requires
        l.mixer_apart(ctx, hidden, residual, states, n),
        0 <= k < 8,
        !clear_of(
            a,
            areas(ctx, hidden, residual, n)[k].0.0 as int,
            areas(ctx, hidden, residual, n)[k].1,
        ),
    ensures
        forall|j: int|
            #![trigger areas(ctx, hidden, residual, n)[j]]
            0 <= j < 8 && j != k ==> clear_of(
                a,
                areas(ctx, hidden, residual, n)[j].0.0 as int,
                areas(ctx, hidden, residual, n)[j].1,
            ),
        k != 2 && k != 3 && k != 4 ==> spared(l, ctx, states, n, a),
        forall|i: int|
            0 <= i < n ==> clear_of(a, (#[trigger] states[i]).h_state.0 as int, l.h_state_bytes as int)
                && clear_of(a, states[i].conv_state.0 as int, l.conv_state_bytes as int),
{
    reveal(Qwen3SsmLayer::mixer_apart);
    let st = areas(ctx, hidden, residual, n);
    assert forall|j: int|
        #![trigger areas(ctx, hidden, residual, n)[j]]
        0 <= j < 8 && j != k implies clear_of(a, st[j].0.0 as int, st[j].1) by {
        if j < k {
            assert(disjoint(st[j].0, st[j].1, st[k].0, st[k].1));
        } else {
            assert(disjoint(st[k].0, st[k].1, st[j].0, st[j].1));
        }
    }
    assert forall|i: int| 0 <= i < n implies clear_of(
        a,
        (#[trigger] states[i]).h_state.0 as int,
        l.h_state_bytes as int,
    ) && clear_of(a, states[i].conv_state.0 as int, l.conv_state_bytes as int) by {
        assert(outside_areas(st, states[i].h_state, l.h_state_bytes as int));
        assert(outside_areas(st, states[i].conv_state, l.conv_state_bytes as int));
        assert(disjoint(states[i].h_state, l.h_state_bytes as int, st[k].0, st[k].1));
        assert(disjoint(states[i].conv_state, l.conv_state_bytes as int, st[k].0, st[k].1));
    }
    assert(clear_of(a, st[2].0.0 as int, st[2].1) || k == 2);
    assert(clear_of(a, st[3].0.0 as int, st[3].1) || k == 3);
    assert(clear_of(a, st[4].0.0 as int, st[4].1) || k == 4);
}

#[verifier::rlimit(50)]
proof fn lemma_in_projection(
    l: &Qwen3SsmLayer,
    ctx: &ForwardContext,
    env: &EnvVars,
    hidden: DevicePtr,
    residual: DevicePtr,
    states: Seq<SsmLayerState>,
    n: int,
    places: Places,
    m: Memory,
)
    requires
        l.sized(ctx.config, n),
        mixer_fits(ctx, hidden, residual, n),
        l.mixer_apart(ctx, hidden, residual, states, n),
    ensures
        ({
            let c = ctx.config;
            let b = ctx.buffers;
            let h = 2 * c.hidden_size;
            let d = 2 * c.ssm_qkvz_size;
            let cmds = seq![
                l.input_norm_cmd(ctx, hidden, residual, b.norm_output, n),
                l.qkvz_cmd(ctx, env, n),
            ];
            &&& run(places, m, cmds) matches Some(v)
            &&& forall|i: int|
                #![trigger states[i]]
                0 <= i < n ==> {
                    let x = l.normalised(c, m.row(hidden, i, h));
                    &&& v.row(b.norm_output, i, h) == x
                    &&& v.row(b.ssm_deinterleaved, i, d) == l.projected(c, x)
                    &&& (v.at)(b.ssm_deinterleaved.0 + i * d + 2 * c.conv_channels()) == (Held::Part {
                        of: Box::new(l.projected(c, x)),
                        from: 2 * c.conv_channels(),
                    })
                    &&& v.row(hidden, i, h) == m.row(hidden, i, h)
                    &&& v.held(states[i].h_state) == m.held(states[i].h_state)
                    &&& v.held(states[i].conv_state) == m.held(states[i].conv_state)
                }
        }),
{
    let c = ctx.config;
    let b = ctx.buffers;
    let h = 2 * c.hidden_size;
    let d = 2 * c.ssm_qkvz_size;
    let c0 = l.input_norm_cmd(ctx, hidden, residual, b.norm_output, n);
    let c1 = l.qkvz_cmd(ctx, env, n);
    let cmds = seq![c0, c1];
    lemma_run_two(places, m, c0, c1);
    lemma_after_norm_residual(places, m, c0->Op_0);
    let m1 = after(places, m, c0)->0;
    lemma_after_matmul(places, m1, c1->Op_0);
    let v = after(places, m1, c1)->0;
    let st = areas(ctx, hidden, residual, n);
    let (xp, dp, rp) = (
        b.norm_output.0 as int,
        b.ssm_deinterleaved.0 as int,
        residual.0 as int,
    );
    assert(st[0] == (b.norm_output, n * h));
    assert(st[1] == (b.ssm_deinterleaved, n * d));
    assert(st[6] == (hidden, n * h));
    assert(st[7] == (residual, n * h));
    assert forall|a: int| clear_of(a, xp, n * h) && clear_of(a, rp, n * h) implies #[trigger] (m1.at)(
        a,
    ) == (m.at)(a) by {
        lemma_row_miss(a, xp, h, h, n);
        lemma_row_miss(a, rp, h, h, n);
    }
    assert forall|a: int| clear_of(a, dp, n * d) implies #[trigger] (v.at)(a) == (m1.at)(a) by {
        lemma_row_miss(a, dp, d, d, n);
    }
    assert forall|i: int|
        #![trigger states[i]]
        0 <= i < n implies ({
        let x = l.normalised(c, m.row(hidden, i, h));
        &&& v.row(b.norm_output, i, h) == x
        &&& v.row(b.ssm_deinterleaved, i, d) == l.projected(c, x)
        &&& (v.at)(b.ssm_deinterleaved.0 + i * d + 2 * c.conv_channels()) == (Held::Part {
            of: Box::new(l.projected(c, x)),
            from: 2 * c.conv_channels(),
        })
        &&& v.row(hidden, i, h) == m.row(hidden, i, h)
        &&& v.held(states[i].h_state) == m.held(states[i].h_state)
        &&& v.held(states[i].conv_state) == m.held(states[i].conv_state)
    }) by {
        lemma_addresses(l, ctx, hidden, residual, n, i);
        lemma_row_hit(xp, h, h, n, i);
        lemma_row_hit(dp, d, d, n, i);
        lemma_row_part(dp, d, d, n, i, 2 * c.conv_channels());
        lemma_in_area(l, ctx, hidden, residual, states, n, 6, hidden.0 + i * h);
        lemma_in_area(l, ctx, hidden, residual, states, n, 0, xp + i * h);
        lemma_state_clear_of(l, ctx, hidden, residual, states, n, i, 0);
        lemma_state_clear_of(l, ctx, hidden, residual, states, n, i, 1);
        lemma_state_clear_of(l, ctx, hidden, residual, states, n, i, 7);
        assert((m1.at)(xp + i * h) == l.normalised(c, m.row(hidden, i, h)));
    }
}

/// States lie outside of every buffer.
proof fn lemma_state_clear_of(
    l: &Qwen3SsmLayer,
    ctx: &ForwardContext,
    hidden: DevicePtr,
    residual: DevicePtr,
    states: Seq<SsmLayerState>,
    n: int,
    i: int,
    k: int,
)
    requires
        l.mixer_apart(ctx, hidden, residual, states, n),
        l.sized(ctx.config, n),
        0 <= i < n,
        0 <= k < 8,
    ensures
        clear_of(
            states[i].h_state.0 as int,
            areas(ctx, hidden, residual, n)[k].0.0 as int,
            areas(ctx, hidden, residual, n)[k].1,
        ),
        clear_of(
            states[i].conv_state.0 as int,
            areas(ctx, hidden, residual, n)[k].0.0 as int,
            areas(ctx, hidden, residual, n)[k].1,
        ),
{
    reveal(Qwen3SsmLayer::mixer_apart);
    let st = areas(ctx, hidden, residual, n);
    assert(outside_areas(st, states[i].h_state, l.h_state_bytes as int));
    assert(outside_areas(st, states[i].conv_state, l.conv_state_bytes as int));
    assert(disjoint(states[i].h_state, l.h_state_bytes as int, st[k].0, st[k].1));
    assert(disjoint(states[i].conv_state, l.conv_state_bytes as int, st[k].0, st[k].1));
}

#[verifier::rlimit(50)]
proof fn lemma_out_projection(
    l: &Qwen3SsmLayer,
    ctx: &ForwardContext,
    env: &EnvVars,
    hidden: DevicePtr,
    residual: DevicePtr,
    states: Seq<SsmLayerState>,
    n: int,
    places: Places,
    m: Memory,
)
    requires
        l.batches(n),
        l.sized(ctx.config, n),
        mixer_fits(ctx, hidden, residual, n),
        l.mixer_apart(ctx, hidden, residual, states, n),
    ensures
        ({
            let c = ctx.config;
            let b = ctx.buffers;
            let h = 2 * c.hidden_size;
            let cmds = l.out_proj_cmds(ctx, env, n) + seq![
                l.post_norm_cmd(ctx, hidden, residual, b.moe_output, b.norm_output, n),
            ];
            &&& run(places, m, cmds) matches Some(v)
            &&& forall|i: int|
                #![trigger states[i]]
                0 <= i < n ==> {
                    let sum = Held::Sum {
                        a: Box::new(m.row(hidden, i, h)),
                        b: Box::new(
                            Held::Product {
                                row: Box::new(m.row(b.ssm_qkvz, i, 2 * c.value_dim())),
                                weight: l.out_weight(),
                                n: c.hidden_size as u32,
                                k: c.value_dim() as u32,
                            },
                        ),
                    };
                    &&& v.row(hidden, i, h) == sum
                    &&& v.row(residual, i, h) == sum
                    &&& v.row(b.norm_output, i, h) == (Held::Normed {
                        row: Box::new(sum),
                        weight: l.post_attn_norm,
                        eps: c.rms_norm_eps,
                        dim: c.hidden_size as u32,
                    })
                    &&& v.held(states[i].h_state) == m.held(states[i].h_state)
                    &&& v.held(states[i].conv_state) == m.held(states[i].conv_state)
                }
        }),
{
    let c = ctx.config;
    let b = ctx.buffers;
    let h = 2 * c.hidden_size;
    let out = l.out_proj_cmds(ctx, env, n);
    let c0 = out[0];
    let c1 = l.post_norm_cmd(ctx, hidden, residual, b.moe_output, b.norm_output, n);
    assert(out + seq![c1] =~= seq![c0, c1]);
    lemma_run_two(places, m, c0, c1);
    lemma_after_matmul(places, m, c0->Op_0);
    let m1 = after(places, m, c0)->0;
    lemma_after_add_norm(places, m1, c1->Op_0);
    let v = after(places, m1, c1)->0;
    let st = areas(ctx, hidden, residual, n);
    let (xp, op, hp, rp) = (
        b.norm_output.0 as int,
        b.moe_output.0 as int,
        hidden.0 as int,
        residual.0 as int,
    );
    assert(st[0] == (b.norm_output, n * h));
    assert(st[5] == (b.moe_output, n * h));
    assert(st[6] == (hidden, n * h));
    assert(st[7] == (residual, n * h));
    assert forall|a: int| clear_of(a, op, n * h) implies #[trigger] (m1.at)(a) == (m.at)(a) by {
        lemma_row_miss(a, op, h, h, n);
    }
    assert forall|a: int|
        clear_of(a, xp, n * h) && clear_of(a, hp, n * h) && clear_of(a, rp, n * h) implies #[trigger] (
    v.at)(a) == (m1.at)(a) by {
        lemma_row_miss(a, xp, h, h, n);
        lemma_row_miss(a, hp, h, h, n);
        lemma_row_miss(a, rp, h, h, n);
    }
    assert(c.value_dim() <= u32::MAX) by {
        lemma_stretch(0, n, c.value_dim());
    }
    assert forall|i: int|
        #![trigger states[i]]
        0 <= i < n implies ({
        let sum = Held::Sum {
            a: Box::new(m.row(hidden, i, h)),
            b: Box::new(
                Held::Product {
                    row: Box::new(m.row(b.ssm_qkvz, i, 2 * c.value_dim())),
                    weight: l.out_weight(),
                    n: c.hidden_size as u32,
                    k: c.value_dim() as u32,
                },
            ),
        };
        &&& v.row(hidden, i, h) == sum
        &&& v.row(residual, i, h) == sum
        &&& v.row(b.norm_output, i, h) == (Held::Normed {
            row: Box::new(sum),
            weight: l.post_attn_norm,
            eps: c.rms_norm_eps,
            dim: c.hidden_size as u32,
        })
        &&& v.held(states[i].h_state) == m.held(states[i].h_state)
        &&& v.held(states[i].conv_state) == m.held(states[i].conv_state)
    }) by {
        lemma_addresses(l, ctx, hidden, residual, n, i);
        lemma_row_hit(op, h, h, n, i);
        lemma_row_hit(xp, h, h, n, i);
        lemma_row_hit(hp, h, h, n, i);
        lemma_row_hit(rp, h, h, n, i);
        lemma_in_area(l, ctx, hidden, residual, states, n, 6, hp + i * h);
        lemma_in_area(l, ctx, hidden, residual, states, n, 7, rp + i * h);
        lemma_state_clear_of(l, ctx, hidden, residual, states, n, i, 0);
        lemma_state_clear_of(l, ctx, hidden, residual, states, n, i, 5);
        lemma_state_clear_of(l, ctx, hidden, residual, states, n, i, 6);
        lemma_state_clear_of(l, ctx, hidden, residual, states, n, i, 7);
        lemma_row_miss(hp + i * h, xp, h, h, n);
        lemma_row_miss(hp + i * h, rp, h, h, n);
        lemma_row_miss(rp + i * h, xp, h, h, n);
    }
}

/// Every sequence mixes on its own: its row is normalised, projected, convolved with its
/// own convolution state and stepped with its own recurrent state, each exactly once, and
/// the gated result is added to its own row. That holds however the sequences share
/// launches.
#[verifier::rlimit(50)]
pub proof fn law_sequences_step_their_own_states(
    l: &Qwen3SsmLayer,
    ctx: &ForwardContext,
    env: &EnvVars,
    hidden: DevicePtr,
    residual: DevicePtr,
    states: Seq<SsmLayerState>,
    n: int,
    places: Places,
    m: Memory,
    i: int,
)
    requires
        l.batches(n),
        l.sized(ctx.config, n),
        mixer_fits(ctx, hidden, residual, n),
        l.mixer_apart(ctx, hidden, residual, states, n),
        l.mixer_places(ctx, places),
        0 <= i < n,
    ensures
        ({
            let c = ctx.config;
            let h = 2 * c.hidden_size;
            let row = m.row(hidden, i, h);
            let (hs, cs) = (m.held(states[i].h_state), m.held(states[i].conv_state));
            let sum = Held::Sum { a: Box::new(row), b: Box::new(l.mixed_row(c, row, hs, cs)) };
            &&& run(places, m, l.mixer_batched(ctx, env, hidden, residual, states, n)) matches Some(v)
            &&& v.row(hidden, i, h) == sum
            &&& v.row(residual, i, h) == sum
            &&& v.row(ctx.buffers.norm_output, i, h) == (Held::Normed {
                row: Box::new(sum),
                weight: l.post_attn_norm,
                eps: c.rms_norm_eps,
                dim: c.hidden_size as u32,
            })
            &&& v.held(states[i].h_state) == Held::Stepped(l.mixer_step(c, row, hs, cs))
            &&& v.held(states[i].conv_state) == (Held::Shifted {
                state: Box::new(cs),
                row: Box::new(l.projected(c, l.normalised(c, row))),
            })
        }),
{
    let c = ctx.config;
    let b = ctx.buffers;
    let h = 2 * c.hidden_size;
    let head = seq![
        l.input_norm_cmd(ctx, hidden, residual, b.norm_output, n),
        l.qkvz_cmd(ctx, env, n),
    ];
    let rec = if l.recurs_batched(env, states, n) {
        l.recurrence_batched(ctx, env, states[0], n)
    } else {
        l.recurrence_each(ctx, env, states, n as nat)
    };
    let out = l.out_proj_cmds(ctx, env, n);
    let last = seq![l.post_norm_cmd(ctx, hidden, residual, b.moe_output, b.norm_output, n)];
    assert(l.mixer_batched(ctx, env, hidden, residual, states, n) =~= head + rec + (out + last));
    lemma_run_add(places, m, head + rec, out + last);
    lemma_run_add(places, m, head, rec);
    lemma_in_projection(l, ctx, env, hidden, residual, states, n, places, m);
    let m1 = run(places, m, head)->0;
    if l.recurs_batched(env, states, n) {
        if l.kernels.gdn_f32_strided_norm.present() && env.says("ATLAS_GDN_FUSED_NORM"@, "1"@) {
            lemma_batch_fused(l, ctx, env, hidden, residual, states, n, places, m1);
        } else {
            lemma_batch_split(l, ctx, env, hidden, residual, states, n, places, m1);
        }
    } else {
        lemma_each_steps(l, ctx, env, hidden, residual, states, n, n as nat, places, m1);
    }
    let m2 = run(places, m1, rec)->0;
    assert(stepped(l, ctx, states, m1, m2, i));
    lemma_addresses(l, ctx, hidden, residual, n, i);
    assert(areas(ctx, hidden, residual, n)[6] == (hidden, n * h));
    lemma_in_area(l, ctx, hidden, residual, states, n, 6, hidden.0 + i * h);
    assert((m2.at)(hidden.0 + i * h) == (m1.at)(hidden.0 + i * h));
    lemma_out_projection(l, ctx, env, hidden, residual, states, n, places, m2);
    assert(states[i] == states[i]);
}

} // verus!
