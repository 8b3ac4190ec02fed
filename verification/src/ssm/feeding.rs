//! What mixers that run one by one and feed-forward blocks leave in rows.
use crate::context::ForwardContext;
use crate::dataflow::{
    after, after_op, lemma_after_add_norm, lemma_after_norm_residual, lemma_one_row_miss, lemma_row_hit,
    lemma_row_miss, lemma_run_add, lemma_run_one, lemma_run_push, lemma_run_three, lemma_run_two, run, Held,
    Memory, Places,
};
use crate::device::{Cmd, DevicePtr};
use crate::dflash_head::disjoint;
use crate::env::EnvVars;
use crate::ops_table::DeviceOp;
use crate::ssm::decode_multi_seq::rows_fit;
use crate::ssm::layer::Qwen3SsmLayer;
use crate::ssm::mixing::clear_of;
use vstd::prelude::*;

verus! {

/// Rows of `n` sequences have values and do not overlap, and blocks leave their results
/// where the layer reads them.
pub open spec fn rows_apart(
    ctx: &ForwardContext,
    places: Places,
    hidden: DevicePtr,
    residual: DevicePtr,
    n: int,
) -> bool {
    let rows = n * (2 * ctx.config.hidden_size);
    let (normed, out) = (ctx.buffers.norm_output, ctx.buffers.moe_output);
    &&& 0 < ctx.config.hidden_size <= u32::MAX
    &&& 0 < n <= u32::MAX
    &&& n * ctx.config.hidden_size <= u32::MAX
    &&& disjoint(hidden, rows, residual, rows)
    &&& disjoint(hidden, rows, normed, rows)
    &&& disjoint(hidden, rows, out, rows)
    &&& disjoint(residual, rows, normed, rows)
    &&& disjoint(residual, rows, out, rows)
    &&& disjoint(normed, rows, out, rows)
    &&& places.block_out == out
    &&& places.row_bytes == 2 * ctx.config.hidden_size
}

proof fn lemma_row_here(ctx: &ForwardContext, hidden: DevicePtr, residual: DevicePtr, n: int, i: int)
    requires
        rows_fit(ctx, hidden, residual, n),
        0 <= i < n,
        ctx.config.hidden_size > 0,
    ensures
        ({
            let h = ctx.config.hidden_size as int;
            let w = 2 * ctx.config.hidden_size;
            &&& hidden.row_at(i, h, 2).0 == hidden.0 + i * w
            &&& residual.row_at(i, h, 2).0 == residual.0 + i * w
            &&& ctx.buffers.norm_output.row_at(i, h, 2).0 == ctx.buffers.norm_output.0 + i * w
            &&& ctx.buffers.moe_output.row_at(i, h, 2).0 == ctx.buffers.moe_output.0 + i * w
            &&& 0 <= i * w
            &&& i * w + w <= n * w
        }),
{
    let h = ctx.config.hidden_size as int;
    let w = 2 * h;
    assert(i * h * 2 == i * w && n * h * 2 == n * w && 0 <= i * w && i * w + w <= n * w) by (nonlinear_arith)
        requires
            0 <= i < n,
            w == 2 * h,
            h > 0,
    ;
}

proof fn lemma_rows_order(i: int, j: int, w: int)
    by (nonlinear_arith)
    requires
        i < j,
        w >= 0,
    ensures
        i * w + w <= j * w,
{
}

impl Qwen3SsmLayer {
    /// The row of sequence `i` after its own mixer.
    pub open spec fn alone(&self, ctx: &ForwardContext, row: Held, i: int) -> Held {
        let c = ctx.config;
        Held::Sum {
            a: Box::new(row),
            b: Box::new(
                Held::Mixed {
                    row: Box::new(
                        Held::Normed {
                            row: Box::new(row),
                            weight: self.input_norm,
                            eps: c.rms_norm_eps,
                            dim: c.hidden_size as u32,
                        },
                    ),
                    seq: i as usize,
                },
            ),
        }
    }

    /// Rows of sequence `i` in `v` after its mixer, by what `m` held.
    pub open spec fn mixed_alone(
        &self,
        ctx: &ForwardContext,
        hidden: DevicePtr,
        residual: DevicePtr,
        m: Memory,
        v: Memory,
        i: int,
    ) -> bool {
        let h = 2 * ctx.config.hidden_size;
        let sum = self.alone(ctx, m.row(hidden, i, h), i);
        &&& v.row(hidden, i, h) == sum
        &&& v.row(residual, i, h) == sum
        &&& v.row(ctx.buffers.norm_output, i, h) == (Held::Normed {
            row: Box::new(sum),
            weight: self.post_attn_norm,
            eps: ctx.config.rms_norm_eps,
            dim: ctx.config.hidden_size as u32,
        })
    }
}

#[verifier::rlimit(60)]
proof fn lemma_mixer_of(
    l: &Qwen3SsmLayer,
    ctx: &ForwardContext,
    hidden: DevicePtr,
    residual: DevicePtr,
    n: int,
    places: Places,
    m: Memory,
    i: int,
)
    requires
        rows_fit(ctx, hidden, residual, n),
        rows_apart(ctx, places, hidden, residual, n),
        0 <= i < n,
    ensures
        ({
            let h = 2 * ctx.config.hidden_size;
            &&& run(places, m, l.mixer_of(ctx, hidden, residual, i)) matches Some(v)
            &&& l.mixed_alone(ctx, hidden, residual, m, v, i)
            &&& forall|a: int|
                clear_of(a, hidden.0 + i * h, h) && clear_of(a, residual.0 + i * h, h) && clear_of(
                    a,
                    ctx.buffers.norm_output.0 + i * h,
                    h,
                ) && a != ctx.buffers.moe_output.0 ==> #[trigger] (v.at)(a) == (m.at)(a)
        }),
{
    let h = 2 * ctx.config.hidden_size;
    lemma_row_here(ctx, hidden, residual, n, i);
    let cmds = l.mixer_of(ctx, hidden, residual, i);
    let (hp, rp, np) = (hidden.0 + i * h, residual.0 + i * h, ctx.buffers.norm_output.0 + i * h);
    lemma_run_three(places, m, cmds[0], cmds[1], cmds[2]);
    assert(cmds =~= seq![cmds[0], cmds[1], cmds[2]]);
    lemma_after_norm_residual(places, m, cmds[0]->Op_0);
    let m1 = after(places, m, cmds[0])->0;
    assert(after(places, m1, cmds[1]) is Some) by {
        reveal(after_op);
    }
    let m2 = after(places, m1, cmds[1])->0;
    assert(m2 == m1.put(
        places.block_out,
        Held::Mixed {
            row: Box::new(m1.held(cmds[1]->Op_0->SsmForward_input)),
            seq: i as usize,
        },
    )) by {
        reveal(after_op);
    }
    lemma_after_add_norm(places, m2, cmds[2]->Op_0);
    let v = after(places, m2, cmds[2])->0;
    lemma_row_hit(hp, h, h, 1, 0);
    lemma_row_hit(rp, h, h, 1, 0);
    lemma_row_hit(np, h, h, 1, 0);
    lemma_one_row_miss(hp, rp, h, h);
    lemma_one_row_miss(hp, np, h, h);
    lemma_one_row_miss(rp, np, h, h);
    assert forall|a: int|
        clear_of(a, hp, h) && clear_of(a, rp, h) && clear_of(a, np, h) && a
            != ctx.buffers.moe_output.0 implies #[trigger] (v.at)(a) == (m.at)(a) by {
        lemma_one_row_miss(a, hp, h, h);
        lemma_one_row_miss(a, rp, h, h);
        lemma_one_row_miss(a, np, h, h);
    }
}

/// Where mixers run one by one, every sequence's row passes the mixer of that sequence.
#[verifier::rlimit(60)]
pub proof fn law_single_mixers_keep_to_their_rows(
    l: &Qwen3SsmLayer,
    ctx: &ForwardContext,
    hidden: DevicePtr,
    residual: DevicePtr,
    n: int,
    k: nat,
    places: Places,
    m: Memory,
)
    requires
        rows_fit(ctx, hidden, residual, n),
        rows_apart(ctx, places, hidden, residual, n),
        k <= n,
    ensures
        ({
            let h = 2 * ctx.config.hidden_size;
            &&& run(places, m, l.mixer_each(ctx, hidden, residual, k)) matches Some(v)
            &&& forall|i: int| 0 <= i < k ==> #[trigger] l.mixed_alone(ctx, hidden, residual, m, v, i)
            &&& forall|i: int| k <= i < n ==> #[trigger] v.row(hidden, i, h) == m.row(hidden, i, h)
        }),
    decreases k,
{
    let h = 2 * ctx.config.hidden_size;
    if k > 0 {
        let p = k - 1;
        law_single_mixers_keep_to_their_rows(l, ctx, hidden, residual, n, p as nat, places, m);
        let t = run(places, m, l.mixer_each(ctx, hidden, residual, p as nat))->0;
        lemma_mixer_of(l, ctx, hidden, residual, n, places, t, p);
        lemma_run_add(
            places,
            m,
            l.mixer_each(ctx, hidden, residual, p as nat),
            l.mixer_of(ctx, hidden, residual, p),
        );
        let v = run(places, t, l.mixer_of(ctx, hidden, residual, p))->0;
        lemma_row_here(ctx, hidden, residual, n, p);
        assert(t.row(hidden, p, h) == m.row(hidden, p, h));
        assert forall|i: int| 0 <= i < k implies #[trigger] l.mixed_alone(ctx, hidden, residual, m, v, i) by {
            if i < p {
                assert(l.mixed_alone(ctx, hidden, residual, m, t, i));
                lemma_row_here(ctx, hidden, residual, n, i);
                lemma_rows_order(i, p, h);
            }
        }
        assert forall|i: int| k <= i < n implies #[trigger] v.row(hidden, i, h) == m.row(hidden, i, h) by {
            lemma_row_here(ctx, hidden, residual, n, i);
            lemma_rows_order(p, i, h);
            assert(t.row(hidden, i, h) == m.row(hidden, i, h));
        }
    }
}

/// Row `i` after the feed-forward block: the block on the row's own norm is added to it.
pub open spec fn fed(ctx: &ForwardContext, hidden: DevicePtr, m: Memory, i: int) -> Held {
    let h = 2 * ctx.config.hidden_size;
    Held::Sum {
        a: Box::new(m.row(hidden, i, h)),
        b: Box::new(Held::Fed { row: Box::new(m.row(ctx.buffers.norm_output, i, h)) }),
    }
}

proof fn lemma_add(
    l: &Qwen3SsmLayer,
    places: Places,
    u: Memory,
    hidden: DevicePtr,
    addend: DevicePtr,
    count: u32,
)
    ensures
        after(places, u, l.add_cmd(hidden, addend, count)) == Some(
            u.fill(
                hidden,
                2 * count,
                |i: int|
                    Held::Sum {
                        a: Box::new((u.at)(hidden.0 + i)),
                        b: Box::new((u.at)(addend.0 + i)),
                    },
            ),
        ),
{
    reveal(after_op);
}

proof fn lemma_block(places: Places, u: Memory, op: DeviceOp)
    requires
        op is Ffn,
    ensures
        after(places, u, Cmd::Op(op)) == Some(
            u.put_rows(
                places.block_out,
                places.row_bytes,
                places.row_bytes,
                op->Ffn_n as int,
                |r: int| Held::Fed { row: Box::new(u.row(op->Ffn_input, r, places.row_bytes)) },
            ),
        ),
{
    reveal(after_op);
}

proof fn lemma_add_rows(
    l: &Qwen3SsmLayer,
    ctx: &ForwardContext,
    hidden: DevicePtr,
    residual: DevicePtr,
    n: int,
    k: nat,
    places: Places,
    u: Memory,
)
    requires
        rows_fit(ctx, hidden, residual, n),
        rows_apart(ctx, places, hidden, residual, n),
        k <= n,
    ensures
        ({
            let h = 2 * ctx.config.hidden_size;
            let out = ctx.buffers.moe_output;
            &&& run(places, u, l.add_rows(ctx, hidden, k)) matches Some(v)
            &&& forall|i: int|
                0 <= i < k ==> #[trigger] v.row(hidden, i, h) == (Held::Sum {
                    a: Box::new(u.row(hidden, i, h)),
                    b: Box::new(u.row(out, i, h)),
                })
            &&& forall|a: int| clear_of(a, hidden.0 as int, k * h) ==> #[trigger] (v.at)(a) == (u.at)(a)
        }),
    decreases k,
{
    let h = 2 * ctx.config.hidden_size;
    let out = ctx.buffers.moe_output;
    if k > 0 {
        let p = k - 1;
        lemma_add_rows(l, ctx, hidden, residual, n, p as nat, places, u);
        let t = run(places, u, l.add_rows(ctx, hidden, p as nat))->0;
        let hs = ctx.config.hidden_size as int;
        let cmd = l.add_cmd(hidden.row_at(p, hs, 2), out.row_at(p, hs, 2), hs as u32);
        lemma_run_push(places, u, l.add_rows(ctx, hidden, p as nat), cmd);
        lemma_add(l, places, t, hidden.row_at(p, hs, 2), out.row_at(p, hs, 2), hs as u32);
        let v = after(places, t, cmd)->0;
        lemma_row_here(ctx, hidden, residual, n, p);
        assert(k * h == p * h + h) by (nonlinear_arith)
            requires
                k == p + 1,
        ;
        assert(t.row(hidden, p, h) == u.row(hidden, p, h));
        assert(t.row(out, p, h) == u.row(out, p, h));
        assert forall|i: int| 0 <= i < k implies #[trigger] v.row(hidden, i, h) == (Held::Sum {
            a: Box::new(u.row(hidden, i, h)),
            b: Box::new(u.row(out, i, h)),
        }) by {
            if i < p {
                assert(t.row(hidden, i, h) == (Held::Sum {
                    a: Box::new(u.row(hidden, i, h)),
                    b: Box::new(u.row(out, i, h)),
                }));
                lemma_rows_order(i, p, h);
            }
        }
    } else {
        assert(0 * h == 0) by (nonlinear_arith);
    }
}

proof fn lemma_ffn_each(
    l: &Qwen3SsmLayer,
    ctx: &ForwardContext,
    hidden: DevicePtr,
    residual: DevicePtr,
    n: int,
    k: nat,
    places: Places,
    m: Memory,
)
    requires
        rows_fit(ctx, hidden, residual, n),
        rows_apart(ctx, places, hidden, residual, n),
        k <= n,
    ensures
        ({
            let h = 2 * ctx.config.hidden_size;
            let out = ctx.buffers.moe_output;
            &&& run(places, m, l.ffn_each(ctx, hidden, k)) matches Some(v)
            &&& forall|i: int| 0 <= i < k ==> #[trigger] v.row(hidden, i, h) == fed(ctx, hidden, m, i)
            &&& forall|a: int|
                clear_of(a, hidden.0 as int, k * h) && clear_of(a, out.0 as int, h) ==> #[trigger] (v.at)(a)
                    == (m.at)(a)
        }),
    decreases k,
{
    let h = 2 * ctx.config.hidden_size;
    let (out, normed) = (ctx.buffers.moe_output, ctx.buffers.norm_output);
    if k > 0 {
        let p = k - 1;
        let hs = ctx.config.hidden_size as int;
        lemma_ffn_each(l, ctx, hidden, residual, n, p as nat, places, m);
        let t = run(places, m, l.ffn_each(ctx, hidden, p as nat))->0;
        let cmds = l.ffn_each(ctx, hidden, k).subrange(
            l.ffn_each(ctx, hidden, p as nat).len() as int,
            l.ffn_each(ctx, hidden, k).len() as int,
        );
        assert(cmds =~= seq![cmds[0], cmds[1]]);
        assert(l.ffn_each(ctx, hidden, k) =~= l.ffn_each(ctx, hidden, p as nat) + cmds);
        lemma_run_add(places, m, l.ffn_each(ctx, hidden, p as nat), cmds);
        lemma_run_two(places, t, cmds[0], cmds[1]);
        lemma_block(places, t, cmds[0]->Op_0);
        let t1 = after(places, t, cmds[0])->0;
        lemma_add(l, places, t1, hidden.row_at(p, hs, 2), out, hs as u32);
        let v = after(places, t1, cmds[1])->0;
        lemma_row_here(ctx, hidden, residual, n, p);
        lemma_row_hit(out.0 as int, h, h, 1, 0);
        assert(k * h == p * h + h) by (nonlinear_arith)
            requires
                k == p + 1,
        ;
        assert(h <= n * h) by (nonlinear_arith)
            requires
                1 <= n,
                0 <= h,
        ;
        assert(t.row(normed, p, h) == m.row(normed, p, h));
        assert(t.row(hidden, p, h) == m.row(hidden, p, h));
        lemma_one_row_miss(hidden.0 + p * h, out.0 as int, h, h);
        assert forall|i: int| 0 <= i < k implies #[trigger] v.row(hidden, i, h) == fed(ctx, hidden, m, i) by {
            if i < p {
                assert(t.row(hidden, i, h) == fed(ctx, hidden, m, i));
                lemma_rows_order(i, p, h);
                lemma_row_here(ctx, hidden, residual, n, i);
                lemma_one_row_miss(hidden.0 + i * h, out.0 as int, h, h);
            }
        }
        assert forall|a: int|
            clear_of(a, hidden.0 as int, k * h) && clear_of(a, out.0 as int, h) implies #[trigger] (v.at)(a)
            == (m.at)(a) by {
            lemma_one_row_miss(a, out.0 as int, h, h);
            assert((t.at)(a) == (m.at)(a));
        }
    } else {
        assert(0 * h == 0) by (nonlinear_arith);
    }
}

/// Whichever entry of the feed-forward block runs, and however its results are added,
/// every row grows by the block on its own norm, exactly once.
#[verifier::rlimit(60)]
pub proof fn law_rows_are_fed_once(
    l: &Qwen3SsmLayer,
    ctx: &ForwardContext,
    env: &EnvVars,
    hidden: DevicePtr,
    residual: DevicePtr,
    n: int,
    places: Places,
    m: Memory,
)
    requires
        rows_fit(ctx, hidden, residual, n),
        rows_apart(ctx, places, hidden, residual, n),
    ensures
        ({
            let h = 2 * ctx.config.hidden_size;
            &&& run(places, m, l.ffn_cmds(ctx, env, hidden, n)) matches Some(v)
            &&& forall|i: int| 0 <= i < n ==> #[trigger] v.row(hidden, i, h) == fed(ctx, hidden, m, i)
        }),
{
    let h = 2 * ctx.config.hidden_size;
    let (out, normed) = (ctx.buffers.moe_output, ctx.buffers.norm_output);
    let all = l.ffn_cmds(ctx, env, hidden, n);
    if Qwen3SsmLayer::batched_entry(env, n) is Some {
        let first = seq![all[0]];
        let rest = if n == 2 || n == 3 {
            l.add_rows(ctx, hidden, n as nat)
        } else {
            seq![l.add_cmd(hidden, out, (n * ctx.config.hidden_size) as u32)]
        };
        assert(all =~= first + rest);
        lemma_run_add(places, m, first, rest);
        lemma_run_one(places, m, all[0]);
        lemma_block(places, m, all[0]->Op_0);
        let u = after(places, m, all[0])->0;
        if n == 2 || n == 3 {
            lemma_add_rows(l, ctx, hidden, residual, n, n as nat, places, u);
        } else {
            lemma_run_one(places, u, rest[0]);
            lemma_add(l, places, u, hidden, out, (n * ctx.config.hidden_size) as u32);
        }
        let v = run(places, u, rest)->0;
        assert forall|i: int| 0 <= i < n implies #[trigger] v.row(hidden, i, h) == fed(ctx, hidden, m, i) by {
            lemma_row_here(ctx, hidden, residual, n, i);
            lemma_row_hit(out.0 as int, h, h, n, i);
            lemma_row_miss(hidden.0 + i * h, out.0 as int, h, h, n);
            assert(u.row(hidden, i, h) == m.row(hidden, i, h));
            assert(u.row(out, i, h) == (Held::Fed { row: Box::new(m.row(normed, i, h)) }));
            assert(2 * (n * ctx.config.hidden_size) == n * h) by (nonlinear_arith)
                requires
                    h == 2 * ctx.config.hidden_size,
            ;
        }
    } else {
        lemma_ffn_each(l, ctx, hidden, residual, n, n as nat, places, m);
    }
}

} // verus!
