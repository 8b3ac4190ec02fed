//! What attention and the output projection of many sequences leave behind.
use crate::attention::layer::{fp8_of, q2_of, LoraRoute, Qwen3AttentionLayer};
use crate::attention::multi_seq_attn::{head_launch, AttnMetadataDev};
use crate::attention::multi_seq_qkv::MultiSeqCtx;
use crate::attention::sequences::head;
use crate::context::ForwardContext;
use crate::dataflow::{
    after, lemma_after_adapters, lemma_after_attention, lemma_after_batch_product, lemma_after_copy,
    lemma_after_head_gates, lemma_after_matmul, lemma_after_two_bit, lemma_after_value_gates,
    lemma_after_wide, lemma_head_launch, lemma_one_row_miss, lemma_row_hit, lemma_row_miss, lemma_row_part, lemma_run_add,
    lemma_run_one, run, slice, Held, Memory, Places,
};
use crate::device::{Cmd, DevicePtr, KernelHandle};
use crate::dflash_head::disjoint;
use crate::env::EnvVars;
use crate::ops_table::WeightRef;
use crate::ssm::mixing::clear_of;
use vstd::prelude::*;

verus! {

impl MultiSeqCtx {
    /// Queries, staged queries, results, and arrays that attention reads do not overlap.
    pub open spec fn attends_apart(self, ctx: &ForwardContext, meta: AttnMetadataDev) -> bool {
        let rows = self.n * (2 * self.q_dim);
        let (q, staged, out) = (self.qkv_buf, ctx.buffers.ssm_qkvz, ctx.buffers.attn_output);
        &&& disjoint(q, self.n * self.per_seq_qkv, staged, rows)
        &&& disjoint(staged, rows, meta.block_table, self.n * (4 * meta.max_blocks_per_seq))
        &&& disjoint(staged, rows, meta.seq_len, self.n * 4)
        &&& disjoint(q, self.n * self.per_seq_qkv, out, rows)
        &&& meta.max_blocks_per_seq > 0
    }

    /// Head `e` of packed row `i`.
    pub open spec fn packed(self, m: Memory, p: DevicePtr, i: int, e: int) -> Held {
        (m.at)(p.0 + i * (2 * self.q_dim) + e * (2 * self.hd))
    }

    /// Heads have values, and blocks hold the heads that are counted.
    pub open spec fn counts(self) -> bool {
        &&& self.nq > 0
        &&& self.hd > 0
        &&& self.h > 0
        &&& self.h <= u32::MAX
        &&& self.q_dim == self.nq * self.hd
        &&& self.per_seq_qkv / 2 <= u32::MAX
    }
}

/// Heads of all rows are whole rows of heads.
proof fn lemma_packed(c: MultiSeqCtx, i: int, e: int)
    requires
        c.counts(),
        0 <= i < c.n,
        0 <= e < c.nq,
    ensures
        (i * c.nq + e) * (2 * c.hd) == i * (2 * c.q_dim) + e * (2 * c.hd),
        0 <= i * c.nq + e < c.n * c.nq,
        0 <= i * (2 * c.q_dim),
        0 <= e * (2 * c.hd),
        e * (2 * c.hd) + 2 * c.hd <= 2 * c.q_dim,
        i * (2 * c.q_dim) + 2 * c.q_dim <= c.n * (2 * c.q_dim),
        (c.n * c.nq) * (2 * c.hd) == c.n * (2 * c.q_dim),
{
    let (n, nq, hd, qd) = (c.n as int, c.nq as int, c.hd as int, c.q_dim as int);
    assert((i * nq + e) * (2 * hd) == i * (2 * (nq * hd)) + e * (2 * hd)) by (nonlinear_arith);
    assert((n * nq) * (2 * hd) == n * (2 * (nq * hd))) by (nonlinear_arith);
    assert(0 <= i * nq && i * nq + nq <= n * nq) by (nonlinear_arith)
        requires
            0 <= i < n,
            0 < nq,
    ;
    assert(0 <= e * (2 * hd) && e * (2 * hd) + 2 * hd <= 2 * (nq * hd)) by (nonlinear_arith)
        requires
            0 <= e < nq,
            0 < hd,
    ;
    assert(0 <= i * (2 * qd) && i * (2 * qd) + 2 * qd <= n * (2 * qd)) by (nonlinear_arith)
        requires
            0 <= i < n,
            0 <= qd,
    ;
}

/// A head after a transform, where it runs.
pub open spec fn transformed(on: bool, kernel: KernelHandle, of: Held) -> Held {
    if on {
        Held::Transformed { of: Box::new(of), kernel }
    } else {
        of
    }
}

spec fn transform_cmds(on: bool, kernel: KernelHandle, heads: u32, p: DevicePtr, hd: u32) -> Seq<Cmd> {
    if on {
        seq![Cmd::Launch(head_launch(kernel, heads, p, hd))]
    } else {
        Seq::empty()
    }
}

proof fn lemma_transform(
    c: MultiSeqCtx,
    ctx: &ForwardContext,
    places: Places,
    u: Memory,
    on: bool,
    kernel: KernelHandle,
    p: DevicePtr,
)
    requires
        c.fits(ctx),
        c.counts(),
    ensures
        ({
            let cmds = transform_cmds(on, kernel, (c.n * c.nq) as u32, p, c.hd);
            &&& run(places, u, cmds) matches Some(v)
            &&& forall|i: int, e: int|
                0 <= i < c.n && 0 <= e < c.nq ==> #[trigger] c.packed(v, p, i, e) == transformed(
                    on,
                    kernel,
                    c.packed(u, p, i, e),
                )
            &&& forall|a: int| clear_of(a, p.0 as int, c.n * (2 * c.q_dim)) ==> #[trigger] (v.at)(a) == (
            u.at)(a)
            &&& v.cache == u.cache
        }),
{
    let cmds = transform_cmds(on, kernel, (c.n * c.nq) as u32, p, c.hd);
    if on {
        let l = head_launch(kernel, (c.n * c.nq) as u32, p, c.hd);
        lemma_run_one(places, u, Cmd::Launch(l));
        lemma_head_launch(u, l);
        let v = after(places, u, Cmd::Launch(l))->0;
        assert forall|i: int, e: int| 0 <= i < c.n && 0 <= e < c.nq implies #[trigger] c.packed(
            v,
            p,
            i,
            e,
        ) == transformed(on, kernel, c.packed(u, p, i, e)) by {
            lemma_packed(c, i, e);
            lemma_row_hit(p.0 as int, 2 * c.hd, 2 * c.hd, c.n * c.nq, i * c.nq + e);
        }
        assert forall|a: int| clear_of(a, p.0 as int, c.n * (2 * c.q_dim)) implies #[trigger] (v.at)(a)
            == (u.at)(a) by {
            let (n, nq, hd) = (c.n as int, c.nq as int, c.hd as int);
            assert((n * nq) * (2 * hd) == n * (2 * (nq * hd))) by (nonlinear_arith);
            lemma_row_miss(a, p.0 as int, 2 * c.hd, 2 * c.hd, c.n * c.nq);
        }
    }
}

proof fn lemma_stages(
    l: &Qwen3AttentionLayer,
    c: MultiSeqCtx,
    ctx: &ForwardContext,
    meta: AttnMetadataDev,
    places: Places,
    u: Memory,
    n: nat,
)
    requires
        c.fits(ctx),
        c.counts(),
        c.out_fits(ctx, ctx.buffers.attn_output),
        c.attends_apart(ctx, meta),
        n <= c.n,
    ensures
        ({
            let s = ctx.buffers.ssm_qkvz;
            &&& run(places, u, l.stages_cmds(ctx, c, n)) matches Some(v)
            &&& forall|i: int, e: int|
                0 <= i < n && 0 <= e < c.nq ==> #[trigger] c.packed(v, s, i, e) == head(
                    u,
                    c.qkv_buf.0 + i * c.per_seq_qkv,
                    e,
                    c.hd,
                )
            &&& forall|a: int| clear_of(a, s.0 as int, n * (2 * c.q_dim)) ==> #[trigger] (v.at)(a) == (u.at)(
                a,
            )
            &&& v.cache == u.cache
        }),
    decreases n,
{
    let s = ctx.buffers.ssm_qkvz;
    if n > 0 {
        let p = n - 1;
        let (w, qd) = (c.per_seq_qkv as int, c.q_dim as int);
        lemma_stages(l, c, ctx, meta, places, u, p as nat);
        let t = run(places, u, l.stages_cmds(ctx, c, p as nat))->0;
        let cmds = l.stage_of_cmds(ctx, c, p);
        assert(cmds =~= seq![cmds[0]]);
        lemma_run_add(places, u, l.stages_cmds(ctx, c, p as nat), cmds);
        lemma_run_one(places, t, cmds[0]);
        lemma_after_copy(places, t, cmds[0]->Op_0);
        let v = after(places, t, cmds[0])->0;
        lemma_packed(c, p, 0);
        assert(0 <= p * w && p * w + w <= c.n * w && p * w * 1 == p * w && n * (2 * qd) == p * (2 * qd) + 2
            * qd && p * qd * 2 == p * (2 * qd) && c.n * qd * 2 == c.n * (2 * qd) && c.n * w * 1 == c.n * w)
            by (nonlinear_arith)
            requires
                0 <= p < c.n,
                n == p + 1,
                0 <= w,
        ;
        assert forall|i: int, e: int| 0 <= i < n && 0 <= e < c.nq implies #[trigger] c.packed(v, s, i, e)
            == head(u, c.qkv_buf.0 + i * c.per_seq_qkv, e, c.hd) by {
            lemma_packed(c, i, e);
            if i < p {
                assert(c.packed(t, s, i, e) == head(u, c.qkv_buf.0 + i * c.per_seq_qkv, e, c.hd));
                assert(i * (2 * qd) + 2 * qd <= p * (2 * qd)) by (nonlinear_arith)
                    requires
                        i < p,
                        qd >= 0,
                ;
            } else {
                let a = c.qkv_buf.0 + p * w + e * (2 * c.hd);
                assert((t.at)(a) == (u.at)(a));
            }
        }
    } else {
        assert(0 * (2 * c.q_dim) == 0) by (nonlinear_arith);
    }
}

impl Qwen3AttentionLayer {
    /// A query head as attention reads it: transformed where cached keys are.
    pub open spec fn asked(&self, env: &EnvVars, c: MultiSeqCtx, q: Held) -> Held {
        let k = self.kernels;
        transformed(
            self.k_is_turbo && self.rotates(env, c) && k.wht_bf16.present(),
            k.wht_bf16,
            transformed(
                self.k_is_turbo && k.innerq_apply_q.present() && c.hd == 128,
                k.innerq_apply_q,
                q,
            ),
        )
    }

    /// Attention of sequence `i`: its own queries over its own blocks and length.
    pub open spec fn attention_of(
        &self,
        env: &EnvVars,
        c: MultiSeqCtx,
        meta: AttnMetadataDev,
        m: Memory,
        i: int,
    ) -> Held {
        Held::Attended {
            query: Seq::new(
                c.nq as nat,
                |e: int| self.asked(env, c, head(m, c.qkv_buf.0 + i * c.per_seq_qkv, e, c.hd)),
            ),
            cache: m.cache,
            blocks: Box::new(m.row(meta.block_table, i, 4 * meta.max_blocks_per_seq)),
            len: Box::new(m.row(meta.seq_len, i, 4)),
            scale: c.attn_scale,
        }
    }
}

/// Every row of attention is that of its own sequence, whether queries are read in place
/// or staged, and is transformed back where cached values are.
#[verifier::rlimit(60)]
pub proof fn law_sequences_attend_with_their_own_queries(
    l: &Qwen3AttentionLayer,
    ctx: &ForwardContext,
    env: &EnvVars,
    c: MultiSeqCtx,
    meta: AttnMetadataDev,
    places: Places,
    m: Memory,
)
    requires
        c.fits(ctx),
        c.counts(),
        c.out_fits(ctx, ctx.buffers.attn_output),
        c.attends_apart(ctx, meta),
    ensures
        ({
            let back = l.v_is_turbo && l.rotates(env, c) && l.kernels.wht_bf16_inv.present();
            &&& run(places, m, l.paged_decode_cmds(ctx, env, c, meta)) matches Some(v)
            &&& forall|i: int, e: int|
                0 <= i < c.n && 0 <= e < c.nq ==> #[trigger] c.packed(v, ctx.buffers.attn_output, i, e)
                    == transformed(
                    back,
                    l.kernels.wht_bf16_inv,
                    slice(l.attention_of(env, c, meta, m, i), e * (2 * c.hd)),
                )
            &&& !back ==> forall|i: int|
                0 <= i < c.n ==> #[trigger] v.row(ctx.buffers.attn_output, i, 2 * c.q_dim)
                    == l.attention_of(env, c, meta, m, i)
            &&& forall|a: int|
                c.qkv_buf.0 <= a < c.qkv_buf.0 + c.n * c.per_seq_qkv ==> #[trigger] (v.at)(a) == (m.at)(a)
            &&& v.cache == m.cache
        }),
{
    let k = l.kernels;
    let (q, s, out) = (c.qkv_buf, ctx.buffers.ssm_qkvz, ctx.buffers.attn_output);
    let inplace = l.q_inplace(env, c);
    let heads = (c.n * c.nq) as u32;
    let on1 = l.k_is_turbo && k.innerq_apply_q.present() && c.hd == 128;
    let on2 = l.k_is_turbo && l.rotates(env, c) && k.wht_bf16.present();
    let back = l.v_is_turbo && l.rotates(env, c) && k.wht_bf16_inv.present();
    let at = if inplace {
        q
    } else {
        s
    };
    let c0 = if !inplace {
        l.stages_cmds(ctx, c, c.n as nat)
    } else {
        Seq::empty()
    };
    let c1 = transform_cmds(on1, k.innerq_apply_q, heads, at, c.hd);
    let c2 = transform_cmds(on2, k.wht_bf16, heads, at, c.hd);
    let c4 = transform_cmds(back, k.wht_bf16_inv, heads, out, c.hd);
    let all = l.paged_decode_cmds(ctx, env, c, meta);
    let c3 = seq![all[c0.len() + c1.len() + c2.len() as int]];
    assert(all =~= c0 + c1 + c2 + c3 + c4);
    lemma_run_add(places, m, c0, c1);
    lemma_run_add(places, m, c0 + c1, c2);
    lemma_run_add(places, m, c0 + c1 + c2, c3);
    lemma_run_add(places, m, c0 + c1 + c2 + c3, c4);
    if !inplace {
        lemma_stages(l, c, ctx, meta, places, m, c.n as nat);
    }
    let m0 = run(places, m, c0)->0;
    if !inplace {
        lemma_transform(c, ctx, places, m0, on1, k.innerq_apply_q, at);
    }
    let m1 = run(places, m0, c1)->0;
    if !inplace {
        lemma_transform(c, ctx, places, m1, on2, k.wht_bf16, at);
    }
    let m2 = run(places, m1, c2)->0;
    let op = c3[0]->Op_0;
    lemma_run_one(places, m2, c3[0]);
    lemma_after_attention(places, m2, op);
    let m3 = after(places, m2, c3[0])->0;
    lemma_transform(c, ctx, places, m3, back, k.wht_bf16_inv, out);
    let v = run(places, m3, c4)->0;
    let (n, w, qd) = (c.n as int, c.per_seq_qkv as int, c.q_dim as int);
    assert forall|i: int| 0 <= i < n implies (m3.at)(out.0 + i * (2 * qd)) == #[trigger] l.attention_of(
        env,
        c,
        meta,
        m,
        i,
    ) && forall|e: int|
        0 <= e < c.nq ==> #[trigger] c.packed(m3, out, i, e) == slice(
            l.attention_of(env, c, meta, m, i),
            e * (2 * c.hd),
        ) by {
        lemma_packed(c, i, 0);
        let a = l.attention_of(env, c, meta, m, i);
        let mb = 4 * meta.max_blocks_per_seq;
        assert(0 <= i * w && i * w + w <= n * w && 0 <= i * mb && i * mb + mb <= n * mb) by (nonlinear_arith)
            requires
                0 <= i < n,
                0 <= w,
                0 <= mb,
        ;
        lemma_row_part(out.0 as int, 2 * qd, 2 * qd, n, i, 0);
        let b = (m3.at)(out.0 + i * (2 * qd));
        assert(b->Attended_query =~= a->Attended_query) by {
            assert forall|e: int| 0 <= e < c.nq implies b->Attended_query[e] == a->Attended_query[e] by {
                lemma_packed(c, i, e);
                if inplace {
                    assert(2 * (c.per_seq_qkv / 2) == w);
                    assert(m2 == m);
                } else {
                    assert(c.packed(m2, s, i, e) == transformed(on2, k.wht_bf16, c.packed(m1, s, i, e)));
                    assert(c.packed(m1, s, i, e) == transformed(
                        on1,
                        k.innerq_apply_q,
                        c.packed(m0, s, i, e),
                    ));
                    assert(c.packed(m0, s, i, e) == head(m, q.0 + i * c.per_seq_qkv, e, c.hd));
                    assert(2 * (c.nq * c.hd) == 2 * qd);
                }
            }
        }
        assert(*b->Attended_blocks == *a->Attended_blocks) by {
            let x = meta.block_table.0 + i * mb;
            assert((m2.at)(x) == (m.at)(x)) by {
                if !inplace {
                    assert((m0.at)(x) == (m.at)(x));
                    assert((m1.at)(x) == (m0.at)(x));
                }
            }
        }
        assert(*b->Attended_len == *a->Attended_len) by {
            let x = meta.seq_len.0 + i * 4;
            assert((m2.at)(x) == (m.at)(x)) by {
                if !inplace {
                    assert((m0.at)(x) == (m.at)(x));
                    assert((m1.at)(x) == (m0.at)(x));
                }
            }
        }
        assert(b == a);
        assert forall|e: int| 0 <= e < c.nq implies #[trigger] c.packed(m3, out, i, e) == slice(
            a,
            e * (2 * c.hd),
        ) by {
            lemma_packed(c, i, e);
            lemma_row_part(out.0 as int, 2 * qd, 2 * qd, n, i, e * (2 * c.hd));
        }
    }
    assert(run(places, m, all) == Some(v));
    assert forall|i: int, e: int| 0 <= i < n && 0 <= e < c.nq implies #[trigger] c.packed(v, out, i, e)
        == transformed(back, k.wht_bf16_inv, slice(l.attention_of(env, c, meta, m, i), e * (2 * c.hd))) by {
        let a = l.attention_of(env, c, meta, m, i);
        assert(c.packed(m3, out, i, e) == slice(a, e * (2 * c.hd)));
    }
    if !back {
        assert forall|i: int| 0 <= i < n implies #[trigger] v.row(out, i, 2 * c.q_dim)
            == l.attention_of(env, c, meta, m, i) by {
            assert((m3.at)(out.0 + i * (2 * qd)) == l.attention_of(env, c, meta, m, i));
        }
    }
    assert forall|a: int| q.0 <= a < q.0 + c.n * c.per_seq_qkv implies #[trigger] (v.at)(a) == (m.at)(a) by {
        if !inplace {
            assert((m0.at)(a) == (m.at)(a));
            assert((m1.at)(a) == (m0.at)(a));
            assert((m2.at)(a) == (m1.at)(a));
        }
        assert(c.nq * c.hd > 0) by (nonlinear_arith)
            requires
                c.nq > 0,
                c.hd > 0,
        ;
        lemma_row_miss(a, out.0 as int, 2 * qd, 2 * qd, n);
        assert((m3.at)(a) == (m2.at)(a));
    }
}

impl MultiSeqCtx {
    /// Input, results, gates and adapters of the output projection do not overlap.
    pub open spec fn projects_apart(self, ctx: &ForwardContext, attn_out: DevicePtr) -> bool {
        let (q, out, x) = (self.qkv_buf, ctx.buffers.moe_output, ctx.buffers.lora_xa);
        let (blocks, rows, hidden) = (
            self.n * self.per_seq_qkv,
            self.n * (2 * self.q_dim),
            self.n * (2 * self.h),
        );
        &&& disjoint(q, blocks, attn_out, rows)
        &&& disjoint(q, blocks, out, hidden)
        &&& disjoint(q, blocks, self.normed, hidden)
        &&& disjoint(q, blocks, self.seq_slot, self.n * 4)
        &&& disjoint(attn_out, rows, out, hidden)
        &&& disjoint(attn_out, rows, self.normed, hidden)
        &&& disjoint(attn_out, rows, self.seq_slot, self.n * 4)
        &&& disjoint(out, hidden, self.seq_slot, self.n * 4)
        &&& disjoint(out, hidden, x, 1)
        &&& self.per_seq_qkv % 2 == 0
    }
}

impl Qwen3AttentionLayer {
    /// Attention of sequence `i` behind its gates: value by value from the gates in its own
    /// block, then head by head from the gates that its own row projects to.
    pub open spec fn gated_row(&self, c: MultiSeqCtx, m: Memory, attn_out: DevicePtr, i: int) -> Held {
        let plain = m.row(attn_out, i, 2 * c.q_dim);
        let gated = if self.gated {
            Held::SigmoidGated {
                a: Box::new(plain),
                b: Box::new((m.at)(c.qkv_buf.0 + i * c.per_seq_qkv + 2 * c.q_dim)),
            }
        } else {
            plain
        };
        match self.head_gate_weight {
            Some(w) => Held::HeadGated {
                of: Box::new(gated),
                gates: Box::new(
                    Held::Product {
                        row: Box::new(m.row(c.normed, i, 2 * c.h)),
                        weight: WeightRef::Dense(w),
                        n: c.nq,
                        k: c.h as u32,
                    },
                ),
                activation: self.head_gate_activation,
                nq: c.nq,
                hd: c.hd,
            },
            None => gated,
        }
    }

    /// Output projection of a row, by the first form of the weight that there is: two bits,
    /// bfloat16, eight bits, four bits.
    pub open spec fn output_of(&self, c: MultiSeqCtx, row: Held) -> Held {
        let times = |weight: WeightRef|
            Held::Product { row: Box::new(row), weight, n: c.h as u32, k: c.q_dim };
        match q2_of(self.o_weight) {
            Some(w) => Held::TwoBitProduct { row: Box::new(row), weight: w },
            None => match self.o_dense_bf16 {
                Some(w) => times(WeightRef::Dense(w)),
                None => match fp8_of(self.o_weight) {
                    Some(f) => times(WeightRef::Fp8(f)),
                    None => times(WeightRef::Quantized(self.attn.o_proj)),
                },
            },
        }
    }

    /// Adapter of the output projection, where rows have any.
    pub open spec fn output_route(&self, c: MultiSeqCtx) -> Option<LoraRoute> {
        match self.lora {
            Some(l) => if c.seq_slot.0 != 0 {
                l.o_route
            } else {
                None
            },
            None => None,
        }
    }
}

proof fn lemma_rows_in(i: int, n: int, w: int)
    by (nonlinear_arith)
    requires
        0 <= i < n,
        0 <= w,
    ensures
        0 <= i * w,
        i * w + w <= n * w,
{
}

#[verifier::rlimit(60)]
proof fn lemma_gates(
    l: &Qwen3AttentionLayer,
    ctx: &ForwardContext,
    c: MultiSeqCtx,
    attn_out: DevicePtr,
    places: Places,
    m: Memory,
)
    requires
        c.fits(ctx),
        c.counts(),
        c.projects_apart(ctx, attn_out),
    ensures
        ({
            &&& run(places, m, l.gates_cmds(c, attn_out)) matches Some(v)
            &&& forall|i: int|
                0 <= i < c.n ==> #[trigger] v.row(attn_out, i, 2 * c.q_dim) == l.gated_row(c, m, attn_out, i)
            &&& forall|a: int|
                clear_of(a, attn_out.0 as int, c.n * (2 * c.q_dim)) && clear_of(
                    a,
                    c.qkv_buf.0 as int,
                    c.n * c.per_seq_qkv,
                ) ==> #[trigger] (v.at)(a) == (m.at)(a)
        }),
{
    let (n, w, qd, h) = (c.n as int, c.per_seq_qkv as int, c.q_dim as int, 2 * c.h);
    let (q, at) = (c.qkv_buf.0 as int, attn_out.0 as int);
    let all = l.gates_cmds(c, attn_out);
    assert(c.nq * c.hd > 0 && c.nq <= c.nq * c.hd) by (nonlinear_arith)
        requires
            c.nq > 0,
            c.hd > 0,
    ;
    let c0 = if l.gated {
        seq![all[0]]
    } else {
        Seq::empty()
    };
    let c1 = if l.head_gate_weight is Some {
        seq![all[c0.len() as int]]
    } else {
        Seq::empty()
    };
    let c2 = if l.head_gate_weight is Some {
        seq![all[c0.len() as int + 1]]
    } else {
        Seq::empty()
    };
    assert(all =~= c0 + c1 + c2);
    lemma_run_add(places, m, c0, c1);
    lemma_run_add(places, m, c0 + c1, c2);
    if l.gated {
        lemma_run_one(places, m, all[0]);
        lemma_after_value_gates(places, m, all[0]->Op_0);
    }
    let m0 = run(places, m, c0)->0;
    let plain = |i: int|
        if l.gated {
            Held::SigmoidGated {
                a: Box::new(m.row(attn_out, i, 2 * qd)),
                b: Box::new((m.at)(q + i * w + 2 * qd)),
            }
        } else {
            m.row(attn_out, i, 2 * qd)
        };
    assert forall|i: int| 0 <= i < n implies #[trigger] m0.row(attn_out, i, 2 * qd) == plain(i) by {
        lemma_row_hit(at, 2 * qd, 2 * qd, n, i);
        lemma_rows_in(i, n, w);
        if l.gated {
            assert(c.qkv_buf.at(c.q_dim * 2).0 == q + 2 * qd);
            assert(2 * (c.per_seq_qkv / 2) == w);
        }
    }
    assert forall|a: int| clear_of(a, at, n * (2 * qd)) implies #[trigger] (m0.at)(a) == (m.at)(a) by {
        lemma_row_miss(a, at, 2 * qd, 2 * qd, n);
    }
    if l.head_gate_weight is Some {
        let g = all[c0.len() as int];
        lemma_run_one(places, m0, g);
        if g->Op_0 is DenseGemvBatchM {
            lemma_after_batch_product(places, m0, g->Op_0);
        } else {
            lemma_after_matmul(places, m0, g->Op_0);
        }
        let m1 = after(places, m0, g)->0;
        let x = all[c0.len() as int + 1];
        lemma_run_one(places, m1, x);
        lemma_after_head_gates(places, m1, x->Op_0);
        let v = after(places, m1, x)->0;
        assert(n * (2 * c.nq) <= n * w) by (nonlinear_arith)
            requires
                0 <= n,
                2 * c.nq <= w,
        ;
        assert forall|i: int| 0 <= i < n implies #[trigger] v.row(attn_out, i, 2 * c.q_dim) == l.gated_row(
            c,
            m,
            attn_out,
            i,
        ) by {
            lemma_row_hit(at, 2 * qd, 2 * qd, n, i);
            lemma_row_hit(q, 2 * c.nq, 2 * c.nq, n, i);
            lemma_rows_in(i, n, 2 * qd);
            lemma_rows_in(i, n, h);
            lemma_row_miss(at + i * (2 * qd), q, 2 * c.nq, 2 * c.nq, n);
            assert(m0.row(attn_out, i, 2 * qd) == plain(i));
            assert(m1.row(attn_out, i, 2 * qd) == plain(i));
            assert(m0.row(c.normed, i, h) == m.row(c.normed, i, h));
        }
        assert forall|a: int| clear_of(a, at, n * (2 * qd)) && clear_of(a, q, n * w) implies #[trigger] (
        v.at)(a) == (m.at)(a) by {
            lemma_row_miss(a, at, 2 * qd, 2 * qd, n);
            lemma_row_miss(a, q, 2 * c.nq, 2 * c.nq, n);
            assert((m0.at)(a) == (m.at)(a));
        }
    }
}

proof fn lemma_o_rows(
    l: &Qwen3AttentionLayer,
    ctx: &ForwardContext,
    c: MultiSeqCtx,
    attn_out: DevicePtr,
    places: Places,
    m: Memory,
    n: nat,
)
    requires
        c.fits(ctx),
        c.counts(),
        c.out_fits(ctx, attn_out),
        c.projects_apart(ctx, attn_out),
        q2_of(l.o_weight) is Some || l.o_dense_bf16 is None,
        q2_of(l.o_weight) matches Some(w) ==> w.n == c.h,
        n <= c.n,
    ensures
        ({
            let out = ctx.buffers.moe_output;
            &&& run(places, m, l.o_rows_cmds(ctx, c, attn_out, n)) matches Some(v)
            &&& forall|i: int|
                0 <= i < n ==> #[trigger] v.row(out, i, 2 * c.h) == l.output_of(
                    c,
                    m.row(attn_out, i, 2 * c.q_dim),
                )
            &&& forall|a: int| clear_of(a, out.0 as int, n * (2 * c.h)) ==> #[trigger] (v.at)(a) == (m.at)(a)
        }),
    decreases n,
{
    let (out, h, qd) = (ctx.buffers.moe_output, 2 * c.h, c.q_dim as int);
    if n > 0 {
        let p = n - 1;
        lemma_o_rows(l, ctx, c, attn_out, places, m, p as nat);
        let t = run(places, m, l.o_rows_cmds(ctx, c, attn_out, p as nat))->0;
        let x = l.o_row_cmd(ctx, c, attn_out, p);
        lemma_run_add(places, m, l.o_rows_cmds(ctx, c, attn_out, p as nat), seq![x]);
        lemma_run_one(places, t, x);
        if q2_of(l.o_weight) is Some {
            lemma_after_two_bit(places, t, x->Op_0);
        } else {
            lemma_after_matmul(places, t, x->Op_0);
        }
        let v = after(places, t, x)->0;
        lemma_rows_in(p, c.n as int, h);
        lemma_rows_in(p, c.n as int, 2 * qd);
        assert(p * qd * 2 == p * (2 * qd) && p * c.h * 2 == p * h && c.n * qd * 2 == c.n * (2 * qd) && c.n
            * c.h * 2 == c.n * h && n * h == p * h + h) by (nonlinear_arith)
            requires
                n == p + 1,
                h == 2 * c.h,
        ;
        let y = out.0 + p * h;
        assert(attn_out.row_at(p, qd, 2).0 == attn_out.0 + p * (2 * qd));
        assert(out.row_at(p, c.h as int, 2).0 == y);
        assert(c.nq * c.hd > 0) by (nonlinear_arith)
            requires
                c.nq > 0,
                c.hd > 0,
        ;
        assert(t.row(attn_out, p, 2 * qd) == m.row(attn_out, p, 2 * qd));
        assert forall|i: int| 0 <= i < n implies #[trigger] v.row(out, i, h) == l.output_of(
            c,
            m.row(attn_out, i, 2 * qd),
        ) by {
            if i < p {
                assert(t.row(out, i, h) == l.output_of(c, m.row(attn_out, i, 2 * qd)));
                assert(i * h + h <= p * h) by (nonlinear_arith)
                    requires
                        i < p,
                        h >= 0,
                ;
                lemma_one_row_miss(out.0 + i * h, y, h, h);
            } else {
                lemma_row_hit(y, h, h, 1, 0);
            }
        }
        assert forall|a: int| clear_of(a, out.0 as int, n * h) implies #[trigger] (v.at)(a) == (m.at)(a) by {
            lemma_one_row_miss(a, y, h, h);
            assert((t.at)(a) == (m.at)(a));
        }
    } else {
        assert(0 * h == 0) by (nonlinear_arith);
    }
}

proof fn lemma_o(
    l: &Qwen3AttentionLayer,
    ctx: &ForwardContext,
    c: MultiSeqCtx,
    attn_out: DevicePtr,
    places: Places,
    m: Memory,
)
    requires
        c.fits(ctx),
        c.counts(),
        c.out_fits(ctx, attn_out),
        c.projects_apart(ctx, attn_out),
        q2_of(l.o_weight) matches Some(w) ==> w.n == c.h,
    ensures
        ({
            let out = ctx.buffers.moe_output;
            &&& run(places, m, l.o_cmds(ctx, c, attn_out)) matches Some(v)
            &&& forall|i: int|
                0 <= i < c.n ==> #[trigger] v.row(out, i, 2 * c.h) == l.output_of(
                    c,
                    m.row(attn_out, i, 2 * c.q_dim),
                )
            &&& forall|a: int| clear_of(a, out.0 as int, c.n * (2 * c.h)) ==> #[trigger] (v.at)(a) == (m.at)(
                a,
            )
        }),
{
    let (out, h, qd, n) = (ctx.buffers.moe_output, 2 * c.h, c.q_dim as int, c.n as int);
    let cmds = l.o_cmds(ctx, c, attn_out);
    if q2_of(l.o_weight) is Some || (l.o_dense_bf16 is None && (fp8_of(l.o_weight) is Some
        || l.attn.o_proj.null())) {
        lemma_o_rows(l, ctx, c, attn_out, places, m, c.n as nat);
    } else {
        assert(cmds =~= seq![cmds[0]]);
        lemma_run_one(places, m, cmds[0]);
        let op = cmds[0]->Op_0;
        if op is WideGemm {
            lemma_after_wide(places, m, op);
        } else if op is DenseGemvBatchM {
            lemma_after_batch_product(places, m, op);
        } else {
            lemma_after_matmul(places, m, op);
        }
        let v = after(places, m, cmds[0])->0;
        assert forall|i: int| 0 <= i < n implies #[trigger] v.row(out, i, h) == l.output_of(
            c,
            m.row(attn_out, i, 2 * qd),
        ) by {
            lemma_row_hit(out.0 as int, h, h, n, i);
        }
        assert forall|a: int| clear_of(a, out.0 as int, n * h) implies #[trigger] (v.at)(a) == (m.at)(a) by {
            lemma_row_miss(a, out.0 as int, h, h, n);
        }
    }
}

/// Every row of the result is the output projection of its own sequence's gated attention,
/// with the adapter of its own slot, whichever kernels run.
#[verifier::rlimit(60)]
pub proof fn law_outputs_are_each_sequences_own(
    l: &Qwen3AttentionLayer,
    ctx: &ForwardContext,
    c: MultiSeqCtx,
    attn_out: DevicePtr,
    places: Places,
    m: Memory,
)
    requires
        c.fits(ctx),
        c.counts(),
        c.out_fits(ctx, attn_out),
        c.projects_apart(ctx, attn_out),
        q2_of(l.o_weight) matches Some(w) ==> w.n == c.h,
        l.output_route(c) matches Some(r) ==> r.n_out == c.h,
    ensures
        ({
            let cmds = l.gates_cmds(c, attn_out) + l.o_cmds(ctx, c, attn_out) + l.o_lora_cmds(
                ctx,
                c,
                attn_out,
            );
            &&& run(places, m, cmds) matches Some(v)
            &&& forall|i: int|
                0 <= i < c.n ==> {
                    let row = l.gated_row(c, m, attn_out, i);
                    #[trigger] v.row(ctx.buffers.moe_output, i, 2 * c.h) == match l.output_route(c) {
                        Some(r) => Held::Adapted {
                            of: Box::new(l.output_of(c, row)),
                            row: Box::new(row),
                            route: r,
                            slot: Box::new(m.row(c.seq_slot, i, 4)),
                        },
                        None => l.output_of(c, row),
                    }
                }
        }),
{
    let (out, h, qd, n) = (ctx.buffers.moe_output, 2 * c.h, c.q_dim as int, c.n as int);
    let (c0, c1, c2) = (
        l.gates_cmds(c, attn_out),
        l.o_cmds(ctx, c, attn_out),
        l.o_lora_cmds(ctx, c, attn_out),
    );
    lemma_run_add(places, m, c0, c1);
    lemma_run_add(places, m, c0 + c1, c2);
    lemma_gates(l, ctx, c, attn_out, places, m);
    let m0 = run(places, m, c0)->0;
    lemma_o(l, ctx, c, attn_out, places, m0);
    let m1 = run(places, m0, c1)->0;
    if let Some(r) = l.output_route(c) {
        assert(c2 =~= seq![c2[0]]);
        lemma_run_one(places, m1, c2[0]);
        lemma_after_adapters(places, m1, c2[0]->Op_0);
    }
    let v = run(places, m1, c2)->0;
    assert forall|i: int| 0 <= i < n implies {
        let row = l.gated_row(c, m, attn_out, i);
        #[trigger] v.row(out, i, h) == match l.output_route(c) {
            Some(r) => Held::Adapted {
                of: Box::new(l.output_of(c, row)),
                row: Box::new(row),
                route: r,
                slot: Box::new(m.row(c.seq_slot, i, 4)),
            },
            None => l.output_of(c, row),
        }
    } by {
        let row = l.gated_row(c, m, attn_out, i);
        lemma_rows_in(i, n, h);
        lemma_rows_in(i, n, 2 * qd);
        lemma_rows_in(i, n, 4);
        assert(c.nq * c.hd > 0) by (nonlinear_arith)
            requires
                c.nq > 0,
                c.hd > 0,
        ;
        assert(m0.row(attn_out, i, 2 * qd) == row);
        assert(m1.row(out, i, h) == l.output_of(c, row));
        assert(m1.row(attn_out, i, 2 * qd) == row);
        let s = c.seq_slot.0 + i * 4;
        assert((m0.at)(s) == (m.at)(s));
        assert((m1.at)(s) == (m0.at)(s));
        lemma_row_hit(out.0 as int, h, h, n, i);
    }
}

} // verus!
