//! Routed experts whose checkpoint blocks are kept packed.
//!
//! Takes the place of the grouped pass: the caller's routing and blend stay as
//! they are, and results land in sorted order in the same buffer.
use crate::context::ForwardContext;
use crate::dataflow::{
    after, after_launch, lemma_after_activation, lemma_after_matmul, lemma_row_hit, lemma_row_miss,
    lemma_run_add, lemma_run_push, lemma_run_three, lemma_run_two, run, Held, Memory, Places,
};
use crate::device::{Cmd, CommandBuffer, DevicePtr, Scalar};
use crate::dflash_head::disjoint;
use crate::moe::forward_routed::RoutedCall;
use crate::moe::layer::MoeLayer;
use crate::num::{le_u32, read_u32};
use crate::ops::q4k_mmq::{padded_k, q8_1_scratch_bytes};
use crate::ops_table::{DeviceOp, MatmulKind, WeightRef};
use crate::ssm::mixing::clear_of;
use crate::weights::{DenseWeight, PackedExpertWeights, QuantWeight};
use vstd::prelude::*;

verus! {

/// Why the packed pass stopped.
#[derive(Debug, Clone, Copy, PartialEq, Eq, Structural)]
pub enum PackedMoeError {
    /// The layer has no packed experts.
    NotPacked,
    /// Offsets are not a prefix sum over all rows.
    BadOffsets,
    /// Down projection of this expert is stored in a way that is not read here.
    UnexpectedDown { expert: usize },
}

/// Scratch of one packed pass.
#[derive(Debug, Clone, Copy, PartialEq, Eq, Structural)]
pub struct PackedScratch {
    /// Rows in sorted order.
    pub permuted: DevicePtr,
    /// Quantised activations of one expert.
    pub q8: DevicePtr,
    /// One expert's down projection in bfloat16.
    pub down: DevicePtr,
}

/// Offset `i` of a readback.
pub open spec fn offset_at(bytes: Seq<u8>, i: int) -> int {
    le_u32(bytes, 4 * i)
}

/// A prefix sum of `ne` counts that ends at `total`.
pub open spec fn offsets_ok(bytes: Seq<u8>, ne: int, total: int) -> bool {
    &&& bytes.len() / 4 == ne + 1
    &&& offset_at(bytes, ne) == total
    &&& forall|i: int| 0 <= i < ne ==> #[trigger] offset_at(bytes, i) <= offset_at(bytes, i + 1)
}

impl RoutedCall {
    /// Sizes and addresses of the packed pass fit their types.
    pub open spec fn packed_fits(self, ctx: &ForwardContext, s: PackedScratch) -> bool {
        &&& self.fits()
        &&& padded_k(self.h) <= u32::MAX
        &&& padded_k(self.inter) <= u32::MAX
        &&& self.h * self.inter <= u32::MAX
        &&& s.permuted.holds(self.rows(), self.h as int, 2)
        &&& ctx.buffers.expert_gate_out.holds(self.rows(), self.inter as int, 2)
        &&& ctx.buffers.expert_up_out.holds(self.rows(), self.inter as int, 2)
        &&& ctx.buffers.expert_down_out.holds(self.rows(), self.h as int, 2)
    }
}

/// Whether a readback is a prefix sum over all rows.
fn check_offsets(bytes: &Vec<u8>, ne: usize, total: u32) -> (r: bool)
    ensures
        r == offsets_ok(bytes@, ne as int, total as int),
{
    let n: usize = bytes.len() / 4;
    if n == 0 || n - 1 != ne {
        return false;
    }
    if read_u32(bytes.as_slice(), 4 * ne) != total {
        return false;
    }
    let mut i: usize = 0;
    assert(bytes.len() == bytes@.len());
    while i < ne
        invariant
            i <= ne,
            n == ne + 1,
            n == bytes@.len() / 4,
            bytes@.len() <= usize::MAX,
            forall|j: int| 0 <= j < i ==> #[trigger] offset_at(bytes@, j) <= offset_at(bytes@, j + 1),
        decreases ne - i,
    {
        if read_u32(bytes.as_slice(), 4 * i) > read_u32(bytes.as_slice(), 4 * (i + 1)) {
            assert(!(offset_at(bytes@, i as int) <= offset_at(bytes@, i + 1)));
            return false;
        }
        i = i + 1;
    }
    true
}

proof fn lemma_offsets_bounded(bytes: Seq<u8>, ne: int, total: int, i: int)
    requires
        offsets_ok(bytes, ne, total),
        0 <= i <= ne,
    ensures
        0 <= offset_at(bytes, i) <= total,
    decreases ne - i,
{
    if i < ne {
        lemma_offsets_bounded(bytes, ne, total, i + 1);
        assert(offset_at(bytes, i) <= offset_at(bytes, i + 1));
    }
}

impl MoeLayer {
    /// Gate, up and activation of one expert's `rows` rows, which begin at `start`.
    pub open spec fn packed_gate_up_cmds(&self, ctx: &ForwardContext, c: RoutedCall,
        s: PackedScratch, pe: PackedExpertWeights, start: u32, rows: u32) -> Seq<Cmd> {
        let b = ctx.buffers;
        let k = self.kernels;
        let total = c.rows();
        let input = s.permuted.row_at(start as int, c.h as int, 2);
        let gate = b.expert_gate_out.row_at(start as int, c.inter as int, 2);
        let up = b.expert_up_out.row_at(start as int, c.inter as int, 2);
        seq![
            Cmd::Launch(crate::ops::q4k_mmq::quantize_act_q8_1_launch(k.q4k_quant_act, input, s.q8,
                rows, c.h)),
            Cmd::Launch(crate::ops::q4k_mmq::q4k_mmq_gemm_launch(k.q4k_mmq_nc, k.q4k_mmq_wc, s.q8,
                pe.gate.weight, gate, rows, c.inter, c.h)),
            Cmd::Launch(crate::ops::q4k_mmq::q4k_mmq_gemm_launch(k.q4k_mmq_nc, k.q4k_mmq_wc, s.q8,
                pe.up.weight, up, rows, c.inter, c.h)),
            Cmd::Op(DeviceOp::ActMul { kernel: k.moe_silu_mul, gate: gate, up: up, out: gate,
                n: (rows * c.inter) as u32 }),
        ]
    }

    fn record_packed_gate_up(&self, cb: &mut CommandBuffer, ctx: &ForwardContext, c: &RoutedCall,
        s: PackedScratch, pe: PackedExpertWeights, start: u32, rows: u32)
        requires
            c.packed_fits(ctx, s),
            start + rows <= c.rows(),
        ensures
            final(cb)@ == old(cb)@ + self.packed_gate_up_cmds(ctx, *c, s, pe, start, rows),
    {
        let ghost before = cb@;
        let b: crate::context::Buffers = ctx.buffers;
        let k: crate::moe::layer::MoeKernels = self.kernels;
        let total: usize = (c.n * c.top_k) as usize;
        let input: DevicePtr = s.permuted.row(start as usize, total, c.h as usize, 2);
        let gate: DevicePtr = b.expert_gate_out.row(start as usize, total, c.inter as usize, 2);
        let up: DevicePtr = b.expert_up_out.row(start as usize, total, c.inter as usize, 2);
        proof { lemma_rows_times(rows as int, c.rows(), c.inter as int); }
        crate::ops::q4k_mmq::quantize_act_q8_1(cb, k.q4k_quant_act, input, s.q8, rows, c.h);
        crate::ops::q4k_mmq::q4k_mmq_gemm(cb, k.q4k_mmq_nc, k.q4k_mmq_wc, s.q8, pe.gate.weight,
            gate, rows, c.inter, c.h);
        crate::ops::q4k_mmq::q4k_mmq_gemm(cb, k.q4k_mmq_nc, k.q4k_mmq_wc, s.q8, pe.up.weight, up,
            rows, c.inter, c.h);
        cb.op(DeviceOp::ActMul { kernel: k.moe_silu_mul, gate: gate, up: up, out: gate,
            n: rows * c.inter });
        assert(cb@ =~= before + self.packed_gate_up_cmds(ctx, *c, s, pe, start, rows));
    }

    /// Down product of one expert. Four-bit blocks are multiplied as they are; six-bit
    /// blocks are expanded into scratch first.
    pub open spec fn packed_down_cmds(&self, ctx: &ForwardContext, c: RoutedCall, s: PackedScratch,
        w: QuantWeight, start: u32, rows: u32) -> Seq<Cmd> {
        let b = ctx.buffers;
        let k = self.kernels;
        let total = c.rows();
        let gate = b.expert_gate_out.row_at(start as int, c.inter as int, 2);
        let out = b.expert_down_out.row_at(start as int, c.h as int, 2);
        (match w {
            QuantWeight::PackedQ4(w4) => {
                seq![
                    Cmd::Launch(crate::ops::q4k_mmq::quantize_act_q8_1_launch(k.q4k_quant_act,
                        gate, s.q8, rows, c.inter)),
                    Cmd::Launch(crate::ops::q4k_mmq::q4k_mmq_gemm_launch(k.q4k_mmq_nc,
                        k.q4k_mmq_wc, s.q8, w4.weight, out, rows, c.h, c.inter)),
                ]
            },
            QuantWeight::PackedQ6(w6) => {
                seq![
                    Cmd::Launch(crate::ops::q4k_mmq::dequant_q6k_into_launch(k.q6k_dequant,
                        w6.weight, s.down, (c.h * c.inter / 256) as u32)),
                    Cmd::Op(DeviceOp::Matmul { kind: MatmulKind::DenseGemm, kernel: k.dense_gemm,
                        input: gate, weight: WeightRef::Dense(DenseWeight { weight: s.down }),
                        output: out, m: rows, n: c.h, k: c.inter }),
                ]
            },
            QuantWeight::Other => {
                Seq::empty()
            },
        })
    }

    fn record_packed_down(&self, cb: &mut CommandBuffer, ctx: &ForwardContext, c: &RoutedCall,
        s: PackedScratch, w: QuantWeight, start: u32, rows: u32)
        requires
            c.packed_fits(ctx, s),
            start + rows <= c.rows(),
        ensures
            final(cb)@ == old(cb)@ + self.packed_down_cmds(ctx, *c, s, w, start, rows),
    {
        let ghost before = cb@;
        let b: crate::context::Buffers = ctx.buffers;
        let k: crate::moe::layer::MoeKernels = self.kernels;
        let total: usize = (c.n * c.top_k) as usize;
        let gate: DevicePtr = b.expert_gate_out.row(start as usize, total, c.inter as usize, 2);
        let out: DevicePtr = b.expert_down_out.row(start as usize, total, c.h as usize, 2);
        match w {
            QuantWeight::PackedQ4(w4) => {
                crate::ops::q4k_mmq::quantize_act_q8_1(cb, k.q4k_quant_act, gate, s.q8, rows,
                    c.inter);
                crate::ops::q4k_mmq::q4k_mmq_gemm(cb, k.q4k_mmq_nc, k.q4k_mmq_wc, s.q8, w4.weight,
                    out, rows, c.h, c.inter);
            },
            QuantWeight::PackedQ6(w6) => {
                crate::ops::q4k_mmq::dequant_q6k_into(cb, k.q6k_dequant, w6.weight, s.down,
                    c.h * c.inter / 256);
                cb.op(DeviceOp::Matmul { kind: MatmulKind::DenseGemm, kernel: k.dense_gemm,
                    input: gate, weight: WeightRef::Dense(DenseWeight { weight: s.down }),
                    output: out, m: rows, n: c.h, k: c.inter });
            },
            QuantWeight::Other => {
            },
        }
        assert(cb@ =~= before + self.packed_down_cmds(ctx, *c, s, w, start, rows));
    }

    /// Work of expert `e`, nothing where it has no rows.
    pub open spec fn packed_expert_cmds(
        &self,
        ctx: &ForwardContext,
        c: RoutedCall,
        s: PackedScratch,
        packed: Seq<PackedExpertWeights>,
        offs: Seq<u8>,
        e: int,
    ) -> Seq<Cmd> {
        let start = offset_at(offs, e);
        let rows = offset_at(offs, e + 1) - start;
        if rows == 0 {
            Seq::empty()
        } else {
            self.packed_gate_up_cmds(ctx, c, s, packed[e], start as u32, rows as u32)
                + self.packed_down_cmds(ctx, c, s, packed[e].down, start as u32, rows as u32)
        }
    }

    /// Work of the first `n` experts.
    pub open spec fn packed_cmds(
        &self,
        ctx: &ForwardContext,
        c: RoutedCall,
        s: PackedScratch,
        packed: Seq<PackedExpertWeights>,
        offs: Seq<u8>,
        n: nat,
    ) -> Seq<Cmd>
        decreases n,
    {
        if n == 0 {
            Seq::empty()
        } else {
            self.packed_cmds(ctx, c, s, packed, offs, (n - 1) as nat) + self.packed_expert_cmds(
                ctx,
                c,
                s,
                packed,
                offs,
                n - 1,
            )
        }
    }

    fn record_packed_expert(
        &self,
        cb: &mut CommandBuffer,
        ctx: &ForwardContext,
        c: &RoutedCall,
        s: PackedScratch,
        packed: &Vec<PackedExpertWeights>,
        offs: &Vec<u8>,
        e: usize,
    ) -> (unread: bool)
        requires
            c.packed_fits(ctx, s),
            e < c.num_experts <= packed@.len(),
            offsets_ok(offs@, c.num_experts as int, c.rows()),
        ensures
            final(cb)@ == old(cb)@ + self.packed_expert_cmds(ctx, *c, s, packed@, offs@, e as int),
            unread == unread_down(packed@, offs@, e as int),
    {
        let ghost before = cb@;
        assert(offs.len() == offs@.len());
        let start: u32 = read_u32(offs.as_slice(), 4 * e);
        let end: u32 = read_u32(offs.as_slice(), 4 * (e + 1));
        proof {
            lemma_offsets_bounded(offs@, c.num_experts as int, c.rows(), e as int);
            lemma_offsets_bounded(offs@, c.num_experts as int, c.rows(), e + 1);
            assert(offset_at(offs@, e as int) <= offset_at(offs@, e + 1));
        }
        if end == start {
            assert(cb@ =~= before + self.packed_expert_cmds(ctx, *c, s, packed@, offs@, e as int));
            return false;
        }
        let pe: PackedExpertWeights = packed[e];
        self.record_packed_gate_up(cb, ctx, c, s, pe, start, end - start);
        self.record_packed_down(cb, ctx, c, s, pe.down, start, end - start);
        assert(cb@ =~= before + self.packed_expert_cmds(ctx, *c, s, packed@, offs@, e as int));
        matches!(pe.down, QuantWeight::Other)
    }

    fn record_packed_experts(
        &self,
        cb: &mut CommandBuffer,
        ctx: &ForwardContext,
        c: &RoutedCall,
        s: PackedScratch,
        packed: &Vec<PackedExpertWeights>,
        offs: &Vec<u8>,
    ) -> (r: Option<usize>)
        requires
            c.packed_fits(ctx, s),
            c.num_experts <= packed@.len(),
            offsets_ok(offs@, c.num_experts as int, c.rows()),
        ensures
            match r {
                None => no_unread_down(packed@, offs@, c.num_experts as int) && final(cb)@ == old(
                    cb,
                )@ + self.packed_cmds(ctx, *c, s, packed@, offs@, c.num_experts as nat),
                Some(e) => e < c.num_experts && no_unread_down(packed@, offs@, e as int)
                    && unread_down(packed@, offs@, e as int) && final(cb)@ == old(cb)@
                    + self.packed_cmds(ctx, *c, s, packed@, offs@, (e + 1) as nat),
            },
    {
        let ghost before = cb@;
        let ne: usize = c.num_experts as usize;
        let mut e: usize = 0;
        assert(cb@ =~= before + self.packed_cmds(ctx, *c, s, packed@, offs@, 0));
        while e < ne
            invariant
                e <= ne,
                ne == c.num_experts,
                c.packed_fits(ctx, s),
                packed@.len() >= ne,
                offsets_ok(offs@, ne as int, c.rows()),
                no_unread_down(packed@, offs@, e as int),
                before == old(cb)@,
                cb@ == before + self.packed_cmds(ctx, *c, s, packed@, offs@, e as nat),
            decreases ne - e,
        {
            let unread: bool = self.record_packed_expert(cb, ctx, c, s, packed, offs, e);
            assert(cb@ =~= before + self.packed_cmds(ctx, *c, s, packed@, offs@, (e + 1) as nat));
            if unread {
                return Some(e);
            }
            e = e + 1;
        }
        None
    }

    /// Sizes in bytes of the three scratch areas, in the order of
    /// [`PackedScratch`].
    pub fn packed_scratch_bytes(&self, c: &RoutedCall) -> (r: Result<
        (usize, usize, usize),
        PackedMoeError,
    >)
        requires
            c.fits(),
            padded_k(c.h) <= u32::MAX,
            c.rows() * padded_k(c.h) * 4 + 0x10_0000 <= usize::MAX,
            c.h * c.inter * 2 <= usize::MAX,
        ensures
            r == (if self.weights.packed_experts is None {
                Err::<(usize, usize, usize), PackedMoeError>(PackedMoeError::NotPacked)
            } else {
                Ok::<(usize, usize, usize), PackedMoeError>(
                    (
                        (c.rows() * c.h * 2) as usize,
                        (c.rows() * padded_k(c.h) * 4 + 0x10_0000) as usize,
                        (c.h * c.inter * 2) as usize,
                    ),
                )
            }),
    {
        if self.weights.packed_experts.is_none() {
            return Err(PackedMoeError::NotPacked);
        }
        let total: u32 = c.n * c.top_k;
        proof {
            crate::device::lemma_row_bound(total as int, total as int, c.h as int, 2);
            crate::device::lemma_row_bound(c.h as int, c.h as int, c.inter as int, 2);
        }
        Ok(
            (
                total as usize * c.h as usize * 2,
                q8_1_scratch_bytes(total, c.h),
                c.h as usize * c.inter as usize * 2,
            ),
        )
    }

    /// Records the gather of rows into sorted order. Offsets are read back after it.
    pub fn permute_packed_rows(&self, cb: &mut CommandBuffer, c: &RoutedCall, permuted: DevicePtr)
        requires
            c.fits(),
        ensures
            final(cb)@ == old(cb)@.push(
                Cmd::Launch(
                    crate::ops::moe_grouped_a::moe_permute_tokens_launch(
                        self.kernels.moe_permute_tokens, c.expert_input, permuted,
                        c.sorted_token_ids, c.h, c.rows() as u32,
                    ),
                ),
            ),
    {
        crate::ops::moe_grouped_a::moe_permute_tokens(
            cb, self.kernels.moe_permute_tokens, c.expert_input, permuted, c.sorted_token_ids, c.h,
            c.n * c.top_k,
        );
    }

    /// Records the products of all experts that have rows, and frees the scratch.
    /// `offs` is what was read back from the expert offsets.
    pub fn run_routed_grouped_gemm_packed(
        &self,
        cb: &mut CommandBuffer,
        c: &RoutedCall,
        s: PackedScratch,
        offs: &Vec<u8>,
        ctx: &ForwardContext,
    ) -> (r: Result<(), PackedMoeError>)
        requires
            c.packed_fits(ctx, s),
            self.weights.packed_experts matches Some(p) ==> p@.len() >= c.num_experts,
        ensures
            match self.weights.packed_experts {
                None => r == Err::<(), PackedMoeError>(PackedMoeError::NotPacked) && final(cb)@ == old(
                    cb,
                )@,
                Some(packed) => if !offsets_ok(offs@, c.num_experts as int, c.rows()) {
                    r == Err::<(), PackedMoeError>(PackedMoeError::BadOffsets) && final(cb)@ == old(
                        cb,
                    )@
                } else {
                    match r {
                        Ok(()) => no_unread_down(packed@, offs@, c.num_experts as int)
                            && final(cb)@ == old(cb)@ + self.packed_cmds(
                            ctx,
                            *c,
                            s,
                            packed@,
                            offs@,
                            c.num_experts as nat,
                        ) + free_cmds(s),
                        Err(e) => e matches PackedMoeError::UnexpectedDown { expert }
                            && expert < c.num_experts && no_unread_down(
                            packed@,
                            offs@,
                            expert as int,
                        ) && unread_down(packed@, offs@, expert as int) && final(cb)@ == old(cb)@
                            + self.packed_cmds(
                            ctx,
                            *c,
                            s,
                            packed@,
                            offs@,
                            (expert + 1) as nat,
                        ),
                    }
                },
            },
    {
        let ghost before = cb@;
        let ne: usize = c.num_experts as usize;
        let total: u32 = c.n * c.top_k;
        let packed: &Vec<PackedExpertWeights> = match &self.weights.packed_experts {
            Some(p) => p,
            None => {
                return Err(PackedMoeError::NotPacked);
            },
        };
        if !check_offsets(offs, ne, total) {
            return Err(PackedMoeError::BadOffsets);
        }
        if let Some(expert) = self.record_packed_experts(cb, ctx, c, s, packed, offs) {
            return Err(PackedMoeError::UnexpectedDown { expert });
        }
        cb.op(DeviceOp::Free { ptr: s.permuted });
        cb.op(DeviceOp::Free { ptr: s.q8 });
        cb.op(DeviceOp::Free { ptr: s.down });
        assert(cb@ =~= before + self.packed_cmds(ctx, *c, s, packed@, offs@, ne as nat) + free_cmds(s));
        Ok(())
    }
}

/// Expert `e` has rows and a down projection that is not read here.
pub open spec fn unread_down(packed: Seq<PackedExpertWeights>, offs: Seq<u8>, e: int) -> bool {
    offset_at(offs, e) != offset_at(offs, e + 1) && packed[e].down is Other
}

/// None of the first `n` experts is such an expert.
pub open spec fn no_unread_down(packed: Seq<PackedExpertWeights>, offs: Seq<u8>, n: int) -> bool {
    forall|e: int| 0 <= e < n ==> !#[trigger] unread_down(packed, offs, e)
}

/// Releases of the scratch.
pub open spec fn free_cmds(s: PackedScratch) -> Seq<Cmd> {
    seq![
        Cmd::Op(DeviceOp::Free { ptr: s.permuted }),
        Cmd::Op(DeviceOp::Free { ptr: s.q8 }),
        Cmd::Op(DeviceOp::Free { ptr: s.down }),
    ]
}

proof fn lemma_rows_times(rows: int, total: int, inter: int)
    by (nonlinear_arith)
    requires
        0 <= rows <= total,
        0 <= inter,
    ensures
        rows * inter <= total * inter,
{
}

/// The rows of every expert lie inside the sorted rows, and those of different
/// experts do not overlap.
pub proof fn law_expert_rows_partition(offs: Seq<u8>, ne: int, total: int, e: int, f: int)
    requires
        offsets_ok(offs, ne, total),
        0 <= e < f < ne,
    ensures
        0 <= offset_at(offs, e) <= offset_at(offs, e + 1) <= offset_at(offs, f) <= offset_at(offs, f + 1)
            <= total,
    decreases f - e,
{
    lemma_offsets_bounded(offs, ne, total, e);
    lemma_offsets_bounded(offs, ne, total, f + 1);
    assert(offset_at(offs, e) <= offset_at(offs, e + 1));
    assert(offset_at(offs, f) <= offset_at(offs, f + 1));
    if e + 1 < f {
        law_expert_rows_partition(offs, ne, total, e + 1, f);
    }
}

/// Addresses of one expert's rows.
pub struct ExpertRows {
    pub input: int,
    pub gate: int,
    pub up: int,
    pub out: int,
}

impl RoutedCall {
    /// Where the rows from `start` on lie in sorted buffers.
    pub open spec fn rows_from(self, ctx: &ForwardContext, s: PackedScratch, start: int) -> ExpertRows {
        ExpertRows {
            input: s.permuted.0 + start * (2 * self.h),
            gate: ctx.buffers.expert_gate_out.0 + start * (2 * self.inter),
            up: ctx.buffers.expert_up_out.0 + start * (2 * self.inter),
            out: ctx.buffers.expert_down_out.0 + start * (2 * self.h),
        }
    }

    /// Sorted buffers and scratch do not overlap.
    pub open spec fn packed_apart(self, ctx: &ForwardContext, s: PackedScratch) -> bool {
        let b = ctx.buffers;
        let (wide, inner) = (self.rows() * (2 * self.h), self.rows() * (2 * self.inter));
        &&& disjoint(s.permuted, wide, b.expert_gate_out, inner)
        &&& disjoint(s.permuted, wide, b.expert_up_out, inner)
        &&& disjoint(b.expert_gate_out, inner, b.expert_up_out, inner)
        &&& disjoint(b.expert_gate_out, inner, b.expert_down_out, wide)
        &&& disjoint(b.expert_up_out, inner, b.expert_down_out, wide)
        &&& self.outside_sorted(ctx, s, s.q8)
        &&& self.outside_sorted(ctx, s, s.down)
        &&& s.q8 != s.down
        &&& self.h > 0
        &&& self.inter > 0
    }

    pub open spec fn outside_sorted(self, ctx: &ForwardContext, s: PackedScratch, p: DevicePtr) -> bool {
        let b = ctx.buffers;
        let (wide, inner) = (self.rows() * (2 * self.h), self.rows() * (2 * self.inter));
        &&& clear_of(p.0 as int, s.permuted.0 as int, wide)
        &&& clear_of(p.0 as int, b.expert_gate_out.0 as int, inner)
        &&& clear_of(p.0 as int, b.expert_up_out.0 as int, inner)
        &&& clear_of(p.0 as int, b.expert_down_out.0 as int, wide)
    }
}

/// A packed product of quantised rows.
pub open spec fn packed_product(of: Held, weight: DevicePtr, rows: int, n: int, k: int) -> Held {
    Held::PackedProduct {
        rows: Box::new(Held::Quantised { of: Box::new(of), rows, k }),
        weight,
        m: rows,
        n,
        k,
    }
}

/// An expert's rows pass that expert's own weights: the down product of the activated
/// product with its gating weight times the product with its up weight. Six-bit down
/// weights are expanded before they are multiplied. Rows of other experts stay as they
/// are.
#[verifier::rlimit(80)]
pub proof fn law_packed_expert_keeps_to_its_rows(
    l: &MoeLayer,
    ctx: &ForwardContext,
    c: RoutedCall,
    s: PackedScratch,
    packed: Seq<PackedExpertWeights>,
    offs: Seq<u8>,
    e: int,
    places: Places,
    m: Memory,
)
    requires
        c.packed_fits(ctx, s),
        c.packed_apart(ctx, s),
        !places.by_value,
        0 <= e < c.num_experts <= packed.len(),
        offsets_ok(offs, c.num_experts as int, c.rows()),
    ensures
        ({
            let start = offset_at(offs, e);
            let rows = offset_at(offs, e + 1) - start;
            let at = c.rows_from(ctx, s, start);
            let (h, inter) = (c.h as int, c.inter as int);
            let x = (m.at)(at.input);
            let act = Held::Gated {
                gate: Box::new(packed_product(x, packed[e].gate.weight, rows, inter, h)),
                up: Box::new(packed_product(x, packed[e].up.weight, rows, inter, h)),
                kernel: l.kernels.moe_silu_mul,
                limit: Scalar(0),
                count: rows * inter,
            };
            &&& run(places, m, l.packed_expert_cmds(ctx, c, s, packed, offs, e)) matches Some(v)
            &&& rows > 0 ==> match packed[e].down {
                QuantWeight::PackedQ4(w) => (v.at)(at.out) == packed_product(act, w.weight, rows, h, inter),
                QuantWeight::PackedQ6(w) => {
                    &&& (v.at)(at.out) == (Held::Product {
                        row: Box::new(act),
                        weight: WeightRef::Dense(DenseWeight { weight: s.down }),
                        n: c.h,
                        k: c.inter,
                    })
                    &&& v.held(s.down) == (Held::Expanded { blocks: w.weight, count: h * inter / 256 })
                },
                QuantWeight::Other => (v.at)(at.out) == (m.at)(at.out),
            }
            &&& forall|a: int|
                a != at.gate && a != at.up && clear_of(a, at.out, rows * (2 * c.h)) && a != s.q8.0 && a
                    != s.down.0 ==> #[trigger] (v.at)(a) == (m.at)(a)
        }),
{
    let start = offset_at(offs, e);
    let rows = offset_at(offs, e + 1) - start;
    lemma_offsets_bounded(offs, c.num_experts as int, c.rows(), e);
    lemma_offsets_bounded(offs, c.num_experts as int, c.rows(), e + 1);
    assert(offset_at(offs, e) <= offset_at(offs, e + 1));
    if rows > 0 {
        reveal(after_launch);
        let (h, inter, total) = (c.h as int, c.inter as int, c.rows());
        let at = c.rows_from(ctx, s, start);
        assert(start * h * 2 == start * (2 * h) && start * inter * 2 == start * (2 * inter) && total * h * 2
            == total * (2 * h) && total * inter * 2 == total * (2 * inter) && 0 <= start * (2 * h) && 0
            <= start * (2 * inter) && start * (2 * h) + rows * (2 * h) <= total * (2 * h) && start * (2
            * inter) + rows * (2 * inter) <= total * (2 * inter) && rows * (2 * h) >= 2 * h && rows * (2
            * inter) >= 2 * inter) by (nonlinear_arith)
            requires
                0 <= start,
                0 < rows,
                start + rows <= total,
                0 < h,
                0 < inter,
        ;
        lemma_rows_times(rows, total, inter);
        let (r32, s32) = (rows as u32, start as u32);
        let g = l.packed_gate_up_cmds(ctx, c, s, packed[e], s32, r32);
        let d = l.packed_down_cmds(ctx, c, s, packed[e].down, s32, r32);
        lemma_run_add(places, m, g, d);
        assert(g =~= seq![g[0], g[1], g[2]].push(g[3]));
        lemma_run_three(places, m, g[0], g[1], g[2]);
        lemma_run_push(places, m, seq![g[0], g[1], g[2]], g[3]);
        let m3 = run(places, m, seq![g[0], g[1], g[2]])->0;
        lemma_after_activation(places, m3, g[3]->Op_0);
        let m4 = after(places, m3, g[3])->0;
        match packed[e].down {
            QuantWeight::PackedQ4(w) => {
                assert(d =~= seq![d[0], d[1]]);
                lemma_run_two(places, m4, d[0], d[1]);
            },
            QuantWeight::PackedQ6(w) => {
                assert(d =~= seq![d[0], d[1]]);
                lemma_run_two(places, m4, d[0], d[1]);
                let m5 = after(places, m4, d[0])->0;
                lemma_after_matmul(places, m5, d[1]->Op_0);
                let v = after(places, m5, d[1])->0;
                lemma_row_hit(at.out, 2 * h, 2 * h, rows, 0);
                lemma_row_miss(s.down.0 as int, at.out, 2 * h, 2 * h, rows);
                assert forall|a: int| clear_of(a, at.out, rows * (2 * h)) implies #[trigger] (v.at)(a)
                    == (m5.at)(a) by {
                    lemma_row_miss(a, at.out, 2 * h, 2 * h, rows);
                }
            },
            QuantWeight::Other => {},
        }
    }
}

} // verus!
