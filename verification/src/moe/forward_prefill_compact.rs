//! Compact decode of a few rows through four-bit experts.
//!
//! The worklist is built and used on one stream, so these passes can be captured
//! into a graph: nothing about the routing is read back.
use crate::context::ForwardContext;
use crate::dataflow::{
    after, after_launch, lemma_after_activation, lemma_after_worklist, lemma_dual_launch, lemma_grouped_launch,
    lemma_listed_launch, lemma_listed_pair_launch, lemma_run_add, lemma_run_one, lemma_run_three,
    lemma_run_two, run, Grouped, Held, Memory, Places,
};
use crate::device::{Cmd, CommandBuffer, DevicePtr, KernelArg};
use crate::env::EnvVars;
use crate::moe::forward_routed::RoutedCall;
use crate::moe::layer::MoeLayer;
use crate::moe::stream_tables::ExpertPtrTable;
use crate::num::{ceil_div, div_ceil_u32};
use crate::ops_table::DeviceOp;
use crate::weights::WeightQuantFormat;
use vstd::prelude::*;

verus! {

/// Which stages run over the worklist. The single-stage modes compare one of
/// them with its dense sibling.
#[derive(Debug, Clone, Copy, PartialEq, Eq, Structural)]
pub enum CompactMode {
    Both,
    GateUp,
    Down,
}

/// Mode that the environment asks for.
pub open spec fn compact_mode(env: &EnvVars) -> Option<CompactMode> {
    if env.says("ATLAS_MOE_NVFP4_COMPACT_DECODE"@, "1"@)
        || env.says("ATLAS_MOE_NVFP4_COMPACT_DECODE"@, "both"@) {
        Some(CompactMode::Both)
    } else if env.says("ATLAS_MOE_NVFP4_COMPACT_DECODE"@, "gateup"@) {
        Some(CompactMode::GateUp)
    } else if env.says("ATLAS_MOE_NVFP4_COMPACT_DECODE"@, "down"@) {
        Some(CompactMode::Down)
    } else {
        None
    }
}

/// Mode that the environment asks for.
pub fn compact_nvfp4_decode_mode(env: &EnvVars) -> (r: Option<CompactMode>)
    ensures
        r == compact_mode(env),
{
    if env.is("ATLAS_MOE_NVFP4_COMPACT_DECODE", "1") || env.is(
        "ATLAS_MOE_NVFP4_COMPACT_DECODE",
        "both",
    ) {
        Some(CompactMode::Both)
    } else if env.is("ATLAS_MOE_NVFP4_COMPACT_DECODE", "gateup") {
        Some(CompactMode::GateUp)
    } else if env.is("ATLAS_MOE_NVFP4_COMPACT_DECODE", "down") {
        Some(CompactMode::Down)
    } else {
        None
    }
}

/// Whether any stage runs over the worklist.
pub fn compact_nvfp4_decode_enabled(env: &EnvVars) -> (r: bool)
    ensures
        r == (compact_mode(env) is Some),
{
    compact_nvfp4_decode_mode(env).is_some()
}

/// Whether decode may run unpadded on a fixed grid.
pub fn persistent_nvfp4_decode_enabled(env: &EnvVars) -> (r: bool)
    ensures
        r == env.says("ATLAS_MOE_PERSISTENT_DECODE"@, "1"@),
{
    env.is("ATLAS_MOE_PERSISTENT_DECODE", "1")
}

impl MoeLayer {
    /// A batch small enough, on plain four-bit experts of a single rank.
    pub open spec fn small_nvfp4_batch(&self, ctx: &ForwardContext, c: RoutedCall) -> bool {
        &&& 4 <= c.n <= 8
        &&& c.n * c.top_k <= 64
        &&& self.lora is None
        &&& self.pre_expert_norm is None
        &&& ctx.comm_world_size is None
        &&& self.experts_scale_kind == WeightQuantFormat::Nvfp4
    }

    fn is_small_nvfp4_batch(&self, ctx: &ForwardContext, c: &RoutedCall) -> (r: bool)
        ensures
            r == self.small_nvfp4_batch(ctx, *c),
    {
        if c.n < 4 || c.n > 8 {
            return false;
        }
        proof {
            assert(c.n * c.top_k <= 8 * c.top_k) by (nonlinear_arith)
                requires
                    c.n <= 8,
            ;
        }
        c.n as u64 * c.top_k as u64 <= 64 && self.lora.is_none() && self.pre_expert_norm.is_none()
            && ctx.comm_world_size.is_none() && self.experts_scale_kind == WeightQuantFormat::Nvfp4
    }

    /// The unpadded pass on a fixed grid is taken.
    pub open spec fn takes_persistent(
        &self,
        ctx: &ForwardContext,
        env: &EnvVars,
        c: RoutedCall,
    ) -> bool {
        &&& env.says("ATLAS_MOE_PERSISTENT_DECODE"@, "1"@)
        &&& self.small_nvfp4_batch(ctx, c)
        &&& self.kernels.moe_build_decode_worklist_c8.present()
        &&& self.kernels.moe_decode_persistent_gate_up_c8.present()
        &&& self.kernels.moe_decode_persistent_down_c8.present()
    }

    /// The compact pass is taken where the unpadded one is not.
    pub open spec fn takes_compact(&self, ctx: &ForwardContext, env: &EnvVars, c: RoutedCall) -> bool {
        &&& compact_mode(env) is Some
        &&& self.small_nvfp4_batch(ctx, c)
        &&& self.kernels.moe_grouped_gemm_t_k64_worklist.present()
        &&& self.kernels.moe_fused_gate_up_t_k64_worklist.present()
        &&& self.gate_ptrs_t is Some
        &&& self.up_ptrs_t is Some
        &&& self.down_ptrs_t is Some
    }

    /// The unpadded pass. It reads the tables that were not transposed.
    pub open spec fn persistent_cmds(&self, ctx: &ForwardContext, c: RoutedCall) -> Seq<Cmd> {
        let b = ctx.buffers;
        let k = self.kernels;
        let g = self.gate_ptrs;
        let u = self.up_ptrs;
        let d = self.down_ptrs;
        seq![
            Cmd::Launch(crate::ops::moe_decode_persistent::moe_build_decode_worklist_c8_launch(
                k.moe_build_decode_worklist_c8, c.expert_offsets, b.moe_decode_worklist,
                b.moe_decode_worklist_count, c.num_experts, c.rows() as u32)),
            Cmd::Launch(crate::ops::moe_decode_persistent::moe_decode_persistent_gate_up_c8_launch(
                k.moe_decode_persistent_gate_up_c8, c.expert_input, g.packed_ptrs, g.scale_ptrs,
                g.scale2_vals, u.packed_ptrs, u.scale_ptrs, u.scale2_vals, b.expert_gate_out,
                b.expert_up_out, c.sorted_token_ids, b.moe_decode_worklist,
                b.moe_decode_worklist_count, c.inter, c.h)),
            Cmd::Launch(crate::ops::moe_decode_persistent::moe_decode_persistent_down_c8_launch(
                k.moe_decode_persistent_down_c8, b.expert_gate_out, b.expert_up_out, d.packed_ptrs,
                d.scale_ptrs, d.scale2_vals, b.expert_down_out, b.moe_decode_worklist,
                b.moe_decode_worklist_count, c.h, c.inter)),
        ]
    }

    fn record_persistent(&self, cb: &mut CommandBuffer, ctx: &ForwardContext, c: &RoutedCall)
        requires
            c.fits(),
        ensures
            final(cb)@ == old(cb)@ + self.persistent_cmds(ctx, *c),
    {
        let ghost before = cb@;
        let b: crate::context::Buffers = ctx.buffers;
        let k: crate::moe::layer::MoeKernels = self.kernels;
        let g: ExpertPtrTable = self.gate_ptrs;
        let u: ExpertPtrTable = self.up_ptrs;
        let d: ExpertPtrTable = self.down_ptrs;
        crate::ops::moe_decode_persistent::moe_build_decode_worklist_c8(cb,
            k.moe_build_decode_worklist_c8, c.expert_offsets, b.moe_decode_worklist,
            b.moe_decode_worklist_count, c.num_experts, c.n * c.top_k);
        crate::ops::moe_decode_persistent::moe_decode_persistent_gate_up_c8(cb,
            k.moe_decode_persistent_gate_up_c8, c.expert_input, g.packed_ptrs, g.scale_ptrs,
            g.scale2_vals, u.packed_ptrs, u.scale_ptrs, u.scale2_vals, b.expert_gate_out,
            b.expert_up_out, c.sorted_token_ids, b.moe_decode_worklist,
            b.moe_decode_worklist_count, c.inter, c.h);
        crate::ops::moe_decode_persistent::moe_decode_persistent_down_c8(cb,
            k.moe_decode_persistent_down_c8, b.expert_gate_out, b.expert_up_out, d.packed_ptrs,
            d.scale_ptrs, d.scale2_vals, b.expert_down_out, b.moe_decode_worklist,
            b.moe_decode_worklist_count, c.h, c.inter);
        assert(cb@ =~= before + self.persistent_cmds(ctx, *c));
    }

    /// Gate and up products of the compact pass. Both share one range of `2 * inter` columns.
    pub open spec fn compact_gate_up_cmds(&self, ctx: &ForwardContext, c: RoutedCall,
        mode: CompactMode, g: ExpertPtrTable, u: ExpertPtrTable) -> Seq<Cmd> {
        let b = ctx.buffers;
        let k = self.kernels;
        (if mode != CompactMode::Down {
            seq![
                Cmd::Op(DeviceOp::BuildTileWorklist { kernel: k.moe_build_tile_worklist,
                    offsets: c.expert_offsets, weights: g.packed_ptrs,
                    worklist: b.moe_decode_worklist, total_tiles: b.moe_decode_worklist_count,
                    num_experts: c.num_experts, n_tiles: ceil_div(2 * c.inter, 128) as u32,
                    m_tile: 64 }),
                Cmd::Launch(crate::ops::moe_grouped_worklist::moe_w4a16_fused_gate_up_k64_worklist_launch(
                    k.moe_fused_gate_up_t_k64_worklist, c.expert_input, g.packed_ptrs,
                    g.scale_ptrs, g.scale2_vals, u.packed_ptrs, u.scale_ptrs, u.scale2_vals,
                    b.expert_gate_out, b.expert_up_out, c.expert_offsets, c.sorted_token_ids,
                    c.num_experts, c.inter, c.h, b.moe_decode_worklist,
                    b.moe_decode_worklist_count)),
            ]
        } else {
            seq![
                Cmd::Launch(crate::ops::moe_grouped_a::moe_w4a16_fused_gate_up_k64_n128_launch(
                    k.moe_fused_gate_up_t_k64, c.expert_input, g.packed_ptrs, g.scale_ptrs,
                    g.scale2_vals, u.packed_ptrs, u.scale_ptrs, u.scale2_vals, b.expert_gate_out,
                    b.expert_up_out, c.expert_offsets, c.sorted_token_ids, c.num_experts, c.inter,
                    c.h, 1)),
            ]
        })
    }

    fn record_compact_gate_up(&self, cb: &mut CommandBuffer, ctx: &ForwardContext, c: &RoutedCall,
        mode: CompactMode, g: ExpertPtrTable, u: ExpertPtrTable)
        requires
            c.fits(),
        ensures
            final(cb)@ == old(cb)@ + self.compact_gate_up_cmds(ctx, *c, mode, g, u),
    {
        let ghost before = cb@;
        let b: crate::context::Buffers = ctx.buffers;
        let k: crate::moe::layer::MoeKernels = self.kernels;
        if mode != CompactMode::Down {
            cb.op(DeviceOp::BuildTileWorklist { kernel: k.moe_build_tile_worklist,
                offsets: c.expert_offsets, weights: g.packed_ptrs, worklist: b.moe_decode_worklist,
                total_tiles: b.moe_decode_worklist_count, num_experts: c.num_experts,
                n_tiles: div_ceil_u32(2 * c.inter, 128), m_tile: 64 });
            crate::ops::moe_grouped_worklist::moe_w4a16_fused_gate_up_k64_worklist(cb,
                k.moe_fused_gate_up_t_k64_worklist, c.expert_input, g.packed_ptrs, g.scale_ptrs,
                g.scale2_vals, u.packed_ptrs, u.scale_ptrs, u.scale2_vals, b.expert_gate_out,
                b.expert_up_out, c.expert_offsets, c.sorted_token_ids, c.num_experts, c.inter, c.h,
                b.moe_decode_worklist, b.moe_decode_worklist_count);
        } else {
            crate::ops::moe_grouped_a::moe_w4a16_fused_gate_up_k64_n128(cb,
                k.moe_fused_gate_up_t_k64, c.expert_input, g.packed_ptrs, g.scale_ptrs,
                g.scale2_vals, u.packed_ptrs, u.scale_ptrs, u.scale2_vals, b.expert_gate_out,
                b.expert_up_out, c.expert_offsets, c.sorted_token_ids, c.num_experts, c.inter, c.h,
                1);
        }
        assert(cb@ =~= before + self.compact_gate_up_cmds(ctx, *c, mode, g, u));
    }

    /// Activation and down product of the compact pass.
    pub open spec fn compact_down_cmds(&self, ctx: &ForwardContext, c: RoutedCall,
        mode: CompactMode, d: ExpertPtrTable) -> Seq<Cmd> {
        let b = ctx.buffers;
        let k = self.kernels;
        seq![
            Cmd::Op(DeviceOp::ActMul { kernel: k.moe_act_mul, gate: b.expert_gate_out,
                up: b.expert_up_out, out: b.expert_gate_out, n: (c.rows() * c.inter) as u32 }),
        ] + (if mode != CompactMode::GateUp {
            seq![
                Cmd::Op(DeviceOp::BuildTileWorklist { kernel: k.moe_build_tile_worklist,
                    offsets: c.expert_offsets, weights: d.packed_ptrs,
                    worklist: b.moe_decode_worklist, total_tiles: b.moe_decode_worklist_count,
                    num_experts: c.num_experts, n_tiles: ceil_div(c.h as int, 128) as u32,
                    m_tile: 64 }),
                Cmd::Launch(crate::ops::moe_grouped_worklist::moe_w4a16_grouped_gemm_k64_worklist_launch(
                    k.moe_grouped_gemm_t_k64_worklist, b.expert_gate_out, d.packed_ptrs,
                    d.scale_ptrs, d.scale2_vals, b.expert_down_out, c.expert_offsets, DevicePtr(0),
                    c.num_experts, c.h, c.inter, b.moe_decode_worklist,
                    b.moe_decode_worklist_count)),
            ]
        } else {
            seq![
                Cmd::Launch(crate::ops::moe_grouped_a::moe_w4a16_grouped_gemm_ptrtable_n128_launch(
                    k.moe_grouped_gemm_t_k64, b.expert_gate_out, d.packed_ptrs, d.scale_ptrs,
                    d.scale2_vals, b.expert_down_out, c.expert_offsets, DevicePtr(0),
                    c.num_experts, c.h, c.inter, 1)),
            ]
        })
    }

    fn record_compact_down(&self, cb: &mut CommandBuffer, ctx: &ForwardContext, c: &RoutedCall,
        mode: CompactMode, d: ExpertPtrTable)
        requires
            c.fits(),
        ensures
            final(cb)@ == old(cb)@ + self.compact_down_cmds(ctx, *c, mode, d),
    {
        let ghost before = cb@;
        let b: crate::context::Buffers = ctx.buffers;
        let k: crate::moe::layer::MoeKernels = self.kernels;
        cb.op(DeviceOp::ActMul { kernel: k.moe_act_mul, gate: b.expert_gate_out,
            up: b.expert_up_out, out: b.expert_gate_out, n: c.n * c.top_k * c.inter });
        if mode != CompactMode::GateUp {
            cb.op(DeviceOp::BuildTileWorklist { kernel: k.moe_build_tile_worklist,
                offsets: c.expert_offsets, weights: d.packed_ptrs, worklist: b.moe_decode_worklist,
                total_tiles: b.moe_decode_worklist_count, num_experts: c.num_experts,
                n_tiles: div_ceil_u32(c.h, 128), m_tile: 64 });
            crate::ops::moe_grouped_worklist::moe_w4a16_grouped_gemm_k64_worklist(cb,
                k.moe_grouped_gemm_t_k64_worklist, b.expert_gate_out, d.packed_ptrs, d.scale_ptrs,
                d.scale2_vals, b.expert_down_out, c.expert_offsets, DevicePtr::null(),
                c.num_experts, c.h, c.inter, b.moe_decode_worklist, b.moe_decode_worklist_count);
        } else {
            crate::ops::moe_grouped_a::moe_w4a16_grouped_gemm_ptrtable_n128(cb,
                k.moe_grouped_gemm_t_k64, b.expert_gate_out, d.packed_ptrs, d.scale_ptrs,
                d.scale2_vals, b.expert_down_out, c.expert_offsets, DevicePtr::null(),
                c.num_experts, c.h, c.inter, 1);
        }
        assert(cb@ =~= before + self.compact_down_cmds(ctx, *c, mode, d));
    }

    /// Records the unpadded pass where it applies, and says whether it did.
    pub fn try_persistent_nvfp4_decode(
        &self,
        cb: &mut CommandBuffer,
        c: &RoutedCall,
        ctx: &ForwardContext,
        env: &EnvVars,
    ) -> (r: bool)
        requires
            self.small_nvfp4_batch(ctx, *c) ==> c.fits(),
        ensures
            r == self.takes_persistent(ctx, env, *c),
            final(cb)@ == (if r {
                old(cb)@ + self.persistent_cmds(ctx, *c)
            } else {
                old(cb)@
            }),
    {
        if !persistent_nvfp4_decode_enabled(env) || !self.is_small_nvfp4_batch(ctx, c)
            || !self.kernels.moe_build_decode_worklist_c8.is_present()
            || !self.kernels.moe_decode_persistent_gate_up_c8.is_present()
            || !self.kernels.moe_decode_persistent_down_c8.is_present() {
            return false;
        }
        self.record_persistent(cb, ctx, c);
        true
    }

    /// Records the unpadded or else the compact pass where one applies, and says
    /// whether one did. Otherwise the caller runs the padded pass.
    pub fn try_compact_nvfp4_decode(
        &self,
        cb: &mut CommandBuffer,
        c: &RoutedCall,
        ctx: &ForwardContext,
        env: &EnvVars,
    ) -> (r: bool)
        requires
            self.small_nvfp4_batch(ctx, *c) ==> c.fits(),
        ensures
            r == (self.takes_persistent(ctx, env, *c) || self.takes_compact(ctx, env, *c)),
            final(cb)@ == (if self.takes_persistent(ctx, env, *c) {
                old(cb)@ + self.persistent_cmds(ctx, *c)
            } else if self.takes_compact(ctx, env, *c) {
                old(cb)@ + (self.compact_gate_up_cmds(
                    ctx,
                    *c,
                    compact_mode(env)->0,
                    self.gate_ptrs_t->0,
                    self.up_ptrs_t->0,
                ) + self.compact_down_cmds(ctx, *c, compact_mode(env)->0, self.down_ptrs_t->0))
            } else {
                old(cb)@
            }),
    {
        if self.try_persistent_nvfp4_decode(cb, c, ctx, env) {
            return true;
        }
        let ghost before = cb@;
        let mode: CompactMode = match compact_nvfp4_decode_mode(env) {
            Some(m) => m,
            None => {
                return false;
            },
        };
        if !self.is_small_nvfp4_batch(ctx, c)
            || !self.kernels.moe_grouped_gemm_t_k64_worklist.is_present()
            || !self.kernels.moe_fused_gate_up_t_k64_worklist.is_present() {
            return false;
        }
        match (self.gate_ptrs_t, self.up_ptrs_t, self.down_ptrs_t) {
            (Some(g), Some(u), Some(d)) => {
                self.record_compact_gate_up(cb, ctx, c, mode, g, u);
                self.record_compact_down(cb, ctx, c, mode, d);
                assert(cb@ =~= before + (self.compact_gate_up_cmds(ctx, *c, mode, g, u)
                    + self.compact_down_cmds(ctx, *c, mode, d)));
                true
            },
            _ => false,
        }
    }
}

impl RoutedCall {
    /// Buffers of a compact pass are distinct.
    pub open spec fn compact_apart(self, ctx: &ForwardContext) -> bool {
        let b = ctx.buffers;
        let here = seq![
            b.expert_gate_out,
            b.expert_up_out,
            b.expert_down_out,
            self.expert_input,
            self.expert_offsets,
            self.sorted_token_ids,
            b.moe_decode_worklist,
            b.moe_decode_worklist_count,
        ];
        &&& here.no_duplicates()
        &&& self.sorted_token_ids.0 != 0
    }

    /// A list of tiles of 64 rows for `columns` ranges, by this call's own offsets.
    pub open spec fn lists(self, m: Memory, list: Held, columns: int) -> bool {
        list == (Held::Worklist {
            offsets: Box::new(m.held(self.expert_offsets)),
            experts: self.num_experts as int,
            columns,
            rows: 64,
        })
    }

    /// `p` is a product over all rows: by a list that covers all columns, or by a grid that
    /// reaches a tile of every expert.
    pub open spec fn compact_product(
        self,
        m: Memory,
        p: Held,
        rows: Held,
        table: ExpertPtrTable,
        n: u32,
        k: u32,
        columns: int,
    ) -> bool {
        let fits = |g: Grouped|
            {
                &&& *g.rows == rows
                &&& g.table == table
                &&& *g.offsets == m.held(self.expert_offsets)
                &&& g.experts == self.num_experts
                &&& g.n == n
                &&& g.k == k
            };
        match p {
            Held::Grouped(g) => fits(g) && g.reach >= 64,
            Held::Listed { product, list, count } => fits(product) && self.lists(m, *list, columns)
                && *count == *list,
            _ => false,
        }
    }

    /// Rows of `p` before its product: the input in sorted order.
    pub open spec fn compact_rows(self, m: Memory, p: Held) -> bool {
        p matches Held::Gathered { rows, map, width, count } && {
            &&& *rows == m.held(self.expert_input)
            &&& *map == m.held(self.sorted_token_ids)
            &&& width == self.h
            &&& count >= self.rows() || count >= 64 * self.num_experts
        }
    }
}

/// Rows that a product reads.
pub open spec fn rows_read(p: Held) -> Held {
    match p {
        Held::Grouped(g) => *g.rows,
        Held::Listed { product, list, count } => *product.rows,
        _ => p,
    }
}

/// The compact pass, however much of it runs over worklists, is the down product of the
/// activated product with the gating table times the product with the up table, all of
/// the same sorted rows, and every worklist was built for the product that reads it.
#[verifier::rlimit(60)]
pub proof fn law_compact_pass_applies_gated_products(
    l: &MoeLayer,
    ctx: &ForwardContext,
    c: RoutedCall,
    mode: CompactMode,
    gate: ExpertPtrTable,
    up: ExpertPtrTable,
    down: ExpertPtrTable,
    places: Places,
    m: Memory,
)
    requires
        c.fits(),
        c.compact_apart(ctx),
        !places.by_value,
        c.rows() <= u32::MAX,
        c.rows() * c.inter <= u32::MAX,
        2 * c.inter <= u32::MAX,
    ensures
        ({
            let b = ctx.buffers;
            let cmds = l.compact_gate_up_cmds(ctx, c, mode, gate, up) + l.compact_down_cmds(
                ctx,
                c,
                mode,
                down,
            );
            &&& run(places, m, cmds) matches Some(v)
            &&& rows_read(v.held(b.expert_down_out)) matches Held::Gated { gate: g, up: u, kernel, limit, count }
            &&& kernel == l.kernels.moe_act_mul
            &&& count == c.rows() * c.inter
            &&& c.compact_product(
                m,
                v.held(b.expert_down_out),
                rows_read(v.held(b.expert_down_out)),
                down,
                c.h,
                c.inter,
                ceil_div(c.h as int, 128),
            )
            &&& c.compact_rows(m, rows_read(*g))
            &&& c.compact_rows(m, rows_read(*u))
            &&& c.compact_product(m, *g, rows_read(*g), gate, c.inter, c.h, ceil_div(2 * c.inter, 128))
            &&& c.compact_product(m, *u, rows_read(*u), up, c.inter, c.h, ceil_div(2 * c.inter, 128))
        }),
{
    let b = ctx.buffers;
    let here = seq![
        b.expert_gate_out,
        b.expert_up_out,
        b.expert_down_out,
        c.expert_input,
        c.expert_offsets,
        c.sorted_token_ids,
        b.moe_decode_worklist,
        b.moe_decode_worklist_count,
    ];
    assert forall|i: int, j: int| 0 <= i < j < 8 implies here[i] != here[j] by {}
    assert(here[0] != here[1] && here[0] != here[2] && here[0] != here[3] && here[0] != here[4] && here[0]
        != here[5] && here[0] != here[6] && here[0] != here[7]);
    assert(here[1] != here[2] && here[1] != here[3] && here[1] != here[4] && here[1] != here[5] && here[1]
        != here[6] && here[1] != here[7]);
    assert(here[2] != here[4] && here[2] != here[6] && here[2] != here[7]);
    assert(here[3] != here[6] && here[3] != here[7] && here[4] != here[6] && here[4] != here[7] && here[5]
        != here[6] && here[5] != here[7] && here[6] != here[7]);
    let (list, count) = (b.moe_decode_worklist, b.moe_decode_worklist_count);
    let (x, ids, off, none) = (c.expert_input, c.sorted_token_ids, c.expert_offsets, DevicePtr(0));
    let (gu, dn) = (l.compact_gate_up_cmds(ctx, c, mode, gate, up), l.compact_down_cmds(ctx, c, mode, down));
    lemma_run_add(places, m, gu, dn);
    assert(64 * c.num_experts == 64 * 1 * c.num_experts);
    if mode != CompactMode::Down {
        assert(gu =~= seq![gu[0], gu[1]]);
        lemma_run_two(places, m, gu[0], gu[1]);
        lemma_after_worklist(places, m, gu[0]->Op_0);
        let t = after(places, m, gu[0])->0;
        lemma_listed_pair_launch(
            t,
            gu[1]->Launch_0,
            x,
            gate,
            up,
            b.expert_gate_out,
            b.expert_up_out,
            off,
            ids,
            c.num_experts,
            c.inter,
            c.h,
            list,
            count,
        );
    } else {
        assert(gu =~= seq![gu[0]]);
        lemma_run_one(places, m, gu[0]);
        lemma_dual_launch(
            m,
            gu[0]->Launch_0,
            x,
            gate,
            up,
            b.expert_gate_out,
            b.expert_up_out,
            off,
            ids,
            c.num_experts,
            c.inter,
            c.h,
        );
    }
    let m1 = run(places, m, gu)->0;
    let (g, u) = (m1.held(b.expert_gate_out), m1.held(b.expert_up_out));
    assert(m1.held(off) == m.held(off));
    lemma_after_activation(places, m1, dn[0]->Op_0);
    let m2 = after(places, m1, dn[0])->0;
    if mode != CompactMode::GateUp {
        assert(dn =~= seq![dn[0], dn[1], dn[2]]);
        lemma_run_three(places, m1, dn[0], dn[1], dn[2]);
        lemma_after_worklist(places, m2, dn[1]->Op_0);
        let m3 = after(places, m2, dn[1])->0;
        lemma_listed_launch(
            m3,
            dn[2]->Launch_0,
            b.expert_gate_out,
            down,
            b.expert_down_out,
            off,
            none,
            c.num_experts,
            c.h,
            c.inter,
            list,
            count,
        );
    } else {
        assert(dn =~= seq![dn[0], dn[1]]);
        lemma_run_two(places, m1, dn[0], dn[1]);
        lemma_grouped_launch(
            m2,
            dn[1]->Launch_0,
            b.expert_gate_out,
            down,
            b.expert_down_out,
            off,
            none,
            c.num_experts,
            c.h,
            c.inter,
        );
    }
    assert(m2.held(b.expert_gate_out) == (Held::Gated {
        gate: Box::new(g),
        up: Box::new(u),
        kernel: l.kernels.moe_act_mul,
        limit: crate::device::Scalar(0),
        count: c.rows() * c.inter,
    }));
}

/// `p` is a product of `rows` and a table over the groups that the list of this pass names.
pub open spec fn group_product(
    ctx: &ForwardContext,
    m: Memory,
    p: Held,
    table: ExpertPtrTable,
    n: u32,
    k: u32,
) -> bool {
    p matches Held::Listed { product, list, count } && {
        &&& product.table == table
        &&& product.n == n
        &&& product.k == k
        &&& *list == m.held(ctx.buffers.moe_decode_worklist)
        &&& *count == m.held(ctx.buffers.moe_decode_worklist_count)
    }
}

/// The unpadded pass first lists the groups of this call's own offsets. Over that list it
/// is the down product of the activated product with the gating table times the product
/// with the up table, all of the same sorted rows.
#[verifier::rlimit(60)]
pub proof fn law_unpadded_pass_applies_gated_products(
    l: &MoeLayer,
    ctx: &ForwardContext,
    c: RoutedCall,
    places: Places,
    m: Memory,
)
    requires
        c.compact_apart(ctx),
        c.rows() <= u32::MAX,
    ensures
        ({
            let b = ctx.buffers;
            let cmds = l.persistent_cmds(ctx, c);
            let built = cmds[0]->Launch_0;
            &&& cmds.len() == 3
            &&& built.args[0] == KernelArg::Ptr(c.expert_offsets)
            &&& built.args[1] == KernelArg::Ptr(b.moe_decode_worklist)
            &&& built.args[2] == KernelArg::Ptr(b.moe_decode_worklist_count)
            &&& built.args[3] == KernelArg::U32(c.num_experts)
            &&& built.args[4] == KernelArg::U32(c.rows() as u32)
            &&& run(places, m, cmds.skip(1)) matches Some(v)
            &&& group_product(ctx, m, v.held(b.expert_down_out), l.down_ptrs, c.h, c.inter)
            &&& rows_read(v.held(b.expert_down_out)) matches Held::Gated { gate, up, .. }
            &&& group_product(ctx, m, *gate, l.gate_ptrs, c.inter, c.h)
            &&& group_product(ctx, m, *up, l.up_ptrs, c.inter, c.h)
            &&& c.compact_rows(m, rows_read(*gate))
            &&& c.compact_rows(m, rows_read(*up))
        }),
{
    reveal(after_launch);
    let b = ctx.buffers;
    let here = seq![
        b.expert_gate_out,
        b.expert_up_out,
        b.expert_down_out,
        c.expert_input,
        c.expert_offsets,
        c.sorted_token_ids,
        b.moe_decode_worklist,
        b.moe_decode_worklist_count,
    ];
    assert(here[0] != here[1] && here[0] != here[2] && here[0] != here[3] && here[0] != here[5] && here[0]
        != here[6] && here[0] != here[7]);
    assert(here[1] != here[2] && here[1] != here[6] && here[1] != here[7]);
    assert(here[2] != here[6] && here[2] != here[7]);
    let cmds = l.persistent_cmds(ctx, c);
    assert(cmds.skip(1) =~= seq![cmds[1], cmds[2]]);
    lemma_run_two(places, m, cmds[1], cmds[2]);
}

} // verus!
