//! Grouped products of the routed experts in prefill.
//!
//! Rows are sorted by expert. The launches cover a number of row tiles per
//! expert that is an upper bound by default, exact where offsets may be read
//! back, or capped by a load factor. Results land in the shared expert buffers
//! in sorted order.
use crate::context::ForwardContext;
use crate::dataflow::{
    after, after_op, lemma_dual_launch, lemma_gather_launch, lemma_grouped_launch, lemma_run_add, lemma_run_one, lemma_run_three, lemma_run_two, outside, run, Grouped, Held, Memory,
    Places,
};
use crate::device::{Cmd, CommandBuffer, DevicePtr, Scalar};
use crate::env::EnvVars;
use crate::moe::layer::MoeLayer;
use crate::moe::stream_tables::ExpertPtrTable;
use crate::num::{ceil_div, div_ceil, div_ceil_u32, le_u32, max_int, min_int, read_u32, saturating_mul};
use crate::ops::moe_grouped_a::{
    moe_fp8_grouped_gemm_ptrtable_n128, moe_permute_tokens, moe_w4a16_fused_gate_up_k64_m128,
    moe_w4a16_fused_gate_up_k64_n128, moe_w4a16_grouped_gemm_ptrtable,
    moe_w4a16_grouped_gemm_ptrtable_n128,
};
use crate::ops_table::DeviceOp;
use crate::text::{decimal, lemma_decimal_nonneg, parse_usize};
use vstd::prelude::*;

verus! {

/// Operands of one pass over the routed experts.
#[derive(Debug, Clone, Copy, PartialEq, Eq, Structural)]
pub struct RoutedCall {
    /// `[n, h]` rows before sorting.
    pub expert_input: DevicePtr,
    /// `num_experts + 1` first rows.
    pub expert_offsets: DevicePtr,
    pub sorted_token_ids: DevicePtr,
    pub n: u32,
    pub h: u32,
    pub inter: u32,
    pub num_experts: u32,
    pub top_k: u32,
}

impl RoutedCall {
    /// Sorted rows.
    pub open spec fn rows(self) -> int {
        self.n * self.top_k
    }

    /// Counts of the pass fit their kernel arguments.
    pub open spec fn fits(self) -> bool {
        &&& self.rows() <= u32::MAX
        &&& self.rows() * self.inter <= u32::MAX
        &&& 2 * self.inter <= u32::MAX
        &&& self.rows() * self.inter * 2 <= usize::MAX
        &&& self.rows() * self.h * 2 <= usize::MAX
    }
}

/// Row tiles that hold even all rows at one expert.
pub open spec fn worst_case_tiles(num_tokens: int, top_k: int) -> u32 {
    max_int(ceil_div(num_tokens * top_k, 64), 1) as u32
}

/// Rows of expert `e` in a readback of the offsets, zero where they decrease.
pub open spec fn rows_of(offsets: Seq<u8>, e: int) -> int {
    max_int(le_u32(offsets, 4 * (e + 1)) - (if e == 0 {
        0
    } else {
        le_u32(offsets, 4 * e)
    }), 0)
}

/// Most rows at one of the first `n` experts.
pub open spec fn most_rows(offsets: Seq<u8>, n: nat) -> int
    decreases n,
{
    if n == 0 {
        0
    } else {
        max_int(most_rows(offsets, (n - 1) as nat), rows_of(offsets, n - 1))
    }
}

/// Whether the tile count is read from the offsets.
pub open spec fn exact_tiles(env: &EnvVars, graph_capture: bool) -> bool {
    env.says("ATLAS_MOE_PREFILL_EXACT_TILES"@, "1"@) && !graph_capture
}

/// Whether the tile count is read from the offsets. A graph capture cannot wait
/// for a readback.
pub fn wants_exact_tiles(env: &EnvVars, graph_capture: bool) -> (r: bool)
    ensures
        r == exact_tiles(env, graph_capture),
{
    env.is("ATLAS_MOE_PREFILL_EXACT_TILES", "1") && !graph_capture
}

/// Load factor that the environment asks for, where it is a positive number.
pub open spec fn load_factor(env: &EnvVars) -> Option<int> {
    match env.value("ATLAS_MOE_PREFILL_MAX_LOAD_FACTOR"@) {
        Some(v) => match decimal(vstd::utf8::encode_utf8(v)) {
            Some(f) => if 0 < f <= usize::MAX {
                Some(f)
            } else {
                None
            },
            None => None,
        },
        None => None,
    }
}

/// Row tiles per expert without a readback.
pub open spec fn bounded_tiles(env: &EnvVars, num_tokens: int, top_k: int, ne: int) -> u32 {
    let worst = worst_case_tiles(num_tokens, top_k);
    match load_factor(env) {
        Some(f) => {
            let rows = min_int(ceil_div(num_tokens * top_k, ne) * f, usize::MAX as int);
            min_int(worst as int, (max_int(ceil_div(rows, 64), 1) as u32) as int) as u32
        },
        None => worst,
    }
}

/// Row tiles per expert from a readback.
pub open spec fn counted_tiles(offsets: Seq<u8>, ne: nat, worst: u32) -> u32 {
    min_int(max_int(ceil_div(most_rows(offsets, ne), 64), 1), worst as int) as u32
}

/// The bytes of a readback, where one was taken.
pub open spec fn readback_of(offsets: Option<&Vec<u8>>) -> Option<Seq<u8>> {
    match offsets {
        Some(o) => Some(o@),
        None => None,
    }
}

impl RoutedCall {
    /// Row tiles per expert of this pass, from the offsets where they were read back.
    pub open spec fn tiles(self, env: &EnvVars, offsets: Option<Seq<u8>>) -> u32 {
        match offsets {
            Some(o) => counted_tiles(
                o,
                self.num_experts as nat,
                worst_case_tiles(self.n as int, self.top_k as int),
            ),
            None => bounded_tiles(env, self.n as int, self.top_k as int, self.num_experts as int),
        }
    }
}

/// Row tiles per expert, from the offsets where they were read back.
pub fn max_m_tiles(
    env: &EnvVars,
    num_tokens: usize,
    top_k: usize,
    ne: usize,
    offsets: Option<&Vec<u8>>,
) -> (r: u32)
    requires
        num_tokens * top_k <= usize::MAX,
        ne > 0,
        offsets matches Some(o) ==> o@.len() == 4 * (ne + 1),
    ensures
        r == (match offsets {
            Some(o) => counted_tiles(
                o@,
                ne as nat,
                worst_case_tiles(num_tokens as int, top_k as int),
            ),
            None => bounded_tiles(env, num_tokens as int, top_k as int, ne as int),
        }),
{
    let routed: usize = num_tokens * top_k;
    let tiles: usize = div_ceil(routed, 64);
    let worst: u32 = (if tiles < 1 {
        1
    } else {
        tiles
    }) as u32;
    match offsets {
        Some(o) => {
            let most: u32 = longest_run(o, ne);
            let t: u32 = div_ceil_u32(most, 64);
            let t: u32 = if t < 1 {
                1
            } else {
                t
            };
            if t < worst {
                t
            } else {
                worst
            }
        },
        None => {
            let factor: Option<usize> = match env.get("ATLAS_MOE_PREFILL_MAX_LOAD_FACTOR") {
                Some(s) => {
                    proof {
                        lemma_decimal_nonneg(vstd::utf8::encode_utf8(s@));
                    }
                    parse_usize(s)
                },
                None => None,
            };
            match factor {
                Some(f) => if f > 0 {
                    let average: usize = div_ceil(routed, ne);
                    let rows: usize = saturating_mul(average, f);
                    let t: usize = div_ceil(rows, 64);
                    let t: u32 = (if t < 1 {
                        1
                    } else {
                        t
                    }) as u32;
                    if t < worst {
                        t
                    } else {
                        worst
                    }
                } else {
                    worst
                },
                None => worst,
            }
        },
    }
}

fn longest_run(offsets: &Vec<u8>, ne: usize) -> (r: u32)
    requires
        offsets@.len() == 4 * (ne + 1),
    ensures
        r == most_rows(offsets@, ne as nat),
{
    let mut best: u32 = 0;
    let mut prev: u32 = 0;
    let mut e: usize = 0;
    assert(offsets.len() == offsets@.len());
    while e < ne
        invariant
            e <= ne,
            offsets@.len() == 4 * (ne + 1),
            offsets.len() == offsets@.len(),
            e == 0 ==> prev == 0,
            e > 0 ==> prev == le_u32(offsets@, 4 * e),
            best == most_rows(offsets@, e as nat),
        decreases ne - e,
    {
        let cur: u32 = read_u32(offsets.as_slice(), 4 * (e + 1));
        let rows: u32 = if cur > prev {
            cur - prev
        } else {
            0
        };
        if rows > best {
            best = rows;
        }
        prev = cur;
        e = e + 1;
    }
    best
}

/// Clears of the three result buffers.
pub open spec fn clear_cmds(ctx: &ForwardContext, c: RoutedCall) -> Seq<Cmd> {
    let wide = (c.rows() * c.inter * 2) as usize;
    seq![
        Cmd::Op(DeviceOp::Memset { dst: ctx.buffers.expert_gate_out, value: 0, bytes: wide }),
        Cmd::Op(DeviceOp::Memset { dst: ctx.buffers.expert_up_out, value: 0, bytes: wide }),
        Cmd::Op(
            DeviceOp::Memset {
                dst: ctx.buffers.expert_down_out,
                value: 0,
                bytes: (c.rows() * c.h * 2) as usize,
            },
        ),
    ]
}

impl MoeLayer {
    /// Result buffers have to start out as zero: ranks do not write the rows of
    /// remote experts.
    pub open spec fn clears(ctx: &ForwardContext, env: &EnvVars) -> bool {
        ctx.comm_world_size is Some || env.says("ATLAS_MOE_PREFILL_ZERO"@, "1"@)
    }

    /// Gate and up run through the re-packed tables.
    pub open spec fn gate_up_is_fp4(&self) -> bool {
        self.fp4_gate_up is Some && self.kernels.moe_permute_tokens.present()
    }

    /// Gate and up products of all experts.
    pub open spec fn gate_up_cmds(
        &self,
        ctx: &ForwardContext,
        c: RoutedCall,
        permuted: DevicePtr,
        tiles: u32,
    ) -> Seq<Cmd> {
        let b = ctx.buffers;
        let k = self.kernels;
        if self.gate_up_is_fp4() {
            seq![
                Cmd::Launch(
                    crate::ops::moe_grouped_a::moe_permute_tokens_launch(
                        k.moe_permute_tokens, c.expert_input, permuted, c.sorted_token_ids, c.h,
                        c.rows() as u32,
                    ),
                ),
                Cmd::Op(
                    DeviceOp::GroupedGateUpFp4 {
                        gate: self.fp4_gate_up->0.gate_t,
                        up: self.fp4_gate_up->0.up_t,
                        rows: permuted,
                        gate_out: b.expert_gate_out,
                        up_out: b.expert_up_out,
                        offsets: c.expert_offsets,
                        num_experts: c.num_experts as usize,
                        inter: c.inter,
                        h: c.h,
                    },
                ),
                Cmd::Op(DeviceOp::Free { ptr: permuted }),
            ]
        } else if self.gate_ptrs_t is Some && self.up_ptrs_t is Some {
            let g = self.gate_ptrs_t->0;
            let u = self.up_ptrs_t->0;
            if self.nvfp4_gate_up_m128 && k.moe_fused_gate_up_t_k64_m128.present() {
                seq![
                    Cmd::Launch(
                        crate::ops::moe_grouped_a::moe_w4a16_fused_gate_up_k64_m128_launch(
                            k.moe_fused_gate_up_t_k64_m128, c.expert_input, g.packed_ptrs,
                            g.scale_ptrs, g.scale2_vals, u.packed_ptrs, u.scale_ptrs, u.scale2_vals,
                            b.expert_gate_out, b.expert_up_out, c.expert_offsets, c.sorted_token_ids,
                            c.num_experts, c.inter, c.h,
                            max_int(ceil_div(tiles as int, 2), 1) as u32,
                        ),
                    ),
                ]
            } else {
                seq![
                    Cmd::Launch(
                        crate::ops::moe_grouped_a::moe_w4a16_fused_gate_up_k64_n128_launch(
                            k.moe_fused_gate_up_t_k64, c.expert_input, g.packed_ptrs, g.scale_ptrs,
                            g.scale2_vals, u.packed_ptrs, u.scale_ptrs, u.scale2_vals,
                            b.expert_gate_out, b.expert_up_out, c.expert_offsets, c.sorted_token_ids,
                            c.num_experts, c.inter, c.h, tiles,
                        ),
                    ),
                ]
            }
        } else {
            seq![
                self.plain_launch(self.gate_ptrs, c.expert_input, b.expert_gate_out, c.sorted_token_ids, c, c.inter, c.h, tiles),
                self.plain_launch(self.up_ptrs, c.expert_input, b.expert_up_out, c.sorted_token_ids, c, c.inter, c.h, tiles),
            ]
        }
    }

    /// A grouped product through tables that were not transposed.
    pub open spec fn plain_launch(
        &self,
        t: ExpertPtrTable,
        a: DevicePtr,
        out: DevicePtr,
        ids: DevicePtr,
        c: RoutedCall,
        n_out: u32,
        k: u32,
        tiles: u32,
    ) -> Cmd {
        Cmd::Launch(
            crate::ops::moe_grouped_a::moe_w4a16_grouped_gemm_ptrtable_launch(
                self.kernels.moe_grouped_gemm, a, t.packed_ptrs, t.scale_ptrs, t.scale2_vals, out,
                c.expert_offsets, ids, c.num_experts, n_out, k, tiles,
            ),
        )
    }

    /// Down runs on eight-bit activations.
    pub open spec fn down_is_fp8(&self, env: &EnvVars) -> bool {
        env.says("ATLAS_MOE_PREFILL_FP8_DOWN"@, "1"@) && self.kernels.moe_fp8_grouped_gemm_t.present()
            && self.kernels.bf16_to_fp8.present()
    }

    /// Activation and down product of all experts. Rows are sorted by now, so
    /// no row map is given.
    pub open spec fn down_cmds(
        &self,
        ctx: &ForwardContext,
        env: &EnvVars,
        c: RoutedCall,
        tiles: u32,
    ) -> Seq<Cmd> {
        let b = ctx.buffers;
        let k = self.kernels;
        let wide = (c.rows() * c.inter) as u32;
        let none = DevicePtr(0);
        let act = Cmd::Op(
            DeviceOp::ActMul {
                kernel: k.moe_act_mul,
                gate: b.expert_gate_out,
                up: b.expert_up_out,
                out: b.expert_gate_out,
                n: wide,
            },
        );
        match self.down_ptrs_t {
            Some(d) => if self.down_is_fp8(env) {
                seq![
                    act,
                    Cmd::Op(
                        DeviceOp::Bf16ToFp8 {
                            kernel: k.bf16_to_fp8,
                            src: b.expert_gate_out,
                            dst: b.expert_up_out,
                            n: wide,
                        },
                    ),
                    Cmd::Launch(
                        crate::ops::moe_grouped_a::moe_fp8_grouped_gemm_ptrtable_n128_launch(
                            k.moe_fp8_grouped_gemm_t, b.expert_up_out, d.packed_ptrs, d.scale_ptrs,
                            d.scale2_vals, b.expert_down_out, c.expert_offsets, none, c.num_experts,
                            c.h, c.inter, tiles,
                        ),
                    ),
                ]
            } else {
                seq![
                    act,
                    Cmd::Launch(
                        crate::ops::moe_grouped_a::moe_w4a16_grouped_gemm_ptrtable_n128_launch(
                            k.moe_grouped_gemm_t_k64, b.expert_gate_out, d.packed_ptrs, d.scale_ptrs,
                            d.scale2_vals, b.expert_down_out, c.expert_offsets, none, c.num_experts,
                            c.h, c.inter, tiles,
                        ),
                    ),
                ]
            },
            None => seq![
                act,
                self.plain_launch(self.down_ptrs, b.expert_gate_out, b.expert_down_out, none, c, c.h, c.inter, tiles),
            ],
        }
    }

    /// The whole pass over the routed experts.
    pub open spec fn routed_cmds(
        &self,
        ctx: &ForwardContext,
        env: &EnvVars,
        c: RoutedCall,
        permuted: DevicePtr,
        tiles: u32,
    ) -> Seq<Cmd> {
        let clears = if Self::clears(ctx, env) {
            clear_cmds(ctx, c)
        } else {
            Seq::empty()
        };
        let work = if tiles > 0 {
            self.gate_up_cmds(ctx, c, permuted, tiles) + self.down_cmds(ctx, env, c, tiles)
        } else {
            Seq::empty()
        };
        clears + work
    }

    /// Bytes of the scratch that the re-packed gate and up products gather into.
    pub fn routed_permute_bytes(&self, c: &RoutedCall) -> (r: Option<usize>)
        requires
            c.fits(),
        ensures
            r == (if self.gate_up_is_fp4() {
                Some((c.rows() * c.h * 2) as usize)
            } else {
                None
            }),
    {
        if self.fp4_gate_up.is_some() && self.kernels.moe_permute_tokens.is_present() {
            let rows: usize = (c.n * c.top_k) as usize;
            proof {
                lemma_product_fits(rows as int, c.h as int, 2);
            }
            Some(rows * c.h as usize * 2)
        } else {
            None
        }
    }

    fn record_clears(cb: &mut CommandBuffer, ctx: &ForwardContext, c: &RoutedCall)
        requires
            c.fits(),
        ensures
            final(cb)@ == old(cb)@ + clear_cmds(ctx, *c),
    {
        let ghost before = cb@;
        let rows: usize = (c.n * c.top_k) as usize;
        proof {
            lemma_product_fits(rows as int, c.h as int, 2);
            lemma_product_fits(rows as int, c.inter as int, 2);
        }
        let wide: usize = rows * c.inter as usize * 2;
        let tall: usize = rows * c.h as usize * 2;
        cb.op(DeviceOp::Memset { dst: ctx.buffers.expert_gate_out, value: 0, bytes: wide });
        cb.op(DeviceOp::Memset { dst: ctx.buffers.expert_up_out, value: 0, bytes: wide });
        cb.op(DeviceOp::Memset { dst: ctx.buffers.expert_down_out, value: 0, bytes: tall });
        assert(cb@ =~= before + clear_cmds(ctx, *c));
    }

    fn record_plain(
        &self,
        cb: &mut CommandBuffer,
        t: ExpertPtrTable,
        a: DevicePtr,
        out: DevicePtr,
        ids: DevicePtr,
        c: &RoutedCall,
        n_out: u32,
        k: u32,
        tiles: u32,
    )
        ensures
            final(cb)@ == old(cb)@.push(self.plain_launch(t, a, out, ids, *c, n_out, k, tiles)),
    {
        moe_w4a16_grouped_gemm_ptrtable(
            cb, self.kernels.moe_grouped_gemm, a, t.packed_ptrs, t.scale_ptrs, t.scale2_vals, out,
            c.expert_offsets, ids, c.num_experts, n_out, k, tiles,
        );
    }

    fn record_gate_up(
        &self,
        cb: &mut CommandBuffer,
        ctx: &ForwardContext,
        c: &RoutedCall,
        permuted: DevicePtr,
        tiles: u32,
    )
        requires
            c.fits(),
        ensures
            final(cb)@ == old(cb)@ + self.gate_up_cmds(ctx, *c, permuted, tiles),
    {
        let ghost before = cb@;
        let b: crate::context::Buffers = ctx.buffers;
        let k: crate::moe::layer::MoeKernels = self.kernels;
        if let Some(t) = &self.fp4_gate_up {
            if k.moe_permute_tokens.is_present() {
                moe_permute_tokens(
                    cb, k.moe_permute_tokens, c.expert_input, permuted, c.sorted_token_ids, c.h,
                    c.n * c.top_k,
                );
                cb.op(
                    DeviceOp::GroupedGateUpFp4 {
                        gate: t.gate_t,
                        up: t.up_t,
                        rows: permuted,
                        gate_out: b.expert_gate_out,
                        up_out: b.expert_up_out,
                        offsets: c.expert_offsets,
                        num_experts: c.num_experts as usize,
                        inter: c.inter,
                        h: c.h,
                    },
                );
                cb.op(DeviceOp::Free { ptr: permuted });
                assert(cb@ =~= before + self.gate_up_cmds(ctx, *c, permuted, tiles));
                return;
            }
        }
        if let Some(g) = self.gate_ptrs_t {
            if let Some(u) = self.up_ptrs_t {
                if self.nvfp4_gate_up_m128 && k.moe_fused_gate_up_t_k64_m128.is_present() {
                    let half: u32 = div_ceil_u32(tiles, 2);
                    let half: u32 = if half < 1 {
                        1
                    } else {
                        half
                    };
                    moe_w4a16_fused_gate_up_k64_m128(
                        cb, k.moe_fused_gate_up_t_k64_m128, c.expert_input, g.packed_ptrs,
                        g.scale_ptrs, g.scale2_vals, u.packed_ptrs, u.scale_ptrs, u.scale2_vals,
                        b.expert_gate_out, b.expert_up_out, c.expert_offsets, c.sorted_token_ids,
                        c.num_experts, c.inter, c.h, half,
                    );
                } else {
                    moe_w4a16_fused_gate_up_k64_n128(
                        cb, k.moe_fused_gate_up_t_k64, c.expert_input, g.packed_ptrs, g.scale_ptrs,
                        g.scale2_vals, u.packed_ptrs, u.scale_ptrs, u.scale2_vals, b.expert_gate_out,
                        b.expert_up_out, c.expert_offsets, c.sorted_token_ids, c.num_experts, c.inter,
                        c.h, tiles,
                    );
                }
                assert(cb@ =~= before + self.gate_up_cmds(ctx, *c, permuted, tiles));
                return;
            }
        }
        self.record_plain(
            cb, self.gate_ptrs, c.expert_input, b.expert_gate_out, c.sorted_token_ids, c, c.inter, c.h,
            tiles,
        );
        self.record_plain(
            cb, self.up_ptrs, c.expert_input, b.expert_up_out, c.sorted_token_ids, c, c.inter, c.h,
            tiles,
        );
        assert(cb@ =~= before + self.gate_up_cmds(ctx, *c, permuted, tiles));
    }

    fn record_down(
        &self,
        cb: &mut CommandBuffer,
        ctx: &ForwardContext,
        env: &EnvVars,
        c: &RoutedCall,
        tiles: u32,
    )
        requires
            c.fits(),
        ensures
            final(cb)@ == old(cb)@ + self.down_cmds(ctx, env, *c, tiles),
    {
        let ghost before = cb@;
        let b: crate::context::Buffers = ctx.buffers;
        let k: crate::moe::layer::MoeKernels = self.kernels;
        let rows: u32 = c.n * c.top_k;
        let wide: u32 = rows * c.inter;
        let none: DevicePtr = DevicePtr::null();
        cb.op(
            DeviceOp::ActMul {
                kernel: k.moe_act_mul,
                gate: b.expert_gate_out,
                up: b.expert_up_out,
                out: b.expert_gate_out,
                n: wide,
            },
        );
        match self.down_ptrs_t {
            Some(d) => {
                if env.is("ATLAS_MOE_PREFILL_FP8_DOWN", "1") && k.moe_fp8_grouped_gemm_t.is_present()
                    && k.bf16_to_fp8.is_present() {
                    cb.op(
                        DeviceOp::Bf16ToFp8 {
                            kernel: k.bf16_to_fp8,
                            src: b.expert_gate_out,
                            dst: b.expert_up_out,
                            n: wide,
                        },
                    );
                    moe_fp8_grouped_gemm_ptrtable_n128(
                        cb, k.moe_fp8_grouped_gemm_t, b.expert_up_out, d.packed_ptrs, d.scale_ptrs,
                        d.scale2_vals, b.expert_down_out, c.expert_offsets, none, c.num_experts, c.h,
                        c.inter, tiles,
                    );
                } else {
                    moe_w4a16_grouped_gemm_ptrtable_n128(
                        cb, k.moe_grouped_gemm_t_k64, b.expert_gate_out, d.packed_ptrs, d.scale_ptrs,
                        d.scale2_vals, b.expert_down_out, c.expert_offsets, none, c.num_experts, c.h,
                        c.inter, tiles,
                    );
                }
            },
            None => {
                self.record_plain(
                    cb, self.down_ptrs, b.expert_gate_out, b.expert_down_out, none, c, c.h, c.inter,
                    tiles,
                );
            },
        }
        assert(cb@ =~= before + self.down_cmds(ctx, env, *c, tiles));
    }

    fn record_routed(
        &self,
        cb: &mut CommandBuffer,
        c: &RoutedCall,
        permuted: DevicePtr,
        tiles: u32,
        ctx: &ForwardContext,
        env: &EnvVars,
    )
        requires
            c.fits(),
        ensures
            final(cb)@ == old(cb)@ + self.routed_cmds(ctx, env, *c, permuted, tiles),
    {
        let ghost before = cb@;
        if ctx.comm_world_size.is_some() || env.is("ATLAS_MOE_PREFILL_ZERO", "1") {
            Self::record_clears(cb, ctx, c);
        }
        if tiles > 0 {
            self.record_gate_up(cb, ctx, c, permuted, tiles);
            self.record_down(cb, ctx, env, c, tiles);
        }
        assert(cb@ =~= before + self.routed_cmds(ctx, env, *c, permuted, tiles));
    }

    /// Records the grouped gate, up and down products of the routed experts.
    /// `offsets` is a readback of the experts' first rows, which is taken exactly
    /// where [`wants_exact_tiles`] says so. `permuted` is scratch of
    /// [`Self::routed_permute_bytes`] bytes; it is released where it was used.
    pub fn run_routed_grouped_gemm(
        &self,
        cb: &mut CommandBuffer,
        c: &RoutedCall,
        permuted: DevicePtr,
        offsets: Option<&Vec<u8>>,
        ctx: &ForwardContext,
        env: &EnvVars,
    )
        requires
            c.fits(),
            c.num_experts > 0,
            offsets is Some <==> exact_tiles(env, ctx.graph_capture),
            offsets matches Some(o) ==> o@.len() == 4 * (c.num_experts + 1),
        ensures
            final(cb)@ == old(cb)@ + self.routed_cmds(
                ctx,
                env,
                *c,
                permuted,
                c.tiles(env, readback_of(offsets)),
            ),
    {
        let tiles: u32 = max_m_tiles(
            env,
            c.n as usize,
            c.top_k as usize,
            c.num_experts as usize,
            offsets,
        );
        self.record_routed(cb, c, permuted, tiles, ctx, env);
    }
}

/// A product of three that fits has factors that fit.
proof fn lemma_product_fits(a: int, b: int, c: int)
    by (nonlinear_arith)
    requires
        0 <= a,
        0 <= b,
        1 <= c,
    ensures
        0 <= a * b <= a * b * c,
{
}

proof fn lemma_most_rows_bounds(offsets: Seq<u8>, n: nat, e: int)
    requires
        0 <= e < n,
    ensures
        rows_of(offsets, e) <= most_rows(offsets, n),
    decreases n,
{
    if e < n - 1 {
        lemma_most_rows_bounds(offsets, (n - 1) as nat, e);
    }
}

/// Tiles counted from the offsets hold every expert's rows, as long as the
/// upper bound does.
pub proof fn law_counted_tiles_hold_every_expert(offsets: Seq<u8>, ne: nat, worst: u32, e: int)
    requires
        0 <= e < ne,
        most_rows(offsets, ne) <= 64 * worst,
    ensures
        rows_of(offsets, e) <= 64 * counted_tiles(offsets, ne, worst),
{
    lemma_most_rows_bounds(offsets, ne, e);
    let most = most_rows(offsets, ne);
    lemma_most_nonneg(offsets, ne);
    crate::num::lemma_ceil_div_covers(most, 64);
}

proof fn lemma_most_nonneg(offsets: Seq<u8>, n: nat)
    ensures
        most_rows(offsets, n) >= 0,
    decreases n,
{
    if n > 0 {
        lemma_most_nonneg(offsets, (n - 1) as nat);
    }
}

/// Without a readback or a cap nothing is cut off: the tiles hold even all
/// routed rows at a single expert.
pub proof fn law_default_tiles_never_truncate(num_tokens: int, top_k: int, rows: int)
    requires
        0 <= rows <= num_tokens * top_k,
        ceil_div(num_tokens * top_k, 64) <= u32::MAX,
    ensures
        rows <= 64 * worst_case_tiles(num_tokens, top_k),
        worst_case_tiles(num_tokens, top_k) >= 1,
{
    crate::num::lemma_ceil_div_covers(num_tokens * top_k, 64);
}

impl RoutedCall {
    /// No two of the buffers that a pass reads and writes are the same, and rows have a
    /// row map.
    pub open spec fn apart(self, ctx: &ForwardContext, permuted: DevicePtr) -> bool {
        let b = ctx.buffers;
        let here = seq![
            b.expert_gate_out,
            b.expert_up_out,
            b.expert_down_out,
            self.expert_input,
            self.expert_offsets,
            self.sorted_token_ids,
            permuted,
        ];
        &&& here.no_duplicates()
        &&& self.sorted_token_ids.0 != 0
    }

    /// Clearing the result buffers spares what a pass reads.
    pub open spec fn clears_apart(self, ctx: &ForwardContext) -> bool {
        &&& self.outside_results(ctx, self.expert_input)
        &&& self.outside_results(ctx, self.expert_offsets)
        &&& self.outside_results(ctx, self.sorted_token_ids)
    }

    /// `p` lies in none of the three result buffers.
    pub open spec fn outside_results(self, ctx: &ForwardContext, p: DevicePtr) -> bool {
        let b = ctx.buffers;
        &&& outside(p, b.expert_gate_out, self.rows() * self.inter * 2)
        &&& outside(p, b.expert_up_out, self.rows() * self.inter * 2)
        &&& outside(p, b.expert_down_out, self.rows() * self.h * 2)
    }

    /// `p` holds the rows of this pass in sorted order, all that `tiles` row tiles take.
    pub open spec fn sorted_rows(self, m: Memory, p: Held, tiles: u32) -> bool {
        p matches Held::Gathered { rows, map, width, count } && {
            &&& *rows == m.held(self.expert_input)
            &&& *map == m.held(self.sorted_token_ids)
            &&& width == self.h
            &&& count >= self.rows() || count >= 64 * tiles * self.num_experts
        }
    }

    /// `p` holds the product of `rows` with the weights that `table` lists, expert by
    /// expert in this pass, `n` values from `k`, and reaches all of `tiles` row tiles.
    pub open spec fn product_of(
        self,
        m: Memory,
        p: Held,
        rows: Held,
        table: ExpertPtrTable,
        n: u32,
        k: u32,
        tiles: u32,
    ) -> bool {
        p matches Held::Grouped(g) && {
            &&& *g.rows == rows
            &&& g.table == table
            &&& *g.offsets == m.held(self.expert_offsets)
            &&& g.experts == self.num_experts
            &&& g.n == n
            &&& g.k == k
            &&& g.reach >= 64 * tiles
        }
    }

    /// `p` holds the product of this pass's sorted rows with the weights of `table`.
    pub open spec fn sorted_product(self, m: Memory, p: Held, table: ExpertPtrTable, tiles: u32) -> bool {
        p matches Held::Grouped(g) && self.sorted_rows(m, *g.rows, tiles) && self.product_of(
            m,
            p,
            *g.rows,
            table,
            self.inter,
            self.h,
            tiles,
        )
    }
}

impl MoeLayer {
    /// Weights of gate and up: re-packed ones first, then transposed ones.
    pub open spec fn gate_up_weights(&self) -> (ExpertPtrTable, ExpertPtrTable) {
        if self.fp4_gate_up is Some && self.kernels.moe_permute_tokens.present() {
            (self.fp4_gate_up->0.gate_t, self.fp4_gate_up->0.up_t)
        } else if self.gate_ptrs_t is Some && self.up_ptrs_t is Some {
            (self.gate_ptrs_t->0, self.up_ptrs_t->0)
        } else {
            (self.gate_ptrs, self.up_ptrs)
        }
    }

    /// Weights of down: transposed ones first.
    pub open spec fn down_weights(&self) -> ExpertPtrTable {
        match self.down_ptrs_t {
            Some(t) => t,
            None => self.down_ptrs,
        }
    }

    /// The fused gating and up product runs on a kernel for how its weights are stored, and on
    /// an optional kernel only where the build has it.
    pub open spec fn gate_up_kernel(&self, g: Grouped) -> bool {
        let k = self.kernels;
        if self.fp4_gate_up is Some && k.moe_permute_tokens.present() {
            g.kernel is None
        } else if self.gate_ptrs_t is Some && self.up_ptrs_t is Some {
            g.kernel == Some(k.moe_fused_gate_up_t_k64) || (g.kernel == Some(
                k.moe_fused_gate_up_t_k64_m128,
            ) && k.moe_fused_gate_up_t_k64_m128.present())
        } else {
            g.kernel == Some(k.moe_grouped_gemm)
        }
    }

    /// The same of the down product, and eight-bit rows go to the kernel for them.
    pub open spec fn down_kernel(&self, g: Grouped) -> bool {
        let k = self.kernels;
        if self.down_ptrs_t is None {
            g.kernel == Some(k.moe_grouped_gemm) && !(*g.rows is Narrow)
        } else if *g.rows is Narrow {
            g.kernel == Some(k.moe_fp8_grouped_gemm_t) && k.moe_fp8_grouped_gemm_t.present()
        } else {
            g.kernel == Some(k.moe_grouped_gemm_t_k64)
        }
    }
}

/// Values that a product reads, where they may have been stored in eight bits.
pub open spec fn unpacked(rows: Held, count: int) -> Held {
    match rows {
        Held::Narrow { of, count: narrowed } => if narrowed == count {
            *of
        } else {
            Held::Spent
        },
        other => other,
    }
}

#[verifier::rlimit(50)]
proof fn lemma_gate_up_products(
    layer: &MoeLayer,
    ctx: &ForwardContext,
    c: RoutedCall,
    permuted: DevicePtr,
    tiles: u32,
    places: Places,
    m: Memory,
)
    requires
        tiles > 0,
        c.fits(),
        c.apart(ctx, permuted),
    ensures
        ({
            let b = ctx.buffers;
            let (gate_w, up_w) = layer.gate_up_weights();
            &&& run(places, m, layer.gate_up_cmds(ctx, c, permuted, tiles)) matches Some(v)
            &&& c.sorted_product(m, v.held(b.expert_gate_out), gate_w, tiles)
            &&& c.sorted_product(m, v.held(b.expert_up_out), up_w, tiles)
            &&& v.held(b.expert_gate_out)->Grouped_0.onto == Box::new(m.held(b.expert_gate_out))
            &&& v.held(b.expert_up_out)->Grouped_0.onto == Box::new(m.held(b.expert_up_out))
            &&& layer.gate_up_kernel(v.held(b.expert_gate_out)->Grouped_0)
            &&& layer.gate_up_kernel(v.held(b.expert_up_out)->Grouped_0)
            &&& v.held(b.expert_down_out) == m.held(b.expert_down_out)
            &&& v.held(c.expert_offsets) == m.held(c.expert_offsets)
        }),
{
    reveal(after_op);
    lemma_apart(ctx, c, permuted);
    let b = ctx.buffers;
    assert(forall|r: int| r >= 64 * tiles ==> #[trigger] (r * c.num_experts) >= 64 * tiles
        * c.num_experts) by (nonlinear_arith);
    let cmds = layer.gate_up_cmds(ctx, c, permuted, tiles);
    let (gate_w, up_w) = layer.gate_up_weights();
    let (x, ids, off) = (c.expert_input, c.sorted_token_ids, c.expert_offsets);
    if layer.gate_up_is_fp4() {
        lemma_run_three(places, m, cmds[0], cmds[1], cmds[2]);
        assert(cmds =~= seq![cmds[0], cmds[1], cmds[2]]);
        lemma_gather_launch(m, cmds[0]->Launch_0, x, permuted, ids, c.h, c.rows() as u32);
    } else if layer.gate_ptrs_t is Some && layer.up_ptrs_t is Some {
        lemma_run_one(places, m, cmds[0]);
        assert(cmds =~= seq![cmds[0]]);
        crate::num::lemma_ceil_div_covers(tiles as int, 2);
        lemma_dual_launch(
            m, cmds[0]->Launch_0, x, gate_w, up_w, b.expert_gate_out, b.expert_up_out, off, ids,
            c.num_experts, c.inter, c.h,
        );
    } else {
        lemma_run_two(places, m, cmds[0], cmds[1]);
        assert(cmds =~= seq![cmds[0], cmds[1]]);
        lemma_grouped_launch(
            m, cmds[0]->Launch_0, x, gate_w, b.expert_gate_out, off, ids, c.num_experts, c.inter, c.h,
        );
        let m1 = after(places, m, cmds[0])->0;
        lemma_grouped_launch(
            m1, cmds[1]->Launch_0, x, up_w, b.expert_up_out, off, ids, c.num_experts, c.inter, c.h,
        );
    }
}

#[verifier::rlimit(50)]
proof fn lemma_down_product(
    layer: &MoeLayer,
    ctx: &ForwardContext,
    env: &EnvVars,
    c: RoutedCall,
    permuted: DevicePtr,
    tiles: u32,
    places: Places,
    m: Memory,
)
    requires
        tiles > 0,
        c.fits(),
        c.apart(ctx, permuted),
        !places.by_value,
    ensures
        ({
            let b = ctx.buffers;
            let act = Held::Gated {
                gate: Box::new(m.held(b.expert_gate_out)),
                up: Box::new(m.held(b.expert_up_out)),
                kernel: layer.kernels.moe_act_mul,
                limit: Scalar(0),
                count: c.rows() * c.inter,
            };
            &&& run(places, m, layer.down_cmds(ctx, env, c, tiles)) matches Some(v)
            &&& v.held(b.expert_down_out) matches Held::Grouped(d)
            &&& c.product_of(m, Held::Grouped(d), *d.rows, layer.down_weights(), c.h, c.inter, tiles)
            &&& layer.down_kernel(d)
            &&& unpacked(*d.rows, c.rows() * c.inter) == act
            &&& *d.onto == m.held(b.expert_down_out)
        }),
{
    reveal(after_op);
    lemma_apart(ctx, c, permuted);
    let b = ctx.buffers;
    let cmds = layer.down_cmds(ctx, env, c, tiles);
    let (t, off, none) = (layer.down_weights(), c.expert_offsets, DevicePtr(0));
    lemma_product_fits(c.rows(), c.inter as int, 1);
    let m1 = after(places, m, cmds[0])->0;
    if layer.down_ptrs_t is Some && layer.down_is_fp8(env) {
        lemma_run_three(places, m, cmds[0], cmds[1], cmds[2]);
        assert(cmds =~= seq![cmds[0], cmds[1], cmds[2]]);
        let m2 = after(places, m1, cmds[1])->0;
        lemma_grouped_launch(
            m2, cmds[2]->Launch_0, b.expert_up_out, t, b.expert_down_out, off, none, c.num_experts,
            c.h, c.inter,
        );
    } else {
        lemma_run_two(places, m, cmds[0], cmds[1]);
        assert(cmds =~= seq![cmds[0], cmds[1]]);
        lemma_grouped_launch(
            m1, cmds[1]->Launch_0, b.expert_gate_out, t, b.expert_down_out, off, none, c.num_experts,
            c.h, c.inter,
        );
    }
}

proof fn lemma_apart(ctx: &ForwardContext, c: RoutedCall, permuted: DevicePtr)
    requires
        c.apart(ctx, permuted),
    ensures
        ({
            let b = ctx.buffers;
            let (g, u, d) = (b.expert_gate_out.0, b.expert_up_out.0, b.expert_down_out.0);
            let (x, o, s, p) = (
                c.expert_input.0,
                c.expert_offsets.0,
                c.sorted_token_ids.0,
                permuted.0,
            );
            &&& g != u && g != d && g != x && g != o && g != s && g != p
            &&& u != d && u != x && u != o && u != s && u != p
            &&& d != x && d != o && d != s && d != p
            &&& x != p && o != p && s != p
        }),
{
    let b = ctx.buffers;
    let here = seq![
        b.expert_gate_out,
        b.expert_up_out,
        b.expert_down_out,
        c.expert_input,
        c.expert_offsets,
        c.sorted_token_ids,
        permuted,
    ];
    assert(here[0] != here[1] && here[0] != here[2] && here[0] != here[3] && here[0] != here[4]
        && here[0] != here[5] && here[0] != here[6]);
    assert(here[1] != here[2] && here[1] != here[3] && here[1] != here[4] && here[1] != here[5]
        && here[1] != here[6]);
    assert(here[2] != here[3] && here[2] != here[4] && here[2] != here[5] && here[2] != here[6]);
    assert(here[3] != here[6] && here[4] != here[6] && here[5] != here[6]);
}

/// A pass with rows leaves `down(act(gate(x)) * up(x))` of every expert, where `x` are
/// the rows in sorted order: the down product reads what the activation wrote, as it is
/// or in eight bits, and the activation reads the gating and the up product of the same
/// rows. Rows that no product writes are zero where they have to be.
#[verifier::rlimit(50)]
pub proof fn law_experts_apply_gated_products(
    layer: &MoeLayer,
    ctx: &ForwardContext,
    env: &EnvVars,
    c: RoutedCall,
    permuted: DevicePtr,
    tiles: u32,
    places: Places,
    m: Memory,
)
    requires
        tiles > 0,
        c.fits(),
        c.rows() * c.inter > 0,
        c.rows() * c.h > 0,
        c.apart(ctx, permuted),
        c.clears_apart(ctx),
        !places.by_value,
    ensures
        ({
            let b = ctx.buffers;
            let (gate_w, up_w) = layer.gate_up_weights();
            &&& run(places, m, layer.routed_cmds(ctx, env, c, permuted, tiles)) matches Some(v)
            &&& v.held(b.expert_down_out) matches Held::Grouped(d)
            &&& c.product_of(m, Held::Grouped(d), *d.rows, layer.down_weights(), c.h, c.inter, tiles)
            &&& layer.down_kernel(d)
            &&& unpacked(*d.rows, c.rows() * c.inter) matches Held::Gated { gate, up, kernel, limit, count }
            &&& c.sorted_product(m, *gate, gate_w, tiles)
            &&& c.sorted_product(m, *up, up_w, tiles)
            &&& layer.gate_up_kernel((*gate)->Grouped_0)
            &&& layer.gate_up_kernel((*up)->Grouped_0)
            &&& kernel == layer.kernels.moe_act_mul
            &&& limit == Scalar(0)
            &&& count == c.rows() * c.inter
            &&& MoeLayer::clears(ctx, env) ==> *d.onto == Held::Filled(0) && *(*gate)->Grouped_0.onto
                == Held::Filled(0) && *(*up)->Grouped_0.onto == Held::Filled(0)
        }),
{
    reveal(after_op);
    lemma_apart(ctx, c, permuted);
    let b = ctx.buffers;
    let clears = if MoeLayer::clears(ctx, env) {
        clear_cmds(ctx, c)
    } else {
        Seq::empty()
    };
    let gate_up = layer.gate_up_cmds(ctx, c, permuted, tiles);
    let down = layer.down_cmds(ctx, env, c, tiles);
    lemma_product_fits(c.rows(), c.inter as int, 2);
    lemma_product_fits(c.rows(), c.h as int, 2);
    lemma_run_add(places, m, clears, gate_up + down);
    if MoeLayer::clears(ctx, env) {
        lemma_run_three(places, m, clears[0], clears[1], clears[2]);
        assert(clears =~= seq![clears[0], clears[1], clears[2]]);
    }
    assert(run(places, m, clears) is Some);
    let m1 = run(places, m, clears)->0;
    assert(m1.held(c.expert_input) == m.held(c.expert_input));
    assert(m1.held(c.expert_offsets) == m.held(c.expert_offsets));
    assert(m1.held(c.sorted_token_ids) == m.held(c.sorted_token_ids));
    assert(MoeLayer::clears(ctx, env) ==> m1.held(b.expert_gate_out) == Held::Filled(0) && m1.held(
        b.expert_up_out,
    ) == Held::Filled(0) && m1.held(b.expert_down_out) == Held::Filled(0));
    lemma_run_add(places, m1, gate_up, down);
    lemma_gate_up_products(layer, ctx, c, permuted, tiles, places, m1);
    let m2 = run(places, m1, gate_up)->0;
    lemma_down_product(layer, ctx, env, c, permuted, tiles, places, m2);
}

/// Where ranks leave rows of remote experts unwritten, all bytes of the three result
/// buffers are cleared before anything else runs.
pub proof fn law_unwritten_rows_are_zero(
    layer: &MoeLayer,
    ctx: &ForwardContext,
    env: &EnvVars,
    c: RoutedCall,
    permuted: DevicePtr,
    tiles: u32,
    places: Places,
    m: Memory,
    a: int,
)
    requires
        c.fits(),
        MoeLayer::clears(ctx, env),
        !outside(DevicePtr(a as u64), ctx.buffers.expert_gate_out, c.rows() * c.inter * 2)
            || !outside(DevicePtr(a as u64), ctx.buffers.expert_up_out, c.rows() * c.inter * 2)
            || !outside(DevicePtr(a as u64), ctx.buffers.expert_down_out, c.rows() * c.h * 2),
        0 <= a <= u64::MAX,
    ensures
        layer.routed_cmds(ctx, env, c, permuted, tiles).len() >= 3,
        run(places, m, layer.routed_cmds(ctx, env, c, permuted, tiles).take(3)) matches Some(v)
            && (v.at)(a) == Held::Filled(0),
{
    reveal(after_op);
    let all = layer.routed_cmds(ctx, env, c, permuted, tiles);
    let clears = clear_cmds(ctx, c);
    lemma_run_three(places, m, clears[0], clears[1], clears[2]);
    assert(all.take(3) =~= seq![clears[0], clears[1], clears[2]]);
}

} // verus!
