//! Routed experts from packed trellis codes in three grouped products.
//!
//! Every row is copied once per expert that it is routed to. Gate and up run on
//! these slots, and the down product folds a row's slots into one weighted sum.
//! Slots of experts that another rank holds have the index -1 and count as zero.
use crate::catalog::{KernelCatalog, KernelMissing};
use crate::device::{Cmd, CommandBuffer, DevicePtr, Dim3, KernelArg, KernelHandle, KernelLaunch, Launch, Scalar};
use crate::num::{ceil_div, div_ceil_u32};
use crate::ops_table::{DeviceOp, Exl3MgemmArgs};
use vstd::prelude::*;

verus! {

/// Kernels around the grouped products.
#[derive(Debug, Clone, Copy, PartialEq, Eq, Structural)]
pub struct Exl3MoeKernels {
    pub stage_routing: KernelHandle,
    pub replicate_a: KernelHandle,
    pub silu_mul: KernelHandle,
}

impl Exl3MoeKernels {
    /// The kernels of a build; all of them are needed, and the first that is missing is
    /// named.
    pub fn resolve(catalog: &KernelCatalog) -> (r: Result<Exl3MoeKernels, KernelMissing>)
        ensures
            match (
                catalog.find("exl3_matmul"@, "exl3_moe_stage_routing"@),
                catalog.find("exl3_matmul"@, "exl3_moe_replicate_a_bf16"@),
                catalog.find("exl3_matmul"@, "exl3_silu_mul_f16"@),
            ) {
                (Some(stage_routing), Some(replicate_a), Some(silu_mul)) => r == Ok::<
                    Exl3MoeKernels,
                    KernelMissing,
                >(Exl3MoeKernels { stage_routing, replicate_a, silu_mul }),
                (None, _, _) => r matches Err(e) && e.names(
                    "exl3_matmul"@,
                    "exl3_moe_stage_routing"@,
                ),
                (_, None, _) => r matches Err(e) && e.names(
                    "exl3_matmul"@,
                    "exl3_moe_replicate_a_bf16"@,
                ),
                _ => r matches Err(e) && e.names("exl3_matmul"@, "exl3_silu_mul_f16"@),
            },
    {
        let stage_routing: KernelHandle = match catalog.kernel("exl3_matmul", "exl3_moe_stage_routing") {
            Ok(k) => k,
            Err(e) => {
                return Err(e);
            },
        };
        let replicate_a: KernelHandle = match catalog.kernel(
            "exl3_matmul",
            "exl3_moe_replicate_a_bf16",
        ) {
            Ok(k) => k,
            Err(e) => {
                return Err(e);
            },
        };
        match catalog.kernel("exl3_matmul", "exl3_silu_mul_f16") {
            Ok(silu_mul) => Ok(Exl3MoeKernels { stage_routing, replicate_a, silu_mul }),
            Err(e) => Err(e),
        }
    }
}

/// One projection's tables over the experts of this rank.
#[derive(Debug, Clone, Copy, PartialEq, Eq, Structural)]
pub struct Exl3MoeProj {
    pub trellis_ptrs: DevicePtr,
    pub suh_ptrs: DevicePtr,
    pub svh_ptrs: DevicePtr,
    pub k_bits: u32,
    pub cb: u32,
}

/// Slabs of the pipeline for `s_cap` slots.
#[derive(Debug, Clone, Copy, PartialEq, Eq, Structural)]
pub struct Exl3MoeScratch {
    pub a_f16: DevicePtr,
    /// Rotated input; never the same memory as `a_f16`.
    pub a_had_f16: DevicePtr,
    pub a_had_capacity_elems: usize,
    pub c_gate_f16: DevicePtr,
    pub c_up_f16: DevicePtr,
    pub inter_f16: DevicePtr,
    pub c_down_f32: DevicePtr,
    pub b_indices: DevicePtr,
    pub b_weights: DevicePtr,
    pub s_cap: usize,
}

/// Why the pipeline did not run.
#[derive(Debug, Clone, Copy, PartialEq, Eq, Structural)]
pub enum Exl3DecodeError {
    /// No slot, or more slots than the slabs hold.
    Slots { slots: usize, s_cap: usize },
    /// A dimension is not a multiple of 128.
    Alignment { hidden: usize, inter: usize },
    /// Values come in pairs.
    OddCount { numel: usize },
}

/// Blocks of 256 threads for `n` items, at least one and at most 4096.
pub open spec fn clamped_grid(n: u32) -> u32 {
    let g = ceil_div(n as int, 256);
    (if g < 1 {
        1
    } else if g > 4096 {
        4096
    } else {
        g
    }) as u32
}

fn clamp_grid(n: u32) -> (r: u32)
    ensures
        r == clamped_grid(n),
{
    let g: u32 = div_ceil_u32(n, 256);
    if g < 1 {
        1
    } else if g > 4096 {
        4096
    } else {
        g
    }
}

/// Turns global expert ids and probabilities into local indices and weights.
pub open spec fn exl3_moe_stage_routing_launch(
    kernel: KernelHandle, indices_u32: DevicePtr, probs_f32: DevicePtr, b_indices: DevicePtr,
    b_weights: DevicePtr, local_start: usize, num_local: usize, s: usize,
) -> Launch {
    Launch {
        kernel,
        grid: Dim3 { x: clamped_grid(s as u32), y: 1, z: 1 },
        block: Dim3 { x: 256, y: 1, z: 1 },
        shared_mem: 0,
        args: seq![
            KernelArg::Ptr(indices_u32), KernelArg::Ptr(probs_f32), KernelArg::Ptr(b_indices),
            KernelArg::Ptr(b_weights), KernelArg::I32(local_start as i32),
            KernelArg::I32(num_local as i32), KernelArg::U64(s as u64),
        ],
    }
}

/// Records the launch that [`exl3_moe_stage_routing_launch`] describes.
pub fn exl3_moe_stage_routing(
    cb: &mut CommandBuffer,
    kernel: KernelHandle, indices_u32: DevicePtr, probs_f32: DevicePtr, b_indices: DevicePtr,
    b_weights: DevicePtr, local_start: usize, num_local: usize, s: usize,
)
    ensures
        final(cb)@ == old(cb)@.push(
            Cmd::Launch(
                exl3_moe_stage_routing_launch(
                    kernel, indices_u32, probs_f32, b_indices, b_weights, local_start, num_local, s,
                ),
            ),
        ),
{
    let launch = KernelLaunch {
        kernel,
        grid: Dim3 { x: clamp_grid(s as u32), y: 1, z: 1 },
        block: Dim3 { x: 256, y: 1, z: 1 },
        shared_mem: 0,
        args: vec![
            KernelArg::Ptr(indices_u32), KernelArg::Ptr(probs_f32), KernelArg::Ptr(b_indices),
            KernelArg::Ptr(b_weights), KernelArg::I32(local_start as i32),
            KernelArg::I32(num_local as i32), KernelArg::U64(s as u64),
        ],
    };
    assert(launch@ =~= exl3_moe_stage_routing_launch(
        kernel, indices_u32, probs_f32, b_indices, b_weights, local_start, num_local, s,
    ));
    cb.launch(launch);
}

/// Copies every row to the `top_k` slots that it is routed to.
pub open spec fn exl3_moe_replicate_a_bf16_launch(
    kernel: KernelHandle, input_bf16: DevicePtr, out_f16: DevicePtr, num_tokens: usize, top_k: usize,
    hidden: usize,
) -> Launch {
    let total = (num_tokens * top_k * hidden) as usize;
    Launch {
        kernel,
        grid: Dim3 { x: clamped_grid(total as u32), y: 1, z: 1 },
        block: Dim3 { x: 256, y: 1, z: 1 },
        shared_mem: 0,
        args: seq![
            KernelArg::Ptr(input_bf16), KernelArg::Ptr(out_f16), KernelArg::I32(top_k as i32),
            KernelArg::U64(hidden as u64), KernelArg::U64(total as u64),
        ],
    }
}

/// Records the launch that [`exl3_moe_replicate_a_bf16_launch`] describes.
pub fn exl3_moe_replicate_a_bf16(
    cb: &mut CommandBuffer,
    kernel: KernelHandle, input_bf16: DevicePtr, out_f16: DevicePtr, num_tokens: usize, top_k: usize,
    hidden: usize,
)
    requires
        num_tokens * top_k <= usize::MAX,
        num_tokens * top_k * hidden <= usize::MAX,
    ensures
        final(cb)@ == old(cb)@.push(
            Cmd::Launch(
                exl3_moe_replicate_a_bf16_launch(
                    kernel, input_bf16, out_f16, num_tokens, top_k, hidden,
                ),
            ),
        ),
{
    let total: usize = num_tokens * top_k * hidden;
    let launch = KernelLaunch {
        kernel,
        grid: Dim3 { x: clamp_grid(total as u32), y: 1, z: 1 },
        block: Dim3 { x: 256, y: 1, z: 1 },
        shared_mem: 0,
        args: vec![
            KernelArg::Ptr(input_bf16), KernelArg::Ptr(out_f16), KernelArg::I32(top_k as i32),
            KernelArg::U64(hidden as u64), KernelArg::U64(total as u64),
        ],
    };
    assert(launch@ =~= exl3_moe_replicate_a_bf16_launch(
        kernel, input_bf16, out_f16, num_tokens, top_k, hidden,
    ));
    cb.launch(launch);
}

/// `out = silu(gate) * up` over pairs of values, clamped where `act_limit` is not zero.
pub open spec fn exl3_silu_mul_f16_launch(
    kernel: KernelHandle, gate: DevicePtr, up: DevicePtr, out: DevicePtr, act_limit: Scalar,
    numel: usize,
) -> Launch {
    let n2 = numel / 2;
    Launch {
        kernel,
        grid: Dim3 { x: clamped_grid(n2 as u32), y: 1, z: 1 },
        block: Dim3 { x: 256, y: 1, z: 1 },
        shared_mem: 0,
        args: seq![
            KernelArg::Ptr(gate), KernelArg::Ptr(up), KernelArg::Ptr(out),
            KernelArg::Scalar(act_limit), KernelArg::U64(n2 as u64),
        ],
    }
}

/// Records the launch that [`exl3_silu_mul_f16_launch`] describes, for an even count.
pub fn exl3_silu_mul_f16(
    cb: &mut CommandBuffer,
    kernel: KernelHandle, gate: DevicePtr, up: DevicePtr, out: DevicePtr, act_limit: Scalar,
    numel: usize,
) -> (r: Result<(), Exl3DecodeError>)
    ensures
        numel % 2 == 0 ==> r is Ok && final(cb)@ == old(cb)@.push(
            Cmd::Launch(exl3_silu_mul_f16_launch(kernel, gate, up, out, act_limit, numel)),
        ),
        numel % 2 != 0 ==> r == Err::<(), Exl3DecodeError>(Exl3DecodeError::OddCount { numel })
            && final(cb)@ == old(cb)@,
{
    if numel % 2 != 0 {
        return Err(Exl3DecodeError::OddCount { numel });
    }
    let n2: usize = numel / 2;
    let launch = KernelLaunch {
        kernel,
        grid: Dim3 { x: clamp_grid(n2 as u32), y: 1, z: 1 },
        block: Dim3 { x: 256, y: 1, z: 1 },
        shared_mem: 0,
        args: vec![
            KernelArg::Ptr(gate), KernelArg::Ptr(up), KernelArg::Ptr(out),
            KernelArg::Scalar(act_limit), KernelArg::U64(n2 as u64),
        ],
    };
    assert(launch@ =~= exl3_silu_mul_f16_launch(kernel, gate, up, out, act_limit, numel));
    cb.launch(launch);
    Ok(())
}

/// Everything that one pass of the pipeline reads.
#[derive(Debug, Clone, Copy, PartialEq, Eq, Structural)]
pub struct Exl3Pass {
    pub input_bf16: DevicePtr,
    pub indices_u32: DevicePtr,
    pub probs_f32: DevicePtr,
    pub out_bf16: DevicePtr,
    pub gate: Exl3MoeProj,
    pub up: Exl3MoeProj,
    pub down: Exl3MoeProj,
    pub scratch: Exl3MoeScratch,
    pub locks: DevicePtr,
    pub num_tokens: usize,
    pub top_k: usize,
    pub hidden: usize,
    pub inter: usize,
    pub local_start: usize,
    pub num_local: usize,
    pub act_limit: Scalar,
    /// Keeps the launch geometry of a single row.
    pub stable_token_grid: bool,
    pub sm_count: u32,
}

impl Exl3Pass {
    pub open spec fn slots(self) -> int {
        self.num_tokens * self.top_k
    }

    pub open spec fn fits(self) -> bool {
        &&& self.slots() <= usize::MAX
        &&& self.slots() * self.hidden <= usize::MAX
        &&& self.slots() * self.inter <= usize::MAX
        &&& self.num_tokens * self.hidden <= usize::MAX
    }

    /// What keeps the pass from running, if anything.
    pub open spec fn refusal(self) -> Option<Exl3DecodeError> {
        if self.num_tokens < 1 || self.top_k < 1 || self.slots() > self.scratch.s_cap {
            Some(Exl3DecodeError::Slots { slots: self.slots() as usize, s_cap: self.scratch.s_cap })
        } else if self.hidden % 128 != 0 || self.inter % 128 != 0 {
            Some(Exl3DecodeError::Alignment { hidden: self.hidden, inter: self.inter })
        } else {
            None
        }
    }

    /// What keeps the pass from running, if anything.
    pub fn check(&self) -> (r: Option<Exl3DecodeError>)
        requires
            self.slots() <= usize::MAX,
        ensures
            r == self.refusal(),
    {
        let s: usize = self.num_tokens * self.top_k;
        if self.num_tokens < 1 || self.top_k < 1 || s > self.scratch.s_cap {
            return Some(Exl3DecodeError::Slots { slots: s, s_cap: self.scratch.s_cap });
        }
        if self.hidden % 128 != 0 || self.inter % 128 != 0 {
            return Some(
                Exl3DecodeError::Alignment { hidden: self.hidden, inter: self.inter },
            );
        }
        None
    }

    /// Launch geometry that the products keep.
    pub open spec fn replay_group(self) -> Option<usize> {
        if self.stable_token_grid {
            Some(self.top_k)
        } else {
            None
        }
    }

    /// Operands of a gate or up product. Slots stay apart: no weights.
    pub open spec fn wide_product(self, t: Exl3MoeProj, c: DevicePtr) -> Exl3MgemmArgs {
        Exl3MgemmArgs {
            a: self.scratch.a_f16,
            trellis_ptrs: t.trellis_ptrs,
            c,
            m: 1,
            k: self.hidden,
            n: self.inter,
            k_bits: t.k_bits,
            codebook: t.cb,
            c_is_f32: false,
            locks: self.locks,
            suh_ptrs: t.suh_ptrs,
            a_had: self.scratch.a_had_f16,
            a_had_capacity: self.scratch.a_had_capacity_elems,
            svh_ptrs: t.svh_ptrs,
            b_indices: Some(self.scratch.b_indices),
            b_weights: None,
            slots_in: self.slots() as usize,
            slots_out: self.slots() as usize,
            min_index: -1i32,
            max_index: -1i32,
            num_tokens: 1,
            replay_group: self.replay_group(),
            sm_count: self.sm_count,
        }
    }

    /// Operands of the down product. Weights fold each row's slots.
    pub open spec fn down_product(self) -> Exl3MgemmArgs {
        Exl3MgemmArgs {
            a: self.scratch.inter_f16,
            c: self.scratch.c_down_f32,
            k: self.inter,
            n: self.hidden,
            c_is_f32: true,
            b_weights: Some(self.scratch.b_weights),
            num_tokens: self.num_tokens,
            ..self.wide_product(self.down, self.scratch.c_down_f32)
        }
    }

    fn wide_args(&self, t: Exl3MoeProj, c: DevicePtr, slots: usize) -> (r: Exl3MgemmArgs)
        requires
            slots == self.slots(),
        ensures
            r == self.wide_product(t, c),
    {
        Exl3MgemmArgs {
            a: self.scratch.a_f16,
            trellis_ptrs: t.trellis_ptrs,
            c,
            m: 1,
            k: self.hidden,
            n: self.inter,
            k_bits: t.k_bits,
            codebook: t.cb,
            c_is_f32: false,
            locks: self.locks,
            suh_ptrs: t.suh_ptrs,
            a_had: self.scratch.a_had_f16,
            a_had_capacity: self.scratch.a_had_capacity_elems,
            svh_ptrs: t.svh_ptrs,
            b_indices: Some(self.scratch.b_indices),
            b_weights: None,
            slots_in: slots,
            slots_out: slots,
            min_index: -1,
            max_index: -1,
            num_tokens: 1,
            replay_group: if self.stable_token_grid {
                Some(self.top_k)
            } else {
                None
            },
            sm_count: self.sm_count,
        }
    }

    fn down_args(&self, slots: usize) -> (r: Exl3MgemmArgs)
        requires
            slots == self.slots(),
        ensures
            r == self.down_product(),
    {
        let mut r: Exl3MgemmArgs = self.wide_args(self.down, self.scratch.c_down_f32, slots);
        r.a = self.scratch.inter_f16;
        r.k = self.inter;
        r.n = self.hidden;
        r.c_is_f32 = true;
        r.b_weights = Some(self.scratch.b_weights);
        r.num_tokens = self.num_tokens;
        r
    }

    /// The whole pipeline.
    pub open spec fn cmds(self, k: Exl3MoeKernels) -> Seq<Cmd> {
        let s = self.scratch;
        seq![
            Cmd::Launch(
                exl3_moe_stage_routing_launch(
                    k.stage_routing, self.indices_u32, self.probs_f32, s.b_indices, s.b_weights,
                    self.local_start, self.num_local, self.slots() as usize,
                ),
            ),
            Cmd::Launch(
                exl3_moe_replicate_a_bf16_launch(
                    k.replicate_a, self.input_bf16, s.a_f16, self.num_tokens, self.top_k, self.hidden,
                ),
            ),
            Cmd::Op(DeviceOp::Exl3Mgemm(self.wide_product(self.gate, s.c_gate_f16))),
            Cmd::Op(DeviceOp::Exl3Mgemm(self.wide_product(self.up, s.c_up_f16))),
            Cmd::Launch(
                exl3_silu_mul_f16_launch(
                    k.silu_mul, s.c_gate_f16, s.c_up_f16, s.inter_f16, self.act_limit,
                    (self.slots() * self.inter) as usize,
                ),
            ),
            Cmd::Op(DeviceOp::Exl3Mgemm(self.down_product())),
            Cmd::Op(
                DeviceOp::F32ToBf16 {
                    src: s.c_down_f32,
                    dst: self.out_bf16,
                    n: (self.num_tokens * self.hidden) as usize,
                },
            ),
        ]
    }
}

/// Records the pipeline: weighted sums of the routed experts land in `out_bf16`.
pub fn exl3_moe_decode_routed(cb: &mut CommandBuffer, k: Exl3MoeKernels, p: &Exl3Pass) -> (r: Result<
    (),
    Exl3DecodeError,
>)
    requires
        p.slots() <= usize::MAX,
        p.refusal() is None ==> p.fits(),
    ensures
        match p.refusal() {
            Some(e) => r == Err::<(), Exl3DecodeError>(e) && final(cb)@ == old(cb)@,
            None => r is Ok && final(cb)@ == old(cb)@ + p.cmds(k),
        },
{
    let ghost before = cb@;
    if let Some(e) = p.check() {
        return Err(e);
    }
    let s: usize = p.num_tokens * p.top_k;
    proof {
        lemma_even_product(s as int, p.inter as int);
    }
    exl3_moe_stage_routing(
        cb, k.stage_routing, p.indices_u32, p.probs_f32, p.scratch.b_indices, p.scratch.b_weights,
        p.local_start, p.num_local, s,
    );
    exl3_moe_replicate_a_bf16(
        cb, k.replicate_a, p.input_bf16, p.scratch.a_f16, p.num_tokens, p.top_k, p.hidden,
    );
    cb.op(DeviceOp::Exl3Mgemm(p.wide_args(p.gate, p.scratch.c_gate_f16, s)));
    cb.op(DeviceOp::Exl3Mgemm(p.wide_args(p.up, p.scratch.c_up_f16, s)));
    let done: Result<(), Exl3DecodeError> = exl3_silu_mul_f16(
        cb, k.silu_mul, p.scratch.c_gate_f16, p.scratch.c_up_f16, p.scratch.inter_f16, p.act_limit,
        s * p.inter,
    );
    if done.is_err() {
        return done;
    }
    cb.op(DeviceOp::Exl3Mgemm(p.down_args(s)));
    cb.op(
        DeviceOp::F32ToBf16 {
            src: p.scratch.c_down_f32,
            dst: p.out_bf16,
            n: p.num_tokens * p.hidden,
        },
    );
    assert(cb@ =~= before + p.cmds(k));
    Ok(())
}

proof fn lemma_even_product(s: int, inter: int)
    requires
        inter % 128 == 0,
    ensures
        (s * inter) % 2 == 0,
{
    let h = inter / 2;
    assert(inter == 2 * h);
    assert(s * inter == 2 * (s * h)) by (nonlinear_arith)
        requires
            inter == 2 * h,
    ;
    assert((2 * (s * h)) % 2 == 0);
}

/// Routing weights enter exactly once: only the down product has them.
pub proof fn law_weights_enter_once(p: Exl3Pass)
    ensures
        p.wide_product(p.gate, p.scratch.c_gate_f16).b_weights is None,
        p.wide_product(p.up, p.scratch.c_up_f16).b_weights is None,
        p.down_product().b_weights == Some(p.scratch.b_weights),
        p.down_product().num_tokens == p.num_tokens,
{
}

} // verus!
