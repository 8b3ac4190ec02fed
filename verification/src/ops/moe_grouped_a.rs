//! Launches of grouped expert kernels.
use crate::device::{
    Cmd, CommandBuffer, DevicePtr, Dim3, GateUpCall, GroupedGateUp, KernelArg, KernelHandle,
    KernelLaunch, Launch, Scalar,
};
use crate::num::{as_signed, ceil_div, decode_i32s, decode_scalars, decode_u64s, div_ceil_u32, le_u32, le_u64};
use vstd::prelude::*;

verus! {

/// Product of each expert's rows with its four-bit weights.
pub open spec fn moe_w4a16_grouped_gemm_launch(
    kernel: KernelHandle, a: DevicePtr, b_packed: DevicePtr, b_scale: DevicePtr, scale2: Scalar,
    c: DevicePtr, expert_offsets: DevicePtr, num_experts: u32, n: u32, k: u32,
) -> Launch {
    Launch {
        kernel,
        grid: Dim3 { x: num_experts, y: 1, z: 1 },
        block: Dim3 { x: 256, y: 1, z: 1 },
        shared_mem: 0,
        args: seq![
            KernelArg::Ptr(a), KernelArg::Ptr(b_packed), KernelArg::Ptr(b_scale),
            KernelArg::Scalar(scale2), KernelArg::Ptr(c), KernelArg::Ptr(expert_offsets),
            KernelArg::U32(num_experts), KernelArg::U32(n), KernelArg::U32(k),
        ],
    }
}

/// Records the launch that [`moe_w4a16_grouped_gemm_launch`] describes.
pub fn moe_w4a16_grouped_gemm(
    cb: &mut CommandBuffer,
    kernel: KernelHandle, a: DevicePtr, b_packed: DevicePtr, b_scale: DevicePtr, scale2: Scalar,
    c: DevicePtr, expert_offsets: DevicePtr, num_experts: u32, n: u32, k: u32,
)
    ensures
        final(cb)@ == old(cb)@.push(
            Cmd::Launch(
                moe_w4a16_grouped_gemm_launch(
                    kernel, a, b_packed, b_scale, scale2, c, expert_offsets, num_experts, n, k,
                ),
            ),
        ),
{
    let launch = KernelLaunch {
        kernel,
        grid: Dim3 { x: num_experts, y: 1, z: 1 },
        block: Dim3 { x: 256, y: 1, z: 1 },
        shared_mem: 0,
        args: vec![
            KernelArg::Ptr(a), KernelArg::Ptr(b_packed), KernelArg::Ptr(b_scale),
            KernelArg::Scalar(scale2), KernelArg::Ptr(c), KernelArg::Ptr(expert_offsets),
            KernelArg::U32(num_experts), KernelArg::U32(n), KernelArg::U32(k),
        ],
    };
    assert(launch@ =~= moe_w4a16_grouped_gemm_launch(
        kernel, a, b_packed, b_scale, scale2, c, expert_offsets, num_experts, n, k,
    ));
    cb.launch(launch);
}

/// Top-k of the softmax of every row's router logits, one block per row.
pub open spec fn moe_topk_softmax_batched_launch(
    kernel: KernelHandle, gate_logits: DevicePtr, expert_indices: DevicePtr, expert_weights:
    DevicePtr, num_experts: u32, top_k: u32, normalize: bool, num_tokens: u32,
) -> Launch {
    Launch {
        kernel,
        grid: Dim3 { x: num_tokens, y: 1, z: 1 },
        block: Dim3 { x: 256, y: 1, z: 1 },
        shared_mem: 0,
        args: seq![
            KernelArg::Ptr(gate_logits), KernelArg::Ptr(expert_indices),
            KernelArg::Ptr(expert_weights), KernelArg::U32(num_experts), KernelArg::U32(top_k),
            KernelArg::U32(flag(normalize)),
        ],
    }
}

/// Records the launch that [`moe_topk_softmax_batched_launch`] describes.
pub fn moe_topk_softmax_batched(
    cb: &mut CommandBuffer,
    kernel: KernelHandle, gate_logits: DevicePtr, expert_indices: DevicePtr, expert_weights:
    DevicePtr, num_experts: u32, top_k: u32, normalize: bool, num_tokens: u32,
)
    ensures
        final(cb)@ == old(cb)@.push(
            Cmd::Launch(
                moe_topk_softmax_batched_launch(
                    kernel, gate_logits, expert_indices, expert_weights, num_experts, top_k,
                    normalize, num_tokens,
                ),
            ),
        ),
{
    let launch = KernelLaunch {
        kernel,
        grid: Dim3 { x: num_tokens, y: 1, z: 1 },
        block: Dim3 { x: 256, y: 1, z: 1 },
        shared_mem: 0,
        args: vec![
            KernelArg::Ptr(gate_logits), KernelArg::Ptr(expert_indices),
            KernelArg::Ptr(expert_weights), KernelArg::U32(num_experts), KernelArg::U32(top_k),
            KernelArg::U32(flag(normalize)),
        ],
    };
    assert(launch@ =~= moe_topk_softmax_batched_launch(
        kernel, gate_logits, expert_indices, expert_weights, num_experts, top_k, normalize,
        num_tokens,
    ));
    cb.launch(launch);
}

/// Top-k of the biased sigmoid of every row's router logits, one block per row.
pub open spec fn moe_topk_sigmoid_batched_launch(
    kernel: KernelHandle, gate_logits: DevicePtr, bias: DevicePtr, expert_indices: DevicePtr,
    expert_weights: DevicePtr, num_experts: u32, top_k: u32, normalize: bool, scaling_factor:
    Scalar, num_tokens: u32,
) -> Launch {
    Launch {
        kernel,
        grid: Dim3 { x: num_tokens, y: 1, z: 1 },
        block: Dim3 { x: 256, y: 1, z: 1 },
        shared_mem: 0,
        args: seq![
            KernelArg::Ptr(gate_logits), KernelArg::Ptr(bias), KernelArg::Ptr(expert_indices),
            KernelArg::Ptr(expert_weights), KernelArg::U32(num_experts), KernelArg::U32(top_k),
            KernelArg::U32(flag(normalize)), KernelArg::Scalar(scaling_factor),
        ],
    }
}

/// Records the launch that [`moe_topk_sigmoid_batched_launch`] describes.
pub fn moe_topk_sigmoid_batched(
    cb: &mut CommandBuffer,
    kernel: KernelHandle, gate_logits: DevicePtr, bias: DevicePtr, expert_indices: DevicePtr,
    expert_weights: DevicePtr, num_experts: u32, top_k: u32, normalize: bool, scaling_factor:
    Scalar, num_tokens: u32,
)
    ensures
        final(cb)@ == old(cb)@.push(
            Cmd::Launch(
                moe_topk_sigmoid_batched_launch(
                    kernel, gate_logits, bias, expert_indices, expert_weights, num_experts, top_k,
                    normalize, scaling_factor, num_tokens,
                ),
            ),
        ),
{
    let launch = KernelLaunch {
        kernel,
        grid: Dim3 { x: num_tokens, y: 1, z: 1 },
        block: Dim3 { x: 256, y: 1, z: 1 },
        shared_mem: 0,
        args: vec![
            KernelArg::Ptr(gate_logits), KernelArg::Ptr(bias), KernelArg::Ptr(expert_indices),
            KernelArg::Ptr(expert_weights), KernelArg::U32(num_experts), KernelArg::U32(top_k),
            KernelArg::U32(flag(normalize)), KernelArg::Scalar(scaling_factor),
        ],
    };
    assert(launch@ =~= moe_topk_sigmoid_batched_launch(
        kernel, gate_logits, bias, expert_indices, expert_weights, num_experts, top_k, normalize,
        scaling_factor, num_tokens,
    ));
    cb.launch(launch);
}

/// Grouped product through pointer tables, 64 columns per block.
pub open spec fn moe_w4a16_grouped_gemm_ptrtable_launch(
    kernel: KernelHandle, a: DevicePtr, b_packed_ptrs: DevicePtr, b_scale_ptrs: DevicePtr,
    scale2_vals: DevicePtr, c: DevicePtr, expert_offsets: DevicePtr, sorted_token_ids: DevicePtr,
    num_experts: u32, n_out: u32, k: u32, max_m_tiles: u32,
) -> Launch {
    Launch {
        kernel,
        grid: Dim3 { x: ceil_div(n_out as int, 64) as u32, y: max_m_tiles, z: num_experts },
        block: Dim3 { x: 128, y: 1, z: 1 },
        shared_mem: 0,
        args: seq![
            KernelArg::Ptr(a), KernelArg::Ptr(b_packed_ptrs), KernelArg::Ptr(b_scale_ptrs),
            KernelArg::Ptr(scale2_vals), KernelArg::Ptr(c), KernelArg::Ptr(expert_offsets),
            KernelArg::Ptr(sorted_token_ids), KernelArg::U32(num_experts), KernelArg::U32(n_out),
            KernelArg::U32(k),
        ],
    }
}

/// Records the launch that [`moe_w4a16_grouped_gemm_ptrtable_launch`] describes.
pub fn moe_w4a16_grouped_gemm_ptrtable(
    cb: &mut CommandBuffer,
    kernel: KernelHandle, a: DevicePtr, b_packed_ptrs: DevicePtr, b_scale_ptrs: DevicePtr,
    scale2_vals: DevicePtr, c: DevicePtr, expert_offsets: DevicePtr, sorted_token_ids: DevicePtr,
    num_experts: u32, n_out: u32, k: u32, max_m_tiles: u32,
)
    ensures
        final(cb)@ == old(cb)@.push(
            Cmd::Launch(
                moe_w4a16_grouped_gemm_ptrtable_launch(
                    kernel, a, b_packed_ptrs, b_scale_ptrs, scale2_vals, c, expert_offsets,
                    sorted_token_ids, num_experts, n_out, k, max_m_tiles,
                ),
            ),
        ),
{
    let launch = KernelLaunch {
        kernel,
        grid: Dim3 { x: div_ceil_u32(n_out, 64), y: max_m_tiles, z: num_experts },
        block: Dim3 { x: 128, y: 1, z: 1 },
        shared_mem: 0,
        args: vec![
            KernelArg::Ptr(a), KernelArg::Ptr(b_packed_ptrs), KernelArg::Ptr(b_scale_ptrs),
            KernelArg::Ptr(scale2_vals), KernelArg::Ptr(c), KernelArg::Ptr(expert_offsets),
            KernelArg::Ptr(sorted_token_ids), KernelArg::U32(num_experts), KernelArg::U32(n_out),
            KernelArg::U32(k),
        ],
    };
    assert(launch@ =~= moe_w4a16_grouped_gemm_ptrtable_launch(
        kernel, a, b_packed_ptrs, b_scale_ptrs, scale2_vals, c, expert_offsets, sorted_token_ids,
        num_experts, n_out, k, max_m_tiles,
    ));
    cb.launch(launch);
}

/// Grouped product with transposed weights, 128 columns per block.
pub open spec fn moe_w4a16_grouped_gemm_ptrtable_n128_launch(
    kernel: KernelHandle, a: DevicePtr, b_packed_ptrs: DevicePtr, b_scale_ptrs: DevicePtr,
    scale2_vals: DevicePtr, c: DevicePtr, expert_offsets: DevicePtr, sorted_token_ids: DevicePtr,
    num_experts: u32, n_out: u32, k: u32, max_m_tiles: u32,
) -> Launch {
    Launch {
        kernel,
        grid: Dim3 { x: ceil_div(n_out as int, 128) as u32, y: max_m_tiles, z: num_experts },
        block: Dim3 { x: 128, y: 1, z: 1 },
        shared_mem: 0,
        args: seq![
            KernelArg::Ptr(a), KernelArg::Ptr(b_packed_ptrs), KernelArg::Ptr(b_scale_ptrs),
            KernelArg::Ptr(scale2_vals), KernelArg::Ptr(c), KernelArg::Ptr(expert_offsets),
            KernelArg::Ptr(sorted_token_ids), KernelArg::U32(num_experts), KernelArg::U32(n_out),
            KernelArg::U32(k),
        ],
    }
}

/// Records the launch that [`moe_w4a16_grouped_gemm_ptrtable_n128_launch`] describes.
pub fn moe_w4a16_grouped_gemm_ptrtable_n128(
    cb: &mut CommandBuffer,
    kernel: KernelHandle, a: DevicePtr, b_packed_ptrs: DevicePtr, b_scale_ptrs: DevicePtr,
    scale2_vals: DevicePtr, c: DevicePtr, expert_offsets: DevicePtr, sorted_token_ids: DevicePtr,
    num_experts: u32, n_out: u32, k: u32, max_m_tiles: u32,
)
    ensures
        final(cb)@ == old(cb)@.push(
            Cmd::Launch(
                moe_w4a16_grouped_gemm_ptrtable_n128_launch(
                    kernel, a, b_packed_ptrs, b_scale_ptrs, scale2_vals, c, expert_offsets,
                    sorted_token_ids, num_experts, n_out, k, max_m_tiles,
                ),
            ),
        ),
{
    let launch = KernelLaunch {
        kernel,
        grid: Dim3 { x: div_ceil_u32(n_out, 128), y: max_m_tiles, z: num_experts },
        block: Dim3 { x: 128, y: 1, z: 1 },
        shared_mem: 0,
        args: vec![
            KernelArg::Ptr(a), KernelArg::Ptr(b_packed_ptrs), KernelArg::Ptr(b_scale_ptrs),
            KernelArg::Ptr(scale2_vals), KernelArg::Ptr(c), KernelArg::Ptr(expert_offsets),
            KernelArg::Ptr(sorted_token_ids), KernelArg::U32(num_experts), KernelArg::U32(n_out),
            KernelArg::U32(k),
        ],
    };
    assert(launch@ =~= moe_w4a16_grouped_gemm_ptrtable_n128_launch(
        kernel, a, b_packed_ptrs, b_scale_ptrs, scale2_vals, c, expert_offsets, sorted_token_ids,
        num_experts, n_out, k, max_m_tiles,
    ));
    cb.launch(launch);
}

/// Grouped product of eight-bit rows with transposed four-bit weights.
pub open spec fn moe_fp8_grouped_gemm_ptrtable_n128_launch(
    kernel: KernelHandle, a_fp8: DevicePtr, b_packed_ptrs: DevicePtr, b_scale_ptrs: DevicePtr,
    scale2_vals: DevicePtr, c: DevicePtr, expert_offsets: DevicePtr, sorted_token_ids: DevicePtr,
    num_experts: u32, n_out: u32, k: u32, max_m_tiles: u32,
) -> Launch {
    Launch {
        kernel,
        grid: Dim3 { x: ceil_div(n_out as int, 128) as u32, y: max_m_tiles, z: num_experts },
        block: Dim3 { x: 128, y: 1, z: 1 },
        shared_mem: 0,
        args: seq![
            KernelArg::Ptr(a_fp8), KernelArg::Ptr(b_packed_ptrs), KernelArg::Ptr(b_scale_ptrs),
            KernelArg::Ptr(scale2_vals), KernelArg::Ptr(c), KernelArg::Ptr(expert_offsets),
            KernelArg::Ptr(sorted_token_ids), KernelArg::U32(num_experts), KernelArg::U32(n_out),
            KernelArg::U32(k),
        ],
    }
}

/// Records the launch that [`moe_fp8_grouped_gemm_ptrtable_n128_launch`] describes.
pub fn moe_fp8_grouped_gemm_ptrtable_n128(
    cb: &mut CommandBuffer,
    kernel: KernelHandle, a_fp8: DevicePtr, b_packed_ptrs: DevicePtr, b_scale_ptrs: DevicePtr,
    scale2_vals: DevicePtr, c: DevicePtr, expert_offsets: DevicePtr, sorted_token_ids: DevicePtr,
    num_experts: u32, n_out: u32, k: u32, max_m_tiles: u32,
)
    ensures
        final(cb)@ == old(cb)@.push(
            Cmd::Launch(
                moe_fp8_grouped_gemm_ptrtable_n128_launch(
                    kernel, a_fp8, b_packed_ptrs, b_scale_ptrs, scale2_vals, c, expert_offsets,
                    sorted_token_ids, num_experts, n_out, k, max_m_tiles,
                ),
            ),
        ),
{
    let launch = KernelLaunch {
        kernel,
        grid: Dim3 { x: div_ceil_u32(n_out, 128), y: max_m_tiles, z: num_experts },
        block: Dim3 { x: 128, y: 1, z: 1 },
        shared_mem: 0,
        args: vec![
            KernelArg::Ptr(a_fp8), KernelArg::Ptr(b_packed_ptrs), KernelArg::Ptr(b_scale_ptrs),
            KernelArg::Ptr(scale2_vals), KernelArg::Ptr(c), KernelArg::Ptr(expert_offsets),
            KernelArg::Ptr(sorted_token_ids), KernelArg::U32(num_experts), KernelArg::U32(n_out),
            KernelArg::U32(k),
        ],
    };
    assert(launch@ =~= moe_fp8_grouped_gemm_ptrtable_n128_launch(
        kernel, a_fp8, b_packed_ptrs, b_scale_ptrs, scale2_vals, c, expert_offsets,
        sorted_token_ids, num_experts, n_out, k, max_m_tiles,
    ));
    cb.launch(launch);
}

/// Grouped product with transposed weights in steps of 64 along `k`.
pub open spec fn moe_w4a16_grouped_gemm_ptrtable_k64_n128_launch(
    kernel: KernelHandle, a: DevicePtr, b_packed_ptrs: DevicePtr, b_scale_ptrs: DevicePtr,
    scale2_vals: DevicePtr, c: DevicePtr, expert_offsets: DevicePtr, sorted_token_ids: DevicePtr,
    num_experts: u32, n_out: u32, k: u32, max_m_tiles: u32,
) -> Launch {
    Launch {
        kernel,
        grid: Dim3 { x: ceil_div(n_out as int, 128) as u32, y: max_m_tiles, z: num_experts },
        block: Dim3 { x: 128, y: 1, z: 1 },
        shared_mem: 0,
        args: seq![
            KernelArg::Ptr(a), KernelArg::Ptr(b_packed_ptrs), KernelArg::Ptr(b_scale_ptrs),
            KernelArg::Ptr(scale2_vals), KernelArg::Ptr(c), KernelArg::Ptr(expert_offsets),
            KernelArg::Ptr(sorted_token_ids), KernelArg::U32(num_experts), KernelArg::U32(n_out),
            KernelArg::U32(k),
        ],
    }
}

/// Records the launch that [`moe_w4a16_grouped_gemm_ptrtable_k64_n128_launch`] describes.
pub fn moe_w4a16_grouped_gemm_ptrtable_k64_n128(
    cb: &mut CommandBuffer,
    kernel: KernelHandle, a: DevicePtr, b_packed_ptrs: DevicePtr, b_scale_ptrs: DevicePtr,
    scale2_vals: DevicePtr, c: DevicePtr, expert_offsets: DevicePtr, sorted_token_ids: DevicePtr,
    num_experts: u32, n_out: u32, k: u32, max_m_tiles: u32,
)
    ensures
        final(cb)@ == old(cb)@.push(
            Cmd::Launch(
                moe_w4a16_grouped_gemm_ptrtable_k64_n128_launch(
                    kernel, a, b_packed_ptrs, b_scale_ptrs, scale2_vals, c, expert_offsets,
                    sorted_token_ids, num_experts, n_out, k, max_m_tiles,
                ),
            ),
        ),
{
    let launch = KernelLaunch {
        kernel,
        grid: Dim3 { x: div_ceil_u32(n_out, 128), y: max_m_tiles, z: num_experts },
        block: Dim3 { x: 128, y: 1, z: 1 },
        shared_mem: 0,
        args: vec![
            KernelArg::Ptr(a), KernelArg::Ptr(b_packed_ptrs), KernelArg::Ptr(b_scale_ptrs),
            KernelArg::Ptr(scale2_vals), KernelArg::Ptr(c), KernelArg::Ptr(expert_offsets),
            KernelArg::Ptr(sorted_token_ids), KernelArg::U32(num_experts), KernelArg::U32(n_out),
            KernelArg::U32(k),
        ],
    };
    assert(launch@ =~= moe_w4a16_grouped_gemm_ptrtable_k64_n128_launch(
        kernel, a, b_packed_ptrs, b_scale_ptrs, scale2_vals, c, expert_offsets, sorted_token_ids,
        num_experts, n_out, k, max_m_tiles,
    ));
    cb.launch(launch);
}

/// Gate and up products in one launch, in steps of 64 along `k`.
pub open spec fn moe_w4a16_fused_gate_up_k64_n128_launch(
    kernel: KernelHandle, a: DevicePtr, gate_packed_ptrs: DevicePtr, gate_scale_ptrs: DevicePtr,
    gate_scale2_vals: DevicePtr, up_packed_ptrs: DevicePtr, up_scale_ptrs: DevicePtr,
    up_scale2_vals: DevicePtr, c_gate: DevicePtr, c_up: DevicePtr, expert_offsets: DevicePtr,
    sorted_token_ids: DevicePtr, num_experts: u32, n_out: u32, k: u32, max_m_tiles: u32,
) -> Launch {
    Launch {
        kernel,
        grid: Dim3 { x: ceil_div(2 * n_out, 128) as u32, y: max_m_tiles, z: num_experts },
        block: Dim3 { x: 128, y: 1, z: 1 },
        shared_mem: 0,
        args: seq![
            KernelArg::Ptr(a), KernelArg::Ptr(gate_packed_ptrs), KernelArg::Ptr(gate_scale_ptrs),
            KernelArg::Ptr(gate_scale2_vals), KernelArg::Ptr(up_packed_ptrs),
            KernelArg::Ptr(up_scale_ptrs), KernelArg::Ptr(up_scale2_vals), KernelArg::Ptr(c_gate),
            KernelArg::Ptr(c_up), KernelArg::Ptr(expert_offsets),
            KernelArg::Ptr(sorted_token_ids), KernelArg::U32(num_experts), KernelArg::U32(n_out),
            KernelArg::U32(k),
        ],
    }
}

/// Records the launch that [`moe_w4a16_fused_gate_up_k64_n128_launch`] describes.
pub fn moe_w4a16_fused_gate_up_k64_n128(
    cb: &mut CommandBuffer,
    kernel: KernelHandle, a: DevicePtr, gate_packed_ptrs: DevicePtr, gate_scale_ptrs: DevicePtr,
    gate_scale2_vals: DevicePtr, up_packed_ptrs: DevicePtr, up_scale_ptrs: DevicePtr,
    up_scale2_vals: DevicePtr, c_gate: DevicePtr, c_up: DevicePtr, expert_offsets: DevicePtr,
    sorted_token_ids: DevicePtr, num_experts: u32, n_out: u32, k: u32, max_m_tiles: u32,
)
    requires
        2 * n_out <= u32::MAX,
    ensures
        final(cb)@ == old(cb)@.push(
            Cmd::Launch(
                moe_w4a16_fused_gate_up_k64_n128_launch(
                    kernel, a, gate_packed_ptrs, gate_scale_ptrs, gate_scale2_vals,
                    up_packed_ptrs, up_scale_ptrs, up_scale2_vals, c_gate, c_up, expert_offsets,
                    sorted_token_ids, num_experts, n_out, k, max_m_tiles,
                ),
            ),
        ),
{
    let launch = KernelLaunch {
        kernel,
        grid: Dim3 { x: div_ceil_u32(2 * n_out, 128), y: max_m_tiles, z: num_experts },
        block: Dim3 { x: 128, y: 1, z: 1 },
        shared_mem: 0,
        args: vec![
            KernelArg::Ptr(a), KernelArg::Ptr(gate_packed_ptrs), KernelArg::Ptr(gate_scale_ptrs),
            KernelArg::Ptr(gate_scale2_vals), KernelArg::Ptr(up_packed_ptrs),
            KernelArg::Ptr(up_scale_ptrs), KernelArg::Ptr(up_scale2_vals), KernelArg::Ptr(c_gate),
            KernelArg::Ptr(c_up), KernelArg::Ptr(expert_offsets),
            KernelArg::Ptr(sorted_token_ids), KernelArg::U32(num_experts), KernelArg::U32(n_out),
            KernelArg::U32(k),
        ],
    };
    assert(launch@ =~= moe_w4a16_fused_gate_up_k64_n128_launch(
        kernel, a, gate_packed_ptrs, gate_scale_ptrs, gate_scale2_vals, up_packed_ptrs,
        up_scale_ptrs, up_scale2_vals, c_gate, c_up, expert_offsets, sorted_token_ids,
        num_experts, n_out, k, max_m_tiles,
    ));
    cb.launch(launch);
}

/// Gate and up products in one launch with 128 rows per tile.
pub open spec fn moe_w4a16_fused_gate_up_k64_m128_launch(
    kernel: KernelHandle, a: DevicePtr, gate_packed_ptrs: DevicePtr, gate_scale_ptrs: DevicePtr,
    gate_scale2_vals: DevicePtr, up_packed_ptrs: DevicePtr, up_scale_ptrs: DevicePtr,
    up_scale2_vals: DevicePtr, c_gate: DevicePtr, c_up: DevicePtr, expert_offsets: DevicePtr,
    sorted_token_ids: DevicePtr, num_experts: u32, n_out: u32, k: u32, max_m_tiles_m128: u32,
) -> Launch {
    Launch {
        kernel,
        grid: Dim3 { x: ceil_div(2 * n_out, 128) as u32, y: max_m_tiles_m128, z: num_experts },
        block: Dim3 { x: 256, y: 1, z: 1 },
        shared_mem: 0,
        args: seq![
            KernelArg::Ptr(a), KernelArg::Ptr(gate_packed_ptrs), KernelArg::Ptr(gate_scale_ptrs),
            KernelArg::Ptr(gate_scale2_vals), KernelArg::Ptr(up_packed_ptrs),
            KernelArg::Ptr(up_scale_ptrs), KernelArg::Ptr(up_scale2_vals), KernelArg::Ptr(c_gate),
            KernelArg::Ptr(c_up), KernelArg::Ptr(expert_offsets),
            KernelArg::Ptr(sorted_token_ids), KernelArg::U32(num_experts), KernelArg::U32(n_out),
            KernelArg::U32(k),
        ],
    }
}

/// Records the launch that [`moe_w4a16_fused_gate_up_k64_m128_launch`] describes.
pub fn moe_w4a16_fused_gate_up_k64_m128(
    cb: &mut CommandBuffer,
    kernel: KernelHandle, a: DevicePtr, gate_packed_ptrs: DevicePtr, gate_scale_ptrs: DevicePtr,
    gate_scale2_vals: DevicePtr, up_packed_ptrs: DevicePtr, up_scale_ptrs: DevicePtr,
    up_scale2_vals: DevicePtr, c_gate: DevicePtr, c_up: DevicePtr, expert_offsets: DevicePtr,
    sorted_token_ids: DevicePtr, num_experts: u32, n_out: u32, k: u32, max_m_tiles_m128: u32,
)
    requires
        2 * n_out <= u32::MAX,
    ensures
        final(cb)@ == old(cb)@.push(
            Cmd::Launch(
                moe_w4a16_fused_gate_up_k64_m128_launch(
                    kernel, a, gate_packed_ptrs, gate_scale_ptrs, gate_scale2_vals,
                    up_packed_ptrs, up_scale_ptrs, up_scale2_vals, c_gate, c_up, expert_offsets,
                    sorted_token_ids, num_experts, n_out, k, max_m_tiles_m128,
                ),
            ),
        ),
{
    let launch = KernelLaunch {
        kernel,
        grid: Dim3 { x: div_ceil_u32(2 * n_out, 128), y: max_m_tiles_m128, z: num_experts },
        block: Dim3 { x: 256, y: 1, z: 1 },
        shared_mem: 0,
        args: vec![
            KernelArg::Ptr(a), KernelArg::Ptr(gate_packed_ptrs), KernelArg::Ptr(gate_scale_ptrs),
            KernelArg::Ptr(gate_scale2_vals), KernelArg::Ptr(up_packed_ptrs),
            KernelArg::Ptr(up_scale_ptrs), KernelArg::Ptr(up_scale2_vals), KernelArg::Ptr(c_gate),
            KernelArg::Ptr(c_up), KernelArg::Ptr(expert_offsets),
            KernelArg::Ptr(sorted_token_ids), KernelArg::U32(num_experts), KernelArg::U32(n_out),
            KernelArg::U32(k),
        ],
    };
    assert(launch@ =~= moe_w4a16_fused_gate_up_k64_m128_launch(
        kernel, a, gate_packed_ptrs, gate_scale_ptrs, gate_scale2_vals, up_packed_ptrs,
        up_scale_ptrs, up_scale2_vals, c_gate, c_up, expert_offsets, sorted_token_ids,
        num_experts, n_out, k, max_m_tiles_m128,
    ));
    cb.launch(launch);
}

/// Gate and up products in one launch: first `n_out` columns gate, the rest up.
pub open spec fn moe_w4a16_fused_gate_up_n128_launch(
    kernel: KernelHandle, a: DevicePtr, gate_packed_ptrs: DevicePtr, gate_scale_ptrs: DevicePtr,
    gate_scale2_vals: DevicePtr, up_packed_ptrs: DevicePtr, up_scale_ptrs: DevicePtr,
    up_scale2_vals: DevicePtr, c_gate: DevicePtr, c_up: DevicePtr, expert_offsets: DevicePtr,
    sorted_token_ids: DevicePtr, num_experts: u32, n_out: u32, k: u32, max_m_tiles: u32,
) -> Launch {
    Launch {
        kernel,
        grid: Dim3 { x: ceil_div(2 * n_out, 128) as u32, y: max_m_tiles, z: num_experts },
        block: Dim3 { x: 128, y: 1, z: 1 },
        shared_mem: 0,
        args: seq![
            KernelArg::Ptr(a), KernelArg::Ptr(gate_packed_ptrs), KernelArg::Ptr(gate_scale_ptrs),
            KernelArg::Ptr(gate_scale2_vals), KernelArg::Ptr(up_packed_ptrs),
            KernelArg::Ptr(up_scale_ptrs), KernelArg::Ptr(up_scale2_vals), KernelArg::Ptr(c_gate),
            KernelArg::Ptr(c_up), KernelArg::Ptr(expert_offsets),
            KernelArg::Ptr(sorted_token_ids), KernelArg::U32(num_experts), KernelArg::U32(n_out),
            KernelArg::U32(k),
        ],
    }
}

/// Records the launch that [`moe_w4a16_fused_gate_up_n128_launch`] describes.
pub fn moe_w4a16_fused_gate_up_n128(
    cb: &mut CommandBuffer,
    kernel: KernelHandle, a: DevicePtr, gate_packed_ptrs: DevicePtr, gate_scale_ptrs: DevicePtr,
    gate_scale2_vals: DevicePtr, up_packed_ptrs: DevicePtr, up_scale_ptrs: DevicePtr,
    up_scale2_vals: DevicePtr, c_gate: DevicePtr, c_up: DevicePtr, expert_offsets: DevicePtr,
    sorted_token_ids: DevicePtr, num_experts: u32, n_out: u32, k: u32, max_m_tiles: u32,
)
    requires
        2 * n_out <= u32::MAX,
    ensures
        final(cb)@ == old(cb)@.push(
            Cmd::Launch(
                moe_w4a16_fused_gate_up_n128_launch(
                    kernel, a, gate_packed_ptrs, gate_scale_ptrs, gate_scale2_vals,
                    up_packed_ptrs, up_scale_ptrs, up_scale2_vals, c_gate, c_up, expert_offsets,
                    sorted_token_ids, num_experts, n_out, k, max_m_tiles,
                ),
            ),
        ),
{
    let launch = KernelLaunch {
        kernel,
        grid: Dim3 { x: div_ceil_u32(2 * n_out, 128), y: max_m_tiles, z: num_experts },
        block: Dim3 { x: 128, y: 1, z: 1 },
        shared_mem: 0,
        args: vec![
            KernelArg::Ptr(a), KernelArg::Ptr(gate_packed_ptrs), KernelArg::Ptr(gate_scale_ptrs),
            KernelArg::Ptr(gate_scale2_vals), KernelArg::Ptr(up_packed_ptrs),
            KernelArg::Ptr(up_scale_ptrs), KernelArg::Ptr(up_scale2_vals), KernelArg::Ptr(c_gate),
            KernelArg::Ptr(c_up), KernelArg::Ptr(expert_offsets),
            KernelArg::Ptr(sorted_token_ids), KernelArg::U32(num_experts), KernelArg::U32(n_out),
            KernelArg::U32(k),
        ],
    };
    assert(launch@ =~= moe_w4a16_fused_gate_up_n128_launch(
        kernel, a, gate_packed_ptrs, gate_scale_ptrs, gate_scale2_vals, up_packed_ptrs,
        up_scale_ptrs, up_scale2_vals, c_gate, c_up, expert_offsets, sorted_token_ids,
        num_experts, n_out, k, max_m_tiles,
    ));
    cb.launch(launch);
}

/// `output = silu(gate) * up`, element by element.
pub open spec fn moe_silu_mul_launch(
    kernel: KernelHandle, gate: DevicePtr, up: DevicePtr, output: DevicePtr, total_elements: u32,
) -> Launch {
    Launch {
        kernel,
        grid: Dim3 { x: ceil_div(total_elements as int, 256) as u32, y: 1, z: 1 },
        block: Dim3 { x: 256, y: 1, z: 1 },
        shared_mem: 0,
        args: seq![
            KernelArg::Ptr(gate), KernelArg::Ptr(up), KernelArg::Ptr(output),
            KernelArg::U32(total_elements),
        ],
    }
}

/// Records the launch that [`moe_silu_mul_launch`] describes.
pub fn moe_silu_mul(
    cb: &mut CommandBuffer,
    kernel: KernelHandle, gate: DevicePtr, up: DevicePtr, output: DevicePtr, total_elements: u32,
)
    ensures
        final(cb)@ == old(cb)@.push(
            Cmd::Launch(
                moe_silu_mul_launch(
                    kernel, gate, up, output, total_elements,
                ),
            ),
        ),
{
    let launch = KernelLaunch {
        kernel,
        grid: Dim3 { x: div_ceil_u32(total_elements, 256), y: 1, z: 1 },
        block: Dim3 { x: 256, y: 1, z: 1 },
        shared_mem: 0,
        args: vec![
            KernelArg::Ptr(gate), KernelArg::Ptr(up), KernelArg::Ptr(output),
            KernelArg::U32(total_elements),
        ],
    };
    assert(launch@ =~= moe_silu_mul_launch(
        kernel, gate, up, output, total_elements,
    ));
    cb.launch(launch);
}

/// A switch as a kernel argument.
pub open spec fn flag_arg(on: bool) -> u32 {
    if on {
        1
    } else {
        0
    }
}

/// A switch as a kernel argument.
#[verifier::when_used_as_spec(flag_arg)]
pub fn flag(on: bool) -> (r: u32)
    ensures
        r == flag_arg(on),
{
    if on {
        1
    } else {
        0
    }
}

/// Threads per row of the gather: one per element, at least one and at most 256.
pub open spec fn gather_threads(hidden: u32) -> u32 {
    if hidden > 256 {
        256
    } else if hidden < 1 {
        1
    } else {
        hidden
    }
}

/// Gathers rows into expert order: row `i` of `permuted` is row
/// `sorted_token_ids[i]` of `hidden_states`.
pub open spec fn moe_permute_tokens_launch(
    kernel: KernelHandle, hidden_states: DevicePtr, permuted: DevicePtr,
    sorted_token_ids: DevicePtr, hidden: u32, total_expanded: u32,
) -> Launch {
    Launch {
        kernel,
        grid: Dim3 { x: total_expanded, y: 1, z: 1 },
        block: Dim3 { x: gather_threads(hidden), y: 1, z: 1 },
        shared_mem: 0,
        args: seq![
            KernelArg::Ptr(hidden_states), KernelArg::Ptr(permuted),
            KernelArg::Ptr(sorted_token_ids), KernelArg::U32(hidden), KernelArg::U32(total_expanded),
        ],
    }
}

/// Records the launch that [`moe_permute_tokens_launch`] describes.
pub fn moe_permute_tokens(
    cb: &mut CommandBuffer,
    kernel: KernelHandle, hidden_states: DevicePtr, permuted: DevicePtr,
    sorted_token_ids: DevicePtr, hidden: u32, total_expanded: u32,
)
    ensures
        final(cb)@ == old(cb)@.push(
            Cmd::Launch(
                moe_permute_tokens_launch(
                    kernel, hidden_states, permuted, sorted_token_ids, hidden, total_expanded,
                ),
            ),
        ),
{
    let threads: u32 = if hidden > 256 {
        256
    } else if hidden < 1 {
        1
    } else {
        hidden
    };
    let launch = KernelLaunch {
        kernel,
        grid: Dim3 { x: total_expanded, y: 1, z: 1 },
        block: Dim3 { x: threads, y: 1, z: 1 },
        shared_mem: 0,
        args: vec![
            KernelArg::Ptr(hidden_states), KernelArg::Ptr(permuted),
            KernelArg::Ptr(sorted_token_ids), KernelArg::U32(hidden), KernelArg::U32(total_expanded),
        ],
    };
    assert(launch@ =~= moe_permute_tokens_launch(
        kernel, hidden_states, permuted, sorted_token_ids, hidden, total_expanded,
    ));
    cb.launch(launch);
}

/// Addresses of `n` experts, as their table is laid out on the device.
pub open spec fn table_u64s(bytes: Seq<u8>, n: nat) -> Seq<u64> {
    Seq::new(n, |i: int| le_u64(bytes, 8 * i) as u64)
}

/// Scales of `n` experts, as their table is laid out on the device.
pub open spec fn table_scalars(bytes: Seq<u8>, n: nat) -> Seq<Scalar> {
    Seq::new(n, |i: int| Scalar(le_u32(bytes, 4 * i) as u32))
}

/// `n` offsets, as they are laid out on the device.
pub open spec fn table_i32s(bytes: Seq<u8>, n: nat) -> Seq<i32> {
    Seq::new(n, |i: int| as_signed(le_u32(bytes, 4 * i)) as i32)
}

/// Records the grouped gate and up products of the sorted rows at `a`, with the tables
/// of `num_experts` experts and their offsets decoded from the bytes read back.
pub fn moe_grouped_gate_up_cutlass(
    cb: &mut CommandBuffer,
    a: DevicePtr, gate_packed: &[u8], gate_sfb: &[u8], gate_scale2: &[u8], up_packed: &[u8],
    up_sfb: &[u8], up_scale2: &[u8], c_gate: DevicePtr, c_up: DevicePtr, offsets: &[u8],
    num_experts: usize, inter: u32, hidden: u32,
)
    requires
        num_experts < usize::MAX,
        gate_packed.len() >= 8 * num_experts,
        gate_sfb.len() >= 8 * num_experts,
        up_packed.len() >= 8 * num_experts,
        up_sfb.len() >= 8 * num_experts,
        gate_scale2.len() >= 4 * num_experts,
        up_scale2.len() >= 4 * num_experts,
        offsets.len() >= 4 * (num_experts + 1),
    ensures
        final(cb)@ == old(cb)@.push(
            Cmd::GateUp(
                (GateUpCall {
                    rows: a,
                    gate_packed: table_u64s(gate_packed@, num_experts as nat),
                    gate_sfb: table_u64s(gate_sfb@, num_experts as nat),
                    gate_scale2: table_scalars(gate_scale2@, num_experts as nat),
                    up_packed: table_u64s(up_packed@, num_experts as nat),
                    up_sfb: table_u64s(up_sfb@, num_experts as nat),
                    up_scale2: table_scalars(up_scale2@, num_experts as nat),
                    gate_out: c_gate,
                    up_out: c_up,
                    offsets: table_i32s(offsets@, num_experts as nat + 1),
                    inter,
                    hidden,
                }),
            ),
        ),
{
    let call = GroupedGateUp {
        rows: a,
        gate_packed: decode_u64s(gate_packed, num_experts),
        gate_sfb: decode_u64s(gate_sfb, num_experts),
        gate_scale2: decode_scalars(gate_scale2, num_experts),
        up_packed: decode_u64s(up_packed, num_experts),
        up_sfb: decode_u64s(up_sfb, num_experts),
        up_scale2: decode_scalars(up_scale2, num_experts),
        gate_out: c_gate,
        up_out: c_up,
        offsets: decode_i32s(offsets, num_experts + 1),
        inter,
        hidden,
    };
    proof {
        assert(call.gate_packed@ =~= table_u64s(gate_packed@, num_experts as nat));
        assert(call.gate_sfb@ =~= table_u64s(gate_sfb@, num_experts as nat));
        assert(call.gate_scale2@ =~= table_scalars(gate_scale2@, num_experts as nat));
        assert(call.up_packed@ =~= table_u64s(up_packed@, num_experts as nat));
        assert(call.up_sfb@ =~= table_u64s(up_sfb@, num_experts as nat));
        assert(call.up_scale2@ =~= table_scalars(up_scale2@, num_experts as nat));
        assert(call.offsets@ =~= table_i32s(offsets@, num_experts as nat + 1));
    }
    cb.gate_up(call);
}

} // verus!
