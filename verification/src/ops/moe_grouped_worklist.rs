//! Launches of compact grouped kernels over a device worklist.
use crate::device::{Cmd, CommandBuffer, DevicePtr, Dim3, KernelArg, KernelHandle, KernelLaunch, Launch};
use vstd::prelude::*;

verus! {

pub const COMPACT_GRID_CTAS: u32 = 256;

pub const COMPACT_BLOCK_THREADS: u32 = 128;

/// Gate and up products over a device worklist; a fixed grid needs no readback.
pub open spec fn moe_w4a16_fused_gate_up_k64_worklist_launch(
    kernel: KernelHandle, a: DevicePtr, gate_packed_ptrs: DevicePtr, gate_scale_ptrs: DevicePtr,
    gate_scale2_vals: DevicePtr, up_packed_ptrs: DevicePtr, up_scale_ptrs: DevicePtr,
    up_scale2_vals: DevicePtr, c_gate: DevicePtr, c_up: DevicePtr, expert_offsets: DevicePtr,
    sorted_token_ids: DevicePtr, num_experts: u32, n_out: u32, k: u32, worklist: DevicePtr,
    total_tiles: DevicePtr,
) -> Launch {
    Launch {
        kernel,
        grid: Dim3 { x: COMPACT_GRID_CTAS, y: 1, z: 1 },
        block: Dim3 { x: COMPACT_BLOCK_THREADS, y: 1, z: 1 },
        shared_mem: 0,
        args: seq![
            KernelArg::Ptr(a), KernelArg::Ptr(gate_packed_ptrs), KernelArg::Ptr(gate_scale_ptrs),
            KernelArg::Ptr(gate_scale2_vals), KernelArg::Ptr(up_packed_ptrs),
            KernelArg::Ptr(up_scale_ptrs), KernelArg::Ptr(up_scale2_vals), KernelArg::Ptr(c_gate),
            KernelArg::Ptr(c_up), KernelArg::Ptr(expert_offsets),
            KernelArg::Ptr(sorted_token_ids), KernelArg::U32(num_experts), KernelArg::U32(n_out),
            KernelArg::U32(k), KernelArg::Ptr(worklist), KernelArg::Ptr(total_tiles),
        ],
    }
}

/// Records the launch that [`moe_w4a16_fused_gate_up_k64_worklist_launch`] describes.
pub fn moe_w4a16_fused_gate_up_k64_worklist(
    cb: &mut CommandBuffer,
    kernel: KernelHandle, a: DevicePtr, gate_packed_ptrs: DevicePtr, gate_scale_ptrs: DevicePtr,
    gate_scale2_vals: DevicePtr, up_packed_ptrs: DevicePtr, up_scale_ptrs: DevicePtr,
    up_scale2_vals: DevicePtr, c_gate: DevicePtr, c_up: DevicePtr, expert_offsets: DevicePtr,
    sorted_token_ids: DevicePtr, num_experts: u32, n_out: u32, k: u32, worklist: DevicePtr,
    total_tiles: DevicePtr,
)
    ensures
        final(cb)@ == old(cb)@.push(
            Cmd::Launch(
                moe_w4a16_fused_gate_up_k64_worklist_launch(
                    kernel, a, gate_packed_ptrs, gate_scale_ptrs, gate_scale2_vals,
                    up_packed_ptrs, up_scale_ptrs, up_scale2_vals, c_gate, c_up, expert_offsets,
                    sorted_token_ids, num_experts, n_out, k, worklist, total_tiles,
                ),
            ),
        ),
{
    let launch = KernelLaunch {
        kernel,
        grid: Dim3 { x: COMPACT_GRID_CTAS, y: 1, z: 1 },
        block: Dim3 { x: COMPACT_BLOCK_THREADS, y: 1, z: 1 },
        shared_mem: 0,
        args: vec![
            KernelArg::Ptr(a), KernelArg::Ptr(gate_packed_ptrs), KernelArg::Ptr(gate_scale_ptrs),
            KernelArg::Ptr(gate_scale2_vals), KernelArg::Ptr(up_packed_ptrs),
            KernelArg::Ptr(up_scale_ptrs), KernelArg::Ptr(up_scale2_vals), KernelArg::Ptr(c_gate),
            KernelArg::Ptr(c_up), KernelArg::Ptr(expert_offsets),
            KernelArg::Ptr(sorted_token_ids), KernelArg::U32(num_experts), KernelArg::U32(n_out),
            KernelArg::U32(k), KernelArg::Ptr(worklist), KernelArg::Ptr(total_tiles),
        ],
    };
    assert(launch@ =~= moe_w4a16_fused_gate_up_k64_worklist_launch(
        kernel, a, gate_packed_ptrs, gate_scale_ptrs, gate_scale2_vals, up_packed_ptrs,
        up_scale_ptrs, up_scale2_vals, c_gate, c_up, expert_offsets, sorted_token_ids,
        num_experts, n_out, k, worklist, total_tiles,
    ));
    cb.launch(launch);
}

/// Grouped product over a device worklist; a fixed grid needs no readback.
pub open spec fn moe_w4a16_grouped_gemm_k64_worklist_launch(
    kernel: KernelHandle, a: DevicePtr, packed_ptrs: DevicePtr, scale_ptrs: DevicePtr,
    scale2_vals: DevicePtr, c: DevicePtr, expert_offsets: DevicePtr, sorted_token_ids: DevicePtr,
    num_experts: u32, n_out: u32, k: u32, worklist: DevicePtr, total_tiles: DevicePtr,
) -> Launch {
    Launch {
        kernel,
        grid: Dim3 { x: COMPACT_GRID_CTAS, y: 1, z: 1 },
        block: Dim3 { x: COMPACT_BLOCK_THREADS, y: 1, z: 1 },
        shared_mem: 0,
        args: seq![
            KernelArg::Ptr(a), KernelArg::Ptr(packed_ptrs), KernelArg::Ptr(scale_ptrs),
            KernelArg::Ptr(scale2_vals), KernelArg::Ptr(c), KernelArg::Ptr(expert_offsets),
            KernelArg::Ptr(sorted_token_ids), KernelArg::U32(num_experts), KernelArg::U32(n_out),
            KernelArg::U32(k), KernelArg::Ptr(worklist), KernelArg::Ptr(total_tiles),
        ],
    }
}

/// Records the launch that [`moe_w4a16_grouped_gemm_k64_worklist_launch`] describes.
pub fn moe_w4a16_grouped_gemm_k64_worklist(
    cb: &mut CommandBuffer,
    kernel: KernelHandle, a: DevicePtr, packed_ptrs: DevicePtr, scale_ptrs: DevicePtr,
    scale2_vals: DevicePtr, c: DevicePtr, expert_offsets: DevicePtr, sorted_token_ids: DevicePtr,
    num_experts: u32, n_out: u32, k: u32, worklist: DevicePtr, total_tiles: DevicePtr,
)
    ensures
        final(cb)@ == old(cb)@.push(
            Cmd::Launch(
                moe_w4a16_grouped_gemm_k64_worklist_launch(
                    kernel, a, packed_ptrs, scale_ptrs, scale2_vals, c, expert_offsets,
                    sorted_token_ids, num_experts, n_out, k, worklist, total_tiles,
                ),
            ),
        ),
{
    let launch = KernelLaunch {
        kernel,
        grid: Dim3 { x: COMPACT_GRID_CTAS, y: 1, z: 1 },
        block: Dim3 { x: COMPACT_BLOCK_THREADS, y: 1, z: 1 },
        shared_mem: 0,
        args: vec![
            KernelArg::Ptr(a), KernelArg::Ptr(packed_ptrs), KernelArg::Ptr(scale_ptrs),
            KernelArg::Ptr(scale2_vals), KernelArg::Ptr(c), KernelArg::Ptr(expert_offsets),
            KernelArg::Ptr(sorted_token_ids), KernelArg::U32(num_experts), KernelArg::U32(n_out),
            KernelArg::U32(k), KernelArg::Ptr(worklist), KernelArg::Ptr(total_tiles),
        ],
    };
    assert(launch@ =~= moe_w4a16_grouped_gemm_k64_worklist_launch(
        kernel, a, packed_ptrs, scale_ptrs, scale2_vals, c, expert_offsets, sorted_token_ids,
        num_experts, n_out, k, worklist, total_tiles,
    ));
    cb.launch(launch);
}

} // verus!
