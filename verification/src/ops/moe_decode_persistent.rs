//! Launches of unpadded routed decode on a fixed grid.
use crate::device::{Cmd, CommandBuffer, DevicePtr, Dim3, KernelArg, KernelHandle, KernelLaunch, Launch};
use vstd::prelude::*;

verus! {

pub const PERSISTENT_GRID_CTAS: u32 = 512;

pub const PERSISTENT_BLOCK_THREADS: u32 = 256;

/// Groups routed rows by expert into groups of at most eight.
pub open spec fn moe_build_decode_worklist_c8_launch(
    kernel: KernelHandle, expert_offsets: DevicePtr, worklist: DevicePtr, total_groups: DevicePtr,
    num_experts: u32, routes: u32,
) -> Launch {
    Launch {
        kernel,
        grid: Dim3 { x: 1, y: 1, z: 1 },
        block: Dim3 { x: 256, y: 1, z: 1 },
        shared_mem: 0,
        args: seq![
            KernelArg::Ptr(expert_offsets), KernelArg::Ptr(worklist),
            KernelArg::Ptr(total_groups), KernelArg::U32(num_experts), KernelArg::U32(routes),
        ],
    }
}

/// Records the launch that [`moe_build_decode_worklist_c8_launch`] describes.
pub fn moe_build_decode_worklist_c8(
    cb: &mut CommandBuffer,
    kernel: KernelHandle, expert_offsets: DevicePtr, worklist: DevicePtr, total_groups: DevicePtr,
    num_experts: u32, routes: u32,
)
    ensures
        final(cb)@ == old(cb)@.push(
            Cmd::Launch(
                moe_build_decode_worklist_c8_launch(
                    kernel, expert_offsets, worklist, total_groups, num_experts, routes,
                ),
            ),
        ),
{
    let launch = KernelLaunch {
        kernel,
        grid: Dim3 { x: 1, y: 1, z: 1 },
        block: Dim3 { x: 256, y: 1, z: 1 },
        shared_mem: 0,
        args: vec![
            KernelArg::Ptr(expert_offsets), KernelArg::Ptr(worklist),
            KernelArg::Ptr(total_groups), KernelArg::U32(num_experts), KernelArg::U32(routes),
        ],
    };
    assert(launch@ =~= moe_build_decode_worklist_c8_launch(
        kernel, expert_offsets, worklist, total_groups, num_experts, routes,
    ));
    cb.launch(launch);
}

/// Gate and up products of the grouped rows on a fixed grid.
pub open spec fn moe_decode_persistent_gate_up_c8_launch(
    kernel: KernelHandle, input: DevicePtr, gate_packed_ptrs: DevicePtr, gate_scale_ptrs:
    DevicePtr, gate_scale2: DevicePtr, up_packed_ptrs: DevicePtr, up_scale_ptrs: DevicePtr,
    up_scale2: DevicePtr, gate_out: DevicePtr, up_out: DevicePtr, sorted_token_ids: DevicePtr,
    worklist: DevicePtr, total_groups: DevicePtr, n_out: u32, k_size: u32,
) -> Launch {
    Launch {
        kernel,
        grid: Dim3 { x: PERSISTENT_GRID_CTAS, y: 1, z: 1 },
        block: Dim3 { x: PERSISTENT_BLOCK_THREADS, y: 1, z: 1 },
        shared_mem: 0,
        args: seq![
            KernelArg::Ptr(input), KernelArg::Ptr(gate_packed_ptrs),
            KernelArg::Ptr(gate_scale_ptrs), KernelArg::Ptr(gate_scale2),
            KernelArg::Ptr(up_packed_ptrs), KernelArg::Ptr(up_scale_ptrs),
            KernelArg::Ptr(up_scale2), KernelArg::Ptr(gate_out), KernelArg::Ptr(up_out),
            KernelArg::Ptr(sorted_token_ids), KernelArg::Ptr(worklist),
            KernelArg::Ptr(total_groups), KernelArg::U32(n_out), KernelArg::U32(k_size),
        ],
    }
}

/// Records the launch that [`moe_decode_persistent_gate_up_c8_launch`] describes.
pub fn moe_decode_persistent_gate_up_c8(
    cb: &mut CommandBuffer,
    kernel: KernelHandle, input: DevicePtr, gate_packed_ptrs: DevicePtr, gate_scale_ptrs:
    DevicePtr, gate_scale2: DevicePtr, up_packed_ptrs: DevicePtr, up_scale_ptrs: DevicePtr,
    up_scale2: DevicePtr, gate_out: DevicePtr, up_out: DevicePtr, sorted_token_ids: DevicePtr,
    worklist: DevicePtr, total_groups: DevicePtr, n_out: u32, k_size: u32,
)
    ensures
        final(cb)@ == old(cb)@.push(
            Cmd::Launch(
                moe_decode_persistent_gate_up_c8_launch(
                    kernel, input, gate_packed_ptrs, gate_scale_ptrs, gate_scale2, up_packed_ptrs,
                    up_scale_ptrs, up_scale2, gate_out, up_out, sorted_token_ids, worklist,
                    total_groups, n_out, k_size,
                ),
            ),
        ),
{
    let launch = KernelLaunch {
        kernel,
        grid: Dim3 { x: PERSISTENT_GRID_CTAS, y: 1, z: 1 },
        block: Dim3 { x: PERSISTENT_BLOCK_THREADS, y: 1, z: 1 },
        shared_mem: 0,
        args: vec![
            KernelArg::Ptr(input), KernelArg::Ptr(gate_packed_ptrs),
            KernelArg::Ptr(gate_scale_ptrs), KernelArg::Ptr(gate_scale2),
            KernelArg::Ptr(up_packed_ptrs), KernelArg::Ptr(up_scale_ptrs),
            KernelArg::Ptr(up_scale2), KernelArg::Ptr(gate_out), KernelArg::Ptr(up_out),
            KernelArg::Ptr(sorted_token_ids), KernelArg::Ptr(worklist),
            KernelArg::Ptr(total_groups), KernelArg::U32(n_out), KernelArg::U32(k_size),
        ],
    };
    assert(launch@ =~= moe_decode_persistent_gate_up_c8_launch(
        kernel, input, gate_packed_ptrs, gate_scale_ptrs, gate_scale2, up_packed_ptrs,
        up_scale_ptrs, up_scale2, gate_out, up_out, sorted_token_ids, worklist, total_groups,
        n_out, k_size,
    ));
    cb.launch(launch);
}

/// Activation and down product of the grouped rows on a fixed grid.
pub open spec fn moe_decode_persistent_down_c8_launch(
    kernel: KernelHandle, gate_out: DevicePtr, up_out: DevicePtr, down_packed_ptrs: DevicePtr,
    down_scale_ptrs: DevicePtr, down_scale2: DevicePtr, down_out: DevicePtr, worklist: DevicePtr,
    total_groups: DevicePtr, n_out: u32, k_size: u32,
) -> Launch {
    Launch {
        kernel,
        grid: Dim3 { x: PERSISTENT_GRID_CTAS, y: 1, z: 1 },
        block: Dim3 { x: PERSISTENT_BLOCK_THREADS, y: 1, z: 1 },
        shared_mem: 0,
        args: seq![
            KernelArg::Ptr(gate_out), KernelArg::Ptr(up_out), KernelArg::Ptr(down_packed_ptrs),
            KernelArg::Ptr(down_scale_ptrs), KernelArg::Ptr(down_scale2),
            KernelArg::Ptr(down_out), KernelArg::Ptr(worklist), KernelArg::Ptr(total_groups),
            KernelArg::U32(n_out), KernelArg::U32(k_size),
        ],
    }
}

/// Records the launch that [`moe_decode_persistent_down_c8_launch`] describes.
pub fn moe_decode_persistent_down_c8(
    cb: &mut CommandBuffer,
    kernel: KernelHandle, gate_out: DevicePtr, up_out: DevicePtr, down_packed_ptrs: DevicePtr,
    down_scale_ptrs: DevicePtr, down_scale2: DevicePtr, down_out: DevicePtr, worklist: DevicePtr,
    total_groups: DevicePtr, n_out: u32, k_size: u32,
)
    ensures
        final(cb)@ == old(cb)@.push(
            Cmd::Launch(
                moe_decode_persistent_down_c8_launch(
                    kernel, gate_out, up_out, down_packed_ptrs, down_scale_ptrs, down_scale2,
                    down_out, worklist, total_groups, n_out, k_size,
                ),
            ),
        ),
{
    let launch = KernelLaunch {
        kernel,
        grid: Dim3 { x: PERSISTENT_GRID_CTAS, y: 1, z: 1 },
        block: Dim3 { x: PERSISTENT_BLOCK_THREADS, y: 1, z: 1 },
        shared_mem: 0,
        args: vec![
            KernelArg::Ptr(gate_out), KernelArg::Ptr(up_out), KernelArg::Ptr(down_packed_ptrs),
            KernelArg::Ptr(down_scale_ptrs), KernelArg::Ptr(down_scale2),
            KernelArg::Ptr(down_out), KernelArg::Ptr(worklist), KernelArg::Ptr(total_groups),
            KernelArg::U32(n_out), KernelArg::U32(k_size),
        ],
    };
    assert(launch@ =~= moe_decode_persistent_down_c8_launch(
        kernel, gate_out, up_out, down_packed_ptrs, down_scale_ptrs, down_scale2, down_out,
        worklist, total_groups, n_out, k_size,
    ));
    cb.launch(launch);
}

} // verus!
