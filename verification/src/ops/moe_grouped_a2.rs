//! Launches that sort routed rows and reduce their results.
use crate::device::{Cmd, CommandBuffer, DevicePtr, Dim3, KernelArg, KernelHandle, KernelLaunch, Launch};
use vstd::prelude::*;

verus! {

/// Counting sort of routed rows by expert, with offsets and reverse map.
pub open spec fn moe_sort_by_expert_launch(
    kernel: KernelHandle, topk_ids: DevicePtr, sorted_token_ids: DevicePtr, sorted_expert_ids:
    DevicePtr, expert_offsets: DevicePtr, token_to_perm: DevicePtr, total_expanded: u32,
    num_experts: u32, topk: u32,
) -> Launch {
    Launch {
        kernel,
        grid: Dim3 { x: 1, y: 1, z: 1 },
        block: Dim3 { x: 256, y: 1, z: 1 },
        shared_mem: 0,
        args: seq![
            KernelArg::Ptr(topk_ids), KernelArg::Ptr(sorted_token_ids),
            KernelArg::Ptr(sorted_expert_ids), KernelArg::Ptr(expert_offsets),
            KernelArg::Ptr(token_to_perm), KernelArg::U32(total_expanded),
            KernelArg::U32(num_experts), KernelArg::U32(topk),
        ],
    }
}

/// Records the launch that [`moe_sort_by_expert_launch`] describes.
pub fn moe_sort_by_expert(
    cb: &mut CommandBuffer,
    kernel: KernelHandle, topk_ids: DevicePtr, sorted_token_ids: DevicePtr, sorted_expert_ids:
    DevicePtr, expert_offsets: DevicePtr, token_to_perm: DevicePtr, total_expanded: u32,
    num_experts: u32, topk: u32,
)
    ensures
        final(cb)@ == old(cb)@.push(
            Cmd::Launch(
                moe_sort_by_expert_launch(
                    kernel, topk_ids, sorted_token_ids, sorted_expert_ids, expert_offsets,
                    token_to_perm, total_expanded, num_experts, topk,
                ),
            ),
        ),
{
    let launch = KernelLaunch {
        kernel,
        grid: Dim3 { x: 1, y: 1, z: 1 },
        block: Dim3 { x: 256, y: 1, z: 1 },
        shared_mem: 0,
        args: vec![
            KernelArg::Ptr(topk_ids), KernelArg::Ptr(sorted_token_ids),
            KernelArg::Ptr(sorted_expert_ids), KernelArg::Ptr(expert_offsets),
            KernelArg::Ptr(token_to_perm), KernelArg::U32(total_expanded),
            KernelArg::U32(num_experts), KernelArg::U32(topk),
        ],
    };
    assert(launch@ =~= moe_sort_by_expert_launch(
        kernel, topk_ids, sorted_token_ids, sorted_expert_ids, expert_offsets, token_to_perm,
        total_expanded, num_experts, topk,
    ));
    cb.launch(launch);
}

/// Weighted sum of each token's expert rows through the reverse map.
pub open spec fn moe_unpermute_reduce_indexed_launch(
    kernel: KernelHandle, expert_output: DevicePtr, output: DevicePtr, token_to_perm: DevicePtr,
    topk_weights: DevicePtr, hidden_size: u32, num_tokens: u32, topk: u32,
) -> Launch {
    Launch {
        kernel,
        grid: Dim3 { x: num_tokens, y: 1, z: 1 },
        block: Dim3 { x: 256, y: 1, z: 1 },
        shared_mem: 0,
        args: seq![
            KernelArg::Ptr(expert_output), KernelArg::Ptr(output), KernelArg::Ptr(token_to_perm),
            KernelArg::Ptr(topk_weights), KernelArg::U32(hidden_size), KernelArg::U32(num_tokens),
            KernelArg::U32(topk),
        ],
    }
}

/// Records the launch that [`moe_unpermute_reduce_indexed_launch`] describes.
pub fn moe_unpermute_reduce_indexed(
    cb: &mut CommandBuffer,
    kernel: KernelHandle, expert_output: DevicePtr, output: DevicePtr, token_to_perm: DevicePtr,
    topk_weights: DevicePtr, hidden_size: u32, num_tokens: u32, topk: u32,
)
    ensures
        final(cb)@ == old(cb)@.push(
            Cmd::Launch(
                moe_unpermute_reduce_indexed_launch(
                    kernel, expert_output, output, token_to_perm, topk_weights, hidden_size,
                    num_tokens, topk,
                ),
            ),
        ),
{
    let launch = KernelLaunch {
        kernel,
        grid: Dim3 { x: num_tokens, y: 1, z: 1 },
        block: Dim3 { x: 256, y: 1, z: 1 },
        shared_mem: 0,
        args: vec![
            KernelArg::Ptr(expert_output), KernelArg::Ptr(output), KernelArg::Ptr(token_to_perm),
            KernelArg::Ptr(topk_weights), KernelArg::U32(hidden_size), KernelArg::U32(num_tokens),
            KernelArg::U32(topk),
        ],
    };
    assert(launch@ =~= moe_unpermute_reduce_indexed_launch(
        kernel, expert_output, output, token_to_perm, topk_weights, hidden_size, num_tokens, topk,
    ));
    cb.launch(launch);
}

/// `output += sigmoid(dot(normed, gate_weight)) * shared_out`, one block per row.
pub open spec fn moe_batched_blend_launch(
    kernel: KernelHandle, output: DevicePtr, shared_out: DevicePtr, normed: DevicePtr,
    gate_weight: DevicePtr, hidden_size: u32, num_tokens: u32,
) -> Launch {
    Launch {
        kernel,
        grid: Dim3 { x: num_tokens, y: 1, z: 1 },
        block: Dim3 { x: 256, y: 1, z: 1 },
        shared_mem: 0,
        args: seq![
            KernelArg::Ptr(output), KernelArg::Ptr(shared_out), KernelArg::Ptr(normed),
            KernelArg::Ptr(gate_weight), KernelArg::U32(hidden_size), KernelArg::U32(num_tokens),
        ],
    }
}

/// Records the launch that [`moe_batched_blend_launch`] describes.
pub fn moe_batched_blend(
    cb: &mut CommandBuffer,
    kernel: KernelHandle, output: DevicePtr, shared_out: DevicePtr, normed: DevicePtr,
    gate_weight: DevicePtr, hidden_size: u32, num_tokens: u32,
)
    ensures
        final(cb)@ == old(cb)@.push(
            Cmd::Launch(
                moe_batched_blend_launch(
                    kernel, output, shared_out, normed, gate_weight, hidden_size, num_tokens,
                ),
            ),
        ),
{
    let launch = KernelLaunch {
        kernel,
        grid: Dim3 { x: num_tokens, y: 1, z: 1 },
        block: Dim3 { x: 256, y: 1, z: 1 },
        shared_mem: 0,
        args: vec![
            KernelArg::Ptr(output), KernelArg::Ptr(shared_out), KernelArg::Ptr(normed),
            KernelArg::Ptr(gate_weight), KernelArg::U32(hidden_size), KernelArg::U32(num_tokens),
        ],
    };
    assert(launch@ =~= moe_batched_blend_launch(
        kernel, output, shared_out, normed, gate_weight, hidden_size, num_tokens,
    ));
    cb.launch(launch);
}

} // verus!
