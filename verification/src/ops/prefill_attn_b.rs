//! Launches of cache writes and decode attention.
use crate::device::{Cmd, CommandBuffer, DevicePtr, Dim3, KernelArg, KernelHandle, KernelLaunch, Launch, Scalar};
use crate::num::{ceil_div, div_ceil_u32};
use vstd::prelude::*;

verus! {

/// Writes keys and values of new tokens into a paged four-bit cache.
pub open spec fn reshape_and_cache_nvfp4_launch(
    kernel: KernelHandle, key: DevicePtr, value: DevicePtr, k_cache: DevicePtr, v_cache:
    DevicePtr, slot_mapping: DevicePtr, num_tokens: u32, num_kv_heads: u32, head_dim: u32,
    block_size: u32, key_stride: u32, value_stride: u32, block_stride_bytes: u64,
    data_section_bytes: u64,
) -> Launch {
    Launch {
        kernel,
        grid: Dim3 { x: num_tokens, y: 1, z: 1 },
        block: Dim3 { x: 256, y: 1, z: 1 },
        shared_mem: 0,
        args: seq![
            KernelArg::Ptr(key), KernelArg::Ptr(value), KernelArg::Ptr(k_cache),
            KernelArg::Ptr(v_cache), KernelArg::Ptr(slot_mapping), KernelArg::U32(num_kv_heads),
            KernelArg::U32(head_dim), KernelArg::U32(block_size), KernelArg::U32(key_stride),
            KernelArg::U32(value_stride), KernelArg::U64(block_stride_bytes),
            KernelArg::U64(data_section_bytes),
        ],
    }
}

/// Records the launch that [`reshape_and_cache_nvfp4_launch`] describes.
pub fn reshape_and_cache_nvfp4(
    cb: &mut CommandBuffer,
    kernel: KernelHandle, key: DevicePtr, value: DevicePtr, k_cache: DevicePtr, v_cache:
    DevicePtr, slot_mapping: DevicePtr, num_tokens: u32, num_kv_heads: u32, head_dim: u32,
    block_size: u32, key_stride: u32, value_stride: u32, block_stride_bytes: u64,
    data_section_bytes: u64,
)
    ensures
        final(cb)@ == old(cb)@.push(
            Cmd::Launch(
                reshape_and_cache_nvfp4_launch(
                    kernel, key, value, k_cache, v_cache, slot_mapping, num_tokens, num_kv_heads,
                    head_dim, block_size, key_stride, value_stride, block_stride_bytes,
                    data_section_bytes,
                ),
            ),
        ),
{
    let launch = KernelLaunch {
        kernel,
        grid: Dim3 { x: num_tokens, y: 1, z: 1 },
        block: Dim3 { x: 256, y: 1, z: 1 },
        shared_mem: 0,
        args: vec![
            KernelArg::Ptr(key), KernelArg::Ptr(value), KernelArg::Ptr(k_cache),
            KernelArg::Ptr(v_cache), KernelArg::Ptr(slot_mapping), KernelArg::U32(num_kv_heads),
            KernelArg::U32(head_dim), KernelArg::U32(block_size), KernelArg::U32(key_stride),
            KernelArg::U32(value_stride), KernelArg::U64(block_stride_bytes),
            KernelArg::U64(data_section_bytes),
        ],
    };
    assert(launch@ =~= reshape_and_cache_nvfp4_launch(
        kernel, key, value, k_cache, v_cache, slot_mapping, num_tokens, num_kv_heads, head_dim,
        block_size, key_stride, value_stride, block_stride_bytes, data_section_bytes,
    ));
    cb.launch(launch);
}

/// Decode attention over a paged four-bit cache, one block per head and sequence.
pub open spec fn paged_decode_attn_nvfp4_launch(
    kernel: KernelHandle, q: DevicePtr, k_cache: DevicePtr, v_cache: DevicePtr, output: DevicePtr,
    block_tables: DevicePtr, seq_lens: DevicePtr, max_blocks_per_seq: u32, num_seqs: u32,
    num_q_heads: u32, num_kv_heads: u32, head_dim: u32, block_size: u32, inv_sqrt_d: Scalar,
    q_stride: u32, block_stride_bytes: u64, data_section_bytes: u64,
) -> Launch {
    Launch {
        kernel,
        grid: Dim3 { x: num_q_heads, y: num_seqs, z: 1 },
        block: Dim3 { x: 256, y: 1, z: 1 },
        shared_mem: 0,
        args: seq![
            KernelArg::Ptr(q), KernelArg::Ptr(k_cache), KernelArg::Ptr(v_cache),
            KernelArg::Ptr(output), KernelArg::Ptr(block_tables), KernelArg::Ptr(seq_lens),
            KernelArg::U32(max_blocks_per_seq), KernelArg::U32(num_q_heads),
            KernelArg::U32(num_kv_heads), KernelArg::U32(head_dim), KernelArg::U32(block_size),
            KernelArg::Scalar(inv_sqrt_d), KernelArg::U32(q_stride),
            KernelArg::U64(block_stride_bytes), KernelArg::U64(data_section_bytes),
        ],
    }
}

/// Records the launch that [`paged_decode_attn_nvfp4_launch`] describes.
pub fn paged_decode_attn_nvfp4(
    cb: &mut CommandBuffer,
    kernel: KernelHandle, q: DevicePtr, k_cache: DevicePtr, v_cache: DevicePtr, output: DevicePtr,
    block_tables: DevicePtr, seq_lens: DevicePtr, max_blocks_per_seq: u32, num_seqs: u32,
    num_q_heads: u32, num_kv_heads: u32, head_dim: u32, block_size: u32, inv_sqrt_d: Scalar,
    q_stride: u32, block_stride_bytes: u64, data_section_bytes: u64,
)
    ensures
        final(cb)@ == old(cb)@.push(
            Cmd::Launch(
                paged_decode_attn_nvfp4_launch(
                    kernel, q, k_cache, v_cache, output, block_tables, seq_lens,
                    max_blocks_per_seq, num_seqs, num_q_heads, num_kv_heads, head_dim, block_size,
                    inv_sqrt_d, q_stride, block_stride_bytes, data_section_bytes,
                ),
            ),
        ),
{
    let launch = KernelLaunch {
        kernel,
        grid: Dim3 { x: num_q_heads, y: num_seqs, z: 1 },
        block: Dim3 { x: 256, y: 1, z: 1 },
        shared_mem: 0,
        args: vec![
            KernelArg::Ptr(q), KernelArg::Ptr(k_cache), KernelArg::Ptr(v_cache),
            KernelArg::Ptr(output), KernelArg::Ptr(block_tables), KernelArg::Ptr(seq_lens),
            KernelArg::U32(max_blocks_per_seq), KernelArg::U32(num_q_heads),
            KernelArg::U32(num_kv_heads), KernelArg::U32(head_dim), KernelArg::U32(block_size),
            KernelArg::Scalar(inv_sqrt_d), KernelArg::U32(q_stride),
            KernelArg::U64(block_stride_bytes), KernelArg::U64(data_section_bytes),
        ],
    };
    assert(launch@ =~= paged_decode_attn_nvfp4_launch(
        kernel, q, k_cache, v_cache, output, block_tables, seq_lens, max_blocks_per_seq, num_seqs,
        num_q_heads, num_kv_heads, head_dim, block_size, inv_sqrt_d, q_stride, block_stride_bytes,
        data_section_bytes,
    ));
    cb.launch(launch);
}

/// Decode attention over a four-bit cache with the sequence cut into splits.
pub open spec fn paged_decode_attn_splitk_nvfp4_launch(
    kernel: KernelHandle, q: DevicePtr, k_cache: DevicePtr, v_cache: DevicePtr, workspace:
    DevicePtr, block_tables: DevicePtr, seq_lens: DevicePtr, max_blocks_per_seq: u32, num_q_heads:
    u32, num_kv_heads: u32, head_dim: u32, block_size: u32, inv_sqrt_d: Scalar, num_splits: u32,
    q_stride: u32, block_stride_bytes: u64, data_section_bytes: u64, num_seqs: u32,
) -> Launch {
    Launch {
        kernel,
        grid: Dim3 { x: num_q_heads, y: num_splits, z: num_seqs },
        block: Dim3 { x: 256, y: 1, z: 1 },
        shared_mem: 0,
        args: seq![
            KernelArg::Ptr(q), KernelArg::Ptr(k_cache), KernelArg::Ptr(v_cache),
            KernelArg::Ptr(workspace), KernelArg::Ptr(block_tables), KernelArg::Ptr(seq_lens),
            KernelArg::U32(max_blocks_per_seq), KernelArg::U32(num_q_heads),
            KernelArg::U32(num_kv_heads), KernelArg::U32(head_dim), KernelArg::U32(block_size),
            KernelArg::Scalar(inv_sqrt_d), KernelArg::U32(num_splits), KernelArg::U32(q_stride),
            KernelArg::U64(block_stride_bytes), KernelArg::U64(data_section_bytes),
        ],
    }
}

/// Records the launch that [`paged_decode_attn_splitk_nvfp4_launch`] describes.
pub fn paged_decode_attn_splitk_nvfp4(
    cb: &mut CommandBuffer,
    kernel: KernelHandle, q: DevicePtr, k_cache: DevicePtr, v_cache: DevicePtr, workspace:
    DevicePtr, block_tables: DevicePtr, seq_lens: DevicePtr, max_blocks_per_seq: u32, num_q_heads:
    u32, num_kv_heads: u32, head_dim: u32, block_size: u32, inv_sqrt_d: Scalar, num_splits: u32,
    q_stride: u32, block_stride_bytes: u64, data_section_bytes: u64, num_seqs: u32,
)
    ensures
        final(cb)@ == old(cb)@.push(
            Cmd::Launch(
                paged_decode_attn_splitk_nvfp4_launch(
                    kernel, q, k_cache, v_cache, workspace, block_tables, seq_lens,
                    max_blocks_per_seq, num_q_heads, num_kv_heads, head_dim, block_size,
                    inv_sqrt_d, num_splits, q_stride, block_stride_bytes, data_section_bytes,
                    num_seqs,
                ),
            ),
        ),
{
    let launch = KernelLaunch {
        kernel,
        grid: Dim3 { x: num_q_heads, y: num_splits, z: num_seqs },
        block: Dim3 { x: 256, y: 1, z: 1 },
        shared_mem: 0,
        args: vec![
            KernelArg::Ptr(q), KernelArg::Ptr(k_cache), KernelArg::Ptr(v_cache),
            KernelArg::Ptr(workspace), KernelArg::Ptr(block_tables), KernelArg::Ptr(seq_lens),
            KernelArg::U32(max_blocks_per_seq), KernelArg::U32(num_q_heads),
            KernelArg::U32(num_kv_heads), KernelArg::U32(head_dim), KernelArg::U32(block_size),
            KernelArg::Scalar(inv_sqrt_d), KernelArg::U32(num_splits), KernelArg::U32(q_stride),
            KernelArg::U64(block_stride_bytes), KernelArg::U64(data_section_bytes),
        ],
    };
    assert(launch@ =~= paged_decode_attn_splitk_nvfp4_launch(
        kernel, q, k_cache, v_cache, workspace, block_tables, seq_lens, max_blocks_per_seq,
        num_q_heads, num_kv_heads, head_dim, block_size, inv_sqrt_d, num_splits, q_stride,
        block_stride_bytes, data_section_bytes, num_seqs,
    ));
    cb.launch(launch);
}

/// Combines the splits over a four-bit cache.
pub open spec fn paged_decode_attn_reduce_nvfp4_launch(
    kernel: KernelHandle, workspace: DevicePtr, output: DevicePtr, seq_lens: DevicePtr,
    num_q_heads: u32, head_dim: u32, num_splits: u32, num_seqs: u32,
) -> Launch {
    Launch {
        kernel,
        grid: Dim3 { x: num_q_heads, y: num_seqs, z: 1 },
        block: Dim3 { x: 32, y: 1, z: 1 },
        shared_mem: 0,
        args: seq![
            KernelArg::Ptr(workspace), KernelArg::Ptr(output), KernelArg::Ptr(seq_lens),
            KernelArg::U32(num_q_heads), KernelArg::U32(head_dim), KernelArg::U32(num_splits),
        ],
    }
}

/// Records the launch that [`paged_decode_attn_reduce_nvfp4_launch`] describes.
pub fn paged_decode_attn_reduce_nvfp4(
    cb: &mut CommandBuffer,
    kernel: KernelHandle, workspace: DevicePtr, output: DevicePtr, seq_lens: DevicePtr,
    num_q_heads: u32, head_dim: u32, num_splits: u32, num_seqs: u32,
)
    ensures
        final(cb)@ == old(cb)@.push(
            Cmd::Launch(
                paged_decode_attn_reduce_nvfp4_launch(
                    kernel, workspace, output, seq_lens, num_q_heads, head_dim, num_splits,
                    num_seqs,
                ),
            ),
        ),
{
    let launch = KernelLaunch {
        kernel,
        grid: Dim3 { x: num_q_heads, y: num_seqs, z: 1 },
        block: Dim3 { x: 32, y: 1, z: 1 },
        shared_mem: 0,
        args: vec![
            KernelArg::Ptr(workspace), KernelArg::Ptr(output), KernelArg::Ptr(seq_lens),
            KernelArg::U32(num_q_heads), KernelArg::U32(head_dim), KernelArg::U32(num_splits),
        ],
    };
    assert(launch@ =~= paged_decode_attn_reduce_nvfp4_launch(
        kernel, workspace, output, seq_lens, num_q_heads, head_dim, num_splits, num_seqs,
    ));
    cb.launch(launch);
}

/// Decode attention over an eight-bit cache with the sequence cut into splits.
pub open spec fn paged_decode_attn_splitk_fp8_launch(
    kernel: KernelHandle, q: DevicePtr, k_cache: DevicePtr, v_cache: DevicePtr, workspace:
    DevicePtr, block_tables: DevicePtr, seq_lens: DevicePtr, max_blocks_per_seq: u32, num_q_heads:
    u32, num_kv_heads: u32, head_dim: u32, block_size: u32, inv_sqrt_d: Scalar, num_splits: u32,
    k_scale: Scalar, v_scale: Scalar, q_stride: u32, cache_stride: u64, num_seqs: u32,
) -> Launch {
    Launch {
        kernel,
        grid: Dim3 { x: num_q_heads, y: num_splits, z: num_seqs },
        block: Dim3 { x: 256, y: 1, z: 1 },
        shared_mem: 0,
        args: seq![
            KernelArg::Ptr(q), KernelArg::Ptr(k_cache), KernelArg::Ptr(v_cache),
            KernelArg::Ptr(workspace), KernelArg::Ptr(block_tables), KernelArg::Ptr(seq_lens),
            KernelArg::U32(max_blocks_per_seq), KernelArg::U32(num_q_heads),
            KernelArg::U32(num_kv_heads), KernelArg::U32(head_dim), KernelArg::U32(block_size),
            KernelArg::Scalar(inv_sqrt_d), KernelArg::U32(num_splits), KernelArg::Scalar(k_scale),
            KernelArg::Scalar(v_scale), KernelArg::U32(q_stride), KernelArg::U64(cache_stride),
        ],
    }
}

/// Records the launch that [`paged_decode_attn_splitk_fp8_launch`] describes.
pub fn paged_decode_attn_splitk_fp8(
    cb: &mut CommandBuffer,
    kernel: KernelHandle, q: DevicePtr, k_cache: DevicePtr, v_cache: DevicePtr, workspace:
    DevicePtr, block_tables: DevicePtr, seq_lens: DevicePtr, max_blocks_per_seq: u32, num_q_heads:
    u32, num_kv_heads: u32, head_dim: u32, block_size: u32, inv_sqrt_d: Scalar, num_splits: u32,
    k_scale: Scalar, v_scale: Scalar, q_stride: u32, cache_stride: u64, num_seqs: u32,
)
    ensures
        final(cb)@ == old(cb)@.push(
            Cmd::Launch(
                paged_decode_attn_splitk_fp8_launch(
                    kernel, q, k_cache, v_cache, workspace, block_tables, seq_lens,
                    max_blocks_per_seq, num_q_heads, num_kv_heads, head_dim, block_size,
                    inv_sqrt_d, num_splits, k_scale, v_scale, q_stride, cache_stride, num_seqs,
                ),
            ),
        ),
{
    let launch = KernelLaunch {
        kernel,
        grid: Dim3 { x: num_q_heads, y: num_splits, z: num_seqs },
        block: Dim3 { x: 256, y: 1, z: 1 },
        shared_mem: 0,
        args: vec![
            KernelArg::Ptr(q), KernelArg::Ptr(k_cache), KernelArg::Ptr(v_cache),
            KernelArg::Ptr(workspace), KernelArg::Ptr(block_tables), KernelArg::Ptr(seq_lens),
            KernelArg::U32(max_blocks_per_seq), KernelArg::U32(num_q_heads),
            KernelArg::U32(num_kv_heads), KernelArg::U32(head_dim), KernelArg::U32(block_size),
            KernelArg::Scalar(inv_sqrt_d), KernelArg::U32(num_splits), KernelArg::Scalar(k_scale),
            KernelArg::Scalar(v_scale), KernelArg::U32(q_stride), KernelArg::U64(cache_stride),
        ],
    };
    assert(launch@ =~= paged_decode_attn_splitk_fp8_launch(
        kernel, q, k_cache, v_cache, workspace, block_tables, seq_lens, max_blocks_per_seq,
        num_q_heads, num_kv_heads, head_dim, block_size, inv_sqrt_d, num_splits, k_scale, v_scale,
        q_stride, cache_stride, num_seqs,
    ));
    cb.launch(launch);
}

/// Combines the splits over an eight-bit cache.
pub open spec fn paged_decode_attn_reduce_fp8_launch(
    kernel: KernelHandle, workspace: DevicePtr, output: DevicePtr, seq_lens: DevicePtr,
    num_q_heads: u32, head_dim: u32, num_splits: u32, num_seqs: u32,
) -> Launch {
    Launch {
        kernel,
        grid: Dim3 { x: num_q_heads, y: num_seqs, z: 1 },
        block: Dim3 { x: 32, y: 1, z: 1 },
        shared_mem: 0,
        args: seq![
            KernelArg::Ptr(workspace), KernelArg::Ptr(output), KernelArg::Ptr(seq_lens),
            KernelArg::U32(num_q_heads), KernelArg::U32(head_dim), KernelArg::U32(num_splits),
        ],
    }
}

/// Records the launch that [`paged_decode_attn_reduce_fp8_launch`] describes.
pub fn paged_decode_attn_reduce_fp8(
    cb: &mut CommandBuffer,
    kernel: KernelHandle, workspace: DevicePtr, output: DevicePtr, seq_lens: DevicePtr,
    num_q_heads: u32, head_dim: u32, num_splits: u32, num_seqs: u32,
)
    ensures
        final(cb)@ == old(cb)@.push(
            Cmd::Launch(
                paged_decode_attn_reduce_fp8_launch(
                    kernel, workspace, output, seq_lens, num_q_heads, head_dim, num_splits,
                    num_seqs,
                ),
            ),
        ),
{
    let launch = KernelLaunch {
        kernel,
        grid: Dim3 { x: num_q_heads, y: num_seqs, z: 1 },
        block: Dim3 { x: 32, y: 1, z: 1 },
        shared_mem: 0,
        args: vec![
            KernelArg::Ptr(workspace), KernelArg::Ptr(output), KernelArg::Ptr(seq_lens),
            KernelArg::U32(num_q_heads), KernelArg::U32(head_dim), KernelArg::U32(num_splits),
        ],
    };
    assert(launch@ =~= paged_decode_attn_reduce_fp8_launch(
        kernel, workspace, output, seq_lens, num_q_heads, head_dim, num_splits, num_seqs,
    ));
    cb.launch(launch);
}

/// Decode attention over a bfloat16 cache with the sequence cut into splits.
pub open spec fn paged_decode_attn_splitk_bf16_launch(
    kernel: KernelHandle, q: DevicePtr, k_cache: DevicePtr, v_cache: DevicePtr, workspace:
    DevicePtr, block_tables: DevicePtr, seq_lens: DevicePtr, max_blocks_per_seq: u32, num_q_heads:
    u32, num_kv_heads: u32, head_dim: u32, block_size: u32, inv_sqrt_d: Scalar, num_splits: u32,
    q_stride: u32, num_seqs: u32,
) -> Launch {
    Launch {
        kernel,
        grid: Dim3 { x: num_q_heads, y: num_splits, z: num_seqs },
        block: Dim3 { x: 256, y: 1, z: 1 },
        shared_mem: 0,
        args: seq![
            KernelArg::Ptr(q), KernelArg::Ptr(k_cache), KernelArg::Ptr(v_cache),
            KernelArg::Ptr(workspace), KernelArg::Ptr(block_tables), KernelArg::Ptr(seq_lens),
            KernelArg::U32(max_blocks_per_seq), KernelArg::U32(num_q_heads),
            KernelArg::U32(num_kv_heads), KernelArg::U32(head_dim), KernelArg::U32(block_size),
            KernelArg::Scalar(inv_sqrt_d), KernelArg::U32(num_splits), KernelArg::U32(q_stride),
        ],
    }
}

/// Records the launch that [`paged_decode_attn_splitk_bf16_launch`] describes.
pub fn paged_decode_attn_splitk_bf16(
    cb: &mut CommandBuffer,
    kernel: KernelHandle, q: DevicePtr, k_cache: DevicePtr, v_cache: DevicePtr, workspace:
    DevicePtr, block_tables: DevicePtr, seq_lens: DevicePtr, max_blocks_per_seq: u32, num_q_heads:
    u32, num_kv_heads: u32, head_dim: u32, block_size: u32, inv_sqrt_d: Scalar, num_splits: u32,
    q_stride: u32, num_seqs: u32,
)
    ensures
        final(cb)@ == old(cb)@.push(
            Cmd::Launch(
                paged_decode_attn_splitk_bf16_launch(
                    kernel, q, k_cache, v_cache, workspace, block_tables, seq_lens,
                    max_blocks_per_seq, num_q_heads, num_kv_heads, head_dim, block_size,
                    inv_sqrt_d, num_splits, q_stride, num_seqs,
                ),
            ),
        ),
{
    let launch = KernelLaunch {
        kernel,
        grid: Dim3 { x: num_q_heads, y: num_splits, z: num_seqs },
        block: Dim3 { x: 256, y: 1, z: 1 },
        shared_mem: 0,
        args: vec![
            KernelArg::Ptr(q), KernelArg::Ptr(k_cache), KernelArg::Ptr(v_cache),
            KernelArg::Ptr(workspace), KernelArg::Ptr(block_tables), KernelArg::Ptr(seq_lens),
            KernelArg::U32(max_blocks_per_seq), KernelArg::U32(num_q_heads),
            KernelArg::U32(num_kv_heads), KernelArg::U32(head_dim), KernelArg::U32(block_size),
            KernelArg::Scalar(inv_sqrt_d), KernelArg::U32(num_splits), KernelArg::U32(q_stride),
        ],
    };
    assert(launch@ =~= paged_decode_attn_splitk_bf16_launch(
        kernel, q, k_cache, v_cache, workspace, block_tables, seq_lens, max_blocks_per_seq,
        num_q_heads, num_kv_heads, head_dim, block_size, inv_sqrt_d, num_splits, q_stride,
        num_seqs,
    ));
    cb.launch(launch);
}

/// Combines the splits over a bfloat16 cache.
pub open spec fn paged_decode_attn_reduce_bf16_launch(
    kernel: KernelHandle, workspace: DevicePtr, output: DevicePtr, seq_lens: DevicePtr,
    num_q_heads: u32, head_dim: u32, num_splits: u32, num_seqs: u32,
) -> Launch {
    Launch {
        kernel,
        grid: Dim3 { x: num_q_heads, y: num_seqs, z: 1 },
        block: Dim3 { x: 32, y: 1, z: 1 },
        shared_mem: 0,
        args: seq![
            KernelArg::Ptr(workspace), KernelArg::Ptr(output), KernelArg::Ptr(seq_lens),
            KernelArg::U32(num_q_heads), KernelArg::U32(head_dim), KernelArg::U32(num_splits),
        ],
    }
}

/// Records the launch that [`paged_decode_attn_reduce_bf16_launch`] describes.
pub fn paged_decode_attn_reduce_bf16(
    cb: &mut CommandBuffer,
    kernel: KernelHandle, workspace: DevicePtr, output: DevicePtr, seq_lens: DevicePtr,
    num_q_heads: u32, head_dim: u32, num_splits: u32, num_seqs: u32,
)
    ensures
        final(cb)@ == old(cb)@.push(
            Cmd::Launch(
                paged_decode_attn_reduce_bf16_launch(
                    kernel, workspace, output, seq_lens, num_q_heads, head_dim, num_splits,
                    num_seqs,
                ),
            ),
        ),
{
    let launch = KernelLaunch {
        kernel,
        grid: Dim3 { x: num_q_heads, y: num_seqs, z: 1 },
        block: Dim3 { x: 32, y: 1, z: 1 },
        shared_mem: 0,
        args: vec![
            KernelArg::Ptr(workspace), KernelArg::Ptr(output), KernelArg::Ptr(seq_lens),
            KernelArg::U32(num_q_heads), KernelArg::U32(head_dim), KernelArg::U32(num_splits),
        ],
    };
    assert(launch@ =~= paged_decode_attn_reduce_bf16_launch(
        kernel, workspace, output, seq_lens, num_q_heads, head_dim, num_splits, num_seqs,
    ));
    cb.launch(launch);
}

/// Decode attention with all query heads of a key head in one block.
pub open spec fn paged_decode_attn_gqa_mma_launch(
    kernel: KernelHandle, q: DevicePtr, k_cache: DevicePtr, v_cache: DevicePtr, output: DevicePtr,
    block_tables: DevicePtr, seq_lens: DevicePtr, max_blocks_per_seq: u32, num_seqs: u32,
    num_q_heads: u32, num_kv_heads: u32, head_dim: u32, block_size: u32, inv_sqrt_d: Scalar,
    q_stride: u32, sliding_window: u32,
) -> Launch {
    Launch {
        kernel,
        grid: Dim3 { x: num_kv_heads, y: 1, z: num_seqs },
        block: Dim3 { x: 128, y: 1, z: 1 },
        shared_mem: 0,
        args: seq![
            KernelArg::Ptr(q), KernelArg::Ptr(k_cache), KernelArg::Ptr(v_cache),
            KernelArg::Ptr(output), KernelArg::Ptr(block_tables), KernelArg::Ptr(seq_lens),
            KernelArg::U32(max_blocks_per_seq), KernelArg::U32(num_q_heads),
            KernelArg::U32(num_kv_heads), KernelArg::U32(head_dim), KernelArg::U32(block_size),
            KernelArg::Scalar(inv_sqrt_d), KernelArg::U32(q_stride),
            KernelArg::U32(sliding_window),
        ],
    }
}

/// Records the launch that [`paged_decode_attn_gqa_mma_launch`] describes.
pub fn paged_decode_attn_gqa_mma(
    cb: &mut CommandBuffer,
    kernel: KernelHandle, q: DevicePtr, k_cache: DevicePtr, v_cache: DevicePtr, output: DevicePtr,
    block_tables: DevicePtr, seq_lens: DevicePtr, max_blocks_per_seq: u32, num_seqs: u32,
    num_q_heads: u32, num_kv_heads: u32, head_dim: u32, block_size: u32, inv_sqrt_d: Scalar,
    q_stride: u32, sliding_window: u32,
)
    ensures
        final(cb)@ == old(cb)@.push(
            Cmd::Launch(
                paged_decode_attn_gqa_mma_launch(
                    kernel, q, k_cache, v_cache, output, block_tables, seq_lens,
                    max_blocks_per_seq, num_seqs, num_q_heads, num_kv_heads, head_dim, block_size,
                    inv_sqrt_d, q_stride, sliding_window,
                ),
            ),
        ),
{
    let launch = KernelLaunch {
        kernel,
        grid: Dim3 { x: num_kv_heads, y: 1, z: num_seqs },
        block: Dim3 { x: 128, y: 1, z: 1 },
        shared_mem: 0,
        args: vec![
            KernelArg::Ptr(q), KernelArg::Ptr(k_cache), KernelArg::Ptr(v_cache),
            KernelArg::Ptr(output), KernelArg::Ptr(block_tables), KernelArg::Ptr(seq_lens),
            KernelArg::U32(max_blocks_per_seq), KernelArg::U32(num_q_heads),
            KernelArg::U32(num_kv_heads), KernelArg::U32(head_dim), KernelArg::U32(block_size),
            KernelArg::Scalar(inv_sqrt_d), KernelArg::U32(q_stride),
            KernelArg::U32(sliding_window),
        ],
    };
    assert(launch@ =~= paged_decode_attn_gqa_mma_launch(
        kernel, q, k_cache, v_cache, output, block_tables, seq_lens, max_blocks_per_seq, num_seqs,
        num_q_heads, num_kv_heads, head_dim, block_size, inv_sqrt_d, q_stride, sliding_window,
    ));
    cb.launch(launch);
}

/// Blocks of the largest-magnitude scan: one per 512 elements, at most 256.
pub open spec fn absmax_blocks(n_elems: u32) -> u32 {
    let blocks = ceil_div(n_elems as int, 512);
    if blocks > 256 {
        256
    } else {
        blocks as u32
    }
}

/// Raises `out_max` to the largest magnitude in `data`.
pub open spec fn bf16_absmax_launch(
    kernel: KernelHandle, data: DevicePtr, out_max: DevicePtr, n_elems: u32,
) -> Launch {
    Launch {
        kernel,
        grid: Dim3 { x: absmax_blocks(n_elems), y: 1, z: 1 },
        block: Dim3 { x: 256, y: 1, z: 1 },
        shared_mem: 0,
        args: seq![KernelArg::Ptr(data), KernelArg::Ptr(out_max), KernelArg::U32(n_elems)],
    }
}

/// Records the launch that [`bf16_absmax_launch`] describes.
pub fn bf16_absmax(
    cb: &mut CommandBuffer,
    kernel: KernelHandle, data: DevicePtr, out_max: DevicePtr, n_elems: u32,
)
    ensures
        final(cb)@ == old(cb)@.push(
            Cmd::Launch(bf16_absmax_launch(kernel, data, out_max, n_elems)),
        ),
{
    let blocks: u32 = div_ceil_u32(n_elems, 512);
    let launch = KernelLaunch {
        kernel,
        grid: Dim3 {
            x: if blocks > 256 {
                256
            } else {
                blocks
            },
            y: 1,
            z: 1,
        },
        block: Dim3 { x: 256, y: 1, z: 1 },
        shared_mem: 0,
        args: vec![KernelArg::Ptr(data), KernelArg::Ptr(out_max), KernelArg::U32(n_elems)],
    };
    assert(launch@ =~= bf16_absmax_launch(kernel, data, out_max, n_elems));
    cb.launch(launch);
}

} // verus!
