//! Launches of block-quantised matrix products.
use crate::device::{Cmd, CommandBuffer, DevicePtr, Dim3, KernelArg, KernelHandle, KernelLaunch, Launch, Scalar};
use crate::num::{ceil_div, div_ceil_u32};
use vstd::prelude::*;

verus! {

/// Expands `n_blocks` six-bit blocks of 210 bytes to bfloat16, one block each.
pub open spec fn dequant_q6k_into_launch(
    kernel: KernelHandle, blocks: DevicePtr, out: DevicePtr, n_blocks: u32,
) -> Launch {
    Launch {
        kernel,
        grid: Dim3 { x: n_blocks, y: 1, z: 1 },
        block: Dim3 { x: 256, y: 1, z: 1 },
        shared_mem: 0,
        args: seq![
            KernelArg::Ptr(blocks), KernelArg::Ptr(out), KernelArg::U32(n_blocks),
            KernelArg::U32(210),
        ],
    }
}

/// Records the launch that [`dequant_q6k_into_launch`] describes.
pub fn dequant_q6k_into(
    cb: &mut CommandBuffer,
    kernel: KernelHandle, blocks: DevicePtr, out: DevicePtr, n_blocks: u32,
)
    ensures
        final(cb)@ == old(cb)@.push(
            Cmd::Launch(
                dequant_q6k_into_launch(
                    kernel, blocks, out, n_blocks,
                ),
            ),
        ),
{
    let launch = KernelLaunch {
        kernel,
        grid: Dim3 { x: n_blocks, y: 1, z: 1 },
        block: Dim3 { x: 256, y: 1, z: 1 },
        shared_mem: 0,
        args: vec![
            KernelArg::Ptr(blocks), KernelArg::Ptr(out), KernelArg::U32(n_blocks),
            KernelArg::U32(210),
        ],
    };
    assert(launch@ =~= dequant_q6k_into_launch(
        kernel, blocks, out, n_blocks,
    ));
    cb.launch(launch);
}

/// Expands an `[n, k]` four-bit weight to bfloat16, one block per row.
pub open spec fn dequant_nvfp4_to_bf16_launch(
    kernel: KernelHandle, packed: DevicePtr, scales: DevicePtr, out_bf16: DevicePtr, scale2:
    Scalar, n: u32, k: u32,
) -> Launch {
    Launch {
        kernel,
        grid: Dim3 { x: n, y: 1, z: 1 },
        block: Dim3 { x: 256, y: 1, z: 1 },
        shared_mem: 0,
        args: seq![
            KernelArg::Ptr(packed), KernelArg::Ptr(scales), KernelArg::Ptr(out_bf16),
            KernelArg::Scalar(scale2), KernelArg::U32(n), KernelArg::U32(k),
        ],
    }
}

/// Records the launch that [`dequant_nvfp4_to_bf16_launch`] describes.
pub fn dequant_nvfp4_to_bf16(
    cb: &mut CommandBuffer,
    kernel: KernelHandle, packed: DevicePtr, scales: DevicePtr, out_bf16: DevicePtr, scale2:
    Scalar, n: u32, k: u32,
)
    ensures
        final(cb)@ == old(cb)@.push(
            Cmd::Launch(
                dequant_nvfp4_to_bf16_launch(
                    kernel, packed, scales, out_bf16, scale2, n, k,
                ),
            ),
        ),
{
    let launch = KernelLaunch {
        kernel,
        grid: Dim3 { x: n, y: 1, z: 1 },
        block: Dim3 { x: 256, y: 1, z: 1 },
        shared_mem: 0,
        args: vec![
            KernelArg::Ptr(packed), KernelArg::Ptr(scales), KernelArg::Ptr(out_bf16),
            KernelArg::Scalar(scale2), KernelArg::U32(n), KernelArg::U32(k),
        ],
    };
    assert(launch@ =~= dequant_nvfp4_to_bf16_launch(
        kernel, packed, scales, out_bf16, scale2, n, k,
    ));
    cb.launch(launch);
}

/// Values per four-bit block.
pub const QK_K: u32 = 256;

/// Bytes per four-bit block.
pub const Q4K_BLOCK_BYTES: usize = 144;

/// Dynamic shared memory of the matrix kernel with 128 by 128 tiles.
pub const Q4K_MMQ_SMEM: u32 = 57856;

/// Threads per block of the activation quantiser.
pub const QUANTIZE_BLOCK: u32 = 128;

/// Bytes of the block-quantised form of an `[nrows, n_per_row]` weight.
pub fn q4k_weight_bytes(nrows: u32, n_per_row: u32) -> (r: usize)
    requires
        nrows * (n_per_row as int / 256) * 144 <= usize::MAX,
    ensures
        r == nrows * (n_per_row as int / 256) * 144,
{
    let blocks: usize = n_per_row as usize / QK_K as usize;
    proof {
        let a = nrows as int;
        let b = blocks as int;
        assert(0 <= a * b <= a * b * 144) by (nonlinear_arith)
            requires
                0 <= a,
                0 <= b,
        ;
    }
    (nrows as usize) * blocks * Q4K_BLOCK_BYTES
}

/// `k` rounded up to whole blocks.
pub open spec fn padded_k(k: u32) -> int {
    ceil_div(k as int, 256) * 256
}

fn pad_k(k: u32) -> (r: u32)
    requires
        padded_k(k) <= u32::MAX,
    ensures
        r == padded_k(k),
{
    div_ceil_u32(k, QK_K) * QK_K
}

/// Bytes of scratch for quantised `[m, k]` activations: four per padded value
/// and one mebibyte of slack.
pub fn q8_1_scratch_bytes(m: u32, k: u32) -> (r: usize)
    requires
        padded_k(k) <= u32::MAX,
        m * padded_k(k) * 4 + 0x10_0000 <= usize::MAX,
    ensures
        r == m * padded_k(k) * 4 + 0x10_0000,
{
    let kpad: u32 = pad_k(k);
    proof {
        let a = m as int;
        let b = kpad as int;
        assert(0 <= a * b <= a * b * 4) by (nonlinear_arith)
            requires
                0 <= a,
                0 <= b,
        ;
    }
    (m as usize) * (kpad as usize) * 4 + 0x10_0000
}

/// Quantises a bfloat16 weight into four-bit blocks, 128 blocks per thread block.
pub open spec fn quantize_weight_q4k_launch(
    kernel: KernelHandle, input_bf16: DevicePtr, out_q4k: DevicePtr, nrows: u32, n_per_row: u32,
) -> Launch {
    Launch {
        kernel,
        grid: Dim3 {
            x: ceil_div((nrows * (n_per_row as int / 256)) as u32 as int, 128) as u32,
            y: 1,
            z: 1,
        },
        block: Dim3 { x: 128, y: 1, z: 1 },
        shared_mem: 0,
        args: seq![
            KernelArg::Ptr(input_bf16), KernelArg::Ptr(out_q4k), KernelArg::U32(nrows),
            KernelArg::U32(n_per_row),
        ],
    }
}

/// Records the launch that [`quantize_weight_q4k_launch`] describes.
pub fn quantize_weight_q4k(
    cb: &mut CommandBuffer,
    kernel: KernelHandle, input_bf16: DevicePtr, out_q4k: DevicePtr, nrows: u32, n_per_row: u32,
)
    ensures
        final(cb)@ == old(cb)@.push(
            Cmd::Launch(
                quantize_weight_q4k_launch(kernel, input_bf16, out_q4k, nrows, n_per_row),
            ),
        ),
{
    let per_row: u64 = n_per_row as u64 / QK_K as u64;
    proof {
        let a = nrows as int;
        let b = per_row as int;
        assert(0 <= a * b <= 0xffff_ffff * 0xffff_ffff) by (nonlinear_arith)
            requires
                0 <= a <= 0xffff_ffff,
                0 <= b <= 0xffff_ffff,
        ;
    }
    let total: u64 = (nrows as u64) * per_row;
    let launch = KernelLaunch {
        kernel,
        grid: Dim3 { x: div_ceil_u32(total as u32, 128), y: 1, z: 1 },
        block: Dim3 { x: 128, y: 1, z: 1 },
        shared_mem: 0,
        args: vec![
            KernelArg::Ptr(input_bf16), KernelArg::Ptr(out_q4k), KernelArg::U32(nrows),
            KernelArg::U32(n_per_row),
        ],
    };
    assert(launch@ =~= quantize_weight_q4k_launch(kernel, input_bf16, out_q4k, nrows, n_per_row));
    cb.launch(launch);
}

/// Quantises `[m, k]` activations, four values per thread along the padded rows.
pub open spec fn quantize_act_q8_1_launch(
    kernel: KernelHandle, input_bf16: DevicePtr, out_q8: DevicePtr, m: u32, k: u32,
) -> Launch {
    Launch {
        kernel,
        grid: Dim3 { x: m, y: ceil_div(padded_k(k), 512) as u32, z: 1 },
        block: Dim3 { x: QUANTIZE_BLOCK, y: 1, z: 1 },
        shared_mem: 0,
        args: seq![
            KernelArg::Ptr(input_bf16), KernelArg::Ptr(out_q8), KernelArg::U64(k as u64),
            KernelArg::U64(k as u64), KernelArg::U64(padded_k(k) as u64), KernelArg::U32(m),
        ],
    }
}

/// Records the launch that [`quantize_act_q8_1_launch`] describes.
pub fn quantize_act_q8_1(
    cb: &mut CommandBuffer,
    kernel: KernelHandle, input_bf16: DevicePtr, out_q8: DevicePtr, m: u32, k: u32,
)
    requires
        padded_k(k) <= u32::MAX,
    ensures
        final(cb)@ == old(cb)@.push(
            Cmd::Launch(quantize_act_q8_1_launch(kernel, input_bf16, out_q8, m, k)),
        ),
{
    let kpad: u32 = pad_k(k);
    let launch = KernelLaunch {
        kernel,
        grid: Dim3 { x: m, y: div_ceil_u32(kpad, 4 * QUANTIZE_BLOCK), z: 1 },
        block: Dim3 { x: QUANTIZE_BLOCK, y: 1, z: 1 },
        shared_mem: 0,
        args: vec![
            KernelArg::Ptr(input_bf16), KernelArg::Ptr(out_q8), KernelArg::U64(k as u64),
            KernelArg::U64(k as u64), KernelArg::U64(kpad as u64), KernelArg::U32(m),
        ],
    };
    assert(launch@ =~= quantize_act_q8_1_launch(kernel, input_bf16, out_q8, m, k));
    cb.launch(launch);
}

/// Kernel of a grouped product: the unchecked one only for whole column tiles.
/// Ragged rows are handled per expert inside either.
pub open spec fn grouped_kernel(nc: KernelHandle, wc: KernelHandle, n_out: u32) -> KernelHandle {
    if n_out % 128 == 0 {
        nc
    } else {
        wc
    }
}

/// Grouped product of sorted activations with a contiguous stack of experts.
pub open spec fn q4k_grouped_gemm_launch(
    kernel_nc: KernelHandle, kernel_wc: KernelHandle, weight_base: DevicePtr, a_q8: DevicePtr,
    expert_offsets: DevicePtr, dst_bf16: DevicePtr, n_out: u32, k: u32, num_experts: u32,
    total_expanded: u32,
) -> Launch {
    Launch {
        kernel: grouped_kernel(kernel_nc, kernel_wc, n_out),
        grid: Dim3 {
            x: ceil_div(n_out as int, 128) as u32,
            y: ceil_div(total_expanded as int, 128) as u32,
            z: num_experts,
        },
        block: Dim3 { x: 32, y: 8, z: 1 },
        shared_mem: Q4K_MMQ_SMEM,
        args: seq![
            KernelArg::Ptr(weight_base), KernelArg::Ptr(a_q8), KernelArg::Ptr(expert_offsets),
            KernelArg::Ptr(dst_bf16), KernelArg::U32(n_out), KernelArg::U32(k),
            KernelArg::U32(k / 256), KernelArg::U32((n_out * (k / 256)) as u32),
            KernelArg::U32(total_expanded), KernelArg::U32(n_out),
        ],
    }
}

/// Records the launch that [`q4k_grouped_gemm_launch`] describes.
pub fn q4k_grouped_gemm(
    cb: &mut CommandBuffer,
    kernel_nc: KernelHandle, kernel_wc: KernelHandle, weight_base: DevicePtr, a_q8: DevicePtr,
    expert_offsets: DevicePtr, dst_bf16: DevicePtr, n_out: u32, k: u32, num_experts: u32,
    total_expanded: u32,
)
    requires
        n_out * (k / 256) <= u32::MAX,
    ensures
        final(cb)@ == old(cb)@.push(
            Cmd::Launch(
                q4k_grouped_gemm_launch(
                    kernel_nc, kernel_wc, weight_base, a_q8, expert_offsets, dst_bf16, n_out, k,
                    num_experts, total_expanded,
                ),
            ),
        ),
{
    let kernel: KernelHandle = if n_out % 128 == 0 {
        kernel_nc
    } else {
        kernel_wc
    };
    let stride_row: u32 = k / QK_K;
    let launch = KernelLaunch {
        kernel,
        grid: Dim3 {
            x: div_ceil_u32(n_out, 128),
            y: div_ceil_u32(total_expanded, 128),
            z: num_experts,
        },
        block: Dim3 { x: 32, y: 8, z: 1 },
        shared_mem: Q4K_MMQ_SMEM,
        args: vec![
            KernelArg::Ptr(weight_base), KernelArg::Ptr(a_q8), KernelArg::Ptr(expert_offsets),
            KernelArg::Ptr(dst_bf16), KernelArg::U32(n_out), KernelArg::U32(k),
            KernelArg::U32(stride_row), KernelArg::U32(n_out * stride_row),
            KernelArg::U32(total_expanded), KernelArg::U32(n_out),
        ],
    };
    assert(launch@ =~= q4k_grouped_gemm_launch(
        kernel_nc, kernel_wc, weight_base, a_q8, expert_offsets, dst_bf16, n_out, k, num_experts,
        total_expanded,
    ));
    cb.launch(launch);
}

/// Grouped gate and up products in one launch on the grid of a single one.
pub open spec fn q4k_grouped_gemm_gate_up_launch(
    kernel_nc: KernelHandle, kernel_wc: KernelHandle, gate_base: DevicePtr, up_base: DevicePtr,
    a_q8: DevicePtr, expert_offsets: DevicePtr, gate_out: DevicePtr, up_out: DevicePtr, n_out: u32,
    k: u32, num_experts: u32, total_expanded: u32,
) -> Launch {
    Launch {
        kernel: grouped_kernel(kernel_nc, kernel_wc, n_out),
        grid: Dim3 {
            x: ceil_div(n_out as int, 128) as u32,
            y: ceil_div(total_expanded as int, 128) as u32,
            z: num_experts,
        },
        block: Dim3 { x: 32, y: 8, z: 1 },
        shared_mem: Q4K_MMQ_SMEM,
        args: seq![
            KernelArg::Ptr(gate_base), KernelArg::Ptr(up_base), KernelArg::Ptr(a_q8),
            KernelArg::Ptr(expert_offsets), KernelArg::Ptr(gate_out), KernelArg::Ptr(up_out),
            KernelArg::U32(n_out), KernelArg::U32(k), KernelArg::U32(k / 256),
            KernelArg::U32((n_out * (k / 256)) as u32), KernelArg::U32(total_expanded),
            KernelArg::U32(n_out),
        ],
    }
}

/// Records the launch that [`q4k_grouped_gemm_gate_up_launch`] describes.
pub fn q4k_grouped_gemm_gate_up(
    cb: &mut CommandBuffer,
    kernel_nc: KernelHandle, kernel_wc: KernelHandle, gate_base: DevicePtr, up_base: DevicePtr,
    a_q8: DevicePtr, expert_offsets: DevicePtr, gate_out: DevicePtr, up_out: DevicePtr, n_out: u32,
    k: u32, num_experts: u32, total_expanded: u32,
)
    requires
        n_out * (k / 256) <= u32::MAX,
    ensures
        final(cb)@ == old(cb)@.push(
            Cmd::Launch(
                q4k_grouped_gemm_gate_up_launch(
                    kernel_nc, kernel_wc, gate_base, up_base, a_q8, expert_offsets, gate_out, up_out,
                    n_out, k, num_experts, total_expanded,
                ),
            ),
        ),
{
    let kernel: KernelHandle = if n_out % 128 == 0 {
        kernel_nc
    } else {
        kernel_wc
    };
    let stride_row: u32 = k / QK_K;
    let launch = KernelLaunch {
        kernel,
        grid: Dim3 {
            x: div_ceil_u32(n_out, 128),
            y: div_ceil_u32(total_expanded, 128),
            z: num_experts,
        },
        block: Dim3 { x: 32, y: 8, z: 1 },
        shared_mem: Q4K_MMQ_SMEM,
        args: vec![
            KernelArg::Ptr(gate_base), KernelArg::Ptr(up_base), KernelArg::Ptr(a_q8),
            KernelArg::Ptr(expert_offsets), KernelArg::Ptr(gate_out), KernelArg::Ptr(up_out),
            KernelArg::U32(n_out), KernelArg::U32(k), KernelArg::U32(stride_row),
            KernelArg::U32(n_out * stride_row), KernelArg::U32(total_expanded),
            KernelArg::U32(n_out),
        ],
    };
    assert(launch@ =~= q4k_grouped_gemm_gate_up_launch(
        kernel_nc, kernel_wc, gate_base, up_base, a_q8, expert_offsets, gate_out, up_out, n_out, k,
        num_experts, total_expanded,
    ));
    cb.launch(launch);
}

/// Kernel of a plain product: the unchecked one only where both dimensions
/// consist of whole tiles.
pub open spec fn mmq_kernel(nc: KernelHandle, wc: KernelHandle, m: u32, n: u32) -> KernelHandle {
    if n % 128 != 0 || m % 128 != 0 {
        wc
    } else {
        nc
    }
}

/// Product of quantised activations with a block-quantised weight.
pub open spec fn q4k_mmq_gemm_launch(
    kernel_nc: KernelHandle, kernel_wc: KernelHandle, a_q8: DevicePtr, w_q4k: DevicePtr,
    out_bf16: DevicePtr, m: u32, n: u32, k: u32,
) -> Launch {
    Launch {
        kernel: mmq_kernel(kernel_nc, kernel_wc, m, n),
        grid: Dim3 {
            x: ceil_div(n as int, 128) as u32,
            y: ceil_div(m as int, 128) as u32,
            z: 1,
        },
        block: Dim3 { x: 32, y: 8, z: 1 },
        shared_mem: Q4K_MMQ_SMEM,
        args: seq![
            KernelArg::Ptr(w_q4k), KernelArg::Ptr(a_q8), KernelArg::Ptr(out_bf16), KernelArg::U32(n),
            KernelArg::U32(m), KernelArg::U32(k), KernelArg::U32(k / 256), KernelArg::U32(m),
            KernelArg::U32(n),
        ],
    }
}

/// Records the launch that [`q4k_mmq_gemm_launch`] describes.
pub fn q4k_mmq_gemm(
    cb: &mut CommandBuffer,
    kernel_nc: KernelHandle, kernel_wc: KernelHandle, a_q8: DevicePtr, w_q4k: DevicePtr,
    out_bf16: DevicePtr, m: u32, n: u32, k: u32,
)
    ensures
        final(cb)@ == old(cb)@.push(
            Cmd::Launch(
                q4k_mmq_gemm_launch(kernel_nc, kernel_wc, a_q8, w_q4k, out_bf16, m, n, k),
            ),
        ),
{
    let kernel: KernelHandle = if n % 128 != 0 || m % 128 != 0 {
        kernel_wc
    } else {
        kernel_nc
    };
    let launch = KernelLaunch {
        kernel,
        grid: Dim3 { x: div_ceil_u32(n, 128), y: div_ceil_u32(m, 128), z: 1 },
        block: Dim3 { x: 32, y: 8, z: 1 },
        shared_mem: Q4K_MMQ_SMEM,
        args: vec![
            KernelArg::Ptr(w_q4k), KernelArg::Ptr(a_q8), KernelArg::Ptr(out_bf16), KernelArg::U32(n),
            KernelArg::U32(m), KernelArg::U32(k), KernelArg::U32(k / QK_K), KernelArg::U32(m),
            KernelArg::U32(n),
        ],
    };
    assert(launch@ =~= q4k_mmq_gemm_launch(kernel_nc, kernel_wc, a_q8, w_q4k, out_bf16, m, n, k));
    cb.launch(launch);
}

/// The unchecked kernel runs only where no tile is ragged, so it never writes
/// past its output.
pub proof fn law_ragged_tiles_are_checked(nc: KernelHandle, wc: KernelHandle, m: u32, n: u32)
    requires
        nc != wc,
        mmq_kernel(nc, wc, m, n) == nc,
    ensures
        ceil_div(m as int, 128) * 128 == m,
        ceil_div(n as int, 128) * 128 == n,
{
}

} // verus!
