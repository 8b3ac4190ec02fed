//! Launches of kernels that read packed checkpoint blocks as they are.
use crate::device::{Cmd, CommandBuffer, DevicePtr, Dim3, KernelArg, KernelHandle, KernelLaunch, Launch};
use crate::num::{ceil_div, div_ceil_u32};
use crate::weights::{PackedQ4Weight, PackedQ8Weight};
use vstd::prelude::*;

verus! {

/// Values per four-bit block.
pub const Q4_K_VALUES: u32 = 256;

/// Bytes per four-bit block.
pub const Q4_K_BLOCK_BYTES: u64 = 144;

/// Values per eight-bit block.
pub const Q8_0_VALUES: u32 = 32;

/// Why a packed weight cannot be launched on.
#[derive(Debug, Clone, Copy, PartialEq, Eq, Structural)]
pub enum GgufError {
    /// A row is not made of whole blocks.
    PartialBlock { k: u32 },
    /// Experts are closer together than one expert is long.
    StrideTooSmall { stride: u64, matrix: u64 },
    NoExperts,
}

/// Matrix-vector product with a four-bit weight, four rows per block.
pub open spec fn gguf_q4_k_gemv_launch(
    kernel: KernelHandle,
    input: DevicePtr,
    weight: PackedQ4Weight,
    output: DevicePtr,
) -> Launch {
    Launch {
        kernel,
        grid: Dim3 { x: ceil_div(weight.n as int, 4) as u32, y: 1, z: 1 },
        block: Dim3 { x: 128, y: 1, z: 1 },
        shared_mem: 0,
        args: seq![
            KernelArg::Ptr(input), KernelArg::Ptr(weight.weight), KernelArg::Ptr(output),
            KernelArg::U32(weight.n), KernelArg::U32(weight.k),
        ],
    }
}

/// Records the launch that [`gguf_q4_k_gemv_launch`] describes, for whole blocks.
pub fn gguf_q4_k_gemv(
    cb: &mut CommandBuffer,
    kernel: KernelHandle,
    input: DevicePtr,
    weight: &PackedQ4Weight,
    output: DevicePtr,
) -> (r: Result<(), GgufError>)
    ensures
        weight.k % 256 != 0 ==> r == Err::<(), GgufError>(GgufError::PartialBlock { k: weight.k })
            && final(cb)@ == old(cb)@,
        weight.k % 256 == 0 ==> r is Ok && final(cb)@ == old(cb)@.push(
            Cmd::Launch(gguf_q4_k_gemv_launch(kernel, input, *weight, output)),
        ),
{
    if weight.k % Q4_K_VALUES != 0 {
        return Err(GgufError::PartialBlock { k: weight.k });
    }
    let launch = KernelLaunch {
        kernel,
        grid: Dim3 { x: div_ceil_u32(weight.n, 4), y: 1, z: 1 },
        block: Dim3 { x: 128, y: 1, z: 1 },
        shared_mem: 0,
        args: vec![
            KernelArg::Ptr(input), KernelArg::Ptr(weight.weight), KernelArg::Ptr(output),
            KernelArg::U32(weight.n), KernelArg::U32(weight.k),
        ],
    };
    assert(launch@ =~= gguf_q4_k_gemv_launch(kernel, input, *weight, output));
    cb.launch(launch);
    Ok(())
}

/// Bytes of one `[n, k]` expert.
pub open spec fn expert_matrix_bytes(n: u32, k: u32) -> int {
    n * (k as int / 256) * 144
}

/// Product of every slot's row with the expert that its id names.
pub open spec fn gguf_q4_k_grouped_gemm_launch(
    kernel: KernelHandle,
    input: DevicePtr,
    expert_base: DevicePtr,
    expert_stride_bytes: u64,
    expert_ids: DevicePtr,
    output: DevicePtr,
    total_slots: u32,
    n: u32,
    k: u32,
    num_experts: u32,
) -> Launch {
    Launch {
        kernel,
        grid: Dim3 { x: total_slots, y: ceil_div(n as int, 4) as u32, z: 1 },
        block: Dim3 { x: 128, y: 1, z: 1 },
        shared_mem: 0,
        args: seq![
            KernelArg::Ptr(input), KernelArg::Ptr(expert_base), KernelArg::Ptr(expert_ids),
            KernelArg::Ptr(output), KernelArg::U32(total_slots), KernelArg::U32(n),
            KernelArg::U32(k), KernelArg::U32(num_experts), KernelArg::U64(expert_stride_bytes),
        ],
    }
}

/// First reason to refuse a stack of experts.
pub open spec fn grouped_refusal(stride: u64, n: u32, k: u32, num_experts: u32) -> Option<GgufError> {
    if k % 256 != 0 {
        Some(GgufError::PartialBlock { k })
    } else if stride < expert_matrix_bytes(n, k) {
        Some(GgufError::StrideTooSmall { stride, matrix: expert_matrix_bytes(n, k) as u64 })
    } else if num_experts == 0 {
        Some(GgufError::NoExperts)
    } else {
        None
    }
}

/// Records the launch that [`gguf_q4_k_grouped_gemm_launch`] describes, unless
/// the stack is refused. Gate, up and down projections all use it.
pub fn gguf_q4_k_grouped_gemm(
    cb: &mut CommandBuffer,
    kernel: KernelHandle,
    input: DevicePtr,
    expert_base: DevicePtr,
    expert_stride_bytes: u64,
    expert_ids: DevicePtr,
    output: DevicePtr,
    total_slots: u32,
    n: u32,
    k: u32,
    num_experts: u32,
) -> (r: Result<(), GgufError>)
    ensures
        match grouped_refusal(expert_stride_bytes, n, k, num_experts) {
            Some(e) => r == Err::<(), GgufError>(e) && final(cb)@ == old(cb)@,
            None => r is Ok && final(cb)@ == old(cb)@.push(
                Cmd::Launch(
                    gguf_q4_k_grouped_gemm_launch(
                        kernel, input, expert_base, expert_stride_bytes, expert_ids, output,
                        total_slots, n, k, num_experts,
                    ),
                ),
            ),
        },
{
    if k % Q4_K_VALUES != 0 {
        return Err(GgufError::PartialBlock { k });
    }
    let blocks: u64 = (k / Q4_K_VALUES) as u64;
    proof {
        let a = n as int;
        let b = blocks as int;
        assert(0 <= a * b <= 0xffff_ffff * 0xff_ffff) by (nonlinear_arith)
            requires
                0 <= a <= 0xffff_ffff,
                0 <= b <= 0xff_ffff,
        ;
    }
    let matrix: u64 = (n as u64) * blocks * Q4_K_BLOCK_BYTES;
    if expert_stride_bytes < matrix {
        return Err(GgufError::StrideTooSmall { stride: expert_stride_bytes, matrix });
    }
    if num_experts == 0 {
        return Err(GgufError::NoExperts);
    }
    let launch = KernelLaunch {
        kernel,
        grid: Dim3 { x: total_slots, y: div_ceil_u32(n, 4), z: 1 },
        block: Dim3 { x: 128, y: 1, z: 1 },
        shared_mem: 0,
        args: vec![
            KernelArg::Ptr(input), KernelArg::Ptr(expert_base), KernelArg::Ptr(expert_ids),
            KernelArg::Ptr(output), KernelArg::U32(total_slots), KernelArg::U32(n),
            KernelArg::U32(k), KernelArg::U32(num_experts), KernelArg::U64(expert_stride_bytes),
        ],
    };
    assert(launch@ =~= gguf_q4_k_grouped_gemm_launch(
        kernel, input, expert_base, expert_stride_bytes, expert_ids, output, total_slots, n, k,
        num_experts,
    ));
    cb.launch(launch);
    Ok(())
}

/// With an accepted stride the matrices of two experts never overlap.
pub proof fn law_experts_do_not_overlap(base: int, stride: u64, n: u32, k: u32, num_experts: u32, i: int, j: int)
    requires
        grouped_refusal(stride, n, k, num_experts) is None,
        0 <= i < j < num_experts,
    ensures
        base + i * stride + expert_matrix_bytes(n, k) <= base + j * stride,
{
    let s = stride as int;
    assert(i * s + s <= j * s) by (nonlinear_arith)
        requires
            i + 1 <= j,
            s >= 0,
    ;
}

/// Matrix-vector product with an eight-bit weight, four rows per block.
pub open spec fn gguf_q8_0_gemv_launch(
    kernel: KernelHandle,
    input: DevicePtr,
    weight: PackedQ8Weight,
    output: DevicePtr,
) -> Launch {
    Launch {
        kernel,
        grid: Dim3 { x: ceil_div(weight.n as int, 4) as u32, y: 1, z: 1 },
        block: Dim3 { x: 128, y: 1, z: 1 },
        shared_mem: 0,
        args: seq![
            KernelArg::Ptr(input), KernelArg::Ptr(weight.weight), KernelArg::Ptr(output),
            KernelArg::U32(weight.n), KernelArg::U32(weight.k),
        ],
    }
}

/// Records the launch that [`gguf_q8_0_gemv_launch`] describes, for whole blocks.
pub fn gguf_q8_0_gemv(
    cb: &mut CommandBuffer,
    kernel: KernelHandle,
    input: DevicePtr,
    weight: &PackedQ8Weight,
    output: DevicePtr,
) -> (r: Result<(), GgufError>)
    ensures
        weight.k % 32 != 0 ==> r == Err::<(), GgufError>(GgufError::PartialBlock { k: weight.k })
            && final(cb)@ == old(cb)@,
        weight.k % 32 == 0 ==> r is Ok && final(cb)@ == old(cb)@.push(
            Cmd::Launch(gguf_q8_0_gemv_launch(kernel, input, *weight, output)),
        ),
{
    if weight.k % Q8_0_VALUES != 0 {
        return Err(GgufError::PartialBlock { k: weight.k });
    }
    let launch = KernelLaunch {
        kernel,
        grid: Dim3 { x: div_ceil_u32(weight.n, 4), y: 1, z: 1 },
        block: Dim3 { x: 128, y: 1, z: 1 },
        shared_mem: 0,
        args: vec![
            KernelArg::Ptr(input), KernelArg::Ptr(weight.weight), KernelArg::Ptr(output),
            KernelArg::U32(weight.n), KernelArg::U32(weight.k),
        ],
    };
    assert(launch@ =~= gguf_q8_0_gemv_launch(kernel, input, *weight, output));
    cb.launch(launch);
    Ok(())
}

/// Product of `m` rows with an eight-bit weight in 16 by 16 tiles.
pub open spec fn gguf_q8_0_gemm_launch(
    kernel: KernelHandle,
    input: DevicePtr,
    weight: PackedQ8Weight,
    output: DevicePtr,
    m: u32,
) -> Launch {
    Launch {
        kernel,
        grid: Dim3 {
            x: ceil_div(weight.n as int, 16) as u32,
            y: ceil_div(m as int, 16) as u32,
            z: 1,
        },
        block: Dim3 { x: 16, y: 16, z: 1 },
        shared_mem: 0,
        args: seq![
            KernelArg::Ptr(input), KernelArg::Ptr(weight.weight), KernelArg::Ptr(output),
            KernelArg::U32(m), KernelArg::U32(weight.n), KernelArg::U32(weight.k),
        ],
    }
}

/// Records the launch that [`gguf_q8_0_gemm_launch`] describes, for whole blocks.
pub fn gguf_q8_0_gemm(
    cb: &mut CommandBuffer,
    kernel: KernelHandle,
    input: DevicePtr,
    weight: &PackedQ8Weight,
    output: DevicePtr,
    m: u32,
) -> (r: Result<(), GgufError>)
    ensures
        weight.k % 32 != 0 ==> r == Err::<(), GgufError>(GgufError::PartialBlock { k: weight.k })
            && final(cb)@ == old(cb)@,
        weight.k % 32 == 0 ==> r is Ok && final(cb)@ == old(cb)@.push(
            Cmd::Launch(gguf_q8_0_gemm_launch(kernel, input, *weight, output, m)),
        ),
{
    if weight.k % Q8_0_VALUES != 0 {
        return Err(GgufError::PartialBlock { k: weight.k });
    }
    let launch = KernelLaunch {
        kernel,
        grid: Dim3 { x: div_ceil_u32(weight.n, 16), y: div_ceil_u32(m, 16), z: 1 },
        block: Dim3 { x: 16, y: 16, z: 1 },
        shared_mem: 0,
        args: vec![
            KernelArg::Ptr(input), KernelArg::Ptr(weight.weight), KernelArg::Ptr(output),
            KernelArg::U32(m), KernelArg::U32(weight.n), KernelArg::U32(weight.k),
        ],
    };
    assert(launch@ =~= gguf_q8_0_gemm_launch(kernel, input, *weight, output, m));
    cb.launch(launch);
    Ok(())
}

/// Gather of embedding rows from an eight-bit table in 16 by 16 tiles.
pub open spec fn gguf_q8_0_embedding_launch(
    kernel: KernelHandle,
    token_ids: DevicePtr,
    table: PackedQ8Weight,
    output: DevicePtr,
    num_tokens: u32,
) -> Launch {
    Launch {
        kernel,
        grid: Dim3 {
            x: ceil_div(table.k as int, 16) as u32,
            y: ceil_div(num_tokens as int, 16) as u32,
            z: 1,
        },
        block: Dim3 { x: 16, y: 16, z: 1 },
        shared_mem: 0,
        args: seq![
            KernelArg::Ptr(token_ids), KernelArg::Ptr(table.weight), KernelArg::Ptr(output),
            KernelArg::U32(num_tokens), KernelArg::U32(table.k), KernelArg::U32(table.n),
        ],
    }
}

/// Records the launch that [`gguf_q8_0_embedding_launch`] describes, for whole blocks.
pub fn gguf_q8_0_embedding(
    cb: &mut CommandBuffer,
    kernel: KernelHandle,
    token_ids: DevicePtr,
    table: &PackedQ8Weight,
    output: DevicePtr,
    num_tokens: u32,
) -> (r: Result<(), GgufError>)
    ensures
        table.k % 32 != 0 ==> r == Err::<(), GgufError>(GgufError::PartialBlock { k: table.k })
            && final(cb)@ == old(cb)@,
        table.k % 32 == 0 ==> r is Ok && final(cb)@ == old(cb)@.push(
            Cmd::Launch(gguf_q8_0_embedding_launch(kernel, token_ids, *table, output, num_tokens)),
        ),
{
    if table.k % Q8_0_VALUES != 0 {
        return Err(GgufError::PartialBlock { k: table.k });
    }
    let launch = KernelLaunch {
        kernel,
        grid: Dim3 { x: div_ceil_u32(table.k, 16), y: div_ceil_u32(num_tokens, 16), z: 1 },
        block: Dim3 { x: 16, y: 16, z: 1 },
        shared_mem: 0,
        args: vec![
            KernelArg::Ptr(token_ids), KernelArg::Ptr(table.weight), KernelArg::Ptr(output),
            KernelArg::U32(num_tokens), KernelArg::U32(table.k), KernelArg::U32(table.n),
        ],
    };
    assert(launch@ =~= gguf_q8_0_embedding_launch(kernel, token_ids, *table, output, num_tokens));
    cb.launch(launch);
    Ok(())
}

} // verus!
