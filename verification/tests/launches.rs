use spark_model::device::{Command, CommandBuffer, DevicePtr, Dim3, KernelArg, KernelHandle, Scalar};
use spark_model::ops::moe_decode_persistent::{
    moe_build_decode_worklist_c8, moe_decode_persistent_gate_up_c8, moe_decode_persistent_down_c8,
};
use spark_model::ops::moe_grouped_a::{
    moe_w4a16_grouped_gemm, moe_topk_softmax_batched, moe_topk_sigmoid_batched, moe_w4a16_grouped_gemm_ptrtable, moe_w4a16_grouped_gemm_ptrtable_n128, moe_fp8_grouped_gemm_ptrtable_n128, moe_w4a16_grouped_gemm_ptrtable_k64_n128, moe_w4a16_fused_gate_up_k64_n128, moe_permute_tokens, moe_w4a16_fused_gate_up_k64_m128, moe_w4a16_fused_gate_up_n128, moe_silu_mul,
};
use spark_model::ops::moe_grouped_a2::{
    moe_sort_by_expert, moe_unpermute_reduce_indexed, moe_batched_blend,
};
use spark_model::ops::moe_grouped_worklist::{
    moe_w4a16_fused_gate_up_k64_worklist, moe_w4a16_grouped_gemm_k64_worklist,
};
use spark_model::ops::prefill_attn_b::{
    reshape_and_cache_nvfp4, bf16_absmax, paged_decode_attn_nvfp4, paged_decode_attn_splitk_nvfp4, paged_decode_attn_reduce_nvfp4, paged_decode_attn_splitk_fp8, paged_decode_attn_reduce_fp8, paged_decode_attn_splitk_bf16, paged_decode_attn_reduce_bf16, paged_decode_attn_gqa_mma,
};
use spark_model::ops::q4k_mmq::{
    dequant_q6k_into, dequant_nvfp4_to_bf16, quantize_weight_q4k, quantize_act_q8_1, q4k_grouped_gemm, q4k_grouped_gemm_gate_up, q4k_mmq_gemm,
};
use spark_model::ops::token_overlay::{
    embed_rowdiff, embed_overlay_routed, lmhead_overlay_routed,
};

fn check(cb: &CommandBuffer, kernel: KernelHandle, grid: [u32; 3], block: [u32; 3], shared: u32, args: &[KernelArg]) {
    assert_eq!(cb.commands.len(), 1);
    let l = match &cb.commands[0] {
        Command::Launch(l) => l,
        c => panic!("{c:?}"),
    };
    assert_eq!(l.kernel, kernel);
    assert_eq!(l.grid, Dim3 { x: grid[0], y: grid[1], z: grid[2] });
    assert_eq!(l.block, Dim3 { x: block[0], y: block[1], z: block[2] });
    assert_eq!(l.shared_mem, shared);
    assert_eq!(l.args, args);
}

#[test]
fn moe_w4a16_grouped_gemm_geometry_and_arguments() {
    let mut cb = CommandBuffer::new();
    moe_w4a16_grouped_gemm(&mut cb, KernelHandle(50), DevicePtr(1001), DevicePtr(1002), DevicePtr(1003), Scalar(5004), DevicePtr(1005), DevicePtr(1006), 391, 404, 417);
    check(
        &cb,
        KernelHandle(50),
        [391, 1, 1],
        [256, 1, 1],
        0,
        &[
            KernelArg::Ptr(DevicePtr(1001)),
            KernelArg::Ptr(DevicePtr(1002)),
            KernelArg::Ptr(DevicePtr(1003)),
            KernelArg::Scalar(Scalar(5004)),
            KernelArg::Ptr(DevicePtr(1005)),
            KernelArg::Ptr(DevicePtr(1006)),
            KernelArg::U32(391),
            KernelArg::U32(404),
            KernelArg::U32(417),
        ],
    );
}

#[test]
fn moe_topk_softmax_batched_geometry_and_arguments() {
    let mut cb = CommandBuffer::new();
    moe_topk_softmax_batched(&mut cb, KernelHandle(50), DevicePtr(1001), DevicePtr(1002), DevicePtr(1003), 352, 365, true, 391);
    check(
        &cb,
        KernelHandle(50),
        [391, 1, 1],
        [256, 1, 1],
        0,
        &[
            KernelArg::Ptr(DevicePtr(1001)),
            KernelArg::Ptr(DevicePtr(1002)),
            KernelArg::Ptr(DevicePtr(1003)),
            KernelArg::U32(352),
            KernelArg::U32(365),
            KernelArg::U32(1),
        ],
    );
}

#[test]
fn moe_topk_sigmoid_batched_geometry_and_arguments() {
    let mut cb = CommandBuffer::new();
    moe_topk_sigmoid_batched(&mut cb, KernelHandle(50), DevicePtr(1001), DevicePtr(1002), DevicePtr(1003), DevicePtr(1004), 365, 378, true, Scalar(5008), 417);
    check(
        &cb,
        KernelHandle(50),
        [417, 1, 1],
        [256, 1, 1],
        0,
        &[
            KernelArg::Ptr(DevicePtr(1001)),
            KernelArg::Ptr(DevicePtr(1002)),
            KernelArg::Ptr(DevicePtr(1003)),
            KernelArg::Ptr(DevicePtr(1004)),
            KernelArg::U32(365),
            KernelArg::U32(378),
            KernelArg::U32(1),
            KernelArg::Scalar(Scalar(5008)),
        ],
    );
}

#[test]
fn moe_w4a16_grouped_gemm_ptrtable_geometry_and_arguments() {
    let mut cb = CommandBuffer::new();
    moe_w4a16_grouped_gemm_ptrtable(&mut cb, KernelHandle(50), DevicePtr(1001), DevicePtr(1002), DevicePtr(1003), DevicePtr(1004), DevicePtr(1005), DevicePtr(1006), DevicePtr(1007), 404, 417, 430, 443);
    check(
        &cb,
        KernelHandle(50),
        [7, 443, 404],
        [128, 1, 1],
        0,
        &[
            KernelArg::Ptr(DevicePtr(1001)),
            KernelArg::Ptr(DevicePtr(1002)),
            KernelArg::Ptr(DevicePtr(1003)),
            KernelArg::Ptr(DevicePtr(1004)),
            KernelArg::Ptr(DevicePtr(1005)),
            KernelArg::Ptr(DevicePtr(1006)),
            KernelArg::Ptr(DevicePtr(1007)),
            KernelArg::U32(404),
            KernelArg::U32(417),
            KernelArg::U32(430),
        ],
    );
}

#[test]
fn moe_w4a16_grouped_gemm_ptrtable_n128_geometry_and_arguments() {
    let mut cb = CommandBuffer::new();
    moe_w4a16_grouped_gemm_ptrtable_n128(&mut cb, KernelHandle(50), DevicePtr(1001), DevicePtr(1002), DevicePtr(1003), DevicePtr(1004), DevicePtr(1005), DevicePtr(1006), DevicePtr(1007), 404, 417, 430, 443);
    check(
        &cb,
        KernelHandle(50),
        [4, 443, 404],
        [128, 1, 1],
        0,
        &[
            KernelArg::Ptr(DevicePtr(1001)),
            KernelArg::Ptr(DevicePtr(1002)),
            KernelArg::Ptr(DevicePtr(1003)),
            KernelArg::Ptr(DevicePtr(1004)),
            KernelArg::Ptr(DevicePtr(1005)),
            KernelArg::Ptr(DevicePtr(1006)),
            KernelArg::Ptr(DevicePtr(1007)),
            KernelArg::U32(404),
            KernelArg::U32(417),
            KernelArg::U32(430),
        ],
    );
}

#[test]
fn moe_fp8_grouped_gemm_ptrtable_n128_geometry_and_arguments() {
    let mut cb = CommandBuffer::new();
    moe_fp8_grouped_gemm_ptrtable_n128(&mut cb, KernelHandle(50), DevicePtr(1001), DevicePtr(1002), DevicePtr(1003), DevicePtr(1004), DevicePtr(1005), DevicePtr(1006), DevicePtr(1007), 404, 417, 430, 443);
    check(
        &cb,
        KernelHandle(50),
        [4, 443, 404],
        [128, 1, 1],
        0,
        &[
            KernelArg::Ptr(DevicePtr(1001)),
            KernelArg::Ptr(DevicePtr(1002)),
            KernelArg::Ptr(DevicePtr(1003)),
            KernelArg::Ptr(DevicePtr(1004)),
            KernelArg::Ptr(DevicePtr(1005)),
            KernelArg::Ptr(DevicePtr(1006)),
            KernelArg::Ptr(DevicePtr(1007)),
            KernelArg::U32(404),
            KernelArg::U32(417),
            KernelArg::U32(430),
        ],
    );
}

#[test]
fn moe_w4a16_grouped_gemm_ptrtable_k64_n128_geometry_and_arguments() {
    let mut cb = CommandBuffer::new();
    moe_w4a16_grouped_gemm_ptrtable_k64_n128(&mut cb, KernelHandle(50), DevicePtr(1001), DevicePtr(1002), DevicePtr(1003), DevicePtr(1004), DevicePtr(1005), DevicePtr(1006), DevicePtr(1007), 404, 417, 430, 443);
    check(
        &cb,
        KernelHandle(50),
        [4, 443, 404],
        [128, 1, 1],
        0,
        &[
            KernelArg::Ptr(DevicePtr(1001)),
            KernelArg::Ptr(DevicePtr(1002)),
            KernelArg::Ptr(DevicePtr(1003)),
            KernelArg::Ptr(DevicePtr(1004)),
            KernelArg::Ptr(DevicePtr(1005)),
            KernelArg::Ptr(DevicePtr(1006)),
            KernelArg::Ptr(DevicePtr(1007)),
            KernelArg::U32(404),
            KernelArg::U32(417),
            KernelArg::U32(430),
        ],
    );
}

#[test]
fn moe_w4a16_fused_gate_up_k64_n128_geometry_and_arguments() {
    let mut cb = CommandBuffer::new();
    moe_w4a16_fused_gate_up_k64_n128(&mut cb, KernelHandle(50), DevicePtr(1001), DevicePtr(1002), DevicePtr(1003), DevicePtr(1004), DevicePtr(1005), DevicePtr(1006), DevicePtr(1007), DevicePtr(1008), DevicePtr(1009), DevicePtr(1010), DevicePtr(1011), 456, 469, 482, 495);
    check(
        &cb,
        KernelHandle(50),
        [8, 495, 456],
        [128, 1, 1],
        0,
        &[
            KernelArg::Ptr(DevicePtr(1001)),
            KernelArg::Ptr(DevicePtr(1002)),
            KernelArg::Ptr(DevicePtr(1003)),
            KernelArg::Ptr(DevicePtr(1004)),
            KernelArg::Ptr(DevicePtr(1005)),
            KernelArg::Ptr(DevicePtr(1006)),
            KernelArg::Ptr(DevicePtr(1007)),
            KernelArg::Ptr(DevicePtr(1008)),
            KernelArg::Ptr(DevicePtr(1009)),
            KernelArg::Ptr(DevicePtr(1010)),
            KernelArg::Ptr(DevicePtr(1011)),
            KernelArg::U32(456),
            KernelArg::U32(469),
            KernelArg::U32(482),
        ],
    );
}

#[test]
fn moe_permute_tokens_geometry_and_arguments() {
    let mut cb = CommandBuffer::new();
    moe_permute_tokens(&mut cb, KernelHandle(50), DevicePtr(1001), DevicePtr(1002), DevicePtr(1003), 352, 365);
    check(
        &cb,
        KernelHandle(50),
        [365, 1, 1],
        [256, 1, 1],
        0,
        &[
            KernelArg::Ptr(DevicePtr(1001)),
            KernelArg::Ptr(DevicePtr(1002)),
            KernelArg::Ptr(DevicePtr(1003)),
            KernelArg::U32(352),
            KernelArg::U32(365),
        ],
    );
}

#[test]
fn moe_w4a16_fused_gate_up_k64_m128_geometry_and_arguments() {
    let mut cb = CommandBuffer::new();
    moe_w4a16_fused_gate_up_k64_m128(&mut cb, KernelHandle(50), DevicePtr(1001), DevicePtr(1002), DevicePtr(1003), DevicePtr(1004), DevicePtr(1005), DevicePtr(1006), DevicePtr(1007), DevicePtr(1008), DevicePtr(1009), DevicePtr(1010), DevicePtr(1011), 456, 469, 482, 495);
    check(
        &cb,
        KernelHandle(50),
        [8, 495, 456],
        [256, 1, 1],
        0,
        &[
            KernelArg::Ptr(DevicePtr(1001)),
            KernelArg::Ptr(DevicePtr(1002)),
            KernelArg::Ptr(DevicePtr(1003)),
            KernelArg::Ptr(DevicePtr(1004)),
            KernelArg::Ptr(DevicePtr(1005)),
            KernelArg::Ptr(DevicePtr(1006)),
            KernelArg::Ptr(DevicePtr(1007)),
            KernelArg::Ptr(DevicePtr(1008)),
            KernelArg::Ptr(DevicePtr(1009)),
            KernelArg::Ptr(DevicePtr(1010)),
            KernelArg::Ptr(DevicePtr(1011)),
            KernelArg::U32(456),
            KernelArg::U32(469),
            KernelArg::U32(482),
        ],
    );
}

#[test]
fn moe_w4a16_fused_gate_up_n128_geometry_and_arguments() {
    let mut cb = CommandBuffer::new();
    moe_w4a16_fused_gate_up_n128(&mut cb, KernelHandle(50), DevicePtr(1001), DevicePtr(1002), DevicePtr(1003), DevicePtr(1004), DevicePtr(1005), DevicePtr(1006), DevicePtr(1007), DevicePtr(1008), DevicePtr(1009), DevicePtr(1010), DevicePtr(1011), 456, 469, 482, 495);
    check(
        &cb,
        KernelHandle(50),
        [8, 495, 456],
        [128, 1, 1],
        0,
        &[
            KernelArg::Ptr(DevicePtr(1001)),
            KernelArg::Ptr(DevicePtr(1002)),
            KernelArg::Ptr(DevicePtr(1003)),
            KernelArg::Ptr(DevicePtr(1004)),
            KernelArg::Ptr(DevicePtr(1005)),
            KernelArg::Ptr(DevicePtr(1006)),
            KernelArg::Ptr(DevicePtr(1007)),
            KernelArg::Ptr(DevicePtr(1008)),
            KernelArg::Ptr(DevicePtr(1009)),
            KernelArg::Ptr(DevicePtr(1010)),
            KernelArg::Ptr(DevicePtr(1011)),
            KernelArg::U32(456),
            KernelArg::U32(469),
            KernelArg::U32(482),
        ],
    );
}

#[test]
fn moe_silu_mul_geometry_and_arguments() {
    let mut cb = CommandBuffer::new();
    moe_silu_mul(&mut cb, KernelHandle(50), DevicePtr(1001), DevicePtr(1002), DevicePtr(1003), 352);
    check(
        &cb,
        KernelHandle(50),
        [2, 1, 1],
        [256, 1, 1],
        0,
        &[
            KernelArg::Ptr(DevicePtr(1001)),
            KernelArg::Ptr(DevicePtr(1002)),
            KernelArg::Ptr(DevicePtr(1003)),
            KernelArg::U32(352),
        ],
    );
}

#[test]
fn moe_sort_by_expert_geometry_and_arguments() {
    let mut cb = CommandBuffer::new();
    moe_sort_by_expert(&mut cb, KernelHandle(50), DevicePtr(1001), DevicePtr(1002), DevicePtr(1003), DevicePtr(1004), DevicePtr(1005), 378, 391, 404);
    check(
        &cb,
        KernelHandle(50),
        [1, 1, 1],
        [256, 1, 1],
        0,
        &[
            KernelArg::Ptr(DevicePtr(1001)),
            KernelArg::Ptr(DevicePtr(1002)),
            KernelArg::Ptr(DevicePtr(1003)),
            KernelArg::Ptr(DevicePtr(1004)),
            KernelArg::Ptr(DevicePtr(1005)),
            KernelArg::U32(378),
            KernelArg::U32(391),
            KernelArg::U32(404),
        ],
    );
}

#[test]
fn moe_unpermute_reduce_indexed_geometry_and_arguments() {
    let mut cb = CommandBuffer::new();
    moe_unpermute_reduce_indexed(&mut cb, KernelHandle(50), DevicePtr(1001), DevicePtr(1002), DevicePtr(1003), DevicePtr(1004), 365, 378, 391);
    check(
        &cb,
        KernelHandle(50),
        [378, 1, 1],
        [256, 1, 1],
        0,
        &[
            KernelArg::Ptr(DevicePtr(1001)),
            KernelArg::Ptr(DevicePtr(1002)),
            KernelArg::Ptr(DevicePtr(1003)),
            KernelArg::Ptr(DevicePtr(1004)),
            KernelArg::U32(365),
            KernelArg::U32(378),
            KernelArg::U32(391),
        ],
    );
}

#[test]
fn moe_batched_blend_geometry_and_arguments() {
    let mut cb = CommandBuffer::new();
    moe_batched_blend(&mut cb, KernelHandle(50), DevicePtr(1001), DevicePtr(1002), DevicePtr(1003), DevicePtr(1004), 365, 378);
    check(
        &cb,
        KernelHandle(50),
        [378, 1, 1],
        [256, 1, 1],
        0,
        &[
            KernelArg::Ptr(DevicePtr(1001)),
            KernelArg::Ptr(DevicePtr(1002)),
            KernelArg::Ptr(DevicePtr(1003)),
            KernelArg::Ptr(DevicePtr(1004)),
            KernelArg::U32(365),
            KernelArg::U32(378),
        ],
    );
}

#[test]
fn moe_w4a16_fused_gate_up_k64_worklist_geometry_and_arguments() {
    let mut cb = CommandBuffer::new();
    moe_w4a16_fused_gate_up_k64_worklist(&mut cb, KernelHandle(50), DevicePtr(1001), DevicePtr(1002), DevicePtr(1003), DevicePtr(1004), DevicePtr(1005), DevicePtr(1006), DevicePtr(1007), DevicePtr(1008), DevicePtr(1009), DevicePtr(1010), DevicePtr(1011), 456, 469, 482, DevicePtr(1015), DevicePtr(1016));
    check(
        &cb,
        KernelHandle(50),
        [256, 1, 1],
        [128, 1, 1],
        0,
        &[
            KernelArg::Ptr(DevicePtr(1001)),
            KernelArg::Ptr(DevicePtr(1002)),
            KernelArg::Ptr(DevicePtr(1003)),
            KernelArg::Ptr(DevicePtr(1004)),
            KernelArg::Ptr(DevicePtr(1005)),
            KernelArg::Ptr(DevicePtr(1006)),
            KernelArg::Ptr(DevicePtr(1007)),
            KernelArg::Ptr(DevicePtr(1008)),
            KernelArg::Ptr(DevicePtr(1009)),
            KernelArg::Ptr(DevicePtr(1010)),
            KernelArg::Ptr(DevicePtr(1011)),
            KernelArg::U32(456),
            KernelArg::U32(469),
            KernelArg::U32(482),
            KernelArg::Ptr(DevicePtr(1015)),
            KernelArg::Ptr(DevicePtr(1016)),
        ],
    );
}

#[test]
fn moe_w4a16_grouped_gemm_k64_worklist_geometry_and_arguments() {
    let mut cb = CommandBuffer::new();
    moe_w4a16_grouped_gemm_k64_worklist(&mut cb, KernelHandle(50), DevicePtr(1001), DevicePtr(1002), DevicePtr(1003), DevicePtr(1004), DevicePtr(1005), DevicePtr(1006), DevicePtr(1007), 404, 417, 430, DevicePtr(1011), DevicePtr(1012));
    check(
        &cb,
        KernelHandle(50),
        [256, 1, 1],
        [128, 1, 1],
        0,
        &[
            KernelArg::Ptr(DevicePtr(1001)),
            KernelArg::Ptr(DevicePtr(1002)),
            KernelArg::Ptr(DevicePtr(1003)),
            KernelArg::Ptr(DevicePtr(1004)),
            KernelArg::Ptr(DevicePtr(1005)),
            KernelArg::Ptr(DevicePtr(1006)),
            KernelArg::Ptr(DevicePtr(1007)),
            KernelArg::U32(404),
            KernelArg::U32(417),
            KernelArg::U32(430),
            KernelArg::Ptr(DevicePtr(1011)),
            KernelArg::Ptr(DevicePtr(1012)),
        ],
    );
}

#[test]
fn moe_build_decode_worklist_c8_geometry_and_arguments() {
    let mut cb = CommandBuffer::new();
    moe_build_decode_worklist_c8(&mut cb, KernelHandle(50), DevicePtr(1001), DevicePtr(1002), DevicePtr(1003), 352, 365);
    check(
        &cb,
        KernelHandle(50),
        [1, 1, 1],
        [256, 1, 1],
        0,
        &[
            KernelArg::Ptr(DevicePtr(1001)),
            KernelArg::Ptr(DevicePtr(1002)),
            KernelArg::Ptr(DevicePtr(1003)),
            KernelArg::U32(352),
            KernelArg::U32(365),
        ],
    );
}

#[test]
fn moe_decode_persistent_gate_up_c8_geometry_and_arguments() {
    let mut cb = CommandBuffer::new();
    moe_decode_persistent_gate_up_c8(&mut cb, KernelHandle(50), DevicePtr(1001), DevicePtr(1002), DevicePtr(1003), DevicePtr(1004), DevicePtr(1005), DevicePtr(1006), DevicePtr(1007), DevicePtr(1008), DevicePtr(1009), DevicePtr(1010), DevicePtr(1011), DevicePtr(1012), 469, 482);
    check(
        &cb,
        KernelHandle(50),
        [512, 1, 1],
        [256, 1, 1],
        0,
        &[
            KernelArg::Ptr(DevicePtr(1001)),
            KernelArg::Ptr(DevicePtr(1002)),
            KernelArg::Ptr(DevicePtr(1003)),
            KernelArg::Ptr(DevicePtr(1004)),
            KernelArg::Ptr(DevicePtr(1005)),
            KernelArg::Ptr(DevicePtr(1006)),
            KernelArg::Ptr(DevicePtr(1007)),
            KernelArg::Ptr(DevicePtr(1008)),
            KernelArg::Ptr(DevicePtr(1009)),
            KernelArg::Ptr(DevicePtr(1010)),
            KernelArg::Ptr(DevicePtr(1011)),
            KernelArg::Ptr(DevicePtr(1012)),
            KernelArg::U32(469),
            KernelArg::U32(482),
        ],
    );
}

#[test]
fn moe_decode_persistent_down_c8_geometry_and_arguments() {
    let mut cb = CommandBuffer::new();
    moe_decode_persistent_down_c8(&mut cb, KernelHandle(50), DevicePtr(1001), DevicePtr(1002), DevicePtr(1003), DevicePtr(1004), DevicePtr(1005), DevicePtr(1006), DevicePtr(1007), DevicePtr(1008), 417, 430);
    check(
        &cb,
        KernelHandle(50),
        [512, 1, 1],
        [256, 1, 1],
        0,
        &[
            KernelArg::Ptr(DevicePtr(1001)),
            KernelArg::Ptr(DevicePtr(1002)),
            KernelArg::Ptr(DevicePtr(1003)),
            KernelArg::Ptr(DevicePtr(1004)),
            KernelArg::Ptr(DevicePtr(1005)),
            KernelArg::Ptr(DevicePtr(1006)),
            KernelArg::Ptr(DevicePtr(1007)),
            KernelArg::Ptr(DevicePtr(1008)),
            KernelArg::U32(417),
            KernelArg::U32(430),
        ],
    );
}

#[test]
fn reshape_and_cache_nvfp4_geometry_and_arguments() {
    let mut cb = CommandBuffer::new();
    reshape_and_cache_nvfp4(&mut cb, KernelHandle(50), DevicePtr(1001), DevicePtr(1002), DevicePtr(1003), DevicePtr(1004), DevicePtr(1005), 378, 391, 404, 417, 430, 443, 7012, 7013);
    check(
        &cb,
        KernelHandle(50),
        [378, 1, 1],
        [256, 1, 1],
        0,
        &[
            KernelArg::Ptr(DevicePtr(1001)),
            KernelArg::Ptr(DevicePtr(1002)),
            KernelArg::Ptr(DevicePtr(1003)),
            KernelArg::Ptr(DevicePtr(1004)),
            KernelArg::Ptr(DevicePtr(1005)),
            KernelArg::U32(391),
            KernelArg::U32(404),
            KernelArg::U32(417),
            KernelArg::U32(430),
            KernelArg::U32(443),
            KernelArg::U64(7012),
            KernelArg::U64(7013),
        ],
    );
}

#[test]
fn bf16_absmax_geometry_and_arguments() {
    let mut cb = CommandBuffer::new();
    bf16_absmax(&mut cb, KernelHandle(50), DevicePtr(1001), DevicePtr(1002), 339);
    check(
        &cb,
        KernelHandle(50),
        [1, 1, 1],
        [256, 1, 1],
        0,
        &[
            KernelArg::Ptr(DevicePtr(1001)),
            KernelArg::Ptr(DevicePtr(1002)),
            KernelArg::U32(339),
        ],
    );
}

#[test]
fn paged_decode_attn_nvfp4_geometry_and_arguments() {
    let mut cb = CommandBuffer::new();
    paged_decode_attn_nvfp4(&mut cb, KernelHandle(50), DevicePtr(1001), DevicePtr(1002), DevicePtr(1003), DevicePtr(1004), DevicePtr(1005), DevicePtr(1006), 391, 404, 417, 430, 443, 456, Scalar(5013), 482, 7015, 7016);
    check(
        &cb,
        KernelHandle(50),
        [417, 404, 1],
        [256, 1, 1],
        0,
        &[
            KernelArg::Ptr(DevicePtr(1001)),
            KernelArg::Ptr(DevicePtr(1002)),
            KernelArg::Ptr(DevicePtr(1003)),
            KernelArg::Ptr(DevicePtr(1004)),
            KernelArg::Ptr(DevicePtr(1005)),
            KernelArg::Ptr(DevicePtr(1006)),
            KernelArg::U32(391),
            KernelArg::U32(417),
            KernelArg::U32(430),
            KernelArg::U32(443),
            KernelArg::U32(456),
            KernelArg::Scalar(Scalar(5013)),
            KernelArg::U32(482),
            KernelArg::U64(7015),
            KernelArg::U64(7016),
        ],
    );
}

#[test]
fn paged_decode_attn_splitk_nvfp4_geometry_and_arguments() {
    let mut cb = CommandBuffer::new();
    paged_decode_attn_splitk_nvfp4(&mut cb, KernelHandle(50), DevicePtr(1001), DevicePtr(1002), DevicePtr(1003), DevicePtr(1004), DevicePtr(1005), DevicePtr(1006), 391, 404, 417, 430, 443, Scalar(5012), 469, 482, 7015, 7016, 521);
    check(
        &cb,
        KernelHandle(50),
        [404, 469, 521],
        [256, 1, 1],
        0,
        &[
            KernelArg::Ptr(DevicePtr(1001)),
            KernelArg::Ptr(DevicePtr(1002)),
            KernelArg::Ptr(DevicePtr(1003)),
            KernelArg::Ptr(DevicePtr(1004)),
            KernelArg::Ptr(DevicePtr(1005)),
            KernelArg::Ptr(DevicePtr(1006)),
            KernelArg::U32(391),
            KernelArg::U32(404),
            KernelArg::U32(417),
            KernelArg::U32(430),
            KernelArg::U32(443),
            KernelArg::Scalar(Scalar(5012)),
            KernelArg::U32(469),
            KernelArg::U32(482),
            KernelArg::U64(7015),
            KernelArg::U64(7016),
        ],
    );
}

#[test]
fn paged_decode_attn_reduce_nvfp4_geometry_and_arguments() {
    let mut cb = CommandBuffer::new();
    paged_decode_attn_reduce_nvfp4(&mut cb, KernelHandle(50), DevicePtr(1001), DevicePtr(1002), DevicePtr(1003), 352, 365, 378, 391);
    check(
        &cb,
        KernelHandle(50),
        [352, 391, 1],
        [32, 1, 1],
        0,
        &[
            KernelArg::Ptr(DevicePtr(1001)),
            KernelArg::Ptr(DevicePtr(1002)),
            KernelArg::Ptr(DevicePtr(1003)),
            KernelArg::U32(352),
            KernelArg::U32(365),
            KernelArg::U32(378),
        ],
    );
}

#[test]
fn paged_decode_attn_splitk_fp8_geometry_and_arguments() {
    let mut cb = CommandBuffer::new();
    paged_decode_attn_splitk_fp8(&mut cb, KernelHandle(50), DevicePtr(1001), DevicePtr(1002), DevicePtr(1003), DevicePtr(1004), DevicePtr(1005), DevicePtr(1006), 391, 404, 417, 430, 443, Scalar(5012), 469, Scalar(5014), Scalar(5015), 508, 7017, 534);
    check(
        &cb,
        KernelHandle(50),
        [404, 469, 534],
        [256, 1, 1],
        0,
        &[
            KernelArg::Ptr(DevicePtr(1001)),
            KernelArg::Ptr(DevicePtr(1002)),
            KernelArg::Ptr(DevicePtr(1003)),
            KernelArg::Ptr(DevicePtr(1004)),
            KernelArg::Ptr(DevicePtr(1005)),
            KernelArg::Ptr(DevicePtr(1006)),
            KernelArg::U32(391),
            KernelArg::U32(404),
            KernelArg::U32(417),
            KernelArg::U32(430),
            KernelArg::U32(443),
            KernelArg::Scalar(Scalar(5012)),
            KernelArg::U32(469),
            KernelArg::Scalar(Scalar(5014)),
            KernelArg::Scalar(Scalar(5015)),
            KernelArg::U32(508),
            KernelArg::U64(7017),
        ],
    );
}

#[test]
fn paged_decode_attn_reduce_fp8_geometry_and_arguments() {
    let mut cb = CommandBuffer::new();
    paged_decode_attn_reduce_fp8(&mut cb, KernelHandle(50), DevicePtr(1001), DevicePtr(1002), DevicePtr(1003), 352, 365, 378, 391);
    check(
        &cb,
        KernelHandle(50),
        [352, 391, 1],
        [32, 1, 1],
        0,
        &[
            KernelArg::Ptr(DevicePtr(1001)),
            KernelArg::Ptr(DevicePtr(1002)),
            KernelArg::Ptr(DevicePtr(1003)),
            KernelArg::U32(352),
            KernelArg::U32(365),
            KernelArg::U32(378),
        ],
    );
}

#[test]
fn paged_decode_attn_splitk_bf16_geometry_and_arguments() {
    let mut cb = CommandBuffer::new();
    paged_decode_attn_splitk_bf16(&mut cb, KernelHandle(50), DevicePtr(1001), DevicePtr(1002), DevicePtr(1003), DevicePtr(1004), DevicePtr(1005), DevicePtr(1006), 391, 404, 417, 430, 443, Scalar(5012), 469, 482, 495);
    check(
        &cb,
        KernelHandle(50),
        [404, 469, 495],
        [256, 1, 1],
        0,
        &[
            KernelArg::Ptr(DevicePtr(1001)),
            KernelArg::Ptr(DevicePtr(1002)),
            KernelArg::Ptr(DevicePtr(1003)),
            KernelArg::Ptr(DevicePtr(1004)),
            KernelArg::Ptr(DevicePtr(1005)),
            KernelArg::Ptr(DevicePtr(1006)),
            KernelArg::U32(391),
            KernelArg::U32(404),
            KernelArg::U32(417),
            KernelArg::U32(430),
            KernelArg::U32(443),
            KernelArg::Scalar(Scalar(5012)),
            KernelArg::U32(469),
            KernelArg::U32(482),
        ],
    );
}

#[test]
fn paged_decode_attn_reduce_bf16_geometry_and_arguments() {
    let mut cb = CommandBuffer::new();
    paged_decode_attn_reduce_bf16(&mut cb, KernelHandle(50), DevicePtr(1001), DevicePtr(1002), DevicePtr(1003), 352, 365, 378, 391);
    check(
        &cb,
        KernelHandle(50),
        [352, 391, 1],
        [32, 1, 1],
        0,
        &[
            KernelArg::Ptr(DevicePtr(1001)),
            KernelArg::Ptr(DevicePtr(1002)),
            KernelArg::Ptr(DevicePtr(1003)),
            KernelArg::U32(352),
            KernelArg::U32(365),
            KernelArg::U32(378),
        ],
    );
}

#[test]
fn paged_decode_attn_gqa_mma_geometry_and_arguments() {
    let mut cb = CommandBuffer::new();
    paged_decode_attn_gqa_mma(&mut cb, KernelHandle(50), DevicePtr(1001), DevicePtr(1002), DevicePtr(1003), DevicePtr(1004), DevicePtr(1005), DevicePtr(1006), 391, 404, 417, 430, 443, 456, Scalar(5013), 482, 495);
    check(
        &cb,
        KernelHandle(50),
        [430, 1, 404],
        [128, 1, 1],
        0,
        &[
            KernelArg::Ptr(DevicePtr(1001)),
            KernelArg::Ptr(DevicePtr(1002)),
            KernelArg::Ptr(DevicePtr(1003)),
            KernelArg::Ptr(DevicePtr(1004)),
            KernelArg::Ptr(DevicePtr(1005)),
            KernelArg::Ptr(DevicePtr(1006)),
            KernelArg::U32(391),
            KernelArg::U32(417),
            KernelArg::U32(430),
            KernelArg::U32(443),
            KernelArg::U32(456),
            KernelArg::Scalar(Scalar(5013)),
            KernelArg::U32(482),
            KernelArg::U32(495),
        ],
    );
}

#[test]
fn embed_rowdiff_geometry_and_arguments() {
    let mut cb = CommandBuffer::new();
    embed_rowdiff(&mut cb, KernelHandle(50), DevicePtr(1001), DevicePtr(1002), DevicePtr(1003), 352, 365, Scalar(5006));
    check(
        &cb,
        KernelHandle(50),
        [2, 1, 1],
        [256, 1, 1],
        0,
        &[
            KernelArg::Ptr(DevicePtr(1001)),
            KernelArg::Ptr(DevicePtr(1002)),
            KernelArg::Ptr(DevicePtr(1003)),
            KernelArg::U32(352),
            KernelArg::U32(365),
            KernelArg::Scalar(Scalar(5006)),
        ],
    );
}

#[test]
fn embed_overlay_routed_geometry_and_arguments() {
    let mut cb = CommandBuffer::new();
    embed_overlay_routed(&mut cb, KernelHandle(50), DevicePtr(1001), DevicePtr(1002), -3, DevicePtr(1004), DevicePtr(1005), DevicePtr(1006), 391, 404);
    check(
        &cb,
        KernelHandle(50),
        [391, 1, 1],
        [256, 1, 1],
        0,
        &[
            KernelArg::Ptr(DevicePtr(1001)),
            KernelArg::Ptr(DevicePtr(1002)),
            KernelArg::I32(-3),
            KernelArg::Ptr(DevicePtr(1004)),
            KernelArg::Ptr(DevicePtr(1005)),
            KernelArg::Ptr(DevicePtr(1006)),
            KernelArg::U32(404),
        ],
    );
}

#[test]
fn lmhead_overlay_routed_geometry_and_arguments() {
    let mut cb = CommandBuffer::new();
    lmhead_overlay_routed(&mut cb, KernelHandle(50), DevicePtr(1001), DevicePtr(1002), -3, DevicePtr(1004), DevicePtr(1005), DevicePtr(1006), DevicePtr(1007), 404, 417, 430, 443);
    check(
        &cb,
        KernelHandle(50),
        [404, 417, 1],
        [32, 1, 1],
        0,
        &[
            KernelArg::Ptr(DevicePtr(1001)),
            KernelArg::Ptr(DevicePtr(1002)),
            KernelArg::I32(-3),
            KernelArg::Ptr(DevicePtr(1004)),
            KernelArg::Ptr(DevicePtr(1005)),
            KernelArg::Ptr(DevicePtr(1006)),
            KernelArg::Ptr(DevicePtr(1007)),
            KernelArg::U32(430),
            KernelArg::U32(443),
        ],
    );
}

#[test]
fn dequant_q6k_into_geometry_and_arguments() {
    let mut cb = CommandBuffer::new();
    dequant_q6k_into(&mut cb, KernelHandle(50), DevicePtr(1001), DevicePtr(1002), 339);
    check(
        &cb,
        KernelHandle(50),
        [339, 1, 1],
        [256, 1, 1],
        0,
        &[
            KernelArg::Ptr(DevicePtr(1001)),
            KernelArg::Ptr(DevicePtr(1002)),
            KernelArg::U32(339),
            KernelArg::U32(210),
        ],
    );
}

#[test]
fn dequant_nvfp4_to_bf16_geometry_and_arguments() {
    let mut cb = CommandBuffer::new();
    dequant_nvfp4_to_bf16(&mut cb, KernelHandle(50), DevicePtr(1001), DevicePtr(1002), DevicePtr(1003), Scalar(5004), 365, 378);
    check(
        &cb,
        KernelHandle(50),
        [365, 1, 1],
        [256, 1, 1],
        0,
        &[
            KernelArg::Ptr(DevicePtr(1001)),
            KernelArg::Ptr(DevicePtr(1002)),
            KernelArg::Ptr(DevicePtr(1003)),
            KernelArg::Scalar(Scalar(5004)),
            KernelArg::U32(365),
            KernelArg::U32(378),
        ],
    );
}

#[test]
fn quantize_weight_q4k_geometry_and_arguments() {
    let mut cb = CommandBuffer::new();
    quantize_weight_q4k(&mut cb, KernelHandle(50), DevicePtr(1001), DevicePtr(1002), 339, 352);
    check(
        &cb,
        KernelHandle(50),
        [3, 1, 1],
        [128, 1, 1],
        0,
        &[
            KernelArg::Ptr(DevicePtr(1001)),
            KernelArg::Ptr(DevicePtr(1002)),
            KernelArg::U32(339),
            KernelArg::U32(352),
        ],
    );
}

#[test]
fn quantize_act_q8_1_geometry_and_arguments() {
    let mut cb = CommandBuffer::new();
    quantize_act_q8_1(&mut cb, KernelHandle(50), DevicePtr(1001), DevicePtr(1002), 339, 352);
    check(
        &cb,
        KernelHandle(50),
        [339, 1, 1],
        [128, 1, 1],
        0,
        &[
            KernelArg::Ptr(DevicePtr(1001)),
            KernelArg::Ptr(DevicePtr(1002)),
            KernelArg::U64(352),
            KernelArg::U64(352),
            KernelArg::U64(512),
            KernelArg::U32(339),
        ],
    );
}

#[test]
fn q4k_grouped_gemm_geometry_and_arguments() {
    let mut cb = CommandBuffer::new();
    q4k_grouped_gemm(&mut cb, KernelHandle(50), KernelHandle(51), DevicePtr(1002), DevicePtr(1003), DevicePtr(1004), DevicePtr(1005), 378, 391, 404, 417);
    check(
        &cb,
        KernelHandle(51),
        [3, 4, 404],
        [32, 8, 1],
        57856,
        &[
            KernelArg::Ptr(DevicePtr(1002)),
            KernelArg::Ptr(DevicePtr(1003)),
            KernelArg::Ptr(DevicePtr(1004)),
            KernelArg::Ptr(DevicePtr(1005)),
            KernelArg::U32(378),
            KernelArg::U32(391),
            KernelArg::U32(1),
            KernelArg::U32(378),
            KernelArg::U32(417),
            KernelArg::U32(378),
        ],
    );
}

#[test]
fn q4k_grouped_gemm_gate_up_geometry_and_arguments() {
    let mut cb = CommandBuffer::new();
    q4k_grouped_gemm_gate_up(&mut cb, KernelHandle(50), KernelHandle(51), DevicePtr(1002), DevicePtr(1003), DevicePtr(1004), DevicePtr(1005), DevicePtr(1006), DevicePtr(1007), 404, 417, 430, 443);
    check(
        &cb,
        KernelHandle(51),
        [4, 4, 430],
        [32, 8, 1],
        57856,
        &[
            KernelArg::Ptr(DevicePtr(1002)),
            KernelArg::Ptr(DevicePtr(1003)),
            KernelArg::Ptr(DevicePtr(1004)),
            KernelArg::Ptr(DevicePtr(1005)),
            KernelArg::Ptr(DevicePtr(1006)),
            KernelArg::Ptr(DevicePtr(1007)),
            KernelArg::U32(404),
            KernelArg::U32(417),
            KernelArg::U32(1),
            KernelArg::U32(404),
            KernelArg::U32(443),
            KernelArg::U32(404),
        ],
    );
}

#[test]
fn q4k_mmq_gemm_geometry_and_arguments() {
    let mut cb = CommandBuffer::new();
    q4k_mmq_gemm(&mut cb, KernelHandle(50), KernelHandle(51), DevicePtr(1002), DevicePtr(1003), DevicePtr(1004), 365, 378, 391);
    check(
        &cb,
        KernelHandle(51),
        [3, 3, 1],
        [32, 8, 1],
        57856,
        &[
            KernelArg::Ptr(DevicePtr(1003)),
            KernelArg::Ptr(DevicePtr(1002)),
            KernelArg::Ptr(DevicePtr(1004)),
            KernelArg::U32(378),
            KernelArg::U32(365),
            KernelArg::U32(391),
            KernelArg::U32(1),
            KernelArg::U32(365),
            KernelArg::U32(378),
        ],
    );
}
