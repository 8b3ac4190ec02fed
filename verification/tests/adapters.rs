use spark_model::attention::high_speed_swap::{
    block_steps, host_decode, hss_d2h_dst_bytes, hss_d2h_dst_kind, parse_hss_pinned_flag,
    HostDecode, HssD2hDstKind, KvCacheDtype, KvHalf, OffloadStep,
};
use spark_model::device::{Command, CommandBuffer, DevicePtr, KernelHandle, Scalar};
use spark_model::env::EnvVars;
use spark_model::moe::lora::{
    build_expert_route, lora_delta_cols, max_tokens, plan_lora, router_expert_entry,
    ExpertLoraLayer, ExpertPair, ExpertProj, MoeLoraError,
};
use spark_model::ops::gguf::{
    gguf_q4_k_gemv, gguf_q4_k_grouped_gemm, gguf_q8_0_embedding, gguf_q8_0_gemm, gguf_q8_0_gemv,
    GgufError,
};
use spark_model::ops::lora_delta::{apply_lora_delta, LoraKernels, LoraPair};
use spark_model::ops::moe_lora_grouped::{pack_expert_tables, ExpertTables};
use spark_model::weights::{DenseWeight, PackedQ4Weight, PackedQ8Weight};

fn f(v: f32) -> Scalar {
    Scalar(v.to_bits())
}

#[test]
fn empty_entries_none() {
    assert!(pack_expert_tables(&[]).is_none());
}

#[test]
fn single_expert_zero_padded_prefix() {
    let t = pack_expert_tables(&[(3u16, 0xAAAA, 0xBBBB, f(2.0))]).unwrap();
    assert_eq!(
        t,
        ExpertTables {
            a: vec![0, 0, 0, 0xAAAA],
            b: vec![0, 0, 0, 0xBBBB],
            scale: vec![f(0.0), f(0.0), f(0.0), f(2.0)],
            n_experts: 4,
        }
    );
}

#[test]
fn sparse_experts_dense_table() {
    let t = pack_expert_tables(&[(0u16, 0x10, 0x20, f(0.5)), (2u16, 0x30, 0x40, f(0.25))]).unwrap();
    assert_eq!(t.a, vec![0x10, 0, 0x30]);
    assert_eq!(t.b, vec![0x20, 0, 0x40]);
    assert_eq!(t.scale, vec![f(0.5), f(0.0), f(0.25)]);
    assert_eq!(t.n_experts, 3);
}

#[test]
fn entry_order_independent() {
    let t = pack_expert_tables(&[(2u16, 0x30, 0x40, f(0.25)), (0u16, 0x10, 0x20, f(0.5))]).unwrap();
    assert_eq!(t.a, vec![0x10, 0, 0x30]);
    assert_eq!(t.scale, vec![f(0.5), f(0.0), f(0.25)]);
}

#[test]
fn table_length_is_max_id_plus_one() {
    let t = pack_expert_tables(&[(7u16, 1, 2, f(1.0))]).unwrap();
    assert_eq!(t.n_experts, 8);
    assert_eq!(t.a.len(), 8);
    assert_eq!(t.a[7], 1);
    assert_eq!(t.a[..7], [0u64; 7]);
}

#[test]
fn a_later_entry_for_an_expert_wins() {
    let t = pack_expert_tables(&[(1u16, 1, 2, f(1.0)), (1u16, 3, 4, f(2.0))]).unwrap();
    assert_eq!(t.a, vec![0, 3]);
    assert_eq!(t.b, vec![0, 4]);
    assert_eq!(t.scale, vec![f(0.0), f(2.0)]);
}

const NUM_EXPERTS: u32 = 256;
const MOE_INTER: u32 = 512;
const HIDDEN: u32 = 2048;

fn dummy_router_pair(a_addr: u64, b_addr: u64, scale: f32, rank: u32) -> LoraPair {
    LoraPair {
        a: DenseWeight { weight: DevicePtr(a_addr) },
        b: DenseWeight { weight: DevicePtr(b_addr) },
        rank,
        k_in: HIDDEN,
        n_out: NUM_EXPERTS,
        scale: f(scale),
        max_rank: rank,
    }
}

#[test]
fn router_entry_is_expert_zero_from_pair() {
    let rp = dummy_router_pair(0xA000, 0xB000, 0.5, 16);
    assert_eq!(router_expert_entry(&rp), (0u16, 0xA000u64, 0xB000u64, f(0.5)));
}

#[test]
fn router_entry_packs_to_len_one_table() {
    let rp = dummy_router_pair(0xAAAA, 0xBBBB, 2.0, 8);
    let t = pack_expert_tables(&[router_expert_entry(&rp)]).unwrap();
    assert_eq!(t.n_experts, 1);
    assert_eq!(t.a, vec![0xAAAA]);
    assert_eq!(t.b, vec![0xBBBB]);
    assert_eq!(t.scale, vec![f(2.0)]);
}

#[test]
fn full_adapter_takes_max_of_router_and_down() {
    assert_eq!(
        lora_delta_cols(Some(NUM_EXPERTS), Some(MOE_INTER)),
        MOE_INTER as usize
    );
}

#[test]
fn router_only_is_num_experts() {
    assert_eq!(lora_delta_cols(Some(NUM_EXPERTS), None), NUM_EXPERTS as usize);
}

#[test]
fn gateup_only_no_router_is_unit() {
    assert_eq!(lora_delta_cols(None, None), 1);
}

#[test]
fn down_only_is_moe_inter() {
    assert_eq!(lora_delta_cols(None, Some(MOE_INTER)), MOE_INTER as usize);
}

#[test]
fn router_wins_when_experts_exceed_inter() {
    assert_eq!(lora_delta_cols(Some(1024), Some(MOE_INTER)), 1024);
}

#[test]
fn gate_up_k_in_hidden_never_inflates() {
    let sized = lora_delta_cols(Some(NUM_EXPERTS), Some(MOE_INTER));
    assert!(
        sized < HIDDEN as usize,
        "delta_cols {sized} must not be inflated to hidden {HIDDEN}"
    );
}

fn env(vars: &[(&str, &str)]) -> EnvVars {
    EnvVars { vars: vars.iter().map(|(k, v)| (k.to_string(), v.to_string())).collect() }
}

fn down(expert: u16, at: u64, rank: u32) -> ExpertPair {
    ExpertPair {
        expert,
        proj: ExpertProj::Down,
        pair: LoraPair {
            a: DenseWeight { weight: DevicePtr(at) },
            b: DenseWeight { weight: DevicePtr(at + 1) },
            rank,
            k_in: MOE_INTER,
            n_out: HIDDEN,
            scale: f(1.0),
            max_rank: rank,
        },
    }
}

#[test]
fn scratch_rows_default_to_4096() {
    assert_eq!(max_tokens(&env(&[])), 4096);
    assert_eq!(max_tokens(&env(&[("ATLAS_LORA_EXPERT_MAX_TOKENS", "128")])), 128);
    assert_eq!(max_tokens(&env(&[("ATLAS_LORA_EXPERT_MAX_TOKENS", "many")])), 4096);
}

#[test]
fn no_adapter_needs_no_plan() {
    assert_eq!(plan_lora(None, &ExpertLoraLayer { pairs: vec![] }, &env(&[])), Ok(None));
}

#[test]
fn only_down_adapters_are_accepted() {
    let mut p = down(3, 0x100, 8);
    p.proj = ExpertProj::Up;
    assert_eq!(
        plan_lora(None, &ExpertLoraLayer { pairs: vec![p] }, &env(&[])),
        Err(MoeLoraError::NotDown { expert: 3, proj: ExpertProj::Up })
    );
}

#[test]
fn a_plan_sizes_scratch_by_rank_and_columns() {
    let layer = ExpertLoraLayer { pairs: vec![down(1, 0x100, 16), down(0, 0x200, 16)] };
    let plan = plan_lora(None, &layer, &env(&[("ATLAS_LORA_EXPERT_MAX_TOKENS", "10")])).unwrap().unwrap();
    assert_eq!(plan.cap, 10);
    assert_eq!(plan.xa_bytes, 10 * 16 * 2);
    assert_eq!(plan.delta_bytes, 10 * MOE_INTER as usize * 2);
    let r = plan.route.unwrap();
    assert_eq!(r.n_experts, 2);
    assert_eq!(r.max_rank, 16);
    assert_eq!(r.k_in, MOE_INTER);
    assert_eq!(r.n_out, HIDDEN);
    let mut a = 0x200u64.to_le_bytes().to_vec();
    a.extend(0x100u64.to_le_bytes());
    assert_eq!(r.a_bytes, a);
}

#[test]
fn routes_exist_only_with_pairs() {
    assert!(build_expert_route(&vec![]).is_none());
    assert!(build_expert_route(&vec![down(0, 4, 8)]).is_some());
}

#[test]
fn a_delta_shrinks_expands_and_adds() {
    let k = LoraKernels {
        gemv_k: KernelHandle(1),
        gemm_tc_k: KernelHandle(2),
        gemm_k: KernelHandle(3),
        scaled_add_k: KernelHandle(4),
    };
    let rp = dummy_router_pair(0xA000, 0xB000, 0.5, 16);
    let mut cb = CommandBuffer::new();
    apply_lora_delta(&mut cb, &k, &rp, DevicePtr(1), DevicePtr(2), 1, DevicePtr(3), DevicePtr(4));
    assert_eq!(cb.commands.len(), 3);
}

#[test]
fn wrappers_validate_q4_k_blocks_and_expert_stride() {
    let mut cb = CommandBuffer::new();
    let invalid = PackedQ4Weight { weight: DevicePtr(1), n: 2, k: 255 };
    assert!(
        gguf_q4_k_gemv(&mut cb, KernelHandle(1), DevicePtr(2), &invalid, DevicePtr(3)).is_err()
    );
    assert!(
        gguf_q4_k_grouped_gemm(
            &mut cb,
            KernelHandle(1),
            DevicePtr(1),
            DevicePtr(2),
            143,
            DevicePtr(3),
            DevicePtr(4),
            1,
            1,
            256,
            1,
        )
        .is_err()
    );
    assert!(cb.commands.is_empty());
}

#[test]
fn wrappers_reject_partial_q8_blocks() {
    let mut cb = CommandBuffer::new();
    let w = PackedQ8Weight { weight: DevicePtr(1), n: 2, k: 33 };
    assert!(gguf_q8_0_gemv(&mut cb, KernelHandle(1), DevicePtr(2), &w, DevicePtr(3)).is_err());
    assert!(gguf_q8_0_gemm(&mut cb, KernelHandle(1), DevicePtr(2), &w, DevicePtr(3), 2).is_err());
}

#[test]
fn each_block_refusal_has_its_error() {
    let mut cb = CommandBuffer::new();
    let q4 = PackedQ4Weight { weight: DevicePtr(1), n: 2, k: 255 };
    assert_eq!(
        gguf_q4_k_gemv(&mut cb, KernelHandle(1), DevicePtr(2), &q4, DevicePtr(3)),
        Err(GgufError::PartialBlock { k: 255 })
    );
    let grouped = |cb: &mut CommandBuffer, stride: u64, experts: u32| {
        gguf_q4_k_grouped_gemm(
            cb,
            KernelHandle(1),
            DevicePtr(1),
            DevicePtr(2),
            stride,
            DevicePtr(3),
            DevicePtr(4),
            1,
            1,
            256,
            experts,
        )
    };
    assert_eq!(
        grouped(&mut cb, 143, 1),
        Err(GgufError::StrideTooSmall { stride: 143, matrix: 144 })
    );
    assert_eq!(grouped(&mut cb, 144, 0), Err(GgufError::NoExperts));
    assert_eq!(grouped(&mut cb, 144, 1), Ok(()));
    assert_eq!(cb.commands.len(), 1);
    let q8 = PackedQ8Weight { weight: DevicePtr(1), n: 2, k: 64 };
    assert_eq!(
        gguf_q8_0_embedding(&mut cb, KernelHandle(1), DevicePtr(2), &q8, DevicePtr(3), 5),
        Ok(())
    );
    assert!(matches!(cb.commands[1], Command::Launch(_)));
}

const BLOCK_FLOATS: usize = 16 * 8 * 128;
const LAYER_BLOCK_BYTES: usize = 12288;

const BF16_TYPES: [KvCacheDtype; 4] = [
    KvCacheDtype::Bf16,
    KvCacheDtype::Bf16KTurbo4V,
    KvCacheDtype::Bf16KTurbo3V,
    KvCacheDtype::Bf16KTurbo2V,
];

const FP8_TYPES: [KvCacheDtype; 4] = [
    KvCacheDtype::Fp8,
    KvCacheDtype::Fp8KTurbo4V,
    KvCacheDtype::Fp8KTurbo3V,
    KvCacheDtype::Fp8KTurbo2V,
];

const PACKED_TYPES: [KvCacheDtype; 8] = [
    KvCacheDtype::Nvfp4,
    KvCacheDtype::Turbo4,
    KvCacheDtype::Turbo4KTurbo3V,
    KvCacheDtype::Turbo4KTurbo8V,
    KvCacheDtype::Turbo3,
    KvCacheDtype::Turbo3KTurbo8V,
    KvCacheDtype::Turbo2,
    KvCacheDtype::Turbo8,
];

#[test]
fn dst_kind_bf16_is_payload_quant_is_raw() {
    for dt in BF16_TYPES {
        assert_eq!(hss_d2h_dst_kind(dt), HssD2hDstKind::Bf16Payload, "{dt:?}");
    }
    for dt in FP8_TYPES.into_iter().chain(PACKED_TYPES) {
        assert_eq!(hss_d2h_dst_kind(dt), HssD2hDstKind::RawQuant, "{dt:?}");
    }
}

#[test]
fn dst_bytes_per_arm_size() {
    for dt in BF16_TYPES {
        assert_eq!(
            hss_d2h_dst_bytes(dt, BLOCK_FLOATS, LAYER_BLOCK_BYTES),
            BLOCK_FLOATS * 2,
            "{dt:?}"
        );
    }
    for dt in FP8_TYPES {
        assert_eq!(
            hss_d2h_dst_bytes(dt, BLOCK_FLOATS, LAYER_BLOCK_BYTES),
            BLOCK_FLOATS,
            "{dt:?}"
        );
    }
    for dt in PACKED_TYPES {
        assert_eq!(
            hss_d2h_dst_bytes(dt, BLOCK_FLOATS, LAYER_BLOCK_BYTES),
            LAYER_BLOCK_BYTES,
            "{dt:?}"
        );
    }
}

#[test]
fn buffer_covers_copy_length() {
    let cases = [
        (KvCacheDtype::Bf16, BLOCK_FLOATS * 2),
        (KvCacheDtype::Fp8, BLOCK_FLOATS),
        (KvCacheDtype::Turbo8, LAYER_BLOCK_BYTES),
        (KvCacheDtype::Nvfp4, LAYER_BLOCK_BYTES),
    ];
    for (dt, copy_len) in cases {
        let buf = hss_d2h_dst_bytes(dt, BLOCK_FLOATS, LAYER_BLOCK_BYTES);
        assert!(buf >= copy_len, "{dt:?}: buf {buf} < copy_len {copy_len}");
    }
}

#[test]
fn flag_parse_truthy_only() {
    for on in ["1", "true", "on", "yes"] {
        assert!(parse_hss_pinned_flag(Some(on)), "{on:?} should engage");
    }
    assert!(!parse_hss_pinned_flag(None), "unset must be OFF");
    for off in ["0", "false", "off", "no", "", "TRUE", "1 ", "enable", "y"] {
        assert!(!parse_hss_pinned_flag(Some(off)), "{off:?} should be OFF");
    }
}

#[test]
fn pinned_pair_sizing_and_bf16_view() {
    let dst = hss_d2h_dst_bytes(KvCacheDtype::Bf16, BLOCK_FLOATS, LAYER_BLOCK_BYTES);
    assert_eq!(dst, BLOCK_FLOATS * 2);
    assert_eq!(dst / std::mem::size_of::<half::bf16>(), BLOCK_FLOATS);
    let k = vec![0u8; dst];
    let v = vec![0u8; dst];
    assert_eq!(k.len(), dst);
    assert_eq!(v.len(), dst);
    let k_range = k.as_ptr() as usize..k.as_ptr() as usize + dst;
    let v_range = v.as_ptr() as usize..v.as_ptr() as usize + dst;
    assert!(
        k_range.end <= v_range.start || v_range.end <= k_range.start,
        "K and V staging regions must be disjoint"
    );
}

#[test]
fn payload_blocks_need_no_decoding() {
    let steps = block_steps(KvCacheDtype::Bf16, true);
    assert!(!steps.iter().any(|s| matches!(
        s,
        OffloadStep::Decode { how: HostDecode::Fp8, .. } | OffloadStep::Decode { how: HostDecode::Turbo8, .. }
    )));
    assert_eq!(host_decode(KvCacheDtype::Bf16), HostDecode::Payload);
    assert_eq!(host_decode(KvCacheDtype::Fp8), HostDecode::Fp8);
}

#[test]
fn both_halves_are_read_before_the_store() {
    for fused in [false, true] {
        let steps = block_steps(KvCacheDtype::Fp8, fused);
        let at = |want: KvHalf| {
            steps.iter().position(|s| matches!(s, OffloadStep::ReadBack { half, .. } if *half == want)).unwrap()
        };
        let store = steps.iter().position(|s| matches!(s, OffloadStep::Store { .. })).unwrap();
        assert!(at(KvHalf::Key) < at(KvHalf::Value));
        assert!(at(KvHalf::Value) < store);
        assert_eq!(store, steps.len() - 1);
    }
}
