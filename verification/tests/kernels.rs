use spark_model::catalog::{KernelCatalog, KernelEntry, KernelMissing};
use spark_model::device::{
    Command, CommandBuffer, DevicePtr, Dim3, GroupedGateUp, KernelArg, KernelHandle, KernelLaunch,
    Scalar,
};
use spark_model::env::EnvVars;
use spark_model::num::{div_ceil, saturating_mul};
use spark_model::ops::dispatch::{
    cublas_bf16_proj, cublas_fp8_enabled, cublas_fp8_proj, cublas_fp8_rowwise_proj,
    cublas_gemm_enabled, cutlass_bf16_proj, cutlass_gemm_enabled, cutlass_nvfp4_attn_o_enabled,
    cutlass_nvfp4_attn_qkv_enabled, cutlass_nvfp4_gemm_enabled, cutlass_nvfp4_proj,
    cutlass_nvfp4_proj_from_fp8, cutlass_nvfp4_qkvz_enabled, cutlass_nvfp4_ssm_out_enabled,
    cutlass_nvfp4_weight_from_fp8_cached, cutlass_nvfp4_weight_transposed_cached,
    dequant_fp8_bf16_cached, fp8_blockscaled_prefill_enabled, hash_name, log_cutlass_nvfp4_route,
    log_gemm_shape, requant_weight_rowwise_fp8_cached, rowwise_bytes, CachedWeight, ProjArgs,
    SeenShapes, WeightCache,
};
use spark_model::ops::moe_grouped_a::{
    moe_grouped_gate_up_cutlass, moe_permute_tokens, moe_silu_mul, moe_topk_softmax_batched,
    moe_w4a16_grouped_gemm,
};
use spark_model::ops::moe_decode_persistent::moe_build_decode_worklist_c8;
use spark_model::ops::prefill_attn_b::bf16_absmax;
use spark_model::ops::q4k_mmq::{
    q4k_mmq_gemm, q4k_weight_bytes, q8_1_scratch_bytes, quantize_act_q8_1, Q4K_MMQ_SMEM,
};
use spark_model::ops::token_overlay::{embed_rowdiff, OverlayKernels};
use spark_model::ops_table::{DeviceOp, LibraryGemm, LibraryGemmArgs};
use spark_model::text::{is_set_to, parse_u32, parse_usize, same_text};
use spark_model::weights::{Fp8Weight, QuantizedWeight};

fn env(vars: &[(&str, &str)]) -> EnvVars {
    EnvVars { vars: vars.iter().map(|(k, v)| (k.to_string(), v.to_string())).collect() }
}

fn launch(c: &Command) -> &KernelLaunch {
    match c {
        Command::Launch(l) => l,
        _ => panic!("{c:?}"),
    }
}

const K: KernelHandle = KernelHandle(7);

#[test]
fn switches_need_exactly_one() {
    let none = env(&[]);
    assert!(fp8_blockscaled_prefill_enabled(&none));
    assert!(!fp8_blockscaled_prefill_enabled(&env(&[("ATLAS_FP8_SINGLE_SCALE", "1")])));
    assert!(fp8_blockscaled_prefill_enabled(&env(&[("ATLAS_FP8_SINGLE_SCALE", "true")])));
    assert!(!cublas_gemm_enabled(&none));
    assert!(cublas_gemm_enabled(&env(&[("ATLAS_CUBLAS_GEMM", "1")])));
    assert!(!cublas_gemm_enabled(&env(&[("ATLAS_CUBLAS_GEMM", "yes")])));
    assert!(cublas_fp8_enabled(&env(&[("ATLAS_CUBLAS_FP8", "1")])));
    assert!(cutlass_gemm_enabled(&env(&[("ATLAS_CUTLASS_GEMM", "1")])));
}

#[test]
fn the_general_switch_covers_all_but_the_recurrent_output() {
    let all = env(&[("ATLAS_CUTLASS_NVFP4_GEMM", "1")]);
    assert!(cutlass_nvfp4_gemm_enabled(&all));
    assert!(cutlass_nvfp4_qkvz_enabled(&all));
    assert!(cutlass_nvfp4_attn_o_enabled(&all));
    for label in ["q_proj", "k_proj", "v_proj", "other"] {
        assert!(cutlass_nvfp4_attn_qkv_enabled(&all, label));
    }
    assert!(!cutlass_nvfp4_ssm_out_enabled(&all));
    assert!(cutlass_nvfp4_ssm_out_enabled(&env(&[("ATLAS_CUTLASS_NVFP4_SSM_OUT", "1")])));
}

#[test]
fn attention_switches_go_by_projection() {
    let q = env(&[("ATLAS_CUTLASS_NVFP4_ATTN_Q", "1")]);
    let kv = env(&[("ATLAS_CUTLASS_NVFP4_ATTN_KV", "1")]);
    assert!(cutlass_nvfp4_attn_qkv_enabled(&q, "q_proj"));
    assert!(!cutlass_nvfp4_attn_qkv_enabled(&q, "k_proj"));
    assert!(cutlass_nvfp4_attn_qkv_enabled(&kv, "k_proj"));
    assert!(cutlass_nvfp4_attn_qkv_enabled(&kv, "v_proj"));
    assert!(!cutlass_nvfp4_attn_qkv_enabled(&kv, "q_proj"));
    assert!(!cutlass_nvfp4_attn_qkv_enabled(&kv, "o_proj"));
    assert!(cutlass_nvfp4_attn_o_enabled(&env(&[("ATLAS_CUTLASS_NVFP4_ATTN_O", "1")])));
    assert!(cutlass_nvfp4_qkvz_enabled(&env(&[("ATLAS_CUTLASS_NVFP4_QKVZ", "1")])));
    assert!(!cutlass_nvfp4_qkvz_enabled(&env(&[])));
}

#[test]
fn names_hash_byte_by_byte() {
    assert_eq!(hash_name(""), 1469598103934665603);
    let mut h = 1469598103934665603u64;
    for b in "q_proj".bytes() {
        h = (h ^ b as u64).wrapping_mul(1099511628211);
    }
    assert_eq!(hash_name("q_proj"), h);
    assert_ne!(hash_name("ab"), hash_name("ba"));
}

#[test]
fn a_shape_is_logged_once() {
    let mut seen = SeenShapes::new();
    assert!(log_cutlass_nvfp4_route(&mut seen, "q", 1, 2, 3));
    assert!(!log_cutlass_nvfp4_route(&mut seen, "q", 1, 2, 3));
    assert!(log_cutlass_nvfp4_route(&mut seen, "q", 1, 2, 4));
    assert!(log_cutlass_nvfp4_route(&mut seen, "k", 1, 2, 3));
    assert_eq!(seen.keys.len(), 3);
}

#[test]
fn shapes_are_logged_on_request() {
    let mut seen = SeenShapes::new();
    assert!(!log_gemm_shape(&mut seen, &env(&[]), "q", 1, 2, 3));
    assert!(seen.keys.is_empty());
    let on = env(&[("ATLAS_GEMM_SHAPE_LOG", "1")]);
    assert!(log_gemm_shape(&mut seen, &on, "q", 1, 2, 3));
    assert!(!log_gemm_shape(&mut seen, &on, "q", 1, 2, 3));
}

const W: Fp8Weight = Fp8Weight { weight: DevicePtr(100), row_scale: DevicePtr(200), n: 256, k: 512 };

#[test]
fn a_weight_is_converted_once() {
    let mut cb = CommandBuffer::new();
    let mut cache = WeightCache::new();
    let first = CachedWeight { weight: DevicePtr(1), scale: DevicePtr(2) };
    let other = CachedWeight { weight: DevicePtr(3), scale: DevicePtr(4) };
    assert_eq!(requant_weight_rowwise_fp8_cached(&mut cb, &mut cache, K, K, &W, DevicePtr(9), first), first);
    assert_eq!(cb.commands.len(), 4);
    assert_eq!(cb.commands[3], Command::Op(DeviceOp::Free { ptr: DevicePtr(9) }));
    assert_eq!(requant_weight_rowwise_fp8_cached(&mut cb, &mut cache, K, K, &W, DevicePtr(9), other), first);
    assert_eq!(cb.commands.len(), 4);
    assert_eq!(cache.get(DevicePtr(100)), Some(first));
    assert_eq!(cache.get(DevicePtr(101)), None);
    assert_eq!(rowwise_bytes(&W), (256 * 512 * 2, 256 * 512, 1024));
}

#[test]
fn expansion_reads_scales_by_blocks() {
    let mut cb = CommandBuffer::new();
    let mut cache = WeightCache::new();
    assert_eq!(dequant_fp8_bf16_cached(&mut cb, &mut cache, K, &W, DevicePtr(5)), DevicePtr(5));
    let l = launch(&cb.commands[0]);
    assert_eq!(l.grid, Dim3 { x: 8, y: 64, z: 1 });
    assert_eq!(l.block, Dim3 { x: 64, y: 4, z: 1 });
    assert_eq!(
        l.args,
        vec![
            KernelArg::Ptr(DevicePtr(100)),
            KernelArg::Ptr(DevicePtr(200)),
            KernelArg::Ptr(DevicePtr(5)),
            KernelArg::U32(256),
            KernelArg::U32(512),
            KernelArg::U32(128),
            KernelArg::U32(128),
            KernelArg::U32(4),
            KernelArg::U32(1),
        ]
    );
}

#[test]
fn four_bit_conversions_are_kept_too() {
    let mut cb = CommandBuffer::new();
    let mut cache = WeightCache::new();
    let q = QuantizedWeight { weight: DevicePtr(50), weight_scale: DevicePtr(51), weight_scale_2: Scalar(5) };
    for _ in 0..2 {
        assert_eq!(cutlass_nvfp4_weight_transposed_cached(&mut cb, &mut cache, &q, 64, 32, DevicePtr(8)), DevicePtr(8));
    }
    assert_eq!(cb.commands.len(), 2);
    let mut cb = CommandBuffer::new();
    let to = CachedWeight { weight: DevicePtr(1), scale: DevicePtr(2) };
    for _ in 0..2 {
        assert_eq!(cutlass_nvfp4_weight_from_fp8_cached(&mut cb, &mut cache, K, &W, DevicePtr(9), to), to);
    }
    assert_eq!(cb.commands.len(), 4);
    let unused = DevicePtr(90);
    cutlass_nvfp4_proj(&mut cb, &mut cache, DevicePtr(1), &q, unused, DevicePtr(3), 4, 5, 6);
    let other = CachedWeight { weight: unused, scale: unused };
    cutlass_nvfp4_proj_from_fp8(&mut cb, &mut cache, K, DevicePtr(1), &W, unused, other, DevicePtr(3), 4, 5, 6);
    let gemm = |c: &Command| match c {
        Command::Op(DeviceOp::LibraryGemm(a)) => *a,
        _ => panic!(),
    };
    assert_eq!(cb.commands.len(), 6);
    assert_eq!(gemm(&cb.commands[4]).weight, DevicePtr(8));
    assert_eq!((gemm(&cb.commands[5]).weight, gemm(&cb.commands[5]).weight_scale), (DevicePtr(1), DevicePtr(2)));
    assert_eq!(gemm(&cb.commands[4]).weight_scale, DevicePtr(51));
    assert_eq!(gemm(&cb.commands[4]).weight_scale_2, Scalar(5));
    assert_eq!(gemm(&cb.commands[5]).weight_scale_2, Scalar(1.0f32.to_bits()));
}

fn proj(m: u32) -> ProjArgs {
    ProjArgs {
        act: DevicePtr(1),
        act_fp8: DevicePtr(2),
        act_scale: DevicePtr(1000),
        out: DevicePtr(3),
        m,
        n: 256,
        k: 512,
    }
}

#[test]
fn padding_rows_get_zero_scales() {
    let mut cb = CommandBuffer::new();
    cublas_fp8_proj(&mut cb, K, &proj(20), &W);
    assert_eq!(cb.commands.len(), 3);
    assert_eq!(
        cb.commands[1],
        Command::Op(DeviceOp::Memset { dst: DevicePtr(1000 + 20 * 4 * 4), value: 0, bytes: 12 * 4 * 4 })
    );
    assert_eq!(
        cb.commands[2],
        Command::Op(DeviceOp::LibraryGemm(LibraryGemmArgs {
            gemm: LibraryGemm::CublasFp8BlockScaled,
            act: DevicePtr(2),
            act_scale: DevicePtr(1000),
            weight: DevicePtr(100),
            weight_scale: DevicePtr(200),
            weight_scale_2: Scalar(1.0f32.to_bits()),
            out: DevicePtr(3),
            m: 32,
            n: 256,
            k: 512,
        }))
    );
    let mut cb = CommandBuffer::new();
    cublas_fp8_proj(&mut cb, K, &proj(32), &W);
    assert_eq!(cb.commands.len(), 2);
}

#[test]
fn other_library_projections_keep_the_rows() {
    let mut cb = CommandBuffer::new();
    let w = CachedWeight { weight: DevicePtr(70), scale: DevicePtr(71) };
    let (mut rows, mut wide) = (WeightCache::new(), WeightCache::new());
    cublas_fp8_rowwise_proj(&mut cb, &mut rows, K, K, &proj(20), &W, DevicePtr(9), w);
    cb.commands.drain(..4);
    cublas_bf16_proj(&mut cb, &mut wide, K, DevicePtr(1), &W, DevicePtr(2), DevicePtr(3), 20, 5, 6);
    cb.commands.remove(2);
    cutlass_bf16_proj(&mut cb, &mut wide, K, DevicePtr(1), &W, DevicePtr(8), DevicePtr(3), 20, 5, 6);
    assert_eq!(launch(&cb.commands[0]).grid, Dim3 { x: 20, y: 1, z: 1 });
    let kinds: Vec<(LibraryGemm, u32)> = cb.commands[1..]
        .iter()
        .map(|c| match c {
            Command::Op(DeviceOp::LibraryGemm(a)) => (a.gemm, a.m),
            _ => panic!(),
        })
        .collect();
    assert_eq!(
        kinds,
        vec![
            (LibraryGemm::CublasFp8Rowwise, 20),
            (LibraryGemm::CublasBf16, 20),
            (LibraryGemm::CutlassBf16, 20),
        ]
    );
    for (i, at) in [(1, 70), (2, 2), (3, 2)] {
        assert!(matches!(cb.commands[i], Command::Op(DeviceOp::LibraryGemm(a)) if a.weight == DevicePtr(at)));
    }
}

#[test]
fn a_conversion_runs_before_the_first_product_alone() {
    let mut cache = WeightCache::new();
    let to = CachedWeight { weight: DevicePtr(70), scale: DevicePtr(71) };
    let other = Fp8Weight { weight: DevicePtr(101), ..W };
    let mut lengths = vec![];
    for w in [&W, &other, &W] {
        let mut cb = CommandBuffer::new();
        cublas_fp8_rowwise_proj(&mut cb, &mut cache, K, K, &proj(4), w, DevicePtr(9), to);
        lengths.push(cb.commands.len());
    }
    assert_eq!(lengths, vec![6, 6, 2]);
    assert_eq!(cache.get(DevicePtr(100)), Some(to));
}

#[test]
fn a_grouped_product_has_a_block_per_expert() {
    let mut cb = CommandBuffer::new();
    moe_w4a16_grouped_gemm(&mut cb, K, DevicePtr(1), DevicePtr(2), DevicePtr(3), Scalar(4), DevicePtr(5), DevicePtr(6), 8, 130, 64);
    let l = launch(&cb.commands[0]);
    assert_eq!(l.kernel, K);
    assert_eq!(l.grid, Dim3 { x: 8, y: 1, z: 1 });
    assert_eq!(l.block, Dim3 { x: 256, y: 1, z: 1 });
    assert_eq!(l.shared_mem, 0);
    assert_eq!(
        l.args,
        vec![
            KernelArg::Ptr(DevicePtr(1)),
            KernelArg::Ptr(DevicePtr(2)),
            KernelArg::Ptr(DevicePtr(3)),
            KernelArg::Scalar(Scalar(4)),
            KernelArg::Ptr(DevicePtr(5)),
            KernelArg::Ptr(DevicePtr(6)),
            KernelArg::U32(8),
            KernelArg::U32(130),
            KernelArg::U32(64),
        ]
    );
}

#[test]
fn elementwise_kernels_cover_every_element() {
    let mut cb = CommandBuffer::new();
    moe_silu_mul(&mut cb, K, DevicePtr(1), DevicePtr(2), DevicePtr(3), 1000);
    let l = launch(&cb.commands[0]);
    assert!(l.grid.x * l.block.x >= 1000);
    assert!((l.grid.x - 1) * l.block.x < 1000);
    assert_eq!(l.args[3], KernelArg::U32(1000));
}

#[test]
fn top_k_normalisation_is_a_flag() {
    let mut cb = CommandBuffer::new();
    moe_topk_softmax_batched(&mut cb, K, DevicePtr(1), DevicePtr(2), DevicePtr(3), 64, 8, true, 5);
    let l = launch(&cb.commands[0]);
    assert_eq!(l.grid.x, 5);
    assert!(l.args.contains(&KernelArg::U32(1)));
}

#[test]
fn permuted_rows_have_a_block_each() {
    let mut cb = CommandBuffer::new();
    moe_permute_tokens(&mut cb, K, DevicePtr(1), DevicePtr(2), DevicePtr(3), 2048, 77);
    assert!(launch(&cb.commands[0]).args.contains(&KernelArg::U32(77)));
}

#[test]
fn worklist_building_reads_offsets() {
    let mut cb = CommandBuffer::new();
    moe_build_decode_worklist_c8(&mut cb, K, DevicePtr(1), DevicePtr(2), DevicePtr(3), 256, 64);
    let l = launch(&cb.commands[0]);
    assert_eq!(l.args[0], KernelArg::Ptr(DevicePtr(1)));
}

#[test]
fn host_tables_are_decoded_for_grouped_products() {
    let p: Vec<u8> = [1u64, 2].iter().flat_map(|v| v.to_le_bytes()).collect();
    let s: Vec<u8> = [3u32, 4].iter().flat_map(|v| v.to_le_bytes()).collect();
    let o: Vec<u8> = [0i32, 5, 9].iter().flat_map(|v| v.to_le_bytes()).collect();
    let q: Vec<u8> = [6u64, 7].iter().flat_map(|v| v.to_le_bytes()).collect();
    let mut cb = CommandBuffer::new();
    moe_grouped_gate_up_cutlass(
        &mut cb, DevicePtr(11), &p, &q, &s, &q, &p, &s, DevicePtr(12), DevicePtr(13), &o, 2, 64, 128,
    );
    assert_eq!(
        cb.commands,
        vec![Command::GateUp(GroupedGateUp {
            rows: DevicePtr(11),
            gate_packed: vec![1, 2],
            gate_sfb: vec![6, 7],
            gate_scale2: vec![Scalar(3), Scalar(4)],
            up_packed: vec![6, 7],
            up_sfb: vec![1, 2],
            up_scale2: vec![Scalar(3), Scalar(4)],
            gate_out: DevicePtr(12),
            up_out: DevicePtr(13),
            offsets: vec![0, 5, 9],
            inter: 64,
            hidden: 128,
        })]
    );
}

#[test]
fn four_bit_blocks_take_144_bytes() {
    assert_eq!(q4k_weight_bytes(2, 512), 2 * 2 * 144);
    assert!(q8_1_scratch_bytes(3, 256) > 0);
}

#[test]
fn quantised_products_use_their_shared_memory() {
    let mut cb = CommandBuffer::new();
    quantize_act_q8_1(&mut cb, K, DevicePtr(1), DevicePtr(2), 3, 256);
    q4k_mmq_gemm(&mut cb, K, KernelHandle(8), DevicePtr(1), DevicePtr(2), DevicePtr(3), 5, 256, 256);
    assert_eq!(launch(&cb.commands[1]).shared_mem, Q4K_MMQ_SMEM);
}

#[test]
fn reductions_and_differences_are_recorded() {
    let mut cb = CommandBuffer::new();
    bf16_absmax(&mut cb, K, DevicePtr(1), DevicePtr(2), 100);
    embed_rowdiff(&mut cb, K, DevicePtr(1), DevicePtr(2), DevicePtr(3), 10, 64, Scalar(9));
    assert_eq!(cb.commands.len(), 2);
    assert!(launch(&cb.commands[1]).args.contains(&KernelArg::Scalar(Scalar(9))));
}

fn catalog() -> KernelCatalog {
    KernelCatalog {
        entries: vec![KernelEntry {
            module: "m".to_string(),
            function: "f".to_string(),
            handle: KernelHandle(42),
        }],
    }
}

fn missing(module: &str, function: &str) -> KernelMissing {
    KernelMissing { module: module.to_string(), function: function.to_string() }
}

#[test]
fn kernels_are_found_by_module_and_name() {
    let c = catalog();
    assert_eq!(c.kernel("m", "f"), Ok(KernelHandle(42)));
    assert_eq!(c.kernel("m", "g"), Err(missing("m", "g")));
    assert_eq!(c.try_kernel("m", "f"), KernelHandle(42));
    assert_eq!(c.try_kernel("x", "f"), KernelHandle(0));
    assert!(!OverlayKernels::new(&c).rowdiff.is_present());
    assert!(!OverlayKernels::default().rowdiff.is_present());
}

#[test]
fn text_is_parsed_as_numbers_only() {
    assert_eq!(parse_u32("4294967295"), Some(u32::MAX));
    assert_eq!(parse_u32("4294967296"), None);
    assert_eq!(parse_u32("+7"), "+7".parse::<u32>().ok());
    for bad in ["", "-1", " 1", "1 ", "0x1", "1_0", "+"] {
        assert_eq!(parse_u32(bad), bad.parse::<u32>().ok(), "{bad:?}");
        assert_eq!(parse_usize(bad), bad.parse::<usize>().ok(), "{bad:?}");
    }
    assert_eq!(parse_usize("007"), Some(7));
    assert!(same_text("é", "é"));
    assert!(!same_text("a", "A"));
    assert!(is_set_to(Some("1"), "1"));
    assert!(!is_set_to(None, "1"));
}

#[test]
fn the_environment_is_a_list_of_pairs() {
    let e = env(&[("A", "x"), ("B", "")]);
    assert_eq!(e.get("A"), Some("x"));
    assert_eq!(e.get("B"), Some(""));
    assert_eq!(e.get("C"), None);
    assert!(e.has("B"));
    assert!(!e.is("B", "1"));
}

#[test]
fn arithmetic_helpers_match_std() {
    for (a, b) in [(0usize, 1usize), (1, 1), (7, 3), (9, 3), (usize::MAX, 2)] {
        assert_eq!(div_ceil(a, b), a.div_ceil(b));
        assert_eq!(saturating_mul(a, b), a.saturating_mul(b));
    }
}
