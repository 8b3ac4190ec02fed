use half::bf16;
use spark_model::catalog::{KernelCatalog, KernelEntry, KernelMissing};
use spark_model::codec::e4m3_byte_to_f32;
use spark_model::context::{Buffers, ForwardContext, ModelConfig, MoeLoraRoute, ScoringFunc};
use spark_model::device::{Command, CommandBuffer, DevicePtr, KernelHandle, KernelLaunch, Scalar};
use spark_model::env::EnvVars;
use spark_model::moe::b12x_scales::{SfbLayoutMissing, SfbStrategy};
use spark_model::moe::b12x_weights::{
    B12xGeometry, B12xMoeWeights, ScaleReadback, StreamedExperts,
};
use spark_model::moe::exl3::{Exl3ExpertPtrTable, Exl3MoeState, Exl3Tables};
use spark_model::moe::forward_exl3::{stable_grid_enabled, Exl3Error};
use spark_model::moe::forward_prefill_marlin::RoutedRows;
use spark_model::moe::forward_prefill_packed::{PackedMoeError, PackedScratch};
use spark_model::moe::forward_routed::RoutedCall;
use spark_model::moe::fp4::{
    dequant_nvfp4, fp4_slot_bytes, fp4_table_bytes, pack_fp4, projection_shape, Fp4Slot,
};
use spark_model::moe::init_packed::PackedGgufInit;
use spark_model::moe::layer::{MoeKernels, MoeLayer, MoeWeights};
use spark_model::moe::lora::{
    ExpertLoraLayer, ExpertPair, ExpertProj, MoeExpertRoute, MoeLoraError, MoeLoraMemory,
};
use spark_model::moe::marlin_weights::{available, MarlinError, MarlinMoeWeights};
use spark_model::moe::ptr_tables::{
    build_bf16_ptr_table, build_fp8_ptr_table, build_ptr_table, encode_scalars, Fp8ExpertPtrTable,
    Projection,
};
use spark_model::moe::stream_tables::ExpertPtrTable;
use spark_model::moe::transposes::TransposeTarget;
use spark_model::ops::b12x_flashinfer::{b12x_moe_prefill, B12xError, B12xLib};
use spark_model::ops::exl3_moe_decode::{exl3_silu_mul_f16, Exl3DecodeError, Exl3MoeKernels};
use spark_model::ops::lora_delta::{LoraKernels, LoraPair};
use spark_model::ops_table::{DeviceOp, MatmulKind};
use spark_model::ssm::layer::{Qwen3SsmLayer, SsmKernels, SsmWeights};
use spark_model::weights::{
    DenseWeight, ExpertWeight, Fp8ExpertWeight, Fp8Weight, PackedExpertWeights, PackedQ4Weight,
    PackedQ6Weight, QuantWeight, QuantizedWeight, WeightQuantFormat,
};

fn env(vars: &[(&str, &str)]) -> EnvVars {
    EnvVars { vars: vars.iter().map(|(k, v)| (k.to_string(), v.to_string())).collect() }
}

fn kernels() -> MoeKernels {
    MoeKernels {
        dense_gemm: KernelHandle(1),
        dense_gemv: KernelHandle(2),
        w4a16_gemm: KernelHandle(3),
        w4a16_gemv: KernelHandle(4),
        w4a16_gemv_sw: KernelHandle(5),
        moe_topk: KernelHandle(6),
        moe_topk_batched: KernelHandle(7),
        moe_topk_sigmoid: KernelHandle(8),
        moe_topk_sigmoid_batched: KernelHandle(9),
        moe_batched_blend: KernelHandle(10),
        moe_weighted_sum_blend_token_major: KernelHandle(11),
        moe_act_mul: KernelHandle(12),
        moe_silu_mul: KernelHandle(13),
        moe_grouped_gemm: KernelHandle(14),
        moe_grouped_gemm_t_k64: KernelHandle(15),
        moe_grouped_gemm_t_k64_worklist: KernelHandle(16),
        moe_fused_gate_up_t_k64: KernelHandle(17),
        moe_fused_gate_up_t_k64_m128: KernelHandle(18),
        moe_fused_gate_up_t_k64_worklist: KernelHandle(19),
        moe_fp8_grouped_gemm_t: KernelHandle(20),
        bf16_to_fp8: KernelHandle(21),
        moe_permute_tokens: KernelHandle(22),
        moe_build_tile_worklist: KernelHandle(23),
        moe_build_decode_worklist_c8: KernelHandle(24),
        moe_decode_persistent_gate_up_c8: KernelHandle(25),
        moe_decode_persistent_down_c8: KernelHandle(26),
        q4k_mmq_nc: KernelHandle(27),
        q4k_mmq_wc: KernelHandle(28),
        q4k_quant_act: KernelHandle(29),
        q6k_dequant: KernelHandle(30),
        exl3: Exl3MoeKernels { stage_routing: KernelHandle(901), replicate_a: KernelHandle(902), silu_mul: KernelHandle(903) },
    }
}

fn buffers() -> Buffers {
    Buffers {
        norm_output: DevicePtr(0x100000),
        moe_output: DevicePtr(0x200000),
        attn_output: DevicePtr(0x300000),
        gate_logits: DevicePtr(0x400000),
        scratch: DevicePtr(0x500000),
        qkv_output: DevicePtr(0x600000),
        expert_gate_out: DevicePtr(0x700000),
        expert_up_out: DevicePtr(0x800000),
        expert_down_out: DevicePtr(0x900000),
        ssm_deinterleaved: DevicePtr(0xa00000),
        ssm_qkvz: DevicePtr(0xb00000),
        ssm_gates: DevicePtr(0xc00000),
        ssm_conv_out_f32: DevicePtr(0xd00000),
        gdn_fla_scratch: DevicePtr(0xe00000),
        splitk_workspace: DevicePtr(0xf00000),
        lora_xa: DevicePtr(0x1000000),
        moe_decode_worklist: DevicePtr(0x1100000),
        moe_decode_worklist_count: DevicePtr(0x1200000),
    }
}

fn config() -> ModelConfig {
    ModelConfig {
        hidden_size: 256,
        intermediate_size: 512,
        moe_intermediate_size: 128,
        shared_expert_intermediate_size: 64,
        num_experts: 8,
        num_experts_per_tok: 2,
        norm_topk_prob: true,
        routed_scaling_factor: Scalar(0x3f80_0000),
        scoring_func: ScoringFunc::Other,
        ep_world_size: 1,
        local_lo: 0,
        local_hi: 8,
        rms_norm_eps: Scalar(0x3586_37bd),
        rope_theta: Scalar(0x461c_4000),
        rotary_dim: 64,
        linear_num_key_heads: 2,
        linear_key_head_dim: 128,
        linear_num_value_heads: 4,
        linear_value_head_dim: 128,
        linear_conv_kernel_dim: 4,
        ssm_qkvz_size: 1536,
        ssm_ba_size: 8,
    }
}

fn ctx() -> ForwardContext {
    ForwardContext {
        config: config(),
        buffers: buffers(),
        graph_capture: false,
        gdn_exact_replay: false,
        profile: false,
        comm_world_size: None,
        gemv_sw: false,
        max_decode_seqs: 8,
        moe_lora_route: MoeLoraRoute::Fold,
    }
}

fn quantized(at: u64) -> QuantizedWeight {
    QuantizedWeight { weight: DevicePtr(at), weight_scale: DevicePtr(at + 1), weight_scale_2: Scalar(at as u32) }
}

fn expert(e: u64) -> ExpertWeight {
    ExpertWeight {
        gate_proj: QuantizedWeight { weight_scale_2: Scalar(5), ..quantized(0x1000 + 16 * e) },
        up_proj: QuantizedWeight { weight_scale_2: Scalar(5), ..quantized(0x2000 + 16 * e) },
        down_proj: quantized(0x3000 + 16 * e),
    }
}

fn absent() -> ExpertWeight {
    ExpertWeight {
        gate_proj: QuantizedWeight::placeholder(),
        up_proj: QuantizedWeight::placeholder(),
        down_proj: QuantizedWeight::placeholder(),
    }
}

fn table(at: u64) -> ExpertPtrTable {
    ExpertPtrTable { packed_ptrs: DevicePtr(at), scale_ptrs: DevicePtr(at + 1), scale2_vals: DevicePtr(at + 2) }
}

fn layer(experts: Vec<ExpertWeight>) -> MoeLayer {
    MoeLayer {
        kernels: kernels(),
        weights: MoeWeights {
            experts,
            shared_expert: expert(100),
            gate: DenseWeight { weight: DevicePtr(0x9000) },
            shared_expert_gate: DenseWeight { weight: DevicePtr(0x9001) },
            packed_experts: None,
        },
        gate_nvfp4: None,
        correction_bias_dev: None,
        tid2eid_dev: None,
        router_logits_n: 8,
        pre_expert_norm: None,
        gelu_activation: false,
        experts_scale_kind: WeightQuantFormat::Nvfp4,
        nvfp4_gate_up_m128: false,
        gate_ptrs: table(10),
        up_ptrs: table(20),
        down_ptrs: table(30),
        gate_ptrs_t: None,
        up_ptrs_t: None,
        down_ptrs_t: None,
        shared_gate_t: None,
        shared_up_t: None,
        shared_down_t: None,
        fp4_gate_up: None,
        fp4_down: None,
        b12x: None,
        marlin: None,
        lora: None,
        exl3_expert_tables: None,
        exl3_moe_state: None,
        has_streamer: false,
        stream_dense_idx: 0,
        event_b: 77,
    }
}

fn launched(c: &Command) -> &KernelLaunch {
    match c {
        Command::Launch(l) => l,
        _ => panic!("{c:?}"),
    }
}

fn call() -> RoutedCall {
    RoutedCall {
        expert_input: DevicePtr(0x5000),
        expert_offsets: DevicePtr(0x6000),
        sorted_token_ids: DevicePtr(0x7000),
        n: 16,
        h: 256,
        inter: 128,
        num_experts: 8,
        top_k: 2,
    }
}

fn missing(module: &str, function: &str) -> KernelMissing {
    KernelMissing { module: module.to_string(), function: function.to_string() }
}

#[test]
fn setters_change_one_field() {
    let mut m = layer(vec![]);
    m.set_pre_expert_norm(DenseWeight { weight: DevicePtr(3) });
    assert_eq!(m.pre_expert_norm, Some(DenseWeight { weight: DevicePtr(3) }));
    m.set_expert_streamer(true, 9);
    assert!(m.has_streamer);
    assert_eq!(m.stream_dense_idx, 9);
    assert_eq!(m.set_gelu_activation(&KernelCatalog { entries: vec![] }), Err(missing("gelu", "gelu_mul")));
    assert!(!m.gelu_activation);
}

#[test]
fn plain_tables_take_one_launch_per_projection() {
    let m = layer(vec![]);
    let mut cb = CommandBuffer::new();
    m.run_routed_grouped_gemm(&mut cb, &call(), DevicePtr(0), None, &ctx(), &env(&[]));
    assert_eq!(cb.commands.len(), 4);
    assert_eq!(launched(&cb.commands[0]).kernel, m.kernels.moe_grouped_gemm);
    assert_eq!(launched(&cb.commands[1]).kernel, m.kernels.moe_grouped_gemm);
    assert!(matches!(cb.commands[2], Command::Op(DeviceOp::ActMul { n: 4096, .. })));
    assert_eq!(launched(&cb.commands[3]).kernel, m.kernels.moe_grouped_gemm);
}

#[test]
fn transposed_tables_fuse_gate_and_up() {
    let mut m = layer(vec![]);
    m.gate_ptrs_t = Some(table(40));
    m.up_ptrs_t = Some(table(50));
    m.down_ptrs_t = Some(table(60));
    let mut cb = CommandBuffer::new();
    m.run_routed_grouped_gemm(&mut cb, &call(), DevicePtr(0), None, &ctx(), &env(&[]));
    assert_eq!(cb.commands.len(), 3);
    assert_eq!(launched(&cb.commands[0]).kernel, m.kernels.moe_fused_gate_up_t_k64);
    assert_eq!(launched(&cb.commands[2]).kernel, m.kernels.moe_grouped_gemm_t_k64);
    m.nvfp4_gate_up_m128 = true;
    let mut cb = CommandBuffer::new();
    m.run_routed_grouped_gemm(
        &mut cb,
        &call(),
        DevicePtr(0),
        None,
        &ctx(),
        &env(&[("ATLAS_MOE_PREFILL_FP8_DOWN", "1")]),
    );
    assert_eq!(launched(&cb.commands[0]).kernel, m.kernels.moe_fused_gate_up_t_k64_m128);
    assert!(matches!(cb.commands[2], Command::Op(DeviceOp::Bf16ToFp8 { n: 4096, .. })));
    assert_eq!(launched(&cb.commands[3]).kernel, m.kernels.moe_fp8_grouped_gemm_t);
}

#[test]
fn ranks_clear_their_results_first() {
    let m = layer(vec![]);
    let mut c = ctx();
    c.comm_world_size = Some(2);
    let mut cb = CommandBuffer::new();
    m.run_routed_grouped_gemm(&mut cb, &call(), DevicePtr(0), None, &c, &env(&[]));
    assert!(cb.commands[..3].iter().all(|x| matches!(x, Command::Op(DeviceOp::Memset { value: 0, .. }))));
    assert_eq!(cb.commands.len(), 3 + 4);
    let mut cb = CommandBuffer::new();
    m.run_routed_grouped_gemm(&mut cb, &call(), DevicePtr(0), None, &ctx(), &env(&[]));
    assert!(!cb.commands.iter().any(|x| matches!(x, Command::Op(DeviceOp::Memset { .. }))));
}

#[test]
fn a_readback_decides_the_row_tiles() {
    let m = layer(vec![]);
    let mut c = call();
    c.n = 512;
    c.num_experts = 2;
    let y = |cb: &CommandBuffer| launched(&cb.commands[0]).grid.y;
    let mut cb = CommandBuffer::new();
    m.run_routed_grouped_gemm(&mut cb, &c, DevicePtr(0), None, &ctx(), &env(&[]));
    assert_eq!(y(&cb), 512 * 2 / 64);
    let exact = env(&[("ATLAS_MOE_PREFILL_EXACT_TILES", "1")]);
    let offsets: Vec<u8> = [0u32, 700, 1024].iter().flat_map(|v| v.to_le_bytes()).collect();
    let mut cb = CommandBuffer::new();
    m.run_routed_grouped_gemm(&mut cb, &c, DevicePtr(0), Some(&offsets), &ctx(), &exact);
    assert_eq!(y(&cb), 11);
    let capped = env(&[("ATLAS_MOE_PREFILL_MAX_LOAD_FACTOR", "1")]);
    let mut cb = CommandBuffer::new();
    m.run_routed_grouped_gemm(&mut cb, &c, DevicePtr(0), None, &ctx(), &capped);
    assert_eq!(y(&cb), 8);
}

#[test]
fn four_bit_products_read_their_own_tables() {
    let slot = Fp4Slot { packed: DevicePtr(1), scale: DevicePtr(2) };
    let mut m = layer(vec![expert(0)]);
    m.build_fp4_gate_up(&mut CommandBuffer::new(), &vec![slot], &vec![slot], table(70), table(80));
    let mut cb = CommandBuffer::new();
    m.run_routed_grouped_gemm(&mut cb, &call(), DevicePtr(0x77), None, &ctx(), &env(&[]));
    assert!(matches!(
        cb.commands[1],
        Command::Op(DeviceOp::GroupedGateUpFp4 { gate, up, rows: DevicePtr(0x77), .. })
            if gate == table(70) && up == table(80)
    ));
    assert_eq!(cb.commands[2], Command::Op(DeviceOp::Free { ptr: DevicePtr(0x77) }));
}

#[test]
fn absent_experts_have_no_slot() {
    let slots: Vec<Fp4Slot> =
        (0..2).map(|e| Fp4Slot { packed: DevicePtr(10 + e), scale: DevicePtr(20 + e) }).collect();
    let mut m = layer(vec![absent(), expert(0)]);
    m.build_fp4_gate_up(&mut CommandBuffer::new(), &slots, &slots, table(70), table(80));
    let t = m.fp4_gate_up.as_ref().unwrap();
    assert_eq!(t.gate.packed_ptrs, vec![0, 11]);
    assert_eq!(t.up.scale_ptrs, vec![0, 21]);
    assert_eq!(t.owned.len(), 4 + 6);
}

#[test]
fn a_scratch_for_gathering_is_sized_only_where_used() {
    let mut m = layer(vec![expert(0)]);
    assert_eq!(m.routed_permute_bytes(&call()), None);
    let slot = Fp4Slot { packed: DevicePtr(1), scale: DevicePtr(2) };
    let mut cb = CommandBuffer::new();
    m.build_fp4_gate_up(&mut cb, &vec![slot], &vec![slot], table(70), table(80));
    assert_eq!(m.routed_permute_bytes(&call()), Some(16 * 2 * 256 * 2));
}

fn marlin() -> MarlinMoeWeights {
    MarlinMoeWeights {
        w13: DevicePtr(1),
        w13_out: DevicePtr(2),
        w2: DevicePtr(3),
        w13_scales: DevicePtr(4),
        w2_scales: DevicePtr(5),
        w13_global: DevicePtr(6),
        w2_global: DevicePtr(7),
        reduce_tmp: DevicePtr(8),
        workspace: DevicePtr(9),
    }
}

fn rows(n: u32) -> RoutedRows {
    RoutedRows { input: DevicePtr(11), indices: DevicePtr(12), weights: DevicePtr(13), output: DevicePtr(14), n }
}

#[test]
fn marlin_serves_batches_of_four_to_eight() {
    let mut m = layer(vec![]);
    m.marlin = Some(marlin());
    for n in 0..12usize {
        let mut cb = CommandBuffer::new();
        let took = m.try_marlin_decode(&mut cb, DevicePtr(1), n, &ctx());
        assert_eq!(took, (4..=8).contains(&n));
        assert_eq!(cb.commands.len(), took as usize);
        let mut cb = CommandBuffer::new();
        let took = m.try_marlin_prefill(&mut cb, &rows(n as u32), &ctx(), &env(&[]));
        assert_eq!(took, (4..=8).contains(&n));
        assert_eq!(cb.commands.len(), if took { 6 } else { 0 });
    }
    let mut c = ctx();
    c.comm_world_size = Some(2);
    assert!(!m.try_marlin_decode(&mut CommandBuffer::new(), DevicePtr(1), 4, &c));
}

#[test]
fn marlin_waits_for_the_shared_expert_unless_told_not_to() {
    let mut m = layer(vec![]);
    m.marlin = Some(marlin());
    let mut cb = CommandBuffer::new();
    m.try_marlin_prefill(&mut cb, &rows(4), &ctx(), &env(&[]));
    assert_eq!(cb.commands[4], Command::Op(DeviceOp::WaitEvent { event: 77 }));
    let mut cb = CommandBuffer::new();
    m.try_marlin_prefill(&mut cb, &rows(4), &ctx(), &env(&[("ATLAS_MOE_MARLIN_SHARED_OVERLAP", "0")]));
    assert_eq!(cb.commands.len(), 5);
}

#[test]
fn marlin_needs_its_geometry_and_all_experts() {
    let on = env(&[("ATLAS_MOE_MARLIN", "1")]);
    assert!(available(&on, true));
    assert!(!available(&on, false));
    let m = layer(vec![]);
    assert_eq!(m.wants_marlin(&config(), &env(&[]), true), Ok(false));
    assert_eq!(m.wants_marlin(&config(), &on, true), Err(MarlinError::Geometry));
    let mut c = config();
    c.num_experts = 256;
    c.hidden_size = 2048;
    c.moe_intermediate_size = 512;
    c.num_experts_per_tok = 8;
    assert_eq!(m.wants_marlin(&c, &on, true), Err(MarlinError::NotResident));
    let full = layer((0..256).map(expert).collect());
    assert_eq!(full.wants_marlin(&c, &on, true), Ok(true));
}

#[test]
fn marlin_repacking_stops_at_split_scales() {
    let mut m = layer(vec![expert(0), expert(1)]);
    let mut cb = CommandBuffer::new();
    assert_eq!(m.repack_marlin_weights(&mut cb, DevicePtr(0x100), DevicePtr(0x200), DevicePtr(0x300)), Ok(()));
    assert_eq!(cb.commands.len(), 10);
    assert_eq!(
        cb.commands[6],
        Command::Op(DeviceOp::MarlinRepack { src: DevicePtr(0x300), dst: DevicePtr(0x100 + 1_048_576), k: 2048, n: 1024 })
    );
    m.weights.experts[1].up_proj.weight_scale_2 = Scalar(6);
    let mut cb = CommandBuffer::new();
    assert_eq!(
        m.repack_marlin_weights(&mut cb, DevicePtr(0x100), DevicePtr(0x200), DevicePtr(0x300)),
        Err(MarlinError::ScaleMismatch { expert: 1 })
    );
    let scales = vec![vec![0x38u8; 65_536]; 2];
    let mut cb = CommandBuffer::new();
    assert_eq!(m.install_marlin_weights(&mut cb, marlin(), &scales, &scales, &scales), (256, 256));
    assert_eq!(m.marlin, Some(marlin()));
    let uploads: Vec<(DevicePtr, usize)> = cb
        .commands
        .iter()
        .filter_map(|c| match c {
            Command::Upload { dst, bytes } => Some((*dst, bytes.len())),
            _ => None,
        })
        .collect();
    let w = marlin();
    assert_eq!(
        uploads,
        vec![(w.w13_scales, 2 * 131_072), (w.w2_scales, 2 * 65_536), (w.w13_global, 8), (w.w2_global, 8)]
    );
    assert_eq!(cb.commands[4], Command::Op(DeviceOp::Memset { dst: w.workspace, value: 0, bytes: 4096 }));
}

const LIB: B12xLib = B12xLib { max_tokens: 64, static_mask: 1 << 8, has_static: true };

fn b12x(max_tokens: u32) -> B12xMoeWeights {
    B12xMoeWeights {
        w13_fp4: DevicePtr(1),
        w13_sf: DevicePtr(2),
        w2_fp4: DevicePtr(3),
        w2_sf: DevicePtr(4),
        w1_alpha: DevicePtr(5),
        w2_alpha: DevicePtr(6),
        fc2_gs: DevicePtr(7),
        max_tokens,
    }
}

#[test]
fn the_fused_kernel_runs_within_its_capacity() {
    let on = env(&[("ATLAS_MOE_B12X", "1"), ("ATLAS_MOE_B12X_STATIC", "1")]);
    let mut m = layer(vec![]);
    let mut cb = CommandBuffer::new();
    assert_eq!(m.try_b12x_prefill(&mut cb, &rows(8), &ctx(), &on, Some(LIB)), Ok(false));
    m.b12x = Some(b12x(128));
    assert_eq!(m.try_b12x_prefill(&mut cb, &rows(8), &ctx(), &env(&[]), Some(LIB)), Ok(false));
    assert_eq!(m.try_b12x_prefill(&mut cb, &rows(8), &ctx(), &on, None), Ok(false));
    assert_eq!(m.try_b12x_prefill(&mut cb, &rows(129), &ctx(), &on, Some(LIB)), Ok(false));
    assert!(cb.commands.is_empty());
    assert_eq!(
        m.try_b12x_prefill(&mut cb, &rows(65), &ctx(), &on, Some(LIB)),
        Err(B12xError::OverCapacity { n: 65, max_tokens: 64 })
    );
    assert_eq!(m.try_b12x_prefill(&mut cb, &rows(8), &ctx(), &on, Some(LIB)), Ok(true));
    assert_eq!(m.try_b12x_prefill(&mut cb, &rows(9), &ctx(), &on, Some(LIB)), Ok(true));
    assert!(matches!(cb.commands[0], Command::Op(DeviceOp::B12xMoe { static_kernel: true, tokens: 8, .. })));
    assert!(matches!(cb.commands[1], Command::Op(DeviceOp::B12xMoe { static_kernel: false, tokens: 9, .. })));
}

#[test]
fn fused_weights_are_wanted_for_resident_single_rank_layers() {
    let m = layer(vec![expert(0)]);
    assert_eq!(m.wants_b12x(&config(), Some(64)), Ok(true));
    assert_eq!(m.wants_b12x(&config(), None), Ok(false));
    let mut c = config();
    c.ep_world_size = 2;
    assert_eq!(m.wants_b12x(&c, Some(64)), Ok(false));
    assert_eq!(layer(vec![expert(0), absent()]).wants_b12x(&config(), Some(64)), Ok(false));
    let mut s = layer(vec![expert(0)]);
    s.has_streamer = true;
    assert_eq!(s.wants_b12x(&config(), Some(64)), Err(StreamedExperts));
}

#[test]
fn joined_weights_put_up_before_gate() {
    let m = layer(vec![expert(0), expert(1)]);
    let g = m.b12x_geometry(&config());
    assert_eq!(g, B12xGeometry { experts: 2, h: 256, inter: 128 });
    let mut cb = CommandBuffer::new();
    m.join_b12x_weights(&mut cb, g, DevicePtr(0x10_0000), DevicePtr(0x20_0000));
    let copies: Vec<(u64, u64, usize)> = cb
        .commands
        .iter()
        .filter_map(|c| match c {
            Command::Op(DeviceOp::CopyD2D { src, dst, bytes }) => Some((src.0, dst.0, *bytes)),
            _ => None,
        })
        .collect();
    let half = 128 * 128;
    assert_eq!(
        copies,
        vec![
            (0x2000, 0x10_0000, half),
            (0x1000, 0x10_0000 + half as u64, half),
            (0x3000, 0x20_0000, 256 * 64),
            (0x2010, 0x10_0000 + 2 * half as u64, half),
            (0x1010, 0x10_0000 + 3 * half as u64, half),
            (0x3010, 0x20_0000 + 256 * 64, 256 * 64),
        ]
    );
    let src = m.b12x_scale_sources();
    assert_eq!(src[1].up, DevicePtr(0x2011));
    assert_eq!(src[1].down_ws2, Scalar(0x3010));
}

#[test]
fn pointer_tables_list_every_expert() {
    let mut cb = CommandBuffer::new();
    build_ptr_table(&mut cb, &vec![expert(0), expert(1)], Projection::Down, table(90));
    let bytes: Vec<u8> = [0x3000u64, 0x3010].iter().flat_map(|v| v.to_le_bytes()).collect();
    assert_eq!(cb.commands[0], Command::Upload { dst: DevicePtr(90), bytes });
    assert_eq!(cb.commands.len(), 3);
    let mut cb = CommandBuffer::new();
    build_bf16_ptr_table(&mut cb, &vec![DenseWeight { weight: DevicePtr(5) }], DevicePtr(6));
    assert_eq!(cb.commands, vec![Command::Upload { dst: DevicePtr(6), bytes: 5u64.to_le_bytes().to_vec() }]);
    let w = |at: u64| Fp8Weight { weight: DevicePtr(at), row_scale: DevicePtr(at + 1), n: 1, k: 1 };
    let x = Fp8ExpertWeight { gate_proj: w(1), up_proj: w(3), down_proj: w(5) };
    let mut cb = CommandBuffer::new();
    build_fp8_ptr_table(
        &mut cb,
        &vec![x],
        Projection::Up,
        Fp8ExpertPtrTable { weight_ptrs: DevicePtr(7), scale_ptrs: DevicePtr(8) },
    );
    assert_eq!(cb.commands[1], Command::Upload { dst: DevicePtr(8), bytes: 4u64.to_le_bytes().to_vec() });
    assert_eq!(encode_scalars(&vec![Scalar(0x0403_0201)]), vec![1, 2, 3, 4]);
}

fn target(at: u64, n: u64) -> TransposeTarget {
    TransposeTarget { experts: (0..n).map(|e| quantized(at + 8 * e)).collect(), table: table(at + 500), shared: quantized(at + 900) }
}

#[test]
fn transposition_keeps_absent_experts_absent() {
    let mut m = layer(vec![expert(0), absent()]);
    let mut cb = CommandBuffer::new();
    m.transpose_for_prefill(&mut cb, &config(), &target(0x100, 2), &target(0x1100, 2), &target(0x2100, 2));
    let moved: Vec<(QuantizedWeight, usize, usize)> = cb
        .commands
        .iter()
        .filter_map(|c| match c {
            Command::Op(DeviceOp::TransposeForGemm { src, n, k, .. }) => Some((*src, *n, *k)),
            _ => None,
        })
        .collect();
    assert!(moved.contains(&(expert(0).gate_proj, 128, 256)));
    assert!(moved.contains(&(expert(0).down_proj, 256, 128)));
    assert!(!moved.iter().any(|(s, _, _)| s.is_null()));
    assert_eq!(m.gate_ptrs_t, Some(table(0x100 + 500)));
    assert_eq!(m.down_ptrs_t, Some(table(0x2100 + 500)));
    assert_eq!(m.weights.experts[0], expert(0));
}

#[test]
fn experts_are_transposed_one_by_one_before_their_tables() {
    let mut m = layer(vec![expert(0), expert(1)]);
    let mut cb = CommandBuffer::new();
    m.transpose_for_prefill(&mut cb, &config(), &target(0x100, 2), &target(0x1100, 2), &target(0x2100, 2));
    let moved: Vec<QuantizedWeight> = cb.commands[..6]
        .iter()
        .filter_map(|c| match c {
            Command::Op(DeviceOp::TransposeForGemm { src, .. }) => Some(*src),
            _ => None,
        })
        .collect();
    let (a, b) = (expert(0), expert(1));
    assert_eq!(moved, vec![a.gate_proj, a.up_proj, a.down_proj, b.gate_proj, b.up_proj, b.down_proj]);
    assert!(matches!(cb.commands[6], Command::Upload { .. }));
}

#[test]
fn nothing_is_read_after_its_release() {
    let mut m = layer(vec![expert(0), expert(1)]);
    let mut cb = CommandBuffer::new();
    m.transpose_for_prefill_unified(&mut cb, &config(), &target(0x100, 2), &target(0x1100, 2), &target(0x2100, 2));
    let mut gone: Vec<DevicePtr> = vec![];
    let mut read = 0;
    for c in &cb.commands {
        match c {
            Command::Op(DeviceOp::Free { ptr }) => gone.push(*ptr),
            Command::Op(DeviceOp::TransposeForGemm { src, .. }) => {
                assert!(!gone.contains(&src.weight) && !gone.contains(&src.weight_scale));
                read += 1;
            }
            _ => {}
        }
    }
    assert!(read >= 6 && gone.len() >= 12);
}

#[test]
fn phased_transposition_releases_originals_once() {
    let mut m = layer(vec![expert(0)]);
    let mut cb = CommandBuffer::new();
    m.transpose_phase_gate_up(&mut cb, &config(), &target(0x100, 1), &target(0x1100, 1), false);
    m.transpose_phase_down(&mut cb, &config(), &target(0x2100, 1), false);
    let mut freed: Vec<u64> = cb
        .commands
        .iter()
        .filter_map(|c| match c {
            Command::Op(DeviceOp::Free { ptr }) => Some(ptr.0),
            _ => None,
        })
        .collect();
    freed.sort();
    let n = freed.len();
    freed.dedup();
    assert_eq!(freed.len(), n);
    assert!(freed.contains(&0x1000) && freed.contains(&0x2000) && freed.contains(&0x3000));
}

#[test]
fn four_bit_slots_are_sized_by_values_and_groups() {
    assert_eq!(fp4_slot_bytes(128, 256), (128 * 256 / 2, 128 * 256 / 16));
    assert_eq!(fp4_table_bytes(8), (64, 32));
    let m = layer(vec![expert(0), absent()]);
    assert_eq!(m.fp4_gate_up_experts(), vec![true, false]);
    assert_eq!(m.fp4_down_experts(), vec![true, false]);
}

#[test]
fn nibbles_expand_under_both_scales() {
    // 0x38 is a block scale of one, 0x40 of two.
    let packed: Vec<u8> = vec![0x10, 0x32, 0x54, 0x76, 0x98, 0xba, 0xdc, 0xfe].repeat(2);
    let out = dequant_nvfp4(&packed, &vec![0x38, 0x40], Scalar(0.25f32.to_bits()), 32);
    let v: Vec<f32> = out
        .chunks_exact(2)
        .map(|c| f32::from_bits((u16::from_le_bytes([c[0], c[1]]) as u32) << 16))
        .collect();
    let table = [0.0f32, 0.5, 1.0, 1.5, 2.0, 3.0, 4.0, 6.0];
    assert_eq!(v.len(), 32);
    for i in 0..16 {
        let sign = if i < 8 { 1.0 } else { -1.0 };
        assert_eq!(v[i].to_bits(), (sign * table[i % 8] * 0.25).to_bits());
        assert_eq!(v[16 + i].to_bits(), (sign * table[i % 8] * 0.5).to_bits());
    }
}

#[test]
fn values_behind_the_last_whole_group_are_zero() {
    let out = dequant_nvfp4(&vec![0x77; 9], &vec![0x38], Scalar(1.0f32.to_bits()), 18);
    assert_eq!(out.len(), 36);
    assert_eq!(&out[..2], &bf16::from_f32(6.0).to_bits().to_le_bytes());
    assert_eq!(&out[30..], &[0xc0, 0x40, 0, 0, 0, 0]);
}

#[test]
fn expanded_values_are_rounded_products() {
    let e2m1 = [0.0f32, 0.5, 1.0, 1.5, 2.0, 3.0, 4.0, 6.0];
    for (scale, global) in [(0x3bu8, 0.0371f32), (0x01, 1.0e-3), (0x7e, 3.3e-5), (0x7f, 2.0), (0x9a, 7.7)] {
        let packed: Vec<u8> = vec![0x10, 0x32, 0x54, 0x76, 0x98, 0xba, 0xdc, 0xfe];
        let out = dequant_nvfp4(&packed, &vec![scale], Scalar(global.to_bits()), 16);
        let s = f32::from_bits(e4m3_byte_to_f32(scale).0) * global;
        for i in 0..16 {
            let e = if i < 8 { e2m1[i] } else { -e2m1[i % 8] };
            let got = u16::from_le_bytes([out[2 * i], out[2 * i + 1]]);
            assert_eq!(got, bf16::from_f32(e * s).to_bits());
        }
    }
}

fn lora_pair() -> LoraPair {
    LoraPair {
        a: DenseWeight { weight: DevicePtr(1) },
        b: DenseWeight { weight: DevicePtr(2) },
        rank: 8,
        k_in: 256,
        n_out: 8,
        scale: Scalar(1),
        max_rank: 8,
    }
}

fn lora_kernels() -> LoraKernels {
    LoraKernels { gemv_k: KernelHandle(1), gemm_tc_k: KernelHandle(2), gemm_k: KernelHandle(3), scaled_add_k: KernelHandle(4) }
}

fn lora_memory() -> MoeLoraMemory {
    MoeLoraMemory {
        xa: DevicePtr(1),
        delta: DevicePtr(2),
        a_table: DevicePtr(3),
        b_table: DevicePtr(4),
        scale_table: DevicePtr(5),
    }
}

fn lora_env() -> EnvVars {
    env(&[("ATLAS_LORA_EXPERT_MAX_TOKENS", "16")])
}

fn with_lora() -> MoeLayer {
    let mut m = layer(vec![]);
    let none = ExpertLoraLayer { pairs: vec![] };
    let mut cb = CommandBuffer::new();
    let r = m.set_lora_weights(
        &mut cb,
        Some(lora_pair()),
        &none,
        lora_kernels(),
        lora_memory(),
        &lora_env(),
    );
    assert_eq!(r, Ok(()));
    assert!(m.lora.is_some());
    assert_eq!(cb.commands.len(), 2);
    m
}

fn down_pair(expert: u16, at: u64) -> ExpertPair {
    ExpertPair {
        expert,
        proj: ExpertProj::Down,
        pair: LoraPair {
            a: DenseWeight { weight: DevicePtr(at) },
            b: DenseWeight { weight: DevicePtr(at + 0x80) },
            rank: 2,
            k_in: 32,
            n_out: 64,
            scale: Scalar((expert as f32 + 0.5).to_bits()),
            max_rank: 4,
        },
    }
}

#[test]
fn installed_adapters_have_their_tables_on_the_device() {
    let mut m = layer(vec![]);
    let experts = ExpertLoraLayer { pairs: vec![down_pair(3, 0x100), down_pair(1, 0x200)] };
    let mut cb = CommandBuffer::new();
    let r =
        m.set_lora_weights(&mut cb, None, &experts, lora_kernels(), lora_memory(), &lora_env());
    assert_eq!(r, Ok(()));
    let words = |v: [u64; 4]| v.iter().flat_map(|x| x.to_le_bytes()).collect::<Vec<u8>>();
    let scales = [0.0f32, 1.5, 0.0, 3.5].iter().flat_map(|x| x.to_le_bytes()).collect();
    assert_eq!(
        cb.commands,
        vec![
            Command::Op(DeviceOp::Memset { dst: DevicePtr(1), value: 0, bytes: 16 * 4 * 2 }),
            Command::Op(DeviceOp::Memset { dst: DevicePtr(2), value: 0, bytes: 16 * 32 * 2 }),
            Command::Upload { dst: DevicePtr(3), bytes: words([0, 0x200, 0, 0x100]) },
            Command::Upload { dst: DevicePtr(4), bytes: words([0, 0x280, 0, 0x180]) },
            Command::Upload { dst: DevicePtr(5), bytes: scales },
        ]
    );
    assert_eq!(
        m.lora.as_ref().and_then(|l| l.expert_route),
        Some(MoeExpertRoute {
            a_table: DevicePtr(3),
            b_table: DevicePtr(4),
            scale_table: DevicePtr(5),
            n_experts: 4,
            k_in: 32,
            n_out: 64,
            max_rank: 4,
        })
    );
}

#[test]
fn refused_adapters_leave_the_layer_alone_and_empty_ones_remove() {
    let mut m = with_lora();
    let mut gate = down_pair(3, 0x100);
    gate.proj = ExpertProj::Gate;
    let experts = ExpertLoraLayer { pairs: vec![down_pair(1, 0x200), gate] };
    let mut cb = CommandBuffer::new();
    let r =
        m.set_lora_weights(&mut cb, None, &experts, lora_kernels(), lora_memory(), &lora_env());
    assert_eq!(r, Err(MoeLoraError::NotDown { expert: 3, proj: ExpertProj::Gate }));
    assert_eq!(m, with_lora());
    let none = ExpertLoraLayer { pairs: vec![] };
    let r = m.set_lora_weights(&mut cb, None, &none, lora_kernels(), lora_memory(), &lora_env());
    assert_eq!(r, Ok(()));
    assert_eq!(m, layer(vec![]));
    assert!(cb.commands.is_empty());
}

fn dense_at(at: u64) -> DenseWeight {
    DenseWeight { weight: DevicePtr(at) }
}

fn ssm_kernels() -> SsmKernels {
    SsmKernels {
        rms_norm_residual: KernelHandle(200),
        residual_add_rms_norm: KernelHandle(201),
        residual_add: KernelHandle(202),
        dense_gemm: KernelHandle(203),
        w8a16_gemm: KernelHandle(204),
        w8a16_gemm_pipelined: KernelHandle(205),
        w8a16_gemv_batch4: KernelHandle(206),
        w8a16_gemv_batch16: KernelHandle(207),
        ba_gates: KernelHandle(208),
        ba_gates_prefill: KernelHandle(209),
        conv1d_l2norm_f32: KernelHandle(210),
        gdn_f32: KernelHandle(211),
        gdn_f32_norm: KernelHandle(212),
        gdn_f32_strided: KernelHandle(213),
        gdn_f32_strided_norm: KernelHandle(214),
        gated_rms_norm_f32: KernelHandle(215),
        gated_rms_norm_prefill: KernelHandle(216),
        gated_rms_norm_prefill_f32: KernelHandle(217),
        gdn_prefill_split4: KernelHandle(218),
        gdn_prefill_regresident: KernelHandle(219),
        gdn_prefill_persistent: KernelHandle(220),
        gdn_prefill_persistent_wy4: KernelHandle(221),
        gdn_prefill_fla_recompute_wu: KernelHandle(222),
        gdn_prefill_fla_chunk_delta_h: KernelHandle(223),
        gdn_prefill_fla_chunk_delta_h_tc_vblock: KernelHandle(224),
        gdn_prefill_fla_chunk_fwd_o: KernelHandle(225),
    }
}

fn ssm() -> Qwen3SsmLayer {
    Qwen3SsmLayer {
        kernels: ssm_kernels(),
        ssm: SsmWeights {
            in_proj_qkvz: dense_at(1),
            in_proj_ba: dense_at(2),
            a_log: dense_at(3),
            dt_bias: dense_at(4),
            conv1d: dense_at(5),
            norm: dense_at(6),
        },
        input_norm: dense_at(7),
        post_attn_norm: dense_at(8),
        sequential_qkvz: false,
        qkvz_nvfp4: None,
        qkvz_fp8w: None,
        out_proj_fp8w: None,
        out_proj_dense: Some(dense_at(9)),
        h_state_bytes: 4096,
        conv_state_bytes: 1024,
        ffn_is_moe: true,
    }
}

#[test]
fn adapters_of_a_recurrent_layer_need_experts() {
    let experts = ExpertLoraLayer { pairs: vec![] };
    let (mem, vars) = (lora_memory(), lora_env());
    let pair = Some(lora_pair());
    let mut l = ssm();
    let mut m = layer(vec![]);
    let mut cb = CommandBuffer::new();
    l.ffn_is_moe = false;
    let r =
        l.set_moe_lora_weights(&mut m, &mut cb, pair, &experts, lora_kernels(), mem, &vars);
    assert_eq!(r, Err(MoeLoraError::NotMoe));
    assert_eq!(m, layer(vec![]));
    l.ffn_is_moe = true;
    let r =
        l.set_moe_lora_weights(&mut m, &mut cb, pair, &experts, lora_kernels(), mem, &vars);
    assert_eq!(r, Ok(()));
    assert_eq!(m, with_lora());
}

#[test]
fn requests_fold_skip_or_are_refused() {
    let m = with_lora();
    let mut c = ctx();
    assert_eq!(m.moe_route_gate(&c), Ok(true));
    c.moe_lora_route = MoeLoraRoute::Skip;
    assert_eq!(m.moe_route_gate(&c), Ok(false));
    c.moe_lora_route = MoeLoraRoute::Refuse;
    assert_eq!(m.moe_route_gate(&c), Err(MoeLoraError::MixedRows));
    assert_eq!(m.reject_decode_lora(), Err(MoeLoraError::Decode));
    assert_eq!(layer(vec![]).reject_decode_lora(), Ok(()));
}

#[test]
fn a_router_adapter_adds_to_the_logits() {
    let m = with_lora();
    let mut cb = CommandBuffer::new();
    assert_eq!(m.apply_router_lora_prefill(&mut cb, DevicePtr(8), DevicePtr(9), 4, &ctx()), Ok(()));
    assert!(matches!(cb.commands[0], Command::Op(DeviceOp::RouterLora { rows: 4, cap: 16, .. })));
    let mut none = CommandBuffer::new();
    assert_eq!(layer(vec![]).apply_router_lora_prefill(&mut none, DevicePtr(8), DevicePtr(9), 4, &ctx()), Ok(()));
    assert!(none.commands.is_empty());
}

fn packed(down: QuantWeight) -> PackedExpertWeights {
    let w = |at: u64| PackedQ4Weight { weight: DevicePtr(at), n: 128, k: 256 };
    PackedExpertWeights { gate: w(1), up: w(2), down }
}

fn q4_down() -> QuantWeight {
    QuantWeight::PackedQ4(PackedQ4Weight { weight: DevicePtr(3), n: 256, k: 128 })
}

const SCRATCH: PackedScratch = PackedScratch { permuted: DevicePtr(0x100), q8: DevicePtr(0x200), down: DevicePtr(0x300) };

#[test]
fn packed_experts_run_one_by_one() {
    let mut m = layer(vec![]);
    assert_eq!(m.packed_scratch_bytes(&call()), Err(PackedMoeError::NotPacked));
    let mut c = call();
    c.num_experts = 2;
    m.weights.packed_experts = Some(vec![packed(q4_down()), packed(QuantWeight::Other)]);
    let offs = |v: [i32; 3]| -> Vec<u8> { v.iter().flat_map(|x| x.to_le_bytes()).collect() };
    let mut cb = CommandBuffer::new();
    assert_eq!(m.run_routed_grouped_gemm_packed(&mut cb, &c, SCRATCH, &offs([0, 32, 32]), &ctx()), Ok(()));
    assert!(!cb.commands.is_empty());
    let mut cb = CommandBuffer::new();
    assert_eq!(
        m.run_routed_grouped_gemm_packed(&mut cb, &c, SCRATCH, &offs([0, 16, 32]), &ctx()),
        Err(PackedMoeError::UnexpectedDown { expert: 1 })
    );
    let mut cb = CommandBuffer::new();
    assert_eq!(
        m.run_routed_grouped_gemm_packed(&mut cb, &c, SCRATCH, &vec![0u8; 4], &ctx()),
        Err(PackedMoeError::BadOffsets)
    );
}

#[test]
fn packed_layers_need_no_other_kernels() {
    let q6 = QuantWeight::PackedQ6(PackedQ6Weight { weight: DevicePtr(4), n: 1, k: 256 });
    let none = KernelCatalog { entries: vec![] };
    let plain = PackedGgufInit::new(None);
    assert!(!plain.packed_path);
    assert_eq!(plain.required_kernel(&none, "m", "f"), Err(missing("m", "f")));
    let p = PackedGgufInit::new(Some(&vec![packed(q4_down()), packed(q4_down())]));
    assert!(p.packed_path);
    assert_eq!(p.required_kernel(&none, "m", "f"), Ok(KernelHandle(0)));
    assert_eq!(p.down.as_ref().map(|d| d.len()), Some(2));
    assert_eq!(PackedGgufInit::new(Some(&vec![packed(q6)])).down, None);
    let some = KernelCatalog {
        entries: vec![KernelEntry { module: "m".to_string(), function: "f".to_string(), handle: KernelHandle(3) }],
    };
    assert_eq!(plain.kernel(&some, "m", "f"), KernelHandle(3));
}

fn trellis() -> MoeLayer {
    let mut m = layer(vec![]);
    let t = Exl3ExpertPtrTable {
        trellis_ptrs: DevicePtr(1),
        suh_ptrs: DevicePtr(2),
        svh_ptrs: DevicePtr(3),
        k_bits: 4,
        cb: 0,
        local_start: 0,
        num_local: 8,
    };
    m.exl3_expert_tables = Some(Exl3Tables { gate: t, up: t, down: t });
    m.exl3_moe_state = Some(Exl3MoeState {
        a_f16: DevicePtr(10),
        a_had_f16: DevicePtr(11),
        c_gate_f32: DevicePtr(12),
        c_up_f32: DevicePtr(13),
        inter_f16: DevicePtr(14),
        c_down_f32: DevicePtr(15),
        b_indices: DevicePtr(16),
        b_weights: DevicePtr(17),
        locks: DevicePtr(18),
        s_cap: 8,
        hidden: 256,
        sm_count: 48,
    });
    m
}

#[test]
fn trellis_experts_run_after_routing() {
    let m = trellis();
    assert!(m.exl3_native_active());
    assert!(!layer(vec![]).exl3_native_active());
    let mut cb = CommandBuffer::new();
    let c = ctx();
    let r = m.forward_exl3_after_routing(&mut cb, DevicePtr(1), 3, DevicePtr(2), DevicePtr(3), &c, &env(&[]));
    assert_eq!(r, Ok(c.buffers.moe_output));
    assert_eq!(cb.commands.len(), 7 + 2 + 2);
    assert_eq!(cb.commands[0], Command::Op(DeviceOp::Exl3DispatchBegin));
    assert_eq!(cb.commands[10], Command::Op(DeviceOp::Exl3DispatchEnd));
    match cb.commands[6] {
        Command::Op(DeviceOp::Exl3Mgemm(a)) => {
            assert_eq!((a.k, a.n), (128, 256));
            assert_eq!(a.b_weights, Some(DevicePtr(17)));
        },
        _ => panic!(),
    }
}

#[test]
fn trellis_refusals_are_told_apart() {
    let run = |m: &MoeLayer, c: &ForwardContext, rows: usize| {
        m.forward_exl3_after_routing(&mut CommandBuffer::new(), DevicePtr(1), rows, DevicePtr(2), DevicePtr(3), c, &env(&[]))
    };
    let mut c = ctx();
    c.graph_capture = true;
    assert_eq!(run(&trellis(), &c, 1), Err(Exl3Error::GraphCapture));
    let mut m = trellis();
    m.router_logits_n = 9;
    assert_eq!(run(&m, &ctx(), 1), Err(Exl3Error::Routing));
    let mut m = trellis();
    m.pre_expert_norm = Some(DenseWeight { weight: DevicePtr(1) });
    assert_eq!(run(&m, &ctx(), 1), Err(Exl3Error::PreExpertNorm));
    let mut m = trellis();
    m.lora = with_lora().lora;
    assert_eq!(run(&m, &ctx(), 1), Err(Exl3Error::Lora));
    let mut m = trellis();
    m.exl3_moe_state = None;
    assert_eq!(run(&m, &ctx(), 1), Err(Exl3Error::NoState));
    assert_eq!(run(&trellis(), &ctx(), 5), Err(Exl3Error::Decode(Exl3DecodeError::Slots { slots: 10, s_cap: 8 })));
    let mut c = ctx();
    c.config.moe_intermediate_size = 100;
    assert_eq!(
        run(&trellis(), &c, 1),
        Err(Exl3Error::Decode(Exl3DecodeError::Alignment { hidden: 256, inter: 100 }))
    );
    assert_eq!(
        exl3_silu_mul_f16(&mut CommandBuffer::new(), KernelHandle(1), DevicePtr(1), DevicePtr(2), DevicePtr(3), Scalar(0), 7),
        Err(Exl3DecodeError::OddCount { numel: 7 })
    );
}

#[test]
fn rows_are_routed_alone_only_in_exact_passes() {
    let m = trellis();
    let on = env(&[("ATLAS_VERIFY_EXL3_ROW_ROUTER", "1"), ("ATLAS_VERIFY_EXL3_STABLE_GRID", "1")]);
    let mut c = ctx();
    let mut cb = CommandBuffer::new();
    assert_eq!(m.forward_exl3_decode(&mut cb, DevicePtr(1), DevicePtr(2), 3, &c, &on), Ok(()));
    assert_eq!(
        cb.commands[0],
        Command::Op(DeviceOp::RouterInput { input: DevicePtr(1), output: DevicePtr(2), n: 3, h: 256 })
    );
    assert!(matches!(cb.commands[1], Command::Op(DeviceOp::Matmul { kind: MatmulKind::DenseGemm, m: 3, .. })));
    c.gdn_exact_replay = true;
    assert!(stable_grid_enabled(&c, &on, 3));
    assert!(!stable_grid_enabled(&c, &on, 5));
    let mut cb = CommandBuffer::new();
    assert_eq!(m.forward_exl3_decode(&mut cb, DevicePtr(1), DevicePtr(0x2000), 3, &c, &on), Ok(()));
    for i in 0..3 {
        assert!(matches!(
            cb.commands[i + 1],
            Command::Op(DeviceOp::Matmul { kind: MatmulKind::DenseGemv, m: 1, input, .. }) if input.0 == 0x2000 + i as u64 * 512
        ));
    }
}

#[test]
fn a_bias_is_refused_for_scores_without_one() {
    let mut m = trellis();
    m.correction_bias_dev = Some(DevicePtr(5));
    let mut c = ctx();
    c.config.scoring_func = ScoringFunc::parse("softmax");
    let mut cb = CommandBuffer::new();
    assert_eq!(m.forward_exl3_decode(&mut cb, DevicePtr(1), DevicePtr(2), 2, &c, &env(&[])), Err(Exl3Error::BiasScoring));
    assert_eq!(cb.commands.len(), 2);
    assert_eq!(m.exl3_row_topk(&mut CommandBuffer::new(), 2, &c), Err(Exl3Error::BiasScoring));
    c.config.scoring_func = ScoringFunc::parse("sigmoid");
    let mut cb = CommandBuffer::new();
    assert_eq!(m.exl3_row_topk(&mut cb, 2, &c), Ok(()));
    assert_eq!(cb.commands.len(), 2);
}

#[test]
fn compact_passes_need_their_kernels_and_rows() {
    let mut m = layer(vec![]);
    let mut c = call();
    c.n = 8;
    let both = env(&[("ATLAS_MOE_NVFP4_COMPACT_DECODE", "both")]);
    assert!(!m.try_compact_nvfp4_decode(&mut CommandBuffer::new(), &c, &ctx(), &both));
    m.gate_ptrs_t = Some(table(40));
    m.up_ptrs_t = Some(table(50));
    m.down_ptrs_t = Some(table(60));
    assert!(!m.try_compact_nvfp4_decode(&mut CommandBuffer::new(), &c, &ctx(), &env(&[])));
    assert!(!m.try_compact_nvfp4_decode(&mut CommandBuffer::new(), &call(), &ctx(), &both));
    let mut cb = CommandBuffer::new();
    assert!(m.try_compact_nvfp4_decode(&mut cb, &c, &ctx(), &both));
    assert!(cb.commands.iter().any(|x| matches!(x, Command::Op(DeviceOp::BuildTileWorklist { .. }))));
    let persistent = env(&[("ATLAS_MOE_PERSISTENT_DECODE", "1")]);
    let mut cb = CommandBuffer::new();
    assert!(m.try_persistent_nvfp4_decode(&mut cb, &c, &ctx(), &persistent));
    assert_eq!(cb.commands.len(), 3);
    assert_eq!(launched(&cb.commands[2]).kernel, m.kernels.moe_decode_persistent_down_c8);
    m.experts_scale_kind = WeightQuantFormat::Mxfp4E8m0;
    assert!(!m.try_persistent_nvfp4_decode(&mut CommandBuffer::new(), &c, &ctx(), &persistent));
}

#[test]
fn a_unified_layout_keeps_no_original() {
    let mut m = layer(vec![expert(0), absent()]);
    let mut cb = CommandBuffer::new();
    m.transpose_for_prefill_unified(&mut cb, &config(), &target(0x100, 2), &target(0x1100, 2), &target(0x2100, 2));
    let x = &m.weights.experts[0];
    assert!(x.gate_proj.is_null() && x.up_proj.is_null() && x.down_proj.is_null());
    assert!(m.weights.shared_expert.down_proj.is_null());
    assert_eq!(m.shared_down_t, Some(quantized(0x2100 + 900)));
    let mut h = layer(vec![expert(0), absent()]);
    let mut cb = CommandBuffer::new();
    h.transpose_for_prefill_hybrid(&mut cb, &config(), &target(0x100, 2), &target(0x1100, 2), &target(0x2100, 2));
    assert_eq!(h.weights.experts[0], expert(0));
    assert_eq!(h.down_ptrs_t, m.down_ptrs_t);
    assert!(!cb.commands.iter().any(|c| matches!(c, Command::Op(DeviceOp::Free { .. }))));
}

fn named(names: &[&str]) -> KernelCatalog {
    KernelCatalog {
        entries: names
            .iter()
            .enumerate()
            .map(|(i, n)| KernelEntry {
                module: "exl3_matmul".to_string(),
                function: n.to_string(),
                handle: KernelHandle(900 + i as u64),
            })
            .collect(),
    }
}

#[test]
fn trellis_kernels_are_all_needed() {
    let all = ["exl3_moe_stage_routing", "exl3_moe_replicate_a_bf16", "exl3_silu_mul_f16"];
    let k = match Exl3MoeKernels::resolve(&named(&all)) {
        Ok(k) => k,
        Err(e) => panic!("{e:?}"),
    };
    assert_eq!(k.stage_routing, KernelHandle(900));
    assert_eq!(k.replicate_a, KernelHandle(901));
    assert_eq!(k.silu_mul, KernelHandle(902));
    assert_eq!(Exl3MoeKernels::resolve(&named(&all[..2])), Err(missing("exl3_matmul", "exl3_silu_mul_f16")));
    assert_eq!(Exl3MoeKernels::resolve(&named(&all[1..])), Err(missing("exl3_matmul", "exl3_moe_stage_routing")));
}

fn expert_route() -> MoeExpertRoute {
    MoeExpertRoute {
        a_table: DevicePtr(0x51),
        b_table: DevicePtr(0x52),
        scale_table: DevicePtr(0x53),
        n_experts: 8,
        k_in: 512,
        n_out: 256,
        max_rank: 16,
    }
}

#[test]
fn expert_adapters_fold_once_within_the_scratch() {
    let mut m = with_lora();
    let mut l = m.lora.unwrap();
    let fold = |m: &MoeLayer, te: u32, route: MoeLoraRoute| {
        let mut cb = CommandBuffer::new();
        let mut c = ctx();
        c.moe_lora_route = route;
        let r = m.apply_expert_lora_prefill_down(
            &mut cb,
            DevicePtr(1),
            DevicePtr(2),
            DevicePtr(3),
            DevicePtr(4),
            te,
            &c,
        );
        (r, cb.commands)
    };
    l.expert_route = None;
    m.lora = Some(l);
    assert_eq!(fold(&m, 8, MoeLoraRoute::Refuse), (Ok(()), vec![]));
    l.expert_route = Some(expert_route());
    m.lora = Some(l);
    assert_eq!(fold(&m, 8, MoeLoraRoute::Skip), (Ok(()), vec![]));
    assert_eq!(fold(&m, 8, MoeLoraRoute::Refuse), (Err(MoeLoraError::MixedRows), vec![]));
    let over = l.cap + 1;
    assert_eq!(
        fold(&m, over, MoeLoraRoute::Fold),
        (Err(MoeLoraError::OverCapacity { rows: over, cap: l.cap }), vec![])
    );
    let (r, cmds) = fold(&m, l.cap, MoeLoraRoute::Fold);
    assert_eq!(r, Ok(()));
    assert_eq!(cmds.len(), 1);
    assert!(matches!(
        cmds[0],
        Command::Op(DeviceOp::ExpertLoraDown {
            x: DevicePtr(1),
            out: DevicePtr(2),
            offsets: DevicePtr(3),
            sorted_token_ids: DevicePtr(4),
            row_adapter: DevicePtr(0),
            ..
        })
    ));
}

#[test]
fn global_scales_are_listed_expert_by_expert() {
    let mut a = expert(0);
    let mut b = expert(1);
    a.gate_proj.weight_scale_2 = Scalar(2.0f32.powi(-119).to_bits());
    b.gate_proj.weight_scale_2 = Scalar(3.0f32.powi(-70).to_bits());
    let bytes = layer(vec![a, b]).marlin_globals(Projection::Gate, 4);
    assert_eq!(bytes.len(), 8);
    assert_eq!(bytes[..4], 0.25f32.to_le_bytes());
    assert_eq!(bytes[4..], (3.0f32.powi(-70) * 2.0f32.powi(119) / 4.0).to_le_bytes());
}

#[test]
fn the_fused_kernel_needs_its_library() {
    let p = DevicePtr(1);
    let mut cb = CommandBuffer::new();
    assert_eq!(b12x_moe_prefill(&mut cb, None, &env(&[]), p, p, p, p, b12x(64), 8), Err(B12xError::Unavailable));
    assert!(cb.commands.is_empty());
    assert_eq!(b12x_moe_prefill(&mut cb, Some(LIB), &env(&[]), p, p, p, p, b12x(64), 64), Ok(()));
    assert!(matches!(cb.commands[0], Command::Op(DeviceOp::B12xMoe { static_kernel: false, tokens: 64, .. })));
}

#[test]
fn an_expert_is_packed_under_its_own_scales() {
    let mut x = expert(0);
    x.up_proj.weight_scale_2 = Scalar(2.0f32.to_bits());
    x.gate_proj.weight_scale_2 = Scalar(0.5f32.to_bits());
    x.down_proj.weight_scale_2 = Scalar(4.0f32.to_bits());
    let m = layer(vec![x]);
    let read = |down: Option<Vec<u8>>| ScaleReadback {
        up: vec![0x38],
        gate: vec![0x38],
        down,
        w13_stage: DevicePtr(0x91),
        down_stage: DevicePtr(0x92),
    };
    let (p, strat) = (DevicePtr(0x1000), SfbStrategy::ConcatReuse);
    let mut cb = CommandBuffer::new();
    let r = m.pack_b12x_scales(&mut cb, &config(), 0, read(None), p, p, strat, &env(&[]));
    assert_eq!(r, Ok(x.down_proj.weight_scale_2));
    assert_eq!(cb.commands[0], Command::Upload { dst: DevicePtr(0x91), bytes: vec![0x40, 0x30] });
    assert_eq!(cb.commands[3], Command::Op(DeviceOp::Free { ptr: DevicePtr(0x91) }));
    assert_eq!(cb.commands.len(), 6);
    let on = env(&[("ATLAS_B12X_BAKE_W2", "1")]);
    let mut cb = CommandBuffer::new();
    let r = m.pack_b12x_scales(&mut cb, &config(), 0, read(Some(vec![0x38])), p, p, strat, &on);
    assert_eq!(r, Ok(Scalar(1.0f32.to_bits())));
    assert_eq!(cb.commands[4], Command::Upload { dst: DevicePtr(0x92), bytes: vec![0x48] });
    assert_eq!(cb.commands[7], Command::Op(DeviceOp::Free { ptr: DevicePtr(0x92) }));
    let mut cb = CommandBuffer::new();
    let r = m.pack_b12x_scales(&mut cb, &config(), 0, read(None), p, p, SfbStrategy::RebuildFromRaw, &env(&[]));
    assert_eq!(r, Err(SfbLayoutMissing));
}

#[test]
fn a_projection_is_expanded_under_its_own_scale() {
    let mut x = expert(0);
    x.up_proj.weight_scale_2 = Scalar(2.0f32.to_bits());
    let m = layer(vec![x]);
    let mut c = config();
    c.hidden_size = 16;
    c.moe_intermediate_size = 1;
    let slot = Fp4Slot { packed: DevicePtr(1), scale: DevicePtr(2) };
    let mut cb = CommandBuffer::new();
    m.repack_fp4(&mut cb, &c, Projection::Up, 0, &vec![0x22; 8], &vec![0x38], DevicePtr(9), slot);
    assert_eq!(
        cb.commands[0],
        Command::Upload { dst: DevicePtr(9), bytes: bf16::from_f32(2.0).to_le_bytes().repeat(16) }
    );
    assert!(matches!(cb.commands[1], Command::Op(DeviceOp::PackBf16ToNvfp4 { n: 1, k: 16, .. })));
    assert_eq!(projection_shape(&c, Projection::Down), (16, 1));
}

#[test]
fn joined_weights_replace_the_experts_own() {
    let mut m = layer(vec![expert(0), absent()]);
    let mut cb = CommandBuffer::new();
    m.install_b12x_weights(&mut cb, b12x(64), &vec![Scalar(7), Scalar(8)]);
    assert_eq!(m.b12x, Some(b12x(64)));
    let one = 1.0f32.to_le_bytes();
    assert_eq!(cb.commands[0], Command::Upload { dst: DevicePtr(5), bytes: [one, one].concat() });
    assert_eq!(cb.commands[1], Command::Upload { dst: DevicePtr(7), bytes: [one, one].concat() });
    assert_eq!(cb.commands[2], Command::Upload { dst: DevicePtr(6), bytes: vec![7, 0, 0, 0, 8, 0, 0, 0] });
    assert_eq!(cb.commands[3], Command::Op(DeviceOp::Synchronize));
    let freed: Vec<DevicePtr> = cb.commands[4..]
        .iter()
        .map(|c| match c {
            Command::Op(DeviceOp::Free { ptr }) => *ptr,
            _ => panic!("not a release"),
        })
        .collect();
    let x = expert(0);
    let own = [x.gate_proj, x.up_proj, x.down_proj];
    assert_eq!(freed, own.iter().flat_map(|w| [w.weight, w.weight_scale]).collect::<Vec<_>>());
    assert!(m.weights.experts[0].gate_proj.is_null());
    assert_eq!(m.weights.experts[0].gate_proj.weight_scale_2, x.gate_proj.weight_scale_2);
}

#[test]
fn repacked_down_projections_are_listed_with_unit_scales() {
    let slot = Fp4Slot { packed: DevicePtr(0x11), scale: DevicePtr(0x22) };
    let mut m = layer(vec![expert(0), absent()]);
    let mut cb = CommandBuffer::new();
    pack_fp4(&mut cb, DevicePtr(5), slot, 256, 128);
    assert!(matches!(cb.commands[2], Command::Op(DeviceOp::Free { ptr: DevicePtr(5) })));
    let mut cb = CommandBuffer::new();
    m.build_fp4_down(&mut cb, &vec![slot, slot], table(80));
    let uploads: Vec<&Vec<u8>> = cb
        .commands
        .iter()
        .filter_map(|c| match c {
            Command::Upload { bytes, .. } => Some(bytes),
            _ => None,
        })
        .collect();
    assert_eq!(uploads[0][..], [0x11u64, 0].map(u64::to_le_bytes).concat()[..]);
    assert_eq!(uploads[1][..], [0x22u64, 0].map(u64::to_le_bytes).concat()[..]);
    assert_eq!(uploads[2][..], [1.0f32, 1.0].map(f32::to_le_bytes).concat()[..]);
    assert_eq!(m.fp4_down.as_ref().map(|t| (t.down_t, t.owned.len())), Some((table(80), 5)));
}

#[test]
fn gate_and_up_are_transposed_without_down() {
    let mut m = layer(vec![expert(0)]);
    let mut cb = CommandBuffer::new();
    m.transpose_gate_up_for_prefill(&mut cb, &config(), &target(0x100, 1), &target(0x1100, 1));
    assert!(!cb.commands.iter().any(|c| match c {
        Command::Op(DeviceOp::TransposeForGemm { src, .. }) => *src == expert(0).down_proj,
        _ => false,
    }));
    assert_eq!(m.up_ptrs_t, Some(table(0x1100 + 500)));
    assert_eq!(m.down_ptrs_t, layer(vec![]).down_ptrs_t);
}
