use spark_model::attention::layer::{
    AttnKernels, AttnWeight, AttnWeights, HeadGateActivation, Qwen3AttentionLayer,
};
use spark_model::attention::high_speed_swap::{BlockOffload, EvictedBlock, KvCacheDtype};
use spark_model::attention::multi_seq_attn::AttnMetadataDev;
use spark_model::attention::multi_seq_qkv::MultiSeqCtx;
use spark_model::catalog::{KernelCatalog, KernelEntry, KernelMissing};
use spark_model::context::{Buffers, ForwardContext, ModelConfig, MoeLoraRoute, ScoringFunc};
use spark_model::dense_ffn::{
    DenseFfnKernels, DenseFfnLayer, DenseFfnWeights, FfnActivation, FfnProj, Int8Weight,
};
use spark_model::device::{Command, CommandBuffer, DevicePtr, Dim3, KernelHandle, Scalar};
use spark_model::dflash_head::{
    decode_drafts, BlockDiffusionDraftHead, DraftContext, DraftKernels, DraftScratch,
};
use spark_model::env::EnvVars;
use spark_model::ops_table::{DeviceOp, FfnEntry, MatmulKind};
use spark_model::ssm::decode_multi_seq::L2_EPS_BITS;
use spark_model::ssm::layer::{Qwen3SsmLayer, SsmKernels, SsmLayerState, SsmWeights};
use spark_model::ssm::prefill_recur::{GdnBackends, GdnCall, GDN_SCALE_BITS};
use spark_model::vision_encoder::{
    ViTBlock, VisionBuffers, VisionEncoder, VisionKernels, NORM_EPS_BITS,
};
use spark_model::weights::{DenseWeight, QuantizedWeight};

fn env(vars: &[(&str, &str)]) -> EnvVars {
    EnvVars { vars: vars.iter().map(|(k, v)| (k.to_string(), v.to_string())).collect() }
}

fn buffers() -> Buffers {
    Buffers {
        norm_output: DevicePtr(0x100000),
        moe_output: DevicePtr(0x200000),
        attn_output: DevicePtr(0x300000),
        gate_logits: DevicePtr(0x400000),
        scratch: DevicePtr(0x500000),
        qkv_output: DevicePtr(0x600000),
        expert_gate_out: DevicePtr(0x700000),
        expert_up_out: DevicePtr(0x800000),
        expert_down_out: DevicePtr(0x900000),
        ssm_deinterleaved: DevicePtr(0xa00000),
        ssm_qkvz: DevicePtr(0xb00000),
        ssm_gates: DevicePtr(0xc00000),
        ssm_conv_out_f32: DevicePtr(0xd00000),
        gdn_fla_scratch: DevicePtr(0xe00000),
        splitk_workspace: DevicePtr(0xf00000),
        lora_xa: DevicePtr(0x1000000),
        moe_decode_worklist: DevicePtr(0x1100000),
        moe_decode_worklist_count: DevicePtr(0x1200000),
    }
}

fn config() -> ModelConfig {
    ModelConfig {
        hidden_size: 256,
        intermediate_size: 512,
        moe_intermediate_size: 128,
        shared_expert_intermediate_size: 64,
        num_experts: 8,
        num_experts_per_tok: 2,
        norm_topk_prob: true,
        routed_scaling_factor: Scalar(0x3f80_0000),
        scoring_func: ScoringFunc::Other,
        ep_world_size: 1,
        local_lo: 0,
        local_hi: 8,
        rms_norm_eps: Scalar(0x3586_37bd),
        rope_theta: Scalar(0x461c_4000),
        rotary_dim: 64,
        linear_num_key_heads: 2,
        linear_key_head_dim: 128,
        linear_num_value_heads: 4,
        linear_value_head_dim: 128,
        linear_conv_kernel_dim: 4,
        ssm_qkvz_size: 1536,
        ssm_ba_size: 8,
    }
}

fn ctx() -> ForwardContext {
    ForwardContext {
        config: config(),
        buffers: buffers(),
        graph_capture: false,
        gdn_exact_replay: false,
        profile: false,
        comm_world_size: None,
        gemv_sw: false,
        max_decode_seqs: 8,
        moe_lora_route: MoeLoraRoute::Fold,
    }
}

fn ffn_kernels() -> DenseFfnKernels {
    DenseFfnKernels {
        w4a16_gemv: KernelHandle(1),
        w4a16_gemv_dual: KernelHandle(2),
        w4a16_gemv_silu_input: KernelHandle(3),
        w4a16_gemv_dual_sw: KernelHandle(4),
        w4a16_gemv_silu_input_sw: KernelHandle(5),
        w4a16_gemv_dual_batch2: KernelHandle(6),
        w4a16_gemv_dual_batch3: KernelHandle(7),
        w4a16_gemv_batch2: KernelHandle(8),
        w4a16_gemv_batch3: KernelHandle(9),
        w4a16_gemm: KernelHandle(10),
        w4a16_gemm_t_m128: KernelHandle(11),
        w4a16_gemm_t_m128_v2: KernelHandle(12),
        w4a16_gemm_t_m128_bf16: KernelHandle(13),
        w4a16_gemm_t_m128_bf16_v2: KernelHandle(14),
        w4a16_gemm_t: KernelHandle(15),
        int8_faith2: KernelHandle(16),
        requant_w_int8: KernelHandle(17),
        requant_a_int8: KernelHandle(18),
        act_mul: KernelHandle(19),
        dense_gemv_bf16: KernelHandle(20),
        dense_gemm_bf16: KernelHandle(21),
        dense_gemm_tc: KernelHandle(22),
    }
}

fn attn_kernels() -> AttnKernels {
    AttnKernels {
        rms_norm: KernelHandle(100),
        rope: KernelHandle(101),
        rope_strided: KernelHandle(102),
        rope_yarn_scaled: KernelHandle(103),
        innerq_apply_q: KernelHandle(104),
        wht_bf16: KernelHandle(105),
        wht_bf16_inv: KernelHandle(106),
        sigmoid_gate_mul_batched: KernelHandle(107),
        sigmoid_gate_head_broadcast: KernelHandle(108),
        softplus_gate_head_broadcast: KernelHandle(109),
        deinterleave_qg: KernelHandle(110),
        dense_gemm: KernelHandle(111),
        dense_gemm_tc: KernelHandle(112),
        dense_gemv: KernelHandle(113),
        dense_gemv_batchm: KernelHandle(114),
        q2_0_gemv: KernelHandle(115),
        w8a16_gemv: KernelHandle(116),
        w4a16_gemv: KernelHandle(117),
        w4a16_gemv_batch2: KernelHandle(118),
        w4a16_gemv_batch3: KernelHandle(119),
        w4a16_gemv_qg: KernelHandle(120),
        w4a16_gemv_qg_batch2: KernelHandle(121),
        w4a16_gemv_qg_batch3: KernelHandle(122),
        w4a16_gemv_dual: KernelHandle(123),
        w4a16_gemv_dual_batch2: KernelHandle(124),
        w4a16_gemv_dual_batch3: KernelHandle(125),
    }
}

fn ssm_kernels() -> SsmKernels {
    SsmKernels {
        rms_norm_residual: KernelHandle(200),
        residual_add_rms_norm: KernelHandle(201),
        residual_add: KernelHandle(202),
        dense_gemm: KernelHandle(203),
        w8a16_gemm: KernelHandle(204),
        w8a16_gemm_pipelined: KernelHandle(205),
        w8a16_gemv_batch4: KernelHandle(206),
        w8a16_gemv_batch16: KernelHandle(207),
        ba_gates: KernelHandle(208),
        ba_gates_prefill: KernelHandle(209),
        conv1d_l2norm_f32: KernelHandle(210),
        gdn_f32: KernelHandle(211),
        gdn_f32_norm: KernelHandle(212),
        gdn_f32_strided: KernelHandle(213),
        gdn_f32_strided_norm: KernelHandle(214),
        gated_rms_norm_f32: KernelHandle(215),
        gated_rms_norm_prefill: KernelHandle(216),
        gated_rms_norm_prefill_f32: KernelHandle(217),
        gdn_prefill_split4: KernelHandle(218),
        gdn_prefill_regresident: KernelHandle(219),
        gdn_prefill_persistent: KernelHandle(220),
        gdn_prefill_persistent_wy4: KernelHandle(221),
        gdn_prefill_fla_recompute_wu: KernelHandle(222),
        gdn_prefill_fla_chunk_delta_h: KernelHandle(223),
        gdn_prefill_fla_chunk_delta_h_tc_vblock: KernelHandle(224),
        gdn_prefill_fla_chunk_fwd_o: KernelHandle(225),
    }
}

fn vision_kernels() -> VisionKernels {
    VisionKernels {
        gemm: KernelHandle(300),
        gemm_pipelined: KernelHandle(301),
        gemm_f32: KernelHandle(302),
        add_bias: KernelHandle(303),
        copy: KernelHandle(304),
        norm: KernelHandle(305),
        attn: KernelHandle(306),
        add: KernelHandle(307),
        gelu: KernelHandle(308),
        rope_deint: KernelHandle(309),
        softmax: KernelHandle(310),
        scatter_head: KernelHandle(311),
    }
}

fn vision_buffers() -> VisionBuffers {
    VisionBuffers {
        h1: DevicePtr(0x12c00000),
        h2: DevicePtr(0x12d00000),
        wide: DevicePtr(0x12e00000),
        rope_cos: DevicePtr(0x12f00000),
        rope_sin: DevicePtr(0x13000000),
        qr: DevicePtr(0x13100000),
        kr: DevicePtr(0x13200000),
        vt: DevicePtr(0x13300000),
        scores: DevicePtr(0x13400000),
        probs: DevicePtr(0x13500000),
        o_stage: DevicePtr(0x13600000),
    }
}

fn draft_kernels() -> DraftKernels {
    DraftKernels {
        dense_gemv: KernelHandle(400),
        dense_gemm: KernelHandle(401),
        w4a16_gemm: KernelHandle(402),
        rms_norm: KernelHandle(403),
        batched_embed: KernelHandle(404),
        argmax: KernelHandle(405),
    }
}

fn draft_scratch() -> DraftScratch {
    DraftScratch {
        fc_proj: DevicePtr(0x19000000),
        stream_buf: DevicePtr(0x19100000),
        norm_buf: DevicePtr(0x19200000),
        position_ids: DevicePtr(0x19300000),
        draft_tokens_dev: DevicePtr(0x19400000),
        logits: DevicePtr(0x19500000),
    }
}

fn quantized(at: u64) -> QuantizedWeight {
    QuantizedWeight { weight: DevicePtr(at), weight_scale: DevicePtr(at + 1), weight_scale_2: Scalar(at as u32) }
}

fn dense(at: u64) -> DenseWeight {
    DenseWeight { weight: DevicePtr(at) }
}

fn ffn() -> DenseFfnLayer {
    DenseFfnLayer {
        weights: DenseFfnWeights {
            gate_proj: quantized(10),
            up_proj: quantized(20),
            down_proj: quantized(30),
            gate_proj_t: Some(quantized(11)),
            up_proj_t: Some(quantized(21)),
            down_proj_t: Some(quantized(31)),
        },
        activation: FfnActivation::SiLU,
        kernels: ffn_kernels(),
        decode_opt: false,
        bf16_weights: None,
        int8_gate: None,
        int8_up: None,
        int8_down: None,
        int8_a_scratch: None,
    }
}

fn kinds(cb: &CommandBuffer) -> Vec<(MatmulKind, u32)> {
    cb.commands
        .iter()
        .filter_map(|c| match c {
            Command::Op(DeviceOp::Matmul { kind, m, .. }) => Some((*kind, *m)),
            _ => None,
        })
        .collect()
}

#[test]
fn a_decode_step_fuses_gate_up_and_activation() {
    let mut cb = CommandBuffer::new();
    let c = ctx();
    assert_eq!(ffn().forward(&mut cb, DevicePtr(5), &c), c.buffers.moe_output);
    assert_eq!(cb.commands.len(), 2);
    assert!(matches!(cb.commands[0], Command::Op(DeviceOp::GemvDual { rows: 1, n: 512, k: 256, .. })));
    assert!(matches!(cb.commands[1], Command::Op(DeviceOp::GemvSiluInput { n: 256, k: 512, .. })));
}

#[test]
fn another_activation_runs_on_its_own() {
    let mut f = ffn();
    f.activation = FfnActivation::GeLU;
    let mut cb = CommandBuffer::new();
    f.forward(&mut cb, DevicePtr(5), &ctx());
    assert!(cb.commands.iter().any(|c| matches!(c, Command::Op(DeviceOp::ActMul { n: 512, .. }))));
}

#[test]
fn two_and_three_rows_share_weight_reads() {
    let mut cb = CommandBuffer::new();
    ffn().forward_k2(&mut cb, &ctx(), DevicePtr(5));
    assert_eq!(kinds(&cb), vec![(MatmulKind::W4a16GemvBatch2, 2)]);
    assert!(matches!(cb.commands[1], Command::Op(DeviceOp::ActMul { n: 1024, .. })));
    let mut cb = CommandBuffer::new();
    ffn().forward_k3(&mut cb, &ctx(), DevicePtr(5));
    assert_eq!(kinds(&cb), vec![(MatmulKind::W4a16GemvBatch3, 3)]);
    assert!(matches!(cb.commands[1], Command::Op(DeviceOp::ActMul { n: 1536, .. })));
}

#[test]
fn prefill_kernels_follow_the_environment() {
    let f = ffn();
    for (vars, kind) in [
        (vec![], MatmulKind::W4a16GemmN128M128V2),
        (vec![("ATLAS_BF16_TC_PREFILL", "1")], MatmulKind::W4a16GemmN128M128Bf16),
        (vec![("ATLAS_FP8_M64_PREFILL", "1")], MatmulKind::W4a16GemmN128),
    ] {
        let mut cb = CommandBuffer::new();
        f.forward_prefill(&mut cb, DevicePtr(5), 32, &ctx(), &env(&vars));
        assert_eq!(kinds(&cb), vec![(kind, 32); 3]);
    }
    let mut plain = ffn();
    plain.weights.gate_proj_t = None;
    plain.weights.up_proj_t = None;
    plain.weights.down_proj_t = None;
    let mut cb = CommandBuffer::new();
    plain.forward_prefill(&mut cb, DevicePtr(5), 32, &ctx(), &env(&[]));
    assert_eq!(kinds(&cb), vec![(MatmulKind::W4a16Gemm, 32); 3]);
}

#[test]
fn a_batched_pass_records_its_products() {
    let mut cb = CommandBuffer::new();
    ffn().forward_batched(&mut cb, DevicePtr(5), 8, &ctx(), &env(&[]));
    assert!(!cb.commands.is_empty());
}

#[test]
fn an_integer_copy_is_made_once() {
    let mut f = ffn();
    assert!(f.wants_int8_prefill(&env(&[("ATLAS_INT8_PREFILL", "")])));
    assert!(!f.wants_int8_prefill(&env(&[])));
    assert!(f.int8_weight_bytes(FfnProj::Gate, 512, 256).is_some());
    let mem = Int8Weight { w_i8: DevicePtr(1), w_scale: DevicePtr(2) };
    let mut cb = CommandBuffer::new();
    assert_eq!(f.ensure_int8_weight(&mut cb, FfnProj::Gate, mem, 512, 256), mem);
    let n = cb.commands.len();
    assert_eq!(f.int8_weight_bytes(FfnProj::Gate, 512, 256), None);
    let other = Int8Weight { w_i8: DevicePtr(3), w_scale: DevicePtr(4) };
    assert_eq!(f.ensure_int8_weight(&mut cb, FfnProj::Gate, other, 512, 256), mem);
    assert_eq!(cb.commands.len(), n);
}

#[test]
fn integer_scratch_grows_when_too_small() {
    let mut f = ffn();
    let mut cb = CommandBuffer::new();
    let first = f.release_int8_scratch(&mut cb, 4, 256);
    assert!(first.is_some());
    assert!(cb.commands.is_empty());
    f.install_int8_scratch(DevicePtr(1), DevicePtr(2), 4, 256);
    assert_eq!(f.release_int8_scratch(&mut cb, 2, 256), None);
    assert!(f.release_int8_scratch(&mut cb, 8, 256).is_some());
    assert!(cb.commands.contains(&Command::Op(DeviceOp::Free { ptr: DevicePtr(1) })));
}

fn missing(module: &str, function: &str) -> KernelMissing {
    KernelMissing { module: module.to_string(), function: function.to_string() }
}

#[test]
fn a_block_needs_its_kernels() {
    let w = ffn().weights;
    let none = KernelCatalog { entries: vec![] };
    assert_eq!(DenseFfnLayer::new(w, &none, &env(&[])), Err(missing("moe_silu_mul", "moe_silu_mul")));
    let all = [
        ("moe_silu_mul", "moe_silu_mul"),
        ("w4a16_gemv", "w4a16_gemv"),
        ("w4a16_gemv_fused", "w4a16_gemv_dual"),
        ("w4a16_gemv_fused", "w4a16_gemv_silu_input"),
        ("w4a16_gemv", "w4a16_gemv_dual_batch2"),
        ("w4a16_gemv", "w4a16_gemv_dual_batch3"),
        ("w4a16_gemv", "w4a16_gemv_batch2"),
        ("w4a16_gemv", "w4a16_gemv_batch3"),
        ("w4a16", "w4a16_gemm"),
    ];
    let cat = KernelCatalog {
        entries: all
            .iter()
            .enumerate()
            .map(|(i, (m, f))| KernelEntry { module: m.to_string(), function: f.to_string(), handle: KernelHandle(i as u64 + 1) })
            .collect(),
    };
    let f = DenseFfnLayer::new(w, &cat, &env(&[("ATLAS_DECODE_OPT", "0")])).unwrap();
    assert!(f.decode_opt);
    assert_eq!(f.kernels.act_mul, KernelHandle(1));
    assert_eq!(
        DenseFfnLayer::new_with_activation(w, FfnActivation::GeLU, &cat, &env(&[])),
        Err(missing("gelu", "gelu_mul"))
    );
    let some = KernelCatalog {
        entries: all[..4]
            .iter()
            .map(|(m, f)| KernelEntry { module: m.to_string(), function: f.to_string(), handle: KernelHandle(1) })
            .collect(),
    };
    assert_eq!(DenseFfnLayer::new(w, &some, &env(&[])), Err(missing("w4a16_gemv", "w4a16_gemv_dual_batch2")));
    let mut f = f;
    f.set_bf16_weights(dense(1), dense(2), dense(3));
    let mut cb = CommandBuffer::new();
    f.forward(&mut cb, DevicePtr(5), &ctx());
    assert!(kinds(&cb).iter().all(|(k, _)| *k == MatmulKind::DenseGemv));
}

fn attention() -> Qwen3AttentionLayer {
    Qwen3AttentionLayer {
        attn_layer_idx: 1,
        kernels: attn_kernels(),
        attn: AttnWeights {
            q_proj: dense(1),
            k_proj: dense(2),
            v_proj: dense(3),
            o_proj: quantized(4),
            q_norm: dense(5),
            k_norm: dense(6),
        },
        q_weight: Some(AttnWeight::Nvfp4(quantized(100))),
        k_weight: Some(AttnWeight::Nvfp4(quantized(200))),
        v_weight: Some(AttnWeight::Nvfp4(quantized(300))),
        o_weight: None,
        o_dense_bf16: None,
        o_nvfp4_t: None,
        gated: true,
        head_gate_weight: None,
        head_gate_activation: HeadGateActivation::Sigmoid,
        lora: None,
        rotary_dim_override: None,
        rope_theta_override: None,
        yarn_inv_freq: DevicePtr(0),
        yarn_attention_factor: Scalar(0x3f80_0000),
        k_is_turbo: false,
        v_is_turbo: false,
    }
}

fn seqs(n: usize) -> MultiSeqCtx {
    MultiSeqCtx {
        n,
        h: 256,
        nq: 4,
        nkv: 2,
        hd: 64,
        bs: 16,
        eps: Scalar(0x3586_37bd),
        attn_scale: Scalar(0x3e00_0000),
        q_dim: 256,
        q_proj_dim: 512,
        q_proj_bytes: 1024,
        per_seq_qkv: 1024 + 2 * 256,
        normed: DevicePtr(0x1000),
        qkv_buf: DevicePtr(0x10_0000),
        seq_slot: DevicePtr(0x9000),
        bf16_batchm: false,
    }
}

const META: AttnMetadataDev = AttnMetadataDev {
    positions: DevicePtr(0x1_0000),
    slot: DevicePtr(0x2_0000),
    block_table: DevicePtr(0x3_0000),
    seq_len: DevicePtr(0x4_0000),
    max_blocks_per_seq: 32,
};

#[test]
fn sequence_blocks_follow_each_other() {
    let c = seqs(3);
    let x = ctx();
    assert_eq!(c.q_row(1, &x), DevicePtr(0x10_0000 + 1536));
    assert_eq!(c.k_row(1, &x), DevicePtr(0x10_0000 + 1536 + 1024));
    assert_eq!(c.v_row(1, &x), DevicePtr(0x10_0000 + 1536 + 1024 + 256));
}

#[test]
fn four_bit_projections_go_by_tiles() {
    let a = attention();
    for n in 1..8usize {
        let mut cb = CommandBuffer::new();
        a.ms_phase_qkv(&mut cb, &ctx(), &seqs(n));
        let rows: u32 = cb
            .commands
            .iter()
            .filter_map(|c| match c {
                Command::Op(DeviceOp::GemvQg { rows, .. }) => Some(*rows),
                _ => None,
            })
            .sum();
        assert_eq!(rows as usize, n);
        let norms: Vec<u32> = cb
            .commands
            .iter()
            .filter_map(|c| match c {
                Command::Op(DeviceOp::RmsNorm { rows, .. }) => Some(*rows),
                _ => None,
            })
            .collect();
        // Every query and key head is normalised once.
        assert_eq!(norms.iter().sum::<u32>() as usize, n * (4 + 2));
    }
}

#[test]
fn dense_projections_run_row_by_row() {
    let mut a = attention();
    a.q_weight = None;
    a.gated = false;
    let mut cb = CommandBuffer::new();
    a.ms_qkv_seq_q(&mut cb, &seqs(1), DevicePtr(1), DevicePtr(2));
    assert_eq!(kinds(&cb), vec![(MatmulKind::DenseGemv, 1)]);
}

#[test]
fn rotation_is_strided_for_many_sequences() {
    let a = attention();
    let mut cb = CommandBuffer::new();
    a.ms_phase_rope(&mut cb, &ctx(), &env(&[]), &seqs(3), META);
    assert_eq!(cb.commands.len(), 1);
    assert!(matches!(
        cb.commands[0],
        Command::Op(DeviceOp::RopeStrided { rows: 3, q_stride: 768, k_stride: 768, rotary_dim: 64, .. })
    ));
    let mut cb = CommandBuffer::new();
    a.ms_phase_rope(&mut cb, &ctx(), &env(&[("ATLAS_NO_ROPE_STRIDED", "1")]), &seqs(3), META);
    assert_eq!(cb.commands.len(), 3);
    assert!(matches!(cb.commands[2], Command::Op(DeviceOp::Rope { positions: DevicePtr(0x1_0008), rows: 1, .. })));
}

#[test]
fn scaled_frequencies_are_rotated_one_sequence_at_a_time() {
    let mut a = attention();
    a.yarn_inv_freq = DevicePtr(0x77_0000);
    let mut cb = CommandBuffer::new();
    a.ms_phase_rope(&mut cb, &ctx(), &env(&[]), &seqs(3), META);
    assert_eq!(cb.commands.len(), 3);
    assert!(cb.commands.iter().all(|c| matches!(
        c,
        Command::Op(DeviceOp::RopeYarnScaled { rows: 1, inv_freq: DevicePtr(0x77_0000), .. })
    )));
}

#[test]
fn cache_writes_are_batched_unless_switched_off() {
    let a = attention();
    let mut cb = CommandBuffer::new();
    a.ms_phase_cache_write(&mut cb, &ctx(), &env(&[]), &seqs(3), META);
    assert!(matches!(cb.commands[0], Command::Op(DeviceOp::KvCacheWrite { rows: 3, k_stride: 768, .. })));
    let mut cb = CommandBuffer::new();
    a.ms_phase_cache_write(&mut cb, &ctx(), &env(&[("ATLAS_NO_ATTN_BATCH_CACHE_WRITE", "1")]), &seqs(3), META);
    assert_eq!(cb.commands.len(), 3);
    assert!(matches!(
        cb.commands[1],
        Command::Op(DeviceOp::KvCacheWrite { slots: DevicePtr(0x2_0008), rows: 1, k_stride: 128, .. })
    ));
}

#[test]
fn attention_reads_queries_where_they_are() {
    let a = attention();
    let mut cb = CommandBuffer::new();
    let c = ctx();
    let out = a.ms_phase_paged_decode(&mut cb, &c, &env(&[]), &seqs(3), META);
    assert!(cb.commands.iter().any(|x| matches!(x, Command::Op(DeviceOp::PagedDecode { rows: 3, .. }))));
    let mut cb = CommandBuffer::new();
    let done = a.ms_phase_o_proj(&mut cb, &c, &seqs(3), out);
    assert!(!cb.commands.is_empty());
    assert_ne!(done, DevicePtr(0));
}

#[test]
fn offload_covers_new_blocks_and_the_boundary() {
    let a = attention();
    assert!(a.high_speed_swap_engaged(true, true, KvCacheDtype::Fp8));
    assert!(!a.high_speed_swap_engaged(true, true, KvCacheDtype::Turbo2));
    assert!(!a.high_speed_swap_engaged(false, true, KvCacheDtype::Fp8));
    assert!(!a.high_speed_swap_engaged(true, false, KvCacheDtype::Fp8));
    let table = vec![70, 71, 72];
    let disk = vec![10, 11, 12, 13];
    let mut cursors = vec![0, 3];
    let blocks = a.high_speed_swap_offload_new_blocks(true, &table, &disk, &mut cursors).unwrap();
    assert_eq!(
        blocks,
        vec![
            BlockOffload { logical_pos: 2, phys_block: 71, disk_id: 12 },
            BlockOffload { logical_pos: 3, phys_block: 72, disk_id: 13 },
        ]
    );
    a.finish_offload(&mut cursors, 4);
    assert_eq!(cursors, vec![0, 4]);
    let again = a.high_speed_swap_offload_new_blocks(true, &table, &disk, &mut cursors).unwrap();
    assert_eq!(again, vec![BlockOffload { logical_pos: 3, phys_block: 72, disk_id: 13 }]);
}

#[test]
fn an_evicted_block_is_reported() {
    let a = attention();
    let mut cursors = vec![];
    assert_eq!(
        a.high_speed_swap_offload_new_blocks(true, &vec![1], &vec![5, 6, 7], &mut cursors),
        Err(EvictedBlock { layer: 1, logical_pos: 0, window_start: 2, total: 3, resident: 1, last_offloaded: 0 })
    );
    assert_eq!(cursors, vec![0, 0]);
    assert_eq!(a.high_speed_swap_offload_new_blocks(false, &vec![], &vec![5], &mut cursors), Ok(vec![]));
}

fn ssm() -> Qwen3SsmLayer {
    Qwen3SsmLayer {
        kernels: ssm_kernels(),
        ssm: SsmWeights {
            in_proj_qkvz: dense(1),
            in_proj_ba: dense(2),
            a_log: dense(3),
            dt_bias: dense(4),
            conv1d: dense(5),
            norm: dense(6),
        },
        input_norm: dense(7),
        post_attn_norm: dense(8),
        sequential_qkvz: false,
        qkvz_nvfp4: None,
        qkvz_fp8w: None,
        out_proj_fp8w: None,
        out_proj_dense: Some(dense(9)),
        h_state_bytes: 4096,
        conv_state_bytes: 1024,
        ffn_is_moe: true,
    }
}

fn states(n: u64) -> Vec<SsmLayerState> {
    (0..n)
        .map(|i| SsmLayerState { h_state: DevicePtr(0x100_0000 + 4096 * i), conv_state: DevicePtr(0x200_0000 + 1024 * i) })
        .collect()
}

#[test]
fn recurrent_constants_are_single_precision() {
    assert_eq!(L2_EPS_BITS, 1e-6f32.to_bits());
    assert_eq!(NORM_EPS_BITS, 1e-6f32.to_bits());
    assert_eq!(GDN_SCALE_BITS, (1.0f32 / 128f32.sqrt()).to_bits());
}

fn entries(cb: &CommandBuffer) -> Vec<FfnEntry> {
    cb.commands
        .iter()
        .filter_map(|c| match c {
            Command::Op(DeviceOp::Ffn { entry, .. }) => Some(*entry),
            _ => None,
        })
        .collect()
}

#[test]
fn decode_feeds_forward_by_batch_size() {
    let l = ssm();
    for (n, vars, want) in [
        (1, vec![], vec![FfnEntry::Single]),
        (2, vec![], vec![FfnEntry::K2]),
        (3, vec![], vec![FfnEntry::K3]),
        (4, vec![], vec![FfnEntry::Single; 4]),
        (4, vec![("ATLAS_MOE_GROUPED_DECODE", "1")], vec![FfnEntry::Prefill]),
        (4, vec![("ATLAS_MOE_ATOMIC_C4_DECODE", "1")], vec![FfnEntry::AtomicC4]),
        (5, vec![("ATLAS_MOE_TOKEN_MAJOR_DECODE", "1")], vec![FfnEntry::TokenMajor]),
        (5, vec![("ATLAS_MOE_BATCHED_DECODE", "1")], vec![FfnEntry::Batched]),
    ] {
        let mut cb = CommandBuffer::new();
        l.decode_multi_seq_inner(
            &mut cb,
            DevicePtr(0x1000),
            DevicePtr(0x8000),
            n,
            &states(n as u64),
            &ctx(),
            &env(&vars),
        );
        assert_eq!(entries(&cb), want);
    }
}

fn gdn(tokens: u32) -> GdnCall {
    GdnCall {
        h_state: DevicePtr(1),
        q_ptr: DevicePtr(2),
        k_ptr: DevicePtr(3),
        v_ptr: DevicePtr(4),
        gates_buf: DevicePtr(5),
        gdn_out_buf: DevicePtr(6),
        tokens,
        nk: 2,
        nv: 4,
        kd: 128,
        vd: 128,
        conv_dim: 1024,
    }
}

#[test]
fn recurrence_takes_the_first_kernel_that_applies() {
    let none = GdnBackends { small_shared_memory: false, flashinfer: false, flashinfer_f32: false };
    let run = |l: &Qwen3SsmLayer, c: &ForwardContext, b: GdnBackends, vars: &[(&str, &str)]| {
        let mut cb = CommandBuffer::new();
        let f32_out = l.prefill_gdn_recurrence(&mut cb, gdn(300), b, c, &env(vars));
        (cb.commands.remove(0), f32_out)
    };
    let l = ssm();
    let fi = GdnBackends { flashinfer: true, flashinfer_f32: true, ..none };
    let (c, f32_out) = run(&l, &ctx(), fi, &[]);
    assert!(matches!(c, Command::Op(DeviceOp::GdnPrefillFlashInfer { f32_out: true, tokens: 300, .. })));
    assert!(f32_out);
    assert!(matches!(run(&l, &ctx(), none, &[]).0, Command::Op(DeviceOp::GdnPrefillFla { num_chunks: 5, .. })));
    let small = GdnBackends { small_shared_memory: true, ..fi };
    assert!(matches!(run(&l, &ctx(), small, &[]).0, Command::Op(DeviceOp::GdnPrefillSplit4 { .. })));
    // An exact replay takes no chunked path.
    let mut exact = ctx();
    exact.gdn_exact_replay = true;
    assert!(matches!(
        run(&l, &exact, fi, &[]).0,
        Command::Op(DeviceOp::GdnPrefillPersistentSmem { shared_mem: 69688, .. })
    ));
    assert!(matches!(
        run(&l, &exact, none, &[("ATLAS_GDN_REGRESIDENT", "")]).0,
        Command::Op(DeviceOp::GdnPrefillRegResident { .. })
    ));
    let mut bare = ssm();
    bare.kernels.gdn_prefill_persistent_wy4 = KernelHandle(0);
    assert!(matches!(run(&bare, &exact, none, &[]).0, Command::Op(DeviceOp::GdnPrefillPersistent { .. })));
    bare.kernels.gdn_prefill_persistent = KernelHandle(0);
    assert!(matches!(run(&bare, &exact, none, &[]).0, Command::Op(DeviceOp::GdnPrefillSplit4 { .. })));
}

fn encoder() -> VisionEncoder {
    VisionEncoder {
        kernels: vision_kernels(),
        bufs: vision_buffers(),
        hidden_size: 64,
        num_heads: 2,
        head_dim: 32,
        intermediate_size: 128,
    }
}

fn block() -> ViTBlock {
    ViTBlock {
        norm1_w: DevicePtr(1),
        norm1_b: DevicePtr(2),
        qkv_w: DevicePtr(3),
        qkv_b: DevicePtr(4),
        proj_w: DevicePtr(5),
        proj_b: DevicePtr(6),
        norm2_w: DevicePtr(7),
        norm2_b: DevicePtr(8),
        fc1_w: DevicePtr(9),
        fc1_b: DevicePtr(10),
        fc2_w: DevicePtr(11),
        fc2_b: DevicePtr(12),
    }
}

fn launches(cb: &CommandBuffer, k: KernelHandle) -> usize {
    cb.commands.iter().filter(|c| matches!(c, Command::Launch(l) if l.kernel == k)).count()
}

#[test]
fn a_biased_product_is_split_where_both_kernels_exist() {
    let e = encoder();
    let mut cb = CommandBuffer::new();
    e.vit_gemm_bias(&mut cb, DevicePtr(1), DevicePtr(2), DevicePtr(3), DevicePtr(4), 10, 64, 64);
    assert_eq!((launches(&cb, e.kernels.gemm_pipelined), launches(&cb, e.kernels.add_bias)), (1, 1));
    let mut e = encoder();
    e.kernels.add_bias = KernelHandle(0);
    let mut cb = CommandBuffer::new();
    e.vit_gemm_bias(&mut cb, DevicePtr(1), DevicePtr(2), DevicePtr(3), DevicePtr(4), 10, 64, 64);
    match &cb.commands[0] {
        Command::Launch(l) => {
            assert_eq!(l.kernel, e.kernels.gemm);
            assert_eq!(l.grid, Dim3 { x: 2, y: 1, z: 1 });
            assert_eq!(l.block, Dim3 { x: 32, y: 32, z: 1 });
        },
        _ => panic!(),
    }
}

#[test]
fn a_block_normalises_twice_and_adds_twice() {
    let e = encoder();
    let mut cb = CommandBuffer::new();
    e.vit_block(&mut cb, &block(), 10);
    assert_eq!(launches(&cb, e.kernels.norm), 2);
    assert_eq!(launches(&cb, e.kernels.add), 2);
    assert_eq!(launches(&cb, e.kernels.gelu), 1);
}

#[test]
fn attention_by_products_visits_every_head() {
    let e = encoder();
    let mut cb = CommandBuffer::new();
    e.vit_attention_gemm(&mut cb, DevicePtr(1), DevicePtr(2), DevicePtr(3), DevicePtr(4), 10);
    assert_eq!(launches(&cb, e.kernels.rope_deint), 1);
    assert_eq!(launches(&cb, e.kernels.softmax), 2);
    assert_eq!(launches(&cb, e.kernels.scatter_head), 2);
}

fn draft() -> BlockDiffusionDraftHead {
    BlockDiffusionDraftHead {
        kernels: draft_kernels(),
        scratch: draft_scratch(),
        gamma: 4,
        hidden_size: 64,
        num_q_heads: 2,
        num_kv_heads: 1,
        head_dim: 32,
        intermediate_size: 128,
        vocab_size: 1000,
        num_layers: 2,
        ctx_window: 8,
        target_layers: 3,
        target_hidden_size: 16,
        mask_token_id: 999,
        rms_norm_eps: Scalar(1),
        inv_sqrt_d: Scalar(2),
        fc: dense(1),
        hidden_norm: dense(2),
        norm: dense(3),
        embed_tokens_shared: DevicePtr(0x5000),
        lm_head_shared: DevicePtr(0x6000),
        lm_head_nvfp4: None,
    }
}

#[test]
fn the_context_is_the_most_recent_window() {
    let d = draft();
    let b = Some((DevicePtr(0x100), 20));
    assert_eq!(d.effective_context(&env(&[]), b), DraftContext { base: Some(DevicePtr(0x100)), total: 20, eff: 8 });
    assert_eq!(d.effective_context(&env(&[("ATLAS_DFLASH_DEBUG_CTX_USED", "3")]), b).eff, 3);
    assert_eq!(d.effective_context(&env(&[("ATLAS_DFLASH_DEBUG_CTX_USED", "30")]), b).eff, 8);
    assert_eq!(d.effective_context(&env(&[("ATLAS_DFLASH_DEBUG_CTX_OFF", "1")]), b).base, None);
    assert_eq!(d.effective_context(&env(&[]), None).eff, 0);
}

#[test]
fn positions_continue_from_the_last_token() {
    let d = draft();
    let c = DraftContext { base: Some(DevicePtr(0x100)), total: 5, eff: 2 };
    assert_eq!(d.position_ids(c, 10), vec![3, 4, 9, 10, 11, 12]);
    assert_eq!(d.position_ids(c, 0)[2], 0);
    let ids = d.token_ids(c, 42);
    assert_eq!(ids.iter().filter(|&&t| t == 999).count(), 3);
    assert!(ids.contains(&42));
}

#[test]
fn a_block_runs_all_layers_and_picks_every_draft() {
    let d = draft();
    let mut cb = CommandBuffer::new();
    d.forward_block(&mut cb, 42, 10, &env(&[]), Some((DevicePtr(0x10_0000), 5)), None, None);
    let count = |f: fn(&Command) -> bool| cb.commands.iter().filter(|c| f(c)).count();
    assert_eq!(count(|c| matches!(c, Command::Op(DeviceOp::DraftLayer(_)))), 2);
    assert_eq!(count(|c| matches!(c, Command::Op(DeviceOp::ArgmaxBf16 { .. }))), 3);
    assert_eq!(d.draft_bytes(), 12);
    assert_eq!(decode_drafts(&vec![1, 0, 0, 0, 0, 1, 0, 0]), vec![1, 256]);
}

#[test]
fn the_gated_norm_reads_where_the_recurrence_wrote() {
    let l = ssm();
    let at = |f32_out: bool| {
        let mut cb = CommandBuffer::new();
        l.prefill_gdn_gated_norm(
            &mut cb,
            f32_out,
            DevicePtr(0x31),
            DevicePtr(0x32),
            DevicePtr(0x33),
            4,
            128,
            Scalar(0x3586_37bd),
            7,
            512,
            1536,
            &ctx(),
        );
        cb.commands.remove(0)
    };
    assert!(matches!(
        at(true),
        Command::Op(DeviceOp::GatedRmsNormPrefill { f32_input: true, input, kernel, tokens: 7, .. })
            if input == ctx().buffers.ssm_conv_out_f32 && kernel == l.kernels.gated_rms_norm_prefill_f32
    ));
    assert!(matches!(
        at(false),
        Command::Op(DeviceOp::GatedRmsNormPrefill { f32_input: false, input: DevicePtr(0x31), kernel, heads: 4, value_dim: 512, qkvz_size: 1536, .. })
            if kernel == l.kernels.gated_rms_norm_prefill
    ));
}
