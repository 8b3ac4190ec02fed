//! A mixture-of-experts layer.
use crate::catalog::{KernelCatalog, KernelMissing};
use crate::device::{DevicePtr, KernelHandle, Scalar};
use crate::moe::b12x_weights::B12xMoeWeights;
use crate::moe::exl3::{Exl3MoeState, Exl3Tables};
use crate::ops::exl3_moe_decode::Exl3MoeKernels;
use crate::moe::lora::MoeLoraWeights;
use crate::moe::marlin_weights::MarlinMoeWeights;
use crate::moe::stream_tables::ExpertPtrTable;
use crate::weights::{DenseWeight, ExpertWeight, PackedExpertWeights, QuantizedWeight, WeightQuantFormat};
use vstd::prelude::*;

verus! {

/// Kernels of a mixture-of-experts layer.
#[derive(Debug, Clone, Copy, PartialEq, Eq, Structural)]
pub struct MoeKernels {
    pub dense_gemm: KernelHandle,
    pub dense_gemv: KernelHandle,
    pub w4a16_gemm: KernelHandle,
    pub w4a16_gemv: KernelHandle,
    pub w4a16_gemv_sw: KernelHandle,
    pub moe_topk: KernelHandle,
    pub moe_topk_batched: KernelHandle,
    pub moe_topk_sigmoid: KernelHandle,
    pub moe_topk_sigmoid_batched: KernelHandle,
    pub moe_batched_blend: KernelHandle,
    pub moe_weighted_sum_blend_token_major: KernelHandle,
    /// Activation of the sorted path: SiLU, or GELU once that is set.
    pub moe_act_mul: KernelHandle,
    pub moe_silu_mul: KernelHandle,
    pub moe_grouped_gemm: KernelHandle,
    pub moe_grouped_gemm_t_k64: KernelHandle,
    pub moe_grouped_gemm_t_k64_worklist: KernelHandle,
    pub moe_fused_gate_up_t_k64: KernelHandle,
    pub moe_fused_gate_up_t_k64_m128: KernelHandle,
    pub moe_fused_gate_up_t_k64_worklist: KernelHandle,
    pub moe_fp8_grouped_gemm_t: KernelHandle,
    pub bf16_to_fp8: KernelHandle,
    pub moe_permute_tokens: KernelHandle,
    pub moe_build_tile_worklist: KernelHandle,
    pub moe_build_decode_worklist_c8: KernelHandle,
    pub moe_decode_persistent_gate_up_c8: KernelHandle,
    pub moe_decode_persistent_down_c8: KernelHandle,
    pub q4k_mmq_nc: KernelHandle,
    pub q4k_mmq_wc: KernelHandle,
    pub q4k_quant_act: KernelHandle,
    pub q6k_dequant: KernelHandle,
    pub exl3: Exl3MoeKernels,
}

/// Weights of a mixture-of-experts layer.
#[derive(Debug, PartialEq, Eq)]
pub struct MoeWeights {
    pub experts: Vec<ExpertWeight>,
    pub shared_expert: ExpertWeight,
    /// Router projection.
    pub gate: DenseWeight,
    /// Gate of the shared expert; null for an ungated one.
    pub shared_expert_gate: DenseWeight,
    pub packed_experts: Option<Vec<PackedExpertWeights>>,
}

/// Host copy of a re-packed projection's table.
#[derive(Debug, PartialEq, Eq)]
pub struct Fp4HostTable {
    pub packed_ptrs: Vec<u64>,
    pub scale_ptrs: Vec<u64>,
    pub scale2_vals: Vec<Scalar>,
}

/// Pointer tables of the re-packed gate and up projections.
#[derive(Debug, PartialEq, Eq)]
pub struct MoeFp4GateUp {
    /// Every allocation behind the tables.
    pub owned: Vec<DevicePtr>,
    pub gate: Fp4HostTable,
    pub up: Fp4HostTable,
    pub gate_t: ExpertPtrTable,
    pub up_t: ExpertPtrTable,
}

/// Pointer table of the re-packed down projection.
#[derive(Debug, PartialEq, Eq)]
pub struct MoeFp4Down {
    /// Every allocation behind the table.
    pub owned: Vec<DevicePtr>,
    pub down_t: ExpertPtrTable,
}

/// Kernels, weights and optional tables of one layer.
#[derive(Debug, PartialEq, Eq)]
pub struct MoeLayer {
    pub kernels: MoeKernels,
    pub weights: MoeWeights,
    pub gate_nvfp4: Option<QuantizedWeight>,
    pub correction_bias_dev: Option<DevicePtr>,
    /// Token-to-expert table of hash routing.
    pub tid2eid_dev: Option<DevicePtr>,
    pub router_logits_n: u32,
    pub pre_expert_norm: Option<DenseWeight>,
    pub gelu_activation: bool,
    pub experts_scale_kind: WeightQuantFormat,
    pub nvfp4_gate_up_m128: bool,
    pub gate_ptrs: ExpertPtrTable,
    pub up_ptrs: ExpertPtrTable,
    pub down_ptrs: ExpertPtrTable,
    pub gate_ptrs_t: Option<ExpertPtrTable>,
    pub up_ptrs_t: Option<ExpertPtrTable>,
    pub down_ptrs_t: Option<ExpertPtrTable>,
    pub shared_gate_t: Option<QuantizedWeight>,
    pub shared_up_t: Option<QuantizedWeight>,
    pub shared_down_t: Option<QuantizedWeight>,
    pub fp4_gate_up: Option<MoeFp4GateUp>,
    pub fp4_down: Option<MoeFp4Down>,
    pub b12x: Option<B12xMoeWeights>,
    pub marlin: Option<MarlinMoeWeights>,
    pub lora: Option<MoeLoraWeights>,
    pub exl3_expert_tables: Option<Exl3Tables>,
    pub exl3_moe_state: Option<Exl3MoeState>,
    pub has_streamer: bool,
    pub stream_dense_idx: u32,
    /// Event that a shared expert on another stream records when done.
    pub event_b: u64,
}

impl MoeLayer {
    /// Norm that is applied after routing and before the experts.
    pub fn set_pre_expert_norm(&mut self, norm: DenseWeight)
        ensures
            *final(self) == (MoeLayer { pre_expert_norm: Some(norm), ..*old(self) }),
    {
        self.pre_expert_norm = Some(norm);
    }

    /// Replaces the experts' SiLU by GELU; without that kernel nothing changes.
    pub fn set_gelu_activation(&mut self, catalog: &KernelCatalog) -> (r: Result<(), KernelMissing>)
        ensures
            match catalog.find("gelu"@, "gelu_mul"@) {
                Some(k) => r is Ok && *final(self) == (MoeLayer {
                    kernels: MoeKernels { moe_act_mul: k, ..old(self).kernels },
                    gelu_activation: true,
                    ..*old(self)
                }),
                None => (r matches Err(e) && e.names("gelu"@, "gelu_mul"@)) && *final(self)
                    == *old(self),
            },
    {
        match catalog.kernel("gelu", "gelu_mul") {
            Ok(k) => {
                self.kernels.moe_act_mul = k;
                self.gelu_activation = true;
                Ok(())
            },
            Err(e) => Err(e),
        }
    }

    /// Attaches this layer to an expert streamer, or detaches it.
    pub fn set_expert_streamer(&mut self, attached: bool, dense_idx: u32)
        ensures
            *final(self) == (MoeLayer {
                has_streamer: attached,
                stream_dense_idx: dense_idx,
                ..*old(self)
            }),
    {
        self.has_streamer = attached;
        self.stream_dense_idx = dense_idx;
    }
}

} // verus!
