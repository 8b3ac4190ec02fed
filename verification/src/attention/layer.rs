//! A full-attention layer.
use crate::device::{DevicePtr, KernelHandle, Scalar};
use crate::ops::lora_delta::LoraKernels;
use crate::weights::{DenseWeight, Fp8Weight, QuantizedWeight};
use vstd::prelude::*;

verus! {

/// Kernels of a full-attention layer.
#[derive(Debug, Clone, Copy, PartialEq, Eq, Structural)]
pub struct AttnKernels {
    pub rms_norm: KernelHandle,
    pub rope: KernelHandle,
    pub rope_strided: KernelHandle,
    pub rope_yarn_scaled: KernelHandle,
    pub innerq_apply_q: KernelHandle,
    pub wht_bf16: KernelHandle,
    pub wht_bf16_inv: KernelHandle,
    pub sigmoid_gate_mul_batched: KernelHandle,
    pub sigmoid_gate_head_broadcast: KernelHandle,
    pub softplus_gate_head_broadcast: KernelHandle,
    pub deinterleave_qg: KernelHandle,
    pub dense_gemm: KernelHandle,
    pub dense_gemm_tc: KernelHandle,
    pub dense_gemv: KernelHandle,
    pub dense_gemv_batchm: KernelHandle,
    pub q2_0_gemv: KernelHandle,
    pub w8a16_gemv: KernelHandle,
    pub w4a16_gemv: KernelHandle,
    pub w4a16_gemv_batch2: KernelHandle,
    pub w4a16_gemv_batch3: KernelHandle,
    pub w4a16_gemv_qg: KernelHandle,
    pub w4a16_gemv_qg_batch2: KernelHandle,
    pub w4a16_gemv_qg_batch3: KernelHandle,
    pub w4a16_gemv_dual: KernelHandle,
    pub w4a16_gemv_dual_batch2: KernelHandle,
    pub w4a16_gemv_dual_batch3: KernelHandle,
}

/// Two-bit checkpoint blocks of an `[n, k]` tensor.
#[derive(Clone, Copy, PartialEq, Eq, Structural, Debug)]
pub struct PackedQ2Weight {
    pub weight: DevicePtr,
    pub n: u32,
    pub k: u32,
}

/// Storage of an attention projection.
#[derive(Clone, Copy, PartialEq, Eq, Structural, Debug)]
pub enum AttnWeight {
    Nvfp4(QuantizedWeight),
    Fp8(Fp8Weight),
    PackedQ2(PackedQ2Weight),
    /// Any storage that decode does not read directly.
    Other,
}

/// The four-bit weight, where that is how it is stored.
pub open spec fn nvfp4_of(w: Option<AttnWeight>) -> Option<QuantizedWeight> {
    match w {
        Some(AttnWeight::Nvfp4(q)) => Some(q),
        _ => None,
    }
}

/// The eight-bit weight, where that is how it is stored.
pub open spec fn fp8_of(w: Option<AttnWeight>) -> Option<Fp8Weight> {
    match w {
        Some(AttnWeight::Fp8(f)) => Some(f),
        _ => None,
    }
}

/// The two-bit weight, where that is how it is stored.
pub open spec fn q2_of(w: Option<AttnWeight>) -> Option<PackedQ2Weight> {
    match w {
        Some(AttnWeight::PackedQ2(q)) => Some(q),
        _ => None,
    }
}

/// The four-bit weight, where that is how it is stored.
pub fn as_nvfp4(w: &Option<AttnWeight>) -> (r: Option<QuantizedWeight>)
    ensures
        r == nvfp4_of(*w),
{
    match w {
        Some(AttnWeight::Nvfp4(q)) => Some(*q),
        _ => None,
    }
}

/// The eight-bit weight, where that is how it is stored.
pub fn as_fp8(w: &Option<AttnWeight>) -> (r: Option<Fp8Weight>)
    ensures
        r == fp8_of(*w),
{
    match w {
        Some(AttnWeight::Fp8(f)) => Some(*f),
        _ => None,
    }
}

/// The two-bit weight, where that is how it is stored.
pub fn as_packed_q2(w: &Option<AttnWeight>) -> (r: Option<PackedQ2Weight>)
    ensures
        r == q2_of(*w),
{
    match w {
        Some(AttnWeight::PackedQ2(q)) => Some(*q),
        _ => None,
    }
}

/// Weights of the projections and head norms.
#[derive(Debug, Clone, Copy, PartialEq, Eq, Structural)]
pub struct AttnWeights {
    pub q_proj: DenseWeight,
    pub k_proj: DenseWeight,
    pub v_proj: DenseWeight,
    pub o_proj: QuantizedWeight,
    /// Null where heads are not normalised.
    pub q_norm: DenseWeight,
    pub k_norm: DenseWeight,
}

/// Adapters of one projection by slot.
#[derive(Debug, Clone, Copy, PartialEq, Eq, Structural)]
pub struct LoraRoute {
    pub a_table: DevicePtr,
    pub b_table: DevicePtr,
    pub scale_table: DevicePtr,
    pub k_in: u32,
    pub n_out: u32,
    pub max_rank: u32,
}

/// Adapters of a layer by slot.
#[derive(Debug, Clone, Copy, PartialEq, Eq, Structural)]
pub struct AttnLoraRoutes {
    pub k_route: Option<LoraRoute>,
    pub v_route: Option<LoraRoute>,
    pub o_route: Option<LoraRoute>,
    pub kernels: LoraKernels,
}

/// Activation that gates every head.
#[derive(Debug, Clone, Copy, PartialEq, Eq, Structural)]
pub enum HeadGateActivation {
    Sigmoid,
    Softplus,
}

/// Kernels, weights and position of one full-attention layer.
#[derive(Debug, Clone, Copy, PartialEq, Eq, Structural)]
pub struct Qwen3AttentionLayer {
    /// Number of this layer among the attention layers.
    pub attn_layer_idx: usize,
    pub kernels: AttnKernels,
    pub attn: AttnWeights,
    pub q_weight: Option<AttnWeight>,
    pub k_weight: Option<AttnWeight>,
    pub v_weight: Option<AttnWeight>,
    pub o_weight: Option<AttnWeight>,
    pub o_dense_bf16: Option<DenseWeight>,
    pub o_nvfp4_t: Option<QuantizedWeight>,
    /// Query projections carry a gate for every value.
    pub gated: bool,
    pub head_gate_weight: Option<DenseWeight>,
    pub head_gate_activation: HeadGateActivation,
    pub lora: Option<AttnLoraRoutes>,
    pub rotary_dim_override: Option<u32>,
    pub rope_theta_override: Option<Scalar>,
    /// Null where positions are not rescaled.
    pub yarn_inv_freq: DevicePtr,
    pub yarn_attention_factor: Scalar,
    /// Cached keys and values are stored rotated.
    pub k_is_turbo: bool,
    pub v_is_turbo: bool,
}

} // verus!
