//! A linear-attention layer.
use crate::device::{DevicePtr, KernelHandle};
use crate::weights::{DenseWeight, Fp8Weight, QuantizedWeight};
use vstd::prelude::*;

verus! {

/// Recurrent and convolution state of one sequence.
#[derive(Debug, Clone, Copy, PartialEq, Eq, Structural)]
pub struct SsmLayerState {
    pub h_state: DevicePtr,
    pub conv_state: DevicePtr,
}

/// Weights of the recurrent mixer.
#[derive(Debug, Clone, Copy, PartialEq, Eq, Structural)]
pub struct SsmWeights {
    pub in_proj_qkvz: DenseWeight,
    pub in_proj_ba: DenseWeight,
    pub a_log: DenseWeight,
    pub dt_bias: DenseWeight,
    pub conv1d: DenseWeight,
    pub norm: DenseWeight,
}

/// Kernels of a linear-attention layer.
#[derive(Debug, Clone, Copy, PartialEq, Eq, Structural)]
pub struct SsmKernels {
    pub rms_norm_residual: KernelHandle,
    pub residual_add_rms_norm: KernelHandle,
    pub residual_add: KernelHandle,
    pub dense_gemm: KernelHandle,
    pub w8a16_gemm: KernelHandle,
    pub w8a16_gemm_pipelined: KernelHandle,
    pub w8a16_gemv_batch4: KernelHandle,
    pub w8a16_gemv_batch16: KernelHandle,
    pub ba_gates: KernelHandle,
    pub ba_gates_prefill: KernelHandle,
    pub conv1d_l2norm_f32: KernelHandle,
    pub gdn_f32: KernelHandle,
    pub gdn_f32_norm: KernelHandle,
    pub gdn_f32_strided: KernelHandle,
    pub gdn_f32_strided_norm: KernelHandle,
    pub gated_rms_norm_f32: KernelHandle,
    pub gated_rms_norm_prefill: KernelHandle,
    pub gated_rms_norm_prefill_f32: KernelHandle,
    pub gdn_prefill_split4: KernelHandle,
    pub gdn_prefill_regresident: KernelHandle,
    pub gdn_prefill_persistent: KernelHandle,
    pub gdn_prefill_persistent_wy4: KernelHandle,
    pub gdn_prefill_fla_recompute_wu: KernelHandle,
    pub gdn_prefill_fla_chunk_delta_h: KernelHandle,
    pub gdn_prefill_fla_chunk_delta_h_tc_vblock: KernelHandle,
    pub gdn_prefill_fla_chunk_fwd_o: KernelHandle,
}

/// Kernels, weights and layout of one linear-attention layer.
#[derive(Debug, Clone, Copy, PartialEq, Eq, Structural)]
pub struct Qwen3SsmLayer {
    pub kernels: SsmKernels,
    pub ssm: SsmWeights,
    pub input_norm: DenseWeight,
    pub post_attn_norm: DenseWeight,
    /// Projections lie one behind the other rather than interleaved.
    pub sequential_qkvz: bool,
    pub qkvz_nvfp4: Option<QuantizedWeight>,
    pub qkvz_fp8w: Option<Fp8Weight>,
    pub out_proj_fp8w: Option<Fp8Weight>,
    pub out_proj_dense: Option<DenseWeight>,
    /// Bytes of one sequence's recurrent and convolution state.
    pub h_state_bytes: usize,
    pub conv_state_bytes: usize,
    /// The feed-forward block is a mixture of experts.
    pub ffn_is_moe: bool,
}

} // verus!
