//! What a forward pass reads from its surroundings.
use crate::device::{DevicePtr, Scalar};
use crate::text::same_text;
use vstd::prelude::*;

verus! {

/// How router logits become probabilities.
#[derive(Debug, Clone, Copy, PartialEq, Eq, Structural)]
pub enum ScoringFunc {
    Softmax,
    SqrtSoftplus,
    Other,
}

impl ScoringFunc {
    /// The function that a model file names.
    pub fn parse(name: &str) -> (r: ScoringFunc)
        ensures
            r == (if name@ == "softmax"@ {
                ScoringFunc::Softmax
            } else if name@ == "sqrtsoftplus"@ {
                ScoringFunc::SqrtSoftplus
            } else {
                ScoringFunc::Other
            }),
    {
        if same_text(name, "softmax") {
            ScoringFunc::Softmax
        } else if same_text(name, "sqrtsoftplus") {
            ScoringFunc::SqrtSoftplus
        } else {
            ScoringFunc::Other
        }
    }
}

/// Dimensions and switches of a model.
#[derive(Debug, Clone, Copy, PartialEq, Eq, Structural)]
pub struct ModelConfig {
    pub hidden_size: usize,
    pub intermediate_size: usize,
    pub moe_intermediate_size: usize,
    pub shared_expert_intermediate_size: usize,
    pub num_experts: usize,
    pub num_experts_per_tok: usize,
    pub norm_topk_prob: bool,
    pub routed_scaling_factor: Scalar,
    pub scoring_func: ScoringFunc,
    pub ep_world_size: usize,
    /// First and one past the last expert of this rank.
    pub local_lo: usize,
    pub local_hi: usize,
    pub rms_norm_eps: Scalar,
    pub rope_theta: Scalar,
    pub rotary_dim: usize,
    pub linear_num_key_heads: usize,
    pub linear_key_head_dim: usize,
    pub linear_num_value_heads: usize,
    pub linear_value_head_dim: usize,
    pub linear_conv_kernel_dim: usize,
    pub ssm_qkvz_size: usize,
    pub ssm_ba_size: usize,
}

/// Shared device scratch.
#[derive(Debug, Clone, Copy, PartialEq, Eq, Structural)]
pub struct Buffers {
    pub norm_output: DevicePtr,
    pub moe_output: DevicePtr,
    pub attn_output: DevicePtr,
    pub gate_logits: DevicePtr,
    pub scratch: DevicePtr,
    pub qkv_output: DevicePtr,
    pub expert_gate_out: DevicePtr,
    pub expert_up_out: DevicePtr,
    pub expert_down_out: DevicePtr,
    pub ssm_deinterleaved: DevicePtr,
    pub ssm_qkvz: DevicePtr,
    pub ssm_gates: DevicePtr,
    pub ssm_conv_out_f32: DevicePtr,
    pub gdn_fla_scratch: DevicePtr,
    pub splitk_workspace: DevicePtr,
    pub lora_xa: DevicePtr,
    pub moe_decode_worklist: DevicePtr,
    pub moe_decode_worklist_count: DevicePtr,
}

/// Whose rows an installed expert adapter may touch in this pass.
#[derive(Debug, Clone, Copy, PartialEq, Eq, Structural)]
pub enum MoeLoraRoute {
    /// Every row belongs to the installed adapter.
    Fold,
    /// No row does.
    Skip,
    /// Some rows do, or another adapter is asked for.
    Refuse,
}

/// Surroundings of one forward pass.
#[derive(Debug, Clone, Copy, PartialEq, Eq, Structural)]
pub struct ForwardContext {
    pub config: ModelConfig,
    pub buffers: Buffers,
    /// Launches are being captured into a graph.
    pub graph_capture: bool,
    /// Recurrent state was restored and has to be replayed exactly.
    pub gdn_exact_replay: bool,
    pub profile: bool,
    /// Ranks that take part, where there is a communicator.
    pub comm_world_size: Option<usize>,
    /// Single-wave variant of the four-bit matrix-vector kernels.
    pub gemv_sw: bool,
    pub max_decode_seqs: u32,
    pub moe_lora_route: MoeLoraRoute,
}

impl ForwardContext {
    pub open spec fn expert_parallel(&self) -> bool {
        self.comm_world_size is Some && self.config.ep_world_size > 1
    }

    /// Partial results of several ranks have to be summed.
    pub fn is_expert_parallel(&self) -> (r: bool)
        ensures
            r == self.expert_parallel(),
    {
        self.comm_world_size.is_some() && self.config.ep_world_size > 1
    }
}

} // verus!
