//! Routed experts through the fused kernel.
use crate::context::ForwardContext;
use crate::device::{Cmd, CommandBuffer};
use crate::env::EnvVars;
use crate::moe::forward_prefill_marlin::RoutedRows;
use crate::moe::layer::MoeLayer;
use crate::ops::b12x_flashinfer::{available, b12x_moe_prefill, uses_static, B12xError, B12xLib};
use crate::ops_table::DeviceOp;
use vstd::prelude::*;

verus! {

impl MoeLayer {
    /// A routed pass of `n` rows goes through the fused kernel. Weights for it
    /// exist only where every expert is resident.
    pub open spec fn takes_b12x(
        &self,
        ctx: &ForwardContext,
        env: &EnvVars,
        lib: Option<B12xLib>,
        n: u32,
    ) -> bool {
        &&& env.says("ATLAS_MOE_B12X"@, "1"@)
        &&& lib is Some
        &&& self.b12x is Some
        &&& !ctx.expert_parallel()
        &&& self.pre_expert_norm is None
        &&& n <= self.b12x->0.max_tokens
    }

    /// Records the routed experts where they go through the fused kernel, and says
    /// whether they do. Otherwise the grouped pass runs.
    pub fn try_b12x_prefill(
        &self,
        cb: &mut CommandBuffer,
        x: &RoutedRows,
        ctx: &ForwardContext,
        env: &EnvVars,
        lib: Option<B12xLib>,
    ) -> (r: Result<bool, B12xError>)
        ensures
            if !self.takes_b12x(ctx, env, lib, x.n) {
                r == Ok::<bool, B12xError>(false) && final(cb)@ == old(cb)@
            } else if x.n > lib->0.max_tokens {
                r == Err::<bool, B12xError>(
                    B12xError::OverCapacity { n: x.n, max_tokens: lib->0.max_tokens },
                ) && final(cb)@ == old(cb)@
            } else {
                r == Ok::<bool, B12xError>(true) && final(cb)@ == old(cb)@.push(
                    Cmd::Op(
                        DeviceOp::B12xMoe {
                            static_kernel: uses_static(env, lib->0, x.n),
                            x: x.input,
                            ids: x.indices,
                            topk_weights: x.weights,
                            out: x.output,
                            weights: self.b12x->0,
                            tokens: x.n,
                        },
                    ),
                )
            },
    {
        if !available(env, lib) {
            return Ok(false);
        }
        match self.b12x {
            None => Ok(false),
            Some(w) => {
                if ctx.is_expert_parallel() || self.pre_expert_norm.is_some() || x.n > w.max_tokens {
                    return Ok(false);
                }
                match b12x_moe_prefill(cb, lib, env, x.input, x.indices, x.weights, x.output, w, x.n) {
                    Ok(()) => Ok(true),
                    Err(e) => Err(e),
                }
            },
        }
    }
}

} // verus!
