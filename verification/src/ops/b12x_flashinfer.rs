//! The fused kernel for resident experts.
//!
//! A library that is loaded at run time provides it. The library says how many
//! rows its workspace holds and which batch sizes have a static variant.
use crate::device::{Cmd, CommandBuffer, DevicePtr};
use crate::env::EnvVars;
use crate::moe::b12x_weights::B12xMoeWeights;
use crate::ops_table::DeviceOp;
use vstd::prelude::*;

verus! {

/// What the loaded library offers.
#[derive(Debug, Clone, Copy, PartialEq, Eq, Structural)]
pub struct B12xLib {
    pub max_tokens: u32,
    /// Bit `n` is set where batches of `n` have a static variant.
    pub static_mask: u32,
    /// The static entry point was found.
    pub has_static: bool,
}

/// Why the fused kernel was not launched.
#[derive(Debug, Clone, Copy, PartialEq, Eq, Structural)]
pub enum B12xError {
    Unavailable,
    OverCapacity { n: u32, max_tokens: u32 },
}

/// Bit `n` of `mask` is set.
pub open spec fn has_bit(mask: u32, n: u32) -> bool {
    n < 32 && mask & (1u32 << n) != 0
}

/// Whether batches of `n` have a static variant.
pub fn static_batch_supported(mask: u32, n: u32) -> (r: bool)
    ensures
        r == has_bit(mask, n),
{
    n < 32 && mask & (1u32 << n) != 0
}

/// The mask that a library reports; a negative report means none.
pub fn reported_mask(reported: i32) -> (r: u32)
    ensures
        r == (if reported < 0 {
            0
        } else {
            reported as u32
        }),
{
    if reported < 0 {
        0
    } else {
        reported as u32
    }
}

/// The mask after batches of `n` were warmed up with `status`; a failure takes
/// them out and leaves all others.
pub fn after_warmup(mask: u32, n: u32, status: i32) -> (r: u32)
    ensures
        forall|m: u32|
            #[trigger] has_bit(r, m) == (has_bit(mask, m) && !(m == n && status != 0)),
{
    if status != 0 && n < 32 {
        let r: u32 = mask & !(1u32 << n);
        assert forall|m: u32| #[trigger] has_bit(r, m) == (has_bit(mask, m) && m != n) by {
            if m < 32 {
                assert((mask & !(1u32 << n)) & (1u32 << m) != 0 <==> (mask & (1u32 << m) != 0 && m
                    != n)) by (bit_vector)
                    requires
                        m < 32,
                        n < 32,
                ;
            }
        }
        r
    } else {
        mask
    }
}

/// The kernel is asked for and its library is there.
pub fn available(env: &EnvVars, lib: Option<B12xLib>) -> (r: bool)
    ensures
        r == (env.says("ATLAS_MOE_B12X"@, "1"@) && lib is Some),
{
    env.is("ATLAS_MOE_B12X", "1") && lib.is_some()
}

/// Rows that the library's workspace holds.
pub fn max_tokens(lib: Option<B12xLib>) -> (r: Option<u32>)
    ensures
        r == (match lib {
            Some(l) => Some(l.max_tokens),
            None => None,
        }),
{
    match lib {
        Some(l) => Some(l.max_tokens),
        None => None,
    }
}

/// The static variant runs.
pub open spec fn uses_static(env: &EnvVars, lib: B12xLib, n: u32) -> bool {
    env.says("ATLAS_MOE_B12X_STATIC"@, "1"@) && has_bit(lib.static_mask, n) && lib.has_static
}

/// Records one launch of the fused kernel.
pub fn b12x_moe_prefill(
    cb: &mut CommandBuffer,
    lib: Option<B12xLib>,
    env: &EnvVars,
    x: DevicePtr,
    ids: DevicePtr,
    weights: DevicePtr,
    out: DevicePtr,
    w: B12xMoeWeights,
    n: u32,
) -> (r: Result<(), B12xError>)
    ensures
        match lib {
            None => r == Err::<(), B12xError>(B12xError::Unavailable) && final(cb)@ == old(cb)@,
            Some(l) => if n > l.max_tokens {
                r == Err::<(), B12xError>(B12xError::OverCapacity { n, max_tokens: l.max_tokens })
                    && final(cb)@ == old(cb)@
            } else {
                r is Ok && final(cb)@ == old(cb)@.push(
                    Cmd::Op(
                        DeviceOp::B12xMoe {
                            static_kernel: uses_static(env, l, n),
                            x,
                            ids,
                            topk_weights: weights,
                            out,
                            weights: w,
                            tokens: n,
                        },
                    ),
                )
            },
        },
{
    match lib {
        None => Err(B12xError::Unavailable),
        Some(l) => {
            if n > l.max_tokens {
                return Err(B12xError::OverCapacity { n, max_tokens: l.max_tokens });
            }
            let static_kernel: bool = env.is("ATLAS_MOE_B12X_STATIC", "1")
                && static_batch_supported(l.static_mask, n) && l.has_static;
            cb.op(
                DeviceOp::B12xMoe {
                    static_kernel,
                    x,
                    ids,
                    topk_weights: weights,
                    out,
                    weights: w,
                    tokens: n,
                },
            );
            Ok(())
        },
    }
}

} // verus!
