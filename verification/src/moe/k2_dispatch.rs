//! Kernel choice for decode of two rows.
use crate::weights::WeightQuantFormat;
use vstd::prelude::*;

verus! {

/// Threads per block of the two-row kernel, which implements two widths.
pub fn batch2_block_width(hidden: usize) -> (r: u32)
    ensures
        hidden >= 3072 ==> r == 256,
        hidden < 3072 ==> r == 128,
{
    if hidden >= 3072 {
        256
    } else {
        128
    }
}

/// Bytes of block scales for an `[n, k]` projection in groups of `group`.
pub open spec fn scale_bytes(n: int, k: int, group: int) -> int {
    n * (k / group)
}

/// Whether two rows run one at a time: the two-row kernel reads scales in groups
/// of 16, and this format stores them in groups of 32.
pub fn k2_e8m0_needs_per_token(format: WeightQuantFormat) -> (r: bool)
    ensures
        r == (format == WeightQuantFormat::Mxfp4E8m0),
{
    format == WeightQuantFormat::Mxfp4E8m0
}

/// Scales in groups of 32 take half of what a kernel for groups of 16 reads.
pub proof fn law_wider_groups_halve_the_scales(n: int, k: int)
    requires
        0 <= n,
        0 <= k,
        k % 32 == 0,
    ensures
        scale_bytes(n, k, 16) == 2 * scale_bytes(n, k, 32),
{
    assert(k / 16 == 2 * (k / 32));
    assert(n * (2 * (k / 32)) == 2 * (n * (k / 32))) by (nonlinear_arith);
}

} // verus!
