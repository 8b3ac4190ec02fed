//! Low-rank adapters: `y += scale * (x A^T) B^T` beside a projection.
//!
//! Adapter tensors are padded to the pool's rank with zeros, so both products
//! run at the padded rank: that is the row stride of `B`.
use crate::catalog::{KernelCatalog, KernelMissing};
use crate::dataflow::{
    after, lemma_after_matmul, lemma_after_scaled_add, lemma_row_hit, lemma_row_miss, lemma_run_three, run,
    Held, Memory, Places,
};
use crate::device::{Cmd, CommandBuffer, DevicePtr, KernelHandle, Scalar};
use crate::dflash_head::disjoint;
use crate::ops_table::{DeviceOp, MatmulKind, WeightRef};
use crate::weights::DenseWeight;
use vstd::prelude::*;

verus! {

/// Kernels of the adapter path. Without the tensor-core kernel the plain one runs.
#[derive(Debug, Clone, Copy, PartialEq, Eq, Structural)]
pub struct LoraKernels {
    pub gemv_k: KernelHandle,
    pub gemm_tc_k: KernelHandle,
    pub gemm_k: KernelHandle,
    pub scaled_add_k: KernelHandle,
}

impl LoraKernels {
    /// Resolves the kernels; only the tensor-core one may be missing. The first of the
    /// others that is missing is named.
    pub fn new(catalog: &KernelCatalog) -> (r: Result<LoraKernels, KernelMissing>)
        ensures
            r is Ok <==> catalog.find("gemv"@, "dense_gemv_bf16"@) is Some && catalog.find(
                "gemm"@,
                "dense_gemm_bf16"@,
            ) is Some && catalog.find("residual_add"@, "bf16_scaled_add"@) is Some,
            r matches Ok(k) ==> {
                &&& catalog.find("gemv"@, "dense_gemv_bf16"@) == Some(k.gemv_k)
                &&& catalog.find("gemm"@, "dense_gemm_bf16"@) == Some(k.gemm_k)
                &&& catalog.find("residual_add"@, "bf16_scaled_add"@) == Some(k.scaled_add_k)
                &&& k.gemm_tc_k == catalog.find_or_null("gemm_tc"@, "dense_gemm_tc"@)
            },
            r matches Err(e) ==> (if catalog.find("gemv"@, "dense_gemv_bf16"@) is None {
                e.names("gemv"@, "dense_gemv_bf16"@)
            } else if catalog.find("gemm"@, "dense_gemm_bf16"@) is None {
                e.names("gemm"@, "dense_gemm_bf16"@)
            } else {
                e.names("residual_add"@, "bf16_scaled_add"@)
            }),
    {
        let gemv_k: KernelHandle = match catalog.kernel("gemv", "dense_gemv_bf16") {
            Ok(h) => h,
            Err(e) => {
                return Err(e);
            },
        };
        let gemm_tc_k: KernelHandle = catalog.try_kernel("gemm_tc", "dense_gemm_tc");
        let gemm_k: KernelHandle = match catalog.kernel("gemm", "dense_gemm_bf16") {
            Ok(h) => h,
            Err(e) => {
                return Err(e);
            },
        };
        match catalog.kernel("residual_add", "bf16_scaled_add") {
            Ok(scaled_add_k) => Ok(LoraKernels { gemv_k, gemm_tc_k, gemm_k, scaled_add_k }),
            Err(e) => Err(e),
        }
    }
}

/// One adapted projection: `a` is `[max_rank, k_in]`, `b` is `[n_out, max_rank]`.
#[derive(Debug, Clone, Copy, PartialEq, Eq, Structural)]
pub struct LoraPair {
    pub a: DenseWeight,
    pub b: DenseWeight,
    pub rank: u32,
    pub k_in: u32,
    pub n_out: u32,
    pub scale: Scalar,
    /// Padded rank of the pool.
    pub max_rank: u32,
}

/// Adapters of an attention layer.
#[derive(Debug, Clone, Copy, PartialEq, Eq, Structural)]
pub struct LoraAttnWeights {
    pub k: Option<LoraPair>,
    pub v: Option<LoraPair>,
    pub o: Option<LoraPair>,
    pub kernels: LoraKernels,
}

/// Adapters of a dense feed-forward layer.
#[derive(Debug, Clone, Copy, PartialEq, Eq, Structural)]
pub struct LoraFfnWeights {
    pub gate: Option<LoraPair>,
    pub up: Option<LoraPair>,
    pub down: Option<LoraPair>,
    pub kernels: LoraKernels,
}

/// Kernel family for `m` rows: matrix-vector for one, tensor cores where they
/// are available.
pub open spec fn lora_kernel(kernels: LoraKernels, m: u32) -> (MatmulKind, KernelHandle) {
    if m == 1 {
        (MatmulKind::DenseGemv, kernels.gemv_k)
    } else if kernels.gemm_tc_k.present() {
        (MatmulKind::DenseGemmTc, kernels.gemm_tc_k)
    } else {
        (MatmulKind::DenseGemm, kernels.gemm_k)
    }
}

/// Shrink to the padded rank, expand to the output width, and fold in.
pub open spec fn lora_delta_cmds(
    kernels: LoraKernels,
    pair: LoraPair,
    x: DevicePtr,
    base_out: DevicePtr,
    m: u32,
    lora_xa: DevicePtr,
    lora_delta: DevicePtr,
) -> Seq<Cmd> {
    let (kind, kernel) = lora_kernel(kernels, m);
    seq![
        Cmd::Op(
            DeviceOp::Matmul {
                kind,
                kernel,
                input: x,
                weight: WeightRef::Dense(pair.a),
                output: lora_xa,
                m,
                n: pair.max_rank,
                k: pair.k_in,
            },
        ),
        Cmd::Op(
            DeviceOp::Matmul {
                kind,
                kernel,
                input: lora_xa,
                weight: WeightRef::Dense(pair.b),
                output: lora_delta,
                m,
                n: pair.n_out,
                k: pair.max_rank,
            },
        ),
        Cmd::Op(
            DeviceOp::ScaledAdd {
                kernel: kernels.scaled_add_k,
                base: base_out,
                delta: lora_delta,
                scale: pair.scale,
                n: (m * pair.n_out) as u32,
            },
        ),
    ]
}

/// Records `base_out += scale * (x A^T) B^T` for `m` contiguous rows. Nothing
/// but launches is recorded, so the work can be captured into a graph.
pub fn apply_lora_delta(
    cb: &mut CommandBuffer,
    kernels: &LoraKernels,
    pair: &LoraPair,
    x: DevicePtr,
    base_out: DevicePtr,
    m: u32,
    lora_xa: DevicePtr,
    lora_delta: DevicePtr,
)
    requires
        m * pair.n_out <= u32::MAX,
    ensures
        final(cb)@ == old(cb)@ + lora_delta_cmds(
            *kernels,
            *pair,
            x,
            base_out,
            m,
            lora_xa,
            lora_delta,
        ),
{
    let (kind, kernel) = if m == 1 {
        (MatmulKind::DenseGemv, kernels.gemv_k)
    } else if kernels.gemm_tc_k.is_present() {
        (MatmulKind::DenseGemmTc, kernels.gemm_tc_k)
    } else {
        (MatmulKind::DenseGemm, kernels.gemm_k)
    };
    let ghost before = cb@;
    cb.op(
        DeviceOp::Matmul {
            kind,
            kernel,
            input: x,
            weight: WeightRef::Dense(pair.a),
            output: lora_xa,
            m,
            n: pair.max_rank,
            k: pair.k_in,
        },
    );
    cb.op(
        DeviceOp::Matmul {
            kind,
            kernel,
            input: lora_xa,
            weight: WeightRef::Dense(pair.b),
            output: lora_delta,
            m,
            n: pair.n_out,
            k: pair.max_rank,
        },
    );
    cb.op(
        DeviceOp::ScaledAdd {
            kernel: kernels.scaled_add_k,
            base: base_out,
            delta: lora_delta,
            scale: pair.scale,
            n: m * pair.n_out,
        },
    );
    assert(cb@ =~= before + lora_delta_cmds(*kernels, *pair, x, base_out, m, lora_xa, lora_delta));
}

/// Every row of the base grows by the scaled product of its own row with both adapter
/// tensors.
#[verifier::rlimit(50)]
pub proof fn law_rows_gain_their_delta(
    kernels: LoraKernels,
    pair: LoraPair,
    x: DevicePtr,
    base_out: DevicePtr,
    m: u32,
    lora_xa: DevicePtr,
    lora_delta: DevicePtr,
    places: Places,
    before: Memory,
)
    requires
        pair.max_rank > 0,
        pair.n_out > 0,
        m * pair.n_out <= u32::MAX,
        disjoint(x, m * (2 * pair.k_in), lora_xa, m * (2 * pair.max_rank)),
        disjoint(lora_xa, m * (2 * pair.max_rank), lora_delta, m * (2 * pair.n_out)),
        disjoint(base_out, m * (2 * pair.n_out), lora_xa, m * (2 * pair.max_rank)),
        disjoint(base_out, m * (2 * pair.n_out), lora_delta, m * (2 * pair.n_out)),
        pair.k_in > 0,
    ensures
        ({
            let cmds = lora_delta_cmds(kernels, pair, x, base_out, m, lora_xa, lora_delta);
            &&& run(places, before, cmds) matches Some(v)
            &&& forall|r: int|
                0 <= r < m ==> {
                    let inner = Held::Product {
                        row: Box::new(before.row(x, r, 2 * pair.k_in)),
                        weight: WeightRef::Dense(pair.a),
                        n: pair.max_rank,
                        k: pair.k_in,
                    };
                    #[trigger] v.row(base_out, r, 2 * pair.n_out) == (Held::Scaled {
                        base: Box::new(before.row(base_out, r, 2 * pair.n_out)),
                        delta: Box::new(
                            Held::Product {
                                row: Box::new(inner),
                                weight: WeightRef::Dense(pair.b),
                                n: pair.n_out,
                                k: pair.max_rank,
                            },
                        ),
                        scale: pair.scale,
                    })
                }
        }),
{
    let cmds = lora_delta_cmds(kernels, pair, x, base_out, m, lora_xa, lora_delta);
    let (w, q, n) = (2 * pair.max_rank, 2 * pair.n_out, m as int);
    assert(cmds =~= seq![cmds[0], cmds[1], cmds[2]]);
    lemma_run_three(places, before, cmds[0], cmds[1], cmds[2]);
    lemma_after_matmul(places, before, cmds[0]->Op_0);
    let m1 = after(places, before, cmds[0])->0;
    lemma_after_matmul(places, m1, cmds[1]->Op_0);
    let m2 = after(places, m1, cmds[1])->0;
    lemma_after_scaled_add(places, m2, cmds[2]->Op_0);
    let v = after(places, m2, cmds[2])->0;
    assert forall|r: int| 0 <= r < m implies #[trigger] v.row(base_out, r, q) == (Held::Scaled {
        base: Box::new(before.row(base_out, r, q)),
        delta: Box::new(
            Held::Product {
                row: Box::new(
                    Held::Product {
                        row: Box::new(before.row(x, r, 2 * pair.k_in)),
                        weight: WeightRef::Dense(pair.a),
                        n: pair.max_rank,
                        k: pair.k_in,
                    },
                ),
                weight: WeightRef::Dense(pair.b),
                n: pair.n_out,
                k: pair.max_rank,
            },
        ),
        scale: pair.scale,
    }) by {
        assert(0 <= r * q && r * q + q <= n * q && n * q == 2 * (m * pair.n_out)) by (nonlinear_arith)
            requires
                0 <= r < n,
                n == m,
                q == 2 * pair.n_out,
                q > 0,
        ;
        lemma_row_hit(lora_xa.0 as int, w, w, n, r);
        lemma_row_hit(lora_delta.0 as int, q, q, n, r);
        lemma_row_miss(base_out.0 + r * q, lora_xa.0 as int, w, w, n);
        lemma_row_miss(base_out.0 + r * q, lora_delta.0 as int, q, q, n);
    }
}

} // verus!
