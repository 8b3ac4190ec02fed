//! A dense gated feed-forward block.
//!
//! `out = down(activation(gate(x)) * up(x))`. Decode reads four-bit weights as
//! they are stored; prefill picks among several kernels, most of which read
//! transposed copies.
use crate::catalog::{KernelCatalog, KernelMissing};
use crate::context::ForwardContext;
use crate::dataflow::{
    after, lemma_after_activation, lemma_after_dual, lemma_after_dual_wave, lemma_after_gated_product,
    lemma_after_integer_product, lemma_after_matmul, lemma_one_row_miss, lemma_row_hit, lemma_row_miss,
    lemma_run_push, lemma_run_three, lemma_run_two, run, Held, Memory, Places,
};
use crate::device::{Cmd, CommandBuffer, DevicePtr, KernelHandle, Scalar};
use crate::dflash_head::disjoint;
use crate::env::EnvVars;
use crate::num::max_int;
use crate::ops_table::{DeviceOp, MatmulKind, WeightRef};
use crate::ssm::mixing::clear_of;
use crate::weights::{DenseWeight, QuantizedWeight};
use vstd::prelude::*;

verus! {

/// Four-bit weights, and transposed copies for prefill where they were made.
#[derive(Debug, Clone, Copy, PartialEq, Eq, Structural)]
pub struct DenseFfnWeights {
    pub gate_proj: QuantizedWeight,
    pub up_proj: QuantizedWeight,
    pub down_proj: QuantizedWeight,
    pub gate_proj_t: Option<QuantizedWeight>,
    pub up_proj_t: Option<QuantizedWeight>,
    pub down_proj_t: Option<QuantizedWeight>,
}

/// The same projections in bfloat16.
#[derive(Debug, Clone, Copy, PartialEq, Eq, Structural)]
pub struct DenseFfnWeightsBf16 {
    pub gate_proj: DenseWeight,
    pub up_proj: DenseWeight,
    pub down_proj: DenseWeight,
}

/// Activation that gates the up product.
#[derive(Debug, Clone, Copy, PartialEq, Eq, Structural)]
pub enum FfnActivation {
    SiLU,
    GeLU,
}

/// An eight-bit copy of a projection: `[n, k]` values, `[n, k/32]` scales.
#[derive(Debug, Clone, Copy, PartialEq, Eq, Structural)]
pub struct Int8Weight {
    pub w_i8: DevicePtr,
    pub w_scale: DevicePtr,
}

/// Scratch for quantised activations and its sizes in bytes.
#[derive(Debug, Clone, Copy, PartialEq, Eq, Structural)]
pub struct Int8Scratch {
    pub a_i8: DevicePtr,
    pub a_scale: DevicePtr,
    pub i8_bytes: usize,
    pub scale_bytes: usize,
}

/// A projection of the block.
#[derive(Debug, Clone, Copy, PartialEq, Eq, Structural)]
pub enum FfnProj {
    Gate,
    Up,
    Down,
}

/// Kernels of a dense feed-forward block.
#[derive(Debug, Clone, Copy, PartialEq, Eq, Structural)]
pub struct DenseFfnKernels {
    pub w4a16_gemv: KernelHandle,
    pub w4a16_gemv_dual: KernelHandle,
    pub w4a16_gemv_silu_input: KernelHandle,
    pub w4a16_gemv_dual_sw: KernelHandle,
    pub w4a16_gemv_silu_input_sw: KernelHandle,
    pub w4a16_gemv_dual_batch2: KernelHandle,
    pub w4a16_gemv_dual_batch3: KernelHandle,
    pub w4a16_gemv_batch2: KernelHandle,
    pub w4a16_gemv_batch3: KernelHandle,
    pub w4a16_gemm: KernelHandle,
    pub w4a16_gemm_t_m128: KernelHandle,
    pub w4a16_gemm_t_m128_v2: KernelHandle,
    pub w4a16_gemm_t_m128_bf16: KernelHandle,
    pub w4a16_gemm_t_m128_bf16_v2: KernelHandle,
    pub w4a16_gemm_t: KernelHandle,
    pub int8_faith2: KernelHandle,
    pub requant_w_int8: KernelHandle,
    pub requant_a_int8: KernelHandle,
    /// Activation of gate times up.
    pub act_mul: KernelHandle,
    pub dense_gemv_bf16: KernelHandle,
    pub dense_gemm_bf16: KernelHandle,
    pub dense_gemm_tc: KernelHandle,
}

/// A dense gated feed-forward block.
#[derive(Debug, Clone, Copy, PartialEq, Eq, Structural)]
pub struct DenseFfnLayer {
    pub weights: DenseFfnWeights,
    pub activation: FfnActivation,
    pub kernels: DenseFfnKernels,
    /// Single-wave decode kernels are asked for.
    pub decode_opt: bool,
    pub bf16_weights: Option<DenseFfnWeightsBf16>,
    pub int8_gate: Option<Int8Weight>,
    pub int8_up: Option<Int8Weight>,
    pub int8_down: Option<Int8Weight>,
    pub int8_a_scratch: Option<Int8Scratch>,
}

/// Module and function of the activation kernel.
pub open spec fn act_kernel(a: FfnActivation) -> (Seq<char>, Seq<char>) {
    match a {
        FfnActivation::SiLU => ("moe_silu_mul"@, "moe_silu_mul"@),
        FfnActivation::GeLU => ("gelu"@, "gelu_mul"@),
    }
}

/// The first of the kernels that a block cannot do without that is missing.
pub open spec fn first_missing(c: &KernelCatalog, a: FfnActivation) -> Option<(Seq<char>, Seq<char>)> {
    if c.find(act_kernel(a).0, act_kernel(a).1) is None {
        Some(act_kernel(a))
    } else if c.find("w4a16_gemv"@, "w4a16_gemv"@) is None {
        Some(("w4a16_gemv"@, "w4a16_gemv"@))
    } else if c.find("w4a16_gemv_fused"@, "w4a16_gemv_dual"@) is None {
        Some(("w4a16_gemv_fused"@, "w4a16_gemv_dual"@))
    } else if c.find("w4a16_gemv_fused"@, "w4a16_gemv_silu_input"@) is None {
        Some(("w4a16_gemv_fused"@, "w4a16_gemv_silu_input"@))
    } else if c.find("w4a16_gemv"@, "w4a16_gemv_dual_batch2"@) is None {
        Some(("w4a16_gemv"@, "w4a16_gemv_dual_batch2"@))
    } else if c.find("w4a16_gemv"@, "w4a16_gemv_dual_batch3"@) is None {
        Some(("w4a16_gemv"@, "w4a16_gemv_dual_batch3"@))
    } else if c.find("w4a16_gemv"@, "w4a16_gemv_batch2"@) is None {
        Some(("w4a16_gemv"@, "w4a16_gemv_batch2"@))
    } else if c.find("w4a16_gemv"@, "w4a16_gemv_batch3"@) is None {
        Some(("w4a16_gemv"@, "w4a16_gemv_batch3"@))
    } else if c.find("w4a16"@, "w4a16_gemm"@) is None {
        Some(("w4a16"@, "w4a16_gemm"@))
    } else {
        None
    }
}

/// The kernels of an image; those that may be missing are null then.
pub open spec fn kernels_of(c: &KernelCatalog, a: FfnActivation) -> DenseFfnKernels {
    DenseFfnKernels {
        w4a16_gemv: c.find_or_null("w4a16_gemv"@, "w4a16_gemv"@),
        w4a16_gemv_dual: c.find_or_null("w4a16_gemv_fused"@, "w4a16_gemv_dual"@),
        w4a16_gemv_silu_input: c.find_or_null("w4a16_gemv_fused"@, "w4a16_gemv_silu_input"@),
        w4a16_gemv_dual_sw: c.find_or_null("w4a16_gemv_fused"@, "w4a16_gemv_dual_sw"@),
        w4a16_gemv_silu_input_sw: c.find_or_null("w4a16_gemv_fused"@, "w4a16_gemv_silu_input_sw"@),
        w4a16_gemv_dual_batch2: c.find_or_null("w4a16_gemv"@, "w4a16_gemv_dual_batch2"@),
        w4a16_gemv_dual_batch3: c.find_or_null("w4a16_gemv"@, "w4a16_gemv_dual_batch3"@),
        w4a16_gemv_batch2: c.find_or_null("w4a16_gemv"@, "w4a16_gemv_batch2"@),
        w4a16_gemv_batch3: c.find_or_null("w4a16_gemv"@, "w4a16_gemv_batch3"@),
        w4a16_gemm: c.find_or_null("w4a16"@, "w4a16_gemm"@),
        w4a16_gemm_t_m128: c.find_or_null("w4a16"@, "w4a16_gemm_t_m128"@),
        w4a16_gemm_t_m128_v2: c.find_or_null("w4a16_v2"@, "w4a16_gemm_t_m128_v2"@),
        w4a16_gemm_t_m128_bf16: c.find_or_null("w4a16"@, "w4a16_gemm_t_m128_bf16"@),
        w4a16_gemm_t_m128_bf16_v2: c.find_or_null("w4a16"@, "w4a16_gemm_t_m128_bf16_v2"@),
        w4a16_gemm_t: c.find_or_null("w4a16"@, "w4a16_gemm_t"@),
        int8_faith2: c.find_or_null("w4a16"@, "int8_gemm_faith2"@),
        requant_w_int8: c.find_or_null("w4a16"@, "requant_w_nvfp4_int8"@),
        requant_a_int8: c.find_or_null("w4a16"@, "requant_a_bf16_int8"@),
        act_mul: c.find_or_null(act_kernel(a).0, act_kernel(a).1),
        dense_gemv_bf16: c.find_or_null("gemv"@, "dense_gemv_bf16"@),
        dense_gemm_bf16: c.find_or_null("gemm"@, "dense_gemm_bf16"@),
        dense_gemm_tc: c.find_or_null("gemm_tc"@, "dense_gemm_tc"@),
    }
}

/// A block as it is made.
pub open spec fn fresh_layer(
    weights: DenseFfnWeights,
    activation: FfnActivation,
    c: &KernelCatalog,
    env: &EnvVars,
) -> DenseFfnLayer {
    DenseFfnLayer {
        weights,
        activation,
        kernels: kernels_of(c, activation),
        decode_opt: env.value("ATLAS_DECODE_OPT"@) is Some,
        bf16_weights: None,
        int8_gate: None,
        int8_up: None,
        int8_down: None,
        int8_a_scratch: None,
    }
}

fn find_missing(c: &KernelCatalog, a: FfnActivation) -> (r: Option<KernelMissing>)
    ensures
        match first_missing(c, a) {
            Some(k) => r matches Some(e) && e.names(k.0, k.1),
            None => r is None,
        },
{
    let act: Result<KernelHandle, KernelMissing> = match a {
        FfnActivation::SiLU => c.kernel("moe_silu_mul", "moe_silu_mul"),
        FfnActivation::GeLU => c.kernel("gelu", "gelu_mul"),
    };
    if let Err(e) = act {
        return Some(e);
    }
    if let Err(e) = c.kernel("w4a16_gemv", "w4a16_gemv") {
        return Some(e);
    }
    if let Err(e) = c.kernel("w4a16_gemv_fused", "w4a16_gemv_dual") {
        return Some(e);
    }
    if let Err(e) = c.kernel("w4a16_gemv_fused", "w4a16_gemv_silu_input") {
        return Some(e);
    }
    if let Err(e) = c.kernel("w4a16_gemv", "w4a16_gemv_dual_batch2") {
        return Some(e);
    }
    if let Err(e) = c.kernel("w4a16_gemv", "w4a16_gemv_dual_batch3") {
        return Some(e);
    }
    if let Err(e) = c.kernel("w4a16_gemv", "w4a16_gemv_batch2") {
        return Some(e);
    }
    if let Err(e) = c.kernel("w4a16_gemv", "w4a16_gemv_batch3") {
        return Some(e);
    }
    if let Err(e) = c.kernel("w4a16", "w4a16_gemm") {
        return Some(e);
    }
    None
}

fn resolve_kernels(c: &KernelCatalog, a: FfnActivation) -> (r: DenseFfnKernels)
    ensures
        r == kernels_of(c, a),
{
    let act_mul: KernelHandle = match a {
        FfnActivation::SiLU => c.try_kernel("moe_silu_mul", "moe_silu_mul"),
        FfnActivation::GeLU => c.try_kernel("gelu", "gelu_mul"),
    };
    DenseFfnKernels {
        w4a16_gemv: c.try_kernel("w4a16_gemv", "w4a16_gemv"),
        w4a16_gemv_dual: c.try_kernel("w4a16_gemv_fused", "w4a16_gemv_dual"),
        w4a16_gemv_silu_input: c.try_kernel("w4a16_gemv_fused", "w4a16_gemv_silu_input"),
        w4a16_gemv_dual_sw: c.try_kernel("w4a16_gemv_fused", "w4a16_gemv_dual_sw"),
        w4a16_gemv_silu_input_sw: c.try_kernel("w4a16_gemv_fused", "w4a16_gemv_silu_input_sw"),
        w4a16_gemv_dual_batch2: c.try_kernel("w4a16_gemv", "w4a16_gemv_dual_batch2"),
        w4a16_gemv_dual_batch3: c.try_kernel("w4a16_gemv", "w4a16_gemv_dual_batch3"),
        w4a16_gemv_batch2: c.try_kernel("w4a16_gemv", "w4a16_gemv_batch2"),
        w4a16_gemv_batch3: c.try_kernel("w4a16_gemv", "w4a16_gemv_batch3"),
        w4a16_gemm: c.try_kernel("w4a16", "w4a16_gemm"),
        w4a16_gemm_t_m128: c.try_kernel("w4a16", "w4a16_gemm_t_m128"),
        w4a16_gemm_t_m128_v2: c.try_kernel("w4a16_v2", "w4a16_gemm_t_m128_v2"),
        w4a16_gemm_t_m128_bf16: c.try_kernel("w4a16", "w4a16_gemm_t_m128_bf16"),
        w4a16_gemm_t_m128_bf16_v2: c.try_kernel("w4a16", "w4a16_gemm_t_m128_bf16_v2"),
        w4a16_gemm_t: c.try_kernel("w4a16", "w4a16_gemm_t"),
        int8_faith2: c.try_kernel("w4a16", "int8_gemm_faith2"),
        requant_w_int8: c.try_kernel("w4a16", "requant_w_nvfp4_int8"),
        requant_a_int8: c.try_kernel("w4a16", "requant_a_bf16_int8"),
        act_mul,
        dense_gemv_bf16: c.try_kernel("gemv", "dense_gemv_bf16"),
        dense_gemm_bf16: c.try_kernel("gemm", "dense_gemm_bf16"),
        dense_gemm_tc: c.try_kernel("gemm_tc", "dense_gemm_tc"),
    }
}

impl DenseFfnLayer {
    /// A block with SiLU.
    pub fn new(weights: DenseFfnWeights, catalog: &KernelCatalog, env: &EnvVars) -> (r: Result<
        DenseFfnLayer,
        KernelMissing,
    >)
        ensures
            match first_missing(catalog, FfnActivation::SiLU) {
                None => r == Ok::<DenseFfnLayer, KernelMissing>(
                    fresh_layer(weights, FfnActivation::SiLU, catalog, env),
                ),
                Some(k) => r matches Err(e) && e.names(k.0, k.1),
            },
    {
        Self::new_with_activation(weights, FfnActivation::SiLU, catalog, env)
    }

    /// A block with either activation.
    pub fn new_with_activation(
        weights: DenseFfnWeights,
        activation: FfnActivation,
        catalog: &KernelCatalog,
        env: &EnvVars,
    ) -> (r: Result<DenseFfnLayer, KernelMissing>)
        ensures
            match first_missing(catalog, activation) {
                None => r == Ok::<DenseFfnLayer, KernelMissing>(
                    fresh_layer(weights, activation, catalog, env),
                ),
                Some(k) => r matches Err(e) && e.names(k.0, k.1),
            },
    {
        if let Some(e) = find_missing(catalog, activation) {
            return Err(e);
        }
        Ok(
            DenseFfnLayer {
                weights,
                activation,
                kernels: resolve_kernels(catalog, activation),
                decode_opt: env.has("ATLAS_DECODE_OPT"),
                bf16_weights: None,
                int8_gate: None,
                int8_up: None,
                int8_down: None,
                int8_a_scratch: None,
            },
        )
    }

    /// Makes the block read bfloat16 weights from now on.
    pub fn set_bf16_weights(&mut self, gate: DenseWeight, up: DenseWeight, down: DenseWeight)
        ensures
            *final(self) == (DenseFfnLayer {
                bf16_weights: Some(
                    DenseFfnWeightsBf16 { gate_proj: gate, up_proj: up, down_proj: down },
                ),
                ..*old(self)
            }),
    {
        self.bf16_weights =
        Some(DenseFfnWeightsBf16 { gate_proj: gate, up_proj: up, down_proj: down });
    }

    /// The eight-bit copy of a projection, where it was made.
    pub open spec fn int8_of(&self, p: FfnProj) -> Option<Int8Weight> {
        match p {
            FfnProj::Gate => self.int8_gate,
            FfnProj::Up => self.int8_up,
            FfnProj::Down => self.int8_down,
        }
    }

    /// A projection as it is stored.
    pub open spec fn weight_of(&self, p: FfnProj) -> QuantizedWeight {
        match p {
            FfnProj::Gate => self.weights.gate_proj,
            FfnProj::Up => self.weights.up_proj,
            FfnProj::Down => self.weights.down_proj,
        }
    }

    /// Its transposed copy.
    pub open spec fn transposed_of(&self, p: FfnProj) -> Option<QuantizedWeight> {
        match p {
            FfnProj::Gate => self.weights.gate_proj_t,
            FfnProj::Up => self.weights.up_proj_t,
            FfnProj::Down => self.weights.down_proj_t,
        }
    }

    fn int8_weight(&self, p: FfnProj) -> (r: Option<Int8Weight>)
        ensures
            r == self.int8_of(p),
    {
        match p {
            FfnProj::Gate => self.int8_gate,
            FfnProj::Up => self.int8_up,
            FfnProj::Down => self.int8_down,
        }
    }

    fn stored(&self, p: FfnProj) -> (r: QuantizedWeight)
        ensures
            r == self.weight_of(p),
    {
        match p {
            FfnProj::Gate => self.weights.gate_proj,
            FfnProj::Up => self.weights.up_proj,
            FfnProj::Down => self.weights.down_proj,
        }
    }

    fn transposed(&self, p: FfnProj) -> (r: Option<QuantizedWeight>)
        ensures
            r == self.transposed_of(p),
    {
        match p {
            FfnProj::Gate => self.weights.gate_proj_t,
            FfnProj::Up => self.weights.up_proj_t,
            FfnProj::Down => self.weights.down_proj_t,
        }
    }

    /// Bytes of an eight-bit copy that is still to be made: values and scales.
    pub fn int8_weight_bytes(&self, p: FfnProj, n: u32, k: u32) -> (r: Option<(usize, usize)>)
        requires
            n * k <= usize::MAX,
            n * (k as int / 32) * 4 <= usize::MAX,
        ensures
            r == (if self.int8_of(p) is Some {
                None
            } else {
                Some(((n * k) as usize, (n * (k as int / 32) * 4) as usize))
            }),
    {
        if self.int8_weight(p).is_some() {
            return None;
        }
        proof {
            crate::device::lemma_row_bound(n as int, n as int, k as int / 32, 4);
        }
        Some((n as usize * k as usize, n as usize * (k as usize / 32) * 4))
    }

    /// Makes the eight-bit copy of a projection in `mem`, unless there is one.
    pub fn ensure_int8_weight(
        &mut self,
        cb: &mut CommandBuffer,
        p: FfnProj,
        mem: Int8Weight,
        n: u32,
        k: u32,
    ) -> (r: Int8Weight)
        ensures
            old(self).int8_of(p) matches Some(w) ==> r == w && *final(self) == *old(self)
                && final(cb)@ == old(cb)@,
            old(self).int8_of(p) is None ==> {
                &&& r == mem
                &&& final(self).int8_of(p) == Some(mem)
                &&& *final(self) == (DenseFfnLayer {
                    int8_gate: final(self).int8_gate,
                    int8_up: final(self).int8_up,
                    int8_down: final(self).int8_down,
                    ..*old(self)
                })
                &&& p != FfnProj::Gate ==> final(self).int8_gate == old(self).int8_gate
                &&& p != FfnProj::Up ==> final(self).int8_up == old(self).int8_up
                &&& p != FfnProj::Down ==> final(self).int8_down == old(self).int8_down
                &&& final(cb)@ == old(cb)@.push(
                    Cmd::Op(
                        DeviceOp::RequantWeightInt8 {
                            kernel: old(self).kernels.requant_w_int8,
                            src: old(self).weight_of(p),
                            dst: mem.w_i8,
                            dst_scale: mem.w_scale,
                            n,
                            k,
                        },
                    ),
                )
            },
    {
        if let Some(w) = self.int8_weight(p) {
            return w;
        }
        cb.op(
            DeviceOp::RequantWeightInt8 {
                kernel: self.kernels.requant_w_int8,
                src: self.stored(p),
                dst: mem.w_i8,
                dst_scale: mem.w_scale,
                n,
                k,
            },
        );
        match p {
            FfnProj::Gate => {
                self.int8_gate = Some(mem);
            },
            FfnProj::Up => {
                self.int8_up = Some(mem);
            },
            FfnProj::Down => {
                self.int8_down = Some(mem);
            },
        }
        mem
    }

    /// The scratch holds `m` rows of `k` values.
    pub open spec fn scratch_holds(&self, m: u32, k: u32) -> bool {
        self.int8_a_scratch matches Some(s) && s.i8_bytes >= m * k && s.scale_bytes >= m * (k as int / 32)
            * 4
    }

    /// Where the scratch is too small, releases it once its readers are done, and
    /// gives the sizes to allocate.
    pub fn release_int8_scratch(&mut self, cb: &mut CommandBuffer, m: u32, k: u32) -> (r: Option<
        (usize, usize),
    >)
        requires
            m * k <= usize::MAX,
            m * (k as int / 32) * 4 <= usize::MAX,
        ensures
            old(self).scratch_holds(m, k) ==> r is None && *final(self) == *old(self) && final(cb)@
                == old(cb)@,
            !old(self).scratch_holds(m, k) ==> {
                &&& r == Some(
                    (max_int(m * k, 1) as usize, max_int(m * (k as int / 32) * 4, 1) as usize),
                )
                &&& *final(self) == (DenseFfnLayer { int8_a_scratch: None, ..*old(self) })
                &&& final(cb)@ == old(cb)@ + (match old(self).int8_a_scratch {
                    Some(s) => seq![
                        Cmd::Op(DeviceOp::Synchronize),
                        Cmd::Op(DeviceOp::Free { ptr: s.a_i8 }),
                        Cmd::Op(DeviceOp::Free { ptr: s.a_scale }),
                    ],
                    None => Seq::empty(),
                })
            },
    {
        let ghost before = cb@;
        proof {
            crate::device::lemma_row_bound(m as int, m as int, k as int / 32, 4);
        }
        let need_i8: usize = m as usize * k as usize;
        let need_scale: usize = m as usize * (k as usize / 32) * 4;
        if let Some(s) = self.int8_a_scratch {
            if s.i8_bytes >= need_i8 && s.scale_bytes >= need_scale {
                return None;
            }
            cb.op(DeviceOp::Synchronize);
            cb.op(DeviceOp::Free { ptr: s.a_i8 });
            cb.op(DeviceOp::Free { ptr: s.a_scale });
            assert(cb@ =~= before + seq![
                Cmd::Op(DeviceOp::Synchronize),
                Cmd::Op(DeviceOp::Free { ptr: s.a_i8 }),
                Cmd::Op(DeviceOp::Free { ptr: s.a_scale }),
            ]);
        }
        self.int8_a_scratch = None;
        assert(cb@ =~= cb@ + Seq::<Cmd>::empty());
        Some(
            (
                if need_i8 < 1 {
                    1
                } else {
                    need_i8
                },
                if need_scale < 1 {
                    1
                } else {
                    need_scale
                },
            ),
        )
    }

    /// Installs scratch for `m` rows of `k` values.
    pub fn install_int8_scratch(&mut self, a_i8: DevicePtr, a_scale: DevicePtr, m: u32, k: u32)
        requires
            m * k <= usize::MAX,
            m * (k as int / 32) * 4 <= usize::MAX,
        ensures
            *final(self) == (DenseFfnLayer {
                int8_a_scratch: Some(
                    Int8Scratch {
                        a_i8,
                        a_scale,
                        i8_bytes: (m * k) as usize,
                        scale_bytes: (m * (k as int / 32) * 4) as usize,
                    },
                ),
                ..*old(self)
            }),
            final(self).scratch_holds(m, k),
    {
        proof {
            crate::device::lemma_row_bound(m as int, m as int, k as int / 32, 4);
        }
        self.int8_a_scratch =
        Some(
            Int8Scratch {
                a_i8,
                a_scale,
                i8_bytes: m as usize * k as usize,
                scale_bytes: m as usize * (k as usize / 32) * 4,
            },
        );
    }

    /// Single-wave kernels run.
    pub open spec fn uses_single_wave(&self) -> bool {
        self.decode_opt && self.kernels.w4a16_gemv_dual_sw.present()
            && self.kernels.w4a16_gemv_silu_input_sw.present()
    }

    /// One row: bfloat16 weights run projection by projection; four-bit weights run gate and
    /// up together, and SiLU inside the down projection.
    pub open spec fn decode_cmds(&self, ctx: &ForwardContext, input: DevicePtr) -> Seq<Cmd> {
        let k = self.kernels;
        let h = ctx.config.hidden_size as u32;
        let inter = ctx.config.intermediate_size as u32;
        let gate = ctx.buffers.expert_gate_out;
        let up = ctx.buffers.expert_up_out;
        let out = ctx.buffers.moe_output;
        let sw = self.uses_single_wave();
        (match self.bf16_weights {
            Some(w) => {
                seq![
                    Cmd::Op(DeviceOp::Matmul { kind: MatmulKind::DenseGemv,
                        kernel: k.dense_gemv_bf16, input: input,
                        weight: WeightRef::Dense(w.gate_proj), output: gate, m: 1, n: inter,
                        k: h }),
                    Cmd::Op(DeviceOp::Matmul { kind: MatmulKind::DenseGemv,
                        kernel: k.dense_gemv_bf16, input: input,
                        weight: WeightRef::Dense(w.up_proj), output: up, m: 1, n: inter, k: h }),
                    Cmd::Op(DeviceOp::ActMul { kernel: k.act_mul, gate: gate, up: up, out: gate,
                        n: inter }),
                    Cmd::Op(DeviceOp::Matmul { kind: MatmulKind::DenseGemv,
                        kernel: k.dense_gemv_bf16, input: gate,
                        weight: WeightRef::Dense(w.down_proj), output: out, m: 1, n: h,
                        k: inter }),
                ]
            },
            None => {
                (if sw {
                    seq![
                        Cmd::Op(DeviceOp::GemvDualSw { kernel: k.w4a16_gemv_dual_sw, input: input,
                            weight0: self.weights.gate_proj, output0: gate,
                            weight1: self.weights.up_proj, output1: up, n: inter, k: h }),
                    ]
                } else {
                    seq![
                        Cmd::Op(DeviceOp::GemvDual { kernel: k.w4a16_gemv_dual, input: input,
                            weight0: self.weights.gate_proj, output0: gate,
                            weight1: self.weights.up_proj, output1: up, rows: 1, n: inter, k: h }),
                    ]
                }) + (match self.activation {
                    FfnActivation::SiLU => {
                        seq![
                            Cmd::Op(DeviceOp::GemvSiluInput { kernel: if sw { k.w4a16_gemv_silu_input_sw } else { k.w4a16_gemv_silu_input },
                                single_wave: sw, gate: gate, up: up,
                                weight: self.weights.down_proj, output: out, n: h, k: inter }),
                        ]
                    },
                    FfnActivation::GeLU => {
                        seq![
                            Cmd::Op(DeviceOp::ActMul { kernel: k.act_mul, gate: gate, up: up,
                                out: gate, n: inter }),
                            Cmd::Op(DeviceOp::Matmul { kind: MatmulKind::W4a16Gemv,
                                kernel: k.w4a16_gemv, input: gate,
                                weight: WeightRef::Quantized(self.weights.down_proj), output: out,
                                m: 1, n: h, k: inter }),
                        ]
                    },
                })
            },
        })
    }

    fn record_decode(&self, cb: &mut CommandBuffer, ctx: &ForwardContext, input: DevicePtr)
        ensures
            final(cb)@ == old(cb)@ + self.decode_cmds(ctx, input),
    {
        let ghost before = cb@;
        let k: DenseFfnKernels = self.kernels;
        let h: u32 = ctx.config.hidden_size as u32;
        let inter: u32 = ctx.config.intermediate_size as u32;
        let gate: DevicePtr = ctx.buffers.expert_gate_out;
        let up: DevicePtr = ctx.buffers.expert_up_out;
        let out: DevicePtr = ctx.buffers.moe_output;
        let sw: bool = self.decode_opt && k.w4a16_gemv_dual_sw.is_present() && k.w4a16_gemv_silu_input_sw.is_present();
        match self.bf16_weights {
            Some(w) => {
                cb.op(DeviceOp::Matmul { kind: MatmulKind::DenseGemv, kernel: k.dense_gemv_bf16,
                    input: input, weight: WeightRef::Dense(w.gate_proj), output: gate, m: 1,
                    n: inter, k: h });
                cb.op(DeviceOp::Matmul { kind: MatmulKind::DenseGemv, kernel: k.dense_gemv_bf16,
                    input: input, weight: WeightRef::Dense(w.up_proj), output: up, m: 1, n: inter,
                    k: h });
                cb.op(DeviceOp::ActMul { kernel: k.act_mul, gate: gate, up: up, out: gate,
                    n: inter });
                cb.op(DeviceOp::Matmul { kind: MatmulKind::DenseGemv, kernel: k.dense_gemv_bf16,
                    input: gate, weight: WeightRef::Dense(w.down_proj), output: out, m: 1, n: h,
                    k: inter });
            },
            None => {
                if sw {
                    cb.op(DeviceOp::GemvDualSw { kernel: k.w4a16_gemv_dual_sw, input: input,
                        weight0: self.weights.gate_proj, output0: gate,
                        weight1: self.weights.up_proj, output1: up, n: inter, k: h });
                } else {
                    cb.op(DeviceOp::GemvDual { kernel: k.w4a16_gemv_dual, input: input,
                        weight0: self.weights.gate_proj, output0: gate,
                        weight1: self.weights.up_proj, output1: up, rows: 1, n: inter, k: h });
                }
                match self.activation {
                    FfnActivation::SiLU => {
                        cb.op(DeviceOp::GemvSiluInput { kernel: if sw { k.w4a16_gemv_silu_input_sw } else { k.w4a16_gemv_silu_input },
                            single_wave: sw, gate: gate, up: up, weight: self.weights.down_proj,
                            output: out, n: h, k: inter });
                    },
                    FfnActivation::GeLU => {
                        cb.op(DeviceOp::ActMul { kernel: k.act_mul, gate: gate, up: up, out: gate,
                            n: inter });
                        cb.op(DeviceOp::Matmul { kind: MatmulKind::W4a16Gemv, kernel: k.w4a16_gemv,
                            input: gate, weight: WeightRef::Quantized(self.weights.down_proj),
                            output: out, m: 1, n: h, k: inter });
                    },
                }
            },
        }
        assert(cb@ =~= before + self.decode_cmds(ctx, input));
    }

    /// Records the block on one row and gives where its result lies.
    pub fn forward(&self, cb: &mut CommandBuffer, input: DevicePtr, ctx: &ForwardContext) -> (r:
        DevicePtr)
        ensures
            r == ctx.buffers.moe_output,
            final(cb)@ == old(cb)@ + self.decode_cmds(ctx, input),
    {
        self.record_decode(cb, ctx, input);
        ctx.buffers.moe_output
    }

    /// Two rows through four-bit weights.
    pub open spec fn k2_cmds(&self, ctx: &ForwardContext, input: DevicePtr) -> Seq<Cmd> {
        let k = self.kernels;
        let h = ctx.config.hidden_size as u32;
        let inter = ctx.config.intermediate_size as u32;
        let gate = ctx.buffers.expert_gate_out;
        let up = ctx.buffers.expert_up_out;
        seq![
            Cmd::Op(DeviceOp::GemvDual { kernel: k.w4a16_gemv_dual_batch2, input: input,
                weight0: self.weights.gate_proj, output0: gate, weight1: self.weights.up_proj,
                output1: up, rows: 2, n: inter, k: h }),
            Cmd::Op(DeviceOp::ActMul { kernel: k.act_mul, gate: gate, up: up, out: gate,
                n: (2 * inter) as u32 }),
            Cmd::Op(DeviceOp::Matmul { kind: MatmulKind::W4a16GemvBatch2,
                kernel: k.w4a16_gemv_batch2, input: gate,
                weight: WeightRef::Quantized(self.weights.down_proj),
                output: ctx.buffers.moe_output, m: 2, n: h, k: inter }),
        ]
    }

    /// Records the block on two rows.
    pub fn forward_k2(&self, cb: &mut CommandBuffer, ctx: &ForwardContext, input: DevicePtr)
        requires
            2 * (ctx.config.intermediate_size as u32) <= u32::MAX,
        ensures
            final(cb)@ == old(cb)@ + self.k2_cmds(ctx, input),
    {
        let ghost before = cb@;
        let k: DenseFfnKernels = self.kernels;
        let h: u32 = ctx.config.hidden_size as u32;
        let inter: u32 = ctx.config.intermediate_size as u32;
        let gate: DevicePtr = ctx.buffers.expert_gate_out;
        let up: DevicePtr = ctx.buffers.expert_up_out;
        cb.op(DeviceOp::GemvDual { kernel: k.w4a16_gemv_dual_batch2, input: input,
            weight0: self.weights.gate_proj, output0: gate, weight1: self.weights.up_proj,
            output1: up, rows: 2, n: inter, k: h });
        cb.op(DeviceOp::ActMul { kernel: k.act_mul, gate: gate, up: up, out: gate, n: 2 * inter });
        cb.op(DeviceOp::Matmul { kind: MatmulKind::W4a16GemvBatch2, kernel: k.w4a16_gemv_batch2,
            input: gate, weight: WeightRef::Quantized(self.weights.down_proj),
            output: ctx.buffers.moe_output, m: 2, n: h, k: inter });
        assert(cb@ =~= before + self.k2_cmds(ctx, input));
    }

    /// Three rows through four-bit weights.
    pub open spec fn k3_cmds(&self, ctx: &ForwardContext, input: DevicePtr) -> Seq<Cmd> {
        let k = self.kernels;
        let h = ctx.config.hidden_size as u32;
        let inter = ctx.config.intermediate_size as u32;
        let gate = ctx.buffers.expert_gate_out;
        let up = ctx.buffers.expert_up_out;
        seq![
            Cmd::Op(DeviceOp::GemvDual { kernel: k.w4a16_gemv_dual_batch3, input: input,
                weight0: self.weights.gate_proj, output0: gate, weight1: self.weights.up_proj,
                output1: up, rows: 3, n: inter, k: h }),
            Cmd::Op(DeviceOp::ActMul { kernel: k.act_mul, gate: gate, up: up, out: gate,
                n: (3 * inter) as u32 }),
            Cmd::Op(DeviceOp::Matmul { kind: MatmulKind::W4a16GemvBatch3,
                kernel: k.w4a16_gemv_batch3, input: gate,
                weight: WeightRef::Quantized(self.weights.down_proj),
                output: ctx.buffers.moe_output, m: 3, n: h, k: inter }),
        ]
    }

    /// Records the block on three rows.
    pub fn forward_k3(&self, cb: &mut CommandBuffer, ctx: &ForwardContext, input: DevicePtr)
        requires
            3 * (ctx.config.intermediate_size as u32) <= u32::MAX,
        ensures
            final(cb)@ == old(cb)@ + self.k3_cmds(ctx, input),
    {
        let ghost before = cb@;
        let k: DenseFfnKernels = self.kernels;
        let h: u32 = ctx.config.hidden_size as u32;
        let inter: u32 = ctx.config.intermediate_size as u32;
        let gate: DevicePtr = ctx.buffers.expert_gate_out;
        let up: DevicePtr = ctx.buffers.expert_up_out;
        cb.op(DeviceOp::GemvDual { kernel: k.w4a16_gemv_dual_batch3, input: input,
            weight0: self.weights.gate_proj, output0: gate, weight1: self.weights.up_proj,
            output1: up, rows: 3, n: inter, k: h });
        cb.op(DeviceOp::ActMul { kernel: k.act_mul, gate: gate, up: up, out: gate, n: 3 * inter });
        cb.op(DeviceOp::Matmul { kind: MatmulKind::W4a16GemvBatch3, kernel: k.w4a16_gemv_batch3,
            input: gate, weight: WeightRef::Quantized(self.weights.down_proj),
            output: ctx.buffers.moe_output, m: 3, n: h, k: inter });
        assert(cb@ =~= before + self.k3_cmds(ctx, input));
    }

    /// Prefill runs in eight-bit integers: where it is asked for and both the product
    /// and the two conversions to eight bits have kernels.
    pub open spec fn int8_prefill(&self, env: &EnvVars) -> bool {
        self.kernels.int8_faith2.present() && self.kernels.requant_w_int8.present()
            && self.kernels.requant_a_int8.present() && env.value("ATLAS_INT8_PREFILL"@) is Some
    }

    /// Whether prefill runs in eight-bit integers; the copies and the scratch have to
    /// be made first then.
    pub fn wants_int8_prefill(&self, env: &EnvVars) -> (r: bool)
        ensures
            r == self.int8_prefill(env),
    {
        self.kernels.int8_faith2.is_present() && self.kernels.requant_w_int8.is_present()
            && self.kernels.requant_a_int8.is_present() && env.has("ATLAS_INT8_PREFILL")
    }

    /// All that eight-bit prefill of `m` rows needs is there.
    pub open spec fn int8_ready(&self, m: u32, k: u32) -> bool {
        &&& self.int8_gate is Some
        &&& self.int8_up is Some
        &&& self.int8_down is Some
        &&& self.scratch_holds(m, k)
    }

    /// The bfloat16 kernel of the lossless path; the second version runs unless it is
    /// missing or switched off.
    pub open spec fn bf16_kernel(&self, env: &EnvVars) -> KernelHandle {
        if self.kernels.w4a16_gemm_t_m128_bf16_v2.present() && env.value(
            "ATLAS_DISABLE_PREFILL_V2"@,
        ) is None {
            self.kernels.w4a16_gemm_t_m128_bf16_v2
        } else {
            self.kernels.w4a16_gemm_t_m128_bf16
        }
    }

    /// Kernel family and kernel of a four-bit prefill product, for a weight with or
    /// without a transposed copy.
    pub open spec fn prefill_choice(&self, env: &EnvVars, transposed: bool) -> (
        MatmulKind,
        KernelHandle,
    ) {
        let k = self.kernels;
        if transposed && k.w4a16_gemm_t.present() && env.value("ATLAS_FP8_M64_PREFILL"@) is Some {
            (MatmulKind::W4a16GemmN128, k.w4a16_gemm_t)
        } else if transposed && k.w4a16_gemm_t_m128_bf16.present() && env.value(
            "ATLAS_BF16_TC_PREFILL"@,
        ) is Some {
            (MatmulKind::W4a16GemmN128M128Bf16, self.bf16_kernel(env))
        } else if transposed && k.w4a16_gemm_t_m128_v2.present() {
            (MatmulKind::W4a16GemmN128M128V2, k.w4a16_gemm_t_m128_v2)
        } else if transposed && k.w4a16_gemm_t_m128.present() {
            (MatmulKind::W4a16GemmN128M128, k.w4a16_gemm_t_m128)
        } else {
            (MatmulKind::W4a16Gemm, k.w4a16_gemm)
        }
    }

    fn choose_prefill(&self, env: &EnvVars, transposed: bool) -> (r: (MatmulKind, KernelHandle))
        ensures
            r == self.prefill_choice(env, transposed),
    {
        let k: DenseFfnKernels = self.kernels;
        if transposed && k.w4a16_gemm_t.is_present() && env.has("ATLAS_FP8_M64_PREFILL") {
            (MatmulKind::W4a16GemmN128, k.w4a16_gemm_t)
        } else if transposed && k.w4a16_gemm_t_m128_bf16.is_present() && env.has(
            "ATLAS_BF16_TC_PREFILL",
        ) {
            let kernel: KernelHandle = if k.w4a16_gemm_t_m128_bf16_v2.is_present() && !env.has(
                "ATLAS_DISABLE_PREFILL_V2",
            ) {
                k.w4a16_gemm_t_m128_bf16_v2
            } else {
                k.w4a16_gemm_t_m128_bf16
            };
            (MatmulKind::W4a16GemmN128M128Bf16, kernel)
        } else if transposed && k.w4a16_gemm_t_m128_v2.is_present() {
            (MatmulKind::W4a16GemmN128M128V2, k.w4a16_gemm_t_m128_v2)
        } else if transposed && k.w4a16_gemm_t_m128.is_present() {
            (MatmulKind::W4a16GemmN128M128, k.w4a16_gemm_t_m128)
        } else {
            (MatmulKind::W4a16Gemm, k.w4a16_gemm)
        }
    }

    /// A four-bit prefill product. Eight-bit integers outrank every other kernel;
    /// only the base kernel reads the weight as it is stored.
    pub open spec fn prefill_cmd(
        &self,
        env: &EnvVars,
        p: FfnProj,
        input: DevicePtr,
        out: DevicePtr,
        m: u32,
        n: u32,
        k: u32,
    ) -> Cmd {
        if self.int8_prefill(env) {
            Cmd::Op(
                DeviceOp::Int8Gemm {
                    gemm: self.kernels.int8_faith2,
                    requant: self.kernels.requant_a_int8,
                    input,
                    weight: self.int8_of(p).unwrap().w_i8,
                    weight_scale: self.int8_of(p).unwrap().w_scale,
                    a_i8: self.int8_a_scratch.unwrap().a_i8,
                    a_scale: self.int8_a_scratch.unwrap().a_scale,
                    output: out,
                    m,
                    n,
                    k,
                },
            )
        } else {
            let (kind, kernel) = self.prefill_choice(env, self.transposed_of(p) is Some);
            Cmd::Op(
                DeviceOp::Matmul {
                    kind,
                    kernel,
                    input,
                    weight: WeightRef::Quantized(
                        if kind == MatmulKind::W4a16Gemm {
                            self.weight_of(p)
                        } else {
                            self.transposed_of(p).unwrap()
                        },
                    ),
                    output: out,
                    m,
                    n,
                    k,
                },
            )
        }
    }

    fn record_prefill(
        &self,
        cb: &mut CommandBuffer,
        env: &EnvVars,
        p: FfnProj,
        input: DevicePtr,
        out: DevicePtr,
        m: u32,
        n: u32,
        k: u32,
    )
        requires
            self.int8_prefill(env) ==> self.int8_of(p) is Some && self.int8_a_scratch is Some,
        ensures
            final(cb)@ == old(cb)@.push(self.prefill_cmd(env, p, input, out, m, n, k)),
    {
        if self.wants_int8_prefill(env) {
            let w: Int8Weight = self.int8_weight(p).unwrap();
            let s: Int8Scratch = self.int8_a_scratch.unwrap();
            cb.op(
                DeviceOp::Int8Gemm {
                    gemm: self.kernels.int8_faith2,
                    requant: self.kernels.requant_a_int8,
                    input,
                    weight: w.w_i8,
                    weight_scale: w.w_scale,
                    a_i8: s.a_i8,
                    a_scale: s.a_scale,
                    output: out,
                    m,
                    n,
                    k,
                },
            );
            return;
        }
        match self.transposed(p) {
            Some(t) => {
                let (kind, kernel) = self.choose_prefill(env, true);
                let weight: QuantizedWeight = match kind {
                    MatmulKind::W4a16Gemm => self.stored(p),
                    _ => t,
                };
                cb.op(
                    DeviceOp::Matmul {
                        kind,
                        kernel,
                        input,
                        weight: WeightRef::Quantized(weight),
                        output: out,
                        m,
                        n,
                        k,
                    },
                );
            },
            None => {
                let (kind, kernel) = self.choose_prefill(env, false);
                cb.op(
                    DeviceOp::Matmul {
                        kind,
                        kernel,
                        input,
                        weight: WeightRef::Quantized(self.stored(p)),
                        output: out,
                        m,
                        n,
                        k,
                    },
                );
            },
        }
    }

    /// A bfloat16 prefill product, on tensor cores where that kernel is there.
    pub open spec fn bf16_cmd(
        &self,
        w: DenseWeight,
        input: DevicePtr,
        out: DevicePtr,
        m: u32,
        n: u32,
        k: u32,
    ) -> Cmd {
        let (kind, kernel) = if self.kernels.dense_gemm_tc.present() {
            (MatmulKind::DenseGemmTc, self.kernels.dense_gemm_tc)
        } else {
            (MatmulKind::DenseGemm, self.kernels.dense_gemm_bf16)
        };
        Cmd::Op(
            DeviceOp::Matmul {
                kind,
                kernel,
                input,
                weight: WeightRef::Dense(w),
                output: out,
                m,
                n,
                k,
            },
        )
    }

    fn record_bf16(
        &self,
        cb: &mut CommandBuffer,
        w: DenseWeight,
        input: DevicePtr,
        out: DevicePtr,
        m: u32,
        n: u32,
        k: u32,
    )
        ensures
            final(cb)@ == old(cb)@.push(self.bf16_cmd(w, input, out, m, n, k)),
    {
        let (kind, kernel) = if self.kernels.dense_gemm_tc.is_present() {
            (MatmulKind::DenseGemmTc, self.kernels.dense_gemm_tc)
        } else {
            (MatmulKind::DenseGemm, self.kernels.dense_gemm_bf16)
        };
        cb.op(
            DeviceOp::Matmul {
                kind,
                kernel,
                input,
                weight: WeightRef::Dense(w),
                output: out,
                m,
                n,
                k,
            },
        );
    }

    /// The block on `m` rows.
    pub open spec fn prefill_cmds(
        &self,
        ctx: &ForwardContext,
        env: &EnvVars,
        input: DevicePtr,
        m: u32,
    ) -> Seq<Cmd> {
        let h = ctx.config.hidden_size as u32;
        let inter = ctx.config.intermediate_size as u32;
        let gate = ctx.buffers.expert_gate_out;
        let up = ctx.buffers.expert_up_out;
        let out = ctx.buffers.moe_output;
        let act = Cmd::Op(
            DeviceOp::ActMul {
                kernel: self.kernels.act_mul,
                gate,
                up,
                out: gate,
                n: (m * inter) as u32,
            },
        );
        match self.bf16_weights {
            Some(w) => seq![
                self.bf16_cmd(w.gate_proj, input, gate, m, inter, h),
                self.bf16_cmd(w.up_proj, input, up, m, inter, h),
                act,
                self.bf16_cmd(w.down_proj, gate, out, m, h, inter),
            ],
            None => seq![
                self.prefill_cmd(env, FfnProj::Gate, input, gate, m, inter, h),
                self.prefill_cmd(env, FfnProj::Up, input, up, m, inter, h),
                act,
                self.prefill_cmd(env, FfnProj::Down, gate, out, m, h, inter),
            ],
        }
    }

    /// Records the block on `num_tokens` rows. Eight-bit prefill needs its copies and
    /// scratch for the wider of both dimensions.
    pub fn forward_prefill(
        &self,
        cb: &mut CommandBuffer,
        input: DevicePtr,
        num_tokens: usize,
        ctx: &ForwardContext,
        env: &EnvVars,
    )
        requires
            num_tokens <= u32::MAX,
            num_tokens * (ctx.config.intermediate_size as u32) <= u32::MAX,
            self.bf16_weights is None && self.int8_prefill(env) ==> self.int8_ready(
                num_tokens as u32,
                max_int(
                    ctx.config.hidden_size as u32 as int,
                    ctx.config.intermediate_size as u32 as int,
                ) as u32,
            ),
        ensures
            final(cb)@ == old(cb)@ + self.prefill_cmds(ctx, env, input, num_tokens as u32),
    {
        let ghost before = cb@;
        let h: u32 = ctx.config.hidden_size as u32;
        let inter: u32 = ctx.config.intermediate_size as u32;
        let m: u32 = num_tokens as u32;
        let gate: DevicePtr = ctx.buffers.expert_gate_out;
        let up: DevicePtr = ctx.buffers.expert_up_out;
        let out: DevicePtr = ctx.buffers.moe_output;
        match self.bf16_weights {
            Some(w) => {
                self.record_bf16(cb, w.gate_proj, input, gate, m, inter, h);
                self.record_bf16(cb, w.up_proj, input, up, m, inter, h);
                cb.op(
                    DeviceOp::ActMul { kernel: self.kernels.act_mul, gate, up, out: gate, n: m * inter },
                );
                self.record_bf16(cb, w.down_proj, gate, out, m, h, inter);
            },
            None => {
                self.record_prefill(cb, env, FfnProj::Gate, input, gate, m, inter, h);
                self.record_prefill(cb, env, FfnProj::Up, input, up, m, inter, h);
                cb.op(
                    DeviceOp::ActMul { kernel: self.kernels.act_mul, gate, up, out: gate, n: m * inter },
                );
                self.record_prefill(cb, env, FfnProj::Down, gate, out, m, h, inter);
            },
        }
        assert(cb@ =~= before + self.prefill_cmds(ctx, env, input, m));
    }

    /// Records the block on `num_tokens` rows of different sequences, which is the
    /// same work.
    pub fn forward_batched(
        &self,
        cb: &mut CommandBuffer,
        input: DevicePtr,
        num_tokens: usize,
        ctx: &ForwardContext,
        env: &EnvVars,
    )
        requires
            num_tokens <= u32::MAX,
            num_tokens * (ctx.config.intermediate_size as u32) <= u32::MAX,
            self.bf16_weights is None && self.int8_prefill(env) ==> self.int8_ready(
                num_tokens as u32,
                max_int(
                    ctx.config.hidden_size as u32 as int,
                    ctx.config.intermediate_size as u32 as int,
                ) as u32,
            ),
        ensures
            final(cb)@ == old(cb)@ + self.prefill_cmds(ctx, env, input, num_tokens as u32),
    {
        self.forward_prefill(cb, input, num_tokens, ctx, env);
    }
}

/// Without opting in, prefill is what it would be without the opt-in kernels.
pub proof fn law_opt_in_kernels_stay_out(
    layer: &DenseFfnLayer,
    plain: &DenseFfnLayer,
    env: &EnvVars,
    transposed: bool,
)
    requires
        env.value("ATLAS_FP8_M64_PREFILL"@) is None,
        env.value("ATLAS_BF16_TC_PREFILL"@) is None,
        env.value("ATLAS_INT8_PREFILL"@) is None,
        plain.kernels == (DenseFfnKernels {
            w4a16_gemm_t: KernelHandle(0),
            w4a16_gemm_t_m128_bf16: KernelHandle(0),
            w4a16_gemm_t_m128_bf16_v2: KernelHandle(0),
            int8_faith2: KernelHandle(0),
            ..layer.kernels
        }),
    ensures
        layer.prefill_choice(env, transposed) == plain.prefill_choice(env, transposed),
        !layer.int8_prefill(env),
        !plain.int8_prefill(env),
{
}

/// One projection of the block: its weight as stored, and its copies.
pub struct Projection {
    pub dense: Option<DenseWeight>,
    pub stored: QuantizedWeight,
    pub transposed: Option<QuantizedWeight>,
    pub integer: Option<Int8Weight>,
}

impl Projection {
    /// `v` is the product of a row and this projection, in bfloat16 where there are such
    /// weights, else in any form the projection is kept in.
    pub open spec fn gives(self, v: Held, row: Held, n: u32, k: u32) -> bool {
        match self.dense {
            Some(w) => v == (Held::Product { row: Box::new(row), weight: WeightRef::Dense(w), n, k }),
            None => {
                ||| v == (Held::Product {
                    row: Box::new(row),
                    weight: WeightRef::Quantized(self.stored),
                    n,
                    k,
                })
                ||| self.transposed is Some && v == (Held::Product {
                    row: Box::new(row),
                    weight: WeightRef::Quantized(self.transposed->0),
                    n,
                    k,
                })
                ||| self.integer is Some && v == (Held::IntegerProduct {
                    row: Box::new(row),
                    weight: self.integer->0.w_i8,
                    scale: self.integer->0.w_scale,
                    n,
                    k,
                })
            },
        }
    }
}

impl DenseFfnLayer {
    pub open spec fn gate_projection(&self) -> Projection {
        Projection {
            dense: match self.bf16_weights {
                Some(w) => Some(w.gate_proj),
                None => None,
            },
            stored: self.weights.gate_proj,
            transposed: self.weights.gate_proj_t,
            integer: self.int8_gate,
        }
    }

    pub open spec fn up_projection(&self) -> Projection {
        Projection {
            dense: match self.bf16_weights {
                Some(w) => Some(w.up_proj),
                None => None,
            },
            stored: self.weights.up_proj,
            transposed: self.weights.up_proj_t,
            integer: self.int8_up,
        }
    }

    pub open spec fn down_projection(&self) -> Projection {
        Projection {
            dense: match self.bf16_weights {
                Some(w) => Some(w.down_proj),
                None => None,
            },
            stored: self.weights.down_proj,
            transposed: self.weights.down_proj_t,
            integer: self.int8_down,
        }
    }

    /// Four-bit projections, as decode reads them.
    pub open spec fn as_stored(w: QuantizedWeight) -> Projection {
        Projection { dense: None, stored: w, transposed: None, integer: None }
    }

    /// Sizes fit, and input, results and scratch of `m` rows do not overlap.
    pub open spec fn rows_apart(&self, ctx: &ForwardContext, input: DevicePtr, m: int) -> bool {
        let (h, inter) = (ctx.config.hidden_size as int, ctx.config.intermediate_size as int);
        let (gate, up, out) = (
            ctx.buffers.expert_gate_out,
            ctx.buffers.expert_up_out,
            ctx.buffers.moe_output,
        );
        &&& 0 < h <= u32::MAX
        &&& 0 < inter <= u32::MAX
        &&& 0 <= m * inter <= u32::MAX
        &&& disjoint(input, m * (2 * h), gate, m * (2 * inter))
        &&& disjoint(input, m * (2 * h), up, m * (2 * inter))
        &&& disjoint(input, m * (2 * h), out, m * (2 * h))
        &&& disjoint(gate, m * (2 * inter), up, m * (2 * inter))
        &&& disjoint(gate, m * (2 * inter), out, m * (2 * h))
        &&& disjoint(up, m * (2 * inter), out, m * (2 * h))
    }

    /// An address lies outside of `m` rows of input and results.
    pub open spec fn outside_rows(&self, ctx: &ForwardContext, input: DevicePtr, m: int, p: DevicePtr) -> bool {
        let (h, inter) = (ctx.config.hidden_size as int, ctx.config.intermediate_size as int);
        &&& clear_of(p.0 as int, input.0 as int, m * (2 * h))
        &&& clear_of(p.0 as int, ctx.buffers.expert_gate_out.0 as int, m * (2 * inter))
        &&& clear_of(p.0 as int, ctx.buffers.expert_up_out.0 as int, m * (2 * inter))
        &&& clear_of(p.0 as int, ctx.buffers.moe_output.0 as int, m * (2 * h))
    }

    /// Scratch of eight-bit activations lies outside of input and results.
    pub open spec fn scratch_apart(&self, ctx: &ForwardContext, input: DevicePtr, m: int) -> bool {
        match self.int8_a_scratch {
            Some(s) => self.outside_rows(ctx, input, m, s.a_i8) && self.outside_rows(
                ctx,
                input,
                m,
                s.a_scale,
            ),
            None => true,
        }
    }
}

/// Rows of `width` values from `p` on.
proof fn lemma_row_in(r: int, m: int, width: int)
    by (nonlinear_arith)
    requires
        0 <= r < m,
        0 < width,
    ensures
        0 <= r * (2 * width),
        r * (2 * width) + 2 * width <= m * (2 * width),
        m * (2 * width) == 2 * (m * width),
{
}

/// Row `r` of the block: the down projection of the activated product with the gating
/// projection times the product with the up projection of the same row.
pub open spec fn block_row(
    v: Held,
    x: Held,
    gate: Projection,
    up: Projection,
    down: Projection,
    kernel: KernelHandle,
    count: int,
    h: u32,
    inter: u32,
) -> bool {
    exists|g: Held, u: Held|
        #![trigger gate.gives(g, x, inter, h), up.gives(u, x, inter, h)]
        gate.gives(g, x, inter, h) && up.gives(u, x, inter, h) && down.gives(
            v,
            Held::Gated { gate: Box::new(g), up: Box::new(u), kernel, limit: Scalar(0), count },
            h,
            inter,
        )
}

/// Memory `v` is `u` but for rows at `out` that are products of rows at `input`.
spec fn multiplied(
    l: &DenseFfnLayer,
    u: Memory,
    v: Memory,
    p: Projection,
    input: DevicePtr,
    out: DevicePtr,
    m: int,
    n: u32,
    k: u32,
) -> bool {
    &&& forall|r: int|
        0 <= r < m ==> p.gives(#[trigger] v.row(out, r, 2 * n), u.row(input, r, 2 * k), n, k)
    &&& forall|a: int|
        clear_of(a, out.0 as int, m * (2 * n)) && (l.int8_a_scratch matches Some(s) ==> a != s.a_i8.0 && a
            != s.a_scale.0) ==> #[trigger] (v.at)(a) == (u.at)(a)
}

proof fn lemma_prefill_product(
    l: &DenseFfnLayer,
    env: &EnvVars,
    p: FfnProj,
    places: Places,
    u: Memory,
    input: DevicePtr,
    out: DevicePtr,
    m: u32,
    n: u32,
    k: u32,
)
    requires
        n > 0,
        l.int8_prefill(env) ==> l.int8_of(p) is Some && l.int8_a_scratch is Some,
    ensures
        ({
            let proj = Projection {
                dense: None,
                stored: l.weight_of(p),
                transposed: l.transposed_of(p),
                integer: l.int8_of(p),
            };
            &&& after(places, u, l.prefill_cmd(env, p, input, out, m, n, k)) matches Some(v)
            &&& multiplied(l, u, v, proj, input, out, m as int, n, k)
        }),
{
    let proj = Projection {
        dense: None,
        stored: l.weight_of(p),
        transposed: l.transposed_of(p),
        integer: l.int8_of(p),
    };
    let op = l.prefill_cmd(env, p, input, out, m, n, k)->Op_0;
    if l.int8_prefill(env) {
        lemma_after_integer_product(places, u, op);
    } else {
        lemma_after_matmul(places, u, op);
    }
    let v = after(places, u, Cmd::Op(op))->0;
    assert forall|r: int| 0 <= r < m implies proj.gives(
        #[trigger] v.row(out, r, 2 * n),
        u.row(input, r, 2 * k),
        n,
        k,
    ) by {
        lemma_row_hit(out.0 as int, 2 * n, 2 * n, m as int, r);
    }
    assert forall|a: int|
        clear_of(a, out.0 as int, m * (2 * n)) && (l.int8_a_scratch matches Some(s) ==> a != s.a_i8.0 && a
            != s.a_scale.0) implies #[trigger] (v.at)(a) == (u.at)(a) by {
        lemma_row_miss(a, out.0 as int, 2 * n, 2 * n, m as int);
    }
}

proof fn lemma_bf16_product(
    l: &DenseFfnLayer,
    w: DenseWeight,
    p: Projection,
    places: Places,
    u: Memory,
    input: DevicePtr,
    out: DevicePtr,
    m: u32,
    n: u32,
    k: u32,
)
    requires
        n > 0,
        p.dense == Some(w),
    ensures
        ({
            &&& after(places, u, l.bf16_cmd(w, input, out, m, n, k)) matches Some(v)
            &&& multiplied(l, u, v, p, input, out, m as int, n, k)
        }),
{
    let op = l.bf16_cmd(w, input, out, m, n, k)->Op_0;
    lemma_after_matmul(places, u, op);
    let v = after(places, u, Cmd::Op(op))->0;
    assert forall|r: int| 0 <= r < m implies p.gives(
        #[trigger] v.row(out, r, 2 * n),
        u.row(input, r, 2 * k),
        n,
        k,
    ) by {
        lemma_row_hit(out.0 as int, 2 * n, 2 * n, m as int, r);
    }
    assert forall|a: int| clear_of(a, out.0 as int, m * (2 * n)) implies #[trigger] (v.at)(a) == (u.at)(
        a,
    ) by {
        lemma_row_miss(a, out.0 as int, 2 * n, 2 * n, m as int);
    }
}

/// Every row of prefill is the block on that row of the input, whichever kernels run.
#[verifier::rlimit(50)]
pub proof fn law_prefill_rows_pass_the_block(
    l: &DenseFfnLayer,
    ctx: &ForwardContext,
    env: &EnvVars,
    input: DevicePtr,
    m: u32,
    places: Places,
    before: Memory,
)
    requires
        places.by_value,
        l.rows_apart(ctx, input, m as int),
        l.scratch_apart(ctx, input, m as int),
        l.bf16_weights is None && l.int8_prefill(env) ==> l.int8_gate is Some && l.int8_up is Some
            && l.int8_down is Some && l.int8_a_scratch is Some,
    ensures
        ({
            let (h, inter) = (
                ctx.config.hidden_size as u32,
                ctx.config.intermediate_size as u32,
            );
            &&& run(places, before, l.prefill_cmds(ctx, env, input, m)) matches Some(v)
            &&& forall|r: int|
                0 <= r < m ==> block_row(
                    #[trigger] v.row(ctx.buffers.moe_output, r, 2 * h),
                    before.row(input, r, 2 * h),
                    l.gate_projection(),
                    l.up_projection(),
                    l.down_projection(),
                    l.kernels.act_mul,
                    m * inter,
                    h,
                    inter,
                )
        }),
{
    let (h, inter) = (ctx.config.hidden_size as u32, ctx.config.intermediate_size as u32);
    let (gate, up, out) = (
        ctx.buffers.expert_gate_out,
        ctx.buffers.expert_up_out,
        ctx.buffers.moe_output,
    );
    let (gp, upp, dp) = (l.gate_projection(), l.up_projection(), l.down_projection());
    let cmds = l.prefill_cmds(ctx, env, input, m);
    assert(cmds =~= seq![cmds[0], cmds[1], cmds[2]].push(cmds[3]));
    lemma_run_three(places, before, cmds[0], cmds[1], cmds[2]);
    lemma_run_push(places, before, seq![cmds[0], cmds[1], cmds[2]], cmds[3]);
    match l.bf16_weights {
        Some(w) => {
            lemma_bf16_product(l, w.gate_proj, gp, places, before, input, gate, m, inter, h);
        },
        None => {
            lemma_prefill_product(l, env, FfnProj::Gate, places, before, input, gate, m, inter, h);
        },
    }
    let m1 = after(places, before, cmds[0])->0;
    assert(multiplied(l, before, m1, gp, input, gate, m as int, inter, h));
    match l.bf16_weights {
        Some(w) => {
            lemma_bf16_product(l, w.up_proj, upp, places, m1, input, up, m, inter, h);
        },
        None => {
            lemma_prefill_product(l, env, FfnProj::Up, places, m1, input, up, m, inter, h);
        },
    }
    let m2 = after(places, m1, cmds[1])->0;
    assert(multiplied(l, m1, m2, upp, input, up, m as int, inter, h));
    lemma_after_activation(places, m2, cmds[2]->Op_0);
    let m3 = after(places, m2, cmds[2])->0;
    match l.bf16_weights {
        Some(w) => {
            lemma_bf16_product(l, w.down_proj, dp, places, m3, gate, out, m, h, inter);
        },
        None => {
            lemma_prefill_product(l, env, FfnProj::Down, places, m3, gate, out, m, h, inter);
        },
    }
    let v = after(places, m3, cmds[3])->0;
    assert(multiplied(l, m3, v, dp, gate, out, m as int, h, inter));
    assert forall|r: int| 0 <= r < m implies block_row(
        #[trigger] v.row(out, r, 2 * h),
        before.row(input, r, 2 * h),
        gp,
        upp,
        dp,
        l.kernels.act_mul,
        m * inter,
        h,
        inter,
    ) by {
        lemma_row_in(r, m as int, h as int);
        lemma_row_in(r, m as int, inter as int);
        let x = before.row(input, r, 2 * h);
        let (g, u) = (m2.row(gate, r, 2 * inter), m2.row(up, r, 2 * inter));
        assert(m1.row(input, r, 2 * h) == x);
        assert(m2.row(gate, r, 2 * inter) == m1.row(gate, r, 2 * inter));
        assert(gp.gives(g, x, inter, h));
        assert(upp.gives(u, x, inter, h));
        assert(m3.row(gate, r, 2 * inter) == (Held::Gated {
            gate: Box::new(g),
            up: Box::new(u),
            kernel: l.kernels.act_mul,
            limit: Scalar(0),
            count: m * inter,
        }));
    }
}

/// A tile of two or three rows passes the block row by row, through weights as stored.
#[verifier::rlimit(50)]
pub proof fn law_tiles_pass_the_block(
    l: &DenseFfnLayer,
    ctx: &ForwardContext,
    input: DevicePtr,
    rows: int,
    places: Places,
    before: Memory,
)
    requires
        places.by_value,
        2 <= rows <= 3,
        l.rows_apart(ctx, input, rows),
    ensures
        ({
            let (h, inter) = (
                ctx.config.hidden_size as u32,
                ctx.config.intermediate_size as u32,
            );
            let cmds = if rows == 2 {
                l.k2_cmds(ctx, input)
            } else {
                l.k3_cmds(ctx, input)
            };
            &&& run(places, before, cmds) matches Some(v)
            &&& forall|r: int|
                0 <= r < rows ==> block_row(
                    #[trigger] v.row(ctx.buffers.moe_output, r, 2 * h),
                    before.row(input, r, 2 * h),
                    DenseFfnLayer::as_stored(l.weights.gate_proj),
                    DenseFfnLayer::as_stored(l.weights.up_proj),
                    DenseFfnLayer::as_stored(l.weights.down_proj),
                    l.kernels.act_mul,
                    rows * inter,
                    h,
                    inter,
                )
        }),
{
    let (h, inter) = (ctx.config.hidden_size as u32, ctx.config.intermediate_size as u32);
    let (gate, up, out) = (
        ctx.buffers.expert_gate_out,
        ctx.buffers.expert_up_out,
        ctx.buffers.moe_output,
    );
    let (gp, upp, dp) = (
        DenseFfnLayer::as_stored(l.weights.gate_proj),
        DenseFfnLayer::as_stored(l.weights.up_proj),
        DenseFfnLayer::as_stored(l.weights.down_proj),
    );
    let cmds = if rows == 2 {
        l.k2_cmds(ctx, input)
    } else {
        l.k3_cmds(ctx, input)
    };
    assert(cmds =~= seq![cmds[0], cmds[1], cmds[2]]);
    lemma_run_three(places, before, cmds[0], cmds[1], cmds[2]);
    lemma_after_dual(places, before, cmds[0]->Op_0);
    let m1 = after(places, before, cmds[0])->0;
    lemma_after_activation(places, m1, cmds[1]->Op_0);
    let m2 = after(places, m1, cmds[1])->0;
    lemma_after_matmul(places, m2, cmds[2]->Op_0);
    let v = after(places, m2, cmds[2])->0;
    assert forall|r: int| 0 <= r < rows implies block_row(
        #[trigger] v.row(out, r, 2 * h),
        before.row(input, r, 2 * h),
        gp,
        upp,
        dp,
        l.kernels.act_mul,
        rows * inter,
        h,
        inter,
    ) by {
        lemma_row_in(r, rows, h as int);
        lemma_row_in(r, rows, inter as int);
        let x = before.row(input, r, 2 * h);
        let (g, u) = (m1.row(gate, r, 2 * inter), m1.row(up, r, 2 * inter));
        lemma_row_hit(gate.0 as int, 2 * inter, 2 * inter, rows, r);
        lemma_row_miss(gate.0 + r * (2 * inter), up.0 as int, 2 * inter, 2 * inter, rows);
        lemma_row_hit(up.0 as int, 2 * inter, 2 * inter, rows, r);
        lemma_row_hit(out.0 as int, 2 * h, 2 * h, rows, r);
        assert(gp.gives(g, x, inter, h));
        assert(upp.gives(u, x, inter, h));
        assert(m2.row(gate, r, 2 * inter) == (Held::Gated {
            gate: Box::new(g),
            up: Box::new(u),
            kernel: l.kernels.act_mul,
            limit: Scalar(0),
            count: rows * inter,
        }));
    }
}

/// One row passes the block, whether or not its activation is fused into the down
/// projection.
#[verifier::rlimit(50)]
pub proof fn law_one_row_passes_the_block(
    l: &DenseFfnLayer,
    ctx: &ForwardContext,
    input: DevicePtr,
    places: Places,
    before: Memory,
)
    requires
        places.by_value,
        l.rows_apart(ctx, input, 1),
    ensures
        ({
            let (h, inter) = (
                ctx.config.hidden_size as u32,
                ctx.config.intermediate_size as u32,
            );
            let fused = l.bf16_weights is None && l.activation is SiLU;
            let kernel = if !fused {
                l.kernels.act_mul
            } else if l.uses_single_wave() {
                l.kernels.w4a16_gemv_silu_input_sw
            } else {
                l.kernels.w4a16_gemv_silu_input
            };
            let narrow = |p: Projection| Projection { transposed: None, integer: None, ..p };
            &&& run(places, before, l.decode_cmds(ctx, input)) matches Some(v)
            &&& block_row(
                v.held(ctx.buffers.moe_output),
                before.held(input),
                narrow(l.gate_projection()),
                narrow(l.up_projection()),
                narrow(l.down_projection()),
                kernel,
                inter as int,
                h,
                inter,
            )
        }),
{
    let (h, inter) = (ctx.config.hidden_size as u32, ctx.config.intermediate_size as u32);
    let (gate, up, out) = (
        ctx.buffers.expert_gate_out,
        ctx.buffers.expert_up_out,
        ctx.buffers.moe_output,
    );
    let gp = Projection { transposed: None, integer: None, ..l.gate_projection() };
    let upp = Projection { transposed: None, integer: None, ..l.up_projection() };
    let x = before.held(input);
    let cmds = l.decode_cmds(ctx, input);
    lemma_row_hit(gate.0 as int, 2 * inter, 2 * inter, 1, 0);
    lemma_row_hit(up.0 as int, 2 * inter, 2 * inter, 1, 0);
    lemma_row_hit(out.0 as int, 2 * h, 2 * h, 1, 0);
    lemma_one_row_miss(gate.0 as int, up.0 as int, 2 * inter, 2 * inter);
    lemma_one_row_miss(input.0 as int, gate.0 as int, 2 * inter, 2 * inter);
    if l.bf16_weights is Some {
        assert(cmds =~= seq![cmds[0], cmds[1], cmds[2]].push(cmds[3]));
        lemma_run_three(places, before, cmds[0], cmds[1], cmds[2]);
        lemma_run_push(places, before, seq![cmds[0], cmds[1], cmds[2]], cmds[3]);
        lemma_after_matmul(places, before, cmds[0]->Op_0);
        let m1 = after(places, before, cmds[0])->0;
        lemma_after_matmul(places, m1, cmds[1]->Op_0);
        let m2 = after(places, m1, cmds[1])->0;
        lemma_after_activation(places, m2, cmds[2]->Op_0);
        let m3 = after(places, m2, cmds[2])->0;
        lemma_after_matmul(places, m3, cmds[3]->Op_0);
        assert(gp.gives(m2.held(gate), x, inter, h));
        assert(upp.gives(m2.held(up), x, inter, h));
    } else {
        if l.uses_single_wave() {
            lemma_after_dual_wave(places, before, cmds[0]->Op_0);
        } else {
            lemma_after_dual(places, before, cmds[0]->Op_0);
        }
        let m1 = after(places, before, cmds[0])->0;
        assert(gp.gives(m1.held(gate), x, inter, h));
        assert(upp.gives(m1.held(up), x, inter, h));
        if l.activation is SiLU {
            assert(cmds =~= seq![cmds[0], cmds[1]]);
            lemma_run_two(places, before, cmds[0], cmds[1]);
            lemma_after_gated_product(places, m1, cmds[1]->Op_0);
        } else {
            assert(cmds =~= seq![cmds[0], cmds[1], cmds[2]]);
            lemma_run_three(places, before, cmds[0], cmds[1], cmds[2]);
            lemma_after_activation(places, m1, cmds[1]->Op_0);
            let m2 = after(places, m1, cmds[1])->0;
            lemma_after_matmul(places, m2, cmds[2]->Op_0);
        }
    }
}

} // verus!
