//! Weight tensors as the planning code sees them: addresses and scalars.
use crate::device::{DevicePtr, Scalar};
use vstd::prelude::*;

verus! {

/// A packed four-bit tensor with block scales and one global scale.
#[derive(Clone, Copy, PartialEq, Eq, Structural, Debug)]
pub struct QuantizedWeight {
    pub weight: DevicePtr,
    pub weight_scale: DevicePtr,
    pub weight_scale_2: Scalar,
}

impl QuantizedWeight {
    pub open spec fn null(self) -> bool {
        self.weight.0 == 0
    }

    /// A weight that is not on this device.
    pub open spec fn absent() -> QuantizedWeight {
        QuantizedWeight {
            weight: DevicePtr(0),
            weight_scale: DevicePtr(0),
            weight_scale_2: Scalar(0),
        }
    }

    /// A weight that is not on this device.
    pub fn placeholder() -> (r: QuantizedWeight)
        ensures
            r == QuantizedWeight::absent(),
    {
        QuantizedWeight {
            weight: DevicePtr::null(),
            weight_scale: DevicePtr::null(),
            weight_scale_2: Scalar(0),
        }
    }

    pub fn is_null(&self) -> (r: bool)
        ensures
            r == self.null(),
    {
        self.weight.is_null()
    }
}

/// A dense bfloat16 tensor.
#[derive(Clone, Copy, PartialEq, Eq, Structural, Debug)]
pub struct DenseWeight {
    pub weight: DevicePtr,
}

/// An eight-bit tensor with per-row or per-block scales.
#[derive(Clone, Copy, PartialEq, Eq, Structural, Debug)]
pub struct Fp8Weight {
    pub weight: DevicePtr,
    pub row_scale: DevicePtr,
    pub n: u32,
    pub k: u32,
}

/// Four-bit checkpoint blocks of an `[n, k]` tensor.
#[derive(Clone, Copy, PartialEq, Eq, Structural, Debug)]
pub struct PackedQ4Weight {
    pub weight: DevicePtr,
    pub n: u32,
    pub k: u32,
}

/// Eight-bit checkpoint blocks of an `[n, k]` tensor.
#[derive(Clone, Copy, PartialEq, Eq, Structural, Debug)]
pub struct PackedQ8Weight {
    pub weight: DevicePtr,
    pub n: u32,
    pub k: u32,
}

/// Storage format of a projection.
#[derive(Clone, Copy, PartialEq, Eq, Structural, Debug)]
pub enum WeightQuantFormat {
    Bf16,
    Fp8PerRow,
    Fp8BlockScaled,
    Fp8SingleScale,
    Nvfp4,
    Mxfp4E8m0,
}

/// Six-bit checkpoint blocks of an `[n, k]` tensor.
#[derive(Clone, Copy, PartialEq, Eq, Structural, Debug)]
pub struct PackedQ6Weight {
    pub weight: DevicePtr,
    pub n: u32,
    pub k: u32,
}

/// Storage of a projection that may be kept packed.
#[derive(Clone, Copy, PartialEq, Eq, Structural, Debug)]
pub enum QuantWeight {
    PackedQ4(PackedQ4Weight),
    PackedQ6(PackedQ6Weight),
    /// Any storage that the packed path does not read.
    Other,
}

/// One expert whose blocks are kept packed.
#[derive(Clone, Copy, PartialEq, Eq, Structural, Debug)]
pub struct PackedExpertWeights {
    pub gate: PackedQ4Weight,
    pub up: PackedQ4Weight,
    pub down: QuantWeight,
}

/// One routed expert in eight bits.
#[derive(Clone, Copy, PartialEq, Eq, Structural, Debug)]
pub struct Fp8ExpertWeight {
    pub gate_proj: Fp8Weight,
    pub up_proj: Fp8Weight,
    pub down_proj: Fp8Weight,
}

/// One routed expert.
#[derive(Clone, Copy, PartialEq, Eq, Structural, Debug)]
pub struct ExpertWeight {
    pub gate_proj: QuantizedWeight,
    pub up_proj: QuantizedWeight,
    pub down_proj: QuantizedWeight,
}

} // verus!
