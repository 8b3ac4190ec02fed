//! Routed experts served from packed trellis codes.
use crate::device::DevicePtr;
use vstd::prelude::*;

verus! {

/// Tables of one projection over the experts of this rank.
#[derive(Debug, Clone, Copy, PartialEq, Eq, Structural)]
pub struct Exl3ExpertPtrTable {
    pub trellis_ptrs: DevicePtr,
    pub suh_ptrs: DevicePtr,
    pub svh_ptrs: DevicePtr,
    pub k_bits: u32,
    pub cb: u32,
    /// First global expert and number of experts in the table.
    pub local_start: usize,
    pub num_local: usize,
}

/// Tables of the three projections.
#[derive(Debug, Clone, Copy, PartialEq, Eq, Structural)]
pub struct Exl3Tables {
    pub gate: Exl3ExpertPtrTable,
    pub up: Exl3ExpertPtrTable,
    pub down: Exl3ExpertPtrTable,
}

/// Slabs of the decode pipeline, in slots.
#[derive(Debug, Clone, Copy, PartialEq, Eq, Structural)]
pub struct Exl3MoeState {
    pub a_f16: DevicePtr,
    pub a_had_f16: DevicePtr,
    pub c_gate_f32: DevicePtr,
    pub c_up_f32: DevicePtr,
    pub inter_f16: DevicePtr,
    pub c_down_f32: DevicePtr,
    pub b_indices: DevicePtr,
    pub b_weights: DevicePtr,
    pub locks: DevicePtr,
    pub s_cap: usize,
    pub hidden: usize,
    pub sm_count: u32,
}

} // verus!
