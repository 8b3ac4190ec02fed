//! Per-expert pointer tables on the device.
//!
//! Kernels index them by expert id. Addresses are stored as little-endian words.
use crate::device::{Cmd, CommandBuffer, DevicePtr, Scalar};
use crate::moe::stream_tables::{encode_u64s, u64s_bytes, ExpertPtrTable};
use crate::num::{push_u32, u32_bytes};
use crate::weights::{DenseWeight, ExpertWeight, Fp8ExpertWeight, Fp8Weight, QuantizedWeight};
use vstd::prelude::*;

verus! {

/// Device arrays of one eight-bit projection.
#[derive(Debug, Clone, Copy, PartialEq, Eq, Structural)]
pub struct Fp8ExpertPtrTable {
    pub weight_ptrs: DevicePtr,
    pub scale_ptrs: DevicePtr,
}

/// A projection of an expert.
#[derive(Debug, Clone, Copy, PartialEq, Eq, Structural)]
pub enum Projection {
    Gate,
    Up,
    Down,
}

impl Projection {
    pub open spec fn of(self, x: ExpertWeight) -> QuantizedWeight {
        match self {
            Projection::Gate => x.gate_proj,
            Projection::Up => x.up_proj,
            Projection::Down => x.down_proj,
        }
    }

    pub open spec fn of_fp8(self, x: Fp8ExpertWeight) -> Fp8Weight {
        match self {
            Projection::Gate => x.gate_proj,
            Projection::Up => x.up_proj,
            Projection::Down => x.down_proj,
        }
    }

    pub fn pick(self, x: &ExpertWeight) -> (r: QuantizedWeight)
        ensures
            r == self.of(*x),
    {
        match self {
            Projection::Gate => x.gate_proj,
            Projection::Up => x.up_proj,
            Projection::Down => x.down_proj,
        }
    }

    pub fn pick_fp8(self, x: &Fp8ExpertWeight) -> (r: Fp8Weight)
        ensures
            r == self.of_fp8(*x),
    {
        match self {
            Projection::Gate => x.gate_proj,
            Projection::Up => x.up_proj,
            Projection::Down => x.down_proj,
        }
    }
}

/// Little-endian bytes of the scalars' patterns.
pub open spec fn scalars_bytes(vals: Seq<Scalar>) -> Seq<u8>
    decreases vals.len(),
{
    if vals.len() == 0 {
        Seq::empty()
    } else {
        scalars_bytes(vals.drop_last()) + u32_bytes(vals.last().0 as int)
    }
}

/// Little-endian bytes of the scalars' patterns.
pub fn encode_scalars(vals: &Vec<Scalar>) -> (r: Vec<u8>)
    ensures
        r@ == scalars_bytes(vals@),
{
    let mut out: Vec<u8> = Vec::new();
    let mut i: usize = 0;
    while i < vals.len()
        invariant
            i <= vals@.len(),
            out@ == scalars_bytes(vals@.take(i as int)),
        decreases vals@.len() - i,
    {
        push_u32(&mut out, vals[i].0);
        proof {
            let next = vals@.take(i + 1);
            assert(next.drop_last() =~= vals@.take(i as int));
        }
        i = i + 1;
    }
    assert(vals@.take(i as int) =~= vals@);
    out
}

/// Uploads of one projection's three arrays.
pub open spec fn table_cmds(ws: Seq<QuantizedWeight>, t: ExpertPtrTable) -> Seq<Cmd> {
    seq![
        Cmd::Upload {
            dst: t.packed_ptrs,
            bytes: u64s_bytes(ws.map_values(|w: QuantizedWeight| w.weight.0)),
        },
        Cmd::Upload {
            dst: t.scale_ptrs,
            bytes: u64s_bytes(ws.map_values(|w: QuantizedWeight| w.weight_scale.0)),
        },
        Cmd::Upload {
            dst: t.scale2_vals,
            bytes: scalars_bytes(ws.map_values(|w: QuantizedWeight| w.weight_scale_2)),
        },
    ]
}

/// Records the upload of one projection's table.
pub fn build_ptr_table_from_qw(
    cb: &mut CommandBuffer,
    weights: &Vec<QuantizedWeight>,
    t: ExpertPtrTable,
)
    ensures
        final(cb)@ == old(cb)@ + table_cmds(weights@, t),
{
    let ghost before = cb@;
    let mut packed: Vec<u64> = Vec::new();
    let mut scale: Vec<u64> = Vec::new();
    let mut scale2: Vec<Scalar> = Vec::new();
    let mut i: usize = 0;
    while i < weights.len()
        invariant
            i <= weights@.len(),
            packed@ == weights@.take(i as int).map_values(|w: QuantizedWeight| w.weight.0),
            scale@ == weights@.take(i as int).map_values(|w: QuantizedWeight| w.weight_scale.0),
            scale2@ == weights@.take(i as int).map_values(|w: QuantizedWeight| w.weight_scale_2),
        decreases weights@.len() - i,
    {
        let w: QuantizedWeight = weights[i];
        packed.push(w.weight.0);
        scale.push(w.weight_scale.0);
        scale2.push(w.weight_scale_2);
        i = i + 1;
        assert(packed@ =~= weights@.take(i as int).map_values(|w: QuantizedWeight| w.weight.0));
        assert(scale@ =~= weights@.take(i as int).map_values(|w: QuantizedWeight| w.weight_scale.0));
        assert(scale2@ =~= weights@.take(i as int).map_values(
            |w: QuantizedWeight| w.weight_scale_2,
        ));
    }
    assert(weights@.take(i as int) =~= weights@);
    cb.upload(t.packed_ptrs, encode_u64s(&packed));
    cb.upload(t.scale_ptrs, encode_u64s(&scale));
    cb.upload(t.scale2_vals, encode_scalars(&scale2));
    assert(cb@ =~= before + table_cmds(weights@, t));
}

/// Records the upload of the table of one projection of all experts.
pub fn build_ptr_table(
    cb: &mut CommandBuffer,
    experts: &Vec<ExpertWeight>,
    proj: Projection,
    t: ExpertPtrTable,
)
    ensures
        final(cb)@ == old(cb)@ + table_cmds(experts@.map_values(|x: ExpertWeight| proj.of(x)), t),
{
    let mut ws: Vec<QuantizedWeight> = Vec::new();
    let mut i: usize = 0;
    while i < experts.len()
        invariant
            i <= experts@.len(),
            ws@ == experts@.take(i as int).map_values(|x: ExpertWeight| proj.of(x)),
        decreases experts@.len() - i,
    {
        ws.push(proj.pick(&experts[i]));
        i = i + 1;
        assert(ws@ =~= experts@.take(i as int).map_values(|x: ExpertWeight| proj.of(x)));
    }
    assert(experts@.take(i as int) =~= experts@);
    build_ptr_table_from_qw(cb, &ws, t);
}

/// Records the upload of a table of bfloat16 weights.
pub fn build_bf16_ptr_table(cb: &mut CommandBuffer, experts: &Vec<DenseWeight>, ptrs: DevicePtr)
    ensures
        final(cb)@ == old(cb)@.push(
            Cmd::Upload {
                dst: ptrs,
                bytes: u64s_bytes(experts@.map_values(|w: DenseWeight| w.weight.0)),
            },
        ),
{
    let mut words: Vec<u64> = Vec::new();
    let mut i: usize = 0;
    while i < experts.len()
        invariant
            i <= experts@.len(),
            words@ == experts@.take(i as int).map_values(|w: DenseWeight| w.weight.0),
        decreases experts@.len() - i,
    {
        words.push(experts[i].weight.0);
        i = i + 1;
        assert(words@ =~= experts@.take(i as int).map_values(|w: DenseWeight| w.weight.0));
    }
    assert(experts@.take(i as int) =~= experts@);
    cb.upload(ptrs, encode_u64s(&words));
}

/// Records the upload of the table of one eight-bit projection of all experts.
pub fn build_fp8_ptr_table(
    cb: &mut CommandBuffer,
    experts: &Vec<Fp8ExpertWeight>,
    proj: Projection,
    t: Fp8ExpertPtrTable,
)
    ensures
        final(cb)@ == old(cb)@.push(
            Cmd::Upload {
                dst: t.weight_ptrs,
                bytes: u64s_bytes(
                    experts@.map_values(|x: Fp8ExpertWeight| proj.of_fp8(x).weight.0),
                ),
            },
        ).push(
            Cmd::Upload {
                dst: t.scale_ptrs,
                bytes: u64s_bytes(
                    experts@.map_values(|x: Fp8ExpertWeight| proj.of_fp8(x).row_scale.0),
                ),
            },
        ),
{
    let mut words: Vec<u64> = Vec::new();
    let mut scales: Vec<u64> = Vec::new();
    let mut i: usize = 0;
    while i < experts.len()
        invariant
            i <= experts@.len(),
            words@ == experts@.take(i as int).map_values(
                |x: Fp8ExpertWeight| proj.of_fp8(x).weight.0,
            ),
            scales@ == experts@.take(i as int).map_values(
                |x: Fp8ExpertWeight| proj.of_fp8(x).row_scale.0,
            ),
        decreases experts@.len() - i,
    {
        let w: Fp8Weight = proj.pick_fp8(&experts[i]);
        words.push(w.weight.0);
        scales.push(w.row_scale.0);
        i = i + 1;
        assert(words@ =~= experts@.take(i as int).map_values(
            |x: Fp8ExpertWeight| proj.of_fp8(x).weight.0,
        ));
        assert(scales@ =~= experts@.take(i as int).map_values(
            |x: Fp8ExpertWeight| proj.of_fp8(x).row_scale.0,
        ));
    }
    assert(experts@.take(i as int) =~= experts@);
    cb.upload(t.weight_ptrs, encode_u64s(&words));
    cb.upload(t.scale_ptrs, encode_u64s(&scales));
}

} // verus!
