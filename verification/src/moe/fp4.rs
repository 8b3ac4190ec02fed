//! Experts re-packed into four bits for the fused prefill kernels.
//!
//! A stored projection is expanded to bfloat16 on the host and packed again in
//! another layout. Global scales are folded in by that, so they are one.
use crate::codec::{
    bf16_rounds, e4m3_byte_decodes, e4m3_byte_to_f32, f32_exp, f32_mant, f32_negative,
    f32_to_bf16_bits, f32_units,
};
use crate::context::ModelConfig;
use crate::device::{Cmd, CommandBuffer, DevicePtr, Scalar};
use crate::float::{f32_mul, f32_product};
use crate::moe::b12x_scales::ONE_BITS;
use crate::moe::layer::{Fp4HostTable, MoeFp4Down, MoeFp4GateUp, MoeLayer};
use crate::moe::ptr_tables::{encode_scalars, scalars_bytes, Projection};
use crate::moe::stream_tables::{encode_u64s, u64s_bytes, ExpertPtrTable};
use crate::ops_table::DeviceOp;
use crate::weights::ExpertWeight;
use vstd::arithmetic::power2::{lemma2_to64, lemma_pow2_adds, pow2};
use vstd::prelude::*;

verus! {

/// Where one re-packed projection lies.
#[derive(Debug, Clone, Copy, PartialEq, Eq, Structural)]
pub struct Fp4Slot {
    pub packed: DevicePtr,
    pub scale: DevicePtr,
}

/// Bytes of a packed `[n, k]` projection and of its scales.
pub fn fp4_slot_bytes(n: usize, k: usize) -> (r: (usize, usize))
    requires
        (k as int / 2) * n <= usize::MAX,
    ensures
        r.0 == (k as int / 2) * n,
        r.1 == (k as int / 16) * n,
{
    proof {
        assert((k as int / 16) * n <= (k as int / 2) * n) by (nonlinear_arith)
            requires
                0 <= k as int / 16 <= k as int / 2,
                0 <= n,
        ;
    }
    ((k / 2) * n, (k / 16) * n)
}

/// Records the packing of one expanded projection; the expanded copy is released
/// once that has run.
pub fn pack_fp4(cb: &mut CommandBuffer, bf16: DevicePtr, slot: Fp4Slot, n: usize, k: usize)
    ensures
        final(cb)@ == old(cb)@.push(
            Cmd::Op(
                DeviceOp::PackBf16ToNvfp4 {
                    src: bf16,
                    packed: slot.packed,
                    scale: slot.scale,
                    n: n as u32,
                    k: k as u32,
                },
            ),
        ).push(Cmd::Op(DeviceOp::Synchronize)).push(Cmd::Op(DeviceOp::Free { ptr: bf16 })),
{
    cb.op(
        DeviceOp::PackBf16ToNvfp4 {
            src: bf16,
            packed: slot.packed,
            scale: slot.scale,
            n: n as u32,
            k: k as u32,
        },
    );
    cb.op(DeviceOp::Synchronize);
    cb.op(DeviceOp::Free { ptr: bf16 });
}

/// Addresses of a slot, zero for an expert that has none. The kernel does not
/// read those: such an expert has no rows.
pub open spec fn slot_addresses(s: Option<Fp4Slot>) -> (u64, u64) {
    match s {
        Some(s) => (s.packed.0, s.scale.0),
        None => (0, 0),
    }
}

/// Slots of the experts: one each, and none exactly where the projection `by` is not
/// on this device.
pub open spec fn present_slots(
    experts: Seq<ExpertWeight>,
    by: Projection,
    slots: Seq<Fp4Slot>,
) -> Seq<Option<Fp4Slot>> {
    Seq::new(
        experts.len(),
        |e: int|
            if by.of(experts[e]).null() {
                None
            } else {
                Some(slots[e])
            },
    )
}

fn pick_slots(experts: &Vec<ExpertWeight>, by: Projection, slots: &Vec<Fp4Slot>) -> (r: Vec<
    Option<Fp4Slot>,
>)
    requires
        slots@.len() == experts@.len(),
    ensures
        r@ == present_slots(experts@, by, slots@),
{
    let mut out: Vec<Option<Fp4Slot>> = Vec::new();
    let mut e: usize = 0;
    while e < experts.len()
        invariant
            e <= experts@.len(),
            slots@.len() == experts@.len(),
            out@ == present_slots(experts@, by, slots@).take(e as int),
        decreases experts@.len() - e,
    {
        if by.pick(&experts[e]).is_null() {
            out.push(None);
        } else {
            out.push(Some(slots[e]));
        }
        e = e + 1;
        assert(out@ =~= present_slots(experts@, by, slots@).take(e as int));
    }
    assert(out@ =~= present_slots(experts@, by, slots@));
    out
}

/// `t` lists `slots`, with global scales of one.
pub open spec fn lists(t: Fp4HostTable, slots: Seq<Option<Fp4Slot>>) -> bool {
    &&& t.packed_ptrs@ == slots.map_values(|s: Option<Fp4Slot>| slot_addresses(s).0)
    &&& t.scale_ptrs@ == slots.map_values(|s: Option<Fp4Slot>| slot_addresses(s).1)
    &&& t.scale2_vals@ == slots.map_values(|s: Option<Fp4Slot>| Scalar(ONE_BITS))
}

/// Uploads of a listed table.
pub open spec fn fp4_table_cmds(slots: Seq<Option<Fp4Slot>>, t: ExpertPtrTable) -> Seq<Cmd> {
    seq![
        Cmd::Upload {
            dst: t.packed_ptrs,
            bytes: u64s_bytes(slots.map_values(|s: Option<Fp4Slot>| slot_addresses(s).0)),
        },
        Cmd::Upload {
            dst: t.scale_ptrs,
            bytes: u64s_bytes(slots.map_values(|s: Option<Fp4Slot>| slot_addresses(s).1)),
        },
        Cmd::Upload {
            dst: t.scale2_vals,
            bytes: scalars_bytes(slots.map_values(|s: Option<Fp4Slot>| Scalar(ONE_BITS))),
        },
    ]
}

/// Bytes to allocate for a device array: at least one element.
pub fn fp4_table_bytes(experts: usize) -> (r: (usize, usize))
    requires
        experts * 8 <= usize::MAX,
    ensures
        r.0 == (if experts == 0 {
            8
        } else {
            8 * experts
        }),
        r.1 == (if experts == 0 {
            4
        } else {
            4 * experts
        }),
{
    if experts == 0 {
        (8, 4)
    } else {
        (8 * experts, 4 * experts)
    }
}

/// Memory that the first `n` slots own, packed before scale.
pub open spec fn slot_memory(slots: Seq<Option<Fp4Slot>>, n: nat) -> Seq<DevicePtr>
    decreases n,
{
    if n == 0 {
        Seq::empty()
    } else {
        slot_memory(slots, (n - 1) as nat) + (match slots[n - 1] {
            Some(s) => seq![s.packed, s.scale],
            None => Seq::empty(),
        })
    }
}

/// Memory that the first `n` experts' gate and up own.
pub open spec fn pair_memory(
    gate: Seq<Option<Fp4Slot>>,
    up: Seq<Option<Fp4Slot>>,
    n: nat,
) -> Seq<DevicePtr>
    decreases n,
{
    if n == 0 {
        Seq::empty()
    } else {
        pair_memory(gate, up, (n - 1) as nat) + (match gate[n - 1] {
            Some(s) => seq![s.packed, s.scale],
            None => Seq::empty(),
        }) + (match up[n - 1] {
            Some(s) => seq![s.packed, s.scale],
            None => Seq::empty(),
        })
    }
}

/// Device arrays of a table.
pub open spec fn table_memory(t: ExpertPtrTable) -> Seq<DevicePtr> {
    seq![t.packed_ptrs, t.scale_ptrs, t.scale2_vals]
}

fn list_slots(slots: &Vec<Option<Fp4Slot>>) -> (r: Fp4HostTable)
    ensures
        lists(r, slots@),
{
    let mut packed_ptrs: Vec<u64> = Vec::new();
    let mut scale_ptrs: Vec<u64> = Vec::new();
    let mut scale2_vals: Vec<Scalar> = Vec::new();
    let mut e: usize = 0;
    while e < slots.len()
        invariant
            e <= slots@.len(),
            packed_ptrs@ == slots@.take(e as int).map_values(
                |s: Option<Fp4Slot>| slot_addresses(s).0,
            ),
            scale_ptrs@ == slots@.take(e as int).map_values(
                |s: Option<Fp4Slot>| slot_addresses(s).1,
            ),
            scale2_vals@ == slots@.take(e as int).map_values(|s: Option<Fp4Slot>| Scalar(ONE_BITS)),
        decreases slots@.len() - e,
    {
        match slots[e] {
            Some(s) => {
                packed_ptrs.push(s.packed.0);
                scale_ptrs.push(s.scale.0);
            },
            None => {
                packed_ptrs.push(0);
                scale_ptrs.push(0);
            },
        }
        scale2_vals.push(Scalar(ONE_BITS));
        e = e + 1;
        assert(packed_ptrs@ =~= slots@.take(e as int).map_values(
            |s: Option<Fp4Slot>| slot_addresses(s).0,
        ));
        assert(scale_ptrs@ =~= slots@.take(e as int).map_values(
            |s: Option<Fp4Slot>| slot_addresses(s).1,
        ));
        assert(scale2_vals@ =~= slots@.take(e as int).map_values(
            |s: Option<Fp4Slot>| Scalar(ONE_BITS),
        ));
    }
    assert(slots@.take(e as int) =~= slots@);
    Fp4HostTable { packed_ptrs, scale_ptrs, scale2_vals }
}

fn upload_table(
    cb: &mut CommandBuffer,
    host: &Fp4HostTable,
    slots: &Vec<Option<Fp4Slot>>,
    t: ExpertPtrTable,
    owned: &mut Vec<DevicePtr>,
)
    requires
        lists(*host, slots@),
    ensures
        final(cb)@ == old(cb)@ + fp4_table_cmds(slots@, t),
        final(owned)@ == old(owned)@ + table_memory(t),
{
    let ghost before = cb@;
    let ghost had = owned@;
    cb.upload(t.packed_ptrs, encode_u64s(&host.packed_ptrs));
    cb.upload(t.scale_ptrs, encode_u64s(&host.scale_ptrs));
    cb.upload(t.scale2_vals, encode_scalars(&host.scale2_vals));
    owned.push(t.packed_ptrs);
    owned.push(t.scale_ptrs);
    owned.push(t.scale2_vals);
    assert(cb@ =~= before + fp4_table_cmds(slots@, t));
    assert(owned@ =~= had + table_memory(t));
}

impl MoeLayer {
    /// Experts whose gate and up are re-packed, as `[inter, hidden]` projections.
    pub fn fp4_gate_up_experts(&self) -> (r: Vec<bool>)
        ensures
            r@.len() == self.weights.experts@.len(),
            forall|e: int|
                0 <= e < r@.len() ==> #[trigger] r@[e] == !self.weights.experts@[e].gate_proj.null(),
    {
        let mut out: Vec<bool> = Vec::new();
        let mut e: usize = 0;
        while e < self.weights.experts.len()
            invariant
                e <= self.weights.experts@.len(),
                out@.len() == e,
                forall|j: int|
                    0 <= j < e ==> #[trigger] out@[j] == !self.weights.experts@[j].gate_proj.null(),
            decreases self.weights.experts@.len() - e,
        {
            out.push(!self.weights.experts[e].gate_proj.is_null());
            e = e + 1;
        }
        out
    }

    /// Experts whose down is re-packed, as `[hidden, inter]` projections.
    pub fn fp4_down_experts(&self) -> (r: Vec<bool>)
        ensures
            r@.len() == self.weights.experts@.len(),
            forall|e: int|
                0 <= e < r@.len() ==> #[trigger] r@[e] == !self.weights.experts@[e].down_proj.null(),
    {
        let mut out: Vec<bool> = Vec::new();
        let mut e: usize = 0;
        while e < self.weights.experts.len()
            invariant
                e <= self.weights.experts@.len(),
                out@.len() == e,
                forall|j: int|
                    0 <= j < e ==> #[trigger] out@[j] == !self.weights.experts@[j].down_proj.null(),
            decreases self.weights.experts@.len() - e,
        {
            out.push(!self.weights.experts[e].down_proj.is_null());
            e = e + 1;
        }
        out
    }

    /// Records the upload of the tables of re-packed gate and up projections, and
    /// installs them. `gate` and `up` say for every expert where its projections were
    /// packed to; those of an expert that is not on this device are not looked at. All
    /// other tables stay as they are.
    pub fn build_fp4_gate_up(
        &mut self,
        cb: &mut CommandBuffer,
        gate: &Vec<Fp4Slot>,
        up: &Vec<Fp4Slot>,
        gate_t: ExpertPtrTable,
        up_t: ExpertPtrTable,
    )
        requires
            gate@.len() == old(self).weights.experts@.len(),
            up@.len() == old(self).weights.experts@.len(),
        ensures
            ({
                let xs = old(self).weights.experts@;
                let g = present_slots(xs, Projection::Gate, gate@);
                let u = present_slots(xs, Projection::Gate, up@);
                &&& final(cb)@ == (old(cb)@ + fp4_table_cmds(g, gate_t) + fp4_table_cmds(
                    u,
                    up_t,
                )).push(Cmd::Op(DeviceOp::Synchronize))
                &&& final(self).fp4_gate_up matches Some(t) && lists(t.gate, g) && lists(t.up, u)
                    && t.gate_t == gate_t && t.up_t == up_t && t.owned@ == pair_memory(
                    g,
                    u,
                    xs.len(),
                ) + table_memory(gate_t) + table_memory(up_t)
            }),
            *final(self) == (MoeLayer { fp4_gate_up: final(self).fp4_gate_up, ..*old(self) }),
    {
        let gate: Vec<Option<Fp4Slot>> = pick_slots(&self.weights.experts, Projection::Gate, gate);
        let up: Vec<Option<Fp4Slot>> = pick_slots(&self.weights.experts, Projection::Gate, up);
        let mut owned: Vec<DevicePtr> = Vec::new();
        let mut e: usize = 0;
        assert(owned@ =~= pair_memory(gate@, up@, 0));
        while e < gate.len()
            invariant
                e <= gate@.len(),
                gate@.len() == up@.len(),
                owned@ == pair_memory(gate@, up@, e as nat),
            decreases gate@.len() - e,
        {
            if let Some(s) = gate[e] {
                owned.push(s.packed);
                owned.push(s.scale);
            }
            if let Some(s) = up[e] {
                owned.push(s.packed);
                owned.push(s.scale);
            }
            assert(owned@ =~= pair_memory(gate@, up@, (e + 1) as nat));
            e = e + 1;
        }
        let gate_host: Fp4HostTable = list_slots(&gate);
        let up_host: Fp4HostTable = list_slots(&up);
        upload_table(cb, &gate_host, &gate, gate_t, &mut owned);
        upload_table(cb, &up_host, &up, up_t, &mut owned);
        cb.op(DeviceOp::Synchronize);
        self.fp4_gate_up =
        Some(MoeFp4GateUp { owned, gate: gate_host, up: up_host, gate_t, up_t });
    }

    /// Records the upload of the table of re-packed down projections, and installs
    /// it. `down` says for every expert where its projection was packed to; that of an
    /// expert without one is not looked at. All other tables stay as they are.
    pub fn build_fp4_down(
        &mut self,
        cb: &mut CommandBuffer,
        down: &Vec<Fp4Slot>,
        down_t: ExpertPtrTable,
    )
        requires
            down@.len() == old(self).weights.experts@.len(),
        ensures
            ({
                let d = present_slots(old(self).weights.experts@, Projection::Down, down@);
                &&& final(cb)@ == (old(cb)@ + fp4_table_cmds(d, down_t)).push(
                    Cmd::Op(DeviceOp::Synchronize),
                )
                &&& final(self).fp4_down matches Some(t) && t.down_t == down_t && t.owned@
                    == slot_memory(d, d.len()) + table_memory(down_t)
            }),
            *final(self) == (MoeLayer { fp4_down: final(self).fp4_down, ..*old(self) }),
    {
        let down: Vec<Option<Fp4Slot>> = pick_slots(&self.weights.experts, Projection::Down, down);
        let mut owned: Vec<DevicePtr> = Vec::new();
        let mut e: usize = 0;
        assert(owned@ =~= slot_memory(down@, 0));
        while e < down.len()
            invariant
                e <= down@.len(),
                owned@ == slot_memory(down@, e as nat),
            decreases down@.len() - e,
        {
            if let Some(s) = down[e] {
                owned.push(s.packed);
                owned.push(s.scale);
            }
            assert(owned@ =~= slot_memory(down@, (e + 1) as nat));
            e = e + 1;
        }
        let host: Fp4HostTable = list_slots(&down);
        upload_table(cb, &host, &down, down_t, &mut owned);
        cb.op(DeviceOp::Synchronize);
        self.fp4_down = Some(MoeFp4Down { owned, down_t });
    }
}

/// Magnitude of a four-bit code, in halves.
pub open spec fn e2m1_halves(v: int) -> int {
    let m = v % 8;
    if m <= 4 {
        m
    } else if m == 5 {
        6
    } else if m == 6 {
        8
    } else {
        12
    }
}

/// `r` has the value of four-bit code `v`.
pub open spec fn e2m1_decodes(v: int, r: Scalar) -> bool {
    &&& f32_exp(r.0 as int) < 0xff
    &&& f32_negative(r.0 as int) == (v >= 8)
    &&& f32_units(r.0 as int) == e2m1_halves(v) * pow2(148)
}

/// Single-precision pattern of a four-bit code.
fn e2m1_to_f32(v: u8) -> (r: Scalar)
    requires
        v < 16,
    ensures
        e2m1_decodes(v as int, r),
{
    let m: u8 = v % 8;
    let mag: u32 = if m == 0 {
        0
    } else if m == 1 {
        0x3f00_0000
    } else if m == 2 {
        0x3f80_0000
    } else if m == 3 {
        0x3fc0_0000
    } else if m == 4 {
        0x4000_0000
    } else if m == 5 {
        0x4040_0000
    } else if m == 6 {
        0x4080_0000
    } else {
        0x40c0_0000
    };
    let bits: u32 = if v >= 8 {
        0x8000_0000 + mag
    } else {
        mag
    };
    proof {
        lemma_e2m1_units();
        assert(f32_mant(bits as int) == f32_mant(mag as int));
        assert(f32_exp(bits as int) == f32_exp(mag as int));
        assert(f32_units(bits as int) == f32_units(mag as int));
        assert(f32_units(mag as int) == e2m1_halves(v as int) * pow2(148)) by {
            if m == 0 {
                lemma_times(e2m1_halves(v as int), 0, pow2(148) as int);
            } else if m == 1 {
                assert(f32_exp(0x3f00_0000) == 126 && f32_mant(0x3f00_0000) == 0);
                lemma_times(e2m1_halves(v as int), 1, pow2(148) as int);
            } else if m == 2 {
                assert(f32_exp(0x3f80_0000) == 127 && f32_mant(0x3f80_0000) == 0);
                lemma_times(e2m1_halves(v as int), 2, pow2(148) as int);
            } else if m == 3 {
                assert(f32_exp(0x3fc0_0000) == 127 && f32_mant(0x3fc0_0000) == 0x40_0000);
                lemma_times(e2m1_halves(v as int), 3, pow2(148) as int);
            } else if m == 4 {
                assert(f32_exp(0x4000_0000) == 128 && f32_mant(0x4000_0000) == 0);
                lemma_times(e2m1_halves(v as int), 4, pow2(148) as int);
            } else if m == 5 {
                assert(f32_exp(0x4040_0000) == 128 && f32_mant(0x4040_0000) == 0x40_0000);
                lemma_times(e2m1_halves(v as int), 6, pow2(148) as int);
            } else if m == 6 {
                assert(f32_exp(0x4080_0000) == 129 && f32_mant(0x4080_0000) == 0);
                lemma_times(e2m1_halves(v as int), 8, pow2(148) as int);
            } else if m == 7 {
                assert(f32_exp(0x40c0_0000) == 129 && f32_mant(0x40c0_0000) == 0x40_0000);
                lemma_times(e2m1_halves(v as int), 12, pow2(148) as int);
            }
        }
    }
    Scalar(bits)
}

proof fn lemma_times(a: int, b: int, p: int)
    by (nonlinear_arith)
    requires
        a == b,
    ensures
        a * p == b * p,
{
}

proof fn lemma_e2m1_units()
    ensures
        0x80_0000 * pow2(125) == 1 * pow2(148),
        0x80_0000 * pow2(126) == 2 * pow2(148),
        0xc0_0000 * pow2(126) == 3 * pow2(148),
        0x80_0000 * pow2(127) == 4 * pow2(148),
        0xc0_0000 * pow2(127) == 6 * pow2(148),
        0x80_0000 * pow2(128) == 8 * pow2(148),
        0xc0_0000 * pow2(128) == 12 * pow2(148),
{
    lemma2_to64();
    lemma_pow2_adds(23, 125);
    lemma_pow2_adds(22, 126);
    lemma_pow2_adds(21, 127);
    lemma_pow2_adds(20, 128);
}

/// `combined` is block scale `scale` times the global scale.
pub open spec fn scales_by(scale: u8, global: Scalar, combined: Scalar) -> bool {
    exists|s: Scalar| e4m3_byte_decodes(scale, s) && #[trigger] f32_product(s, global, combined)
}

/// `code` is the bfloat16 pattern of four-bit code `v` under its block scale and the
/// global scale. Both products are rounded to single precision first.
pub open spec fn dequantises(scale: u8, v: int, global: Scalar, code: u16) -> bool {
    exists|combined: Scalar, e: Scalar, x: Scalar|
        #![trigger scales_by(scale, global, combined), f32_product(e, combined, x)]
        scales_by(scale, global, combined) && e2m1_decodes(v, e) && f32_product(e, combined, x)
            && bf16_rounds(x, code)
}

/// The four-bit value number `i`: even ones are the low halves of their bytes.
pub open spec fn nibble(packed: Seq<u8>, i: int) -> int {
    if i % 2 == 0 {
        packed[i / 2] as int % 16
    } else {
        packed[i / 2] as int / 16
    }
}

/// `out` holds `total` values in two bytes each, low byte first: those of `packed` with
/// one block scale per 16 of them and a global scale. Values behind the last whole group
/// are zero.
pub open spec fn expands(
    packed: Seq<u8>,
    scales: Seq<u8>,
    global: Scalar,
    total: int,
    out: Seq<u8>,
) -> bool {
    &&& out.len() == 2 * total
    &&& forall|i: int|
        0 <= i < 16 * scales.len() ==> dequantises(
            scales[i / 16],
            nibble(packed, i),
            global,
            (#[trigger] out[2 * i] + 256 * out[2 * i + 1]) as u16,
        )
    &&& forall|j: int| 32 * scales.len() <= j < 2 * total ==> out[j] == 0
}

/// Expands `total` packed values with one block scale per 16 of them and a global
/// scale. Each value takes two bytes, low byte first. Values behind the last whole
/// group are zero.
pub fn dequant_nvfp4(packed: &Vec<u8>, scales: &Vec<u8>, global: Scalar, total: usize) -> (r: Vec<
    u8,
>)
    requires
        packed@.len() == total as int / 2,
        scales@.len() == total as int / 16,
        2 * total <= usize::MAX,
    ensures
        expands(packed@, scales@, global, total as int, r@),
{
    let whole: usize = scales.len() * 16;
    let mut out: Vec<u8> = Vec::new();
    let mut combined: Scalar = Scalar(0);
    let mut i: usize = 0;
    while i < whole
        invariant
            i <= whole,
            whole == 16 * scales@.len(),
            packed@.len() >= 8 * scales@.len(),
            i % 16 != 0 ==> scales_by(scales@[i as int / 16], global, combined),
            out@.len() == 2 * i,
            forall|j: int|
                0 <= j < i ==> dequantises(
                    scales@[j / 16],
                    nibble(packed@, j),
                    global,
                    (#[trigger] out@[2 * j] + 256 * out@[2 * j + 1]) as u16,
                ),
        decreases whole - i,
    {
        if i % 16 == 0 {
            let s: Scalar = e4m3_byte_to_f32(scales[i / 16]);
            combined = f32_mul(s, global);
            assert(f32_product(s, global, combined));
        }
        assert(scales_by(scales@[i as int / 16], global, combined));
        let b: u8 = packed[i / 2];
        let v: u8 = if i % 2 == 0 {
            b % 16
        } else {
            b / 16
        };
        let e: Scalar = e2m1_to_f32(v);
        let x: Scalar = f32_mul(e, combined);
        let code: u16 = f32_to_bf16_bits(x);
        assert(dequantises(scales@[i as int / 16], nibble(packed@, i as int), global, code));
        let ghost before = out@;
        out.push((code % 256) as u8);
        out.push((code / 256) as u8);
        assert(out@[2 * i as int] + 256 * out@[2 * i as int + 1] == code);
        proof {
            assert forall|j: int| 0 <= j < i + 1 implies dequantises(
                scales@[j / 16],
                nibble(packed@, j),
                global,
                (#[trigger] out@[2 * j] + 256 * out@[2 * j + 1]) as u16,
            ) by {
                if j < i {
                    assert(out@[2 * j] == before[2 * j]);
                    assert(out@[2 * j + 1] == before[2 * j + 1]);
                }
            }
        }
        i = i + 1;
        assert(i % 16 != 0 ==> i as int / 16 == (i - 1) / 16);
    }
    let ghost expanded = out@;
    while out.len() < 2 * total
        invariant
            expanded.len() == 2 * whole,
            2 * whole <= out@.len() <= 2 * total,
            2 * total <= usize::MAX,
            forall|j: int| 0 <= j < 2 * whole ==> out@[j] == expanded[j],
            forall|j: int| 2 * whole <= j < out@.len() ==> out@[j] == 0,
        decreases 2 * total - out@.len(),
    {
        out.push(0);
    }
    proof {
        assert forall|i: int| 0 <= i < 16 * scales@.len() implies dequantises(
            scales@[i / 16],
            nibble(packed@, i),
            global,
            (#[trigger] out@[2 * i] + 256 * out@[2 * i + 1]) as u16,
        ) by {
            assert(out@[2 * i] == expanded[2 * i]);
            assert(out@[2 * i + 1] == expanded[2 * i + 1]);
        }
    }
    out
}

/// Rows and columns of a projection.
pub open spec fn shape(config: &ModelConfig, proj: Projection) -> (usize, usize) {
    match proj {
        Projection::Down => (config.hidden_size, config.moe_intermediate_size),
        _ => (config.moe_intermediate_size, config.hidden_size),
    }
}

/// Rows and columns of a projection.
pub fn projection_shape(config: &ModelConfig, proj: Projection) -> (r: (usize, usize))
    ensures
        r == shape(config, proj),
{
    match proj {
        Projection::Down => (config.hidden_size, config.moe_intermediate_size),
        _ => (config.moe_intermediate_size, config.hidden_size),
    }
}

/// Upload of an expanded projection at `bf16`, its packing into `slot`, and the release
/// of the expanded copy once that has run.
pub open spec fn repack_fp4_cmds(
    expanded: Seq<u8>,
    bf16: DevicePtr,
    slot: Fp4Slot,
    n: usize,
    k: usize,
) -> Seq<Cmd> {
    seq![
        Cmd::Upload { dst: bf16, bytes: expanded },
        Cmd::Op(
            DeviceOp::PackBf16ToNvfp4 {
                src: bf16,
                packed: slot.packed,
                scale: slot.scale,
                n: n as u32,
                k: k as u32,
            },
        ),
        Cmd::Op(DeviceOp::Synchronize),
        Cmd::Op(DeviceOp::Free { ptr: bf16 }),
    ]
}

impl MoeLayer {
    /// Expands one projection of expert `e`, of which `packed` and `scales` were read
    /// back, under its own global scale, and records its packing into `slot`. `bf16` is
    /// memory for the expanded copy.
    pub fn repack_fp4(
        &self,
        cb: &mut CommandBuffer,
        config: &ModelConfig,
        proj: Projection,
        e: usize,
        packed: &Vec<u8>,
        scales: &Vec<u8>,
        bf16: DevicePtr,
        slot: Fp4Slot,
    )
        requires
            e < self.weights.experts@.len(),
            ({
                let total = shape(config, proj).0 * shape(config, proj).1;
                &&& 2 * total <= usize::MAX
                &&& packed@.len() == total / 2
                &&& scales@.len() == total / 16
            }),
        ensures
            ({
                let (n, k) = shape(config, proj);
                exists|b: Seq<u8>| #[trigger]
                    expands(
                        packed@,
                        scales@,
                        proj.of(self.weights.experts@[e as int]).weight_scale_2,
                        n * k,
                        b,
                    ) && final(cb)@ == old(cb)@ + repack_fp4_cmds(b, bf16, slot, n, k)
            }),
    {
        let ghost before = cb@;
        let (n, k): (usize, usize) = projection_shape(config, proj);
        let global: Scalar = proj.pick(&self.weights.experts[e]).weight_scale_2;
        let out: Vec<u8> = dequant_nvfp4(packed, scales, global, n * k);
        let ghost b = out@;
        cb.upload(bf16, out);
        pack_fp4(cb, bf16, slot, n, k);
        assert(cb@ =~= before + repack_fp4_cmds(b, bf16, slot, n, k));
    }
}

} // verus!
