//! Weights in the layout of the Marlin kernel.
//!
//! One geometry is supported: 256 experts of 512 columns on 2048 hidden values,
//! eight per row.
use crate::context::ModelConfig;
use crate::device::{Cmd, CommandBuffer, DevicePtr, Scalar};
use crate::env::EnvVars;
use crate::moe::b12x_scales::f32_slice_bytes;
use crate::moe::layer::MoeLayer;
use crate::moe::marlin_scales::{
    biases, combined_scale_factor, encodes, is_power_of_two, marlin_source, max_units, process,
    process_global, transpose_single, transpose_w13, w13_scale,
};
use crate::moe::ptr_tables::Projection;
use crate::num::le_u32;
use crate::ops_table::DeviceOp;
use crate::weights::{ExpertWeight, QuantizedWeight};
use vstd::prelude::*;

verus! {

pub const EXPERTS: usize = 256;

pub const HIDDEN: usize = 2048;

pub const INTER: usize = 512;

/// Bytes of one packed gate or up projection.
pub const PROJECTION_BYTES: usize = 524_288;

/// Bytes of one expert's gate and up projections.
pub const W13_STRIDE: usize = 1_048_576;

/// Bytes of one expert's down projection.
pub const W2_STRIDE: usize = 524_288;

/// Bytes of one expert's block scales of gate, and of up.
pub const GATE_UP_SCALE_BYTES: usize = 65_536;

/// Bytes of one expert's block scales of down.
pub const DOWN_SCALE_BYTES: usize = 65_536;

/// Bytes of the first product's result: eight rows, eight routes each.
pub const W13_OUT_BYTES: usize = 131_072;

pub const REDUCE_TMP_BYTES: usize = 4_194_304;

pub const WORKSPACE_BYTES: usize = 4096;

/// Re-packed weights and layer-local scratch.
#[derive(Debug, Clone, Copy, PartialEq, Eq, Structural)]
pub struct MarlinMoeWeights {
    pub w13: DevicePtr,
    /// Result of the first product, kept apart from the shared scratch so that
    /// a shared expert on another stream cannot race it.
    pub w13_out: DevicePtr,
    pub w2: DevicePtr,
    pub w13_scales: DevicePtr,
    pub w2_scales: DevicePtr,
    pub w13_global: DevicePtr,
    pub w2_global: DevicePtr,
    pub reduce_tmp: DevicePtr,
    pub workspace: DevicePtr,
}

/// Why the weights cannot be re-packed.
#[derive(Debug, Clone, Copy, PartialEq, Eq, Structural)]
pub enum MarlinError {
    /// The model has another geometry.
    Geometry,
    /// Some expert is not on this device.
    NotResident,
    /// Gate and up of this expert have different global scales.
    ScaleMismatch { expert: usize },
}

/// The kernel is asked for and its library is there.
pub open spec fn marlin_available(env: &EnvVars, loaded: bool) -> bool {
    env.says("ATLAS_MOE_MARLIN"@, "1"@) && loaded
}

/// Whether the kernel is asked for and its library is there.
pub fn available(env: &EnvVars, loaded: bool) -> (r: bool)
    ensures
        r == marlin_available(env, loaded),
{
    env.is("ATLAS_MOE_MARLIN", "1") && loaded
}

/// The one geometry that the kernel is built for.
pub open spec fn marlin_geometry(config: &ModelConfig) -> bool {
    &&& config.num_experts == EXPERTS
    &&& config.hidden_size == HIDDEN
    &&& config.moe_intermediate_size == INTER
    &&& config.num_experts_per_tok == 8
}

/// No expert is a placeholder.
pub open spec fn all_resident(experts: Seq<ExpertWeight>) -> bool {
    forall|e: int| 0 <= e < experts.len() ==> !(#[trigger] experts[e]).gate_proj.null()
}

/// Whether no expert is a placeholder.
pub fn is_all_resident(experts: &Vec<ExpertWeight>) -> (r: bool)
    ensures
        r == all_resident(experts@),
{
    let mut e: usize = 0;
    while e < experts.len()
        invariant
            e <= experts@.len(),
            forall|j: int| 0 <= j < e ==> !(#[trigger] experts@[j]).gate_proj.null(),
        decreases experts@.len() - e,
    {
        if experts[e].gate_proj.is_null() {
            assert(experts@[e as int].gate_proj.null());
            return false;
        }
        e = e + 1;
    }
    true
}

/// Gate and up share one global scale.
pub open spec fn one_scale(x: ExpertWeight) -> bool {
    x.gate_proj.weight_scale_2 == x.up_proj.weight_scale_2
}

/// Re-packing of one expert: gate and up are joined in `concat` first.
pub open spec fn repack_expert_cmds(
    x: ExpertWeight,
    e: int,
    w13: DevicePtr,
    w2: DevicePtr,
    concat: DevicePtr,
) -> Seq<Cmd> {
    seq![
        Cmd::Op(
            DeviceOp::CopyD2D { src: x.gate_proj.weight, dst: concat, bytes: PROJECTION_BYTES },
        ),
        Cmd::Op(
            DeviceOp::CopyD2D {
                src: x.up_proj.weight,
                dst: concat.at(PROJECTION_BYTES as int),
                bytes: PROJECTION_BYTES,
            },
        ),
        Cmd::Op(
            DeviceOp::MarlinRepack { src: concat, dst: w13.at(e * W13_STRIDE), k: 2048, n: 1024 },
        ),
        Cmd::Op(
            DeviceOp::MarlinRepack {
                src: x.down_proj.weight,
                dst: w2.at(e * W2_STRIDE),
                k: 512,
                n: 2048,
            },
        ),
    ]
}

/// Re-packing of the first `n` experts.
pub open spec fn repack_cmds(
    experts: Seq<ExpertWeight>,
    w13: DevicePtr,
    w2: DevicePtr,
    concat: DevicePtr,
    n: nat,
) -> Seq<Cmd>
    decreases n,
{
    if n == 0 {
        Seq::empty()
    } else {
        repack_cmds(experts, w13, w2, concat, (n - 1) as nat) + repack_expert_cmds(
            experts[n - 1],
            n - 1,
            w13,
            w2,
            concat,
        )
    }
}

/// The first `n` experts each have one global scale for gate and up.
pub open spec fn one_scale_each(experts: Seq<ExpertWeight>, n: int) -> bool {
    forall|e: int| 0 <= e < n ==> one_scale(#[trigger] experts[e])
}

impl MoeLayer {
    /// Whether the weights are to be re-packed.
    pub fn wants_marlin(&self, config: &ModelConfig, env: &EnvVars, loaded: bool) -> (r: Result<
        bool,
        MarlinError,
    >)
        ensures
            r == (if !marlin_available(env, loaded) {
                Ok::<bool, MarlinError>(false)
            } else if !marlin_geometry(config) {
                Err::<bool, MarlinError>(MarlinError::Geometry)
            } else if config.ep_world_size != 1 || self.weights.experts@.len() != EXPERTS
                || !all_resident(self.weights.experts@) {
                Err::<bool, MarlinError>(MarlinError::NotResident)
            } else {
                Ok::<bool, MarlinError>(true)
            }),
    {
        if !available(env, loaded) {
            return Ok(false);
        }
        if config.num_experts != EXPERTS || config.hidden_size != HIDDEN
            || config.moe_intermediate_size != INTER || config.num_experts_per_tok != 8 {
            return Err(MarlinError::Geometry);
        }
        if config.ep_world_size != 1 || self.weights.experts.len() != EXPERTS || !is_all_resident(
            &self.weights.experts,
        ) {
            return Err(MarlinError::NotResident);
        }
        Ok(true)
    }

    /// Records the re-packing of all experts into `w13` and `w2` through `concat`,
    /// a wait, and the release of `concat`. Stops at the first expert whose gate
    /// and up differ in their global scale.
    pub fn repack_marlin_weights(
        &self,
        cb: &mut CommandBuffer,
        w13: DevicePtr,
        w2: DevicePtr,
        concat: DevicePtr,
    ) -> (r: Result<(), MarlinError>)
        requires
            self.weights.experts@.len() * W13_STRIDE <= usize::MAX,
            w13.spans(self.weights.experts@.len() * W13_STRIDE),
            w2.spans(self.weights.experts@.len() * W2_STRIDE),
            concat.spans(W13_STRIDE as int),
        ensures
            match r {
                Ok(()) => one_scale_each(
                    self.weights.experts@,
                    self.weights.experts@.len() as int,
                ) && final(cb)@ == (old(cb)@ + repack_cmds(
                    self.weights.experts@,
                    w13,
                    w2,
                    concat,
                    self.weights.experts@.len(),
                )).push(Cmd::Op(DeviceOp::Synchronize)).push(
                    Cmd::Op(DeviceOp::Free { ptr: concat }),
                ),
                Err(x) => x matches MarlinError::ScaleMismatch { expert } && expert
                    < self.weights.experts@.len() && one_scale_each(
                    self.weights.experts@,
                    expert as int,
                ) && !one_scale(self.weights.experts@[expert as int]) && final(cb)@ == old(cb)@
                    + repack_cmds(self.weights.experts@, w13, w2, concat, expert as nat),
            },
    {
        let ghost before = cb@;
        let experts: &Vec<ExpertWeight> = &self.weights.experts;
        let n: usize = experts.len();
        let mut e: usize = 0;
        assert(cb@ =~= before + repack_cmds(experts@, w13, w2, concat, 0));
        while e < n
            invariant
                e <= n,
                n == experts@.len(),
                *experts == self.weights.experts,
                n * W13_STRIDE <= usize::MAX,
                w13.spans(n * W13_STRIDE),
                w2.spans(n * W2_STRIDE),
                concat.spans(W13_STRIDE as int),
                one_scale_each(experts@, e as int),
                before == old(cb)@,
                cb@ == before + repack_cmds(experts@, w13, w2, concat, e as nat),
            decreases n - e,
        {
            let x: ExpertWeight = experts[e];
            if x.gate_proj.weight_scale_2 != x.up_proj.weight_scale_2 {
                return Err(MarlinError::ScaleMismatch { expert: e });
            }
            cb.op(
                DeviceOp::CopyD2D { src: x.gate_proj.weight, dst: concat, bytes: PROJECTION_BYTES },
            );
            cb.op(
                DeviceOp::CopyD2D {
                    src: x.up_proj.weight,
                    dst: concat.offset(PROJECTION_BYTES),
                    bytes: PROJECTION_BYTES,
                },
            );
            cb.op(
                DeviceOp::MarlinRepack {
                    src: concat,
                    dst: w13.offset(e * W13_STRIDE),
                    k: 2048,
                    n: 1024,
                },
            );
            cb.op(
                DeviceOp::MarlinRepack {
                    src: x.down_proj.weight,
                    dst: w2.offset(e * W2_STRIDE),
                    k: 512,
                    n: 2048,
                },
            );
            assert(cb@ =~= before + repack_cmds(experts@, w13, w2, concat, (e + 1) as nat));
            e = e + 1;
        }
        cb.op(DeviceOp::Synchronize);
        cb.op(DeviceOp::Free { ptr: concat });
        Ok(())
    }
}

/// `r` holds the scales of all experts' gate and up projections, `[128, 1024]` each.
pub open spec fn is_logical_w13(gates: Seq<Vec<u8>>, ups: Seq<Vec<u8>>, r: Seq<Vec<u8>>) -> bool {
    &&& r.len() == gates.len()
    &&& forall|e: int| 0 <= e < r.len() ==> (#[trigger] r[e])@.len() == 131_072
    &&& forall|e: int, kg: int, c: int|
        0 <= e < r.len() && 0 <= kg < 128 && 0 <= c < 1024 ==> #[trigger] r[e]@[kg * 1024 + c]
            == w13_scale(gates[e]@, ups[e]@, 512, 128, kg, c)
}

/// `r` holds the scales of all experts' down projections, `[32, 2048]` each.
pub open spec fn is_logical_w2(downs: Seq<Vec<u8>>, r: Seq<Vec<u8>>) -> bool {
    &&& r.len() == downs.len()
    &&& forall|e: int| 0 <= e < r.len() ==> (#[trigger] r[e])@.len() == 65_536
    &&& forall|e: int, kg: int, c: int|
        0 <= e < r.len() && 0 <= kg < 32 && 0 <= c < 2048 ==> #[trigger] r[e]@[kg * 2048 + c]
            == downs[e]@[c * 32 + kg]
}

/// `factor` is the largest power of two that keeps the largest scale within the format,
/// and one where there is no scale.
pub open spec fn is_scale_factor(logical: Seq<Vec<u8>>, factor: int) -> bool {
    let m = max_units(logical);
    &&& is_power_of_two(factor)
    &&& if m == 0 || m >= crate::moe::marlin_scales::MAX_UNITS {
        factor == 1
    } else {
        factor * m <= crate::moe::marlin_scales::MAX_UNITS < 2 * factor * m
    }
}

/// `out` holds the scales of all experts, `len` each, one after the other, permuted and
/// re-encoded under `factor`.
pub open spec fn is_scaled(logical: Seq<Vec<u8>>, len: int, factor: int, out: Seq<u8>) -> bool {
    &&& out.len() == logical.len() * len
    &&& forall|e: int, i: int|
        0 <= e < logical.len() && 0 <= i < len ==> encodes(
            logical[e]@[i / 64 * 64 + marlin_source(i % 64)],
            factor,
            #[trigger] out[e * len + i],
        )
}

/// `out` holds the global scales of one projection of all experts under `factor`.
pub open spec fn is_biased(experts: Seq<ExpertWeight>, proj: Projection, factor: int, out: Seq<u8>) -> bool {
    &&& out.len() == 4 * experts.len()
    &&& forall|e: int|
        0 <= e < experts.len() ==> biases(
            proj.of(experts[e]).weight_scale_2,
            factor,
            Scalar(#[trigger] le_u32(out, 4 * e) as u32),
        )
}

/// Scales of all experts' gate and up projections, `[128, 1024]` each.
pub fn logical_w13(gates: &Vec<Vec<u8>>, ups: &Vec<Vec<u8>>) -> (r: Vec<Vec<u8>>)
    requires
        gates@.len() == ups@.len(),
        forall|e: int| 0 <= e < gates@.len() ==> (#[trigger] gates@[e])@.len() == GATE_UP_SCALE_BYTES,
        forall|e: int| 0 <= e < ups@.len() ==> (#[trigger] ups@[e])@.len() == GATE_UP_SCALE_BYTES,
    ensures
        is_logical_w13(gates@, ups@, r@),
{
    let mut out: Vec<Vec<u8>> = Vec::new();
    let mut i: usize = 0;
    while i < gates.len()
        invariant
            i <= gates@.len(),
            gates@.len() == ups@.len(),
            forall|e: int|
                0 <= e < gates@.len() ==> (#[trigger] gates@[e])@.len() == GATE_UP_SCALE_BYTES,
            forall|e: int| 0 <= e < ups@.len() ==> (#[trigger] ups@[e])@.len() == GATE_UP_SCALE_BYTES,
            out@.len() == i,
            forall|e: int| 0 <= e < i ==> (#[trigger] out@[e])@.len() == 131_072,
            forall|e: int, kg: int, c: int|
                0 <= e < i && 0 <= kg < 128 && 0 <= c < 1024 ==> #[trigger] out@[e]@[kg * 1024 + c]
                    == w13_scale(gates@[e]@, ups@[e]@, 512, 128, kg, c),
        decreases gates@.len() - i,
    {
        let t: Vec<u8> = transpose_w13(gates[i].as_slice(), ups[i].as_slice(), 512, 128);
        assert(forall|kg: int, c: int|
            0 <= kg < 128 && 0 <= c < 1024 ==> #[trigger] t@[kg * 1024 + c] == t@[kg * (2 * 512) + c]);
        out.push(t);
        i = i + 1;
    }
    out
}

/// Scales of all experts' down projections, `[32, 2048]` each.
pub fn logical_w2(downs: &Vec<Vec<u8>>) -> (r: Vec<Vec<u8>>)
    requires
        forall|e: int| 0 <= e < downs@.len() ==> (#[trigger] downs@[e])@.len() == DOWN_SCALE_BYTES,
    ensures
        is_logical_w2(downs@, r@),
{
    let mut out: Vec<Vec<u8>> = Vec::new();
    let mut i: usize = 0;
    while i < downs.len()
        invariant
            i <= downs@.len(),
            forall|e: int| 0 <= e < downs@.len() ==> (#[trigger] downs@[e])@.len() == DOWN_SCALE_BYTES,
            out@.len() == i,
            forall|e: int| 0 <= e < i ==> (#[trigger] out@[e])@.len() == 65_536,
            forall|e: int, kg: int, c: int|
                0 <= e < i && 0 <= kg < 32 && 0 <= c < 2048 ==> #[trigger] out@[e]@[kg * 2048 + c]
                    == downs@[e]@[c * 32 + kg],
        decreases downs@.len() - i,
    {
        let t: Vec<u8> = transpose_single(downs[i].as_slice(), 2048, 32);
        out.push(t);
        i = i + 1;
    }
    out
}

/// The scales that the kernel reads: all experts one after the other, permuted
/// and re-encoded under one factor, which comes back too.
pub fn marlin_scale_bytes(logical: &Vec<Vec<u8>>, len: usize) -> (r: (u32, Vec<u8>))
    requires
        len % 64 == 0,
        forall|e: int| 0 <= e < logical@.len() ==> (#[trigger] logical@[e])@.len() == len,
    ensures
        is_scale_factor(logical@, r.0 as int),
        is_scaled(logical@, len as int, r.0 as int, r.1@),
{
    let factor: u32 = combined_scale_factor(logical.as_slice());
    let mut out: Vec<u8> = Vec::new();
    let mut n: usize = 0;
    assert(0 * len == 0);
    while n < logical.len()
        invariant
            n <= logical@.len(),
            len % 64 == 0,
            is_power_of_two(factor as int),
            forall|e: int| 0 <= e < logical@.len() ==> (#[trigger] logical@[e])@.len() == len,
            out@.len() == n * len,
            forall|e: int, i: int|
                0 <= e < n && 0 <= i < len ==> encodes(
                    logical@[e]@[i / 64 * 64 + marlin_source(i % 64)],
                    factor as int,
                    #[trigger] out@[e * len + i],
                ),
        decreases logical@.len() - n,
    {
        let ghost before = out@;
        let mut part: Vec<u8> = process(logical[n].as_slice(), factor);
        let ghost added = part@;
        out.append(&mut part);
        proof {
            assert((n + 1) * len == n * len + len) by (nonlinear_arith);
            assert forall|e: int, i: int|
                0 <= e < n + 1 && 0 <= i < len implies encodes(
                logical@[e]@[i / 64 * 64 + marlin_source(i % 64)],
                factor as int,
                #[trigger] out@[e * len + i],
            ) by {
                if e < n {
                    assert(0 <= e * len && e * len + i < n * len) by (nonlinear_arith)
                        requires
                            0 <= e < n,
                            0 <= i < len,
                    ;
                    assert(out@[e * len + i] == before[e * len + i]);
                } else {
                    assert(out@[n * len + i] == added[i]);
                }
            }
        }
        n = n + 1;
    }
    (factor, out)
}

impl MoeLayer {
    /// Global scales of one projection of every expert, as the kernel takes them.
    pub fn marlin_globals(&self, proj: Projection, factor: u32) -> (r: Vec<u8>)
        requires
            is_power_of_two(factor as int),
        ensures
            is_biased(self.weights.experts@, proj, factor as int, r@),
    {
        let mut vals: Vec<Scalar> = Vec::new();
        let mut e: usize = 0;
        while e < self.weights.experts.len()
            invariant
                e <= self.weights.experts@.len(),
                is_power_of_two(factor as int),
                vals@.len() == e,
                forall|j: int|
                    0 <= j < e ==> biases(
                        proj.of(self.weights.experts@[j]).weight_scale_2,
                        factor as int,
                        #[trigger] vals@[j],
                    ),
            decreases self.weights.experts@.len() - e,
        {
            let w: QuantizedWeight = proj.pick(&self.weights.experts[e]);
            vals.push(process_global(w.weight_scale_2, factor));
            e = e + 1;
        }
        let r: Vec<u8> = f32_slice_bytes(vals.as_slice());
        proof {
            assert forall|e: int| 0 <= e < self.weights.experts@.len() implies biases(
                proj.of(self.weights.experts@[e]).weight_scale_2,
                factor as int,
                Scalar(#[trigger] le_u32(r@, 4 * e) as u32),
            ) by {
                assert(le_u32(r@, 4 * e) == vals@[e].0);
            }
        }
        r
    }
}

/// What the kernel reads beside the packed values.
pub struct MarlinTables {
    pub w13_factor: int,
    pub w2_factor: int,
    pub w13_scales: Seq<u8>,
    pub w2_scales: Seq<u8>,
    pub w13_global: Seq<u8>,
    pub w2_global: Seq<u8>,
}

/// Scales of one projection kind: `logical` under its factor.
pub open spec fn is_table(
    experts: Seq<ExpertWeight>,
    proj: Projection,
    logical: Seq<Vec<u8>>,
    len: int,
    factor: int,
    scales: Seq<u8>,
    global: Seq<u8>,
) -> bool {
    &&& is_scale_factor(logical, factor)
    &&& is_scaled(logical, len, factor, scales)
    &&& is_biased(experts, proj, factor, global)
}

/// `t` holds what the kernel reads, for scales that were read back as `gates`, `ups` and
/// `downs`.
pub open spec fn marlin_tables(
    experts: Seq<ExpertWeight>,
    gates: Seq<Vec<u8>>,
    ups: Seq<Vec<u8>>,
    downs: Seq<Vec<u8>>,
    t: MarlinTables,
) -> bool {
    exists|l13: Seq<Vec<u8>>, l2: Seq<Vec<u8>>| #[trigger]
        is_logical_w13(gates, ups, l13) && #[trigger] is_logical_w2(downs, l2) && is_table(
            experts,
            Projection::Gate,
            l13,
            131_072,
            t.w13_factor,
            t.w13_scales,
            t.w13_global,
        ) && is_table(
            experts,
            Projection::Down,
            l2,
            65_536,
            t.w2_factor,
            t.w2_scales,
            t.w2_global,
        )
}

/// Upload of the tables; the workspace starts out as zero.
pub open spec fn marlin_table_cmds(w: MarlinMoeWeights, t: MarlinTables) -> Seq<Cmd> {
    seq![
        Cmd::Upload { dst: w.w13_scales, bytes: t.w13_scales },
        Cmd::Upload { dst: w.w2_scales, bytes: t.w2_scales },
        Cmd::Upload { dst: w.w13_global, bytes: t.w13_global },
        Cmd::Upload { dst: w.w2_global, bytes: t.w2_global },
        Cmd::Op(DeviceOp::Memset { dst: w.workspace, value: 0, bytes: WORKSPACE_BYTES }),
    ]
}

impl MoeLayer {
    /// Works the scales that were read back into the kernel's layout, records their
    /// upload, and installs the weights. Gives both factors.
    pub fn install_marlin_weights(
        &mut self,
        cb: &mut CommandBuffer,
        w: MarlinMoeWeights,
        gates: &Vec<Vec<u8>>,
        ups: &Vec<Vec<u8>>,
        downs: &Vec<Vec<u8>>,
    ) -> (r: (u32, u32))
        requires
            gates@.len() == old(self).weights.experts@.len(),
            ups@.len() == old(self).weights.experts@.len(),
            downs@.len() == old(self).weights.experts@.len(),
            forall|e: int|
                0 <= e < gates@.len() ==> (#[trigger] gates@[e])@.len() == GATE_UP_SCALE_BYTES,
            forall|e: int| 0 <= e < ups@.len() ==> (#[trigger] ups@[e])@.len() == GATE_UP_SCALE_BYTES,
            forall|e: int| 0 <= e < downs@.len() ==> (#[trigger] downs@[e])@.len() == DOWN_SCALE_BYTES,
        ensures
            exists|t: MarlinTables| #[trigger]
                marlin_tables(old(self).weights.experts@, gates@, ups@, downs@, t) && final(cb)@
                    == old(cb)@ + marlin_table_cmds(w, t) && r.0 == t.w13_factor && r.1
                    == t.w2_factor,
            *final(self) == (MoeLayer { marlin: Some(w), ..*old(self) }),
    {
        let ghost before = cb@;
        let l13: Vec<Vec<u8>> = logical_w13(gates, ups);
        let l2: Vec<Vec<u8>> = logical_w2(downs);
        let (f13, s13): (u32, Vec<u8>) = marlin_scale_bytes(&l13, 131_072);
        let (f2, s2): (u32, Vec<u8>) = marlin_scale_bytes(&l2, 65_536);
        let g13: Vec<u8> = self.marlin_globals(Projection::Gate, f13);
        let g2: Vec<u8> = self.marlin_globals(Projection::Down, f2);
        let ghost t = MarlinTables {
            w13_factor: f13 as int,
            w2_factor: f2 as int,
            w13_scales: s13@,
            w2_scales: s2@,
            w13_global: g13@,
            w2_global: g2@,
        };
        assert(is_table(self.weights.experts@, Projection::Gate, l13@, 131_072, f13 as int, s13@, g13@));
        assert(is_table(self.weights.experts@, Projection::Down, l2@, 65_536, f2 as int, s2@, g2@));
        assert(is_logical_w13(gates@, ups@, l13@) && is_logical_w2(downs@, l2@));
        assert(marlin_tables(self.weights.experts@, gates@, ups@, downs@, t));
        cb.upload(w.w13_scales, s13);
        cb.upload(w.w2_scales, s2);
        cb.upload(w.w13_global, g13);
        cb.upload(w.w2_global, g2);
        cb.op(DeviceOp::Memset { dst: w.workspace, value: 0, bytes: WORKSPACE_BYTES });
        assert(cb@ =~= before + marlin_table_cmds(w, t));
        self.marlin = Some(w);
        (f13, f2)
    }
}

} // verus!
