//! Weights of the fused resident-expert kernel.
//!
//! Packed bytes are copied as they are, only joined into one table per
//! projection. The kernel needs every expert on this device: ranks that hold
//! some of them run the grouped pass.
use crate::context::ModelConfig;
use crate::device::{Cmd, CommandBuffer, DevicePtr, Scalar};
use crate::env::EnvVars;
use crate::moe::b12x_scales::{
    build_sf_tables, f32_slice_bytes, groups_complete, ones, ones_f32_bytes, packs, w2_alpha_of,
    ExpertScaleSrc, SfTables, SfbLayoutMissing, SfbStrategy,
};
use crate::moe::layer::MoeLayer;
use crate::moe::marlin_weights::{all_resident, is_all_resident};
use crate::moe::ptr_tables::scalars_bytes;
use crate::ops_table::DeviceOp;
use crate::weights::{ExpertWeight, QuantizedWeight};
use vstd::prelude::*;

verus! {

/// Re-packed weights of the fused kernel: `[E, 2I, H/2]` with the rows of up
/// before those of gate, and `[E, H, I/2]`.
#[derive(Debug, Clone, Copy, PartialEq, Eq, Structural)]
pub struct B12xMoeWeights {
    pub w13_fp4: DevicePtr,
    pub w13_sf: DevicePtr,
    pub w2_fp4: DevicePtr,
    pub w2_sf: DevicePtr,
    /// Ones: global scales are baked into the block scales.
    pub w1_alpha: DevicePtr,
    pub w2_alpha: DevicePtr,
    pub fc2_gs: DevicePtr,
    /// Rows that the kernel's workspace is sized for.
    pub max_tokens: u32,
}

/// What becomes of a request for the fused kernel.
#[derive(Debug, Clone, Copy, PartialEq, Eq, Structural)]
pub enum B12xEligibility {
    /// Every expert is resident.
    Build,
    /// Experts are streamed, which contradicts the request.
    ErrStreamer,
    /// Experts are spread over ranks; the grouped pass runs.
    SkipEp,
    /// Some expert is a placeholder; the grouped pass runs.
    SkipNullExpert,
}

/// The contradiction with streamed experts.
#[derive(Debug, Clone, Copy, PartialEq, Eq, Structural)]
pub struct StreamedExperts;

/// What becomes of a request for the fused kernel. A streamer outranks the rest.
pub fn eligibility(has_streamer: bool, ep_world_size: usize, any_null_expert: bool) -> (r:
    B12xEligibility)
    ensures
        r is ErrStreamer <==> has_streamer,
        r is SkipEp <==> !has_streamer && ep_world_size > 1,
        r is SkipNullExpert <==> !has_streamer && ep_world_size <= 1 && any_null_expert,
        r is Build <==> !has_streamer && ep_world_size <= 1 && !any_null_expert,
{
    if has_streamer {
        return B12xEligibility::ErrStreamer;
    }
    if ep_world_size > 1 {
        return B12xEligibility::SkipEp;
    }
    if any_null_expert {
        return B12xEligibility::SkipNullExpert;
    }
    B12xEligibility::Build
}

/// Strides of the joined tables.
#[derive(Debug, Clone, Copy, PartialEq, Eq, Structural)]
pub struct B12xGeometry {
    pub experts: usize,
    pub h: usize,
    pub inter: usize,
}

impl B12xGeometry {
    /// Bytes of one gate or up projection.
    pub open spec fn half_bytes(self) -> int {
        self.inter * (self.h as int / 2)
    }

    /// Bytes of one expert in the first table.
    pub open spec fn w13_bytes(self) -> int {
        2 * self.inter * (self.h as int / 2)
    }

    /// Bytes of one expert in the second table.
    pub open spec fn w2_bytes(self) -> int {
        self.h * (self.inter as int / 2)
    }

    pub open spec fn fits(self) -> bool {
        &&& 2 * self.inter <= usize::MAX
        &&& self.w13_bytes() <= usize::MAX
        &&& self.w2_bytes() <= usize::MAX
        &&& self.experts * self.w13_bytes() <= usize::MAX
        &&& self.experts * self.w2_bytes() <= usize::MAX
    }

    /// Bytes of one expert in the first table.
    pub fn w13_stride(&self) -> (r: usize)
        requires
            self.fits(),
        ensures
            r == self.w13_bytes(),
    {
        2 * self.inter * (self.h / 2)
    }

    /// Bytes of one expert in the second table.
    pub fn w2_stride(&self) -> (r: usize)
        requires
            self.fits(),
        ensures
            r == self.w2_bytes(),
    {
        self.h * (self.inter / 2)
    }

    /// Bytes of one gate or up projection.
    pub fn up_bytes(&self) -> (r: usize)
        requires
            self.fits(),
        ensures
            r == self.half_bytes(),
            2 * r == self.w13_bytes(),
    {
        proof {
            lemma_halves(self.inter as int, self.h as int / 2);
        }
        self.inter * (self.h / 2)
    }
}

proof fn lemma_halves(a: int, b: int)
    by (nonlinear_arith)
    requires
        0 <= a,
        0 <= b,
    ensures
        0 <= a * b,
        2 * a * b == 2 * (a * b),
{
}

/// Block scales and global scales of one expert, as they were loaded: `[N, K/16]`.
#[derive(Debug, Clone, Copy, PartialEq, Eq, Structural)]
pub struct RawExpertScales {
    pub up: DevicePtr,
    pub gate: DevicePtr,
    pub down: DevicePtr,
    pub up_ws2: Scalar,
    pub gate_ws2: Scalar,
    pub down_ws2: Scalar,
}

/// Scale sources of one expert.
pub open spec fn raw_scales(x: ExpertWeight) -> RawExpertScales {
    RawExpertScales {
        up: x.up_proj.weight_scale,
        gate: x.gate_proj.weight_scale,
        down: x.down_proj.weight_scale,
        up_ws2: x.up_proj.weight_scale_2,
        gate_ws2: x.gate_proj.weight_scale_2,
        down_ws2: x.down_proj.weight_scale_2,
    }
}

/// Copies of one expert.
pub open spec fn join_expert_cmds(
    x: ExpertWeight,
    g: B12xGeometry,
    e: int,
    w13: DevicePtr,
    w2: DevicePtr,
) -> Seq<Cmd> {
    seq![
        Cmd::Op(
            DeviceOp::CopyD2D {
                src: x.up_proj.weight,
                dst: w13.at(e * g.w13_bytes()),
                bytes: g.half_bytes() as usize,
            },
        ),
        Cmd::Op(
            DeviceOp::CopyD2D {
                src: x.gate_proj.weight,
                dst: w13.at(e * g.w13_bytes() + g.half_bytes()),
                bytes: g.half_bytes() as usize,
            },
        ),
        Cmd::Op(
            DeviceOp::CopyD2D {
                src: x.down_proj.weight,
                dst: w2.at(e * g.w2_bytes()),
                bytes: g.w2_bytes() as usize,
            },
        ),
    ]
}

/// Copies of the first `n` experts.
pub open spec fn join_cmds(
    experts: Seq<ExpertWeight>,
    g: B12xGeometry,
    w13: DevicePtr,
    w2: DevicePtr,
    n: nat,
) -> Seq<Cmd>
    decreases n,
{
    if n == 0 {
        Seq::empty()
    } else {
        join_cmds(experts, g, w13, w2, (n - 1) as nat) + join_expert_cmds(
            experts[n - 1],
            g,
            n - 1,
            w13,
            w2,
        )
    }
}

/// Release of an address, where it is not null.
pub open spec fn release(p: DevicePtr) -> Seq<Cmd> {
    if p.0 != 0 {
        seq![Cmd::Op(DeviceOp::Free { ptr: p })]
    } else {
        Seq::empty()
    }
}

/// Releases of one projection.
pub open spec fn release_proj(w: QuantizedWeight) -> Seq<Cmd> {
    release(w.weight) + release(w.weight_scale)
}

/// Releases of the first `n` experts.
pub open spec fn release_cmds(experts: Seq<ExpertWeight>, n: nat) -> Seq<Cmd>
    decreases n,
{
    if n == 0 {
        Seq::empty()
    } else {
        release_cmds(experts, (n - 1) as nat) + (release_proj(experts[n - 1].gate_proj)
            + release_proj(experts[n - 1].up_proj) + release_proj(experts[n - 1].down_proj))
    }
}

/// A projection whose bytes were released.
pub open spec fn emptied(w: QuantizedWeight) -> QuantizedWeight {
    QuantizedWeight { weight: DevicePtr(0), weight_scale: DevicePtr(0), ..w }
}

/// An expert whose bytes were released.
pub open spec fn emptied_expert(x: ExpertWeight) -> ExpertWeight {
    ExpertWeight {
        gate_proj: emptied(x.gate_proj),
        up_proj: emptied(x.up_proj),
        down_proj: emptied(x.down_proj),
    }
}

fn release_projection(cb: &mut CommandBuffer, w: QuantizedWeight) -> (r: QuantizedWeight)
    ensures
        final(cb)@ == old(cb)@ + release_proj(w),
        r == emptied(w),
{
    let ghost before = cb@;
    if !w.weight.is_null() {
        cb.op(DeviceOp::Free { ptr: w.weight });
    }
    if !w.weight_scale.is_null() {
        cb.op(DeviceOp::Free { ptr: w.weight_scale });
    }
    assert(cb@ =~= before + release_proj(w));
    QuantizedWeight {
        weight: DevicePtr::null(),
        weight_scale: DevicePtr::null(),
        weight_scale_2: w.weight_scale_2,
    }
}

/// Upload of the alphas of all experts: ones for the first product and its result, and
/// `alphas` for the second.
pub open spec fn alpha_cmds(w: B12xMoeWeights, alphas: Seq<Scalar>) -> Seq<Cmd> {
    seq![
        Cmd::Upload { dst: w.w1_alpha, bytes: scalars_bytes(ones(alphas.len())) },
        Cmd::Upload { dst: w.fc2_gs, bytes: scalars_bytes(ones(alphas.len())) },
        Cmd::Upload { dst: w.w2_alpha, bytes: scalars_bytes(alphas) },
        Cmd::Op(DeviceOp::Synchronize),
    ]
}

/// What was read back of one expert's scales, and memory for the baked copies.
#[derive(Debug, PartialEq, Eq)]
pub struct ScaleReadback {
    pub up: Vec<u8>,
    pub gate: Vec<u8>,
    /// Read where [`bakes_w2`] says so.
    pub down: Option<Vec<u8>>,
    pub w13_stage: DevicePtr,
    pub down_stage: DevicePtr,
}

/// Scales of expert `x` as they were read back.
pub open spec fn scale_src(x: ExpertWeight, r: ScaleReadback) -> ExpertScaleSrc {
    ExpertScaleSrc {
        up: r.up,
        gate: r.gate,
        down: x.down_proj.weight_scale,
        down_read: r.down,
        up_ws2: x.up_proj.weight_scale_2,
        gate_ws2: x.gate_proj.weight_scale_2,
        down_ws2: x.down_proj.weight_scale_2,
        w13_stage: r.w13_stage,
        down_stage: r.down_stage,
    }
}

/// Tables of packed scales for the experts of a model, whose scales lie row by row.
pub open spec fn sf_tables(config: &ModelConfig, w13_sf: DevicePtr, w2_sf: DevicePtr) -> SfTables {
    SfTables {
        w13_sf,
        w2_sf,
        h: config.hidden_size,
        inter: config.moe_intermediate_size,
        src_n_major: true,
    }
}

/// Whether the down scales are baked too, for an exact second alpha of one.
pub fn bakes_w2(env: &EnvVars) -> (r: bool)
    ensures
        r == env.says("ATLAS_B12X_BAKE_W2"@, "1"@),
{
    env.is("ATLAS_B12X_BAKE_W2", "1")
}

impl MoeLayer {
    /// Whether the fused kernel's weights are to be built, for a library whose
    /// workspace holds `max_tokens` rows.
    pub fn wants_b12x(&self, config: &ModelConfig, max_tokens: Option<u32>) -> (r: Result<
        bool,
        StreamedExperts,
    >)
        ensures
            r == (if self.has_streamer {
                Err::<bool, StreamedExperts>(StreamedExperts)
            } else {
                Ok::<bool, StreamedExperts>(
                    config.ep_world_size <= 1 && all_resident(self.weights.experts@)
                        && max_tokens is Some,
                )
            }),
    {
        let any_null: bool = !is_all_resident(&self.weights.experts);
        match eligibility(self.has_streamer, config.ep_world_size, any_null) {
            B12xEligibility::ErrStreamer => Err(StreamedExperts),
            B12xEligibility::SkipEp => Ok(false),
            B12xEligibility::SkipNullExpert => Ok(false),
            B12xEligibility::Build => Ok(max_tokens.is_some()),
        }
    }

    /// Strides of the joined tables for this layer's experts.
    pub fn b12x_geometry(&self, config: &ModelConfig) -> (r: B12xGeometry)
        ensures
            r == (B12xGeometry {
                experts: self.weights.experts@.len() as usize,
                h: config.hidden_size,
                inter: config.moe_intermediate_size,
            }),
    {
        B12xGeometry {
            experts: self.weights.experts.len(),
            h: config.hidden_size,
            inter: config.moe_intermediate_size,
        }
    }

    /// Where the block scales of each expert are read from. This has to happen
    /// before the weights that hold them are transposed or released.
    pub fn b12x_scale_sources(&self) -> (r: Vec<RawExpertScales>)
        ensures
            r@ == self.weights.experts@.map_values(|x: ExpertWeight| raw_scales(x)),
    {
        let mut out: Vec<RawExpertScales> = Vec::new();
        let mut e: usize = 0;
        while e < self.weights.experts.len()
            invariant
                e <= self.weights.experts@.len(),
                out@ == self.weights.experts@.take(e as int).map_values(
                    |x: ExpertWeight| raw_scales(x),
                ),
            decreases self.weights.experts@.len() - e,
        {
            let x: ExpertWeight = self.weights.experts[e];
            out.push(
                RawExpertScales {
                    up: x.up_proj.weight_scale,
                    gate: x.gate_proj.weight_scale,
                    down: x.down_proj.weight_scale,
                    up_ws2: x.up_proj.weight_scale_2,
                    gate_ws2: x.gate_proj.weight_scale_2,
                    down_ws2: x.down_proj.weight_scale_2,
                },
            );
            e = e + 1;
            assert(out@ =~= self.weights.experts@.take(e as int).map_values(
                |x: ExpertWeight| raw_scales(x),
            ));
        }
        assert(self.weights.experts@.take(e as int) =~= self.weights.experts@);
        out
    }

    /// Records the copies that join all experts into the two tables.
    pub fn join_b12x_weights(
        &self,
        cb: &mut CommandBuffer,
        g: B12xGeometry,
        w13: DevicePtr,
        w2: DevicePtr,
    )
        requires
            g.fits(),
            g.experts == self.weights.experts@.len(),
            w13.spans(g.experts * g.w13_bytes()),
            w2.spans(g.experts * g.w2_bytes()),
        ensures
            final(cb)@ == old(cb)@ + join_cmds(
                self.weights.experts@,
                g,
                w13,
                w2,
                self.weights.experts@.len(),
            ),
    {
        let ghost before = cb@;
        let experts: &Vec<ExpertWeight> = &self.weights.experts;
        let n: usize = experts.len();
        let s13: usize = g.w13_stride();
        let s2: usize = g.w2_stride();
        let half: usize = g.up_bytes();
        let mut e: usize = 0;
        assert(cb@ =~= before + join_cmds(experts@, g, w13, w2, 0));
        while e < n
            invariant
                e <= n,
                n == experts@.len(),
                n == g.experts,
                g.fits(),
                s13 == g.w13_bytes(),
                s2 == g.w2_bytes(),
                half == g.half_bytes(),
                2 * half == s13,
                w13.spans(n * s13),
                w2.spans(n * s2),
                cb@ == before + join_cmds(experts@, g, w13, w2, e as nat),
            decreases n - e,
        {
            let x: ExpertWeight = experts[e];
            proof {
                crate::num::lemma_row_in(e as int, n as int, s13 as int);
                crate::num::lemma_row_in(e as int, n as int, s2 as int);
            }
            cb.op(
                DeviceOp::CopyD2D { src: x.up_proj.weight, dst: w13.offset(e * s13), bytes: half },
            );
            cb.op(
                DeviceOp::CopyD2D {
                    src: x.gate_proj.weight,
                    dst: w13.offset(e * s13 + half),
                    bytes: half,
                },
            );
            cb.op(DeviceOp::CopyD2D { src: x.down_proj.weight, dst: w2.offset(e * s2), bytes: s2 });
            assert(cb@ =~= before + join_cmds(experts@, g, w13, w2, (e + 1) as nat));
            e = e + 1;
        }
    }

    /// Bakes the scales of expert `e`, records their upload and packing into the tables
    /// at `w13_sf` and `w2_sf`, and gives its second alpha.
    pub fn pack_b12x_scales(
        &self,
        cb: &mut CommandBuffer,
        config: &ModelConfig,
        e: usize,
        r: ScaleReadback,
        w13_sf: DevicePtr,
        w2_sf: DevicePtr,
        strat: SfbStrategy,
        env: &EnvVars,
    ) -> (alpha: Result<Scalar, SfbLayoutMissing>)
        requires
            e < self.weights.experts@.len(),
            r.down is Some <==> env.says("ATLAS_B12X_BAKE_W2"@, "1"@),
            sf_tables(config, w13_sf, w2_sf).fits(e + 1),
        ensures
            alpha is Ok <==> strat == SfbStrategy::ConcatReuse,
            alpha is Err ==> final(cb)@ == old(cb)@,
            alpha matches Ok(a) ==> {
                let s = scale_src(self.weights.experts@[e as int], r);
                &&& packs(
                    sf_tables(config, w13_sf, w2_sf),
                    seq![s],
                    e as int,
                    old(cb)@,
                    final(cb)@,
                )
                &&& a == w2_alpha_of(s)
            },
    {
        let x: ExpertWeight = self.weights.experts[e];
        let t = SfTables {
            w13_sf,
            w2_sf,
            h: config.hidden_size,
            inter: config.moe_intermediate_size,
            src_n_major: true,
        };
        let s = ExpertScaleSrc {
            up: r.up,
            gate: r.gate,
            down: x.down_proj.weight_scale,
            down_read: r.down,
            up_ws2: x.up_proj.weight_scale_2,
            gate_ws2: x.gate_proj.weight_scale_2,
            down_ws2: x.down_proj.weight_scale_2,
            w13_stage: r.w13_stage,
            down_stage: r.down_stage,
        };
        let ghost src = s;
        let mut all: Vec<ExpertScaleSrc> = Vec::new();
        all.push(s);
        assert(all@ =~= seq![src]);
        assert(groups_complete(t, src));
        assert(e < self.weights.experts.len() <= usize::MAX);
        match build_sf_tables(cb, t, e, all.as_slice(), strat) {
            Ok(alphas) => {
                assert(alphas@[0] == w2_alpha_of(src));
                Ok(alphas[0])
            },
            Err(m) => Err(m),
        }
    }

    /// Records the upload of the alphas, installs the joined weights and records the
    /// release of the experts' own, which nothing reads any more. `alphas` are the
    /// second alphas of all experts.
    pub fn install_b12x_weights(
        &mut self,
        cb: &mut CommandBuffer,
        w: B12xMoeWeights,
        alphas: &Vec<Scalar>,
    )
        requires
            alphas@.len() == old(self).weights.experts@.len(),
        ensures
            final(self).b12x == Some(w),
            final(self).weights.experts@ == old(self).weights.experts@.map_values(
                |x: ExpertWeight| emptied_expert(x),
            ),
            *final(self) == (MoeLayer {
                b12x: Some(w),
                weights: crate::moe::layer::MoeWeights {
                    experts: final(self).weights.experts,
                    ..old(self).weights
                },
                ..*old(self)
            }),
            final(cb)@ == old(cb)@ + alpha_cmds(w, alphas@) + release_cmds(
                old(self).weights.experts@,
                old(self).weights.experts@.len(),
            ),
    {
        let ghost start = cb@;
        let count: usize = alphas.len();
        cb.upload(w.w1_alpha, ones_f32_bytes(count));
        cb.upload(w.fc2_gs, ones_f32_bytes(count));
        cb.upload(w.w2_alpha, f32_slice_bytes(alphas.as_slice()));
        cb.op(DeviceOp::Synchronize);
        assert(cb@ =~= start + alpha_cmds(w, alphas@));
        let ghost before = cb@;
        let ghost was = self.weights.experts@;
        let ghost entry = *self;
        self.b12x = Some(w);
        let n: usize = self.weights.experts.len();
        let mut e: usize = 0;
        assert(cb@ =~= before + release_cmds(was, 0));
        while e < n
            invariant
                e <= n,
                n == was.len(),
                self.weights.experts@.len() == n,
                forall|j: int|
                    0 <= j < e ==> #[trigger] self.weights.experts@[j] == emptied_expert(was[j]),
                forall|j: int| e <= j < n ==> #[trigger] self.weights.experts@[j] == was[j],
                *self == (MoeLayer {
                    b12x: Some(w),
                    weights: crate::moe::layer::MoeWeights {
                        experts: self.weights.experts,
                        ..entry.weights
                    },
                    ..entry
                }),
                cb@ == before + release_cmds(was, e as nat),
            decreases n - e,
        {
            let x: ExpertWeight = self.weights.experts[e];
            let gate_proj: QuantizedWeight = release_projection(cb, x.gate_proj);
            let up_proj: QuantizedWeight = release_projection(cb, x.up_proj);
            let down_proj: QuantizedWeight = release_projection(cb, x.down_proj);
            self.weights.experts.set(e, ExpertWeight { gate_proj, up_proj, down_proj });
            assert(cb@ =~= before + release_cmds(was, (e + 1) as nat));
            e = e + 1;
        }
        assert(self.weights.experts@ =~= was.map_values(|x: ExpertWeight| emptied_expert(x)));
    }
}

/// In the first table the bytes of up come before those of gate, and no two
/// pieces of it overlap.
pub proof fn law_joined_pieces_are_disjoint(g: B12xGeometry, e: int, f: int)
    requires
        g.fits(),
        0 <= e < f < g.experts,
    ensures
        e * g.w13_bytes() + 2 * g.half_bytes() <= f * g.w13_bytes(),
        f * g.w13_bytes() + 2 * g.half_bytes() <= g.experts * g.w13_bytes(),
        e * g.w2_bytes() + g.w2_bytes() <= f * g.w2_bytes(),
{
    lemma_halves(g.inter as int, g.h as int / 2);
    lemma_step(e, f, g.w13_bytes());
    lemma_step(f, g.experts as int, g.w13_bytes());
    assert(g.w2_bytes() >= 0) by (nonlinear_arith)
        requires
            g.w2_bytes() == g.h * (g.inter as int / 2),
            g.h >= 0,
            g.inter as int / 2 >= 0,
    ;
    lemma_step(e, f, g.w2_bytes());
}

proof fn lemma_step(e: int, f: int, s: int)
    by (nonlinear_arith)
    requires
        0 <= e < f,
        0 <= s,
    ensures
        e * s + s <= f * s,
{
}

} // verus!
