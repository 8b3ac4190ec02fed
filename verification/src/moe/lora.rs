//! Adapters of a mixture-of-experts layer.
//!
//! A delta is folded onto the results of the unadapted products, in prefill only.
//! What cannot be folded is refused, never dropped.
use crate::context::{ForwardContext, MoeLoraRoute};
use crate::device::{Cmd, CommandBuffer, DevicePtr, Scalar};
use crate::env::EnvVars;
use crate::moe::b12x_scales::f32_slice_bytes;
use crate::moe::layer::MoeLayer;
use crate::moe::ptr_tables::scalars_bytes;
use crate::moe::stream_tables::{encode_u64s, law_pointers_round_trip, u64s_bytes};
use crate::num::{le_u32, le_u64, max_int};
use crate::ops::lora_delta::{LoraKernels, LoraPair};
use crate::ops::moe_lora_grouped::{pack_expert_tables, ExpertEntry, ExpertTables};
use crate::ops_table::DeviceOp;
use crate::ssm::layer::Qwen3SsmLayer;
use crate::text::{decimal, lemma_decimal_nonneg, parse_u32};
use vstd::prelude::*;

verus! {

/// Device tables of the experts' down adapters.
#[derive(Debug, Clone, Copy, PartialEq, Eq, Structural)]
pub struct MoeExpertRoute {
    pub a_table: DevicePtr,
    pub b_table: DevicePtr,
    pub scale_table: DevicePtr,
    pub n_experts: u32,
    pub k_in: u32,
    pub n_out: u32,
    pub max_rank: u32,
}

/// Installed adapters and the scratch they are applied with.
#[derive(Debug, Clone, Copy, PartialEq, Eq, Structural)]
pub struct MoeLoraWeights {
    pub router: Option<LoraPair>,
    pub kernels: LoraKernels,
    /// Rows that the scratch holds.
    pub cap: u32,
    pub xa: DevicePtr,
    pub delta: DevicePtr,
    pub expert_route: Option<MoeExpertRoute>,
}

/// A projection of an expert.
#[derive(Debug, Clone, Copy, PartialEq, Eq, Structural)]
pub enum ExpertProj {
    Gate,
    Up,
    Down,
}

/// An adapted projection of one expert.
#[derive(Debug, Clone, Copy, PartialEq, Eq, Structural)]
pub struct ExpertPair {
    pub expert: u16,
    pub proj: ExpertProj,
    pub pair: LoraPair,
}

/// Adapted projections of a layer's experts.
#[derive(Debug, PartialEq, Eq)]
pub struct ExpertLoraLayer {
    pub pairs: Vec<ExpertPair>,
}

/// Why an adapter was refused.
#[derive(Debug, Clone, Copy, PartialEq, Eq, Structural)]
pub enum MoeLoraError {
    /// Only down projections are folded.
    NotDown { expert: u16, proj: ExpertProj },
    /// Rows of this pass do not all belong to the installed adapter.
    MixedRows,
    /// More sorted rows than the scratch holds.
    OverCapacity { rows: u32, cap: u32 },
    /// Decode does not fold adapters.
    Decode,
    /// The feed-forward block is not a mixture of experts.
    NotMoe,
}

/// Rows that the scratch holds: what the environment says, else 4096.
pub open spec fn lora_cap(env: &EnvVars) -> u32 {
    match env.value("ATLAS_LORA_EXPERT_MAX_TOKENS"@) {
        Some(v) => match decimal(vstd::utf8::encode_utf8(v)) {
            Some(t) => if 0 < t <= u32::MAX {
                t as u32
            } else {
                4096
            },
            None => 4096,
        },
        None => 4096,
    }
}

/// Rows that the scratch holds.
pub fn max_tokens(env: &EnvVars) -> (r: u32)
    ensures
        r == lora_cap(env),
        r > 0,
{
    match env.get("ATLAS_LORA_EXPERT_MAX_TOKENS") {
        Some(s) => {
            proof {
                lemma_decimal_nonneg(vstd::utf8::encode_utf8(s@));
            }
            match parse_u32(s) {
                Some(t) => if t > 0 {
                    t
                } else {
                    4096
                },
                None => 4096,
            }
        },
        None => 4096,
    }
}

/// Columns of the expand scratch. Only two products write it: the router's, of
/// `router_n_out` columns, and the recomputed input of the down projections, of
/// `down_k_in` columns.
pub fn lora_delta_cols(router_n_out: Option<u32>, down_k_in: Option<u32>) -> (r: usize)
    ensures
        r == delta_cols(router_n_out, down_k_in),
{
    let a: u32 = match router_n_out {
        Some(n) => n,
        None => 0,
    };
    let b: u32 = match down_k_in {
        Some(k) => k,
        None => 0,
    };
    let m: u32 = if a > b {
        a
    } else {
        b
    };
    if m < 1 {
        1
    } else {
        m as usize
    }
}

/// Columns of the expand scratch.
pub open spec fn delta_cols(router_n_out: Option<u32>, down_k_in: Option<u32>) -> int {
    let a = match router_n_out {
        Some(n) => n as int,
        None => 0,
    };
    let b = match down_k_in {
        Some(k) => k as int,
        None => 0,
    };
    max_int(max_int(a, b), 1)
}

/// The router's adapter as the only entry of an expert table.
pub fn router_expert_entry(rp: &LoraPair) -> (r: ExpertEntry)
    ensures
        r.0 == 0,
        r.1 == rp.a.weight.0,
        r.2 == rp.b.weight.0,
        r.3 == rp.scale,
{
    (0, rp.a.weight.0, rp.b.weight.0, rp.scale)
}

/// The table entry of an adapted expert.
pub open spec fn entry_of(p: ExpertPair) -> ExpertEntry {
    (p.expert, p.pair.a.weight.0, p.pair.b.weight.0, p.pair.scale)
}

/// Every adapted projection is a down projection.
pub open spec fn all_down(pairs: Seq<ExpertPair>) -> bool {
    forall|i: int| 0 <= i < pairs.len() ==> (#[trigger] pairs[i]).proj == ExpertProj::Down
}

/// Largest padded rank among the first `n` adapters.
pub open spec fn max_rank_of(router: Option<LoraPair>, pairs: Seq<ExpertPair>, n: nat) -> int
    decreases n,
{
    if n == 0 {
        match router {
            Some(p) => p.max_rank as int,
            None => 0,
        }
    } else {
        max_int(max_rank_of(router, pairs, (n - 1) as nat), pairs[n - 1].pair.max_rank as int)
    }
}

/// Bytes of the three device tables and what the kernels need to know of them.
#[derive(Debug, PartialEq, Eq)]
pub struct RouteTables {
    pub a_bytes: Vec<u8>,
    pub b_bytes: Vec<u8>,
    pub scale_bytes: Vec<u8>,
    pub n_experts: u32,
    pub k_in: u32,
    pub n_out: u32,
    pub max_rank: u32,
}

/// Row `e` of encoded tables.
pub open spec fn encoded_row(r: RouteTables, e: int) -> (int, int, int) {
    (le_u64(r.a_bytes@, 8 * e), le_u64(r.b_bytes@, 8 * e), le_u32(r.scale_bytes@, 4 * e))
}

/// The table entries of adapted experts.
pub open spec fn entries_of(pairs: Seq<ExpertPair>) -> Seq<ExpertEntry> {
    pairs.map_values(|p: ExpertPair| entry_of(p))
}

/// Rows of the tables: one for every expert up to the largest adapted one.
pub open spec fn table_len(pairs: Seq<ExpertPair>) -> int {
    crate::ops::moe_lora_grouped::max_expert(entries_of(pairs), pairs.len()) + 1
}

/// The row of expert `e`, zero where it is not adapted.
pub open spec fn table_row(pairs: Seq<ExpertPair>, e: int) -> (u64, u64, Scalar) {
    crate::ops::moe_lora_grouped::row_of(
        crate::ops::moe_lora_grouped::entry_for(entries_of(pairs), e, pairs.len()),
    )
}

/// Addresses of the first tensors by expert.
pub open spec fn a_table_of(pairs: Seq<ExpertPair>) -> Seq<u64> {
    Seq::new(table_len(pairs) as nat, |e: int| table_row(pairs, e).0)
}

/// Addresses of the second tensors by expert.
pub open spec fn b_table_of(pairs: Seq<ExpertPair>) -> Seq<u64> {
    Seq::new(table_len(pairs) as nat, |e: int| table_row(pairs, e).1)
}

/// Scales by expert.
pub open spec fn scale_table_of(pairs: Seq<ExpertPair>) -> Seq<Scalar> {
    Seq::new(table_len(pairs) as nat, |e: int| table_row(pairs, e).2)
}

/// Tables that `experts` encode to, and the dimensions of its first pair.
pub open spec fn route_encodes(r: RouteTables, pairs: Seq<ExpertPair>) -> bool {
    &&& r.n_experts == table_len(pairs)
    &&& r.a_bytes@ == u64s_bytes(a_table_of(pairs))
    &&& r.b_bytes@ == u64s_bytes(b_table_of(pairs))
    &&& r.scale_bytes@ == scalars_bytes(scale_table_of(pairs))
    &&& r.a_bytes@.len() == 8 * r.n_experts
    &&& r.b_bytes@.len() == 8 * r.n_experts
    &&& r.scale_bytes@.len() == 4 * r.n_experts
    &&& r.k_in == pairs[0].pair.k_in
    &&& r.n_out == pairs[0].pair.n_out
    &&& r.max_rank == pairs[0].pair.max_rank
    &&& forall|e: int|
        0 <= e < r.n_experts ==> {
            let row = table_row(pairs, e);
            #[trigger] encoded_row(r, e) == (row.0 as int, row.1 as int, row.2.0 as int)
        }
}

/// Sizes and tables of an adapter that can be installed.
#[derive(Debug, PartialEq, Eq)]
pub struct MoeLoraPlan {
    pub cap: u32,
    pub xa_bytes: usize,
    pub delta_bytes: usize,
    pub route: Option<RouteTables>,
}

/// Device memory of an adapter: scratch and the three tables, where there are any.
#[derive(Debug, Clone, Copy, PartialEq, Eq, Structural)]
pub struct MoeLoraMemory {
    pub xa: DevicePtr,
    pub delta: DevicePtr,
    pub a_table: DevicePtr,
    pub b_table: DevicePtr,
    pub scale_table: DevicePtr,
}

fn largest_rank(router: Option<LoraPair>, pairs: &Vec<ExpertPair>) -> (r: u32)
    ensures
        r == max_rank_of(router, pairs@, pairs@.len()),
{
    let mut best: u32 = match router {
        Some(p) => p.max_rank,
        None => 0,
    };
    let mut i: usize = 0;
    while i < pairs.len()
        invariant
            i <= pairs@.len(),
            best == max_rank_of(router, pairs@, i as nat),
        decreases pairs@.len() - i,
    {
        if pairs[i].pair.max_rank > best {
            best = pairs[i].pair.max_rank;
        }
        i = i + 1;
    }
    best
}

fn first_not_down(pairs: &Vec<ExpertPair>) -> (r: Option<usize>)
    ensures
        match r {
            None => all_down(pairs@),
            Some(i) => i < pairs@.len() && pairs@[i as int].proj != ExpertProj::Down && forall|j: int|
                0 <= j < i ==> (#[trigger] pairs@[j]).proj == ExpertProj::Down,
        },
{
    let mut i: usize = 0;
    while i < pairs.len()
        invariant
            i <= pairs@.len(),
            forall|j: int| 0 <= j < i ==> (#[trigger] pairs@[j]).proj == ExpertProj::Down,
        decreases pairs@.len() - i,
    {
        if pairs[i].proj != ExpertProj::Down {
            return Some(i);
        }
        i = i + 1;
    }
    None
}

/// Encodes the tables of down adapters by expert id; none without any.
pub fn build_expert_route(pairs: &Vec<ExpertPair>) -> (r: Option<RouteTables>)
    requires
        all_down(pairs@),
    ensures
        r is None <==> pairs@.len() == 0,
        r matches Some(t) ==> route_encodes(t, pairs@),
{
    let mut entries: Vec<ExpertEntry> = Vec::new();
    let mut i: usize = 0;
    while i < pairs.len()
        invariant
            i <= pairs@.len(),
            entries@ == pairs@.take(i as int).map_values(|p: ExpertPair| entry_of(p)),
        decreases pairs@.len() - i,
    {
        let p: ExpertPair = pairs[i];
        entries.push((p.expert, p.pair.a.weight.0, p.pair.b.weight.0, p.pair.scale));
        i = i + 1;
        assert(entries@ =~= pairs@.take(i as int).map_values(|p: ExpertPair| entry_of(p)));
    }
    assert(pairs@.take(i as int) =~= pairs@);
    let tables: ExpertTables = match pack_expert_tables(entries.as_slice()) {
        Some(t) => t,
        None => {
            return None;
        },
    };
    let sample: LoraPair = pairs[0].pair;
    let a_bytes: Vec<u8> = encode_u64s(&tables.a);
    let b_bytes: Vec<u8> = encode_u64s(&tables.b);
    let scale_bytes: Vec<u8> = f32_slice_bytes(tables.scale.as_slice());
    let r = RouteTables {
        a_bytes,
        b_bytes,
        scale_bytes,
        n_experts: tables.n_experts,
        k_in: sample.k_in,
        n_out: sample.n_out,
        max_rank: sample.max_rank,
    };
    proof {
        assert(entries@ =~= entries_of(pairs@));
        assert forall|e: int| 0 <= e < r.n_experts implies #[trigger] tables.row(e) == table_row(
            pairs@,
            e,
        ) by {}
        assert forall|e: int| 0 <= e < r.n_experts implies tables.a@[e] == table_row(pairs@, e).0
            && tables.b@[e] == table_row(pairs@, e).1 && tables.scale@[e] == table_row(
            pairs@,
            e,
        ).2 by {
            assert(tables.row(e) == table_row(pairs@, e));
        }
        assert(tables.a@ =~= a_table_of(pairs@));
        assert(tables.b@ =~= b_table_of(pairs@));
        assert(tables.scale@ =~= scale_table_of(pairs@));
        law_pointers_round_trip(tables.a@, 0);
        law_pointers_round_trip(tables.b@, 0);
        assert forall|e: int| 0 <= e < r.n_experts implies ({
            let row = table_row(pairs@, e);
            #[trigger] encoded_row(r, e) == (row.0 as int, row.1 as int, row.2.0 as int)
        }) by {
            assert(tables.row(e) == table_row(pairs@, e));
            law_pointers_round_trip(tables.a@, e);
            law_pointers_round_trip(tables.b@, e);
            assert(le_u32(r.scale_bytes@, 4 * e) == tables.scale@[e].0);
        }
    }
    Some(r)
}

/// There is no router and no expert to adapt.
pub open spec fn adapts_nothing(router: Option<LoraPair>, pairs: Seq<ExpertPair>) -> bool {
    router is None && pairs.len() == 0
}

/// `e` names one of the adapted projections that is no down projection.
pub open spec fn names_other(pairs: Seq<ExpertPair>, e: MoeLoraError) -> bool {
    exists|i: int|
        #![trigger pairs[i]]
        0 <= i < pairs.len() && pairs[i].proj != ExpertProj::Down && e == (MoeLoraError::NotDown {
            expert: pairs[i].expert,
            proj: pairs[i].proj,
        })
}

/// Bytes of the shrink scratch of `cap` rows.
pub open spec fn xa_len(router: Option<LoraPair>, pairs: Seq<ExpertPair>, cap: u32) -> int {
    cap * max_int(max_rank_of(router, pairs, pairs.len()), 1) * 2
}

/// Bytes of the expand scratch of `cap` rows.
pub open spec fn delta_len(router: Option<LoraPair>, pairs: Seq<ExpertPair>, cap: u32) -> int {
    cap * planned_delta_cols(router, pairs) * 2
}

/// Both scratch buffers have sizes.
pub open spec fn scratch_fits(router: Option<LoraPair>, pairs: Seq<ExpertPair>, cap: u32) -> bool {
    xa_len(router, pairs, cap) <= usize::MAX && delta_len(router, pairs, cap) <= usize::MAX
}

/// Sizes and tables of an adapter, nothing where it adapts nothing.
pub fn plan_lora(router: Option<LoraPair>, experts: &ExpertLoraLayer, env: &EnvVars) -> (r: Result<
    Option<MoeLoraPlan>,
    MoeLoraError,
>)
    requires
        all_down(experts.pairs@) ==> scratch_fits(router, experts.pairs@, lora_cap(env)),
    ensures
        if adapts_nothing(router, experts.pairs@) {
            r == Ok::<Option<MoeLoraPlan>, MoeLoraError>(None)
        } else if !all_down(experts.pairs@) {
            r matches Err(e) && names_other(experts.pairs@, e)
        } else {
            r matches Ok(Some(p)) && p.cap == lora_cap(env) && p.xa_bytes == xa_len(
                router,
                experts.pairs@,
                p.cap,
            ) && p.delta_bytes == delta_len(router, experts.pairs@, p.cap) && (
            match p.route {
                None => experts.pairs@.len() == 0,
                Some(t) => experts.pairs@.len() > 0 && route_encodes(t, experts.pairs@),
            })
        },
{
    if router.is_none() && experts.pairs.len() == 0 {
        return Ok(None);
    }
    if let Some(i) = first_not_down(&experts.pairs) {
        let p: ExpertPair = experts.pairs[i];
        return Err(MoeLoraError::NotDown { expert: p.expert, proj: p.proj });
    }
    let rank: u32 = largest_rank(router, &experts.pairs);
    let rank: u32 = if rank < 1 {
        1
    } else {
        rank
    };
    let router_n: Option<u32> = match router {
        Some(p) => Some(p.n_out),
        None => None,
    };
    let down_k: Option<u32> = if experts.pairs.len() > 0 {
        Some(experts.pairs[0].pair.k_in)
    } else {
        None
    };
    let cols: usize = lora_delta_cols(router_n, down_k);
    let cap: u32 = max_tokens(env);
    proof {
        crate::device::lemma_row_bound(cap as int, cap as int, rank as int, 2);
        crate::device::lemma_row_bound(cap as int, cap as int, cols as int, 2);
    }
    let route: Option<RouteTables> = build_expert_route(&experts.pairs);
    Ok(
        Some(
            MoeLoraPlan {
                cap,
                xa_bytes: cap as usize * rank as usize * 2,
                delta_bytes: cap as usize * cols * 2,
                route,
            },
        ),
    )
}

/// Columns of an adapter's expand scratch.
pub open spec fn planned_delta_cols(router: Option<LoraPair>, pairs: Seq<ExpertPair>) -> int {
    delta_cols(
        match router {
            Some(p) => Some(p.n_out),
            None => None,
        },
        if pairs.len() > 0 {
            Some(pairs[0].pair.k_in)
        } else {
            None
        },
    )
}

/// What an adapter with scratch of `cap` rows is installed as.
pub open spec fn installed(
    router: Option<LoraPair>,
    pairs: Seq<ExpertPair>,
    cap: u32,
    kernels: LoraKernels,
    mem: MoeLoraMemory,
) -> Option<MoeLoraWeights> {
    if adapts_nothing(router, pairs) {
        None
    } else {
        Some(
            MoeLoraWeights {
                router,
                kernels,
                cap,
                xa: mem.xa,
                delta: mem.delta,
                expert_route: if pairs.len() == 0 {
                    None
                } else {
                    Some(
                        MoeExpertRoute {
                            a_table: mem.a_table,
                            b_table: mem.b_table,
                            scale_table: mem.scale_table,
                            n_experts: table_len(pairs) as u32,
                            k_in: pairs[0].pair.k_in,
                            n_out: pairs[0].pair.n_out,
                            max_rank: pairs[0].pair.max_rank,
                        },
                    )
                },
            },
        )
    }
}

/// Clearing of an adapter's scratch, and the upload of its experts' tables where it
/// adapts any.
pub open spec fn install_cmds(
    router: Option<LoraPair>,
    pairs: Seq<ExpertPair>,
    cap: u32,
    mem: MoeLoraMemory,
) -> Seq<Cmd> {
    if adapts_nothing(router, pairs) {
        Seq::empty()
    } else {
        seq![
            Cmd::Op(
                DeviceOp::Memset {
                    dst: mem.xa,
                    value: 0,
                    bytes: xa_len(router, pairs, cap) as usize,
                },
            ),
            Cmd::Op(
                DeviceOp::Memset {
                    dst: mem.delta,
                    value: 0,
                    bytes: delta_len(router, pairs, cap) as usize,
                },
            ),
        ] + (if pairs.len() == 0 {
            Seq::empty()
        } else {
            seq![
                Cmd::Upload { dst: mem.a_table, bytes: u64s_bytes(a_table_of(pairs)) },
                Cmd::Upload { dst: mem.b_table, bytes: u64s_bytes(b_table_of(pairs)) },
                Cmd::Upload { dst: mem.scale_table, bytes: scalars_bytes(scale_table_of(pairs)) },
            ]
        })
    }
}

impl MoeLayer {
    /// Installs an adapter in `mem`, memory of the sizes that [`plan_lora`] gives, or
    /// removes the installed one where there is nothing to adapt. The scratch starts out
    /// as zero, and the experts' tables are filled.
    pub fn set_lora_weights(
        &mut self,
        cb: &mut CommandBuffer,
        router: Option<LoraPair>,
        experts: &ExpertLoraLayer,
        kernels: LoraKernels,
        mem: MoeLoraMemory,
        env: &EnvVars,
    ) -> (r: Result<(), MoeLoraError>)
        requires
            all_down(experts.pairs@) ==> scratch_fits(router, experts.pairs@, lora_cap(env)),
        ensures
            all_down(experts.pairs@) ==> r is Ok && *final(self) == (MoeLayer {
                lora: installed(router, experts.pairs@, lora_cap(env), kernels, mem),
                ..*old(self)
            }) && final(cb)@ == old(cb)@ + install_cmds(router, experts.pairs@, lora_cap(env), mem),
            !all_down(experts.pairs@) ==> (r matches Err(e) && names_other(experts.pairs@, e))
                && *final(self) == *old(self) && final(cb)@ == old(cb)@,
    {
        let ghost before = cb@;
        let ghost pairs = experts.pairs@;
        let plan: Option<MoeLoraPlan> = match plan_lora(router, experts, env) {
            Ok(p) => p,
            Err(e) => {
                return Err(e);
            },
        };
        match plan {
            None => {
                self.lora = None;
            },
            Some(p) => {
                cb.op(DeviceOp::Memset { dst: mem.xa, value: 0, bytes: p.xa_bytes });
                cb.op(DeviceOp::Memset { dst: mem.delta, value: 0, bytes: p.delta_bytes });
                let expert_route: Option<MoeExpertRoute> = match p.route {
                    Some(t) => {
                        cb.upload(mem.a_table, t.a_bytes);
                        cb.upload(mem.b_table, t.b_bytes);
                        cb.upload(mem.scale_table, t.scale_bytes);
                        Some(
                            MoeExpertRoute {
                                a_table: mem.a_table,
                                b_table: mem.b_table,
                                scale_table: mem.scale_table,
                                n_experts: t.n_experts,
                                k_in: t.k_in,
                                n_out: t.n_out,
                                max_rank: t.max_rank,
                            },
                        )
                    },
                    None => None,
                };
                self.lora =
                Some(
                    MoeLoraWeights {
                        router,
                        kernels,
                        cap: p.cap,
                        xa: mem.xa,
                        delta: mem.delta,
                        expert_route,
                    },
                );
            },
        }
        assert(cb@ =~= before + install_cmds(router, pairs, lora_cap(env), mem));
        Ok(())
    }

    /// Whether the adapter is folded in this pass.
    pub fn moe_route_gate(&self, ctx: &ForwardContext) -> (r: Result<bool, MoeLoraError>)
        ensures
            r == (match ctx.moe_lora_route {
                MoeLoraRoute::Fold => Ok::<bool, MoeLoraError>(true),
                MoeLoraRoute::Skip => Ok::<bool, MoeLoraError>(false),
                MoeLoraRoute::Refuse => Err::<bool, MoeLoraError>(MoeLoraError::MixedRows),
            }),
    {
        match ctx.moe_lora_route {
            MoeLoraRoute::Fold => Ok(true),
            MoeLoraRoute::Skip => Ok(false),
            MoeLoraRoute::Refuse => Err(MoeLoraError::MixedRows),
        }
    }

    /// The router's adapter, where one is installed.
    pub open spec fn router_lora(&self) -> Option<LoraPair> {
        match self.lora {
            Some(l) => l.router,
            None => None,
        }
    }

    /// Tables of the experts' adapters, where they are installed.
    pub open spec fn expert_lora(&self) -> Option<MoeExpertRoute> {
        match self.lora {
            Some(l) => l.expert_route,
            None => None,
        }
    }

    /// Records the fold of the router's adapter into `n` rows of logits, before the
    /// choice of experts.
    pub fn apply_router_lora_prefill(
        &self,
        cb: &mut CommandBuffer,
        router_in: DevicePtr,
        gate_logits: DevicePtr,
        n: u32,
        ctx: &ForwardContext,
    ) -> (r: Result<(), MoeLoraError>)
        ensures
            match self.router_lora() {
                None => r is Ok && final(cb)@ == old(cb)@,
                Some(pair) => match ctx.moe_lora_route {
                    MoeLoraRoute::Refuse => r == Err::<(), MoeLoraError>(MoeLoraError::MixedRows)
                        && final(cb)@ == old(cb)@,
                    MoeLoraRoute::Skip => r is Ok && final(cb)@ == old(cb)@,
                    MoeLoraRoute::Fold => r is Ok && final(cb)@ == old(cb)@.push(
                        Cmd::Op(
                            DeviceOp::RouterLora {
                                kernels: self.lora.unwrap().kernels,
                                pair,
                                input: router_in,
                                logits: gate_logits,
                                rows: n,
                                cap: self.lora.unwrap().cap,
                                xa: self.lora.unwrap().xa,
                                delta: self.lora.unwrap().delta,
                            },
                        ),
                    ),
                },
            },
    {
        let l: MoeLoraWeights = match self.lora {
            Some(l) => l,
            None => {
                return Ok(());
            },
        };
        let pair: LoraPair = match l.router {
            Some(p) => p,
            None => {
                return Ok(());
            },
        };
        match self.moe_route_gate(ctx) {
            Ok(true) => {
                cb.op(
                    DeviceOp::RouterLora {
                        kernels: l.kernels,
                        pair,
                        input: router_in,
                        logits: gate_logits,
                        rows: n,
                        cap: l.cap,
                        xa: l.xa,
                        delta: l.delta,
                    },
                );
                Ok(())
            },
            Ok(false) => Ok(()),
            Err(e) => Err(e),
        }
    }

    /// Records the fold of the experts' down adapters into `te` sorted rows, before
    /// they are weighted and summed.
    pub fn apply_expert_lora_prefill_down(
        &self,
        cb: &mut CommandBuffer,
        expert_gate_out: DevicePtr,
        expert_down_out: DevicePtr,
        expert_offsets: DevicePtr,
        sorted_token_ids: DevicePtr,
        te: u32,
        ctx: &ForwardContext,
    ) -> (r: Result<(), MoeLoraError>)
        ensures
            match self.expert_lora() {
                None => r is Ok && final(cb)@ == old(cb)@,
                Some(route) => match ctx.moe_lora_route {
                    MoeLoraRoute::Refuse => r == Err::<(), MoeLoraError>(MoeLoraError::MixedRows)
                        && final(cb)@ == old(cb)@,
                    MoeLoraRoute::Skip => r is Ok && final(cb)@ == old(cb)@,
                    MoeLoraRoute::Fold => if te > self.lora.unwrap().cap {
                        r == Err::<(), MoeLoraError>(
                            MoeLoraError::OverCapacity { rows: te, cap: self.lora.unwrap().cap },
                        ) && final(cb)@ == old(cb)@
                    } else {
                        r is Ok && final(cb)@ == old(cb)@.push(
                            Cmd::Op(
                                DeviceOp::ExpertLoraDown {
                                    kernels: self.lora.unwrap().kernels,
                                    route,
                                    x: expert_gate_out,
                                    out: expert_down_out,
                                    offsets: expert_offsets,
                                    sorted_token_ids,
                                    row_adapter: DevicePtr(0),
                                    xa: self.lora.unwrap().xa,
                                    total_expanded: te,
                                },
                            ),
                        )
                    },
                },
            },
    {
        let l: MoeLoraWeights = match self.lora {
            Some(l) => l,
            None => {
                return Ok(());
            },
        };
        let route: MoeExpertRoute = match l.expert_route {
            Some(t) => t,
            None => {
                return Ok(());
            },
        };
        match self.moe_route_gate(ctx) {
            Ok(true) => {},
            Ok(false) => {
                return Ok(());
            },
            Err(e) => {
                return Err(e);
            },
        }
        if te > l.cap {
            return Err(MoeLoraError::OverCapacity { rows: te, cap: l.cap });
        }
        cb.op(
            DeviceOp::ExpertLoraDown {
                kernels: l.kernels,
                route,
                x: expert_gate_out,
                out: expert_down_out,
                offsets: expert_offsets,
                sorted_token_ids,
                row_adapter: DevicePtr::null(),
                xa: l.xa,
                total_expanded: te,
            },
        );
        Ok(())
    }

    /// Refuses decode while an adapter is installed.
    pub fn reject_decode_lora(&self) -> (r: Result<(), MoeLoraError>)
        ensures
            r == (if self.lora is Some {
                Err::<(), MoeLoraError>(MoeLoraError::Decode)
            } else {
                Ok::<(), MoeLoraError>(())
            }),
    {
        if self.lora.is_some() {
            Err(MoeLoraError::Decode)
        } else {
            Ok(())
        }
    }
}

impl Qwen3SsmLayer {
    /// Installs an adapter on `moe`, the feed-forward block of this layer, and
    /// refuses it where that block is no mixture of experts.
    pub fn set_moe_lora_weights(
        &self,
        moe: &mut MoeLayer,
        cb: &mut CommandBuffer,
        router: Option<LoraPair>,
        experts: &ExpertLoraLayer,
        kernels: LoraKernels,
        mem: MoeLoraMemory,
        env: &EnvVars,
    ) -> (r: Result<(), MoeLoraError>)
        requires
            self.ffn_is_moe && all_down(experts.pairs@) ==> scratch_fits(
                router,
                experts.pairs@,
                lora_cap(env),
            ),
        ensures
            self.ffn_is_moe && all_down(experts.pairs@) ==> r is Ok && *final(moe) == (MoeLayer {
                lora: installed(router, experts.pairs@, lora_cap(env), kernels, mem),
                ..*old(moe)
            }) && final(cb)@ == old(cb)@ + install_cmds(router, experts.pairs@, lora_cap(env), mem),
            !self.ffn_is_moe ==> r == Err::<(), MoeLoraError>(MoeLoraError::NotMoe),
            self.ffn_is_moe && !all_down(experts.pairs@) ==> (r matches Err(e) && names_other(
                experts.pairs@,
                e,
            )),
            r is Err ==> *final(moe) == *old(moe) && final(cb)@ == old(cb)@,
    {
        if !self.ffn_is_moe {
            return Err(MoeLoraError::NotMoe);
        }
        moe.set_lora_weights(cb, router, experts, kernels, mem, env)
    }
}

} // verus!
