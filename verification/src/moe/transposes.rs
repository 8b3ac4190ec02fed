//! Transposed weights for prefill.
//!
//! Grouped prefill kernels read weights column by column, so each projection is
//! transposed once. Either both copies are kept, or the originals are released
//! phase by phase, so that at no time both copies of all projections exist.
use crate::context::ModelConfig;
use crate::device::{Cmd, CommandBuffer, DevicePtr};
use crate::moe::b12x_weights::emptied;
use crate::moe::layer::{MoeLayer, MoeWeights};
use crate::moe::ptr_tables::{build_ptr_table_from_qw, table_cmds, Projection};
use crate::moe::stream_tables::ExpertPtrTable;
use crate::ops_table::DeviceOp;
use crate::weights::{ExpertWeight, QuantizedWeight};
use vstd::prelude::*;

verus! {

/// Where the transposed projections of one kind go: a weight per expert, and the
/// device arrays of their table.
#[derive(Debug, PartialEq, Eq)]
pub struct TransposeTarget {
    pub experts: Vec<QuantizedWeight>,
    pub table: ExpertPtrTable,
    /// The shared expert's.
    pub shared: QuantizedWeight,
}

/// Which experts have no transposed weight: those that are not on this device,
/// judged by the projection `by`.
pub open spec fn targets(
    experts: Seq<ExpertWeight>,
    by: Projection,
    dst: Seq<QuantizedWeight>,
) -> Seq<QuantizedWeight> {
    Seq::new(
        experts.len(),
        |e: int|
            if by.of(experts[e]).null() {
                QuantizedWeight::absent()
            } else {
                dst[e]
            },
    )
}

/// The transposition of one projection.
pub open spec fn transpose_cmd(src: QuantizedWeight, dst: QuantizedWeight, n: usize, k: usize) -> Cmd {
    Cmd::Op(DeviceOp::TransposeForGemm { src, dst, n, k })
}

/// Transpositions of one expert: gate, up and, where asked for, down. An expert that
/// is not on this device has none.
pub open spec fn transpose_expert_cmds(
    x: ExpertWeight,
    gate: QuantizedWeight,
    up: QuantizedWeight,
    down: Option<QuantizedWeight>,
    inter: usize,
    h: usize,
) -> Seq<Cmd> {
    if x.gate_proj.null() {
        Seq::empty()
    } else {
        seq![
            transpose_cmd(x.gate_proj, gate, inter, h),
            transpose_cmd(x.up_proj, up, inter, h),
        ] + (match down {
            Some(d) => seq![transpose_cmd(x.down_proj, d, h, inter)],
            None => Seq::empty(),
        })
    }
}

/// Where the down projection of expert `e` goes.
pub open spec fn down_of(down: Option<TransposeTarget>, e: int) -> Option<QuantizedWeight> {
    match down {
        Some(d) => Some(d.experts@[e]),
        None => None,
    }
}

/// Transpositions of the first `m` experts, expert by expert.
pub open spec fn transpose_cmds(
    experts: Seq<ExpertWeight>,
    gate: Seq<QuantizedWeight>,
    up: Seq<QuantizedWeight>,
    down: Option<TransposeTarget>,
    inter: usize,
    h: usize,
    m: nat,
) -> Seq<Cmd>
    decreases m,
{
    if m == 0 {
        Seq::empty()
    } else {
        transpose_cmds(experts, gate, up, down, inter, h, (m - 1) as nat) + transpose_expert_cmds(
            experts[m - 1],
            gate[m - 1],
            up[m - 1],
            down_of(down, m - 1),
            inter,
            h,
        )
    }
}

/// Transpositions of down of the first `m` experts, of those that have one.
pub open spec fn transpose_down_cmds(
    experts: Seq<ExpertWeight>,
    dst: Seq<QuantizedWeight>,
    h: usize,
    inter: usize,
    m: nat,
) -> Seq<Cmd>
    decreases m,
{
    if m == 0 {
        Seq::empty()
    } else {
        let init = transpose_down_cmds(experts, dst, h, inter, (m - 1) as nat);
        if experts[m - 1].down_proj.null() {
            init
        } else {
            init.push(transpose_cmd(experts[m - 1].down_proj, dst[m - 1], h, inter))
        }
    }
}

fn list_targets(experts: &Vec<ExpertWeight>, by: Projection, dst: &Vec<QuantizedWeight>) -> (r: Vec<
    QuantizedWeight,
>)
    requires
        dst@.len() == experts@.len(),
    ensures
        r@ == targets(experts@, by, dst@),
{
    let mut ws: Vec<QuantizedWeight> = Vec::new();
    let mut e: usize = 0;
    while e < experts.len()
        invariant
            e <= experts@.len(),
            dst@.len() == experts@.len(),
            ws@ == targets(experts@, by, dst@).take(e as int),
        decreases experts@.len() - e,
    {
        if by.pick(&experts[e]).is_null() {
            ws.push(QuantizedWeight::placeholder());
        } else {
            ws.push(dst[e]);
        }
        e = e + 1;
        assert(ws@ =~= targets(experts@, by, dst@).take(e as int));
    }
    assert(ws@ =~= targets(experts@, by, dst@));
    ws
}

fn record_table(
    cb: &mut CommandBuffer,
    experts: &Vec<ExpertWeight>,
    by: Projection,
    t: &TransposeTarget,
)
    requires
        t.experts@.len() == experts@.len(),
    ensures
        final(cb)@ == old(cb)@ + table_cmds(targets(experts@, by, t.experts@), t.table),
{
    let ws: Vec<QuantizedWeight> = list_targets(experts, by, &t.experts);
    build_ptr_table_from_qw(cb, &ws, t.table);
}

/// The target behind a reference.
pub open spec fn target_of(t: Option<&TransposeTarget>) -> Option<TransposeTarget> {
    match t {
        Some(d) => Some(*d),
        None => None,
    }
}

fn record_experts(
    cb: &mut CommandBuffer,
    experts: &Vec<ExpertWeight>,
    gate: &TransposeTarget,
    up: &TransposeTarget,
    down: Option<&TransposeTarget>,
    inter: usize,
    h: usize,
)
    requires
        gate.experts@.len() == experts@.len(),
        up.experts@.len() == experts@.len(),
        down matches Some(d) ==> d.experts@.len() == experts@.len(),
    ensures
        final(cb)@ == old(cb)@ + transpose_cmds(
            experts@,
            gate.experts@,
            up.experts@,
            target_of(down),
            inter,
            h,
            experts@.len(),
        ),
{
    let ghost before = cb@;
    let ghost dd = target_of(down);
    let mut e: usize = 0;
    assert(cb@ =~= before + transpose_cmds(experts@, gate.experts@, up.experts@, dd, inter, h, 0));
    while e < experts.len()
        invariant
            e <= experts@.len(),
            gate.experts@.len() == experts@.len(),
            up.experts@.len() == experts@.len(),
            down matches Some(d) ==> d.experts@.len() == experts@.len(),
            dd == target_of(down),
            cb@ == before + transpose_cmds(
                experts@,
                gate.experts@,
                up.experts@,
                dd,
                inter,
                h,
                e as nat,
            ),
        decreases experts@.len() - e,
    {
        let x: ExpertWeight = experts[e];
        if !x.gate_proj.is_null() {
            cb.op(
                DeviceOp::TransposeForGemm {
                    src: x.gate_proj,
                    dst: gate.experts[e],
                    n: inter,
                    k: h,
                },
            );
            cb.op(
                DeviceOp::TransposeForGemm { src: x.up_proj, dst: up.experts[e], n: inter, k: h },
            );
            if let Some(d) = down {
                cb.op(
                    DeviceOp::TransposeForGemm {
                        src: x.down_proj,
                        dst: d.experts[e],
                        n: h,
                        k: inter,
                    },
                );
            }
        }
        assert(cb@ =~= before + transpose_cmds(
            experts@,
            gate.experts@,
            up.experts@,
            dd,
            inter,
            h,
            (e + 1) as nat,
        ));
        e = e + 1;
    }
}

fn record_down(
    cb: &mut CommandBuffer,
    experts: &Vec<ExpertWeight>,
    dst: &Vec<QuantizedWeight>,
    h: usize,
    inter: usize,
)
    requires
        dst@.len() == experts@.len(),
    ensures
        final(cb)@ == old(cb)@ + transpose_down_cmds(experts@, dst@, h, inter, experts@.len()),
{
    let ghost before = cb@;
    let mut e: usize = 0;
    assert(cb@ =~= before + transpose_down_cmds(experts@, dst@, h, inter, 0));
    while e < experts.len()
        invariant
            e <= experts@.len(),
            dst@.len() == experts@.len(),
            cb@ == before + transpose_down_cmds(experts@, dst@, h, inter, e as nat),
        decreases experts@.len() - e,
    {
        let x: ExpertWeight = experts[e];
        if !x.down_proj.is_null() {
            cb.op(
                DeviceOp::TransposeForGemm { src: x.down_proj, dst: dst[e], n: h, k: inter },
            );
        }
        assert(cb@ =~= before + transpose_down_cmds(experts@, dst@, h, inter, (e + 1) as nat));
        e = e + 1;
    }
}

/// Release of a weight and its scales.
pub open spec fn free_weight(w: QuantizedWeight) -> Seq<Cmd> {
    seq![
        Cmd::Op(DeviceOp::Free { ptr: w.weight }),
        Cmd::Op(DeviceOp::Free { ptr: w.weight_scale }),
    ]
}

/// Release of a weight, where it is on this device.
pub open spec fn free_present(w: QuantizedWeight) -> Seq<Cmd> {
    if w.null() {
        Seq::empty()
    } else {
        free_weight(w)
    }
}

/// A weight that was released, where it was on this device.
pub open spec fn freed(w: QuantizedWeight) -> QuantizedWeight {
    if w.null() {
        w
    } else {
        emptied(w)
    }
}

fn release_weight(cb: &mut CommandBuffer, w: QuantizedWeight) -> (r: QuantizedWeight)
    ensures
        final(cb)@ == old(cb)@ + free_weight(w),
        r == emptied(w),
{
    let ghost before = cb@;
    cb.op(DeviceOp::Free { ptr: w.weight });
    cb.op(DeviceOp::Free { ptr: w.weight_scale });
    assert(cb@ =~= before + free_weight(w));
    QuantizedWeight {
        weight: DevicePtr::null(),
        weight_scale: DevicePtr::null(),
        weight_scale_2: w.weight_scale_2,
    }
}

fn release_present(cb: &mut CommandBuffer, w: QuantizedWeight) -> (r: QuantizedWeight)
    ensures
        final(cb)@ == old(cb)@ + free_present(w),
        r == freed(w),
{
    let ghost before = cb@;
    if w.is_null() {
        assert(cb@ =~= before + free_present(w));
        w
    } else {
        release_weight(cb, w)
    }
}

/// Releases of gate and up of the first `n` experts.
pub open spec fn free_gate_up_cmds(experts: Seq<ExpertWeight>, n: nat) -> Seq<Cmd>
    decreases n,
{
    if n == 0 {
        Seq::empty()
    } else {
        free_gate_up_cmds(experts, (n - 1) as nat) + (free_present(experts[n - 1].gate_proj)
            + free_present(experts[n - 1].up_proj))
    }
}

/// Releases of down of the first `n` experts.
pub open spec fn free_down_cmds(experts: Seq<ExpertWeight>, n: nat) -> Seq<Cmd>
    decreases n,
{
    if n == 0 {
        Seq::empty()
    } else {
        free_down_cmds(experts, (n - 1) as nat) + free_present(experts[n - 1].down_proj)
    }
}

/// An expert without gate and up.
pub open spec fn without_gate_up(x: ExpertWeight) -> ExpertWeight {
    ExpertWeight { gate_proj: freed(x.gate_proj), up_proj: freed(x.up_proj), ..x }
}

/// An expert without down.
pub open spec fn without_down(x: ExpertWeight) -> ExpertWeight {
    ExpertWeight { down_proj: freed(x.down_proj), ..x }
}

fn release_gate_up(cb: &mut CommandBuffer, experts: &mut Vec<ExpertWeight>)
    ensures
        final(experts)@ == old(experts)@.map_values(|x: ExpertWeight| without_gate_up(x)),
        final(cb)@ == old(cb)@ + free_gate_up_cmds(old(experts)@, old(experts)@.len()),
{
    let ghost before = cb@;
    let ghost was = experts@;
    let n: usize = experts.len();
    let mut e: usize = 0;
    assert(cb@ =~= before + free_gate_up_cmds(was, 0));
    while e < n
        invariant
            e <= n,
            n == was.len(),
            experts@.len() == n,
            forall|j: int| 0 <= j < e ==> #[trigger] experts@[j] == without_gate_up(was[j]),
            forall|j: int| e <= j < n ==> #[trigger] experts@[j] == was[j],
            cb@ == before + free_gate_up_cmds(was, e as nat),
        decreases n - e,
    {
        let x: ExpertWeight = experts[e];
        let gate_proj: QuantizedWeight = release_present(cb, x.gate_proj);
        let up_proj: QuantizedWeight = release_present(cb, x.up_proj);
        experts.set(e, ExpertWeight { gate_proj, up_proj, down_proj: x.down_proj });
        assert(cb@ =~= before + free_gate_up_cmds(was, (e + 1) as nat));
        e = e + 1;
    }
    assert(experts@ =~= was.map_values(|x: ExpertWeight| without_gate_up(x)));
}

fn release_down(cb: &mut CommandBuffer, experts: &mut Vec<ExpertWeight>)
    ensures
        final(experts)@ == old(experts)@.map_values(|x: ExpertWeight| without_down(x)),
        final(cb)@ == old(cb)@ + free_down_cmds(old(experts)@, old(experts)@.len()),
{
    let ghost before = cb@;
    let ghost was = experts@;
    let n: usize = experts.len();
    let mut e: usize = 0;
    assert(cb@ =~= before + free_down_cmds(was, 0));
    while e < n
        invariant
            e <= n,
            n == was.len(),
            experts@.len() == n,
            forall|j: int| 0 <= j < e ==> #[trigger] experts@[j] == without_down(was[j]),
            forall|j: int| e <= j < n ==> #[trigger] experts@[j] == was[j],
            cb@ == before + free_down_cmds(was, e as nat),
        decreases n - e,
    {
        let x: ExpertWeight = experts[e];
        let down_proj: QuantizedWeight = release_present(cb, x.down_proj);
        experts.set(e, ExpertWeight { gate_proj: x.gate_proj, up_proj: x.up_proj, down_proj });
        assert(cb@ =~= before + free_down_cmds(was, (e + 1) as nat));
        e = e + 1;
    }
    assert(experts@ =~= was.map_values(|x: ExpertWeight| without_down(x)));
}

/// Transposition of the shared expert's gate and up.
pub open spec fn shared_gate_up_cmds(
    x: ExpertWeight,
    gate: QuantizedWeight,
    up: QuantizedWeight,
    shared_inter: usize,
    h: usize,
) -> Seq<Cmd> {
    seq![
        transpose_cmd(x.gate_proj, gate, shared_inter, h),
        transpose_cmd(x.up_proj, up, shared_inter, h),
    ]
}

impl MoeLayer {
    /// The shared expert's gate and up are transposed.
    pub open spec fn has_shared_gate(&self, config: &ModelConfig) -> bool {
        !self.weights.shared_expert.gate_proj.null() && config.shared_expert_intermediate_size > 0
    }

    /// The shared expert's down is transposed, judged by itself.
    pub open spec fn has_shared_down(&self, config: &ModelConfig) -> bool {
        !self.weights.shared_expert.down_proj.null() && config.shared_expert_intermediate_size > 0
    }

    /// Work of a transposition that keeps the originals.
    pub open spec fn transpose_all_cmds(
        &self,
        config: &ModelConfig,
        gate: TransposeTarget,
        up: TransposeTarget,
        down: Option<TransposeTarget>,
    ) -> Seq<Cmd> {
        let (h, inter, shared) = (
            config.hidden_size,
            config.moe_intermediate_size,
            config.shared_expert_intermediate_size,
        );
        let xs = self.weights.experts@;
        let g = Projection::Gate;
        transpose_cmds(xs, gate.experts@, up.experts@, down, inter, h, xs.len()) + table_cmds(
            targets(xs, g, gate.experts@),
            gate.table,
        ) + table_cmds(targets(xs, g, up.experts@), up.table) + (match down {
            Some(d) => table_cmds(targets(xs, g, d.experts@), d.table),
            None => Seq::empty(),
        }) + (if self.has_shared_gate(config) {
            shared_gate_up_cmds(self.weights.shared_expert, gate.shared, up.shared, shared, h) + (
            match down {
                Some(d) => seq![
                    transpose_cmd(self.weights.shared_expert.down_proj, d.shared, h, shared),
                ],
                None => Seq::empty(),
            })
        } else {
            Seq::empty()
        })
    }

    fn transpose_for_prefill_impl(
        &mut self,
        cb: &mut CommandBuffer,
        config: &ModelConfig,
        gate: &TransposeTarget,
        up: &TransposeTarget,
        down: Option<&TransposeTarget>,
    )
        requires
            gate.experts@.len() == old(self).weights.experts@.len(),
            up.experts@.len() == old(self).weights.experts@.len(),
            down matches Some(d) ==> d.experts@.len() == old(self).weights.experts@.len(),
        ensures
            final(cb)@ == old(cb)@ + old(self).transpose_all_cmds(
                config,
                *gate,
                *up,
                target_of(down),
            ),
            *final(self) == (match down {
                Some(d) => MoeLayer {
                    down_ptrs_t: Some(d.table),
                    shared_down_t: if old(self).has_shared_gate(config) {
                        Some(d.shared)
                    } else {
                        old(self).shared_down_t
                    },
                    ..old(self).with_gate_up(config, *gate, *up)
                },
                None => old(self).with_gate_up(config, *gate, *up),
            }),
    {
        let ghost before = cb@;
        let ghost entry = *self;
        let h: usize = config.hidden_size;
        let inter: usize = config.moe_intermediate_size;
        let shared: usize = config.shared_expert_intermediate_size;
        record_experts(cb, &self.weights.experts, gate, up, down, inter, h);
        record_table(cb, &self.weights.experts, Projection::Gate, gate);
        record_table(cb, &self.weights.experts, Projection::Gate, up);
        self.gate_ptrs_t = Some(gate.table);
        self.up_ptrs_t = Some(up.table);
        if let Some(d) = down {
            record_table(cb, &self.weights.experts, Projection::Gate, d);
            self.down_ptrs_t = Some(d.table);
        }
        let x: ExpertWeight = self.weights.shared_expert;
        if !x.gate_proj.is_null() && shared > 0 {
            cb.op(
                DeviceOp::TransposeForGemm { src: x.gate_proj, dst: gate.shared, n: shared, k: h },
            );
            cb.op(DeviceOp::TransposeForGemm { src: x.up_proj, dst: up.shared, n: shared, k: h });
            self.shared_gate_t = Some(gate.shared);
            self.shared_up_t = Some(up.shared);
            if let Some(d) = down {
                cb.op(
                    DeviceOp::TransposeForGemm { src: x.down_proj, dst: d.shared, n: h, k: shared },
                );
                self.shared_down_t = Some(d.shared);
            }
        }
        assert(cb@ =~= before + entry.transpose_all_cmds(config, *gate, *up, target_of(down)));
    }

    /// Transposes all projections and keeps the originals.
    pub fn transpose_for_prefill(
        &mut self,
        cb: &mut CommandBuffer,
        config: &ModelConfig,
        gate: &TransposeTarget,
        up: &TransposeTarget,
        down: &TransposeTarget,
    )
        requires
            gate.experts@.len() == old(self).weights.experts@.len(),
            up.experts@.len() == old(self).weights.experts@.len(),
            down.experts@.len() == old(self).weights.experts@.len(),
        ensures
            final(cb)@ == old(cb)@ + old(self).transpose_all_cmds(config, *gate, *up, Some(*down)),
            *final(self) == (MoeLayer {
                down_ptrs_t: Some(down.table),
                shared_down_t: if old(self).has_shared_gate(config) {
                    Some(down.shared)
                } else {
                    old(self).shared_down_t
                },
                ..old(self).with_gate_up(config, *gate, *up)
            }),
    {
        self.transpose_for_prefill_impl(cb, config, gate, up, Some(down));
    }

    /// The layer with transposed gate and up.
    pub open spec fn with_gate_up(
        &self,
        config: &ModelConfig,
        gate: TransposeTarget,
        up: TransposeTarget,
    ) -> MoeLayer {
        MoeLayer {
            gate_ptrs_t: Some(gate.table),
            up_ptrs_t: Some(up.table),
            shared_gate_t: if self.has_shared_gate(config) {
                Some(gate.shared)
            } else {
                self.shared_gate_t
            },
            shared_up_t: if self.has_shared_gate(config) {
                Some(up.shared)
            } else {
                self.shared_up_t
            },
            ..*self
        }
    }

    /// Transposes gate and up only and keeps the originals.
    pub fn transpose_gate_up_for_prefill(
        &mut self,
        cb: &mut CommandBuffer,
        config: &ModelConfig,
        gate: &TransposeTarget,
        up: &TransposeTarget,
    )
        requires
            gate.experts@.len() == old(self).weights.experts@.len(),
            up.experts@.len() == old(self).weights.experts@.len(),
        ensures
            final(cb)@ == old(cb)@ + old(self).transpose_all_cmds(config, *gate, *up, None),
            *final(self) == old(self).with_gate_up(config, *gate, *up),
    {
        self.transpose_for_prefill_impl(cb, config, gate, up, None);
    }

    /// Releases that follow the transposition of gate and up.
    pub open spec fn free_gate_up(&self, config: &ModelConfig) -> Seq<Cmd> {
        free_gate_up_cmds(self.weights.experts@, self.weights.experts@.len()) + (
        if self.has_shared_gate(config) {
            free_weight(self.weights.shared_expert.gate_proj) + free_weight(
                self.weights.shared_expert.up_proj,
            )
        } else {
            Seq::empty()
        })
    }

    /// First half of a phased transposition: gate and up are transposed, then their
    /// originals are released unless both copies are kept.
    pub fn transpose_phase_gate_up(
        &mut self,
        cb: &mut CommandBuffer,
        config: &ModelConfig,
        gate: &TransposeTarget,
        up: &TransposeTarget,
        keep_originals: bool,
    )
        requires
            gate.experts@.len() == old(self).weights.experts@.len(),
            up.experts@.len() == old(self).weights.experts@.len(),
        ensures
            final(cb)@ == old(cb)@ + old(self).transpose_all_cmds(config, *gate, *up, None) + (
            if keep_originals {
                Seq::empty()
            } else {
                old(self).free_gate_up(config)
            }),
            keep_originals ==> *final(self) == old(self).with_gate_up(config, *gate, *up),
            !keep_originals ==> {
                let was = old(self).weights.shared_expert;
                &&& final(self).weights.experts@ == old(self).weights.experts@.map_values(
                    |x: ExpertWeight| without_gate_up(x),
                )
                &&& *final(self) == (MoeLayer {
                    weights: MoeWeights {
                        experts: final(self).weights.experts,
                        shared_expert: if old(self).has_shared_gate(config) {
                            ExpertWeight {
                                gate_proj: emptied(was.gate_proj),
                                up_proj: emptied(was.up_proj),
                                ..was
                            }
                        } else {
                            was
                        },
                        ..old(self).weights
                    },
                    ..old(self).with_gate_up(config, *gate, *up)
                })
            },
    {
        let ghost before = cb@;
        let ghost entry = *self;
        self.transpose_gate_up_for_prefill(cb, config, gate, up);
        if !keep_originals {
            let ghost middle = cb@;
            release_gate_up(cb, &mut self.weights.experts);
            let x: ExpertWeight = self.weights.shared_expert;
            if !x.gate_proj.is_null() && config.shared_expert_intermediate_size > 0 {
                let gate_proj: QuantizedWeight = release_weight(cb, x.gate_proj);
                let up_proj: QuantizedWeight = release_weight(cb, x.up_proj);
                self.weights.shared_expert =
                ExpertWeight { gate_proj, up_proj, down_proj: x.down_proj };
            }
            assert(cb@ =~= middle + entry.free_gate_up(config));
        }
        assert(cb@ =~= before + entry.transpose_all_cmds(config, *gate, *up, None) + (
        if keep_originals {
            Seq::empty()
        } else {
            entry.free_gate_up(config)
        }));
    }

    /// Releases that follow the transposition of down.
    pub open spec fn free_down(&self, config: &ModelConfig) -> Seq<Cmd> {
        free_down_cmds(self.weights.experts@, self.weights.experts@.len()) + (
        if self.has_shared_down(config) {
            free_weight(self.weights.shared_expert.down_proj)
        } else {
            Seq::empty()
        })
    }

    /// Transposition of down and the releases that follow it.
    pub open spec fn phase_down_cmds(
        &self,
        config: &ModelConfig,
        down: TransposeTarget,
        keep_originals: bool,
    ) -> Seq<Cmd> {
        let (h, inter, shared) = (
            config.hidden_size,
            config.moe_intermediate_size,
            config.shared_expert_intermediate_size,
        );
        let xs = self.weights.experts@;
        transpose_down_cmds(xs, down.experts@, h, inter, xs.len()) + table_cmds(
            targets(xs, Projection::Down, down.experts@),
            down.table,
        ) + (if self.has_shared_down(config) {
            seq![transpose_cmd(self.weights.shared_expert.down_proj, down.shared, h, shared)]
        } else {
            Seq::empty()
        }) + (if keep_originals {
            Seq::empty()
        } else {
            self.free_down(config)
        })
    }

    /// Second half of a phased transposition: down is transposed, then its originals
    /// are released unless both copies are kept.
    pub fn transpose_phase_down(
        &mut self,
        cb: &mut CommandBuffer,
        config: &ModelConfig,
        down: &TransposeTarget,
        keep_originals: bool,
    )
        requires
            down.experts@.len() == old(self).weights.experts@.len(),
        ensures
            final(cb)@ == old(cb)@ + old(self).phase_down_cmds(config, *down, keep_originals),
            final(self).weights.experts@ == (if keep_originals {
                old(self).weights.experts@
            } else {
                old(self).weights.experts@.map_values(|x: ExpertWeight| without_down(x))
            }),
            *final(self) == (MoeLayer {
                down_ptrs_t: Some(down.table),
                shared_down_t: if old(self).has_shared_down(config) {
                    Some(down.shared)
                } else {
                    old(self).shared_down_t
                },
                weights: MoeWeights {
                    experts: final(self).weights.experts,
                    shared_expert: if !keep_originals && old(self).has_shared_down(config) {
                        ExpertWeight {
                            down_proj: emptied(old(self).weights.shared_expert.down_proj),
                            ..old(self).weights.shared_expert
                        }
                    } else {
                        old(self).weights.shared_expert
                    },
                    ..old(self).weights
                },
                ..*old(self)
            }),
    {
        let ghost before = cb@;
        let ghost entry = *self;
        let h: usize = config.hidden_size;
        let inter: usize = config.moe_intermediate_size;
        let shared: usize = config.shared_expert_intermediate_size;
        record_down(cb, &self.weights.experts, &down.experts, h, inter);
        record_table(cb, &self.weights.experts, Projection::Down, down);
        self.down_ptrs_t = Some(down.table);
        let x: ExpertWeight = self.weights.shared_expert;
        let has_shared: bool = !x.down_proj.is_null() && shared > 0;
        if has_shared {
            cb.op(
                DeviceOp::TransposeForGemm { src: x.down_proj, dst: down.shared, n: h, k: shared },
            );
            self.shared_down_t = Some(down.shared);
        }
        if !keep_originals {
            release_down(cb, &mut self.weights.experts);
            if has_shared {
                let down_proj: QuantizedWeight = release_weight(cb, x.down_proj);
                self.weights.shared_expert =
                ExpertWeight { gate_proj: x.gate_proj, up_proj: x.up_proj, down_proj };
            }
        }
        assert(cb@ =~= before + entry.phase_down_cmds(config, *down, keep_originals));
    }

    /// Down work does not depend on whether gate and up were released before.
    proof fn lemma_phase_down_same(
        &self,
        after: &MoeLayer,
        config: &ModelConfig,
        down: TransposeTarget,
        keep_originals: bool,
    )
        requires
            after.weights.experts@.len() == self.weights.experts@.len(),
            forall|e: int|
                0 <= e < self.weights.experts@.len() ==> #[trigger] after.weights.experts@[e].down_proj
                    == self.weights.experts@[e].down_proj,
            after.weights.shared_expert.down_proj == self.weights.shared_expert.down_proj,
        ensures
            after.phase_down_cmds(config, down, keep_originals) == self.phase_down_cmds(
                config,
                down,
                keep_originals,
            ),
    {
        let (xs, ys) = (self.weights.experts@, after.weights.experts@);
        let d = Projection::Down;
        lemma_down_same(xs, ys, down.experts@, config.hidden_size, config.moe_intermediate_size, xs.len());
        assert(targets(xs, d, down.experts@) =~= targets(ys, d, down.experts@));
    }

    /// What a phased transposition records: gate and up first, then down, each
    /// followed by the release of its originals unless they are kept.
    pub open spec fn transpose_phased_cmds(
        &self,
        config: &ModelConfig,
        gate: TransposeTarget,
        up: TransposeTarget,
        down: TransposeTarget,
        keep_originals: bool,
    ) -> Seq<Cmd> {
        self.transpose_all_cmds(config, gate, up, None) + (if keep_originals {
            Seq::empty()
        } else {
            self.free_gate_up(config)
        }) + self.phase_down_cmds(config, down, keep_originals)
    }

    /// The transposed weights take the place of the originals, which are released
    /// phase by phase.
    pub fn transpose_for_prefill_unified(
        &mut self,
        cb: &mut CommandBuffer,
        config: &ModelConfig,
        gate: &TransposeTarget,
        up: &TransposeTarget,
        down: &TransposeTarget,
    )
        requires
            gate.experts@.len() == old(self).weights.experts@.len(),
            up.experts@.len() == old(self).weights.experts@.len(),
            down.experts@.len() == old(self).weights.experts@.len(),
        ensures
            final(cb)@ == old(cb)@ + old(self).transpose_phased_cmds(config, *gate, *up, *down, false),
            final(self).weights.experts@ == old(self).weights.experts@.map_values(
                |x: ExpertWeight| without_down(without_gate_up(x)),
            ),
            ({
                let was = old(self).weights.shared_expert;
                *final(self) == (MoeLayer {
                    down_ptrs_t: Some(down.table),
                    shared_down_t: if old(self).has_shared_down(config) {
                        Some(down.shared)
                    } else {
                        old(self).shared_down_t
                    },
                    weights: MoeWeights {
                        experts: final(self).weights.experts,
                        shared_expert: ExpertWeight {
                            gate_proj: if old(self).has_shared_gate(config) {
                                emptied(was.gate_proj)
                            } else {
                                was.gate_proj
                            },
                            up_proj: if old(self).has_shared_gate(config) {
                                emptied(was.up_proj)
                            } else {
                                was.up_proj
                            },
                            down_proj: if old(self).has_shared_down(config) {
                                emptied(was.down_proj)
                            } else {
                                was.down_proj
                            },
                        },
                        ..old(self).weights
                    },
                    ..old(self).with_gate_up(config, *gate, *up)
                })
            }),
    {
        let ghost before = cb@;
        let ghost entry = *self;
        self.transpose_phase_gate_up(cb, config, gate, up, false);
        proof {
            entry.lemma_phase_down_same(self, config, *down, false);
        }
        self.transpose_phase_down(cb, config, down, false);
        assert(self.weights.experts@ =~= entry.weights.experts@.map_values(
            |x: ExpertWeight| without_down(without_gate_up(x)),
        ));
        assert(cb@ =~= before + entry.transpose_phased_cmds(config, *gate, *up, *down, false));
    }

    /// The transposed weights stand beside the originals, which decoding reads.
    pub fn transpose_for_prefill_hybrid(
        &mut self,
        cb: &mut CommandBuffer,
        config: &ModelConfig,
        gate: &TransposeTarget,
        up: &TransposeTarget,
        down: &TransposeTarget,
    )
        requires
            gate.experts@.len() == old(self).weights.experts@.len(),
            up.experts@.len() == old(self).weights.experts@.len(),
            down.experts@.len() == old(self).weights.experts@.len(),
        ensures
            final(cb)@ == old(cb)@ + old(self).transpose_phased_cmds(config, *gate, *up, *down, true),
            final(self).weights.experts@ == old(self).weights.experts@,
            *final(self) == (MoeLayer {
                down_ptrs_t: Some(down.table),
                shared_down_t: if old(self).has_shared_down(config) {
                    Some(down.shared)
                } else {
                    old(self).shared_down_t
                },
                weights: MoeWeights {
                    experts: final(self).weights.experts,
                    ..old(self).weights
                },
                ..old(self).with_gate_up(config, *gate, *up)
            }),
    {
        let ghost before = cb@;
        let ghost entry = *self;
        self.transpose_phase_gate_up(cb, config, gate, up, true);
        proof {
            entry.lemma_phase_down_same(self, config, *down, true);
        }
        self.transpose_phase_down(cb, config, down, true);
        assert(cb@ =~= before + entry.transpose_phased_cmds(config, *gate, *up, *down, true));
    }
}

/// Down work of experts that agree in their down projections.
proof fn lemma_down_same(
    xs: Seq<ExpertWeight>,
    ys: Seq<ExpertWeight>,
    dst: Seq<QuantizedWeight>,
    h: usize,
    inter: usize,
    m: nat,
)
    requires
        xs.len() == ys.len(),
        m <= xs.len(),
        forall|e: int| 0 <= e < xs.len() ==> #[trigger] ys[e].down_proj == xs[e].down_proj,
    ensures
        transpose_down_cmds(ys, dst, h, inter, m) == transpose_down_cmds(xs, dst, h, inter, m),
        free_down_cmds(ys, m) == free_down_cmds(xs, m),
    decreases m,
{
    if m > 0 {
        lemma_down_same(xs, ys, dst, h, inter, (m - 1) as nat);
        assert(ys[m - 1].down_proj == xs[m - 1].down_proj);
    }
}

/// What a command transposes, if it is a transposition.
pub open spec fn reads(c: Cmd) -> Option<QuantizedWeight> {
    match c {
        Cmd::Op(DeviceOp::TransposeForGemm { src, .. }) => Some(src),
        _ => None,
    }
}

/// What a command releases, if it is a release.
pub open spec fn releases(c: Cmd) -> Option<DevicePtr> {
    match c {
        Cmd::Op(DeviceOp::Free { ptr }) => Some(ptr),
        _ => None,
    }
}

/// `p` is where the weight or the scales of `w` lie.
pub open spec fn lies_at(w: QuantizedWeight, p: DevicePtr) -> bool {
    p == w.weight || p == w.weight_scale
}

/// Expert `e` holds gate or up at `p`.
pub open spec fn gate_up_at(experts: Seq<ExpertWeight>, e: int, p: DevicePtr) -> bool {
    ||| !experts[e].gate_proj.null() && lies_at(experts[e].gate_proj, p)
    ||| !experts[e].up_proj.null() && lies_at(experts[e].up_proj, p)
}

/// Expert `e` has down projection `w`.
pub open spec fn down_is(experts: Seq<ExpertWeight>, e: int, w: QuantizedWeight) -> bool {
    !experts[e].down_proj.null() && experts[e].down_proj == w
}

impl MoeLayer {
    /// Some gate or up projection lies at `p`.
    pub open spec fn holds_gate_up(&self, config: &ModelConfig, p: DevicePtr) -> bool {
        ||| exists|e: int|
            0 <= e < self.weights.experts@.len() && #[trigger] gate_up_at(self.weights.experts@, e, p)
        ||| self.has_shared_gate(config) && (lies_at(self.weights.shared_expert.gate_proj, p)
            || lies_at(self.weights.shared_expert.up_proj, p))
    }

    /// `w` is some down projection.
    pub open spec fn holds_down(&self, config: &ModelConfig, w: QuantizedWeight) -> bool {
        ||| exists|e: int|
            0 <= e < self.weights.experts@.len() && #[trigger] down_is(self.weights.experts@, e, w)
        ||| self.has_shared_down(config) && w == self.weights.shared_expert.down_proj
    }
}

proof fn lemma_no_release(
    experts: Seq<ExpertWeight>,
    gate: Seq<QuantizedWeight>,
    up: Seq<QuantizedWeight>,
    inter: usize,
    h: usize,
    m: nat,
)
    ensures
        forall|i: int|
            0 <= i < transpose_cmds(experts, gate, up, None, inter, h, m).len() ==> releases(
                #[trigger] transpose_cmds(experts, gate, up, None, inter, h, m)[i],
            ) is None,
    decreases m,
{
    if m > 0 {
        lemma_no_release(experts, gate, up, inter, h, (m - 1) as nat);
    }
}

proof fn lemma_gate_up_released(experts: Seq<ExpertWeight>, m: nat)
    requires
        m <= experts.len(),
    ensures
        forall|i: int|
            0 <= i < free_gate_up_cmds(experts, m).len() ==> (releases(
                #[trigger] free_gate_up_cmds(experts, m)[i],
            ) matches Some(p) && exists|e: int| 0 <= e < m && gate_up_at(experts, e, p)),
    decreases m,
{
    if m > 0 {
        let s = free_gate_up_cmds(experts, m);
        let init = free_gate_up_cmds(experts, (m - 1) as nat);
        lemma_gate_up_released(experts, (m - 1) as nat);
        assert forall|i: int| 0 <= i < s.len() implies (releases(#[trigger] s[i]) matches Some(p)
            && exists|e: int| 0 <= e < m && gate_up_at(experts, e, p)) by {
            if i < init.len() {
                assert(s[i] == init[i]);
                let p = releases(init[i])->0;
                let e = choose|e: int| 0 <= e < m - 1 && gate_up_at(experts, e, p);
                assert(0 <= e < m && gate_up_at(experts, e, p));
            } else {
                let x = experts[m - 1];
                let last = free_present(x.gate_proj) + free_present(x.up_proj);
                assert(s[i] == last[i - init.len()]);
                let p = releases(s[i])->0;
                assert(gate_up_at(experts, m - 1, p));
            }
        }
    }
}

proof fn lemma_down_transposed(
    experts: Seq<ExpertWeight>,
    dst: Seq<QuantizedWeight>,
    h: usize,
    inter: usize,
    m: nat,
)
    requires
        m <= experts.len(),
    ensures
        forall|i: int|
            0 <= i < transpose_down_cmds(experts, dst, h, inter, m).len() ==> (reads(
                #[trigger] transpose_down_cmds(experts, dst, h, inter, m)[i],
            ) matches Some(w) && exists|e: int| 0 <= e < m && down_is(experts, e, w)),
    decreases m,
{
    if m > 0 {
        let s = transpose_down_cmds(experts, dst, h, inter, m);
        let init = transpose_down_cmds(experts, dst, h, inter, (m - 1) as nat);
        lemma_down_transposed(experts, dst, h, inter, (m - 1) as nat);
        assert forall|i: int| 0 <= i < s.len() implies (reads(#[trigger] s[i]) matches Some(w)
            && exists|e: int| 0 <= e < m && down_is(experts, e, w)) by {
            if i < init.len() {
                assert(s[i] == init[i]);
                let w = reads(init[i])->0;
                let e = choose|e: int| 0 <= e < m - 1 && down_is(experts, e, w);
                assert(0 <= e < m && down_is(experts, e, w));
                assert(reads(s[i]) == Some(w));
            } else {
                let w = reads(s[i])->0;
                let e = m - 1;
                assert(s =~= init.push(transpose_cmd(experts[e].down_proj, dst[e], h, inter)));
                assert(reads(s[i]) == Some(experts[e].down_proj));
                assert(!experts[e].down_proj.null());
                assert(0 <= e < m && down_is(experts, e, w));
            }
        }
    }
}

proof fn lemma_down_released(experts: Seq<ExpertWeight>, m: nat)
    ensures
        forall|i: int|
            0 <= i < free_down_cmds(experts, m).len() ==> reads(
                #[trigger] free_down_cmds(experts, m)[i],
            ) is None,
    decreases m,
{
    if m > 0 {
        lemma_down_released(experts, (m - 1) as nat);
    }
}

proof fn lemma_first_phase(
    l: MoeLayer,
    config: &ModelConfig,
    gate: TransposeTarget,
    up: TransposeTarget,
)
    ensures
        forall|a: int|
            0 <= a < l.transpose_all_cmds(config, gate, up, None).len() ==> releases(
                #[trigger] l.transpose_all_cmds(config, gate, up, None)[a],
            ) is None,
{
    let xs = l.weights.experts@;
    lemma_no_release(
        xs,
        gate.experts@,
        up.experts@,
        config.moe_intermediate_size,
        config.hidden_size,
        xs.len(),
    );
}

proof fn lemma_first_releases(l: MoeLayer, config: &ModelConfig)
    ensures
        forall|a: int|
            0 <= a < l.free_gate_up(config).len() ==> reads(#[trigger] l.free_gate_up(config)[a]) is None
                && (releases(l.free_gate_up(config)[a]) matches Some(p) && l.holds_gate_up(
                config,
                p,
            )),
{
    let xs = l.weights.experts@;
    let s = l.free_gate_up(config);
    let routed = free_gate_up_cmds(xs, xs.len());
    lemma_gate_up_released(xs, xs.len());
    assert forall|a: int| 0 <= a < s.len() implies reads(#[trigger] s[a]) is None && (releases(s[a])
        matches Some(p) && l.holds_gate_up(config, p)) by {
        if a < routed.len() {
            assert(s[a] == routed[a]);
        } else {
            let x = l.weights.shared_expert;
            let shared = free_weight(x.gate_proj) + free_weight(x.up_proj);
            assert(l.has_shared_gate(config));
            assert(s[a] == shared[a - routed.len()]);
        }
    }
}

proof fn lemma_second_phase(l: MoeLayer, config: &ModelConfig, down: TransposeTarget)
    ensures
        forall|a: int|
            0 <= a < l.phase_down_cmds(config, down, true).len() ==> releases(
                #[trigger] l.phase_down_cmds(config, down, true)[a],
            ) is None && (reads(l.phase_down_cmds(config, down, true)[a]) matches Some(w)
                ==> l.holds_down(config, w)),
{
    let xs = l.weights.experts@;
    let (h, inter) = (config.hidden_size, config.moe_intermediate_size);
    let s = l.phase_down_cmds(config, down, true);
    let routed = transpose_down_cmds(xs, down.experts@, h, inter, xs.len());
    lemma_down_transposed(xs, down.experts@, h, inter, xs.len());
    assert forall|a: int| 0 <= a < s.len() implies releases(#[trigger] s[a]) is None && (reads(s[a])
        matches Some(w) ==> l.holds_down(config, w)) by {
        if a < routed.len() {
            assert(s[a] == routed[a]);
        }
    }
}

proof fn lemma_second_releases(l: MoeLayer, config: &ModelConfig)
    ensures
        forall|a: int|
            0 <= a < l.free_down(config).len() ==> reads(#[trigger] l.free_down(config)[a]) is None,
{
    lemma_down_released(l.weights.experts@, l.weights.experts@.len());
}

proof fn lemma_four_phases(
    first: Seq<Cmd>,
    freed: Seq<Cmd>,
    second: Seq<Cmd>,
    last: Seq<Cmd>,
    held: spec_fn(DevicePtr) -> bool,
    down: spec_fn(QuantizedWeight) -> bool,
    i: int,
    j: int,
)
    requires
        forall|a: int| 0 <= a < first.len() ==> releases(#[trigger] first[a]) is None,
        forall|a: int|
            0 <= a < freed.len() ==> reads(#[trigger] freed[a]) is None && (releases(freed[a])
                matches Some(p) && held(p)),
        forall|a: int|
            0 <= a < second.len() ==> releases(#[trigger] second[a]) is None && (reads(second[a])
                matches Some(w) ==> down(w)),
        forall|a: int| 0 <= a < last.len() ==> reads(#[trigger] last[a]) is None,
        0 <= i < j < (first + freed + second + last).len(),
    ensures
        ({
            let s = first + freed + second + last;
            releases(s[i]) matches Some(p) ==> (reads(s[j]) matches Some(w) ==> held(p) && down(w))
        }),
{
    let s = first + freed + second + last;
    let n1 = first.len() as int;
    let n2 = n1 + freed.len();
    let n3 = n2 + second.len();
    if i < n1 {
        assert(s[i] == first[i]);
    } else if n3 <= j {
        assert(s[j] == last[j - n3]);
    } else if j < n2 {
        assert(s[j] == freed[j - n1]);
    } else {
        assert(s[j] == second[j - n2]);
        if i < n2 {
            assert(s[i] == freed[i - n1]);
        } else {
            assert(s[i] == second[i - n2]);
        }
    }
}

/// Nothing is read after its release: where the down projections lie apart from
/// gate and up, a phased transposition transposes no projection that an earlier
/// command of it released.
pub proof fn law_no_read_after_release(
    l: MoeLayer,
    config: &ModelConfig,
    gate: TransposeTarget,
    up: TransposeTarget,
    down: TransposeTarget,
    keep_originals: bool,
    i: int,
    j: int,
)
    requires
        forall|p: DevicePtr, w: QuantizedWeight| #[trigger]
            l.holds_gate_up(config, p) && #[trigger] l.holds_down(config, w) ==> !lies_at(w, p),
        0 <= i < j < l.transpose_phased_cmds(config, gate, up, down, keep_originals).len(),
    ensures
        ({
            let s = l.transpose_phased_cmds(config, gate, up, down, keep_originals);
            releases(s[i]) matches Some(p) ==> (reads(s[j]) matches Some(w) ==> !lies_at(w, p))
        }),
{
    let s = l.transpose_phased_cmds(config, gate, up, down, keep_originals);
    let first = l.transpose_all_cmds(config, gate, up, None);
    let second = l.phase_down_cmds(config, down, true);
    let held = |p: DevicePtr| l.holds_gate_up(config, p);
    let is_down = |w: QuantizedWeight| l.holds_down(config, w);
    lemma_first_phase(l, config, gate, up);
    lemma_first_releases(l, config);
    lemma_second_phase(l, config, down);
    lemma_second_releases(l, config);
    if keep_originals {
        let none = Seq::<Cmd>::empty();
        assert(s =~= first + none + second + none);
        lemma_four_phases(first, none, second, none, held, is_down, i, j);
    } else {
        let (freed, last) = (l.free_gate_up(config), l.free_down(config));
        assert(l.phase_down_cmds(config, down, false) =~= second + last);
        assert(s =~= first + freed + second + last);
        lemma_four_phases(first, freed, second, last, held, is_down, i, j);
    }
}

/// A phased transposition releases every projection at most once: after its
/// release a projection is absent, and an absent one is not released.
pub proof fn law_released_once(w: QuantizedWeight)
    ensures
        freed(w).null(),
        free_present(freed(w)) == Seq::<Cmd>::empty(),
{
}

} // verus!
