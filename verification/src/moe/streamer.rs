//! Residency bookkeeping of streamed expert weights.
//!
//! Expert records live in a ring of slabs; dense layer `d` lands in slab
//! `d % num_slabs`. The book knows which layer owns each slab, which layers
//! are fully resident, and which fetches are outstanding. A fetch worker takes
//! the [`Job`]s that the book hands out and reports back with
//! [`ExpertStreamerShared::complete`].
use crate::device::{Cmd, CommandBuffer, Scalar};
use crate::ops_table::DeviceOp;
use vstd::prelude::*;

verus! {

/// Where a record comes from.
#[derive(Debug, Clone, Copy, PartialEq, Eq, Structural)]
pub enum TierKind {
    Posix,
    Uma,
    Rdma,
}

/// Projection of an expert, in record order.
#[derive(Debug, Clone, Copy, PartialEq, Eq, Structural)]
pub enum Proj {
    Gate,
    Up,
    Down,
}

/// Addresses and global scale of one projection of a fetched expert.
#[derive(Debug, Clone, Copy, PartialEq, Eq, Structural)]
pub struct ProjResidency {
    pub packed_addr: u64,
    pub scale_addr: u64,
    pub scale2: Scalar,
}

/// Where a fetched expert lies.
#[derive(Debug, Clone, Copy, PartialEq, Eq, Structural)]
pub struct ExpertResidency {
    pub gate: ProjResidency,
    pub up: ProjResidency,
    pub down: ProjResidency,
}

impl ExpertResidency {
    pub open spec fn proj(self, p: Proj) -> ProjResidency {
        match p {
            Proj::Gate => self.gate,
            Proj::Up => self.up,
            Proj::Down => self.down,
        }
    }

    /// The record of one projection.
    pub fn of(&self, p: Proj) -> (r: ProjResidency)
        ensures
            r == self.proj(p),
    {
        match p {
            Proj::Gate => self.gate,
            Proj::Up => self.up,
            Proj::Down => self.down,
        }
    }
}

/// A fetch for dense layer `dense`: the whole local range, or only `experts`.
#[derive(Debug, PartialEq, Eq)]
pub struct Job {
    pub dense: u32,
    pub lo: u32,
    pub hi: u32,
    pub experts: Option<Vec<u32>>,
}

/// One record to fetch: expert `expert` of layer `dense` into slot `slot` of
/// slab `slab`.
#[derive(Debug, Clone, Copy, PartialEq, Eq, Structural)]
pub struct Fetch {
    pub dense: u32,
    pub expert: u32,
    pub slab: u32,
    pub slot: u32,
}

impl Job {
    /// Experts that the job fetches, in order.
    pub open spec fn ids(&self) -> Seq<u32> {
        match self.experts {
            Some(v) => v@,
            None => Seq::new((self.hi - self.lo) as nat, |i: int| (self.lo + i) as u32),
        }
    }

    pub open spec fn wf(&self) -> bool {
        &&& self.lo <= self.hi
        &&& forall|i: int| 0 <= i < self.ids().len() ==> self.lo <= #[trigger] self.ids()[i]
    }

    /// Records that the job fetches: each expert into the slot of its offset in
    /// the local range.
    pub fn fetches(&self, num_slabs: u32) -> (r: Vec<Fetch>)
        requires
            self.wf(),
            num_slabs > 0,
        ensures
            r@ == Seq::new(
                self.ids().len(),
                |i: int|
                    Fetch {
                        dense: self.dense,
                        expert: self.ids()[i],
                        slab: (self.dense % num_slabs) as u32,
                        slot: (self.ids()[i] - self.lo) as u32,
                    },
            ),
    {
        let slab: u32 = self.dense % num_slabs;
        let mut out: Vec<Fetch> = Vec::new();
        let n: usize = match &self.experts {
            Some(v) => v.len(),
            None => (self.hi - self.lo) as usize,
        };
        let mut i: usize = 0;
        while i < n
            invariant
                i <= n,
                n == self.ids().len(),
                self.wf(),
                slab == self.dense % num_slabs,
                out@ == Seq::new(
                    i as nat,
                    |j: int|
                        Fetch {
                            dense: self.dense,
                            expert: self.ids()[j],
                            slab: (self.dense % num_slabs) as u32,
                            slot: (self.ids()[j] - self.lo) as u32,
                        },
                ),
            decreases n - i,
        {
            let expert: u32 = match &self.experts {
                Some(v) => v[i],
                None => self.lo + i as u32,
            };
            assert(expert == self.ids()[i as int]);
            out.push(Fetch { dense: self.dense, expert, slab, slot: expert - self.lo });
            i = i + 1;
            assert(out@ =~= Seq::new(
                i as nat,
                |j: int|
                    Fetch {
                        dense: self.dense,
                        expert: self.ids()[j],
                        slab: (self.dense % num_slabs) as u32,
                        slot: (self.ids()[j] - self.lo) as u32,
                    },
            ));
        }
        out
    }
}

/// What the model asks of the expert store.
#[derive(Debug, Clone, Copy, PartialEq, Eq, Structural)]
pub struct StreamConfig {
    pub has_store_dir: bool,
    pub num_experts: usize,
    pub local_lo: usize,
    pub local_hi: usize,
    /// Layers that the arena holds; zero for all of them.
    pub arena_layers: usize,
}

/// What the expert store holds.
#[derive(Debug, Clone, Copy, PartialEq, Eq, Structural)]
pub struct StoreIndex {
    pub num_experts: u32,
    pub num_moe_layers: u32,
}

/// Ring geometry.
#[derive(Debug, Clone, Copy, PartialEq, Eq, Structural)]
pub struct ArenaShape {
    pub num_slabs: u32,
    pub slots_per_slab: u32,
}

/// Why a store cannot be streamed from.
#[derive(Debug, Clone, Copy, PartialEq, Eq, Structural)]
pub enum StreamOpenError {
    NoStoreDir,
    ExpertCountMismatch { store: u32, model: usize },
    EmptyLocalRange,
}

/// Slabs in the ring: all layers, or as many as asked for within one and all.
pub open spec fn slabs_of(arena_layers: u32, num_moe_layers: u32) -> u32 {
    if arena_layers < 1 {
        1
    } else if arena_layers > num_moe_layers {
        num_moe_layers
    } else {
        arena_layers
    }
}

/// First reason to refuse, if any.
pub open spec fn open_refusal(config: StreamConfig, index: StoreIndex) -> Option<StreamOpenError> {
    if !config.has_store_dir {
        Some(StreamOpenError::NoStoreDir)
    } else if index.num_experts != config.num_experts {
        Some(
            StreamOpenError::ExpertCountMismatch {
                store: index.num_experts,
                model: config.num_experts,
            },
        )
    } else if (config.local_hi - config.local_lo) as u32 == 0 {
        Some(StreamOpenError::EmptyLocalRange)
    } else {
        None
    }
}

/// Sizes the ring, or says why there is nothing to stream.
pub fn arena_shape(config: &StreamConfig, index: &StoreIndex) -> (r: Result<
    ArenaShape,
    StreamOpenError,
>)
    requires
        config.local_lo <= config.local_hi,
        config.arena_layers != 0 ==> index.num_moe_layers > 0,
    ensures
        match open_refusal(*config, *index) {
            Some(e) => r == Err::<ArenaShape, StreamOpenError>(e),
            None => r matches Ok(a) && a.slots_per_slab == (config.local_hi - config.local_lo) as u32
                && a.num_slabs == (if config.arena_layers == 0 {
                index.num_moe_layers
            } else {
                slabs_of(config.arena_layers as u32, index.num_moe_layers)
            }),
        },
{
    if !config.has_store_dir {
        return Err(StreamOpenError::NoStoreDir);
    }
    if index.num_experts as usize != config.num_experts {
        return Err(
            StreamOpenError::ExpertCountMismatch {
                store: index.num_experts,
                model: config.num_experts,
            },
        );
    }
    let slots_per_slab: u32 = (config.local_hi - config.local_lo) as u32;
    if slots_per_slab == 0 {
        return Err(StreamOpenError::EmptyLocalRange);
    }
    let layers: u32 = index.num_moe_layers;
    let num_slabs: u32 = if config.arena_layers == 0 {
        layers
    } else {
        let asked: u32 = config.arena_layers as u32;
        if asked < 1 {
            1
        } else if asked > layers {
            layers
        } else {
            asked
        }
    };
    Ok(ArenaShape { num_slabs, slots_per_slab })
}

/// The residency book of a model's expert streamer.
pub struct ExpertStreamerShared {
    /// Layers with a fetch of the whole range under way.
    pub requested: Vec<bool>,
    /// Full-range residencies of layers whose slab still holds them.
    pub resident_cache: Vec<Option<Vec<ExpertResidency>>>,
    /// Layer that owns each slab.
    pub slab_occupant: Vec<Option<u32>>,
    /// Fetches that have landed and were not taken yet.
    pub done: Vec<Option<Result<Vec<ExpertResidency>, String>>>,
    pub num_slabs: u32,
    pub num_moe_layers: u32,
    pub kind: TierKind,
}

/// Copies a list of residencies.
fn copy_residencies(v: &Vec<ExpertResidency>) -> (r: Vec<ExpertResidency>)
    ensures
        r@ == v@,
{
    let mut out: Vec<ExpertResidency> = Vec::new();
    let mut i: usize = 0;
    while i < v.len()
        invariant
            i <= v@.len(),
            out@ == v@.take(i as int),
        decreases v@.len() - i,
    {
        out.push(v[i]);
        i = i + 1;
        assert(out@ =~= v@.take(i as int));
    }
    assert(out@ =~= v@);
    out
}

impl ExpertStreamerShared {
    /// Tables have one entry per layer and per slab, and a slab is owned by a
    /// layer that lands there.
    pub open spec fn wf(&self) -> bool {
        &&& self.requested@.len() == self.num_moe_layers
        &&& self.resident_cache@.len() == self.num_moe_layers
        &&& self.done@.len() == self.num_moe_layers
        &&& self.slab_occupant@.len() == self.num_slabs
        &&& self.num_moe_layers > 0 ==> self.num_slabs > 0
        &&& forall|k: int|
            0 <= k < self.num_slabs ==> match #[trigger] self.slab_occupant@[k] {
                Some(d) => d < self.num_moe_layers && self.slab(d as int) == k,
                None => true,
            }
    }

    pub open spec fn slab(&self, dense: int) -> int {
        dense % self.num_slabs as int
    }

    pub open spec fn cached(&self, dense: int) -> bool {
        self.resident_cache@[dense] is Some
    }

    pub open spec fn owns_slab(&self, dense: int) -> bool {
        self.slab_occupant@[self.slab(dense)] == Some(dense as u32)
    }

    /// A cached layer still owns its slab, so its arena bytes are valid.
    pub open spec fn coherent(&self) -> bool {
        forall|d: int|
            0 <= d < self.num_moe_layers && #[trigger] self.cached(d) ==> self.owns_slab(d)
    }

    /// Everything but the four tables.
    pub open spec fn same_shape(&self, other: &ExpertStreamerShared) -> bool {
        &&& self.num_slabs == other.num_slabs
        &&& self.num_moe_layers == other.num_moe_layers
        &&& self.kind == other.kind
    }

    /// Starts with nothing resident and nothing requested.
    pub fn open(config: &StreamConfig, index: &StoreIndex, kind: TierKind) -> (r: Result<
        ExpertStreamerShared,
        StreamOpenError,
    >)
        requires
            config.local_lo <= config.local_hi,
            config.arena_layers != 0 ==> index.num_moe_layers > 0,
        ensures
            match open_refusal(*config, *index) {
                Some(e) => r matches Err(x) && x == e,
                None => r is Ok,
            },
            r matches Ok(s) ==> {
                &&& s.wf()
                &&& s.coherent()
                &&& s.kind == kind
                &&& s.num_moe_layers == index.num_moe_layers
                &&& s.num_slabs == (if config.arena_layers == 0 {
                    index.num_moe_layers
                } else {
                    slabs_of(config.arena_layers as u32, index.num_moe_layers)
                })
                &&& forall|d: int|
                    0 <= d < s.num_moe_layers ==> !#[trigger] s.cached(d) && !s.requested@[d]
                        && s.done@[d] is None
                &&& forall|k: int| 0 <= k < s.num_slabs ==> s.slab_occupant@[k] is None
            },
    {
        let shape: ArenaShape = match arena_shape(config, index) {
            Ok(a) => a,
            Err(e) => {
                return Err(e);
            },
        };
        let layers: u32 = index.num_moe_layers;
        let mut requested: Vec<bool> = Vec::new();
        let mut resident_cache: Vec<Option<Vec<ExpertResidency>>> = Vec::new();
        let mut done: Vec<Option<Result<Vec<ExpertResidency>, String>>> = Vec::new();
        let mut slab_occupant: Vec<Option<u32>> = Vec::new();
        let mut i: u32 = 0;
        while i < layers
            invariant
                i <= layers,
                requested@.len() == i,
                resident_cache@.len() == i,
                done@.len() == i,
                forall|d: int|
                    0 <= d < i ==> !requested@[d] && #[trigger] resident_cache@[d] is None && done@[d] is None,
            decreases layers - i,
        {
            requested.push(false);
            resident_cache.push(None);
            done.push(None);
            i = i + 1;
        }
        let mut k: u32 = 0;
        while k < shape.num_slabs
            invariant
                k <= shape.num_slabs,
                slab_occupant@.len() == k,
                forall|d: int| 0 <= d < k ==> slab_occupant@[d] is None,
            decreases shape.num_slabs - k,
        {
            slab_occupant.push(None);
            k = k + 1;
        }
        Ok(
            ExpertStreamerShared {
                requested,
                resident_cache,
                slab_occupant,
                done,
                num_slabs: shape.num_slabs,
                num_moe_layers: layers,
                kind,
            },
        )
    }

    pub fn num_moe_layers(&self) -> (r: u32)
        ensures
            r == self.num_moe_layers,
    {
        self.num_moe_layers
    }

    pub fn num_slabs(&self) -> (r: u32)
        ensures
            r == self.num_slabs,
    {
        self.num_slabs
    }

    pub fn kind(&self) -> (r: TierKind)
        ensures
            r == self.kind,
    {
        self.kind
    }

    /// Whether `dense` is resident in its slab.
    pub open spec fn hit(&self, dense: int) -> bool {
        self.owns_slab(dense) && self.cached(dense)
    }

    /// `after` is this book once layer `dense` has claimed its slab: the layer
    /// owns the slab and is requested, and the slab's previous owner is no
    /// longer resident.
    pub open spec fn claims(&self, after: &ExpertStreamerShared, dense: u32) -> bool {
        let slab = self.slab(dense as int);
        &&& after.slab_occupant@ == self.slab_occupant@.update(slab, Some(dense))
        &&& after.requested@ == self.requested@.update(dense as int, true)
        &&& forall|d: int|
            0 <= d < self.num_moe_layers ==> #[trigger] after.resident_cache@[d] == (
            if self.slab_occupant@[slab] == Some(d as u32) && d != dense {
                None
            } else {
                self.resident_cache@[d]
            })
    }

    /// Asks for the whole local range of layer `dense`.
    ///
    /// A resident layer needs no fetch. Otherwise the layer claims its slab,
    /// the slab's previous owner is no longer resident, and a job is handed
    /// out unless one for this layer is under way.
    pub fn prefetch(&mut self, dense: u32, lo: u32, hi: u32) -> (job: Option<Job>)
        requires
            old(self).wf(),
        ensures
            final(self).wf(),
            final(self).same_shape(old(self)),
            final(self).done@ == old(self).done@,
            old(self).coherent() ==> final(self).coherent(),
            dense >= old(self).num_moe_layers || old(self).hit(dense as int) ==> {
                &&& job is None
                &&& *final(self) == *old(self)
            },
            dense < old(self).num_moe_layers && !old(self).hit(dense as int) ==> {
                &&& old(self).claims(final(self), dense)
                &&& job is Some <==> !old(self).requested@[dense as int]
                &&& job matches Some(j) ==> j.dense == dense && j.lo == lo && j.hi == hi
                    && j.experts is None
            },
    {
        if dense >= self.num_moe_layers {
            return None;
        }
        let slab: usize = (dense % self.num_slabs) as usize;
        let owner: Option<u32> = self.slab_occupant[slab];
        if let Some(o) = owner {
            if o == dense && self.resident_cache[dense as usize].is_some() {
                return None;
            }
            if o != dense {
                self.resident_cache.set(o as usize, None);
            }
        }
        self.slab_occupant.set(slab, Some(dense));
        let first: bool = !self.requested[dense as usize];
        self.requested.set(dense as usize, true);
        proof {
            let before = *old(self);
            if before.coherent() {
                assert forall|d: int| 0 <= d < self.num_moe_layers && #[trigger] self.cached(d) implies self.owns_slab(
                    d,
                ) by {
                    assert(before.cached(d));
                    assert(before.owns_slab(d));
                    if self.slab(d) == slab && d != dense {
                        assert(before.slab_occupant@[slab as int] == Some(d as u32));
                        assert(false);
                    }
                }
            }
        }
        if first {
            Some(Job { dense, lo, hi, experts: None })
        } else {
            None
        }
    }

    /// `after` is this book once part of the slab of layer `dense` is about to be
    /// overwritten: nobody owns the slab, and neither its previous owner nor `dense`
    /// is resident.
    pub open spec fn overwrites(&self, after: &ExpertStreamerShared, dense: u32) -> bool {
        let slab = self.slab(dense as int);
        &&& after.slab_occupant@ == self.slab_occupant@.update(slab, None)
        &&& forall|d: int|
            0 <= d < self.num_moe_layers ==> #[trigger] after.resident_cache@[d] == (
            if self.slab_occupant@[slab] == Some(d as u32) || d == dense {
                None
            } else {
                self.resident_cache@[d]
            })
    }

    /// Asks for only the experts `active` of layer `dense`.
    ///
    /// The slab is about to be overwritten in part, so neither its owner nor
    /// `dense` is resident any more. The job is always handed out.
    pub fn prefetch_sparse(&mut self, dense: u32, active: &[u32], lo: u32, hi: u32) -> (job: Option<
        Job,
    >)
        requires
            old(self).wf(),
        ensures
            final(self).wf(),
            final(self).same_shape(old(self)),
            final(self).done@ == old(self).done@,
            final(self).requested@ == old(self).requested@,
            old(self).coherent() ==> final(self).coherent(),
            dense >= old(self).num_moe_layers ==> job is None && *final(self) == *old(self),
            dense < old(self).num_moe_layers ==> {
                &&& old(self).overwrites(final(self), dense)
                &&& job matches Some(j) && j.dense == dense && j.lo == lo && j.hi == hi
                    && (j.experts matches Some(ids) && ids@ == active@)
            },
    {
        if dense >= self.num_moe_layers {
            return None;
        }
        let slab: usize = (dense % self.num_slabs) as usize;
        let previous: Option<u32> = self.slab_occupant[slab];
        self.slab_occupant.set(slab, None);
        if let Some(p) = previous {
            self.resident_cache.set(p as usize, None);
        }
        self.resident_cache.set(dense as usize, None);
        let mut ids: Vec<u32> = Vec::new();
        let mut i: usize = 0;
        while i < active.len()
            invariant
                i <= active@.len(),
                ids@ == active@.take(i as int),
            decreases active@.len() - i,
        {
            ids.push(active[i]);
            i = i + 1;
            assert(ids@ =~= active@.take(i as int));
        }
        assert(ids@ =~= active@);
        proof {
            let before = *old(self);
            if before.coherent() {
                assert forall|d: int| 0 <= d < self.num_moe_layers && #[trigger] self.cached(d) implies self.owns_slab(
                    d,
                ) by {
                    assert(before.cached(d));
                    assert(before.owns_slab(d));
                }
            }
        }
        Some(Job { dense, lo, hi, experts: Some(ids) })
    }

    /// Reports that the fetch for layer `dense` has landed or failed. A layer
    /// that the model lacks is never asked for and changes nothing.
    pub fn complete(&mut self, dense: u32, result: Result<Vec<ExpertResidency>, String>)
        requires
            old(self).wf(),
        ensures
            final(self).wf(),
            final(self).same_shape(old(self)),
            final(self).requested@ == old(self).requested@,
            final(self).resident_cache@ == old(self).resident_cache@,
            final(self).slab_occupant@ == old(self).slab_occupant@,
            old(self).coherent() ==> final(self).coherent(),
            dense < old(self).num_moe_layers ==> final(self).done@ == old(self).done@.update(
                dense as int,
                Some(result),
            ),
            dense >= old(self).num_moe_layers ==> final(self).done@ == old(self).done@,
    {
        if dense < self.num_moe_layers {
            self.done.set(dense as usize, Some(result));
        }
        proof {
            let before = *old(self);
            assert(forall|d: int| #[trigger] self.cached(d) == before.cached(d));
            assert(forall|d: int| #[trigger] self.owns_slab(d) == before.owns_slab(d));
        }
    }

    /// The landed sparse fetch of layer `dense`, or nothing while it is under
    /// way. Residencies come in the order in which the experts were asked for.
    pub fn take_active(&mut self, dense: u32) -> (r: Option<Result<Vec<ExpertResidency>, String>>)
        requires
            old(self).wf(),
            dense < old(self).num_moe_layers,
        ensures
            final(self).wf(),
            final(self).same_shape(old(self)),
            final(self).requested@ == old(self).requested@,
            final(self).resident_cache@ == old(self).resident_cache@,
            final(self).slab_occupant@ == old(self).slab_occupant@,
            old(self).coherent() ==> final(self).coherent(),
            r == old(self).done@[dense as int],
            final(self).done@ == old(self).done@.update(dense as int, None),
    {
        let mut entry: Option<Result<Vec<ExpertResidency>, String>> = None;
        std::mem::swap(&mut entry, &mut self.done[dense as usize]);
        proof {
            let before = *old(self);
            assert(forall|d: int| #[trigger] self.cached(d) == before.cached(d));
            assert(forall|d: int| #[trigger] self.owns_slab(d) == before.owns_slab(d));
        }
        entry
    }

    /// The residencies of layer `dense`, or nothing while its fetch is under
    /// way. A resident layer answers at once; a landed fetch becomes resident.
    pub fn take(&mut self, dense: u32) -> (r: Option<Result<Vec<ExpertResidency>, String>>)
        requires
            old(self).wf(),
            dense < old(self).num_moe_layers,
        ensures
            final(self).wf(),
            final(self).same_shape(old(self)),
            final(self).slab_occupant@ == old(self).slab_occupant@,
            old(self).coherent() && old(self).owns_slab(dense as int) ==> final(self).coherent(),
            match old(self).resident_cache@[dense as int] {
                Some(c) => {
                    &&& r matches Some(Ok(v)) && v@ == c@
                    &&& *final(self) == *old(self)
                },
                None => match old(self).done@[dense as int] {
                    None => r is None && *final(self) == *old(self),
                    Some(Err(e)) => {
                        &&& r matches Some(Err(x)) && x == e
                        &&& final(self).done@ == old(self).done@.update(dense as int, None)
                        &&& final(self).requested@ == old(self).requested@.update(dense as int, false)
                        &&& final(self).resident_cache@ == old(self).resident_cache@
                    },
                    Some(Ok(c)) => {
                        &&& r matches Some(Ok(v)) && v@ == c@
                        &&& final(self).done@ == old(self).done@.update(dense as int, None)
                        &&& final(self).requested@ == old(self).requested@.update(dense as int, false)
                        &&& final(self).resident_cache@ == old(self).resident_cache@.update(
                            dense as int,
                            Some(c),
                        )
                    },
                },
            },
    {
        if let Some(c) = &self.resident_cache[dense as usize] {
            return Some(Ok(copy_residencies(c)));
        }
        if self.done[dense as usize].is_none() {
            return None;
        }
        let mut entry: Option<Result<Vec<ExpertResidency>, String>> = None;
        std::mem::swap(&mut entry, &mut self.done[dense as usize]);
        self.requested.set(dense as usize, false);
        let ghost before = *old(self);
        match entry {
            Some(Ok(c)) => {
                let v: Vec<ExpertResidency> = copy_residencies(&c);
                self.resident_cache.set(dense as usize, Some(c));
                proof {
                    if before.coherent() && before.owns_slab(dense as int) {
                        assert forall|d: int|
                            0 <= d < self.num_moe_layers && #[trigger] self.cached(
                                d,
                            ) implies self.owns_slab(d) by {
                            assert(self.owns_slab(d) == before.owns_slab(d));
                            if d != dense {
                                assert(before.cached(d));
                            }
                        }
                    }
                }
                Some(Ok(v))
            },
            Some(Err(e)) => {
                proof {
                    assert(forall|d: int| #[trigger] self.cached(d) == before.cached(d));
                    assert(forall|d: int| #[trigger] self.owns_slab(d) == before.owns_slab(d));
                }
                Some(Err(e))
            },
            None => None,
        }
    }

    /// Records that everything before has read the slab of layer `dense`.
    pub fn record_consumed(&self, cb: &mut CommandBuffer, dense: u32)
        requires
            self.num_slabs > 0,
        ensures
            final(cb)@ == old(cb)@.push(
                Cmd::Op(DeviceOp::RecordSlabConsumed { slab: (dense % self.num_slabs) as u32 }),
            ),
    {
        cb.op(DeviceOp::RecordSlabConsumed { slab: dense % self.num_slabs });
    }

    /// Waits until the slab of layer `dense` has been read by its last reader.
    pub fn wait_slab_free(&self, cb: &mut CommandBuffer, dense: u32)
        requires
            self.num_slabs > 0,
        ensures
            final(cb)@ == old(cb)@.push(
                Cmd::Op(DeviceOp::WaitSlabFree { slab: (dense % self.num_slabs) as u32 }),
            ),
    {
        cb.op(DeviceOp::WaitSlabFree { slab: dense % self.num_slabs });
    }
}

/// With a slab for every layer a resident layer stays resident whatever other
/// layer is asked for.
pub proof fn law_full_arena_never_evicts(
    before: ExpertStreamerShared,
    after: ExpertStreamerShared,
    dense: u32,
    d: int,
)
    requires
        before.wf(),
        before.num_slabs >= before.num_moe_layers,
        dense < before.num_moe_layers,
        0 <= d < before.num_moe_layers,
        d != dense,
        before.hit(d),
        after.same_shape(&before),
        before.claims(&after, dense),
    ensures
        after.hit(d),
{
    let n = before.num_slabs as nat;
    vstd::arithmetic::div_mod::lemma_small_mod(d as nat, n);
    vstd::arithmetic::div_mod::lemma_small_mod(dense as nat, n);
    assert(after.resident_cache@[d] == before.resident_cache@[d]);
}

/// Once a layer that owns its slab is taken, asking for it again is a hit: the
/// book hands out no job and stays as it is.
pub proof fn law_taken_layer_is_a_hit(
    before: ExpertStreamerShared,
    after: ExpertStreamerShared,
    dense: int,
    c: Vec<ExpertResidency>,
)
    requires
        before.wf(),
        0 <= dense < before.num_moe_layers,
        before.owns_slab(dense),
        after.same_shape(&before),
        after.slab_occupant@ == before.slab_occupant@,
        after.resident_cache@ == before.resident_cache@.update(dense, Some(c)),
    ensures
        after.hit(dense),
{
}

/// After a sparse fetch no layer that lands in the slab is a hit, so a later
/// request for its whole range fetches again. Layers of other slabs stay as they
/// were.
pub proof fn law_sparse_fetch_forces_refetch(
    before: ExpertStreamerShared,
    after: ExpertStreamerShared,
    dense: u32,
    d: int,
)
    requires
        before.wf(),
        before.coherent(),
        dense < before.num_moe_layers,
        0 <= d < before.num_moe_layers,
        after.same_shape(&before),
        before.overwrites(&after, dense),
    ensures
        before.slab(d) == before.slab(dense as int) ==> !after.hit(d),
        before.slab(d) != before.slab(dense as int) ==> after.hit(d) == before.hit(d),
{
    let slab = before.slab(dense as int);
    vstd::arithmetic::div_mod::lemma_mod_bound(dense as int, before.num_slabs as int);
    vstd::arithmetic::div_mod::lemma_mod_bound(d, before.num_slabs as int);
    assert(after.resident_cache@[d] == (if before.slab_occupant@[slab] == Some(d as u32) || d == dense {
        None
    } else {
        before.resident_cache@[d]
    }));
}

} // verus!
