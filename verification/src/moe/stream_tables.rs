//! Installing streamed experts into a layer's pointer tables.
//!
//! A layer's tables stay where they are; only entries of fetched experts
//! change. Tables are read to host copies, patched there, and written back
//! with one transfer per array.
use crate::device::{Cmd, CommandBuffer, DevicePtr, Scalar};
use crate::moe::streamer::{ExpertResidency, ExpertStreamerShared, Job, Proj, ProjResidency};
use crate::num::{as_signed, decode_scalars, decode_u64s, le_u32, le_u64, push_u64, read_i32, u64_bytes};
use crate::ops_table::DeviceOp;
use crate::text::parse_u32;
use vstd::prelude::*;

verus! {

/// Largest prefill that fetches only the experts it routes to, from the value
/// of `ATLAS_EXPERT_REACTIVE_MAX_TOKENS`; one where that is unset or no number.
pub fn reactive_max_tokens(value: Option<&str>) -> (r: u32)
    ensures
        r == (match value {
            Some(s) => match crate::text::decimal(vstd::utf8::encode_utf8(s@)) {
                Some(v) => if v <= u32::MAX {
                    v as u32
                } else {
                    1
                },
                None => 1,
            },
            None => 1,
        }),
{
    match value {
        Some(s) => match parse_u32(s) {
            Some(v) => v,
            None => 1,
        },
        None => 1,
    }
}

/// First sorted row of expert `e` in a readback of the offset table.
pub open spec fn offset_of(offsets: Seq<u8>, e: int) -> int {
    as_signed(le_u32(offsets, 4 * e))
}

/// Whether any row is routed to expert `e`.
pub open spec fn routed(offsets: Seq<u8>, e: int) -> bool {
    offset_of(offsets, e) < offset_of(offsets, e + 1)
}

/// Local experts that some row is routed to, in increasing order.
pub fn active_experts_from_offsets(offsets: &[u8], lo: usize, hi: usize) -> (r: Vec<u32>)
    requires
        lo < hi ==> 4 * (hi + 1) <= offsets@.len(),
        hi <= u32::MAX,
    ensures
        forall|e: int| #[trigger]
            r@.contains(e as u32) && 0 <= e <= u32::MAX ==> lo <= e < hi && routed(offsets@, e),
        forall|e: int|
            lo <= e < hi && routed(offsets@, e) ==> #[trigger] r@.contains(e as u32),
        forall|i: int, j: int| 0 <= i < j < r@.len() ==> r@[i] < r@[j],
{
    let mut out: Vec<u32> = Vec::new();
    if lo >= hi {
        return out;
    }
    let mut e: usize = lo;
    while e < hi
        invariant
            lo <= e <= hi,
            4 * (hi + 1) <= offsets@.len(),
            4 * (hi + 1) <= offsets.len(),
            hi <= u32::MAX,
            forall|i: int|
                0 <= i < out@.len() ==> lo <= #[trigger] out@[i] < e && routed(offsets@, out@[i] as int),
            forall|x: int|
                lo <= x < e && #[trigger] routed(offsets@, x) ==> exists|i: int|
                    0 <= i < out@.len() && out@[i] == x,
            forall|i: int, j: int| 0 <= i < j < out@.len() ==> out@[i] < out@[j],
        decreases hi - e,
    {
        let first: i32 = read_i32(offsets, e * 4);
        let next: i32 = read_i32(offsets, (e + 1) * 4);
        let ghost before = out@;
        if next > first {
            out.push(e as u32);
            proof {
                assert(out@[before.len() as int] == e);
                assert forall|x: int| lo <= x < e + 1 && #[trigger] routed(offsets@, x) implies exists|
                    i: int,
                |
                    0 <= i < out@.len() && out@[i] == x by {
                    if x < e {
                        let i = choose|i: int| 0 <= i < before.len() && before[i] == x;
                        assert(out@[i] == x);
                    }
                }
            }
        }
        e = e + 1;
    }
    proof {
        assert forall|x: int| lo <= x < hi && routed(offsets@, x) implies #[trigger] out@.contains(
            x as u32,
        ) by {
            let i = choose|i: int| 0 <= i < out@.len() && out@[i] == x;
            assert(out@[i] == x as u32);
        }
        assert forall|x: int| #[trigger] out@.contains(x as u32) && 0 <= x <= u32::MAX implies lo <= x
            < hi && routed(offsets@, x) by {
            let i = choose|i: int| 0 <= i < out@.len() && out@[i] == x as u32;
            assert(out@[i] == x);
        }
    }
    out
}

/// Whether a prefill fetches only the experts it routes to. Reading the offset
/// table back is not possible while a graph is captured.
pub fn takes_reactive_path(has_streamer: bool, graph_capture: bool, num_tokens: usize, max: u32) -> (r:
    bool)
    ensures
        r == (has_streamer && !graph_capture && (num_tokens as u32) <= max),
{
    has_streamer && !graph_capture && num_tokens as u32 <= max
}

/// Device arrays of one projection: packed weights, block scales, global scales.
#[derive(Debug, Clone, Copy, PartialEq, Eq, Structural)]
pub struct ExpertPtrTable {
    pub packed_ptrs: DevicePtr,
    pub scale_ptrs: DevicePtr,
    pub scale2_vals: DevicePtr,
}

/// Host copy of one [`ExpertPtrTable`].
#[derive(Debug, PartialEq, Eq)]
pub struct Shadow {
    pub packed: Vec<u64>,
    pub scale: Vec<u64>,
    pub scale2: Vec<Scalar>,
}

/// Little-endian bytes of `vals`.
pub open spec fn u64s_bytes(vals: Seq<u64>) -> Seq<u8>
    decreases vals.len(),
{
    if vals.len() == 0 {
        Seq::empty()
    } else {
        u64s_bytes(vals.drop_last()) + u64_bytes(vals.last() as int)
    }
}

/// Little-endian bytes of `vals`.
pub fn encode_u64s(vals: &Vec<u64>) -> (r: Vec<u8>)
    ensures
        r@ == u64s_bytes(vals@),
{
    let mut out: Vec<u8> = Vec::new();
    let mut i: usize = 0;
    while i < vals.len()
        invariant
            i <= vals@.len(),
            out@ == u64s_bytes(vals@.take(i as int)),
        decreases vals@.len() - i,
    {
        push_u64(&mut out, vals[i]);
        proof {
            let next = vals@.take(i + 1);
            assert(next.drop_last() =~= vals@.take(i as int));
        }
        i = i + 1;
    }
    assert(vals@.take(vals@.len() as int) =~= vals@);
    out
}

/// Reading back what was encoded gives the values.
pub proof fn law_pointers_round_trip(vals: Seq<u64>, i: int)
    requires
        0 <= i < vals.len(),
    ensures
        u64s_bytes(vals).len() == 8 * vals.len(),
        le_u64(u64s_bytes(vals), 8 * i) == vals[i],
    decreases vals.len(),
{
    let init = vals.drop_last();
    let head = u64s_bytes(init);
    let tail = u64_bytes(vals.last() as int);
    crate::num::lemma_u64_bytes_round_trip(vals.last() as int);
    if init.len() > 0 {
        law_pointers_round_trip(init, 0);
    }
    assert(head.len() == 8 * init.len());
    let all = head + tail;
    if i < init.len() {
        law_pointers_round_trip(init, i);
        assert(forall|k: int| 0 <= k < 8 ==> all[8 * i + k] == #[trigger] head[8 * i + k]);
        assert(all[8 * i + 1] == head[8 * i + 1] && all[8 * i + 2] == head[8 * i + 2] && all[8 * i + 3]
            == head[8 * i + 3] && all[8 * i + 4] == head[8 * i + 4] && all[8 * i + 5] == head[8 * i + 5]
            && all[8 * i + 6] == head[8 * i + 6] && all[8 * i + 7] == head[8 * i + 7]);
    } else {
        assert(all[8 * i] == tail[0] && all[8 * i + 1] == tail[1] && all[8 * i + 2] == tail[2] && all[8
            * i + 3] == tail[3] && all[8 * i + 4] == tail[4] && all[8 * i + 5] == tail[5] && all[8 * i
            + 6] == tail[6] && all[8 * i + 7] == tail[7]);
    }
}

impl Shadow {
    pub open spec fn sized(&self, n: int) -> bool {
        &&& self.packed@.len() == n
        &&& self.scale@.len() == n
        &&& self.scale2@.len() == n
    }

    /// Entry `e` of the three arrays.
    pub open spec fn entry(&self, e: int) -> ProjResidency {
        ProjResidency {
            packed_addr: self.packed@[e],
            scale_addr: self.scale@[e],
            scale2: self.scale2@[e],
        }
    }

    /// Decodes a readback of the three arrays of `n` experts.
    pub fn read(packed: &[u8], scale: &[u8], scale2: &[u8], n: usize) -> (r: Shadow)
        requires
            packed.len() >= 8 * n,
            scale.len() >= 8 * n,
            scale2.len() >= 4 * n,
        ensures
            r.sized(n as int),
            forall|i: int|
                0 <= i < n ==> {
                    &&& #[trigger] r.packed@[i] == le_u64(packed@, 8 * i)
                    &&& r.scale@[i] == le_u64(scale@, 8 * i)
                    &&& r.scale2@[i].0 == le_u32(scale2@, 4 * i)
                },
    {
        Shadow {
            packed: decode_u64s(packed, n),
            scale: decode_u64s(scale, n),
            scale2: decode_scalars(scale2, n),
        }
    }

    /// Writes of the three arrays, one per array.
    pub fn write(&self, t: &ExpertPtrTable) -> (r: Vec<HostWrite>)
        ensures
            r@.len() == 3,
            r@[0].dst == t.packed_ptrs && r@[0].bytes@ == u64s_bytes(self.packed@),
            r@[1].dst == t.scale_ptrs && r@[1].bytes@ == u64s_bytes(self.scale@),
            r@[2].dst == t.scale2_vals && r@[2].bytes@.len() == 4 * self.scale2@.len(),
            forall|i: int|
                0 <= i < self.scale2@.len() ==> #[trigger] le_u32(r@[2].bytes@, 4 * i)
                    == self.scale2@[i].0,
    {
        let mut out: Vec<HostWrite> = Vec::new();
        out.push(HostWrite { dst: t.packed_ptrs, bytes: encode_u64s(&self.packed) });
        out.push(HostWrite { dst: t.scale_ptrs, bytes: encode_u64s(&self.scale) });
        let words: Vec<u8> = crate::moe::b12x_scales::f32_slice_bytes(self.scale2.as_slice());
        out.push(HostWrite { dst: t.scale2_vals, bytes: words });
        out
    }
}

/// Bytes to place on the device.
#[derive(Debug, PartialEq, Eq)]
pub struct HostWrite {
    pub dst: DevicePtr,
    pub bytes: Vec<u8>,
}

/// An expert and where its record lies.
#[derive(Debug, Clone, Copy, PartialEq, Eq, Structural)]
pub struct Patch {
    pub expert: usize,
    pub at: ExpertResidency,
}

/// Why tables could not be patched.
#[derive(Debug, Clone, Copy, PartialEq, Eq, Structural)]
pub enum InstallError {
    /// The layer has no transposed tables.
    TablesMissing,
    /// A fetch gave another number of records than was asked for.
    ResidencyCount { got: usize, expected: usize },
}

/// Pairs fetched records with the experts that were asked for: the local range
/// in order, or the active experts in order.
pub fn patch_list(
    active: Option<&Vec<u32>>,
    lo: usize,
    hi: usize,
    residencies: &Vec<ExpertResidency>,
) -> (r: Result<Vec<Patch>, InstallError>)
    requires
        lo <= hi,
    ensures
        ({
            let expected = match active {
                Some(ids) => ids@.len() as int,
                None => hi - lo,
            };
            if residencies@.len() != expected {
                r matches Err(e) && e == (InstallError::ResidencyCount {
                    got: residencies@.len() as usize,
                    expected: expected as usize,
                })
            } else {
                r matches Ok(p) && p@ == Seq::new(
                    residencies@.len(),
                    |i: int|
                        Patch {
                            expert: match active {
                                Some(ids) => ids@[i] as usize,
                                None => (lo + i) as usize,
                            },
                            at: residencies@[i],
                        },
                )
            }
        }),
{
    let expected: usize = match active {
        Some(ids) => ids.len(),
        None => hi - lo,
    };
    let n: usize = residencies.len();
    if n != expected {
        return Err(InstallError::ResidencyCount { got: n, expected });
    }
    let mut out: Vec<Patch> = Vec::new();
    let mut i: usize = 0;
    while i < n
        invariant
            i <= n,
            n == residencies@.len(),
            active matches Some(ids) ==> ids@.len() == n,
            active is None ==> hi - lo == n,
            out@ == Seq::new(
                i as nat,
                |j: int|
                    Patch {
                        expert: match active {
                            Some(ids) => ids@[j] as usize,
                            None => (lo + j) as usize,
                        },
                        at: residencies@[j],
                    },
            ),
        decreases n - i,
    {
        let expert: usize = match active {
            Some(ids) => ids[i] as usize,
            None => lo + i,
        };
        out.push(Patch { expert, at: residencies[i] });
        i = i + 1;
        assert(out@ =~= Seq::new(
            i as nat,
            |j: int|
                Patch {
                    expert: match active {
                        Some(ids) => ids@[j] as usize,
                        None => (lo + j) as usize,
                    },
                    at: residencies@[j],
                },
        ));
    }
    Ok(out)
}

/// Last of the first `n` patches that names expert `e`.
pub open spec fn last_patch(patch: Seq<Patch>, e: int, n: nat) -> Option<ExpertResidency>
    decreases n,
{
    if n == 0 {
        None
    } else if patch[n - 1].expert == e {
        Some(patch[n - 1].at)
    } else {
        last_patch(patch, e, (n - 1) as nat)
    }
}

/// Entry `e` of one projection's table after patching.
pub open spec fn patched_entry(
    before: ProjResidency,
    patch: Seq<Patch>,
    p: Proj,
    e: int,
) -> ProjResidency {
    match last_patch(patch, e, patch.len()) {
        Some(r) => r.proj(p),
        None => before,
    }
}

/// Overwrites the entries of the patched experts and leaves all others alone.
pub fn apply_patch(t: &mut Shadow, patch: &Vec<Patch>, p: Proj)
    requires
        old(t).sized(old(t).packed@.len() as int),
        forall|i: int| 0 <= i < patch@.len() ==> (#[trigger] patch@[i]).expert < old(t).packed@.len(),
    ensures
        final(t).sized(old(t).packed@.len() as int),
        forall|e: int|
            0 <= e < old(t).packed@.len() ==> #[trigger] final(t).entry(e) == patched_entry(
                old(t).entry(e),
                patch@,
                p,
                e,
            ),
{
    let ghost before = *t;
    let ghost n = t.packed@.len() as int;
    let mut i: usize = 0;
    while i < patch.len()
        invariant
            i <= patch@.len(),
            n == before.packed@.len(),
            t.sized(n),
            forall|j: int| 0 <= j < patch@.len() ==> (#[trigger] patch@[j]).expert < n,
            forall|e: int|
                0 <= e < n ==> #[trigger] t.entry(e) == (match last_patch(patch@, e, i as nat) {
                    Some(r) => r.proj(p),
                    None => before.entry(e),
                }),
        decreases patch@.len() - i,
    {
        let one: Patch = patch[i];
        let r: ProjResidency = one.at.of(p);
        let ghost was = *t;
        t.packed.set(one.expert, r.packed_addr);
        t.scale.set(one.expert, r.scale_addr);
        t.scale2.set(one.expert, r.scale2);
        proof {
            assert forall|e: int| 0 <= e < n implies #[trigger] t.entry(e) == (match last_patch(
                patch@,
                e,
                (i + 1) as nat,
            ) {
                Some(r) => r.proj(p),
                None => before.entry(e),
            }) by {
                assert(was.entry(e) == (match last_patch(patch@, e, i as nat) {
                    Some(r) => r.proj(p),
                    None => before.entry(e),
                }));
                if e != one.expert {
                    assert(t.entry(e) == was.entry(e));
                }
            }
        }
        i = i + 1;
    }
}

/// An expert that no patch names keeps its entry, whatever is patched: remote
/// and idle experts are never touched.
pub proof fn law_unpatched_entries_keep(before: ProjResidency, patch: Seq<Patch>, p: Proj, e: int)
    requires
        forall|i: int| 0 <= i < patch.len() ==> (#[trigger] patch[i]).expert != e,
    ensures
        patched_entry(before, patch, p, e) == before,
{
    lemma_no_patch(patch, e, patch.len());
}

proof fn lemma_no_patch(patch: Seq<Patch>, e: int, n: nat)
    requires
        n <= patch.len(),
        forall|i: int| 0 <= i < patch.len() ==> (#[trigger] patch[i]).expert != e,
    ensures
        last_patch(patch, e, n) is None,
    decreases n,
{
    if n > 0 {
        lemma_no_patch(patch, e, (n - 1) as nat);
    }
}

/// An expert that exactly one patch names gets that record.
pub proof fn law_patched_entry_is_fetched(
    before: ProjResidency,
    patch: Seq<Patch>,
    p: Proj,
    k: int,
)
    requires
        0 <= k < patch.len(),
        forall|i: int|
            0 <= i < patch.len() && i != k ==> (#[trigger] patch[i]).expert != patch[k].expert,
    ensures
        patched_entry(before, patch, p, patch[k].expert as int) == patch[k].at.proj(p),
{
    lemma_one_patch(patch, k, patch.len());
}

proof fn lemma_one_patch(patch: Seq<Patch>, k: int, n: nat)
    requires
        0 <= k < n <= patch.len(),
        forall|i: int|
            0 <= i < patch.len() && i != k ==> (#[trigger] patch[i]).expert != patch[k].expert,
    ensures
        last_patch(patch, patch[k].expert as int, n) == Some(patch[k].at),
    decreases n,
{
    if k < n - 1 {
        lemma_one_patch(patch, k, (n - 1) as nat);
    }
}

/// The three tables that streaming patches.
#[derive(Debug, Clone, Copy, PartialEq, Eq, Structural)]
pub struct TransposedTables {
    pub gate: ExpertPtrTable,
    pub up: ExpertPtrTable,
    pub down: ExpertPtrTable,
}

/// The tables to patch, all three or none.
pub fn streamed_tables(
    gate: Option<ExpertPtrTable>,
    up: Option<ExpertPtrTable>,
    down: Option<ExpertPtrTable>,
) -> (r: Result<TransposedTables, InstallError>)
    ensures
        r == (if gate is Some && up is Some && down is Some {
            Ok::<TransposedTables, InstallError>(
                TransposedTables { gate: gate->0, up: up->0, down: down->0 },
            )
        } else {
            Err::<TransposedTables, InstallError>(InstallError::TablesMissing)
        }),
{
    match (gate, up, down) {
        (Some(gate), Some(up), Some(down)) => Ok(TransposedTables { gate, up, down }),
        _ => Err(InstallError::TablesMissing),
    }
}

/// Patches the host copies of a layer's three tables and gives the writes that
/// bring them to the device: three per projection, however many experts change.
pub fn install_streamed_tables(
    t: &TransposedTables,
    g: &mut Shadow,
    u: &mut Shadow,
    d: &mut Shadow,
    patch: &Vec<Patch>,
) -> (r: Vec<HostWrite>)
    requires
        old(g).sized(old(g).packed@.len() as int),
        old(u).sized(old(g).packed@.len() as int),
        old(d).sized(old(g).packed@.len() as int),
        forall|i: int| 0 <= i < patch@.len() ==> (#[trigger] patch@[i]).expert < old(g).packed@.len(),
    ensures
        final(g).sized(old(g).packed@.len() as int),
        final(u).sized(old(g).packed@.len() as int),
        final(d).sized(old(g).packed@.len() as int),
        forall|e: int|
            0 <= e < old(g).packed@.len() ==> {
                &&& #[trigger] final(g).entry(e) == patched_entry(old(g).entry(e), patch@, Proj::Gate, e)
                &&& final(u).entry(e) == patched_entry(old(u).entry(e), patch@, Proj::Up, e)
                &&& final(d).entry(e) == patched_entry(old(d).entry(e), patch@, Proj::Down, e)
            },
        r@.len() == 9,
        r@[0].dst == t.gate.packed_ptrs && r@[0].bytes@ == u64s_bytes(final(g).packed@),
        r@[1].dst == t.gate.scale_ptrs && r@[1].bytes@ == u64s_bytes(final(g).scale@),
        r@[2].dst == t.gate.scale2_vals,
        r@[3].dst == t.up.packed_ptrs && r@[3].bytes@ == u64s_bytes(final(u).packed@),
        r@[4].dst == t.up.scale_ptrs && r@[4].bytes@ == u64s_bytes(final(u).scale@),
        r@[5].dst == t.up.scale2_vals,
        r@[6].dst == t.down.packed_ptrs && r@[6].bytes@ == u64s_bytes(final(d).packed@),
        r@[7].dst == t.down.scale_ptrs && r@[7].bytes@ == u64s_bytes(final(d).scale@),
        r@[8].dst == t.down.scale2_vals,
        forall|i: int|
            0 <= i < old(g).packed@.len() ==> {
                &&& #[trigger] le_u32(r@[2].bytes@, 4 * i) == final(g).scale2@[i].0
                &&& le_u32(r@[5].bytes@, 4 * i) == final(u).scale2@[i].0
                &&& le_u32(r@[8].bytes@, 4 * i) == final(d).scale2@[i].0
            },
{
    apply_patch(g, patch, Proj::Gate);
    apply_patch(u, patch, Proj::Up);
    apply_patch(d, patch, Proj::Down);
    proof {
        assert forall|e: int| 0 <= e < old(g).packed@.len() implies {
            &&& #[trigger] g.entry(e) == patched_entry(old(g).entry(e), patch@, Proj::Gate, e)
            &&& u.entry(e) == patched_entry(old(u).entry(e), patch@, Proj::Up, e)
            &&& d.entry(e) == patched_entry(old(d).entry(e), patch@, Proj::Down, e)
        } by {
            assert(u.entry(e) == patched_entry(old(u).entry(e), patch@, Proj::Up, e));
            assert(d.entry(e) == patched_entry(old(d).entry(e), patch@, Proj::Down, e));
        }
    }
    let mut out: Vec<HostWrite> = g.write(&t.gate);
    let mut mid: Vec<HostWrite> = u.write(&t.up);
    let mut end: Vec<HostWrite> = d.write(&t.down);
    let ghost (a, b, c) = (out@, mid@, end@);
    out.append(&mut mid);
    out.append(&mut end);
    proof {
        assert(out@ == a + b + c);
        assert(out@[2] == a[2] && out@[5] == b[2] && out@[8] == c[2]);
        assert forall|i: int| 0 <= i < old(g).packed@.len() implies {
            &&& #[trigger] le_u32(out@[2].bytes@, 4 * i) == g.scale2@[i].0
            &&& le_u32(out@[5].bytes@, 4 * i) == u.scale2@[i].0
            &&& le_u32(out@[8].bytes@, 4 * i) == d.scale2@[i].0
        } by {
            assert(le_u32(b[2].bytes@, 4 * i) == u.scale2@[i].0);
            assert(le_u32(c[2].bytes@, 4 * i) == d.scale2@[i].0);
        }
    }
    out
}

/// Wait until the last reader of the slab of layer `dense` is done.
pub open spec fn slab_wait(streamer: &ExpertStreamerShared, dense: u32) -> Cmd {
    Cmd::Op(DeviceOp::WaitSlabFree { slab: (dense % streamer.num_slabs) as u32 })
}

/// Asks for what the tables of layer `dense` are about to point at: the whole local
/// range, which is mostly under way or resident by now, or only the experts `active`.
/// The job that is handed out goes to the worker once the recorded wait is over, so
/// nothing is overwritten that is still being read.
pub fn request_streamed(
    streamer: &mut ExpertStreamerShared,
    cb: &mut CommandBuffer,
    dense: u32,
    lo: u32,
    hi: u32,
    active: Option<&Vec<u32>>,
) -> (job: Option<Job>)
    requires
        old(streamer).wf(),
        dense < old(streamer).num_moe_layers,
    ensures
        final(streamer).wf(),
        old(streamer).coherent() ==> final(streamer).coherent(),
        final(streamer).same_shape(old(streamer)),
        final(streamer).done@ == old(streamer).done@,
        final(cb)@ == (if job is Some {
            old(cb)@.push(slab_wait(old(streamer), dense))
        } else {
            old(cb)@
        }),
        match active {
            None => {
                &&& old(streamer).hit(dense as int) ==> job is None && *final(streamer) == *old(
                    streamer,
                )
                &&& !old(streamer).hit(dense as int) ==> {
                    &&& old(streamer).claims(final(streamer), dense)
                    &&& job is Some <==> !old(streamer).requested@[dense as int]
                    &&& job matches Some(j) ==> j.dense == dense && j.lo == lo && j.hi == hi
                        && j.experts is None
                }
            },
            Some(ids) => {
                &&& old(streamer).overwrites(final(streamer), dense)
                &&& final(streamer).requested@ == old(streamer).requested@
                &&& job matches Some(j) && j.dense == dense && j.lo == lo && j.hi == hi && (
                j.experts matches Some(e) && e@ == ids@)
            },
        },
{
    let job: Option<Job> = match active {
        None => streamer.prefetch(dense, lo, hi),
        Some(ids) => streamer.prefetch_sparse(dense, ids.as_slice(), lo, hi),
    };
    if job.is_some() {
        streamer.wait_slab_free(cb, dense);
    }
    job
}

/// Marks the layer's slab consumed and, unless only active experts are
/// fetched, asks for the next layer once its slab is free.
pub fn after_streamed_layer(
    streamer: &mut ExpertStreamerShared,
    cb: &mut CommandBuffer,
    dense: u32,
    lo: u32,
    hi: u32,
    reactive: bool,
) -> (job: Option<Job>)
    requires
        old(streamer).wf(),
        dense < old(streamer).num_moe_layers,
    ensures
        final(streamer).wf(),
        old(streamer).coherent() ==> final(streamer).coherent(),
        ({
            let slabs = old(streamer).num_slabs;
            let consumed = Cmd::Op(DeviceOp::RecordSlabConsumed { slab: (dense % slabs) as u32 });
            if reactive || dense + 1 >= old(streamer).num_moe_layers {
                &&& final(cb)@ == old(cb)@.push(consumed)
                &&& *final(streamer) == *old(streamer)
                &&& job is None
            } else {
                let next = (dense + 1) as u32;
                &&& final(cb)@ == old(cb)@.push(consumed).push(
                    Cmd::Op(DeviceOp::WaitSlabFree { slab: (next % slabs) as u32 }),
                )
                &&& old(streamer).hit(next as int) ==> job is None && *final(streamer) == *old(streamer)
                &&& !old(streamer).hit(next as int) ==> {
                    &&& old(streamer).claims(final(streamer), next)
                    &&& job is Some <==> !old(streamer).requested@[next as int]
                    &&& job matches Some(j) ==> j.dense == next && j.lo == lo && j.hi == hi
                        && j.experts is None
                }
            }
        }),
{
    streamer.record_consumed(cb, dense);
    if reactive {
        return None;
    }
    if dense < streamer.num_moe_layers - 1 {
        let next: u32 = dense + 1;
        streamer.wait_slab_free(cb, next);
        streamer.prefetch(next, lo, hi)
    } else {
        None
    }
}

} // verus!
