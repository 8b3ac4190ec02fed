//! What recorded work leaves in device memory.
//!
//! Device work is followed symbolically: an address holds a term that says how its
//! content came about, from what memory held before. Running commands one after the
//! other gives the term behind every result. Each operation does here what it is
//! documented to do, and nothing else; work that is not described has no meaning, and
//! neither has a run that contains it.
use crate::attention::layer::{HeadGateActivation, LoraRoute, PackedQ2Weight};
use crate::device::{Cmd, DevicePtr, KernelArg, KernelHandle, Launch, Scalar};
use crate::moe::stream_tables::ExpertPtrTable;
use crate::ops_table::{DeviceOp, DraftLayerArgs, GdnDecode, WeightRef};
use crate::weights::DenseWeight;
use vstd::prelude::*;

verus! {

/// A grouped product: every expert's rows times that expert's weights.
pub struct Grouped {
    pub rows: Box<Held>,
    pub table: ExpertPtrTable,
    /// First row of every expert.
    pub offsets: Box<Held>,
    pub experts: int,
    pub n: int,
    pub k: int,
    /// What is left where no expert writes.
    pub onto: Box<Held>,
    /// The kernel, where the product is a single launch.
    pub kernel: Option<KernelHandle>,
    /// Rows of one expert that the launch reaches.
    pub reach: int,
}

/// A grouped product with trellis codes.
pub struct Trellis {
    pub rows: Box<Held>,
    pub trellis_ptrs: DevicePtr,
    pub suh_ptrs: DevicePtr,
    pub svh_ptrs: DevicePtr,
    pub k_bits: u32,
    pub codebook: u32,
    /// Expert of every slot.
    pub experts: Option<Box<Held>>,
    /// Weights that fold the slots of a row.
    pub weights: Option<Box<Held>>,
    pub rows_per_slot: usize,
    pub k: usize,
    pub n: usize,
    pub slots_in: usize,
    pub slots_out: usize,
    pub results: usize,
    pub wide: bool,
}

/// What a recurrent step reads.
pub struct Step {
    pub state: Box<Held>,
    pub q: Box<Held>,
    pub k: Box<Held>,
    pub v: Box<Held>,
    pub decay: Box<Held>,
    pub beta: Box<Held>,
    pub nk: u32,
    pub nv: u32,
    pub kd: u32,
    pub vd: u32,
}

/// Projection to the gates of a recurrent step.
pub struct GateWeights {
    pub weight: DenseWeight,
    pub a_log: DevicePtr,
    pub dt_bias: DevicePtr,
    pub ba_size: u32,
    pub k: u32,
    pub heads_per_group: u32,
}

/// Short convolution over the last rows.
pub struct Convolution {
    pub weight: DenseWeight,
    pub conv_dim: u32,
    pub d_conv: u32,
    pub qk_channels: u32,
    pub head_dim: u32,
    pub eps: Scalar,
}

/// How a head is rotated.
pub struct Rotation {
    pub hd: u32,
    pub dim: u32,
    /// Base of the frequencies, or rescaled frequencies and their factor.
    pub theta: Option<Scalar>,
    pub inv_freq: DevicePtr,
    pub factor: Scalar,
}

/// Content of device memory at an address.
#[allow(inconsistent_fields)]
pub enum Held {
    /// What the address held before.
    Before(int),
    /// Every byte has this value.
    Filled(u8),
    /// Host bytes from byte `from` on.
    Host { bytes: Seq<u8>, from: int },
    /// Nothing that may be read.
    Spent,
    /// What lies `from` bytes into a row.
    Part { of: Box<Held>, from: int },
    /// The first `count` rows of `width` values in the order of a row map.
    Gathered { rows: Box<Held>, map: Box<Held>, width: int, count: int },
    Grouped(Grouped),
    /// `activation(gate) * up` over `count` values.
    Gated { gate: Box<Held>, up: Box<Held>, kernel: KernelHandle, limit: Scalar, count: int },
    /// The same values in eight bits.
    Narrow { of: Box<Held>, count: int },
    /// The same values in sixteen bits.
    Rounded { of: Box<Held>, count: int },
    /// Every row `times` over.
    Repeated { rows: Box<Held>, times: int, width: int, total: int },
    /// Index of every slot's expert in this rank's tables.
    LocalExperts { ids: Box<Held>, start: int, held: int, slots: int },
    /// Weight of every slot; zero where another rank holds the expert.
    LocalWeights { ids: Box<Held>, probs: Box<Held>, start: int, held: int, slots: int },
    Trellis(Trellis),
    /// The shared expert's result.
    Shared { rows: Box<Held>, count: int, h: int, inter: int },
    /// Sum over all ranks.
    Summed { of: Box<Held>, bytes: int },
    /// Row of an embedding table that a token names.
    Embedded { token: Box<Held>, table: DevicePtr, h: u32 },
    /// `weight[n, k]` times a row.
    Product { row: Box<Held>, weight: WeightRef, n: u32, k: u32 },
    /// Norm of `dim` values.
    Normed { row: Box<Held>, weight: DenseWeight, eps: Scalar, dim: u32 },
    /// Index of the largest of `n` values.
    Largest { of: Box<Held>, n: u32 },
    /// A row of a draft head at its position after one of its layers.
    Drafted { row: Box<Held>, position: Box<Held>, args: DraftLayerArgs },
    /// `a + b`, value by value.
    Sum { a: Box<Held>, b: Box<Held> },
    /// Decay gates of a row.
    Decay { row: Box<Held>, by: GateWeights },
    /// Update gates of a row.
    Beta { row: Box<Held>, by: GateWeights },
    /// Convolution state after a row.
    Shifted { state: Box<Held>, row: Box<Held> },
    /// Convolved row: queries, keys and values.
    Convolved { state: Box<Held>, row: Box<Held>, by: Convolution },
    /// Recurrent state after a step.
    Stepped(Step),
    /// Result of a step.
    Read(Step),
    /// Norm of `heads` heads, gated by `z`.
    GatedNorm { row: Box<Held>, z: Box<Held>, weight: DevicePtr, eps: Scalar, heads: u32, head_dim: u32 },
    /// The recurrent mixer of a sequence.
    Mixed { row: Box<Held>, seq: usize },
    /// The feed-forward block.
    Fed { row: Box<Held> },
    /// Query heads parted from their gates.
    Parted { of: Box<Held>, nq: u32, hd: u32 },
    /// A row with its adapter's share.
    Adapted { of: Box<Held>, row: Box<Held>, route: LoraRoute, slot: Box<Held> },
    /// A head rotated by its position.
    Rotated { of: Box<Held>, position: Box<Held>, by: Rotation },
    /// A head after an in-place transform.
    Transformed { of: Box<Held>, kernel: KernelHandle },
    /// Attention of the query heads over what the cache holds.
    Attended { query: Seq<Held>, cache: Seq<CacheRow>, blocks: Box<Held>, len: Box<Held>, scale: Scalar },
    /// `a * sigmoid(b)`, value by value.
    SigmoidGated { a: Box<Held>, b: Box<Held> },
    /// Every head of a row times its own gate.
    HeadGated { of: Box<Held>, gates: Box<Held>, activation: HeadGateActivation, nq: u32, hd: u32 },
    /// A two-bit weight times a row.
    TwoBitProduct { row: Box<Held>, weight: PackedQ2Weight },
    /// `weight[n, k]` times a row, both in eight-bit integers.
    IntegerProduct { row: Box<Held>, weight: DevicePtr, scale: DevicePtr, n: u32, k: u32 },
    /// Tiles of `rows` rows and one of `columns` column ranges, for all rows of all experts.
    Worklist { offsets: Box<Held>, experts: int, columns: int, rows: int },
    /// A grouped product over the tiles of a worklist.
    Listed { product: Grouped, list: Box<Held>, count: Box<Held> },
    /// `rows` rows of `k` values in eight bits, with scales.
    Quantised { of: Box<Held>, rows: int, k: int },
    /// A packed weight times quantised rows.
    PackedProduct { rows: Box<Held>, weight: DevicePtr, m: int, n: int, k: int },
    /// Blocks of a packed weight in bfloat16.
    Expanded { blocks: DevicePtr, count: int },
    /// `base + scale * delta`, value by value.
    Scaled { base: Box<Held>, delta: Box<Held>, scale: Scalar },
    /// One of the lists of routes in blocks of rows.
    Aligned { ids: Box<Held>, tokens: u32, list: RouteList },
    /// A grouped product over lists of routes.
    RouteProduct {
        rows: Box<Held>,
        weights: DevicePtr,
        scales: DevicePtr,
        global_scales: DevicePtr,
        sorted: Box<Held>,
        experts: Box<Held>,
        padded: Box<Held>,
        top_k: u32,
        weighted: bool,
        m: u32,
        n: u32,
        k: u32,
    },
    /// `silu(gate) * up` of rows that hold both.
    Halves { of: Box<Held>, routes: u32, width: u32 },
    /// Sum of every row's experts by weight, and the gated shared result.
    Weighted {
        experts: Box<Held>,
        weights: Box<Held>,
        shared: Box<Held>,
        input: Box<Held>,
        gate: DevicePtr,
        top_k: u32,
        hidden: u32,
        tokens: u32,
    },
    /// Experts that a row of scores chooses, or their probabilities.
    Chosen { scores: Box<Held>, bias: Option<DevicePtr>, experts: u32, top_k: u32, normalise: bool },
    Probabilities { scores: Box<Held>, bias: Option<DevicePtr>, experts: u32, top_k: u32, normalise: bool },
    /// Routed result and gated shared result.
    Blended { routed: Box<Held>, shared: Box<Held>, input: Box<Held>, gate: DevicePtr, h: int, rows: int },
}

/// Lists of routes.
pub enum RouteList {
    Sorted,
    Experts,
    Padded,
}

/// One row of the key and value cache, head by head.
pub struct CacheRow {
    /// Where the row is stored.
    pub slot: Held,
    pub keys: Seq<Held>,
    pub values: Seq<Held>,
    pub block_size: u32,
}

/// Memory while commands run.
pub struct Memory {
    pub at: spec_fn(int) -> Held,
    /// Rows that were written to the key and value cache.
    pub cache: Seq<CacheRow>,
}

/// Where operations leave results that they do not name.
pub struct Places {
    /// Result of the shared expert.
    pub shared_out: DevicePtr,
    /// Rows of a draft head, and the 32-bit positions of these rows.
    pub draft_rows: DevicePtr,
    pub draft_positions: DevicePtr,
    /// Results of mixers and feed-forward blocks, and bytes of one row there.
    pub block_out: DevicePtr,
    pub row_bytes: int,
    /// Bytes from one sequence to the next: states, and rows of the input projection.
    pub h_state_bytes: int,
    pub conv_state_bytes: int,
    pub projected_bytes: int,
    /// Gated activations are told apart value by value, and not as one whole.
    pub by_value: bool,
}

/// Row and byte of that row at which `a` lies, of `count` rows of `width` bytes, `stride`
/// bytes apart from `base` on.
pub open spec fn row_of(a: int, base: int, stride: int, width: int, count: int) -> Option<(int, int)> {
    if a == base && count > 0 {
        Some((0, 0))
    } else if stride > 0 && a >= base && (a - base) / stride < count && (a - base) % stride < width {
        Some(((a - base) / stride, (a - base) % stride))
    } else {
        None
    }
}

/// `p` lies outside of `len` bytes from `base` on.
pub open spec fn outside(p: DevicePtr, base: DevicePtr, len: int) -> bool {
    p.0 < base.0 || base.0 + len <= p.0
}

impl Memory {
    /// Memory that nothing has run on.
    pub open spec fn fresh() -> Memory {
        Memory { at: |a: int| Held::Before(a), cache: Seq::empty() }
    }

    pub open spec fn held(self, p: DevicePtr) -> Held {
        (self.at)(p.0 as int)
    }

    /// What row `r` holds, of rows `stride` bytes apart from `p` on.
    pub open spec fn row(self, p: DevicePtr, r: int, stride: int) -> Held {
        (self.at)(p.0 + r * stride)
    }

    pub open spec fn put(self, p: DevicePtr, v: Held) -> Memory {
        Memory {
            at: |a: int|
                if a == p.0 {
                    v
                } else {
                    (self.at)(a)
                },
            cache: self.cache,
        }
    }

    /// `len` bytes from `p` on.
    pub open spec fn fill(self, p: DevicePtr, len: int, v: spec_fn(int) -> Held) -> Memory {
        Memory {
            at: |a: int|
                if p.0 <= a < p.0 + len {
                    v(a - p.0)
                } else {
                    (self.at)(a)
                },
            cache: self.cache,
        }
    }

    /// `count` rows of `width` bytes, `stride` bytes apart from `p` on.
    pub open spec fn put_rows(
        self,
        p: DevicePtr,
        stride: int,
        width: int,
        count: int,
        v: spec_fn(int) -> Held,
    ) -> Memory {
        Memory {
            at: |a: int|
                match row_of(a, p.0 as int, stride, width, count) {
                    Some((r, o)) => slice(v(r), o),
                    None => (self.at)(a),
                },
            cache: self.cache,
        }
    }

    /// `heads` heads of `width` bytes in each of `count` rows.
    pub open spec fn put_heads(
        self,
        p: DevicePtr,
        stride: int,
        count: int,
        heads: int,
        width: int,
        v: spec_fn(int, int) -> Held,
    ) -> Memory {
        Memory {
            at: |a: int|
                match row_of(a, p.0 as int, stride, heads * width, count) {
                    Some((r, o)) => slice(v(r, o / width), o % width),
                    None => (self.at)(a),
                },
            cache: self.cache,
        }
    }

    /// Heads of row `r`.
    pub open spec fn heads(self, p: DevicePtr, r: int, stride: int, heads: int, width: int) -> Seq<Held> {
        Seq::new(heads as nat, |e: int| (self.at)(p.0 + r * stride + e * width))
    }
}

/// What lies `from` bytes into a row.
pub open spec fn slice(of: Held, from: int) -> Held {
    if from == 0 {
        of
    } else {
        Held::Part { of: Box::new(of), from }
    }
}

/// A row is found where it lies.
pub proof fn lemma_row_part(base: int, stride: int, width: int, count: int, r: int, o: int)
    requires
        0 <= r < count,
        0 <= o < width <= stride,
    ensures
        row_of(base + r * stride + o, base, stride, width, count) == Some((r, o)),
{
    let d = r * stride + o;
    assert(d / stride == r && d % stride == o && d >= 0 && (d == 0 ==> r == 0 && o == 0))
        by (nonlinear_arith)
        requires
            d == r * stride + o,
            0 <= o < stride,
            r >= 0,
    ;
}

/// A row is found at its start.
pub proof fn lemma_row_hit(base: int, stride: int, width: int, count: int, r: int)
    requires
        0 <= r < count,
        0 < width <= stride,
    ensures
        row_of(base + r * stride, base, stride, width, count) == Some((r, 0int)),
{
    lemma_row_part(base, stride, width, count, r, 0);
}

/// Nothing outside of all rows is part of one.
pub proof fn lemma_row_miss(a: int, base: int, stride: int, width: int, count: int)
    requires
        a < base || base + count * stride <= a,
        stride > 0,
        count >= 0,
    ensures
        row_of(a, base, stride, width, count) is None,
{
    if a >= base {
        let d = a - base;
        assert(d / stride >= count) by (nonlinear_arith)
            requires
                d >= count * stride,
                stride > 0,
                count >= 0,
        ;
        assert(count > 0 ==> count * stride > 0) by (nonlinear_arith)
            requires
                stride > 0,
        ;
    }
}

/// A single row reaches no further than it is wide.
pub proof fn lemma_one_row_miss(a: int, base: int, stride: int, width: int)
    requires
        a != base,
        a < base || base + width <= a,
        width <= stride,
    ensures
        row_of(a, base, stride, width, 1) is None,
{
    if a >= base && stride > 0 {
        let d = a - base;
        if d / stride < 1 {
            assert(d % stride == d) by (nonlinear_arith)
                requires
                    0 <= d,
                    stride > 0,
                    d / stride < 1,
            ;
        }
    }
}

/// Nothing between two rows is part of one.
pub proof fn lemma_row_gap(base: int, stride: int, width: int, count: int, r: int, o: int)
    requires
        0 < width <= o < stride,
    ensures
        row_of(base + r * stride + o, base, stride, width, count) is None,
{
    let d = r * stride + o;
    assert(d / stride == r && d % stride == o && d != 0) by (nonlinear_arith)
        requires
            d == r * stride + o,
            0 < o < stride,
    ;
}

/// What is part of a row lies in that row.
pub proof fn lemma_row_inside(a: int, base: int, stride: int, width: int, count: int)
    requires
        row_of(a, base, stride, width, count) is Some,
        0 < width <= stride,
    ensures
        ({
            let (r, o) = row_of(a, base, stride, width, count)->0;
            0 <= r < count && 0 <= o < width && a == base + r * stride + o
        }),
{
    if a != base {
        let d = a - base;
        assert(d == (d / stride) * stride + d % stride && 0 <= d % stride && 0 <= d / stride)
            by (nonlinear_arith)
            requires
                d >= 0,
                stride > 0,
        ;
    }
}

/// A pointer argument.
pub open spec fn ptr_arg(l: Launch, i: int) -> DevicePtr {
    match l.args[i] {
        KernelArg::Ptr(p) => p,
        _ => DevicePtr(0),
    }
}

/// Three arguments that name a table of experts.
pub open spec fn table_arg(l: Launch, i: int) -> ExpertPtrTable {
    ExpertPtrTable {
        packed_ptrs: ptr_arg(l, i),
        scale_ptrs: ptr_arg(l, i + 1),
        scale2_vals: ptr_arg(l, i + 2),
    }
}

/// A 32-bit argument.
pub open spec fn u32_arg(l: Launch, i: int) -> u32 {
    match l.args[i] {
        KernelArg::U32(x) => x,
        _ => 0,
    }
}

/// A 64-bit argument.
pub open spec fn u64_arg(l: Launch, i: int) -> int {
    match l.args[i] {
        KernelArg::U64(x) => x as int,
        _ => 0,
    }
}

/// An integer argument.
pub open spec fn int_arg(l: Launch, i: int) -> int {
    match l.args[i] {
        KernelArg::U32(x) => x as int,
        KernelArg::I32(x) => x as int,
        KernelArg::U64(x) => x as int,
        _ => 0,
    }
}

/// Rows of one expert that a grouped launch reaches: tiles of 64 rows, or of 128 where
/// blocks have 256 threads.
pub open spec fn reach_of(l: Launch) -> int {
    l.grid.y * (if l.block.x == 256 {
        128int
    } else {
        64int
    })
}

/// A grouped product over a worklist, which reaches all rows that are listed.
pub open spec fn listed(
    m: Memory,
    l: Launch,
    rows: DevicePtr,
    table: ExpertPtrTable,
    out: DevicePtr,
    offsets: DevicePtr,
    map: DevicePtr,
    experts: u32,
    n: u32,
    k: u32,
    list: DevicePtr,
    count: DevicePtr,
) -> Held {
    Held::Listed {
        product: Grouped {
            rows: Box::new(mapped(m, rows, map, k as int, u32::MAX as int)),
            table,
            offsets: Box::new(m.held(offsets)),
            experts: experts as int,
            n: n as int,
            k: k as int,
            onto: Box::new(m.held(out)),
            kernel: Some(l.kernel),
            reach: u32::MAX as int,
        },
        list: Box::new(m.held(list)),
        count: Box::new(m.held(count)),
    }
}

/// Rows as a row map orders them; without a map they stay as they are.
pub open spec fn mapped(m: Memory, rows: DevicePtr, map: DevicePtr, width: int, count: int) -> Held {
    if map.0 == 0 {
        m.held(rows)
    } else {
        Held::Gathered { rows: Box::new(m.held(rows)), map: Box::new(m.held(map)), width, count }
    }
}

/// A grouped product in a launch.
pub open spec fn product(
    m: Memory,
    l: Launch,
    rows: DevicePtr,
    table: ExpertPtrTable,
    out: DevicePtr,
    offsets: DevicePtr,
    map: DevicePtr,
    experts: u32,
    n: u32,
    k: u32,
) -> Held {
    Held::Grouped(
        Grouped {
            rows: Box::new(mapped(m, rows, map, k as int, reach_of(l) * experts)),
            table,
            offsets: Box::new(m.held(offsets)),
            experts: experts as int,
            n: n as int,
            k: k as int,
            onto: Box::new(m.held(out)),
            kernel: Some(l.kernel),
            reach: reach_of(l),
        },
    )
}

/// Memory after a kernel launch. Kernels are told apart by their arguments.
#[verifier::opaque]
pub open spec fn after_launch(m: Memory, l: Launch) -> Option<Memory> {
    if l.args.len() == 16 {
        // Products of the same rows with the gating and the up weights, over a worklist.
        let gate = table_arg(l, 1);
        let up = table_arg(l, 4);
        let (experts, n, k) = (u32_arg(l, 11), u32_arg(l, 12), u32_arg(l, 13));
        let (rows, offsets, map) = (ptr_arg(l, 0), ptr_arg(l, 9), ptr_arg(l, 10));
        let (list, count) = (ptr_arg(l, 14), ptr_arg(l, 15));
        let g = listed(m, l, rows, gate, ptr_arg(l, 7), offsets, map, experts, n, k, list, count);
        let u = listed(m, l, rows, up, ptr_arg(l, 8), offsets, map, experts, n, k, list, count);
        Some(m.put(ptr_arg(l, 7), g).put(ptr_arg(l, 8), u))
    } else if l.args.len() == 12 && l.args[10] is Ptr && l.args[11] is Ptr {
        // One product over a worklist.
        let out = ptr_arg(l, 4);
        let (experts, n, k) = (u32_arg(l, 7), u32_arg(l, 8), u32_arg(l, 9));
        let p = listed(
            m,
            l,
            ptr_arg(l, 0),
            table_arg(l, 1),
            out,
            ptr_arg(l, 5),
            ptr_arg(l, 6),
            experts,
            n,
            k,
            ptr_arg(l, 10),
            ptr_arg(l, 11),
        );
        Some(m.put(out, p))
    } else if l.args.len() == 14 && l.args[11] is Ptr {
        // The same two products over a list of groups of rows.
        let (n, k) = (u32_arg(l, 12), u32_arg(l, 13));
        let (rows, map, list, count) = (ptr_arg(l, 0), ptr_arg(l, 9), ptr_arg(l, 10), ptr_arg(l, 11));
        let g = listed(m, l, rows, table_arg(l, 1), ptr_arg(l, 7), list, map, 0, n, k, list, count);
        let u = listed(m, l, rows, table_arg(l, 4), ptr_arg(l, 8), list, map, 0, n, k, list, count);
        Some(m.put(ptr_arg(l, 7), g).put(ptr_arg(l, 8), u))
    } else if l.args.len() == 10 && l.args[7] is Ptr {
        // Activation and product over a list of groups of rows.
        let (out, list, count) = (ptr_arg(l, 5), ptr_arg(l, 6), ptr_arg(l, 7));
        let (n, k) = (u32_arg(l, 8), u32_arg(l, 9));
        let rows = Held::Gated {
            gate: Box::new(m.held(ptr_arg(l, 0))),
            up: Box::new(m.held(ptr_arg(l, 1))),
            kernel: l.kernel,
            limit: Scalar(0),
            count: k as int,
        };
        let plain = listed(m, l, out, table_arg(l, 2), out, list, DevicePtr(0), 0, n, k, list, count);
        Some(
            m.put(
                out,
                Held::Listed {
                    product: Grouped { rows: Box::new(rows), ..plain->Listed_product },
                    list: plain->Listed_list,
                    count: plain->Listed_count,
                },
            ),
        )
    } else if l.args.len() == 14 {
        // Gate and up products of the same rows.
        let gate = ExpertPtrTable {
            packed_ptrs: ptr_arg(l, 1),
            scale_ptrs: ptr_arg(l, 2),
            scale2_vals: ptr_arg(l, 3),
        };
        let up = ExpertPtrTable {
            packed_ptrs: ptr_arg(l, 4),
            scale_ptrs: ptr_arg(l, 5),
            scale2_vals: ptr_arg(l, 6),
        };
        let (experts, n, k) = (u32_arg(l, 11), u32_arg(l, 12), u32_arg(l, 13));
        let (rows, offsets, map) = (ptr_arg(l, 0), ptr_arg(l, 9), ptr_arg(l, 10));
        let g = product(m, l, rows, gate, ptr_arg(l, 7), offsets, map, experts, n, k);
        let u = product(m, l, rows, up, ptr_arg(l, 8), offsets, map, experts, n, k);
        Some(m.put(ptr_arg(l, 7), g).put(ptr_arg(l, 8), u))
    } else if l.args.len() == 10 && l.args[3] is Ptr {
        // One product.
        let table = ExpertPtrTable {
            packed_ptrs: ptr_arg(l, 1),
            scale_ptrs: ptr_arg(l, 2),
            scale2_vals: ptr_arg(l, 3),
        };
        Some(
            m.put(
                ptr_arg(l, 4),
                product(
                    m,
                    l,
                    ptr_arg(l, 0),
                    table,
                    ptr_arg(l, 4),
                    ptr_arg(l, 5),
                    ptr_arg(l, 6),
                    u32_arg(l, 7),
                    u32_arg(l, 8),
                    u32_arg(l, 9),
                ),
            ),
        )
    } else if l.args.len() == 5 && l.args[2] is Ptr && l.args[3] is U32 {
        // Rows in the order of a map.
        Some(
            m.put(
                ptr_arg(l, 1),
                mapped(m, ptr_arg(l, 0), ptr_arg(l, 2), int_arg(l, 3), l.grid.x as int),
            ),
        )
    } else if l.args.len() == 5 && l.args[2] is Ptr && l.args[3] is Scalar {
        // silu(gate) * up over pairs of values.
        Some(
            m.put(
                ptr_arg(l, 2),
                Held::Gated {
                    gate: Box::new(m.held(ptr_arg(l, 0))),
                    up: Box::new(m.held(ptr_arg(l, 1))),
                    kernel: l.kernel,
                    limit: l.args[3]->Scalar_0,
                    count: 2 * int_arg(l, 4),
                },
            ),
        )
    } else if l.args.len() == 5 && l.args[2] is I32 {
        // Every row once for each of its experts.
        Some(
            m.put(
                ptr_arg(l, 1),
                Held::Repeated {
                    rows: Box::new(m.held(ptr_arg(l, 0))),
                    times: int_arg(l, 2),
                    width: int_arg(l, 3),
                    total: int_arg(l, 4),
                },
            ),
        )
    } else if l.args.len() == 7 && l.args[4] is I32 {
        // Global experts and probabilities to local ones.
        let ids = Box::new(m.held(ptr_arg(l, 0)));
        let probs = Box::new(m.held(ptr_arg(l, 1)));
        let (start, held, slots) = (int_arg(l, 4), int_arg(l, 5), int_arg(l, 6));
        Some(
            m.put(ptr_arg(l, 2), Held::LocalExperts { ids, start, held, slots }).put(
                ptr_arg(l, 3),
                Held::LocalWeights { ids, probs, start, held, slots },
            ),
        )
    } else if l.args.len() == 6 && l.args[2] is U64 {
        // Rows in eight bits.
        Some(
            m.put(
                ptr_arg(l, 1),
                Held::Quantised {
                    of: Box::new(m.held(ptr_arg(l, 0))),
                    rows: int_arg(l, 5),
                    k: u64_arg(l, 2),
                },
            ),
        )
    } else if l.args.len() == 9 && l.args[1] is Ptr && l.args[3] is U32 {
        // A packed product.
        Some(
            m.put(
                ptr_arg(l, 2),
                Held::PackedProduct {
                    rows: Box::new(m.held(ptr_arg(l, 1))),
                    weight: ptr_arg(l, 0),
                    m: int_arg(l, 4),
                    n: int_arg(l, 3),
                    k: int_arg(l, 5),
                },
            ),
        )
    } else if l.args.len() == 4 && l.args[1] is Ptr && l.args[2] is U32 {
        // A packed weight in bfloat16.
        Some(
            m.put(
                ptr_arg(l, 1),
                Held::Expanded { blocks: ptr_arg(l, 0), count: int_arg(l, 2) },
            ),
        )
    } else if l.args.len() == 2 && l.args[1] is U32 {
        // Heads in place.
        let w = 2 * u32_arg(l, 1);
        Some(
            m.put_rows(
                ptr_arg(l, 0),
                w,
                w,
                l.grid.x as int,
                |r: int|
                    Held::Transformed { of: Box::new(m.row(ptr_arg(l, 0), r, w)), kernel: l.kernel },
            ),
        )
    } else if l.args.len() == 6 && l.args[3] is Ptr {
        // Gated shared result onto the routed one.
        Some(
            m.put(
                ptr_arg(l, 0),
                Held::Blended {
                    routed: Box::new(m.held(ptr_arg(l, 0))),
                    shared: Box::new(m.held(ptr_arg(l, 1))),
                    input: Box::new(m.held(ptr_arg(l, 2))),
                    gate: ptr_arg(l, 3),
                    h: int_arg(l, 4),
                    rows: int_arg(l, 5),
                },
            ),
        )
    } else {
        None
    }
}

/// A grouped product that the back end runs as one call on sorted rows.
pub open spec fn grouped_call(
    m: Memory,
    table: ExpertPtrTable,
    rows: DevicePtr,
    out: DevicePtr,
    offsets: DevicePtr,
    experts: usize,
    n: u32,
    k: u32,
) -> Held {
    Held::Grouped(
        Grouped {
            rows: Box::new(m.held(rows)),
            table,
            offsets: Box::new(m.held(offsets)),
            experts: experts as int,
            n: n as int,
            k: k as int,
            onto: Box::new(m.held(out)),
            kernel: None,
            reach: 64 * u32::MAX,
        },
    )
}

/// What the recurrent step of sequence `r` reads.
pub open spec fn step_of(
    places: Places,
    m: Memory,
    args: GdnDecode,
    r: int,
    qk_bytes: int,
    v_bytes: int,
    gate_bytes: int,
) -> Step {
    Step {
        state: Box::new(m.row(args.h_state, r, places.h_state_bytes)),
        q: Box::new(m.row(args.q, r, qk_bytes)),
        k: Box::new(m.row(args.k, r, qk_bytes)),
        v: Box::new(m.row(args.v, r, v_bytes)),
        decay: Box::new(m.row(args.gates, r, gate_bytes)),
        beta: Box::new(m.row(args.beta, r, gate_bytes)),
        nk: args.nk,
        nv: args.nv,
        kd: args.kd,
        vd: args.vd,
    }
}

/// What an optional address holds.
pub open spec fn held_opt(m: Memory, p: Option<DevicePtr>) -> Option<Box<Held>> {
    match p {
        Some(p) => Some(Box::new(m.held(p))),
        None => None,
    }
}

/// Memory after one row of decay and write gates was projected.
pub open spec fn after_gates(places: Places, m: Memory, op: DeviceOp) -> Option<Memory> {
    match op {
        DeviceOp::BaGates { kernel, input, weight, a_log, dt_bias, gates, beta, ba_size, k, heads_per_group } => {
            let by = GateWeights { weight, a_log, dt_bias, ba_size, k, heads_per_group };
            Some(
                m.put(gates, Held::Decay { row: Box::new(m.held(input)), by }).put(
                    beta,
                    Held::Beta { row: Box::new(m.held(input)), by },
                ),
            )
        },
        _ => None,
    }
}

/// Memory after many rows of decay and write gates were projected.
pub open spec fn after_gate_rows(places: Places, m: Memory, op: DeviceOp) -> Option<Memory> {
    match op {
        DeviceOp::BaGatesPrefill {
            kernel,
            input,
            weight,
            a_log,
            dt_bias,
            gates,
            rows,
            ba_size,
            k,
            input_stride,
            gate_stride,
            nv,
            heads_per_group,
        } => {
            let by = GateWeights { weight, a_log, dt_bias, ba_size, k, heads_per_group };
            let row = |r: int| Box::new(m.row(input, r, 2 * input_stride));
            Some(
                m.put_rows(
                    gates,
                    4 * gate_stride,
                    4 * nv,
                    rows as int,
                    |r: int| Held::Decay { row: row(r), by },
                ).put_rows(
                    gates.at(4 * nv),
                    4 * gate_stride,
                    4 * nv,
                    rows as int,
                    |r: int| Held::Beta { row: row(r), by },
                ),
            )
        },
        _ => None,
    }
}

/// Memory after the short convolution.
pub open spec fn after_convolution(places: Places, m: Memory, op: DeviceOp) -> Option<Memory> {
    match op {
        DeviceOp::Conv1dUpdateL2norm {
            kernel,
            state,
            input,
            weight,
            output,
            conv_dim,
            d_conv,
            batch,
            qk_channels,
            head_dim,
            eps,
        } => {
            let by = Convolution { weight, conv_dim, d_conv, qk_channels, head_dim, eps };
            let old = |r: int| Box::new(m.row(state, r, places.conv_state_bytes));
            let row = |r: int| Box::new(m.row(input, r, places.projected_bytes));
            Some(
                m.put_rows(
                    state,
                    places.conv_state_bytes,
                    places.conv_state_bytes,
                    batch as int,
                    |r: int| Held::Shifted { state: old(r), row: row(r) },
                ).put_rows(
                    output,
                    4 * conv_dim,
                    4 * conv_dim,
                    batch as int,
                    |r: int| Held::Convolved { state: old(r), row: row(r), by },
                ),
            )
        },
        _ => None,
    }
}

/// Memory after one recurrent step.
pub open spec fn after_step(places: Places, m: Memory, op: DeviceOp) -> Option<Memory> {
    match op {
        DeviceOp::GdnDecode { kernel, args, out } => if args.batch == 1 {
            let s = step_of(places, m, args, 0, 0, 0, 0);
            Some(m.put(args.h_state, Held::Stepped(s)).put(out, Held::Read(s)))
        } else {
            None
        },
        _ => None,
    }
}

/// Memory after one recurrent step with its norm.
pub open spec fn after_step_norm(places: Places, m: Memory, op: DeviceOp) -> Option<Memory> {
    match op {
        DeviceOp::GdnDecodeNorm { kernel, args, norm, out } => if args.batch == 1 {
            let s = step_of(places, m, args, 0, 0, 0, 0);
            Some(
                m.put(args.h_state, Held::Stepped(s)).put(
                    out,
                    Held::GatedNorm {
                        row: Box::new(Held::Read(s)),
                        z: Box::new(m.held(norm.z)),
                        weight: norm.weight,
                        eps: norm.eps,
                        heads: args.nv,
                        head_dim: args.vd,
                    },
                ),
            )
        } else {
            None
        },
        _ => None,
    }
}

/// Memory after the recurrent steps of many sequences.
pub open spec fn after_steps(places: Places, m: Memory, op: DeviceOp) -> Option<Memory> {
    match op {
        DeviceOp::GdnDecodeStrided { kernel, args, out, qk_stride, v_stride, gate_stride, out_stride } => Some(
            m.put_rows(
                args.h_state,
                places.h_state_bytes,
                places.h_state_bytes,
                args.batch as int,
                |r: int|
                    Held::Stepped(
                        step_of(places, m, args, r, 4 * qk_stride, 4 * v_stride, 4 * gate_stride),
                    ),
            ).put_rows(
                out,
                4 * out_stride,
                4 * out_stride,
                args.batch as int,
                |r: int|
                    Held::Read(
                        step_of(places, m, args, r, 4 * qk_stride, 4 * v_stride, 4 * gate_stride),
                    ),
            ),
        ),
        _ => None,
    }
}

/// Memory after the recurrent steps of many sequences with their norms.
pub open spec fn after_steps_norm(places: Places, m: Memory, op: DeviceOp) -> Option<Memory> {
    match op {
        DeviceOp::GdnDecodeStridedNorm {
            kernel,
            args,
            norm,
            out,
            qk_stride,
            v_stride,
            gate_stride,
            z_stride,
            out_stride,
        } => Some(
            m.put_rows(
                args.h_state,
                places.h_state_bytes,
                places.h_state_bytes,
                args.batch as int,
                |r: int|
                    Held::Stepped(
                        step_of(places, m, args, r, 4 * qk_stride, 4 * v_stride, 4 * gate_stride),
                    ),
            ).put_rows(
                out,
                2 * out_stride,
                2 * out_stride,
                args.batch as int,
                |r: int|
                    Held::GatedNorm {
                        row: Box::new(
                            Held::Read(
                                step_of(
                                    places,
                                    m,
                                    args,
                                    r,
                                    4 * qk_stride,
                                    4 * v_stride,
                                    4 * gate_stride,
                                ),
                            ),
                        ),
                        z: Box::new(m.row(norm.z, r, 2 * z_stride)),
                        weight: norm.weight,
                        eps: norm.eps,
                        heads: args.nv,
                        head_dim: args.vd,
                    },
            ),
        ),
        _ => None,
    }
}

/// Memory after a gated norm.
pub open spec fn after_gated_norm(places: Places, m: Memory, op: DeviceOp) -> Option<Memory> {
    match op {
        DeviceOp::GatedRmsNorm {
            kernel,
            input,
            z,
            weight,
            output,
            heads,
            head_dim,
            input_stride,
            eps,
            z_stride,
        } => if input_stride == head_dim && z_stride == head_dim {
            Some(
                m.put(
                    output,
                    Held::GatedNorm {
                        row: Box::new(m.held(input)),
                        z: Box::new(m.held(z)),
                        weight: weight.weight,
                        eps,
                        heads,
                        head_dim,
                    },
                ),
            )
        } else {
            None
        },
        _ => None,
    }
}

/// Memory after a matrix product.
pub open spec fn after_matmul(places: Places, m: Memory, op: DeviceOp) -> Option<Memory> {
    match op {
        DeviceOp::Matmul { kind, kernel, input, weight, output, m: rows, n, k } => Some(
            m.put_rows(
                output,
                2 * n,
                2 * n,
                rows as int,
                |r: int|
                    Held::Product { row: Box::new(m.row(input, r, 2 * k)), weight, n, k },
            ),
        ),
        _ => None,
    }
}

/// Memory after norms.
pub open spec fn after_norm(places: Places, m: Memory, op: DeviceOp) -> Option<Memory> {
    match op {
        DeviceOp::RmsNorm { kernel, input, weight, output, rows, dim, eps } => Some(
            m.put_rows(
                output,
                2 * dim,
                2 * dim,
                rows as int,
                |r: int|
                    Held::Normed { row: Box::new(m.row(input, r, 2 * dim)), weight, eps, dim },
            ),
        ),
        _ => None,
    }
}

/// Memory after norms that keep their input.
pub open spec fn after_norm_residual(places: Places, m: Memory, op: DeviceOp) -> Option<Memory> {
    match op {
        DeviceOp::RmsNormResidual { kernel, input, weight, output, residual, rows, dim, eps } => {
            let w = 2 * dim;
            let row = |r: int| m.row(input, r, w);
            Some(
                m.put_rows(residual, w, w, rows as int, row).put_rows(
                    output,
                    w,
                    w,
                    rows as int,
                    |r: int| Held::Normed { row: Box::new(row(r)), weight, eps, dim },
                ),
            )
        },
        _ => None,
    }
}

/// Memory after a residual add and norms.
pub open spec fn after_add_norm(places: Places, m: Memory, op: DeviceOp) -> Option<Memory> {
    match op {
        DeviceOp::ResidualAddRmsNorm { kernel, hidden, addend, weight, output, residual, rows, dim, eps } => {
            let w = 2 * dim;
            let row = |r: int|
                Held::Sum {
                    a: Box::new(m.row(hidden, r, w)),
                    b: Box::new(m.row(addend, r, w)),
                };
            Some(
                m.put_rows(hidden, w, w, rows as int, row).put_rows(
                    residual,
                    w,
                    w,
                    rows as int,
                    row,
                ).put_rows(
                    output,
                    w,
                    w,
                    rows as int,
                    |r: int| Held::Normed { row: Box::new(row(r)), weight, eps, dim },
                ),
            )
        },
        _ => None,
    }
}

/// Heads of `count` rows rotated in place, as `m` holds them.
pub open spec fn rotated(
    to: Memory,
    m: Memory,
    p: DevicePtr,
    stride: int,
    positions: DevicePtr,
    count: int,
    heads: u32,
    by: Rotation,
) -> Memory {
    to.put_heads(
        p,
        stride,
        count,
        heads as int,
        2 * by.hd,
        |r: int, e: int|
            Held::Rotated {
                of: Box::new((m.at)(p.0 + r * stride + e * (2 * by.hd))),
                position: Box::new(m.row(positions, r, 4)),
                by,
            },
    )
}

/// Memory after a copy.
pub open spec fn after_copy(places: Places, m: Memory, op: DeviceOp) -> Option<Memory> {
    match op {
        DeviceOp::CopyD2D { src, dst, bytes } => Some(
            m.fill(dst, bytes as int, |i: int| (m.at)(src.0 + i)),
        ),
        _ => None,
    }
}

/// Memory after a query projection that parts heads from gates.
pub open spec fn after_query(places: Places, m: Memory, op: DeviceOp) -> Option<Memory> {
    match op {
        DeviceOp::GemvQg { kernel, input, weight, output, rows, n, k, nq, hd } => Some(
            m.put_rows(
                output,
                2 * n,
                2 * n,
                rows as int,
                |r: int|
                    Held::Parted {
                        of: Box::new(
                            Held::Product {
                                row: Box::new(m.row(input, r, 2 * k)),
                                weight: WeightRef::Quantized(weight),
                                n,
                                k,
                            },
                        ),
                        nq,
                        hd,
                    },
            ),
        ),
        _ => None,
    }
}

/// Memory after query heads were parted from their gates.
pub open spec fn after_parting(places: Places, m: Memory, op: DeviceOp) -> Option<Memory> {
    match op {
        DeviceOp::DeinterleaveQg { kernel, ptr, rows, nq, hd, q_proj_dim } => Some(
            m.put_rows(
                ptr,
                2 * q_proj_dim,
                2 * q_proj_dim,
                rows as int,
                |r: int| Held::Parted { of: Box::new(m.row(ptr, r, 2 * q_proj_dim)), nq, hd },
            ),
        ),
        _ => None,
    }
}

/// Memory after two projections of the same rows.
pub open spec fn after_dual(places: Places, m: Memory, op: DeviceOp) -> Option<Memory> {
    match op {
        DeviceOp::GemvDual { kernel, input, weight0, output0, weight1, output1, rows, n, k } => Some(
            m.put_rows(
                output0,
                2 * n,
                2 * n,
                rows as int,
                |r: int|
                    Held::Product {
                        row: Box::new(m.row(input, r, 2 * k)),
                        weight: WeightRef::Quantized(weight0),
                        n,
                        k,
                    },
            ).put_rows(
                output1,
                2 * n,
                2 * n,
                rows as int,
                |r: int|
                    Held::Product {
                        row: Box::new(m.row(input, r, 2 * k)),
                        weight: WeightRef::Quantized(weight1),
                        n,
                        k,
                    },
            ),
        ),
        _ => None,
    }
}

/// Memory after every row's own adapter was folded in.
pub open spec fn after_adapters(places: Places, m: Memory, op: DeviceOp) -> Option<Memory> {
    match op {
        DeviceOp::LoraBgmv { kernels, route, x, base_out, seq_slot, rows, x_stride, out_stride, xa } => Some(
            m.put(xa, Held::Spent).put_rows(
                base_out,
                2 * out_stride,
                2 * route.n_out,
                rows as int,
                |r: int|
                    Held::Adapted {
                        of: Box::new(m.row(base_out, r, 2 * out_stride)),
                        row: Box::new(m.row(x, r, 2 * x_stride)),
                        route,
                        slot: Box::new(m.row(seq_slot, r, 4)),
                    },
            ),
        ),
        _ => None,
    }
}

/// Memory after the rotation of packed rows.
pub open spec fn after_rope(places: Places, m: Memory, op: DeviceOp) -> Option<Memory> {
    match op {
        DeviceOp::Rope { kernel, q, k, positions, rows, nq, nkv, hd, rotary_dim, theta } => {
            let by = Rotation {
                hd,
                dim: rotary_dim,
                theta: Some(theta),
                inv_freq: DevicePtr(0),
                factor: Scalar(0),
            };
            Some(
                rotated(
                    rotated(m, m, q, 2 * (nq * hd), positions, rows as int, nq, by),
                    m,
                    k,
                    2 * (nkv * hd),
                    positions,
                    rows as int,
                    nkv,
                    by,
                ),
            )
        },
        _ => None,
    }
}

/// Memory after the rotation of strided rows.
pub open spec fn after_rope_strided(places: Places, m: Memory, op: DeviceOp) -> Option<Memory> {
    match op {
        DeviceOp::RopeStrided {
            kernel,
            q,
            k,
            positions,
            rows,
            nq,
            nkv,
            hd,
            rotary_dim,
            theta,
            q_stride,
            k_stride,
        } => {
            let by = Rotation {
                hd,
                dim: rotary_dim,
                theta: Some(theta),
                inv_freq: DevicePtr(0),
                factor: Scalar(0),
            };
            Some(
                rotated(
                    rotated(m, m, q, 2 * q_stride, positions, rows as int, nq, by),
                    m,
                    k,
                    2 * k_stride,
                    positions,
                    rows as int,
                    nkv,
                    by,
                ),
            )
        },
        _ => None,
    }
}

/// Memory after the rotation with rescaled frequencies.
pub open spec fn after_rope_scaled(places: Places, m: Memory, op: DeviceOp) -> Option<Memory> {
    match op {
        DeviceOp::RopeYarnScaled {
            kernel,
            q,
            k,
            positions,
            rows,
            nq,
            nkv,
            hd,
            rotary_dim,
            inv_freq,
            attention_factor,
        } => {
            let by = Rotation {
                hd,
                dim: rotary_dim,
                theta: None,
                inv_freq,
                factor: attention_factor,
            };
            Some(
                rotated(
                    rotated(m, m, q, 2 * (nq * hd), positions, rows as int, nq, by),
                    m,
                    k,
                    2 * (nkv * hd),
                    positions,
                    rows as int,
                    nkv,
                    by,
                ),
            )
        },
        _ => None,
    }
}

/// Memory after rows were written to the cache.
pub open spec fn after_cache_write(places: Places, m: Memory, op: DeviceOp) -> Option<Memory> {
    match op {
        DeviceOp::KvCacheWrite {
            k,
            v,
            slots,
            rows,
            nkv,
            hd,
            block_size,
            k_stride,
            v_stride,
            graph_capture,
        } => Some(
            Memory {
                at: m.at,
                cache: m.cache + Seq::new(
                    rows as nat,
                    |r: int|
                        CacheRow {
                            slot: m.row(slots, r, 8),
                            keys: m.heads(k, r, 2 * k_stride, nkv as int, 2 * hd),
                            values: m.heads(v, r, 2 * v_stride, nkv as int, 2 * hd),
                            block_size,
                        },
                ),
            },
        ),
        _ => None,
    }
}

/// Memory after attention over cached rows.
pub open spec fn after_attention(places: Places, m: Memory, op: DeviceOp) -> Option<Memory> {
    match op {
        DeviceOp::PagedDecode {
            q,
            output,
            block_table,
            seq_len,
            max_blocks_per_seq,
            rows,
            nq,
            nkv,
            hd,
            block_size,
            scale,
            q_stride,
            workspace,
            max_decode_seqs,
        } => Some(
            m.put_rows(
                output,
                2 * (nq * hd),
                2 * (nq * hd),
                rows as int,
                |r: int|
                    Held::Attended {
                        query: m.heads(q, r, 2 * q_stride, nq as int, 2 * hd),
                        cache: m.cache,
                        blocks: Box::new(m.row(block_table, r, 4 * max_blocks_per_seq)),
                        len: Box::new(m.row(seq_len, r, 4)),
                        scale,
                    },
            ),
        ),
        _ => None,
    }
}

/// Memory after a gated activation.
pub open spec fn after_activation(places: Places, m: Memory, op: DeviceOp) -> Option<Memory> {
    match op {
        DeviceOp::ActMul { kernel, gate, up, out, n } => {
            let v = |i: int|
                Held::Gated {
                    gate: Box::new((m.at)(gate.0 + i)),
                    up: Box::new((m.at)(up.0 + i)),
                    kernel,
                    limit: Scalar(0),
                    count: n as int,
                };
            if places.by_value {
                Some(m.fill(out, 2 * n, v))
            } else {
                Some(m.put(out, v(0)))
            }
        },
        _ => None,
    }
}

/// Memory after a scaled add.
pub open spec fn after_scaled_add(places: Places, m: Memory, op: DeviceOp) -> Option<Memory> {
    match op {
        DeviceOp::ScaledAdd { kernel, base, delta, scale, n } => Some(
            m.fill(
                base,
                2 * n,
                |i: int|
                    Held::Scaled {
                        base: Box::new((m.at)(base.0 + i)),
                        delta: Box::new((m.at)(delta.0 + i)),
                        scale,
                    },
            ),
        ),
        _ => None,
    }
}

/// Memory after work on lists of routes.
pub open spec fn after_routes(places: Places, m: Memory, op: DeviceOp) -> Option<Memory> {
    match op {
        DeviceOp::MarlinAlign { ids, sorted, experts, padded, tokens } => {
            let of = |list: RouteList| Held::Aligned { ids: Box::new(m.held(ids)), tokens, list };
            Some(
                m.put(sorted, of(RouteList::Sorted)).put(experts, of(RouteList::Experts)).put(
                    padded,
                    of(RouteList::Padded),
                ),
            )
        },
        DeviceOp::MarlinGemm {
            a,
            weights,
            output,
            reduce_tmp,
            scales,
            global_scales,
            sorted,
            experts,
            padded,
            topk_weights,
            top_k,
            mul_topk_weights,
            m: rows,
            n,
            k,
            workspace,
        } => Some(
            m.put(reduce_tmp, Held::Spent).put(workspace, Held::Spent).put(
                output,
                Held::RouteProduct {
                    rows: Box::new(m.held(a)),
                    weights,
                    scales,
                    global_scales,
                    sorted: Box::new(m.held(sorted)),
                    experts: Box::new(m.held(experts)),
                    padded: Box::new(m.held(padded)),
                    top_k,
                    weighted: mul_topk_weights,
                    m: rows,
                    n,
                    k,
                },
            ),
        ),
        DeviceOp::MarlinSiluMul { gate_up, output, routes, intermediate } => Some(
            m.put(
                output,
                Held::Halves { of: Box::new(m.held(gate_up)), routes, width: intermediate },
            ),
        ),
        DeviceOp::WeightedSumBlend {
            kernel,
            output,
            experts,
            weights,
            shared,
            input,
            shared_gate,
            hidden,
            top_k,
            input_dim,
            tokens,
        } => Some(
            m.put(
                output,
                Held::Weighted {
                    experts: Box::new(m.held(experts)),
                    weights: Box::new(m.held(weights)),
                    shared: Box::new(m.held(shared)),
                    input: Box::new(m.held(input)),
                    gate: shared_gate,
                    top_k,
                    hidden,
                    tokens,
                },
            ),
        ),
        _ => None,
    }
}

/// Memory after the routing of one row.
pub open spec fn after_router(places: Places, m: Memory, op: DeviceOp) -> Option<Memory> {
    match op {
        DeviceOp::W4a16DecodeGemv { kernel, kernel_sw, single_wave, input, weight, output, n, k } => Some(
            m.put_rows(
                output,
                2 * n,
                2 * n,
                1,
                |r: int|
                    Held::Product {
                        row: Box::new(m.held(input)),
                        weight: WeightRef::Quantized(weight),
                        n,
                        k,
                    },
            ),
        ),
        DeviceOp::TopkSoftmax { kernel, logits, ids, probs, experts, top_k, normalise } => {
            let scores = Box::new(m.held(logits));
            Some(
                m.put(ids, Held::Chosen { scores, bias: None, experts, top_k, normalise }).put(
                    probs,
                    Held::Probabilities { scores, bias: None, experts, top_k, normalise },
                ),
            )
        },
        DeviceOp::TopkSigmoid { kernel, logits, bias, ids, probs, experts, top_k, normalise, scale } => {
            let scores = Box::new(m.held(logits));
            Some(
                m.put(ids, Held::Chosen { scores, bias: Some(bias), experts, top_k, normalise }).put(
                    probs,
                    Held::Probabilities { scores, bias: Some(bias), experts, top_k, normalise },
                ),
            )
        },
        _ => None,
    }
}

/// Memory after a worklist was built.
pub open spec fn after_worklist(places: Places, m: Memory, op: DeviceOp) -> Option<Memory> {
    match op {
        DeviceOp::BuildTileWorklist {
            kernel,
            offsets,
            weights,
            worklist,
            total_tiles,
            num_experts,
            n_tiles,
            m_tile,
        } => {
            let list = Held::Worklist {
                offsets: Box::new(m.held(offsets)),
                experts: num_experts as int,
                columns: n_tiles as int,
                rows: m_tile as int,
            };
            Some(m.put(worklist, list).put(total_tiles, list))
        },
        _ => None,
    }
}

/// Memory after rows were gated value by value.
pub open spec fn after_value_gates(places: Places, m: Memory, op: DeviceOp) -> Option<Memory> {
    match op {
        DeviceOp::SigmoidGateMul { kernel, input, gate, output, dim, gate_stride, rows } => Some(
            m.put_rows(
                output,
                2 * dim,
                2 * dim,
                rows as int,
                |r: int|
                    Held::SigmoidGated {
                        a: Box::new(m.row(input, r, 2 * dim)),
                        b: Box::new(m.row(gate, r, 2 * gate_stride)),
                    },
            ),
        ),
        _ => None,
    }
}

/// Memory after rows were gated head by head.
pub open spec fn after_head_gates(places: Places, m: Memory, op: DeviceOp) -> Option<Memory> {
    match op {
        DeviceOp::HeadGateMul { kernel, activation, input, gate, output, nq, hd, rows } => Some(
            m.put_rows(
                output,
                2 * (nq * hd),
                2 * (nq * hd),
                rows as int,
                |r: int|
                    Held::HeadGated {
                        of: Box::new(m.row(input, r, 2 * (nq * hd))),
                        gates: Box::new(m.row(gate, r, 2 * nq)),
                        activation,
                        nq,
                        hd,
                    },
            ),
        ),
        _ => None,
    }
}

/// Memory after a product of a few rows.
pub open spec fn after_batch_product(places: Places, m: Memory, op: DeviceOp) -> Option<Memory> {
    match op {
        DeviceOp::DenseGemvBatchM { kernel, input, weight, output, m: rows, n, k, out_stride } => Some(
            m.put_rows(
                output,
                2 * out_stride,
                2 * n,
                rows as int,
                |r: int|
                    Held::Product {
                        row: Box::new(m.row(input, r, 2 * k)),
                        weight: WeightRef::Dense(weight),
                        n,
                        k,
                    },
            ),
        ),
        _ => None,
    }
}

/// Memory after a product of one row and a two-bit weight.
pub open spec fn after_two_bit(places: Places, m: Memory, op: DeviceOp) -> Option<Memory> {
    match op {
        DeviceOp::Q2Gemv { kernel, input, weight, output } => Some(
            m.put_rows(
                output,
                2 * weight.n,
                2 * weight.n,
                1,
                |r: int| Held::TwoBitProduct { row: Box::new(m.held(input)), weight },
            ),
        ),
        _ => None,
    }
}

/// Memory after a product of many rows and a four-bit weight.
pub open spec fn after_wide(places: Places, m: Memory, op: DeviceOp) -> Option<Memory> {
    match op {
        DeviceOp::WideGemm { input, weight, weight_t, output, m: rows, n, k } => Some(
            m.put_rows(
                output,
                2 * n,
                2 * n,
                rows as int,
                |r: int|
                    Held::Product {
                        row: Box::new(m.row(input, r, 2 * k)),
                        weight: WeightRef::Quantized(weight),
                        n,
                        k,
                    },
            ),
        ),
        _ => None,
    }
}

/// Memory after two products of one row.
pub open spec fn after_dual_wave(places: Places, m: Memory, op: DeviceOp) -> Option<Memory> {
    match op {
        DeviceOp::GemvDualSw { kernel, input, weight0, output0, weight1, output1, n, k } => {
            let x = Box::new(m.held(input));
            Some(
                m.put_rows(
                    output0,
                    2 * n,
                    2 * n,
                    1,
                    |r: int| Held::Product { row: x, weight: WeightRef::Quantized(weight0), n, k },
                ).put_rows(
                    output1,
                    2 * n,
                    2 * n,
                    1,
                    |r: int| Held::Product { row: x, weight: WeightRef::Quantized(weight1), n, k },
                ),
            )
        },
        _ => None,
    }
}

/// Memory after a product that gates its row first.
pub open spec fn after_gated_product(places: Places, m: Memory, op: DeviceOp) -> Option<Memory> {
    match op {
        DeviceOp::GemvSiluInput { kernel, single_wave, gate, up, weight, output, n, k } => Some(
            m.put_rows(
                output,
                2 * n,
                2 * n,
                1,
                |r: int|
                    Held::Product {
                        row: Box::new(
                            Held::Gated {
                                gate: Box::new(m.held(gate)),
                                up: Box::new(m.held(up)),
                                kernel,
                                limit: Scalar(0),
                                count: k as int,
                            },
                        ),
                        weight: WeightRef::Quantized(weight),
                        n,
                        k,
                    },
            ),
        ),
        _ => None,
    }
}

/// Memory after a product in eight-bit integers.
pub open spec fn after_integer_product(places: Places, m: Memory, op: DeviceOp) -> Option<Memory> {
    match op {
        DeviceOp::Int8Gemm { gemm, requant, input, weight, weight_scale, a_i8, a_scale, output, m: rows, n, k } => Some(
            m.put(a_i8, Held::Spent).put(a_scale, Held::Spent).put_rows(
                output,
                2 * n,
                2 * n,
                rows as int,
                |r: int|
                    Held::IntegerProduct {
                        row: Box::new(m.row(input, r, 2 * k)),
                        weight,
                        scale: weight_scale,
                        n,
                        k,
                    },
            ),
        ),
        _ => None,
    }
}

/// Memory after an operation of the back end.
#[verifier::opaque]
pub open spec fn after_op(places: Places, m: Memory, op: DeviceOp) -> Option<Memory> {
    match op {
        DeviceOp::Synchronize => Some(m),
        DeviceOp::Exl3DispatchBegin => Some(m),
        DeviceOp::Exl3DispatchEnd => Some(m),
        DeviceOp::Free { ptr } => Some(m.put(ptr, Held::Spent)),
        DeviceOp::CopyD2D { .. } => after_copy(places, m, op),
        DeviceOp::GemvQg { .. } => after_query(places, m, op),
        DeviceOp::DeinterleaveQg { .. } => after_parting(places, m, op),
        DeviceOp::GemvDual { .. } => after_dual(places, m, op),
        DeviceOp::LoraBgmv { .. } => after_adapters(places, m, op),
        DeviceOp::Rope { .. } => after_rope(places, m, op),
        DeviceOp::RopeStrided { .. } => after_rope_strided(places, m, op),
        DeviceOp::RopeYarnScaled { .. } => after_rope_scaled(places, m, op),
        DeviceOp::KvCacheWrite { .. } => after_cache_write(places, m, op),
        DeviceOp::PagedDecode { .. } => after_attention(places, m, op),
        DeviceOp::Memset { dst, value, bytes } => Some(
            m.fill(dst, bytes as int, |i: int| Held::Filled(value)),
        ),
        DeviceOp::ActMul { .. } => after_activation(places, m, op),
        DeviceOp::BuildTileWorklist { .. } => after_worklist(places, m, op),
        DeviceOp::ScaledAdd { .. } => after_scaled_add(places, m, op),
        DeviceOp::WaitEvent { event } => Some(m),
        DeviceOp::MarlinAlign { .. } => after_routes(places, m, op),
        DeviceOp::MarlinGemm { .. } => after_routes(places, m, op),
        DeviceOp::MarlinSiluMul { .. } => after_routes(places, m, op),
        DeviceOp::WeightedSumBlend { .. } => after_routes(places, m, op),
        DeviceOp::W4a16DecodeGemv { .. } => after_router(places, m, op),
        DeviceOp::TopkSoftmax { .. } => after_router(places, m, op),
        DeviceOp::TopkSigmoid { .. } => after_router(places, m, op),
        DeviceOp::SigmoidGateMul { .. } => after_value_gates(places, m, op),
        DeviceOp::HeadGateMul { .. } => after_head_gates(places, m, op),
        DeviceOp::DenseGemvBatchM { .. } => after_batch_product(places, m, op),
        DeviceOp::Q2Gemv { .. } => after_two_bit(places, m, op),
        DeviceOp::WideGemm { .. } => after_wide(places, m, op),
        DeviceOp::GemvDualSw { .. } => after_dual_wave(places, m, op),
        DeviceOp::GemvSiluInput { .. } => after_gated_product(places, m, op),
        DeviceOp::Int8Gemm { .. } => after_integer_product(places, m, op),
        DeviceOp::Bf16ToFp8 { kernel, src, dst, n } => Some(
            m.put(dst, Held::Narrow { of: Box::new(m.held(src)), count: n as int }),
        ),
        DeviceOp::F32ToBf16 { src, dst, n } => Some(
            m.put(dst, Held::Rounded { of: Box::new(m.held(src)), count: n as int }),
        ),
        DeviceOp::GroupedGateUpFp4 { gate, up, rows, gate_out, up_out, offsets, num_experts, inter, h } => Some(
            m.put(
                gate_out,
                grouped_call(m, gate, rows, gate_out, offsets, num_experts, inter, h),
            ).put(up_out, grouped_call(m, up, rows, up_out, offsets, num_experts, inter, h)),
        ),
        DeviceOp::Exl3Mgemm(x) => Some(
            m.put(x.a_had, Held::Spent).put(
                x.c,
                Held::Trellis(
                    Trellis {
                        rows: Box::new(m.held(x.a)),
                        trellis_ptrs: x.trellis_ptrs,
                        suh_ptrs: x.suh_ptrs,
                        svh_ptrs: x.svh_ptrs,
                        k_bits: x.k_bits,
                        codebook: x.codebook,
                        experts: held_opt(m, x.b_indices),
                        weights: held_opt(m, x.b_weights),
                        rows_per_slot: x.m,
                        k: x.k,
                        n: x.n,
                        slots_in: x.slots_in,
                        slots_out: x.slots_out,
                        results: x.num_tokens,
                        wide: x.c_is_f32,
                    },
                ),
            ),
        ),
        DeviceOp::SharedExpert { input, n, h, inter } => Some(
            m.put(
                places.shared_out,
                Held::Shared {
                    rows: Box::new(m.held(input)),
                    count: n as int,
                    h: h as int,
                    inter: inter as int,
                },
            ),
        ),
        DeviceOp::Matmul { .. } => after_matmul(places, m, op),
        DeviceOp::RmsNorm { .. } => after_norm(places, m, op),
        DeviceOp::BatchedEmbed { kernel, ids, table, output, rows, h } => Some(
            m.put_rows(
                output,
                2 * h,
                2 * h,
                rows as int,
                |r: int| Held::Embedded { token: Box::new(m.row(ids, r, 4)), table, h },
            ),
        ),
        DeviceOp::RmsNormResidual { .. } => after_norm_residual(places, m, op),
        DeviceOp::ResidualAddRmsNorm { .. } => after_add_norm(places, m, op),
        DeviceOp::ResidualAdd { kernel, hidden, addend, n } => Some(
            m.fill(
                hidden,
                2 * n,
                |i: int|
                    Held::Sum {
                        a: Box::new((m.at)(hidden.0 + i)),
                        b: Box::new((m.at)(addend.0 + i)),
                    },
            ),
        ),
        DeviceOp::SsmForward { input, seq } => Some(
            m.put(places.block_out, Held::Mixed { row: Box::new(m.held(input)), seq }),
        ),
        DeviceOp::Ffn { entry, input, n } => Some(
            m.put_rows(
                places.block_out,
                places.row_bytes,
                places.row_bytes,
                n as int,
                |r: int| Held::Fed { row: Box::new(m.row(input, r, places.row_bytes)) },
            ),
        ),
        DeviceOp::BaGates { .. } => after_gates(places, m, op),
        DeviceOp::BaGatesPrefill { .. } => after_gate_rows(places, m, op),
        DeviceOp::Conv1dUpdateL2norm { .. } => after_convolution(places, m, op),
        DeviceOp::GdnDecode { .. } => after_step(places, m, op),
        DeviceOp::GdnDecodeNorm { .. } => after_step_norm(places, m, op),
        DeviceOp::GdnDecodeStrided { .. } => after_steps(places, m, op),
        DeviceOp::GdnDecodeStridedNorm { .. } => after_steps_norm(places, m, op),
        DeviceOp::GatedRmsNorm { .. } => after_gated_norm(places, m, op),
        DeviceOp::ArgmaxBf16 { kernel, logits, out, n } => Some(
            m.put(out, Held::Largest { of: Box::new(m.held(logits)), n }),
        ),
        DeviceOp::DraftLayer(args) => Some(
            m.put_rows(
                places.draft_rows,
                2 * args.h,
                2 * args.h,
                args.n_attn as int,
                |r: int|
                    Held::Drafted {
                        row: Box::new(m.row(places.draft_rows, r, 2 * args.h)),
                        position: Box::new(m.row(places.draft_positions, r, 4)),
                        args,
                    },
            ),
        ),
        DeviceOp::AllReduce { ptr, bytes } => Some(
            m.put(ptr, Held::Summed { of: Box::new(m.held(ptr)), bytes: bytes as int }),
        ),
        _ => None,
    }
}

pub proof fn lemma_after_gates(places: Places, m: Memory, op: DeviceOp)
    requires
        op is BaGates,
    ensures
        after_op(places, m, op) == after_gates(places, m, op),
{
    reveal(after_op);
}

pub proof fn lemma_after_gate_rows(places: Places, m: Memory, op: DeviceOp)
    requires
        op is BaGatesPrefill,
    ensures
        after_op(places, m, op) == after_gate_rows(places, m, op),
{
    reveal(after_op);
}

pub proof fn lemma_after_convolution(places: Places, m: Memory, op: DeviceOp)
    requires
        op is Conv1dUpdateL2norm,
    ensures
        after_op(places, m, op) == after_convolution(places, m, op),
{
    reveal(after_op);
}

pub proof fn lemma_after_step(places: Places, m: Memory, op: DeviceOp)
    requires
        op is GdnDecode,
    ensures
        after_op(places, m, op) == after_step(places, m, op),
{
    reveal(after_op);
}

pub proof fn lemma_after_step_norm(places: Places, m: Memory, op: DeviceOp)
    requires
        op is GdnDecodeNorm,
    ensures
        after_op(places, m, op) == after_step_norm(places, m, op),
{
    reveal(after_op);
}

pub proof fn lemma_after_steps(places: Places, m: Memory, op: DeviceOp)
    requires
        op is GdnDecodeStrided,
    ensures
        after_op(places, m, op) == after_steps(places, m, op),
{
    reveal(after_op);
}

pub proof fn lemma_after_steps_norm(places: Places, m: Memory, op: DeviceOp)
    requires
        op is GdnDecodeStridedNorm,
    ensures
        after_op(places, m, op) == after_steps_norm(places, m, op),
{
    reveal(after_op);
}

pub proof fn lemma_after_gated_norm(places: Places, m: Memory, op: DeviceOp)
    requires
        op is GatedRmsNorm,
    ensures
        after_op(places, m, op) == after_gated_norm(places, m, op),
{
    reveal(after_op);
}

pub proof fn lemma_after_matmul(places: Places, m: Memory, op: DeviceOp)
    requires
        op is Matmul,
    ensures
        after_op(places, m, op) == after_matmul(places, m, op),
{
    reveal(after_op);
}

pub proof fn lemma_after_norm(places: Places, m: Memory, op: DeviceOp)
    requires
        op is RmsNorm,
    ensures
        after_op(places, m, op) == after_norm(places, m, op),
{
    reveal(after_op);
}

pub proof fn lemma_after_norm_residual(places: Places, m: Memory, op: DeviceOp)
    requires
        op is RmsNormResidual,
    ensures
        after_op(places, m, op) == after_norm_residual(places, m, op),
{
    reveal(after_op);
}

pub proof fn lemma_after_add_norm(places: Places, m: Memory, op: DeviceOp)
    requires
        op is ResidualAddRmsNorm,
    ensures
        after_op(places, m, op) == after_add_norm(places, m, op),
{
    reveal(after_op);
}

pub proof fn lemma_after_copy(places: Places, m: Memory, op: DeviceOp)
    requires
        op is CopyD2D,
    ensures
        after_op(places, m, op) == after_copy(places, m, op),
{
    reveal(after_op);
}

pub proof fn lemma_after_query(places: Places, m: Memory, op: DeviceOp)
    requires
        op is GemvQg,
    ensures
        after_op(places, m, op) == after_query(places, m, op),
{
    reveal(after_op);
}

pub proof fn lemma_after_parting(places: Places, m: Memory, op: DeviceOp)
    requires
        op is DeinterleaveQg,
    ensures
        after_op(places, m, op) == after_parting(places, m, op),
{
    reveal(after_op);
}

pub proof fn lemma_after_dual(places: Places, m: Memory, op: DeviceOp)
    requires
        op is GemvDual,
    ensures
        after_op(places, m, op) == after_dual(places, m, op),
{
    reveal(after_op);
}

pub proof fn lemma_after_adapters(places: Places, m: Memory, op: DeviceOp)
    requires
        op is LoraBgmv,
    ensures
        after_op(places, m, op) == after_adapters(places, m, op),
{
    reveal(after_op);
}

pub proof fn lemma_after_rope(places: Places, m: Memory, op: DeviceOp)
    requires
        op is Rope,
    ensures
        after_op(places, m, op) == after_rope(places, m, op),
{
    reveal(after_op);
}

pub proof fn lemma_after_rope_strided(places: Places, m: Memory, op: DeviceOp)
    requires
        op is RopeStrided,
    ensures
        after_op(places, m, op) == after_rope_strided(places, m, op),
{
    reveal(after_op);
}

pub proof fn lemma_after_rope_scaled(places: Places, m: Memory, op: DeviceOp)
    requires
        op is RopeYarnScaled,
    ensures
        after_op(places, m, op) == after_rope_scaled(places, m, op),
{
    reveal(after_op);
}

pub proof fn lemma_after_cache_write(places: Places, m: Memory, op: DeviceOp)
    requires
        op is KvCacheWrite,
    ensures
        after_op(places, m, op) == after_cache_write(places, m, op),
{
    reveal(after_op);
}

pub proof fn lemma_after_attention(places: Places, m: Memory, op: DeviceOp)
    requires
        op is PagedDecode,
    ensures
        after_op(places, m, op) == after_attention(places, m, op),
{
    reveal(after_op);
}

pub proof fn lemma_after_scaled_add(places: Places, m: Memory, op: DeviceOp)
    requires
        op is ScaledAdd,
    ensures
        after_op(places, m, op) == after_scaled_add(places, m, op),
{
    reveal(after_op);
}

pub proof fn lemma_after_routes(places: Places, m: Memory, op: DeviceOp)
    requires
        op is MarlinAlign || op is MarlinGemm || op is MarlinSiluMul || op is WeightedSumBlend,
    ensures
        after_op(places, m, op) == after_routes(places, m, op),
{
    reveal(after_op);
}

pub proof fn lemma_after_router(places: Places, m: Memory, op: DeviceOp)
    requires
        op is W4a16DecodeGemv || op is TopkSoftmax || op is TopkSigmoid,
    ensures
        after_op(places, m, op) == after_router(places, m, op),
{
    reveal(after_op);
}

pub proof fn lemma_after_worklist(places: Places, m: Memory, op: DeviceOp)
    requires
        op is BuildTileWorklist,
    ensures
        after_op(places, m, op) == after_worklist(places, m, op),
{
    reveal(after_op);
}

pub proof fn lemma_after_activation(places: Places, m: Memory, op: DeviceOp)
    requires
        op is ActMul,
    ensures
        after_op(places, m, op) == after_activation(places, m, op),
{
    reveal(after_op);
}

pub proof fn lemma_after_value_gates(places: Places, m: Memory, op: DeviceOp)
    requires
        op is SigmoidGateMul,
    ensures
        after_op(places, m, op) == after_value_gates(places, m, op),
{
    reveal(after_op);
}

pub proof fn lemma_after_head_gates(places: Places, m: Memory, op: DeviceOp)
    requires
        op is HeadGateMul,
    ensures
        after_op(places, m, op) == after_head_gates(places, m, op),
{
    reveal(after_op);
}

pub proof fn lemma_after_batch_product(places: Places, m: Memory, op: DeviceOp)
    requires
        op is DenseGemvBatchM,
    ensures
        after_op(places, m, op) == after_batch_product(places, m, op),
{
    reveal(after_op);
}

pub proof fn lemma_after_two_bit(places: Places, m: Memory, op: DeviceOp)
    requires
        op is Q2Gemv,
    ensures
        after_op(places, m, op) == after_two_bit(places, m, op),
{
    reveal(after_op);
}

pub proof fn lemma_after_wide(places: Places, m: Memory, op: DeviceOp)
    requires
        op is WideGemm,
    ensures
        after_op(places, m, op) == after_wide(places, m, op),
{
    reveal(after_op);
}

pub proof fn lemma_after_dual_wave(places: Places, m: Memory, op: DeviceOp)
    requires
        op is GemvDualSw,
    ensures
        after_op(places, m, op) == after_dual_wave(places, m, op),
{
    reveal(after_op);
}

pub proof fn lemma_after_gated_product(places: Places, m: Memory, op: DeviceOp)
    requires
        op is GemvSiluInput,
    ensures
        after_op(places, m, op) == after_gated_product(places, m, op),
{
    reveal(after_op);
}

pub proof fn lemma_after_integer_product(places: Places, m: Memory, op: DeviceOp)
    requires
        op is Int8Gemm,
    ensures
        after_op(places, m, op) == after_integer_product(places, m, op),
{
    reveal(after_op);
}

pub proof fn lemma_head_launch(m: Memory, l: Launch)
    requires
        l.args.len() == 2,
        l.args[0] is Ptr,
        l.args[1] is U32,
    ensures
        after_launch(m, l) == Some(
            m.put_rows(
                l.args[0]->Ptr_0,
                2 * l.args[1]->U32_0,
                2 * l.args[1]->U32_0,
                l.grid.x as int,
                |r: int|
                    Held::Transformed {
                        of: Box::new(m.row(l.args[0]->Ptr_0, r, 2 * l.args[1]->U32_0)),
                        kernel: l.kernel,
                    },
            ),
        ),
{
    reveal(after_launch);
}

pub proof fn lemma_listed_pair_launch(
    m: Memory,
    l: Launch,
    rows: DevicePtr,
    gate: ExpertPtrTable,
    up: ExpertPtrTable,
    gate_out: DevicePtr,
    up_out: DevicePtr,
    offsets: DevicePtr,
    map: DevicePtr,
    experts: u32,
    n: u32,
    k: u32,
    list: DevicePtr,
    count: DevicePtr,
)
    requires
        l.args == seq![
            KernelArg::Ptr(rows),
            KernelArg::Ptr(gate.packed_ptrs),
            KernelArg::Ptr(gate.scale_ptrs),
            KernelArg::Ptr(gate.scale2_vals),
            KernelArg::Ptr(up.packed_ptrs),
            KernelArg::Ptr(up.scale_ptrs),
            KernelArg::Ptr(up.scale2_vals),
            KernelArg::Ptr(gate_out),
            KernelArg::Ptr(up_out),
            KernelArg::Ptr(offsets),
            KernelArg::Ptr(map),
            KernelArg::U32(experts),
            KernelArg::U32(n),
            KernelArg::U32(k),
            KernelArg::Ptr(list),
            KernelArg::Ptr(count),
        ],
    ensures
        after_launch(m, l) == Some(
            m.put(gate_out, listed(m, l, rows, gate, gate_out, offsets, map, experts, n, k, list, count)).put(
                up_out,
                listed(m, l, rows, up, up_out, offsets, map, experts, n, k, list, count),
            ),
        ),
{
    reveal(after_launch);
}

pub proof fn lemma_listed_launch(
    m: Memory,
    l: Launch,
    rows: DevicePtr,
    table: ExpertPtrTable,
    out: DevicePtr,
    offsets: DevicePtr,
    map: DevicePtr,
    experts: u32,
    n: u32,
    k: u32,
    list: DevicePtr,
    count: DevicePtr,
)
    requires
        l.args == seq![
            KernelArg::Ptr(rows),
            KernelArg::Ptr(table.packed_ptrs),
            KernelArg::Ptr(table.scale_ptrs),
            KernelArg::Ptr(table.scale2_vals),
            KernelArg::Ptr(out),
            KernelArg::Ptr(offsets),
            KernelArg::Ptr(map),
            KernelArg::U32(experts),
            KernelArg::U32(n),
            KernelArg::U32(k),
            KernelArg::Ptr(list),
            KernelArg::Ptr(count),
        ],
    ensures
        after_launch(m, l) == Some(
            m.put(out, listed(m, l, rows, table, out, offsets, map, experts, n, k, list, count)),
        ),
{
    reveal(after_launch);
}

/// Memory after one command.
pub open spec fn after(places: Places, m: Memory, c: Cmd) -> Option<Memory> {
    match c {
        Cmd::Launch(l) => after_launch(m, l),
        Cmd::Op(op) => after_op(places, m, op),
        Cmd::Upload { dst, bytes } => Some(
            m.fill(dst, bytes.len() as int, |i: int| Held::Host { bytes, from: i }),
        ),
        Cmd::GateUp(_) => None,
    }
}

/// Gate and up products in one launch.
pub proof fn lemma_dual_launch(
    m: Memory,
    l: Launch,
    rows: DevicePtr,
    gate: ExpertPtrTable,
    up: ExpertPtrTable,
    gate_out: DevicePtr,
    up_out: DevicePtr,
    offsets: DevicePtr,
    map: DevicePtr,
    experts: u32,
    n: u32,
    k: u32,
)
    requires
        l.args == seq![
            KernelArg::Ptr(rows),
            KernelArg::Ptr(gate.packed_ptrs),
            KernelArg::Ptr(gate.scale_ptrs),
            KernelArg::Ptr(gate.scale2_vals),
            KernelArg::Ptr(up.packed_ptrs),
            KernelArg::Ptr(up.scale_ptrs),
            KernelArg::Ptr(up.scale2_vals),
            KernelArg::Ptr(gate_out),
            KernelArg::Ptr(up_out),
            KernelArg::Ptr(offsets),
            KernelArg::Ptr(map),
            KernelArg::U32(experts),
            KernelArg::U32(n),
            KernelArg::U32(k),
        ],
    ensures
        after_launch(m, l) == Some(
            m.put(
                gate_out,
                product(m, l, rows, gate, gate_out, offsets, map, experts, n, k),
            ).put(up_out, product(m, l, rows, up, up_out, offsets, map, experts, n, k)),
        ),
{
    reveal(after_launch);
}

/// Rows in the order of a map.
pub proof fn lemma_gather_launch(
    m: Memory,
    l: Launch,
    rows: DevicePtr,
    out: DevicePtr,
    map: DevicePtr,
    width: u32,
    count: u32,
)
    requires
        l.args == seq![
            KernelArg::Ptr(rows),
            KernelArg::Ptr(out),
            KernelArg::Ptr(map),
            KernelArg::U32(width),
            KernelArg::U32(count),
        ],
    ensures
        after_launch(m, l) == Some(
            m.put(out, mapped(m, rows, map, width as int, l.grid.x as int)),
        ),
{
    reveal(after_launch);
}

/// Every row once for each of its experts.
pub proof fn lemma_repeat_launch(
    m: Memory,
    l: Launch,
    rows: DevicePtr,
    out: DevicePtr,
    times: i32,
    width: u64,
    total: u64,
)
    requires
        l.args == seq![
            KernelArg::Ptr(rows),
            KernelArg::Ptr(out),
            KernelArg::I32(times),
            KernelArg::U64(width),
            KernelArg::U64(total),
        ],
    ensures
        after_launch(m, l) == Some(
            m.put(
                out,
                Held::Repeated {
                    rows: Box::new(m.held(rows)),
                    times: times as int,
                    width: width as int,
                    total: total as int,
                },
            ),
        ),
{
    reveal(after_launch);
}

/// Global experts and probabilities to local ones.
pub proof fn lemma_localise_launch(
    m: Memory,
    l: Launch,
    ids: DevicePtr,
    probs: DevicePtr,
    out_ids: DevicePtr,
    out_weights: DevicePtr,
    start: i32,
    held: i32,
    slots: u64,
)
    requires
        l.args == seq![
            KernelArg::Ptr(ids),
            KernelArg::Ptr(probs),
            KernelArg::Ptr(out_ids),
            KernelArg::Ptr(out_weights),
            KernelArg::I32(start),
            KernelArg::I32(held),
            KernelArg::U64(slots),
        ],
    ensures
        after_launch(m, l) == Some(
            m.put(
                out_ids,
                Held::LocalExperts {
                    ids: Box::new(m.held(ids)),
                    start: start as int,
                    held: held as int,
                    slots: slots as int,
                },
            ).put(
                out_weights,
                Held::LocalWeights {
                    ids: Box::new(m.held(ids)),
                    probs: Box::new(m.held(probs)),
                    start: start as int,
                    held: held as int,
                    slots: slots as int,
                },
            ),
        ),
{
    reveal(after_launch);
}

/// silu(gate) * up over pairs of values.
pub proof fn lemma_silu_pairs_launch(
    m: Memory,
    l: Launch,
    gate: DevicePtr,
    up: DevicePtr,
    out: DevicePtr,
    limit: Scalar,
    pairs: u64,
)
    requires
        l.args == seq![
            KernelArg::Ptr(gate),
            KernelArg::Ptr(up),
            KernelArg::Ptr(out),
            KernelArg::Scalar(limit),
            KernelArg::U64(pairs),
        ],
    ensures
        after_launch(m, l) == Some(
            m.put(
                out,
                Held::Gated {
                    gate: Box::new(m.held(gate)),
                    up: Box::new(m.held(up)),
                    kernel: l.kernel,
                    limit,
                    count: 2 * pairs,
                },
            ),
        ),
{
    reveal(after_launch);
}

/// Gated shared result onto the routed one.
pub proof fn lemma_blend_launch(
    m: Memory,
    l: Launch,
    out: DevicePtr,
    shared: DevicePtr,
    input: DevicePtr,
    gate: DevicePtr,
    h: u32,
    rows: u32,
)
    requires
        l.args == seq![
            KernelArg::Ptr(out),
            KernelArg::Ptr(shared),
            KernelArg::Ptr(input),
            KernelArg::Ptr(gate),
            KernelArg::U32(h),
            KernelArg::U32(rows),
        ],
    ensures
        after_launch(m, l) == Some(
            m.put(
                out,
                Held::Blended {
                    routed: Box::new(m.held(out)),
                    shared: Box::new(m.held(shared)),
                    input: Box::new(m.held(input)),
                    gate,
                    h: h as int,
                    rows: rows as int,
                },
            ),
        ),
{
    reveal(after_launch);
}

/// One product in a launch.
pub proof fn lemma_grouped_launch(
    m: Memory,
    l: Launch,
    rows: DevicePtr,
    table: ExpertPtrTable,
    out: DevicePtr,
    offsets: DevicePtr,
    map: DevicePtr,
    experts: u32,
    n: u32,
    k: u32,
)
    requires
        l.args == seq![
            KernelArg::Ptr(rows),
            KernelArg::Ptr(table.packed_ptrs),
            KernelArg::Ptr(table.scale_ptrs),
            KernelArg::Ptr(table.scale2_vals),
            KernelArg::Ptr(out),
            KernelArg::Ptr(offsets),
            KernelArg::Ptr(map),
            KernelArg::U32(experts),
            KernelArg::U32(n),
            KernelArg::U32(k),
        ],
    ensures
        after_launch(m, l) == Some(
            m.put(out, product(m, l, rows, table, out, offsets, map, experts, n, k)),
        ),
{
    reveal(after_launch);
}

/// Memory after all commands, where every one of them has a meaning.
pub open spec fn run(places: Places, m: Memory, cmds: Seq<Cmd>) -> Option<Memory>
    decreases cmds.len(),
{
    if cmds.len() == 0 {
        Some(m)
    } else {
        match run(places, m, cmds.drop_last()) {
            Some(v) => after(places, v, cmds.last()),
            None => None,
        }
    }
}

/// Running on: one command more.
pub proof fn lemma_run_push(places: Places, m: Memory, cmds: Seq<Cmd>, c: Cmd)
    ensures
        run(places, m, cmds.push(c)) == (match run(places, m, cmds) {
            Some(v) => after(places, v, c),
            None => None,
        }),
{
    assert(cmds.push(c).drop_last() =~= cmds);
}

/// Running on: more commands.
pub proof fn lemma_run_add(places: Places, m: Memory, a: Seq<Cmd>, b: Seq<Cmd>)
    ensures
        run(places, m, a + b) == (match run(places, m, a) {
            Some(v) => run(places, v, b),
            None => None,
        }),
    decreases b.len(),
{
    if b.len() == 0 {
        assert(a + b =~= a);
    } else {
        assert((a + b).drop_last() =~= a + b.drop_last());
        lemma_run_add(places, m, a, b.drop_last());
    }
}

/// A single command.
pub proof fn lemma_run_one(places: Places, m: Memory, c: Cmd)
    ensures
        run(places, m, seq![c]) == after(places, m, c),
{
    lemma_run_push(places, m, Seq::empty(), c);
}

/// Two commands.
pub proof fn lemma_run_two(places: Places, m: Memory, c: Cmd, d: Cmd)
    ensures
        run(places, m, seq![c, d]) == (match after(places, m, c) {
            Some(v) => after(places, v, d),
            None => None,
        }),
{
    lemma_run_one(places, m, c);
    lemma_run_push(places, m, seq![c], d);
    assert(seq![c].push(d) =~= seq![c, d]);
}

/// Three commands.
pub proof fn lemma_run_three(places: Places, m: Memory, c: Cmd, d: Cmd, e: Cmd)
    ensures
        run(places, m, seq![c, d, e]) == (match after(places, m, c) {
            Some(v) => match after(places, v, d) {
                Some(w) => after(places, w, e),
                None => None,
            },
            None => None,
        }),
{
    lemma_run_two(places, m, c, d);
    lemma_run_push(places, m, seq![c, d], e);
    assert(seq![c, d].push(e) =~= seq![c, d, e]);
}

/// Commands that run whatever memory holds.
pub open spec fn always_runs(c: Cmd) -> bool {
    match c {
        Cmd::Upload { dst, bytes } => true,
        Cmd::Op(DeviceOp::Matmul { kind, kernel, input, weight, output, m, n, k }) => true,
        Cmd::Op(DeviceOp::RmsNorm { kernel, input, weight, output, rows, dim, eps }) => true,
        _ => false,
    }
}

pub proof fn lemma_always_runs(places: Places, m: Memory, cmds: Seq<Cmd>)
    requires
        forall|i: int| 0 <= i < cmds.len() ==> always_runs(#[trigger] cmds[i]),
    ensures
        run(places, m, cmds) is Some,
    decreases cmds.len(),
{
    if cmds.len() > 0 {
        assert forall|i: int| 0 <= i < cmds.drop_last().len() implies always_runs(
            #[trigger] cmds.drop_last()[i],
        ) by {
            assert(always_runs(cmds[i]));
        }
        lemma_always_runs(places, m, cmds.drop_last());
        reveal(after_op);
        assert(always_runs(cmds[cmds.len() - 1]));
    }
}

} // verus!
