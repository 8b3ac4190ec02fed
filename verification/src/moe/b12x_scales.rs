//! Scale tables of the fused resident-expert kernel.
//!
//! The kernel applies one alpha per expert to both halves of its first GEMM,
//! so the per-projection global scales of gate and up are folded into their
//! block scales ("baked"), the first alpha is one throughout, and the second
//! alpha is the global scale of the down projection unless that is baked too.
use crate::codec::{
    e4m3_decodes, e4m3_encodes, e4m3_to_f32, f32_is_nan, f32_to_e4m3, law_e4m3_encoding_is_unique,
};
use crate::device::{Cmd, CommandBuffer, DevicePtr, Scalar};
use crate::float::{f32_mul, f32_product, law_f32_product_is_unique, law_f32_value_fixes_pattern};
use crate::moe::ptr_tables::scalars_bytes;
use crate::num::{ceil_div, div_ceil, le_u32, push_u32, u32_bytes};
use crate::ops_table::DeviceOp;
use crate::text::same_text;
use vstd::prelude::*;

verus! {

/// How logical scales reach the layout that the kernel reads.
#[derive(Debug, Clone, Copy, PartialEq, Eq, Structural)]
pub enum SfbStrategy {
    /// The packer's own layout is the kernel's layout.
    ConcatReuse,
    /// A layout of its own, which no packer supplies yet.
    RebuildFromRaw,
}

/// No packer supplies the requested scale layout.
#[derive(Debug, Clone, Copy, PartialEq, Eq, Structural)]
pub struct SfbLayoutMissing;

/// Strategy that `ATLAS_B12X_SFB_STRATEGY` asks for; reuse by default.
pub fn sfb_strategy_from_env(value: Option<&str>) -> (r: SfbStrategy)
    ensures
        r == (if value matches Some(v) && v@ == "rebuild"@ {
            SfbStrategy::RebuildFromRaw
        } else {
            SfbStrategy::ConcatReuse
        }),
{
    match value {
        Some(v) => if same_text(v, "rebuild") {
            SfbStrategy::RebuildFromRaw
        } else {
            SfbStrategy::ConcatReuse
        },
        None => SfbStrategy::ConcatReuse,
    }
}

/// Smallest multiple of `m` not below `n`.
pub open spec fn round_up(n: int, m: int) -> int {
    ceil_div(n, m) * m
}

/// Bytes of the packed scales of an `n` by `k` projection.
pub open spec fn sfb_bytes(n: int, k: int) -> int {
    round_up(n, 128) * round_up(k / 16, 4)
}

/// Bytes of the packed scales of an `n` by `k` projection: rows padded to 128,
/// sixteen-column groups padded to four.
pub fn sfb_len(n: usize, k: usize) -> (r: usize)
    requires
        sfb_bytes(n as int, k as int) <= usize::MAX,
        round_up(n as int, 128) <= usize::MAX,
    ensures
        r == sfb_bytes(n as int, k as int),
{
    let rows: usize = div_ceil(n, 128) * 128;
    let groups: usize = div_ceil(k / 16, 4);
    proof {
        let a = rows as int;
        let g = groups as int;
        assert(a * (g * 4) == a * g * 4) by (nonlinear_arith);
        assert(0 <= a * g <= a * g * 4) by (nonlinear_arith)
            requires
                a >= 0,
                g >= 0,
        ;
    }
    rows * groups * 4
}

/// Bit pattern of 1.
pub const ONE_BITS: u32 = 0x3f80_0000;

/// `n` ones.
pub open spec fn ones(n: nat) -> Seq<Scalar> {
    Seq::new(n, |i: int| Scalar(ONE_BITS))
}

/// `n` ones, little-endian.
pub fn ones_f32_bytes(n: usize) -> (r: Vec<u8>)
    ensures
        r@.len() == 4 * n,
        forall|i: int| 0 <= i < n ==> #[trigger] le_u32(r@, 4 * i) == ONE_BITS,
        r@ == scalars_bytes(ones(n as nat)),
{
    let mut v: Vec<u8> = Vec::new();
    let mut i: usize = 0;
    while i < n
        invariant
            i <= n,
            v@.len() == 4 * i,
            v@ == scalars_bytes(ones(i as nat)),
            forall|j: int| 0 <= j < i ==> #[trigger] le_u32(v@, 4 * j) == ONE_BITS,
        decreases n - i,
    {
        let ghost before = v@;
        push_u32(&mut v, ONE_BITS);
        proof {
            lemma_word_pushed(before, ONE_BITS as int, i as int);
            assert(ones((i + 1) as nat).drop_last() =~= ones(i as nat));
        }
        i = i + 1;
    }
    v
}

/// Words of a byte string that gets one more word.
pub proof fn lemma_word_pushed(before: Seq<u8>, w: int, n: int)
    requires
        before.len() == 4 * n,
        0 <= w < 0x1_0000_0000,
    ensures
        le_u32(before + u32_bytes(w), 4 * n) == w,
        forall|j: int|
            0 <= j < n ==> #[trigger] le_u32(before + u32_bytes(w), 4 * j) == le_u32(before, 4 * j),
{
    let all = before + u32_bytes(w);
    crate::num::lemma_u32_bytes_round_trip(w);
    assert(all[4 * n] == u32_bytes(w)[0]);
    assert(all[4 * n + 1] == u32_bytes(w)[1]);
    assert(all[4 * n + 2] == u32_bytes(w)[2]);
    assert(all[4 * n + 3] == u32_bytes(w)[3]);
}

/// `vals`, little-endian.
pub fn f32_slice_bytes(vals: &[Scalar]) -> (r: Vec<u8>)
    ensures
        r@.len() == 4 * vals@.len(),
        forall|i: int| 0 <= i < vals@.len() ==> #[trigger] le_u32(r@, 4 * i) == vals@[i].0,
        r@ == scalars_bytes(vals@),
{
    let mut v: Vec<u8> = Vec::new();
    let mut i: usize = 0;
    while i < vals.len()
        invariant
            i <= vals@.len(),
            v@.len() == 4 * i,
            v@ == scalars_bytes(vals@.take(i as int)),
            forall|j: int| 0 <= j < i ==> #[trigger] le_u32(v@, 4 * j) == vals@[j].0,
        decreases vals@.len() - i,
    {
        let ghost before = v@;
        push_u32(&mut v, vals[i].0);
        proof {
            lemma_word_pushed(before, vals@[i as int].0 as int, i as int);
            assert(vals@.take(i + 1).drop_last() =~= vals@.take(i as int));
        }
        i = i + 1;
    }
    assert(vals@.take(i as int) =~= vals@);
    v
}

/// Scale code `b` becomes `c` once the global scale `ws2` is folded in: its value is
/// multiplied in single precision and encoded again.
pub open spec fn bakes(b: u8, ws2: Scalar, c: u8) -> bool {
    exists|v: Scalar, x: Scalar|
        e4m3_decodes(b, v) && #[trigger] f32_product(v, ws2, x) && e4m3_encodes(x, c)
}

fn bake(b: u8, ws2: Scalar) -> (c: u8)
    ensures
        bakes(b, ws2, c),
{
    let v: Scalar = e4m3_to_f32(b);
    let x: Scalar = f32_mul(v, ws2);
    f32_to_e4m3(x)
}

proof fn lemma_same_product(b: u8, ws2: Scalar, v: Scalar, x: Scalar, w: Scalar, y: Scalar)
    requires
        e4m3_decodes(b, v),
        f32_product(v, ws2, x),
        e4m3_decodes(b, w),
        f32_product(w, ws2, y),
    ensures
        x == y || f32_is_nan(x.0 as int) && f32_is_nan(y.0 as int),
{
    if !f32_is_nan(v.0 as int) {
        law_f32_value_fixes_pattern(v, w);
        law_f32_product_is_unique(v, ws2, x, y);
    }
}

/// A scale code and a global scale leave no choice of the baked code.
pub proof fn law_baking_is_unique(b: u8, ws2: Scalar, c: u8, d: u8)
    requires
        bakes(b, ws2, c),
        bakes(b, ws2, d),
    ensures
        c == d,
{
    let (v, x) = choose|v: Scalar, x: Scalar|
        e4m3_decodes(b, v) && #[trigger] f32_product(v, ws2, x) && e4m3_encodes(x, c);
    let (w, y) = choose|w: Scalar, y: Scalar|
        e4m3_decodes(b, w) && #[trigger] f32_product(w, ws2, y) && e4m3_encodes(y, d);
    lemma_same_product(b, ws2, v, x, w, y);
    if x == y {
        law_e4m3_encoding_is_unique(x, c, d);
    }
}

/// Every code with its baked code, so that a whole table costs no more products
/// than there are codes.
struct BakeTable {
    codes: Vec<u8>,
}

impl BakeTable {
    spec fn wf(&self, ws2: Scalar) -> bool {
        &&& self.codes@.len() == 256
        &&& forall|b: int| 0 <= b < 256 ==> bakes(b as u8, ws2, #[trigger] self.codes@[b])
    }

    fn new(ws2: Scalar) -> (r: BakeTable)
        ensures
            r.wf(ws2),
    {
        let mut codes: Vec<u8> = Vec::new();
        let mut b: u16 = 0;
        while b < 256
            invariant
                b <= 256,
                codes@.len() == b,
                forall|k: int| 0 <= k < b ==> bakes(k as u8, ws2, #[trigger] codes@[k]),
            decreases 256 - b,
        {
            codes.push(bake(b as u8, ws2));
            b = b + 1;
        }
        BakeTable { codes }
    }

    fn get(&self, b: u8, Ghost(ws2): Ghost<Scalar>) -> (r: u8)
        requires
            self.wf(ws2),
        ensures
            bakes(b, ws2, r),
    {
        assert(bakes((b as int) as u8, ws2, self.codes@[b as int]));
        self.codes[b as usize]
    }
}

/// `r` is the baked scale at column `c` of group `row`: up in the left half, gate in
/// the right half.
pub open spec fn baked_w13(
    up: Seq<u8>,
    gate: Seq<u8>,
    up_ws2: Scalar,
    gate_ws2: Scalar,
    inter: int,
    row: int,
    c: int,
    r: u8,
) -> bool {
    if c < inter {
        bakes(up[row * inter + c], up_ws2, r)
    } else {
        bakes(gate[row * inter + c - inter], gate_ws2, r)
    }
}

/// `out` holds `h / 16` groups of `2 * inter` baked columns, up first.
pub open spec fn baked_logical(
    up: Seq<u8>,
    gate: Seq<u8>,
    up_ws2: Scalar,
    gate_ws2: Scalar,
    h: usize,
    inter: usize,
    out: Seq<u8>,
) -> bool {
    &&& out.len() == (h / 16) * (2 * inter)
    &&& forall|row: int, c: int|
        0 <= row < h / 16 && 0 <= c < 2 * inter ==> baked_w13(
            up,
            gate,
            up_ws2,
            gate_ws2,
            inter as int,
            row,
            c,
            #[trigger] out[row * (2 * inter) + c],
        )
}

/// Folds the global scales into the concatenated scales of one expert.
///
/// `up` and `gate` hold `h / 16` groups of `inter` columns; the result holds
/// `h / 16` groups of `2 * inter` columns, up first.
pub fn bake_w13_logical(
    up: &[u8],
    gate: &[u8],
    up_ws2: Scalar,
    gate_ws2: Scalar,
    h: usize,
    inter: usize,
) -> (r: Vec<u8>)
    requires
        up@.len() >= (h / 16) * inter,
        gate@.len() >= (h / 16) * inter,
    ensures
        baked_logical(up@, gate@, up_ws2, gate_ws2, h, inter, r@),
{
    let groups: usize = h / 16;
    let mut out: Vec<u8> = Vec::new();
    let ghost width = 2 * inter as int;
    let up_bake: BakeTable = BakeTable::new(up_ws2);
    let gate_bake: BakeTable = BakeTable::new(gate_ws2);
    assert(up.len() <= usize::MAX);
    let mut row: usize = 0;
    while row < groups
        invariant
            row <= groups,
            groups == h / 16,
            width == 2 * inter,
            up_bake.wf(up_ws2),
            gate_bake.wf(gate_ws2),
            up@.len() >= groups * inter,
            gate@.len() >= groups * inter,
            up@.len() <= usize::MAX,
            out@.len() == row * width,
            forall|p: int, c: int|
                0 <= p < row && 0 <= c < width ==> baked_w13(
                    up@,
                    gate@,
                    up_ws2,
                    gate_ws2,
                    inter as int,
                    p,
                    c,
                    #[trigger] out@[p * width + c],
                ),
        decreases groups - row,
    {
        proof {
            crate::num::lemma_row_in(row as int, groups as int, inter as int);
        }
        let base: usize = row * inter;
        let ghost before = out@;
        let mut c: usize = 0;
        while c < inter
            invariant
                c <= inter,
                base == row * inter,
                base + inter <= up@.len(),
                up@.len() <= usize::MAX,
                up_bake.wf(up_ws2),
                out@.len() == before.len() + c,
                forall|k: int| 0 <= k < before.len() ==> out@[k] == before[k],
                forall|k: int|
                    0 <= k < c ==> bakes(#[trigger] up@[base + k], up_ws2, out@[before.len() + k]),
            decreases inter - c,
        {
            let b: u8 = up_bake.get(up[base + c], Ghost(up_ws2));
            out.push(b);
            c = c + 1;
        }
        let ghost half = out@;
        c = 0;
        while c < inter
            invariant
                c <= inter,
                base == row * inter,
                base + inter <= gate@.len(),
                base + inter <= usize::MAX,
                gate_bake.wf(gate_ws2),
                out@.len() == half.len() + c,
                forall|k: int| 0 <= k < half.len() ==> out@[k] == half[k],
                forall|k: int|
                    0 <= k < c ==> bakes(
                        #[trigger] gate@[base + k],
                        gate_ws2,
                        out@[half.len() + k],
                    ),
            decreases inter - c,
        {
            let b: u8 = gate_bake.get(gate[base + c], Ghost(gate_ws2));
            out.push(b);
            c = c + 1;
        }
        proof {
            assert((row + 1) * width == row * width + width) by (nonlinear_arith);
            assert forall|p: int, k: int| 0 <= p < row + 1 && 0 <= k < width implies baked_w13(
                up@,
                gate@,
                up_ws2,
                gate_ws2,
                inter as int,
                p,
                k,
                #[trigger] out@[p * width + k],
            ) by {
                if p < row {
                    assert(p * width + k < row * width) by (nonlinear_arith)
                        requires
                            p + 1 <= row,
                            0 <= k < width,
                    ;
                    assert(0 <= p * width) by (nonlinear_arith)
                        requires
                            p >= 0,
                            width >= 0,
                    ;
                    assert(out@[p * width + k] == before[p * width + k]);
                } else if k < inter {
                    assert(bakes(up@[base + k], up_ws2, half[before.len() + k]));
                } else {
                    assert(bakes(
                        gate@[base + (k - inter)],
                        gate_ws2,
                        out@[half.len() + (k - inter)],
                    ));
                }
            }
        }
        row = row + 1;
    }
    out
}

/// `out` holds the scales of one projection with a global scale folded in.
pub open spec fn baked_all(scale: Seq<u8>, ws2: Scalar, out: Seq<u8>) -> bool {
    &&& out.len() == scale.len()
    &&& forall|i: int| 0 <= i < out.len() ==> bakes(scale[i], ws2, #[trigger] out[i])
}

/// Folds a global scale into every scale of one projection, layout unchanged.
pub fn bake_single(scale: &[u8], ws2: Scalar) -> (r: Vec<u8>)
    ensures
        baked_all(scale@, ws2, r@),
{
    let table: BakeTable = BakeTable::new(ws2);
    let mut out: Vec<u8> = Vec::new();
    let mut i: usize = 0;
    while i < scale.len()
        invariant
            i <= scale@.len(),
            table.wf(ws2),
            out@.len() == i,
            forall|j: int| 0 <= j < i ==> bakes(scale@[j], ws2, #[trigger] out@[j]),
        decreases scale@.len() - i,
    {
        let b: u8 = table.get(scale[i], Ghost(ws2));
        out.push(b);
        i = i + 1;
    }
    out
}

/// `out` holds the baked rows of up, and below them those of gate.
pub open spec fn baked_rows(
    up: Seq<u8>,
    gate: Seq<u8>,
    up_ws2: Scalar,
    gate_ws2: Scalar,
    out: Seq<u8>,
) -> bool {
    &&& out.len() == up.len() + gate.len()
    &&& baked_all(up, up_ws2, out.take(up.len() as int))
    &&& baked_all(gate, gate_ws2, out.skip(up.len() as int))
}

/// Baked scales of one expert whose sources are row-major (`[N, K/16]`): the
/// rows of up, and below them the rows of gate.
pub fn bake_w13_rows(up: &[u8], gate: &[u8], up_ws2: Scalar, gate_ws2: Scalar) -> (r: Vec<u8>)
    ensures
        baked_rows(up@, gate@, up_ws2, gate_ws2, r@),
{
    let mut out: Vec<u8> = bake_single(up, up_ws2);
    let ghost head = out@;
    let mut tail: Vec<u8> = bake_single(gate, gate_ws2);
    let ghost rest = tail@;
    out.append(&mut tail);
    assert(out@.take(up@.len() as int) =~= head);
    assert(out@.skip(up@.len() as int) =~= rest);
    out
}

/// Scales of one expert: what was read back of them, their global scales, and memory
/// for the baked copies.
#[derive(Debug, PartialEq, Eq)]
pub struct ExpertScaleSrc {
    /// Up and gate scales.
    pub up: Vec<u8>,
    pub gate: Vec<u8>,
    /// Down scales on the device.
    pub down: DevicePtr,
    /// Down scales, where the down projection is baked too.
    pub down_read: Option<Vec<u8>>,
    pub up_ws2: Scalar,
    pub gate_ws2: Scalar,
    pub down_ws2: Scalar,
    /// Memory for the baked scales, which is released again.
    pub w13_stage: DevicePtr,
    pub down_stage: DevicePtr,
}

/// Baked scales of one expert.
pub struct BakedScales {
    pub w13: Seq<u8>,
    pub down: Seq<u8>,
}

/// Destination of the packed scales and the geometry they share.
#[derive(Debug, Clone, Copy, PartialEq, Eq, Structural)]
pub struct SfTables {
    pub w13_sf: DevicePtr,
    pub w2_sf: DevicePtr,
    pub h: usize,
    pub inter: usize,
    /// Whether logical scales are stored row by row (`[N, K/16]`).
    pub src_n_major: bool,
}

impl SfTables {
    /// Packed bytes of one expert's first and second table.
    pub open spec fn strides(self) -> (int, int) {
        (sfb_bytes(2 * self.inter, self.h as int), sfb_bytes(self.h as int, self.inter as int))
    }

    /// Tables for `count` experts lie inside the address space.
    pub open spec fn fits(self, count: int) -> bool {
        &&& 2 * self.inter <= usize::MAX
        &&& round_up(2 * self.inter, 128) <= usize::MAX
        &&& round_up(self.h as int, 128) <= usize::MAX
        &&& self.strides().0 <= usize::MAX
        &&& self.strides().1 <= usize::MAX
        &&& count * self.strides().0 <= usize::MAX
        &&& count * self.strides().1 <= usize::MAX
        &&& self.w13_sf.spans(count * self.strides().0)
        &&& self.w2_sf.spans(count * self.strides().1)
    }
}

/// Records the packing of logical scales at `logical` into `out`.
pub fn swizzle_sfb(
    cb: &mut CommandBuffer,
    logical: DevicePtr,
    out: DevicePtr,
    n: u32,
    k: u32,
    src_n_major: bool,
    strat: SfbStrategy,
) -> (r: Result<(), SfbLayoutMissing>)
    ensures
        r is Ok <==> strat == SfbStrategy::ConcatReuse,
        r is Ok ==> final(cb)@ == old(cb)@.push(
            Cmd::Op(DeviceOp::PackWeightSfb { src: logical, dst: out, n, k, src_n_major }),
        ),
        r is Err ==> final(cb)@ == old(cb)@,
{
    match strat {
        SfbStrategy::ConcatReuse => {
            cb.op(DeviceOp::PackWeightSfb { src: logical, dst: out, n, k, src_n_major });
            Ok(())
        },
        SfbStrategy::RebuildFromRaw => Err(SfbLayoutMissing),
    }
}

/// `b` holds the baked scales of `s`, in the orientation of `t`.
pub open spec fn bakes_src(t: SfTables, s: ExpertScaleSrc, b: BakedScales) -> bool {
    &&& if t.src_n_major {
        baked_rows(s.up@, s.gate@, s.up_ws2, s.gate_ws2, b.w13)
    } else {
        baked_logical(s.up@, s.gate@, s.up_ws2, s.gate_ws2, t.h, t.inter, b.w13)
    }
    &&& s.down_read matches Some(d) ==> baked_all(d@, s.down_ws2, b.down)
}

/// `b` holds the baked scales of each of `experts`.
pub open spec fn bakes_all(t: SfTables, experts: Seq<ExpertScaleSrc>, b: Seq<BakedScales>) -> bool {
    &&& b.len() == experts.len()
    &&& forall|i: int| 0 <= i < b.len() ==> bakes_src(t, #[trigger] experts[i], b[i])
}

/// Scales that lie group by group are complete.
pub open spec fn groups_complete(t: SfTables, s: ExpertScaleSrc) -> bool {
    !t.src_n_major ==> s.up@.len() >= (t.h / 16) * t.inter && s.gate@.len() >= (t.h / 16) * t.inter
}

/// Where the down scales of `s` are packed from.
pub open spec fn down_source(s: ExpertScaleSrc) -> DevicePtr {
    match s.down_read {
        Some(_) => s.down_stage,
        None => s.down,
    }
}

/// Upload of the baked scales of expert number `e` and their packing, each table
/// followed by a wait and the release of its baked copy.
pub open spec fn expert_sf_cmds(t: SfTables, s: ExpertScaleSrc, b: BakedScales, e: int) -> Seq<Cmd> {
    seq![
        Cmd::Upload { dst: s.w13_stage, bytes: b.w13 },
        Cmd::Op(
            DeviceOp::PackWeightSfb {
                src: s.w13_stage,
                dst: t.w13_sf.at(e * t.strides().0),
                n: (2 * t.inter) as u32,
                k: t.h as u32,
                src_n_major: t.src_n_major,
            },
        ),
        Cmd::Op(DeviceOp::Synchronize),
        Cmd::Op(DeviceOp::Free { ptr: s.w13_stage }),
    ] + (if s.down_read is Some {
        seq![Cmd::Upload { dst: s.down_stage, bytes: b.down }]
    } else {
        Seq::empty()
    }) + seq![
        Cmd::Op(
            DeviceOp::PackWeightSfb {
                src: down_source(s),
                dst: t.w2_sf.at(e * t.strides().1),
                n: t.h as u32,
                k: t.inter as u32,
                src_n_major: t.src_n_major,
            },
        ),
        Cmd::Op(DeviceOp::Synchronize),
    ] + (if s.down_read is Some {
        seq![Cmd::Op(DeviceOp::Free { ptr: s.down_stage })]
    } else {
        Seq::empty()
    })
}

/// Work on the first `n` of `experts`, which are numbered from `first` on.
pub open spec fn sf_cmds(
    t: SfTables,
    experts: Seq<ExpertScaleSrc>,
    b: Seq<BakedScales>,
    first: int,
    n: nat,
) -> Seq<Cmd>
    decreases n,
{
    if n == 0 {
        Seq::empty()
    } else {
        sf_cmds(t, experts, b, first, (n - 1) as nat) + expert_sf_cmds(
            t,
            experts[n - 1],
            b[n - 1],
            first + n - 1,
        )
    }
}

proof fn lemma_sf_prefix(
    t: SfTables,
    experts: Seq<ExpertScaleSrc>,
    b: Seq<BakedScales>,
    x: BakedScales,
    first: int,
    n: nat,
)
    requires
        n <= b.len(),
    ensures
        sf_cmds(t, experts, b.push(x), first, n) == sf_cmds(t, experts, b, first, n),
    decreases n,
{
    if n > 0 {
        lemma_sf_prefix(t, experts, b, x, first, (n - 1) as nat);
    }
}

/// Second alpha of an expert: one where the down scales are baked.
pub open spec fn w2_alpha_of(s: ExpertScaleSrc) -> Scalar {
    match s.down_read {
        Some(_) => Scalar(ONE_BITS),
        None => s.down_ws2,
    }
}

/// What was recorded for `experts`, for some bytes that are their baked scales.
pub open spec fn packs(
    t: SfTables,
    experts: Seq<ExpertScaleSrc>,
    first: int,
    before: Seq<Cmd>,
    after: Seq<Cmd>,
) -> bool {
    exists|b: Seq<BakedScales>| #[trigger]
        bakes_all(t, experts, b) && after == before + sf_cmds(t, experts, b, first, experts.len())
}

fn record_expert_sf(cb: &mut CommandBuffer, t: SfTables, e: usize, count: Ghost<int>, s: &ExpertScaleSrc) -> (b:
    Ghost<BakedScales>)
    requires
        t.fits(count@),
        e < count@,
        groups_complete(t, *s),
    ensures
        bakes_src(t, *s, b@),
        final(cb)@ == old(cb)@ + expert_sf_cmds(t, *s, b@, e as int),
{
    let ghost before = cb@;
    let sfb13: usize = sfb_len(2 * t.inter, t.h);
    let sfb2: usize = sfb_len(t.h, t.inter);
    proof {
        crate::num::lemma_row_in(e as int, count@, sfb13 as int);
        crate::num::lemma_row_in(e as int, count@, sfb2 as int);
    }
    let w13: Vec<u8> = if t.src_n_major {
        bake_w13_rows(s.up.as_slice(), s.gate.as_slice(), s.up_ws2, s.gate_ws2)
    } else {
        bake_w13_logical(s.up.as_slice(), s.gate.as_slice(), s.up_ws2, s.gate_ws2, t.h, t.inter)
    };
    let ghost baked13 = w13@;
    cb.upload(s.w13_stage, w13);
    let packed: Result<(), SfbLayoutMissing> = swizzle_sfb(
        cb,
        s.w13_stage,
        t.w13_sf.offset(e * sfb13),
        (2 * t.inter) as u32,
        t.h as u32,
        t.src_n_major,
        SfbStrategy::ConcatReuse,
    );
    assert(packed is Ok);
    cb.op(DeviceOp::Synchronize);
    cb.op(DeviceOp::Free { ptr: s.w13_stage });
    let ghost mut baked2 = Seq::<u8>::empty();
    let down: DevicePtr = match &s.down_read {
        Some(d) => {
            let out: Vec<u8> = bake_single(d.as_slice(), s.down_ws2);
            proof {
                baked2 = out@;
            }
            cb.upload(s.down_stage, out);
            s.down_stage
        },
        None => s.down,
    };
    let packed: Result<(), SfbLayoutMissing> = swizzle_sfb(
        cb,
        down,
        t.w2_sf.offset(e * sfb2),
        t.h as u32,
        t.inter as u32,
        t.src_n_major,
        SfbStrategy::ConcatReuse,
    );
    assert(packed is Ok);
    cb.op(DeviceOp::Synchronize);
    if s.down_read.is_some() {
        cb.op(DeviceOp::Free { ptr: s.down_stage });
    }
    let ghost b = BakedScales { w13: baked13, down: baked2 };
    assert(cb@ =~= before + expert_sf_cmds(t, *s, b, e as int));
    Ghost(b)
}

/// Bakes the scales of `experts`, numbered from `first` on, records their upload and
/// packing, and gives the second alphas.
pub fn build_sf_tables(
    cb: &mut CommandBuffer,
    t: SfTables,
    first: usize,
    experts: &[ExpertScaleSrc],
    strat: SfbStrategy,
) -> (r: Result<Vec<Scalar>, SfbLayoutMissing>)
    requires
        t.fits(first + experts@.len()),
        first + experts@.len() <= usize::MAX,
        forall|i: int| 0 <= i < experts@.len() ==> groups_complete(t, #[trigger] experts@[i]),
    ensures
        r is Ok <==> strat == SfbStrategy::ConcatReuse || experts@.len() == 0,
        r is Err ==> final(cb)@ == old(cb)@,
        r matches Ok(alpha) ==> {
            &&& packs(t, experts@, first as int, old(cb)@, final(cb)@)
            &&& alpha@ == experts@.map_values(|s: ExpertScaleSrc| w2_alpha_of(s))
        },
{
    let mut alpha: Vec<Scalar> = Vec::new();
    let ghost base = cb@;
    let n: usize = experts.len();
    if n > 0 && strat != SfbStrategy::ConcatReuse {
        return Err(SfbLayoutMissing);
    }
    let ghost mut baked = Seq::<BakedScales>::empty();
    assert(cb@ =~= base + sf_cmds(t, experts@, baked, first as int, 0));
    let mut i: usize = 0;
    while i < n
        invariant
            i <= n,
            n == experts@.len(),
            first + n <= usize::MAX,
            t.fits(first + n),
            forall|i: int| 0 <= i < experts@.len() ==> groups_complete(t, #[trigger] experts@[i]),
            baked.len() == i,
            forall|j: int| 0 <= j < i ==> bakes_src(t, #[trigger] experts@[j], baked[j]),
            cb@ == base + sf_cmds(t, experts@, baked, first as int, i as nat),
            alpha@ == experts@.take(i as int).map_values(|s: ExpertScaleSrc| w2_alpha_of(s)),
        decreases n - i,
    {
        let s: &ExpertScaleSrc = &experts[i];
        let e: usize = first + i;
        let x: Ghost<BakedScales> = record_expert_sf(cb, t, e, Ghost(first + n), s);
        match s.down_read {
            Some(_) => {
                alpha.push(Scalar(ONE_BITS));
            },
            None => {
                alpha.push(s.down_ws2);
            },
        }
        proof {
            lemma_sf_prefix(t, experts@, baked, x@, first as int, i as nat);
            baked = baked.push(x@);
        }
        i = i + 1;
        assert(cb@ =~= base + sf_cmds(t, experts@, baked, first as int, i as nat));
        assert(alpha@ =~= experts@.take(i as int).map_values(|s: ExpertScaleSrc| w2_alpha_of(s)));
    }
    assert(experts@.take(n as int) =~= experts@);
    assert(bakes_all(t, experts@, baked));
    Ok(alpha)
}

proof fn lemma_all_unique(scale: Seq<u8>, ws2: Scalar, a: Seq<u8>, b: Seq<u8>)
    requires
        baked_all(scale, ws2, a),
        baked_all(scale, ws2, b),
    ensures
        a == b,
{
    assert forall|i: int| 0 <= i < a.len() implies a[i] == b[i] by {
        law_baking_is_unique(scale[i], ws2, a[i], b[i]);
    }
    assert(a =~= b);
}

proof fn lemma_rows_unique(
    up: Seq<u8>,
    gate: Seq<u8>,
    up_ws2: Scalar,
    gate_ws2: Scalar,
    a: Seq<u8>,
    b: Seq<u8>,
)
    requires
        baked_rows(up, gate, up_ws2, gate_ws2, a),
        baked_rows(up, gate, up_ws2, gate_ws2, b),
    ensures
        a == b,
{
    let n = up.len() as int;
    lemma_all_unique(up, up_ws2, a.take(n), b.take(n));
    lemma_all_unique(gate, gate_ws2, a.skip(n), b.skip(n));
    assert(a =~= a.take(n) + a.skip(n));
    assert(b =~= b.take(n) + b.skip(n));
}

proof fn lemma_logical_unique(
    up: Seq<u8>,
    gate: Seq<u8>,
    up_ws2: Scalar,
    gate_ws2: Scalar,
    h: usize,
    inter: usize,
    a: Seq<u8>,
    b: Seq<u8>,
)
    requires
        baked_logical(up, gate, up_ws2, gate_ws2, h, inter, a),
        baked_logical(up, gate, up_ws2, gate_ws2, h, inter, b),
    ensures
        a == b,
{
    let width = 2 * inter;
    let groups = (h / 16) as int;
    assert forall|i: int| 0 <= i < a.len() implies a[i] == b[i] by {
        assert(width > 0) by (nonlinear_arith)
            requires
                0 <= i < groups * width,
                0 <= groups,
                0 <= width,
        ;
        let row = i / width;
        let c = i % width;
        assert(i == row * width + c && 0 <= row < groups && 0 <= c < width) by (nonlinear_arith)
            requires
                0 <= i < groups * width,
                0 < width,
                row == i / width,
                c == i % width,
        ;
        assert(baked_w13(up, gate, up_ws2, gate_ws2, inter as int, row, c, a[row * width + c]));
        assert(baked_w13(up, gate, up_ws2, gate_ws2, inter as int, row, c, b[row * width + c]));
        if c < inter {
            law_baking_is_unique(up[row * inter + c], up_ws2, a[i], b[i]);
        } else {
            law_baking_is_unique(gate[row * inter + c - inter], gate_ws2, a[i], b[i]);
        }
    }
    assert(a =~= b);
}

proof fn lemma_sf_unique(
    t: SfTables,
    experts: Seq<ExpertScaleSrc>,
    a: Seq<BakedScales>,
    b: Seq<BakedScales>,
    first: int,
    n: nat,
)
    requires
        bakes_all(t, experts, a),
        bakes_all(t, experts, b),
        n <= experts.len(),
    ensures
        sf_cmds(t, experts, a, first, n) == sf_cmds(t, experts, b, first, n),
    decreases n,
{
    if n > 0 {
        lemma_sf_unique(t, experts, a, b, first, (n - 1) as nat);
        let s = experts[n - 1];
        let (x, y) = (a[n - 1], b[n - 1]);
        assert(bakes_src(t, s, x) && bakes_src(t, s, y));
        if t.src_n_major {
            lemma_rows_unique(s.up@, s.gate@, s.up_ws2, s.gate_ws2, x.w13, y.w13);
        } else {
            lemma_logical_unique(
                s.up@,
                s.gate@,
                s.up_ws2,
                s.gate_ws2,
                t.h,
                t.inter,
                x.w13,
                y.w13,
            );
        }
        if let Some(d) = s.down_read {
            lemma_all_unique(d@, s.down_ws2, x.down, y.down);
        }
        assert(expert_sf_cmds(t, s, x, first + n - 1) =~= expert_sf_cmds(t, s, y, first + n - 1));
    }
}

/// Experts and their scales leave no choice of what is recorded for them.
pub proof fn law_packing_is_unique(
    t: SfTables,
    experts: Seq<ExpertScaleSrc>,
    first: int,
    before: Seq<Cmd>,
    one: Seq<Cmd>,
    other: Seq<Cmd>,
)
    requires
        packs(t, experts, first, before, one),
        packs(t, experts, first, before, other),
    ensures
        one == other,
{
    let a = choose|a: Seq<BakedScales>| #[trigger]
        bakes_all(t, experts, a) && one == before + sf_cmds(t, experts, a, first, experts.len());
    let b = choose|b: Seq<BakedScales>| #[trigger]
        bakes_all(t, experts, b) && other == before + sf_cmds(t, experts, b, first, experts.len());
    lemma_sf_unique(t, experts, a, b, first, experts.len());
}

} // verus!
