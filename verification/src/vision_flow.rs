//! What the launches of a vision encoder leave in device memory.
//!
//! A buffer is told by where it starts, and what it holds is a term over what the buffers
//! held before.
use crate::dataflow::{lemma_row_hit, lemma_row_miss, row_of};
use crate::device::{Cmd, DevicePtr, KernelArg, Launch};
use crate::dflash_head::disjoint;
use crate::vision_encoder::{vision_rope_deinterleave_launch, ViTBlock, VisionEncoder};
use vstd::prelude::*;

verus! {

/// Content of a buffer.
#[allow(inconsistent_fields)]
pub enum Seen {
    /// What the address held before.
    Before(int),
    /// Layer norm of `rows` rows of `h` values.
    Normed { of: Box<Seen>, weight: Box<Seen>, bias: Box<Seen>, rows: u32, h: u32 },
    /// `a[m, k] * b[n, k]`.
    Product { a: Box<Seen>, b: Box<Seen>, m: u32, n: u32, k: u32 },
    /// A bias on every row.
    Biased { of: Box<Seen>, bias: Box<Seen>, m: u32, n: u32 },
    /// Rotated attention of all heads.
    Attended { qkv: Box<Seen>, cos: Box<Seen>, sin: Box<Seen>, rows: u32, heads: u32, head_dim: u32 },
    Gelu { of: Box<Seen>, n: u32 },
    Sum { a: Box<Seen>, b: Box<Seen>, n: u32 },
    /// Rotated queries, rotated keys or transposed values of one head.
    Head { part: Part, qkv: Box<Seen>, cos: Box<Seen>, sin: Box<Seen>, seq: u32, head: int, d: u32 },
    /// Scores of queries and keys.
    Scores { q: Box<Seen>, k: Box<Seen>, seq: u32, d: u32 },
    Softmax { of: Box<Seen>, seq: u32, d: u32 },
    /// Rows of one head in place, `stride` values apart.
    Placed { of: Box<Seen>, seq: u32, d: u32, stride: u32 },
}

/// A part of a projected row.
pub enum Part {
    Query,
    Key,
    Value,
}

/// Content of all buffers.
pub struct Canvas {
    pub at: spec_fn(int) -> Seen,
}

impl Canvas {
    pub open spec fn held(self, p: DevicePtr) -> Seen {
        (self.at)(p.0 as int)
    }

    pub open spec fn put(self, p: DevicePtr, v: Seen) -> Canvas {
        Canvas {
            at: |a: int|
                if a == p.0 {
                    v
                } else {
                    (self.at)(a)
                },
        }
    }

    /// One part of every head, `stride` bytes apart from `p` on.
    pub open spec fn put_heads(self, p: DevicePtr, stride: int, count: int, v: spec_fn(int) -> Seen) -> Canvas {
        Canvas {
            at: |a: int|
                match row_of(a, p.0 as int, stride, stride, count) {
                    Some((r, o)) => v(r),
                    None => (self.at)(a),
                },
        }
    }
}

pub open spec fn ptr_of(l: Launch, i: int) -> DevicePtr {
    match l.args[i] {
        KernelArg::Ptr(p) => p,
        _ => DevicePtr(0),
    }
}

pub open spec fn count_of(l: Launch, i: int) -> u32 {
    match l.args[i] {
        KernelArg::U32(n) => n,
        _ => 0,
    }
}

impl VisionEncoder {
    /// No two kernels are the same.
    pub open spec fn kernels_differ(&self) -> bool {
        let k = self.kernels;
        seq![
            k.gemm,
            k.gemm_pipelined,
            k.gemm_f32,
            k.add_bias,
            k.copy,
            k.norm,
            k.attn,
            k.add,
            k.gelu,
            k.rope_deint,
            k.softmax,
            k.scatter_head,
        ].no_duplicates()
    }

    /// Buffers after a launch, by the kernel that runs.
    #[verifier::opaque]
    pub open spec fn after(&self, m: Canvas, l: Launch) -> Canvas {
        let k = self.kernels;
        let x = |i: int| Box::new(m.held(ptr_of(l, i)));
        if l.kernel == k.copy {
            m.put(ptr_of(l, 1), *x(0))
        } else if l.kernel == k.add {
            m.put(ptr_of(l, 0), Seen::Sum { a: x(0), b: x(1), n: count_of(l, 2) })
        } else if l.kernel == k.norm {
            m.put(
                ptr_of(l, 0),
                Seen::Normed { of: x(0), weight: x(1), bias: x(2), rows: count_of(l, 3), h: count_of(l, 4) },
            )
        } else if l.kernel == k.gemm_pipelined {
            m.put(
                ptr_of(l, 2),
                Seen::Product { a: x(0), b: x(1), m: count_of(l, 3), n: count_of(l, 4), k: count_of(l, 5) },
            )
        } else if l.kernel == k.add_bias {
            m.put(
                ptr_of(l, 0),
                Seen::Biased { of: x(0), bias: x(1), m: count_of(l, 2), n: count_of(l, 3) },
            )
        } else if l.kernel == k.gemm {
            let (rows, n, inner) = (count_of(l, 4), count_of(l, 5), count_of(l, 6));
            m.put(
                ptr_of(l, 3),
                Seen::Biased {
                    of: Box::new(Seen::Product { a: x(0), b: x(1), m: rows, n, k: inner }),
                    bias: x(2),
                    m: rows,
                    n,
                },
            )
        } else if l.kernel == k.attn {
            m.put(
                ptr_of(l, 1),
                Seen::Attended {
                    qkv: x(0),
                    cos: x(2),
                    sin: x(3),
                    rows: count_of(l, 4),
                    heads: count_of(l, 5),
                    head_dim: count_of(l, 6),
                },
            )
        } else if l.kernel == k.gelu {
            m.put(ptr_of(l, 0), Seen::Gelu { of: x(0), n: count_of(l, 1) })
        } else if l.kernel == k.rope_deint {
            let (s, heads, d) = (count_of(l, 6), count_of(l, 7), count_of(l, 8));
            let part = |part: Part|
                |e: int| Seen::Head { part, qkv: x(0), cos: x(4), sin: x(5), seq: s, head: e, d };
            let w = 2 * (s * d);
            m.put_heads(ptr_of(l, 1), w, heads as int, part(Part::Query)).put_heads(
                ptr_of(l, 2),
                w,
                heads as int,
                part(Part::Key),
            ).put_heads(ptr_of(l, 3), w, heads as int, part(Part::Value))
        } else if l.kernel == k.gemm_f32 {
            m.put(ptr_of(l, 2), Seen::Scores { q: x(0), k: x(1), seq: count_of(l, 3), d: count_of(l, 5) })
        } else if l.kernel == k.softmax {
            m.put(ptr_of(l, 1), Seen::Softmax { of: x(0), seq: count_of(l, 2), d: count_of(l, 3) })
        } else if l.kernel == k.scatter_head {
            m.put(
                ptr_of(l, 1),
                Seen::Placed { of: x(0), seq: count_of(l, 2), d: count_of(l, 3), stride: count_of(l, 4) },
            )
        } else {
            m
        }
    }

    /// Buffers after all launches.
    pub open spec fn run(&self, m: Canvas, cmds: Seq<Cmd>) -> Canvas
        decreases cmds.len(),
    {
        if cmds.len() == 0 {
            m
        } else {
            self.after(self.run(m, cmds.drop_last()), cmds.last()->Launch_0)
        }
    }

    /// `a * b + bias`.
    pub open spec fn linear(&self, a: Seen, b: Seen, bias: Seen, m: u32, n: u32, k: u32) -> Seen {
        Seen::Biased {
            of: Box::new(Seen::Product { a: Box::new(a), b: Box::new(b), m, n, k }),
            bias: Box::new(bias),
            m,
            n,
        }
    }

    /// Rows after a block's attention: attention of the normed rows, projected, and the
    /// rows themselves.
    pub open spec fn attended_rows(&self, blk: ViTBlock, m: Canvas, x: Seen, p: usize) -> Seen {
        let b = self.bufs;
        let (rows, h) = (p as u32, self.hidden_size as u32);
        let qkv = (3 * self.num_heads * self.head_dim) as u32;
        let normed = Seen::Normed {
            of: Box::new(x),
            weight: Box::new(m.held(blk.norm1_w)),
            bias: Box::new(m.held(blk.norm1_b)),
            rows,
            h,
        };
        let attended = Seen::Attended {
            qkv: Box::new(self.linear(normed, m.held(blk.qkv_w), m.held(blk.qkv_b), rows, qkv, h)),
            cos: Box::new(m.held(b.rope_cos)),
            sin: Box::new(m.held(b.rope_sin)),
            rows,
            heads: self.num_heads as u32,
            head_dim: self.head_dim as u32,
        };
        Seen::Sum {
            a: Box::new(self.linear(attended, m.held(blk.proj_w), m.held(blk.proj_b), rows, h, h)),
            b: Box::new(x),
            n: (p * self.hidden_size) as u32,
        }
    }

    /// Rows after a block's feed-forward half: both layers on the normed rows, and the rows
    /// themselves.
    pub open spec fn fed_rows(&self, blk: ViTBlock, m: Canvas, x: Seen, p: usize) -> Seen {
        let (rows, h, inter) = (p as u32, self.hidden_size as u32, self.intermediate_size as u32);
        let normed = Seen::Normed {
            of: Box::new(x),
            weight: Box::new(m.held(blk.norm2_w)),
            bias: Box::new(m.held(blk.norm2_b)),
            rows,
            h,
        };
        let active = Seen::Gelu {
            of: Box::new(self.linear(normed, m.held(blk.fc1_w), m.held(blk.fc1_b), rows, inter, h)),
            n: (p * self.intermediate_size) as u32,
        };
        Seen::Sum {
            a: Box::new(self.linear(active, m.held(blk.fc2_w), m.held(blk.fc2_b), rows, h, inter)),
            b: Box::new(x),
            n: (p * self.hidden_size) as u32,
        }
    }

    /// An address that a block reads is none of the buffers it writes.
    pub open spec fn kept(&self, p: DevicePtr) -> bool {
        p != self.bufs.h1 && p != self.bufs.h2 && p != self.bufs.wide
    }

    pub open spec fn block_apart(&self, blk: ViTBlock) -> bool {
        let b = self.bufs;
        &&& b.h1 != b.h2
        &&& b.h1 != b.wide
        &&& b.h2 != b.wide
        &&& self.kept(b.rope_cos)
        &&& self.kept(b.rope_sin)
        &&& self.kept(blk.norm1_w)
        &&& self.kept(blk.norm1_b)
        &&& self.kept(blk.qkv_w)
        &&& self.kept(blk.qkv_b)
        &&& self.kept(blk.proj_w)
        &&& self.kept(blk.proj_b)
        &&& self.kept(blk.norm2_w)
        &&& self.kept(blk.norm2_b)
        &&& self.kept(blk.fc1_w)
        &&& self.kept(blk.fc1_b)
        &&& self.kept(blk.fc2_w)
        &&& self.kept(blk.fc2_b)
    }
}

proof fn lemma_run_add(e: &VisionEncoder, m: Canvas, a: Seq<Cmd>, b: Seq<Cmd>)
    ensures
        e.run(m, a + b) == e.run(e.run(m, a), b),
    decreases b.len(),
{
    if b.len() == 0 {
        assert(a + b =~= a);
    } else {
        assert((a + b).drop_last() =~= a + b.drop_last());
        assert((a + b).last() == b.last());
        lemma_run_add(e, m, a, b.drop_last());
    }
}

proof fn lemma_run_one(e: &VisionEncoder, m: Canvas, c: Cmd)
    ensures
        e.run(m, seq![c]) == e.after(m, c->Launch_0),
{
    assert(seq![c].drop_last() =~= Seq::empty());
    assert(e.run(m, Seq::empty()) == m);
}

proof fn lemma_run_two(e: &VisionEncoder, m: Canvas, c: Cmd, d: Cmd)
    ensures
        e.run(m, seq![c, d]) == e.after(e.after(m, c->Launch_0), d->Launch_0),
{
    assert(seq![c, d] =~= seq![c] + seq![d]);
    lemma_run_add(e, m, seq![c], seq![d]);
    lemma_run_one(e, m, c);
    lemma_run_one(e, e.after(m, c->Launch_0), d);
}

proof fn lemma_kernels(e: &VisionEncoder)
    requires
        e.kernels_differ(),
    ensures
        ({
            let k = e.kernels;
            &&& k.add != k.copy && k.norm != k.copy && k.norm != k.add
            &&& k.gemm_pipelined != k.copy && k.gemm_pipelined != k.add && k.gemm_pipelined != k.norm
            &&& k.add_bias != k.copy && k.add_bias != k.add && k.add_bias != k.norm && k.add_bias
                != k.gemm_pipelined
            &&& k.gemm != k.copy && k.gemm != k.add && k.gemm != k.norm && k.gemm != k.gemm_pipelined && k.gemm
                != k.add_bias
            &&& k.attn != k.copy && k.attn != k.add && k.attn != k.norm && k.attn != k.gemm_pipelined && k.attn
                != k.add_bias && k.attn != k.gemm
            &&& k.gelu != k.copy && k.gelu != k.add && k.gelu != k.norm && k.gelu != k.gemm_pipelined && k.gelu
                != k.add_bias && k.gelu != k.gemm && k.gelu != k.attn
            &&& k.rope_deint != k.copy && k.rope_deint != k.add && k.rope_deint != k.norm && k.rope_deint
                != k.gemm_pipelined && k.rope_deint != k.add_bias && k.rope_deint != k.gemm && k.rope_deint
                != k.attn && k.rope_deint != k.gelu
            &&& k.gemm_f32 != k.copy && k.gemm_f32 != k.add && k.gemm_f32 != k.norm && k.gemm_f32
                != k.gemm_pipelined && k.gemm_f32 != k.add_bias && k.gemm_f32 != k.gemm && k.gemm_f32 != k.attn
                && k.gemm_f32 != k.gelu && k.gemm_f32 != k.rope_deint
            &&& k.softmax != k.copy && k.softmax != k.add && k.softmax != k.norm && k.softmax
                != k.gemm_pipelined && k.softmax != k.add_bias && k.softmax != k.gemm && k.softmax != k.attn
                && k.softmax != k.gelu && k.softmax != k.rope_deint && k.softmax != k.gemm_f32
            &&& k.scatter_head != k.copy && k.scatter_head != k.add && k.scatter_head != k.norm
                && k.scatter_head != k.gemm_pipelined && k.scatter_head != k.add_bias && k.scatter_head
                != k.gemm && k.scatter_head != k.attn && k.scatter_head != k.gelu && k.scatter_head
                != k.rope_deint && k.scatter_head != k.gemm_f32 && k.scatter_head != k.softmax
        }),
{
    let k = e.kernels;
    let s = seq![
        k.gemm,
        k.gemm_pipelined,
        k.gemm_f32,
        k.add_bias,
        k.copy,
        k.norm,
        k.attn,
        k.add,
        k.gelu,
        k.rope_deint,
        k.softmax,
        k.scatter_head,
    ];
    assert(s[0] == k.gemm && s[1] == k.gemm_pipelined && s[2] == k.gemm_f32 && s[3] == k.add_bias && s[4]
        == k.copy && s[5] == k.norm && s[6] == k.attn && s[7] == k.add && s[8] == k.gelu && s[9]
        == k.rope_deint && s[10] == k.softmax && s[11] == k.scatter_head);
}

proof fn lemma_linear(
    e: &VisionEncoder,
    u: Canvas,
    a: DevicePtr,
    b: DevicePtr,
    bias: DevicePtr,
    c: DevicePtr,
    m: u32,
    n: u32,
    k: u32,
)
    requires
        e.kernels_differ(),
        bias != c,
    ensures
        ({
            let v = e.run(u, e.gemm_bias_cmds(a, b, bias, c, m, n, k));
            &&& v.held(c) == e.linear(u.held(a), u.held(b), u.held(bias), m, n, k)
            &&& forall|p: DevicePtr| p != c ==> #[trigger] v.held(p) == u.held(p)
        }),
{
    reveal(VisionEncoder::after);
    lemma_kernels(e);
    let cmds = e.gemm_bias_cmds(a, b, bias, c, m, n, k);
    if cmds.len() == 2 {
        assert(cmds =~= seq![cmds[0], cmds[1]]);
        lemma_run_two(e, u, cmds[0], cmds[1]);
    } else {
        assert(cmds =~= seq![cmds[0]]);
        lemma_run_one(e, u, cmds[0]);
    }
}

proof fn lemma_attention_half(e: &VisionEncoder, blk: ViTBlock, p: usize, m: Canvas)
    requires
        e.kernels_differ(),
        e.block_apart(blk),
    ensures
        ({
            let v = e.run(m, e.attention_half_cmds(blk, p));
            &&& v.held(e.bufs.h1) == e.attended_rows(blk, m, m.held(e.bufs.h1), p)
            &&& forall|q: DevicePtr| e.kept(q) ==> #[trigger] v.held(q) == m.held(q)
        }),
{
    lemma_kernels(e);
    let b = e.bufs;
    let (rows, h) = (p as u32, e.hidden_size as u32);
    let qkv = (3 * e.num_heads * e.head_dim) as u32;
    let all = e.attention_half_cmds(blk, p);
    let g1 = e.gemm_bias_cmds(b.h1, blk.qkv_w, blk.qkv_b, b.wide, rows, qkv, h);
    let g2 = e.gemm_bias_cmds(b.h1, blk.proj_w, blk.proj_b, b.wide, rows, h, h);
    let c0 = seq![all[0], all[1]];
    let c2 = seq![all[2 + g1.len() as int]];
    let n = all.len() as int;
    let c4 = seq![all[n - 2], all[n - 1]];
    assert(all =~= c0 + g1 + c2 + g2 + c4);
    lemma_run_add(e, m, c0, g1);
    lemma_run_add(e, m, c0 + g1, c2);
    lemma_run_add(e, m, c0 + g1 + c2, g2);
    lemma_run_add(e, m, c0 + g1 + c2 + g2, c4);
    lemma_run_two(e, m, all[0], all[1]);
    let m0 = e.run(m, c0);
    assert(m0.held(b.h2) == m.held(b.h1) && m0.held(b.h1) == (Seen::Normed {
        of: Box::new(m.held(b.h1)),
        weight: Box::new(m.held(blk.norm1_w)),
        bias: Box::new(m.held(blk.norm1_b)),
        rows,
        h,
    }) && forall|q: DevicePtr| e.kept(q) ==> #[trigger] m0.held(q) == m.held(q)) by {
        reveal(VisionEncoder::after);
    }
    lemma_linear(e, m0, b.h1, blk.qkv_w, blk.qkv_b, b.wide, rows, qkv, h);
    let m1 = e.run(m0, g1);
    lemma_run_one(e, m1, c2[0]);
    let m2 = e.run(m1, c2);
    assert(m2.held(b.h1) == (Seen::Attended {
        qkv: Box::new(m1.held(b.wide)),
        cos: Box::new(m1.held(b.rope_cos)),
        sin: Box::new(m1.held(b.rope_sin)),
        rows,
        heads: e.num_heads as u32,
        head_dim: e.head_dim as u32,
    }) && m2.held(b.h2) == m1.held(b.h2) && forall|q: DevicePtr|
        e.kept(q) ==> #[trigger] m2.held(q) == m1.held(q)) by {
        reveal(VisionEncoder::after);
    }
    lemma_linear(e, m2, b.h1, blk.proj_w, blk.proj_b, b.wide, rows, h, h);
    let m3 = e.run(m2, g2);
    lemma_run_two(e, m3, c4[0], c4[1]);
    let v = e.run(m3, c4);
    assert(v.held(b.h1) == (Seen::Sum {
        a: Box::new(m3.held(b.wide)),
        b: Box::new(m3.held(b.h2)),
        n: (p * e.hidden_size) as u32,
    }) && forall|q: DevicePtr| e.kept(q) ==> #[trigger] v.held(q) == m3.held(q)) by {
        reveal(VisionEncoder::after);
    }
    assert forall|q: DevicePtr| e.kept(q) implies #[trigger] v.held(q) == m.held(q) by {
        assert(m3.held(q) == m2.held(q));
        assert(m2.held(q) == m1.held(q));
        assert(m1.held(q) == m0.held(q));
    }
}

proof fn lemma_ffn_half(e: &VisionEncoder, blk: ViTBlock, p: usize, m: Canvas)
    requires
        e.kernels_differ(),
        e.block_apart(blk),
    ensures
        e.run(m, e.ffn_half_cmds(blk, p)).held(e.bufs.h1) == e.fed_rows(blk, m, m.held(e.bufs.h1), p),
{
    lemma_kernels(e);
    let b = e.bufs;
    let (rows, h, inter) = (p as u32, e.hidden_size as u32, e.intermediate_size as u32);
    let all = e.ffn_half_cmds(blk, p);
    let g1 = e.gemm_bias_cmds(b.h1, blk.fc1_w, blk.fc1_b, b.wide, rows, inter, h);
    let g2 = e.gemm_bias_cmds(b.wide, blk.fc2_w, blk.fc2_b, b.h1, rows, h, inter);
    let c0 = seq![all[0], all[1]];
    let c2 = seq![all[2 + g1.len() as int]];
    let c4 = seq![all[all.len() - 1]];
    assert(all =~= c0 + g1 + c2 + g2 + c4);
    lemma_run_add(e, m, c0, g1);
    lemma_run_add(e, m, c0 + g1, c2);
    lemma_run_add(e, m, c0 + g1 + c2, g2);
    lemma_run_add(e, m, c0 + g1 + c2 + g2, c4);
    lemma_run_two(e, m, all[0], all[1]);
    let m0 = e.run(m, c0);
    assert(m0.held(b.h2) == m.held(b.h1) && m0.held(b.h1) == (Seen::Normed {
        of: Box::new(m.held(b.h1)),
        weight: Box::new(m.held(blk.norm2_w)),
        bias: Box::new(m.held(blk.norm2_b)),
        rows,
        h,
    }) && forall|q: DevicePtr| e.kept(q) ==> #[trigger] m0.held(q) == m.held(q)) by {
        reveal(VisionEncoder::after);
    }
    lemma_linear(e, m0, b.h1, blk.fc1_w, blk.fc1_b, b.wide, rows, inter, h);
    let m1 = e.run(m0, g1);
    lemma_run_one(e, m1, c2[0]);
    let m2 = e.run(m1, c2);
    assert(m2.held(b.wide) == (Seen::Gelu {
        of: Box::new(m1.held(b.wide)),
        n: (p * e.intermediate_size) as u32,
    }) && m2.held(b.h2) == m1.held(b.h2) && forall|q: DevicePtr|
        e.kept(q) ==> #[trigger] m2.held(q) == m1.held(q)) by {
        reveal(VisionEncoder::after);
    }
    lemma_linear(e, m2, b.wide, blk.fc2_w, blk.fc2_b, b.h1, rows, h, inter);
    let m3 = e.run(m2, g2);
    lemma_run_one(e, m3, c4[0]);
    assert(e.run(m3, c4).held(b.h1) == (Seen::Sum {
        a: Box::new(m3.held(b.h1)),
        b: Box::new(m3.held(b.h2)),
        n: (p * e.hidden_size) as u32,
    })) by {
        reveal(VisionEncoder::after);
    }
    assert(m2.held(blk.fc2_w) == m.held(blk.fc2_w)) by {
        assert(m1.held(blk.fc2_w) == m0.held(blk.fc2_w));
    }
    assert(m2.held(blk.fc2_b) == m.held(blk.fc2_b)) by {
        assert(m1.held(blk.fc2_b) == m0.held(blk.fc2_b));
    }
}

/// A block adds its attention to its rows, then its feed-forward half to the sum, each on
/// the norm of what it is added to and through its own weights.
pub proof fn law_block_adds_both_halves(e: &VisionEncoder, blk: ViTBlock, p: usize, m: Canvas)
    requires
        e.kernels_differ(),
        e.block_apart(blk),
    ensures
        ({
            let v = e.run(m, e.attention_half_cmds(blk, p) + e.ffn_half_cmds(blk, p));
            let mid = e.attended_rows(blk, m, m.held(e.bufs.h1), p);
            v.held(e.bufs.h1) == e.fed_rows(blk, m, mid, p)
        }),
{
    lemma_run_add(e, m, e.attention_half_cmds(blk, p), e.ffn_half_cmds(blk, p));
    lemma_attention_half(e, blk, p, m);
    let u = e.run(m, e.attention_half_cmds(blk, p));
    lemma_ffn_half(e, blk, p, u);
    assert(u.held(blk.norm2_w) == m.held(blk.norm2_w));
    assert(u.held(blk.norm2_b) == m.held(blk.norm2_b));
    assert(u.held(blk.fc1_w) == m.held(blk.fc1_w));
    assert(u.held(blk.fc1_b) == m.held(blk.fc1_b));
    assert(u.held(blk.fc2_w) == m.held(blk.fc2_w));
    assert(u.held(blk.fc2_b) == m.held(blk.fc2_b));
}

impl VisionEncoder {
    /// Parts of all heads, scratch of one head and results do not overlap.
    pub open spec fn heads_apart(&self, o: DevicePtr, seq: u32) -> bool {
        let b = self.bufs;
        let all = self.num_heads * (2 * (seq * self.head_dim));
        let out = self.num_heads * (2 * self.head_dim);
        &&& self.head_dim > 0
        &&& seq > 0
        &&& disjoint(b.qr, all, b.kr, all)
        &&& disjoint(b.qr, all, b.vt, all)
        &&& disjoint(b.kr, all, b.vt, all)
        &&& disjoint(o, out, b.qr, all)
        &&& disjoint(o, out, b.kr, all)
        &&& disjoint(o, out, b.vt, all)
        &&& self.scratch_apart(b.scores, o, out, all)
        &&& self.scratch_apart(b.probs, o, out, all)
        &&& self.scratch_apart(b.o_stage, o, out, all)
        &&& b.scores != b.probs
        &&& b.scores != b.o_stage
        &&& b.probs != b.o_stage
    }

    pub open spec fn scratch_apart(&self, p: DevicePtr, o: DevicePtr, out: int, all: int) -> bool {
        &&& disjoint(p, 1, self.bufs.qr, all)
        &&& disjoint(p, 1, self.bufs.kr, all)
        &&& disjoint(p, 1, self.bufs.vt, all)
        &&& disjoint(p, 1, o, out)
    }

    /// Result of one head from parts of that head.
    pub open spec fn head_result(&self, seq: u32, q: Seen, k: Seen, v: Seen) -> Seen {
        let d = self.head_dim as u32;
        Seen::Placed {
            of: Box::new(
                Seen::Product {
                    a: Box::new(
                        Seen::Softmax {
                            of: Box::new(Seen::Scores { q: Box::new(q), k: Box::new(k), seq, d }),
                            seq,
                            d,
                        },
                    ),
                    b: Box::new(v),
                    m: seq,
                    n: d,
                    k: seq,
                },
            ),
            seq,
            d,
            stride: self.hidden_size as u32,
        }
    }

    /// What head `e` has of the projected rows.
    pub open spec fn part_of(
        &self,
        m: Canvas,
        part: Part,
        qkv: DevicePtr,
        cos: DevicePtr,
        sin: DevicePtr,
        seq: u32,
        e: int,
    ) -> Seen {
        Seen::Head {
            part,
            qkv: Box::new(m.held(qkv)),
            cos: Box::new(m.held(cos)),
            sin: Box::new(m.held(sin)),
            seq,
            head: e,
            d: self.head_dim as u32,
        }
    }
}

proof fn lemma_head_at(e: &VisionEncoder, o: DevicePtr, seq: u32, i: int)
    requires
        e.attention_fits(o, seq),
        e.head_dim > 0,
        seq > 0,
        0 <= i < e.num_heads,
    ensures
        ({
            let b = e.bufs;
            let width = seq * e.head_dim;
            let w = 2 * width;
            let d = 2 * e.head_dim;
            &&& b.qr.row_at(i, width, 2).0 == b.qr.0 + i * w
            &&& b.kr.row_at(i, width, 2).0 == b.kr.0 + i * w
            &&& b.vt.row_at(i, width, 2).0 == b.vt.0 + i * w
            &&& o.row_at(i, e.head_dim as int, 2).0 == o.0 + i * d
            &&& 0 <= i * w && i * w + w <= e.num_heads * w
            &&& 0 <= i * d && i * d + d <= e.num_heads * d
            &&& w > 0
        }),
{
    let (n, width, hd) = (e.num_heads as int, seq * e.head_dim, e.head_dim as int);
    assert(seq * e.head_dim > 0) by (nonlinear_arith)
        requires
            seq > 0,
            e.head_dim > 0,
    ;
    assert(i * width * 2 == i * (2 * width) && n * width * 2 == n * (2 * width) && 0 <= i * (2 * width) && i
        * (2 * width) + 2 * width <= n * (2 * width)) by (nonlinear_arith)
        requires
            0 <= i < n,
            width > 0,
    ;
    assert(i * hd * 2 == i * (2 * hd) && n * hd * 2 == n * (2 * hd) && 0 <= i * (2 * hd) && i * (2 * hd) + 2
        * hd <= n * (2 * hd)) by (nonlinear_arith)
        requires
            0 <= i < n,
            hd > 0,
    ;
}

proof fn lemma_one_head(e: &VisionEncoder, o: DevicePtr, seq: u32, i: int, u: Canvas)
    requires
        e.kernels_differ(),
        e.attention_fits(o, seq),
        e.heads_apart(o, seq),
        0 <= i < e.num_heads,
    ensures
        ({
            let b = e.bufs;
            let w = 2 * (seq * e.head_dim);
            let v = e.run(u, e.head_cmds(o, seq, i));
            &&& (v.at)(o.0 + i * (2 * e.head_dim)) == e.head_result(
                seq,
                (u.at)(b.qr.0 + i * w),
                (u.at)(b.kr.0 + i * w),
                (u.at)(b.vt.0 + i * w),
            )
            &&& forall|a: int|
                a != o.0 + i * (2 * e.head_dim) && a != b.scores.0 && a != b.probs.0 && a != b.o_stage.0
                    ==> #[trigger] (v.at)(a) == (u.at)(a)
        }),
{
    lemma_kernels(e);
    lemma_head_at(e, o, seq, i);
    let c = e.head_cmds(o, seq, i);
    assert(c =~= seq![c[0], c[1]] + seq![c[2], c[3]]);
    lemma_run_add(e, u, seq![c[0], c[1]], seq![c[2], c[3]]);
    lemma_run_two(e, u, c[0], c[1]);
    lemma_run_two(e, e.run(u, seq![c[0], c[1]]), c[2], c[3]);
    reveal(VisionEncoder::after);
}

proof fn lemma_heads(e: &VisionEncoder, o: DevicePtr, seq: u32, n: nat, u: Canvas)
    requires
        e.kernels_differ(),
        e.attention_fits(o, seq),
        e.heads_apart(o, seq),
        n <= e.num_heads,
    ensures
        ({
            let b = e.bufs;
            let w = 2 * (seq * e.head_dim);
            let v = e.run(u, e.heads_cmds(o, seq, n));
            &&& forall|i: int|
                0 <= i < n ==> #[trigger] (v.at)(o.0 + i * (2 * e.head_dim)) == e.head_result(
                    seq,
                    (u.at)(b.qr.0 + i * w),
                    (u.at)(b.kr.0 + i * w),
                    (u.at)(b.vt.0 + i * w),
                )
            &&& forall|a: int|
                (a < o.0 || o.0 + n * (2 * e.head_dim) <= a) && a != b.scores.0 && a != b.probs.0 && a
                    != b.o_stage.0 ==> #[trigger] (v.at)(a) == (u.at)(a)
        }),
    decreases n,
{
    let b = e.bufs;
    let (w, d) = (2 * (seq * e.head_dim), 2 * e.head_dim);
    if n > 0 {
        let p = n - 1;
        lemma_heads(e, o, seq, p as nat, u);
        let t = e.run(u, e.heads_cmds(o, seq, p as nat));
        lemma_one_head(e, o, seq, p, t);
        lemma_run_add(e, u, e.heads_cmds(o, seq, p as nat), e.head_cmds(o, seq, p));
        let v = e.run(t, e.head_cmds(o, seq, p));
        lemma_head_at(e, o, seq, p);
        assert(n * d == p * d + d) by (nonlinear_arith)
            requires
                n == p + 1,
        ;
        assert((t.at)(b.qr.0 + p * w) == (u.at)(b.qr.0 + p * w));
        assert((t.at)(b.kr.0 + p * w) == (u.at)(b.kr.0 + p * w));
        assert((t.at)(b.vt.0 + p * w) == (u.at)(b.vt.0 + p * w));
        assert forall|i: int| 0 <= i < n implies #[trigger] (v.at)(o.0 + i * d) == e.head_result(
            seq,
            (u.at)(b.qr.0 + i * w),
            (u.at)(b.kr.0 + i * w),
            (u.at)(b.vt.0 + i * w),
        ) by {
            if i < p {
                lemma_head_at(e, o, seq, i);
                assert(i * d + d <= p * d) by (nonlinear_arith)
                    requires
                        i < p,
                        d >= 0,
                ;
                assert((t.at)(o.0 + i * d) == e.head_result(
                    seq,
                    (u.at)(b.qr.0 + i * w),
                    (u.at)(b.kr.0 + i * w),
                    (u.at)(b.vt.0 + i * w),
                ));
            }
        }
    } else {
        assert(0 * d == 0) by (nonlinear_arith);
    }
}

/// Every head's result comes from the queries, keys and values of that head alone, in spite
/// of the scratch that heads share.
#[verifier::rlimit(60)]
pub proof fn law_heads_attend_alone(
    e: &VisionEncoder,
    qkv: DevicePtr,
    o: DevicePtr,
    cos: DevicePtr,
    sin: DevicePtr,
    seq: u32,
    m: Canvas,
    i: int,
)
    requires
        e.kernels_differ(),
        e.attention_fits(o, seq),
        e.heads_apart(o, seq),
        0 <= i < e.num_heads,
    ensures
        ({
            let b = e.bufs;
            let turn = Cmd::Launch(
                vision_rope_deinterleave_launch(
                    e.kernels.rope_deint,
                    qkv,
                    b.qr,
                    b.kr,
                    b.vt,
                    cos,
                    sin,
                    seq,
                    e.num_heads as u32,
                    e.head_dim as u32,
                ),
            );
            let v = e.run(m, seq![turn] + e.heads_cmds(o, seq, e.num_heads as nat));
            (v.at)(o.0 + i * (2 * e.head_dim)) == e.head_result(
                seq,
                e.part_of(m, Part::Query, qkv, cos, sin, seq, i),
                e.part_of(m, Part::Key, qkv, cos, sin, seq, i),
                e.part_of(m, Part::Value, qkv, cos, sin, seq, i),
            )
        }),
{
    let b = e.bufs;
    let (w, n) = (2 * (seq * e.head_dim), e.num_heads as int);
    let turn = Cmd::Launch(
        vision_rope_deinterleave_launch(
            e.kernels.rope_deint,
            qkv,
            b.qr,
            b.kr,
            b.vt,
            cos,
            sin,
            seq,
            e.num_heads as u32,
            e.head_dim as u32,
        ),
    );
    lemma_kernels(e);
    lemma_run_add(e, m, seq![turn], e.heads_cmds(o, seq, e.num_heads as nat));
    lemma_run_one(e, m, turn);
    let u = e.run(m, seq![turn]);
    lemma_heads(e, o, seq, e.num_heads as nat, u);
    lemma_head_at(e, o, seq, i);
    lemma_row_hit(b.qr.0 as int, w, w, n, i);
    lemma_row_hit(b.kr.0 as int, w, w, n, i);
    lemma_row_hit(b.vt.0 as int, w, w, n, i);
    lemma_row_miss(b.qr.0 + i * w, b.kr.0 as int, w, w, n);
    lemma_row_miss(b.qr.0 + i * w, b.vt.0 as int, w, w, n);
    lemma_row_miss(b.kr.0 + i * w, b.vt.0 as int, w, w, n);
    assert((u.at)(b.qr.0 + i * w) == e.part_of(m, Part::Query, qkv, cos, sin, seq, i) && (u.at)(
        b.kr.0 + i * w,
    ) == e.part_of(m, Part::Key, qkv, cos, sin, seq, i) && (u.at)(b.vt.0 + i * w) == e.part_of(
        m,
        Part::Value,
        qkv,
        cos,
        sin,
        seq,
        i,
    )) by {
        reveal(VisionEncoder::after);
    }
    assert((e.run(u, e.heads_cmds(o, seq, e.num_heads as nat)).at)(o.0 + i * (2 * e.head_dim))
        == e.head_result(
        seq,
        (u.at)(b.qr.0 + i * w),
        (u.at)(b.kr.0 + i * w),
        (u.at)(b.vt.0 + i * w),
    ));
}

} // verus!
