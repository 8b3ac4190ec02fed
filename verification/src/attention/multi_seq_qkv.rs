//! Query, key and value projections of many sequences in decode.
//!
//! Each sequence has one row. Its results lie in a block of its own: query
//! values and gates, then keys, then values. Where weights are four-bit, rows
//! are projected in tiles of up to three, so that a tile reads each weight once.
//! Head norms run once, after the adapters.
use crate::attention::layer::{as_fp8, as_nvfp4, fp8_of, nvfp4_of, Qwen3AttentionLayer};
use crate::context::ForwardContext;
use crate::device::{Cmd, CommandBuffer, DevicePtr, Scalar};
use crate::ops_table::{DeviceOp, MatmulKind, WeightRef};
use crate::weights::QuantizedWeight;
use vstd::prelude::*;

verus! {

/// Layout of one decode step over `n` sequences.
#[derive(Debug, Clone, Copy, PartialEq, Eq, Structural)]
pub struct MultiSeqCtx {
    pub n: usize,
    pub h: usize,
    pub nq: u32,
    pub nkv: u32,
    pub hd: u32,
    /// Rows per cache block.
    pub bs: u32,
    pub eps: Scalar,
    /// Scale of attention scores.
    pub attn_scale: Scalar,
    pub q_dim: u32,
    /// Query values, and gates where there are any.
    pub q_proj_dim: u32,
    pub q_proj_bytes: usize,
    /// Bytes from one sequence's block to the next.
    pub per_seq_qkv: usize,
    pub normed: DevicePtr,
    pub qkv_buf: DevicePtr,
    /// Adapter slot of every row; null where no row has one.
    pub seq_slot: DevicePtr,
    /// Batched matrix-vector kernels may be used for bfloat16 weights.
    pub bf16_batchm: bool,
}

impl MultiSeqCtx {
    /// Keys, or values, of one row.
    pub open spec fn kv_dim(self) -> int {
        self.nkv * self.hd
    }

    pub open spec fn kv_bytes(self) -> int {
        self.nkv * self.hd * 2
    }

    /// Where the block of sequence `i` starts: its query values.
    pub open spec fn q_at(self, i: int) -> DevicePtr {
        self.qkv_buf.row_at(i, self.per_seq_qkv as int, 1)
    }

    pub open spec fn k_at(self, i: int) -> DevicePtr {
        self.q_at(i).at(self.q_proj_bytes as int)
    }

    pub open spec fn v_at(self, i: int) -> DevicePtr {
        self.k_at(i).at(self.kv_bytes())
    }

    /// Counts fit their kernel arguments, blocks hold what they are said to, and all
    /// tables lie inside the address space.
    pub open spec fn fits(self, ctx: &ForwardContext) -> bool {
        &&& self.n <= u32::MAX
        &&& self.n * self.nq <= u32::MAX
        &&& self.nq * self.hd <= u32::MAX
        &&& self.nkv * self.hd <= u32::MAX
        &&& self.kv_bytes() <= usize::MAX
        &&& self.q_dim * 2 <= usize::MAX
        &&& self.q_proj_bytes + 2 * self.kv_bytes() <= self.per_seq_qkv
        &&& self.q_dim * 2 <= self.per_seq_qkv
        &&& 3 * self.q_proj_bytes <= usize::MAX
        &&& 6 * self.kv_bytes() <= usize::MAX
        &&& self.qkv_buf.holds(self.n as int, self.per_seq_qkv as int, 1)
        &&& self.qkv_buf.spans(self.per_seq_qkv as int)
        &&& self.normed.holds(self.n as int, self.h as int, 2)
        &&& ctx.buffers.ssm_qkvz.spans(3 * self.q_proj_bytes)
        &&& ctx.buffers.attn_output.spans(6 * self.kv_bytes())
    }

    fn kv_width(&self, ctx: &ForwardContext) -> (r: u32)
        requires
            self.fits(ctx),
        ensures
            r == self.kv_dim(),
            2 * r == self.kv_bytes(),
    {
        proof {
            assert(self.nkv * self.hd * 2 == 2 * (self.nkv * self.hd));
        }
        self.nkv * self.hd
    }

    pub fn q_row(&self, i: usize, ctx: &ForwardContext) -> (r: DevicePtr)
        requires
            self.fits(ctx),
            i < self.n,
        ensures
            r == self.q_at(i as int),
            r.spans(self.per_seq_qkv as int),
    {
        proof {
            lemma_block(i as int, self.n as int, self.per_seq_qkv as int);
        }
        self.qkv_buf.row(i, self.n, self.per_seq_qkv, 1)
    }

    pub fn k_row(&self, i: usize, ctx: &ForwardContext) -> (r: DevicePtr)
        requires
            self.fits(ctx),
            i < self.n,
        ensures
            r == self.k_at(i as int),
            r.spans(2 * self.kv_bytes()),
    {
        self.q_row(i, ctx).offset(self.q_proj_bytes)
    }

    /// Keys of the first block.
    pub fn first_k(&self, ctx: &ForwardContext) -> (r: DevicePtr)
        requires
            self.fits(ctx),
        ensures
            r == self.k_at(0),
            r.spans(2 * self.kv_bytes()),
    {
        assert(0 * self.per_seq_qkv * 1 == 0) by (nonlinear_arith);
        self.qkv_buf.offset(self.q_proj_bytes)
    }

    /// Values of the first block.
    pub fn first_v(&self, ctx: &ForwardContext) -> (r: DevicePtr)
        requires
            self.fits(ctx),
        ensures
            r == self.v_at(0),
            r.spans(self.kv_bytes()),
    {
        let w: u32 = self.kv_width(ctx);
        self.first_k(ctx).offset(w as usize * 2)
    }

    pub fn v_row(&self, i: usize, ctx: &ForwardContext) -> (r: DevicePtr)
        requires
            self.fits(ctx),
            i < self.n,
        ensures
            r == self.v_at(i as int),
            r.spans(self.kv_bytes()),
    {
        let w: u32 = self.kv_width(ctx);
        self.k_row(i, ctx).offset(w as usize * 2)
    }
}

proof fn lemma_block(i: int, n: int, stride: int)
    by (nonlinear_arith)
    requires
        0 <= i < n,
        0 <= stride,
    ensures
        0 <= i * stride * 1,
        i * stride * 1 + stride <= n * stride * 1,
{
}

/// No two parts of all sequences' blocks overlap.
pub proof fn law_blocks_are_disjoint(c: MultiSeqCtx, ctx: &ForwardContext, i: int, j: int)
    requires
        c.fits(ctx),
        0 <= i < j < c.n,
    ensures
        c.q_at(i).0 + c.q_proj_bytes == c.k_at(i).0,
        c.k_at(i).0 + c.kv_bytes() == c.v_at(i).0,
        c.v_at(i).0 + c.kv_bytes() <= c.q_at(j).0,
{
    lemma_block(i, c.n as int, c.per_seq_qkv as int);
    lemma_block(j, c.n as int, c.per_seq_qkv as int);
    assert(i * c.per_seq_qkv * 1 + c.per_seq_qkv <= j * c.per_seq_qkv * 1) by (nonlinear_arith)
        requires
            0 <= i < j,
            0 <= c.per_seq_qkv,
    ;
}

impl Qwen3AttentionLayer {
    /// All three projections are stored in four bits.
    pub open spec fn all_nvfp4(&self) -> bool {
        nvfp4_of(self.q_weight) is Some && nvfp4_of(self.k_weight) is Some && nvfp4_of(self.v_weight) is Some
    }

    /// Query projection of one row. Gated heads are split from their gates.
    pub open spec fn seq_q_cmds(&self, c: MultiSeqCtx, input: DevicePtr,
        out: DevicePtr) -> Seq<Cmd> {
        let k = self.kernels;
        let h = c.h as u32;
        (if self.gated {
            (match fp8_of(self.q_weight) {
                Some(f) => {
                    seq![
                        Cmd::Op(DeviceOp::Matmul { kind: MatmulKind::W8a16Gemv,
                            kernel: k.w8a16_gemv, input: input, weight: WeightRef::Fp8(f),
                            output: out, m: 1, n: c.q_proj_dim, k: h }),
                        Cmd::Op(DeviceOp::DeinterleaveQg { kernel: k.deinterleave_qg, ptr: out,
                            rows: 1, nq: c.nq, hd: c.hd, q_proj_dim: c.q_proj_dim }),
                    ]
                },
                None => {
                    (match nvfp4_of(self.q_weight) {
                        Some(w) => {
                            seq![
                                Cmd::Op(DeviceOp::GemvQg { kernel: k.w4a16_gemv_qg, input: input,
                                    weight: w, output: out, rows: 1, n: c.q_proj_dim, k: h,
                                    nq: c.nq, hd: c.hd }),
                            ]
                        },
                        None => {
                            seq![
                                Cmd::Op(DeviceOp::Matmul { kind: MatmulKind::DenseGemv,
                                    kernel: k.dense_gemv, input: input,
                                    weight: WeightRef::Dense(self.attn.q_proj), output: out, m: 1,
                                    n: c.q_proj_dim, k: h }),
                                Cmd::Op(DeviceOp::DeinterleaveQg { kernel: k.deinterleave_qg,
                                    ptr: out, rows: 1, nq: c.nq, hd: c.hd,
                                    q_proj_dim: c.q_proj_dim }),
                            ]
                        },
                    })
                },
            })
        } else {
            (match fp8_of(self.q_weight) {
                Some(f) => {
                    seq![
                        Cmd::Op(DeviceOp::Matmul { kind: MatmulKind::W8a16Gemv,
                            kernel: k.w8a16_gemv, input: input, weight: WeightRef::Fp8(f),
                            output: out, m: 1, n: c.q_dim, k: h }),
                    ]
                },
                None => {
                    (match nvfp4_of(self.q_weight) {
                        Some(w) => {
                            seq![
                                Cmd::Op(DeviceOp::Matmul { kind: MatmulKind::W4a16Gemv,
                                    kernel: k.w4a16_gemv, input: input,
                                    weight: WeightRef::Quantized(w), output: out, m: 1, n: c.q_dim,
                                    k: h }),
                            ]
                        },
                        None => {
                            seq![
                                Cmd::Op(DeviceOp::Matmul { kind: MatmulKind::DenseGemv,
                                    kernel: k.dense_gemv, input: input,
                                    weight: WeightRef::Dense(self.attn.q_proj), output: out, m: 1,
                                    n: c.q_dim, k: h }),
                            ]
                        },
                    })
                },
            })
        })
    }

    /// Records the query projection of one row, for every storage.
    pub fn ms_qkv_seq_q(&self, cb: &mut CommandBuffer, c: &MultiSeqCtx, input: DevicePtr,
        out: DevicePtr)
        ensures
            final(cb)@ == old(cb)@ + self.seq_q_cmds(*c, input, out),
    {
        let ghost before = cb@;
        let k: crate::attention::layer::AttnKernels = self.kernels;
        let h: u32 = c.h as u32;
        if self.gated {
            match as_fp8(&self.q_weight) {
                Some(f) => {
                    cb.op(DeviceOp::Matmul { kind: MatmulKind::W8a16Gemv, kernel: k.w8a16_gemv,
                        input: input, weight: WeightRef::Fp8(f), output: out, m: 1,
                        n: c.q_proj_dim, k: h });
                    cb.op(DeviceOp::DeinterleaveQg { kernel: k.deinterleave_qg, ptr: out, rows: 1,
                        nq: c.nq, hd: c.hd, q_proj_dim: c.q_proj_dim });
                },
                None => {
                    match as_nvfp4(&self.q_weight) {
                        Some(w) => {
                            cb.op(DeviceOp::GemvQg { kernel: k.w4a16_gemv_qg, input: input,
                                weight: w, output: out, rows: 1, n: c.q_proj_dim, k: h, nq: c.nq,
                                hd: c.hd });
                        },
                        None => {
                            cb.op(DeviceOp::Matmul { kind: MatmulKind::DenseGemv,
                                kernel: k.dense_gemv, input: input,
                                weight: WeightRef::Dense(self.attn.q_proj), output: out, m: 1,
                                n: c.q_proj_dim, k: h });
                            cb.op(DeviceOp::DeinterleaveQg { kernel: k.deinterleave_qg, ptr: out,
                                rows: 1, nq: c.nq, hd: c.hd, q_proj_dim: c.q_proj_dim });
                        },
                    }
                },
            }
        } else {
            match as_fp8(&self.q_weight) {
                Some(f) => {
                    cb.op(DeviceOp::Matmul { kind: MatmulKind::W8a16Gemv, kernel: k.w8a16_gemv,
                        input: input, weight: WeightRef::Fp8(f), output: out, m: 1, n: c.q_dim,
                        k: h });
                },
                None => {
                    match as_nvfp4(&self.q_weight) {
                        Some(w) => {
                            cb.op(DeviceOp::Matmul { kind: MatmulKind::W4a16Gemv,
                                kernel: k.w4a16_gemv, input: input,
                                weight: WeightRef::Quantized(w), output: out, m: 1, n: c.q_dim,
                                k: h });
                        },
                        None => {
                            cb.op(DeviceOp::Matmul { kind: MatmulKind::DenseGemv,
                                kernel: k.dense_gemv, input: input,
                                weight: WeightRef::Dense(self.attn.q_proj), output: out, m: 1,
                                n: c.q_dim, k: h });
                        },
                    }
                },
            }
        }
        assert(cb@ =~= before + self.seq_q_cmds(*c, input, out));
    }

    /// Projection of one row through one four-bit or bfloat16 weight.
    pub open spec fn single_cmd(
        &self,
        w: Option<QuantizedWeight>,
        dense: crate::weights::DenseWeight,
        input: DevicePtr,
        out: DevicePtr,
        n: u32,
        h: u32,
    ) -> Cmd {
        match w {
            Some(q) => Cmd::Op(
                DeviceOp::Matmul {
                    kind: MatmulKind::W4a16Gemv,
                    kernel: self.kernels.w4a16_gemv,
                    input,
                    weight: WeightRef::Quantized(q),
                    output: out,
                    m: 1,
                    n,
                    k: h,
                },
            ),
            None => Cmd::Op(
                DeviceOp::Matmul {
                    kind: MatmulKind::DenseGemv,
                    kernel: self.kernels.dense_gemv,
                    input,
                    weight: WeightRef::Dense(dense),
                    output: out,
                    m: 1,
                    n,
                    k: h,
                },
            ),
        }
    }

    fn record_single(
        &self,
        cb: &mut CommandBuffer,
        w: Option<QuantizedWeight>,
        dense: crate::weights::DenseWeight,
        input: DevicePtr,
        out: DevicePtr,
        n: u32,
        h: u32,
    )
        ensures
            final(cb)@ == old(cb)@.push(self.single_cmd(w, dense, input, out, n, h)),
    {
        match w {
            Some(q) => {
                cb.op(
                    DeviceOp::Matmul {
                        kind: MatmulKind::W4a16Gemv,
                        kernel: self.kernels.w4a16_gemv,
                        input,
                        weight: WeightRef::Quantized(q),
                        output: out,
                        m: 1,
                        n,
                        k: h,
                    },
                );
            },
            None => {
                cb.op(
                    DeviceOp::Matmul {
                        kind: MatmulKind::DenseGemv,
                        kernel: self.kernels.dense_gemv,
                        input,
                        weight: WeightRef::Dense(dense),
                        output: out,
                        m: 1,
                        n,
                        k: h,
                    },
                );
            },
        }
    }

    /// Key and value projections of one row. Two weights of the same kind share a
    /// launch where a kernel for that exists.
    pub open spec fn seq_kv_cmds(
        &self,
        c: MultiSeqCtx,
        input: DevicePtr,
        k_out: DevicePtr,
        v_out: DevicePtr,
    ) -> Seq<Cmd> {
        let n = c.kv_dim() as u32;
        let h = c.h as u32;
        match (fp8_of(self.k_weight), fp8_of(self.v_weight)) {
            (Some(kf), Some(vf)) => seq![
                Cmd::Op(
                    DeviceOp::Matmul {
                        kind: MatmulKind::W8a16Gemv,
                        kernel: self.kernels.w8a16_gemv,
                        input,
                        weight: WeightRef::Fp8(kf),
                        output: k_out,
                        m: 1,
                        n,
                        k: h,
                    },
                ),
                Cmd::Op(
                    DeviceOp::Matmul {
                        kind: MatmulKind::W8a16Gemv,
                        kernel: self.kernels.w8a16_gemv,
                        input,
                        weight: WeightRef::Fp8(vf),
                        output: v_out,
                        m: 1,
                        n,
                        k: h,
                    },
                ),
            ],
            _ => match (nvfp4_of(self.k_weight), nvfp4_of(self.v_weight)) {
                (Some(kq), Some(vq)) => seq![
                    Cmd::Op(
                        DeviceOp::GemvDual {
                            kernel: self.kernels.w4a16_gemv_dual,
                            input,
                            weight0: kq,
                            output0: k_out,
                            weight1: vq,
                            output1: v_out,
                            rows: 1,
                            n,
                            k: h,
                        },
                    ),
                ],
                (kq, vq) => seq![
                    self.single_cmd(kq, self.attn.k_proj, input, k_out, n, h),
                    self.single_cmd(vq, self.attn.v_proj, input, v_out, n, h),
                ],
            },
        }
    }

    /// Records the key and value projections of one row, for every storage.
    pub fn ms_qkv_seq_kv(
        &self,
        cb: &mut CommandBuffer,
        c: &MultiSeqCtx,
        input: DevicePtr,
        k_out: DevicePtr,
        v_out: DevicePtr,
    )
        requires
            c.kv_dim() <= u32::MAX,
        ensures
            final(cb)@ == old(cb)@ + self.seq_kv_cmds(*c, input, k_out, v_out),
    {
        let ghost before = cb@;
        let n: u32 = c.nkv * c.hd;
        let h: u32 = c.h as u32;
        match (as_fp8(&self.k_weight), as_fp8(&self.v_weight)) {
            (Some(kf), Some(vf)) => {
                cb.op(
                    DeviceOp::Matmul {
                        kind: MatmulKind::W8a16Gemv,
                        kernel: self.kernels.w8a16_gemv,
                        input,
                        weight: WeightRef::Fp8(kf),
                        output: k_out,
                        m: 1,
                        n,
                        k: h,
                    },
                );
                cb.op(
                    DeviceOp::Matmul {
                        kind: MatmulKind::W8a16Gemv,
                        kernel: self.kernels.w8a16_gemv,
                        input,
                        weight: WeightRef::Fp8(vf),
                        output: v_out,
                        m: 1,
                        n,
                        k: h,
                    },
                );
            },
            _ => match (as_nvfp4(&self.k_weight), as_nvfp4(&self.v_weight)) {
                (Some(kq), Some(vq)) => {
                    cb.op(
                        DeviceOp::GemvDual {
                            kernel: self.kernels.w4a16_gemv_dual,
                            input,
                            weight0: kq,
                            output0: k_out,
                            weight1: vq,
                            output1: v_out,
                            rows: 1,
                            n,
                            k: h,
                        },
                    );
                },
                (kq, vq) => {
                    self.record_single(cb, kq, self.attn.k_proj, input, k_out, n, h);
                    self.record_single(cb, vq, self.attn.v_proj, input, v_out, n, h);
                },
            },
        }
        assert(cb@ =~= before + self.seq_kv_cmds(*c, input, k_out, v_out));
    }

    /// All projections of sequence `i` on its own.
    pub open spec fn seq_cmds(&self, c: MultiSeqCtx, i: int) -> Seq<Cmd> {
        let input = c.normed.row_at(i, c.h as int, 2);
        self.seq_q_cmds(c, input, c.q_at(i)) + self.seq_kv_cmds(c, input, c.k_at(i), c.v_at(i))
    }

    fn record_seq(&self, cb: &mut CommandBuffer, ctx: &ForwardContext, c: &MultiSeqCtx, i: usize)
        requires
            c.fits(ctx),
            i < c.n,
        ensures
            final(cb)@ == old(cb)@ + self.seq_cmds(*c, i as int),
    {
        let ghost before = cb@;
        let input: DevicePtr = c.normed.row(i, c.n, c.h, 2);
        let q: DevicePtr = c.q_row(i, ctx);
        let k: DevicePtr = c.k_row(i, ctx);
        let v: DevicePtr = c.v_row(i, ctx);
        self.ms_qkv_seq_q(cb, c, input, q);
        self.ms_qkv_seq_kv(cb, c, input, k, v);
        proof {
            let a = self.seq_q_cmds(*c, input, q);
            let b = self.seq_kv_cmds(*c, input, k, v);
            lemma_concat(before, a, b);
        }
    }

    /// Projections of the first `n` sequences, one by one.
    pub open spec fn seqs_cmds(&self, c: MultiSeqCtx, n: nat) -> Seq<Cmd>
        decreases n,
    {
        if n == 0 {
            Seq::empty()
        } else {
            self.seqs_cmds(c, (n - 1) as nat) + self.seq_cmds(c, (n - 1))
        }
    }

    fn record_seqs(&self, cb: &mut CommandBuffer, ctx: &ForwardContext, c: &MultiSeqCtx)
        requires
            c.fits(ctx),
        ensures
            final(cb)@ == old(cb)@ + self.seqs_cmds(*c, c.n as nat),
    {
        let ghost before = cb@;
        let mut i: usize = 0;
        assert(cb@ =~= before + self.seqs_cmds(*c, 0));
        while i < c.n
            invariant
                i <= c.n,
                c.fits(ctx),
                cb@ == before + self.seqs_cmds(*c, i as nat),
            decreases c.n - i,
        {
            self.record_seq(cb, ctx, c, i);
            i = i + 1;
            assert(cb@ =~= before + self.seqs_cmds(*c, i as nat));
        }
    }

    /// Projections of a tile of two or three rows from `s` on, into scratch.
    pub open spec fn tile_gemv_cmds(&self, ctx: &ForwardContext, c: MultiSeqCtx, s: int, rows: int,
        qw: QuantizedWeight, kw: QuantizedWeight, vw: QuantizedWeight) -> Seq<Cmd> {
        let k = self.kernels;
        let h = c.h as u32;
        let kv = c.kv_dim() as u32;
        let input = c.normed.row_at(s, c.h as int, 2);
        let q_out = ctx.buffers.ssm_qkvz;
        let k_out = ctx.buffers.attn_output;
        let v_out = ctx.buffers.attn_output.at(rows * c.kv_bytes());
        (if rows == 3 {
            (if self.gated {
                seq![
                    Cmd::Op(DeviceOp::GemvQg { kernel: k.w4a16_gemv_qg_batch3, input: input,
                        weight: qw, output: q_out, rows: 3, n: c.q_proj_dim, k: h, nq: c.nq,
                        hd: c.hd }),
                ]
            } else {
                seq![
                    Cmd::Op(DeviceOp::Matmul { kind: MatmulKind::W4a16GemvBatch3,
                        kernel: k.w4a16_gemv_batch3, input: input,
                        weight: WeightRef::Quantized(qw), output: q_out, m: 3, n: c.q_proj_dim,
                        k: h }),
                ]
            }) + seq![
                Cmd::Op(DeviceOp::GemvDual { kernel: k.w4a16_gemv_dual_batch3, input: input,
                    weight0: kw, output0: k_out, weight1: vw, output1: v_out, rows: 3, n: kv,
                    k: h }),
            ]
        } else {
            (if self.gated {
                seq![
                    Cmd::Op(DeviceOp::GemvQg { kernel: k.w4a16_gemv_qg_batch2, input: input,
                        weight: qw, output: q_out, rows: 2, n: c.q_proj_dim, k: h, nq: c.nq,
                        hd: c.hd }),
                ]
            } else {
                seq![
                    Cmd::Op(DeviceOp::Matmul { kind: MatmulKind::W4a16GemvBatch2,
                        kernel: k.w4a16_gemv_batch2, input: input,
                        weight: WeightRef::Quantized(qw), output: q_out, m: 2, n: c.q_proj_dim,
                        k: h }),
                ]
            }) + seq![
                Cmd::Op(DeviceOp::GemvDual { kernel: k.w4a16_gemv_dual_batch2, input: input,
                    weight0: kw, output0: k_out, weight1: vw, output1: v_out, rows: 2, n: kv,
                    k: h }),
            ]
        })
    }

    fn record_tile_gemv(&self, cb: &mut CommandBuffer, ctx: &ForwardContext, c: &MultiSeqCtx,
        s: usize, rows: usize, qw: QuantizedWeight, kw: QuantizedWeight, vw: QuantizedWeight)
        requires
            c.fits(ctx),
            2 <= rows <= 3,
            s + rows <= c.n,
        ensures
            final(cb)@ == old(cb)@ + self.tile_gemv_cmds(ctx, *c, s as int, rows as int, qw, kw, vw),
    {
        let ghost before = cb@;
        let k: crate::attention::layer::AttnKernels = self.kernels;
        let h: u32 = c.h as u32;
        let kv: u32 = c.kv_width(ctx);
        let input: DevicePtr = c.normed.row(s, c.n, c.h, 2);
        let q_out: DevicePtr = ctx.buffers.ssm_qkvz;
        let k_out: DevicePtr = ctx.buffers.attn_output;
        let v_out: DevicePtr = ctx.buffers.attn_output.offset(rows * (kv as usize * 2));
        if rows == 3 {
            if self.gated {
                cb.op(DeviceOp::GemvQg { kernel: k.w4a16_gemv_qg_batch3, input: input, weight: qw,
                    output: q_out, rows: 3, n: c.q_proj_dim, k: h, nq: c.nq, hd: c.hd });
            } else {
                cb.op(DeviceOp::Matmul { kind: MatmulKind::W4a16GemvBatch3,
                    kernel: k.w4a16_gemv_batch3, input: input, weight: WeightRef::Quantized(qw),
                    output: q_out, m: 3, n: c.q_proj_dim, k: h });
            }
            cb.op(DeviceOp::GemvDual { kernel: k.w4a16_gemv_dual_batch3, input: input, weight0: kw,
                output0: k_out, weight1: vw, output1: v_out, rows: 3, n: kv, k: h });
        } else {
            if self.gated {
                cb.op(DeviceOp::GemvQg { kernel: k.w4a16_gemv_qg_batch2, input: input, weight: qw,
                    output: q_out, rows: 2, n: c.q_proj_dim, k: h, nq: c.nq, hd: c.hd });
            } else {
                cb.op(DeviceOp::Matmul { kind: MatmulKind::W4a16GemvBatch2,
                    kernel: k.w4a16_gemv_batch2, input: input, weight: WeightRef::Quantized(qw),
                    output: q_out, m: 2, n: c.q_proj_dim, k: h });
            }
            cb.op(DeviceOp::GemvDual { kernel: k.w4a16_gemv_dual_batch2, input: input, weight0: kw,
                output0: k_out, weight1: vw, output1: v_out, rows: 2, n: kv, k: h });
        }
        assert(cb@ =~= before + self.tile_gemv_cmds(ctx, *c, s as int, rows as int, qw, kw, vw));
    }

    /// Copies of row `j` of a tile of `rows` rows from scratch to its block.
    pub open spec fn scatter_row_cmds(
        &self,
        ctx: &ForwardContext,
        c: MultiSeqCtx,
        s: int,
        rows: int,
        j: int,
    ) -> Seq<Cmd> {
        let kv = ctx.buffers.attn_output;
        seq![
            Cmd::Op(
                DeviceOp::CopyD2D {
                    src: ctx.buffers.ssm_qkvz.at(j * c.q_proj_bytes),
                    dst: c.q_at(s + j),
                    bytes: c.q_proj_bytes,
                },
            ),
            Cmd::Op(
                DeviceOp::CopyD2D {
                    src: kv.at(j * c.kv_bytes()),
                    dst: c.k_at(s + j),
                    bytes: c.kv_bytes() as usize,
                },
            ),
            Cmd::Op(
                DeviceOp::CopyD2D {
                    src: kv.at((rows + j) * c.kv_bytes()),
                    dst: c.v_at(s + j),
                    bytes: c.kv_bytes() as usize,
                },
            ),
        ]
    }

    /// Copies of the first `m` rows of a tile.
    pub open spec fn scatter_cmds(
        &self,
        ctx: &ForwardContext,
        c: MultiSeqCtx,
        s: int,
        rows: int,
        m: nat,
    ) -> Seq<Cmd>
        decreases m,
    {
        if m == 0 {
            Seq::empty()
        } else {
            self.scatter_cmds(ctx, c, s, rows, (m - 1) as nat) + self.scatter_row_cmds(
                ctx,
                c,
                s,
                rows,
                m - 1,
            )
        }
    }

    fn record_scatter(
        &self,
        cb: &mut CommandBuffer,
        ctx: &ForwardContext,
        c: &MultiSeqCtx,
        s: usize,
        rows: usize,
    )
        requires
            c.fits(ctx),
            2 <= rows <= 3,
            s + rows <= c.n,
        ensures
            final(cb)@ == old(cb)@ + self.scatter_cmds(ctx, *c, s as int, rows as int, rows as nat),
    {
        let ghost before = cb@;
        let kv: usize = c.kv_width(ctx) as usize * 2;
        let mut j: usize = 0;
        assert(cb@ =~= before + self.scatter_cmds(ctx, *c, s as int, rows as int, 0));
        while j < rows
            invariant
                j <= rows,
                2 <= rows <= 3,
                s + rows <= c.n,
                c.fits(ctx),
                kv == c.kv_bytes(),
                cb@ == before + self.scatter_cmds(ctx, *c, s as int, rows as int, j as nat),
            decreases rows - j,
        {
            proof {
                lemma_scratch(j as int, rows as int, c.q_proj_bytes as int, kv as int);
            }
            let q_src: DevicePtr = ctx.buffers.ssm_qkvz.offset(j * c.q_proj_bytes);
            let k_src: DevicePtr = ctx.buffers.attn_output.offset(j * kv);
            let v_src: DevicePtr = ctx.buffers.attn_output.offset((rows + j) * kv);
            let q_dst: DevicePtr = c.q_row(s + j, ctx);
            let k_dst: DevicePtr = c.k_row(s + j, ctx);
            let v_dst: DevicePtr = c.v_row(s + j, ctx);
            cb.op(DeviceOp::CopyD2D { src: q_src, dst: q_dst, bytes: c.q_proj_bytes });
            cb.op(DeviceOp::CopyD2D { src: k_src, dst: k_dst, bytes: kv });
            cb.op(DeviceOp::CopyD2D { src: v_src, dst: v_dst, bytes: kv });
            assert(cb@ =~= before + self.scatter_cmds(
                ctx,
                *c,
                s as int,
                rows as int,
                (j + 1) as nat,
            ));
            j = j + 1;
        }
    }

    /// A tile: one projection per weight, then a copy of every row to its block.
    pub open spec fn tile_cmds(&self, ctx: &ForwardContext, c: MultiSeqCtx, s: int, rows: int) -> Seq<Cmd> {
        self.tile_gemv_cmds(
            ctx,
            c,
            s,
            rows,
            nvfp4_of(self.q_weight)->0,
            nvfp4_of(self.k_weight)->0,
            nvfp4_of(self.v_weight)->0,
        ) + self.scatter_cmds(ctx, c, s, rows, rows as nat)
    }

    fn record_tile(
        &self,
        cb: &mut CommandBuffer,
        ctx: &ForwardContext,
        c: &MultiSeqCtx,
        s: usize,
        rows: usize,
    )
        requires
            self.all_nvfp4(),
            c.fits(ctx),
            2 <= rows <= 3,
            s + rows <= c.n,
        ensures
            final(cb)@ == old(cb)@ + self.tile_cmds(ctx, *c, s as int, rows as int),
    {
        let ghost before = cb@;
        let qw: QuantizedWeight = as_nvfp4(&self.q_weight).unwrap();
        let kw: QuantizedWeight = as_nvfp4(&self.k_weight).unwrap();
        let vw: QuantizedWeight = as_nvfp4(&self.v_weight).unwrap();
        self.record_tile_gemv(cb, ctx, c, s, rows, qw, kw, vw);
        self.record_scatter(cb, ctx, c, s, rows);
        proof {
            lemma_concat(
                before,
                self.tile_gemv_cmds(ctx, *c, s as int, rows as int, qw, kw, vw),
                self.scatter_cmds(ctx, *c, s as int, rows as int, rows as nat),
            );
        }
    }

    /// Records the projections of three sequences as one tile.
    pub fn ms_qkv_batch3(&self, cb: &mut CommandBuffer, ctx: &ForwardContext, c: &MultiSeqCtx)
        requires
            self.all_nvfp4(),
            c.fits(ctx),
            c.n == 3,
        ensures
            final(cb)@ == old(cb)@ + self.tile_cmds(ctx, *c, 0, 3),
    {
        self.record_tile(cb, ctx, c, 0, 3);
    }

    /// Records the projections of two sequences as one tile.
    pub fn ms_qkv_batch2(&self, cb: &mut CommandBuffer, ctx: &ForwardContext, c: &MultiSeqCtx)
        requires
            self.all_nvfp4(),
            c.fits(ctx),
            c.n == 2,
        ensures
            final(cb)@ == old(cb)@ + self.tile_cmds(ctx, *c, 0, 2),
    {
        self.record_tile(cb, ctx, c, 0, 2);
    }

    /// Work of all sequences from `s` on in tiles of three, with a tile of two or a
    /// single sequence left over.
    pub open spec fn tiled_from(&self, ctx: &ForwardContext, c: MultiSeqCtx, s: int) -> Seq<Cmd>
        decreases c.n - s,
    {
        let left = c.n - s;
        if left >= 3 {
            self.tile_cmds(ctx, c, s, 3) + self.tiled_from(ctx, c, s + 3)
        } else if left == 2 {
            self.tile_cmds(ctx, c, s, 2)
        } else if left == 1 {
            self.seq_cmds(c, s)
        } else {
            Seq::empty()
        }
    }

    /// Records the projections of all sequences in tiles.
    pub fn ms_qkv_batch_tiled(&self, cb: &mut CommandBuffer, ctx: &ForwardContext, c: &MultiSeqCtx)
        requires
            self.all_nvfp4(),
            c.fits(ctx),
        ensures
            final(cb)@ == old(cb)@ + self.tiled_from(ctx, *c, 0),
    {
        let ghost before = cb@;
        let ghost all = self.tiled_from(ctx, *c, 0);
        let mut s: usize = 0;
        assert(cb@ + self.tiled_from(ctx, *c, 0) =~= before + all);
        while s < c.n
            invariant
                s <= c.n,
                self.all_nvfp4(),
                c.fits(ctx),
                cb@ + self.tiled_from(ctx, *c, s as int) == before + all,
            decreases c.n - s,
        {
            let left: usize = c.n - s;
            let ghost here = cb@;
            if left >= 2 {
                let rows: usize = if left >= 3 {
                    3
                } else {
                    2
                };
                self.record_tile(cb, ctx, c, s, rows);
                proof {
                    lemma_concat(
                        here,
                        self.tile_cmds(ctx, *c, s as int, rows as int),
                        self.tiled_from(ctx, *c, s + rows),
                    );
                    if left == 2 {
                        assert(self.tiled_from(ctx, *c, s + 2) =~= Seq::empty());
                        assert(self.tile_cmds(ctx, *c, s as int, 2) + Seq::<Cmd>::empty()
                            =~= self.tile_cmds(ctx, *c, s as int, 2));
                    }
                }
                s = s + rows;
            } else {
                self.record_seq(cb, ctx, c, s);
                proof {
                    lemma_concat(
                        here,
                        self.seq_cmds(*c, s as int),
                        self.tiled_from(ctx, *c, s + 1),
                    );
                    assert(self.tiled_from(ctx, *c, s + 1) =~= Seq::empty());
                    assert(self.seq_cmds(*c, s as int) + Seq::<Cmd>::empty() =~= self.seq_cmds(
                        *c,
                        s as int,
                    ));
                }
                s = s + 1;
            }
        }
        assert(self.tiled_from(ctx, *c, s as int) =~= Seq::empty());
        assert(cb@ =~= cb@ + Seq::<Cmd>::empty());
    }

    /// Adapters of keys and values, where rows have any.
    pub open spec fn kv_lora_cmds(&self, ctx: &ForwardContext, c: MultiSeqCtx) -> Seq<Cmd> {
        (match self.lora {
            Some(l) => {
                (if c.seq_slot.0 != 0 {
                    (match l.k_route {
                        Some(r) => {
                            seq![
                                Cmd::Op(DeviceOp::LoraBgmv { kernels: l.kernels, route: r,
                                    x: c.normed, base_out: c.k_at(0), seq_slot: c.seq_slot,
                                    rows: c.n as u32, x_stride: c.h as u32,
                                    out_stride: (c.per_seq_qkv / 2) as u32,
                                    xa: ctx.buffers.lora_xa }),
                            ]
                        },
                        None => {
                            Seq::empty()
                        },
                    }) + (match l.v_route {
                        Some(r) => {
                            seq![
                                Cmd::Op(DeviceOp::LoraBgmv { kernels: l.kernels, route: r,
                                    x: c.normed, base_out: c.v_at(0), seq_slot: c.seq_slot,
                                    rows: c.n as u32, x_stride: c.h as u32,
                                    out_stride: (c.per_seq_qkv / 2) as u32,
                                    xa: ctx.buffers.lora_xa }),
                            ]
                        },
                        None => {
                            Seq::empty()
                        },
                    })
                } else {
                    Seq::empty()
                })
            },
            None => {
                Seq::empty()
            },
        })
    }

    /// Records the fold of every row's adapters into its keys and values.
    pub fn ms_qkv_apply_lora(&self, cb: &mut CommandBuffer, ctx: &ForwardContext, c: &MultiSeqCtx)
        requires
            c.fits(ctx),
        ensures
            final(cb)@ == old(cb)@ + self.kv_lora_cmds(ctx, *c),
    {
        let ghost before = cb@;
        match self.lora {
            Some(l) => {
                if !c.seq_slot.is_null() {
                    match l.k_route {
                        Some(r) => {
                            cb.op(DeviceOp::LoraBgmv { kernels: l.kernels, route: r, x: c.normed,
                                base_out: c.first_k(ctx), seq_slot: c.seq_slot, rows: c.n as u32,
                                x_stride: c.h as u32, out_stride: (c.per_seq_qkv / 2) as u32,
                                xa: ctx.buffers.lora_xa });
                        },
                        None => {
                        },
                    }
                    match l.v_route {
                        Some(r) => {
                            cb.op(DeviceOp::LoraBgmv { kernels: l.kernels, route: r, x: c.normed,
                                base_out: c.first_v(ctx), seq_slot: c.seq_slot, rows: c.n as u32,
                                x_stride: c.h as u32, out_stride: (c.per_seq_qkv / 2) as u32,
                                xa: ctx.buffers.lora_xa });
                        },
                        None => {
                        },
                    }
                }
            },
            None => {
            },
        }
        assert(cb@ =~= before + self.kv_lora_cmds(ctx, *c));
    }

    /// Head norms of sequence `i`, in place.
    pub open spec fn norms_of_cmds(&self, c: MultiSeqCtx, i: int) -> Seq<Cmd> {
        let q = c.q_at(i);
        let k = c.k_at(i);
        (if self.attn.q_norm.weight.0 != 0 {
            seq![
                Cmd::Op(DeviceOp::RmsNorm { kernel: self.kernels.rms_norm, input: q,
                    weight: self.attn.q_norm, output: q, rows: c.nq, dim: c.hd, eps: c.eps }),
            ]
        } else {
            Seq::empty()
        }) + (if self.attn.k_norm.weight.0 != 0 {
            seq![
                Cmd::Op(DeviceOp::RmsNorm { kernel: self.kernels.rms_norm, input: k,
                    weight: self.attn.k_norm, output: k, rows: c.nkv, dim: c.hd, eps: c.eps }),
            ]
        } else {
            Seq::empty()
        })
    }

    fn record_norms_of(&self, cb: &mut CommandBuffer, ctx: &ForwardContext, c: &MultiSeqCtx,
        i: usize)
        requires
            c.fits(ctx),
            i < c.n,
        ensures
            final(cb)@ == old(cb)@ + self.norms_of_cmds(*c, i as int),
    {
        let ghost before = cb@;
        let q: DevicePtr = c.q_row(i, ctx);
        let k: DevicePtr = c.k_row(i, ctx);
        if !self.attn.q_norm.weight.is_null() {
            cb.op(DeviceOp::RmsNorm { kernel: self.kernels.rms_norm, input: q,
                weight: self.attn.q_norm, output: q, rows: c.nq, dim: c.hd, eps: c.eps });
        }
        if !self.attn.k_norm.weight.is_null() {
            cb.op(DeviceOp::RmsNorm { kernel: self.kernels.rms_norm, input: k,
                weight: self.attn.k_norm, output: k, rows: c.nkv, dim: c.hd, eps: c.eps });
        }
        assert(cb@ =~= before + self.norms_of_cmds(*c, i as int));
    }

    /// Head norms of the first `n` sequences.
    pub open spec fn norms_cmds(&self, c: MultiSeqCtx, n: nat) -> Seq<Cmd>
        decreases n,
    {
        if n == 0 {
            Seq::empty()
        } else {
            self.norms_cmds(c, (n - 1) as nat) + self.norms_of_cmds(c, (n - 1))
        }
    }

    /// Records the head norms of all sequences.
    pub fn ms_qkv_norms(&self, cb: &mut CommandBuffer, ctx: &ForwardContext, c: &MultiSeqCtx)
        requires
            c.fits(ctx),
        ensures
            final(cb)@ == old(cb)@ + self.norms_cmds(*c, c.n as nat),
    {
        let ghost before = cb@;
        let mut i: usize = 0;
        assert(cb@ =~= before + self.norms_cmds(*c, 0));
        while i < c.n
            invariant
                i <= c.n,
                c.fits(ctx),
                cb@ == before + self.norms_cmds(*c, i as nat),
            decreases c.n - i,
        {
            self.record_norms_of(cb, ctx, c, i);
            i = i + 1;
            assert(cb@ =~= before + self.norms_cmds(*c, i as nat));
        }
    }

    /// Projections of all sequences: one tile for two or three, several from four
    /// on, one by one where some weight is not four-bit.
    pub open spec fn projection_cmds(&self, ctx: &ForwardContext, c: MultiSeqCtx) -> Seq<Cmd> {
        if c.n == 3 && self.all_nvfp4() {
            self.tile_cmds(ctx, c, 0, 3)
        } else if c.n == 2 && self.all_nvfp4() {
            self.tile_cmds(ctx, c, 0, 2)
        } else if c.n >= 4 && self.all_nvfp4() {
            self.tiled_from(ctx, c, 0)
        } else {
            self.seqs_cmds(c, c.n as nat)
        }
    }

    /// Records projections, adapters and head norms, in that order.
    pub fn ms_phase_qkv(&self, cb: &mut CommandBuffer, ctx: &ForwardContext, c: &MultiSeqCtx)
        requires
            c.fits(ctx),
        ensures
            final(cb)@ == old(cb)@ + self.projection_cmds(ctx, *c) + self.kv_lora_cmds(ctx, *c)
                + self.norms_cmds(*c, c.n as nat),
    {
        let four_bit: bool = as_nvfp4(&self.q_weight).is_some() && as_nvfp4(&self.k_weight).is_some()
            && as_nvfp4(&self.v_weight).is_some();
        if c.n == 3 && four_bit {
            self.ms_qkv_batch3(cb, ctx, c);
        } else if c.n == 2 && four_bit {
            self.ms_qkv_batch2(cb, ctx, c);
        } else if c.n >= 4 && four_bit {
            self.ms_qkv_batch_tiled(cb, ctx, c);
        } else {
            self.record_seqs(cb, ctx, c);
        }
        self.ms_qkv_apply_lora(cb, ctx, c);
        self.ms_qkv_norms(cb, ctx, c);
    }
}

proof fn lemma_concat(a: Seq<Cmd>, b: Seq<Cmd>, c: Seq<Cmd>)
    ensures
        a + b + c == a + (b + c),
{
    assert(a + b + c =~= a + (b + c));
}

proof fn lemma_scratch(j: int, rows: int, q: int, kv: int)
    by (nonlinear_arith)
    requires
        0 <= j < rows <= 3,
        0 <= q,
        0 <= kv,
    ensures
        0 <= j * q <= 3 * q,
        0 <= j * kv <= 6 * kv,
        0 <= (rows + j) * kv <= 6 * kv,
{
}

/// The command reads the key and value weights.
pub open spec fn reads_kv(x: Cmd) -> bool {
    x matches Cmd::Op(op) && op is GemvDual
}

/// How often the key and value weights are read.
pub open spec fn kv_reads(cmds: Seq<Cmd>) -> int
    decreases cmds.len(),
{
    if cmds.len() == 0 {
        0
    } else {
        kv_reads(cmds.drop_last()) + if reads_kv(cmds.last()) {
            1int
        } else {
            0
        }
    }
}

proof fn lemma_reads_add(a: Seq<Cmd>, b: Seq<Cmd>)
    ensures
        kv_reads(a + b) == kv_reads(a) + kv_reads(b),
    decreases b.len(),
{
    if b.len() == 0 {
        assert(a + b =~= a);
    } else {
        assert((a + b).drop_last() =~= a + b.drop_last());
        lemma_reads_add(a, b.drop_last());
    }
}

proof fn lemma_no_reads(s: Seq<Cmd>)
    requires
        forall|i: int| 0 <= i < s.len() ==> !reads_kv(#[trigger] s[i]),
    ensures
        kv_reads(s) == 0,
    decreases s.len(),
{
    if s.len() > 0 {
        assert(!reads_kv(s[s.len() - 1]));
        assert forall|i: int| 0 <= i < s.drop_last().len() implies !reads_kv(
            #[trigger] s.drop_last()[i],
        ) by {
            assert(!reads_kv(s[i]));
        }
        lemma_no_reads(s.drop_last());
    }
}

proof fn lemma_one_read(s: Seq<Cmd>, at: int)
    requires
        0 <= at < s.len(),
        reads_kv(s[at]),
        forall|i: int| 0 <= i < s.len() && i != at ==> !reads_kv(#[trigger] s[i]),
    ensures
        kv_reads(s) == 1,
    decreases s.len(),
{
    if at == s.len() - 1 {
        assert forall|i: int| 0 <= i < s.drop_last().len() implies !reads_kv(
            #[trigger] s.drop_last()[i],
        ) by {
            assert(!reads_kv(s[i]));
        }
        lemma_no_reads(s.drop_last());
    } else {
        assert(!reads_kv(s[s.len() - 1]));
        assert forall|i: int| 0 <= i < s.drop_last().len() && i != at implies !reads_kv(
            #[trigger] s.drop_last()[i],
        ) by {
            assert(!reads_kv(s[i]));
        }
        lemma_one_read(s.drop_last(), at);
    }
}

proof fn lemma_scatter_reads(
    layer: &Qwen3AttentionLayer,
    ctx: &ForwardContext,
    c: MultiSeqCtx,
    s: int,
    rows: int,
    m: nat,
)
    ensures
        kv_reads(layer.scatter_cmds(ctx, c, s, rows, m)) == 0,
    decreases m,
{
    if m > 0 {
        lemma_scatter_reads(layer, ctx, c, s, rows, (m - 1) as nat);
        lemma_reads_add(
            layer.scatter_cmds(ctx, c, s, rows, (m - 1) as nat),
            layer.scatter_row_cmds(ctx, c, s, rows, m - 1),
        );
        lemma_no_reads(layer.scatter_row_cmds(ctx, c, s, rows, m - 1));
    }
}

proof fn lemma_tile_reads(
    layer: &Qwen3AttentionLayer,
    ctx: &ForwardContext,
    c: MultiSeqCtx,
    s: int,
    rows: int,
)
    ensures
        kv_reads(layer.tile_cmds(ctx, c, s, rows)) == 1,
{
    let g = layer.tile_gemv_cmds(
        ctx,
        c,
        s,
        rows,
        nvfp4_of(layer.q_weight)->0,
        nvfp4_of(layer.k_weight)->0,
        nvfp4_of(layer.v_weight)->0,
    );
    assert(g.len() == 2 && reads_kv(g[1]) && !reads_kv(g[0]));
    lemma_one_read(g, 1);
    lemma_scatter_reads(layer, ctx, c, s, rows, rows as nat);
    lemma_reads_add(g, layer.scatter_cmds(ctx, c, s, rows, rows as nat));
}

/// In tiles, four-bit key and value weights are read once per three sequences
/// rather than once per sequence.
pub proof fn law_tiles_share_weight_reads(
    layer: &Qwen3AttentionLayer,
    ctx: &ForwardContext,
    c: MultiSeqCtx,
    s: int,
)
    requires
        layer.all_nvfp4(),
        0 <= s <= c.n,
    ensures
        kv_reads(layer.tiled_from(ctx, c, s)) == crate::num::ceil_div(c.n - s, 3),
    decreases c.n - s,
{
    let left = c.n - s;
    if left >= 3 {
        law_tiles_share_weight_reads(layer, ctx, c, s + 3);
        lemma_tile_reads(layer, ctx, c, s, 3);
        lemma_reads_add(layer.tile_cmds(ctx, c, s, 3), layer.tiled_from(ctx, c, s + 3));
    } else if left == 2 {
        lemma_tile_reads(layer, ctx, c, s, 2);
    } else if left == 1 {
        let input = c.normed.row_at(s, c.h as int, 2);
        let q = layer.seq_q_cmds(c, input, c.q_at(s));
        let kv = layer.seq_kv_cmds(c, input, c.k_at(s), c.v_at(s));
        assert(forall|i: int| 0 <= i < q.len() ==> !reads_kv(#[trigger] q[i]));
        lemma_no_reads(q);
        assert(kv.len() == 1 && reads_kv(kv[0]));
        lemma_one_read(kv, 0);
        lemma_reads_add(q, kv);
    }
}

/// The command is a head norm.
pub open spec fn is_norm(x: Cmd) -> bool {
    x matches Cmd::Op(op) && op is RmsNorm
}

spec fn without_norms(s: Seq<Cmd>) -> bool {
    forall|i: int| 0 <= i < s.len() ==> !is_norm(#[trigger] s[i])
}

proof fn lemma_scatter_without_norms(
    layer: &Qwen3AttentionLayer,
    ctx: &ForwardContext,
    c: MultiSeqCtx,
    s: int,
    rows: int,
    m: nat,
)
    ensures
        without_norms(layer.scatter_cmds(ctx, c, s, rows, m)),
    decreases m,
{
    if m > 0 {
        lemma_scatter_without_norms(layer, ctx, c, s, rows, (m - 1) as nat);
    }
}

proof fn lemma_tile_without_norms(
    layer: &Qwen3AttentionLayer,
    ctx: &ForwardContext,
    c: MultiSeqCtx,
    s: int,
    rows: int,
)
    ensures
        without_norms(layer.tile_cmds(ctx, c, s, rows)),
{
    lemma_scatter_without_norms(layer, ctx, c, s, rows, rows as nat);
}

proof fn lemma_tiled_without_norms(
    layer: &Qwen3AttentionLayer,
    ctx: &ForwardContext,
    c: MultiSeqCtx,
    s: int,
)
    ensures
        without_norms(layer.tiled_from(ctx, c, s)),
    decreases c.n - s,
{
    let left = c.n - s;
    if left >= 3 {
        lemma_tile_without_norms(layer, ctx, c, s, 3);
        lemma_tiled_without_norms(layer, ctx, c, s + 3);
    } else if left == 2 {
        lemma_tile_without_norms(layer, ctx, c, s, 2);
    }
}

proof fn lemma_seqs_without_norms(layer: &Qwen3AttentionLayer, c: MultiSeqCtx, n: nat)
    ensures
        without_norms(layer.seqs_cmds(c, n)),
    decreases n,
{
    if n > 0 {
        lemma_seqs_without_norms(layer, c, (n - 1) as nat);
    }
}

proof fn lemma_norms_only(layer: &Qwen3AttentionLayer, c: MultiSeqCtx, n: nat)
    ensures
        forall|i: int|
            0 <= i < layer.norms_cmds(c, n).len() ==> is_norm(
                #[trigger] layer.norms_cmds(c, n)[i],
            ),
    decreases n,
{
    if n > 0 {
        lemma_norms_only(layer, c, (n - 1) as nat);
        let before = layer.norms_cmds(c, (n - 1) as nat);
        let last = layer.norms_of_cmds(c, n - 1);
        assert forall|i: int| 0 <= i < layer.norms_cmds(c, n).len() implies is_norm(
            #[trigger] layer.norms_cmds(c, n)[i],
        ) by {
            if i < before.len() {
                assert(is_norm(before[i]));
            } else {
                assert(is_norm(last[i - before.len()]));
            }
        }
    }
}

/// However rows are projected, head norms come after all projections and after
/// the adapters: a key is the norm of its projection with its adapter's share in it.
pub proof fn law_norms_follow_adapters(
    layer: &Qwen3AttentionLayer,
    ctx: &ForwardContext,
    c: MultiSeqCtx,
    i: int,
)
    requires
        0 <= i < (layer.projection_cmds(ctx, c) + layer.kv_lora_cmds(ctx, c) + layer.norms_cmds(
            c,
            c.n as nat,
        )).len(),
    ensures
        is_norm(
            (layer.projection_cmds(ctx, c) + layer.kv_lora_cmds(ctx, c) + layer.norms_cmds(
                c,
                c.n as nat,
            ))[i],
        ) <==> i >= (layer.projection_cmds(ctx, c) + layer.kv_lora_cmds(ctx, c)).len(),
{
    let projected = layer.projection_cmds(ctx, c);
    let adapted = layer.kv_lora_cmds(ctx, c);
    lemma_tile_without_norms(layer, ctx, c, 0, 3);
    lemma_tile_without_norms(layer, ctx, c, 0, 2);
    lemma_tiled_without_norms(layer, ctx, c, 0);
    lemma_seqs_without_norms(layer, c, c.n as nat);
    assert(without_norms(projected));
    assert(without_norms(adapted));
    lemma_norms_only(layer, c, c.n as nat);
}

} // verus!
