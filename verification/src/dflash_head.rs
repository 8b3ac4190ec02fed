//! One block of a block-diffusion draft head.
//!
//! The head sees the last accepted token and a run of masks, and the target
//! model's hidden states at the most recent positions as context. All masked
//! positions are predicted at once.
use crate::dataflow::{
    after, after_op, always_runs, lemma_always_runs, lemma_one_row_miss, lemma_row_hit, lemma_row_miss, lemma_run_add, lemma_run_one, lemma_run_push, lemma_run_two,
    run, Held, Memory, Places,
};
use crate::device::{Cmd, CommandBuffer, DevicePtr, KernelHandle, Scalar};
use crate::env::EnvVars;
use crate::num::{encode_i32s, i32s_bytes, le_u32, max_int, min_int, read_u32};
use crate::ops_table::{DeviceOp, DraftLayerArgs, MatmulKind, WeightRef};
use crate::text::{decimal, lemma_decimal_nonneg, parse_usize};
use crate::weights::{DenseWeight, QuantizedWeight};
use vstd::prelude::*;

verus! {

/// Set to 1, puts a known pattern in place of the first used context slot.
pub const CTX_PATTERN: &'static str = "ATLAS_DFLASH_DEBUG_FORCE_PATTERN";

/// Set to 1, puts a known pattern in place of the embedded noise rows.
pub const NOISE_PATTERN: &'static str = "ATLAS_DFLASH_DEBUG_FORCE_NOISE_PATTERN";

/// Kernels of a draft head.
#[derive(Debug, Clone, Copy, PartialEq, Eq, Structural)]
pub struct DraftKernels {
    pub dense_gemv: KernelHandle,
    pub dense_gemm: KernelHandle,
    pub w4a16_gemm: KernelHandle,
    pub rms_norm: KernelHandle,
    pub batched_embed: KernelHandle,
    pub argmax: KernelHandle,
}

/// Device scratch of a draft head.
#[derive(Debug, Clone, Copy, PartialEq, Eq, Structural)]
pub struct DraftScratch {
    pub fc_proj: DevicePtr,
    pub stream_buf: DevicePtr,
    pub norm_buf: DevicePtr,
    pub position_ids: DevicePtr,
    pub draft_tokens_dev: DevicePtr,
    pub logits: DevicePtr,
}

/// A draft head that predicts `gamma - 1` tokens per block.
#[derive(Debug, Clone, Copy, PartialEq, Eq, Structural)]
pub struct BlockDiffusionDraftHead {
    pub kernels: DraftKernels,
    pub scratch: DraftScratch,
    pub gamma: usize,
    pub hidden_size: usize,
    pub num_q_heads: usize,
    pub num_kv_heads: usize,
    pub head_dim: usize,
    pub intermediate_size: usize,
    pub vocab_size: usize,
    pub num_layers: usize,
    pub ctx_window: usize,
    /// Target layers whose hidden states make up one context slot.
    pub target_layers: usize,
    pub target_hidden_size: usize,
    pub mask_token_id: u32,
    pub rms_norm_eps: Scalar,
    /// `1 / sqrt(head_dim)`.
    pub inv_sqrt_d: Scalar,
    pub fc: DenseWeight,
    pub hidden_norm: DenseWeight,
    pub norm: DenseWeight,
    pub embed_tokens_shared: DevicePtr,
    pub lm_head_shared: DevicePtr,
    pub lm_head_nvfp4: Option<QuantizedWeight>,
}

/// The context that a block uses: the last `eff` of `total` slots.
#[derive(Debug, Clone, Copy, PartialEq, Eq, Structural)]
pub struct DraftContext {
    pub base: Option<DevicePtr>,
    pub total: usize,
    pub eff: usize,
}

/// Number of slots that the environment asks for.
pub open spec fn forced_slots(env: &EnvVars) -> Option<int> {
    match env.value("ATLAS_DFLASH_DEBUG_CTX_USED"@) {
        Some(v) => match decimal(vstd::utf8::encode_utf8(v)) {
            Some(n) => if n <= usize::MAX {
                Some(n)
            } else {
                None
            },
            None => None,
        },
        None => None,
    }
}

impl DraftContext {
    /// First slot that is used.
    pub open spec fn start(self) -> int {
        self.total - self.eff
    }
}

impl BlockDiffusionDraftHead {
    /// Values of one context slot.
    pub open spec fn slot_dim(&self) -> int {
        self.target_layers * self.target_hidden_size
    }

    /// The context that a block uses.
    pub open spec fn context(&self, env: &EnvVars, buffer: Option<(DevicePtr, usize)>) -> DraftContext {
        match buffer {
            Some(b) => if env.says("ATLAS_DFLASH_DEBUG_CTX_OFF"@, "1"@) {
                DraftContext { base: None, total: 0, eff: 0 }
            } else {
                let most = min_int(b.1 as int, self.ctx_window as int);
                DraftContext {
                    base: Some(b.0),
                    total: b.1,
                    eff: (match forced_slots(env) {
                        Some(f) => min_int(f, most),
                        None => most,
                    }) as usize,
                }
            },
            None => DraftContext { base: None, total: 0, eff: 0 },
        }
    }

    /// The context that a block uses: the most recent slots, no more than the window
    /// holds.
    pub fn effective_context(&self, env: &EnvVars, buffer: Option<(DevicePtr, usize)>) -> (r:
        DraftContext)
        ensures
            r == self.context(env, buffer),
            r.eff <= r.total,
            r.eff <= self.ctx_window || r.eff == 0,
            r.base is None ==> r.eff == 0,
    {
        let (base, n) = match buffer {
            Some((p, n)) => (p, n),
            None => {
                return DraftContext { base: None, total: 0, eff: 0 };
            },
        };
        if env.is("ATLAS_DFLASH_DEBUG_CTX_OFF", "1") {
            return DraftContext { base: None, total: 0, eff: 0 };
        }
        let most: usize = if n < self.ctx_window {
            n
        } else {
            self.ctx_window
        };
        let forced: Option<usize> = match env.get("ATLAS_DFLASH_DEBUG_CTX_USED") {
            Some(s) => {
                proof {
                    lemma_decimal_nonneg(vstd::utf8::encode_utf8(s@));
                }
                parse_usize(s)
            },
            None => None,
        };
        let eff: usize = match forced {
            Some(f) => if f < most {
                f
            } else {
                most
            },
            None => most,
        };
        DraftContext { base: Some(base), total: n, eff }
    }

    /// Tables that a block touches lie inside the address space.
    pub open spec fn fits(&self, c: DraftContext, position: usize) -> bool {
        let rows = c.eff + self.gamma;
        &&& self.gamma >= 1
        &&& rows <= usize::MAX
        &&& self.slot_dim() <= usize::MAX
        &&& self.num_q_heads * self.head_dim <= usize::MAX
        &&& self.num_kv_heads * self.head_dim <= usize::MAX
        &&& position + self.gamma <= usize::MAX
        &&& position <= i64::MAX
        &&& c.base matches Some(p) ==> p.holds(c.total as int, self.slot_dim(), 2)
        &&& self.scratch.fc_proj.holds(rows, self.hidden_size as int, 2)
        &&& self.scratch.stream_buf.holds(rows, self.hidden_size as int, 2)
        &&& self.scratch.norm_buf.holds(rows, self.hidden_size as int, 2)
        &&& self.scratch.logits.holds(self.gamma as int, self.vocab_size as int, 2)
        &&& self.scratch.draft_tokens_dev.holds(self.gamma as int, 1, 4)
    }

    /// Projection of context slot `i` of those that are used.
    pub open spec fn project_cmd(&self, c: DraftContext, base: DevicePtr, i: int) -> Cmd {
        Cmd::Op(
            DeviceOp::Matmul {
                kind: MatmulKind::DenseGemv,
                kernel: self.kernels.dense_gemv,
                input: base.row_at(c.start() + i, self.slot_dim(), 2),
                weight: WeightRef::Dense(self.fc),
                output: self.scratch.fc_proj.row_at(i, self.hidden_size as int, 2),
                m: 1,
                n: self.hidden_size as u32,
                k: self.slot_dim() as u32,
            },
        )
    }

    /// Projections and norm of the context.
    pub open spec fn context_cmds(&self, c: DraftContext, pattern: Option<Seq<u8>>) -> Seq<Cmd> {
        match c.base {
            None => Seq::empty(),
            Some(base) => (match pattern {
                Some(bytes) => if c.eff > 0 {
                    seq![Cmd::Upload { dst: base.row_at(c.start(), self.slot_dim(), 2), bytes }]
                } else {
                    Seq::empty()
                },
                None => Seq::empty(),
            }) + Seq::new(c.eff as nat, |i: int| self.project_cmd(c, base, i)) + (if c.eff > 0 {
                seq![
                    Cmd::Op(
                        DeviceOp::RmsNorm {
                            kernel: self.kernels.rms_norm,
                            input: self.scratch.fc_proj,
                            weight: self.hidden_norm,
                            output: self.scratch.fc_proj,
                            rows: c.eff as u32,
                            dim: self.hidden_size as u32,
                            eps: self.rms_norm_eps,
                        },
                    ),
                ]
            } else {
                Seq::empty()
            }),
        }
    }

    fn record_context(
        &self,
        cb: &mut CommandBuffer,
        c: DraftContext,
        position: usize,
        pattern: Option<Vec<u8>>,
    )
        requires
            self.fits(c, position),
            c.eff <= c.total,
        ensures
            final(cb)@ == old(cb)@ + self.context_cmds(c, bytes_of(pattern)),
    {
        let ghost before = cb@;
        let base: DevicePtr = match c.base {
            Some(p) => p,
            None => {
                assert(cb@ =~= before + self.context_cmds(c, bytes_of(pattern)));
                return;
            },
        };
        let start: usize = c.total - c.eff;
        let dim: usize = self.target_layers * self.target_hidden_size;
        let ghost given = bytes_of(pattern);
        if let Some(bytes) = pattern {
            if c.eff > 0 {
                cb.upload(base.row(start, c.total, dim, 2), bytes);
            }
        }
        let ghost shown = cb@;
        let mut i: usize = 0;
        assert(cb@ =~= shown + Seq::new(0, |i: int| self.project_cmd(c, base, i)));
        while i < c.eff
            invariant
                i <= c.eff <= c.total,
                self.fits(c, position),
                c.base == Some(base),
                start == c.start(),
                dim == self.slot_dim(),
                cb@ == shown + Seq::new(i as nat, |i: int| self.project_cmd(c, base, i)),
            decreases c.eff - i,
        {
            let src: DevicePtr = base.row(start + i, c.total, dim, 2);
            let dst: DevicePtr = self.scratch.fc_proj.row(
                i,
                c.eff + self.gamma,
                self.hidden_size,
                2,
            );
            cb.op(
                DeviceOp::Matmul {
                    kind: MatmulKind::DenseGemv,
                    kernel: self.kernels.dense_gemv,
                    input: src,
                    weight: WeightRef::Dense(self.fc),
                    output: dst,
                    m: 1,
                    n: self.hidden_size as u32,
                    k: dim as u32,
                },
            );
            assert(cb@ =~= shown + Seq::new((i + 1) as nat, |i: int| self.project_cmd(c, base, i)));
            i = i + 1;
        }
        if c.eff > 0 {
            cb.op(
                DeviceOp::RmsNorm {
                    kernel: self.kernels.rms_norm,
                    input: self.scratch.fc_proj,
                    weight: self.hidden_norm,
                    output: self.scratch.fc_proj,
                    rows: c.eff as u32,
                    dim: self.hidden_size as u32,
                    eps: self.rms_norm_eps,
                },
            );
        }
        assert(cb@ =~= before + self.context_cmds(c, given));
    }

    /// Position of row `i`: context rows stand at the positions their slots were
    /// captured at, the first noise row at the last token's position, and the masks
    /// after it.
    pub open spec fn position_of(&self, c: DraftContext, position: usize, i: int) -> i32 {
        if i < c.eff {
            (c.start() + i) as i32
        } else if i == c.eff {
            max_int(position - 1, 0) as i32
        } else {
            (position + (i - c.eff - 1)) as i32
        }
    }

    /// Positions of all rows.
    pub open spec fn positions(&self, c: DraftContext, position: usize) -> Seq<i32> {
        Seq::new((c.eff + self.gamma) as nat, |i: int| self.position_of(c, position, i))
    }

    /// Positions of all rows.
    pub fn position_ids(&self, c: DraftContext, position: usize) -> (r: Vec<i32>)
        requires
            self.fits(c, position),
            c.eff <= c.total,
        ensures
            r@ == self.positions(c, position),
    {
        let start: usize = c.total - c.eff;
        let rows: usize = c.eff + self.gamma;
        let mut out: Vec<i32> = Vec::new();
        let mut i: usize = 0;
        while i < rows
            invariant
                i <= rows,
                rows == c.eff + self.gamma,
                c.eff <= c.total,
                start == c.start(),
                self.fits(c, position),
                out@ == self.positions(c, position).take(i as int),
            decreases rows - i,
        {
            let p: i32 = if i < c.eff {
                (start + i) as i32
            } else if i == c.eff {
                if position >= 1 {
                    (position - 1) as i32
                } else {
                    0
                }
            } else {
                (position + (i - c.eff - 1)) as i32
            };
            out.push(p);
            i = i + 1;
            assert(out@ =~= self.positions(c, position).take(i as int));
        }
        assert(out@ =~= self.positions(c, position));
        out
    }

    /// Token of row `i`: nothing for context, the last token first, then masks.
    pub open spec fn token_of(&self, c: DraftContext, last_token: u32, i: int) -> i32 {
        if i < c.eff {
            0
        } else if i == c.eff {
            last_token as i32
        } else {
            self.mask_token_id as i32
        }
    }

    /// Tokens of all rows.
    pub open spec fn tokens(&self, c: DraftContext, last_token: u32) -> Seq<i32> {
        Seq::new((c.eff + self.gamma) as nat, |i: int| self.token_of(c, last_token, i))
    }

    /// Tokens of all rows.
    pub fn token_ids(&self, c: DraftContext, last_token: u32) -> (r: Vec<i32>)
        requires
            c.eff + self.gamma <= usize::MAX,
        ensures
            r@ == self.tokens(c, last_token),
    {
        let rows: usize = c.eff + self.gamma;
        let mut out: Vec<i32> = Vec::new();
        let mut i: usize = 0;
        while i < rows
            invariant
                i <= rows,
                rows == c.eff + self.gamma,
                out@ == self.tokens(c, last_token).take(i as int),
            decreases rows - i,
        {
            let t: i32 = if i < c.eff {
                0
            } else if i == c.eff {
                last_token as i32
            } else {
                self.mask_token_id as i32
            };
            out.push(t);
            i = i + 1;
            assert(out@ =~= self.tokens(c, last_token).take(i as int));
        }
        assert(out@ =~= self.tokens(c, last_token));
        out
    }

    /// Clearing of the context rows.
    pub open spec fn clear_context(&self, c: DraftContext) -> Seq<Cmd> {
        if c.eff > 0 {
            seq![
                Cmd::Op(
                    DeviceOp::Memset {
                        dst: self.scratch.stream_buf,
                        value: 0,
                        bytes: (c.eff * self.hidden_size * 2) as usize,
                    },
                ),
            ]
        } else {
            Seq::empty()
        }
    }

    fn record_clear_context(&self, cb: &mut CommandBuffer, c: DraftContext, position: usize)
        requires
            self.fits(c, position),
        ensures
            final(cb)@ == old(cb)@ + self.clear_context(c),
    {
        let ghost before = cb@;
        if c.eff > 0 {
            proof {
                crate::device::lemma_row_bound(
                    c.eff as int,
                    c.eff + self.gamma,
                    self.hidden_size as int,
                    2,
                );
            }
            cb.op(
                DeviceOp::Memset {
                    dst: self.scratch.stream_buf,
                    value: 0,
                    bytes: c.eff * self.hidden_size * 2,
                },
            );
        }
        assert(cb@ =~= before + self.clear_context(c));
    }

    /// Positions, tokens and embeddings of the block. Embedding writes the rows of
    /// token zero into the context, so the context is cleared again.
    pub open spec fn embed_cmds(
        &self,
        c: DraftContext,
        last_token: u32,
        position: usize,
        pattern: Option<Seq<u8>>,
    ) -> Seq<Cmd> {
        seq![
            Cmd::Upload {
                dst: self.scratch.position_ids,
                bytes: i32s_bytes(self.positions(c, position)),
            },
        ] + self.clear_context(c) + seq![
            Cmd::Upload {
                dst: self.scratch.draft_tokens_dev,
                bytes: i32s_bytes(self.tokens(c, last_token)),
            },
            Cmd::Op(
                DeviceOp::BatchedEmbed {
                    kernel: self.kernels.batched_embed,
                    ids: self.scratch.draft_tokens_dev,
                    table: self.embed_tokens_shared,
                    output: self.scratch.stream_buf,
                    rows: (c.eff + self.gamma) as u32,
                    h: self.hidden_size as u32,
                },
            ),
        ] + self.clear_context(c) + (match pattern {
            Some(bytes) => seq![
                Cmd::Upload {
                    dst: self.scratch.stream_buf.row_at(c.eff as int, self.hidden_size as int, 2),
                    bytes,
                },
            ],
            None => Seq::empty(),
        })
    }

    fn record_embed(
        &self,
        cb: &mut CommandBuffer,
        c: DraftContext,
        last_token: u32,
        position: usize,
        pattern: Option<Vec<u8>>,
    )
        requires
            self.fits(c, position),
            c.eff <= c.total,
        ensures
            final(cb)@ == old(cb)@ + self.embed_cmds(c, last_token, position, bytes_of(pattern)),
    {
        let ghost before = cb@;
        let ghost given = bytes_of(pattern);
        let positions: Vec<i32> = self.position_ids(c, position);
        cb.upload(self.scratch.position_ids, encode_i32s(&positions));
        self.record_clear_context(cb, c, position);
        let tokens: Vec<i32> = self.token_ids(c, last_token);
        cb.upload(self.scratch.draft_tokens_dev, encode_i32s(&tokens));
        cb.op(
            DeviceOp::BatchedEmbed {
                kernel: self.kernels.batched_embed,
                ids: self.scratch.draft_tokens_dev,
                table: self.embed_tokens_shared,
                output: self.scratch.stream_buf,
                rows: (c.eff + self.gamma) as u32,
                h: self.hidden_size as u32,
            },
        );
        self.record_clear_context(cb, c, position);
        if let Some(bytes) = pattern {
            cb.upload(
                self.scratch.stream_buf.row(c.eff, c.eff + self.gamma, self.hidden_size, 2),
                bytes,
            );
        }
        assert(cb@ =~= before + self.embed_cmds(c, last_token, position, given));
    }

    /// One decoder layer.
    pub open spec fn layer_cmd(&self, c: DraftContext, layer: int) -> Cmd {
        Cmd::Op(
            DeviceOp::DraftLayer(
                DraftLayerArgs {
                    layer: layer as usize,
                    n_attn: (c.eff + self.gamma) as u32,
                    eff_ctx: c.eff,
                    h: self.hidden_size as u32,
                    q_dim: (self.num_q_heads * self.head_dim) as u32,
                    kv_dim: (self.num_kv_heads * self.head_dim) as u32,
                    inter: self.intermediate_size as u32,
                    inv_sqrt_d: self.inv_sqrt_d,
                },
            ),
        )
    }

    /// All decoder layers.
    pub open spec fn layer_cmds(&self, c: DraftContext) -> Seq<Cmd> {
        Seq::new(self.num_layers as nat, |l: int| self.layer_cmd(c, l))
    }

    fn record_layers(&self, cb: &mut CommandBuffer, c: DraftContext, position: usize)
        requires
            self.fits(c, position),
        ensures
            final(cb)@ == old(cb)@ + self.layer_cmds(c),
    {
        let ghost before = cb@;
        let mut l: usize = 0;
        assert(cb@ =~= before + self.layer_cmds(c).take(0));
        while l < self.num_layers
            invariant
                l <= self.num_layers,
                self.fits(c, position),
                cb@ == before + self.layer_cmds(c).take(l as int),
            decreases self.num_layers - l,
        {
            cb.op(
                DeviceOp::DraftLayer(
                    DraftLayerArgs {
                        layer: l,
                        n_attn: (c.eff + self.gamma) as u32,
                        eff_ctx: c.eff,
                        h: self.hidden_size as u32,
                        q_dim: (self.num_q_heads * self.head_dim) as u32,
                        kv_dim: (self.num_kv_heads * self.head_dim) as u32,
                        inter: self.intermediate_size as u32,
                        inv_sqrt_d: self.inv_sqrt_d,
                    },
                ),
            );
            assert(cb@ =~= before + self.layer_cmds(c).take(l + 1));
            l = l + 1;
        }
        assert(self.layer_cmds(c).take(l as int) =~= self.layer_cmds(c));
    }

    /// Final norm and logits of the noise rows. Context rows are skipped.
    pub open spec fn head_cmds(&self, c: DraftContext) -> Seq<Cmd> {
        let s = self.scratch;
        let noise = s.stream_buf.row_at(c.eff as int, self.hidden_size as int, 2);
        let normed = s.norm_buf.row_at(c.eff as int, self.hidden_size as int, 2);
        seq![
            Cmd::Op(DeviceOp::RmsNorm { kernel: self.kernels.rms_norm, input: noise,
                weight: self.norm, output: normed, rows: self.gamma as u32,
                dim: self.hidden_size as u32, eps: self.rms_norm_eps }),
        ] + (match self.lm_head_nvfp4 {
            Some(w) => {
                seq![
                    Cmd::Op(DeviceOp::Matmul { kind: MatmulKind::W4a16Gemm,
                        kernel: self.kernels.w4a16_gemm, input: normed,
                        weight: WeightRef::Quantized(w), output: s.logits, m: self.gamma as u32,
                        n: self.vocab_size as u32, k: self.hidden_size as u32 }),
                ]
            },
            None => {
                seq![
                    Cmd::Op(DeviceOp::Matmul { kind: MatmulKind::DenseGemm,
                        kernel: self.kernels.dense_gemm, input: normed,
                        weight: WeightRef::Dense(DenseWeight { weight: self.lm_head_shared }),
                        output: s.logits, m: self.gamma as u32, n: self.vocab_size as u32,
                        k: self.hidden_size as u32 }),
                ]
            },
        })
    }

    fn record_head(&self, cb: &mut CommandBuffer, c: DraftContext, position: usize)
        requires
            self.fits(c, position),
        ensures
            final(cb)@ == old(cb)@ + self.head_cmds(c),
    {
        let ghost before = cb@;
        let s: DraftScratch = self.scratch;
        let noise: DevicePtr = s.stream_buf.row(c.eff, c.eff + self.gamma, self.hidden_size, 2);
        let normed: DevicePtr = s.norm_buf.row(c.eff, c.eff + self.gamma, self.hidden_size, 2);
        cb.op(DeviceOp::RmsNorm { kernel: self.kernels.rms_norm, input: noise, weight: self.norm,
            output: normed, rows: self.gamma as u32, dim: self.hidden_size as u32,
            eps: self.rms_norm_eps });
        match self.lm_head_nvfp4 {
            Some(w) => {
                cb.op(DeviceOp::Matmul { kind: MatmulKind::W4a16Gemm,
                    kernel: self.kernels.w4a16_gemm, input: normed,
                    weight: WeightRef::Quantized(w), output: s.logits, m: self.gamma as u32,
                    n: self.vocab_size as u32, k: self.hidden_size as u32 });
            },
            None => {
                cb.op(DeviceOp::Matmul { kind: MatmulKind::DenseGemm,
                    kernel: self.kernels.dense_gemm, input: normed,
                    weight: WeightRef::Dense(DenseWeight { weight: self.lm_head_shared }),
                    output: s.logits, m: self.gamma as u32, n: self.vocab_size as u32,
                    k: self.hidden_size as u32 });
            },
        }
        assert(cb@ =~= before + self.head_cmds(c));
    }

    /// Choice of draft `i`, from the logits of noise row `i + 1`.
    pub open spec fn argmax_cmd(&self, i: int) -> Cmd {
        Cmd::Op(
            DeviceOp::ArgmaxBf16 {
                kernel: self.kernels.argmax,
                logits: self.scratch.logits.row_at(i + 1, self.vocab_size as int, 2),
                out: self.scratch.draft_tokens_dev.row_at(i, 1, 4),
                n: self.vocab_size as u32,
            },
        )
    }

    /// Choices of all drafts. The first noise row holds a known token and gives none.
    pub open spec fn argmax_cmds(&self) -> Seq<Cmd> {
        Seq::new((self.gamma - 1) as nat, |i: int| self.argmax_cmd(i))
    }

    fn record_argmax(&self, cb: &mut CommandBuffer, c: DraftContext, position: usize)
        requires
            self.fits(c, position),
        ensures
            final(cb)@ == old(cb)@ + self.argmax_cmds(),
    {
        let ghost before = cb@;
        let mut i: usize = 1;
        assert(cb@ =~= before + self.argmax_cmds().take(0));
        while i < self.gamma
            invariant
                1 <= i <= self.gamma,
                self.fits(c, position),
                cb@ == before + self.argmax_cmds().take(i - 1),
            decreases self.gamma - i,
        {
            let row: DevicePtr = self.scratch.logits.row(i, self.gamma, self.vocab_size, 2);
            let slot: DevicePtr = self.scratch.draft_tokens_dev.row(i - 1, self.gamma, 1, 4);
            cb.op(
                DeviceOp::ArgmaxBf16 {
                    kernel: self.kernels.argmax,
                    logits: row,
                    out: slot,
                    n: self.vocab_size as u32,
                },
            );
            assert(cb@ =~= before + self.argmax_cmds().take(i as int));
            i = i + 1;
        }
        assert(self.argmax_cmds().take(i - 1) =~= self.argmax_cmds());
    }

    /// Everything that one block runs.
    pub open spec fn block_cmds(
        &self,
        c: DraftContext,
        last_token: u32,
        position: usize,
        ctx_pattern: Option<Seq<u8>>,
        noise_pattern: Option<Seq<u8>>,
    ) -> Seq<Cmd> {
        self.context_cmds(c, ctx_pattern) + self.embed_cmds(c, last_token, position, noise_pattern)
            + self.layer_cmds(c) + self.head_cmds(c) + self.argmax_cmds() + seq![
            Cmd::Op(DeviceOp::Synchronize),
        ]
    }

    /// Records one block after `last_token`, the token before `position`. The drafts
    /// are then read back from the token scratch (see [`decode_drafts`]). A pattern
    /// takes the place of captured context or of embeddings where the environment
    /// asks for it.
    pub fn forward_block(
        &self,
        cb: &mut CommandBuffer,
        last_token: u32,
        position: usize,
        env: &EnvVars,
        ctx_buffer: Option<(DevicePtr, usize)>,
        ctx_pattern: Option<Vec<u8>>,
        noise_pattern: Option<Vec<u8>>,
    )
        requires
            self.fits(self.context(env, ctx_buffer), position),
        ensures
            final(cb)@ == old(cb)@ + self.block_cmds(
                self.context(env, ctx_buffer),
                last_token,
                position,
                forced(env, CTX_PATTERN@, bytes_of(ctx_pattern)),
                forced(env, NOISE_PATTERN@, bytes_of(noise_pattern)),
            ),
    {
        let ghost before = cb@;
        let ghost cp = forced(env, CTX_PATTERN@, bytes_of(ctx_pattern));
        let ghost np = forced(env, NOISE_PATTERN@, bytes_of(noise_pattern));
        let c: DraftContext = self.effective_context(env, ctx_buffer);
        let ctx_forced: Option<Vec<u8>> = if env.is(CTX_PATTERN, "1") {
            ctx_pattern
        } else {
            None
        };
        let noise_forced: Option<Vec<u8>> = if env.is(NOISE_PATTERN, "1") {
            noise_pattern
        } else {
            None
        };
        self.record_context(cb, c, position, ctx_forced);
        self.record_embed(cb, c, last_token, position, noise_forced);
        self.record_layers(cb, c, position);
        self.record_head(cb, c, position);
        self.record_argmax(cb, c, position);
        cb.op(DeviceOp::Synchronize);
        proof {
            let a = self.context_cmds(c, cp);
            let b = self.embed_cmds(c, last_token, position, np);
            let l = self.layer_cmds(c);
            let h = self.head_cmds(c);
            let x = self.argmax_cmds();
            lemma_six(before, a, b, l, h, x, Cmd::Op(DeviceOp::Synchronize));
        }
    }

    /// Bytes of the drafts that are read back.
    pub fn draft_bytes(&self) -> (r: usize)
        requires
            self.gamma >= 1,
            self.gamma * 4 <= usize::MAX,
        ensures
            r == (self.gamma - 1) * 4,
    {
        (self.gamma - 1) * 4
    }
}

proof fn lemma_six(o: Seq<Cmd>, a: Seq<Cmd>, b: Seq<Cmd>, l: Seq<Cmd>, h: Seq<Cmd>, x: Seq<Cmd>, s: Cmd)
    ensures
        (o + a + b + l + h + x).push(s) == o + (a + b + l + h + x + seq![s]),
{
    assert((o + a + b + l + h + x).push(s) =~= o + (a + b + l + h + x + seq![s]));
}

/// Content of an optional pattern.
pub open spec fn bytes_of(pattern: Option<Vec<u8>>) -> Option<Seq<u8>> {
    match pattern {
        Some(b) => Some(b@),
        None => None,
    }
}

/// A pattern, where the environment sets `name` to ask for it.
pub open spec fn forced(env: &EnvVars, name: Seq<char>, pattern: Option<Seq<u8>>) -> Option<
    Seq<u8>,
> {
    if env.says(name, "1"@) {
        pattern
    } else {
        None
    }
}

/// Tokens that were read back, four bytes each.
pub fn decode_drafts(bytes: &Vec<u8>) -> (r: Vec<u32>)
    ensures
        r@.len() == bytes@.len() / 4,
        forall|i: int| 0 <= i < r@.len() ==> #[trigger] r@[i] == le_u32(bytes@, 4 * i),
{
    let n: usize = bytes.len() / 4;
    let mut out: Vec<u32> = Vec::new();
    let mut i: usize = 0;
    while i < n
        invariant
            i <= n,
            n == bytes@.len() / 4,
            bytes@.len() <= usize::MAX,
            out@.len() == i,
            forall|j: int| 0 <= j < i ==> #[trigger] out@[j] == le_u32(bytes@, 4 * j),
        decreases n - i,
    {
        out.push(read_u32(bytes.as_slice(), 4 * i));
        i = i + 1;
    }
    out
}

/// The last used context slot is the most recent one, and slots keep the
/// positions that they were captured at.
pub proof fn law_context_keeps_positions(
    head: &BlockDiffusionDraftHead,
    c: DraftContext,
    position: usize,
    i: int,
)
    requires
        c.eff <= c.total <= i32::MAX,
        0 <= i < c.eff,
    ensures
        head.positions(c, position)[i] == c.total - c.eff + i,
        head.positions(c, position)[c.eff - 1] == c.total - 1,
{
}

/// Noise rows stand one after the other from the last token's position on.
pub proof fn law_noise_positions_are_consecutive(
    head: &BlockDiffusionDraftHead,
    c: DraftContext,
    position: usize,
    i: int,
)
    requires
        position >= 1,
        position + head.gamma <= i32::MAX,
        0 <= i < head.gamma,
    ensures
        head.positions(c, position)[c.eff + i] == position - 1 + i,
{
}

/// Two stretches of memory do not overlap.
pub open spec fn disjoint(p: DevicePtr, len_p: int, q: DevicePtr, len_q: int) -> bool {
    p.0 + len_p <= q.0 || q.0 + len_q <= p.0
}

impl BlockDiffusionDraftHead {
    /// Counts fit their kernel arguments, rows have values, and the parts of the scratch
    /// do not overlap.
    pub open spec fn scratch_apart(&self, c: DraftContext) -> bool {
        let s = self.scratch;
        let rows = c.eff + self.gamma;
        let wide = rows * self.hidden_size * 2;
        let logits = self.gamma * self.vocab_size * 2;
        &&& rows <= u32::MAX
        &&& 0 < self.hidden_size <= u32::MAX
        &&& 0 < self.vocab_size <= u32::MAX
        &&& s.draft_tokens_dev.0 + 4 * rows <= u64::MAX
        &&& disjoint(s.stream_buf, wide, s.norm_buf, wide)
        &&& disjoint(s.stream_buf, wide, s.draft_tokens_dev, 4 * rows)
        &&& disjoint(s.stream_buf, wide, s.position_ids, 4 * rows)
        &&& disjoint(s.draft_tokens_dev, 4 * rows, s.position_ids, 4 * rows)
        &&& disjoint(s.draft_tokens_dev, 4 * rows, s.logits, logits)
    }

    /// Where the back end finds the rows and positions of this head.
    pub open spec fn places(&self, p: Places) -> bool {
        p.draft_rows == self.scratch.stream_buf && p.draft_positions == self.scratch.position_ids
    }

    /// What layer `n` and those before it make of `x`, a row whose position is `at`.
    pub open spec fn through_layers(&self, c: DraftContext, x: Held, at: Held, n: nat) -> Held
        decreases n,
    {
        if n == 0 {
            x
        } else {
            Held::Drafted {
                row: Box::new(self.through_layers(c, x, at, (n - 1) as nat)),
                position: Box::new(at),
                args: DraftLayerArgs {
                    layer: (n - 1) as usize,
                    n_attn: (c.eff + self.gamma) as u32,
                    eff_ctx: c.eff,
                    h: self.hidden_size as u32,
                    q_dim: (self.num_q_heads * self.head_dim) as u32,
                    kv_dim: (self.num_kv_heads * self.head_dim) as u32,
                    inter: self.intermediate_size as u32,
                    inv_sqrt_d: self.inv_sqrt_d,
                },
            }
        }
    }

    /// The head's projection to the vocabulary.
    pub open spec fn head_weight(&self) -> WeightRef {
        match self.lm_head_nvfp4 {
            Some(w) => WeightRef::Quantized(w),
            None => WeightRef::Dense(DenseWeight { weight: self.lm_head_shared }),
        }
    }
}

/// Word that host bytes hold.
pub open spec fn word(v: Held) -> Option<int> {
    match v {
        Held::Host { bytes, from } => if from + 4 <= bytes.len() {
            Some(le_u32(bytes, from))
        } else {
            None
        },
        _ => None,
    }
}

/// Row `r` of the stream.
spec fn stream_row(h: &BlockDiffusionDraftHead, m: Memory, r: int) -> Held {
    m.row(h.scratch.stream_buf, r, 2 * h.hidden_size)
}

spec fn position_row(h: &BlockDiffusionDraftHead, m: Memory, r: int) -> Held {
    m.row(h.scratch.position_ids, r, 4)
}

/// Rows behind the context, each in its own place.
proof fn lemma_noise_row(h: &BlockDiffusionDraftHead, c: DraftContext, r: int)
    requires
        h.scratch_apart(c),
        c.eff <= r < c.eff + h.gamma,
    ensures
        c.eff * h.hidden_size * 2 <= r * (2 * h.hidden_size),
        r * (2 * h.hidden_size) < (c.eff + h.gamma) * h.hidden_size * 2,
        r * (2 * h.hidden_size) + 2 * h.hidden_size <= (c.eff + h.gamma) * h.hidden_size * 2,
        (c.eff + h.gamma) * (2 * h.hidden_size) == (c.eff + h.gamma) * h.hidden_size * 2,
{
    let (e, g, w) = (c.eff as int, c.eff + h.gamma, h.hidden_size as int);
    assert(e * w * 2 <= r * (2 * w) && r * (2 * w) < g * w * 2 && r * (2 * w) + 2 * w <= g * w * 2
        && g * (2 * w) == g * w * 2) by (nonlinear_arith)
        requires
            0 <= e <= r < g,
            w > 0,
    ;
}

/// A noise row before the layers: the embedding of its token, or the pattern in its
/// place.
pub open spec fn noise_row(
    h: &BlockDiffusionDraftHead,
    c: DraftContext,
    token: Held,
    pattern: Option<Seq<u8>>,
    r: int,
) -> Held {
    let from = (r - c.eff) * (2 * h.hidden_size);
    match pattern {
        Some(bytes) => if from < bytes.len() {
            Held::Host { bytes, from }
        } else {
            Held::Embedded {
                token: Box::new(token),
                table: h.embed_tokens_shared,
                h: h.hidden_size as u32,
            }
        },
        None => Held::Embedded {
            token: Box::new(token),
            table: h.embed_tokens_shared,
            h: h.hidden_size as u32,
        },
    }
}

proof fn lemma_cleared(h: &BlockDiffusionDraftHead, c: DraftContext, position: usize, places: Places, m: Memory)
    requires
        h.fits(c, position),
        h.scratch_apart(c),
    ensures
        run(places, m, h.clear_context(c)) matches Some(v) && forall|a: int|
            a < h.scratch.stream_buf.0 || a >= h.scratch.stream_buf.0 + c.eff * h.hidden_size * 2
                ==> #[trigger] (v.at)(a) == (m.at)(a),
{
    reveal(after_op);
    crate::device::lemma_row_bound(c.eff as int, c.eff + h.gamma, h.hidden_size as int, 2);
    if c.eff > 0 {
        lemma_run_one(places, m, h.clear_context(c)[0]);
        assert(h.clear_context(c) =~= seq![h.clear_context(c)[0]]);
    }
}

#[verifier::rlimit(50)]
proof fn lemma_embedded(
    h: &BlockDiffusionDraftHead,
    c: DraftContext,
    last_token: u32,
    position: usize,
    pattern: Option<Seq<u8>>,
    places: Places,
    m: Memory,
)
    requires
        h.fits(c, position),
        h.scratch_apart(c),
        pattern matches Some(b) ==> b.len() <= h.gamma * h.hidden_size * 2,
    ensures
        run(places, m, h.embed_cmds(c, last_token, position, pattern)) matches Some(v) && (forall|
            r: int,
        |
            c.eff <= r < c.eff + h.gamma ==> #[trigger] stream_row(h, v, r) == noise_row(
                h,
                c,
                Held::Host { bytes: i32s_bytes(h.tokens(c, last_token)), from: r * 4 },
                pattern,
                r,
            ) && position_row(h, v, r) == (Held::Host {
                bytes: i32s_bytes(h.positions(c, position)),
                from: r * 4,
            })),
{
    reveal(after_op);
    let s = h.scratch;
    let rows = c.eff + h.gamma;
    let w = h.hidden_size as int;
    let pos = i32s_bytes(h.positions(c, position));
    let tok = i32s_bytes(h.tokens(c, last_token));
    crate::num::lemma_i32s_len(h.positions(c, position));
    crate::num::lemma_i32s_len(h.tokens(c, last_token));
    let c1 = Cmd::Upload { dst: s.position_ids, bytes: pos };
    let c2 = Cmd::Upload { dst: s.draft_tokens_dev, bytes: tok };
    let c3 = Cmd::Op(
        DeviceOp::BatchedEmbed {
            kernel: h.kernels.batched_embed,
            ids: s.draft_tokens_dev,
            table: h.embed_tokens_shared,
            output: s.stream_buf,
            rows: rows as u32,
            h: h.hidden_size as u32,
        },
    );
    let clear = h.clear_context(c);
    let patch = match pattern {
        Some(bytes) => seq![
            Cmd::Upload { dst: s.stream_buf.row_at(c.eff as int, w, 2), bytes },
        ],
        None => Seq::empty(),
    };
    assert(h.embed_cmds(c, last_token, position, pattern) =~= seq![c1] + clear + seq![c2, c3] + clear
        + patch);
    lemma_run_add(places, m, seq![c1] + clear + seq![c2, c3] + clear, patch);
    lemma_run_add(places, m, seq![c1] + clear + seq![c2, c3], clear);
    lemma_run_add(places, m, seq![c1] + clear, seq![c2, c3]);
    lemma_run_add(places, m, seq![c1], clear);
    lemma_run_one(places, m, c1);
    let m1 = after(places, m, c1)->0;
    lemma_cleared(h, c, position, places, m1);
    let m2 = run(places, m1, clear)->0;
    lemma_run_two(places, m2, c2, c3);
    let m3 = after(places, m2, c2)->0;
    let m4 = after(places, m3, c3)->0;
    lemma_cleared(h, c, position, places, m4);
    let m5 = run(places, m4, clear)->0;
    crate::device::lemma_row_bound(c.eff as int, rows, w, 2);
    if pattern is Some {
        lemma_run_one(places, m5, patch[0]);
        assert(patch =~= seq![patch[0]]);
    } else {
        assert(run(places, m5, patch) == Some(m5));
    }
    let v = run(places, m5, patch)->0;
    assert(rows * (2 * w) == rows * w * 2) by (nonlinear_arith);
    assert forall|r: int| c.eff <= r < rows implies #[trigger] stream_row(h, v, r) == noise_row(
        h,
        c,
        Held::Host { bytes: tok, from: r * 4 },
        pattern,
        r,
    ) && position_row(h, v, r) == (Held::Host { bytes: pos, from: r * 4 }) by {
        lemma_noise_row(h, c, r);
        let a = s.stream_buf.0 + r * (2 * w);
        let p = s.position_ids.0 + r * 4;
        let t = s.draft_tokens_dev.0 + r * 4;
        lemma_row_hit(s.stream_buf.0 as int, 2 * w, 2 * w, rows, r);
        lemma_row_miss(p, s.stream_buf.0 as int, 2 * w, 2 * w, rows);
        assert((m1.at)(p) == Held::Host { bytes: pos, from: r * 4 });
        assert((m2.at)(p) == (m1.at)(p));
        assert((m3.at)(p) == (m1.at)(p));
        assert((m4.at)(p) == (m1.at)(p));
        assert((m5.at)(p) == (m1.at)(p));
        assert((m3.at)(t) == Held::Host { bytes: tok, from: r * 4 });
        assert((m4.at)(a) == Held::Embedded {
            token: Box::new(Held::Host { bytes: tok, from: r * 4 }),
            table: h.embed_tokens_shared,
            h: h.hidden_size as u32,
        });
        assert((m5.at)(a) == (m4.at)(a));
        assert((r - c.eff) * (2 * w) == r * (2 * w) - c.eff * w * 2) by (nonlinear_arith);
        assert(c.eff * w * 2 + h.gamma * w * 2 == rows * w * 2) by (nonlinear_arith)
            requires
                rows == c.eff + h.gamma,
        ;
    }
}

#[verifier::rlimit(50)]
proof fn lemma_layered(
    h: &BlockDiffusionDraftHead,
    c: DraftContext,
    places: Places,
    m: Memory,
    n: nat,
)
    requires
        h.scratch_apart(c),
        h.places(places),
        n <= h.num_layers,
    ensures
        run(places, m, h.layer_cmds(c).take(n as int)) matches Some(v) && forall|r: int|
            c.eff <= r < c.eff + h.gamma ==> #[trigger] stream_row(h, v, r) == h.through_layers(
                c,
                stream_row(h, m, r),
                position_row(h, m, r),
                n,
            ) && position_row(h, v, r) == position_row(h, m, r),
    decreases n,
{
    reveal(after_op);
    let all = h.layer_cmds(c);
    let rows = c.eff + h.gamma;
    let w = h.hidden_size as int;
    if n == 0 {
        assert(all.take(0) =~= Seq::<Cmd>::empty());
        assert(run(places, m, all.take(0)) == Some(m));
    } else {
        let k = (n - 1) as nat;
        lemma_layered(h, c, places, m, k);
        let u = run(places, m, all.take(k as int))->0;
        assert(all.take(n as int) =~= all.take(k as int).push(all[k as int]));
        lemma_run_push(places, m, all.take(k as int), all[k as int]);
        assert(all[k as int] == h.layer_cmd(c, k as int));
        let v = after(places, u, all[k as int])->0;
        assert forall|r: int| c.eff <= r < rows implies #[trigger] stream_row(h, v, r)
            == h.through_layers(c, stream_row(h, m, r), position_row(h, m, r), n) && position_row(
            h,
            v,
            r,
        ) == position_row(h, m, r) by {
            lemma_noise_row(h, c, r);
            assert(stream_row(h, u, r) == h.through_layers(
                c,
                stream_row(h, m, r),
                position_row(h, m, r),
                k,
            ));
            lemma_row_hit(h.scratch.stream_buf.0 as int, 2 * w, 2 * w, rows, r);
            assert(rows * (2 * w) == rows * w * 2) by (nonlinear_arith);
            lemma_row_miss(
                h.scratch.position_ids.0 + r * 4,
                h.scratch.stream_buf.0 as int,
                2 * w,
                2 * w,
                rows,
            );
        }
    }
}

spec fn logits_row(h: &BlockDiffusionDraftHead, m: Memory, r: int) -> Held {
    m.row(h.scratch.logits, r, 2 * h.vocab_size)
}

#[verifier::rlimit(50)]
proof fn lemma_headed(
    h: &BlockDiffusionDraftHead,
    c: DraftContext,
    position: usize,
    places: Places,
    m: Memory,
)
    requires
        h.fits(c, position),
        h.scratch_apart(c),
    ensures
        run(places, m, h.head_cmds(c)) matches Some(v) && forall|r: int|
            0 <= r < h.gamma ==> #[trigger] logits_row(h, v, r) == (Held::Product {
                row: Box::new(
                    Held::Normed {
                        row: Box::new(stream_row(h, m, c.eff + r)),
                        weight: h.norm,
                        eps: h.rms_norm_eps,
                        dim: h.hidden_size as u32,
                    },
                ),
                weight: h.head_weight(),
                n: h.vocab_size as u32,
                k: h.hidden_size as u32,
            }),
{
    reveal(after_op);
    let s = h.scratch;
    let w = h.hidden_size as int;
    let cmds = h.head_cmds(c);
    assert(cmds =~= seq![cmds[0], cmds[1]]);
    lemma_run_two(places, m, cmds[0], cmds[1]);
    let m1 = after(places, m, cmds[0])->0;
    let v = after(places, m1, cmds[1])->0;
    crate::device::lemma_row_bound(c.eff as int, c.eff + h.gamma, w, 2);
    let noise = s.stream_buf.0 + c.eff * w * 2;
    let normed = s.norm_buf.0 + c.eff * w * 2;
    assert forall|r: int| 0 <= r < h.gamma implies #[trigger] logits_row(h, v, r) == (Held::Product {
        row: Box::new(
            Held::Normed {
                row: Box::new(stream_row(h, m, c.eff + r)),
                weight: h.norm,
                eps: h.rms_norm_eps,
                dim: h.hidden_size as u32,
            },
        ),
        weight: h.head_weight(),
        n: h.vocab_size as u32,
        k: h.hidden_size as u32,
    }) by {
        assert(c.eff * w * 2 + r * (2 * w) == (c.eff + r) * (2 * w)) by (nonlinear_arith);
        lemma_row_hit(normed, 2 * w, 2 * w, h.gamma as int, r);
        lemma_row_hit(s.logits.0 as int, 2 * h.vocab_size, 2 * h.vocab_size, h.gamma as int, r);
        assert((m1.at)(normed + r * (2 * w)) == Held::Normed {
            row: Box::new((m.at)(noise + r * (2 * w))),
            weight: h.norm,
            eps: h.rms_norm_eps,
            dim: h.hidden_size as u32,
        });
    }
}

#[verifier::rlimit(50)]
proof fn lemma_chosen(
    h: &BlockDiffusionDraftHead,
    c: DraftContext,
    position: usize,
    places: Places,
    m: Memory,
    n: nat,
)
    requires
        h.fits(c, position),
        h.scratch_apart(c),
        n <= h.gamma - 1,
    ensures
        run(places, m, h.argmax_cmds().take(n as int)) matches Some(v) && (forall|j: int|
            0 <= j < n ==> #[trigger] v.row(h.scratch.draft_tokens_dev, j, 4) == (Held::Largest {
                of: Box::new(logits_row(h, m, j + 1)),
                n: h.vocab_size as u32,
            })) && (forall|r: int|
            0 <= r < h.gamma ==> #[trigger] logits_row(h, v, r) == logits_row(h, m, r)),
    decreases n,
{
    reveal(after_op);
    let all = h.argmax_cmds();
    let s = h.scratch;
    if n == 0 {
        assert(all.take(0) =~= Seq::<Cmd>::empty());
        assert(run(places, m, all.take(0)) == Some(m));
    } else {
        let k = (n - 1) as nat;
        lemma_chosen(h, c, position, places, m, k);
        let u = run(places, m, all.take(k as int))->0;
        assert(all.take(n as int) =~= all.take(k as int).push(all[k as int]));
        lemma_run_push(places, m, all.take(k as int), all[k as int]);
        assert(all[k as int] == h.argmax_cmd(k as int));
        let v = after(places, u, all[k as int])->0;
        crate::device::lemma_row_bound((k + 1) as int, h.gamma as int, h.vocab_size as int, 2);
        crate::device::lemma_row_bound(k as int, h.gamma as int, 1, 4);
        assert((k + 1) * h.vocab_size * 2 == (k + 1) * (2 * h.vocab_size)) by (nonlinear_arith);
        assert(logits_row(h, u, n as int) == logits_row(h, m, n as int));
        let t = s.draft_tokens_dev;
        assert(t.row_at(k as int, 1, 4).0 == t.0 + k * 4);
        assert(s.logits.row_at(n as int, h.vocab_size as int, 2).0 == s.logits.0 + n * (2
            * h.vocab_size));
        assert(v.row(t, k as int, 4) == Held::Largest {
            of: Box::new(logits_row(h, m, n as int)),
            n: h.vocab_size as u32,
        });
        assert forall|j: int| 0 <= j < n implies #[trigger] v.row(t, j, 4) == (Held::Largest {
            of: Box::new(logits_row(h, m, j + 1)),
            n: h.vocab_size as u32,
        }) by {
            if j < k {
                assert(u.row(t, j, 4) == Held::Largest {
                    of: Box::new(logits_row(h, m, j + 1)),
                    n: h.vocab_size as u32,
                });
            }
        }
        assert forall|r: int| 0 <= r < h.gamma implies #[trigger] logits_row(h, v, r) == logits_row(
            h,
            m,
            r,
        ) by {
            assert(logits_row(h, u, r) == logits_row(h, m, r));
            let (g, w) = (h.gamma as int, h.vocab_size as int);
            assert(0 <= r * (2 * w) < g * w * 2) by (nonlinear_arith)
                requires
                    0 <= r < g,
                    w > 0,
            ;
        }
    }
}

proof fn lemma_context_runs(
    h: &BlockDiffusionDraftHead,
    c: DraftContext,
    pattern: Option<Seq<u8>>,
    places: Places,
    m: Memory,
)
    ensures
        run(places, m, h.context_cmds(c, pattern)) is Some,
{
    let all = h.context_cmds(c, pattern);
    if let Some(base) = c.base {
        let projections = Seq::new(c.eff as nat, |i: int| h.project_cmd(c, base, i));
        assert forall|i: int| 0 <= i < all.len() implies always_runs(#[trigger] all[i]) by {
            let first = all.len() - projections.len() - (if c.eff > 0 {
                1int
            } else {
                0int
            });
            if first <= i < first + projections.len() {
                assert(all[i] == projections[i - first]);
            }
        }
    }
    lemma_always_runs(places, m, all);
}

/// Draft `j` is the head's choice at the row of the `j`-th mask: its logits come from the
/// row whose uploaded token is a mask and whose uploaded position is `position + j`, after
/// all layers in their order and the final norm. The row of the last token, which is
/// known, is chosen from by no draft.
#[verifier::rlimit(50)]
pub proof fn law_drafts_are_choices_at_masks(
    h: &BlockDiffusionDraftHead,
    c: DraftContext,
    last_token: u32,
    position: usize,
    ctx_pattern: Option<Seq<u8>>,
    noise_pattern: Option<Seq<u8>>,
    places: Places,
    m: Memory,
    j: int,
)
    requires
        h.fits(c, position),
        h.scratch_apart(c),
        h.places(places),
        noise_pattern matches Some(b) ==> b.len() <= h.gamma * h.hidden_size * 2,
        position + h.gamma <= i32::MAX,
        0 <= j < h.gamma - 1,
    ensures
        run(
            places,
            m,
            h.block_cmds(c, last_token, position, ctx_pattern, noise_pattern),
        ) matches Some(v) && exists|token: Held, at: Held|
            {
                &&& #[trigger] word(token) == Some(h.mask_token_id as int)
                &&& #[trigger] word(at) == Some(position + j)
                &&& v.row(h.scratch.draft_tokens_dev, j, 4) == (Held::Largest {
                    of: Box::new(
                        Held::Product {
                            row: Box::new(
                                Held::Normed {
                                    row: Box::new(
                                        h.through_layers(
                                            c,
                                            noise_row(h, c, token, noise_pattern, c.eff + 1 + j),
                                            at,
                                            h.num_layers as nat,
                                        ),
                                    ),
                                    weight: h.norm,
                                    eps: h.rms_norm_eps,
                                    dim: h.hidden_size as u32,
                                },
                            ),
                            weight: h.head_weight(),
                            n: h.vocab_size as u32,
                            k: h.hidden_size as u32,
                        },
                    ),
                    n: h.vocab_size as u32,
                })
            },
{
    reveal(after_op);
    let a = h.context_cmds(c, ctx_pattern);
    let b = h.embed_cmds(c, last_token, position, noise_pattern);
    let l = h.layer_cmds(c);
    let d = h.head_cmds(c);
    let x = h.argmax_cmds();
    let e = seq![Cmd::Op(DeviceOp::Synchronize)];
    lemma_run_add(places, m, a + b + l + d + x, e);
    lemma_run_add(places, m, a + b + l + d, x);
    lemma_run_add(places, m, a + b + l, d);
    lemma_run_add(places, m, a + b, l);
    lemma_run_add(places, m, a, b);
    lemma_context_runs(h, c, ctx_pattern, places, m);
    let m1 = run(places, m, a)->0;
    lemma_embedded(h, c, last_token, position, noise_pattern, places, m1);
    let m2 = run(places, m1, b)->0;
    lemma_layered(h, c, places, m2, h.num_layers as nat);
    assert(l.take(h.num_layers as int) =~= l);
    let m3 = run(places, m2, l)->0;
    lemma_headed(h, c, position, places, m3);
    let m4 = run(places, m3, d)->0;
    lemma_chosen(h, c, position, places, m4, (h.gamma - 1) as nat);
    assert(x.take(h.gamma - 1) =~= x);
    let m5 = run(places, m4, x)->0;
    lemma_run_one(places, m5, e[0]);
    let r = c.eff + 1 + j;
    let tokens = h.tokens(c, last_token);
    let positions = h.positions(c, position);
    let token = Held::Host { bytes: i32s_bytes(tokens), from: r * 4 };
    let at = Held::Host { bytes: i32s_bytes(positions), from: r * 4 };
    crate::num::lemma_i32s_word(tokens, r);
    crate::num::lemma_i32s_word(positions, r);
    let mask = h.mask_token_id;
    assert(((mask as i32) as u32) == mask) by (bit_vector);
    assert(word(token) == Some(mask as int));
    assert(word(at) == Some(position + j));
    assert(m5.row(h.scratch.draft_tokens_dev, j, 4) == Held::Largest {
        of: Box::new(logits_row(h, m4, j + 1)),
        n: h.vocab_size as u32,
    });
    assert(logits_row(h, m4, j + 1)->Product_row->Normed_row == Box::new(stream_row(h, m3, r)));
    assert(stream_row(h, m3, r) == h.through_layers(
        c,
        stream_row(h, m2, r),
        position_row(h, m2, r),
        h.num_layers as nat,
    ));
    assert(stream_row(h, m2, r) == noise_row(h, c, token, noise_pattern, r));
    assert(position_row(h, m2, r) == at);
}

/// Slot `i` of those that are used, or the pattern in its place.
pub open spec fn slot_row(
    h: &BlockDiffusionDraftHead,
    c: DraftContext,
    m: Memory,
    pattern: Option<Seq<u8>>,
    base: DevicePtr,
    i: int,
) -> Held {
    match pattern {
        Some(bytes) => if i == 0 && bytes.len() > 0 {
            Held::Host { bytes, from: 0 }
        } else {
            m.row(base, c.total - c.eff + i, 2 * h.slot_dim())
        },
        None => m.row(base, c.total - c.eff + i, 2 * h.slot_dim()),
    }
}

spec fn slot_product(h: &BlockDiffusionDraftHead, row: Held) -> Held {
    Held::Product {
        row: Box::new(row),
        weight: WeightRef::Dense(h.fc),
        n: h.hidden_size as u32,
        k: h.slot_dim() as u32,
    }
}

proof fn lemma_slot_at(h: &BlockDiffusionDraftHead, c: DraftContext, position: usize, base: DevicePtr, i: int)
    requires
        h.fits(c, position),
        c.eff <= c.total,
        c.base == Some(base),
        0 <= i < c.eff,
        h.slot_dim() > 0,
    ensures
        base.row_at(c.start() + i, h.slot_dim(), 2).0 == base.0 + (c.start() + i) * (2 * h.slot_dim()),
        0 <= (c.start() + i) * (2 * h.slot_dim()),
        (c.start() + i) * (2 * h.slot_dim()) + 2 * h.slot_dim() <= c.total * h.slot_dim() * 2,
        h.scratch.fc_proj.row_at(i, h.hidden_size as int, 2).0 == h.scratch.fc_proj.0 + i * (2
            * h.hidden_size),
        0 <= i * (2 * h.hidden_size),
        i * (2 * h.hidden_size) + 2 * h.hidden_size <= (c.eff + h.gamma) * h.hidden_size * 2,
{
    let (t, d) = (c.start() + i, h.slot_dim());
    crate::device::lemma_row_bound(t, c.total as int, d, 2);
    crate::device::lemma_row_bound(i, c.eff + h.gamma, h.hidden_size as int, 2);
    assert(t * d * 2 == t * (2 * d) && t * (2 * d) + 2 * d <= c.total * d * 2 && t * (2 * d) >= 0)
        by (nonlinear_arith)
        requires
            0 <= t < c.total,
            d > 0,
    ;
    let (g, w) = (c.eff + h.gamma, h.hidden_size as int);
    assert(i * w * 2 == i * (2 * w) && 0 <= i * (2 * w) && i * (2 * w) + 2 * w <= g * w * 2)
        by (nonlinear_arith)
        requires
            0 <= i < g,
            w >= 0,
    ;
}

#[verifier::rlimit(50)]
proof fn lemma_projected(
    h: &BlockDiffusionDraftHead,
    c: DraftContext,
    position: usize,
    base: DevicePtr,
    places: Places,
    m: Memory,
    n: nat,
)
    requires
        h.fits(c, position),
        c.eff <= c.total,
        c.base == Some(base),
        n <= c.eff,
        h.slot_dim() > 0,
        0 < h.hidden_size <= u32::MAX,
        disjoint(
            h.scratch.fc_proj,
            (c.eff + h.gamma) * h.hidden_size * 2,
            base,
            c.total * h.slot_dim() * 2,
        ),
    ensures
        run(places, m, Seq::new(n, |i: int| h.project_cmd(c, base, i))) matches Some(v) && (forall|
            i: int,
        |
            0 <= i < n ==> #[trigger] v.row(h.scratch.fc_proj, i, 2 * h.hidden_size) == slot_product(
                h,
                m.row(base, c.start() + i, 2 * h.slot_dim()),
            )) && (forall|i: int|
            0 <= i < c.eff ==> #[trigger] v.row(base, c.start() + i, 2 * h.slot_dim()) == m.row(
                base,
                c.start() + i,
                2 * h.slot_dim(),
            )),
    decreases n,
{
    reveal(after_op);
    let f = |i: int| h.project_cmd(c, base, i);
    let all = Seq::new(n, f);
    let (w, d) = (2 * h.hidden_size, 2 * h.slot_dim());
    let fc = h.scratch.fc_proj;
    if n == 0 {
        assert(all =~= Seq::<Cmd>::empty());
        assert(run(places, m, all) == Some(m));
    } else {
        let k = (n - 1) as nat;
        lemma_projected(h, c, position, base, places, m, k);
        let before = Seq::new(k, f);
        let u = run(places, m, before)->0;
        assert(all =~= before.push(h.project_cmd(c, base, k as int)));
        lemma_run_push(places, m, before, h.project_cmd(c, base, k as int));
        let v = after(places, u, h.project_cmd(c, base, k as int))->0;
        lemma_slot_at(h, c, position, base, k as int);
        assert(u.row(base, c.start() + k, d) == m.row(base, c.start() + k, d));
        assert(v.row(fc, k as int, w) == slot_product(h, m.row(base, c.start() + k, d)));
        assert forall|i: int| 0 <= i < n implies #[trigger] v.row(fc, i, w) == slot_product(
            h,
            m.row(base, c.start() + i, d),
        ) by {
            if i < k {
                lemma_slot_at(h, c, position, base, i);
                assert(u.row(fc, i, w) == slot_product(h, m.row(base, c.start() + i, d)));
                assert(i * w + w <= k * w) by (nonlinear_arith)
                    requires
                        i < k,
                        w > 0,
                ;
                lemma_one_row_miss(fc.0 + i * w, fc.0 + k * w, w, w);
            }
        }
        assert forall|i: int| 0 <= i < c.eff implies #[trigger] v.row(base, c.start() + i, d) == m.row(
            base,
            c.start() + i,
            d,
        ) by {
            lemma_slot_at(h, c, position, base, i);
            assert(u.row(base, c.start() + i, d) == m.row(base, c.start() + i, d));
            lemma_one_row_miss(base.0 + (c.start() + i) * d, fc.0 + k * w, w, w);
        }
    }
}

/// Context row `i` is the norm of the projection of slot `total - eff + i`: the slots that
/// a block sees are the most recent ones, in their order.
#[verifier::rlimit(50)]
pub proof fn law_context_is_the_most_recent_slots(
    h: &BlockDiffusionDraftHead,
    c: DraftContext,
    position: usize,
    base: DevicePtr,
    pattern: Option<Seq<u8>>,
    places: Places,
    m: Memory,
    i: int,
)
    requires
        h.fits(c, position),
        c.eff <= c.total,
        c.eff <= u32::MAX,
        c.base == Some(base),
        0 <= i < c.eff,
        0 < h.slot_dim() <= u32::MAX,
        0 < h.hidden_size <= u32::MAX,
        pattern matches Some(b) ==> b.len() <= 2 * h.slot_dim(),
        disjoint(
            h.scratch.fc_proj,
            (c.eff + h.gamma) * h.hidden_size * 2,
            base,
            c.total * h.slot_dim() * 2,
        ),
    ensures
        run(places, m, h.context_cmds(c, pattern)) matches Some(v) && v.row(
            h.scratch.fc_proj,
            i,
            2 * h.hidden_size,
        ) == (Held::Normed {
            row: Box::new(
                Held::Product {
                    row: Box::new(slot_row(h, c, m, pattern, base, i)),
                    weight: WeightRef::Dense(h.fc),
                    n: h.hidden_size as u32,
                    k: h.slot_dim() as u32,
                },
            ),
            weight: h.hidden_norm,
            eps: h.rms_norm_eps,
            dim: h.hidden_size as u32,
        }),
{
    reveal(after_op);
    let d = 2 * h.slot_dim();
    let patch = match pattern {
        Some(bytes) => seq![Cmd::Upload { dst: base.row_at(c.start(), h.slot_dim(), 2), bytes }],
        None => Seq::empty(),
    };
    let projections = Seq::new(c.eff as nat, |i: int| h.project_cmd(c, base, i));
    let all = h.context_cmds(c, pattern);
    let norm = all.last();
    assert(all =~= patch + projections + seq![norm]);
    lemma_run_add(places, m, patch + projections, seq![norm]);
    lemma_run_add(places, m, patch, projections);
    if pattern is Some {
        assert(patch =~= seq![patch[0]]);
        lemma_run_one(places, m, patch[0]);
    } else {
        assert(run(places, m, patch) == Some(m));
    }
    let m1 = run(places, m, patch)->0;
    lemma_slot_at(h, c, position, base, 0);
    lemma_slot_at(h, c, position, base, i);
    assert(c.start() * d + i * d == (c.start() + i) * d && (i > 0 ==> i * d >= d)) by (nonlinear_arith)
        requires
            i >= 0,
            d > 0,
    ;
    assert(m1.row(base, c.start() + i, d) == slot_row(h, c, m, pattern, base, i));
    lemma_projected(h, c, position, base, places, m1, c.eff as nat);
    let m2 = run(places, m1, projections)->0;
    lemma_run_one(places, m2, norm);
    lemma_row_hit(h.scratch.fc_proj.0 as int, 2 * h.hidden_size, 2 * h.hidden_size, c.eff as int, i);
    assert(m2.row(h.scratch.fc_proj, i, 2 * h.hidden_size) == slot_product(
        h,
        m1.row(base, c.start() + i, d),
    ));
}

} // verus!
