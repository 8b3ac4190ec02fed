//! Blocks of a vision transformer.
use crate::device::{Cmd, CommandBuffer, DevicePtr, Dim3, KernelArg, KernelHandle, KernelLaunch, Launch, Scalar};
use crate::num::{ceil_div, div_ceil_u32};
use vstd::prelude::*;

verus! {

/// Single-precision pattern of the norms' epsilon, one millionth.
pub const NORM_EPS_BITS: u32 = 0x3586_37bd;

/// Kernels of a vision encoder.
#[derive(Debug, Clone, Copy, PartialEq, Eq, Structural)]
pub struct VisionKernels {
    pub gemm: KernelHandle,
    pub gemm_pipelined: KernelHandle,
    pub gemm_f32: KernelHandle,
    pub add_bias: KernelHandle,
    pub copy: KernelHandle,
    pub norm: KernelHandle,
    pub attn: KernelHandle,
    pub add: KernelHandle,
    pub gelu: KernelHandle,
    pub rope_deint: KernelHandle,
    pub softmax: KernelHandle,
    pub scatter_head: KernelHandle,
}

/// Device scratch of a vision encoder.
#[derive(Debug, Clone, Copy, PartialEq, Eq, Structural)]
pub struct VisionBuffers {
    pub h1: DevicePtr,
    pub h2: DevicePtr,
    pub wide: DevicePtr,
    pub rope_cos: DevicePtr,
    pub rope_sin: DevicePtr,
    pub qr: DevicePtr,
    pub kr: DevicePtr,
    pub vt: DevicePtr,
    pub scores: DevicePtr,
    pub probs: DevicePtr,
    pub o_stage: DevicePtr,
}

/// Kernels, scratch and dimensions of a vision encoder.
#[derive(Debug, Clone, Copy, PartialEq, Eq, Structural)]
pub struct VisionEncoder {
    pub kernels: VisionKernels,
    pub bufs: VisionBuffers,
    pub hidden_size: usize,
    pub num_heads: usize,
    pub head_dim: usize,
    pub intermediate_size: usize,
}

/// Weights of one block.
#[derive(Debug, Clone, Copy, PartialEq, Eq, Structural)]
pub struct ViTBlock {
    pub norm1_w: DevicePtr,
    pub norm1_b: DevicePtr,
    pub qkv_w: DevicePtr,
    pub qkv_b: DevicePtr,
    pub proj_w: DevicePtr,
    pub proj_b: DevicePtr,
    pub norm2_w: DevicePtr,
    pub norm2_b: DevicePtr,
    pub fc1_w: DevicePtr,
    pub fc1_b: DevicePtr,
    pub fc2_w: DevicePtr,
    pub fc2_b: DevicePtr,
}

/// `c[m, n] = a[m, k] * b[n, k]` on tensor cores, tiles of 128.
pub open spec fn vision_gemm_pipelined_launch(
    kernel: KernelHandle,
    a: DevicePtr, b: DevicePtr, c: DevicePtr, m: u32, n: u32, k: u32,
) -> Launch {
    Launch {
        kernel,
        grid: Dim3 { x: ceil_div(n as int, 128) as u32, y: ceil_div(m as int, 128) as u32, z: 1 },
        block: Dim3 { x: 256, y: 1, z: 1 },
        shared_mem: 0,
        args: seq![
            KernelArg::Ptr(a), KernelArg::Ptr(b), KernelArg::Ptr(c), KernelArg::U32(m),
            KernelArg::U32(n), KernelArg::U32(k),
        ],
    }
}

/// Records the launch that [`vision_gemm_pipelined_launch`] describes.
pub fn vision_gemm_pipelined(
    cb: &mut CommandBuffer,
    kernel: KernelHandle,
    a: DevicePtr, b: DevicePtr, c: DevicePtr, m: u32, n: u32, k: u32,
)
    ensures
        final(cb)@ == old(cb)@.push(
            Cmd::Launch(
                vision_gemm_pipelined_launch(
                    kernel, a, b, c, m, n, k,
                ),
            ),
        ),
{
    let launch = KernelLaunch {
        kernel,
        grid: Dim3 { x: div_ceil_u32(n, 128), y: div_ceil_u32(m, 128), z: 1 },
        block: Dim3 { x: 256, y: 1, z: 1 },
        shared_mem: 0,
        args: vec![
            KernelArg::Ptr(a), KernelArg::Ptr(b), KernelArg::Ptr(c), KernelArg::U32(m),
            KernelArg::U32(n), KernelArg::U32(k),
        ],
    };
    assert(launch@ =~= vision_gemm_pipelined_launch(
        kernel, a, b, c, m, n, k,
    ));
    cb.launch(launch);
}

/// `c[m, n] += bias[n]`.
pub open spec fn vision_add_bias_launch(
    kernel: KernelHandle,
    c: DevicePtr, bias: DevicePtr, m: u32, n: u32,
) -> Launch {
    Launch {
        kernel,
        grid: Dim3 { x: ceil_div(m * n, 256) as u32, y: 1, z: 1 },
        block: Dim3 { x: 256, y: 1, z: 1 },
        shared_mem: 0,
        args: seq![
            KernelArg::Ptr(c), KernelArg::Ptr(bias), KernelArg::U32(m), KernelArg::U32(n),
        ],
    }
}

/// Records the launch that [`vision_add_bias_launch`] describes.
pub fn vision_add_bias(
    cb: &mut CommandBuffer,
    kernel: KernelHandle,
    c: DevicePtr, bias: DevicePtr, m: u32, n: u32,
)
    requires
        m * n <= u32::MAX,
    ensures
        final(cb)@ == old(cb)@.push(
            Cmd::Launch(
                vision_add_bias_launch(
                    kernel, c, bias, m, n,
                ),
            ),
        ),
{
    let launch = KernelLaunch {
        kernel,
        grid: Dim3 { x: div_ceil_u32(m * n, 256), y: 1, z: 1 },
        block: Dim3 { x: 256, y: 1, z: 1 },
        shared_mem: 0,
        args: vec![
            KernelArg::Ptr(c), KernelArg::Ptr(bias), KernelArg::U32(m), KernelArg::U32(n),
        ],
    };
    assert(launch@ =~= vision_add_bias_launch(
        kernel, c, bias, m, n,
    ));
    cb.launch(launch);
}

/// `c[m, n] = a[m, k] * b[n, k] + bias[n]`, tiles of 32.
pub open spec fn vision_gemm_bias_launch(
    kernel: KernelHandle,
    a: DevicePtr, b: DevicePtr, bias: DevicePtr, c: DevicePtr, m: u32, n: u32, k: u32,
) -> Launch {
    Launch {
        kernel,
        grid: Dim3 { x: ceil_div(n as int, 32) as u32, y: ceil_div(m as int, 32) as u32, z: 1 },
        block: Dim3 { x: 32, y: 32, z: 1 },
        shared_mem: 0,
        args: seq![
            KernelArg::Ptr(a), KernelArg::Ptr(b), KernelArg::Ptr(bias), KernelArg::Ptr(c),
            KernelArg::U32(m), KernelArg::U32(n), KernelArg::U32(k),
        ],
    }
}

/// Records the launch that [`vision_gemm_bias_launch`] describes.
pub fn vision_gemm_bias(
    cb: &mut CommandBuffer,
    kernel: KernelHandle,
    a: DevicePtr, b: DevicePtr, bias: DevicePtr, c: DevicePtr, m: u32, n: u32, k: u32,
)
    ensures
        final(cb)@ == old(cb)@.push(
            Cmd::Launch(
                vision_gemm_bias_launch(
                    kernel, a, b, bias, c, m, n, k,
                ),
            ),
        ),
{
    let launch = KernelLaunch {
        kernel,
        grid: Dim3 { x: div_ceil_u32(n, 32), y: div_ceil_u32(m, 32), z: 1 },
        block: Dim3 { x: 32, y: 32, z: 1 },
        shared_mem: 0,
        args: vec![
            KernelArg::Ptr(a), KernelArg::Ptr(b), KernelArg::Ptr(bias), KernelArg::Ptr(c),
            KernelArg::U32(m), KernelArg::U32(n), KernelArg::U32(k),
        ],
    };
    assert(launch@ =~= vision_gemm_bias_launch(
        kernel, a, b, bias, c, m, n, k,
    ));
    cb.launch(launch);
}

/// Copies or adds `n` values of one buffer and another.
pub open spec fn vision_pairwise_launch(
    kernel: KernelHandle,
    a: DevicePtr, b: DevicePtr, n: u32,
) -> Launch {
    Launch {
        kernel,
        grid: Dim3 { x: ceil_div(n as int, 256) as u32, y: 1, z: 1 },
        block: Dim3 { x: 256, y: 1, z: 1 },
        shared_mem: 0,
        args: seq![
            KernelArg::Ptr(a), KernelArg::Ptr(b), KernelArg::U32(n),
        ],
    }
}

/// Records the launch that [`vision_pairwise_launch`] describes.
pub fn vision_pairwise(
    cb: &mut CommandBuffer,
    kernel: KernelHandle,
    a: DevicePtr, b: DevicePtr, n: u32,
)
    ensures
        final(cb)@ == old(cb)@.push(
            Cmd::Launch(
                vision_pairwise_launch(
                    kernel, a, b, n,
                ),
            ),
        ),
{
    let launch = KernelLaunch {
        kernel,
        grid: Dim3 { x: div_ceil_u32(n, 256), y: 1, z: 1 },
        block: Dim3 { x: 256, y: 1, z: 1 },
        shared_mem: 0,
        args: vec![
            KernelArg::Ptr(a), KernelArg::Ptr(b), KernelArg::U32(n),
        ],
    };
    assert(launch@ =~= vision_pairwise_launch(
        kernel, a, b, n,
    ));
    cb.launch(launch);
}

/// Normalises `rows` rows of `h` values in place.
pub open spec fn vision_norm_launch(
    kernel: KernelHandle,
    x: DevicePtr, w: DevicePtr, b: DevicePtr, rows: u32, h: u32,
) -> Launch {
    Launch {
        kernel,
        grid: Dim3 { x: rows, y: 1, z: 1 },
        block: Dim3 { x: if h < 1024 {
            h
        } else {
            1024
        }, y: 1, z: 1 },
        shared_mem: 0,
        args: seq![
            KernelArg::Ptr(x), KernelArg::Ptr(w), KernelArg::Ptr(b), KernelArg::U32(rows),
            KernelArg::U32(h), KernelArg::Scalar(Scalar(NORM_EPS_BITS)),
        ],
    }
}

/// Records the launch that [`vision_norm_launch`] describes.
pub fn vision_norm(
    cb: &mut CommandBuffer,
    kernel: KernelHandle,
    x: DevicePtr, w: DevicePtr, b: DevicePtr, rows: u32, h: u32,
)
    ensures
        final(cb)@ == old(cb)@.push(
            Cmd::Launch(
                vision_norm_launch(
                    kernel, x, w, b, rows, h,
                ),
            ),
        ),
{
    let launch = KernelLaunch {
        kernel,
        grid: Dim3 { x: rows, y: 1, z: 1 },
        block: Dim3 { x: if h < 1024 {
            h
        } else {
            1024
        }, y: 1, z: 1 },
        shared_mem: 0,
        args: vec![
            KernelArg::Ptr(x), KernelArg::Ptr(w), KernelArg::Ptr(b), KernelArg::U32(rows),
            KernelArg::U32(h), KernelArg::Scalar(Scalar(NORM_EPS_BITS)),
        ],
    };
    assert(launch@ =~= vision_norm_launch(
        kernel, x, w, b, rows, h,
    ));
    cb.launch(launch);
}

/// Attention of every row and head, rotating queries and keys on the way.
pub open spec fn vision_attention_rope_launch(
    kernel: KernelHandle,
    qkv: DevicePtr, o: DevicePtr, cos: DevicePtr, sin: DevicePtr, rows: u32, heads: u32,
    head_dim: u32, shared: u32,
) -> Launch {
    Launch {
        kernel,
        grid: Dim3 { x: rows, y: heads, z: 1 },
        block: Dim3 { x: 32, y: 1, z: 1 },
        shared_mem: shared,
        args: seq![
            KernelArg::Ptr(qkv), KernelArg::Ptr(o), KernelArg::Ptr(cos), KernelArg::Ptr(sin),
            KernelArg::U32(rows), KernelArg::U32(heads), KernelArg::U32(head_dim),
        ],
    }
}

/// Records the launch that [`vision_attention_rope_launch`] describes.
pub fn vision_attention_rope(
    cb: &mut CommandBuffer,
    kernel: KernelHandle,
    qkv: DevicePtr, o: DevicePtr, cos: DevicePtr, sin: DevicePtr, rows: u32, heads: u32,
    head_dim: u32, shared: u32,
)
    ensures
        final(cb)@ == old(cb)@.push(
            Cmd::Launch(
                vision_attention_rope_launch(
                    kernel, qkv, o, cos, sin, rows, heads, head_dim, shared,
                ),
            ),
        ),
{
    let launch = KernelLaunch {
        kernel,
        grid: Dim3 { x: rows, y: heads, z: 1 },
        block: Dim3 { x: 32, y: 1, z: 1 },
        shared_mem: shared,
        args: vec![
            KernelArg::Ptr(qkv), KernelArg::Ptr(o), KernelArg::Ptr(cos), KernelArg::Ptr(sin),
            KernelArg::U32(rows), KernelArg::U32(heads), KernelArg::U32(head_dim),
        ],
    };
    assert(launch@ =~= vision_attention_rope_launch(
        kernel, qkv, o, cos, sin, rows, heads, head_dim, shared,
    ));
    cb.launch(launch);
}

/// GELU of `n` values in place.
pub open spec fn vision_gelu_launch(
    kernel: KernelHandle,
    x: DevicePtr, n: u32,
) -> Launch {
    Launch {
        kernel,
        grid: Dim3 { x: ceil_div(n as int, 256) as u32, y: 1, z: 1 },
        block: Dim3 { x: 256, y: 1, z: 1 },
        shared_mem: 0,
        args: seq![
            KernelArg::Ptr(x), KernelArg::U32(n),
        ],
    }
}

/// Records the launch that [`vision_gelu_launch`] describes.
pub fn vision_gelu(
    cb: &mut CommandBuffer,
    kernel: KernelHandle,
    x: DevicePtr, n: u32,
)
    ensures
        final(cb)@ == old(cb)@.push(
            Cmd::Launch(
                vision_gelu_launch(
                    kernel, x, n,
                ),
            ),
        ),
{
    let launch = KernelLaunch {
        kernel,
        grid: Dim3 { x: div_ceil_u32(n, 256), y: 1, z: 1 },
        block: Dim3 { x: 256, y: 1, z: 1 },
        shared_mem: 0,
        args: vec![
            KernelArg::Ptr(x), KernelArg::U32(n),
        ],
    };
    assert(launch@ =~= vision_gelu_launch(
        kernel, x, n,
    ));
    cb.launch(launch);
}

/// Rotates queries and keys, separates heads, and transposes values.
pub open spec fn vision_rope_deinterleave_launch(
    kernel: KernelHandle,
    qkv: DevicePtr, qr: DevicePtr, kr: DevicePtr, vt: DevicePtr, cos: DevicePtr, sin: DevicePtr,
    seq: u32, heads: u32, d: u32,
) -> Launch {
    Launch {
        kernel,
        grid: Dim3 { x: ceil_div(seq * d, 256) as u32, y: heads, z: 1 },
        block: Dim3 { x: 256, y: 1, z: 1 },
        shared_mem: 0,
        args: seq![
            KernelArg::Ptr(qkv), KernelArg::Ptr(qr), KernelArg::Ptr(kr), KernelArg::Ptr(vt),
            KernelArg::Ptr(cos), KernelArg::Ptr(sin), KernelArg::U32(seq), KernelArg::U32(heads),
            KernelArg::U32(d),
        ],
    }
}

/// Records the launch that [`vision_rope_deinterleave_launch`] describes.
pub fn vision_rope_deinterleave(
    cb: &mut CommandBuffer,
    kernel: KernelHandle,
    qkv: DevicePtr, qr: DevicePtr, kr: DevicePtr, vt: DevicePtr, cos: DevicePtr, sin: DevicePtr,
    seq: u32, heads: u32, d: u32,
)
    requires
        seq * d <= u32::MAX,
    ensures
        final(cb)@ == old(cb)@.push(
            Cmd::Launch(
                vision_rope_deinterleave_launch(
                    kernel, qkv, qr, kr, vt, cos, sin, seq, heads, d,
                ),
            ),
        ),
{
    let launch = KernelLaunch {
        kernel,
        grid: Dim3 { x: div_ceil_u32(seq * d, 256), y: heads, z: 1 },
        block: Dim3 { x: 256, y: 1, z: 1 },
        shared_mem: 0,
        args: vec![
            KernelArg::Ptr(qkv), KernelArg::Ptr(qr), KernelArg::Ptr(kr), KernelArg::Ptr(vt),
            KernelArg::Ptr(cos), KernelArg::Ptr(sin), KernelArg::U32(seq), KernelArg::U32(heads),
            KernelArg::U32(d),
        ],
    };
    assert(launch@ =~= vision_rope_deinterleave_launch(
        kernel, qkv, qr, kr, vt, cos, sin, seq, heads, d,
    ));
    cb.launch(launch);
}

/// Scores `s[seq, seq] = q[seq, d] * k[seq, d]` in single precision, tiles of 16.
pub open spec fn vision_scores_launch(
    kernel: KernelHandle,
    q: DevicePtr, k: DevicePtr, s: DevicePtr, seq: u32, d: u32,
) -> Launch {
    Launch {
        kernel,
        grid: Dim3 { x: ceil_div(seq as int, 16) as u32, y: ceil_div(seq as int, 16) as u32, z: 1 },
        block: Dim3 { x: 16, y: 16, z: 1 },
        shared_mem: 0,
        args: seq![
            KernelArg::Ptr(q), KernelArg::Ptr(k), KernelArg::Ptr(s), KernelArg::U32(seq),
            KernelArg::U32(seq), KernelArg::U32(d),
        ],
    }
}

/// Records the launch that [`vision_scores_launch`] describes.
pub fn vision_scores(
    cb: &mut CommandBuffer,
    kernel: KernelHandle,
    q: DevicePtr, k: DevicePtr, s: DevicePtr, seq: u32, d: u32,
)
    ensures
        final(cb)@ == old(cb)@.push(
            Cmd::Launch(
                vision_scores_launch(
                    kernel, q, k, s, seq, d,
                ),
            ),
        ),
{
    let launch = KernelLaunch {
        kernel,
        grid: Dim3 { x: div_ceil_u32(seq, 16), y: div_ceil_u32(seq, 16), z: 1 },
        block: Dim3 { x: 16, y: 16, z: 1 },
        shared_mem: 0,
        args: vec![
            KernelArg::Ptr(q), KernelArg::Ptr(k), KernelArg::Ptr(s), KernelArg::U32(seq),
            KernelArg::U32(seq), KernelArg::U32(d),
        ],
    };
    assert(launch@ =~= vision_scores_launch(
        kernel, q, k, s, seq, d,
    ));
    cb.launch(launch);
}

/// Scaled softmax of every row of scores.
pub open spec fn vision_softmax_launch(
    kernel: KernelHandle,
    s: DevicePtr, p: DevicePtr, seq: u32, d: u32,
) -> Launch {
    Launch {
        kernel,
        grid: Dim3 { x: seq, y: 1, z: 1 },
        block: Dim3 { x: 256, y: 1, z: 1 },
        shared_mem: 0,
        args: seq![
            KernelArg::Ptr(s), KernelArg::Ptr(p), KernelArg::U32(seq), KernelArg::U32(d),
        ],
    }
}

/// Records the launch that [`vision_softmax_launch`] describes.
pub fn vision_softmax(
    cb: &mut CommandBuffer,
    kernel: KernelHandle,
    s: DevicePtr, p: DevicePtr, seq: u32, d: u32,
)
    ensures
        final(cb)@ == old(cb)@.push(
            Cmd::Launch(
                vision_softmax_launch(
                    kernel, s, p, seq, d,
                ),
            ),
        ),
{
    let launch = KernelLaunch {
        kernel,
        grid: Dim3 { x: seq, y: 1, z: 1 },
        block: Dim3 { x: 256, y: 1, z: 1 },
        shared_mem: 0,
        args: vec![
            KernelArg::Ptr(s), KernelArg::Ptr(p), KernelArg::U32(seq), KernelArg::U32(d),
        ],
    };
    assert(launch@ =~= vision_softmax_launch(
        kernel, s, p, seq, d,
    ));
    cb.launch(launch);
}

/// Places one head among the interleaved heads of every row.
pub open spec fn vision_scatter_head_launch(
    kernel: KernelHandle,
    src: DevicePtr, dst: DevicePtr, seq: u32, d: u32, stride: u32,
) -> Launch {
    Launch {
        kernel,
        grid: Dim3 { x: ceil_div(seq * d, 256) as u32, y: 1, z: 1 },
        block: Dim3 { x: 256, y: 1, z: 1 },
        shared_mem: 0,
        args: seq![
            KernelArg::Ptr(src), KernelArg::Ptr(dst), KernelArg::U32(seq), KernelArg::U32(d),
            KernelArg::U32(stride),
        ],
    }
}

/// Records the launch that [`vision_scatter_head_launch`] describes.
pub fn vision_scatter_head(
    cb: &mut CommandBuffer,
    kernel: KernelHandle,
    src: DevicePtr, dst: DevicePtr, seq: u32, d: u32, stride: u32,
)
    requires
        seq * d <= u32::MAX,
    ensures
        final(cb)@ == old(cb)@.push(
            Cmd::Launch(
                vision_scatter_head_launch(
                    kernel, src, dst, seq, d, stride,
                ),
            ),
        ),
{
    let launch = KernelLaunch {
        kernel,
        grid: Dim3 { x: div_ceil_u32(seq * d, 256), y: 1, z: 1 },
        block: Dim3 { x: 256, y: 1, z: 1 },
        shared_mem: 0,
        args: vec![
            KernelArg::Ptr(src), KernelArg::Ptr(dst), KernelArg::U32(seq), KernelArg::U32(d),
            KernelArg::U32(stride),
        ],
    };
    assert(launch@ =~= vision_scatter_head_launch(
        kernel, src, dst, seq, d, stride,
    ));
    cb.launch(launch);
}

impl VisionEncoder {
    /// Counts for `p` rows fit their kernel arguments.
    pub open spec fn fits(&self, p: usize) -> bool {
        &&& p <= u32::MAX
        &&& self.hidden_size <= u32::MAX
        &&& self.intermediate_size <= u32::MAX
        &&& self.num_heads <= u32::MAX
        &&& self.head_dim <= u32::MAX
        &&& p * self.hidden_size <= u32::MAX
        &&& p * self.intermediate_size <= u32::MAX
        &&& 3 * self.num_heads <= usize::MAX
        &&& 3 * self.num_heads * self.head_dim <= u32::MAX
        &&& p * (3 * self.num_heads * self.head_dim) <= u32::MAX
        &&& (p + self.head_dim) * 4 <= u32::MAX
    }

    /// A product with bias: on tensor cores with the bias added apart where both kernels are
    /// there, else in one kernel.
    pub open spec fn gemm_bias_cmds(&self, a: DevicePtr, b: DevicePtr, bias: DevicePtr,
        c: DevicePtr, m: u32, n: u32, k: u32) -> Seq<Cmd> {
        (if self.kernels.gemm_pipelined.present() && self.kernels.add_bias.present() {
            seq![
                Cmd::Launch(crate::vision_encoder::vision_gemm_pipelined_launch(
                    self.kernels.gemm_pipelined, a, b, c, m, n, k)),
                Cmd::Launch(crate::vision_encoder::vision_add_bias_launch(self.kernels.add_bias, c,
                    bias, m, n)),
            ]
        } else {
            seq![
                Cmd::Launch(crate::vision_encoder::vision_gemm_bias_launch(self.kernels.gemm, a, b,
                    bias, c, m, n, k)),
            ]
        })
    }

    /// Records `c[m, n] = a[m, k] * b[n, k] + bias[n]`.
    pub fn vit_gemm_bias(&self, cb: &mut CommandBuffer, a: DevicePtr, b: DevicePtr,
        bias: DevicePtr, c: DevicePtr, m: u32, n: u32, k: u32)
        requires
            self.kernels.gemm_pipelined.present() && self.kernels.add_bias.present() ==> m * n
                <= u32::MAX,
        ensures
            final(cb)@ == old(cb)@ + self.gemm_bias_cmds(a, b, bias, c, m, n, k),
    {
        let ghost before = cb@;
        if self.kernels.gemm_pipelined.is_present() && self.kernels.add_bias.is_present() {
            crate::vision_encoder::vision_gemm_pipelined(cb, self.kernels.gemm_pipelined, a, b, c,
                m, n, k);
            crate::vision_encoder::vision_add_bias(cb, self.kernels.add_bias, c, bias, m, n);
        } else {
            crate::vision_encoder::vision_gemm_bias(cb, self.kernels.gemm, a, b, bias, c, m, n, k);
        }
        assert(cb@ =~= before + self.gemm_bias_cmds(a, b, bias, c, m, n, k));
    }

    /// Norm, attention and projection, added to what came in.
    pub open spec fn attention_half_cmds(&self, blk: ViTBlock, p: usize) -> Seq<Cmd> {
        let k = self.kernels;
        let b = self.bufs;
        let h = self.hidden_size as u32;
        let rows = p as u32;
        let all = (p * self.hidden_size) as u32;
        let qkv = (3 * self.num_heads * self.head_dim) as u32;
        let shared = ((p + self.head_dim) * 4) as u32;
        seq![
            Cmd::Launch(crate::vision_encoder::vision_pairwise_launch(k.copy, b.h1, b.h2, all)),
            Cmd::Launch(crate::vision_encoder::vision_norm_launch(k.norm, b.h1, blk.norm1_w,
                blk.norm1_b, rows, h)),
        ] + self.gemm_bias_cmds(b.h1, blk.qkv_w, blk.qkv_b, b.wide, rows, qkv, h) + seq![
            Cmd::Launch(crate::vision_encoder::vision_attention_rope_launch(k.attn, b.wide, b.h1,
                b.rope_cos, b.rope_sin, rows, self.num_heads as u32, self.head_dim as u32,
                shared)),
        ] + self.gemm_bias_cmds(b.h1, blk.proj_w, blk.proj_b, b.wide, rows, h, h) + seq![
            Cmd::Launch(crate::vision_encoder::vision_pairwise_launch(k.add, b.wide, b.h2, all)),
            Cmd::Launch(crate::vision_encoder::vision_pairwise_launch(k.copy, b.wide, b.h1, all)),
        ]
    }

    fn record_attention_half(&self, cb: &mut CommandBuffer, blk: &ViTBlock, p: usize)
        requires
            self.fits(p),
        ensures
            final(cb)@ == old(cb)@ + self.attention_half_cmds(*blk, p),
    {
        let ghost before = cb@;
        let k: VisionKernels = self.kernels;
        let b: VisionBuffers = self.bufs;
        let h: u32 = self.hidden_size as u32;
        let rows: u32 = p as u32;
        let all: u32 = (p * self.hidden_size) as u32;
        let qkv: u32 = (3 * self.num_heads * self.head_dim) as u32;
        let shared: u32 = ((p + self.head_dim) * 4) as u32;
        crate::vision_encoder::vision_pairwise(cb, k.copy, b.h1, b.h2, all);
        crate::vision_encoder::vision_norm(cb, k.norm, b.h1, blk.norm1_w, blk.norm1_b, rows, h);
        self.vit_gemm_bias(cb, b.h1, blk.qkv_w, blk.qkv_b, b.wide, rows, qkv, h);
        crate::vision_encoder::vision_attention_rope(cb, k.attn, b.wide, b.h1, b.rope_cos,
            b.rope_sin, rows, self.num_heads as u32, self.head_dim as u32, shared);
        self.vit_gemm_bias(cb, b.h1, blk.proj_w, blk.proj_b, b.wide, rows, h, h);
        crate::vision_encoder::vision_pairwise(cb, k.add, b.wide, b.h2, all);
        crate::vision_encoder::vision_pairwise(cb, k.copy, b.wide, b.h1, all);
        assert(cb@ =~= before + self.attention_half_cmds(*blk, p));
    }

    /// Norm and both layers of the feed-forward block, added to what came in.
    pub open spec fn ffn_half_cmds(&self, blk: ViTBlock, p: usize) -> Seq<Cmd> {
        let k = self.kernels;
        let b = self.bufs;
        let h = self.hidden_size as u32;
        let inter = self.intermediate_size as u32;
        let rows = p as u32;
        let all = (p * self.hidden_size) as u32;
        let wide = (p * self.intermediate_size) as u32;
        seq![
            Cmd::Launch(crate::vision_encoder::vision_pairwise_launch(k.copy, b.h1, b.h2, all)),
            Cmd::Launch(crate::vision_encoder::vision_norm_launch(k.norm, b.h1, blk.norm2_w,
                blk.norm2_b, rows, h)),
        ] + self.gemm_bias_cmds(b.h1, blk.fc1_w, blk.fc1_b, b.wide, rows, inter, h) + seq![
            Cmd::Launch(crate::vision_encoder::vision_gelu_launch(k.gelu, b.wide, wide)),
        ] + self.gemm_bias_cmds(b.wide, blk.fc2_w, blk.fc2_b, b.h1, rows, h, inter) + seq![
            Cmd::Launch(crate::vision_encoder::vision_pairwise_launch(k.add, b.h1, b.h2, all)),
        ]
    }

    fn record_ffn_half(&self, cb: &mut CommandBuffer, blk: &ViTBlock, p: usize)
        requires
            self.fits(p),
        ensures
            final(cb)@ == old(cb)@ + self.ffn_half_cmds(*blk, p),
    {
        let ghost before = cb@;
        let k: VisionKernels = self.kernels;
        let b: VisionBuffers = self.bufs;
        let h: u32 = self.hidden_size as u32;
        let inter: u32 = self.intermediate_size as u32;
        let rows: u32 = p as u32;
        let all: u32 = (p * self.hidden_size) as u32;
        let wide: u32 = (p * self.intermediate_size) as u32;
        crate::vision_encoder::vision_pairwise(cb, k.copy, b.h1, b.h2, all);
        crate::vision_encoder::vision_norm(cb, k.norm, b.h1, blk.norm2_w, blk.norm2_b, rows, h);
        self.vit_gemm_bias(cb, b.h1, blk.fc1_w, blk.fc1_b, b.wide, rows, inter, h);
        crate::vision_encoder::vision_gelu(cb, k.gelu, b.wide, wide);
        self.vit_gemm_bias(cb, b.wide, blk.fc2_w, blk.fc2_b, b.h1, rows, h, inter);
        crate::vision_encoder::vision_pairwise(cb, k.add, b.h1, b.h2, all);
        assert(cb@ =~= before + self.ffn_half_cmds(*blk, p));
    }

    /// Records one block on `p` rows, in place.
    pub fn vit_block(&self, cb: &mut CommandBuffer, blk: &ViTBlock, p: usize)
        requires
            self.fits(p),
        ensures
            final(cb)@ == old(cb)@ + self.attention_half_cmds(*blk, p) + self.ffn_half_cmds(*blk, p),
    {
        self.record_attention_half(cb, blk, p);
        self.record_ffn_half(cb, blk, p);
    }

    /// One head's tables lie inside the address space, and its counts fit their
    /// kernel arguments. Scores of more than 1024 rows do not fit their scratch.
    pub open spec fn attention_fits(&self, o: DevicePtr, seq: u32) -> bool {
        &&& seq <= 1024
        &&& self.head_dim <= u32::MAX
        &&& self.num_heads <= u32::MAX
        &&& self.hidden_size <= u32::MAX
        &&& seq * self.head_dim <= u32::MAX
        &&& self.bufs.qr.holds(self.num_heads as int, seq * self.head_dim, 2)
        &&& self.bufs.kr.holds(self.num_heads as int, seq * self.head_dim, 2)
        &&& self.bufs.vt.holds(self.num_heads as int, seq * self.head_dim, 2)
        &&& o.holds(self.num_heads as int, self.head_dim as int, 2)
    }

    /// Scores, softmax, weighted values and placement of one head.
    pub open spec fn head_cmds(&self, o: DevicePtr, seq: u32, head: int) -> Seq<Cmd> {
        let k = self.kernels;
        let b = self.bufs;
        let d = self.head_dim as u32;
        let width = seq * self.head_dim;
        let q = b.qr.row_at(head, width, 2);
        let kr = b.kr.row_at(head, width, 2);
        let vt = b.vt.row_at(head, width, 2);
        let dst = o.row_at(head, self.head_dim as int, 2);
        seq![
            Cmd::Launch(crate::vision_encoder::vision_scores_launch(k.gemm_f32, q, kr, b.scores,
                seq, d)),
            Cmd::Launch(crate::vision_encoder::vision_softmax_launch(k.softmax, b.scores, b.probs,
                seq, d)),
            Cmd::Launch(crate::vision_encoder::vision_gemm_pipelined_launch(k.gemm_pipelined,
                b.probs, vt, b.o_stage, seq, d, seq)),
            Cmd::Launch(crate::vision_encoder::vision_scatter_head_launch(k.scatter_head,
                b.o_stage, dst, seq, d, self.hidden_size as u32)),
        ]
    }

    fn record_head(&self, cb: &mut CommandBuffer, o: DevicePtr, seq: u32, head: usize)
        requires
            self.attention_fits(o, seq),
            head < self.num_heads,
        ensures
            final(cb)@ == old(cb)@ + self.head_cmds(o, seq, head as int),
    {
        let ghost before = cb@;
        let k: VisionKernels = self.kernels;
        let b: VisionBuffers = self.bufs;
        let d: u32 = self.head_dim as u32;
        let width: usize = (seq * d) as usize;
        let q: DevicePtr = b.qr.row(head, self.num_heads, width, 2);
        let kr: DevicePtr = b.kr.row(head, self.num_heads, width, 2);
        let vt: DevicePtr = b.vt.row(head, self.num_heads, width, 2);
        let dst: DevicePtr = o.row(head, self.num_heads, self.head_dim, 2);
        crate::vision_encoder::vision_scores(cb, k.gemm_f32, q, kr, b.scores, seq, d);
        crate::vision_encoder::vision_softmax(cb, k.softmax, b.scores, b.probs, seq, d);
        crate::vision_encoder::vision_gemm_pipelined(cb, k.gemm_pipelined, b.probs, vt, b.o_stage,
            seq, d, seq);
        crate::vision_encoder::vision_scatter_head(cb, k.scatter_head, b.o_stage, dst, seq, d,
            self.hidden_size as u32);
        assert(cb@ =~= before + self.head_cmds(o, seq, head as int));
    }

    /// Work of the first `n` heads. Heads share their scratch, so they run one after the
    /// other.
    pub open spec fn heads_cmds(&self, o: DevicePtr, seq: u32, n: nat) -> Seq<Cmd>
        decreases n,
    {
        if n == 0 {
            Seq::empty()
        } else {
            self.heads_cmds(o, seq, (n - 1) as nat) + self.head_cmds(o, seq, (n - 1))
        }
    }

    fn record_heads(&self, cb: &mut CommandBuffer, o: DevicePtr, seq: u32)
        requires
            self.attention_fits(o, seq),
        ensures
            final(cb)@ == old(cb)@ + self.heads_cmds(o, seq, self.num_heads as nat),
    {
        let ghost before = cb@;
        let mut i: usize = 0;
        assert(cb@ =~= before + self.heads_cmds(o, seq, 0));
        while i < self.num_heads
            invariant
                i <= self.num_heads,
                self.attention_fits(o, seq),
                cb@ == before + self.heads_cmds(o, seq, i as nat),
            decreases self.num_heads - i,
        {
            self.record_head(cb, o, seq, i);
            i = i + 1;
            assert(cb@ =~= before + self.heads_cmds(o, seq, i as nat));
        }
    }

    /// Records the attention of one image: `qkv` is `[seq, 3 * H * D]`, `o` is
    /// `[seq, H * D]`, and `cos` and `sin` are `[seq, D]`.
    pub fn vit_attention_gemm(
        &self,
        cb: &mut CommandBuffer,
        qkv: DevicePtr,
        o: DevicePtr,
        cos: DevicePtr,
        sin: DevicePtr,
        seq: u32,
    )
        requires
            self.attention_fits(o, seq),
        ensures
            final(cb)@ == old(cb)@.push(
                Cmd::Launch(
                    vision_rope_deinterleave_launch(
                        self.kernels.rope_deint, qkv, self.bufs.qr, self.bufs.kr, self.bufs.vt, cos,
                        sin, seq, self.num_heads as u32, self.head_dim as u32,
                    ),
                ),
            ) + self.heads_cmds(o, seq, self.num_heads as nat),
    {
        vision_rope_deinterleave(
            cb, self.kernels.rope_deint, qkv, self.bufs.qr, self.bufs.kr, self.bufs.vt, cos, sin, seq,
            self.num_heads as u32, self.head_dim as u32,
        );
        self.record_heads(cb, o, seq);
    }
}

} // verus!
