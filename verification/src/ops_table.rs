//! Operations that the device back end provides.
use crate::attention::layer::{HeadGateActivation, LoraRoute, PackedQ2Weight};
use crate::device::{DevicePtr, KernelHandle, Scalar};
use crate::moe::b12x_weights::B12xMoeWeights;
use crate::moe::lora::MoeExpertRoute;
use crate::moe::stream_tables::ExpertPtrTable;
use crate::ops::lora_delta::{LoraKernels, LoraPair};
use crate::weights::{DenseWeight, Fp8Weight, QuantizedWeight};
use vstd::prelude::*;

verus! {

/// Weight operand of a matrix product.
#[derive(Clone, Copy, PartialEq, Eq, Debug)]
pub enum WeightRef {
    Dense(DenseWeight),
    Quantized(QuantizedWeight),
    Fp8(Fp8Weight),
}

/// Kernel family of a matrix product.
#[derive(Clone, Copy, PartialEq, Eq, Debug)]
pub enum MatmulKind {
    DenseGemv,
    DenseGemm,
    DenseGemmTc,
    W4a16Gemv,
    W4a16Gemm,
    W4a16GemvBatch2,
    W4a16GemvBatch3,
    W8a16Gemv,
    W8a16GemvBatch,
    /// Transposed weight, tiles of 64 rows and 128 columns.
    W4a16GemmN128,
    /// Transposed weight, tiles of 128 rows and 128 columns.
    W4a16GemmN128M128,
    W4a16GemmN128M128V2,
    W4a16GemmN128M128Bf16,
    W8a16GemmPipelined,
    W8a16Gemm,
}

/// Which feed-forward entry point runs.
#[derive(Clone, Copy, PartialEq, Eq, Debug)]
pub enum FfnEntry {
    Single,
    K2,
    K3,
    Prefill,
    AtomicC4,
    TokenMajor,
    Batched,
}

/// Operands that all recurrent prefill kernels share.
#[derive(Clone, Copy, PartialEq, Eq, Debug)]
pub struct GdnPrefill {
    pub h_state: DevicePtr,
    pub q: DevicePtr,
    pub k: DevicePtr,
    pub v: DevicePtr,
    pub gates: DevicePtr,
    pub beta: DevicePtr,
    pub out: DevicePtr,
    pub batch: u32,
    pub tokens: u32,
    pub nk: u32,
    pub nv: u32,
    pub kd: u32,
    pub vd: u32,
    pub qk_stride: u32,
    pub v_stride: u32,
    pub gate_stride: u32,
}

/// Operands that all recurrent decode kernels share.
#[derive(Clone, Copy, PartialEq, Eq, Debug)]
pub struct GdnDecode {
    pub h_state: DevicePtr,
    pub q: DevicePtr,
    pub k: DevicePtr,
    pub v: DevicePtr,
    pub gates: DevicePtr,
    pub beta: DevicePtr,
    pub batch: u32,
    pub nk: u32,
    pub nv: u32,
    pub kd: u32,
    pub vd: u32,
}

/// Gate and norm weight of a recurrent kernel that normalises its output.
#[derive(Clone, Copy, PartialEq, Eq, Debug)]
pub struct FusedNorm {
    pub z: DevicePtr,
    pub weight: DevicePtr,
    pub eps: Scalar,
}

/// Operands of a grouped trellis product.
#[derive(Clone, Copy, PartialEq, Eq, Debug)]
pub struct Exl3MgemmArgs {
    pub a: DevicePtr,
    pub trellis_ptrs: DevicePtr,
    pub c: DevicePtr,
    /// Rows per slot.
    pub m: usize,
    pub k: usize,
    pub n: usize,
    pub k_bits: u32,
    pub codebook: u32,
    /// Results are single precision.
    pub c_is_f32: bool,
    pub locks: DevicePtr,
    pub suh_ptrs: DevicePtr,
    pub a_had: DevicePtr,
    pub a_had_capacity: usize,
    pub svh_ptrs: DevicePtr,
    pub b_indices: Option<DevicePtr>,
    /// Weights that fold the slots of a row into one result.
    pub b_weights: Option<DevicePtr>,
    pub slots_in: usize,
    pub slots_out: usize,
    pub min_index: i32,
    pub max_index: i32,
    pub num_tokens: usize,
    /// Keeps the launch geometry of this many slots.
    pub replay_group: Option<usize>,
    pub sm_count: u32,
}

/// Operands of one decoder layer of a draft head.
#[derive(Clone, Copy, PartialEq, Eq, Debug)]
pub struct DraftLayerArgs {
    pub layer: usize,
    /// Context and noise rows together.
    pub n_attn: u32,
    pub eff_ctx: usize,
    pub h: u32,
    pub q_dim: u32,
    pub kv_dim: u32,
    pub inter: u32,
    pub inv_sqrt_d: Scalar,
}

/// Which external product runs.
#[derive(Clone, Copy, PartialEq, Eq, Debug)]
pub enum LibraryGemm {
    CublasFp8BlockScaled,
    CublasFp8Rowwise,
    CublasBf16,
    CutlassBf16,
    CutlassNvfp4,
}

/// Operands of an external product. Scales are null where operands have none.
#[derive(Clone, Copy, PartialEq, Eq, Debug)]
pub struct LibraryGemmArgs {
    pub gemm: LibraryGemm,
    pub act: DevicePtr,
    pub act_scale: DevicePtr,
    pub weight: DevicePtr,
    pub weight_scale: DevicePtr,
    pub weight_scale_2: Scalar,
    pub out: DevicePtr,
    pub m: u32,
    pub n: u32,
    pub k: u32,
}

/// Work that the back end performs as one call.
#[allow(inconsistent_fields)]
#[derive(Clone, Copy, PartialEq, Eq, Debug)]
pub enum DeviceOp {
    /// Waits until everything recorded before has run.
    Synchronize,
    /// Packs logical block scales into the layout that grouped kernels read.
    PackWeightSfb { src: DevicePtr, dst: DevicePtr, n: u32, k: u32, src_n_major: bool },
    /// Marks the current reader of an expert slab as done once reached.
    RecordSlabConsumed { slab: u32 },
    /// Blocks the host until the last recorded reader of a slab is done.
    WaitSlabFree { slab: u32 },
    CopyD2D { src: DevicePtr, dst: DevicePtr, bytes: usize },
    Free { ptr: DevicePtr },
    /// Writes the transpose of an `[n, k]` weight and its scales.
    TransposeForGemm { src: QuantizedWeight, dst: QuantizedWeight, n: usize, k: usize },
    /// Packs an `[n, k]` bfloat16 weight into four bits with transposed scales.
    PackBf16ToNvfp4 { src: DevicePtr, packed: DevicePtr, scale: DevicePtr, n: u32, k: u32 },
    Memset { dst: DevicePtr, value: u8, bytes: usize },
    /// `out = activation(gate) * up`, element by element.
    ActMul { kernel: KernelHandle, gate: DevicePtr, up: DevicePtr, out: DevicePtr, n: u32 },
    /// Converts `n` bfloat16 values to eight bits.
    Bf16ToFp8 { kernel: KernelHandle, src: DevicePtr, dst: DevicePtr, n: u32 },
    /// Reads `num_experts + 1` offsets back, waits, runs the grouped four-bit
    /// gate and up products of the sorted rows with the weights that the two tables
    /// list, and waits.
    GroupedGateUpFp4 {
        gate: ExpertPtrTable,
        up: ExpertPtrTable,
        rows: DevicePtr,
        gate_out: DevicePtr,
        up_out: DevicePtr,
        offsets: DevicePtr,
        num_experts: usize,
        inter: u32,
        h: u32,
    },
    /// Lists the tiles of experts with rows on the device.
    BuildTileWorklist {
        kernel: KernelHandle,
        offsets: DevicePtr,
        weights: DevicePtr,
        worklist: DevicePtr,
        total_tiles: DevicePtr,
        num_experts: u32,
        n_tiles: u32,
        m_tile: u32,
    },
    /// Re-orders one packed `[n, k]` weight for the Marlin kernel.
    MarlinRepack { src: DevicePtr, dst: DevicePtr, k: u32, n: u32 },
    /// Sorts `tokens` rows of routed expert ids into padded blocks.
    MarlinAlign {
        ids: DevicePtr,
        sorted: DevicePtr,
        experts: DevicePtr,
        padded: DevicePtr,
        tokens: u32,
    },
    /// `output = silu(gate) * up` over rows that hold gate before up.
    MarlinSiluMul { gate_up: DevicePtr, output: DevicePtr, routes: u32, intermediate: u32 },
    MarlinGemm {
        a: DevicePtr,
        weights: DevicePtr,
        output: DevicePtr,
        reduce_tmp: DevicePtr,
        scales: DevicePtr,
        global_scales: DevicePtr,
        sorted: DevicePtr,
        experts: DevicePtr,
        padded: DevicePtr,
        topk_weights: DevicePtr,
        top_k: u32,
        mul_topk_weights: bool,
        m: u32,
        n: u32,
        k: u32,
        workspace: DevicePtr,
    },
    /// Makes later work wait for an event of another stream.
    WaitEvent { event: u64 },
    /// `output = sum(weights * experts) + gate(input) * shared`, row by row.
    WeightedSumBlend {
        kernel: KernelHandle,
        output: DevicePtr,
        experts: DevicePtr,
        weights: DevicePtr,
        shared: DevicePtr,
        input: DevicePtr,
        shared_gate: DevicePtr,
        hidden: u32,
        top_k: u32,
        input_dim: u32,
        tokens: u32,
    },
    /// The whole layer on `n` rows, routing included.
    MoePrefill { input: DevicePtr, n: usize },
    /// All routed experts in one launch of the fused kernel.
    B12xMoe {
        static_kernel: bool,
        x: DevicePtr,
        ids: DevicePtr,
        topk_weights: DevicePtr,
        out: DevicePtr,
        weights: B12xMoeWeights,
        tokens: u32,
    },
    /// Quantises `[m, k]` activations to eight bits, one scale per 128 values.
    PerTokenGroupQuantFp8 {
        kernel: KernelHandle,
        input: DevicePtr,
        output: DevicePtr,
        scales: DevicePtr,
        m: u32,
        k: u32,
    },
    /// A product through an external library.
    LibraryGemm(LibraryGemmArgs),
    /// Transposes packed four-bit values of a `[k, n]` weight to `[n, k]`.
    TransposeNvfp4Packed { src: DevicePtr, dst: DevicePtr, n: u32, k: u32 },
    /// `output[n] = weight[n, k] * input[k]`; the back end takes the single-wave
    /// kernel where that is asked for and fits.
    W4a16DecodeGemv {
        kernel: KernelHandle,
        kernel_sw: KernelHandle,
        single_wave: bool,
        input: DevicePtr,
        weight: QuantizedWeight,
        output: DevicePtr,
        n: u32,
        k: u32,
    },
    /// Experts and softmax probabilities of one row of router logits.
    TopkSoftmax {
        kernel: KernelHandle,
        logits: DevicePtr,
        ids: DevicePtr,
        probs: DevicePtr,
        experts: u32,
        top_k: u32,
        normalise: bool,
    },
    /// Experts and biased sigmoid probabilities of one row of router logits.
    TopkSigmoid {
        kernel: KernelHandle,
        logits: DevicePtr,
        bias: DevicePtr,
        ids: DevicePtr,
        probs: DevicePtr,
        experts: u32,
        top_k: u32,
        normalise: bool,
        scale: Scalar,
    },
    /// Product of every slot's row with the trellis of the expert that its index
    /// names; a negative index skips the slot.
    Exl3Mgemm(Exl3MgemmArgs),
    /// Converts `n` single-precision values to bfloat16.
    F32ToBf16 { src: DevicePtr, dst: DevicePtr, n: usize },
    /// Prepares what the router reads of `n` rows of `h` values, and leaves it at
    /// `output`.
    RouterInput { input: DevicePtr, output: DevicePtr, n: u32, h: u32 },
    /// Waits until no other pass uses the shared trellis scratch, and keeps others out.
    Exl3DispatchBegin,
    /// Lets other passes use the shared trellis scratch again.
    Exl3DispatchEnd,
    /// The shared expert on `n` rows.
    SharedExpert { input: DevicePtr, n: u32, h: u32, inter: u32 },
    /// Folds the router's adapter into `rows` rows of logits, at most `cap` at a time.
    RouterLora {
        kernels: LoraKernels,
        pair: LoraPair,
        input: DevicePtr,
        logits: DevicePtr,
        rows: u32,
        cap: u32,
        xa: DevicePtr,
        delta: DevicePtr,
    },
    /// Folds the experts' down adapters into sorted rows; offsets are read on the
    /// device.
    ExpertLoraDown {
        kernels: LoraKernels,
        route: MoeExpertRoute,
        x: DevicePtr,
        out: DevicePtr,
        offsets: DevicePtr,
        sorted_token_ids: DevicePtr,
        /// Adapter of every row; null where all rows share one.
        row_adapter: DevicePtr,
        xa: DevicePtr,
        total_expanded: u32,
    },
    /// Sums `bytes` bytes of bfloat16 over all ranks.
    AllReduce { ptr: DevicePtr, bytes: usize },
    /// `output[m, n] = input[m, k] * weight[n, k]`.
    Matmul {
        kind: MatmulKind,
        kernel: KernelHandle,
        input: DevicePtr,
        weight: WeightRef,
        output: DevicePtr,
        m: u32,
        n: u32,
        k: u32,
    },
    /// `output = norm(input)`, row by row.
    RmsNorm {
        kernel: KernelHandle,
        input: DevicePtr,
        weight: DenseWeight,
        output: DevicePtr,
        rows: u32,
        dim: u32,
        eps: Scalar,
    },
    /// Rows of an embedding table by token id.
    BatchedEmbed {
        kernel: KernelHandle,
        ids: DevicePtr,
        table: DevicePtr,
        output: DevicePtr,
        rows: u32,
        h: u32,
    },
    /// Index of the largest of `n` bfloat16 values.
    ArgmaxBf16 { kernel: KernelHandle, logits: DevicePtr, out: DevicePtr, n: u32 },
    /// One decoder layer of a draft head over context and noise rows.
    DraftLayer(DraftLayerArgs),
    /// Rotary embedding of `rows` packed query and key rows.
    Rope {
        kernel: KernelHandle,
        q: DevicePtr,
        k: DevicePtr,
        positions: DevicePtr,
        rows: u32,
        nq: u32,
        nkv: u32,
        hd: u32,
        rotary_dim: u32,
        theta: Scalar,
    },
    /// The same over rows that lie `q_stride` and `k_stride` values apart.
    RopeStrided {
        kernel: KernelHandle,
        q: DevicePtr,
        k: DevicePtr,
        positions: DevicePtr,
        rows: u32,
        nq: u32,
        nkv: u32,
        hd: u32,
        rotary_dim: u32,
        theta: Scalar,
        q_stride: u32,
        k_stride: u32,
    },
    /// Rotary embedding with rescaled frequencies.
    RopeYarnScaled {
        kernel: KernelHandle,
        q: DevicePtr,
        k: DevicePtr,
        positions: DevicePtr,
        rows: u32,
        nq: u32,
        nkv: u32,
        hd: u32,
        rotary_dim: u32,
        inv_freq: DevicePtr,
        attention_factor: Scalar,
    },
    /// Writes key and value rows to the cache slots that `slots` lists.
    KvCacheWrite {
        k: DevicePtr,
        v: DevicePtr,
        slots: DevicePtr,
        rows: u32,
        nkv: u32,
        hd: u32,
        block_size: u32,
        k_stride: u32,
        v_stride: u32,
        graph_capture: bool,
    },
    /// Attention of one query row per sequence over cached blocks.
    PagedDecode {
        q: DevicePtr,
        output: DevicePtr,
        block_table: DevicePtr,
        seq_len: DevicePtr,
        max_blocks_per_seq: u32,
        rows: u32,
        nq: u32,
        nkv: u32,
        hd: u32,
        block_size: u32,
        scale: Scalar,
        q_stride: u32,
        workspace: DevicePtr,
        max_decode_seqs: u32,
    },
    /// `output = input * sigmoid(gate)`; gate rows lie `gate_stride` values apart.
    SigmoidGateMul {
        kernel: KernelHandle,
        input: DevicePtr,
        gate: DevicePtr,
        output: DevicePtr,
        dim: u32,
        gate_stride: u32,
        rows: u32,
    },
    /// `output = input * activation(gate)` with one gate per head.
    HeadGateMul {
        kernel: KernelHandle,
        activation: HeadGateActivation,
        input: DevicePtr,
        gate: DevicePtr,
        output: DevicePtr,
        nq: u32,
        hd: u32,
        rows: u32,
    },
    /// Query projection of `rows` rows that splits each head from its gate.
    GemvQg {
        kernel: KernelHandle,
        input: DevicePtr,
        weight: QuantizedWeight,
        output: DevicePtr,
        rows: u32,
        n: u32,
        k: u32,
        nq: u32,
        hd: u32,
    },
    /// Two projections of the same `rows` rows.
    GemvDual {
        kernel: KernelHandle,
        input: DevicePtr,
        weight0: QuantizedWeight,
        output0: DevicePtr,
        weight1: QuantizedWeight,
        output1: DevicePtr,
        rows: u32,
        n: u32,
        k: u32,
    },
    /// Two projections of one row by single-wave kernels.
    GemvDualSw {
        kernel: KernelHandle,
        input: DevicePtr,
        weight0: QuantizedWeight,
        output0: DevicePtr,
        weight1: QuantizedWeight,
        output1: DevicePtr,
        n: u32,
        k: u32,
    },
    /// `output = weight * (silu(gate) * up)` for one row.
    GemvSiluInput {
        kernel: KernelHandle,
        single_wave: bool,
        gate: DevicePtr,
        up: DevicePtr,
        weight: QuantizedWeight,
        output: DevicePtr,
        n: u32,
        k: u32,
    },
    /// Re-quantises a four-bit weight to eight-bit integers, scales per 32 values.
    RequantWeightInt8 {
        kernel: KernelHandle,
        src: QuantizedWeight,
        dst: DevicePtr,
        dst_scale: DevicePtr,
        n: u32,
        k: u32,
    },
    /// Quantises the input to eight-bit integers and multiplies.
    Int8Gemm {
        gemm: KernelHandle,
        requant: KernelHandle,
        input: DevicePtr,
        weight: DevicePtr,
        weight_scale: DevicePtr,
        a_i8: DevicePtr,
        a_scale: DevicePtr,
        output: DevicePtr,
        m: u32,
        n: u32,
        k: u32,
    },
    /// Splits interleaved query heads from their gates in place.
    DeinterleaveQg {
        kernel: KernelHandle,
        ptr: DevicePtr,
        rows: u32,
        nq: u32,
        hd: u32,
        q_proj_dim: u32,
    },
    /// Projection of `m` rows, result rows `out_stride` values apart.
    DenseGemvBatchM {
        kernel: KernelHandle,
        input: DevicePtr,
        weight: DenseWeight,
        output: DevicePtr,
        m: u32,
        n: u32,
        k: u32,
        out_stride: u32,
    },
    Q2Gemv { kernel: KernelHandle, input: DevicePtr, weight: PackedQ2Weight, output: DevicePtr },
    /// Four-bit projection of many rows; the back end picks the kernel.
    WideGemm {
        input: DevicePtr,
        weight: QuantizedWeight,
        weight_t: Option<QuantizedWeight>,
        output: DevicePtr,
        m: u32,
        n: u32,
        k: u32,
    },
    /// Folds every row's own adapter in.
    LoraBgmv {
        kernels: LoraKernels,
        route: LoraRoute,
        x: DevicePtr,
        base_out: DevicePtr,
        seq_slot: DevicePtr,
        rows: u32,
        x_stride: u32,
        out_stride: u32,
        xa: DevicePtr,
    },
    /// `residual = input; output = norm(input)`.
    RmsNormResidual {
        kernel: KernelHandle,
        input: DevicePtr,
        weight: DenseWeight,
        output: DevicePtr,
        residual: DevicePtr,
        rows: u32,
        dim: u32,
        eps: Scalar,
    },
    /// `hidden += addend; residual = hidden; output = norm(hidden)`.
    ResidualAddRmsNorm {
        kernel: KernelHandle,
        hidden: DevicePtr,
        addend: DevicePtr,
        weight: DenseWeight,
        output: DevicePtr,
        residual: DevicePtr,
        rows: u32,
        dim: u32,
        eps: Scalar,
    },
    /// `hidden += addend`.
    ResidualAdd { kernel: KernelHandle, hidden: DevicePtr, addend: DevicePtr, n: u32 },
    /// `base += scale * delta`.
    ScaledAdd { kernel: KernelHandle, base: DevicePtr, delta: DevicePtr, scale: Scalar, n: u32 },
    /// The whole recurrent mixer of sequence `seq` on one normalised row.
    SsmForward { input: DevicePtr, seq: usize },
    /// The feed-forward block on `n` rows.
    Ffn { entry: FfnEntry, input: DevicePtr, n: usize },
    /// Gate projection of many rows.
    BaGatesPrefill {
        kernel: KernelHandle,
        input: DevicePtr,
        weight: DenseWeight,
        a_log: DevicePtr,
        dt_bias: DevicePtr,
        gates: DevicePtr,
        rows: u32,
        ba_size: u32,
        k: u32,
        input_stride: u32,
        gate_stride: u32,
        nv: u32,
        heads_per_group: u32,
    },
    /// Gate projection of one row.
    BaGates {
        kernel: KernelHandle,
        input: DevicePtr,
        weight: DenseWeight,
        a_log: DevicePtr,
        dt_bias: DevicePtr,
        gates: DevicePtr,
        beta: DevicePtr,
        ba_size: u32,
        k: u32,
        heads_per_group: u32,
    },
    /// Short convolution with normalised query and key heads.
    Conv1dUpdateL2norm {
        kernel: KernelHandle,
        state: DevicePtr,
        input: DevicePtr,
        weight: DenseWeight,
        output: DevicePtr,
        conv_dim: u32,
        d_conv: u32,
        batch: u32,
        qk_channels: u32,
        head_dim: u32,
        eps: Scalar,
    },
    /// One recurrent step.
    GdnDecode { kernel: KernelHandle, args: GdnDecode, out: DevicePtr },
    /// One recurrent step with the gated norm folded in.
    GdnDecodeNorm { kernel: KernelHandle, args: GdnDecode, norm: FusedNorm, out: DevicePtr },
    /// One recurrent step of many sequences in strided rows.
    GdnDecodeStrided {
        kernel: KernelHandle,
        args: GdnDecode,
        out: DevicePtr,
        qk_stride: u32,
        v_stride: u32,
        gate_stride: u32,
        out_stride: u32,
    },
    /// The same with the gated norm folded in.
    GdnDecodeStridedNorm {
        kernel: KernelHandle,
        args: GdnDecode,
        norm: FusedNorm,
        out: DevicePtr,
        qk_stride: u32,
        v_stride: u32,
        gate_stride: u32,
        z_stride: u32,
        out_stride: u32,
    },
    /// Norm of `heads` heads of `head_dim`, gated by `z`.
    GatedRmsNorm {
        kernel: KernelHandle,
        input: DevicePtr,
        z: DevicePtr,
        weight: DenseWeight,
        output: DevicePtr,
        heads: u32,
        head_dim: u32,
        input_stride: u32,
        eps: Scalar,
        z_stride: u32,
    },
    /// Gated norm of many rows; `f32_input` reads single-precision rows.
    GatedRmsNormPrefill {
        kernel: KernelHandle,
        f32_input: bool,
        input: DevicePtr,
        z: DevicePtr,
        weight: DenseWeight,
        output: DevicePtr,
        heads: u32,
        head_dim: u32,
        eps: Scalar,
        tokens: u32,
        value_dim: u32,
        qkvz_size: u32,
    },
    GdnPrefillSplit4 { kernel: KernelHandle, args: GdnPrefill },
    GdnPrefillRegResident { kernel: KernelHandle, args: GdnPrefill },
    GdnPrefillPersistent { kernel: KernelHandle, args: GdnPrefill },
    GdnPrefillPersistentSmem { kernel: KernelHandle, args: GdnPrefill, shared_mem: u32 },
    /// Chunked recurrence through an external library.
    GdnPrefillFlashInfer {
        qkv: DevicePtr,
        gates: DevicePtr,
        out: DevicePtr,
        h_state: DevicePtr,
        scale: Scalar,
        tokens: u32,
        nk: u32,
        nv: u32,
        kd: u32,
        vd: u32,
        conv_dim: u32,
        gate_stride: u32,
        batch: u32,
        f32_out: bool,
    },
    /// Chunked recurrence in three kernels.
    GdnPrefillFla {
        recompute_wu: KernelHandle,
        chunk_delta_h: KernelHandle,
        chunk_delta_h_tc: KernelHandle,
        chunk_fwd_o: KernelHandle,
        args: GdnPrefill,
        w_out: DevicePtr,
        u_out: DevicePtr,
        s_out: DevicePtr,
        uc_out: DevicePtr,
        gc_out: DevicePtr,
        num_chunks: u32,
        profile: bool,
    },
}

} // verus!
