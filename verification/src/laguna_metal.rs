//! Profile and cache sizing rules for Laguna on Metal.
use crate::attention::high_speed_swap::KvCacheDtype;
use crate::num::{ceil_div, div_ceil};
use vstd::prelude::*;

verus! {

/// Why a profile is refused, in the order in which it is checked.
#[derive(Debug, Clone, Copy, PartialEq, Eq, Structural)]
pub enum ProfileError {
    /// The cache is not stored as bfloat16.
    KvDtype,
    /// More than 65536 context tokens.
    SeqLen,
    /// More or less than one sequence.
    BatchSize,
    /// More than 2048 prefill tokens per chunk.
    PrefillTokens,
    /// Speculative decoding of either kind.
    Speculative,
    /// Adapters.
    Lora,
}

/// Kind of a model layer.
#[derive(Debug, Clone, Copy, PartialEq, Eq, Structural)]
pub enum LayerType {
    FullAttention,
    SlidingAttention,
    /// A layer without a key-value cache.
    Other,
}

/// How long a layer keeps cached tokens.
#[derive(Debug, Clone, Copy, PartialEq, Eq, Structural)]
pub enum KvLayerRetention {
    Full,
    Sliding { window_tokens: usize },
}

/// What cache sizing reads of a model.
#[derive(Debug, PartialEq, Eq)]
pub struct LagunaConfig {
    pub layer_types: Vec<LayerType>,
    pub sliding_window: u32,
    pub num_key_value_heads: usize,
    pub head_dim: usize,
    pub num_attention_layers: usize,
    /// Heads and head width of layers that differ.
    pub kv_layer_dims: Vec<(usize, usize)>,
}

/// Layout of a key-value cache.
#[derive(Debug, PartialEq, Eq)]
pub struct KvCacheConfig {
    pub block_size: usize,
    pub num_kv_heads: usize,
    pub head_dim: usize,
    pub num_layers: usize,
    pub dtype: KvCacheDtype,
    pub layer_dtypes: Vec<KvCacheDtype>,
    pub layer_dims: Vec<(usize, usize)>,
    pub layer_retention: Vec<KvLayerRetention>,
    pub prefill_chunk_tokens: usize,
    pub cache_blocks_per_seq: Option<usize>,
}

/// The block count does not fit.
#[derive(Debug, Clone, Copy, PartialEq, Eq, Structural)]
pub struct BlockCountOverflow;

/// The first rule that a profile breaks, if any.
pub open spec fn broken_rule(
    kv_dtype: KvCacheDtype,
    max_seq_len: usize,
    max_batch_size: usize,
    max_prefill_tokens: usize,
    speculative: bool,
    dflash: bool,
    lora: bool,
) -> Option<ProfileError> {
    if kv_dtype != KvCacheDtype::Bf16 {
        Some(ProfileError::KvDtype)
    } else if max_seq_len > 65_536 {
        Some(ProfileError::SeqLen)
    } else if max_batch_size != 1 {
        Some(ProfileError::BatchSize)
    } else if max_prefill_tokens > 2_048 {
        Some(ProfileError::PrefillTokens)
    } else if speculative || dflash {
        Some(ProfileError::Speculative)
    } else if lora {
        Some(ProfileError::Lora)
    } else {
        None
    }
}

/// Whether a profile is supported.
pub fn validate_profile(
    kv_dtype: KvCacheDtype,
    max_seq_len: usize,
    max_batch_size: usize,
    max_prefill_tokens: usize,
    speculative: bool,
    dflash: bool,
    lora: bool,
) -> (r: Result<(), ProfileError>)
    ensures
        r == (match broken_rule(
            kv_dtype,
            max_seq_len,
            max_batch_size,
            max_prefill_tokens,
            speculative,
            dflash,
            lora,
        ) {
            Some(e) => Err::<(), ProfileError>(e),
            None => Ok::<(), ProfileError>(()),
        }),
{
    if kv_dtype != KvCacheDtype::Bf16 {
        return Err(ProfileError::KvDtype);
    }
    if max_seq_len > 65_536 {
        return Err(ProfileError::SeqLen);
    }
    if max_batch_size != 1 {
        return Err(ProfileError::BatchSize);
    }
    if max_prefill_tokens > 2_048 {
        return Err(ProfileError::PrefillTokens);
    }
    if speculative || dflash {
        return Err(ProfileError::Speculative);
    }
    if lora {
        return Err(ProfileError::Lora);
    }
    Ok(())
}

/// Retention of one layer; none where it has no cache.
pub open spec fn retention_of(t: LayerType, window: u32) -> Option<KvLayerRetention> {
    match t {
        LayerType::FullAttention => Some(KvLayerRetention::Full),
        LayerType::SlidingAttention => Some(
            KvLayerRetention::Sliding { window_tokens: window as usize },
        ),
        LayerType::Other => None,
    }
}

/// Retention of those of the layers that have a cache, in their order.
pub open spec fn retentions(types: Seq<LayerType>, window: u32) -> Seq<KvLayerRetention>
    decreases types.len(),
{
    if types.len() == 0 {
        Seq::empty()
    } else {
        let init = retentions(types.drop_last(), window);
        match retention_of(types.last(), window) {
            Some(r) => init.push(r),
            None => init,
        }
    }
}

/// Retention of the layers that have a cache, in their order.
pub fn layer_retention(config: &LagunaConfig) -> (r: Vec<KvLayerRetention>)
    ensures
        r@ == retentions(config.layer_types@, config.sliding_window),
{
    let mut out: Vec<KvLayerRetention> = Vec::new();
    let mut i: usize = 0;
    while i < config.layer_types.len()
        invariant
            i <= config.layer_types@.len(),
            out@ == retentions(config.layer_types@.take(i as int), config.sliding_window),
        decreases config.layer_types@.len() - i,
    {
        proof {
            let next = config.layer_types@.take(i + 1);
            assert(next.drop_last() =~= config.layer_types@.take(i as int));
        }
        match config.layer_types[i] {
            LayerType::FullAttention => {
                out.push(KvLayerRetention::Full);
            },
            LayerType::SlidingAttention => {
                out.push(
                    KvLayerRetention::Sliding { window_tokens: config.sliding_window as usize },
                );
            },
            LayerType::Other => {},
        }
        i = i + 1;
    }
    assert(config.layer_types@.take(i as int) =~= config.layer_types@);
    out
}

/// Cache layout of a model.
pub fn kv_config(config: &LagunaConfig, block_size: usize, prefill_chunk_tokens: usize) -> (r:
    KvCacheConfig)
    ensures
        r.block_size == block_size,
        r.num_kv_heads == config.num_key_value_heads,
        r.head_dim == config.head_dim,
        r.num_layers == config.num_attention_layers,
        r.dtype == KvCacheDtype::Bf16,
        r.layer_dtypes@.len() == 0,
        r.layer_dims@ == config.kv_layer_dims@,
        r.layer_retention@ == retentions(config.layer_types@, config.sliding_window),
        r.prefill_chunk_tokens == prefill_chunk_tokens,
        r.cache_blocks_per_seq is None,
{
    let mut layer_dims: Vec<(usize, usize)> = Vec::new();
    let mut i: usize = 0;
    while i < config.kv_layer_dims.len()
        invariant
            i <= config.kv_layer_dims@.len(),
            layer_dims@ == config.kv_layer_dims@.take(i as int),
        decreases config.kv_layer_dims@.len() - i,
    {
        layer_dims.push(config.kv_layer_dims[i]);
        i = i + 1;
        assert(layer_dims@ =~= config.kv_layer_dims@.take(i as int));
    }
    assert(config.kv_layer_dims@.take(i as int) =~= config.kv_layer_dims@);
    KvCacheConfig {
        block_size,
        num_kv_heads: config.num_key_value_heads,
        head_dim: config.head_dim,
        num_layers: config.num_attention_layers,
        dtype: KvCacheDtype::Bf16,
        layer_dtypes: Vec::new(),
        layer_dims,
        layer_retention: layer_retention(config),
        prefill_chunk_tokens,
        cache_blocks_per_seq: None,
    }
}

/// Blocks that hold `max_batch_size` sequences of `max_seq_len` tokens.
pub fn requested_kv_blocks(block_size: usize, max_seq_len: usize, max_batch_size: usize) -> (r: Result<
    usize,
    BlockCountOverflow,
>)
    requires
        block_size > 0,
    ensures
        r == (if ceil_div(max_seq_len as int, block_size as int) * max_batch_size <= usize::MAX {
            Ok::<usize, BlockCountOverflow>(
                (ceil_div(max_seq_len as int, block_size as int) * max_batch_size) as usize,
            )
        } else {
            Err::<usize, BlockCountOverflow>(BlockCountOverflow)
        }),
{
    match div_ceil(max_seq_len, block_size).checked_mul(max_batch_size) {
        Some(n) => Ok(n),
        None => Err(BlockCountOverflow),
    }
}

proof fn lemma_retentions_len(types: Seq<LayerType>, window: u32)
    ensures
        retentions(types, window).len() <= types.len(),
    decreases types.len(),
{
    if types.len() > 0 {
        lemma_retentions_len(types.drop_last(), window);
    }
}

/// Layers without a cache do not take part: there is at most one retention per
/// layer, and exactly one where every layer has a cache.
pub proof fn law_one_retention_per_cached_layer(types: Seq<LayerType>, window: u32)
    ensures
        retentions(types, window).len() <= types.len(),
        (forall|i: int| 0 <= i < types.len() ==> !(#[trigger] types[i] is Other)) ==> retentions(
            types,
            window,
        ).len() == types.len(),
    decreases types.len(),
{
    lemma_retentions_len(types, window);
    if types.len() > 0 {
        law_one_retention_per_cached_layer(types.drop_last(), window);
        if forall|i: int| 0 <= i < types.len() ==> !(#[trigger] types[i] is Other) {
            assert(!(types[types.len() - 1] is Other));
            assert forall|i: int| 0 <= i < types.drop_last().len() implies !(
            #[trigger] types.drop_last()[i] is Other) by {
                assert(!(types[i] is Other));
            }
        }
    }
}

} // verus!
