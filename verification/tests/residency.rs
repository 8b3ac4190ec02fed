use spark_model::device::{Command, CommandBuffer, DevicePtr, Scalar};
use spark_model::laguna_metal::{
    kv_config, layer_retention, requested_kv_blocks, validate_profile, BlockCountOverflow,
    KvLayerRetention, LagunaConfig, LayerType, ProfileError,
};
use spark_model::attention::high_speed_swap::KvCacheDtype;
use spark_model::moe::stream_tables::{
    after_streamed_layer, apply_patch, encode_u64s, install_streamed_tables, patch_list, request_streamed,
    reactive_max_tokens, streamed_tables, takes_reactive_path, ExpertPtrTable, InstallError, Patch,
    Shadow,
};
use spark_model::moe::streamer::{
    arena_shape, ExpertResidency, ExpertStreamerShared, Fetch, Job, Proj, ProjResidency,
    StoreIndex, StreamConfig, StreamOpenError, TierKind,
};
use spark_model::num::{decode_scalars, decode_u64s};
use spark_model::ops_table::DeviceOp;

fn config(arena_layers: usize) -> StreamConfig {
    StreamConfig { has_store_dir: true, num_experts: 8, local_lo: 2, local_hi: 6, arena_layers }
}

const INDEX: StoreIndex = StoreIndex { num_experts: 8, num_moe_layers: 4 };

fn book(arena_layers: usize) -> ExpertStreamerShared {
    match ExpertStreamerShared::open(&config(arena_layers), &INDEX, TierKind::Posix) {
        Ok(s) => s,
        Err(e) => panic!("{e:?}"),
    }
}

fn residency(base: u64) -> ExpertResidency {
    let p = |i: u64| ProjResidency { packed_addr: base + i, scale_addr: base + 10 + i, scale2: Scalar((base + 20 + i) as u32) };
    ExpertResidency { gate: p(0), up: p(1), down: p(2) }
}

#[test]
fn a_store_is_refused_for_each_reason() {
    let mut c = config(0);
    c.has_store_dir = false;
    assert_eq!(arena_shape(&c, &INDEX), Err(StreamOpenError::NoStoreDir));
    let mut c = config(0);
    c.num_experts = 16;
    assert_eq!(
        arena_shape(&c, &INDEX),
        Err(StreamOpenError::ExpertCountMismatch { store: 8, model: 16 })
    );
    let mut c = config(0);
    c.local_hi = 2;
    assert_eq!(arena_shape(&c, &INDEX), Err(StreamOpenError::EmptyLocalRange));
}

#[test]
fn the_ring_holds_all_layers_or_as_many_as_asked() {
    assert_eq!(book(0).num_slabs(), 4);
    assert_eq!(book(2).num_slabs(), 2);
    assert_eq!(book(9).num_slabs(), 4);
    let b = book(1);
    assert_eq!(b.num_slabs(), 1);
    assert_eq!(b.num_moe_layers(), 4);
    assert_eq!(b.kind(), TierKind::Posix);
}

#[test]
fn a_prefetch_hands_out_one_job() {
    let mut b = book(2);
    assert_eq!(b.prefetch(1, 2, 6), Some(Job { dense: 1, lo: 2, hi: 6, experts: None }));
    assert_eq!(b.prefetch(1, 2, 6), None);
    assert_eq!(b.prefetch(9, 2, 6), None);
}

#[test]
fn a_job_fetches_each_expert_into_its_slot() {
    let j = Job { dense: 3, lo: 2, hi: 5, experts: None };
    let at = |expert: u32| Fetch { dense: 3, expert, slab: 1, slot: expert - 2 };
    assert_eq!(j.fetches(2), vec![at(2), at(3), at(4)]);
    let some = Job { dense: 3, lo: 2, hi: 5, experts: Some(vec![4, 2]) };
    assert_eq!(some.fetches(2), vec![at(4), at(2)]);
}

#[test]
fn a_taken_layer_is_a_hit_until_its_slab_is_claimed() {
    let mut b = book(2);
    b.prefetch(0, 2, 6);
    b.complete(0, Ok(vec![residency(100)]));
    assert_eq!(b.take(0), Some(Ok(vec![residency(100)])));
    assert_eq!(b.prefetch(0, 2, 6), None);
    assert_eq!(b.take(0), Some(Ok(vec![residency(100)])));
    // Layer 2 lands in the same slab.
    assert!(b.prefetch(2, 2, 6).is_some());
    assert!(b.prefetch(0, 2, 6).is_some());
}

#[test]
fn a_full_arena_never_evicts() {
    let mut b = book(0);
    for d in 0..4 {
        b.prefetch(d, 2, 6);
        b.complete(d, Ok(vec![residency(d as u64)]));
        b.take(d);
    }
    for d in 0..4 {
        assert_eq!(b.prefetch(d, 2, 6), None);
    }
}

#[test]
fn a_failed_fetch_is_handed_on_and_can_be_repeated() {
    let mut b = book(2);
    b.prefetch(1, 2, 6);
    b.complete(1, Err("lost".to_string()));
    assert_eq!(b.take(1), Some(Err("lost".to_string())));
    assert!(b.prefetch(1, 2, 6).is_some());
}

#[test]
fn a_sparse_fetch_leaves_nothing_resident() {
    let mut b = book(2);
    b.prefetch(1, 2, 6);
    b.complete(1, Ok(vec![residency(5)]));
    b.take(1);
    let j = b.prefetch_sparse(1, &[3, 5], 2, 6);
    assert_eq!(j, Some(Job { dense: 1, lo: 2, hi: 6, experts: Some(vec![3, 5]) }));
    b.complete(1, Ok(vec![residency(7), residency(8)]));
    assert_eq!(b.take_active(1), Some(Ok(vec![residency(7), residency(8)])));
    assert!(b.prefetch(1, 2, 6).is_some());
}

#[test]
fn slab_events_name_the_ring_position() {
    let b = book(2);
    let mut cb = CommandBuffer::new();
    b.wait_slab_free(&mut cb, 3);
    b.record_consumed(&mut cb, 3);
    assert_eq!(
        cb.commands,
        vec![
            Command::Op(DeviceOp::WaitSlabFree { slab: 1 }),
            Command::Op(DeviceOp::RecordSlabConsumed { slab: 1 }),
        ]
    );
}

#[test]
fn a_consumed_layer_asks_for_the_next() {
    let mut b = book(2);
    let mut cb = CommandBuffer::new();
    let j = after_streamed_layer(&mut b, &mut cb, 0, 2, 6, false);
    assert_eq!(j, Some(Job { dense: 1, lo: 2, hi: 6, experts: None }));
    assert_eq!(
        cb.commands,
        vec![
            Command::Op(DeviceOp::RecordSlabConsumed { slab: 0 }),
            Command::Op(DeviceOp::WaitSlabFree { slab: 1 }),
        ]
    );
    assert_eq!(after_streamed_layer(&mut b, &mut cb, 3, 2, 6, false), None);
    assert_eq!(after_streamed_layer(&mut b, &mut cb, 0, 2, 6, true), None);
}

#[test]
fn a_slab_is_free_before_its_refill_is_sent() {
    let mut b = book(2);
    let mut cb = CommandBuffer::new();
    let j = request_streamed(&mut b, &mut cb, 3, 2, 6, None);
    assert_eq!(j, Some(Job { dense: 3, lo: 2, hi: 6, experts: None }));
    assert_eq!(cb.commands, vec![Command::Op(DeviceOp::WaitSlabFree { slab: 1 })]);
    assert_eq!(request_streamed(&mut b, &mut cb, 3, 2, 6, None), None);
    assert_eq!(cb.commands.len(), 1);
    b.complete(3, Ok(vec![residency(5)]));
    b.take(3);
    assert_eq!(request_streamed(&mut b, &mut cb, 3, 2, 6, None), None);
    let ids = vec![4, 2];
    let j = request_streamed(&mut b, &mut cb, 1, 2, 6, Some(&ids));
    assert_eq!(j, Some(Job { dense: 1, lo: 2, hi: 6, experts: Some(vec![4, 2]) }));
    assert_eq!(cb.commands[1..], [Command::Op(DeviceOp::WaitSlabFree { slab: 1 })]);
    // The sparse fetch took the slab from layer 3, so its whole range is fetched again.
    assert!(request_streamed(&mut b, &mut cb, 3, 2, 6, None).is_some());
}

#[test]
fn the_reactive_path_is_for_small_eager_batches() {
    assert_eq!(reactive_max_tokens(Some("7")), 7);
    assert_eq!(reactive_max_tokens(None), 1);
    assert_eq!(reactive_max_tokens(Some("x")), 1);
    assert!(takes_reactive_path(true, false, 4, 4));
    assert!(!takes_reactive_path(true, false, 5, 4));
    assert!(!takes_reactive_path(true, true, 1, 4));
    assert!(!takes_reactive_path(false, false, 1, 4));
}

fn shadow() -> Shadow {
    Shadow { packed: vec![1, 2, 3], scale: vec![4, 5, 6], scale2: vec![Scalar(7), Scalar(8), Scalar(9)] }
}

#[test]
fn pointer_tables_round_trip() {
    let vals = vec![0u64, 1, u64::MAX, 0x0123_4567_89ab_cdef];
    assert_eq!(decode_u64s(&encode_u64s(&vals), 4), vals);
    assert_eq!(encode_u64s(&vec![1])[0], 1);
}

#[test]
fn only_patched_entries_change() {
    let mut s = shadow();
    apply_patch(&mut s, &vec![Patch { expert: 1, at: residency(50) }], Proj::Up);
    assert_eq!(s.packed, vec![1, 51, 3]);
    assert_eq!(s.scale, vec![4, 61, 6]);
    assert_eq!(s.scale2, vec![Scalar(7), Scalar(71), Scalar(9)]);
}

#[test]
fn a_patch_covers_the_range_or_the_active_experts() {
    let r = vec![residency(1), residency(2)];
    let full = patch_list(None, 4, 6, &r).unwrap();
    assert_eq!(full[0].expert, 4);
    assert_eq!(full[1].expert, 5);
    let active = patch_list(Some(&vec![5, 4]), 4, 6, &r).unwrap();
    assert_eq!(active[0].expert, 5);
    assert_eq!(
        patch_list(None, 4, 7, &r),
        Err(InstallError::ResidencyCount { got: 2, expected: 3 })
    );
}

#[test]
fn streamed_tables_need_all_three() {
    let t = ExpertPtrTable { packed_ptrs: DevicePtr(1), scale_ptrs: DevicePtr(2), scale2_vals: DevicePtr(3) };
    assert_eq!(streamed_tables(Some(t), None, Some(t)), Err(InstallError::TablesMissing));
    assert!(streamed_tables(Some(t), Some(t), Some(t)).is_ok());
}

#[test]
fn an_install_rewrites_nine_tables() {
    let t = |b: u64| ExpertPtrTable { packed_ptrs: DevicePtr(b), scale_ptrs: DevicePtr(b + 1), scale2_vals: DevicePtr(b + 2) };
    let tables = streamed_tables(Some(t(10)), Some(t(20)), Some(t(30))).unwrap();
    let (mut g, mut u, mut d) = (shadow(), shadow(), shadow());
    let w = install_streamed_tables(&tables, &mut g, &mut u, &mut d, &vec![Patch { expert: 2, at: residency(90) }]);
    assert_eq!(w.iter().map(|x| x.dst.0).collect::<Vec<_>>(), vec![10, 11, 12, 20, 21, 22, 30, 31, 32]);
    assert_eq!(decode_u64s(&w[6].bytes, 3), vec![1, 2, 92]);
    assert_eq!(decode_scalars(&w[2].bytes, 3), vec![Scalar(7), Scalar(8), Scalar(110)]);
}

#[test]
fn each_profile_rule_has_its_error() {
    let bf = KvCacheDtype::Bf16;
    assert_eq!(validate_profile(bf, 65_536, 1, 2_048, false, false, false), Ok(()));
    assert_eq!(validate_profile(KvCacheDtype::Fp8, 1, 1, 1, false, false, false), Err(ProfileError::KvDtype));
    assert_eq!(validate_profile(bf, 65_537, 1, 1, false, false, false), Err(ProfileError::SeqLen));
    assert_eq!(validate_profile(bf, 1, 2, 1, false, false, false), Err(ProfileError::BatchSize));
    assert_eq!(validate_profile(bf, 1, 1, 2_049, false, false, false), Err(ProfileError::PrefillTokens));
    assert_eq!(validate_profile(bf, 1, 1, 1, true, false, false), Err(ProfileError::Speculative));
    assert_eq!(validate_profile(bf, 1, 1, 1, false, true, false), Err(ProfileError::Speculative));
    assert_eq!(validate_profile(bf, 1, 1, 1, false, false, true), Err(ProfileError::Lora));
}

fn laguna() -> LagunaConfig {
    LagunaConfig {
        layer_types: vec![LayerType::FullAttention, LayerType::Other, LayerType::SlidingAttention],
        sliding_window: 512,
        num_key_value_heads: 8,
        head_dim: 128,
        num_attention_layers: 2,
        kv_layer_dims: vec![(8, 128), (4, 64)],
    }
}

#[test]
fn retention_skips_layers_without_a_cache() {
    assert_eq!(
        layer_retention(&laguna()),
        vec![KvLayerRetention::Full, KvLayerRetention::Sliding { window_tokens: 512 }]
    );
}

#[test]
fn a_cache_layout_copies_the_model() {
    let k = kv_config(&laguna(), 16, 2048);
    assert_eq!((k.block_size, k.num_kv_heads, k.head_dim, k.num_layers), (16, 8, 128, 2));
    assert_eq!(k.layer_dims, vec![(8, 128), (4, 64)]);
    assert_eq!(k.prefill_chunk_tokens, 2048);
    assert_eq!(k.layer_retention.len(), 2);
}

#[test]
fn requested_blocks_round_up_per_sequence() {
    assert_eq!(requested_kv_blocks(16, 65, 3), Ok(15));
    assert_eq!(requested_kv_blocks(1, usize::MAX, 2), Err(BlockCountOverflow));
}
