use spark_model::env::EnvVars;
use spark_model::moe::decode_worklist::{DecodeExpertGroup, DecodeWorklist, DecodeWorklistError};
use spark_model::moe::forward_exl3::row_router_required;
use spark_model::moe::forward_prefill_compact::{
    compact_nvfp4_decode_enabled, compact_nvfp4_decode_mode, persistent_nvfp4_decode_enabled,
    CompactMode,
};
use spark_model::moe::forward_routed::{max_m_tiles, wants_exact_tiles};
use spark_model::moe::k2_dispatch::{batch2_block_width, k2_e8m0_needs_per_token};
use spark_model::moe::stream_tables::active_experts_from_offsets;
use spark_model::ops::b12x_flashinfer::{
    after_warmup, available, max_tokens, reported_mask, static_batch_supported, B12xLib,
};
use spark_model::ops::gdn_flashinfer::want_f32_output;
use spark_model::ops::mgemm_grid::grid;
use spark_model::weights::WeightQuantFormat;

fn env(vars: &[(&str, &str)]) -> EnvVars {
    EnvVars { vars: vars.iter().map(|(k, v)| (k.to_string(), v.to_string())).collect() }
}

#[test]
fn groups_routes_stably_without_padding() {
    let plan = DecodeWorklist::build(&[3, 1, 3, 1, 2], 4).unwrap();
    assert_eq!(plan.live_rows(), 5);
    assert_eq!(plan.sorted_routes, vec![1, 3, 4, 0, 2]);
    assert_eq!(
        plan.groups,
        vec![
            DecodeExpertGroup { expert_id: 1, route_start: 0, rows: 2 },
            DecodeExpertGroup { expert_id: 2, route_start: 2, rows: 1 },
            DecodeExpertGroup { expert_id: 3, route_start: 3, rows: 2 },
        ]
    );
    assert_eq!(plan.route_to_sorted, vec![3, 0, 4, 1, 2]);
}

#[test]
fn splits_only_a_hot_expert_at_eight_live_rows() {
    let plan = DecodeWorklist::build(&[2; 17], 4).unwrap();
    assert_eq!(plan.live_rows(), 17);
    assert_eq!(plan.sorted_routes, (0..17).collect::<Vec<_>>());
    assert_eq!(
        plan.groups,
        vec![
            DecodeExpertGroup { expert_id: 2, route_start: 0, rows: 8 },
            DecodeExpertGroup { expert_id: 2, route_start: 8, rows: 8 },
            DecodeExpertGroup { expert_id: 2, route_start: 16, rows: 1 },
        ]
    );
}

#[test]
fn route_and_sorted_maps_round_trip() {
    let ids = [5, 0, 5, 2, 0, 5, 2, 5];
    let plan = DecodeWorklist::build(&ids, 6).unwrap();
    for (sorted, &route) in plan.sorted_routes.iter().enumerate() {
        assert_eq!(plan.route_to_sorted[route as usize], sorted as u32);
    }
}

#[test]
fn rejects_out_of_range_experts() {
    assert_eq!(
        DecodeWorklist::build(&[0, 4], 4),
        Err(DecodeWorklistError::InvalidExpert { route: 1, expert: 4 })
    );
}

#[test]
fn c8_sparse_routes_remain_unpadded() {
    let ids: Vec<u32> = (0..64).map(|route| route % 57).collect();
    let plan = DecodeWorklist::build(&ids, 256).unwrap();
    assert_eq!(plan.live_rows(), 64);
    assert_eq!(plan.groups.len(), 57);
    assert!(plan.groups.iter().all(|group| group.rows <= 2));
}

#[test]
fn no_routes_give_an_empty_worklist() {
    let plan = DecodeWorklist::build(&[], 4).unwrap();
    assert_eq!(plan.live_rows(), 0);
    assert!(plan.groups.is_empty());
}

#[test]
fn the_first_bad_route_is_named() {
    assert_eq!(
        DecodeWorklist::build(&[9, 1, 8], 4),
        Err(DecodeWorklistError::InvalidExpert { route: 0, expert: 9 })
    );
}

#[test]
fn groups_tile_the_sorted_routes() {
    let ids: Vec<u32> = (0..100).map(|i| (i * i) % 7).collect();
    let plan = DecodeWorklist::build(&ids, 7).unwrap();
    let mut at = 0;
    for g in &plan.groups {
        assert_eq!(g.route_start, at);
        assert!(1 <= g.rows && g.rows <= 8);
        for r in 0..g.rows as u32 {
            let route = plan.sorted_routes[(at + r) as usize];
            assert_eq!(ids[route as usize], g.expert_id);
        }
        at += g.rows as u32;
    }
    assert_eq!(at, 100);
}

#[test]
fn group_rows_add_up_to_the_routes() {
    for n in [0u32, 1, 7, 8, 9, 64, 100] {
        let ids: Vec<u32> = (0..n).map(|i| (i * 5) % 3).collect();
        let plan = DecodeWorklist::build(&ids, 3).unwrap();
        let rows: usize = plan.groups.iter().map(|g| g.rows as usize).sum();
        assert_eq!(rows, ids.len());
        assert_eq!(plan.live_rows(), ids.len());
    }
}

#[test]
fn row_router_is_limited_to_opted_in_small_verify_batches() {
    for rows in 2..=4 {
        assert!(row_router_required(true, true, rows));
        assert!(!row_router_required(false, true, rows));
        assert!(!row_router_required(true, false, rows));
    }
    for rows in [0, 1, 5, 16, 256] {
        assert!(!row_router_required(true, true, rows));
    }
}

#[test]
fn batch2_block_width_is_one_of_the_two_widths_the_kernel_implements() {
    for hidden in [1024usize, 2048, 2560, 2688, 2816, 3072, 4096, 5120, 7168] {
        let w = batch2_block_width(hidden);
        assert!(w == 128 || w == 256, "hidden={hidden} → unsupported {w}");
    }
}

#[test]
fn batch2_block_width_widens_at_3072() {
    assert_eq!(batch2_block_width(2048), 128);
    assert_eq!(batch2_block_width(2816), 128);
    assert_eq!(batch2_block_width(3071), 128);
    assert_eq!(batch2_block_width(3072), 256);
    assert_eq!(batch2_block_width(4096), 256);
    assert_eq!(batch2_block_width(5120), 256);
}

#[test]
fn e8m0_takes_per_token_path_not_gs16_batch2() {
    assert!(k2_e8m0_needs_per_token(WeightQuantFormat::Mxfp4E8m0));
}

#[test]
fn nvfp4_still_takes_batch2_kernel() {
    assert!(!k2_e8m0_needs_per_token(WeightQuantFormat::Nvfp4));
}

#[test]
fn bf16_and_fp8_dispatch_unchanged() {
    for f in [
        WeightQuantFormat::Bf16,
        WeightQuantFormat::Fp8SingleScale,
        WeightQuantFormat::Fp8PerRow,
    ] {
        assert!(!k2_e8m0_needs_per_token(f));
    }
}

#[test]
fn no_e8m0_tensor_reaches_gs16_batch2() {
    let all = [
        WeightQuantFormat::Bf16,
        WeightQuantFormat::Fp8PerRow,
        WeightQuantFormat::Fp8BlockScaled,
        WeightQuantFormat::Fp8SingleScale,
        WeightQuantFormat::Nvfp4,
        WeightQuantFormat::Mxfp4E8m0,
    ];
    for f in all {
        assert_eq!(
            k2_e8m0_needs_per_token(f),
            f == WeightQuantFormat::Mxfp4E8m0,
            "only Mxfp4E8m0 diverts to the per-token path"
        );
    }
}

#[test]
fn e8m0_gs32_scale_alloc_is_half_the_gs16_kernel_read() {
    for (h, inter) in [(4096usize, 2048usize), (2048, 1408), (5120, 1536)] {
        let e8m0_alloc = inter * (h / 32);
        let gs16_read = inter * (h / 16);
        assert_eq!(gs16_read, 2 * e8m0_alloc);
    }
}

/// Running sums of per-expert counts, starting at zero, little endian.
fn offsets_bytes(counts: &[i32]) -> Vec<u8> {
    let mut acc = 0i32;
    let mut prefix = Vec::with_capacity(counts.len() + 1);
    prefix.push(0i32);
    for &c in counts {
        acc += c;
        prefix.push(acc);
    }
    prefix.iter().flat_map(|v| v.to_le_bytes()).collect()
}

#[test]
fn active_set_is_exactly_count_gt_zero() {
    let counts = [0, 2, 0, 1, 5, 0];
    let bytes = offsets_bytes(&counts);
    let active = active_experts_from_offsets(&bytes, 0, 6);
    assert_eq!(active, vec![1, 3, 4]);
}

#[test]
fn active_set_respects_local_range_ep_scope() {
    let counts = [0, 2, 0, 1, 5, 0];
    let bytes = offsets_bytes(&counts);
    let active = active_experts_from_offsets(&bytes, 2, 5);
    assert_eq!(active, vec![3, 4]);
}

#[test]
fn decode_m1_yields_at_most_top_k() {
    let mut counts = vec![0i32; 256];
    for e in [3, 17, 42, 99, 128, 200, 201, 255] {
        counts[e] = 1;
    }
    let bytes = offsets_bytes(&counts);
    let active = active_experts_from_offsets(&bytes, 0, 256);
    assert_eq!(active, vec![3, 17, 42, 99, 128, 200, 201, 255]);
    assert_eq!(active.len(), 8);
}

#[test]
fn empty_active_set_when_no_local_expert_routed() {
    let counts = [0, 5, 0, 0];
    let bytes = offsets_bytes(&counts);
    assert!(active_experts_from_offsets(&bytes, 2, 4).is_empty());
}

#[test]
fn static_batch_mask_is_exact() {
    let mask = (1u32 << 4) | (1u32 << 8);
    assert!(static_batch_supported(mask, 4));
    assert!(static_batch_supported(mask, 8));
    assert!(!static_batch_supported(mask, 3));
    assert!(!static_batch_supported(mask, 7));
    assert!(!static_batch_supported(mask, 32));
}

#[test]
fn unavailable_without_lib() {
    assert!(!available(&env(&[]), None), "b12x must be unavailable without the shim lib");
    assert!(!available(&env(&[("ATLAS_MOE_B12X", "1")]), None));
    assert_eq!(max_tokens(None), None, "no capacity without the shim lib");
}

#[test]
fn a_loaded_library_reports_its_capacity() {
    let lib = B12xLib { max_tokens: 4096, static_mask: 0, has_static: false };
    assert_eq!(max_tokens(Some(lib)), Some(4096));
    assert!(available(&env(&[("ATLAS_MOE_B12X", "1")]), Some(lib)));
    assert!(!available(&env(&[]), Some(lib)));
}

#[test]
fn a_failed_warmup_drops_one_batch_size() {
    let mask = reported_mask(0x110);
    assert_eq!(mask, 0x110);
    assert_eq!(after_warmup(mask, 8, 0), 0x110);
    assert_eq!(after_warmup(mask, 8, -1), 0x010);
}

#[test]
fn verify_keeps_decode_split_and_schedules_extra_slot_waves() {
    assert_eq!(grid(64, 8, 48, None), Some((6, 8)));
    assert_eq!(grid(64, 24, 48, None), Some((2, 24)));
    assert_eq!(grid(64, 24, 48, Some(8)), Some((6, 8)));
}

#[test]
fn every_replay_preserves_decode_split_and_cooperative_residency() {
    for sms in [1, 16, 48, 80, 132] {
        for tiles in [1, 4, 16, 128, 1024, 16384] {
            for experts in [1, 2, 8, 10, 32] {
                let serial = grid(tiles, experts, sms, None).unwrap();
                for rows in 1..=4 {
                    let slots = rows * experts;
                    let replay = grid(tiles, slots, sms, Some(experts)).unwrap();
                    assert_eq!(replay.0, serial.0);
                    assert!(replay.0 * replay.1 <= sms);
                    assert!(replay.1 > 0 && replay.1 <= slots);
                    let visited: Vec<_> = (0..slots.div_ceil(replay.1))
                        .flat_map(|wave| (0..replay.1).map(move |z| wave * replay.1 + z))
                        .filter(|&slot| slot < slots)
                        .collect();
                    assert_eq!(visited, (0..slots).collect::<Vec<_>>());
                }
            }
        }
    }
}

#[test]
fn invalid_launch_dimensions_are_refused() {
    for args in [
        (0, 8, 48, None),
        (128, 0, 48, None),
        (128, 8, 0, None),
        (128, 8, 48, Some(0)),
        (128, 8, 48, Some(3)),
    ] {
        assert_eq!(grid(args.0, args.1, args.2, args.3), None);
    }
}

#[test]
fn f32_output_requires_symbol() {
    assert!(!want_f32_output(false, None));
    assert!(!want_f32_output(false, Some("1")));
    assert!(!want_f32_output(false, Some("0")));
}

#[test]
fn f32_output_default_on_when_capable() {
    assert!(want_f32_output(true, None));
    assert!(want_f32_output(true, Some("1")));
}

#[test]
fn f32_output_kill_switch() {
    assert!(!want_f32_output(true, Some("0")));
}

#[test]
fn counted_tiles_cover_the_busiest_expert() {
    let offs = offsets_bytes(&[3, 130, 0, 64]);
    let exact = env(&[("ATLAS_MOE_PREFILL_EXACT_TILES", "1")]);
    assert!(wants_exact_tiles(&exact, false));
    assert!(!wants_exact_tiles(&exact, true));
    assert!(!wants_exact_tiles(&env(&[]), false));
    assert_eq!(max_m_tiles(&exact, 25, 8, 4, Some(&offs)), 3);
}

#[test]
fn uncounted_tiles_hold_all_rows_at_one_expert() {
    assert_eq!(max_m_tiles(&env(&[]), 25, 8, 4, None), 4);
    assert_eq!(max_m_tiles(&env(&[]), 0, 8, 4, None), 1);
}

#[test]
fn a_load_factor_bounds_uncounted_tiles() {
    // 800 rows over 8 experts: 100 each, at most 200 of them at one.
    let two = env(&[("ATLAS_MOE_PREFILL_MAX_LOAD_FACTOR", "2")]);
    assert_eq!(max_m_tiles(&two, 100, 8, 8, None), 4);
    for bad in ["0", "x", "-1", ""] {
        let e = env(&[("ATLAS_MOE_PREFILL_MAX_LOAD_FACTOR", bad)]);
        assert_eq!(max_m_tiles(&e, 100, 8, 8, None), 13);
    }
    let huge = env(&[("ATLAS_MOE_PREFILL_MAX_LOAD_FACTOR", "1000000")]);
    assert_eq!(max_m_tiles(&huge, 100, 8, 8, None), 13);
}

#[test]
fn compact_decode_follows_its_variable() {
    let name = "ATLAS_MOE_NVFP4_COMPACT_DECODE";
    for (value, mode) in [
        ("1", Some(CompactMode::Both)),
        ("both", Some(CompactMode::Both)),
        ("gateup", Some(CompactMode::GateUp)),
        ("down", Some(CompactMode::Down)),
        ("0", None),
    ] {
        let e = env(&[(name, value)]);
        assert_eq!(compact_nvfp4_decode_mode(&e), mode);
        assert_eq!(compact_nvfp4_decode_enabled(&e), mode.is_some());
    }
    assert_eq!(compact_nvfp4_decode_mode(&env(&[])), None);
    assert!(!persistent_nvfp4_decode_enabled(&env(&[])));
    assert!(persistent_nvfp4_decode_enabled(&env(&[("ATLAS_MOE_PERSISTENT_DECODE", "1")])));
}
