use half::{bf16, f16};
use spark_model::codec::{e4m3_byte_to_f32, e4m3_to_f32, f32_to_bf16_bits, f32_to_e4m3};
use spark_model::device::{Command, CommandBuffer, DevicePtr, Scalar};
use spark_model::float::f32_mul;
use spark_model::moe::b12x_scales::{
    bake_single, bake_w13_logical, bake_w13_rows, build_sf_tables, f32_slice_bytes, ones_f32_bytes,
    sfb_len, sfb_strategy_from_env, swizzle_sfb, ExpertScaleSrc, SfTables,
    SfbLayoutMissing, SfbStrategy, ONE_BITS,
};
use spark_model::moe::b12x_weights::{
    bakes_w2, eligibility, B12xEligibility, B12xGeometry,
};
use spark_model::moe::marlin_scales::{
    combined_scale_factor, encode_s0e5m3, process, process_global, transpose_single, transpose_w13,
};
use spark_model::moe::marlin_weights::{logical_w13, logical_w2, marlin_scale_bytes};
use spark_model::ops_table::DeviceOp;
use spark_model::env::EnvVars;

fn enc(v: f32) -> u8 {
    f32_to_e4m3(Scalar(v.to_bits()))
}

fn dec(b: u8) -> f32 {
    f32::from_bits(e4m3_to_f32(b).0)
}

fn sc(v: f32) -> Scalar {
    Scalar(v.to_bits())
}

#[test]
fn e4m3_roundtrip_representative() {
    // Magnitudes that the format holds exactly come back bit for bit.
    for &v in &[0.0f32, 0.5, 1.0, 1.5, 2.0, 3.0, 8.0, 0.125, 0.25, 448.0] {
        let e = enc(v);
        assert_eq!(dec(e), v, "roundtrip {v} -> 0x{e:02x} -> {}", dec(e));
    }
}

#[test]
fn e4m3_satfinite_clamps_overflow() {
    assert_eq!(enc(1.0e9), 0x7E);
    assert_eq!(enc(500.0), 0x7E);
    assert!(dec(0x7E) == 448.0);
    assert_eq!(enc(f32::NAN), 0x7F);
}

#[test]
fn e4m3_decode_known_bytes() {
    assert_eq!(dec(0x38), 1.0);
    assert_eq!(dec(0x40), 2.0);
    assert_eq!(dec(0x00), 0.0);
}

#[test]
fn bake_w13_multiplies_by_scale2_and_concats() {
    let h = 16;
    let inter = 2;
    let up = vec![enc(1.0), enc(2.0)];
    let gate = vec![enc(4.0), enc(0.5)];
    let baked = bake_w13_logical(&up, &gate, sc(2.0), sc(0.5), h, inter);
    assert_eq!(baked.len(), (h / 16) * 2 * inter);
    assert_eq!(dec(baked[0]), 2.0);
    assert_eq!(dec(baked[1]), 4.0);
    assert_eq!(dec(baked[2]), 2.0);
    assert_eq!(dec(baked[3]), 0.25);
}

#[test]
fn bake_single_preserves_layout() {
    let s = vec![enc(1.0), enc(2.0), enc(3.0)];
    let b = bake_single(&s, sc(2.0));
    assert_eq!(b.len(), 3);
    assert_eq!(dec(b[0]), 2.0);
    assert_eq!(dec(b[1]), 4.0);
    assert_eq!(dec(b[2]), 6.0);
}

#[test]
fn ones_and_slice_bytes() {
    let ones = ones_f32_bytes(3);
    assert_eq!(ones.len(), 12);
    for c in ones.chunks_exact(4) {
        assert_eq!(f32::from_le_bytes(c.try_into().unwrap()), 1.0);
    }
    let s = f32_slice_bytes(&[Scalar(0.5f32.to_bits()), Scalar(2.5f32.to_bits())]);
    assert_eq!(f32::from_le_bytes(s[0..4].try_into().unwrap()), 0.5);
    assert_eq!(f32::from_le_bytes(s[4..8].try_into().unwrap()), 2.5);
}

#[test]
fn sfb_len_holo_dims() {
    assert_eq!(sfb_len(1024, 2048), 131072);
    assert_eq!(sfb_len(2048, 512), 65536);
}

#[test]
fn strategy_env_default_is_concat() {
    assert_eq!(sfb_strategy_from_env(Some("rebuild")), SfbStrategy::RebuildFromRaw);
    assert_eq!(sfb_strategy_from_env(Some("concat")), SfbStrategy::ConcatReuse);
    assert_eq!(sfb_strategy_from_env(None), SfbStrategy::ConcatReuse);
}

#[test]
fn eligibility_truth_table() {
    assert_eq!(eligibility(true, 1, false), B12xEligibility::ErrStreamer);
    assert_eq!(eligibility(true, 4, true), B12xEligibility::ErrStreamer);
    assert_eq!(eligibility(false, 2, false), B12xEligibility::SkipEp);
    assert_eq!(eligibility(false, 1, true), B12xEligibility::SkipNullExpert);
    assert_eq!(eligibility(false, 1, false), B12xEligibility::Build);
}

#[test]
fn eligibility_precedence_streamer_over_all() {
    assert_eq!(eligibility(true, 8, true), B12xEligibility::ErrStreamer);
}

#[test]
fn laguna_fp4_buffer_geometry() {
    let (e, h, inter) = (256usize, 3072usize, 1024usize);
    let g = B12xGeometry { experts: e, h, inter };
    let w13_stride = g.w13_stride();
    assert_eq!(w13_stride, 3 * 1024 * 1024);
    assert_eq!(e * w13_stride, 768 * 1024 * 1024);
    let w2_stride = g.w2_stride();
    assert_eq!(w2_stride, 3072 * 512);
    assert_eq!(e * w2_stride, 384 * 1024 * 1024);
    let up_bytes = g.up_bytes();
    assert_eq!(up_bytes, 1024 * 1536);
    assert_eq!(w13_stride, up_bytes * 2);
}

#[test]
fn laguna_sf_buffer_geometry() {
    let (e, h, inter) = (256usize, 3072usize, 1024usize);
    assert_eq!(sfb_len(2 * inter, h), 384 * 1024);
    assert_eq!(sfb_len(h, inter), 192 * 1024);
    assert_eq!(e * sfb_len(2 * inter, h), 96 * 1024 * 1024);
    assert_eq!(e * sfb_len(h, inter), 48 * 1024 * 1024);
}

#[test]
fn transpose_w13_is_gate_then_up() {
    let gate = [0, 1, 2, 3, 4, 5];
    let up = [10, 11, 12, 13, 14, 15];
    assert_eq!(
        transpose_w13(&gate, &up, 3, 2),
        [0, 2, 4, 10, 12, 14, 1, 3, 5, 11, 13, 15]
    );
}

#[test]
fn scale_factor_is_shared_power_of_two() {
    assert_eq!(combined_scale_factor(&[vec![0x38; 64]]), 256);
    assert_eq!(combined_scale_factor(&[vec![0x7e; 64]]), 1);
}

#[test]
fn processing_matches_vllm_marlin_reference() {
    let raw = [0x20, 0x28, 0x30, 0x38, 0x40, 0x48, 0x50, 0x58].repeat(8);
    let factor = combined_scale_factor(&[raw.clone()]);
    assert_eq!(factor, 16);
    assert_eq!(
        process(&raw, factor),
        [
            184, 184, 184, 184, 184, 184, 184, 184, 192, 192, 192, 192, 192, 192, 192, 192, 200,
            200, 200, 200, 200, 200, 200, 200, 208, 208, 208, 208, 208, 208, 208, 208, 216, 216,
            216, 216, 216, 216, 216, 216, 224, 224, 224, 224, 224, 224, 224, 224, 232, 232, 232,
            232, 232, 232, 232, 232, 240, 240, 240, 240, 240, 240, 240, 240,
        ]
    );
}

/// Value of a code by the definition of the format.
fn e4m3_value(b: u8) -> f32 {
    let sign = if b & 0x80 != 0 { -1.0 } else { 1.0 };
    let e = ((b >> 3) & 15) as i32;
    let m = (b & 7) as f32;
    if e == 0 {
        sign * m / 8.0 * 2f32.powi(-6)
    } else {
        sign * (1.0 + m / 8.0) * 2f32.powi(e - 7)
    }
}

#[test]
fn every_code_decodes_to_its_value() {
    for b in 0..=255u8 {
        if b & 0x7f == 0x7f {
            assert!(dec(b).is_nan());
            assert_eq!(e4m3_byte_to_f32(b).0, 0);
        } else {
            assert_eq!(dec(b), e4m3_value(b));
            assert_eq!(f32::from_bits(e4m3_byte_to_f32(b).0), e4m3_value(b));
        }
    }
}

#[test]
fn every_finite_code_survives_decoding_and_encoding() {
    for b in 0..=255u8 {
        if b & 0x7f != 0x7f {
            assert_eq!(enc(dec(b)), b);
        }
    }
}

#[test]
fn encoding_picks_the_nearest_code() {
    for i in 0..0x7eu8 {
        let lo = dec(i);
        let hi = dec(i + 1);
        let quarter = lo + (hi - lo) * 0.25;
        let middle = lo + (hi - lo) * 0.5;
        let most = lo + (hi - lo) * 0.75;
        assert_eq!(enc(quarter), i);
        assert_eq!(enc(most), i + 1);
        // Halfway goes to the even code.
        assert_eq!(enc(middle), if i % 2 == 0 { i } else { i + 1 });
        assert_eq!(enc(-quarter), if i == 0 { 0x80 } else { 0x80 + i });
    }
}

#[test]
fn larger_values_never_get_smaller_codes() {
    let mut last = 0u8;
    for i in 0..4000u32 {
        let code = enc(i as f32 * 0.125);
        assert!(code >= last);
        last = code;
    }
}

#[test]
fn bf16_rounding_is_to_nearest_even() {
    for v in [0.0f32, 1.0, -2.5, 3.14159, 1.0e-20, 65504.0, -0.1, 1.0e38] {
        assert_eq!(f32_to_bf16_bits(Scalar(v.to_bits())), bf16::from_f32(v).to_bits());
    }
}

#[test]
fn one_is_written_by_its_bits() {
    assert_eq!(ONE_BITS, 1.0f32.to_bits());
}

#[test]
fn a_unit_scale_changes_no_finite_code() {
    let s: Vec<u8> = (0..0x7f).collect();
    assert_eq!(bake_single(&s, sc(1.0)), s);
}

#[test]
fn baked_rows_put_up_first() {
    let out = bake_w13_rows(&[enc(1.0), enc(2.0)], &[enc(8.0)], sc(2.0), sc(1.0));
    assert_eq!(out, vec![enc(2.0), enc(4.0), enc(8.0)]);
}

#[test]
fn rebuilding_the_layout_is_refused() {
    let mut cb = CommandBuffer::new();
    let r = swizzle_sfb(&mut cb, DevicePtr(1), DevicePtr(2), 128, 64, true, SfbStrategy::RebuildFromRaw);
    assert_eq!(r, Err(SfbLayoutMissing));
    assert!(cb.commands.is_empty());
}

#[test]
fn swizzling_hands_the_layout_on() {
    let mut cb = CommandBuffer::new();
    let r = swizzle_sfb(&mut cb, DevicePtr(1), DevicePtr(2), 128, 64, true, SfbStrategy::ConcatReuse);
    assert_eq!(r, Ok(()));
    assert_eq!(
        cb.commands,
        vec![Command::Op(DeviceOp::PackWeightSfb {
            src: DevicePtr(1),
            dst: DevicePtr(2),
            n: 128,
            k: 64,
            src_n_major: true,
        })]
    );
}

#[test]
fn scale_tables_stride_by_packed_length() {
    let t = SfTables {
        w13_sf: DevicePtr(0x10_0000),
        w2_sf: DevicePtr(0x80_0000),
        h: 128,
        inter: 64,
        src_n_major: true,
    };
    let experts: Vec<ExpertScaleSrc> = (0..2u64)
        .map(|e| ExpertScaleSrc {
            up: vec![0x38; 512],
            gate: vec![0x38; 512],
            down: DevicePtr(0x2000 + e),
            down_read: if e == 1 { Some(vec![0x38; 512]) } else { None },
            up_ws2: sc(1.0),
            gate_ws2: sc(2.0),
            down_ws2: Scalar(7),
            w13_stage: DevicePtr(0x1000 + e),
            down_stage: DevicePtr(0x3000),
        })
        .collect();
    let mut cb = CommandBuffer::new();
    let alphas = build_sf_tables(&mut cb, t, 0, &experts, SfbStrategy::ConcatReuse).unwrap();
    assert_eq!(alphas, vec![Scalar(7), Scalar(ONE_BITS)]);
    let packs: Vec<(DevicePtr, DevicePtr)> = cb
        .commands
        .iter()
        .filter_map(|c| match c {
            Command::Op(DeviceOp::PackWeightSfb { src, dst, .. }) => Some((*src, *dst)),
            _ => None,
        })
        .collect();
    let w13 = sfb_len(128, 128) as u64;
    let w2 = sfb_len(128, 64) as u64;
    assert_eq!(
        packs,
        vec![
            (DevicePtr(0x1000), DevicePtr(0x10_0000)),
            (DevicePtr(0x2000), DevicePtr(0x80_0000)),
            (DevicePtr(0x1001), DevicePtr(0x10_0000 + w13)),
            (DevicePtr(0x3000), DevicePtr(0x80_0000 + w2)),
        ]
    );
}

#[test]
fn down_scales_are_baked_on_request() {
    let none = EnvVars { vars: vec![] };
    let on = EnvVars { vars: vec![("ATLAS_B12X_BAKE_W2".to_string(), "1".to_string())] };
    assert!(!bakes_w2(&none));
    assert!(bakes_w2(&on));
}

#[test]
fn single_transpose_swaps_rows_and_groups() {
    assert_eq!(transpose_single(&[0, 1, 2, 3, 4, 5], 3, 2), vec![0, 2, 4, 1, 3, 5]);
}

#[test]
fn zero_scales_need_no_factor() {
    assert_eq!(combined_scale_factor(&[vec![0u8; 64]]), combined_scale_factor(&[]));
}

/// A scale under a factor by half-precision arithmetic: the code drops the sign and
/// the lowest mantissa bits of 128 times the value.
fn half_precision_code(b: u8, factor: f32) -> u8 {
    let mut value = f16::from_f32(bf16::from_f32(dec(b)).to_f32());
    if factor > 1.0 {
        value = f16::from_f32(value.to_f32() * factor);
    }
    value = f16::from_f32(value.to_f32() * 128.0);
    if value.to_f32() < 2.0 {
        0
    } else {
        (value.to_bits() >> 7) as u8
    }
}

#[test]
fn processed_codes_agree_with_half_precision() {
    for b in 0..=255u8 {
        for shift in 0..18 {
            let factor = 1u32 << shift;
            assert_eq!(encode_s0e5m3(b, factor), half_precision_code(b, factor as f32), "{b} {factor}");
        }
    }
}

#[test]
fn experts_share_one_factor() {
    let gates = vec![vec![0x38u8; 65_536]];
    let ups = vec![vec![0x40u8; 65_536]];
    let w13 = logical_w13(&gates, &ups);
    assert_eq!(w13[0].len(), 131_072);
    assert_eq!(w13[0][0], 0x38);
    assert_eq!(w13[0][512], 0x40);
    let (factor, bytes) = marlin_scale_bytes(&w13, 131_072);
    assert_eq!(factor, combined_scale_factor(&w13));
    assert_eq!(bytes, process(&w13[0], factor));
    assert_eq!(logical_w2(&gates)[0], transpose_single(&gates[0], 2048, 32));
}

#[test]
fn global_scale_uses_bf16_marlin_bias() {
    assert_eq!(process_global(sc(2.0f32.powi(-119)), 1), sc(1.0));
    assert_eq!(process_global(sc(2.0f32.powi(-118)), 2), sc(1.0));
}

#[test]
fn a_global_scale_is_biased_like_a_product_and_a_quotient() {
    for v in [3.0e-5f32, 0.0071, 1.0e-38, 0.0, 5.0e8, 1.0e30, f32::MIN_POSITIVE] {
        for factor in [1u32, 2, 16, 256, 131072] {
            let expected = v * 2.0f32.powi(119) / factor as f32;
            assert_eq!(process_global(sc(v), factor), sc(expected));
        }
    }
}

#[test]
fn every_baked_code_is_a_rounded_product() {
    let codes: Vec<u8> = (0..=255u8).collect();
    for by in [0.5f32, 1.0, 2.0, 0.0123, 77.7, 1.0e-30, 1.0e30, -3.0, 0.0, f32::INFINITY, f32::NAN] {
        let baked = bake_single(&codes, sc(by));
        for b in 0..=255u8 {
            assert_eq!(baked[b as usize], enc(dec(b) * by), "{b} by {by}");
        }
    }
}

#[test]
fn products_agree_with_the_processor() {
    let mut patterns: Vec<u32> = vec![
        0,
        0x8000_0000,
        1,
        0x0000_0003,
        0x007f_ffff,
        0x0080_0000,
        0x0080_0001,
        0x00ff_ffff,
        0x3f80_0000,
        0x3f80_0001,
        0x3f7f_ffff,
        0x3fff_ffff,
        0x7f7f_ffff,
        0x7f00_0000,
        0x7e80_0000,
        0x7f80_0000,
        0xff80_0000,
        0x7fc0_0000,
        0x7f80_0001,
        0x1a00_0000,
        0x2580_0000,
        0x2540_0000,
        0x1fff_ffff,
    ];
    let mut state: u32 = 12345;
    for _ in 0..600 {
        state = state.wrapping_mul(1664525).wrapping_add(1013904223);
        patterns.push(state);
        patterns.push(state % 0x0100_0000);
        patterns.push(0x2000_0000 + state % 0x0100_0000);
    }
    for &a in &patterns {
        for &b in &patterns {
            let expected = f32::from_bits(a) * f32::from_bits(b);
            let got = f32::from_bits(f32_mul(Scalar(a), Scalar(b)).0);
            if expected.is_nan() {
                assert!(got.is_nan(), "{a:x} * {b:x}");
            } else {
                assert_eq!(got.to_bits(), expected.to_bits(), "{a:x} * {b:x}");
            }
        }
    }
}
