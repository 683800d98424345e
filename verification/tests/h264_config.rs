use nvenc_vaapi_driver::nvenc::h264_config::{
    apply_config, per_frame_bits, profile_guid, EncoderConfig, EntropyCodingMode, H264Profile,
    NvEncConfig, NvH264Config, NvQp, NvRcMode, NvRcParams, NvVui, ProfileGuid, BT709,
};
use nvenc_vaapi_driver::nvenc::preset::RcMode;

fn zeroed_preset() -> NvEncConfig {
    NvEncConfig {
        version: 0,
        profile_guid: ProfileGuid::AutoSelect,
        gop_length: 0,
        frame_interval_p: 0,
        mono_chrome_encoding: 0,
        mv_precision: 0,
        rc_params: NvRcParams {
            rate_control_mode: NvRcMode::ConstQp,
            const_qp: NvQp { qp_inter_p: 0, qp_inter_b: 0, qp_intra: 0 },
            average_bit_rate: 0,
            max_bit_rate: 0,
            vbv_buffer_size: 0,
            vbv_initial_delay: 0,
            zero_reorder_delay: false,
            enable_lookahead: false,
            target_quality: 0,
            lookahead_depth: 0,
        },
        h264: NvH264Config {
            idr_period: 0,
            slice_mode: 0,
            slice_mode_data: 0,
            chroma_format_idc: 0,
            entropy_coding_mode: EntropyCodingMode::AutoSelect,
            repeat_sps_pps: false,
            output_aud: false,
            vui: NvVui {
                video_signal_type_present_flag: 0,
                video_format: 0,
                video_full_range_flag: 0,
                colour_description_present_flag: 0,
                colour_primaries: 0,
                transfer_characteristics: 0,
                colour_matrix: 0,
            },
            separate_colour_plane_flag: 0,
            max_num_ref_frames: 0,
            level: 0,
        },
    }
}

fn default_1080p60_cbr() -> EncoderConfig {
    EncoderConfig {
        width: 1920,
        height: 1080,
        fps_num: 60,
        fps_den: 1,
        bitrate_bps: 5_000_000,
        gop_length: 120,
        profile: H264Profile::Main,
        rc_mode: RcMode::Cbr,
        repeat_sps_pps: true,
    }
}

#[test]
fn apply_config_cbr_1080p60_main() {
    let mut cfg = zeroed_preset();
    apply_config(&mut cfg, &default_1080p60_cbr());
    assert_eq!(cfg.profile_guid, ProfileGuid::H264Main);
    assert_eq!(cfg.gop_length, 120);
    assert_eq!(cfg.frame_interval_p, 1);
    assert_eq!(cfg.rc_params.rate_control_mode, NvRcMode::Cbr);
    assert_eq!(cfg.rc_params.average_bit_rate, 5_000_000);
    assert_eq!(cfg.rc_params.max_bit_rate, 5_000_000);
    assert_eq!(cfg.rc_params.vbv_buffer_size, 5_000_000);
    assert_eq!(cfg.rc_params.vbv_initial_delay, 2_500_000);
    let h264 = &cfg.h264;
    assert_eq!(h264.slice_mode, 3);
    assert_eq!(h264.slice_mode_data, 1);
    assert_eq!(h264.idr_period, 120);
    assert_eq!(h264.entropy_coding_mode, EntropyCodingMode::Cabac);
    assert_eq!(h264.chroma_format_idc, 1);
    assert_eq!(h264.repeat_sps_pps, true);
    assert_eq!(h264.output_aud, false);
    assert_eq!(h264.vui.colour_matrix, BT709);
    assert_eq!(h264.vui.video_full_range_flag, 0);
}

#[test]
fn apply_config_cqp_fills_const_qp() {
    let mut cfg = zeroed_preset();
    let mut ec = default_1080p60_cbr();
    ec.rc_mode = RcMode::ConstQp;
    apply_config(&mut cfg, &ec);
    assert_eq!(cfg.rc_params.rate_control_mode, NvRcMode::ConstQp);
    assert_eq!(cfg.rc_params.const_qp.qp_intra, 28);
    assert_eq!(cfg.rc_params.const_qp.qp_inter_p, 28);
    assert_eq!(cfg.rc_params.const_qp.qp_inter_b, 28);
    assert_eq!(cfg.rc_params.average_bit_rate, 0);
    assert_eq!(cfg.rc_params.vbv_buffer_size, 0);
}

#[test]
fn apply_config_baseline_uses_cavlc_and_baseline_guid() {
    let mut cfg = zeroed_preset();
    let mut ec = default_1080p60_cbr();
    ec.profile = H264Profile::ConstrainedBaseline;
    apply_config(&mut cfg, &ec);
    assert_eq!(cfg.profile_guid, ProfileGuid::H264Baseline);
    assert_eq!(cfg.h264.entropy_coding_mode, EntropyCodingMode::Cavlc);
}

#[test]
fn default_for_720p_main_has_sane_values() {
    let ec = EncoderConfig::default_for(1280, 720, H264Profile::Main);
    assert_eq!(ec.width, 1280);
    assert_eq!(ec.height, 720);
    assert_eq!(ec.fps_num, 60);
    assert_eq!(ec.fps_den, 1);
    assert_eq!(ec.bitrate_bps, 5_000_000);
    assert_eq!(ec.gop_length, 120);
    assert_eq!(ec.profile, H264Profile::Main);
    assert_eq!(ec.rc_mode, RcMode::Cbr);
}

#[test]
fn edge_cases_small_dims_23_976_fps_gop1() {
    let mut cfg = zeroed_preset();
    let ec = EncoderConfig {
        width: 320,
        height: 240,
        fps_num: 24_000,
        fps_den: 1001,
        bitrate_bps: 500_000,
        gop_length: 1,
        profile: H264Profile::Main,
        rc_mode: RcMode::Cbr,
        repeat_sps_pps: true,
    };
    apply_config(&mut cfg, &ec);
    assert_eq!(cfg.gop_length, 1);
    assert_eq!(cfg.rc_params.vbv_buffer_size, 500_000);
    assert_eq!(cfg.h264.idr_period, 1);
}

#[test]
fn apply_config_does_not_touch_tuning_fields() {
    let mut cfg = zeroed_preset();
    cfg.mono_chrome_encoding = 42;
    cfg.mv_precision = 3;
    cfg.rc_params.target_quality = 25;
    cfg.rc_params.lookahead_depth = 8;
    apply_config(&mut cfg, &default_1080p60_cbr());
    assert_eq!(cfg.mono_chrome_encoding, 42);
    assert_eq!(cfg.mv_precision, 3);
    assert_eq!(cfg.rc_params.target_quality, 25);
    assert_eq!(cfg.rc_params.lookahead_depth, 8);
}

#[test]
fn apply_config_preserves_untouched_h264_fields() {
    let mut cfg = zeroed_preset();
    cfg.h264.separate_colour_plane_flag = 7;
    cfg.h264.max_num_ref_frames = 4;
    cfg.h264.level = 42;
    apply_config(&mut cfg, &default_1080p60_cbr());
    assert_eq!(cfg.h264.separate_colour_plane_flag, 7);
    assert_eq!(cfg.h264.max_num_ref_frames, 4);
    assert_eq!(cfg.h264.level, 42);
}

#[test]
fn apply_config_bitrate_round_trip_10mbps() {
    let mut cfg = zeroed_preset();
    let mut ec = default_1080p60_cbr();
    ec.bitrate_bps = 10_000_000;
    apply_config(&mut cfg, &ec);
    assert_eq!(cfg.rc_params.average_bit_rate, 10_000_000);
    assert_eq!(cfg.rc_params.max_bit_rate, 10_000_000);
    assert_eq!(cfg.rc_params.vbv_buffer_size, 10_000_000);
    assert_eq!(cfg.rc_params.vbv_initial_delay, 5_000_000);
}

#[test]
fn vbr_only_raises_the_maximum() {
    let mut ec = default_1080p60_cbr();
    ec.rc_mode = RcMode::Vbr;

    let mut cfg = zeroed_preset();
    cfg.rc_params.max_bit_rate = 9_000_000;
    cfg.rc_params.vbv_buffer_size = 77;
    apply_config(&mut cfg, &ec);
    assert_eq!(cfg.rc_params.rate_control_mode, NvRcMode::Vbr);
    assert_eq!(cfg.rc_params.average_bit_rate, 5_000_000);
    assert_eq!(cfg.rc_params.max_bit_rate, 9_000_000);
    assert_eq!(cfg.rc_params.vbv_buffer_size, 77);

    let mut cfg = zeroed_preset();
    cfg.rc_params.max_bit_rate = 1_000_000;
    apply_config(&mut cfg, &ec);
    assert_eq!(cfg.rc_params.max_bit_rate, 5_000_000);
}

#[test]
fn output_is_never_reordered_and_never_looks_ahead() {
    let mut cfg = zeroed_preset();
    cfg.rc_params.enable_lookahead = true;
    let mut ec = default_1080p60_cbr();
    ec.rc_mode = RcMode::CbrLookahead;
    apply_config(&mut cfg, &ec);
    assert!(cfg.rc_params.zero_reorder_delay);
    assert!(!cfg.rc_params.enable_lookahead);
    assert_eq!(cfg.rc_params.rate_control_mode, NvRcMode::Cbr);
}

#[test]
fn high_profile_codes_with_cabac() {
    let mut cfg = zeroed_preset();
    let mut ec = default_1080p60_cbr();
    ec.profile = H264Profile::High;
    ec.repeat_sps_pps = false;
    apply_config(&mut cfg, &ec);
    assert_eq!(cfg.profile_guid, ProfileGuid::H264High);
    assert_eq!(cfg.h264.entropy_coding_mode, EntropyCodingMode::Cabac);
    assert!(!cfg.h264.repeat_sps_pps);
    assert_eq!(profile_guid(H264Profile::High), ProfileGuid::H264High);
}

#[test]
fn applying_twice_is_applying_once() {
    let mut once = zeroed_preset();
    apply_config(&mut once, &default_1080p60_cbr());
    let mut twice = once;
    apply_config(&mut twice, &default_1080p60_cbr());
    assert_eq!(once, twice);
}

#[test]
fn bits_per_frame_round_down_and_saturate() {
    assert_eq!(per_frame_bits(5_000_000, 60, 1), 83_333);
    assert_eq!(per_frame_bits(500_000, 24_000, 1001), 20_854);
    assert_eq!(per_frame_bits(1_234, 0, 1), 1_234);
    assert_eq!(per_frame_bits(u32::MAX, 1, u32::MAX), u32::MAX);
}
