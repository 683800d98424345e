use nvenc_vaapi_driver::nvenc::preset::{choose_preset, NvencPreset, RcMode, Tuning};

#[test]
fn discord_720p30_smoother() {
    let c = choose_preset(2_000_000, 30, false);
    assert_eq!(c.preset, NvencPreset::P3);
    assert_eq!(c.tuning, Tuning::UltraLowLatency);
    assert_eq!(c.rc, RcMode::Cbr);
}

#[test]
fn discord_1080p60_source() {
    let c = choose_preset(8_000_000, 60, false);
    assert_eq!(c.preset, NvencPreset::P5);
    assert!(c.enable_aq);
}

#[test]
fn cqp_override() {
    let c = choose_preset(5_000_000, 60, true);
    assert_eq!(c.rc, RcMode::ConstQp);
}

struct Row {
    name: &'static str,
    bitrate_bps: u64,
    fps: u32,
    cqp: bool,
    expect_preset: NvencPreset,
    expect_tuning: Tuning,
    expect_rc: RcMode,
    expect_aq: bool,
}

fn assert_row(r: &Row) {
    let got = choose_preset(r.bitrate_bps, r.fps, r.cqp);
    assert_eq!(got.preset, r.expect_preset, "row={}: preset", r.name);
    assert_eq!(got.tuning, r.expect_tuning, "row={}: tuning", r.name);
    assert_eq!(got.rc, r.expect_rc, "row={}: rc", r.name);
    assert_eq!(got.enable_aq, r.expect_aq, "row={}: enable_aq", r.name);
}

#[test]
fn plan_table_1mbps_30fps() {
    assert_row(&Row {
        name: "1 Mbps @ 30 fps",
        bitrate_bps: 1_000_000,
        fps: 30,
        cqp: false,
        expect_preset: NvencPreset::P3,
        expect_tuning: Tuning::UltraLowLatency,
        expect_rc: RcMode::Cbr,
        expect_aq: false,
    });
}

#[test]
fn plan_table_5mbps_60fps() {
    assert_row(&Row {
        name: "5 Mbps @ 60 fps",
        bitrate_bps: 5_000_000,
        fps: 60,
        cqp: false,
        expect_preset: NvencPreset::P4,
        expect_tuning: Tuning::LowLatency,
        expect_rc: RcMode::Cbr,
        expect_aq: true,
    });
}

#[test]
fn plan_table_10mbps_60fps() {
    assert_row(&Row {
        name: "10 Mbps @ 60 fps",
        bitrate_bps: 10_000_000,
        fps: 60,
        cqp: false,
        expect_preset: NvencPreset::P5,
        expect_tuning: Tuning::LowLatency,
        expect_rc: RcMode::Cbr,
        expect_aq: true,
    });
}

#[test]
fn plan_table_cqp_overrides_to_p4_ll_constqp() {
    assert_row(&Row {
        name: "CQP override",
        bitrate_bps: 4_000_000,
        fps: 60,
        cqp: true,
        expect_preset: NvencPreset::P4,
        expect_tuning: Tuning::LowLatency,
        expect_rc: RcMode::ConstQp,
        expect_aq: false,
    });
}

#[test]
fn boundary_exactly_2_5mbps_at_30fps_is_p3() {
    assert_row(&Row {
        name: "2.5 Mbps @ 30 fps (lower-row boundary)",
        bitrate_bps: 2_500_000,
        fps: 30,
        cqp: false,
        expect_preset: NvencPreset::P3,
        expect_tuning: Tuning::UltraLowLatency,
        expect_rc: RcMode::Cbr,
        expect_aq: false,
    });
}

#[test]
fn boundary_just_over_2_5mbps_is_p4() {
    assert_row(&Row {
        name: "2.500001 Mbps @ 30 fps",
        bitrate_bps: 2_500_001,
        fps: 30,
        cqp: false,
        expect_preset: NvencPreset::P4,
        expect_tuning: Tuning::LowLatency,
        expect_rc: RcMode::Cbr,
        expect_aq: true,
    });
}

#[test]
fn boundary_exactly_6mbps_at_60fps_is_p4() {
    assert_row(&Row {
        name: "6 Mbps @ 60 fps (upper P4 boundary)",
        bitrate_bps: 6_000_000,
        fps: 60,
        cqp: false,
        expect_preset: NvencPreset::P4,
        expect_tuning: Tuning::LowLatency,
        expect_rc: RcMode::Cbr,
        expect_aq: true,
    });
}

#[test]
fn boundary_just_over_6mbps_is_p5() {
    assert_row(&Row {
        name: "6.000001 Mbps @ 60 fps",
        bitrate_bps: 6_000_001,
        fps: 60,
        cqp: false,
        expect_preset: NvencPreset::P5,
        expect_tuning: Tuning::LowLatency,
        expect_rc: RcMode::Cbr,
        expect_aq: true,
    });
}

#[test]
fn low_bitrate_but_fps_over_30_escalates_to_p4() {
    let c = choose_preset(500_000, 60, false);
    assert_eq!(c.preset, NvencPreset::P4);
}

#[test]
fn cqp_wins_even_when_bitrate_is_source_tier() {
    let c = choose_preset(50_000_000, 120, true);
    assert_eq!(c.preset, NvencPreset::P4);
    assert_eq!(c.tuning, Tuning::LowLatency);
    assert_eq!(c.rc, RcMode::ConstQp);
    assert!(!c.enable_aq);
}

#[test]
fn zero_bitrate_and_zero_fps_still_returns_a_choice() {
    let c = choose_preset(0, 0, false);
    assert_eq!(c.preset, NvencPreset::P3);
    assert_eq!(c.rc, RcMode::Cbr);
}

#[test]
fn more_than_60_fps_is_p5_at_any_bitrate() {
    assert_eq!(choose_preset(500_000, 61, false).preset, NvencPreset::P5);
}
