//! Mapping from VA-level encode parameters to NVENC presets, tunings, and
//! rate-control modes.
//!
//! | Condition | Preset | Tuning | RC | AQ |
//! |-----------|--------|--------|----|----|
//! | client wants CQP (any bitrate / fps) | P4 | LowLatency | ConstQP | no |
//! | bitrate <= 2.5 Mbps and fps <= 30 | P3 | UltraLowLatency | CBR | no |
//! | otherwise, bitrate <= 6 Mbps and fps <= 60 | P4 | LowLatency | CBR | yes |
//! | bitrate > 6 Mbps or fps > 60 | P5 | LowLatency | CBR | yes |
//!
//! The first row targets screen sharing at "720p, 30 fps, 2 Mbps", where
//! adaptive quantization is off to keep the per-frame overhead down.

use vstd::prelude::*;

verus! {

/// NVENC encode preset (speed vs. quality tradeoff).
#[derive(Copy, Clone, Debug, PartialEq, Eq, Structural)]
pub enum NvencPreset {
    /// Fast preset for real-time low-bitrate screen sharing.
    P3,
    /// Balanced preset for mid-range bitrates and up to 60 fps.
    P4,
    /// Higher-quality preset for source-quality or high-framerate capture.
    P5,
}

/// NVENC tuning hint: latency vs. quality inside the preset.
#[derive(Copy, Clone, Debug, PartialEq, Eq, Structural)]
pub enum Tuning {
    /// Minimises encode-side latency at the cost of slightly lower quality.
    UltraLowLatency,
    /// Balanced latency tuning for interactive screen sharing at 60 fps.
    LowLatency,
}

/// Rate control mode to pass to NVENC.
#[derive(Copy, Clone, Debug, PartialEq, Eq, Structural)]
pub enum RcMode {
    /// Constant bitrate.
    Cbr,
    /// Constant bitrate with lookahead.
    CbrLookahead,
    /// Constant QP: quality-driven, ignores the bitrate target.
    ConstQp,
    /// Variable bitrate.
    Vbr,
}

/// The complete set of NVENC parameters chosen for one encode session.
#[derive(Copy, Clone, Debug, PartialEq, Eq, Structural)]
pub struct PresetChoice {
    pub preset: NvencPreset,
    pub tuning: Tuning,
    pub rc: RcMode,
    /// Whether to enable Adaptive Quantization.
    pub enable_aq: bool,
}

/// The upper bitrate bound of the P3 row.
pub const P3_MAX_BPS: u64 = 2_500_000;

/// The upper bitrate bound of the P4 row.
pub const P4_MAX_BPS: u64 = 6_000_000;

/// The selection table of the module documentation.
pub open spec fn choice_of(bitrate_bps: u64, fps: u32, rc_wants_cqp: bool) -> PresetChoice {
    let preset = if rc_wants_cqp {
        NvencPreset::P4
    } else if bitrate_bps <= P3_MAX_BPS && fps <= 30 {
        NvencPreset::P3
    } else if bitrate_bps > P4_MAX_BPS || fps > 60 {
        NvencPreset::P5
    } else {
        NvencPreset::P4
    };
    PresetChoice {
        preset,
        tuning: if preset == NvencPreset::P3 {
            Tuning::UltraLowLatency
        } else {
            Tuning::LowLatency
        },
        rc: if rc_wants_cqp {
            RcMode::ConstQp
        } else {
            RcMode::Cbr
        },
        enable_aq: !rc_wants_cqp && preset != NvencPreset::P3,
    }
}

/// Select the NVENC preset, tuning, and RC mode for the given encode
/// parameters. `fps` is the integer frame rate; `rc_wants_cqp` is true when
/// the client selected `VA_RC_CQP`.
pub fn choose_preset(bitrate_bps: u64, fps: u32, rc_wants_cqp: bool) -> (choice: PresetChoice)
    ensures
        choice == choice_of(bitrate_bps, fps, rc_wants_cqp),
{
    if rc_wants_cqp {
        return PresetChoice {
            preset: NvencPreset::P4,
            tuning: Tuning::LowLatency,
            rc: RcMode::ConstQp,
            enable_aq: false,
        };
    }
    if bitrate_bps <= P3_MAX_BPS && fps <= 30 {
        PresetChoice {
            preset: NvencPreset::P3,
            tuning: Tuning::UltraLowLatency,
            rc: RcMode::Cbr,
            enable_aq: false,
        }
    } else if bitrate_bps <= P4_MAX_BPS && fps <= 60 {
        PresetChoice {
            preset: NvencPreset::P4,
            tuning: Tuning::LowLatency,
            rc: RcMode::Cbr,
            enable_aq: true,
        }
    } else {
        PresetChoice {
            preset: NvencPreset::P5,
            tuning: Tuning::LowLatency,
            rc: RcMode::Cbr,
            enable_aq: true,
        }
    }
}

/// A client that asks for constant QP gets one choice, whatever the bitrate
/// and the frame rate.
pub proof fn law_cqp_overrides(bitrate_a: u64, fps_a: u32, bitrate_b: u64, fps_b: u32)
    ensures
        choice_of(bitrate_a, fps_a, true) == choice_of(bitrate_b, fps_b, true),
        choice_of(bitrate_a, fps_a, true).rc == RcMode::ConstQp,
{
}

/// The quality tier of a preset.
pub open spec fn tier(p: NvencPreset) -> int {
    match p {
        NvencPreset::P3 => 3,
        NvencPreset::P4 => 4,
        NvencPreset::P5 => 5,
    }
}

/// More bitrate or more frames per second never selects a lower tier.
pub proof fn law_choice_is_monotone(bitrate_a: u64, fps_a: u32, bitrate_b: u64, fps_b: u32)
    requires
        bitrate_a <= bitrate_b,
        fps_a <= fps_b,
    ensures
        tier(choice_of(bitrate_a, fps_a, false).preset) <= tier(
            choice_of(bitrate_b, fps_b, false).preset,
        ),
{
}

/// The fast preset is for low rates alone, the slow one for high rates alone,
/// and the one between for everything else. Latency is lowest with the fast
/// preset, which is also the one that does without adaptive quantization.
pub proof fn law_preset_goes_by_rate(bitrate_bps: u64, fps: u32)
    ensures
        ({
            let c = choice_of(bitrate_bps, fps, false);
            &&& c.preset == NvencPreset::P3 <==> bitrate_bps <= 2_500_000 && fps <= 30
            &&& c.preset == NvencPreset::P5 <==> bitrate_bps > 6_000_000 || fps > 60
            &&& c.tuning == Tuning::UltraLowLatency <==> c.preset == NvencPreset::P3
            &&& c.enable_aq <==> c.preset != NvencPreset::P3
            &&& c.rc == RcMode::Cbr
        }),
        choice_of(bitrate_bps, fps, true).preset == NvencPreset::P4,
        choice_of(bitrate_bps, fps, true).tuning == Tuning::LowLatency,
        !choice_of(bitrate_bps, fps, true).enable_aq,
{
}

} // verus!
