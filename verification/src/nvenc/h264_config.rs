//! Applying encoder parameters to a preset-default NVENC configuration.
//!
//! NVENC wants its configuration built by fetching the preset's default and
//! changing what differs. [`apply_config`] does the second half: it overwrites
//! the profile, the GOP, rate control and VUI, and leaves everything else as
//! the preset set it.

use crate::nvenc::preset::RcMode;
use vstd::prelude::*;

verus! {

/// H.264 profile: `ConstrainedBaseline` codes with CAVLC, `Main` and `High`
/// with CABAC.
#[derive(Debug, Clone, Copy, PartialEq, Eq, Structural)]
pub enum H264Profile {
    ConstrainedBaseline,
    Main,
    High,
}

/// Codec configuration, independent of NVENC's structures.
#[derive(Debug, Clone, Copy, PartialEq, Eq, Structural)]
pub struct EncoderConfig {
    pub width: u32,
    pub height: u32,
    /// `fps_num / fps_den` is the exact frame rate (23.976 is 24000/1001).
    pub fps_num: u32,
    pub fps_den: u32,
    pub bitrate_bps: u32,
    pub gop_length: u32,
    pub profile: H264Profile,
    pub rc_mode: RcMode,
    /// Whether NVENC puts SPS and PPS in front of every IDR itself.
    pub repeat_sps_pps: bool,
}

impl EncoderConfig {
    /// 60 fps, 5 Mbps CBR, a GOP of 120 frames, SPS and PPS repeated.
    pub fn default_for(width: u32, height: u32, profile: H264Profile) -> (cfg: Self)
        ensures
            cfg == default_config(width, height, profile),
    {
        EncoderConfig {
            width,
            height,
            fps_num: 60,
            fps_den: 1,
            bitrate_bps: 5_000_000,
            gop_length: 120,
            profile,
            rc_mode: RcMode::Cbr,
            repeat_sps_pps: true,
        }
    }
}

/// The configuration of a session before the client's parameters arrive.
pub open spec fn default_config(width: u32, height: u32, profile: H264Profile) -> EncoderConfig {
    EncoderConfig {
        width,
        height,
        fps_num: 60,
        fps_den: 1,
        bitrate_bps: 5_000_000,
        gop_length: 120,
        profile,
        rc_mode: RcMode::Cbr,
        repeat_sps_pps: true,
    }
}

/// Bits of one frame at a bitrate and a frame rate, rounded down and capped at
/// `u32::MAX`; the whole bitrate where the frame rate is zero.
pub open spec fn frame_bits(bitrate_bps: u32, fps_num: u32, fps_den: u32) -> int {
    if fps_num == 0 {
        bitrate_bps as int
    } else {
        let exact = (bitrate_bps * fps_den) / (fps_num as int);
        if exact <= u32::MAX {
            exact
        } else {
            u32::MAX as int
        }
    }
}

/// Bits per frame: `bitrate / fps`, rounded down.
pub fn per_frame_bits(bitrate_bps: u32, fps_num: u32, fps_den: u32) -> (bits: u32)
    ensures
        bits == frame_bits(bitrate_bps, fps_num, fps_den),
{
    if fps_num == 0 {
        return bitrate_bps;
    }
    proof {
        let b = bitrate_bps as int;
        let d = fps_den as int;
        assert(0 <= b * d <= u32::MAX * u32::MAX) by (nonlinear_arith)
            requires
                0 <= b <= u32::MAX,
                0 <= d <= u32::MAX,
        ;
    }
    let per: u64 = (bitrate_bps as u64) * (fps_den as u64) / (fps_num as u64);
    if per <= u32::MAX as u64 {
        per as u32
    } else {
        u32::MAX
    }
}

// ---------------------------------------------------------------------------
// The NVENC configuration
// ---------------------------------------------------------------------------

/// The value of NVENC's `profileGUID`.
#[derive(Debug, Clone, Copy, PartialEq, Eq, Structural)]
pub enum ProfileGuid {
    /// Whatever the preset chose.
    AutoSelect,
    H264Baseline,
    H264Main,
    H264High,
}

/// `NV_ENC_PARAMS_RC_MODE`.
#[derive(Debug, Clone, Copy, PartialEq, Eq, Structural)]
pub enum NvRcMode {
    ConstQp,
    Vbr,
    Cbr,
}

/// `NV_ENC_H264_ENTROPY_CODING_MODE`.
#[derive(Debug, Clone, Copy, PartialEq, Eq, Structural)]
pub enum EntropyCodingMode {
    AutoSelect,
    Cabac,
    Cavlc,
}

/// `NV_ENC_QP`.
#[derive(Debug, Clone, Copy, PartialEq, Eq, Structural)]
pub struct NvQp {
    pub qp_inter_p: u32,
    pub qp_inter_b: u32,
    pub qp_intra: u32,
}

/// `NV_ENC_RC_PARAMS`.
#[derive(Debug, Clone, Copy, PartialEq, Eq, Structural)]
pub struct NvRcParams {
    pub rate_control_mode: NvRcMode,
    pub const_qp: NvQp,
    pub average_bit_rate: u32,
    pub max_bit_rate: u32,
    pub vbv_buffer_size: u32,
    pub vbv_initial_delay: u32,
    pub zero_reorder_delay: bool,
    pub enable_lookahead: bool,
    pub target_quality: u8,
    pub lookahead_depth: u16,
}

/// `NV_ENC_CONFIG_H264_VUI_PARAMETERS`, the video signal part.
#[derive(Debug, Clone, Copy, PartialEq, Eq, Structural)]
pub struct NvVui {
    pub video_signal_type_present_flag: u32,
    pub video_format: u32,
    pub video_full_range_flag: u32,
    pub colour_description_present_flag: u32,
    pub colour_primaries: u32,
    pub transfer_characteristics: u32,
    pub colour_matrix: u32,
}

/// `NV_ENC_CONFIG_H264`.
#[derive(Debug, Clone, Copy, PartialEq, Eq, Structural)]
pub struct NvH264Config {
    pub idr_period: u32,
    pub slice_mode: u32,
    pub slice_mode_data: u32,
    pub chroma_format_idc: u32,
    pub entropy_coding_mode: EntropyCodingMode,
    pub repeat_sps_pps: bool,
    pub output_aud: bool,
    pub vui: NvVui,
    pub separate_colour_plane_flag: u32,
    pub max_num_ref_frames: u32,
    pub level: u32,
}

/// `NV_ENC_CONFIG` with H.264 as its codec.
#[derive(Debug, Clone, Copy, PartialEq, Eq, Structural)]
pub struct NvEncConfig {
    pub version: u32,
    pub profile_guid: ProfileGuid,
    pub gop_length: u32,
    pub frame_interval_p: i32,
    pub mono_chrome_encoding: u32,
    pub mv_precision: u32,
    pub rc_params: NvRcParams,
    pub h264: NvH264Config,
}

/// `NV_ENC_VUI_VIDEO_FORMAT_UNSPECIFIED`.
pub const VIDEO_FORMAT_UNSPECIFIED: u32 = 5;

/// The value that BT.709 has among colour primaries, transfer characteristics
/// and matrix coefficients.
pub const BT709: u32 = 1;

/// The quantizer of constant-QP sessions.
pub const DEFAULT_QP: u32 = 28;

/// The NVENC profile of a codec profile.
pub open spec fn guid_of(profile: H264Profile) -> ProfileGuid {
    match profile {
        H264Profile::Main => ProfileGuid::H264Main,
        H264Profile::ConstrainedBaseline => ProfileGuid::H264Baseline,
        H264Profile::High => ProfileGuid::H264High,
    }
}

/// The entropy coder of a codec profile.
pub open spec fn entropy_of(profile: H264Profile) -> EntropyCodingMode {
    match profile {
        H264Profile::ConstrainedBaseline => EntropyCodingMode::Cavlc,
        _ => EntropyCodingMode::Cabac,
    }
}

/// Rate control for a configuration. CBR has a VBV buffer of one second that
/// starts half full; VBR only raises the preset's maximum; constant QP leaves
/// bitrate and VBV alone. Output is never reordered and never looks ahead.
pub open spec fn rc_for(preset: NvRcParams, cfg: EncoderConfig) -> NvRcParams {
    let rc = match cfg.rc_mode {
        RcMode::Cbr | RcMode::CbrLookahead => NvRcParams {
            rate_control_mode: NvRcMode::Cbr,
            average_bit_rate: cfg.bitrate_bps,
            max_bit_rate: cfg.bitrate_bps,
            vbv_buffer_size: cfg.bitrate_bps,
            vbv_initial_delay: cfg.bitrate_bps / 2,
            ..preset
        },
        RcMode::Vbr => NvRcParams {
            rate_control_mode: NvRcMode::Vbr,
            average_bit_rate: cfg.bitrate_bps,
            max_bit_rate: if preset.max_bit_rate < cfg.bitrate_bps {
                cfg.bitrate_bps
            } else {
                preset.max_bit_rate
            },
            ..preset
        },
        RcMode::ConstQp => NvRcParams {
            rate_control_mode: NvRcMode::ConstQp,
            const_qp: NvQp {
                qp_inter_p: DEFAULT_QP,
                qp_inter_b: DEFAULT_QP,
                qp_intra: DEFAULT_QP,
            },
            ..preset
        },
    };
    NvRcParams { zero_reorder_delay: true, enable_lookahead: false, ..rc }
}

/// Limited-range BT.709.
pub open spec fn bt709_limited() -> NvVui {
    NvVui {
        video_signal_type_present_flag: 1,
        video_format: VIDEO_FORMAT_UNSPECIFIED,
        video_full_range_flag: 0,
        colour_description_present_flag: 1,
        colour_primaries: BT709,
        transfer_characteristics: BT709,
        colour_matrix: BT709,
    }
}

/// The H.264 part for a configuration: one slice per frame, 4:2:0, an IDR per
/// GOP, no access unit delimiters.
pub open spec fn h264_for(preset: NvH264Config, cfg: EncoderConfig) -> NvH264Config {
    NvH264Config {
        idr_period: cfg.gop_length,
        slice_mode: 3,
        slice_mode_data: 1,
        chroma_format_idc: 1,
        entropy_coding_mode: entropy_of(cfg.profile),
        repeat_sps_pps: cfg.repeat_sps_pps,
        output_aud: false,
        vui: bt709_limited(),
        ..preset
    }
}

/// A preset's default with a configuration applied.
pub open spec fn applied(preset: NvEncConfig, cfg: EncoderConfig) -> NvEncConfig {
    NvEncConfig {
        profile_guid: guid_of(cfg.profile),
        gop_length: cfg.gop_length,
        frame_interval_p: 1,
        rc_params: rc_for(preset.rc_params, cfg),
        h264: h264_for(preset.h264, cfg),
        ..preset
    }
}

/// The NVENC profile of a codec profile.
pub fn profile_guid(profile: H264Profile) -> (guid: ProfileGuid)
    ensures
        guid == guid_of(profile),
{
    match profile {
        H264Profile::Main => ProfileGuid::H264Main,
        H264Profile::ConstrainedBaseline => ProfileGuid::H264Baseline,
        H264Profile::High => ProfileGuid::H264High,
    }
}

/// Change a preset's default configuration to what `cfg` asks for.
pub fn apply_config(preset_cfg: &mut NvEncConfig, cfg: &EncoderConfig)
    ensures
        *final(preset_cfg) == applied(*old(preset_cfg), *cfg),
{
    preset_cfg.profile_guid = profile_guid(cfg.profile);

    preset_cfg.gop_length = cfg.gop_length;
    preset_cfg.frame_interval_p = 1;

    let mut rc = preset_cfg.rc_params;
    match cfg.rc_mode {
        RcMode::Cbr | RcMode::CbrLookahead => {
            rc.rate_control_mode = NvRcMode::Cbr;
            rc.average_bit_rate = cfg.bitrate_bps;
            rc.max_bit_rate = cfg.bitrate_bps;
            rc.vbv_buffer_size = cfg.bitrate_bps;
            rc.vbv_initial_delay = cfg.bitrate_bps / 2;
        },
        RcMode::Vbr => {
            rc.rate_control_mode = NvRcMode::Vbr;
            rc.average_bit_rate = cfg.bitrate_bps;
            if rc.max_bit_rate < cfg.bitrate_bps {
                rc.max_bit_rate = cfg.bitrate_bps;
            }
        },
        RcMode::ConstQp => {
            rc.rate_control_mode = NvRcMode::ConstQp;
            rc.const_qp =
            NvQp { qp_inter_p: DEFAULT_QP, qp_inter_b: DEFAULT_QP, qp_intra: DEFAULT_QP };
        },
    }
    rc.zero_reorder_delay = true;
    rc.enable_lookahead = false;
    preset_cfg.rc_params = rc;

    let mut h264 = preset_cfg.h264;
    h264.idr_period = cfg.gop_length;
    h264.slice_mode = 3;
    h264.slice_mode_data = 1;
    h264.chroma_format_idc = 1;
    h264.entropy_coding_mode =
    match cfg.profile {
        H264Profile::Main | H264Profile::High => EntropyCodingMode::Cabac,
        H264Profile::ConstrainedBaseline => EntropyCodingMode::Cavlc,
    };
    h264.repeat_sps_pps = cfg.repeat_sps_pps;
    h264.output_aud = false;
    h264.vui =
    NvVui {
        video_signal_type_present_flag: 1,
        video_format: VIDEO_FORMAT_UNSPECIFIED,
        video_full_range_flag: 0,
        colour_description_present_flag: 1,
        colour_primaries: BT709,
        transfer_characteristics: BT709,
        colour_matrix: BT709,
    };
    preset_cfg.h264 = h264;
}

// ---------------------------------------------------------------------------
// Laws
// ---------------------------------------------------------------------------

/// The fields that belong to the preset keep the values the preset gave them.
pub proof fn law_untouched_fields_survive(preset: NvEncConfig, cfg: EncoderConfig)
    ensures
        applied(preset, cfg).version == preset.version,
        applied(preset, cfg).mono_chrome_encoding == preset.mono_chrome_encoding,
        applied(preset, cfg).mv_precision == preset.mv_precision,
        applied(preset, cfg).rc_params.target_quality == preset.rc_params.target_quality,
        applied(preset, cfg).rc_params.lookahead_depth == preset.rc_params.lookahead_depth,
        applied(preset, cfg).h264.separate_colour_plane_flag
            == preset.h264.separate_colour_plane_flag,
        applied(preset, cfg).h264.max_num_ref_frames == preset.h264.max_num_ref_frames,
        applied(preset, cfg).h264.level == preset.h264.level,
{
}

/// CBR keeps one second of the bitrate in the VBV buffer and starts with half
/// of it; the average and the maximum rate are the bitrate.
pub proof fn law_cbr_vbv_is_one_second(preset: NvEncConfig, cfg: EncoderConfig)
    requires
        cfg.rc_mode == RcMode::Cbr || cfg.rc_mode == RcMode::CbrLookahead,
    ensures
        ({
            let rc = applied(preset, cfg).rc_params;
            &&& rc.vbv_buffer_size == cfg.bitrate_bps
            &&& rc.vbv_initial_delay == cfg.bitrate_bps / 2
            &&& rc.average_bit_rate == rc.max_bit_rate == cfg.bitrate_bps
        }),
{
}

/// Constant QP says nothing of bitrate or VBV.
pub proof fn law_cqp_leaves_bitrate(preset: NvEncConfig, cfg: EncoderConfig)
    requires
        cfg.rc_mode == RcMode::ConstQp,
    ensures
        ({
            let rc = applied(preset, cfg).rc_params;
            let was = preset.rc_params;
            &&& rc.average_bit_rate == was.average_bit_rate
            &&& rc.max_bit_rate == was.max_bit_rate
            &&& rc.vbv_buffer_size == was.vbv_buffer_size
            &&& rc.vbv_initial_delay == was.vbv_initial_delay
        }),
{
}

/// Applying a configuration twice is applying it once.
pub proof fn law_apply_is_idempotent(preset: NvEncConfig, cfg: EncoderConfig)
    ensures
        applied(applied(preset, cfg), cfg) == applied(preset, cfg),
{
}

/// A frame never gets more bits than its share of the bitrate.
pub proof fn law_frame_bits_never_overshoot(bitrate_bps: u32, fps_num: u32, fps_den: u32)
    requires
        fps_num > 0,
    ensures
        frame_bits(bitrate_bps, fps_num, fps_den) * fps_num <= bitrate_bps * fps_den,
{
    let total = bitrate_bps * fps_den;
    let n = fps_num as int;
    let bits = frame_bits(bitrate_bps, fps_num, fps_den);
    assert(bits <= total / n);
    assert(bits * n <= total) by (nonlinear_arith)
        requires
            bits <= total / n,
            n > 0,
    ;
}

/// A session starts with the size and profile it is made for, at 60 frames and
/// 5 million bits per second, with a key frame every other second and parameter
/// sets in front of each.
pub proof fn law_default_configuration(width: u32, height: u32, profile: H264Profile)
    ensures
        ({
            let cfg = default_config(width, height, profile);
            &&& cfg.width == width
            &&& cfg.height == height
            &&& cfg.profile == profile
            &&& cfg.fps_num == 60 * cfg.fps_den
            &&& cfg.fps_den == 1
            &&& cfg.bitrate_bps == 5_000_000
            &&& cfg.gop_length * cfg.fps_den == 2 * cfg.fps_num
            &&& cfg.rc_mode == RcMode::Cbr
            &&& cfg.repeat_sps_pps
        }),
{
}

/// A frame gets its whole share of the bitrate, rounded down, as far as 32 bits
/// hold it; without a frame rate it gets the bitrate of a second.
pub proof fn law_frame_bits_are_the_share(bitrate_bps: u32, fps_num: u32, fps_den: u32)
    ensures
        fps_num == 0 ==> frame_bits(bitrate_bps, fps_num, fps_den) == bitrate_bps,
        fps_num > 0 && frame_bits(bitrate_bps, fps_num, fps_den) < u32::MAX ==> bitrate_bps * fps_den
            < (frame_bits(bitrate_bps, fps_num, fps_den) + 1) * fps_num,
        0 <= frame_bits(bitrate_bps, fps_num, fps_den) <= u32::MAX,
{
    if fps_num > 0 {
        let total = bitrate_bps * fps_den;
        let n = fps_num as int;
        let q = total / n;
        assert(total >= 0) by (nonlinear_arith)
            requires
                total == bitrate_bps * fps_den,
        ;
        assert(0 <= q && total < (q + 1) * n) by (nonlinear_arith)
            requires
                n > 0,
                total >= 0,
                q == total / n,
        ;
    }
}

/// Of two bitrates at one frame rate, the higher one never gets fewer bits a
/// frame.
pub proof fn law_frame_bits_are_monotone(a: u32, b: u32, fps_num: u32, fps_den: u32)
    requires
        a <= b,
    ensures
        frame_bits(a, fps_num, fps_den) <= frame_bits(b, fps_num, fps_den),
{
    if fps_num > 0 {
        let n = fps_num as int;
        let x = a * fps_den;
        let y = b * fps_den;
        assert(x <= y) by (nonlinear_arith)
            requires
                a <= b,
                x == a * fps_den,
                y == b * fps_den,
        ;
        assert(x / n <= y / n) by (nonlinear_arith)
            requires
                n > 0,
                x <= y,
        ;
    }
}

/// What a configuration asks for reaches NVENC: the profile with its entropy
/// coder, a GOP that begins with an IDR, no B-frames, one slice of 4:2:0 per
/// frame, and the parameter sets as asked.
pub proof fn law_configuration_reaches_nvenc(preset: NvEncConfig, cfg: EncoderConfig)
    ensures
        ({
            let c = applied(preset, cfg);
            &&& cfg.profile == H264Profile::ConstrainedBaseline <==> c.profile_guid
                == ProfileGuid::H264Baseline
            &&& cfg.profile == H264Profile::Main <==> c.profile_guid == ProfileGuid::H264Main
            &&& cfg.profile == H264Profile::High <==> c.profile_guid == ProfileGuid::H264High
            &&& c.h264.entropy_coding_mode == EntropyCodingMode::Cavlc <==> cfg.profile
                == H264Profile::ConstrainedBaseline
            &&& c.h264.entropy_coding_mode != EntropyCodingMode::AutoSelect
            &&& c.gop_length == cfg.gop_length
            &&& c.h264.idr_period == cfg.gop_length
            &&& c.frame_interval_p == 1
            &&& c.h264.slice_mode == 3
            &&& c.h264.slice_mode_data == 1
            &&& c.h264.chroma_format_idc == 1
            &&& c.h264.repeat_sps_pps == cfg.repeat_sps_pps
            &&& !c.h264.output_aud
        }),
{
}

/// The rate control that a configuration asks for reaches NVENC. Variable
/// bitrate raises the maximum where the preset's is too low, and never lowers
/// it; constant QP has one quantizer for all frames; no mode reorders or looks
/// ahead.
pub proof fn law_rate_control_reaches_nvenc(preset: NvEncConfig, cfg: EncoderConfig)
    ensures
        ({
            let rc = applied(preset, cfg).rc_params;
            let was = preset.rc_params;
            &&& rc.rate_control_mode == NvRcMode::ConstQp <==> cfg.rc_mode == RcMode::ConstQp
            &&& rc.rate_control_mode == NvRcMode::Vbr <==> cfg.rc_mode == RcMode::Vbr
            &&& cfg.rc_mode != RcMode::ConstQp ==> rc.average_bit_rate == cfg.bitrate_bps
                && rc.const_qp == was.const_qp
            &&& cfg.rc_mode == RcMode::Vbr ==> {
                &&& rc.max_bit_rate >= cfg.bitrate_bps
                &&& rc.max_bit_rate >= was.max_bit_rate
                &&& rc.max_bit_rate == cfg.bitrate_bps || rc.max_bit_rate == was.max_bit_rate
                &&& rc.vbv_buffer_size == was.vbv_buffer_size
                &&& rc.vbv_initial_delay == was.vbv_initial_delay
            }
            &&& cfg.rc_mode == RcMode::ConstQp ==> rc.const_qp.qp_inter_p == 28
                && rc.const_qp.qp_inter_b == 28 && rc.const_qp.qp_intra == 28
            &&& rc.zero_reorder_delay
            &&& !rc.enable_lookahead
        }),
{
}

/// Every stream says that it is limited-range BT.709, whatever the preset said.
pub proof fn law_colour_is_limited_bt709(preset: NvEncConfig, cfg: EncoderConfig)
    ensures
        ({
            let vui = applied(preset, cfg).h264.vui;
            &&& vui.video_signal_type_present_flag == 1
            &&& vui.video_format == 5
            &&& vui.video_full_range_flag == 0
            &&& vui.colour_description_present_flag == 1
            &&& vui.colour_primaries == 1
            &&& vui.transfer_characteristics == 1
            &&& vui.colour_matrix == 1
        }),
{
}

} // verus!
