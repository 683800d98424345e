//! The parameters that calls into the encoder are made with.

use crate::nvenc::h264_config::{EncoderConfig, H264Profile, NvEncConfig};
use crate::nvenc::preset::{choice_of, choose_preset, NvencPreset, RcMode, Tuning};
use crate::nvenc::session::RegisteredSurface;
use crate::va;
use crate::va::VAProfile;
use vstd::prelude::*;

verus! {

/// Map a VA profile to the H.264 profile of the session.
pub open spec fn profile_of_va(profile: VAProfile) -> Option<H264Profile> {
    if profile == va::VA_PROFILE_H264_MAIN {
        Some(H264Profile::Main)
    } else if profile == va::VA_PROFILE_H264_CONSTRAINED_BASELINE {
        Some(H264Profile::ConstrainedBaseline)
    } else if profile == va::VA_PROFILE_H264_HIGH {
        Some(H264Profile::High)
    } else {
        None
    }
}

/// Map a VA profile to the H.264 profile of the session.
pub fn h264_profile_from_va(profile: VAProfile) -> (mapped: Option<H264Profile>)
    ensures
        mapped == profile_of_va(profile),
{
    if profile == va::VA_PROFILE_H264_MAIN {
        Some(H264Profile::Main)
    } else if profile == va::VA_PROFILE_H264_CONSTRAINED_BASELINE {
        Some(H264Profile::ConstrainedBaseline)
    } else if profile == va::VA_PROFILE_H264_HIGH {
        Some(H264Profile::High)
    } else {
        None
    }
}

/// The integer frame rate of a configuration, rounded down; 30 where the rate
/// has no denominator.
pub open spec fn fps_of(cfg: EncoderConfig) -> u32 {
    if cfg.fps_den > 0 {
        cfg.fps_num / cfg.fps_den
    } else {
        30
    }
}

/// The preset and tuning of a configuration.
pub open spec fn preset_of(cfg: EncoderConfig) -> (NvencPreset, Tuning) {
    let choice = choice_of(cfg.bitrate_bps as u64, fps_of(cfg), cfg.rc_mode == RcMode::ConstQp);
    (choice.preset, choice.tuning)
}

/// Choose the preset and tuning for a configuration.
pub fn map_preset_choice(cfg: EncoderConfig) -> (chosen: (NvencPreset, Tuning))
    ensures
        chosen == preset_of(cfg),
{
    let rc_wants_cqp = matches!(cfg.rc_mode, RcMode::ConstQp);
    let bitrate: u64 = cfg.bitrate_bps as u64;
    let fps: u32 = if cfg.fps_den > 0 {
        cfg.fps_num / cfg.fps_den
    } else {
        30
    };
    let choice = choose_preset(bitrate, fps, rc_wants_cqp);
    (choice.preset, choice.tuning)
}

/// The parameters of `NvEncInitializeEncoder`.
#[derive(Debug, Clone, Copy, PartialEq, Eq, Structural)]
pub struct InitParams {
    pub preset: NvencPreset,
    pub tuning: Tuning,
    pub encode_width: u32,
    pub encode_height: u32,
    pub dar_width: u32,
    pub dar_height: u32,
    pub frame_rate_num: u32,
    pub frame_rate_den: u32,
    pub enable_ptd: bool,
    pub enable_encode_async: bool,
    pub buffer_format: u32,
    pub encode_config: NvEncConfig,
}

/// Synchronous NV12 encoding at the configured size and rate, with picture
/// types decided by NVENC and the display ratio that of the picture.
pub open spec fn init_params_of(
    cfg: EncoderConfig,
    preset: NvencPreset,
    tuning: Tuning,
    encode_config: NvEncConfig,
) -> InitParams {
    InitParams {
        preset,
        tuning,
        encode_width: cfg.width,
        encode_height: cfg.height,
        dar_width: cfg.width,
        dar_height: cfg.height,
        frame_rate_num: cfg.fps_num,
        frame_rate_den: cfg.fps_den,
        enable_ptd: true,
        enable_encode_async: false,
        buffer_format: BUFFER_FORMAT_NV12,
        encode_config,
    }
}

/// The parameters of `NvEncInitializeEncoder` for a configuration.
pub fn init_params(
    cfg: &EncoderConfig,
    preset: NvencPreset,
    tuning: Tuning,
    encode_config: NvEncConfig,
) -> (p: InitParams)
    ensures
        p == init_params_of(*cfg, preset, tuning, encode_config),
{
    InitParams {
        preset,
        tuning,
        encode_width: cfg.width,
        encode_height: cfg.height,
        dar_width: cfg.width,
        dar_height: cfg.height,
        frame_rate_num: cfg.fps_num,
        frame_rate_den: cfg.fps_den,
        enable_ptd: true,
        enable_encode_async: false,
        buffer_format: BUFFER_FORMAT_NV12,
        encode_config,
    }
}

/// The parameters of `NvEncEncodePicture`.
#[derive(Debug, Clone, Copy, PartialEq, Eq, Structural)]
pub struct PicParams {
    pub input_width: u32,
    pub input_height: u32,
    pub input_pitch: u32,
    pub input_buffer: u64,
    pub output_bitstream: u64,
    pub buffer_fmt: u32,
    pub picture_struct: u32,
    pub encode_pic_flags: u32,
}

/// `NV_ENC_BUFFER_FORMAT_NV12`.
pub const BUFFER_FORMAT_NV12: u32 = 1;

/// `NV_ENC_PIC_STRUCT_FRAME`.
pub const PIC_STRUCT_FRAME: u32 = 1;

/// `NV_ENC_PIC_FLAG_FORCEIDR`.
pub const PIC_FLAG_FORCE_IDR: u32 = 2;

/// A progressive NV12 frame of a registered surface, as an IDR if asked.
pub open spec fn pic_params_of(
    reg: RegisteredSurface,
    input: u64,
    output: u64,
    force_idr: bool,
) -> PicParams {
    PicParams {
        input_width: reg.width,
        input_height: reg.height,
        input_pitch: reg.pitch,
        input_buffer: input,
        output_bitstream: output,
        buffer_fmt: BUFFER_FORMAT_NV12,
        picture_struct: PIC_STRUCT_FRAME,
        encode_pic_flags: if force_idr {
            PIC_FLAG_FORCE_IDR
        } else {
            0
        },
    }
}

/// The parameters of `NvEncEncodePicture` for a mapped surface.
pub fn pic_params(reg: RegisteredSurface, input_buf: u64, output_buf: u64, force_idr: bool) -> (p:
    PicParams)
    ensures
        p == pic_params_of(reg, input_buf, output_buf, force_idr),
{
    PicParams {
        input_width: reg.width,
        input_height: reg.height,
        input_pitch: reg.pitch,
        input_buffer: input_buf,
        output_bitstream: output_buf,
        buffer_fmt: BUFFER_FORMAT_NV12,
        picture_struct: PIC_STRUCT_FRAME,
        encode_pic_flags: if force_idr {
            PIC_FLAG_FORCE_IDR
        } else {
            0
        },
    }
}

// ---------------------------------------------------------------------------
// Laws
// ---------------------------------------------------------------------------

/// A VA profile and its codec profile are one and the same H.264 profile, by the
/// numbers of `<va/va.h>`.
pub proof fn law_profiles_correspond(profile: VAProfile)
    ensures
        profile_of_va(profile) == Some(H264Profile::Main) <==> profile == 6,
        profile_of_va(profile) == Some(H264Profile::High) <==> profile == 7,
        profile_of_va(profile) == Some(H264Profile::ConstrainedBaseline) <==> profile == 13,
{
}

/// The whole frame rate is the greatest one that the fraction reaches.
pub proof fn law_frame_rate_is_rounded_down(cfg: EncoderConfig)
    ensures
        cfg.fps_den > 0 ==> fps_of(cfg) * cfg.fps_den <= cfg.fps_num < (fps_of(cfg) + 1)
            * cfg.fps_den,
        cfg.fps_den == 0 ==> fps_of(cfg) == 30,
{
    if cfg.fps_den > 0 {
        let n = cfg.fps_num as int;
        let d = cfg.fps_den as int;
        let q = n / d;
        assert(q * d <= n < (q + 1) * d) by (nonlinear_arith)
            requires
                d > 0,
                q == n / d,
        ;
    }
}

/// A configuration with constant QP gets the middle preset; any other gets the
/// one for its bitrate and frame rate.
pub proof fn law_preset_follows_the_configuration(cfg: EncoderConfig)
    ensures
        cfg.rc_mode == RcMode::ConstQp ==> preset_of(cfg) == (NvencPreset::P4, Tuning::LowLatency),
        cfg.rc_mode != RcMode::ConstQp ==> {
            &&& preset_of(cfg).0 == NvencPreset::P3 <==> cfg.bitrate_bps <= 2_500_000 && fps_of(cfg)
                <= 30
            &&& preset_of(cfg).0 == NvencPreset::P5 <==> cfg.bitrate_bps > 6_000_000 || fps_of(cfg)
                > 60
            &&& preset_of(cfg).1 == Tuning::UltraLowLatency <==> preset_of(cfg).0
                == NvencPreset::P3
        },
{
}

/// The encoder is set up for the picture that is configured: its size, with the
/// display ratio of that size, and its frame rate; NV12 in, synchronously, with
/// picture types left to NVENC.
pub proof fn law_encoder_is_set_up_for_the_picture(
    cfg: EncoderConfig,
    preset: NvencPreset,
    tuning: Tuning,
    encode_config: NvEncConfig,
)
    ensures
        ({
            let p = init_params_of(cfg, preset, tuning, encode_config);
            &&& p.encode_width == cfg.width
            &&& p.encode_height == cfg.height
            &&& p.dar_width * p.encode_height == p.dar_height * p.encode_width
            &&& p.dar_width == cfg.width
            &&& p.frame_rate_num == cfg.fps_num
            &&& p.frame_rate_den == cfg.fps_den
            &&& p.preset == preset
            &&& p.tuning == tuning
            &&& p.encode_config == encode_config
            &&& p.buffer_format == 1
            &&& p.enable_ptd
            &&& !p.enable_encode_async
        }),
{
    assert(cfg.width * cfg.height == cfg.height * cfg.width) by (nonlinear_arith);
}

/// A picture is submitted from its input to its output, as a progressive NV12
/// frame with the sides and the pitch of the surface, and as an IDR exactly
/// where that is asked for.
pub proof fn law_picture_is_that_of_the_surface(
    reg: RegisteredSurface,
    input: u64,
    output: u64,
    force_idr: bool,
)
    ensures
        ({
            let p = pic_params_of(reg, input, output, force_idr);
            &&& p.input_width == reg.width
            &&& p.input_height == reg.height
            &&& p.input_pitch == reg.pitch
            &&& p.input_buffer == input
            &&& p.output_bitstream == output
            &&& p.buffer_fmt == 1
            &&& p.picture_struct == 1
            &&& force_idr ==> p.encode_pic_flags == 2
            &&& !force_idr ==> p.encode_pic_flags == 0
        }),
{
}

} // verus!
