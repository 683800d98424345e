//! Changing the configuration of a running encode session.

use crate::error::DriverError;
use crate::nvenc::h264_config::{applied, apply_config, EncoderConfig, NvEncConfig};
use crate::nvenc::params::{init_params, init_params_of, InitParams};
use crate::nvenc::preset::{NvencPreset, RcMode, Tuning};
use crate::nvenc::session::{NvencSession, SessionView};
use vstd::prelude::*;

verus! {

/// A call that reconfiguration needs.
#[derive(Debug, Clone, Copy, PartialEq, Eq, Structural)]
pub enum ReconfigureCall {
    /// `NvEncGetEncodePresetConfigEx` for H.264.
    PresetConfig { encoder: u64, preset: NvencPreset, tuning: Tuning },
    /// `NvEncReconfigureEncoder`.
    Reconfigure { encoder: u64, params: InitParams, force_idr: bool },
}

/// The answer to a [`ReconfigureCall`].
#[derive(Debug, Clone, Copy, PartialEq, Eq, Structural)]
pub enum ReconfigureReply {
    Preset(NvEncConfig),
    Done,
    Failed,
}

/// Where reconfiguration stands while a call is out.
#[derive(Debug, Clone, Copy, PartialEq, Eq, Structural)]
pub enum ReconfigureRun {
    Fetching { cfg: EncoderConfig },
    Changing { cfg: EncoderConfig },
}

/// How reconfiguration goes on.
#[derive(Debug, Clone, Copy)]
pub enum ReconfigureNext {
    Call { call: ReconfigureCall, run: ReconfigureRun },
    Done(Result<(), DriverError>),
}

/// The first step of reconfiguration.
pub open spec fn reconfigure_begin(
    s: SessionView,
    new_cfg: EncoderConfig,
    api_ready: bool,
) -> ReconfigureNext {
    if new_cfg == s.config {
        ReconfigureNext::Done(Ok(()))
    } else if !api_ready {
        ReconfigureNext::Done(Err(DriverError::OperationFailed("ENCODE_API unavailable")))
    } else {
        ReconfigureNext::Call {
            call: ReconfigureCall::PresetConfig {
                encoder: s.encoder,
                preset: s.preset,
                tuning: s.tuning,
            },
            run: ReconfigureRun::Fetching { cfg: new_cfg },
        }
    }
}

/// The step of reconfiguration after a call was answered.
pub open spec fn reconfigure_outcome(
    s: SessionView,
    run: ReconfigureRun,
    reply: ReconfigureReply,
) -> (SessionView, ReconfigureNext) {
    match run {
        ReconfigureRun::Fetching { cfg } => match reply {
            ReconfigureReply::Preset(preset_cfg) => (
                s,
                ReconfigureNext::Call {
                    call: ReconfigureCall::Reconfigure {
                        encoder: s.encoder,
                        params: init_params_of(cfg, s.preset, s.tuning, applied(preset_cfg, cfg)),
                        force_idr: true,
                    },
                    run: ReconfigureRun::Changing { cfg },
                },
            ),
            _ => (
                s,
                ReconfigureNext::Done(
                    Err(DriverError::OperationFailed("NvEncGetEncodePresetConfigEx")),
                ),
            ),
        },
        ReconfigureRun::Changing { cfg } => match reply {
            ReconfigureReply::Done => (
                SessionView { config: cfg, ..s },
                ReconfigureNext::Done(Ok(())),
            ),
            _ => (
                s,
                ReconfigureNext::Done(Err(DriverError::OperationFailed("NvEncReconfigureEncoder"))),
            ),
        },
    }
}

impl NvencSession {
    /// Change the configuration of a running session, keeping its preset and
    /// tuning. On failure the session keeps the configuration it has.
    pub fn reconfigure(&self, new_cfg: EncoderConfig, api_ready: bool) -> (next: ReconfigureNext)
        ensures
            next == reconfigure_begin(self@, new_cfg, api_ready),
    {
        if new_cfg == self.config {
            return ReconfigureNext::Done(Ok(()));
        }
        if !api_ready {
            return ReconfigureNext::Done(
                Err(DriverError::OperationFailed("ENCODE_API unavailable")),
            );
        }
        let call = ReconfigureCall::PresetConfig {
            encoder: self.encoder,
            preset: self.preset,
            tuning: self.tuning,
        };
        ReconfigureNext::Call { call, run: ReconfigureRun::Fetching { cfg: new_cfg } }
    }

    /// Go on with reconfiguration after a call was answered. The change forces
    /// an IDR so that decoders resynchronise.
    pub fn reconfigure_resume(&mut self, run: ReconfigureRun, reply: ReconfigureReply) -> (next:
        ReconfigureNext)
        ensures
            (final(self)@, next) == reconfigure_outcome(old(self)@, run, reply),
    {
        match run {
            ReconfigureRun::Fetching { cfg } => match reply {
                ReconfigureReply::Preset(preset_cfg) => {
                    let mut encode_config = preset_cfg;
                    apply_config(&mut encode_config, &cfg);
                    let params = init_params(&cfg, self.preset, self.tuning, encode_config);
                    let call = ReconfigureCall::Reconfigure {
                        encoder: self.encoder,
                        params,
                        force_idr: true,
                    };
                    ReconfigureNext::Call { call, run: ReconfigureRun::Changing { cfg } }
                },
                _ => ReconfigureNext::Done(
                    Err(DriverError::OperationFailed("NvEncGetEncodePresetConfigEx")),
                ),
            },
            ReconfigureRun::Changing { cfg } => match reply {
                ReconfigureReply::Done => {
                    self.config = cfg;
                    ReconfigureNext::Done(Ok(()))
                },
                _ => ReconfigureNext::Done(
                    Err(DriverError::OperationFailed("NvEncReconfigureEncoder")),
                ),
            },
        }
    }
}

/// Reconfiguring to the configuration in force asks nothing and succeeds.
pub proof fn law_reconfigure_same_is_noop(s: SessionView, api_ready: bool)
    ensures
        reconfigure_begin(s, s.config, api_ready) == ReconfigureNext::Done(Ok(())),
{
}

/// A reconfiguration changes the configuration and nothing else, and only when
/// it succeeds; after success the same reconfiguration is a no-op.
pub proof fn law_reconfigure_changes_config_or_nothing(
    s: SessionView,
    run: ReconfigureRun,
    reply: ReconfigureReply,
    api_ready: bool,
)
    ensures
        ({
            let (after, next) = reconfigure_outcome(s, run, reply);
            &&& after == SessionView { config: after.config, ..s }
            &&& !(next matches ReconfigureNext::Done(Ok(_))) ==> after == s
            &&& next matches ReconfigureNext::Done(Ok(_)) ==> run matches ReconfigureRun::Changing {
                cfg,
            } && after.config == cfg && reconfigure_begin(after, cfg, api_ready)
                == ReconfigureNext::Done(Ok(()))
        }),
{
}

/// A change of configuration asks NVENC for the new one: the encoder stays, with
/// its preset and tuning, and is told the new size, frame rate, bitrate, GOP and
/// profile, with an IDR to begin with; once NVENC has agreed, the session has
/// that configuration.
pub proof fn law_reconfigure_asks_for_the_new_configuration(
    s: SessionView,
    cfg: EncoderConfig,
    preset_cfg: NvEncConfig,
)
    requires
        cfg != s.config,
    ensures
        reconfigure_begin(s, cfg, false) matches ReconfigureNext::Done(Err(_)),
        reconfigure_begin(s, cfg, true) matches ReconfigureNext::Call {
            call: ReconfigureCall::PresetConfig { encoder, preset, tuning },
            run: first,
        } && encoder == s.encoder && preset == s.preset && tuning == s.tuning && (
        reconfigure_outcome(s, first, ReconfigureReply::Preset(preset_cfg)).1 matches
            ReconfigureNext::Call {
            call: ReconfigureCall::Reconfigure { encoder, params, force_idr },
            run: second,
        } && {
            &&& encoder == s.encoder
            &&& force_idr
            &&& params.preset == s.preset && params.tuning == s.tuning
            &&& params.encode_width == cfg.width && params.encode_height == cfg.height
            &&& params.frame_rate_num == cfg.fps_num && params.frame_rate_den == cfg.fps_den
            &&& params.encode_config.gop_length == cfg.gop_length
            &&& cfg.rc_mode != RcMode::ConstQp ==> params.encode_config.rc_params.average_bit_rate
                == cfg.bitrate_bps
            &&& params.encode_config.h264.repeat_sps_pps == cfg.repeat_sps_pps
            &&& params.encode_config.version == preset_cfg.version
            &&& reconfigure_outcome(s, second, ReconfigureReply::Done).0.config == cfg
            &&& reconfigure_outcome(s, second, ReconfigureReply::Done).1 matches
                ReconfigureNext::Done(Ok(_))
            &&& reconfigure_outcome(s, second, ReconfigureReply::Failed).1 matches
                ReconfigureNext::Done(Err(_))
        }),
{
}

} // verus!
