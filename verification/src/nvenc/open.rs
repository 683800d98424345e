//! Opening an encode session.

use crate::error::DriverError;
use crate::nvenc::encode::{in_sequence, outputs_wf};
use crate::nvenc::h264_config::{applied, apply_config, EncoderConfig, NvEncConfig};
use crate::nvenc::params::{init_params, init_params_of, map_preset_choice, preset_of, InitParams};
use crate::nvenc::preset::{NvencPreset, RcMode, Tuning};
use crate::nvenc::session::{
    session_wf, BitstreamSlot, NvencRelease, NvencSession, RegisteredSurface, SessionView,
    SlotState, POOL_SIZE,
};
use std::collections::{HashMap, VecDeque};
use vstd::prelude::*;

verus! {

broadcast use vstd::std_specs::hash::group_hash_axioms;

/// A call that opening a session needs.
#[derive(Debug, Clone, Copy, PartialEq, Eq, Structural)]
pub enum OpenCall {
    /// Make the CUDA context current on this thread.
    BindContext,
    /// Load the NVENC library.
    ProbeApi,
    /// `NvEncOpenEncodeSessionEx` on the CUDA context.
    OpenSession,
    /// `NvEncGetEncodePresetConfigEx` for H.264.
    PresetConfig { encoder: u64, preset: NvencPreset, tuning: Tuning },
    /// `NvEncInitializeEncoder`.
    Initialize { encoder: u64, params: InitParams },
    /// `NvEncCreateBitstreamBuffer`.
    CreateBitstream { encoder: u64 },
}

/// The answer to an [`OpenCall`].
#[derive(Debug, Clone, Copy, PartialEq, Eq, Structural)]
pub enum OpenReply {
    /// The call succeeded and gives nothing back.
    Done,
    /// A session was opened with this handle, which is not null.
    Opened(u64),
    /// The preset's default configuration.
    Preset(NvEncConfig),
    /// A bitstream buffer with this handle.
    Bitstream(u64),
    /// The call failed.
    Failed,
}

/// Where opening stands while a call is out.
#[derive(Debug)]
pub enum OpenRun {
    Binding { cfg: EncoderConfig },
    Probing { cfg: EncoderConfig },
    Opening { cfg: EncoderConfig },
    Fetching { cfg: EncoderConfig, encoder: u64 },
    Starting { cfg: EncoderConfig, encoder: u64 },
    Buffers { cfg: EncoderConfig, encoder: u64, pool: Vec<BitstreamSlot> },
}

/// The contents of an [`OpenRun`].
#[verifier::ext_equal]
pub enum OpenRunView {
    Binding { cfg: EncoderConfig },
    Probing { cfg: EncoderConfig },
    Opening { cfg: EncoderConfig },
    Fetching { cfg: EncoderConfig, encoder: u64 },
    Starting { cfg: EncoderConfig, encoder: u64 },
    Buffers { cfg: EncoderConfig, encoder: u64, pool: Seq<BitstreamSlot> },
}

impl View for OpenRun {
    type V = OpenRunView;

    open spec fn view(&self) -> OpenRunView {
        match *self {
            OpenRun::Binding { cfg } => OpenRunView::Binding { cfg },
            OpenRun::Probing { cfg } => OpenRunView::Probing { cfg },
            OpenRun::Opening { cfg } => OpenRunView::Opening { cfg },
            OpenRun::Fetching { cfg, encoder } => OpenRunView::Fetching { cfg, encoder },
            OpenRun::Starting { cfg, encoder } => OpenRunView::Starting { cfg, encoder },
            OpenRun::Buffers { cfg, encoder, pool } => OpenRunView::Buffers {
                cfg,
                encoder,
                pool: pool@,
            },
        }
    }
}

/// A run of opening that is not finished: every buffer so far is free, and at
/// least one is missing.
pub open spec fn open_run_wf(run: OpenRunView) -> bool {
    match run {
        OpenRunView::Buffers { pool, .. } => pool.len() < POOL_SIZE && forall|i: int|
            0 <= i < pool.len() ==> (#[trigger] pool[i]).state is Free,
        _ => true,
    }
}

/// How opening goes on.
pub enum OpenNext {
    Call { call: OpenCall, run: OpenRun },
    Done(Result<NvencSession, DriverError>),
}

/// The contents of an [`OpenNext`].
#[verifier::ext_equal]
pub enum OpenNextView {
    Call { call: OpenCall, run: OpenRunView },
    Done(Result<SessionView, DriverError>),
}

impl View for OpenNext {
    type V = OpenNextView;

    open spec fn view(&self) -> OpenNextView {
        match *self {
            OpenNext::Call { call, run } => OpenNextView::Call { call, run: run@ },
            OpenNext::Done(Ok(session)) => OpenNextView::Done(Ok(session@)),
            OpenNext::Done(Err(e)) => OpenNextView::Done(Err(e)),
        }
    }
}

/// One step of opening: what to release, in order, and how to go on.
pub struct OpenStep {
    pub releases: Vec<NvencRelease>,
    pub next: OpenNext,
}

/// The contents of an [`OpenStep`].
#[verifier::ext_equal]
pub struct OpenOutcome {
    pub releases: Seq<NvencRelease>,
    pub next: OpenNextView,
}

impl View for OpenStep {
    type V = OpenOutcome;

    open spec fn view(&self) -> OpenOutcome {
        OpenOutcome { releases: self.releases@, next: self.next@ }
    }
}

/// A session as it comes out of opening: nothing registered, nothing pending,
/// every slot free.
pub open spec fn fresh_session(
    cfg: EncoderConfig,
    encoder: u64,
    pool: Seq<BitstreamSlot>,
) -> SessionView {
    SessionView {
        encoder,
        config: cfg,
        preset: preset_of(cfg).0,
        tuning: preset_of(cfg).1,
        registered: Map::empty(),
        pool,
        next_slot: 0,
        submitted: 0,
        outputs: Seq::empty(),
    }
}

/// Destroying the buffers of a pool, in order.
pub open spec fn destroy_pool(encoder: u64, pool: Seq<BitstreamSlot>) -> Seq<NvencRelease> {
    pool.map_values(
        |slot: BitstreamSlot| NvencRelease::DestroyBitstream { encoder, output: slot.handle },
    )
}

/// A step of opening that makes a call.
pub open spec fn open_calls(call: OpenCall, run: OpenRunView) -> OpenOutcome {
    OpenOutcome { releases: Seq::empty(), next: OpenNextView::Call { call, run } }
}

/// A step of opening that fails before there is an encoder.
pub open spec fn open_fails(what: &'static str) -> OpenOutcome {
    OpenOutcome {
        releases: Seq::empty(),
        next: OpenNextView::Done(Err(DriverError::OperationFailed(what))),
    }
}

/// A step of opening that fails with an encoder at hand: the buffers made so
/// far and then the encoder are destroyed.
pub open spec fn open_undoes(encoder: u64, pool: Seq<BitstreamSlot>, what: &'static str) -> OpenOutcome {
    OpenOutcome {
        releases: destroy_pool(encoder, pool).push(NvencRelease::DestroyEncoder { encoder }),
        next: OpenNextView::Done(Err(DriverError::OperationFailed(what))),
    }
}

/// The step of opening after a call was answered.
pub open spec fn open_outcome(run: OpenRunView, reply: OpenReply) -> OpenOutcome {
    match run {
        OpenRunView::Binding { cfg } => match reply {
            OpenReply::Done => open_calls(OpenCall::ProbeApi, OpenRunView::Probing { cfg }),
            _ => open_fails("cuda bind_to_thread"),
        },
        OpenRunView::Probing { cfg } => match reply {
            OpenReply::Done => open_calls(OpenCall::OpenSession, OpenRunView::Opening { cfg }),
            _ => open_fails("ENCODE_API unavailable"),
        },
        OpenRunView::Opening { cfg } => match reply {
            OpenReply::Opened(encoder) => open_calls(
                OpenCall::PresetConfig {
                    encoder,
                    preset: preset_of(cfg).0,
                    tuning: preset_of(cfg).1,
                },
                OpenRunView::Fetching { cfg, encoder },
            ),
            _ => open_fails("NvEncOpenEncodeSessionEx"),
        },
        OpenRunView::Fetching { cfg, encoder } => match reply {
            OpenReply::Preset(preset_cfg) => open_calls(
                OpenCall::Initialize {
                    encoder,
                    params: init_params_of(
                        cfg,
                        preset_of(cfg).0,
                        preset_of(cfg).1,
                        applied(preset_cfg, cfg),
                    ),
                },
                OpenRunView::Starting { cfg, encoder },
            ),
            _ => open_undoes(encoder, Seq::empty(), "NvEncGetEncodePresetConfigEx"),
        },
        OpenRunView::Starting { cfg, encoder } => match reply {
            OpenReply::Done => open_calls(
                OpenCall::CreateBitstream { encoder },
                OpenRunView::Buffers { cfg, encoder, pool: Seq::empty() },
            ),
            _ => open_undoes(encoder, Seq::empty(), "NvEncInitializeEncoder"),
        },
        OpenRunView::Buffers { cfg, encoder, pool } => match reply {
            OpenReply::Bitstream(handle) => {
                let grown = pool.push(BitstreamSlot { handle, state: SlotState::Free });
                if grown.len() < POOL_SIZE {
                    open_calls(
                        OpenCall::CreateBitstream { encoder },
                        OpenRunView::Buffers { cfg, encoder, pool: grown },
                    )
                } else {
                    OpenOutcome {
                        releases: Seq::empty(),
                        next: OpenNextView::Done(Ok(fresh_session(cfg, encoder, grown))),
                    }
                }
            },
            _ => open_undoes(encoder, pool, "NvEncCreateBitstreamBuffer"),
        },
    }
}

/// A step that fails before there is an encoder.
fn fail_open(what: &'static str) -> (step: OpenStep)
    ensures
        step@ == open_fails(what),
{
    OpenStep { releases: Vec::new(), next: OpenNext::Done(Err(DriverError::OperationFailed(what))) }
}

/// A step that fails with an encoder at hand and destroys it.
fn undo_open(encoder: u64, pool: &Vec<BitstreamSlot>, what: &'static str) -> (step: OpenStep)
    ensures
        step@ == open_undoes(encoder, pool@, what),
{
    let mut releases: Vec<NvencRelease> = Vec::new();
    push_destroys(&mut releases, encoder, pool);
    releases.push(NvencRelease::DestroyEncoder { encoder });
    OpenStep { releases, next: OpenNext::Done(Err(DriverError::OperationFailed(what))) }
}

/// Append the destruction of every buffer of a pool.
pub(crate) fn push_destroys(releases: &mut Vec<NvencRelease>, encoder: u64, pool: &Vec<BitstreamSlot>)
    ensures
        final(releases)@ == old(releases)@ + destroy_pool(encoder, pool@),
{
    let ghost start = releases@;
    let mut i: usize = 0;
    while i < pool.len()
        invariant
            i <= pool.len(),
            releases@ == start + destroy_pool(encoder, pool@.take(i as int)),
        decreases pool.len() - i,
    {
        releases.push(NvencRelease::DestroyBitstream { encoder, output: pool[i].handle });
        i += 1;
        proof {
            assert(releases@ =~= start + destroy_pool(encoder, pool@.take(i as int)));
        }
    }
    proof {
        assert(pool@.take(i as int) =~= pool@);
    }
}

impl NvencSession {
    /// Open a session for a configuration: bind the CUDA context, load NVENC,
    /// open and initialize the encoder, and create the bitstream pool. Goes on
    /// with [`NvencSession::open_resume`].
    pub fn new(cfg: EncoderConfig) -> (step: OpenStep)
        ensures
            step@ == open_calls(OpenCall::BindContext, OpenRunView::Binding { cfg }),
    {
        OpenStep {
            releases: Vec::new(),
            next: OpenNext::Call { call: OpenCall::BindContext, run: OpenRun::Binding { cfg } },
        }
    }

    /// Go on with opening after a call was answered.
    pub fn open_resume(run: OpenRun, reply: OpenReply) -> (step: OpenStep)
        requires
            open_run_wf(run@),
        ensures
            step@ == open_outcome(run@, reply),
    {
        let empty: Vec<BitstreamSlot> = Vec::new();
        let (call, run): (OpenCall, OpenRun) = match run {
            OpenRun::Binding { cfg } => match reply {
                OpenReply::Done => (OpenCall::ProbeApi, OpenRun::Probing { cfg }),
                _ => return fail_open("cuda bind_to_thread"),
            },
            OpenRun::Probing { cfg } => match reply {
                OpenReply::Done => (OpenCall::OpenSession, OpenRun::Opening { cfg }),
                _ => return fail_open("ENCODE_API unavailable"),
            },
            OpenRun::Opening { cfg } => match reply {
                OpenReply::Opened(encoder) => {
                    let (preset, tuning) = map_preset_choice(cfg);
                    (
                        OpenCall::PresetConfig { encoder, preset, tuning },
                        OpenRun::Fetching { cfg, encoder },
                    )
                },
                _ => return fail_open("NvEncOpenEncodeSessionEx"),
            },
            OpenRun::Fetching { cfg, encoder } => match reply {
                OpenReply::Preset(preset_cfg) => {
                    let (preset, tuning) = map_preset_choice(cfg);
                    let mut encode_config = preset_cfg;
                    apply_config(&mut encode_config, &cfg);
                    let params = init_params(&cfg, preset, tuning, encode_config);
                    (OpenCall::Initialize { encoder, params }, OpenRun::Starting { cfg, encoder })
                },
                _ => return undo_open(encoder, &empty, "NvEncGetEncodePresetConfigEx"),
            },
            OpenRun::Starting { cfg, encoder } => match reply {
                OpenReply::Done => (
                    OpenCall::CreateBitstream { encoder },
                    OpenRun::Buffers { cfg, encoder, pool: empty },
                ),
                _ => return undo_open(encoder, &empty, "NvEncInitializeEncoder"),
            },
            OpenRun::Buffers { cfg, encoder, pool } => match reply {
                OpenReply::Bitstream(handle) => {
                    let mut pool = pool;
                    pool.push(BitstreamSlot { handle, state: SlotState::Free });
                    if pool.len() < POOL_SIZE {
                        (
                            OpenCall::CreateBitstream { encoder },
                            OpenRun::Buffers { cfg, encoder, pool },
                        )
                    } else {
                        let (preset, tuning) = map_preset_choice(cfg);
                        let session = NvencSession {
                            encoder,
                            config: cfg,
                            preset,
                            tuning,
                            registered: HashMap::new(),
                            pool,
                            next_slot: 0,
                            submitted: 0,
                            pending_outputs: VecDeque::new(),
                        };
                        proof {
                            assert(session@ =~= fresh_session(cfg, encoder, pool@));
                        }
                        return OpenStep { releases: Vec::new(), next: OpenNext::Done(Ok(session)) };
                    }
                },
                _ => return undo_open(encoder, &pool, "NvEncCreateBitstreamBuffer"),
            },
        };
        OpenStep { releases: Vec::new(), next: OpenNext::Call { call, run } }
    }
}

/// The encoder that a run of opening holds.
pub open spec fn open_encoder(run: OpenRunView) -> Option<u64> {
    match run {
        OpenRunView::Fetching { encoder, .. } => Some(encoder),
        OpenRunView::Starting { encoder, .. } => Some(encoder),
        OpenRunView::Buffers { encoder, .. } => Some(encoder),
        _ => None,
    }
}

/// The buffers that a run of opening holds.
pub open spec fn open_pool(run: OpenRunView) -> Seq<BitstreamSlot> {
    match run {
        OpenRunView::Buffers { pool, .. } => pool,
        _ => Seq::empty(),
    }
}

/// Opening leaks nothing: a step that fails destroys every buffer made so far
/// and the encoder, in that order, and a step that does not fail destroys
/// nothing.
pub proof fn law_failed_open_undoes_everything(run: OpenRunView, reply: OpenReply)
    ensures
        ({
            let o = open_outcome(run, reply);
            if o.next matches OpenNextView::Done(Err(_)) {
                match open_encoder(run) {
                    Some(encoder) => o.releases == destroy_pool(encoder, open_pool(run)).push(
                        NvencRelease::DestroyEncoder { encoder },
                    ),
                    None => o.releases.len() == 0,
                }
            } else {
                o.releases.len() == 0
            }
        }),
{
}

/// A session that was opened is valid, has its whole pool free, holds the
/// configuration it was opened for, has nothing registered or queued, and
/// numbers its frames in order.
pub proof fn law_opened_session_is_fresh(run: OpenRunView, reply: OpenReply)
    requires
        open_run_wf(run),
    ensures
        open_outcome(run, reply).next matches OpenNextView::Done(Ok(s)) ==> {
            &&& session_wf(s)
            &&& outputs_wf(s)
            &&& in_sequence(s)
            &&& forall|i: int| 0 <= i < s.pool.len() ==> (#[trigger] s.pool[i]).state is Free
            &&& s.registered == Map::<u64, RegisteredSurface>::empty()
            &&& run matches OpenRunView::Buffers { cfg, encoder, .. } && s.config == cfg
                && s.encoder == encoder
        },
        open_outcome(run, reply).next matches OpenNextView::Call { run: next, .. } ==> open_run_wf(
            next,
        ),
{
}

/// The configuration that a run opens a session for.
pub open spec fn open_config(run: OpenRunView) -> EncoderConfig {
    match run {
        OpenRunView::Binding { cfg } => cfg,
        OpenRunView::Probing { cfg } => cfg,
        OpenRunView::Opening { cfg } => cfg,
        OpenRunView::Fetching { cfg, .. } => cfg,
        OpenRunView::Starting { cfg, .. } => cfg,
        OpenRunView::Buffers { cfg, .. } => cfg,
    }
}

/// A session is opened for one configuration and one encoder: each step keeps
/// the configuration, the encoder is the one that NVENC opened, every call that
/// needs one goes to it, and every buffer that NVENC makes joins the pool, in
/// order.
pub proof fn law_opening_keeps_its_purpose(run: OpenRunView, reply: OpenReply)
    requires
        open_run_wf(run),
    ensures
        match open_outcome(run, reply).next {
            OpenNextView::Call { call, run: next } => {
                &&& open_config(next) == open_config(run)
                &&& open_encoder(run) is Some ==> open_encoder(next) == open_encoder(run)
                &&& reply matches OpenReply::Opened(encoder) ==> open_encoder(next) == Some(encoder)
                &&& open_pool(next) == match reply {
                    OpenReply::Bitstream(handle) => open_pool(run).push(
                        BitstreamSlot { handle, state: SlotState::Free },
                    ),
                    _ => open_pool(run),
                }
                &&& match call {
                    OpenCall::BindContext => false,
                    OpenCall::ProbeApi => run is Binding,
                    OpenCall::OpenSession => run is Probing,
                    OpenCall::PresetConfig { encoder, .. } => open_encoder(next) == Some(encoder),
                    OpenCall::Initialize { encoder, .. } => open_encoder(run) == Some(encoder),
                    OpenCall::CreateBitstream { encoder } => open_encoder(run) == Some(encoder),
                }
            },
            OpenNextView::Done(Ok(s)) => {
                &&& s.config == open_config(run)
                &&& open_encoder(run) == Some(s.encoder)
                &&& s.pool.len() == 6
                &&& reply matches OpenReply::Bitstream(handle) && s.pool == open_pool(run).push(
                    BitstreamSlot { handle, state: SlotState::Free },
                )
            },
            OpenNextView::Done(Err(e)) => e is OperationFailed,
        },
{
}

/// The encoder is initialized for the configuration, on top of the preset that
/// NVENC gave for it, and the session keeps that preset for later changes.
pub proof fn law_encoder_is_initialized_for_the_configuration(
    cfg: EncoderConfig,
    encoder: u64,
    preset_cfg: NvEncConfig,
    pool: Seq<BitstreamSlot>,
    handle: u64,
)
    requires
        pool.len() == POOL_SIZE - 1,
    ensures
        open_outcome(OpenRunView::Opening { cfg }, OpenReply::Opened(encoder)).next matches
            OpenNextView::Call {
            call: OpenCall::PresetConfig { preset, tuning, .. },
            run: fetching,
        } && (open_outcome(fetching, OpenReply::Preset(preset_cfg)).next matches OpenNextView::Call {
            call: OpenCall::Initialize { params, .. },
            ..
        } && {
            &&& params.preset == preset && params.tuning == tuning
            &&& params.encode_width == cfg.width && params.encode_height == cfg.height
            &&& params.frame_rate_num == cfg.fps_num && params.frame_rate_den == cfg.fps_den
            &&& params.encode_config.gop_length == cfg.gop_length
            &&& cfg.rc_mode != RcMode::ConstQp ==> params.encode_config.rc_params.average_bit_rate
                == cfg.bitrate_bps
            &&& params.encode_config.h264.repeat_sps_pps == cfg.repeat_sps_pps
            &&& params.encode_config.version == preset_cfg.version
            &&& open_outcome(
                OpenRunView::Buffers { cfg, encoder, pool },
                OpenReply::Bitstream(handle),
            ).next matches OpenNextView::Done(Ok(s)) && s.preset == preset && s.tuning == tuning
        }),
{
}

} // verus!
