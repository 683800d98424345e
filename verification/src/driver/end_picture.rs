//! `vaEndPicture`: encoding the frame that a context has gathered.
//!
//! [`end_picture`] takes the frame out of its context. [`end_picture_frame`]
//! reads the client's sequence, picture and misc parameters and goes on to
//! [`end_picture_encode`], which brings the session's configuration up to them,
//! registers the render target if that is still to be done, encodes, and
//! writes the bitstream to the coded buffer. Where the encoder must be asked,
//! the step hands out the call, and [`end_picture_resume`] goes on with the
//! answer.

use crate::driver::picture::swap_pending;
use crate::driver::state::{
    empty_frame, opt_bytes, same_keys, BufferStorage, BufferView, CodedSegment, ContextView,
    PendingFrame, Pools, PoolsView, StorageView, SurfaceKind, SurfaceRec,
};
use crate::error::{DriverError, DriverResult};
use crate::h264::{
    parse_pps, parse_sps, picture_in, plain_picture, sequence_in, PictureParams, SequenceParams,
};
use crate::ids::{changed, find_id, BufferKey, ConfigKey, ContainsKey, ContextKey, SurfaceKey};
use crate::nvenc::encode::{
    begin_outcome, law_encode_keeps_session_valid, resume_outcome, run_wf, EncodeCall, EncodeNext,
    EncodeOutcome, EncodeReply, EncodeRun, EncodeStep, NextView, ReplyView,
};
use crate::nvenc::h264_config::{EncoderConfig, H264Profile};
use crate::nvenc::params::{h264_profile_from_va, profile_of_va};
use crate::nvenc::reconfigure::{
    reconfigure_begin, reconfigure_outcome, ReconfigureCall, ReconfigureNext, ReconfigureReply,
    ReconfigureRun,
};
use crate::nvenc::register::{
    external_params, internal_params, register_begin, register_result, registered_session,
    RegisterNext, RegisterParams, RegisterRun, ResourceType,
};
use crate::nvenc::session::{session_wf, CodedBitstream, CodedView, NvencRelease, SessionView};
use crate::rates::{
    all_bytes, build_cfg_from_rates, open_rates, parse_all_misc, rated_config, rates_in, RateParams,
};
use vstd::prelude::*;

verus! {

// ---------------------------------------------------------------------------
// Taking the frame
// ---------------------------------------------------------------------------

/// A frame taken out of its context, for encoding.
#[derive(Debug)]
pub struct EndFrame {
    pub context: ContextKey,
    pub target: SurfaceKey,
    pub seq_param: Option<Vec<u8>>,
    pub pic_param: Option<Vec<u8>>,
    pub misc_params: Vec<Vec<u8>>,
    pub coded_buf: Option<BufferKey>,
}

/// Take the gathered frame out of a context. The context starts over with an
/// empty one, even if it has no render target and the frame is lost.
pub fn end_picture(pools: &mut Pools, context: u32) -> (r: DriverResult<EndFrame>)
    requires
        old(pools).wf(),
    ensures
        final(pools).wf(),
        match find_id(old(pools).contexts@, context) {
            None => r matches Err(e) && e == DriverError::InvalidContext && *final(pools) == *old(
                pools,
            ),
            Some(ck) => {
                let c = old(pools).contexts@[ck];
                &&& match c.current_target {
                    None => r matches Err(e) && e == DriverError::InvalidSurface,
                    Some(target) => r matches Ok(frame) && frame.context == ck && frame.target
                        == target && opt_bytes(frame.seq_param) == c.pending.seq_param && opt_bytes(
                        frame.pic_param,
                    ) == c.pending.pic_param && all_bytes(frame.misc_params@)
                        == c.pending.misc_params && frame.coded_buf == c.pending.coded_buf,
                }
                &&& changed(
                    old(pools).contexts,
                    final(pools).contexts,
                    ck,
                    ContextView { pending: empty_frame(), ..c },
                )
                &&& final(pools).configs == old(pools).configs
                &&& final(pools).surfaces == old(pools).surfaces
                &&& final(pools).buffers == old(pools).buffers
                &&& final(pools).images == old(pools).images
            },
        },
{
    let ck = match pools.contexts.find_by_low_bits(context) {
        Some(k) => k,
        None => return Err(DriverError::InvalidContext),
    };
    let pending = swap_pending(pools, ck, PendingFrame::default());
    let target: Option<SurfaceKey> = match pools.contexts.get(ck) {
        Some(c) => c.current_target,
        None => None,
    };
    match target {
        None => Err(DriverError::InvalidSurface),
        Some(target) => Ok(
            EndFrame {
                context: ck,
                target,
                seq_param: pending.seq_param,
                pic_param: pending.pic_param,
                misc_params: pending.misc_params,
                coded_buf: pending.coded_buf,
            },
        ),
    }
}

// ---------------------------------------------------------------------------
// The configuration that a client asks for
// ---------------------------------------------------------------------------

/// A session's configuration with a client's sequence parameters merged in:
/// what the client left open stays as it is.
pub open spec fn merged_config(
    sps: SequenceParams,
    profile: H264Profile,
    current: EncoderConfig,
) -> EncoderConfig {
    EncoderConfig {
        profile,
        bitrate_bps: if sps.bits_per_second > 0 {
            sps.bits_per_second
        } else {
            current.bitrate_bps
        },
        fps_num: if sps.fps > 0 {
            sps.fps
        } else {
            current.fps_num
        },
        fps_den: if sps.fps > 0 {
            1
        } else {
            current.fps_den
        },
        gop_length: if sps.idr_period > 0 {
            sps.idr_period
        } else {
            current.gop_length
        },
        width: if sps.width > 0 && sps.height > 0 {
            sps.width
        } else {
            current.width
        },
        height: if sps.width > 0 && sps.height > 0 {
            sps.height
        } else {
            current.height
        },
        ..current
    }
}

/// Merge a client's sequence parameters into a session's configuration.
pub fn build_cfg_from_sps(
    sps: &SequenceParams,
    profile: H264Profile,
    current: &EncoderConfig,
) -> (cfg: EncoderConfig)
    ensures
        cfg == merged_config(*sps, profile, *current),
{
    let mut out = *current;
    out.profile = profile;
    if sps.bits_per_second > 0 {
        out.bitrate_bps = sps.bits_per_second;
    }
    if sps.fps > 0 {
        out.fps_num = sps.fps;
        out.fps_den = 1;
    }
    if sps.idr_period > 0 {
        out.gop_length = sps.idr_period;
    }
    if sps.width > 0 && sps.height > 0 {
        out.width = sps.width;
        out.height = sps.height;
    }
    out
}

/// The configuration that a frame asks for: what its sequence parameters say,
/// and then what its misc parameters say. Where it has neither, the one in
/// force.
pub open spec fn asked_config(
    p: PoolsView,
    config: ConfigKey,
    current: EncoderConfig,
    sps: Option<SequenceParams>,
    rates: RateParams,
) -> EncoderConfig {
    rated_config(
        rates,
        match sps {
            Some(sps) => merged_config(sps, config_profile(p, config), current),
            None => current,
        },
    )
}

/// The codec profile of a config: that of its VA profile, or Main where the
/// config is gone or has another profile.
pub open spec fn config_profile(p: PoolsView, config: ConfigKey) -> H264Profile {
    if p.configs.contains_key(config) {
        match profile_of_va(p.configs[config].profile) {
            Some(profile) => profile,
            None => H264Profile::Main,
        }
    } else {
        H264Profile::Main
    }
}

pub(crate) fn h264_profile_from_config(pools: &Pools, config: ConfigKey) -> (profile: H264Profile)
    requires
        pools.wf(),
    ensures
        profile == config_profile(pools@, config),
{
    match pools.configs.get(config) {
        Some(rec) => match h264_profile_from_va(rec.profile) {
            Some(profile) => profile,
            None => H264Profile::Main,
        },
        None => H264Profile::Main,
    }
}

// ---------------------------------------------------------------------------
// Steps
// ---------------------------------------------------------------------------

/// A call that encoding a frame needs.
#[derive(Debug, Clone, Copy)]
pub enum EndCall {
    Reconfigure(ReconfigureCall),
    Register(RegisterParams),
    Encode(EncodeCall),
}

/// The answer to an [`EndCall`].
#[derive(Debug)]
pub enum EndReply {
    Reconfigure(ReconfigureReply),
    Register(Option<u64>),
    Encode(EncodeReply),
}

/// The contents of an [`EndReply`].
#[verifier::ext_equal]
pub enum EndReplyView {
    Reconfigure(ReconfigureReply),
    Register(Option<u64>),
    Encode(ReplyView),
}

impl View for EndReply {
    type V = EndReplyView;

    open spec fn view(&self) -> EndReplyView {
        match *self {
            EndReply::Reconfigure(r) => EndReplyView::Reconfigure(r),
            EndReply::Register(r) => EndReplyView::Register(r),
            EndReply::Encode(r) => EndReplyView::Encode(r@),
        }
    }
}

/// What part of a frame's encoding a call belongs to.
#[derive(Debug, Clone, Copy)]
pub enum EndStage {
    Reconfigure(ReconfigureRun),
    Register(RegisterRun),
    Encode(EncodeRun),
}

/// The frame that is being encoded.
#[derive(Debug, Clone, Copy)]
pub struct EndJob {
    pub context: ContextKey,
    pub target: SurfaceKey,
    pub coded_buf: Option<BufferKey>,
    pub picture: PictureParams,
    /// Whether the NVENC library is loaded.
    pub api_ready: bool,
}

/// How encoding a frame goes on.
#[derive(Debug, Clone, Copy)]
pub enum EndNext {
    Call { call: EndCall, job: EndJob, stage: EndStage },
    Done(Result<(), DriverError>),
}

/// One step: what to release, in order, and how to go on.
pub struct EndStep {
    pub releases: Vec<NvencRelease>,
    pub next: EndNext,
}

/// What a step leaves behind.
#[verifier::ext_equal]
pub struct EndOutcome {
    pub pools: PoolsView,
    pub releases: Seq<NvencRelease>,
    pub next: EndNext,
}

/// The pools with the session of a context replaced.
pub open spec fn with_session(p: PoolsView, ck: ContextKey, s: SessionView) -> PoolsView {
    PoolsView {
        contexts: p.contexts.insert(ck, ContextView { session: Some(s), ..p.contexts[ck] }),
        ..p
    }
}

/// A job that belongs to the pools: its context is live and has a session.
pub open spec fn job_wf(p: PoolsView, job: EndJob) -> bool {
    &&& p.contexts.contains_key(job.context)
    &&& p.contexts[job.context].session is Some
}

/// A stage that the session of a job accepts.
pub open spec fn stage_wf(p: PoolsView, job: EndJob, stage: EndStage) -> bool {
    &&& job_wf(p, job)
    &&& stage matches EndStage::Encode(run) ==> run_wf(
        p.contexts[job.context].session->Some_0,
        run,
    )
}

// -- writing the bitstream ---------------------------------------------------

/// The buffer that a coded frame goes to: the one that the picture parameters
/// name, or else the one that came with the frame.
pub open spec fn coded_target(p: PoolsView, job: EndJob) -> Option<BufferKey> {
    if job.picture.coded_buf != 0 {
        match find_id(p.buffers, job.picture.coded_buf) {
            Some(k) => Some(k),
            None => job.coded_buf,
        }
    } else {
        job.coded_buf
    }
}

/// A coded buffer after a frame: it holds exactly the bitstream, with a
/// segment header of its size. While NVENC keeps the frame, the buffer is empty
/// and marked as not ready. A bitstream too long for the header is stored
/// without one.
pub open spec fn coded_into(b: BufferView, coded: CodedView) -> BufferView {
    if coded.is_pending {
        BufferView {
            storage: StorageView::Coded {
                backing: Seq::empty(),
                segment: Some(CodedSegment { size: 0, bit_offset: 0, status: 0 }),
            },
            coded_ready: false,
            ..b
        }
    } else if coded.data.len() <= u32::MAX {
        BufferView {
            storage: StorageView::Coded {
                backing: coded.data,
                segment: Some(
                    CodedSegment { size: coded.data.len() as u32, bit_offset: 0, status: 0 },
                ),
            },
            coded_ready: true,
            ..b
        }
    } else {
        BufferView {
            storage: StorageView::Coded {
                backing: coded.data,
                segment: b.storage->segment,
            },
            ..b
        }
    }
}

/// Whether the frame of a job is written to a buffer.
pub open spec fn writes_to(p: PoolsView, job: EndJob, key: BufferKey) -> bool {
    coded_target(p, job) == Some(key) && p.buffers.contains_key(key) && p.buffers[key].storage is Coded
}

/// The end of a job: the bitstream is written, and the context remembers where.
/// Fails if the bitstream is too long for a segment header.
pub open spec fn finish_outcome(
    p: PoolsView,
    releases: Seq<NvencRelease>,
    job: EndJob,
    coded: CodedView,
) -> EndOutcome {
    let target = coded_target(p, job);
    let writes = target matches Some(key) && writes_to(p, job, key);
    let buffers = if writes {
        p.buffers.insert(target->Some_0, coded_into(p.buffers[target->Some_0], coded))
    } else {
        p.buffers
    };
    if writes && !coded.is_pending && coded.data.len() > u32::MAX {
        EndOutcome {
            pools: PoolsView { buffers, ..p },
            releases,
            next: EndNext::Done(Err(DriverError::InvalidParameter)),
        }
    } else {
        EndOutcome {
            pools: PoolsView {
                buffers,
                contexts: p.contexts.insert(
                    job.context,
                    ContextView { last_coded: target, ..p.contexts[job.context] },
                ),
                ..p
            },
            releases,
            next: EndNext::Done(Ok(())),
        }
    }
}

fn coded_buffer_key(pools: &Pools, job: &EndJob) -> (key: Option<BufferKey>)
    requires
        pools.wf(),
    ensures
        key == coded_target(pools@, *job),
{
    if job.picture.coded_buf != 0 {
        match pools.buffers.find_by_low_bits(job.picture.coded_buf) {
            Some(k) => Some(k),
            None => job.coded_buf,
        }
    } else {
        job.coded_buf
    }
}

fn finish(pools: &mut Pools, job: EndJob, coded: CodedBitstream) -> (next: EndNext)
    requires
        old(pools).wf(),
        job_wf(old(pools)@, job),
    ensures
        final(pools).wf(),
        same_keys(*old(pools), *final(pools)),
        forall|releases: Seq<NvencRelease>|
            (EndOutcome { pools: final(pools)@, releases, next }) == #[trigger] finish_outcome(
                old(pools)@,
                releases,
                job,
                coded@,
            ),
{
    let ghost before = pools@;
    let key = coded_buffer_key(pools, &job);
    let pending: bool = coded.is_pending;
    let ghost view = coded@;
    let mut oversize: bool = false;
    if let Some(k) = key {
        if let Some(buf) = pools.buffers.get_mut(k) {
            if let BufferStorage::Coded(slot) = &mut buf.storage {
                if pending {
                    slot.backing = Vec::new();
                    slot.segment = Some(CodedSegment { size: 0, bit_offset: 0, status: 0 });
                    buf.coded_ready = false;
                } else {
                    let len: usize = coded.data.len();
                    slot.backing = coded.data;
                    if len <= u32::MAX as usize {
                        slot.segment =
                        Some(CodedSegment { size: len as u32, bit_offset: 0, status: 0 });
                        buf.coded_ready = true;
                    } else {
                        oversize = true;
                    }
                }
            }
        }
    }
    if oversize {
        proof {
            assert(pools@ =~= finish_outcome(before, Seq::empty(), job, view).pools);
        }
        return EndNext::Done(Err(DriverError::InvalidParameter));
    }
    if let Some(c) = pools.contexts.get_mut(job.context) {
        c.last_coded = key;
    }
    proof {
        assert(pools@.buffers =~= finish_outcome(before, Seq::empty(), job, view).pools.buffers);
        assert(pools@ =~= finish_outcome(before, Seq::empty(), job, view).pools);
    }
    EndNext::Done(Ok(()))
}

// -- encoding ----------------------------------------------------------------

/// A step of encoding, as a step of the job.
pub open spec fn encode_stage(p: PoolsView, job: EndJob, o: EncodeOutcome) -> EndOutcome {
    let after = with_session(p, job.context, o.session);
    match o.next {
        NextView::Call { call, run } => EndOutcome {
            pools: after,
            releases: o.releases,
            next: EndNext::Call { call: EndCall::Encode(call), job, stage: EndStage::Encode(run) },
        },
        NextView::Done(Err(e)) => EndOutcome {
            pools: after,
            releases: o.releases,
            next: EndNext::Done(Err(e)),
        },
        NextView::Done(Ok(coded)) => finish_outcome(after, o.releases, job, coded),
    }
}

/// The frame goes to the encoder.
pub open spec fn begin_encode(p: PoolsView, job: EndJob) -> EndOutcome {
    encode_stage(
        p,
        job,
        begin_outcome(
            p.contexts[job.context].session->Some_0,
            job.target,
            job.picture.force_idr,
            job.api_ready,
        ),
    )
}

fn after_encode_step(pools: &mut Pools, job: EndJob, step: EncodeStep) -> (end: EndStep)
    requires
        old(pools).wf(),
        job_wf(old(pools)@, job),
    ensures
        final(pools).wf(),
        same_keys(*old(pools), *final(pools)),
        (EndOutcome { pools: final(pools)@, releases: end.releases@, next: end.next })
            == encode_stage(
            old(pools)@,
            job,
            EncodeOutcome {
                session: old(pools).contexts@[job.context].session->Some_0,
                releases: step.releases@,
                next: step.next@,
            },
        ),
{
    proof {
        assert(pools@ =~= with_session(
            pools@,
            job.context,
            pools.contexts@[job.context].session->Some_0,
        ));
    }
    let next = match step.next {
        EncodeNext::Call { call, run } => EndNext::Call {
            call: EndCall::Encode(call),
            job,
            stage: EndStage::Encode(run),
        },
        EncodeNext::Done(Err(e)) => EndNext::Done(Err(e)),
        EncodeNext::Done(Ok(coded)) => finish(pools, job, coded),
    };
    EndStep { releases: step.releases, next }
}

/// A step that cannot be reached with a job of these pools.
fn no_session() -> (end: EndStep)
    ensures
        end.releases@.len() == 0,
        end.next == EndNext::Done(
            Err(DriverError::OperationFailed("no NVENC session — GPU init failed")),
        ),
{
    EndStep {
        releases: Vec::new(),
        next: EndNext::Done(
            Err(DriverError::OperationFailed("no NVENC session — GPU init failed")),
        ),
    }
}

fn start_encode(pools: &mut Pools, job: EndJob) -> (end: EndStep)
    requires
        old(pools).wf(),
        job_wf(old(pools)@, job),
    ensures
        final(pools).wf(),
        same_keys(*old(pools), *final(pools)),
        (EndOutcome { pools: final(pools)@, releases: end.releases@, next: end.next })
            == begin_encode(old(pools)@, job),
{
    let ghost before = pools@;
    let ghost s = before.contexts[job.context].session->Some_0;
    let mut step: Option<EncodeStep> = None;
    if let Some(c) = pools.contexts.get_mut(job.context) {
        if let Some(session) = &mut c.session {
            step =
            Some(session.encode_frame(job.target, job.picture.force_idr, job.api_ready));
        }
    }
    match step {
        Some(step) => {
            proof {
                let o = begin_outcome(s, job.target, job.picture.force_idr, job.api_ready);
                assert(pools@ =~= with_session(before, job.context, o.session));
            }
            let end = after_encode_step(pools, job, step);
            proof {
                let o = begin_outcome(s, job.target, job.picture.force_idr, job.api_ready);
                let mid = with_session(before, job.context, o.session);
                assert(with_session(mid, job.context, o.session) =~= mid);
            }
            end
        },
        None => no_session(),
    }
}

// -- registering the render target -------------------------------------------

/// The registration that a render target needs, if any. A DMA-BUF surface that
/// was registered once is not registered again.
pub open spec fn registration_of(p: PoolsView, job: EndJob) -> Option<RegisterParams> {
    let s = p.contexts[job.context].session->Some_0;
    if p.surfaces.contains_key(job.target) {
        match p.surfaces[job.target].kind {
            SurfaceKind::Internal { cu_ptr, pitch, width, height } => Some(
                internal_params(s, cu_ptr, pitch, width, height),
            ),
            SurfaceKind::ExternalDmaBuf { image, registered_nvenc } => if registered_nvenc is None {
                Some(external_params(s, image.plane0, image.width, image.height))
            } else {
                None
            },
            _ => None,
        }
    } else {
        None
    }
}

/// The pools after a render target was registered: a DMA-BUF surface remembers
/// its registration.
pub open spec fn remembered(p: PoolsView, target: SurfaceKey, resource: u64) -> PoolsView {
    if p.surfaces.contains_key(target) {
        match p.surfaces[target].kind {
            SurfaceKind::ExternalDmaBuf { image, registered_nvenc: None } => PoolsView {
                surfaces: p.surfaces.insert(
                    target,
                    SurfaceRec {
                        kind: SurfaceKind::ExternalDmaBuf {
                            image,
                            registered_nvenc: Some(resource),
                        },
                        ..p.surfaces[target]
                    },
                ),
                ..p
            },
            _ => p,
        }
    } else {
        p
    }
}

/// The result of a registration, as a step of the job: encode, or fail.
pub open spec fn after_register(p: PoolsView, job: EndJob, r: Result<u64, DriverError>) -> EndOutcome {
    match r {
        Ok(resource) => begin_encode(remembered(p, job.target, resource), job),
        Err(e) => EndOutcome {
            pools: p,
            releases: Seq::empty(),
            next: EndNext::Done(Err(e)),
        },
    }
}

/// The render target is registered if need be; then the frame is encoded.
pub open spec fn begin_register(p: PoolsView, job: EndJob) -> EndOutcome {
    match registration_of(p, job) {
        None => begin_encode(p, job),
        Some(params) => match register_begin(
            p.contexts[job.context].session->Some_0,
            job.target,
            params,
            job.api_ready,
        ) {
            RegisterNext::Done(r) => after_register(p, job, r),
            RegisterNext::Call(run) => EndOutcome {
                pools: p,
                releases: Seq::empty(),
                next: EndNext::Call {
                    call: EndCall::Register(run.params),
                    job,
                    stage: EndStage::Register(run),
                },
            },
        },
    }
}

fn finish_register(pools: &mut Pools, job: EndJob, r: Result<u64, DriverError>) -> (end: EndStep)
    requires
        old(pools).wf(),
        job_wf(old(pools)@, job),
    ensures
        final(pools).wf(),
        same_keys(*old(pools), *final(pools)),
        (EndOutcome { pools: final(pools)@, releases: end.releases@, next: end.next })
            == after_register(old(pools)@, job, r),
{
    let ghost before = pools@;
    match r {
        Err(e) => EndStep { releases: Vec::new(), next: EndNext::Done(Err(e)) },
        Ok(resource) => {
            if let Some(rec) = pools.surfaces.get_mut(job.target) {
                if let SurfaceKind::ExternalDmaBuf { image, registered_nvenc: None } = rec.kind {
                    rec.kind =
                    SurfaceKind::ExternalDmaBuf { image, registered_nvenc: Some(resource) };
                }
            }
            proof {
                assert(pools@ =~= remembered(before, job.target, resource));
            }
            start_encode(pools, job)
        },
    }
}

fn start_register(pools: &mut Pools, job: EndJob) -> (end: EndStep)
    requires
        old(pools).wf(),
        job_wf(old(pools)@, job),
    ensures
        final(pools).wf(),
        same_keys(*old(pools), *final(pools)),
        (EndOutcome { pools: final(pools)@, releases: end.releases@, next: end.next })
            == begin_register(old(pools)@, job),
{
    let kind: SurfaceKind = match pools.surfaces.get(job.target) {
        Some(rec) => rec.kind,
        None => SurfaceKind::Stub,
    };
    let mut next: Option<RegisterNext> = None;
    if let Some(c) = pools.contexts.get(job.context) {
        if let Some(session) = &c.session {
            next =
            match kind {
                SurfaceKind::Internal { cu_ptr, pitch, width, height } => Some(
                    session.register_internal_surface(
                        job.target,
                        cu_ptr,
                        pitch,
                        width,
                        height,
                        job.api_ready,
                    ),
                ),
                SurfaceKind::ExternalDmaBuf { image, registered_nvenc: None } => Some(
                    session.register_external_surface(
                        job.target,
                        image.plane0,
                        image.width,
                        image.height,
                        job.api_ready,
                    ),
                ),
                _ => None,
            };
        }
    }
    match next {
        None => start_encode(pools, job),
        Some(RegisterNext::Done(r)) => finish_register(pools, job, r),
        Some(RegisterNext::Call(run)) => EndStep {
            releases: Vec::new(),
            next: EndNext::Call {
                call: EndCall::Register(run.params),
                job,
                stage: EndStage::Register(run),
            },
        },
    }
}

// -- following the client's configuration ------------------------------------

/// How reconfiguration goes on, as a step of the job. A failure is not one of
/// the job: encoding goes on with the configuration in force.
pub open spec fn after_reconfigure(p: PoolsView, job: EndJob, next: ReconfigureNext) -> EndOutcome {
    match next {
        ReconfigureNext::Done(_) => begin_register(p, job),
        ReconfigureNext::Call { call, run } => EndOutcome {
            pools: p,
            releases: Seq::empty(),
            next: EndNext::Call {
                call: EndCall::Reconfigure(call),
                job,
                stage: EndStage::Reconfigure(run),
            },
        },
    }
}

/// The first step of encoding a frame: without a session it fails, and with
/// parameters that change the configuration it reconfigures.
pub open spec fn begin_end(
    p: PoolsView,
    job: EndJob,
    sps: Option<SequenceParams>,
    rates: RateParams,
) -> EndOutcome {
    match p.contexts[job.context].session {
        None => EndOutcome {
            pools: p,
            releases: Seq::empty(),
            next: EndNext::Done(
                Err(DriverError::OperationFailed("no NVENC session — GPU init failed")),
            ),
        },
        Some(s) => after_reconfigure(
            p,
            job,
            reconfigure_begin(
                s,
                asked_config(p, p.contexts[job.context].config, s.config, sps, rates),
                job.api_ready,
            ),
        ),
    }
}

fn continue_reconfigure(pools: &mut Pools, job: EndJob, next: ReconfigureNext) -> (end: EndStep)
    requires
        old(pools).wf(),
        job_wf(old(pools)@, job),
    ensures
        final(pools).wf(),
        same_keys(*old(pools), *final(pools)),
        (EndOutcome { pools: final(pools)@, releases: end.releases@, next: end.next })
            == after_reconfigure(old(pools)@, job, next),
{
    match next {
        ReconfigureNext::Done(_) => start_register(pools, job),
        ReconfigureNext::Call { call, run } => EndStep {
            releases: Vec::new(),
            next: EndNext::Call {
                call: EndCall::Reconfigure(call),
                job,
                stage: EndStage::Reconfigure(run),
            },
        },
    }
}

/// The job of a frame.
pub open spec fn job_of(frame: EndFrame, pps: Option<PictureParams>, api_ready: bool) -> EndJob {
    EndJob {
        context: frame.context,
        target: frame.target,
        coded_buf: frame.coded_buf,
        picture: match pps {
            Some(picture) => picture,
            None => plain_picture(),
        },
        api_ready,
    }
}

/// Encode a frame, with what its parameter buffers say. `None` stands for a
/// parameter buffer that is missing or could not be read, a rate of zero for one
/// that no misc parameter buffer gives.
pub fn end_picture_encode(
    pools: &mut Pools,
    frame: EndFrame,
    pps: Option<PictureParams>,
    sps: Option<SequenceParams>,
    rates: RateParams,
    api_ready: bool,
) -> (end: EndStep)
    requires
        old(pools).wf(),
        old(pools).contexts@.contains_key(frame.context),
    ensures
        final(pools).wf(),
        same_keys(*old(pools), *final(pools)),
        (EndOutcome { pools: final(pools)@, releases: end.releases@, next: end.next }) == begin_end(
            old(pools)@,
            job_of(frame, pps, api_ready),
            sps,
            rates,
        ),
        end.next matches EndNext::Call { job: next_job, stage: next_stage, .. } ==> stage_wf(
            final(pools)@,
            next_job,
            next_stage,
        ),
{
    proof {
        law_end_can_be_resumed(
            pools@,
            job_of(frame, pps, api_ready),
            sps,
            rates,
            EndStage::Encode(EncodeRun::Probe { at: 0 }),
            EndReplyView::Register(None),
        );
    }
    let picture: PictureParams = match pps {
        Some(picture) => picture,
        None => PictureParams::default(),
    };
    let job = EndJob {
        context: frame.context,
        target: frame.target,
        coded_buf: frame.coded_buf,
        picture,
        api_ready,
    };
    let mut found: Option<ReconfigureNext> = None;
    if let Some(c) = pools.contexts.get(job.context) {
        if let Some(session) = &c.session {
            let merged = match sps {
                Some(sps) => {
                    let profile = h264_profile_from_config(pools, c.config);
                    build_cfg_from_sps(&sps, profile, session.config())
                },
                None => *session.config(),
            };
            let cfg = build_cfg_from_rates(&rates, &merged);
            found = Some(session.reconfigure(cfg, api_ready));
        }
    }
    match found {
        None => no_session(),
        Some(next) => continue_reconfigure(pools, job, next),
    }
}

/// What the parameter buffer of a frame says, if it has one.
pub open spec fn picture_of(bytes: Option<Seq<u8>>) -> Option<PictureParams> {
    match bytes {
        Some(b) => picture_in(b),
        None => None,
    }
}

/// What the sequence parameter buffer of a frame says, if it has one.
pub open spec fn sequence_of(bytes: Option<Seq<u8>>) -> Option<SequenceParams> {
    match bytes {
        Some(b) => sequence_in(b),
        None => None,
    }
}

/// Read the parameter buffers of a frame, and encode it.
pub fn end_picture_frame(pools: &mut Pools, frame: EndFrame, api_ready: bool) -> (end: EndStep)
    requires
        old(pools).wf(),
        old(pools).contexts@.contains_key(frame.context),
    ensures
        final(pools).wf(),
        same_keys(*old(pools), *final(pools)),
        (EndOutcome { pools: final(pools)@, releases: end.releases@, next: end.next }) == begin_end(
            old(pools)@,
            job_of(frame, picture_of(opt_bytes(frame.pic_param)), api_ready),
            sequence_of(opt_bytes(frame.seq_param)),
            rates_in(all_bytes(frame.misc_params@)),
        ),
        end.next matches EndNext::Call { job: next_job, stage: next_stage, .. } ==> stage_wf(
            final(pools)@,
            next_job,
            next_stage,
        ),
{
    let pps: Option<PictureParams> = match &frame.pic_param {
        Some(bytes) => parse_pps(bytes.as_slice()),
        None => None,
    };
    let sps: Option<SequenceParams> = match &frame.seq_param {
        Some(bytes) => parse_sps(bytes.as_slice()),
        None => None,
    };
    let rates = parse_all_misc(&frame.misc_params);
    end_picture_encode(pools, frame, pps, sps, rates, api_ready)
}

/// The step after a call was answered.
pub open spec fn resume_end(
    p: PoolsView,
    job: EndJob,
    stage: EndStage,
    reply: EndReplyView,
) -> EndOutcome {
    let s = p.contexts[job.context].session->Some_0;
    match stage {
        EndStage::Reconfigure(run) => {
            let answer = match reply {
                EndReplyView::Reconfigure(answer) => answer,
                _ => ReconfigureReply::Failed,
            };
            let (after, next) = reconfigure_outcome(s, run, answer);
            after_reconfigure(with_session(p, job.context, after), job, next)
        },
        EndStage::Register(run) => {
            let resource = match reply {
                EndReplyView::Register(resource) => resource,
                _ => None,
            };
            after_register(
                with_session(p, job.context, registered_session(s, run, resource)),
                job,
                register_result(run, resource),
            )
        },
        EndStage::Encode(run) => {
            let answer = match reply {
                EndReplyView::Encode(answer) => answer,
                _ => ReplyView::Failed,
            };
            encode_stage(p, job, resume_outcome(s, run, answer))
        },
    }
}

/// Go on with a frame after a call was answered. An answer to another call
/// counts as a failure.
pub fn end_picture_resume(pools: &mut Pools, job: EndJob, stage: EndStage, reply: EndReply) -> (end:
    EndStep)
    requires
        old(pools).wf(),
        stage_wf(old(pools)@, job, stage),
    ensures
        final(pools).wf(),
        same_keys(*old(pools), *final(pools)),
        (EndOutcome { pools: final(pools)@, releases: end.releases@, next: end.next })
            == resume_end(old(pools)@, job, stage, reply@),
        end.next matches EndNext::Call { job: next_job, stage: next_stage, .. } ==> stage_wf(
            final(pools)@,
            next_job,
            next_stage,
        ),
{
    proof {
        law_end_can_be_resumed(pools@, job, None, open_rates(), stage, reply@);
    }
    let ghost before = pools@;
    let ghost s = before.contexts[job.context].session->Some_0;
    match stage {
        EndStage::Reconfigure(run) => {
            let answer = match reply {
                EndReply::Reconfigure(answer) => answer,
                _ => ReconfigureReply::Failed,
            };
            let mut next: Option<ReconfigureNext> = None;
            if let Some(c) = pools.contexts.get_mut(job.context) {
                if let Some(session) = &mut c.session {
                    next = Some(session.reconfigure_resume(run, answer));
                }
            }
            proof {
                assert(pools@ =~= with_session(
                    before,
                    job.context,
                    reconfigure_outcome(s, run, answer).0,
                ));
            }
            match next {
                Some(next) => continue_reconfigure(pools, job, next),
                None => no_session(),
            }
        },
        EndStage::Register(run) => {
            let resource: Option<u64> = match reply {
                EndReply::Register(resource) => resource,
                _ => None,
            };
            let mut result: Option<Result<u64, DriverError>> = None;
            if let Some(c) = pools.contexts.get_mut(job.context) {
                if let Some(session) = &mut c.session {
                    result = Some(session.register_resume(run, resource));
                }
            }
            proof {
                assert(pools@ =~= with_session(
                    before,
                    job.context,
                    registered_session(s, run, resource),
                ));
            }
            match result {
                Some(r) => finish_register(pools, job, r),
                None => no_session(),
            }
        },
        EndStage::Encode(run) => {
            let answer = match reply {
                EndReply::Encode(answer) => answer,
                _ => EncodeReply::Failed,
            };
            let ghost answer_view = answer@;
            let mut step: Option<EncodeStep> = None;
            if let Some(c) = pools.contexts.get_mut(job.context) {
                if let Some(session) = &mut c.session {
                    step = Some(session.encode_resume(run, answer));
                }
            }
            let ghost o = resume_outcome(s, run, answer_view);
            proof {
                assert(pools@ =~= with_session(before, job.context, o.session));
            }
            match step {
                Some(step) => {
                    let end = after_encode_step(pools, job, step);
                    proof {
                        let mid = with_session(before, job.context, o.session);
                        assert(with_session(mid, job.context, o.session) =~= mid);
                    }
                    end
                },
                None => no_session(),
            }
        },
    }
}

// ---------------------------------------------------------------------------
// Laws
// ---------------------------------------------------------------------------

/// The sessions of the pools can be used.
pub open spec fn sessions_wf(p: PoolsView) -> bool {
    forall|k: ContextKey| #[trigger]
        p.contexts.contains_key(k) ==> (p.contexts[k].session matches Some(s) ==> session_wf(s))
}

/// A step that hands out a call hands out a stage that the next step accepts,
/// for the same job.
pub open spec fn next_is_valid(o: EndOutcome, job: EndJob) -> bool {
    o.next matches EndNext::Call { job: next_job, stage, .. } ==> next_job == job && stage_wf(
        o.pools,
        job,
        stage,
    )
}

proof fn lemma_encode_stage_valid(p: PoolsView, job: EndJob, o: EncodeOutcome)
    requires
        job_wf(p, job),
        o.next matches NextView::Call { run, .. } ==> run_wf(o.session, run),
    ensures
        next_is_valid(encode_stage(p, job, o), job),
{
}

proof fn lemma_begin_encode_valid(p: PoolsView, job: EndJob)
    requires
        sessions_wf(p),
        job_wf(p, job),
    ensures
        next_is_valid(begin_encode(p, job), job),
{
    let s = p.contexts[job.context].session->Some_0;
    law_encode_keeps_session_valid(
        s,
        job.target,
        job.picture.force_idr,
        job.api_ready,
        EncodeRun::Probe { at: 0 },
        ReplyView::Failed,
    );
    lemma_encode_stage_valid(
        p,
        job,
        begin_outcome(s, job.target, job.picture.force_idr, job.api_ready),
    );
}

proof fn lemma_begin_register_valid(p: PoolsView, job: EndJob)
    requires
        sessions_wf(p),
        job_wf(p, job),
    ensures
        next_is_valid(begin_register(p, job), job),
{
    lemma_begin_encode_valid(p, job);
    assert forall|resource: u64| next_is_valid(
        #[trigger] begin_encode(remembered(p, job.target, resource), job),
        job,
    ) by {
        lemma_begin_encode_valid(remembered(p, job.target, resource), job);
    }
}

/// Every call that encoding a frame hands out can be resumed.
pub proof fn law_end_can_be_resumed(
    p: PoolsView,
    job: EndJob,
    sps: Option<SequenceParams>,
    rates: RateParams,
    stage: EndStage,
    reply: EndReplyView,
)
    requires
        sessions_wf(p),
        p.contexts.contains_key(job.context),
    ensures
        next_is_valid(begin_end(p, job, sps, rates), job),
        stage_wf(p, job, stage) ==> next_is_valid(resume_end(p, job, stage, reply), job),
{
    if job_wf(p, job) {
        lemma_begin_register_valid(p, job);
    }
    if stage_wf(p, job, stage) {
        let s = p.contexts[job.context].session->Some_0;
        match stage {
            EndStage::Reconfigure(run) => {
                let answer = match reply {
                    EndReplyView::Reconfigure(answer) => answer,
                    _ => ReconfigureReply::Failed,
                };
                let after = reconfigure_outcome(s, run, answer).0;
                let q = with_session(p, job.context, after);
                assert(sessions_wf(q));
                lemma_begin_register_valid(q, job);
            },
            EndStage::Register(run) => {
                let resource = match reply {
                    EndReplyView::Register(resource) => resource,
                    _ => None,
                };
                let q = with_session(p, job.context, registered_session(s, run, resource));
                assert(sessions_wf(q));
                if let Some(r) = resource {
                    lemma_begin_encode_valid(remembered(q, job.target, r), job);
                }
            },
            EndStage::Encode(run) => {
                let answer = match reply {
                    EndReplyView::Encode(answer) => answer,
                    _ => ReplyView::Failed,
                };
                law_encode_keeps_session_valid(
                    s,
                    job.target,
                    job.picture.force_idr,
                    job.api_ready,
                    run,
                    answer,
                );
                lemma_encode_stage_valid(p, job, resume_outcome(s, run, answer));
            },
        }
    }
}

/// NVENC's parameter sets win: what a client reads from its coded buffer after
/// a frame is NVENC's bitstream, byte for byte, with nothing of the client's
/// packed headers in it.
pub proof fn law_coded_buffer_holds_the_bitstream(
    p: PoolsView,
    releases: Seq<NvencRelease>,
    job: EndJob,
    coded: CodedView,
    key: BufferKey,
)
    requires
        writes_to(p, job, key),
        !coded.is_pending,
        coded.data.len() <= u32::MAX,
    ensures
        ({
            let o = finish_outcome(p, releases, job, coded);
            let b = o.pools.buffers[key];
            &&& o.next == EndNext::Done(Ok(()))
            &&& b.storage == StorageView::Coded {
                backing: coded.data,
                segment: Some(
                    CodedSegment { size: coded.data.len() as u32, bit_offset: 0, status: 0 },
                ),
            }
            &&& b.coded_ready
            &&& o.pools.contexts[job.context].last_coded == Some(key)
        }),
{
}

/// A client's parameters never change whether NVENC repeats its own parameter
/// sets, nor the rate control mode.
pub proof fn law_parameter_set_mode_is_fixed(
    p: PoolsView,
    config: ConfigKey,
    current: EncoderConfig,
    sps: Option<SequenceParams>,
    rates: RateParams,
)
    ensures
        asked_config(p, config, current, sps, rates).repeat_sps_pps == current.repeat_sps_pps,
        asked_config(p, config, current, sps, rates).rc_mode == current.rc_mode,
{
}

/// Misc parameters reconfigure the encoder on their own: without sequence
/// parameters, the frame asks for the configuration in force with the given
/// bitrate and frame rate. They win over sequence parameters, and a frame
/// without either is encoded with the configuration in force.
pub proof fn law_misc_parameters_reconfigure(
    p: PoolsView,
    job: EndJob,
    sps: Option<SequenceParams>,
    rates: RateParams,
)
    requires
        job_wf(p, job),
    ensures
        ({
            let c = p.contexts[job.context];
            let current = c.session->Some_0.config;
            let asked = asked_config(p, c.config, current, sps, rates);
            &&& rates.bits_per_second > 0 ==> asked.bitrate_bps == rates.bits_per_second
            &&& rates.fps_num > 0 ==> asked.fps_num == rates.fps_num && asked.fps_den
                == rates.fps_den
            &&& asked_config(p, c.config, current, None, rates) == rated_config(rates, current)
            &&& begin_end(p, job, None, open_rates()) == begin_register(p, job)
        }),
{
}

/// Sequence parameters that leave everything open change nothing but the
/// profile, and merging the same parameters again changes nothing at all.
pub proof fn law_merge_is_idempotent(
    sps: SequenceParams,
    profile: H264Profile,
    current: EncoderConfig,
)
    ensures
        merged_config(sps, profile, merged_config(sps, profile, current)) == merged_config(
            sps,
            profile,
            current,
        ),
        sps == (SequenceParams { width: 0, height: 0, fps: 0, bits_per_second: 0, idr_period: 0 })
            ==> merged_config(sps, profile, current) == (EncoderConfig { profile, ..current }),
{
}

/// While NVENC keeps a frame, the client gets an empty coded buffer: no bytes of
/// an earlier frame are left in it, its segment header says so, and it is marked
/// as not ready.
pub proof fn law_deferred_frame_gives_an_empty_buffer(
    p: PoolsView,
    releases: Seq<NvencRelease>,
    job: EndJob,
    coded: CodedView,
    key: BufferKey,
)
    requires
        writes_to(p, job, key),
        coded.is_pending,
    ensures
        ({
            let o = finish_outcome(p, releases, job, coded);
            let b = o.pools.buffers[key];
            &&& o.next == EndNext::Done(Ok(()))
            &&& b.storage == StorageView::Coded {
                backing: Seq::empty(),
                segment: Some(CodedSegment { size: 0, bit_offset: 0, status: 0 }),
            }
            &&& !b.coded_ready
        }),
{
}

/// A frame is written to at most one buffer, and encoding it touches no other
/// buffer, no config, no image and no other context.
pub proof fn law_finish_touches_one_buffer(
    p: PoolsView,
    releases: Seq<NvencRelease>,
    job: EndJob,
    coded: CodedView,
)
    ensures
        ({
            let o = finish_outcome(p, releases, job, coded).pools;
            &&& o.configs == p.configs
            &&& o.images == p.images
            &&& o.surfaces == p.surfaces
            &&& forall|k: BufferKey| #[trigger]
                p.buffers.contains_key(k) && coded_target(p, job) != Some(k) ==> o.buffers[k]
                    == p.buffers[k]
            &&& forall|k: ContextKey| #[trigger]
                p.contexts.contains_key(k) && k != job.context ==> o.contexts[k] == p.contexts[k]
        }),
{
}

/// A reconfiguration that fails does not fail the frame: encoding goes on,
/// with the configuration in force, as it would without sequence parameters.
pub proof fn law_failed_reconfigure_is_passed_over(
    p: PoolsView,
    job: EndJob,
    run: ReconfigureRun,
    reply: ReconfigureReply,
)
    requires
        job_wf(p, job),
        reconfigure_outcome(p.contexts[job.context].session->Some_0, run, reply).1 matches
            ReconfigureNext::Done(Err(_)),
    ensures
        resume_end(p, job, EndStage::Reconfigure(run), EndReplyView::Reconfigure(reply))
            == begin_register(p, job),
{
    let s = p.contexts[job.context].session->Some_0;
    assert(with_session(p, job.context, s) =~= p);
}

/// Without a session a frame fails, and nothing changes.
pub proof fn law_no_session_no_encode(
    p: PoolsView,
    job: EndJob,
    sps: Option<SequenceParams>,
    rates: RateParams,
)
    requires
        p.contexts[job.context].session is None,
    ensures
        begin_end(p, job, sps, rates).next matches EndNext::Done(Err(DriverError::OperationFailed(_))),
        begin_end(p, job, sps, rates).pools == p,
        begin_end(p, job, sps, rates).releases.len() == 0,
{
}

/// What the client states wins, higher or lower than what is in force: each of
/// bitrate, frame rate and GOP that it gives is taken as it is, and so is the
/// size where both sides are given. What it leaves open stays.
pub proof fn law_stated_parameters_win(
    sps: SequenceParams,
    profile: H264Profile,
    current: EncoderConfig,
)
    ensures
        ({
            let cfg = merged_config(sps, profile, current);
            &&& cfg.profile == profile
            &&& sps.bits_per_second > 0 ==> cfg.bitrate_bps == sps.bits_per_second
            &&& sps.bits_per_second == 0 ==> cfg.bitrate_bps == current.bitrate_bps
            &&& sps.fps > 0 ==> cfg.fps_num == sps.fps && cfg.fps_den == 1
            &&& sps.fps == 0 ==> cfg.fps_num == current.fps_num && cfg.fps_den == current.fps_den
            &&& sps.idr_period > 0 ==> cfg.gop_length == sps.idr_period
            &&& sps.idr_period == 0 ==> cfg.gop_length == current.gop_length
            &&& sps.width > 0 && sps.height > 0 ==> cfg.width == sps.width && cfg.height
                == sps.height
            &&& sps.width == 0 || sps.height == 0 ==> cfg.width == current.width && cfg.height
                == current.height
            &&& cfg.rc_mode == current.rc_mode
            &&& cfg.repeat_sps_pps == current.repeat_sps_pps
        }),
{
}

/// What a frame asks for reaches the encoder: with parameters that change the
/// configuration, the frame begins with a reconfiguration to exactly what is
/// asked, misc parameters over sequence parameters.
pub proof fn law_asked_configuration_is_the_one_made(
    p: PoolsView,
    job: EndJob,
    sps: Option<SequenceParams>,
    rates: RateParams,
)
    requires
        job_wf(p, job),
        job.api_ready,
    ensures
        ({
            let c = p.contexts[job.context];
            let s = c.session->Some_0;
            let asked = asked_config(p, c.config, s.config, sps, rates);
            &&& asked != s.config <==> (begin_end(p, job, sps, rates).next matches EndNext::Call {
                call: EndCall::Reconfigure(_),
                ..
            })
            &&& asked != s.config ==> (begin_end(p, job, sps, rates).next matches EndNext::Call {
                job: same,
                stage: EndStage::Reconfigure(ReconfigureRun::Fetching { cfg }),
                ..
            } && same == job && cfg == asked)
            &&& rates.bits_per_second == 0 ==> (sps matches Some(given) ==> (given.bits_per_second
                > 0 ==> asked.bitrate_bps == given.bits_per_second))
            &&& rates.fps_num == 0 ==> (sps matches Some(given) ==> (given.fps > 0 ==> asked.fps_num
                == given.fps && asked.fps_den == 1))
            &&& sps matches Some(given) ==> (given.width > 0 && given.height > 0 ==> asked.width
                == given.width && asked.height == given.height)
            &&& sps is Some ==> asked.profile == config_profile(p, c.config)
            &&& sps is None ==> asked.profile == s.config.profile && asked.width == s.config.width
                && asked.height == s.config.height && asked.gop_length == s.config.gop_length
        }),
{
    let c = p.contexts[job.context];
    let s = c.session->Some_0;
    if asked_config(p, c.config, s.config, sps, rates) == s.config {
        lemma_register_step_is_no_reconfigure(p, job);
    }
}

proof fn lemma_register_step_is_no_reconfigure(p: PoolsView, job: EndJob)
    ensures
        !(begin_register(p, job).next matches EndNext::Call { call: EndCall::Reconfigure(_), .. }),
{
}

/// The profile of a stream is that of the config it was made with, by the
/// numbers of `<va/va.h>`; a config that is gone counts as Main.
pub proof fn law_stream_has_the_profile_of_its_config(p: PoolsView, config: ConfigKey)
    ensures
        p.configs.contains_key(config) && p.configs[config].profile == 13 <==> config_profile(
            p,
            config,
        ) == H264Profile::ConstrainedBaseline,
        p.configs.contains_key(config) && p.configs[config].profile == 7 <==> config_profile(
            p,
            config,
        ) == H264Profile::High,
{
}

/// The registration of a render target is that of its picture: memory of the
/// driver's own with the sides and pitch it was allocated with, an imported
/// picture with its own sides. Nothing else is registered, and no imported
/// picture twice.
pub proof fn law_render_target_is_registered_as_it_is(p: PoolsView, job: EndJob)
    ensures
        registration_of(p, job) is Some ==> p.surfaces.contains_key(job.target),
        p.surfaces.contains_key(job.target) ==> match p.surfaces[job.target].kind {
            SurfaceKind::Internal { cu_ptr, pitch, width, height } => (registration_of(p, job)
                matches Some(r) && r.width == width && r.height == height && r.pitch == pitch
                && r.resource == cu_ptr && r.resource_type == ResourceType::CudaDevicePtr
                && r.encoder == p.contexts[job.context].session->Some_0.encoder),
            SurfaceKind::ExternalDmaBuf { image, registered_nvenc: None } => (registration_of(
                p,
                job,
            ) matches Some(r) && r.width == image.width && r.height == image.height && r.resource
                == image.plane0 && r.resource_type == ResourceType::CudaArray && r.encoder
                == p.contexts[job.context].session->Some_0.encoder),
            _ => registration_of(p, job) is None,
        },
{
}

/// A render target that needs registering is registered before it is encoded,
/// with the parameters that it needs; one that the session knows already goes
/// straight to the encoder.
pub proof fn law_target_is_registered_before_it_is_encoded(p: PoolsView, job: EndJob)
    requires
        job_wf(p, job),
        job.api_ready,
    ensures
        ({
            let s = p.contexts[job.context].session->Some_0;
            let known = s.registered.contains_key(job.target.raw);
            &&& registration_of(p, job) matches Some(r) ==> (!known ==> (begin_register(p, job).next
                matches EndNext::Call { call: EndCall::Register(params), job: same, stage }
                && params == r && same == job && stage == EndStage::Register(
                RegisterRun { key: job.target, params: r },
            )))
            &&& registration_of(p, job) is Some && known ==> begin_register(p, job) == begin_encode(
                remembered(p, job.target, s.registered[job.target.raw].registered_ptr),
                job,
            )
            &&& registration_of(p, job) is None ==> begin_register(p, job) == begin_encode(p, job)
        }),
{
}

/// Once NVENC has accepted the render target, the session knows it, an imported
/// picture remembers its registration, and the frame goes to the encoder; a
/// refusal ends the frame.
pub proof fn law_registered_target_goes_to_the_encoder(
    p: PoolsView,
    job: EndJob,
    run: RegisterRun,
    resource: u64,
)
    requires
        job_wf(p, job),
        run.key == job.target,
    ensures
        ({
            let s = p.contexts[job.context].session->Some_0;
            let q = with_session(p, job.context, registered_session(s, run, Some(resource)));
            &&& resume_end(
                p,
                job,
                EndStage::Register(run),
                EndReplyView::Register(Some(resource)),
            ) == begin_encode(remembered(q, job.target, resource), job)
            &&& resume_end(p, job, EndStage::Register(run), EndReplyView::Register(None)).next
                matches EndNext::Done(Err(_))
            &&& p.surfaces.contains_key(job.target) ==> (p.surfaces[job.target].kind matches
                SurfaceKind::ExternalDmaBuf { image, registered_nvenc: None } ==> remembered(
                q,
                job.target,
                resource,
            ).surfaces[job.target].kind == SurfaceKind::ExternalDmaBuf {
                image,
                registered_nvenc: Some(resource),
            })
            &&& forall|k: SurfaceKey|
                k != job.target ==> #[trigger] remembered(q, job.target, resource).surfaces[k]
                    == p.surfaces[k]
        }),
{
}

/// The coded frame goes to the buffer that the picture parameters name, and
/// where they name none that exists, to the one that came with the frame.
pub proof fn law_coded_frame_goes_where_it_is_asked(p: PoolsView, job: EndJob)
    ensures
        job.picture.coded_buf != 0 && find_id(p.buffers, job.picture.coded_buf) is Some
            ==> coded_target(p, job) == find_id(p.buffers, job.picture.coded_buf),
        job.picture.coded_buf == 0 || find_id(p.buffers, job.picture.coded_buf) is None
            ==> coded_target(p, job) == job.coded_buf,
{
}

/// The job of a frame is that frame: its context, its render target, its coded
/// buffer and its picture parameters, or plain ones where it has none.
pub proof fn law_job_is_the_frame(
    frame: EndFrame,
    pps: Option<PictureParams>,
    api_ready: bool,
)
    ensures
        ({
            let job = job_of(frame, pps, api_ready);
            &&& job.context == frame.context
            &&& job.target == frame.target
            &&& job.coded_buf == frame.coded_buf
            &&& job.api_ready == api_ready
            &&& pps matches Some(picture) ==> job.picture == picture
            &&& pps is None ==> job.picture.coded_buf == 0 && !job.picture.force_idr
        }),
{
}

/// A frame is encoded from the render target of its job, as an IDR where its
/// picture parameters ask for one: the first call is to a slot that waits, or
/// maps the surface of that target.
pub proof fn law_frame_is_encoded_from_its_target(p: PoolsView, job: EndJob)
    requires
        sessions_wf(p),
        job_wf(p, job),
        job.api_ready,
    ensures
        begin_encode(p, job).next matches EndNext::Call { job: same, stage, .. } ==> same == job && (
        stage matches EndStage::Encode(run) && match run {
            EncodeRun::Drain { key, force_idr, .. } => key == job.target && force_idr
                == job.picture.force_idr,
            EncodeRun::MapSurface { key, force_idr, .. } => key == job.target && force_idr
                == job.picture.force_idr,
            _ => false,
        }),
{
}

/// Replacing a session replaces that of one context and nothing else.
pub proof fn law_session_belongs_to_one_context(
    p: PoolsView,
    ck: ContextKey,
    s: SessionView,
    other: ContextKey,
)
    requires
        p.contexts.contains_key(ck),
        other != ck,
    ensures
        ({
            let q = with_session(p, ck, s);
            &&& q.contexts[ck].session == Some(s)
            &&& q.contexts[ck].pending == p.contexts[ck].pending
            &&& q.contexts[ck].current_target == p.contexts[ck].current_target
            &&& q.contexts[ck].config == p.contexts[ck].config
            &&& q.contexts[ck].last_coded == p.contexts[ck].last_coded
            &&& q.contexts[other] == p.contexts[other]
            &&& q.contexts.contains_key(other) == p.contexts.contains_key(other)
            &&& q.surfaces == p.surfaces && q.buffers == p.buffers && q.images == p.images
                && q.configs == p.configs
        }),
{
}

/// A frame is refused only where its bitstream is too long for the segment header
/// of the buffer it goes to; otherwise the context remembers that buffer.
pub proof fn law_finished_frame_is_remembered(
    p: PoolsView,
    releases: Seq<NvencRelease>,
    job: EndJob,
    coded: CodedView,
)
    ensures
        ({
            let o = finish_outcome(p, releases, job, coded);
            let oversized = !coded.is_pending && coded.data.len() > u32::MAX && coded_target(p, job)
                is Some && writes_to(p, job, coded_target(p, job)->Some_0);
            &&& o.releases == releases
            &&& oversized <==> (o.next matches EndNext::Done(Err(_)))
            &&& oversized ==> o.next == EndNext::Done(
                Err::<(), DriverError>(DriverError::InvalidParameter),
            )
            &&& !oversized ==> o.pools.contexts[job.context].last_coded == coded_target(p, job)
            &&& coded_target(p, job) matches Some(k) ==> (writes_to(p, job, k) <==> p.buffers.contains_key(
                k,
            ) && p.buffers[k].storage is Coded)
        }),
{
}

/// Parameter buffers of a frame are read where the frame has them.
pub proof fn law_parameters_are_those_of_the_frame(b: Seq<u8>)
    ensures
        picture_of(Some(b)) == picture_in(b),
        picture_of(None) is None,
        sequence_of(Some(b)) == sequence_in(b),
        sequence_of(None) is None,
{
}

/// A step of encoding is a step of the frame: its releases are made, its session
/// is kept, its next call is made for the same frame, its error is the frame's,
/// and the bytes that it hands out are what the client finds in the coded buffer.
pub proof fn law_encoded_bytes_reach_the_client(
    p: PoolsView,
    job: EndJob,
    run: EncodeRun,
    reply: ReplyView,
    key: BufferKey,
)
    requires
        job_wf(p, job),
    ensures
        ({
            let o = resume_outcome(p.contexts[job.context].session->Some_0, run, reply);
            let e = resume_end(p, job, EndStage::Encode(run), EndReplyView::Encode(reply));
            let goes_there = coded_target(p, job) == Some(key) && p.buffers.contains_key(key)
                && p.buffers[key].storage is Coded;
            &&& e.releases == o.releases
            &&& e.pools.contexts[job.context].session == Some(o.session)
            &&& e.pools.surfaces == p.surfaces
            &&& match o.next {
                NextView::Call { call, run: next } => e.next == EndNext::Call {
                    call: EndCall::Encode(call),
                    job,
                    stage: EndStage::Encode(next),
                } && e.pools.buffers == p.buffers,
                NextView::Done(Err(error)) => e.next == EndNext::Done(Err::<(), DriverError>(error))
                    && e.pools.buffers == p.buffers,
                NextView::Done(Ok(coded)) => goes_there && coded.data.len() <= u32::MAX ==> {
                    let b = e.pools.buffers[key];
                    &&& e.next == EndNext::Done(Ok::<(), DriverError>(()))
                    &&& b.storage matches StorageView::Coded { backing, segment: Some(segment) }
                        && backing == (if coded.is_pending {
                        Seq::<u8>::empty()
                    } else {
                        coded.data
                    }) && segment.size == backing.len() && segment.bit_offset == 0
                        && segment.status == 0
                    &&& b.coded_ready == !coded.is_pending
                    &&& b.buf_type == p.buffers[key].buf_type
                    &&& e.pools.contexts[job.context].last_coded == Some(key)
                },
            }
        }),
{
}

/// A reconfiguration that NVENC agreed to is in force when the frame goes on,
/// and an answer to another call counts as a refusal.
pub proof fn law_frame_goes_on_with_the_new_configuration(
    p: PoolsView,
    job: EndJob,
    cfg: EncoderConfig,
)
    requires
        job_wf(p, job),
    ensures
        ({
            let s = p.contexts[job.context].session->Some_0;
            let run = ReconfigureRun::Changing { cfg };
            let changed = with_session(p, job.context, SessionView { config: cfg, ..s });
            &&& resume_end(
                p,
                job,
                EndStage::Reconfigure(run),
                EndReplyView::Reconfigure(ReconfigureReply::Done),
            ) == begin_register(changed, job)
            &&& resume_end(p, job, EndStage::Reconfigure(run), EndReplyView::Register(None))
                == begin_register(p, job)
        }),
{
    let s = p.contexts[job.context].session->Some_0;
    assert(with_session(p, job.context, s) =~= p);
}

} // verus!
