//! `vaCreateContext`, `vaDestroyContext`.
//!
//! A context ties together a config, a picture size and a set of render
//! targets, and owns one encode session. [`create_context`] checks the
//! arguments and gives the session's first configuration. The session is then
//! opened; where that fails the context is created without one, and
//! `vaEndPicture` reports it. [`create_context_with`] registers the render
//! targets and stores the context.

use crate::driver::end_picture::{config_profile, h264_profile_from_config};
use crate::driver::state::{
    empty_frame, ContextRec, ContextView, PendingFrame, Pools, PoolsView, SurfaceKind, SurfaceRec,
};
use crate::error::{DriverError, DriverResult};
use crate::ids::{find_id, gained, lost, ConfigKey, ContainsKey, ContextKey, SurfaceKey};
use crate::nvenc::h264_config::{default_config, EncoderConfig};
use crate::nvenc::register::{
    internal_params, register_begin, register_result, registered_session, RegisterNext,
    RegisterParams, RegisterRun,
};
use crate::nvenc::session::{NvencRelease, NvencSession, SessionView};
use crate::nvenc::teardown::tears_down;
use vstd::prelude::*;

verus! {

// ---------------------------------------------------------------------------
// Checking the arguments
// ---------------------------------------------------------------------------

/// A context that is about to be created.
#[derive(Debug)]
pub struct ContextPlan {
    pub config: ConfigKey,
    pub width: u32,
    pub height: u32,
    pub flag: i32,
    pub targets: Vec<SurfaceKey>,
    /// The configuration to open the session with.
    pub session_config: EncoderConfig,
}

/// What is wrong with the arguments of `vaCreateContext`.
pub open spec fn context_error(
    p: PoolsView,
    config_id: u32,
    width: i32,
    height: i32,
    targets: Seq<u32>,
    has_out: bool,
) -> Option<DriverError> {
    if !has_out {
        Some(DriverError::InvalidParameter)
    } else if find_id(p.configs, config_id) is None {
        Some(DriverError::InvalidConfig)
    } else if exists|i: int|
        0 <= i < targets.len() && find_id(p.surfaces, #[trigger] targets[i]) is None {
        Some(DriverError::InvalidSurface)
    } else if width < 0 || height < 0 {
        Some(DriverError::InvalidParameter)
    } else {
        None
    }
}

/// A plan that follows the arguments of `vaCreateContext`.
pub open spec fn plan_follows(
    p: PoolsView,
    config_id: u32,
    width: i32,
    height: i32,
    flag: i32,
    targets: Seq<u32>,
    plan: ContextPlan,
) -> bool {
    &&& find_id(p.configs, config_id) == Some(plan.config)
    &&& plan.width == width
    &&& plan.height == height
    &&& plan.flag == flag
    &&& plan.targets@.len() == targets.len()
    &&& forall|i: int|
        0 <= i < targets.len() ==> find_id(p.surfaces, #[trigger] targets[i]) == Some(
            plan.targets@[i],
        )
    &&& plan.session_config == default_config(
        width as u32,
        height as u32,
        config_profile(p, plan.config),
    )
}

/// Check the arguments of `vaCreateContext`. `targets` is empty where the
/// client passed none; `has_out` says whether there is a place for the ID.
pub fn create_context(
    pools: &Pools,
    config_id: u32,
    picture_width: i32,
    picture_height: i32,
    flag: i32,
    render_targets: &[u32],
    has_out: bool,
) -> (r: DriverResult<ContextPlan>)
    requires
        pools.wf(),
    ensures
        match context_error(
            pools@,
            config_id,
            picture_width,
            picture_height,
            render_targets@,
            has_out,
        ) {
            Some(e) => r matches Err(got) && got == e,
            None => r matches Ok(plan) && plan_follows(
                pools@,
                config_id,
                picture_width,
                picture_height,
                flag,
                render_targets@,
                plan,
            ),
        },
{
    if !has_out {
        return Err(DriverError::InvalidParameter);
    }
    let config = match pools.configs.find_by_low_bits(config_id) {
        Some(k) => k,
        None => return Err(DriverError::InvalidConfig),
    };
    let mut targets: Vec<SurfaceKey> = Vec::new();
    let mut i: usize = 0;
    while i < render_targets.len()
        invariant
            pools.wf(),
            has_out,
            find_id(pools.configs@, config_id) == Some(config),
            i <= render_targets.len(),
            targets@.len() == i,
            forall|j: int|
                0 <= j < i ==> find_id(pools.surfaces@, #[trigger] render_targets@[j]) == Some(
                    targets@[j],
                ),
        decreases render_targets.len() - i,
    {
        match pools.surfaces.find_by_low_bits(render_targets[i]) {
            Some(k) => targets.push(k),
            None => {
                proof {
                    assert(find_id(pools@.surfaces, render_targets@[i as int]) is None);
                }
                return Err(DriverError::InvalidSurface);
            },
        }
        i += 1;
    }
    if picture_width < 0 || picture_height < 0 {
        return Err(DriverError::InvalidParameter);
    }
    let width: u32 = picture_width as u32;
    let height: u32 = picture_height as u32;
    let profile = h264_profile_from_config(pools, config);
    let session_config = EncoderConfig::default_for(width, height, profile);
    Ok(ContextPlan { config, width, height, flag, targets, session_config })
}

// ---------------------------------------------------------------------------
// Registering the render targets
// ---------------------------------------------------------------------------

/// Where registering render targets stops.
pub enum RegisterScan {
    /// Every target is registered, or needs no registration.
    Done,
    /// NVENC cannot be asked.
    Fails(DriverError),
    /// NVENC is asked about the target at an index.
    Calls { at: int, run: RegisterRun },
}

/// Registering the render targets from an index on. Only surfaces in device
/// memory of the driver's own are registered ahead of encoding.
pub open spec fn register_from(
    surfaces: Map<SurfaceKey, SurfaceRec>,
    targets: Seq<SurfaceKey>,
    s: SessionView,
    at: int,
    api_ready: bool,
) -> RegisterScan
    decreases targets.len() - at,
{
    if at >= targets.len() {
        RegisterScan::Done
    } else if !surfaces.contains_key(targets[at]) {
        register_from(surfaces, targets, s, at + 1, api_ready)
    } else {
        match surfaces[targets[at]].kind {
            SurfaceKind::Internal { cu_ptr, pitch, width, height } => match register_begin(
                s,
                targets[at],
                internal_params(s, cu_ptr, pitch, width, height),
                api_ready,
            ) {
                RegisterNext::Done(Ok(_)) => register_from(
                    surfaces,
                    targets,
                    s,
                    at + 1,
                    api_ready,
                ),
                RegisterNext::Done(Err(e)) => RegisterScan::Fails(e),
                RegisterNext::Call(run) => RegisterScan::Calls { at, run },
            },
            _ => register_from(surfaces, targets, s, at + 1, api_ready),
        }
    }
}

/// A context whose render targets are being registered.
pub struct ContextRun {
    pub plan: ContextPlan,
    pub session: NvencSession,
    pub at: usize,
    pub register: RegisterRun,
    pub api_ready: bool,
}

/// A run that can be resumed.
pub open spec fn context_run_wf(run: ContextRun) -> bool {
    run.session.wf() && run.at < run.plan.targets.len()
}

/// How creating a context goes on.
pub enum ContextNext {
    /// `NvEncRegisterResource`.
    Call { call: RegisterParams, run: ContextRun },
    Done(DriverResult<u32>),
}

/// One step: what to release, in order, and how to go on.
pub struct ContextStep {
    pub releases: Vec<NvencRelease>,
    pub next: ContextNext,
}

/// The record of a new context.
pub open spec fn new_context(plan: ContextPlan, session: Option<SessionView>) -> ContextView {
    ContextView {
        config: plan.config,
        width: plan.width,
        height: plan.height,
        flag: plan.flag,
        render_targets: plan.targets@,
        current_target: None,
        session,
        pending: empty_frame(),
        last_coded: None,
    }
}

/// The context was stored, and nothing else changed.
pub open spec fn context_stored(
    before: Pools,
    after: Pools,
    plan: ContextPlan,
    session: Option<SessionView>,
    step: ContextStep,
) -> bool {
    &&& step.releases@.len() == 0
    &&& step.next matches ContextNext::Done(Ok(id)) && gained(
        before.contexts,
        after.contexts,
        id,
        new_context(plan, session),
    )
    &&& after.configs == before.configs
    &&& after.surfaces == before.surfaces
    &&& after.buffers == before.buffers
    &&& after.images == before.images
}

/// What a step comes to, from the target at an index on: the context is
/// stored, or NVENC is asked, or the session is taken down and the error
/// reported. Only in the first case do the pools change.
pub open spec fn context_step(
    before: Pools,
    after: Pools,
    plan: ContextPlan,
    s: SessionView,
    at: int,
    api_ready: bool,
    step: ContextStep,
) -> bool {
    match register_from(before.surfaces@, plan.targets@, s, at, api_ready) {
        RegisterScan::Done => context_stored(before, after, plan, Some(s), step),
        RegisterScan::Fails(e) => {
            &&& after == before
            &&& tears_down(s, api_ready, step.releases@)
            &&& step.next matches ContextNext::Done(Err(got)) && got == e
        },
        RegisterScan::Calls { at: next_at, run: register } => {
            &&& after == before
            &&& step.releases@.len() == 0
            &&& step.next matches ContextNext::Call { call, run } && call == register.params
                && run.plan == plan && run.session@ == s && run.at == next_at && run.register
                == register && run.api_ready == api_ready
        },
    }
}

fn store_context(pools: &mut Pools, plan: ContextPlan, session: Option<NvencSession>) -> (step:
    ContextStep)
    requires
        old(pools).wf(),
        old(pools).contexts.has_room(),
        session matches Some(s) ==> s.wf(),
    ensures
        final(pools).wf(),
        context_stored(
            *old(pools),
            *final(pools),
            plan,
            match session {
                Some(s) => Some(s@),
                None => None,
            },
            step,
        ),
{
    let rec = ContextRec {
        config: plan.config,
        width: plan.width,
        height: plan.height,
        flag: plan.flag,
        render_targets: plan.targets,
        current_target: None,
        session,
        pending: PendingFrame::default(),
        last_coded: None,
    };
    let id: u32 = pools.contexts.insert_id(rec);
    ContextStep { releases: Vec::new(), next: ContextNext::Done(Ok(id)) }
}

fn register_targets(
    pools: &mut Pools,
    plan: ContextPlan,
    session: NvencSession,
    at: usize,
    api_ready: bool,
) -> (step: ContextStep)
    requires
        old(pools).wf(),
        old(pools).contexts.has_room(),
        session.wf(),
        at <= plan.targets@.len(),
    ensures
        final(pools).wf(),
        context_step(
            *old(pools),
            *final(pools),
            plan,
            session@,
            at as int,
            api_ready,
            step,
        ),
        step.next matches ContextNext::Call { run, .. } ==> context_run_wf(run),
{
    let ghost scan = register_from(
        pools.surfaces@,
        plan.targets@,
        session@,
        at as int,
        api_ready,
    );
    let mut i: usize = at;
    while i < plan.targets.len()
        invariant
            pools.wf(),
            *pools == *old(pools),
            session.wf(),
            i <= plan.targets@.len(),
            scan == register_from(
                pools.surfaces@,
                plan.targets@,
                session@,
                at as int,
                api_ready,
            ),
            scan == register_from(
                pools.surfaces@,
                plan.targets@,
                session@,
                i as int,
                api_ready,
            ),
        decreases plan.targets.len() - i,
    {
        let key = plan.targets[i];
        let kind: SurfaceKind = match pools.surfaces.get(key) {
            Some(rec) => rec.kind,
            None => SurfaceKind::Stub,
        };
        if let SurfaceKind::Internal { cu_ptr, pitch, width, height } = kind {
            match session.register_internal_surface(key, cu_ptr, pitch, width, height, api_ready) {
                RegisterNext::Done(Ok(_)) => {},
                RegisterNext::Done(Err(e)) => {
                    let releases = session.teardown(api_ready);
                    return ContextStep { releases, next: ContextNext::Done(Err(e)) };
                },
                RegisterNext::Call(register) => {
                    let call = register.params;
                    let run = ContextRun { plan, session, at: i, register, api_ready };
                    return ContextStep {
                        releases: Vec::new(),
                        next: ContextNext::Call { call, run },
                    };
                },
            }
        }
        i += 1;
    }
    store_context(pools, plan, Some(session))
}

/// Create a context with the session that was opened for it, or without one.
pub fn create_context_with(
    pools: &mut Pools,
    plan: ContextPlan,
    session: Option<NvencSession>,
    api_ready: bool,
) -> (step: ContextStep)
    requires
        old(pools).wf(),
        old(pools).contexts.has_room(),
        session matches Some(s) ==> s.wf(),
    ensures
        final(pools).wf(),
        match session {
            None => context_stored(*old(pools), *final(pools), plan, None, step),
            Some(s) => context_step(*old(pools), *final(pools), plan, s@, 0, api_ready, step),
        },
        step.next matches ContextNext::Call { run, .. } ==> context_run_wf(run),
{
    match session {
        None => store_context(pools, plan, None),
        Some(session) => register_targets(pools, plan, session, 0, api_ready),
    }
}

/// Go on with NVENC's answer to a registration. A refusal takes the session
/// down, and no context is created.
pub fn create_context_resume(pools: &mut Pools, run: ContextRun, resource: Option<u64>) -> (step:
    ContextStep)
    requires
        old(pools).wf(),
        old(pools).contexts.has_room(),
        context_run_wf(run),
    ensures
        final(pools).wf(),
        match register_result(run.register, resource) {
            Err(e) => {
                &&& *final(pools) == *old(pools)
                &&& tears_down(run.session@, run.api_ready, step.releases@)
                &&& step.next matches ContextNext::Done(Err(got)) && got == e
            },
            Ok(_) => context_step(
                *old(pools),
                *final(pools),
                run.plan,
                registered_session(run.session@, run.register, resource),
                run.at + 1,
                run.api_ready,
                step,
            ),
        },
        step.next matches ContextNext::Call { run: more, .. } ==> context_run_wf(more),
{
    let mut session = run.session;
    match session.register_resume(run.register, resource) {
        Err(e) => {
            let releases = session.teardown(run.api_ready);
            ContextStep { releases, next: ContextNext::Done(Err(e)) }
        },
        Ok(_) => register_targets(pools, run.plan, session, run.at + 1, run.api_ready),
    }
}

// ---------------------------------------------------------------------------
// vaDestroyContext
// ---------------------------------------------------------------------------

/// Destroy a context and take its session down.
pub fn destroy_context(pools: &mut Pools, context_id: u32, api_ready: bool) -> (r: DriverResult<
    Vec<NvencRelease>,
>)
    requires
        old(pools).wf(),
    ensures
        final(pools).wf(),
        match find_id(old(pools).contexts@, context_id) {
            None => r matches Err(e) && e == DriverError::InvalidContext && *final(pools) == *old(
                pools,
            ),
            Some(ck) => {
                &&& r matches Ok(releases) && match old(pools).contexts@[ck].session {
                    Some(s) => tears_down(s, api_ready, releases@),
                    None => releases@.len() == 0,
                }
                &&& lost(old(pools).contexts, final(pools).contexts, ck)
                &&& final(pools).configs == old(pools).configs
                &&& final(pools).surfaces == old(pools).surfaces
                &&& final(pools).buffers == old(pools).buffers
                &&& final(pools).images == old(pools).images
            },
        },
{
    match pools.contexts.remove_id(context_id) {
        None => Err(DriverError::InvalidContext),
        Some(rec) => match rec.session {
            Some(session) => Ok(session.teardown(api_ready)),
            None => Ok(Vec::new()),
        },
    }
}

// ---------------------------------------------------------------------------
// Laws
// ---------------------------------------------------------------------------

/// NVENC is asked about a render target that lies at or after the place where
/// registering stands, is in device memory, and is not registered yet.
pub proof fn law_only_new_targets_are_registered(
    surfaces: Map<SurfaceKey, SurfaceRec>,
    targets: Seq<SurfaceKey>,
    s: SessionView,
    at: int,
    api_ready: bool,
)
    requires
        0 <= at,
    ensures
        match register_from(surfaces, targets, s, at, api_ready) {
            RegisterScan::Calls { at: i, run } => at <= i < targets.len() && api_ready
                && surfaces.contains_key(targets[i]) && surfaces[targets[i]].kind is Internal
                && run.key == targets[i] && !s.registered.contains_key(targets[i].raw),
            RegisterScan::Fails(e) => !api_ready && e is OperationFailed,
            RegisterScan::Done => forall|i: int|
                at <= i < targets.len() && surfaces.contains_key(#[trigger] targets[i])
                    && surfaces[targets[i]].kind is Internal ==> s.registered.contains_key(
                    targets[i].raw,
                ),
        },
    decreases targets.len() - at,
{
    if at < targets.len() {
        law_only_new_targets_are_registered(surfaces, targets, s, at + 1, api_ready);
    }
}

/// A context is made for what the client asked: the config it named, the size,
/// the flag and the render targets in their order, and a session of that size
/// and of the config's profile.
pub proof fn law_context_is_what_was_asked_for(
    p: PoolsView,
    config_id: u32,
    width: i32,
    height: i32,
    flag: i32,
    targets: Seq<u32>,
    plan: ContextPlan,
    session: Option<SessionView>,
)
    requires
        width >= 0,
        height >= 0,
        plan_follows(p, config_id, width, height, flag, targets, plan),
    ensures
        ({
            let c = new_context(plan, session);
            &&& Some(c.config) == find_id(p.configs, config_id)
            &&& c.width == width
            &&& c.height == height
            &&& c.flag == flag
            &&& c.session == session
            &&& c.render_targets.len() == targets.len()
            &&& forall|i: int|
                0 <= i < targets.len() ==> find_id(p.surfaces, #[trigger] targets[i]) == Some(
                    c.render_targets[i],
                )
            &&& c.current_target is None
            &&& c.last_coded is None
            &&& c.pending.seq_param is None && c.pending.pic_param is None && c.pending.coded_buf is None
            &&& c.pending.misc_params.len() == 0 && c.pending.packed_headers.len() == 0
        }),
        plan.session_config.width == width,
        plan.session_config.height == height,
        plan.session_config.profile == config_profile(p, plan.config),
        plan.session_config.bitrate_bps == 5_000_000,
        plan.session_config.fps_num == 60 * plan.session_config.fps_den,
{
}

/// Arguments are refused for one of four reasons, in this order: no place for
/// the ID, an unknown config, an unknown render target, a negative side.
pub proof fn law_context_arguments_are_checked_in_order(
    p: PoolsView,
    config_id: u32,
    width: i32,
    height: i32,
    targets: Seq<u32>,
    has_out: bool,
)
    ensures
        ({
            let e = context_error(p, config_id, width, height, targets, has_out);
            let known = find_id(p.configs, config_id) is Some;
            let all_known = forall|i: int|
                0 <= i < targets.len() ==> find_id(p.surfaces, #[trigger] targets[i]) is Some;
            &&& !has_out ==> e == Some(DriverError::InvalidParameter)
            &&& has_out && !known ==> e == Some(DriverError::InvalidConfig)
            &&& has_out && known && !all_known ==> e == Some(DriverError::InvalidSurface)
            &&& has_out && known && all_known && (width < 0 || height < 0) ==> e == Some(
                DriverError::InvalidParameter,
            )
            &&& has_out && known && all_known && width >= 0 && height >= 0 ==> e is None
        }),
{
}

/// A render target in device memory is registered with the sides and the pitch
/// of that memory.
pub proof fn law_render_targets_are_registered_as_they_are(
    surfaces: Map<SurfaceKey, SurfaceRec>,
    targets: Seq<SurfaceKey>,
    s: SessionView,
    at: int,
    api_ready: bool,
)
    requires
        0 <= at,
    ensures
        register_from(surfaces, targets, s, at, api_ready) matches RegisterScan::Calls { at: i, run }
            ==> (surfaces[targets[i]].kind matches SurfaceKind::Internal {
            cu_ptr,
            pitch,
            width,
            height,
        } && run.params.width == width && run.params.height == height && run.params.pitch == pitch
            && run.params.resource == cu_ptr && run.params.encoder == s.encoder),
    decreases targets.len() - at,
{
    if at < targets.len() {
        law_render_targets_are_registered_as_they_are(surfaces, targets, s, at + 1, api_ready);
    }
}

/// A context that was stored is found under its ID as it was planned, and no
/// other context changed.
pub proof fn law_stored_context_is_found(
    before: Pools,
    after: Pools,
    plan: ContextPlan,
    session: Option<SessionView>,
    step: ContextStep,
)
    requires
        context_stored(before, after, plan, session, step),
    ensures
        step.next matches ContextNext::Done(Ok(id)) && id != 0 && (find_id(after.contexts@, id)
            matches Some(key) && after.contexts@[key].width == plan.width
            && after.contexts@[key].height == plan.height && after.contexts@[key].config
            == plan.config && after.contexts@[key].session == session
            && !before.contexts@.contains_key(key)),
        forall|k: ContextKey| #[trigger]
            before.contexts@.contains_key(k) ==> after.contexts@.contains_key(k)
                && after.contexts@[k] == before.contexts@[k],
        after.surfaces == before.surfaces,
{
}

} // verus!
