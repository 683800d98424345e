//! Loading and unloading the driver.

use crate::cuda::external_mem::CudaRelease;
use crate::driver::config::{supported_entrypoints, supported_profiles};
use crate::driver::state::{surface_releases, ContextView, Pools, SurfaceRec};
use crate::driver::surface::advertised;
use crate::error::{DriverError, VA_STATUS_SUCCESS, VA_STATUS_UNKNOWN};
use crate::ids::{ContextKey, SurfaceKey};
use crate::nvenc::session::{NvencRelease, SessionView};
use crate::nvenc::teardown::{
    law_teardown_releases_everything, lists_registered, teardown_of, tears_down,
};
use crate::va::VAStatus;
use vstd::prelude::*;

verus! {

/// The capability counts that libva sizes its query arrays by.
#[derive(Debug, Clone, Copy, PartialEq, Eq, Structural)]
pub struct Capabilities {
    pub max_profiles: i32,
    pub max_entrypoints: i32,
    pub max_attributes: i32,
    pub max_image_formats: i32,
    pub max_subpic_formats: i32,
    pub max_display_attributes: i32,
}

/// The capability counts of the driver.
pub open spec fn declared() -> Capabilities {
    Capabilities {
        max_profiles: 8,
        max_entrypoints: 4,
        max_attributes: 32,
        max_image_formats: 4,
        max_subpic_formats: 1,
        max_display_attributes: 1,
    }
}

/// The capability counts of the driver.
pub fn capabilities() -> (caps: Capabilities)
    ensures
        caps == declared(),
{
    Capabilities {
        max_profiles: 8,
        max_entrypoints: 4,
        max_attributes: 32,
        max_image_formats: 4,
        max_subpic_formats: 1,
        max_display_attributes: 1,
    }
}

/// Every list that a query writes fits an array of the declared size, and
/// libva's validator, which wants every count to be positive, is satisfied.
pub proof fn law_queries_fit_declared_arrays()
    ensures
        supported_profiles().len() <= declared().max_profiles,
        supported_entrypoints().len() <= declared().max_entrypoints,
        advertised().len() <= declared().max_attributes,
        1 <= declared().max_image_formats,
        declared().max_profiles > 0,
        declared().max_entrypoints > 0,
        declared().max_attributes > 0,
        declared().max_subpic_formats > 0,
        declared().max_display_attributes > 0,
{
}

/// The status that loading the driver ends with: without a libva context there
/// is nothing to load into, the CUDA state may refuse, and without a function
/// table there is nothing to fill.
pub fn driver_init_status(
    has_ctx: bool,
    state: Result<(), DriverError>,
    has_vtable: bool,
) -> (status: VAStatus)
    ensures
        status == if !has_ctx {
            crate::error::status_of(DriverError::InvalidParameter) as int
        } else if state is Err {
            crate::error::status_of(state->Err_0) as int
        } else if !has_vtable {
            VA_STATUS_UNKNOWN as int
        } else {
            VA_STATUS_SUCCESS as int
        },
        status == VA_STATUS_SUCCESS <==> has_ctx && state is Ok && has_vtable,
{
    if !has_ctx {
        return DriverError::InvalidParameter.to_status();
    }
    if let Err(e) = state {
        return e.to_status();
    }
    if !has_vtable {
        return VA_STATUS_UNKNOWN;
    }
    VA_STATUS_SUCCESS
}

/// What is released when the driver is unloaded: first `nvenc`, then `cuda`,
/// each in order.
#[derive(Debug)]
pub struct Shutdown {
    pub nvenc: Vec<NvencRelease>,
    pub cuda: Vec<CudaRelease>,
}

/// Whether a release list takes down the session of a context.
pub open spec fn takes_down(
    session: Option<SessionView>,
    api_ready: bool,
    releases: Seq<NvencRelease>,
) -> bool {
    match session {
        Some(s) => tears_down(s, api_ready, releases),
        None => releases.len() == 0,
    }
}

/// Whether a release list takes down the sessions of contexts, one after the
/// other.
pub open spec fn takes_down_all(
    contexts: Map<ContextKey, ContextView>,
    order: Seq<ContextKey>,
    api_ready: bool,
    releases: Seq<NvencRelease>,
) -> bool
    decreases order.len(),
{
    if order.len() == 0 {
        releases.len() == 0
    } else {
        exists|n: int|
            0 <= n <= releases.len() && takes_down_all(
                contexts,
                order.drop_last(),
                api_ready,
                #[trigger] releases.take(n),
            ) && takes_down(contexts[order.last()].session, api_ready, releases.skip(n))
    }
}

/// What is given back when surfaces go away one after the other.
pub open spec fn all_surface_releases(
    surfaces: Map<SurfaceKey, SurfaceRec>,
    order: Seq<SurfaceKey>,
) -> Seq<CudaRelease>
    decreases order.len(),
{
    if order.len() == 0 {
        Seq::empty()
    } else {
        all_surface_releases(surfaces, order.drop_last()) + surface_releases(
            surfaces[order.last()],
        )
    }
}

/// Unload the driver: take every session down, then give back every surface.
/// NVENC must let go of a surface before the surface's memory goes away.
pub fn terminate(pools: Pools, api_ready: bool) -> (down: Shutdown)
    requires
        pools.wf(),
    ensures
        takes_down_all(
            pools.contexts@,
            pools.contexts.order(),
            api_ready,
            down.nvenc@,
        ),
        down.cuda@ == all_surface_releases(pools.surfaces@, pools.surfaces.order()),
{
    let mut contexts = pools.contexts;
    let surfaces = pools.surfaces;
    let ghost all = contexts@;
    let ghost order = contexts.order();
    let mut nvenc: Vec<NvencRelease> = Vec::new();
    proof {
        contexts.lemma_pool();
    }
    let n: usize = contexts.len();
    let mut i: usize = 0;
    while i < n
        invariant
            contexts.wf(),
            contexts.order() == order,
            order.no_duplicates(),
            n == order.len(),
            i <= n,
            forall|j: int| i <= j < n ==> contexts@[#[trigger] order[j]] == all[order[j]],
            takes_down_all(all, order.take(i as int), api_ready, nvenc@),
        decreases n - i,
    {
        let ck = contexts.key_at(i);
        let mut down: Vec<NvencRelease> = Vec::new();
        if let Some(c) = contexts.get_mut(ck) {
            if let Some(session) = c.session.take() {
                down = session.teardown(api_ready);
            }
        }
        let ghost had = nvenc@;
        let ghost more = down@;
        nvenc.append(&mut down);
        proof {
            let now = order.take(i + 1);
            assert(now.drop_last() =~= order.take(i as int));
            assert(now.last() == ck);
            assert(nvenc@.take(had.len() as int) =~= had);
            assert(nvenc@.skip(had.len() as int) =~= more);
        }
        i += 1;
    }
    proof {
        assert(order.take(i as int) =~= order);
    }
    let mut cuda: Vec<CudaRelease> = Vec::new();
    let ghost surface_order = surfaces.order();
    proof {
        surfaces.lemma_pool();
        assert(cuda@ =~= Seq::empty());
    }
    let m: usize = surfaces.len();
    let mut j: usize = 0;
    while j < m
        invariant
            surfaces.wf(),
            surfaces.order() == surface_order,
            m == surface_order.len(),
            j <= m,
            cuda@ == all_surface_releases(surfaces@, surface_order.take(j as int)),
        decreases m - j,
    {
        let sk = surfaces.key_at(j);
        proof {
            let now = surface_order.take(j + 1);
            assert(now.drop_last() =~= surface_order.take(j as int));
            assert(now.last() == sk);
        }
        if let Some(rec) = surfaces.get(sk) {
            let mut releases = rec.releases();
            cuda.append(&mut releases);
        }
        j += 1;
    }
    proof {
        assert(surface_order.take(j as int) =~= surface_order);
    }
    Shutdown { nvenc, cuda }
}

/// Unloading destroys the encoder of every session.
pub proof fn law_every_session_goes_down(
    contexts: Map<ContextKey, ContextView>,
    order: Seq<ContextKey>,
    releases: Seq<NvencRelease>,
    key: ContextKey,
)
    requires
        takes_down_all(contexts, order, true, releases),
        order.contains(key),
    ensures
        contexts[key].session matches Some(s) ==> releases.contains(
            NvencRelease::DestroyEncoder { encoder: s.encoder },
        ),
    decreases order.len(),
{
    if let Some(s) = contexts[key].session {
        let gone = NvencRelease::DestroyEncoder { encoder: s.encoder };
        let n = choose|n: int|
            0 <= n <= releases.len() && takes_down_all(
                contexts,
                order.drop_last(),
                true,
                #[trigger] releases.take(n),
            ) && takes_down(contexts[order.last()].session, true, releases.skip(n));
        if order.last() == key {
            let order_of = choose|o: Seq<u64>| #[trigger]
                lists_registered(s, o) && releases.skip(n) == teardown_of(s, o);
            law_teardown_releases_everything(s, order_of);
            let tail = releases.skip(n);
            assert(tail.last() == gone);
            assert(releases[releases.len() - 1] == gone);
        } else {
            let i = choose|i: int| 0 <= i < order.len() && order[i] == key;
            assert(order.drop_last()[i] == key);
            law_every_session_goes_down(contexts, order.drop_last(), releases.take(n), key);
            let j = choose|j: int| 0 <= j < releases.take(n).len() && releases.take(n)[j] == gone;
            assert(releases[j] == gone);
        }
    }
}

/// Unloading gives back what backs every surface.
pub proof fn law_every_surface_is_given_back(
    surfaces: Map<SurfaceKey, SurfaceRec>,
    order: Seq<SurfaceKey>,
    key: SurfaceKey,
    i: int,
)
    requires
        order.contains(key),
        0 <= i < surface_releases(surfaces[key]).len(),
    ensures
        all_surface_releases(surfaces, order).contains(surface_releases(surfaces[key])[i]),
    decreases order.len(),
{
    let front = all_surface_releases(surfaces, order.drop_last());
    let last = surface_releases(surfaces[order.last()]);
    let all = all_surface_releases(surfaces, order);
    let r = surface_releases(surfaces[key])[i];
    if order.last() == key {
        assert(all[front.len() + i] == r);
    } else {
        let k = choose|k: int| 0 <= k < order.len() && order[k] == key;
        assert(order.drop_last()[k] == key);
        law_every_surface_is_given_back(surfaces, order.drop_last(), key, i);
        let j = choose|j: int| 0 <= j < front.len() && front[j] == r;
        assert(all[j] == r);
    }
}

/// The capability counts that libva sizes its arrays by.
pub proof fn law_declared_counts()
    ensures
        declared().max_profiles == 8,
        declared().max_entrypoints == 4,
        declared().max_attributes == 32,
        declared().max_image_formats == 4,
        declared().max_subpic_formats == 1,
        declared().max_display_attributes == 1,
{
}

} // verus!
