//! `vaCreateSurfaces`, `vaCreateSurfaces2`, `vaDestroySurfaces`,
//! `vaQuerySurfaceStatus`, `vaQuerySurfaceAttributes`.
//!
//! A surface is NV12 in pitched device memory, or a DMA-BUF that the client
//! hands over by descriptor. Without a GPU it is a stub, so that the driver
//! can still be probed. DMA-BUF surfaces are registered with NVENC at their
//! first encode, and unregistered before their memory goes away.

use crate::cuda::external_mem::{CudaRelease, ExternalDmaBufImage};
use crate::driver::state::{
    surface_releases, ContextView, Pools, PoolsView, SurfaceKind, SurfaceRec,
};
use crate::error::{DriverError, DriverResult};
use crate::ids::{
    find_id, gained, id_of, lost_are_retired, retired_through, same_ages, ContainsKey, ContextKey,
    Pool, PoolKey, SurfaceKey,
};
use crate::nvenc::register::{unregister_release, unregistered};
use crate::nvenc::session::NvencRelease;
use crate::va;
use crate::va::{VASurfaceAttribType, VASurfaceStatus};
use vstd::prelude::*;

verus! {

// ---------------------------------------------------------------------------
// Surface attributes
// ---------------------------------------------------------------------------

/// `VASurfaceAttrib`; `value` is the whole of its 64-bit union.
#[derive(Debug, Clone, Copy, PartialEq, Eq, Structural)]
pub struct SurfaceAttrib {
    pub type_: VASurfaceAttribType,
    pub flags: u32,
    pub value: u64,
}

/// Whether an attribute asks for DMA-BUF import: a memory type with the
/// `DRM_PRIME_2` bit in its 32-bit value.
pub open spec fn asks_drm_prime_2(a: SurfaceAttrib) -> bool {
    &&& a.type_ == va::VA_SURFACE_ATTRIB_MEMORY_TYPE
    &&& (a.value as u32) & va::VA_SURFACE_ATTRIB_MEM_TYPE_DRM_PRIME_2 != 0
}

/// Whether an attribute carries a pointer to a descriptor.
pub open spec fn carries_descriptor(a: SurfaceAttrib) -> bool {
    a.type_ == va::VA_SURFACE_ATTRIB_EXTERNAL_BUFFER_DESCRIPTOR && a.value != 0
}

/// The last descriptor pointer of a list.
pub open spec fn last_descriptor(attribs: Seq<SurfaceAttrib>) -> Option<u64>
    decreases attribs.len(),
{
    if attribs.len() == 0 {
        None
    } else if carries_descriptor(attribs.last()) {
        Some(attribs.last().value)
    } else {
        last_descriptor(attribs.drop_last())
    }
}

/// Whether any attribute of a list asks for DMA-BUF import.
pub open spec fn wants_drm_prime_2(attribs: Seq<SurfaceAttrib>) -> bool {
    exists|i: int| 0 <= i < attribs.len() && asks_drm_prime_2(#[trigger] attribs[i])
}

/// Scan an attribute list for DMA-BUF import: whether it was asked for, and
/// the address of the descriptor.
pub fn parse_drm_prime_attribs(attribs: &[SurfaceAttrib]) -> (parsed: (bool, Option<u64>))
    ensures
        parsed.0 == wants_drm_prime_2(attribs@),
        parsed.1 == last_descriptor(attribs@),
{
    let mut want: bool = false;
    let mut desc: Option<u64> = None;
    let mut i: usize = 0;
    while i < attribs.len()
        invariant
            i <= attribs.len(),
            want == wants_drm_prime_2(attribs@.take(i as int)),
            desc == last_descriptor(attribs@.take(i as int)),
        decreases attribs.len() - i,
    {
        let a = attribs[i];
        let ghost seen = attribs@.take(i as int);
        let ghost now = attribs@.take(i + 1);
        proof {
            assert(now.drop_last() =~= seen);
            assert(now.last() == a);
            assert(wants_drm_prime_2(now) == (wants_drm_prime_2(seen) || asks_drm_prime_2(a))) by {
                if wants_drm_prime_2(seen) {
                    let j = choose|j: int| 0 <= j < seen.len() && asks_drm_prime_2(seen[j]);
                    assert(now[j] == seen[j]);
                }
                if wants_drm_prime_2(now) && !asks_drm_prime_2(a) {
                    let j = choose|j: int| 0 <= j < now.len() && asks_drm_prime_2(now[j]);
                    assert(seen[j] == now[j]);
                }
                if asks_drm_prime_2(a) {
                    assert(asks_drm_prime_2(now[i as int]));
                }
            }
        }
        if a.type_ == va::VA_SURFACE_ATTRIB_MEMORY_TYPE {
            let mem_type: u32 = a.value as u32;
            if mem_type & va::VA_SURFACE_ATTRIB_MEM_TYPE_DRM_PRIME_2 != 0 {
                want = true;
            }
        } else if a.type_ == va::VA_SURFACE_ATTRIB_EXTERNAL_BUFFER_DESCRIPTOR {
            if a.value != 0 {
                desc = Some(a.value);
            }
        }
        i += 1;
    }
    proof {
        assert(attribs@.take(i as int) =~= attribs@);
    }
    (want, desc)
}

/// The surface attributes of the driver: NV12 from 16 to 4096 pixels each way,
/// in memory of its own or of a DMA-BUF with any layout.
pub open spec fn advertised() -> Seq<SurfaceAttrib> {
    let gettable = va::VA_SURFACE_ATTRIB_GETTABLE;
    let both = va::VA_SURFACE_ATTRIB_GETTABLE | va::VA_SURFACE_ATTRIB_SETTABLE;
    let memory = va::VA_SURFACE_ATTRIB_MEM_TYPE_VA | va::VA_SURFACE_ATTRIB_MEM_TYPE_DRM_PRIME_2;
    seq![
        SurfaceAttrib {
            type_: va::VA_SURFACE_ATTRIB_PIXEL_FORMAT,
            flags: both,
            value: va::VA_FOURCC_NV12 as u64,
        },
        SurfaceAttrib { type_: va::VA_SURFACE_ATTRIB_MIN_WIDTH, flags: gettable, value: 16 },
        SurfaceAttrib { type_: va::VA_SURFACE_ATTRIB_MIN_HEIGHT, flags: gettable, value: 16 },
        SurfaceAttrib { type_: va::VA_SURFACE_ATTRIB_MAX_WIDTH, flags: gettable, value: 4096 },
        SurfaceAttrib { type_: va::VA_SURFACE_ATTRIB_MAX_HEIGHT, flags: gettable, value: 4096 },
        SurfaceAttrib {
            type_: va::VA_SURFACE_ATTRIB_MEMORY_TYPE,
            flags: both,
            value: memory as u64,
        },
        SurfaceAttrib {
            type_: va::VA_SURFACE_ATTRIB_DRM_FORMAT_MODIFIERS,
            flags: gettable,
            value: va::DRM_FORMAT_MOD_INVALID,
        },
    ]
}

/// The surface attributes of the driver.
pub fn supported_attribs() -> (attribs: Vec<SurfaceAttrib>)
    ensures
        attribs@ == advertised(),
{
    let gettable: u32 = va::VA_SURFACE_ATTRIB_GETTABLE;
    let both: u32 = va::VA_SURFACE_ATTRIB_GETTABLE | va::VA_SURFACE_ATTRIB_SETTABLE;
    let memory: u32 = va::VA_SURFACE_ATTRIB_MEM_TYPE_VA
        | va::VA_SURFACE_ATTRIB_MEM_TYPE_DRM_PRIME_2;
    let attribs: Vec<SurfaceAttrib> = vec![
        SurfaceAttrib {
            type_: va::VA_SURFACE_ATTRIB_PIXEL_FORMAT,
            flags: both,
            value: va::VA_FOURCC_NV12 as u64,
        },
        SurfaceAttrib { type_: va::VA_SURFACE_ATTRIB_MIN_WIDTH, flags: gettable, value: 16 },
        SurfaceAttrib { type_: va::VA_SURFACE_ATTRIB_MIN_HEIGHT, flags: gettable, value: 16 },
        SurfaceAttrib { type_: va::VA_SURFACE_ATTRIB_MAX_WIDTH, flags: gettable, value: 4096 },
        SurfaceAttrib { type_: va::VA_SURFACE_ATTRIB_MAX_HEIGHT, flags: gettable, value: 4096 },
        SurfaceAttrib {
            type_: va::VA_SURFACE_ATTRIB_MEMORY_TYPE,
            flags: both,
            value: memory as u64,
        },
        SurfaceAttrib {
            type_: va::VA_SURFACE_ATTRIB_DRM_FORMAT_MODIFIERS,
            flags: gettable,
            value: va::DRM_FORMAT_MOD_INVALID,
        },
    ];
    proof {
        assert(attribs@ =~= advertised());
    }
    attribs
}

/// What `vaQuerySurfaceAttributes` writes: the number of attributes, and the
/// attributes themselves where the caller's array takes them.
#[derive(Debug)]
pub struct AttribReport {
    pub total: u32,
    pub attribs: Option<Vec<SurfaceAttrib>>,
    pub result: DriverResult<()>,
}

/// Report the surface attributes. `capacity` is what the caller's count holds;
/// without a count there is nothing to write to, without a list only the
/// number is asked for, and too short a list gets the number and an error.
pub fn query_surface_attributes(has_list: bool, capacity: Option<u32>) -> (r: DriverResult<
    AttribReport,
>)
    ensures
        match capacity {
            None => r matches Err(e) && e == DriverError::InvalidParameter,
            Some(room) => {
                &&& r matches Ok(report) && {
                    &&& report.total == advertised().len()
                    &&& if has_list && room < advertised().len() {
                        report.attribs is None && report.result == Err::<(), DriverError>(
                            DriverError::InvalidParameter,
                        )
                    } else {
                        report.result == Ok::<(), DriverError>(()) && match report.attribs {
                            Some(list) => has_list && list@ == advertised(),
                            None => !has_list,
                        }
                    }
                }
            },
        },
{
    let room: u32 = match capacity {
        Some(room) => room,
        None => return Err(DriverError::InvalidParameter),
    };
    let attribs = supported_attribs();
    let total: u32 = attribs.len() as u32;
    if !has_list {
        return Ok(AttribReport { total, attribs: None, result: Ok(()) });
    }
    if room < total {
        return Ok(
            AttribReport { total, attribs: None, result: Err(DriverError::InvalidParameter) },
        );
    }
    Ok(AttribReport { total, attribs: Some(attribs), result: Ok(()) })
}

/// `vaQuerySurfaceStatus`: encoding is synchronous, so a surface is always
/// ready.
pub fn query_surface_status(has_out: bool) -> (r: DriverResult<VASurfaceStatus>)
    ensures
        r == if has_out {
            Ok::<VASurfaceStatus, DriverError>(va::VA_SURFACE_READY)
        } else {
            Err(DriverError::InvalidParameter)
        },
{
    if has_out {
        Ok(va::VA_SURFACE_READY)
    } else {
        Err(DriverError::InvalidParameter)
    }
}

// ---------------------------------------------------------------------------
// Creating surfaces
// ---------------------------------------------------------------------------

/// What `vaCreateSurfaces2` is to do.
#[derive(Debug, Clone, Copy, PartialEq, Eq, Structural)]
pub enum SurfacePlan {
    /// Allocate a number of surfaces of one size.
    Allocate { format: u32, width: u32, height: u32, count: u32 },
    /// Import the DMA-BUF of the descriptor at an address; its size is that of
    /// the descriptor.
    Import { format: u32, descriptor: u64 },
}

/// What `vaCreateSurfaces2` is to do, or why not.
pub open spec fn surface_plan(
    format: u32,
    width: u32,
    height: u32,
    has_list: bool,
    num_surfaces: u32,
    attribs: Seq<SurfaceAttrib>,
) -> DriverResult<SurfacePlan> {
    if !has_list || num_surfaces == 0 {
        Err(DriverError::InvalidParameter)
    } else if format != va::VA_RT_FORMAT_YUV420 {
        Err(DriverError::UnsupportedRtFormat)
    } else if wants_drm_prime_2(attribs) {
        match last_descriptor(attribs) {
            None => Err(DriverError::InvalidParameter),
            Some(descriptor) => if num_surfaces != 1 {
                Err(DriverError::AllocFailed)
            } else {
                Ok(SurfacePlan::Import { format, descriptor })
            },
        }
    } else {
        Ok(SurfacePlan::Allocate { format, width, height, count: num_surfaces })
    }
}

/// Check the arguments of `vaCreateSurfaces2`.
pub fn create_surfaces2(
    format: u32,
    width: u32,
    height: u32,
    has_list: bool,
    num_surfaces: u32,
    attribs: &[SurfaceAttrib],
) -> (plan: DriverResult<SurfacePlan>)
    ensures
        plan == surface_plan(format, width, height, has_list, num_surfaces, attribs@),
{
    if !has_list || num_surfaces == 0 {
        return Err(DriverError::InvalidParameter);
    }
    if format != va::VA_RT_FORMAT_YUV420 {
        return Err(DriverError::UnsupportedRtFormat);
    }
    let (want_drm_prime_2, descriptor) = parse_drm_prime_attribs(attribs);
    if want_drm_prime_2 {
        return match descriptor {
            None => Err(DriverError::InvalidParameter),
            Some(descriptor) => {
                if num_surfaces != 1 {
                    Err(DriverError::AllocFailed)
                } else {
                    Ok(SurfacePlan::Import { format, descriptor })
                }
            },
        };
    }
    Ok(SurfacePlan::Allocate { format, width, height, count: num_surfaces })
}

/// `vaCreateSurfaces`: the same without attributes. Its arguments are signed
/// and taken as they are.
pub fn create_surfaces(width: i32, height: i32, format: i32, num_surfaces: i32, has_list: bool) -> (
    plan: DriverResult<SurfacePlan>)
    ensures
        plan == surface_plan(
            format as u32,
            width as u32,
            height as u32,
            has_list,
            num_surfaces as u32,
            Seq::empty(),
        ),
{
    let none: [SurfaceAttrib; 0] = [];
    proof {
        assert(none@ =~= Seq::empty());
    }
    create_surfaces2(
        format as u32,
        width as u32,
        height as u32,
        has_list,
        num_surfaces as u32,
        &none,
    )
}

/// Surfaces that are being allocated. `ids` names those that exist.
#[derive(Debug)]
pub struct SurfaceJob {
    pub format: u32,
    pub width: u32,
    pub height: u32,
    pub count: u32,
    pub ids: Vec<u32>,
}

/// A call that allocating a surface needs.
#[derive(Debug, Clone, Copy, PartialEq, Eq, Structural)]
pub enum AllocCall {
    /// Make the CUDA context current on this thread.
    BindContext,
    /// `cuMemAllocPitch_v2`.
    AllocPitch { width_bytes: u64, rows: u64, element_size: u32 },
}

/// The answer to an [`AllocCall`].
#[derive(Debug, Clone, Copy, PartialEq, Eq, Structural)]
pub enum AllocReply {
    Done,
    Memory { ptr: u64, pitch: u64 },
    Failed,
}

/// Where allocating stands while a call is out.
#[derive(Debug)]
pub enum SurfaceRun {
    Binding { job: SurfaceJob },
    Allocating { job: SurfaceJob },
}

/// How allocating goes on. At the end, `ids` names the surfaces that exist,
/// also where one more could not be had.
#[derive(Debug)]
pub enum SurfaceNext {
    Call { call: AllocCall, run: SurfaceRun },
    Done { ids: Vec<u32>, result: DriverResult<()> },
}

/// One block for both planes: the luma rows and half as many chroma rows, so
/// that both have one pitch.
pub open spec fn nv12_alloc(width: u32, height: u32) -> AllocCall {
    AllocCall::AllocPitch {
        width_bytes: width as u64,
        rows: (height * 3 / 2) as u64,
        element_size: 16,
    }
}

/// A surface without backing.
pub open spec fn stub_surface(format: u32, width: u32, height: u32) -> SurfaceRec {
    SurfaceRec {
        width,
        height,
        format,
        kind: SurfaceKind::Stub,
        registered: None,
        has_cuda_ctx: false,
    }
}

/// A surface in device memory.
pub open spec fn device_surface(
    format: u32,
    width: u32,
    height: u32,
    cu_ptr: u64,
    pitch: u32,
) -> SurfaceRec {
    SurfaceRec {
        width,
        height,
        format,
        kind: SurfaceKind::Internal { cu_ptr, pitch, width, height },
        registered: None,
        has_cuda_ctx: true,
    }
}

/// A pool gained several equal records, which new nonzero IDs name in order;
/// the other records are as before.
pub open spec fn gained_all(
    before: Pool<SurfaceKey, SurfaceRec>,
    after: Pool<SurfaceKey, SurfaceRec>,
    ids: Seq<u32>,
    record: SurfaceRec,
) -> bool {
    let n = before.order().len() as int;
    &&& after.wf()
    &&& after.order().len() == n + ids.len()
    &&& after.order().take(n) == before.order()
    &&& forall|i: int|
        0 <= i < ids.len() ==> {
            let k = after.order()[n + i];
            &&& (#[trigger] ids[i]) != 0
            &&& id_of(k.raw()) == ids[i]
            &&& after@.contains_key(k)
            &&& after@[k] == record
            &&& !before@.contains_key(k)
        }
    &&& forall|k: SurfaceKey| #[trigger]
        before@.contains_key(k) ==> after@.contains_key(k) && after@[k] == before@[k]
    &&& retired_through(before, after, ids.len() as int)
}

/// Nothing but the surfaces changed.
pub open spec fn only_surfaces(before: Pools, after: Pools) -> bool {
    &&& after.configs == before.configs
    &&& after.contexts == before.contexts
    &&& after.buffers == before.buffers
    &&& after.images == before.images
}

/// Start allocating. Without a CUDA context every surface is a stub.
pub fn allocate_surfaces(
    pools: &mut Pools,
    format: u32,
    width: u32,
    height: u32,
    count: u32,
    has_cuda: bool,
) -> (next: SurfaceNext)
    requires
        old(pools).wf(),
        old(pools).surfaces.order().len() + count <= crate::ids::POOL_LIMIT,
        count > 0,
    ensures
        final(pools).wf(),
        only_surfaces(*old(pools), *final(pools)),
        if has_cuda {
            &&& *final(pools) == *old(pools)
            &&& next matches SurfaceNext::Call {
                call: AllocCall::BindContext,
                run: SurfaceRun::Binding { job },
            } && job.format == format && job.width == width && job.height == height && job.count
                == count && job.ids@.len() == 0
        } else {
            &&& next matches SurfaceNext::Done { ids, result } && result == Ok::<(), DriverError>(
                (),
            ) && ids@.len() == count && gained_all(
                old(pools).surfaces,
                final(pools).surfaces,
                ids@,
                stub_surface(format, width, height),
            )
        },
{
    let mut ids: Vec<u32> = Vec::new();
    if has_cuda {
        let job = SurfaceJob { format, width, height, count, ids };
        return SurfaceNext::Call {
            call: AllocCall::BindContext,
            run: SurfaceRun::Binding { job },
        };
    }
    let ghost start = *pools;
    let ghost rec = stub_surface(format, width, height);
    proof {
        pools.surfaces.lemma_pool();
        assert(start.surfaces.order().take(start.surfaces.order().len() as int)
            =~= start.surfaces.order());
    }
    let mut i: u32 = 0;
    while i < count
        invariant
            pools.wf(),
            only_surfaces(start, *pools),
            i <= count,
            ids@.len() == i,
            start.surfaces.order().len() + count <= crate::ids::POOL_LIMIT,
            rec == stub_surface(format, width, height),
            gained_all(start.surfaces, pools.surfaces, ids@, rec),
        decreases count - i,
    {
        let ghost before = pools.surfaces;
        let ghost ids0 = ids@;
        let id: u32 = pools.surfaces.insert_id(
            SurfaceRec {
                width,
                height,
                format,
                kind: SurfaceKind::Stub,
                registered: None,
                has_cuda_ctx: false,
            },
        );
        ids.push(id);
        proof {
            let n = start.surfaces.order().len() as int;
            let k = find_id(pools.surfaces@, id)->Some_0;
            assert(pools.surfaces.order() == before.order().push(k));
            assert(pools.surfaces.order().take(n) =~= before.order().take(n));
            assert forall|j: int| 0 <= j < ids@.len() implies {
                let key = pools.surfaces.order()[n + j];
                &&& (#[trigger] ids@[j]) != 0
                &&& id_of(key.raw()) == ids@[j]
                &&& pools.surfaces@.contains_key(key)
                &&& pools.surfaces@[key] == rec
                &&& !start.surfaces@.contains_key(key)
            } by {
                if j < ids0.len() {
                    assert(ids@[j] == ids0[j]);
                    assert(pools.surfaces.order()[n + j] == before.order()[n + j]);
                } else {
                    assert(pools.surfaces.order()[n + j] == k);
                }
            }
        }
        i += 1;
    }
    SurfaceNext::Done { ids, result: Ok(()) }
}

/// What a step of allocating comes to.
pub open spec fn alloc_step(
    before: Pools,
    after: Pools,
    run: SurfaceRun,
    reply: AllocReply,
    next: SurfaceNext,
) -> bool {
    match run {
        SurfaceRun::Binding { job } => {
            &&& after == before
            &&& match reply {
                AllocReply::Done => next matches SurfaceNext::Call {
                    call,
                    run: SurfaceRun::Allocating { job: same },
                } && call == nv12_alloc(job.width, job.height) && same == job,
                _ => next matches SurfaceNext::Done { ids, result } && ids@ == job.ids@ && result
                    == Err::<(), DriverError>(DriverError::OperationFailed("cuda bind_to_thread")),
            }
        },
        SurfaceRun::Allocating { job } => match reply {
            AllocReply::Memory { ptr, pitch } => if pitch > u32::MAX {
                &&& after == before
                &&& next matches SurfaceNext::Done { ids, result } && ids@ == job.ids@ && result
                    == Err::<(), DriverError>(DriverError::InvalidParameter)
            } else {
                let ids = match next {
                    SurfaceNext::Done { ids, .. } => ids@,
                    SurfaceNext::Call { run: SurfaceRun::Binding { job }, .. } => job.ids@,
                    SurfaceNext::Call { run: SurfaceRun::Allocating { job }, .. } => job.ids@,
                };
                &&& ids.len() == job.ids@.len() + 1
                &&& ids.drop_last() == job.ids@
                &&& gained(
                    before.surfaces,
                    after.surfaces,
                    ids.last(),
                    device_surface(job.format, job.width, job.height, ptr, pitch as u32),
                )
                &&& if ids.len() < job.count {
                    next matches SurfaceNext::Call {
                        call: AllocCall::BindContext,
                        run: SurfaceRun::Binding { job: more },
                    } && more.format == job.format && more.width == job.width && more.height
                        == job.height && more.count == job.count
                } else {
                    next matches SurfaceNext::Done { result, .. } && result == Ok::<
                        (),
                        DriverError,
                    >(())
                }
            },
            _ => {
                &&& after == before
                &&& next matches SurfaceNext::Done { ids, result } && ids@ == job.ids@ && result
                    == Err::<(), DriverError>(DriverError::AllocFailed)
            },
        },
    }
}

/// The job of a run.
pub open spec fn surface_job(run: SurfaceRun) -> SurfaceJob {
    match run {
        SurfaceRun::Binding { job } => job,
        SurfaceRun::Allocating { job } => job,
    }
}

/// Go on with allocating after a call was answered.
pub fn allocate_resume(pools: &mut Pools, run: SurfaceRun, reply: AllocReply) -> (next: SurfaceNext)
    requires
        old(pools).wf(),
        old(pools).surfaces.has_room(),
        surface_job(run).ids@.len() < surface_job(run).count,
    ensures
        final(pools).wf(),
        only_surfaces(*old(pools), *final(pools)),
        alloc_step(*old(pools), *final(pools), run, reply, next),
{
    match run {
        SurfaceRun::Binding { job } => match reply {
            AllocReply::Done => {
                let rows: u64 = (job.height as u64) * 3 / 2;
                let call = AllocCall::AllocPitch {
                    width_bytes: job.width as u64,
                    rows,
                    element_size: 16,
                };
                SurfaceNext::Call { call, run: SurfaceRun::Allocating { job } }
            },
            _ => SurfaceNext::Done {
                ids: job.ids,
                result: Err(DriverError::OperationFailed("cuda bind_to_thread")),
            },
        },
        SurfaceRun::Allocating { job } => match reply {
            AllocReply::Memory { ptr, pitch } => {
                if pitch > u32::MAX as u64 {
                    return SurfaceNext::Done {
                        ids: job.ids,
                        result: Err(DriverError::InvalidParameter),
                    };
                }
                let pitch: u32 = pitch as u32;
                let rec = SurfaceRec {
                    width: job.width,
                    height: job.height,
                    format: job.format,
                    kind: SurfaceKind::Internal {
                        cu_ptr: ptr,
                        pitch,
                        width: job.width,
                        height: job.height,
                    },
                    registered: None,
                    has_cuda_ctx: true,
                };
                let id: u32 = pools.surfaces.insert_id(rec);
                let mut ids = job.ids;
                let ghost had = ids@;
                ids.push(id);
                proof {
                    assert(ids@.drop_last() =~= had);
                }
                if (ids.len() as u64) < job.count as u64 {
                    let more = SurfaceJob {
                        format: job.format,
                        width: job.width,
                        height: job.height,
                        count: job.count,
                        ids,
                    };
                    SurfaceNext::Call {
                        call: AllocCall::BindContext,
                        run: SurfaceRun::Binding { job: more },
                    }
                } else {
                    SurfaceNext::Done { ids, result: Ok(()) }
                }
            },
            _ => SurfaceNext::Done { ids: job.ids, result: Err(DriverError::AllocFailed) },
        },
    }
}

// -- DMA-BUF -----------------------------------------------------------------

/// The error that a client sees of a failed import. What it could do something
/// about stays; everything else is an allocation failure, which makes clients
/// retry without DMA-BUF instead of never offering it again.
pub open spec fn import_error(e: DriverError) -> DriverError {
    match e {
        DriverError::InvalidParameter => e,
        DriverError::UnsupportedRtFormat => e,
        DriverError::UnsupportedMemory => e,
        _ => DriverError::AllocFailed,
    }
}

/// A surface over an imported DMA-BUF, not registered yet.
pub open spec fn imported_surface(format: u32, image: ExternalDmaBufImage) -> SurfaceRec {
    SurfaceRec {
        width: image.width,
        height: image.height,
        format,
        kind: SurfaceKind::ExternalDmaBuf { image, registered_nvenc: None },
        registered: None,
        has_cuda_ctx: false,
    }
}

/// Store the surface of a finished import, or report why there is none.
pub fn create_surfaces2_dma_buf(
    pools: &mut Pools,
    format: u32,
    imported: Result<ExternalDmaBufImage, DriverError>,
) -> (r: DriverResult<u32>)
    requires
        old(pools).wf(),
        old(pools).surfaces.has_room(),
    ensures
        final(pools).wf(),
        only_surfaces(*old(pools), *final(pools)),
        match imported {
            Err(e) => *final(pools) == *old(pools) && r == Err::<u32, DriverError>(import_error(e)),
            Ok(image) => r matches Ok(id) && gained(
                old(pools).surfaces,
                final(pools).surfaces,
                id,
                imported_surface(format, image),
            ),
        },
{
    match imported {
        Err(e) => Err(
            match e {
                DriverError::InvalidParameter => DriverError::InvalidParameter,
                DriverError::UnsupportedRtFormat => DriverError::UnsupportedRtFormat,
                DriverError::UnsupportedMemory => DriverError::UnsupportedMemory,
                _ => DriverError::AllocFailed,
            },
        ),
        Ok(image) => {
            let rec = SurfaceRec {
                width: image.width,
                height: image.height,
                format,
                kind: SurfaceKind::ExternalDmaBuf { image, registered_nvenc: None },
                registered: None,
                has_cuda_ctx: false,
            };
            Ok(pools.surfaces.insert_id(rec))
        },
    }
}

// ---------------------------------------------------------------------------
// Destroying surfaces
// ---------------------------------------------------------------------------

/// A call whose answer does not matter.
#[derive(Debug, Clone, Copy, PartialEq, Eq, Structural)]
pub enum Release {
    Nvenc(NvencRelease),
    Cuda(CudaRelease),
}

/// A context without the registration of a surface.
pub open spec fn forgets(c: ContextView, key: SurfaceKey) -> ContextView {
    ContextView {
        session: match c.session {
            Some(s) => Some(unregistered(s, key)),
            None => None,
        },
        ..c
    }
}

/// The contexts after the first `n` of an order forgot a surface.
pub open spec fn forgotten(
    contexts: Map<ContextKey, ContextView>,
    order: Seq<ContextKey>,
    key: SurfaceKey,
    n: int,
) -> Map<ContextKey, ContextView>
    decreases n,
{
    if n <= 0 {
        contexts
    } else {
        let m = forgotten(contexts, order, key, n - 1);
        m.insert(order[n - 1], forgets(m[order[n - 1]], key))
    }
}

/// What NVENC is told when the first `n` contexts of an order forget a surface.
pub open spec fn forget_releases(
    contexts: Map<ContextKey, ContextView>,
    order: Seq<ContextKey>,
    key: SurfaceKey,
    n: int,
    api_ready: bool,
) -> Seq<Release>
    decreases n,
{
    if n <= 0 {
        Seq::empty()
    } else {
        let rest = forget_releases(contexts, order, key, n - 1, api_ready);
        match contexts[order[n - 1]].session {
            Some(s) => match unregister_release(s, key, api_ready) {
                Some(release) => rest.push(Release::Nvenc(release)),
                None => rest,
            },
            None => rest,
        }
    }
}

/// Releases of CUDA objects, as releases.
pub open spec fn as_cuda(releases: Seq<CudaRelease>) -> Seq<Release> {
    releases.map_values(|r: CudaRelease| Release::Cuda(r))
}

/// The pools after a surface was destroyed. Every session forgets a DMA-BUF
/// surface first.
pub open spec fn after_destroy(
    p: PoolsView,
    order: Seq<ContextKey>,
    key: SurfaceKey,
) -> PoolsView {
    PoolsView {
        contexts: if p.surfaces[key].kind is ExternalDmaBuf {
            forgotten(p.contexts, order, key, order.len() as int)
        } else {
            p.contexts
        },
        surfaces: p.surfaces.remove(key),
        ..p
    }
}

/// What is released when a surface is destroyed: its registrations, then its
/// memory.
pub open spec fn destroy_releases(
    p: PoolsView,
    order: Seq<ContextKey>,
    key: SurfaceKey,
    api_ready: bool,
) -> Seq<Release> {
    let first = if p.surfaces[key].kind is ExternalDmaBuf {
        forget_releases(p.contexts, order, key, order.len() as int, api_ready)
    } else {
        Seq::empty()
    };
    first + as_cuda(surface_releases(p.surfaces[key]))
}

/// The pools, and what was released, after the first `n` IDs of a list. An ID
/// that names no surface is passed over.
pub open spec fn destroyed(
    p: PoolsView,
    order: Seq<ContextKey>,
    ids: Seq<u32>,
    api_ready: bool,
    n: int,
) -> (PoolsView, Seq<Release>)
    decreases n,
{
    if n <= 0 {
        (p, Seq::empty())
    } else {
        let (q, releases) = destroyed(p, order, ids, api_ready, n - 1);
        match find_id(q.surfaces, ids[n - 1]) {
            None => (q, releases),
            Some(key) => (
                after_destroy(q, order, key),
                releases + destroy_releases(q, order, key, api_ready),
            ),
        }
    }
}

/// Make every session forget a surface.
fn forget_surface(pools: &mut Pools, key: SurfaceKey, api_ready: bool, releases: &mut Vec<Release>)
    requires
        old(pools).wf(),
    ensures
        final(pools).wf(),
        final(pools).configs == old(pools).configs,
        final(pools).surfaces == old(pools).surfaces,
        final(pools).buffers == old(pools).buffers,
        final(pools).images == old(pools).images,
        final(pools).contexts.order() == old(pools).contexts.order(),
        same_ages(old(pools).contexts, final(pools).contexts),
        final(pools).contexts@ == forgotten(
            old(pools).contexts@,
            old(pools).contexts.order(),
            key,
            old(pools).contexts.order().len() as int,
        ),
        final(releases)@ == old(releases)@ + forget_releases(
            old(pools).contexts@,
            old(pools).contexts.order(),
            key,
            old(pools).contexts.order().len() as int,
            api_ready,
        ),
{
    let ghost start = *pools;
    let ghost order = pools.contexts.order();
    let ghost had = releases@;
    proof {
        pools.contexts.lemma_pool();
        assert(releases@ =~= had + Seq::<Release>::empty());
    }
    let n: usize = pools.contexts.len();
    let mut i: usize = 0;
    while i < n
        invariant
            pools.wf(),
            pools.configs == start.configs,
            pools.surfaces == start.surfaces,
            pools.buffers == start.buffers,
            pools.images == start.images,
            pools.contexts.order() == order,
            same_ages(start.contexts, pools.contexts),
            order.no_duplicates(),
            forall|j: int|
                0 <= j < order.len() ==> start.contexts@.contains_key(#[trigger] order[j]),
            n == order.len(),
            i <= n,
            pools.contexts@ == forgotten(start.contexts@, order, key, i as int),
            forall|j: int|
                i <= j < n ==> pools.contexts@[#[trigger] order[j]] == start.contexts@[order[j]],
            releases@ == had + forget_releases(start.contexts@, order, key, i as int, api_ready),
        decreases n - i,
    {
        let ck = pools.contexts.key_at(i);
        let ghost before = pools.contexts@;
        let mut told: Option<NvencRelease> = None;
        if let Some(c) = pools.contexts.get_mut(ck) {
            if let Some(session) = &mut c.session {
                told = session.unregister_surface(key, api_ready);
            }
        }
        if let Some(release) = told {
            releases.push(Release::Nvenc(release));
        }
        proof {
            assert(pools.contexts@ =~= before.insert(ck, forgets(before[ck], key)));
            assert(releases@ =~= had + forget_releases(
                start.contexts@,
                order,
                key,
                i + 1,
                api_ready,
            ));
        }
        i += 1;
    }
}

/// Append releases of CUDA objects.
pub(crate) fn push_cuda(releases: &mut Vec<Release>, cuda: Vec<CudaRelease>)
    ensures
        final(releases)@ == old(releases)@ + as_cuda(cuda@),
{
    let ghost had = releases@;
    let mut i: usize = 0;
    while i < cuda.len()
        invariant
            i <= cuda.len(),
            releases@ == had + as_cuda(cuda@.take(i as int)),
        decreases cuda.len() - i,
    {
        releases.push(Release::Cuda(cuda[i]));
        i += 1;
        proof {
            assert(releases@ =~= had + as_cuda(cuda@.take(i as int)));
        }
    }
    proof {
        assert(cuda@.take(i as int) =~= cuda@);
    }
}

/// Destroy surfaces, and give what is to be released, in order. `None` stands
/// for a missing list or a negative length; IDs that name no surface are
/// passed over.
pub fn destroy_surfaces(pools: &mut Pools, surface_list: Option<&[u32]>, api_ready: bool) -> (r:
    DriverResult<Vec<Release>>)
    requires
        old(pools).wf(),
    ensures
        final(pools).wf(),
        final(pools).configs == old(pools).configs,
        final(pools).buffers == old(pools).buffers,
        final(pools).images == old(pools).images,
        final(pools).contexts.order() == old(pools).contexts.order(),
        same_ages(old(pools).contexts, final(pools).contexts),
        lost_are_retired(old(pools).surfaces, final(pools).surfaces),
        match surface_list {
            None => *final(pools) == *old(pools) && (r matches Err(e) && e
                == DriverError::InvalidParameter),
            Some(ids) => r matches Ok(releases) && (final(pools)@, releases@) == destroyed(
                old(pools)@,
                old(pools).contexts.order(),
                ids@,
                api_ready,
                ids@.len() as int,
            ),
        },
{
    let ids: &[u32] = match surface_list {
        Some(ids) => ids,
        None => return Err(DriverError::InvalidParameter),
    };
    let ghost start = *pools;
    let ghost order = pools.contexts.order();
    let mut releases: Vec<Release> = Vec::new();
    proof {
        assert(releases@ =~= Seq::<Release>::empty());
    }
    let mut i: usize = 0;
    while i < ids.len()
        invariant
            pools.wf(),
            pools.configs == start.configs,
            pools.buffers == start.buffers,
            pools.images == start.images,
            pools.contexts.order() == order,
            same_ages(start.contexts, pools.contexts),
            lost_are_retired(start.surfaces, pools.surfaces),
            i <= ids.len(),
            (pools@, releases@) == destroyed(start@, order, ids@, api_ready, i as int),
        decreases ids.len() - i,
    {
        let ghost q = pools@;
        let ghost had = releases@;
        if let Some(key) = pools.surfaces.find_by_low_bits(ids[i]) {
            let external: bool = match pools.surfaces.get(key) {
                Some(rec) => matches!(rec.kind, SurfaceKind::ExternalDmaBuf { .. }),
                None => false,
            };
            if external {
                forget_surface(pools, key, api_ready, &mut releases);
            }
            if let Some(rec) = pools.surfaces.remove(key) {
                push_cuda(&mut releases, rec.releases());
            }
            proof {
                assert(pools@ =~= after_destroy(q, order, key));
                assert(releases@ =~= had + destroy_releases(q, order, key, api_ready));
            }
        }
        i += 1;
    }
    Ok(releases)
}

// ---------------------------------------------------------------------------
// Laws
// ---------------------------------------------------------------------------

/// The driver advertises both memory types and any DMA-BUF layout.
pub proof fn law_advertises_dma_buf()
    ensures
        exists|i: int|
            0 <= i < advertised().len() && (#[trigger] advertised()[i]).type_
                == va::VA_SURFACE_ATTRIB_MEMORY_TYPE && (advertised()[i].value as u32)
                & va::VA_SURFACE_ATTRIB_MEM_TYPE_DRM_PRIME_2
                == va::VA_SURFACE_ATTRIB_MEM_TYPE_DRM_PRIME_2 && (advertised()[i].value as u32)
                & va::VA_SURFACE_ATTRIB_MEM_TYPE_VA == va::VA_SURFACE_ATTRIB_MEM_TYPE_VA,
        exists|i: int|
            0 <= i < advertised().len() && (#[trigger] advertised()[i]).type_
                == va::VA_SURFACE_ATTRIB_DRM_FORMAT_MODIFIERS && advertised()[i].value
                == va::DRM_FORMAT_MOD_INVALID,
{
    let memory = va::VA_SURFACE_ATTRIB_MEM_TYPE_VA | va::VA_SURFACE_ATTRIB_MEM_TYPE_DRM_PRIME_2;
    assert(0x1u32 | 0x4000_0000u32 == 0x4000_0001u32) by (bit_vector);
    assert(0x4000_0001u32 & 0x4000_0000u32 == 0x4000_0000u32) by (bit_vector);
    assert(0x4000_0001u32 & 0x1u32 == 0x1u32) by (bit_vector);
    assert(memory == 0x4000_0001u32);
    assert(advertised()[5].type_ == va::VA_SURFACE_ATTRIB_MEMORY_TYPE);
    assert(advertised()[5].value == 0x4000_0001u64);
    assert(advertised()[6].type_ == va::VA_SURFACE_ATTRIB_DRM_FORMAT_MODIFIERS);
}

/// A client that does not ask for DMA-BUF import never gets one, whatever
/// descriptors it passes.
pub proof fn law_import_is_opt_in(
    format: u32,
    width: u32,
    height: u32,
    has_list: bool,
    num_surfaces: u32,
    attribs: Seq<SurfaceAttrib>,
)
    ensures
        surface_plan(format, width, height, has_list, num_surfaces, attribs) matches Ok(
            SurfacePlan::Import { .. },
        ) ==> wants_drm_prime_2(attribs) && num_surfaces == 1,
        surface_plan(format, width, height, has_list, num_surfaces, attribs) matches Ok(
            SurfacePlan::Allocate { .. },
        ) ==> !wants_drm_prime_2(attribs),
{
}

/// Of an import a client sees four errors at most.
pub proof fn law_import_errors(e: DriverError)
    ensures
        ({
            let seen = import_error(e);
            ||| seen == DriverError::InvalidParameter
            ||| seen == DriverError::UnsupportedRtFormat
            ||| seen == DriverError::UnsupportedMemory
            ||| seen == DriverError::AllocFailed
        }),
{
}

proof fn lemma_forget_releases(
    contexts: Map<ContextKey, ContextView>,
    order: Seq<ContextKey>,
    key: SurfaceKey,
    n: int,
    api_ready: bool,
)
    requires
        n <= order.len(),
    ensures
        forall|i: int|
            0 <= i < forget_releases(contexts, order, key, n, api_ready).len()
                ==> #[trigger] forget_releases(contexts, order, key, n, api_ready)[i] is Nvenc,
        api_ready ==> forall|j: int|
            0 <= j < n && (contexts[#[trigger] order[j]].session matches Some(s)
                && s.registered.contains_key(key.raw())) ==> forget_releases(
                contexts,
                order,
                key,
                n,
                api_ready,
            ).contains(
                Release::Nvenc(
                    unregister_release(contexts[order[j]].session->Some_0, key, true)->Some_0,
                ),
            ),
    decreases n,
{
    if n > 0 {
        lemma_forget_releases(contexts, order, key, n - 1, api_ready);
        let rest = forget_releases(contexts, order, key, n - 1, api_ready);
        let all = forget_releases(contexts, order, key, n, api_ready);
        assert forall|i: int| 0 <= i < all.len() implies #[trigger] all[i] is Nvenc by {
            if i < rest.len() {
                assert(all[i] == rest[i]);
            }
        }
        if api_ready {
            assert forall|j: int|
                0 <= j < n && (contexts[#[trigger] order[j]].session matches Some(s)
                    && s.registered.contains_key(key.raw())) implies all.contains(
                Release::Nvenc(
                    unregister_release(contexts[order[j]].session->Some_0, key, true)->Some_0,
                ),
            ) by {
                let told = Release::Nvenc(
                    unregister_release(contexts[order[j]].session->Some_0, key, true)->Some_0,
                );
                if j < n - 1 {
                    assert(rest.contains(told));
                    let i = choose|i: int| 0 <= i < rest.len() && rest[i] == told;
                    assert(all[i] == told);
                } else {
                    assert(all.last() == told);
                }
            }
        }
    }
}

/// NVENC lets go of a surface before its memory does: when a surface is
/// destroyed, every release to NVENC comes before every release of memory, and
/// every session that has a DMA-BUF surface registered unregisters it.
pub proof fn law_unregister_precedes_teardown(
    p: PoolsView,
    order: Seq<ContextKey>,
    key: SurfaceKey,
    api_ready: bool,
)
    ensures
        forall|i: int, j: int|
            #![trigger destroy_releases(p, order, key, api_ready)[i], destroy_releases(
                p,
                order,
                key,
                api_ready,
            )[j]]
            0 <= i < destroy_releases(p, order, key, api_ready).len() && 0 <= j < destroy_releases(
                p,
                order,
                key,
                api_ready,
            ).len() && destroy_releases(p, order, key, api_ready)[i] is Cuda && destroy_releases(
                p,
                order,
                key,
                api_ready,
            )[j] is Nvenc ==> j < i,
        api_ready && p.surfaces[key].kind is ExternalDmaBuf ==> forall|j: int|
            0 <= j < order.len() && (p.contexts[#[trigger] order[j]].session matches Some(s)
                && s.registered.contains_key(key.raw())) ==> destroy_releases(
                p,
                order,
                key,
                api_ready,
            ).contains(
                Release::Nvenc(
                    unregister_release(p.contexts[order[j]].session->Some_0, key, true)->Some_0,
                ),
            ),
{
    let n = order.len() as int;
    lemma_forget_releases(p.contexts, order, key, n, api_ready);
    let first = if p.surfaces[key].kind is ExternalDmaBuf {
        forget_releases(p.contexts, order, key, n, api_ready)
    } else {
        Seq::empty()
    };
    let second = as_cuda(surface_releases(p.surfaces[key]));
    let all = destroy_releases(p, order, key, api_ready);
    assert(all == first + second);
    assert forall|i: int| 0 <= i < second.len() implies #[trigger] second[i] is Cuda by {}
    if api_ready && p.surfaces[key].kind is ExternalDmaBuf {
        assert forall|j: int|
            0 <= j < order.len() && (p.contexts[#[trigger] order[j]].session matches Some(s)
                && s.registered.contains_key(key.raw())) implies all.contains(
            Release::Nvenc(
                unregister_release(p.contexts[order[j]].session->Some_0, key, true)->Some_0,
            ),
        ) by {
            let told = Release::Nvenc(
                unregister_release(p.contexts[order[j]].session->Some_0, key, true)->Some_0,
            );
            let i = choose|i: int| 0 <= i < first.len() && first[i] == told;
            assert(all[i] == told);
        }
    }
}

proof fn lemma_forgotten(
    contexts: Map<ContextKey, ContextView>,
    order: Seq<ContextKey>,
    key: SurfaceKey,
    n: int,
)
    requires
        0 <= n <= order.len(),
        order.no_duplicates(),
        forall|j: int| 0 <= j < order.len() ==> contexts.contains_key(#[trigger] order[j]),
    ensures
        forgotten(contexts, order, key, n).dom() == contexts.dom(),
        forall|j: int|
            0 <= j < n ==> forgotten(contexts, order, key, n)[#[trigger] order[j]] == forgets(
                contexts[order[j]],
                key,
            ),
        forall|j: int|
            n <= j < order.len() ==> forgotten(contexts, order, key, n)[#[trigger] order[j]]
                == contexts[order[j]],
    decreases n,
{
    if n > 0 {
        lemma_forgotten(contexts, order, key, n - 1);
        assert(forgotten(contexts, order, key, n).dom() =~= contexts.dom());
    }
}

/// A DMA-BUF surface that was destroyed is registered with no session, and
/// sessions keep everything else.
pub proof fn law_destroyed_surface_is_forgotten(
    p: PoolsView,
    order: Seq<ContextKey>,
    key: SurfaceKey,
    ck: ContextKey,
)
    requires
        order.no_duplicates(),
        forall|j: int| 0 <= j < order.len() ==> p.contexts.contains_key(#[trigger] order[j]),
        order.contains(ck),
        p.surfaces[key].kind is ExternalDmaBuf,
    ensures
        ({
            let after = after_destroy(p, order, key);
            &&& !after.surfaces.contains_key(key)
            &&& after.contexts[ck] == forgets(p.contexts[ck], key)
            &&& after.contexts[ck].session matches Some(s) ==> !s.registered.contains_key(
                key.raw(),
            )
        }),
{
    lemma_forgotten(p.contexts, order, key, order.len() as int);
    let j = choose|j: int| 0 <= j < order.len() && order[j] == ck;
    assert(order[j] == ck);
}

/// The block of a surface holds three rows for every two of the picture,
/// rounded down.
pub proof fn law_alloc_covers_nv12(width: u32, height: u32)
    ensures
        nv12_alloc(width, height) matches AllocCall::AllocPitch { width_bytes, rows, .. }
            && width_bytes == width && rows == height + height / 2,
{
}

/// A surface is what was asked for: its record has the sides and the format of
/// the request, whatever backs it, and where it is in device memory the memory
/// is the one that CUDA gave, described with the same sides.
pub proof fn law_surface_is_what_was_asked_for(
    format: u32,
    width: u32,
    height: u32,
    cu_ptr: u64,
    pitch: u32,
)
    ensures
        ({
            let rec = device_surface(format, width, height, cu_ptr, pitch);
            &&& rec.width == width
            &&& rec.height == height
            &&& rec.format == format
            &&& rec.has_cuda_ctx
            &&& rec.registered is None
            &&& rec.kind matches SurfaceKind::Internal { cu_ptr: p, pitch: q, width: w, height: h }
                && p == cu_ptr && q == pitch && w == rec.width && h == rec.height
        }),
        ({
            let rec = stub_surface(format, width, height);
            &&& rec.width == width
            &&& rec.height == height
            &&& rec.format == format
            &&& !rec.has_cuda_ctx
            &&& rec.registered is None
            &&& rec.kind is Stub
        }),
{
}

/// A surface over a DMA-BUF has the sides of the imported picture and the format
/// of the request, and is not registered before its first frame.
pub proof fn law_imported_surface_is_the_picture(format: u32, image: ExternalDmaBufImage)
    ensures
        ({
            let rec = imported_surface(format, image);
            &&& rec.width == image.width
            &&& rec.height == image.height
            &&& rec.format == format
            &&& rec.registered is None
            &&& rec.kind matches SurfaceKind::ExternalDmaBuf { image: kept, registered_nvenc }
                && kept == image && registered_nvenc is None
        }),
{
}

/// Memory that CUDA gives becomes one more surface of the request, under an ID
/// that joins those already given out; its memory goes back to CUDA when the
/// surface goes. Memory whose pitch does not fit is not taken.
pub proof fn law_allocated_memory_becomes_a_surface(
    before: Pools,
    after: Pools,
    job: SurfaceJob,
    ptr: u64,
    pitch: u64,
    next: SurfaceNext,
)
    requires
        alloc_step(
            before,
            after,
            SurfaceRun::Allocating { job },
            AllocReply::Memory { ptr, pitch },
            next,
        ),
    ensures
        pitch > u32::MAX ==> after == before,
        pitch <= u32::MAX ==> {
            let ids = match next {
                SurfaceNext::Done { ids, .. } => ids@,
                SurfaceNext::Call { run, .. } => surface_job(run).ids@,
            };
            &&& ids.len() == job.ids@.len() + 1
            &&& forall|i: int| 0 <= i < job.ids@.len() ==> #[trigger] ids[i] == job.ids@[i]
            &&& find_id(after.surfaces@, ids.last()) matches Some(key) && {
                let rec = after.surfaces@[key];
                &&& rec.width == job.width
                &&& rec.height == job.height
                &&& rec.format == job.format
                &&& rec.kind == SurfaceKind::Internal {
                    cu_ptr: ptr,
                    pitch: pitch as u32,
                    width: job.width,
                    height: job.height,
                }
                &&& surface_releases(rec) =~= seq![CudaRelease::FreeDevice(ptr)]
                &&& forall|k: SurfaceKey| #[trigger]
                    before.surfaces@.contains_key(k) ==> after.surfaces@.contains_key(k)
                        && after.surfaces@[k] == before.surfaces@[k]
            }
            &&& ids.len() >= job.count <==> next is Done
        },
{
    if pitch <= u32::MAX {
        let ids = match next {
            SurfaceNext::Done { ids, .. } => ids@,
            SurfaceNext::Call { run, .. } => surface_job(run).ids@,
        };
        assert forall|i: int| 0 <= i < job.ids@.len() implies #[trigger] ids[i] == job.ids@[i] by {
            assert(ids.drop_last()[i] == ids[i]);
        }
    }
}

/// Allocating asks for what the request says until it has the number that was
/// asked for: after each binding it asks for memory for one picture, and a call
/// that fails ends it with the surfaces it has.
pub proof fn law_allocating_keeps_the_request(
    before: Pools,
    after: Pools,
    job: SurfaceJob,
    reply: AllocReply,
    next: SurfaceNext,
    binding: bool,
)
    requires
        alloc_step(
            before,
            after,
            if binding {
                SurfaceRun::Binding { job }
            } else {
                SurfaceRun::Allocating { job }
            },
            reply,
            next,
        ),
    ensures
        next matches SurfaceNext::Call { call, run } ==> {
            &&& surface_job(run).format == job.format
            &&& surface_job(run).width == job.width
            &&& surface_job(run).height == job.height
            &&& surface_job(run).count == job.count
            &&& call matches AllocCall::AllocPitch { width_bytes, rows, element_size } ==> binding
                && width_bytes == job.width && rows == (3 * job.height) / 2 && element_size == 16
        },
        reply is Failed ==> after == before && (next matches SurfaceNext::Done { ids, result }
            && ids@ == job.ids@ && result is Err),
        !binding && reply is Failed ==> (next matches SurfaceNext::Done { result, .. } && result
            == Err::<(), DriverError>(DriverError::AllocFailed)),
{
}

/// Arguments are refused for one of four reasons, in this order: no place for
/// the IDs or no surfaces asked for, a format other than YUV 4:2:0, an import
/// without a descriptor, an import of several surfaces. Otherwise the plan is
/// the request.
pub proof fn law_surface_request_is_planned(
    format: u32,
    width: u32,
    height: u32,
    has_list: bool,
    num_surfaces: u32,
    attribs: Seq<SurfaceAttrib>,
)
    ensures
        ({
            let plan = surface_plan(format, width, height, has_list, num_surfaces, attribs);
            let wants = wants_drm_prime_2(attribs);
            let described = last_descriptor(attribs) is Some;
            &&& !has_list || num_surfaces == 0 ==> plan == Err::<SurfacePlan, DriverError>(
                DriverError::InvalidParameter,
            )
            &&& has_list && num_surfaces > 0 && format != 1 ==> plan == Err::<
                SurfacePlan,
                DriverError,
            >(DriverError::UnsupportedRtFormat)
            &&& has_list && num_surfaces > 0 && format == 1 && wants && !described ==> plan == Err::<
                SurfacePlan,
                DriverError,
            >(DriverError::InvalidParameter)
            &&& has_list && num_surfaces > 1 && format == 1 && wants && described ==> plan == Err::<
                SurfacePlan,
                DriverError,
            >(DriverError::AllocFailed)
            &&& has_list && num_surfaces == 1 && format == 1 && wants && described ==> (plan matches
                Ok(SurfacePlan::Import { format: f, descriptor }) && f == format
                && last_descriptor(attribs) == Some(descriptor))
            &&& has_list && num_surfaces > 0 && format == 1 && !wants ==> (plan matches Ok(
                SurfacePlan::Allocate { format: f, width: w, height: h, count },
            ) && f == format && w == width && h == height && count == num_surfaces)
        }),
{
}

/// One more attribute: a memory type with the `DRM_PRIME_2` bit asks for import,
/// a descriptor that is not null is the one to import, and everything else
/// changes nothing.
pub proof fn law_attributes_are_read_in_order(attribs: Seq<SurfaceAttrib>, a: SurfaceAttrib)
    ensures
        !wants_drm_prime_2(Seq::empty()),
        last_descriptor(Seq::empty()) is None,
        wants_drm_prime_2(attribs.push(a)) <==> wants_drm_prime_2(attribs) || (a.type_ == 6 && (
        a.value as u32) & 0x4000_0000u32 != 0),
        a.type_ == 7 && a.value != 0 ==> last_descriptor(attribs.push(a)) == Some(a.value),
        a.type_ != 7 || a.value == 0 ==> last_descriptor(attribs.push(a)) == last_descriptor(
            attribs,
        ),
{
    let all = attribs.push(a);
    assert(all.drop_last() =~= attribs);
    if wants_drm_prime_2(attribs) {
        let i = choose|i: int| 0 <= i < attribs.len() && asks_drm_prime_2(attribs[i]);
        assert(all[i] == attribs[i]);
    }
    if wants_drm_prime_2(all) && !asks_drm_prime_2(a) {
        let i = choose|i: int| 0 <= i < all.len() && asks_drm_prime_2(all[i]);
        assert(attribs[i] == all[i]);
    }
    if asks_drm_prime_2(a) {
        assert(asks_drm_prime_2(all[attribs.len() as int]));
    }
}

/// NV12 is the one pixel format, and pictures may have from 16 to 4096 pixels
/// each way.
pub proof fn law_advertised_limits(i: int)
    requires
        0 <= i < advertised().len(),
    ensures
        ({
            let a = advertised()[i];
            &&& a.type_ == 1 ==> a.value == 0x3231_564E
            &&& a.type_ == 2 || a.type_ == 4 ==> a.value == 16
            &&& a.type_ == 3 || a.type_ == 5 ==> a.value == 4096
            &&& a.flags % 2 == 1
            &&& a.type_ == 1 || a.type_ == 6 <==> a.flags == 3
        }),
        advertised().len() == 7,
        forall|j: int|
            0 <= j < advertised().len() && j != i ==> (#[trigger] advertised()[j]).type_
                != advertised()[i].type_,
{
    assert(1u32 | 2u32 == 3u32) by (bit_vector);
}

/// Errors of a descriptor that the client can mend reach it as they are; every
/// other failure of an import is one of allocation, which clients try again.
pub proof fn law_import_errors_reach_the_client(e: DriverError)
    ensures
        e == DriverError::InvalidParameter || e == DriverError::UnsupportedRtFormat || e
            == DriverError::UnsupportedMemory ==> import_error(e) == e,
        e != DriverError::InvalidParameter && e != DriverError::UnsupportedRtFormat && e
            != DriverError::UnsupportedMemory ==> import_error(e) == DriverError::AllocFailed,
{
}

/// Destroying a surface takes away that surface and no other, and gives back
/// what backs it, last; an ID that names nothing is passed over.
pub proof fn law_destroying_concerns_one_surface(
    p: PoolsView,
    order: Seq<ContextKey>,
    ids: Seq<u32>,
    api_ready: bool,
    n: int,
)
    requires
        0 < n <= ids.len(),
    ensures
        ({
            let (q, had) = destroyed(p, order, ids, api_ready, n - 1);
            let (r, has) = destroyed(p, order, ids, api_ready, n);
            &&& r.configs == q.configs && r.buffers == q.buffers && r.images == q.images
            &&& match find_id(q.surfaces, ids[n - 1]) {
                None => r == q && has == had,
                Some(key) => {
                    let back = surface_releases(q.surfaces[key]);
                    &&& r.surfaces == q.surfaces.remove(key)
                    &&& !(q.surfaces[key].kind is ExternalDmaBuf) ==> r.contexts == q.contexts
                    &&& has.len() >= had.len() + back.len()
                    &&& forall|i: int| 0 <= i < had.len() ==> #[trigger] has[i] == had[i]
                    &&& forall|i: int|
                        0 <= i < back.len() ==> has[has.len() - back.len() + i] == Release::Cuda(
                            #[trigger] back[i],
                        )
                },
            }
        }),
{
}

/// The driver advertises seven attributes: pixel format, the limits of both
/// sides, memory type and DMA-BUF layouts.
pub proof fn law_advertised_attributes_are_complete(type_: VASurfaceAttribType)
    ensures
        (exists|i: int|
            0 <= i < advertised().len() && (#[trigger] advertised()[i]).type_ == type_) <==> (1
            <= type_ <= 6 || type_ == 9),
{
    let a = advertised();
    assert(a[0].type_ == 1 && a[1].type_ == 2 && a[2].type_ == 4 && a[3].type_ == 3 && a[4].type_
        == 5 && a[5].type_ == 6 && a[6].type_ == 9);
}

/// Surfaces that are made together are found under their IDs, each as it was
/// asked for, and no ID is given twice.
pub proof fn law_surfaces_made_together_are_found(
    before: Pool<SurfaceKey, SurfaceRec>,
    after: Pool<SurfaceKey, SurfaceRec>,
    ids: Seq<u32>,
    record: SurfaceRec,
    i: int,
    j: int,
)
    requires
        before.wf(),
        gained_all(before, after, ids, record),
        0 <= i < ids.len(),
        0 <= j < ids.len(),
        i != j,
    ensures
        find_id(after@, ids[i]) matches Some(key) && after@[key] == record
            && !before@.contains_key(key),
        ids[i] != ids[j],
        ids[i] != 0,
{
    after.lemma_pool();
    let n = before.order().len() as int;
    let a = after.order()[n + i];
    let b = after.order()[n + j];
    assert(id_of(a.raw()) == ids[i] && id_of(b.raw()) == ids[j]);
    assert(after@.contains_key(a) && after@.contains_key(b));
    assert(a != b);
    assert(after.lookup(id_of(a.raw())) == Some(a));
}

} // verus!
