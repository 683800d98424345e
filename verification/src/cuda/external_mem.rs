//! DMA-BUF to CUDA external memory import.
//!
//! A client hands over a `VADRMPRIMESurfaceDescriptor` that names a DMA-BUF.
//! Its file descriptor is duplicated, imported with `cuImportExternalMemory`,
//! mapped as one mipmapped array over the packed NV12 surface, and level 0 of
//! that array is what NVENC registers. Teardown runs in the opposite order:
//! mipmap, external memory, descriptor. The mipmap holds a live reference to
//! the external memory, so the order matters.
//!
//! Only single-object NV12 is supported.

use crate::error::DriverError;
use crate::va;
use vstd::prelude::*;

verus! {

/// One DMA-BUF of a descriptor.
#[derive(Debug, Clone, Copy, PartialEq, Eq, Structural)]
pub struct PrimeObject {
    pub fd: i32,
    pub size: u32,
    pub drm_format_modifier: u64,
}

/// One layer of a descriptor.
#[derive(Debug, Clone, Copy)]
pub struct PrimeLayer {
    pub drm_format: u32,
    pub num_planes: u32,
    pub object_index: [u32; 4],
    pub offset: [u32; 4],
    pub pitch: [u32; 4],
}

/// `VADRMPRIMESurfaceDescriptor`.
#[derive(Debug, Clone, Copy)]
pub struct PrimeDescriptor {
    pub fourcc: u32,
    pub width: u32,
    pub height: u32,
    pub num_objects: u32,
    pub objects: [PrimeObject; 4],
    pub num_layers: u32,
    pub layers: [PrimeLayer; 4],
}

/// A DMA-BUF imported into CUDA. `plane0` is level 0 of `mip` and lives as
/// long as `mip` does; `dup_fd` is the duplicate that the import owns.
#[derive(Debug, Clone, Copy, PartialEq, Eq, Structural)]
pub struct ExternalDmaBufImage {
    pub ext_mem: u64,
    pub mip: u64,
    pub plane0: u64,
    pub plane1: Option<u64>,
    pub width: u32,
    pub height: u32,
    pub fourcc: u32,
    pub dup_fd: i32,
}

/// A call whose answer does not matter.
#[derive(Debug, Clone, Copy, PartialEq, Eq, Structural)]
pub enum CudaRelease {
    /// `cuMipmappedArrayDestroy`.
    DestroyMipmap(u64),
    /// `cuDestroyExternalMemory`.
    DestroyExternalMemory(u64),
    /// `close`.
    CloseFd(i32),
    /// Bind the CUDA context and `cuMemFree_v2`.
    FreeDevice(u64),
}

// ---------------------------------------------------------------------------
// Validation
// ---------------------------------------------------------------------------

/// What is wrong with a descriptor, before CUDA is touched.
pub open spec fn descriptor_error(desc: PrimeDescriptor) -> Option<DriverError> {
    if desc.num_objects == 0 || desc.num_layers == 0 || desc.width == 0 || desc.height == 0 {
        Some(DriverError::InvalidParameter)
    } else if desc.fourcc != va::VA_FOURCC_NV12 {
        Some(DriverError::UnsupportedRtFormat)
    } else if desc.num_objects != 1 {
        Some(DriverError::UnsupportedMemory)
    } else if desc.objects@[0].fd < 0 || desc.objects@[0].size == 0 {
        Some(DriverError::InvalidParameter)
    } else {
        None
    }
}

/// Check a descriptor: exactly one NV12 object with a descriptor and a size,
/// at least one layer, and dimensions that are not zero.
pub fn validate_descriptor(desc: &PrimeDescriptor) -> (checked: Result<(), DriverError>)
    ensures
        match descriptor_error(*desc) {
            Some(e) => checked == Err::<(), DriverError>(e),
            None => checked == Ok::<(), DriverError>(()),
        },
{
    if desc.num_objects == 0 || desc.num_layers == 0 {
        return Err(DriverError::InvalidParameter);
    }
    if desc.width == 0 || desc.height == 0 {
        return Err(DriverError::InvalidParameter);
    }
    if desc.fourcc != va::VA_FOURCC_NV12 {
        return Err(DriverError::UnsupportedRtFormat);
    }
    if desc.num_objects != 1 {
        return Err(DriverError::UnsupportedMemory);
    }
    let obj = &desc.objects[0];
    if obj.fd < 0 || obj.size == 0 {
        return Err(DriverError::InvalidParameter);
    }
    Ok(())
}

// ---------------------------------------------------------------------------
// Import
// ---------------------------------------------------------------------------

/// The parameters of `cuExternalMemoryGetMappedMipmappedArray`: one level of
/// one 8-bit channel.
#[derive(Debug, Clone, Copy, PartialEq, Eq, Structural)]
pub struct MipmapDesc {
    pub offset: u64,
    pub width: u64,
    pub height: u64,
    pub num_channels: u32,
    pub num_levels: u32,
}

/// What an import takes from its descriptor.
#[derive(Debug, Clone, Copy, PartialEq, Eq, Structural)]
pub struct ImportPlan {
    pub fd: i32,
    pub size: u32,
    pub offset: u32,
    pub width: u32,
    pub height: u32,
    pub fourcc: u32,
}

/// A call that an import needs.
#[derive(Debug, Clone, Copy, PartialEq, Eq, Structural)]
pub enum ImportCall {
    /// Bring up the CUDA context.
    EnsureContext,
    /// Make the CUDA context current on this thread.
    BindContext,
    /// `fcntl(fd, F_DUPFD_CLOEXEC, 3)`.
    DupFd { fd: i32 },
    /// `cuImportExternalMemory` of an opaque descriptor.
    ImportMemory { fd: i32, size: u64 },
    /// `cuExternalMemoryGetMappedMipmappedArray`.
    MapMipmap { ext_mem: u64, desc: MipmapDesc },
    /// `cuMipmappedArrayGetLevel` for level 0.
    GetLevel { mip: u64 },
}

/// The answer to an [`ImportCall`].
#[derive(Debug, Clone, Copy, PartialEq, Eq, Structural)]
pub enum ImportReply {
    /// The call succeeded and gives nothing back.
    Done,
    /// A file descriptor, or a negative number.
    Fd(i32),
    /// A handle, or null.
    Handle(u64),
    /// The call failed.
    Failed,
}

/// Where an import stands while a call is out.
#[derive(Debug, Clone, Copy, PartialEq, Eq, Structural)]
pub enum ImportRun {
    Ensuring { plan: ImportPlan },
    Binding { plan: ImportPlan },
    Duplicating { plan: ImportPlan },
    Importing { plan: ImportPlan, fd: i32 },
    Mapping { plan: ImportPlan, fd: i32, ext_mem: u64 },
    Leveling { plan: ImportPlan, fd: i32, ext_mem: u64, mip: u64 },
}

/// How an import goes on.
#[derive(Debug, Clone, Copy)]
pub enum ImportNext {
    Call { call: ImportCall, run: ImportRun },
    Done(Result<ExternalDmaBufImage, DriverError>),
}

/// One step of an import: what to release, in order, and how to go on.
pub struct ImportStep {
    pub releases: Vec<CudaRelease>,
    pub next: ImportNext,
}

/// The plan of a descriptor.
pub open spec fn plan_of(desc: PrimeDescriptor) -> ImportPlan {
    ImportPlan {
        fd: desc.objects@[0].fd,
        size: desc.objects@[0].size,
        offset: desc.layers@[0].offset@[0],
        width: desc.width,
        height: desc.height,
        fourcc: desc.fourcc,
    }
}

/// The array over a packed NV12 surface: the luma rows and half as many rows
/// of interleaved chroma.
pub open spec fn mipmap_of(plan: ImportPlan) -> MipmapDesc {
    MipmapDesc {
        offset: plan.offset as u64,
        width: plan.width as u64,
        height: (plan.height + plan.height / 2) as u64,
        num_channels: 1,
        num_levels: 1,
    }
}

/// The image that an import comes to.
pub open spec fn image_of(
    plan: ImportPlan,
    fd: i32,
    ext_mem: u64,
    mip: u64,
    plane0: u64,
) -> ExternalDmaBufImage {
    ExternalDmaBufImage {
        ext_mem,
        mip,
        plane0,
        plane1: None,
        width: plan.width,
        height: plan.height,
        fourcc: plan.fourcc,
        dup_fd: fd,
    }
}

/// The first step of an import.
pub open spec fn import_begin(desc: PrimeDescriptor) -> ImportNext {
    match descriptor_error(desc) {
        Some(e) => ImportNext::Done(Err(e)),
        None => ImportNext::Call {
            call: ImportCall::EnsureContext,
            run: ImportRun::Ensuring { plan: plan_of(desc) },
        },
    }
}

/// How an import goes on after a call was answered.
pub open spec fn import_next(run: ImportRun, reply: ImportReply) -> ImportNext {
    match run {
        ImportRun::Ensuring { plan } => match reply {
            ImportReply::Done => ImportNext::Call {
                call: ImportCall::BindContext,
                run: ImportRun::Binding { plan },
            },
            _ => ImportNext::Done(Err(DriverError::AllocFailed)),
        },
        ImportRun::Binding { plan } => match reply {
            ImportReply::Done => ImportNext::Call {
                call: ImportCall::DupFd { fd: plan.fd },
                run: ImportRun::Duplicating { plan },
            },
            _ => ImportNext::Done(Err(DriverError::AllocFailed)),
        },
        ImportRun::Duplicating { plan } => match reply {
            ImportReply::Fd(fd) if fd >= 0 => ImportNext::Call {
                call: ImportCall::ImportMemory { fd, size: plan.size as u64 },
                run: ImportRun::Importing { plan, fd },
            },
            _ => ImportNext::Done(Err(DriverError::OperationFailed("fcntl(F_DUPFD_CLOEXEC)"))),
        },
        ImportRun::Importing { plan, fd } => match reply {
            ImportReply::Handle(ext_mem) if ext_mem != 0 => ImportNext::Call {
                call: ImportCall::MapMipmap { ext_mem, desc: mipmap_of(plan) },
                run: ImportRun::Mapping { plan, fd, ext_mem },
            },
            _ => ImportNext::Done(Err(DriverError::AllocFailed)),
        },
        ImportRun::Mapping { plan, fd, ext_mem } => match reply {
            ImportReply::Handle(mip) if mip != 0 => ImportNext::Call {
                call: ImportCall::GetLevel { mip },
                run: ImportRun::Leveling { plan, fd, ext_mem, mip },
            },
            _ => ImportNext::Done(Err(DriverError::AllocFailed)),
        },
        ImportRun::Leveling { plan, fd, ext_mem, mip } => match reply {
            ImportReply::Handle(plane0) if plane0 != 0 => ImportNext::Done(
                Ok(image_of(plan, fd, ext_mem, mip, plane0)),
            ),
            _ => ImportNext::Done(Err(DriverError::AllocFailed)),
        },
    }
}

/// What a run has acquired, in the order in which it is given back.
pub open spec fn held_by_run(run: ImportRun) -> Seq<CudaRelease> {
    match run {
        ImportRun::Importing { fd, .. } => seq![CudaRelease::CloseFd(fd)],
        ImportRun::Mapping { fd, ext_mem, .. } => seq![
            CudaRelease::DestroyExternalMemory(ext_mem),
            CudaRelease::CloseFd(fd),
        ],
        ImportRun::Leveling { fd, ext_mem, mip, .. } => seq![
            CudaRelease::DestroyMipmap(mip),
            CudaRelease::DestroyExternalMemory(ext_mem),
            CudaRelease::CloseFd(fd),
        ],
        _ => Seq::empty(),
    }
}

/// What a step of an import releases: everything on failure, else nothing.
pub open spec fn import_releases(run: ImportRun, reply: ImportReply) -> Seq<CudaRelease> {
    if import_next(run, reply) matches ImportNext::Done(Err(_)) {
        held_by_run(run)
    } else {
        Seq::empty()
    }
}

/// Taking an image down: mipmap, external memory, descriptor.
pub open spec fn image_releases(image: ExternalDmaBufImage) -> Seq<CudaRelease> {
    let cuda = seq![
        CudaRelease::DestroyMipmap(image.mip),
        CudaRelease::DestroyExternalMemory(image.ext_mem),
    ];
    if image.dup_fd >= 0 {
        cuda.push(CudaRelease::CloseFd(image.dup_fd))
    } else {
        cuda
    }
}

impl ExternalDmaBufImage {
    /// Import a DMA-BUF. The descriptor is checked first; goes on with
    /// [`ExternalDmaBufImage::import_resume`].
    pub fn import(desc: &PrimeDescriptor) -> (next: ImportNext)
        ensures
            next == import_begin(*desc),
    {
        match validate_descriptor(desc) {
            Err(e) => ImportNext::Done(Err(e)),
            Ok(()) => {
                let plan = ImportPlan {
                    fd: desc.objects[0].fd,
                    size: desc.objects[0].size,
                    offset: desc.layers[0].offset[0],
                    width: desc.width,
                    height: desc.height,
                    fourcc: desc.fourcc,
                };
                ImportNext::Call {
                    call: ImportCall::EnsureContext,
                    run: ImportRun::Ensuring { plan },
                }
            },
        }
    }

    /// Go on with an import after a call was answered. A failed CUDA call is
    /// an allocation failure, which clients answer by falling back to their
    /// own buffers.
    pub fn import_resume(run: ImportRun, reply: ImportReply) -> (step: ImportStep)
        ensures
            step.next == import_next(run, reply),
            step.releases@ == import_releases(run, reply),
    {
        let mut releases: Vec<CudaRelease> = Vec::new();
        let next = match run {
            ImportRun::Ensuring { plan } => match reply {
                ImportReply::Done => ImportNext::Call {
                    call: ImportCall::BindContext,
                    run: ImportRun::Binding { plan },
                },
                _ => ImportNext::Done(Err(DriverError::AllocFailed)),
            },
            ImportRun::Binding { plan } => match reply {
                ImportReply::Done => ImportNext::Call {
                    call: ImportCall::DupFd { fd: plan.fd },
                    run: ImportRun::Duplicating { plan },
                },
                _ => ImportNext::Done(Err(DriverError::AllocFailed)),
            },
            ImportRun::Duplicating { plan } => match reply {
                ImportReply::Fd(fd) if fd >= 0 => ImportNext::Call {
                    call: ImportCall::ImportMemory { fd, size: plan.size as u64 },
                    run: ImportRun::Importing { plan, fd },
                },
                _ => ImportNext::Done(Err(DriverError::OperationFailed("fcntl(F_DUPFD_CLOEXEC)"))),
            },
            ImportRun::Importing { plan, fd } => match reply {
                ImportReply::Handle(ext_mem) if ext_mem != 0 => {
                    let rows: u64 = plan.height as u64 + (plan.height / 2) as u64;
                    let desc = MipmapDesc {
                        offset: plan.offset as u64,
                        width: plan.width as u64,
                        height: rows,
                        num_channels: 1,
                        num_levels: 1,
                    };
                    ImportNext::Call {
                        call: ImportCall::MapMipmap { ext_mem, desc },
                        run: ImportRun::Mapping { plan, fd, ext_mem },
                    }
                },
                _ => {
                    releases.push(CudaRelease::CloseFd(fd));
                    ImportNext::Done(Err(DriverError::AllocFailed))
                },
            },
            ImportRun::Mapping { plan, fd, ext_mem } => match reply {
                ImportReply::Handle(mip) if mip != 0 => ImportNext::Call {
                    call: ImportCall::GetLevel { mip },
                    run: ImportRun::Leveling { plan, fd, ext_mem, mip },
                },
                _ => {
                    releases.push(CudaRelease::DestroyExternalMemory(ext_mem));
                    releases.push(CudaRelease::CloseFd(fd));
                    ImportNext::Done(Err(DriverError::AllocFailed))
                },
            },
            ImportRun::Leveling { plan, fd, ext_mem, mip } => match reply {
                ImportReply::Handle(plane0) if plane0 != 0 => {
                    let image = ExternalDmaBufImage {
                        ext_mem,
                        mip,
                        plane0,
                        plane1: None,
                        width: plan.width,
                        height: plan.height,
                        fourcc: plan.fourcc,
                        dup_fd: fd,
                    };
                    ImportNext::Done(Ok(image))
                },
                _ => {
                    releases.push(CudaRelease::DestroyMipmap(mip));
                    releases.push(CudaRelease::DestroyExternalMemory(ext_mem));
                    releases.push(CudaRelease::CloseFd(fd));
                    ImportNext::Done(Err(DriverError::AllocFailed))
                },
            },
        };
        ImportStep { releases, next }
    }

    /// Take the image down.
    pub fn releases(&self) -> (releases: Vec<CudaRelease>)
        ensures
            releases@ == image_releases(*self),
    {
        let mut releases: Vec<CudaRelease> = Vec::new();
        releases.push(CudaRelease::DestroyMipmap(self.mip));
        releases.push(CudaRelease::DestroyExternalMemory(self.ext_mem));
        if self.dup_fd >= 0 {
            releases.push(CudaRelease::CloseFd(self.dup_fd));
        }
        releases
    }
}

// ---------------------------------------------------------------------------
// Laws
// ---------------------------------------------------------------------------

/// What a call acquired, if its answer is a success.
pub open spec fn acquired(run: ImportRun, reply: ImportReply) -> Seq<CudaRelease> {
    match (run, reply) {
        (ImportRun::Duplicating { .. }, ImportReply::Fd(fd)) if fd >= 0 => seq![
            CudaRelease::CloseFd(fd),
        ],
        (ImportRun::Importing { .. }, ImportReply::Handle(h)) if h != 0 => seq![
            CudaRelease::DestroyExternalMemory(h),
        ],
        (ImportRun::Mapping { .. }, ImportReply::Handle(h)) if h != 0 => seq![
            CudaRelease::DestroyMipmap(h),
        ],
        _ => Seq::empty(),
    }
}

/// Nothing leaks and nothing is given back out of order: what was acquired
/// last is first in the list of what is held; a failure gives everything back,
/// and a success hands it to the image, whose teardown gives it back.
pub proof fn law_import_gives_back_in_reverse(run: ImportRun, reply: ImportReply)
    ensures
        match import_next(run, reply) {
            ImportNext::Call { run: next, .. } => import_releases(run, reply).len() == 0
                && held_by_run(next) == acquired(run, reply) + held_by_run(run),
            ImportNext::Done(Ok(image)) => import_releases(run, reply).len() == 0
                && run is Leveling && image.dup_fd == run->Leveling_fd && (image.dup_fd >= 0
                ==> image_releases(image) == held_by_run(run)),
            ImportNext::Done(Err(_)) => import_releases(run, reply) == held_by_run(run),
        },
{
    if let ImportNext::Call { run: next, .. } = import_next(run, reply) {
        assert(held_by_run(next) =~= acquired(run, reply) + held_by_run(run));
    }
    if let ImportNext::Done(Ok(image)) = import_next(run, reply) {
        if image.dup_fd >= 0 {
            assert(image_releases(image) =~= held_by_run(run));
        }
    }
}

/// The array over an NV12 surface has three rows for every two of the picture,
/// rounded down.
pub proof fn law_mipmap_covers_nv12(plan: ImportPlan)
    ensures
        mipmap_of(plan).height == plan.height + plan.height / 2,
        mipmap_of(plan).height == (3 * plan.height) / 2,
        mipmap_of(plan).width == plan.width,
{
}

/// An import refuses a descriptor exactly as its validation does, and touches
/// nothing in that case.
pub proof fn law_import_validates_first(desc: PrimeDescriptor)
    ensures
        match descriptor_error(desc) {
            Some(e) => import_begin(desc) == ImportNext::Done(Err(e)),
            None => import_begin(desc) is Call,
        },
{
}

/// After validation an import fails only in two ways: the descriptor could not
/// be duplicated, or a CUDA call failed.
pub proof fn law_import_failures_are_retriable(run: ImportRun, reply: ImportReply)
    ensures
        import_next(run, reply) matches ImportNext::Done(Err(e)) ==> if run is Duplicating {
            e is OperationFailed
        } else {
            e == DriverError::AllocFailed
        },
{
}

/// The descriptor of a run: what the import takes from it stays the same from
/// step to step.
pub open spec fn run_plan(run: ImportRun) -> ImportPlan {
    match run {
        ImportRun::Ensuring { plan } => plan,
        ImportRun::Binding { plan } => plan,
        ImportRun::Duplicating { plan } => plan,
        ImportRun::Importing { plan, .. } => plan,
        ImportRun::Mapping { plan, .. } => plan,
        ImportRun::Leveling { plan, .. } => plan,
    }
}

/// A descriptor is refused for one of four reasons, in this order: an empty
/// count or side, a picture that is not NV12, more than one object, an object
/// without a file or a size.
pub proof fn law_descriptors_are_checked_in_order(desc: PrimeDescriptor)
    ensures
        ({
            let e = descriptor_error(desc);
            let counted = desc.num_objects > 0 && desc.num_layers > 0 && desc.width > 0
                && desc.height > 0;
            let nv12 = desc.fourcc == 0x3231_564E;
            let backed = desc.objects@[0].fd >= 0 && desc.objects@[0].size > 0;
            &&& !counted ==> e == Some(DriverError::InvalidParameter)
            &&& counted && !nv12 ==> e == Some(DriverError::UnsupportedRtFormat)
            &&& counted && nv12 && desc.num_objects > 1 ==> e == Some(
                DriverError::UnsupportedMemory,
            )
            &&& counted && nv12 && desc.num_objects == 1 && !backed ==> e == Some(
                DriverError::InvalidParameter,
            )
            &&& counted && nv12 && desc.num_objects == 1 && backed ==> e is None
        }),
{
}

/// An import is of the picture that the client describes: its file and size, the
/// offset of its first plane, and its sides, from the descriptor to the last
/// step.
pub proof fn law_import_is_of_the_described_picture(
    desc: PrimeDescriptor,
    run: ImportRun,
    reply: ImportReply,
)
    ensures
        import_begin(desc) matches ImportNext::Call { run: first, .. } ==> {
            let plan = run_plan(first);
            &&& plan.fd == desc.objects@[0].fd
            &&& plan.size == desc.objects@[0].size
            &&& plan.offset == desc.layers@[0].offset@[0]
            &&& plan.width == desc.width
            &&& plan.height == desc.height
            &&& plan.fourcc == desc.fourcc
        },
        import_next(run, reply) matches ImportNext::Call { run: next, .. } ==> run_plan(next)
            == run_plan(run),
        import_next(run, reply) matches ImportNext::Done(Ok(image)) ==> {
            &&& image.width == run_plan(run).width
            &&& image.height == run_plan(run).height
            &&& image.fourcc == run_plan(run).fourcc
            &&& reply == ImportReply::Handle(image.plane0)
            &&& image.plane1 is None
            &&& run matches ImportRun::Leveling { fd, ext_mem, mip, .. } && image.dup_fd == fd
                && image.ext_mem == ext_mem && image.mip == mip
        },
{
}

/// An import goes through its calls in order, each on what the one before gave:
/// the client's file is duplicated, the duplicate imported with the client's
/// size, the memory mapped at the client's offset, and level 0 of the map taken.
pub proof fn law_import_works_on_what_it_got(run: ImportRun, reply: ImportReply)
    ensures
        import_next(run, reply) matches ImportNext::Call { call, .. } ==> match call {
            ImportCall::EnsureContext => false,
            ImportCall::BindContext => run is Ensuring && reply is Done,
            ImportCall::DupFd { fd } => run is Binding && reply is Done && fd == run_plan(run).fd,
            ImportCall::ImportMemory { fd, size } => run is Duplicating && reply
                == ImportReply::Fd(fd) && fd >= 0 && size == run_plan(run).size,
            ImportCall::MapMipmap { ext_mem, desc } => {
                &&& run is Importing
                &&& reply == ImportReply::Handle(ext_mem)
                &&& ext_mem != 0
                &&& desc.offset == run_plan(run).offset
                &&& desc.width == run_plan(run).width
                &&& desc.height == (3 * run_plan(run).height) / 2
                &&& desc.num_channels == 1
                &&& desc.num_levels == 1
            },
            ImportCall::GetLevel { mip } => run is Mapping && reply == ImportReply::Handle(mip)
                && mip != 0,
        },
        reply is Failed ==> (import_next(run, reply) matches ImportNext::Done(Err(_))),
{
}

} // verus!
