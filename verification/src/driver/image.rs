//! Images and subpictures.
//!
//! NV12 is the only image format. An image is a host buffer: the luma plane,
//! then the interleaved chroma plane at the same pitch. An image derived from
//! a surface uploads its pixels to that surface when its buffer is unmapped;
//! `vaPutImage` uploads an image to any surface of its size. Uploading binds
//! the CUDA context and makes two pitched copies. The other entries exist
//! because libva insists on them.

use crate::driver::buffer::{reserve_bytes, zeros_in};
use crate::driver::state::{
    storage_bytes, BufferRec, BufferStorage, BufferView, ImageRec, ImageView, Pools, PoolsView,
    StorageView, SurfaceKind,
};
use crate::driver::surface::device_surface;
use crate::error::{DriverError, DriverResult};
use crate::ids::{find_id, gained, key_to_id, lost, BufferKey, ContainsKey, SurfaceKey};
use crate::va;
use vstd::prelude::*;

verus! {

// ---------------------------------------------------------------------------
// Uploading
// ---------------------------------------------------------------------------

/// A pitched copy from host to device, `cuMemcpy2D_v2`. The source is given as
/// an offset into the bytes of a buffer.
#[derive(Debug, Clone, Copy, PartialEq, Eq, Structural)]
pub struct CopyPlan {
    pub src_offset: u64,
    pub src_pitch: u64,
    pub dst_device: u64,
    pub dst_pitch: u64,
    pub width_in_bytes: u64,
    pub height: u64,
}

/// An image that is being uploaded.
#[derive(Debug, Clone, Copy, PartialEq, Eq, Structural)]
pub struct UploadJob {
    /// The buffer that holds the pixels.
    pub buffer: BufferKey,
    pub cu_ptr: u64,
    pub surface_pitch: u32,
    pub width: u32,
    pub height: u32,
    pub luma_pitch: u32,
    pub chroma_pitch: u32,
    pub chroma_offset: u32,
}

/// A call that an upload needs.
#[derive(Debug, Clone, Copy, PartialEq, Eq, Structural)]
pub enum UploadCall {
    /// Make the CUDA context current on this thread.
    BindContext,
    /// Copy from the bytes of a buffer.
    Copy { buffer: BufferKey, plan: CopyPlan },
}

/// Where an upload stands while a call is out.
#[derive(Debug, Clone, Copy, PartialEq, Eq, Structural)]
pub enum UploadRun {
    Binding { job: UploadJob },
    Luma { job: UploadJob },
    Chroma { job: UploadJob },
}

/// How an upload goes on.
#[derive(Debug, Clone, Copy)]
pub enum UploadNext {
    Call { call: UploadCall, run: UploadRun },
    Done(Result<(), DriverError>),
}

/// The job of an image and a surface.
pub open spec fn upload_job(
    image: ImageView,
    cu_ptr: u64,
    surface_pitch: u32,
    width: u32,
    height: u32,
) -> UploadJob {
    UploadJob {
        buffer: image.buffer_key,
        cu_ptr,
        surface_pitch,
        width,
        height,
        luma_pitch: image.pitches[0],
        chroma_pitch: image.pitches[1],
        chroma_offset: image.offsets[1],
    }
}

/// The first step of an upload. A surface that is not in device memory is
/// passed over.
pub open spec fn upload_begin(p: PoolsView, image: ImageView, surface: SurfaceKey) -> UploadNext {
    if !p.surfaces.contains_key(surface) {
        UploadNext::Done(Err(DriverError::InvalidSurface))
    } else {
        match p.surfaces[surface].kind {
            SurfaceKind::Internal { cu_ptr, pitch, width, height } => if image.width != width
                || image.height != height {
                UploadNext::Done(Err(DriverError::InvalidParameter))
            } else if !p.surfaces[surface].has_cuda_ctx {
                UploadNext::Done(Err(DriverError::OperationFailed("surface has no CUDA context")))
            } else if !p.buffers.contains_key(image.buffer_key) {
                UploadNext::Done(Err(DriverError::InvalidBuffer))
            } else if storage_bytes(p.buffers[image.buffer_key].storage).len() < image.data_size {
                UploadNext::Done(Err(DriverError::InvalidParameter))
            } else {
                UploadNext::Call {
                    call: UploadCall::BindContext,
                    run: UploadRun::Binding {
                        job: upload_job(image, cu_ptr, pitch, width, height),
                    },
                }
            },
            _ => UploadNext::Done(Ok(())),
        }
    }
}

/// The copy of the luma plane.
pub open spec fn luma_copy(job: UploadJob) -> CopyPlan {
    CopyPlan {
        src_offset: 0,
        src_pitch: job.luma_pitch as u64,
        dst_device: job.cu_ptr,
        dst_pitch: job.surface_pitch as u64,
        width_in_bytes: job.width as u64,
        height: job.height as u64,
    }
}

/// Where the chroma plane begins in the surface: after as many rows as the
/// luma plane has, at the surface's pitch.
pub open spec fn chroma_device(job: UploadJob) -> int {
    job.cu_ptr + job.surface_pitch * job.height
}

/// The copy of the chroma plane, which has half as many rows.
pub open spec fn chroma_copy(job: UploadJob) -> CopyPlan {
    CopyPlan {
        src_offset: job.chroma_offset as u64,
        src_pitch: job.chroma_pitch as u64,
        dst_device: chroma_device(job) as u64,
        dst_pitch: job.surface_pitch as u64,
        width_in_bytes: job.width as u64,
        height: (job.height / 2) as u64,
    }
}

/// The step of an upload after a call was answered.
pub open spec fn upload_next(run: UploadRun, succeeded: bool) -> UploadNext {
    match run {
        UploadRun::Binding { job } => if succeeded {
            UploadNext::Call {
                call: UploadCall::Copy { buffer: job.buffer, plan: luma_copy(job) },
                run: UploadRun::Luma { job },
            }
        } else {
            UploadNext::Done(Err(DriverError::OperationFailed("cuda bind_to_thread")))
        },
        UploadRun::Luma { job } => if !succeeded {
            UploadNext::Done(Err(DriverError::OperationFailed("cuMemcpy2D_v2 Y plane")))
        } else if chroma_device(job) > u64::MAX {
            UploadNext::Done(Err(DriverError::InvalidParameter))
        } else {
            UploadNext::Call {
                call: UploadCall::Copy { buffer: job.buffer, plan: chroma_copy(job) },
                run: UploadRun::Chroma { job },
            }
        },
        UploadRun::Chroma { .. } => if succeeded {
            UploadNext::Done(Ok(()))
        } else {
            UploadNext::Done(Err(DriverError::OperationFailed("cuMemcpy2D_v2 UV plane")))
        },
    }
}

/// The client does not hold the buffer that an upload gets to read. The buffer
/// is read once everything about the surface is in order.
pub open spec fn upload_can_read(p: PoolsView, image: ImageView, surface: SurfaceKey) -> bool {
    upload_begin(p, image, surface) is Call ==> {
        let b = p.buffers[image.buffer_key];
        b.storage is Generic ==> !b.mapped
    }
}

/// Upload an image to a surface of its size. The client must not hold the
/// image's buffer.
pub fn upload_image_to_surface(pools: &Pools, image: &ImageRec, surface_key: SurfaceKey) -> (next:
    UploadNext)
    requires
        pools.wf(),
        upload_can_read(pools@, image@, surface_key),
    ensures
        next == upload_begin(pools@, image@, surface_key),
{
    let srec = match pools.surfaces.get(surface_key) {
        Some(rec) => rec,
        None => return UploadNext::Done(Err(DriverError::InvalidSurface)),
    };
    if let SurfaceKind::Internal { cu_ptr, pitch, width, height } = srec.kind {
        if image.width != width || image.height != height {
            return UploadNext::Done(Err(DriverError::InvalidParameter));
        }
        if !srec.has_cuda_ctx {
            return UploadNext::Done(
                Err(DriverError::OperationFailed("surface has no CUDA context")),
            );
        }
        let brec = match pools.buffers.get(image.buffer_key) {
            Some(rec) => rec,
            None => return UploadNext::Done(Err(DriverError::InvalidBuffer)),
        };
        if (brec.storage.bytes().len() as u64) < image.data_size as u64 {
            return UploadNext::Done(Err(DriverError::InvalidParameter));
        }
        let job = UploadJob {
            buffer: image.buffer_key,
            cu_ptr,
            surface_pitch: pitch,
            width,
            height,
            luma_pitch: image.pitches[0],
            chroma_pitch: image.pitches[1],
            chroma_offset: image.offsets[1],
        };
        UploadNext::Call { call: UploadCall::BindContext, run: UploadRun::Binding { job } }
    } else {
        UploadNext::Done(Ok(()))
    }
}

/// Where the chroma plane of a pitched NV12 surface begins, in bytes from its
/// start.
pub fn chroma_plane_offset(pitch: u32, height: u32) -> (offset: u64)
    ensures
        offset == pitch * height,
{
    proof {
        let p = pitch as int;
        let h = height as int;
        assert(0 <= p * h <= u64::MAX) by (nonlinear_arith)
            requires
                0 <= p <= u32::MAX,
                0 <= h <= u32::MAX,
        ;
    }
    (pitch as u64) * (height as u64)
}

/// Go on with an upload after a call was answered.
pub fn upload_resume(run: UploadRun, succeeded: bool) -> (next: UploadNext)
    ensures
        next == upload_next(run, succeeded),
{
    match run {
        UploadRun::Binding { job } => {
            if !succeeded {
                return UploadNext::Done(Err(DriverError::OperationFailed("cuda bind_to_thread")));
            }
            let plan = CopyPlan {
                src_offset: 0,
                src_pitch: job.luma_pitch as u64,
                dst_device: job.cu_ptr,
                dst_pitch: job.surface_pitch as u64,
                width_in_bytes: job.width as u64,
                height: job.height as u64,
            };
            UploadNext::Call {
                call: UploadCall::Copy { buffer: job.buffer, plan },
                run: UploadRun::Luma { job },
            }
        },
        UploadRun::Luma { job } => {
            if !succeeded {
                return UploadNext::Done(Err(DriverError::OperationFailed("cuMemcpy2D_v2 Y plane")));
            }
            let offset: u64 = chroma_plane_offset(job.surface_pitch, job.height);
            let dst_device: u64 = match job.cu_ptr.checked_add(offset) {
                Some(dst) => dst,
                None => return UploadNext::Done(Err(DriverError::InvalidParameter)),
            };
            let plan = CopyPlan {
                src_offset: job.chroma_offset as u64,
                src_pitch: job.chroma_pitch as u64,
                dst_device,
                dst_pitch: job.surface_pitch as u64,
                width_in_bytes: job.width as u64,
                height: (job.height / 2) as u64,
            };
            UploadNext::Call {
                call: UploadCall::Copy { buffer: job.buffer, plan },
                run: UploadRun::Chroma { job },
            }
        },
        UploadRun::Chroma { .. } => {
            if succeeded {
                UploadNext::Done(Ok(()))
            } else {
                UploadNext::Done(Err(DriverError::OperationFailed("cuMemcpy2D_v2 UV plane")))
            }
        },
    }
}

// ---------------------------------------------------------------------------
// Allocating images
// ---------------------------------------------------------------------------

/// The planes of an NV12 picture in one block.
#[derive(Debug, Clone, Copy, PartialEq, Eq, Structural)]
pub struct Nv12Layout {
    pub y_size: usize,
    pub uv_size: usize,
    pub total: usize,
}

/// Size of the luma plane: one row of `pitch` bytes per line.
pub open spec fn luma_size(pitch: u32, height: u32) -> int {
    pitch * height
}

/// Size of the chroma plane: half as many rows.
pub open spec fn chroma_size(pitch: u32, height: u32) -> int {
    pitch * (height / 2)
}

/// Size of both planes.
pub open spec fn nv12_size(pitch: u32, height: u32) -> int {
    luma_size(pitch, height) + chroma_size(pitch, height)
}

/// The sizes of the planes, if they can be.
pub fn nv12_layout(pitch: u32, height: u32) -> (layout: Option<Nv12Layout>)
    ensures
        match layout {
            Some(l) => l.y_size == luma_size(pitch, height) && l.uv_size == chroma_size(
                pitch,
                height,
            ) && l.total == nv12_size(pitch, height),
            None => nv12_size(pitch, height) > usize::MAX,
        },
{
    proof {
        let p = pitch as int;
        let h = height as int;
        let c = (height / 2) as int;
        assert(p * h >= 0 && p * c >= 0) by (nonlinear_arith)
            requires
                p >= 0,
                h >= 0,
                c >= 0,
        ;
    }
    let y_size: usize = match (pitch as usize).checked_mul(height as usize) {
        Some(n) => n,
        None => return None,
    };
    let uv_size: usize = match (pitch as usize).checked_mul((height / 2) as usize) {
        Some(n) => n,
        None => return None,
    };
    let total: usize = match y_size.checked_add(uv_size) {
        Some(n) => n,
        None => return None,
    };
    Some(Nv12Layout { y_size, uv_size, total })
}

/// `VAImage`, with its format.
#[derive(Debug, Clone, Copy)]
pub struct VaImage {
    pub image_id: u32,
    pub fourcc: u32,
    pub byte_order: u32,
    pub bits_per_pixel: u32,
    pub buf: u32,
    pub width: u16,
    pub height: u16,
    pub data_size: u32,
    pub num_planes: u32,
    pub pitches: [u32; 3],
    pub offsets: [u32; 3],
}

/// The buffer of a new image: zeros, one element. The element size is the low
/// half of the real one where that is too long.
pub open spec fn image_buffer(pitch: u32, height: u32) -> BufferView {
    BufferView {
        buf_type: va::VA_IMAGE_BUFFER_TYPE,
        element_size: nv12_size(pitch, height) as u32,
        num_elements: 1,
        storage: StorageView::Generic(
            Seq::new(nv12_size(pitch, height) as nat, |i: int| 0u8),
        ),
        coded_ready: false,
        mapped: false,
    }
}

/// The record of a new image.
pub open spec fn new_image(
    surface_key: Option<SurfaceKey>,
    width: u32,
    height: u32,
    pitch: u32,
    buffer_key: BufferKey,
) -> ImageView {
    ImageView {
        surface_key,
        fourcc: va::VA_FOURCC_NV12,
        width,
        height,
        pitches: seq![pitch, pitch, 0],
        offsets: seq![0, luma_size(pitch, height) as u32, 0],
        data_size: nv12_size(pitch, height) as u32,
        buffer_key,
    }
}

/// A buffer and an image over it were stored under these IDs, and nothing else
/// changed.
pub open spec fn image_stored(
    before: Pools,
    after: Pools,
    surface_key: Option<SurfaceKey>,
    width: u32,
    height: u32,
    pitch: u32,
    buf: u32,
    image_id: u32,
) -> bool {
    &&& gained(before.buffers, after.buffers, buf, image_buffer(pitch, height))
    &&& gained(
        before.images,
        after.images,
        image_id,
        new_image(surface_key, width, height, pitch, find_id(after.buffers@, buf)->Some_0),
    )
    &&& after.configs == before.configs
    &&& after.surfaces == before.surfaces
    &&& after.contexts == before.contexts
}

/// What a client is told of a new image.
pub open spec fn describes(
    image: VaImage,
    width: u32,
    height: u32,
    pitch: u32,
    buf: u32,
    image_id: u32,
) -> bool {
    &&& image.image_id == image_id
    &&& image.buf == buf
    &&& image.fourcc == va::VA_FOURCC_NV12
    &&& image.byte_order == va::VA_LSB_FIRST
    &&& image.bits_per_pixel == 12
    &&& image.width == width
    &&& image.height == height
    &&& image.data_size == nv12_size(pitch, height) as u32
    &&& image.num_planes == 2
    &&& image.pitches@ == seq![pitch, pitch, 0]
    &&& image.offsets@ == seq![0, luma_size(pitch, height) as u32, 0]
}

/// The outcome of allocating an image, by whether memory for it was had. A
/// picture too large for the 16-bit fields of a `VAImage` is reported only
/// after buffer and image were stored; both stay.
pub open spec fn image_allocated(
    before: Pools,
    after: Pools,
    surface_key: Option<SurfaceKey>,
    width: u32,
    height: u32,
    pitch: u32,
    has_memory: bool,
    r: DriverResult<VaImage>,
) -> bool {
    if nv12_size(pitch, height) > usize::MAX {
        after == before && (r matches Err(e) && e == DriverError::InvalidParameter)
    } else if !has_memory {
        after == before && (r matches Err(e) && e == DriverError::AllocFailed)
    } else {
        exists|buf: u32, image_id: u32| #[trigger]
            image_stored(
                before,
                after,
                surface_key,
                width,
                height,
                pitch,
                buf,
                image_id,
            ) && if width <= u16::MAX && height <= u16::MAX {
                r matches Ok(image) && describes(image, width, height, pitch, buf, image_id)
            } else {
                r matches Err(e) && e == DriverError::InvalidParameter
            }
    }
}

/// The outcome of allocating an image where the allocator decides whether
/// there is memory. An image without bytes needs none.
pub open spec fn image_attempted(
    before: Pools,
    after: Pools,
    surface_key: Option<SurfaceKey>,
    width: u32,
    height: u32,
    pitch: u32,
    r: DriverResult<VaImage>,
) -> bool {
    ||| image_allocated(before, after, surface_key, width, height, pitch, true, r)
    ||| nv12_size(pitch, height) > 0 && image_allocated(
        before,
        after,
        surface_key,
        width,
        height,
        pitch,
        false,
        r,
    )
}

/// Allocate an NV12 image in the memory that could be reserved for it, if any.
pub fn alloc_host_image_in(
    pools: &mut Pools,
    surface_key: Option<SurfaceKey>,
    width: u32,
    height: u32,
    pitch: u32,
    room: Option<Vec<u8>>,
) -> (r: DriverResult<VaImage>)
    requires
        old(pools).wf(),
        old(pools).buffers.has_room(),
        old(pools).images.has_room(),
        room matches Some(v) ==> v@.len() == 0,
    ensures
        final(pools).wf(),
        image_allocated(
            *old(pools),
            *final(pools),
            surface_key,
            width,
            height,
            pitch,
            room is Some,
            r,
        ),
{
    let layout = match nv12_layout(pitch, height) {
        Some(l) => l,
        None => return Err(DriverError::InvalidParameter),
    };
    let room: Vec<u8> = match room {
        Some(room) => room,
        None => return Err(DriverError::AllocFailed),
    };
    let total: usize = layout.total;
    let data_size: u32 = total as u32;
    let chroma_offset: u32 = layout.y_size as u32;
    let bytes = zeros_in(room, total);
    let brec = BufferRec {
        buf_type: va::VA_IMAGE_BUFFER_TYPE,
        element_size: data_size,
        num_elements: 1,
        storage: BufferStorage::Generic(bytes),
        coded_ready: false,
        mapped: false,
    };
    let ghost before = *pools;
    let buffer_key = pools.buffers.insert(brec);
    let buf: u32 = key_to_id(buffer_key);
    proof {
        pools.buffers.lemma_pool();
        assert(pools.buffers@.contains_key(buffer_key));
        assert(gained(before.buffers, pools.buffers, buf, image_buffer(pitch, height)));
    }
    let irec = ImageRec {
        surface_key,
        fourcc: va::VA_FOURCC_NV12,
        width,
        height,
        pitches: [pitch, pitch, 0],
        offsets: [0, chroma_offset, 0],
        data_size,
        buffer_key,
    };
    proof {
        assert(irec@ =~= new_image(surface_key, width, height, pitch, buffer_key));
    }
    let image_id: u32 = pools.images.insert_id(irec);
    proof {
        assert(image_stored(
            before,
            *pools,
            surface_key,
            width,
            height,
            pitch,
            buf,
            image_id,
        ));
    }
    if width > u16::MAX as u32 || height > u16::MAX as u32 {
        return Err(DriverError::InvalidParameter);
    }
    let image = VaImage {
        image_id,
        fourcc: va::VA_FOURCC_NV12,
        byte_order: va::VA_LSB_FIRST,
        bits_per_pixel: 12,
        buf,
        width: width as u16,
        height: height as u16,
        data_size,
        num_planes: 2,
        pitches: [pitch, pitch, 0],
        offsets: [0, chroma_offset, 0],
    };
    proof {
        assert(image.pitches@ =~= seq![pitch, pitch, 0]);
        assert(image.offsets@ =~= seq![0, luma_size(pitch, height) as u32, 0]);
        assert(describes(image, width, height, pitch, buf, image_id));
    }
    Ok(image)
}

/// Allocate an NV12 image of zeros with a given pitch. Whether the memory can
/// be reserved is up to the allocator.
fn alloc_host_image(
    pools: &mut Pools,
    surface_key: Option<SurfaceKey>,
    width: u32,
    height: u32,
    pitch: u32,
) -> (r: DriverResult<VaImage>)
    requires
        old(pools).wf(),
        old(pools).buffers.has_room(),
        old(pools).images.has_room(),
    ensures
        final(pools).wf(),
        image_attempted(*old(pools), *final(pools), surface_key, width, height, pitch, r),
{
    let layout = match nv12_layout(pitch, height) {
        Some(l) => l,
        None => return Err(DriverError::InvalidParameter),
    };
    let mut room: Vec<u8> = Vec::new();
    let room = if reserve_bytes(&mut room, layout.total) {
        Some(room)
    } else {
        None
    };
    alloc_host_image_in(pools, surface_key, width, height, pitch, room)
}

// ---------------------------------------------------------------------------
// vaQueryImageFormats, vaCreateImage, vaDeriveImage, vaDestroyImage, vaPutImage
// ---------------------------------------------------------------------------

/// `VAImageFormat`, as far as the driver fills it.
#[derive(Debug, Clone, Copy, PartialEq, Eq, Structural)]
pub struct ImageFormat {
    pub fourcc: u32,
    pub byte_order: u32,
    pub bits_per_pixel: u32,
}

/// NV12, the one format there is.
pub open spec fn nv12_format() -> ImageFormat {
    ImageFormat { fourcc: va::VA_FOURCC_NV12, byte_order: va::VA_LSB_FIRST, bits_per_pixel: 12 }
}

/// The image formats of the driver, where there is a place for their number.
pub fn query_image_formats(has_count: bool) -> (r: DriverResult<Vec<ImageFormat>>)
    ensures
        if has_count {
            r matches Ok(formats) && formats@ == seq![nv12_format()]
        } else {
            r matches Err(e) && e == DriverError::InvalidParameter
        },
{
    if !has_count {
        return Err(DriverError::InvalidParameter);
    }
    let mut formats: Vec<ImageFormat> = Vec::new();
    formats.push(
        ImageFormat { fourcc: va::VA_FOURCC_NV12, byte_order: va::VA_LSB_FIRST, bits_per_pixel: 12 },
    );
    proof {
        assert(formats@ =~= seq![nv12_format()]);
    }
    Ok(formats)
}

/// Create an image that belongs to no surface, with tightly packed rows.
/// `fourcc` is that of the format, if the client passed one.
pub fn create_image(
    pools: &mut Pools,
    fourcc: Option<u32>,
    width: i32,
    height: i32,
    has_out: bool,
) -> (r: DriverResult<VaImage>)
    requires
        old(pools).wf(),
        old(pools).buffers.has_room(),
        old(pools).images.has_room(),
    ensures
        final(pools).wf(),
        if !has_out || fourcc is None || width <= 0 || height <= 0 {
            *final(pools) == *old(pools) && (r matches Err(e) && e == DriverError::InvalidParameter)
        } else if fourcc != Some(va::VA_FOURCC_NV12) {
            *final(pools) == *old(pools) && (r matches Err(e) && e
                == DriverError::UnsupportedBufferType)
        } else {
            image_attempted(
                *old(pools),
                *final(pools),
                None,
                width as u32,
                height as u32,
                width as u32,
                r,
            )
        },
{
    if !has_out || width <= 0 || height <= 0 {
        return Err(DriverError::InvalidParameter);
    }
    match fourcc {
        None => return Err(DriverError::InvalidParameter),
        Some(code) => {
            if code != va::VA_FOURCC_NV12 {
                return Err(DriverError::UnsupportedBufferType);
            }
        },
    }
    let w: u32 = width as u32;
    let h: u32 = height as u32;
    alloc_host_image(pools, None, w, h, w)
}

/// The pitch of an image derived from a surface: that of the surface's device
/// memory, or its width where there is none.
pub open spec fn derived_pitch(kind: SurfaceKind, width: u32) -> u32 {
    match kind {
        SurfaceKind::Internal { pitch, .. } => pitch,
        _ => width,
    }
}

/// Create an image of a surface's size and pitch, bound to that surface.
pub fn derive_image(pools: &mut Pools, surface: u32, has_out: bool) -> (r: DriverResult<VaImage>)
    requires
        old(pools).wf(),
        old(pools).buffers.has_room(),
        old(pools).images.has_room(),
    ensures
        final(pools).wf(),
        match find_id(old(pools).surfaces@, surface) {
            _ if !has_out => *final(pools) == *old(pools) && (r matches Err(e) && e
                == DriverError::InvalidParameter),
            None => *final(pools) == *old(pools) && (r matches Err(e) && e
                == DriverError::InvalidSurface),
            Some(sk) => {
                let s = old(pools).surfaces@[sk];
                if s.format != va::VA_RT_FORMAT_YUV420 {
                    *final(pools) == *old(pools) && (r matches Err(e) && e
                        == DriverError::UnsupportedRtFormat)
                } else {
                    image_attempted(
                        *old(pools),
                        *final(pools),
                        Some(sk),
                        s.width,
                        s.height,
                        derived_pitch(s.kind, s.width),
                        r,
                    )
                }
            },
        },
{
    if !has_out {
        return Err(DriverError::InvalidParameter);
    }
    let sk = match pools.surfaces.find_by_low_bits(surface) {
        Some(k) => k,
        None => return Err(DriverError::InvalidSurface),
    };
    let (format, width, height, pitch): (u32, u32, u32, u32) = match pools.surfaces.get(sk) {
        Some(rec) => {
            let pitch: u32 = match rec.kind {
                SurfaceKind::Internal { pitch, .. } => pitch,
                _ => rec.width,
            };
            (rec.format, rec.width, rec.height, pitch)
        },
        None => return Err(DriverError::InvalidSurface),
    };
    if format != va::VA_RT_FORMAT_YUV420 {
        return Err(DriverError::UnsupportedRtFormat);
    }
    alloc_host_image(pools, Some(sk), width, height, pitch)
}

/// Destroy an image, and its buffer if the client has not done so.
pub fn destroy_image(pools: &mut Pools, image_id: u32) -> (r: DriverResult<()>)
    requires
        old(pools).wf(),
    ensures
        final(pools).wf(),
        match find_id(old(pools).images@, image_id) {
            None => *final(pools) == *old(pools) && r == Err::<(), DriverError>(
                DriverError::InvalidImage,
            ),
            Some(ik) => {
                let bk = old(pools).images@[ik].buffer_key;
                &&& r is Ok
                &&& lost(old(pools).images, final(pools).images, ik)
                &&& if old(pools).buffers@.contains_key(bk) {
                    lost(old(pools).buffers, final(pools).buffers, bk)
                } else {
                    final(pools).buffers == old(pools).buffers
                }
                &&& final(pools).configs == old(pools).configs
                &&& final(pools).surfaces == old(pools).surfaces
                &&& final(pools).contexts == old(pools).contexts
            },
        },
{
    match pools.images.remove_id(image_id) {
        None => Err(DriverError::InvalidImage),
        Some(rec) => {
            let _ = pools.buffers.remove(rec.buffer_key);
            Ok(())
        },
    }
}

/// A rectangle that `vaPutImage` copies from or to.
#[derive(Debug, Clone, Copy, PartialEq, Eq, Structural)]
pub struct Rect {
    pub x: i32,
    pub y: i32,
    pub width: u32,
    pub height: u32,
}

/// Whether a rectangle is the whole of a picture.
pub open spec fn is_whole(rect: Rect, width: u32, height: u32) -> bool {
    rect == Rect { x: 0, y: 0, width, height }
}

/// How putting an image goes on. Only whole pictures can be put.
pub open spec fn put_next(
    p: PoolsView,
    surface: u32,
    image: u32,
    src: Rect,
    dst: Rect,
) -> UploadNext {
    match (find_id(p.images, image), find_id(p.surfaces, surface)) {
        (None, _) => UploadNext::Done(Err(DriverError::InvalidImage)),
        (Some(_), None) => UploadNext::Done(Err(DriverError::InvalidSurface)),
        (Some(ik), Some(sk)) => {
            let i = p.images[ik];
            if is_whole(src, i.width, i.height) && is_whole(dst, i.width, i.height) {
                upload_begin(p, i, sk)
            } else {
                UploadNext::Done(Err(DriverError::Unimplemented))
            }
        },
    }
}

/// The client does not hold the buffer that putting an image gets to read.
pub open spec fn put_can_read(
    p: PoolsView,
    surface: u32,
    image: u32,
    src: Rect,
    dst: Rect,
) -> bool {
    put_next(p, surface, image, src, dst) is Call ==> {
        let b = p.buffers[p.images[find_id(p.images, image)->Some_0].buffer_key];
        b.storage is Generic ==> !b.mapped
    }
}

/// Upload an image to a surface.
pub fn put_image(pools: &Pools, surface: u32, image: u32, src: Rect, dst: Rect) -> (next:
    UploadNext)
    requires
        pools.wf(),
        put_can_read(pools@, surface, image, src, dst),
    ensures
        next == put_next(pools@, surface, image, src, dst),
{
    let ik = match pools.images.find_by_low_bits(image) {
        Some(k) => k,
        None => return UploadNext::Done(Err(DriverError::InvalidImage)),
    };
    let sk = match pools.surfaces.find_by_low_bits(surface) {
        Some(k) => k,
        None => return UploadNext::Done(Err(DriverError::InvalidSurface)),
    };
    let irec = match pools.images.get(ik) {
        Some(rec) => rec,
        None => return UploadNext::Done(Err(DriverError::InvalidImage)),
    };
    if src.x != 0 || src.y != 0 || dst.x != 0 || dst.y != 0 || src.width != irec.width || src.height
        != irec.height || dst.width != irec.width || dst.height != irec.height {
        return UploadNext::Done(Err(DriverError::Unimplemented));
    }
    upload_image_to_surface(pools, irec, sk)
}

// ---------------------------------------------------------------------------
// Entries without an implementation
// ---------------------------------------------------------------------------

/// `vaSetImagePalette`: NV12 has no palette.
pub fn set_image_palette(image: u32) -> (r: DriverResult<()>)
    ensures
        r == Err::<(), DriverError>(DriverError::Unimplemented),
{
    Err(DriverError::Unimplemented)
}

/// `vaGetImage`: encoders do not read back.
pub fn get_image(surface: u32, src: Rect, image: u32) -> (r: DriverResult<()>)
    ensures
        r == Err::<(), DriverError>(DriverError::Unimplemented),
{
    Err(DriverError::Unimplemented)
}

/// `vaQuerySubpictureFormats`: there are none.
pub fn query_subpicture_formats() -> (r: DriverResult<u32>)
    ensures
        r == Ok::<u32, DriverError>(0),
{
    Ok(0)
}

/// `vaCreateSubpicture`.
pub fn create_subpicture(image: u32) -> (r: DriverResult<u32>)
    ensures
        r == Err::<u32, DriverError>(DriverError::Unimplemented),
{
    Err(DriverError::Unimplemented)
}

/// `vaDestroySubpicture`.
pub fn destroy_subpicture(subpicture: u32) -> (r: DriverResult<()>)
    ensures
        r == Err::<(), DriverError>(DriverError::Unimplemented),
{
    Err(DriverError::Unimplemented)
}

/// `vaSetSubpictureImage`.
pub fn set_subpicture_image(subpicture: u32, image: u32) -> (r: DriverResult<()>)
    ensures
        r == Err::<(), DriverError>(DriverError::Unimplemented),
{
    Err(DriverError::Unimplemented)
}

/// `vaSetSubpictureChromakey`.
pub fn set_subpicture_chromakey(subpicture: u32, min: u32, max: u32, mask: u32) -> (r: DriverResult<
    (),
>)
    ensures
        r == Err::<(), DriverError>(DriverError::Unimplemented),
{
    Err(DriverError::Unimplemented)
}

/// `vaSetSubpictureGlobalAlpha`; the alpha value is not looked at.
pub fn set_subpicture_global_alpha(subpicture: u32) -> (r: DriverResult<()>)
    ensures
        r == Err::<(), DriverError>(DriverError::Unimplemented),
{
    Err(DriverError::Unimplemented)
}

/// `vaAssociateSubpicture`.
pub fn associate_subpicture(subpicture: u32, surfaces: &[u32], flags: u32) -> (r: DriverResult<()>)
    ensures
        r == Err::<(), DriverError>(DriverError::Unimplemented),
{
    Err(DriverError::Unimplemented)
}

/// `vaDeassociateSubpicture`.
pub fn deassociate_subpicture(subpicture: u32, surfaces: &[u32]) -> (r: DriverResult<()>)
    ensures
        r == Err::<(), DriverError>(DriverError::Unimplemented),
{
    Err(DriverError::Unimplemented)
}

/// `vaPutSurface`: encoders do not present.
pub fn put_surface(surface: u32, flags: u32) -> (r: DriverResult<()>)
    ensures
        r == Err::<(), DriverError>(DriverError::Unimplemented),
{
    Err(DriverError::Unimplemented)
}

/// `vaLockSurface`.
pub fn lock_surface(surface: u32) -> (r: DriverResult<()>)
    ensures
        r == Err::<(), DriverError>(DriverError::Unimplemented),
{
    Err(DriverError::Unimplemented)
}

/// `vaUnlockSurface`.
pub fn unlock_surface(surface: u32) -> (r: DriverResult<()>)
    ensures
        r == Err::<(), DriverError>(DriverError::Unimplemented),
{
    Err(DriverError::Unimplemented)
}

/// `vaQuerySurfaceError`.
pub fn query_surface_error(surface: u32) -> (r: DriverResult<()>)
    ensures
        r == Err::<(), DriverError>(DriverError::Unimplemented),
{
    Err(DriverError::Unimplemented)
}

// ---------------------------------------------------------------------------
// Laws
// ---------------------------------------------------------------------------

/// An NV12 picture with an even number of lines takes three bytes for every
/// two of its luma plane.
pub proof fn law_nv12_is_three_halves(pitch: u32, height: u32)
    requires
        height % 2 == 0,
    ensures
        2 * nv12_size(pitch, height) == 3 * (pitch * height),
{
    let p = pitch as int;
    let h = height as int;
    let c = (height / 2) as int;
    assert(2 * (p * h + p * c) == 3 * (p * h)) by (nonlinear_arith)
        requires
            h == 2 * c,
    ;
}

/// Every row of a copy lies inside a source of a given length.
pub open spec fn copy_in_bounds(plan: CopyPlan, len: int) -> bool {
    forall|row: int|
        0 <= row < plan.height ==> plan.src_offset + (#[trigger] (row * plan.src_pitch))
            + plan.width_in_bytes <= len
}

/// Uploading a new image reads only its own bytes: every row of both copies
/// lies inside its buffer, provided that the pitch is no less than the width
/// and that the sizes fit their 32-bit fields.
pub proof fn law_upload_reads_in_bounds(
    surface_key: Option<SurfaceKey>,
    width: u32,
    height: u32,
    pitch: u32,
    buffer_key: BufferKey,
    cu_ptr: u64,
    surface_pitch: u32,
)
    requires
        width <= pitch,
        nv12_size(pitch, height) <= u32::MAX,
    ensures
        ({
            let image = new_image(surface_key, width, height, pitch, buffer_key);
            let job = upload_job(image, cu_ptr, surface_pitch, width, height);
            &&& copy_in_bounds(luma_copy(job), nv12_size(pitch, height))
            &&& copy_in_bounds(chroma_copy(job), nv12_size(pitch, height))
            &&& storage_bytes(image_buffer(pitch, height).storage).len() == nv12_size(pitch, height)
            &&& image.data_size == nv12_size(pitch, height)
        }),
{
    let image = new_image(surface_key, width, height, pitch, buffer_key);
    let job = upload_job(image, cu_ptr, surface_pitch, width, height);
    let p = pitch as int;
    let h = height as int;
    let c = (height / 2) as int;
    let w = width as int;
    assert(p * h >= 0 && p * c >= 0) by (nonlinear_arith)
        requires
            p >= 0,
            h >= 0,
            c >= 0,
    ;
    assert forall|row: int| 0 <= row < luma_copy(job).height implies luma_copy(job).src_offset + (
    #[trigger] (row * luma_copy(job).src_pitch)) + luma_copy(job).width_in_bytes <= nv12_size(
        pitch,
        height,
    ) by {
        assert(row * p + w <= p * h) by (nonlinear_arith)
            requires
                0 <= row < h,
                0 <= w <= p,
        ;
    }
    assert forall|row: int| 0 <= row < chroma_copy(job).height implies chroma_copy(job).src_offset
        + (#[trigger] (row * chroma_copy(job).src_pitch)) + chroma_copy(job).width_in_bytes
        <= nv12_size(pitch, height) by {
        assert(row * p + w <= p * c) by (nonlinear_arith)
            requires
                0 <= row < c,
                0 <= w <= p,
        ;
    }
}

/// The chroma plane is written right after the luma plane of the surface, at
/// the surface's pitch and not at the picture's width.
pub proof fn law_chroma_follows_luma(job: UploadJob)
    requires
        chroma_device(job) <= u64::MAX,
    ensures
        chroma_copy(job).dst_device == luma_copy(job).dst_device + job.surface_pitch * job.height,
        chroma_copy(job).dst_pitch == luma_copy(job).dst_pitch,
        chroma_copy(job).height == luma_copy(job).height / 2,
{
    let p = job.surface_pitch as int;
    let h = job.height as int;
    assert(p * h >= 0) by (nonlinear_arith)
        requires
            p >= 0,
            h >= 0,
    ;
}

/// Both planes are copied whole: NV12 rows have as many bytes of chroma as of
/// luma, each plane is read from where it lies in the image at its own pitch,
/// and written at the pitch of the surface, whatever the pitches are.
pub proof fn law_both_planes_are_copied_whole(job: UploadJob)
    ensures
        luma_copy(job).width_in_bytes == job.width,
        chroma_copy(job).width_in_bytes == luma_copy(job).width_in_bytes,
        luma_copy(job).height == job.height,
        2 * chroma_copy(job).height <= job.height < 2 * chroma_copy(job).height + 2,
        luma_copy(job).src_offset == 0,
        chroma_copy(job).src_offset == job.chroma_offset,
        luma_copy(job).src_pitch == job.luma_pitch,
        chroma_copy(job).src_pitch == job.chroma_pitch,
        luma_copy(job).dst_device == job.cu_ptr,
        luma_copy(job).dst_pitch == job.surface_pitch,
        chroma_copy(job).dst_pitch == job.surface_pitch,
{
}

/// An upload is a binding and two copies from one buffer, luma before chroma; a
/// call that fails ends it, and it succeeds only once all three have.
pub proof fn law_upload_copies_luma_then_chroma(job: UploadJob)
    requires
        job.cu_ptr + job.surface_pitch * job.height <= u64::MAX,
    ensures
        upload_next(UploadRun::Binding { job }, true) matches UploadNext::Call {
            call: UploadCall::Copy { buffer, plan },
            run,
        } && buffer == job.buffer && plan == luma_copy(job) && (upload_next(run, true) matches
            UploadNext::Call { call: UploadCall::Copy { buffer, plan }, run: last } && buffer
            == job.buffer && plan == chroma_copy(job) && upload_next(last, true)
            == UploadNext::Done(Ok::<(), DriverError>(())) && (upload_next(last, false) matches
            UploadNext::Done(Err(_)))),
        upload_next(UploadRun::Binding { job }, false) matches UploadNext::Done(Err(_)),
        upload_next(UploadRun::Luma { job }, false) matches UploadNext::Done(Err(_)),
{
}

/// An upload goes from the image to the surface: it takes pitches, chroma offset
/// and buffer of the one, and address, pitch and sides of the other.
pub proof fn law_upload_goes_from_image_to_surface(
    p: PoolsView,
    image: ImageView,
    surface: SurfaceKey,
)
    ensures
        upload_begin(p, image, surface) matches UploadNext::Call { call, run } ==> (call
            == UploadCall::BindContext && (run matches UploadRun::Binding { job } && {
            &&& p.surfaces.contains_key(surface)
            &&& p.surfaces[surface].kind == SurfaceKind::Internal {
                cu_ptr: job.cu_ptr,
                pitch: job.surface_pitch,
                width: job.width,
                height: job.height,
            }
            &&& p.surfaces[surface].has_cuda_ctx
            &&& job.width == image.width
            &&& job.height == image.height
            &&& job.buffer == image.buffer_key
            &&& job.luma_pitch == image.pitches[0]
            &&& job.chroma_pitch == image.pitches[1]
            &&& job.chroma_offset == image.offsets[1]
            &&& p.buffers.contains_key(image.buffer_key)
            &&& storage_bytes(p.buffers[image.buffer_key].storage).len() >= image.data_size
        })),
        !p.surfaces.contains_key(surface) ==> upload_begin(p, image, surface) == UploadNext::Done(
            Err(DriverError::InvalidSurface),
        ),
        p.surfaces.contains_key(surface) && !(p.surfaces[surface].kind is Internal) ==> upload_begin(
            p,
            image,
            surface,
        ) == UploadNext::Done(Ok(())),
        p.surfaces.contains_key(surface) ==> (p.surfaces[surface].kind matches
            SurfaceKind::Internal { width, height, .. } ==> (image.width != width || image.height
            != height ==> upload_begin(p, image, surface) == UploadNext::Done(
            Err(DriverError::InvalidParameter),
        ))),
{
}

/// An image derived from a surface fits it: it has the sides of the surface, and
/// uploading it to that surface is begun, not refused, as long as its buffer is
/// there. Its size must fit the 32-bit field of an image.
pub proof fn law_derived_image_fits_its_surface(
    p: PoolsView,
    surface: SurfaceKey,
    buffer_key: BufferKey,
    format: u32,
    width: u32,
    height: u32,
    cu_ptr: u64,
    pitch: u32,
)
    requires
        p.surfaces.contains_key(surface),
        p.surfaces[surface] == device_surface(format, width, height, cu_ptr, pitch),
        p.buffers.contains_key(buffer_key),
        p.buffers[buffer_key] == image_buffer(pitch, height),
        nv12_size(pitch, height) <= u32::MAX,
    ensures
        ({
            let rec = p.surfaces[surface];
            let image = new_image(
                Some(surface),
                rec.width,
                rec.height,
                derived_pitch(rec.kind, rec.width),
                buffer_key,
            );
            &&& image.width == width
            &&& image.height == height
            &&& image.surface_key == Some(surface)
            &&& image.pitches[0] == pitch
            &&& image.pitches[1] == pitch
            &&& upload_begin(p, image, surface) is Call
        }),
{
    let n = nv12_size(pitch, height);
    let y = pitch as int;
    let h = height as int;
    let c = (height / 2) as int;
    assert(y * h >= 0 && y * c >= 0) by (nonlinear_arith)
        requires
            y >= 0,
            h >= 0,
            c >= 0,
    ;
    assert(n >= 0);
}

/// A new image is an NV12 picture of the request: its sides, rows at the given
/// pitch in both planes, and chroma right behind the last row of luma.
pub proof fn law_image_is_what_was_asked_for(
    surface_key: Option<SurfaceKey>,
    width: u32,
    height: u32,
    pitch: u32,
    buffer_key: BufferKey,
)
    ensures
        ({
            let image = new_image(surface_key, width, height, pitch, buffer_key);
            &&& image.width == width
            &&& image.height == height
            &&& image.surface_key == surface_key
            &&& image.buffer_key == buffer_key
            &&& image.fourcc == 0x3231_564E
            &&& image.pitches.len() == 3 && image.offsets.len() == 3
            &&& image.pitches[0] == pitch && image.pitches[1] == pitch && image.pitches[2] == 0
            &&& image.offsets[0] == 0 && image.offsets[2] == 0
            &&& pitch * height <= u32::MAX ==> image.offsets[1] == pitch * height
            &&& nv12_size(pitch, height) <= u32::MAX ==> image.data_size == nv12_size(pitch, height)
        }),
        nv12_size(pitch, height) == pitch * height + pitch * (height / 2),
        ({
            let b = image_buffer(pitch, height);
            &&& b.buf_type == 9
            &&& b.num_elements == 1
            &&& !b.mapped
            &&& !b.coded_ready
            &&& b.storage matches StorageView::Generic(bytes) && bytes.len() == nv12_size(
                pitch,
                height,
            ) && forall|i: int| 0 <= i < bytes.len() ==> #[trigger] bytes[i] == 0
        }),
{
    let y = pitch as int;
    let h = height as int;
    let c = (height / 2) as int;
    assert(y * h >= 0 && y * c >= 0) by (nonlinear_arith)
        requires
            y >= 0,
            h >= 0,
            c >= 0,
    ;
}

/// What the client is told of an image is what was stored: the IDs name the
/// image and its buffer, and both descriptions agree. A picture whose sides do
/// not fit the client's structure is refused.
pub proof fn law_client_is_told_what_was_stored(
    before: Pools,
    after: Pools,
    surface_key: Option<SurfaceKey>,
    width: u32,
    height: u32,
    pitch: u32,
    image: VaImage,
)
    requires
        image_allocated(before, after, surface_key, width, height, pitch, true, Ok(image)),
    ensures
        image.width == width,
        image.height == height,
        image.fourcc == 0x3231_564E,
        image.byte_order == 1,
        image.bits_per_pixel == 12,
        image.num_planes == 2,
        find_id(after.images@, image.image_id) matches Some(ik) && {
            let rec = after.images@[ik];
            &&& rec.width == image.width
            &&& rec.height == image.height
            &&& rec.surface_key == surface_key
            &&& rec.data_size == image.data_size
            &&& rec.pitches == image.pitches@
            &&& rec.offsets == image.offsets@
            &&& find_id(after.buffers@, image.buf) == Some(rec.buffer_key)
            &&& after.buffers@.contains_key(rec.buffer_key)
            &&& !before.buffers@.contains_key(rec.buffer_key)
            &&& !before.images@.contains_key(ik)
        },
{
}

/// An image that belongs to no surface has tightly packed rows; one derived from
/// a surface in device memory has the rows of that memory.
pub proof fn law_derived_rows_are_those_of_the_surface(kind: SurfaceKind, width: u32)
    ensures
        kind matches SurfaceKind::Internal { pitch, .. } ==> derived_pitch(kind, width) == pitch,
        !(kind is Internal) ==> derived_pitch(kind, width) == width,
{
}

/// Only a whole picture can be put: both rectangles must begin at the corner and
/// have the sides of the image. Unknown images are reported before unknown
/// surfaces.
pub proof fn law_only_whole_pictures_are_put(
    p: PoolsView,
    surface: u32,
    image: u32,
    src: Rect,
    dst: Rect,
)
    ensures
        ({
            let next = put_next(p, surface, image, src, dst);
            match (find_id(p.images, image), find_id(p.surfaces, surface)) {
                (None, _) => next == UploadNext::Done(Err(DriverError::InvalidImage)),
                (Some(_), None) => next == UploadNext::Done(Err(DriverError::InvalidSurface)),
                (Some(ik), Some(sk)) => {
                    let i = p.images[ik];
                    if src.x == 0 && src.y == 0 && dst.x == 0 && dst.y == 0 && src.width == i.width
                        && dst.width == i.width && src.height == i.height && dst.height == i.height {
                        next == upload_begin(p, i, sk)
                    } else {
                        next == UploadNext::Done(Err(DriverError::Unimplemented))
                    }
                },
            }
        }),
        nv12_format().fourcc == 0x3231_564E && nv12_format().byte_order == 1
            && nv12_format().bits_per_pixel == 12,
{
}

} // verus!
