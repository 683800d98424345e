//! Driver state: the records of the five pools.
//!
//! Configs, surfaces, contexts, buffers and images live in [`Pools`]. Records
//! hold plain values; handles of CUDA and NVENC objects are integers.

use crate::cuda::external_mem::{image_releases, CudaRelease, ExternalDmaBufImage};
use crate::cuda::CudaCtx;
use crate::ids::{same_ages, BufferKey, ConfigKey, ContextKey, ImageKey, Pool, SurfaceKey};
use crate::nvenc::session::{session_wf, NvencSession, SessionView};
use crate::rates::all_bytes;
use crate::va;
use crate::va::{VABufferType, VAEntrypoint, VAProfile};
use vstd::prelude::*;

verus! {

// ---------------------------------------------------------------------------
// Configs and surfaces
// ---------------------------------------------------------------------------

/// Configuration record.
#[derive(Debug, Clone, Copy, PartialEq, Eq, Structural)]
pub struct ConfigRec {
    pub profile: VAProfile,
    pub entrypoint: VAEntrypoint,
    pub rt_format: u32,
    pub rc_mode: u32,
    pub packed_headers: u32,
}

impl View for ConfigRec {
    type V = ConfigRec;

    open spec fn view(&self) -> ConfigRec {
        *self
    }
}

/// What backs a surface.
#[derive(Debug, Clone, Copy, PartialEq, Eq, Structural)]
pub enum SurfaceKind {
    /// Pitched device memory that someone else owns.
    CudaDevice { device_ptr: u64, pitch: u32 },
    /// NV12 surface in pitched device memory of the driver's own.
    Internal { cu_ptr: u64, pitch: u32, width: u32, height: u32 },
    /// A DMA-BUF kept by its descriptor alone.
    DmaBuf { fd: i32 },
    /// A DMA-BUF imported into CUDA. `registered_nvenc` is the registration
    /// that the first encode from this surface made.
    ExternalDmaBuf { image: ExternalDmaBufImage, registered_nvenc: Option<u64> },
    /// No backing: the host has no GPU.
    Stub,
}

/// Surface record.
#[derive(Debug, Clone, Copy, PartialEq, Eq, Structural)]
pub struct SurfaceRec {
    pub width: u32,
    pub height: u32,
    /// A `VA_RT_FORMAT_*` bit.
    pub format: u32,
    pub kind: SurfaceKind,
    /// Registered NVENC resource.
    pub registered: Option<u64>,
    /// Whether the surface belongs to the driver's CUDA context.
    pub has_cuda_ctx: bool,
}

impl View for SurfaceRec {
    type V = SurfaceRec;

    open spec fn view(&self) -> SurfaceRec {
        *self
    }
}

/// What is given back when a surface goes away, in order.
pub open spec fn surface_releases(rec: SurfaceRec) -> Seq<CudaRelease> {
    match rec.kind {
        SurfaceKind::DmaBuf { fd } => seq![CudaRelease::CloseFd(fd)],
        SurfaceKind::Internal { cu_ptr, .. } => if rec.has_cuda_ctx {
            seq![CudaRelease::FreeDevice(cu_ptr)]
        } else {
            Seq::empty()
        },
        SurfaceKind::ExternalDmaBuf { image, .. } => image_releases(image),
        SurfaceKind::CudaDevice { .. } => Seq::empty(),
        SurfaceKind::Stub => Seq::empty(),
    }
}

impl SurfaceRec {
    /// What is given back when the surface goes away, in order.
    pub fn releases(&self) -> (releases: Vec<CudaRelease>)
        ensures
            releases@ == surface_releases(*self),
    {
        let mut releases: Vec<CudaRelease> = Vec::new();
        match self.kind {
            SurfaceKind::DmaBuf { fd } => {
                releases.push(CudaRelease::CloseFd(fd));
            },
            SurfaceKind::Internal { cu_ptr, .. } => {
                if self.has_cuda_ctx {
                    releases.push(CudaRelease::FreeDevice(cu_ptr));
                }
            },
            SurfaceKind::ExternalDmaBuf { image, .. } => {
                return image.releases();
            },
            SurfaceKind::CudaDevice { .. } | SurfaceKind::Stub => {},
        }
        releases
    }
}

// ---------------------------------------------------------------------------
// Frames and contexts
// ---------------------------------------------------------------------------

/// The NAL unit that a packed header announces.
#[derive(Debug, Clone, Copy, PartialEq, Eq, Structural)]
pub enum PackedHeaderKind {
    Sequence,
    Picture,
    Slice,
}

/// The kind that a `VAEncPackedHeaderType` stands for.
pub open spec fn packed_kind_of(va_type: u32) -> Option<PackedHeaderKind> {
    if va_type == va::VA_ENC_PACKED_HEADER_TYPE_SEQUENCE {
        Some(PackedHeaderKind::Sequence)
    } else if va_type == va::VA_ENC_PACKED_HEADER_TYPE_PICTURE {
        Some(PackedHeaderKind::Picture)
    } else if va_type == va::VA_ENC_PACKED_HEADER_TYPE_SLICE {
        Some(PackedHeaderKind::Slice)
    } else {
        None
    }
}

impl PackedHeaderKind {
    /// The kind that a `VAEncPackedHeaderType` stands for.
    pub fn from_va_type(va_type: u32) -> (kind: Option<PackedHeaderKind>)
        ensures
            kind == packed_kind_of(va_type),
    {
        if va_type == va::VA_ENC_PACKED_HEADER_TYPE_SEQUENCE {
            Some(PackedHeaderKind::Sequence)
        } else if va_type == va::VA_ENC_PACKED_HEADER_TYPE_PICTURE {
            Some(PackedHeaderKind::Picture)
        } else if va_type == va::VA_ENC_PACKED_HEADER_TYPE_SLICE {
            Some(PackedHeaderKind::Slice)
        } else {
            None
        }
    }
}

/// A packed header of the client's.
#[derive(Debug)]
pub struct PackedHeader {
    pub kind: PackedHeaderKind,
    pub bytes: Vec<u8>,
}

/// The contents of a [`PackedHeader`].
#[verifier::ext_equal]
pub struct PackedHeaderView {
    pub kind: PackedHeaderKind,
    pub bytes: Seq<u8>,
}

impl View for PackedHeader {
    type V = PackedHeaderView;

    open spec fn view(&self) -> PackedHeaderView {
        PackedHeaderView { kind: self.kind, bytes: self.bytes@ }
    }
}

/// Parameters of one frame, gathered between `vaBeginPicture` and
/// `vaEndPicture`.
#[derive(Debug)]
pub struct PendingFrame {
    pub seq_param: Option<Vec<u8>>,
    pub pic_param: Option<Vec<u8>>,
    pub slice_param: Option<Vec<u8>>,
    /// Every misc parameter buffer, in order.
    pub misc_params: Vec<Vec<u8>>,
    /// Every packed header buffer, by buffer type.
    pub packed_headers: Vec<(u32, Vec<u8>)>,
    /// The kind that the last packed header parameter announced, until its
    /// data arrives.
    pub pending_packed_kind: Option<PackedHeaderKind>,
    /// Packed headers whose parameter and data both arrived.
    pub packed_headers_typed: Vec<PackedHeader>,
    pub coded_buf: Option<BufferKey>,
}

/// The contents of a [`PendingFrame`].
#[verifier::ext_equal]
pub struct PendingView {
    pub seq_param: Option<Seq<u8>>,
    pub pic_param: Option<Seq<u8>>,
    pub slice_param: Option<Seq<u8>>,
    pub misc_params: Seq<Seq<u8>>,
    pub packed_headers: Seq<(u32, Seq<u8>)>,
    pub pending_packed_kind: Option<PackedHeaderKind>,
    pub packed_headers_typed: Seq<PackedHeaderView>,
    pub coded_buf: Option<BufferKey>,
}

/// The bytes of an optional parameter buffer.
pub open spec fn opt_bytes(b: Option<Vec<u8>>) -> Option<Seq<u8>> {
    match b {
        Some(v) => Some(v@),
        None => None,
    }
}

impl View for PendingFrame {
    type V = PendingView;

    open spec fn view(&self) -> PendingView {
        PendingView {
            seq_param: opt_bytes(self.seq_param),
            pic_param: opt_bytes(self.pic_param),
            slice_param: opt_bytes(self.slice_param),
            misc_params: all_bytes(self.misc_params@),
            packed_headers: self.packed_headers@.map_values(|p: (u32, Vec<u8>)| (p.0, p.1@)),
            pending_packed_kind: self.pending_packed_kind,
            packed_headers_typed: self.packed_headers_typed@.map_values(|h: PackedHeader| h@),
            coded_buf: self.coded_buf,
        }
    }
}

/// A frame for which nothing has arrived.
pub open spec fn empty_frame() -> PendingView {
    PendingView {
        seq_param: None,
        pic_param: None,
        slice_param: None,
        misc_params: Seq::empty(),
        packed_headers: Seq::empty(),
        pending_packed_kind: None,
        packed_headers_typed: Seq::empty(),
        coded_buf: None,
    }
}

impl Default for PendingFrame {
    fn default() -> (frame: Self)
        ensures
            frame@ == empty_frame(),
    {
        let frame = PendingFrame {
            seq_param: None,
            pic_param: None,
            slice_param: None,
            misc_params: Vec::new(),
            packed_headers: Vec::new(),
            pending_packed_kind: None,
            packed_headers_typed: Vec::new(),
            coded_buf: None,
        };
        proof {
            assert(frame@ =~= empty_frame());
        }
        frame
    }
}

/// Context record: a config, a picture size, render targets, and the encode
/// session.
pub struct ContextRec {
    pub config: ConfigKey,
    pub width: u32,
    pub height: u32,
    pub flag: i32,
    pub render_targets: Vec<SurfaceKey>,
    pub current_target: Option<SurfaceKey>,
    /// `None` where the host has no GPU.
    pub session: Option<NvencSession>,
    pub pending: PendingFrame,
    pub last_coded: Option<BufferKey>,
}

/// The contents of a [`ContextRec`].
#[verifier::ext_equal]
pub struct ContextView {
    pub config: ConfigKey,
    pub width: u32,
    pub height: u32,
    pub flag: i32,
    pub render_targets: Seq<SurfaceKey>,
    pub current_target: Option<SurfaceKey>,
    pub session: Option<SessionView>,
    pub pending: PendingView,
    pub last_coded: Option<BufferKey>,
}

impl View for ContextRec {
    type V = ContextView;

    open spec fn view(&self) -> ContextView {
        ContextView {
            config: self.config,
            width: self.width,
            height: self.height,
            flag: self.flag,
            render_targets: self.render_targets@,
            current_target: self.current_target,
            session: match self.session {
                Some(s) => Some(s@),
                None => None,
            },
            pending: self.pending@,
            last_coded: self.last_coded,
        }
    }
}

/// A context whose session, if there is one, can be used.
pub open spec fn context_wf(c: ContextView) -> bool {
    c.session matches Some(s) ==> session_wf(s)
}

// ---------------------------------------------------------------------------
// Buffers and images
// ---------------------------------------------------------------------------

/// The header that a mapped coded buffer begins with. The bytes themselves are
/// the backing of the slot.
#[derive(Debug, Clone, Copy, PartialEq, Eq, Structural)]
pub struct CodedSegment {
    pub size: u32,
    pub bit_offset: u32,
    pub status: u32,
}

/// Coded output: the bitstream, and the segment header once a frame was
/// written.
#[derive(Debug)]
pub struct CodedBufferSlot {
    pub backing: Vec<u8>,
    pub segment: Option<CodedSegment>,
}

/// What a buffer stores.
#[derive(Debug)]
pub enum BufferStorage {
    Generic(Vec<u8>),
    Coded(CodedBufferSlot),
}

/// The contents of a [`BufferStorage`].
#[verifier::ext_equal]
pub enum StorageView {
    Generic(Seq<u8>),
    Coded { backing: Seq<u8>, segment: Option<CodedSegment> },
}

impl View for BufferStorage {
    type V = StorageView;

    open spec fn view(&self) -> StorageView {
        match *self {
            BufferStorage::Generic(bytes) => StorageView::Generic(bytes@),
            BufferStorage::Coded(slot) => StorageView::Coded {
                backing: slot.backing@,
                segment: slot.segment,
            },
        }
    }
}

/// The bytes of a storage.
pub open spec fn storage_bytes(s: StorageView) -> Seq<u8> {
    match s {
        StorageView::Generic(bytes) => bytes,
        StorageView::Coded { backing, .. } => backing,
    }
}

impl BufferStorage {
    /// The bytes of the storage; for coded output, the bitstream.
    pub fn bytes(&self) -> (bytes: &Vec<u8>)
        ensures
            bytes@ == storage_bytes(self@),
    {
        match self {
            BufferStorage::Generic(bytes) => bytes,
            BufferStorage::Coded(slot) => &slot.backing,
        }
    }
}

/// Buffer record.
#[derive(Debug)]
pub struct BufferRec {
    pub buf_type: VABufferType,
    pub element_size: u32,
    pub num_elements: u32,
    pub storage: BufferStorage,
    /// Whether a coded frame waits in the buffer.
    pub coded_ready: bool,
    /// Whether the client holds a pointer to the bytes. Until it gives that
    /// back, the bytes are its own.
    pub mapped: bool,
}

/// The contents of a [`BufferRec`].
#[verifier::ext_equal]
pub struct BufferView {
    pub buf_type: VABufferType,
    pub element_size: u32,
    pub num_elements: u32,
    pub storage: StorageView,
    pub coded_ready: bool,
    pub mapped: bool,
}

impl View for BufferRec {
    type V = BufferView;

    open spec fn view(&self) -> BufferView {
        BufferView {
            buf_type: self.buf_type,
            element_size: self.element_size,
            num_elements: self.num_elements,
            storage: self.storage@,
            coded_ready: self.coded_ready,
            mapped: self.mapped,
        }
    }
}

/// Image record. The pixels live in the buffer `buffer_key`. An image derived
/// from a surface names that surface, and unmapping its buffer uploads the
/// pixels there.
#[derive(Debug, Clone, Copy)]
pub struct ImageRec {
    pub surface_key: Option<SurfaceKey>,
    pub fourcc: u32,
    pub width: u32,
    pub height: u32,
    pub pitches: [u32; 3],
    pub offsets: [u32; 3],
    pub data_size: u32,
    pub buffer_key: BufferKey,
}

/// The contents of an [`ImageRec`].
#[verifier::ext_equal]
pub struct ImageView {
    pub surface_key: Option<SurfaceKey>,
    pub fourcc: u32,
    pub width: u32,
    pub height: u32,
    pub pitches: Seq<u32>,
    pub offsets: Seq<u32>,
    pub data_size: u32,
    pub buffer_key: BufferKey,
}

impl View for ImageRec {
    type V = ImageView;

    open spec fn view(&self) -> ImageView {
        ImageView {
            surface_key: self.surface_key,
            fourcc: self.fourcc,
            width: self.width,
            height: self.height,
            pitches: self.pitches@,
            offsets: self.offsets@,
            data_size: self.data_size,
            buffer_key: self.buffer_key,
        }
    }
}

// ---------------------------------------------------------------------------
// Pools
// ---------------------------------------------------------------------------

/// The five pools.
pub struct Pools {
    pub configs: Pool<ConfigKey, ConfigRec>,
    pub surfaces: Pool<SurfaceKey, SurfaceRec>,
    pub contexts: Pool<ContextKey, ContextRec>,
    pub buffers: Pool<BufferKey, BufferRec>,
    pub images: Pool<ImageKey, ImageRec>,
}

/// The contents of the pools.
#[verifier::ext_equal]
pub struct PoolsView {
    pub configs: Map<ConfigKey, ConfigRec>,
    pub surfaces: Map<SurfaceKey, SurfaceRec>,
    pub contexts: Map<ContextKey, ContextView>,
    pub buffers: Map<BufferKey, BufferView>,
    pub images: Map<ImageKey, ImageView>,
}

impl View for Pools {
    type V = PoolsView;

    open spec fn view(&self) -> PoolsView {
        PoolsView {
            configs: self.configs@,
            surfaces: self.surfaces@,
            contexts: self.contexts@,
            buffers: self.buffers@,
            images: self.images@,
        }
    }
}

/// Two states of the pools in which the same keys are live, in the same dense
/// order, and the same keys are retired.
pub open spec fn same_keys(before: Pools, after: Pools) -> bool {
    &&& after.configs.order() == before.configs.order()
    &&& after.surfaces.order() == before.surfaces.order()
    &&& after.contexts.order() == before.contexts.order()
    &&& after.buffers.order() == before.buffers.order()
    &&& after.images.order() == before.images.order()
    &&& same_ages(before.configs, after.configs)
    &&& same_ages(before.surfaces, after.surfaces)
    &&& same_ages(before.contexts, after.contexts)
    &&& same_ages(before.buffers, after.buffers)
    &&& same_ages(before.images, after.images)
}

impl Pools {
    /// What every operation keeps: the pools are well formed, and so is every
    /// session.
    pub open spec fn wf(&self) -> bool {
        &&& self.configs.wf()
        &&& self.surfaces.wf()
        &&& self.contexts.wf()
        &&& self.buffers.wf()
        &&& self.images.wf()
        &&& forall|k: ContextKey| #[trigger]
            self.contexts@.contains_key(k) ==> context_wf(self.contexts@[k])
    }

    /// The pools hold nothing.
    pub open spec fn are_vacant(&self) -> bool {
        &&& self.configs.is_vacant()
        &&& self.surfaces.is_vacant()
        &&& self.contexts.is_vacant()
        &&& self.buffers.is_vacant()
        &&& self.images.is_vacant()
    }

    /// Five empty pools.
    pub fn new() -> (pools: Self)
        ensures
            pools.wf(),
            pools.are_vacant(),
    {
        Pools {
            configs: Pool::new(),
            surfaces: Pool::new(),
            contexts: Pool::new(),
            buffers: Pool::new(),
            images: Pool::new(),
        }
    }
}

/// The whole of the driver's state.
pub struct DriverState {
    pub cuda: CudaCtx,
    pub pools: Pools,
}

impl DriverState {
    /// State with empty pools.
    pub fn new(cuda: CudaCtx) -> (state: Self)
        ensures
            state.cuda == cuda,
            state.pools.wf(),
            state.pools.are_vacant(),
    {
        DriverState { cuda, pools: Pools::new() }
    }
}

/// A surface gives back what it holds and nothing else: device memory of the
/// driver's own once, an imported picture in the order mipmap, memory,
/// descriptor, a bare descriptor by closing it.
pub proof fn law_surface_gives_back_what_it_holds(rec: SurfaceRec)
    ensures
        ({
            let back = surface_releases(rec);
            match rec.kind {
                SurfaceKind::Internal { cu_ptr, .. } => if rec.has_cuda_ctx {
                    back.len() == 1 && back[0] == CudaRelease::FreeDevice(cu_ptr)
                } else {
                    back.len() == 0
                },
                SurfaceKind::DmaBuf { fd } => back.len() == 1 && back[0] == CudaRelease::CloseFd(fd),
                SurfaceKind::ExternalDmaBuf { image, .. } => back.len() >= 2 && back[0]
                    == CudaRelease::DestroyMipmap(image.mip) && back[1]
                    == CudaRelease::DestroyExternalMemory(image.ext_mem) && (image.dup_fd >= 0
                    ==> back.len() == 3 && back[2] == CudaRelease::CloseFd(image.dup_fd)) && (
                image.dup_fd < 0 ==> back.len() == 2),
                _ => back.len() == 0,
            }
        }),
{
}

/// The bytes of a storage are the ones it stores.
pub proof fn law_storage_has_its_bytes(bytes: Seq<u8>, segment: Option<CodedSegment>)
    ensures
        storage_bytes(StorageView::Generic(bytes)) == bytes,
        storage_bytes(StorageView::Coded { backing: bytes, segment }) == bytes,
{
}

/// Packed headers announce a sequence, a picture or a slice, by the numbers of
/// `<va/va.h>`.
pub proof fn law_packed_header_kinds(va_type: u32)
    ensures
        packed_kind_of(va_type) == Some(PackedHeaderKind::Sequence) <==> va_type == 1,
        packed_kind_of(va_type) == Some(PackedHeaderKind::Picture) <==> va_type == 2,
        packed_kind_of(va_type) == Some(PackedHeaderKind::Slice) <==> va_type == 3,
{
}

} // verus!
