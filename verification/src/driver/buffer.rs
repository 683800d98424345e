//! `vaCreateBuffer`, `vaMapBuffer`, `vaMapBuffer2`, `vaUnmapBuffer`,
//! `vaDestroyBuffer`, `vaBufferSetNumElements`, `vaBufferInfo`.
//!
//! Mapping a parameter or image buffer hands the client a pointer to its
//! bytes, which are the client's until it unmaps the buffer: between the two
//! calls the client must not use the buffer in any other call. A coded buffer
//! is mapped as its segment header instead, and that is not exclusive.

use crate::driver::image::{upload_begin, upload_image_to_surface, UploadNext};
use crate::driver::state::{
    storage_bytes, BufferRec, BufferStorage, BufferView, CodedBufferSlot, ImageView, Pools,
    PoolsView, StorageView,
};
use crate::error::{DriverError, DriverResult};
use crate::ids::{changed, find_id, gained, lost, BufferKey, ContainsKey, ImageKey};
use crate::va;
use crate::va::VABufferType;
use vstd::prelude::*;

verus! {

// ---------------------------------------------------------------------------
// vaCreateBuffer
// ---------------------------------------------------------------------------

/// Outside call: `Vec::try_reserve_exact`. The bytes stay as they are, and
/// reserving nothing succeeds. Whether a larger reservation succeeds is up to
/// the allocator.
#[verifier::external_body]
pub(crate) fn reserve_bytes(bytes: &mut Vec<u8>, additional: usize) -> (reserved: bool)
    ensures
        final(bytes)@ == old(bytes)@,
        additional == 0 ==> reserved,
{
    bytes.try_reserve_exact(additional).is_ok()
}

/// The bytes of a new buffer: the client's, or zeros.
pub open spec fn initial_bytes(total: int, data: Option<&[u8]>) -> Seq<u8> {
    match data {
        Some(d) => d@,
        None => Seq::new(total as nat, |i: int| 0u8),
    }
}

/// The record of a new buffer. Coded output starts without a segment header.
pub open spec fn new_buffer(
    buf_type: VABufferType,
    size: u32,
    num_elements: u32,
    bytes: Seq<u8>,
) -> BufferView {
    BufferView {
        buf_type,
        element_size: size,
        num_elements,
        storage: if buf_type == va::VA_ENC_CODED_BUFFER_TYPE {
            StorageView::Coded { backing: bytes, segment: None }
        } else {
            StorageView::Generic(bytes)
        },
        coded_ready: false,
        mapped: false,
    }
}

/// Whether the size of a buffer is one that can be.
pub open spec fn size_fits(size: u32, num_elements: u32) -> bool {
    size * num_elements <= usize::MAX
}

/// The client's data, if it passed any, is as long as the buffer.
pub open spec fn data_fits(size: u32, num_elements: u32, data: Option<&[u8]>) -> bool {
    data matches Some(d) ==> d@.len() == size * num_elements
}

/// A buffer was stored, and nothing else changed.
pub open spec fn buffer_stored(before: Pools, after: Pools, id: u32, buffer: BufferView) -> bool {
    &&& gained(before.buffers, after.buffers, id, buffer)
    &&& after.configs == before.configs
    &&& after.surfaces == before.surfaces
    &&& after.contexts == before.contexts
    &&& after.images == before.images
}

/// Zeros, in memory reserved for them.
pub(crate) fn zeros_in(room: Vec<u8>, total: usize) -> (bytes: Vec<u8>)
    requires
        room@.len() == 0,
    ensures
        bytes@ == Seq::new(total as nat, |i: int| 0u8),
{
    let mut bytes = room;
    bytes.resize(total, 0);
    proof {
        assert(bytes@ =~= Seq::new(total as nat, |i: int| 0u8));
    }
    bytes
}

fn store_buffer(
    pools: &mut Pools,
    buf_type: VABufferType,
    size: u32,
    num_elements: u32,
    bytes: Vec<u8>,
) -> (id: u32)
    requires
        old(pools).wf(),
        old(pools).buffers.has_room(),
    ensures
        final(pools).wf(),
        buffer_stored(
            *old(pools),
            *final(pools),
            id,
            new_buffer(buf_type, size, num_elements, bytes@),
        ),
{
    let storage = if buf_type == va::VA_ENC_CODED_BUFFER_TYPE {
        BufferStorage::Coded(CodedBufferSlot { backing: bytes, segment: None })
    } else {
        BufferStorage::Generic(bytes)
    };
    let rec = BufferRec {
        buf_type,
        element_size: size,
        num_elements,
        storage,
        coded_ready: false,
        mapped: false,
    };
    pools.buffers.insert_id(rec)
}

/// Create a buffer in the memory that could be reserved for it, if any.
pub fn create_buffer_in(
    pools: &mut Pools,
    buf_type: VABufferType,
    size: u32,
    num_elements: u32,
    data: Option<&[u8]>,
    has_out: bool,
    room: Option<Vec<u8>>,
) -> (r: DriverResult<u32>)
    requires
        old(pools).wf(),
        old(pools).buffers.has_room(),
        data_fits(size, num_elements, data),
        room matches Some(v) ==> v@.len() == 0,
    ensures
        final(pools).wf(),
        if !has_out || !size_fits(size, num_elements) {
            *final(pools) == *old(pools) && r == Err::<u32, DriverError>(
                DriverError::InvalidParameter,
            )
        } else if room is None {
            *final(pools) == *old(pools) && r == Err::<u32, DriverError>(DriverError::AllocFailed)
        } else {
            r matches Ok(id) && buffer_stored(
                *old(pools),
                *final(pools),
                id,
                new_buffer(
                    buf_type,
                    size,
                    num_elements,
                    initial_bytes(size * num_elements, data),
                ),
            )
        },
{
    if !has_out {
        return Err(DriverError::InvalidParameter);
    }
    let total: usize = match (size as usize).checked_mul(num_elements as usize) {
        Some(total) => total,
        None => return Err(DriverError::InvalidParameter),
    };
    let room: Vec<u8> = match room {
        Some(room) => room,
        None => return Err(DriverError::AllocFailed),
    };
    let mut bytes = zeros_in(room, total);
    if let Some(d) = data {
        let mut i: usize = 0;
        while i < total
            invariant
                i <= total,
                d@.len() == total,
                bytes@.len() == total,
                forall|j: int| 0 <= j < i ==> bytes@[j] == d@[j],
            decreases total - i,
        {
            bytes.set(i, d[i]);
            i += 1;
        }
        proof {
            assert(bytes@ =~= d@);
        }
    }
    Ok(store_buffer(pools, buf_type, size, num_elements, bytes))
}

/// Create a buffer of `num_elements` times `size` bytes, with the client's
/// data or zeros in it. Fails where the memory cannot be reserved.
pub fn create_buffer(
    pools: &mut Pools,
    buf_type: VABufferType,
    size: u32,
    num_elements: u32,
    data: Option<&[u8]>,
    has_out: bool,
) -> (r: DriverResult<u32>)
    requires
        old(pools).wf(),
        old(pools).buffers.has_room(),
        data_fits(size, num_elements, data),
    ensures
        final(pools).wf(),
        r matches Err(e) ==> *final(pools) == *old(pools) && if !has_out || !size_fits(
            size,
            num_elements,
        ) {
            e == DriverError::InvalidParameter
        } else {
            e == DriverError::AllocFailed && size * num_elements > 0
        },
        r matches Ok(id) ==> has_out && size_fits(size, num_elements) && buffer_stored(
            *old(pools),
            *final(pools),
            id,
            new_buffer(buf_type, size, num_elements, initial_bytes(size * num_elements, data)),
        ),
{
    let total: usize = match (size as usize).checked_mul(num_elements as usize) {
        Some(total) => total,
        None => return Err(DriverError::InvalidParameter),
    };
    let mut room: Vec<u8> = Vec::new();
    let reserved = has_out && reserve_bytes(&mut room, total);
    let room = if reserved {
        Some(room)
    } else {
        None
    };
    create_buffer_in(pools, buf_type, size, num_elements, data, has_out, room)
}

// ---------------------------------------------------------------------------
// vaMapBuffer, vaUnmapBuffer
// ---------------------------------------------------------------------------

/// What the pointer that a client gets for a buffer points at.
#[derive(Debug, Clone, Copy, PartialEq, Eq, Structural)]
pub enum Mapping {
    /// The bytes of the buffer.
    Bytes(BufferKey),
    /// The segment header of a coded buffer, which points at its bytes.
    Segment(BufferKey),
}

/// Hand the client a pointer to a buffer. The bytes of a parameter or image
/// buffer are the client's from here on; a coded buffer has something to map
/// only after a frame was written to it.
pub fn map_buffer(pools: &mut Pools, buf_id: u32, has_out: bool) -> (r: DriverResult<Mapping>)
    requires
        old(pools).wf(),
        has_out ==> (find_id(old(pools).buffers@, buf_id) matches Some(k) ==> !old(
            pools,
        ).buffers@[k].mapped),
    ensures
        final(pools).wf(),
        final(pools).configs == old(pools).configs,
        final(pools).surfaces == old(pools).surfaces,
        final(pools).contexts == old(pools).contexts,
        final(pools).images == old(pools).images,
        match find_id(old(pools).buffers@, buf_id) {
            _ if !has_out => *final(pools) == *old(pools) && r == Err::<Mapping, DriverError>(
                DriverError::InvalidParameter,
            ),
            None => *final(pools) == *old(pools) && r == Err::<Mapping, DriverError>(
                DriverError::InvalidBuffer,
            ),
            Some(k) => match old(pools).buffers@[k].storage {
                StorageView::Generic(_) => r == Ok::<Mapping, DriverError>(Mapping::Bytes(k))
                    && changed(
                    old(pools).buffers,
                    final(pools).buffers,
                    k,
                    BufferView { mapped: true, ..old(pools).buffers@[k] },
                ),
                StorageView::Coded { segment, .. } => *final(pools) == *old(pools) && r
                    == match segment {
                    Some(_) => Ok::<Mapping, DriverError>(Mapping::Segment(k)),
                    None => Err(
                        DriverError::OperationFailed(
                            "coded buffer not ready — did you call vaEndPicture?",
                        ),
                    ),
                },
            },
        },
{
    if !has_out {
        return Err(DriverError::InvalidParameter);
    }
    let k = match pools.buffers.find_by_low_bits(buf_id) {
        Some(k) => k,
        None => return Err(DriverError::InvalidBuffer),
    };
    let mut generic: bool = false;
    if let Some(rec) = pools.buffers.get(k) {
        match &rec.storage {
            BufferStorage::Generic(_) => {
                generic = true;
            },
            BufferStorage::Coded(slot) => {
                if slot.segment.is_none() {
                    return Err(
                        DriverError::OperationFailed(
                            "coded buffer not ready — did you call vaEndPicture?",
                        ),
                    );
                }
            },
        }
    }
    if !generic {
        return Ok(Mapping::Segment(k));
    }
    if let Some(rec) = pools.buffers.get_mut(k) {
        rec.mapped = true;
    }
    Ok(Mapping::Bytes(k))
}

/// `vaMapBuffer2`: the flags change nothing.
pub fn map_buffer2(pools: &mut Pools, buf_id: u32, has_out: bool, flags: u32) -> (r: DriverResult<
    Mapping,
>)
    requires
        old(pools).wf(),
        has_out ==> (find_id(old(pools).buffers@, buf_id) matches Some(k) ==> !old(
            pools,
        ).buffers@[k].mapped),
    ensures
        final(pools).wf(),
        final(pools).configs == old(pools).configs,
        final(pools).surfaces == old(pools).surfaces,
        final(pools).contexts == old(pools).contexts,
        final(pools).images == old(pools).images,
        match find_id(old(pools).buffers@, buf_id) {
            _ if !has_out => *final(pools) == *old(pools) && r == Err::<Mapping, DriverError>(
                DriverError::InvalidParameter,
            ),
            None => *final(pools) == *old(pools) && r == Err::<Mapping, DriverError>(
                DriverError::InvalidBuffer,
            ),
            Some(k) => match old(pools).buffers@[k].storage {
                StorageView::Generic(_) => r == Ok::<Mapping, DriverError>(Mapping::Bytes(k))
                    && changed(
                    old(pools).buffers,
                    final(pools).buffers,
                    k,
                    BufferView { mapped: true, ..old(pools).buffers@[k] },
                ),
                StorageView::Coded { segment, .. } => *final(pools) == *old(pools) && r
                    == match segment {
                    Some(_) => Ok::<Mapping, DriverError>(Mapping::Segment(k)),
                    None => Err(
                        DriverError::OperationFailed(
                            "coded buffer not ready — did you call vaEndPicture?",
                        ),
                    ),
                },
            },
        },
{
    map_buffer(pools, buf_id, has_out)
}

/// The first image, in dense order, that is derived from a surface and has its
/// pixels in a buffer.
pub open spec fn derived_in(
    order: Seq<ImageKey>,
    images: Map<ImageKey, ImageView>,
    buffer: BufferKey,
) -> Option<ImageKey>
    decreases order.len(),
{
    if order.len() == 0 {
        None
    } else {
        match derived_in(order.drop_last(), images, buffer) {
            Some(k) => Some(k),
            None => {
                let image = images[order.last()];
                if image.buffer_key == buffer && image.surface_key is Some {
                    Some(order.last())
                } else {
                    None
                }
            },
        }
    }
}

fn derived_image(pools: &Pools, buffer: BufferKey) -> (found: Option<ImageKey>)
    requires
        pools.wf(),
    ensures
        found == derived_in(pools.images.order(), pools.images@, buffer),
        found matches Some(k) ==> pools.images@.contains_key(k)
            && pools.images@[k].surface_key is Some && pools.images@[k].buffer_key == buffer,
{
    let n: usize = pools.images.len();
    let ghost order = pools.images.order();
    let mut i: usize = 0;
    while i < n
        invariant
            pools.wf(),
            n == order.len(),
            order == pools.images.order(),
            i <= n,
            derived_in(order.take(i as int), pools.images@, buffer) is None,
        decreases n - i,
    {
        let key = pools.images.key_at(i);
        proof {
            assert(order.take(i + 1).drop_last() =~= order.take(i as int));
            assert(order.take(i + 1).last() == key);
        }
        if let Some(rec) = pools.images.get(key) {
            if rec.buffer_key.raw == buffer.raw && rec.surface_key.is_some() {
                proof {
                    lemma_derived_is_first(order, pools.images@, buffer, i as int);
                }
                return Some(key);
            }
        }
        i += 1;
    }
    proof {
        assert(order.take(i as int) =~= order);
    }
    None
}

proof fn lemma_derived_is_first(
    order: Seq<ImageKey>,
    images: Map<ImageKey, ImageView>,
    buffer: BufferKey,
    i: int,
)
    requires
        0 <= i < order.len(),
        derived_in(order.take(i), images, buffer) is None,
        images[order[i]].buffer_key == buffer,
        images[order[i]].surface_key is Some,
    ensures
        derived_in(order, images, buffer) == Some(order[i]),
    decreases order.len(),
{
    if i == order.len() - 1 {
        assert(order.take(i) =~= order.drop_last());
    } else {
        assert(order.drop_last().take(i) =~= order.take(i));
        lemma_derived_is_first(order.drop_last(), images, buffer, i);
    }
}

/// The buffers after one was unmapped.
pub open spec fn unmapped_buffer(b: BufferView) -> BufferView {
    match b.storage {
        StorageView::Generic(_) => BufferView { mapped: false, ..b },
        StorageView::Coded { .. } => b,
    }
}

/// How unmapping a buffer goes on: the pixels of a derived image are uploaded
/// to its surface.
pub open spec fn unmap_next(
    p: PoolsView,
    order: Seq<ImageKey>,
    key: BufferKey,
) -> UploadNext {
    if p.buffers[key].buf_type == va::VA_IMAGE_BUFFER_TYPE {
        match derived_in(order, p.images, key) {
            Some(ik) => upload_begin(p, p.images[ik], p.images[ik].surface_key->Some_0),
            None => UploadNext::Done(Ok(())),
        }
    } else {
        UploadNext::Done(Ok(()))
    }
}

/// Take back the bytes of a buffer from the client, and upload them if they
/// are the pixels of an image that was derived from a surface.
pub fn unmap_buffer(pools: &mut Pools, buf_id: u32) -> (next: UploadNext)
    requires
        old(pools).wf(),
        find_id(old(pools).buffers@, buf_id) matches Some(k) ==> old(
            pools,
        ).buffers@[k].storage is Generic ==> old(pools).buffers@[k].mapped,
    ensures
        final(pools).wf(),
        match find_id(old(pools).buffers@, buf_id) {
            None => *final(pools) == *old(pools) && next == UploadNext::Done(
                Err(DriverError::InvalidBuffer),
            ),
            Some(k) => {
                &&& changed(
                    old(pools).buffers,
                    final(pools).buffers,
                    k,
                    unmapped_buffer(old(pools).buffers@[k]),
                )
                &&& final(pools).configs == old(pools).configs
                &&& final(pools).surfaces == old(pools).surfaces
                &&& final(pools).contexts == old(pools).contexts
                &&& final(pools).images == old(pools).images
                &&& next == unmap_next(final(pools)@, final(pools).images.order(), k)
            },
        },
{
    let k = match pools.buffers.find_by_low_bits(buf_id) {
        Some(k) => k,
        None => return UploadNext::Done(Err(DriverError::InvalidBuffer)),
    };
    let mut is_image: bool = false;
    if let Some(rec) = pools.buffers.get_mut(k) {
        if let BufferStorage::Generic(_) = &rec.storage {
            rec.mapped = false;
        }
        is_image = rec.buf_type == va::VA_IMAGE_BUFFER_TYPE;
    }
    if is_image {
        if let Some(ik) = derived_image(pools, k) {
            if let Some(image) = pools.images.get(ik) {
                if let Some(sk) = image.surface_key {
                    return upload_image_to_surface(pools, image, sk);
                }
            }
        }
    }
    UploadNext::Done(Ok(()))
}

// ---------------------------------------------------------------------------
// vaDestroyBuffer, vaBufferSetNumElements, vaBufferInfo
// ---------------------------------------------------------------------------

/// Destroy a buffer.
pub fn destroy_buffer(pools: &mut Pools, buffer_id: u32) -> (r: DriverResult<()>)
    requires
        old(pools).wf(),
    ensures
        final(pools).wf(),
        match find_id(old(pools).buffers@, buffer_id) {
            None => *final(pools) == *old(pools) && r == Err::<(), DriverError>(
                DriverError::InvalidBuffer,
            ),
            Some(k) => {
                &&& r is Ok
                &&& lost(old(pools).buffers, final(pools).buffers, k)
                &&& final(pools).configs == old(pools).configs
                &&& final(pools).surfaces == old(pools).surfaces
                &&& final(pools).contexts == old(pools).contexts
                &&& final(pools).images == old(pools).images
            },
        },
{
    match pools.buffers.remove_id(buffer_id) {
        Some(_) => Ok(()),
        None => Err(DriverError::InvalidBuffer),
    }
}

/// Accepted and without effect: encoders do not use it.
pub fn buffer_set_num_elements(buf_id: u32, num_elements: u32) -> (r: DriverResult<()>)
    ensures
        r == Ok::<(), DriverError>(()),
{
    Ok(())
}

/// What `vaBufferInfo` reports.
#[derive(Debug, Clone, Copy, PartialEq, Eq, Structural)]
pub struct BufferInfo {
    pub buf_type: VABufferType,
    pub size: u32,
    pub num_elements: u32,
}

/// Report the type and size of a buffer.
pub fn buffer_info(pools: &Pools, buf_id: u32) -> (r: DriverResult<BufferInfo>)
    requires
        pools.wf(),
    ensures
        match find_id(pools.buffers@, buf_id) {
            None => r == Err::<BufferInfo, DriverError>(DriverError::InvalidBuffer),
            Some(k) => {
                let b = pools.buffers@[k];
                r == Ok::<BufferInfo, DriverError>(
                    BufferInfo {
                        buf_type: b.buf_type,
                        size: b.element_size,
                        num_elements: b.num_elements,
                    },
                )
            },
        },
{
    match pools.buffers.get_id(buf_id) {
        None => Err(DriverError::InvalidBuffer),
        Some(rec) => Ok(
            BufferInfo {
                buf_type: rec.buf_type,
                size: rec.element_size,
                num_elements: rec.num_elements,
            },
        ),
    }
}

// ---------------------------------------------------------------------------
// Laws
// ---------------------------------------------------------------------------

/// Mapping and unmapping a buffer that is not mapped leaves its record as it
/// was.
pub proof fn law_map_then_unmap_is_identity(b: BufferView)
    requires
        !b.mapped,
    ensures
        unmapped_buffer(BufferView { mapped: true, ..b }) == b || b.storage is Coded,
        b.storage is Coded ==> unmapped_buffer(b) == b,
{
}

/// A new buffer is as long as its size and number of elements say, and a new
/// coded buffer has nothing to map.
pub proof fn law_new_buffer_has_its_size(
    buf_type: VABufferType,
    size: u32,
    num_elements: u32,
    data: Option<&[u8]>,
)
    requires
        data_fits(size, num_elements, data),
    ensures
        initial_bytes(size * num_elements, data).len() == size * num_elements,
        new_buffer(
            buf_type,
            size,
            num_elements,
            initial_bytes(size * num_elements, data),
        ).storage matches StorageView::Coded { segment, .. } ==> segment is None,
{
    let total = size * num_elements;
    assert(total >= 0) by (nonlinear_arith)
        requires
            total == size * num_elements,
    ;
}

/// A buffer that is not the pixel store of a derived image uploads nothing.
pub proof fn law_only_derived_images_upload(p: PoolsView, order: Seq<ImageKey>, key: BufferKey)
    ensures
        unmap_next(p, order, key) is Call ==> p.buffers[key].buf_type == va::VA_IMAGE_BUFFER_TYPE
            && derived_in(order, p.images, key) is Some,
{
}

/// A new buffer is what was asked for: its type, its element size and number,
/// and the client's bytes, or zeros where the client gave none. Only coded
/// output is stored as such. It is neither mapped nor ready.
pub proof fn law_buffer_is_what_was_asked_for(
    buf_type: VABufferType,
    size: u32,
    num_elements: u32,
    data: Option<&[u8]>,
)
    requires
        data_fits(size, num_elements, data),
    ensures
        ({
            let bytes = initial_bytes(size * num_elements, data);
            let b = new_buffer(buf_type, size, num_elements, bytes);
            &&& b.buf_type == buf_type
            &&& b.element_size == size
            &&& b.num_elements == num_elements
            &&& !b.mapped
            &&& !b.coded_ready
            &&& b.storage is Coded <==> buf_type == 21
            &&& storage_bytes(b.storage) == bytes
            &&& data matches Some(d) ==> bytes == d@
            &&& data is None ==> forall|i: int| 0 <= i < bytes.len() ==> #[trigger] bytes[i] == 0
            &&& bytes.len() == size * num_elements
        }),
{
    law_new_buffer_has_its_size(buf_type, size, num_elements, data);
}

/// Unmapping gives the bytes back and changes nothing of them.
pub proof fn law_unmapping_keeps_the_bytes(b: BufferView)
    ensures
        storage_bytes(unmapped_buffer(b).storage) == storage_bytes(b.storage),
        b.storage is Generic ==> !unmapped_buffer(b).mapped,
        unmapped_buffer(b).buf_type == b.buf_type,
        unmapped_buffer(b).element_size == b.element_size,
        unmapped_buffer(b).num_elements == b.num_elements,
        unmapped_buffer(b).coded_ready == b.coded_ready,
{
}

/// Unmapping the pixels of a derived image uploads them to the surface that the
/// image was derived from. The image is one that has its pixels in that buffer,
/// and where there is one, it is found.
pub proof fn law_derived_pixels_go_to_their_surface(
    p: PoolsView,
    order: Seq<ImageKey>,
    key: BufferKey,
)
    ensures
        match derived_in(order, p.images, key) {
            Some(ik) => order.contains(ik) && p.images[ik].buffer_key == key
                && p.images[ik].surface_key is Some && (p.buffers[key].buf_type == 9 ==> unmap_next(
                p,
                order,
                key,
            ) == upload_begin(p, p.images[ik], p.images[ik].surface_key->Some_0)),
            None => unmap_next(p, order, key) == UploadNext::Done(Ok(())) && forall|i: int|
                0 <= i < order.len() && p.images[#[trigger] order[i]].buffer_key == key
                    ==> p.images[order[i]].surface_key is None,
        },
        p.buffers[key].buf_type != 9 ==> unmap_next(p, order, key) == UploadNext::Done(Ok(())),
    decreases order.len(),
{
    if order.len() > 0 {
        let front = order.drop_last();
        law_derived_pixels_go_to_their_surface(p, front, key);
        match derived_in(order, p.images, key) {
            Some(ik) => {
                if front.contains(ik) {
                    let i = choose|i: int| 0 <= i < front.len() && front[i] == ik;
                    assert(order[i] == ik);
                } else {
                    assert(order[order.len() - 1] == ik);
                }
            },
            None => {
                assert forall|i: int|
                    0 <= i < order.len() && p.images[#[trigger] order[i]].buffer_key
                        == key implies p.images[order[i]].surface_key is None by {
                    if i < front.len() {
                        assert(front[i] == order[i]);
                    }
                }
            },
        }
    }
}

} // verus!
