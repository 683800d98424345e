//! `vaBeginPicture`, `vaRenderPicture`, `vaEndPicture`.
//!
//! 1. `vaBeginPicture` binds a render target and clears the frame parameters
//!    gathered so far.
//! 2. `vaRenderPicture` sorts parameter buffers into the [`PendingFrame`].
//! 3. `vaEndPicture` takes the frame, brings the session's configuration up to
//!    the client's, registers the render target if that is still to be done,
//!    encodes, and writes the bitstream to the coded buffer.
//!
//! NVENC writes SPS and PPS, always: packed headers of the client's are taken
//! in and never put in front of the bitstream. Two sources of parameter sets
//! in one stream make receivers lose track of it.

use crate::bytes::{law_fields_are_little_endian, read_u32, u32_at};
use crate::driver::state::{
    empty_frame, packed_kind_of, storage_bytes, BufferView, ContextView, PackedHeader,
    PackedHeaderKind, PackedHeaderView, PendingFrame, PendingView, Pools,
};
use crate::error::{DriverError, DriverResult};
use crate::ids::{changed, find_id, BufferKey, ContainsKey, ContextKey, SurfaceKey};
use crate::va;
use vstd::prelude::*;

verus! {

// ---------------------------------------------------------------------------
// vaBeginPicture
// ---------------------------------------------------------------------------

/// A context bound to a new target, with no frame parameters gathered.
pub open spec fn begun(c: ContextView, target: SurfaceKey) -> ContextView {
    ContextView { current_target: Some(target), pending: empty_frame(), ..c }
}

/// Bind a render target to a context and start a new frame.
pub fn begin_picture(pools: &mut Pools, context: u32, render_target: u32) -> (r: DriverResult<()>)
    requires
        old(pools).wf(),
    ensures
        final(pools).wf(),
        match (find_id(old(pools).contexts@, context), find_id(old(pools).surfaces@, render_target))
        {
            (None, _) => r == Err::<(), DriverError>(DriverError::InvalidContext) && *final(pools)
                == *old(pools),
            (Some(_), None) => r == Err::<(), DriverError>(DriverError::InvalidSurface)
                && *final(pools) == *old(pools),
            (Some(ck), Some(sk)) => r is Ok && changed(
                old(pools).contexts,
                final(pools).contexts,
                ck,
                begun(old(pools).contexts@[ck], sk),
            ) && final(pools).configs == old(pools).configs && final(pools).surfaces == old(
                pools,
            ).surfaces && final(pools).buffers == old(pools).buffers && final(pools).images == old(
                pools,
            ).images,
        },
{
    let ck = match pools.contexts.find_by_low_bits(context) {
        Some(k) => k,
        None => return Err(DriverError::InvalidContext),
    };
    let sk = match pools.surfaces.find_by_low_bits(render_target) {
        Some(k) => k,
        None => return Err(DriverError::InvalidSurface),
    };
    if let Some(c) = pools.contexts.get_mut(ck) {
        c.current_target = Some(sk);
        c.pending = PendingFrame::default();
    }
    Ok(())
}

// ---------------------------------------------------------------------------
// vaRenderPicture
// ---------------------------------------------------------------------------

/// The kind that a packed header parameter buffer announces: its first field,
/// if the buffer is long enough to have one.
pub open spec fn announced(p: PendingView, bytes: Seq<u8>) -> Option<PackedHeaderKind> {
    if bytes.len() >= 4 {
        packed_kind_of(u32_at(bytes, 0) as u32)
    } else {
        p.pending_packed_kind
    }
}

/// A frame after one more buffer. Misc parameters are all kept; a packed header
/// parameter announces the kind of the packed header data that follows it;
/// buffers of other types are accepted and change nothing.
pub open spec fn absorbed(p: PendingView, key: BufferKey, b: BufferView) -> PendingView {
    let bytes = storage_bytes(b.storage);
    if b.buf_type == va::VA_ENC_SEQUENCE_PARAMETER_BUFFER_TYPE {
        PendingView { seq_param: Some(bytes), ..p }
    } else if b.buf_type == va::VA_ENC_PICTURE_PARAMETER_BUFFER_TYPE {
        PendingView { pic_param: Some(bytes), ..p }
    } else if b.buf_type == va::VA_ENC_SLICE_PARAMETER_BUFFER_TYPE {
        PendingView { slice_param: Some(bytes), ..p }
    } else if b.buf_type == va::VA_ENC_PACKED_HEADER_PARAMETER_BUFFER_TYPE {
        PendingView {
            pending_packed_kind: announced(p, bytes),
            packed_headers: p.packed_headers.push((b.buf_type, bytes)),
            ..p
        }
    } else if b.buf_type == va::VA_ENC_PACKED_HEADER_DATA_BUFFER_TYPE {
        PendingView {
            pending_packed_kind: None,
            packed_headers_typed: match p.pending_packed_kind {
                Some(kind) => p.packed_headers_typed.push(PackedHeaderView { kind, bytes }),
                None => p.packed_headers_typed,
            },
            packed_headers: p.packed_headers.push((b.buf_type, bytes)),
            ..p
        }
    } else if b.buf_type == va::VA_ENC_MISC_PARAMETER_BUFFER_TYPE {
        PendingView { misc_params: p.misc_params.push(bytes), ..p }
    } else if b.buf_type == va::VA_ENC_CODED_BUFFER_TYPE {
        PendingView { coded_buf: Some(key), ..p }
    } else {
        p
    }
}

/// The number of leading IDs that name a buffer.
pub open spec fn known_prefix(buffers: Map<BufferKey, BufferView>, ids: Seq<u32>) -> int
    decreases ids.len(),
{
    if ids.len() == 0 {
        0
    } else {
        let n = known_prefix(buffers, ids.drop_last());
        if n == ids.len() - 1 && find_id(buffers, ids.last()) is Some {
            n + 1
        } else {
            n
        }
    }
}

/// A frame after the first `n` buffers of a list.
pub open spec fn absorbed_all(
    p: PendingView,
    buffers: Map<BufferKey, BufferView>,
    ids: Seq<u32>,
    n: int,
) -> PendingView
    decreases n,
{
    if n <= 0 {
        p
    } else {
        let key = find_id(buffers, ids[n - 1])->Some_0;
        absorbed(absorbed_all(p, buffers, ids, n - 1), key, buffers[key])
    }
}

/// The client holds no pointer to any buffer that rendering gets to read.
pub open spec fn readable(buffers: Map<BufferKey, BufferView>, ids: Seq<u32>) -> bool {
    forall|i: int|
        0 <= i < ids.len() && i < known_prefix(buffers, ids) ==> !buffers[find_id(
            buffers,
            #[trigger] ids[i],
        )->Some_0].mapped
}

proof fn lemma_known_prefix(buffers: Map<BufferKey, BufferView>, ids: Seq<u32>)
    ensures
        0 <= known_prefix(buffers, ids) <= ids.len(),
        forall|i: int|
            0 <= i < known_prefix(buffers, ids) ==> find_id(buffers, #[trigger] ids[i]) is Some,
        known_prefix(buffers, ids) < ids.len() ==> find_id(
            buffers,
            ids[known_prefix(buffers, ids)],
        ) is None,
    decreases ids.len(),
{
    if ids.len() > 0 {
        let front = ids.drop_last();
        lemma_known_prefix(buffers, front);
        assert forall|i: int| 0 <= i < front.len() implies #[trigger] ids[i] == front[i] by {}
    }
}

fn copy_bytes(src: &Vec<u8>) -> (copy: Vec<u8>)
    ensures
        copy@ == src@,
{
    let mut copy: Vec<u8> = Vec::new();
    let mut i: usize = 0;
    while i < src.len()
        invariant
            i <= src.len(),
            copy@ == src@.take(i as int),
        decreases src.len() - i,
    {
        copy.push(src[i]);
        i += 1;
        proof {
            assert(copy@ =~= src@.take(i as int));
        }
    }
    proof {
        assert(src@.take(i as int) =~= src@);
    }
    copy
}

/// Take one buffer into a frame.
fn absorb(pending: PendingFrame, key: BufferKey, buf_type: u32, data: Vec<u8>) -> (after:
    PendingFrame)
    ensures
        forall|b: BufferView|
            b.buf_type == buf_type && storage_bytes(b.storage) == data@ ==> after@
                == #[trigger] absorbed(pending@, key, b),
{
    let mut p = pending;
    let ghost before = p@;
    if buf_type == va::VA_ENC_SEQUENCE_PARAMETER_BUFFER_TYPE {
        p.seq_param = Some(data);
    } else if buf_type == va::VA_ENC_PICTURE_PARAMETER_BUFFER_TYPE {
        p.pic_param = Some(data);
    } else if buf_type == va::VA_ENC_SLICE_PARAMETER_BUFFER_TYPE {
        p.slice_param = Some(data);
    } else if buf_type == va::VA_ENC_PACKED_HEADER_PARAMETER_BUFFER_TYPE {
        if data.len() >= 4 {
            let va_type: u32 = read_u32(data.as_slice(), 0);
            p.pending_packed_kind = PackedHeaderKind::from_va_type(va_type);
        }
        p.packed_headers.push((buf_type, data));
        proof {
            assert(p@.packed_headers =~= before.packed_headers.push((buf_type, data@)));
        }
    } else if buf_type == va::VA_ENC_PACKED_HEADER_DATA_BUFFER_TYPE {
        if let Some(kind) = p.pending_packed_kind {
            let header = PackedHeader { kind, bytes: copy_bytes(&data) };
            p.packed_headers_typed.push(header);
            proof {
                assert(p@.packed_headers_typed =~= before.packed_headers_typed.push(header@));
            }
        }
        p.pending_packed_kind = None;
        p.packed_headers.push((buf_type, data));
        proof {
            assert(p@.packed_headers =~= before.packed_headers.push((buf_type, data@)));
        }
    } else if buf_type == va::VA_ENC_MISC_PARAMETER_BUFFER_TYPE {
        p.misc_params.push(data);
        proof {
            assert(p@.misc_params =~= before.misc_params.push(data@));
        }
    } else if buf_type == va::VA_ENC_CODED_BUFFER_TYPE {
        p.coded_buf = Some(key);
    }
    p
}

/// Replace the frame of a context and give back what it had.
pub(crate) fn swap_pending(pools: &mut Pools, ck: ContextKey, frame: PendingFrame) -> (had: PendingFrame)
    requires
        old(pools).wf(),
        old(pools).contexts@.contains_key(ck),
    ensures
        final(pools).wf(),
        had@ == old(pools).contexts@[ck].pending,
        changed(
            old(pools).contexts,
            final(pools).contexts,
            ck,
            (ContextView { pending: frame@, ..old(pools).contexts@[ck] }),
        ),
        final(pools).configs == old(pools).configs,
        final(pools).surfaces == old(pools).surfaces,
        final(pools).buffers == old(pools).buffers,
        final(pools).images == old(pools).images,
{
    let mut frame = frame;
    if let Some(c) = pools.contexts.get_mut(ck) {
        core::mem::swap(&mut c.pending, &mut frame);
    }
    frame
}

/// Sort parameter buffers into the frame of a context, in order. An ID that
/// names no buffer stops that; the buffers before it stay taken in.
pub fn render_picture(pools: &mut Pools, context: u32, buffers: &[u32]) -> (r: DriverResult<()>)
    requires
        old(pools).wf(),
        find_id(old(pools).contexts@, context) is Some ==> readable(
            old(pools).buffers@,
            buffers@,
        ),
    ensures
        final(pools).wf(),
        if buffers@.len() == 0 {
            r == Err::<(), DriverError>(DriverError::InvalidParameter) && *final(pools) == *old(
                pools,
            )
        } else {
            match find_id(old(pools).contexts@, context) {
                None => r == Err::<(), DriverError>(DriverError::InvalidContext) && *final(pools)
                    == *old(pools),
                Some(ck) => {
                    let c = old(pools).contexts@[ck];
                    let n = known_prefix(old(pools).buffers@, buffers@);
                    &&& r == if n == buffers@.len() {
                        Ok::<(), DriverError>(())
                    } else {
                        Err(DriverError::InvalidBuffer)
                    }
                    &&& changed(
                        old(pools).contexts,
                        final(pools).contexts,
                        ck,
                        ContextView {
                            pending: absorbed_all(
                                c.pending,
                                old(pools).buffers@,
                                buffers@,
                                n,
                            ),
                            ..c
                        },
                    )
                    &&& final(pools).configs == old(pools).configs
                    &&& final(pools).surfaces == old(pools).surfaces
                    &&& final(pools).buffers == old(pools).buffers
                    &&& final(pools).images == old(pools).images
                },
            }
        },
{
    if buffers.len() == 0 {
        return Err(DriverError::InvalidParameter);
    }
    let ck = match pools.contexts.find_by_low_bits(context) {
        Some(k) => k,
        None => return Err(DriverError::InvalidContext),
    };
    let ghost start = *pools;
    let ghost c0 = pools.contexts@[ck];
    let ghost bufs = pools.buffers@;
    let ghost n = known_prefix(bufs, buffers@);
    proof {
        lemma_known_prefix(bufs, buffers@);
    }
    let mut pending = swap_pending(pools, ck, PendingFrame::default());
    let mut result: DriverResult<()> = Ok(());
    let mut i: usize = 0;
    while i < buffers.len()
        invariant_except_break
            result == Ok::<(), DriverError>(()),
        invariant
            pools.wf(),
            pools.buffers@ == bufs,
            pools.contexts@.contains_key(ck),
            n == known_prefix(bufs, buffers@),
            0 <= i <= buffers@.len(),
            i <= n <= buffers@.len(),
            forall|j: int| 0 <= j < n ==> find_id(bufs, #[trigger] buffers@[j]) is Some,
            n < buffers@.len() ==> find_id(bufs, buffers@[n]) is None,
            pending@ == absorbed_all(c0.pending, bufs, buffers@, i as int),
            start.buffers == pools.buffers,
            start.configs == pools.configs,
            start.surfaces == pools.surfaces,
            start.images == pools.images,
            changed(
                start.contexts,
                pools.contexts,
                ck,
                (ContextView { pending: empty_frame(), ..c0 }),
            ),
        ensures
            i == n,
            result == if n == buffers@.len() {
                Ok::<(), DriverError>(())
            } else {
                Err(DriverError::InvalidBuffer)
            },
        decreases buffers.len() - i,
    {
        let bk = match pools.buffers.find_by_low_bits(buffers[i]) {
            Some(k) => k,
            None => {
                result = Err(DriverError::InvalidBuffer);
                break;
            },
        };
        proof {
            assert(find_id(bufs, buffers@[i as int]) == Some(bk));
            if i == n {
                assert(find_id(bufs, buffers@[n]) is None);
            }
        }
        if let Some(brec) = pools.buffers.get(bk) {
            let data = copy_bytes(brec.storage.bytes());
            pending = absorb(pending, bk, brec.buf_type, data);
            proof {
                assert(pending@ == absorbed(
                    absorbed_all(c0.pending, bufs, buffers@, i as int),
                    bk,
                    brec@,
                ));
            }
        }
        i += 1;
    }
    let _ = swap_pending(pools, ck, pending);
    proof {
        assert(start.contexts@.insert(ck, pools.contexts@[ck]) =~= pools.contexts@);
    }
    result
}

// ---------------------------------------------------------------------------
// Laws
// ---------------------------------------------------------------------------

/// A picture begins on its target with nothing gathered, and keeps everything
/// else of its context.
pub proof fn law_picture_begins_empty(c: ContextView, target: SurfaceKey)
    ensures
        ({
            let b = begun(c, target);
            &&& b.current_target == Some(target)
            &&& b.pending.seq_param is None
            &&& b.pending.pic_param is None
            &&& b.pending.slice_param is None
            &&& b.pending.misc_params.len() == 0
            &&& b.pending.packed_headers.len() == 0
            &&& b.pending.pending_packed_kind is None
            &&& b.pending.packed_headers_typed.len() == 0
            &&& b.pending.coded_buf is None
            &&& b.session == c.session && b.config == c.config && b.width == c.width && b.height
                == c.height && b.flag == c.flag && b.render_targets == c.render_targets
                && b.last_coded == c.last_coded
        }),
{
}

/// Each buffer goes where its type, as `<va/va.h>` numbers it, belongs: a later
/// one takes the place of an earlier one of sequence, picture, slice and coded
/// buffer, and misc parameters and packed headers are all kept in order. Nothing
/// else of the frame changes.
pub proof fn law_buffers_go_where_they_belong(p: PendingView, key: BufferKey, b: BufferView)
    ensures
        ({
            let bytes = storage_bytes(b.storage);
            let after = absorbed(p, key, b);
            let packed = b.buf_type == 25 || b.buf_type == 26;
            &&& b.buf_type == 22 ==> after.seq_param == Some(bytes)
            &&& b.buf_type != 22 ==> after.seq_param == p.seq_param
            &&& b.buf_type == 23 ==> after.pic_param == Some(bytes)
            &&& b.buf_type != 23 ==> after.pic_param == p.pic_param
            &&& b.buf_type == 24 ==> after.slice_param == Some(bytes)
            &&& b.buf_type != 24 ==> after.slice_param == p.slice_param
            &&& b.buf_type == 27 ==> after.misc_params == p.misc_params.push(bytes)
            &&& b.buf_type != 27 ==> after.misc_params == p.misc_params
            &&& b.buf_type == 21 ==> after.coded_buf == Some(key)
            &&& b.buf_type != 21 ==> after.coded_buf == p.coded_buf
            &&& packed ==> after.packed_headers == p.packed_headers.push((b.buf_type, bytes))
            &&& !packed ==> after.packed_headers == p.packed_headers && after.pending_packed_kind
                == p.pending_packed_kind
            &&& b.buf_type != 26 ==> after.packed_headers_typed == p.packed_headers_typed
        }),
{
}

/// A packed header is announced and then delivered: a parameter buffer that
/// announces a kind and the data buffer after it make one header of that kind
/// with those bytes, and data that nothing announced makes none.
pub proof fn law_packed_header_is_announced_then_delivered(
    p: PendingView,
    key: BufferKey,
    param: BufferView,
    data: BufferView,
)
    requires
        param.buf_type == 25,
        data.buf_type == 26,
        storage_bytes(param.storage).len() >= 4,
    ensures
        ({
            let word = u32_at(storage_bytes(param.storage), 0);
            let announced = absorbed(p, key, param);
            let after = absorbed(announced, key, data);
            let n = p.packed_headers_typed.len() as int;
            let kind = after.packed_headers_typed[n].kind;
            let made = after.packed_headers_typed.len() == n + 1;
            &&& after.pending_packed_kind is None
            &&& made <==> word == 1 || word == 2 || word == 3
            &&& made ==> {
                &&& after.packed_headers_typed[n].bytes == storage_bytes(data.storage)
                &&& kind == PackedHeaderKind::Sequence <==> word == 1
                &&& kind == PackedHeaderKind::Picture <==> word == 2
                &&& kind == PackedHeaderKind::Slice <==> word == 3
                &&& after.packed_headers_typed.take(n) == p.packed_headers_typed
            }
            &&& !made ==> after.packed_headers_typed == p.packed_headers_typed
            &&& absorbed(after, key, data).packed_headers_typed == after.packed_headers_typed
        }),
{
    law_fields_are_little_endian(storage_bytes(param.storage), 0);
    let announced = absorbed(p, key, param);
    let after = absorbed(announced, key, data);
    let n = p.packed_headers_typed.len() as int;
    if after.packed_headers_typed.len() == n + 1 {
        assert(after.packed_headers_typed.take(n) =~= p.packed_headers_typed);
    }
}

/// Rendering takes in every buffer up to the first that does not exist, in order
/// and each once.
pub proof fn law_rendering_stops_at_an_unknown_buffer(
    p: PendingView,
    buffers: Map<BufferKey, BufferView>,
    ids: Seq<u32>,
)
    ensures
        ({
            let n = known_prefix(buffers, ids);
            &&& 0 <= n <= ids.len()
            &&& forall|i: int| 0 <= i < n ==> find_id(buffers, #[trigger] ids[i]) is Some
            &&& n < ids.len() ==> find_id(buffers, ids[n]) is None
            &&& absorbed_all(p, buffers, ids, 0) == p
            &&& forall|i: int|
                0 < i <= n ==> #[trigger] absorbed_all(p, buffers, ids, i) == absorbed(
                    absorbed_all(p, buffers, ids, i - 1),
                    find_id(buffers, ids[i - 1])->Some_0,
                    buffers[find_id(buffers, ids[i - 1])->Some_0],
                )
        }),
{
    lemma_known_prefix(buffers, ids);
}

} // verus!
