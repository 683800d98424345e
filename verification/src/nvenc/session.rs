//! NVENC H.264 encode session.
//!
//! A session owns an encoder handle, a table of registered surfaces, a
//! round-robin pool of bitstream output slots, and a queue of coded frames
//! that wait for delivery. NVENC may answer `NEED_MORE_INPUT` and defer a
//! frame's output; its slot is then `Pending` and keeps the mapped input alive
//! until the output arrives. Frames are numbered as they are submitted, so that
//! output is asked for, queued and delivered in the order of submission.
//!
//! Nothing here calls NVENC. An operation that needs the encoder hands out the
//! next [`EncodeCall`] (or [`OpenCall`], ...) together with a run value, and is
//! resumed with the answer. Calls whose answer is ignored are handed out as
//! [`NvencRelease`] lists, to be made in order before the next call.

use crate::ids::SurfaceKey;
use crate::nvenc::h264_config::EncoderConfig;
use crate::nvenc::preset::{NvencPreset, Tuning};
use std::collections::{HashMap, VecDeque};
use vstd::prelude::*;

verus! {

/// Size of the bitstream output pool. Six slots cover CBR streams without
/// look-ahead or B-frames, with room to survive a few deferrals.
pub const POOL_SIZE: usize = 6;

/// A VA surface registered with the encoder. The registration is kept and used
/// again across frames.
#[derive(Debug, Clone, Copy, PartialEq, Eq, Structural)]
pub struct RegisteredSurface {
    pub registered_ptr: u64,
    pub width: u32,
    pub height: u32,
    pub pitch: u32,
}

/// Bitstream output slot state.
#[derive(Debug, Clone, Copy, PartialEq, Eq, Structural)]
pub enum SlotState {
    /// Available for the next frame.
    Free,
    /// NVENC deferred the output of the frame in this slot; the mapped input
    /// must survive until that output was collected. Frames are numbered in
    /// the order in which they were submitted.
    Pending { mapped_input: u64, surface_key: SurfaceKey, number: u64 },
}

/// One bitstream output buffer.
#[derive(Debug, Clone, Copy, PartialEq, Eq, Structural)]
pub struct BitstreamSlot {
    pub handle: u64,
    pub state: SlotState,
}

/// Result of encoding a frame. `is_pending` means that NVENC buffered the
/// frame and no bytes are available yet; the output comes with a later frame.
#[derive(Debug)]
pub struct CodedBitstream {
    pub data: Vec<u8>,
    pub is_pending: bool,
    pub is_idr: bool,
}

/// The contents of a [`CodedBitstream`].
#[verifier::ext_equal]
pub struct CodedView {
    pub data: Seq<u8>,
    pub is_pending: bool,
    pub is_idr: bool,
}

impl View for CodedBitstream {
    type V = CodedView;

    open spec fn view(&self) -> CodedView {
        CodedView { data: self.data@, is_pending: self.is_pending, is_idr: self.is_idr }
    }
}

/// No bytes, nothing pending.
pub open spec fn empty_bitstream() -> CodedView {
    CodedView { data: Seq::empty(), is_pending: false, is_idr: false }
}

/// What the client is given while NVENC holds every frame.
pub open spec fn nothing_yet() -> CodedView {
    CodedView { data: Seq::empty(), is_pending: true, is_idr: false }
}

impl Default for CodedBitstream {
    fn default() -> (coded: Self)
        ensures
            coded@ == empty_bitstream(),
    {
        CodedBitstream { data: Vec::new(), is_pending: false, is_idr: false }
    }
}

/// A coded frame that waits for delivery, with its submission number.
#[derive(Debug)]
pub struct QueuedOutput {
    pub number: u64,
    pub coded: CodedBitstream,
}

/// The contents of a [`QueuedOutput`].
#[verifier::ext_equal]
pub struct QueuedView {
    pub number: u64,
    pub coded: CodedView,
}

impl View for QueuedOutput {
    type V = QueuedView;

    open spec fn view(&self) -> QueuedView {
        QueuedView { number: self.number, coded: self.coded@ }
    }
}

/// An encode session.
pub struct NvencSession {
    pub(crate) encoder: u64,
    pub(crate) config: EncoderConfig,
    pub(crate) preset: NvencPreset,
    pub(crate) tuning: Tuning,
    pub(crate) registered: HashMap<u64, RegisteredSurface>,
    pub(crate) pool: Vec<BitstreamSlot>,
    pub(crate) next_slot: usize,
    /// Submission number of the next frame.
    pub(crate) submitted: u64,
    pub(crate) pending_outputs: VecDeque<QueuedOutput>,
}

/// The contents of an [`NvencSession`]. `outputs` is the queue of coded frames
/// not delivered yet, oldest first; `registered` is keyed by raw surface key;
/// `submitted` is the submission number of the next frame.
#[verifier::ext_equal]
pub struct SessionView {
    pub encoder: u64,
    pub config: EncoderConfig,
    pub preset: NvencPreset,
    pub tuning: Tuning,
    pub registered: Map<u64, RegisteredSurface>,
    pub pool: Seq<BitstreamSlot>,
    pub next_slot: int,
    pub submitted: u64,
    pub outputs: Seq<QueuedView>,
}

impl View for NvencSession {
    type V = SessionView;

    open(crate) spec fn view(&self) -> SessionView {
        SessionView {
            encoder: self.encoder,
            config: self.config,
            preset: self.preset,
            tuning: self.tuning,
            registered: self.registered@,
            pool: self.pool@,
            next_slot: self.next_slot as int,
            submitted: self.submitted,
            outputs: self.pending_outputs@.map_values(|c: QueuedOutput| c@),
        }
    }
}

/// What every operation keeps: the pool has its fixed size, and the
/// round-robin pointer lies in it.
pub open spec fn session_wf(s: SessionView) -> bool {
    &&& s.pool.len() == POOL_SIZE
    &&& 0 <= s.next_slot < POOL_SIZE
}

/// A call into NVENC whose answer does not matter.
#[derive(Debug, Clone, Copy, PartialEq, Eq, Structural)]
pub enum NvencRelease {
    /// `NvEncUnlockBitstream`.
    Unlock { encoder: u64, output: u64 },
    /// `NvEncUnmapInputResource`.
    Unmap { encoder: u64, input: u64 },
    /// `NvEncDestroyBitstreamBuffer`.
    DestroyBitstream { encoder: u64, output: u64 },
    /// `NvEncUnregisterResource`.
    Unregister { encoder: u64, resource: u64 },
    /// `NvEncDestroyEncoder`.
    DestroyEncoder { encoder: u64 },
}

impl NvencSession {
    /// The session can be used.
    pub open spec fn wf(&self) -> bool {
        session_wf(self@)
    }

    /// The handle of the encoder.
    pub fn encoder(&self) -> (handle: u64)
        ensures
            handle == self@.encoder,
    {
        self.encoder
    }

    /// The current encoder configuration.
    pub fn config(&self) -> (cfg: &EncoderConfig)
        ensures
            *cfg == self@.config,
    {
        &self.config
    }
}

// ---------------------------------------------------------------------------
// Slot selection
// ---------------------------------------------------------------------------

/// The submission number of the frame in a pending slot.
pub open spec fn number_of(state: SlotState) -> u64 {
    match state {
        SlotState::Pending { number, .. } => number,
        SlotState::Free => 0,
    }
}

/// Whether a slot waits for the output of a frame with a submission number at
/// or after a given one.
pub open spec fn waits_from(slot: BitstreamSlot, from: int) -> bool {
    slot.state is Pending && number_of(slot.state) >= from
}

/// Of the first `n` slots, the pending one with the least submission number at
/// or after a given one.
pub open spec fn least_pending(pool: Seq<BitstreamSlot>, from: int, n: int) -> Option<int>
    decreases n,
{
    if n <= 0 {
        None
    } else {
        let before = least_pending(pool, from, n - 1);
        match before {
            Some(i) => if waits_from(pool[n - 1], from) && number_of(pool[n - 1].state) < number_of(
                pool[i].state,
            ) {
                Some(n - 1)
            } else {
                before
            },
            None => if waits_from(pool[n - 1], from) {
                Some(n - 1)
            } else {
                None
            },
        }
    }
}

/// The pending slot whose frame was submitted first, of the frames with a
/// submission number at or after a given one.
pub open spec fn first_pending(pool: Seq<BitstreamSlot>, from: int) -> Option<int> {
    least_pending(pool, from, pool.len() as int)
}

/// Whether a slot waits for the output of a frame that was submitted before a
/// given number.
pub open spec fn waits_below(slot: BitstreamSlot, below: int) -> bool {
    slot.state is Pending && number_of(slot.state) < below
}

/// Of the first `n` slots, the pending one with the greatest submission number
/// below a given one.
pub open spec fn greatest_pending(pool: Seq<BitstreamSlot>, below: int, n: int) -> Option<int>
    decreases n,
{
    if n <= 0 {
        None
    } else {
        let before = greatest_pending(pool, below, n - 1);
        match before {
            Some(i) => if waits_below(pool[n - 1], below) && number_of(pool[n - 1].state)
                > number_of(pool[i].state) {
                Some(n - 1)
            } else {
                before
            },
            None => if waits_below(pool[n - 1], below) {
                Some(n - 1)
            } else {
                None
            },
        }
    }
}

/// The pending slot whose frame was submitted last, of the frames submitted
/// before a given number.
pub open spec fn last_pending(pool: Seq<BitstreamSlot>, below: int) -> Option<int> {
    greatest_pending(pool, below, pool.len() as int)
}

/// The first free slot in cyclic order from `next`, when the first `i` slots
/// of that order are passed over.
pub open spec fn free_from(pool: Seq<BitstreamSlot>, next: int, i: int) -> Option<int>
    decreases pool.len() - i,
{
    if i >= pool.len() {
        None
    } else if pool[(next + i) % (pool.len() as int)].state is Free {
        Some((next + i) % (pool.len() as int))
    } else {
        free_from(pool, next, i + 1)
    }
}

proof fn lemma_least_pending(pool: Seq<BitstreamSlot>, from: int, n: int)
    requires
        n <= pool.len(),
    ensures
        match least_pending(pool, from, n) {
            Some(i) => 0 <= i < n && waits_from(pool[i], from) && forall|j: int|
                0 <= j < n && waits_from(#[trigger] pool[j], from) ==> number_of(pool[i].state)
                    <= number_of(pool[j].state),
            None => forall|j: int| 0 <= j < n ==> !waits_from(#[trigger] pool[j], from),
        },
    decreases n,
{
    if n > 0 {
        lemma_least_pending(pool, from, n - 1);
    }
}

/// What is found is the pending slot with the least submission number, and
/// nothing is found only where no slot is pending.
pub proof fn lemma_first_pending(pool: Seq<BitstreamSlot>, from: int)
    ensures
        match first_pending(pool, from) {
            Some(i) => 0 <= i < pool.len() && waits_from(pool[i], from) && forall|j: int|
                0 <= j < pool.len() && waits_from(#[trigger] pool[j], from) ==> number_of(
                    pool[i].state,
                ) <= number_of(pool[j].state),
            None => forall|j: int| 0 <= j < pool.len() ==> !waits_from(#[trigger] pool[j], from),
        },
{
    lemma_least_pending(pool, from, pool.len() as int);
}

proof fn lemma_greatest_pending(pool: Seq<BitstreamSlot>, below: int, n: int)
    requires
        n <= pool.len(),
    ensures
        match greatest_pending(pool, below, n) {
            Some(i) => 0 <= i < n && waits_below(pool[i], below) && forall|j: int|
                0 <= j < n && waits_below(#[trigger] pool[j], below) ==> number_of(pool[j].state)
                    <= number_of(pool[i].state),
            None => forall|j: int| 0 <= j < n ==> !waits_below(#[trigger] pool[j], below),
        },
    decreases n,
{
    if n > 0 {
        lemma_greatest_pending(pool, below, n - 1);
    }
}

/// What is found is the pending slot with the greatest submission number below
/// the given one, and nothing is found only where no slot has such a number.
pub proof fn lemma_last_pending(pool: Seq<BitstreamSlot>, below: int)
    ensures
        match last_pending(pool, below) {
            Some(i) => 0 <= i < pool.len() && waits_below(pool[i], below) && forall|j: int|
                0 <= j < pool.len() && waits_below(#[trigger] pool[j], below) ==> number_of(
                    pool[j].state,
                ) <= number_of(pool[i].state),
            None => forall|j: int| 0 <= j < pool.len() ==> !waits_below(#[trigger] pool[j], below),
        },
{
    lemma_greatest_pending(pool, below, pool.len() as int);
}

/// What is found lies in the pool and is free, and nothing is found only where
/// no slot is free.
pub proof fn lemma_free_from(pool: Seq<BitstreamSlot>, next: int, i: int)
    requires
        0 <= next < pool.len(),
        0 <= i,
    ensures
        match free_from(pool, next, i) {
            Some(idx) => 0 <= idx < pool.len() && pool[idx].state is Free,
            None => forall|j: int|
                i <= j < pool.len() ==> pool[#[trigger] ((next + j) % (
                pool.len() as int))].state is Pending,
        },
    decreases pool.len() - i,
{
    if i < pool.len() {
        assert(0 <= (next + i) % (pool.len() as int) < pool.len()) by (nonlinear_arith)
            requires
                0 < pool.len(),
                0 <= next,
                0 <= i,
        ;
        if !(pool[(next + i) % (pool.len() as int)].state is Free) {
            lemma_free_from(pool, next, i + 1);
        }
    }
}

/// Slot selection is complete: a free slot is found whenever the pool has one,
/// and the slot that is found is free.
pub proof fn law_free_slot_is_found(pool: Seq<BitstreamSlot>, next: int)
    requires
        0 <= next < pool.len(),
    ensures
        match free_from(pool, next, 0) {
            Some(idx) => 0 <= idx < pool.len() && pool[idx].state is Free,
            None => forall|k: int| 0 <= k < pool.len() ==> (#[trigger] pool[k]).state is Pending,
        },
{
    lemma_free_from(pool, next, 0);
    if free_from(pool, next, 0) is None {
        let n = pool.len() as int;
        assert forall|k: int| 0 <= k < n implies (#[trigger] pool[k]).state is Pending by {
            let j = if k >= next {
                k - next
            } else {
                k - next + n
            };
            assert((next + j) % n == k) by (nonlinear_arith)
                requires
                    n > 0,
                    0 <= k < n,
                    next + j == k || next + j == k + n,
            ;
        }
    }
}

/// The search for the oldest pending slot is complete: it finds one whenever
/// the pool has one, and no pending frame was submitted before the one found.
pub proof fn law_oldest_pending_slot_is_found(pool: Seq<BitstreamSlot>)
    ensures
        match first_pending(pool, 0) {
            Some(i) => 0 <= i < pool.len() && pool[i].state is Pending && forall|j: int|
                0 <= j < pool.len() && (#[trigger] pool[j]).state is Pending ==> number_of(
                    pool[i].state,
                ) <= number_of(pool[j].state),
            None => forall|j: int| 0 <= j < pool.len() ==> (#[trigger] pool[j]).state is Free,
        },
{
    lemma_first_pending(pool, 0);
    assert forall|j: int| 0 <= j < pool.len() && !waits_from(pool[j], 0) implies (
    #[trigger] pool[j]).state is Free by {}
}

/// Slots are taken in turn: the slot that is found is the first free one from
/// the round-robin pointer on.
pub proof fn law_slots_are_taken_in_turn(pool: Seq<BitstreamSlot>, next: int, i: int)
    requires
        0 <= next < pool.len(),
        0 <= i < pool.len(),
        pool[(next + i) % (pool.len() as int)].state is Free,
        forall|j: int|
            0 <= j < i ==> pool[#[trigger] ((next + j) % (pool.len() as int))].state is Pending,
    ensures
        free_from(pool, next, 0) == Some((next + i) % (pool.len() as int)),
{
    lemma_taken_in_turn(pool, next, 0, i);
}

proof fn lemma_taken_in_turn(pool: Seq<BitstreamSlot>, next: int, from: int, i: int)
    requires
        0 <= next < pool.len(),
        0 <= from <= i < pool.len(),
        pool[(next + i) % (pool.len() as int)].state is Free,
        forall|j: int|
            from <= j < i ==> pool[#[trigger] ((next + j) % (pool.len() as int))].state is Pending,
    ensures
        free_from(pool, next, from) == Some((next + i) % (pool.len() as int)),
    decreases i - from,
{
    if from < i {
        assert(pool[(next + from) % (pool.len() as int)].state is Pending);
        lemma_taken_in_turn(pool, next, from + 1, i);
    }
}

/// A bitstream says nothing until there is output: no bytes, no IDR. Only the
/// one that is given while NVENC holds the frame is marked as pending.
pub proof fn law_no_output_has_no_bytes()
    ensures
        nothing_yet().is_pending && nothing_yet().data.len() == 0 && !nothing_yet().is_idr,
        !empty_bitstream().is_pending && empty_bitstream().data.len() == 0
            && !empty_bitstream().is_idr,
{
}

} // verus!
