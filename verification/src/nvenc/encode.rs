//! Encoding one frame: the calls, the answers, and the run between them.

use crate::error::DriverError;
use crate::ids::{PoolKey, SurfaceKey};
use crate::nvenc::params::{pic_params, pic_params_of, PicParams};
use crate::nvenc::session::{
    first_pending, free_from, greatest_pending, last_pending, law_free_slot_is_found,
    law_oldest_pending_slot_is_found,
    least_pending, lemma_first_pending, lemma_free_from, lemma_last_pending, nothing_yet,
    number_of, session_wf, waits_below, waits_from, BitstreamSlot, CodedBitstream, CodedView,
    NvencRelease, NvencSession, QueuedOutput, QueuedView, RegisteredSurface, SessionView,
    SlotState, POOL_SIZE,
};
use vstd::multiset::Multiset;
use vstd::prelude::*;

verus! {

broadcast use vstd::std_specs::hash::group_hash_axioms;

/// A call into NVENC whose answer decides how encoding goes on.
#[derive(Debug, Clone, Copy, PartialEq, Eq, Structural)]
pub enum EncodeCall {
    /// `NvEncLockBitstream` with `doNotWait` set.
    TryLock { encoder: u64, output: u64 },
    /// `NvEncMapInputResource`.
    MapInput { encoder: u64, registered: u64 },
    /// `NvEncEncodePicture`.
    EncodePicture { encoder: u64, params: PicParams },
    /// `NvEncLockBitstream`, waiting for the output.
    Lock { encoder: u64, output: u64 },
}

/// The answer to an [`EncodeCall`].
#[derive(Debug)]
pub enum EncodeReply {
    /// A lock gave the bytes of a coded frame.
    Ready { data: Vec<u8>, is_idr: bool },
    /// A lock found that the output is not there yet.
    Busy,
    /// The input was mapped to this handle.
    Mapped(u64),
    /// The frame was encoded and its output is available.
    Encoded,
    /// The frame was taken and its output is deferred.
    NeedMoreInput,
    /// Any other status.
    Failed,
}

/// The contents of an [`EncodeReply`].
#[verifier::ext_equal]
pub enum ReplyView {
    Ready { data: Seq<u8>, is_idr: bool },
    Busy,
    Mapped(u64),
    Encoded,
    NeedMoreInput,
    Failed,
}

impl View for EncodeReply {
    type V = ReplyView;

    open spec fn view(&self) -> ReplyView {
        match *self {
            EncodeReply::Ready { data, is_idr } => ReplyView::Ready { data: data@, is_idr },
            EncodeReply::Busy => ReplyView::Busy,
            EncodeReply::Mapped(input) => ReplyView::Mapped(input),
            EncodeReply::Encoded => ReplyView::Encoded,
            EncodeReply::NeedMoreInput => ReplyView::NeedMoreInput,
            EncodeReply::Failed => ReplyView::Failed,
        }
    }
}

/// Where encoding stands while a call is out.
#[derive(Debug, Clone, Copy, PartialEq, Eq, Structural)]
pub enum EncodeRun {
    /// A pending slot is asked, without waiting, for its output.
    Drain { at: usize, key: SurfaceKey, force_idr: bool },
    /// The surface of the new frame is being mapped.
    MapSurface { slot: usize, registration: RegisteredSurface, key: SurfaceKey, force_idr: bool },
    /// The new frame was submitted.
    Submit { slot: usize, mapped_input: u64, key: SurfaceKey },
    /// The output of the new frame is being collected.
    Collect { slot: usize, mapped_input: u64 },
    /// No output is ready; one pending slot is asked once more.
    Probe { at: usize },
    /// Output is ready; a frame that was submitted before it is asked once more.
    Recheck { at: usize },
}

/// A run that belongs to a session.
pub open spec fn run_wf(s: SessionView, run: EncodeRun) -> bool {
    match run {
        EncodeRun::Drain { at, .. } => at < s.pool.len() && s.pool[at as int].state is Pending,
        EncodeRun::MapSurface { slot, .. } => slot < s.pool.len() && s.pool[slot as int].state is Free,
        EncodeRun::Submit { slot, .. } => slot < s.pool.len() && s.pool[slot as int].state is Free,
        EncodeRun::Collect { slot, .. } => slot < s.pool.len() && s.pool[slot as int].state is Free,
        EncodeRun::Probe { at } => at < s.pool.len() && s.pool[at as int].state is Pending
            && first_pending(s.pool, 0) == Some(at as int) && s.outputs.len() == 0,
        EncodeRun::Recheck { at } => at < s.pool.len() && s.pool[at as int].state is Pending
            && s.outputs.len() > 0,
    }
}

/// How encoding goes on.
pub enum EncodeNext {
    Call { call: EncodeCall, run: EncodeRun },
    Done(Result<CodedBitstream, DriverError>),
}

/// The contents of an [`EncodeNext`].
#[verifier::ext_equal]
pub enum NextView {
    Call { call: EncodeCall, run: EncodeRun },
    Done(Result<CodedView, DriverError>),
}

impl View for EncodeNext {
    type V = NextView;

    open spec fn view(&self) -> NextView {
        match *self {
            EncodeNext::Call { call, run } => NextView::Call { call, run },
            EncodeNext::Done(Ok(coded)) => NextView::Done(Ok(coded@)),
            EncodeNext::Done(Err(e)) => NextView::Done(Err(e)),
        }
    }
}

/// One step of encoding: what to release, in order, and how to go on.
pub struct EncodeStep {
    pub releases: Vec<NvencRelease>,
    pub next: EncodeNext,
}

/// What a step of encoding leaves behind.
#[verifier::ext_equal]
pub struct EncodeOutcome {
    pub session: SessionView,
    pub releases: Seq<NvencRelease>,
    pub next: NextView,
}

/// The session and the step that a resumed run comes to.
pub open spec fn encode_outcome(session: SessionView, step: EncodeStep) -> EncodeOutcome {
    EncodeOutcome { session, releases: step.releases@, next: step.next@ }
}

/// The place of a submission number in a queue: behind every entry that was not
/// submitted later, looking from the back.
pub open spec fn place_in(queue: Seq<QueuedView>, number: u64) -> int
    decreases queue.len(),
{
    if queue.len() == 0 || queue.last().number <= number {
        queue.len() as int
    } else {
        place_in(queue.drop_last(), number)
    }
}

/// A queue with one more coded frame, put in its place by submission number.
pub open spec fn queue_with(queue: Seq<QueuedView>, frame: QueuedView) -> Seq<QueuedView> {
    queue.insert(place_in(queue, frame.number), frame)
}

/// A coded frame with its submission number.
pub open spec fn numbered_frame(number: u64, data: Seq<u8>, is_idr: bool) -> QueuedView {
    QueuedView { number, coded: CodedView { data, is_pending: false, is_idr } }
}

/// A session with a slot freed and its output queued by submission number.
pub open spec fn harvested(
    s: SessionView,
    slot: int,
    number: u64,
    data: Seq<u8>,
    is_idr: bool,
) -> SessionView {
    SessionView {
        pool: s.pool.update(slot, BitstreamSlot { state: SlotState::Free, ..s.pool[slot] }),
        outputs: queue_with(s.outputs, numbered_frame(number, data, is_idr)),
        ..s
    }
}

/// The submission number after another. Numbers come round at 64 bits.
pub open spec fn next_number(number: u64) -> u64 {
    if number == u64::MAX {
        0
    } else {
        (number + 1) as u64
    }
}

/// A session with a slot freed and no output gained.
pub open spec fn freed(s: SessionView, slot: int) -> SessionView {
    SessionView {
        pool: s.pool.update(slot, BitstreamSlot { state: SlotState::Free, ..s.pool[slot] }),
        ..s
    }
}

/// A session that waits for the output of the frame in a slot, which gets the
/// next submission number; the round-robin pointer goes one past that slot.
pub open spec fn deferred(s: SessionView, slot: int, input: u64, key: SurfaceKey) -> SessionView {
    SessionView {
        pool: s.pool.update(
            slot,
            BitstreamSlot {
                state: SlotState::Pending {
                    mapped_input: input,
                    surface_key: key,
                    number: s.submitted,
                },
                ..s.pool[slot]
            },
        ),
        next_slot: (slot + 1) % (s.pool.len() as int),
        submitted: next_number(s.submitted),
        ..s
    }
}

/// The input that a pending slot keeps mapped.
pub open spec fn input_of(state: SlotState) -> u64 {
    match state {
        SlotState::Pending { mapped_input, .. } => mapped_input,
        SlotState::Free => 0,
    }
}

/// What collecting the output of a slot releases: the lock, then the input.
pub open spec fn collect_releases(s: SessionView, slot: int, input: u64) -> Seq<NvencRelease> {
    seq![
        NvencRelease::Unlock { encoder: s.encoder, output: s.pool[slot].handle },
        NvencRelease::Unmap { encoder: s.encoder, input },
    ]
}

/// Delivery: the oldest coded frame, or word that there is none yet.
pub open spec fn deliver_outcome(s: SessionView, releases: Seq<NvencRelease>) -> EncodeOutcome {
    if s.outputs.len() > 0 {
        EncodeOutcome {
            session: SessionView { outputs: s.outputs.drop_first(), ..s },
            releases,
            next: NextView::Done(Ok(s.outputs[0].coded)),
        }
    } else {
        EncodeOutcome { session: s, releases, next: NextView::Done(Ok(nothing_yet())) }
    }
}

/// Before queued output goes out: every pending slot with a submission number
/// below a given one is asked once more, without waiting, the latest first; then
/// deliver. Going back in the order of submission, each slot is asked when all
/// output that could overtake it is there.
pub open spec fn recheck_outcome(
    s: SessionView,
    releases: Seq<NvencRelease>,
    below: int,
) -> EncodeOutcome {
    match last_pending(s.pool, below) {
        Some(i) => EncodeOutcome {
            session: s,
            releases,
            next: NextView::Call {
                call: EncodeCall::TryLock { encoder: s.encoder, output: s.pool[i].handle },
                run: EncodeRun::Recheck { at: i as usize },
            },
        },
        None => deliver_outcome(s, releases),
    }
}

/// After the frame is in: if no output is queued, ask the oldest pending slot,
/// without waiting, and deliver. Otherwise ask the slots whose frames were
/// submitted before the first queued one.
pub open spec fn probe_outcome(s: SessionView, releases: Seq<NvencRelease>) -> EncodeOutcome {
    if s.outputs.len() > 0 {
        recheck_outcome(s, releases, s.outputs[0].number as int)
    } else {
        match first_pending(s.pool, 0) {
            Some(i) => EncodeOutcome {
                session: s,
                releases,
                next: NextView::Call {
                    call: EncodeCall::TryLock { encoder: s.encoder, output: s.pool[i].handle },
                    run: EncodeRun::Probe { at: i as usize },
                },
            },
            None => deliver_outcome(s, releases),
        }
    }
}

/// After the drain: the surface must be registered and a slot must be free;
/// then the surface is mapped.
pub open spec fn map_outcome(
    s: SessionView,
    releases: Seq<NvencRelease>,
    key: SurfaceKey,
    force_idr: bool,
) -> EncodeOutcome {
    let next = if !s.registered.contains_key(key.raw()) {
        NextView::Done(Err(DriverError::InvalidSurface))
    } else {
        let registration = s.registered[key.raw()];
        match free_from(s.pool, s.next_slot, 0) {
            None => NextView::Done(
                Err(DriverError::OperationFailed("NVENC bitstream pool exhausted")),
            ),
            Some(slot) => NextView::Call {
                call: EncodeCall::MapInput {
                    encoder: s.encoder,
                    registered: registration.registered_ptr,
                },
                run: EncodeRun::MapSurface { slot: slot as usize, registration, key, force_idr },
            },
        }
    };
    EncodeOutcome { session: s, releases, next }
}

/// Every pending slot with a submission number at or after a given one is asked
/// for its output, without waiting, in the order of submission; then the new
/// frame goes in.
pub open spec fn drain_outcome(
    s: SessionView,
    releases: Seq<NvencRelease>,
    from: int,
    key: SurfaceKey,
    force_idr: bool,
) -> EncodeOutcome {
    match first_pending(s.pool, from) {
        Some(i) => EncodeOutcome {
            session: s,
            releases,
            next: NextView::Call {
                call: EncodeCall::TryLock { encoder: s.encoder, output: s.pool[i].handle },
                run: EncodeRun::Drain { at: i as usize, key, force_idr },
            },
        },
        None => map_outcome(s, releases, key, force_idr),
    }
}

/// The first step of encoding a frame.
pub open spec fn begin_outcome(
    s: SessionView,
    key: SurfaceKey,
    force_idr: bool,
    api_ready: bool,
) -> EncodeOutcome {
    if api_ready {
        drain_outcome(s, Seq::empty(), 0, key, force_idr)
    } else {
        EncodeOutcome {
            session: s,
            releases: Seq::empty(),
            next: NextView::Done(Err(DriverError::OperationFailed("ENCODE_API unavailable"))),
        }
    }
}

/// The step after a call was answered.
pub open spec fn resume_outcome(s: SessionView, run: EncodeRun, reply: ReplyView) -> EncodeOutcome {
    match run {
        EncodeRun::Drain { at, key, force_idr } => {
            let input = input_of(s.pool[at as int].state);
            let number = number_of(s.pool[at as int].state);
            match reply {
                ReplyView::Ready { data, is_idr } => drain_outcome(
                    harvested(s, at as int, number, data, is_idr),
                    collect_releases(s, at as int, input),
                    number + 1,
                    key,
                    force_idr,
                ),
                ReplyView::Busy => drain_outcome(s, Seq::empty(), number + 1, key, force_idr),
                _ => drain_outcome(
                    freed(s, at as int),
                    seq![NvencRelease::Unmap { encoder: s.encoder, input }],
                    number + 1,
                    key,
                    force_idr,
                ),
            }
        },
        EncodeRun::MapSurface { slot, registration, key, force_idr } => match reply {
            ReplyView::Mapped(input) => EncodeOutcome {
                session: s,
                releases: Seq::empty(),
                next: NextView::Call {
                    call: EncodeCall::EncodePicture {
                        encoder: s.encoder,
                        params: pic_params_of(
                            registration,
                            input,
                            s.pool[slot as int].handle,
                            force_idr,
                        ),
                    },
                    run: EncodeRun::Submit { slot, mapped_input: input, key },
                },
            },
            _ => EncodeOutcome {
                session: s,
                releases: Seq::empty(),
                next: NextView::Done(Err(DriverError::OperationFailed("NvEncMapInputResource"))),
            },
        },
        EncodeRun::Submit { slot, mapped_input, key } => match reply {
            ReplyView::Encoded => EncodeOutcome {
                session: s,
                releases: Seq::empty(),
                next: NextView::Call {
                    call: EncodeCall::Lock {
                        encoder: s.encoder,
                        output: s.pool[slot as int].handle,
                    },
                    run: EncodeRun::Collect { slot, mapped_input },
                },
            },
            ReplyView::NeedMoreInput => probe_outcome(
                deferred(s, slot as int, mapped_input, key),
                Seq::empty(),
            ),
            _ => EncodeOutcome {
                session: s,
                releases: seq![NvencRelease::Unmap { encoder: s.encoder, input: mapped_input }],
                next: NextView::Done(Err(DriverError::Encoding("NvEncEncodePicture"))),
            },
        },
        EncodeRun::Collect { slot, mapped_input } => match reply {
            ReplyView::Ready { data, is_idr } => probe_outcome(
                SessionView {
                    next_slot: (slot + 1) % (s.pool.len() as int),
                    submitted: next_number(s.submitted),
                    ..harvested(s, slot as int, s.submitted, data, is_idr)
                },
                collect_releases(s, slot as int, mapped_input),
            ),
            _ => EncodeOutcome {
                session: s,
                releases: Seq::empty(),
                next: NextView::Done(Err(DriverError::Encoding("NvEncLockBitstream"))),
            },
        },
        EncodeRun::Probe { at } => match reply {
            ReplyView::Ready { data, is_idr } => deliver_outcome(
                harvested(s, at as int, number_of(s.pool[at as int].state), data, is_idr),
                collect_releases(s, at as int, input_of(s.pool[at as int].state)),
            ),
            _ => deliver_outcome(s, Seq::empty()),
        },
        EncodeRun::Recheck { at } => {
            let input = input_of(s.pool[at as int].state);
            let number = number_of(s.pool[at as int].state);
            match reply {
                ReplyView::Ready { data, is_idr } => recheck_outcome(
                    harvested(s, at as int, number, data, is_idr),
                    collect_releases(s, at as int, input),
                    number as int,
                ),
                ReplyView::Busy => recheck_outcome(s, Seq::empty(), number as int),
                _ => recheck_outcome(
                    freed(s, at as int),
                    seq![NvencRelease::Unmap { encoder: s.encoder, input }],
                    number as int,
                ),
            }
        },
    }
}

/// The least submission number after a given one.
pub open spec fn from_after(after: Option<u64>) -> int {
    match after {
        Some(n) => n + 1,
        None => 0,
    }
}

impl NvencSession {
    /// Round-robin search for a free slot, starting at the pointer.
    fn find_free_slot(&self) -> (slot: Option<usize>)
        requires
            self.wf(),
        ensures
            match slot {
                Some(i) => i < self@.pool.len() && free_from(self@.pool, self@.next_slot, 0)
                    == Some(i as int) && self@.pool[i as int].state is Free,
                None => free_from(self@.pool, self@.next_slot, 0) is None,
            },
    {
        let n: usize = self.pool.len();
        let mut i: usize = 0;
        while i < n
            invariant
                self.wf(),
                n == self.pool@.len(),
                i <= n,
                free_from(self@.pool, self@.next_slot, 0) == free_from(
                    self@.pool,
                    self@.next_slot,
                    i as int,
                ),
            decreases n - i,
        {
            let idx: usize = (self.next_slot + i) % n;
            if matches!(self.pool[idx].state, SlotState::Free) {
                return Some(idx);
            }
            i += 1;
        }
        None
    }

    /// The pending slot whose frame was submitted first, of the frames submitted
    /// after a given one.
    fn pending_slot_after(&self, after: Option<u64>) -> (slot: Option<usize>)
        requires
            self.wf(),
        ensures
            match slot {
                Some(i) => i < self@.pool.len() && first_pending(self@.pool, from_after(after))
                    == Some(i as int) && self@.pool[i as int].state is Pending,
                None => first_pending(self@.pool, from_after(after)) is None,
            },
    {
        let ghost pool = self@.pool;
        let ghost from = from_after(after);
        let mut best: Option<(usize, u64)> = None;
        let mut i: usize = 0;
        while i < self.pool.len()
            invariant
                self.wf(),
                pool == self.pool@,
                pool == self@.pool,
                from == from_after(after),
                i <= pool.len(),
                match best {
                    Some((b, number)) => b < i && pool[b as int].state is Pending && number_of(
                        pool[b as int].state,
                    ) == number && least_pending(pool, from, i as int) == Some(b as int),
                    None => least_pending(pool, from, i as int) is None,
                },
            decreases self.pool.len() - i,
        {
            if let SlotState::Pending { number, .. } = self.pool[i].state {
                let later = match after {
                    Some(n) => number > n,
                    None => true,
                };
                let older = match best {
                    Some((_, least)) => number < least,
                    None => true,
                };
                if later && older {
                    best = Some((i, number));
                }
            }
            i += 1;
        }
        match best {
            Some((b, _)) => Some(b),
            None => None,
        }
    }

    /// The pending slot whose frame was submitted first.
    fn oldest_pending_slot(&self) -> (slot: Option<usize>)
        requires
            self.wf(),
        ensures
            match slot {
                Some(i) => i < self@.pool.len() && first_pending(self@.pool, 0) == Some(i as int)
                    && self@.pool[i as int].state is Pending && forall|j: int|
                    0 <= j < self@.pool.len() && (#[trigger] self@.pool[j]).state is Pending
                        ==> number_of(self@.pool[i as int].state) <= number_of(
                        self@.pool[j].state,
                    ),
                None => first_pending(self@.pool, 0) is None && forall|j: int|
                    0 <= j < self@.pool.len() ==> (#[trigger] self@.pool[j]).state is Free,
            },
    {
        proof {
            law_oldest_pending_slot_is_found(self@.pool);
        }
        self.pending_slot_after(None)
    }

    /// Ask the oldest pending slot, of the frames submitted after a given one,
    /// for its output, or put the new frame in if there is none.
    fn drain_pending_non_blocking(
        &self,
        after: Option<u64>,
        key: SurfaceKey,
        force_idr: bool,
    ) -> (next: EncodeNext)
        requires
            self.wf(),
        ensures
            forall|releases: Seq<NvencRelease>|
                (EncodeOutcome { session: self@, releases, next: next@ })
                    == #[trigger] drain_outcome(
                    self@,
                    releases,
                    from_after(after),
                    key,
                    force_idr,
                ),
    {
        match self.pending_slot_after(after) {
            Some(at) => {
                let call = EncodeCall::TryLock {
                    encoder: self.encoder,
                    output: self.pool[at].handle,
                };
                EncodeNext::Call { call, run: EncodeRun::Drain { at, key, force_idr } }
            },
            None => self.map_surface(key, force_idr),
        }
    }

    /// Look up the surface, pick a free slot, and ask for the surface to be
    /// mapped.
    fn map_surface(&self, key: SurfaceKey, force_idr: bool) -> (next: EncodeNext)
        requires
            self.wf(),
        ensures
            forall|releases: Seq<NvencRelease>|
                (EncodeOutcome { session: self@, releases, next: next@ })
                    == #[trigger] map_outcome(self@, releases, key, force_idr),
    {
        let registration: RegisteredSurface = match self.registered.get(&key.raw) {
            Some(r) => *r,
            None => return EncodeNext::Done(Err(DriverError::InvalidSurface)),
        };
        match self.find_free_slot() {
            None => EncodeNext::Done(
                Err(DriverError::OperationFailed("NVENC bitstream pool exhausted")),
            ),
            Some(slot) => {
                let call = EncodeCall::MapInput {
                    encoder: self.encoder,
                    registered: registration.registered_ptr,
                };
                EncodeNext::Call {
                    call,
                    run: EncodeRun::MapSurface { slot, registration, key, force_idr },
                }
            },
        }
    }

    /// Queue the output of a slot by its submission number, and free the slot.
    fn harvest(&mut self, slot: usize, number: u64, data: Vec<u8>, is_idr: bool)
        requires
            old(self).wf(),
            slot < old(self)@.pool.len(),
        ensures
            final(self)@ == harvested(old(self)@, slot as int, number, data@, is_idr),
    {
        let handle: u64 = self.pool[slot].handle;
        self.pool.set(slot, BitstreamSlot { handle, state: SlotState::Free });
        let ghost queue = self@.outputs;
        let mut at: usize = self.pending_outputs.len();
        proof {
            assert(queue.take(at as int) =~= queue);
        }
        while at > 0 && self.pending_outputs[at - 1].number > number
            invariant
                queue == self@.outputs,
                at <= self.pending_outputs@.len(),
                place_in(queue, number) == place_in(queue.take(at as int), number),
            decreases at,
        {
            proof {
                assert(queue.take(at as int).drop_last() =~= queue.take(at - 1));
                assert(queue[at - 1] == self.pending_outputs@[at - 1]@);
            }
            at -= 1;
        }
        proof {
            if at > 0 {
                assert(queue.take(at as int).last() == self.pending_outputs@[at - 1]@);
            }
            assert(place_in(queue, number) == at);
        }
        let frame = QueuedOutput {
            number,
            coded: CodedBitstream { data, is_pending: false, is_idr },
        };
        self.pending_outputs.insert(at, frame);
        proof {
            assert(self@.outputs =~= queue_with(queue, frame@));
        }
    }

    /// Take in what a pending slot answered to a lock that does not wait: output
    /// is queued, a busy slot stays pending, and any other slot is freed. Gives
    /// the submission number of its frame, and what to release.
    fn take_answer(&mut self, at: usize, reply: EncodeReply) -> (taken: (u64, Vec<NvencRelease>))
        requires
            old(self).wf(),
            at < old(self)@.pool.len(),
            old(self)@.pool[at as int].state is Pending,
        ensures
            taken.0 == number_of(old(self)@.pool[at as int].state),
            final(self).wf(),
            ({
                let s = old(self)@;
                let input = input_of(s.pool[at as int].state);
                match reply@ {
                    ReplyView::Ready { data, is_idr } => final(self)@ == harvested(
                        s,
                        at as int,
                        taken.0,
                        data,
                        is_idr,
                    ) && taken.1@ == collect_releases(s, at as int, input),
                    ReplyView::Busy => final(self)@ == s && taken.1@ == Seq::<NvencRelease>::empty(),
                    _ => final(self)@ == freed(s, at as int) && taken.1@ == seq![
                        NvencRelease::Unmap { encoder: s.encoder, input },
                    ],
                }
            }),
    {
        let encoder: u64 = self.encoder;
        let mut releases: Vec<NvencRelease> = Vec::new();
        let slot = self.pool[at];
        let (input, number): (u64, u64) = match slot.state {
            SlotState::Pending { mapped_input, number, .. } => (mapped_input, number),
            SlotState::Free => (0, 0),
        };
        match reply {
            EncodeReply::Ready { data, is_idr } => {
                releases.push(NvencRelease::Unlock { encoder, output: slot.handle });
                releases.push(NvencRelease::Unmap { encoder, input });
                self.harvest(at, number, data, is_idr);
            },
            EncodeReply::Busy => {},
            _ => {
                releases.push(NvencRelease::Unmap { encoder, input });
                self.pool.set(at, BitstreamSlot { handle: slot.handle, state: SlotState::Free });
            },
        }
        (number, releases)
    }

    /// Hand out the oldest coded frame.
    fn deliver(&mut self) -> (next: EncodeNext)
        ensures
            forall|releases: Seq<NvencRelease>|
                (EncodeOutcome { session: final(self)@, releases, next: next@ })
                    == #[trigger] deliver_outcome(old(self)@, releases),
    {
        let ghost before = self@;
        match self.pending_outputs.pop_front() {
            Some(frame) => {
                proof {
                    assert(self@.outputs =~= before.outputs.drop_first());
                }
                EncodeNext::Done(Ok(frame.coded))
            },
            None => {
                let coded = CodedBitstream { data: Vec::new(), is_pending: true, is_idr: false };
                proof {
                    assert(self@.outputs =~= before.outputs);
                }
                EncodeNext::Done(Ok(coded))
            },
        }
    }

    /// The pending slot whose frame was submitted last, of the frames submitted
    /// before a given number.
    fn pending_slot_below(&self, below: u64) -> (slot: Option<usize>)
        requires
            self.wf(),
        ensures
            match slot {
                Some(i) => i < self@.pool.len() && last_pending(self@.pool, below as int) == Some(
                    i as int,
                ) && self@.pool[i as int].state is Pending,
                None => last_pending(self@.pool, below as int) is None,
            },
    {
        let ghost pool = self@.pool;
        let mut best: Option<(usize, u64)> = None;
        let mut i: usize = 0;
        while i < self.pool.len()
            invariant
                self.wf(),
                pool == self.pool@,
                pool == self@.pool,
                i <= pool.len(),
                match best {
                    Some((b, number)) => b < i && pool[b as int].state is Pending && number_of(
                        pool[b as int].state,
                    ) == number && greatest_pending(pool, below as int, i as int) == Some(b as int),
                    None => greatest_pending(pool, below as int, i as int) is None,
                },
            decreases self.pool.len() - i,
        {
            if let SlotState::Pending { number, .. } = self.pool[i].state {
                let newer = match best {
                    Some((_, greatest)) => number > greatest,
                    None => true,
                };
                if number < below && newer {
                    best = Some((i, number));
                }
            }
            i += 1;
        }
        match best {
            Some((b, _)) => Some(b),
            None => None,
        }
    }

    /// Ask the latest pending slot, of the frames submitted before a given
    /// number, once more, else deliver.
    fn recheck(&mut self, below: u64) -> (next: EncodeNext)
        requires
            old(self).wf(),
        ensures
            forall|releases: Seq<NvencRelease>|
                (EncodeOutcome { session: final(self)@, releases, next: next@ })
                    == #[trigger] recheck_outcome(old(self)@, releases, below as int),
    {
        match self.pending_slot_below(below) {
            Some(at) => {
                let call = EncodeCall::TryLock {
                    encoder: self.encoder,
                    output: self.pool[at].handle,
                };
                EncodeNext::Call { call, run: EncodeRun::Recheck { at } }
            },
            None => self.deliver(),
        }
    }

    /// Ask the oldest pending slot if nothing is queued, else the slots whose
    /// frames were submitted before the first queued one.
    fn probe(&mut self) -> (next: EncodeNext)
        requires
            old(self).wf(),
        ensures
            forall|releases: Seq<NvencRelease>|
                (EncodeOutcome { session: final(self)@, releases, next: next@ })
                    == #[trigger] probe_outcome(old(self)@, releases),
    {
        if self.pending_outputs.len() > 0 {
            let first: u64 = self.pending_outputs[0].number;
            return self.recheck(first);
        }
        if let Some(idx) = self.oldest_pending_slot() {
            let call = EncodeCall::TryLock {
                encoder: self.encoder,
                output: self.pool[idx].handle,
            };
            return EncodeNext::Call { call, run: EncodeRun::Probe { at: idx } };
        }
        self.deliver()
    }

    /// Encode one frame of a registered surface.
    ///
    /// First every pending slot is asked, without waiting and in the order of
    /// submission, for its output; what is ready joins the queue, which is kept
    /// in that order too. Then the surface is mapped and submitted. If the queue
    /// is still empty, the oldest pending slot is asked once more, again without
    /// waiting: a slot that was orphaned by a reconfiguration would otherwise
    /// block forever. If there is output, the slots of frames submitted before
    /// it are asked once more instead, so that the client sees frames in order.
    /// The oldest queued frame is handed out.
    pub fn encode_frame(&mut self, key: SurfaceKey, force_idr: bool, api_ready: bool) -> (step:
        EncodeStep)
        requires
            old(self).wf(),
        ensures
            encode_outcome(final(self)@, step) == begin_outcome(
                old(self)@,
                key,
                force_idr,
                api_ready,
            ),
            final(self).wf(),
            step.next matches EncodeNext::Call { run: next_run, .. } ==> run_wf(
                final(self)@,
                next_run,
            ),
    {
        proof {
            law_encode_keeps_session_valid(
                self@,
                key,
                force_idr,
                api_ready,
                EncodeRun::Probe { at: 0 },
                ReplyView::Failed,
            );
        }
        if !api_ready {
            return EncodeStep {
                releases: Vec::new(),
                next: EncodeNext::Done(Err(DriverError::OperationFailed("ENCODE_API unavailable"))),
            };
        }
        let next = self.drain_pending_non_blocking(None, key, force_idr);
        EncodeStep { releases: Vec::new(), next }
    }

    /// Go on with a frame after a call was answered.
    #[verifier::spinoff_prover]
    pub fn encode_resume(&mut self, run: EncodeRun, reply: EncodeReply) -> (step: EncodeStep)
        requires
            old(self).wf(),
            run_wf(old(self)@, run),
        ensures
            encode_outcome(final(self)@, step) == resume_outcome(old(self)@, run, reply@),
            final(self).wf(),
            step.next matches EncodeNext::Call { run: next_run, .. } ==> run_wf(
                final(self)@,
                next_run,
            ),
    {
        proof {
            law_encode_keeps_session_valid(self@, SurfaceKey { raw: 0 }, false, true, run, reply@);
        }
        let encoder: u64 = self.encoder;
        let mut releases: Vec<NvencRelease> = Vec::new();
        match run {
            EncodeRun::Drain { at, key, force_idr } => {
                let (number, releases) = self.take_answer(at, reply);
                let next = self.drain_pending_non_blocking(Some(number), key, force_idr);
                EncodeStep { releases, next }
            },
            EncodeRun::MapSurface { slot, registration, key, force_idr } => match reply {
                EncodeReply::Mapped(input) => {
                    let params = pic_params(registration, input, self.pool[slot].handle, force_idr);
                    let call = EncodeCall::EncodePicture { encoder, params };
                    let run = EncodeRun::Submit { slot, mapped_input: input, key };
                    EncodeStep { releases, next: EncodeNext::Call { call, run } }
                },
                _ => EncodeStep {
                    releases,
                    next: EncodeNext::Done(
                        Err(DriverError::OperationFailed("NvEncMapInputResource")),
                    ),
                },
            },
            EncodeRun::Submit { slot, mapped_input, key } => match reply {
                EncodeReply::Encoded => {
                    let call = EncodeCall::Lock { encoder, output: self.pool[slot].handle };
                    let run = EncodeRun::Collect { slot, mapped_input };
                    EncodeStep { releases, next: EncodeNext::Call { call, run } }
                },
                EncodeReply::NeedMoreInput => {
                    let handle: u64 = self.pool[slot].handle;
                    let number: u64 = self.submitted;
                    let state = SlotState::Pending { mapped_input, surface_key: key, number };
                    self.pool.set(slot, BitstreamSlot { handle, state });
                    self.submitted = number.wrapping_add(1);
                    self.next_slot = (slot + 1) % self.pool.len();
                    let next = self.probe();
                    EncodeStep { releases, next }
                },
                _ => {
                    releases.push(NvencRelease::Unmap { encoder, input: mapped_input });
                    EncodeStep {
                        releases,
                        next: EncodeNext::Done(Err(DriverError::Encoding("NvEncEncodePicture"))),
                    }
                },
            },
            EncodeRun::Collect { slot, mapped_input } => match reply {
                EncodeReply::Ready { data, is_idr } => {
                    releases.push(NvencRelease::Unlock { encoder, output: self.pool[slot].handle });
                    releases.push(NvencRelease::Unmap { encoder, input: mapped_input });
                    self.harvest(slot, self.submitted, data, is_idr);
                    self.submitted = self.submitted.wrapping_add(1);
                    self.next_slot = (slot + 1) % self.pool.len();
                    let next = self.probe();
                    EncodeStep { releases, next }
                },
                _ => EncodeStep {
                    releases,
                    next: EncodeNext::Done(Err(DriverError::Encoding("NvEncLockBitstream"))),
                },
            },
            EncodeRun::Probe { at } => {
                if let EncodeReply::Ready { data, is_idr } = reply {
                    let slot = self.pool[at];
                    let (input, number): (u64, u64) = match slot.state {
                        SlotState::Pending { mapped_input, number, .. } => (mapped_input, number),
                        SlotState::Free => (0, 0),
                    };
                    releases.push(NvencRelease::Unlock { encoder, output: slot.handle });
                    releases.push(NvencRelease::Unmap { encoder, input });
                    self.harvest(at, number, data, is_idr);
                }
                let next = self.deliver();
                EncodeStep { releases, next }
            },
            EncodeRun::Recheck { at } => {
                let (number, releases) = self.take_answer(at, reply);
                let next = self.recheck(number);
                EncodeStep { releases, next }
            },
        }
    }
}

// ---------------------------------------------------------------------------
// Laws
// ---------------------------------------------------------------------------

proof fn lemma_probe_valid(s: SessionView, releases: Seq<NvencRelease>)
    requires
        session_wf(s),
    ensures
        ({
            let o = probe_outcome(s, releases);
            session_wf(o.session) && (o.next matches NextView::Call { run, .. } ==> run_wf(
                o.session,
                run,
            ))
        }),
{
    lemma_first_pending(s.pool, 0);
    if s.outputs.len() > 0 {
        lemma_last_pending(s.pool, s.outputs[0].number as int);
    }
}

/// Every step keeps the session valid, and hands out a run that the next step
/// accepts.
pub proof fn law_encode_keeps_session_valid(
    s: SessionView,
    key: SurfaceKey,
    force_idr: bool,
    api_ready: bool,
    run: EncodeRun,
    reply: ReplyView,
)
    requires
        session_wf(s),
    ensures
        ({
            let o = begin_outcome(s, key, force_idr, api_ready);
            session_wf(o.session) && (o.next matches NextView::Call { run, .. } ==> run_wf(
                o.session,
                run,
            ))
        }),
        run_wf(s, run) ==> {
            let o = resume_outcome(s, run, reply);
            session_wf(o.session) && (o.next matches NextView::Call { run, .. } ==> run_wf(
                o.session,
                run,
            ))
        },
{
    assert forall|t: SessionView, from: int| session_wf(t) implies (
    #[trigger] drain_outcome(t, Seq::empty(), from, key, force_idr)).next matches NextView::Call {
        run,
        ..
    } ==> run_wf(t, run) by {
        lemma_first_pending(t.pool, from);
        lemma_free_from(t.pool, t.next_slot, 0);
    }
    if run_wf(s, run) {
        match run {
            EncodeRun::Drain { at, key, force_idr } => {
                let number = number_of(s.pool[at as int].state);
                match reply {
                    ReplyView::Ready { data, is_idr } => {
                        let t = harvested(s, at as int, number, data, is_idr);
                        lemma_first_pending(t.pool, number + 1);
                        lemma_free_from(t.pool, t.next_slot, 0);
                    },
                    ReplyView::Busy => {
                        lemma_first_pending(s.pool, number + 1);
                        lemma_free_from(s.pool, s.next_slot, 0);
                    },
                    _ => {
                        let t = freed(s, at as int);
                        lemma_first_pending(t.pool, number + 1);
                        lemma_free_from(t.pool, t.next_slot, 0);
                    },
                }
            },
            EncodeRun::Submit { slot, mapped_input, key } => {
                let t = deferred(s, slot as int, mapped_input, key);
                lemma_probe_valid(t, Seq::empty());
            },
            EncodeRun::Collect { slot, mapped_input } => {
                if let ReplyView::Ready { data, is_idr } = reply {
                    let t = SessionView {
                        next_slot: (slot + 1) % (s.pool.len() as int),
                        submitted: next_number(s.submitted),
                        ..harvested(s, slot as int, s.submitted, data, is_idr)
                    };
                    lemma_probe_valid(t, collect_releases(s, slot as int, mapped_input));
                }
            },
            EncodeRun::Recheck { at } => {
                let below = number_of(s.pool[at as int].state) as int;
                lemma_last_pending(s.pool, below);
                lemma_last_pending(freed(s, at as int).pool, below);
                if let ReplyView::Ready { data, is_idr } = reply {
                    lemma_place_in(s.outputs, below as u64);
                    lemma_last_pending(
                        harvested(s, at as int, below as u64, data, is_idr).pool,
                        below,
                    );
                }
            },
            _ => {},
        }
    }
}

/// The coded frame that an answer brings in, with its submission number, if the
/// run is one that collects output.
pub open spec fn brought(s: SessionView, run: EncodeRun, reply: ReplyView) -> Option<QueuedView> {
    match (run, reply) {
        (EncodeRun::Drain { at, .. }, ReplyView::Ready { data, is_idr }) => Some(
            numbered_frame(number_of(s.pool[at as int].state), data, is_idr),
        ),
        (EncodeRun::Collect { .. }, ReplyView::Ready { data, is_idr }) => Some(
            numbered_frame(s.submitted, data, is_idr),
        ),
        (EncodeRun::Probe { at }, ReplyView::Ready { data, is_idr }) => Some(
            numbered_frame(number_of(s.pool[at as int].state), data, is_idr),
        ),
        (EncodeRun::Recheck { at }, ReplyView::Ready { data, is_idr }) => Some(
            numbered_frame(number_of(s.pool[at as int].state), data, is_idr),
        ),
        _ => None,
    }
}

/// The queue once an answer is taken in.
pub open spec fn queue_after(s: SessionView, run: EncodeRun, reply: ReplyView) -> Seq<QueuedView> {
    match brought(s, run, reply) {
        Some(frame) => queue_with(s.outputs, frame),
        None => s.outputs,
    }
}

/// Whether a step hands a coded frame to the client.
pub open spec fn hands_out(next: NextView) -> bool {
    next matches NextView::Done(Ok(coded)) && !coded.is_pending
}

/// No queued frame is marked as pending.
pub open spec fn outputs_wf(s: SessionView) -> bool {
    forall|i: int| 0 <= i < s.outputs.len() ==> !(#[trigger] s.outputs[i]).coded.is_pending
}

/// The place of a number lies in the queue. In a queue that is in order, it is
/// behind the lower numbers and before the higher ones.
proof fn lemma_place_in(queue: Seq<QueuedView>, number: u64)
    ensures
        0 <= place_in(queue, number) <= queue.len(),
        forall|i: int|
            place_in(queue, number) <= i < queue.len() ==> number < (#[trigger] queue[i]).number,
        place_in(queue, number) > 0 ==> queue[place_in(queue, number) - 1].number <= number,
    decreases queue.len(),
{
    if queue.len() > 0 && queue.last().number > number {
        let front = queue.drop_last();
        lemma_place_in(front, number);
        assert forall|i: int| place_in(queue, number) <= i < queue.len() implies number < (
        #[trigger] queue[i]).number by {
            if i < front.len() {
                assert(queue[i] == front[i]);
            }
        }
        if place_in(queue, number) > 0 {
            assert(queue[place_in(queue, number) - 1] == front[place_in(queue, number) - 1]);
        }
    }
}

proof fn lemma_queue_with_wf(queue: Seq<QueuedView>, frame: QueuedView)
    requires
        !frame.coded.is_pending,
        forall|i: int| 0 <= i < queue.len() ==> !(#[trigger] queue[i]).coded.is_pending,
    ensures
        queue_with(queue, frame).len() == queue.len() + 1,
        forall|i: int|
            0 <= i < queue_with(queue, frame).len() ==> !(#[trigger] queue_with(
                queue,
                frame,
            )[i]).coded.is_pending,
{
    let p = place_in(queue, frame.number);
    lemma_place_in(queue, frame.number);
    assert forall|i: int| 0 <= i < queue_with(queue, frame).len() implies !(#[trigger] queue_with(
        queue,
        frame,
    )[i]).coded.is_pending by {
        if i < p {
            assert(queue_with(queue, frame)[i] == queue[i]);
        } else if i > p {
            assert(queue_with(queue, frame)[i] == queue[i - 1]);
        }
    }
}

/// None of the output is lost or made up: what a step hands out, followed by
/// what it leaves in the queue, is what the queue held, with what the answer
/// brought put in its place.
pub proof fn law_output_is_fifo(s: SessionView, run: EncodeRun, reply: ReplyView)
    requires
        session_wf(s),
        outputs_wf(s),
        run_wf(s, run),
    ensures
        ({
            let o = resume_outcome(s, run, reply);
            let queue = queue_after(s, run, reply);
            &&& outputs_wf(o.session)
            &&& if hands_out(o.next) {
                &&& queue.len() > 0
                &&& o.next == NextView::Done(Ok::<CodedView, DriverError>(queue[0].coded))
                &&& o.session.outputs == queue.drop_first()
            } else {
                o.session.outputs == queue
            }
        }),
{
    if let Some(frame) = brought(s, run, reply) {
        lemma_queue_with_wf(s.outputs, frame);
    }
}

/// Starting a frame neither hands out nor queues anything.
pub proof fn law_begin_keeps_outputs(
    s: SessionView,
    key: SurfaceKey,
    force_idr: bool,
    api_ready: bool,
)
    ensures
        ({
            let o = begin_outcome(s, key, force_idr, api_ready);
            o.session == s && !hands_out(o.next) && o.releases.len() == 0
        }),
{
}

/// The drain goes by submission: it begins with the oldest pending frame, goes
/// on with the next one in the order of submission, and passes none over.
pub proof fn law_drain_goes_by_submission(
    s: SessionView,
    key: SurfaceKey,
    force_idr: bool,
    run: EncodeRun,
    reply: ReplyView,
)
    requires
        session_wf(s),
        run_wf(s, run),
    ensures
        match begin_outcome(s, key, force_idr, true).next {
            NextView::Call { run: EncodeRun::Drain { at, .. }, .. } => forall|k: int|
                0 <= k < s.pool.len() && (#[trigger] s.pool[k]).state is Pending ==> number_of(
                    s.pool[at as int].state,
                ) <= number_of(s.pool[k].state),
            _ => forall|k: int| 0 <= k < s.pool.len() ==> (#[trigger] s.pool[k]).state is Free,
        },
        run matches EncodeRun::Drain { at, .. } ==> match resume_outcome(s, run, reply).next {
            NextView::Call { run: EncodeRun::Drain { at: next, .. }, .. } => number_of(
                s.pool[at as int].state,
            ) < number_of(s.pool[next as int].state) && forall|k: int|
                0 <= k < s.pool.len() && (#[trigger] s.pool[k]).state is Pending ==> number_of(
                    s.pool[k].state,
                ) <= number_of(s.pool[at as int].state) || number_of(s.pool[next as int].state)
                    <= number_of(s.pool[k].state),
            _ => forall|k: int|
                0 <= k < s.pool.len() && (#[trigger] s.pool[k]).state is Pending ==> number_of(
                    s.pool[k].state,
                ) <= number_of(s.pool[at as int].state),
        },
{
    law_oldest_pending_slot_is_found(s.pool);
    lemma_free_from(s.pool, s.next_slot, 0);
    if let EncodeRun::Drain { at, .. } = run {
        let number = number_of(s.pool[at as int].state);
        let pool = resume_outcome(s, run, reply).session.pool;
        lemma_first_pending(pool, number + 1);
        lemma_free_from(pool, s.next_slot, 0);
        assert forall|k: int|
            0 <= k < s.pool.len() && (#[trigger] s.pool[k]).state is Pending && number_of(
                s.pool[k].state,
            ) > number implies waits_from(pool[k], number + 1) && pool[k] == s.pool[k] by {}
    }
}

/// Submission numbers are in order: the queue is sorted by them, no two frames
/// of the session share one, and the next frame's is higher than all of them.
pub open spec fn in_sequence(s: SessionView) -> bool {
    &&& forall|i: int, j: int|
        0 <= i < j < s.outputs.len() ==> (#[trigger] s.outputs[i]).number < (
        #[trigger] s.outputs[j]).number
    &&& forall|i: int| 0 <= i < s.outputs.len() ==> (#[trigger] s.outputs[i]).number < s.submitted
    &&& forall|k: int|
        0 <= k < s.pool.len() && (#[trigger] s.pool[k]).state is Pending ==> number_of(
            s.pool[k].state,
        ) < s.submitted
    &&& forall|k: int, l: int|
        0 <= k < l < s.pool.len() && (#[trigger] s.pool[k]).state is Pending && (
        #[trigger] s.pool[l]).state is Pending ==> number_of(s.pool[k].state) != number_of(
            s.pool[l].state,
        )
    &&& forall|i: int, k: int|
        0 <= i < s.outputs.len() && 0 <= k < s.pool.len() && (
        #[trigger] s.pool[k]).state is Pending ==> (#[trigger] s.outputs[i]).number != number_of(
            s.pool[k].state,
        )
}

/// The frames that answered busy since the first queued output is there.
pub open spec fn busy_after(
    s: SessionView,
    run: EncodeRun,
    reply: ReplyView,
    busy: Set<u64>,
) -> Set<u64> {
    match (run, reply) {
        (EncodeRun::Recheck { at }, ReplyView::Busy) => busy.insert(
            number_of(s.pool[at as int].state),
        ),
        (EncodeRun::Recheck { .. }, ReplyView::Ready { .. }) => Set::empty(),
        (EncodeRun::Recheck { .. }, _) => busy,
        _ => Set::empty(),
    }
}

/// While pending slots are asked once more: of the frames submitted before the
/// first queued one, those from a given number on answered busy.
pub open spec fn rechecked_from(s: SessionView, from: int, busy: Set<u64>) -> bool {
    forall|k: int|
        0 <= k < s.pool.len() && (#[trigger] s.pool[k]).state is Pending && from <= number_of(
            s.pool[k].state,
        ) < s.outputs[0].number ==> busy.contains(number_of(s.pool[k].state))
}

/// What is known while a run asks pending slots once more: the slot asked now is
/// older than the first queued output, and the pending ones between them
/// answered busy.
pub open spec fn recheck_known(s: SessionView, run: EncodeRun, busy: Set<u64>) -> bool {
    run matches EncodeRun::Recheck { at } ==> number_of(s.pool[at as int].state)
        < s.outputs[0].number && rechecked_from(
        s,
        number_of(s.pool[at as int].state) + 1,
        busy,
    )
}

/// Whether a frame was submitted before everything that a session holds, but for
/// pending frames that answered busy.
pub open spec fn older_than_rest(number: u64, s: SessionView, busy: Set<u64>) -> bool {
    &&& forall|i: int| 0 <= i < s.outputs.len() ==> number < (#[trigger] s.outputs[i]).number
    &&& forall|k: int|
        0 <= k < s.pool.len() && (#[trigger] s.pool[k]).state is Pending && !busy.contains(
            number_of(s.pool[k].state),
        ) ==> number < number_of(s.pool[k].state)
}

proof fn lemma_harvest_in_sequence(
    s: SessionView,
    slot: int,
    number: u64,
    data: Seq<u8>,
    is_idr: bool,
    submitted: u64,
)
    requires
        in_sequence(s),
        0 <= slot < s.pool.len(),
        if s.pool[slot].state is Pending {
            number == number_of(s.pool[slot].state) && submitted == s.submitted
        } else {
            number == s.submitted && submitted == s.submitted + 1
        },
    ensures
        ({
            let t = SessionView { submitted, ..harvested(s, slot, number, data, is_idr) };
            &&& in_sequence(t)
            &&& t.outputs.len() > 0
            &&& t.outputs[0].number <= number
            &&& s.outputs.len() > 0 && number < s.outputs[0].number ==> t.outputs[0].number
                == number
        }),
{
    let t = SessionView { submitted, ..harvested(s, slot, number, data, is_idr) };
    let frame = numbered_frame(number, data, is_idr);
    let p = place_in(s.outputs, number);
    lemma_place_in(s.outputs, number);
    assert forall|i: int| 0 <= i < t.outputs.len() implies #[trigger] t.outputs[i] == (if i < p {
        s.outputs[i]
    } else if i == p {
        frame
    } else {
        s.outputs[i - 1]
    }) by {}
    assert forall|i: int| 0 <= i < p implies (#[trigger] s.outputs[i]).number < number by {
        if i < p - 1 {
            assert(s.outputs[i].number < s.outputs[p - 1].number);
        } else if s.pool[slot].state is Pending {
            assert(s.outputs[i].number != number_of(s.pool[slot].state));
        }
    }
    assert forall|k: int| 0 <= k < t.pool.len() && (#[trigger] t.pool[k]).state is Pending implies k
        != slot && t.pool[k] == s.pool[k] by {}
}

proof fn lemma_deliver_in_sequence(t: SessionView, releases: Seq<NvencRelease>, busy: Set<u64>)
    requires
        outputs_wf(t),
        in_sequence(t),
        t.outputs.len() > 0 ==> rechecked_from(t, 0, busy),
    ensures
        ({
            let o = deliver_outcome(t, releases);
            &&& in_sequence(o.session)
            &&& hands_out(o.next) ==> t.outputs.len() > 0 && older_than_rest(
                t.outputs[0].number,
                o.session,
                busy,
            )
        }),
{
    let o = deliver_outcome(t, releases);
    if t.outputs.len() > 0 {
        assert forall|i: int| 0 <= i < o.session.outputs.len() implies
            #[trigger] o.session.outputs[i] == t.outputs[i + 1] by {}
        assert forall|k: int|
            0 <= k < o.session.pool.len() && (#[trigger] o.session.pool[k]).state is Pending
                && !busy.contains(number_of(o.session.pool[k].state)) implies t.outputs[0].number
            < number_of(o.session.pool[k].state) by {
            assert(t.pool[k].state is Pending && t.outputs[0].number != number_of(
                t.pool[k].state,
            ));
        }
    }
}

proof fn lemma_recheck_in_sequence(
    t: SessionView,
    releases: Seq<NvencRelease>,
    below: int,
    busy: Set<u64>,
)
    requires
        outputs_wf(t),
        in_sequence(t),
        t.pool.len() == POOL_SIZE,
        t.outputs.len() > 0,
        below <= t.outputs[0].number,
        rechecked_from(t, below, busy),
    ensures
        ({
            let o = recheck_outcome(t, releases, below);
            &&& in_sequence(o.session)
            &&& o.next matches NextView::Call { run, .. } ==> recheck_known(o.session, run, busy)
            &&& hands_out(o.next) ==> older_than_rest(t.outputs[0].number, o.session, busy)
        }),
{
    lemma_last_pending(t.pool, below);
    match last_pending(t.pool, below) {
        Some(i) => {
            assert forall|k: int|
                0 <= k < t.pool.len() && (#[trigger] t.pool[k]).state is Pending && number_of(
                    t.pool[i].state,
                ) + 1 <= number_of(t.pool[k].state) < t.outputs[0].number implies busy.contains(
                number_of(t.pool[k].state),
            ) by {
                if number_of(t.pool[k].state) < below {
                    assert(waits_below(t.pool[k], below));
                }
            }
        },
        None => {
            assert forall|k: int|
                0 <= k < t.pool.len() && (#[trigger] t.pool[k]).state is Pending && 0 <= number_of(
                    t.pool[k].state,
                ) < t.outputs[0].number implies busy.contains(number_of(t.pool[k].state)) by {
                assert(!waits_below(t.pool[k], below));
            }
            lemma_deliver_in_sequence(t, releases, busy);
        },
    }
}

/// What a step leaves of the order of submission: numbers stay in order, what is
/// known while slots are asked once more stays known, and a frame that is handed
/// out is older than the rest.
pub open spec fn order_kept(
    s: SessionView,
    run: EncodeRun,
    reply: ReplyView,
    busy: Set<u64>,
) -> bool {
    let o = resume_outcome(s, run, reply);
    let queue = queue_after(s, run, reply);
    let now_busy = busy_after(s, run, reply, busy);
    &&& in_sequence(o.session)
    &&& o.next matches NextView::Call { run: next, .. } ==> recheck_known(
        o.session,
        next,
        now_busy,
    )
    &&& hands_out(o.next) ==> queue.len() > 0 && o.next == NextView::Done(
        Ok::<CodedView, DriverError>(queue[0].coded),
    ) && older_than_rest(queue[0].number, o.session, now_busy)
}

proof fn lemma_drain_keeps_order(
    s: SessionView,
    run: EncodeRun,
    reply: ReplyView,
    busy: Set<u64>,
)
    requires
        session_wf(s),
        outputs_wf(s),
        run_wf(s, run),
        in_sequence(s),
        recheck_known(s, run, busy),
        s.submitted < u64::MAX,
        run is Drain,
    ensures
        order_kept(s, run, reply, busy),
{
    law_output_is_fifo(s, run, reply);
    if let EncodeRun::Drain { at, .. } = run {
        if let ReplyView::Ready { data, is_idr } = reply {
            let number = number_of(s.pool[at as int].state);
            lemma_harvest_in_sequence(s, at as int, number, data, is_idr, s.submitted);
        }
    }
}

proof fn lemma_submit_keeps_order(
    s: SessionView,
    run: EncodeRun,
    reply: ReplyView,
    busy: Set<u64>,
)
    requires
        session_wf(s),
        outputs_wf(s),
        run_wf(s, run),
        in_sequence(s),
        recheck_known(s, run, busy),
        s.submitted < u64::MAX,
        run is Submit,
    ensures
        order_kept(s, run, reply, busy),
{
    law_output_is_fifo(s, run, reply);
    if let EncodeRun::Submit { slot, mapped_input, key } = run {
        if reply is NeedMoreInput {
            let t = deferred(s, slot as int, mapped_input, key);
            assert forall|k: int| 0 <= k < t.pool.len() && (
            #[trigger] t.pool[k]).state is Pending implies if k == slot {
                number_of(t.pool[k].state) == s.submitted
            } else {
                t.pool[k] == s.pool[k]
            } by {}
            assert(in_sequence(t));
            if t.outputs.len() > 0 {
                lemma_recheck_in_sequence(
                    t,
                    Seq::empty(),
                    t.outputs[0].number as int,
                    Set::empty(),
                );
            }
        }
    }
}

proof fn lemma_collect_keeps_order(
    s: SessionView,
    run: EncodeRun,
    reply: ReplyView,
    busy: Set<u64>,
)
    requires
        session_wf(s),
        outputs_wf(s),
        run_wf(s, run),
        in_sequence(s),
        recheck_known(s, run, busy),
        s.submitted < u64::MAX,
        run is Collect,
    ensures
        order_kept(s, run, reply, busy),
{
    law_output_is_fifo(s, run, reply);
    if let EncodeRun::Collect { slot, mapped_input } = run {
        if let ReplyView::Ready { data, is_idr } = reply {
            let submitted = next_number(s.submitted);
            lemma_harvest_in_sequence(s, slot as int, s.submitted, data, is_idr, submitted);
            let t = SessionView {
                next_slot: (slot + 1) % (s.pool.len() as int),
                submitted,
                ..harvested(s, slot as int, s.submitted, data, is_idr)
            };
            lemma_queue_with_wf(s.outputs, numbered_frame(s.submitted, data, is_idr));
            assert(in_sequence(t));
            lemma_recheck_in_sequence(
                t,
                collect_releases(s, slot as int, mapped_input),
                t.outputs[0].number as int,
                Set::empty(),
            );
        }
    }
}

proof fn lemma_probe_keeps_order(
    s: SessionView,
    run: EncodeRun,
    reply: ReplyView,
    busy: Set<u64>,
)
    requires
        session_wf(s),
        outputs_wf(s),
        run_wf(s, run),
        in_sequence(s),
        recheck_known(s, run, busy),
        s.submitted < u64::MAX,
        run is Probe,
    ensures
        order_kept(s, run, reply, busy),
{
    law_output_is_fifo(s, run, reply);
    if let EncodeRun::Probe { at } = run {
        if let ReplyView::Ready { data, is_idr } = reply {
            let number = number_of(s.pool[at as int].state);
            law_oldest_pending_slot_is_found(s.pool);
            lemma_harvest_in_sequence(s, at as int, number, data, is_idr, s.submitted);
            lemma_queue_with_wf(s.outputs, numbered_frame(number, data, is_idr));
            let t = harvested(s, at as int, number, data, is_idr);
            assert forall|k: int|
                0 <= k < t.pool.len() && (#[trigger] t.pool[k]).state is Pending implies
                number_of(t.pool[k].state) >= number by {
                assert(s.pool[k].state is Pending);
            }
            lemma_deliver_in_sequence(
                t,
                collect_releases(s, at as int, input_of(s.pool[at as int].state)),
                Set::empty(),
            );
        } else {
            lemma_deliver_in_sequence(s, Seq::empty(), Set::empty());
        }
    }
}

proof fn lemma_recheck_keeps_order(
    s: SessionView,
    run: EncodeRun,
    reply: ReplyView,
    busy: Set<u64>,
)
    requires
        session_wf(s),
        outputs_wf(s),
        run_wf(s, run),
        in_sequence(s),
        recheck_known(s, run, busy),
        s.submitted < u64::MAX,
        run is Recheck,
    ensures
        order_kept(s, run, reply, busy),
{
    law_output_is_fifo(s, run, reply);
    let now_busy = busy_after(s, run, reply, busy);
    if let EncodeRun::Recheck { at } = run {
        let number = number_of(s.pool[at as int].state);
        match reply {
            ReplyView::Ready { data, is_idr } => {
                lemma_harvest_in_sequence(s, at as int, number, data, is_idr, s.submitted);
                lemma_queue_with_wf(s.outputs, numbered_frame(number, data, is_idr));
                lemma_recheck_in_sequence(
                    harvested(s, at as int, number, data, is_idr),
                    collect_releases(s, at as int, input_of(s.pool[at as int].state)),
                    number as int,
                    now_busy,
                );
            },
            ReplyView::Busy => {
                lemma_recheck_in_sequence(s, Seq::empty(), number as int, now_busy);
            },
            _ => {
                let t = freed(s, at as int);
                assert forall|k: int|
                    0 <= k < t.pool.len() && (#[trigger] t.pool[k]).state is Pending implies k
                    != at && t.pool[k] == s.pool[k] by {}
                assert forall|k: int|
                    0 <= k < t.pool.len() && (#[trigger] t.pool[k]).state is Pending && number
                        <= number_of(t.pool[k].state) < t.outputs[0].number implies
                    now_busy.contains(number_of(t.pool[k].state)) by {
                    assert(s.pool[k].state is Pending && s.pool[at as int].state is Pending);
                }
                lemma_recheck_in_sequence(
                    t,
                    seq![
                        NvencRelease::Unmap {
                            encoder: s.encoder,
                            input: input_of(s.pool[at as int].state),
                        },
                    ],
                    number as int,
                    now_busy,
                );
            },
        }
    }
}

/// The client sees output in submission order: a frame that is handed out was
/// submitted before every frame that stays queued, and before every frame that
/// is pending, unless that one was asked again and answered busy after the
/// output that is handed out was there. `busy` is empty when a frame begins, and
/// [`busy_after`] keeps it from step to step.
pub proof fn law_submission_order_is_kept(
    s: SessionView,
    run: EncodeRun,
    reply: ReplyView,
    busy: Set<u64>,
)
    requires
        session_wf(s),
        outputs_wf(s),
        run_wf(s, run),
        in_sequence(s),
        recheck_known(s, run, busy),
        s.submitted < u64::MAX,
    ensures
        order_kept(s, run, reply, busy),
{
    match run {
        EncodeRun::Drain { .. } => lemma_drain_keeps_order(s, run, reply, busy),
        EncodeRun::MapSurface { .. } => {},
        EncodeRun::Submit { .. } => lemma_submit_keeps_order(s, run, reply, busy),
        EncodeRun::Collect { .. } => lemma_collect_keeps_order(s, run, reply, busy),
        EncodeRun::Probe { .. } => lemma_probe_keeps_order(s, run, reply, busy),
        EncodeRun::Recheck { .. } => lemma_recheck_keeps_order(s, run, reply, busy),
    }
}

/// The input that a slot keeps mapped.
pub open spec fn slot_inputs(slot: BitstreamSlot) -> Multiset<u64> {
    match slot.state {
        SlotState::Pending { mapped_input, .. } => Multiset::singleton(mapped_input),
        SlotState::Free => Multiset::empty(),
    }
}

/// The inputs that the slots of a pool keep mapped.
pub open spec fn pool_inputs(pool: Seq<BitstreamSlot>) -> Multiset<u64>
    decreases pool.len(),
{
    if pool.len() == 0 {
        Multiset::empty()
    } else {
        pool_inputs(pool.drop_last()).add(slot_inputs(pool.last()))
    }
}

/// The input that a run keeps mapped.
pub open spec fn run_inputs(next: NextView) -> Multiset<u64> {
    match next {
        NextView::Call { run: EncodeRun::Submit { mapped_input, .. }, .. } => Multiset::singleton(
            mapped_input,
        ),
        NextView::Call { run: EncodeRun::Collect { mapped_input, .. }, .. } => Multiset::singleton(
            mapped_input,
        ),
        _ => Multiset::empty(),
    }
}

/// The inputs that a release list unmaps.
pub open spec fn unmapped(releases: Seq<NvencRelease>) -> Multiset<u64>
    decreases releases.len(),
{
    if releases.len() == 0 {
        Multiset::empty()
    } else {
        let rest = unmapped(releases.drop_last());
        match releases.last() {
            NvencRelease::Unmap { input, .. } => rest.add(Multiset::singleton(input)),
            _ => rest,
        }
    }
}

/// The input that an answer maps.
pub open spec fn newly_mapped(run: EncodeRun, reply: ReplyView) -> Multiset<u64> {
    match (run, reply) {
        (EncodeRun::MapSurface { .. }, ReplyView::Mapped(input)) => Multiset::singleton(input),
        _ => Multiset::empty(),
    }
}

proof fn lemma_pool_inputs_update(pool: Seq<BitstreamSlot>, i: int, slot: BitstreamSlot)
    requires
        0 <= i < pool.len(),
    ensures
        pool_inputs(pool.update(i, slot)).add(slot_inputs(pool[i])) == pool_inputs(pool).add(
            slot_inputs(slot),
        ),
    decreases pool.len(),
{
    let changed = pool.update(i, slot);
    if i == pool.len() - 1 {
        assert(changed.drop_last() =~= pool.drop_last());
    } else {
        assert(changed.drop_last() =~= pool.drop_last().update(i, slot));
        assert(changed.last() == pool.last());
        assert(pool.drop_last()[i] == pool[i]);
        lemma_pool_inputs_update(pool.drop_last(), i, slot);
        let inner = pool_inputs(pool.drop_last().update(i, slot));
        let outer = pool_inputs(pool.drop_last());
        let last = slot_inputs(pool.last());
        assert forall|x: u64|
            inner.count(x) + slot_inputs(pool[i]).count(x) == outer.count(x) + slot_inputs(
                slot,
            ).count(x) by {
            assert(inner.add(slot_inputs(pool[i])).count(x) == outer.add(slot_inputs(slot)).count(x));
        }
    }
    assert(pool_inputs(changed).add(slot_inputs(pool[i])) =~= pool_inputs(pool).add(
        slot_inputs(slot),
    ));
}

proof fn lemma_unmapped_short(encoder: u64, output: u64, input: u64)
    ensures
        unmapped(Seq::empty()) == Multiset::<u64>::empty(),
        unmapped(seq![NvencRelease::Unmap { encoder, input }]) == Multiset::singleton(input),
        unmapped(
            seq![
                NvencRelease::Unlock { encoder, output },
                NvencRelease::Unmap { encoder, input },
            ],
        ) == Multiset::singleton(input),
{
    let one = seq![NvencRelease::Unmap { encoder, input }];
    assert(one.drop_last() =~= Seq::<NvencRelease>::empty());
    reveal_with_fuel(unmapped, 3);
    assert(unmapped(one) =~= Multiset::singleton(input));
    let two = seq![
        NvencRelease::Unlock { encoder, output },
        NvencRelease::Unmap { encoder, input },
    ];
    assert(two.drop_last() =~= seq![NvencRelease::Unlock { encoder, output }]);
    assert(two.drop_last().drop_last() =~= Seq::<NvencRelease>::empty());
    assert(unmapped(two) =~= Multiset::singleton(input));
}

/// Mapped inputs are accounted for: what slots and the run held before a step,
/// and what the answer mapped, is what they hold after it and what the step
/// unmaps. The one exception is a frame that was encoded and could not be
/// locked: its input stays mapped, with nothing left that would unmap it.
pub proof fn law_mapped_inputs_are_accounted_for(
    s: SessionView,
    call: EncodeCall,
    run: EncodeRun,
    reply: ReplyView,
)
    requires
        session_wf(s),
        run_wf(s, run),
        !(run is Collect && !(reply is Ready)),
    ensures
        ({
            let o = resume_outcome(s, run, reply);
            pool_inputs(s.pool).add(run_inputs(NextView::Call { call, run })).add(
                newly_mapped(run, reply),
            ) == pool_inputs(o.session.pool).add(run_inputs(o.next)).add(unmapped(o.releases))
        }),
{
    let o = resume_outcome(s, run, reply);
    let free = |i: int| BitstreamSlot { state: SlotState::Free, ..s.pool[i] };
    match run {
        EncodeRun::Drain { at, .. } => {
            let i = at as int;
            lemma_unmapped_short(s.encoder, s.pool[i].handle, input_of(s.pool[i].state));
            lemma_pool_inputs_update(s.pool, i, free(i));
        },
        EncodeRun::MapSurface { .. } => {
            lemma_unmapped_short(0, 0, 0);
        },
        EncodeRun::Submit { slot, mapped_input, key } => {
            let i = slot as int;
            lemma_unmapped_short(s.encoder, s.pool[i].handle, mapped_input);
            lemma_pool_inputs_update(
                s.pool,
                i,
                BitstreamSlot {
                    state: SlotState::Pending {
                        mapped_input,
                        surface_key: key,
                        number: s.submitted,
                    },
                    ..s.pool[i]
                },
            );
        },
        EncodeRun::Collect { slot, mapped_input } => {
            let i = slot as int;
            lemma_unmapped_short(s.encoder, s.pool[i].handle, mapped_input);
            lemma_pool_inputs_update(s.pool, i, free(i));
        },
        EncodeRun::Probe { at } => {
            let i = at as int;
            lemma_unmapped_short(s.encoder, s.pool[i].handle, input_of(s.pool[i].state));
            lemma_pool_inputs_update(s.pool, i, free(i));
        },
        EncodeRun::Recheck { at } => {
            let i = at as int;
            lemma_unmapped_short(s.encoder, s.pool[i].handle, input_of(s.pool[i].state));
            lemma_pool_inputs_update(s.pool, i, free(i));
        },
    }
    assert(pool_inputs(s.pool).add(run_inputs(NextView::Call { call, run })).add(
        newly_mapped(run, reply),
    ) =~= pool_inputs(o.session.pool).add(run_inputs(o.next)).add(unmapped(o.releases)));
}

/// The number of pending slots with a submission number at or after a given
/// one.
pub open spec fn waiting_from(pool: Seq<BitstreamSlot>, from: int) -> int
    decreases pool.len(),
{
    if pool.len() == 0 {
        0
    } else {
        waiting_from(pool.drop_last(), from) + if waits_from(pool.last(), from) {
            1int
        } else {
            0
        }
    }
}

/// The number of pending slots with a submission number below a given one.
pub open spec fn waiting_below(pool: Seq<BitstreamSlot>, below: int) -> int
    decreases pool.len(),
{
    if pool.len() == 0 {
        0
    } else {
        waiting_below(pool.drop_last(), below) + if waits_below(pool.last(), below) {
            1int
        } else {
            0
        }
    }
}

/// How far a run is from its end.
pub open spec fn calls_left(s: SessionView, run: EncodeRun) -> int {
    match run {
        EncodeRun::Drain { at, .. } => 5 + POOL_SIZE + waiting_from(
            s.pool,
            number_of(s.pool[at as int].state) + 1,
        ),
        EncodeRun::MapSurface { .. } => 4 + POOL_SIZE,
        EncodeRun::Submit { .. } => 3 + POOL_SIZE,
        EncodeRun::Collect { .. } => 2 + POOL_SIZE,
        EncodeRun::Probe { .. } => 1,
        EncodeRun::Recheck { at } => 1 + waiting_below(
            s.pool,
            number_of(s.pool[at as int].state) as int,
        ),
    }
}

proof fn lemma_waiting_below(pool: Seq<BitstreamSlot>, below: int, at: int)
    ensures
        0 <= waiting_below(pool, below) <= pool.len(),
        0 <= at < pool.len() && waits_below(pool[at], below) ==> waiting_below(
            pool,
            number_of(pool[at].state) as int,
        ) < waiting_below(pool, below),
        0 <= at < pool.len() && !waits_below(pool[at], below) ==> waiting_below(
            pool.update(at, BitstreamSlot { state: SlotState::Free, ..pool[at] }),
            below,
        ) == waiting_below(pool, below),
    decreases pool.len(),
{
    if pool.len() > 0 {
        let front = pool.drop_last();
        lemma_waiting_below(front, below, at);
        let free = BitstreamSlot { state: SlotState::Free, ..pool[at] };
        if 0 <= at < front.len() {
            assert(front[at] == pool[at]);
            assert(pool.update(at, free).drop_last() =~= front.update(at, free));
        } else if at == front.len() {
            assert(pool.update(at, free).drop_last() =~= front);
            if waits_below(pool[at], below) {
                lemma_waiting_below_grows(front, number_of(pool[at].state) as int, below);
            }
        }
    }
}

proof fn lemma_waiting_below_grows(pool: Seq<BitstreamSlot>, below: int, later: int)
    requires
        below <= later,
    ensures
        waiting_below(pool, below) <= waiting_below(pool, later),
    decreases pool.len(),
{
    if pool.len() > 0 {
        lemma_waiting_below_grows(pool.drop_last(), below, later);
    }
}

proof fn lemma_waiting_from(pool: Seq<BitstreamSlot>, from: int, at: int)
    ensures
        0 <= waiting_from(pool, from) <= pool.len(),
        0 <= at < pool.len() && waits_from(pool[at], from) ==> waiting_from(
            pool,
            number_of(pool[at].state) + 1,
        ) < waiting_from(pool, from),
        0 <= at < pool.len() && !waits_from(pool[at], from) ==> waiting_from(
            pool.update(at, BitstreamSlot { state: SlotState::Free, ..pool[at] }),
            from,
        ) == waiting_from(pool, from),
    decreases pool.len(),
{
    if pool.len() > 0 {
        let front = pool.drop_last();
        lemma_waiting_from(front, from, at);
        let free = BitstreamSlot { state: SlotState::Free, ..pool[at] };
        if 0 <= at < front.len() {
            assert(front[at] == pool[at]);
            assert(pool.update(at, free).drop_last() =~= front.update(at, free));
        } else if at == front.len() {
            assert(pool.update(at, free).drop_last() =~= front);
            if waits_from(pool[at], from) {
                lemma_waiting_shrinks(front, from, number_of(pool[at].state) + 1);
            }
        }
    }
}

proof fn lemma_waiting_shrinks(pool: Seq<BitstreamSlot>, from: int, later: int)
    requires
        from <= later,
    ensures
        waiting_from(pool, later) <= waiting_from(pool, from),
    decreases pool.len(),
{
    if pool.len() > 0 {
        lemma_waiting_shrinks(pool.drop_last(), from, later);
    }
}

/// Encoding a frame ends: each answer brings the run nearer to its end, so a
/// frame takes a bounded number of calls.
pub proof fn law_encode_ends(s: SessionView, run: EncodeRun, reply: ReplyView)
    requires
        session_wf(s),
        run_wf(s, run),
    ensures
        1 <= calls_left(s, run) <= 5 + 2 * POOL_SIZE,
        resume_outcome(s, run, reply).next matches NextView::Call { run: next, .. } ==> calls_left(
            resume_outcome(s, run, reply).session,
            next,
        ) < calls_left(s, run),
{
    let o = resume_outcome(s, run, reply);
    match run {
        EncodeRun::Drain { at, .. } => {
            let from = number_of(s.pool[at as int].state) + 1;
            lemma_waiting_from(s.pool, from, at as int);
            lemma_first_pending(o.session.pool, from);
            if let Some(next) = first_pending(o.session.pool, from) {
                lemma_waiting_from(o.session.pool, from, next);
            }
        },
        EncodeRun::Recheck { at } => {
            let below = number_of(s.pool[at as int].state) as int;
            lemma_waiting_below(s.pool, below, at as int);
            lemma_last_pending(o.session.pool, below);
            if let Some(next) = last_pending(o.session.pool, below) {
                lemma_waiting_below(o.session.pool, below, next);
            }
        },
        _ => {
            if let NextView::Call { run: EncodeRun::Recheck { at }, .. } = o.next {
                lemma_waiting_below(
                    o.session.pool,
                    number_of(o.session.pool[at as int].state) as int,
                    at as int,
                );
            }
        },
    }
}

/// A slot whose output was deferred is never waited for: the only lock that
/// waits is the one on a frame that NVENC has just finished.
pub proof fn law_only_finished_frames_are_waited_for(
    s: SessionView,
    run: EncodeRun,
    reply: ReplyView,
)
    requires
        session_wf(s),
        run_wf(s, run),
    ensures
        resume_outcome(s, run, reply).next matches NextView::Call {
            call: EncodeCall::Lock { output, .. },
            ..
        } ==> run is Submit && reply is Encoded && output == s.pool[run->Submit_slot as int].handle,
{
}

/// The slot that a run asks for output.
pub open spec fn asked_slot(run: EncodeRun) -> Option<int> {
    match run {
        EncodeRun::Drain { at, .. } => Some(at as int),
        EncodeRun::Collect { slot, .. } => Some(slot as int),
        EncodeRun::Probe { at } => Some(at as int),
        EncodeRun::Recheck { at } => Some(at as int),
        _ => None,
    }
}

proof fn lemma_one_slot_changes(s: SessionView, run: EncodeRun, reply: ReplyView)
    requires
        session_wf(s),
        run_wf(s, run),
        asked_slot(run) is Some,
    ensures
        ({
            let o = resume_outcome(s, run, reply);
            let at = asked_slot(run)->Some_0;
            &&& 0 <= at < s.pool.len()
            &&& o.session.pool == s.pool.update(at, o.session.pool[at])
            &&& o.session.pool[at].handle == s.pool[at].handle
            &&& reply is Ready ==> o.session.pool[at].state is Free
            &&& !(reply is Ready) ==> o.session.pool[at].state == s.pool[at].state
                || o.session.pool[at].state is Free
        }),
{
    let o = resume_outcome(s, run, reply);
    let at = asked_slot(run)->Some_0;
    assert(o.session.pool =~= s.pool.update(at, o.session.pool[at]));
}

/// The bytes that NVENC gives for a frame are the bytes that the client gets:
/// they join the queue as they are, marked as an IDR where NVENC says so, next to
/// what the queue held; any other answer brings nothing in.
pub proof fn law_output_is_nvencs_byte_for_byte(s: SessionView, run: EncodeRun, reply: ReplyView)
    requires
        session_wf(s),
        outputs_wf(s),
        run_wf(s, run),
    ensures
        reply matches ReplyView::Ready { data, is_idr } ==> (asked_slot(run) is Some ==> exists|
            i: int,
        |
            {
                &&& 0 <= i < queue_after(s, run, reply).len()
                &&& (#[trigger] queue_after(s, run, reply)[i]).coded.data == data
                &&& queue_after(s, run, reply)[i].coded.is_idr == is_idr
                &&& !queue_after(s, run, reply)[i].coded.is_pending
                &&& queue_after(s, run, reply).remove(i) == s.outputs
            }),
        !(reply is Ready) || asked_slot(run) is None ==> queue_after(s, run, reply) == s.outputs,
        resume_outcome(s, run, reply).next matches NextView::Done(Ok(coded)) ==> if coded.is_pending {
            coded.data.len() == 0 && !coded.is_idr && queue_after(s, run, reply).len() == 0
        } else {
            queue_after(s, run, reply).len() > 0 && coded == queue_after(s, run, reply)[0].coded
        },
{
    law_output_is_fifo(s, run, reply);
    if let Some(frame) = brought(s, run, reply) {
        lemma_place_in(s.outputs, frame.number);
        lemma_queue_with_wf(s.outputs, frame);
        let i = place_in(s.outputs, frame.number);
        let queue = queue_after(s, run, reply);
        assert(queue[i] == frame);
        assert(queue.remove(i) =~= s.outputs);
    }
}

/// Collecting output frees its slot and no other, unlocks the buffer that was
/// locked and then unmaps the input that the slot kept; a busy slot keeps
/// everything.
pub proof fn law_collecting_frees_the_slot(s: SessionView, run: EncodeRun, reply: ReplyView)
    requires
        session_wf(s),
        run_wf(s, run),
        asked_slot(run) is Some,
    ensures
        ({
            let o = resume_outcome(s, run, reply);
            let at = asked_slot(run)->Some_0;
            let kept = match run {
                EncodeRun::Collect { mapped_input, .. } => mapped_input,
                _ => match s.pool[at].state {
                    SlotState::Pending { mapped_input, .. } => mapped_input,
                    SlotState::Free => 0,
                },
            };
            &&& forall|k: int|
                0 <= k < s.pool.len() && k != at ==> #[trigger] o.session.pool[k] == s.pool[k]
            &&& o.session.pool.len() == s.pool.len()
            &&& o.session.pool[at].handle == s.pool[at].handle
            &&& reply is Ready ==> {
                &&& o.session.pool[at].state is Free
                &&& o.releases.len() == 2
                &&& o.releases[0] == (NvencRelease::Unlock {
                    encoder: s.encoder,
                    output: s.pool[at].handle,
                })
                &&& o.releases[1] == (NvencRelease::Unmap { encoder: s.encoder, input: kept })
            }
            &&& reply is Busy ==> o.session.pool[at] == s.pool[at] && o.releases.len() == 0
            &&& (run is Drain || run is Recheck) && !(reply is Ready) && !(reply is Busy) ==> {
                &&& o.session.pool[at].state is Free
                &&& o.releases.len() == 1
                &&& o.releases[0] == (NvencRelease::Unmap { encoder: s.encoder, input: kept })
            }
        }),
{
    lemma_one_slot_changes(s, run, reply);
}

/// A frame that NVENC defers stays in its slot, with its mapped input and its
/// surface, under the next submission number; the next frame goes to the next
/// slot in turn. Whatever else happens, a submission leaves the slots alone.
pub proof fn law_deferred_frame_keeps_its_slot(
    s: SessionView,
    slot: usize,
    mapped_input: u64,
    key: SurfaceKey,
    reply: ReplyView,
)
    requires
        session_wf(s),
        run_wf(s, EncodeRun::Submit { slot, mapped_input, key }),
    ensures
        ({
            let o = resume_outcome(s, EncodeRun::Submit { slot, mapped_input, key }, reply);
            if reply is NeedMoreInput {
                &&& o.session.pool[slot as int].state == SlotState::Pending {
                    mapped_input,
                    surface_key: key,
                    number: s.submitted,
                }
                &&& o.session.pool[slot as int].handle == s.pool[slot as int].handle
                &&& o.session.next_slot == (if slot == 5 {
                    0int
                } else {
                    slot + 1
                })
                &&& s.submitted < u64::MAX ==> o.session.submitted == s.submitted + 1
                &&& forall|k: int|
                    0 <= k < s.pool.len() && k != slot ==> #[trigger] o.session.pool[k] == s.pool[k]
            } else {
                o.session == s
            }
        }),
{
    let o = resume_outcome(s, EncodeRun::Submit { slot, mapped_input, key }, reply);
    if reply is NeedMoreInput {
        let t = deferred(s, slot as int, mapped_input, key);
        assert(o.session.pool == t.pool);
        assert(o.session.next_slot == t.next_slot && o.session.submitted == t.submitted);
    }
}

/// A frame that was collected at once moves the round-robin pointer on, and
/// counts as submitted.
pub proof fn law_collected_frame_moves_on(
    s: SessionView,
    slot: usize,
    mapped_input: u64,
    data: Seq<u8>,
    is_idr: bool,
)
    requires
        session_wf(s),
        run_wf(s, EncodeRun::Collect { slot, mapped_input }),
    ensures
        ({
            let o = resume_outcome(
                s,
                EncodeRun::Collect { slot, mapped_input },
                ReplyView::Ready { data, is_idr },
            );
            &&& o.session.next_slot == (if slot == 5 {
                0int
            } else {
                slot + 1
            })
            &&& s.submitted < u64::MAX ==> o.session.submitted == s.submitted + 1
        }),
{
}

/// A frame needs a surface that is registered and a slot that is free, and is
/// refused where it lacks either; then the resource of that surface is mapped.
pub proof fn law_frame_needs_surface_and_slot(
    s: SessionView,
    releases: Seq<NvencRelease>,
    key: SurfaceKey,
    force_idr: bool,
)
    requires
        session_wf(s),
    ensures
        ({
            let o = map_outcome(s, releases, key, force_idr);
            let all_pending = forall|k: int|
                0 <= k < s.pool.len() ==> (#[trigger] s.pool[k]).state is Pending;
            &&& o.session == s
            &&& o.releases == releases
            &&& !s.registered.contains_key(key.raw()) <==> o.next == NextView::Done(
                Err::<CodedView, DriverError>(DriverError::InvalidSurface),
            )
            &&& s.registered.contains_key(key.raw()) && all_pending ==> (o.next matches
                NextView::Done(Err(e)) && e is OperationFailed)
            &&& s.registered.contains_key(key.raw()) && !all_pending ==> (o.next matches
                NextView::Call { call, run: EncodeRun::MapSurface { slot, registration, .. } }
                && call == EncodeCall::MapInput {
                encoder: s.encoder,
                registered: s.registered[key.raw()].registered_ptr,
            } && registration == s.registered[key.raw()] && s.pool[slot as int].state is Free)
        }),
{
    law_free_slot_is_found(s.pool, s.next_slot);
    lemma_free_from(s.pool, s.next_slot, 0);
    if let Some(slot) = free_from(s.pool, s.next_slot, 0) {
        assert(s.pool[slot].state is Free);
    }
}

/// A call that fails ends the frame: a surface that cannot be mapped or a lock
/// that fails changes nothing, and a submission that fails gives the mapped input
/// back.
pub proof fn law_failed_calls_end_the_frame(s: SessionView, run: EncodeRun)
    requires
        session_wf(s),
        run_wf(s, run),
        run is MapSurface || run is Submit || run is Collect,
    ensures
        ({
            let o = resume_outcome(s, run, ReplyView::Failed);
            &&& o.session == s
            &&& o.next matches NextView::Done(Err(_))
            &&& run is MapSurface ==> (o.next matches NextView::Done(
                Err(DriverError::OperationFailed(_)),
            ) && o.releases.len() == 0)
            &&& run is Collect ==> (o.next matches NextView::Done(Err(DriverError::Encoding(_)))
                && o.releases.len() == 0)
            &&& run matches EncodeRun::Submit { mapped_input, .. } ==> (o.next matches
                NextView::Done(Err(DriverError::Encoding(_))) && o.releases == seq![
                NvencRelease::Unmap { encoder: s.encoder, input: mapped_input },
            ])
        }),
        begin_outcome(s, SurfaceKey { raw: 0 }, false, false).next matches NextView::Done(
            Err(DriverError::OperationFailed(_)),
        ),
{
}

/// The encoder, the slot and the surface that a call is made for.
pub open spec fn call_fits(s: SessionView, call: EncodeCall, run: EncodeRun) -> bool {
    match (call, run) {
        (EncodeCall::TryLock { encoder, output }, EncodeRun::Drain { at, .. }) => encoder
            == s.encoder && output == s.pool[at as int].handle,
        (EncodeCall::TryLock { encoder, output }, EncodeRun::Probe { at }) => encoder == s.encoder
            && output == s.pool[at as int].handle,
        (EncodeCall::TryLock { encoder, output }, EncodeRun::Recheck { at }) => encoder == s.encoder
            && output == s.pool[at as int].handle,
        (
            EncodeCall::MapInput { encoder, registered },
            EncodeRun::MapSurface { registration, key, .. },
        ) => encoder == s.encoder && registered == registration.registered_ptr
            && s.registered.contains_key(key.raw()) && registration == s.registered[key.raw()],
        (
            EncodeCall::EncodePicture { encoder, params },
            EncodeRun::Submit { slot, mapped_input, .. },
        ) => encoder == s.encoder && params.input_buffer == mapped_input && params.output_bitstream
            == s.pool[slot as int].handle,
        (EncodeCall::Lock { encoder, output }, EncodeRun::Collect { slot, .. }) => encoder
            == s.encoder && output == s.pool[slot as int].handle,
        _ => false,
    }
}

/// Every call goes to the encoder of the session, and to the buffer of the slot
/// or the resource of the surface that its run is about. What a run is about
/// stays the same from the mapping of a surface to the collection of its output.
pub proof fn law_calls_fit_their_run(
    s: SessionView,
    key: SurfaceKey,
    force_idr: bool,
    run: EncodeRun,
    reply: ReplyView,
)
    requires
        session_wf(s),
        run_wf(s, run),
    ensures
        begin_outcome(s, key, force_idr, true).next matches NextView::Call { call, run: next }
            ==> call_fits(s, call, next),
        resume_outcome(s, run, reply).next matches NextView::Call { call, run: next } ==> {
            let o = resume_outcome(s, run, reply);
            &&& call_fits(o.session, call, next)
            &&& run matches EncodeRun::MapSurface { slot, key, .. } ==> (next matches
                EncodeRun::Submit { slot: same_slot, mapped_input, key: same_key } && same_slot
                == slot && same_key == key && reply == ReplyView::Mapped(mapped_input))
            &&& run matches EncodeRun::Submit { slot, mapped_input, .. } ==> (reply is Encoded ==> (
            next matches EncodeRun::Collect { slot: same_slot, mapped_input: same_input }
                && same_slot == slot && same_input == mapped_input))
            &&& run matches EncodeRun::Drain { key, force_idr, .. } ==> match next {
                EncodeRun::Drain { key: same_key, force_idr: same_idr, .. } => same_key == key
                    && same_idr == force_idr,
                EncodeRun::MapSurface { key: same_key, force_idr: same_idr, .. } => same_key == key
                    && same_idr == force_idr,
                _ => false,
            }
        },
        begin_outcome(s, key, force_idr, true).next matches NextView::Call { run: next, .. }
            ==> match next {
            EncodeRun::Drain { key: same_key, force_idr: same_idr, .. } => same_key == key
                && same_idr == force_idr,
            EncodeRun::MapSurface { key: same_key, force_idr: same_idr, .. } => same_key == key
                && same_idr == force_idr,
            _ => false,
        },
{
    law_encode_keeps_session_valid(s, key, force_idr, true, run, reply);
    lemma_first_pending(s.pool, 0);
    lemma_free_from(s.pool, s.next_slot, 0);
    let t = resume_outcome(s, run, reply).session;
    lemma_first_pending(t.pool, 0);
    lemma_free_from(t.pool, t.next_slot, 0);
    match run {
        EncodeRun::Drain { at, .. } => {
            lemma_first_pending(t.pool, number_of(s.pool[at as int].state) + 1);
        },
        EncodeRun::Recheck { at } => {
            lemma_last_pending(t.pool, number_of(s.pool[at as int].state) as int);
        },
        _ => {
            if t.outputs.len() > 0 {
                lemma_last_pending(t.pool, t.outputs[0].number as int);
            }
        },
    }
}

/// An IDR is asked for where the client wants one and nowhere else, with the
/// picture of the surface that the run mapped.
pub proof fn law_submitted_picture_is_the_mapped_one(
    s: SessionView,
    slot: usize,
    registration: RegisteredSurface,
    key: SurfaceKey,
    force_idr: bool,
    input: u64,
)
    ensures
        resume_outcome(
            s,
            EncodeRun::MapSurface { slot, registration, key, force_idr },
            ReplyView::Mapped(input),
        ).next matches NextView::Call { call: EncodeCall::EncodePicture { params, .. }, .. } && {
            &&& params.input_width == registration.width
            &&& params.input_height == registration.height
            &&& params.input_pitch == registration.pitch
            &&& params.input_buffer == input
            &&& params.encode_pic_flags == 2 <==> force_idr
            &&& params.encode_pic_flags == 0 <==> !force_idr
        },
{
}

} // verus!
