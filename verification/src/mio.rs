//! The Mai I/O subsystem: asynchronous I/O through a submission queue and a
//! completion queue.

pub mod buffer;
pub mod cqe;
pub mod laws;
pub mod ops;
pub mod poll;
pub mod ring;
pub mod setup_flags;
pub mod sqe;
pub mod stats;
pub mod worker;

use crate::mio::buffer::BufferPool;
use crate::mio::cqe::CompletionEntry;
use crate::mio::ring::{CompletionQueue, SubmissionQueue};
use crate::mio::ring::{CqState, SqState};
use crate::mio::sqe::{sqe_flags, SubmissionEntry};
use vstd::prelude::*;

verus! {

/// Default depth of a submission queue.
pub const DEFAULT_SQ_DEPTH: u32 = 256;

/// Default depth of a completion queue.
pub const DEFAULT_CQ_DEPTH: u32 = 512;

/// Maximum depth of a submission queue.
pub const MAX_SQ_DEPTH: u32 = 4096;

/// Maximum depth of a completion queue.
pub const MAX_CQ_DEPTH: u32 = 8192;

/// Maximum number of buffer pools of an instance.
pub const MAX_BUFFER_POOLS: usize = 16;

/// Maximum number of instances.
pub const MAX_INSTANCES: usize = 256;

/// Milliseconds without work before the polling thread parks.
pub const SQPOLL_IDLE_TIMEOUT_MS: u64 = 1000;

/// Maximum number of submissions in one round of the polling thread.
pub const SQPOLL_BATCH_SIZE: u32 = 32;

/// Error codes.
#[derive(Clone, Copy, Debug, PartialEq, Eq, Structural)]
pub enum MioError {
    Success,
    InvalidArg,
    NoMemory,
    Busy,
    NotSupported,
    BadFd,
    IoError,
    Cancelled,
    Overflow,
    TimedOut,
    WouldBlock,
}

impl MioError {
    /// The number of an error code.
    pub open spec fn code(self) -> i32 {
        match self {
            MioError::Success => 0,
            MioError::InvalidArg => (-22) as i32,
            MioError::NoMemory => (-12) as i32,
            MioError::Busy => (-16) as i32,
            MioError::NotSupported => (-95) as i32,
            MioError::BadFd => (-9) as i32,
            MioError::IoError => (-5) as i32,
            MioError::Cancelled => (-125) as i32,
            MioError::Overflow => (-75) as i32,
            MioError::TimedOut => (-110) as i32,
            MioError::WouldBlock => (-11) as i32,
        }
    }

    /// The number of an error code.
    pub fn as_i32(self) -> (r: i32)
        ensures
            r == self.code(),
    {
        match self {
            MioError::Success => 0,
            MioError::InvalidArg => -22,
            MioError::NoMemory => -12,
            MioError::Busy => -16,
            MioError::NotSupported => -95,
            MioError::BadFd => -9,
            MioError::IoError => -5,
            MioError::Cancelled => -125,
            MioError::Overflow => -75,
            MioError::TimedOut => -110,
            MioError::WouldBlock => -11,
        }
    }
}

/// Parameters of a new instance.
#[derive(Clone, Copy, Debug, PartialEq, Eq, Structural)]
pub struct MioParams {
    /// Number of submissions, rounded up to a power of two.
    pub sq_depth: u32,
    /// Number of completions, or zero for a multiple of the number of submissions.
    pub cq_depth: u32,
    /// Setup flags.
    pub flags: u32,
    /// Milliseconds without work before the polling thread parks, or zero for the
    /// default.
    pub sq_thread_idle_ms: u64,
}

impl Default for MioParams {
    fn default() -> (p: Self)
        ensures
            p == (MioParams {
                sq_depth: DEFAULT_SQ_DEPTH,
                cq_depth: 0,
                flags: 0,
                sq_thread_idle_ms: 0,
            }),
    {
        MioParams { sq_depth: DEFAULT_SQ_DEPTH, cq_depth: 0, flags: 0, sq_thread_idle_ms: 0 }
    }
}

/// The greatest value that can be rounded up to a power of two.
pub const MAX_ROUNDED: u32 = 0x8000_0000;

/// `r` is the least power of two that is not below `v`.
pub open spec fn is_rounded_up(v: u32, r: u32) -> bool {
    &&& ring::is_power_of_two(r)
    &&& v <= r
    &&& forall|q: u32| ring::is_power_of_two(q) && v <= q ==> r <= q
}

/// The least power of two that is not below `v`.
pub open spec fn rounded_up(v: u32) -> u32 {
    choose|r: u32| is_rounded_up(v, r)
}

/// `a` or the limit, whichever is less.
pub open spec fn capped(a: int, limit: u32) -> u32 {
    if a <= limit {
        a as u32
    } else {
        limit
    }
}

/// Depth of the submission queue.
pub open spec fn sq_depth_of(p: MioParams) -> u32 {
    capped(rounded_up(p.sq_depth) as int, MAX_SQ_DEPTH)
}

/// Depth of the completion queue: as asked for, or else twice the depth of the
/// submission queue, or four times where the flags say so.
pub open spec fn cq_depth_of(p: MioParams) -> u32 {
    if p.cq_depth != 0 {
        capped(rounded_up(p.cq_depth) as int, MAX_CQ_DEPTH)
    } else if p.flags & setup_flags::CQ_4X != 0 {
        capped(sq_depth_of(p) * 4, MAX_CQ_DEPTH)
    } else {
        capped(sq_depth_of(p) * 2, MAX_CQ_DEPTH)
    }
}

/// A submission is linked to the next one.
pub open spec fn is_linked(e: SubmissionEntry) -> bool {
    e.flags & sqe_flags::IO_LINK != 0 || e.flags & sqe_flags::IO_HARDLINK != 0
}

/// The failure of a submission cancels those that it is linked to: it fails, and no
/// hard link has the next one run whatever came before.
pub open spec fn breaks_chain(e: SubmissionEntry) -> bool {
    ops::op_result(e) < 0 && e.flags & sqe_flags::IO_HARDLINK == 0
}

/// Submission `i` is not run, because one before it in its chain has failed.
pub open spec fn is_cancelled(subs: Seq<SubmissionEntry>, i: int) -> bool
    decreases i,
{
    0 < i && is_linked(subs[i - 1]) && (is_cancelled(subs, i - 1) || breaks_chain(subs[i - 1]))
}

/// The completion of submission `i`.
pub open spec fn completion_at(subs: Seq<SubmissionEntry>, i: int) -> CompletionEntry {
    CompletionEntry {
        user_data: subs[i].user_data,
        result: if is_cancelled(subs, i) {
            MioError::Cancelled.code()
        } else {
            ops::op_result(subs[i])
        },
        flags: 0,
    }
}

/// The completions of submissions, in their order.
pub open spec fn completions_of(subs: Seq<SubmissionEntry>) -> Seq<CompletionEntry> {
    Seq::new(subs.len(), |i: int| completion_at(subs, i))
}

/// Whether a submission is cancelled rests on those before it alone.
proof fn lemma_cancelled_prefix(subs: Seq<SubmissionEntry>, n: int, i: int)
    requires
        0 <= i <= n <= subs.len(),
    ensures
        is_cancelled(subs.take(n), i) == is_cancelled(subs, i),
    decreases i,
{
    if i > 0 {
        lemma_cancelled_prefix(subs, n, i - 1);
        assert(subs.take(n)[i - 1] == subs[i - 1]);
    }
}

/// One more submission has one more completion.
proof fn lemma_completions_push(subs: Seq<SubmissionEntry>, n: int)
    requires
        0 <= n < subs.len(),
    ensures
        completions_of(subs.take(n + 1)) == completions_of(subs.take(n)).push(
            completion_at(subs, n),
        ),
{
    let a = completions_of(subs.take(n + 1));
    let b = completions_of(subs.take(n)).push(completion_at(subs, n));
    assert forall|i: int| 0 <= i < n + 1 implies a[i] == b[i] by {
        lemma_cancelled_prefix(subs, n + 1, i);
        if i < n {
            lemma_cancelled_prefix(subs, n, i);
        }
    }
    assert(a =~= b);
}

/// What an instance holds.
#[verifier::ext_equal]
pub struct InstanceState {
    /// Identifier.
    pub id: u32,
    /// Submission queue.
    pub sq: SqState,
    /// Completion queue.
    pub cq: CqState,
    /// Registered buffer pools.
    pub pools: Seq<BufferPool>,
    /// Setup flags.
    pub flags: u32,
    /// The polling thread is active.
    pub sqpoll: bool,
    /// Submissions, modulo the width of the counter.
    pub submissions: u64,
    /// Completions, modulo the width of the counter.
    pub completions: u64,
    /// The instance is in use.
    pub active: bool,
}

impl InstanceState {
    /// A new instance.
    pub open spec fn fresh(id: u32, p: MioParams) -> InstanceState {
        InstanceState {
            id,
            sq: SqState {
                ready: Seq::empty(),
                pending: Seq::empty(),
                depth: sq_depth_of(p) as nat,
            },
            cq: CqState { ready: Seq::empty(), depth: cq_depth_of(p) as nat, overflow: 0 },
            pools: Seq::empty(),
            flags: p.flags,
            sqpoll: false,
            submissions: 0,
            completions: 0,
            active: true,
        }
    }

    /// How many of `n` submissions there are to process.
    pub open spec fn available(self, n: int) -> int {
        if n <= self.sq.ready.len() {
            n
        } else {
            self.sq.ready.len() as int
        }
    }

    /// The instance after its `n` oldest submissions were processed: each is
    /// consumed, and its completion is posted where the queue has room.
    pub open spec fn processed(self, n: int) -> InstanceState {
        let entries = completions_of(self.sq.ready.take(n));
        InstanceState {
            sq: self.sq.consumed(n),
            cq: self.cq.produced(entries),
            completions: self.completions.wrapping_add(self.cq.accepted(n) as u64),
            ..self
        }
    }

    /// The instance after its pending submissions were flushed and counted.
    pub open spec fn flushed(self) -> InstanceState {
        InstanceState {
            sq: self.sq.flushed(),
            submissions: self.submissions.wrapping_add(self.sq.pending.len() as u64),
            ..self
        }
    }

    /// The instance after a submit.
    pub open spec fn submitted(self) -> InstanceState {
        self.flushed().processed(self.sq.pending.len() as int)
    }

    /// How many of `max` completions there are to reap.
    pub open spec fn reapable(self, max: int) -> int {
        if max <= self.cq.ready.len() {
            max
        } else {
            self.cq.ready.len() as int
        }
    }
}

/// Producing one entry after others is producing them all.
proof fn lemma_produced_push(cq: CqState, entries: Seq<CompletionEntry>, x: CompletionEntry)
    requires
        cq.free() >= 0,
    ensures
        cq.produced(entries).produced(seq![x]) == cq.produced(entries.push(x)),
{
    let a = cq.produced(entries).produced(seq![x]);
    let b = cq.produced(entries.push(x));
    assert(a.ready =~= b.ready);
    assert(a =~= b);
}

/// The limits on the depths are powers of two.
proof fn lemma_limits()
    ensures
        ring::is_power_of_two(MAX_SQ_DEPTH),
        ring::is_power_of_two(MAX_CQ_DEPTH),
{
    vstd::arithmetic::power2::lemma2_to64();
    assert(MAX_SQ_DEPTH as nat == vstd::arithmetic::power2::pow2(12));
    assert(MAX_CQ_DEPTH as nat == vstd::arithmetic::power2::pow2(13));
}

/// Twice a power of two is one, if it is in range.
proof fn lemma_doubled(d: u32)
    requires
        ring::is_power_of_two(d),
        d <= 0x4000_0000,
    ensures
        ring::is_power_of_two((d * 2) as u32),
{
    let n = choose|n: nat| n < 32 && d as nat == #[trigger] vstd::arithmetic::power2::pow2(n);
    vstd::arithmetic::power2::lemma2_to64();
    vstd::arithmetic::power2::lemma_pow2_unfold(n + 1);
    if n == 31 {
        assert(false);
    }
    assert((d * 2) as nat == vstd::arithmetic::power2::pow2(n + 1));
}

/// An instance: a submission queue and a completion queue.
pub struct MioInstance {
    /// Identifier.
    pub id: u32,
    /// Submission queue.
    pub sq: SubmissionQueue,
    /// Completion queue.
    pub cq: CompletionQueue,
    /// Registered buffer pools.
    pub buffer_pools: Vec<BufferPool>,
    /// Setup flags.
    pub flags: u32,
    /// The polling thread is active.
    pub sqpoll_active: bool,
    /// Submissions.
    pub total_submissions: u64,
    /// Completions.
    pub total_completions: u64,
    /// The instance is in use.
    pub active: bool,
}

impl View for MioInstance {
    type V = InstanceState;

    open spec fn view(&self) -> InstanceState {
        InstanceState {
            id: self.id,
            sq: self.sq@,
            cq: self.cq@,
            pools: self.buffer_pools@,
            flags: self.flags,
            sqpoll: self.sqpoll_active,
            submissions: self.total_submissions,
            completions: self.total_completions,
            active: self.active,
        }
    }
}

impl MioInstance {
    /// Both queues are well formed.
    pub open spec fn wf(&self) -> bool {
        &&& self.sq.wf()
        &&& self.cq.wf()
        &&& self.buffer_pools@.len() <= MAX_BUFFER_POOLS
    }

    /// Makes an instance with empty queues.
    pub fn new(id: u32, params: &MioParams) -> (r: Result<Self, MioError>)
        requires
            params.sq_depth <= MAX_ROUNDED,
            params.cq_depth <= MAX_ROUNDED,
        ensures
            r matches Ok(inst) && inst.wf() && inst@ == InstanceState::fresh(id, *params),
    {
        let rounded: u32 = next_power_of_two(params.sq_depth);
        let sq_depth: u32 = if rounded <= MAX_SQ_DEPTH {
            rounded
        } else {
            MAX_SQ_DEPTH
        };
        proof {
            lemma_limits();
            lemma_doubled(sq_depth);
            lemma_doubled((sq_depth * 2) as u32);
        }
        let wanted: u32 = if params.cq_depth == 0 {
            if params.flags & setup_flags::CQ_4X != 0 {
                sq_depth * 4
            } else {
                sq_depth * 2
            }
        } else {
            next_power_of_two(params.cq_depth)
        };
        let cq_depth: u32 = if wanted <= MAX_CQ_DEPTH {
            wanted
        } else {
            MAX_CQ_DEPTH
        };
        let inst = MioInstance {
            id,
            sq: SubmissionQueue::new(sq_depth),
            cq: CompletionQueue::new(cq_depth),
            buffer_pools: Vec::new(),
            flags: params.flags,
            sqpoll_active: false,
            total_submissions: 0,
            total_completions: 0,
            active: true,
        };
        assert(inst@ =~= InstanceState::fresh(id, *params));
        Ok(inst)
    }

    /// Flushes and processes all pending submissions and returns their number.
    /// If `min_complete` completions are not available then, the call times out.
    pub fn submit(&mut self, min_complete: u32) -> (r: Result<u32, MioError>)
        requires
            old(self).wf(),
        ensures
            final(self).wf(),
            final(self)@ == old(self)@.submitted(),
            r == if final(self)@.cq.ready.len() >= min_complete {
                Ok::<u32, MioError>(old(self)@.sq.pending.len() as u32)
            } else {
                Err(MioError::TimedOut)
            },
    {
        let submitted: u32 = self.sq.flush_pending();
        self.total_submissions = self.total_submissions.wrapping_add(submitted as u64);
        assert(self@ =~= old(self)@.flushed());
        let processed: u32 = self.process_submissions(submitted);
        if min_complete > 0 {
            match self.wait_for_completions(min_complete) {
                Ok(_) => {},
                Err(e) => {
                    return Err(e);
                },
            }
        }
        Ok(processed)
    }

    /// Processes up to `count` submissions.
    pub fn process_submissions(&mut self, count: u32) -> (n: u32)
        requires
            old(self).wf(),
        ensures
            final(self).wf(),
            n == old(self)@.available(count as int),
            final(self)@ == old(self)@.processed(n as int),
    {
        let mut processed: u32 = 0;
        let mut cancelled: bool = false;
        let mut i: u32 = 0;
        proof {
            self.sq.holds_at_most_depth();
            self.cq.holds_at_most_depth();
            assert(self@.sq.ready.skip(0) =~= self@.sq.ready);
            assert(self@.cq.ready + completions_of(self@.sq.ready.take(0)).take(0)
                =~= self@.cq.ready);
            assert(self@ =~= self@.processed(0));
        }
        while i < count
            invariant_except_break
                processed == i,
            invariant
                self.wf(),
                processed <= count,
                processed <= old(self)@.sq.ready.len(),
                old(self)@.cq.free() >= 0,
                old(self)@.cq.depth <= u32::MAX,
                cancelled == is_cancelled(old(self)@.sq.ready, processed as int),
                self@ == old(self)@.processed(processed as int),
            ensures
                processed == old(self)@.available(count as int),
            decreases count - i,
        {
            match self.sq.consume_one() {
                Some(sqe) => {
                    let ghost before = old(self)@;
                    let ghost n = processed as int;
                    let result: i32 = if cancelled {
                        MioError::Cancelled.as_i32()
                    } else {
                        ops::dispatch(&sqe)
                    };
                    self.post_completion(sqe.user_data, result);
                    let hard: bool = sqe.flags & sqe_flags::IO_HARDLINK != 0;
                    let linked: bool = hard || sqe.flags & sqe_flags::IO_LINK != 0;
                    cancelled = linked && (cancelled || (result < 0 && !hard));
                    processed += 1;
                    proof {
                        assert(sqe == before.sq.ready[n]);
                        assert(before.sq.ready.skip(n).skip(1) =~= before.sq.ready.skip(n + 1));
                        lemma_completions_push(before.sq.ready, n);
                        lemma_produced_push(
                            before.cq,
                            completions_of(before.sq.ready.take(n)),
                            completion_at(before.sq.ready, n),
                        );
                        assert(self@ =~= before.processed(n + 1));
                    }
                },
                None => {
                    break;
                },
            }
            i += 1;
        }
        processed
    }

    /// Posts a completion. It is dropped if the queue is full.
    fn post_completion(&mut self, user_data: u64, result: i32)
        requires
            old(self).wf(),
        ensures
            final(self).wf(),
            final(self)@ == (InstanceState {
                cq: old(self)@.cq.produced(seq![CompletionEntry { user_data, result, flags: 0 }]),
                completions: if old(self)@.cq.free() == 0 {
                    old(self)@.completions
                } else {
                    old(self)@.completions.wrapping_add(1)
                },
                ..old(self)@
            }),
    {
        let cqe = CompletionEntry { user_data, result, flags: 0 };
        if self.cq.produce(cqe).is_ok() {
            self.total_completions = self.total_completions.wrapping_add(1);
        }
    }

    /// Whether `min_complete` completions are available. None can arrive while the
    /// caller holds the instance.
    fn wait_for_completions(&self, min_complete: u32) -> (r: Result<(), MioError>)
        requires
            self.wf(),
        ensures
            r == if self@.cq.ready.len() >= min_complete {
                Ok::<(), MioError>(())
            } else {
                Err(MioError::TimedOut)
            },
    {
        if self.cq.ready_count() >= min_complete {
            Ok(())
        } else {
            Err(MioError::TimedOut)
        }
    }

    /// Takes up to `max` completions: tokens and results, oldest first.
    pub fn reap_completions(&mut self, max: u32) -> (r: Vec<(u64, i32)>)
        requires
            old(self).wf(),
        ensures
            final(self).wf(),
            r.len() == old(self)@.reapable(max as int),
            final(self)@ == (InstanceState {
                cq: old(self)@.cq.consumed(r.len() as int),
                ..old(self)@
            }),
            forall|i: int|
                0 <= i < r.len() ==> #[trigger] r[i] == (
                    old(self)@.cq.ready[i].user_data,
                    old(self)@.cq.ready[i].result,
                ),
    {
        let mut results: Vec<(u64, i32)> = Vec::new();
        let mut i: u32 = 0;
        assert(self@.cq.consumed(0) =~= self@.cq);
        while i < max
            invariant_except_break
                results.len() == i,
            invariant
                self.wf(),
                i <= max,
                results.len() <= old(self)@.cq.ready.len(),
                results.len() <= max,
                self@ == (InstanceState {
                    cq: old(self)@.cq.consumed(results.len() as int),
                    ..old(self)@
                }),
                forall|k: int|
                    0 <= k < results.len() ==> #[trigger] results[k] == (
                        old(self)@.cq.ready[k].user_data,
                        old(self)@.cq.ready[k].result,
                    ),
            ensures
                results.len() == old(self)@.reapable(max as int),
            decreases max - i,
        {
            match self.cq.consume_one() {
                Some(cqe) => {
                    let ghost n = results.len() as int;
                    results.push((cqe.user_data, cqe.result));
                    assert(old(self)@.cq.consumed(n).consumed(1) =~= old(self)@.cq.consumed(n + 1));
                },
                None => {
                    break;
                },
            }
            i += 1;
        }
        results
    }

    /// Registers a buffer pool and returns its index, or refuses it if there are
    /// too many.
    pub fn register_buffers(&mut self, pool: BufferPool) -> (r: Result<u32, MioError>)
        requires
            old(self).wf(),
        ensures
            final(self).wf(),
            r == if old(self)@.pools.len() >= MAX_BUFFER_POOLS {
                Err::<u32, MioError>(MioError::Busy)
            } else {
                Ok(old(self)@.pools.len() as u32)
            },
            final(self)@ == if r is Ok {
                InstanceState { pools: old(self)@.pools.push(pool), ..old(self)@ }
            } else {
                old(self)@
            },
    {
        if self.buffer_pools.len() >= MAX_BUFFER_POOLS {
            return Err(MioError::Busy);
        }
        let idx: u32 = self.buffer_pools.len() as u32;
        self.buffer_pools.push(pool);
        Ok(idx)
    }

    /// Takes the instance out of use.
    fn destroy(&mut self)
        ensures
            final(self)@ == (InstanceState { sqpoll: false, active: false, ..old(self)@ }),
    {
        self.sqpoll_active = false;
        self.active = false;
    }
}

/// What the subsystem holds.
#[verifier::ext_equal]
pub struct MioState {
    /// Slots for instances.
    pub slots: Seq<Option<InstanceState>>,
    /// Identifier of the next instance.
    pub next_id: u32,
    /// Instances that were created, modulo the width of the counter.
    pub created: u64,
    /// Instances in use, modulo the width of the counter.
    pub active: u32,
}

/// `i` is the first empty slot.
pub open spec fn is_first_empty(slots: Seq<Option<InstanceState>>, i: int) -> bool {
    &&& 0 <= i < slots.len()
    &&& slots[i] is None
    &&& forall|k: int| 0 <= k < i ==> #[trigger] slots[k] is Some
}

/// `i` is the first slot with an instance of this identifier.
pub open spec fn is_first_with(slots: Seq<Option<InstanceState>>, id: u32, i: int) -> bool {
    &&& 0 <= i < slots.len()
    &&& slots[i] matches Some(inst) && inst.id == id
    &&& forall|k: int| 0 <= k < i ==> !holds_id(#[trigger] slots[k], id)
}

/// `i` is the first slot with an instance of this identifier that is in use.
pub open spec fn is_first_active(slots: Seq<Option<InstanceState>>, id: u32, i: int) -> bool {
    &&& 0 <= i < slots.len()
    &&& holds_active(slots[i], id)
    &&& forall|k: int| 0 <= k < i ==> !holds_active(#[trigger] slots[k], id)
}

/// The slot holds an instance of this identifier.
pub open spec fn holds_id(slot: Option<InstanceState>, id: u32) -> bool {
    slot matches Some(inst) && inst.id == id
}

/// The slot holds an instance of this identifier that is in use.
pub open spec fn holds_active(slot: Option<InstanceState>, id: u32) -> bool {
    slot matches Some(inst) && inst.id == id && inst.active
}

/// Number of slots with an instance.
pub open spec fn occupied(slots: Seq<Option<InstanceState>>) -> int
    decreases slots.len(),
{
    if slots.len() == 0 {
        0
    } else {
        occupied(slots.drop_last()) + if slots.last() is Some {
            1int
        } else {
            0
        }
    }
}

impl MioState {
    /// A subsystem without instances.
    pub open spec fn fresh() -> MioState {
        MioState { slots: Seq::empty(), next_id: 0, created: 0, active: 0 }
    }

    /// The slot that the next instance gets, if there is one.
    pub open spec fn next_slot(self) -> Option<int> {
        if exists|i: int| is_first_empty(self.slots, i) {
            Some(choose|i: int| is_first_empty(self.slots, i))
        } else if self.slots.len() < MAX_INSTANCES {
            Some(self.slots.len() as int)
        } else {
            None
        }
    }

    /// The subsystem after an identifier was used up.
    pub open spec fn id_used(self) -> MioState {
        MioState { next_id: self.next_id.wrapping_add(1), ..self }
    }

    /// The subsystem after an instance was put into slot `i`.
    pub open spec fn set_up(self, i: int, inst: InstanceState) -> MioState {
        MioState {
            slots: if i < self.slots.len() {
                self.slots.update(i, Some(inst))
            } else {
                self.slots.push(Some(inst))
            },
            created: self.created.wrapping_add(1),
            active: self.active.wrapping_add(1),
            ..self.id_used()
        }
    }

    /// The subsystem after slot `i` was emptied.
    pub open spec fn torn_down(self, i: int) -> MioState {
        MioState {
            slots: self.slots.update(i, None),
            active: self.active.wrapping_sub(1),
            ..self
        }
    }

    /// All identifiers in the slots are below the next one, no identifier occurs
    /// twice, and the counter of instances is right.
    pub open spec fn consistent(self) -> bool {
        &&& forall|i: int|
            0 <= i < self.slots.len() ==> (#[trigger] self.slots[i] matches Some(inst)
                ==> inst.id < self.next_id)
        &&& forall|i: int, j: int|
            0 <= i < j < self.slots.len() && self.slots[i] is Some && self.slots[j] is Some
                ==> (#[trigger] self.slots[i]).unwrap().id != (#[trigger] self.slots[j]).unwrap().id
        &&& self.active == occupied(self.slots)
        &&& self.slots.len() <= MAX_INSTANCES
    }
}

/// The I/O subsystem: all instances.
pub struct MaiIO {
    instances: Vec<Option<MioInstance>>,
    next_id: u32,
    /// Instances that were created.
    pub total_created: u64,
    /// Instances in use.
    pub active_count: u32,
}

/// A slot as mathematical values.
pub open spec fn slot_view(slot: Option<MioInstance>) -> Option<InstanceState> {
    match slot {
        Some(inst) => Some(inst@),
        None => None,
    }
}

impl View for MaiIO {
    type V = MioState;

    closed spec fn view(&self) -> MioState {
        MioState {
            slots: Seq::new(self.instances@.len(), |i: int| slot_view(self.instances@[i])),
            next_id: self.next_id,
            created: self.total_created,
            active: self.active_count,
        }
    }
}

impl MaiIO {
    /// Every instance is well formed.
    pub closed spec fn wf(&self) -> bool {
        &&& self.instances@.len() <= MAX_INSTANCES
        &&& forall|i: int|
            0 <= i < self.instances@.len() ==> (#[trigger] self.instances@[i] matches Some(inst)
                ==> inst.wf())
    }

    /// Makes a subsystem without instances.
    pub fn new() -> (m: Self)
        ensures
            m.wf(),
            m@ == MioState::fresh(),
            m@.consistent(),
    {
        let m = MaiIO { instances: Vec::new(), next_id: 0, total_created: 0, active_count: 0 };
        assert(m@.slots =~= Seq::empty());
        m
    }

    /// Creates an instance and returns its identifier. It gets the first empty slot.
    /// If all slots are taken the subsystem is busy.
    pub fn setup(&mut self, params: &MioParams) -> (r: Result<u32, MioError>)
        requires
            old(self).wf(),
            params.sq_depth <= MAX_ROUNDED,
            params.cq_depth <= MAX_ROUNDED,
        ensures
            final(self).wf(),
            r == if old(self)@.next_slot() is Some {
                Ok::<u32, MioError>(old(self)@.next_id)
            } else {
                Err(MioError::Busy)
            },
            final(self)@ == match old(self)@.next_slot() {
                Some(i) => old(self)@.set_up(
                    i,
                    InstanceState::fresh(old(self)@.next_id, *params),
                ),
                None => old(self)@.id_used(),
            },
    {
        let id: u32 = self.next_id;
        self.next_id = self.next_id.wrapping_add(1);
        let instance = match MioInstance::new(id, params) {
            Ok(instance) => instance,
            Err(e) => {
                return Err(e);
            },
        };
        let ghost slots = old(self)@.slots;
        let mut i: usize = 0;
        while i < self.instances.len() && self.instances[i].is_some()
            invariant
                i <= self.instances.len(),
                self.instances == old(self).instances,
                slots == old(self)@.slots,
                forall|k: int| 0 <= k < i ==> #[trigger] slots[k] is Some,
            decreases self.instances.len() - i,
        {
            assert(slots[i as int] is Some);
            i += 1;
        }
        if i < self.instances.len() {
            proof {
                assert(is_first_empty(slots, i as int));
                let j = choose|j: int| is_first_empty(slots, j);
                if i < j {
                    assert(slots[i as int] is Some);
                } else if j < i {
                    assert(slots[j] is Some);
                }
            }
            self.instances.set(i, Some(instance));
        } else {
            assert(forall|j: int| !is_first_empty(slots, j));
            if self.instances.len() >= MAX_INSTANCES {
                assert(self@ =~= old(self)@.id_used());
                return Err(MioError::Busy);
            }
            self.instances.push(Some(instance));
        }
        self.total_created = self.total_created.wrapping_add(1);
        self.active_count = self.active_count.wrapping_add(1);
        proof {
            let i = old(self)@.next_slot().unwrap();
            assert(self@ =~= old(self)@.set_up(i, InstanceState::fresh(id, *params)));
        }
        Ok(id)
    }

    /// Destroys the instance with an identifier.
    pub fn teardown(&mut self, instance_id: u32) -> (r: Result<(), MioError>)
        requires
            old(self).wf(),
        ensures
            final(self).wf(),
            r == if exists|i: int| is_first_with(old(self)@.slots, instance_id, i) {
                Ok::<(), MioError>(())
            } else {
                Err(MioError::InvalidArg)
            },
            r is Err ==> final(self)@ == old(self)@,
            r is Ok ==> exists|i: int| #[trigger]
                is_first_with(old(self)@.slots, instance_id, i) && final(self)@ == old(
                    self,
                )@.torn_down(i),
    {
        let ghost slots = self@.slots;
        let mut i: usize = 0;
        while i < self.instances.len()
            invariant
                i <= self.instances.len(),
                *self == *old(self),
                self.wf(),
                slots == self@.slots,
                forall|k: int| 0 <= k < i ==> !holds_id(#[trigger] slots[k], instance_id),
            decreases self.instances.len() - i,
        {
            let found: bool = match &self.instances[i] {
                Some(inst) => inst.id == instance_id,
                None => false,
            };
            assert(found == holds_id(slots[i as int], instance_id));
            if found {
                match self.instances[i].as_mut() {
                    Some(inst) => inst.destroy(),
                    None => {},
                }
                self.instances.set(i, None);
                self.active_count = self.active_count.wrapping_sub(1);
                assert(is_first_with(slots, instance_id, i as int));
                assert(self@ =~= old(self)@.torn_down(i as int));
                return Ok(());
            }
            i += 1;
        }
        Err(MioError::InvalidArg)
    }

    /// Gives access to the instance with an identifier.
    pub fn with_instance(&mut self, instance_id: u32) -> (r: Result<&mut MioInstance, MioError>)
        requires
            old(self).wf(),
        ensures
            match r {
                Ok(inst) => inst.wf() && (final(inst).wf() ==> final(self).wf()) && exists|i: int|
                 #[trigger]
                    is_first_active(old(self)@.slots, instance_id, i) && old(self)@.slots[i]
                        == Some(inst@) && final(self)@ == (MioState {
                        slots: old(self)@.slots.update(i, Some(final(inst)@)),
                        ..old(self)@
                    }),
                Err(e) => {
                    &&& e == MioError::InvalidArg
                    &&& final(self).wf()
                    &&& final(self)@ == old(self)@
                    &&& forall|i: int| !is_first_active(old(self)@.slots, instance_id, i)
                },
            },
    {
        let ghost slots = self@.slots;
        let mut i: usize = 0;
        let mut found: bool = false;
        while i < self.instances.len() && !found
            invariant
                i <= self.instances.len(),
                *self == *old(self),
                self.wf(),
                slots == self@.slots,
                forall|k: int| 0 <= k < i ==> !holds_active(#[trigger] slots[k], instance_id),
                found ==> i < self.instances.len() && holds_active(slots[i as int], instance_id),
            decreases
                self.instances.len() - i,
                if found {
                    0int
                } else {
                    1
                },
        {
            let here: bool = match &self.instances[i] {
                Some(inst) => inst.id == instance_id && inst.active,
                None => false,
            };
            assert(here == holds_active(slots[i as int], instance_id));
            if here {
                found = true;
            } else {
                i += 1;
            }
        }
        if !found {
            return Err(MioError::InvalidArg);
        }
        assert(is_first_active(slots, instance_id, i as int));
        match self.instances[i].as_mut() {
            Some(inst) => Ok(inst),
            None => Err(MioError::InvalidArg),
        }
    }
}

/// Sets the subsystem up. A later call changes nothing.
pub fn init(mio: &mut Option<MaiIO>)
    ensures
        match *old(mio) {
            Some(m) => *final(mio) == Some(m),
            None => *final(mio) matches Some(m) && m.wf() && m@ == MioState::fresh(),
        },
{
    if mio.is_none() {
        *mio = Some(MaiIO::new());
    }
}

/// The subsystem, which has been set up.
pub fn get(mio: &Option<MaiIO>) -> (r: &MaiIO)
    requires
        mio is Some,
    ensures
        Some(*r) == *mio,
{
    mio.as_ref().unwrap()
}

/// Rounds up to a power of two.
fn next_power_of_two(v: u32) -> (r: u32)
    requires
        v <= MAX_ROUNDED,
    ensures
        is_rounded_up(v, r),
        r == rounded_up(v),
{
    let mut r: u32 = 1;
    let ghost mut n: nat = 0;
    proof {
        vstd::arithmetic::power2::lemma2_to64();
        assert(ring::is_power_of_two(1));
    }
    while r < v
        invariant
            v <= MAX_ROUNDED,
            r >= 1,
            n < 32,
            r as nat == vstd::arithmetic::power2::pow2(n),
            n > 0 ==> vstd::arithmetic::power2::pow2((n - 1) as nat) < v,
            vstd::arithmetic::power2::pow2(31) == 0x8000_0000,
        decreases 32 - n,
    {
        proof {
            if n >= 31 {
                assert(n == 31);
            }
            vstd::arithmetic::power2::lemma_pow2_unfold(n + 1);
            vstd::arithmetic::power2::lemma_pow2_pos(n);
        }
        r = r * 2;
        proof {
            n = n + 1;
        }
    }
    proof {
        assert(ring::is_power_of_two(r));
        assert forall|q: u32| ring::is_power_of_two(q) && v <= q implies r <= q by {
            let m = choose|m: nat| m < 32 && q as nat == #[trigger] vstd::arithmetic::power2::pow2(m);
            if q < r {
                if m >= n {
                    if m > n {
                        vstd::arithmetic::power2::lemma_pow2_strictly_increases(n, m);
                    }
                } else if m < n - 1 {
                    vstd::arithmetic::power2::lemma_pow2_strictly_increases(m, (n - 1) as nat);
                }
            }
        }
        assert(is_rounded_up(v, r));
        let c = rounded_up(v);
        assert(is_rounded_up(v, c));
    }
    r
}

} // verus!
