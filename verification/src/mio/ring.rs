//! Ring buffers for submissions and completions.
//!
//! The positions of a ring are counters that only ever advance and wrap around
//! with the width of the integer. The slot of a position is the position modulo
//! the depth, which is a power of two, so that slots stay in step with positions
//! across the wrap.

use crate::mio::cqe::CompletionEntry;
use crate::mio::sqe::SubmissionEntry;
use vstd::arithmetic::power2::pow2;
use vstd::prelude::*;

verus! {

/// `d` is a power of two.
pub open spec fn is_power_of_two(d: u32) -> bool {
    exists|n: nat| n < 32 && d as nat == #[trigger] pow2(n)
}

/// Number of positions.
pub open spec fn positions() -> int {
    0x1_0000_0000
}

/// Steps from position `head` to position `tail`.
pub open spec fn distance(tail: u32, head: u32) -> nat {
    if tail >= head {
        (tail - head) as nat
    } else {
        (tail - head + positions()) as nat
    }
}

/// The position after `p`.
pub open spec fn next_position(p: u32) -> u32 {
    if p == u32::MAX {
        0
    } else {
        (p + 1) as u32
    }
}

/// The `n` entries from position `head` on.
pub open spec fn window<T>(entries: Seq<T>, head: u32, n: nat) -> Seq<T> {
    Seq::new(n, |k: int| entries[(head + k) % (entries.len() as int)])
}

/// A power of two masks as a remainder.
proof fn lemma_mask(x: u32, d: u32)
    requires
        is_power_of_two(d),
    ensures
        d >= 1,
        x & ((d - 1) as u32) == x % d,
        positions() % (d as int) == 0,
{
    let n = choose|n: nat| n < 32 && d as nat == #[trigger] pow2(n);
    vstd::arithmetic::power2::lemma_pow2_pos(n);
    vstd::bits::lemma_u32_low_bits_mask_is_mod(x, n);
    let m = (32 - n) as nat;
    vstd::arithmetic::power2::lemma_pow2_adds(n, m);
    vstd::arithmetic::power2::lemma2_to64();
    assert(pow2(n) * pow2(m) == 0x1_0000_0000);
    vstd::arithmetic::div_mod::lemma_mod_multiples_basic(pow2(m) as int, pow2(n) as int);
    assert(pow2(m) as int * pow2(n) as int == 0x1_0000_0000int) by (nonlinear_arith)
        requires
            pow2(n) * pow2(m) == 0x1_0000_0000,
    ;
}

/// The slot of a wrapped position is that of the position before the wrap.
proof fn lemma_wrapped_slot(x: int, d: int)
    requires
        d > 0,
        positions() % d == 0,
    ensures
        (x % positions()) % d == x % d,
{
    let q = positions() / d;
    assert(positions() == d * q) by {
        vstd::arithmetic::div_mod::lemma_fundamental_div_mod(positions(), d);
    }
    assert(q > 0) by (nonlinear_arith)
        requires
            d > 0,
            0x1_0000_0000int == d * q,
    ;
    vstd::arithmetic::div_mod::lemma_mod_mod(x, d, q);
}

/// Two positions less than the depth apart have different slots.
proof fn lemma_slots_differ(head: int, a: int, b: int, d: int)
    requires
        0 <= a < b,
        b - a < d,
    ensures
        (head + a) % d != (head + b) % d,
{
    if (head + a) % d == (head + b) % d {
        vstd::arithmetic::div_mod::lemma_mod_equivalence(head + b, head + a, d);
        assert((b - a) % d == 0);
        vstd::arithmetic::div_mod::lemma_small_mod((b - a) as nat, d as nat);
    }
}

/// Writing the slot after a window that is not full appends to it.
proof fn lemma_window_push<T>(entries: Seq<T>, head: u32, tail: u32, n: nat, x: T)
    requires
        0 < entries.len() <= u32::MAX,
        n < entries.len(),
        n == distance(tail, head),
        positions() % (entries.len() as int) == 0,
    ensures
        window(entries.update(tail as int % entries.len() as int, x), head, n + 1) == window(
            entries,
            head,
            n,
        ).push(x),
        distance(next_position(tail), head) == n + 1,
{
    let d = entries.len() as int;
    lemma_wrapped_slot(head + n, d);
    assert((head + n) % positions() == tail as int);
    let after = entries.update(tail as int % d, x);
    assert forall|k: int| 0 <= k < n implies #[trigger] window(after, head, n + 1)[k] == window(
        entries,
        head,
        n,
    )[k] by {
        lemma_slots_differ(head as int, k, n as int, d);
    }
    assert(window(after, head, n + 1) =~= window(entries, head, n).push(x));
}

/// Advancing the head drops the first entry of a window.
proof fn lemma_window_pop<T>(entries: Seq<T>, head: u32, n: nat)
    requires
        0 < entries.len(),
        n > 0,
        positions() % (entries.len() as int) == 0,
    ensures
        window(entries, next_position(head), (n - 1) as nat) == window(entries, head, n).drop_first(),
        window(entries, head, n)[0] == entries[head as int % entries.len() as int],
{
    let d = entries.len() as int;
    let next = next_position(head) as int;
    assert(next == (head + 1) % positions());
    assert forall|k: int| 0 <= k < n - 1 implies #[trigger] window(
        entries,
        next_position(head),
        (n - 1) as nat,
    )[k] == window(entries, head, n)[k + 1] by {
        lemma_wrapped_slot(head + 1, d);
        assert(next % d == (head + 1) % d);
        vstd::arithmetic::div_mod::lemma_add_mod_noop(next, k, d);
        vstd::arithmetic::div_mod::lemma_add_mod_noop(head + 1, k, d);
    }
    assert(window(entries, next_position(head), (n - 1) as nat) =~= window(
        entries,
        head,
        n,
    ).drop_first());
}

/// What a submission queue holds.
#[verifier::ext_equal]
pub struct SqState {
    /// Entries that the consumer sees, oldest first.
    pub ready: Seq<SubmissionEntry>,
    /// Entries that were pushed and not flushed yet, oldest first.
    pub pending: Seq<SubmissionEntry>,
    /// Number of slots.
    pub depth: nat,
}

impl SqState {
    /// Number of entries.
    pub open spec fn used(self) -> nat {
        self.ready.len() + self.pending.len()
    }

    /// Number of slots without an entry.
    pub open spec fn free(self) -> int {
        self.depth - self.used()
    }

    /// The queue with one more entry that the consumer does not see yet.
    pub open spec fn pushed(self, sqe: SubmissionEntry) -> SqState {
        SqState { pending: self.pending.push(sqe), ..self }
    }

    /// A queue without entries.
    pub open spec fn fresh(depth: nat) -> SqState {
        SqState { ready: Seq::empty(), pending: Seq::empty(), depth }
    }

    /// The queue with all entries visible to the consumer.
    pub open spec fn flushed(self) -> SqState {
        SqState { ready: self.ready + self.pending, pending: Seq::empty(), ..self }
    }

    /// The queue without its `n` oldest visible entries.
    pub open spec fn consumed(self, n: int) -> SqState {
        SqState { ready: self.ready.skip(n), ..self }
    }
}

/// The submission queue: a ring of entries with a consumer position, a published
/// producer position and a producer position that is not published yet.
pub struct SubmissionQueue {
    /// Consumer position.
    head: u32,
    /// Published producer position.
    tail: u32,
    /// Producer position.
    pending_tail: u32,
    /// Slots.
    entries: Vec<SubmissionEntry>,
    /// Number of slots, a power of two.
    depth: u32,
    /// `depth - 1`.
    mask: u32,
}

impl View for SubmissionQueue {
    type V = SqState;

    closed spec fn view(&self) -> SqState {
        let all = window(self.entries@, self.head, distance(self.pending_tail, self.head));
        let ready = distance(self.tail, self.head) as int;
        SqState { ready: all.take(ready), pending: all.skip(ready), depth: self.depth as nat }
    }
}

impl SubmissionQueue {
    /// The positions are in order and no more than the depth apart.
    pub closed spec fn wf(&self) -> bool {
        &&& is_power_of_two(self.depth)
        &&& self.depth >= 1
        &&& self.mask == self.depth - 1
        &&& self.entries.len() == self.depth
        &&& distance(self.tail, self.head) <= distance(self.pending_tail, self.head)
        &&& distance(self.pending_tail, self.head) <= self.depth
    }

    /// No more entries than slots.
    pub proof fn holds_at_most_depth(&self)
        requires
            self.wf(),
        ensures
            self@.used() <= self@.depth,
            1 <= self@.depth <= u32::MAX,
    {
    }

    /// Makes an empty queue.
    pub fn new(depth: u32) -> (q: Self)
        requires
            is_power_of_two(depth),
        ensures
            q.wf(),
            q@ == SqState::fresh(depth as nat),
    {
        proof {
            lemma_mask(0, depth);
        }
        let mut entries: Vec<SubmissionEntry> = Vec::with_capacity(depth as usize);
        let mut i: u32 = 0;
        while i < depth
            invariant
                i <= depth,
                entries.len() == i,
            decreases depth - i,
        {
            entries.push(SubmissionEntry::zeroed());
            i += 1;
        }
        let q = SubmissionQueue {
            head: 0,
            tail: 0,
            pending_tail: 0,
            entries,
            depth,
            mask: depth - 1,
        };
        assert(q@.ready =~= Seq::empty());
        assert(q@.pending =~= Seq::empty());
        q
    }

    /// Adds an entry that the consumer does not see until the queue is flushed.
    /// A full queue hands the entry back.
    pub fn push(&mut self, sqe: SubmissionEntry) -> (r: Result<(), SubmissionEntry>)
        requires
            old(self).wf(),
        ensures
            final(self).wf(),
            r is Err <==> old(self)@.free() == 0,
            r matches Err(e) ==> e == sqe && final(self)@ == old(self)@,
            r is Ok ==> final(self)@ == old(self)@.pushed(sqe),
    {
        let head: u32 = self.head;
        let pending: u32 = self.pending_tail;
        if pending.wrapping_sub(head) >= self.depth {
            return Err(sqe);
        }
        proof {
            lemma_mask(pending, self.depth);
            lemma_window_push(
                self.entries@,
                head,
                pending,
                distance(pending, head),
                sqe,
            );
        }
        let idx: usize = (pending & self.mask) as usize;
        self.entries.set(idx, sqe);
        self.pending_tail = pending.wrapping_add(1);
        assert(self@ =~= old(self)@.pushed(sqe));
        Ok(())
    }

    /// Makes all pushed entries visible to the consumer and returns their number.
    pub fn flush_pending(&mut self) -> (n: u32)
        requires
            old(self).wf(),
        ensures
            final(self).wf(),
            final(self)@ == old(self)@.flushed(),
            n == old(self)@.pending.len(),
    {
        let pending: u32 = self.pending_tail;
        let old_tail: u32 = self.tail;
        let count: u32 = pending.wrapping_sub(old_tail);
        if count > 0 {
            self.tail = pending;
        }
        assert(self@ =~= old(self)@.flushed());
        count
    }

    /// Takes the oldest visible entry.
    pub fn consume_one(&mut self) -> (r: Option<SubmissionEntry>)
        requires
            old(self).wf(),
        ensures
            final(self).wf(),
            r is None <==> old(self)@.ready.len() == 0,
            r is None ==> final(self)@ == old(self)@,
            r matches Some(e) ==> e == old(self)@.ready[0] && final(self)@ == old(self)@.consumed(1),
    {
        let head: u32 = self.head;
        let tail: u32 = self.tail;
        if head == tail {
            return None;
        }
        proof {
            lemma_mask(head, self.depth);
            lemma_window_pop(self.entries@, head, distance(self.pending_tail, head));
        }
        let idx: usize = (head & self.mask) as usize;
        let sqe = self.entries[idx];
        self.head = head.wrapping_add(1);
        assert(self@ =~= old(self)@.consumed(1));
        Some(sqe)
    }

    /// Number of visible entries.
    pub fn ready_count(&self) -> (n: u32)
        requires
            self.wf(),
        ensures
            n == self@.ready.len(),
    {
        self.tail.wrapping_sub(self.head)
    }

    /// Number of slots without an entry.
    pub fn free_count(&self) -> (n: u32)
        requires
            self.wf(),
        ensures
            n == self@.free(),
    {
        self.depth - self.pending_tail.wrapping_sub(self.head)
    }

    /// Number of slots.
    pub fn depth(&self) -> (n: u32)
        ensures
            n == self@.depth,
    {
        self.depth
    }
}

/// What a completion queue holds.
#[verifier::ext_equal]
pub struct CqState {
    /// Entries, oldest first.
    pub ready: Seq<CompletionEntry>,
    /// Number of slots.
    pub depth: nat,
    /// Entries that found the queue full, modulo the width of the counter.
    pub overflow: u32,
}

impl CqState {
    /// Number of slots without an entry.
    pub open spec fn free(self) -> int {
        self.depth - self.ready.len()
    }

    /// The queue without its `n` oldest entries.
    pub open spec fn consumed(self, n: int) -> CqState {
        CqState { ready: self.ready.skip(n), ..self }
    }

    /// How many of `n` further entries find a slot.
    pub open spec fn accepted(self, n: int) -> int {
        if n <= self.free() {
            n
        } else {
            self.free()
        }
    }

    /// The queue after `entries` were produced one after the other: the first ones
    /// are appended, those that find the queue full are dropped and counted.
    pub open spec fn produced(self, entries: Seq<CompletionEntry>) -> CqState {
        let n = self.accepted(entries.len() as int);
        CqState {
            ready: self.ready + entries.take(n),
            overflow: ((self.overflow + (entries.len() - n)) % positions()) as u32,
            ..self
        }
    }
}

/// The completion queue: a ring of entries that the consumer reaps.
pub struct CompletionQueue {
    /// Consumer position.
    head: u32,
    /// Producer position.
    tail: u32,
    /// Slots.
    entries: Vec<CompletionEntry>,
    /// Number of slots, a power of two.
    depth: u32,
    /// `depth - 1`.
    mask: u32,
    /// Entries that found the queue full.
    overflow: u32,
}

impl View for CompletionQueue {
    type V = CqState;

    closed spec fn view(&self) -> CqState {
        CqState {
            ready: window(self.entries@, self.head, distance(self.tail, self.head)),
            depth: self.depth as nat,
            overflow: self.overflow,
        }
    }
}

impl CompletionQueue {
    /// The positions are no more than the depth apart.
    pub closed spec fn wf(&self) -> bool {
        &&& is_power_of_two(self.depth)
        &&& self.depth >= 1
        &&& self.mask == self.depth - 1
        &&& self.entries.len() == self.depth
        &&& distance(self.tail, self.head) <= self.depth
    }

    /// No more entries than slots.
    pub proof fn holds_at_most_depth(&self)
        requires
            self.wf(),
        ensures
            self@.ready.len() <= self@.depth,
            1 <= self@.depth <= u32::MAX,
    {
    }

    /// Makes an empty queue.
    pub fn new(depth: u32) -> (q: Self)
        requires
            is_power_of_two(depth),
        ensures
            q.wf(),
            q@ == (CqState { ready: Seq::empty(), depth: depth as nat, overflow: 0 }),
    {
        proof {
            lemma_mask(0, depth);
        }
        let mut entries: Vec<CompletionEntry> = Vec::with_capacity(depth as usize);
        let mut i: u32 = 0;
        while i < depth
            invariant
                i <= depth,
                entries.len() == i,
            decreases depth - i,
        {
            entries.push(CompletionEntry::zeroed());
            i += 1;
        }
        let q = CompletionQueue { head: 0, tail: 0, entries, depth, mask: depth - 1, overflow: 0 };
        assert(q@.ready =~= Seq::empty());
        q
    }

    /// Appends an entry. A full queue counts the entry and hands it back.
    pub fn produce(&mut self, cqe: CompletionEntry) -> (r: Result<(), CompletionEntry>)
        requires
            old(self).wf(),
        ensures
            final(self).wf(),
            final(self)@ == old(self)@.produced(seq![cqe]),
            r is Err <==> old(self)@.free() == 0,
            r matches Err(e) ==> e == cqe && final(self)@ == (CqState {
                overflow: next_position(old(self)@.overflow),
                ..old(self)@
            }),
            r is Ok ==> final(self)@ == (CqState {
                ready: old(self)@.ready.push(cqe),
                ..old(self)@
            }),
    {
        let tail: u32 = self.tail;
        let head: u32 = self.head;
        if tail.wrapping_sub(head) >= self.depth {
            self.overflow = self.overflow.wrapping_add(1);
            assert(self@ =~= old(self)@.produced(seq![cqe]));
            return Err(cqe);
        }
        proof {
            lemma_mask(tail, self.depth);
            lemma_window_push(self.entries@, head, tail, distance(tail, head), cqe);
        }
        let idx: usize = (tail & self.mask) as usize;
        self.entries.set(idx, cqe);
        self.tail = tail.wrapping_add(1);
        assert(self@ =~= CqState { ready: old(self)@.ready.push(cqe), ..old(self)@ });
        assert(self@ =~= old(self)@.produced(seq![cqe]));
        Ok(())
    }

    /// Takes the oldest entry.
    pub fn consume_one(&mut self) -> (r: Option<CompletionEntry>)
        requires
            old(self).wf(),
        ensures
            final(self).wf(),
            r is None <==> old(self)@.ready.len() == 0,
            r is None ==> final(self)@ == old(self)@,
            r matches Some(e) ==> e == old(self)@.ready[0] && final(self)@ == old(self)@.consumed(1),
    {
        let head: u32 = self.head;
        let tail: u32 = self.tail;
        if head == tail {
            return None;
        }
        proof {
            lemma_mask(head, self.depth);
            lemma_window_pop(self.entries@, head, distance(tail, head));
        }
        let idx: usize = (head & self.mask) as usize;
        let cqe = self.entries[idx];
        self.head = head.wrapping_add(1);
        assert(self@ =~= old(self)@.consumed(1));
        Some(cqe)
    }

    /// Number of entries.
    pub fn ready_count(&self) -> (n: u32)
        requires
            self.wf(),
        ensures
            n == self@.ready.len(),
    {
        self.tail.wrapping_sub(self.head)
    }

    /// Number of entries that found the queue full.
    pub fn overflow_count(&self) -> (n: u32)
        ensures
            n == self@.overflow,
    {
        self.overflow
    }

    /// Number of slots.
    pub fn depth(&self) -> (n: u32)
        ensures
            n == self@.depth,
    {
        self.depth
    }
}

/// A call on a submission queue.
pub enum SqCall {
    /// An entry is pushed.
    Push(SubmissionEntry),
    /// The pushed entries are made visible.
    Flush,
    /// An entry is taken.
    Consume,
}

/// What calls on a submission queue came to.
#[verifier::ext_equal]
pub struct SqHistory {
    /// The queue.
    pub queue: SqState,
    /// Entries that were pushed and found a slot, in order.
    pub accepted: Seq<SubmissionEntry>,
    /// How many of these have been made visible.
    pub visible: nat,
    /// Entries that were taken, in order.
    pub consumed: Seq<SubmissionEntry>,
}

impl SqHistory {
    /// The history after one more call.
    pub open spec fn step(self, call: SqCall) -> SqHistory {
        match call {
            SqCall::Push(sqe) => if self.queue.free() == 0 {
                self
            } else {
                SqHistory {
                    queue: self.queue.pushed(sqe),
                    accepted: self.accepted.push(sqe),
                    ..self
                }
            },
            SqCall::Flush => SqHistory {
                queue: self.queue.flushed(),
                visible: self.accepted.len(),
                ..self
            },
            SqCall::Consume => if self.queue.ready.len() == 0 {
                self
            } else {
                SqHistory {
                    queue: self.queue.consumed(1),
                    consumed: self.consumed.push(self.queue.ready[0]),
                    ..self
                }
            },
        }
    }
}

/// What calls on a new submission queue come to.
pub open spec fn sq_history(depth: nat, calls: Seq<SqCall>) -> SqHistory
    decreases calls.len(),
{
    if calls.len() == 0 {
        SqHistory {
            queue: SqState::fresh(depth),
            accepted: Seq::empty(),
            visible: 0,
            consumed: Seq::empty(),
        }
    } else {
        sq_history(depth, calls.drop_last()).step(calls.last())
    }
}

/// Submissions come out in the order in which they went in, over every sequence of calls:
/// those that were taken are the first ones that were accepted, and the others wait. None
/// comes out exactly when every visible one has been taken, and a push is refused exactly
/// when as many as there are slots have been accepted and not taken.
pub proof fn submissions_come_out_in_order(depth: nat, calls: Seq<SqCall>)
    ensures
        ({
            let h = sq_history(depth, calls);
            &&& h.accepted == h.consumed + h.queue.ready + h.queue.pending
            &&& h.consumed == h.accepted.take(h.consumed.len() as int)
            &&& h.visible == h.consumed.len() + h.queue.ready.len()
            &&& h.queue.ready.len() == 0 <==> h.consumed.len() == h.visible
            &&& h.queue.free() == 0 <==> h.accepted.len() - h.consumed.len() == depth
        }),
    decreases calls.len(),
{
    let h = sq_history(depth, calls);
    if calls.len() == 0 {
        assert(h.accepted =~= h.consumed + h.queue.ready + h.queue.pending);
    } else {
        let p = sq_history(depth, calls.drop_last());
        submissions_come_out_in_order(depth, calls.drop_last());
        assert(h.queue.depth == depth) by {
            lemma_history_depth(depth, calls);
        }
        lemma_history_depth(depth, calls.drop_last());
        assert(h.accepted =~= h.consumed + h.queue.ready + h.queue.pending);
    }
    lemma_history_depth(depth, calls);
    assert(h.consumed =~= h.accepted.take(h.consumed.len() as int));
}

proof fn lemma_history_depth(depth: nat, calls: Seq<SqCall>)
    ensures
        sq_history(depth, calls).queue.depth == depth,
    decreases calls.len(),
{
    if calls.len() > 0 {
        lemma_history_depth(depth, calls.drop_last());
    }
}

/// What calls on a completion queue came to: the queue, the entries that found a slot and
/// those that were taken, in order.
#[verifier::ext_equal]
pub struct CqHistory {
    /// The queue.
    pub queue: CqState,
    /// Entries that found a slot, in order.
    pub accepted: Seq<CompletionEntry>,
    /// Entries that were taken, in order.
    pub consumed: Seq<CompletionEntry>,
}

/// What calls on a new completion queue come to. A call produces an entry or takes one.
pub open spec fn cq_history(depth: nat, calls: Seq<Option<CompletionEntry>>) -> CqHistory
    decreases calls.len(),
{
    if calls.len() == 0 {
        CqHistory {
            queue: CqState { ready: Seq::empty(), depth, overflow: 0 },
            accepted: Seq::empty(),
            consumed: Seq::empty(),
        }
    } else {
        let h = cq_history(depth, calls.drop_last());
        match calls.last() {
            Some(cqe) => CqHistory {
                queue: h.queue.produced(seq![cqe]),
                accepted: if h.queue.free() == 0 {
                    h.accepted
                } else {
                    h.accepted.push(cqe)
                },
                ..h
            },
            None => if h.queue.ready.len() == 0 {
                h
            } else {
                CqHistory {
                    queue: h.queue.consumed(1),
                    consumed: h.consumed.push(h.queue.ready[0]),
                    ..h
                }
            },
        }
    }
}

/// Completions come out in the order in which they went in, over every sequence of calls:
/// those that were taken are the first ones that found a slot, and the others wait.
pub proof fn completions_come_out_in_order(depth: nat, calls: Seq<Option<CompletionEntry>>)
    ensures
        ({
            let h = cq_history(depth, calls);
            &&& h.accepted == h.consumed + h.queue.ready
            &&& h.consumed == h.accepted.take(h.consumed.len() as int)
            &&& h.queue.depth == depth
            &&& h.queue.ready.len() <= depth
        }),
    decreases calls.len(),
{
    let h = cq_history(depth, calls);
    if calls.len() > 0 {
        completions_come_out_in_order(depth, calls.drop_last());
    }
    assert(h.accepted =~= h.consumed + h.queue.ready);
    assert(h.consumed =~= h.accepted.take(h.consumed.len() as int));
}

} // verus!
