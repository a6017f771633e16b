//! Fences: timeline semaphores that GPU work signals.
//!
//! A timeline semaphore is a counter that only moves forward. Whoever waits for it
//! waits for a value that it has to reach.

use crate::id_map::IdMap;
use vstd::prelude::*;

verus! {

/// Number of local fence counters of a device.
pub open spec fn local_ids() -> int {
    0x1_0000_0000_0000
}

/// Identifier of a fence: the device in the upper 16 bits and a local counter in the
/// lower 48 bits.
#[derive(Clone, Copy, Debug, PartialEq, Eq, Structural)]
pub struct FenceId(pub u64);

impl FenceId {
    /// The identifier of a device and a local counter.
    pub open spec fn packed(device_id: u16, local_id: u64) -> FenceId {
        FenceId((device_id * local_ids() + local_id as int % local_ids()) as u64)
    }

    /// The device in an identifier.
    pub open spec fn device(self) -> u16 {
        (self.0 as int / local_ids()) as u16
    }

    /// The local counter in an identifier.
    pub open spec fn local(self) -> u64 {
        (self.0 as int % local_ids()) as u64
    }

    /// The identifier of no fence.
    pub fn none() -> (f: Self)
        ensures
            f == FenceId(0),
    {
        FenceId(0)
    }

    /// Makes an identifier from a device and a local counter.
    pub fn new(device_id: u16, local_id: u64) -> (f: Self)
        ensures
            f == FenceId::packed(device_id, local_id),
    {
        let d: u64 = device_id as u64;
        assert(((d << 48) | (local_id & 0x0000_FFFF_FFFF_FFFF)) == d * 0x1_0000_0000_0000 + local_id
            % 0x1_0000_0000_0000) by (bit_vector)
            requires
                d <= 0xffff,
        ;
        FenceId((d << 48) | (local_id & 0x0000_FFFF_FFFF_FFFF))
    }

    /// The device.
    pub fn device_id(self) -> (r: u16)
        ensures
            r == self.device(),
    {
        let x: u64 = self.0;
        assert(x >> 48 == x / 0x1_0000_0000_0000 && x >> 48 <= 0xffff) by (bit_vector);
        (x >> 48) as u16
    }

    /// The local counter.
    pub fn local_id(self) -> (r: u64)
        ensures
            r == self.local(),
    {
        let x: u64 = self.0;
        assert(x & 0x0000_FFFF_FFFF_FFFF == x % 0x1_0000_0000_0000) by (bit_vector);
        x & 0x0000_FFFF_FFFF_FFFF
    }

    /// Whether this is the identifier of no fence.
    pub fn is_none(self) -> (r: bool)
        ensures
            r == (self == FenceId(0)),
    {
        self.0 == 0
    }
}

/// Device and local counter can be read back from an identifier.
pub proof fn packed_parts(device_id: u16, local_id: u64)
    requires
        local_id < local_ids(),
    ensures
        FenceId::packed(device_id, local_id).device() == device_id,
        FenceId::packed(device_id, local_id).local() == local_id,
{
}

/// Every identifier is made of its parts.
pub proof fn parts_make_the_identifier(f: FenceId)
    ensures
        FenceId::packed(f.device(), f.local()) == f,
{
}

/// A waiter of a semaphore: what to wake, and the value that it waits for.
pub struct Waiter<W> {
    pub threshold: u64,
    pub waker: W,
}

/// What a semaphore holds.
#[verifier::ext_equal]
pub struct SemaphoreState<W> {
    /// Counter.
    pub value: u64,
    /// Waiters by threshold, and in the order of their arrival within a threshold.
    pub waiters: Seq<Waiter<W>>,
}

/// Thresholds do not fall.
pub open spec fn sorted<W>(waiters: Seq<Waiter<W>>) -> bool {
    forall|i: int, j: int|
        0 <= i <= j < waiters.len() ==> (#[trigger] waiters[i]).threshold <= (
        #[trigger] waiters[j]).threshold
}

/// Number of waiters whose threshold is not above `value`.
pub open spec fn due<W>(waiters: Seq<Waiter<W>>, value: u64) -> nat
    decreases waiters.len(),
{
    if waiters.len() == 0 {
        0
    } else {
        due(waiters.drop_last(), value) + if waiters.last().threshold <= value {
            1nat
        } else {
            0
        }
    }
}

impl<W> SemaphoreState<W> {
    /// Every waiter waits for a value that is still to come.
    pub open spec fn valid(self) -> bool {
        &&& sorted(self.waiters)
        &&& forall|i: int|
            0 <= i < self.waiters.len() ==> (#[trigger] self.waiters[i]).threshold > self.value
    }

    /// The semaphore after a signal: the counter never moves back, and waiters whose
    /// threshold is reached leave.
    pub open spec fn signaled(self, new_value: u64) -> SemaphoreState<W> {
        if new_value <= self.value {
            self
        } else {
            SemaphoreState {
                value: new_value,
                waiters: self.waiters.skip(due(self.waiters, new_value) as int),
            }
        }
    }

    /// The semaphore with one more waiter, behind all whose threshold is not greater.
    pub open spec fn waiting(self, w: Waiter<W>) -> SemaphoreState<W> {
        SemaphoreState {
            waiters: self.waiters.insert(due(self.waiters, w.threshold) as int, w),
            ..self
        }
    }
}

/// In sorted waiters those that are due come first.
proof fn lemma_due<W>(waiters: Seq<Waiter<W>>, value: u64, n: int)
    requires
        0 <= n <= waiters.len(),
        forall|i: int| 0 <= i < n ==> (#[trigger] waiters[i]).threshold <= value,
        forall|i: int| n <= i < waiters.len() ==> (#[trigger] waiters[i]).threshold > value,
    ensures
        due(waiters, value) == n,
    decreases waiters.len(),
{
    if waiters.len() > 0 {
        let last = waiters.len() - 1;
        assert(waiters.last() == waiters[last]);
        if n == waiters.len() {
            lemma_due(waiters.drop_last(), value, n - 1);
        } else {
            lemma_due(waiters.drop_last(), value, n);
        }
    }
}

/// A counter that moves forward, with waiters.
pub struct TimelineSemaphore<W> {
    value: u64,
    waiters: Vec<Waiter<W>>,
}

impl<W> View for TimelineSemaphore<W> {
    type V = SemaphoreState<W>;

    closed spec fn view(&self) -> SemaphoreState<W> {
        SemaphoreState { value: self.value, waiters: self.waiters@ }
    }
}

impl<W> TimelineSemaphore<W> {
    /// The waiters are in order and still wait.
    pub open spec fn wf(&self) -> bool {
        self@.valid()
    }

    /// A semaphore at zero.
    pub fn new() -> (s: Self)
        ensures
            s.wf(),
            s@ == (SemaphoreState::<W> { value: 0, waiters: Seq::empty() }),
    {
        Self::with_value(0)
    }

    /// A semaphore at a value.
    pub fn with_value(initial: u64) -> (s: Self)
        ensures
            s.wf(),
            s@ == (SemaphoreState::<W> { value: initial, waiters: Seq::empty() }),
    {
        TimelineSemaphore { value: initial, waiters: Vec::new() }
    }

    /// The counter.
    pub fn value(&self) -> (v: u64)
        ensures
            v == self@.value,
    {
        self.value
    }

    /// Moves the counter forward and returns the waiters whose threshold is reached,
    /// for the caller to wake. A value that is not above the counter has no effect.
    pub fn signal(&mut self, new_value: u64) -> (woken: Vec<Waiter<W>>)
        requires
            old(self).wf(),
        ensures
            final(self).wf(),
            final(self)@ == old(self)@.signaled(new_value),
            woken@ == if new_value <= old(self)@.value {
                Seq::empty()
            } else {
                old(self)@.waiters.take(due(old(self)@.waiters, new_value) as int)
            },
    {
        let mut woken: Vec<Waiter<W>> = Vec::new();
        if new_value <= self.value {
            return woken;
        }
        self.value = new_value;
        let ghost all = self.waiters@;
        while self.waiters.len() > 0 && self.waiters[0].threshold <= new_value
            invariant
                self.value == new_value,
                sorted(all),
                woken.len() <= all.len(),
                woken@ == all.take(woken.len() as int),
                self.waiters@ == all.skip(woken.len() as int),
                forall|i: int| 0 <= i < woken.len() ==> (#[trigger] all[i]).threshold <= new_value,
            decreases self.waiters.len(),
        {
            let ghost n = woken.len() as int;
            assert(self.waiters@[0] == all[n]);
            let w = self.waiters.remove(0);
            woken.push(w);
            assert(woken@ =~= all.take(n + 1));
            assert(self.waiters@ =~= all.skip(n + 1));
        }
        proof {
            let n = woken.len() as int;
            assert forall|i: int| n <= i < all.len() implies (#[trigger] all[i]).threshold
                > new_value by {
                assert(self.waiters@[0] == all[n]);
                assert(all[n].threshold <= all[i].threshold);
            }
            lemma_due(all, new_value, n);
        }
        woken
    }

    /// Whether the counter has reached `target`.
    pub fn poll(&self, target: u64) -> (r: bool)
        ensures
            r == (self@.value >= target),
    {
        self.value >= target
    }

    /// Registers a waiter for `target`. If the counter is there already the waker is
    /// handed back, for the caller to wake at once.
    pub fn wait_async(&mut self, target: u64, waker: W) -> (r: Option<W>)
        requires
            old(self).wf(),
        ensures
            final(self).wf(),
            r is Some <==> old(self)@.value >= target,
            r matches Some(w) ==> w == waker && final(self)@ == old(self)@,
            r is None ==> final(self)@ == old(self)@.waiting(Waiter { threshold: target, waker }),
    {
        if self.poll(target) {
            return Some(waker);
        }
        let mut i: usize = 0;
        while i < self.waiters.len() && self.waiters[i].threshold <= target
            invariant
                i <= self.waiters.len(),
                forall|k: int|
                    0 <= k < i ==> (#[trigger] self.waiters@[k]).threshold <= target,
            decreases self.waiters.len() - i,
        {
            i += 1;
        }
        proof {
            let all = self.waiters@;
            assert forall|k: int| i <= k < all.len() implies (#[trigger] all[k]).threshold
                > target by {
                assert(all[i as int].threshold <= all[k].threshold);
            }
            lemma_due(all, target, i as int);
        }
        self.waiters.insert(i, Waiter { threshold: target, waker });
        assert(self@ =~= old(self)@.waiting(Waiter { threshold: target, waker }));
        None
    }

    /// Whether the counter has reached `target`. It cannot move while the caller holds
    /// the semaphore, so that the time to wait makes no difference here.
    pub fn wait_blocking(&self, target: u64, _timeout_ns: u64) -> (r: Result<(), ()>)
        ensures
            r == if self@.value >= target {
                Ok::<(), ()>(())
            } else {
                Err(())
            },
    {
        if self.poll(target) {
            Ok(())
        } else {
            Err(())
        }
    }
}

impl<W> Default for TimelineSemaphore<W> {
    fn default() -> (s: Self)
        ensures
            s.wf(),
            s@ == (SemaphoreState::<W> { value: 0, waiters: Seq::empty() }),
    {
        Self::new()
    }
}

/// How often a blocking wait looks at the counter before it gives up: without limit
/// for the greatest timeout, else once in ten nanoseconds.
pub fn max_spins(timeout_ns: u64) -> (n: u64)
    ensures
        n == if timeout_ns == u64::MAX {
            u64::MAX
        } else {
            (timeout_ns / 10) as u64
        },
{
    if timeout_ns == u64::MAX {
        u64::MAX
    } else {
        timeout_ns / 10
    }
}

/// What a fence pool holds.
#[verifier::ext_equal]
pub struct FencePoolState {
    /// Device.
    pub device_id: u16,
    /// Next local counter.
    pub next_local: u64,
    /// Value of each fence by its local counter.
    pub values: Map<u64, u64>,
}

impl FencePoolState {
    /// A pool without fences.
    pub open spec fn fresh(device_id: u16) -> FencePoolState {
        FencePoolState { device_id, next_local: 1, values: Map::empty() }
    }

    /// The fence that is made next.
    pub open spec fn next_fence(self) -> FenceId {
        FenceId::packed(self.device_id, self.next_local)
    }

    /// The pool after a fence was made.
    pub open spec fn allocated(self) -> FencePoolState {
        FencePoolState {
            next_local: self.next_local.wrapping_add(1),
            values: self.values.insert(self.next_local, 0),
            ..self
        }
    }

    /// The pool after a fence was signaled. An unknown fence is ignored.
    pub open spec fn signaled(self, fence: FenceId) -> FencePoolState {
        if self.values.contains_key(fence.local()) && self.values[fence.local()] < 1 {
            FencePoolState { values: self.values.insert(fence.local(), 1), ..self }
        } else {
            self
        }
    }

    /// The fence is signaled, or not known any more.
    pub open spec fn done(self, fence: FenceId) -> bool {
        self.values.contains_key(fence.local()) ==> self.values[fence.local()] >= 1
    }

    /// The pool without a fence.
    pub open spec fn reclaimed(self, fence: FenceId) -> FencePoolState {
        FencePoolState { values: self.values.remove(fence.local()), ..self }
    }
}

/// The fences of a device.
pub struct FencePool {
    device_id: u16,
    next_local: u64,
    semaphores: IdMap<TimelineSemaphore<u64>>,
}

impl View for FencePool {
    type V = FencePoolState;

    closed spec fn view(&self) -> FencePoolState {
        FencePoolState {
            device_id: self.device_id,
            next_local: self.next_local,
            values: Map::new(
                |k: u64| self.semaphores@.contains_key(k),
                |k: u64| self.semaphores@[k]@.value,
            ),
        }
    }
}

impl FencePool {
    /// The semaphores are well formed.
    pub closed spec fn wf(&self) -> bool {
        &&& self.semaphores.wf()
        &&& forall|k: u64| #[trigger]
            self.semaphores@.contains_key(k) ==> self.semaphores@[k].wf()
    }

    /// A pool without fences.
    pub fn new(device_id: u16) -> (p: Self)
        ensures
            p.wf(),
            p@ == FencePoolState::fresh(device_id),
    {
        let p = FencePool { device_id, next_local: 1, semaphores: IdMap::new() };
        assert(p@ =~= FencePoolState::fresh(device_id));
        p
    }

    /// Makes a fence that is not signaled.
    pub fn alloc_fence(&mut self) -> (f: FenceId)
        requires
            old(self).wf(),
        ensures
            final(self).wf(),
            f == old(self)@.next_fence(),
            final(self)@ == old(self)@.allocated(),
    {
        let local: u64 = self.next_local;
        self.next_local = self.next_local.wrapping_add(1);
        let id = FenceId::new(self.device_id, local);
        self.semaphores.insert(local, TimelineSemaphore::with_value(0));
        assert(self@ =~= old(self)@.allocated());
        id
    }

    /// Signals a fence.
    pub fn signal(&mut self, fence: FenceId)
        requires
            old(self).wf(),
        ensures
            final(self).wf(),
            final(self)@ == old(self)@.signaled(fence),
    {
        let local: u64 = fence.local_id();
        match self.semaphores.get_mut(local) {
            Some(sem) => {
                let _woken = sem.signal(1);
            },
            None => {},
        }
        assert(self@ =~= old(self)@.signaled(fence));
    }

    /// Whether a fence is signaled. An unknown fence is.
    pub fn poll(&self, fence: FenceId) -> (r: bool)
        requires
            self.wf(),
        ensures
            r == self@.done(fence),
    {
        match self.semaphores.get(fence.local_id()) {
            Some(sem) => sem.poll(1),
            None => true,
        }
    }

    /// Waits for a fence. An unknown fence is signaled.
    pub fn wait(&self, fence: FenceId, timeout_ns: u64) -> (r: Result<(), ()>)
        requires
            self.wf(),
        ensures
            r == if self@.done(fence) {
                Ok::<(), ()>(())
            } else {
                Err(())
            },
    {
        match self.semaphores.get(fence.local_id()) {
            Some(sem) => sem.wait_blocking(1, timeout_ns),
            None => Ok(()),
        }
    }

    /// Forgets a fence.
    pub fn reclaim(&mut self, fence: FenceId)
        requires
            old(self).wf(),
        ensures
            final(self).wf(),
            final(self)@ == old(self)@.reclaimed(fence),
    {
        self.semaphores.remove(fence.local_id());
        assert(self@ =~= old(self)@.reclaimed(fence));
    }
}

/// A new fence is not signaled until it is, and stays so.
pub proof fn fence_is_done_once_signaled(p: FencePoolState)
    requires
        p.next_local < local_ids(),
    ensures
        !p.allocated().done(p.next_fence()),
        p.allocated().signaled(p.next_fence()).done(p.next_fence()),
        p.allocated().reclaimed(p.next_fence()).done(p.next_fence()),
{
    packed_parts(p.device_id, p.next_local);
}

/// No operation makes a fence that is done wait again, other than making it anew.
pub proof fn done_fences_stay_done(p: FencePoolState, f: FenceId, other: FenceId)
    requires
        p.done(f),
    ensures
        p.signaled(other).done(f),
        p.reclaimed(other).done(f),
        p.next_local != f.local() ==> p.allocated().done(f),
{
}

/// Signaling one fence leaves the others as they are.
pub proof fn signal_touches_one_fence(p: FencePoolState, f: FenceId, other: FenceId)
    requires
        f.local() != other.local(),
    ensures
        p.signaled(other).done(f) == p.done(f),
{
}

/// The identifiers of two fences of a pool differ as long as the counters do, and
/// none is the identifier of no fence.
pub proof fn fence_ids_are_unique(device_id: u16, a: u64, b: u64)
    requires
        0 < a < local_ids(),
        0 < b < local_ids(),
        a != b,
    ensures
        FenceId::packed(device_id, a) != FenceId::packed(device_id, b),
        FenceId::packed(device_id, a) != FenceId(0),
{
    packed_parts(device_id, a);
    packed_parts(device_id, b);
}

/// The counter never moves back, and whoever waits for a value that is reached is
/// woken.
pub proof fn signal_moves_forward<W>(s: SemaphoreState<W>, new_value: u64)
    requires
        s.valid(),
    ensures
        s.signaled(new_value).value >= s.value,
        s.signaled(new_value).value >= new_value,
        s.signaled(new_value).valid(),
{
    lemma_due_split(s.waiters, new_value);
}

/// Sorted waiters split into those that are due and those that are not.
proof fn lemma_due_split<W>(waiters: Seq<Waiter<W>>, value: u64)
    requires
        sorted(waiters),
    ensures
        due(waiters, value) <= waiters.len(),
        forall|i: int|
            0 <= i < due(waiters, value) ==> (#[trigger] waiters[i]).threshold <= value,
        forall|i: int|
            due(waiters, value) <= i < waiters.len() ==> (#[trigger] waiters[i]).threshold > value,
    decreases waiters.len(),
{
    if waiters.len() > 0 {
        let rest = waiters.drop_last();
        lemma_due_split(rest, value);
        let last = waiters.len() - 1;
        if waiters[last].threshold <= value {
            assert forall|i: int| 0 <= i < rest.len() implies (#[trigger] rest[i]).threshold
                <= value by {
                assert(waiters[i].threshold <= waiters[last].threshold);
            }
            if due(rest, value) < rest.len() {
                assert(rest[due(rest, value) as int].threshold > value);
            }
        }
        assert forall|i: int| 0 <= i < due(waiters, value) implies (
        #[trigger] waiters[i]).threshold <= value by {
            if i < rest.len() {
                assert(rest[i] == waiters[i]);
            }
        }
        assert forall|i: int| due(waiters, value) <= i < waiters.len() implies (
        #[trigger] waiters[i]).threshold > value by {
            if i < rest.len() {
                assert(rest[i] == waiters[i]);
            }
        }
    }
}

/// A signal wakes exactly the waiters whose threshold has been reached, and leaves the
/// others waiting in their order. One that does not raise the value changes nothing.
pub proof fn signal_wakes_those_who_are_due<W>(s: SemaphoreState<W>, new_value: u64, i: int)
    requires
        s.valid(),
        0 <= i < s.waiters.len(),
    ensures
        new_value <= s.value ==> s.signaled(new_value) == s,
        new_value > s.value ==> {
            let left = s.signaled(new_value).waiters;
            let woken = s.waiters.len() - left.len();
            &&& s.signaled(new_value).value == new_value
            &&& s.waiters.subrange(woken, s.waiters.len() as int) == left
            &&& i < woken <==> s.waiters[i].threshold <= new_value
        },
{
    lemma_due_split(s.waiters, new_value);
    if new_value > s.value {
        let left = s.signaled(new_value).waiters;
        assert(s.waiters.subrange(s.waiters.len() - left.len(), s.waiters.len() as int) =~= left);
    }
}

/// A new waiter stands behind all whose threshold is not above its own and before all
/// others, who keep their order. The value stays.
pub proof fn waiter_stands_behind_its_equals<W>(s: SemaphoreState<W>, w: Waiter<W>)
    requires
        s.valid(),
    ensures
        s.waiting(w).value == s.value,
        exists|n: int|
            {
                &&& 0 <= n <= s.waiters.len()
                &&& s.waiting(w).waiters == #[trigger] s.waiters.insert(n, w)
                &&& forall|i: int|
                    0 <= i < n ==> (#[trigger] s.waiters[i]).threshold <= w.threshold
                &&& forall|i: int|
                    n <= i < s.waiters.len() ==> (#[trigger] s.waiters[i]).threshold > w.threshold
            },
{
    lemma_due_split(s.waiters, w.threshold);
    let n = due(s.waiters, w.threshold) as int;
    assert(s.waiting(w).waiters == s.waiters.insert(n, w));
}

/// Fences of a device carry its number in the upper 16 bits, count from one in the lower 48,
/// and each new one starts unsignaled. Other fences of the device stay as they are.
pub proof fn fences_are_counted_from_one(p: FencePoolState, device_id: u16, other: u64)
    requires
        p.next_local < 0xFFFF_FFFF_FFFF,
    ensures
        FencePoolState::fresh(device_id).next_fence().0 == device_id * 0x1_0000_0000_0000 + 1,
        p.next_fence().0 == p.device_id * 0x1_0000_0000_0000 + p.next_local,
        p.allocated().next_fence().0 == p.next_fence().0 + 1,
        p.allocated().values.contains_key(p.next_local),
        p.allocated().values[p.next_local] == 0,
        other != p.next_local ==> p.allocated().values.contains_key(other)
            == p.values.contains_key(other) && p.allocated().values[other] == p.values[other],
        FencePoolState::fresh(device_id).values.dom() == Set::<u64>::empty(),
{
    assert(p.device_id * 0x1_0000_0000_0000 + p.next_local + 1 <= u64::MAX);
    vstd::arithmetic::div_mod::lemma_small_mod(p.next_local as nat, 0x1_0000_0000_0000);
    vstd::arithmetic::div_mod::lemma_small_mod(
        (p.next_local + 1) as nat,
        0x1_0000_0000_0000,
    );
    vstd::arithmetic::div_mod::lemma_small_mod(1, 0x1_0000_0000_0000);
}

/// A fence is waited for exactly while its semaphore is there and stands at zero.
pub proof fn fence_is_done_unless_it_stands_at_zero(p: FencePoolState, fence: FenceId)
    ensures
        ({
            let k = (fence.0 as int % 0x1_0000_0000_0000) as u64;
            &&& p.done(fence) <==> !p.values.contains_key(k) || p.values[k] != 0
            &&& p.values.contains_key(k) ==> p.signaled(fence).values[k] != 0
            &&& !p.values.contains_key(k) ==> p.signaled(fence) == p
            &&& !p.reclaimed(fence).values.contains_key(k)
            &&& forall|j: u64|
                j != k ==> #[trigger] p.reclaimed(fence).values.contains_key(j)
                    == p.values.contains_key(j)
        }),
{
}

} // verus!
