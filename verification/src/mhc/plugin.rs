//! Dependencies of CPU tasks on GPU work.
//!
//! A CPU task that waits for a fence is woken when the fence is signaled.

use crate::id_map;
use crate::mhc::queue;
use crate::id_map::IdMap;
use crate::mhc::device::GpuDevice;
use crate::mhc::fence::FenceId;
use vstd::prelude::*;

verus! {

/// What a tracker holds.
#[verifier::ext_equal]
pub struct TrackerState {
    /// Tasks that wait for a fence, by fence.
    pub waiters: Map<u64, Seq<usize>>,
    /// Fences that a task waits for, by task.
    pub fences: Map<u64, Seq<FenceId>>,
}

/// The tasks other than one.
pub open spec fn others(tasks: Seq<usize>, task_id: usize) -> Seq<usize>
    decreases tasks.len(),
{
    if tasks.len() == 0 {
        Seq::empty()
    } else if tasks.last() == task_id {
        others(tasks.drop_last(), task_id)
    } else {
        others(tasks.drop_last(), task_id).push(tasks.last())
    }
}

/// The tasks that wait for a signaled fence, in the order of the fences.
pub open spec fn woken<D: GpuDevice>(
    waiters: Map<u64, Seq<usize>>,
    ids: Seq<u64>,
    device: D,
) -> Seq<usize>
    decreases ids.len(),
{
    if ids.len() == 0 {
        Seq::empty()
    } else {
        let rest = woken(waiters, ids.drop_last(), device);
        if device.signaled(FenceId(ids.last())) {
            rest + waiters[ids.last()]
        } else {
            rest
        }
    }
}

/// How many tasks wait, counted at each fence.
pub open spec fn total_waiting(waiters: Map<u64, Seq<usize>>) -> nat
    decreases waiters.dom().len(),
{
    if waiters.dom().finite() && waiters.dom().len() > 0 {
        let f = waiters.dom().choose();
        waiters[f].len() + total_waiting(waiters.remove(f))
    } else {
        0
    }
}

/// The count is that of one fence and that of the others.
proof fn lemma_total_waiting(waiters: Map<u64, Seq<usize>>, fence: u64)
    requires
        waiters.dom().finite(),
        waiters.contains_key(fence),
    ensures
        total_waiting(waiters) == waiters[fence].len() + total_waiting(waiters.remove(fence)),
    decreases waiters.dom().len(),
{
    assert(waiters.dom().contains(fence));
    let f = waiters.dom().choose();
    if f != fence {
        lemma_total_waiting(waiters.remove(f), fence);
        lemma_total_waiting(waiters.remove(fence), f);
        assert(waiters.remove(f).remove(fence) =~= waiters.remove(fence).remove(f));
    }
}

/// Fewer waiting tasks at fewer fences are fewer in all.
proof fn lemma_fewer_waiting(a: Map<u64, Seq<usize>>, b: Map<u64, Seq<usize>>)
    requires
        b.dom().finite(),
        forall|f: u64| #[trigger] a.contains_key(f) ==> b.contains_key(f) && a[f].len() <= b[f].len(),
    ensures
        a.dom().finite(),
        total_waiting(a) <= total_waiting(b),
    decreases b.dom().len(),
{
    assert(a.dom().subset_of(b.dom()));
    vstd::set_lib::lemma_len_subset(a.dom(), b.dom());
    if a.dom().len() > 0 {
        let f = a.dom().choose();
        assert(a.contains_key(f));
        lemma_total_waiting(b, f);
        assert forall|x: u64| #[trigger] a.remove(f).contains_key(x) implies b.remove(f).contains_key(
            x,
        ) && a.remove(f)[x].len() <= b.remove(f)[x].len() by {
            assert(a.contains_key(x));
        }
        assert(b.dom().contains(f));
        lemma_fewer_waiting(a.remove(f), b.remove(f));
    }
}

/// Leaving a task out leaves no more tasks.
proof fn lemma_others_len(tasks: Seq<usize>, task_id: usize)
    ensures
        others(tasks, task_id).len() <= tasks.len(),
    decreases tasks.len(),
{
    if tasks.len() > 0 {
        lemma_others_len(tasks.drop_last(), task_id);
    }
}

/// Another task that waits is one more dependency.
pub proof fn register_adds_one_dependency(s: TrackerState, task_id: usize, fence: FenceId)
    requires
        s.waiters.dom().finite(),
    ensures
        total_waiting(s.registered(task_id, fence).waiters) == total_waiting(s.waiters) + 1,
{
    let after = s.registered(task_id, fence).waiters;
    lemma_total_waiting(after, fence.0);
    if s.waiters.contains_key(fence.0) {
        lemma_total_waiting(s.waiters, fence.0);
        assert(after.remove(fence.0) =~= s.waiters.remove(fence.0));
    } else {
        assert(after.remove(fence.0) =~= s.waiters);
    }
}

impl TrackerState {
    /// Tasks that wait for a fence.
    pub open spec fn waiting_for(self, fence: FenceId) -> Seq<usize> {
        if self.waiters.contains_key(fence.0) {
            self.waiters[fence.0]
        } else {
            Seq::empty()
        }
    }

    /// Fences that a task waits for.
    pub open spec fn awaited_by(self, task_id: usize) -> Seq<FenceId> {
        if self.fences.contains_key(task_id as u64) {
            self.fences[task_id as u64]
        } else {
            Seq::empty()
        }
    }

    /// The tracker after a task began to wait for a fence.
    pub open spec fn registered(self, task_id: usize, fence: FenceId) -> TrackerState {
        TrackerState {
            waiters: self.waiters.insert(fence.0, self.waiting_for(fence).push(task_id)),
            fences: self.fences.insert(task_id as u64, self.awaited_by(task_id).push(fence)),
        }
    }

    /// The waiters without a task, at the fences that it waits for. A fence that
    /// nobody waits for any more leaves.
    pub open spec fn without(self, fences: Seq<FenceId>, task_id: usize) -> Map<u64, Seq<usize>> {
        Map::new(
            |f: u64|
                self.waiters.contains_key(f) && (fences.contains(FenceId(f)) ==> others(
                    self.waiters[f],
                    task_id,
                ).len() > 0),
            |f: u64|
                if fences.contains(FenceId(f)) {
                    others(self.waiters[f], task_id)
                } else {
                    self.waiters[f]
                },
        )
    }

    /// The tracker without a task.
    pub open spec fn removed(self, task_id: usize) -> TrackerState {
        if self.fences.contains_key(task_id as u64) {
            TrackerState {
                waiters: self.without(self.fences[task_id as u64], task_id),
                fences: self.fences.remove(task_id as u64),
            }
        } else {
            self
        }
    }

    /// The tracker after the tasks in `woken` were woken: signaled fences leave, also
    /// from what those tasks wait for.
    pub open spec fn after_drain<D: GpuDevice>(self, device: D, woken: Seq<usize>) -> TrackerState {
        TrackerState {
            waiters: Map::new(
                |f: u64| self.waiters.contains_key(f) && !device.signaled(FenceId(f)),
                |f: u64| self.waiters[f],
            ),
            fences: self.rest_of(device, woken),
        }
    }

    /// What tasks wait for after some of them forgot their signaled fences.
    pub open spec fn rest_of<D: GpuDevice>(self, device: D, woken: Seq<usize>) -> Map<
        u64,
        Seq<FenceId>,
    > {
        Map::new(
            |t: u64|
                self.fences.contains_key(t) && (is_among(t, woken) ==> queue::unsignaled(
                    self.fences[t],
                    device,
                ).len() > 0),
            |t: u64|
                if is_among(t, woken) {
                    queue::unsignaled(self.fences[t], device)
                } else {
                    self.fences[t]
                },
        )
    }

    /// Both maps say the same, and no list is empty.
    pub open spec fn consistent(self) -> bool {
        &&& forall|t: usize, f: FenceId|
            #![trigger self.awaited_by(t).contains(f)]
            #![trigger self.waiting_for(f).contains(t)]
            self.awaited_by(t).contains(f) <==> self.waiting_for(f).contains(t)
        &&& forall|f: u64| #[trigger] self.waiters.contains_key(f) ==> self.waiters[f].len() > 0
        &&& forall|t: u64| #[trigger]
            self.fences.contains_key(t) ==> self.fences[t].len() > 0 && t <= usize::MAX
    }
}

/// The task is among those woken.
pub open spec fn is_among(t: u64, woken: Seq<usize>) -> bool {
    exists|i: int| 0 <= i < woken.len() && #[trigger] woken[i] as u64 == t
}

/// A map of lists with a shorter list of one key. A list that becomes empty leaves.
pub open spec fn shortened<T>(m: Map<u64, Seq<T>>, k: u64, rest: Seq<T>) -> Map<u64, Seq<T>> {
    if !m.contains_key(k) {
        m
    } else if rest.len() > 0 {
        m.insert(k, rest)
    } else {
        m.remove(k)
    }
}

/// Which CPU tasks wait for which fences.
pub struct GpuDependencyTracker {
    fence_to_waiters: IdMap<Vec<usize>>,
    task_to_fences: IdMap<Vec<FenceId>>,
}

impl View for GpuDependencyTracker {
    type V = TrackerState;

    closed spec fn view(&self) -> TrackerState {
        TrackerState {
            waiters: Map::new(
                |f: u64| self.fence_to_waiters@.contains_key(f),
                |f: u64| self.fence_to_waiters@[f]@,
            ),
            fences: Map::new(
                |t: u64| self.task_to_fences@.contains_key(t),
                |t: u64| self.task_to_fences@[t]@,
            ),
        }
    }
}

/// Tasks other than one.
fn retain_others(tasks: &Vec<usize>, task_id: usize) -> (r: Vec<usize>)
    ensures
        r@ == others(tasks@, task_id),
{
    let mut r: Vec<usize> = Vec::new();
    let mut i: usize = 0;
    assert(tasks@.take(0) =~= Seq::empty());
    while i < tasks.len()
        invariant
            i <= tasks@.len(),
            r@ == others(tasks@.take(i as int), task_id),
        decreases tasks@.len() - i,
    {
        assert(tasks@.take(i + 1).drop_last() =~= tasks@.take(i as int));
        if tasks[i] != task_id {
            r.push(tasks[i]);
        }
        i += 1;
    }
    assert(tasks@.take(i as int) =~= tasks@);
    r
}

/// Fences that are not signaled.
fn retain_unsignaled<D: GpuDevice>(fences: &Vec<FenceId>, device: &D) -> (r: Vec<FenceId>)
    requires
        device.inv(),
    ensures
        r@ == queue::unsignaled(fences@, *device),
{
    let mut r: Vec<FenceId> = Vec::new();
    let mut i: usize = 0;
    assert(fences@.take(0) =~= Seq::empty());
    while i < fences.len()
        invariant
            i <= fences@.len(),
            device.inv(),
            r@ == queue::unsignaled(fences@.take(i as int), *device),
        decreases fences@.len() - i,
    {
        assert(fences@.take(i + 1).drop_last() =~= fences@.take(i as int));
        if !device.poll_fence(fences[i]) {
            r.push(fences[i]);
        }
        i += 1;
    }
    assert(fences@.take(i as int) =~= fences@);
    r
}

/// Leaving a task out twice is leaving it out once.
proof fn lemma_others_twice(tasks: Seq<usize>, task_id: usize)
    ensures
        others(others(tasks, task_id), task_id) == others(tasks, task_id),
    decreases tasks.len(),
{
    if tasks.len() > 0 {
        lemma_others_twice(tasks.drop_last(), task_id);
        if tasks.last() != task_id {
            let r = others(tasks.drop_last(), task_id);
            assert(r.push(tasks.last()).drop_last() =~= r);
        }
    }
}

/// Leaving signaled fences out twice is leaving them out once.
proof fn lemma_unsignaled_twice<D: GpuDevice>(fences: Seq<FenceId>, device: D)
    ensures
        queue::unsignaled(queue::unsignaled(fences, device), device) == queue::unsignaled(fences, device),
    decreases fences.len(),
{
    if fences.len() > 0 {
        lemma_unsignaled_twice(fences.drop_last(), device);
        if !device.signaled(fences.last()) {
            let r = queue::unsignaled(fences.drop_last(), device);
            assert(r.push(fences.last()).drop_last() =~= r);
        }
    }
}

impl GpuDependencyTracker {
    /// Both maps are well formed.
    closed spec fn maps_wf(&self) -> bool {
        self.fence_to_waiters.wf() && self.task_to_fences.wf()
    }

    /// Both maps are well formed and agree.
    pub closed spec fn wf(&self) -> bool {
        self.maps_wf() && self@.consistent()
    }

    /// Both maps agree in every state: a task is known to a fence exactly if it waits for
    /// it.
    pub proof fn maps_agree(&self)
        requires
            self.wf(),
        ensures
            self@.consistent(),
    {
    }

    /// A tracker without dependencies.
    pub fn new() -> (t: Self)
        ensures
            t.wf(),
            t@ == (TrackerState { waiters: Map::empty(), fences: Map::empty() }),
            t@.consistent(),
            total_waiting(t@.waiters) == 0,
    {
        let t = GpuDependencyTracker {
            fence_to_waiters: IdMap::new(),
            task_to_fences: IdMap::new(),
        };
        assert(t@.waiters =~= Map::empty());
        assert(t@.fences =~= Map::empty());
        t
    }

    /// Notes that a task waits for a fence.
    pub fn register_dependency(&mut self, task_id: usize, fence: FenceId)
        requires
            old(self).wf(),
        ensures
            final(self).wf(),
            final(self)@ == old(self)@.registered(task_id, fence),
            final(self)@.awaited_by(task_id).contains(fence),
            total_waiting(final(self)@.waiters) == total_waiting(old(self)@.waiters) + 1,
    {
        proof {
            self.fence_to_waiters.lemma_finite();
            assert(self@.waiters.dom() =~= self.fence_to_waiters@.dom());
            register_adds_one_dependency(self@, task_id, fence);
        }
        let mut waiters: Vec<usize> = match self.fence_to_waiters.remove(fence.0) {
            Some(v) => v,
            None => Vec::new(),
        };
        waiters.push(task_id);
        let mut fences: Vec<FenceId> = match self.task_to_fences.remove(task_id as u64) {
            Some(v) => v,
            None => Vec::new(),
        };
        fences.push(fence);
        proof {
            let want = old(self)@.registered(task_id, fence);
            assert(waiters@ =~= want.waiters[fence.0]);
            assert(fences@ =~= want.fences[task_id as u64]);
        }
        self.fence_to_waiters.insert(fence.0, waiters);
        self.task_to_fences.insert(task_id as u64, fences);
        proof {
            let want = old(self)@.registered(task_id, fence);
            assert(self@.waiters =~= want.waiters);
            assert(self@.fences =~= want.fences);
            register_keeps_consistent(old(self)@, task_id, fence);
        }
    }

    /// Forgets all that a task waits for.
    pub fn remove_task(&mut self, task_id: usize)
        requires
            old(self).wf(),
        ensures
            final(self).wf(),
            final(self)@ == old(self)@.removed(task_id),
            final(self)@.awaited_by(task_id).len() == 0,
            forall|f: FenceId| !#[trigger] final(self)@.waiting_for(f).contains(task_id),
            total_waiting(final(self)@.waiters) <= total_waiting(old(self)@.waiters),
    {
        let ghost s = self@;
        proof {
            remove_keeps_consistent(s, task_id);
            self.fence_to_waiters.lemma_finite();
            assert(s.waiters.dom() =~= self.fence_to_waiters@.dom());
            let after = s.removed(task_id).waiters;
            assert forall|f: u64| #[trigger] after.contains_key(f) implies s.waiters.contains_key(f)
                && after[f].len() <= s.waiters[f].len() by {
                lemma_others_len(s.waiters[f], task_id);
            }
            lemma_fewer_waiting(after, s.waiters);
        }
        match self.task_to_fences.remove(task_id as u64) {
            None => {
                assert(self@.fences =~= s.fences);
                assert(self@ =~= s.removed(task_id));
            },
            Some(fences) => {
                assert(self@.fences =~= s.fences.remove(task_id as u64));
                let mut i: usize = 0;
                assert(self@.waiters =~= s.without(fences@.take(0), task_id));
                while i < fences.len()
                    invariant
                        i <= fences@.len(),
                        self.maps_wf(),
                        s == old(self)@,
                        self@.fences == s.fences.remove(task_id as u64),
                        self@.waiters == s.without(fences@.take(i as int), task_id),
                    decreases fences@.len() - i,
                {
                    let ghost before = self@.waiters;
                    let f = fences[i];
                    match self.fence_to_waiters.remove(f.0) {
                        None => {},
                        Some(waiters) => {
                            let rest = retain_others(&waiters, task_id);
                            assert(waiters@ == before[f.0]);
                            if rest.len() > 0 {
                                self.fence_to_waiters.insert(f.0, rest);
                            }
                        },
                    }
                    i += 1;
                    proof {
                        assert(self@.waiters =~= shortened(
                            before,
                            f.0,
                            others(before[f.0], task_id),
                        ));
                        let done = fences@.take(i - 1);
                        let now = fences@.take(i as int);
                        assert(now =~= done.push(f));
                        assert forall|x: FenceId| #[trigger] now.contains(x) <==> (done.contains(x)
                            || x == f) by {
                            if done.contains(x) {
                                let k = choose|k: int| 0 <= k < done.len() && done[k] == x;
                                assert(now[k] == x);
                            }
                            if x == f {
                                assert(now[i - 1] == x);
                            }
                            if now.contains(x) && x != f {
                                let k = choose|k: int| 0 <= k < now.len() && now[k] == x;
                                assert(done[k] == x);
                            }
                        }
                        let want = s.without(now, task_id);
                        if s.waiters.contains_key(f.0) {
                            lemma_others_twice(s.waiters[f.0], task_id);
                        }
                        assert forall|x: u64| self@.waiters.contains_key(x) == want.contains_key(
                            x,
                        ) by {
                            if x == f.0 {
                                assert(now.contains(FenceId(x)));
                            } else {
                                assert(now.contains(FenceId(x)) == done.contains(FenceId(x)));
                            }
                        }
                        assert forall|x: u64| #[trigger]
                            want.contains_key(x) implies self@.waiters[x] == want[x] by {
                            if x == f.0 {
                                assert(now.contains(FenceId(x)));
                            } else {
                                assert(now.contains(FenceId(x)) == done.contains(FenceId(x)));
                                assert(before.contains_key(x));
                            }
                        }
                        assert(self@.waiters =~= want);
                        assert(self@.fences =~= s.fences.remove(task_id as u64));
                    }
                }
                assert(fences@.take(i as int) =~= fences@);
                assert(self@ =~= s.removed(task_id));
            },
        }
    }

    /// The tasks to wake because a fence that they wait for is signaled.
    pub fn drain_completed<D: GpuDevice>(&mut self, device: &D) -> (r: Vec<usize>)
        requires
            old(self).wf(),
            device.inv(),
        ensures
            final(self).wf(),
            exists|ids: Seq<u64>|
                {
                    &&& id_map::ids_ascending(ids)
                    &&& forall|f: u64| #[trigger]
                        ids.contains(f) <==> old(self)@.waiters.contains_key(f)
                    &&& r@ == #[trigger] woken(old(self)@.waiters, ids, *device)
                },
            final(self)@ == old(self)@.after_drain(*device, r@),
            total_waiting(final(self)@.waiters) <= total_waiting(old(self)@.waiters),
    {
        let ghost s = self@;
        proof {
            self.fence_to_waiters.lemma_finite();
            assert(s.waiters.dom() =~= self.fence_to_waiters@.dom());
        }
        let ids = self.fence_to_waiters.keys();
        proof {
            assert forall|k: int| 0 <= k < ids@.len() implies self@.waiters.contains_key(
                #[trigger] ids@[k],
            ) by {
                assert(ids@.contains(ids@[k]));
            }
            assert forall|f: u64| #[trigger] ids@.contains(f) <==> s.waiters.contains_key(f) by {
                assert(ids@.contains(f) <==> self.fence_to_waiters@.contains_key(f));
            }
        }
        let mut to_wake: Vec<usize> = Vec::new();
        let mut i: usize = 0;
        assert(ids@.take(0) =~= Seq::empty());
        while i < ids.len()
            invariant
                i <= ids@.len(),
                self.maps_wf(),
                device.inv(),
                s == old(self)@,
                id_map::ids_ascending(ids@),
                forall|f: u64| #[trigger] ids@.contains(f) <==> s.waiters.contains_key(f),
                self@.fences == s.fences,
                forall|f: u64| #[trigger]
                    self@.waiters.contains_key(f) ==> s.waiters.contains_key(f) && self@.waiters[f]
                        == s.waiters[f],
                forall|k: int|
                    0 <= k < i ==> self@.waiters.contains_key(#[trigger] ids@[k])
                        == !device.signaled(FenceId(ids@[k])),
                forall|k: int|
                    i <= k < ids@.len() ==> self@.waiters.contains_key(#[trigger] ids@[k]),
                to_wake@ == woken(s.waiters, ids@.take(i as int), *device),
            decreases ids@.len() - i,
        {
            let f: u64 = ids[i];
            let ghost before = self@;
            assert(ids@.contains(f));
            assert(ids@.take(i + 1).drop_last() =~= ids@.take(i as int));
            assert(self@.waiters.contains_key(ids@[i as int]));
            if device.poll_fence(FenceId(f)) {
                match self.fence_to_waiters.remove(f) {
                    Some(waiters) => {
                        let ghost w0 = to_wake@;
                        let mut j: usize = 0;
                        assert(w0 + waiters@.take(0) =~= w0);
                        while j < waiters.len()
                            invariant
                                j <= waiters@.len(),
                                to_wake@ == w0 + waiters@.take(j as int),
                            decreases waiters@.len() - j,
                        {
                            to_wake.push(waiters[j]);
                            j += 1;
                            assert(to_wake@ =~= w0 + waiters@.take(j as int));
                        }
                        assert(waiters@.take(j as int) =~= waiters@);
                    },
                    None => {},
                }
            }
            i += 1;
            proof {
                assert(self@.fences =~= s.fences);
                assert(self@.waiters =~= if device.signaled(FenceId(f)) {
                    before.waiters.remove(f)
                } else {
                    before.waiters
                });
                assert forall|k: int| 0 <= k < ids@.len() && k != i - 1 implies #[trigger] ids@[k]
                    != f by {
                    if k < i - 1 {
                        assert(ids@[k] < ids@[i - 1]);
                    } else {
                        assert(ids@[i - 1] < ids@[k]);
                    }
                }
            }
        }
        assert(ids@.take(i as int) =~= ids@);
        proof {
            let want = s.after_drain(*device, to_wake@).waiters;
            assert forall|f: u64|
                #![trigger self@.waiters.dom().contains(f)]
                #![trigger want.dom().contains(f)]
                self@.waiters.dom().contains(f) == want.dom().contains(f) by {
                if s.waiters.contains_key(f) {
                    assert(ids@.contains(f));
                    let k = choose|k: int| 0 <= k < ids@.len() && ids@[k] == f;
                    assert(self@.waiters.contains_key(ids@[k]) == !device.signaled(FenceId(ids@[k])));
                }
            }
            assert forall|f: u64| #[trigger] want.contains_key(f) implies self@.waiters[f]
                == want[f] by {
                assert(self@.waiters.contains_key(f));
            }
            assert(self@.waiters.dom() =~= want.dom());
            assert forall|f: u64| #[trigger]
                self@.waiters.dom().contains(f) implies self@.waiters[f] == want[f] by {
                assert(want.contains_key(f));
            }
            assert(self@.waiters =~= want);
        }
        let ghost left = self@.waiters;
        let mut n: usize = 0;
        assert(self@.fences =~= s.rest_of(*device, to_wake@.take(0)));
        while n < to_wake.len()
            invariant
                n <= to_wake@.len(),
                self.maps_wf(),
                device.inv(),
                self@.waiters == left,
                self@.fences == s.rest_of(*device, to_wake@.take(n as int)),
            decreases to_wake@.len() - n,
        {
            let t: u64 = to_wake[n] as u64;
            let ghost before = self@.fences;
            match self.task_to_fences.remove(t) {
                None => {},
                Some(fences) => {
                    let rest = retain_unsignaled(&fences, device);
                    assert(fences@ == before[t]);
                    if rest.len() > 0 {
                        self.task_to_fences.insert(t, rest);
                    }
                },
            }
            n += 1;
            proof {
                assert(self@.fences =~= shortened(before, t, queue::unsignaled(before[t], *device)));
                if s.fences.contains_key(t) {
                    lemma_unsignaled_twice(s.fences[t], *device);
                }
                let done = to_wake@.take(n - 1);
                let now = to_wake@.take(n as int);
                assert forall|x: u64| #[trigger] is_among(x, now) <==> (is_among(x, done) || x
                    == t) by {
                    if is_among(x, done) {
                        let k = choose|k: int| 0 <= k < done.len() && #[trigger] done[k] as u64 == x;
                        assert(now[k] as u64 == x);
                    }
                    if x == t {
                        assert(now[n - 1] as u64 == x);
                    }
                    if is_among(x, now) && x != t {
                        let k = choose|k: int| 0 <= k < now.len() && #[trigger] now[k] as u64 == x;
                        assert(done[k] as u64 == x);
                    }
                }
                let want = s.rest_of(*device, now);
                assert forall|x: u64| self@.fences.contains_key(x) == want.contains_key(x) by {
                    assert(is_among(x, now) == (is_among(x, done) || x == t));
                }
                assert forall|x: u64| #[trigger] want.contains_key(x) implies self@.fences[x]
                    == want[x] by {
                    assert(is_among(x, now) == (is_among(x, done) || x == t));
                    assert(before.contains_key(x));
                }
                assert(self@.fences =~= want);
                assert(self@.waiters =~= left);
            }
        }
        assert(to_wake@.take(n as int) =~= to_wake@);
        assert(self@ =~= s.after_drain(*device, to_wake@));
        proof {
            lemma_fewer_waiting(self@.waiters, s.waiters);
            drain_keeps_consistent(s, ids@, *device);
        }
        to_wake
    }

    /// Whether a task waits for a fence.
    pub fn has_pending_deps(&self, task_id: usize) -> (r: bool)
        requires
            self.wf(),
        ensures
            r == (self@.awaited_by(task_id).len() > 0),
    {
        match self.task_to_fences.get(task_id as u64) {
            Some(fences) => fences.len() > 0,
            None => false,
        }
    }

    /// Number of dependencies, of one task on one fence each.
    pub fn dependency_count(&self) -> (n: usize)
        requires
            self.wf(),
            total_waiting(self@.waiters) <= usize::MAX,
        ensures
            n == total_waiting(self@.waiters),
    {
        let ids = self.fence_to_waiters.keys();
        let ghost all = self@.waiters;
        let ghost mut rest = all;
        let mut n: usize = 0;
        let mut i: usize = 0;
        proof {
            self.fence_to_waiters.lemma_finite();
            assert(all.dom() =~= self.fence_to_waiters@.dom());
        }
        while i < ids.len()
            invariant
                self.wf(),
                all == self@.waiters,
                i <= ids@.len(),
                id_map::ids_ascending(ids@),
                forall|f: u64| #[trigger] ids@.contains(f) <==> all.contains_key(f),
                rest.dom().finite(),
                forall|f: u64| #[trigger]
                    rest.contains_key(f) <==> all.contains_key(f) && forall|k: int|
                        0 <= k < i ==> #[trigger] ids@[k] != f,
                forall|f: u64| #[trigger] rest.contains_key(f) ==> rest[f] == all[f],
                n + total_waiting(rest) == total_waiting(all),
                total_waiting(all) <= usize::MAX,
            decreases ids@.len() - i,
        {
            let id: u64 = ids[i];
            assert(ids@.contains(id));
            assert(rest.contains_key(id));
            proof {
                lemma_total_waiting(rest, id);
            }
            match self.fence_to_waiters.get(id) {
                Some(tasks) => {
                    assert(tasks@ == all[id]);
                    n = n + tasks.len();
                },
                None => {},
            }
            proof {
                rest = rest.remove(id);
            }
            i += 1;
        }
        assert(rest.dom() =~= Set::empty()) by {
            assert forall|f: u64| !rest.dom().contains(f) by {
                if rest.contains_key(f) {
                    assert(ids@.contains(f));
                }
            }
        }
        n
    }
}

impl Default for GpuDependencyTracker {
    fn default() -> (t: Self)
        ensures
            t.wf(),
            t@ == (TrackerState { waiters: Map::empty(), fences: Map::empty() }),
    {
        Self::new()
    }
}

/// Notes that a CPU task waits for a fence.
pub fn register_gpu_dependency(tracker: &mut GpuDependencyTracker, task_id: usize, fence: FenceId)
    requires
        old(tracker).wf(),
    ensures
        final(tracker).wf(),
        final(tracker)@ == old(tracker)@.registered(task_id, fence),
        total_waiting(final(tracker)@.waiters) == total_waiting(old(tracker)@.waiters) + 1,
{
    tracker.register_dependency(task_id, fence);
}

/// Forgets all that a CPU task waits for.
pub fn remove_task_deps(tracker: &mut GpuDependencyTracker, task_id: usize)
    requires
        old(tracker).wf(),
    ensures
        final(tracker).wf(),
        final(tracker)@ == old(tracker)@.removed(task_id),
        total_waiting(final(tracker)@.waiters) <= total_waiting(old(tracker)@.waiters),
{
    tracker.remove_task(task_id);
}

/// The other tasks are those that were there, without the one.
proof fn lemma_others(tasks: Seq<usize>, task_id: usize, t: usize)
    ensures
        others(tasks, task_id).contains(t) <==> tasks.contains(t) && t != task_id,
    decreases tasks.len(),
{
    if tasks.len() > 0 {
        let r = tasks.drop_last();
        lemma_others(r, task_id, t);
        lemma_contains_last(tasks, t);
        if tasks.last() != task_id {
            let o = others(r, task_id);
            let p = o.push(tasks.last());
            lemma_contains_last(p, t);
            assert(p.drop_last() =~= o);
        }
    }
}

/// The unsignaled fences are those that were there and are not signaled.
proof fn lemma_unsignaled<D: GpuDevice>(fences: Seq<FenceId>, device: D, f: FenceId)
    ensures
        queue::unsignaled(fences, device).contains(f) <==> fences.contains(f) && !device.signaled(f),
    decreases fences.len(),
{
    if fences.len() > 0 {
        let r = fences.drop_last();
        lemma_unsignaled(r, device, f);
        lemma_contains_last(fences, f);
        if !device.signaled(fences.last()) {
            let o = queue::unsignaled(r, device);
            let p = o.push(fences.last());
            lemma_contains_last(p, f);
            assert(p.drop_last() =~= o);
        }
    }
}

/// A sequence contains its last element and what comes before.
proof fn lemma_contains_last<T>(s: Seq<T>, x: T)
    requires
        s.len() > 0,
    ensures
        s.contains(x) <==> s.drop_last().contains(x) || s.last() == x,
{
    if s.contains(x) {
        let i = choose|i: int| 0 <= i < s.len() && s[i] == x;
        if i < s.len() - 1 {
            assert(s.drop_last()[i] == x);
        }
    }
    if s.drop_last().contains(x) {
        let i = choose|i: int| 0 <= i < s.drop_last().len() && s.drop_last()[i] == x;
        assert(s[i] == x);
    }
    if s.last() == x {
        assert(s[s.len() - 1] == x);
    }
}

/// A task that waits for a signaled fence is woken, and only such tasks are.
proof fn lemma_woken<D: GpuDevice>(
    waiters: Map<u64, Seq<usize>>,
    ids: Seq<u64>,
    device: D,
    t: usize,
)
    ensures
        woken(waiters, ids, device).contains(t) <==> exists|i: int|
            0 <= i < ids.len() && device.signaled(FenceId(#[trigger] ids[i]))
                && waiters[ids[i]].contains(t),
    decreases ids.len(),
{
    if ids.len() > 0 {
        let r = ids.drop_last();
        lemma_woken(waiters, r, device, t);
        let a = woken(waiters, r, device);
        let last = ids.len() - 1;
        if device.signaled(FenceId(ids.last())) {
            let b = waiters[ids.last()];
            vstd::seq_lib::lemma_seq_concat_contains_all_elements(a, b, t);
        }
        if exists|i: int|
            0 <= i < r.len() && device.signaled(FenceId(#[trigger] r[i])) && waiters[r[i]].contains(
                t,
            ) {
            let i = choose|i: int|
                0 <= i < r.len() && device.signaled(FenceId(#[trigger] r[i]))
                    && waiters[r[i]].contains(t);
            assert(ids[i] == r[i]);
        }
        if exists|i: int|
            0 <= i < ids.len() && device.signaled(FenceId(#[trigger] ids[i]))
                && waiters[ids[i]].contains(t) {
            let i = choose|i: int|
                0 <= i < ids.len() && device.signaled(FenceId(#[trigger] ids[i]))
                    && waiters[ids[i]].contains(t);
            if i < last {
                assert(r[i] == ids[i]);
            }
        }
    }
}

/// Registering keeps both maps in agreement, and the task then waits.
pub proof fn register_keeps_consistent(s: TrackerState, task_id: usize, fence: FenceId)
    requires
        s.consistent(),
    ensures
        s.registered(task_id, fence).consistent(),
        s.registered(task_id, fence).awaited_by(task_id).contains(fence),
{
    let r = s.registered(task_id, fence);
    assert forall|t: usize, f: FenceId|
        #![trigger r.awaited_by(t).contains(f)]
        #![trigger r.waiting_for(f).contains(t)]
        r.awaited_by(t).contains(f) <==> r.waiting_for(f).contains(t) by {
        assert(s.awaited_by(t).contains(f) <==> s.waiting_for(f).contains(t));
        lemma_contains_last(s.awaited_by(task_id).push(fence), f);
        lemma_contains_last(s.waiting_for(fence).push(task_id), t);
        assert(s.awaited_by(task_id).push(fence).drop_last() =~= s.awaited_by(task_id));
        assert(s.waiting_for(fence).push(task_id).drop_last() =~= s.waiting_for(fence));
    }
    lemma_contains_last(s.awaited_by(task_id).push(fence), fence);
}

/// Removing a task keeps both maps in agreement, and no fence knows it any more.
pub proof fn remove_keeps_consistent(s: TrackerState, task_id: usize)
    requires
        s.consistent(),
    ensures
        s.removed(task_id).consistent(),
        s.removed(task_id).awaited_by(task_id).len() == 0,
        forall|f: FenceId| !#[trigger] s.removed(task_id).waiting_for(f).contains(task_id),
{
    let r = s.removed(task_id);
    assert forall|t: usize, f: FenceId|
        #![trigger r.awaited_by(t).contains(f)]
        #![trigger r.waiting_for(f).contains(t)]
        r.awaited_by(t).contains(f) <==> r.waiting_for(f).contains(t) by {
        assert(s.awaited_by(t).contains(f) <==> s.waiting_for(f).contains(t));
        assert(s.awaited_by(task_id).contains(f) <==> s.waiting_for(f).contains(task_id));
        lemma_others(s.waiting_for(f), task_id, t);
        if s.fences.contains_key(task_id as u64) {
            assert(FenceId(f.0) == f);
            let o = others(s.waiting_for(f), task_id);
            if o.contains(t) {
                assert(o.len() > 0);
            }
        }
    }
    assert forall|f: FenceId| !#[trigger] r.waiting_for(f).contains(task_id) by {
        assert(r.awaited_by(task_id).len() == 0);
        assert(r.awaited_by(task_id).contains(f) <==> r.waiting_for(f).contains(task_id));
    }
}

/// Removing a task changes nothing for the others, a second removal changes nothing at
/// all, and whatever fences are signaled then, the task is not woken.
pub proof fn removed_task_is_gone<D: GpuDevice>(
    s: TrackerState,
    task_id: usize,
    other: usize,
    ids: Seq<u64>,
    device: D,
)
    requires
        s.consistent(),
        forall|f: u64| #[trigger] ids.contains(f) <==> s.removed(task_id).waiters.contains_key(f),
    ensures
        other != task_id ==> s.removed(task_id).awaited_by(other) == s.awaited_by(other),
        s.removed(task_id).removed(task_id) == s.removed(task_id),
        !woken(s.removed(task_id).waiters, ids, device).contains(task_id),
{
    let r = s.removed(task_id);
    remove_keeps_consistent(s, task_id);
    drain_wakes_waiting_tasks(r, ids, device, task_id);
    assert(!r.fences.contains_key(task_id as u64));
    assert(r.removed(task_id) =~= r);
}

/// A task that waits for no fence is not known to the tracker until it is registered
/// again, whatever other tasks are registered or removed and whatever fences are signaled.
pub proof fn unregistered_task_stays_unknown<D: GpuDevice>(
    s: TrackerState,
    task_id: usize,
    other: usize,
    fence: FenceId,
    ids: Seq<u64>,
    device: D,
)
    requires
        s.consistent(),
        s.awaited_by(task_id).len() == 0,
        other != task_id,
        forall|f: u64| #[trigger] ids.contains(f) <==> s.waiters.contains_key(f),
    ensures
        s.registered(other, fence).awaited_by(task_id).len() == 0,
        s.removed(other).awaited_by(task_id).len() == 0,
        !woken(s.waiters, ids, device).contains(task_id),
        s.after_drain(device, woken(s.waiters, ids, device)).awaited_by(task_id).len() == 0,
{
    drain_wakes_waiting_tasks(s, ids, device, task_id);
    let after = s.after_drain(device, woken(s.waiters, ids, device));
    if after.awaited_by(task_id).len() > 0 {
        assert(after.awaited_by(task_id).contains(after.awaited_by(task_id)[0]));
    }
}

/// Waking keeps both maps in agreement.
pub proof fn drain_keeps_consistent<D: GpuDevice>(s: TrackerState, ids: Seq<u64>, device: D)
    requires
        s.consistent(),
        forall|f: u64| #[trigger] ids.contains(f) <==> s.waiters.contains_key(f),
    ensures
        s.after_drain(device, woken(s.waiters, ids, device)).consistent(),
{
    let after = s.after_drain(device, woken(s.waiters, ids, device));
    assert forall|t: usize, f: FenceId|
        #![trigger after.awaited_by(t).contains(f)]
        #![trigger after.waiting_for(f).contains(t)]
        after.awaited_by(t).contains(f) <==> after.waiting_for(f).contains(t) by {
        drain_wakes_waiting_tasks(s, ids, device, t);
        assert(s.awaited_by(t).contains(f) <==> s.waiting_for(f).contains(t));
        assert(FenceId(f.0) == f);
    }
}

/// A task is woken exactly if a fence that it waits for is signaled, and then waits for
/// the others only.
pub proof fn drain_wakes_waiting_tasks<D: GpuDevice>(
    s: TrackerState,
    ids: Seq<u64>,
    device: D,
    t: usize,
)
    requires
        s.consistent(),
        forall|f: u64| #[trigger] ids.contains(f) <==> s.waiters.contains_key(f),
    ensures
        woken(s.waiters, ids, device).contains(t) <==> exists|f: FenceId| #[trigger]
            s.awaited_by(t).contains(f) && device.signaled(f),
        forall|f: FenceId| #[trigger]
            s.after_drain(device, woken(s.waiters, ids, device)).awaited_by(t).contains(f)
                <==> s.awaited_by(t).contains(f) && !device.signaled(f),
{
    let w = woken(s.waiters, ids, device);
    lemma_woken(s.waiters, ids, device, t);
    if w.contains(t) {
        let i = choose|i: int|
            0 <= i < ids.len() && device.signaled(FenceId(#[trigger] ids[i]))
                && s.waiters[ids[i]].contains(t);
        assert(ids.contains(ids[i]));
        assert(s.waiting_for(FenceId(ids[i])).contains(t));
        assert(s.awaited_by(t).contains(FenceId(ids[i])));
    }
    if exists|f: FenceId| #[trigger] s.awaited_by(t).contains(f) && device.signaled(f) {
        let f = choose|f: FenceId| #[trigger] s.awaited_by(t).contains(f) && device.signaled(f);
        assert(s.waiting_for(f).contains(t));
        assert(s.waiters.contains_key(f.0));
        assert(ids.contains(f.0));
        let i = choose|i: int| 0 <= i < ids.len() && ids[i] == f.0;
        assert(FenceId(ids[i]) == f);
        assert(w.contains(t));
    }
    let after = s.after_drain(device, w);
    assert(is_among(t as u64, w) <==> w.contains(t)) by {
        if is_among(t as u64, w) {
            let i = choose|i: int| 0 <= i < w.len() && #[trigger] w[i] as u64 == t as u64;
            assert(w[i] == t);
        }
        if w.contains(t) {
            let i = choose|i: int| 0 <= i < w.len() && w[i] == t;
            assert(w[i] as u64 == t as u64);
        }
    }
    assert forall|f: FenceId| #[trigger] after.awaited_by(t).contains(f) <==> s.awaited_by(
        t,
    ).contains(f) && !device.signaled(f) by {
        lemma_unsignaled(s.awaited_by(t), device, f);
        if s.awaited_by(t).contains(f) && !device.signaled(f) {
            assert(s.fences.contains_key(t as u64));
            if w.contains(t) {
                assert(queue::unsignaled(s.awaited_by(t), device).len() > 0);
            }
        }
    }
}

/// A dependency is added at the end, on the side of the task and on that of the fence, and
/// to no other task or fence.
pub proof fn dependency_is_added_once(
    s: TrackerState,
    task_id: usize,
    fence: FenceId,
    t: usize,
    f: FenceId,
)
    ensures
        ({
            let r = s.registered(task_id, fence);
            &&& r.waiting_for(fence).len() == s.waiting_for(fence).len() + 1
            &&& r.waiting_for(fence).last() == task_id
            &&& r.waiting_for(fence).drop_last() == s.waiting_for(fence)
            &&& r.awaited_by(task_id).len() == s.awaited_by(task_id).len() + 1
            &&& r.awaited_by(task_id).last() == fence
            &&& r.awaited_by(task_id).drop_last() == s.awaited_by(task_id)
            &&& t != task_id ==> r.awaited_by(t) == s.awaited_by(t)
            &&& f != fence ==> r.waiting_for(f) == s.waiting_for(f)
        }),
{
    let r = s.registered(task_id, fence);
    assert(r.waiting_for(fence).drop_last() =~= s.waiting_for(fence));
    assert(r.awaited_by(task_id).drop_last() =~= s.awaited_by(task_id));
}

/// Removing a task takes it out of the waiters of each fence and leaves all others there.
pub proof fn other_waiters_stay(s: TrackerState, task_id: usize, t: usize, f: FenceId)
    requires
        s.consistent(),
    ensures
        s.removed(task_id).waiting_for(f).contains(t) <==> t != task_id && s.waiting_for(
            f,
        ).contains(t),
{
    remove_keeps_consistent(s, task_id);
    let r = s.removed(task_id);
    assert(r.awaited_by(t).contains(f) <==> r.waiting_for(f).contains(t));
    assert(s.awaited_by(t).contains(f) <==> s.waiting_for(f).contains(t));
    if t != task_id {
        assert(r.awaited_by(t) == s.awaited_by(t));
    } else {
        assert(r.awaited_by(t).len() == 0);
    }
}

} // verus!
