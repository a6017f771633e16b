//! Fair run queue: earliest eligible virtual deadline first.
//!
//! A task is eligible once the queue clock `min_vruntime` has reached its
//! virtual eligible time. Among the eligible tasks the one with the smallest
//! virtual deadline runs next.

use crate::mks;
use crate::ordered_map;
use crate::mks::{weight_for_nice, SCHED_LATENCY_NS, SCHED_MIN_GRANULARITY_NS};
use crate::ordered_map::OrderedMap;
use crate::task::{TaskRef, TaskTable};
use crate::task_struct::{Task, TaskSchedInfo};
use vstd::prelude::*;

verus! {

/// Weight of a task at nice 0.
pub const WEIGHT_NICE0: u64 = 1024;

/// Composite key of a queued task: a virtual time and the task identifier.
#[derive(Clone, Copy, Debug, PartialEq, Eq, Structural)]
pub struct VtKey(pub u64, pub usize);

impl VtKey {
    /// The pair by which the queue orders its entries.
    pub open spec fn pair(self) -> (u64, u64) {
        (self.0, self.1 as u64)
    }

    /// The pair by which the queue orders its entries.
    pub fn as_pair(self) -> (r: (u64, u64))
        ensures
            r == self.pair(),
    {
        (self.0, self.1 as u64)
    }
}

/// Run queue for fair tasks.
pub struct EevdfRunQueue {
    /// Eligible tasks by virtual deadline.
    eligible: OrderedMap<TaskRef>,
    /// Tasks that are not yet eligible, by virtual eligible time.
    ineligible: OrderedMap<TaskRef>,
    /// The queue clock.
    pub min_vruntime: u64,
    /// Total weight of all enqueued tasks.
    total_weight: u64,
    /// Number of tasks in this queue (eligible and not yet eligible).
    pub nr_running: usize,
}

/// What a fair run queue holds.
#[verifier::ext_equal]
pub struct EevdfState {
    pub eligible: Map<(u64, u64), TaskRef>,
    pub ineligible: Map<(u64, u64), TaskRef>,
    pub min_vruntime: u64,
    pub total_weight: u64,
    pub nr_running: usize,
}

/// The task table `tasks` with the scheduling metadata of one task replaced.
pub open spec fn with_sched(
    tasks: Map<usize, Task>,
    id: usize,
    sched: TaskSchedInfo,
) -> Map<usize, Task> {
    tasks.insert(id, Task { sched, ..tasks[id] })
}

/// Every entry of a queue refers to the task named in its key, which exists.
pub open spec fn entries_valid(m: Map<(u64, u64), TaskRef>, tasks: Map<usize, Task>) -> bool {
    forall|k: (u64, u64)| #[trigger]
        m.contains_key(k) ==> k.1 <= usize::MAX && m[k].id == k.1 && tasks.contains_key(
            k.1 as usize,
        )
}

/// Entries of tasks that are not pinned to a CPU.
pub open spec fn movable(m: Map<(u64, u64), TaskRef>, tasks: Map<usize, Task>) -> Map<
    (u64, u64),
    TaskRef,
> {
    Map::new(
        |k: (u64, u64)|
            m.contains_key(k) && tasks[k.1 as usize].sched.pinned_cpu is None,
        |k: (u64, u64)| m[k],
    )
}

/// The last entry of a task that is not pinned to a CPU.
fn last_movable(m: &OrderedMap<TaskRef>, tasks: &TaskTable) -> (r: Option<(u64, u64)>)
    requires
        m.wf(),
        tasks.wf(),
        entries_valid(m@, tasks@),
    ensures
        match r {
            Some(k) => {
                &&& ordered_map::is_last_key(movable(m@, tasks@), k)
                &&& k == ordered_map::last_of(movable(m@, tasks@))
            },
            None => movable(m@, tasks@).dom().is_empty(),
        },
{
    let keys = m.keys();
    let ghost free = movable(m@, tasks@);
    let mut i: usize = keys.len();
    while i > 0
        invariant
            i <= keys@.len(),
            tasks.wf(),
            entries_valid(m@, tasks@),
            free == movable(m@, tasks@),
            ordered_map::keys_ascending(keys@),
            forall|k: (u64, u64)| #[trigger] keys@.contains(k) <==> m@.contains_key(k),
            forall|j: int| i <= j < keys@.len() ==> !free.contains_key(#[trigger] keys@[j]),
        decreases i,
    {
        i -= 1;
        let key = keys[i];
        assert(keys@.contains(key));
        assert(m@.contains_key(key));
        if tasks.read(TaskRef { id: key.1 as usize }).sched.pinned_cpu.is_none() {
            proof {
                assert(ordered_map::is_last_key(free, key)) by {
                    assert forall|k: (u64, u64)| #[trigger]
                        free.contains_key(k) implies ordered_map::key_le(k, key) by {
                        assert(keys@.contains(k));
                        let j = choose|j: int| 0 <= j < keys@.len() && keys@[j] == k;
                        assert(free.contains_key(keys@[j]));
                        if j < i {
                            assert(ordered_map::key_lt(keys@[j], keys@[i as int]));
                        }
                    }
                }
                ordered_map::last_key_is_unique(free, key, ordered_map::last_of(free));
            }
            return Some(key);
        }
    }
    proof {
        assert forall|k: (u64, u64)| !free.dom().contains(k) by {
            if free.contains_key(k) {
                assert(keys@.contains(k));
                let j = choose|j: int| 0 <= j < keys@.len() && keys@[j] == k;
                assert(!free.contains_key(keys@[j]));
            }
        }
    }
    None
}

impl EevdfState {
    /// The queue as it is created.
    pub open spec fn empty() -> EevdfState {
        EevdfState {
            eligible: Map::empty(),
            ineligible: Map::empty(),
            min_vruntime: 0,
            total_weight: 0,
            nr_running: 0,
        }
    }

    /// All entries refer to tasks of the table.
    pub open spec fn valid(self, tasks: Map<usize, Task>) -> bool {
        entries_valid(self.eligible, tasks) && entries_valid(self.ineligible, tasks)
    }

    /// Time slice of a task with weight `w` that joins this queue: its share
    /// of the latency target, between the minimum granularity and the target.
    pub open spec fn slice(self, w: int) -> int {
        if self.total_weight == 0 {
            SCHED_LATENCY_NS as int
        } else {
            mks::min_of(
                mks::max_of(
                    SCHED_LATENCY_NS * w / (self.total_weight + w),
                    SCHED_MIN_GRANULARITY_NS as int,
                ),
                SCHED_LATENCY_NS as int,
            )
        }
    }

    /// Virtual runtime with which a task joins: new and woken tasks are lifted
    /// to half a latency target behind the queue clock.
    pub open spec fn start_vruntime(self, s: TaskSchedInfo, is_wakeup: bool) -> int {
        if s.vruntime == 0 || is_wakeup {
            mks::max_of(s.vruntime as int, mks::monus(self.min_vruntime as int, SCHED_LATENCY_NS as int / 2))
        } else {
            s.vruntime as int
        }
    }

    /// Metadata of a task after it has joined this queue.
    pub open spec fn joined(self, s: TaskSchedInfo, is_wakeup: bool) -> TaskSchedInfo {
        let vr = self.start_vruntime(s, is_wakeup);
        let w = mks::nice_weight(s.nice) as int;
        TaskSchedInfo {
            vruntime: vr as u64,
            ve: vr as u64,
            vdeadline: (vr + self.slice(w)) as u64,
            weight: w as u64,
            on_rq: true,
            ..s
        }
    }

    /// All sums that joining the queue computes fit their types.
    pub open spec fn can_enqueue(self, s: TaskSchedInfo, is_wakeup: bool) -> bool {
        let w = mks::nice_weight(s.nice) as int;
        &&& s.nice <= 107
        &&& self.total_weight + w <= u64::MAX
        &&& self.nr_running < usize::MAX
        &&& self.start_vruntime(s, is_wakeup) + self.slice(w) <= u64::MAX
    }

    /// The queue after task `id`, whose metadata is `s` by then, has joined.
    pub open spec fn enqueue(self, id: usize, s: TaskSchedInfo) -> EevdfState {
        let task = TaskRef { id };
        let eligible = s.ve <= self.min_vruntime;
        EevdfState {
            eligible: if eligible {
                self.eligible.insert((s.vdeadline, id as u64), task)
            } else {
                self.eligible
            },
            ineligible: if eligible {
                self.ineligible
            } else {
                self.ineligible.insert((s.ve, id as u64), task)
            },
            total_weight: (self.total_weight + s.weight) as u64,
            nr_running: (self.nr_running + 1) as usize,
            ..self
        }
    }

    /// The queue with one task less of weight `w`.
    pub open spec fn discount(self, w: u64) -> EevdfState {
        EevdfState {
            total_weight: mks::monus(self.total_weight as int, w as int) as u64,
            nr_running: mks::monus(self.nr_running as int, 1) as usize,
            ..self
        }
    }

    /// The queue after task `id` with metadata `s` has left.
    pub open spec fn dequeue(self, id: usize, s: TaskSchedInfo) -> EevdfState {
        if !s.on_rq {
            self
        } else if self.eligible.contains_key((s.vdeadline, id as u64)) {
            EevdfState {
                eligible: self.eligible.remove((s.vdeadline, id as u64)),
                ..self.discount(s.weight)
            }
        } else {
            EevdfState {
                ineligible: self.ineligible.remove((s.ve, id as u64)),
                ..self.discount(s.weight)
            }
        }
    }

    /// The key `k` belongs to a task whose eligible time has come.
    pub open spec fn is_promoted(self, tasks: Map<usize, Task>, k: (u64, u64)) -> bool {
        k.0 == tasks[k.1 as usize].sched.vdeadline && exists|ve: u64|
            ve <= self.min_vruntime && #[trigger] self.ineligible.contains_key((ve, k.1))
    }

    /// The queue after every task whose eligible time has come was made eligible.
    pub open spec fn promoted(self, tasks: Map<usize, Task>) -> EevdfState {
        EevdfState {
            eligible: Map::new(
                |k: (u64, u64)| self.eligible.contains_key(k) || self.is_promoted(tasks, k),
                |k: (u64, u64)| TaskRef { id: k.1 as usize },
            ),
            ineligible: Map::new(
                |k: (u64, u64)| self.ineligible.contains_key(k) && k.0 > self.min_vruntime,
                |k: (u64, u64)| self.ineligible[k],
            ),
            ..self
        }
    }

    /// The task that `pick_next` hands out.
    pub open spec fn picked(self, tasks: Map<usize, Task>) -> Option<TaskRef> {
        let p = self.promoted(tasks);
        if p.eligible.dom().is_empty() {
            None
        } else {
            Some(TaskRef { id: ordered_map::first_of(p.eligible).1 as usize })
        }
    }

    /// The queue after `pick_next`.
    pub open spec fn after_pick(self, tasks: Map<usize, Task>) -> EevdfState {
        let p = self.promoted(tasks);
        if p.eligible.dom().is_empty() {
            p
        } else {
            let k = ordered_map::first_of(p.eligible);
            EevdfState {
                eligible: p.eligible.remove(k),
                ..p.discount(tasks[k.1 as usize].sched.weight)
            }
        }
    }

    /// The queue clock after the running task has reached `running_vruntime`.
    pub open spec fn advanced_clock(self, running_vruntime: int) -> int {
        let target = if self.eligible.dom().is_empty() {
            running_vruntime
        } else {
            mks::min_of(running_vruntime, ordered_map::first_of(self.eligible).0 as int)
        };
        mks::max_of(self.min_vruntime as int, target)
    }

    /// Whether a task that has reached the virtual runtime `vr` has to yield.
    pub open spec fn must_yield(self, vr: int, vdeadline: u64) -> bool {
        ||| vr >= vdeadline
        ||| !self.eligible.dom().is_empty() && ordered_map::first_of(self.eligible).0 + SCHED_MIN_GRANULARITY_NS
            < vdeadline
    }

    /// The key of the task that a steal takes.
    pub open spec fn stolen_key(self, tasks: Map<usize, Task>) -> (u64, u64) {
        if !movable(self.ineligible, tasks).dom().is_empty() {
            ordered_map::last_of(movable(self.ineligible, tasks))
        } else {
            ordered_map::last_of(movable(self.eligible, tasks))
        }
    }

    /// Whether a steal takes a task.
    pub open spec fn can_steal(self, tasks: Map<usize, Task>) -> bool {
        self.nr_running > 1 && !(movable(self.ineligible, tasks).dom().is_empty() && movable(
            self.eligible,
            tasks,
        ).dom().is_empty())
    }

    /// The queue after a steal.
    pub open spec fn after_steal(self, tasks: Map<usize, Task>) -> EevdfState {
        if !self.can_steal(tasks) {
            self
        } else {
            let k = self.stolen_key(tasks);
            let q = self.discount(tasks[k.1 as usize].sched.weight);
            if !movable(self.ineligible, tasks).dom().is_empty() {
                EevdfState { ineligible: self.ineligible.remove(k), ..q }
            } else {
                EevdfState { eligible: self.eligible.remove(k), ..q }
            }
        }
    }

    /// Every entry stands at the time that its task records, the task knows that
    /// it is queued, no task stands in both parts, and the count is exact.
    pub open spec fn consistent(self, tasks: Map<usize, Task>) -> bool {
        &&& self.valid(tasks)
        &&& self.eligible.dom().finite()
        &&& self.ineligible.dom().finite()
        &&& self.nr_running == self.eligible.dom().len() + self.ineligible.dom().len()
        &&& forall|k: (u64, u64)| #[trigger]
            self.eligible.contains_key(k) ==> {
                let s = tasks[k.1 as usize].sched;
                s.on_rq && s.vdeadline == k.0
            }
        &&& forall|k: (u64, u64)| #[trigger]
            self.ineligible.contains_key(k) ==> {
                let s = tasks[k.1 as usize].sched;
                s.on_rq && s.ve == k.0
            }
        &&& forall|a: (u64, u64), b: (u64, u64)| #[trigger]
            self.eligible.contains_key(a) && #[trigger] self.ineligible.contains_key(b) ==> a.1
                != b.1
    }

    /// Task `id` stands in this queue.
    pub open spec fn holds(self, id: usize) -> bool {
        ordered_map::has_id(self.eligible, id as u64) || ordered_map::has_id(self.ineligible, id as u64)
    }
}

impl View for EevdfRunQueue {
    type V = EevdfState;

    closed spec fn view(&self) -> EevdfState {
        EevdfState {
            eligible: self.eligible@,
            ineligible: self.ineligible@,
            min_vruntime: self.min_vruntime,
            total_weight: self.total_weight,
            nr_running: self.nr_running,
        }
    }
}

impl EevdfRunQueue {
    /// The two parts of the queue are in order.
    pub closed spec fn wf(&self) -> bool {
        self.eligible.wf() && self.ineligible.wf()
    }

    /// An empty queue.
    pub fn new() -> (q: Self)
        ensures
            q.wf(),
            q@ == EevdfState::empty(),
    {
        EevdfRunQueue {
            eligible: OrderedMap::new(),
            ineligible: OrderedMap::new(),
            min_vruntime: 0,
            total_weight: 0,
            nr_running: 0,
        }
    }

    /// The queue clock.
    pub fn clock(&self) -> (r: u64)
        ensures
            r == self@.min_vruntime,
    {
        self.min_vruntime
    }

    /// Adds a task and sets its eligible time and deadline. New and woken tasks
    /// are lifted near the queue clock, so that they cannot catch up on the time
    /// they slept.
    pub fn enqueue(&mut self, tasks: &mut TaskTable, task: TaskRef, is_wakeup: bool)
        requires
            old(self).wf(),
            old(tasks).wf(),
            old(tasks)@.contains_key(task.id),
            old(self)@.can_enqueue(old(tasks)@[task.id].sched, is_wakeup),
        ensures
            final(self).wf(),
            final(tasks).wf(),
            final(tasks)@ == with_sched(
                old(tasks)@,
                task.id,
                old(self)@.joined(old(tasks)@[task.id].sched, is_wakeup),
            ),
            final(self)@ == old(self)@.enqueue(
                task.id,
                old(self)@.joined(old(tasks)@[task.id].sched, is_wakeup),
            ),
    {
        let ghost q = self@;
        let mut s: TaskSchedInfo = tasks.read(task).sched;
        let ghost s0 = s;
        if s.vruntime == 0 || is_wakeup {
            let catchup: u64 = self.min_vruntime.saturating_sub(SCHED_LATENCY_NS / 2);
            if s.vruntime < catchup {
                s.vruntime = catchup;
            }
        }
        let weight: u64 = weight_for_nice(s.nice) as u64;
        let slice: u64 = self.compute_slice(weight);
        s.ve = s.vruntime;
        s.vdeadline = s.vruntime + slice;
        s.weight = weight;
        s.on_rq = true;
        assert(s == q.joined(s0, is_wakeup));
        let t = tasks.write(task);
        t.sched = s;

        self.total_weight = self.total_weight + weight;
        self.nr_running = self.nr_running + 1;
        if s.ve <= self.min_vruntime {
            self.eligible.insert(VtKey(s.vdeadline, task.id).as_pair(), task);
        } else {
            self.ineligible.insert(VtKey(s.ve, task.id).as_pair(), task);
        }
        assert(self@ =~= q.enqueue(task.id, s));
    }

    /// Removes a task. Removing a task that is not queued changes nothing.
    pub fn dequeue(&mut self, tasks: &mut TaskTable, task: TaskRef)
        requires
            old(self).wf(),
            old(tasks).wf(),
            old(tasks)@.contains_key(task.id),
        ensures
            final(self).wf(),
            final(tasks).wf(),
            final(tasks)@ == with_sched(
                old(tasks)@,
                task.id,
                (TaskSchedInfo { on_rq: false, ..old(tasks)@[task.id].sched }),
            ),
            final(self)@ == old(self)@.dequeue(task.id, old(tasks)@[task.id].sched),
    {
        let ghost q = self@;
        let t = tasks.write(task);
        let s: TaskSchedInfo = t.sched;
        t.sched.on_rq = false;
        if !s.on_rq {
            return;
        }
        if self.eligible.remove(VtKey(s.vdeadline, task.id).as_pair()).is_none() {
            self.ineligible.remove(VtKey(s.ve, task.id).as_pair());
        }
        self.total_weight = self.total_weight.saturating_sub(s.weight);
        self.nr_running = self.nr_running.saturating_sub(1);
        assert(self@ =~= q.dequeue(task.id, s));
    }

    /// Takes the eligible task with the earliest virtual deadline, if there is one.
    pub fn pick_next(&mut self, tasks: &mut TaskTable) -> (r: Option<TaskRef>)
        requires
            old(self).wf(),
            old(tasks).wf(),
            old(self)@.valid(old(tasks)@),
        ensures
            final(self).wf(),
            final(tasks).wf(),
            r == old(self)@.picked(old(tasks)@),
            final(self)@ == old(self)@.after_pick(old(tasks)@),
            final(self)@.valid(final(tasks)@),
            match r {
                Some(t) => old(tasks)@.contains_key(t.id) && final(tasks)@ == with_sched(
                    old(tasks)@,
                    t.id,
                    (TaskSchedInfo { on_rq: false, ..old(tasks)@[t.id].sched }),
                ),
                None => final(tasks)@ == old(tasks)@,
            },
    {
        let ghost q = self@;
        self.advance_eligibility(tasks);
        let ghost p = self@;
        match self.eligible.first_key() {
            None => {
                assert(p.eligible.dom() =~= Set::empty());
                None
            },
            Some(key) => {
                assert(p.eligible.dom().contains(key));
                match self.eligible.remove(key) {
                    Some(task) => {
                        let t = tasks.write(task);
                        t.sched.on_rq = false;
                        let weight: u64 = t.sched.weight;
                        self.total_weight = self.total_weight.saturating_sub(weight);
                        self.nr_running = self.nr_running.saturating_sub(1);
                        assert(self@ =~= q.after_pick(old(tasks)@));
                        Some(task)
                    },
                    None => None,
                }
            },
        }
    }

    /// Puts a task back after it has run: it joins with the virtual runtime it
    /// has reached.
    pub fn put_prev(&mut self, tasks: &mut TaskTable, task: TaskRef)
        requires
            old(self).wf(),
            old(tasks).wf(),
            old(tasks)@.contains_key(task.id),
            old(self)@.can_enqueue(old(tasks)@[task.id].sched, false),
        ensures
            final(self).wf(),
            final(tasks).wf(),
            final(tasks)@ == with_sched(
                old(tasks)@,
                task.id,
                old(self)@.joined(old(tasks)@[task.id].sched, false),
            ),
            final(self)@ == old(self)@.enqueue(
                task.id,
                old(self)@.joined(old(tasks)@[task.id].sched, false),
            ),
    {
        self.enqueue(tasks, task, false);
    }

    /// Accounts `elapsed_ns` of CPU time to the running task, advances the queue
    /// clock, and says whether the task has to yield: because it has reached its
    /// deadline, or because an eligible task has a deadline that is earlier by
    /// more than the minimum granularity.
    pub fn tick(&mut self, tasks: &mut TaskTable, current_task: TaskRef, elapsed_ns: u64) -> (r:
        bool)
        requires
            old(self).wf(),
            old(tasks).wf(),
            old(tasks)@.contains_key(current_task.id),
            can_tick(old(self)@, old(tasks)@[current_task.id].sched, elapsed_ns),
        ensures
            final(self).wf(),
            final(tasks).wf(),
            final(tasks)@ == with_sched(
                old(tasks)@,
                current_task.id,
                ticked(old(tasks)@[current_task.id].sched, elapsed_ns),
            ),
            final(self)@ == (EevdfState {
                min_vruntime: old(self)@.advanced_clock(
                    ticked(old(tasks)@[current_task.id].sched, elapsed_ns).vruntime as int,
                ) as u64,
                ..old(self)@
            }),
            r == old(self)@.must_yield(
                ticked(old(tasks)@[current_task.id].sched, elapsed_ns).vruntime as int,
                old(tasks)@[current_task.id].sched.vdeadline,
            ),
    {
        let ghost q = self@;
        let t = tasks.write(current_task);
        let ghost s0 = t.sched;
        let weight: u64 = weight_for_nice(t.sched.nice) as u64;
        let delta: u64 = elapsed_ns * WEIGHT_NICE0 / weight;
        t.sched.vruntime = t.sched.vruntime + delta;
        t.sched.exec_runtime = t.sched.exec_runtime + elapsed_ns;
        let new_vruntime: u64 = t.sched.vruntime;
        let vdeadline: u64 = t.sched.vdeadline;
        assert(t.sched == ticked(s0, elapsed_ns));

        self.update_min_vruntime(new_vruntime);

        let overran = new_vruntime >= vdeadline;
        let preempt_by_wakeup = match self.eligible.first_key() {
            Some(k) => {
                assert(self@.eligible.dom().contains(k));
                k.0 + SCHED_MIN_GRANULARITY_NS < vdeadline
            },
            None => {
                assert(self@.eligible.dom() =~= Set::empty());
                false
            },
        };
        overran || preempt_by_wakeup
    }

    /// Gives a task away to another CPU: the one with the latest eligible time
    /// among those not yet eligible, or else the one with the latest deadline.
    /// A queue with at most one task gives none away, and a task that is pinned to
    /// a CPU stays.
    pub fn steal_one(&mut self, tasks: &mut TaskTable) -> (r: Option<TaskRef>)
        requires
            old(self).wf(),
            old(tasks).wf(),
            old(self)@.valid(old(tasks)@),
        ensures
            final(self).wf(),
            final(tasks).wf(),
            final(self)@ == old(self)@.after_steal(old(tasks)@),
            final(self)@.valid(final(tasks)@),
            match r {
                Some(t) => old(self)@.can_steal(old(tasks)@) && t.id
                    == old(self)@.stolen_key(old(tasks)@).1 && old(tasks)@[t.id].sched.pinned_cpu is None
                    && old(tasks)@.contains_key(t.id) && final(tasks)@ == with_sched(
                    old(tasks)@,
                    t.id,
                    (TaskSchedInfo { on_rq: false, ..old(tasks)@[t.id].sched }),
                ),
                None => !old(self)@.can_steal(old(tasks)@) && final(tasks)@ == old(tasks)@,
            },
    {
        let ghost q = self@;
        if self.nr_running <= 1 {
            return None;
        }
        let last_ineligible = last_movable(&self.ineligible, tasks);
        let taken: Option<TaskRef> = match last_ineligible {
            Some(key) => {
                assert(movable(q.ineligible, tasks@).dom().contains(key));
                self.ineligible.remove(key)
            },
            None => match last_movable(&self.eligible, tasks) {
                Some(key) => {
                    assert(movable(q.eligible, tasks@).dom().contains(key));
                    self.eligible.remove(key)
                },
                None => None,
            },
        };
        match taken {
            Some(task) => {
                let t = tasks.write(task);
                t.sched.on_rq = false;
                let weight: u64 = t.sched.weight;
                self.total_weight = self.total_weight.saturating_sub(weight);
                self.nr_running = self.nr_running.saturating_sub(1);
                assert(self@ =~= q.after_steal(old(tasks)@));
                Some(task)
            },
            None => None,
        }
    }

    /// Time slice for a task with the given weight.
    fn compute_slice(&self, task_weight: u64) -> (r: u64)
        requires
            task_weight <= 88761,
            self@.total_weight + task_weight <= u64::MAX,
        ensures
            r == self@.slice(task_weight as int),
            SCHED_MIN_GRANULARITY_NS <= r <= SCHED_LATENCY_NS,
    {
        if self.total_weight == 0 {
            return SCHED_LATENCY_NS;
        }
        let slice: u64 = SCHED_LATENCY_NS * task_weight / (self.total_weight + task_weight);
        if slice < SCHED_MIN_GRANULARITY_NS {
            SCHED_MIN_GRANULARITY_NS
        } else if slice > SCHED_LATENCY_NS {
            SCHED_LATENCY_NS
        } else {
            slice
        }
    }

    /// Makes every task eligible whose eligible time the clock has reached.
    fn advance_eligibility(&mut self, tasks: &TaskTable)
        requires
            old(self).wf(),
            tasks.wf(),
            old(self)@.valid(tasks@),
        ensures
            final(self).wf(),
            final(self)@ == old(self)@.promoted(tasks@),
            final(self)@.valid(tasks@),
    {
        let ghost q = self@;
        let mut due = true;
        while due
            invariant
                self.wf(),
                tasks.wf(),
                q.valid(tasks@),
                self@.valid(tasks@),
                q == old(self)@,
                self@.min_vruntime == q.min_vruntime,
                self@.total_weight == q.total_weight,
                self@.nr_running == q.nr_running,
                forall|k: (u64, u64)| #[trigger]
                    self@.ineligible.contains_key(k) ==> q.ineligible.contains_key(k)
                        && self@.ineligible[k] == q.ineligible[k],
                forall|k: (u64, u64)| #[trigger]
                    q.ineligible.contains_key(k) && k.0 > q.min_vruntime
                        ==> self@.ineligible.contains_key(k),
                forall|k: (u64, u64)| #[trigger]
                    q.eligible.contains_key(k) ==> self@.eligible.contains_key(k),
                forall|k: (u64, u64)| #[trigger]
                    self@.eligible.contains_key(k) ==> q.eligible.contains_key(k) || q.is_promoted(
                        tasks@,
                        k,
                    ),
                forall|k: (u64, u64)| #[trigger]
                    q.ineligible.contains_key(k) && !self@.ineligible.contains_key(k)
                        ==> self@.eligible.contains_key((tasks@[k.1 as usize].sched.vdeadline, k.1)),
                !due ==> forall|k: (u64, u64)| #[trigger]
                    self@.ineligible.contains_key(k) ==> k.0 > q.min_vruntime,
            decreases self@.ineligible.dom().len() + if due { 1nat } else { 0 },
        {
            let ghost before = self@;
            proof {
                self.ineligible.lemma_finite();
            }
            match self.ineligible.first_key() {
                Some(key) => {
                    if key.0 <= self.min_vruntime {
                        if let Some(task) = self.ineligible.remove(key) {
                            let vdeadline: u64 = tasks.read(task).sched.vdeadline;
                            self.eligible.insert(VtKey(vdeadline, task.id).as_pair(), task);
                            proof {
                                let nk = (vdeadline, key.1);
                                assert(q.is_promoted(tasks@, nk)) by {
                                    assert(q.ineligible.contains_key((key.0, nk.1)));
                                }
                                assert(self@.ineligible.dom() =~= before.ineligible.dom().remove(
                                    key,
                                ));
                            }
                        }
                    } else {
                        due = false;
                    }
                },
                None => {
                    due = false;
                },
            }
        }
        proof {
            let want = q.promoted(tasks@);
            assert forall|k: (u64, u64)| self@.eligible.contains_key(k)
                <==> want.eligible.contains_key(k) by {
                if q.is_promoted(tasks@, k) {
                    let ve = choose|ve: u64|
                        ve <= q.min_vruntime && #[trigger] q.ineligible.contains_key((ve, k.1));
                    assert(!self@.ineligible.contains_key((ve, k.1)));
                }
            }
            assert(self@.eligible =~= want.eligible);
            assert(self@.ineligible =~= want.ineligible);
            assert(self@ =~= want);
        }
    }

    /// Advances the queue clock; it never moves back.
    fn update_min_vruntime(&mut self, running_vruntime: u64)
        requires
            old(self).wf(),
        ensures
            final(self).wf(),
            final(self)@ == (EevdfState {
                min_vruntime: old(self)@.advanced_clock(running_vruntime as int) as u64,
                ..old(self)@
            }),
    {
        let new_min: u64 = match self.eligible.first_key() {
            Some(k) => {
                assert(self@.eligible.dom().contains(k));
                if running_vruntime <= k.0 {
                    running_vruntime
                } else {
                    k.0
                }
            },
            None => {
                assert(self@.eligible.dom() =~= Set::empty());
                running_vruntime
            },
        };
        if new_min > self.min_vruntime {
            self.min_vruntime = new_min;
        }
    }
}

impl Default for EevdfRunQueue {
    fn default() -> (q: Self)
        ensures
            q.wf(),
            q@ == EevdfState::empty(),
    {
        EevdfRunQueue::new()
    }
}

/// Virtual time that `elapsed_ns` of CPU time are worth at a nice value: the
/// time itself at nice 0, less the more a task weighs.
pub open spec fn virtual_delta(nice: i8, elapsed_ns: u64) -> int {
    elapsed_ns * WEIGHT_NICE0 / mks::nice_weight(nice) as int
}

/// Metadata of a task after it has run for `elapsed_ns`.
pub open spec fn ticked(s: TaskSchedInfo, elapsed_ns: u64) -> TaskSchedInfo {
    TaskSchedInfo {
        vruntime: (s.vruntime + virtual_delta(s.nice, elapsed_ns)) as u64,
        exec_runtime: (s.exec_runtime + elapsed_ns) as u64,
        ..s
    }
}

/// All sums and products that a tick computes fit their types.
pub open spec fn can_tick(q: EevdfState, s: TaskSchedInfo, elapsed_ns: u64) -> bool {
    &&& s.nice <= 107
    &&& elapsed_ns * WEIGHT_NICE0 <= u64::MAX
    &&& s.vruntime + virtual_delta(s.nice, elapsed_ns) <= u64::MAX
    &&& s.exec_runtime + elapsed_ns <= u64::MAX
    &&& !q.eligible.dom().is_empty() ==> ordered_map::first_of(q.eligible).0 + SCHED_MIN_GRANULARITY_NS
        <= u64::MAX
}

} // verus!
