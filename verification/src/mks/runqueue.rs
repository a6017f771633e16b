//! Per-CPU run queue: one sub-queue for each scheduling class.

use crate::mks::eevdf;
use crate::mks::realtime;
use crate::mks::stats;
use crate::ordered_map;
use crate::mks::eevdf::{EevdfRunQueue, EevdfState};
use crate::mks::realtime::{DeadlineRunQueue, DlState, RtRunQueue, RtState};
use crate::mks::stats::CpuStats;
use crate::task::{TaskRef, TaskTable};
use crate::task_struct::{RunState, SchedClass, Task, TaskSchedInfo};
use vstd::prelude::*;

verus! {

/// The queue that holds the idle task of a CPU.
#[derive(Clone, Copy, Debug, PartialEq, Eq, Structural)]
pub struct IdleRunQueue {
    pub idle_task: Option<TaskRef>,
}

impl IdleRunQueue {
    /// A queue without idle task.
    pub fn new() -> (q: Self)
        ensures
            q.idle_task is None,
    {
        IdleRunQueue { idle_task: None }
    }

    /// Sets the idle task.
    pub fn set_idle_task(&mut self, task: TaskRef)
        ensures
            final(self).idle_task == Some(task),
    {
        self.idle_task = Some(task);
    }

    /// The idle task, which stays in place.
    pub fn pick_next(&self) -> (r: Option<TaskRef>)
        ensures
            r == self.idle_task,
    {
        self.idle_task
    }
}

/// Scheduling class without its parameters.
#[derive(Clone, Copy, Debug, PartialEq, Eq, Structural)]
pub enum SchedClassId {
    Deadline,
    Compute,
    RealTime,
    Normal,
    Batch,
    Idle,
}

/// The class that a policy belongs to.
pub open spec fn class_of(policy: SchedClass) -> SchedClassId {
    match policy {
        SchedClass::Deadline { .. } => SchedClassId::Deadline,
        SchedClass::Compute => SchedClassId::Compute,
        SchedClass::Fifo => SchedClassId::RealTime,
        SchedClass::RoundRobin(_) => SchedClassId::RealTime,
        SchedClass::Normal => SchedClassId::Normal,
        SchedClass::Batch => SchedClassId::Batch,
        SchedClass::Idle => SchedClassId::Idle,
    }
}

/// Tasks of this class stand in the fair sub-queue.
pub open spec fn is_fair(c: SchedClassId) -> bool {
    c == SchedClassId::Compute || c == SchedClassId::Normal || c == SchedClassId::Batch
}

/// Conversion of a policy to its class.
pub trait SchedClassExt {
    /// What `class` returns.
    spec fn class_spec(&self) -> SchedClassId;

    /// The class of this policy.
    fn class(&self) -> (r: SchedClassId)
        ensures
            r == self.class_spec(),
    ;
}

impl SchedClassExt for SchedClass {
    open spec fn class_spec(&self) -> SchedClassId {
        class_of(*self)
    }

    fn class(&self) -> (r: SchedClassId) {
        match self {
            SchedClass::Deadline { .. } => SchedClassId::Deadline,
            SchedClass::Compute => SchedClassId::Compute,
            SchedClass::Fifo => SchedClassId::RealTime,
            SchedClass::RoundRobin(_) => SchedClassId::RealTime,
            SchedClass::Normal => SchedClassId::Normal,
            SchedClass::Batch => SchedClassId::Batch,
            SchedClass::Idle => SchedClassId::Idle,
        }
    }
}

/// The scheduler state of one CPU.
pub struct PerCpuRunQueue {
    /// Logical CPU identifier.
    pub cpu_id: usize,
    /// Deadline tasks.
    pub deadline_rq: DeadlineRunQueue,
    /// FIFO and round-robin tasks.
    pub rt_rq: RtRunQueue,
    /// Fair tasks.
    pub cfs_rq: EevdfRunQueue,
    /// Idle task.
    pub idle_rq: IdleRunQueue,
    /// Approximate number of runnable tasks of all classes.
    pub load_count: usize,
    /// Statistics.
    pub stats: CpuStats,
    /// The task that runs on this CPU.
    pub current: Option<TaskRef>,
    /// Whether this CPU has to pick another task at the next safe point.
    pub need_resched: bool,
}

/// What the run queue of a CPU holds.
#[verifier::ext_equal]
pub struct PerCpuState {
    pub cpu_id: usize,
    pub deadline: DlState,
    pub rt: RtState,
    pub fair: EevdfState,
    pub idle: Option<TaskRef>,
    pub load: usize,
    pub stats: CpuStats,
    pub current: Option<TaskRef>,
    pub need_resched: bool,
}

/// One more, wrapping around.
pub open spec fn counted_up(n: usize) -> usize {
    if n == usize::MAX {
        0
    } else {
        (n + 1) as usize
    }
}

/// One less, wrapping around.
pub open spec fn counted_down(n: usize) -> usize {
    if n == 0 {
        usize::MAX
    } else {
        (n - 1) as usize
    }
}

impl PerCpuState {
    /// The run queue of a CPU as it is created.
    pub open spec fn empty(cpu_id: usize) -> PerCpuState {
        PerCpuState {
            cpu_id,
            deadline: DlState::empty(),
            rt: RtState::empty(),
            fair: EevdfState::empty(),
            idle: None,
            load: 0,
            stats: stats::fresh_stats(cpu_id),
            current: None,
            need_resched: false,
        }
    }

    /// All entries refer to tasks of the table.
    pub open spec fn valid(self, tasks: Map<usize, Task>) -> bool {
        &&& self.deadline.valid(tasks)
        &&& self.rt.valid(tasks)
        &&& self.fair.valid(tasks)
        &&& self.idle matches Some(t) ==> tasks.contains_key(t.id)
    }

    /// The task that runs on this CPU, unless it has left the table.
    pub open spec fn running(self, tasks: Map<usize, Task>) -> Option<TaskRef> {
        match self.current {
            Some(t) if tasks.contains_key(t.id) => Some(t),
            _ => None,
        }
    }

    /// All sums that joining the queue of the task's class computes fit.
    pub open spec fn can_enqueue(self, s: TaskSchedInfo, now_ns: u64) -> bool {
        let c = class_of(s.policy);
        &&& c == SchedClassId::Deadline ==> self.deadline.can_enqueue(s, now_ns)
        &&& c == SchedClassId::RealTime ==> self.rt.nr_running < usize::MAX
        &&& is_fair(c) ==> self.fair.can_enqueue(s, true)
    }

    /// Metadata of a task after it was enqueued on this CPU.
    pub open spec fn joined(self, s: TaskSchedInfo) -> TaskSchedInfo {
        let c = class_of(s.policy);
        if c == SchedClassId::Idle {
            s
        } else if is_fair(c) {
            TaskSchedInfo { last_cpu: self.cpu_id, ..self.fair.joined(s, true) }
        } else {
            TaskSchedInfo { last_cpu: self.cpu_id, ..s }
        }
    }

    /// The run queue after task `id` with metadata `s` was enqueued. A deadline
    /// task that is not admitted stands in no queue but counts as load.
    pub open spec fn enqueue(self, id: usize, s: TaskSchedInfo, now_ns: u64) -> PerCpuState {
        let c = class_of(s.policy);
        if c == SchedClassId::Idle {
            PerCpuState { idle: Some(TaskRef { id }), ..self }
        } else {
            PerCpuState {
                deadline: if c == SchedClassId::Deadline && self.deadline.accepts(id, s) {
                    self.deadline.enqueue(id, s, now_ns)
                } else {
                    self.deadline
                },
                rt: if c == SchedClassId::RealTime {
                    self.rt.enqueue(TaskRef { id }, realtime::rt_level(s))
                } else {
                    self.rt
                },
                fair: if is_fair(c) {
                    self.fair.enqueue(id, self.fair.joined(s, true))
                } else {
                    self.fair
                },
                load: counted_up(self.load),
                ..self
            }
        }
    }

    /// Metadata of a task after it was dequeued.
    pub open spec fn left(s: TaskSchedInfo) -> TaskSchedInfo {
        if is_fair(class_of(s.policy)) {
            TaskSchedInfo { on_rq: false, ..s }
        } else {
            s
        }
    }

    /// The sub-queues after task `id` with metadata `s` has left them.
    pub open spec fn without(self, id: usize, s: TaskSchedInfo) -> PerCpuState {
        let c = class_of(s.policy);
        PerCpuState {
            deadline: if c == SchedClassId::Deadline {
                self.deadline.dequeue(id)
            } else {
                self.deadline
            },
            rt: if c == SchedClassId::RealTime {
                self.rt.dequeue(TaskRef { id })
            } else {
                self.rt
            },
            fair: if is_fair(c) {
                self.fair.dequeue(id, s)
            } else {
                self.fair
            },
            ..self
        }
    }

    /// The run queue after task `id` with metadata `s` was dequeued.
    pub open spec fn dequeue(self, id: usize, s: TaskSchedInfo) -> PerCpuState {
        if class_of(s.policy) == SchedClassId::Idle {
            self
        } else {
            PerCpuState { load: counted_down(self.load), ..self.without(id, s) }
        }
    }

    /// Metadata of a task after it was put back on this CPU.
    pub open spec fn put_back_info(self, id: usize, s: TaskSchedInfo) -> TaskSchedInfo {
        TaskSchedInfo { last_cpu: self.cpu_id, ..self.rejoined_info(id, s) }
    }

    /// Metadata of a task after it has left its queue and joined it again.
    pub open spec fn rejoined_info(self, id: usize, s: TaskSchedInfo) -> TaskSchedInfo {
        if is_fair(class_of(s.policy)) {
            self.fair.dequeue(id, s).joined(PerCpuState::left(s), false)
        } else {
            s
        }
    }

    /// All sums that putting a task back computes fit.
    pub open spec fn can_put_prev(self, id: usize, s: TaskSchedInfo, now_ns: u64) -> bool {
        let c = class_of(s.policy);
        &&& c == SchedClassId::Deadline ==> self.deadline.can_enqueue(s, now_ns)
        &&& c == SchedClassId::RealTime ==> self.rt.dequeue(TaskRef { id }).nr_running < usize::MAX
        &&& is_fair(c) ==> self.fair.dequeue(id, s).can_enqueue(PerCpuState::left(s), false)
    }

    /// The run queue after it was noted at `now_ns` whether deadline task `id` has run
    /// after its deadline.
    pub open spec fn noted(self, id: usize, now_ns: u64) -> PerCpuState {
        PerCpuState {
            deadline: self.deadline.noted(id, now_ns),
            stats: if self.deadline.runs_late(id, now_ns) {
                stats::missed(self.stats)
            } else {
                self.stats
            },
            ..self
        }
    }

    /// The run queue after task `id` with metadata `s` was put back: an old entry of a
    /// real-time or a fair task is replaced, a fair task keeps the virtual runtime it
    /// has reached, and an admitted deadline task keeps its bandwidth, its deadline and
    /// its budget.
    pub open spec fn put_prev(self, id: usize, s: TaskSchedInfo, now_ns: u64) -> PerCpuState {
        let c = class_of(s.policy);
        let w = if c == SchedClassId::Deadline {
            self.noted(id, now_ns)
        } else {
            self.without(id, s)
        };
        PerCpuState {
            deadline: if c == SchedClassId::Deadline && w.deadline.accepts(id, s) {
                w.deadline.enqueue(id, s, now_ns)
            } else {
                w.deadline
            },
            rt: if c == SchedClassId::RealTime {
                w.rt.enqueue(TaskRef { id }, realtime::rt_level(s))
            } else {
                w.rt
            },
            fair: if is_fair(c) {
                w.fair.enqueue(id, w.fair.joined(PerCpuState::left(s), false))
            } else {
                w.fair
            },
            ..w
        }
    }

    /// The run queue after the running task `id` with metadata `s` has yielded and stands
    /// in its queue again. It was counted as load before.
    pub open spec fn yielded(self, id: usize, s: TaskSchedInfo, now_ns: u64) -> PerCpuState {
        PerCpuState {
            load: self.load,
            ..(PerCpuState { current: None, ..self }).noted(id, now_ns).enqueue(id, s, now_ns)
        }
    }

    /// The task that this CPU picks among its own at `now_ns`: a deadline task before a
    /// real-time task before a fair task.
    pub open spec fn picked(self, tasks: Map<usize, Task>, now_ns: u64) -> Option<TaskRef> {
        if self.deadline.picked(now_ns) is Some {
            self.deadline.picked(now_ns)
        } else if self.rt.picked() is Some {
            self.rt.picked()
        } else {
            self.fair.picked(tasks)
        }
    }

    /// The pick falls on a fair task.
    pub open spec fn picks_fair(self, tasks: Map<usize, Task>, now_ns: u64) -> bool {
        self.deadline.picked(now_ns) is None && self.rt.picked() is None && self.fair.picked(
            tasks,
        ) is Some
    }

    /// The run queue after this CPU has picked among its own tasks. A deadline task that
    /// is picked after its deadline counts as a miss.
    pub open spec fn after_pick(self, tasks: Map<usize, Task>, now_ns: u64) -> PerCpuState {
        match self.deadline.picked(now_ns) {
            Some(t) => (PerCpuState { deadline: self.deadline.after_pick(now_ns), ..self }).noted(
                t.id,
                now_ns,
            ),
            None => if self.rt.picked() is Some {
                PerCpuState { rt: self.rt.after_pick(tasks), ..self }
            } else {
                PerCpuState { fair: self.fair.after_pick(tasks), ..self }
            },
        }
    }

    /// All sums that a tick computes fit.
    pub open spec fn can_tick(self, tasks: Map<usize, Task>, elapsed_ns: u64) -> bool {
        self.running(tasks) matches Some(t) ==> {
            is_fair(class_of(tasks[t.id].sched.policy)) ==> eevdf::can_tick(
                self.fair,
                tasks[t.id].sched,
                elapsed_ns,
            )
        }
    }

    /// Metadata of the running task after a tick.
    pub open spec fn ticked_info(s: TaskSchedInfo, elapsed_ns: u64) -> TaskSchedInfo {
        let c = class_of(s.policy);
        if is_fair(c) {
            eevdf::ticked(s, elapsed_ns)
        } else if c == SchedClassId::RealTime {
            realtime::rt_ticked(s, elapsed_ns)
        } else {
            s
        }
    }

    /// Whether a tick asks the running task `id` to yield.
    pub open spec fn tick_preempts(self, id: usize, s: TaskSchedInfo, elapsed_ns: u64) -> bool {
        let c = class_of(s.policy);
        if c == SchedClassId::Deadline {
            self.deadline.throttled(id, elapsed_ns)
        } else if c == SchedClassId::RealTime {
            realtime::is_round_robin(s) && s.rr_timeslice_remaining <= elapsed_ns
        } else if is_fair(c) {
            self.fair.must_yield(eevdf::ticked(s, elapsed_ns).vruntime as int, s.vdeadline)
        } else {
            false
        }
    }

    /// The run queue after a tick while task `id` runs.
    pub open spec fn tick(self, id: usize, s: TaskSchedInfo, elapsed_ns: u64) -> PerCpuState {
        let c = class_of(s.policy);
        PerCpuState {
            deadline: if c == SchedClassId::Deadline {
                self.deadline.tick(id, elapsed_ns)
            } else {
                self.deadline
            },
            fair: if is_fair(c) {
                EevdfState {
                    min_vruntime: self.fair.advanced_clock(
                        eevdf::ticked(s, elapsed_ns).vruntime as int,
                    ) as u64,
                    ..self.fair
                }
            } else {
                self.fair
            },
            need_resched: self.need_resched || self.tick_preempts(id, s, elapsed_ns),
            stats: stats::charged(self.stats, c == SchedClassId::Idle, elapsed_ns),
            ..self
        }
    }

    /// The run queue after a tick while no task runs.
    pub open spec fn idle_tick(self, elapsed_ns: u64) -> PerCpuState {
        PerCpuState { stats: stats::charged(self.stats, true, elapsed_ns), ..self }
    }
}

impl View for PerCpuRunQueue {
    type V = PerCpuState;

    open spec fn view(&self) -> PerCpuState {
        PerCpuState {
            cpu_id: self.cpu_id,
            deadline: self.deadline_rq@,
            rt: self.rt_rq@,
            fair: self.cfs_rq@,
            idle: self.idle_rq.idle_task,
            load: self.load_count,
            stats: self.stats,
            current: self.current,
            need_resched: self.need_resched,
        }
    }
}

impl PerCpuRunQueue {
    /// All sub-queues are well formed.
    pub open spec fn wf(&self) -> bool {
        self.deadline_rq.wf() && self.rt_rq.wf() && self.cfs_rq.wf()
    }

    /// An empty run queue for CPU `cpu_id`.
    pub fn new(cpu_id: usize) -> (q: Self)
        ensures
            q.wf(),
            q@ == PerCpuState::empty(cpu_id),
    {
        PerCpuRunQueue {
            cpu_id,
            deadline_rq: DeadlineRunQueue::new(),
            rt_rq: RtRunQueue::new(),
            cfs_rq: EevdfRunQueue::new(),
            idle_rq: IdleRunQueue::new(),
            load_count: 0,
            stats: CpuStats::new(cpu_id),
            current: None,
            need_resched: false,
        }
    }

    /// Enqueues a task in the sub-queue of its class and records this CPU as the
    /// one where it stands.
    pub fn enqueue(&mut self, tasks: &mut TaskTable, task: TaskRef, now_ns: u64)
        requires
            old(self).wf(),
            old(tasks).wf(),
            old(tasks)@.contains_key(task.id),
            old(self)@.can_enqueue(old(tasks)@[task.id].sched, now_ns),
        ensures
            final(self).wf(),
            final(tasks).wf(),
            old(self)@.valid(old(tasks)@) ==> final(self)@.valid(final(tasks)@),
            final(self)@ == old(self)@.enqueue(task.id, old(tasks)@[task.id].sched, now_ns),
            final(tasks)@ == eevdf::with_sched(
                old(tasks)@,
                task.id,
                old(self)@.joined(old(tasks)@[task.id].sched),
            ),
    {
        let ghost q = self@;
        let ghost s = tasks@[task.id].sched;
        let ghost t0 = tasks@;
        proof {
            self.deadline_rq.bandwidth_is_the_sum_of_claims();
            if q.valid(t0) {
                realtime::deadline_entries_stay_valid(q.deadline, t0, task.id, s, now_ns, 0);
            }
        }
        match tasks.read(task).sched.policy.class() {
            SchedClassId::Deadline => {
                let _ = self.deadline_rq.enqueue(tasks, task, now_ns);
            },
            SchedClassId::RealTime => {
                self.rt_rq.enqueue(tasks, task);
            },
            SchedClassId::Compute => {
                self.cfs_rq.enqueue(tasks, task, true);
            },
            SchedClassId::Normal => {
                self.cfs_rq.enqueue(tasks, task, true);
            },
            SchedClassId::Batch => {
                self.cfs_rq.enqueue(tasks, task, true);
            },
            SchedClassId::Idle => {
                self.idle_rq.set_idle_task(task);
                assert(self@ =~= q.enqueue(task.id, s, now_ns));
                assert(tasks@ =~= eevdf::with_sched(t0, task.id, q.joined(s)));
                return;
            },
        }
        self.load_count = self.load_count.wrapping_add(1);
        let t = tasks.write(task);
        t.sched.last_cpu = self.cpu_id;
        assert(self@ =~= q.enqueue(task.id, s, now_ns));
        assert(tasks@ =~= eevdf::with_sched(t0, task.id, q.joined(s)));
    }

    /// Removes a task from the sub-queue of its class.
    pub fn dequeue(&mut self, tasks: &mut TaskTable, task: TaskRef)
        requires
            old(self).wf(),
            old(tasks).wf(),
            old(tasks)@.contains_key(task.id),
        ensures
            final(self).wf(),
            final(tasks).wf(),
            old(self)@.valid(old(tasks)@) ==> final(self)@.valid(final(tasks)@),
            final(self)@ == old(self)@.dequeue(task.id, old(tasks)@[task.id].sched),
            final(tasks)@ == eevdf::with_sched(
                old(tasks)@,
                task.id,
                PerCpuState::left(old(tasks)@[task.id].sched),
            ),
    {
        let ghost q = self@;
        let ghost s = tasks@[task.id].sched;
        let ghost t0 = tasks@;
        proof {
            self.deadline_rq.bandwidth_is_the_sum_of_claims();
            if q.valid(t0) {
                realtime::deadline_entries_stay_valid(q.deadline, t0, task.id, s, 0, 0);
            }
        }
        assert(t0 =~= eevdf::with_sched(t0, task.id, s));
        match tasks.read(task).sched.policy.class() {
            SchedClassId::Deadline => {
                self.deadline_rq.dequeue(task);
            },
            SchedClassId::RealTime => {
                self.rt_rq.dequeue(task);
            },
            SchedClassId::Compute => {
                self.cfs_rq.dequeue(tasks, task);
            },
            SchedClassId::Normal => {
                self.cfs_rq.dequeue(tasks, task);
            },
            SchedClassId::Batch => {
                self.cfs_rq.dequeue(tasks, task);
            },
            SchedClassId::Idle => {
                return;
            },
        }
        self.load_count = self.load_count.wrapping_sub(1);
        assert(self@ =~= q.dequeue(task.id, s));
    }

    /// Counts a deadline task that runs after its deadline.
    fn note_miss(&mut self, task: TaskRef, now_ns: u64)
        requires
            old(self).wf(),
        ensures
            final(self).wf(),
            final(self)@ == old(self)@.noted(task.id, now_ns),
    {
        if self.deadline_rq.note_miss(task, now_ns) {
            self.stats.deadline_misses = self.stats.deadline_misses.wrapping_add(1);
        }
    }

    /// Lets a task join the queue of its class again.
    fn requeue(&mut self, tasks: &mut TaskTable, task: TaskRef, now_ns: u64)
        requires
            old(self).wf(),
            old(tasks).wf(),
            old(tasks)@.contains_key(task.id),
            old(self)@.can_put_prev(task.id, old(tasks)@[task.id].sched, now_ns),
        ensures
            final(self).wf(),
            final(tasks).wf(),
            old(self)@.valid(old(tasks)@) ==> final(self)@.valid(final(tasks)@),
            final(self)@ == old(self)@.put_prev(task.id, old(tasks)@[task.id].sched, now_ns),
            final(tasks)@ == eevdf::with_sched(
                old(tasks)@,
                task.id,
                old(self)@.rejoined_info(task.id, old(tasks)@[task.id].sched),
            ),
    {
        let ghost q = self@;
        let ghost s = tasks@[task.id].sched;
        let ghost t0 = tasks@;
        proof {
            self.deadline_rq.bandwidth_is_the_sum_of_claims();
            if q.valid(t0) {
                realtime::noting_keeps_the_queue(q.deadline, task.id, now_ns);
                realtime::deadline_entries_stay_valid(q.deadline, t0, task.id, s, now_ns, 0);
                realtime::deadline_entries_stay_valid(
                    q.deadline.noted(task.id, now_ns),
                    t0,
                    task.id,
                    s,
                    now_ns,
                    0,
                );
            }
        }
        assert(t0 =~= eevdf::with_sched(t0, task.id, s));
        match tasks.read(task).sched.policy.class() {
            SchedClassId::Deadline => {
                self.note_miss(task, now_ns);
                let _ = self.deadline_rq.enqueue(tasks, task, now_ns);
            },
            SchedClassId::RealTime => {
                self.rt_rq.dequeue(task);
                self.rt_rq.enqueue(tasks, task);
            },
            SchedClassId::Idle => {},
            _ => {
                self.cfs_rq.dequeue(tasks, task);
                self.cfs_rq.put_prev(tasks, task);
            },
        }
        assert(self@ =~= q.put_prev(task.id, s, now_ns));
        assert(tasks@ =~= eevdf::with_sched(t0, task.id, q.rejoined_info(task.id, s)));
    }

    /// Puts a task back after it has run. An entry of a real-time or a fair task that is
    /// still queued is replaced; a fair task joins with the virtual runtime it has
    /// reached. A deadline task waits again with its deadline and what is left of its
    /// budget, and claims no further bandwidth.
    pub fn put_prev(&mut self, tasks: &mut TaskTable, task: TaskRef, now_ns: u64)
        requires
            old(self).wf(),
            old(tasks).wf(),
            old(tasks)@.contains_key(task.id),
            old(self)@.can_put_prev(task.id, old(tasks)@[task.id].sched, now_ns),
        ensures
            final(self).wf(),
            final(tasks).wf(),
            old(self)@.valid(old(tasks)@) ==> final(self)@.valid(final(tasks)@),
            final(self)@ == old(self)@.put_prev(task.id, old(tasks)@[task.id].sched, now_ns),
            final(tasks)@ == eevdf::with_sched(
                old(tasks)@,
                task.id,
                old(self)@.put_back_info(task.id, old(tasks)@[task.id].sched),
            ),
            old(self)@.deadline.is_admitted(task.id) && old(tasks)@[task.id].sched.policy is Deadline
                && old(tasks)@[task.id].sched.policy->Deadline_period_ns != 0 ==> {
                &&& ordered_map::has_id(final(self)@.deadline.tasks, task.id as u64)
                &&& final(self)@.deadline.admitted_bandwidth == old(self)@.deadline.admitted_bandwidth
            },
    {
        let ghost q = self@;
        let ghost s = tasks@[task.id].sched;
        let ghost t0 = tasks@;
        proof {
            self.deadline_rq.bandwidth_is_the_sum_of_claims();
            if q.deadline.is_admitted(task.id) {
                realtime::noting_keeps_the_queue(q.deadline, task.id, now_ns);
                realtime::admitted_task_waits_again(
                    q.deadline.noted(task.id, now_ns),
                    task.id,
                    s,
                    now_ns,
                );
            }
        }
        self.requeue(tasks, task, now_ns);
        let t = tasks.write(task);
        t.sched.last_cpu = self.cpu_id;
        assert(tasks@ =~= eevdf::with_sched(t0, task.id, q.put_back_info(task.id, s)));
    }

    /// The task that runs on this CPU, unless it has left the table.
    pub fn current_in(&self, tasks: &TaskTable) -> (r: Option<TaskRef>)
        requires
            tasks.wf(),
        ensures
            r == self@.running(tasks@),
    {
        match self.current {
            Some(t) => {
                if tasks.get(t.id).is_some() {
                    Some(t)
                } else {
                    None
                }
            },
            None => None,
        }
    }

    /// Accounts `elapsed_ns` to the running task and asks for another pick if it
    /// has to yield.
    pub fn tick(&mut self, tasks: &mut TaskTable, elapsed_ns: u64)
        requires
            old(self).wf(),
            old(tasks).wf(),
            old(self)@.valid(old(tasks)@),
            old(self)@.can_tick(old(tasks)@, elapsed_ns),
        ensures
            final(self).wf(),
            final(tasks).wf(),
            old(self)@.valid(old(tasks)@) ==> final(self)@.valid(final(tasks)@),
            match old(self)@.running(old(tasks)@) {
                None => final(self)@ == old(self)@.idle_tick(elapsed_ns) && final(tasks)@ == old(
                    tasks,
                )@,
                Some(t) => final(self)@ == old(self)@.tick(
                    t.id,
                    old(tasks)@[t.id].sched,
                    elapsed_ns,
                ) && final(tasks)@ == eevdf::with_sched(
                    old(tasks)@,
                    t.id,
                    PerCpuState::ticked_info(old(tasks)@[t.id].sched, elapsed_ns),
                ),
            },
    {
        let current = match self.current_in(tasks) {
            Some(t) => t,
            None => {
                self.stats.charge(true, elapsed_ns);
                return;
            },
        };
        let ghost q = self@;
        let ghost s = tasks@[current.id].sched;
        let ghost t0 = tasks@;
        proof {
            self.deadline_rq.bandwidth_is_the_sum_of_claims();
            if q.valid(t0) {
                realtime::deadline_entries_stay_valid(q.deadline, t0, current.id, s, 0, elapsed_ns);
            }
        }
        assert(t0 =~= eevdf::with_sched(t0, current.id, s));
        let class = tasks.read(current).sched.policy.class();
        self.stats.charge(matches!(class, SchedClassId::Idle), elapsed_ns);
        let should_preempt = match class {
            SchedClassId::Deadline => self.deadline_rq.tick(current, elapsed_ns),
            SchedClassId::Compute => self.cfs_rq.tick(tasks, current, elapsed_ns),
            SchedClassId::RealTime => self.rt_rq.tick(tasks, current, elapsed_ns),
            SchedClassId::Normal => self.cfs_rq.tick(tasks, current, elapsed_ns),
            SchedClassId::Batch => self.cfs_rq.tick(tasks, current, elapsed_ns),
            SchedClassId::Idle => false,
        };
        if should_preempt {
            self.need_resched = true;
        }
        assert(self@ =~= q.tick(current.id, s, elapsed_ns));
    }

    /// Picks the next task among those of this CPU at `now_ns`, class by class.
    pub fn pick_next(&mut self, tasks: &mut TaskTable, now_ns: u64) -> (r: Option<TaskRef>)
        requires
            old(self).wf(),
            old(tasks).wf(),
            old(self)@.valid(old(tasks)@),
        ensures
            final(self).wf(),
            final(tasks).wf(),
            r == old(self)@.picked(old(tasks)@, now_ns),
            final(self)@ == old(self)@.after_pick(old(tasks)@, now_ns),
            final(self)@.valid(final(tasks)@),
            r matches Some(t) ==> old(tasks)@.contains_key(t.id),
            final(tasks)@ == if old(self)@.picks_fair(old(tasks)@, now_ns) {
                eevdf::with_sched(
                    old(tasks)@,
                    r->Some_0.id,
                    (TaskSchedInfo { on_rq: false, ..old(tasks)@[r->Some_0.id].sched }),
                )
            } else {
                old(tasks)@
            },
    {
        let ghost q = self@;
        proof {
            self.deadline_rq.bandwidth_is_the_sum_of_claims();
            realtime::earliest_deadline_is_picked(q.deadline, now_ns);
            if q.deadline.has_ready(now_ns) {
                assert(q.deadline.is_ready(q.deadline.earliest(now_ns), now_ns));
            }
        }
        let deadline_pick = self.deadline_rq.pick_next(now_ns);
        if let Some(t) = deadline_pick {
            self.note_miss(t, now_ns);
            assert(self@ =~= q.after_pick(old(tasks)@, now_ns));
            return Some(t);
        }
        let rt_pick = self.rt_rq.pick_next(tasks);
        if let Some(t) = rt_pick {
            assert(self@ =~= q.after_pick(old(tasks)@, now_ns));
            return Some(t);
        }
        let r = self.cfs_rq.pick_next(tasks);
        assert(self@ =~= q.after_pick(old(tasks)@, now_ns));
        r
    }

    /// The running task yields: it is enqueued again if it is runnable, and no
    /// task is recorded as running. An admitted deadline task claims no further
    /// bandwidth.
    pub fn yield_current(&mut self, tasks: &mut TaskTable, now_ns: u64)
        requires
            old(self).wf(),
            old(tasks).wf(),
            old(self)@.valid(old(tasks)@),
            old(self)@.running(old(tasks)@) matches Some(t) ==> old(tasks)@[t.id].runstate
                == RunState::Runnable
                ==> old(self)@.can_enqueue(old(tasks)@[t.id].sched, now_ns),
        ensures
            final(self).wf(),
            final(tasks).wf(),
            old(self)@.valid(old(tasks)@) ==> final(self)@.valid(final(tasks)@),
            match old(self)@.running(old(tasks)@) {
                Some(t) if old(tasks)@[t.id].runstate == RunState::Runnable => {
                    &&& final(self)@ == old(self)@.yielded(
                        t.id,
                        old(tasks)@[t.id].sched,
                        now_ns,
                    )
                    &&& final(tasks)@ == eevdf::with_sched(
                        old(tasks)@,
                        t.id,
                        old(self)@.joined(old(tasks)@[t.id].sched),
                    )
                },
                _ => final(self)@ == (PerCpuState { current: None, ..old(self)@ })
                    && final(tasks)@ == old(tasks)@,
            },
            old(self)@.running(old(tasks)@) matches Some(t) ==> {
                let s = old(tasks)@[t.id].sched;
                old(tasks)@[t.id].runstate == RunState::Runnable && old(self)@.deadline.is_admitted(
                    t.id,
                ) && s.policy is Deadline && s.policy->Deadline_period_ns != 0 ==> {
                    &&& ordered_map::has_id(final(self)@.deadline.tasks, t.id as u64)
                    &&& final(self)@.deadline.admitted_bandwidth
                        == old(self)@.deadline.admitted_bandwidth
                }
            },
    {
        let current = self.current_in(tasks);
        self.current = None;
        if let Some(task) = current {
            if tasks.read(task).runstate == RunState::Runnable {
                let load: usize = self.load_count;
                proof {
                    let d = self@.deadline;
                    self.deadline_rq.bandwidth_is_the_sum_of_claims();
                    if d.is_admitted(task.id) {
                        realtime::noting_keeps_the_queue(d, task.id, now_ns);
                        realtime::admitted_task_waits_again(
                            d.noted(task.id, now_ns),
                            task.id,
                            tasks@[task.id].sched,
                            now_ns,
                        );
                    }
                }
                self.note_miss(task, now_ns);
                self.enqueue(tasks, task, now_ns);
                self.load_count = load;
                assert(self@ =~= old(self)@.yielded(task.id, old(tasks)@[task.id].sched, now_ns));
            }
        }
    }

    /// Records `task` as the one that runs on this CPU.
    pub fn set_current(&mut self, tasks: &mut TaskTable, task: TaskRef)
        requires
            old(self).wf(),
            old(tasks).wf(),
            old(tasks)@.contains_key(task.id),
        ensures
            final(self).wf(),
            final(tasks).wf(),
            old(self)@.valid(old(tasks)@) ==> final(self)@.valid(final(tasks)@),
            final(self)@ == (PerCpuState {
                current: Some(task),
                need_resched: false,
                ..old(self)@
            }),
            final(tasks)@ == eevdf::with_sched(
                old(tasks)@,
                task.id,
                (TaskSchedInfo { last_cpu: old(self).cpu_id, ..old(tasks)@[task.id].sched }),
            ),
    {
        let t = tasks.write(task);
        t.sched.last_cpu = self.cpu_id;
        self.current = Some(task);
        self.need_resched = false;
    }

    /// Gives a fair task away to another CPU.
    pub fn steal_one(&mut self, tasks: &mut TaskTable) -> (r: Option<TaskRef>)
        requires
            old(self).wf(),
            old(tasks).wf(),
            old(self)@.valid(old(tasks)@),
        ensures
            final(self).wf(),
            final(tasks).wf(),
            match r {
                Some(t) => {
                    &&& old(self)@.fair.can_steal(old(tasks)@)
                    &&& t.id == old(self)@.fair.stolen_key(old(tasks)@).1
                    &&& old(tasks)@[t.id].sched.pinned_cpu is None
                    &&& old(tasks)@.contains_key(t.id)
                    &&& final(self)@.valid(final(tasks)@)
                    &&& final(self)@ == (PerCpuState {
                        fair: old(self)@.fair.after_steal(old(tasks)@),
                        load: counted_down(old(self)@.load),
                        stats: stats::stolen_from(old(self)@.stats),
                        ..old(self)@
                    })
                    &&& final(tasks)@ == eevdf::with_sched(
                        old(tasks)@,
                        t.id,
                        (TaskSchedInfo { on_rq: false, ..old(tasks)@[t.id].sched }),
                    )
                },
                None => !old(self)@.fair.can_steal(old(tasks)@) && final(self)@ == old(self)@
                    && final(tasks)@ == old(tasks)@,
            },
    {
        match self.cfs_rq.steal_one(tasks) {
            Some(task) => {
                self.load_count = self.load_count.wrapping_sub(1);
                self.stats.tasks_stolen_out = self.stats.tasks_stolen_out.wrapping_add(1);
                Some(task)
            },
            None => None,
        }
    }

    /// Approximate number of runnable tasks on this CPU.
    pub fn load(&self) -> (r: usize)
        ensures
            r == self@.load,
    {
        self.load_count
    }
}

} // verus!
