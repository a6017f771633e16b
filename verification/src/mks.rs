//! The Mai kernel scheduler.
//!
//! Every CPU has a run queue with one sub-queue per scheduling class. The
//! classes are served in strict order: deadline tasks, then real-time tasks,
//! then fair tasks, then the idle task. An idle CPU steals fair tasks from
//! other CPUs, nearest cache first.

pub mod deadline;
pub mod eevdf;
pub mod eevdf_laws;
pub mod laws;
pub mod plugin;
pub mod realtime;
pub mod runqueue;
pub mod stats;
pub mod topology;

use crate::task_struct;
use crate::task_struct::{WEIGHT, WMULT};
use crate::mks::runqueue::{PerCpuRunQueue, PerCpuState, SchedClassExt, SchedClassId};
use crate::mks::topology::CpuTopology;
use crate::task::{TaskRef, TaskTable};
use crate::task_struct::{RunState, Task, TaskSchedInfo};
use vstd::prelude::*;

verus! {

/// Maximum number of CPUs.
pub const MAX_CPUS: usize = 256;

/// Maximum number of NUMA nodes.
pub const MAX_NUMA_NODES: usize = 8;

/// Minimum scheduling granularity in nanoseconds.
pub const SCHED_MIN_GRANULARITY_NS: u64 = 750_000;

/// Target scheduling latency in nanoseconds.
pub const SCHED_LATENCY_NS: u64 = 6_000_000;

/// Wakeup granularity in nanoseconds.
pub const SCHED_WAKEUP_GRANULARITY_NS: u64 = 1_000_000;

/// Share of CPU time that deadline tasks may claim, as a numerator.
pub const SCHED_DL_BANDWIDTH_NUM: u64 = 95;

/// Share of CPU time that deadline tasks may claim, as a denominator.
pub const SCHED_DL_BANDWIDTH_DEN: u64 = 100;

/// Weight of each nice value from -20 to 19.
pub const NICE_TO_WEIGHT: [u32; 40] = WEIGHT;

/// Inverse weight of each nice value from -20 to 19.
pub const NICE_TO_WMULT: [u32; 40] = WMULT;

/// Converts a nice value to its index in the weight tables.
pub fn nice_to_idx(nice: i8) -> (r: usize)
    requires
        nice <= 107,
    ensures
        r == task_struct::nice_index(nice as int),
        r < 40,
{
    let shifted: i8 = nice + 20;
    if shifted < 0 {
        0
    } else if shifted > 39 {
        39
    } else {
        shifted as usize
    }
}

/// The weight of a nice value.
pub open spec fn nice_weight(nice: i8) -> u32 {
    NICE_TO_WEIGHT[task_struct::nice_index(nice as int)]
}

/// Looks up the weight of a nice value.
pub fn weight_for_nice(nice: i8) -> (r: u32)
    requires
        nice <= 107,
    ensures
        r == nice_weight(nice),
        15 <= r <= 88761,
{
    let r: u32 = NICE_TO_WEIGHT[nice_to_idx(nice)];
    proof {
        lemma_weight_bounds(nice);
    }
    r
}

/// All weights lie between those of nice 19 and nice -20.
pub proof fn lemma_weight_bounds(nice: i8)
    ensures
        15 <= nice_weight(nice) <= 88761,
{
    assert(forall|i: int| 0 <= i < 40 ==> 15 <= #[trigger] WEIGHT[i] <= 88761);
}

/// Whether tasks of a class stand in the fair queue.
fn is_fair_class(c: SchedClassId) -> (r: bool)
    ensures
        r == runqueue::is_fair(c),
{
    matches!(c, SchedClassId::Compute | SchedClassId::Normal | SchedClassId::Batch)
}

/// The smaller of two values.
pub open spec fn min_of(a: int, b: int) -> int {
    if a <= b {
        a
    } else {
        b
    }
}

/// The larger of two values.
pub open spec fn max_of(a: int, b: int) -> int {
    if a >= b {
        a
    } else {
        b
    }
}

/// `a - b`, or 0 where that is negative.
pub open spec fn monus(a: int, b: int) -> int {
    if a >= b {
        a - b
    } else {
        0
    }
}

/// The kernel scheduler: the run queues of all CPUs and their topology.
pub struct MaiScheduler {
    /// Run queues by logical CPU identifier.
    pub rqs: Vec<PerCpuRunQueue>,
    /// CPU topology.
    pub topology_rw: CpuTopology,
    /// Number of CPUs managed.
    pub num_cpus: usize,
    /// Approximate number of tasks.
    pub global_task_count: usize,
    /// Context switches performed.
    pub context_switches: u64,
}

/// What the scheduler holds.
#[verifier::ext_equal]
pub struct MksState {
    pub rqs: Seq<PerCpuState>,
    pub topology: CpuTopology,
    pub num_cpus: usize,
    pub global_task_count: usize,
    pub context_switches: u64,
}

/// Load of all CPUs together.
pub open spec fn total_load(rqs: Seq<PerCpuState>) -> int
    decreases rqs.len(),
{
    if rqs.len() == 0 {
        0
    } else {
        total_load(rqs.drop_last()) + rqs.last().load
    }
}

impl MksState {
    /// The scheduler as it is created for `n` CPUs.
    pub open spec fn fresh(n: int, topology: CpuTopology) -> MksState {
        MksState {
            rqs: Seq::new(n as nat, |i: int| PerCpuState::empty(i as usize)),
            topology,
            num_cpus: n as usize,
            global_task_count: 0,
            context_switches: 0,
        }
    }

    /// All entries of all queues refer to tasks of the table.
    pub open spec fn valid(self, tasks: Map<usize, Task>) -> bool {
        forall|i: int| 0 <= i < self.rqs.len() ==> (#[trigger] self.rqs[i]).valid(tasks)
    }

    /// Average load of a CPU.
    pub open spec fn average_load(self) -> int {
        if self.num_cpus == 0 {
            0
        } else {
            total_load(self.rqs) / self.num_cpus as int
        }
    }

    /// The CPU on which the task ran last is not overloaded.
    pub open spec fn keeps_last(self, s: TaskSchedInfo) -> bool {
        s.last_cpu < self.num_cpus && self.rqs[s.last_cpu as int].load <= self.average_load()
    }

    /// CPU `c` belongs to NUMA node `node`.
    pub open spec fn in_domain(self, node: usize, c: int) -> bool {
        0 <= c < self.num_cpus && self.topology.numa_of(c) == node
    }

    /// `c` is the first CPU with the smallest load on NUMA node `node`.
    pub open spec fn is_least_loaded(self, node: usize, c: int) -> bool {
        &&& self.in_domain(node, c)
        &&& forall|o: int| #[trigger]
            self.in_domain(node, o) ==> self.rqs[c].load <= self.rqs[o].load && (o < c
                ==> self.rqs[c].load < self.rqs[o].load)
    }

    /// The CPU on which a task with metadata `s` is placed: the one it is pinned
    /// to, else the one it ran on last if its load is not above average, else the
    /// least loaded one of that CPU's NUMA node.
    pub open spec fn selected(self, s: TaskSchedInfo) -> int {
        match s.pinned_cpu {
            Some(cpu) => min_of(cpu as int, monus(self.num_cpus as int, 1)),
            None => if self.keeps_last(s) {
                s.last_cpu as int
            } else {
                let node = self.topology.numa_of(s.last_cpu as int);
                if exists|c: int| self.in_domain(node, c) {
                    choose|c: int| self.is_least_loaded(node, c)
                } else {
                    0
                }
            },
        }
    }

    /// All sums that placing a task computes fit.
    pub open spec fn can_select(self, s: TaskSchedInfo) -> bool {
        s.pinned_cpu is None && s.last_cpu < self.num_cpus ==> total_load(self.rqs) <= usize::MAX
    }

    /// Everything that enqueueing task `id` needs.
    pub open spec fn can_enqueue(self, s: TaskSchedInfo, now_ns: u64) -> bool {
        &&& self.rqs.len() > 0
        &&& self.can_select(s)
        &&& self.rqs[self.selected(s)].can_enqueue(s, now_ns)
    }

    /// The scheduler after task `id` with metadata `s` was enqueued.
    pub open spec fn enqueue(self, id: usize, s: TaskSchedInfo, now_ns: u64) -> MksState {
        let c = self.selected(s);
        MksState {
            rqs: self.rqs.update(c, self.rqs[c].enqueue(id, s, now_ns)),
            global_task_count: runqueue::counted_up(self.global_task_count),
            ..self
        }
    }

    /// The scheduler after task `id` with metadata `s` was dequeued.
    pub open spec fn dequeue(self, id: usize, s: TaskSchedInfo) -> MksState {
        MksState {
            rqs: if s.last_cpu < self.num_cpus {
                self.rqs.update(
                    s.last_cpu as int,
                    self.rqs[s.last_cpu as int].dequeue(id, s),
                )
            } else {
                self.rqs
            },
            global_task_count: runqueue::counted_down(self.global_task_count),
            ..self
        }
    }

    /// CPU `thief` may take a task from CPU `v`.
    pub open spec fn can_steal_from(self, thief: int, v: int, tasks: Map<usize, Task>) -> bool {
        0 <= v < self.rqs.len() && v != thief && self.rqs[v].load >= 2
            && self.rqs[v].fair.can_steal(tasks)
    }

    /// Position `k` of the steal order names the first CPU to take a task from.
    pub open spec fn is_victim(
        self,
        thief: int,
        order: Seq<usize>,
        k: int,
        tasks: Map<usize, Task>,
    ) -> bool {
        &&& 0 <= k < order.len()
        &&& self.can_steal_from(thief, order[k] as int, tasks)
        &&& forall|j: int|
            0 <= j < k ==> !self.can_steal_from(thief, (#[trigger] order[j]) as int, tasks)
    }

    /// The order in which CPU `thief` looks at the others.
    pub open spec fn steal_order(self, thief: int) -> Seq<usize> {
        if 0 <= thief < self.topology.cpus().len() {
            self.topology.order(thief)
        } else {
            Seq::empty()
        }
    }

    /// There is a CPU to steal from.
    pub open spec fn has_victim(self, thief: int, tasks: Map<usize, Task>) -> bool {
        exists|k: int| self.is_victim(thief, self.steal_order(thief), k, tasks)
    }

    /// The CPU to steal from.
    pub open spec fn victim(self, thief: int, tasks: Map<usize, Task>) -> int {
        let order = self.steal_order(thief);
        order[choose|k: int| self.is_victim(thief, order, k, tasks)] as int
    }

    /// The scheduler after CPU `thief` has stolen a task.
    pub open spec fn after_steal(self, thief: int, tasks: Map<usize, Task>) -> MksState {
        let v = self.victim(thief, tasks);
        let robbed = self.rqs.update(
            v,
            PerCpuState {
                fair: self.rqs[v].fair.after_steal(tasks),
                load: runqueue::counted_down(self.rqs[v].load),
                stats: stats::stolen_from(self.rqs[v].stats),
                ..self.rqs[v]
            },
        );
        MksState {
            rqs: if 0 <= thief < self.rqs.len() {
                robbed.update(
                    thief,
                    PerCpuState {
                        load: runqueue::counted_up(robbed[thief].load),
                        stats: stats::stealing(robbed[thief].stats),
                        ..robbed[thief]
                    },
                )
            } else {
                robbed
            },
            ..self
        }
    }

    /// The task that a steal by CPU `thief` takes.
    pub open spec fn stolen(self, thief: int, tasks: Map<usize, Task>) -> TaskRef {
        TaskRef { id: self.rqs[self.victim(thief, tasks)].fair.stolen_key(tasks).1 as usize }
    }

    /// The scheduler after CPU `cpu` has picked among its own tasks at `now_ns`.
    pub open spec fn after_local_pick(
        self,
        tasks: Map<usize, Task>,
        cpu: int,
        now_ns: u64,
    ) -> MksState {
        MksState { rqs: self.rqs.update(cpu, self.rqs[cpu].after_pick(tasks, now_ns)), ..self }
    }

    /// The task that CPU `cpu` runs next: one of its own, else a stolen one,
    /// else its idle task.
    pub open spec fn picked(self, tasks: Map<usize, Task>, cpu: int, now_ns: u64) -> Option<
        TaskRef,
    > {
        let local = self.after_local_pick(tasks, cpu, now_ns);
        if self.rqs[cpu].picked(tasks, now_ns) is Some {
            self.rqs[cpu].picked(tasks, now_ns)
        } else if local.has_victim(cpu, tasks) {
            Some(local.stolen(cpu, tasks))
        } else {
            self.rqs[cpu].idle
        }
    }

    /// The scheduler after CPU `cpu` has picked.
    pub open spec fn after_pick(self, tasks: Map<usize, Task>, cpu: int, now_ns: u64) -> MksState {
        let local = self.after_local_pick(tasks, cpu, now_ns);
        if self.rqs[cpu].picked(tasks, now_ns) is None && local.has_victim(cpu, tasks) {
            local.after_steal(cpu, tasks)
        } else {
            local
        }
    }

    /// The pick takes a task out of a fair queue.
    pub open spec fn pick_unqueues(self, tasks: Map<usize, Task>, cpu: int, now_ns: u64) -> bool {
        self.rqs[cpu].picks_fair(tasks, now_ns) || (self.rqs[cpu].picked(tasks, now_ns) is None
            && self.after_local_pick(tasks, cpu, now_ns).has_victim(cpu, tasks))
    }

    /// The virtual runtime with which a task that slept is woken on CPU `cpu`.
    pub open spec fn wakeup_info(self, s: TaskSchedInfo, cpu: int) -> TaskSchedInfo {
        if 0 <= cpu < self.rqs.len() {
            TaskSchedInfo {
                vruntime: max_of(
                    s.vruntime as int,
                    monus(self.rqs[cpu].fair.min_vruntime as int, SCHED_LATENCY_NS as int / 2),
                ) as u64,
                ..s
            }
        } else {
            s
        }
    }

    /// A fair task with metadata `s` that was woken on CPU `c` preempts the fair
    /// task that runs there: its virtual deadline is earlier by more than the
    /// wakeup granularity.
    pub open spec fn preempts(self, s: TaskSchedInfo, tasks: Map<usize, Task>, c: int) -> bool {
        &&& runqueue::is_fair(runqueue::class_of(s.policy))
        &&& self.rqs[c].running(tasks) matches Some(t) && runqueue::is_fair(
            runqueue::class_of(tasks[t.id].sched.policy),
        ) && s.vdeadline + SCHED_WAKEUP_GRANULARITY_NS < tasks[t.id].sched.vdeadline
    }

    /// The scheduler after task `id`, which was enqueued on CPU `c`, asks for a
    /// reschedule there if it preempts the running task.
    pub open spec fn after_wakeup(self, id: usize, tasks: Map<usize, Task>, c: int) -> MksState {
        if self.preempts(tasks[id].sched, tasks, c) {
            MksState {
                rqs: self.rqs.update(c, PerCpuState { need_resched: true, ..self.rqs[c] }),
                ..self
            }
        } else {
            self
        }
    }
}

impl MksState {
    /// The scheduler after a switch at `now_ns` to a task with metadata `s` on CPU `cpu`
    /// was counted.
    pub open spec fn switched(self, cpu: int, s: TaskSchedInfo, now_ns: u64) -> MksState {
        MksState {
            context_switches: self.context_switches.wrapping_add(1),
            rqs: if 0 <= cpu < self.rqs.len() {
                self.rqs.update(
                    cpu,
                    PerCpuState {
                        stats: stats::switched(self.rqs[cpu].stats, s.wakeup_time_ns, now_ns),
                        ..self.rqs[cpu]
                    },
                )
            } else {
                self.rqs
            },
            ..self
        }
    }
}

impl View for MaiScheduler {
    type V = MksState;

    open spec fn view(&self) -> MksState {
        MksState {
            rqs: Seq::new(self.rqs@.len(), |i: int| self.rqs@[i]@),
            topology: self.topology_rw,
            num_cpus: self.num_cpus,
            global_task_count: self.global_task_count,
            context_switches: self.context_switches,
        }
    }
}

impl MaiScheduler {
    /// Every managed CPU has a run queue, which knows its CPU.
    pub open spec fn wf(&self) -> bool {
        &&& self.num_cpus <= self.rqs@.len()
        &&& self.topology_rw.wf()
        &&& forall|i: int|
            0 <= i < self.rqs@.len() ==> (#[trigger] self.rqs@[i]).wf() && self.rqs@[i].cpu_id == i
    }

    /// A scheduler with empty run queues for `num_cpus` CPUs.
    pub fn new(num_cpus: usize, topology: CpuTopology) -> (m: Self)
        requires
            topology.wf(),
        ensures
            m.wf(),
            m@ == MksState::fresh(num_cpus as int, topology),
    {
        let mut rqs: Vec<PerCpuRunQueue> = Vec::new();
        let mut cpu_id: usize = 0;
        while cpu_id < num_cpus
            invariant
                cpu_id <= num_cpus,
                rqs@.len() == cpu_id,
                forall|i: int|
                    0 <= i < cpu_id ==> (#[trigger] rqs@[i]).wf() && rqs@[i]@ == PerCpuState::empty(
                        i as usize,
                    ),
            decreases num_cpus - cpu_id,
        {
            rqs.push(PerCpuRunQueue::new(cpu_id));
            cpu_id += 1;
        }
        let m = MaiScheduler {
            rqs,
            topology_rw: topology,
            num_cpus,
            global_task_count: 0,
            context_switches: 0,
        };
        assert(m@.rqs =~= MksState::fresh(num_cpus as int, topology).rqs);
        m
    }

    /// Number of managed CPUs.
    fn cpu_count(&self) -> (r: usize)
        ensures
            r == self@.num_cpus,
    {
        self.num_cpus
    }

    /// Enqueues a task on the CPU that suits it best.
    pub fn enqueue(&mut self, tasks: &mut TaskTable, task: TaskRef, now_ns: u64)
        requires
            old(self).wf(),
            old(tasks).wf(),
            old(tasks)@.contains_key(task.id),
            old(self)@.can_enqueue(old(tasks)@[task.id].sched, now_ns),
        ensures
            final(self).wf(),
            final(tasks).wf(),
            old(self)@.valid(old(tasks)@) ==> final(self)@.valid(final(tasks)@),
            final(self)@ == old(self)@.enqueue(task.id, old(tasks)@[task.id].sched, now_ns),
            final(tasks)@ == eevdf::with_sched(
                old(tasks)@,
                task.id,
                old(self)@.rqs[old(self)@.selected(old(tasks)@[task.id].sched)].joined(
                    old(tasks)@[task.id].sched,
                ),
            ),
    {
        let ghost m = self@;
        let ghost s = tasks@[task.id].sched;
        let cpu_id: usize = self.select_cpu_for_task(tasks, task);
        assert(m.rqs[cpu_id as int] == self.rqs@[cpu_id as int]@);
        self.rqs[cpu_id].enqueue(tasks, task, now_ns);
        self.global_task_count = self.global_task_count.wrapping_add(1);
        assert(self@.rqs =~= m.enqueue(task.id, s, now_ns).rqs);
        proof {
            if m.valid(old(tasks)@) {
                assert forall|i: int| 0 <= i < self@.rqs.len() implies (#[trigger]
                    self@.rqs[i]).valid(tasks@) by {
                    assert(m.rqs[i].valid(old(tasks)@));
                    assert(self@.rqs[i] == self.rqs@[i]@);
                }
            }
        }
    }

    /// Dequeues a task from the CPU where it stands.
    pub fn dequeue(&mut self, tasks: &mut TaskTable, task: TaskRef)
        requires
            old(self).wf(),
            old(tasks).wf(),
            old(tasks)@.contains_key(task.id),
            old(self)@.valid(old(tasks)@),
        ensures
            final(self).wf(),
            final(tasks).wf(),
            old(self)@.valid(old(tasks)@) ==> final(self)@.valid(final(tasks)@),
            final(self)@ == old(self)@.dequeue(task.id, old(tasks)@[task.id].sched),
            final(tasks)@ == eevdf::with_sched(
                old(tasks)@,
                task.id,
                if old(tasks)@[task.id].sched.last_cpu < old(self)@.num_cpus {
                    PerCpuState::left(old(tasks)@[task.id].sched)
                } else {
                    old(tasks)@[task.id].sched
                },
            ),
    {
        let ghost m = self@;
        let ghost s = tasks@[task.id].sched;
        let ghost t0 = tasks@;
        assert(t0 =~= eevdf::with_sched(t0, task.id, s));
        let cpu_id: usize = tasks.read(task).sched.last_cpu;
        let nc: usize = self.cpu_count();
        if cpu_id < nc {
            assert(m.rqs[cpu_id as int] == self.rqs@[cpu_id as int]@);
            assert(m.rqs[cpu_id as int].valid(t0));
            self.rqs[cpu_id].dequeue(tasks, task);
        }
        self.global_task_count = self.global_task_count.wrapping_sub(1);
        assert(self@.rqs =~= m.dequeue(task.id, s).rqs);
        proof {
            if m.valid(old(tasks)@) {
                assert forall|i: int| 0 <= i < self@.rqs.len() implies (#[trigger]
                    self@.rqs[i]).valid(tasks@) by {
                    assert(m.rqs[i].valid(old(tasks)@));
                    assert(self@.rqs[i] == self.rqs@[i]@);
                }
            }
        }
    }

    /// Picks the next task to run on CPU `cpu_id` at `now_ns`.
    pub fn pick_next(&mut self, tasks: &mut TaskTable, cpu_id: usize, now_ns: u64) -> (r: Option<
        TaskRef,
    >)
        requires
            old(self).wf(),
            old(tasks).wf(),
            old(self)@.valid(old(tasks)@),
            cpu_id < old(self)@.rqs.len(),
        ensures
            final(self).wf(),
            final(tasks).wf(),
            r == old(self)@.picked(old(tasks)@, cpu_id as int, now_ns),
            r matches Some(t) ==> old(tasks)@.contains_key(t.id),
            final(self)@ == old(self)@.after_pick(old(tasks)@, cpu_id as int, now_ns),
            final(self)@.valid(final(tasks)@),
            final(tasks)@ == if old(self)@.pick_unqueues(old(tasks)@, cpu_id as int, now_ns) {
                eevdf::with_sched(
                    old(tasks)@,
                    r->Some_0.id,
                    (TaskSchedInfo { on_rq: false, ..old(tasks)@[r->Some_0.id].sched }),
                )
            } else {
                old(tasks)@
            },
    {
        let ghost m = self@;
        let ghost t0 = tasks@;
        assert(m.rqs[cpu_id as int] == self.rqs@[cpu_id as int]@);
        assert(m.rqs[cpu_id as int].valid(t0));
        let local = self.rqs[cpu_id].pick_next(tasks, now_ns);
        let ghost l = self@;
        assert(l.rqs =~= m.after_local_pick(t0, cpu_id as int, now_ns).rqs);
        assert(l =~= m.after_local_pick(t0, cpu_id as int, now_ns));
        if let Some(t) = local {
            proof {
                assert forall|i: int| 0 <= i < l.rqs.len() implies (#[trigger] l.rqs[i]).valid(
                    tasks@,
                ) by {
                    assert(m.rqs[i].valid(t0));
                    assert(l.rqs[i] == self.rqs@[i]@);
                }
            }
            return Some(t);
        }
        proof {
            assert forall|i: int| 0 <= i < l.rqs.len() implies (#[trigger] l.rqs[i]).valid(t0) by {
                assert(m.rqs[i].valid(t0));
                assert(l.rqs[i] == self.rqs@[i]@);
            }
        }
        if let Some(t) = self.steal_task(tasks, cpu_id) {
            return Some(t);
        }
        assert(self.rqs@[cpu_id as int]@ == l.rqs[cpu_id as int]);
        self.rqs[cpu_id].idle_rq.pick_next()
    }

    /// A task has been woken on CPU `cpu_id`: it becomes runnable, its virtual
    /// runtime is lifted near the clock of that CPU, and it is enqueued.
    pub fn task_wakeup(&mut self, tasks: &mut TaskTable, task: TaskRef, cpu_id: usize, now_ns: u64)
        requires
            old(self).wf(),
            old(tasks).wf(),
            old(tasks)@.contains_key(task.id),
            old(self)@.valid(old(tasks)@),
            old(self)@.can_enqueue(
                old(self)@.wakeup_info(old(tasks)@[task.id].sched, cpu_id as int),
                now_ns,
            ),
        ensures
            final(self).wf(),
            final(tasks).wf(),
            old(self)@.valid(old(tasks)@) ==> final(self)@.valid(final(tasks)@),
            ({
                let s = old(self)@.wakeup_info(old(tasks)@[task.id].sched, cpu_id as int);
                &&& final(self)@ == old(self)@.enqueue(task.id, s, now_ns).after_wakeup(
                    task.id,
                    final(tasks)@,
                    old(self)@.selected(s),
                )
                &&& final(tasks)@ == old(tasks)@.insert(
                    task.id,
                    Task {
                        runstate: RunState::Runnable,
                        sched: old(self)@.rqs[old(self)@.selected(s)].joined(s),
                        ..old(tasks)@[task.id]
                    },
                )
            }),
    {
        let ghost m = self@;
        let ghost t0 = tasks@;
        let t = tasks.write(task);
        t.runstate = RunState::Runnable;
        if cpu_id < self.rqs.len() {
            assert(m.rqs[cpu_id as int] == self.rqs@[cpu_id as int]@);
            let min_vrt: u64 = self.rqs[cpu_id].cfs_rq.clock();
            let floor: u64 = min_vrt.saturating_sub(SCHED_LATENCY_NS / 2);
            if t.sched.vruntime < floor {
                t.sched.vruntime = floor;
            }
        }
        assert(tasks@[task.id].sched == m.wakeup_info(t0[task.id].sched, cpu_id as int));
        let ghost s = tasks@[task.id].sched;
        let target: usize = self.select_cpu_for_task(tasks, task);
        assert(target == m.selected(s) && target < m.rqs.len());
        self.enqueue(tasks, task, now_ns);
        assert(self@.rqs.len() == m.rqs.len());
        assert(tasks@ =~= t0.insert(task.id, tasks@[task.id]));
        let ghost e = self@;
        assert(e.rqs[target as int] == self.rqs@[target as int]@);
        assert(m.rqs[target as int].valid(t0));
        if let Some(running) = self.rqs[target].current_in(tasks) {
            let woken: TaskSchedInfo = tasks.read(task).sched;
            let current: TaskSchedInfo = tasks.read(running).sched;
            if is_fair_class(woken.policy.class()) && is_fair_class(current.policy.class())
                && current.vdeadline > SCHED_WAKEUP_GRANULARITY_NS && woken.vdeadline
                < current.vdeadline - SCHED_WAKEUP_GRANULARITY_NS {
                self.rqs[target].need_resched = true;
            }
        }
        assert(self@.rqs =~= e.after_wakeup(task.id, tasks@, target as int).rqs);
        proof {
            if m.valid(old(tasks)@) {
                assert forall|i: int| 0 <= i < self@.rqs.len() implies (#[trigger]
                    self@.rqs[i]).valid(tasks@) by {
                    assert(m.rqs[i].valid(old(tasks)@));
                    assert(self@.rqs[i] == self.rqs@[i]@);
                }
            }
        }
    }

    /// Timer tick on CPU `cpu_id`. CPUs that are not managed ignore it.
    pub fn tick(&mut self, tasks: &mut TaskTable, cpu_id: usize, elapsed_ns: u64)
        requires
            old(self).wf(),
            old(tasks).wf(),
            old(self)@.valid(old(tasks)@),
            cpu_id < old(self)@.rqs.len() ==> old(self)@.rqs[cpu_id as int].can_tick(
                old(tasks)@,
                elapsed_ns,
            ),
        ensures
            final(self).wf(),
            final(tasks).wf(),
            old(self)@.valid(old(tasks)@) ==> final(self)@.valid(final(tasks)@),
            if cpu_id < old(self)@.rqs.len() && old(self)@.rqs[cpu_id as int].running(
                old(tasks)@,
            ) is Some {
                let t = old(self)@.rqs[cpu_id as int].running(old(tasks)@)->Some_0;
                let s = old(tasks)@[t.id].sched;
                &&& final(self)@ == (MksState {
                    rqs: old(self)@.rqs.update(
                        cpu_id as int,
                        old(self)@.rqs[cpu_id as int].tick(t.id, s, elapsed_ns),
                    ),
                    ..old(self)@
                })
                &&& final(tasks)@ == eevdf::with_sched(
                    old(tasks)@,
                    t.id,
                    PerCpuState::ticked_info(s, elapsed_ns),
                )
            } else {
                &&& final(self)@ == if cpu_id < old(self)@.rqs.len() {
                    MksState {
                        rqs: old(self)@.rqs.update(
                            cpu_id as int,
                            old(self)@.rqs[cpu_id as int].idle_tick(elapsed_ns),
                        ),
                        ..old(self)@
                    }
                } else {
                    old(self)@
                }
                &&& final(tasks)@ == old(tasks)@
            },
    {
        let ghost m = self@;
        if cpu_id < self.rqs.len() {
            assert(m.rqs[cpu_id as int] == self.rqs@[cpu_id as int]@);
            assert(m.rqs[cpu_id as int].valid(tasks@));
            self.rqs[cpu_id].tick(tasks, elapsed_ns);
            proof {
                if m.rqs[cpu_id as int].running(old(tasks)@) is Some {
                    let t = m.rqs[cpu_id as int].running(old(tasks)@)->Some_0;
                    assert(self@.rqs =~= m.rqs.update(
                        cpu_id as int,
                        m.rqs[cpu_id as int].tick(t.id, old(tasks)@[t.id].sched, elapsed_ns),
                    ));
                } else {
                    assert(self@.rqs =~= m.rqs.update(
                        cpu_id as int,
                        m.rqs[cpu_id as int].idle_tick(elapsed_ns),
                    ));
                }
            }
        }
        proof {
            if m.valid(old(tasks)@) {
                assert forall|i: int| 0 <= i < self@.rqs.len() implies (#[trigger]
                    self@.rqs[i]).valid(tasks@) by {
                    assert(m.rqs[i].valid(old(tasks)@));
                    assert(self@.rqs[i] == self.rqs@[i]@);
                }
            }
        }
    }

    /// Selects the CPU on which to place a task.
    pub fn select_cpu_for_task(&self, tasks: &TaskTable, task: TaskRef) -> (r: usize)
        requires
            self.wf(),
            tasks.wf(),
            tasks@.contains_key(task.id),
            self@.can_select(tasks@[task.id].sched),
        ensures
            r == self@.selected(tasks@[task.id].sched),
            self@.num_cpus > 0 ==> r < self@.num_cpus,
            self@.num_cpus == 0 ==> r == 0,
    {
        let ghost m = self@;
        let s: TaskSchedInfo = tasks.read(task).sched;
        let nc: usize = self.cpu_count();
        if let Some(cpu) = s.pinned_cpu {
            let last: usize = nc.saturating_sub(1);
            return if cpu <= last {
                cpu
            } else {
                last
            };
        }
        let last_cpu: usize = s.last_cpu;
        if last_cpu < nc {
            assert(m.rqs[last_cpu as int] == self.rqs@[last_cpu as int]@);
            let last_load: usize = self.rqs[last_cpu].load();
            let avg_load: usize = self.average_load();
            if last_load <= avg_load {
                return last_cpu;
            }
        }
        let preferred_node: usize = self.topology_rw.cpu_to_numa(last_cpu);
        let mut best: Option<usize> = None;
        let mut cpu: usize = 0;
        while cpu < nc
            invariant
                self.wf(),
                m == self@,
                nc == m.num_cpus,
                cpu <= nc,
                best is None ==> forall|o: int| 0 <= o < cpu ==> !m.in_domain(preferred_node, o),
                best matches Some(b) ==> {
                    &&& b < cpu
                    &&& m.in_domain(preferred_node, b as int)
                    &&& forall|o: int| #[trigger]
                        m.in_domain(preferred_node, o) && o < cpu ==> m.rqs[b as int].load
                            <= m.rqs[o].load && (o < b ==> m.rqs[b as int].load < m.rqs[o].load)
                },
            decreases nc - cpu,
        {
            assert(m.rqs[cpu as int] == self.rqs@[cpu as int]@);
            if self.topology_rw.cpu_to_numa(cpu) == preferred_node {
                assert(m.in_domain(preferred_node, cpu as int));
                let load: usize = self.rqs[cpu].load();
                let better = match best {
                    Some(b) => {
                        assert(m.rqs[b as int] == self.rqs@[b as int]@);
                        load < self.rqs[b].load()
                    },
                    None => true,
                };
                if better {
                    best = Some(cpu);
                }
            }
            cpu += 1;
        }
        match best {
            Some(b) => {
                proof {
                    assert(m.is_least_loaded(preferred_node, b as int));
                    let c = choose|c: int| m.is_least_loaded(preferred_node, c);
                    assert(m.in_domain(preferred_node, c));
                    assert(c == b);
                }
                b
            },
            None => 0,
        }
    }

    /// Steals a fair task for CPU `thief_cpu` from the nearest CPU that has at
    /// least two tasks.
    fn steal_task(&mut self, tasks: &mut TaskTable, thief_cpu: usize) -> (r: Option<TaskRef>)
        requires
            old(self).wf(),
            old(tasks).wf(),
            old(self)@.valid(old(tasks)@),
        ensures
            final(self).wf(),
            final(tasks).wf(),
            match r {
                Some(t) => {
                    &&& old(self)@.has_victim(thief_cpu as int, old(tasks)@)
                    &&& t == old(self)@.stolen(thief_cpu as int, old(tasks)@)
                    &&& old(tasks)@.contains_key(t.id)
                    &&& final(self)@ == old(self)@.after_steal(thief_cpu as int, old(tasks)@)
                    &&& final(self)@.valid(final(tasks)@)
                    &&& final(tasks)@ == eevdf::with_sched(
                        old(tasks)@,
                        t.id,
                        (TaskSchedInfo { on_rq: false, ..old(tasks)@[t.id].sched }),
                    )
                },
                None => !old(self)@.has_victim(thief_cpu as int, old(tasks)@) && final(self)@ == old(self)@
                    && final(tasks)@ == old(tasks)@,
            },
    {
        let ghost m = self@;
        let ghost t0 = tasks@;
        let ghost order = m.steal_order(thief_cpu as int);
        let count: usize = self.topology_rw.steal_order(thief_cpu).len();
        assert(count == order.len());
        let mut i: usize = 0;
        while i < count
            invariant
                self.wf(),
                tasks.wf(),
                self@ == m,
                m == old(self)@,
                tasks@ == t0,
                t0 == old(tasks)@,
                m.valid(t0),
                order == m.steal_order(thief_cpu as int),
                count == order.len(),
                i <= count,
                forall|j: int|
                    0 <= j < i ==> !m.can_steal_from(
                        thief_cpu as int,
                        (#[trigger] order[j]) as int,
                        t0,
                    ),
            decreases count - i,
        {
            let victim_cpu: usize = self.topology_rw.steal_order(thief_cpu)[i];
            assert(victim_cpu == order[i as int]);
            if victim_cpu != thief_cpu && victim_cpu < self.rqs.len() {
                assert(m.rqs[victim_cpu as int] == self.rqs@[victim_cpu as int]@);
                assert(m.rqs[victim_cpu as int].valid(t0));
                if self.rqs[victim_cpu].load() >= 2 {
                    if let Some(task) = self.rqs[victim_cpu].steal_one(tasks) {
                        if thief_cpu < self.rqs.len() {
                            let stolen: u64 = self.rqs[thief_cpu].stats.tasks_stolen_in;
                            self.rqs[thief_cpu].stats.tasks_stolen_in = stolen.wrapping_add(1);
                            let load: usize = self.rqs[thief_cpu].load_count;
                            self.rqs[thief_cpu].load_count = load.wrapping_add(1);
                        }
                        proof {
                            assert(m.is_victim(thief_cpu as int, order, i as int, t0));
                            let k = choose|k: int| m.is_victim(thief_cpu as int, order, k, t0);
                            assert(k == i) by {
                                if k < i {
                                    assert(!m.can_steal_from(thief_cpu as int, order[k] as int, t0));
                                } else if i < k {
                                    assert(!m.can_steal_from(
                                        thief_cpu as int,
                                        order[i as int] as int,
                                        t0,
                                    ));
                                }
                            }
                            assert(self@.rqs =~= m.after_steal(thief_cpu as int, t0).rqs);
                            assert forall|i: int| 0 <= i < self@.rqs.len() implies (#[trigger]
                                self@.rqs[i]).valid(tasks@) by {
                                assert(m.rqs[i].valid(t0));
                                assert(self@.rqs[i] == self.rqs@[i]@);
                            }
                        }
                        return Some(task);
                    }
                    assert(self@.rqs =~= m.rqs);
                }
            }
            i += 1;
        }
        None
    }

    /// Average load of a CPU.
    pub fn average_load(&self) -> (r: usize)
        requires
            self.wf(),
            total_load(self@.rqs) <= usize::MAX,
        ensures
            r == self@.average_load(),
    {
        let nc: usize = self.cpu_count();
        if nc == 0 {
            return 0;
        }
        let ghost rqs = self@.rqs;
        let mut total: usize = 0;
        let mut i: usize = 0;
        while i < self.rqs.len()
            invariant
                rqs == self@.rqs,
                i <= self.rqs@.len(),
                total == total_load(rqs.take(i as int)),
                total_load(rqs) <= usize::MAX,
            decreases self.rqs@.len() - i,
        {
            proof {
                let longer = rqs.take(i + 1);
                assert(longer.drop_last() =~= rqs.take(i as int));
                assert(longer.last() == self.rqs@[i as int]@);
                lemma_total_load_prefix(rqs, i + 1);
            }
            total = total + self.rqs[i].load();
            i += 1;
        }
        assert(rqs.take(rqs.len() as int) =~= rqs);
        total / nc
    }

    /// Records a switch to `to` on CPU `cpu_id`.
    pub fn record_context_switch(&mut self, cpu_id: usize, to: &Task, now_ns: u64)
        requires
            old(self).wf(),
        ensures
            final(self).wf(),
            final(self)@ == old(self)@.switched(cpu_id as int, to.sched, now_ns),
    {
        let ghost m = self@;
        self.context_switches = self.context_switches.wrapping_add(1);
        if cpu_id < self.rqs.len() {
            assert(m.rqs[cpu_id as int] == self.rqs@[cpu_id as int]@);
            self.rqs[cpu_id].stats.record_switch(to, now_ns);
            assert(self@.rqs =~= m.rqs.update(
                cpu_id as int,
                PerCpuState {
                    stats: stats::switched(
                        m.rqs[cpu_id as int].stats,
                        to.sched.wakeup_time_ns,
                        now_ns,
                    ),
                    ..m.rqs[cpu_id as int]
                },
            ));
        }
    }
}

/// Leaving CPUs out does not raise the total load.
proof fn lemma_total_load_prefix(rqs: Seq<PerCpuState>, n: int)
    requires
        0 <= n <= rqs.len(),
    ensures
        0 <= total_load(rqs.take(n)) <= total_load(rqs),
    decreases rqs.len(),
{
    lemma_total_load_nonnegative(rqs.take(n));
    if n < rqs.len() {
        lemma_total_load_prefix(rqs.drop_last(), n);
        assert(rqs.drop_last().take(n) =~= rqs.take(n));
    } else {
        assert(rqs.take(n) =~= rqs);
    }
}

proof fn lemma_total_load_nonnegative(rqs: Seq<PerCpuState>)
    ensures
        0 <= total_load(rqs),
    decreases rqs.len(),
{
    if rqs.len() > 0 {
        lemma_total_load_nonnegative(rqs.drop_last());
    }
}

/// Sets the scheduler up, unless that has been done before.
pub fn init(slot: &mut Option<MaiScheduler>, num_cpus: usize, topology: CpuTopology)
    requires
        topology.wf(),
    ensures
        *old(slot) is Some ==> *final(slot) == *old(slot),
        *old(slot) is None ==> *final(slot) is Some && final(slot)->Some_0.wf()
            && final(slot)->Some_0@ == MksState::fresh(num_cpus as int, topology),
{
    if slot.is_none() {
        *slot = Some(MaiScheduler::new(num_cpus, topology));
    }
}

/// Expands the scheduler to `num_cpus` CPUs with a new topology. Run queues that
/// exist stay as they are.
pub fn expand(sched: &mut MaiScheduler, num_cpus: usize, topology: CpuTopology)
    requires
        old(sched).wf(),
        topology.wf(),
    ensures
        final(sched).wf(),
        final(sched)@ == (MksState {
            rqs: old(sched)@.rqs + Seq::new(
                monus(num_cpus as int, old(sched)@.rqs.len() as int) as nat,
                |i: int| PerCpuState::empty((old(sched)@.rqs.len() + i) as usize),
            ),
            topology,
            num_cpus,
            ..old(sched)@
        }),
{
    let ghost m = sched@;
    let old_count: usize = sched.rqs.len();
    let mut cpu_id: usize = old_count;
    while cpu_id < num_cpus
        invariant
            old_count <= cpu_id,
            cpu_id <= num_cpus || cpu_id == old_count,
            m == old(sched)@,
            m.rqs.len() == old_count,
            sched.rqs@.len() == cpu_id,
            sched.topology_rw == m.topology,
            sched.num_cpus == m.num_cpus,
            sched.global_task_count == m.global_task_count,
            sched.context_switches == m.context_switches,
            forall|i: int|
                0 <= i < cpu_id ==> (#[trigger] sched.rqs@[i]).wf() && sched.rqs@[i].cpu_id == i,
            forall|i: int| 0 <= i < old_count ==> (#[trigger] sched.rqs@[i])@ == m.rqs[i],
            forall|i: int|
                old_count <= i < cpu_id ==> (#[trigger] sched.rqs@[i])@ == PerCpuState::empty(
                    i as usize,
                ),
        decreases num_cpus - cpu_id,
    {
        sched.rqs.push(PerCpuRunQueue::new(cpu_id));
        cpu_id += 1;
    }
    sched.topology_rw = topology;
    sched.num_cpus = num_cpus;
    assert(sched@.rqs =~= m.rqs + Seq::new(
        monus(num_cpus as int, m.rqs.len() as int) as nat,
        |i: int| PerCpuState::empty((m.rqs.len() + i) as usize),
    ));
}

/// The scheduler, which has to be set up.
pub fn get(slot: &Option<MaiScheduler>) -> (r: &MaiScheduler)
    requires
        *slot is Some,
    ensures
        *r == slot->Some_0,
{
    slot.as_ref().unwrap()
}

} // verus!
