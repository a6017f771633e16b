//! Entry points of the rest of the kernel into the scheduler: priorities,
//! initialisation, and the accounting of the timer tick.

use crate::mks::eevdf;
use crate::mks;
use crate::task_struct;
use crate::mks::runqueue::PerCpuState;
use crate::mks::stats::CpuStats;
use crate::mks::topology::CpuTopology;
use crate::mks::{expand, init as init_mks, MaiScheduler, MksState};
use crate::task::scheduler::{register_put_prev, BackendState, SchedulerBackend};
use crate::task::{TaskRef, TaskTable};
use crate::task_struct::{Task, TaskSchedInfo};
use vstd::prelude::*;

verus! {

/// Sets the nice value of the current task, clamped to [-20, 19].
pub fn set_priority(tasks: &mut TaskTable, current: Option<TaskRef>, nice: i8)
    requires
        old(tasks).wf(),
        current matches Some(c) ==> old(tasks)@.contains_key(c.id),
    ensures
        final(tasks).wf(),
        final(tasks)@ == match current {
            Some(c) => eevdf::with_sched(
                old(tasks)@,
                c.id,
                task_struct::reweighted(old(tasks)@[c.id].sched, (task_struct::nice_index(nice as int) - 20) as i8),
            ),
            None => old(tasks)@,
        },
{
    if let Some(c) = current {
        let t = tasks.write(c);
        t.set_nice(nice);
    }
}

/// The nice value of the current task, or 0 without one.
pub fn priority(tasks: &TaskTable, current: Option<TaskRef>) -> (r: i8)
    requires
        tasks.wf(),
        current matches Some(c) ==> tasks@.contains_key(c.id),
    ensures
        r == match current {
            Some(c) => tasks@[c.id].sched.nice,
            None => 0,
        },
{
    match current {
        Some(c) => tasks.read(c).sched.nice,
        None => 0,
    }
}

/// Gives a child task the nice value and policy of its parent.
pub fn inherit_priority(tasks: &mut TaskTable, child: TaskRef, parent: TaskRef)
    requires
        old(tasks).wf(),
        old(tasks)@.contains_key(child.id),
        old(tasks)@.contains_key(parent.id),
        old(tasks)@[parent.id].sched.nice <= 107,
    ensures
        final(tasks).wf(),
        final(tasks)@ == eevdf::with_sched(
            old(tasks)@,
            child.id,
            task_struct::reweighted(
                (TaskSchedInfo {
                    policy: old(tasks)@[parent.id].sched.policy,
                    ..old(tasks)@[child.id].sched
                }),
                old(tasks)@[parent.id].sched.nice,
            ),
        ),
{
    let parent_info: TaskSchedInfo = tasks.read(parent).sched;
    let t = tasks.write(child);
    t.sched.nice = parent_info.nice;
    t.sched.policy = parent_info.policy;
    t.update_weight();
}

/// Sets the scheduler up for `num_cpus` CPUs, unless that has been done before,
/// and makes it the backend, which takes tasks back after they have run.
pub fn init(backend: &mut SchedulerBackend, num_cpus: usize, topology: CpuTopology)
    requires
        old(backend).wf(),
        topology.wf(),
    ensures
        final(backend).wf(),
        final(backend)@ == (BackendState {
            mks: match old(backend)@.mks {
                Some(m) => Some(m),
                None => Some(MksState::fresh(num_cpus as int, topology)),
            },
            takes_back: true,
        }),
{
    init_mks(&mut backend.mks, num_cpus, topology);
    register_put_prev(backend);
}

/// Expands the scheduler to all CPUs once they are online.
pub fn expand_to_all_cpus(backend: &mut SchedulerBackend, num_cpus: usize, topology: CpuTopology) -> (r:
    Result<(), &'static str>)
    requires
        old(backend).wf(),
        old(backend)@.mks is Some,
        topology.wf(),
    ensures
        r is Ok,
        final(backend).wf(),
        ({
            let m = old(backend)@.mks->Some_0;
            final(backend)@ == old(backend)@.with(
                (MksState {
                    rqs: m.rqs + Seq::new(
                        mks::monus(num_cpus as int, m.rqs.len() as int) as nat,
                        |i: int| PerCpuState::empty((m.rqs.len() + i) as usize),
                    ),
                    topology,
                    num_cpus,
                    ..m
                }),
            )
        }),
{
    if let Some(m) = backend.mks.as_mut() {
        expand(m, num_cpus, topology);
    }
    Ok(())
}

/// Sets the scheduler up for a single CPU.
pub fn init_single_cpu(backend: &mut SchedulerBackend)
    requires
        old(backend).wf(),
    ensures
        final(backend).wf(),
        final(backend)@.takes_back,
        old(backend)@.mks is Some ==> final(backend)@.mks == old(backend)@.mks,
        old(backend)@.mks is None ==> exists|t: CpuTopology|
            t.cpus().len() == 1 && final(backend)@.mks == Some(#[trigger] MksState::fresh(1, t)),
{
    let topology = CpuTopology::uniform(1);
    let ghost t = topology;
    assert(t.cpus().len() == 1);
    init(backend, 1, topology);
}

/// Conversion of time stamp counter readings of one CPU to elapsed time.
#[derive(Clone, Copy, Debug, PartialEq, Eq, Structural)]
pub struct TscClock {
    /// Reading at the last tick; 0 before the first.
    pub last_tick_tsc: u64,
    /// Counter ticks per nanosecond.
    pub ticks_per_ns: u64,
}

impl TscClock {
    /// A clock for a counter of about 3 GHz.
    pub fn new() -> (c: Self)
        ensures
            c == (TscClock { last_tick_tsc: 0, ticks_per_ns: 3 }),
    {
        TscClock { last_tick_tsc: 0, ticks_per_ns: 3 }
    }

    /// Nanoseconds since the last tick; the first tick counts as a millisecond.
    pub fn elapsed_ns_tsc(&mut self, now: u64) -> (r: u64)
        ensures
            *final(self) == (TscClock { last_tick_tsc: now, ..*old(self) }),
            r == if old(self).last_tick_tsc == 0 {
                1_000_000
            } else {
                mks::monus(now as int, old(self).last_tick_tsc as int) / (if old(self).ticks_per_ns
                    == 0 {
                    1int
                } else {
                    old(self).ticks_per_ns as int
                })
            },
    {
        let prev: u64 = self.last_tick_tsc;
        self.last_tick_tsc = now;
        if prev == 0 {
            return 1_000_000;
        }
        let delta: u64 = now.saturating_sub(prev);
        let divisor: u64 = if self.ticks_per_ns == 0 {
            1
        } else {
            self.ticks_per_ns
        };
        delta / divisor
    }

    /// Calibrates the clock with the number of counter ticks in a millisecond.
    pub fn calibrate_tsc(&mut self, tsc_delta_per_ms: u64)
        ensures
            *final(self) == (TscClock {
                ticks_per_ns: if tsc_delta_per_ms == 0 {
                    old(self).ticks_per_ns
                } else if tsc_delta_per_ms < 1_000_000 {
                    1
                } else {
                    tsc_delta_per_ms / 1_000_000
                },
                ..*old(self)
            }),
    {
        if tsc_delta_per_ms > 0 {
            let ticks: u64 = tsc_delta_per_ms / 1_000_000;
            self.ticks_per_ns = if ticks == 0 {
                1
            } else {
                ticks
            };
        }
    }
}

/// What is left to do after the accounting of a timer tick.
#[derive(Clone, Copy, Debug, PartialEq, Eq, Structural)]
pub struct TickPlan {
    /// The audio hardware is served, on the first CPU only.
    pub pump_audio: bool,
    /// Another task is to be picked.
    pub reschedule: bool,
}

/// The scheduler after a timer tick on CPU `cpu`.
pub open spec fn ticked_backend(
    b: BackendState,
    tasks: Map<usize, Task>,
    cpu: int,
    elapsed_ns: u64,
) -> BackendState {
    if b.has_cpu(cpu) && b.rq(cpu).running(tasks) is Some {
        let t = b.rq(cpu).running(tasks)->Some_0;
        b.with_rq(cpu, b.rq(cpu).tick(t.id, tasks[t.id].sched, elapsed_ns))
    } else if b.has_cpu(cpu) {
        b.with_rq(cpu, b.rq(cpu).idle_tick(elapsed_ns))
    } else {
        b
    }
}

/// The task table after a timer tick on CPU `cpu`: the task that runs there is charged.
pub open spec fn ticked_tasks(
    b: BackendState,
    tasks: Map<usize, Task>,
    cpu: int,
    elapsed_ns: u64,
) -> Map<usize, Task> {
    if b.has_cpu(cpu) && b.rq(cpu).running(tasks) is Some {
        let t = b.rq(cpu).running(tasks)->Some_0;
        eevdf::with_sched(
            tasks,
            t.id,
            PerCpuState::ticked_info(tasks[t.id].sched, elapsed_ns),
        )
    } else {
        tasks
    }
}

/// Accounts a timer tick on CPU `cpu_id` and says what is left to do.
pub fn timer_tick(
    backend: &mut SchedulerBackend,
    tasks: &mut TaskTable,
    cpu_id: usize,
    elapsed_ns: u64,
) -> (r: TickPlan)
    requires
        old(backend).wf(),
        old(tasks).wf(),
        old(backend)@.valid(old(tasks)@),
        old(backend)@.has_cpu(cpu_id as int) ==> old(backend)@.rq(cpu_id as int).can_tick(
            old(tasks)@,
            elapsed_ns,
        ),
    ensures
        final(backend).wf(),
        final(tasks).wf(),
        final(backend)@.valid(final(tasks)@),
        final(backend)@ == ticked_backend(
            old(backend)@,
            old(tasks)@,
            cpu_id as int,
            elapsed_ns,
        ),
        r.pump_audio == (cpu_id == 0),
        r.reschedule == (final(backend)@.has_cpu(cpu_id as int) && final(backend)@.rq(
            cpu_id as int,
        ).need_resched),
        final(tasks)@ == ticked_tasks(
            old(backend)@,
            old(tasks)@,
            cpu_id as int,
            elapsed_ns,
        ),
{
    let mut reschedule = false;
    if let Some(m) = backend.mks.as_mut() {
        m.tick(tasks, cpu_id, elapsed_ns);
        if cpu_id < m.rqs.len() {
            reschedule = m.rqs[cpu_id].need_resched;
        }
    }
    TickPlan { pump_audio: cpu_id == 0, reschedule }
}

/// Counter ticks in a timeslice, for a timer with the given period.
pub fn get_timeslice_ticks(timeslice_us: u32, timer_period_fs: u64) -> (r: u64)
    requires
        timer_period_fs != 0,
    ensures
        r == (timeslice_us * 1_000_000_000) / timer_period_fs as int,
{
    let femtosecs: u64 = (timeslice_us as u64) * 1_000_000_000;
    femtosecs / timer_period_fs
}

/// Nanoseconds in a timeslice.
pub fn get_timeslice_period_ns(timeslice_us: u32) -> (r: u64)
    ensures
        r == timeslice_us * 1_000,
{
    (timeslice_us as u64) * 1_000
}

/// The statistics of every managed CPU, with latencies in microseconds.
pub fn dump_stats(sched: &MaiScheduler) -> (r: Vec<CpuStats>)
    requires
        sched.wf(),
    ensures
        r@ == Seq::new(sched@.num_cpus as nat, |i: int| reported(sched@.rqs[i].stats)),
{
    let mut r: Vec<CpuStats> = Vec::new();
    let mut cpu_id: usize = 0;
    while cpu_id < sched.num_cpus
        invariant
            sched.wf(),
            cpu_id <= sched.num_cpus,
            r@.len() == cpu_id,
            forall|i: int| 0 <= i < cpu_id ==> (#[trigger] r@[i]) == reported(sched@.rqs[i].stats),
        decreases sched.num_cpus - cpu_id,
    {
        assert(sched@.rqs[cpu_id as int] == sched.rqs@[cpu_id as int]@);
        let mut s: CpuStats = sched.rqs[cpu_id].stats;
        s.avg_wakeup_latency_ns = s.avg_wakeup_latency_ns / 1_000;
        s.max_wakeup_latency_ns = s.max_wakeup_latency_ns / 1_000;
        r.push(s);
        cpu_id += 1;
    }
    assert(r@ =~= Seq::new(sched@.num_cpus as nat, |i: int| reported(sched@.rqs[i].stats)));
    r
}

/// Statistics as they are reported: latencies in microseconds.
pub open spec fn reported(s: CpuStats) -> CpuStats {
    CpuStats {
        avg_wakeup_latency_ns: (s.avg_wakeup_latency_ns / 1_000) as u64,
        max_wakeup_latency_ns: (s.max_wakeup_latency_ns / 1_000) as u64,
        ..s
    }
}

/// A tick is felt on its own CPU alone: by the task that runs there, or as idle time.
pub proof fn tick_is_felt_on_its_cpu(
    b: BackendState,
    tasks: Map<usize, Task>,
    cpu: int,
    elapsed_ns: u64,
    other: int,
    id: usize,
)
    ensures
        other != cpu && b.has_cpu(other) ==> ticked_backend(b, tasks, cpu, elapsed_ns).has_cpu(other)
            && ticked_backend(b, tasks, cpu, elapsed_ns).rq(other) == b.rq(other),
        ticked_backend(b, tasks, cpu, elapsed_ns).takes_back == b.takes_back,
        !b.has_cpu(cpu) ==> ticked_backend(b, tasks, cpu, elapsed_ns) == b && ticked_tasks(
            b,
            tasks,
            cpu,
            elapsed_ns,
        ) == tasks,
        b.has_cpu(cpu) && b.rq(cpu).running(tasks) is None ==> ticked_tasks(
            b,
            tasks,
            cpu,
            elapsed_ns,
        ) == tasks && ticked_backend(b, tasks, cpu, elapsed_ns).rq(cpu) == b.rq(cpu).idle_tick(
            elapsed_ns,
        ),
        b.has_cpu(cpu) && (b.rq(cpu).running(tasks) matches Some(t) && t.id != id) ==> ticked_tasks(
            b,
            tasks,
            cpu,
            elapsed_ns,
        )[id] == tasks[id],
        b.has_cpu(cpu) && b.rq(cpu).running(tasks) is Some ==> {
            let t = b.rq(cpu).running(tasks)->Some_0;
            ticked_backend(b, tasks, cpu, elapsed_ns).rq(cpu) == b.rq(cpu).tick(
                t.id,
                tasks[t.id].sched,
                elapsed_ns,
            )
        },
{
}

/// Latencies are reported in microseconds, rounded down; all other counts as they are.
pub proof fn latencies_are_reported_in_microseconds(s: CpuStats)
    ensures
        ({
            let r = reported(s);
            &&& 1_000 * r.avg_wakeup_latency_ns <= s.avg_wakeup_latency_ns < 1_000 * (
            r.avg_wakeup_latency_ns + 1)
            &&& 1_000 * r.max_wakeup_latency_ns <= s.max_wakeup_latency_ns < 1_000 * (
            r.max_wakeup_latency_ns + 1)
            &&& s == (CpuStats {
                avg_wakeup_latency_ns: s.avg_wakeup_latency_ns,
                max_wakeup_latency_ns: s.max_wakeup_latency_ns,
                ..r
            })
        }),
{
}

} // verus!
