//! What holds of the scheduler as a whole.

use crate::mks::eevdf_laws;
use crate::mks::realtime;
use crate::mks::runqueue;
use crate::ordered_map;
use crate::mks::realtime::RtState;
use crate::mks::runqueue::{PerCpuState, SchedClassId};
use crate::mks::{MksState, SCHED_WAKEUP_GRANULARITY_NS};
use crate::task::TaskRef;
use crate::task_struct::{Task, TaskSchedInfo};
use vstd::prelude::*;

verus! {

/// There is a least loaded CPU among the first `n` of a NUMA node that has one there.
proof fn lemma_least_loaded(m: MksState, node: usize, n: int, at: int) -> (c: int)
    requires
        0 <= at < n <= m.num_cpus,
        m.in_domain(node, at),
    ensures
        c < n,
        m.in_domain(node, c),
        forall|o: int| #[trigger]
            m.in_domain(node, o) && o < n ==> m.rqs[c].load <= m.rqs[o].load && (o < c
                ==> m.rqs[c].load < m.rqs[o].load),
    decreases n,
{
    if exists|o: int| #[trigger] m.in_domain(node, o) && o < n - 1 {
        let o = choose|o: int| #[trigger] m.in_domain(node, o) && o < n - 1;
        let c = lemma_least_loaded(m, node, n - 1, o);
        if m.in_domain(node, n - 1) && m.rqs[n - 1].load < m.rqs[c].load {
            n - 1
        } else {
            c
        }
    } else {
        at
    }
}

/// A task that is not pinned, and whose last CPU is loaded above average, goes to the
/// least loaded CPU of the same NUMA node.
pub proof fn placement_stays_on_the_node(m: MksState, s: TaskSchedInfo)
    requires
        s.pinned_cpu is None,
        s.last_cpu < m.num_cpus,
        !m.keeps_last(s),
    ensures
        m.is_least_loaded(m.topology.numa_of(s.last_cpu as int), m.selected(s)),
{
    let node = m.topology.numa_of(s.last_cpu as int);
    assert(m.in_domain(node, s.last_cpu as int));
    let c = lemma_least_loaded(m, node, m.num_cpus as int, s.last_cpu as int);
    assert(m.is_least_loaded(node, c));
}

/// A woken task asks for a reschedule only where its virtual deadline is earlier than
/// that of the running task by more than the wakeup granularity.
pub proof fn wakeup_preempts_beyond_the_granularity(
    m: MksState,
    id: usize,
    tasks: Map<usize, Task>,
    c: int,
)
    requires
        0 <= c < m.rqs.len(),
        !m.rqs[c].need_resched,
        m.after_wakeup(id, tasks, c).rqs[c].need_resched,
    ensures
        m.rqs[c].running(tasks) is Some,
        tasks[m.rqs[c].running(tasks)->Some_0.id].sched.vdeadline - tasks[id].sched.vdeadline
            > SCHED_WAKEUP_GRANULARITY_NS,
{
}

/// Classes are served in strict order: while a waiting deadline task has budget left,
/// such a task is served, the one with the earliest deadline; without one, a real-time
/// task is served while there is one; without either, a fair task; and the idle task runs
/// only if nothing else can.
pub proof fn classes_are_served_in_order(
    m: MksState,
    tasks: Map<usize, Task>,
    cpu: int,
    now_ns: u64,
)
    requires
        0 <= cpu < m.rqs.len(),
        m.rqs[cpu].deadline.consistent(),
    ensures
        ({
            let q = m.rqs[cpu];
            let r = m.picked(tasks, cpu, now_ns);
            &&& q.deadline.has_ready(now_ns) ==> {
                &&& q.deadline.is_earliest(q.deadline.earliest(now_ns), now_ns)
                &&& r == Some(q.deadline.tasks[q.deadline.earliest(now_ns)].task)
            }
            &&& !q.deadline.has_ready(now_ns) && q.rt.picked() is Some ==> r == q.rt.picked()
            &&& !q.deadline.has_ready(now_ns) && q.rt.picked() is None && q.fair.picked(
                tasks,
            ) is Some ==> r == q.fair.picked(tasks)
            &&& q.picked(tasks, now_ns) is None && !m.after_local_pick(
                tasks,
                cpu,
                now_ns,
            ).has_victim(cpu, tasks) ==> r == q.idle
        }),
{
    realtime::earliest_deadline_is_picked(m.rqs[cpu].deadline, now_ns);
}

/// An admitted deadline task that runs is charged for every nanosecond and asked to yield
/// when its budget is used up. Whether it is put back or yields, it stands in the queue
/// again, with the deadline and the budget that it has, and claims the bandwidth that it
/// claimed before.
pub proof fn admitted_deadline_task_stays_admitted(
    q: PerCpuState,
    id: usize,
    s: TaskSchedInfo,
    now_ns: u64,
    elapsed_ns: u64,
)
    requires
        q.deadline.consistent(),
        q.deadline.is_admitted(id),
        s.policy is Deadline,
        s.policy->Deadline_period_ns != 0,
    ensures
        ({
            let t = q.tick(id, s, elapsed_ns);
            &&& t.deadline.entry(id) == q.deadline.entry(id).charged(elapsed_ns)
            &&& t.deadline.admitted_bandwidth == q.deadline.admitted_bandwidth
            &&& t.need_resched == (q.need_resched || q.deadline.entry(id).budget_remaining
                <= elapsed_ns)
        }),
        ({
            let p = q.put_prev(id, s, now_ns);
            &&& ordered_map::has_id(p.deadline.tasks, id as u64)
            &&& p.deadline.admitted_bandwidth == q.deadline.admitted_bandwidth
        }),
        ({
            let y = q.yielded(id, s, now_ns);
            &&& ordered_map::has_id(y.deadline.tasks, id as u64)
            &&& y.deadline.admitted_bandwidth == q.deadline.admitted_bandwidth
            &&& y.load == q.load
        }),
{
    realtime::charging_keeps_the_entry(q.deadline, id, elapsed_ns);
    realtime::noting_keeps_the_queue(q.deadline, id, now_ns);
    realtime::admitted_task_waits_again(q.deadline.noted(id, now_ns), id, s, now_ns);
}

/// A CPU never gives its last fair task away, and only CPUs with a load of at
/// least two are stolen from.
pub proof fn last_task_is_never_stolen(m: MksState, thief: int, tasks: Map<usize, Task>)
    requires
        m.has_victim(thief, tasks),
    ensures
        ({
            let v = m.victim(thief, tasks);
            &&& 0 <= v < m.rqs.len()
            &&& v != thief
            &&& m.rqs[v].load >= 2
            &&& m.rqs[v].fair.nr_running > 1
        }),
{
    let order = m.steal_order(thief);
    let k = choose|k: int| m.is_victim(thief, order, k, tasks);
    assert(m.is_victim(thief, order, k, tasks));
}

/// A pinned task is placed on the CPU it is pinned to, if that CPU is managed.
pub proof fn pinned_task_goes_to_its_cpu(m: MksState, s: TaskSchedInfo, cpu: usize)
    requires
        s.pinned_cpu == Some(cpu),
        cpu < m.num_cpus,
    ensures
        m.selected(s) == cpu,
{
}

/// The CPU that `dequeue` looks at is the one on which `enqueue` has placed the
/// task, or on which it was put back.
pub proof fn dequeue_finds_the_enqueued_task(m: MksState, id: usize, s: TaskSchedInfo)
    requires
        0 <= m.selected(s) < m.rqs.len(),
        m.rqs[m.selected(s)].cpu_id == m.selected(s),
        runqueue::class_of(s.policy) != SchedClassId::Idle,
    ensures
        m.rqs[m.selected(s)].joined(s).last_cpu == m.selected(s),
        m.rqs[m.selected(s)].put_back_info(id, s).last_cpu == m.selected(s),
{
}

proof fn lemma_rt_enqueue_then_dequeue(q: RtState, task: TaskRef, p: int)
    requires
        !q.holds(task),
        0 <= p < q.queues.len(),
        q.nr_running < usize::MAX,
    ensures
        q.enqueue(task, p).dequeue(task) == q,
{
    let e = q.enqueue(task, p);
    let n = q.queues[p].len() as int;
    assert(!q.queues[p].contains(task));
    assert(e.queues[p][n] == task);
    assert(e.queues[p].contains(task));
    assert forall|o: int| 0 <= o < e.queues.len() && o != p implies !(#[trigger]
        e.queues[o]).contains(task) by {
        assert(!q.queues[o].contains(task));
    }
    assert(e.is_level_of(task, p));
    let c = choose|c: int| e.is_level_of(task, c);
    assert(c == p);
    assert(realtime::is_first_pos(e.queues[p], task, n)) by {
        assert forall|j: int| 0 <= j < n implies #[trigger] e.queues[p][j] != task by {
            assert(q.queues[p].contains(q.queues[p][j]));
        }
    }
    let f = realtime::first_pos(e.queues[p], task);
    assert(f == n) by {
        assert(realtime::is_first_pos(e.queues[p], task, f));
        if f < n {
            assert(e.queues[p][f] != task);
        }
    }
    assert(e.queues[p].remove(n) =~= q.queues[p]);
    assert(e.dequeue(task).queues =~= q.queues);
    assert(e.dequeue(task) =~= q);
}

/// A task that is enqueued on a CPU and dequeued again leaves that CPU's run
/// queue as it was.
pub proof fn enqueue_then_dequeue_restores_run_queue(
    q: PerCpuState,
    tasks: Map<usize, Task>,
    id: usize,
    now_ns: u64,
)
    requires
        tasks.contains_key(id),
        runqueue::class_of(tasks[id].sched.policy) != SchedClassId::Idle,
        q.can_enqueue(tasks[id].sched, now_ns),
        q.rt.queues.len() == 100,
        runqueue::is_fair(runqueue::class_of(tasks[id].sched.policy)) ==> !tasks[id].sched.on_rq && q.fair.consistent(
            tasks,
        ),
        runqueue::class_of(tasks[id].sched.policy) == SchedClassId::RealTime ==> !q.rt.holds(TaskRef { id }),
        runqueue::class_of(tasks[id].sched.policy) == SchedClassId::Deadline
            ==> q.deadline.consistent() && !q.deadline.is_admitted(id) && q.deadline.nr_running
            < usize::MAX,
    ensures
        ({
            let s = tasks[id].sched;
            q.enqueue(id, s, now_ns).dequeue(id, q.joined(s)) == q
        }),
{
    let s = tasks[id].sched;
    let j = q.joined(s);
    let e = q.enqueue(id, s, now_ns);
    let d = e.dequeue(id, j);
    assert(j.policy == s.policy);
    if runqueue::is_fair(runqueue::class_of(s.policy)) {
        eevdf_laws::enqueue_then_dequeue_restores(q.fair, tasks, id, true);
        let f = q.fair.joined(s, true);
        assert(q.fair.enqueue(id, f).dequeue(id, f) == q.fair.enqueue(id, f).dequeue(id, j));
        assert(d.fair == q.fair);
    } else if runqueue::class_of(s.policy) == SchedClassId::RealTime {
        lemma_rt_enqueue_then_dequeue(q.rt, TaskRef { id }, realtime::rt_level(s));
    } else {
        if q.deadline.admits(s) {
            realtime::admission_is_undone_by_dequeue(q.deadline, id, s, now_ns);
            assert(d.deadline == q.deadline);
        }
    }
    assert(d =~= q);
}

/// Each policy has its queue: a task that is enqueued stands in the fair queue if it is a
/// normal, a batch or a compute task, at the end of the level of its priority if it is a
/// real-time task, and among the deadline tasks if it is an accepted one. It counts as
/// load there, and the other queues stay as they are.
pub proof fn enqueued_task_stands_in_the_queue_of_its_policy(
    q: PerCpuState,
    id: usize,
    s: TaskSchedInfo,
    now_ns: u64,
)
    requires
        q.can_enqueue(s, now_ns),
        q.load < usize::MAX,
        q.rt.queues.len() == 100,
    ensures
        ({
            let e = q.enqueue(id, s, now_ns);
            let fair = s.policy is Normal || s.policy is Batch || s.policy is Compute;
            let real_time = s.policy is Fifo || s.policy is RoundRobin;
            let level: int = if s.rt_priority < 99 {
                s.rt_priority as int
            } else {
                99
            };
            &&& fair ==> e.fair.holds(id) && e.rt == q.rt && e.deadline == q.deadline
            &&& real_time ==> {
                &&& e.rt.queues[level] == q.rt.queues[level].push(TaskRef { id })
                &&& forall|o: int|
                    0 <= o < 100 && o != level ==> #[trigger] e.rt.queues[o] == q.rt.queues[o]
                &&& e.fair == q.fair && e.deadline == q.deadline
            }
            &&& s.policy is Deadline ==> e.fair == q.fair && e.rt == q.rt
            &&& s.policy is Deadline && q.deadline.accepts(id, s) ==> ordered_map::has_id(
                e.deadline.tasks,
                id as u64,
            )
            &&& s.policy is Idle ==> e.idle == Some(TaskRef { id }) && e.load == q.load
            &&& !(s.policy is Idle) ==> e.load == q.load + 1 && e.idle == q.idle
            &&& e.current == q.current && e.need_resched == q.need_resched && e.stats == q.stats
        }),
{
    let e = q.enqueue(id, s, now_ns);
    if s.policy is Normal || s.policy is Batch || s.policy is Compute {
        let j = q.fair.joined(s, true);
        if j.ve <= q.fair.min_vruntime {
            assert(e.fair.eligible.contains_key((j.vdeadline, id as u64)));
        } else {
            assert(e.fair.ineligible.contains_key((j.ve, id as u64)));
        }
    }
    if s.policy is Deadline && q.deadline.accepts(id, s) {
        if q.deadline.is_admitted(id) {
            realtime::admitted_task_waits_again(q.deadline, id, s, now_ns);
        } else {
            let k = ((now_ns + s.policy->Deadline_period_ns) as u64, id as u64);
            assert(e.deadline.tasks.contains_key(k));
        }
    }
}

/// When a tick asks the running task to yield: a round-robin task when its slice is used
/// up, a deadline task when its budget is, a fair task by its virtual time; a FIFO task
/// and the idle task never. A request that stands is not taken back.
pub proof fn tick_asks_each_policy_in_its_way(
    q: PerCpuState,
    id: usize,
    s: TaskSchedInfo,
    elapsed_ns: u64,
)
    ensures
        ({
            let t = q.tick(id, s, elapsed_ns);
            let c = PerCpuState::ticked_info(s, elapsed_ns);
            &&& q.need_resched ==> t.need_resched
            &&& s.policy is Fifo || s.policy is Idle ==> t.need_resched == q.need_resched && c == s
            &&& s.policy matches crate::task_struct::SchedClass::RoundRobin(slice) ==> {
                if s.rr_timeslice_remaining > elapsed_ns {
                    &&& t.need_resched == q.need_resched
                    &&& c.rr_timeslice_remaining == s.rr_timeslice_remaining - elapsed_ns
                } else {
                    &&& t.need_resched
                    &&& c.rr_timeslice_remaining == slice
                }
            }
            &&& s.policy is Deadline && q.deadline.is_admitted(id) && q.deadline.entry(
                id,
            ).budget_remaining <= elapsed_ns ==> t.need_resched
            &&& (s.policy is Normal || s.policy is Batch || s.policy is Compute)
                && c.vruntime >= s.vdeadline ==> t.need_resched
            &&& !(s.policy is Idle) ==> t.stats.run_time_ns == q.stats.run_time_ns.wrapping_add(
                elapsed_ns,
            ) && t.stats.idle_time_ns == q.stats.idle_time_ns
            &&& s.policy is Idle ==> t.stats.idle_time_ns == q.stats.idle_time_ns.wrapping_add(
                elapsed_ns,
            ) && t.stats.run_time_ns == q.stats.run_time_ns
            &&& t.load == q.load && t.current == q.current && t.rt == q.rt && t.idle == q.idle
        }),
{
}

/// A fair task that runs has to yield at a tick when an eligible task waits on its CPU
/// whose virtual deadline comes more than 0.75 ms before its own.
pub proof fn tick_yields_to_a_waiting_fair_task(
    q: PerCpuState,
    id: usize,
    s: TaskSchedInfo,
    elapsed_ns: u64,
    k: (u64, u64),
)
    requires
        s.policy is Normal || s.policy is Batch || s.policy is Compute,
        q.fair.eligible.dom().finite(),
        crate::mks::eevdf::can_tick(q.fair, s, elapsed_ns),
        q.fair.eligible.contains_key(k),
        k.0 + 750_000 < s.vdeadline,
    ensures
        q.tick(id, s, elapsed_ns).need_resched,
{
    eevdf_laws::tick_yields_to_an_earlier_deadline(q.fair, s, elapsed_ns);
}

/// When a woken fair task asks for a reschedule: exactly if a fair task runs on the CPU
/// where it was placed whose virtual deadline comes more than 1 ms after its own. Nothing
/// else changes by it.
pub proof fn wakeup_preempts_exactly_a_late_deadline(
    m: MksState,
    id: usize,
    tasks: Map<usize, Task>,
    c: int,
    other: int,
)
    requires
        0 <= c < m.rqs.len(),
        0 <= other < m.rqs.len(),
        tasks[id].sched.policy is Normal || tasks[id].sched.policy is Batch
            || tasks[id].sched.policy is Compute,
    ensures
        ({
            let a = m.after_wakeup(id, tasks, c);
            let late = m.rqs[c].current matches Some(t) && tasks.contains_key(t.id) && (
            tasks[t.id].sched.policy is Normal || tasks[t.id].sched.policy is Batch
                || tasks[t.id].sched.policy is Compute) && tasks[t.id].sched.vdeadline
                > tasks[id].sched.vdeadline + 1_000_000;
            &&& a.rqs[c].need_resched == (m.rqs[c].need_resched || late)
            &&& other != c ==> a.rqs[other] == m.rqs[other]
            &&& a.rqs[c] == (PerCpuState { need_resched: a.rqs[c].need_resched, ..m.rqs[c] })
        }),
{
}

/// A task that slept is woken not more than 3 ms behind the clock of its CPU, and not
/// moved back.
pub proof fn woken_task_is_lifted(m: MksState, s: TaskSchedInfo, cpu: int)
    requires
        0 <= cpu < m.rqs.len(),
    ensures
        ({
            let w = m.wakeup_info(s, cpu);
            &&& w.vruntime >= s.vruntime
            &&& w.vruntime >= m.rqs[cpu].fair.min_vruntime - 3_000_000
            &&& w.vruntime == s.vruntime || w.vruntime == m.rqs[cpu].fair.min_vruntime - 3_000_000
            &&& w == (TaskSchedInfo { vruntime: w.vruntime, ..s })
        }),
{
}

/// A task that is not pinned stays on its last CPU exactly if that CPU carries no more than
/// an even share of the load; a task that is pinned beyond the last CPU goes to the last.
pub proof fn task_stays_where_the_load_is_even(m: MksState, s: TaskSchedInfo)
    requires
        0 < m.num_cpus <= m.rqs.len(),
        s.last_cpu < m.num_cpus,
    ensures
        s.pinned_cpu is None && m.rqs[s.last_cpu as int].load * m.num_cpus
            <= crate::mks::total_load(m.rqs) ==> m.selected(s) == s.last_cpu,
        s.pinned_cpu is None && m.rqs[s.last_cpu as int].load * m.num_cpus
            > crate::mks::total_load(m.rqs) ==> {
            let c = m.selected(s);
            &&& 0 <= c < m.num_cpus
            &&& m.topology.numa_of(c) == m.topology.numa_of(s.last_cpu as int)
            &&& forall|o: int|
                0 <= o < m.num_cpus && #[trigger] m.topology.numa_of(o) == m.topology.numa_of(
                    s.last_cpu as int,
                ) ==> m.rqs[c].load <= m.rqs[o].load
        },
        s.pinned_cpu matches Some(p) ==> m.selected(s) == (if p < m.num_cpus {
            p as int
        } else {
            m.num_cpus - 1
        }),
{
    let total = crate::mks::total_load(m.rqs);
    let n = m.num_cpus as int;
    let load = m.rqs[s.last_cpu as int].load as int;
    let avg = total / n;
    vstd::arithmetic::div_mod::lemma_fundamental_div_mod(total, n);
    assert(load * n <= total <==> load <= avg) by (nonlinear_arith)
        requires
            total == n * avg + total % n,
            0 <= total % n < n,
    ;
    if s.pinned_cpu is None && !m.keeps_last(s) {
        placement_stays_on_the_node(m, s);
        let node = m.topology.numa_of(s.last_cpu as int);
        let c = m.selected(s);
        assert forall|o: int|
            0 <= o < m.num_cpus && #[trigger] m.topology.numa_of(o) == node implies m.rqs[c].load
            <= m.rqs[o].load by {
            assert(m.in_domain(node, o));
        }
    }
}

/// A CPU without work of its own steals from the first CPU of its steal order that carries
/// at least two tasks and can give one away, and steals nothing exactly if there is none.
pub proof fn idle_cpu_steals_from_the_nearest(
    m: MksState,
    thief: int,
    tasks: Map<usize, Task>,
    k: int,
)
    requires
        0 <= thief < m.topology.cpus().len(),
        0 <= k < m.topology.order(thief).len(),
        m.topology.order(thief)[k] < m.rqs.len(),
        m.topology.order(thief)[k] != thief,
        m.rqs[m.topology.order(thief)[k] as int].load >= 2,
        m.rqs[m.topology.order(thief)[k] as int].fair.can_steal(tasks),
    ensures
        m.has_victim(thief, tasks),
        exists|j: int|
            0 <= j <= k && m.victim(thief, tasks) == #[trigger] m.topology.order(thief)[j],
    decreases k,
{
    let order = m.topology.order(thief);
    if exists|j: int| 0 <= j < k && m.can_steal_from(thief, (#[trigger] order[j]) as int, tasks) {
        let j = choose|j: int|
            0 <= j < k && m.can_steal_from(thief, (#[trigger] order[j]) as int, tasks);
        idle_cpu_steals_from_the_nearest(m, thief, tasks, j);
    } else {
        assert(m.is_victim(thief, order, k, tasks));
        let c = choose|c: int| m.is_victim(thief, order, c, tasks);
        if c > k {
            assert(!m.can_steal_from(thief, order[k] as int, tasks));
        }
        assert(m.victim(thief, tasks) == order[c]);
    }
}

/// A steal moves one task: the CPU that gives it away carries one less, the CPU that takes
/// it one more, both count it, and no other CPU is touched.
pub proof fn steal_moves_one_task(
    m: MksState,
    thief: int,
    tasks: Map<usize, Task>,
    other: int,
)
    requires
        m.has_victim(thief, tasks),
        0 <= thief < m.rqs.len(),
        0 <= other < m.rqs.len(),
        m.rqs[thief].load < usize::MAX,
    ensures
        ({
            let v = m.victim(thief, tasks);
            let a = m.after_steal(thief, tasks);
            &&& a.rqs[v].load == m.rqs[v].load - 1
            &&& a.rqs[thief].load == m.rqs[thief].load + 1
            &&& a.rqs[v].stats.tasks_stolen_out == m.rqs[v].stats.tasks_stolen_out.wrapping_add(1)
            &&& a.rqs[thief].stats.tasks_stolen_in == m.rqs[thief].stats.tasks_stolen_in.wrapping_add(
                1,
            )
            &&& other != v && other != thief ==> a.rqs[other] == m.rqs[other]
            &&& a.rqs[thief].fair == m.rqs[thief].fair
        }),
{
    last_task_is_never_stolen(m, thief, tasks);
}

/// The average load is the total shared evenly among the CPUs, rounded down.
pub proof fn average_is_an_even_share(m: MksState)
    requires
        m.num_cpus > 0,
    ensures
        m.average_load() * m.num_cpus <= crate::mks::total_load(m.rqs) < (m.average_load() + 1)
            * m.num_cpus,
{
    let total = crate::mks::total_load(m.rqs);
    let n = m.num_cpus as int;
    vstd::arithmetic::div_mod::lemma_fundamental_div_mod(total, n);
    let avg = total / n;
    assert(avg * n <= total < (avg + 1) * n) by (nonlinear_arith)
        requires
            total == n * avg + total % n,
            0 <= total % n < n,
    ;
}

/// Taking a task out leaves the levels.
proof fn lemma_rt_dequeue_levels(q: RtState, task: TaskRef)
    ensures
        q.dequeue(task).queues.len() == q.queues.len(),
{
    if q.holds(task) {
        let p = choose|p: int| 0 <= p < q.queues.len() && (#[trigger] q.queues[p]).contains(task);
        lemma_rt_level(q, task, p);
    }
}

/// A task that stands in some level stands in a highest one.
proof fn lemma_rt_level(q: RtState, task: TaskRef, p: int)
    requires
        0 <= p < q.queues.len(),
        q.queues[p].contains(task),
    ensures
        exists|o: int| q.is_level_of(task, o),
    decreases q.queues.len() - p,
{
    if forall|o: int| p < o < q.queues.len() ==> !(#[trigger] q.queues[o]).contains(task) {
        assert(q.is_level_of(task, p));
    } else {
        let o = choose|o: int| p < o < q.queues.len() && (#[trigger] q.queues[o]).contains(task);
        lemma_rt_level(q, task, o);
    }
}

/// A task that is put back: a real-time task that is put back stands at the end
/// of its level, once; a fair task keeps at least the virtual time it has reached, stands in
/// its queue, and starts from there.
pub proof fn put_back_task_can_run_again(
    q: PerCpuState,
    id: usize,
    s: TaskSchedInfo,
    now_ns: u64,
)
    requires
        q.can_put_prev(id, s, now_ns),
        q.rt.queues.len() == 100,
    ensures
        ({
            let p = q.put_prev(id, s, now_ns);
            let i = q.put_back_info(id, s);
            let level: int = if s.rt_priority < 99 {
                s.rt_priority as int
            } else {
                99
            };
            &&& (s.policy is Normal || s.policy is Batch || s.policy is Compute) ==> p.fair.holds(id)
                && i.vruntime >= s.vruntime && (s.vruntime > 0 ==> i.vruntime == s.vruntime)
                && i.on_rq
            &&& s.policy is Fifo || s.policy is RoundRobin ==> p.rt.queues[level].len() > 0
                && p.rt.queues[level].last() == (TaskRef { id })
            &&& i.last_cpu == q.cpu_id
            &&& p.load == q.load && p.current == q.current && p.need_resched == q.need_resched
        }),
{
    let p = q.put_prev(id, s, now_ns);
    if s.policy is Fifo || s.policy is RoundRobin {
        lemma_rt_dequeue_levels(q.rt, TaskRef { id });
    }
    if s.policy is Normal || s.policy is Batch || s.policy is Compute {
        let d = q.fair.dequeue(id, s);
        let j = d.joined(PerCpuState::left(s), false);
        crate::mks::lemma_weight_bounds(s.nice);
        if j.ve <= d.min_vruntime {
            assert(p.fair.eligible.contains_key((j.vdeadline, id as u64)));
        } else {
            assert(p.fair.ineligible.contains_key((j.ve, id as u64)));
        }
    }
}

/// A task that has left its queue is marked so if it is a fair one; nothing else of it changes.
pub proof fn dequeued_task_is_off_its_queue(s: TaskSchedInfo)
    ensures
        s.policy is Normal || s.policy is Batch || s.policy is Compute ==> PerCpuState::left(s) == (
        TaskSchedInfo { on_rq: false, ..s }),
        s.policy is Fifo || s.policy is RoundRobin || s.policy is Deadline || s.policy is Idle
            ==> PerCpuState::left(s) == s,
{
}

/// The time of a tick without a running task is idle time; a tick changes nothing else then.
pub proof fn idle_time_is_counted(q: PerCpuState, elapsed_ns: u64)
    requires
        q.stats.idle_time_ns + elapsed_ns <= u64::MAX,
    ensures
        ({
            let i = q.idle_tick(elapsed_ns);
            &&& i.stats.idle_time_ns == q.stats.idle_time_ns + elapsed_ns
            &&& i.stats.run_time_ns == q.stats.run_time_ns
            &&& i.stats.context_switches == q.stats.context_switches
            &&& i == (PerCpuState { stats: i.stats, ..q })
        }),
{
}

/// A deadline that lies in the past when its task runs is counted as missed, once.
pub proof fn missed_deadlines_are_counted(q: PerCpuState, id: usize, now_ns: u64)
    requires
        q.stats.deadline_misses < u64::MAX,
    ensures
        ({
            let n = q.noted(id, now_ns);
            let late = q.deadline.running.contains_key(id as u64)
                && q.deadline.running[id as u64].abs_deadline < now_ns
                && !q.deadline.running[id as u64].missed;
            &&& late ==> n.stats.deadline_misses == q.stats.deadline_misses + 1
                && n.deadline.running[id as u64].missed
            &&& !late ==> n == q
            &&& n.rt == q.rt && n.fair == q.fair && n.load == q.load && n.need_resched
                == q.need_resched
        }),
{
}

/// A context switch is counted for the system and for its CPU; no other CPU is touched.
pub proof fn switches_are_counted(m: MksState, cpu: int, s: TaskSchedInfo, now_ns: u64, other: int)
    requires
        0 <= cpu < m.rqs.len(),
        0 <= other < m.rqs.len(),
        m.context_switches < u64::MAX,
        m.rqs[cpu].stats.context_switches < u64::MAX,
    ensures
        ({
            let n = m.switched(cpu, s, now_ns);
            &&& n.context_switches == m.context_switches + 1
            &&& n.rqs.len() == m.rqs.len()
            &&& n.rqs[cpu].stats.context_switches == m.rqs[cpu].stats.context_switches + 1
            &&& n.rqs[cpu] == (PerCpuState { stats: n.rqs[cpu].stats, ..m.rqs[cpu] })
            &&& other != cpu ==> n.rqs[other] == m.rqs[other]
            &&& n == (MksState { rqs: n.rqs, context_switches: n.context_switches, ..m })
        }),
{
}

/// The tasks of the system are counted when they join and when they leave. A task joins the
/// queue of the CPU that was selected, and leaves that of the CPU it was on.
pub proof fn tasks_are_counted(
    m: MksState,
    id: usize,
    s: TaskSchedInfo,
    now_ns: u64,
    other: int,
)
    requires
        0 <= other < m.rqs.len(),
        m.num_cpus <= m.rqs.len(),
        0 <= m.selected(s) < m.rqs.len(),
        0 < m.global_task_count < usize::MAX,
    ensures
        m.enqueue(id, s, now_ns).global_task_count == m.global_task_count + 1,
        m.dequeue(id, s).global_task_count == m.global_task_count - 1,
        other != m.selected(s) ==> m.enqueue(id, s, now_ns).rqs[other] == m.rqs[other],
        other != s.last_cpu ==> m.dequeue(id, s).rqs[other] == m.rqs[other],
        s.last_cpu >= m.num_cpus ==> m.dequeue(id, s).rqs == m.rqs,
{
}

/// A task is taken off its queue by a pick exactly if it is a fair one of this CPU, picked
/// where neither a deadline nor a real-time task was, or one that was stolen.
pub proof fn fair_picks_leave_the_queue(
    m: MksState,
    tasks: Map<usize, Task>,
    cpu: int,
    now_ns: u64,
)
    ensures
        m.rqs[cpu].deadline.picked(now_ns) is Some || m.rqs[cpu].rt.picked() is Some
            ==> !m.pick_unqueues(tasks, cpu, now_ns),
        m.rqs[cpu].deadline.picked(now_ns) is None && m.rqs[cpu].rt.picked() is None
            && m.rqs[cpu].fair.picked(tasks) is Some ==> m.pick_unqueues(tasks, cpu, now_ns),
        m.rqs[cpu].picked(tasks, now_ns) is None ==> m.pick_unqueues(tasks, cpu, now_ns)
            == m.after_local_pick(tasks, cpu, now_ns).has_victim(cpu, tasks),
{
}

/// A pick changes the part of the queue that it is from, and no other. A deadline task that
/// begins to run after its deadline has missed it.
pub proof fn pick_changes_one_part(q: PerCpuState, tasks: Map<usize, Task>, now_ns: u64)
    requires
        q.deadline.consistent(),
        q.stats.deadline_misses < u64::MAX,
    ensures
        ({
            let a = q.after_pick(tasks, now_ns);
            let e = q.deadline.tasks[q.deadline.earliest(now_ns)].at(now_ns);
            &&& q.deadline.picked(now_ns) is Some ==> {
                &&& a.rt == q.rt && a.fair == q.fair
                &&& a.deadline.nr_running == q.deadline.nr_running - 1
                &&& e.abs_deadline < now_ns && !e.missed ==> a.stats.deadline_misses
                    == q.stats.deadline_misses + 1 && a.deadline.running[e.task.id as u64].missed
                &&& !(e.abs_deadline < now_ns && !e.missed) ==> a.stats == q.stats
                    && a.deadline.running[e.task.id as u64] == e
            }
            &&& q.deadline.picked(now_ns) is None && q.rt.picked() is Some ==> a == (PerCpuState {
                rt: q.rt.after_pick(tasks),
                ..q
            })
            &&& q.deadline.picked(now_ns) is None && q.rt.picked() is None ==> a == (PerCpuState {
                fair: q.fair.after_pick(tasks),
                ..q
            })
            &&& a.load == q.load && a.need_resched == q.need_resched && a.current == q.current
        }),
{
    if q.deadline.picked(now_ns) is Some {
        realtime::earliest_deadline_is_picked(q.deadline, now_ns);
        let k = q.deadline.earliest(now_ns);
        assert(q.deadline.is_earliest(k, now_ns));
        assert(q.deadline.tasks.contains_key(k));
        realtime::deadline_pick_takes_the_earliest(q.deadline, now_ns, k);
    }
}

} // verus!
