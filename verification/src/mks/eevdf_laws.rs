//! What holds of the fair run queue over every sequence of operations.

use crate::mks::eevdf;
use crate::mks;
use crate::ordered_map;
use crate::mks::eevdf::EevdfState;
use crate::task::TaskRef;
use crate::task_struct::{Task, TaskSchedInfo};
use vstd::prelude::*;

verus! {

/// The queue clock only moves forward.
pub proof fn clock_never_moves_back(q: EevdfState, running_vruntime: int)
    ensures
        q.advanced_clock(running_vruntime) >= q.min_vruntime,
{
}

/// Virtual time is CPU time normalised by weight, rounded down: tasks whose virtual
/// times advance alike have had CPU time in proportion to their weights.
pub proof fn virtual_time_is_normalised_by_weight(nice: i8, elapsed_ns: u64)
    ensures
        eevdf::virtual_delta(nice, elapsed_ns) * mks::nice_weight(nice) <= elapsed_ns
            * eevdf::WEIGHT_NICE0,
        elapsed_ns * eevdf::WEIGHT_NICE0 < (eevdf::virtual_delta(nice, elapsed_ns) + 1)
            * mks::nice_weight(nice),
        eevdf::virtual_delta(0, elapsed_ns) == elapsed_ns,
{
    mks::lemma_weight_bounds(nice);
    let w = mks::nice_weight(nice) as int;
    let x = elapsed_ns * eevdf::WEIGHT_NICE0;
    vstd::arithmetic::div_mod::lemma_fundamental_div_mod(x, w);
    vstd::arithmetic::div_mod::lemma_mod_bound(x, w);
    let d = x / w;
    assert(d * w <= x < (d + 1) * w) by (nonlinear_arith)
        requires
            x == w * d + x % w,
            0 <= x % w < w,
    ;
    assert(mks::nice_weight(0) == 1024);
}

/// A task that weighs more is charged no more virtual time for the same CPU time.
pub proof fn heavier_tasks_are_charged_less(a: i8, b: i8, elapsed_ns: u64)
    requires
        -20 <= a < b <= 19,
    ensures
        eevdf::virtual_delta(a, elapsed_ns) <= eevdf::virtual_delta(b, elapsed_ns),
{
    crate::task_struct::weight_falls_with_nice(a, b);
    mks::lemma_weight_bounds(b);
    vstd::arithmetic::div_mod::lemma_div_is_ordered_by_denominator(
        elapsed_ns * eevdf::WEIGHT_NICE0,
        mks::nice_weight(b) as int,
        mks::nice_weight(a) as int,
    );
}

/// Once the due tasks have been made eligible, every task that is still held
/// back has its eligible time ahead of the clock: no task is held back forever
/// by a clock that advances.
pub proof fn due_tasks_are_promoted(q: EevdfState, tasks: Map<usize, Task>, ve: u64, id: usize)
    requires
        q.ineligible.contains_key((ve, id as u64)),
        ve <= q.min_vruntime,
    ensures
        !q.promoted(tasks).ineligible.contains_key((ve, id as u64)),
        q.promoted(tasks).eligible.contains_key((tasks[id].sched.vdeadline, id as u64)),
{
    assert(q.is_promoted(tasks, (tasks[id].sched.vdeadline, id as u64)));
}

/// No eligible task has an earlier virtual deadline than the one picked.
pub proof fn picked_task_has_earliest_deadline(
    q: EevdfState,
    tasks: Map<usize, Task>,
    other: (u64, u64),
)
    requires
        q.consistent(tasks),
        q.promoted(tasks).eligible.contains_key(other),
    ensures
        q.picked(tasks) is Some,
        tasks[q.picked(tasks)->Some_0.id].sched.vdeadline <= other.0,
{
    let p = q.promoted(tasks);
    assert(p.eligible.dom().contains(other));
    assert(q.consistent(tasks));
    lemma_promoted_consistent(q, tasks);
    ordered_map::finite_map_has_first(p.eligible);
    let k = ordered_map::first_of(p.eligible);
    assert(ordered_map::key_le(k, other));
    assert(p.eligible.contains_key(k));
}

/// A new queue is consistent.
pub proof fn empty_queue_is_consistent(tasks: Map<usize, Task>)
    ensures
        EevdfState::empty().consistent(tasks),
{
}

/// Enqueueing a task that stands in no fair queue keeps the queue consistent.
pub proof fn enqueue_keeps_consistent(
    q: EevdfState,
    tasks: Map<usize, Task>,
    id: usize,
    is_wakeup: bool,
)
    requires
        q.consistent(tasks),
        tasks.contains_key(id),
        !tasks[id].sched.on_rq,
        q.can_enqueue(tasks[id].sched, is_wakeup),
    ensures
        ({
            let s = q.joined(tasks[id].sched, is_wakeup);
            q.enqueue(id, s).consistent(eevdf::with_sched(tasks, id, s))
        }),
{
    let s = q.joined(tasks[id].sched, is_wakeup);
    let t2 = eevdf::with_sched(tasks, id, s);
    let q2 = q.enqueue(id, s);
    assert forall|k: (u64, u64)| #[trigger] q.eligible.contains_key(k) implies k.1 != id by {
        if k.1 == id {
            assert(k.1 as usize == id);
        }
    }
    assert forall|k: (u64, u64)| #[trigger] q.ineligible.contains_key(k) implies k.1 != id by {
        if k.1 == id {
            assert(k.1 as usize == id);
        }
    }
    if s.ve <= q.min_vruntime {
        assert(q2.eligible.dom() =~= q.eligible.dom().insert((s.vdeadline, id as u64)));
        assert(!q.eligible.dom().contains((s.vdeadline, id as u64)));
    } else {
        assert(q2.ineligible.dom() =~= q.ineligible.dom().insert((s.ve, id as u64)));
        assert(!q.ineligible.dom().contains((s.ve, id as u64)));
    }
}

/// Removing a task that stands in this queue, or in no queue, keeps the queue
/// consistent.
pub proof fn dequeue_keeps_consistent(q: EevdfState, tasks: Map<usize, Task>, id: usize)
    requires
        q.consistent(tasks),
        tasks.contains_key(id),
        tasks[id].sched.on_rq ==> q.holds(id),
    ensures
        q.dequeue(id, tasks[id].sched).consistent(
            eevdf::with_sched(tasks, id, (TaskSchedInfo { on_rq: false, ..tasks[id].sched })),
        ),
{
    let s = tasks[id].sched;
    let q2 = q.dequeue(id, s);
    if s.on_rq {
        if q.eligible.contains_key((s.vdeadline, id as u64)) {
            assert(q2.eligible.dom() =~= q.eligible.dom().remove((s.vdeadline, id as u64)));
        } else {
            if ordered_map::has_id(q.eligible, id as u64) {
                let w = choose|k: (u64, u64)| #[trigger] q.eligible.contains_key(k) && k.1 == id;
                assert(w.1 as usize == id);
                assert(w == (s.vdeadline, id as u64));
            }
            let w = choose|k: (u64, u64)| #[trigger] q.ineligible.contains_key(k) && k.1 == id;
            assert(w.1 as usize == id);
            assert(w == (s.ve, id as u64));
            assert(q2.ineligible.dom() =~= q.ineligible.dom().remove((s.ve, id as u64)));
        }
    } else {
        assert forall|k: (u64, u64)| #[trigger] q.eligible.contains_key(k) implies k.1 != id by {
            if k.1 == id {
                assert(k.1 as usize == id);
            }
        }
        assert forall|k: (u64, u64)| #[trigger] q.ineligible.contains_key(k) implies k.1 != id by {
            if k.1 == id {
                assert(k.1 as usize == id);
            }
        }
    }
}

/// A task that joins and leaves again leaves the queue as it was.
pub proof fn enqueue_then_dequeue_restores(
    q: EevdfState,
    tasks: Map<usize, Task>,
    id: usize,
    is_wakeup: bool,
)
    requires
        q.consistent(tasks),
        tasks.contains_key(id),
        !tasks[id].sched.on_rq,
        q.can_enqueue(tasks[id].sched, is_wakeup),
    ensures
        ({
            let s = q.joined(tasks[id].sched, is_wakeup);
            q.enqueue(id, s).dequeue(id, s) == q
        }),
{
    let s = q.joined(tasks[id].sched, is_wakeup);
    let q2 = q.enqueue(id, s).dequeue(id, s);
    assert(!q.eligible.contains_key((s.vdeadline, id as u64)));
    assert(!q.ineligible.contains_key((s.ve, id as u64)));
    assert(q2.eligible =~= q.eligible);
    assert(q2.ineligible =~= q.ineligible);
    mks::lemma_weight_bounds(tasks[id].sched.nice);
    assert(q2 =~= q);
}

proof fn lemma_promoted_consistent(q: EevdfState, tasks: Map<usize, Task>)
    requires
        q.consistent(tasks),
    ensures
        q.promoted(tasks).consistent(tasks),
{
    let p = q.promoted(tasks);
    let due = q.ineligible.dom().filter(|k: (u64, u64)| k.0 <= q.min_vruntime);
    let f = |k: (u64, u64)| (tasks[k.1 as usize].sched.vdeadline, k.1);
    let image = due.map(f);
    q.ineligible.dom().lemma_len_filter(|k: (u64, u64)| k.0 <= q.min_vruntime);
    assert(vstd::relations::injective_on(f, due)) by {
        assert forall|a: (u64, u64), b: (u64, u64)|
            due.contains(a) && due.contains(b) && #[trigger] f(a) == #[trigger] f(b) implies a
            == b by {
            assert(q.ineligible.contains_key(a) && q.ineligible.contains_key(b));
        }
    }
    vstd::set_lib::lemma_map_size(due, image, f);
    assert(p.eligible.dom() =~= q.eligible.dom() + image) by {
        assert forall|k: (u64, u64)| p.eligible.dom().contains(k) <==> (q.eligible.dom()
            + image).contains(k) by {
            if q.is_promoted(tasks, k) {
                let ve = choose|ve: u64|
                    ve <= q.min_vruntime && #[trigger] q.ineligible.contains_key((ve, k.1));
                assert(due.contains((ve, k.1)));
                assert(f((ve, k.1)) == k);
            }
            if image.contains(k) {
                let a = choose|a: (u64, u64)| due.contains(a) && f(a) == k;
                assert(q.ineligible.contains_key((a.0, k.1)));
                assert(q.is_promoted(tasks, k));
            }
        }
    }
    assert(q.eligible.dom().disjoint(image)) by {
        assert forall|k: (u64, u64)| q.eligible.dom().contains(k) implies !image.contains(k) by {
            if image.contains(k) {
                let a = choose|a: (u64, u64)| due.contains(a) && f(a) == k;
                assert(q.eligible.contains_key(k) && q.ineligible.contains_key(a));
            }
        }
    }
    vstd::set_lib::lemma_set_disjoint_lens(q.eligible.dom(), image);
    assert(q.ineligible.dom() =~= due + p.ineligible.dom());
    assert(due.disjoint(p.ineligible.dom()));
    vstd::set_lib::lemma_set_subset_finite(q.ineligible.dom(), p.ineligible.dom());
    vstd::set_lib::lemma_set_disjoint_lens(due, p.ineligible.dom());
    assert forall|k: (u64, u64)| #[trigger] p.eligible.contains_key(k) implies {
        &&& k.1 <= usize::MAX
        &&& p.eligible[k].id == k.1
        &&& tasks.contains_key(k.1 as usize)
        &&& tasks[k.1 as usize].sched.on_rq
        &&& tasks[k.1 as usize].sched.vdeadline == k.0
    } by {
        if !q.eligible.contains_key(k) {
            let ve = choose|ve: u64|
                ve <= q.min_vruntime && #[trigger] q.ineligible.contains_key((ve, k.1));
            assert(q.ineligible.contains_key((ve, k.1)));
        }
    }
    assert forall|a: (u64, u64), b: (u64, u64)| #[trigger]
        p.eligible.contains_key(a) && #[trigger] p.ineligible.contains_key(b) implies a.1
        != b.1 by {
        assert(q.ineligible.contains_key(b));
        if !q.eligible.contains_key(a) {
            let ve = choose|ve: u64|
                ve <= q.min_vruntime && #[trigger] q.ineligible.contains_key((ve, a.1));
            assert(q.ineligible.contains_key((ve, a.1)));
        }
    }
}

/// Picking keeps the queue consistent, and the picked task has left it.
pub proof fn pick_keeps_consistent(q: EevdfState, tasks: Map<usize, Task>)
    requires
        q.consistent(tasks),
    ensures
        match q.picked(tasks) {
            Some(t) => {
                let t2 = eevdf::with_sched(
                    tasks,
                    t.id,
                    (TaskSchedInfo { on_rq: false, ..tasks[t.id].sched }),
                );
                q.after_pick(tasks).consistent(t2) && !q.after_pick(tasks).holds(t.id)
            },
            None => q.after_pick(tasks).consistent(tasks),
        },
{
    lemma_promoted_consistent(q, tasks);
    let p = q.promoted(tasks);
    let a = q.after_pick(tasks);
    if !p.eligible.dom().is_empty() {
        ordered_map::finite_map_has_first(p.eligible);
        let k = ordered_map::first_of(p.eligible);
        assert(p.eligible.contains_key(k));
        assert(a.eligible.dom() =~= p.eligible.dom().remove(k));
        assert forall|j: (u64, u64)| #[trigger] a.eligible.contains_key(j) implies j.1 != k.1 by {
            assert(p.eligible.contains_key(j));
        }
        assert forall|j: (u64, u64)| #[trigger] a.ineligible.contains_key(j) implies j.1 != k.1 by {
            assert(p.ineligible.contains_key(j));
        }
    }
}

/// Stealing keeps the queue consistent. The stolen task has left it, and is not pinned to
/// a CPU.
pub proof fn steal_keeps_consistent(q: EevdfState, tasks: Map<usize, Task>)
    requires
        q.consistent(tasks),
        q.can_steal(tasks),
    ensures
        ({
            let id = q.stolen_key(tasks).1 as usize;
            let t2 = eevdf::with_sched(tasks, id, (TaskSchedInfo { on_rq: false, ..tasks[id].sched }));
            &&& q.after_steal(tasks).consistent(t2)
            &&& !q.after_steal(tasks).holds(id)
            &&& tasks[id].sched.pinned_cpu is None
        }),
{
    let k = q.stolen_key(tasks);
    let a = q.after_steal(tasks);
    let i = eevdf::movable(q.ineligible, tasks);
    let e = eevdf::movable(q.eligible, tasks);
    assert(i.dom().subset_of(q.ineligible.dom()));
    assert(e.dom().subset_of(q.eligible.dom()));
    vstd::set_lib::lemma_set_subset_finite(q.ineligible.dom(), i.dom());
    vstd::set_lib::lemma_set_subset_finite(q.eligible.dom(), e.dom());
    if !i.dom().is_empty() {
        ordered_map::finite_map_has_last(i);
        assert(i.contains_key(k));
        assert(q.ineligible.contains_key(k));
        assert(a.ineligible.dom() =~= q.ineligible.dom().remove(k));
    } else {
        ordered_map::finite_map_has_last(e);
        assert(e.contains_key(k));
        assert(q.eligible.contains_key(k));
        assert(a.eligible.dom() =~= q.eligible.dom().remove(k));
    }
    assert forall|j: (u64, u64)| #[trigger] a.eligible.contains_key(j) implies j.1 != k.1 by {
        assert(q.eligible.contains_key(j));
    }
    assert forall|j: (u64, u64)| #[trigger] a.ineligible.contains_key(j) implies j.1 != k.1 by {
        assert(q.ineligible.contains_key(j));
    }
}

/// A tick keeps the queue consistent.
pub proof fn tick_keeps_consistent(
    q: EevdfState,
    tasks: Map<usize, Task>,
    id: usize,
    elapsed_ns: u64,
)
    requires
        q.consistent(tasks),
        tasks.contains_key(id),
    ensures
        ({
            let s = eevdf::ticked(tasks[id].sched, elapsed_ns);
            (EevdfState {
                min_vruntime: q.advanced_clock(s.vruntime as int) as u64,
                ..q
            }).consistent(eevdf::with_sched(tasks, id, s))
        }),
{
}

/// What a tick asks of the running task: it has to yield if its charged virtual time has
/// reached its virtual deadline, and whenever some eligible task waits whose virtual
/// deadline comes more than the minimum granularity of 0.75 ms before its own. Otherwise
/// it goes on.
pub proof fn tick_yields_to_an_earlier_deadline(q: EevdfState, s: TaskSchedInfo, elapsed_ns: u64)
    requires
        q.eligible.dom().finite(),
        eevdf::can_tick(q, s, elapsed_ns),
    ensures
        ({
            let charged = eevdf::ticked(s, elapsed_ns);
            let yields = q.must_yield(charged.vruntime as int, s.vdeadline);
            &&& forall|k: (u64, u64)| #[trigger]
                q.eligible.contains_key(k) && k.0 + 750_000 < s.vdeadline ==> yields
            &&& charged.vruntime >= s.vdeadline ==> yields
            &&& yields ==> charged.vruntime >= s.vdeadline || exists|k: (u64, u64)| #[trigger]
                q.eligible.contains_key(k) && k.0 + 750_000 < s.vdeadline
            &&& charged.vdeadline == s.vdeadline
        }),
{
    if !q.eligible.dom().is_empty() {
        ordered_map::finite_map_has_first(q.eligible);
        let f = ordered_map::first_of(q.eligible);
        assert(q.eligible.contains_key(f));
        assert forall|k: (u64, u64)| #[trigger] q.eligible.contains_key(k) implies f.0 <= k.0 by {
            assert(ordered_map::key_le(f, k));
        }
    } else {
        assert forall|k: (u64, u64)| !#[trigger] q.eligible.contains_key(k) by {
            assert(!q.eligible.dom().contains(k));
        }
    }
}

/// What a tick charges: the CPU time itself, and virtual time that is the CPU time at
/// nice 0, no more than it at a lower nice value and no less at a higher one. Nothing else
/// of the task changes, and the clock of the queue moves to the smaller of the charged
/// virtual time and the earliest waiting deadline, unless it is there already.
pub proof fn tick_charges_weighted_time(q: EevdfState, s: TaskSchedInfo, elapsed_ns: u64)
    requires
        q.eligible.dom().finite(),
        eevdf::can_tick(q, s, elapsed_ns),
    ensures
        ({
            let c = eevdf::ticked(s, elapsed_ns);
            let clock = q.advanced_clock(c.vruntime as int);
            &&& c.exec_runtime - s.exec_runtime == elapsed_ns
            &&& c.vruntime >= s.vruntime
            &&& s.nice == 0 ==> c.vruntime - s.vruntime == elapsed_ns
            &&& -20 <= s.nice < 0 ==> c.vruntime - s.vruntime <= elapsed_ns
            &&& 0 < s.nice <= 19 ==> c.vruntime - s.vruntime >= elapsed_ns
            &&& c == (TaskSchedInfo { vruntime: c.vruntime, exec_runtime: c.exec_runtime, ..s })
            &&& clock >= q.min_vruntime
            &&& clock > q.min_vruntime ==> clock <= c.vruntime && forall|k: (u64, u64)| #[trigger]
                q.eligible.contains_key(k) ==> clock <= k.0
            &&& clock == q.min_vruntime || clock == c.vruntime || exists|k: (u64, u64)| #[trigger]
                q.eligible.contains_key(k) && clock == k.0
            &&& clock < c.vruntime ==> exists|k: (u64, u64)| #[trigger]
                q.eligible.contains_key(k) && k.0 <= clock
        }),
{
    virtual_time_is_normalised_by_weight(s.nice, elapsed_ns);
    let d = eevdf::virtual_delta(s.nice, elapsed_ns);
    let w = mks::nice_weight(s.nice) as int;
    mks::lemma_weight_bounds(s.nice);
    if -20 <= s.nice < 0 {
        heavier_tasks_are_charged_less(s.nice, 0, elapsed_ns);
    }
    if 0 < s.nice <= 19 {
        heavier_tasks_are_charged_less(0, s.nice, elapsed_ns);
    }
    assert(d >= 0) by (nonlinear_arith)
        requires
            elapsed_ns * eevdf::WEIGHT_NICE0 < (d + 1) * w,
            elapsed_ns * eevdf::WEIGHT_NICE0 >= 0,
            w > 0,
    ;
    if !q.eligible.dom().is_empty() {
        ordered_map::finite_map_has_first(q.eligible);
        let f = ordered_map::first_of(q.eligible);
        assert(q.eligible.contains_key(f));
        assert forall|k: (u64, u64)| #[trigger] q.eligible.contains_key(k) implies f.0 <= k.0 by {
            assert(ordered_map::key_le(f, k));
        }
    } else {
        assert forall|k: (u64, u64)| !#[trigger] q.eligible.contains_key(k) by {
            assert(!q.eligible.dom().contains(k));
        }
    }
}

/// A task that joins gets a time slice of 6 ms if it is alone, and else its share by weight
/// of these 6 ms, but at least 0.75 ms. The slice reaches from its virtual runtime, at which
/// it becomes eligible, to its virtual deadline.
pub proof fn joining_task_gets_its_share(q: EevdfState, s: TaskSchedInfo, is_wakeup: bool)
    requires
        q.can_enqueue(s, is_wakeup),
    ensures
        ({
            let j = q.joined(s, is_wakeup);
            let slice = j.vdeadline - j.vruntime;
            let total = q.total_weight + j.weight;
            &&& j.ve == j.vruntime
            &&& j.on_rq
            &&& 750_000 <= slice <= 6_000_000
            &&& q.total_weight == 0 ==> slice == 6_000_000
            &&& q.total_weight > 0 && slice > 750_000 ==> slice * total <= 6_000_000 * j.weight
                < (slice + 1) * total
            &&& q.total_weight > 0 && slice == 750_000 ==> 6_000_000 * j.weight < 750_001 * total
            &&& j == (TaskSchedInfo {
                vruntime: j.vruntime,
                ve: j.ve,
                vdeadline: j.vdeadline,
                weight: j.weight,
                on_rq: true,
                ..s
            })
        }),
{
    let j = q.joined(s, is_wakeup);
    mks::lemma_weight_bounds(s.nice);
    let w = mks::nice_weight(s.nice) as int;
    let total = q.total_weight + w;
    let x = 6_000_000 * w;
    let d = x / total;
    vstd::arithmetic::div_mod::lemma_fundamental_div_mod(x, total);
    assert(d * total <= x < (d + 1) * total) by (nonlinear_arith)
        requires
            x == total * d + x % total,
            0 <= x % total < total,
    ;
    assert(d <= 6_000_000) by (nonlinear_arith)
        requires
            d * total <= 6_000_000 * w,
            0 < w <= total,
    ;
    if d < 750_000 {
        assert((d + 1) * total <= 750_001 * total) by (nonlinear_arith)
            requires
                d < 750_000,
                total > 0,
        ;
    }
}

/// Where a joining task starts: one that is new or was woken not more than 3 ms behind the
/// clock of the queue, so that it cannot hold the CPU for the time it slept; any other where
/// it left off. No task is moved back.
pub proof fn sleepers_do_not_hoard_time(q: EevdfState, s: TaskSchedInfo, is_wakeup: bool)
    requires
        q.can_enqueue(s, is_wakeup),
    ensures
        ({
            let j = q.joined(s, is_wakeup);
            &&& j.vruntime >= s.vruntime
            &&& (s.vruntime == 0 || is_wakeup) ==> j.vruntime >= q.min_vruntime - 3_000_000
            &&& j.vruntime > s.vruntime ==> (s.vruntime == 0 || is_wakeup) && j.vruntime
                == q.min_vruntime - 3_000_000
        }),
{
    mks::lemma_weight_bounds(s.nice);
}

/// A task that has joined is eligible, under its deadline, exactly if the clock has reached
/// its eligible time; else it waits under that time. It counts, and its weight does; the
/// other entries and the clock stay as they are.
pub proof fn joining_task_stands_in_one_part(q: EevdfState, id: usize, s: TaskSchedInfo)
    requires
        q.total_weight + s.weight <= u64::MAX,
        q.nr_running < usize::MAX,
    ensures
        ({
            let e = q.enqueue(id, s);
            &&& s.ve <= q.min_vruntime ==> e.eligible == q.eligible.insert(
                (s.vdeadline, id as u64),
                TaskRef { id },
            ) && e.ineligible == q.ineligible
            &&& s.ve > q.min_vruntime ==> e.ineligible == q.ineligible.insert(
                (s.ve, id as u64),
                TaskRef { id },
            ) && e.eligible == q.eligible
            &&& e.total_weight - q.total_weight == s.weight
            &&& e.nr_running == q.nr_running + 1
            &&& e.min_vruntime == q.min_vruntime
        }),
{
}

/// A task is picked exactly if one waits whose eligible time has come. It is one of these,
/// and none of them has an earlier virtual deadline.
pub proof fn pick_takes_an_eligible_task(q: EevdfState, tasks: Map<usize, Task>)
    requires
        q.consistent(tasks),
    ensures
        q.picked(tasks) is Some <==> ((exists|k: (u64, u64)| #[trigger] q.eligible.contains_key(k))
            || exists|k: (u64, u64)| #[trigger]
            q.ineligible.contains_key(k) && k.0 <= q.min_vruntime),
        q.picked(tasks) matches Some(t) ==> {
            &&& ordered_map::has_id(q.eligible, t.id as u64) || exists|k: (u64, u64)| #[trigger]
                q.ineligible.contains_key(k) && k.0 <= q.min_vruntime && k.1 == t.id
            &&& forall|k: (u64, u64)| #[trigger]
                q.eligible.contains_key(k) ==> tasks[t.id].sched.vdeadline <= k.0
            &&& forall|k: (u64, u64)| #[trigger]
                q.ineligible.contains_key(k) && k.0 <= q.min_vruntime
                    ==> tasks[t.id].sched.vdeadline <= tasks[k.1 as usize].sched.vdeadline
        },
{
    let p = q.promoted(tasks);
    lemma_promoted_consistent(q, tasks);
    assert forall|k: (u64, u64)| #[trigger] q.eligible.contains_key(k) implies p.eligible.contains_key(
        k,
    ) by {
    }
    assert forall|k: (u64, u64)| #[trigger]
        q.ineligible.contains_key(k) && k.0 <= q.min_vruntime implies p.eligible.contains_key(
        (tasks[k.1 as usize].sched.vdeadline, k.1),
    ) by {
        due_tasks_are_promoted(q, tasks, k.0, k.1 as usize);
    }
    if p.eligible.dom().is_empty() {
        assert forall|k: (u64, u64)| !#[trigger] p.eligible.contains_key(k) by {
            assert(!p.eligible.dom().contains(k));
        }
        assert forall|k: (u64, u64)| !#[trigger] q.eligible.contains_key(k) by {
            assert(!p.eligible.contains_key(k));
        }
        assert forall|k: (u64, u64)| #[trigger] q.ineligible.contains_key(k) implies k.0
            > q.min_vruntime by {
            assert(!p.eligible.contains_key((tasks[k.1 as usize].sched.vdeadline, k.1)));
        }
    } else {
        ordered_map::finite_map_has_first(p.eligible);
        let f = ordered_map::first_of(p.eligible);
        assert(p.eligible.contains_key(f));
        if !q.eligible.contains_key(f) {
            assert(q.is_promoted(tasks, f));
            let ve = choose|ve: u64|
                ve <= q.min_vruntime && #[trigger] q.ineligible.contains_key((ve, f.1));
            let k = (ve, f.1);
            assert(q.ineligible.contains_key(k));
        }
        assert forall|k: (u64, u64)| #[trigger] q.eligible.contains_key(
            k,
        ) implies tasks[f.1 as usize].sched.vdeadline <= k.0 by {
            assert(ordered_map::key_le(f, k));
        }
        assert forall|k: (u64, u64)| #[trigger]
            q.ineligible.contains_key(k) && k.0
                <= q.min_vruntime implies tasks[f.1 as usize].sched.vdeadline
            <= tasks[k.1 as usize].sched.vdeadline by {
            let e = (tasks[k.1 as usize].sched.vdeadline, k.1);
            assert(p.eligible.contains_key(e));
            assert(ordered_map::key_le(f, e));
        }
    }
}

/// After a pick the picked task has left, with its weight, and every other task still
/// waits. The clock stands still.
pub proof fn pick_takes_only_the_picked_task(q: EevdfState, tasks: Map<usize, Task>, other: usize)
    requires
        q.consistent(tasks),
        q.picked(tasks) is Some,
        q.nr_running > 0,
    ensures
        ({
            let t = q.picked(tasks)->Some_0;
            let a = q.after_pick(tasks);
            &&& !a.holds(t.id)
            &&& other != t.id && q.holds(other) ==> a.holds(other)
            &&& a.holds(other) ==> q.holds(other)
            &&& a.nr_running == q.nr_running - 1
            &&& tasks[t.id].sched.weight <= q.total_weight ==> a.total_weight == q.total_weight
                - tasks[t.id].sched.weight
            &&& a.min_vruntime == q.min_vruntime
        }),
{
    let p = q.promoted(tasks);
    let a = q.after_pick(tasks);
    let t = q.picked(tasks)->Some_0;
    lemma_promoted_consistent(q, tasks);
    pick_keeps_consistent(q, tasks);
    ordered_map::finite_map_has_first(p.eligible);
    let f = ordered_map::first_of(p.eligible);
    if other != t.id && q.holds(other) {
        if ordered_map::has_id(q.eligible, other as u64) {
            let k = choose|k: (u64, u64)| #[trigger] q.eligible.contains_key(k) && k.1 == other;
            assert(p.eligible.contains_key(k));
            assert(a.eligible.contains_key(k));
        } else {
            let k = choose|k: (u64, u64)| #[trigger] q.ineligible.contains_key(k) && k.1 == other;
            if k.0 <= q.min_vruntime {
                due_tasks_are_promoted(q, tasks, k.0, other);
                assert(a.eligible.contains_key((tasks[other].sched.vdeadline, other as u64)));
            } else {
                assert(a.ineligible.contains_key(k));
            }
        }
    }
    if a.holds(other) {
        if ordered_map::has_id(a.eligible, other as u64) {
            let k = choose|k: (u64, u64)| #[trigger] a.eligible.contains_key(k) && k.1 == other;
            assert(p.eligible.contains_key(k));
            if !q.eligible.contains_key(k) {
                assert(q.is_promoted(tasks, k));
                let ve = choose|ve: u64|
                    ve <= q.min_vruntime && #[trigger] q.ineligible.contains_key((ve, k.1));
                assert(q.ineligible.contains_key((ve, k.1)));
            }
        } else {
            let k = choose|k: (u64, u64)| #[trigger] a.ineligible.contains_key(k) && k.1 == other;
            assert(q.ineligible.contains_key(k));
        }
    }
}

/// A task is stolen exactly from a queue of at least two, one of which is not pinned. It is
/// the one with the latest eligible time among those that are not eligible yet, and only
/// without such a one the eligible task with the latest deadline.
pub proof fn steal_takes_the_latest_task(q: EevdfState, tasks: Map<usize, Task>, k: (u64, u64))
    requires
        q.consistent(tasks),
        q.eligible.contains_key(k) || q.ineligible.contains_key(k),
        tasks[k.1 as usize].sched.pinned_cpu is None,
    ensures
        q.can_steal(tasks) <==> q.nr_running >= 2,
        ({
            let s = q.stolen_key(tasks);
            &&& q.ineligible.contains_key(k) ==> q.ineligible.contains_key(s) && k.0 <= s.0
            &&& q.eligible.contains_key(k) && !q.ineligible.contains_key(s)
                ==> q.eligible.contains_key(s) && k.0 <= s.0
            &&& q.eligible.contains_key(s) || q.ineligible.contains_key(s)
            &&& tasks[s.1 as usize].sched.pinned_cpu is None
        }),
{
    let i = eevdf::movable(q.ineligible, tasks);
    let e = eevdf::movable(q.eligible, tasks);
    assert(i.dom().subset_of(q.ineligible.dom()));
    assert(e.dom().subset_of(q.eligible.dom()));
    vstd::set_lib::lemma_set_subset_finite(q.ineligible.dom(), i.dom());
    vstd::set_lib::lemma_set_subset_finite(q.eligible.dom(), e.dom());
    if q.ineligible.contains_key(k) {
        assert(i.dom().contains(k));
    } else {
        assert(e.dom().contains(k));
    }
    let s = q.stolen_key(tasks);
    if !i.dom().is_empty() {
        ordered_map::finite_map_has_last(i);
        assert(i.contains_key(s));
        if i.contains_key(k) {
            assert(ordered_map::key_le(k, s));
        }
    } else {
        ordered_map::finite_map_has_last(e);
        assert(e.contains_key(s));
        assert(ordered_map::key_le(k, s));
    }
}

} // verus!
