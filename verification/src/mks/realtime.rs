//! Real-time run queues.
//!
//! FIFO and round-robin tasks stand in one queue per priority level; the
//! highest level that is not empty is served first. Deadline tasks are served
//! by earliest absolute deadline while they have budget left, and are admitted only
//! while the bandwidth they claim together stays within the limit. A task that is
//! picked stays admitted: it is charged while it runs, and waits again when it is
//! put back.

use crate::mks;
use crate::ordered_map;
use crate::mks::eevdf;
use crate::mks::SCHED_DL_BANDWIDTH_NUM;
use crate::id_map::IdMap;
use crate::ordered_map::{key_less, OrderedMap};
use crate::task::{TaskRef, TaskTable};
use crate::task_struct::{SchedClass, Task, TaskSchedInfo};
use std::collections::VecDeque;
use vstd::prelude::*;

verus! {

/// Number of real-time priority levels.
pub const RT_PRIO_LEVELS: usize = 100;

/// Default round-robin timeslice in nanoseconds.
pub const RT_RR_TIMESLICE_NS: u64 = 100_000_000;

/// Run queue for FIFO and round-robin tasks.
pub struct RtRunQueue {
    /// One queue per priority; the last is the highest.
    queues: Vec<VecDeque<TaskRef>>,
    /// Bit `p` is set if and only if the queue of priority `p` is not empty.
    bitmap: u128,
    /// Number of tasks in this queue.
    pub nr_running: usize,
}

/// What a real-time run queue holds.
#[verifier::ext_equal]
pub struct RtState {
    pub queues: Seq<Seq<TaskRef>>,
    pub nr_running: usize,
}

/// Bit `p` of `b` is set.
pub open spec fn bit_set(b: u128, p: int) -> bool {
    b & (1u128 << (p as u128)) != 0
}

proof fn lemma_set_bit(b: u128, p: u128, q: u128)
    requires
        p < 128,
        q < 128,
    ensures
        bit_set(b | (1u128 << p), q as int) == (bit_set(b, q as int) || p == q),
{
    assert(((b | (1u128 << p)) & (1u128 << q) != 0) == ((b & (1u128 << q) != 0) || p == q))
        by (bit_vector)
        requires
            p < 128,
            q < 128,
    ;
}

proof fn lemma_clear_bit(b: u128, p: u128, q: u128)
    requires
        p < 128,
        q < 128,
    ensures
        bit_set(b & !(1u128 << p), q as int) == (bit_set(b, q as int) && p != q),
{
    assert(((b & !(1u128 << p)) & (1u128 << q) != 0) == ((b & (1u128 << q) != 0) && p != q))
        by (bit_vector)
        requires
            p < 128,
            q < 128,
    ;
}

proof fn lemma_zero_bit(q: u128)
    requires
        q < 128,
    ensures
        !bit_set(0, q as int),
{
    assert(0u128 & (1u128 << q) == 0) by (bit_vector)
        requires
            q < 128,
    ;
}

/// Priority level of a task.
pub open spec fn rt_level(s: TaskSchedInfo) -> int {
    if s.rt_priority > 99 {
        99
    } else {
        s.rt_priority as int
    }
}

/// The task is scheduled round-robin.
pub open spec fn is_round_robin(s: TaskSchedInfo) -> bool {
    s.policy is RoundRobin
}

impl RtState {
    /// The queue as it is created.
    pub open spec fn empty() -> RtState {
        RtState { queues: Seq::new(100, |i: int| Seq::empty()), nr_running: 0 }
    }

    /// All entries refer to tasks of the table.
    pub open spec fn valid(self, tasks: Map<usize, Task>) -> bool {
        forall|p: int, i: int|
            0 <= p < self.queues.len() && 0 <= i < self.queues[p].len() ==> tasks.contains_key(
                (#[trigger] self.queues[p][i]).id,
            )
    }

    /// `p` is the highest level that is not empty.
    pub open spec fn is_top(self, p: int) -> bool {
        &&& 0 <= p < self.queues.len()
        &&& self.queues[p].len() > 0
        &&& forall|o: int| p < o < self.queues.len() ==> (#[trigger] self.queues[o]).len() == 0
    }

    /// The highest level that is not empty.
    pub open spec fn top(self) -> int {
        choose|p: int| self.is_top(p)
    }

    /// No task is queued.
    pub open spec fn is_idle(self) -> bool {
        forall|p: int| 0 <= p < self.queues.len() ==> (#[trigger] self.queues[p]).len() == 0
    }

    /// The queue after `task` has joined at level `p`.
    pub open spec fn enqueue(self, task: TaskRef, p: int) -> RtState {
        RtState {
            queues: self.queues.update(p, self.queues[p].push(task)),
            nr_running: (self.nr_running + 1) as usize,
        }
    }

    /// `p` is the highest level that holds `task`.
    pub open spec fn is_level_of(self, task: TaskRef, p: int) -> bool {
        &&& 0 <= p < self.queues.len()
        &&& self.queues[p].contains(task)
        &&& forall|o: int| p < o < self.queues.len() ==> !(#[trigger] self.queues[o]).contains(task)
    }

    /// Some level holds `task`.
    pub open spec fn holds(self, task: TaskRef) -> bool {
        exists|p: int| 0 <= p < self.queues.len() && (#[trigger] self.queues[p]).contains(task)
    }

    /// The queue after `task` has left: its first entry on the highest level
    /// that holds it is gone.
    pub open spec fn dequeue(self, task: TaskRef) -> RtState {
        if self.holds(task) {
            let p = choose|p: int| self.is_level_of(task, p);
            RtState {
                queues: self.queues.update(p, self.queues[p].remove(first_pos(self.queues[p], task))),
                nr_running: mks::monus(self.nr_running as int, 1) as usize,
            }
        } else {
            self
        }
    }

    /// The task that `pick_next` hands out.
    pub open spec fn picked(self) -> Option<TaskRef> {
        if self.is_idle() {
            None
        } else {
            Some(self.queues[self.top()][0])
        }
    }

    /// The queue after `pick_next`: a round-robin task has moved to the back of
    /// its level, a FIFO task has left.
    pub open spec fn after_pick(self, tasks: Map<usize, Task>) -> RtState {
        if self.is_idle() {
            self
        } else {
            let p = self.top();
            let t = self.queues[p][0];
            if is_round_robin(tasks[t.id].sched) {
                RtState { queues: self.queues.update(p, self.queues[p].remove(0).push(t)), ..self }
            } else {
                RtState {
                    queues: self.queues.update(p, self.queues[p].remove(0)),
                    nr_running: mks::monus(self.nr_running as int, 1) as usize,
                }
            }
        }
    }
}

/// `i` is the first position of `t` in `s`.
pub open spec fn is_first_pos(s: Seq<TaskRef>, t: TaskRef, i: int) -> bool {
    0 <= i < s.len() && s[i] == t && forall|j: int| 0 <= j < i ==> #[trigger] s[j] != t
}

/// The first position of `t` in `s`.
pub open spec fn first_pos(s: Seq<TaskRef>, t: TaskRef) -> int {
    choose|i: int| is_first_pos(s, t, i)
}

/// Metadata of a real-time task after it has run for `elapsed_ns`: a round-robin task
/// whose slice is used up starts another one.
pub open spec fn rt_ticked(s: TaskSchedInfo, elapsed_ns: u64) -> TaskSchedInfo {
    if !is_round_robin(s) {
        s
    } else if s.rr_timeslice_remaining > elapsed_ns {
        TaskSchedInfo {
            rr_timeslice_remaining: (s.rr_timeslice_remaining - elapsed_ns) as u64,
            ..s
        }
    } else {
        TaskSchedInfo { rr_timeslice_remaining: s.policy->RoundRobin_0, ..s }
    }
}

impl View for RtRunQueue {
    type V = RtState;

    closed spec fn view(&self) -> RtState {
        RtState {
            queues: Seq::new(self.queues@.len(), |p: int| self.queues@[p]@),
            nr_running: self.nr_running,
        }
    }
}

impl RtRunQueue {
    /// There is one queue per level, and the bitmap tells the empty ones.
    pub closed spec fn wf(&self) -> bool {
        &&& self.queues@.len() == RT_PRIO_LEVELS
        &&& forall|p: int|
            0 <= p < RT_PRIO_LEVELS ==> (#[trigger] bit_set(self.bitmap, p) <==> self.queues@[p]@.len()
                > 0)
    }

    /// An empty queue.
    pub fn new() -> (q: Self)
        ensures
            q.wf(),
            q@ == RtState::empty(),
    {
        let mut queues: Vec<VecDeque<TaskRef>> = Vec::new();
        let mut i: usize = 0;
        while i < RT_PRIO_LEVELS
            invariant
                i <= RT_PRIO_LEVELS,
                queues@.len() == i,
                forall|p: int| 0 <= p < i ==> (#[trigger] queues@[p])@ == Seq::<TaskRef>::empty(),
            decreases RT_PRIO_LEVELS - i,
        {
            queues.push(VecDeque::new());
            i += 1;
        }
        let q = RtRunQueue { queues, bitmap: 0, nr_running: 0 };
        proof {
            assert forall|p: int| 0 <= p < RT_PRIO_LEVELS implies !(#[trigger] bit_set(0, p)) by {
                lemma_zero_bit(p as u128);
            }
            assert(q@.queues =~= RtState::empty().queues);
        }
        q
    }

    /// Appends a task to the queue of its priority.
    pub fn enqueue(&mut self, tasks: &TaskTable, task: TaskRef)
        requires
            old(self).wf(),
            tasks.wf(),
            tasks@.contains_key(task.id),
            old(self)@.nr_running < usize::MAX,
        ensures
            final(self).wf(),
            final(self)@ == old(self)@.enqueue(task, rt_level(tasks@[task.id].sched)),
            old(self)@.valid(tasks@) ==> final(self)@.valid(tasks@),
    {
        let ghost q = self@;
        let ghost b = self.bitmap;
        let wanted: u8 = tasks.read(task).sched.rt_priority;
        let prio: usize = if wanted > 99 {
            99
        } else {
            wanted as usize
        };
        self.queues[prio].push_back(task);
        self.bitmap = self.bitmap | (1u128 << prio);
        self.nr_running = self.nr_running + 1;
        proof {
            assert((1u128 << prio) == (1u128 << (prio as u128)));
            assert forall|p: int| 0 <= p < RT_PRIO_LEVELS implies (#[trigger] bit_set(
                self.bitmap,
                p,
            ) <==> self.queues@[p]@.len() > 0) by {
                lemma_set_bit(b, prio as u128, p as u128);
                assert(bit_set(b, p) == bit_set(b, (p as u128) as int));
            }
            assert(self@.queues =~= q.enqueue(task, prio as int).queues);
            if q.valid(tasks@) {
                assert forall|p: int, i: int|
                    0 <= p < self@.queues.len() && 0 <= i
                        < self@.queues[p].len() implies tasks@.contains_key(
                    (#[trigger] self@.queues[p][i]).id,
                ) by {
                    if i < q.queues[p].len() {
                        assert(self@.queues[p][i] == q.queues[p][i]);
                    }
                }
            }
        }
    }

    /// Removes a task from the highest level that holds it.
    pub fn dequeue(&mut self, task: TaskRef)
        requires
            old(self).wf(),
        ensures
            final(self).wf(),
            final(self)@ == old(self)@.dequeue(task),
            forall|tasks: Map<usize, Task>|
                old(self)@.valid(tasks) ==> (#[trigger] final(self)@.valid(tasks)),
    {
        let ghost q = self@;
        let mut next: usize = RT_PRIO_LEVELS;
        while next > 0
            invariant
                self.wf(),
                self@ == q,
                q == old(self)@,
                next <= RT_PRIO_LEVELS,
                forall|p: int|
                    next <= p < RT_PRIO_LEVELS ==> !(#[trigger] q.queues[p]).contains(task),
            decreases next,
        {
            let prio: usize = next - 1;
            next = prio;
            proof {
                assert((1u128 << prio) == (1u128 << (prio as u128)));
                assert(q.queues[prio as int] == self.queues@[prio as int]@);
                assert(bit_set(self.bitmap, prio as int) <==> self.queues@[prio as int]@.len() > 0);
            }
            if self.bitmap & (1u128 << prio) == 0 {
                continue;
            }
            let mut pos: usize = 0;
            while pos < self.queues[prio].len()
                invariant
                    self.wf(),
                    self@ == q,
                    q == old(self)@,
                    prio < RT_PRIO_LEVELS,
                    pos <= self.queues@[prio as int]@.len(),
                    q.queues[prio as int] == self.queues@[prio as int]@,
                    forall|p: int|
                        prio < p < RT_PRIO_LEVELS ==> !(#[trigger] q.queues[p]).contains(task),
                    forall|j: int| 0 <= j < pos ==> #[trigger] q.queues[prio as int][j] != task,
                decreases self.queues@[prio as int]@.len() - pos,
            {
                if self.queues[prio][pos].id == task.id {
                    let ghost b = self.bitmap;
                    let ghost before = self.queues@;
                    let _ = self.queues[prio].remove(pos);
                    if self.queues[prio].len() == 0 {
                        self.bitmap = self.bitmap & !(1u128 << prio);
                    }
                    self.nr_running = self.nr_running.saturating_sub(1);
                    proof {
                        assert((1u128 << prio) == (1u128 << (prio as u128)));
                        assert(is_first_pos(q.queues[prio as int], task, pos as int));
                        lemma_first_pos_unique(
                            q.queues[prio as int],
                            task,
                            pos as int,
                            first_pos(q.queues[prio as int], task),
                        );
                        assert(q.queues[prio as int].contains(task));
                        assert(q.is_level_of(task, prio as int));
                        let chosen = choose|p: int| q.is_level_of(task, p);
                        assert(chosen == prio) by {
                            if chosen < prio {
                                assert(!q.queues[prio as int].contains(task));
                            } else if chosen > prio {
                                assert(!q.queues[chosen].contains(task));
                            }
                        }
                        assert forall|p: int| 0 <= p < RT_PRIO_LEVELS implies (#[trigger] bit_set(
                            self.bitmap,
                            p,
                        ) <==> self.queues@[p]@.len() > 0) by {
                            lemma_clear_bit(b, prio as u128, p as u128);
                            assert(bit_set(b, p) == bit_set(b, (p as u128) as int));
                            if p != prio {
                                assert(self.queues@[p] == before[p]);
                            }
                        }
                        assert(self@.queues =~= q.dequeue(task).queues);
                        assert forall|tasks: Map<usize, Task>| q.valid(
                            tasks,
                        ) implies #[trigger] self@.valid(tasks) by {
                            assert forall|p: int, i: int|
                                0 <= p < self@.queues.len() && 0 <= i
                                    < self@.queues[p].len() implies tasks.contains_key(
                                (#[trigger] self@.queues[p][i]).id,
                            ) by {
                                if p == prio && i >= pos {
                                    assert(self@.queues[p][i] == q.queues[p][i + 1]);
                                } else {
                                    assert(self@.queues[p][i] == q.queues[p][i]);
                                }
                            }
                        }
                    }
                    return;
                }
                pos += 1;
            }
        }
    }

    /// Takes the task at the front of the highest level that is not empty. A
    /// round-robin task stays queued, at the back of its level.
    pub fn pick_next(&mut self, tasks: &TaskTable) -> (r: Option<TaskRef>)
        requires
            old(self).wf(),
            tasks.wf(),
            old(self)@.valid(tasks@),
        ensures
            final(self).wf(),
            r == old(self)@.picked(),
            r matches Some(t) ==> tasks@.contains_key(t.id),
            final(self)@ == old(self)@.after_pick(tasks@),
            final(self)@.valid(tasks@),
    {
        let ghost q = self@;
        let mut next: usize = RT_PRIO_LEVELS;
        while next > 0
            invariant
                self.wf(),
                self@ == q,
                q == old(self)@,
                tasks.wf(),
                q.valid(tasks@),
                next <= RT_PRIO_LEVELS,
                forall|p: int| next <= p < RT_PRIO_LEVELS ==> (#[trigger] q.queues[p]).len() == 0,
            decreases next,
        {
            let top_prio: usize = next - 1;
            next = top_prio;
            proof {
                assert((1u128 << top_prio) == (1u128 << (top_prio as u128)));
                assert(q.queues[top_prio as int] == self.queues@[top_prio as int]@);
                assert(bit_set(self.bitmap, top_prio as int)
                    <==> self.queues@[top_prio as int]@.len() > 0);
            }
            if self.bitmap & (1u128 << top_prio) == 0 {
                continue;
            }
            let ghost b = self.bitmap;
            let ghost before = self.queues@;
            proof {
                assert(q.is_top(top_prio as int));
                let chosen = q.top();
                assert(chosen == top_prio) by {
                    if chosen < top_prio {
                        assert(q.queues[top_prio as int].len() == 0);
                    } else if chosen > top_prio {
                        assert(q.queues[chosen].len() == 0);
                    }
                }
                assert(q.queues[top_prio as int].len() != 0);
                assert(tasks@.contains_key(q.queues[top_prio as int][0].id));
            }
            match self.queues[top_prio].pop_front() {
                Some(task) => {
                    assert(task == q.queues[top_prio as int][0]);
                    let is_rr = match tasks.read(task).sched.policy {
                        SchedClass::RoundRobin(_) => true,
                        _ => false,
                    };
                    if is_rr {
                        self.queues[top_prio].push_back(task);
                    } else {
                        if self.queues[top_prio].len() == 0 {
                            self.bitmap = self.bitmap & !(1u128 << top_prio);
                        }
                        self.nr_running = self.nr_running.saturating_sub(1);
                    }
                    proof {
                        assert((1u128 << top_prio) == (1u128 << (top_prio as u128)));
                        assert forall|p: int| 0 <= p < RT_PRIO_LEVELS implies (#[trigger] bit_set(
                            self.bitmap,
                            p,
                        ) <==> self.queues@[p]@.len() > 0) by {
                            lemma_clear_bit(b, top_prio as u128, p as u128);
                            assert(bit_set(b, p) == bit_set(b, (p as u128) as int));
                            if p != top_prio {
                                assert(self.queues@[p] == before[p]);
                            }
                        }
                        assert(q.queues[top_prio as int].subrange(
                            1,
                            q.queues[top_prio as int].len() as int,
                        ) =~= q.queues[top_prio as int].remove(0));
                        assert(self@.queues =~= q.after_pick(tasks@).queues);
                    }
                    return Some(task);
                },
                None => {
                    return None;
                },
            }
        }
        None
    }

    /// Accounts CPU time to a real-time task and says whether it has to yield:
    /// a round-robin task does once its timeslice is used up, and then starts a
    /// new one; a FIFO task never does.
    pub fn tick(&mut self, tasks: &mut TaskTable, task: TaskRef, elapsed_ns: u64) -> (r: bool)
        requires
            old(tasks).wf(),
            old(tasks)@.contains_key(task.id),
        ensures
            *final(self) == *old(self),
            final(tasks).wf(),
            final(tasks)@ == eevdf::with_sched(
                old(tasks)@,
                task.id,
                rt_ticked(old(tasks)@[task.id].sched, elapsed_ns),
            ),
            r == (is_round_robin(old(tasks)@[task.id].sched)
                && old(tasks)@[task.id].sched.rr_timeslice_remaining <= elapsed_ns),
    {
        let t = tasks.write(task);
        match t.sched.policy {
            SchedClass::RoundRobin(timeslice_ns) => {
                if t.sched.rr_timeslice_remaining > elapsed_ns {
                    t.sched.rr_timeslice_remaining = t.sched.rr_timeslice_remaining - elapsed_ns;
                    false
                } else {
                    t.sched.rr_timeslice_remaining = timeslice_ns;
                    true
                }
            },
            _ => false,
        }
    }
}

proof fn lemma_first_pos_unique(s: Seq<TaskRef>, t: TaskRef, a: int, b: int)
    requires
        is_first_pos(s, t, a),
        is_first_pos(s, t, b),
    ensures
        a == b,
{
    if a < b {
        assert(s[a] != t);
    } else if b < a {
        assert(s[b] != t);
    }
}

impl Default for RtRunQueue {
    fn default() -> (q: Self)
        ensures
            q.wf(),
            q@ == RtState::empty(),
    {
        RtRunQueue::new()
    }
}

/// No queued real-time task has a higher priority level than the one picked.
pub proof fn picked_task_has_highest_priority(q: RtState, p: int)
    requires
        0 <= p < q.queues.len(),
        q.queues[p].len() > 0,
    ensures
        q.picked() is Some,
        q.is_top(q.top()),
        p <= q.top(),
        q.picked() == Some(q.queues[q.top()][0]),
    decreases q.queues.len() - p,
{
    if forall|o: int| p < o < q.queues.len() ==> (#[trigger] q.queues[o]).len() == 0 {
        assert(q.is_top(p));
    } else {
        let o = choose|o: int| p < o < q.queues.len() && (#[trigger] q.queues[o]).len() != 0;
        picked_task_has_highest_priority(q, o);
    }
    assert(!q.is_idle());
}

/// A round-robin task that is picked moves behind all other tasks of its level,
/// so that picking again serves the next one.
pub proof fn round_robin_rotates(q: RtState, tasks: Map<usize, Task>)
    requires
        q.is_top(q.top()),
        is_round_robin(tasks[q.queues[q.top()][0].id].sched),
    ensures
        ({
            let p = q.top();
            let after = q.after_pick(tasks);
            &&& after.queues[p].len() == q.queues[p].len()
            &&& after.queues[p].last() == q.queues[p][0]
            &&& forall|i: int| 1 <= i < q.queues[p].len() ==> after.queues[p][i - 1]
                == #[trigger] q.queues[p][i]
            &&& after.nr_running == q.nr_running
        }),
{
}

// --- Deadline class ---

/// An admitted deadline task.
#[derive(Clone, Copy, Debug, PartialEq, Eq, Structural)]
pub struct DlTask {
    pub task: TaskRef,
    /// Absolute deadline in nanoseconds from boot, at which the current period ends.
    pub abs_deadline: u64,
    /// Remaining runtime of the current period.
    pub budget_remaining: u64,
    /// Length of a period, as it was admitted.
    pub period_ns: u64,
    /// Runtime in each period, as it was admitted.
    pub runtime_ns: u64,
    /// The deadline has been counted as missed.
    pub missed: bool,
}

/// Run queue for deadline tasks, by absolute deadline.
pub struct DeadlineRunQueue {
    /// Tasks that wait for the CPU.
    tasks: OrderedMap<DlTask>,
    /// Tasks that were picked and have not come back, by identifier.
    running: IdMap<DlTask>,
    /// Bandwidth of all admitted tasks together, in thousandths of a CPU.
    admitted_bandwidth: u64,
    /// Number of deadline tasks that wait for the CPU.
    pub nr_running: usize,
}

/// What a deadline run queue holds.
#[verifier::ext_equal]
pub struct DlState {
    /// Tasks that wait for the CPU.
    pub tasks: Map<(u64, u64), DlTask>,
    /// Tasks that were picked and have not come back.
    pub running: Map<u64, DlTask>,
    pub admitted_bandwidth: u64,
    pub nr_running: usize,
}

/// Bandwidth limit in thousandths of a CPU.
pub open spec fn dl_limit() -> int {
    SCHED_DL_BANDWIDTH_NUM * 10
}

/// Bandwidth of a task in thousandths of a CPU.
pub open spec fn dl_bandwidth(runtime_ns: int, period_ns: int) -> int {
    runtime_ns * 1000 / period_ns
}

/// The runtime of a deadline task can be expressed in thousandths.
pub open spec fn dl_runtime_fits(s: TaskSchedInfo) -> bool {
    s.policy matches SchedClass::Deadline { period_ns, runtime_ns } ==> runtime_ns * 1000
        <= u64::MAX
}

/// Bandwidth that the tasks of a map claim together.
pub open spec fn claims<K>(m: Map<K, DlTask>) -> int
    decreases m.dom().len(),
{
    if m.dom().finite() && m.dom().len() > 0 {
        let k = m.dom().choose();
        m[k].bandwidth() + claims(m.remove(k))
    } else {
        0
    }
}

impl DlTask {
    /// Bandwidth that the task claims.
    pub open spec fn bandwidth(self) -> int {
        dl_bandwidth(self.runtime_ns as int, self.period_ns as int)
    }

    /// The task as it stands at `now_ns`: one that has used up its budget gets a fresh
    /// one when its next period has started.
    pub open spec fn at(self, now_ns: u64) -> DlTask {
        if self.budget_remaining == 0 && self.abs_deadline <= now_ns {
            DlTask {
                abs_deadline: mks::min_of(
                    self.abs_deadline + self.period_ns,
                    u64::MAX as int,
                ) as u64,
                budget_remaining: self.runtime_ns,
                missed: false,
                ..self
            }
        } else {
            self
        }
    }

    /// The task has budget left at `now_ns`.
    pub open spec fn ready(self, now_ns: u64) -> bool {
        self.at(now_ns).budget_remaining > 0
    }

    /// The task after it has run for `elapsed_ns`.
    pub open spec fn charged(self, elapsed_ns: u64) -> DlTask {
        DlTask {
            budget_remaining: mks::monus(self.budget_remaining as int, elapsed_ns as int) as u64,
            ..self
        }
    }

    /// The task runs after its deadline, which has not been counted yet.
    pub open spec fn is_late(self, now_ns: u64) -> bool {
        self.abs_deadline < now_ns && !self.missed
    }

    /// The task as it stands at `now_ns`.
    fn refreshed(&self, now_ns: u64) -> (r: DlTask)
        ensures
            r == self.at(now_ns),
    {
        if self.budget_remaining == 0 && self.abs_deadline <= now_ns {
            DlTask {
                task: self.task,
                abs_deadline: self.abs_deadline.saturating_add(self.period_ns),
                budget_remaining: self.runtime_ns,
                period_ns: self.period_ns,
                runtime_ns: self.runtime_ns,
                missed: false,
            }
        } else {
            *self
        }
    }
}

impl DlState {
    /// The queue as it is created.
    pub open spec fn empty() -> DlState {
        DlState {
            tasks: Map::empty(),
            running: Map::empty(),
            admitted_bandwidth: 0,
            nr_running: 0,
        }
    }

    /// Every task has one entry, which stands at its own deadline while the task waits.
    pub open spec fn entries_match(self) -> bool {
        &&& forall|k: (u64, u64)| #[trigger]
            self.tasks.contains_key(k) ==> {
                &&& self.tasks[k].task.id == k.1
                &&& self.tasks[k].abs_deadline == k.0
                &&& self.tasks[k].period_ns > 0
                &&& !self.running.contains_key(k.1)
            }
        &&& forall|j: (u64, u64), k: (u64, u64)|
            #![trigger self.tasks.contains_key(j), self.tasks.contains_key(k)]
            self.tasks.contains_key(j) && self.tasks.contains_key(k) && j.1 == k.1 ==> j == k
        &&& forall|i: u64| #[trigger]
            self.running.contains_key(i) ==> self.running[i].task.id == i
                && self.running[i].period_ns > 0
    }

    /// Every task has one entry, the admitted bandwidth is the sum of what the tasks
    /// claim and within the limit, and the waiting tasks are counted.
    pub open spec fn consistent(self) -> bool {
        &&& self.tasks.dom().finite()
        &&& self.running.dom().finite()
        &&& self.entries_match()
        &&& self.admitted_bandwidth == claims(self.tasks) + claims(self.running)
        &&& self.admitted_bandwidth <= dl_limit()
        &&& self.nr_running == self.tasks.dom().len()
    }

    /// Every entry refers to a task of the table.
    pub open spec fn valid(self, tasks: Map<usize, Task>) -> bool {
        &&& forall|k: (u64, u64)| #[trigger]
            self.tasks.contains_key(k) ==> tasks.contains_key(self.tasks[k].task.id)
        &&& forall|i: u64| #[trigger]
            self.running.contains_key(i) ==> tasks.contains_key(self.running[i].task.id)
    }

    /// Task `id` has been admitted and has not left.
    pub open spec fn is_admitted(self, id: usize) -> bool {
        self.running.contains_key(id as u64) || ordered_map::has_id(self.tasks, id as u64)
    }

    /// The bandwidth of a further task with metadata `s` fits the limit.
    pub open spec fn admits(self, s: TaskSchedInfo) -> bool {
        match s.policy {
            SchedClass::Deadline { period_ns, runtime_ns } => period_ns != 0
                && self.admitted_bandwidth + dl_bandwidth(runtime_ns as int, period_ns as int)
                <= dl_limit(),
            _ => false,
        }
    }

    /// Task `id` with metadata `s` can join: it is admitted already, or its bandwidth
    /// fits the limit.
    pub open spec fn accepts(self, id: usize, s: TaskSchedInfo) -> bool {
        self.admits(s) || (self.is_admitted(id) && s.policy is Deadline
            && s.policy->Deadline_period_ns != 0)
    }

    /// All sums and products that an admission computes fit their types.
    pub open spec fn can_enqueue(self, s: TaskSchedInfo, now_ns: u64) -> bool {
        &&& dl_runtime_fits(s)
        &&& self.admits(s) ==> now_ns + s.policy->Deadline_period_ns <= u64::MAX
    }

    /// The queue after task `id` with metadata `s` was admitted: it claims its
    /// bandwidth, and its first period starts.
    pub open spec fn with_admitted(self, id: usize, s: TaskSchedInfo, now_ns: u64) -> DlState {
        let period = s.policy->Deadline_period_ns;
        let runtime = s.policy->Deadline_runtime_ns;
        let deadline = (now_ns + period) as u64;
        DlState {
            tasks: self.tasks.insert(
                (deadline, id as u64),
                DlTask {
                    task: TaskRef { id },
                    abs_deadline: deadline,
                    budget_remaining: runtime,
                    period_ns: period,
                    runtime_ns: runtime,
                    missed: false,
                },
            ),
            admitted_bandwidth: (self.admitted_bandwidth + dl_bandwidth(
                runtime as int,
                period as int,
            )) as u64,
            nr_running: (self.nr_running + 1) as usize,
            ..self
        }
    }

    /// The queue after task `id`, which was picked before, waits again. Its deadline,
    /// its budget and its bandwidth stay as they are.
    pub open spec fn put_back(self, id: usize) -> DlState {
        let e = self.running[id as u64];
        DlState {
            tasks: self.tasks.insert((e.abs_deadline, id as u64), e),
            running: self.running.remove(id as u64),
            nr_running: (self.nr_running + 1) as usize,
            ..self
        }
    }

    /// The queue after task `id` with metadata `s` has joined it. A task that is
    /// admitted already claims no further bandwidth.
    pub open spec fn enqueue(self, id: usize, s: TaskSchedInfo, now_ns: u64) -> DlState {
        if self.running.contains_key(id as u64) {
            self.put_back(id)
        } else if ordered_map::has_id(self.tasks, id as u64) {
            self
        } else {
            self.with_admitted(id, s, now_ns)
        }
    }

    /// The queue after task `id` has left and given its bandwidth back.
    pub open spec fn dequeue(self, id: usize) -> DlState {
        if self.running.contains_key(id as u64) {
            DlState {
                running: self.running.remove(id as u64),
                admitted_bandwidth: (self.admitted_bandwidth
                    - self.running[id as u64].bandwidth()) as u64,
                ..self
            }
        } else if ordered_map::has_id(self.tasks, id as u64) {
            let k = ordered_map::first_with_id(self.tasks, id as u64);
            DlState {
                tasks: self.tasks.remove(k),
                admitted_bandwidth: (self.admitted_bandwidth - self.tasks[k].bandwidth()) as u64,
                nr_running: (self.nr_running - 1) as usize,
                ..self
            }
        } else {
            self
        }
    }

    /// The entry at `k` has budget left at `now_ns`.
    pub open spec fn is_ready(self, k: (u64, u64), now_ns: u64) -> bool {
        self.tasks.contains_key(k) && self.tasks[k].ready(now_ns)
    }

    /// Some waiting task has budget left at `now_ns`.
    pub open spec fn has_ready(self, now_ns: u64) -> bool {
        exists|k: (u64, u64)| self.is_ready(k, now_ns)
    }

    /// Where the entry at `k` stands in the order of deadlines at `now_ns`.
    pub open spec fn rank(self, k: (u64, u64), now_ns: u64) -> (u64, u64) {
        (self.tasks[k].at(now_ns).abs_deadline, k.1)
    }

    /// The entry at `k` is the one with the earliest deadline among those that have
    /// budget left at `now_ns`.
    pub open spec fn is_earliest(self, k: (u64, u64), now_ns: u64) -> bool {
        &&& self.is_ready(k, now_ns)
        &&& forall|j: (u64, u64)| #[trigger]
            self.is_ready(j, now_ns) ==> ordered_map::key_le(
                self.rank(k, now_ns),
                self.rank(j, now_ns),
            )
    }

    /// The entry with the earliest deadline among those that have budget left.
    pub open spec fn earliest(self, now_ns: u64) -> (u64, u64) {
        choose|k: (u64, u64)| self.is_earliest(k, now_ns)
    }

    /// The task that `pick_next` hands out.
    pub open spec fn picked(self, now_ns: u64) -> Option<TaskRef> {
        if self.has_ready(now_ns) {
            Some(self.tasks[self.earliest(now_ns)].task)
        } else {
            None
        }
    }

    /// The queue after `pick_next`: the task that is handed out runs, in a new period if
    /// its last one is over.
    pub open spec fn after_pick(self, now_ns: u64) -> DlState {
        if self.has_ready(now_ns) {
            let k = self.earliest(now_ns);
            DlState {
                tasks: self.tasks.remove(k),
                running: self.running.insert(k.1, self.tasks[k].at(now_ns)),
                nr_running: (self.nr_running - 1) as usize,
                ..self
            }
        } else {
            self
        }
    }

    /// The entry of task `id`, which is admitted.
    pub open spec fn entry(self, id: usize) -> DlTask {
        if self.running.contains_key(id as u64) {
            self.running[id as u64]
        } else {
            self.tasks[ordered_map::first_with_id(self.tasks, id as u64)]
        }
    }

    /// The queue after task `id` has run for `elapsed_ns`.
    pub open spec fn tick(self, id: usize, elapsed_ns: u64) -> DlState {
        let e = self.entry(id).charged(elapsed_ns);
        if self.running.contains_key(id as u64) {
            DlState { running: self.running.insert(id as u64, e), ..self }
        } else if ordered_map::has_id(self.tasks, id as u64) {
            DlState {
                tasks: self.tasks.insert(ordered_map::first_with_id(self.tasks, id as u64), e),
                ..self
            }
        } else {
            self
        }
    }

    /// Whether task `id` has used up its budget after `elapsed_ns` more.
    pub open spec fn throttled(self, id: usize, elapsed_ns: u64) -> bool {
        self.is_admitted(id) && self.entry(id).budget_remaining <= elapsed_ns
    }

    /// Task `id` runs after its deadline, which has not been counted yet.
    pub open spec fn runs_late(self, id: usize, now_ns: u64) -> bool {
        self.running.contains_key(id as u64) && self.running[id as u64].is_late(now_ns)
    }

    /// The queue after it was noted at `now_ns` whether task `id` runs late.
    pub open spec fn noted(self, id: usize, now_ns: u64) -> DlState {
        if self.runs_late(id, now_ns) {
            DlState {
                running: self.running.insert(
                    id as u64,
                    DlTask { missed: true, ..self.running[id as u64] },
                ),
                ..self
            }
        } else {
            self
        }
    }
}

/// The claims of a map are those of one of its tasks and those of the rest.
proof fn lemma_claims<K>(m: Map<K, DlTask>, k: K)
    requires
        m.dom().finite(),
        m.contains_key(k),
    ensures
        claims(m) == m[k].bandwidth() + claims(m.remove(k)),
    decreases m.dom().len(),
{
    assert(m.dom().contains(k));
    let c = m.dom().choose();
    assert(m.remove(c).dom() =~= m.dom().remove(c));
    if c != k {
        assert(m.remove(k).dom() =~= m.dom().remove(k));
        assert(m.remove(c).contains_key(k));
        assert(m.remove(k).contains_key(c));
        lemma_claims(m.remove(c), k);
        lemma_claims(m.remove(k), c);
        assert(m.remove(c).remove(k) =~= m.remove(k).remove(c));
    }
}

/// A further task adds what it claims.
proof fn lemma_claims_insert<K>(m: Map<K, DlTask>, k: K, e: DlTask)
    requires
        m.dom().finite(),
        !m.contains_key(k),
    ensures
        claims(m.insert(k, e)) == claims(m) + e.bandwidth(),
{
    assert(m.insert(k, e).remove(k) =~= m);
    lemma_claims(m.insert(k, e), k);
}

/// A task that claims what it claimed before leaves the sum as it is.
proof fn lemma_claims_update<K>(m: Map<K, DlTask>, k: K, e: DlTask)
    requires
        m.dom().finite(),
        m.contains_key(k),
        e.bandwidth() == m[k].bandwidth(),
    ensures
        claims(m.insert(k, e)) == claims(m),
{
    assert(m.insert(k, e).remove(k) =~= m.remove(k));
    lemma_claims(m.insert(k, e), k);
    lemma_claims(m, k);
}

/// No tasks claim less than nothing.
proof fn lemma_claims_nonnegative<K>(m: Map<K, DlTask>)
    requires
        forall|k: K| #[trigger] m.contains_key(k) ==> m[k].period_ns > 0,
    ensures
        claims(m) >= 0,
    decreases m.dom().len(),
{
    if m.dom().finite() && m.dom().len() > 0 {
        let k = m.dom().choose();
        assert(m.contains_key(k));
        lemma_bandwidth_nonnegative(m[k].runtime_ns as int, m[k].period_ns as int);
        assert(m.remove(k).dom() =~= m.dom().remove(k));
        lemma_claims_nonnegative(m.remove(k));
    }
}

proof fn lemma_bandwidth_nonnegative(runtime_ns: int, period_ns: int)
    requires
        runtime_ns >= 0,
        period_ns > 0,
    ensures
        dl_bandwidth(runtime_ns, period_ns) >= 0,
{
    assert(runtime_ns * 1000 / period_ns >= 0) by (nonlinear_arith)
        requires
            runtime_ns >= 0,
            period_ns > 0,
    ;
}

/// An admitted task that waits has one key.
proof fn lemma_key_of(q: DlState, id: u64) -> (k: (u64, u64))
    requires
        q.entries_match(),
        ordered_map::has_id(q.tasks, id),
    ensures
        q.tasks.contains_key(k),
        k.1 == id,
        k == ordered_map::first_with_id(q.tasks, id),
        forall|j: (u64, u64)| #[trigger] q.tasks.contains_key(j) && j.1 == id ==> j == k,
{
    let k = choose|k: (u64, u64)| #[trigger] q.tasks.contains_key(k) && k.1 == id;
    assert(ordered_map::is_first_with_id(q.tasks, id, k));
    k
}

/// There is one earliest entry among those with budget left.
proof fn lemma_earliest(q: DlState, k: (u64, u64), now_ns: u64)
    requires
        q.entries_match(),
        q.is_earliest(k, now_ns),
    ensures
        q.has_ready(now_ns),
        k == q.earliest(now_ns),
{
    let e = q.earliest(now_ns);
    assert(q.is_earliest(e, now_ns));
    assert(q.is_ready(k, now_ns) && q.is_ready(e, now_ns));
    assert(q.tasks.contains_key(k) && q.tasks.contains_key(e));
}

/// The bandwidth of a task of a consistent queue can be given back.
proof fn lemma_claim_is_admitted(q: DlState, id: usize)
    requires
        q.consistent(),
        q.is_admitted(id),
    ensures
        0 <= q.entry(id).bandwidth() <= q.admitted_bandwidth,
{
    lemma_claims_nonnegative(q.tasks);
    lemma_claims_nonnegative(q.running);
    if q.running.contains_key(id as u64) {
        let e = q.running[id as u64];
        lemma_claims(q.running, id as u64);
        lemma_bandwidth_nonnegative(e.runtime_ns as int, e.period_ns as int);
        assert forall|i: u64| #[trigger] q.running.remove(id as u64).contains_key(
            i,
        ) implies q.running.remove(id as u64)[i].period_ns > 0 by {
            assert(q.running.contains_key(i));
        }
        lemma_claims_nonnegative(q.running.remove(id as u64));
    } else {
        let k = lemma_key_of(q, id as u64);
        lemma_claims(q.tasks, k);
        lemma_bandwidth_nonnegative(q.tasks[k].runtime_ns as int, q.tasks[k].period_ns as int);
        assert forall|j: (u64, u64)| #[trigger] q.tasks.remove(k).contains_key(
            j,
        ) implies q.tasks.remove(k)[j].period_ns > 0 by {
            assert(q.tasks.contains_key(j));
        }
        lemma_claims_nonnegative(q.tasks.remove(k));
    }
}

/// Admission keeps the admitted bandwidth the sum of the claims.
proof fn lemma_admit_consistent(q: DlState, id: usize, s: TaskSchedInfo, now_ns: u64)
    requires
        q.consistent(),
        q.admits(s),
        q.can_enqueue(s, now_ns),
        !q.is_admitted(id),
        q.nr_running < usize::MAX,
    ensures
        q.with_admitted(id, s, now_ns).consistent(),
{
    let r = q.with_admitted(id, s, now_ns);
    let period = s.policy->Deadline_period_ns;
    let runtime = s.policy->Deadline_runtime_ns;
    let k = ((now_ns + period) as u64, id as u64);
    lemma_bandwidth_nonnegative(runtime as int, period as int);
    assert(!q.tasks.contains_key(k));
    lemma_claims_insert(q.tasks, k, r.tasks[k]);
    assert forall|j: (u64, u64)| #[trigger] r.tasks.contains_key(j) && j.1 == id implies j == k by {
        if j != k {
            assert(q.tasks.contains_key(j));
        }
    }
}

/// Putting a task back keeps the admitted bandwidth the sum of the claims.
proof fn lemma_put_back_consistent(q: DlState, id: usize)
    requires
        q.consistent(),
        q.running.contains_key(id as u64),
        q.nr_running < usize::MAX,
    ensures
        q.put_back(id).consistent(),
        ordered_map::has_id(q.put_back(id).tasks, id as u64),
{
    let r = q.put_back(id);
    let e = q.running[id as u64];
    let k = (e.abs_deadline, id as u64);
    if q.tasks.contains_key(k) {
        assert(!q.running.contains_key(k.1));
    }
    lemma_claims_insert(q.tasks, k, e);
    lemma_claims(q.running, id as u64);
    assert(r.tasks.contains_key(k));
    assert forall|j: (u64, u64)| #[trigger] r.tasks.contains_key(j) && j.1 == id implies j == k by {
        if j != k {
            assert(q.tasks.contains_key(j));
        }
    }
}

/// A task that leaves keeps the admitted bandwidth the sum of the claims.
proof fn lemma_dequeue_consistent(q: DlState, id: usize)
    requires
        q.consistent(),
    ensures
        q.dequeue(id).consistent(),
        !q.dequeue(id).is_admitted(id),
{
    if q.is_admitted(id) {
        lemma_claim_is_admitted(q, id);
    }
    if q.running.contains_key(id as u64) {
        lemma_claims(q.running, id as u64);
        assert forall|j: (u64, u64)| #[trigger] q.tasks.contains_key(j) implies j.1 != id by {
            assert(!q.running.contains_key(j.1));
        }
    } else if ordered_map::has_id(q.tasks, id as u64) {
        let k = lemma_key_of(q, id as u64);
        lemma_claims(q.tasks, k);
        let r = q.dequeue(id);
        assert forall|j: (u64, u64)| #[trigger] r.tasks.contains_key(j) implies j.1 != id by {
            assert(q.tasks.contains_key(j));
        }
    }
}

/// A pick keeps the admitted bandwidth the sum of the claims.
proof fn lemma_pick_consistent(q: DlState, now_ns: u64)
    requires
        q.consistent(),
        q.has_ready(now_ns) ==> q.is_earliest(q.earliest(now_ns), now_ns),
    ensures
        q.after_pick(now_ns).consistent(),
{
    if q.has_ready(now_ns) {
        let k = q.earliest(now_ns);
        let r = q.after_pick(now_ns);
        let e = q.tasks[k].at(now_ns);
        assert(q.is_ready(k, now_ns));
        assert(q.tasks.contains_key(k));
        assert(!q.running.contains_key(k.1));
        lemma_claims(q.tasks, k);
        lemma_claims_insert(q.running, k.1, e);
        assert forall|j: (u64, u64)| #[trigger] r.tasks.contains_key(j) implies j.1 != k.1 by {
            assert(q.tasks.contains_key(j));
        }
    }
}

/// Charging a task keeps the admitted bandwidth the sum of the claims.
proof fn lemma_tick_consistent(q: DlState, id: usize, elapsed_ns: u64)
    requires
        q.consistent(),
    ensures
        q.tick(id, elapsed_ns).consistent(),
{
    let r = q.tick(id, elapsed_ns);
    if q.running.contains_key(id as u64) {
        let e = q.running[id as u64].charged(elapsed_ns);
        lemma_claims_update(q.running, id as u64, e);
        assert(r.running.dom() =~= q.running.dom());
    } else if ordered_map::has_id(q.tasks, id as u64) {
        let k = lemma_key_of(q, id as u64);
        lemma_claims_update(q.tasks, k, q.tasks[k].charged(elapsed_ns));
        assert(r.tasks.dom() =~= q.tasks.dom());
        assert forall|j: (u64, u64)| #[trigger] r.tasks.contains_key(j) implies q.tasks.contains_key(
            j,
        ) by {
        }
    }
}

/// Noting a miss keeps the admitted bandwidth the sum of the claims.
proof fn lemma_noted_consistent(q: DlState, id: usize, now_ns: u64)
    requires
        q.consistent(),
    ensures
        q.noted(id, now_ns).consistent(),
{
    if q.runs_late(id, now_ns) {
        let e = DlTask { missed: true, ..q.running[id as u64] };
        lemma_claims_update(q.running, id as u64, e);
        assert(q.noted(id, now_ns).running.dom() =~= q.running.dom());
    }
}

impl View for DeadlineRunQueue {
    type V = DlState;

    closed spec fn view(&self) -> DlState {
        DlState {
            tasks: self.tasks@,
            running: self.running@,
            admitted_bandwidth: self.admitted_bandwidth,
            nr_running: self.nr_running,
        }
    }
}

impl DeadlineRunQueue {
    /// The entries are in deadline order, and the admitted bandwidth is what the
    /// admitted tasks claim.
    pub closed spec fn wf(&self) -> bool {
        self.tasks.wf() && self.running.wf() && self@.consistent()
    }

    /// The admitted bandwidth is the sum of what the waiting and the running tasks
    /// claim, and never exceeds the limit.
    pub proof fn bandwidth_is_the_sum_of_claims(&self)
        requires
            self.wf(),
        ensures
            self@.consistent(),
            self@.admitted_bandwidth == claims(self@.tasks) + claims(self@.running),
            self@.admitted_bandwidth <= dl_limit(),
    {
    }

    /// An empty queue.
    pub fn new() -> (q: Self)
        ensures
            q.wf(),
            q@ == DlState::empty(),
    {
        let q = DeadlineRunQueue {
            tasks: OrderedMap::new(),
            running: IdMap::new(),
            admitted_bandwidth: 0,
            nr_running: 0,
        };
        proof {
            q.tasks.lemma_finite();
            q.running.lemma_finite();
            assert(q@.tasks.dom() =~= Set::empty());
            assert(q@.running.dom() =~= Set::empty());
        }
        q
    }

    /// Lets a picked task wait again.
    fn put_back(&mut self, task: TaskRef)
        requires
            old(self).wf(),
            old(self)@.running.contains_key(task.id as u64),
        ensures
            final(self).wf(),
            final(self)@ == old(self)@.put_back(task.id),
    {
        let ghost q = self@;
        if let Some(entry) = self.running.remove(task.id as u64) {
            let ghost k = (entry.abs_deadline, task.id as u64);
            proof {
                if q.tasks.contains_key(k) {
                    assert(!q.running.contains_key(k.1));
                }
            }
            self.tasks.insert((entry.abs_deadline, task.id as u64), entry);
            self.nr_running = self.tasks.len();
            proof {
                assert(self.tasks@.dom() =~= q.tasks.dom().insert(k));
                assert(self@ =~= q.put_back(task.id));
                lemma_put_back_consistent(q, task.id);
            }
        }
    }

    /// Admits and queues a deadline task, or says why it is refused. A task that is
    /// admitted already waits again, with the bandwidth, the deadline and the budget
    /// that it has.
    pub fn enqueue(&mut self, tasks: &TaskTable, task: TaskRef, now_ns: u64) -> (r: Result<
        (),
        &'static str,
    >)
        requires
            old(self).wf(),
            tasks.wf(),
            tasks@.contains_key(task.id),
            old(self)@.can_enqueue(tasks@[task.id].sched, now_ns),
        ensures
            final(self).wf(),
            r is Ok <==> old(self)@.accepts(task.id, tasks@[task.id].sched),
            r is Ok ==> final(self)@ == old(self)@.enqueue(
                task.id,
                tasks@[task.id].sched,
                now_ns,
            ),
            r is Err ==> final(self)@ == old(self)@,
            r matches Err(e) ==> match tasks@[task.id].sched.policy {
                SchedClass::Deadline { period_ns, runtime_ns } => if period_ns == 0 {
                    e@ == "MKS/DL: period cannot be zero"@
                } else {
                    e@ == "MKS/DL: admission control: bandwidth exceeded"@
                },
                _ => e@ == "MKS/DL: task is not SCHED_DEADLINE"@,
            },
    {
        let ghost q = self@;
        let ghost s = tasks@[task.id].sched;
        match tasks.read(task).sched.policy {
            SchedClass::Deadline { period_ns, runtime_ns } => {
                if period_ns == 0 {
                    return Err("MKS/DL: period cannot be zero");
                }
                if self.running.get(task.id as u64).is_some() {
                    self.put_back(task);
                    return Ok(());
                }
                if self.tasks.find_id(task.id as u64).is_some() {
                    return Ok(());
                }
                let bw: u64 = runtime_ns * 1000 / period_ns;
                let max_bw: u64 = SCHED_DL_BANDWIDTH_NUM * 10;
                if bw > max_bw - self.admitted_bandwidth {
                    return Err("MKS/DL: admission control: bandwidth exceeded");
                }
                self.admitted_bandwidth = self.admitted_bandwidth + bw;
                let abs_deadline: u64 = now_ns + period_ns;
                let entry = DlTask {
                    task,
                    abs_deadline,
                    budget_remaining: runtime_ns,
                    period_ns,
                    runtime_ns,
                    missed: false,
                };
                self.tasks.insert((abs_deadline, task.id as u64), entry);
                self.nr_running = self.tasks.len();
                proof {
                    let k = (abs_deadline, task.id as u64);
                    assert(!q.tasks.contains_key(k));
                    assert(self.tasks@.dom() =~= q.tasks.dom().insert(k));
                    assert(self@ =~= q.enqueue(task.id, s, now_ns));
                    lemma_admit_consistent(q, task.id, s, now_ns);
                }
                Ok(())
            },
            _ => Err("MKS/DL: task is not SCHED_DEADLINE"),
        }
    }

    /// Removes a deadline task, whether it waits or runs, and gives its bandwidth back.
    pub fn dequeue(&mut self, task: TaskRef)
        requires
            old(self).wf(),
        ensures
            final(self).wf(),
            final(self)@ == old(self)@.dequeue(task.id),
    {
        let ghost q = self@;
        proof {
            lemma_dequeue_consistent(q, task.id);
            if q.is_admitted(task.id) {
                lemma_claim_is_admitted(q, task.id);
            }
        }
        if let Some(entry) = self.running.remove(task.id as u64) {
            self.release(&entry);
            assert(self@ =~= q.dequeue(task.id));
            return;
        }
        assert(self.running@ =~= q.running);
        if let Some(key) = self.tasks.find_id(task.id as u64) {
            proof {
                let k = lemma_key_of(q, task.id as u64);
                assert(q.tasks.dom().contains(key));
            }
            if let Some(entry) = self.tasks.remove(key) {
                self.release(&entry);
                self.nr_running = self.tasks.len();
                assert(self.tasks@.dom() =~= q.tasks.dom().remove(key));
                assert(self@ =~= q.dequeue(task.id));
            }
        }
    }

    /// Takes what a task claims off the admitted bandwidth.
    fn release(&mut self, entry: &DlTask)
        requires
            entry.period_ns > 0,
            0 <= entry.bandwidth() <= old(self).admitted_bandwidth,
        ensures
            final(self).tasks == old(self).tasks,
            final(self).running == old(self).running,
            final(self).nr_running == old(self).nr_running,
            final(self).admitted_bandwidth == old(self).admitted_bandwidth - entry.bandwidth(),
    {
        let bw: u128 = (entry.runtime_ns as u128) * 1000 / (entry.period_ns as u128);
        self.admitted_bandwidth = self.admitted_bandwidth - bw as u64;
    }

    /// Takes the task with the earliest deadline among those that have budget left at
    /// `now_ns`. A task that has used up its budget gets a fresh one when its next period
    /// has started, and not before.
    pub fn pick_next(&mut self, now_ns: u64) -> (r: Option<TaskRef>)
        requires
            old(self).wf(),
        ensures
            final(self).wf(),
            r == old(self)@.picked(now_ns),
            final(self)@ == old(self)@.after_pick(now_ns),
    {
        let ghost q = self@;
        let keys = self.tasks.keys();
        let mut best: Option<((u64, u64), DlTask)> = None;
        let mut i: usize = 0;
        while i < keys.len()
            invariant
                i <= keys@.len(),
                self.wf(),
                self@ == q,
                forall|k: (u64, u64)| #[trigger] keys@.contains(k) <==> q.tasks.contains_key(k),
                match best {
                    Some((k, e)) => {
                        &&& q.is_ready(k, now_ns)
                        &&& e == q.tasks[k].at(now_ns)
                        &&& forall|j: int|
                            0 <= j < i && q.is_ready(#[trigger] keys@[j], now_ns)
                                ==> ordered_map::key_le(
                                q.rank(k, now_ns),
                                q.rank(keys@[j], now_ns),
                            )
                    },
                    None => forall|j: int|
                        0 <= j < i ==> !q.is_ready(#[trigger] keys@[j], now_ns),
                },
            decreases keys@.len() - i,
        {
            let key = keys[i];
            assert(keys@.contains(key));
            if let Some(stored) = self.tasks.get(key) {
                let entry = stored.refreshed(now_ns);
                if entry.budget_remaining > 0 {
                    let better = match best {
                        Some((k, e)) => key_less((entry.abs_deadline, key.1), (e.abs_deadline, k.1)),
                        None => true,
                    };
                    if better {
                        best = Some((key, entry));
                    }
                }
            }
            i += 1;
        }
        match best {
            None => {
                proof {
                    if q.has_ready(now_ns) {
                        let k = choose|k: (u64, u64)| q.is_ready(k, now_ns);
                        assert(keys@.contains(k));
                        let j = choose|j: int| 0 <= j < keys@.len() && keys@[j] == k;
                        assert(!q.is_ready(keys@[j], now_ns));
                    }
                }
                None
            },
            Some((key, entry)) => {
                proof {
                    assert(q.is_earliest(key, now_ns)) by {
                        assert forall|k: (u64, u64)| #[trigger]
                            q.is_ready(k, now_ns) implies ordered_map::key_le(
                            q.rank(key, now_ns),
                            q.rank(k, now_ns),
                        ) by {
                            assert(keys@.contains(k));
                            let j = choose|j: int| 0 <= j < keys@.len() && keys@[j] == k;
                            assert(q.is_ready(keys@[j], now_ns));
                        }
                    }
                    lemma_earliest(q, key, now_ns);
                    lemma_pick_consistent(q, now_ns);
                }
                self.tasks.remove(key);
                self.running.insert(key.1, entry);
                self.nr_running = self.tasks.len();
                assert(q.tasks.dom().contains(key));
                assert(self.tasks@.dom() =~= q.tasks.dom().remove(key));
                assert(self@ =~= q.after_pick(now_ns));
                Some(entry.task)
            },
        }
    }

    /// Charges CPU time to the budget of a task; returns whether the budget is
    /// used up.
    pub fn tick(&mut self, task: TaskRef, elapsed_ns: u64) -> (r: bool)
        requires
            old(self).wf(),
        ensures
            final(self).wf(),
            final(self)@ == old(self)@.tick(task.id, elapsed_ns),
            r == old(self)@.throttled(task.id, elapsed_ns),
    {
        let ghost q = self@;
        proof {
            lemma_tick_consistent(q, task.id, elapsed_ns);
        }
        if let Some(entry) = self.running.get_mut(task.id as u64) {
            let exhausted = entry.budget_remaining <= elapsed_ns;
            entry.budget_remaining = entry.budget_remaining.saturating_sub(elapsed_ns);
            assert(self@ =~= q.tick(task.id, elapsed_ns));
            return exhausted;
        }
        match self.tasks.find_id(task.id as u64) {
            Some(key) => {
                match self.tasks.get_mut(key) {
                    Some(entry) => {
                        let exhausted = entry.budget_remaining <= elapsed_ns;
                        entry.budget_remaining = entry.budget_remaining.saturating_sub(elapsed_ns);
                        assert(self@ =~= q.tick(task.id, elapsed_ns));
                        exhausted
                    },
                    None => false,
                }
            },
            None => false,
        }
    }

    /// Whether a picked task runs after its deadline; each deadline counts once.
    pub fn note_miss(&mut self, task: TaskRef, now_ns: u64) -> (r: bool)
        requires
            old(self).wf(),
        ensures
            final(self).wf(),
            r == old(self)@.runs_late(task.id, now_ns),
            final(self)@ == old(self)@.noted(task.id, now_ns),
    {
        let ghost q = self@;
        proof {
            lemma_noted_consistent(q, task.id, now_ns);
        }
        let late = match self.running.get(task.id as u64) {
            Some(entry) => entry.abs_deadline < now_ns && !entry.missed,
            None => false,
        };
        if late {
            if let Some(entry) = self.running.get_mut(task.id as u64) {
                entry.missed = true;
            }
            assert(self@ =~= q.noted(task.id, now_ns));
        }
        late
    }
}

impl Default for DeadlineRunQueue {
    fn default() -> (q: Self)
        ensures
            q.wf(),
            q@ == DlState::empty(),
    {
        DeadlineRunQueue::new()
    }
}

/// Admission control: after every operation the admitted bandwidth is the sum of what
/// the admitted tasks claim, waiting and running, and within the limit.
pub proof fn bandwidth_stays_the_sum_of_claims(
    q: DlState,
    id: usize,
    s: TaskSchedInfo,
    now_ns: u64,
    elapsed_ns: u64,
)
    requires
        q.consistent(),
        q.can_enqueue(s, now_ns),
        q.nr_running < usize::MAX,
    ensures
        DlState::empty().consistent(),
        q.accepts(id, s) ==> q.enqueue(id, s, now_ns).consistent(),
        q.dequeue(id).consistent(),
        q.after_pick(now_ns).consistent(),
        q.tick(id, elapsed_ns).consistent(),
        q.noted(id, now_ns).consistent(),
{
    assert(DlState::empty().tasks.dom() =~= Set::empty());
    assert(DlState::empty().running.dom() =~= Set::empty());
    if q.running.contains_key(id as u64) {
        lemma_put_back_consistent(q, id);
    } else if !ordered_map::has_id(q.tasks, id as u64) && q.accepts(id, s) {
        lemma_admit_consistent(q, id, s, now_ns);
    }
    lemma_dequeue_consistent(q, id);
    earliest_deadline_is_picked(q, now_ns);
    lemma_pick_consistent(q, now_ns);
    lemma_tick_consistent(q, id, elapsed_ns);
    lemma_noted_consistent(q, id, now_ns);
}

/// An admitted task that joins the queue again stands in it, and claims no further
/// bandwidth.
pub proof fn admitted_task_waits_again(q: DlState, id: usize, s: TaskSchedInfo, now_ns: u64)
    requires
        q.is_admitted(id),
    ensures
        ordered_map::has_id(q.enqueue(id, s, now_ns).tasks, id as u64),
        q.enqueue(id, s, now_ns).admitted_bandwidth == q.admitted_bandwidth,
{
    if q.running.contains_key(id as u64) {
        let k = (q.running[id as u64].abs_deadline, id as u64);
        assert(q.put_back(id).tasks.contains_key(k));
    }
}

/// Charging an admitted task changes its own budget and nothing else.
pub proof fn charging_keeps_the_entry(q: DlState, id: usize, elapsed_ns: u64)
    requires
        q.consistent(),
        q.is_admitted(id),
    ensures
        q.tick(id, elapsed_ns).is_admitted(id),
        q.tick(id, elapsed_ns).entry(id) == q.entry(id).charged(elapsed_ns),
        q.tick(id, elapsed_ns).admitted_bandwidth == q.admitted_bandwidth,
        forall|o: usize|
            o != id && q.is_admitted(o) ==> #[trigger] q.tick(id, elapsed_ns).entry(o) == q.entry(
                o,
            ),
{
    let r = q.tick(id, elapsed_ns);
    lemma_tick_consistent(q, id, elapsed_ns);
    if ordered_map::has_id(q.tasks, id as u64) {
        let k = lemma_key_of(q, id as u64);
        if !q.running.contains_key(id as u64) {
            assert(r.tasks.contains_key(k));
            let found = lemma_key_of(r, id as u64);
            assert(found == k);
        }
    }
    assert forall|o: usize| o != id && q.is_admitted(o) implies #[trigger] r.entry(o) == q.entry(
        o,
    ) by {
        if !q.running.contains_key(o as u64) {
            let k = lemma_key_of(q, o as u64);
            assert(r.tasks.contains_key(k));
            let found = lemma_key_of(r, o as u64);
            assert(found == k);
        }
    }
}

/// Noting that a task runs late changes neither who is admitted nor what is claimed.
pub proof fn noting_keeps_the_queue(q: DlState, id: usize, now_ns: u64)
    requires
        q.consistent(),
    ensures
        q.noted(id, now_ns).consistent(),
        q.noted(id, now_ns).tasks == q.tasks,
        q.noted(id, now_ns).admitted_bandwidth == q.admitted_bandwidth,
        forall|o: usize| q.noted(id, now_ns).is_admitted(o) <==> q.is_admitted(o),
{
    lemma_noted_consistent(q, id, now_ns);
}

/// Every entry still refers to a task of the table after a task of the table has joined
/// or left, has been charged, or has run late.
pub proof fn deadline_entries_stay_valid(
    q: DlState,
    tasks: Map<usize, Task>,
    id: usize,
    s: TaskSchedInfo,
    now_ns: u64,
    elapsed_ns: u64,
)
    requires
        q.consistent(),
        q.valid(tasks),
        tasks.contains_key(id),
    ensures
        q.enqueue(id, s, now_ns).valid(tasks),
        q.dequeue(id).valid(tasks),
        q.tick(id, elapsed_ns).valid(tasks),
        q.noted(id, now_ns).valid(tasks),
{
    if ordered_map::has_id(q.tasks, id as u64) {
        let k = lemma_key_of(q, id as u64);
    }
}

/// A task that is admitted and leaves again gives back exactly the bandwidth it
/// had claimed.
pub proof fn admission_is_undone_by_dequeue(q: DlState, id: usize, s: TaskSchedInfo, now_ns: u64)
    requires
        q.consistent(),
        q.admits(s),
        q.can_enqueue(s, now_ns),
        q.nr_running < usize::MAX,
        !q.is_admitted(id),
    ensures
        q.enqueue(id, s, now_ns).dequeue(id) == q,
{
    let e = q.enqueue(id, s, now_ns);
    let period = s.policy->Deadline_period_ns;
    let k = ((now_ns + period) as u64, id as u64);
    lemma_admit_consistent(q, id, s, now_ns);
    lemma_bandwidth_nonnegative(s.policy->Deadline_runtime_ns as int, period as int);
    assert(e.tasks.contains_key(k));
    assert(!q.tasks.contains_key(k));
    let found = lemma_key_of(e, id as u64);
    assert(found == k);
    assert(e.dequeue(id).tasks =~= q.tasks);
    assert(e.dequeue(id) =~= q);
}

/// While some waiting task has budget left, a task is handed out: one with budget left,
/// before whose deadline no other such task has its own.
pub proof fn earliest_deadline_is_picked(q: DlState, now_ns: u64)
    requires
        q.consistent(),
    ensures
        q.picked(now_ns) is Some <==> q.has_ready(now_ns),
        q.has_ready(now_ns) ==> {
            &&& q.is_earliest(q.earliest(now_ns), now_ns)
            &&& q.picked(now_ns) == Some(q.tasks[q.earliest(now_ns)].task)
        },
{
    if q.has_ready(now_ns) {
        let ready = Map::new(
            |r: (u64, u64)|
                exists|k: (u64, u64)| #[trigger] q.is_ready(k, now_ns) && q.rank(k, now_ns) == r,
            |r: (u64, u64)| (),
        );
        let ranks = q.tasks.dom().map(|k: (u64, u64)| q.rank(k, now_ns));
        assert(ready.dom().subset_of(ranks)) by {
            assert forall|r: (u64, u64)| ready.dom().contains(r) implies ranks.contains(r) by {
                let k = choose|k: (u64, u64)| #[trigger]
                    q.is_ready(k, now_ns) && q.rank(k, now_ns) == r;
                assert(q.tasks.dom().contains(k));
            }
        }
        q.tasks.dom().lemma_map_finite(|k: (u64, u64)| q.rank(k, now_ns));
        vstd::set_lib::lemma_set_subset_finite(ranks, ready.dom());
        let some = choose|k: (u64, u64)| q.is_ready(k, now_ns);
        assert(ready.dom().contains(q.rank(some, now_ns)));
        crate::ordered_map::finite_map_has_first(ready);
        let first = ordered_map::first_of(ready);
        assert(ready.contains_key(first));
        let k = choose|k: (u64, u64)| #[trigger] q.is_ready(k, now_ns) && q.rank(k, now_ns) == first;
        assert(q.is_earliest(k, now_ns)) by {
            assert forall|j: (u64, u64)| #[trigger] q.is_ready(j, now_ns) implies ordered_map::key_le(
                q.rank(k, now_ns),
                q.rank(j, now_ns),
            ) by {
                assert(ready.contains_key(q.rank(j, now_ns)));
            }
        }
    }
}

/// A task that has used up its budget is not handed out before its next period starts,
/// and then has the runtime of one period.
pub proof fn exhausted_task_waits_for_its_next_period(e: DlTask, now_ns: u64)
    requires
        e.budget_remaining == 0,
    ensures
        now_ns < e.abs_deadline ==> !e.ready(now_ns),
        now_ns >= e.abs_deadline ==> e.at(now_ns).budget_remaining == e.runtime_ns,
{
}

/// A task that is picked, runs and comes back has been charged for what it ran, waits
/// again, and claims the bandwidth that it claimed before.
pub proof fn picked_task_is_charged_and_waits_again(
    q: DlState,
    s: TaskSchedInfo,
    now_ns: u64,
    elapsed_ns: u64,
    later_ns: u64,
)
    requires
        q.consistent(),
        q.has_ready(now_ns),
    ensures
        ({
            let id = q.picked(now_ns)->Some_0.id;
            let before = q.tasks[q.earliest(now_ns)].at(now_ns);
            let ran = q.after_pick(now_ns).tick(id, elapsed_ns);
            let back = ran.enqueue(id, s, later_ns);
            &&& q.after_pick(now_ns).throttled(id, elapsed_ns) == (before.budget_remaining
                <= elapsed_ns)
            &&& ran.running[id as u64].budget_remaining == mks::monus(
                before.budget_remaining as int,
                elapsed_ns as int,
            )
            &&& ordered_map::has_id(back.tasks, id as u64)
            &&& back.entry(id) == before.charged(elapsed_ns)
            &&& back.admitted_bandwidth == q.admitted_bandwidth
        }),
{
    earliest_deadline_is_picked(q, now_ns);
    lemma_pick_consistent(q, now_ns);
    let k = q.earliest(now_ns);
    assert(q.is_ready(k, now_ns));
    assert(q.tasks.contains_key(k));
    let id = q.picked(now_ns)->Some_0.id;
    let p = q.after_pick(now_ns);
    let ran = p.tick(id, elapsed_ns);
    lemma_tick_consistent(p, id, elapsed_ns);
    assert(q.tasks.dom().contains(k));
    lemma_put_back_consistent(ran, id);
    let back = ran.put_back(id);
    let at = (ran.running[id as u64].abs_deadline, id as u64);
    assert(back.tasks.contains_key(at));
    let found = lemma_key_of(back, id as u64);
    assert(found == at);
}

/// There are a hundred levels, and a task stands at the level of its priority, but not above
/// the last. It joins at the end of its level; the other levels stay as they are.
pub proof fn rt_task_joins_the_end_of_its_level(q: RtState, s: TaskSchedInfo, task: TaskRef, o: int)
    requires
        q.queues.len() == 100,
        q.nr_running < usize::MAX,
        0 <= o < 100,
    ensures
        ({
            let p = if s.rt_priority < 100 { s.rt_priority as int } else { 99 };
            let e = q.enqueue(task, rt_level(s));
            &&& e.queues.len() == 100
            &&& e.queues[p].drop_last() == q.queues[p]
            &&& e.queues[p].last() == task
            &&& o != p ==> e.queues[o] == q.queues[o]
            &&& e.nr_running == q.nr_running + 1
        }),
        RtState::empty().queues.len() == 100,
        RtState::empty().queues[o].len() == 0,
        RtState::empty().nr_running == 0,
{
    let p = rt_level(s);
    assert(q.enqueue(task, p).queues[p].drop_last() =~= q.queues[p]);
}

/// A task is picked exactly if some level is not empty: the first of the highest such level.
/// Only that level changes: the task leaves it, or goes to its end if it takes turns.
pub proof fn rt_pick_serves_the_highest_level(
    q: RtState,
    tasks: Map<usize, Task>,
    p: int,
    o: int,
)
    requires
        0 <= p < q.queues.len(),
        q.queues[p].len() > 0,
        forall|i: int| p < i < q.queues.len() ==> (#[trigger] q.queues[i]).len() == 0,
        q.nr_running > 0,
        0 <= o < q.queues.len(),
    ensures
        ({
            let t = q.queues[p][0];
            let a = q.after_pick(tasks);
            &&& q.picked() == Some(t)
            &&& o != p ==> a.queues[o] == q.queues[o]
            &&& a.queues.len() == q.queues.len()
            &&& tasks[t.id].sched.policy is RoundRobin ==> a.queues[p] == q.queues[p].subrange(
                1,
                q.queues[p].len() as int,
            ).push(t) && a.nr_running == q.nr_running
            &&& !(tasks[t.id].sched.policy is RoundRobin) ==> a.queues[p] == q.queues[p].subrange(
                1,
                q.queues[p].len() as int,
            ) && a.nr_running == q.nr_running - 1
        }),
{
    picked_task_has_highest_priority(q, p);
    assert(q.top() == p) by {
        if q.top() > p {
            assert(q.queues[q.top()].len() == 0);
        }
    }
    assert(q.queues[p].remove(0) =~= q.queues[p].subrange(1, q.queues[p].len() as int));
}

/// A queue whose levels are all empty gives no task and stays as it is.
pub proof fn idle_rt_queue_gives_no_task(q: RtState, tasks: Map<usize, Task>)
    requires
        forall|i: int| 0 <= i < q.queues.len() ==> (#[trigger] q.queues[i]).len() == 0,
    ensures
        q.picked() is None,
        q.after_pick(tasks) == q,
{
}

/// Taking a task out removes one entry of it, the first of its highest level, and nothing of
/// any other task.
pub proof fn rt_dequeue_takes_one_entry(q: RtState, task: TaskRef, p: int, i: int)
    requires
        0 <= p < q.queues.len(),
        0 <= i < q.queues[p].len(),
        q.queues[p][i] == task,
        forall|j: int| 0 <= j < i ==> #[trigger] q.queues[p][j] != task,
        forall|o: int| p < o < q.queues.len() ==> !(#[trigger] q.queues[o]).contains(task),
        q.nr_running > 0,
    ensures
        q.dequeue(task).queues == q.queues.update(p, q.queues[p].remove(i)),
        q.dequeue(task).nr_running == q.nr_running - 1,
{
    assert(q.queues[p].contains(task));
    assert(q.is_level_of(task, p));
    let o = choose|o: int| q.is_level_of(task, o);
    assert(q.is_level_of(task, o));
    assert(o == p) by {
        if o < p {
            assert(!q.queues[p].contains(task));
        }
    }
    assert(is_first_pos(q.queues[p], task, i));
    lemma_first_pos_unique(q.queues[p], task, i, first_pos(q.queues[p], task));
}

/// A task that is in no level is left alone.
pub proof fn rt_dequeue_ignores_strangers(q: RtState, task: TaskRef)
    requires
        forall|o: int| 0 <= o < q.queues.len() ==> !(#[trigger] q.queues[o]).contains(task),
    ensures
        q.dequeue(task) == q,
{
}

/// The slice of a task that takes turns runs down with time and is refilled when it is used
/// up; a task that does not keeps running.
pub proof fn round_robin_slice_runs_down(s: TaskSchedInfo, slice: u64, elapsed_ns: u64)
    ensures
        s.policy == SchedClass::RoundRobin(slice) ==> {
            let t = rt_ticked(s, elapsed_ns);
            &&& t == (TaskSchedInfo { rr_timeslice_remaining: t.rr_timeslice_remaining, ..s })
            &&& elapsed_ns < s.rr_timeslice_remaining ==> t.rr_timeslice_remaining + elapsed_ns
                == s.rr_timeslice_remaining
            &&& elapsed_ns >= s.rr_timeslice_remaining ==> t.rr_timeslice_remaining == slice
        },
        !(s.policy is RoundRobin) ==> rt_ticked(s, elapsed_ns) == s,
        is_round_robin(s) <==> s.policy is RoundRobin,
{
}

/// A deadline task claims its share of a CPU in thousandths, rounded down. It is admitted
/// exactly if it has a period and all claims together stay within 950 thousandths.
pub proof fn admission_keeps_a_reserve(
    q: DlState,
    s: TaskSchedInfo,
    period_ns: u64,
    runtime_ns: u64,
)
    ensures
        s.policy == (SchedClass::Deadline { period_ns, runtime_ns }) && period_ns > 0 ==> {
            let b = dl_bandwidth(runtime_ns as int, period_ns as int);
            &&& b * period_ns <= 1000 * runtime_ns < (b + 1) * period_ns
            &&& q.admits(s) <==> q.admitted_bandwidth + b <= 950
        },
        s.policy == (SchedClass::Deadline { period_ns, runtime_ns }) && period_ns == 0
            ==> !q.admits(s),
        !(s.policy is Deadline) ==> !q.admits(s),
        dl_limit() == 950,
{
    if period_ns > 0 {
        let x = runtime_ns * 1000;
        let d = period_ns as int;
        let b = x / d;
        vstd::arithmetic::div_mod::lemma_fundamental_div_mod(x, d);
        assert(b * d <= x < (b + 1) * d) by (nonlinear_arith)
            requires
                x == d * b + x % d,
                0 <= x % d < d,
        ;
    }
}

/// An admitted task waits with its whole runtime for a deadline one period from now, and its
/// claim is counted. The other entries stay.
pub proof fn admitted_task_has_one_period(
    q: DlState,
    id: usize,
    s: TaskSchedInfo,
    period_ns: u64,
    runtime_ns: u64,
    now_ns: u64,
)
    requires
        s.policy == (SchedClass::Deadline { period_ns, runtime_ns }),
        period_ns > 0,
        q.admits(s),
        !q.is_admitted(id),
        now_ns + period_ns <= u64::MAX,
        q.nr_running < usize::MAX,
    ensures
        ({
            let e = q.enqueue(id, s, now_ns);
            let k = ((now_ns + period_ns) as u64, id as u64);
            &&& e.tasks == q.tasks.insert(
                k,
                DlTask {
                    task: TaskRef { id },
                    abs_deadline: (now_ns + period_ns) as u64,
                    budget_remaining: runtime_ns,
                    period_ns,
                    runtime_ns,
                    missed: false,
                },
            )
            &&& e.running == q.running
            &&& e.admitted_bandwidth == q.admitted_bandwidth + dl_bandwidth(
                runtime_ns as int,
                period_ns as int,
            )
            &&& e.nr_running == q.nr_running + 1
        }),
{
    admission_keeps_a_reserve(q, s, period_ns, runtime_ns);
    lemma_bandwidth_nonnegative(runtime_ns as int, period_ns as int);
}

/// Time is taken off the budget of a task, down to zero. A task whose budget is used up gets
/// a new one, of its whole runtime, when its period has ended, and with it the next deadline;
/// until then it cannot run.
pub proof fn budget_lasts_one_period(e: DlTask, elapsed_ns: u64, now_ns: u64)
    ensures
        ({
            let c = e.charged(elapsed_ns);
            &&& c == (DlTask { budget_remaining: c.budget_remaining, ..e })
            &&& elapsed_ns <= e.budget_remaining ==> c.budget_remaining + elapsed_ns
                == e.budget_remaining
            &&& elapsed_ns > e.budget_remaining ==> c.budget_remaining == 0
        }),
        e.budget_remaining > 0 ==> e.at(now_ns) == e && e.ready(now_ns),
        e.budget_remaining == 0 && now_ns < e.abs_deadline ==> e.at(now_ns) == e && !e.ready(now_ns),
        e.budget_remaining == 0 && now_ns >= e.abs_deadline ==> {
            let r = e.at(now_ns);
            &&& r.budget_remaining == e.runtime_ns
            &&& !r.missed
            &&& e.abs_deadline + e.period_ns <= u64::MAX ==> r.abs_deadline == e.abs_deadline
                + e.period_ns
            &&& r.period_ns == e.period_ns && r.runtime_ns == e.runtime_ns && r.task == e.task
            &&& e.ready(now_ns) <==> e.runtime_ns > 0
        },
{
}

/// A task has to stop exactly when a tick uses up what is left of its budget.
pub proof fn task_stops_when_its_budget_is_used_up(q: DlState, id: usize, elapsed_ns: u64)
    requires
        q.consistent(),
    ensures
        q.throttled(id, elapsed_ns) <==> q.is_admitted(id) && q.tick(id, elapsed_ns).entry(
            id,
        ).budget_remaining == 0,
        !q.is_admitted(id) ==> q.tick(id, elapsed_ns) == q,
        q.tick(id, elapsed_ns).nr_running == q.nr_running,
{
    if q.is_admitted(id) {
        charging_keeps_the_entry(q, id, elapsed_ns);
    }
}

/// Of the tasks that have a budget the one with the earliest deadline is picked, of two with
/// the same deadline the one with the lower number. It runs from then on; the others wait as
/// before.
pub proof fn deadline_pick_takes_the_earliest(q: DlState, now_ns: u64, k: (u64, u64))
    requires
        q.consistent(),
        q.tasks.contains_key(k),
        q.tasks[k].at(now_ns).budget_remaining > 0,
    ensures
        q.picked(now_ns) is Some,
        ({
            let e = q.tasks[q.earliest(now_ns)].at(now_ns);
            let o = q.tasks[k].at(now_ns);
            let a = q.after_pick(now_ns);
            &&& q.picked(now_ns) == Some(e.task)
            &&& e.budget_remaining > 0
            &&& e.abs_deadline < o.abs_deadline || (e.abs_deadline == o.abs_deadline && e.task.id
                <= o.task.id)
            &&& a.running.contains_key(e.task.id as u64) && a.running[e.task.id as u64] == e
            &&& k.1 != e.task.id ==> a.tasks.contains_key(k) && a.tasks[k] == q.tasks[k]
            &&& k.1 == e.task.id ==> !a.tasks.contains_key(k)
            &&& a.nr_running == q.nr_running - 1
            &&& a.admitted_bandwidth == q.admitted_bandwidth
        }),
{
    assert(q.is_ready(k, now_ns));
    earliest_deadline_is_picked(q, now_ns);
    let f = q.earliest(now_ns);
    assert(q.is_earliest(f, now_ns));
    assert(q.tasks.contains_key(f));
    assert(ordered_map::key_le(q.rank(f, now_ns), q.rank(k, now_ns)));
    assert(q.tasks.dom().contains(f));
    if q.nr_running == 0 {
        assert(q.tasks.dom() =~= Set::empty());
    }
}

/// A running task misses a deadline exactly if the deadline lies in the past, and each
/// deadline is missed once.
pub proof fn deadline_is_missed_once(q: DlState, id: usize, now_ns: u64, later_ns: u64)
    requires
        q.running.contains_key(id as u64),
    ensures
        !q.running[id as u64].missed ==> (q.runs_late(id, now_ns) <==> now_ns
            > q.running[id as u64].abs_deadline),
        q.running[id as u64].missed ==> !q.runs_late(id, now_ns),
        q.runs_late(id, now_ns) ==> q.noted(id, now_ns).running[id as u64].missed
            && !q.noted(id, now_ns).runs_late(id, later_ns),
        !q.runs_late(id, now_ns) ==> q.noted(id, now_ns) == q,
{
}

} // verus!
