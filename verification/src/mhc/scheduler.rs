//! Scheduling of GPU tasks.
//!
//! Each GPU has a run queue. Of the tasks that are eligible, the one with the
//! earliest virtual deadline is next.

use crate::mhc::task;
use crate::ordered_map;
use crate::mhc::queue::GpuPriority;
use crate::mhc::task::GpuTask;
use crate::ordered_map::OrderedMap;
use vstd::prelude::*;

verus! {

/// Greatest slice in nanoseconds.
pub const GPU_LATENCY_TARGET: u64 = 10_000_000;

/// Least slice in nanoseconds.
pub const GPU_MIN_GRANULARITY: u64 = 1_000_000;

/// Weight of a priority.
pub open spec fn weight_of(p: GpuPriority) -> u64 {
    match p {
        GpuPriority::Background => 64,
        GpuPriority::Normal => 1024,
        GpuPriority::High => 4096,
        GpuPriority::Realtime => 16384,
        GpuPriority::Deadline => 65536,
    }
}

/// Weight of a priority: a higher priority gets more of the GPU.
pub fn priority_to_weight(priority: GpuPriority) -> (w: u64)
    ensures
        w == weight_of(priority),
{
    match priority {
        GpuPriority::Background => 64,
        GpuPriority::Normal => 1024,
        GpuPriority::High => 4096,
        GpuPriority::Realtime => 16384,
        GpuPriority::Deadline => 65536,
    }
}

/// Priority as which a task is scheduled: one with a deadline is of the deadline class.
pub open spec fn class_of(t: GpuTask) -> GpuPriority {
    if t.deadline_ns is Some {
        GpuPriority::Deadline
    } else {
        t.priority
    }
}

/// Weight of a task.
fn task_weight(t: &GpuTask) -> (w: u64)
    ensures
        w == weight_of(class_of(*t)),
{
    if t.deadline_ns.is_some() {
        priority_to_weight(GpuPriority::Deadline)
    } else {
        priority_to_weight(t.priority)
    }
}

/// Key of a task in a queue: a virtual time and the identifier of the task.
#[derive(Clone, Copy, Debug, PartialEq, Eq, Structural)]
pub struct GpuVtKey(pub u64, pub u64);

/// What a queue holds.
#[verifier::ext_equal]
pub struct GpuQueueState {
    /// Tasks that can be dispatched, by virtual deadline.
    pub eligible: Map<(u64, u64), GpuTask>,
    /// Tasks that cannot yet, by virtual eligible time.
    pub ineligible: Map<(u64, u64), GpuTask>,
    /// Clock of the queue.
    pub min_vruntime: u64,
    /// Weight of all tasks.
    pub total_weight: u64,
    /// Number of tasks.
    pub nr_tasks: usize,
}

/// `a - b`, or zero if that is negative.
pub open spec fn minus(a: int, b: int) -> int {
    if a >= b {
        a - b
    } else {
        0
    }
}

impl GpuQueueState {
    /// An empty queue.
    pub open spec fn empty() -> GpuQueueState {
        GpuQueueState {
            eligible: Map::empty(),
            ineligible: Map::empty(),
            min_vruntime: 0,
            total_weight: 0,
            nr_tasks: 0,
        }
    }

    /// The task is queued.
    pub open spec fn queued(self, id: u64) -> bool {
        ordered_map::has_id(self.eligible, id) || ordered_map::has_id(self.ineligible, id)
    }

    /// Keys fit their tasks, and no task is queued twice.
    pub open spec fn valid(self) -> bool {
        &&& forall|k: (u64, u64)| #[trigger]
            self.eligible.contains_key(k) ==> self.eligible[k].id == k.1
                && self.eligible[k].vdeadline == k.0 && self.eligible[k].vruntime
                <= self.min_vruntime
        &&& forall|k: (u64, u64)| #[trigger]
            self.ineligible.contains_key(k) ==> self.ineligible[k].id == k.1
                && self.ineligible[k].vruntime == k.0
        &&& forall|a: (u64, u64), b: (u64, u64)|
            #![trigger self.eligible.contains_key(a), self.eligible.contains_key(b)]
            self.eligible.contains_key(a) && self.eligible.contains_key(b) && a.1 == b.1 ==> a == b
        &&& forall|a: (u64, u64), b: (u64, u64)|
            #![trigger self.ineligible.contains_key(a), self.ineligible.contains_key(b)]
            self.ineligible.contains_key(a) && self.ineligible.contains_key(b) && a.1 == b.1 ==> a
                == b
        &&& forall|a: (u64, u64), b: (u64, u64)|
            #![trigger self.eligible.contains_key(a), self.ineligible.contains_key(b)]
            self.eligible.contains_key(a) && self.ineligible.contains_key(b) ==> a.1 != b.1
    }

    /// Slice of a task of a weight: its share of the latency target, within bounds.
    pub open spec fn slice(self, weight: u64) -> int {
        if self.total_weight == 0 {
            GPU_LATENCY_TARGET as int
        } else {
            let s = (GPU_LATENCY_TARGET * weight) / (self.total_weight + weight);
            if s < GPU_MIN_GRANULARITY {
                GPU_MIN_GRANULARITY as int
            } else if s > GPU_LATENCY_TARGET {
                GPU_LATENCY_TARGET as int
            } else {
                s
            }
        }
    }

    /// Virtual eligible time of a task: its virtual runtime, but not further behind
    /// the clock than its cost.
    pub open spec fn eligible_time(self, t: GpuTask) -> int {
        let cost = if task::cost_of(t) < 1 {
            1
        } else {
            task::cost_of(t)
        };
        let floor = minus(self.min_vruntime as int, cost);
        if t.vruntime >= floor {
            t.vruntime as int
        } else {
            floor
        }
    }

    /// The task with its virtual times.
    pub open spec fn timed(self, t: GpuTask) -> GpuTask {
        let ve = self.eligible_time(t);
        GpuTask {
            vruntime: ve as u64,
            vdeadline: (ve + self.slice(weight_of(class_of(t)))) as u64,
            ..t
        }
    }

    /// The task can be queued without overflow.
    pub open spec fn can_enqueue(self, t: GpuTask) -> bool {
        &&& task::cost_fits(t)
        &&& self.total_weight + weight_of(class_of(t)) <= u64::MAX
        &&& self.nr_tasks < usize::MAX
        &&& self.eligible_time(t) + self.slice(weight_of(class_of(t))) <= u64::MAX
    }

    /// The queue with one more task.
    pub open spec fn enqueued(self, t: GpuTask) -> GpuQueueState {
        let u = self.timed(t);
        let counted = GpuQueueState {
            total_weight: (self.total_weight + weight_of(class_of(t))) as u64,
            nr_tasks: (self.nr_tasks + 1) as usize,
            ..self
        };
        if u.vruntime <= self.min_vruntime {
            GpuQueueState { eligible: self.eligible.insert((u.vdeadline, t.id), u), ..counted }
        } else {
            GpuQueueState { ineligible: self.ineligible.insert((u.vruntime, t.id), u), ..counted }
        }
    }

    /// The queue with one task less of a priority.
    pub open spec fn discounted(self, p: GpuPriority) -> GpuQueueState {
        GpuQueueState {
            total_weight: minus(self.total_weight as int, weight_of(p) as int) as u64,
            nr_tasks: minus(self.nr_tasks as int, 1) as usize,
            ..self
        }
    }

    /// The queue after its clock has moved to the least virtual runtime of its tasks,
    /// if that lies ahead. An eligible task has none that lies ahead.
    pub open spec fn ticked(self) -> GpuQueueState {
        if self.eligible.dom().is_empty() && !self.ineligible.dom().is_empty()
            && ordered_map::first_of(self.ineligible).0 > self.min_vruntime {
            GpuQueueState { min_vruntime: ordered_map::first_of(self.ineligible).0, ..self }
        } else {
            self
        }
    }

    /// `j` is the key of a task that the clock has made eligible.
    pub open spec fn is_due(self, j: (u64, u64)) -> bool {
        self.ineligible.contains_key(j) && j.0 <= self.min_vruntime
    }

    /// `k` is the new key of the task that is due at `j`.
    pub open spec fn becomes(self, j: (u64, u64), k: (u64, u64)) -> bool {
        self.is_due(j) && j.1 == k.1 && self.ineligible[j].vdeadline == k.0
    }

    /// The queue after every task that is due was made eligible.
    pub open spec fn promoted(self) -> GpuQueueState {
        GpuQueueState {
            eligible: Map::new(
                |k: (u64, u64)|
                    self.eligible.contains_key(k) || exists|j: (u64, u64)| self.becomes(j, k),
                |k: (u64, u64)|
                    if self.eligible.contains_key(k) {
                        self.eligible[k]
                    } else {
                        self.ineligible[choose|j: (u64, u64)| self.becomes(j, k)]
                    },
            ),
            ineligible: Map::new(
                |k: (u64, u64)| self.ineligible.contains_key(k) && k.0 > self.min_vruntime,
                |k: (u64, u64)| self.ineligible[k],
            ),
            ..self
        }
    }

    /// The task that is dispatched next.
    pub open spec fn next(self) -> Option<GpuTask> {
        let p = self.ticked().promoted();
        if p.eligible.dom().is_empty() {
            None
        } else {
            Some(p.eligible[ordered_map::first_of(p.eligible)])
        }
    }

    /// The queue after the next task was taken.
    pub open spec fn after_pick(self) -> GpuQueueState {
        let p = self.ticked().promoted();
        if p.eligible.dom().is_empty() {
            p
        } else {
            let k = ordered_map::first_of(p.eligible);
            GpuQueueState { eligible: p.eligible.remove(k), ..p.discounted(class_of(p.eligible[k])) }
        }
    }

    /// The task with an identifier.
    pub open spec fn find(self, id: u64) -> Option<GpuTask> {
        if ordered_map::has_id(self.eligible, id) {
            Some(self.eligible[ordered_map::first_with_id(self.eligible, id)])
        } else if ordered_map::has_id(self.ineligible, id) {
            Some(self.ineligible[ordered_map::first_with_id(self.ineligible, id)])
        } else {
            None
        }
    }

    /// The queue without the task with an identifier.
    pub open spec fn removed(self, id: u64) -> GpuQueueState {
        if ordered_map::has_id(self.eligible, id) {
            let k = ordered_map::first_with_id(self.eligible, id);
            GpuQueueState {
                eligible: self.eligible.remove(k),
                ..self.discounted(class_of(self.eligible[k]))
            }
        } else if ordered_map::has_id(self.ineligible, id) {
            let k = ordered_map::first_with_id(self.ineligible, id);
            GpuQueueState {
                ineligible: self.ineligible.remove(k),
                ..self.discounted(class_of(self.ineligible[k]))
            }
        } else {
            self
        }
    }
}

/// Run queue of GPU tasks, by earliest eligible virtual deadline.
pub struct GpuEevdfQueue {
    eligible: OrderedMap<GpuTask>,
    ineligible: OrderedMap<GpuTask>,
    /// Clock of the queue.
    pub min_vruntime: u64,
    total_weight: u64,
    /// Number of tasks.
    pub nr_tasks: usize,
}

impl View for GpuEevdfQueue {
    type V = GpuQueueState;

    closed spec fn view(&self) -> GpuQueueState {
        GpuQueueState {
            eligible: self.eligible@,
            ineligible: self.ineligible@,
            min_vruntime: self.min_vruntime,
            total_weight: self.total_weight,
            nr_tasks: self.nr_tasks,
        }
    }
}

impl GpuEevdfQueue {
    /// Both maps are in order, and their keys fit.
    pub closed spec fn wf(&self) -> bool {
        &&& self.eligible.wf()
        &&& self.ineligible.wf()
        &&& self@.valid()
    }

    /// An empty queue.
    pub fn new() -> (q: Self)
        ensures
            q.wf(),
            q@ == GpuQueueState::empty(),
    {
        GpuEevdfQueue {
            eligible: OrderedMap::new(),
            ineligible: OrderedMap::new(),
            min_vruntime: 0,
            total_weight: 0,
            nr_tasks: 0,
        }
    }

    /// Queues a task that is not queued yet.
    pub fn enqueue(&mut self, task: GpuTask)
        requires
            old(self).wf(),
            !old(self)@.queued(task.id),
            old(self)@.can_enqueue(task),
        ensures
            final(self).wf(),
            final(self)@ == old(self)@.enqueued(task),
    {
        let ghost q = self@;
        let mut task = task;
        let cost0: u64 = task.estimated_cost();
        let cost: u64 = if cost0 < 1 {
            1
        } else {
            cost0
        };
        let weight: u64 = task_weight(&task);
        let floor: u64 = self.min_vruntime.saturating_sub(cost);
        let ve: u64 = if task.vruntime >= floor {
            task.vruntime
        } else {
            floor
        };
        let slice: u64 = self.compute_slice(weight);
        let vdeadline: u64 = ve + slice;
        task.vruntime = ve;
        task.vdeadline = vdeadline;
        self.total_weight = self.total_weight + weight;
        self.nr_tasks = self.nr_tasks + 1;
        let id: u64 = task.id;
        if ve <= self.min_vruntime {
            self.eligible.insert((vdeadline, id), task);
        } else {
            self.ineligible.insert((ve, id), task);
        }
        proof {
            assert forall|k: (u64, u64)| #[trigger] q.eligible.contains_key(k) implies k.1 != id by {
                assert(q.eligible.contains_key(k));
            }
            assert forall|k: (u64, u64)| #[trigger] q.ineligible.contains_key(k) implies k.1
                != id by {
                assert(q.ineligible.contains_key(k));
            }
        }
    }

    /// Moves the clock to the least virtual runtime, if that lies ahead.
    fn advance_clock(&mut self)
        requires
            old(self).wf(),
        ensures
            final(self).wf(),
            final(self)@ == old(self)@.ticked(),
    {
        match self.eligible.first_key() {
            Some(key) => {
                assert(self@.eligible.dom().contains(key));
            },
            None => {
                assert(self@.eligible.dom() =~= Set::empty());
                match self.ineligible.first_key() {
                    Some(key) => {
                        assert(self@.ineligible.dom().contains(key));
                        if key.0 > self.min_vruntime {
                            self.min_vruntime = key.0;
                        }
                    },
                    None => {
                        assert(self@.ineligible.dom() =~= Set::empty());
                    },
                }
            },
        }
    }

    /// Makes every task that is due eligible.
    fn advance_eligibility(&mut self)
        requires
            old(self).wf(),
        ensures
            final(self).wf(),
            final(self)@ == old(self)@.promoted(),
    {
        let ghost q = self@;
        let mut due = true;
        while due
            invariant
                self.wf(),
                q == old(self)@,
                q.valid(),
                self@.min_vruntime == q.min_vruntime,
                self@.total_weight == q.total_weight,
                self@.nr_tasks == q.nr_tasks,
                forall|k: (u64, u64)| #[trigger]
                    self@.ineligible.contains_key(k) ==> q.ineligible.contains_key(k)
                        && self@.ineligible[k] == q.ineligible[k],
                forall|k: (u64, u64)| #[trigger]
                    q.ineligible.contains_key(k) && k.0 > q.min_vruntime
                        ==> self@.ineligible.contains_key(k),
                forall|k: (u64, u64)| #[trigger]
                    q.eligible.contains_key(k) ==> self@.eligible.contains_key(k)
                        && self@.eligible[k] == q.eligible[k],
                forall|k: (u64, u64)| #[trigger]
                    self@.eligible.contains_key(k) && !q.eligible.contains_key(k) ==> exists|
                        j: (u64, u64),
                    |
                        q.becomes(j, k) && self@.eligible[k] == q.ineligible[j],
                forall|j: (u64, u64)| #[trigger]
                    q.ineligible.contains_key(j) && !self@.ineligible.contains_key(j)
                        ==> self@.eligible.contains_key((q.ineligible[j].vdeadline, j.1)),
                !due ==> forall|k: (u64, u64)| #[trigger]
                    self@.ineligible.contains_key(k) ==> k.0 > q.min_vruntime,
            decreases
                self@.ineligible.dom().len() + if due {
                    1nat
                } else {
                    0
                },
        {
            let ghost before = self@;
            proof {
                self.ineligible.lemma_finite();
            }
            match self.ineligible.first_key() {
                Some(key) => {
                    if key.0 <= self.min_vruntime {
                        if let Some(task) = self.ineligible.remove(key) {
                            let vdeadline: u64 = task.vdeadline;
                            let id: u64 = task.id;
                            self.eligible.insert((vdeadline, id), task);
                            proof {
                                let nk = (vdeadline, id);
                                assert(q.becomes(key, nk));
                                assert(self@.ineligible.dom() =~= before.ineligible.dom().remove(
                                    key,
                                ));
                                assert forall|k: (u64, u64)| #[trigger]
                                    q.eligible.contains_key(k) implies k != nk by {
                                    assert(q.ineligible.contains_key(key));
                                }
                                assert forall|k: (u64, u64)| #[trigger]
                                    self@.eligible.contains_key(k) && !q.eligible.contains_key(
                                        k,
                                    ) implies exists|j: (u64, u64)|
                                    q.becomes(j, k) && self@.eligible[k] == q.ineligible[j] by {
                                    if k == nk {
                                        assert(q.becomes(key, k));
                                    } else {
                                        assert(before.eligible.contains_key(k));
                                    }
                                }
                            }
                        }
                    } else {
                        due = false;
                    }
                },
                None => {
                    due = false;
                },
            }
        }
        proof {
            let want = q.promoted();
            assert forall|k: (u64, u64)| self@.eligible.contains_key(k)
                <==> want.eligible.contains_key(k) by {
                if !q.eligible.contains_key(k) && exists|j: (u64, u64)| q.becomes(j, k) {
                    let j = choose|j: (u64, u64)| q.becomes(j, k);
                    assert(q.ineligible.contains_key(j));
                    assert(!self@.ineligible.contains_key(j));
                }
            }
            assert forall|k: (u64, u64)| #[trigger]
                self@.eligible.contains_key(k) implies self@.eligible[k] == want.eligible[k] by {
                if !q.eligible.contains_key(k) {
                    let j = choose|j: (u64, u64)|
                        q.becomes(j, k) && self@.eligible[k] == q.ineligible[j];
                    let c = choose|j: (u64, u64)| q.becomes(j, k);
                    assert(q.becomes(c, k));
                    assert(q.ineligible.contains_key(j) && q.ineligible.contains_key(c));
                    assert(j == c);
                }
            }
            assert(self@.eligible =~= want.eligible);
            assert(self@.ineligible =~= want.ineligible);
            assert(self@ =~= want);
        }
    }

    /// Takes the eligible task with the earliest virtual deadline.
    pub fn pick_next(&mut self) -> (r: Option<GpuTask>)
        requires
            old(self).wf(),
        ensures
            final(self).wf(),
            r == old(self)@.next(),
            final(self)@ == old(self)@.after_pick(),
    {
        self.advance_clock();
        self.advance_eligibility();
        let ghost p = self@;
        match self.eligible.first_key() {
            Some(key) => {
                assert(p.eligible.dom().contains(key));
                let task = self.eligible.remove(key);
                match task {
                    Some(t) => {
                        self.total_weight =
                        self.total_weight.saturating_sub(task_weight(&t));
                        self.nr_tasks = self.nr_tasks.saturating_sub(1);
                        assert(self@ =~= old(self)@.after_pick());
                        Some(t)
                    },
                    None => None,
                }
            },
            None => {
                assert(p.eligible.dom() =~= Set::empty());
                None
            },
        }
    }

    /// Removes a task.
    pub fn remove(&mut self, task_id: u64) -> (r: Option<GpuTask>)
        requires
            old(self).wf(),
        ensures
            final(self).wf(),
            r == old(self)@.find(task_id),
            final(self)@ == old(self)@.removed(task_id),
    {
        match self.eligible.find_id(task_id) {
            Some(k) => {
                match self.eligible.remove(k) {
                    Some(t) => {
                        self.total_weight =
                        self.total_weight.saturating_sub(task_weight(&t));
                        self.nr_tasks = self.nr_tasks.saturating_sub(1);
                        assert(self@ =~= old(self)@.removed(task_id));
                        return Some(t);
                    },
                    None => {
                        return None;
                    },
                }
            },
            None => {},
        }
        match self.ineligible.find_id(task_id) {
            Some(k) => {
                match self.ineligible.remove(k) {
                    Some(t) => {
                        self.total_weight =
                        self.total_weight.saturating_sub(task_weight(&t));
                        self.nr_tasks = self.nr_tasks.saturating_sub(1);
                        assert(self@ =~= old(self)@.removed(task_id));
                        Some(t)
                    },
                    None => None,
                }
            },
            None => None,
        }
    }

    /// Slice of a task of a weight.
    fn compute_slice(&self, task_weight: u64) -> (s: u64)
        requires
            task_weight <= 65536,
            self@.total_weight + task_weight <= u64::MAX,
        ensures
            s == self@.slice(task_weight),
            s <= GPU_LATENCY_TARGET,
    {
        if self.total_weight == 0 {
            return GPU_LATENCY_TARGET;
        }
        let slice: u64 = GPU_LATENCY_TARGET * task_weight / (self.total_weight + task_weight);
        if slice < GPU_MIN_GRANULARITY {
            GPU_MIN_GRANULARITY
        } else if slice > GPU_LATENCY_TARGET {
            GPU_LATENCY_TARGET
        } else {
            slice
        }
    }
}

impl Default for GpuEevdfQueue {
    fn default() -> (q: Self)
        ensures
            q.wf(),
            q@ == GpuQueueState::empty(),
    {
        Self::new()
    }
}

/// Scheduling statistics of a GPU.
#[derive(Clone, Copy, Debug, PartialEq, Eq, Structural)]
pub struct GpuSchedStats {
    /// Tasks that were dispatched.
    pub dispatches: u64,
    /// GPU time in nanoseconds.
    pub gpu_time_ns: u64,
    /// Deadlines that were missed.
    pub deadline_misses: u64,
    /// Preemptions.
    pub preemptions: u64,
}

impl GpuSchedStats {
    /// Statistics without events.
    pub fn new() -> (s: Self)
        ensures
            s == (GpuSchedStats {
                dispatches: 0,
                gpu_time_ns: 0,
                deadline_misses: 0,
                preemptions: 0,
            }),
    {
        GpuSchedStats { dispatches: 0, gpu_time_ns: 0, deadline_misses: 0, preemptions: 0 }
    }
}

impl Default for GpuSchedStats {
    fn default() -> (s: Self)
        ensures
            s == (GpuSchedStats {
                dispatches: 0,
                gpu_time_ns: 0,
                deadline_misses: 0,
                preemptions: 0,
            }),
    {
        Self::new()
    }
}

/// Scheduling state of a GPU.
pub struct PerGpuRunQueue {
    /// Device.
    pub device_id: usize,
    /// Compute tasks.
    pub compute_rq: GpuEevdfQueue,
    /// Number of tasks.
    pub load: usize,
    /// Statistics.
    pub stats: GpuSchedStats,
}

/// What the scheduling state of a GPU holds.
#[verifier::ext_equal]
pub struct GpuRunQueueState {
    /// Device.
    pub device_id: usize,
    /// Compute tasks.
    pub tasks: GpuQueueState,
    /// Number of tasks.
    pub load: usize,
    /// Statistics.
    pub stats: GpuSchedStats,
}

impl GpuRunQueueState {
    /// A run queue without tasks.
    pub open spec fn fresh(device_id: usize) -> GpuRunQueueState {
        GpuRunQueueState {
            device_id,
            tasks: GpuQueueState::empty(),
            load: 0,
            stats: GpuSchedStats {
                dispatches: 0,
                gpu_time_ns: 0,
                deadline_misses: 0,
                preemptions: 0,
            },
        }
    }
}

impl View for PerGpuRunQueue {
    type V = GpuRunQueueState;

    open spec fn view(&self) -> GpuRunQueueState {
        GpuRunQueueState {
            device_id: self.device_id,
            tasks: self.compute_rq@,
            load: self.load,
            stats: self.stats,
        }
    }
}

impl PerGpuRunQueue {
    /// A run queue without tasks.
    pub fn new(device_id: usize) -> (q: Self)
        ensures
            q@ == GpuRunQueueState::fresh(device_id),
            q.compute_rq.wf(),
            q.device_id == device_id,
            q.compute_rq@ == GpuQueueState::empty(),
            q.load == 0,
            q.stats == (GpuSchedStats {
                dispatches: 0,
                gpu_time_ns: 0,
                deadline_misses: 0,
                preemptions: 0,
            }),
    {
        PerGpuRunQueue {
            device_id,
            compute_rq: GpuEevdfQueue::new(),
            load: 0,
            stats: GpuSchedStats::new(),
        }
    }

    /// Queues a task.
    pub fn enqueue(&mut self, task: GpuTask)
        requires
            old(self).compute_rq.wf(),
            !old(self).compute_rq@.queued(task.id),
            old(self).compute_rq@.can_enqueue(task),
        ensures
            final(self).compute_rq.wf(),
            final(self).compute_rq@ == old(self).compute_rq@.enqueued(task),
            final(self).load == old(self).load.wrapping_add(1),
            final(self).device_id == old(self).device_id,
            final(self).stats == old(self).stats,
    {
        self.compute_rq.enqueue(task);
        self.load = self.load.wrapping_add(1);
    }

    /// Takes the next task and counts the dispatch.
    pub fn pick_next(&mut self) -> (r: Option<GpuTask>)
        requires
            old(self).compute_rq.wf(),
            old(self).stats.dispatches < u64::MAX,
        ensures
            final(self).compute_rq.wf(),
            r == old(self).compute_rq@.next(),
            final(self).compute_rq@ == old(self).compute_rq@.after_pick(),
            final(self).device_id == old(self).device_id,
            r is None ==> final(self).load == old(self).load && final(self).stats == old(self).stats,
            r is Some ==> final(self).load == old(self).load.wrapping_sub(1) && final(self).stats
                == (GpuSchedStats {
                dispatches: (old(self).stats.dispatches + 1) as u64,
                ..old(self).stats
            }),
    {
        let task = self.compute_rq.pick_next();
        if task.is_some() {
            self.load = self.load.wrapping_sub(1);
            self.stats.dispatches = self.stats.dispatches + 1;
        }
        task
    }

    /// Number of tasks.
    pub fn load(&self) -> (n: usize)
        ensures
            n == self.load,
    {
        self.load
    }
}

/// A higher priority has a greater weight and so no shorter slice.
pub proof fn weight_rises_with_priority(q: GpuQueueState, a: GpuPriority, b: GpuPriority)
    requires
        a.level() <= b.level(),
    ensures
        weight_of(a) <= weight_of(b),
        q.slice(weight_of(a)) <= q.slice(weight_of(b)),
{
    let x = weight_of(a) as int;
    let y = weight_of(b) as int;
    let t = q.total_weight as int;
    if t > 0 {
        assert(GPU_LATENCY_TARGET * x * (t + y) <= GPU_LATENCY_TARGET * y * (t + x))
            by (nonlinear_arith)
            requires
                0 < x <= y,
                t > 0,
                GPU_LATENCY_TARGET == 10_000_000,
        ;
        let p = GPU_LATENCY_TARGET * x;
        let r = GPU_LATENCY_TARGET * y;
        assert(p / (t + x) <= r / (t + y)) by (nonlinear_arith)
            requires
                p * (t + y) <= r * (t + x),
                t + x > 0,
                t + y > 0,
                p >= 0,
                r >= 0,
        ;
    }
}

/// The slice stays within its bounds.
pub proof fn slice_is_bounded(q: GpuQueueState, weight: u64)
    ensures
        GPU_MIN_GRANULARITY <= q.slice(weight) <= GPU_LATENCY_TARGET,
{
}

/// The task that is picked has the earliest virtual deadline of all eligible tasks.
pub proof fn picked_task_has_earliest_deadline(q: GpuQueueState, k: (u64, u64))
    requires
        q.valid(),
        q.eligible.dom().finite(),
        q.ineligible.dom().finite(),
        q.ticked().promoted().eligible.contains_key(k),
    ensures
        q.next() is Some,
        q.next().unwrap().vdeadline <= q.ticked().promoted().eligible[k].vdeadline,
{
    let t = q.ticked();
    let p = t.promoted();
    lemma_promoted_finite(t);
    assert(p.eligible.dom().contains(k));
    ordered_map::finite_map_has_first(p.eligible);
    let f = ordered_map::first_of(p.eligible);
    assert(p.eligible.contains_key(f));
    assert(ordered_map::key_le(f, k));
    lemma_promoted_keys(t, f);
    lemma_promoted_keys(t, k);
}

/// While tasks are queued there is one to dispatch: none waits for a clock that stands.
pub proof fn queued_task_can_be_dispatched(q: GpuQueueState, id: u64)
    requires
        q.valid(),
        q.eligible.dom().finite(),
        q.ineligible.dom().finite(),
        q.queued(id),
    ensures
        q.next() is Some,
{
    let t = q.ticked();
    let p = t.promoted();
    if q.eligible.dom().is_empty() {
        if ordered_map::has_id(q.eligible, id) {
            let k = choose|k: (u64, u64)| q.eligible.contains_key(k) && k.1 == id;
            assert(q.eligible.dom().contains(k));
        }
        let k = choose|k: (u64, u64)| q.ineligible.contains_key(k) && k.1 == id;
        assert(q.ineligible.dom().contains(k));
        ordered_map::finite_map_has_first(q.ineligible);
        let j = ordered_map::first_of(q.ineligible);
        assert(q.ineligible.contains_key(j));
        assert(t.becomes(j, (q.ineligible[j].vdeadline, j.1)));
        assert(p.eligible.contains_key((q.ineligible[j].vdeadline, j.1)));
        assert(p.eligible.dom().contains((q.ineligible[j].vdeadline, j.1)));
    } else {
        let k = choose|k: (u64, u64)| q.eligible.dom().contains(k);
        assert(q.eligible.dom().contains(k)) by {
            if forall|x: (u64, u64)| !q.eligible.dom().contains(x) {
                assert(q.eligible.dom() =~= Set::empty());
            }
        }
        assert(p.eligible.dom().contains(k));
    }
}

/// The clock only moves forward, and to no further than the least virtual runtime.
pub proof fn gpu_clock_follows_the_least_runtime(q: GpuQueueState, k: (u64, u64))
    requires
        q.valid(),
        q.ineligible.dom().finite(),
    ensures
        q.ticked().min_vruntime >= q.min_vruntime,
        q.ticked().min_vruntime > q.min_vruntime && q.ineligible.contains_key(k)
            ==> q.ticked().min_vruntime <= q.ineligible[k].vruntime,
{
    if q.ticked().min_vruntime > q.min_vruntime && q.ineligible.contains_key(k) {
        assert(q.ineligible.dom().contains(k));
        ordered_map::finite_map_has_first(q.ineligible);
        assert(ordered_map::key_le(ordered_map::first_of(q.ineligible), k));
    }
}

/// Making tasks eligible keeps the queue finite.
proof fn lemma_promoted_finite(q: GpuQueueState)
    requires
        q.eligible.dom().finite(),
        q.ineligible.dom().finite(),
    ensures
        q.promoted().eligible.dom().finite(),
{
    let f = |j: (u64, u64)| (q.ineligible[j].vdeadline, j.1);
    q.ineligible.dom().lemma_map_finite(f);
    let bound = q.eligible.dom().union(q.ineligible.dom().map(f));
    assert forall|k: (u64, u64)| #[trigger]
        q.promoted().eligible.dom().contains(k) implies bound.contains(k) by {
        if !q.eligible.contains_key(k) {
            let j = choose|j: (u64, u64)| q.becomes(j, k);
            assert(q.becomes(j, k));
            assert(q.ineligible.dom().contains(j));
            assert(f(j) == k);
        }
    }
    vstd::set_lib::lemma_len_subset(q.promoted().eligible.dom(), bound);
}

/// Keys of eligible tasks are their deadlines, also after tasks became eligible.
proof fn lemma_promoted_keys(q: GpuQueueState, k: (u64, u64))
    requires
        q.valid(),
        q.promoted().eligible.contains_key(k),
    ensures
        q.promoted().eligible[k].vdeadline == k.0,
        q.promoted().eligible[k].id == k.1,
{
    if !q.eligible.contains_key(k) {
        let j = choose|j: (u64, u64)| q.becomes(j, k);
        assert(q.becomes(j, k));
        assert(q.ineligible.contains_key(j));
    } else {
        assert(q.eligible.contains_key(k));
    }
}

/// A task that was queued can be found, and removing it restores the queue.
pub proof fn remove_undoes_enqueue(q: GpuQueueState, t: GpuTask)
    requires
        q.valid(),
        !q.queued(t.id),
        q.can_enqueue(t),
    ensures
        q.enqueued(t).find(t.id) == Some(q.timed(t)),
        q.enqueued(t).removed(t.id) == q,
{
    let u = q.timed(t);
    let e = q.enqueued(t);
    assert forall|k: (u64, u64)| #[trigger] q.eligible.contains_key(k) implies k.1 != t.id by {}
    assert forall|k: (u64, u64)| #[trigger] q.ineligible.contains_key(k) implies k.1 != t.id by {}
    if u.vruntime <= q.min_vruntime {
        let k = (u.vdeadline, t.id);
        assert(e.eligible.contains_key(k));
        assert(ordered_map::is_first_with_id(e.eligible, t.id, k));
        let f = ordered_map::first_with_id(e.eligible, t.id);
        assert(ordered_map::is_first_with_id(e.eligible, t.id, f));
        assert(f == k);
        assert(e.eligible.remove(k) =~= q.eligible);
    } else {
        let k = (u.vruntime, t.id);
        assert(!ordered_map::has_id(e.eligible, t.id));
        assert(e.ineligible.contains_key(k));
        assert(ordered_map::is_first_with_id(e.ineligible, t.id, k));
        let f = ordered_map::first_with_id(e.ineligible, t.id);
        assert(ordered_map::is_first_with_id(e.ineligible, t.id, f));
        assert(f == k);
        assert(e.ineligible.remove(k) =~= q.ineligible);
    }
    assert(e.removed(t.id) =~= q);
}

/// A task that does not lag behind the clock by more than its cost is eligible at
/// once if its virtual runtime has not passed the clock.
pub proof fn task_behind_the_clock_is_eligible(q: GpuQueueState, t: GpuTask)
    requires
        q.can_enqueue(t),
        t.vruntime <= q.min_vruntime,
    ensures
        q.enqueued(t).eligible.contains_key((q.timed(t).vdeadline, t.id)),
{
}

/// The weights of the five priorities. A task with a deadline has the weight of the
/// `Deadline` priority, whatever its own priority is.
pub proof fn weights_of_the_priorities(t: GpuTask)
    ensures
        ({
            let w = weight_of(class_of(t));
            &&& t.deadline_ns is Some ==> w == 65536
            &&& t.deadline_ns is None && t.priority == GpuPriority::Background ==> w == 64
            &&& t.deadline_ns is None && t.priority == GpuPriority::Normal ==> w == 1024
            &&& t.deadline_ns is None && t.priority == GpuPriority::High ==> w == 4 * 1024
            &&& t.deadline_ns is None && t.priority == GpuPriority::Realtime ==> w == 16 * 1024
            &&& t.deadline_ns is None && t.priority == GpuPriority::Deadline ==> w == 64 * 1024
        }),
{
}

/// A task that joins a queue gets 10 ms if it is alone, and else its share by weight of
/// these 10 ms, but at least 1 ms. The slice reaches from its virtual runtime to its virtual
/// deadline; nothing else of the task changes.
pub proof fn gpu_task_gets_its_share(q: GpuQueueState, t: GpuTask)
    requires
        q.can_enqueue(t),
    ensures
        ({
            let u = q.timed(t);
            let w = weight_of(class_of(t)) as int;
            let slice = u.vdeadline - u.vruntime;
            let total = q.total_weight + w;
            &&& 1_000_000 <= slice <= 10_000_000
            &&& q.total_weight == 0 ==> slice == 10_000_000
            &&& q.total_weight > 0 && slice > 1_000_000 ==> slice * total <= 10_000_000 * w < (slice
                + 1) * total
            &&& q.total_weight > 0 && slice == 1_000_000 ==> 10_000_000 * w < 1_000_001 * total
            &&& u == (GpuTask { vruntime: u.vruntime, vdeadline: u.vdeadline, ..t })
        }),
{
    let w = weight_of(class_of(t)) as int;
    let total = q.total_weight + w;
    let x = 10_000_000 * w;
    let d = x / total;
    vstd::arithmetic::div_mod::lemma_fundamental_div_mod(x, total);
    assert(d * total <= x < (d + 1) * total) by (nonlinear_arith)
        requires
            x == total * d + x % total,
            0 <= x % total < total,
    ;
    assert(d <= 10_000_000) by (nonlinear_arith)
        requires
            d * total <= 10_000_000 * w,
            0 < w <= total,
    ;
    if d < 1_000_000 {
        assert((d + 1) * total <= 1_000_001 * total) by (nonlinear_arith)
            requires
                d < 1_000_000,
                total > 0,
        ;
    }
}

/// A task that joins lags behind the clock by at most its cost, which counts as 1 at least:
/// one further behind is lifted to that point, any other keeps its virtual runtime.
pub proof fn gpu_task_lags_by_its_cost_at_most(q: GpuQueueState, t: GpuTask)
    requires
        q.can_enqueue(t),
    ensures
        ({
            let u = q.timed(t);
            let g = t.workgroups@;
            let s = t.shader.workgroup_size@;
            let threads = g[0] * g[1] * g[2] * (s[0] * s[1] * s[2]);
            let cost = if threads == 0 { 1 } else { threads };
            &&& u.vruntime >= t.vruntime
            &&& u.vruntime >= q.min_vruntime - cost
            &&& u.vruntime > t.vruntime ==> u.vruntime == q.min_vruntime - cost
        }),
{
    let g = t.workgroups@;
    let s = t.shader.workgroup_size@;
    task::cost_is_the_number_of_threads(t);
    vstd::arithmetic::mul::lemma_mul_nonnegative(g[0] as int, g[1] as int);
    vstd::arithmetic::mul::lemma_mul_nonnegative(g[0] * g[1], g[2] as int);
    vstd::arithmetic::mul::lemma_mul_nonnegative(s[0] as int, s[1] as int);
    vstd::arithmetic::mul::lemma_mul_nonnegative(s[0] * s[1], s[2] as int);
    vstd::arithmetic::mul::lemma_mul_nonnegative(g[0] * g[1] * g[2], s[0] * s[1] * s[2]);
}

/// A task that has joined is eligible, under its virtual deadline, exactly if the clock has
/// reached its virtual runtime; else it waits under that runtime. It counts, and its weight
/// does; the other entries and the clock stay as they are.
pub proof fn gpu_task_stands_in_one_part(q: GpuQueueState, t: GpuTask)
    requires
        q.can_enqueue(t),
    ensures
        ({
            let u = q.timed(t);
            let e = q.enqueued(t);
            &&& u.vruntime <= q.min_vruntime ==> e.eligible == q.eligible.insert(
                (u.vdeadline, t.id),
                u,
            ) && e.ineligible == q.ineligible
            &&& u.vruntime > q.min_vruntime ==> e.ineligible == q.ineligible.insert(
                (u.vruntime, t.id),
                u,
            ) && e.eligible == q.eligible
            &&& e.total_weight - q.total_weight == weight_of(class_of(t))
            &&& e.nr_tasks == q.nr_tasks + 1
            &&& e.min_vruntime == q.min_vruntime
        }),
{
}

/// The clock moves only where no task is eligible and one waits: to the least virtual
/// runtime of those that wait. No task moves with it.
pub proof fn clock_moves_only_without_eligible_tasks(
    q: GpuQueueState,
    e: (u64, u64),
    k: (u64, u64),
)
    requires
        q.valid(),
        q.ineligible.dom().finite(),
    ensures
        q.eligible.contains_key(e) ==> q.ticked() == q,
        q.ineligible.dom().is_empty() ==> q.ticked() == q,
        q.ticked().eligible == q.eligible,
        q.ticked().ineligible == q.ineligible,
        q.ticked().total_weight == q.total_weight,
        q.ticked().nr_tasks == q.nr_tasks,
        q.eligible.dom().is_empty() && q.ineligible.contains_key(k) ==> exists|j: (u64, u64)|
            {
                &&& #[trigger] q.ineligible.contains_key(j)
                &&& q.ineligible[j].vruntime <= q.ineligible[k].vruntime
                &&& q.ticked().min_vruntime == if q.ineligible[j].vruntime > q.min_vruntime {
                    q.ineligible[j].vruntime
                } else {
                    q.min_vruntime
                }
            },
{
    if q.eligible.contains_key(e) {
        assert(q.eligible.dom().contains(e));
    }
    if q.eligible.dom().is_empty() && q.ineligible.contains_key(k) {
        assert(q.ineligible.dom().contains(k));
        ordered_map::finite_map_has_first(q.ineligible);
        let j = ordered_map::first_of(q.ineligible);
        assert(q.ineligible.contains_key(j));
        assert(ordered_map::key_le(j, k));
    }
}

/// The task that is dispatched was eligible, or waited and the clock has reached its virtual
/// runtime. No eligible task has an earlier virtual deadline.
pub proof fn dispatched_task_was_due(q: GpuQueueState)
    requires
        q.valid(),
        q.eligible.dom().finite(),
        q.ineligible.dom().finite(),
    ensures
        q.next() is Some <==> !(q.eligible.dom().is_empty() && q.ineligible.dom().is_empty()),
        q.next() matches Some(t) ==> {
            &&& {
                ||| exists|k: (u64, u64)| #[trigger]
                    q.eligible.contains_key(k) && q.eligible[k] == t
                ||| exists|k: (u64, u64)| #[trigger]
                    q.ineligible.contains_key(k) && q.ineligible[k] == t && t.vruntime
                        <= q.ticked().min_vruntime
            }
            &&& forall|k: (u64, u64)| #[trigger]
                q.eligible.contains_key(k) ==> t.vdeadline <= q.eligible[k].vdeadline
            &&& forall|k: (u64, u64)| #[trigger]
                q.ineligible.contains_key(k) && q.ineligible[k].vruntime
                    <= q.ticked().min_vruntime ==> t.vdeadline <= q.ineligible[k].vdeadline
        },
{
    let t = q.ticked();
    let p = t.promoted();
    lemma_promoted_finite(t);
    if q.eligible.dom().is_empty() && q.ineligible.dom().is_empty() {
        assert forall|k: (u64, u64)| !p.eligible.dom().contains(k) by {
            assert(!q.eligible.dom().contains(k));
            if exists|j: (u64, u64)| t.becomes(j, k) {
                let j = choose|j: (u64, u64)| t.becomes(j, k);
                assert(q.ineligible.dom().contains(j));
            }
        }
        assert(p.eligible.dom() =~= Set::empty());
    } else if !q.eligible.dom().is_empty() {
        let k = q.eligible.dom().choose();
        assert(q.eligible.dom().contains(k));
        assert(q.eligible.contains_key(k));
        queued_task_can_be_dispatched(q, k.1);
    } else {
        let k = q.ineligible.dom().choose();
        assert(q.ineligible.dom().contains(k));
        assert(q.ineligible.contains_key(k));
        queued_task_can_be_dispatched(q, k.1);
    }
    if !p.eligible.dom().is_empty() {
        ordered_map::finite_map_has_first(p.eligible);
        let f = ordered_map::first_of(p.eligible);
        lemma_promoted_keys(t, f);
        if !q.eligible.contains_key(f) {
            let j = choose|j: (u64, u64)| t.becomes(j, f);
            assert(t.becomes(j, f));
            assert(q.ineligible.contains_key(j));
        } else {
            assert(q.eligible.contains_key(f));
        }
        assert forall|k: (u64, u64)| #[trigger]
            q.eligible.contains_key(k) implies p.eligible[f].vdeadline
            <= q.eligible[k].vdeadline by {
            assert(p.eligible.contains_key(k));
            assert(ordered_map::key_le(f, k));
        }
        assert forall|k: (u64, u64)| #[trigger]
            q.ineligible.contains_key(k) && q.ineligible[k].vruntime
                <= t.min_vruntime implies p.eligible[f].vdeadline
            <= q.ineligible[k].vdeadline by {
            let e = (q.ineligible[k].vdeadline, k.1);
            assert(t.becomes(k, e));
            assert(p.eligible.contains_key(e));
            assert(ordered_map::key_le(f, e));
        }
    }
}

/// A dispatched task has left the queue, with its weight; every other task still waits, and
/// no task has come in.
pub proof fn dispatch_takes_only_its_task(q: GpuQueueState, other: u64)
    requires
        q.valid(),
        q.eligible.dom().finite(),
        q.ineligible.dom().finite(),
        q.next() is Some,
        q.nr_tasks > 0,
    ensures
        ({
            let t = q.next()->Some_0;
            let a = q.after_pick();
            &&& !a.queued(t.id)
            &&& other != t.id ==> a.queued(other) == q.queued(other)
            &&& a.nr_tasks == q.nr_tasks - 1
            &&& weight_of(class_of(t)) <= q.total_weight ==> a.total_weight == q.total_weight
                - weight_of(class_of(t))
            &&& a.min_vruntime == q.ticked().min_vruntime
        }),
{
    let t = q.ticked();
    let p = t.promoted();
    let a = q.after_pick();
    lemma_promoted_finite(t);
    ordered_map::finite_map_has_first(p.eligible);
    let f = ordered_map::first_of(p.eligible);
    lemma_promoted_keys(t, f);
    assert(a.eligible == p.eligible.remove(f));
    assert(a.ineligible == p.ineligible);
    assert forall|k: (u64, u64)| #[trigger] a.eligible.contains_key(k) implies k.1 != f.1 by {
        if k.1 == f.1 {
            lemma_promoted_once(t, k, f);
        }
    }
    assert forall|k: (u64, u64)| #[trigger] a.ineligible.contains_key(k) implies k.1 != f.1 by {
        assert(q.ineligible.contains_key(k));
        if !q.eligible.contains_key(f) {
            let j = choose|j: (u64, u64)| t.becomes(j, f);
            assert(t.becomes(j, f));
            assert(q.ineligible.contains_key(j));
        }
    }
    if other != f.1 && q.queued(other) {
        if ordered_map::has_id(q.eligible, other) {
            let k = choose|k: (u64, u64)| #[trigger] q.eligible.contains_key(k) && k.1 == other;
            assert(a.eligible.contains_key(k));
        } else {
            let k = choose|k: (u64, u64)| #[trigger] q.ineligible.contains_key(k) && k.1 == other;
            if k.0 <= t.min_vruntime {
                let e = (q.ineligible[k].vdeadline, k.1);
                assert(t.becomes(k, e));
                assert(a.eligible.contains_key(e));
            } else {
                assert(a.ineligible.contains_key(k));
            }
        }
    }
    if a.queued(other) {
        if ordered_map::has_id(a.eligible, other) {
            let k = choose|k: (u64, u64)| #[trigger] a.eligible.contains_key(k) && k.1 == other;
            if !q.eligible.contains_key(k) {
                let j = choose|j: (u64, u64)| t.becomes(j, k);
                assert(t.becomes(j, k));
                assert(q.ineligible.contains_key(j));
            }
        } else {
            let k = choose|k: (u64, u64)| #[trigger] a.ineligible.contains_key(k) && k.1 == other;
            assert(q.ineligible.contains_key(k));
        }
    }
}

/// After tasks became eligible each still has one entry.
proof fn lemma_promoted_once(q: GpuQueueState, a: (u64, u64), b: (u64, u64))
    requires
        q.valid(),
        q.promoted().eligible.contains_key(a),
        q.promoted().eligible.contains_key(b),
        a.1 == b.1,
    ensures
        a == b,
{
    if q.eligible.contains_key(a) {
        if !q.eligible.contains_key(b) {
            let j = choose|j: (u64, u64)| q.becomes(j, b);
            assert(q.becomes(j, b));
            assert(q.ineligible.contains_key(j));
        }
    } else {
        let i = choose|i: (u64, u64)| q.becomes(i, a);
        assert(q.becomes(i, a));
        assert(q.ineligible.contains_key(i));
        if !q.eligible.contains_key(b) {
            let j = choose|j: (u64, u64)| q.becomes(j, b);
            assert(q.becomes(j, b));
            assert(q.ineligible.contains_key(j));
        }
    }
}

/// A task is found exactly if it is queued, in whichever part; removing it takes it out with
/// its weight and leaves every other task.
pub proof fn removal_takes_only_its_task(q: GpuQueueState, id: u64, other: u64)
    requires
        q.valid(),
    ensures
        q.find(id) is Some <==> q.queued(id),
        q.find(id) matches Some(t) ==> t.id == id,
        !q.removed(id).queued(id),
        other != id ==> q.removed(id).find(other) == q.find(other),
        !q.queued(id) ==> q.removed(id) == q,
        q.removed(id).min_vruntime == q.min_vruntime,
        q.queued(id) && q.nr_tasks > 0 ==> q.removed(id).nr_tasks == q.nr_tasks - 1,
        q.queued(id) && weight_of(class_of(q.find(id)->Some_0)) <= q.total_weight ==> q.removed(
            id,
        ).total_weight == q.total_weight - weight_of(class_of(q.find(id)->Some_0)),
{
    let r = q.removed(id);
    if ordered_map::has_id(q.eligible, id) {
        let k = choose|k: (u64, u64)| #[trigger] q.eligible.contains_key(k) && k.1 == id;
        assert(ordered_map::is_first_with_id(q.eligible, id, k));
        let f = ordered_map::first_with_id(q.eligible, id);
        assert(q.eligible.contains_key(f));
    } else if ordered_map::has_id(q.ineligible, id) {
        let k = choose|k: (u64, u64)| #[trigger] q.ineligible.contains_key(k) && k.1 == id;
        assert(ordered_map::is_first_with_id(q.ineligible, id, k));
        let f = ordered_map::first_with_id(q.ineligible, id);
        assert(q.ineligible.contains_key(f));
    }
    if other != id {
        lemma_found_in(q.eligible, r.eligible, other);
        lemma_found_in(q.ineligible, r.ineligible, other);
    }
}

/// Maps that differ only in entries of other tasks hold the same task of an identifier.
proof fn lemma_found_in(a: Map<(u64, u64), GpuTask>, b: Map<(u64, u64), GpuTask>, id: u64)
    requires
        forall|k: (u64, u64)| k.1 == id ==> #[trigger] a.contains_key(k) == b.contains_key(k),
        forall|k: (u64, u64)| k.1 == id && #[trigger] a.contains_key(k) ==> a[k] == b[k],
        forall|k: (u64, u64), j: (u64, u64)|
            #![trigger a.contains_key(k), a.contains_key(j)]
            a.contains_key(k) && a.contains_key(j) && k.1 == j.1 ==> k == j,
    ensures
        ordered_map::has_id(a, id) == ordered_map::has_id(b, id),
        ordered_map::has_id(a, id) ==> a[ordered_map::first_with_id(a, id)]
            == b[ordered_map::first_with_id(b, id)],
{
    if ordered_map::has_id(a, id) {
        let k = choose|k: (u64, u64)| #[trigger] a.contains_key(k) && k.1 == id;
        assert(b.contains_key(k));
        assert(ordered_map::is_first_with_id(a, id, k));
        assert forall|j: (u64, u64)| #[trigger] b.contains_key(j) && j.1 == id implies j == k by {
            assert(a.contains_key(j));
        }
        assert(ordered_map::is_first_with_id(b, id, k));
        ordered_map::first_with_id_is_unique(a, id, k, ordered_map::first_with_id(a, id));
        ordered_map::first_with_id_is_unique(b, id, k, ordered_map::first_with_id(b, id));
    }
    if ordered_map::has_id(b, id) {
        let k = choose|k: (u64, u64)| #[trigger] b.contains_key(k) && k.1 == id;
        assert(a.contains_key(k));
    }
}

} // verus!
