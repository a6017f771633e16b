//! Workers for operations that would block.
//!
//! Each worker has a queue of its own: it takes the oldest item, while others
//! steal the newest one.

use crate::mio::sqe::SubmissionEntry;
use std::collections::VecDeque;
use vstd::prelude::*;

verus! {

/// An operation for a worker.
#[derive(Clone, Copy, Debug)]
pub struct WorkItem {
    /// The submission.
    pub sqe: SubmissionEntry,
    /// The instance that gets the completion.
    pub instance_id: u32,
}

/// State of a worker.
#[derive(Clone, Copy, Debug, PartialEq, Eq, Structural)]
pub enum WorkerState {
    /// Waits for work.
    Idle,
    /// Executes an item.
    Busy,
    /// Shuts down.
    Exiting,
}

/// A worker.
pub struct Worker {
    /// Identifier.
    pub id: u32,
    /// Items, oldest first.
    pub deque: VecDeque<WorkItem>,
    /// State.
    pub state: WorkerState,
    /// Items that the worker processed.
    pub processed: u64,
}

/// A worker as mathematical values.
#[verifier::ext_equal]
pub struct WorkerView {
    /// Identifier.
    pub id: u32,
    /// Items, oldest first.
    pub items: Seq<WorkItem>,
    /// State.
    pub state: WorkerState,
    /// Items that the worker processed.
    pub processed: u64,
}

impl WorkerView {
    /// The worker with one more item.
    pub open spec fn pushed(self, item: WorkItem) -> WorkerView {
        WorkerView { items: self.items.push(item), ..self }
    }

    /// The worker without its newest item.
    pub open spec fn stolen(self) -> WorkerView {
        WorkerView { items: self.items.drop_last(), ..self }
    }
}

impl View for Worker {
    type V = WorkerView;

    open spec fn view(&self) -> WorkerView {
        WorkerView {
            id: self.id,
            items: self.deque@,
            state: self.state,
            processed: self.processed,
        }
    }
}

impl Worker {
    fn new(id: u32) -> (w: Self)
        ensures
            w@ == (WorkerView { id, items: Seq::empty(), state: WorkerState::Idle, processed: 0 }),
    {
        Worker { id, deque: VecDeque::with_capacity(64), state: WorkerState::Idle, processed: 0 }
    }

    /// Adds an item.
    pub fn push(&mut self, item: WorkItem)
        ensures
            final(self)@ == old(self)@.pushed(item),
    {
        self.deque.push_back(item);
    }

    /// Takes the oldest item.
    pub fn pop(&mut self) -> (r: Option<WorkItem>)
        ensures
            r is Some <==> old(self)@.items.len() > 0,
            r is None ==> final(self)@ == old(self)@,
            r matches Some(item) ==> item == old(self)@.items[0] && final(self)@ == (WorkerView {
                items: old(self)@.items.drop_first(),
                ..old(self)@
            }),
    {
        let r = self.deque.pop_front();
        if r.is_some() {
            assert(self.deque@ =~= old(self)@.items.drop_first());
        }
        r
    }

    /// Takes the newest item.
    pub fn steal(&mut self) -> (r: Option<WorkItem>)
        ensures
            r is Some <==> old(self)@.items.len() > 0,
            r is None ==> final(self)@ == old(self)@,
            r matches Some(item) ==> item == old(self)@.items.last() && final(self)@ == old(
                self,
            )@.stolen(),
    {
        let r = self.deque.pop_back();
        if r.is_some() {
            assert(self.deque@ =~= old(self)@.items.drop_last());
        }
        r
    }

    /// Number of items.
    pub fn pending_count(&self) -> (n: usize)
        ensures
            n == self@.items.len(),
    {
        self.deque.len()
    }

    /// Notes that the worker executes an item.
    pub fn set_busy(&mut self)
        ensures
            final(self)@ == (WorkerView { state: WorkerState::Busy, ..old(self)@ }),
    {
        self.state = WorkerState::Busy;
    }

    /// Notes that the worker waits for work.
    pub fn set_idle(&mut self)
        ensures
            final(self)@ == (WorkerView { state: WorkerState::Idle, ..old(self)@ }),
    {
        self.state = WorkerState::Idle;
    }

    /// Whether the worker waits for work.
    pub fn is_idle(&self) -> (r: bool)
        ensures
            r == (self@.state == WorkerState::Idle),
    {
        self.state == WorkerState::Idle
    }
}

/// What a worker pool holds.
#[verifier::ext_equal]
pub struct WorkerPoolView {
    /// Workers.
    pub workers: Seq<WorkerView>,
    /// Items that no worker has, oldest first.
    pub overflow: Seq<WorkItem>,
    /// Round-robin counter.
    pub next: u32,
    /// Items that were submitted.
    pub submitted: u64,
    /// Items that were completed.
    pub completed: u64,
    /// New items are accepted.
    pub active: bool,
}

/// The first of the `n` first workers that is idle and has the fewest items.
pub open spec fn is_least_loaded_idle(workers: Seq<WorkerView>, n: int, b: int) -> bool {
    &&& 0 <= b < n
    &&& workers[b].state == WorkerState::Idle
    &&& forall|k: int|
        0 <= k < n && (#[trigger] workers[k]).state == WorkerState::Idle ==> workers[b].items.len()
            <= workers[k].items.len()
    &&& forall|k: int|
        0 <= k < b && (#[trigger] workers[k]).state == WorkerState::Idle ==> workers[b].items.len()
            < workers[k].items.len()
}

/// One of the `n` first workers is idle.
pub open spec fn some_idle(workers: Seq<WorkerView>, n: int) -> bool {
    exists|k: int| 0 <= k < n && (#[trigger] workers[k]).state == WorkerState::Idle
}

/// The first of the `n` first workers other than the thief that has the most items,
/// and has any.
pub open spec fn is_victim(workers: Seq<WorkerView>, n: int, thief_id: u32, v: int) -> bool {
    &&& 0 <= v < n
    &&& v != thief_id
    &&& workers[v].items.len() > 0
    &&& forall|k: int|
        0 <= k < n && k != thief_id ==> (#[trigger] workers[k]).items.len()
            <= workers[v].items.len()
    &&& forall|k: int|
        0 <= k < v && k != thief_id ==> (#[trigger] workers[k]).items.len()
            < workers[v].items.len()
}

/// One of the `n` first workers other than the thief has items.
pub open spec fn some_victim(workers: Seq<WorkerView>, n: int, thief_id: u32) -> bool {
    exists|k: int| 0 <= k < n && k != thief_id && (#[trigger] workers[k]).items.len() > 0
}

/// Items of all workers.
pub open spec fn pending_items(workers: Seq<WorkerView>) -> int
    decreases workers.len(),
{
    if workers.len() == 0 {
        0
    } else {
        pending_items(workers.drop_last()) + workers.last().items.len()
    }
}

/// Number of idle workers.
pub open spec fn idle_workers(workers: Seq<WorkerView>) -> int
    decreases workers.len(),
{
    if workers.len() == 0 {
        0
    } else {
        idle_workers(workers.drop_last()) + if workers.last().state == WorkerState::Idle {
            1int
        } else {
            0
        }
    }
}

impl WorkerPoolView {
    /// The worker that gets the next item.
    pub open spec fn target(self) -> int {
        if some_idle(self.workers, self.workers.len() as int) {
            choose|b: int| is_least_loaded_idle(self.workers, self.workers.len() as int, b)
        } else {
            self.next as int % self.workers.len() as int
        }
    }

    /// The pool after an item was accepted.
    pub open spec fn accepted(self, item: WorkItem) -> WorkerPoolView {
        let t = self.target();
        WorkerPoolView {
            workers: self.workers.update(t, self.workers[t].pushed(item)),
            next: if some_idle(self.workers, self.workers.len() as int) {
                self.next
            } else {
                self.next.wrapping_add(1)
            },
            submitted: self.submitted.wrapping_add(1),
            ..self
        }
    }

    /// The worker that the thief steals from, if any.
    pub open spec fn victim(self, thief_id: u32) -> Option<int> {
        if some_victim(self.workers, self.workers.len() as int, thief_id) {
            Some(choose|v: int| is_victim(self.workers, self.workers.len() as int, thief_id, v))
        } else {
            None
        }
    }

    /// The item that the thief gets.
    pub open spec fn stolen_item(self, thief_id: u32) -> Option<WorkItem> {
        if self.overflow.len() > 0 {
            Some(self.overflow[0])
        } else {
            match self.victim(thief_id) {
                Some(v) => Some(self.workers[v].items.last()),
                None => None,
            }
        }
    }

    /// The pool after the thief stole.
    pub open spec fn after_steal(self, thief_id: u32) -> WorkerPoolView {
        if self.overflow.len() > 0 {
            WorkerPoolView { overflow: self.overflow.drop_first(), ..self }
        } else {
            match self.victim(thief_id) {
                Some(v) => WorkerPoolView {
                    workers: self.workers.update(v, self.workers[v].stolen()),
                    ..self
                },
                None => self,
            }
        }
    }

    /// Items that wait.
    pub open spec fn pending(self) -> int {
        pending_items(self.workers) + self.overflow.len()
    }
}

/// There is at most one least loaded idle worker.
pub proof fn least_loaded_idle_is_unique(workers: Seq<WorkerView>, n: int, a: int, b: int)
    requires
        is_least_loaded_idle(workers, n, a),
        is_least_loaded_idle(workers, n, b),
    ensures
        a == b,
{
    if a < b {
        assert(workers[b].items.len() < workers[a].items.len());
    } else if b < a {
        assert(workers[a].items.len() < workers[b].items.len());
    }
}

/// There is at most one victim.
pub proof fn victim_is_unique(workers: Seq<WorkerView>, n: int, thief_id: u32, a: int, b: int)
    requires
        is_victim(workers, n, thief_id, a),
        is_victim(workers, n, thief_id, b),
    ensures
        a == b,
{
    if a < b {
        assert(workers[a].items.len() < workers[b].items.len());
    } else if b < a {
        assert(workers[b].items.len() < workers[a].items.len());
    }
}

/// A pool of workers.
pub struct WorkerPool {
    /// Workers.
    pub bounded: Vec<Worker>,
    /// Number of workers.
    pub bounded_count: u32,
    /// Items that no worker has.
    pub overflow: VecDeque<WorkItem>,
    next_worker: u32,
    /// Items that were submitted.
    pub total_submitted: u64,
    /// Items that were completed.
    pub total_completed: u64,
    /// New items are accepted.
    pub active: bool,
}

impl View for WorkerPool {
    type V = WorkerPoolView;

    closed spec fn view(&self) -> WorkerPoolView {
        WorkerPoolView {
            workers: Seq::new(self.bounded@.len(), |i: int| self.bounded@[i]@),
            overflow: self.overflow@,
            next: self.next_worker,
            submitted: self.total_submitted,
            completed: self.total_completed,
            active: self.active,
        }
    }
}

impl WorkerPool {
    /// The count is that of the workers.
    pub closed spec fn wf(&self) -> bool {
        self.bounded_count == self@.workers.len()
    }

    /// Makes a pool of idle workers.
    pub fn new(num_bounded: u32) -> (p: Self)
        ensures
            p.wf(),
            p@ == (WorkerPoolView {
                workers: Seq::new(
                    num_bounded as nat,
                    |i: int|
                        WorkerView {
                            id: i as u32,
                            items: Seq::empty(),
                            state: WorkerState::Idle,
                            processed: 0,
                        },
                ),
                overflow: Seq::empty(),
                next: 0,
                submitted: 0,
                completed: 0,
                active: true,
            }),
    {
        let mut bounded: Vec<Worker> = Vec::with_capacity(num_bounded as usize);
        let mut i: u32 = 0;
        while i < num_bounded
            invariant
                i <= num_bounded,
                bounded.len() == i,
                forall|k: int|
                    0 <= k < i ==> (#[trigger] bounded@[k])@ == (WorkerView {
                        id: k as u32,
                        items: Seq::empty(),
                        state: WorkerState::Idle,
                        processed: 0,
                    }),
            decreases num_bounded - i,
        {
            bounded.push(Worker::new(i));
            i += 1;
        }
        let p = WorkerPool {
            bounded,
            bounded_count: num_bounded,
            overflow: VecDeque::with_capacity(256),
            next_worker: 0,
            total_submitted: 0,
            total_completed: 0,
            active: true,
        };
        assert(p@.workers =~= Seq::new(
            num_bounded as nat,
            |i: int|
                WorkerView {
                    id: i as u32,
                    items: Seq::empty(),
                    state: WorkerState::Idle,
                    processed: 0,
                },
        ));
        p
    }

    /// Gives an item to the idle worker with the fewest items, or to the next
    /// worker in turn if all are busy. Whether the pool accepts items.
    pub fn submit(&mut self, item: WorkItem) -> (r: bool)
        requires
            old(self).wf(),
            old(self)@.active ==> old(self)@.workers.len() > 0,
        ensures
            final(self).wf(),
            r == old(self)@.active,
            final(self)@ == if r {
                old(self)@.accepted(item)
            } else {
                old(self)@
            },
    {
        if !self.active {
            return false;
        }
        self.total_submitted = self.total_submitted.wrapping_add(1);
        let ghost workers = self@.workers;
        let mut best_idx: Option<usize> = None;
        let mut best_pending: usize = usize::MAX;
        let mut i: usize = 0;
        while i < self.bounded.len()
            invariant
                i <= self.bounded.len(),
                workers == self@.workers,
                best_idx is None ==> !some_idle(workers, i as int),
                best_idx matches Some(b) ==> is_least_loaded_idle(workers, i as int, b as int)
                    && best_pending == workers[b as int].items.len(),
            decreases self.bounded.len() - i,
        {
            assert(self.bounded@[i as int]@ == workers[i as int]);
            if self.bounded[i].is_idle() {
                let pending: usize = self.bounded[i].pending_count();
                if best_idx.is_none() || pending < best_pending {
                    best_pending = pending;
                    best_idx = Some(i);
                }
            }
            i += 1;
        }
        match best_idx {
            Some(idx) => {
                proof {
                    assert(workers[idx as int].state == WorkerState::Idle);
                    least_loaded_idle_is_unique(
                        workers,
                        workers.len() as int,
                        idx as int,
                        old(self)@.target(),
                    );
                }
                assert(old(self)@.workers == workers);
                self.bounded[idx].push(item);
                assert(self@ =~= old(self)@.accepted(item));
                true
            },
            None => {
                assert(old(self)@.workers == workers);
                let idx: u32 = self.next_worker % self.bounded_count;
                self.next_worker = self.next_worker.wrapping_add(1);
                self.bounded[idx as usize].push(item);
                assert(self@ =~= old(self)@.accepted(item));
                true
            },
        }
    }

    /// Takes an item for a worker without work: the oldest one that no worker has,
    /// or else the newest one of the other worker with the most items.
    pub fn try_steal(&mut self, thief_id: u32) -> (r: Option<WorkItem>)
        requires
            old(self).wf(),
        ensures
            final(self).wf(),
            r == old(self)@.stolen_item(thief_id),
            final(self)@ == old(self)@.after_steal(thief_id),
    {
        let ghost workers = self@.workers;
        match self.overflow.pop_front() {
            Some(item) => {
                assert(self.overflow@ =~= old(self)@.overflow.drop_first());
                assert(self@ =~= old(self)@.after_steal(thief_id));
                return Some(item);
            },
            None => {},
        }
        let mut best_victim: Option<usize> = None;
        let mut best_pending: usize = 0;
        let mut i: usize = 0;
        while i < self.bounded.len()
            invariant
                i <= self.bounded.len() <= u32::MAX,
                workers == self@.workers,
                best_victim is None ==> best_pending == 0 && !some_victim(
                    workers,
                    i as int,
                    thief_id,
                ),
                best_victim matches Some(v) ==> is_victim(workers, i as int, thief_id, v as int)
                    && best_pending == workers[v as int].items.len(),
            decreases self.bounded.len() - i,
        {
            assert(self.bounded@[i as int]@ == workers[i as int]);
            if i as u32 != thief_id {
                let pending: usize = self.bounded[i].pending_count();
                if pending > best_pending {
                    best_pending = pending;
                    best_victim = Some(i);
                }
            }
            i += 1;
        }
        match best_victim {
            Some(victim) => {
                proof {
                    assert(is_victim(workers, workers.len() as int, thief_id, victim as int));
                    assert(workers[victim as int].items.len() > 0);
                    victim_is_unique(
                        workers,
                        workers.len() as int,
                        thief_id,
                        victim as int,
                        old(self)@.victim(thief_id).unwrap(),
                    );
                }
                let r = self.bounded[victim].steal();
                assert(self@ =~= old(self)@.after_steal(thief_id));
                r
            },
            None => {
                assert(self@ =~= old(self)@.after_steal(thief_id));
                None
            },
        }
    }

    /// Notes that an item was completed.
    pub fn record_completion(&mut self)
        requires
            old(self).wf(),
        ensures
            final(self).wf(),
            final(self)@ == (WorkerPoolView {
                completed: old(self)@.completed.wrapping_add(1),
                ..old(self)@
            }),
    {
        self.total_completed = self.total_completed.wrapping_add(1);
    }

    /// Accepts no more items.
    pub fn shutdown(&mut self)
        requires
            old(self).wf(),
        ensures
            final(self).wf(),
            final(self)@ == (WorkerPoolView { active: false, ..old(self)@ }),
    {
        self.active = false;
    }

    /// Number of items that wait.
    pub fn total_pending(&self) -> (n: usize)
        requires
            self@.pending() <= usize::MAX,
        ensures
            n == self@.pending(),
    {
        let ghost workers = self@.workers;
        let mut n: usize = 0;
        let mut i: usize = 0;
        while i < self.bounded.len()
            invariant
                i <= self.bounded.len(),
                workers == self@.workers,
                n == pending_items(workers.take(i as int)),
                pending_items(workers) <= usize::MAX,
            decreases self.bounded.len() - i,
        {
            proof {
                assert(workers.take(i + 1).drop_last() =~= workers.take(i as int));
                assert(workers.take(i + 1).last() == self.bounded@[i as int]@);
                lemma_pending_prefix(workers, i + 1);
            }
            n += self.bounded[i].pending_count();
            i += 1;
        }
        assert(workers.take(i as int) =~= workers);
        n + self.overflow.len()
    }

    /// Number of idle workers.
    pub fn idle_count(&self) -> (n: u32)
        requires
            self.wf(),
        ensures
            n == idle_workers(self@.workers),
    {
        let ghost workers = self@.workers;
        let mut n: u32 = 0;
        let mut i: usize = 0;
        while i < self.bounded.len()
            invariant
                i <= self.bounded.len() <= u32::MAX,
                workers == self@.workers,
                n == idle_workers(workers.take(i as int)),
                n <= i,
            decreases self.bounded.len() - i,
        {
            proof {
                assert(workers.take(i + 1).drop_last() =~= workers.take(i as int));
                assert(workers.take(i + 1).last() == self.bounded@[i as int]@);
            }
            if self.bounded[i].is_idle() {
                n += 1;
            }
            i += 1;
        }
        assert(workers.take(i as int) =~= workers);
        n
    }
}

/// The first workers have no more items than all.
proof fn lemma_pending_prefix(workers: Seq<WorkerView>, n: int)
    requires
        0 <= n <= workers.len(),
    ensures
        0 <= pending_items(workers.take(n)) <= pending_items(workers),
    decreases workers.len(),
{
    if n == workers.len() {
        assert(workers.take(n) =~= workers);
        if n > 0 {
            lemma_pending_prefix(workers.drop_last(), n - 1);
            assert(workers.drop_last().take(n - 1) =~= workers.drop_last());
        }
    } else {
        lemma_pending_prefix(workers.drop_last(), n);
        assert(workers.drop_last().take(n) =~= workers.take(n));
    }
}

/// Replacing a worker changes the sum by the difference.
proof fn lemma_pending_update(workers: Seq<WorkerView>, t: int, w: WorkerView)
    requires
        0 <= t < workers.len(),
    ensures
        pending_items(workers.update(t, w)) == pending_items(workers) - workers[t].items.len()
            + w.items.len(),
    decreases workers.len(),
{
    let u = workers.update(t, w);
    if t == workers.len() - 1 {
        assert(u.drop_last() =~= workers.drop_last());
    } else {
        assert(u.drop_last() =~= workers.drop_last().update(t, w));
        lemma_pending_update(workers.drop_last(), t, w);
    }
}

/// Among the first workers with an idle one, some idle worker has the fewest items.
proof fn lemma_least_loaded_exists(workers: Seq<WorkerView>, n: int)
    requires
        0 <= n <= workers.len(),
        some_idle(workers, n),
    ensures
        exists|b: int| is_least_loaded_idle(workers, n, b),
    decreases n,
{
    if some_idle(workers, n - 1) {
        let m = n - 1;
        lemma_least_loaded_exists(workers, m);
        let b = choose|b: int| is_least_loaded_idle(workers, m, b);
        let last = workers[n - 1];
        if last.state == WorkerState::Idle && last.items.len() < workers[b].items.len() {
            assert(is_least_loaded_idle(workers, n, n - 1));
        } else {
            assert(is_least_loaded_idle(workers, n, b));
        }
    } else {
        assert(is_least_loaded_idle(workers, n, n - 1));
    }
}

/// Among the first workers with something to steal, one has the most items.
proof fn lemma_victim_exists(workers: Seq<WorkerView>, n: int, thief_id: u32)
    requires
        0 <= n <= workers.len(),
        some_victim(workers, n, thief_id),
    ensures
        exists|v: int| is_victim(workers, n, thief_id, v),
    decreases n,
{
    if some_victim(workers, n - 1, thief_id) {
        let m = n - 1;
        lemma_victim_exists(workers, m, thief_id);
        let v = choose|v: int| is_victim(workers, m, thief_id, v);
        let last = workers[n - 1];
        if n - 1 != thief_id && last.items.len() > workers[v].items.len() {
            assert(is_victim(workers, n, thief_id, n - 1));
        } else {
            assert(is_victim(workers, n, thief_id, v));
        }
    } else {
        assert(is_victim(workers, n, thief_id, n - 1));
    }
}

/// An accepted item waits with exactly one worker.
pub proof fn submit_adds_one_item(p: WorkerPoolView, item: WorkItem)
    requires
        p.workers.len() > 0,
    ensures
        p.accepted(item).pending() == p.pending() + 1,
        p.accepted(item).workers[p.target()].items.last() == item,
{
    let n = p.workers.len() as int;
    if some_idle(p.workers, n) {
        lemma_least_loaded_exists(p.workers, n);
    }
    lemma_pending_update(p.workers, p.target(), p.workers[p.target()].pushed(item));
}

/// Stealing takes one item, and finds one whenever any item waits elsewhere than
/// with the thief.
pub proof fn steal_takes_one_item(p: WorkerPoolView, thief_id: u32)
    ensures
        p.stolen_item(thief_id) is Some <==> p.overflow.len() > 0 || some_victim(
            p.workers,
            p.workers.len() as int,
            thief_id,
        ),
        p.after_steal(thief_id).pending() == p.pending() - if p.stolen_item(thief_id) is Some {
            1int
        } else {
            0
        },
{
    if p.overflow.len() == 0 {
        if p.victim(thief_id) is Some {
            lemma_victim_exists(p.workers, p.workers.len() as int, thief_id);
            let v = p.victim(thief_id).unwrap();
            lemma_pending_update(p.workers, v, p.workers[v].stolen());
        }
    }
}

/// Work goes to an idle worker with the fewest items if there is an idle one, and else to
/// the workers in turn. No other worker gets anything.
pub proof fn work_goes_to_an_idle_worker(p: WorkerPoolView, item: WorkItem, k: int, other: int)
    requires
        p.workers.len() > 0,
        0 <= k < p.workers.len(),
        p.workers[k].state == WorkerState::Idle,
        0 <= other < p.workers.len(),
        other != p.target(),
    ensures
        0 <= p.target() < p.workers.len(),
        p.workers[p.target()].state == WorkerState::Idle,
        p.workers[p.target()].items.len() <= p.workers[k].items.len(),
        p.accepted(item).workers[p.target()].items == p.workers[p.target()].items.push(item),
        p.accepted(item).workers[other] == p.workers[other],
        p.accepted(item).next == p.next,
{
    let n = p.workers.len() as int;
    lemma_idle_exists(p.workers, n, k);
    let b = choose|b: int| is_least_loaded_idle(p.workers, n, b);
    assert(is_least_loaded_idle(p.workers, n, b));
}

/// Among the first `n` workers, one of which is idle, there is a first least loaded idle one.
proof fn lemma_idle_exists(workers: Seq<WorkerView>, n: int, k: int)
    requires
        0 <= k < n <= workers.len(),
        workers[k].state == WorkerState::Idle,
    ensures
        exists|b: int| is_least_loaded_idle(workers, n, b),
    decreases n,
{
    if exists|j: int| 0 <= j < n - 1 && (#[trigger] workers[j]).state == WorkerState::Idle {
        let j = choose|j: int| 0 <= j < n - 1 && (#[trigger] workers[j]).state == WorkerState::Idle;
        let m = n - 1;
        lemma_idle_exists(workers, m, j);
        let b = choose|b: int| is_least_loaded_idle(workers, m, b);
        if workers[n - 1].state == WorkerState::Idle && workers[n - 1].items.len()
            < workers[b].items.len() {
            assert(is_least_loaded_idle(workers, n, n - 1));
        } else {
            assert(is_least_loaded_idle(workers, n, b));
        }
    } else {
        assert(is_least_loaded_idle(workers, n, k));
    }
}

/// Without an idle worker the workers take turns.
pub proof fn busy_workers_take_turns(p: WorkerPoolView, item: WorkItem)
    requires
        p.workers.len() > 0,
        p.next < u32::MAX,
        forall|k: int|
            0 <= k < p.workers.len() ==> (#[trigger] p.workers[k]).state != WorkerState::Idle,
    ensures
        0 <= p.target() < p.workers.len(),
        (p.next - p.target()) % p.workers.len() as int == 0,
        p.accepted(item).next == p.next + 1,
{
    let n = p.workers.len() as int;
    let q = p.next as int / n;
    vstd::arithmetic::div_mod::lemma_fundamental_div_mod(p.next as int, n);
    assert(p.next - p.target() == q * n) by (nonlinear_arith)
        requires
            p.next == n * q + p.target(),
    ;
    vstd::arithmetic::div_mod::lemma_mod_multiples_basic(q, n);
}

/// What is stolen: the oldest of the overflow if there is one; else the newest item of the
/// worker with the most items, other than the thief.
pub proof fn steal_takes_from_the_fullest(p: WorkerPoolView, thief_id: u32, k: int)
    requires
        p.overflow.len() == 0,
        0 <= k < p.workers.len(),
        k != thief_id,
        p.workers[k].items.len() > 0,
    ensures
        p.victim(thief_id) is Some,
        ({
            let v = p.victim(thief_id)->Some_0;
            &&& 0 <= v < p.workers.len() && v != thief_id
            &&& p.workers[v].items.len() >= p.workers[k].items.len()
            &&& p.stolen_item(thief_id) == Some(p.workers[v].items.last())
            &&& p.after_steal(thief_id).workers[v].items == p.workers[v].items.drop_last()
            &&& k != v ==> p.after_steal(thief_id).workers[k] == p.workers[k]
        }),
{
    let n = p.workers.len() as int;
    lemma_victim_exists(p.workers, n, thief_id);
    let v = choose|v: int| is_victim(p.workers, n, thief_id, v);
    assert(is_victim(p.workers, n, thief_id, v));
}

/// The overflow is served first, oldest first.
pub proof fn overflow_is_served_first(p: WorkerPoolView, thief_id: u32)
    requires
        p.overflow.len() > 0,
    ensures
        p.stolen_item(thief_id) == Some(p.overflow[0]),
        p.after_steal(thief_id).overflow == p.overflow.drop_first(),
        p.after_steal(thief_id).workers == p.workers,
{
}

/// The items of all workers are counted together, and so are those that are idle: a worker
/// more adds its own.
pub proof fn workers_are_counted_together(workers: Seq<WorkerView>, w: WorkerView)
    ensures
        pending_items(workers.push(w)) == pending_items(workers) + w.items.len(),
        idle_workers(workers.push(w)) == idle_workers(workers) + (if w.state == WorkerState::Idle {
            1int
        } else {
            0
        }),
        pending_items(Seq::empty()) == 0,
        idle_workers(Seq::empty()) == 0,
        0 <= idle_workers(workers) <= workers.len(),
    decreases workers.len(),
{
    assert(workers.push(w).drop_last() =~= workers);
    if workers.len() > 0 {
        workers_are_counted_together(workers.drop_last(), workers.last());
    }
}

} // verus!
