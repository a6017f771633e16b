//! Token-based epoch scheduling.
//!
//! At the start of an epoch, tokens are handed out to all runnable tasks in
//! proportion to their priority. Every pick costs a token; when no runnable task
//! has tokens left, a new epoch begins.

use crate::task::scheduler::{PriorityScheduler, Scheduler as TaskScheduler};
use crate::task::{TaskRef, TaskTable};
use crate::task_struct::{RunState, Task};
use std::collections::VecDeque;
use vstd::prelude::*;

verus! {

/// Highest priority of a task.
pub const MAX_PRIORITY: u8 = 40;

/// Priority of a new task.
pub const DEFAULT_PRIORITY: u8 = 20;

/// Tokens of a new task.
pub const INITIAL_TOKENS: usize = 10;

/// A queued task with its priority and tokens.
#[derive(Clone, Copy, Debug, PartialEq, Eq, Structural)]
pub struct EpochTaskRef {
    pub task: TaskRef,
    pub priority: u8,
    pub tokens_remaining: usize,
}

impl EpochTaskRef {
    /// A task that has just joined the queue.
    pub fn new(task: TaskRef) -> (r: EpochTaskRef)
        ensures
            r == fresh_entry(task),
    {
        EpochTaskRef { task, priority: DEFAULT_PRIORITY, tokens_remaining: INITIAL_TOKENS }
    }
}

/// The entry of a task that has just joined the queue.
pub open spec fn fresh_entry(task: TaskRef) -> EpochTaskRef {
    EpochTaskRef { task, priority: DEFAULT_PRIORITY, tokens_remaining: INITIAL_TOKENS }
}

/// An epoch scheduler for one CPU.
pub struct Scheduler {
    idle_task: TaskRef,
    queue: VecDeque<EpochTaskRef>,
}

/// The task of the entry can run.
pub open spec fn can_run(e: EpochTaskRef, tasks: Map<usize, Task>) -> bool {
    tasks[e.task.id].runstate == RunState::Runnable
}

/// The task of the entry can run and has a token to pay with.
pub open spec fn can_pick(e: EpochTaskRef, tasks: Map<usize, Task>) -> bool {
    can_run(e, tasks) && e.tokens_remaining > 0
}

/// Position `i` is the first whose task can be picked.
pub open spec fn is_pick(q: Seq<EpochTaskRef>, tasks: Map<usize, Task>, i: int) -> bool {
    0 <= i < q.len() && can_pick(q[i], tasks) && forall|j: int|
        0 <= j < i ==> !can_pick(#[trigger] q[j], tasks)
}

/// Some task can be picked.
pub open spec fn has_pick(q: Seq<EpochTaskRef>, tasks: Map<usize, Task>) -> bool {
    exists|i: int| 0 <= i < q.len() && can_pick(#[trigger] q[i], tasks)
}

/// The position of the pick.
pub open spec fn pick_position(q: Seq<EpochTaskRef>, tasks: Map<usize, Task>) -> int {
    choose|i: int| is_pick(q, tasks, i)
}

/// The queue after the pick at position `i`: it has paid a token and moved to
/// the back.
pub open spec fn after_pick(q: Seq<EpochTaskRef>, i: int) -> Seq<EpochTaskRef> {
    q.remove(i).push(
        EpochTaskRef { tokens_remaining: (q[i].tokens_remaining - 1) as usize, ..q[i] },
    )
}

/// The entry takes part in the distribution of tokens.
pub open spec fn shares(e: EpochTaskRef, tasks: Map<usize, Task>, idle: TaskRef) -> bool {
    can_run(e, tasks) && e.task != idle
}

/// Weight of an entry; the offset keeps tasks with priority 0 from starving.
pub open spec fn share_weight(e: EpochTaskRef) -> int {
    e.priority + 1
}

/// Total weight of the entries that take part.
pub open spec fn total_weight(q: Seq<EpochTaskRef>, tasks: Map<usize, Task>, idle: TaskRef) -> int
    decreases q.len(),
{
    if q.len() == 0 {
        0
    } else {
        total_weight(q.drop_last(), tasks, idle) + if shares(q.last(), tasks, idle) {
            share_weight(q.last())
        } else {
            0
        }
    }
}

/// Length of an epoch in tokens.
pub open spec fn epoch_length(total: int) -> int {
    if total > 100 {
        total
    } else {
        100
    }
}

/// Tokens that an entry gets in an epoch.
pub open spec fn share_of(e: EpochTaskRef, tasks: Map<usize, Task>, idle: TaskRef, total: int) -> int {
    if shares(e, tasks, idle) {
        let product = epoch_length(total) * share_weight(e);
        (if product > usize::MAX {
            usize::MAX as int
        } else {
            product
        }) / total
    } else {
        0
    }
}

/// The queue after tokens have been handed out.
pub open spec fn assigned(q: Seq<EpochTaskRef>, tasks: Map<usize, Task>, idle: TaskRef) -> Seq<
    EpochTaskRef,
> {
    let total = total_weight(q, tasks, idle);
    if total == 0 {
        q
    } else {
        Seq::new(
            q.len(),
            |i: int|
                EpochTaskRef {
                    tokens_remaining: share_of(q[i], tasks, idle, total) as usize,
                    ..q[i]
                },
        )
    }
}

/// The queue from which the next task is picked: with new tokens if nobody has
/// any left.
pub open spec fn pick_queue(q: Seq<EpochTaskRef>, tasks: Map<usize, Task>, idle: TaskRef) -> Seq<
    EpochTaskRef,
> {
    if has_pick(q, tasks) {
        q
    } else {
        assigned(q, tasks, idle)
    }
}

/// The next task.
pub open spec fn next_task(q: Seq<EpochTaskRef>, tasks: Map<usize, Task>, idle: TaskRef) -> TaskRef {
    let p = pick_queue(q, tasks, idle);
    if has_pick(p, tasks) {
        p[pick_position(p, tasks)].task
    } else {
        idle
    }
}

/// The queue after the next task was picked.
pub open spec fn next_queue(q: Seq<EpochTaskRef>, tasks: Map<usize, Task>, idle: TaskRef) -> Seq<
    EpochTaskRef,
> {
    let p = pick_queue(q, tasks, idle);
    if has_pick(p, tasks) {
        after_pick(p, pick_position(p, tasks))
    } else {
        p
    }
}

/// The queue holds `task`.
pub open spec fn holds(q: Seq<EpochTaskRef>, task: TaskRef) -> bool {
    exists|i: int| 0 <= i < q.len() && (#[trigger] q[i]).task == task
}

/// Position `i` is the first that holds `task`.
pub open spec fn is_position(q: Seq<EpochTaskRef>, task: TaskRef, i: int) -> bool {
    0 <= i < q.len() && q[i].task == task && forall|j: int|
        0 <= j < i ==> (#[trigger] q[j]).task != task
}

/// The first position that holds `task`.
pub open spec fn position_of(q: Seq<EpochTaskRef>, task: TaskRef) -> int {
    choose|i: int| is_position(q, task, i)
}

/// No task is queued twice.
pub open spec fn distinct(q: Seq<EpochTaskRef>) -> bool {
    forall|i: int, j: int|
        0 <= i < j < q.len() ==> (#[trigger] q[i]).task != (#[trigger] q[j]).task
}

impl Scheduler {
    /// The queued tasks.
    pub closed spec fn queue(&self) -> Seq<EpochTaskRef> {
        self.queue@
    }

    /// The idle task.
    pub closed spec fn idle(&self) -> TaskRef {
        self.idle_task
    }

    /// An epoch scheduler with the given idle task.
    pub fn new(idle_task: TaskRef) -> (s: Self)
        ensures
            s.idle() == idle_task,
            s.queue() == Seq::<EpochTaskRef>::empty(),
    {
        Scheduler { idle_task, queue: VecDeque::new() }
    }

    /// Moves the entry at `index` to the back of the queue with the given number
    /// of tokens, and returns its task.
    fn update_and_move_to_end(&mut self, index: usize, tokens: usize) -> (r: Option<TaskRef>)
        ensures
            final(self).idle() == old(self).idle(),
            index < old(self).queue().len() ==> {
                let e = old(self).queue()[index as int];
                r == Some(e.task) && final(self).queue() == old(self).queue().remove(
                    index as int,
                ).push(EpochTaskRef { tokens_remaining: tokens, ..e })
            },
            index >= old(self).queue().len() ==> r is None && final(self).queue() == old(
                self,
            ).queue(),
    {
        if index >= self.queue.len() {
            return None;
        }
        match self.queue.remove(index) {
            Some(mut entry) => {
                entry.tokens_remaining = tokens;
                let task = entry.task;
                self.queue.push_back(entry);
                Some(task)
            },
            None => None,
        }
    }

    /// Picks the first runnable task that has tokens left.
    fn try_next(&mut self, tasks: &TaskTable) -> (r: Option<TaskRef>)
        requires
            tasks.wf(),
            forall|i: int|
                0 <= i < old(self).queue().len() ==> tasks@.contains_key(
                    (#[trigger] old(self).queue()[i]).task.id,
                ),
        ensures
            final(self).idle() == old(self).idle(),
            has_pick(old(self).queue(), tasks@) ==> {
                let i = pick_position(old(self).queue(), tasks@);
                r == Some(old(self).queue()[i].task) && final(self).queue() == after_pick(
                    old(self).queue(),
                    i,
                )
            },
            !has_pick(old(self).queue(), tasks@) ==> r is None && final(self).queue() == old(
                self,
            ).queue(),
    {
        let ghost q = self.queue@;
        let mut i: usize = 0;
        while i < self.queue.len()
            invariant
                tasks.wf(),
                self.queue@ == q,
                q == old(self).queue(),
                self.idle_task == old(self).idle(),
                i <= q.len(),
                forall|j: int|
                    0 <= j < q.len() ==> tasks@.contains_key((#[trigger] q[j]).task.id),
                forall|j: int| 0 <= j < i ==> !can_pick(#[trigger] q[j], tasks@),
            decreases q.len() - i,
        {
            let entry: EpochTaskRef = self.queue[i];
            if entry.task.is_runnable(tasks) && entry.tokens_remaining > 0 {
                let new_tokens: usize = entry.tokens_remaining - 1;
                proof {
                    assert(can_pick(q[i as int], tasks@));
                    assert(is_pick(q, tasks@, i as int));
                    let c = pick_position(q, tasks@);
                    assert(c == i) by {
                        if c < i {
                            assert(!can_pick(q[c], tasks@));
                        } else if i < c {
                            assert(!can_pick(q[i as int], tasks@));
                        }
                    }
                }
                return self.update_and_move_to_end(i, new_tokens);
            }
            i += 1;
        }
        None
    }

    /// Hands out the tokens of a new epoch.
    fn assign_tokens(&mut self, tasks: &TaskTable)
        requires
            tasks.wf(),
            forall|i: int|
                0 <= i < old(self).queue().len() ==> tasks@.contains_key(
                    (#[trigger] old(self).queue()[i]).task.id,
                ),
            total_weight(old(self).queue(), tasks@, old(self).idle()) <= usize::MAX,
        ensures
            final(self).idle() == old(self).idle(),
            final(self).queue() == assigned(old(self).queue(), tasks@, old(self).idle()),
    {
        let ghost q = self.queue@;
        let idle: TaskRef = self.idle_task;
        let mut total: usize = 0;
        let mut i: usize = 0;
        while i < self.queue.len()
            invariant
                tasks.wf(),
                self.queue@ == q,
                idle == self.idle_task,
                i <= q.len(),
                forall|j: int|
                    0 <= j < q.len() ==> tasks@.contains_key((#[trigger] q[j]).task.id),
                total == total_weight(q.take(i as int), tasks@, idle),
                total_weight(q, tasks@, idle) <= usize::MAX,
            decreases q.len() - i,
        {
            let entry: EpochTaskRef = self.queue[i];
            proof {
                assert(q.take(i + 1).drop_last() =~= q.take(i as int));
                lemma_total_prefix(q, tasks@, idle, i + 1);
            }
            if entry.task.is_runnable(tasks) && entry.task != idle {
                total = total + (entry.priority as usize + 1);
            }
            i += 1;
        }
        assert(q.take(q.len() as int) =~= q);
        if total == 0 {
            return;
        }
        let epoch: usize = if total > 100 {
            total
        } else {
            100
        };
        let mut dealt: VecDeque<EpochTaskRef> = VecDeque::new();
        let mut k: usize = 0;
        while k < self.queue.len()
            invariant
                tasks.wf(),
                self.queue@ == q,
                idle == self.idle_task,
                k <= q.len(),
                total > 0,
                total == total_weight(q, tasks@, idle),
                epoch == epoch_length(total as int),
                forall|j: int|
                    0 <= j < q.len() ==> tasks@.contains_key((#[trigger] q[j]).task.id),
                dealt@.len() == k,
                forall|j: int|
                    0 <= j < k ==> (#[trigger] dealt@[j]) == (EpochTaskRef {
                        tokens_remaining: share_of(q[j], tasks@, idle, total as int) as usize,
                        ..q[j]
                    }),
            decreases q.len() - k,
        {
            let mut entry: EpochTaskRef = self.queue[k];
            if entry.task == idle || !entry.task.is_runnable(tasks) {
                entry.tokens_remaining = 0;
            } else {
                let weight: usize = entry.priority as usize + 1;
                let product: usize = match epoch.checked_mul(weight) {
                    Some(p) => p,
                    None => usize::MAX,
                };
                entry.tokens_remaining = product / total;
            }
            dealt.push_back(entry);
            k += 1;
        }
        self.queue = dealt;
        assert(self.queue@ =~= assigned(q, tasks@, idle));
    }
}

proof fn lemma_total_prefix(q: Seq<EpochTaskRef>, tasks: Map<usize, Task>, idle: TaskRef, n: int)
    requires
        0 <= n <= q.len(),
    ensures
        0 <= total_weight(q.take(n), tasks, idle) <= total_weight(q, tasks, idle),
    decreases q.len(),
{
    lemma_total_nonnegative(q.take(n), tasks, idle);
    if n < q.len() {
        lemma_total_prefix(q.drop_last(), tasks, idle, n);
        assert(q.drop_last().take(n) =~= q.take(n));
    } else {
        assert(q.take(n) =~= q);
    }
}

proof fn lemma_total_nonnegative(q: Seq<EpochTaskRef>, tasks: Map<usize, Task>, idle: TaskRef)
    ensures
        0 <= total_weight(q, tasks, idle),
    decreases q.len(),
{
    if q.len() > 0 {
        lemma_total_nonnegative(q.drop_last(), tasks, idle);
    }
}

impl TaskScheduler for Scheduler {
    open spec fn ready(&self, tasks: Map<usize, Task>) -> bool {
        &&& forall|i: int|
            0 <= i < self.queue().len() ==> tasks.contains_key((#[trigger] self.queue()[i]).task.id)
        &&& total_weight(self.queue(), tasks, self.idle()) <= usize::MAX
    }

    fn next(&mut self, tasks: &TaskTable, current_id: usize, now: u64) -> (r: TaskRef)
        ensures
            final(self).idle() == old(self).idle(),
            r == next_task(old(self).queue(), tasks@, old(self).idle()),
            final(self).queue() == next_queue(old(self).queue(), tasks@, old(self).idle()),
    {
        let ghost q = self.queue@;
        if let Some(t) = self.try_next(tasks) {
            return t;
        }
        self.assign_tokens(tasks);
        match self.try_next(tasks) {
            Some(t) => t,
            None => self.idle_task,
        }
    }

    fn add(&mut self, task: TaskRef)
        ensures
            final(self).idle() == old(self).idle(),
            final(self).queue() == if holds(old(self).queue(), task) {
                old(self).queue()
            } else {
                old(self).queue().push(fresh_entry(task))
            },
    {
        let mut i: usize = 0;
        while i < self.queue.len()
            invariant
                self.queue@ == old(self).queue(),
                self.idle_task == old(self).idle(),
                i <= self.queue@.len(),
                forall|j: int| 0 <= j < i ==> (#[trigger] self.queue@[j]).task != task,
            decreases self.queue@.len() - i,
        {
            if self.queue[i].task.id == task.id {
                assert(self.queue@[i as int].task == task);
                return;
            }
            i += 1;
        }
        self.queue.push_back(EpochTaskRef::new(task));
    }

    fn busyness(&self) -> (r: usize)
        ensures
            r == self.queue().len(),
    {
        self.queue.len()
    }

    fn remove(&mut self, task: TaskRef) -> (r: bool)
        ensures
            final(self).idle() == old(self).idle(),
            r == holds(old(self).queue(), task),
            final(self).queue() == if r {
                old(self).queue().remove(position_of(old(self).queue(), task))
            } else {
                old(self).queue()
            },
    {
        let ghost q = self.queue@;
        let mut i: usize = 0;
        while i < self.queue.len()
            invariant
                self.queue@ == q,
                q == old(self).queue(),
                self.idle_task == old(self).idle(),
                i <= q.len(),
                forall|j: int| 0 <= j < i ==> (#[trigger] q[j]).task != task,
            decreases q.len() - i,
        {
            if self.queue[i].task == task {
                proof {
                    assert(is_position(q, task, i as int));
                    lemma_position_unique(q, task, i as int, position_of(q, task));
                }
                let _ = self.queue.remove(i);
                return true;
            }
            i += 1;
        }
        false
    }

    fn drain(&mut self) -> (r: Vec<TaskRef>)
        ensures
            final(self).idle() == old(self).idle(),
            final(self).queue() == Seq::<EpochTaskRef>::empty(),
            r@ == old(self).queue().map_values(|e: EpochTaskRef| e.task),
    {
        let r = TaskScheduler::tasks(self);
        self.queue = VecDeque::new();
        r
    }

    fn tasks(&self) -> (r: Vec<TaskRef>)
        ensures
            r@ == self.queue().map_values(|e: EpochTaskRef| e.task),
    {
        let mut r: Vec<TaskRef> = Vec::new();
        let mut i: usize = 0;
        while i < self.queue.len()
            invariant
                i <= self.queue@.len(),
                r@.len() == i,
                forall|j: int| 0 <= j < i ==> (#[trigger] r@[j]) == self.queue@[j].task,
            decreases self.queue@.len() - i,
        {
            r.push(self.queue[i].task);
            i += 1;
        }
        assert(r@ =~= self.queue().map_values(|e: EpochTaskRef| e.task));
        r
    }
}

proof fn lemma_position_unique(q: Seq<EpochTaskRef>, task: TaskRef, a: int, b: int)
    requires
        is_position(q, task, a),
        is_position(q, task, b),
    ensures
        a == b,
{
    if a < b {
        assert(q[a].task != task);
    } else if b < a {
        assert(q[b].task != task);
    }
}

impl PriorityScheduler for Scheduler {
    fn set_priority(&mut self, task: TaskRef, priority: u8) -> (r: bool)
        ensures
            final(self).idle() == old(self).idle(),
            r == holds(old(self).queue(), task),
            !r ==> final(self).queue() == old(self).queue(),
            r ==> {
                let i = position_of(old(self).queue(), task);
                final(self).queue() == old(self).queue().update(
                    i,
                    EpochTaskRef {
                        priority: if priority > MAX_PRIORITY {
                            MAX_PRIORITY
                        } else {
                            priority
                        },
                        ..old(self).queue()[i]
                    },
                )
            },
    {
        let ghost q = self.queue@;
        let capped: u8 = if priority > MAX_PRIORITY {
            MAX_PRIORITY
        } else {
            priority
        };
        let mut i: usize = 0;
        while i < self.queue.len()
            invariant
                self.queue@ == q,
                q == old(self).queue(),
                self.idle_task == old(self).idle(),
                capped == if priority > MAX_PRIORITY { MAX_PRIORITY } else { priority },
                i <= q.len(),
                forall|j: int| 0 <= j < i ==> (#[trigger] q[j]).task != task,
            decreases q.len() - i,
        {
            if self.queue[i].task == task {
                proof {
                    assert(is_position(q, task, i as int));
                    lemma_position_unique(q, task, i as int, position_of(q, task));
                }
                if let Some(mut entry) = self.queue.remove(i) {
                    entry.priority = capped;
                    self.queue.insert(i, entry);
                }
                assert(self.queue@ =~= q.update(
                    i as int,
                    EpochTaskRef { priority: capped, ..q[i as int] },
                ));
                return true;
            }
            i += 1;
        }
        false
    }

    fn priority(&self, task: TaskRef) -> (r: Option<u8>)
        ensures
            r == if holds(self.queue(), task) {
                Some(self.queue()[position_of(self.queue(), task)].priority)
            } else {
                None
            },
    {
        let ghost q = self.queue@;
        let mut i: usize = 0;
        while i < self.queue.len()
            invariant
                self.queue@ == q,
                i <= q.len(),
                forall|j: int| 0 <= j < i ==> (#[trigger] q[j]).task != task,
            decreases q.len() - i,
        {
            if self.queue[i].task == task {
                proof {
                    assert(is_position(q, task, i as int));
                    lemma_position_unique(q, task, i as int, position_of(q, task));
                }
                return Some(self.queue[i].priority);
            }
            i += 1;
        }
        None
    }
}

/// At the start of an epoch every runnable task gets at least one token, even
/// at priority 0.
pub proof fn every_runnable_task_gets_a_token(
    q: Seq<EpochTaskRef>,
    tasks: Map<usize, Task>,
    idle: TaskRef,
    i: int,
)
    requires
        0 <= i < q.len(),
        shares(q[i], tasks, idle),
        total_weight(q, tasks, idle) <= usize::MAX,
    ensures
        total_weight(q, tasks, idle) > 0,
        assigned(q, tasks, idle)[i].tokens_remaining >= 1,
        has_pick(assigned(q, tasks, idle), tasks),
{
    lemma_total_covers(q, tasks, idle, i);
    let total = total_weight(q, tasks, idle);
    let w = share_weight(q[i]);
    let product = epoch_length(total) * w;
    assert(product >= total) by (nonlinear_arith)
        requires
            product == epoch_length(total) * w,
            epoch_length(total) >= total,
            w >= 1,
            total > 0,
    ;
    let capped: int = if product > usize::MAX { usize::MAX as int } else { product };
    assert(capped / total >= 1) by (nonlinear_arith)
        requires
            capped >= total,
            total > 0,
    ;
    assert(capped / total <= capped) by (nonlinear_arith)
        requires
            capped >= 0,
            total > 0,
    ;
    assert(can_pick(assigned(q, tasks, idle)[i], tasks));
}

proof fn lemma_total_covers(q: Seq<EpochTaskRef>, tasks: Map<usize, Task>, idle: TaskRef, i: int)
    requires
        0 <= i < q.len(),
        shares(q[i], tasks, idle),
    ensures
        total_weight(q, tasks, idle) >= share_weight(q[i]),
    decreases q.len(),
{
    lemma_total_nonnegative(q.drop_last(), tasks, idle);
    if i < q.len() - 1 {
        lemma_total_covers(q.drop_last(), tasks, idle, i);
    }
}

/// The next task can run, or is the idle task.
pub proof fn next_task_can_run(q: Seq<EpochTaskRef>, tasks: Map<usize, Task>, idle: TaskRef)
    ensures
        next_task(q, tasks, idle) == idle || tasks[next_task(q, tasks, idle).id].runstate
            == RunState::Runnable,
{
    let p = pick_queue(q, tasks, idle);
    if has_pick(p, tasks) {
        lemma_has_first_pick(p, tasks);
    }
}

proof fn lemma_has_first_pick(q: Seq<EpochTaskRef>, tasks: Map<usize, Task>)
    requires
        has_pick(q, tasks),
    ensures
        is_pick(q, tasks, pick_position(q, tasks)),
    decreases q.len(),
{
    let i = choose|i: int| 0 <= i < q.len() && can_pick(#[trigger] q[i], tasks);
    if forall|j: int| 0 <= j < i ==> !can_pick(#[trigger] q[j], tasks) {
        assert(is_pick(q, tasks, i));
    } else {
        let j = choose|j: int| 0 <= j < i && can_pick(#[trigger] q[j], tasks);
        let p = q.take(i);
        assert(can_pick(p[j], tasks));
        lemma_has_first_pick(p, tasks);
        let k = pick_position(p, tasks);
        assert(is_pick(q, tasks, k)) by {
            assert forall|x: int| 0 <= x < k implies !can_pick(#[trigger] q[x], tasks) by {
                assert(p[x] == q[x]);
            }
        }
    }
}

/// A runnable task other than the idle task is always preferred to idling.
pub proof fn runnable_tasks_are_preferred_to_idling(
    q: Seq<EpochTaskRef>,
    tasks: Map<usize, Task>,
    idle: TaskRef,
    i: int,
)
    requires
        0 <= i < q.len(),
        shares(q[i], tasks, idle),
        total_weight(q, tasks, idle) <= usize::MAX,
    ensures
        has_pick(pick_queue(q, tasks, idle), tasks),
{
    if !has_pick(q, tasks) {
        every_runnable_task_gets_a_token(q, tasks, idle, i);
    }
}

/// No operation queues a task twice.
pub proof fn tasks_stay_distinct(
    q: Seq<EpochTaskRef>,
    tasks: Map<usize, Task>,
    idle: TaskRef,
    task: TaskRef,
    i: int,
)
    requires
        distinct(q),
    ensures
        !holds(q, task) ==> distinct(q.push(fresh_entry(task))),
        0 <= i < q.len() ==> distinct(q.remove(i)),
        distinct(next_queue(q, tasks, idle)),
{
    let p = pick_queue(q, tasks, idle);
    assert(p.len() == q.len());
    assert forall|a: int, b: int| 0 <= a < b < p.len() implies (#[trigger] p[a]).task != (#[trigger]
        p[b]).task by {
        assert(p[a].task == q[a].task && p[b].task == q[b].task);
    }
    if has_pick(p, tasks) {
        lemma_has_first_pick(p, tasks);
        let k = pick_position(p, tasks);
        let n = after_pick(p, k);
        assert forall|a: int, b: int| 0 <= a < b < n.len() implies (#[trigger] n[a]).task
            != (#[trigger] n[b]).task by {
            let pa = if a < k { a } else { a + 1 };
            let pb = if b == n.len() - 1 { k } else if b < k { b } else { b + 1 };
            assert(n[a].task == p[pa].task && n[b].task == p[pb].task);
        }
    }
}

/// A new epoch shares its tokens by priority: a task that can run gets the part of the
/// epoch that its priority plus one has in the sum of them all, rounded down. An epoch has
/// a hundred tokens, or as many as that sum if it is larger. The idle task and tasks that
/// cannot run get none, and nothing else of an entry changes.
pub proof fn tokens_are_shared_by_priority(
    q: Seq<EpochTaskRef>,
    tasks: Map<usize, Task>,
    idle: TaskRef,
    i: int,
)
    requires
        0 <= i < q.len(),
        total_weight(q, tasks, idle) > 0,
        total_weight(q, tasks, idle) * 256 <= usize::MAX,
        100 * 256 <= usize::MAX,
    ensures
        ({
            let total = total_weight(q, tasks, idle);
            let epoch: int = if total > 100 {
                total
            } else {
                100
            };
            let e = assigned(q, tasks, idle)[i];
            &&& tasks[q[i].task.id].runstate == RunState::Runnable && q[i].task != idle
                ==> e.tokens_remaining * total <= epoch * (q[i].priority + 1) < (e.tokens_remaining
                + 1) * total
            &&& tasks[q[i].task.id].runstate != RunState::Runnable || q[i].task == idle
                ==> e.tokens_remaining == 0
            &&& e.task == q[i].task && e.priority == q[i].priority
            &&& assigned(q, tasks, idle).len() == q.len()
        }),
{
    let total = total_weight(q, tasks, idle);
    let epoch = epoch_length(total);
    let w = share_weight(q[i]);
    let product = epoch * w;
    assert(0 <= product <= epoch * 256) by (nonlinear_arith)
        requires
            product == epoch * w,
            1 <= w <= 256,
            epoch > 0,
    ;
    vstd::arithmetic::div_mod::lemma_fundamental_div_mod(product, total);
    let d = product / total;
    assert(d * total <= product < (d + 1) * total && 0 <= d <= product) by (nonlinear_arith)
        requires
            product == total * d + product % total,
            0 <= product % total < total,
            product >= 0,
    ;
}

/// A task of a higher priority gets no fewer tokens than one of a lower priority.
pub proof fn higher_priorities_get_more_tokens(
    q: Seq<EpochTaskRef>,
    tasks: Map<usize, Task>,
    idle: TaskRef,
    low: int,
    high: int,
)
    requires
        0 <= low < q.len(),
        0 <= high < q.len(),
        q[low].priority <= q[high].priority,
        tasks[q[high].task.id].runstate == RunState::Runnable,
        q[high].task != idle,
        total_weight(q, tasks, idle) > 0,
        total_weight(q, tasks, idle) * 256 <= usize::MAX,
        100 * 256 <= usize::MAX,
    ensures
        assigned(q, tasks, idle)[low].tokens_remaining <= assigned(
            q,
            tasks,
            idle,
        )[high].tokens_remaining,
{
    tokens_are_shared_by_priority(q, tasks, idle, low);
    tokens_are_shared_by_priority(q, tasks, idle, high);
    let total = total_weight(q, tasks, idle);
    let epoch = epoch_length(total);
    let a = assigned(q, tasks, idle)[low].tokens_remaining as int;
    let b = assigned(q, tasks, idle)[high].tokens_remaining as int;
    assert(a <= b) by (nonlinear_arith)
        requires
            a == 0 || a * total <= epoch * (q[low].priority + 1),
            epoch * (q[high].priority + 1) < (b + 1) * total,
            q[low].priority <= q[high].priority,
            total > 0,
            epoch > 0,
            b >= 0,
    ;
}

/// The task that runs next is the first of the queue that can run and has tokens left. It
/// pays one and moves to the end; the others keep their order and their tokens. Tokens are
/// given out anew only when no such task is left.
pub proof fn next_task_pays_and_moves_to_the_end(
    q: Seq<EpochTaskRef>,
    tasks: Map<usize, Task>,
    idle: TaskRef,
    i: int,
)
    requires
        0 <= i < q.len(),
        tasks[q[i].task.id].runstate == RunState::Runnable,
        q[i].tokens_remaining > 0,
        forall|j: int|
            0 <= j < i ==> tasks[(#[trigger] q[j]).task.id].runstate != RunState::Runnable
                || q[j].tokens_remaining == 0,
    ensures
        next_task(q, tasks, idle) == q[i].task,
        ({
            let n = next_queue(q, tasks, idle);
            &&& n.len() == q.len()
            &&& n.last().task == q[i].task
            &&& n.last().tokens_remaining == q[i].tokens_remaining - 1
            &&& n.last().priority == q[i].priority
            &&& forall|j: int| 0 <= j < i ==> #[trigger] n[j] == q[j]
            &&& forall|j: int| i <= j < q.len() - 1 ==> #[trigger] n[j] == q[j + 1]
        }),
{
    assert(can_pick(q[i], tasks));
    assert(is_pick(q, tasks, i));
    let p = pick_position(q, tasks);
    assert(is_pick(q, tasks, p));
    assert(p == i) by {
        if p < i {
            assert(!can_pick(q[p], tasks));
        } else if i < p {
            assert(!can_pick(q[i], tasks));
        }
    }
}

/// A task that is added starts in the middle of the priorities, with ten tokens.
pub proof fn new_entry_has_the_default_priority(task: TaskRef)
    ensures
        fresh_entry(task).task == task,
        fresh_entry(task).priority == 20,
        fresh_entry(task).tokens_remaining == 10,
{
}

} // verus!
