//! Priority scheduling: the runnable task with the highest priority runs next;
//! among equals the one that ran longest ago.

use crate::task::scheduler::{PriorityScheduler, Scheduler as TaskScheduler};
use crate::task::{TaskRef, TaskTable};
use crate::task_struct::{RunState, Task};
use vstd::prelude::*;

verus! {

/// Priority of a new task.
pub const DEFAULT_PRIORITY: u8 = 0;

/// A queued task with its priority and the last time it ran.
#[derive(Clone, Copy, Debug, PartialEq, Eq, Structural)]
pub struct PriorityTaskRef {
    pub task: TaskRef,
    pub priority: u8,
    /// Time of the last run; 0 for a task that has not run since it joined.
    pub last_ran: u64,
}

/// Entry `a` is to run before entry `b`.
pub open spec fn runs_before(a: PriorityTaskRef, b: PriorityTaskRef) -> bool {
    a.priority > b.priority || (a.priority == b.priority && a.last_ran < b.last_ran)
}

/// A priority scheduler for one CPU.
pub struct Scheduler {
    idle_task: TaskRef,
    queue: Vec<PriorityTaskRef>,
}

/// The task of the entry may be picked while task `current_id` runs.
pub open spec fn can_pick(e: PriorityTaskRef, tasks: Map<usize, Task>, current_id: usize) -> bool {
    tasks[e.task.id].runstate == RunState::Runnable && e.task.id != current_id
}

/// Position `i` holds a task that may be picked, and no other such task is to
/// run before it.
pub open spec fn is_pick(
    q: Seq<PriorityTaskRef>,
    tasks: Map<usize, Task>,
    current_id: usize,
    i: int,
) -> bool {
    &&& 0 <= i < q.len()
    &&& can_pick(q[i], tasks, current_id)
    &&& forall|j: int|
        0 <= j < q.len() && can_pick(#[trigger] q[j], tasks, current_id) ==> !runs_before(
            q[j],
            q[i],
        )
}

/// Some task may be picked.
pub open spec fn has_pick(q: Seq<PriorityTaskRef>, tasks: Map<usize, Task>, current_id: usize) -> bool {
    exists|i: int| 0 <= i < q.len() && can_pick(#[trigger] q[i], tasks, current_id)
}

/// The queue holds `task`.
pub open spec fn holds(q: Seq<PriorityTaskRef>, task: TaskRef) -> bool {
    exists|i: int| 0 <= i < q.len() && (#[trigger] q[i]).task == task
}

/// The condition of being the entry of another task.
pub open spec fn of_other(task: TaskRef) -> spec_fn(PriorityTaskRef) -> bool {
    |e: PriorityTaskRef| e.task != task
}

/// The first position that holds `task`.
pub open spec fn is_position(q: Seq<PriorityTaskRef>, task: TaskRef, i: int) -> bool {
    0 <= i < q.len() && q[i].task == task && forall|j: int|
        0 <= j < i ==> (#[trigger] q[j]).task != task
}

/// The entry of a task that has just joined the queue.
pub open spec fn fresh_entry(task: TaskRef, priority: u8) -> PriorityTaskRef {
    PriorityTaskRef { task, priority, last_ran: 0 }
}

/// No task is queued twice.
pub open spec fn distinct(q: Seq<PriorityTaskRef>) -> bool {
    forall|i: int, j: int|
        0 <= i < j < q.len() ==> (#[trigger] q[i]).task != (#[trigger] q[j]).task
}

impl PriorityTaskRef {
    /// A task that has just joined the queue.
    pub fn new(task: TaskRef, priority: u8) -> (r: Self)
        ensures
            r == fresh_entry(task, priority),
    {
        PriorityTaskRef { task, priority, last_ran: 0 }
    }

    /// Whether this entry is to run before `other`.
    fn before(&self, other: &PriorityTaskRef) -> (r: bool)
        ensures
            r == runs_before(*self, *other),
    {
        self.priority > other.priority || (self.priority == other.priority && self.last_ran
            < other.last_ran)
    }
}

impl Scheduler {
    /// The queued tasks; their order has no meaning.
    pub closed spec fn queue(&self) -> Seq<PriorityTaskRef> {
        self.queue@
    }

    /// The idle task.
    pub closed spec fn idle(&self) -> TaskRef {
        self.idle_task
    }

    /// A priority scheduler with the given idle task.
    pub fn new(idle_task: TaskRef) -> (s: Self)
        ensures
            s.idle() == idle_task,
            s.queue() == Seq::<PriorityTaskRef>::empty(),
    {
        Scheduler { idle_task, queue: Vec::new() }
    }

    /// Drops all entries of a task; returns whether there were any.
    fn drop_task(&mut self, task: TaskRef) -> (r: bool)
        ensures
            final(self).idle() == old(self).idle(),
            r == holds(old(self).queue(), task),
            final(self).queue() == old(self).queue().filter(of_other(task)),
    {
        let ghost q = self.queue@;
        let ghost pred = of_other(task);
        let mut kept: Vec<PriorityTaskRef> = Vec::new();
        let mut found = false;
        let mut i: usize = 0;
        assert(q.take(0).filter(pred) =~= Seq::empty()) by {
            reveal(Seq::filter);
        }
        while i < self.queue.len()
            invariant
                self.queue@ == q,
                self.idle_task == old(self).idle(),
                pred == of_other(task),
                i <= q.len(),
                kept@ == q.take(i as int).filter(pred),
                found <==> exists|j: int| 0 <= j < i && (#[trigger] q[j]).task == task,
            decreases q.len() - i,
        {
            proof {
                reveal(Seq::filter);
                assert(q.take(i + 1).drop_last() =~= q.take(i as int));
            }
            if self.queue[i].task == task {
                assert(q[i as int].task == task);
                found = true;
            } else {
                kept.push(self.queue[i]);
            }
            i += 1;
        }
        assert(q.take(q.len() as int) =~= q);
        self.queue = kept;
        found
    }
}

impl TaskScheduler for Scheduler {
    open spec fn ready(&self, tasks: Map<usize, Task>) -> bool {
        forall|i: int|
            0 <= i < self.queue().len() ==> tasks.contains_key((#[trigger] self.queue()[i]).task.id)
    }

    fn next(&mut self, tasks: &TaskTable, current_id: usize, now: u64) -> (r: TaskRef)
        ensures
            final(self).idle() == old(self).idle(),
            has_pick(old(self).queue(), tasks@, current_id) ==> exists|i: int| #[trigger]
                is_pick(old(self).queue(), tasks@, current_id, i) && r == old(self).queue()[i].task
                    && final(self).queue() == old(self).queue().update(
                    i,
                    PriorityTaskRef { last_ran: now, ..old(self).queue()[i] },
                ),
            !has_pick(old(self).queue(), tasks@, current_id) ==> r == old(self).idle()
                && final(self).queue() == old(self).queue(),
    {
        let ghost q = self.queue@;
        assert(q == self.queue());
        assert forall|j: int| 0 <= j < q.len() implies tasks@.contains_key(
            (#[trigger] q[j]).task.id,
        ) by {
            assert(self.queue()[j] == q[j]);
        }
        let mut best: Option<usize> = None;
        let mut i: usize = 0;
        while i < self.queue.len()
            invariant
                tasks.wf(),
                self.queue@ == q,
                i <= q.len(),
                forall|j: int|
                    0 <= j < q.len() ==> tasks@.contains_key((#[trigger] q[j]).task.id),
                match best {
                    None => forall|j: int|
                        0 <= j < i ==> !can_pick(#[trigger] q[j], tasks@, current_id),
                    Some(b) => b < i && can_pick(q[b as int], tasks@, current_id) && forall|j: int|
                        0 <= j < i && can_pick(#[trigger] q[j], tasks@, current_id)
                            ==> !runs_before(q[j], q[b as int]),
                },
            decreases q.len() - i,
        {
            let e: PriorityTaskRef = self.queue[i];
            if e.task.is_runnable(tasks) && e.task.id != current_id {
                best = match best {
                    None => Some(i),
                    Some(b) => {
                        let held: PriorityTaskRef = self.queue[b];
                        if held.before(&e) {
                            Some(b)
                        } else {
                            Some(i)
                        }
                    },
                };
            }
            i += 1;
        }
        match best {
            Some(b) => {
                assert(is_pick(old(self).queue(), tasks@, current_id, b as int));
                let mut e: PriorityTaskRef = self.queue[b];
                e.last_ran = now;
                let chosen = e.task;
                self.queue.set(b, e);
                chosen
            },
            None => self.idle_task,
        }
    }

    fn add(&mut self, task: TaskRef)
        ensures
            final(self).idle() == old(self).idle(),
            final(self).queue() == if holds(old(self).queue(), task) {
                old(self).queue()
            } else {
                old(self).queue().push(fresh_entry(task, DEFAULT_PRIORITY))
            },
    {
        let mut i: usize = 0;
        while i < self.queue.len()
            invariant
                self.queue@ == old(self).queue(),
                self.idle_task == old(self).idle(),
                i <= self.queue@.len(),
                forall|j: int| 0 <= j < i ==> (#[trigger] self.queue@[j]).task != task,
            decreases self.queue@.len() - i,
        {
            if self.queue[i].task.id == task.id {
                assert(self.queue@[i as int].task == task);
                return;
            }
            i += 1;
        }
        self.queue.push(PriorityTaskRef::new(task, DEFAULT_PRIORITY));
    }

    fn busyness(&self) -> (r: usize)
        ensures
            r == self.queue().len(),
    {
        self.queue.len()
    }

    fn remove(&mut self, task: TaskRef) -> (r: bool)
        ensures
            final(self).idle() == old(self).idle(),
            r == holds(old(self).queue(), task),
            final(self).queue() == old(self).queue().filter(of_other(task)),
    {
        self.drop_task(task)
    }

    fn drain(&mut self) -> (r: Vec<TaskRef>)
        ensures
            final(self).idle() == old(self).idle(),
            final(self).queue() == Seq::<PriorityTaskRef>::empty(),
            r@ == old(self).queue().map_values(|e: PriorityTaskRef| e.task),
    {
        let r = TaskScheduler::tasks(self);
        self.queue = Vec::new();
        r
    }

    fn tasks(&self) -> (r: Vec<TaskRef>)
        ensures
            r@ == self.queue().map_values(|e: PriorityTaskRef| e.task),
    {
        let mut r: Vec<TaskRef> = Vec::new();
        let mut i: usize = 0;
        while i < self.queue.len()
            invariant
                i <= self.queue@.len(),
                r@.len() == i,
                forall|j: int| 0 <= j < i ==> (#[trigger] r@[j]) == self.queue@[j].task,
            decreases self.queue@.len() - i,
        {
            r.push(self.queue[i].task);
            i += 1;
        }
        assert(r@ =~= self.queue().map_values(|e: PriorityTaskRef| e.task));
        r
    }
}

impl PriorityScheduler for Scheduler {
    fn set_priority(&mut self, task: TaskRef, priority: u8) -> (r: bool)
        ensures
            final(self).idle() == old(self).idle(),
            r == holds(old(self).queue(), task),
            final(self).queue() == if r {
                old(self).queue().filter(of_other(task)).push(fresh_entry(task, priority))
            } else {
                old(self).queue().filter(of_other(task))
            },
    {
        if self.drop_task(task) {
            self.queue.push(PriorityTaskRef::new(task, priority));
            true
        } else {
            false
        }
    }

    fn priority(&self, task: TaskRef) -> (r: Option<u8>)
        ensures
            match r {
                Some(p) => exists|i: int| #[trigger]
                    is_position(self.queue(), task, i) && p == self.queue()[i].priority,
                None => !holds(self.queue(), task),
            },
    {
        let ghost q = self.queue@;
        let mut i: usize = 0;
        while i < self.queue.len()
            invariant
                self.queue@ == q,
                i <= q.len(),
                forall|j: int| 0 <= j < i ==> (#[trigger] q[j]).task != task,
            decreases q.len() - i,
        {
            if self.queue[i].task == task {
                assert(is_position(self.queue(), task, i as int));
                return Some(self.queue[i].priority);
            }
            i += 1;
        }
        None
    }
}

/// Tasks of equal priority take turns: the task that was just picked, at a time
/// later than all earlier runs, runs after every other one of its priority.
pub proof fn equal_priorities_take_turns(
    q: Seq<PriorityTaskRef>,
    i: int,
    j: int,
    now: u64,
)
    requires
        0 <= i < q.len(),
        0 <= j < q.len(),
        i != j,
        q[j].priority == q[i].priority,
        q[j].last_ran < now,
    ensures
        ({
            let n = q.update(i, PriorityTaskRef { last_ran: now, ..q[i] });
            runs_before(n[j], n[i])
        }),
{
}

/// Removing a task that is not queued changes nothing.
pub proof fn removing_an_absent_task_changes_nothing(q: Seq<PriorityTaskRef>, task: TaskRef)
    requires
        !holds(q, task),
    ensures
        q.filter(of_other(task)) == q,
    decreases q.len(),
{
    reveal(Seq::filter);
    if q.len() > 0 {
        assert forall|i: int| 0 <= i < q.drop_last().len() implies (#[trigger]
            q.drop_last()[i]).task != task by {
            assert(q[i].task != task);
        }
        removing_an_absent_task_changes_nothing(q.drop_last(), task);
        assert(q.last().task != task);
        assert(q.drop_last().push(q.last()) =~= q);
    }
}

/// A task that was dropped is no longer queued.
pub proof fn dropped_task_is_gone(q: Seq<PriorityTaskRef>, task: TaskRef)
    ensures
        !holds(q.filter(of_other(task)), task),
    decreases q.len(),
{
    reveal(Seq::filter);
    if q.len() > 0 {
        dropped_task_is_gone(q.drop_last(), task);
        let f = q.filter(of_other(task));
        assert forall|i: int| 0 <= i < f.len() implies (#[trigger] f[i]).task != task by {
            let rest = q.drop_last().filter(of_other(task));
            if i < rest.len() {
                assert(f[i] == rest[i]);
            }
        }
    }
}

/// The pick can run and is not the current task; no other such task has a higher priority,
/// and none of the same priority has waited longer.
pub proof fn pick_has_the_highest_priority(
    q: Seq<PriorityTaskRef>,
    tasks: Map<usize, Task>,
    current_id: usize,
    i: int,
    j: int,
)
    requires
        is_pick(q, tasks, current_id, i),
        0 <= j < q.len(),
        tasks[q[j].task.id].runstate == RunState::Runnable,
        q[j].task.id != current_id,
    ensures
        tasks[q[i].task.id].runstate == RunState::Runnable,
        q[i].task.id != current_id,
        q[j].priority <= q[i].priority,
        q[j].priority == q[i].priority ==> q[i].last_ran <= q[j].last_ran,
{
    assert(can_pick(q[j], tasks, current_id));
}

/// There is a pick whenever a task other than the current one can run.
pub proof fn runnable_task_gives_a_pick(
    q: Seq<PriorityTaskRef>,
    tasks: Map<usize, Task>,
    current_id: usize,
    j: int,
)
    requires
        0 <= j < q.len(),
        tasks[q[j].task.id].runstate == RunState::Runnable,
        q[j].task.id != current_id,
    ensures
        has_pick(q, tasks, current_id),
{
    assert(can_pick(q[j], tasks, current_id));
}

/// A task that is added has run never, at the priority it is added with.
pub proof fn new_entry_has_never_run(task: TaskRef, priority: u8)
    ensures
        fresh_entry(task, priority).task == task,
        fresh_entry(task, priority).priority == priority,
        fresh_entry(task, priority).last_ran == 0,
{
}

} // verus!
