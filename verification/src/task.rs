//! Task references, the table of all tasks, and the lifecycle of a task.

pub mod joinable;
pub mod scheduler;

use crate::decimal;
use crate::task_struct;
use crate::ordered_map;
use crate::ordered_map::OrderedMap;
use crate::task::scheduler::SchedulerBackend;
use crate::decimal::numbered;
use crate::task_struct::{ExitValue, InheritedStates, KernelStack, KillReason, RunState, Task};
use vstd::prelude::*;

verus! {

/// A reference to a task of the task table.
#[derive(Clone, Copy, Debug, PartialEq, Eq, Hash, Structural)]
pub struct TaskRef {
    pub id: usize,
}

/// All tasks of the system, by identifier.
pub struct TaskTable {
    tasks: OrderedMap<Task>,
}

impl View for TaskTable {
    type V = Map<usize, Task>;

    closed spec fn view(&self) -> Map<usize, Task> {
        by_id(self.tasks@)
    }
}

spec fn by_id(m: Map<(u64, u64), Task>) -> Map<usize, Task> {
    Map::new(|id: usize| m.contains_key((id as u64, 0)), |id: usize| m[(id as u64, 0)])
}

impl TaskTable {
    /// Every task stands under its own identifier.
    pub closed spec fn wf(&self) -> bool {
        &&& self.tasks.wf()
        &&& forall|k: (u64, u64)| #[trigger]
            self.tasks@.contains_key(k) ==> k.1 == 0 && k.0 <= usize::MAX && self.tasks@[k].id
                == k.0
    }

    /// A table without tasks.
    pub fn new() -> (t: Self)
        ensures
            t.wf(),
            t@ == Map::<usize, Task>::empty(),
    {
        let t = TaskTable { tasks: OrderedMap::new() };
        assert(t@ =~= Map::<usize, Task>::empty());
        t
    }

    /// Adds a task under its identifier, in place of an earlier one.
    pub fn insert(&mut self, task: Task) -> (r: TaskRef)
        requires
            old(self).wf(),
        ensures
            final(self).wf(),
            final(self)@ == old(self)@.insert(task.id, task),
            r.id == task.id,
    {
        let id: usize = task.id;
        let ghost m = self.tasks@;
        self.tasks.insert((id as u64, 0), task);
        assert(self@ =~= old(self)@.insert(id, task));
        TaskRef { id }
    }

    /// Looks a task up.
    pub fn get(&self, id: usize) -> (r: Option<&Task>)
        requires
            self.wf(),
        ensures
            match r {
                Some(t) => self@.contains_key(id) && *t == self@[id] && t.id == id,
                None => !self@.contains_key(id),
            },
    {
        self.tasks.get((id as u64, 0))
    }

    /// Read access to a task of the table.
    pub fn read(&self, task: TaskRef) -> (r: &Task)
        requires
            self.wf(),
            self@.contains_key(task.id),
        ensures
            *r == self@[task.id],
            r.id == task.id,
    {
        self.tasks.get((task.id as u64, 0)).unwrap()
    }

    /// Write access to a task of the table. The table stays in order as long as
    /// the task keeps its identifier.
    pub fn write(&mut self, task: TaskRef) -> (r: &mut Task)
        requires
            old(self).wf(),
            old(self)@.contains_key(task.id),
        ensures
            *r == old(self)@[task.id],
            r.id == task.id,
            final(self)@ == old(self)@.insert(task.id, *final(r)),
            final(r).id == task.id ==> final(self).wf(),
    {
        let ghost m = self.tasks@;
        proof {
            assert forall|t: Task| by_id(#[trigger] m.insert((task.id as u64, 0), t)) == by_id(
                m,
            ).insert(task.id, t) by {
                assert(by_id(m.insert((task.id as u64, 0), t)) =~= by_id(m).insert(task.id, t));
            }
        }
        self.tasks.get_mut((task.id as u64, 0)).unwrap()
    }

    /// Takes a task out of the table.
    pub fn remove(&mut self, id: usize) -> (r: Option<Task>)
        requires
            old(self).wf(),
        ensures
            final(self).wf(),
            final(self)@ == old(self)@.remove(id),
            r == if old(self)@.contains_key(id) { Some(old(self)@[id]) } else { None },
    {
        let r = self.tasks.remove((id as u64, 0));
        assert(self@ =~= old(self)@.remove(id));
        r
    }

    /// References to all tasks, by ascending identifier.
    pub fn all_tasks(&self) -> (r: Vec<TaskRef>)
        requires
            self.wf(),
        ensures
            forall|i: int, j: int| 0 <= i < j < r@.len() ==> (#[trigger] r@[i]).id < (#[trigger] r@[j]).id,
            forall|id: usize| #[trigger] self@.contains_key(id) <==> r@.contains(TaskRef { id }),
    {
        let keys = self.tasks.keys();
        let mut r: Vec<TaskRef> = Vec::new();
        let mut i: usize = 0;
        while i < keys.len()
            invariant
                self.wf(),
                i <= keys@.len(),
                r@.len() == i,
                forall|k: (u64, u64)| #[trigger] keys@.contains(k) <==> self.tasks@.contains_key(k),
                forall|x: int| 0 <= x < i ==> (#[trigger] r@[x]).id == keys@[x].0,
            decreases keys@.len() - i,
        {
            proof {
                assert(keys@.contains(keys@[i as int]));
            }
            r.push(TaskRef { id: keys[i].0 as usize });
            i += 1;
        }
        proof {
            assert forall|a: int, b: int| 0 <= a < b < r@.len() implies (#[trigger] r@[a]).id
                < (#[trigger] r@[b]).id by {
                assert(keys@.contains(keys@[a]) && keys@.contains(keys@[b]));
                assert(ordered_map::keys_ascending(keys@));
            }
            assert forall|id: usize| #[trigger] self@.contains_key(id) <==> r@.contains(
                TaskRef { id },
            ) by {
                if self@.contains_key(id) {
                    assert(keys@.contains((id as u64, 0)));
                    let x = choose|x: int| 0 <= x < keys@.len() && keys@[x] == (id as u64, 0u64);
                    assert(r@[x] == TaskRef { id });
                }
                if r@.contains(TaskRef { id }) {
                    let x = choose|x: int| 0 <= x < r@.len() && r@[x] == TaskRef { id };
                    assert(keys@.contains(keys@[x]));
                }
            }
        }
        r
    }
}

/// What a context switch request comes to.
#[derive(Clone, Copy, Debug, PartialEq, Eq, Structural)]
pub enum SwitchDecision {
    /// The current task continues.
    Stay,
    /// There was no current task: the new one is recorded, nothing is saved.
    First,
    /// The registers of `from` are saved and those of `to` restored from
    /// `new_sp`; the address space changes first if `to` has its own.
    Switch { from: TaskRef, to: TaskRef, new_sp: usize, change_address_space: bool },
}

impl SwitchDecision {
    /// Whether another task was switched to.
    pub open spec fn did_switch(self) -> bool {
        self != SwitchDecision::Stay
    }

    /// Whether another task was switched to.
    pub fn switched(self) -> (r: bool)
        ensures
            r == self.did_switch(),
    {
        match self {
            SwitchDecision::Stay => false,
            _ => true,
        }
    }
}

/// The table after a task, unless it has left the table, runs on no CPU any more.
pub open spec fn left_cpu(tasks: Map<usize, Task>, task: TaskRef) -> Map<usize, Task> {
    if tasks.contains_key(task.id) {
        tasks.insert(task.id, Task { running_on_cpu: None, ..tasks[task.id] })
    } else {
        tasks
    }
}

/// The decision, the task table and the current task after a switch to `next` on
/// CPU `cpu_id` was asked for. A task that was never set up, that has exited or
/// that already runs is not switched to.
pub open spec fn switch_effect(
    tasks: Map<usize, Task>,
    current: Option<TaskRef>,
    next: TaskRef,
    cpu_id: u32,
) -> (SwitchDecision, Map<usize, Task>, Option<TaskRef>) {
    match current {
        None => (SwitchDecision::First, tasks, Some(next)),
        Some(curr) => if tasks[next.id].saved_sp == 0 || tasks[next.id].runstate is Exited
            || curr.id == next.id {
            (SwitchDecision::Stay, tasks, current)
        } else {
            (
                SwitchDecision::Switch {
                    from: curr,
                    to: next,
                    new_sp: tasks[next.id].saved_sp,
                    change_address_space: tasks[next.id].own_address_space,
                },
                left_cpu(tasks, curr).insert(
                    next.id,
                    Task { running_on_cpu: Some(cpu_id), ..tasks[next.id] },
                ),
                Some(next),
            )
        },
    }
}

/// Decides the switch from the current task to `next` and records it.
pub fn task_switch(
    tasks: &mut TaskTable,
    current: &mut Option<TaskRef>,
    next: TaskRef,
    cpu_id: u32,
) -> (r: SwitchDecision)
    requires
        old(tasks).wf(),
        old(tasks)@.contains_key(next.id),
    ensures
        final(tasks).wf(),
        ({
            let e = switch_effect(old(tasks)@, *old(current), next, cpu_id);
            r == e.0 && final(tasks)@ == e.1 && *final(current) == e.2
        }),
{
    let curr = match *current {
        Some(t) => t,
        None => {
            *current = Some(next);
            return SwitchDecision::First;
        },
    };
    let ghost t0 = tasks@;
    let next_task = tasks.read(next);
    let new_sp: usize = next_task.saved_sp;
    let change_address_space = next_task.own_address_space;
    if new_sp == 0 {
        return SwitchDecision::Stay;
    }
    match next_task.runstate {
        RunState::Exited(_) => {
            return SwitchDecision::Stay;
        },
        _ => {},
    }
    if curr.id == next.id {
        return SwitchDecision::Stay;
    }
    if tasks.get(curr.id).is_some() {
        let c = tasks.write(curr);
        c.running_on_cpu = None;
    }
    let n = tasks.write(next);
    n.running_on_cpu = Some(cpu_id);
    *current = Some(next);
    assert(tasks@ =~= switch_effect(t0, Some(curr), next, cpu_id).1);
    SwitchDecision::Switch { from: curr, to: next, new_sp, change_address_space }
}

/// Looks a task up by its identifier.
pub fn get_task(tasks: &TaskTable, id: usize) -> (r: Option<TaskRef>)
    requires
        tasks.wf(),
    ensures
        r == if tasks@.contains_key(id) { Some(TaskRef { id }) } else { None },
{
    match tasks.get(id) {
        Some(_) => Some(TaskRef { id }),
        None => None,
    }
}

/// All tasks with their identifiers, by ascending identifier.
pub fn all_tasks(tasks: &TaskTable) -> (r: Vec<(usize, TaskRef)>)
    requires
        tasks.wf(),
    ensures
        forall|i: int, j: int| 0 <= i < j < r@.len() ==> (#[trigger] r@[i]).0 < (#[trigger] r@[j]).0,
        forall|i: int| 0 <= i < r@.len() ==> (#[trigger] r@[i]).1.id == r@[i].0,
        forall|id: usize| #[trigger] tasks@.contains_key(id) <==> r@.contains((id, TaskRef { id })),
{
    let refs = tasks.all_tasks();
    let mut r: Vec<(usize, TaskRef)> = Vec::new();
    let mut i: usize = 0;
    while i < refs.len()
        invariant
            i <= refs@.len(),
            r@.len() == i,
            forall|x: int| 0 <= x < i ==> (#[trigger] r@[x]) == (refs@[x].id, refs@[x]),
        decreases refs@.len() - i,
    {
        r.push((refs[i].id, refs[i]));
        i += 1;
    }
    proof {
        assert forall|id: usize| #[trigger] tasks@.contains_key(id) <==> r@.contains(
            (id, TaskRef { id }),
        ) by {
            if tasks@.contains_key(id) {
                let x = choose|x: int| 0 <= x < refs@.len() && refs@[x] == TaskRef { id };
                assert(refs@.contains(TaskRef { id }));
                assert(r@[x] == (id, TaskRef { id }));
            }
            if r@.contains((id, TaskRef { id })) {
                let x = choose|x: int| 0 <= x < r@.len() && r@[x] == (id, TaskRef { id });
                assert(refs@[x] == TaskRef { id });
                assert(refs@.contains(TaskRef { id }));
            }
        }
    }
    r
}

/// Identifier of the current task; 0, that of the bootstrap task, without one.
pub fn get_my_current_task_id(current: Option<TaskRef>) -> (r: usize)
    ensures
        r == match current {
            Some(t) => t.id,
            None => 0,
        },
{
    match current {
        Some(t) => t.id,
        None => 0,
    }
}

/// Records that the current task has a kill handler.
pub fn set_kill_handler(tasks: &mut TaskTable, current: Option<TaskRef>) -> (r: Result<
    (),
    &'static str,
>)
    requires
        old(tasks).wf(),
        current matches Some(c) ==> old(tasks)@.contains_key(c.id),
    ensures
        final(tasks).wf(),
        match current {
            Some(c) => r is Ok && final(tasks)@ == old(tasks)@.insert(
                c.id,
                Task { has_kill_handler: true, ..old(tasks)@[c.id] },
            ),
            None => (r matches Err(e) && e@ == "could not get current task"@) && final(tasks)@
                == old(tasks)@,
        },
{
    match current {
        Some(c) => {
            let t = tasks.write(c);
            t.has_kill_handler = true;
            Ok(())
        },
        None => Err("could not get current task"),
    }
}

/// Takes the kill handler of the current task; returns whether there was one.
pub fn take_kill_handler(tasks: &mut TaskTable, current: Option<TaskRef>) -> (r: bool)
    requires
        old(tasks).wf(),
        current matches Some(c) ==> old(tasks)@.contains_key(c.id),
    ensures
        final(tasks).wf(),
        match current {
            Some(c) => r == old(tasks)@[c.id].has_kill_handler && final(tasks)@ == old(
                tasks,
            )@.insert(c.id, Task { has_kill_handler: false, ..old(tasks)@[c.id] }),
            None => !r && final(tasks)@ == old(tasks)@,
        },
{
    match current {
        Some(c) => {
            let t = tasks.write(c);
            let had = t.has_kill_handler;
            t.has_kill_handler = false;
            had
        },
        None => false,
    }
}

/// Source of task identifiers; 0 is reserved for bootstrap tasks.
#[derive(Clone, Copy, Debug, PartialEq, Eq, Structural)]
pub struct TaskIdSource {
    pub next: usize,
}

impl TaskIdSource {
    /// The source as it is at boot.
    pub fn new() -> (s: Self)
        ensures
            s.next == 1,
    {
        TaskIdSource { next: 1 }
    }
}

/// Hands out the next task identifier. The counter wraps around.
pub fn get_next_task_id(ids: &mut TaskIdSource) -> (r: usize)
    ensures
        r == old(ids).next,
        final(ids).next == if old(ids).next == usize::MAX { 0 } else { (old(ids).next + 1) as usize },
{
    let id: usize = ids.next;
    ids.next = ids.next.wrapping_add(1);
    id
}

/// The bootstrap task of CPU `cpu_id`, up to its name.
pub open spec fn is_bootstrap_task(
    t: Task,
    cpu_id: u32,
    kstack: KernelStack,
    states: InheritedStates,
) -> bool {
    &&& t.id == 0
    &&& t.name@ == "bootstrap_cpu_"@ + decimal::decimal(cpu_id as nat)
    &&& t.runstate == RunState::Runnable
    &&& t.running_on_cpu == Some(cpu_id)
    &&& t.kstack == kstack
    &&& t.states == states
    &&& t.saved_sp == 0
    &&& !t.has_kill_handler
    &&& t.pinned_core is None
    &&& t.exec_mode == 0
    &&& !t.own_address_space
    &&& !t.is_an_idle_task
    &&& !t.restartable
    &&& t.sched == task_struct::default_sched_info()
}

/// Turns what a CPU executes at boot into a task, with the identifier 0.
pub fn init_bootstrap_task(
    tasks: &mut TaskTable,
    current: &mut Option<TaskRef>,
    cpu_id: u32,
    kstack: KernelStack,
    states: InheritedStates,
) -> (r: TaskRef)
    requires
        old(tasks).wf(),
    ensures
        final(tasks).wf(),
        r.id == 0,
        *final(current) == Some(r),
        final(tasks)@.contains_key(0),
        is_bootstrap_task(final(tasks)@[0], cpu_id, kstack, states),
        final(tasks)@ == old(tasks)@.insert(0, final(tasks)@[0]),
{
    let mut t = Task::new(0, numbered("bootstrap_cpu_", cpu_id as u64), kstack, states);
    t.running_on_cpu = Some(cpu_id);
    let r = tasks.insert(t);
    *current = Some(r);
    r
}

/// Turns what a CPU executes at boot into a task and returns its two handles.
pub fn bootstrap_task(
    tasks: &mut TaskTable,
    current: &mut Option<TaskRef>,
    cpu_id: u32,
    kstack: KernelStack,
    states: InheritedStates,
) -> (r: (joinable::JoinableTaskRef, joinable::ExitableTaskRef))
    requires
        old(tasks).wf(),
    ensures
        final(tasks).wf(),
        r.0.task.id == 0,
        r.1.task.id == 0,
        *final(current) == Some(r.0.task),
        final(tasks)@.contains_key(0),
        is_bootstrap_task(final(tasks)@[0], cpu_id, kstack, states),
        final(tasks)@ == old(tasks)@.insert(0, final(tasks)@[0]),
{
    let t = init_bootstrap_task(tasks, current, cpu_id, kstack, states);
    joinable::bootstrap_task_to_joinable(t)
}

/// Makes a task of the table the one that runs on CPU `cpu_id`.
pub fn init_current_task(
    tasks: &mut TaskTable,
    current: &mut Option<TaskRef>,
    task_id: usize,
    cpu_id: u32,
) -> (r: Result<joinable::ExitableTaskRef, &'static str>)
    requires
        old(tasks).wf(),
    ensures
        final(tasks).wf(),
        old(tasks)@.contains_key(task_id) ==> {
            &&& r matches Ok(e)
            &&& e.task.id == task_id
            &&& *final(current) == Some(TaskRef { id: task_id })
            &&& final(tasks)@ == old(tasks)@.insert(
                task_id,
                Task { running_on_cpu: Some(cpu_id), ..old(tasks)@[task_id] },
            )
        },
        !old(tasks)@.contains_key(task_id) ==> {
            &&& r matches Err(e)
            &&& e@ == "init_current_task: task ID not found in TASK_LIST"@
            &&& *final(current) == *old(current)
            &&& final(tasks)@ == old(tasks)@
        },
{
    match get_task(tasks, task_id) {
        Some(task_ref) => {
            *current = Some(task_ref);
            let t = tasks.write(task_ref);
            t.running_on_cpu = Some(cpu_id);
            Ok(joinable::ExitableTaskRef { task: task_ref })
        },
        None => Err("init_current_task: task ID not found in TASK_LIST"),
    }
}

impl TaskRef {
    /// Makes a blocked task runnable and hands it to the scheduler. A task that
    /// is runnable already stays so; any other state is returned as the error.
    pub fn unblock(
        self,
        tasks: &mut TaskTable,
        backend: &mut SchedulerBackend,
        now_ns: u64,
    ) -> (r: Result<(), RunState>)
        requires
            old(tasks).wf(),
            old(backend).wf(),
            old(tasks)@.contains_key(self.id),
            old(tasks)@[self.id].runstate == RunState::Blocked ==> old(backend)@.can_add(
                old(tasks)@[self.id].sched,
                now_ns,
            ),
        ensures
            final(tasks).wf(),
            final(backend).wf(),
            match old(tasks)@[self.id].runstate {
                RunState::Blocked => {
                    &&& r is Ok
                    &&& final(backend)@ == old(backend)@.added(
                        self.id,
                        old(tasks)@[self.id].sched,
                        now_ns,
                    )
                    &&& final(tasks)@ == old(tasks)@.insert(
                        self.id,
                        Task {
                            runstate: RunState::Runnable,
                            sched: old(backend)@.added_info(old(tasks)@[self.id].sched),
                            ..old(tasks)@[self.id]
                        },
                    )
                },
                RunState::Runnable => r is Ok && final(backend)@ == old(backend)@ && final(tasks)@
                    == old(tasks)@,
                other => r == Err::<(), RunState>(other) && final(backend)@ == old(backend)@
                    && final(tasks)@ == old(tasks)@,
            },
    {
        let ghost t0 = tasks@;
        match tasks.read(self).runstate {
            RunState::Blocked => {
                let t = tasks.write(self);
                t.runstate = RunState::Runnable;
                scheduler::add_task(backend, tasks, self, now_ns);
                assert(tasks@ =~= t0.insert(self.id, tasks@[self.id]));
                Ok(())
            },
            RunState::Runnable => Ok(()),
            other => Err(other),
        }
    }

    /// Blocks a runnable task and takes it off the run queues. A task that is
    /// blocked already is taken off again; any other state is returned as the
    /// error.
    pub fn block(self, tasks: &mut TaskTable, backend: &mut SchedulerBackend) -> (r: Result<
        (),
        RunState,
    >)
        requires
            old(tasks).wf(),
            old(backend).wf(),
            old(tasks)@.contains_key(self.id),
            old(backend)@.valid(old(tasks)@),
        ensures
            final(tasks).wf(),
            final(backend).wf(),
            ({
                let t = old(tasks)@[self.id];
                if t.runstate == RunState::Runnable || t.runstate == RunState::Blocked {
                    &&& r is Ok
                    &&& final(backend)@ == old(backend)@.removed(self.id, t.sched)
                    &&& final(tasks)@ == old(tasks)@.insert(
                        self.id,
                        Task {
                            runstate: RunState::Blocked,
                            sched: old(backend)@.removed_info(t.sched),
                            ..t
                        },
                    )
                } else {
                    r == Err::<(), RunState>(t.runstate) && final(backend)@ == old(backend)@
                        && final(tasks)@ == old(tasks)@
                }
            }),
    {
        let ghost t0 = tasks@;
        match tasks.read(self).runstate {
            RunState::Runnable => {
                let t = tasks.write(self);
                t.runstate = RunState::Blocked;
                scheduler::remove_task(backend, tasks, self);
                assert(tasks@ =~= t0.insert(self.id, tasks@[self.id]));
                Ok(())
            },
            RunState::Blocked => {
                scheduler::remove_task(backend, tasks, self);
                assert(tasks@ =~= t0.insert(self.id, tasks@[self.id]));
                Ok(())
            },
            other => Err(other),
        }
    }

    /// Whether the task runs on some CPU.
    pub fn is_running(self, tasks: &TaskTable) -> (r: bool)
        requires
            tasks.wf(),
            tasks@.contains_key(self.id),
        ensures
            r == tasks@[self.id].running_on_cpu is Some,
    {
        tasks.read(self).running_on_cpu.is_some()
    }

    /// Whether the task can run.
    pub fn is_runnable(self, tasks: &TaskTable) -> (r: bool)
        requires
            tasks.wf(),
            tasks@.contains_key(self.id),
        ensures
            r == (tasks@[self.id].runstate == RunState::Runnable),
    {
        tasks.read(self).runstate == RunState::Runnable
    }

    /// Kills a runnable or blocked task and takes it off the run queues. Killing
    /// a task that was killed before succeeds and changes nothing; any other
    /// state is returned as the error.
    pub fn kill(self, tasks: &mut TaskTable, backend: &mut SchedulerBackend, reason: KillReason) -> (r:
        Result<(), RunState>)
        requires
            old(tasks).wf(),
            old(backend).wf(),
            old(tasks)@.contains_key(self.id),
            old(backend)@.valid(old(tasks)@),
        ensures
            final(tasks).wf(),
            final(backend).wf(),
            ({
                let t = old(tasks)@[self.id];
                if t.runstate == RunState::Runnable || t.runstate == RunState::Blocked {
                    &&& r is Ok
                    &&& final(backend)@ == old(backend)@.removed(self.id, t.sched)
                    &&& final(tasks)@ == old(tasks)@.insert(
                        self.id,
                        Task {
                            runstate: RunState::Exited(ExitValue::Killed(reason)),
                            sched: old(backend)@.removed_info(t.sched),
                            ..t
                        },
                    )
                } else {
                    &&& r == if was_killed(t.runstate) {
                        Ok::<(), RunState>(())
                    } else {
                        Err(t.runstate)
                    }
                    &&& final(backend)@ == old(backend)@
                    &&& final(tasks)@ == old(tasks)@
                }
            }),
    {
        let ghost t0 = tasks@;
        match tasks.read(self).runstate {
            RunState::Runnable | RunState::Blocked => {
                let t = tasks.write(self);
                t.runstate = RunState::Exited(ExitValue::Killed(reason));
                scheduler::remove_task(backend, tasks, self);
                assert(tasks@ =~= t0.insert(self.id, tasks@[self.id]));
                Ok(())
            },
            RunState::Exited(ExitValue::Killed(_)) => Ok(()),
            state => Err(state),
        }
    }
}

/// The task has been killed.
pub open spec fn was_killed(s: RunState) -> bool {
    s matches RunState::Exited(e) && e is Killed
}

/// A task that can run is switched to: it becomes the current one, runs on this CPU from its
/// saved stack, and the one before runs nowhere. A task that was never set up, has exited or
/// runs already is not, and then nothing changes. No other task is touched.
pub proof fn switch_goes_to_a_task_that_can_run(
    tasks: Map<usize, Task>,
    curr: TaskRef,
    next: TaskRef,
    cpu_id: u32,
    other: usize,
)
    requires
        tasks.contains_key(curr.id),
        tasks.contains_key(next.id),
        tasks.contains_key(other),
    ensures
        ({
            let e = switch_effect(tasks, Some(curr), next, cpu_id);
            let n = tasks[next.id];
            if n.saved_sp != 0 && !(n.runstate is Exited) && curr.id != next.id {
                &&& e.0 matches SwitchDecision::Switch { from, to, new_sp, change_address_space }
                &&& from == curr && to == next && new_sp == n.saved_sp && change_address_space
                    == n.own_address_space
                &&& e.2 == Some(next)
                &&& e.1[next.id].running_on_cpu == Some(cpu_id)
                &&& e.1[curr.id].running_on_cpu is None
                &&& e.1[next.id].sched == n.sched && e.1[next.id].runstate == n.runstate
                &&& other != curr.id && other != next.id ==> e.1[other] == tasks[other]
            } else {
                e == (SwitchDecision::Stay, tasks, Some(curr))
            }
        }),
        switch_effect(tasks, None, next, cpu_id).2 == Some(next),
        switch_effect(tasks, None, next, cpu_id).0.did_switch(),
        !SwitchDecision::Stay.did_switch(),
{
}

/// A task that leaves its CPU keeps everything else, and no other task is touched.
pub proof fn leaving_a_cpu_changes_one_task(tasks: Map<usize, Task>, task: TaskRef, other: usize)
    ensures
        ({
            let a = left_cpu(tasks, task);
            &&& a.dom() == tasks.dom()
            &&& other != task.id ==> a[other] == tasks[other]
            &&& tasks.contains_key(task.id) ==> a[task.id].running_on_cpu is None && a[task.id] == (
            Task { running_on_cpu: None, ..tasks[task.id] })
        }),
{
    assert(left_cpu(tasks, task).dom() =~= tasks.dom());
}

/// Killed is what has ended with the reason for which it was killed.
pub proof fn only_ended_tasks_were_killed(s: RunState)
    ensures
        was_killed(s) <==> exists|r: KillReason| s == RunState::Exited(ExitValue::Killed(r)),
{
    if was_killed(s) {
        let r = s->Exited_0->Killed_0;
        assert(s == RunState::Exited(ExitValue::Killed(r)));
    }
}

} // verus!
