//! Tasks that can be waited for, and tasks that can exit.

use crate::task::scheduler::{remove_task, SchedulerBackend};
use crate::task::{TaskRef, TaskTable};
use crate::task_struct::{ExitValue, KernelStack, KillReason, RunState, Task};
use vstd::prelude::*;

verus! {

/// A task that can be waited for.
#[derive(Clone, Copy, Debug, PartialEq, Eq, Structural)]
pub struct JoinableTaskRef {
    pub task: TaskRef,
}

impl JoinableTaskRef {
    /// One look at the task that is waited for: its exit value once it has
    /// exited, and nothing as long as the caller has to go on waiting.
    pub fn join(&self, tasks: &TaskTable) -> (r: Option<ExitValue>)
        requires
            tasks.wf(),
            tasks@.contains_key(self.task.id),
        ensures
            r == match tasks@[self.task.id].runstate {
                RunState::Exited(v) => Some(v),
                _ => None,
            },
    {
        match tasks.read(self.task).runstate {
            RunState::Exited(exit_val) => Some(exit_val),
            _ => None,
        }
    }

    /// Whether the task has exited.
    pub fn has_exited(&self, tasks: &TaskTable) -> (r: bool)
        requires
            tasks.wf(),
            tasks@.contains_key(self.task.id),
        ensures
            r == tasks@[self.task.id].runstate is Exited,
    {
        match tasks.read(self.task).runstate {
            RunState::Exited(_) => true,
            _ => false,
        }
    }
}

/// A task that can exit.
#[derive(Clone, Copy, Debug, PartialEq, Eq, Structural)]
pub struct ExitableTaskRef {
    pub task: TaskRef,
}

/// A task in this state can exit.
pub open spec fn can_exit(s: RunState) -> bool {
    s == RunState::Runnable || s == RunState::Blocked
}

/// Ends a task with the given value, if it is runnable or blocked.
fn set_exit(tasks: &mut TaskTable, task: TaskRef, value: ExitValue) -> (r: Result<(), RunState>)
    requires
        old(tasks).wf(),
        old(tasks)@.contains_key(task.id),
    ensures
        final(tasks).wf(),
        can_exit(old(tasks)@[task.id].runstate) ==> r is Ok && final(tasks)@ == old(tasks)@.insert(
            task.id,
            Task { runstate: RunState::Exited(value), ..old(tasks)@[task.id] },
        ),
        !can_exit(old(tasks)@[task.id].runstate) ==> r == Err::<(), RunState>(
            old(tasks)@[task.id].runstate,
        ) && final(tasks)@ == old(tasks)@,
{
    match tasks.read(task).runstate {
        RunState::Runnable | RunState::Blocked => {
            let t = tasks.write(task);
            t.runstate = RunState::Exited(value);
            Ok(())
        },
        other => Err(other),
    }
}

impl ExitableTaskRef {
    /// The handle with which an unwinder ends the current task.
    pub fn obtain_for_unwinder(current_task: TaskRef) -> (r: ExitableTaskRef)
        ensures
            r.task == current_task,
    {
        ExitableTaskRef { task: current_task }
    }

    /// Marks the task as completed. A task that is neither runnable nor blocked
    /// stays as it is, and its state is the error.
    pub fn mark_as_exited(&self, tasks: &mut TaskTable) -> (r: Result<(), RunState>)
        requires
            old(tasks).wf(),
            old(tasks)@.contains_key(self.task.id),
        ensures
            final(tasks).wf(),
            can_exit(old(tasks)@[self.task.id].runstate) ==> r is Ok && final(tasks)@ == old(
                tasks,
            )@.insert(
                self.task.id,
                Task {
                    runstate: RunState::Exited(ExitValue::Completed(0)),
                    ..old(tasks)@[self.task.id]
                },
            ),
            !can_exit(old(tasks)@[self.task.id].runstate) ==> r == Err::<(), RunState>(
                old(tasks)@[self.task.id].runstate,
            ) && final(tasks)@ == old(tasks)@,
    {
        set_exit(tasks, self.task, ExitValue::Completed(0))
    }

    /// Marks the task as killed. A task that is neither runnable nor blocked
    /// stays as it is, and its state is the error.
    pub fn mark_as_killed(&self, tasks: &mut TaskTable, kill_reason: KillReason) -> (r: Result<
        (),
        RunState,
    >)
        requires
            old(tasks).wf(),
            old(tasks)@.contains_key(self.task.id),
        ensures
            final(tasks).wf(),
            can_exit(old(tasks)@[self.task.id].runstate) ==> r is Ok && final(tasks)@ == old(
                tasks,
            )@.insert(
                self.task.id,
                Task {
                    runstate: RunState::Exited(ExitValue::Killed(kill_reason)),
                    ..old(tasks)@[self.task.id]
                },
            ),
            !can_exit(old(tasks)@[self.task.id].runstate) ==> r == Err::<(), RunState>(
                old(tasks)@[self.task.id].runstate,
            ) && final(tasks)@ == old(tasks)@,
    {
        set_exit(tasks, self.task, ExitValue::Killed(kill_reason))
    }

    /// The kernel stack of the task.
    pub fn with_kstack(&self, tasks: &TaskTable) -> (r: KernelStack)
        requires
            tasks.wf(),
            tasks@.contains_key(self.task.id),
        ensures
            r == tasks@[self.task.id].kstack,
    {
        tasks.read(self.task).kstack
    }

    /// Whether the task has restart information.
    pub fn with_restart_info(&self, tasks: &TaskTable) -> (r: bool)
        requires
            tasks.wf(),
            tasks@.contains_key(self.task.id),
        ensures
            r == tasks@[self.task.id].restartable,
    {
        tasks.read(self.task).restartable
    }

    /// The CPU the task is pinned to.
    pub fn pinned_cpu(&self, tasks: &TaskTable) -> (r: Option<u32>)
        requires
            tasks.wf(),
            tasks@.contains_key(self.task.id),
        ensures
            r == tasks@[self.task.id].pinned_core,
    {
        tasks.read(self.task).pinned_core
    }

    /// Takes the task out of the table if nobody else holds a reference: the
    /// table, this handle and the current task account for three.
    pub fn reap_if_orphaned(&self, tasks: &mut TaskTable, references: usize)
        requires
            old(tasks).wf(),
        ensures
            final(tasks).wf(),
            final(tasks)@ == if references <= 3 {
                old(tasks)@.remove(self.task.id)
            } else {
                old(tasks)@
            },
    {
        if references <= 3 {
            tasks.remove(self.task.id);
        }
    }
}

/// Ends a task whose unwinding is done: it is marked as killed, if that is still
/// possible, and leaves the run queues.
pub fn task_cleanup_failure(
    backend: &mut SchedulerBackend,
    tasks: &mut TaskTable,
    task: ExitableTaskRef,
    cause: KillReason,
)
    requires
        old(backend).wf(),
        old(tasks).wf(),
        old(tasks)@.contains_key(task.task.id),
        old(backend)@.valid(old(tasks)@),
    ensures
        final(backend).wf(),
        final(tasks).wf(),
        ({
            let t = old(tasks)@[task.task.id];
            &&& final(backend)@ == old(backend)@.removed(task.task.id, t.sched)
            &&& final(tasks)@ == old(tasks)@.insert(
                task.task.id,
                Task {
                    runstate: if can_exit(t.runstate) {
                        RunState::Exited(ExitValue::Killed(cause))
                    } else {
                        t.runstate
                    },
                    sched: old(backend)@.removed_info(t.sched),
                    ..t
                },
            )
        }),
{
    let ghost t0 = tasks@;
    let _ = task.mark_as_killed(tasks, cause);
    proof {
        assert(tasks@[task.task.id].sched == t0[task.task.id].sched);
        assert(tasks@.dom() =~= t0.dom());
    }
    remove_task(backend, tasks, task.task);
    assert(tasks@ =~= t0.insert(task.task.id, tasks@[task.task.id]));
}

/// The two handles of a bootstrap task.
pub fn bootstrap_task_to_joinable(bootstrap_task: TaskRef) -> (r: (
    JoinableTaskRef,
    ExitableTaskRef,
))
    ensures
        r.0.task == bootstrap_task,
        r.1.task == bootstrap_task,
{
    (JoinableTaskRef { task: bootstrap_task }, ExitableTaskRef { task: bootstrap_task })
}

/// A task ends once, and only after it was made ready: then it can run or is blocked.
pub proof fn tasks_end_once(s: RunState, v: ExitValue)
    ensures
        !can_exit(RunState::Exited(v)),
        !can_exit(RunState::Initing),
        can_exit(RunState::Runnable) && can_exit(RunState::Blocked),
{
}

} // verus!
