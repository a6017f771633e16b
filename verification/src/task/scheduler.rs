//! Dispatch of scheduling requests to the backend, and the decisions of a
//! reschedule.
//!
//! Until a backend is registered, requests have no effect.

use crate::mks::eevdf;
use crate::scheduler;
use crate::task;
use crate::task_struct;
use crate::mks::runqueue::PerCpuState;
use crate::mks::{MaiScheduler, MksState};
use crate::task::{task_switch, SwitchDecision, TaskRef, TaskTable};
use crate::task_struct::{RunState, Task, TaskSchedInfo};
use vstd::prelude::*;

verus! {

/// The scheduling backend: the kernel scheduler once it is registered, and
/// whether it also takes tasks back after they have run.
pub struct SchedulerBackend {
    pub mks: Option<MaiScheduler>,
    pub takes_back: bool,
}

/// What the backend holds.
#[verifier::ext_equal]
pub struct BackendState {
    pub mks: Option<MksState>,
    pub takes_back: bool,
}

impl View for SchedulerBackend {
    type V = BackendState;

    open spec fn view(&self) -> BackendState {
        BackendState {
            mks: match self.mks {
                Some(m) => Some(m@),
                None => None,
            },
            takes_back: self.takes_back,
        }
    }
}

impl BackendState {
    /// The backend with the scheduler state `m`.
    pub open spec fn with(self, m: MksState) -> BackendState {
        BackendState { mks: Some(m), ..self }
    }

    /// All entries of all queues refer to tasks of the table.
    pub open spec fn valid(self, tasks: Map<usize, Task>) -> bool {
        self.mks matches Some(m) ==> m.valid(tasks)
    }

    /// Everything that adding a task needs.
    pub open spec fn can_add(self, s: TaskSchedInfo, now_ns: u64) -> bool {
        self.mks matches Some(m) ==> m.can_enqueue(s, now_ns)
    }

    /// The backend after task `id` with metadata `s` was added.
    pub open spec fn added(self, id: usize, s: TaskSchedInfo, now_ns: u64) -> BackendState {
        match self.mks {
            Some(m) => self.with(m.enqueue(id, s, now_ns)),
            None => self,
        }
    }

    /// Metadata of a task after it was added.
    pub open spec fn added_info(self, s: TaskSchedInfo) -> TaskSchedInfo {
        match self.mks {
            Some(m) => m.rqs[m.selected(s)].joined(s),
            None => s,
        }
    }

    /// CPU `cpu` has a run queue.
    pub open spec fn has_cpu(self, cpu: int) -> bool {
        self.mks matches Some(m) && 0 <= cpu < m.rqs.len()
    }

    /// The run queue of CPU `cpu`.
    pub open spec fn rq(self, cpu: int) -> PerCpuState {
        self.mks->Some_0.rqs[cpu]
    }

    /// The backend with the run queue of CPU `cpu` replaced.
    pub open spec fn with_rq(self, cpu: int, q: PerCpuState) -> BackendState {
        self.with(
            MksState { rqs: self.mks->Some_0.rqs.update(cpu, q), ..self.mks->Some_0 },
        )
    }

    /// The backend after task `id` with metadata `s` was removed.
    pub open spec fn removed(self, id: usize, s: TaskSchedInfo) -> BackendState {
        match self.mks {
            Some(m) => self.with(m.dequeue(id, s)),
            None => self,
        }
    }

    /// Metadata of a task after it was removed.
    pub open spec fn removed_info(self, s: TaskSchedInfo) -> TaskSchedInfo {
        match self.mks {
            Some(m) => if s.last_cpu < m.num_cpus {
                PerCpuState::left(s)
            } else {
                s
            },
            None => s,
        }
    }

    /// A task is put back on CPU `cpu`.
    pub open spec fn puts_back(self, cpu: int) -> bool {
        self.takes_back && self.has_cpu(cpu)
    }

    /// Everything that putting a task back needs.
    pub open spec fn can_put_back(self, cpu: int, id: usize, s: TaskSchedInfo, now_ns: u64) -> bool {
        self.puts_back(cpu) ==> self.rq(cpu).can_put_prev(id, s, now_ns)
    }

    /// The backend after task `id` with metadata `s` was put back on CPU `cpu`.
    pub open spec fn put_back(self, cpu: int, id: usize, s: TaskSchedInfo, now_ns: u64) -> BackendState {
        if self.puts_back(cpu) {
            self.with_rq(cpu, self.rq(cpu).put_prev(id, s, now_ns))
        } else {
            self
        }
    }

    /// Metadata of a task after it was put back on CPU `cpu`.
    pub open spec fn put_back_info(self, cpu: int, id: usize, s: TaskSchedInfo) -> TaskSchedInfo {
        if self.puts_back(cpu) {
            self.rq(cpu).put_back_info(id, s)
        } else {
            s
        }
    }

    /// The task that CPU `cpu` is to run next.
    pub open spec fn picked(self, tasks: Map<usize, Task>, cpu: int, now_ns: u64) -> Option<
        TaskRef,
    > {
        if self.has_cpu(cpu) {
            self.mks->Some_0.picked(tasks, cpu, now_ns)
        } else {
            None
        }
    }

    /// The backend after that pick.
    pub open spec fn after_pick(
        self,
        tasks: Map<usize, Task>,
        cpu: int,
        now_ns: u64,
    ) -> BackendState {
        if self.has_cpu(cpu) {
            self.with(self.mks->Some_0.after_pick(tasks, cpu, now_ns))
        } else {
            self
        }
    }

    /// The task table after that pick.
    pub open spec fn tasks_after_pick(
        self,
        tasks: Map<usize, Task>,
        cpu: int,
        now_ns: u64,
    ) -> Map<usize, Task> {
        if self.has_cpu(cpu) && self.mks->Some_0.pick_unqueues(tasks, cpu, now_ns) {
            let id = self.picked(tasks, cpu, now_ns)->Some_0.id;
            eevdf::with_sched(tasks, id, TaskSchedInfo { on_rq: false, ..tasks[id].sched })
        } else {
            tasks
        }
    }

    /// The backend after a switch at `now_ns` to a task with metadata `s` on CPU `cpu`
    /// was counted.
    pub open spec fn counted(self, cpu: int, s: TaskSchedInfo, now_ns: u64) -> BackendState {
        match self.mks {
            Some(m) => self.with(m.switched(cpu, s, now_ns)),
            None => self,
        }
    }

    /// The backend after it was recorded which task runs on CPU `cpu`. The CPU has then
    /// done what it was asked for by a request to reschedule.
    pub open spec fn running(
        self,
        tasks: Map<usize, Task>,
        cpu: int,
        current: Option<TaskRef>,
    ) -> BackendState {
        if self.has_cpu(cpu) {
            self.with_rq(
                cpu,
                PerCpuState {
                    current: in_table(tasks, current),
                    need_resched: false,
                    ..self.rq(cpu)
                },
            )
        } else {
            self
        }
    }

    /// The task table after that: the task that runs ran last on CPU `cpu`.
    pub open spec fn tasks_running(
        self,
        tasks: Map<usize, Task>,
        cpu: int,
        current: Option<TaskRef>,
    ) -> Map<usize, Task> {
        match in_table(tasks, current) {
            Some(c) if self.has_cpu(cpu) => eevdf::with_sched(
                tasks,
                c.id,
                TaskSchedInfo { last_cpu: cpu as usize, ..tasks[c.id].sched },
            ),
            _ => tasks,
        }
    }
}

impl SchedulerBackend {
    /// The registered scheduler is well formed.
    pub open spec fn wf(&self) -> bool {
        self.mks matches Some(m) ==> m.wf()
    }

    /// A backend to which no scheduler is registered.
    pub fn new() -> (b: Self)
        ensures
            b.wf(),
            b@ == (BackendState { mks: None, takes_back: false }),
    {
        SchedulerBackend { mks: None, takes_back: false }
    }

    /// Adds a task to the run queue that suits it best.
    fn dispatch_enqueue(&mut self, tasks: &mut TaskTable, task: TaskRef, now_ns: u64)
        requires
            old(self).wf(),
            old(tasks).wf(),
            old(tasks)@.contains_key(task.id),
            old(self)@.can_add(old(tasks)@[task.id].sched, now_ns),
        ensures
            final(self).wf(),
            final(tasks).wf(),
            old(self)@.valid(old(tasks)@) ==> final(self)@.valid(final(tasks)@),
            final(self)@ == old(self)@.added(task.id, old(tasks)@[task.id].sched, now_ns),
            final(tasks)@ == eevdf::with_sched(
                old(tasks)@,
                task.id,
                old(self)@.added_info(old(tasks)@[task.id].sched),
            ),
    {
        let ghost t0 = tasks@;
        assert(t0 =~= eevdf::with_sched(t0, task.id, t0[task.id].sched));
        if let Some(m) = self.mks.as_mut() {
            m.enqueue(tasks, task, now_ns);
        }
    }

    /// Adds a task to the run queue of one CPU.
    fn dispatch_enqueue_on(
        &mut self,
        tasks: &mut TaskTable,
        cpu: usize,
        task: TaskRef,
        now_ns: u64,
    )
        requires
            old(self).wf(),
            old(tasks).wf(),
            old(tasks)@.contains_key(task.id),
            old(self)@.has_cpu(cpu as int) ==> old(self)@.rq(cpu as int).can_enqueue(
                old(tasks)@[task.id].sched,
                now_ns,
            ),
        ensures
            final(self).wf(),
            final(tasks).wf(),
            old(self)@.valid(old(tasks)@) ==> final(self)@.valid(final(tasks)@),
            old(self)@.has_cpu(cpu as int) ==> final(self)@ == old(self)@.with_rq(
                cpu as int,
                old(self)@.rq(cpu as int).enqueue(task.id, old(tasks)@[task.id].sched, now_ns),
            ) && final(tasks)@ == eevdf::with_sched(
                old(tasks)@,
                task.id,
                old(self)@.rq(cpu as int).joined(old(tasks)@[task.id].sched),
            ),
            !old(self)@.has_cpu(cpu as int) ==> final(self)@ == old(self)@ && final(tasks)@
                == old(tasks)@,
    {
        let ghost b = self@;
        if let Some(m) = self.mks.as_mut() {
            let ghost m0 = m@;
            if cpu < m.rqs.len() {
                assert(m0.rqs[cpu as int] == m.rqs@[cpu as int]@);
                m.rqs[cpu].enqueue(tasks, task, now_ns);
                assert(m@.rqs =~= m0.rqs.update(
                    cpu as int,
                    m0.rqs[cpu as int].enqueue(task.id, old(tasks)@[task.id].sched, now_ns),
                ));
            }
        }
    }

    /// Removes a task from the run queue where it stands.
    fn dispatch_dequeue(&mut self, tasks: &mut TaskTable, task: TaskRef)
        requires
            old(self).wf(),
            old(tasks).wf(),
            old(tasks)@.contains_key(task.id),
            old(self)@.valid(old(tasks)@),
        ensures
            final(self).wf(),
            final(tasks).wf(),
            old(self)@.valid(old(tasks)@) ==> final(self)@.valid(final(tasks)@),
            final(self)@ == old(self)@.removed(task.id, old(tasks)@[task.id].sched),
            final(tasks)@ == eevdf::with_sched(
                old(tasks)@,
                task.id,
                old(self)@.removed_info(old(tasks)@[task.id].sched),
            ),
    {
        let ghost t0 = tasks@;
        assert(t0 =~= eevdf::with_sched(t0, task.id, t0[task.id].sched));
        if let Some(m) = self.mks.as_mut() {
            m.dequeue(tasks, task);
        }
    }

    /// Picks the next task for a CPU.
    fn dispatch_pick_next(&mut self, tasks: &mut TaskTable, cpu: usize, now_ns: u64) -> (r: Option<
        TaskRef,
    >)
        requires
            old(self).wf(),
            old(tasks).wf(),
            old(self)@.valid(old(tasks)@),
        ensures
            final(self).wf(),
            final(tasks).wf(),
            r == old(self)@.picked(old(tasks)@, cpu as int, now_ns),
            r matches Some(t) ==> old(tasks)@.contains_key(t.id),
            final(self)@ == old(self)@.after_pick(old(tasks)@, cpu as int, now_ns),
            final(self)@.valid(final(tasks)@),
            final(tasks)@ == old(self)@.tasks_after_pick(old(tasks)@, cpu as int, now_ns),
    {
        match self.mks.as_mut() {
            Some(m) => {
                if cpu < m.rqs.len() {
                    m.pick_next(tasks, cpu, now_ns)
                } else {
                    None
                }
            },
            None => None,
        }
    }

    /// Load of a CPU; unknown CPUs have none.
    fn dispatch_load(&self, cpu: usize) -> (r: usize)
        ensures
            r == if self@.has_cpu(cpu as int) {
                self@.rq(cpu as int).load
            } else {
                0
            },
    {
        match self.mks.as_ref() {
            Some(m) => {
                if cpu < m.rqs.len() {
                    m.rqs[cpu].load()
                } else {
                    0
                }
            },
            None => 0,
        }
    }

    /// Puts a task back on a CPU after it has run.
    fn dispatch_put_prev(&mut self, tasks: &mut TaskTable, cpu: usize, task: TaskRef, now_ns: u64)
        requires
            old(self).wf(),
            old(tasks).wf(),
            old(tasks)@.contains_key(task.id),
            old(self)@.can_put_back(cpu as int, task.id, old(tasks)@[task.id].sched, now_ns),
        ensures
            final(self).wf(),
            final(tasks).wf(),
            old(self)@.valid(old(tasks)@) ==> final(self)@.valid(final(tasks)@),
            final(self)@ == old(self)@.put_back(
                cpu as int,
                task.id,
                old(tasks)@[task.id].sched,
                now_ns,
            ),
            final(tasks)@ == eevdf::with_sched(
                old(tasks)@,
                task.id,
                old(self)@.put_back_info(cpu as int, task.id, old(tasks)@[task.id].sched),
            ),
    {
        let ghost t0 = tasks@;
        assert(t0 =~= eevdf::with_sched(t0, task.id, t0[task.id].sched));
        if self.takes_back {
            if let Some(m) = self.mks.as_mut() {
                let ghost m0 = m@;
                if cpu < m.rqs.len() {
                    assert(m0.rqs[cpu as int] == m.rqs@[cpu as int]@);
                    m.rqs[cpu].put_prev(tasks, task, now_ns);
                    assert(m@.rqs =~= m0.rqs.update(
                        cpu as int,
                        m0.rqs[cpu as int].put_prev(task.id, t0[task.id].sched, now_ns),
                    ));
                }
            }
        }
    }

    /// Counts a switch to `task` on a CPU.
    fn count_switch(&mut self, tasks: &TaskTable, cpu: usize, task: TaskRef, now_ns: u64)
        requires
            old(self).wf(),
            tasks.wf(),
            tasks@.contains_key(task.id),
        ensures
            final(self).wf(),
            final(self)@ == old(self)@.counted(cpu as int, tasks@[task.id].sched, now_ns),
    {
        if let Some(m) = self.mks.as_mut() {
            m.record_context_switch(cpu, tasks.read(task), now_ns);
        }
    }

    /// Records which task runs on a CPU.
    fn record_running(&mut self, tasks: &mut TaskTable, cpu: usize, current: Option<TaskRef>)
        requires
            old(self).wf(),
            old(tasks).wf(),
        ensures
            final(self).wf(),
            final(tasks).wf(),
            old(self)@.valid(old(tasks)@) ==> final(self)@.valid(final(tasks)@),
            final(self)@ == old(self)@.running(old(tasks)@, cpu as int, current),
            final(tasks)@ == old(self)@.tasks_running(old(tasks)@, cpu as int, current),
    {
        if let Some(m) = self.mks.as_mut() {
            let ghost m0 = m@;
            if cpu < m.rqs.len() {
                assert(m0.rqs[cpu as int] == m.rqs@[cpu as int]@);
                m.rqs[cpu].current = None;
                m.rqs[cpu].need_resched = false;
                if let Some(c) = current {
                    if tasks.get(c.id).is_some() {
                        m.rqs[cpu].set_current(tasks, c);
                    }
                }
                assert(m@.rqs =~= m0.rqs.update(
                    cpu as int,
                    PerCpuState {
                        current: in_table(old(tasks)@, current),
                        need_resched: false,
                        ..m0.rqs[cpu as int]
                    },
                ));
            }
        }
    }
}

/// Registers the scheduler as the backend.
pub fn register_backend(backend: &mut SchedulerBackend, mks: MaiScheduler)
    requires
        mks.wf(),
    ensures
        final(backend).wf(),
        final(backend)@ == (BackendState { mks: Some(mks@), ..old(backend)@ }),
{
    backend.mks = Some(mks);
}

/// Registers that the backend takes tasks back after they have run.
pub fn register_put_prev(backend: &mut SchedulerBackend)
    requires
        old(backend).wf(),
    ensures
        final(backend).wf(),
        final(backend)@ == (BackendState { takes_back: true, ..old(backend)@ }),
{
    backend.takes_back = true;
}

/// Adds a task to the run queue that suits it best.
pub fn add_task(
    backend: &mut SchedulerBackend,
    tasks: &mut TaskTable,
    task: TaskRef,
    now_ns: u64,
)
    requires
        old(backend).wf(),
        old(tasks).wf(),
        old(tasks)@.contains_key(task.id),
        old(backend)@.can_add(old(tasks)@[task.id].sched, now_ns),
    ensures
        final(backend).wf(),
        final(tasks).wf(),
        old(backend)@.valid(old(tasks)@) ==> final(backend)@.valid(final(tasks)@),
        final(backend)@ == old(backend)@.added(task.id, old(tasks)@[task.id].sched, now_ns),
        final(tasks)@ == eevdf::with_sched(
            old(tasks)@,
            task.id,
            old(backend)@.added_info(old(tasks)@[task.id].sched),
        ),
{
    backend.dispatch_enqueue(tasks, task, now_ns);
}

/// Adds a task to the run queue of the given CPU.
pub fn add_task_to(
    backend: &mut SchedulerBackend,
    tasks: &mut TaskTable,
    cpu_id: u32,
    task: TaskRef,
    now_ns: u64,
)
    requires
        old(backend).wf(),
        old(tasks).wf(),
        old(tasks)@.contains_key(task.id),
        old(backend)@.has_cpu(cpu_id as int) ==> old(backend)@.rq(cpu_id as int).can_enqueue(
            old(tasks)@[task.id].sched,
            now_ns,
        ),
    ensures
        final(backend).wf(),
        final(tasks).wf(),
        old(backend)@.valid(old(tasks)@) ==> final(backend)@.valid(final(tasks)@),
        old(backend)@.has_cpu(cpu_id as int) ==> final(backend)@ == old(backend)@.with_rq(
            cpu_id as int,
            old(backend)@.rq(cpu_id as int).enqueue(task.id, old(tasks)@[task.id].sched, now_ns),
        ) && final(tasks)@ == eevdf::with_sched(
            old(tasks)@,
            task.id,
            old(backend)@.rq(cpu_id as int).joined(old(tasks)@[task.id].sched),
        ),
        !old(backend)@.has_cpu(cpu_id as int) ==> final(backend)@ == old(backend)@
            && final(tasks)@ == old(tasks)@,
{
    backend.dispatch_enqueue_on(tasks, cpu_id as usize, task, now_ns);
}

/// Adds a task to the run queue of the CPU that the caller runs on.
pub fn add_task_to_current(
    backend: &mut SchedulerBackend,
    tasks: &mut TaskTable,
    current_cpu: u32,
    task: TaskRef,
    now_ns: u64,
)
    requires
        old(backend).wf(),
        old(tasks).wf(),
        old(tasks)@.contains_key(task.id),
        old(backend)@.has_cpu(current_cpu as int) ==> old(backend)@.rq(
            current_cpu as int,
        ).can_enqueue(old(tasks)@[task.id].sched, now_ns),
    ensures
        final(backend).wf(),
        final(tasks).wf(),
        old(backend)@.valid(old(tasks)@) ==> final(backend)@.valid(final(tasks)@),
        old(backend)@.has_cpu(current_cpu as int) ==> final(backend)@ == old(backend)@.with_rq(
            current_cpu as int,
            old(backend)@.rq(current_cpu as int).enqueue(
                task.id,
                old(tasks)@[task.id].sched,
                now_ns,
            ),
        ) && final(tasks)@ == eevdf::with_sched(
            old(tasks)@,
            task.id,
            old(backend)@.rq(current_cpu as int).joined(old(tasks)@[task.id].sched),
        ),
        !old(backend)@.has_cpu(current_cpu as int) ==> final(backend)@ == old(backend)@
            && final(tasks)@ == old(tasks)@,
{
    backend.dispatch_enqueue_on(tasks, current_cpu as usize, task, now_ns);
}

/// Removes a task from all run queues.
pub fn remove_task(backend: &mut SchedulerBackend, tasks: &mut TaskTable, task: TaskRef) -> (r:
    bool)
    requires
        old(backend).wf(),
        old(tasks).wf(),
        old(tasks)@.contains_key(task.id),
        old(backend)@.valid(old(tasks)@),
    ensures
        old(backend)@.valid(old(tasks)@) ==> final(backend)@.valid(final(tasks)@),
        r,
        final(backend).wf(),
        final(tasks).wf(),
        final(backend)@ == old(backend)@.removed(task.id, old(tasks)@[task.id].sched),
        final(tasks)@ == eevdf::with_sched(
            old(tasks)@,
            task.id,
            old(backend)@.removed_info(old(tasks)@[task.id].sched),
        ),
{
    backend.dispatch_dequeue(tasks, task);
    true
}

/// Removes a task from the run queue of the given CPU; the backend knows where
/// the task stands.
pub fn remove_task_from(
    backend: &mut SchedulerBackend,
    tasks: &mut TaskTable,
    task: TaskRef,
    _cpu_id: u32,
) -> (r: bool)
    requires
        old(backend).wf(),
        old(tasks).wf(),
        old(tasks)@.contains_key(task.id),
        old(backend)@.valid(old(tasks)@),
    ensures
        old(backend)@.valid(old(tasks)@) ==> final(backend)@.valid(final(tasks)@),
        r,
        final(backend).wf(),
        final(tasks).wf(),
        final(backend)@ == old(backend)@.removed(task.id, old(tasks)@[task.id].sched),
        final(tasks)@ == eevdf::with_sched(
            old(tasks)@,
            task.id,
            old(backend)@.removed_info(old(tasks)@[task.id].sched),
        ),
{
    backend.dispatch_dequeue(tasks, task);
    true
}

/// Removes a task from the run queue of the CPU that the caller runs on.
pub fn remove_task_from_current(
    backend: &mut SchedulerBackend,
    tasks: &mut TaskTable,
    task: TaskRef,
) -> (r: bool)
    requires
        old(backend).wf(),
        old(tasks).wf(),
        old(tasks)@.contains_key(task.id),
        old(backend)@.valid(old(tasks)@),
    ensures
        old(backend)@.valid(old(tasks)@) ==> final(backend)@.valid(final(tasks)@),
        r,
        final(backend).wf(),
        final(tasks).wf(),
        final(backend)@ == old(backend)@.removed(task.id, old(tasks)@[task.id].sched),
        final(tasks)@ == eevdf::with_sched(
            old(tasks)@,
            task.id,
            old(backend)@.removed_info(old(tasks)@[task.id].sched),
        ),
{
    backend.dispatch_dequeue(tasks, task);
    true
}

/// Registers the idle task of a CPU.
pub fn register_idle_task(backend: &mut SchedulerBackend, cpu_id: u32, task: TaskRef)
    requires
        old(backend).wf(),
    ensures
        final(backend).wf(),
        final(backend)@ == if old(backend)@.has_cpu(cpu_id as int) {
            old(backend)@.with_rq(
                cpu_id as int,
                PerCpuState { idle: Some(task), ..old(backend)@.rq(cpu_id as int) },
            )
        } else {
            old(backend)@
        },
{
    let cpu: usize = cpu_id as usize;
    if let Some(m) = backend.mks.as_mut() {
        let ghost m0 = m@;
        if cpu < m.rqs.len() {
            assert(m0.rqs[cpu as int] == m.rqs@[cpu as int]@);
            m.rqs[cpu].idle_rq.set_idle_task(task);
            assert(m@.rqs =~= m0.rqs.update(
                cpu as int,
                PerCpuState { idle: Some(task), ..m0.rqs[cpu as int] },
            ));
        }
    }
}

/// Sets the scheduling policy of a CPU. The registered backend handles all
/// policies, so nothing changes.
pub fn set_policy<T: Scheduler>(backend: &mut SchedulerBackend, _cpu_id: u32, _scheduler: T)
    ensures
        *final(backend) == *old(backend),
{
}

/// Priority of a task: its nice value shifted to start at 0.
pub fn priority(tasks: &TaskTable, task: TaskRef) -> (r: Option<u8>)
    requires
        tasks.wf(),
        tasks@.contains_key(task.id),
        tasks@[task.id].sched.nice <= 107,
    ensures
        r == Some((tasks@[task.id].sched.nice + 20) as u8),
        tasks@[task.id].sched.nice >= -20 ==> r->Some_0 == tasks@[task.id].sched.nice + 20,
{
    let shifted: i8 = tasks.read(task).sched.nice + 20;
    Some(#[verifier::truncate] (shifted as u8))
}

/// The nice value that stands for a priority.
pub open spec fn nice_of_priority(priority: u8) -> int {
    (priority as i8) - 20
}

/// Sets the priority of a task and recomputes its weights.
pub fn set_priority(tasks: &mut TaskTable, task: TaskRef, priority: u8) -> (r: bool)
    requires
        old(tasks).wf(),
        old(tasks)@.contains_key(task.id),
        nice_of_priority(priority) >= -128,
    ensures
        r,
        final(tasks).wf(),
        final(tasks)@ == eevdf::with_sched(
            old(tasks)@,
            task.id,
            task_struct::reweighted(old(tasks)@[task.id].sched, nice_of_priority(priority) as i8),
        ),
{
    let nice: i8 = (#[verifier::truncate] (priority as i8)) - 20;
    let t = tasks.write(task);
    t.sched.nice = nice;
    t.update_weight();
    true
}

/// Busyness of the scheduler on a CPU.
pub fn busyness(backend: &SchedulerBackend, cpu_id: u32) -> (r: Option<usize>)
    ensures
        r == Some(
            if backend@.has_cpu(cpu_id as int) {
                backend@.rq(cpu_id as int).load
            } else {
                0
            },
        ),
{
    Some(backend.dispatch_load(cpu_id as usize))
}

/// Remembers the priority that a task had before it inherited a higher one.
#[derive(Clone, Copy, Debug)]
pub struct PriorityInheritanceGuard {
    pub inner: Option<(TaskRef, u8)>,
}

/// The priority of a task as a number.
pub open spec fn priority_of(s: TaskSchedInfo) -> u8 {
    (s.nice + 20) as u8
}

/// Raises the priority of `task` to that of the current task, if that is higher.
/// The guard remembers what to go back to.
pub fn inherit_priority(tasks: &mut TaskTable, current: TaskRef, task: TaskRef) -> (g:
    PriorityInheritanceGuard)
    requires
        old(tasks).wf(),
        old(tasks)@.contains_key(current.id),
        old(tasks)@.contains_key(task.id),
        -20 <= old(tasks)@[current.id].sched.nice <= 107,
        -20 <= old(tasks)@[task.id].sched.nice <= 107,
    ensures
        final(tasks).wf(),
        ({
            let mine = old(tasks)@[current.id].sched;
            let theirs = old(tasks)@[task.id].sched;
            if mine.nice > theirs.nice {
                &&& g.inner == Some((task, priority_of(theirs)))
                &&& final(tasks)@ == eevdf::with_sched(
                    old(tasks)@,
                    task.id,
                    task_struct::reweighted(theirs, mine.nice),
                )
            } else {
                g.inner is None && final(tasks)@ == old(tasks)@
            }
        }),
{
    let current_priority = priority(tasks, current);
    let other_priority = priority(tasks, task);
    if let (Some(mine), Some(theirs)) = (current_priority, other_priority) {
        if mine > theirs {
            assert(mine <= 127);
            proof {
                lemma_small_priority(mine);
            }
            set_priority(tasks, task, mine);
            return PriorityInheritanceGuard { inner: Some((task, theirs)) };
        }
    }
    PriorityInheritanceGuard { inner: None }
}

proof fn lemma_small_priority(p: u8)
    requires
        p <= 127,
    ensures
        p as i8 == p,
{
}

impl PriorityInheritanceGuard {
    /// Goes back to the priority that the task had before.
    pub fn release(self, tasks: &mut TaskTable)
        requires
            old(tasks).wf(),
            self.inner matches Some((t, p)) ==> old(tasks)@.contains_key(t.id)
                && nice_of_priority(p) >= -128,
        ensures
            final(tasks).wf(),
            match self.inner {
                Some((t, p)) => final(tasks)@ == eevdf::with_sched(
                    old(tasks)@,
                    t.id,
                    task_struct::reweighted(old(tasks)@[t.id].sched, nice_of_priority(p) as i8),
                ),
                None => final(tasks)@ == old(tasks)@,
            },
    {
        if let Some((task, priority)) = self.inner {
            set_priority(tasks, task, priority);
        }
    }
}

/// Releasing an inherited priority restores the nice value and weights that
/// belong to the priority before.
pub proof fn release_restores_priority(s: TaskSchedInfo, inherited: i8)
    requires
        -20 <= s.nice <= 107,
    ensures
        task_struct::reweighted(task_struct::reweighted(s, inherited), nice_of_priority(priority_of(s)) as i8)
            == task_struct::reweighted(s, s.nice),
{
    lemma_small_priority(priority_of(s));
}

/// `g` lists the tasks whose last-known CPU is `cpu`, by rising identifiers.
pub open spec fn is_group(tasks: Map<usize, Task>, cpu: usize, g: Seq<TaskRef>) -> bool {
    &&& forall|i: int, j: int| 0 <= i < j < g.len() ==> (#[trigger] g[i]).id < (#[trigger] g[j]).id
    &&& forall|id: usize| #[trigger]
        g.contains(TaskRef { id }) <==> tasks.contains_key(id) && tasks[id].sched.last_cpu == cpu
}

/// `cpus` rises and holds the last-known CPUs of the tasks that `refs` lists.
pub open spec fn are_cpus_of(
    tasks: Map<usize, Task>,
    refs: Seq<TaskRef>,
    cpus: Seq<usize>,
) -> bool {
    &&& forall|i: int, j: int| 0 <= i < j < cpus.len() ==> #[trigger] cpus[i] < #[trigger] cpus[j]
    &&& forall|c: usize| #[trigger]
        cpus.contains(c) <==> exists|x: int|
            0 <= x < refs.len() && tasks[(#[trigger] refs[x]).id].sched.last_cpu == c
}

/// Adds a CPU to a rising list, where it is not in it.
fn add_cpu(cpus: &mut Vec<usize>, cpu: usize)
    requires
        forall|i: int, j: int|
            0 <= i < j < old(cpus)@.len() ==> #[trigger] old(cpus)@[i] < #[trigger] old(cpus)@[j],
    ensures
        forall|i: int, j: int|
            0 <= i < j < final(cpus)@.len() ==> #[trigger] final(cpus)@[i]
                < #[trigger] final(cpus)@[j],
        forall|c: usize| #[trigger]
            final(cpus)@.contains(c) <==> old(cpus)@.contains(c) || c == cpu,
{
    let ghost before = cpus@;
    let mut at: usize = 0;
    while at < cpus.len() && cpus[at] < cpu
        invariant
            cpus@ == before,
            at <= cpus@.len(),
            forall|i: int| 0 <= i < at ==> #[trigger] before[i] < cpu,
        decreases cpus@.len() - at,
    {
        at += 1;
    }
    if at < cpus.len() && cpus[at] == cpu {
        assert(before[at as int] == cpu);
        return;
    }
    cpus.insert(at, cpu);
    proof {
        let now = cpus@;
        assert forall|i: int| at < i < now.len() implies #[trigger] now[i] > cpu by {
            assert(now[i] == before[i - 1]);
            if at < i - 1 {
                assert(before[at as int] < before[i - 1]);
            }
        }
        assert forall|i: int, j: int| 0 <= i < j < now.len() implies #[trigger] now[i]
            < #[trigger] now[j] by {
            if i < at {
                assert(now[i] == before[i]);
            } else if i > at {
                assert(now[i] == before[i - 1]);
            }
            if j < at {
                assert(now[j] == before[j]);
            } else if j > at {
                assert(now[j] == before[j - 1]);
            }
        }
        assert forall|c: usize| #[trigger] now.contains(c) <==> before.contains(c) || c == cpu by {
            if before.contains(c) {
                let k = choose|k: int| 0 <= k < before.len() && before[k] == c;
                assert(now[if k < at {
                    k
                } else {
                    k + 1
                }] == c);
            }
            assert(now[at as int] == cpu);
            if now.contains(c) && c != cpu {
                let k = choose|k: int| 0 <= k < now.len() && now[k] == c;
                assert(before[if k < at {
                    k
                } else {
                    k - 1
                }] == c);
            }
        }
    }
}

/// `t` is among the first `n` tasks of a list, and its last-known CPU is `cpu`.
spec fn listed_on(
    tasks: Map<usize, Task>,
    refs: Seq<TaskRef>,
    n: int,
    cpu: usize,
    t: TaskRef,
) -> bool {
    exists|x: int| 0 <= x < n && #[trigger] refs[x] == t && tasks[t.id].sched.last_cpu == cpu
}

/// The tasks of a list whose last-known CPU is `cpu`.
fn tasks_on(tasks: &TaskTable, refs: &Vec<TaskRef>, cpu: usize) -> (g: Vec<TaskRef>)
    requires
        tasks.wf(),
        forall|i: int, j: int|
            0 <= i < j < refs@.len() ==> (#[trigger] refs@[i]).id < (#[trigger] refs@[j]).id,
        forall|id: usize| #[trigger] tasks@.contains_key(id) <==> refs@.contains(TaskRef { id }),
    ensures
        is_group(tasks@, cpu, g@),
{
    let mut g: Vec<TaskRef> = Vec::new();
    let mut i: usize = 0;
    while i < refs.len()
        invariant
            tasks.wf(),
            i <= refs@.len(),
            forall|a: int, b: int|
                0 <= a < b < refs@.len() ==> (#[trigger] refs@[a]).id < (#[trigger] refs@[b]).id,
            forall|id: usize| #[trigger]
                tasks@.contains_key(id) <==> refs@.contains(TaskRef { id }),
            forall|a: int, b: int|
                0 <= a < b < g@.len() ==> (#[trigger] g@[a]).id < (#[trigger] g@[b]).id,
            forall|a: int|
                0 <= a < g@.len() ==> listed_on(tasks@, refs@, i as int, cpu, #[trigger] g@[a]),
            forall|x: int|
                0 <= x < i && tasks@[(#[trigger] refs@[x]).id].sched.last_cpu == cpu
                    ==> g@.contains(refs@[x]),
        decreases refs@.len() - i,
    {
        let t = refs[i];
        assert(refs@.contains(TaskRef { id: t.id })) by {
            assert(refs@[i as int] == TaskRef { id: t.id });
        }
        if tasks.read(t).sched.last_cpu == cpu {
            let ghost before = g@;
            g.push(t);
            proof {
                assert(g@[before.len() as int] == t);
                assert forall|x: int|
                    0 <= x < i + 1 && tasks@[(#[trigger] refs@[x]).id].sched.last_cpu
                        == cpu implies g@.contains(refs@[x]) by {
                    if x < i {
                        assert(before.contains(refs@[x]));
                        let k = choose|k: int| 0 <= k < before.len() && before[k] == refs@[x];
                        assert(g@[k] == refs@[x]);
                    }
                }
                assert forall|a: int| 0 <= a < g@.len() implies listed_on(
                    tasks@,
                    refs@,
                    i + 1,
                    cpu,
                    #[trigger] g@[a],
                ) by {
                    if a < before.len() {
                        assert(listed_on(tasks@, refs@, i as int, cpu, before[a]));
                    } else {
                        assert(refs@[i as int] == g@[a]);
                    }
                }
                assert forall|a: int, b: int| 0 <= a < b < g@.len() implies (#[trigger] g@[a]).id
                    < (#[trigger] g@[b]).id by {
                    assert(g@[a] == before[a]);
                    if b < before.len() {
                        assert(g@[b] == before[b]);
                    } else {
                        assert(listed_on(tasks@, refs@, i as int, cpu, before[a]));
                        let x = choose|x: int| 0 <= x < i && #[trigger] refs@[x] == before[a];
                        assert(refs@[x].id < refs@[i as int].id);
                    }
                }
            }
        }
        i += 1;
    }
    proof {
        assert forall|id: usize| #[trigger] g@.contains(TaskRef { id }) <==> tasks@.contains_key(id)
            && tasks@[id].sched.last_cpu == cpu by {
            if g@.contains(TaskRef { id }) {
                let a = choose|a: int| 0 <= a < g@.len() && g@[a] == TaskRef { id };
                assert(listed_on(tasks@, refs@, i as int, cpu, g@[a]));
                assert(refs@.contains(TaskRef { id }));
            }
            if tasks@.contains_key(id) && tasks@[id].sched.last_cpu == cpu {
                assert(refs@.contains(TaskRef { id }));
                let x = choose|x: int| 0 <= x < refs@.len() && refs@[x] == TaskRef { id };
                assert(g@.contains(refs@[x]));
            }
        }
    }
    g
}

/// The tasks of the table, grouped by their last-known CPU. Both the CPUs and the
/// tasks of each rise.
pub fn tasks(table: &TaskTable) -> (r: Vec<(usize, Vec<TaskRef>)>)
    requires
        table.wf(),
    ensures
        forall|i: int, j: int| 0 <= i < j < r@.len() ==> (#[trigger] r@[i]).0 < (#[trigger] r@[j]).0,
        forall|i: int|
            0 <= i < r@.len() ==> is_group(table@, (#[trigger] r@[i]).0, r@[i].1@)
                && r@[i].1@.len() > 0,
        forall|id: usize| #[trigger]
            table@.contains_key(id) ==> exists|i: int|
                0 <= i < r@.len() && (#[trigger] r@[i]).0 == table@[id].sched.last_cpu,
{
    let refs = table.all_tasks();
    let mut cpus: Vec<usize> = Vec::new();
    let mut i: usize = 0;
    while i < refs.len()
        invariant
            table.wf(),
            i <= refs@.len(),
            forall|id: usize| #[trigger]
                table@.contains_key(id) <==> refs@.contains(TaskRef { id }),
            are_cpus_of(table@, refs@.take(i as int), cpus@),
        decreases refs@.len() - i,
    {
        let t = refs[i];
        assert(refs@.contains(TaskRef { id: t.id })) by {
            assert(refs@[i as int] == TaskRef { id: t.id });
        }
        let ghost before = cpus@;
        let cpu: usize = table.read(t).sched.last_cpu;
        add_cpu(&mut cpus, cpu);
        proof {
            let p = refs@.take(i as int);
            let q = refs@.take(i + 1);
            assert forall|c: usize| #[trigger] cpus@.contains(c) <==> exists|x: int|
                0 <= x < q.len() && table@[(#[trigger] q[x]).id].sched.last_cpu == c by {
                if before.contains(c) {
                    let x = choose|x: int|
                        0 <= x < p.len() && table@[(#[trigger] p[x]).id].sched.last_cpu == c;
                    assert(q[x] == p[x]);
                }
                if c == cpu {
                    assert(q[i as int] == t);
                }
                if exists|x: int|
                    0 <= x < q.len() && table@[(#[trigger] q[x]).id].sched.last_cpu == c {
                    let x = choose|x: int|
                        0 <= x < q.len() && table@[(#[trigger] q[x]).id].sched.last_cpu == c;
                    if x < i {
                        assert(p[x] == q[x]);
                    } else {
                        assert(q[x] == t);
                    }
                }
            }
        }
        i += 1;
    }
    assert(refs@.take(i as int) =~= refs@);
    let mut r: Vec<(usize, Vec<TaskRef>)> = Vec::new();
    let mut k: usize = 0;
    while k < cpus.len()
        invariant
            table.wf(),
            k <= cpus@.len(),
            r@.len() == k,
            forall|a: int, b: int|
                0 <= a < b < refs@.len() ==> (#[trigger] refs@[a]).id < (#[trigger] refs@[b]).id,
            forall|id: usize| #[trigger]
                table@.contains_key(id) <==> refs@.contains(TaskRef { id }),
            forall|a: int|
                0 <= a < k ==> (#[trigger] r@[a]).0 == cpus@[a] && is_group(
                    table@,
                    r@[a].0,
                    r@[a].1@,
                ),
        decreases cpus@.len() - k,
    {
        let g = tasks_on(table, &refs, cpus[k]);
        r.push((cpus[k], g));
        k += 1;
    }
    proof {
        assert forall|i: int| 0 <= i < r@.len() implies (#[trigger] r@[i]).1@.len() > 0 by {
            let c = cpus@[i];
            assert(cpus@.contains(c));
            let x = choose|x: int|
                0 <= x < refs@.len() && table@[(#[trigger] refs@[x]).id].sched.last_cpu == c;
            assert(refs@.contains(TaskRef { id: refs@[x].id })) by {
                assert(refs@[x] == TaskRef { id: refs@[x].id });
            }
            assert(r@[i].1@.contains(TaskRef { id: refs@[x].id }));
        }
        assert forall|id: usize| #[trigger] table@.contains_key(id) implies exists|i: int|
            0 <= i < r@.len() && (#[trigger] r@[i]).0 == table@[id].sched.last_cpu by {
            let c = table@[id].sched.last_cpu;
            assert(refs@.contains(TaskRef { id }));
            let x = choose|x: int| 0 <= x < refs@.len() && refs@[x] == TaskRef { id };
            assert(table@[refs@[x].id].sched.last_cpu == c);
            assert(cpus@.contains(c));
            let i = choose|i: int| 0 <= i < cpus@.len() && cpus@[i] == c;
            assert(r@[i].0 == c);
        }
    }
    r
}

/// A task scheduler for one CPU.
pub trait Scheduler {
    /// The scheduler can be used with the task table.
    spec fn ready(&self, tasks: Map<usize, Task>) -> bool;

    /// The next task to run; `current_id` names the one that runs now.
    fn next(&mut self, tasks: &TaskTable, current_id: usize, now: u64) -> TaskRef
        requires
            tasks.wf(),
            old(self).ready(tasks@),
    ;

    /// Adds a task to the run queue.
    fn add(&mut self, task: TaskRef);

    /// How busy the scheduler is.
    fn busyness(&self) -> usize;

    /// Removes a task from the run queue; returns whether it was there.
    fn remove(&mut self, task: TaskRef) -> bool;

    /// Empties the run queue and returns its tasks.
    fn drain(&mut self) -> Vec<TaskRef>;

    /// The tasks of the run queue.
    fn tasks(&self) -> Vec<TaskRef>;
}

/// A task scheduler with priorities.
pub trait PriorityScheduler {
    /// Sets the priority of a task; returns whether the task is known.
    fn set_priority(&mut self, task: TaskRef, priority: u8) -> bool;

    /// The priority of a task.
    fn priority(&self, task: TaskRef) -> Option<u8>;
}

/// A task, unless it has left the table.
pub open spec fn in_table(tasks: Map<usize, Task>, task: Option<TaskRef>) -> Option<TaskRef> {
    match task {
        Some(t) if tasks.contains_key(t.id) => Some(t),
        _ => None,
    }
}

/// What a reschedule of CPU `cpu` does, once the backend has picked `next`: the
/// task that runs now goes back to the backend if it can still run, or if it is
/// the one picked. A task that has left the table does not.
pub open spec fn goes_back(
    tasks: Map<usize, Task>,
    current: Option<TaskRef>,
    next: TaskRef,
) -> bool {
    in_table(tasks, current) matches Some(c) && (c.id == next.id || tasks[c.id].runstate
        == RunState::Runnable)
}

/// Everything that a reschedule needs.
pub open spec fn can_schedule(
    b: BackendState,
    tasks: Map<usize, Task>,
    current: Option<TaskRef>,
    cpu: int,
    now_ns: u64,
) -> bool {
    &&& b.valid(tasks)
    &&& b.picked(tasks, cpu, now_ns) matches Some(next) ==> {
        let b1 = b.after_pick(tasks, cpu, now_ns);
        let t1 = b.tasks_after_pick(tasks, cpu, now_ns);
        goes_back(t1, current, next) ==> {
            b1.can_put_back(cpu, current->Some_0.id, t1[current->Some_0.id].sched, now_ns)
        }
    }
}

/// The backend after a reschedule has picked a task and put the one that ran back.
pub open spec fn backend_after_put_back(
    b: BackendState,
    tasks: Map<usize, Task>,
    current: Option<TaskRef>,
    cpu: int,
    now_ns: u64,
) -> BackendState {
    let b1 = b.after_pick(tasks, cpu, now_ns);
    let t1 = b.tasks_after_pick(tasks, cpu, now_ns);
    match b.picked(tasks, cpu, now_ns) {
        Some(next) if goes_back(t1, current, next) => b1.put_back(
            cpu,
            current->Some_0.id,
            t1[current->Some_0.id].sched,
            now_ns,
        ),
        _ => b1,
    }
}

/// The task table after a reschedule has picked a task and put the one that ran back.
pub open spec fn tasks_after_put_back(
    b: BackendState,
    tasks: Map<usize, Task>,
    current: Option<TaskRef>,
    cpu: int,
    now_ns: u64,
) -> Map<usize, Task> {
    let b1 = b.after_pick(tasks, cpu, now_ns);
    let t1 = b.tasks_after_pick(tasks, cpu, now_ns);
    match b.picked(tasks, cpu, now_ns) {
        Some(next) if goes_back(t1, current, next) => eevdf::with_sched(
            t1,
            current->Some_0.id,
            b1.put_back_info(cpu, current->Some_0.id, t1[current->Some_0.id].sched),
        ),
        _ => t1,
    }
}

/// What a reschedule comes to: the decision, the task table after the switch, and the
/// task that then runs. Without another task to run, the current task continues.
pub open spec fn schedule_effect(
    b: BackendState,
    tasks: Map<usize, Task>,
    current: Option<TaskRef>,
    cpu_id: u32,
    now_ns: u64,
) -> (SwitchDecision, Map<usize, Task>, Option<TaskRef>) {
    let t2 = tasks_after_put_back(b, tasks, current, cpu_id as int, now_ns);
    match b.picked(tasks, cpu_id as int, now_ns) {
        Some(next) if current != Some(next) => task::switch_effect(t2, current, next, cpu_id),
        _ => (SwitchDecision::Stay, t2, current),
    }
}

/// The backend after a reschedule: a switch is counted, and the task that then runs is
/// recorded.
pub open spec fn backend_after_schedule(
    b: BackendState,
    tasks: Map<usize, Task>,
    current: Option<TaskRef>,
    cpu_id: u32,
    now_ns: u64,
) -> BackendState {
    let e = schedule_effect(b, tasks, current, cpu_id, now_ns);
    let b2 = backend_after_put_back(b, tasks, current, cpu_id as int, now_ns);
    let b3 = match e.0 {
        SwitchDecision::Switch { from, to, new_sp, change_address_space } => b2.counted(
            cpu_id as int,
            e.1[to.id].sched,
            now_ns,
        ),
        _ => b2,
    };
    b3.running(e.1, cpu_id as int, e.2)
}

/// Picks a new task for CPU `cpu_id`, puts the one that ran back, and decides what switch
/// to make.
fn pick_and_switch(
    backend: &mut SchedulerBackend,
    tasks: &mut TaskTable,
    current: &mut Option<TaskRef>,
    cpu_id: u32,
    now_ns: u64,
) -> (r: SwitchDecision)
    requires
        old(backend).wf(),
        old(tasks).wf(),
        can_schedule(old(backend)@, old(tasks)@, *old(current), cpu_id as int, now_ns),
    ensures
        final(backend).wf(),
        final(tasks).wf(),
        final(backend)@.valid(final(tasks)@),
        (r, final(tasks)@, *final(current)) == schedule_effect(
            old(backend)@,
            old(tasks)@,
            *old(current),
            cpu_id,
            now_ns,
        ),
        final(backend)@ == backend_after_put_back(
            old(backend)@,
            old(tasks)@,
            *old(current),
            cpu_id as int,
            now_ns,
        ),
        r matches SwitchDecision::Switch { from, to, new_sp, change_address_space }
            ==> final(tasks)@.contains_key(to.id),
        final(backend)@.has_cpu(cpu_id as int) == old(backend)@.has_cpu(cpu_id as int),
        r is Switch || r is First ==> {
            let picked = old(backend)@.picked(old(tasks)@, cpu_id as int, now_ns);
            *final(current) == picked && in_table(final(tasks)@, *final(current)) == picked
        },
{
    let cpu: usize = cpu_id as usize;
    let next_task = match backend.dispatch_pick_next(tasks, cpu, now_ns) {
        Some(t) => t,
        None => {
            return SwitchDecision::Stay;
        },
    };
    assert(tasks@.contains_key(next_task.id));
    if let Some(curr) = *current {
        if tasks.get(curr.id).is_some() {
            if curr.id == next_task.id || tasks.read(curr).runstate == RunState::Runnable {
                backend.dispatch_put_prev(tasks, cpu, curr, now_ns);
            }
        }
    }
    if *current == Some(next_task) {
        return SwitchDecision::Stay;
    }
    let ghost t2 = tasks@;
    let decision = task_switch(tasks, current, next_task, cpu_id);
    proof {
        if backend@.mks is Some {
            lemma_valid_in_larger_table(backend@.mks->Some_0, t2, tasks@);
        }
    }
    decision
}

/// Entries that refer to tasks of a table refer to tasks of every table that has these.
proof fn lemma_valid_in_larger_table(m: MksState, a: Map<usize, Task>, b: Map<usize, Task>)
    requires
        m.valid(a),
        forall|id: usize| #[trigger] a.contains_key(id) ==> b.contains_key(id),
    ensures
        m.valid(b),
{
    assert forall|i: int| 0 <= i < m.rqs.len() implies (#[trigger] m.rqs[i]).valid(b) by {
        assert(m.rqs[i].valid(a));
    }
}

/// Picks a new task for CPU `cpu_id`, decides what switch to make, and records which
/// task then runs there. Nothing happens if preemption was already disabled; without
/// another task to run, the current task continues.
pub fn schedule(
    backend: &mut SchedulerBackend,
    tasks: &mut TaskTable,
    current: &mut Option<TaskRef>,
    cpu_id: u32,
    preemption_was_enabled: bool,
    now_ns: u64,
) -> (r: SwitchDecision)
    requires
        old(backend).wf(),
        old(tasks).wf(),
        preemption_was_enabled ==> can_schedule(
            old(backend)@,
            old(tasks)@,
            *old(current),
            cpu_id as int,
            now_ns,
        ),
    ensures
        final(backend).wf(),
        final(tasks).wf(),
        old(backend)@.valid(old(tasks)@) ==> final(backend)@.valid(final(tasks)@),
        !preemption_was_enabled ==> r == SwitchDecision::Stay && final(backend)@ == old(backend)@
            && final(tasks)@ == old(tasks)@ && *final(current) == *old(current),
        preemption_was_enabled ==> {
            let e = schedule_effect(old(backend)@, old(tasks)@, *old(current), cpu_id, now_ns);
            &&& r == e.0
            &&& *final(current) == e.2
            &&& final(tasks)@ == old(backend)@.tasks_running(e.1, cpu_id as int, e.2)
            &&& final(backend)@ == backend_after_schedule(
                old(backend)@,
                old(tasks)@,
                *old(current),
                cpu_id,
                now_ns,
            )
        },
        preemption_was_enabled && old(backend)@.has_cpu(cpu_id as int) ==> {
            &&& final(backend)@.has_cpu(cpu_id as int)
            &&& final(backend)@.rq(cpu_id as int).current == in_table(
                final(tasks)@,
                *final(current),
            )
            &&& r is Switch || r is First ==> final(backend)@.rq(cpu_id as int).current
                == old(backend)@.picked(old(tasks)@, cpu_id as int, now_ns)
            &&& !final(backend)@.rq(cpu_id as int).need_resched
            &&& in_table(final(tasks)@, *final(current)) matches Some(c)
                ==> final(tasks)@[c.id].sched.last_cpu == cpu_id
        },
{
    if !preemption_was_enabled {
        return SwitchDecision::Stay;
    }
    let cpu: usize = cpu_id as usize;
    let decision = pick_and_switch(backend, tasks, current, cpu_id, now_ns);
    if let SwitchDecision::Switch { from: _, to, new_sp: _, change_address_space: _ } = decision {
        backend.count_switch(tasks, cpu, to, now_ns);
    }
    let ghost t3 = tasks@;
    backend.record_running(tasks, cpu, *current);
    assert(in_table(tasks@, *current) == in_table(t3, *current));
    decision
}

/// A timer tick after a reschedule charges exactly the task that the reschedule let run:
/// its time goes to the CPU's statistics and to the budget or the virtual time of the
/// task, and no other task is changed.
pub proof fn tick_charges_the_scheduled_task(
    b: BackendState,
    tasks: Map<usize, Task>,
    current: Option<TaskRef>,
    cpu_id: u32,
    now_ns: u64,
    elapsed_ns: u64,
)
    requires
        b.has_cpu(cpu_id as int),
        ({
            let e = schedule_effect(b, tasks, current, cpu_id, now_ns);
            in_table(e.1, e.2) is Some
        }),
    ensures
        ({
            let e = schedule_effect(b, tasks, current, cpu_id, now_ns);
            let c = e.2->Some_0;
            let b1 = backend_after_schedule(b, tasks, current, cpu_id, now_ns);
            let t1 = b.tasks_running(e.1, cpu_id as int, e.2);
            let b2 = scheduler::ticked_backend(b1, t1, cpu_id as int, elapsed_ns);
            let t2 = scheduler::ticked_tasks(b1, t1, cpu_id as int, elapsed_ns);
            &&& b2.rq(cpu_id as int) == b1.rq(cpu_id as int).tick(
                c.id,
                t1[c.id].sched,
                elapsed_ns,
            )
            &&& t2[c.id].sched == PerCpuState::ticked_info(t1[c.id].sched, elapsed_ns)
            &&& forall|o: usize| o != c.id ==> #[trigger] t2[o] == t1[o]
        }),
{
}

/// Priorities from 0 to 39 are nice values from -20 to 19, in the same order.
pub proof fn priorities_are_shifted_nice_values(s: TaskSchedInfo, priority: u8)
    ensures
        priority <= 127 ==> nice_of_priority(priority) + 20 == priority,
        -20 <= s.nice <= 107 ==> priority_of(s) == s.nice + 20,
        -20 <= s.nice <= 107 ==> nice_of_priority(priority_of(s)) == s.nice,
{
    if priority <= 127 {
        lemma_small_priority(priority);
    }
    if -20 <= s.nice <= 107 {
        lemma_small_priority(priority_of(s));
    }
}

/// A task goes back to its queue when another is picked if it can still run, or if it was
/// picked itself; one that has ended or waits does not.
pub proof fn task_goes_back_if_it_can_run(
    tasks: Map<usize, Task>,
    current: Option<TaskRef>,
    next: TaskRef,
)
    ensures
        current is None ==> !goes_back(tasks, current, next),
        current matches Some(c) && !tasks.contains_key(c.id) ==> !goes_back(tasks, current, next),
        current matches Some(c) && tasks.contains_key(c.id) && c.id != next.id ==> (goes_back(
            tasks,
            current,
            next,
        ) <==> tasks[current->Some_0.id].runstate is Runnable),
        current matches Some(c) && tasks.contains_key(c.id) && c.id == next.id ==> goes_back(
            tasks,
            current,
            next,
        ),
        in_table(tasks, current) is Some ==> in_table(tasks, current) == current,
{
}

/// Before the scheduler is there, or on a CPU that it does not know, nothing is queued, taken
/// out or picked.
pub proof fn unknown_cpus_have_no_tasks(
    b: BackendState,
    tasks: Map<usize, Task>,
    cpu: int,
    id: usize,
    s: TaskSchedInfo,
    now_ns: u64,
)
    ensures
        b.has_cpu(cpu) <==> b.mks is Some && 0 <= cpu < b.mks->Some_0.rqs.len(),
        !b.has_cpu(cpu) ==> {
            &&& b.picked(tasks, cpu, now_ns) is None
            &&& b.after_pick(tasks, cpu, now_ns) == b
            &&& b.tasks_after_pick(tasks, cpu, now_ns) == tasks
            &&& b.put_back(cpu, id, s, now_ns) == b
            &&& b.put_back_info(cpu, id, s) == s
            &&& b.running(tasks, cpu, Some(TaskRef { id })) == b
        },
        b.mks is None ==> {
            &&& b.added(id, s, now_ns) == b
            &&& b.added_info(s) == s
            &&& b.removed(id, s) == b
            &&& b.removed_info(s) == s
        },
{
}

/// The task that runs on a CPU is known to its queue, remembers the CPU, and the wish to
/// reschedule is met. Nothing of other tasks or CPUs changes.
pub proof fn running_task_is_recorded(
    b: BackendState,
    tasks: Map<usize, Task>,
    cpu: int,
    current: TaskRef,
    other: int,
    id: usize,
)
    requires
        b.has_cpu(cpu),
        cpu <= usize::MAX,
        tasks.contains_key(current.id),
    ensures
        ({
            let r = b.running(tasks, cpu, Some(current));
            let t = b.tasks_running(tasks, cpu, Some(current));
            &&& r.rq(cpu).current == Some(current)
            &&& !r.rq(cpu).need_resched
            &&& other != cpu && b.has_cpu(other) ==> r.rq(other) == b.rq(other)
            &&& t[current.id].sched.last_cpu == cpu
            &&& t[current.id].runstate == tasks[current.id].runstate
            &&& id != current.id ==> t[id] == tasks[id]
            &&& t.dom() == tasks.dom()
        }),
        b.running(tasks, cpu, None).rq(cpu).current is None,
        b.tasks_running(tasks, cpu, None) == tasks,
{
    assert(b.tasks_running(tasks, cpu, Some(current)).dom() =~= tasks.dom());
}

/// A CPU switches exactly if a task other than the running one was picked; without a pick the
/// same task keeps running.
pub proof fn cpu_stays_without_a_new_pick(
    b: BackendState,
    tasks: Map<usize, Task>,
    current: Option<TaskRef>,
    cpu_id: u32,
    now_ns: u64,
)
    ensures
        b.picked(tasks, cpu_id as int, now_ns) is None || b.picked(tasks, cpu_id as int, now_ns)
            == current ==> schedule_effect(b, tasks, current, cpu_id, now_ns).0
            == SwitchDecision::Stay && schedule_effect(b, tasks, current, cpu_id, now_ns).2
            == current,
        b.picked(tasks, cpu_id as int, now_ns) matches Some(next) && current != Some(next)
            ==> schedule_effect(b, tasks, current, cpu_id, now_ns) == task::switch_effect(
            tasks_after_put_back(b, tasks, current, cpu_id as int, now_ns),
            current,
            b.picked(tasks, cpu_id as int, now_ns)->Some_0,
            cpu_id,
        ),
        b.picked(tasks, cpu_id as int, now_ns) is None ==> backend_after_put_back(
            b,
            tasks,
            current,
            cpu_id as int,
            now_ns,
        ) == b.after_pick(tasks, cpu_id as int, now_ns),
{
}

/// A switch is counted by the scheduler and on the CPU, if both are there.
pub proof fn switch_is_counted_on_its_cpu(b: BackendState, cpu: int, s: TaskSchedInfo, now_ns: u64)
    requires
        b.has_cpu(cpu),
        b.rq(cpu).stats.context_switches < u64::MAX,
        b.mks->Some_0.context_switches < u64::MAX,
    ensures
        ({
            let c = b.counted(cpu, s, now_ns);
            &&& c.has_cpu(cpu)
            &&& c.rq(cpu).stats.context_switches == b.rq(cpu).stats.context_switches + 1
            &&& c.mks->Some_0.context_switches == b.mks->Some_0.context_switches + 1
            &&& c.rq(cpu).fair == b.rq(cpu).fair && c.rq(cpu).rt == b.rq(cpu).rt
                && c.rq(cpu).deadline == b.rq(cpu).deadline
            &&& c.takes_back == b.takes_back
        }),
{
}

/// A task is put back exactly on a CPU that the scheduler knows, and only if it takes tasks
/// back.
pub proof fn tasks_are_put_back_where_they_ran(
    b: BackendState,
    cpu: int,
    id: usize,
    s: TaskSchedInfo,
    now_ns: u64,
    other: int,
)
    ensures
        !b.takes_back ==> b.put_back(cpu, id, s, now_ns) == b,
        b.takes_back && b.has_cpu(cpu) ==> b.put_back(cpu, id, s, now_ns).rq(cpu) == b.rq(
            cpu,
        ).put_prev(id, s, now_ns),
        b.takes_back && b.has_cpu(cpu) ==> b.put_back_info(cpu, id, s).last_cpu == b.rq(cpu).cpu_id,
        b.has_cpu(other) && other != cpu ==> b.put_back(cpu, id, s, now_ns).rq(other) == b.rq(other),
{
}

/// When another task is picked, the one that ran is put back on its CPU exactly if it can
/// still run. Its own entry in the table follows, and no other.
pub proof fn preempted_task_waits_for_its_next_turn(
    b: BackendState,
    tasks: Map<usize, Task>,
    current: TaskRef,
    next: TaskRef,
    cpu: int,
    now_ns: u64,
    other: usize,
)
    requires
        b.picked(tasks, cpu, now_ns) == Some(next),
        current.id != next.id,
        b.tasks_after_pick(tasks, cpu, now_ns).contains_key(current.id),
    ensures
        ({
            let t1 = b.tasks_after_pick(tasks, cpu, now_ns);
            let b1 = b.after_pick(tasks, cpu, now_ns);
            let b2 = backend_after_put_back(b, tasks, Some(current), cpu, now_ns);
            let t2 = tasks_after_put_back(b, tasks, Some(current), cpu, now_ns);
            &&& !(t1[current.id].runstate is Runnable) ==> b2 == b1 && t2 == t1
            &&& t1[current.id].runstate is Runnable && b1.takes_back && b1.has_cpu(cpu) ==> b2.rq(
                cpu,
            ) == b1.rq(cpu).put_prev(current.id, t1[current.id].sched, now_ns)
                && t2[current.id].sched == b1.rq(cpu).put_back_info(
                current.id,
                t1[current.id].sched,
            )
            &&& other != current.id ==> t2[other] == t1[other]
            &&& t2[current.id].runstate == t1[current.id].runstate
        }),
{
}

} // verus!
