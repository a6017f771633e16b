//! Creation of tasks, and what becomes of them when they end.

use crate::decimal;
use crate::mks::eevdf;
use crate::task::joinable;
use crate::task;
use crate::task_struct;
use crate::decimal::numbered;
use crate::text::text_equal;
use crate::task::joinable::{ExitableTaskRef, JoinableTaskRef};
use crate::task::scheduler::{
    add_task, add_task_to, register_idle_task, remove_task, remove_task_from_current, BackendState,
    SchedulerBackend,
};
use crate::task::{bootstrap_task, get_next_task_id, TaskIdSource, TaskRef, TaskTable};
use crate::task_struct::{
    ExitValue, InheritedStates, KernelStack, KillReason, RunState, SchedClass, Task,
    TaskSchedInfo,
};
use vstd::prelude::*;

verus! {

/// Pages of a kernel stack that is allocated for a new task.
pub const KERNEL_STACK_PAGES: usize = 16;

/// Bytes that the return address takes on a new stack.
pub const RETURN_ADDRESS_SIZE: usize = 8;

/// A kernel stack for a new task, or why there is none.
#[derive(Clone, Copy, Debug, PartialEq, Eq, Structural)]
pub enum StackAllocation {
    Allocated(KernelStack),
    /// The kernel's memory management is not set up.
    NoKernelMmi,
    /// There is no memory for a stack.
    OutOfMemory,
}

/// Builder of a new task with an argument of type `A`.
#[must_use]
pub struct TaskBuilder<A> {
    pub argument: A,
    pub name: Option<String>,
    pub stack: Option<KernelStack>,
    pub parent: Option<TaskRef>,
    pub pin_on_cpu: Option<u32>,
    pub blocked: bool,
    pub idle: bool,
    pub env: Option<usize>,
    pub restartable: bool,
    /// Namespace and application crate of an application task.
    pub app: Option<(usize, usize)>,
}

/// A builder for a task with the given argument.
pub fn new_task_builder<A>(argument: A) -> (b: TaskBuilder<A>)
    ensures
        b == fresh_builder(argument),
{
    TaskBuilder::new(argument)
}

/// The builder of a task of which only the argument is known.
pub open spec fn fresh_builder<A>(argument: A) -> TaskBuilder<A> {
    TaskBuilder {
        argument,
        name: None,
        stack: None,
        parent: None,
        pin_on_cpu: None,
        blocked: false,
        idle: false,
        env: None,
        restartable: false,
        app: None,
    }
}

/// Name of the section in which an application starts.
pub const ENTRY_POINT_SECTION_NAME: &'static str = "main";

/// A section of an application crate.
#[derive(Debug)]
pub struct CrateSection {
    /// It holds code.
    pub is_text: bool,
    /// Its name without the hash at the end.
    pub name: String,
}

/// An application crate that was loaded.
#[derive(Debug)]
pub struct LoadedCrate {
    pub id: usize,
    pub crate_name: String,
    /// The name as it stands before the names of sections.
    pub prefix: String,
    pub sections: Vec<CrateSection>,
}

/// What came of loading an application crate.
#[derive(Debug)]
pub enum CrateLoad {
    /// There is no object file at the path.
    NoFile,
    /// Loading failed.
    Failed(&'static str),
    /// The crate was loaded.
    Loaded(LoadedCrate),
}

/// The namespace in which an application is loaded: the given one, else that of the
/// current task.
pub fn application_namespace(
    tasks: &TaskTable,
    current: Option<TaskRef>,
    new_namespace: Option<usize>,
) -> (r: Result<usize, &'static str>)
    requires
        tasks.wf(),
        current matches Some(c) ==> tasks@.contains_key(c.id),
    ensures
        match (new_namespace, current) {
            (Some(n), _) => r == Ok::<usize, &'static str>(n),
            (None, Some(c)) => r == Ok::<usize, &'static str>(tasks@[c.id].states.namespace),
            (None, None) => r matches Err(e) && e@
                == "spawn::new_application_task_builder(): couldn't get current task"@,
        },
{
    match new_namespace {
        Some(n) => Ok(n),
        None => match current {
            Some(c) => Ok(tasks.read(c).states.namespace),
            None => Err("spawn::new_application_task_builder(): couldn't get current task"),
        },
    }
}

/// Section `i` is the one in which the application starts.
pub open spec fn is_main_section(
    sections: Seq<CrateSection>,
    prefix: Seq<char>,
    delimiter: Seq<char>,
    i: int,
) -> bool {
    &&& 0 <= i < sections.len()
    &&& sections[i].is_text
    &&& sections[i].name@ == prefix + ENTRY_POINT_SECTION_NAME@ + delimiter
}

/// Whether there is a section in which the application starts.
fn has_main_section(loaded: &LoadedCrate, delimiter: &str) -> (r: bool)
    ensures
        r == exists|i: int|
            is_main_section(loaded.sections@, loaded.prefix@, delimiter@, i),
{
    let mut expected: String = loaded.prefix.clone();
    expected.append(ENTRY_POINT_SECTION_NAME);
    expected.append(delimiter);
    assert(expected@ =~= loaded.prefix@ + ENTRY_POINT_SECTION_NAME@ + delimiter@);
    let mut i: usize = 0;
    while i < loaded.sections.len()
        invariant
            i <= loaded.sections@.len(),
            expected@ == loaded.prefix@ + ENTRY_POINT_SECTION_NAME@ + delimiter@,
            forall|k: int|
                0 <= k < i ==> !is_main_section(loaded.sections@, loaded.prefix@, delimiter@, k),
        decreases loaded.sections@.len() - i,
    {
        let section = &loaded.sections[i];
        if section.is_text && text_equal(section.name.as_str(), expected.as_str()) {
            assert(is_main_section(loaded.sections@, loaded.prefix@, delimiter@, i as int));
            return true;
        }
        i += 1;
    }
    false
}

/// A builder for the task of an application, which gets the name of its crate and runs
/// in a namespace. `delimiter` stands between the name of a section and its hash.
pub fn new_application_task_builder(
    namespace: usize,
    load: CrateLoad,
    delimiter: &str,
) -> (r: Result<TaskBuilder<Vec<String>>, &'static str>)
    ensures
        match load {
            CrateLoad::NoFile => r matches Err(e) && e@
                == "Couldn't find specified file path for new application crate"@,
            CrateLoad::Failed(m) => r matches Err(e) && e@ == m@,
            CrateLoad::Loaded(c) => if exists|i: int|
                is_main_section(c.sections@, c.prefix@, delimiter@, i) {
                r matches Ok(b) && b.argument@.len() == 0 && b == (TaskBuilder {
                    name: Some(c.crate_name),
                    app: Some((namespace, c.id)),
                    ..fresh_builder(b.argument)
                })
            } else {
                r matches Err(e) && e@
                    == "spawn::new_application_task_builder(): couldn't find \"main\" function"@
            },
        },
{
    match load {
        CrateLoad::NoFile => Err("Couldn't find specified file path for new application crate"),
        CrateLoad::Failed(m) => Err(m),
        CrateLoad::Loaded(c) => {
            if !has_main_section(&c, delimiter) {
                return Err(
                    "spawn::new_application_task_builder(): couldn't find \"main\" function",
                );
            }
            let mut b = TaskBuilder::new(Vec::new());
            b.name = Some(c.crate_name);
            b.app = Some((namespace, c.id));
            Ok(b)
        },
    }
}

/// What the new task takes over from `parent`.
pub open spec fn inherited<A>(b: TaskBuilder<A>, parent: Task) -> InheritedStates {
    InheritedStates {
        mmi: parent.states.mmi,
        namespace: match b.app {
            Some((namespace, _)) => namespace,
            None => parent.states.namespace,
        },
        env: match b.env {
            Some(e) => e,
            None => parent.states.env,
        },
        app_crate: match b.app {
            Some((_, app)) => Some(app),
            None => parent.states.app_crate,
        },
    }
}

/// Address of the initial register context on a new stack.
pub open spec fn context_address(stack: KernelStack, context_size: usize) -> int {
    stack.top - context_size - RETURN_ADDRESS_SIZE
}

/// The stack has room for the initial context, and its top is aligned.
pub open spec fn stack_fits(stack: KernelStack, context_size: usize) -> bool {
    &&& context_address(stack, context_size) >= 0
    &&& (stack.top - RETURN_ADDRESS_SIZE) % 16 == 0
}

/// The new task, before it is enqueued.
pub open spec fn spawned<A>(
    b: TaskBuilder<A>,
    parent: Task,
    id: usize,
    stack: KernelStack,
    default_name: String,
    context_size: usize,
) -> Task {
    Task {
        id,
        name: match b.name {
            Some(n) => n,
            None => default_name,
        },
        runstate: if b.blocked {
            RunState::Blocked
        } else {
            RunState::Runnable
        },
        running_on_cpu: None,
        kstack: stack,
        states: inherited(b, parent),
        saved_sp: context_address(stack, context_size) as usize,
        has_kill_handler: false,
        pinned_core: b.pin_on_cpu,
        exec_mode: 0,
        own_address_space: false,
        is_an_idle_task: b.idle,
        restartable: b.restartable,
        sched: if b.idle {
            TaskSchedInfo { policy: SchedClass::Idle, ..task_struct::default_sched_info() }
        } else {
            task_struct::default_sched_info()
        },
    }
}

/// The task that the new one descends from: the one that was set, else the
/// current one.
pub open spec fn parent_of<A>(b: TaskBuilder<A>, current: Option<TaskRef>) -> Option<TaskRef> {
    match b.parent {
        Some(p) => Some(p),
        None => current,
    }
}

/// The stack of the new task: the one that was set, else the allocated one.
pub open spec fn stack_of<A>(b: TaskBuilder<A>, allocated: StackAllocation) -> Option<KernelStack> {
    match b.stack {
        Some(s) => Some(s),
        None => match allocated {
            StackAllocation::Allocated(s) => Some(s),
            _ => None,
        },
    }
}

/// Everything that handing the new task to the scheduler needs.
pub open spec fn can_place<A>(
    b: TaskBuilder<A>,
    backend: BackendState,
    s: TaskSchedInfo,
    now_ns: u64,
) -> bool {
    !b.idle ==> match b.pin_on_cpu {
        Some(cpu) => backend.has_cpu(cpu as int) ==> backend.rq(cpu as int).can_enqueue(s, now_ns),
        None => backend.can_add(s, now_ns),
    }
}

/// The backend after the new task `id` was handed to it: a pinned task goes to
/// its CPU, an idle task to none.
pub open spec fn backend_with<A>(
    b: TaskBuilder<A>,
    backend: BackendState,
    id: usize,
    s: TaskSchedInfo,
    now_ns: u64,
) -> BackendState {
    if b.idle {
        backend
    } else {
        match b.pin_on_cpu {
            Some(cpu) => if backend.has_cpu(cpu as int) {
                backend.with_rq(cpu as int, backend.rq(cpu as int).enqueue(id, s, now_ns))
            } else {
                backend
            },
            None => backend.added(id, s, now_ns),
        }
    }
}

/// Metadata of the new task after it was handed to the backend.
pub open spec fn placed_info<A>(b: TaskBuilder<A>, backend: BackendState, s: TaskSchedInfo) -> TaskSchedInfo {
    if b.idle {
        s
    } else {
        match b.pin_on_cpu {
            Some(cpu) => if backend.has_cpu(cpu as int) {
                backend.rq(cpu as int).joined(s)
            } else {
                s
            },
            None => backend.added_info(s),
        }
    }
}

impl<A> TaskBuilder<A> {
    fn new(argument: A) -> (b: TaskBuilder<A>)
        ensures
            b == fresh_builder(argument),
    {
        TaskBuilder {
            argument,
            name: None,
            stack: None,
            parent: None,
            pin_on_cpu: None,
            blocked: false,
            idle: false,
            env: None,
            restartable: false,
            app: None,
        }
    }

    /// Sets the name of the task.
    pub fn name(self, name: String) -> (b: TaskBuilder<A>)
        ensures
            b == (TaskBuilder { name: Some(name), ..self }),
    {
        TaskBuilder { name: Some(name), ..self }
    }

    /// Sets the argument of the task.
    pub fn argument(self, argument: A) -> (b: TaskBuilder<A>)
        ensures
            b == (TaskBuilder { argument, ..self }),
    {
        TaskBuilder { argument, ..self }
    }

    /// Sets the stack of the task.
    pub fn stack(self, stack: KernelStack) -> (b: TaskBuilder<A>)
        ensures
            b == (TaskBuilder { stack: Some(stack), ..self }),
    {
        TaskBuilder { stack: Some(stack), ..self }
    }

    /// Sets the task that the new one inherits from.
    pub fn parent(self, parent_task: TaskRef) -> (b: TaskBuilder<A>)
        ensures
            b == (TaskBuilder { parent: Some(parent_task), ..self }),
    {
        TaskBuilder { parent: Some(parent_task), ..self }
    }

    /// Pins the task to a CPU.
    pub fn pin_on_cpu(self, cpu_id: u32) -> (b: TaskBuilder<A>)
        ensures
            b == (TaskBuilder { pin_on_cpu: Some(cpu_id), ..self }),
    {
        TaskBuilder { pin_on_cpu: Some(cpu_id), ..self }
    }

    /// Sets the environment of the task.
    pub fn env(self, env: usize) -> (b: TaskBuilder<A>)
        ensures
            b == (TaskBuilder { env: Some(env), ..self }),
    {
        TaskBuilder { env: Some(env), ..self }
    }

    /// Has the task start out blocked.
    pub fn block(self) -> (b: TaskBuilder<A>)
        ensures
            b == (TaskBuilder { blocked: true, ..self }),
    {
        TaskBuilder { blocked: true, ..self }
    }

    /// Makes the task the idle task of a CPU.
    pub fn idle(self, cpu_id: u32) -> (b: TaskBuilder<A>)
        ensures
            b == (TaskBuilder { idle: true, pin_on_cpu: Some(cpu_id), ..self }),
    {
        let b = TaskBuilder { idle: true, ..self };
        b.pin_on_cpu(cpu_id)
    }

    /// Creates the task, registers it and hands it to the scheduler. The initial
    /// context of `context_size` bytes is to be written at the saved stack
    /// pointer.
    pub fn spawn(
        self,
        tasks: &mut TaskTable,
        ids: &mut TaskIdSource,
        backend: &mut SchedulerBackend,
        current: Option<TaskRef>,
        allocated: StackAllocation,
        default_name: String,
        context_size: usize,
        now_ns: u64,
    ) -> (r: Result<JoinableTaskRef, &'static str>)
        requires
            old(tasks).wf(),
            old(backend).wf(),
            parent_of(self, current) matches Some(p) ==> old(tasks)@.contains_key(p.id),
            stack_of(self, allocated) matches Some(s) ==> stack_fits(s, context_size),
            parent_of(self, current) matches Some(p) ==> {
                stack_of(self, allocated) matches Some(s) ==> can_place(
                    self,
                    old(backend)@,
                    spawned(
                        self,
                        old(tasks)@[p.id],
                        old(ids).next,
                        s,
                        default_name,
                        context_size,
                    ).sched,
                    now_ns,
                )
            },
        ensures
            final(tasks).wf(),
            final(backend).wf(),
            r is Ok <==> parent_of(self, current) is Some && stack_of(self, allocated) is Some,
            r matches Err(e) ==> {
                &&& final(tasks)@ == old(tasks)@
                &&& final(backend)@ == old(backend)@
                &&& *final(ids) == *old(ids)
                &&& e@ == if parent_of(self, current) is None {
                    "spawn: couldn't get current task"@
                } else if allocated == StackAllocation::NoKernelMmi {
                    "spawn: couldn't get kernel MMI to allocate stack"@
                } else {
                    "spawn: failed to allocate stack for new task"@
                }
            },
            r matches Ok(j) ==> {
                let id = old(ids).next;
                let t = spawned(
                    self,
                    old(tasks)@[parent_of(self, current)->Some_0.id],
                    id,
                    stack_of(self, allocated)->Some_0,
                    default_name,
                    context_size,
                );
                &&& j.task.id == id
                &&& final(ids).next == if id == usize::MAX {
                    0
                } else {
                    (id + 1) as usize
                }
                &&& final(backend)@ == backend_with(self, old(backend)@, id, t.sched, now_ns)
                &&& final(tasks)@ == old(tasks)@.insert(
                    id,
                    Task { sched: placed_info(self, old(backend)@, t.sched), ..t },
                )
            },
    {
        let ghost b = self;
        let parent = match self.parent {
            Some(p) => p,
            None => match current {
                Some(c) => c,
                None => {
                    return Err("spawn: couldn't get current task");
                },
            },
        };
        let stack = match self.stack {
            Some(s) => s,
            None => match allocated {
                StackAllocation::Allocated(s) => s,
                StackAllocation::NoKernelMmi => {
                    return Err("spawn: couldn't get kernel MMI to allocate stack");
                },
                StackAllocation::OutOfMemory => {
                    return Err("spawn: failed to allocate stack for new task");
                },
            },
        };
        let ghost t0 = tasks@;
        let mut states: InheritedStates = tasks.read(parent).states;
        if let Some(env) = self.env {
            states.env = env;
        }
        let task_id: usize = get_next_task_id(ids);
        let task_name = match self.name {
            Some(n) => n,
            None => default_name,
        };
        let mut new_task = Task::new(task_id, task_name, stack, states);
        new_task.runstate = RunState::Initing;
        if let Some(cpu) = self.pin_on_cpu {
            new_task.pinned_core = Some(cpu);
        }
        if let Err(e) = setup_context_trampoline(&mut new_task, context_size) {
            return Err(e);
        }
        if self.idle {
            new_task.is_an_idle_task = true;
            new_task.sched.policy = SchedClass::Idle;
        }
        if let Some((namespace, app_crate)) = self.app {
            new_task.states.namespace = namespace;
            new_task.states.app_crate = Some(app_crate);
        }
        if self.restartable {
            new_task.restartable = true;
            if let Err(e) = setup_context_trampoline(&mut new_task, context_size) {
                return Err(e);
            }
        }
        if self.blocked {
            if new_task.block_initing_task().is_err() {
                return Err("BUG: newly-spawned blocked task was not in the Initing runstate");
            }
        } else {
            if new_task.make_inited_task_runnable().is_err() {
                return Err("BUG: newly-spawned task was not in the Initing runstate");
            }
        }
        let ghost t = new_task;
        assert(t == spawned(b, t0[parent.id], task_id, stack, default_name, context_size));
        let task_ref = tasks.insert(new_task);
        let ghost t1 = tasks@;
        if !self.idle {
            if let Some(cpu) = self.pin_on_cpu {
                add_task_to(backend, tasks, cpu, task_ref, now_ns);
            } else {
                add_task(backend, tasks, task_ref, now_ns);
            }
        }
        assert(tasks@ =~= t0.insert(
            task_id,
            Task { sched: placed_info(b, old(backend)@, t.sched), ..t },
        ));
        Ok(JoinableTaskRef { task: task_ref })
    }

    /// Marks the task as one that is restarted when it ends. It has the namespace and the
    /// crate of its parent, also where the builder was made for an application.
    pub fn spawn_restartable(self) -> (b: TaskBuilder<A>)
        ensures
            b == (TaskBuilder { restartable: true, app: None, ..self }),
    {
        TaskBuilder { restartable: true, app: None, ..self }
    }
}

/// Reserves room for the initial context of a task on its stack and saves the
/// stack pointer. Only tasks that are being set up can be treated so.
pub fn setup_context_trampoline(new_task: &mut Task, context_size: usize) -> (r: Result<
    (),
    &'static str,
>)
    requires
        old(new_task).runstate == RunState::Initing ==> stack_fits(
            old(new_task).kstack,
            context_size,
        ),
    ensures
        old(new_task).runstate == RunState::Initing ==> r is Ok && *final(new_task) == (Task {
            saved_sp: context_address(old(new_task).kstack, context_size) as usize,
            ..*old(new_task)
        }),
        old(new_task).runstate != RunState::Initing ==> *final(new_task) == *old(new_task) && (
        r matches Err(e) && e@
            == "`setup_context_trampoline()` can only be invoked on `Initing` tasks"@),
{
    if new_task.runstate != RunState::Initing {
        return Err("`setup_context_trampoline()` can only be invoked on `Initing` tasks");
    }
    new_task.saved_sp = new_task.kstack.top - context_size - RETURN_ADDRESS_SIZE;
    Ok(())
}

/// The initial context lies inside the stack of the task, below the return
/// address.
pub proof fn context_lies_on_the_stack(stack: KernelStack, context_size: usize)
    requires
        stack_fits(stack, context_size),
        stack.bottom + context_size + RETURN_ADDRESS_SIZE <= stack.top,
    ensures
        stack.bottom <= context_address(stack, context_size),
        context_address(stack, context_size) + context_size + RETURN_ADDRESS_SIZE == stack.top,
{
}

/// A bootstrap task that has not finished yet.
pub struct BootstrapTaskRef {
    pub cpu_id: u32,
    pub exitable_taskref: ExitableTaskRef,
}

/// Removes the current task from the run queues.
fn remove_current_task_from_runqueue(
    backend: &mut SchedulerBackend,
    tasks: &mut TaskTable,
    current_task: ExitableTaskRef,
)
    requires
        old(backend).wf(),
        old(tasks).wf(),
        old(tasks)@.contains_key(current_task.task.id),
        old(backend)@.valid(old(tasks)@),
    ensures
        final(backend).wf(),
        final(tasks).wf(),
        final(backend)@ == old(backend)@.removed(
            current_task.task.id,
            old(tasks)@[current_task.task.id].sched,
        ),
        final(tasks)@ == eevdf::with_sched(
            old(tasks)@,
            current_task.task.id,
            old(backend)@.removed_info(old(tasks)@[current_task.task.id].sched),
        ),
{
    remove_task(backend, tasks, current_task.task);
}

impl BootstrapTaskRef {
    /// Ends the bootstrap task: it leaves the run queues and is marked as
    /// completed.
    pub fn finish(self, backend: &mut SchedulerBackend, tasks: &mut TaskTable)
        requires
            old(backend).wf(),
            old(tasks).wf(),
            old(tasks)@.contains_key(self.exitable_taskref.task.id),
            old(backend)@.valid(old(tasks)@),
            joinable::can_exit(old(tasks)@[self.exitable_taskref.task.id].runstate),
        ensures
            final(backend).wf(),
            final(tasks).wf(),
            ({
                let id = self.exitable_taskref.task.id;
                let t = old(tasks)@[id];
                &&& final(backend)@ == old(backend)@.removed(id, t.sched)
                &&& final(tasks)@ == old(tasks)@.insert(
                    id,
                    Task {
                        runstate: RunState::Exited(ExitValue::Completed(0)),
                        sched: old(backend)@.removed_info(t.sched),
                        ..t
                    },
                )
            }),
    {
        let ghost t0 = tasks@;
        remove_current_task_from_runqueue(backend, tasks, self.exitable_taskref);
        let _ = self.exitable_taskref.mark_as_exited(tasks);
        assert(tasks@ =~= t0.insert(
            self.exitable_taskref.task.id,
            tasks@[self.exitable_taskref.task.id],
        ));
    }
}

/// The builder of the idle task of a CPU, with a name.
pub open spec fn idle_builder(cpu_id: u32, name: String) -> TaskBuilder<u32> {
    TaskBuilder {
        name: Some(name),
        idle: true,
        pin_on_cpu: Some(cpu_id),
        restartable: true,
        ..fresh_builder(cpu_id)
    }
}

/// The builder of the idle task of a CPU.
pub fn idle_task_builder(cpu_id: u32) -> (b: TaskBuilder<u32>)
    ensures
        b.argument == cpu_id,
        b.name matches Some(n) && n@ == "idle_task_cpu_"@ + decimal::decimal(cpu_id as nat),
        b == idle_builder(cpu_id, b.name->Some_0),
{
    new_task_builder(cpu_id).name(numbered("idle_task_cpu_", cpu_id as u64)).idle(
        cpu_id,
    ).spawn_restartable()
}

/// Sets tasking up on a CPU: what it executes becomes the bootstrap task, its
/// idle task is created and registered, and the bootstrap task is enqueued.
pub fn init(
    tasks: &mut TaskTable,
    ids: &mut TaskIdSource,
    backend: &mut SchedulerBackend,
    current: &mut Option<TaskRef>,
    cpu_id: u32,
    kstack: KernelStack,
    states: InheritedStates,
    idle_stack: StackAllocation,
    context_size: usize,
    now_ns: u64,
) -> (r: Result<BootstrapTaskRef, &'static str>)
    requires
        old(tasks).wf(),
        old(backend).wf(),
        idle_stack matches StackAllocation::Allocated(s) ==> stack_fits(s, context_size),
        old(ids).next != 0,
        old(backend)@.has_cpu(cpu_id as int) ==> old(backend)@.rq(cpu_id as int).can_enqueue(
            task_struct::default_sched_info(),
            now_ns,
        ),
    ensures
        final(tasks).wf(),
        final(backend).wf(),
        *final(current) == Some(TaskRef { id: 0 }),
        final(tasks)@.contains_key(0),
        task::is_bootstrap_task(
            (Task { sched: task_struct::default_sched_info(), ..final(tasks)@[0] }),
            cpu_id,
            kstack,
            states,
        ),
        r is Ok <==> idle_stack is Allocated,
        r matches Err(e) ==> {
            &&& e@ == if idle_stack == StackAllocation::NoKernelMmi {
                "spawn: couldn't get kernel MMI to allocate stack"@
            } else {
                "spawn: failed to allocate stack for new task"@
            }
            &&& *final(ids) == *old(ids)
            &&& final(backend)@ == old(backend)@
            &&& final(tasks)@ == old(tasks)@.insert(0, final(tasks)@[0])
            &&& final(tasks)@[0].sched == task_struct::default_sched_info()
        },
        r matches Ok(b) ==> {
            let idle_id = old(ids).next;
            let idle = final(tasks)@[idle_id];
            let boot = final(tasks)@[0];
            let info = task_struct::default_sched_info();
            &&& b.cpu_id == cpu_id
            &&& b.exitable_taskref.task.id == 0
            &&& final(ids).next == idle_id.wrapping_add(1)
            &&& final(tasks)@ == old(tasks)@.insert(0, boot).insert(idle_id, idle)
            &&& idle.name@ == "idle_task_cpu_"@ + decimal::decimal(cpu_id as nat)
            &&& idle == spawned(
                idle_builder(cpu_id, idle.name),
                boot,
                idle_id,
                idle_stack->Allocated_0,
                idle.name,
                context_size,
            )
            &&& if old(backend)@.has_cpu(cpu_id as int) {
                let q = crate::mks::runqueue::PerCpuState {
                    idle: Some(TaskRef { id: idle_id }),
                    ..old(backend)@.rq(cpu_id as int)
                };
                &&& boot.sched == q.joined(info)
                &&& final(backend)@ == old(backend)@.with_rq(
                    cpu_id as int,
                    q.enqueue(0, info, now_ns),
                )
            } else {
                &&& boot.sched == info
                &&& final(backend)@ == old(backend)@
            }
        },
{
    let ghost b0 = backend@;
    let (_joinable, exitable) = bootstrap_task(tasks, current, cpu_id, kstack, states);
    let builder = idle_task_builder(cpu_id);
    let ghost t1 = tasks@;
    let idle_task = match builder.spawn(
        tasks,
        ids,
        backend,
        *current,
        idle_stack,
        String::new(),
        context_size,
        now_ns,
    ) {
        Ok(t) => t,
        Err(e) => {
            return Err(e);
        },
    };
    let ghost t2 = tasks@;
    assert(t2[0] == t1[0]);
    register_idle_task(backend, cpu_id, idle_task.task);
    let ghost b2 = backend@;
    add_task_to(backend, tasks, cpu_id, exitable.task, now_ns);
    assert(tasks@[idle_task.task.id] == t2[idle_task.task.id]);
    proof {
        assert(tasks@ =~= old(tasks)@.insert(0, tasks@[0]).insert(
            idle_task.task.id,
            tasks@[idle_task.task.id],
        ));
        if b0.has_cpu(cpu_id as int) {
            let q = crate::mks::runqueue::PerCpuState {
                idle: Some(idle_task.task),
                ..b0.rq(cpu_id as int)
            };
            assert(b2.rq(cpu_id as int) == q);
            assert(backend@.mks->Some_0.rqs =~= b0.with_rq(
                cpu_id as int,
                q.enqueue(0, task_struct::default_sched_info(), now_ns),
            ).mks->Some_0.rqs);
        }
    }
    Ok(BootstrapTaskRef { cpu_id, exitable_taskref: exitable })
}

/// One round of cleaning up the bootstrap tasks: if one is left, it is looked
/// at, and it counts once it has exited. A task that still runs is looked at
/// again later.
pub fn cleanup_bootstrap_tasks(
    waiting: &mut Vec<JoinableTaskRef>,
    tasks: &TaskTable,
    cleaned: u32,
) -> (r: u32)
    requires
        tasks.wf(),
        cleaned < u32::MAX,
        forall|i: int|
            0 <= i < old(waiting)@.len() ==> tasks@.contains_key(
                (#[trigger] old(waiting)@[i]).task.id,
            ),
    ensures
        old(waiting)@.len() == 0 ==> r == cleaned && final(waiting)@ == old(waiting)@,
        old(waiting)@.len() > 0 ==> if tasks@[old(waiting)@.last().task.id].runstate is Exited {
            r == cleaned + 1 && final(waiting)@ == old(waiting)@.drop_last()
        } else {
            r == cleaned && final(waiting)@ == old(waiting)@
        },
{
    let ghost w = waiting@;
    match waiting.pop() {
        Some(task) => {
            assert(task == w[w.len() - 1]);
            if task.has_exited(tasks) {
                cleaned + 1
            } else {
                waiting.push(task);
                assert(waiting@ =~= w);
                cleaned
            }
        },
        None => cleaned,
    }
}

/// Marks a task that has returned as completed, unless it has already exited.
pub fn task_cleanup_success_internal(tasks: &mut TaskTable, current_task: ExitableTaskRef) -> (r:
    bool)
    requires
        old(tasks).wf(),
        old(tasks)@.contains_key(current_task.task.id),
    ensures
        final(tasks).wf(),
        r == joinable::can_exit(old(tasks)@[current_task.task.id].runstate),
        final(tasks)@ == if r {
            old(tasks)@.insert(
                current_task.task.id,
                Task {
                    runstate: RunState::Exited(ExitValue::Completed(0)),
                    ..old(tasks)@[current_task.task.id]
                },
            )
        } else {
            old(tasks)@
        },
{
    current_task.mark_as_exited(tasks).is_ok()
}

/// Marks a task that has failed as killed, unless it has already exited.
pub fn task_cleanup_failure_internal(
    tasks: &mut TaskTable,
    current_task: ExitableTaskRef,
    kill_reason: KillReason,
) -> (r: bool)
    requires
        old(tasks).wf(),
        old(tasks)@.contains_key(current_task.task.id),
    ensures
        final(tasks).wf(),
        r == joinable::can_exit(old(tasks)@[current_task.task.id].runstate),
        final(tasks)@ == if r {
            old(tasks)@.insert(
                current_task.task.id,
                Task {
                    runstate: RunState::Exited(ExitValue::Killed(kill_reason)),
                    ..old(tasks)@[current_task.task.id]
                },
            )
        } else {
            old(tasks)@
        },
{
    current_task.mark_as_killed(tasks, kill_reason).is_ok()
}

/// Last steps of a task that has ended: it leaves the run queues, and the table
/// unless somebody still holds a reference to it.
pub fn task_cleanup_final_internal(
    backend: &mut SchedulerBackend,
    tasks: &mut TaskTable,
    current_task: ExitableTaskRef,
    references: usize,
)
    requires
        old(backend).wf(),
        old(tasks).wf(),
        old(tasks)@.contains_key(current_task.task.id),
        old(backend)@.valid(old(tasks)@),
    ensures
        final(backend).wf(),
        final(tasks).wf(),
        ({
            let id = current_task.task.id;
            let s = old(tasks)@[id].sched;
            &&& final(backend)@ == old(backend)@.removed(id, s)
            &&& final(tasks)@ == if references <= 3 {
                old(tasks)@.remove(id)
            } else {
                eevdf::with_sched(old(tasks)@, id, old(backend)@.removed_info(s))
            }
        }),
{
    let ghost t0 = tasks@;
    remove_task_from_current(backend, tasks, current_task.task);
    current_task.reap_if_orphaned(tasks, references);
    proof {
        if references <= 3 {
            assert(tasks@ =~= t0.remove(current_task.task.id));
        }
    }
}

/// The builder with which a restartable task is started again after it has
/// ended: under the same name and on the same CPU. Other tasks have none.
pub fn restart_builder<A>(tasks: &TaskTable, current_task: ExitableTaskRef, argument: A) -> (r:
    Option<TaskBuilder<A>>)
    requires
        tasks.wf(),
        tasks@.contains_key(current_task.task.id),
    ensures
        r is Some <==> tasks@[current_task.task.id].restartable,
        r matches Some(b) ==> {
            &&& b.name matches Some(n)
            &&& n@ == tasks@[current_task.task.id].name@
            &&& b == (TaskBuilder {
                name: b.name,
                pin_on_cpu: tasks@[current_task.task.id].pinned_core,
                restartable: true,
                ..fresh_builder(argument)
            })
        },
{
    if !current_task.with_restart_info(tasks) {
        return None;
    }
    let task_name = tasks.read(current_task.task).name.clone();
    let b = new_task_builder(argument).name(task_name);
    let b2 = match current_task.pinned_cpu(tasks) {
        Some(cpu) => b.pin_on_cpu(cpu),
        None => b,
    };
    Some(b2.spawn_restartable())
}

/// The table after a task has ended with a result: it is completed or killed, unless it
/// has already exited.
pub open spec fn ended(
    tasks: Map<usize, Task>,
    id: usize,
    result: Result<(), KillReason>,
) -> Map<usize, Task> {
    if joinable::can_exit(tasks[id].runstate) {
        tasks.insert(
            id,
            Task {
                runstate: RunState::Exited(
                    match result {
                        Ok(_) => ExitValue::Completed(0),
                        Err(reason) => ExitValue::Killed(reason),
                    },
                ),
                ..tasks[id]
            },
        )
    } else {
        tasks
    }
}

/// Ends a task whose function has returned or failed: it is marked, and then leaves the
/// run queues, and the table unless somebody still holds a reference to it.
pub fn task_wrapper(
    backend: &mut SchedulerBackend,
    tasks: &mut TaskTable,
    current_task: ExitableTaskRef,
    result: Result<(), KillReason>,
    references: usize,
)
    requires
        old(backend).wf(),
        old(tasks).wf(),
        old(tasks)@.contains_key(current_task.task.id),
        old(backend)@.valid(old(tasks)@),
    ensures
        final(backend).wf(),
        final(tasks).wf(),
        ({
            let id = current_task.task.id;
            let s = old(tasks)@[id].sched;
            &&& final(backend)@ == old(backend)@.removed(id, s)
            &&& final(tasks)@ == if references <= 3 {
                old(tasks)@.remove(id)
            } else {
                eevdf::with_sched(
                    ended(old(tasks)@, id, result),
                    id,
                    old(backend)@.removed_info(s),
                )
            }
        }),
{
    let ghost t0 = tasks@;
    match result {
        Ok(_) => {
            task_cleanup_success_internal(tasks, current_task);
        },
        Err(reason) => {
            task_cleanup_failure_internal(tasks, current_task, reason);
        },
    }
    assert(tasks@ == ended(t0, current_task.task.id, result));
    task_cleanup_final_internal(backend, tasks, current_task, references);
    assert(ended(t0, current_task.task.id, result).remove(current_task.task.id) =~= t0.remove(
        current_task.task.id,
    ));
}

/// Marks a restartable task whose function has returned or failed, and gives the builder
/// with which it is started again. Its last steps are those of any task.
pub fn task_wrapper_restartable<A>(
    tasks: &mut TaskTable,
    current_task: ExitableTaskRef,
    result: Result<(), KillReason>,
    argument: A,
) -> (r: Option<TaskBuilder<A>>)
    requires
        old(tasks).wf(),
        old(tasks)@.contains_key(current_task.task.id),
    ensures
        final(tasks).wf(),
        final(tasks)@ == ended(old(tasks)@, current_task.task.id, result),
        r is Some <==> old(tasks)@[current_task.task.id].restartable,
        r matches Some(b) ==> {
            &&& b.name matches Some(n)
            &&& n@ == old(tasks)@[current_task.task.id].name@
            &&& b == (TaskBuilder {
                name: b.name,
                pin_on_cpu: old(tasks)@[current_task.task.id].pinned_core,
                restartable: true,
                ..fresh_builder(argument)
            })
        },
{
    match result {
        Ok(_) => {
            task_cleanup_success_internal(tasks, current_task);
        },
        Err(reason) => {
            task_cleanup_failure_internal(tasks, current_task, reason);
        },
    }
    restart_builder(tasks, current_task, argument)
}

/// A child shares the memory of its parent. Its environment, its namespace and its crate are
/// those it was built with, and those of the parent where it was built with none.
pub proof fn child_takes_over_from_its_parent<A>(b: TaskBuilder<A>, parent: Task)
    ensures
        ({
            let i = inherited(b, parent);
            &&& i.mmi == parent.states.mmi
            &&& b.env is None ==> i.env == parent.states.env
            &&& b.env matches Some(e) ==> i.env == e
            &&& b.app is None ==> i.namespace == parent.states.namespace && i.app_crate
                == parent.states.app_crate
            &&& b.app matches Some(a) ==> i.namespace == a.0 && i.app_crate == Some(a.1)
        }),
{
}

/// A new task is what its builder says: its own identifier and stack, runnable unless it
/// was built blocked, pinned where it was pinned, at nice 0 with the weight of that, and of
/// the idle class exactly if it is an idle task. It can be switched to.
pub proof fn new_task_follows_its_builder<A>(
    b: TaskBuilder<A>,
    parent: Task,
    id: usize,
    stack: KernelStack,
    default_name: String,
    context_size: usize,
)
    requires
        stack_fits(stack, context_size),
        context_address(stack, context_size) > 0,
    ensures
        ({
            let t = spawned(b, parent, id, stack, default_name, context_size);
            &&& t.id == id
            &&& t.kstack == stack
            &&& b.name matches Some(n) ==> t.name == n
            &&& b.name is None ==> t.name == default_name
            &&& b.blocked ==> t.runstate == RunState::Blocked
            &&& !b.blocked ==> t.runstate == RunState::Runnable
            &&& t.running_on_cpu is None
            &&& t.pinned_core == b.pin_on_cpu
            &&& t.restartable == b.restartable
            &&& t.is_an_idle_task == b.idle
            &&& b.idle <==> t.sched.policy is Idle
            &&& !b.idle ==> t.sched.policy is Normal
            &&& t.sched.nice == 0 && t.sched.weight == 1024 && t.sched.vruntime == 0
                && !t.sched.on_rq
            &&& t.saved_sp != 0
            &&& t.saved_sp + context_size + 8 == stack.top
        }),
{
}

/// A new task that is not an idle task is enqueued: on the CPU it is pinned to, or else
/// where the scheduler places it. An idle task stands in no queue.
pub proof fn new_task_is_enqueued<A>(
    b: TaskBuilder<A>,
    backend: BackendState,
    id: usize,
    s: TaskSchedInfo,
    now_ns: u64,
)
    requires
        can_place(b, backend, s, now_ns),
        s.policy is Normal,
    ensures
        b.idle ==> backend_with(b, backend, id, s, now_ns) == backend && placed_info(b, backend, s)
            == s,
        !b.idle ==> (b.pin_on_cpu matches Some(cpu) ==> (backend.has_cpu(cpu as int) ==> {
            let after = backend_with(b, backend, id, s, now_ns);
            &&& after.rq(cpu as int).fair.holds(id)
            &&& placed_info(b, backend, s).on_rq
            &&& forall|o: int|
                0 <= o < after.mks->Some_0.rqs.len() && o != cpu ==> #[trigger] after.rq(o)
                    == backend.rq(o)
        })),
        !b.idle && b.pin_on_cpu is None ==> (backend.mks matches Some(m) ==> (0 <= m.selected(s)
            < m.rqs.len() ==> backend_with(b, backend, id, s, now_ns).rq(m.selected(s)).fair.holds(
            id,
        ))),
{
    if !b.idle {
        if let Some(cpu) = b.pin_on_cpu {
            if backend.has_cpu(cpu as int) {
                lemma_normal_task_joins(backend.rq(cpu as int), id, s, now_ns);
            }
        } else if let Some(m) = backend.mks {
            lemma_normal_task_joins(m.rqs[m.selected(s)], id, s, now_ns);
        }
    }
}

proof fn lemma_normal_task_joins(
    q: crate::mks::runqueue::PerCpuState,
    id: usize,
    s: TaskSchedInfo,
    now_ns: u64,
)
    requires
        s.policy is Normal,
    ensures
        q.enqueue(id, s, now_ns).fair.holds(id),
{
    let j = q.fair.joined(s, true);
    if j.ve <= q.fair.min_vruntime {
        assert(q.enqueue(id, s, now_ns).fair.eligible.contains_key((j.vdeadline, id as u64)));
    } else {
        assert(q.enqueue(id, s, now_ns).fair.ineligible.contains_key((j.ve, id as u64)));
    }
}

/// What a task was built with comes before what is found: its parent before the current
/// task, its stack before the allocated one.
pub proof fn builder_comes_first<A>(
    b: TaskBuilder<A>,
    current: Option<TaskRef>,
    allocated: StackAllocation,
)
    ensures
        b.parent is Some ==> parent_of(b, current) == b.parent,
        b.parent is None ==> parent_of(b, current) == current,
        b.stack is Some ==> stack_of(b, allocated) == b.stack,
        b.stack is None ==> (allocated matches StackAllocation::Allocated(s) ==> stack_of(
            b,
            allocated,
        ) == Some(s)),
        b.stack is None && !(allocated is Allocated) ==> stack_of(b, allocated) is None,
{
}

/// A task that has ended has exited with its result, unless it had exited before; no other
/// task is touched.
pub proof fn ended_task_has_its_result(
    tasks: Map<usize, Task>,
    id: usize,
    result: Result<(), KillReason>,
    other: usize,
)
    requires
        tasks.contains_key(id),
        other != id,
    ensures
        ({
            let e = ended(tasks, id, result);
            let lives = tasks[id].runstate is Runnable || tasks[id].runstate is Blocked;
            &&& lives && result is Ok ==> e[id].runstate == RunState::Exited(ExitValue::Completed(0))
            &&& lives ==> (result matches Err(why) ==> e[id].runstate == RunState::Exited(
                ExitValue::Killed(why),
            ))
            &&& tasks[id].runstate is Exited ==> e[id].runstate == tasks[id].runstate
            &&& e[other] == tasks[other]
        }),
{
}

/// An application starts in a section of code that is named after the crate and `main`.
pub proof fn applications_start_in_main(
    sections: Seq<CrateSection>,
    prefix: Seq<char>,
    delimiter: Seq<char>,
    i: int,
)
    requires
        is_main_section(sections, prefix, delimiter, i),
    ensures
        0 <= i < sections.len(),
        sections[i].is_text,
        sections[i].name@ == prefix + seq!['m', 'a', 'i', 'n'] + delimiter,
{
    reveal_strlit("main");
    assert("main"@ =~= seq!['m', 'a', 'i', 'n']);
}

/// The idle task of a CPU is pinned there, is restarted when it fails, and gets the number of
/// its CPU. A new builder asks for nothing.
pub proof fn idle_tasks_stay_on_their_cpu(cpu_id: u32, name: String)
    ensures
        ({
            let b = idle_builder(cpu_id, name);
            &&& b.argument == cpu_id
            &&& b.pin_on_cpu == Some(cpu_id)
            &&& b.idle && b.restartable && !b.blocked
            &&& b.name == Some(name)
            &&& b.parent is None && b.stack is None && b.env is None && b.app is None
        }),
        ({
            let b = fresh_builder(cpu_id);
            &&& b.argument == cpu_id
            &&& b.pin_on_cpu is None && b.name is None
            &&& !b.idle && !b.restartable && !b.blocked
            &&& b.parent is None && b.stack is None && b.env is None && b.app is None
        }),
{
}

} // verus!
