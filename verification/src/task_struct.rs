//! The task structure and its scheduling metadata.

use vstd::prelude::*;

verus! {

/// Scheduling policy of a task.
#[derive(Clone, Copy, Debug, PartialEq, Eq, Structural)]
pub enum SchedClass {
    /// Background task (lowest priority, no fairness guarantee).
    Idle,
    /// Batch processing (below `Normal`, no interactive boost).
    Batch,
    /// Normal timesharing.
    Normal,
    /// GPU-compute task.
    Compute,
    /// Real-time round-robin with the given nanoseconds per slice.
    RoundRobin(u64),
    /// Real-time FIFO.
    Fifo,
    /// Hard real-time with a period and a runtime per period.
    Deadline { period_ns: u64, runtime_ns: u64 },
}

impl Default for SchedClass {
    fn default() -> (r: Self)
        ensures
            r == SchedClass::Normal,
    {
        SchedClass::Normal
    }
}

/// Per-task scheduling metadata.
#[derive(Clone, Copy, Debug, PartialEq, Eq, Structural)]
pub struct TaskSchedInfo {
    /// Virtual runtime in nanoseconds, weighted by inverse nice.
    pub vruntime: u64,
    /// Virtual eligible time: the earliest point at which the task may be picked.
    pub ve: u64,
    /// Virtual deadline.
    pub vdeadline: u64,
    /// Scheduling weight derived from the nice value.
    pub weight: u64,
    /// Inverse weight for fixed-point division.
    pub wmult: u32,
    /// Nice value in [-20, 19].
    pub nice: i8,
    /// Real-time priority in [0, 99].
    pub rt_priority: u8,
    /// Remaining round-robin timeslice in nanoseconds.
    pub rr_timeslice_remaining: u64,
    /// Hard CPU affinity.
    pub pinned_cpu: Option<usize>,
    /// Current scheduling class.
    pub policy: SchedClass,
    /// Last CPU that the task executed on.
    pub last_cpu: usize,
    /// Time at which a sleeping task should wake.
    pub wakeup_time_ns: u64,
    /// Whether the task stands in a fair run queue.
    pub on_rq: bool,
    /// Total CPU time consumed in nanoseconds.
    pub exec_runtime: u64,
}

/// The metadata of a freshly created task.
pub open spec fn default_sched_info() -> TaskSchedInfo {
    TaskSchedInfo {
        vruntime: 0,
        ve: 0,
        vdeadline: 0,
        weight: 1024,
        wmult: 4_194_304,
        nice: 0,
        rt_priority: 0,
        rr_timeslice_remaining: 100_000_000,
        pinned_cpu: None,
        policy: SchedClass::Normal,
        last_cpu: 0,
        wakeup_time_ns: 0,
        on_rq: false,
        exec_runtime: 0,
    }
}

impl Default for TaskSchedInfo {
    fn default() -> (r: Self)
        ensures
            r == default_sched_info(),
    {
        TaskSchedInfo {
            vruntime: 0,
            ve: 0,
            vdeadline: 0,
            weight: 1024,
            wmult: 4_194_304,
            nice: 0,
            rt_priority: 0,
            rr_timeslice_remaining: 100_000_000,
            pinned_cpu: None,
            policy: SchedClass::Normal,
            last_cpu: 0,
            wakeup_time_ns: 0,
            on_rq: false,
            exec_runtime: 0,
        }
    }
}

/// Why a task was killed.
#[derive(Clone, Copy, Debug, PartialEq, Eq, Structural)]
pub enum KillReason {
    Requested,
    Panic,
    Exception(u8),
}

/// How a task came to its end.
#[derive(Clone, Copy, Debug, PartialEq, Eq, Structural)]
pub enum ExitValue {
    Completed(isize),
    Killed(KillReason),
}

/// Lifecycle state of a task.
#[derive(Clone, Copy, Debug, PartialEq, Eq, Structural)]
pub enum RunState {
    Initing,
    Runnable,
    Blocked,
    Exited(ExitValue),
}

/// What a task takes over from the task that creates it: the identifiers of
/// its address space, crate namespace, environment and application crate.
#[derive(Clone, Copy, Debug, PartialEq, Eq, Structural)]
pub struct InheritedStates {
    pub mmi: usize,
    pub namespace: usize,
    pub env: usize,
    pub app_crate: Option<usize>,
}

/// The address range of a kernel stack: `bottom` is the lowest usable address,
/// `top` the first address beyond it.
#[derive(Clone, Copy, Debug, PartialEq, Eq, Structural)]
pub struct KernelStack {
    pub bottom: usize,
    pub top: usize,
}

/// The contextual execution state of a thread.
#[derive(Debug)]
pub struct Task {
    /// Unique identifier.
    pub id: usize,
    /// Human-readable name.
    pub name: String,
    /// Lifecycle state.
    pub runstate: RunState,
    /// The CPU that the task currently runs on.
    pub running_on_cpu: Option<u32>,
    /// Kernel stack.
    pub kstack: KernelStack,
    /// Address space, namespace, environment and application crate.
    pub states: InheritedStates,
    /// Saved stack pointer.
    pub saved_sp: usize,
    /// Whether a kill handler is installed.
    pub has_kill_handler: bool,
    /// The CPU that the task is pinned to.
    pub pinned_core: Option<u32>,
    /// Syscall interface: 0 native, 1 Linux, 2 Windows.
    pub exec_mode: u8,
    /// Whether the task brings an address space of its own.
    pub own_address_space: bool,
    /// Whether this is the idle task of a CPU.
    pub is_an_idle_task: bool,
    /// Whether the task is restarted after it ends.
    pub restartable: bool,
    /// Scheduling metadata.
    pub sched: TaskSchedInfo,
}

/// Weight of each nice value from -20 to 19.
pub const WEIGHT: [u32; 40] = [
    88761, 71755, 56483, 46273, 36291,
    29154, 23254, 18705, 14949, 11916,
    9548, 7620, 6100, 4904, 3906,
    3121, 2501, 1991, 1586, 1277,
    1024, 820, 655, 526, 423,
    335, 272, 215, 172, 137,
    110, 87, 70, 56, 45,
    36, 29, 23, 18, 15,
];

/// Inverse weight of each nice value from -20 to 19.
pub const WMULT: [u32; 40] = [
    48388, 59856, 76040, 92818, 118348,
    147320, 184698, 229616, 287308, 360437,
    449829, 563644, 704093, 875809, 1099582,
    1376151, 1717300, 2157191, 2708050, 3363326,
    4194304, 5237765, 6557202, 8165337, 10153587,
    12820798, 15790321, 19976592, 24970740, 31350126,
    39045157, 49367440, 61356676, 76695844, 95443717,
    119304647, 148102320, 186737708, 238609294, 286331153,
];

/// Index of a nice value in the weight tables.
pub open spec fn nice_index(nice: int) -> int {
    if nice < -20 {
        0
    } else if nice > 19 {
        39
    } else {
        nice + 20
    }
}

/// The metadata `s` with the nice value `nice` and the weights that go with it.
pub open spec fn reweighted(s: TaskSchedInfo, nice: i8) -> TaskSchedInfo {
    TaskSchedInfo {
        nice,
        weight: WEIGHT[nice_index(nice as int)] as u64,
        wmult: WMULT[nice_index(nice as int)],
        ..s
    }
}

impl Task {
    /// Creates a task in the `Runnable` state.
    pub fn new(id: usize, name: String, kstack: KernelStack, states: InheritedStates) -> (t: Task)
        ensures
            t == (Task {
                id,
                name,
                runstate: RunState::Runnable,
                running_on_cpu: None,
                kstack,
                states,
                saved_sp: 0,
                has_kill_handler: false,
                pinned_core: None,
                exec_mode: 0,
                own_address_space: false,
                is_an_idle_task: false,
                restartable: false,
                sched: default_sched_info(),
            }),
    {
        Task {
            id,
            name,
            runstate: RunState::Runnable,
            running_on_cpu: None,
            kstack,
            states,
            saved_sp: 0,
            has_kill_handler: false,
            pinned_core: None,
            exec_mode: 0,
            own_address_space: false,
            is_an_idle_task: false,
            restartable: false,
            sched: TaskSchedInfo::default(),
        }
    }

    /// Recomputes the weights from the nice value.
    pub fn update_weight(&mut self)
        requires
            old(self).sched.nice <= 107,
        ensures
            *final(self) == (Task {
                sched: reweighted(old(self).sched, old(self).sched.nice),
                ..*old(self)
            }),
    {
        let shifted: i8 = self.sched.nice + 20;
        let idx: usize = if shifted < 0 {
            0
        } else if shifted > 39 {
            39
        } else {
            shifted as usize
        };
        self.sched.weight = WEIGHT[idx] as u64;
        self.sched.wmult = WMULT[idx];
    }

    /// Sets the nice value, clamped to [-20, 19], and recomputes the weights.
    pub fn set_nice(&mut self, nice: i8)
        ensures
            *final(self) == (Task {
                sched: reweighted(old(self).sched, (nice_index(nice as int) - 20) as i8),
                ..*old(self)
            }),
    {
        let clamped: i8 = if nice < -20 {
            -20
        } else if nice > 19 {
            19
        } else {
            nice
        };
        self.sched.nice = clamped;
        self.update_weight();
    }

    /// Moves a task out of `Initing` to `Blocked`; any other state is returned
    /// as the error and stays.
    pub fn block_initing_task(&mut self) -> (r: Result<(), RunState>)
        ensures
            old(self).runstate == RunState::Initing ==> r is Ok && *final(self) == (Task {
                runstate: RunState::Blocked,
                ..*old(self)
            }),
            old(self).runstate != RunState::Initing ==> r == Err::<(), RunState>(
                old(self).runstate,
            ) && *final(self) == *old(self),
    {
        if self.runstate == RunState::Initing {
            self.runstate = RunState::Blocked;
            Ok(())
        } else {
            Err(self.runstate)
        }
    }

    /// Moves a task out of `Initing` to `Runnable`; any other state is returned
    /// as the error and stays.
    pub fn make_inited_task_runnable(&mut self) -> (r: Result<(), RunState>)
        ensures
            old(self).runstate == RunState::Initing ==> r is Ok && *final(self) == (Task {
                runstate: RunState::Runnable,
                ..*old(self)
            }),
            old(self).runstate != RunState::Initing ==> r == Err::<(), RunState>(
                old(self).runstate,
            ) && *final(self) == *old(self),
    {
        if self.runstate == RunState::Initing {
            self.runstate = RunState::Runnable;
            Ok(())
        } else {
            Err(self.runstate)
        }
    }

    /// Identifier of the task's crate namespace.
    pub fn get_namespace(&self) -> (r: usize)
        ensures
            r == self.states.namespace,
    {
        self.states.namespace
    }

    /// Identifier of the task's environment.
    pub fn get_environment(&self) -> (r: usize)
        ensures
            r == self.states.env,
    {
        self.states.env
    }

    /// Identifier of the application crate the task runs, if any.
    pub fn get_app_crate(&self) -> (r: Option<usize>)
        ensures
            r == self.states.app_crate,
    {
        self.states.app_crate
    }
}

impl PartialEq for Task {
    fn eq(&self, other: &Task) -> (r: bool) {
        self.id == other.id
    }
}

impl vstd::std_specs::cmp::PartialEqSpecImpl for Task {
    open spec fn obeys_eq_spec() -> bool {
        true
    }

    open spec fn eq_spec(&self, other: &Task) -> bool {
        self.id == other.id
    }
}

/// The weights fall strictly as the nice value rises.
pub proof fn weight_falls_with_nice(a: i8, b: i8)
    requires
        -20 <= a < b <= 19,
    ensures
        WEIGHT[nice_index(a as int)] > WEIGHT[nice_index(b as int)],
        WMULT[nice_index(a as int)] < WMULT[nice_index(b as int)],
{
    assert(forall|i: int| 0 <= i < 39 ==> #[trigger] WEIGHT[i] > WEIGHT[i + 1]);
    assert(forall|i: int| 0 <= i < 39 ==> #[trigger] WMULT[i] < WMULT[i + 1]);
    lemma_falling(nice_index(a as int), nice_index(b as int));
}

proof fn lemma_falling(i: int, j: int)
    requires
        0 <= i < j < 40,
        forall|i: int| 0 <= i < 39 ==> #[trigger] WEIGHT[i] > WEIGHT[i + 1],
        forall|i: int| 0 <= i < 39 ==> #[trigger] WMULT[i] < WMULT[i + 1],
    ensures
        WEIGHT[i] > WEIGHT[j],
        WMULT[i] < WMULT[j],
    decreases j - i,
{
    assert(WEIGHT[j - 1] > WEIGHT[j - 1 + 1]);
    assert(WMULT[j - 1] < WMULT[j - 1 + 1]);
    if i < j - 1 {
        lemma_falling(i, j - 1);
    }
}

/// Each step of the nice value changes the weight by about a quarter: by at least a fifth
/// and at most 28 in a hundred of the smaller weight. A task at nice 0 weighs 1024.
pub proof fn weights_step_by_a_quarter(nice: i8)
    requires
        -20 <= nice < 19,
    ensures
        ({
            let here = WEIGHT[nice_index(nice as int)] as int;
            let next = WEIGHT[nice_index(nice + 1)] as int;
            120 * next <= 100 * here <= 128 * next
        }),
        WEIGHT[nice_index(0)] == 1024,
{
    assert(forall|i: int|
        0 <= i < 39 ==> 120 * WEIGHT[i + 1] <= 100 * #[trigger] WEIGHT[i] <= 128 * WEIGHT[i + 1]);
}

/// The weight and the inverse weight at an index multiply to the 32nd power of two, but for
/// less than the weight.
spec fn is_inverse_at(i: int) -> bool {
    0x1_0000_0000 - WEIGHT[i] <= WEIGHT[i] * WMULT[i] <= 0x1_0000_0000 + WEIGHT[i]
}

/// The inverse weight is the 32nd power of two divided by the weight, rounded.
pub proof fn inverse_weights_match(nice: i8)
    requires
        -20 <= nice <= 19,
    ensures
        ({
            let weight = WEIGHT[nice_index(nice as int)] as int;
            let inverse = WMULT[nice_index(nice as int)] as int;
            0x1_0000_0000 - weight <= weight * inverse <= 0x1_0000_0000 + weight
        }),
{
    assert(is_inverse_at(0) && is_inverse_at(1) && is_inverse_at(2) && is_inverse_at(3));
    assert(is_inverse_at(4) && is_inverse_at(5) && is_inverse_at(6) && is_inverse_at(7));
    assert(is_inverse_at(8) && is_inverse_at(9) && is_inverse_at(10) && is_inverse_at(11));
    assert(is_inverse_at(12) && is_inverse_at(13) && is_inverse_at(14) && is_inverse_at(15));
    assert(is_inverse_at(16) && is_inverse_at(17) && is_inverse_at(18) && is_inverse_at(19));
    assert(is_inverse_at(20) && is_inverse_at(21) && is_inverse_at(22) && is_inverse_at(23));
    assert(is_inverse_at(24) && is_inverse_at(25) && is_inverse_at(26) && is_inverse_at(27));
    assert(is_inverse_at(28) && is_inverse_at(29) && is_inverse_at(30) && is_inverse_at(31));
    assert(is_inverse_at(32) && is_inverse_at(33) && is_inverse_at(34) && is_inverse_at(35));
    assert(is_inverse_at(36) && is_inverse_at(37) && is_inverse_at(38) && is_inverse_at(39));
    assert(is_inverse_at(nice_index(nice as int)));
}

/// A nice value outside of its range counts as the nearest one in it.
pub proof fn nice_values_are_clamped(nice: int)
    ensures
        nice <= -20 ==> nice_index(nice) == 0,
        nice >= 19 ==> nice_index(nice) == 39,
        -20 <= nice <= 19 ==> nice_index(nice) == nice + 20,
{
}

/// A new task is an ordinary one of nice 0, with the weight 1024 and its inverse, on no queue,
/// with no time charged and 100 ms for its turn.
pub proof fn new_task_is_an_ordinary_one()
    ensures
        ({
            let s = default_sched_info();
            &&& s.weight == 1024 && s.weight * s.wmult == 0x1_0000_0000
            &&& s.nice == 0 && s.rt_priority == 0
            &&& s.policy is Normal
            &&& s.rr_timeslice_remaining == 100_000_000
            &&& s.vruntime == 0 && s.ve == 0 && s.vdeadline == 0 && s.exec_runtime == 0
            &&& !s.on_rq && s.pinned_cpu is None
        }),
{
}

} // verus!
