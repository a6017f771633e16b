//! GPU tasks: compute dispatches as units that can be scheduled.

use crate::mhc::shader;
use crate::mhc::device::{BufferBinding, GpuDevice};
use crate::mhc::fence::FenceId;
use crate::mhc::queue::GpuPriority;
use crate::mhc::shader::ShaderModule;
use std::sync::Arc;
use vstd::prelude::*;

verus! {

/// State of a GPU task.
#[derive(Clone, Copy, Debug, PartialEq, Eq, Structural)]
pub enum GpuTaskState {
    /// Waits for its dependencies.
    Pending,
    /// Can be dispatched.
    Ready,
    /// Given to a hardware queue.
    Dispatched,
    /// Executes.
    Running,
    /// Interrupted by more important work.
    Preempted,
    /// Executed.
    Completed,
    /// Failed.
    Failed,
}

/// A compute dispatch that can be scheduled.
pub struct GpuTask {
    /// Identifier.
    pub id: u64,
    /// Shader.
    pub shader: Arc<ShaderModule>,
    /// Number of workgroups.
    pub workgroups: [u32; 3],
    /// Buffers.
    pub bindings: Vec<BufferBinding>,
    /// Priority.
    pub priority: GpuPriority,
    /// Deadline in nanoseconds since boot.
    pub deadline_ns: Option<u64>,
    /// Device.
    pub device_id: usize,
    /// Fences that have to be signaled first.
    pub dependencies: Vec<FenceId>,
    /// Fence that is signaled on completion.
    pub completion_fence: FenceId,
    /// State.
    pub state: GpuTaskState,
    /// Virtual runtime.
    pub vruntime: u64,
    /// Virtual deadline.
    pub vdeadline: u64,
}

/// Estimated cost: workgroups times the invocations of each.
pub open spec fn cost_of(t: GpuTask) -> int {
    shader::invocations(t.workgroups@) * shader::invocations(t.shader.workgroup_size@)
}

/// The cost of a task can be computed.
pub open spec fn cost_fits(t: GpuTask) -> bool {
    &&& t.workgroups@[0] * t.workgroups@[1] <= u64::MAX
    &&& shader::invocations(t.workgroups@) <= u64::MAX
    &&& t.shader.workgroup_size@[0] * t.shader.workgroup_size@[1] <= u32::MAX
    &&& shader::invocations(t.shader.workgroup_size@) <= u32::MAX
    &&& cost_of(t) <= u64::MAX
}

impl GpuTask {
    /// A task without dependencies and without deadline.
    pub fn new(
        id: u64,
        shader: Arc<ShaderModule>,
        workgroups: [u32; 3],
        bindings: Vec<BufferBinding>,
        priority: GpuPriority,
        device_id: usize,
    ) -> (t: Self)
        ensures
            t.id == id,
            t.shader == shader,
            t.workgroups == workgroups,
            t.bindings == bindings,
            t.priority == priority,
            t.deadline_ns is None,
            t.device_id == device_id,
            t.dependencies@.len() == 0,
            t.completion_fence == FenceId(0),
            t.state == GpuTaskState::Pending,
            t.vruntime == 0,
            t.vdeadline == 0,
    {
        GpuTask {
            id,
            shader,
            workgroups,
            bindings,
            priority,
            deadline_ns: None,
            device_id,
            dependencies: Vec::new(),
            completion_fence: FenceId::none(),
            state: GpuTaskState::Pending,
            vruntime: 0,
            vdeadline: 0,
        }
    }

    /// Adds a fence that has to be signaled first. The identifier of no fence is
    /// ignored.
    pub fn depends_on(&mut self, fence: FenceId)
        ensures
            final(self).dependencies@ == if fence == FenceId(0) {
                old(self).dependencies@
            } else {
                old(self).dependencies@.push(fence)
            },
            *final(self) == (GpuTask { dependencies: final(self).dependencies, ..*old(self) }),
    {
        if !fence.is_none() {
            self.dependencies.push(fence);
        }
    }

    /// Sets a deadline.
    pub fn set_deadline(&mut self, deadline_ns: u64)
        ensures
            *final(self) == (GpuTask { deadline_ns: Some(deadline_ns), ..*old(self) }),
    {
        self.deadline_ns = Some(deadline_ns);
    }

    /// Whether all fences that have to be signaled first are.
    pub fn are_dependencies_met<D: GpuDevice>(&self, device: &D) -> (r: bool)
        requires
            device.inv(),
        ensures
            r == forall|i: int|
                0 <= i < self.dependencies@.len() ==> device.signaled(
                    #[trigger] self.dependencies@[i],
                ),
    {
        let mut i: usize = 0;
        while i < self.dependencies.len()
            invariant
                i <= self.dependencies@.len(),
                device.inv(),
                forall|k: int| 0 <= k < i ==> device.signaled(#[trigger] self.dependencies@[k]),
            decreases self.dependencies@.len() - i,
        {
            if !device.poll_fence(self.dependencies[i]) {
                assert(!device.signaled(self.dependencies@[i as int]));
                return false;
            }
            i += 1;
        }
        true
    }

    /// Changes the state and returns the one before.
    pub fn transition(&mut self, new_state: GpuTaskState) -> (r: GpuTaskState)
        ensures
            r == old(self).state,
            *final(self) == (GpuTask { state: new_state, ..*old(self) }),
    {
        let before = self.state;
        self.state = new_state;
        before
    }

    /// State of the task.
    pub fn current_state(&self) -> (r: GpuTaskState)
        ensures
            r == self.state,
    {
        self.state
    }

    /// Whether the task was executed or failed.
    pub fn is_terminal(&self) -> (r: bool)
        ensures
            r == (self.state == GpuTaskState::Completed || self.state == GpuTaskState::Failed),
    {
        match self.state {
            GpuTaskState::Completed => true,
            GpuTaskState::Failed => true,
            _ => false,
        }
    }

    /// Estimated cost: workgroups times the invocations of each.
    pub fn estimated_cost(&self) -> (c: u64)
        requires
            cost_fits(*self),
        ensures
            c == cost_of(*self),
    {
        let x: u64 = self.workgroups[0] as u64;
        let y: u64 = self.workgroups[1] as u64;
        let z: u64 = self.workgroups[2] as u64;
        let n: u32 = self.shader.workgroup_invocations();
        assert(x * y >= 0) by (nonlinear_arith);
        assert(x * y * z >= 0) by (nonlinear_arith);
        let w: u64 = x * y * z;
        assert(w * n >= 0) by (nonlinear_arith);
        w * n as u64
    }
}

/// Source of task identifiers. The first one is one.
pub struct GpuTaskIds {
    next: u64,
}

impl View for GpuTaskIds {
    type V = u64;

    closed spec fn view(&self) -> u64 {
        self.next
    }
}

impl GpuTaskIds {
    /// A source that has given out no identifier.
    pub fn new() -> (s: Self)
        ensures
            s@ == 1,
    {
        GpuTaskIds { next: 1 }
    }
}

/// Gives out a task identifier.
pub fn alloc_task_id(ids: &mut GpuTaskIds) -> (id: u64)
    ensures
        id == old(ids)@,
        final(ids)@ == old(ids)@.wrapping_add(1),
{
    let id: u64 = ids.next;
    ids.next = ids.next.wrapping_add(1);
    id
}

/// The estimated cost of a task is the number of its threads: those of a workgroup times the
/// number of workgroups, each over three dimensions.
pub proof fn cost_is_the_number_of_threads(t: GpuTask)
    ensures
        ({
            let g = t.workgroups@;
            let s = t.shader.workgroup_size@;
            cost_of(t) == g[0] * g[1] * g[2] * (s[0] * s[1] * s[2])
        }),
{
}

} // verus!
