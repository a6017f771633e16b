//! The GPUs that the system can have.

use crate::mhc::memory;
use crate::mhc::command::CommandBuffer;
use crate::mhc::device::{
    BufferBinding, GpuCapabilities, GpuDevice, GpuError, GpuVendor, QueueHandle, QueueKind,
    Submission,
};
use crate::mhc::drivers::software::{SoftwareGpuDevice, SoftwareState};
use crate::mhc::drivers::virtio_gpu::{VirtioGpuDevice, VirtioState};
use crate::mhc::fence::{FenceId, FencePoolState};
use crate::mhc::memory::{GpuAddress, GpuAllocation, GpuMemFlags};
use crate::mhc::shader::ShaderModule;
use vstd::prelude::*;

verus! {

/// A GPU of one of the supported kinds.
pub enum GpuBackend {
    /// Emulated on the CPU.
    Software(SoftwareGpuDevice),
    /// Virtual.
    Virtio(VirtioGpuDevice),
}

/// What a GPU holds.
pub enum BackendState {
    Software(SoftwareState),
    Virtio(VirtioState),
}

impl View for GpuBackend {
    type V = BackendState;

    open spec fn view(&self) -> BackendState {
        match *self {
            GpuBackend::Software(d) => BackendState::Software(d@),
            GpuBackend::Virtio(d) => BackendState::Virtio(d@),
        }
    }
}

impl BackendState {
    /// Fences of the GPU.
    pub open spec fn fences(self) -> FencePoolState {
        match self {
            BackendState::Software(s) => s.machine.fences,
            BackendState::Virtio(v) => v.fences,
        }
    }

    /// Command buffers that were submitted.
    pub open spec fn log(self) -> Seq<Submission> {
        match self {
            BackendState::Software(s) => s.log,
            BackendState::Virtio(v) => v.log,
        }
    }

    /// The GPU takes command buffers.
    pub open spec fn accepts(self) -> bool {
        match self {
            BackendState::Software(s) => true,
            BackendState::Virtio(v) => v.initialized,
        }
    }

    /// The GPU after a submission.
    pub open spec fn after_submit(self, sub: Submission) -> BackendState {
        match self {
            BackendState::Software(s) => BackendState::Software(s.submitted(sub)),
            BackendState::Virtio(v) => BackendState::Virtio(
                VirtioState {
                    log: v.log.push(sub),
                    ..if v.initialized {
                        v.signaled_once()
                    } else {
                        v
                    }
                },
            ),
        }
    }

    /// A queue of a kind can be made.
    pub open spec fn offers_queue(self, kind: QueueKind) -> bool {
        match self {
            BackendState::Software(s) => s.queues < 16,
            BackendState::Virtio(v) => v.initialized && (kind == QueueKind::Compute ==> v.has_virgl),
        }
    }

    /// The queue that is made next.
    pub open spec fn next_queue(self) -> QueueHandle {
        match self {
            BackendState::Software(s) => QueueHandle(s.queues),
            BackendState::Virtio(v) => QueueHandle(0),
        }
    }

    /// The GPU after a queue was made.
    pub open spec fn after_create(self) -> BackendState {
        match self {
            BackendState::Software(s) => BackendState::Software(
                SoftwareState { queues: (s.queues + 1) as u32, ..s },
            ),
            BackendState::Virtio(v) => self,
        }
    }

    /// Memory can be allocated.
    pub open spec fn offers_memory(self, size: usize, host: Option<u64>) -> bool {
        self is Software && 0 < size <= memory::max_alloc_size() && host is Some
    }

    /// Error where memory cannot be allocated.
    pub open spec fn memory_error(self, e: GpuError) -> bool {
        match self {
            BackendState::Software(s) => e is OutOfMemory,
            BackendState::Virtio(v) => if v.initialized {
                e.is_unsupported("VirtIO-GPU alloc not yet implemented"@)
            } else {
                e is DeviceNotFound
            },
        }
    }

    /// The GPU after memory was allocated at an address of the host.
    pub open spec fn after_allocate(self, start: u64, size: usize) -> BackendState {
        match self {
            BackendState::Software(s) => BackendState::Software(
                s.with_memory(s.machine.memory.allocated(start, size)),
            ),
            BackendState::Virtio(v) => self,
        }
    }

    /// Identifier of the next allocation.
    pub open spec fn next_alloc_id(self) -> u64 {
        match self {
            BackendState::Software(s) => s.machine.memory.next_id,
            BackendState::Virtio(v) => 0,
        }
    }

    /// `i` is the allocation with an identifier.
    pub open spec fn is_allocation(self, id: u64, i: int) -> bool {
        self matches BackendState::Software(s) && s.machine.memory.is_first_with(id, i)
    }

    /// The GPU after an allocation was freed.
    pub open spec fn after_free(self, i: int) -> BackendState {
        match self {
            BackendState::Software(s) => BackendState::Software(
                s.with_memory(s.machine.memory.freed(i)),
            ),
            BackendState::Virtio(v) => self,
        }
    }

    /// The GPU after a compute shader was dispatched.
    pub open spec fn after_dispatch(self, workgroups: Seq<u32>) -> BackendState {
        match self {
            BackendState::Software(s) => BackendState::Software(s.dispatched(workgroups)),
            BackendState::Virtio(v) => self,
        }
    }

    /// Error where a compute shader cannot be dispatched.
    pub open spec fn dispatch_error(self, e: GpuError) -> bool {
        match self {
            BackendState::Software(s) => e.is_invalid("workgroup dimensions must be > 0"@),
            BackendState::Virtio(v) => e.is_unsupported(
                if v.has_virgl {
                    "VirtIO-GPU compute not yet implemented"@
                } else {
                    "compute dispatch requires virgl/venus 3D support"@
                },
            ),
        }
    }

    /// The GPU after a buffer was copied to the screen.
    pub open spec fn after_blit(self) -> BackendState {
        match self {
            BackendState::Software(s) => self,
            BackendState::Virtio(v) => if v.initialized {
                BackendState::Virtio(v.signaled_once())
            } else {
                self
            },
        }
    }

    /// Error where a buffer cannot be copied to the screen.
    pub open spec fn blit_error(self, e: GpuError) -> bool {
        match self {
            BackendState::Software(s) => e.is_unsupported("blit_to_scanout not implemented"@),
            BackendState::Virtio(v) => e is DeviceNotFound,
        }
    }

    /// Error where a queue cannot be made.
    pub open spec fn queue_error(self, e: GpuError) -> bool {
        match self {
            BackendState::Software(s) => e.is_unsupported("max queues reached"@),
            BackendState::Virtio(v) => if v.initialized {
                e.is_unsupported("compute requires virgl/venus 3D support"@)
            } else {
                e is DeviceNotFound
            },
        }
    }

    /// Error where memory cannot be freed.
    pub open spec fn free_error(self, e: GpuError) -> bool {
        match self {
            BackendState::Software(s) => e.is_invalid("unknown allocation"@),
            BackendState::Virtio(v) => e.is_unsupported("VirtIO-GPU free not yet implemented"@),
        }
    }
}

impl GpuDevice for GpuBackend {
    open spec fn inv(&self) -> bool {
        match *self {
            GpuBackend::Software(d) => d.wf(),
            GpuBackend::Virtio(d) => d.wf(),
        }
    }

    open spec fn submissions(&self) -> Seq<Submission> {
        self@.log()
    }

    open spec fn signaled(&self, fence: FenceId) -> bool {
        self@.fences().done(fence)
    }

    open spec fn answers(&self, s: Submission, r: Result<FenceId, GpuError>, after: Self) -> bool {
        &&& if self@.accepts() {
            r == Ok::<FenceId, GpuError>(self@.fences().next_fence())
        } else {
            r matches Err(e) && e is DeviceNotFound
        }
        &&& after@ == self@.after_submit(s)
    }

    open spec fn label(&self) -> Seq<char> {
        match *self {
            GpuBackend::Software(_) => "MHC Software GPU"@,
            GpuBackend::Virtio(_) => "VirtIO-GPU"@,
        }
    }

    open spec fn host_ok(&self, size: usize, host: Option<u64>) -> bool {
        match *self {
            GpuBackend::Software(d) => d.host_ok(size, host),
            GpuBackend::Virtio(_) => true,
        }
    }

    fn name(&self) -> &'static str {
        match self {
            GpuBackend::Software(d) => d.name(),
            GpuBackend::Virtio(d) => d.name(),
        }
    }

    fn vendor(&self) -> (v: GpuVendor)
        ensures
            v == if self is Software {
                GpuVendor::Software
            } else {
                GpuVendor::VirtIO
            },
    {
        match self {
            GpuBackend::Software(d) => d.vendor(),
            GpuBackend::Virtio(d) => d.vendor(),
        }
    }

    fn capabilities(&self) -> (r: &GpuCapabilities)
        ensures
            match *self {
                GpuBackend::Software(_) => crate::mhc::drivers::software::is_software_caps(*r),
                GpuBackend::Virtio(d) => crate::mhc::drivers::virtio_gpu::is_virtio_caps(
                    *r,
                    d@.supports_compute,
                ),
            },
    {
        match self {
            GpuBackend::Software(d) => d.capabilities(),
            GpuBackend::Virtio(d) => d.capabilities(),
        }
    }

    fn create_queue(&mut self, kind: QueueKind) -> (r: Result<QueueHandle, GpuError>)
        ensures
            r is Ok <==> old(self)@.offers_queue(kind),
            r matches Ok(q) ==> q == old(self)@.next_queue() && final(self)@ == old(
                self,
            )@.after_create(),
            r matches Err(e) ==> old(self)@.queue_error(e) && final(self)@ == old(self)@,
    {
        match self {
            GpuBackend::Software(d) => d.create_queue(kind),
            GpuBackend::Virtio(d) => d.create_queue(kind),
        }
    }

    fn destroy_queue(&mut self, queue: QueueHandle) -> (r: Result<(), GpuError>)
        ensures
            r is Ok,
            final(self)@ == old(self)@,
    {
        match self {
            GpuBackend::Software(d) => d.destroy_queue(queue),
            GpuBackend::Virtio(d) => d.destroy_queue(queue),
        }
    }

    fn submit(&mut self, queue: QueueHandle, cmds: &CommandBuffer) -> (r: Result<FenceId, GpuError>)
        ensures
            r is Ok <==> old(self)@.accepts(),
            r matches Ok(f) ==> f == old(self)@.fences().next_fence(),
            r matches Err(e) ==> e is DeviceNotFound,
            final(self)@ == old(self)@.after_submit(Submission { queue, commands: cmds@.commands }),
    {
        match self {
            GpuBackend::Software(d) => d.submit(queue, cmds),
            GpuBackend::Virtio(d) => d.submit(queue, cmds),
        }
    }

    fn wait_fence(&self, fence: FenceId, timeout_ns: u64) -> Result<(), GpuError> {
        match self {
            GpuBackend::Software(d) => d.wait_fence(fence, timeout_ns),
            GpuBackend::Virtio(d) => d.wait_fence(fence, timeout_ns),
        }
    }

    fn poll_fence(&self, fence: FenceId) -> bool {
        match self {
            GpuBackend::Software(d) => d.poll_fence(fence),
            GpuBackend::Virtio(d) => d.poll_fence(fence),
        }
    }

    fn allocate(&mut self, size: usize, flags: GpuMemFlags, host: Option<u64>) -> (r: Result<
        GpuAllocation,
        GpuError,
    >)
        ensures
            r is Ok <==> old(self)@.offers_memory(size, host),
            r matches Ok(a) ==> a == (GpuAllocation {
                cpu_addr: host.unwrap(),
                gpu_addr: GpuAddress(host.unwrap()),
                size,
                flags,
                alloc_id: old(self)@.next_alloc_id(),
            }) && final(self)@ == old(self)@.after_allocate(host.unwrap(), size),
            r matches Err(e) ==> old(self)@.memory_error(e) && final(self)@ == old(self)@,
    {
        match self {
            GpuBackend::Software(d) => d.allocate(size, flags, host),
            GpuBackend::Virtio(d) => d.allocate(size, flags, host),
        }
    }

    fn free(&mut self, allocation: GpuAllocation) -> (r: Result<(), GpuError>)
        ensures
            r is Ok <==> exists|i: int| old(self)@.is_allocation(allocation.alloc_id, i),
            r is Ok ==> exists|i: int| #[trigger]
                old(self)@.is_allocation(allocation.alloc_id, i) && final(self)@ == old(
                    self,
                )@.after_free(i),
            r matches Err(e) ==> old(self)@.free_error(e) && final(self)@ == old(self)@,
    {
        let ghost before = self@;
        match self {
            GpuBackend::Software(d) => {
                let ghost mem = d@.machine.memory;
                let ghost s = d@;
                let r = d.free(allocation);
                proof {
                    if r is Ok {
                        let i = choose|i: int| #[trigger]
                            mem.is_first_with(allocation.alloc_id, i) && d@ == s.with_memory(
                                mem.freed(i),
                            );
                        assert(before.is_allocation(allocation.alloc_id, i));
                    } else {
                        assert forall|i: int| !before.is_allocation(allocation.alloc_id, i) by {
                            assert(!mem.is_first_with(allocation.alloc_id, i));
                        }
                    }
                }
                r
            },
            GpuBackend::Virtio(d) => d.free(allocation),
        }
    }

    fn dispatch_compute(
        &mut self,
        queue: QueueHandle,
        shader: &ShaderModule,
        workgroups: [u32; 3],
        bindings: &Vec<BufferBinding>,
    ) -> (r: Result<FenceId, GpuError>)
        ensures
            r is Ok <==> old(self)@ is Software && workgroups@[0] > 0 && workgroups@[1] > 0
                && workgroups@[2] > 0,
            r matches Ok(f) ==> f == old(self)@.fences().next_fence(),
            r matches Err(e) ==> old(self)@.dispatch_error(e),
            final(self)@ == old(self)@.after_dispatch(workgroups@),
    {
        match self {
            GpuBackend::Software(d) => d.dispatch_compute(queue, shader, workgroups, bindings),
            GpuBackend::Virtio(d) => d.dispatch_compute(queue, shader, workgroups, bindings),
        }
    }

    fn blit_to_scanout(
        &mut self,
        queue: QueueHandle,
        src: GpuAddress,
        src_stride: u32,
        src_width: u32,
        src_height: u32,
    ) -> (r: Result<FenceId, GpuError>)
        ensures
            r is Ok <==> (old(self)@ matches BackendState::Virtio(v) && v.initialized),
            r matches Ok(f) ==> f == old(self)@.fences().next_fence(),
            r matches Err(e) ==> old(self)@.blit_error(e),
            final(self)@ == old(self)@.after_blit(),
    {
        match self {
            GpuBackend::Software(d) => d.blit_to_scanout(
                queue,
                src,
                src_stride,
                src_width,
                src_height,
            ),
            GpuBackend::Virtio(d) => d.blit_to_scanout(
                queue,
                src,
                src_stride,
                src_width,
                src_height,
            ),
        }
    }
}

/// The software device takes all work, offers sixteen queues, numbered from zero, and memory;
/// a virtual one takes work once it is up, offers one queue, for compute work only with
/// three-dimensional support, and no memory.
pub proof fn devices_offer_what_they_have(
    d: BackendState,
    kind: QueueKind,
    size: usize,
    host: Option<u64>,
)
    ensures
        d matches BackendState::Software(s) ==> {
            &&& d.accepts()
            &&& d.offers_queue(kind) <==> s.queues <= 15
            &&& d.next_queue().0 == s.queues
            &&& s.queues <= 15 ==> (d.after_create() matches BackendState::Software(a) && a.queues
                == s.queues + 1 && a.machine == s.machine && a.log == s.log)
            &&& d.offers_memory(size, host) <==> 1 <= size <= isize::MAX - 15 && host is Some
        },
        d matches BackendState::Virtio(v) ==> {
            &&& d.accepts() <==> v.initialized
            &&& d.offers_queue(kind) <==> v.initialized && (v.has_virgl || !(kind is Compute))
            &&& d.next_queue().0 == 0
            &&& d.after_create() == d
            &&& !d.offers_memory(size, host)
        },
{
    memory::regions_are_numbered_from_one(memory::MemoryState::fresh(), 0, 0);
}

/// A submission is recorded, and done at once on a virtual device that is up.
pub proof fn submission_is_recorded(d: BackendState, sub: Submission)
    ensures
        d.after_submit(sub).log() == d.log().push(sub),
        d matches BackendState::Virtio(v) && !v.initialized ==> d.after_submit(sub).fences()
            == d.fences(),
        d matches BackendState::Virtio(v) && v.initialized && v.fences.next_local
            < 0x1_0000_0000_0000 ==> d.after_submit(sub).fences().done(d.fences().next_fence()),
        d.after_blit().log() == d.log(),
        d is Software ==> d.after_blit() == d,
{
    if let BackendState::Virtio(v) = d {
        if v.fences.next_local < 0x1_0000_0000_0000 {
            crate::mhc::fence::fence_is_done_once_signaled(v.fences);
        }
    }
}

/// What a device answers to a request that it cannot serve.
pub proof fn devices_refuse_with_their_reason(d: BackendState, e: GpuError)
    ensures
        d is Software && d.queue_error(e) ==> (e matches GpuError::Unsupported(s) && s@
            == "max queues reached"@),
        d is Software && d.memory_error(e) ==> e is OutOfMemory,
        d is Software && d.free_error(e) ==> (e matches GpuError::InvalidParameter(s) && s@
            == "unknown allocation"@),
        d is Software && d.dispatch_error(e) ==> (e matches GpuError::InvalidParameter(s) && s@
            == "workgroup dimensions must be > 0"@),
        d is Software && d.blit_error(e) ==> (e matches GpuError::Unsupported(s) && s@
            == "blit_to_scanout not implemented"@),
        d matches BackendState::Virtio(v) && !v.initialized && (d.queue_error(e) || d.memory_error(
            e,
        )) ==> e is DeviceNotFound,
        d matches BackendState::Virtio(v) && v.initialized && (d.queue_error(e) || d.memory_error(e))
            ==> e is Unsupported,
        d is Virtio && d.blit_error(e) ==> e is DeviceNotFound,
        d is Virtio && (d.free_error(e) || d.dispatch_error(e)) ==> e is Unsupported,
{
}

/// Memory and dispatches go to the software device as they are; a virtual one is not changed
/// by them.
pub proof fn memory_is_the_software_devices(
    d: BackendState,
    start: u64,
    size: usize,
    i: int,
    workgroups: Seq<u32>,
)
    ensures
        d is Virtio ==> d.after_allocate(start, size) == d && d.after_free(i) == d
            && d.after_dispatch(workgroups) == d,
        d matches BackendState::Software(s) ==> {
            &&& d.next_alloc_id() == s.machine.memory.next_id
            &&& (d.after_allocate(start, size) matches BackendState::Software(a)
                && a.machine.memory == s.machine.memory.allocated(start, size) && a.machine.fences
                == s.machine.fences && a.queues == s.queues && a.log == s.log)
            &&& (d.after_free(i) matches BackendState::Software(a) && a.machine.memory
                == s.machine.memory.freed(i) && a.machine.fences == s.machine.fences && a.queues
                == s.queues && a.log == s.log)
            &&& d.after_dispatch(workgroups) == BackendState::Software(s.dispatched(workgroups))
        },
{
}

} // verus!
