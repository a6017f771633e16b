//! GPU devices and their registry.

pub mod shader_formats;

use crate::mhc::command::{CommandBuffer, GpuCommand};
use crate::mhc::fence::FenceId;
use crate::mhc::memory::{GpuAddress, GpuAllocation, GpuMemFlags};
use crate::mhc::shader::ShaderModule;
use vstd::prelude::*;
use vstd::string::StringExecFns;

verus! {

/// Errors of the GPU subsystem.
#[derive(Clone, Copy, Debug)]
pub enum GpuError {
    /// There is no such device, or it is not set up.
    DeviceNotFound,
    /// Out of memory.
    OutOfMemory,
    /// A parameter is not valid.
    InvalidParameter(&'static str),
    /// The device does not support the operation.
    Unsupported(&'static str),
    /// A wait timed out.
    Timeout,
    /// The device is lost.
    DeviceLost,
    /// A shader is not valid.
    ShaderError(&'static str),
    /// A submission failed.
    SubmissionFailed,
    /// Internal error of a driver.
    DriverError(&'static str),
}

impl GpuError {
    /// The operation is not supported, for the given reason.
    pub open spec fn is_unsupported(self, why: Seq<char>) -> bool {
        self matches GpuError::Unsupported(s) && s@ == why
    }

    /// A parameter is not valid, for the given reason.
    pub open spec fn is_invalid(self, why: Seq<char>) -> bool {
        self matches GpuError::InvalidParameter(s) && s@ == why
    }
}

/// Vendor of a GPU.
#[derive(Clone, Copy, Debug, PartialEq, Eq, Structural)]
pub enum GpuVendor {
    /// Virtual GPU.
    VirtIO,
    /// Emulation on the CPU.
    Software,
    Intel,
    Amd,
    Nvidia,
    Unknown(u16),
}

/// A set of shader formats.
#[derive(Clone, Copy, Debug, PartialEq, Eq, Structural)]
pub struct ShaderFormats {
    /// Union of the formats.
    pub bits: u32,
}

/// Capabilities of a device.
#[derive(Clone, Copy, Debug)]
pub struct GpuCapabilities {
    /// Greatest size of a workgroup in each dimension.
    pub max_workgroup_size: [u32; 3],
    /// Greatest number of invocations of a workgroup.
    pub max_workgroup_invocations: u32,
    /// Greatest shared memory of a workgroup in bytes.
    pub max_shared_memory: usize,
    /// Compute shaders can be dispatched.
    pub supports_compute: bool,
    /// Graphics can be rendered.
    pub supports_graphics: bool,
    /// CPU and GPU share an address space.
    pub supports_unified_memory: bool,
    /// Greatest number of queues.
    pub max_queues: u32,
    /// Shader formats.
    pub shader_formats: ShaderFormats,
    /// Number of compute units.
    pub compute_units: u32,
    /// Memory of the device in bytes.
    pub device_memory_bytes: u64,
}

impl Default for GpuCapabilities {
    fn default() -> (c: Self)
        ensures
            c.max_workgroup_size@ == seq![256u32, 256u32, 64u32],
            c.max_workgroup_invocations == 256,
            c.max_shared_memory == 32768,
            c.supports_compute,
            !c.supports_graphics,
            c.supports_unified_memory,
            c.max_queues == 4,
            c.shader_formats.bits == shader_formats::SPIRV,
            c.compute_units == 1,
            c.device_memory_bytes == 0,
    {
        let c = GpuCapabilities {
            max_workgroup_size: [256, 256, 64],
            max_workgroup_invocations: 256,
            max_shared_memory: 32768,
            supports_compute: true,
            supports_graphics: false,
            supports_unified_memory: true,
            max_queues: 4,
            shader_formats: ShaderFormats { bits: shader_formats::SPIRV },
            compute_units: 1,
            device_memory_bytes: 0,
        };
        assert(c.max_workgroup_size@ =~= seq![256u32, 256u32, 64u32]);
        c
    }
}

/// A queue of a device.
#[derive(Clone, Copy, Debug, PartialEq, Eq, Structural)]
pub struct QueueHandle(pub u32);

/// Kind of work that a queue executes.
#[derive(Clone, Copy, Debug, PartialEq, Eq, Structural)]
pub enum QueueKind {
    /// Compute shaders.
    Compute,
    /// Graphics.
    Graphics,
    /// Transfers.
    Transfer,
    /// All of them.
    Universal,
}

/// A buffer for a shader.
#[derive(Clone, Copy, Debug, PartialEq, Eq, Structural)]
pub struct BufferBinding {
    /// Slot.
    pub binding: u32,
    /// Address.
    pub address: GpuAddress,
    /// Size in bytes.
    pub size: usize,
    /// The shader writes to it.
    pub writable: bool,
}

/// A command buffer that a queue was given.
pub struct Submission {
    /// Queue.
    pub queue: QueueHandle,
    /// Commands.
    pub commands: Seq<GpuCommand>,
}

/// A GPU.
pub trait GpuDevice: Sized {
    /// The device is in order.
    spec fn inv(&self) -> bool;

    /// Every command buffer that the device was given, in order.
    spec fn submissions(&self) -> Seq<Submission>;

    /// The fence is signaled.
    spec fn signaled(&self, fence: FenceId) -> bool;

    /// The device answers a submission with `r` and then is `after`.
    spec fn answers(&self, s: Submission, r: Result<FenceId, GpuError>, after: Self) -> bool;

    /// Name of the device.
    spec fn label(&self) -> Seq<char>;

    /// Name of the device.
    fn name(&self) -> (r: &'static str)
        ensures
            r@ == self.label(),
    ;

    /// Vendor of the device.
    fn vendor(&self) -> GpuVendor;

    /// Capabilities of the device.
    fn capabilities(&self) -> (r: &GpuCapabilities)
        requires
            self.inv(),
    ;

    /// Makes a queue.
    fn create_queue(&mut self, kind: QueueKind) -> (r: Result<QueueHandle, GpuError>)
        requires
            old(self).inv(),
        ensures
            final(self).inv(),
            final(self).submissions() == old(self).submissions(),
            final(self).label() == old(self).label(),
    ;

    /// Gives a queue up.
    fn destroy_queue(&mut self, queue: QueueHandle) -> (r: Result<(), GpuError>)
        requires
            old(self).inv(),
        ensures
            final(self).inv(),
            final(self).submissions() == old(self).submissions(),
            final(self).label() == old(self).label(),
    ;

    /// Gives a command buffer to a queue. The fence is signaled when it is executed.
    fn submit(&mut self, queue: QueueHandle, cmds: &CommandBuffer) -> (r: Result<FenceId, GpuError>)
        requires
            old(self).inv(),
        ensures
            final(self).inv(),
            final(self).submissions() == old(self).submissions().push(
                Submission { queue, commands: cmds@.commands },
            ),
            old(self).answers(Submission { queue, commands: cmds@.commands }, r, *final(self)),
            final(self).label() == old(self).label(),
    ;

    /// Waits for a fence.
    fn wait_fence(&self, fence: FenceId, timeout_ns: u64) -> (r: Result<(), GpuError>)
        requires
            self.inv(),
        ensures
            r is Ok <==> self.signaled(fence),
            r matches Err(e) ==> e is Timeout,
    ;

    /// Whether a fence is signaled.
    fn poll_fence(&self, fence: FenceId) -> (r: bool)
        requires
            self.inv(),
        ensures
            r == self.signaled(fence),
    ;

    /// The host can provide memory at this address: where memory of the device would
    /// lie in host memory.
    spec fn host_ok(&self, size: usize, host: Option<u64>) -> bool;

    /// Allocates memory. Where memory of the device lies in host memory, the host
    /// says at which address.
    fn allocate(&mut self, size: usize, flags: GpuMemFlags, host: Option<u64>) -> (r: Result<
        GpuAllocation,
        GpuError,
    >)
        requires
            old(self).inv(),
            old(self).host_ok(size, host),
        ensures
            final(self).inv(),
            final(self).submissions() == old(self).submissions(),
            final(self).label() == old(self).label(),
    ;

    /// Frees memory.
    fn free(&mut self, allocation: GpuAllocation) -> (r: Result<(), GpuError>)
        requires
            old(self).inv(),
        ensures
            final(self).inv(),
            final(self).submissions() == old(self).submissions(),
            final(self).label() == old(self).label(),
    ;

    /// Makes host memory visible to the GPU.
    fn map_host_memory(&mut self, _host_phys: u64, _size: usize, _flags: GpuMemFlags) -> (r: Result<
        GpuAddress,
        GpuError,
    >)
        requires
            old(self).inv(),
        ensures
            final(self).inv(),
            final(self).submissions() == old(self).submissions(),
            final(self).label() == old(self).label(),
        default_ensures
            r matches Err(e) && e.is_unsupported("map_host_memory not implemented"@),
            *final(self) == *old(self),
    {
        Err(GpuError::Unsupported("map_host_memory not implemented"))
    }

    /// Undoes `map_host_memory`.
    fn unmap_host_memory(&mut self, _addr: GpuAddress) -> (r: Result<(), GpuError>)
        requires
            old(self).inv(),
        ensures
            final(self).inv(),
            final(self).submissions() == old(self).submissions(),
            final(self).label() == old(self).label(),
        default_ensures
            r matches Err(e) && e.is_unsupported("unmap_host_memory not implemented"@),
            *final(self) == *old(self),
    {
        Err(GpuError::Unsupported("unmap_host_memory not implemented"))
    }

    /// Runs a compute shader.
    fn dispatch_compute(
        &mut self,
        queue: QueueHandle,
        shader: &ShaderModule,
        workgroups: [u32; 3],
        bindings: &Vec<BufferBinding>,
    ) -> (r: Result<FenceId, GpuError>)
        requires
            old(self).inv(),
        ensures
            final(self).inv(),
            final(self).submissions() == old(self).submissions(),
            final(self).label() == old(self).label(),
    ;

    /// Copies a buffer to the screen.
    fn blit_to_scanout(
        &mut self,
        _queue: QueueHandle,
        _src: GpuAddress,
        _src_stride: u32,
        _src_width: u32,
        _src_height: u32,
    ) -> (r: Result<FenceId, GpuError>)
        requires
            old(self).inv(),
        ensures
            final(self).inv(),
            final(self).submissions() == old(self).submissions(),
            final(self).label() == old(self).label(),
        default_ensures
            r matches Err(e) && e.is_unsupported("blit_to_scanout not implemented"@),
            *final(self) == *old(self),
    {
        Err(GpuError::Unsupported("blit_to_scanout not implemented"))
    }
}

/// A registered device.
pub struct DeviceEntry<D> {
    pub id: usize,
    pub device: D,
}

/// The registered devices, in the order of their registration.
pub struct DeviceRegistry<D> {
    devices: Vec<DeviceEntry<D>>,
    next_id: usize,
}

impl<D> View for DeviceRegistry<D> {
    type V = Seq<D>;

    closed spec fn view(&self) -> Seq<D> {
        Seq::new(self.devices@.len(), |i: int| self.devices@[i].device)
    }
}

impl<D: GpuDevice> DeviceRegistry<D> {
    /// The identifier of a device is its position.
    pub closed spec fn wf(&self) -> bool {
        &&& self.next_id == self.devices@.len()
        &&& forall|i: int| 0 <= i < self.devices@.len() ==> (#[trigger] self.devices@[i]).id == i
    }

    /// A registry without devices.
    pub fn new() -> (r: Self)
        ensures
            r.wf(),
            r@ == Seq::<D>::empty(),
    {
        let r = DeviceRegistry { devices: Vec::new(), next_id: 0 };
        assert(r@ =~= Seq::empty());
        r
    }

    /// Registers a device and returns its identifier.
    pub fn register_device(&mut self, device: D) -> (id: usize)
        requires
            old(self).wf(),
            old(self)@.len() < usize::MAX,
        ensures
            final(self).wf(),
            id == old(self)@.len(),
            final(self)@ == old(self)@.push(device),
    {
        let id: usize = self.next_id;
        self.devices.push(DeviceEntry { id, device });
        self.next_id = self.next_id + 1;
        assert(self@ =~= old(self)@.push(device));
        id
    }

    /// The device with an identifier.
    pub fn get_device(&mut self, id: usize) -> (r: Option<&mut D>)
        requires
            old(self).wf(),
        ensures
            final(self).wf(),
            match r {
                Some(d) => id < old(self)@.len() && *d == old(self)@[id as int] && final(self)@
                    == old(self)@.update(id as int, *final(d)),
                None => id >= old(self)@.len() && final(self)@ == old(self)@,
            },
    {
        let ghost before = self@;
        let ghost n = self.devices@.len();
        let mut i: usize = 0;
        while i < self.devices.len() && self.devices[i].id != id
            invariant
                i <= self.devices@.len(),
                *self == *old(self),
                self.wf(),
                i <= id,
            decreases self.devices@.len() - i,
        {
            i += 1;
        }
        if i < self.devices.len() {
            let d = &mut self.devices[i].device;
            assert(before.update(id as int, *final(d)) =~= Seq::new(
                n,
                |k: int|
                    if k == id {
                        *final(d)
                    } else {
                        before[k]
                    },
            ));
            Some(d)
        } else {
            None
        }
    }

    /// The device that was registered first.
    pub fn primary_device(&mut self) -> (r: Option<&mut D>)
        requires
            old(self).wf(),
        ensures
            final(self).wf(),
            match r {
                Some(d) => old(self)@.len() > 0 && *d == old(self)@[0] && final(self)@ == old(
                    self,
                )@.update(0, *final(d)),
                None => old(self)@.len() == 0 && final(self)@ == old(self)@,
            },
    {
        self.get_device(0)
    }

    /// Number of devices.
    pub fn device_count(&self) -> (n: usize)
        ensures
            n == self@.len(),
    {
        self.devices.len()
    }

    /// Identifiers and names of all devices.
    pub fn list_devices(&self) -> (r: Vec<(usize, String)>)
        requires
            self.wf(),
        ensures
            r@.len() == self@.len(),
            forall|i: int|
                0 <= i < r@.len() ==> (#[trigger] r@[i]).0 == i && r@[i].1@ == self@[i].label(),
    {
        let mut r: Vec<(usize, String)> = Vec::new();
        let mut i: usize = 0;
        while i < self.devices.len()
            invariant
                i <= self.devices@.len(),
                self.wf(),
                r@.len() == i,
                forall|k: int|
                    0 <= k < i ==> (#[trigger] r@[k]).0 == k && r@[k].1@ == self@[k].label(),
            decreases self.devices@.len() - i,
        {
            assert(self@[i as int] == self.devices@[i as int].device);
            let name = String::from_str(self.devices[i].device.name());
            r.push((self.devices[i].id, name));
            i += 1;
        }
        r
    }
}

} // verus!
