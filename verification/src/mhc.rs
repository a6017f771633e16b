//! Mai heterogeneous compute: GPU devices, their memory, queues and scheduling.

pub mod backend;
pub mod command;
pub mod device;
pub mod drivers;
pub mod fence;
pub mod memory;
pub mod plugin;
pub mod queue;
pub mod scheduler;
pub mod shader;
pub mod task;

use crate::mhc::backend::{BackendState, GpuBackend};
use crate::mhc::command::CommandBuffer;
use crate::mhc::device::{DeviceRegistry, GpuDevice, GpuError, QueueHandle, QueueKind, Submission};
use crate::mhc::drivers::software::SoftwareGpuDevice;
use crate::mhc::drivers::virtio_gpu::display::VirtioScanout;
use crate::mhc::drivers::virtio_gpu::VirtioGpuDevice;
use crate::mhc::fence::FenceId;
use crate::mhc::memory::{GpuAddress, GpuAllocation, GpuMemFlags};
use crate::mhc::queue::GpuPriority;
use crate::mhc::scheduler::{GpuRunQueueState, PerGpuRunQueue};
use vstd::prelude::*;

verus! {

/// What the subsystem holds.
#[verifier::ext_equal]
pub struct MhcView {
    /// Devices. The first is the primary one.
    pub devices: Seq<BackendState>,
    /// Default queue of the primary device.
    pub default_queue: QueueHandle,
    /// Run queues, one for each device.
    pub run_queues: Seq<GpuRunQueueState>,
    /// Display.
    pub display: Option<VirtioScanout>,
}

impl MhcView {
    /// The subsystem with another state of the primary device.
    pub open spec fn with_primary(self, d: BackendState) -> MhcView {
        MhcView { devices: self.devices.update(0, d), ..self }
    }
}

/// The subsystem.
pub struct MhcState {
    registry: DeviceRegistry<GpuBackend>,
    default_queue: QueueHandle,
    gpu_run_queues: Vec<PerGpuRunQueue>,
    display_scanout: Option<VirtioScanout>,
}

impl View for MhcState {
    type V = MhcView;

    closed spec fn view(&self) -> MhcView {
        MhcView {
            devices: Seq::new(self.registry@.len(), |i: int| self.registry@[i]@),
            default_queue: self.default_queue,
            run_queues: Seq::new(
                self.gpu_run_queues@.len(),
                |i: int| self.gpu_run_queues@[i]@,
            ),
            display: self.display_scanout,
        }
    }
}

/// The devices in the order of their registration: the virtual GPU comes first if
/// there is one.
pub open spec fn device_list(virtio: Option<VirtioGpuDevice>, software: SoftwareGpuDevice) -> Seq<
    BackendState,
> {
    match virtio {
        Some(v) => seq![BackendState::Virtio(v@), BackendState::Software(software@)],
        None => seq![BackendState::Software(software@)],
    }
}

/// Sets the subsystem up: registers the virtual GPU, if there is one, and the emulated
/// one, makes a queue of the primary device, and a run queue for each.
pub fn init(virtio: Option<VirtioGpuDevice>, software: SoftwareGpuDevice) -> (r: Result<
    MhcState,
    &'static str,
>)
    requires
        software.wf(),
        virtio matches Some(v) ==> v.wf(),
    ensures
        ({
            let devices = device_list(virtio, software);
            let universal = devices[0].offers_queue(QueueKind::Universal);
            let compute = devices[0].offers_queue(QueueKind::Compute);
            &&& r is Ok <==> universal || compute
            &&& r matches Err(e) ==> e@ == "MHC: failed to create default queue"@
            &&& r matches Ok(m) ==> m.wf() && m@ == (MhcView {
                devices: devices.update(0, devices[0].after_create()),
                default_queue: devices[0].next_queue(),
                run_queues: Seq::new(
                    devices.len(),
                    |i: int| GpuRunQueueState::fresh(i as usize),
                ),
                display: None,
            })
        }),
{
    let ghost devices = device_list(virtio, software);
    let mut registry: DeviceRegistry<GpuBackend> = DeviceRegistry::new();
    if let Some(v) = virtio {
        registry.register_device(GpuBackend::Virtio(v));
    }
    registry.register_device(GpuBackend::Software(software));
    assert(devices =~= Seq::new(registry@.len(), |i: int| registry@[i]@));
    let num_devices: usize = registry.device_count();
    let ghost before = registry@;
    let queue: Result<QueueHandle, GpuError> = match registry.primary_device() {
        None => {
            return Err("MHC: no GPU device registered");
        },
        Some(primary) => match primary.create_queue(QueueKind::Universal) {
            Ok(q) => Ok(q),
            Err(_) => primary.create_queue(QueueKind::Compute),
        },
    };
    let default_queue = match queue {
        Ok(q) => q,
        Err(_) => {
            return Err("MHC: failed to create default queue");
        },
    };
    let mut run_queues: Vec<PerGpuRunQueue> = Vec::with_capacity(num_devices);
    let mut i: usize = 0;
    while i < num_devices
        invariant
            i <= num_devices,
            run_queues@.len() == i,
            forall|k: int|
                0 <= k < i ==> (#[trigger] run_queues@[k])@ == GpuRunQueueState::fresh(k as usize)
                    && run_queues@[k].compute_rq.wf(),
        decreases num_devices - i,
    {
        run_queues.push(PerGpuRunQueue::new(i));
        i += 1;
    }
    let m = MhcState {
        registry,
        default_queue,
        gpu_run_queues: run_queues,
        display_scanout: None,
    };
    assert(m@.devices =~= devices.update(0, devices[0].after_create()));
    assert(m@.run_queues =~= Seq::new(
        devices.len(),
        |i: int| GpuRunQueueState::fresh(i as usize),
    ));
    Ok(m)
}

/// Whether the subsystem has been set up.
pub fn is_initialized(mhc: &Option<MhcState>) -> (r: bool)
    ensures
        r == (*mhc is Some),
{
    mhc.is_some()
}

impl MhcState {
    /// There is a primary device, and all devices are in order.
    pub closed spec fn wf(&self) -> bool {
        &&& self.registry.wf()
        &&& self.registry@.len() > 0
        &&& forall|i: int| 0 <= i < self.registry@.len() ==> (#[trigger] self.registry@[i]).inv()
        &&& forall|i: int|
            0 <= i < self.gpu_run_queues@.len() ==> (#[trigger] self.gpu_run_queues@[i]).compute_rq.wf()
    }

    /// The host can provide memory of the primary device at this address.
    pub closed spec fn host_ok(&self, size: usize, host: Option<u64>) -> bool {
        self.registry@[0].host_ok(size, host)
    }

    /// Without an address nothing is asked of the host.
    pub proof fn no_address_is_ok(&self, size: usize)
        ensures
            self.host_ok(size, None),
    {
    }

    /// Gives access to the primary device.
    pub fn primary(&mut self) -> (r: &mut GpuBackend)
        requires
            old(self).wf(),
        ensures
            r@ == old(self)@.devices[0],
            r.inv(),
            forall|size: usize, host: Option<u64>|
                old(self).host_ok(size, host) == #[trigger] r.host_ok(size, host),
            final(r).inv() ==> final(self).wf(),
            final(self)@ == old(self)@.with_primary(final(r)@),
    {
        let ghost before = self.registry@;
        let ghost view = self@;
        let r = self.registry.primary_device().unwrap();
        assert(view.with_primary(final(r)@).devices =~= Seq::new(
            before.len(),
            |i: int| before.update(0, *final(r))[i]@,
        ));
        r
    }

    /// Allocates memory of the primary device.
    pub fn allocate(&mut self, size: usize, flags: GpuMemFlags, host: Option<u64>) -> (r: Result<
        GpuAllocation,
        GpuError,
    >)
        requires
            old(self).wf(),
            old(self).host_ok(size, host),
        ensures
            final(self).wf(),
            r is Ok <==> old(self)@.devices[0].offers_memory(size, host),
            r matches Ok(a) ==> a == (GpuAllocation {
                cpu_addr: host.unwrap(),
                gpu_addr: GpuAddress(host.unwrap()),
                size,
                flags,
                alloc_id: old(self)@.devices[0].next_alloc_id(),
            }) && final(self)@ == old(self)@.with_primary(
                old(self)@.devices[0].after_allocate(host.unwrap(), size),
            ),
            r matches Err(e) ==> old(self)@.devices[0].memory_error(e) && final(self)@ == old(
                self,
            )@,
    {
        let r = self.primary().allocate(size, flags, host);
        assert(old(self)@.with_primary(old(self)@.devices[0]) =~= old(self)@);
        r
    }

    /// Frees memory of the primary device.
    pub fn free(&mut self, allocation: GpuAllocation) -> (r: Result<(), GpuError>)
        requires
            old(self).wf(),
        ensures
            final(self).wf(),
            r is Ok <==> exists|i: int|
                old(self)@.devices[0].is_allocation(allocation.alloc_id, i),
            r is Ok ==> exists|i: int| #[trigger]
                old(self)@.devices[0].is_allocation(allocation.alloc_id, i) && final(self)@
                    == old(self)@.with_primary(old(self)@.devices[0].after_free(i)),
            r matches Err(e) ==> old(self)@.devices[0].free_error(e) && final(self)@ == old(self)@,
    {
        let r = self.primary().free(allocation);
        assert(old(self)@.with_primary(old(self)@.devices[0]) =~= old(self)@);
        r
    }

    /// Submits a command buffer to the default queue of the primary device.
    pub fn submit(&mut self, cmds: &CommandBuffer, _priority: GpuPriority) -> (r: Result<
        FenceId,
        GpuError,
    >)
        requires
            old(self).wf(),
        ensures
            final(self).wf(),
            r is Ok <==> old(self)@.devices[0].accepts(),
            r matches Ok(f) ==> f == old(self)@.devices[0].fences().next_fence(),
            r matches Err(e) ==> e is DeviceNotFound,
            final(self)@ == old(self)@.with_primary(
                old(self)@.devices[0].after_submit(
                    Submission { queue: old(self)@.default_queue, commands: cmds@.commands },
                ),
            ),
    {
        let queue = self.default_queue;
        self.primary().submit(queue, cmds)
    }

    /// Waits for a fence of the primary device.
    pub fn wait(&mut self, fence: FenceId) -> (r: Result<(), GpuError>)
        requires
            old(self).wf(),
        ensures
            final(self).wf(),
            final(self)@ == old(self)@,
            r is Ok <==> old(self)@.devices[0].fences().done(fence),
            r matches Err(e) ==> e is Timeout,
    {
        self.wait_timeout(fence, u64::MAX)
    }

    /// Waits for a fence of the primary device, but not longer than a time.
    pub fn wait_timeout(&mut self, fence: FenceId, timeout_ns: u64) -> (r: Result<(), GpuError>)
        requires
            old(self).wf(),
        ensures
            final(self).wf(),
            final(self)@ == old(self)@,
            r is Ok <==> old(self)@.devices[0].fences().done(fence),
            r matches Err(e) ==> e is Timeout,
    {
        let r = self.primary().wait_fence(fence, timeout_ns);
        assert(old(self)@.with_primary(old(self)@.devices[0]) =~= old(self)@);
        r
    }

    /// Whether a fence of the primary device is signaled.
    pub fn poll(&mut self, fence: FenceId) -> (r: bool)
        requires
            old(self).wf(),
        ensures
            final(self).wf(),
            final(self)@ == old(self)@,
            r == old(self)@.devices[0].fences().done(fence),
    {
        let r = self.primary().poll_fence(fence);
        assert(old(self)@.with_primary(old(self)@.devices[0]) =~= old(self)@);
        r
    }

    /// Gives access to the device with an identifier.
    pub fn gpu(&mut self, id: usize) -> (r: Option<&mut GpuBackend>)
        requires
            old(self).wf(),
        ensures
            match r {
                Some(d) => {
                    &&& id < old(self)@.devices.len()
                    &&& d@ == old(self)@.devices[id as int]
                    &&& d.inv()
                    &&& final(d).inv() ==> final(self).wf()
                    &&& final(self)@ == (MhcView {
                        devices: old(self)@.devices.update(id as int, final(d)@),
                        ..old(self)@
                    })
                },
                None => id >= old(self)@.devices.len() && final(self).wf() && final(self)@ == old(
                    self,
                )@,
            },
    {
        let ghost before = self.registry@;
        let ghost view = self@;
        match self.registry.get_device(id) {
            Some(d) => {
                assert(view.devices.update(id as int, final(d)@) =~= Seq::new(
                    before.len(),
                    |i: int| before.update(id as int, *final(d))[i]@,
                ));
                Some(d)
            },
            None => None,
        }
    }

    /// Number of devices.
    pub fn gpu_count(&self) -> (n: usize)
        ensures
            n == self@.devices.len(),
    {
        self.registry.device_count()
    }

    /// Takes note of a display that has been set up.
    pub fn set_display(&mut self, scanout: VirtioScanout)
        requires
            old(self).wf(),
        ensures
            final(self).wf(),
            final(self)@ == (MhcView { display: Some(scanout), ..old(self)@ }),
    {
        self.display_scanout = Some(scanout);
    }
}

/// Whether a display can be set up: the subsystem has to be, and there has to be a
/// virtual GPU.
pub fn setup_display(mhc: &Option<MhcState>, has_device: bool) -> (r: Result<(), &'static str>)
    ensures
        r is Ok <==> *mhc is Some && has_device,
        r matches Err(e) ==> e@ == if *mhc is None {
            "MHC not initialized"@
        } else {
            "MHC: VirtIO-GPU device not found"@
        },
{
    if mhc.is_none() {
        return Err("MHC not initialized");
    }
    if !has_device {
        return Err("MHC: VirtIO-GPU device not found");
    }
    Ok(())
}

/// The display to show an image of a size on. `None` if there is no display of that
/// size or no virtual GPU.
pub fn flush_display(mhc: &Option<MhcState>, has_device: bool, width: u32, height: u32) -> (r:
    Option<VirtioScanout>)
    ensures
        r == match *mhc {
            Some(m) => match m@.display {
                Some(s) => if s.width == width && s.height == height && has_device {
                    Some(s)
                } else {
                    None
                },
                None => None,
            },
            None => None,
        },
{
    match mhc {
        None => None,
        Some(m) => match m.display_scanout {
            None => None,
            Some(s) => if s.width == width && s.height == height && has_device {
                Some(s)
            } else {
                None
            },
        },
    }
}

/// Whether a display has been set up.
pub fn has_display(mhc: &Option<MhcState>) -> (r: bool)
    ensures
        r == (*mhc matches Some(m) && m@.display is Some),
{
    match mhc {
        Some(m) => m.display_scanout.is_some(),
        None => false,
    }
}

/// A virtual device, if there is one, is the first and so the primary one; the software
/// device is always there, and the last.
pub proof fn software_device_comes_last(virtio: Option<VirtioGpuDevice>, software: SoftwareGpuDevice)
    ensures
        ({
            let d = device_list(virtio, software);
            &&& d.last() == BackendState::Software(software@)
            &&& virtio matches Some(v) ==> d.len() == 2 && d[0] == BackendState::Virtio(v@)
            &&& virtio is None ==> d.len() == 1
        }),
{
}

/// A change of the primary device leaves the others, and all that is not a device.
pub proof fn primary_device_changes_alone(m: MhcView, d: BackendState, i: int)
    requires
        0 <= i < m.devices.len(),
    ensures
        ({
            let n = m.with_primary(d);
            &&& n.devices.len() == m.devices.len()
            &&& n.devices[0] == d
            &&& i > 0 ==> n.devices[i] == m.devices[i]
            &&& n == (MhcView { devices: n.devices, ..m })
        }),
{
}

} // verus!
