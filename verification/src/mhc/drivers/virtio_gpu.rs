//! Driver of a virtual GPU.

pub mod display;
pub mod probe;
pub mod protocol;
pub mod virtqueue;

use crate::mhc::command::CommandBuffer;
use crate::mhc::device::{
    BufferBinding, GpuCapabilities, GpuDevice, GpuError, GpuVendor, QueueHandle, QueueKind,
    ShaderFormats, Submission,
};
use crate::mhc::drivers::virtio_gpu::display::{
    begin_update, continue_update, DisplaySetup, SetupAction, SetupEvent, UpdateAction,
    UpdateStage, VirtioScanout,
};
use crate::mhc::drivers::virtio_gpu::probe::{
    Probe, ProbeAction, ProbeEvent, ProbeStage, VIRTIO_GPU_F_RESOURCE_BLOB, VIRTIO_GPU_F_VIRGL,
};
use crate::mhc::drivers::virtio_gpu::virtqueue::{poll_used, PollStep, VirtioHwState};
use crate::mhc::fence::{FenceId, FencePool, FencePoolState};
use crate::mhc::memory::{GpuAddress, GpuAllocation, GpuMemFlags};
use crate::mhc::shader::ShaderModule;
use vstd::prelude::*;

verus! {

/// What the device holds.
#[verifier::ext_equal]
pub struct VirtioState {
    /// Fences.
    pub fences: FencePoolState,
    /// The device is up.
    pub initialized: bool,
    /// Number of scanouts.
    pub num_scanouts: u32,
    /// The device renders in three dimensions.
    pub has_virgl: bool,
    /// Resources can be blobs.
    pub has_blob: bool,
    /// Compute shaders can be dispatched.
    pub supports_compute: bool,
    /// The queue of a device that is up.
    pub hw: Option<VirtioHwState>,
    /// Command buffers that were submitted.
    pub log: Seq<Submission>,
}

impl VirtioState {
    /// A device that is not up yet.
    pub open spec fn fresh() -> VirtioState {
        VirtioState {
            fences: FencePoolState::fresh(1),
            initialized: false,
            num_scanouts: 0,
            has_virgl: false,
            has_blob: false,
            supports_compute: false,
            hw: None,
            log: Seq::empty(),
        }
    }

    /// The device after a step that brings it up: what it can do is known once the
    /// features are agreed, and the rest once the device has told its scanouts.
    pub open spec fn probed(self, p: Probe, e: ProbeEvent) -> VirtioState {
        let after = p.next(e).0;
        if after.stage == ProbeStage::QueueMax {
            VirtioState {
                has_virgl: p.features & VIRTIO_GPU_F_VIRGL != 0,
                has_blob: p.features & VIRTIO_GPU_F_RESOURCE_BLOB != 0,
                ..self
            }
        } else if p.next(e).1 is Succeed {
            VirtioState {
                initialized: true,
                num_scanouts: after.scanouts,
                supports_compute: self.has_virgl,
                hw: Some(p.hw_state(1)),
                ..self
            }
        } else {
            self
        }
    }

    /// The device after a fence was made and signaled.
    pub open spec fn signaled_once(self) -> VirtioState {
        VirtioState {
            fences: self.fences.allocated().signaled(self.fences.next_fence()),
            ..self
        }
    }
}

/// A virtual GPU.
pub struct VirtioGpuDevice {
    caps: GpuCapabilities,
    fences: FencePool,
    initialized: bool,
    num_scanouts: u32,
    has_virgl: bool,
    has_blob: bool,
    hw: Option<VirtioHwState>,
    log: Ghost<Seq<Submission>>,
}

impl View for VirtioGpuDevice {
    type V = VirtioState;

    closed spec fn view(&self) -> VirtioState {
        VirtioState {
            fences: self.fences@,
            initialized: self.initialized,
            num_scanouts: self.num_scanouts,
            has_virgl: self.has_virgl,
            has_blob: self.has_blob,
            supports_compute: self.caps.supports_compute,
            hw: self.hw,
            log: self.log@,
        }
    }
}

/// The capabilities of a virtual GPU.
pub open spec fn is_virtio_caps(c: GpuCapabilities, compute: bool) -> bool {
    &&& c.max_workgroup_size@ == seq![256u32, 256u32, 64u32]
    &&& c.max_workgroup_invocations == 256
    &&& c.max_shared_memory == 32768
    &&& c.supports_compute == compute
    &&& c.supports_graphics
    &&& !c.supports_unified_memory
    &&& c.max_queues == 2
    &&& c.shader_formats.bits == 0
    &&& c.compute_units == 0
    &&& c.device_memory_bytes == 0
}

impl VirtioGpuDevice {
    /// The fences are in order, and a device that is up has a queue.
    pub closed spec fn wf(&self) -> bool {
        &&& self.fences.wf()
        &&& is_virtio_caps(self.caps, self.caps.supports_compute)
        &&& self.initialized == (self.hw is Some)
        &&& self.hw matches Some(hw) ==> hw.wf()
    }

    /// A device that is up has a queue that is in order.
    pub proof fn has_queue(&self)
        requires
            self.wf(),
        ensures
            self@.initialized == (self@.hw is Some),
            self@.hw matches Some(hw) ==> hw.wf(),
    {
    }

    /// A device that is not up yet.
    pub fn new() -> (d: Self)
        ensures
            d.wf(),
            d@ == VirtioState::fresh(),
    {
        let caps = GpuCapabilities {
            max_workgroup_size: [256, 256, 64],
            max_workgroup_invocations: 256,
            max_shared_memory: 32768,
            supports_compute: false,
            supports_graphics: true,
            supports_unified_memory: false,
            max_queues: 2,
            shader_formats: ShaderFormats { bits: 0 },
            compute_units: 0,
            device_memory_bytes: 0,
        };
        assert(caps.max_workgroup_size@ =~= seq![256u32, 256u32, 64u32]);
        VirtioGpuDevice {
            caps,
            fences: FencePool::new(1),
            initialized: false,
            num_scanouts: 0,
            has_virgl: false,
            has_blob: false,
            hw: None,
            log: Ghost(Seq::empty()),
        }
    }

    /// Brings the device up, step by step: takes an answer of the hardware and says
    /// what to do next.
    pub fn probe(&mut self, p: &mut Probe, event: ProbeEvent) -> (a: ProbeAction)
        requires
            old(self).wf(),
            old(p).wf(),
            old(p).expects(event),
        ensures
            final(self).wf(),
            final(p).wf(),
            *final(p) == old(p).next(event).0,
            a@ == old(p).next(event).1,
            final(self)@ == old(self)@.probed(*old(p), event),
    {
        let hw: Option<VirtioHwState> = if p.stage == ProbeStage::Scanouts {
            Some(p.hardware(1))
        } else {
            None
        };
        let action = p.step(event);
        if p.stage == ProbeStage::QueueMax {
            self.has_virgl = p.features & VIRTIO_GPU_F_VIRGL != 0;
            self.has_blob = p.features & VIRTIO_GPU_F_RESOURCE_BLOB != 0;
        }
        match action {
            ProbeAction::Succeed => {
                self.hw = hw;
                self.initialized = true;
                self.num_scanouts = p.scanouts;
                self.caps.supports_compute = self.has_virgl;
                self.caps.supports_graphics = true;
                self.caps.max_queues = 2;
            },
            _ => {},
        }
        assert(self@ =~= old(self)@.probed(*old(p), event));
        action
    }

    /// Begins to set a display up.
    pub fn begin_display(&self, width: u32, height: u32) -> (r: Result<
        (DisplaySetup, SetupAction),
        &'static str,
    >)
        requires
            self.wf(),
            width * height * 4 <= usize::MAX,
        ensures
            r is Ok <==> self@.initialized,
            r matches Err(m) ==> m@ == "VirtIO-GPU: device not initialized"@,
            r matches Ok(s) ==> {
                &&& s.0.wf()
                &&& s.0.stage == display::SetupStage::Backing
                &&& s.0.width == width
                &&& s.0.height == height
                &&& s.1 == SetupAction::AllocMemory((width * height * 4) as usize)
            },
    {
        if !self.initialized {
            return Err("VirtIO-GPU: device not initialized");
        }
        Ok(DisplaySetup::new(width, height))
    }

    /// Sets a display up, step by step.
    pub fn setup_display_resource(&mut self, s: &mut DisplaySetup, event: SetupEvent) -> (a:
        SetupAction)
        requires
            old(self).wf(),
            old(self)@.initialized,
            old(s).wf(),
            old(s).expects(event),
        ensures
            final(self).wf(),
            final(s).wf(),
            *final(s) == old(s).next(old(self)@.hw.unwrap(), event).0,
            a@ == old(s).next(old(self)@.hw.unwrap(), event).1,
            final(self)@ == (VirtioState {
                hw: Some(
                    if a is Send {
                        display::after_send(old(self)@.hw.unwrap())
                    } else {
                        old(self)@.hw.unwrap()
                    },
                ),
                ..old(self)@
            }),
    {
        let mut hw = self.hw.unwrap();
        let action = s.step(&mut hw, event);
        self.hw = Some(hw);
        action
    }

    /// Looks for the answer to a command.
    pub fn poll_answer(&mut self, device_idx: u16, polls: u64) -> (r: PollStep)
        requires
            old(self).wf(),
            old(self)@.initialized,
        ensures
            final(self).wf(),
            r == virtqueue::poll_result(device_idx, old(self)@.hw.unwrap().last_used_idx, polls),
            final(self)@ == (VirtioState {
                hw: Some(
                    VirtioHwState {
                        last_used_idx: if r == PollStep::Done {
                            old(self)@.hw.unwrap().last_used_idx.wrapping_add(1)
                        } else {
                            old(self)@.hw.unwrap().last_used_idx
                        },
                        ..old(self)@.hw.unwrap()
                    },
                ),
                ..old(self)@
            }),
    {
        let mut hw = self.hw.unwrap();
        let r = poll_used(&mut hw, device_idx, polls);
        self.hw = Some(hw);
        r
    }

    /// Begins to show pixels on a display.
    pub fn update_scanout(&mut self, scanout: &VirtioScanout, pixels: usize) -> (r: (
        UpdateStage,
        UpdateAction,
    ))
        requires
            old(self).wf(),
            scanout.width * scanout.height <= u32::MAX,
            scanout.cmd_pa + 0x1000 <= u64::MAX,
        ensures
            final(self).wf(),
            !old(self)@.initialized ==> {
                &&& final(self)@ == old(self)@
                &&& r.0 == UpdateStage::Finished
                &&& r.1 matches UpdateAction::Finish(Err(m)) && m@ == "VirtIO-GPU: not initialized"@
            },
            old(self)@.initialized && pixels < scanout.width * scanout.height ==> {
                &&& final(self)@ == old(self)@
                &&& r.0 == UpdateStage::Finished
                &&& r.1 matches UpdateAction::Finish(Err(m)) && m@
                    == "VirtIO-GPU: pixel buffer too small"@
            },
            old(self)@.initialized && pixels >= scanout.width * scanout.height ==> {
                &&& final(self)@ == (VirtioState {
                    hw: Some(display::after_send(old(self)@.hw.unwrap())),
                    ..old(self)@
                })
                &&& r.0 == UpdateStage::Transferred
                &&& r.1 matches UpdateAction::CopyAndSend(n, p) && n == scanout.width
                    * scanout.height && p@ == display::transfer_plan(old(self)@.hw.unwrap(), *scanout)
            },
    {
        match self.hw {
            None => (
                UpdateStage::Finished,
                UpdateAction::Finish(Err("VirtIO-GPU: not initialized")),
            ),
            Some(hw0) => {
                let mut hw = hw0;
                let r = begin_update(&mut hw, scanout, pixels);
                self.hw = Some(hw);
                r
            },
        }
    }

    /// Goes on to show pixels after the device answered or did not.
    pub fn continue_scanout(
        &mut self,
        scanout: &VirtioScanout,
        stage: UpdateStage,
        answered: bool,
    ) -> (r: (UpdateStage, UpdateAction))
        requires
            old(self).wf(),
            old(self)@.initialized,
            stage != UpdateStage::Finished,
            scanout.cmd_pa + 0x1000 <= u64::MAX,
        ensures
            final(self).wf(),
            !answered ==> {
                &&& final(self)@ == old(self)@
                &&& r.0 == UpdateStage::Finished
                &&& r.1 matches UpdateAction::Finish(Err(m)) && m@
                    == "VirtIO-GPU: command timed out"@
            },
            answered && stage == UpdateStage::Transferred ==> {
                &&& final(self)@ == (VirtioState {
                    hw: Some(display::after_send(old(self)@.hw.unwrap())),
                    ..old(self)@
                })
                &&& r.0 == UpdateStage::Flushed
                &&& r.1 matches UpdateAction::Send(p) && p@ == display::flush_plan(
                    old(self)@.hw.unwrap(),
                    *scanout,
                )
            },
            answered && stage == UpdateStage::Flushed ==> {
                &&& final(self)@ == old(self)@
                &&& r.0 == UpdateStage::Finished
                &&& r.1 == UpdateAction::Finish(Ok(()))
            },
    {
        let mut hw = self.hw.unwrap();
        let r = continue_update(&mut hw, scanout, stage, answered);
        self.hw = Some(hw);
        r
    }

    /// Makes a fence and signals it at once.
    fn signaled_fence(&mut self) -> (f: FenceId)
        requires
            old(self).wf(),
        ensures
            final(self).wf(),
            f == old(self)@.fences.next_fence(),
            final(self)@ == old(self)@.signaled_once(),
    {
        let fence = self.fences.alloc_fence();
        self.fences.signal(fence);
        fence
    }
}

impl Default for VirtioGpuDevice {
    fn default() -> (d: Self)
        ensures
            d.wf(),
            d@ == VirtioState::fresh(),
    {
        Self::new()
    }
}

impl GpuDevice for VirtioGpuDevice {
    open spec fn inv(&self) -> bool {
        self.wf()
    }

    open spec fn submissions(&self) -> Seq<Submission> {
        self@.log
    }

    open spec fn signaled(&self, fence: FenceId) -> bool {
        self@.fences.done(fence)
    }

    open spec fn answers(&self, s: Submission, r: Result<FenceId, GpuError>, after: Self) -> bool {
        if self@.initialized {
            &&& r == Ok::<FenceId, GpuError>(self@.fences.next_fence())
            &&& after@ == (VirtioState { log: self@.log.push(s), ..self@.signaled_once() })
        } else {
            &&& r matches Err(e) && e is DeviceNotFound
            &&& after@ == (VirtioState { log: self@.log.push(s), ..self@ })
        }
    }

    open spec fn label(&self) -> Seq<char> {
        "VirtIO-GPU"@
    }

    open spec fn host_ok(&self, size: usize, host: Option<u64>) -> bool {
        true
    }

    fn name(&self) -> &'static str {
        "VirtIO-GPU"
    }

    fn vendor(&self) -> (v: GpuVendor)
        ensures
            v == GpuVendor::VirtIO,
    {
        GpuVendor::VirtIO
    }

    fn capabilities(&self) -> (r: &GpuCapabilities)
        ensures
            is_virtio_caps(*r, self@.supports_compute),
    {
        &self.caps
    }

    fn create_queue(&mut self, kind: QueueKind) -> (r: Result<QueueHandle, GpuError>)
        ensures
            final(self)@ == old(self)@,
            r is Ok <==> old(self)@.initialized && (kind == QueueKind::Compute ==> old(
                self,
            )@.has_virgl),
            r matches Ok(q) ==> q == QueueHandle(0),
            r matches Err(e) ==> if !old(self)@.initialized {
                e is DeviceNotFound
            } else {
                e.is_unsupported("compute requires virgl/venus 3D support"@)
            },
    {
        if !self.initialized {
            return Err(GpuError::DeviceNotFound);
        }
        match kind {
            QueueKind::Compute => if self.has_virgl {
                Ok(QueueHandle(0))
            } else {
                Err(GpuError::Unsupported("compute requires virgl/venus 3D support"))
            },
            _ => Ok(QueueHandle(0)),
        }
    }

    fn destroy_queue(&mut self, _queue: QueueHandle) -> (r: Result<(), GpuError>)
        ensures
            r is Ok,
            final(self)@ == old(self)@,
    {
        Ok(())
    }

    fn submit(&mut self, queue: QueueHandle, cmds: &CommandBuffer) -> (r: Result<FenceId, GpuError>)
        ensures
            r is Ok <==> old(self)@.initialized,
            r matches Ok(f) ==> f == old(self)@.fences.next_fence() && final(self)@ == (
            VirtioState {
                log: old(self)@.log.push(Submission { queue, commands: cmds@.commands }),
                ..old(self)@.signaled_once()
            }),
            r matches Err(e) ==> e is DeviceNotFound && final(self)@ == (VirtioState {
                log: old(self)@.log.push(Submission { queue, commands: cmds@.commands }),
                ..old(self)@
            }),
    {
        self.log = Ghost(self.log@.push(Submission { queue, commands: cmds@.commands }));
        if !self.initialized {
            return Err(GpuError::DeviceNotFound);
        }
        Ok(self.signaled_fence())
    }

    fn wait_fence(&self, fence: FenceId, timeout_ns: u64) -> Result<(), GpuError> {
        match self.fences.wait(fence, timeout_ns) {
            Ok(_) => Ok(()),
            Err(_) => Err(GpuError::Timeout),
        }
    }

    fn poll_fence(&self, fence: FenceId) -> bool {
        self.fences.poll(fence)
    }

    fn allocate(&mut self, _size: usize, _flags: GpuMemFlags, _host: Option<u64>) -> (r: Result<
        GpuAllocation,
        GpuError,
    >)
        ensures
            final(self)@ == old(self)@,
            r matches Err(e) && if old(self)@.initialized {
                e.is_unsupported("VirtIO-GPU alloc not yet implemented"@)
            } else {
                e is DeviceNotFound
            },
    {
        if !self.initialized {
            return Err(GpuError::DeviceNotFound);
        }
        Err(GpuError::Unsupported("VirtIO-GPU alloc not yet implemented"))
    }

    fn free(&mut self, _allocation: GpuAllocation) -> (r: Result<(), GpuError>)
        ensures
            final(self)@ == old(self)@,
            r matches Err(e) && e.is_unsupported("VirtIO-GPU free not yet implemented"@),
    {
        Err(GpuError::Unsupported("VirtIO-GPU free not yet implemented"))
    }

    fn dispatch_compute(
        &mut self,
        _queue: QueueHandle,
        _shader: &ShaderModule,
        _workgroups: [u32; 3],
        _bindings: &Vec<BufferBinding>,
    ) -> (r: Result<FenceId, GpuError>)
        ensures
            final(self)@ == old(self)@,
            r matches Err(e) && e.is_unsupported(
                if old(self)@.has_virgl {
                    "VirtIO-GPU compute not yet implemented"@
                } else {
                    "compute dispatch requires virgl/venus 3D support"@
                },
            ),
    {
        if !self.has_virgl {
            return Err(GpuError::Unsupported("compute dispatch requires virgl/venus 3D support"));
        }
        Err(GpuError::Unsupported("VirtIO-GPU compute not yet implemented"))
    }

    fn blit_to_scanout(
        &mut self,
        _queue: QueueHandle,
        _src: GpuAddress,
        _src_stride: u32,
        _src_width: u32,
        _src_height: u32,
    ) -> (r: Result<FenceId, GpuError>)
        ensures
            r is Ok <==> old(self)@.initialized,
            r matches Ok(f) ==> f == old(self)@.fences.next_fence() && final(self)@ == old(
                self,
            )@.signaled_once(),
            r matches Err(e) ==> e is DeviceNotFound && final(self)@ == old(self)@,
    {
        if !self.initialized {
            return Err(GpuError::DeviceNotFound);
        }
        Ok(self.signaled_fence())
    }
}

/// What a device can do follows from the features that it offered: three-dimensional work,
/// and with it compute work, from the first, and shared memory from the fourth. It is in
/// use from the moment the search for it succeeds.
pub proof fn offered_features_are_used(d: VirtioState, p: Probe, e: ProbeEvent)
    requires
        p.expects(e),
    ensures
        ({
            let n = d.probed(p, e);
            &&& p.next(e).0.stage == ProbeStage::QueueMax ==> n.has_virgl == (p.features as int % 2
                == 1) && n.has_blob == (p.features as int / 8 % 2 == 1)
            &&& p.next(e).1 is Succeed ==> n.initialized && n.num_scanouts
                == p.next(e).0.scanouts && n.supports_compute == d.has_virgl && n.hw is Some
            &&& p.next(e).0.stage != ProbeStage::QueueMax && !(p.next(e).1 is Succeed) ==> n == d
            &&& n.fences == d.fences
            &&& n.log == d.log
        }),
{
    let f = p.features;
    assert((f & 1u32 != 0) == (f % 2 == 1) && (f & 8u32 != 0) == (f / 8 % 2 == 1)) by (bit_vector);
}

/// Work is done as soon as it is handed over: its fence is new and signaled.
pub proof fn handed_over_work_is_done(d: VirtioState)
    requires
        d.fences.next_local < 0x1_0000_0000_0000,
    ensures
        !d.fences.allocated().done(d.fences.next_fence()),
        d.signaled_once().fences.done(d.fences.next_fence()),
        d.signaled_once().log == d.log,
        d.signaled_once().hw == d.hw,
        d.signaled_once().initialized == d.initialized,
        VirtioState::fresh().fences.next_fence().0 == 0x1_0000_0000_0001,
        !VirtioState::fresh().initialized,
{
    crate::mhc::fence::fence_is_done_once_signaled(d.fences);
    crate::mhc::fence::fences_are_counted_from_one(FencePoolState::fresh(1), 1, 0);
}

/// What a virtual device can do: it draws, and computes only where it was found to.
pub proof fn virtual_device_draws(c: GpuCapabilities, compute: bool)
    requires
        is_virtio_caps(c, compute),
    ensures
        c.supports_graphics && !c.supports_unified_memory,
        c.supports_compute == compute,
        c.max_queues == 2,
        c.max_workgroup_size@ == seq![256u32, 256u32, 64u32],
        c.max_workgroup_invocations == 256,
        c.max_shared_memory == 32 * 1024,
        c.shader_formats.bits == 0,
        c.compute_units == 0,
        c.device_memory_bytes == 0,
{
}

} // verus!
