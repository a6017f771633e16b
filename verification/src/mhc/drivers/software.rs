//! A GPU that is emulated on the CPU.
//!
//! Commands are executed when they are submitted. Shaders are not executed: a
//! dispatch only signals its fence.

use crate::mhc::fence;
use crate::mhc::memory;
use crate::mhc::queue;
use crate::mhc::command::{CommandBuffer, GpuCommand};
use crate::mhc::device::{
    shader_formats, BufferBinding, DeviceRegistry, GpuCapabilities, GpuDevice, GpuError, GpuVendor,
    QueueHandle, QueueKind, ShaderFormats, Submission,
};
use crate::mhc::fence::{FenceId, FencePool, FencePoolState};
use crate::mhc::memory::{
    GpuAddress, GpuAllocation, GpuMemFlags, MemoryState, SoftwareMemoryPool,
};
use crate::mhc::queue::SoftQueueState;
use crate::mhc::shader::ShaderModule;
use vstd::prelude::*;

verus! {

/// Greatest number of queues.
pub const MAX_QUEUES: u32 = 16;

/// The capabilities of the emulated GPU.
pub open spec fn is_software_caps(c: GpuCapabilities) -> bool {
    &&& c.max_workgroup_size@ == seq![1024u32, 1024u32, 64u32]
    &&& c.max_workgroup_invocations == 1024
    &&& c.max_shared_memory == 65536
    &&& c.supports_compute
    &&& !c.supports_graphics
    &&& c.supports_unified_memory
    &&& c.max_queues == MAX_QUEUES
    &&& c.shader_formats.bits == shader_formats::SPIRV | shader_formats::MHC_IR
    &&& c.compute_units == 1
    &&& c.device_memory_bytes == 0
}

/// What commands act on.
#[verifier::ext_equal]
pub struct ExecState {
    /// Memory.
    pub memory: MemoryState,
    /// Fences.
    pub fences: FencePoolState,
}

/// Byte `k` of a value in little-endian order.
pub open spec fn le_byte(value: u32, k: int) -> u8 {
    if k == 0 {
        (value % 0x100) as u8
    } else if k == 1 {
        (value / 0x100 % 0x100) as u8
    } else if k == 2 {
        (value / 0x1_0000 % 0x100) as u8
    } else {
        (value / 0x100_0000) as u8
    }
}

/// `n` bytes that repeat four bytes.
pub open spec fn repeated(n: nat, pattern: spec_fn(int) -> u8) -> Seq<u8> {
    Seq::new(n, |i: int| pattern(i % 4))
}

/// `n` bytes that repeat a value in little-endian order.
pub open spec fn value_bytes(n: nat, value: u32) -> Seq<u8> {
    repeated(n, |k: int| le_byte(value, k))
}

/// `n` bytes that repeat the four bytes of a colour.
pub open spec fn color_bytes(n: nat, color: Seq<u8>) -> Seq<u8> {
    repeated(n, |k: int| color[k])
}

impl ExecState {
    /// What copying `size` bytes does, where an allocation covers the source.
    pub open spec fn copied(self, src: int, dst: int, size: int) -> ExecState {
        if self.memory.accessible(src, size) {
            ExecState { memory: self.memory.written(dst, self.memory.read(src, size)), ..self }
        } else {
            self
        }
    }

    /// What a command does. A command on memory that no allocation covers does
    /// nothing, nor does a blit between images of different sizes.
    pub open spec fn after(self, cmd: GpuCommand) -> ExecState {
        match cmd {
            GpuCommand::CopyBuffer { src, dst, size } => self.copied(
                src.0 as int,
                dst.0 as int,
                size as int,
            ),
            GpuCommand::Blit {
                src,
                dst,
                src_width,
                src_height,
                dst_width,
                dst_height,
            } => if src_width == dst_width && src_height == dst_height {
                self.copied(src.0 as int, dst.0 as int, src_width * src_height * 4)
            } else {
                self
            },
            GpuCommand::FillBuffer { dst, size, value } => ExecState {
                memory: self.memory.written(dst.0 as int, value_bytes(size as nat, value)),
                ..self
            },
            GpuCommand::UploadBuffer { data, dst } => ExecState {
                memory: self.memory.written(dst.0 as int, data@),
                ..self
            },
            GpuCommand::Clear { target, color, width, height } => ExecState {
                memory: self.memory.written(
                    target.0 as int,
                    color_bytes((width * height * 4) as nat, color@),
                ),
                ..self
            },
            GpuCommand::SignalFence(fence) => ExecState {
                fences: self.fences.signaled(fence),
                ..self
            },
            _ => self,
        }
    }

    /// The command is a wait for a fence that is not signaled.
    pub open spec fn holds_up(self, cmd: GpuCommand) -> bool {
        cmd matches GpuCommand::WaitFence(f) && !self.fences.done(f)
    }

    /// What commands do, one after the other, up to a wait for a fence that is not
    /// signaled.
    pub open spec fn after_all(self, cmds: Seq<GpuCommand>) -> ExecState
        decreases cmds.len(),
    {
        if cmds.len() == 0 {
            self
        } else {
            let before = self.after_all(cmds.drop_last());
            if self.finishes(cmds.drop_last()) && !before.holds_up(cmds.last()) {
                before.after(cmds.last())
            } else {
                before
            }
        }
    }

    /// No wait holds the commands up.
    pub open spec fn finishes(self, cmds: Seq<GpuCommand>) -> bool
        decreases cmds.len(),
    {
        cmds.len() == 0 || (self.finishes(cmds.drop_last()) && !self.after_all(
            cmds.drop_last(),
        ).holds_up(cmds.last()))
    }
}

/// What the device holds.
#[verifier::ext_equal]
pub struct SoftwareState {
    /// Memory and fences.
    pub machine: ExecState,
    /// Number of queues that were made.
    pub queues: u32,
    /// Command buffers that were submitted.
    pub log: Seq<Submission>,
}

impl SoftwareState {
    /// A device without memory, fences and queues.
    pub open spec fn fresh() -> SoftwareState {
        SoftwareState {
            machine: ExecState {
                memory: MemoryState::fresh(),
                fences: FencePoolState::fresh(0),
            },
            queues: 0,
            log: Seq::empty(),
        }
    }

    /// The device after a dispatch: a fence is made, and signaled where no dimension of
    /// the work is zero.
    pub open spec fn dispatched(self, workgroups: Seq<u32>) -> SoftwareState {
        let fences = self.machine.fences;
        self.with_fences(
            if workgroups[0] > 0 && workgroups[1] > 0 && workgroups[2] > 0 {
                fences.allocated().signaled(fences.next_fence())
            } else {
                fences.allocated()
            },
        )
    }

    /// The device with other fences.
    pub open spec fn with_fences(self, fences: FencePoolState) -> SoftwareState {
        SoftwareState { machine: ExecState { fences, ..self.machine }, ..self }
    }

    /// The device with other memory.
    pub open spec fn with_memory(self, memory: MemoryState) -> SoftwareState {
        SoftwareState { machine: ExecState { memory, ..self.machine }, ..self }
    }

    /// Memory and fences when the commands of a submission begin: its fence is made.
    pub open spec fn begun(self) -> ExecState {
        ExecState { fences: self.machine.fences.allocated(), ..self.machine }
    }

    /// No wait holds a submission up.
    pub open spec fn completes(self, s: Submission) -> bool {
        self.begun().finishes(s.commands)
    }

    /// The device after a submission: a fence is made, the commands are executed, and
    /// the fence is signaled. While a submission executes nothing else does, so that one
    /// that waits for a fence that is not signaled ends there, and its own fence stays
    /// open.
    pub open spec fn submitted(self, s: Submission) -> SoftwareState {
        let fence = self.machine.fences.next_fence();
        let done = self.begun().after_all(s.commands);
        SoftwareState {
            machine: if self.completes(s) {
                ExecState { fences: done.fences.signaled(fence), ..done }
            } else {
                done
            },
            log: self.log.push(s),
            ..self
        }
    }

    /// The device after submissions, one after the other.
    pub open spec fn after_submissions(self, subs: Seq<Submission>) -> SoftwareState
        decreases subs.len(),
    {
        if subs.len() == 0 {
            self
        } else {
            self.after_submissions(subs.drop_last()).submitted(subs.last())
        }
    }

    /// No wait holds one of these submissions up.
    pub open spec fn completes_all(self, subs: Seq<Submission>) -> bool
        decreases subs.len(),
    {
        subs.len() == 0 || (self.completes_all(subs.drop_last()) && self.after_submissions(
            subs.drop_last(),
        ).completes(subs.last()))
    }
}

/// The emulated GPU.
pub struct SoftwareGpuDevice {
    caps: GpuCapabilities,
    memory: SoftwareMemoryPool,
    fences: FencePool,
    queue_count: u32,
    log: Ghost<Seq<Submission>>,
}

impl View for SoftwareGpuDevice {
    type V = SoftwareState;

    closed spec fn view(&self) -> SoftwareState {
        SoftwareState {
            machine: ExecState { memory: self.memory@, fences: self.fences@ },
            queues: self.queue_count,
            log: self.log@,
        }
    }
}

/// Four bytes, repeated `n` times over.
fn repeated_bytes(n: usize, pattern: [u8; 4]) -> (v: Vec<u8>)
    ensures
        v@.len() == n,
        forall|i: int| 0 <= i < n ==> #[trigger] v@[i] == pattern@[i % 4],
{
    let mut v: Vec<u8> = Vec::with_capacity(n);
    let mut i: usize = 0;
    while i < n
        invariant
            i <= n,
            v@.len() == i,
            forall|k: int| 0 <= k < i ==> #[trigger] v@[k] == pattern@[k % 4],
        decreases n - i,
    {
        v.push(pattern[i % 4]);
        i += 1;
    }
    v
}

impl SoftwareGpuDevice {
    /// Memory and fences are in order.
    pub closed spec fn wf(&self) -> bool {
        &&& self.memory.wf()
        &&& self.fences.wf()
        &&& is_software_caps(self.caps)
    }

    /// A device without memory, fences and queues.
    pub fn new() -> (d: Self)
        ensures
            d.wf(),
            d@ == SoftwareState::fresh(),
    {
        let caps = GpuCapabilities {
            max_workgroup_size: [1024, 1024, 64],
            max_workgroup_invocations: 1024,
            max_shared_memory: 65536,
            supports_compute: true,
            supports_graphics: false,
            supports_unified_memory: true,
            max_queues: MAX_QUEUES,
            shader_formats: ShaderFormats { bits: shader_formats::SPIRV | shader_formats::MHC_IR },
            compute_units: 1,
            device_memory_bytes: 0,
        };
        assert(caps.max_workgroup_size@ =~= seq![1024u32, 1024u32, 64u32]);
        SoftwareGpuDevice {
            caps,
            memory: SoftwareMemoryPool::new(),
            fences: FencePool::new(0),
            queue_count: 0,
            log: Ghost(Seq::empty()),
        }
    }

    /// The bytes that the host sees at `addr`, where an allocation covers them.
    pub fn read_host(&self, addr: GpuAddress, len: usize) -> (r: Option<Vec<u8>>)
        requires
            self.wf(),
        ensures
            r is Some <==> self@.machine.memory.accessible(addr.0 as int, len as int),
            r matches Some(v) ==> v@ == self@.machine.memory.read(addr.0 as int, len as int),
    {
        self.memory.get_slice(addr, len)
    }

    /// Stores bytes from the host at `addr`, where an allocation covers them.
    pub fn write_host(&mut self, addr: GpuAddress, data: &[u8]) -> (r: bool)
        requires
            old(self).wf(),
        ensures
            final(self).wf(),
            r == old(self)@.machine.memory.accessible(addr.0 as int, data@.len() as int),
            final(self)@ == (SoftwareState {
                machine: ExecState {
                    memory: old(self)@.machine.memory.written(addr.0 as int, data@),
                    ..old(self)@.machine
                },
                ..old(self)@
            }),
    {
        self.memory.write_slice(addr, data)
    }

    /// Fills memory with four bytes that repeat, where an allocation covers it.
    fn fill_memory(&mut self, dst: GpuAddress, size: usize, pattern: [u8; 4], Ghost(f): Ghost<
        spec_fn(int) -> u8,
    >)
        requires
            old(self).wf(),
            forall|k: int| 0 <= k < 4 ==> #[trigger] pattern@[k] == f(k),
        ensures
            final(self).wf(),
            final(self)@ == old(self)@.with_memory(
                old(self)@.machine.memory.written(dst.0 as int, repeated(size as nat, f)),
            ),
    {
        if self.memory.covers(dst, size) {
            let bytes = repeated_bytes(size, pattern);
            assert(bytes@ =~= repeated(size as nat, f));
            self.memory.write_slice(dst, bytes.as_slice());
        }
        assert(self@ =~= old(self)@.with_memory(
            old(self)@.machine.memory.written(dst.0 as int, repeated(size as nat, f)),
        ));
    }

    /// Copies memory, where an allocation covers the source.
    fn copy_memory(&mut self, src: GpuAddress, dst: GpuAddress, size: usize)
        requires
            old(self).wf(),
        ensures
            final(self).wf(),
            final(self)@ == (SoftwareState {
                machine: old(self)@.machine.copied(src.0 as int, dst.0 as int, size as int),
                ..old(self)@
            }),
    {
        if let Some(bytes) = self.memory.get_slice(src, size) {
            self.memory.write_slice(dst, bytes.as_slice());
        }
        assert(self@ =~= SoftwareState {
            machine: old(self)@.machine.copied(src.0 as int, dst.0 as int, size as int),
            ..old(self)@
        });
    }

    /// Executes commands, one after the other, up to a wait for a fence that is not
    /// signaled. Returns whether all of them were executed.
    fn execute_commands(&mut self, cmds: &CommandBuffer) -> (r: bool)
        requires
            old(self).wf(),
        ensures
            final(self).wf(),
            r == old(self)@.machine.finishes(cmds@.commands),
            final(self)@ == (SoftwareState {
                machine: old(self)@.machine.after_all(cmds@.commands),
                ..old(self)@
            }),
    {
        let commands = cmds.commands();
        let ghost start = self@;
        let mut i: usize = 0;
        assert(commands@.take(0) =~= Seq::empty());
        while i < commands.len()
            invariant
                i <= commands@.len(),
                self.wf(),
                start == old(self)@,
                self@ == (SoftwareState {
                    machine: start.machine.after_all(commands@.take(i as int)),
                    ..start
                }),
                start.machine.finishes(commands@.take(i as int)),
                commands@ == cmds@.commands,
            decreases commands@.len() - i,
        {
            let ghost before = self@;
            assert(commands@.take(i + 1).drop_last() =~= commands@.take(i as int));
            assert(commands@.take(i + 1).last() == commands@[i as int]);
            match &commands[i] {
                GpuCommand::DispatchCompute { .. } => {},
                GpuCommand::CopyBuffer { src, dst, size } => {
                    self.copy_memory(*src, *dst, *size);
                },
                GpuCommand::FillBuffer { dst, size, value } => {
                    let v: u32 = *value;
                    assert(v & 0xff == v % 0x100 && (v >> 8) & 0xff == v / 0x100 % 0x100 && (v
                        >> 16) & 0xff == v / 0x1_0000 % 0x100 && v >> 24 == v / 0x100_0000 && v
                        >> 24 <= 0xff) by (bit_vector);
                    let pattern: [u8; 4] = [
                        (v & 0xff) as u8,
                        ((v >> 8) & 0xff) as u8,
                        ((v >> 16) & 0xff) as u8,
                        (v >> 24) as u8,
                    ];
                    self.fill_memory(*dst, *size, pattern, Ghost(|k: int| le_byte(v, k)));
                },
                GpuCommand::UploadBuffer { data, dst } => {
                    self.memory.write_slice(*dst, data.as_slice());
                },
                GpuCommand::Clear { target, color, width, height } => {
                    let w: u128 = *width as u128;
                    let h: u128 = *height as u128;
                    assert(0 <= w * h <= 0xffff_ffff * 0xffff_ffff) by (nonlinear_arith)
                        requires
                            0 <= w <= 0xffff_ffff,
                            0 <= h <= 0xffff_ffff,
                    ;
                    let size: u128 = w * h * 4;
                    if size <= usize::MAX as u128 {
                        self.fill_memory(
                            *target,
                            size as usize,
                            *color,
                            Ghost(|k: int| color@[k]),
                        );
                    } else {
                        proof {
                            self.memory.too_much_is_not_accessible(
                                target.0 as int,
                                (*width * *height * 4) as int,
                            );
                        }
                    }
                },
                GpuCommand::PipelineBarrier { .. } => {},
                GpuCommand::SignalFence(fence_id) => {
                    self.fences.signal(*fence_id);
                },
                GpuCommand::WaitFence(fence_id) => {
                    if !self.fences.poll(*fence_id) {
                        proof {
                            lemma_held_up(start.machine, commands@, i as int);
                        }
                        return false;
                    }
                },
                GpuCommand::Blit {
                    src,
                    dst,
                    src_width,
                    src_height,
                    dst_width,
                    dst_height,
                } => {
                    if *src_width == *dst_width && *src_height == *dst_height {
                        let w: u128 = *src_width as u128;
                        let h: u128 = *src_height as u128;
                        assert(0 <= w * h <= 0xffff_ffff * 0xffff_ffff) by (nonlinear_arith)
                            requires
                                0 <= w <= 0xffff_ffff,
                                0 <= h <= 0xffff_ffff,
                        ;
                        let size: u128 = w * h * 4;
                        if size <= usize::MAX as u128 {
                            self.copy_memory(*src, *dst, size as usize);
                        } else {
                            proof {
                                self.memory.too_much_is_not_accessible(
                                    src.0 as int,
                                    (*src_width * *src_height * 4) as int,
                                );
                            }
                        }
                    }
                },
            }
            i += 1;
            assert(self@ =~= SoftwareState {
                machine: before.machine.after(commands@[i - 1]),
                ..before
            });
        }
        assert(commands@.take(i as int) =~= commands@);
        true
    }
}

/// Commands that are held up at position `i` do what the first `i` of them do.
proof fn lemma_held_up(s: ExecState, cmds: Seq<GpuCommand>, i: int)
    requires
        0 <= i < cmds.len(),
        s.after_all(cmds.take(i)).holds_up(cmds[i]),
    ensures
        !s.finishes(cmds),
        s.after_all(cmds) == s.after_all(cmds.take(i)),
    decreases cmds.len(),
{
    let rest = cmds.drop_last();
    if i == cmds.len() - 1 {
        assert(cmds.take(i) =~= rest);
    } else {
        assert(rest.take(i) =~= cmds.take(i));
        lemma_held_up(s, rest, i);
    }
}

impl Default for SoftwareGpuDevice {
    fn default() -> (d: Self)
        ensures
            d.wf(),
            d@ == SoftwareState::fresh(),
    {
        Self::new()
    }
}

impl GpuDevice for SoftwareGpuDevice {
    open spec fn inv(&self) -> bool {
        self.wf()
    }

    open spec fn submissions(&self) -> Seq<Submission> {
        self@.log
    }

    open spec fn signaled(&self, fence: FenceId) -> bool {
        self@.machine.fences.done(fence)
    }

    open spec fn answers(&self, s: Submission, r: Result<FenceId, GpuError>, after: Self) -> bool {
        &&& r == Ok::<FenceId, GpuError>(self@.machine.fences.next_fence())
        &&& after@ == self@.submitted(s)
    }

    open spec fn label(&self) -> Seq<char> {
        "MHC Software GPU"@
    }

    open spec fn host_ok(&self, size: usize, host: Option<u64>) -> bool {
        host matches Some(start) ==> start > 0 && start % 16 == 0 && start + size <= u64::MAX
            && self@.machine.memory.is_free(start as int, size as int)
    }

    fn name(&self) -> &'static str {
        "MHC Software GPU"
    }

    fn vendor(&self) -> (v: GpuVendor)
        ensures
            v == GpuVendor::Software,
    {
        GpuVendor::Software
    }

    fn capabilities(&self) -> (r: &GpuCapabilities)
        ensures
            is_software_caps(*r),
    {
        &self.caps
    }

    fn create_queue(&mut self, _kind: QueueKind) -> (r: Result<QueueHandle, GpuError>)
        ensures
            r is Ok <==> old(self)@.queues < MAX_QUEUES,
            r matches Ok(q) ==> q == QueueHandle(old(self)@.queues) && final(self)@ == (
            SoftwareState { queues: (old(self)@.queues + 1) as u32, ..old(self)@ }),
            r matches Err(e) ==> e.is_unsupported("max queues reached"@) && final(self)@ == old(
                self,
            )@,
    {
        if self.queue_count >= self.caps.max_queues {
            return Err(GpuError::Unsupported("max queues reached"));
        }
        let handle = QueueHandle(self.queue_count);
        self.queue_count = self.queue_count + 1;
        Ok(handle)
    }

    fn destroy_queue(&mut self, _queue: QueueHandle) -> (r: Result<(), GpuError>)
        ensures
            r is Ok,
            final(self)@ == old(self)@,
    {
        Ok(())
    }

    fn submit(&mut self, queue: QueueHandle, cmds: &CommandBuffer) -> (r: Result<FenceId, GpuError>)
        ensures
            r == Ok::<FenceId, GpuError>(old(self)@.machine.fences.next_fence()),
            final(self)@ == old(self)@.submitted(Submission { queue, commands: cmds@.commands }),
    {
        let fence = self.fences.alloc_fence();
        if self.execute_commands(cmds) {
            self.fences.signal(fence);
        }
        self.log = Ghost(self.log@.push(Submission { queue, commands: cmds@.commands }));
        assert(self@ =~= old(self)@.submitted(Submission { queue, commands: cmds@.commands }));
        Ok(fence)
    }

    fn wait_fence(&self, fence: FenceId, timeout_ns: u64) -> Result<(), GpuError> {
        match self.fences.wait(fence, timeout_ns) {
            Ok(_) => Ok(()),
            Err(_) => Err(GpuError::Timeout),
        }
    }

    fn poll_fence(&self, fence: FenceId) -> bool {
        self.fences.poll(fence)
    }

    fn allocate(&mut self, size: usize, flags: GpuMemFlags, host: Option<u64>) -> (r: Result<
        GpuAllocation,
        GpuError,
    >)
        ensures
            r is Ok <==> 0 < size <= memory::max_alloc_size() && host is Some,
            r matches Ok(a) ==> a == (GpuAllocation {
                cpu_addr: host.unwrap(),
                gpu_addr: GpuAddress(host.unwrap()),
                size,
                flags,
                alloc_id: old(self)@.machine.memory.next_id,
            }) && final(self)@ == old(self)@.with_memory(
                old(self)@.machine.memory.allocated(host.unwrap(), size),
            ),
            r matches Err(e) ==> e is OutOfMemory && final(self)@ == old(self)@,
    {
        match self.memory.allocate(size, flags, host) {
            Ok(a) => Ok(a),
            Err(_) => Err(GpuError::OutOfMemory),
        }
    }

    fn free(&mut self, allocation: GpuAllocation) -> (r: Result<(), GpuError>)
        ensures
            r is Ok <==> exists|i: int|
                old(self)@.machine.memory.is_first_with(allocation.alloc_id, i),
            r is Ok ==> exists|i: int| #[trigger]
                old(self)@.machine.memory.is_first_with(allocation.alloc_id, i) && final(self)@
                    == old(self)@.with_memory(old(self)@.machine.memory.freed(i)),
            r matches Err(e) ==> e.is_invalid("unknown allocation"@) && final(self)@ == old(self)@,
    {
        match self.memory.free(allocation.alloc_id) {
            Ok(_) => {
                proof {
                    let i = choose|i: int| #[trigger]
                        old(self)@.machine.memory.is_first_with(allocation.alloc_id, i)
                            && self.memory@ == old(self)@.machine.memory.freed(i);
                    assert(self@ == old(self)@.with_memory(old(self)@.machine.memory.freed(i)));
                }
                Ok(())
            },
            Err(_) => Err(GpuError::InvalidParameter("unknown allocation")),
        }
    }

    fn dispatch_compute(
        &mut self,
        _queue: QueueHandle,
        _shader: &ShaderModule,
        workgroups: [u32; 3],
        _bindings: &Vec<BufferBinding>,
    ) -> (r: Result<FenceId, GpuError>)
        ensures
            r is Ok <==> workgroups@[0] > 0 && workgroups@[1] > 0 && workgroups@[2] > 0,
            r matches Ok(f) ==> f == old(self)@.machine.fences.next_fence(),
            r matches Err(e) ==> e.is_invalid("workgroup dimensions must be > 0"@),
            final(self)@ == old(self)@.dispatched(workgroups@),
    {
        let fence = self.fences.alloc_fence();
        if workgroups[0] == 0 || workgroups[1] == 0 || workgroups[2] == 0 {
            return Err(GpuError::InvalidParameter("workgroup dimensions must be > 0"));
        }
        self.fences.signal(fence);
        Ok(fence)
    }
}

/// Makes an emulated GPU and registers it.
pub fn init(registry: &mut DeviceRegistry<SoftwareGpuDevice>) -> (id: usize)
    requires
        old(registry).wf(),
        old(registry)@.len() < usize::MAX,
    ensures
        final(registry).wf(),
        id == old(registry)@.len(),
        final(registry)@.len() == id + 1,
        final(registry)@.drop_last() == old(registry)@,
        final(registry)@.last().wf(),
        final(registry)@.last()@ == SoftwareState::fresh(),
{
    let id: usize = registry.register_device(SoftwareGpuDevice::new());
    assert(registry@.drop_last() =~= old(registry)@);
    id
}

/// The fence of a submission is signaled when the call returns, unless a wait holds the
/// submission up.
pub proof fn submission_is_complete(s: SoftwareState, sub: Submission)
    requires
        s.completes(sub),
        s.machine.fences.next_local < fence::local_ids(),
    ensures
        s.submitted(sub).machine.fences.done(s.machine.fences.next_fence()),
{
    lemma_known_fences_stay(s.begun(), sub.commands, s.machine.fences.next_local);
    fence::packed_parts(s.machine.fences.device_id, s.machine.fences.next_local);
}

/// Commands make no fence and forget none.
proof fn lemma_known_fences_stay(s: ExecState, cmds: Seq<GpuCommand>, local: u64)
    ensures
        s.after_all(cmds).fences.values.contains_key(local) == s.fences.values.contains_key(local),
    decreases cmds.len(),
{
    if cmds.len() > 0 {
        lemma_known_fences_stay(s, cmds.drop_last(), local);
    }
}

/// Commands leave the count of fences as it is, and undo no fence.
proof fn lemma_commands_undo_no_fence(s: ExecState, cmds: Seq<GpuCommand>, f: FenceId)
    ensures
        s.after_all(cmds).fences.next_local == s.fences.next_local,
        s.after_all(cmds).fences.device_id == s.fences.device_id,
        s.fences.done(f) ==> s.after_all(cmds).fences.done(f),
    decreases cmds.len(),
{
    if cmds.len() > 0 {
        lemma_commands_undo_no_fence(s, cmds.drop_last(), f);
    }
}

/// After the first `n` answers their fences are done.
proof fn lemma_answers_are_done(
    stages: Seq<SoftwareGpuDevice>,
    subs: Seq<Submission>,
    results: Seq<Result<FenceId, GpuError>>,
    n: int,
)
    requires
        queue::answered(stages, subs, results),
        0 <= n <= subs.len(),
        stages[0]@.machine.fences.next_local + subs.len() < fence::local_ids(),
        stages[0]@.completes_all(subs.take(n)),
    ensures
        stages[n]@ == stages[0]@.after_submissions(subs.take(n)),
        stages[n]@.machine.fences.next_local == stages[0]@.machine.fences.next_local + n,
        stages[n]@.machine.fences.device_id == stages[0]@.machine.fences.device_id,
        forall|i: int|
            0 <= i < n ==> (#[trigger] results[i] matches Ok(f) && f.local()
                == stages[0]@.machine.fences.next_local + i && stages[n].signaled(f)),
    decreases n,
{
    if n > 0 {
        assert(subs.take(n).drop_last() =~= subs.take(n - 1));
        lemma_answers_are_done(stages, subs, results, n - 1);
        let d = stages[n - 1]@;
        let s = subs[n - 1];
        assert(stages[n - 1].answers(s, results[n - 1], stages[n]));
        let begun = d.begun();
        fence::packed_parts(d.machine.fences.device_id, d.machine.fences.next_local);
        submission_is_complete(d, s);
        lemma_commands_undo_no_fence(begun, s.commands, FenceId(0));
        assert forall|i: int| 0 <= i < n implies (#[trigger] results[i] matches Ok(f) && f.local()
            == stages[0]@.machine.fences.next_local + i && stages[n].signaled(f)) by {
            if i < n - 1 {
                lemma_commands_undo_no_fence(begun, s.commands, results[i]->Ok_0);
            }
        }
    }
}

/// Fences that are all signaled leave none behind.
proof fn lemma_all_signaled(
    results: Seq<Result<FenceId, GpuError>>,
    device: SoftwareGpuDevice,
)
    requires
        forall|i: int|
            0 <= i < results.len() ==> (#[trigger] results[i] matches Ok(f) ==> device.signaled(f)),
    ensures
        queue::unsignaled(queue::ok_fences(results), device).len() == 0,
    decreases results.len(),
{
    if results.len() > 0 {
        let rest = results.drop_last();
        assert forall|i: int| 0 <= i < rest.len() implies (#[trigger] rest[i] matches Ok(
            f,
        ) ==> device.signaled(f)) by {
            assert(rest[i] == results[i]);
        }
        lemma_all_signaled(rest, device);
        match results.last() {
            Ok(f) => {
                assert(results[results.len() - 1] is Ok);
                let fences = queue::ok_fences(rest);
                assert(fences.push(f).drop_last() =~= fences);
            },
            Err(_) => {},
        }
    }
}

/// A queue that had nothing in flight and was drained into the emulated GPU has nothing
/// in flight the next time: all that it gave has completed, where no wait holds it up.
pub proof fn drained_work_completes(
    before: SoftQueueState,
    device: SoftwareGpuDevice,
    results: Seq<Result<FenceId, GpuError>>,
    after: SoftQueueState,
    device_after: SoftwareGpuDevice,
)
    requires
        before.in_flight.len() == 0,
        queue::drained_into(before, device, results, after, device_after),
        device@.machine.fences.next_local + results.len() < fence::local_ids(),
        device@.completes_all(queue::first_submissions(before.pending, results.len())),
    ensures
        after.in_flight.len() == results.len(),
        queue::unsignaled(after.in_flight, device_after).len() == 0,
        after.completed_with(queue::unsignaled(after.in_flight, device_after))
            == after.completed_count.wrapping_add(results.len() as u64),
{
    let subs = queue::first_submissions(before.pending, results.len());
    let stages = choose|stages: Seq<SoftwareGpuDevice>|
        {
            &&& #[trigger] queue::answered(stages, subs, results)
            &&& stages[0] == device
            &&& stages.last() == device_after
        };
    assert(subs.take(subs.len() as int) =~= subs);
    lemma_answers_are_done(stages, subs, results, subs.len() as int);
    lemma_all_signaled(results, device_after);
    lemma_all_accepted(results);
    assert(after.in_flight =~= queue::ok_fences(results));
}

/// Every accepted command buffer has its fence.
proof fn lemma_all_accepted(results: Seq<Result<FenceId, GpuError>>)
    requires
        forall|i: int| 0 <= i < results.len() ==> (#[trigger] results[i]) is Ok,
    ensures
        queue::ok_fences(results).len() == results.len(),
    decreases results.len(),
{
    if results.len() > 0 {
        let rest = results.drop_last();
        assert forall|i: int| 0 <= i < rest.len() implies (#[trigger] rest[i]) is Ok by {
            assert(rest[i] == results[i]);
        }
        lemma_all_accepted(rest);
        assert(results[results.len() - 1] is Ok);
    }
}

/// A blit between two images of the same size gives the second one the pixels of the
/// first, where allocations cover both.
pub proof fn blit_copies_an_image(
    s: ExecState,
    src: GpuAddress,
    dst: GpuAddress,
    width: u32,
    height: u32,
)
    requires
        s.memory.accessible(src.0 as int, width * height * 4),
        s.memory.accessible(dst.0 as int, width * height * 4),
    ensures
        ({
            let size = width * height * 4;
            let blit = GpuCommand::Blit {
                src,
                dst,
                src_width: width,
                src_height: height,
                dst_width: width,
                dst_height: height,
            };
            s.after(blit).memory == s.memory.written(
                dst.0 as int,
                s.memory.read(src.0 as int, size),
            )
        }),
{
}

/// No command after a wait for a fence that is not signaled is executed.
pub proof fn wait_precedes_what_follows(s: ExecState, cmds: Seq<GpuCommand>, i: int, f: FenceId)
    requires
        0 <= i < cmds.len(),
        cmds[i] == GpuCommand::WaitFence(f),
        !s.after_all(cmds.take(i)).fences.done(f),
    ensures
        s.after_all(cmds) == s.after_all(cmds.take(i)),
        !s.finishes(cmds),
{
    lemma_held_up(s, cmds, i);
}

/// A fill repeats the four bytes of its value, the least first, over the buffer, and touches
/// nothing but memory.
pub proof fn fill_repeats_its_value(s: ExecState, dst: GpuAddress, size: usize, value: u32, w: int)
    requires
        s.memory.disjoint(),
        s.memory.accessible(dst.0 as int, size as int),
        0 <= w,
        4 * w + 4 <= size,
    ensures
        ({
            let a = s.after(GpuCommand::FillBuffer { dst, size, value });
            let b = a.memory.read(dst.0 as int, size as int);
            &&& b.len() == size
            &&& b[4 * w] + 0x100 * b[4 * w + 1] + 0x1_0000 * b[4 * w + 2] + 0x100_0000 * b[4 * w
                + 3] == value
            &&& a.fences == s.fences
        }),
{
    let data = value_bytes(size as nat, value);
    memory::read_gives_back_the_write(s.memory, dst.0 as int, data);
    assert((4 * w) % 4 == 0 && (4 * w + 1) % 4 == 1 && (4 * w + 2) % 4 == 2 && (4 * w + 3) % 4
        == 3) by (nonlinear_arith);
    assert(le_byte(value, 0) + 0x100 * le_byte(value, 1) + 0x1_0000 * le_byte(value, 2)
        + 0x100_0000 * le_byte(value, 3) == value) by {
        let v = value as int;
        assert(v % 0x100 + 0x100 * (v / 0x100 % 0x100) + 0x1_0000 * (v / 0x1_0000 % 0x100)
            + 0x100_0000 * (v / 0x100_0000) == v);
    }
}

/// A clear gives each pixel of the image the color, and touches nothing but memory.
pub proof fn clear_colors_each_pixel(
    s: ExecState,
    target: GpuAddress,
    color: [u8; 4],
    width: u32,
    height: u32,
    pixel: int,
    k: int,
)
    requires
        s.memory.disjoint(),
        s.memory.accessible(target.0 as int, 4 * (width * height)),
        0 <= pixel < width * height,
        0 <= k < 4,
    ensures
        ({
            let a = s.after(GpuCommand::Clear { target, color, width, height });
            let b = a.memory.read(target.0 as int, 4 * (width * height));
            &&& b.len() == 4 * (width * height)
            &&& b[4 * pixel + k] == color@[k]
            &&& a.fences == s.fences
        }),
{
    let n = (width * height * 4) as nat;
    memory::read_gives_back_the_write(s.memory, target.0 as int, color_bytes(n, color@));
    assert((4 * pixel + k) % 4 == k) by (nonlinear_arith)
        requires
            0 <= k < 4,
    ;
}

/// A copy makes the target hold what the source held, and an upload its own bytes. Neither
/// touches anything but memory.
pub proof fn copy_and_upload_set_their_target(
    s: ExecState,
    src: GpuAddress,
    dst: GpuAddress,
    size: usize,
    data: Vec<u8>,
)
    requires
        s.memory.disjoint(),
    ensures
        s.memory.accessible(src.0 as int, size as int) && s.memory.accessible(
            dst.0 as int,
            size as int,
        ) ==> s.after(GpuCommand::CopyBuffer { src, dst, size }).memory.read(
            dst.0 as int,
            size as int,
        ) == s.memory.read(src.0 as int, size as int),
        !s.memory.accessible(src.0 as int, size as int) ==> s.after(
            GpuCommand::CopyBuffer { src, dst, size },
        ) == s,
        s.after(GpuCommand::CopyBuffer { src, dst, size }).fences == s.fences,
        s.memory.accessible(dst.0 as int, data@.len() as int) ==> s.after(
            GpuCommand::UploadBuffer { data, dst },
        ).memory.read(dst.0 as int, data@.len() as int) == data@,
        s.after(GpuCommand::UploadBuffer { data, dst }).fences == s.fences,
{
    if s.memory.accessible(src.0 as int, size as int) && s.memory.accessible(
        dst.0 as int,
        size as int,
    ) {
        let h = s.memory.home(src.0 as int, size as int);
        assert(s.memory.is_home(src.0 as int, size as int, h));
        let bytes = s.memory.read(src.0 as int, size as int);
        assert(bytes.len() == size);
        memory::read_gives_back_the_write(s.memory, dst.0 as int, bytes);
    }
    if s.memory.accessible(dst.0 as int, data@.len() as int) {
        memory::read_gives_back_the_write(s.memory, dst.0 as int, data@);
    }
}

/// An image is copied only onto one of the same size; barriers, waits and dispatches change
/// nothing, and a signal no memory.
pub proof fn other_commands_leave_memory(s: ExecState, cmd: GpuCommand)
    ensures
        cmd matches GpuCommand::Blit { src_width, src_height, dst_width, dst_height, .. } && (
        src_width != dst_width || src_height != dst_height) ==> s.after(cmd) == s,
        (cmd is PipelineBarrier || cmd is WaitFence || cmd is DispatchCompute) ==> s.after(cmd)
            == s,
        cmd matches GpuCommand::SignalFence(f) ==> s.after(cmd).memory == s.memory && s.after(
            cmd,
        ).fences.done(f),
{
}

/// Commands run in their order, each on what the ones before it left, until one waits for a
/// fence that is not done.
pub proof fn commands_run_in_order(s: ExecState, cmds: Seq<GpuCommand>, c: GpuCommand)
    ensures
        s.after_all(Seq::empty()) == s,
        s.finishes(Seq::empty()),
        s.finishes(cmds) && !(c is WaitFence) ==> s.after_all(cmds.push(c)) == s.after_all(
            cmds,
        ).after(c) && s.finishes(cmds.push(c)),
        s.finishes(cmds) && (c matches GpuCommand::WaitFence(f) && s.after_all(cmds).fences.done(f))
            ==> s.after_all(cmds.push(c)) == s.after_all(cmds) && s.finishes(cmds.push(c)),
        !s.finishes(cmds) ==> s.after_all(cmds.push(c)) == s.after_all(cmds) && !s.finishes(
            cmds.push(c),
        ),
{
    assert(cmds.push(c).drop_last() =~= cmds);
}

/// A submission does to memory what its commands do; its own fence is signaled at the end,
/// if they all ran.
pub proof fn submission_does_its_commands(s: SoftwareState, sub: Submission)
    ensures
        ({
            let start = ExecState {
                memory: s.machine.memory,
                fences: s.machine.fences.allocated(),
            };
            let done = start.after_all(sub.commands);
            &&& s.submitted(sub).machine.memory == done.memory
            &&& start.finishes(sub.commands) ==> s.submitted(sub).machine.fences
                == done.fences.signaled(s.machine.fences.next_fence())
            &&& !start.finishes(sub.commands) ==> s.submitted(sub).machine.fences == done.fences
            &&& s.submitted(sub).queues == s.queues
            &&& s.submitted(sub).log == s.log.push(sub)
        }),
{
}

/// A dispatch with work in all three dimensions is done at once; one without leaves a fence
/// that nothing signals. Memory stays as it is.
pub proof fn dispatch_is_done_at_once(s: SoftwareState, workgroups: Seq<u32>)
    requires
        s.machine.fences.next_local < 0x1_0000_0000_0000,
    ensures
        ({
            let a = s.dispatched(workgroups);
            &&& a.machine.fences.done(s.machine.fences.next_fence()) <==> workgroups[0] != 0
                && workgroups[1] != 0 && workgroups[2] != 0
            &&& a.machine.memory == s.machine.memory
            &&& a.queues == s.queues
            &&& a.log == s.log
        }),
{
    fence::fence_is_done_once_signaled(s.machine.fences);
}

/// What the software device can do.
pub proof fn software_device_computes(c: GpuCapabilities)
    requires
        is_software_caps(c),
    ensures
        c.max_queues == 16,
        c.shader_formats.bits == 3,
        c.supports_compute && c.supports_unified_memory && !c.supports_graphics,
        c.max_workgroup_size@ == seq![1024u32, 1024u32, 64u32],
        c.max_workgroup_invocations == 1024,
        c.max_shared_memory == 64 * 1024,
        c.compute_units == 1,
        c.device_memory_bytes == 0,
        MAX_QUEUES == 16,
{
    assert(0x1u32 | 0x2u32 == 3u32) by (bit_vector);
}

} // verus!
