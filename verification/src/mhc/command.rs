//! Command buffers: batches of GPU commands.

pub mod pipeline_stage;

use crate::mhc::device::BufferBinding;
use crate::mhc::fence::FenceId;
use crate::mhc::memory::GpuAddress;
use crate::mhc::shader::ShaderHandle;
use vstd::prelude::*;

verus! {

/// A set of pipeline stages.
#[derive(Clone, Copy, Debug, PartialEq, Eq, Structural)]
pub struct PipelineStage {
    /// Union of the stages.
    pub bits: u32,
}

/// A GPU command.
#[derive(Debug)]
pub enum GpuCommand {
    /// Runs a compute shader.
    DispatchCompute {
        /// Shader.
        shader: ShaderHandle,
        /// Number of workgroups.
        workgroups: [u32; 3],
        /// Buffers.
        bindings: Vec<BufferBinding>,
        /// Inline data.
        push_constants: Vec<u8>,
    },
    /// Copies data between two buffers.
    CopyBuffer { src: GpuAddress, dst: GpuAddress, size: usize },
    /// Fills a buffer with a 32-bit value.
    FillBuffer { dst: GpuAddress, size: usize, value: u32 },
    /// Copies data from the host to a buffer.
    UploadBuffer { data: Vec<u8>, dst: GpuAddress },
    /// Has all work of one stage complete before any work of another begins.
    PipelineBarrier { src_stage: PipelineStage, dst_stage: PipelineStage },
    /// Signals a fence.
    SignalFence(FenceId),
    /// Waits for a fence.
    WaitFence(FenceId),
    /// Copies between two images.
    Blit {
        src: GpuAddress,
        dst: GpuAddress,
        src_width: u32,
        src_height: u32,
        dst_width: u32,
        dst_height: u32,
    },
    /// Fills an image with a colour.
    Clear { target: GpuAddress, color: [u8; 4], width: u32, height: u32 },
}

/// State of a command buffer.
#[derive(Clone, Copy, Debug, PartialEq, Eq, Structural)]
pub enum CommandBufferState {
    /// Commands can be added.
    Recording,
    /// Complete, and ready to be submitted.
    Executable,
    /// Being executed.
    Pending,
    /// Executed.
    Completed,
}

/// What a command buffer holds.
#[verifier::ext_equal]
pub struct CommandBufferView {
    /// Commands, in order.
    pub commands: Seq<GpuCommand>,
    /// State.
    pub state: CommandBufferState,
}

impl CommandBufferView {
    /// The buffer with one more command.
    pub open spec fn pushed(self, cmd: GpuCommand) -> CommandBufferView {
        CommandBufferView { commands: self.commands.push(cmd), ..self }
    }
}

/// A batch of GPU commands.
#[derive(Debug)]
pub struct CommandBuffer {
    commands: Vec<GpuCommand>,
    state: CommandBufferState,
}

impl View for CommandBuffer {
    type V = CommandBufferView;

    closed spec fn view(&self) -> CommandBufferView {
        CommandBufferView { commands: self.commands@, state: self.state }
    }
}

impl CommandBuffer {
    /// An empty buffer that records.
    pub fn new() -> (b: Self)
        ensures
            b@ == (CommandBufferView {
                commands: Seq::empty(),
                state: CommandBufferState::Recording,
            }),
    {
        CommandBuffer { commands: Vec::new(), state: CommandBufferState::Recording }
    }

    /// An empty buffer that records, with room for `cap` commands.
    pub fn with_capacity(cap: usize) -> (b: Self)
        ensures
            b@ == (CommandBufferView {
                commands: Seq::empty(),
                state: CommandBufferState::Recording,
            }),
    {
        CommandBuffer { commands: Vec::with_capacity(cap), state: CommandBufferState::Recording }
    }

    /// Adds a command.
    pub fn push(&mut self, cmd: GpuCommand)
        requires
            old(self)@.state == CommandBufferState::Recording,
        ensures
            final(self)@ == old(self)@.pushed(cmd),
    {
        self.commands.push(cmd);
    }

    /// Adds a dispatch of a compute shader without inline data.
    pub fn dispatch(
        &mut self,
        shader: ShaderHandle,
        workgroups: [u32; 3],
        bindings: Vec<BufferBinding>,
    ) -> (r: &mut Self)
        requires
            old(self)@.state == CommandBufferState::Recording,
        ensures
            *final(self) == *final(r),
            r@.state == old(self)@.state,
            r@.commands.len() == old(self)@.commands.len() + 1,
            r@.commands.drop_last() == old(self)@.commands,
            match r@.commands.last() {
                GpuCommand::DispatchCompute {
                    shader: s,
                    workgroups: w,
                    bindings: b,
                    push_constants: p,
                } => s == shader && w == workgroups && b == bindings && p@.len() == 0,
                _ => false,
            },
    {
        let ghost before = self@.commands;
        self.push(
            GpuCommand::DispatchCompute {
                shader,
                workgroups,
                bindings,
                push_constants: Vec::new(),
            },
        );
        assert(self@.commands.drop_last() =~= before);
        self
    }

    /// Adds a copy.
    pub fn copy(&mut self, src: GpuAddress, dst: GpuAddress, size: usize) -> (r: &mut Self)
        requires
            old(self)@.state == CommandBufferState::Recording,
        ensures
            *final(self) == *final(r),
            r@ == old(self)@.pushed(GpuCommand::CopyBuffer { src, dst, size }),
    {
        self.push(GpuCommand::CopyBuffer { src, dst, size });
        self
    }

    /// Adds a fill.
    pub fn fill(&mut self, dst: GpuAddress, size: usize, value: u32) -> (r: &mut Self)
        requires
            old(self)@.state == CommandBufferState::Recording,
        ensures
            *final(self) == *final(r),
            r@ == old(self)@.pushed(GpuCommand::FillBuffer { dst, size, value }),
    {
        self.push(GpuCommand::FillBuffer { dst, size, value });
        self
    }

    /// Adds a barrier.
    pub fn barrier(&mut self, src: PipelineStage, dst: PipelineStage) -> (r: &mut Self)
        requires
            old(self)@.state == CommandBufferState::Recording,
        ensures
            *final(self) == *final(r),
            r@ == old(self)@.pushed(
                GpuCommand::PipelineBarrier { src_stage: src, dst_stage: dst },
            ),
    {
        self.push(GpuCommand::PipelineBarrier { src_stage: src, dst_stage: dst });
        self
    }

    /// Completes the buffer. No more commands can be added.
    pub fn finish(&mut self)
        requires
            old(self)@.state == CommandBufferState::Recording,
        ensures
            final(self)@ == (CommandBufferView {
                state: CommandBufferState::Executable,
                ..old(self)@
            }),
    {
        self.state = CommandBufferState::Executable;
    }

    /// Notes that the buffer is being executed.
    pub fn mark_pending(&mut self)
        ensures
            final(self)@ == (CommandBufferView {
                state: CommandBufferState::Pending,
                ..old(self)@
            }),
    {
        self.state = CommandBufferState::Pending;
    }

    /// Notes that the buffer was executed.
    pub fn mark_completed(&mut self)
        ensures
            final(self)@ == (CommandBufferView {
                state: CommandBufferState::Completed,
                ..old(self)@
            }),
    {
        self.state = CommandBufferState::Completed;
    }

    /// The commands.
    pub fn commands(&self) -> (r: &Vec<GpuCommand>)
        ensures
            r@ == self@.commands,
    {
        &self.commands
    }

    /// Number of commands.
    pub fn len(&self) -> (n: usize)
        ensures
            n == self@.commands.len(),
    {
        self.commands.len()
    }

    /// Whether there is no command.
    pub fn is_empty(&self) -> (b: bool)
        ensures
            b == (self@.commands.len() == 0),
    {
        self.commands.len() == 0
    }

    /// State of the buffer.
    pub fn state(&self) -> (s: CommandBufferState)
        ensures
            s == self@.state,
    {
        self.state
    }
}

impl Default for CommandBuffer {
    fn default() -> (b: Self)
        ensures
            b@ == (CommandBufferView {
                commands: Seq::empty(),
                state: CommandBufferState::Recording,
            }),
    {
        Self::new()
    }
}

} // verus!
