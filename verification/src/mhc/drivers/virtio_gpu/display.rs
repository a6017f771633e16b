//! Showing pixels on a virtual GPU.
//!
//! As bringing the device up, this alternates between the driver and the hardware:
//! each machine is told what happened and says what to do next.

use crate::mhc::drivers::virtio_gpu::virtqueue;
use crate::mhc::drivers::virtio_gpu::protocol;
use crate::mhc::drivers::virtio_gpu::protocol::{DISPLAY_INFO_SIZE, HDR_SIZE};
use crate::mhc::drivers::virtio_gpu::virtqueue::{
    poll_used, send_command, MemOp, PollStep, VirtioHwState,
};
use vstd::prelude::*;

verus! {

/// Identifier of the resource that is shown.
pub const RES_ID: u32 = 10;

/// Bytes of a pixel.
pub const BYTES_PER_PIXEL: usize = 4;

/// Size of the buffer for the commands that set a display up.
pub const SETUP_CMD_SIZE: usize = 48;

/// Size of the buffer for the commands that show pixels.
pub const UPDATE_CMD_SIZE: usize = 56;

/// Size of a response without data.
pub const RESP_SIZE: usize = 24;

/// A display resource.
#[derive(Clone, Copy, Debug, PartialEq, Eq, Structural)]
pub struct VirtioScanout {
    /// Resource.
    pub resource_id: u32,
    /// Virtual address of the pixels.
    pub backing_va: usize,
    /// Physical address of the pixels.
    pub backing_pa: u64,
    /// Width in pixels.
    pub width: u32,
    /// Height in pixels.
    pub height: u32,
    /// Virtual address of the command buffer.
    pub cmd_va: usize,
    /// Physical address of the command buffer.
    pub cmd_pa: u64,
    /// Size of the command buffer.
    pub cmd_len: usize,
}

/// A command on its way to the device: zeros and then bytes at an address, and then
/// operations that hand them over. Afterwards the driver looks for the answer.
#[derive(Debug)]
pub struct SendPlan {
    /// Address of the command buffer.
    pub va: usize,
    /// Number of zeros.
    pub zeros: usize,
    /// Bytes of the command.
    pub bytes: Vec<u8>,
    /// Operations.
    pub ops: Vec<MemOp>,
}

/// A command on its way, as mathematical values.
#[verifier::ext_equal]
pub struct SendPlanView {
    pub va: usize,
    pub zeros: usize,
    pub bytes: Seq<u8>,
    pub ops: Seq<MemOp>,
}

impl View for SendPlan {
    type V = SendPlanView;

    open spec fn view(&self) -> SendPlanView {
        SendPlanView { va: self.va, zeros: self.zeros, bytes: self.bytes@, ops: self.ops@ }
    }
}

/// The queue after a command was handed over.
pub open spec fn after_send(hw: VirtioHwState) -> VirtioHwState {
    VirtioHwState { avail_idx: hw.avail_idx.wrapping_add(1), ..hw }
}

/// A command of some bytes in a buffer of `room` bytes, with room for a response
/// behind it.
pub open spec fn plan_of(
    hw: VirtioHwState,
    va: usize,
    pa: u64,
    room: usize,
    bytes: Seq<u8>,
) -> SendPlanView {
    SendPlanView {
        va,
        zeros: (room + RESP_SIZE) as usize,
        bytes,
        ops: virtqueue::send_ops(
            hw,
            pa,
            bytes.len() as u32,
            (pa + room) as u64,
            RESP_SIZE as u32,
            hw.notify_va != 0,
        ),
    }
}

/// Hands a command over.
fn plan_send(hw: &mut VirtioHwState, va: usize, pa: u64, room: usize, bytes: Vec<u8>) -> (r: SendPlan)
    requires
        old(hw).wf(),
        pa + room <= u64::MAX,
        room <= 0x1000,
        bytes@.len() <= room,
    ensures
        final(hw).wf(),
        *final(hw) == after_send(*old(hw)),
        r@ == plan_of(*old(hw), va, pa, room, bytes@),
{
    let ring: bool = hw.notify_va != 0;
    let ops = send_command(
        hw,
        pa,
        bytes.len() as u32,
        pa + room as u64,
        RESP_SIZE as u32,
        ring,
    );
    hw.avail_idx = hw.avail_idx.wrapping_add(1);
    SendPlan { va, zeros: room + RESP_SIZE, bytes, ops }
}

/// What the query for displays waits for.
#[derive(Clone, Copy, Debug, PartialEq, Eq, Structural)]
pub enum QueryStage {
    /// Memory for the command and the response.
    Memory,
    /// The device to use the command.
    Used,
    /// The bytes of the response.
    Response,
    /// Nothing.
    Finished,
}

/// What happened.
#[derive(Debug)]
pub enum QueryEvent {
    /// Memory: its virtual and its physical address.
    Memory(usize, u64),
    /// No memory.
    NoMemory(&'static str),
    /// The counter of the device.
    Counter(u16),
    /// The bytes of the response.
    Response(Vec<u8>),
}

/// What to do next.
#[derive(Debug)]
pub enum QueryAction {
    /// Provide memory.
    AllocMemory(usize),
    /// Hand the command over, and read the counter of the device.
    Send(SendPlan),
    /// Read the counter of the device again.
    Poll,
    /// Read the response at an address.
    ReadResponse(usize, usize),
    /// The number of scanouts, or why it is not known.
    Finish(Result<u32, &'static str>),
}

/// The query for displays.
#[derive(Clone, Copy, Debug, PartialEq, Eq, Structural)]
pub struct DisplayQuery {
    pub stage: QueryStage,
    /// The queue.
    pub hw: VirtioHwState,
    /// Address of the command.
    pub cmd_va: usize,
    /// Looks at the counter so far.
    pub polls: u64,
}

impl DisplayQuery {
    /// The queue is in order, and the response does not wrap around.
    pub open spec fn wf(self) -> bool {
        &&& self.hw.wf()
        &&& self.polls <= 50_000_001
        &&& self.stage == QueryStage::Used || self.stage == QueryStage::Response ==> self.cmd_va
            + 0x1000 <= usize::MAX
    }

    /// The event is an answer to what the query waits for.
    pub open spec fn expects(self, e: QueryEvent) -> bool {
        match (self.stage, e) {
            (QueryStage::Memory, QueryEvent::Memory(va, pa)) => va + 0x1000 <= usize::MAX && pa
                + 0x1000 <= u64::MAX,
            (QueryStage::Memory, QueryEvent::NoMemory(_)) => true,
            (QueryStage::Used, QueryEvent::Counter(_)) => self.polls <= 50_000_000,
            (QueryStage::Response, QueryEvent::Response(b)) => b@.len() >= DISPLAY_INFO_SIZE,
            _ => false,
        }
    }

    /// Begins a query on a queue that has sent nothing.
    pub fn new(hw: VirtioHwState) -> (r: (Self, QueryAction))
        requires
            hw.wf(),
        ensures
            r.0.wf(),
            r.0 == (DisplayQuery { stage: QueryStage::Memory, hw, cmd_va: 0, polls: 0 }),
            r.1 == QueryAction::AllocMemory(432),
    {
        (
            DisplayQuery { stage: QueryStage::Memory, hw, cmd_va: 0, polls: 0 },
            QueryAction::AllocMemory(HDR_SIZE + DISPLAY_INFO_SIZE),
        )
    }

    /// Takes what happened and says what to do next. The command is a bare header; the
    /// doorbell is rung if there is one.
    pub fn step(&mut self, event: QueryEvent) -> (a: QueryAction)
        requires
            old(self).wf(),
            old(self).expects(event),
        ensures
            final(self).wf(),
            match event {
                QueryEvent::NoMemory(m) => {
                    &&& *final(self) == (DisplayQuery { stage: QueryStage::Finished, ..*old(self) })
                    &&& a matches QueryAction::Finish(Err(e)) && e@ == m@
                },
                QueryEvent::Memory(va, pa) => {
                    &&& *final(self) == (DisplayQuery {
                        stage: QueryStage::Used,
                        cmd_va: va,
                        polls: 0,
                        ..*old(self)
                    })
                    &&& a matches QueryAction::Send(p) && p@ == (SendPlanView {
                        va,
                        zeros: 432,
                        bytes: protocol::display_info_bytes(),
                        ops: virtqueue::send_ops(
                            old(self).hw,
                            pa,
                            24,
                            (pa + 24) as u64,
                            408,
                            old(self).hw.notify_va != 0 && old(self).hw.notify_multiplier != 0,
                        ),
                    })
                },
                QueryEvent::Counter(c) => match virtqueue::poll_result(
                    c,
                    old(self).hw.last_used_idx,
                    (old(self).polls + 1) as u64,
                ) {
                    PollStep::Done => {
                        &&& *final(self) == (DisplayQuery {
                            stage: QueryStage::Response,
                            hw: VirtioHwState {
                                last_used_idx: old(self).hw.last_used_idx.wrapping_add(1),
                                ..old(self).hw
                            },
                            polls: (old(self).polls + 1) as u64,
                            ..*old(self)
                        })
                        &&& a == QueryAction::ReadResponse((old(self).cmd_va + 24) as usize, 408)
                    },
                    PollStep::Again => a == QueryAction::Poll && *final(self) == (DisplayQuery {
                        polls: (old(self).polls + 1) as u64,
                        ..*old(self)
                    }),
                    PollStep::TimedOut => {
                        &&& *final(self) == (DisplayQuery {
                            stage: QueryStage::Finished,
                            polls: (old(self).polls + 1) as u64,
                            ..*old(self)
                        })
                        &&& a matches QueryAction::Finish(Err(e)) && e@
                            == "GET_DISPLAY_INFO timed out"@
                    },
                },
                QueryEvent::Response(b) => {
                    &&& *final(self) == (DisplayQuery { stage: QueryStage::Finished, ..*old(self) })
                    &&& a == QueryAction::Finish(Ok(protocol::scanouts_in(b@)))
                },
            },
    {
        match event {
            QueryEvent::NoMemory(m) => {
                self.stage = QueryStage::Finished;
                QueryAction::Finish(Err(m))
            },
            QueryEvent::Memory(va, pa) => {
                self.cmd_va = va;
                self.polls = 0;
                self.stage = QueryStage::Used;
                let bytes = protocol::get_display_info();
                let ring: bool = self.hw.notify_va != 0 && self.hw.notify_multiplier != 0;
                let ops = send_command(
                    &self.hw,
                    pa,
                    HDR_SIZE as u32,
                    pa + HDR_SIZE as u64,
                    DISPLAY_INFO_SIZE as u32,
                    ring,
                );
                QueryAction::Send(
                    SendPlan { va, zeros: HDR_SIZE + DISPLAY_INFO_SIZE, bytes, ops },
                )
            },
            QueryEvent::Counter(c) => {
                self.polls = self.polls + 1;
                match poll_used(&mut self.hw, c, self.polls) {
                    PollStep::Done => {
                        self.stage = QueryStage::Response;
                        QueryAction::ReadResponse(self.cmd_va + HDR_SIZE, DISPLAY_INFO_SIZE)
                    },
                    PollStep::Again => QueryAction::Poll,
                    PollStep::TimedOut => {
                        self.stage = QueryStage::Finished;
                        QueryAction::Finish(Err("GET_DISPLAY_INFO timed out"))
                    },
                }
            },
            QueryEvent::Response(b) => {
                self.stage = QueryStage::Finished;
                QueryAction::Finish(Ok(protocol::parse_display_info(&b)))
            },
        }
    }
}

/// What setting a display up waits for.
#[derive(Clone, Copy, Debug, PartialEq, Eq, Structural)]
pub enum SetupStage {
    /// Memory for the pixels.
    Backing,
    /// Memory for commands.
    Commands,
    /// The answer to the creation of the resource.
    Created,
    /// The answer to the attachment of the pixels.
    Attached,
    /// The answer to the choice of the scanout.
    Shown,
    /// Memory for later commands.
    Runtime,
    /// Nothing.
    Finished,
}

/// What happened.
#[derive(Clone, Copy, Debug, PartialEq, Eq, Structural)]
pub enum SetupEvent {
    /// Memory: its virtual and its physical address.
    Memory(usize, u64),
    /// No memory.
    NoMemory,
    /// The device has answered the command.
    Answered,
    /// The device has not answered.
    TimedOut,
}

/// What to do next.
#[derive(Debug)]
pub enum SetupAction {
    /// Provide memory that is physically contiguous. That for pixels is zeroed.
    AllocMemory(usize),
    /// Hand a command over and wait for the answer.
    Send(SendPlan),
    /// The display, or why there is none.
    Finish(Result<VirtioScanout, &'static str>),
}

/// What to do next, as mathematical values.
pub enum SetupActionView {
    AllocMemory(usize),
    Send(SendPlanView),
    Done(VirtioScanout),
    Failed(Seq<char>),
}

impl View for SetupAction {
    type V = SetupActionView;

    open spec fn view(&self) -> SetupActionView {
        match *self {
            SetupAction::AllocMemory(n) => SetupActionView::AllocMemory(n),
            SetupAction::Send(p) => SetupActionView::Send(p@),
            SetupAction::Finish(Ok(s)) => SetupActionView::Done(s),
            SetupAction::Finish(Err(m)) => SetupActionView::Failed(m@),
        }
    }
}

/// Setting a display up: a resource is created, the pixels are attached to it, and it
/// is shown on the first scanout.
#[derive(Clone, Copy, Debug, PartialEq, Eq, Structural)]
pub struct DisplaySetup {
    pub stage: SetupStage,
    /// Width in pixels.
    pub width: u32,
    /// Height in pixels.
    pub height: u32,
    /// Virtual address of the pixels.
    pub backing_va: usize,
    /// Physical address of the pixels.
    pub backing_pa: u64,
    /// Virtual address of the commands.
    pub cmd_va: usize,
    /// Physical address of the commands.
    pub cmd_pa: u64,
}

impl DisplaySetup {
    /// Bytes of all pixels.
    pub open spec fn size(self) -> int {
        self.width * self.height * 4
    }

    /// The addresses of commands do not wrap around.
    pub open spec fn wf(self) -> bool {
        &&& self.cmd_pa + 0x1000 <= u64::MAX
        &&& 0 <= self.size() <= usize::MAX
    }

    /// The event is an answer to what the setup waits for.
    pub open spec fn expects(self, e: SetupEvent) -> bool {
        match (self.stage, e) {
            (SetupStage::Commands, SetupEvent::Memory(va, pa)) => pa + 0x1000 <= u64::MAX,
            (
                SetupStage::Backing | SetupStage::Runtime,
                SetupEvent::Memory(va, pa),
            ) => true,
            (
                SetupStage::Backing | SetupStage::Commands | SetupStage::Runtime,
                SetupEvent::NoMemory,
            ) => true,
            (
                SetupStage::Created | SetupStage::Attached | SetupStage::Shown,
                SetupEvent::Answered | SetupEvent::TimedOut,
            ) => true,
            _ => false,
        }
    }

    /// The setup at another stage.
    pub open spec fn at(self, stage: SetupStage) -> DisplaySetup {
        DisplaySetup { stage, ..self }
    }

    /// The setup after an event, and what to do next on a queue.
    pub open spec fn next(self, hw: VirtioHwState, e: SetupEvent) -> (
        DisplaySetup,
        SetupActionView,
    ) {
        match (self.stage, e) {
            (SetupStage::Backing, SetupEvent::Memory(va, pa)) => (
                DisplaySetup {
                    backing_va: va,
                    backing_pa: pa,
                    stage: SetupStage::Commands,
                    ..self
                },
                SetupActionView::AllocMemory(72),
            ),
            (SetupStage::Backing, _) => (
                self.at(SetupStage::Finished),
                SetupActionView::Failed("VirtIO-GPU: scanout DMA alloc failed"@),
            ),
            (SetupStage::Commands, SetupEvent::Memory(va, pa)) => (
                DisplaySetup { cmd_va: va, cmd_pa: pa, stage: SetupStage::Created, ..self },
                SetupActionView::Send(
                    plan_of(
                        hw,
                        va,
                        pa,
                        SETUP_CMD_SIZE,
                        protocol::create_2d_bytes(RES_ID, self.width, self.height),
                    ),
                ),
            ),
            (SetupStage::Commands, _) => (
                self.at(SetupStage::Finished),
                SetupActionView::Failed("VirtIO-GPU: cmd DMA alloc failed"@),
            ),
            (SetupStage::Created, SetupEvent::Answered) => (
                self.at(SetupStage::Attached),
                SetupActionView::Send(
                    plan_of(
                        hw,
                        self.cmd_va,
                        self.cmd_pa,
                        SETUP_CMD_SIZE,
                        protocol::attach_backing_bytes(
                            RES_ID,
                            self.backing_pa,
                            (self.size() as usize) as u32,
                        ),
                    ),
                ),
            ),
            (SetupStage::Attached, SetupEvent::Answered) => (
                self.at(SetupStage::Shown),
                SetupActionView::Send(
                    plan_of(
                        hw,
                        self.cmd_va,
                        self.cmd_pa,
                        SETUP_CMD_SIZE,
                        protocol::set_scanout_bytes(0, RES_ID, self.width, self.height),
                    ),
                ),
            ),
            (SetupStage::Shown, SetupEvent::Answered) => (
                self.at(SetupStage::Runtime),
                SetupActionView::AllocMemory(80),
            ),
            (SetupStage::Runtime, SetupEvent::Memory(va, pa)) => (
                self.at(SetupStage::Finished),
                SetupActionView::Done(
                    VirtioScanout {
                        resource_id: RES_ID,
                        backing_va: self.backing_va,
                        backing_pa: self.backing_pa,
                        width: self.width,
                        height: self.height,
                        cmd_va: va,
                        cmd_pa: pa,
                        cmd_len: 80,
                    },
                ),
            ),
            (SetupStage::Runtime, _) => (
                self.at(SetupStage::Finished),
                SetupActionView::Failed("VirtIO-GPU: runtime cmd DMA alloc failed"@),
            ),
            _ => (
                self.at(SetupStage::Finished),
                SetupActionView::Failed("VirtIO-GPU: command timed out"@),
            ),
        }
    }

    /// Begins to set a display up.
    pub fn new(width: u32, height: u32) -> (r: (Self, SetupAction))
        requires
            width * height * 4 <= usize::MAX,
        ensures
            r.0.wf(),
            r.0 == (DisplaySetup {
                stage: SetupStage::Backing,
                width,
                height,
                backing_va: 0,
                backing_pa: 0,
                cmd_va: 0,
                cmd_pa: 0,
            }),
            r.1 == SetupAction::AllocMemory((width * height * 4) as usize),
    {
        let size: usize = pixel_bytes(width, height);
        (
            DisplaySetup {
                stage: SetupStage::Backing,
                width,
                height,
                backing_va: 0,
                backing_pa: 0,
                cmd_va: 0,
                cmd_pa: 0,
            },
            SetupAction::AllocMemory(size),
        )
    }

    /// Takes what happened and says what to do next on a queue.
    pub fn step(&mut self, hw: &mut VirtioHwState, event: SetupEvent) -> (a: SetupAction)
        requires
            old(self).wf(),
            old(hw).wf(),
            old(self).expects(event),
        ensures
            final(self).wf(),
            final(hw).wf(),
            *final(self) == old(self).next(*old(hw), event).0,
            a@ == old(self).next(*old(hw), event).1,
            *final(hw) == if a is Send {
                after_send(*old(hw))
            } else {
                *old(hw)
            },
    {
        match event {
            SetupEvent::Memory(va, pa) => match self.stage {
                SetupStage::Backing => {
                    self.backing_va = va;
                    self.backing_pa = pa;
                    self.stage = SetupStage::Commands;
                    SetupAction::AllocMemory(SETUP_CMD_SIZE + RESP_SIZE)
                },
                SetupStage::Commands => {
                    self.cmd_va = va;
                    self.cmd_pa = pa;
                    self.stage = SetupStage::Created;
                    let bytes = protocol::create_2d(RES_ID, self.width, self.height);
                    SetupAction::Send(plan_send(hw, va, pa, SETUP_CMD_SIZE, bytes))
                },
                _ => {
                    self.stage = SetupStage::Finished;
                    SetupAction::Finish(
                        Ok(
                            VirtioScanout {
                                resource_id: RES_ID,
                                backing_va: self.backing_va,
                                backing_pa: self.backing_pa,
                                width: self.width,
                                height: self.height,
                                cmd_va: va,
                                cmd_pa: pa,
                                cmd_len: UPDATE_CMD_SIZE + RESP_SIZE,
                            },
                        ),
                    )
                },
            },
            SetupEvent::NoMemory => {
                let m = match self.stage {
                    SetupStage::Backing => "VirtIO-GPU: scanout DMA alloc failed",
                    SetupStage::Commands => "VirtIO-GPU: cmd DMA alloc failed",
                    _ => "VirtIO-GPU: runtime cmd DMA alloc failed",
                };
                self.stage = SetupStage::Finished;
                SetupAction::Finish(Err(m))
            },
            SetupEvent::TimedOut => {
                self.stage = SetupStage::Finished;
                SetupAction::Finish(Err("VirtIO-GPU: command timed out"))
            },
            SetupEvent::Answered => match self.stage {
                SetupStage::Created => {
                    self.stage = SetupStage::Attached;
                    let size: usize = pixel_bytes(self.width, self.height);
                    let length: u32 = #[verifier::truncate] (size as u32);
                    let bytes = protocol::attach_backing(RES_ID, self.backing_pa, length);
                    SetupAction::Send(
                        plan_send(hw, self.cmd_va, self.cmd_pa, SETUP_CMD_SIZE, bytes),
                    )
                },
                SetupStage::Attached => {
                    self.stage = SetupStage::Shown;
                    let bytes = protocol::set_scanout(0, RES_ID, self.width, self.height);
                    SetupAction::Send(
                        plan_send(hw, self.cmd_va, self.cmd_pa, SETUP_CMD_SIZE, bytes),
                    )
                },
                _ => {
                    self.stage = SetupStage::Runtime;
                    SetupAction::AllocMemory(UPDATE_CMD_SIZE + RESP_SIZE)
                },
            },
        }
    }
}

/// Bytes of all pixels.
fn pixel_bytes(width: u32, height: u32) -> (n: usize)
    requires
        width * height * 4 <= usize::MAX,
    ensures
        n == width * height * 4,
{
    assert(width * height >= 0) by (nonlinear_arith);
    width as usize * height as usize * BYTES_PER_PIXEL
}

/// What showing pixels waits for.
#[derive(Clone, Copy, Debug, PartialEq, Eq, Structural)]
pub enum UpdateStage {
    /// The answer to the transfer.
    Transferred,
    /// The answer to the flush.
    Flushed,
    /// Nothing.
    Finished,
}

/// What to do next.
#[derive(Debug)]
pub enum UpdateAction {
    /// Copy so many pixels to the memory of the display, then hand a command over and
    /// wait for the answer.
    CopyAndSend(usize, SendPlan),
    /// Hand a command over and wait for the answer.
    Send(SendPlan),
    /// The pixels are shown, or why they are not.
    Finish(Result<(), &'static str>),
}

/// The command that transfers the pixels of a display.
pub open spec fn transfer_plan(hw: VirtioHwState, s: VirtioScanout) -> SendPlanView {
    plan_of(
        hw,
        s.cmd_va,
        s.cmd_pa,
        UPDATE_CMD_SIZE,
        protocol::transfer_2d_bytes(s.resource_id, s.width, s.height),
    )
}

/// The command that shows the pixels of a display.
pub open spec fn flush_plan(hw: VirtioHwState, s: VirtioScanout) -> SendPlanView {
    plan_of(
        hw,
        s.cmd_va,
        s.cmd_pa,
        UPDATE_CMD_SIZE,
        protocol::flush_bytes(s.resource_id, s.width, s.height),
    )
}

/// Begins to show pixels: they are copied and transferred. There have to be enough of
/// them.
pub fn begin_update(hw: &mut VirtioHwState, s: &VirtioScanout, pixels: usize) -> (r: (
    UpdateStage,
    UpdateAction,
))
    requires
        old(hw).wf(),
        s.width * s.height <= u32::MAX,
        s.cmd_pa + 0x1000 <= u64::MAX,
    ensures
        final(hw).wf(),
        pixels < s.width * s.height ==> {
            &&& *final(hw) == *old(hw)
            &&& r.0 == UpdateStage::Finished
            &&& r.1 matches UpdateAction::Finish(Err(m)) && m@
                == "VirtIO-GPU: pixel buffer too small"@
        },
        pixels >= s.width * s.height ==> {
            &&& *final(hw) == after_send(*old(hw))
            &&& r.0 == UpdateStage::Transferred
            &&& r.1 matches UpdateAction::CopyAndSend(n, p) && n == s.width * s.height && p@
                == transfer_plan(*old(hw), *s)
        },
{
    assert(s.width * s.height >= 0) by (nonlinear_arith);
    let n: usize = (s.width * s.height) as usize;
    if pixels < n {
        return (
            UpdateStage::Finished,
            UpdateAction::Finish(Err("VirtIO-GPU: pixel buffer too small")),
        );
    }
    let bytes = protocol::transfer_2d(s.resource_id, s.width, s.height);
    let plan = plan_send(hw, s.cmd_va, s.cmd_pa, UPDATE_CMD_SIZE, bytes);
    (UpdateStage::Transferred, UpdateAction::CopyAndSend(n, plan))
}

/// Goes on to show pixels after the device answered or did not.
pub fn continue_update(
    hw: &mut VirtioHwState,
    s: &VirtioScanout,
    stage: UpdateStage,
    answered: bool,
) -> (r: (UpdateStage, UpdateAction))
    requires
        old(hw).wf(),
        stage != UpdateStage::Finished,
        s.cmd_pa + 0x1000 <= u64::MAX,
    ensures
        final(hw).wf(),
        !answered ==> {
            &&& *final(hw) == *old(hw)
            &&& r.0 == UpdateStage::Finished
            &&& r.1 matches UpdateAction::Finish(Err(m)) && m@ == "VirtIO-GPU: command timed out"@
        },
        answered && stage == UpdateStage::Transferred ==> {
            &&& *final(hw) == after_send(*old(hw))
            &&& r.0 == UpdateStage::Flushed
            &&& r.1 matches UpdateAction::Send(p) && p@ == flush_plan(*old(hw), *s)
        },
        answered && stage == UpdateStage::Flushed ==> {
            &&& *final(hw) == *old(hw)
            &&& r.0 == UpdateStage::Finished
            &&& r.1 == UpdateAction::Finish(Ok(()))
        },
{
    if !answered {
        return (
            UpdateStage::Finished,
            UpdateAction::Finish(Err("VirtIO-GPU: command timed out")),
        );
    }
    match stage {
        UpdateStage::Transferred => {
            let bytes = protocol::flush(s.resource_id, s.width, s.height);
            let plan = plan_send(hw, s.cmd_va, s.cmd_pa, UPDATE_CMD_SIZE, bytes);
            (UpdateStage::Flushed, UpdateAction::Send(plan))
        },
        _ => (UpdateStage::Finished, UpdateAction::Finish(Ok(()))),
    }
}

/// A display that was set up shows the resource at the size that was asked for, in
/// memory that was provided for it.
pub proof fn finished_setup_has_the_display(s: DisplaySetup, hw: VirtioHwState, e: SetupEvent)
    requires
        s.expects(e),
        s.next(hw, e).1 is Done,
    ensures
        s.stage == SetupStage::Runtime,
        s.next(hw, e).1->Done_0.width == s.width,
        s.next(hw, e).1->Done_0.height == s.height,
        s.next(hw, e).1->Done_0.backing_pa == s.backing_pa,
        s.next(hw, e).1->Done_0.resource_id == RES_ID,
{
}

/// A command is put at the start of its memory and 24 bytes for the answer follow the room
/// for it. The device is told where both are, and notified if it has a place for that.
pub proof fn answer_follows_the_command(
    hw: VirtioHwState,
    va: usize,
    pa: u64,
    room: usize,
    bytes: Seq<u8>,
)
    requires
        hw.wf(),
        pa + room <= u64::MAX,
        room <= 0x1000,
        bytes.len() <= room,
    ensures
        ({
            let p = plan_of(hw, va, pa, room, bytes);
            &&& p.va == va
            &&& p.bytes == bytes
            &&& p.zeros == room + 24
            &&& p.ops.len() == if hw.notify_va == 0 { 12int } else { 13 }
            &&& p.ops[0] matches MemOp::Write { value, .. } && value == pa
            &&& p.ops[1] matches MemOp::Write { value, .. } && value == bytes.len()
            &&& p.ops[4] matches MemOp::Write { value, .. } && value == pa + room
            &&& p.ops[5] matches MemOp::Write { value, .. } && value == 24
        }),
{
    virtqueue::command_is_chained_to_its_response(
        hw,
        pa,
        bytes.len() as u32,
        (pa + room) as u64,
        24,
        hw.notify_va != 0,
    );
}

/// A send takes the next place of the ring; nothing else of the queue changes.
pub proof fn send_takes_one_place(hw: VirtioHwState)
    requires
        hw.avail_idx < 0xFFFF,
    ensures
        after_send(hw).avail_idx == hw.avail_idx + 1,
        hw == (VirtioHwState { avail_idx: hw.avail_idx, ..after_send(hw) }),
{
}

/// A display is set up by three commands, each sent once the one before it was answered: the
/// first creates the image with number 10 in the size of the display, the second gives it the
/// memory that was had for its pixels, the third shows it on the first output. Memory is
/// asked for each of these and for the commands that follow.
pub proof fn display_takes_three_commands(s: DisplaySetup, hw: VirtioHwState, va: usize, pa: u64)
    requires
        s.wf(),
        hw.wf(),
        pa + 0x1000 <= u64::MAX,
    ensures
        s.stage == SetupStage::Backing ==> {
            let r = s.next(hw, SetupEvent::Memory(va, pa));
            &&& r.1 == SetupActionView::AllocMemory(72)
            &&& r.0 == (DisplaySetup {
                stage: SetupStage::Commands,
                backing_va: va,
                backing_pa: pa,
                ..s
            })
        },
        s.stage == SetupStage::Commands ==> {
            let r = s.next(hw, SetupEvent::Memory(va, pa));
            &&& r.0 == (DisplaySetup { stage: SetupStage::Created, cmd_va: va, cmd_pa: pa, ..s })
            &&& r.1 matches SetupActionView::Send(p) && p.va == va && p.zeros == 72
                && protocol::word(p.bytes, 0) == 0x101 && protocol::word(p.bytes, 24) == 10
                && protocol::word(p.bytes, 32) == s.width && protocol::word(p.bytes, 36) == s.height
        },
        s.stage == SetupStage::Created ==> {
            let r = s.next(hw, SetupEvent::Answered);
            &&& r.0 == (DisplaySetup { stage: SetupStage::Attached, ..s })
            &&& r.1 matches SetupActionView::Send(p) && p.va == s.cmd_va && p.zeros == 72
                && protocol::word(p.bytes, 0) == 0x106 && protocol::word(p.bytes, 24) == 10
                && protocol::word(p.bytes, 32) + 0x1_0000_0000 * protocol::word(p.bytes, 36)
                == s.backing_pa && (4 * (s.width * s.height) <= u32::MAX ==> protocol::word(
                p.bytes,
                40,
            ) == 4 * (s.width * s.height))
        },
        s.stage == SetupStage::Attached ==> {
            let r = s.next(hw, SetupEvent::Answered);
            &&& r.0 == (DisplaySetup { stage: SetupStage::Shown, ..s })
            &&& r.1 matches SetupActionView::Send(p) && p.va == s.cmd_va && p.zeros == 72
                && protocol::word(p.bytes, 0) == 0x103 && protocol::word(p.bytes, 32) == s.width
                && protocol::word(p.bytes, 36) == s.height && protocol::word(p.bytes, 40) == 0
                && protocol::word(p.bytes, 44) == 10
        },
        s.stage == SetupStage::Shown ==> s.next(hw, SetupEvent::Answered) == (
            DisplaySetup { stage: SetupStage::Runtime, ..s },
            SetupActionView::AllocMemory(80),
        ),
        s.stage == SetupStage::Runtime ==> (s.next(
            hw,
            SetupEvent::Memory(va, pa),
        ).1 matches SetupActionView::Done(d) && d.resource_id == 10 && d.width == s.width && d.height
            == s.height && d.backing_va == s.backing_va && d.backing_pa == s.backing_pa && d.cmd_va
            == va && d.cmd_pa == pa && d.cmd_len == 56 + 24),
{
    protocol::create_command_holds_its_fields(10, s.width, s.height);
    let size = (s.size() as usize) as u32;
    protocol::attach_command_holds_its_fields(10, s.backing_pa, size);
    protocol::scanout_command_holds_its_fields(0, 10, s.width, s.height);
    assert(s.size() == 4 * (s.width * s.height)) by (nonlinear_arith)
        requires
            s.size() == s.width * s.height * 4,
    ;
}

/// A step that gets no memory or no answer ends the setup of the display with its own error.
pub proof fn failed_step_ends_the_setup(s: DisplaySetup, hw: VirtioHwState, e: SetupEvent)
    requires
        s.expects(e),
    ensures
        s.next(hw, e).1 is Failed <==> e is NoMemory || e is TimedOut,
        s.next(hw, e).1 is Failed ==> s.next(hw, e).0.stage == SetupStage::Finished,
        e is TimedOut ==> s.next(hw, e).1 == SetupActionView::Failed(
            "VirtIO-GPU: command timed out"@,
        ),
{
}

/// Pixels are shown by two commands on the image of the display: one that transfers all of
/// it, and one that flushes all of it.
pub proof fn update_moves_the_whole_image(hw: VirtioHwState, s: VirtioScanout)
    requires
        hw.wf(),
        s.cmd_pa + 0x1000 <= u64::MAX,
    ensures
        ({
            let t = transfer_plan(hw, s);
            let f = flush_plan(hw, s);
            &&& t.va == s.cmd_va && f.va == s.cmd_va
            &&& t.zeros == 80 && f.zeros == 80
            &&& protocol::word(t.bytes, 0) == 0x105 && protocol::word(f.bytes, 0) == 0x104
            &&& protocol::word(t.bytes, 32) == s.width && protocol::word(f.bytes, 32) == s.width
            &&& protocol::word(t.bytes, 36) == s.height && protocol::word(f.bytes, 36) == s.height
            &&& protocol::word(t.bytes, 48) == s.resource_id
            &&& protocol::word(f.bytes, 40) == s.resource_id
            &&& t.ops[4] matches MemOp::Write { value, .. } && value == s.cmd_pa + 56
            &&& f.ops[4] matches MemOp::Write { value, .. } && value == s.cmd_pa + 56
        }),
{
    protocol::transfer_command_holds_its_fields(s.resource_id, s.width, s.height);
    protocol::flush_command_holds_its_fields(s.resource_id, s.width, s.height);
    answer_follows_the_command(
        hw,
        s.cmd_va,
        s.cmd_pa,
        56,
        protocol::transfer_2d_bytes(s.resource_id, s.width, s.height),
    );
    answer_follows_the_command(
        hw,
        s.cmd_va,
        s.cmd_pa,
        56,
        protocol::flush_bytes(s.resource_id, s.width, s.height),
    );
}

} // verus!
