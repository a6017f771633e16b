//! The queue through which the driver talks to the device.
//!
//! A queue is a table of descriptors, a ring of heads that the driver makes
//! available, and a ring of heads that the device has used. What has to be written
//! to memory is a list of operations, to be carried out in order.

use vstd::prelude::*;

verus! {

/// Size of a descriptor.
pub const VIRTQ_DESC_SIZE: usize = 16;

/// The descriptor continues in another one.
pub const VIRTQ_DESC_F_NEXT: u16 = 1;

/// The device writes to the buffer.
pub const VIRTQ_DESC_F_WRITE: u16 = 2;

/// Greatest queue size that the driver uses.
pub const MAX_QUEUE_SIZE: u16 = 64;

/// How often the driver looks for a used buffer before it gives up.
pub const MAX_POLLS: u64 = 50_000_000;

/// An operation on memory.
#[derive(Clone, Copy, Debug, PartialEq, Eq, Structural)]
pub enum MemOp {
    /// Writes the lowest `width` bytes of a value at an address.
    Write { addr: usize, width: u8, value: u64 },
    /// Has all earlier writes take effect first.
    Fence,
}

/// Where the parts of a queue lie, from its start.
#[derive(Clone, Copy, Debug, PartialEq, Eq, Structural)]
pub struct QueueLayout {
    /// Ring of available heads.
    pub avail_off: usize,
    /// Ring of used heads.
    pub used_off: usize,
    /// Size of all parts.
    pub total: usize,
}

/// The least multiple of 64 that is not below `n`.
pub open spec fn aligned64(n: int) -> int {
    (n + 63) / 64 * 64
}

/// Size of a queue for what the device offers: not more than the driver uses.
pub open spec fn queue_size(qmax: u16) -> u16 {
    if qmax <= MAX_QUEUE_SIZE {
        qmax
    } else {
        MAX_QUEUE_SIZE
    }
}

/// Layout of a queue: descriptors of 16 bytes, a ring of two-byte heads with six bytes
/// around it, and a ring of eight-byte entries with six bytes around it. Each ring
/// begins at a multiple of 64.
pub open spec fn layout_of(q_size: u16) -> QueueLayout {
    let avail = aligned64(16 * q_size);
    let used = aligned64(avail + 6 + 2 * q_size);
    QueueLayout {
        avail_off: avail as usize,
        used_off: used as usize,
        total: (used + 6 + 8 * q_size) as usize,
    }
}

/// Layout of a queue.
pub fn queue_layout(q_size: u16) -> (l: QueueLayout)
    requires
        q_size <= MAX_QUEUE_SIZE,
    ensures
        l == layout_of(q_size),
        l.total <= 0x1000,
{
    let desc_size: usize = VIRTQ_DESC_SIZE * q_size as usize;
    let avail_size: usize = 6 + 2 * q_size as usize;
    let used_size: usize = 6 + 8 * q_size as usize;
    let avail_off: usize = (desc_size + 63) / 64 * 64;
    let used_off: usize = (avail_off + avail_size + 63) / 64 * 64;
    QueueLayout { avail_off, used_off, total: used_off + used_size }
}

/// The parts of a queue do not overlap, and the rings are aligned.
pub proof fn layout_parts_are_apart(q_size: u16)
    requires
        q_size <= MAX_QUEUE_SIZE,
    ensures
        16 * q_size <= layout_of(q_size).avail_off,
        layout_of(q_size).avail_off + 6 + 2 * q_size <= layout_of(q_size).used_off,
        layout_of(q_size).used_off + 6 + 8 * q_size == layout_of(q_size).total,
        layout_of(q_size).avail_off % 64 == 0,
        layout_of(q_size).used_off % 64 == 0,
{
}

/// State of the queue and of its registers.
#[derive(Clone, Copy, Debug, PartialEq, Eq, Structural)]
pub struct VirtioHwState {
    /// Address of the common configuration.
    pub common_cfg_va: usize,
    /// Address of the doorbell, or zero.
    pub notify_va: usize,
    /// Bytes between the doorbells of two queues.
    pub notify_multiplier: u32,
    /// Address of the descriptors.
    pub desc_va: usize,
    /// Address of the ring of available heads.
    pub avail_va: usize,
    /// Address of the ring of used heads.
    pub used_va: usize,
    /// Physical address of the descriptors.
    pub desc_pa: u64,
    /// Physical address of the ring of available heads.
    pub avail_pa: u64,
    /// Physical address of the ring of used heads.
    pub used_pa: u64,
    /// Queue size.
    pub q_size: u16,
    /// Number of heads that were made available, modulo the counter.
    pub avail_idx: u16,
    /// Number of used heads that were seen, modulo the counter.
    pub last_used_idx: u16,
    /// Next descriptor.
    pub next_desc: u16,
    /// Doorbell of the queue.
    pub notify_queue_off: u16,
}

impl VirtioHwState {
    /// The queue is not empty, and its addresses do not wrap around.
    pub open spec fn wf(self) -> bool {
        &&& 0 < self.q_size <= MAX_QUEUE_SIZE
        &&& self.desc_va + 16 * self.q_size <= usize::MAX
        &&& self.desc_va + 32 <= usize::MAX
        &&& self.avail_va + 6 + 2 * self.q_size <= usize::MAX
        &&& self.used_va + 6 + 8 * self.q_size <= usize::MAX
        &&& self.notify_va + self.notify_queue_off * self.notify_multiplier <= usize::MAX
    }
}

/// Writes of a descriptor.
pub open spec fn desc_ops(
    desc_va: usize,
    idx: u16,
    addr: u64,
    len: u32,
    flags: u16,
    next: u16,
) -> Seq<MemOp> {
    let at = desc_va + 16 * idx;
    seq![
        MemOp::Write { addr: at as usize, width: 8, value: addr },
        MemOp::Write { addr: (at + 8) as usize, width: 4, value: len as u64 },
        MemOp::Write { addr: (at + 12) as usize, width: 2, value: flags as u64 },
        MemOp::Write { addr: (at + 14) as usize, width: 2, value: next as u64 },
    ]
}

/// Appends the writes of a descriptor.
fn write_desc(ops: &mut Vec<MemOp>, desc_va: usize, idx: u16, addr: u64, len: u32, flags: u16, next: u16)
    requires
        desc_va + 16 * idx + 16 <= usize::MAX,
    ensures
        final(ops)@ == old(ops)@ + desc_ops(desc_va, idx, addr, len, flags, next),
{
    let at: usize = desc_va + VIRTQ_DESC_SIZE * idx as usize;
    ops.push(MemOp::Write { addr: at, width: 8, value: addr });
    ops.push(MemOp::Write { addr: at + 8, width: 4, value: len as u64 });
    ops.push(MemOp::Write { addr: at + 12, width: 2, value: flags as u64 });
    ops.push(MemOp::Write { addr: at + 14, width: 2, value: next as u64 });
    assert(ops@ =~= old(ops)@ + desc_ops(desc_va, idx, addr, len, flags, next));
}

/// Writes that make a head available: first its slot, then the counter.
pub open spec fn avail_ops(avail_va: usize, avail_idx: u16, q_size: u16, head: u16) -> Seq<MemOp> {
    seq![
        MemOp::Write {
            addr: (avail_va + 4 + 2 * (avail_idx as int % q_size as int)) as usize,
            width: 2,
            value: head as u64,
        },
        MemOp::Fence,
        MemOp::Write {
            addr: (avail_va + 2) as usize,
            width: 2,
            value: avail_idx.wrapping_add(1) as u64,
        },
        MemOp::Fence,
    ]
}

/// Appends the writes that make a head available.
fn push_avail(ops: &mut Vec<MemOp>, avail_va: usize, avail_idx: u16, q_size: u16, head: u16)
    requires
        q_size > 0,
        avail_va + 6 + 2 * q_size <= usize::MAX,
    ensures
        final(ops)@ == old(ops)@ + avail_ops(avail_va, avail_idx, q_size, head),
{
    let slot: usize = (avail_idx % q_size) as usize;
    ops.push(MemOp::Write { addr: avail_va + 4 + slot * 2, width: 2, value: head as u64 });
    ops.push(MemOp::Fence);
    ops.push(
        MemOp::Write { addr: avail_va + 2, width: 2, value: avail_idx.wrapping_add(1) as u64 },
    );
    ops.push(MemOp::Fence);
    assert(ops@ =~= old(ops)@ + avail_ops(avail_va, avail_idx, q_size, head));
}

/// Operations that give the device a command and room for a response: a chain of two
/// descriptors, its head, and the doorbell if there is one.
pub open spec fn send_ops(
    hw: VirtioHwState,
    cmd_pa: u64,
    cmd_size: u32,
    resp_pa: u64,
    resp_size: u32,
    ring: bool,
) -> Seq<MemOp> {
    let queued = desc_ops(hw.desc_va, 0, cmd_pa, cmd_size, VIRTQ_DESC_F_NEXT, 1) + desc_ops(
        hw.desc_va,
        1,
        resp_pa,
        resp_size,
        VIRTQ_DESC_F_WRITE,
        0,
    ) + avail_ops(hw.avail_va, hw.avail_idx, hw.q_size, 0);
    if ring {
        queued.push(
            MemOp::Write {
                addr: (hw.notify_va + hw.notify_queue_off * hw.notify_multiplier) as usize,
                width: 2,
                value: 0,
            },
        )
    } else {
        queued
    }
}

/// The operations that give the device a command and room for a response.
pub fn send_command(
    hw: &VirtioHwState,
    cmd_pa: u64,
    cmd_size: u32,
    resp_pa: u64,
    resp_size: u32,
    ring: bool,
) -> (ops: Vec<MemOp>)
    requires
        hw.wf(),
    ensures
        ops@ == send_ops(*hw, cmd_pa, cmd_size, resp_pa, resp_size, ring),
{
    let mut ops: Vec<MemOp> = Vec::new();
    write_desc(&mut ops, hw.desc_va, 0, cmd_pa, cmd_size, VIRTQ_DESC_F_NEXT, 1);
    write_desc(&mut ops, hw.desc_va, 1, resp_pa, resp_size, VIRTQ_DESC_F_WRITE, 0);
    push_avail(&mut ops, hw.avail_va, hw.avail_idx, hw.q_size, 0);
    if ring {
        let off: usize = ring_offset(hw.notify_queue_off, hw.notify_multiplier);
        ops.push(MemOp::Write { addr: hw.notify_va + off, width: 2, value: 0 });
    }
    assert(ops@ =~= send_ops(*hw, cmd_pa, cmd_size, resp_pa, resp_size, ring));
    ops
}

/// Offset of the doorbell of a queue.
fn ring_offset(queue_off: u16, multiplier: u32) -> (r: usize)
    requires
        queue_off * multiplier <= usize::MAX,
    ensures
        r == queue_off * multiplier,
{
    assert(queue_off * multiplier >= 0) by (nonlinear_arith);
    queue_off as usize * multiplier as usize
}

/// What a look at the ring of used heads says.
#[derive(Clone, Copy, Debug, PartialEq, Eq, Structural)]
pub enum PollStep {
    /// The device has used the buffers.
    Done,
    /// Not yet.
    Again,
    /// The driver gives up.
    TimedOut,
}

/// What the look number `polls`, counted from one, says when the counter of the
/// device is `device_idx`.
pub open spec fn poll_result(device_idx: u16, last_used: u16, polls: u64) -> PollStep {
    if device_idx != last_used {
        PollStep::Done
    } else if polls > MAX_POLLS {
        PollStep::TimedOut
    } else {
        PollStep::Again
    }
}

/// Looks at the counter of the device. A used buffer is taken note of.
pub fn poll_used(hw: &mut VirtioHwState, device_idx: u16, polls: u64) -> (r: PollStep)
    ensures
        r == poll_result(device_idx, old(hw).last_used_idx, polls),
        *final(hw) == (VirtioHwState {
            last_used_idx: if r == PollStep::Done {
                old(hw).last_used_idx.wrapping_add(1)
            } else {
                old(hw).last_used_idx
            },
            ..*old(hw)
        }),
{
    if device_idx != hw.last_used_idx {
        hw.last_used_idx = hw.last_used_idx.wrapping_add(1);
        PollStep::Done
    } else if polls > MAX_POLLS {
        PollStep::TimedOut
    } else {
        PollStep::Again
    }
}

/// Address of the counter of the device.
pub fn used_counter(hw: &VirtioHwState) -> (addr: usize)
    requires
        hw.wf(),
    ensures
        addr == hw.used_va + 2,
{
    hw.used_va + 2
}

/// A command goes to the device before its head is made available: every write of a
/// descriptor precedes the write of the counter.
pub proof fn descriptors_are_written_first(
    hw: VirtioHwState,
    cmd_pa: u64,
    cmd_size: u32,
    resp_pa: u64,
    resp_size: u32,
    ring: bool,
)
    ensures
        send_ops(hw, cmd_pa, cmd_size, resp_pa, resp_size, ring)[10] == (MemOp::Write {
            addr: (hw.avail_va + 2) as usize,
            width: 2,
            value: hw.avail_idx.wrapping_add(1) as u64,
        }),
        send_ops(hw, cmd_pa, cmd_size, resp_pa, resp_size, ring).take(8) == desc_ops(
            hw.desc_va,
            0,
            cmd_pa,
            cmd_size,
            VIRTQ_DESC_F_NEXT,
            1,
        ) + desc_ops(hw.desc_va, 1, resp_pa, resp_size, VIRTQ_DESC_F_WRITE, 0),
        send_ops(hw, cmd_pa, cmd_size, resp_pa, resp_size, ring)[9] == MemOp::Fence,
{
    assert(send_ops(hw, cmd_pa, cmd_size, resp_pa, resp_size, ring).take(8) =~= desc_ops(
        hw.desc_va,
        0,
        cmd_pa,
        cmd_size,
        VIRTQ_DESC_F_NEXT,
        1,
    ) + desc_ops(hw.desc_va, 1, resp_pa, resp_size, VIRTQ_DESC_F_WRITE, 0));
}

/// A command takes two descriptors: the first names the command and chains to the second,
/// which names the room that the device writes its answer to. Then the head of the chain is
/// put into the next slot of the ring of available chains, its index is raised, and the
/// device is notified if asked to.
pub proof fn command_is_chained_to_its_response(
    hw: VirtioHwState,
    cmd_pa: u64,
    cmd_size: u32,
    resp_pa: u64,
    resp_size: u32,
    ring: bool,
)
    requires
        hw.wf(),
    ensures
        ({
            let ops = send_ops(hw, cmd_pa, cmd_size, resp_pa, resp_size, ring);
            let slot = hw.avail_idx as int % hw.q_size as int;
            &&& ops.len() == if ring { 13int } else { 12 }
            &&& ops[0] matches MemOp::Write { addr, width: 8, value } && addr == hw.desc_va && value
                == cmd_pa
            &&& ops[1] matches MemOp::Write { addr, width: 4, value } && addr == hw.desc_va + 8
                && value == cmd_size
            &&& ops[2] matches MemOp::Write { addr, width: 2, value: 1 } && addr == hw.desc_va + 12
            &&& ops[3] matches MemOp::Write { addr, width: 2, value: 1 } && addr == hw.desc_va + 14
            &&& ops[4] matches MemOp::Write { addr, width: 8, value } && addr == hw.desc_va + 16
                && value == resp_pa
            &&& ops[5] matches MemOp::Write { addr, width: 4, value } && addr == hw.desc_va + 24
                && value == resp_size
            &&& ops[6] matches MemOp::Write { addr, width: 2, value: 2 } && addr == hw.desc_va + 28
            &&& ops[7] matches MemOp::Write { addr, width: 2, value: 0 } && addr == hw.desc_va + 30
            &&& ops[8] matches MemOp::Write { addr, width: 2, value: 0 } && addr == hw.avail_va + 4
                + 2 * slot
            &&& ops[9] == MemOp::Fence
            &&& ops[10] matches MemOp::Write { addr, width: 2, value } && addr == hw.avail_va + 2
                && value == (if hw.avail_idx == 0xFFFF { 0int } else { hw.avail_idx + 1 })
            &&& ops[11] == MemOp::Fence
            &&& ring ==> (ops[12] matches MemOp::Write { addr, width: 2, value: 0 } && addr
                == hw.notify_va + hw.notify_queue_off * hw.notify_multiplier)
        }),
{
    assert(hw.desc_va + 32 <= usize::MAX);
    let slot = hw.avail_idx as int % hw.q_size as int;
    assert(0 <= slot < hw.q_size) by {
        vstd::arithmetic::div_mod::lemma_mod_bound(hw.avail_idx as int, hw.q_size as int);
    }
    assert(hw.avail_va + 4 + 2 * slot <= usize::MAX);
}

/// A queue has as many entries as the device offers, but 64 at most. Its parts follow each
/// other as closely as multiples of 64 bytes admit.
pub proof fn queue_parts_are_close(qmax: u16)
    ensures
        ({
            let n = queue_size(qmax);
            let l = layout_of(n);
            &&& n == if qmax <= 64 { qmax } else { 64 }
            &&& 16 * n <= l.avail_off < 16 * n + 64
            &&& l.avail_off + 6 + 2 * n <= l.used_off < l.avail_off + 6 + 2 * n + 64
            &&& l.total - l.used_off == 6 + 8 * n
            &&& l.avail_off % 64 == 0 && l.used_off % 64 == 0
        }),
{
}

/// An answer is there as soon as the device has moved its index. Without one the driver gives
/// up exactly after fifty million looks.
pub proof fn device_gets_fifty_million_looks(device_idx: u16, last_used: u16, polls: u64)
    ensures
        poll_result(device_idx, last_used, polls) is Done <==> device_idx != last_used,
        poll_result(device_idx, last_used, polls) is TimedOut <==> device_idx == last_used && polls
            >= 50_000_001,
        poll_result(device_idx, last_used, polls) is Again <==> device_idx == last_used && polls
            < 50_000_001,
{
}

} // verus!
