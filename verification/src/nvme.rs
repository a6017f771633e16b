//! Driver of NVMe storage.
//!
//! The driver decides which commands go into which queue slots, when a completion
//! belongs to a command, and how a controller is brought up. What it decides is
//! carried out on registers and memory by the caller.

use crate::bytes;
use crate::bytes::read_le_u64;
use vstd::prelude::*;

verus! {

/// Bytes of a block unless the namespace says otherwise.
pub const SECTOR_SIZE: usize = 512;

/// Number of entries of a queue.
pub const QUEUE_DEPTH: u16 = 64;

/// Bytes of a submission.
pub const SQE_SIZE: usize = 64;

/// Bytes of a completion.
pub const CQE_SIZE: usize = 16;

/// Capabilities of the controller.
pub const REG_CAP: usize = 0x00;

/// Version.
pub const REG_VS: usize = 0x08;

/// Configuration of the controller.
pub const REG_CC: usize = 0x14;

/// Status of the controller.
pub const REG_CSTS: usize = 0x1C;

/// Depths of the admin queues.
pub const REG_AQA: usize = 0x24;

/// Address of the admin submissions.
pub const REG_ASQ: usize = 0x28;

/// Address of the admin completions.
pub const REG_ACQ: usize = 0x30;

/// Offset of the doorbells.
pub const DOORBELL_BASE: usize = 0x1000;

/// PCI class of NVMe storage.
pub const NVME_PCI_CLASS: u8 = 0x01;

/// PCI subclass of NVMe storage.
pub const NVME_PCI_SUBCLASS: u8 = 0x08;

/// PCI programming interface of NVMe storage.
pub const NVME_PCI_PROG_IF: u8 = 0x02;

/// Command that creates a queue of submissions.
pub const ADMIN_CREATE_IO_SQ: u32 = 0x01;

/// Command that creates a queue of completions.
pub const ADMIN_CREATE_IO_CQ: u32 = 0x05;

/// Command that identifies a controller or a namespace.
pub const ADMIN_IDENTIFY: u32 = 0x06;

/// Command that writes blocks.
pub const NVM_WRITE: u32 = 0x01;

/// Command that reads blocks.
pub const NVM_READ: u32 = 0x02;

/// Looks at the admin completions before the driver gives up.
pub const ADMIN_POLLS: u32 = 1_000_000;

/// Looks at the completions of blocks before the driver gives up.
pub const IO_POLLS: u32 = 10_000_000;

/// Looks at the status while the controller resets.
pub const RESET_POLLS: u32 = 1_000_000;

/// Looks at the status while the controller starts.
pub const ENABLE_POLLS: u32 = 2_000_000;

/// Bytes of a page.
pub const PAGE_SIZE: usize = 4096;

/// Bytes of an identification.
pub const IDENTIFY_SIZE: usize = 4096;

/// A submission.
#[derive(Clone, Copy, Debug, PartialEq, Eq, Structural)]
pub struct SubmissionEntry {
    /// Opcode in the lower half, identifier of the command in the upper half.
    pub cdw0: u32,
    /// Namespace.
    pub nsid: u32,
    /// Physical address of the data.
    pub prp1: u64,
    /// Physical address of the rest of the data, if it does not fit a page.
    pub prp2: u64,
    pub cdw10: u32,
    pub cdw11: u32,
    pub cdw12: u32,
}

/// A completion.
#[derive(Clone, Copy, Debug, PartialEq, Eq, Structural)]
pub struct CompletionEntry {
    /// Result of the command.
    pub dw0: u32,
    /// Identifier of the command.
    pub cid: u16,
    /// Phase in the lowest bit, then the status.
    pub status: u16,
}

/// A queue of submissions or completions.
#[derive(Clone, Copy, Debug, PartialEq, Eq, Structural)]
pub struct Queue {
    /// Virtual address.
    pub va: usize,
    /// Physical address.
    pub phys: u64,
    /// Number of entries.
    pub depth: u16,
    /// Position: of the next submission, or of the next completion.
    pub head: u16,
    /// Phase of the next completion.
    pub phase: u8,
}

impl Queue {
    /// The position is one of the entries, which do not wrap around.
    pub open spec fn wf(self) -> bool {
        &&& 0 < self.depth <= QUEUE_DEPTH
        &&& self.head < self.depth
        &&& self.phase <= 1
        &&& self.va + 0x1000 <= usize::MAX
    }

    /// A new queue.
    pub open spec fn fresh(depth: u16, va: usize, phys: u64) -> Queue {
        Queue { va, phys, depth, head: 0, phase: 1 }
    }

    /// The queue after one more entry: the phase changes when the position wraps.
    pub open spec fn advanced(self) -> Queue {
        let head = ((self.head + 1) % self.depth as int) as u16;
        Queue {
            head,
            phase: if head == 0 {
                (1 - self.phase) as u8
            } else {
                self.phase
            },
            ..self
        }
    }
}

/// Bytes of a queue.
pub fn queue_bytes(depth: u16, entry_size: usize) -> (n: usize)
    requires
        depth <= QUEUE_DEPTH,
        entry_size <= SQE_SIZE,
    ensures
        n == depth * entry_size,
        n <= 0x1000,
{
    assert(depth * entry_size <= 64 * 64) by (nonlinear_arith)
        requires
            depth <= 64,
            entry_size <= 64,
    ;
    assert(depth * entry_size >= 0) by (nonlinear_arith);
    depth as usize * entry_size
}

/// A write of a register, four or eight bytes wide.
#[derive(Clone, Copy, Debug, PartialEq, Eq, Structural)]
pub struct RegWrite {
    /// Offset from the start of the registers.
    pub offset: usize,
    /// Bytes.
    pub width: u8,
    /// Value.
    pub value: u64,
}

/// Offset of the doorbell of a queue.
pub open spec fn doorbell_offset(stride: u32, queue_id: u16, sq: bool) -> int {
    DOORBELL_BASE + (2 * queue_id + if sq {
        0int
    } else {
        1
    }) * (4 * vstd::arithmetic::power2::pow2(stride as nat))
}

/// The write of the doorbell of a queue.
pub fn write_doorbell(dbl_stride: u32, queue_id: u16, sq: bool, val: u16) -> (w: RegWrite)
    requires
        dbl_stride < 16,
        queue_id <= 1,
    ensures
        w.offset == doorbell_offset(dbl_stride, queue_id, sq),
        w.width == 4,
        w.value == val,
{
    proof {
        vstd::arithmetic::power2::lemma2_to64();
    }
    let stride: usize = doorbell_stride(dbl_stride);
    let slot: usize = 2 * queue_id as usize + if sq {
        0
    } else {
        1
    };
    assert(slot * stride <= 3 * 0x2_0000) by (nonlinear_arith)
        requires
            slot <= 3,
            stride <= 0x2_0000,
    ;
    assert(slot * stride >= 0) by (nonlinear_arith);
    RegWrite { offset: DOORBELL_BASE + slot * stride, width: 4, value: val as u64 }
}

/// Bytes between two doorbells.
fn doorbell_stride(dbl_stride: u32) -> (s: usize)
    requires
        dbl_stride < 16,
    ensures
        s == 4 * vstd::arithmetic::power2::pow2(dbl_stride as nat),
        4 <= s <= 0x2_0000,
{
    let mut s: usize = 4;
    let mut i: u32 = 0;
    proof {
        vstd::arithmetic::power2::lemma2_to64();
    }
    while i < dbl_stride
        invariant
            i <= dbl_stride < 16,
            s == 4 * vstd::arithmetic::power2::pow2(i as nat),
            vstd::arithmetic::power2::pow2(15) == 0x8000,
        decreases dbl_stride - i,
    {
        proof {
            vstd::arithmetic::power2::lemma_pow2_unfold((i + 1) as nat);
            if i < 14 {
                vstd::arithmetic::power2::lemma_pow2_strictly_increases((i + 1) as nat, 15);
            }
        }
        s = s * 2;
        i += 1;
    }
    proof {
        vstd::arithmetic::power2::lemma_pow2_pos(dbl_stride as nat);
        if dbl_stride < 15 {
            vstd::arithmetic::power2::lemma_pow2_strictly_increases(dbl_stride as nat, 15);
        }
    }
    s
}

/// The queues of a controller.
#[derive(Clone, Copy, Debug, PartialEq, Eq, Structural)]
pub struct NvmeInner {
    /// Distance of the doorbells.
    pub dbl_stride: u32,
    /// Admin submissions.
    pub admin_sq: Queue,
    /// Admin completions.
    pub admin_cq: Queue,
    /// Submissions of blocks.
    pub io_sq: Queue,
    /// Completions of blocks.
    pub io_cq: Queue,
    /// Blocks of the namespace.
    pub ns_size: u64,
    /// Bytes of a block.
    pub lba_size: usize,
    /// Identifier of the next command.
    pub next_cid: u16,
}

/// A submission on its way: the entry, where it goes, and the doorbell that follows.
#[derive(Clone, Copy, Debug, PartialEq, Eq, Structural)]
pub struct Submit {
    /// Identifier of the command.
    pub cid: u16,
    /// Address of the slot.
    pub slot: usize,
    /// Entry.
    pub entry: SubmissionEntry,
    /// Doorbell.
    pub doorbell: RegWrite,
}

/// A command with an identifier.
pub open spec fn with_cid(cmd: SubmissionEntry, cid: u16) -> SubmissionEntry {
    SubmissionEntry { cdw0: (cmd.cdw0 as int % 0x1_0000 + cid * 0x1_0000) as u32, ..cmd }
}

/// The command with an identifier.
fn set_cid(cmd: SubmissionEntry, cid: u16) -> (r: SubmissionEntry)
    ensures
        r == with_cid(cmd, cid),
{
    let d: u32 = cmd.cdw0;
    let c: u32 = cid as u32;
    assert((d & 0xFFFF) | (c << 16) == d % 0x1_0000 + c * 0x1_0000) by (bit_vector)
        requires
            c <= 0xffff,
    ;
    SubmissionEntry { cdw0: (d & 0xFFFF) | (c << 16), ..cmd }
}

/// What a look at the completions says.
#[derive(Clone, Copy, Debug)]
pub enum Completion {
    /// The command succeeded with a result; the doorbell follows.
    Done(u32, RegWrite),
    /// The command failed; the doorbell follows.
    Failed(&'static str, RegWrite),
    /// Not yet.
    Again,
    /// The driver gives up.
    TimedOut(&'static str),
}

/// The completion is new and belongs to the command.
pub open spec fn is_answer(q: Queue, e: CompletionEntry, cid: u16) -> bool {
    e.status % 2 == q.phase && e.cid == cid
}

/// The completion reports success: its status code and its status code type are zero.
pub open spec fn is_success(e: CompletionEntry) -> bool {
    (e.status / 2) % 0x100 == 0 && (e.status / 0x200) % 8 == 0
}

/// Whether a completion reports success.
fn succeeded(e: &CompletionEntry) -> (r: bool)
    ensures
        r == is_success(*e),
{
    let s: u16 = e.status;
    assert((s >> 1) & 0xFF == (s / 2) % 0x100 && (s >> 9) & 0x7 == (s / 0x200) % 8) by (bit_vector);
    (s >> 1) & 0xFF == 0 && (s >> 9) & 0x7 == 0
}

/// The queue after a position was advanced.
fn advance(q: &Queue) -> (r: Queue)
    requires
        q.wf(),
    ensures
        r == q.advanced(),
        r.wf(),
{
    let head: u16 = (q.head + 1) % q.depth;
    Queue {
        head,
        phase: if head == 0 {
            1 - q.phase
        } else {
            q.phase
        },
        ..*q
    }
}

impl NvmeInner {
    /// All queues are in order.
    pub open spec fn wf(self) -> bool {
        &&& self.dbl_stride < 16
        &&& self.admin_sq.wf()
        &&& self.admin_cq.wf()
        &&& self.io_sq.wf()
        &&& self.io_cq.wf()
    }

    /// The submission of a command on a queue.
    pub open spec fn submission(self, cmd: SubmissionEntry, q: Queue, id: u16, s: Submit) -> bool {
        &&& s.cid == self.next_cid
        &&& s.slot == q.va + q.head * SQE_SIZE
        &&& s.entry == with_cid(cmd, self.next_cid)
        &&& s.doorbell.offset == doorbell_offset(self.dbl_stride, id, true)
        &&& s.doorbell.width == 4
        &&& s.doorbell.value == (q.head + 1) % q.depth as int
    }

    /// Puts a command into the next admin slot.
    pub fn submit_admin(&mut self, cmd: SubmissionEntry) -> (s: Submit)
        requires
            old(self).wf(),
        ensures
            final(self).wf(),
            old(self).submission(cmd, old(self).admin_sq, 0, s),
            *final(self) == (NvmeInner {
                next_cid: old(self).next_cid.wrapping_add(1),
                admin_sq: old(self).admin_sq.advanced(),
                ..*old(self)
            }),
    {
        let cid: u16 = self.next_cid;
        self.next_cid = self.next_cid.wrapping_add(1);
        let entry = set_cid(cmd, cid);
        let slot: usize = self.admin_sq.va + self.admin_sq.head as usize * SQE_SIZE;
        self.admin_sq = advance(&self.admin_sq);
        let doorbell = write_doorbell(self.dbl_stride, 0, true, self.admin_sq.head);
        Submit { cid, slot, entry, doorbell }
    }

    /// Puts a command into the next slot for blocks.
    pub fn submit_io(&mut self, cmd: SubmissionEntry) -> (s: Submit)
        requires
            old(self).wf(),
        ensures
            final(self).wf(),
            old(self).submission(cmd, old(self).io_sq, 1, s),
            *final(self) == (NvmeInner {
                next_cid: old(self).next_cid.wrapping_add(1),
                io_sq: old(self).io_sq.advanced(),
                ..*old(self)
            }),
    {
        let cid: u16 = self.next_cid;
        self.next_cid = self.next_cid.wrapping_add(1);
        let entry = set_cid(cmd, cid);
        let slot: usize = self.io_sq.va + self.io_sq.head as usize * SQE_SIZE;
        self.io_sq = advance(&self.io_sq);
        let doorbell = write_doorbell(self.dbl_stride, 1, true, self.io_sq.head);
        Submit { cid, slot, entry, doorbell }
    }

    /// Address of the next admin completion.
    pub fn admin_completion(&self) -> (addr: usize)
        requires
            self.wf(),
        ensures
            addr == self.admin_cq.va + self.admin_cq.head * CQE_SIZE,
    {
        self.admin_cq.va + self.admin_cq.head as usize * CQE_SIZE
    }

    /// Address of the next completion of blocks.
    pub fn io_completion(&self) -> (addr: usize)
        requires
            self.wf(),
        ensures
            addr == self.io_cq.va + self.io_cq.head * CQE_SIZE,
    {
        self.io_cq.va + self.io_cq.head as usize * CQE_SIZE
    }

    /// Looks at the next admin completion for the answer to a command. `looks` counts
    /// the looks before this one.
    pub fn poll_admin_cq(&mut self, expected_cid: u16, entry: CompletionEntry, looks: u32) -> (r:
        Completion)
        requires
            old(self).wf(),
        ensures
            final(self).wf(),
            *final(self) == if looks < ADMIN_POLLS && is_answer(
                old(self).admin_cq,
                entry,
                expected_cid,
            ) {
                NvmeInner { admin_cq: old(self).admin_cq.advanced(), ..*old(self) }
            } else {
                *old(self)
            },
            if looks >= ADMIN_POLLS {
                r matches Completion::TimedOut(m) && m@ == "NVMe: admin CQ poll timeout"@
            } else if !is_answer(old(self).admin_cq, entry, expected_cid) {
                r is Again
            } else if is_success(entry) {
                r matches Completion::Done(v, w) && v == entry.dw0 && w.width == 4 && w.offset == doorbell_offset(
                    old(self).dbl_stride,
                    0,
                    false,
                ) && w.value == final(self).admin_cq.head
            } else {
                r matches Completion::Failed(m, w) && m@ == "NVMe: admin command failed"@
                    && w.width == 4 && w.offset == doorbell_offset(old(self).dbl_stride, 0, false) && w.value
                    == final(self).admin_cq.head
            },
    {
        if looks >= ADMIN_POLLS {
            return Completion::TimedOut("NVMe: admin CQ poll timeout");
        }
        let s: u16 = entry.status;
        assert(s & 1 == s % 2) by (bit_vector);
        let phase: u8 = (s & 1) as u8;
        if phase == self.admin_cq.phase && entry.cid == expected_cid {
            self.admin_cq = advance(&self.admin_cq);
            let w = write_doorbell(self.dbl_stride, 0, false, self.admin_cq.head);
            if succeeded(&entry) {
                Completion::Done(entry.dw0, w)
            } else {
                Completion::Failed("NVMe: admin command failed", w)
            }
        } else {
            Completion::Again
        }
    }

    /// Looks at the next completion of blocks for the answer to a command. `looks`
    /// counts the looks before this one.
    pub fn poll_io_cq(&mut self, expected_cid: u16, entry: CompletionEntry, looks: u32) -> (r:
        Completion)
        requires
            old(self).wf(),
        ensures
            final(self).wf(),
            *final(self) == if looks < IO_POLLS && is_answer(
                old(self).io_cq,
                entry,
                expected_cid,
            ) {
                NvmeInner { io_cq: old(self).io_cq.advanced(), ..*old(self) }
            } else {
                *old(self)
            },
            if looks >= IO_POLLS {
                r matches Completion::TimedOut(m) && m@ == "NVMe: I/O CQ poll timeout"@
            } else if !is_answer(old(self).io_cq, entry, expected_cid) {
                r is Again
            } else if is_success(entry) {
                r matches Completion::Done(v, w) && v == entry.dw0 && w.width == 4 && w.offset == doorbell_offset(
                    old(self).dbl_stride,
                    1,
                    false,
                ) && w.value == final(self).io_cq.head
            } else {
                r matches Completion::Failed(m, w) && m@ == "NVMe: I/O command failed"@ && w.width == 4 && w.offset
                    == doorbell_offset(old(self).dbl_stride, 1, false) && w.value
                    == final(self).io_cq.head
            },
    {
        if looks >= IO_POLLS {
            return Completion::TimedOut("NVMe: I/O CQ poll timeout");
        }
        let s: u16 = entry.status;
        assert(s & 1 == s % 2) by (bit_vector);
        let phase: u8 = (s & 1) as u8;
        if phase == self.io_cq.phase && entry.cid == expected_cid {
            self.io_cq = advance(&self.io_cq);
            let w = write_doorbell(self.dbl_stride, 1, false, self.io_cq.head);
            if succeeded(&entry) {
                Completion::Done(entry.dw0, w)
            } else {
                Completion::Failed("NVMe: I/O command failed", w)
            }
        } else {
            Completion::Again
        }
    }
}

/// What a look at the status of the controller says.
#[derive(Clone, Copy, Debug)]
pub enum ReadyStep {
    /// The controller is where it should be.
    Ready,
    /// Not yet.
    Again,
    /// The driver gives up.
    Failed(&'static str),
}

/// Looks at the status of the controller for a state of its ready bit. `looks` counts
/// the looks before this one.
pub fn wait_ready(csts: u32, desired: u32, looks: u32) -> (r: ReadyStep)
    requires
        desired <= 1,
    ensures
        if looks >= RESET_POLLS {
            r matches ReadyStep::Failed(m) && m@ == "NVMe: timeout waiting for CSTS.RDY"@
        } else if csts % 2 == desired {
            r is Ready
        } else if csts / 2 % 2 == 1 {
            r matches ReadyStep::Failed(m) && m@ == "NVMe: controller fatal status"@
        } else {
            r is Again
        },
{
    if looks >= RESET_POLLS {
        return ReadyStep::Failed("NVMe: timeout waiting for CSTS.RDY");
    }
    assert(csts & 1 == csts % 2 && (csts & 2 != 0) == (csts / 2 % 2 == 1)) by (bit_vector);
    if csts & 0x1 == desired {
        ReadyStep::Ready
    } else if csts & 0x2 != 0 {
        ReadyStep::Failed("NVMe: controller fatal status")
    } else {
        ReadyStep::Again
    }
}

/// A command without content.
pub open spec fn blank() -> SubmissionEntry {
    SubmissionEntry { cdw0: 0, nsid: 0, prp1: 0, prp2: 0, cdw10: 0, cdw11: 0, cdw12: 0 }
}

/// The command that identifies a controller (`cns` one) or a namespace (`cns` zero).
pub fn identify(nsid: u32, cns: u8, pa: u64) -> (c: SubmissionEntry)
    ensures
        c == (SubmissionEntry {
            cdw0: ADMIN_IDENTIFY,
            nsid,
            prp1: pa,
            cdw10: cns as u32,
            ..blank()
        }),
{
    SubmissionEntry {
        cdw0: ADMIN_IDENTIFY,
        nsid,
        prp1: pa,
        prp2: 0,
        cdw10: cns as u32,
        cdw11: 0,
        cdw12: 0,
    }
}

/// Depth minus one in the upper half and the queue in the lower half.
pub open spec fn queue_word(depth: u16, q_id: u16) -> u32 {
    ((depth - 1) * 0x1_0000 + q_id) as u32
}

/// Depth minus one in the upper half and the queue in the lower half.
fn size_and_id(depth: u16, q_id: u16) -> (r: u32)
    requires
        depth > 0,
    ensures
        r == queue_word(depth, q_id),
{
    let d: u32 = depth as u32 - 1;
    let q: u32 = q_id as u32;
    assert((d << 16) | q == d * 0x1_0000 + q) by (bit_vector)
        requires
            d <= 0xffff,
            q <= 0xffff,
    ;
    (d << 16) | q
}

/// The command that creates a queue of completions, without interrupts.
pub fn create_io_cq(q_id: u16, phys: u64, depth: u16) -> (c: SubmissionEntry)
    requires
        depth > 0,
    ensures
        c == (SubmissionEntry {
            cdw0: ADMIN_CREATE_IO_CQ,
            prp1: phys,
            cdw10: queue_word(depth, q_id),
            cdw11: 1,
            ..blank()
        }),
{
    SubmissionEntry {
        cdw0: ADMIN_CREATE_IO_CQ,
        nsid: 0,
        prp1: phys,
        prp2: 0,
        cdw10: size_and_id(depth, q_id),
        cdw11: 0x1,
        cdw12: 0,
    }
}

/// The command that creates a queue of submissions for a queue of completions.
pub fn create_io_sq(q_id: u16, sq_phys: u64, depth: u16, cq_id: u16) -> (c: SubmissionEntry)
    requires
        depth > 0,
    ensures
        c == (SubmissionEntry {
            cdw0: ADMIN_CREATE_IO_SQ,
            prp1: sq_phys,
            cdw10: queue_word(depth, q_id),
            cdw11: (cq_id * 0x1_0000 + 1) as u32,
            ..blank()
        }),
{
    let c: u32 = cq_id as u32;
    assert((c << 16) | 1 == c * 0x1_0000 + 1) by (bit_vector)
        requires
            c <= 0xffff,
    ;
    SubmissionEntry {
        cdw0: ADMIN_CREATE_IO_SQ,
        nsid: 0,
        prp1: sq_phys,
        prp2: 0,
        cdw10: size_and_id(depth, q_id),
        cdw11: (c << 16) | 0x1,
        cdw12: 0,
    }
}

/// Distance of the doorbells in the capabilities.
pub open spec fn stride_of(cap: u64) -> u32 {
    ((cap / 0x1_0000_0000) % 16) as u32
}

/// Depth of the queues: what the controller supports, but not more than the driver
/// uses.
pub open spec fn depth_of(cap: u64) -> u16 {
    if cap % 0x1_0000 + 1 < QUEUE_DEPTH {
        (cap % 0x1_0000 + 1) as u16
    } else {
        QUEUE_DEPTH
    }
}

/// Reads the capabilities of a controller: the distance of the doorbells and the depth
/// of the queues.
pub fn read_capabilities(cap: u64) -> (r: (u32, u16))
    ensures
        r.0 == stride_of(cap),
        r.1 == depth_of(cap),
        r.0 < 16,
        0 < r.1 <= QUEUE_DEPTH,
{
    assert((cap >> 32) & 0xF == (cap / 0x1_0000_0000) % 16 && (cap >> 32) & 0xF < 16 && cap & 0xFFFF
        == cap % 0x1_0000 && cap & 0xFFFF <= 0xffff) by (bit_vector);
    let dbl_stride: u32 = ((cap >> 32) & 0xF) as u32;
    let mqes: u32 = (cap & 0xFFFF) as u32 + 1;
    let depth: u16 = if mqes < QUEUE_DEPTH as u32 {
        mqes as u16
    } else {
        QUEUE_DEPTH
    };
    (dbl_stride, depth)
}

/// Format that a namespace uses, from its identification.
pub open spec fn block_shift(id_ns: Seq<u8>) -> u8 {
    id_ns[128 + (id_ns[26] as int % 16) * 4 + 2]
}

/// Bytes of a block for a shift.
pub open spec fn block_size_of(shift: u8) -> int {
    if shift >= 9 {
        vstd::arithmetic::power2::pow2(shift as nat) as int
    } else {
        SECTOR_SIZE as int
    }
}

/// Reads the number of blocks and the bytes of a block from the identification of a
/// namespace. `None` if a block has too many bytes to count.
pub fn read_namespace(id_ns: &Vec<u8>) -> (r: Option<(u64, usize)>)
    requires
        id_ns@.len() >= IDENTIFY_SIZE,
    ensures
        r is Some <==> block_size_of(block_shift(id_ns@)) <= usize::MAX,
        r matches Some(n) ==> n.0 == bytes::le_u64(id_ns@, 0) && n.1 == block_size_of(block_shift(id_ns@)),
{
    let ns_size: u64 = read_le_u64(id_ns.as_slice(), 0);
    let b: u8 = id_ns[26];
    assert(b & 0x0F == b % 16 && b & 0x0F < 16) by (bit_vector);
    let flbas: usize = (b & 0x0F) as usize;
    let lbads: u8 = id_ns[128 + flbas * 4 + 2];
    proof {
        vstd::arithmetic::power2::lemma2_to64();
        vstd::arithmetic::power2::lemma_pow2_unfold(64);
        if lbads > 64 {
            vstd::arithmetic::power2::lemma_pow2_strictly_increases(64, lbads as nat);
        }
    }
    if lbads >= 64 {
        return None;
    }
    if lbads < 9 {
        return Some((ns_size, SECTOR_SIZE));
    }
    let mut size: u64 = 1;
    let mut i: u8 = 0;
    while i < lbads
        invariant
            i <= lbads < 64,
            size == vstd::arithmetic::power2::pow2(i as nat),
            vstd::arithmetic::power2::pow2(63) == 0x8000_0000_0000_0000,
        decreases lbads - i,
    {
        proof {
            vstd::arithmetic::power2::lemma_pow2_unfold((i + 1) as nat);
            if i < 62 {
                vstd::arithmetic::power2::lemma_pow2_strictly_increases((i + 1) as nat, 63);
            }
        }
        size = size * 2;
        i += 1;
    }
    if size > usize::MAX as u64 {
        return None;
    }
    Some((ns_size, size as usize))
}

/// The command that transfers blocks between a namespace and memory.
pub open spec fn block_command(
    opcode: u32,
    pa: u64,
    len: int,
    lba: u64,
    sectors: int,
) -> SubmissionEntry {
    SubmissionEntry {
        cdw0: opcode,
        nsid: 1,
        prp1: pa,
        prp2: if len > PAGE_SIZE {
            (pa + PAGE_SIZE) as u64
        } else {
            0
        },
        cdw10: (lba % 0x1_0000_0000) as u32,
        cdw11: (lba / 0x1_0000_0000) as u32,
        cdw12: ((sectors - 1) % 0x1_0000) as u32,
    }
}

/// The command that transfers blocks.
fn transfer(opcode: u32, pa: u64, len: usize, lba: u64, sectors: u32) -> (c: SubmissionEntry)
    requires
        sectors > 0,
        pa + PAGE_SIZE <= u64::MAX,
    ensures
        c == block_command(opcode, pa, len as int, lba, sectors as int),
{
    let n: u32 = sectors - 1;
    assert(n & 0xFFFF == n % 0x1_0000) by (bit_vector);
    assert(lba & 0xFFFF_FFFF == lba % 0x1_0000_0000 && lba >> 32 == lba / 0x1_0000_0000 && lba & 0xFFFF_FFFF
        <= 0xFFFF_FFFF && lba >> 32 <= 0xFFFF_FFFF) by (bit_vector);
    SubmissionEntry {
        cdw0: opcode,
        nsid: 1,
        prp1: pa,
        prp2: if len > PAGE_SIZE {
            pa + PAGE_SIZE as u64
        } else {
            0
        },
        cdw10: (lba & 0xFFFF_FFFF) as u32,
        cdw11: (lba >> 32) as u32,
        cdw12: n & 0xFFFF,
    }
}

/// A drive that is up.
#[derive(Clone, Copy, Debug, PartialEq, Eq, Structural)]
pub struct NvmeDrive {
    /// Queues.
    pub inner: NvmeInner,
    /// Number of blocks.
    pub ns_size: u64,
    /// Bytes of a block.
    pub lba_size: usize,
}

impl NvmeDrive {
    /// The queues are in order, and a block is not empty.
    pub open spec fn wf(self) -> bool {
        self.inner.wf() && self.lba_size > 0
    }

    /// Whole blocks of a buffer.
    pub open spec fn sectors(self, len: int) -> int {
        len / self.lba_size as int
    }

    /// Reads blocks into memory at a physical address: the command, and the number of
    /// blocks. Nothing is read if the buffer holds no block.
    pub fn read_lba(&mut self, len: usize, pa: u64, lba: u64) -> (r: Option<(Submit, usize)>)
        requires
            old(self).wf(),
            old(self).sectors(len as int) <= u32::MAX,
            pa + PAGE_SIZE <= u64::MAX,
        ensures
            final(self).wf(),
            r is None <==> old(self).sectors(len as int) == 0,
            r is None ==> *final(self) == *old(self),
            r matches Some(s) ==> {
                &&& s.1 == old(self).sectors(len as int)
                &&& old(self).inner.submission(
                    block_command(NVM_READ, pa, len as int, lba, s.1 as int),
                    old(self).inner.io_sq,
                    1,
                    s.0,
                )
                &&& *final(self) == (NvmeDrive {
                    inner: NvmeInner {
                        next_cid: old(self).inner.next_cid.wrapping_add(1),
                        io_sq: old(self).inner.io_sq.advanced(),
                        ..old(self).inner
                    },
                    ..*old(self)
                })
            },
    {
        let sectors: usize = len / self.lba_size;
        if sectors == 0 {
            return None;
        }
        let cmd = transfer(NVM_READ, pa, len, lba, sectors as u32);
        Some((self.inner.submit_io(cmd), sectors))
    }

    /// Writes blocks from memory at a physical address: the command, and the number of
    /// blocks. Nothing is written if the buffer holds no block.
    pub fn write_lba(&mut self, len: usize, pa: u64, lba: u64) -> (r: Option<(Submit, usize)>)
        requires
            old(self).wf(),
            old(self).sectors(len as int) <= u32::MAX,
            pa + PAGE_SIZE <= u64::MAX,
        ensures
            final(self).wf(),
            r is None <==> old(self).sectors(len as int) == 0,
            r is None ==> *final(self) == *old(self),
            r matches Some(s) ==> {
                &&& s.1 == old(self).sectors(len as int)
                &&& old(self).inner.submission(
                    block_command(NVM_WRITE, pa, len as int, lba, s.1 as int),
                    old(self).inner.io_sq,
                    1,
                    s.0,
                )
                &&& *final(self) == (NvmeDrive {
                    inner: NvmeInner {
                        next_cid: old(self).inner.next_cid.wrapping_add(1),
                        io_sq: old(self).inner.io_sq.advanced(),
                        ..old(self).inner
                    },
                    ..*old(self)
                })
            },
    {
        let sectors: usize = len / self.lba_size;
        if sectors == 0 {
            return None;
        }
        let cmd = transfer(NVM_WRITE, pa, len, lba, sectors as u32);
        Some((self.inner.submit_io(cmd), sectors))
    }

    /// Number of blocks.
    pub fn size_in_blocks(&self) -> (n: usize)
        requires
            self.ns_size <= usize::MAX,
        ensures
            n == self.ns_size,
    {
        self.ns_size as usize
    }

    /// Bytes of a block.
    pub fn block_size(&self) -> (n: usize)
        ensures
            n == self.lba_size,
    {
        self.lba_size
    }

    /// Bytes of the drive.
    pub fn len(&self) -> (n: usize)
        requires
            self.ns_size <= usize::MAX,
            self.lba_size * self.ns_size <= usize::MAX,
        ensures
            n == self.lba_size * self.ns_size,
    {
        assert(self.lba_size * self.ns_size >= 0) by (nonlinear_arith);
        self.lba_size * self.ns_size as usize
    }
}

/// Whether a PCI device is NVMe storage.
pub fn is_nvme(class: u8, subclass: u8, prog_if: u8) -> (r: bool)
    ensures
        r == (class == NVME_PCI_CLASS && subclass == NVME_PCI_SUBCLASS && prog_if
            == NVME_PCI_PROG_IF),
{
    class == NVME_PCI_CLASS && subclass == NVME_PCI_SUBCLASS && prog_if == NVME_PCI_PROG_IF
}

/// Physical address of the registers in a base address register.
pub open spec fn register_base(bar0: u32) -> u32 {
    (bar0 - bar0 as int % 16) as u32
}

/// Physical address of the registers.
pub fn bar0_address(bar0: u32) -> (r: u32)
    ensures
        r == register_base(bar0),
{
    assert(bar0 & !0xFu32 == bar0 - bar0 % 16) by (bit_vector);
    bar0 & !0xF
}

/// What bringing a controller up waits for.
#[derive(Clone, Copy, Debug, PartialEq, Eq, Structural)]
pub enum InitStage {
    /// The capabilities.
    Capabilities,
    /// The status while the controller resets.
    Resetting,
    /// Memory for admin submissions.
    AdminSq,
    /// Memory for admin completions.
    AdminCq,
    /// The status while the controller starts.
    Starting,
    /// Memory for completions of blocks.
    IoCq,
    /// Memory for submissions of blocks.
    IoSq,
    /// The identification of the controller.
    Controller,
    /// The identification of the namespace.
    Namespace,
    /// The creation of the queue of completions.
    CreatedCq,
    /// The creation of the queue of submissions.
    CreatedSq,
    /// Nothing.
    Finished,
}

/// What happened.
#[derive(Debug)]
pub enum InitEvent {
    /// The value of a register.
    Value(u64),
    /// Zeroed memory: its virtual and its physical address.
    Memory(usize, u64),
    /// The data of an identification.
    Identified(Vec<u8>),
    /// A command succeeded.
    Done,
    /// The work failed.
    Failed(&'static str),
}

/// What to do next.
#[derive(Debug)]
pub enum InitAction {
    /// Write registers in order, then read the status.
    Registers(Vec<RegWrite>),
    /// Provide zeroed memory.
    AllocMemory(usize),
    /// Identify a controller or a namespace.
    Identify(u32, u8),
    /// Run an admin command.
    Command(SubmissionEntry),
    /// The drive, or why there is none.
    Finish(Result<NvmeDrive, &'static str>),
}

/// What to do next, as mathematical values.
pub enum InitActionView {
    Registers(Seq<RegWrite>),
    AllocMemory(int),
    Identify(u32, u8),
    Command(SubmissionEntry),
    Success(NvmeDrive),
    Failure(Seq<char>),
}

impl View for InitAction {
    type V = InitActionView;

    open spec fn view(&self) -> InitActionView {
        match *self {
            InitAction::Registers(w) => InitActionView::Registers(w@),
            InitAction::AllocMemory(n) => InitActionView::AllocMemory(n as int),
            InitAction::Identify(n, c) => InitActionView::Identify(n, c),
            InitAction::Command(c) => InitActionView::Command(c),
            InitAction::Finish(Ok(d)) => InitActionView::Success(d),
            InitAction::Finish(Err(m)) => InitActionView::Failure(m@),
        }
    }
}

/// Bringing a controller up.
#[derive(Clone, Copy, Debug, PartialEq, Eq, Structural)]
pub struct NvmeInit {
    /// What is waited for.
    pub stage: InitStage,
    /// Looks at the status so far.
    pub looks: u32,
    /// Depth of the queues.
    pub depth: u16,
    /// Queues.
    pub inner: NvmeInner,
}

/// Value that starts the controller: entries of 64 and of 16 bytes, enabled.
pub const CC_START: u64 = 0x0064_0001;

/// Writes that tell the controller its admin queues and start it.
pub open spec fn start_writes(depth: u16, asq: u64, acq: u64) -> Seq<RegWrite> {
    seq![
        RegWrite { offset: REG_AQA, width: 4, value: ((depth - 1) * 0x1_0001) as u64 },
        RegWrite { offset: REG_ASQ, width: 8, value: asq },
        RegWrite { offset: REG_ACQ, width: 8, value: acq },
        RegWrite { offset: REG_CC, width: 4, value: CC_START },
    ]
}

/// The write that resets the controller.
pub open spec fn reset_writes() -> Seq<RegWrite> {
    seq![RegWrite { offset: REG_CC, width: 4, value: 0 }]
}

impl NvmeInit {
    /// The state at the start.
    pub open spec fn fresh() -> NvmeInit {
        let q = Queue { va: 0, phys: 0, depth: 1, head: 0, phase: 1 };
        NvmeInit {
            stage: InitStage::Capabilities,
            looks: 0,
            depth: 1,
            inner: NvmeInner {
                dbl_stride: 0,
                admin_sq: q,
                admin_cq: q,
                io_sq: q,
                io_cq: q,
                ns_size: 0,
                lba_size: SECTOR_SIZE,
                next_cid: 0,
            },
        }
    }

    /// The queues are in order.
    pub open spec fn wf(self) -> bool {
        &&& self.inner.wf()
        &&& 0 < self.depth <= QUEUE_DEPTH
        &&& self.looks <= ENABLE_POLLS
        &&& self.inner.lba_size > 0
    }

    /// The event is an answer to what is waited for.
    pub open spec fn expects(self, e: InitEvent) -> bool {
        match (self.stage, e) {
            (InitStage::Finished, _) => false,
            (
                InitStage::AdminSq | InitStage::AdminCq | InitStage::IoCq | InitStage::IoSq,
                InitEvent::Memory(va, _),
            ) => va + 0x1000 <= usize::MAX,
            (InitStage::Resetting | InitStage::Starting, InitEvent::Value(v)) => true,
            (InitStage::Capabilities, InitEvent::Value(_)) => true,
            (InitStage::Controller | InitStage::Namespace, InitEvent::Identified(b)) => b@.len()
                >= IDENTIFY_SIZE,
            (InitStage::CreatedCq | InitStage::CreatedSq, InitEvent::Done) => true,
            (
                InitStage::AdminSq | InitStage::AdminCq | InitStage::IoCq | InitStage::IoSq
                | InitStage::Controller | InitStage::Namespace | InitStage::CreatedCq
                | InitStage::CreatedSq,
                InitEvent::Failed(_),
            ) => true,
            _ => false,
        }
    }

    /// The state at another stage.
    pub open spec fn at(self, stage: InitStage) -> NvmeInit {
        NvmeInit { stage, looks: 0, ..self }
    }

    /// The state after an event, and what to do next.
    pub open spec fn next(self, e: InitEvent) -> (NvmeInit, InitActionView) {
        match (self.stage, e) {
            (_, InitEvent::Failed(m)) => (
                self.at(InitStage::Finished),
                InitActionView::Failure(m@),
            ),
            (InitStage::Capabilities, InitEvent::Value(cap)) => (
                NvmeInit {
                    depth: depth_of(cap),
                    inner: NvmeInner { dbl_stride: stride_of(cap), ..self.inner },
                    ..self.at(InitStage::Resetting)
                },
                InitActionView::Registers(reset_writes()),
            ),
            (InitStage::Resetting, InitEvent::Value(v)) => if v % 2 == 0 || self.looks + 1
                >= RESET_POLLS {
                (
                    self.at(InitStage::AdminSq),
                    InitActionView::AllocMemory(self.depth * SQE_SIZE),
                )
            } else {
                (
                    NvmeInit { looks: (self.looks + 1) as u32, ..self },
                    InitActionView::Registers(Seq::empty()),
                )
            },
            (InitStage::AdminSq, InitEvent::Memory(va, pa)) => (
                NvmeInit {
                    inner: NvmeInner {
                        admin_sq: Queue::fresh(self.depth, va, pa),
                        ..self.inner
                    },
                    ..self.at(InitStage::AdminCq)
                },
                InitActionView::AllocMemory(self.depth * CQE_SIZE),
            ),
            (InitStage::AdminCq, InitEvent::Memory(va, pa)) => (
                NvmeInit {
                    inner: NvmeInner {
                        admin_cq: Queue::fresh(self.depth, va, pa),
                        ..self.inner
                    },
                    ..self.at(InitStage::Starting)
                },
                InitActionView::Registers(start_writes(self.depth, self.inner.admin_sq.phys, pa)),
            ),
            (InitStage::Starting, InitEvent::Value(v)) => if v % 2 == 1 {
                (
                    self.at(InitStage::IoCq),
                    InitActionView::AllocMemory(self.depth * CQE_SIZE),
                )
            } else if v / 2 % 2 == 1 {
                (
                    self.at(InitStage::Finished),
                    InitActionView::Failure("NVMe: CFS set during init"@),
                )
            } else if self.looks + 1 >= ENABLE_POLLS {
                (
                    self.at(InitStage::IoCq),
                    InitActionView::AllocMemory(self.depth * CQE_SIZE),
                )
            } else {
                (
                    NvmeInit { looks: (self.looks + 1) as u32, ..self },
                    InitActionView::Registers(Seq::empty()),
                )
            },
            (InitStage::IoCq, InitEvent::Memory(va, pa)) => (
                NvmeInit {
                    inner: NvmeInner { io_cq: Queue::fresh(self.depth, va, pa), ..self.inner },
                    ..self.at(InitStage::IoSq)
                },
                InitActionView::AllocMemory(self.depth * SQE_SIZE),
            ),
            (InitStage::IoSq, InitEvent::Memory(va, pa)) => (
                NvmeInit {
                    inner: NvmeInner { io_sq: Queue::fresh(self.depth, va, pa), ..self.inner },
                    ..self.at(InitStage::Controller)
                },
                InitActionView::Identify(0, 1),
            ),
            (InitStage::Controller, InitEvent::Identified(b)) => (
                self.at(InitStage::Namespace),
                InitActionView::Identify(1, 0),
            ),
            (InitStage::Namespace, InitEvent::Identified(b)) => if block_size_of(block_shift(b@))
                <= usize::MAX {
                (
                    NvmeInit {
                        inner: NvmeInner {
                            ns_size: bytes::le_u64(b@, 0),
                            lba_size: block_size_of(block_shift(b@)) as usize,
                            ..self.inner
                        },
                        ..self.at(InitStage::CreatedCq)
                    },
                    InitActionView::Command(
                        SubmissionEntry {
                            cdw0: ADMIN_CREATE_IO_CQ,
                            prp1: self.inner.io_cq.phys,
                            cdw10: queue_word(self.depth, 1),
                            cdw11: 1,
                            ..blank()
                        },
                    ),
                )
            } else {
                (
                    self.at(InitStage::Finished),
                    InitActionView::Failure("NVMe: unsupported block size"@),
                )
            },
            (InitStage::CreatedCq, InitEvent::Done) => (
                self.at(InitStage::CreatedSq),
                InitActionView::Command(
                    SubmissionEntry {
                        cdw0: ADMIN_CREATE_IO_SQ,
                        prp1: self.inner.io_sq.phys,
                        cdw10: queue_word(self.depth, 1),
                        cdw11: 0x1_0001,
                        ..blank()
                    },
                ),
            ),
            _ => (
                self.at(InitStage::Finished),
                InitActionView::Success(
                    NvmeDrive {
                        inner: self.inner,
                        ns_size: self.inner.ns_size,
                        lba_size: self.inner.lba_size,
                    },
                ),
            ),
        }
    }

    /// Begins. The first thing to do is to read the capabilities.
    pub fn new() -> (s: Self)
        ensures
            s == NvmeInit::fresh(),
            s.wf(),
    {
        let q = Queue { va: 0, phys: 0, depth: 1, head: 0, phase: 1 };
        NvmeInit {
            stage: InitStage::Capabilities,
            looks: 0,
            depth: 1,
            inner: NvmeInner {
                dbl_stride: 0,
                admin_sq: q,
                admin_cq: q,
                io_sq: q,
                io_cq: q,
                ns_size: 0,
                lba_size: SECTOR_SIZE,
                next_cid: 0,
            },
        }
    }

    /// Takes what happened and says what to do next.
    pub fn step(&mut self, event: InitEvent) -> (a: InitAction)
        requires
            old(self).wf(),
            old(self).expects(event),
        ensures
            final(self).wf(),
            *final(self) == old(self).next(event).0,
            a@ == old(self).next(event).1,
    {
        match event {
            InitEvent::Failed(m) => {
                self.stage = InitStage::Finished;
                self.looks = 0;
                InitAction::Finish(Err(m))
            },
            InitEvent::Value(v) => self.step_value(v),
            InitEvent::Memory(va, pa) => {
                let q = Queue { va, phys: pa, depth: self.depth, head: 0, phase: 1 };
                self.looks = 0;
                match self.stage {
                    InitStage::AdminSq => {
                        self.inner.admin_sq = q;
                        self.stage = InitStage::AdminCq;
                        InitAction::AllocMemory(queue_bytes(self.depth, CQE_SIZE))
                    },
                    InitStage::AdminCq => {
                        self.inner.admin_cq = q;
                        self.stage = InitStage::Starting;
                        let d: u64 = self.depth as u64 - 1;
                        let w: Vec<RegWrite> = vec![
                            RegWrite { offset: REG_AQA, width: 4, value: d * 0x1_0001 },
                            RegWrite { offset: REG_ASQ, width: 8, value: self.inner.admin_sq.phys },
                            RegWrite { offset: REG_ACQ, width: 8, value: pa },
                            RegWrite { offset: REG_CC, width: 4, value: CC_START },
                        ];
                        assert(w@ =~= start_writes(self.depth, self.inner.admin_sq.phys, pa));
                        InitAction::Registers(w)
                    },
                    InitStage::IoCq => {
                        self.inner.io_cq = q;
                        self.stage = InitStage::IoSq;
                        InitAction::AllocMemory(queue_bytes(self.depth, SQE_SIZE))
                    },
                    _ => {
                        self.inner.io_sq = q;
                        self.stage = InitStage::Controller;
                        InitAction::Identify(0, 0x01)
                    },
                }
            },
            InitEvent::Identified(b) => {
                self.looks = 0;
                if self.stage == InitStage::Controller {
                    self.stage = InitStage::Namespace;
                    return InitAction::Identify(1, 0x00);
                }
                match read_namespace(&b) {
                    Some((ns_size, lba_size)) => {
                        proof {
                            vstd::arithmetic::power2::lemma_pow2_pos(block_shift(b@) as nat);
                        }
                        self.inner.ns_size = ns_size;
                        self.inner.lba_size = lba_size;
                        self.stage = InitStage::CreatedCq;
                        InitAction::Command(create_io_cq(1, self.inner.io_cq.phys, self.depth))
                    },
                    None => {
                        self.stage = InitStage::Finished;
                        InitAction::Finish(Err("NVMe: unsupported block size"))
                    },
                }
            },
            InitEvent::Done => {
                self.looks = 0;
                if self.stage == InitStage::CreatedCq {
                    self.stage = InitStage::CreatedSq;
                    InitAction::Command(create_io_sq(1, self.inner.io_sq.phys, self.depth, 1))
                } else {
                    self.stage = InitStage::Finished;
                    InitAction::Finish(
                        Ok(
                            NvmeDrive {
                                inner: self.inner,
                                ns_size: self.inner.ns_size,
                                lba_size: self.inner.lba_size,
                            },
                        ),
                    )
                }
            },
        }
    }

    /// Takes the value of a register.
    fn step_value(&mut self, v: u64) -> (a: InitAction)
        requires
            old(self).wf(),
            old(self).expects(InitEvent::Value(v)),
        ensures
            final(self).wf(),
            *final(self) == old(self).next(InitEvent::Value(v)).0,
            a@ == old(self).next(InitEvent::Value(v)).1,
    {
        assert(v & 1 == v % 2 && (v & 2 != 0) == (v / 2 % 2 == 1)) by (bit_vector);
        let none: Vec<RegWrite> = Vec::new();
        assert(none@ =~= Seq::empty());
        match self.stage {
            InitStage::Capabilities => {
                let (dbl_stride, depth) = read_capabilities(v);
                self.inner.dbl_stride = dbl_stride;
                self.depth = depth;
                self.stage = InitStage::Resetting;
                self.looks = 0;
                let w: Vec<RegWrite> = vec![RegWrite { offset: REG_CC, width: 4, value: 0 }];
                assert(w@ =~= reset_writes());
                InitAction::Registers(w)
            },
            InitStage::Resetting => {
                if v & 1 == 0 || self.looks + 1 >= RESET_POLLS {
                    self.stage = InitStage::AdminSq;
                    self.looks = 0;
                    InitAction::AllocMemory(queue_bytes(self.depth, SQE_SIZE))
                } else {
                    self.looks = self.looks + 1;
                    InitAction::Registers(none)
                }
            },
            _ => {
                if v & 1 == 1 {
                    self.stage = InitStage::IoCq;
                    self.looks = 0;
                    InitAction::AllocMemory(queue_bytes(self.depth, CQE_SIZE))
                } else if v & 2 != 0 {
                    self.stage = InitStage::Finished;
                    self.looks = 0;
                    InitAction::Finish(Err("NVMe: CFS set during init"))
                } else if self.looks + 1 >= ENABLE_POLLS {
                    self.stage = InitStage::IoCq;
                    self.looks = 0;
                    InitAction::AllocMemory(queue_bytes(self.depth, CQE_SIZE))
                } else {
                    self.looks = self.looks + 1;
                    InitAction::Registers(none)
                }
            },
        }
    }
}

/// Every slot of a queue is used in turn: after as many steps as there are entries the
/// position is back, and the phase has changed.
pub proof fn queue_wraps_with_phase(q: Queue, n: nat)
    requires
        q.wf(),
        n <= q.depth,
    ensures
        advanced_by(q, n).head == (q.head + n) % q.depth as int,
        advanced_by(q, n).phase == if q.head + n < q.depth {
            q.phase as int
        } else {
            1 - q.phase
        },
        advanced_by(q, n).depth == q.depth,
        advanced_by(q, n).wf(),
    decreases n,
{
    if n == 0 {
        vstd::arithmetic::div_mod::lemma_small_mod(q.head as nat, q.depth as nat);
    } else {
        queue_wraps_with_phase(q, (n - 1) as nat);
        let p = advanced_by(q, (n - 1) as nat);
        let d = q.depth as int;
        if q.head + n - 1 < d {
            vstd::arithmetic::div_mod::lemma_small_mod((q.head + n - 1) as nat, d as nat);
            if q.head + n < d {
                vstd::arithmetic::div_mod::lemma_small_mod((q.head + n) as nat, d as nat);
                vstd::arithmetic::div_mod::lemma_small_mod((p.head + 1) as nat, d as nat);
            } else {
                vstd::arithmetic::div_mod::lemma_mod_self_0(d);
            }
        } else {
            let k = q.head + n - 1 - d;
            vstd::arithmetic::div_mod::lemma_mod_add_multiples_vanish(k, d);
            vstd::arithmetic::div_mod::lemma_mod_add_multiples_vanish(k + 1, d);
            vstd::arithmetic::div_mod::lemma_small_mod(k as nat, d as nat);
            assert(k + 1 < d);
            vstd::arithmetic::div_mod::lemma_small_mod((k + 1) as nat, d as nat);
        }
    }
}

/// The queue after `n` steps.
pub open spec fn advanced_by(q: Queue, n: nat) -> Queue
    decreases n,
{
    if n == 0 {
        q
    } else {
        advanced_by(q, (n - 1) as nat).advanced()
    }
}

/// A completion of the last round is not taken for a new one: its phase differs.
pub proof fn stale_completion_is_ignored(q: Queue, e: CompletionEntry, cid: u16)
    requires
        q.wf(),
        e.status % 2 == 1 - q.phase,
    ensures
        !is_answer(q, e, cid),
{
}

/// The identifier of a command can be read back from its first word.
pub proof fn command_keeps_opcode_and_identifier(cmd: SubmissionEntry, cid: u16)
    ensures
        with_cid(cmd, cid).cdw0 as int / 0x1_0000 == cid,
        with_cid(cmd, cid).cdw0 as int % 0x1_0000 == cmd.cdw0 as int % 0x1_0000,
{
}

/// The pages that a transfer command names cover its buffer: every byte of the first page
/// is where the first address says, every byte of the second where the second one says,
/// and there is no second address only if one page is enough.
pub proof fn transfer_covers_the_buffer(
    opcode: u32,
    pa: u64,
    len: int,
    lba: u64,
    sectors: int,
    i: int,
)
    requires
        pa + 4096 <= u64::MAX,
        0 <= i < len,
        i < 8192,
    ensures
        ({
            let c = block_command(opcode, pa, len, lba, sectors);
            let page = if i < 4096 {
                c.prp1
            } else {
                c.prp2
            };
            &&& page + i % 4096 == pa + i
            &&& c.prp2 == 0 <==> len <= 4096
        }),
{
}

/// A transfer command names the first namespace, the block to begin with, in two halves,
/// and one less than the number of blocks.
pub proof fn transfer_names_its_blocks(opcode: u32, pa: u64, len: int, lba: u64, sectors: int)
    requires
        0 < sectors <= 0x1_0000,
    ensures
        ({
            let c = block_command(opcode, pa, len, lba, sectors);
            &&& c.cdw0 == opcode
            &&& c.nsid == 1
            &&& c.cdw10 + c.cdw11 * 0x1_0000_0000 == lba
            &&& c.cdw12 + 1 == sectors
        }),
{
}

/// A submission stands in the slot at the head of its queue, 64 bytes for each, under the
/// next command identifier; the doorbell of its queue then tells the slot after it, and the
/// queue moves on by one.
pub proof fn submission_goes_to_the_next_slot(
    n: NvmeInner,
    cmd: SubmissionEntry,
    q: Queue,
    id: u16,
    s: Submit,
)
    requires
        q.wf(),
        n.submission(cmd, q, id, s),
    ensures
        s.slot - q.va == 64 * q.head,
        s.entry.prp1 == cmd.prp1 && s.entry.prp2 == cmd.prp2 && s.entry.nsid == cmd.nsid,
        s.entry.cdw10 == cmd.cdw10 && s.entry.cdw11 == cmd.cdw11 && s.entry.cdw12 == cmd.cdw12,
        s.cid == n.next_cid,
        s.entry.cdw0 as int / 0x1_0000 == s.cid,
        s.entry.cdw0 as int % 0x100 == cmd.cdw0 as int % 0x100,
        s.doorbell.value == q.advanced().head,
        s.doorbell.width == 4,
        q.head + 1 < q.depth ==> s.doorbell.value == q.head + 1,
        q.head + 1 == q.depth ==> s.doorbell.value == 0,
{
    command_keeps_opcode_and_identifier(cmd, n.next_cid);
    if q.head + 1 < q.depth {
        vstd::arithmetic::div_mod::lemma_small_mod((q.head + 1) as nat, q.depth as nat);
    } else {
        vstd::arithmetic::div_mod::lemma_mod_self_0(q.depth as int);
    }
}

/// Where the doorbells stand: those of the admin queue first, that of its submissions at
/// 0x1000, and each one a stride after the one before: 4 bytes, doubled as often as the
/// controller says.
pub proof fn doorbells_are_a_stride_apart(stride: u32)
    ensures
        doorbell_offset(stride, 0, true) == 0x1000,
        doorbell_offset(0, 0, false) == 0x1004,
        doorbell_offset(0, 1, true) == 0x1008,
        doorbell_offset(0, 1, false) == 0x100C,
        ({
            let step = doorbell_offset(stride, 0, false) - doorbell_offset(stride, 0, true);
            &&& doorbell_offset(stride, 1, true) - doorbell_offset(stride, 0, false) == step
            &&& doorbell_offset(stride, 1, false) - doorbell_offset(stride, 1, true) == step
            &&& stride < u32::MAX ==> doorbell_offset((stride + 1) as u32, 0, false)
                - doorbell_offset((stride + 1) as u32, 0, true) == 2 * step
        }),
{
    vstd::arithmetic::power2::lemma2_to64();
    vstd::arithmetic::power2::lemma_pow2_unfold((stride + 1) as nat);
    assert forall|s: u32| #[trigger] doorbell_offset(s, 0, true) == 0x1000 && doorbell_offset(
        s,
        0,
        false,
    ) == 0x1000 + 4 * vstd::arithmetic::power2::pow2(s as nat) && doorbell_offset(s, 1, true)
        == 0x1000 + 8 * vstd::arithmetic::power2::pow2(s as nat) && doorbell_offset(s, 1, false)
        == 0x1000 + 12 * vstd::arithmetic::power2::pow2(s as nat) by {
        let p = vstd::arithmetic::power2::pow2(s as nat) as int;
        assert(0 * (4 * p) == 0 && 1 * (4 * p) == 4 * p && 2 * (4 * p) == 8 * p && 3 * (4 * p) == 12
            * p) by (nonlinear_arith);
    }
    assert(doorbell_offset(0, 0, true) == 0x1000);
    assert(doorbell_offset(stride, 0, true) == 0x1000);
    if stride < u32::MAX {
        assert(doorbell_offset((stride + 1) as u32, 0, true) == 0x1000);
    }
}

/// A completion belongs to a command if it carries its identifier and the phase of the
/// queue; and the command has succeeded if the status below the phase bit is zero: both the
/// code and its type.
pub proof fn completion_belongs_to_its_command(q: Queue, e: CompletionEntry, cid: u16)
    requires
        q.wf(),
    ensures
        is_answer(q, e, cid) <==> e.cid == cid && (e.status % 2 == 1) == (q.phase == 1),
        is_success(e) <==> e.status % 0x1000 <= 1,
{
    let s = e.status as int;
    assert((s / 2) % 0x100 == 0 && (s / 0x200) % 8 == 0 <==> s % 0x1000 <= 1) by (nonlinear_arith)
        requires
            0 <= s < 0x1_0000,
    ;
}

/// What the capabilities say: the depth of the queues, which is one more than the lowest 16
/// bits but at most 64, and the doorbell stride, in the four bits from the 32nd on.
pub proof fn capabilities_give_depth_and_stride(cap: u64)
    ensures
        1 <= depth_of(cap) <= 64,
        cap % 0x1_0000 < 63 ==> depth_of(cap) == cap % 0x1_0000 + 1,
        cap % 0x1_0000 >= 63 ==> depth_of(cap) == 64,
        stride_of(cap) < 16,
        (cap / 0x1_0000_0000 - stride_of(cap)) % 16 == 0,
{
}

/// The size of a block is the power of two that the format in use names, and 512 bytes where
/// it names less: the low four bits of byte 26 choose the format, and the third byte of its
/// entry, from byte 128 on in steps of four, is the power.
pub proof fn block_size_is_that_of_the_format(id_ns: Seq<u8>, format: int, power: nat)
    requires
        id_ns.len() >= 4096,
        format == id_ns[26] % 16,
        power == id_ns[130 + 4 * format],
    ensures
        power < 9 ==> block_size_of(block_shift(id_ns)) == 512,
        power >= 9 ==> block_size_of(block_shift(id_ns)) == vstd::arithmetic::power2::pow2(power),
        block_size_of(block_shift(id_ns)) >= 512,
{
    vstd::arithmetic::power2::lemma2_to64();
    if power > 9 {
        vstd::arithmetic::power2::lemma_pow2_strictly_increases(9, power);
    }
}

/// A buffer holds as many whole blocks as fit in it.
pub proof fn whole_blocks_are_transferred(d: NvmeDrive, len: int)
    requires
        d.lba_size > 0,
        len >= 0,
    ensures
        d.sectors(len) * d.lba_size <= len < (d.sectors(len) + 1) * d.lba_size,
        len < d.lba_size ==> d.sectors(len) == 0,
{
    let b = d.lba_size as int;
    let n = len / b;
    vstd::arithmetic::div_mod::lemma_fundamental_div_mod(len, b);
    assert(n * b <= len < (n + 1) * b && (len < b ==> n == 0)) by (nonlinear_arith)
        requires
            len == b * n + len % b,
            0 <= len % b < b,
            len >= 0,
    ;
}

/// The word that describes a new queue: one less than its depth above its number.
pub proof fn queue_word_holds_depth_and_number(depth: u16, q_id: u16)
    requires
        depth > 0,
    ensures
        queue_word(depth, q_id) as int / 0x1_0000 == depth - 1,
        queue_word(depth, q_id) as int % 0x1_0000 == q_id,
{
}

/// How the controller is started: it is switched off before the admin queues are made, and
/// on, in the last write, only when both of them have been handed over with their depths.
pub proof fn controller_starts_with_its_admin_queues(
    s: NvmeInit,
    cap: u64,
    va: usize,
    pa: u64,
)
    requires
        s.wf(),
    ensures
        s.stage == InitStage::Capabilities ==> {
            let n = s.next(InitEvent::Value(cap));
            &&& n.0.stage == InitStage::Resetting
            &&& n.1 == InitActionView::Registers(
                seq![RegWrite { offset: 0x14, width: 4, value: 0 }],
            )
        },
        s.stage == InitStage::AdminCq ==> {
            let n = s.next(InitEvent::Memory(va, pa));
            &&& n.0.stage == InitStage::Starting
            &&& n.0.inner.admin_cq.va == va && n.0.inner.admin_cq.phys == pa
            &&& n.0.inner.admin_cq.head == 0 && n.0.inner.admin_cq.phase == 1
            &&& n.1 matches InitActionView::Registers(w) && {
                &&& w.len() == 4
                &&& w[0].offset == 0x24 && w[0].value % 0x1_0000 == s.depth - 1 && w[0].value
                    / 0x1_0000 == s.depth - 1
                &&& w[1].offset == 0x28 && w[1].width == 8 && w[1].value == s.inner.admin_sq.phys
                &&& w[2].offset == 0x30 && w[2].width == 8 && w[2].value == pa
                &&& w[3].offset == 0x14 && w[3].value == 0x60_0000 + 0x4_0000 + 1
            }
        },
{
}

/// The wait for the controller: it goes on as soon as the status says so, and a fatal status
/// while it starts ends the attempt.
pub proof fn start_waits_for_the_status(s: NvmeInit, v: u64)
    requires
        s.wf(),
    ensures
        s.stage == InitStage::Resetting && v % 2 == 0 ==> s.next(InitEvent::Value(v)).0.stage
            == InitStage::AdminSq,
        s.stage == InitStage::Resetting && v % 2 == 1 && s.looks + 1 < 1_000_000 ==> s.next(
            InitEvent::Value(v),
        ).0.stage == InitStage::Resetting,
        s.stage == InitStage::Starting && v % 2 == 1 ==> s.next(InitEvent::Value(v)).0.stage
            == InitStage::IoCq,
        s.stage == InitStage::Starting && v % 4 == 2 ==> s.next(
            InitEvent::Value(v),
        ).1 is Failure,
        s.stage == InitStage::Starting && v % 4 == 0 && s.looks + 1 < 2_000_000 ==> s.next(
            InitEvent::Value(v),
        ).0.stage == InitStage::Starting,
{
}

/// What is learnt of the namespace is what the drive says of itself: its number of blocks in
/// the first eight bytes, and the size of its blocks. The queues it works with are those that
/// were made, the completions of the first queue before its submissions, which name it.
pub proof fn drive_is_what_was_identified(s: NvmeInit, id_ns: Vec<u8>)
    requires
        s.wf(),
        id_ns@.len() >= 4096,
        block_size_of(block_shift(id_ns@)) <= usize::MAX,
    ensures
        s.stage == InitStage::Namespace ==> {
            let n = s.next(InitEvent::Identified(id_ns));
            &&& n.0.inner.ns_size == bytes::le_u64(id_ns@, 0)
            &&& n.0.inner.lba_size == block_size_of(block_shift(id_ns@))
            &&& n.1 matches InitActionView::Command(c) && c.cdw0 == 5 && c.prp1
                == s.inner.io_cq.phys && c.cdw10 as int % 0x1_0000 == 1 && c.cdw10 as int
                / 0x1_0000 == s.depth - 1 && c.cdw11 == 1
        },
        s.stage == InitStage::CreatedCq ==> {
            let n = s.next(InitEvent::Done);
            n.1 matches InitActionView::Command(c) && c.cdw0 == 1 && c.prp1 == s.inner.io_sq.phys
                && c.cdw10 as int % 0x1_0000 == 1 && c.cdw10 as int / 0x1_0000 == s.depth - 1
                && c.cdw11 as int / 0x1_0000 == 1 && c.cdw11 as int % 2 == 1
        },
        s.stage == InitStage::CreatedSq ==> {
            let n = s.next(InitEvent::Done);
            n.1 matches InitActionView::Success(d) && d.inner == s.inner && d.ns_size
                == s.inner.ns_size && d.lba_size == s.inner.lba_size
        },
        s.stage == InitStage::IoSq ==> s.next(InitEvent::Memory(0, 0)).1
            == InitActionView::Identify(0, 1),
        s.stage == InitStage::Controller ==> s.next(InitEvent::Identified(id_ns)).1
            == InitActionView::Identify(1, 0),
{
}

/// Memory for a queue is asked for by the size of its entries, 64 bytes for a submission and
/// 16 for a completion, and becomes the queue that it was asked for.
pub proof fn queue_memory_fits_its_entries(s: NvmeInit, va: usize, pa: u64)
    requires
        s.wf(),
    ensures
        ({
            let n = s.next(InitEvent::Memory(va, pa));
            &&& s.stage == InitStage::AdminSq ==> n.0.inner.admin_sq.va == va
                && n.0.inner.admin_sq.phys == pa && n.0.inner.admin_sq.depth == s.depth && n.1
                == InitActionView::AllocMemory(s.depth * 16)
            &&& s.stage == InitStage::IoCq ==> n.0.inner.io_cq.va == va && n.0.inner.io_cq.phys == pa
                && n.0.inner.io_cq.depth == s.depth && n.0.inner.io_cq.phase == 1 && n.1
                == InitActionView::AllocMemory(s.depth * 64)
            &&& s.stage == InitStage::IoSq ==> n.0.inner.io_sq.va == va && n.0.inner.io_sq.phys == pa
                && n.0.inner.io_sq.depth == s.depth
        }),
        s.stage == InitStage::Resetting ==> s.next(InitEvent::Value(0)).1
            == InitActionView::AllocMemory(s.depth * 64),
        s.stage == InitStage::Starting ==> s.next(InitEvent::Value(1)).1
            == InitActionView::AllocMemory(s.depth * 16),
{
}

/// The registers start at the address in the base address register without its four lowest
/// bits.
pub proof fn registers_start_at_the_base(bar0: u32)
    ensures
        register_base(bar0) as int % 16 == 0,
        register_base(bar0) <= bar0 < register_base(bar0) + 16,
{
}

} // verus!
