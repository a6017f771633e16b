//! Submission queue entries.

pub mod fsync_flags;
pub mod sqe_flags;

use vstd::prelude::*;

verus! {

/// Operations that can be submitted.
#[derive(Clone, Copy, Debug, PartialEq, Eq, Structural)]
pub enum OpCode {
    Nop,
    Read,
    Write,
    Fsync,
    PollAdd,
    PollRemove,
    Accept,
    Connect,
    Close,
    Send,
    Recv,
    OpenAt,
    Statx,
    ReadFixed,
    WriteFixed,
    Cancel,
    Timeout,
    TimeoutRemove,
    LinkTimeout,
    Splice,
    ProvideBuffers,
    RemoveBuffers,
    /// Submits a compute task.
    MhcSubmit,
    /// Yields the timeslice.
    MksYield,
    /// Flushes the NVMe submission queue.
    NvmeFlush,
}

/// A submission queue entry.
#[derive(Clone, Copy, Debug)]
pub struct SubmissionEntry {
    /// Operation.
    pub opcode: OpCode,
    /// Flags.
    pub flags: u8,
    /// I/O priority.
    pub ioprio: u16,
    /// File descriptor.
    pub fd: i32,
    /// File offset, or timeout.
    pub offset: u64,
    /// Buffer address, or index of a registered buffer.
    pub addr: u64,
    /// Buffer length in bytes.
    pub len: u32,
    /// Flags of the operation.
    pub op_flags: u32,
    /// Token that is handed back in the completion.
    pub user_data: u64,
    /// Buffer pool.
    pub buf_group: u16,
    /// Credentials index.
    pub personality: u16,
    /// Source file descriptor of a splice.
    pub splice_fd_in: i32,
    /// Reserved: with it an entry fills a cache line of 64 bytes.
    pub _pad: [u64; 2],
}

/// An entry without content: a no-op without file descriptor.
pub open spec fn is_blank(e: SubmissionEntry) -> bool {
    &&& e.opcode == OpCode::Nop
    &&& e.flags == 0
    &&& e.ioprio == 0
    &&& e.fd == -1
    &&& e.offset == 0
    &&& e.addr == 0
    &&& e.len == 0
    &&& e.op_flags == 0
    &&& e.user_data == 0
    &&& e.buf_group == 0
    &&& e.personality == 0
    &&& e.splice_fd_in == -1
    &&& e._pad@ == seq![0u64, 0u64]
}

/// `e` is a blank entry but for the given fields.
pub open spec fn is_entry(
    e: SubmissionEntry,
    opcode: OpCode,
    flags: u8,
    fd: i32,
    addr: u64,
    len: u32,
    offset: u64,
    op_flags: u32,
    user_data: u64,
) -> bool {
    &&& e.opcode == opcode
    &&& e.flags == flags
    &&& e.fd == fd
    &&& e.addr == addr
    &&& e.len == len
    &&& e.offset == offset
    &&& e.op_flags == op_flags
    &&& e.user_data == user_data
    &&& e.ioprio == 0
    &&& e.buf_group == 0
    &&& e.personality == 0
    &&& e.splice_fd_in == -1
    &&& e._pad@ == seq![0u64, 0u64]
}

impl SubmissionEntry {
    /// An entry without content.
    pub fn zeroed() -> (e: Self)
        ensures
            is_blank(e),
    {
        let e = SubmissionEntry {
            opcode: OpCode::Nop,
            flags: 0,
            ioprio: 0,
            fd: -1,
            offset: 0,
            addr: 0,
            len: 0,
            op_flags: 0,
            user_data: 0,
            buf_group: 0,
            personality: 0,
            splice_fd_in: -1,
            _pad: [0, 0],
        };
        assert(e._pad@ =~= seq![0u64, 0u64]);
        e
    }

    /// A read at an offset.
    pub fn read(fd: i32, addr: u64, len: u32, offset: u64, user_data: u64) -> (e: Self)
        ensures
            is_entry(e, OpCode::Read, 0, fd, addr, len, offset, 0, user_data),
    {
        SubmissionEntry {
            opcode: OpCode::Read,
            fd,
            addr,
            len,
            offset,
            user_data,
            ..Self::zeroed()
        }
    }

    /// A write at an offset.
    pub fn write(fd: i32, addr: u64, len: u32, offset: u64, user_data: u64) -> (e: Self)
        ensures
            is_entry(e, OpCode::Write, 0, fd, addr, len, offset, 0, user_data),
    {
        SubmissionEntry {
            opcode: OpCode::Write,
            fd,
            addr,
            len,
            offset,
            user_data,
            ..Self::zeroed()
        }
    }

    /// An fsync, of the data only if `datasync` is set.
    pub fn fsync(fd: i32, datasync: bool, user_data: u64) -> (e: Self)
        ensures
            is_entry(
                e,
                OpCode::Fsync,
                0,
                fd,
                0,
                0,
                0,
                if datasync {
                    fsync_flags::DATASYNC
                } else {
                    0
                },
                user_data,
            ),
    {
        SubmissionEntry {
            opcode: OpCode::Fsync,
            fd,
            op_flags: if datasync {
                fsync_flags::DATASYNC
            } else {
                0
            },
            user_data,
            ..Self::zeroed()
        }
    }

    /// A close.
    pub fn close(fd: i32, user_data: u64) -> (e: Self)
        ensures
            is_entry(e, OpCode::Close, 0, fd, 0, 0, 0, 0, user_data),
    {
        SubmissionEntry { opcode: OpCode::Close, fd, user_data, ..Self::zeroed() }
    }

    /// A no-op.
    pub fn nop(user_data: u64) -> (e: Self)
        ensures
            is_entry(e, OpCode::Nop, 0, -1i32, 0, 0, 0, 0, user_data),
    {
        SubmissionEntry { opcode: OpCode::Nop, user_data, ..Self::zeroed() }
    }

    /// A read into a registered buffer.
    pub fn read_fixed(fd: i32, buf_index: u16, len: u32, offset: u64, user_data: u64) -> (e: Self)
        ensures
            is_entry(
                e,
                OpCode::ReadFixed,
                sqe_flags::FIXED_FILE,
                fd,
                buf_index as u64,
                len,
                offset,
                0,
                user_data,
            ),
    {
        SubmissionEntry {
            opcode: OpCode::ReadFixed,
            fd,
            addr: buf_index as u64,
            len,
            offset,
            user_data,
            flags: sqe_flags::FIXED_FILE,
            ..Self::zeroed()
        }
    }

    /// A write from a registered buffer.
    pub fn write_fixed(fd: i32, buf_index: u16, len: u32, offset: u64, user_data: u64) -> (e: Self)
        ensures
            is_entry(
                e,
                OpCode::WriteFixed,
                sqe_flags::FIXED_FILE,
                fd,
                buf_index as u64,
                len,
                offset,
                0,
                user_data,
            ),
    {
        SubmissionEntry {
            opcode: OpCode::WriteFixed,
            fd,
            addr: buf_index as u64,
            len,
            offset,
            user_data,
            flags: sqe_flags::FIXED_FILE,
            ..Self::zeroed()
        }
    }

    /// Cancels the operation that was submitted with `target_user_data`.
    pub fn cancel(target_user_data: u64, user_data: u64) -> (e: Self)
        ensures
            is_entry(e, OpCode::Cancel, 0, -1i32, target_user_data, 0, 0, 0, user_data),
    {
        SubmissionEntry {
            opcode: OpCode::Cancel,
            addr: target_user_data,
            user_data,
            ..Self::zeroed()
        }
    }

    /// Has the next submission depend on this one.
    pub fn linked(self) -> (e: Self)
        ensures
            e == (SubmissionEntry { flags: self.flags | sqe_flags::IO_LINK, ..self }),
    {
        SubmissionEntry { flags: self.flags | sqe_flags::IO_LINK, ..self }
    }

    /// Has all earlier submissions complete before this one.
    pub fn drain(self) -> (e: Self)
        ensures
            e == (SubmissionEntry { flags: self.flags | sqe_flags::IO_DRAIN, ..self }),
    {
        SubmissionEntry { flags: self.flags | sqe_flags::IO_DRAIN, ..self }
    }

    /// Has a worker thread process this submission.
    pub fn async_dispatch(self) -> (e: Self)
        ensures
            e == (SubmissionEntry { flags: self.flags | sqe_flags::ASYNC, ..self }),
    {
        SubmissionEntry { flags: self.flags | sqe_flags::ASYNC, ..self }
    }
}

/// A submission that is built carries what it was built with, and nothing else.
pub proof fn built_entry_carries_its_arguments(
    e: SubmissionEntry,
    opcode: OpCode,
    flags: u8,
    fd: i32,
    addr: u64,
    len: u32,
    offset: u64,
    op_flags: u32,
    user_data: u64,
)
    requires
        is_entry(e, opcode, flags, fd, addr, len, offset, op_flags, user_data),
    ensures
        e.opcode == opcode && e.flags == flags && e.fd == fd && e.addr == addr,
        e.len == len && e.offset == offset && e.op_flags == op_flags && e.user_data == user_data,
        e.splice_fd_in == -1 && e.buf_group == 0 && e.ioprio == 0 && e.personality == 0,
{
}

/// A blank submission does nothing and belongs to no descriptor.
pub proof fn blank_entry_does_nothing(e: SubmissionEntry)
    requires
        is_blank(e),
    ensures
        e.opcode == OpCode::Nop,
        e.fd == -1 && e.splice_fd_in == -1,
        e.flags == 0 && e.addr == 0 && e.len == 0 && e.user_data == 0,
{
}

} // verus!
