//! Execution of submissions.
//!
//! Each handler is a pure function of the submission, so that it can be called
//! from any thread.

use crate::mio::sqe::{OpCode, SubmissionEntry};
use crate::mio::MioError;
use vstd::prelude::*;

verus! {

/// The file descriptor is valid.
pub open spec fn fd_ok(e: SubmissionEntry) -> bool {
    e.fd >= 0
}

/// The buffer is valid.
pub open spec fn buffer_ok(e: SubmissionEntry) -> bool {
    e.addr != 0 && e.len != 0
}

/// Result code of a bad file descriptor.
pub open spec fn bad_fd() -> i32 {
    MioError::BadFd.code()
}

/// Result code of an invalid argument.
pub open spec fn invalid_arg() -> i32 {
    MioError::InvalidArg.code()
}

/// `value` if the file descriptor is valid, else the error for a bad one.
pub open spec fn checked_fd(e: SubmissionEntry, value: i32) -> i32 {
    if fd_ok(e) {
        value
    } else {
        bad_fd()
    }
}

/// The length of a transfer as a result code, cut to what the code can hold.
pub open spec fn length_result(e: SubmissionEntry) -> i32 {
    if e.len <= i32::MAX {
        e.len as i32
    } else {
        i32::MAX
    }
}

/// Result of a transfer with a user buffer.
pub open spec fn transfer_result(e: SubmissionEntry) -> i32 {
    if !fd_ok(e) {
        bad_fd()
    } else if !buffer_ok(e) {
        invalid_arg()
    } else {
        length_result(e)
    }
}

/// Result code of a submission.
pub open spec fn op_result(e: SubmissionEntry) -> i32 {
    match e.opcode {
        OpCode::Nop => 0,
        OpCode::Read => transfer_result(e),
        OpCode::Write => transfer_result(e),
        OpCode::Fsync => checked_fd(e, 0),
        OpCode::PollAdd => checked_fd(e, 0),
        OpCode::PollRemove => 0,
        OpCode::Accept => checked_fd(e, 3),
        OpCode::Connect => checked_fd(e, 0),
        OpCode::Close => checked_fd(e, 0),
        OpCode::Send => checked_fd(e, length_result(e)),
        OpCode::Recv => checked_fd(e, length_result(e)),
        OpCode::OpenAt => if e.addr == 0 {
            invalid_arg()
        } else {
            4
        },
        OpCode::Statx => if !fd_ok(e) && e.addr == 0 {
            invalid_arg()
        } else {
            0
        },
        OpCode::ReadFixed => checked_fd(e, length_result(e)),
        OpCode::WriteFixed => checked_fd(e, length_result(e)),
        OpCode::Cancel => 0,
        OpCode::Timeout => MioError::TimedOut.code(),
        OpCode::TimeoutRemove => 0,
        OpCode::LinkTimeout => 0,
        OpCode::Splice => if e.splice_fd_in < 0 {
            bad_fd()
        } else {
            checked_fd(e, length_result(e))
        },
        OpCode::ProvideBuffers => if buffer_ok(e) {
            0
        } else {
            invalid_arg()
        },
        OpCode::RemoveBuffers => 0,
        OpCode::MhcSubmit => if e.addr == 0 {
            invalid_arg()
        } else {
            0
        },
        OpCode::MksYield => 0,
        OpCode::NvmeFlush => checked_fd(e, 0),
    }
}

/// Executes a submission and returns its result code: bytes transferred or
/// another value that is not negative on success, a negative code on failure.
pub fn dispatch(sqe: &SubmissionEntry) -> (r: i32)
    ensures
        r == op_result(*sqe),
{
    match sqe.opcode {
        OpCode::Nop => op_nop(sqe),
        OpCode::Read => op_read(sqe),
        OpCode::Write => op_write(sqe),
        OpCode::Fsync => op_fsync(sqe),
        OpCode::PollAdd => op_poll_add(sqe),
        OpCode::PollRemove => op_poll_remove(sqe),
        OpCode::Accept => op_accept(sqe),
        OpCode::Connect => op_connect(sqe),
        OpCode::Close => op_close(sqe),
        OpCode::Send => op_send(sqe),
        OpCode::Recv => op_recv(sqe),
        OpCode::OpenAt => op_open_at(sqe),
        OpCode::Statx => op_statx(sqe),
        OpCode::ReadFixed => op_read_fixed(sqe),
        OpCode::WriteFixed => op_write_fixed(sqe),
        OpCode::Cancel => op_cancel(sqe),
        OpCode::Timeout => op_timeout(sqe),
        OpCode::TimeoutRemove => op_timeout_remove(sqe),
        OpCode::LinkTimeout => op_link_timeout(sqe),
        OpCode::Splice => op_splice(sqe),
        OpCode::ProvideBuffers => op_provide_buffers(sqe),
        OpCode::RemoveBuffers => op_remove_buffers(sqe),
        OpCode::MhcSubmit => op_mhc_submit(sqe),
        OpCode::MksYield => op_mks_yield(sqe),
        OpCode::NvmeFlush => op_nvme_flush(sqe),
    }
}

/// The length of a transfer as a result code.
fn length_code(sqe: &SubmissionEntry) -> (r: i32)
    ensures
        r == length_result(*sqe),
{
    if sqe.len <= i32::MAX as u32 {
        sqe.len as i32
    } else {
        i32::MAX
    }
}

/// A no-op.
fn op_nop(_sqe: &SubmissionEntry) -> (r: i32)
    ensures
        r == 0,
{
    0
}

/// A read at an offset.
fn op_read(sqe: &SubmissionEntry) -> (r: i32)
    ensures
        r == transfer_result(*sqe),
{
    if sqe.fd < 0 {
        return MioError::BadFd.as_i32();
    }
    if sqe.addr == 0 || sqe.len == 0 {
        return MioError::InvalidArg.as_i32();
    }
    length_code(sqe)
}

/// A write at an offset.
fn op_write(sqe: &SubmissionEntry) -> (r: i32)
    ensures
        r == transfer_result(*sqe),
{
    if sqe.fd < 0 {
        return MioError::BadFd.as_i32();
    }
    if sqe.addr == 0 || sqe.len == 0 {
        return MioError::InvalidArg.as_i32();
    }
    length_code(sqe)
}

/// An fsync.
fn op_fsync(sqe: &SubmissionEntry) -> (r: i32)
    ensures
        r == checked_fd(*sqe, 0),
{
    if sqe.fd < 0 {
        return MioError::BadFd.as_i32();
    }
    0
}

/// Adds a poll monitor.
fn op_poll_add(sqe: &SubmissionEntry) -> (r: i32)
    ensures
        r == checked_fd(*sqe, 0),
{
    if sqe.fd < 0 {
        return MioError::BadFd.as_i32();
    }
    0
}

/// Removes a poll monitor.
fn op_poll_remove(_sqe: &SubmissionEntry) -> (r: i32)
    ensures
        r == 0,
{
    0
}

/// Accepts a connection.
fn op_accept(sqe: &SubmissionEntry) -> (r: i32)
    ensures
        r == checked_fd(*sqe, 3),
{
    if sqe.fd < 0 {
        return MioError::BadFd.as_i32();
    }
    3
}

/// Connects a socket.
fn op_connect(sqe: &SubmissionEntry) -> (r: i32)
    ensures
        r == checked_fd(*sqe, 0),
{
    if sqe.fd < 0 {
        return MioError::BadFd.as_i32();
    }
    0
}

/// Closes a file descriptor.
fn op_close(sqe: &SubmissionEntry) -> (r: i32)
    ensures
        r == checked_fd(*sqe, 0),
{
    if sqe.fd < 0 {
        return MioError::BadFd.as_i32();
    }
    0
}

/// Sends data on a socket.
fn op_send(sqe: &SubmissionEntry) -> (r: i32)
    ensures
        r == checked_fd(*sqe, length_result(*sqe)),
{
    if sqe.fd < 0 {
        return MioError::BadFd.as_i32();
    }
    length_code(sqe)
}

/// Receives data from a socket.
fn op_recv(sqe: &SubmissionEntry) -> (r: i32)
    ensures
        r == checked_fd(*sqe, length_result(*sqe)),
{
    if sqe.fd < 0 {
        return MioError::BadFd.as_i32();
    }
    length_code(sqe)
}

/// Opens a file by path.
fn op_open_at(sqe: &SubmissionEntry) -> (r: i32)
    ensures
        r == if sqe.addr == 0 {
            invalid_arg()
        } else {
            4
        },
{
    if sqe.addr == 0 {
        return MioError::InvalidArg.as_i32();
    }
    4
}

/// Gets the status of a file.
fn op_statx(sqe: &SubmissionEntry) -> (r: i32)
    ensures
        r == if !fd_ok(*sqe) && sqe.addr == 0 {
            invalid_arg()
        } else {
            0
        },
{
    if sqe.fd < 0 && sqe.addr == 0 {
        return MioError::InvalidArg.as_i32();
    }
    0
}

/// A read into a registered buffer.
fn op_read_fixed(sqe: &SubmissionEntry) -> (r: i32)
    ensures
        r == checked_fd(*sqe, length_result(*sqe)),
{
    if sqe.fd < 0 {
        return MioError::BadFd.as_i32();
    }
    length_code(sqe)
}

/// A write from a registered buffer.
fn op_write_fixed(sqe: &SubmissionEntry) -> (r: i32)
    ensures
        r == checked_fd(*sqe, length_result(*sqe)),
{
    if sqe.fd < 0 {
        return MioError::BadFd.as_i32();
    }
    length_code(sqe)
}

/// Cancels a pending operation.
fn op_cancel(_sqe: &SubmissionEntry) -> (r: i32)
    ensures
        r == 0,
{
    0
}

/// A timeout.
fn op_timeout(_sqe: &SubmissionEntry) -> (r: i32)
    ensures
        r == MioError::TimedOut.code(),
{
    MioError::TimedOut.as_i32()
}

/// Removes a pending timeout.
fn op_timeout_remove(_sqe: &SubmissionEntry) -> (r: i32)
    ensures
        r == 0,
{
    0
}

/// Links a timeout to the submission before.
fn op_link_timeout(_sqe: &SubmissionEntry) -> (r: i32)
    ensures
        r == 0,
{
    0
}

/// Splices data between two file descriptors.
fn op_splice(sqe: &SubmissionEntry) -> (r: i32)
    ensures
        r == if sqe.splice_fd_in < 0 {
            bad_fd()
        } else {
            checked_fd(*sqe, length_result(*sqe))
        },
{
    if sqe.fd < 0 || sqe.splice_fd_in < 0 {
        return MioError::BadFd.as_i32();
    }
    length_code(sqe)
}

/// Provides buffers to a pool.
fn op_provide_buffers(sqe: &SubmissionEntry) -> (r: i32)
    ensures
        r == if buffer_ok(*sqe) {
            0
        } else {
            invalid_arg()
        },
{
    if sqe.addr == 0 || sqe.len == 0 {
        return MioError::InvalidArg.as_i32();
    }
    0
}

/// Removes buffers from a pool.
fn op_remove_buffers(_sqe: &SubmissionEntry) -> (r: i32)
    ensures
        r == 0,
{
    0
}

/// Submits a compute task.
fn op_mhc_submit(sqe: &SubmissionEntry) -> (r: i32)
    ensures
        r == if sqe.addr == 0 {
            invalid_arg()
        } else {
            0
        },
{
    if sqe.addr == 0 {
        return MioError::InvalidArg.as_i32();
    }
    0
}

/// Yields the timeslice.
fn op_mks_yield(_sqe: &SubmissionEntry) -> (r: i32)
    ensures
        r == 0,
{
    0
}

/// Flushes the NVMe submission queue.
fn op_nvme_flush(sqe: &SubmissionEntry) -> (r: i32)
    ensures
        r == checked_fd(*sqe, 0),
{
    if sqe.fd < 0 {
        return MioError::BadFd.as_i32();
    }
    0
}

/// A result is a negative error code or a value that is not negative.
pub proof fn result_is_value_or_error_code(e: SubmissionEntry)
    ensures
        op_result(e) >= 0 || op_result(e) == bad_fd() || op_result(e) == invalid_arg() || op_result(
            e,
        ) == MioError::TimedOut.code(),
        bad_fd() < 0,
        invalid_arg() < 0,
        MioError::TimedOut.code() < 0,
{
}

/// An operation that moves data between good descriptors and a good buffer completes with
/// the number of bytes it was asked to move.
pub proof fn data_operations_return_their_length(e: SubmissionEntry)
    requires
        e.opcode == OpCode::Read || e.opcode == OpCode::Write || e.opcode == OpCode::Send
            || e.opcode == OpCode::Recv || e.opcode == OpCode::ReadFixed || e.opcode
            == OpCode::WriteFixed || e.opcode == OpCode::Splice,
        e.fd >= 0,
        e.opcode == OpCode::Splice ==> e.splice_fd_in >= 0,
        e.opcode == OpCode::Read || e.opcode == OpCode::Write ==> e.addr != 0,
        0 < e.len,
    ensures
        e.len <= 0x7fff_ffff ==> op_result(e) == e.len,
        e.len > 0x7fff_ffff ==> op_result(e) == 0x7fff_ffff,
{
}

/// A descriptor that is negative is refused with -9 by every operation that works on one,
/// whatever else the submission holds.
pub proof fn bad_descriptors_are_refused(e: SubmissionEntry)
    requires
        e.opcode == OpCode::Read || e.opcode == OpCode::Write || e.opcode == OpCode::Fsync
            || e.opcode == OpCode::PollAdd || e.opcode == OpCode::Accept || e.opcode
            == OpCode::Connect || e.opcode == OpCode::Close || e.opcode == OpCode::Send || e.opcode
            == OpCode::Recv || e.opcode == OpCode::ReadFixed || e.opcode == OpCode::WriteFixed
            || e.opcode == OpCode::Splice || e.opcode == OpCode::NvmeFlush,
        e.fd < 0 || (e.opcode == OpCode::Splice && e.splice_fd_in < 0),
    ensures
        op_result(e) == -9,
{
}

/// A buffer that is null or empty is refused with -22 by the operations that need one, and
/// so is a null address by those that need only that.
pub proof fn bad_buffers_are_refused(e: SubmissionEntry)
    ensures
        (e.opcode == OpCode::Read || e.opcode == OpCode::Write) && e.fd >= 0 && (e.addr == 0 || e.len
            == 0) ==> op_result(e) == -22,
        e.opcode == OpCode::ProvideBuffers && (e.addr == 0 || e.len == 0) ==> op_result(e) == -22,
        (e.opcode == OpCode::OpenAt || e.opcode == OpCode::MhcSubmit) && e.addr == 0 ==> op_result(e)
            == -22,
        e.opcode == OpCode::Statx && e.fd < 0 && e.addr == 0 ==> op_result(e) == -22,
{
}

/// An operation that has nothing to hand back completes with zero where its arguments are
/// good; opening and accepting give a descriptor; and a timeout ends in its own code.
pub proof fn other_operations_succeed(e: SubmissionEntry)
    ensures
        e.opcode == OpCode::Nop || e.opcode == OpCode::PollRemove || e.opcode == OpCode::Cancel
            || e.opcode == OpCode::TimeoutRemove || e.opcode == OpCode::LinkTimeout || e.opcode
            == OpCode::RemoveBuffers || e.opcode == OpCode::MksYield ==> op_result(e) == 0,
        (e.opcode == OpCode::Fsync || e.opcode == OpCode::PollAdd || e.opcode == OpCode::Connect
            || e.opcode == OpCode::Close || e.opcode == OpCode::NvmeFlush) && e.fd >= 0
            ==> op_result(e) == 0,
        e.opcode == OpCode::Accept && e.fd >= 0 ==> op_result(e) == 3,
        e.opcode == OpCode::OpenAt && e.addr != 0 ==> op_result(e) == 4,
        e.opcode == OpCode::Statx && (e.fd >= 0 || e.addr != 0) ==> op_result(e) == 0,
        e.opcode == OpCode::MhcSubmit && e.addr != 0 ==> op_result(e) == 0,
        e.opcode == OpCode::ProvideBuffers && e.addr != 0 && e.len != 0 ==> op_result(e) == 0,
        e.opcode == OpCode::Timeout ==> op_result(e) == -110,
{
}

} // verus!
