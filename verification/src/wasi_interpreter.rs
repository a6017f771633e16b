//! System calls of WebAssembly programs.
//!
//! Each call has a name, a number and a signature.

pub mod rights;

use crate::text::text_equal;
use vstd::prelude::*;

verus! {

/// Type of a value.
#[derive(Clone, Copy, Debug, PartialEq, Eq, Structural)]
pub enum ValueType {
    I32,
    I64,
    F32,
    F64,
}

/// The signature of a function: the types of its parameters and of its result.
#[verifier::external_type_specification]
#[verifier::external_body]
pub struct ExSignature(wasmi::Signature);

/// The types of the parameters that a signature holds.
pub uninterp spec fn signature_params(s: wasmi::Signature) -> Seq<ValueType>;

/// The type of the result that a signature holds.
pub uninterp spec fn signature_result(s: wasmi::Signature) -> Option<ValueType>;

/// Calls `wasmi::Signature::new`, whose signature holds the types of the parameters and
/// of the result that it was given.
#[verifier::external_body]
pub fn get_signature(params: &Vec<ValueType>, ret_ty: Option<ValueType>) -> (r: wasmi::Signature)
    ensures
        signature_params(r) == params@,
        signature_result(r) == ret_ty,
{
    let convert = |t: &ValueType| match t {
        ValueType::I32 => wasmi::ValueType::I32,
        ValueType::I64 => wasmi::ValueType::I64,
        ValueType::F32 => wasmi::ValueType::F32,
        ValueType::F64 => wasmi::ValueType::F64,
    };
    wasmi::Signature::new(
        params.iter().map(convert).collect::<Vec<wasmi::ValueType>>(),
        ret_ty.as_ref().map(convert),
    )
}

/// System calls.
#[derive(Clone, Copy, Debug, PartialEq, Eq, Structural)]
pub enum SystemCall {
    /// Ends the process.
    ProcExit,
    /// Closes a descriptor.
    FdClose,
    /// Writes to a descriptor.
    FdWrite,
    /// Moves the position of a descriptor.
    FdSeek,
    /// Reads from a descriptor.
    FdRead,
    /// Attributes of a descriptor.
    FdFdstatGet,
    /// Size of the environment.
    EnvironSizesGet,
    /// The environment.
    EnvironGet,
    /// A directory that is open from the start.
    FdPrestatGet,
    /// Name of a directory that is open from the start.
    FdPrestatDirName,
    /// Opens a path.
    PathOpen,
    /// Changes the flags of a descriptor.
    FdFdstatSetFlags,
    /// Size of the arguments.
    ArgsSizesGet,
    /// The arguments.
    ArgsGet,
    /// Reads a clock.
    ClockTimeGet,
    /// Status of a descriptor.
    FdFilestatGet,
    /// Status of a path.
    PathFilestatGet,
    /// Reads a directory.
    FdReaddir,
    /// Creates a directory.
    PathCreateDirectory,
    /// Removes a directory.
    PathRemoveDirectory,
    /// Removes a file.
    PathUnlinkFile,
    /// Renames a path.
    PathRename,
    /// Synchronises a descriptor.
    FdSync,
    /// Synchronises the data of a descriptor.
    FdDatasync,
    /// Yields the CPU.
    SchedYield,
    /// Random data.
    RandomGet,
    /// Makes a symbolic link.
    PathSymlink,
    /// Reads a symbolic link.
    PathReadlink,
    /// Makes a hard link.
    PathLink,
    /// Truncates a file.
    FdFilestatSetSize,
    /// Changes the times of a descriptor.
    FdFilestatSetTimes,
    /// Changes the times of a path.
    PathFilestatSetTimes,
    /// Waits for events.
    PollOneoff,
    /// Sends a signal.
    ProcRaise,
    /// Accepts a connection.
    SockAccept,
    /// Receives data.
    SockRecv,
    /// Sends data.
    SockSend,
    /// Closes a socket.
    SockShutdown,
    /// Advises on access.
    FdAdvise,
    /// Reserves space.
    FdAllocate,
    /// Position of a descriptor.
    FdTell,
}

/// Number of system calls.
pub const NUM_SYSTEM_CALLS: usize = 41;

/// Name of a system call.
pub open spec fn name_of(call: SystemCall) -> Seq<char> {
    match call {
        SystemCall::ProcExit => "proc_exit"@,
        SystemCall::FdClose => "fd_close"@,
        SystemCall::FdWrite => "fd_write"@,
        SystemCall::FdSeek => "fd_seek"@,
        SystemCall::FdRead => "fd_read"@,
        SystemCall::FdFdstatGet => "fd_fdstat_get"@,
        SystemCall::EnvironSizesGet => "environ_sizes_get"@,
        SystemCall::EnvironGet => "environ_get"@,
        SystemCall::FdPrestatGet => "fd_prestat_get"@,
        SystemCall::FdPrestatDirName => "fd_prestat_dir_name"@,
        SystemCall::PathOpen => "path_open"@,
        SystemCall::FdFdstatSetFlags => "fd_fdstat_set_flags"@,
        SystemCall::ArgsSizesGet => "args_sizes_get"@,
        SystemCall::ArgsGet => "args_get"@,
        SystemCall::ClockTimeGet => "clock_time_get"@,
        SystemCall::FdFilestatGet => "fd_filestat_get"@,
        SystemCall::PathFilestatGet => "path_filestat_get"@,
        SystemCall::FdReaddir => "fd_readdir"@,
        SystemCall::PathCreateDirectory => "path_create_directory"@,
        SystemCall::PathRemoveDirectory => "path_remove_directory"@,
        SystemCall::PathUnlinkFile => "path_unlink_file"@,
        SystemCall::PathRename => "path_rename"@,
        SystemCall::FdSync => "fd_sync"@,
        SystemCall::FdDatasync => "fd_datasync"@,
        SystemCall::SchedYield => "sched_yield"@,
        SystemCall::RandomGet => "random_get"@,
        SystemCall::PathSymlink => "path_symlink"@,
        SystemCall::PathReadlink => "path_readlink"@,
        SystemCall::PathLink => "path_link"@,
        SystemCall::FdFilestatSetSize => "fd_filestat_set_size"@,
        SystemCall::FdFilestatSetTimes => "fd_filestat_set_times"@,
        SystemCall::PathFilestatSetTimes => "path_filestat_set_times"@,
        SystemCall::PollOneoff => "poll_oneoff"@,
        SystemCall::ProcRaise => "proc_raise"@,
        SystemCall::SockAccept => "sock_accept"@,
        SystemCall::SockRecv => "sock_recv"@,
        SystemCall::SockSend => "sock_send"@,
        SystemCall::SockShutdown => "sock_shutdown"@,
        SystemCall::FdAdvise => "fd_advise"@,
        SystemCall::FdAllocate => "fd_allocate"@,
        SystemCall::FdTell => "fd_tell"@,
    }
}

/// Number of a system call.
pub open spec fn index_of(call: SystemCall) -> usize {
    match call {
        SystemCall::ProcExit => 0,
        SystemCall::FdClose => 1,
        SystemCall::FdWrite => 2,
        SystemCall::FdSeek => 3,
        SystemCall::FdRead => 4,
        SystemCall::FdFdstatGet => 5,
        SystemCall::EnvironSizesGet => 6,
        SystemCall::EnvironGet => 7,
        SystemCall::FdPrestatGet => 8,
        SystemCall::FdPrestatDirName => 9,
        SystemCall::PathOpen => 10,
        SystemCall::FdFdstatSetFlags => 11,
        SystemCall::ArgsSizesGet => 12,
        SystemCall::ArgsGet => 13,
        SystemCall::ClockTimeGet => 14,
        SystemCall::FdFilestatGet => 15,
        SystemCall::PathFilestatGet => 16,
        SystemCall::FdReaddir => 17,
        SystemCall::PathCreateDirectory => 18,
        SystemCall::PathRemoveDirectory => 19,
        SystemCall::PathUnlinkFile => 20,
        SystemCall::PathRename => 21,
        SystemCall::FdSync => 22,
        SystemCall::FdDatasync => 23,
        SystemCall::SchedYield => 24,
        SystemCall::RandomGet => 25,
        SystemCall::PathSymlink => 26,
        SystemCall::PathReadlink => 27,
        SystemCall::PathLink => 28,
        SystemCall::FdFilestatSetSize => 29,
        SystemCall::FdFilestatSetTimes => 30,
        SystemCall::PathFilestatSetTimes => 31,
        SystemCall::PollOneoff => 32,
        SystemCall::ProcRaise => 33,
        SystemCall::SockAccept => 34,
        SystemCall::SockRecv => 35,
        SystemCall::SockSend => 36,
        SystemCall::SockShutdown => 37,
        SystemCall::FdAdvise => 38,
        SystemCall::FdAllocate => 39,
        SystemCall::FdTell => 40,
    }
}

/// Types of the parameters of a system call.
pub open spec fn params_of(call: SystemCall) -> Seq<ValueType> {
    match call {
        SystemCall::ProcExit
        | SystemCall::FdClose
        | SystemCall::FdSync
        | SystemCall::FdDatasync
        | SystemCall::ProcRaise => seq![ValueType::I32],
        SystemCall::FdWrite
        | SystemCall::FdRead
        | SystemCall::PollOneoff => seq![ValueType::I32, ValueType::I32, ValueType::I32, ValueType::I32],
        SystemCall::FdSeek => seq![ValueType::I32, ValueType::I64, ValueType::I32, ValueType::I32],
        SystemCall::FdFdstatGet
        | SystemCall::EnvironSizesGet
        | SystemCall::EnvironGet
        | SystemCall::FdPrestatGet
        | SystemCall::FdFdstatSetFlags
        | SystemCall::ArgsSizesGet
        | SystemCall::ArgsGet
        | SystemCall::FdFilestatGet
        | SystemCall::RandomGet
        | SystemCall::SockShutdown
        | SystemCall::FdTell => seq![ValueType::I32, ValueType::I32],
        SystemCall::FdPrestatDirName
        | SystemCall::PathCreateDirectory
        | SystemCall::PathRemoveDirectory
        | SystemCall::PathUnlinkFile
        | SystemCall::SockAccept => seq![ValueType::I32, ValueType::I32, ValueType::I32],
        SystemCall::PathOpen => seq![ValueType::I32, ValueType::I32, ValueType::I32, ValueType::I32, ValueType::I32, ValueType::I64, ValueType::I64, ValueType::I32, ValueType::I32],
        SystemCall::ClockTimeGet => seq![ValueType::I32, ValueType::I64, ValueType::I32],
        SystemCall::PathFilestatGet
        | SystemCall::PathSymlink
        | SystemCall::SockSend => seq![ValueType::I32, ValueType::I32, ValueType::I32, ValueType::I32, ValueType::I32],
        SystemCall::FdReaddir => seq![ValueType::I32, ValueType::I32, ValueType::I32, ValueType::I64, ValueType::I32],
        SystemCall::PathRename
        | SystemCall::PathReadlink
        | SystemCall::SockRecv => seq![ValueType::I32, ValueType::I32, ValueType::I32, ValueType::I32, ValueType::I32, ValueType::I32],
        SystemCall::SchedYield => seq![],
        SystemCall::PathLink => seq![ValueType::I32, ValueType::I32, ValueType::I32, ValueType::I32, ValueType::I32, ValueType::I32, ValueType::I32],
        SystemCall::FdFilestatSetSize => seq![ValueType::I32, ValueType::I64],
        SystemCall::FdFilestatSetTimes
        | SystemCall::FdAdvise => seq![ValueType::I32, ValueType::I64, ValueType::I64, ValueType::I32],
        SystemCall::PathFilestatSetTimes => seq![ValueType::I32, ValueType::I32, ValueType::I32, ValueType::I32, ValueType::I64, ValueType::I64, ValueType::I32],
        SystemCall::FdAllocate => seq![ValueType::I32, ValueType::I64, ValueType::I64],
    }
}

/// Type of the result of a system call: only the end of the process has none.
pub open spec fn result_of(call: SystemCall) -> Option<ValueType> {
    if call == SystemCall::ProcExit {
        None
    } else {
        Some(ValueType::I32)
    }
}

impl SystemCall {
    /// Name of the call.
    pub fn name(self) -> (r: &'static str)
        ensures
            r@ == name_of(self),
    {
        match self {
            SystemCall::ProcExit => "proc_exit",
            SystemCall::FdClose => "fd_close",
            SystemCall::FdWrite => "fd_write",
            SystemCall::FdSeek => "fd_seek",
            SystemCall::FdRead => "fd_read",
            SystemCall::FdFdstatGet => "fd_fdstat_get",
            SystemCall::EnvironSizesGet => "environ_sizes_get",
            SystemCall::EnvironGet => "environ_get",
            SystemCall::FdPrestatGet => "fd_prestat_get",
            SystemCall::FdPrestatDirName => "fd_prestat_dir_name",
            SystemCall::PathOpen => "path_open",
            SystemCall::FdFdstatSetFlags => "fd_fdstat_set_flags",
            SystemCall::ArgsSizesGet => "args_sizes_get",
            SystemCall::ArgsGet => "args_get",
            SystemCall::ClockTimeGet => "clock_time_get",
            SystemCall::FdFilestatGet => "fd_filestat_get",
            SystemCall::PathFilestatGet => "path_filestat_get",
            SystemCall::FdReaddir => "fd_readdir",
            SystemCall::PathCreateDirectory => "path_create_directory",
            SystemCall::PathRemoveDirectory => "path_remove_directory",
            SystemCall::PathUnlinkFile => "path_unlink_file",
            SystemCall::PathRename => "path_rename",
            SystemCall::FdSync => "fd_sync",
            SystemCall::FdDatasync => "fd_datasync",
            SystemCall::SchedYield => "sched_yield",
            SystemCall::RandomGet => "random_get",
            SystemCall::PathSymlink => "path_symlink",
            SystemCall::PathReadlink => "path_readlink",
            SystemCall::PathLink => "path_link",
            SystemCall::FdFilestatSetSize => "fd_filestat_set_size",
            SystemCall::FdFilestatSetTimes => "fd_filestat_set_times",
            SystemCall::PathFilestatSetTimes => "path_filestat_set_times",
            SystemCall::PollOneoff => "poll_oneoff",
            SystemCall::ProcRaise => "proc_raise",
            SystemCall::SockAccept => "sock_accept",
            SystemCall::SockRecv => "sock_recv",
            SystemCall::SockSend => "sock_send",
            SystemCall::SockShutdown => "sock_shutdown",
            SystemCall::FdAdvise => "fd_advise",
            SystemCall::FdAllocate => "fd_allocate",
            SystemCall::FdTell => "fd_tell",
        }
    }

    /// Number of the call.
    pub fn index(self) -> (r: usize)
        ensures
            r == index_of(self),
            r < NUM_SYSTEM_CALLS,
    {
        match self {
            SystemCall::ProcExit => 0,
            SystemCall::FdClose => 1,
            SystemCall::FdWrite => 2,
            SystemCall::FdSeek => 3,
            SystemCall::FdRead => 4,
            SystemCall::FdFdstatGet => 5,
            SystemCall::EnvironSizesGet => 6,
            SystemCall::EnvironGet => 7,
            SystemCall::FdPrestatGet => 8,
            SystemCall::FdPrestatDirName => 9,
            SystemCall::PathOpen => 10,
            SystemCall::FdFdstatSetFlags => 11,
            SystemCall::ArgsSizesGet => 12,
            SystemCall::ArgsGet => 13,
            SystemCall::ClockTimeGet => 14,
            SystemCall::FdFilestatGet => 15,
            SystemCall::PathFilestatGet => 16,
            SystemCall::FdReaddir => 17,
            SystemCall::PathCreateDirectory => 18,
            SystemCall::PathRemoveDirectory => 19,
            SystemCall::PathUnlinkFile => 20,
            SystemCall::PathRename => 21,
            SystemCall::FdSync => 22,
            SystemCall::FdDatasync => 23,
            SystemCall::SchedYield => 24,
            SystemCall::RandomGet => 25,
            SystemCall::PathSymlink => 26,
            SystemCall::PathReadlink => 27,
            SystemCall::PathLink => 28,
            SystemCall::FdFilestatSetSize => 29,
            SystemCall::FdFilestatSetTimes => 30,
            SystemCall::PathFilestatSetTimes => 31,
            SystemCall::PollOneoff => 32,
            SystemCall::ProcRaise => 33,
            SystemCall::SockAccept => 34,
            SystemCall::SockRecv => 35,
            SystemCall::SockSend => 36,
            SystemCall::SockShutdown => 37,
            SystemCall::FdAdvise => 38,
            SystemCall::FdAllocate => 39,
            SystemCall::FdTell => 40,
        }
    }

    /// The call with a number.
    pub fn try_from(syscall_index: usize) -> (r: Result<SystemCall, &'static str>)
        ensures
            r is Ok <==> syscall_index < NUM_SYSTEM_CALLS,
            r matches Ok(c) ==> index_of(c) == syscall_index,
            r matches Err(e) ==> e@ == "Unknown WASI system call."@,
    {
        match syscall_index {
            0 => Ok(SystemCall::ProcExit),
            1 => Ok(SystemCall::FdClose),
            2 => Ok(SystemCall::FdWrite),
            3 => Ok(SystemCall::FdSeek),
            4 => Ok(SystemCall::FdRead),
            5 => Ok(SystemCall::FdFdstatGet),
            6 => Ok(SystemCall::EnvironSizesGet),
            7 => Ok(SystemCall::EnvironGet),
            8 => Ok(SystemCall::FdPrestatGet),
            9 => Ok(SystemCall::FdPrestatDirName),
            10 => Ok(SystemCall::PathOpen),
            11 => Ok(SystemCall::FdFdstatSetFlags),
            12 => Ok(SystemCall::ArgsSizesGet),
            13 => Ok(SystemCall::ArgsGet),
            14 => Ok(SystemCall::ClockTimeGet),
            15 => Ok(SystemCall::FdFilestatGet),
            16 => Ok(SystemCall::PathFilestatGet),
            17 => Ok(SystemCall::FdReaddir),
            18 => Ok(SystemCall::PathCreateDirectory),
            19 => Ok(SystemCall::PathRemoveDirectory),
            20 => Ok(SystemCall::PathUnlinkFile),
            21 => Ok(SystemCall::PathRename),
            22 => Ok(SystemCall::FdSync),
            23 => Ok(SystemCall::FdDatasync),
            24 => Ok(SystemCall::SchedYield),
            25 => Ok(SystemCall::RandomGet),
            26 => Ok(SystemCall::PathSymlink),
            27 => Ok(SystemCall::PathReadlink),
            28 => Ok(SystemCall::PathLink),
            29 => Ok(SystemCall::FdFilestatSetSize),
            30 => Ok(SystemCall::FdFilestatSetTimes),
            31 => Ok(SystemCall::PathFilestatSetTimes),
            32 => Ok(SystemCall::PollOneoff),
            33 => Ok(SystemCall::ProcRaise),
            34 => Ok(SystemCall::SockAccept),
            35 => Ok(SystemCall::SockRecv),
            36 => Ok(SystemCall::SockSend),
            37 => Ok(SystemCall::SockShutdown),
            38 => Ok(SystemCall::FdAdvise),
            39 => Ok(SystemCall::FdAllocate),
            40 => Ok(SystemCall::FdTell),
            _ => Err("Unknown WASI system call."),
        }
    }

    /// The call with a name.
    pub fn from_str(fn_name: &str) -> (r: Result<SystemCall, &'static str>)
        ensures
            r matches Ok(c) ==> name_of(c) == fn_name@,
            r is Err ==> forall|c: SystemCall| #[trigger] name_of(c) != fn_name@,
            r matches Err(e) ==> e@ == "Unknown WASI system call."@,
    {
        let mut i: usize = 0;
        while i < NUM_SYSTEM_CALLS
            invariant
                i <= NUM_SYSTEM_CALLS,
                forall|c: SystemCall|
                    index_of(c) < i ==> #[trigger] name_of(c) != fn_name@,
            decreases NUM_SYSTEM_CALLS - i,
        {
            match SystemCall::try_from(i) {
                Ok(call) => {
                    if text_equal(fn_name, call.name()) {
                        return Ok(call);
                    }
                    assert forall|c: SystemCall| index_of(c) < i + 1 implies #[trigger] name_of(c)
                        != fn_name@ by {
                        if index_of(c) == i {
                            index_is_unique(c, call);
                        }
                    }
                },
                Err(_) => {},
            }
            i += 1;
        }
        assert forall|c: SystemCall| #[trigger] name_of(c) != fn_name@ by {
            assert(index_of(c) < NUM_SYSTEM_CALLS);
        }
        Err("Unknown WASI system call.")
    }

    /// Signature of the call.
    pub fn signature(self) -> (r: wasmi::Signature)
        ensures
            signature_params(r) == params_of(self),
            signature_result(r) == result_of(self),
    {
        let params: Vec<ValueType> = match self {
            SystemCall::ProcExit
            | SystemCall::FdClose
            | SystemCall::FdSync
            | SystemCall::FdDatasync
            | SystemCall::ProcRaise => vec![ValueType::I32],
            SystemCall::FdWrite
            | SystemCall::FdRead
            | SystemCall::PollOneoff => vec![ValueType::I32, ValueType::I32, ValueType::I32, ValueType::I32],
            SystemCall::FdSeek => vec![ValueType::I32, ValueType::I64, ValueType::I32, ValueType::I32],
            SystemCall::FdFdstatGet
            | SystemCall::EnvironSizesGet
            | SystemCall::EnvironGet
            | SystemCall::FdPrestatGet
            | SystemCall::FdFdstatSetFlags
            | SystemCall::ArgsSizesGet
            | SystemCall::ArgsGet
            | SystemCall::FdFilestatGet
            | SystemCall::RandomGet
            | SystemCall::SockShutdown
            | SystemCall::FdTell => vec![ValueType::I32, ValueType::I32],
            SystemCall::FdPrestatDirName
            | SystemCall::PathCreateDirectory
            | SystemCall::PathRemoveDirectory
            | SystemCall::PathUnlinkFile
            | SystemCall::SockAccept => vec![ValueType::I32, ValueType::I32, ValueType::I32],
            SystemCall::PathOpen => vec![ValueType::I32, ValueType::I32, ValueType::I32, ValueType::I32, ValueType::I32, ValueType::I64, ValueType::I64, ValueType::I32, ValueType::I32],
            SystemCall::ClockTimeGet => vec![ValueType::I32, ValueType::I64, ValueType::I32],
            SystemCall::PathFilestatGet
            | SystemCall::PathSymlink
            | SystemCall::SockSend => vec![ValueType::I32, ValueType::I32, ValueType::I32, ValueType::I32, ValueType::I32],
            SystemCall::FdReaddir => vec![ValueType::I32, ValueType::I32, ValueType::I32, ValueType::I64, ValueType::I32],
            SystemCall::PathRename
            | SystemCall::PathReadlink
            | SystemCall::SockRecv => vec![ValueType::I32, ValueType::I32, ValueType::I32, ValueType::I32, ValueType::I32, ValueType::I32],
            SystemCall::SchedYield => Vec::new(),
            SystemCall::PathLink => vec![ValueType::I32, ValueType::I32, ValueType::I32, ValueType::I32, ValueType::I32, ValueType::I32, ValueType::I32],
            SystemCall::FdFilestatSetSize => vec![ValueType::I32, ValueType::I64],
            SystemCall::FdFilestatSetTimes
            | SystemCall::FdAdvise => vec![ValueType::I32, ValueType::I64, ValueType::I64, ValueType::I32],
            SystemCall::PathFilestatSetTimes => vec![ValueType::I32, ValueType::I32, ValueType::I32, ValueType::I32, ValueType::I64, ValueType::I64, ValueType::I32],
            SystemCall::FdAllocate => vec![ValueType::I32, ValueType::I64, ValueType::I64],
        };
        assert(params@ =~= params_of(self));
        let ret_ty = match self {
            SystemCall::ProcExit => None,
            _ => Some(ValueType::I32),
        };
        get_signature(&params, ret_ty)
    }
}

/// Two calls with one number are the same.
pub proof fn index_is_unique(a: SystemCall, b: SystemCall)
    requires
        index_of(a) == index_of(b),
    ensures
        a == b,
{
}

/// Two calls with one name are the same.
pub proof fn name_is_unique(a: SystemCall, b: SystemCall)
    requires
        name_of(a) == name_of(b),
    ensures
        a == b,
{
    reveal_strlit("proc_exit");
    reveal_strlit("fd_close");
    reveal_strlit("fd_write");
    reveal_strlit("fd_seek");
    reveal_strlit("fd_read");
    reveal_strlit("fd_fdstat_get");
    reveal_strlit("environ_sizes_get");
    reveal_strlit("environ_get");
    reveal_strlit("fd_prestat_get");
    reveal_strlit("fd_prestat_dir_name");
    reveal_strlit("path_open");
    reveal_strlit("fd_fdstat_set_flags");
    reveal_strlit("args_sizes_get");
    reveal_strlit("args_get");
    reveal_strlit("clock_time_get");
    reveal_strlit("fd_filestat_get");
    reveal_strlit("path_filestat_get");
    reveal_strlit("fd_readdir");
    reveal_strlit("path_create_directory");
    reveal_strlit("path_remove_directory");
    reveal_strlit("path_unlink_file");
    reveal_strlit("path_rename");
    reveal_strlit("fd_sync");
    reveal_strlit("fd_datasync");
    reveal_strlit("sched_yield");
    reveal_strlit("random_get");
    reveal_strlit("path_symlink");
    reveal_strlit("path_readlink");
    reveal_strlit("path_link");
    reveal_strlit("fd_filestat_set_size");
    reveal_strlit("fd_filestat_set_times");
    reveal_strlit("path_filestat_set_times");
    reveal_strlit("poll_oneoff");
    reveal_strlit("proc_raise");
    reveal_strlit("sock_accept");
    reveal_strlit("sock_recv");
    reveal_strlit("sock_send");
    reveal_strlit("sock_shutdown");
    reveal_strlit("fd_advise");
    reveal_strlit("fd_allocate");
    reveal_strlit("fd_tell");
    let s = name_of(a);
    let t = name_of(b);
    assert(s.len() == t.len());
    assert(0 < s.len() ==> s[0] == t[0]);
    assert(5 < s.len() ==> s[5] == t[5]);
}

/// Parameters are 32-bit integers, but for offsets, sizes, times and sets of rights.
pub proof fn wide_parameters(call: SystemCall, i: int)
    requires
        0 <= i < params_of(call).len(),
    ensures
        params_of(call)[i] == ValueType::I64 <==> ((i == 1 && (call is FdSeek || call is ClockTimeGet || call is FdFilestatSetSize || call is FdFilestatSetTimes || call is FdAdvise || call is FdAllocate)) || (i == 2 && (call is FdFilestatSetTimes || call is FdAdvise || call is FdAllocate)) || (i == 3 && (call is FdReaddir)) || (i == 4 && (call is PathFilestatSetTimes)) || (i == 5 && (call is PathOpen || call is PathFilestatSetTimes)) || (i == 6 && (call is PathOpen))),
        params_of(call)[i] == ValueType::I64 || params_of(call)[i] == ValueType::I32,
{
}

/// The number of parameters of each call. All but the one that ends the process give a
/// 32-bit error number.
pub proof fn parameters_are_counted(call: SystemCall)
    ensures
        params_of(call).len() == 0 <==> (call is SchedYield),
        params_of(call).len() == 1 <==> (call is ProcExit || call is FdClose || call is FdSync || call is FdDatasync || call is ProcRaise),
        params_of(call).len() == 2 <==> (call is FdFdstatGet || call is EnvironSizesGet || call is EnvironGet || call is FdPrestatGet || call is FdFdstatSetFlags || call is ArgsSizesGet || call is ArgsGet || call is FdFilestatGet || call is RandomGet || call is FdFilestatSetSize || call is SockShutdown || call is FdTell),
        params_of(call).len() == 3 <==> (call is FdPrestatDirName || call is ClockTimeGet || call is PathCreateDirectory || call is PathRemoveDirectory || call is PathUnlinkFile || call is SockAccept || call is FdAllocate),
        params_of(call).len() == 4 <==> (call is FdWrite || call is FdSeek || call is FdRead || call is FdFilestatSetTimes || call is PollOneoff || call is FdAdvise),
        params_of(call).len() == 5 <==> (call is PathFilestatGet || call is FdReaddir || call is PathSymlink || call is SockSend),
        params_of(call).len() == 6 <==> (call is PathRename || call is PathReadlink || call is SockRecv),
        params_of(call).len() == 7 <==> (call is PathLink || call is PathFilestatSetTimes),
        params_of(call).len() == 9 <==> (call is PathOpen),
        result_of(call) == (if call is ProcExit { None::<ValueType> } else { Some(ValueType::I32) }),
{
}

/// Calls are numbered from zero, one after the other.
pub proof fn calls_are_numbered_in_turn(call: SystemCall)
    ensures
        index_of(SystemCall::ProcExit) == 0,
        index_of(SystemCall::FdClose) == index_of(SystemCall::ProcExit) + 1,
        index_of(SystemCall::FdWrite) == index_of(SystemCall::FdClose) + 1,
        index_of(SystemCall::FdSeek) == index_of(SystemCall::FdWrite) + 1,
        index_of(SystemCall::FdRead) == index_of(SystemCall::FdSeek) + 1,
        index_of(SystemCall::FdFdstatGet) == index_of(SystemCall::FdRead) + 1,
        index_of(SystemCall::EnvironSizesGet) == index_of(SystemCall::FdFdstatGet) + 1,
        index_of(SystemCall::EnvironGet) == index_of(SystemCall::EnvironSizesGet) + 1,
        index_of(SystemCall::FdPrestatGet) == index_of(SystemCall::EnvironGet) + 1,
        index_of(SystemCall::FdPrestatDirName) == index_of(SystemCall::FdPrestatGet) + 1,
        index_of(SystemCall::PathOpen) == index_of(SystemCall::FdPrestatDirName) + 1,
        index_of(SystemCall::FdFdstatSetFlags) == index_of(SystemCall::PathOpen) + 1,
        index_of(SystemCall::ArgsSizesGet) == index_of(SystemCall::FdFdstatSetFlags) + 1,
        index_of(SystemCall::ArgsGet) == index_of(SystemCall::ArgsSizesGet) + 1,
        index_of(SystemCall::ClockTimeGet) == index_of(SystemCall::ArgsGet) + 1,
        index_of(SystemCall::FdFilestatGet) == index_of(SystemCall::ClockTimeGet) + 1,
        index_of(SystemCall::PathFilestatGet) == index_of(SystemCall::FdFilestatGet) + 1,
        index_of(SystemCall::FdReaddir) == index_of(SystemCall::PathFilestatGet) + 1,
        index_of(SystemCall::PathCreateDirectory) == index_of(SystemCall::FdReaddir) + 1,
        index_of(SystemCall::PathRemoveDirectory) == index_of(SystemCall::PathCreateDirectory) + 1,
        index_of(SystemCall::PathUnlinkFile) == index_of(SystemCall::PathRemoveDirectory) + 1,
        index_of(SystemCall::PathRename) == index_of(SystemCall::PathUnlinkFile) + 1,
        index_of(SystemCall::FdSync) == index_of(SystemCall::PathRename) + 1,
        index_of(SystemCall::FdDatasync) == index_of(SystemCall::FdSync) + 1,
        index_of(SystemCall::SchedYield) == index_of(SystemCall::FdDatasync) + 1,
        index_of(SystemCall::RandomGet) == index_of(SystemCall::SchedYield) + 1,
        index_of(SystemCall::PathSymlink) == index_of(SystemCall::RandomGet) + 1,
        index_of(SystemCall::PathReadlink) == index_of(SystemCall::PathSymlink) + 1,
        index_of(SystemCall::PathLink) == index_of(SystemCall::PathReadlink) + 1,
        index_of(SystemCall::FdFilestatSetSize) == index_of(SystemCall::PathLink) + 1,
        index_of(SystemCall::FdFilestatSetTimes) == index_of(SystemCall::FdFilestatSetSize) + 1,
        index_of(SystemCall::PathFilestatSetTimes) == index_of(SystemCall::FdFilestatSetTimes) + 1,
        index_of(SystemCall::PollOneoff) == index_of(SystemCall::PathFilestatSetTimes) + 1,
        index_of(SystemCall::ProcRaise) == index_of(SystemCall::PollOneoff) + 1,
        index_of(SystemCall::SockAccept) == index_of(SystemCall::ProcRaise) + 1,
        index_of(SystemCall::SockRecv) == index_of(SystemCall::SockAccept) + 1,
        index_of(SystemCall::SockSend) == index_of(SystemCall::SockRecv) + 1,
        index_of(SystemCall::SockShutdown) == index_of(SystemCall::SockSend) + 1,
        index_of(SystemCall::FdAdvise) == index_of(SystemCall::SockShutdown) + 1,
        index_of(SystemCall::FdAllocate) == index_of(SystemCall::FdAdvise) + 1,
        index_of(SystemCall::FdTell) == index_of(SystemCall::FdAllocate) + 1,
        index_of(call) < 41,
{
}

/// Each call is known by its own name.
pub proof fn calls_are_known_by_name(call: SystemCall)
    ensures
        name_of(SystemCall::ProcExit) == "proc_exit"@,
        name_of(SystemCall::FdClose) == "fd_close"@,
        name_of(SystemCall::FdWrite) == "fd_write"@,
        name_of(SystemCall::FdSeek) == "fd_seek"@,
        name_of(SystemCall::FdRead) == "fd_read"@,
        name_of(SystemCall::FdFdstatGet) == "fd_fdstat_get"@,
        name_of(SystemCall::EnvironSizesGet) == "environ_sizes_get"@,
        name_of(SystemCall::EnvironGet) == "environ_get"@,
        name_of(SystemCall::FdPrestatGet) == "fd_prestat_get"@,
        name_of(SystemCall::FdPrestatDirName) == "fd_prestat_dir_name"@,
        name_of(SystemCall::PathOpen) == "path_open"@,
        name_of(SystemCall::FdFdstatSetFlags) == "fd_fdstat_set_flags"@,
        name_of(SystemCall::ArgsSizesGet) == "args_sizes_get"@,
        name_of(SystemCall::ArgsGet) == "args_get"@,
        name_of(SystemCall::ClockTimeGet) == "clock_time_get"@,
        name_of(SystemCall::FdFilestatGet) == "fd_filestat_get"@,
        name_of(SystemCall::PathFilestatGet) == "path_filestat_get"@,
        name_of(SystemCall::FdReaddir) == "fd_readdir"@,
        name_of(SystemCall::PathCreateDirectory) == "path_create_directory"@,
        name_of(SystemCall::PathRemoveDirectory) == "path_remove_directory"@,
        name_of(SystemCall::PathUnlinkFile) == "path_unlink_file"@,
        name_of(SystemCall::PathRename) == "path_rename"@,
        name_of(SystemCall::FdSync) == "fd_sync"@,
        name_of(SystemCall::FdDatasync) == "fd_datasync"@,
        name_of(SystemCall::SchedYield) == "sched_yield"@,
        name_of(SystemCall::RandomGet) == "random_get"@,
        name_of(SystemCall::PathSymlink) == "path_symlink"@,
        name_of(SystemCall::PathReadlink) == "path_readlink"@,
        name_of(SystemCall::PathLink) == "path_link"@,
        name_of(SystemCall::FdFilestatSetSize) == "fd_filestat_set_size"@,
        name_of(SystemCall::FdFilestatSetTimes) == "fd_filestat_set_times"@,
        name_of(SystemCall::PathFilestatSetTimes) == "path_filestat_set_times"@,
        name_of(SystemCall::PollOneoff) == "poll_oneoff"@,
        name_of(SystemCall::ProcRaise) == "proc_raise"@,
        name_of(SystemCall::SockAccept) == "sock_accept"@,
        name_of(SystemCall::SockRecv) == "sock_recv"@,
        name_of(SystemCall::SockSend) == "sock_send"@,
        name_of(SystemCall::SockShutdown) == "sock_shutdown"@,
        name_of(SystemCall::FdAdvise) == "fd_advise"@,
        name_of(SystemCall::FdAllocate) == "fd_allocate"@,
        name_of(SystemCall::FdTell) == "fd_tell"@,
{
}

} // verus!
