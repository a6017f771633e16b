//! System calls.
//!
//! A task runs native, Linux or Windows code. Which it is decides how the registers
//! of a system call are read and who handles it.

use crate::mps::hw::MsrWrite;
use crate::task::{TaskRef, TaskTable};
use crate::task_struct::Task;
use vstd::prelude::*;

verus! {

/// Which system calls a task makes.
#[derive(Clone, Copy, Debug, PartialEq, Eq, Structural)]
pub enum ExecMode {
    /// Native.
    Native,
    /// Linux.
    Linux,
    /// Windows.
    Windows,
}

impl ExecMode {
    /// Number of a mode.
    pub open spec fn number(self) -> u8 {
        match self {
            ExecMode::Native => 0,
            ExecMode::Linux => 1,
            ExecMode::Windows => 2,
        }
    }

    /// Number of a mode.
    pub fn code(self) -> (r: u8)
        ensures
            r == self.number(),
    {
        match self {
            ExecMode::Native => 0,
            ExecMode::Linux => 1,
            ExecMode::Windows => 2,
        }
    }
}

/// Registers of a system call.
#[derive(Clone, Copy, Debug, PartialEq, Eq, Structural)]
pub struct SyscallFrame {
    pub rax: u64,
    pub rdi: u64,
    pub rsi: u64,
    pub rdx: u64,
    pub r10: u64,
    pub r8: u64,
    pub r9: u64,
    pub rcx: u64,
    pub r11: u64,
    pub rsp: u64,
}

/// A system call: who handles it, its number and its arguments.
#[derive(Clone, Copy, Debug, PartialEq, Eq, Structural)]
pub struct SyscallRequest {
    pub handler: ExecMode,
    pub number: u64,
    pub arg0: u64,
    pub arg1: u64,
    pub arg2: u64,
    pub arg3: u64,
    pub arg4: u64,
    pub arg5: u64,
}

/// Register that enables system calls.
pub const IA32_EFER: u32 = 0xC000_0080;

/// Register of the segments.
pub const IA32_STAR: u32 = 0xC000_0081;

/// Register of the entry point.
pub const IA32_LSTAR: u32 = 0xC000_0082;

/// Register of the flags that are cleared on entry.
pub const IA32_FMASK: u32 = 0xC000_0084;

/// Flags that are cleared on entry: trap, interrupt and direction.
pub const SYSCALL_FMASK: u64 = 0x700;

/// A selector without its privilege level.
pub open spec fn selector_base(selector: u16) -> u16 {
    (selector - selector as int % 4) as u16
}

/// Segments of a system call and of the return from it: the kernel code segment, and
/// 16 below the user code segment.
pub open spec fn star_of(kernel_cs: u16, user_cs: u16) -> u64 {
    (selector_base(user_cs).wrapping_sub(16) * 0x1_0000_0000_0000 + selector_base(kernel_cs)
        * 0x1_0000_0000) as u64
}

/// An odd number is itself, an even one the next.
pub open spec fn with_lowest_bit(v: u64) -> u64 {
    if v % 2 == 1 {
        v
    } else {
        (v + 1) as u64
    }
}

/// Writes that enable system calls.
pub open spec fn syscall_msrs(efer: u64, kernel_cs: u16, user_cs: u16, handler: u64) -> Seq<
    MsrWrite,
> {
    seq![
        MsrWrite { register: IA32_EFER, value: with_lowest_bit(efer) },
        MsrWrite { register: IA32_STAR, value: star_of(kernel_cs, user_cs) },
        MsrWrite { register: IA32_LSTAR, value: handler },
        MsrWrite { register: IA32_FMASK, value: SYSCALL_FMASK },
    ]
}

/// A selector without its privilege level.
fn without_privilege(selector: u16) -> (r: u16)
    ensures
        r == selector_base(selector),
{
    assert(selector & !0x3u16 == selector - selector % 4) by (bit_vector);
    selector & !0x3
}

/// The writes that enable system calls, for the present value of the register that
/// enables them, two code selectors, and the address of the entry point.
pub fn setup_syscall_msrs(efer: u64, kernel_cs: u16, user_cs: u16, handler: u64) -> (r: Vec<
    MsrWrite,
>)
    ensures
        r@ == syscall_msrs(efer, kernel_cs, user_cs, handler),
{
    assert(efer | 1 == if efer % 2 == 1 {
        efer
    } else {
        (efer + 1) as u64
    }) by (bit_vector);
    let sysret: u64 = without_privilege(user_cs).wrapping_sub(16) as u64;
    let kernel: u64 = without_privilege(kernel_cs) as u64;
    assert((sysret << 48) | (kernel << 32) == sysret * 0x1_0000_0000_0000 + kernel * 0x1_0000_0000)
        by (bit_vector)
        requires
            sysret <= 0xffff,
            kernel <= 0xffff,
    ;
    let r: Vec<MsrWrite> = vec![
        MsrWrite { register: IA32_EFER, value: efer | 1 },
        MsrWrite { register: IA32_STAR, value: (sysret << 48) | (kernel << 32) },
        MsrWrite { register: IA32_LSTAR, value: handler },
        MsrWrite { register: IA32_FMASK, value: SYSCALL_FMASK },
    ];
    assert(r@ =~= syscall_msrs(efer, kernel_cs, user_cs, handler));
    r
}

/// Segment selectors, as far as they are known.
#[derive(Clone, Copy, Debug, PartialEq, Eq, Structural)]
pub struct Selectors {
    pub kernel_cs: Option<u16>,
    pub kernel_ds: Option<u16>,
    pub user_cs: Option<u16>,
    pub user_ds: Option<u16>,
}

/// Enables system calls: the writes to carry out. A later call does nothing.
pub fn init(initialized: &mut bool, s: &Selectors, efer: u64, handler: u64) -> (r: Result<
    Vec<MsrWrite>,
    &'static str,
>)
    ensures
        *old(initialized) ==> *final(initialized) && (r matches Ok(w) && w@.len() == 0),
        !*old(initialized) ==> {
            &&& *final(initialized) == (r is Ok)
            &&& r is Ok <==> s.kernel_cs is Some && s.kernel_ds is Some && s.user_cs is Some
                && s.user_ds is Some
            &&& r matches Ok(w) ==> w@ == syscall_msrs(
                efer,
                s.kernel_cs.unwrap(),
                s.user_cs.unwrap(),
                handler,
            )
            &&& r matches Err(e) ==> e@ == if s.kernel_cs is None {
                "syscall::init: kernel code selector not available"@
            } else if s.kernel_ds is None {
                "syscall::init: kernel data selector not available"@
            } else if s.user_cs is None {
                "syscall::init: user code 64 selector not available"@
            } else {
                "syscall::init: user data 64 selector not available"@
            }
        },
{
    if *initialized {
        return Ok(Vec::new());
    }
    let kernel_cs: u16 = match s.kernel_cs {
        Some(v) => v,
        None => {
            return Err("syscall::init: kernel code selector not available");
        },
    };
    if s.kernel_ds.is_none() {
        return Err("syscall::init: kernel data selector not available");
    }
    let user_cs: u16 = match s.user_cs {
        Some(v) => v,
        None => {
            return Err("syscall::init: user code 64 selector not available");
        },
    };
    if s.user_ds.is_none() {
        return Err("syscall::init: user data 64 selector not available");
    }
    *initialized = true;
    Ok(setup_syscall_msrs(efer, kernel_cs, user_cs, handler))
}

/// Enables system calls on another CPU, after they were enabled on the first.
pub fn init_ap(initialized: bool, s: &Selectors, efer: u64, handler: u64) -> (r: Result<
    Vec<MsrWrite>,
    &'static str,
>)
    ensures
        r is Ok <==> initialized && s.kernel_cs is Some && s.user_cs is Some,
        r matches Ok(w) ==> w@ == syscall_msrs(
            efer,
            s.kernel_cs.unwrap(),
            s.user_cs.unwrap(),
            handler,
        ),
        r matches Err(e) ==> e@ == if !initialized {
            "syscall::init_ap: BSP has not initialized syscall subsystem yet"@
        } else if s.kernel_cs is None {
            "syscall::init_ap: kernel code selector not available"@
        } else {
            "syscall::init_ap: user code 64 selector not available"@
        },
{
    if !initialized {
        return Err("syscall::init_ap: BSP has not initialized syscall subsystem yet");
    }
    match s.kernel_cs {
        None => Err("syscall::init_ap: kernel code selector not available"),
        Some(kernel_cs) => match s.user_cs {
            None => Err("syscall::init_ap: user code 64 selector not available"),
            Some(user_cs) => Ok(setup_syscall_msrs(efer, kernel_cs, user_cs, handler)),
        },
    }
}

/// The tasks with another mode of one of them.
pub open spec fn with_mode(tasks: Map<usize, Task>, id: usize, mode: ExecMode) -> Map<usize, Task> {
    if tasks.contains_key(id) {
        tasks.insert(id, Task { exec_mode: mode.number(), ..tasks[id] })
    } else {
        tasks
    }
}

/// Sets which system calls a task makes. An unknown task is ignored.
pub fn set_task_exec_mode(tasks: &mut TaskTable, task_id: usize, mode: ExecMode)
    requires
        old(tasks).wf(),
    ensures
        final(tasks).wf(),
        final(tasks)@ == with_mode(old(tasks)@, task_id, mode),
{
    if tasks.get(task_id).is_some() {
        let task = tasks.write(TaskRef { id: task_id });
        task.exec_mode = mode.code();
    }
    assert(tasks@ =~= with_mode(old(tasks)@, task_id, mode));
}

/// Has a task make native system calls again.
pub fn remove_task_exec_mode(tasks: &mut TaskTable, task_id: usize)
    requires
        old(tasks).wf(),
    ensures
        final(tasks).wf(),
        final(tasks)@ == with_mode(old(tasks)@, task_id, ExecMode::Native),
{
    set_task_exec_mode(tasks, task_id, ExecMode::Native);
}

/// The mode of a number. Anything unknown is Linux.
pub open spec fn mode_of(number: u8) -> ExecMode {
    match number {
        0 => ExecMode::Native,
        2 => ExecMode::Windows,
        _ => ExecMode::Linux,
    }
}

/// Which system calls the current task makes. Without a current task it is Linux.
pub fn current_exec_mode(tasks: &TaskTable, current: Option<TaskRef>) -> (r: ExecMode)
    requires
        tasks.wf(),
        current matches Some(t) ==> tasks@.contains_key(t.id),
    ensures
        r == match current {
            Some(t) => mode_of(tasks@[t.id].exec_mode),
            None => ExecMode::Linux,
        },
{
    let mode: u8 = match current {
        Some(t) => tasks.read(t).exec_mode,
        None => 1,
    };
    match mode {
        0 => ExecMode::Native,
        2 => ExecMode::Windows,
        _ => ExecMode::Linux,
    }
}

/// The system call in the registers. Windows code passes four arguments, the first in
/// `r10`; other code passes six, the first in `rdi`. A native number has 16 bits.
pub open spec fn request_of(f: SyscallFrame, mode: ExecMode) -> SyscallRequest {
    match mode {
        ExecMode::Windows => SyscallRequest {
            handler: mode,
            number: f.rax,
            arg0: f.r10,
            arg1: f.rdx,
            arg2: f.r8,
            arg3: f.r9,
            arg4: 0,
            arg5: 0,
        },
        ExecMode::Linux => SyscallRequest {
            handler: mode,
            number: f.rax,
            arg0: f.rdi,
            arg1: f.rsi,
            arg2: f.rdx,
            arg3: f.r10,
            arg4: f.r8,
            arg5: f.r9,
        },
        ExecMode::Native => SyscallRequest {
            handler: mode,
            number: (f.rax % 0x1_0000) as u64,
            arg0: f.rdi,
            arg1: f.rsi,
            arg2: f.rdx,
            arg3: f.r10,
            arg4: f.r8,
            arg5: f.r9,
        },
    }
}

/// The system call in the registers.
pub fn syscall_dispatcher(frame: &SyscallFrame, mode: ExecMode) -> (r: SyscallRequest)
    ensures
        r == request_of(*frame, mode),
{
    match mode {
        ExecMode::Windows => SyscallRequest {
            handler: mode,
            number: frame.rax,
            arg0: frame.r10,
            arg1: frame.rdx,
            arg2: frame.r8,
            arg3: frame.r9,
            arg4: 0,
            arg5: 0,
        },
        ExecMode::Linux => SyscallRequest {
            handler: mode,
            number: frame.rax,
            arg0: frame.rdi,
            arg1: frame.rsi,
            arg2: frame.rdx,
            arg3: frame.r10,
            arg4: frame.r8,
            arg5: frame.r9,
        },
        ExecMode::Native => SyscallRequest {
            handler: mode,
            number: frame.rax % 0x1_0000,
            arg0: frame.rdi,
            arg1: frame.rsi,
            arg2: frame.rdx,
            arg3: frame.r10,
            arg4: frame.r8,
            arg5: frame.r9,
        },
    }
}

/// Puts the result of a system call into the registers. No other register changes.
pub fn finish_syscall(frame: &mut SyscallFrame, result: i64)
    ensures
        *final(frame) == (SyscallFrame { rax: result as u64, ..*old(frame) }),
{
    frame.rax = #[verifier::truncate] (result as u64);
}

/// The mode that was set is the mode that a system call of the task is read in.
pub proof fn mode_can_be_read_back(tasks: Map<usize, Task>, id: usize, mode: ExecMode)
    requires
        tasks.contains_key(id),
    ensures
        mode_of(with_mode(tasks, id, mode)[id].exec_mode) == mode,
        forall|other: usize|
            other != id && tasks.contains_key(other) ==> #[trigger] with_mode(tasks, id, mode)[other]
                == tasks[other],
{
}

/// Native and Linux code pass arguments in the same registers.
pub proof fn native_arguments_are_those_of_linux(f: SyscallFrame)
    ensures
        request_of(f, ExecMode::Native).arg0 == request_of(f, ExecMode::Linux).arg0,
        request_of(f, ExecMode::Native).arg1 == request_of(f, ExecMode::Linux).arg1,
        request_of(f, ExecMode::Native).arg2 == request_of(f, ExecMode::Linux).arg2,
        request_of(f, ExecMode::Native).arg3 == request_of(f, ExecMode::Linux).arg3,
        request_of(f, ExecMode::Native).arg4 == request_of(f, ExecMode::Linux).arg4,
        request_of(f, ExecMode::Native).arg5 == request_of(f, ExecMode::Linux).arg5,
{
}

/// Where the arguments of a call stand: in the registers of the System V convention for
/// Linux and native programs, and in those of the Windows convention, with R10 in the place
/// of RCX, for Windows programs. The number is all of RAX, and its low 16 bits for native
/// programs.
pub proof fn arguments_follow_the_convention(f: SyscallFrame)
    ensures
        ({
            let l = request_of(f, ExecMode::Linux);
            let w = request_of(f, ExecMode::Windows);
            let n = request_of(f, ExecMode::Native);
            &&& l.handler is Linux && w.handler is Windows && n.handler is Native
            &&& l.number == f.rax && w.number == f.rax && n.number == f.rax % 0x1_0000
            &&& l.arg0 == f.rdi && l.arg1 == f.rsi && l.arg2 == f.rdx && l.arg3 == f.r10 && l.arg4
                == f.r8 && l.arg5 == f.r9
            &&& w.arg0 == f.r10 && w.arg1 == f.rdx && w.arg2 == f.r8 && w.arg3 == f.r9
            &&& w.arg4 == 0 && w.arg5 == 0
        }),
{
}

/// What the registers that set system calls up hold: calls are switched on and nothing else
/// of that register changes; the handler is the one that was given; traps, interrupts and the
/// direction flag are masked; and the selectors of kernel and user stand without privilege
/// bits in the upper two words, that of the user 16 below its own.
pub proof fn msrs_set_system_calls_up(efer: u64, kernel_cs: u16, user_cs: u16, handler: u64)
    requires
        user_cs >= 16,
    ensures
        ({
            let w = syscall_msrs(efer, kernel_cs, user_cs, handler);
            &&& w.len() == 4
            &&& w[0].register == 0xC000_0080 && w[0].value % 2 == 1 && w[0].value / 2 == efer / 2
            &&& w[1].register == 0xC000_0081
            &&& w[1].value % 0x1_0000_0000 == 0
            &&& (w[1].value / 0x1_0000_0000) % 0x1_0000 == kernel_cs - kernel_cs % 4
            &&& w[1].value / 0x1_0000_0000_0000 == user_cs - user_cs % 4 - 16
            &&& w[2].register == 0xC000_0082 && w[2].value == handler
            &&& w[3].register == 0xC000_0084 && w[3].value == 0x100 + 0x200 + 0x400
        }),
{
}

/// A program whose mode is not known runs as a Linux program.
pub proof fn unknown_modes_are_linux(number: u8)
    ensures
        mode_of(number) is Native <==> number == 0,
        mode_of(number) is Windows <==> number == 2,
        mode_of(number) is Linux <==> number == 1 || number > 2,
{
}

} // verus!
