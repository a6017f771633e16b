//! The first steps of the kernel.
//!
//! Booting is a fixed order of steps. Most of them may fail and end the boot; the
//! early printer may fail and does not.

use vstd::prelude::*;

verus! {

/// A step of the boot.
#[derive(Clone, Copy, Debug, PartialEq, Eq, Structural)]
pub enum BootStep {
    /// Turn interrupts off.
    DisableInterrupts,
    /// Log to the serial port.
    EarlyLogger,
    /// Handle exceptions.
    EarlyExceptions,
    /// Print to the screen, if the bootloader has set it up.
    EarlyPrinter,
    /// Manage memory.
    Memory,
    /// Keep state.
    StateStore,
    /// Manage crates.
    Modules,
    /// Parse the crate that is running.
    ParseNanoCore,
    /// Hand over to the captain.
    Captain,
}

/// What a step came to.
#[derive(Clone, Copy, Debug)]
pub enum StepOutcome {
    /// The step is done.
    Done,
    /// The step failed.
    Failed(&'static str),
}

/// Message of a captain that returns.
pub open spec fn captain_returned() -> Seq<char> {
    "captain::init returned unexpectedly... it should be an infinite loop (diverging function)"@
}

/// The step after another one. The early printer is passed over without a screen.
pub open spec fn following(s: BootStep, has_framebuffer: bool) -> Option<BootStep> {
    match s {
        BootStep::DisableInterrupts => Some(BootStep::EarlyLogger),
        BootStep::EarlyLogger => Some(BootStep::EarlyExceptions),
        BootStep::EarlyExceptions => if has_framebuffer {
            Some(BootStep::EarlyPrinter)
        } else {
            Some(BootStep::Memory)
        },
        BootStep::EarlyPrinter => Some(BootStep::Memory),
        BootStep::Memory => Some(BootStep::StateStore),
        BootStep::StateStore => Some(BootStep::Modules),
        BootStep::Modules => Some(BootStep::ParseNanoCore),
        BootStep::ParseNanoCore => Some(BootStep::Captain),
        BootStep::Captain => None,
    }
}

/// The next step of the boot, or why it ends. A failed early printer is ignored, and
/// the captain is not expected to return.
pub fn nano_core(step: BootStep, outcome: StepOutcome, has_framebuffer: bool) -> (r: Result<
    BootStep,
    &'static str,
>)
    ensures
        match outcome {
            StepOutcome::Failed(m) if step != BootStep::EarlyPrinter => r matches Err(e) && e@
                == m@,
            _ => match following(step, has_framebuffer) {
                Some(next) => r == Ok::<BootStep, &'static str>(next),
                None => r matches Err(e) && e@ == captain_returned(),
            },
        },
{
    if let StepOutcome::Failed(m) = outcome {
        if step != BootStep::EarlyPrinter {
            return Err(m);
        }
    }
    match step {
        BootStep::DisableInterrupts => Ok(BootStep::EarlyLogger),
        BootStep::EarlyLogger => Ok(BootStep::EarlyExceptions),
        BootStep::EarlyExceptions => if has_framebuffer {
            Ok(BootStep::EarlyPrinter)
        } else {
            Ok(BootStep::Memory)
        },
        BootStep::EarlyPrinter => Ok(BootStep::Memory),
        BootStep::Memory => Ok(BootStep::StateStore),
        BootStep::StateStore => Ok(BootStep::Modules),
        BootStep::Modules => Ok(BootStep::ParseNanoCore),
        BootStep::ParseNanoCore => Ok(BootStep::Captain),
        BootStep::Captain => Err(
            "captain::init returned unexpectedly... it should be an infinite loop (diverging function)",
        ),
    }
}

/// Addresses that the start of other CPUs needs.
#[derive(Clone, Copy, Debug, PartialEq, Eq, Structural)]
pub struct MulticoreBringupInfo {
    /// First address of the real-mode code.
    pub ap_start_realmode_begin: usize,
    /// Address behind the real-mode code.
    pub ap_start_realmode_end: usize,
    /// Address of the descriptor table.
    pub ap_gdt: usize,
}

/// What is known of the descriptor table of other CPUs.
#[derive(Clone, Copy, Debug, PartialEq, Eq, Structural)]
pub enum GdtLookup {
    /// There is no such section.
    Missing,
    /// Its address is not mapped.
    Unmapped,
    /// Its physical address is no virtual address.
    NotIdentity,
    /// Its address.
    Found(usize),
}

/// Gathers the addresses that the start of other CPUs needs, or says which one is
/// missing.
pub fn multicore_info(begin: Option<usize>, end: Option<usize>, gdt: GdtLookup) -> (r: Result<
    MulticoreBringupInfo,
    &'static str,
>)
    ensures
        r is Ok <==> begin is Some && end is Some && gdt is Found,
        r matches Ok(i) ==> begin == Some(i.ap_start_realmode_begin) && end == Some(
            i.ap_start_realmode_end,
        ) && gdt == GdtLookup::Found(i.ap_gdt),
        r matches Err(e) ==> e@ == if begin is None {
            "Missing/invalid symbol expected from assembly code \"ap_start_realmode\""@
        } else if end is None {
            "Missing/invalid symbol expected from assembly code \"ap_start_realmode_end\""@
        } else {
            match gdt {
                GdtLookup::Missing =>
                    "Missing/invalid symbol expected from data section \"GDT_AP\""@,
                GdtLookup::Unmapped => "Failed to translate \"GDT_AP\""@,
                _ => "\"GDT_AP\" physical address was not a valid identity virtual address"@,
            }
        },
{
    let ap_start_realmode_begin: usize = match begin {
        Some(v) => v,
        None => {
            return Err(
                "Missing/invalid symbol expected from assembly code \"ap_start_realmode\"",
            );
        },
    };
    let ap_start_realmode_end: usize = match end {
        Some(v) => v,
        None => {
            return Err(
                "Missing/invalid symbol expected from assembly code \"ap_start_realmode_end\"",
            );
        },
    };
    match gdt {
        GdtLookup::Missing => Err(
            "Missing/invalid symbol expected from data section \"GDT_AP\"",
        ),
        GdtLookup::Unmapped => Err("Failed to translate \"GDT_AP\""),
        GdtLookup::NotIdentity => Err(
            "\"GDT_AP\" physical address was not a valid identity virtual address",
        ),
        GdtLookup::Found(ap_gdt) => Ok(
            MulticoreBringupInfo { ap_start_realmode_begin, ap_start_realmode_end, ap_gdt },
        ),
    }
}

/// Position of a step in the order.
pub open spec fn position(s: BootStep) -> int {
    match s {
        BootStep::DisableInterrupts => 0,
        BootStep::EarlyLogger => 1,
        BootStep::EarlyExceptions => 2,
        BootStep::EarlyPrinter => 3,
        BootStep::Memory => 4,
        BootStep::StateStore => 5,
        BootStep::Modules => 6,
        BootStep::ParseNanoCore => 7,
        BootStep::Captain => 8,
    }
}

/// No step is taken twice, and none but the early printer is passed over.
pub proof fn steps_are_taken_in_order(s: BootStep, has_framebuffer: bool)
    requires
        s != BootStep::Captain,
    ensures
        following(s, has_framebuffer) is Some,
        position(following(s, has_framebuffer).unwrap()) == position(s) + 1 || (s
            == BootStep::EarlyExceptions && !has_framebuffer && position(
            following(s, has_framebuffer).unwrap(),
        ) == position(s) + 2),
{
}

} // verus!
