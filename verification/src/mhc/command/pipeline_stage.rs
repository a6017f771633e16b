//! Pipeline stages.

use vstd::prelude::*;

verus! {

/// Before any work.
pub const TOP: u32 = 0x01;

/// Execution of compute shaders.
pub const COMPUTE: u32 = 0x02;

/// Transfers.
pub const TRANSFER: u32 = 0x04;

/// Access by the CPU.
pub const HOST: u32 = 0x08;

/// After all work.
pub const BOTTOM: u32 = 0x10;

/// All graphics stages.
pub const ALL_GRAPHICS: u32 = 0x20;

} // verus!
