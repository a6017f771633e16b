//! Shader formats that a device supports.

use vstd::prelude::*;

verus! {

/// SPIR-V.
pub const SPIRV: u32 = 0x1;

/// Intermediate representation of this subsystem.
pub const MHC_IR: u32 = 0x2;

/// Code of one GPU.
pub const NATIVE: u32 = 0x4;

} // verus!
