//! Characteristics of a section.

use vstd::prelude::*;

verus! {

/// The section holds code.
pub const IMAGE_SCN_CNT_CODE: u32 = 0x0000_0020;

/// The section holds initialized data.
pub const IMAGE_SCN_CNT_INITIALIZED_DATA: u32 = 0x0000_0040;

/// The section holds uninitialized data.
pub const IMAGE_SCN_CNT_UNINITIALIZED_DATA: u32 = 0x0000_0080;

/// The section can be executed.
pub const IMAGE_SCN_MEM_EXECUTE: u32 = 0x2000_0000;

/// The section can be read.
pub const IMAGE_SCN_MEM_READ: u32 = 0x4000_0000;

/// The section can be written.
pub const IMAGE_SCN_MEM_WRITE: u32 = 0x8000_0000;

} // verus!
