//! Flags of a GPU memory allocation.

use vstd::prelude::*;

verus! {

/// The CPU can read and write the allocation.
pub const HOST_VISIBLE: u32 = 0x01;

/// Memory of the device is preferred.
pub const DEVICE_LOCAL: u32 = 0x02;

/// No explicit flush is needed between accesses of the CPU and of the GPU.
pub const HOST_COHERENT: u32 = 0x04;

/// A shader can read the buffer.
pub const SHADER_READ: u32 = 0x08;

/// A shader can write the buffer.
pub const SHADER_WRITE: u32 = 0x10;

/// The buffer can be the source of a transfer.
pub const TRANSFER_SRC: u32 = 0x20;

/// The buffer can be the destination of a transfer.
pub const TRANSFER_DST: u32 = 0x40;

} // verus!
