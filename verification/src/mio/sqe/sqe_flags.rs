//! Flags of a submission.

use vstd::prelude::*;

verus! {

/// The next submission depends on this one: it is cancelled if this one fails.
pub const IO_LINK: u8 = 1;

/// The next submission follows whatever the result of this one.
pub const IO_HARDLINK: u8 = 2;

/// All earlier submissions complete first.
pub const IO_DRAIN: u8 = 4;

/// The address is the index of a registered buffer.
pub const FIXED_FILE: u8 = 8;

/// A worker thread processes this submission.
pub const ASYNC: u8 = 16;

/// The kernel picks a buffer from the provided pool.
pub const BUFFER_SELECT: u8 = 32;

} // verus!
