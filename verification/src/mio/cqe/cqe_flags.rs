//! Flags of a completion.

use vstd::prelude::*;

verus! {

/// The upper half of the flags holds a buffer identifier.
pub const BUFFER: u32 = 1;

/// More completions follow for the same submission.
pub const MORE: u32 = 2;

/// The socket has data.
pub const SOCK_NONEMPTY: u32 = 4;

/// This is a notification, not a completion.
pub const NOTIF: u32 = 8;

} // verus!
