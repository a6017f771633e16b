//! Completion queue entries.

pub mod cqe_flags;

use vstd::prelude::*;

verus! {

/// A completion queue entry.
#[derive(Clone, Copy, Debug, PartialEq, Eq, Structural)]
pub struct CompletionEntry {
    /// Token of the submission.
    pub user_data: u64,
    /// Bytes transferred, or a negative error code.
    pub result: i32,
    /// Flags.
    pub flags: u32,
}

impl CompletionEntry {
    /// An entry without content.
    pub fn zeroed() -> (e: Self)
        ensures
            e == (CompletionEntry { user_data: 0, result: 0, flags: 0 }),
    {
        CompletionEntry { user_data: 0, result: 0, flags: 0 }
    }

    /// The completion of an operation that transferred `bytes`.
    pub fn success(user_data: u64, bytes: i32) -> (e: Self)
        ensures
            e == (CompletionEntry { user_data, result: bytes, flags: 0 }),
    {
        CompletionEntry { user_data, result: bytes, flags: 0 }
    }

    /// The completion of an operation that failed with the negative code `errno`.
    pub fn error(user_data: u64, errno: i32) -> (e: Self)
        ensures
            e == (CompletionEntry { user_data, result: errno, flags: 0 }),
    {
        CompletionEntry { user_data, result: errno, flags: 0 }
    }

    /// Whether the operation succeeded.
    pub fn is_success(&self) -> (r: bool)
        ensures
            r == (self.result >= 0),
    {
        self.result >= 0
    }

    /// Whether the operation failed.
    pub fn is_error(&self) -> (r: bool)
        ensures
            r == (self.result < 0),
    {
        self.result < 0
    }

    /// The buffer identifier in the upper half of the flags, if they hold one.
    pub fn buffer_id(&self) -> (r: Option<u16>)
        ensures
            r == if self.flags % 2 == 1 {
                Some((self.flags / 0x1_0000) as u16)
            } else {
                None
            },
    {
        let f: u32 = self.flags;
        assert(f & 1 == f % 2) by (bit_vector);
        assert(f >> 16 == f / 0x1_0000) by (bit_vector);
        if f & cqe_flags::BUFFER != 0 {
            Some((f >> 16) as u16)
        } else {
            None
        }
    }

    /// Whether more completions follow for the same submission.
    pub fn has_more(&self) -> (r: bool)
        ensures
            r == (self.flags & cqe_flags::MORE != 0),
    {
        self.flags & cqe_flags::MORE != 0
    }
}

} // verus!
