//! Flags with which an instance is set up.

use vstd::prelude::*;

verus! {

/// A kernel thread polls the submission queue.
pub const SQPOLL: u32 = 1;

/// The completion queue is four times as deep as the submission queue.
pub const CQ_4X: u32 = 2;

/// The instance shares the workers of an existing one.
pub const ATTACH_WQ: u32 = 4;

/// A full completion queue is not handled automatically.
pub const NO_CQ_OVERFLOW: u32 = 8;

/// Only one thread submits.
pub const SINGLE_ISSUER: u32 = 16;

} // verus!
