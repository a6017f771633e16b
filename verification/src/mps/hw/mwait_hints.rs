//! Hints that select an idle state.

use vstd::prelude::*;

verus! {

pub const C1: u32 = 0x00;

pub const C1E: u32 = 0x01;

pub const C3: u32 = 0x10;

pub const C6: u32 = 0x20;

pub const C7: u32 = 0x30;

} // verus!
