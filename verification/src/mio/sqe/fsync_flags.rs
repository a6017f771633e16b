//! Flags of an fsync operation.

use vstd::prelude::*;

verus! {

/// Only the data is synchronised, not the metadata.
pub const DATASYNC: u32 = 1;

} // verus!
