//! A partition as a storage device of its own.
//!
//! Block offsets within the partition are translated to those of the disk, and no
//! access leaves the partition.

use vstd::prelude::*;

verus! {

/// A partition of a disk.
#[derive(Clone, Copy, Debug, PartialEq, Eq, Structural)]
pub struct PartitionDevice {
    start_lba: u64,
    sector_count: u64,
    block_size: usize,
}

/// What a partition is.
#[verifier::ext_equal]
pub struct PartitionView {
    /// First block on the disk.
    pub start_lba: u64,
    /// Number of blocks.
    pub sector_count: u64,
    /// Bytes of a block.
    pub block_size: usize,
}

impl PartitionView {
    /// Blocks of a buffer.
    pub open spec fn blocks(self, len: int) -> int {
        len / self.block_size as int
    }

    /// The access stays within the partition, and the disk has such an offset.
    pub open spec fn allows(self, len: int, block_offset: int) -> bool {
        &&& block_offset + self.blocks(len) <= self.sector_count
        &&& self.start_lba + block_offset <= usize::MAX
    }
}

impl View for PartitionDevice {
    type V = PartitionView;

    closed spec fn view(&self) -> PartitionView {
        PartitionView {
            start_lba: self.start_lba,
            sector_count: self.sector_count,
            block_size: self.block_size,
        }
    }
}

impl PartitionDevice {
    /// Makes a partition of a disk with a block size.
    pub fn new(start_lba: u64, sector_count: u64, block_size: usize) -> (d: Self)
        ensures
            d@ == (PartitionView { start_lba, sector_count, block_size }),
    {
        PartitionDevice { start_lba, sector_count, block_size }
    }

    /// Bytes of a block.
    pub fn block_size(&self) -> (n: usize)
        ensures
            n == self@.block_size,
    {
        self.block_size
    }

    /// Offset on the disk of an access of `len` bytes, if it stays within the partition.
    fn translate(&self, len: usize, block_offset: usize) -> (r: Option<usize>)
        requires
            self@.block_size > 0,
        ensures
            r == if self@.allows(len as int, block_offset as int) {
                Some((self@.start_lba + block_offset) as usize)
            } else {
                None
            },
    {
        let blocks_requested: usize = len / self.block_size;
        let end: u128 = block_offset as u128 + blocks_requested as u128;
        let at: u128 = self.start_lba as u128 + block_offset as u128;
        if end > self.sector_count as u128 || at > usize::MAX as u128 {
            return None;
        }
        Some(at as usize)
    }

    /// Offset on the disk of a read into a buffer.
    pub fn read_blocks(&self, buffer_len: usize, block_offset: usize) -> (r: Result<
        usize,
        &'static str,
    >)
        requires
            self@.block_size > 0,
        ensures
            r is Ok <==> self@.allows(buffer_len as int, block_offset as int),
            r matches Ok(at) ==> at == self@.start_lba + block_offset,
            r matches Err(e) ==> e@ == "PartitionDevice: read beyond partition boundary"@,
    {
        match self.translate(buffer_len, block_offset) {
            Some(at) => Ok(at),
            None => Err("PartitionDevice: read beyond partition boundary"),
        }
    }

    /// Offset on the disk of a write from a buffer.
    pub fn write_blocks(&self, buffer_len: usize, block_offset: usize) -> (r: Result<
        usize,
        &'static str,
    >)
        requires
            self@.block_size > 0,
        ensures
            r is Ok <==> self@.allows(buffer_len as int, block_offset as int),
            r matches Ok(at) ==> at == self@.start_lba + block_offset,
            r matches Err(e) ==> e@ == "PartitionDevice: write beyond partition boundary"@,
    {
        match self.translate(buffer_len, block_offset) {
            Some(at) => Ok(at),
            None => Err("PartitionDevice: write beyond partition boundary"),
        }
    }

    /// Bytes of the partition.
    pub fn len(&self) -> (n: usize)
        requires
            self@.sector_count * self@.block_size <= usize::MAX,
            self@.sector_count <= usize::MAX,
        ensures
            n == self@.sector_count * self@.block_size,
    {
        assert(self.sector_count * self.block_size >= 0) by (nonlinear_arith);
        self.sector_count as usize * self.block_size
    }

    /// Blocks of the partition.
    pub fn size_in_blocks(&self) -> (n: usize)
        requires
            self@.sector_count <= usize::MAX,
        ensures
            n == self@.sector_count,
    {
        self.sector_count as usize
    }
}

/// An access that is allowed touches only blocks of the partition.
pub proof fn access_stays_inside(p: PartitionView, len: int, block_offset: int, block: int)
    requires
        p.allows(len, block_offset),
        block_offset >= 0,
        p.start_lba + block_offset <= block < p.start_lba + block_offset + p.blocks(len),
    ensures
        p.start_lba <= block < p.start_lba + p.sector_count,
{
}

/// An access is allowed exactly if its last whole block lies in the partition, and goes to
/// the block that many blocks after the start; nothing before the start can be reached.
pub proof fn access_is_bounded_by_the_partition(p: PartitionView, len: int, block_offset: int)
    requires
        p.block_size > 0,
        len >= 0,
        block_offset >= 0,
        p.start_lba + block_offset <= usize::MAX,
    ensures
        p.blocks(len) * p.block_size <= len < (p.blocks(len) + 1) * p.block_size,
        p.allows(len, block_offset) <==> block_offset + p.blocks(len) <= p.sector_count,
        block_offset > p.sector_count ==> !p.allows(len, block_offset),
{
    let b = p.block_size as int;
    let n = len / b;
    vstd::arithmetic::div_mod::lemma_fundamental_div_mod(len, b);
    assert(n * b <= len < (n + 1) * b && n >= 0) by (nonlinear_arith)
        requires
            len == b * n + len % b,
            0 <= len % b < b,
            len >= 0,
    ;
}

} // verus!
