//! Partition tables of storage devices.
//!
//! The first sector of a device holds a master boot record. If that is a protective
//! one, the partitions stand in a GUID partition table from the second sector on.

use crate::bytes;
use crate::decimal;
use crate::bytes::{read_le_u16, read_le_u32, read_le_u64};
use crate::decimal::numbered;
use vstd::prelude::*;

verus! {

/// Type of a partition.
#[derive(Clone, Copy, Debug)]
pub enum PartitionType {
    /// Type byte of a master boot record.
    MbrType(u8),
    /// Type GUID.
    GptType([u8; 16]),
}

/// A partition.
#[derive(Debug)]
pub struct PartitionInfo {
    /// Number in the order in which the partitions were found, from zero.
    pub index: usize,
    /// First sector.
    pub start_lba: u64,
    /// Number of sectors.
    pub size_sectors: u64,
    /// Type.
    pub partition_type: PartitionType,
    /// Name.
    pub name: String,
}

/// Signature of a master boot record.
pub const MBR_SIGNATURE: u16 = 0xAA55;

/// Type of a protective entry.
pub const MBR_TYPE_PROTECTIVE: u8 = 0xEE;

/// Size of a master boot record.
pub const MBR_SIZE: usize = 512;

/// Offsets of the entries of a master boot record.
pub const MBR_ENTRY_OFFSETS: [usize; 4] = [446, 462, 478, 494];

/// Size of the header of a GUID partition table.
pub const GPT_HEADER_SIZE: usize = 88;

/// Least size of an entry of a GUID partition table.
pub const GPT_MIN_ENTRY_SIZE: usize = 56;

/// Greatest part of an entry that holds anything.
pub const GPT_ENTRY_END: usize = 128;

/// Type byte of an entry of a master boot record.
pub open spec fn mbr_type(sector: Seq<u8>, slot: int) -> u8 {
    sector[MBR_ENTRY_OFFSETS@[slot] + 4]
}

/// The entry describes a partition: it is neither empty nor protective.
pub open spec fn mbr_used(sector: Seq<u8>, slot: int) -> bool {
    mbr_type(sector, slot) != 0 && mbr_type(sector, slot) != MBR_TYPE_PROTECTIVE
}

/// One of the first `n` entries is protective.
pub open spec fn mbr_protective(sector: Seq<u8>, n: int) -> bool {
    exists|k: int| 0 <= k < n && #[trigger] mbr_type(sector, k) == MBR_TYPE_PROTECTIVE
}

/// Entries among the first `n` that describe a partition, in order.
pub open spec fn mbr_slots(sector: Seq<u8>, n: int) -> Seq<int>
    decreases n,
{
    if n <= 0 {
        Seq::empty()
    } else if mbr_used(sector, n - 1) {
        mbr_slots(sector, n - 1).push(n - 1)
    } else {
        mbr_slots(sector, n - 1)
    }
}

/// The partition that an entry of a master boot record describes.
pub open spec fn is_mbr_partition(sector: Seq<u8>, slot: int, index: int, p: PartitionInfo) -> bool {
    let at = MBR_ENTRY_OFFSETS@[slot] as int;
    &&& p.index == index
    &&& p.start_lba == bytes::le_u32(sector, at + 8)
    &&& p.size_sectors == bytes::le_u32(sector, at + 12)
    &&& p.partition_type == PartitionType::MbrType(mbr_type(sector, slot))
    &&& p.name@ == "Partition "@ + decimal::decimal(index as nat)
}

/// `parts` are the partitions of the entries in `slots`, in order.
pub open spec fn are_mbr_partitions(
    sector: Seq<u8>,
    slots: Seq<int>,
    parts: Seq<PartitionInfo>,
) -> bool {
    &&& parts.len() == slots.len()
    &&& forall|i: int|
        0 <= i < parts.len() ==> is_mbr_partition(sector, slots[i], i, #[trigger] parts[i])
}

/// The sector holds a master boot record.
pub open spec fn has_mbr(sector: Seq<u8>) -> bool {
    sector.len() >= MBR_SIZE && bytes::le_u16(sector, 510) == MBR_SIGNATURE
}

/// What a sector says.
#[derive(Debug)]
pub enum MbrResult {
    /// The partitions stand in a GUID partition table.
    Protective,
    /// Partitions.
    Partitions(Vec<PartitionInfo>),
    /// No partitions.
    Empty,
}

/// Parses a master boot record.
pub fn parse_mbr(sector: &[u8]) -> (r: MbrResult)
    ensures
        match r {
            MbrResult::Protective => has_mbr(sector@) && mbr_protective(sector@, 4),
            MbrResult::Partitions(parts) => {
                &&& has_mbr(sector@)
                &&& !mbr_protective(sector@, 4)
                &&& parts@.len() > 0
                &&& are_mbr_partitions(sector@, mbr_slots(sector@, 4), parts@)
            },
            MbrResult::Empty => !has_mbr(sector@) || (!mbr_protective(sector@, 4) && mbr_slots(
                sector@,
                4,
            ).len() == 0),
        },
{
    if sector.len() < MBR_SIZE {
        return MbrResult::Empty;
    }
    if read_le_u16(sector, 510) != MBR_SIGNATURE {
        return MbrResult::Empty;
    }
    let mut partitions: Vec<PartitionInfo> = Vec::new();
    let mut has_protective: bool = false;
    let mut idx: usize = 0;
    while idx < 4
        invariant
            idx <= 4,
            sector@.len() >= MBR_SIZE,
            has_protective == mbr_protective(sector@, idx as int),
            partitions@.len() <= idx,
            are_mbr_partitions(sector@, mbr_slots(sector@, idx as int), partitions@),
        decreases 4 - idx,
    {
        let ghost before = partitions@;
        let offset: usize = MBR_ENTRY_OFFSETS[idx];
        let ptype: u8 = sector[offset + 4];
        assert(ptype == mbr_type(sector@, idx as int));
        if ptype == MBR_TYPE_PROTECTIVE {
            has_protective = true;
        } else if ptype != 0x00 {
            let lba_start: u64 = read_le_u32(sector, offset + 8) as u64;
            let sector_count: u64 = read_le_u32(sector, offset + 12) as u64;
            let index: usize = partitions.len();
            partitions.push(
                PartitionInfo {
                    index,
                    start_lba: lba_start,
                    size_sectors: sector_count,
                    partition_type: PartitionType::MbrType(ptype),
                    name: numbered("Partition ", index as u64),
                },
            );
        }
        proof {
            assert forall|i: int| 0 <= i < partitions@.len() implies is_mbr_partition(
                sector@,
                mbr_slots(sector@, idx + 1)[i],
                i,
                #[trigger] partitions@[i],
            ) by {
                if i < before.len() {
                    assert(partitions@[i] == before[i]);
                }
            }
        }
        idx += 1;
    }
    if has_protective {
        MbrResult::Protective
    } else if partitions.len() == 0 {
        MbrResult::Empty
    } else {
        MbrResult::Partitions(partitions)
    }
}

/// Where the entries of a GUID partition table stand.
#[derive(Clone, Copy, Debug, PartialEq, Eq, Structural)]
pub struct GptHeader {
    /// First sector of the entries.
    pub entries_lba: u64,
    /// Number of entries.
    pub num_entries: u32,
    /// Size of an entry.
    pub entry_size: u32,
}

/// The sector begins with the signature `EFI PART`.
pub open spec fn has_gpt_signature(s: Seq<u8>) -> bool {
    s[0] == 0x45 && s[1] == 0x46 && s[2] == 0x49 && s[3] == 0x20 && s[4] == 0x50 && s[5] == 0x41
        && s[6] == 0x52 && s[7] == 0x54
}

/// The header in a sector.
pub open spec fn header_in(s: Seq<u8>) -> GptHeader {
    GptHeader {
        entries_lba: bytes::le_u64(s, 72),
        num_entries: bytes::le_u32(s, 80),
        entry_size: bytes::le_u32(s, 84),
    }
}

/// Bytes of all entries.
pub open spec fn entries_bytes(h: GptHeader) -> int {
    h.num_entries * h.entry_size
}

/// Sectors that hold all entries.
pub open spec fn entries_sectors(h: GptHeader, block_size: usize) -> int {
    (entries_bytes(h) + block_size - 1) / block_size as int
}

/// The header describes entries that can be read: there are some, each holds its
/// fields, and their sectors can be counted.
pub open spec fn is_readable(h: GptHeader, block_size: usize) -> bool {
    &&& h.num_entries > 0
    &&& h.entry_size >= GPT_MIN_ENTRY_SIZE
    &&& entries_bytes(h) + block_size <= usize::MAX
}

/// Parses the header of a GUID partition table and counts the sectors of the entries.
pub fn parse_gpt_header(sector: &[u8], block_size: usize) -> (r: Option<(GptHeader, usize)>)
    requires
        sector@.len() >= GPT_HEADER_SIZE,
        block_size > 0,
    ensures
        r is Some <==> has_gpt_signature(sector@) && is_readable(header_in(sector@), block_size),
        r matches Some(h) ==> h.0 == header_in(sector@) && h.1 == entries_sectors(h.0, block_size),
{
    if !(sector[0] == 0x45 && sector[1] == 0x46 && sector[2] == 0x49 && sector[3] == 0x20
        && sector[4] == 0x50 && sector[5] == 0x41 && sector[6] == 0x52 && sector[7] == 0x54) {
        return None;
    }
    let h = GptHeader {
        entries_lba: read_le_u64(sector, 72),
        num_entries: read_le_u32(sector, 80),
        entry_size: read_le_u32(sector, 84),
    };
    if h.num_entries == 0 || (h.entry_size as usize) < GPT_MIN_ENTRY_SIZE {
        return None;
    }
    assert(0 <= h.num_entries * h.entry_size <= 0xffff_ffff * 0xffff_ffff) by (nonlinear_arith)
        requires
            0 <= h.num_entries <= 0xffff_ffff,
            0 <= h.entry_size <= 0xffff_ffff,
    ;
    let total: u128 = h.num_entries as u128 * h.entry_size as u128;
    if total + block_size as u128 > usize::MAX as u128 {
        return None;
    }
    let sectors_needed: usize = (total as usize + block_size - 1) / block_size;
    Some((h, sectors_needed))
}

/// An entry of all zeros in its type is not used.
pub open spec fn gpt_used(data: Seq<u8>, at: int) -> bool {
    exists|k: int| 0 <= k < 16 && #[trigger] data[at + k] != 0
}

/// Number of entries that the data holds.
pub open spec fn complete_entries(data: Seq<u8>, h: GptHeader) -> int {
    if entries_bytes(h) <= data.len() {
        h.num_entries as int
    } else {
        data.len() as int / h.entry_size as int
    }
}

/// Used entries among the first `n`, in order.
pub open spec fn gpt_slots(data: Seq<u8>, size: int, n: int) -> Seq<int>
    decreases n,
{
    if n <= 0 {
        Seq::empty()
    } else if gpt_used(data, (n - 1) * size) {
        gpt_slots(data, size, n - 1).push(n - 1)
    } else {
        gpt_slots(data, size, n - 1)
    }
}

/// The 16-bit units of a name, up to the first zero.
pub open spec fn name_units(raw: Seq<u8>, from: int) -> Seq<u16>
    decreases raw.len() - from,
{
    if from < 0 || from + 2 > raw.len() || bytes::le_u16(raw, from) == 0 {
        Seq::empty()
    } else {
        seq![bytes::le_u16(raw, from)] + name_units(raw, from + 2)
    }
}

/// The unit is the first half of a pair.
pub open spec fn is_high_surrogate(u: u16) -> bool {
    0xD800 <= u < 0xDC00
}

/// The unit is the second half of a pair.
pub open spec fn is_low_surrogate(u: u16) -> bool {
    0xDC00 <= u < 0xE000
}

/// The text of 16-bit units. A half without its other half stands for the replacement
/// character.
pub open spec fn utf16_text(units: Seq<u16>) -> Seq<char>
    decreases units.len(),
{
    if units.len() == 0 {
        Seq::empty()
    } else if is_high_surrogate(units[0]) && units.len() > 1 && is_low_surrogate(units[1]) {
        seq![(0x10000 + (units[0] - 0xD800) * 0x400 + (units[1] - 0xDC00)) as char] + utf16_text(
            units.skip(2),
        )
    } else if is_high_surrogate(units[0]) || is_low_surrogate(units[0]) {
        seq![0xFFFD as char] + utf16_text(units.skip(1))
    } else {
        seq![units[0] as char] + utf16_text(units.skip(1))
    }
}

/// Calls `String::from_utf16_lossy`, which decodes UTF-16 and puts the replacement
/// character in place of invalid data: each half of a surrogate pair that stands alone.
#[verifier::external_body]
fn decode_utf16(units: &Vec<u16>) -> (r: String)
    ensures
        r@ == utf16_text(units@),
{
    String::from_utf16_lossy(units)
}

/// Decodes the name of an entry. It ends at the first zero.
pub fn parse_gpt_name(raw: &[u8]) -> (r: String)
    ensures
        r@ == utf16_text(name_units(raw@, 0)),
{
    let n: usize = raw.len();
    let mut units: Vec<u16> = Vec::new();
    let mut at: usize = 0;
    let mut ended: bool = false;
    assert(units@ + name_units(raw@, 0) =~= name_units(raw@, 0));
    while !ended && at < n && n - at >= 2
        invariant
            n == raw@.len(),
            at <= n,
            ended ==> units@ == name_units(raw@, 0),
            !ended ==> units@ + name_units(raw@, at as int) == name_units(raw@, 0),
        decreases
            n - at,
            if ended {
                0int
            } else {
                1
            },
    {
        let c: u16 = read_le_u16(raw, at);
        if c == 0 {
            ended = true;
            assert(units@ + name_units(raw@, at as int) =~= units@);
        } else {
            let ghost before = units@;
            units.push(c);
            assert(before + name_units(raw@, at as int) =~= units@ + name_units(raw@, at + 2));
            at += 2;
        }
    }
    if !ended {
        assert(name_units(raw@, at as int) =~= Seq::empty());
        assert(units@ =~= name_units(raw@, 0));
    }
    decode_utf16(&units)
}

/// Number of sectors from the first to the last.
pub open spec fn sector_span(first: u64, last: u64) -> u64 {
    if last < first || last - first == u64::MAX {
        0
    } else {
        (last - first + 1) as u64
    }
}

/// End of the name field of an entry.
pub open spec fn name_end(size: int) -> int {
    if size < GPT_ENTRY_END {
        size
    } else {
        GPT_ENTRY_END as int
    }
}

/// The partition that an entry of a GUID partition table describes.
pub open spec fn is_gpt_partition(
    data: Seq<u8>,
    size: int,
    slot: int,
    index: int,
    p: PartitionInfo,
) -> bool {
    let at = slot * size;
    &&& p.index == index
    &&& p.start_lba == bytes::le_u64(data, at + 32)
    &&& p.size_sectors == sector_span(bytes::le_u64(data, at + 32), bytes::le_u64(data, at + 40))
    &&& p.partition_type matches PartitionType::GptType(g) && g@ == data.subrange(at, at + 16)
    &&& p.name@ == utf16_text(name_units(data.subrange(at + 56, at + name_end(size)), 0))
}

/// `parts` are the partitions of the entries in `slots`, in order.
pub open spec fn are_gpt_partitions(
    data: Seq<u8>,
    size: int,
    slots: Seq<int>,
    parts: Seq<PartitionInfo>,
) -> bool {
    &&& parts.len() == slots.len()
    &&& forall|i: int|
        0 <= i < parts.len() ==> is_gpt_partition(data, size, slots[i], i, #[trigger] parts[i])
}

/// The type GUID of an entry.
fn read_guid(data: &[u8], at: usize) -> (r: [u8; 16])
    requires
        at + 16 <= data@.len(),
    ensures
        r@ == data@.subrange(at as int, at + 16),
{
    let mut g: [u8; 16] = [0;16];
    let n: usize = data.len();
    let mut k: usize = 0;
    while k < 16
        invariant
            k <= 16,
            n == data@.len(),
            at + 16 <= n,
            forall|j: int| 0 <= j < k ==> #[trigger] g@[j] == data@[at + j],
        decreases 16 - k,
    {
        g[k] = data[at + k];
        k += 1;
    }
    assert(g@ =~= data@.subrange(at as int, at + 16));
    g
}

/// Whether an entry is used.
fn is_used(data: &[u8], at: usize) -> (r: bool)
    requires
        at + 16 <= data@.len(),
    ensures
        r == gpt_used(data@, at as int),
{
    let n: usize = data.len();
    let mut k: usize = 0;
    while k < 16
        invariant
            k <= 16,
            n == data@.len(),
            at + 16 <= n,
            forall|j: int| 0 <= j < k ==> #[trigger] data@[at + j] == 0,
        decreases 16 - k,
    {
        if data[at + k] != 0 {
            assert(data@[at + k] != 0);
            return true;
        }
        k += 1;
    }
    false
}

/// Parses one used entry.
fn parse_gpt_entry(data: &[u8], size: usize, slot: usize, index: usize) -> (p: PartitionInfo)
    requires
        size >= GPT_MIN_ENTRY_SIZE,
        slot * size + size <= data@.len(),
    ensures
        is_gpt_partition(data@, size as int, slot as int, index as int, p),
{
    let n: usize = data.len();
    assert(slot * size >= 0) by (nonlinear_arith);
    let base: usize = slot * size;
    assert(base + size <= n);
    let first_lba: u64 = read_le_u64(data, base + 32);
    let last_lba: u64 = read_le_u64(data, base + 40);
    let end: usize = if size < GPT_ENTRY_END {
        size
    } else {
        GPT_ENTRY_END
    };
    let raw = vstd::slice::slice_subrange(data, base + 56, base + end);
    let name = parse_gpt_name(raw);
    let size_sectors: u64 = if last_lba >= first_lba && last_lba - first_lba < u64::MAX {
        last_lba - first_lba + 1
    } else {
        0
    };
    PartitionInfo {
        index,
        start_lba: first_lba,
        size_sectors,
        partition_type: PartitionType::GptType(read_guid(data, base)),
        name,
    }
}

/// Parses the entries of a GUID partition table.
pub fn parse_gpt_entries(data: &[u8], h: &GptHeader) -> (r: Vec<PartitionInfo>)
    requires
        h.entry_size >= GPT_MIN_ENTRY_SIZE,
    ensures
        are_gpt_partitions(
            data@,
            h.entry_size as int,
            gpt_slots(data@, h.entry_size as int, complete_entries(data@, *h)),
            r@,
        ),
{
    let size: usize = h.entry_size as usize;
    let fit: usize = data.len() / size;
    let n: usize = if (h.num_entries as usize) < fit {
        h.num_entries as usize
    } else {
        fit
    };
    proof {
        lemma_complete(data@, *h, fit as int);
    }
    let mut partitions: Vec<PartitionInfo> = Vec::new();
    let mut i: usize = 0;
    while i < n
        invariant
            i <= n <= fit,
            size == h.entry_size,
            size >= GPT_MIN_ENTRY_SIZE,
            fit == data@.len() / size as nat,
            partitions@.len() <= i,
            are_gpt_partitions(
                data@,
                size as int,
                gpt_slots(data@, size as int, i as int),
                partitions@,
            ),
        decreases n - i,
    {
        let ghost before = partitions@;
        assert(i * size + size <= data@.len()) by (nonlinear_arith)
            requires
                i + 1 <= fit,
                fit == data@.len() / size as nat,
                size > 0,
        ;
        assert(i * size >= 0) by (nonlinear_arith);
        assert(data.len() == data@.len());
        if is_used(data, i * size) {
            let p = parse_gpt_entry(data, size, i, partitions.len());
            partitions.push(p);
        }
        proof {
            assert((i + 1 - 1) * size == i * size);
            let slots = gpt_slots(data@, size as int, i + 1);
            assert forall|k: int| 0 <= k < partitions@.len() implies is_gpt_partition(
                data@,
                size as int,
                slots[k],
                k,
                #[trigger] partitions@[k],
            ) by {
                if k < before.len() {
                    assert(partitions@[k] == before[k]);
                }
            }
        }
        i += 1;
    }
    partitions
}

/// The entries that fit are those that the data holds.
proof fn lemma_complete(data: Seq<u8>, h: GptHeader, fit: int)
    requires
        h.entry_size > 0,
        fit == data.len() as int / h.entry_size as int,
    ensures
        complete_entries(data, h) == if h.num_entries < fit {
            h.num_entries as int
        } else {
            fit
        },
{
    let n = h.num_entries as int;
    let s = h.entry_size as int;
    let d = data.len() as int;
    if n * s <= d {
        assert(n <= d / s) by (nonlinear_arith)
            requires
                n * s <= d,
                s > 0,
        ;
    } else {
        assert(d / s <= n) by (nonlinear_arith)
            requires
                n * s > d,
                s > 0,
        ;
    }
}

/// What to read next, or the partitions.
#[derive(Debug)]
pub enum Detection {
    /// Read the sector after the first one.
    ReadHeader,
    /// Read so many sectors from a sector on.
    ReadEntries(GptHeader, usize),
    /// The partitions.
    Done(Vec<PartitionInfo>),
}

/// Begins to detect partitions with the first sector, or without it if it cannot be
/// read.
pub fn detect_partitions(sector0: Option<Vec<u8>>) -> (r: Detection)
    ensures
        match sector0 {
            None => r matches Detection::Done(parts) && parts@.len() == 0,
            Some(s) => if has_mbr(s@) && mbr_protective(s@, 4) {
                r is ReadHeader
            } else if has_mbr(s@) {
                r matches Detection::Done(parts) && are_mbr_partitions(
                    s@,
                    mbr_slots(s@, 4),
                    parts@,
                )
            } else {
                r matches Detection::Done(parts) && parts@.len() == 0
            },
        },
{
    match sector0 {
        None => Detection::Done(Vec::new()),
        Some(s) => match parse_mbr(s.as_slice()) {
            MbrResult::Protective => Detection::ReadHeader,
            MbrResult::Partitions(parts) => Detection::Done(parts),
            MbrResult::Empty => Detection::Done(Vec::new()),
        },
    }
}

/// Goes on with the sector after the first one, or without it.
pub fn detect_gpt(sector1: Option<Vec<u8>>, block_size: usize) -> (r: Detection)
    requires
        block_size > 0,
        sector1 matches Some(s) ==> s@.len() >= GPT_HEADER_SIZE,
    ensures
        match sector1 {
            Some(s) => if has_gpt_signature(s@) && is_readable(header_in(s@), block_size) {
                r == Detection::ReadEntries(
                    header_in(s@),
                    entries_sectors(header_in(s@), block_size) as usize,
                )
            } else {
                r matches Detection::Done(parts) && parts@.len() == 0
            },
            None => r matches Detection::Done(parts) && parts@.len() == 0,
        },
{
    match sector1 {
        None => Detection::Done(Vec::new()),
        Some(s) => match parse_gpt_header(s.as_slice(), block_size) {
            Some((h, sectors)) => Detection::ReadEntries(h, sectors),
            None => Detection::Done(Vec::new()),
        },
    }
}

/// Ends with the entries, or without them.
pub fn detect_entries(entries: Option<Vec<u8>>, h: &GptHeader) -> (r: Vec<PartitionInfo>)
    requires
        h.entry_size >= GPT_MIN_ENTRY_SIZE,
    ensures
        match entries {
            Some(data) => are_gpt_partitions(
                data@,
                h.entry_size as int,
                gpt_slots(data@, h.entry_size as int, complete_entries(data@, *h)),
                r@,
            ),
            None => r@.len() == 0,
        },
{
    match entries {
        None => Vec::new(),
        Some(data) => parse_gpt_entries(data.as_slice(), h),
    }
}

/// The sectors that are read hold all entries.
pub proof fn sectors_hold_all_entries(h: GptHeader, block_size: usize)
    requires
        block_size > 0,
    ensures
        entries_sectors(h, block_size) * block_size >= entries_bytes(h),
{
    let e = entries_bytes(h);
    let b = block_size as int;
    assert((e + b - 1) / b * b >= e) by (nonlinear_arith)
        requires
            b > 0,
    ;
}

/// Partitions of a master boot record number at most four and are numbered in order.
pub proof fn at_most_four_mbr_partitions(sector: Seq<u8>, n: int)
    requires
        0 <= n <= 4,
    ensures
        mbr_slots(sector, n).len() <= n,
        forall|i: int|
            0 <= i < mbr_slots(sector, n).len() ==> 0 <= #[trigger] mbr_slots(sector, n)[i] < n
                && mbr_used(sector, mbr_slots(sector, n)[i]),
    decreases n,
{
    if n > 0 {
        at_most_four_mbr_partitions(sector, n - 1);
        let rest = mbr_slots(sector, n - 1);
        let all = mbr_slots(sector, n);
        assert forall|i: int| 0 <= i < all.len() implies 0 <= #[trigger] all[i] < n && mbr_used(
            sector,
            all[i],
        ) by {
            if i < rest.len() {
                assert(all[i] == rest[i]);
            }
        }
    }
}

/// The boot sector has a partition table if it ends in 0x55 and 0xAA; its four entries stand
/// from byte 446 on in steps of 16. An entry is a partition unless its type is 0 or that of
/// the protective one.
pub proof fn boot_sector_holds_four_entries(sector: Seq<u8>, slot: int)
    requires
        sector.len() >= 512,
        0 <= slot < 4,
    ensures
        has_mbr(sector) <==> sector[510] == 0x55 && sector[511] == 0xAA,
        mbr_type(sector, slot) == sector[446 + 16 * slot + 4],
        mbr_used(sector, slot) <==> sector[446 + 16 * slot + 4] != 0 && sector[446 + 16 * slot + 4]
            != 0xEE,
        sector[446 + 16 * slot + 4] == 0xEE ==> mbr_protective(sector, 4),
        mbr_protective(sector, 4) ==> sector[450] == 0xEE || sector[466] == 0xEE || sector[482]
            == 0xEE || sector[498] == 0xEE,
{
    bytes::integers_are_little_endian(sector, 510);
    assert(mbr_type(sector, slot) == sector[446 + 16 * slot + 4]);
}

/// Every used entry of the boot sector is a partition of its own, in order, with the start
/// and the size that the entry names.
pub proof fn used_boot_entries_are_partitions(
    sector: Seq<u8>,
    parts: Seq<PartitionInfo>,
    slot: int,
)
    requires
        sector.len() >= 512,
        0 <= slot < 4,
        mbr_used(sector, slot),
        are_mbr_partitions(sector, mbr_slots(sector, 4), parts),
    ensures
        exists|i: int|
            0 <= i < parts.len() && is_mbr_partition(sector, slot, i, #[trigger] parts[i]),
        forall|i: int|
            0 <= i < parts.len() && is_mbr_partition(sector, slot, i, #[trigger] parts[i]) ==> {
                let at = 446 + 16 * slot;
                &&& parts[i].start_lba == sector[at + 8] + sector[at + 9] * 0x100 + sector[at + 10]
                    * 0x1_0000 + sector[at + 11] * 0x100_0000
                &&& parts[i].size_sectors == sector[at + 12] + sector[at + 13] * 0x100 + sector[at
                    + 14] * 0x1_0000 + sector[at + 15] * 0x100_0000
                &&& parts[i].partition_type == PartitionType::MbrType(sector[at + 4])
                &&& parts[i].index == i
            },
{
    let slots = mbr_slots(sector, 4);
    lemma_mbr_slot_listed(sector, 4, slot);
    let i = choose|i: int| 0 <= i < slots.len() && #[trigger] slots[i] == slot;
    assert(is_mbr_partition(sector, slot, i, parts[i]));
}

proof fn lemma_mbr_slot_listed(sector: Seq<u8>, n: int, slot: int)
    requires
        0 <= slot < n,
        mbr_used(sector, slot),
    ensures
        exists|i: int|
            0 <= i < mbr_slots(sector, n).len() && #[trigger] mbr_slots(sector, n)[i] == slot,
    decreases n,
{
    let all = mbr_slots(sector, n);
    if slot == n - 1 {
        assert(all[all.len() - 1] == slot);
    } else {
        let rest = mbr_slots(sector, n - 1);
        lemma_mbr_slot_listed(sector, n - 1, slot);
        let i = choose|i: int| 0 <= i < rest.len() && #[trigger] rest[i] == slot;
        assert(all[i] == slot);
    }
}

/// Partitions of the boot sector are numbered and listed in the order of their entries.
pub proof fn boot_partitions_keep_their_order(sector: Seq<u8>, n: int, i: int, j: int)
    requires
        0 <= n <= 4,
        0 <= i < j < mbr_slots(sector, n).len(),
    ensures
        mbr_slots(sector, n)[i] < mbr_slots(sector, n)[j],
    decreases n,
{
    if n > 0 {
        let rest = mbr_slots(sector, n - 1);
        at_most_four_mbr_partitions(sector, n - 1);
        if j < rest.len() {
            boot_partitions_keep_their_order(sector, n - 1, i, j);
        }
    }
}

/// Where the header of a GUID partition table stands and what it says: it begins with the
/// text EFI PART, and has the block of the entries at byte 72, their number at 80 and the size
/// of each at 84. It is read only if there are entries, of at least 56 bytes each.
pub proof fn gpt_header_fields_stand_in_place(s: Seq<u8>, block_size: usize)
    requires
        s.len() >= 88,
    ensures
        has_gpt_signature(s) <==> s.take(8) == seq![0x45u8, 0x46, 0x49, 0x20, 0x50, 0x41, 0x52, 0x54],
        header_in(s).entries_lba % 0x100 == s[72],
        header_in(s).entries_lba % 0x1_0000_0000 == s[72] + s[73] * 0x100 + s[74] * 0x1_0000 + s[75]
            * 0x100_0000,
        header_in(s).entries_lba / 0x1_0000_0000 == s[76] + s[77] * 0x100 + s[78] * 0x1_0000 + s[79]
            * 0x100_0000,
        header_in(s).num_entries == s[80] + s[81] * 0x100 + s[82] * 0x1_0000 + s[83] * 0x100_0000,
        header_in(s).entry_size == s[84] + s[85] * 0x100 + s[86] * 0x1_0000 + s[87] * 0x100_0000,
        is_readable(header_in(s), block_size) ==> header_in(s).num_entries > 0 && header_in(
            s,
        ).entry_size >= 56,
        header_in(s).num_entries > 0 && header_in(s).entry_size >= 56 && header_in(s).num_entries
            * header_in(s).entry_size + block_size <= usize::MAX ==> is_readable(
            header_in(s),
            block_size,
        ),
{
    let sig = seq![0x45u8, 0x46, 0x49, 0x20, 0x50, 0x41, 0x52, 0x54];
    if has_gpt_signature(s) {
        assert(s.take(8) =~= sig);
    }
    if s.take(8) == sig {
        assert forall|k: int| 0 <= k < 8 implies #[trigger] s[k] == sig[k] by {
            assert(s.take(8)[k] == sig[k]);
        }
        assert(s[0] == sig[0] && s[1] == sig[1] && s[2] == sig[2] && s[3] == sig[3] && s[4] == sig[4]
            && s[5] == sig[5] && s[6] == sig[6] && s[7] == sig[7]);
    }
}

/// As few blocks are read as hold all the entries.
pub proof fn no_block_is_read_in_vain(h: GptHeader, block_size: usize)
    requires
        block_size > 0,
    ensures
        entries_sectors(h, block_size) * block_size >= h.num_entries * h.entry_size,
        (entries_sectors(h, block_size) - 1) * block_size < h.num_entries * h.entry_size
            || entries_sectors(h, block_size) == 0,
{
    sectors_hold_all_entries(h, block_size);
    let b = block_size as int;
    let t = h.num_entries * h.entry_size;
    assert(t >= 0) by (nonlinear_arith)
        requires
            t == h.num_entries * h.entry_size,
            h.num_entries >= 0,
            h.entry_size >= 0,
    ;
    let x = t + b - 1;
    let n = x / b;
    vstd::arithmetic::div_mod::lemma_fundamental_div_mod(x, b);
    assert((n - 1) * b < t) by (nonlinear_arith)
        requires
            x == b * n + x % b,
            0 <= x % b < b,
            x == t + b - 1,
    ;
}

/// A partition reaches from its first block to its last one, both of which belong to it; an
/// entry whose last block comes first has no blocks.
pub proof fn gpt_partition_spans_first_to_last(first: u64, last: u64)
    ensures
        last < first ==> sector_span(first, last) == 0,
        first <= last && last - first < u64::MAX ==> first + sector_span(first, last) == last + 1,
{
}

/// An entry is used unless its type is all zeros, and every used entry among the complete
/// ones is a partition of its own, in order.
pub proof fn used_gpt_entries_are_partitions(
    data: Seq<u8>,
    size: int,
    n: int,
    parts: Seq<PartitionInfo>,
    slot: int,
)
    requires
        0 <= slot < n,
        exists|k: int| 0 <= k < 16 && #[trigger] data[slot * size + k] != 0,
        are_gpt_partitions(data, size, gpt_slots(data, size, n), parts),
    ensures
        exists|i: int|
            0 <= i < parts.len() && is_gpt_partition(data, size, slot, i, #[trigger] parts[i]),
{
    let slots = gpt_slots(data, size, n);
    lemma_gpt_slot_listed(data, size, n, slot);
    let i = choose|i: int| 0 <= i < slots.len() && #[trigger] slots[i] == slot;
    assert(is_gpt_partition(data, size, slot, i, parts[i]));
}

proof fn lemma_gpt_slot_listed(data: Seq<u8>, size: int, n: int, slot: int)
    requires
        0 <= slot < n,
        gpt_used(data, slot * size),
    ensures
        exists|i: int|
            0 <= i < gpt_slots(data, size, n).len() && #[trigger] gpt_slots(data, size, n)[i]
                == slot,
    decreases n,
{
    let all = gpt_slots(data, size, n);
    if slot == n - 1 {
        assert(all[all.len() - 1] == slot);
    } else {
        let rest = gpt_slots(data, size, n - 1);
        lemma_gpt_slot_listed(data, size, n - 1, slot);
        let i = choose|i: int| 0 <= i < rest.len() && #[trigger] rest[i] == slot;
        assert(all[i] == slot);
    }
}

/// No entry is a partition whose type is all zeros.
pub proof fn empty_gpt_entries_are_skipped(data: Seq<u8>, size: int, n: int, i: int)
    requires
        0 <= i < gpt_slots(data, size, n).len(),
    ensures
        0 <= gpt_slots(data, size, n)[i] < n,
        exists|k: int| 0 <= k < 16 && #[trigger] data[gpt_slots(data, size, n)[i] * size + k] != 0,
        i > 0 ==> gpt_slots(data, size, n)[i - 1] < gpt_slots(data, size, n)[i],
    decreases n,
{
    if n > 0 {
        let rest = gpt_slots(data, size, n - 1);
        if i < rest.len() {
            empty_gpt_entries_are_skipped(data, size, n - 1, i);
        } else if rest.len() > 0 {
            empty_gpt_entries_are_skipped(data, size, n - 1, rest.len() - 1);
        }
    }
}

/// What a partition takes from its entry: its type from the first 16 bytes, its first and
/// last block from the bytes at 32 and 40, and its name from byte 56 on.
pub proof fn gpt_partition_follows_its_entry(
    data: Seq<u8>,
    size: int,
    slot: int,
    index: int,
    p: PartitionInfo,
    first: int,
    last: int,
)
    requires
        is_gpt_partition(data, size, slot, index, p),
        size >= 56,
        slot >= 0,
        slot * size + size <= data.len(),
        first == bytes::le_u64(data, slot * size + 32),
        last == bytes::le_u64(data, slot * size + 40),
        first <= last,
        last - first < u64::MAX,
    ensures
        p.start_lba == first,
        p.start_lba + p.size_sectors - 1 == last,
        p.index == index,
        p.partition_type matches PartitionType::GptType(g) && forall|k: int|
            0 <= k < 16 ==> #[trigger] g@[k] == data[slot * size + k],
{
    assert(slot * size >= 0) by (nonlinear_arith)
        requires
            slot >= 0,
            size >= 0,
    ;
}

/// Only entries that were read whole count.
pub proof fn only_whole_entries_count(data: Seq<u8>, h: GptHeader)
    requires
        h.entry_size > 0,
    ensures
        0 <= complete_entries(data, h) <= h.num_entries,
        complete_entries(data, h) * h.entry_size <= data.len(),
        complete_entries(data, h) < h.num_entries ==> (complete_entries(data, h) + 1) * h.entry_size
            > data.len(),
{
    let s = h.entry_size as int;
    let d = data.len() as int;
    let n = h.num_entries as int;
    let q = d / s;
    vstd::arithmetic::div_mod::lemma_fundamental_div_mod(d, s);
    assert(q * s <= d < (q + 1) * s && q >= 0) by (nonlinear_arith)
        requires
            d == s * q + d % s,
            0 <= d % s < s,
            d >= 0,
    ;
    if n * s > d {
        assert(q <= n) by (nonlinear_arith)
            requires
                n * s > d,
                q * s <= d,
                s > 0,
        ;
    }
}

/// A name ends at its first zero, and holds the units before it in order.
pub proof fn name_ends_at_the_first_zero(raw: Seq<u8>, from: int, i: int)
    requires
        0 <= from,
        0 <= i < name_units(raw, from).len(),
    ensures
        from + 2 * i + 2 <= raw.len(),
        name_units(raw, from)[i] == raw[from + 2 * i] + raw[from + 2 * i + 1] * 0x100,
        name_units(raw, from)[i] != 0,
    decreases i,
{
    if i > 0 {
        name_ends_at_the_first_zero(raw, from + 2, i - 1);
        assert(name_units(raw, from)[i] == name_units(raw, from + 2)[i - 1]);
    }
}

/// A name goes on up to a zero or the end of its room.
pub proof fn name_is_taken_whole(raw: Seq<u8>, from: int)
    requires
        0 <= from <= raw.len(),
    ensures
        ({
            let end = from + 2 * name_units(raw, from).len();
            end + 2 > raw.len() || (raw[end] == 0 && raw[end + 1] == 0)
        }),
    decreases raw.len() - from,
{
    if from + 2 <= raw.len() && bytes::le_u16(raw, from) != 0 {
        name_is_taken_whole(raw, from + 2);
    }
}

/// A character above the first 65536 is read from its two halves, any other from one unit,
/// and a half on its own is replaced.
pub proof fn names_are_read_as_utf16(c: int, unit: u16, rest: Seq<u16>)
    requires
        0x10000 <= c <= 0x10FFFF,
    ensures
        utf16_text(
            seq![(0xD800 + (c - 0x10000) / 0x400) as u16, (0xDC00 + (c - 0x10000) % 0x400) as u16]
                + rest,
        ) == seq![c as char] + utf16_text(rest),
        !(0xD800 <= unit <= 0xDFFF) ==> utf16_text(seq![unit] + rest) == seq![unit as char]
            + utf16_text(rest),
        0xDC00 <= unit <= 0xDFFF ==> utf16_text(seq![unit] + rest) == seq![0xFFFD as char]
            + utf16_text(rest),
        0xD800 <= unit <= 0xDBFF && (rest.len() == 0 || !(0xDC00 <= rest[0] <= 0xDFFF))
            ==> utf16_text(seq![unit] + rest) == seq![0xFFFD as char] + utf16_text(rest),
        utf16_text(Seq::empty()) == Seq::<char>::empty(),
{
    let h = (0xD800 + (c - 0x10000) / 0x400) as u16;
    let l = (0xDC00 + (c - 0x10000) % 0x400) as u16;
    let pair = seq![h, l] + rest;
    assert(pair.skip(2) =~= rest);
    assert(pair[0] == h && pair[1] == l);
    assert(0x10000 + (h - 0xD800) * 0x400 + (l - 0xDC00) == c);
    let one = seq![unit] + rest;
    assert(one.skip(1) =~= rest);
    assert(one[0] == unit);
    if rest.len() > 0 {
        assert(one[1] == rest[0]);
    }
}

} // verus!
