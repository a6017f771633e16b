//! Loader of PE32+ binaries.
//!
//! A binary begins with a DOS header, which says where the PE signature stands. The
//! COFF header follows, then the optional header, and then the section headers.

pub mod section_flags;

use crate::bytes;
use crate::bytes::{read_le_u16, read_le_u32, read_le_u64};
use vstd::prelude::*;
use vstd::string::StringExecFns;

verus! {

/// Machine of 64-bit x86 binaries.
pub const IMAGE_FILE_MACHINE_AMD64: u16 = 0x8664;

/// Magic number of the optional header of PE32+.
pub const PE32_PLUS_MAGIC: u16 = 0x020B;

/// Size of a DOS header.
pub const DOS_HEADER_SIZE: usize = 64;

/// Size of a COFF header.
pub const COFF_HEADER_SIZE: usize = 20;

/// Size of the part of an optional header that is read.
pub const OPTIONAL_HEADER_SIZE: usize = 112;

/// Size of a section header.
pub const SECTION_HEADER_SIZE: usize = 40;

/// What matters of the DOS header.
#[derive(Clone, Copy, Debug)]
pub struct DosHeader {
    pub e_magic: [u8; 2],
    /// Offset of the PE signature.
    pub e_lfanew: u32,
}

/// The COFF header.
#[derive(Clone, Copy, Debug, PartialEq, Eq, Structural)]
pub struct CoffHeader {
    pub machine: u16,
    pub number_of_sections: u16,
    pub time_date_stamp: u32,
    pub pointer_to_symbol_table: u32,
    pub number_of_symbols: u32,
    pub size_of_optional_header: u16,
    pub characteristics: u16,
}

/// The optional header of PE32+.
#[derive(Clone, Copy, Debug, PartialEq, Eq, Structural)]
pub struct OptionalHeader64 {
    pub magic: u16,
    pub major_linker_version: u8,
    pub minor_linker_version: u8,
    pub size_of_code: u32,
    pub size_of_initialized_data: u32,
    pub size_of_uninitialized_data: u32,
    pub address_of_entry_point: u32,
    pub base_of_code: u32,
    pub image_base: u64,
    pub section_alignment: u32,
    pub file_alignment: u32,
    pub major_os_version: u16,
    pub minor_os_version: u16,
    pub major_image_version: u16,
    pub minor_image_version: u16,
    pub major_subsystem_version: u16,
    pub minor_subsystem_version: u16,
    pub win32_version_value: u32,
    pub size_of_image: u32,
    pub size_of_headers: u32,
    pub checksum: u32,
    pub subsystem: u16,
    pub dll_characteristics: u16,
    pub size_of_stack_reserve: u64,
    pub size_of_stack_commit: u64,
    pub size_of_heap_reserve: u64,
    pub size_of_heap_commit: u64,
    pub loader_flags: u32,
    pub number_of_rva_and_sizes: u32,
}

/// A section header.
#[derive(Clone, Copy, Debug)]
pub struct SectionHeader {
    pub name: [u8; 8],
    pub virtual_size: u32,
    pub virtual_address: u32,
    pub size_of_raw_data: u32,
    pub pointer_to_raw_data: u32,
    pub pointer_to_relocations: u32,
    pub pointer_to_linenumbers: u32,
    pub number_of_relocations: u16,
    pub number_of_linenumbers: u16,
    pub characteristics: u32,
}

/// The bytes of a name up to the first zero.
pub open spec fn name_bytes(name: Seq<u8>) -> Seq<u8>
    decreases name.len(),
{
    if name.len() == 0 || name[0] == 0 {
        Seq::empty()
    } else {
        seq![name[0]] + name_bytes(name.skip(1))
    }
}

/// Calls `core::str::from_utf8`, which yields the text of bytes that are valid UTF-8,
/// and an error for all others.
#[verifier::external_body]
fn text_of(bytes: &Vec<u8>) -> (r: Option<String>)
    ensures
        r is Some <==> vstd::utf8::valid_utf8(bytes@),
        r matches Some(s) ==> s@ == vstd::utf8::decode_utf8(bytes@),
{
    match core::str::from_utf8(bytes) {
        Ok(s) => Some(String::from(s)),
        Err(_) => None,
    }
}

impl SectionHeader {
    /// Name of the section, up to the first zero. A name that is not valid UTF-8 reads
    /// as `???`.
    pub fn name_str(&self) -> (r: String)
        ensures
            r@ == if vstd::utf8::valid_utf8(name_bytes(self.name@)) {
                vstd::utf8::decode_utf8(name_bytes(self.name@))
            } else {
                "???"@
            },
    {
        let mut bytes: Vec<u8> = Vec::new();
        let mut i: usize = 0;
        assert(self.name@.skip(0) =~= self.name@);
        assert(bytes@ + name_bytes(self.name@.skip(0)) =~= name_bytes(self.name@));
        while i < 8 && self.name[i] != 0
            invariant
                i <= 8,
                bytes@ + name_bytes(self.name@.skip(i as int)) == name_bytes(self.name@),
            decreases 8 - i,
        {
            let ghost before = bytes@;
            bytes.push(self.name[i]);
            proof {
                let rest = self.name@.skip(i as int);
                assert(rest.skip(1) =~= self.name@.skip(i + 1));
                assert(before + name_bytes(rest) =~= bytes@ + name_bytes(self.name@.skip(i + 1)));
            }
            i += 1;
        }
        assert(name_bytes(self.name@.skip(i as int)) =~= Seq::empty());
        assert(bytes@ =~= name_bytes(self.name@));
        match text_of(&bytes) {
            Some(s) => s,
            None => String::from_str("???"),
        }
    }
}

/// The COFF header at an offset.
pub open spec fn coff_at(d: Seq<u8>, at: int) -> CoffHeader {
    CoffHeader {
        machine: bytes::le_u16(d, at),
        number_of_sections: bytes::le_u16(d, at + 2),
        time_date_stamp: bytes::le_u32(d, at + 4),
        pointer_to_symbol_table: bytes::le_u32(d, at + 8),
        number_of_symbols: bytes::le_u32(d, at + 12),
        size_of_optional_header: bytes::le_u16(d, at + 16),
        characteristics: bytes::le_u16(d, at + 18),
    }
}

/// The optional header at an offset.
pub open spec fn optional_at(d: Seq<u8>, at: int) -> OptionalHeader64 {
    OptionalHeader64 {
        magic: bytes::le_u16(d, at),
        major_linker_version: d[at + 2],
        minor_linker_version: d[at + 3],
        size_of_code: bytes::le_u32(d, at + 4),
        size_of_initialized_data: bytes::le_u32(d, at + 8),
        size_of_uninitialized_data: bytes::le_u32(d, at + 12),
        address_of_entry_point: bytes::le_u32(d, at + 16),
        base_of_code: bytes::le_u32(d, at + 20),
        image_base: bytes::le_u64(d, at + 24),
        section_alignment: bytes::le_u32(d, at + 32),
        file_alignment: bytes::le_u32(d, at + 36),
        major_os_version: bytes::le_u16(d, at + 40),
        minor_os_version: bytes::le_u16(d, at + 42),
        major_image_version: bytes::le_u16(d, at + 44),
        minor_image_version: bytes::le_u16(d, at + 46),
        major_subsystem_version: bytes::le_u16(d, at + 48),
        minor_subsystem_version: bytes::le_u16(d, at + 50),
        win32_version_value: bytes::le_u32(d, at + 52),
        size_of_image: bytes::le_u32(d, at + 56),
        size_of_headers: bytes::le_u32(d, at + 60),
        checksum: bytes::le_u32(d, at + 64),
        subsystem: bytes::le_u16(d, at + 68),
        dll_characteristics: bytes::le_u16(d, at + 70),
        size_of_stack_reserve: bytes::le_u64(d, at + 72),
        size_of_stack_commit: bytes::le_u64(d, at + 80),
        size_of_heap_reserve: bytes::le_u64(d, at + 88),
        size_of_heap_commit: bytes::le_u64(d, at + 96),
        loader_flags: bytes::le_u32(d, at + 104),
        number_of_rva_and_sizes: bytes::le_u32(d, at + 108),
    }
}

/// `h` is the section header at an offset.
pub open spec fn is_section_at(d: Seq<u8>, at: int, h: SectionHeader) -> bool {
    &&& h.name@ == d.subrange(at, at + 8)
    &&& h.virtual_size == bytes::le_u32(d, at + 8)
    &&& h.virtual_address == bytes::le_u32(d, at + 12)
    &&& h.size_of_raw_data == bytes::le_u32(d, at + 16)
    &&& h.pointer_to_raw_data == bytes::le_u32(d, at + 20)
    &&& h.pointer_to_relocations == bytes::le_u32(d, at + 24)
    &&& h.pointer_to_linenumbers == bytes::le_u32(d, at + 28)
    &&& h.number_of_relocations == bytes::le_u16(d, at + 32)
    &&& h.number_of_linenumbers == bytes::le_u16(d, at + 34)
    &&& h.characteristics == bytes::le_u32(d, at + 36)
}

/// Offset of the PE signature.
pub open spec fn pe_offset(d: Seq<u8>) -> int {
    bytes::le_u32(d, 0x3C) as int
}

/// Why a binary is refused, if it is.
pub open spec fn header_error(d: Seq<u8>) -> Option<Seq<char>> {
    let pe = pe_offset(d);
    if d.len() < DOS_HEADER_SIZE {
        Some("pe_loader: data too small for DOS header"@)
    } else if !(d[0] == 0x4D && d[1] == 0x5A) {
        Some("pe_loader: invalid DOS magic (expected MZ)"@)
    } else if pe + 4 > d.len() {
        Some("pe_loader: e_lfanew points beyond data"@)
    } else if !(d[pe] == 0x50 && d[pe + 1] == 0x45 && d[pe + 2] == 0 && d[pe + 3] == 0) {
        Some("pe_loader: invalid PE signature (expected PE\\0\\0)"@)
    } else if pe + 24 > d.len() {
        Some("pe_loader: data too small for COFF header"@)
    } else if coff_at(d, pe + 4).machine != IMAGE_FILE_MACHINE_AMD64 {
        Some("pe_loader: not an x86_64 PE (IMAGE_FILE_MACHINE_AMD64 expected)"@)
    } else if pe + 136 > d.len() {
        Some("pe_loader: data too small for PE32+ optional header"@)
    } else if optional_at(d, pe + 24).magic != PE32_PLUS_MAGIC {
        Some("pe_loader: not a PE32+ binary (expected magic 0x020B)"@)
    } else {
        None
    }
}

/// Offset of the section headers.
pub open spec fn sections_offset(d: Seq<u8>) -> int {
    pe_offset(d) + 24 + coff_at(d, pe_offset(d) + 4).size_of_optional_header
}

/// Reads the DOS header.
fn read_dos(data: &[u8]) -> (h: DosHeader)
    requires
        DOS_HEADER_SIZE <= data@.len(),
    ensures
        h.e_magic@ == data@.take(2),
        h.e_lfanew == pe_offset(data@),
{
    let h = DosHeader { e_magic: [data[0], data[1]], e_lfanew: read_le_u32(data, 0x3C) };
    assert(h.e_magic@ =~= data@.take(2));
    h
}

/// Reads a COFF header.
fn read_coff(data: &[u8], at: usize) -> (h: CoffHeader)
    requires
        at + COFF_HEADER_SIZE <= data@.len(),
        data@.len() <= usize::MAX,
    ensures
        h == coff_at(data@, at as int),
{
    CoffHeader {
        machine: read_le_u16(data, at),
        number_of_sections: read_le_u16(data, at + 2),
        time_date_stamp: read_le_u32(data, at + 4),
        pointer_to_symbol_table: read_le_u32(data, at + 8),
        number_of_symbols: read_le_u32(data, at + 12),
        size_of_optional_header: read_le_u16(data, at + 16),
        characteristics: read_le_u16(data, at + 18),
    }
}

/// Reads an optional header.
fn read_optional(data: &[u8], at: usize) -> (h: OptionalHeader64)
    requires
        at + OPTIONAL_HEADER_SIZE <= data@.len(),
        data@.len() <= usize::MAX,
    ensures
        h == optional_at(data@, at as int),
{
    OptionalHeader64 {
        magic: read_le_u16(data, at),
        major_linker_version: data[at + 2],
        minor_linker_version: data[at + 3],
        size_of_code: read_le_u32(data, at + 4),
        size_of_initialized_data: read_le_u32(data, at + 8),
        size_of_uninitialized_data: read_le_u32(data, at + 12),
        address_of_entry_point: read_le_u32(data, at + 16),
        base_of_code: read_le_u32(data, at + 20),
        image_base: read_le_u64(data, at + 24),
        section_alignment: read_le_u32(data, at + 32),
        file_alignment: read_le_u32(data, at + 36),
        major_os_version: read_le_u16(data, at + 40),
        minor_os_version: read_le_u16(data, at + 42),
        major_image_version: read_le_u16(data, at + 44),
        minor_image_version: read_le_u16(data, at + 46),
        major_subsystem_version: read_le_u16(data, at + 48),
        minor_subsystem_version: read_le_u16(data, at + 50),
        win32_version_value: read_le_u32(data, at + 52),
        size_of_image: read_le_u32(data, at + 56),
        size_of_headers: read_le_u32(data, at + 60),
        checksum: read_le_u32(data, at + 64),
        subsystem: read_le_u16(data, at + 68),
        dll_characteristics: read_le_u16(data, at + 70),
        size_of_stack_reserve: read_le_u64(data, at + 72),
        size_of_stack_commit: read_le_u64(data, at + 80),
        size_of_heap_reserve: read_le_u64(data, at + 88),
        size_of_heap_commit: read_le_u64(data, at + 96),
        loader_flags: read_le_u32(data, at + 104),
        number_of_rva_and_sizes: read_le_u32(data, at + 108),
    }
}

/// Reads a section header.
fn read_section(data: &[u8], at: usize) -> (h: SectionHeader)
    requires
        at + SECTION_HEADER_SIZE <= data@.len(),
        data@.len() <= usize::MAX,
    ensures
        is_section_at(data@, at as int, h),
{
    let name: [u8; 8] = [
        data[at],
        data[at + 1],
        data[at + 2],
        data[at + 3],
        data[at + 4],
        data[at + 5],
        data[at + 6],
        data[at + 7],
    ];
    assert(name@ =~= data@.subrange(at as int, at + 8));
    SectionHeader {
        name,
        virtual_size: read_le_u32(data, at + 8),
        virtual_address: read_le_u32(data, at + 12),
        size_of_raw_data: read_le_u32(data, at + 16),
        pointer_to_raw_data: read_le_u32(data, at + 20),
        pointer_to_relocations: read_le_u32(data, at + 24),
        pointer_to_linenumbers: read_le_u32(data, at + 28),
        number_of_relocations: read_le_u16(data, at + 32),
        number_of_linenumbers: read_le_u16(data, at + 34),
        characteristics: read_le_u32(data, at + 36),
    }
}

/// Parses and validates the headers of a binary: the COFF header, the optional header,
/// and the offset of the section headers.
pub fn parse_header(data: &[u8]) -> (r: Result<(CoffHeader, OptionalHeader64, u64), &'static str>)
    ensures
        match header_error(data@) {
            Some(m) => r matches Err(e) && e@ == m,
            None => r == Ok::<(CoffHeader, OptionalHeader64, u64), &'static str>(
                (
                    coff_at(data@, pe_offset(data@) + 4),
                    optional_at(data@, pe_offset(data@) + 24),
                    sections_offset(data@) as u64,
                ),
            ),
        },
{
    let n: usize = data.len();
    if n < DOS_HEADER_SIZE {
        return Err("pe_loader: data too small for DOS header");
    }
    let dos = read_dos(data);
    if !(dos.e_magic[0] == 0x4D && dos.e_magic[1] == 0x5A) {
        return Err("pe_loader: invalid DOS magic (expected MZ)");
    }
    let e_lfanew: u64 = dos.e_lfanew as u64;
    if e_lfanew + 4 > n as u64 {
        return Err("pe_loader: e_lfanew points beyond data");
    }
    let pe: usize = e_lfanew as usize;
    if !(data[pe] == 0x50 && data[pe + 1] == 0x45 && data[pe + 2] == 0 && data[pe + 3] == 0) {
        return Err("pe_loader: invalid PE signature (expected PE\\0\\0)");
    }
    if e_lfanew + 24 > n as u64 {
        return Err("pe_loader: data too small for COFF header");
    }
    let coff = read_coff(data, pe + 4);
    if coff.machine != IMAGE_FILE_MACHINE_AMD64 {
        return Err("pe_loader: not an x86_64 PE (IMAGE_FILE_MACHINE_AMD64 expected)");
    }
    if e_lfanew + 136 > n as u64 {
        return Err("pe_loader: data too small for PE32+ optional header");
    }
    let opt = read_optional(data, pe + 24);
    if opt.magic != PE32_PLUS_MAGIC {
        return Err("pe_loader: not a PE32+ binary (expected magic 0x020B)");
    }
    let section_off: u64 = e_lfanew + 24 + coff.size_of_optional_header as u64;
    Ok((coff, opt, section_off))
}

/// Reads `count` section headers from an offset on.
pub fn section_headers(data: &[u8], section_off: u64, count: u16) -> (r: Result<
    Vec<SectionHeader>,
    &'static str,
>)
    ensures
        r is Ok <==> section_off + count * SECTION_HEADER_SIZE <= data@.len(),
        r matches Err(e) ==> e@ == if section_off + count * SECTION_HEADER_SIZE > u64::MAX {
            "pe_loader: section header table offset overflow"@
        } else {
            "pe_loader: section headers extend beyond PE data"@
        },
        r matches Ok(h) ==> {
            &&& h@.len() == count
            &&& forall|i: int|
                0 <= i < count ==> is_section_at(
                    data@,
                    section_off + i * SECTION_HEADER_SIZE,
                    #[trigger] h@[i],
                )
        },
{
    let n: usize = data.len();
    let total: u64 = count as u64 * SECTION_HEADER_SIZE as u64;
    if section_off > u64::MAX - total {
        return Err("pe_loader: section header table offset overflow");
    }
    if section_off + total > n as u64 {
        return Err("pe_loader: section headers extend beyond PE data");
    }
    let base: usize = section_off as usize;
    let mut headers: Vec<SectionHeader> = Vec::new();
    let mut i: u16 = 0;
    while i < count
        invariant
            i <= count,
            n == data@.len(),
            base == section_off,
            base + count * SECTION_HEADER_SIZE <= n,
            headers@.len() == i,
            forall|k: int|
                0 <= k < i ==> is_section_at(
                    data@,
                    section_off + k * SECTION_HEADER_SIZE,
                    #[trigger] headers@[k],
                ),
        decreases count - i,
    {
        headers.push(read_section(data, base + i as usize * SECTION_HEADER_SIZE));
        i += 1;
    }
    Ok(headers)
}

/// Access to the pages of a section.
#[derive(Clone, Copy, Debug, PartialEq, Eq, Structural)]
pub struct PageFlags {
    pub writable: bool,
    pub executable: bool,
}

/// Access that the characteristics of a section ask for.
pub open spec fn flags_of(characteristics: u32) -> PageFlags {
    PageFlags {
        writable: characteristics & section_flags::IMAGE_SCN_MEM_WRITE != 0,
        executable: characteristics & section_flags::IMAGE_SCN_MEM_EXECUTE != 0,
    }
}

/// Access that the characteristics of a section ask for.
pub fn pe_section_flags_to_pte(characteristics: u32) -> (f: PageFlags)
    ensures
        f == flags_of(characteristics),
{
    PageFlags {
        writable: characteristics & section_flags::IMAGE_SCN_MEM_WRITE != 0,
        executable: characteristics & section_flags::IMAGE_SCN_MEM_EXECUTE != 0,
    }
}

/// Characteristics of a section that has a place in memory.
pub const MEMORY_FLAGS: u32 = 0xE000_00E0;

/// Size of a section in memory.
pub open spec fn section_size(h: SectionHeader) -> int {
    if h.virtual_size >= h.size_of_raw_data {
        h.virtual_size as int
    } else {
        h.size_of_raw_data as int
    }
}

/// The section is loaded: it is not empty and has a place in memory.
pub open spec fn is_loaded(h: SectionHeader) -> bool {
    section_size(h) > 0 && h.characteristics & MEMORY_FLAGS != 0
}

/// The data of the section lies in the binary.
pub open spec fn raw_in_bounds(d: Seq<u8>, h: SectionHeader) -> bool {
    h.size_of_raw_data > 0 ==> h.pointer_to_raw_data + h.size_of_raw_data <= d.len()
}

/// Contents of a section: its data, and then zeros.
pub open spec fn section_bytes(d: Seq<u8>, h: SectionHeader) -> Seq<u8> {
    Seq::new(
        section_size(h) as nat,
        |i: int|
            if i < h.size_of_raw_data {
                d[h.pointer_to_raw_data + i]
            } else {
                0u8
            },
    )
}

/// A section as it is in memory.
#[derive(Debug)]
pub struct SectionImage {
    /// Address relative to the image base.
    pub virtual_address: u32,
    /// Contents.
    pub bytes: Vec<u8>,
    /// Access.
    pub flags: PageFlags,
}

/// A binary as it is in memory.
#[derive(Debug)]
pub struct LoadedPe {
    /// Address of the entry point: that of the image base plus that of the entry.
    pub entry_point: u64,
    /// Image base.
    pub image_base: u64,
    /// Sections, in order.
    pub sections: Vec<SectionImage>,
}

/// Sections among the first `n` that are loaded, in order.
pub open spec fn loaded_sections(headers: Seq<SectionHeader>, n: int) -> Seq<SectionHeader>
    decreases n,
{
    if n <= 0 {
        Seq::empty()
    } else if is_loaded(headers[n - 1]) {
        loaded_sections(headers, n - 1).push(headers[n - 1])
    } else {
        loaded_sections(headers, n - 1)
    }
}

/// `images` are the sections as they are in memory.
pub open spec fn are_images(d: Seq<u8>, headers: Seq<SectionHeader>, images: Seq<SectionImage>) -> bool {
    &&& images.len() == headers.len()
    &&& forall|i: int|
        0 <= i < images.len() ==> is_image(d, headers[i], #[trigger] images[i])
}

/// `image` is the section as it is in memory.
pub open spec fn is_image(d: Seq<u8>, h: SectionHeader, image: SectionImage) -> bool {
    &&& image.virtual_address == h.virtual_address
    &&& image.bytes@ == section_bytes(d, h)
    &&& image.flags == flags_of(h.characteristics)
}

/// Builds the contents of a section.
fn build_section(data: &[u8], h: &SectionHeader) -> (image: SectionImage)
    requires
        raw_in_bounds(data@, *h),
        section_size(*h) <= usize::MAX,
    ensures
        is_image(data@, *h, image),
{
    let n: usize = data.len();
    let raw_size: usize = h.size_of_raw_data as usize;
    let size: usize = if h.virtual_size >= h.size_of_raw_data {
        h.virtual_size as usize
    } else {
        raw_size
    };
    let mut bytes: Vec<u8> = Vec::with_capacity(size);
    let mut i: usize = 0;
    while i < size
        invariant
            i <= size,
            n == data@.len(),
            raw_size == h.size_of_raw_data,
            raw_size > 0 ==> h.pointer_to_raw_data + raw_size <= n,
            size == section_size(*h),
            bytes@ =~= section_bytes(data@, *h).take(i as int),
        decreases size - i,
    {
        if i < raw_size {
            bytes.push(data[h.pointer_to_raw_data as usize + i]);
        } else {
            bytes.push(0);
        }
        i += 1;
    }
    assert(bytes@ =~= section_bytes(data@, *h));
    SectionImage {
        virtual_address: h.virtual_address,
        bytes,
        flags: pe_section_flags_to_pte(h.characteristics),
    }
}

/// Loads sections. Those without a place in memory are skipped, and the data of each
/// other has to lie in the binary.
pub fn load_sections(data: &[u8], headers: &Vec<SectionHeader>) -> (r: Result<
    Vec<SectionImage>,
    &'static str,
>)
    ensures
        ({
            let loaded = loaded_sections(headers@, headers@.len() as int);
            let in_bounds = forall|i: int|
                0 <= i < loaded.len() ==> raw_in_bounds(data@, #[trigger] loaded[i]);
            &&& r is Ok <==> in_bounds && loaded.len() > 0
            &&& r matches Err(e) ==> e@ == if in_bounds {
                "pe_loader: no loadable sections found in PE binary"@
            } else {
                "pe_loader: section raw data exceeds PE input bounds"@
            }
            &&& r matches Ok(s) ==> are_images(data@, loaded, s@)
        }),
{
    let n: usize = data.len();
    let mut images: Vec<SectionImage> = Vec::new();
    let mut i: usize = 0;
    let ghost all = loaded_sections(headers@, headers@.len() as int);
    while i < headers.len()
        invariant
            i <= headers@.len(),
            n == data@.len(),
            all == loaded_sections(headers@, headers@.len() as int),
            are_images(data@, loaded_sections(headers@, i as int), images@),
            forall|k: int|
                0 <= k < images@.len() ==> raw_in_bounds(
                    data@,
                    #[trigger] loaded_sections(headers@, i as int)[k],
                ),
        decreases headers@.len() - i,
    {
        let h = headers[i];
        let ghost before = images@;
        let ghost some = loaded_sections(headers@, i as int);
        assert(0x20u32 | 0x40u32 | 0x80u32 | 0x2000_0000u32 | 0x4000_0000u32 | 0x8000_0000u32
            == 0xE000_00E0u32) by (bit_vector);
        if (h.virtual_size > 0 || h.size_of_raw_data > 0) && h.characteristics & (
        section_flags::IMAGE_SCN_CNT_CODE | section_flags::IMAGE_SCN_CNT_INITIALIZED_DATA
            | section_flags::IMAGE_SCN_CNT_UNINITIALIZED_DATA | section_flags::IMAGE_SCN_MEM_EXECUTE
            | section_flags::IMAGE_SCN_MEM_READ | section_flags::IMAGE_SCN_MEM_WRITE) != 0 {
            assert(is_loaded(h));
            if h.size_of_raw_data > 0 && h.pointer_to_raw_data as u64 + h.size_of_raw_data as u64
                > n as u64 {
                proof {
                    lemma_loaded_prefix(headers@, i + 1, headers@.len() as int);
                    let k = some.len() as int;
                    assert(loaded_sections(headers@, i + 1)[k] == h);
                    assert(all[k] == h);
                    assert(!raw_in_bounds(data@, all[k]));
                }
                return Err("pe_loader: section raw data exceeds PE input bounds");
            }
            assert(usize::MAX >= 0xffff_ffff);
            images.push(build_section(data, &h));
        }
        proof {
            let now = loaded_sections(headers@, i + 1);
            assert forall|k: int| 0 <= k < images@.len() implies is_image(
                data@,
                now[k],
                #[trigger] images@[k],
            ) by {
                if k < before.len() {
                    assert(images@[k] == before[k]);
                    assert(now[k] == some[k]);
                }
            }
            assert forall|k: int| 0 <= k < images@.len() implies raw_in_bounds(
                data@,
                #[trigger] now[k],
            ) by {
                if k < before.len() {
                    assert(now[k] == some[k]);
                }
            }
        }
        i += 1;
    }
    if images.len() == 0 {
        return Err("pe_loader: no loadable sections found in PE binary");
    }
    Ok(images)
}

/// The sections loaded from a part are the first of all.
proof fn lemma_loaded_prefix(headers: Seq<SectionHeader>, m: int, n: int)
    requires
        0 <= m <= n,
    ensures
        loaded_sections(headers, m).len() <= loaded_sections(headers, n).len(),
        forall|k: int|
            0 <= k < loaded_sections(headers, m).len() ==> #[trigger] loaded_sections(
                headers,
                m,
            )[k] == loaded_sections(headers, n)[k],
    decreases n - m,
{
    if m < n {
        lemma_loaded_prefix(headers, m, n - 1);
    }
}

/// `headers` are the `count` section headers from an offset on.
pub open spec fn are_sections(d: Seq<u8>, off: int, count: int, headers: Seq<SectionHeader>) -> bool {
    &&& headers.len() == count
    &&& forall|i: int|
        0 <= i < count ==> is_section_at(d, off + i * SECTION_HEADER_SIZE, #[trigger] headers[i])
}

/// What comes of loading sections of a binary.
pub open spec fn load_outcome(
    d: Seq<u8>,
    headers: Seq<SectionHeader>,
    r: Result<LoadedPe, &'static str>,
) -> bool {
    let loaded = loaded_sections(headers, headers.len() as int);
    let in_bounds = forall|i: int|
        0 <= i < loaded.len() ==> raw_in_bounds(d, #[trigger] loaded[i]);
    let opt = optional_at(d, pe_offset(d) + 24);
    if !in_bounds {
        r matches Err(e) && e@ == "pe_loader: section raw data exceeds PE input bounds"@
    } else if loaded.len() == 0 {
        r matches Err(e) && e@ == "pe_loader: no loadable sections found in PE binary"@
    } else {
        r matches Ok(pe) && pe.image_base == opt.image_base && pe.entry_point
            == opt.image_base.wrapping_add(opt.address_of_entry_point as u64) && are_images(
            d,
            loaded,
            pe.sections@,
        )
    }
}

/// Loads a binary.
pub fn load(data: &[u8]) -> (r: Result<LoadedPe, &'static str>)
    ensures
        header_error(data@) matches Some(m) ==> r matches Err(e) && e@ == m,
        header_error(data@) is None ==> {
            let off = sections_offset(data@);
            let count = coff_at(data@, pe_offset(data@) + 4).number_of_sections as int;
            if off + count * SECTION_HEADER_SIZE > data@.len() {
                r matches Err(e) && e@ == "pe_loader: section headers extend beyond PE data"@
            } else {
                exists|headers: Seq<SectionHeader>|
                    #![trigger load_outcome(data@, headers, r)]
                    are_sections(data@, off, count, headers) && load_outcome(data@, headers, r)
            }
        },
{
    let (coff, opt, section_off) = match parse_header(data) {
        Ok(h) => h,
        Err(e) => {
            return Err(e);
        },
    };
    let headers = match section_headers(data, section_off, coff.number_of_sections) {
        Ok(h) => h,
        Err(e) => {
            return Err(e);
        },
    };
    assert(are_sections(
        data@,
        sections_offset(data@),
        coff.number_of_sections as int,
        headers@,
    ));
    let r: Result<LoadedPe, &'static str> = match load_sections(data, &headers) {
        Ok(sections) => {
            let entry_point: u64 = opt.image_base.wrapping_add(opt.address_of_entry_point as u64);
            Ok(LoadedPe { entry_point, image_base: opt.image_base, sections })
        },
        Err(e) => Err(e),
    };
    assert(load_outcome(data@, headers@, r));
    r
}

/// Whether data is a PE32+ binary.
pub fn is_pe(data: &[u8]) -> (r: bool)
    ensures
        r == (header_error(data@) is None),
{
    parse_header(data).is_ok()
}

/// In memory a section begins with its data and ends in zeros.
pub proof fn section_is_data_then_zeros(d: Seq<u8>, h: SectionHeader)
    requires
        raw_in_bounds(d, h),
    ensures
        section_bytes(d, h).len() == section_size(h),
        h.size_of_raw_data > 0 ==> section_bytes(d, h).take(h.size_of_raw_data as int)
            == d.subrange(
            h.pointer_to_raw_data as int,
            h.pointer_to_raw_data + h.size_of_raw_data,
        ),
        forall|i: int|
            h.size_of_raw_data <= i < section_size(h) ==> #[trigger] section_bytes(d, h)[i] == 0,
{
    if h.size_of_raw_data > 0 {
        assert(section_bytes(d, h).take(h.size_of_raw_data as int) =~= d.subrange(
            h.pointer_to_raw_data as int,
            h.pointer_to_raw_data + h.size_of_raw_data,
        ));
    }
}

/// The characteristics hold any of the code, initialised data, uninitialised data,
/// execute, read or write flags.
pub open spec fn has_memory_flag(characteristics: u32) -> bool {
    ||| characteristics & 0x20 != 0
    ||| characteristics & 0x40 != 0
    ||| characteristics & 0x80 != 0
    ||| characteristics & 0x2000_0000 != 0
    ||| characteristics & 0x4000_0000 != 0
    ||| characteristics & 0x8000_0000 != 0
}

proof fn lemma_memory_flag(c: u32)
    ensures
        has_memory_flag(c) <==> c & 0xE000_00E0 != 0,
{
    assert((c & 0x20 != 0 || c & 0x40 != 0 || c & 0x80 != 0 || c & 0x2000_0000 != 0 || c
        & 0x4000_0000 != 0 || c & 0x8000_0000 != 0) == (c & 0xE000_00E0 != 0)) by (bit_vector);
}

/// A header is loaded exactly if it has a size in memory or in the file and a flag that
/// gives it a place in memory. In particular one without data in the file is loaded.
pub proof fn headers_with_a_place_are_loaded(headers: Seq<SectionHeader>, n: int, i: int)
    requires
        0 <= i < n <= headers.len(),
    ensures
        (headers[i].virtual_size > 0 || headers[i].size_of_raw_data > 0) && has_memory_flag(
            headers[i].characteristics,
        ) ==> loaded_sections(headers, n).contains(headers[i]),
        loaded_sections(headers, n).contains(headers[i]) ==> (headers[i].virtual_size > 0
            || headers[i].size_of_raw_data > 0) && has_memory_flag(headers[i].characteristics),
    decreases n,
{
    let h = headers[i];
    let all = loaded_sections(headers, n);
    let rest = loaded_sections(headers, n - 1);
    lemma_memory_flag(h.characteristics);
    lemma_only_loaded(headers, n, h);
    if i < n - 1 {
        headers_with_a_place_are_loaded(headers, n - 1, i);
        if rest.contains(h) {
            let k = choose|k: int| 0 <= k < rest.len() && rest[k] == h;
            assert(all[k] == h);
        }
    } else if is_loaded(h) {
        assert(all[all.len() - 1] == h);
    }
}

/// What is loaded has a place in memory.
proof fn lemma_only_loaded(headers: Seq<SectionHeader>, n: int, h: SectionHeader)
    requires
        n <= headers.len(),
    ensures
        loaded_sections(headers, n).contains(h) ==> is_loaded(h),
    decreases n,
{
    if n > 0 {
        lemma_only_loaded(headers, n - 1, h);
        let all = loaded_sections(headers, n);
        let rest = loaded_sections(headers, n - 1);
        if all.contains(h) {
            let k = choose|k: int| 0 <= k < all.len() && all[k] == h;
            if k < rest.len() {
                assert(rest[k] == h);
            }
        }
    }
}

/// Number of headers among the first `n` that have a size and a place in memory.
pub open spec fn placed_headers(headers: Seq<SectionHeader>, n: int) -> nat
    decreases n,
{
    if n <= 0 {
        0
    } else {
        placed_headers(headers, n - 1) + if (headers[n - 1].virtual_size > 0
            || headers[n - 1].size_of_raw_data > 0) && has_memory_flag(
            headers[n - 1].characteristics,
        ) {
            1nat
        } else {
            0
        }
    }
}

/// As many sections are loaded as headers have a size and a place in memory.
pub proof fn each_placed_header_is_loaded_once(headers: Seq<SectionHeader>, n: int)
    requires
        n <= headers.len(),
    ensures
        loaded_sections(headers, n).len() == placed_headers(headers, n),
    decreases n,
{
    if n > 0 {
        each_placed_header_is_loaded_once(headers, n - 1);
        lemma_memory_flag(headers[n - 1].characteristics);
    }
}

/// In memory a section has the larger of its sizes, at the address of its header, holds
/// the data of the file and zeros after it, and can be written or executed exactly as its
/// flags say.
pub proof fn image_follows_its_header(d: Seq<u8>, h: SectionHeader, image: SectionImage)
    requires
        raw_in_bounds(d, h),
        is_image(d, h, image),
    ensures
        image.virtual_address == h.virtual_address,
        image.bytes@.len() >= h.virtual_size,
        image.bytes@.len() >= h.size_of_raw_data,
        image.bytes@.len() == h.virtual_size || image.bytes@.len() == h.size_of_raw_data,
        forall|i: int|
            0 <= i < h.size_of_raw_data ==> #[trigger] image.bytes@[i] == d[h.pointer_to_raw_data
                + i],
        forall|i: int|
            h.size_of_raw_data <= i < image.bytes@.len() ==> #[trigger] image.bytes@[i] == 0,
        image.flags.writable <==> h.characteristics & 0x8000_0000 != 0,
        image.flags.executable <==> h.characteristics & 0x2000_0000 != 0,
{
}

/// A binary is accepted only as a PE32+ image for x86_64: it begins with MZ, has the
/// signature PE and two zeros at the offset that byte 0x3C names, then the machine 0x8664 and,
/// 24 bytes after the signature, the magic 0x020B.
pub proof fn accepted_binaries_are_pe32_plus(d: Seq<u8>)
    ensures
        header_error(d) is None ==> {
            let pe = d[0x3C] + d[0x3D] * 0x100 + d[0x3E] * 0x1_0000 + d[0x3F] * 0x100_0000;
            &&& d.len() >= 64
            &&& d[0] == 0x4D && d[1] == 0x5A
            &&& pe + 136 <= d.len()
            &&& d[pe] == 0x50 && d[pe + 1] == 0x45 && d[pe + 2] == 0 && d[pe + 3] == 0
            &&& d[pe + 4] == 0x64 && d[pe + 5] == 0x86
            &&& d[pe + 24] == 0x0B && d[pe + 25] == 0x02
        },
{
}

/// Every such binary is accepted.
pub proof fn pe32_plus_binaries_are_accepted(d: Seq<u8>, pe: int)
    requires
        d.len() >= 64,
        pe == d[0x3C] + d[0x3D] * 0x100 + d[0x3E] * 0x1_0000 + d[0x3F] * 0x100_0000,
        pe + 136 <= d.len(),
        d[0] == 0x4D,
        d[1] == 0x5A,
        d[pe] == 0x50,
        d[pe + 1] == 0x45,
        d[pe + 2] == 0,
        d[pe + 3] == 0,
        d[pe + 4] == 0x64,
        d[pe + 5] == 0x86,
        d[pe + 24] == 0x0B,
        d[pe + 25] == 0x02,
    ensures
        header_error(d) is None,
{
}

/// Where the loader finds what it needs: the number of sections two bytes after the machine,
/// the entry point 40 bytes and the image base 48 bytes after the signature, and the section
/// headers right behind the optional header, whose size is 20 bytes after the signature.
pub proof fn loader_fields_stand_in_place(d: Seq<u8>, pe: int)
    requires
        pe == pe_offset(d),
    ensures
        coff_at(d, pe + 4).number_of_sections == d[pe + 6] + d[pe + 7] * 0x100,
        optional_at(d, pe + 24).address_of_entry_point == d[pe + 40] + d[pe + 41] * 0x100 + d[pe + 42]
            * 0x1_0000 + d[pe + 43] * 0x100_0000,
        optional_at(d, pe + 24).image_base % 0x1_0000_0000 == d[pe + 48] + d[pe + 49] * 0x100 + d[pe
            + 50] * 0x1_0000 + d[pe + 51] * 0x100_0000,
        optional_at(d, pe + 24).image_base / 0x1_0000_0000 == d[pe + 52] + d[pe + 53] * 0x100 + d[pe
            + 54] * 0x1_0000 + d[pe + 55] * 0x100_0000,
        sections_offset(d) == pe + 24 + d[pe + 20] + d[pe + 21] * 0x100,
{
    bytes::integers_are_little_endian(d, pe + 40);
    bytes::integers_are_little_endian(d, pe + 48);
    bytes::integers_are_little_endian(d, pe + 52);
    assert(optional_at(d, pe + 24).address_of_entry_point == bytes::le_u32(d, pe + 40));
    assert(optional_at(d, pe + 24).image_base == bytes::le_u64(d, pe + 48));
}

/// Where a section header keeps what is loaded of it.
pub proof fn section_fields_stand_in_place(d: Seq<u8>, at: int, h: SectionHeader)
    requires
        is_section_at(d, at, h),
    ensures
        h.virtual_size == d[at + 8] + d[at + 9] * 0x100 + d[at + 10] * 0x1_0000 + d[at + 11]
            * 0x100_0000,
        h.virtual_address == d[at + 12] + d[at + 13] * 0x100 + d[at + 14] * 0x1_0000 + d[at + 15]
            * 0x100_0000,
        h.size_of_raw_data == d[at + 16] + d[at + 17] * 0x100 + d[at + 18] * 0x1_0000 + d[at + 19]
            * 0x100_0000,
        h.pointer_to_raw_data == d[at + 20] + d[at + 21] * 0x100 + d[at + 22] * 0x1_0000 + d[at
            + 23] * 0x100_0000,
        h.characteristics == d[at + 36] + d[at + 37] * 0x100 + d[at + 38] * 0x1_0000 + d[at + 39]
            * 0x100_0000,
{
}

/// A binary whose section headers all lie in it is loaded exactly if some header has a place
/// in memory and the data of each such header lies in the binary; then its entry point is the
/// image base plus the address of the entry.
pub proof fn binary_loads_if_its_sections_do(
    d: Seq<u8>,
    headers: Seq<SectionHeader>,
    r: Result<LoadedPe, &'static str>,
)
    requires
        load_outcome(d, headers, r),
    ensures
        r is Ok <==> placed_headers(headers, headers.len() as int) > 0 && forall|i: int|
            0 <= i < headers.len() && ((#[trigger] headers[i]).virtual_size > 0
                || headers[i].size_of_raw_data > 0) && has_memory_flag(headers[i].characteristics)
                && headers[i].size_of_raw_data > 0 ==> headers[i].pointer_to_raw_data
                + headers[i].size_of_raw_data <= d.len(),
        r matches Ok(pe) ==> {
            let opt = optional_at(d, pe_offset(d) + 24);
            &&& pe.image_base == opt.image_base
            &&& (pe.entry_point - opt.image_base - opt.address_of_entry_point) % 0x1_0000_0000_0000_0000
                == 0
            &&& pe.sections@.len() == placed_headers(headers, headers.len() as int)
        },
{
    let n = headers.len() as int;
    let loaded = loaded_sections(headers, n);
    each_placed_header_is_loaded_once(headers, n);
    let in_bounds = forall|i: int| 0 <= i < loaded.len() ==> raw_in_bounds(d, #[trigger] loaded[i]);
    if in_bounds {
        assert forall|i: int|
            0 <= i < headers.len() && ((#[trigger] headers[i]).virtual_size > 0
                || headers[i].size_of_raw_data > 0) && has_memory_flag(headers[i].characteristics)
                && headers[i].size_of_raw_data > 0 implies headers[i].pointer_to_raw_data
            + headers[i].size_of_raw_data <= d.len() by {
            headers_with_a_place_are_loaded(headers, n, i);
            let k = choose|k: int| 0 <= k < loaded.len() && loaded[k] == headers[i];
            assert(raw_in_bounds(d, loaded[k]));
        }
    } else {
        let k = choose|k: int| 0 <= k < loaded.len() && !raw_in_bounds(d, #[trigger] loaded[k]);
        lemma_loaded_from(headers, n, k);
        let i = choose|i: int| 0 <= i < n && #[trigger] headers[i] == loaded[k];
        assert(loaded.contains(headers[i]));
        headers_with_a_place_are_loaded(headers, n, i);
        assert(headers[i].size_of_raw_data > 0);
    }
}

/// What is loaded comes from a header.
proof fn lemma_loaded_from(headers: Seq<SectionHeader>, n: int, k: int)
    requires
        0 <= k < loaded_sections(headers, n).len(),
        n <= headers.len(),
    ensures
        exists|i: int| 0 <= i < n && #[trigger] headers[i] == loaded_sections(headers, n)[k],
    decreases n,
{
    if n > 0 {
        let rest = loaded_sections(headers, n - 1);
        if k < rest.len() {
            lemma_loaded_from(headers, n - 1, k);
        } else {
            assert(headers[n - 1] == loaded_sections(headers, n)[k]);
        }
    }
}

/// The name of a section ends before the first zero byte, or fills its field.
pub proof fn section_name_ends_at_the_first_zero(name: Seq<u8>, n: int)
    requires
        0 <= n <= name.len(),
        forall|i: int| 0 <= i < n ==> #[trigger] name[i] != 0,
        n == name.len() || name[n] == 0,
    ensures
        name_bytes(name) == name.subrange(0, n),
    decreases n,
{
    if n > 0 {
        let m = n - 1;
        let rest = name.skip(1);
        assert forall|i: int| 0 <= i < m implies #[trigger] rest[i] != 0 by {
            assert(name[i + 1] != 0);
        }
        if n < name.len() {
            assert(rest[m] == name[n]);
        }
        section_name_ends_at_the_first_zero(rest, m);
        assert(seq![name[0]] + rest.subrange(0, m) =~= name.subrange(0, n));
    } else {
        assert(name.subrange(0, 0) =~= Seq::empty());
    }
}

} // verus!
