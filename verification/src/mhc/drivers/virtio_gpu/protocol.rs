//! The wire protocol of a virtual GPU.
//!
//! All integers stand in little-endian order. Every command and every response
//! begins with a header of 24 bytes.

use vstd::prelude::*;

verus! {

/// Commands.
#[derive(Clone, Copy, Debug, PartialEq, Eq, Structural)]
pub enum VirtioGpuCmd {
    GetDisplayInfo,
    ResourceCreate2d,
    ResourceUnref,
    SetScanout,
    ResourceFlush,
    TransferToHost2d,
    ResourceAttachBacking,
    ResourceDetachBacking,
    GetCapsetInfo,
    GetCapset,
    GetEdid,
    CtxCreate,
    CtxDestroy,
    CtxAttachResource,
    CtxDetachResource,
    ResourceCreate3d,
    TransferToHost3d,
    TransferFromHost3d,
    SubmitCmd3d,
    ResourceMapBlob,
    ResourceUnmapBlob,
    UpdateCursor,
    MoveCursor,
}

impl VirtioGpuCmd {
    /// Number of a command.
    pub open spec fn number(self) -> u32 {
        match self {
            VirtioGpuCmd::GetDisplayInfo => 0x0100,
            VirtioGpuCmd::ResourceCreate2d => 0x0101,
            VirtioGpuCmd::ResourceUnref => 0x0102,
            VirtioGpuCmd::SetScanout => 0x0103,
            VirtioGpuCmd::ResourceFlush => 0x0104,
            VirtioGpuCmd::TransferToHost2d => 0x0105,
            VirtioGpuCmd::ResourceAttachBacking => 0x0106,
            VirtioGpuCmd::ResourceDetachBacking => 0x0107,
            VirtioGpuCmd::GetCapsetInfo => 0x0108,
            VirtioGpuCmd::GetCapset => 0x0109,
            VirtioGpuCmd::GetEdid => 0x010A,
            VirtioGpuCmd::CtxCreate => 0x0200,
            VirtioGpuCmd::CtxDestroy => 0x0201,
            VirtioGpuCmd::CtxAttachResource => 0x0202,
            VirtioGpuCmd::CtxDetachResource => 0x0203,
            VirtioGpuCmd::ResourceCreate3d => 0x0204,
            VirtioGpuCmd::TransferToHost3d => 0x0205,
            VirtioGpuCmd::TransferFromHost3d => 0x0206,
            VirtioGpuCmd::SubmitCmd3d => 0x0207,
            VirtioGpuCmd::ResourceMapBlob => 0x0208,
            VirtioGpuCmd::ResourceUnmapBlob => 0x0209,
            VirtioGpuCmd::UpdateCursor => 0x0300,
            VirtioGpuCmd::MoveCursor => 0x0301,
        }
    }

    /// Number of a command.
    pub fn code(self) -> (r: u32)
        ensures
            r == self.number(),
    {
        match self {
            VirtioGpuCmd::GetDisplayInfo => 0x0100,
            VirtioGpuCmd::ResourceCreate2d => 0x0101,
            VirtioGpuCmd::ResourceUnref => 0x0102,
            VirtioGpuCmd::SetScanout => 0x0103,
            VirtioGpuCmd::ResourceFlush => 0x0104,
            VirtioGpuCmd::TransferToHost2d => 0x0105,
            VirtioGpuCmd::ResourceAttachBacking => 0x0106,
            VirtioGpuCmd::ResourceDetachBacking => 0x0107,
            VirtioGpuCmd::GetCapsetInfo => 0x0108,
            VirtioGpuCmd::GetCapset => 0x0109,
            VirtioGpuCmd::GetEdid => 0x010A,
            VirtioGpuCmd::CtxCreate => 0x0200,
            VirtioGpuCmd::CtxDestroy => 0x0201,
            VirtioGpuCmd::CtxAttachResource => 0x0202,
            VirtioGpuCmd::CtxDetachResource => 0x0203,
            VirtioGpuCmd::ResourceCreate3d => 0x0204,
            VirtioGpuCmd::TransferToHost3d => 0x0205,
            VirtioGpuCmd::TransferFromHost3d => 0x0206,
            VirtioGpuCmd::SubmitCmd3d => 0x0207,
            VirtioGpuCmd::ResourceMapBlob => 0x0208,
            VirtioGpuCmd::ResourceUnmapBlob => 0x0209,
            VirtioGpuCmd::UpdateCursor => 0x0300,
            VirtioGpuCmd::MoveCursor => 0x0301,
        }
    }
}

/// Responses.
#[derive(Clone, Copy, Debug, PartialEq, Eq, Structural)]
pub enum VirtioGpuResp {
    OkNodata,
    OkDisplayInfo,
    OkCapsetInfo,
    OkCapset,
    OkEdid,
    OkResourceUuid,
    OkMapInfo,
    ErrUnspec,
    ErrOutOfMemory,
    ErrInvalidScanoutId,
    ErrInvalidResourceId,
    ErrInvalidContextId,
    ErrInvalidParameter,
}

impl VirtioGpuResp {
    /// Number of a response.
    pub open spec fn number(self) -> u32 {
        match self {
            VirtioGpuResp::OkNodata => 0x1100,
            VirtioGpuResp::OkDisplayInfo => 0x1101,
            VirtioGpuResp::OkCapsetInfo => 0x1102,
            VirtioGpuResp::OkCapset => 0x1103,
            VirtioGpuResp::OkEdid => 0x1104,
            VirtioGpuResp::OkResourceUuid => 0x1105,
            VirtioGpuResp::OkMapInfo => 0x1106,
            VirtioGpuResp::ErrUnspec => 0x1200,
            VirtioGpuResp::ErrOutOfMemory => 0x1201,
            VirtioGpuResp::ErrInvalidScanoutId => 0x1202,
            VirtioGpuResp::ErrInvalidResourceId => 0x1203,
            VirtioGpuResp::ErrInvalidContextId => 0x1204,
            VirtioGpuResp::ErrInvalidParameter => 0x1205,
        }
    }

    /// Number of a response.
    pub fn code(self) -> (r: u32)
        ensures
            r == self.number(),
    {
        match self {
            VirtioGpuResp::OkNodata => 0x1100,
            VirtioGpuResp::OkDisplayInfo => 0x1101,
            VirtioGpuResp::OkCapsetInfo => 0x1102,
            VirtioGpuResp::OkCapset => 0x1103,
            VirtioGpuResp::OkEdid => 0x1104,
            VirtioGpuResp::OkResourceUuid => 0x1105,
            VirtioGpuResp::OkMapInfo => 0x1106,
            VirtioGpuResp::ErrUnspec => 0x1200,
            VirtioGpuResp::ErrOutOfMemory => 0x1201,
            VirtioGpuResp::ErrInvalidScanoutId => 0x1202,
            VirtioGpuResp::ErrInvalidResourceId => 0x1203,
            VirtioGpuResp::ErrInvalidContextId => 0x1204,
            VirtioGpuResp::ErrInvalidParameter => 0x1205,
        }
    }
}

/// Pixel formats.
#[derive(Clone, Copy, Debug, PartialEq, Eq, Structural)]
pub enum VirtioGpuFormat {
    B8G8R8A8Unorm,
    B8G8R8X8Unorm,
    A8R8G8B8Unorm,
    X8R8G8B8Unorm,
    R8G8B8A8Unorm,
    X8B8G8R8Unorm,
    A8B8G8R8Unorm,
    R8G8B8X8Unorm,
}

impl VirtioGpuFormat {
    /// Number of a format.
    pub open spec fn number(self) -> u32 {
        match self {
            VirtioGpuFormat::B8G8R8A8Unorm => 1,
            VirtioGpuFormat::B8G8R8X8Unorm => 2,
            VirtioGpuFormat::A8R8G8B8Unorm => 3,
            VirtioGpuFormat::X8R8G8B8Unorm => 4,
            VirtioGpuFormat::R8G8B8A8Unorm => 67,
            VirtioGpuFormat::X8B8G8R8Unorm => 68,
            VirtioGpuFormat::A8B8G8R8Unorm => 121,
            VirtioGpuFormat::R8G8B8X8Unorm => 134,
        }
    }

    /// Number of a format.
    pub fn code(self) -> (r: u32)
        ensures
            r == self.number(),
    {
        match self {
            VirtioGpuFormat::B8G8R8A8Unorm => 1,
            VirtioGpuFormat::B8G8R8X8Unorm => 2,
            VirtioGpuFormat::A8R8G8B8Unorm => 3,
            VirtioGpuFormat::X8R8G8B8Unorm => 4,
            VirtioGpuFormat::R8G8B8A8Unorm => 67,
            VirtioGpuFormat::X8B8G8R8Unorm => 68,
            VirtioGpuFormat::A8B8G8R8Unorm => 121,
            VirtioGpuFormat::R8G8B8X8Unorm => 134,
        }
    }
}

/// Size of a header.
pub const HDR_SIZE: usize = 24;

/// Size of a command that creates a resource.
pub const CREATE_2D_SIZE: usize = 40;

/// Size of a command that attaches one piece of memory.
pub const ATTACH_BACKING_SIZE: usize = 48;

/// Size of a command that sets a scanout.
pub const SET_SCANOUT_SIZE: usize = 48;

/// Size of a command that transfers pixels.
pub const TRANSFER_2D_SIZE: usize = 56;

/// Size of a command that flushes a resource.
pub const FLUSH_SIZE: usize = 48;

/// Number of displays in a response.
pub const MAX_SCANOUTS: usize = 16;

/// Size of the response with all displays: a header and 24 bytes for each.
pub const DISPLAY_INFO_SIZE: usize = 408;

/// Four bytes of an integer.
pub open spec fn le32(v: u32) -> Seq<u8> {
    seq![
        (v % 0x100) as u8,
        (v / 0x100 % 0x100) as u8,
        (v / 0x1_0000 % 0x100) as u8,
        (v / 0x100_0000) as u8,
    ]
}

/// Eight bytes of an integer.
pub open spec fn le64(v: u64) -> Seq<u8> {
    le32((v % 0x1_0000_0000) as u32) + le32((v / 0x1_0000_0000) as u32)
}

/// The integer in four bytes.
pub open spec fn le32_value(b: Seq<u8>, at: int) -> u32 {
    (b[at] + b[at + 1] * 0x100 + b[at + 2] * 0x1_0000 + b[at + 3] * 0x100_0000) as u32
}

/// Appends four bytes of an integer.
fn push32(b: &mut Vec<u8>, v: u32)
    ensures
        final(b)@ == old(b)@ + le32(v),
{
    assert(v & 0xff == v % 0x100 && (v >> 8) & 0xff == v / 0x100 % 0x100 && (v >> 16) & 0xff == v
        / 0x1_0000 % 0x100 && v >> 24 == v / 0x100_0000 && v >> 24 <= 0xff) by (bit_vector);
    b.push((v & 0xff) as u8);
    b.push(((v >> 8) & 0xff) as u8);
    b.push(((v >> 16) & 0xff) as u8);
    b.push((v >> 24) as u8);
    assert(b@ =~= old(b)@ + le32(v));
}

/// Appends eight bytes of an integer.
fn push64(b: &mut Vec<u8>, v: u64)
    ensures
        final(b)@ == old(b)@ + le64(v),
{
    push32(b, (v % 0x1_0000_0000) as u32);
    push32(b, (v / 0x1_0000_0000) as u32);
    assert(b@ =~= old(b)@ + le64(v));
}

/// Bytes of a header: the number of the command, then zeros.
pub open spec fn header_bytes(type_: u32) -> Seq<u8> {
    le32(type_) + le32(0) + le64(0) + le32(0) + le32(0)
}

/// A header.
fn header(cmd: VirtioGpuCmd) -> (b: Vec<u8>)
    ensures
        b@ == header_bytes(cmd.number()),
        b@.len() == HDR_SIZE,
{
    let mut b: Vec<u8> = Vec::new();
    push32(&mut b, cmd.code());
    push32(&mut b, 0);
    push64(&mut b, 0);
    push32(&mut b, 0);
    push32(&mut b, 0);
    assert(b@ =~= header_bytes(cmd.number()));
    b
}

/// Bytes of a rectangle at the origin.
pub open spec fn rect_bytes(width: u32, height: u32) -> Seq<u8> {
    le32(0) + le32(0) + le32(width) + le32(height)
}

/// Appends a rectangle at the origin.
fn push_rect(b: &mut Vec<u8>, width: u32, height: u32)
    ensures
        final(b)@ == old(b)@ + rect_bytes(width, height),
{
    push32(b, 0);
    push32(b, 0);
    push32(b, width);
    push32(b, height);
    assert(b@ =~= old(b)@ + rect_bytes(width, height));
}

/// Bytes of the command that asks for all displays.
pub open spec fn display_info_bytes() -> Seq<u8> {
    header_bytes(0x0100)
}

/// The command that asks for all displays.
pub fn get_display_info() -> (b: Vec<u8>)
    ensures
        b@ == display_info_bytes(),
        b@.len() == HDR_SIZE,
{
    header(VirtioGpuCmd::GetDisplayInfo)
}

/// Bytes of the command that creates a resource of 32-bit pixels.
pub open spec fn create_2d_bytes(resource_id: u32, width: u32, height: u32) -> Seq<u8> {
    header_bytes(0x0101) + le32(resource_id) + le32(1) + le32(width) + le32(height)
}

/// The command that creates a resource of 32-bit pixels.
pub fn create_2d(resource_id: u32, width: u32, height: u32) -> (b: Vec<u8>)
    ensures
        b@ == create_2d_bytes(resource_id, width, height),
        b@.len() == CREATE_2D_SIZE,
{
    let mut b = header(VirtioGpuCmd::ResourceCreate2d);
    push32(&mut b, resource_id);
    push32(&mut b, VirtioGpuFormat::B8G8R8A8Unorm.code());
    push32(&mut b, width);
    push32(&mut b, height);
    assert(b@ =~= create_2d_bytes(resource_id, width, height));
    b
}

/// Bytes of the command that attaches one piece of memory to a resource.
pub open spec fn attach_backing_bytes(resource_id: u32, addr: u64, length: u32) -> Seq<u8> {
    header_bytes(0x0106) + le32(resource_id) + le32(1) + le64(addr) + le32(length) + le32(0)
}

/// The command that attaches one piece of memory to a resource.
pub fn attach_backing(resource_id: u32, addr: u64, length: u32) -> (b: Vec<u8>)
    ensures
        b@ == attach_backing_bytes(resource_id, addr, length),
        b@.len() == ATTACH_BACKING_SIZE,
{
    let mut b = header(VirtioGpuCmd::ResourceAttachBacking);
    push32(&mut b, resource_id);
    push32(&mut b, 1);
    push64(&mut b, addr);
    push32(&mut b, length);
    push32(&mut b, 0);
    assert(b@ =~= attach_backing_bytes(resource_id, addr, length));
    b
}

/// Bytes of the command that shows a resource on a scanout.
pub open spec fn set_scanout_bytes(
    scanout_id: u32,
    resource_id: u32,
    width: u32,
    height: u32,
) -> Seq<u8> {
    header_bytes(0x0103) + rect_bytes(width, height) + le32(scanout_id) + le32(resource_id)
}

/// The command that shows a resource on a scanout.
pub fn set_scanout(scanout_id: u32, resource_id: u32, width: u32, height: u32) -> (b: Vec<u8>)
    ensures
        b@ == set_scanout_bytes(scanout_id, resource_id, width, height),
        b@.len() == SET_SCANOUT_SIZE,
{
    let mut b = header(VirtioGpuCmd::SetScanout);
    push_rect(&mut b, width, height);
    push32(&mut b, scanout_id);
    push32(&mut b, resource_id);
    assert(b@ =~= set_scanout_bytes(scanout_id, resource_id, width, height));
    b
}

/// Bytes of the command that transfers all pixels of a resource.
pub open spec fn transfer_2d_bytes(resource_id: u32, width: u32, height: u32) -> Seq<u8> {
    header_bytes(0x0105) + rect_bytes(width, height) + le64(0) + le32(resource_id) + le32(0)
}

/// The command that transfers all pixels of a resource.
pub fn transfer_2d(resource_id: u32, width: u32, height: u32) -> (b: Vec<u8>)
    ensures
        b@ == transfer_2d_bytes(resource_id, width, height),
        b@.len() == TRANSFER_2D_SIZE,
{
    let mut b = header(VirtioGpuCmd::TransferToHost2d);
    push_rect(&mut b, width, height);
    push64(&mut b, 0);
    push32(&mut b, resource_id);
    push32(&mut b, 0);
    assert(b@ =~= transfer_2d_bytes(resource_id, width, height));
    b
}

/// Bytes of the command that shows the transferred pixels of a resource.
pub open spec fn flush_bytes(resource_id: u32, width: u32, height: u32) -> Seq<u8> {
    header_bytes(0x0104) + rect_bytes(width, height) + le32(resource_id) + le32(0)
}

/// The command that shows the transferred pixels of a resource.
pub fn flush(resource_id: u32, width: u32, height: u32) -> (b: Vec<u8>)
    ensures
        b@ == flush_bytes(resource_id, width, height),
        b@.len() == FLUSH_SIZE,
{
    let mut b = header(VirtioGpuCmd::ResourceFlush);
    push_rect(&mut b, width, height);
    push32(&mut b, resource_id);
    push32(&mut b, 0);
    assert(b@ =~= flush_bytes(resource_id, width, height));
    b
}

/// Reads four bytes as an integer.
fn read32(b: &Vec<u8>, at: usize) -> (v: u32)
    requires
        at + 4 <= b@.len(),
    ensures
        v == le32_value(b@, at as int),
{
    assert(at + 4 <= b.len());
    let b0: u32 = b[at] as u32;
    let b1: u32 = b[at + 1] as u32;
    let b2: u32 = b[at + 2] as u32;
    let b3: u32 = b[at + 3] as u32;
    b0 + b1 * 0x100 + b2 * 0x1_0000 + b3 * 0x100_0000
}

/// Number of enabled displays among the first `n` of a response.
pub open spec fn enabled_displays(resp: Seq<u8>, n: int) -> nat
    decreases n,
{
    if n <= 0 {
        0
    } else {
        enabled_displays(resp, n - 1) + if le32_value(resp, HDR_SIZE + (n - 1) * 24 + 16) != 0 {
            1nat
        } else {
            0
        }
    }
}

/// Number of scanouts that a response tells: the enabled displays of a response of
/// the right type, and at least one.
pub open spec fn scanouts_in(resp: Seq<u8>) -> u32 {
    let n = enabled_displays(resp, 16);
    if le32_value(resp, 0) == VirtioGpuResp::OkDisplayInfo.number() && n > 0 {
        n as u32
    } else {
        1
    }
}

/// Number of scanouts that a response tells.
pub fn parse_display_info(resp: &Vec<u8>) -> (n: u32)
    requires
        resp@.len() >= DISPLAY_INFO_SIZE,
    ensures
        n == scanouts_in(resp@),
        1 <= n <= 16,
{
    let resp_type: u32 = read32(resp, 0);
    let mut active: u32 = 0;
    let mut i: usize = 0;
    while i < MAX_SCANOUTS
        invariant
            i <= MAX_SCANOUTS,
            resp@.len() >= DISPLAY_INFO_SIZE,
            active == enabled_displays(resp@, i as int),
            active <= i,
        decreases MAX_SCANOUTS - i,
    {
        if read32(resp, HDR_SIZE + i * 24 + 16) != 0 {
            active += 1;
        }
        i += 1;
    }
    if resp_type == VirtioGpuResp::OkDisplayInfo.code() && active > 0 {
        active
    } else {
        1
    }
}

/// An integer can be read back from its four bytes.
pub proof fn read_gives_back_the_integer(v: u32)
    ensures
        le32_value(le32(v), 0) == v,
        le32(v).len() == 4,
{
    assert(v == v % 0x100 + (v / 0x100 % 0x100) * 0x100 + (v / 0x1_0000 % 0x100) * 0x1_0000 + (v
        / 0x100_0000) * 0x100_0000);
}

/// Numbers of commands and responses do not coincide.
pub proof fn commands_differ_from_responses(c: VirtioGpuCmd, r: VirtioGpuResp)
    ensures
        c.number() < 0x1000 <= r.number(),
{
}

/// The 32-bit integer at a place, with its least byte first.
pub open spec fn word(b: Seq<u8>, at: int) -> int {
    b[at] + 0x100 * b[at + 1] + 0x1_0000 * b[at + 2] + 0x100_0000 * b[at + 3]
}

/// An integer that is appended is the word there, and words before it stay.
proof fn lemma_appended_word(p: Seq<u8>, v: u32)
    ensures
        (p + le32(v)).len() == p.len() + 4,
        word(p + le32(v), p.len() as int) == v,
        forall|at: int| 0 <= at && at + 4 <= p.len() ==> #[trigger] word(p + le32(v), at) == word(p, at),
{
    let b = p + le32(v);
    let n = p.len() as int;
    assert(b[n] == le32(v)[0] && b[n + 1] == le32(v)[1] && b[n + 2] == le32(v)[2] && b[n + 3]
        == le32(v)[3]);
    assert(v == v % 0x100 + (v / 0x100 % 0x100) * 0x100 + (v / 0x1_0000 % 0x100) * 0x1_0000 + (v
        / 0x100_0000) * 0x100_0000);
}

/// A 64-bit integer that is appended stands as its lower word and its upper one.
proof fn lemma_appended_pair(p: Seq<u8>, v: u64)
    ensures
        (p + le64(v)).len() == p.len() + 8,
        word(p + le64(v), p.len() as int) == v as int % 0x1_0000_0000,
        word(p + le64(v), p.len() as int + 4) == v as int / 0x1_0000_0000,
        forall|at: int| 0 <= at && at + 4 <= p.len() ==> #[trigger] word(p + le64(v), at) == word(p, at),
{
    let lo = (v % 0x1_0000_0000) as u32;
    let hi = (v / 0x1_0000_0000) as u32;
    lemma_appended_word(p, lo);
    lemma_appended_word(p + le32(lo), hi);
    assert(p + le64(v) =~= p + le32(lo) + le32(hi));
}

/// The words of a header: the type of the command, then zeros.
proof fn lemma_header_words(t: u32)
    ensures
        header_bytes(t).len() == 24,
        word(header_bytes(t), 0) == t,
        forall|k: int| 1 <= k < 6 ==> #[trigger] word(header_bytes(t), 4 * k) == 0,
{
    let h = header_bytes(t);
    let e = Seq::<u8>::empty();
    lemma_appended_word(e, t);
    assert(e + le32(t) =~= le32(t));
    let b1 = le32(t);
    lemma_appended_word(b1, 0);
    let b2 = b1 + le32(0);
    lemma_appended_pair(b2, 0);
    let b3 = b2 + le64(0);
    lemma_appended_word(b3, 0);
    let b4 = b3 + le32(0);
    lemma_appended_word(b4, 0);
    assert(h == b4 + le32(0));
    assert(word(h, 4) == 0 && word(h, 8) == 0 && word(h, 12) == 0 && word(h, 16) == 0 && word(h, 20)
        == 0);
    assert forall|k: int| 1 <= k < 6 implies #[trigger] word(h, 4 * k) == 0 by {
        assert(k == 1 || k == 2 || k == 3 || k == 4 || k == 5);
    }
}

/// The words of a rectangle at the origin.
proof fn lemma_appended_rect(p: Seq<u8>, width: u32, height: u32)
    ensures
        (p + rect_bytes(width, height)).len() == p.len() + 16,
        word(p + rect_bytes(width, height), p.len() as int) == 0,
        word(p + rect_bytes(width, height), p.len() as int + 4) == 0,
        word(p + rect_bytes(width, height), p.len() as int + 8) == width,
        word(p + rect_bytes(width, height), p.len() as int + 12) == height,
        forall|at: int|
            0 <= at && at + 4 <= p.len() ==> #[trigger] word(p + rect_bytes(width, height), at)
                == word(p, at),
{
    lemma_appended_word(p, 0);
    let a = p + le32(0);
    lemma_appended_word(a, 0);
    let b = a + le32(0);
    lemma_appended_word(b, width);
    let c = b + le32(width);
    lemma_appended_word(c, height);
    assert(p + rect_bytes(width, height) =~= c + le32(height));
}

/// A command that creates an image names its number, its format with blue first and its size.
pub proof fn create_command_holds_its_fields(resource_id: u32, width: u32, height: u32)
    ensures
        ({
            let b = create_2d_bytes(resource_id, width, height);
            &&& b.len() == 40
            &&& word(b, 0) == 0x101
            &&& word(b, 24) == resource_id
            &&& word(b, 28) == 1
            &&& word(b, 32) == width
            &&& word(b, 36) == height
        }),
{
    let h = header_bytes(0x0101);
    lemma_header_words(0x0101);
    lemma_appended_word(h, resource_id);
    let a = h + le32(resource_id);
    lemma_appended_word(a, 1);
    let b = a + le32(1);
    lemma_appended_word(b, width);
    let c = b + le32(width);
    lemma_appended_word(c, height);
}

/// A command that attaches memory names the image and one piece of memory, by its address
/// and its length.
pub proof fn attach_command_holds_its_fields(resource_id: u32, addr: u64, length: u32)
    ensures
        ({
            let b = attach_backing_bytes(resource_id, addr, length);
            &&& b.len() == 48
            &&& word(b, 0) == 0x106
            &&& word(b, 24) == resource_id
            &&& word(b, 28) == 1
            &&& word(b, 32) + 0x1_0000_0000 * word(b, 36) == addr
            &&& word(b, 40) == length
            &&& word(b, 44) == 0
        }),
{
    let h = header_bytes(0x0106);
    lemma_header_words(0x0106);
    lemma_appended_word(h, resource_id);
    let a = h + le32(resource_id);
    lemma_appended_word(a, 1);
    let b = a + le32(1);
    lemma_appended_pair(b, addr);
    let c = b + le64(addr);
    lemma_appended_word(c, length);
    let d = c + le32(length);
    lemma_appended_word(d, 0);
}

/// A command that shows an image names the whole of it, the output and the image.
pub proof fn scanout_command_holds_its_fields(
    scanout_id: u32,
    resource_id: u32,
    width: u32,
    height: u32,
)
    ensures
        ({
            let b = set_scanout_bytes(scanout_id, resource_id, width, height);
            &&& b.len() == 48
            &&& word(b, 0) == 0x103
            &&& word(b, 24) == 0 && word(b, 28) == 0
            &&& word(b, 32) == width
            &&& word(b, 36) == height
            &&& word(b, 40) == scanout_id
            &&& word(b, 44) == resource_id
        }),
{
    let h = header_bytes(0x0103);
    lemma_header_words(0x0103);
    lemma_appended_rect(h, width, height);
    let a = h + rect_bytes(width, height);
    lemma_appended_word(a, scanout_id);
    let b = a + le32(scanout_id);
    lemma_appended_word(b, resource_id);
}

/// A command that transfers an image names the whole of it, from the start of its memory.
pub proof fn transfer_command_holds_its_fields(resource_id: u32, width: u32, height: u32)
    ensures
        ({
            let b = transfer_2d_bytes(resource_id, width, height);
            &&& b.len() == 56
            &&& word(b, 0) == 0x105
            &&& word(b, 24) == 0 && word(b, 28) == 0
            &&& word(b, 32) == width
            &&& word(b, 36) == height
            &&& word(b, 40) == 0 && word(b, 44) == 0
            &&& word(b, 48) == resource_id
            &&& word(b, 52) == 0
        }),
{
    let h = header_bytes(0x0105);
    lemma_header_words(0x0105);
    lemma_appended_rect(h, width, height);
    let a = h + rect_bytes(width, height);
    lemma_appended_pair(a, 0);
    let b = a + le64(0);
    lemma_appended_word(b, resource_id);
    let c = b + le32(resource_id);
    lemma_appended_word(c, 0);
}

/// A command that flushes an image names the whole of it.
pub proof fn flush_command_holds_its_fields(resource_id: u32, width: u32, height: u32)
    ensures
        ({
            let b = flush_bytes(resource_id, width, height);
            &&& b.len() == 48
            &&& word(b, 0) == 0x104
            &&& word(b, 24) == 0 && word(b, 28) == 0
            &&& word(b, 32) == width
            &&& word(b, 36) == height
            &&& word(b, 40) == resource_id
            &&& word(b, 44) == 0
            &&& display_info_bytes().len() == 24
            &&& word(display_info_bytes(), 0) == 0x100
        }),
{
    let h = header_bytes(0x0104);
    lemma_header_words(0x0104);
    lemma_header_words(0x0100);
    lemma_appended_rect(h, width, height);
    let a = h + rect_bytes(width, height);
    lemma_appended_word(a, resource_id);
    let b = a + le32(resource_id);
    lemma_appended_word(b, 0);
}

/// The outputs of an answer are counted by their 24-byte records: one is enabled exactly if
/// the word 16 bytes into its record is not zero.
pub proof fn enabled_outputs_are_counted(resp: Seq<u8>, n: int)
    requires
        n >= 0,
    ensures
        enabled_displays(resp, 0) == 0,
        0 <= enabled_displays(resp, n) <= n,
        word(resp, 24 + 24 * n + 16) != 0 <==> enabled_displays(resp, n + 1) == enabled_displays(
            resp,
            n,
        ) + 1,
        word(resp, 24 + 24 * n + 16) == 0 <==> enabled_displays(resp, n + 1) == enabled_displays(
            resp,
            n,
        ),
    decreases n,
{
    if n > 0 {
        enabled_outputs_are_counted(resp, n - 1);
    }
    let m = n + 1;
    assert(m - 1 == n);
    assert(word(resp, 24 + 24 * n + 16) == le32_value(resp, HDR_SIZE + n * 24 + 16));
}

/// The device has as many outputs as its answer says are enabled, of 16; it counts as having
/// one if the answer is not about outputs or says that none is enabled.
pub proof fn device_has_at_least_one_output(resp: Seq<u8>)
    ensures
        ({
            let n = enabled_displays(resp, 16);
            &&& word(resp, 0) == 0x1101 && n > 0 ==> scanouts_in(resp) == n
            &&& word(resp, 0) != 0x1101 ==> scanouts_in(resp) == 1
            &&& n == 0 ==> scanouts_in(resp) == 1
        }),
{
    enabled_outputs_are_counted(resp, 16);
}

/// Commands and answers are numbered by group: those for images in the plane from 0x100, those
/// with contexts from 0x200, those for the cursor from 0x300, good answers from 0x1100 and
/// errors from 0x1200.
pub proof fn numbers_follow_their_group(c: VirtioGpuCmd, d: VirtioGpuCmd, r: VirtioGpuResp)
    ensures
        c.number() == d.number() <==> c == d,
        (c is GetDisplayInfo || c is ResourceCreate2d || c is ResourceUnref || c is SetScanout || c
            is ResourceFlush || c is TransferToHost2d || c is ResourceAttachBacking || c
            is ResourceDetachBacking || c is GetCapsetInfo || c is GetCapset || c is GetEdid)
            <==> 0x100 <= c.number() <= 0x10A,
        (c is UpdateCursor || c is MoveCursor) <==> 0x300 <= c.number() <= 0x301,
        0x100 <= c.number() <= 0x10A || 0x200 <= c.number() <= 0x209 || 0x300 <= c.number() <= 0x301,
        (r is ErrUnspec || r is ErrOutOfMemory || r is ErrInvalidScanoutId || r
            is ErrInvalidResourceId || r is ErrInvalidContextId || r is ErrInvalidParameter)
            <==> 0x1200 <= r.number() <= 0x1205,
        0x1100 <= r.number() <= 0x1106 || 0x1200 <= r.number() <= 0x1205,
{
}

} // verus!
