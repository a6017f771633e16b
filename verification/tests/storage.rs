use maios_kernel::name_map::NameMap;
use maios_kernel::nvme;
use maios_kernel::nvme::{
    Completion, CompletionEntry, InitAction, InitEvent, NvmeDrive, NvmeInit, ReadyStep, SubmissionEntry,
};
use maios_kernel::partition_device::PartitionDevice;
use maios_kernel::partition_table::{
    detect_entries, detect_gpt, detect_partitions, parse_gpt_header, parse_gpt_name, parse_mbr, Detection,
    MbrResult, PartitionType,
};
use maios_kernel::pe_loader;
use maios_kernel::pe_loader::{section_flags, SectionHeader};
use maios_kernel::text;
use maios_kernel::vfs_node::{FileOrDir, FileTree, VFSDirectory};

fn put(data: &mut [u8], at: usize, bytes: &[u8]) {
    data[at..at + bytes.len()].copy_from_slice(bytes);
}

fn namespace(blocks: u64, shift: u8) -> Vec<u8> {
    let mut id = vec![0u8; 4096];
    put(&mut id, 0, &blocks.to_le_bytes());
    id[26] = 1;
    id[128 + 4 + 2] = shift;
    id
}

fn drive() -> NvmeDrive {
    let mut n = NvmeInit::new();
    let cap: u64 = (2 << 32) | 0x3ff;
    match n.step(InitEvent::Value(cap)) {
        InitAction::Registers(w) => {
            assert_eq!(w.len(), 1);
            assert_eq!((w[0].offset, w[0].value), (nvme::REG_CC, 0));
        }
        _ => unreachable!(),
    }
    assert!(matches!(n.step(InitEvent::Value(1)), InitAction::Registers(w) if w.is_empty()));
    assert!(matches!(n.step(InitEvent::Value(0)), InitAction::AllocMemory(4096)));
    assert!(matches!(n.step(InitEvent::Memory(0x1000, 0xA000)), InitAction::AllocMemory(1024)));
    match n.step(InitEvent::Memory(0x2000, 0xB000)) {
        InitAction::Registers(w) => {
            assert_eq!((w[0].offset, w[0].value), (nvme::REG_AQA, 0x3f_003f));
            assert_eq!((w[1].offset, w[1].value), (nvme::REG_ASQ, 0xA000));
            assert_eq!((w[2].offset, w[2].value), (nvme::REG_ACQ, 0xB000));
            assert_eq!((w[3].offset, w[3].value), (nvme::REG_CC, nvme::CC_START));
        }
        _ => unreachable!(),
    }
    assert!(matches!(n.step(InitEvent::Value(0)), InitAction::Registers(_)));
    assert!(matches!(n.step(InitEvent::Value(1)), InitAction::AllocMemory(1024)));
    assert!(matches!(n.step(InitEvent::Memory(0x3000, 0xC000)), InitAction::AllocMemory(4096)));
    assert!(matches!(n.step(InitEvent::Memory(0x4000, 0xD000)), InitAction::Identify(0, 1)));
    assert!(matches!(n.step(InitEvent::Identified(vec![0; 4096])), InitAction::Identify(1, 0)));
    match n.step(InitEvent::Identified(namespace(1000, 12))) {
        InitAction::Command(c) => assert_eq!(c, nvme::create_io_cq(1, 0xC000, 64)),
        _ => unreachable!(),
    }
    match n.step(InitEvent::Done) {
        InitAction::Command(c) => assert_eq!(c, nvme::create_io_sq(1, 0xD000, 64, 1)),
        _ => unreachable!(),
    }
    match n.step(InitEvent::Done) {
        InitAction::Finish(Ok(d)) => d,
        _ => unreachable!(),
    }
}

#[test]
fn drive_is_initialised() {
    let d = drive();
    assert_eq!(d.size_in_blocks(), 1000);
    assert_eq!(d.block_size(), 4096);
    assert_eq!(d.len(), 4_096_000);
    assert!(nvme::is_nvme(1, 8, 2));
    assert!(!nvme::is_nvme(1, 6, 2));
    assert!(!nvme::is_nvme(1, 8, 1));
}

#[test]
fn drive_initialisation_fails() {
    let mut n = NvmeInit::new();
    n.step(InitEvent::Value(0xff));
    n.step(InitEvent::Value(0));
    assert!(matches!(n.step(InitEvent::Failed("no memory")), InitAction::Finish(Err("no memory"))));
    let mut n = NvmeInit::new();
    n.step(InitEvent::Value(0xff));
    n.step(InitEvent::Value(0));
    n.step(InitEvent::Memory(0x1000, 0));
    n.step(InitEvent::Memory(0x2000, 0));
    assert!(matches!(n.step(InitEvent::Value(2)), InitAction::Finish(Err("NVMe: CFS set during init"))));
}

#[test]
fn read_is_submitted_and_completed() {
    let mut d = drive();
    assert!(d.read_lba(100, 0x9000, 5).is_none());
    let (s, sectors) = d.read_lba(8192, 0x9000, 5).unwrap();
    assert_eq!(sectors, 2);
    assert_eq!(s.entry.cdw0 & 0xff, nvme::NVM_READ);
    assert_eq!(s.entry.cdw0 >> 16, s.cid as u32);
    assert_eq!(s.entry.nsid, 1);
    assert_eq!(s.entry.prp1, 0x9000);
    assert_eq!(s.entry.cdw10, 5);
    assert_eq!(s.entry.cdw12, 1);
    assert_eq!(s.slot, 0x4000);
    assert_eq!(s.doorbell.offset, 0x1000 + 2 * 16);
    assert_eq!(s.doorbell.value, 1);
    assert_eq!(s.doorbell.width, 4);
    let stale = CompletionEntry { dw0: 7, cid: s.cid, status: 0 };
    assert!(matches!(d.inner.poll_io_cq(s.cid, stale, 0), Completion::Again));
    let done = CompletionEntry { dw0: 7, cid: s.cid, status: 1 };
    match d.inner.poll_io_cq(s.cid, done, 0) {
        Completion::Done(7, w) => {
            assert_eq!(w.offset, 0x1000 + 3 * 16);
            assert_eq!(w.value, 1);
        }
        _ => unreachable!(),
    }
    let (s, _) = d.write_lba(4096, 0x9000, 5).unwrap();
    assert_eq!(s.entry.cdw0 & 0xff, nvme::NVM_WRITE);
    let failed = CompletionEntry { dw0: 0, cid: s.cid, status: 3 };
    assert!(matches!(d.inner.poll_io_cq(s.cid, failed, 0), Completion::Failed(_, _)));
    assert!(matches!(d.inner.poll_io_cq(s.cid, failed, nvme::IO_POLLS), Completion::TimedOut(_)));
}

#[test]
fn submission_queue_wraps() {
    let mut d = drive();
    let c = SubmissionEntry { cdw0: 6, nsid: 0, prp1: 0, prp2: 0, cdw10: 0, cdw11: 0, cdw12: 0 };
    for i in 0..63u16 {
        assert_eq!(d.inner.submit_admin(c).doorbell.value, i as u64 + 1);
    }
    assert_eq!(d.inner.submit_admin(c).doorbell.value, 0);
    assert_eq!(d.inner.submit_admin(c).slot, 0x1000);
    assert!(matches!(
        d.inner.poll_admin_cq(0, CompletionEntry { dw0: 0, cid: 0, status: 0 }, nvme::ADMIN_POLLS),
        Completion::TimedOut("NVMe: admin CQ poll timeout")
    ));
}

#[test]
fn ready_bit_is_awaited() {
    assert!(matches!(nvme::wait_ready(1, 1, 0), ReadyStep::Ready));
    assert!(matches!(nvme::wait_ready(0, 1, 0), ReadyStep::Again));
    assert!(matches!(nvme::wait_ready(2, 1, 0), ReadyStep::Failed("NVMe: controller fatal status")));
    assert!(matches!(
        nvme::wait_ready(0, 1, nvme::RESET_POLLS),
        ReadyStep::Failed("NVMe: timeout waiting for CSTS.RDY")
    ));
    assert_eq!(nvme::read_namespace(&namespace(7, 3)), Some((7, 512)));
    assert_eq!(nvme::read_namespace(&namespace(7, 200)), None);
    assert_eq!(nvme::bar0_address(0xF000_000F), 0xF000_0000);
}

fn mbr(entries: &[(usize, u8, u32, u32)]) -> Vec<u8> {
    let mut s = vec![0u8; 512];
    s[510] = 0x55;
    s[511] = 0xAA;
    for (slot, kind, start, count) in entries.iter() {
        let at = 446 + 16 * slot;
        s[at + 4] = *kind;
        put(&mut s, at + 8, &start.to_le_bytes());
        put(&mut s, at + 12, &count.to_le_bytes());
    }
    s
}

#[test]
fn mbr_partitions_are_numbered_as_found() {
    match parse_mbr(&mbr(&[(1, 0x83, 2048, 100), (3, 0x0c, 4096, 50)])) {
        MbrResult::Partitions(p) => {
            assert_eq!(p.len(), 2);
            assert_eq!(p[0].index, 0);
            assert_eq!(p[0].name, "Partition 0");
            assert_eq!(p[0].start_lba, 2048);
            assert_eq!(p[0].size_sectors, 100);
            assert!(matches!(p[0].partition_type, PartitionType::MbrType(0x83)));
            assert_eq!(p[1].name, "Partition 1");
        }
        _ => unreachable!(),
    }
    assert!(matches!(parse_mbr(&mbr(&[])), MbrResult::Empty));
    assert!(matches!(parse_mbr(&[0; 512]), MbrResult::Empty));
    assert!(matches!(parse_mbr(&[0; 100]), MbrResult::Empty));
    assert!(matches!(parse_mbr(&mbr(&[(0, 0xEE, 1, 1)])), MbrResult::Protective));
}

fn gpt_header(entries: u32, size: u32) -> Vec<u8> {
    let mut s = vec![0u8; 512];
    put(&mut s, 0, b"EFI PART");
    put(&mut s, 72, &2u64.to_le_bytes());
    put(&mut s, 80, &entries.to_le_bytes());
    put(&mut s, 84, &size.to_le_bytes());
    s
}

#[test]
fn gpt_partitions_are_found() {
    assert!(matches!(detect_partitions(None), Detection::Done(p) if p.is_empty()));
    assert!(matches!(detect_partitions(Some(mbr(&[(0, 0xEE, 1, 1)]))), Detection::ReadHeader));
    let h = match detect_gpt(Some(gpt_header(4, 128)), 512) {
        Detection::ReadEntries(h, sectors) => {
            assert_eq!(sectors, 1);
            assert_eq!(h.entries_lba, 2);
            h
        }
        _ => unreachable!(),
    };
    let mut e = vec![0u8; 512];
    e[128] = 0xAF;
    put(&mut e, 128 + 32, &100u64.to_le_bytes());
    put(&mut e, 128 + 40, &199u64.to_le_bytes());
    put(&mut e, 128 + 56, &[b'r', 0, b'o', 0, b'o', 0, b't', 0]);
    e[256] = 0x01;
    put(&mut e, 256 + 32, &200u64.to_le_bytes());
    put(&mut e, 256 + 40, &299u64.to_le_bytes());
    let p = detect_entries(Some(e), &h);
    assert_eq!(p.len(), 2);
    assert_eq!(p[0].start_lba, 100);
    assert_eq!(p[0].size_sectors, 100);
    assert_eq!(p[0].name, "root");
    assert!(matches!(p[0].partition_type, PartitionType::GptType(g) if g[0] == 0xAF));
    assert_eq!(p[1].start_lba, 200);
    assert!(detect_entries(None, &h).is_empty());
}

#[test]
fn gpt_header_is_checked() {
    assert!(parse_gpt_header(&[0; 512], 512).is_none());
    assert!(parse_gpt_header(&gpt_header(0, 128), 512).is_none());
    assert!(parse_gpt_header(&gpt_header(4, 55), 512).is_none());
    assert_eq!(parse_gpt_header(&gpt_header(5, 128), 512).unwrap().1, 2);
    assert!(matches!(detect_gpt(None, 512), Detection::Done(p) if p.is_empty()));
}

#[test]
fn gpt_names_are_utf16() {
    assert_eq!(parse_gpt_name(&[b'A', 0, 0xE9, 0, 0, 0, b'B', 0]), "A\u{e9}");
    assert_eq!(parse_gpt_name(&[0x3D, 0xD8, 0x00, 0xDE]), "\u{1F600}");
    assert_eq!(parse_gpt_name(&[0x00, 0xDE, b'x', 0]), "\u{FFFD}x");
    assert_eq!(parse_gpt_name(&[]), "");
}

#[test]
fn partition_access_stays_inside() {
    let d = PartitionDevice::new(100, 10, 512);
    assert_eq!(d.block_size(), 512);
    assert_eq!(d.size_in_blocks(), 10);
    assert_eq!(d.len(), 5120);
    assert_eq!(d.read_blocks(1024, 3), Ok(103));
    assert_eq!(d.read_blocks(1024, 9), Err("PartitionDevice: read beyond partition boundary"));
    assert_eq!(d.write_blocks(512, 9), Ok(109));
    assert_eq!(d.write_blocks(512, 10), Err("PartitionDevice: write beyond partition boundary"));
}

fn image() -> Vec<u8> {
    let mut d = vec![0u8; 0x400];
    put(&mut d, 0, b"MZ");
    put(&mut d, 0x3C, &0x80u32.to_le_bytes());
    put(&mut d, 0x80, b"PE\0\0");
    put(&mut d, 0x84, &0x8664u16.to_le_bytes());
    put(&mut d, 0x86, &2u16.to_le_bytes());
    put(&mut d, 0x94, &112u16.to_le_bytes());
    put(&mut d, 0x98, &0x020Bu16.to_le_bytes());
    put(&mut d, 0x98 + 16, &0x1010u32.to_le_bytes());
    put(&mut d, 0x98 + 24, &0x1_4000_0000u64.to_le_bytes());
    let s = 0x98 + 112;
    put(&mut d, s, b".text\0\0\0");
    put(&mut d, s + 8, &6u32.to_le_bytes());
    put(&mut d, s + 12, &0x1000u32.to_le_bytes());
    put(&mut d, s + 16, &4u32.to_le_bytes());
    put(&mut d, s + 20, &0x200u32.to_le_bytes());
    put(&mut d, s + 36, &0x6000_0020u32.to_le_bytes());
    let b = s + 40;
    put(&mut d, b, b".comment");
    put(&mut d, 0x200, &[0x90, 0x91, 0x92, 0x93]);
    d
}

#[test]
fn executable_is_loaded() {
    let d = image();
    assert!(pe_loader::is_pe(&d));
    let pe = pe_loader::load(&d).ok().unwrap();
    assert_eq!(pe.image_base, 0x1_4000_0000);
    assert_eq!(pe.entry_point, 0x1_4000_1010);
    assert_eq!(pe.sections.len(), 1);
    assert_eq!(pe.sections[0].virtual_address, 0x1000);
    assert_eq!(pe.sections[0].bytes[..6], [0x90, 0x91, 0x92, 0x93, 0, 0]);
    assert!(pe.sections[0].flags.executable && !pe.sections[0].flags.writable);
    let (coff, opt, off) = pe_loader::parse_header(&d).ok().unwrap();
    assert_eq!(coff.number_of_sections, 2);
    assert_eq!(opt.magic, 0x020B);
    let headers = pe_loader::section_headers(&d, off, 2).ok().unwrap();
    assert_eq!(headers[0].name_str(), ".text");
    assert_eq!(headers[1].name_str(), ".comment");
    assert!(pe_loader::pe_section_flags_to_pte(section_flags::IMAGE_SCN_MEM_WRITE).writable);
}

#[test]
fn section_name_needs_text() {
    let h: SectionHeader = pe_loader::section_headers(&image(), 0x98 + 112, 1).ok().unwrap()[0];
    let mut bad = h;
    bad.name[0] = 0xff;
    assert_eq!(bad.name_str(), "???");
}

fn load_error(change: fn(&mut Vec<u8>)) -> &'static str {
    let mut d = image();
    change(&mut d);
    pe_loader::load(&d).err().unwrap()
}

#[test]
fn broken_executables_are_refused() {
    assert_eq!(load_error(|d| d.truncate(10)), "pe_loader: data too small for DOS header");
    assert_eq!(load_error(|d| d[0] = 0), "pe_loader: invalid DOS magic (expected MZ)");
    assert_eq!(load_error(|d| d[0x3E] = 1), "pe_loader: e_lfanew points beyond data");
    assert_eq!(load_error(|d| d[0x80] = 0), "pe_loader: invalid PE signature (expected PE\\0\\0)");
    assert_eq!(load_error(|d| d.truncate(0x90)), "pe_loader: data too small for COFF header");
    assert_eq!(
        load_error(|d| d[0x84] = 0),
        "pe_loader: not an x86_64 PE (IMAGE_FILE_MACHINE_AMD64 expected)"
    );
    assert_eq!(load_error(|d| d.truncate(0x100)), "pe_loader: data too small for PE32+ optional header");
    assert_eq!(load_error(|d| d[0x99] = 1), "pe_loader: not a PE32+ binary (expected magic 0x020B)");
    assert_eq!(load_error(|d| d[0x87] = 1), "pe_loader: section headers extend beyond PE data");
    assert_eq!(
        load_error(|d| d[0x98 + 112 + 18] = 1),
        "pe_loader: section raw data exceeds PE input bounds"
    );
    assert_eq!(
        load_error(|d| d[0x86] = 0),
        "pe_loader: no loadable sections found in PE binary"
    );
}

#[test]
fn directory_finds_files_by_prefix() {
    let mut tree: FileTree<u32> = FileTree::new();
    let root = VFSDirectory::create_root(&mut tree, String::from("/"));
    let lib = VFSDirectory::create(&mut tree, String::from("lib"), root).unwrap();
    assert_eq!(tree.directory(root).get("lib"), Some(FileOrDir::Dir(lib)));
    assert!(tree.directory(lib).is_empty());
    let abc = tree.add_file(String::from("shell-abc"), 1, Some(lib));
    let aaa = tree.add_file(String::from("shell-aaa"), 2, Some(lib));
    assert_eq!(tree.insert(lib, FileOrDir::File(abc)), Ok(None));
    assert_eq!(tree.insert(lib, FileOrDir::File(aaa)), Ok(None));
    let shells = VFSDirectory::create(&mut tree, String::from("shells"), lib).unwrap();
    let d = tree.directory(lib);
    assert_eq!(d.get_file_starting_with("shell-"), Some(aaa));
    assert_eq!(d.get_file_starting_with("shell-ab"), Some(abc));
    assert_eq!(d.get_file_starting_with("shells"), None);
    assert_eq!(d.entry_count(), 3);
    assert_eq!(d.list(), vec!["shell-aaa", "shell-abc", "shells"]);
    assert_eq!(tree.remove(lib, FileOrDir::File(aaa)), Some(FileOrDir::File(aaa)));
    assert_eq!(tree.get_parent_dir(FileOrDir::File(aaa)), None);
    assert_eq!(tree.get_parent_dir(FileOrDir::File(abc)), Some(lib));
    assert_eq!(tree.directory(lib).get_file_starting_with("shell-"), Some(abc));
    assert_eq!(tree.remove(lib, FileOrDir::File(aaa)), None);
    assert_eq!(tree.directory(lib).get("shells"), Some(FileOrDir::Dir(shells)));
    assert_eq!(tree.directory(lib).get_name(), "lib");
    assert_eq!(tree.directory(lib).get_parent_dir(), Some(root));
    assert_eq!(*tree.content(abc), 1);
    assert_eq!(tree.get_name(FileOrDir::File(abc)), "shell-abc");
    assert_eq!(tree.get_parent_dir(FileOrDir::Dir(root)), None);
}

#[test]
fn a_replaced_child_has_no_parent() {
    let mut tree: FileTree<u32> = FileTree::new();
    let root = VFSDirectory::create_root(&mut tree, String::from("/"));
    let first = VFSDirectory::create(&mut tree, String::from("etc"), root).unwrap();
    let second = VFSDirectory::create(&mut tree, String::from("etc"), root).unwrap();
    assert_eq!(tree.directory(root).get("etc"), Some(FileOrDir::Dir(second)));
    assert_eq!(tree.directory(root).entry_count(), 1);
    assert_eq!(tree.get_parent_dir(FileOrDir::Dir(first)), None);
    assert_eq!(tree.get_parent_dir(FileOrDir::Dir(second)), Some(root));
    assert_eq!(tree.insert(root, FileOrDir::Dir(first)), Ok(Some(FileOrDir::Dir(second))));
    assert_eq!(tree.get_parent_dir(FileOrDir::Dir(second)), None);
    tree.set_parent_dir(FileOrDir::Dir(first), Some(root));
    assert_eq!(tree.remove(root, FileOrDir::Dir(first)), Some(FileOrDir::Dir(first)));
    assert_eq!(tree.get_parent_dir(FileOrDir::Dir(first)), None);
    assert!(tree.directory(root).is_empty());
}

#[test]
fn names_are_sorted() {
    let mut m = NameMap::new();
    assert!(m.insert(String::from("b"), 1).is_none());
    assert!(m.insert(String::from("a"), 2).is_none());
    assert_eq!(m.insert(String::from("b"), 3), Some(1));
    assert_eq!(m.names(), vec!["a", "b"]);
    assert_eq!(m.position("b"), Some(1));
    assert_eq!(m.get("c"), None);
    assert_eq!(m.remove("a"), Some(2));
    assert_eq!(m.len(), 1);
    assert!(text::text_less("ab", "abc"));
    assert!(!text::text_less("b", "abc"));
    assert!(text::starts_with("abc", "ab"));
    assert!(text::text_equal("x", "x"));
}
