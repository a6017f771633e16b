use maios_kernel::bytes::{read_le_u16, read_le_u32, read_le_u64};
use maios_kernel::mhc;
use maios_kernel::mhc::device::{GpuDevice, QueueKind};
use maios_kernel::mhc::drivers::software::SoftwareGpuDevice;
use maios_kernel::mhc::drivers::virtio_gpu::display::{
    DisplayQuery, QueryAction, QueryEvent, SetupAction, SetupEvent, UpdateAction, UpdateStage,
};
use maios_kernel::mhc::drivers::virtio_gpu::probe::{
    CapKind, PciId, Probe, ProbeAction, ProbeEvent, VirtioCap, OFF_DEVICE_STATUS, OFF_QUEUE_SIZE,
    VIRTIO_STATUS_FEATURES_OK,
};
use maios_kernel::mhc::drivers::virtio_gpu::protocol;
use maios_kernel::mhc::drivers::virtio_gpu::protocol::{VirtioGpuCmd, VirtioGpuFormat, VirtioGpuResp};
use maios_kernel::mhc::drivers::virtio_gpu::virtqueue::{queue_layout, MemOp, PollStep};
use maios_kernel::mhc::drivers::virtio_gpu::VirtioGpuDevice;

fn caps() -> Vec<VirtioCap> {
    vec![
        VirtioCap { kind: CapKind::Other, bar: 1, bar_offset: 0, length: 16 },
        VirtioCap { kind: CapKind::Common, bar: 4, bar_offset: 0x100, length: 64 },
        VirtioCap { kind: CapKind::Notify, bar: 4, bar_offset: 0x3000, length: 16 },
    ]
}

fn devices() -> Vec<PciId> {
    vec![
        PciId { vendor_id: 0x8086, device_id: 0x1050 },
        PciId { vendor_id: 0x1AF4, device_id: 0x1050 },
    ]
}

fn ready_device() -> (VirtioGpuDevice, Probe) {
    let mut d = VirtioGpuDevice::new();
    let mut p = Probe::new();
    assert!(matches!(d.probe(&mut p, ProbeEvent::Devices(devices())), ProbeAction::OpenDevice(1)));
    assert!(matches!(d.probe(&mut p, ProbeEvent::Capabilities(caps())), ProbeAction::ReadBar(4)));
    assert!(matches!(d.probe(&mut p, ProbeEvent::BarBase(0xF000_0000)), ProbeAction::MapRegion(0xF000_0100, 64)));
    assert!(matches!(d.probe(&mut p, ProbeEvent::Mapped(0x5000)), ProbeAction::ReadBar(4)));
    assert!(matches!(d.probe(&mut p, ProbeEvent::BarBase(0xF000_0000)), ProbeAction::MapRegion(0xF000_3000, 4096)));
    assert!(matches!(d.probe(&mut p, ProbeEvent::Mapped(0x8000)), ProbeAction::Registers(_, r) if r.width == 4));
    assert!(matches!(
        d.probe(&mut p, ProbeEvent::Value(0b1001)),
        ProbeAction::Registers(_, r) if r.offset == OFF_DEVICE_STATUS
    ));
    assert!(matches!(
        d.probe(&mut p, ProbeEvent::Value(VIRTIO_STATUS_FEATURES_OK as u64)),
        ProbeAction::Registers(_, r) if r.offset == OFF_QUEUE_SIZE
    ));
    assert!(matches!(d.probe(&mut p, ProbeEvent::Value(256)), ProbeAction::Registers(_, _)));
    assert_eq!(p.q_size, 64);
    let layout = queue_layout(64);
    assert!(matches!(d.probe(&mut p, ProbeEvent::Value(0)), ProbeAction::AllocMemory(n) if n == layout.total));
    assert!(matches!(d.probe(&mut p, ProbeEvent::Memory(0x10_0000, 0x20_0000)), ProbeAction::Registers(_, _)));
    assert!(matches!(d.probe(&mut p, ProbeEvent::Value(0x0f)), ProbeAction::QueryScanouts));
    (d, p)
}

#[test]
fn probe_reaches_a_ready_device() {
    let (mut d, mut p) = ready_device();
    assert!(matches!(d.probe(&mut p, ProbeEvent::Scanouts(Some(2))), ProbeAction::Succeed));
    assert_eq!(p.scanouts, 2);
    assert!(d.capabilities().supports_graphics);
    assert!(d.capabilities().supports_compute);
    assert!(d.create_queue(QueueKind::Graphics).is_ok());
}

#[test]
fn probe_gives_up() {
    let mut p = Probe::new();
    assert!(matches!(
        p.step(ProbeEvent::Devices(vec![])),
        ProbeAction::GiveUp(_, "MHC/VirtIO-GPU: no VirtIO-GPU PCI device found")
    ));
    let mut p = Probe::new();
    p.step(ProbeEvent::Devices(devices()));
    assert!(matches!(
        p.step(ProbeEvent::Capabilities(vec![])),
        ProbeAction::GiveUp(_, "MHC/VirtIO-GPU: no VirtIO PCI capabilities found (not a modern device?)")
    ));
    let mut p = Probe::new();
    p.step(ProbeEvent::Devices(devices()));
    let only_notify = vec![VirtioCap { kind: CapKind::Notify, bar: 0, bar_offset: 0, length: 4 }];
    assert!(matches!(
        p.step(ProbeEvent::Capabilities(only_notify)),
        ProbeAction::GiveUp(_, "MHC/VirtIO-GPU: missing COMMON_CFG capability")
    ));
    let mut p = Probe::new();
    assert!(matches!(p.step(ProbeEvent::Failed("no bus")), ProbeAction::GiveUp(_, "no bus")));
}

#[test]
fn rejected_features_fail_the_device() {
    let mut p = Probe::new();
    p.step(ProbeEvent::Devices(devices()));
    let common = vec![VirtioCap { kind: CapKind::Common, bar: 0, bar_offset: 0, length: 64 }];
    p.step(ProbeEvent::Capabilities(common));
    p.step(ProbeEvent::BarBase(0x1000));
    p.step(ProbeEvent::Mapped(0x5000));
    p.step(ProbeEvent::Value(0));
    match p.step(ProbeEvent::Value(0)) {
        ProbeAction::GiveUp(writes, message) => {
            assert_eq!(message, "MHC/VirtIO-GPU: device rejected feature negotiation");
            assert_eq!(writes[0].offset, OFF_DEVICE_STATUS);
            assert_eq!(writes[0].value, 128);
        }
        _ => unreachable!(),
    }
}

#[test]
fn display_query_reads_the_scanouts() {
    let (_, p) = ready_device();
    let (mut q, first) = DisplayQuery::new(p.hardware(0));
    assert!(matches!(first, QueryAction::AllocMemory(432)));
    match q.step(QueryEvent::Memory(0x3000, 0x4000)) {
        QueryAction::Send(plan) => {
            assert_eq!(plan.bytes.len(), 24);
            assert_eq!(read_le_u32(&plan.bytes, 0), VirtioGpuCmd::GetDisplayInfo.code());
            assert!(matches!(plan.ops[0], MemOp::Write { .. }));
        }
        _ => unreachable!(),
    }
    assert!(matches!(q.step(QueryEvent::Counter(0)), QueryAction::Poll));
    assert!(matches!(q.step(QueryEvent::Counter(1)), QueryAction::ReadResponse(0x3018, 408)));
    let mut answer = vec![0u8; 408];
    answer[0] = 0x01;
    answer[1] = 0x11;
    answer[24 + 16] = 1;
    answer[24 + 24 + 16] = 1;
    assert!(matches!(q.step(QueryEvent::Response(answer)), QueryAction::Finish(Ok(2))));
    let (mut q, _) = DisplayQuery::new(p.hardware(0));
    assert!(matches!(q.step(QueryEvent::NoMemory("none")), QueryAction::Finish(Err("none"))));
}

#[test]
fn display_is_set_up_and_updated() {
    let (mut d, mut p) = ready_device();
    d.probe(&mut p, ProbeEvent::Scanouts(None));
    let (mut s, first) = d.begin_display(4, 2).ok().unwrap();
    assert!(matches!(first, SetupAction::AllocMemory(32)));
    assert!(matches!(d.setup_display_resource(&mut s, SetupEvent::Memory(0x7000, 0x9000)), SetupAction::AllocMemory(72)));
    match d.setup_display_resource(&mut s, SetupEvent::Memory(0xA000, 0xB000)) {
        SetupAction::Send(plan) => {
            assert_eq!(plan.bytes, protocol::create_2d(10, 4, 2));
            assert_eq!(read_le_u32(&plan.bytes, 24), 10);
            assert_eq!(read_le_u32(&plan.bytes, 32), 4);
            assert_eq!(read_le_u32(&plan.bytes, 36), 2);
        }
        _ => unreachable!(),
    }
    assert!(matches!(d.poll_answer(1, 1), PollStep::Again));
    assert!(matches!(d.poll_answer(2, 1), PollStep::Done));
    match d.setup_display_resource(&mut s, SetupEvent::Answered) {
        SetupAction::Send(plan) => {
            assert_eq!(plan.bytes, protocol::attach_backing(10, 0x9000, 32));
            assert_eq!(read_le_u64(&plan.bytes, 32), 0x9000);
        }
        _ => unreachable!(),
    }
    match d.setup_display_resource(&mut s, SetupEvent::Answered) {
        SetupAction::Send(plan) => assert_eq!(plan.bytes, protocol::set_scanout(0, 10, 4, 2)),
        _ => unreachable!(),
    }
    assert!(matches!(d.setup_display_resource(&mut s, SetupEvent::Answered), SetupAction::AllocMemory(80)));
    let scanout = match d.setup_display_resource(&mut s, SetupEvent::Memory(0xC000, 0xD000)) {
        SetupAction::Finish(Ok(v)) => v,
        _ => unreachable!(),
    };
    assert_eq!(scanout.width, 4);
    assert_eq!(scanout.backing_pa, 0x9000);
    let (stage, action) = d.update_scanout(&scanout, 7);
    assert!(matches!(action, UpdateAction::Finish(Err("VirtIO-GPU: pixel buffer too small"))));
    assert!(stage == UpdateStage::Finished);
    let (stage, action) = d.update_scanout(&scanout, 8);
    assert!(matches!(action, UpdateAction::CopyAndSend(8, _)));
    let (stage, action) = d.continue_scanout(&scanout, stage, true);
    assert!(matches!(action, UpdateAction::Send(_)));
    let (_, action) = d.continue_scanout(&scanout, stage, true);
    assert!(matches!(action, UpdateAction::Finish(Ok(()))));
    let mut m = mhc::init(Some(d), SoftwareGpuDevice::new()).ok().unwrap();
    assert_eq!(m.gpu_count(), 2);
    m.set_display(scanout);
    let slot = Some(m);
    assert!(mhc::has_display(&slot));
    assert!(mhc::flush_display(&slot, true, 4, 2).is_some());
    assert!(mhc::flush_display(&slot, true, 5, 2).is_none());
    assert!(mhc::flush_display(&slot, false, 4, 2).is_none());
}

#[test]
fn display_setup_reports_failures() {
    let (mut d, mut p) = ready_device();
    d.probe(&mut p, ProbeEvent::Scanouts(None));
    let (mut s, _) = d.begin_display(4, 2).ok().unwrap();
    assert!(matches!(
        d.setup_display_resource(&mut s, SetupEvent::NoMemory),
        SetupAction::Finish(Err("VirtIO-GPU: scanout DMA alloc failed"))
    ));
    let (mut s, _) = d.begin_display(4, 2).ok().unwrap();
    d.setup_display_resource(&mut s, SetupEvent::Memory(0x7000, 0x9000));
    d.setup_display_resource(&mut s, SetupEvent::Memory(0xA000, 0xB000));
    assert!(matches!(
        d.setup_display_resource(&mut s, SetupEvent::TimedOut),
        SetupAction::Finish(Err("VirtIO-GPU: command timed out"))
    ));
}

#[test]
fn queue_parts_do_not_overlap() {
    let l = queue_layout(64);
    assert_eq!(l.avail_off, 1024);
    assert_eq!(l.used_off, 1024 + 192);
    assert_eq!(l.total, 1216 + 6 + 512);
}

#[test]
fn protocol_codes() {
    assert_eq!(VirtioGpuCmd::GetDisplayInfo.code(), 0x100);
    assert_eq!(VirtioGpuCmd::ResourceFlush.code(), 0x104);
    assert_eq!(VirtioGpuResp::OkNodata.code(), 0x1100);
    assert_eq!(VirtioGpuResp::OkDisplayInfo.code(), 0x1101);
    assert_eq!(VirtioGpuFormat::B8G8R8A8Unorm.code(), 1);
    assert_eq!(protocol::transfer_2d(1, 2, 3).len(), 56);
    assert_eq!(protocol::flush(1, 2, 3).len(), 48);
}

#[test]
fn little_endian_integers() {
    let b = vec![0u8, 1, 2, 3, 4, 5, 6, 7, 8];
    assert_eq!(read_le_u16(&b, 1), 0x0201);
    assert_eq!(read_le_u32(&b, 1), 0x0403_0201);
    assert_eq!(read_le_u64(&b, 1), 0x0807_0605_0403_0201);
}
