//! Finding a virtual GPU and bringing it up.
//!
//! Bringing a device up alternates between decisions of the driver and work on the
//! hardware. `Probe` holds where the driver stands: it is told what the hardware
//! answered and says what to do next.

use crate::mhc::drivers::virtio_gpu::virtqueue;
use crate::mhc::drivers::virtio_gpu::virtqueue::{
    queue_layout, QueueLayout, VirtioHwState, MAX_QUEUE_SIZE,
};
use vstd::prelude::*;

verus! {

/// The driver has noticed the device.
pub const VIRTIO_STATUS_ACKNOWLEDGE: u8 = 1;

/// The driver knows how to drive the device.
pub const VIRTIO_STATUS_DRIVER: u8 = 2;

/// The driver is ready.
pub const VIRTIO_STATUS_DRIVER_OK: u8 = 4;

/// The features are agreed.
pub const VIRTIO_STATUS_FEATURES_OK: u8 = 8;

/// The device needs a reset.
pub const VIRTIO_STATUS_DEVICE_NEEDS_RESET: u8 = 64;

/// The driver has given up.
pub const VIRTIO_STATUS_FAILED: u8 = 128;

/// The device renders in three dimensions.
pub const VIRTIO_GPU_F_VIRGL: u32 = 1;

/// The device tells what a display can do.
pub const VIRTIO_GPU_F_EDID: u32 = 2;

/// Resources have unique identifiers.
pub const VIRTIO_GPU_F_RESOURCE_UUID: u32 = 4;

/// Resources can be blobs.
pub const VIRTIO_GPU_F_RESOURCE_BLOB: u32 = 8;

/// The device follows the first version, in the upper word of the features.
pub const VIRTIO_F_VERSION_1: u32 = 1;

/// Offsets of the common configuration.
pub const OFF_DEVICE_FEATURE_SEL: usize = 0x00;

pub const OFF_DEVICE_FEATURE: usize = 0x04;

pub const OFF_DRIVER_FEATURE_SEL: usize = 0x08;

pub const OFF_DRIVER_FEATURE: usize = 0x0c;

pub const OFF_CONFIG_MSIX_VEC: usize = 0x10;

pub const OFF_NUM_QUEUES: usize = 0x12;

pub const OFF_DEVICE_STATUS: usize = 0x14;

pub const OFF_CONFIG_GEN: usize = 0x15;

pub const OFF_QUEUE_SELECT: usize = 0x16;

pub const OFF_QUEUE_SIZE: usize = 0x18;

pub const OFF_QUEUE_MSIX_VEC: usize = 0x1a;

pub const OFF_QUEUE_ENABLE: usize = 0x1c;

pub const OFF_QUEUE_NOTIFY_OFF: usize = 0x1e;

pub const OFF_QUEUE_DESC: usize = 0x20;

pub const OFF_QUEUE_DRIVER: usize = 0x28;

pub const OFF_QUEUE_DEVICE: usize = 0x30;

/// Vendor of virtual devices.
pub const VIRTIO_VENDOR: u16 = 0x1AF4;

/// Virtual GPU.
pub const VIRTIO_GPU_DEVICE: u16 = 0x1050;

/// Vendor and device of a PCI device.
#[derive(Clone, Copy, Debug, PartialEq, Eq, Structural)]
pub struct PciId {
    pub vendor_id: u16,
    pub device_id: u16,
}

/// Kind of a capability.
#[derive(Clone, Copy, Debug, PartialEq, Eq, Structural)]
pub enum CapKind {
    /// Common configuration.
    Common,
    /// Doorbells.
    Notify,
    /// Any other.
    Other,
}

/// A capability: a region of a base address register.
#[derive(Clone, Copy, Debug, PartialEq, Eq, Structural)]
pub struct VirtioCap {
    pub kind: CapKind,
    pub bar: u8,
    pub bar_offset: u32,
    pub length: u32,
}

/// A write to a register of the common configuration, `width` bytes wide.
#[derive(Clone, Copy, Debug, PartialEq, Eq, Structural)]
pub struct RegWrite {
    pub offset: usize,
    pub width: u8,
    pub value: u64,
}

/// A read of a register of the common configuration.
#[derive(Clone, Copy, Debug, PartialEq, Eq, Structural)]
pub struct RegRead {
    pub offset: usize,
    pub width: u8,
}

/// What the driver waits for.
#[derive(Clone, Copy, Debug, PartialEq, Eq, Structural)]
pub enum ProbeStage {
    /// The PCI devices.
    Devices,
    /// The capabilities of the device.
    Capabilities,
    /// The base address of the common configuration.
    CommonBar,
    /// The mapping of the common configuration.
    CommonMap,
    /// The base address of the doorbells.
    NotifyBar,
    /// The mapping of the doorbells.
    NotifyMap,
    /// The features of the device.
    Features,
    /// The status after the features were written.
    FeaturesOk,
    /// The greatest queue size.
    QueueMax,
    /// The doorbell of the queue.
    NotifyOff,
    /// Memory for the queue.
    QueueMemory,
    /// The status after the driver was ready.
    Ready,
    /// The number of scanouts.
    Scanouts,
    /// Nothing: it succeeded or failed.
    Finished,
}

/// What the hardware answered.
#[derive(Debug)]
pub enum ProbeEvent {
    /// All PCI devices.
    Devices(Vec<PciId>),
    /// The capabilities of the opened device.
    Capabilities(Vec<VirtioCap>),
    /// A base address.
    BarBase(usize),
    /// The virtual address of a mapping.
    Mapped(usize),
    /// The physical address of a region is not valid.
    InvalidAddress,
    /// The value of a register.
    Value(u64),
    /// Zeroed memory: its virtual and its physical address.
    Memory(usize, u64),
    /// The number of scanouts, or nothing if the device does not tell.
    Scanouts(Option<u32>),
    /// The work failed.
    Failed(&'static str),
}

/// What to do next.
#[derive(Debug)]
pub enum ProbeAction {
    /// List all PCI devices.
    ListDevices,
    /// Let the device with this index access memory, and read its capabilities.
    OpenDevice(usize),
    /// Read a base address register.
    ReadBar(u8),
    /// Map a physical region.
    MapRegion(usize, usize),
    /// Write registers in order, then read one.
    Registers(Vec<RegWrite>, RegRead),
    /// Provide zeroed memory that is physically contiguous.
    AllocMemory(usize),
    /// Ask the device for its scanouts.
    QueryScanouts,
    /// Give up, after these writes.
    GiveUp(Vec<RegWrite>, &'static str),
    /// The device is up.
    Succeed,
}

/// What to do next, as mathematical values.
pub enum ProbeActionView {
    ListDevices,
    OpenDevice(usize),
    ReadBar(u8),
    MapRegion(usize, usize),
    Registers(Seq<RegWrite>, RegRead),
    AllocMemory(usize),
    QueryScanouts,
    GiveUp(Seq<RegWrite>, Seq<char>),
    Succeed,
}

impl View for ProbeAction {
    type V = ProbeActionView;

    open spec fn view(&self) -> ProbeActionView {
        match *self {
            ProbeAction::ListDevices => ProbeActionView::ListDevices,
            ProbeAction::OpenDevice(i) => ProbeActionView::OpenDevice(i),
            ProbeAction::ReadBar(b) => ProbeActionView::ReadBar(b),
            ProbeAction::MapRegion(a, n) => ProbeActionView::MapRegion(a, n),
            ProbeAction::Registers(w, r) => ProbeActionView::Registers(w@, r),
            ProbeAction::AllocMemory(n) => ProbeActionView::AllocMemory(n),
            ProbeAction::QueryScanouts => ProbeActionView::QueryScanouts,
            ProbeAction::GiveUp(w, m) => ProbeActionView::GiveUp(w@, m@),
            ProbeAction::Succeed => ProbeActionView::Succeed,
        }
    }
}

/// Where the driver stands.
#[derive(Clone, Copy, Debug, PartialEq, Eq, Structural)]
pub struct Probe {
    /// What the driver waits for.
    pub stage: ProbeStage,
    /// Capability of the common configuration.
    pub common: VirtioCap,
    /// There are doorbells.
    pub has_notify: bool,
    /// Capability of the doorbells.
    pub notify: VirtioCap,
    /// Address of the common configuration.
    pub cfg: usize,
    /// Address of the doorbells, or zero.
    pub notify_va: usize,
    /// Bytes between two doorbells.
    pub notify_multiplier: u32,
    /// Features of the device.
    pub features: u32,
    /// Queue size.
    pub q_size: u16,
    /// Doorbell of the queue.
    pub notify_queue_off: u16,
    /// Layout of the queue.
    pub layout: QueueLayout,
    /// Virtual address of the queue.
    pub queue_va: usize,
    /// Physical address of the queue.
    pub queue_pa: u64,
    /// Number of scanouts.
    pub scanouts: u32,
}

/// The device is a virtual GPU.
pub open spec fn is_gpu(d: PciId) -> bool {
    d.vendor_id == VIRTIO_VENDOR && d.device_id == VIRTIO_GPU_DEVICE
}

/// `i` is the first virtual GPU.
pub open spec fn is_first_gpu(devices: Seq<PciId>, i: int) -> bool {
    &&& 0 <= i < devices.len()
    &&& is_gpu(devices[i])
    &&& forall|k: int| 0 <= k < i ==> !is_gpu(#[trigger] devices[k])
}

/// `i` is the first capability of a kind.
pub open spec fn is_first_cap(caps: Seq<VirtioCap>, kind: CapKind, i: int) -> bool {
    &&& 0 <= i < caps.len()
    &&& caps[i].kind == kind
    &&& forall|k: int| 0 <= k < i ==> (#[trigger] caps[k]).kind != kind
}

/// The first capability of a kind, if there is one.
pub open spec fn first_cap(caps: Seq<VirtioCap>, kind: CapKind) -> Option<VirtioCap> {
    if exists|i: int| is_first_cap(caps, kind, i) {
        Some(caps[choose|i: int| is_first_cap(caps, kind, i)])
    } else {
        None
    }
}

/// A write of the status.
pub open spec fn status_write(value: u64) -> RegWrite {
    RegWrite { offset: OFF_DEVICE_STATUS, width: 1, value }
}

/// Resets the device, takes note of it, and asks for its features.
pub open spec fn handshake_writes() -> Seq<RegWrite> {
    seq![
        status_write(0),
        status_write(1),
        status_write(3),
        RegWrite { offset: OFF_DEVICE_FEATURE_SEL, width: 4, value: 0 },
    ]
}

/// Accepts the features of the device and the first version.
pub open spec fn feature_writes(features: u32) -> Seq<RegWrite> {
    seq![
        RegWrite { offset: OFF_DRIVER_FEATURE_SEL, width: 4, value: 0 },
        RegWrite { offset: OFF_DRIVER_FEATURE, width: 4, value: features as u64 },
        RegWrite { offset: OFF_DRIVER_FEATURE_SEL, width: 4, value: 1 },
        RegWrite { offset: OFF_DRIVER_FEATURE, width: 4, value: VIRTIO_F_VERSION_1 as u64 },
        status_write(11),
    ]
}

/// Selects the first queue.
pub open spec fn select_writes() -> Seq<RegWrite> {
    seq![RegWrite { offset: OFF_QUEUE_SELECT, width: 2, value: 0 }]
}

/// Tells the device where the queue is, enables it, and declares the driver ready.
pub open spec fn queue_writes(p: Probe) -> Seq<RegWrite> {
    seq![
        RegWrite { offset: OFF_QUEUE_SELECT, width: 2, value: 0 },
        RegWrite { offset: OFF_QUEUE_SIZE, width: 2, value: p.q_size as u64 },
        RegWrite { offset: OFF_QUEUE_MSIX_VEC, width: 2, value: 0xFFFF },
        RegWrite { offset: OFF_QUEUE_DESC, width: 8, value: p.queue_pa },
        RegWrite {
            offset: OFF_QUEUE_DRIVER,
            width: 8,
            value: (p.queue_pa + p.layout.avail_off) as u64,
        },
        RegWrite {
            offset: OFF_QUEUE_DEVICE,
            width: 8,
            value: (p.queue_pa + p.layout.used_off) as u64,
        },
        RegWrite { offset: OFF_QUEUE_ENABLE, width: 2, value: 1 },
        status_write(15),
    ]
}

/// Bit of the status that says that the features are agreed.
pub open spec fn features_agreed(status: u64) -> bool {
    status as u8 & VIRTIO_STATUS_FEATURES_OK != 0
}

/// Bit of the status that says that the device needs a reset.
pub open spec fn needs_reset(status: u64) -> bool {
    status as u8 & VIRTIO_STATUS_DEVICE_NEEDS_RESET != 0
}

impl Probe {
    /// The driver at the start.
    pub open spec fn fresh() -> Probe {
        let none = VirtioCap { kind: CapKind::Other, bar: 0, bar_offset: 0, length: 0 };
        Probe {
            stage: ProbeStage::Devices,
            common: none,
            has_notify: false,
            notify: none,
            cfg: 0,
            notify_va: 0,
            notify_multiplier: 0,
            features: 0,
            q_size: 0,
            notify_queue_off: 0,
            layout: QueueLayout { avail_off: 0, used_off: 0, total: 0 },
            queue_va: 0,
            queue_pa: 0,
            scanouts: 0,
        }
    }

    /// The driver after it gave up.
    pub open spec fn ended(self) -> Probe {
        Probe { stage: ProbeStage::Finished, ..self }
    }

    /// The driver at another stage.
    pub open spec fn at(self, stage: ProbeStage) -> Probe {
        Probe { stage, ..self }
    }

    /// The queue size that was agreed is usable, and the layout fits it.
    pub open spec fn wf(self) -> bool {
        &&& self.notify_va + 0x4_0000 <= usize::MAX
        &&& self.notify_multiplier <= 4
        &&& rank(self.stage) > 8 && self.stage != ProbeStage::Finished ==> 0 < self.q_size
            <= MAX_QUEUE_SIZE
        &&& rank(self.stage) > 9 && self.stage != ProbeStage::Finished ==> self.layout
            == virtqueue::layout_of(self.q_size)
        &&& rank(self.stage) > 10 && self.stage != ProbeStage::Finished ==> {
            &&& self.queue_va + 0x1000 <= usize::MAX
            &&& self.queue_pa + 0x1000 <= u64::MAX
        }
    }

    /// The event is an answer to what the driver waits for, and its addresses do not
    /// wrap around.
    pub open spec fn expects(self, e: ProbeEvent) -> bool {
        match (self.stage, e) {
            (ProbeStage::Finished, _) => false,
            (ProbeStage::Scanouts, ProbeEvent::Scanouts(n)) => n matches Some(k) ==> k >= 1,
            (ProbeStage::Scanouts, _) => false,
            (_, ProbeEvent::Failed(_)) => true,
            (ProbeStage::Devices, ProbeEvent::Devices(_)) => true,
            (ProbeStage::Capabilities, ProbeEvent::Capabilities(_)) => true,
            (ProbeStage::CommonBar, ProbeEvent::BarBase(b)) => b + self.common.bar_offset
                <= usize::MAX,
            (ProbeStage::NotifyBar, ProbeEvent::BarBase(b)) => b + self.notify.bar_offset
                <= usize::MAX,
            (ProbeStage::CommonMap, ProbeEvent::Mapped(_)) => true,
            (ProbeStage::NotifyMap, ProbeEvent::Mapped(va)) => va + 0x4_0000 <= usize::MAX,
            (ProbeStage::CommonMap, ProbeEvent::InvalidAddress) => true,
            (ProbeStage::NotifyMap, ProbeEvent::InvalidAddress) => true,
            (ProbeStage::Features, ProbeEvent::Value(_)) => true,
            (ProbeStage::FeaturesOk, ProbeEvent::Value(_)) => true,
            (ProbeStage::QueueMax, ProbeEvent::Value(_)) => true,
            (ProbeStage::NotifyOff, ProbeEvent::Value(_)) => true,
            (ProbeStage::QueueMemory, ProbeEvent::Memory(va, pa)) => va + 0x1000 <= usize::MAX
                && pa + 0x1000 <= u64::MAX,
            (ProbeStage::Ready, ProbeEvent::Value(_)) => true,
            _ => false,
        }
    }

    /// Where the driver stands after an event, and what it does next.
    pub open spec fn next(self, e: ProbeEvent) -> (Probe, ProbeActionView) {
        match (self.stage, e) {
            (ProbeStage::Scanouts, ProbeEvent::Scanouts(n)) => (
                Probe {
                    scanouts: match n {
                        Some(k) => k,
                        None => 1,
                    },
                    ..self.ended()
                },
                ProbeActionView::Succeed,
            ),
            (_, ProbeEvent::Failed(m)) => (
                self.ended(),
                ProbeActionView::GiveUp(Seq::empty(), m@),
            ),
            (ProbeStage::Devices, ProbeEvent::Devices(devices)) => if exists|i: int|
                is_first_gpu(devices@, i) {
                (
                    self.at(ProbeStage::Capabilities),
                    ProbeActionView::OpenDevice(
                        (choose|i: int| is_first_gpu(devices@, i)) as usize,
                    ),
                )
            } else {
                (
                    self.ended(),
                    ProbeActionView::GiveUp(
                        Seq::empty(),
                        "MHC/VirtIO-GPU: no VirtIO-GPU PCI device found"@,
                    ),
                )
            },
            (ProbeStage::Capabilities, ProbeEvent::Capabilities(caps)) => if caps@.len() == 0 {
                (
                    self.ended(),
                    ProbeActionView::GiveUp(
                        Seq::empty(),
                        "MHC/VirtIO-GPU: no VirtIO PCI capabilities found (not a modern device?)"@,
                    ),
                )
            } else {
                match first_cap(caps@, CapKind::Common) {
                    None => (
                        self.ended(),
                        ProbeActionView::GiveUp(
                            Seq::empty(),
                            "MHC/VirtIO-GPU: missing COMMON_CFG capability"@,
                        ),
                    ),
                    Some(c) => (
                        Probe {
                            stage: ProbeStage::CommonBar,
                            common: c,
                            has_notify: first_cap(caps@, CapKind::Notify) is Some,
                            notify: match first_cap(caps@, CapKind::Notify) {
                                Some(n) => n,
                                None => self.notify,
                            },
                            ..self
                        },
                        ProbeActionView::ReadBar(c.bar),
                    ),
                }
            },
            (ProbeStage::CommonBar, ProbeEvent::BarBase(base)) => (
                self.at(ProbeStage::CommonMap),
                ProbeActionView::MapRegion(
                    (base + self.common.bar_offset) as usize,
                    self.common.length as usize,
                ),
            ),
            (ProbeStage::CommonMap, ProbeEvent::InvalidAddress) => (
                self.ended(),
                ProbeActionView::GiveUp(
                    Seq::empty(),
                    "MHC/VirtIO-GPU: invalid common config physical address"@,
                ),
            ),
            (ProbeStage::CommonMap, ProbeEvent::Mapped(va)) => if self.has_notify {
                (
                    Probe { cfg: va, stage: ProbeStage::NotifyBar, ..self },
                    ProbeActionView::ReadBar(self.notify.bar),
                )
            } else {
                (
                    Probe {
                        cfg: va,
                        stage: ProbeStage::Features,
                        notify_va: 0,
                        notify_multiplier: 0,
                        ..self
                    },
                    ProbeActionView::Registers(
                        handshake_writes(),
                        RegRead { offset: OFF_DEVICE_FEATURE, width: 4 },
                    ),
                )
            },
            (ProbeStage::NotifyBar, ProbeEvent::BarBase(base)) => (
                self.at(ProbeStage::NotifyMap),
                ProbeActionView::MapRegion(
                    (base + self.notify.bar_offset) as usize,
                    if self.notify.length < 4096 {
                        4096
                    } else {
                        self.notify.length as usize
                    },
                ),
            ),
            (ProbeStage::NotifyMap, ProbeEvent::InvalidAddress) => (
                self.ended(),
                ProbeActionView::GiveUp(
                    Seq::empty(),
                    "MHC/VirtIO-GPU: invalid notify BAR address"@,
                ),
            ),
            (ProbeStage::NotifyMap, ProbeEvent::Mapped(va)) => (
                Probe {
                    notify_va: va,
                    notify_multiplier: 4,
                    stage: ProbeStage::Features,
                    ..self
                },
                ProbeActionView::Registers(
                    handshake_writes(),
                    RegRead { offset: OFF_DEVICE_FEATURE, width: 4 },
                ),
            ),
            (ProbeStage::Features, ProbeEvent::Value(v)) => (
                Probe { features: v as u32, stage: ProbeStage::FeaturesOk, ..self },
                ProbeActionView::Registers(
                    feature_writes(v as u32),
                    RegRead { offset: OFF_DEVICE_STATUS, width: 1 },
                ),
            ),
            (ProbeStage::FeaturesOk, ProbeEvent::Value(v)) => if features_agreed(v) {
                (
                    self.at(ProbeStage::QueueMax),
                    ProbeActionView::Registers(
                        select_writes(),
                        RegRead { offset: OFF_QUEUE_SIZE, width: 2 },
                    ),
                )
            } else {
                (
                    self.ended(),
                    ProbeActionView::GiveUp(
                        seq![status_write(128)],
                        "MHC/VirtIO-GPU: device rejected feature negotiation"@,
                    ),
                )
            },
            (ProbeStage::QueueMax, ProbeEvent::Value(v)) => if v as u16 == 0 {
                (
                    self.ended(),
                    ProbeActionView::GiveUp(
                        seq![status_write(128)],
                        "MHC/VirtIO-GPU: controlq size is 0"@,
                    ),
                )
            } else {
                (
                    Probe { q_size: virtqueue::queue_size(v as u16), stage: ProbeStage::NotifyOff, ..self },
                    ProbeActionView::Registers(
                        Seq::empty(),
                        RegRead { offset: OFF_QUEUE_NOTIFY_OFF, width: 2 },
                    ),
                )
            },
            (ProbeStage::NotifyOff, ProbeEvent::Value(v)) => (
                Probe {
                    notify_queue_off: v as u16,
                    layout: virtqueue::layout_of(self.q_size),
                    stage: ProbeStage::QueueMemory,
                    ..self
                },
                ProbeActionView::AllocMemory(virtqueue::layout_of(self.q_size).total),
            ),
            (ProbeStage::QueueMemory, ProbeEvent::Memory(va, pa)) => {
                let p = Probe { queue_va: va, queue_pa: pa, stage: ProbeStage::Ready, ..self };
                (
                    p,
                    ProbeActionView::Registers(
                        queue_writes(p),
                        RegRead { offset: OFF_DEVICE_STATUS, width: 1 },
                    ),
                )
            },
            (ProbeStage::Ready, ProbeEvent::Value(v)) => if needs_reset(v) {
                (
                    self.ended(),
                    ProbeActionView::GiveUp(
                        Seq::empty(),
                        "MHC/VirtIO-GPU: device signalled DEVICE_NEEDS_RESET"@,
                    ),
                )
            } else {
                (self.at(ProbeStage::Scanouts), ProbeActionView::QueryScanouts)
            },
            _ => (self, ProbeActionView::ListDevices),
        }
    }

    /// The queue as it is when the device is up: one command has been sent.
    pub open spec fn hw_state(self, sent: u16) -> VirtioHwState {
        VirtioHwState {
            common_cfg_va: self.cfg,
            notify_va: self.notify_va,
            notify_multiplier: self.notify_multiplier,
            desc_va: self.queue_va,
            avail_va: (self.queue_va + self.layout.avail_off) as usize,
            used_va: (self.queue_va + self.layout.used_off) as usize,
            desc_pa: self.queue_pa,
            avail_pa: (self.queue_pa + self.layout.avail_off) as u64,
            used_pa: (self.queue_pa + self.layout.used_off) as u64,
            q_size: self.q_size,
            avail_idx: sent,
            last_used_idx: sent,
            next_desc: (2 * sent) as u16,
            notify_queue_off: self.notify_queue_off,
        }
    }
}

/// The first capability of a kind.
fn find_cap(caps: &Vec<VirtioCap>, kind: CapKind) -> (r: Option<VirtioCap>)
    ensures
        r == first_cap(caps@, kind),
{
    let mut i: usize = 0;
    while i < caps.len()
        invariant
            i <= caps@.len(),
            forall|k: int| 0 <= k < i ==> (#[trigger] caps@[k]).kind != kind,
        decreases caps@.len() - i,
    {
        if caps[i].kind == kind {
            proof {
                assert(is_first_cap(caps@, kind, i as int));
                let j = choose|j: int| is_first_cap(caps@, kind, j);
                if i < j {
                    assert(caps@[i as int].kind != kind);
                } else if j < i {
                    assert(caps@[j].kind != kind);
                }
            }
            return Some(caps[i]);
        }
        i += 1;
    }
    None
}

/// Index of the first virtual GPU.
pub fn find_gpu(devices: &Vec<PciId>) -> (r: Option<usize>)
    ensures
        r is Some <==> exists|i: int| is_first_gpu(devices@, i),
        r matches Some(i) ==> is_first_gpu(devices@, i as int),
{
    let mut i: usize = 0;
    while i < devices.len()
        invariant
            i <= devices@.len(),
            forall|k: int| 0 <= k < i ==> !is_gpu(#[trigger] devices@[k]),
        decreases devices@.len() - i,
    {
        if devices[i].vendor_id == VIRTIO_VENDOR && devices[i].device_id == VIRTIO_GPU_DEVICE {
            assert(is_first_gpu(devices@, i as int));
            return Some(i);
        }
        i += 1;
    }
    None
}

/// There is one first virtual GPU.
proof fn lemma_first_gpu_is_unique(devices: Seq<PciId>, a: int, b: int)
    requires
        is_first_gpu(devices, a),
        is_first_gpu(devices, b),
    ensures
        a == b,
{
    if a < b {
        assert(!is_gpu(devices[a]));
    } else if b < a {
        assert(!is_gpu(devices[b]));
    }
}

/// A write of the status.
fn write_status(value: u8) -> (w: RegWrite)
    ensures
        w == status_write(value as u64),
{
    RegWrite { offset: OFF_DEVICE_STATUS, width: 1, value: value as u64 }
}

/// Resets the device, takes note of it, and asks for its features.
fn handshake() -> (w: Vec<RegWrite>)
    ensures
        w@ == handshake_writes(),
{
    assert(1u8 | 2u8 == 3u8) by (bit_vector);
    let w: Vec<RegWrite> = vec![
        write_status(0),
        write_status(VIRTIO_STATUS_ACKNOWLEDGE),
        write_status(VIRTIO_STATUS_ACKNOWLEDGE | VIRTIO_STATUS_DRIVER),
        RegWrite { offset: OFF_DEVICE_FEATURE_SEL, width: 4, value: 0 },
    ];
    assert(w@ =~= handshake_writes());
    w
}

/// Accepts the features of the device and the first version.
fn accept_features(features: u32) -> (w: Vec<RegWrite>)
    ensures
        w@ == feature_writes(features),
{
    assert(1u8 | 2u8 | 8u8 == 11u8) by (bit_vector);
    let w: Vec<RegWrite> = vec![
        RegWrite { offset: OFF_DRIVER_FEATURE_SEL, width: 4, value: 0 },
        RegWrite { offset: OFF_DRIVER_FEATURE, width: 4, value: features as u64 },
        RegWrite { offset: OFF_DRIVER_FEATURE_SEL, width: 4, value: 1 },
        RegWrite { offset: OFF_DRIVER_FEATURE, width: 4, value: VIRTIO_F_VERSION_1 as u64 },
        write_status(
            VIRTIO_STATUS_ACKNOWLEDGE | VIRTIO_STATUS_DRIVER | VIRTIO_STATUS_FEATURES_OK,
        ),
    ];
    assert(w@ =~= feature_writes(features));
    w
}

/// Tells the device where the queue is and declares the driver ready.
fn configure_queue(p: &Probe) -> (w: Vec<RegWrite>)
    requires
        p.layout.avail_off <= 0x1000,
        p.layout.used_off <= 0x1000,
        p.queue_pa + 0x1000 <= u64::MAX,
    ensures
        w@ == queue_writes(*p),
{
    assert(1u8 | 2u8 | 8u8 | 4u8 == 15u8) by (bit_vector);
    let w: Vec<RegWrite> = vec![
        RegWrite { offset: OFF_QUEUE_SELECT, width: 2, value: 0 },
        RegWrite { offset: OFF_QUEUE_SIZE, width: 2, value: p.q_size as u64 },
        RegWrite { offset: OFF_QUEUE_MSIX_VEC, width: 2, value: 0xFFFF },
        RegWrite { offset: OFF_QUEUE_DESC, width: 8, value: p.queue_pa },
        RegWrite {
            offset: OFF_QUEUE_DRIVER,
            width: 8,
            value: p.queue_pa + p.layout.avail_off as u64,
        },
        RegWrite {
            offset: OFF_QUEUE_DEVICE,
            width: 8,
            value: p.queue_pa + p.layout.used_off as u64,
        },
        RegWrite { offset: OFF_QUEUE_ENABLE, width: 2, value: 1 },
        write_status(
            VIRTIO_STATUS_ACKNOWLEDGE | VIRTIO_STATUS_DRIVER | VIRTIO_STATUS_FEATURES_OK
                | VIRTIO_STATUS_DRIVER_OK,
        ),
    ];
    assert(w@ =~= queue_writes(*p));
    w
}

impl Probe {
    /// Begins: the first thing to do is to list all PCI devices.
    pub fn new() -> (p: Self)
        ensures
            p == Probe::fresh(),
            p.wf(),
    {
        let none = VirtioCap { kind: CapKind::Other, bar: 0, bar_offset: 0, length: 0 };
        Probe {
            stage: ProbeStage::Devices,
            common: none,
            has_notify: false,
            notify: none,
            cfg: 0,
            notify_va: 0,
            notify_multiplier: 0,
            features: 0,
            q_size: 0,
            notify_queue_off: 0,
            layout: QueueLayout { avail_off: 0, used_off: 0, total: 0 },
            queue_va: 0,
            queue_pa: 0,
            scanouts: 0,
        }
    }

    /// Gives up.
    fn give_up(&mut self, message: &'static str) -> (a: ProbeAction)
        ensures
            *final(self) == old(self).ended(),
            a@ == ProbeActionView::GiveUp(Seq::empty(), message@),
    {
        self.stage = ProbeStage::Finished;
        let w: Vec<RegWrite> = Vec::new();
        assert(w@ =~= Seq::empty());
        ProbeAction::GiveUp(w, message)
    }

    /// Gives up and tells the device.
    fn fail_device(&mut self, message: &'static str) -> (a: ProbeAction)
        ensures
            *final(self) == old(self).ended(),
            a@ == ProbeActionView::GiveUp(seq![status_write(128)], message@),
    {
        self.stage = ProbeStage::Finished;
        let w: Vec<RegWrite> = vec![write_status(VIRTIO_STATUS_FAILED)];
        assert(w@ =~= seq![status_write(128)]);
        ProbeAction::GiveUp(w, message)
    }

    /// Takes an answer of the hardware and says what to do next.
    pub fn step(&mut self, event: ProbeEvent) -> (a: ProbeAction)
        requires
            old(self).wf(),
            old(self).expects(event),
        ensures
            final(self).wf(),
            *final(self) == old(self).next(event).0,
            a@ == old(self).next(event).1,
    {
        match event {
            ProbeEvent::Failed(m) => self.give_up(m),
            ProbeEvent::Scanouts(n) => {
                self.scanouts =
                match n {
                    Some(k) => k,
                    None => 1,
                };
                self.stage = ProbeStage::Finished;
                ProbeAction::Succeed
            },
            ProbeEvent::Devices(devices) => match find_gpu(&devices) {
                Some(i) => {
                    proof {
                        lemma_first_gpu_is_unique(
                            devices@,
                            i as int,
                            choose|j: int| is_first_gpu(devices@, j),
                        );
                    }
                    self.stage = ProbeStage::Capabilities;
                    ProbeAction::OpenDevice(i)
                },
                None => self.give_up("MHC/VirtIO-GPU: no VirtIO-GPU PCI device found"),
            },
            ProbeEvent::Capabilities(caps) => {
                if caps.len() == 0 {
                    return self.give_up(
                        "MHC/VirtIO-GPU: no VirtIO PCI capabilities found (not a modern device?)",
                    );
                }
                match find_cap(&caps, CapKind::Common) {
                    None => self.give_up("MHC/VirtIO-GPU: missing COMMON_CFG capability"),
                    Some(c) => {
                        self.common = c;
                        match find_cap(&caps, CapKind::Notify) {
                            Some(n) => {
                                self.has_notify = true;
                                self.notify = n;
                            },
                            None => {
                                self.has_notify = false;
                            },
                        }
                        self.stage = ProbeStage::CommonBar;
                        ProbeAction::ReadBar(c.bar)
                    },
                }
            },
            ProbeEvent::BarBase(base) => {
                if self.stage == ProbeStage::CommonBar {
                    self.stage = ProbeStage::CommonMap;
                    ProbeAction::MapRegion(
                        base + self.common.bar_offset as usize,
                        self.common.length as usize,
                    )
                } else {
                    self.stage = ProbeStage::NotifyMap;
                    let len: usize = if self.notify.length < 4096 {
                        4096
                    } else {
                        self.notify.length as usize
                    };
                    ProbeAction::MapRegion(base + self.notify.bar_offset as usize, len)
                }
            },
            ProbeEvent::InvalidAddress => {
                if self.stage == ProbeStage::CommonMap {
                    self.give_up("MHC/VirtIO-GPU: invalid common config physical address")
                } else {
                    self.give_up("MHC/VirtIO-GPU: invalid notify BAR address")
                }
            },
            ProbeEvent::Mapped(va) => {
                if self.stage == ProbeStage::CommonMap {
                    self.cfg = va;
                    if self.has_notify {
                        self.stage = ProbeStage::NotifyBar;
                        return ProbeAction::ReadBar(self.notify.bar);
                    }
                    self.notify_va = 0;
                    self.notify_multiplier = 0;
                } else {
                    self.notify_va = va;
                    self.notify_multiplier = 4;
                }
                self.stage = ProbeStage::Features;
                ProbeAction::Registers(
                    handshake(),
                    RegRead { offset: OFF_DEVICE_FEATURE, width: 4 },
                )
            },
            ProbeEvent::Value(v) => self.step_value(v),
            ProbeEvent::Memory(va, pa) => {
                self.queue_va = va;
                self.queue_pa = pa;
                self.stage = ProbeStage::Ready;
                let w = configure_queue(self);
                ProbeAction::Registers(w, RegRead { offset: OFF_DEVICE_STATUS, width: 1 })
            },
        }
    }

    /// Takes the value of a register.
    fn step_value(&mut self, v: u64) -> (a: ProbeAction)
        requires
            old(self).wf(),
            old(self).expects(ProbeEvent::Value(v)),
        ensures
            final(self).wf(),
            *final(self) == old(self).next(ProbeEvent::Value(v)).0,
            a@ == old(self).next(ProbeEvent::Value(v)).1,
    {
        match self.stage {
            ProbeStage::Features => {
                let features: u32 = #[verifier::truncate] (v as u32);
                self.features = features;
                self.stage = ProbeStage::FeaturesOk;
                ProbeAction::Registers(
                    accept_features(features),
                    RegRead { offset: OFF_DEVICE_STATUS, width: 1 },
                )
            },
            ProbeStage::FeaturesOk => {
                let status: u8 = #[verifier::truncate] (v as u8);
                if status & VIRTIO_STATUS_FEATURES_OK == 0 {
                    return self.fail_device("MHC/VirtIO-GPU: device rejected feature negotiation");
                }
                self.stage = ProbeStage::QueueMax;
                let w: Vec<RegWrite> = vec![
                    RegWrite { offset: OFF_QUEUE_SELECT, width: 2, value: 0 },
                ];
                assert(w@ =~= select_writes());
                ProbeAction::Registers(w, RegRead { offset: OFF_QUEUE_SIZE, width: 2 })
            },
            ProbeStage::QueueMax => {
                let qmax: u16 = #[verifier::truncate] (v as u16);
                if qmax == 0 {
                    return self.fail_device("MHC/VirtIO-GPU: controlq size is 0");
                }
                self.q_size =
                if qmax <= MAX_QUEUE_SIZE {
                    qmax
                } else {
                    MAX_QUEUE_SIZE
                };
                self.stage = ProbeStage::NotifyOff;
                let w: Vec<RegWrite> = Vec::new();
                assert(w@ =~= Seq::empty());
                ProbeAction::Registers(w, RegRead { offset: OFF_QUEUE_NOTIFY_OFF, width: 2 })
            },
            ProbeStage::NotifyOff => {
                let off: u16 = #[verifier::truncate] (v as u16);
                self.notify_queue_off = off;
                self.layout = queue_layout(self.q_size);
                self.stage = ProbeStage::QueueMemory;
                ProbeAction::AllocMemory(self.layout.total)
            },
            _ => {
                let status: u8 = #[verifier::truncate] (v as u8);
                if status & VIRTIO_STATUS_DEVICE_NEEDS_RESET != 0 {
                    return self.give_up("MHC/VirtIO-GPU: device signalled DEVICE_NEEDS_RESET");
                }
                self.stage = ProbeStage::Scanouts;
                ProbeAction::QueryScanouts
            },
        }
    }

    /// The queue, after `sent` commands have been sent and answered.
    pub fn hardware(&self, sent: u16) -> (hw: VirtioHwState)
        requires
            self.wf(),
            self.stage == ProbeStage::Scanouts,
            sent <= 1,
        ensures
            hw == self.hw_state(sent),
            hw.wf(),
    {
        assert(0 <= self.notify_queue_off * self.notify_multiplier <= 0xffff * 4)
            by (nonlinear_arith)
            requires
                0 <= self.notify_queue_off <= 0xffff,
                0 <= self.notify_multiplier <= 4,
        ;
        VirtioHwState {
            common_cfg_va: self.cfg,
            notify_va: self.notify_va,
            notify_multiplier: self.notify_multiplier,
            desc_va: self.queue_va,
            avail_va: self.queue_va + self.layout.avail_off,
            used_va: self.queue_va + self.layout.used_off,
            desc_pa: self.queue_pa,
            avail_pa: self.queue_pa + self.layout.avail_off as u64,
            used_pa: self.queue_pa + self.layout.used_off as u64,
            q_size: self.q_size,
            avail_idx: sent,
            last_used_idx: sent,
            next_desc: 2 * sent,
            notify_queue_off: self.notify_queue_off,
        }
    }
}

/// The driver is declared ready only after the device kept the agreed features, and
/// only with a queue that is not empty.
pub proof fn ready_needs_agreed_features(p: Probe, e: ProbeEvent)
    requires
        p.wf(),
        p.expects(e),
    ensures
        p.next(e).0.stage == ProbeStage::QueueMax ==> p.stage == ProbeStage::FeaturesOk && (
        e matches ProbeEvent::Value(v) && features_agreed(v)),
        p.next(e).0.stage == ProbeStage::NotifyOff ==> p.stage == ProbeStage::QueueMax
            && p.next(e).0.q_size > 0,
        p.next(e).0.stage == ProbeStage::QueueMemory ==> p.stage == ProbeStage::NotifyOff,
        p.next(e).0.stage == ProbeStage::Ready ==> p.stage == ProbeStage::QueueMemory,
        p.next(e).0.stage == ProbeStage::Scanouts ==> p.stage == ProbeStage::Ready,
        p.next(e).1 is Succeed ==> p.stage == ProbeStage::Scanouts,
{
}

/// The order in which the stages are passed.
pub open spec fn rank(s: ProbeStage) -> int {
    match s {
        ProbeStage::Devices => 0,
        ProbeStage::Capabilities => 1,
        ProbeStage::CommonBar => 2,
        ProbeStage::CommonMap => 3,
        ProbeStage::NotifyBar => 4,
        ProbeStage::NotifyMap => 5,
        ProbeStage::Features => 6,
        ProbeStage::FeaturesOk => 7,
        ProbeStage::QueueMax => 8,
        ProbeStage::NotifyOff => 9,
        ProbeStage::QueueMemory => 10,
        ProbeStage::Ready => 11,
        ProbeStage::Scanouts => 12,
        ProbeStage::Finished => 13,
    }
}

/// Bringing a device up takes a bounded number of steps.
pub proof fn probe_makes_progress(p: Probe, e: ProbeEvent)
    requires
        p.wf(),
        p.expects(e),
    ensures
        rank(p.stage) < rank(p.next(e).0.stage),
        p.next(e).0.stage == ProbeStage::Finished <==> (p.next(e).1 is GiveUp
            || p.next(e).1 is Succeed),
{
}

/// The device that is opened is the first with the vendor 0x1AF4 and the device 0x1050;
/// without one the search ends.
pub proof fn first_gpu_is_opened(p: Probe, devices: Vec<PciId>, i: int)
    requires
        p.stage == ProbeStage::Devices,
        devices@.len() <= usize::MAX,
    ensures
        ({
            let r = p.next(ProbeEvent::Devices(devices));
            let here = 0 <= i < devices@.len() && devices@[i].vendor_id == 0x1AF4
                && devices@[i].device_id == 0x1050;
            &&& here && (forall|k: int|
                0 <= k < i ==> (#[trigger] devices@[k]).vendor_id != 0x1AF4 || devices@[k].device_id
                    != 0x1050) ==> r.1 == ProbeActionView::OpenDevice(i as usize) && r.0.stage
                == ProbeStage::Capabilities
            &&& r.1 is GiveUp ==> !here
        }),
{
    let d = devices@;
    let here = 0 <= i < d.len() && d[i].vendor_id == 0x1AF4 && d[i].device_id == 0x1050;
    if here && (forall|k: int|
        0 <= k < i ==> (#[trigger] d[k]).vendor_id != 0x1AF4 || d[k].device_id != 0x1050) {
        assert(is_first_gpu(d, i));
        lemma_first_gpu_is_unique(d, i, choose|j: int| is_first_gpu(d, j));
    }
    if here {
        lemma_some_first_gpu(d, i);
    }
}

/// Where there is a GPU there is a first one.
proof fn lemma_some_first_gpu(d: Seq<PciId>, i: int)
    requires
        0 <= i < d.len(),
        is_gpu(d[i]),
    ensures
        exists|j: int| is_first_gpu(d, j),
    decreases i,
{
    if exists|k: int| 0 <= k < i && is_gpu(#[trigger] d[k]) {
        let k = choose|k: int| 0 <= k < i && is_gpu(#[trigger] d[k]);
        lemma_some_first_gpu(d, k);
    } else {
        assert(is_first_gpu(d, i));
    }
}

/// The registers of a device are where its first common capability says: at an offset in a
/// bar. The place to notify it is found in the same way, over a page at least; without
/// one it is never notified.
pub proof fn registers_are_mapped_by_capability(
    p: Probe,
    caps: Vec<VirtioCap>,
    i: int,
    base: usize,
    va: usize,
)
    requires
        base + p.common.bar_offset <= usize::MAX,
        base + p.notify.bar_offset <= usize::MAX,
    ensures
        p.stage == ProbeStage::Capabilities && 0 <= i < caps@.len() && caps@[i].kind
            == CapKind::Common && (forall|k: int|
            0 <= k < i ==> (#[trigger] caps@[k]).kind != CapKind::Common) ==> {
            let r = p.next(ProbeEvent::Capabilities(caps));
            r.0.common == caps@[i] && r.1 == ProbeActionView::ReadBar(caps@[i].bar) && r.0.stage
                == ProbeStage::CommonBar
        },
        p.stage == ProbeStage::CommonBar ==> (p.next(
            ProbeEvent::BarBase(base),
        ).1 matches ProbeActionView::MapRegion(a, n) && a == base + p.common.bar_offset && n
            == p.common.length),
        p.stage == ProbeStage::NotifyBar ==> (p.next(
            ProbeEvent::BarBase(base),
        ).1 matches ProbeActionView::MapRegion(a, n) && a == base + p.notify.bar_offset && n
            >= p.notify.length && n >= 4096 && (n == p.notify.length || n == 4096)),
        p.stage == ProbeStage::CommonMap && p.has_notify ==> {
            let r = p.next(ProbeEvent::Mapped(va));
            r.0.cfg == va && r.0.stage == ProbeStage::NotifyBar && r.1 == ProbeActionView::ReadBar(
                p.notify.bar,
            )
        },
        p.stage == ProbeStage::CommonMap && !p.has_notify ==> {
            let r = p.next(ProbeEvent::Mapped(va));
            r.0.cfg == va && r.0.stage == ProbeStage::Features && r.0.notify_va == 0
                && r.0.notify_multiplier == 0
        },
        p.stage == ProbeStage::NotifyMap ==> {
            let r = p.next(ProbeEvent::Mapped(va));
            r.0.notify_va == va && r.0.notify_multiplier == 4 && r.0.stage == ProbeStage::Features
        },
{
    let c = caps@;
    if 0 <= i < c.len() && c[i].kind == CapKind::Common && (forall|k: int|
        0 <= k < i ==> (#[trigger] c[k]).kind != CapKind::Common) {
        assert(is_first_cap(c, CapKind::Common, i));
        let j = choose|j: int| is_first_cap(c, CapKind::Common, j);
        assert(is_first_cap(c, CapKind::Common, j));
        assert(i == j);
    }
}

/// The device is reset, greeted and asked for its features; the driver takes all of the first
/// 32 and the current version of the protocol, and asks whether that is agreed.
pub proof fn features_are_negotiated(p: Probe, v: u64, va: usize)
    requires
        p.stage == ProbeStage::Features,
    ensures
        ({
            let r = p.next(ProbeEvent::Value(v));
            let f = (v as int % 0x1_0000_0000) as u32;
            &&& r.0.features == f
            &&& r.0.stage == ProbeStage::FeaturesOk
            &&& r.1 matches ProbeActionView::Registers(w, q) && q.offset == 0x14 && q.width == 1
                && w.len() == 5 && w[0] == (RegWrite { offset: 8, width: 4, value: 0 }) && w[1] == (
            RegWrite { offset: 12, width: 4, value: f as u64 }) && w[2] == (RegWrite {
                offset: 8,
                width: 4,
                value: 1,
            }) && w[3] == (RegWrite { offset: 12, width: 4, value: 1 }) && w[4] == (RegWrite {
                offset: 0x14,
                width: 1,
                value: 11,
            })
        }),
        (Probe { stage: ProbeStage::NotifyMap, ..p }).next(
            ProbeEvent::Mapped(va),
        ).1 matches ProbeActionView::Registers(w, q) && q.offset == 4 && q.width == 4 && w.len()
            == 4 && w[0] == (RegWrite { offset: 0x14, width: 1, value: 0 }) && w[1] == (RegWrite {
            offset: 0x14,
            width: 1,
            value: 1,
        }) && w[2] == (RegWrite { offset: 0x14, width: 1, value: 3 }) && w[3] == (RegWrite {
            offset: 0,
            width: 4,
            value: 0,
        }),
        (Probe { stage: ProbeStage::CommonMap, has_notify: false, ..p }).next(
            ProbeEvent::Mapped(va),
        ).1 == (Probe { stage: ProbeStage::NotifyMap, ..p }).next(ProbeEvent::Mapped(va)).1,
{
    assert(v as u32 == v % 0x1_0000_0000) by (bit_vector);
}

/// A status that lacks the bit for agreed features ends the search, and so do a queue without
/// entries and a status with the bit that asks for a reset. The first two are reported to the
/// device.
pub proof fn refusals_end_the_probe(p: Probe, v: u64)
    ensures
        p.stage == ProbeStage::FeaturesOk ==> {
            let r = p.next(ProbeEvent::Value(v));
            &&& v as int / 8 % 2 == 1 ==> r.0.stage == ProbeStage::QueueMax
            &&& v as int / 8 % 2 == 0 ==> r.0.stage == ProbeStage::Finished && (
            r.1 matches ProbeActionView::GiveUp(w, _) && w == seq![
                RegWrite { offset: 0x14, width: 1, value: 128 },
            ])
        },
        p.stage == ProbeStage::QueueMax ==> {
            let r = p.next(ProbeEvent::Value(v));
            &&& v as int % 0x1_0000 == 0 <==> (r.1 matches ProbeActionView::GiveUp(w, _) && w
                == seq![RegWrite { offset: 0x14, width: 1, value: 128 }])
            &&& 0 < v as int % 0x1_0000 <= 64 ==> r.0.q_size == v as int % 0x1_0000
            &&& v as int % 0x1_0000 > 64 ==> r.0.q_size == 64
        },
        p.stage == ProbeStage::Ready ==> {
            let r = p.next(ProbeEvent::Value(v));
            &&& v as int / 64 % 2 == 0 ==> r.0.stage == ProbeStage::Scanouts && r.1
                == ProbeActionView::QueryScanouts
            &&& v as int / 64 % 2 == 1 ==> (r.1 matches ProbeActionView::GiveUp(w, _) && w.len()
                == 0)
        },
{
    assert((v as u8 & 8u8 != 0) == (v / 8 % 2 == 1) && (v as u8 & 64u8 != 0) == (v / 64 % 2 == 1)
        && v as u16 == v % 0x1_0000) by (bit_vector);
    if p.stage == ProbeStage::FeaturesOk && v as int / 8 % 2 == 0 {
        assert(seq![status_write(128)] =~= seq![RegWrite { offset: 0x14, width: 1, value: 128 }]);
    }
    assert(seq![status_write(128)] == seq![RegWrite { offset: 0x14, width: 1, value: 128 }]);
}

/// The driver lays the queue out in the memory that it got and tells the device where its
/// three parts are, before it says that it is ready.
pub proof fn queue_is_registered(p: Probe, va: usize, pa: u64)
    requires
        p.wf(),
        p.stage == ProbeStage::QueueMemory,
        pa + 0x1000 <= u64::MAX,
        va + 0x1000 <= usize::MAX,
    ensures
        ({
            let r = p.next(ProbeEvent::Memory(va, pa));
            let h = r.0.hw_state(1);
            &&& r.0.stage == ProbeStage::Ready
            &&& r.1 matches ProbeActionView::Registers(w, q) && q.offset == 0x14 && q.width == 1
                && w.len() == 8 && w[0] == (RegWrite { offset: 0x16, width: 2, value: 0 }) && w[1]
                == (RegWrite { offset: 0x18, width: 2, value: p.q_size as u64 }) && w[2] == (
            RegWrite { offset: 0x1a, width: 2, value: 0xFFFF }) && w[3] == (RegWrite {
                offset: 0x20,
                width: 8,
                value: pa,
            }) && w[4] == (RegWrite { offset: 0x28, width: 8, value: h.avail_pa }) && w[5] == (
            RegWrite { offset: 0x30, width: 8, value: h.used_pa }) && w[6] == (RegWrite {
                offset: 0x1c,
                width: 2,
                value: 1,
            }) && w[7] == (RegWrite { offset: 0x14, width: 1, value: 15 })
            &&& h.desc_va == va && h.desc_pa == pa
            &&& h.avail_va - va == p.layout.avail_off && h.avail_pa - pa == p.layout.avail_off
            &&& h.used_va - va == p.layout.used_off && h.used_pa - pa == p.layout.used_off
            &&& h.avail_idx == 1 && h.last_used_idx == 1
            &&& h.q_size == p.q_size
            &&& h.notify_va == p.notify_va && h.notify_multiplier == p.notify_multiplier
            &&& h.notify_queue_off == p.notify_queue_off
            &&& h.common_cfg_va == p.cfg
        }),
{
    virtqueue::layout_parts_are_apart(p.q_size);
    virtqueue::queue_parts_are_close(p.q_size);
}

/// Any failure ends the search with its own message; a device that does not say how many
/// outputs it has counts as having one.
pub proof fn failure_is_passed_on(p: Probe, m: &'static str, n: Option<u32>)
    ensures
        p.stage != ProbeStage::Finished ==> {
            let r = p.next(ProbeEvent::Failed(m));
            r.1 == ProbeActionView::GiveUp(Seq::empty(), m@) && r.0 == (Probe {
                stage: ProbeStage::Finished,
                ..p
            })
        },
        p.stage == ProbeStage::Scanouts ==> {
            let r = p.next(ProbeEvent::Scanouts(n));
            r.1 is Succeed && r.0.scanouts == (if n is Some { n->Some_0 } else { 1 })
        },
{
}

} // verus!
