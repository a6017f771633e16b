//! USB keyboards.
//!
//! Keyboards are configured for the boot protocol, in which a report of eight bytes
//! tells which keys are held. The difference of two reports gives the key events.

pub mod keymap;

use crate::decimal;
use crate::decimal::numbered;
use crate::usb_hid::keymap::{
    hid_modifiers_to_keyboard_modifiers, hid_usage_to_keycode, test_bit, KeyboardModifiers, Keycode,
};
use vstd::prelude::*;

verus! {

/// What happened to a key.
#[derive(Clone, Copy, Debug, PartialEq, Eq, Structural)]
pub enum KeyAction {
    Pressed,
    Released,
}

/// A key event.
#[derive(Clone, Copy, Debug, PartialEq, Eq, Structural)]
pub struct KeyEvent {
    pub keycode: Keycode,
    pub action: KeyAction,
    pub modifiers: KeyboardModifiers,
}

/// A USB device.
#[derive(Clone, Copy, Debug, PartialEq, Eq, Structural)]
pub struct UsbDevice {
    pub slot_id: u8,
    pub device_class: u8,
    pub vendor_id: u16,
    pub product_id: u16,
}

/// A control transfer.
#[derive(Clone, Copy, Debug, PartialEq, Eq, Structural)]
pub struct ControlRequest {
    pub slot_id: u8,
    pub request_type: u8,
    pub request: u8,
    pub value: u16,
    pub index: u16,
    pub length: u16,
}

/// Class of keyboards and mice.
pub const HID_CLASS: u8 = 3;

/// Size of a report.
pub const REPORT_SIZE: usize = 8;

/// Milliseconds between two reports.
pub const POLL_INTERVAL_MS: u64 = 8;

/// The device may be a keyboard: its class says so, or it leaves the class to its
/// interfaces.
pub open spec fn is_candidate(d: UsbDevice) -> bool {
    d.device_class == HID_CLASS || d.device_class == 0
}

/// Candidates among the first `n` devices, in order.
pub open spec fn candidates(devices: Seq<UsbDevice>, n: int) -> Seq<UsbDevice>
    decreases n,
{
    if n <= 0 {
        Seq::empty()
    } else if is_candidate(devices[n - 1]) {
        candidates(devices, n - 1).push(devices[n - 1])
    } else {
        candidates(devices, n - 1)
    }
}

/// The devices that may be keyboards.
pub fn hid_devices(devices: &Vec<UsbDevice>) -> (r: Vec<UsbDevice>)
    ensures
        r@ == candidates(devices@, devices@.len() as int),
{
    let mut r: Vec<UsbDevice> = Vec::new();
    let mut i: usize = 0;
    while i < devices.len()
        invariant
            i <= devices@.len(),
            r@ == candidates(devices@, i as int),
        decreases devices@.len() - i,
    {
        if devices[i].device_class == HID_CLASS || devices[i].device_class == 0 {
            r.push(devices[i]);
        }
        i += 1;
    }
    r
}

/// The request that activates the first configuration.
pub open spec fn set_configuration(slot_id: u8) -> ControlRequest {
    ControlRequest {
        slot_id,
        request_type: 0x00,
        request: 0x09,
        value: 1,
        index: 0,
        length: 0,
    }
}

/// The request that selects the boot protocol.
pub open spec fn set_protocol(slot_id: u8) -> ControlRequest {
    ControlRequest {
        slot_id,
        request_type: 0x21,
        request: 0x0B,
        value: 0,
        index: 0,
        length: 0,
    }
}

/// The request for a report.
pub open spec fn report_request(slot_id: u8) -> ControlRequest {
    ControlRequest {
        slot_id,
        request_type: 0xA1,
        request: 0x01,
        value: 0x0100,
        index: 0,
        length: 8,
    }
}

/// The request for a report.
pub fn get_report(slot_id: u8) -> (r: ControlRequest)
    ensures
        r == report_request(slot_id),
{
    ControlRequest {
        slot_id,
        request_type: 0xA1,
        request: 0x01,
        value: 0x0100,
        index: 0,
        length: 8,
    }
}

/// What configuring the keyboards waits for.
#[derive(Clone, Copy, Debug, PartialEq, Eq, Structural)]
pub enum ConfigStage {
    /// The activation of a configuration.
    Configuration,
    /// The selection of the protocol.
    Protocol,
    /// Nothing.
    Finished,
}

/// Configuring the keyboards, one after the other.
#[derive(Debug)]
pub struct HidConfiguration {
    devices: Vec<UsbDevice>,
    at: usize,
    stage: ConfigStage,
}

/// Where configuring stands.
#[verifier::ext_equal]
pub struct HidConfigurationView {
    /// Keyboards.
    pub devices: Seq<UsbDevice>,
    /// Keyboard that is being configured.
    pub at: int,
    /// What is waited for.
    pub stage: ConfigStage,
}

/// What to do next.
#[derive(Debug)]
pub enum ConfigAction {
    /// A control transfer.
    Transfer(ControlRequest),
    /// A keyboard is configured and polled by a task of this name. The transfer
    /// configures the next keyboard, if there is one.
    Configured(u8, String, Option<ControlRequest>),
    /// All keyboards have been seen to.
    Finish,
}

impl View for HidConfiguration {
    type V = HidConfigurationView;

    closed spec fn view(&self) -> HidConfigurationView {
        HidConfigurationView { devices: self.devices@, at: self.at as int, stage: self.stage }
    }
}

impl HidConfigurationView {
    /// The keyboard that is being configured.
    pub open spec fn slot(self) -> u8 {
        self.devices[self.at].slot_id
    }

    /// Configuring with the next keyboard.
    pub open spec fn next_device(self) -> HidConfigurationView {
        if self.at + 1 < self.devices.len() {
            HidConfigurationView {
                at: self.at + 1,
                stage: ConfigStage::Configuration,
                ..self
            }
        } else {
            HidConfigurationView { at: self.at + 1, stage: ConfigStage::Finished, ..self }
        }
    }

    /// The first request for the keyboard, if there is one.
    pub open spec fn first_request(self) -> Option<ControlRequest> {
        if self.stage == ConfigStage::Finished {
            None
        } else {
            Some(set_configuration(self.slot()))
        }
    }
}

impl HidConfiguration {
    /// There is a keyboard to configure unless all have been seen to.
    pub closed spec fn wf(&self) -> bool {
        self.stage != ConfigStage::Finished ==> self.at < self.devices@.len()
    }

    /// Begins to configure the keyboards among devices.
    pub fn new(devices: &Vec<UsbDevice>) -> (r: (Self, Option<ControlRequest>))
        ensures
            r.0.wf(),
            r.0@ == (HidConfigurationView {
                devices: candidates(devices@, devices@.len() as int),
                at: 0,
                stage: if candidates(devices@, devices@.len() as int).len() > 0 {
                    ConfigStage::Configuration
                } else {
                    ConfigStage::Finished
                },
            }),
            r.1 == r.0@.first_request(),
    {
        let hid = hid_devices(devices);
        if hid.len() == 0 {
            return (
                HidConfiguration { devices: hid, at: 0, stage: ConfigStage::Finished },
                None,
            );
        }
        let first = ControlRequest {
            slot_id: hid[0].slot_id,
            request_type: 0x00,
            request: 0x09,
            value: 1,
            index: 0,
            length: 0,
        };
        (
            HidConfiguration { devices: hid, at: 0, stage: ConfigStage::Configuration },
            Some(first),
        )
    }

    /// Goes on to the next keyboard.
    fn advance(&mut self) -> (r: Option<ControlRequest>)
        requires
            old(self).wf(),
            old(self)@.stage != ConfigStage::Finished,
        ensures
            final(self).wf(),
            final(self)@ == old(self)@.next_device(),
            r == final(self)@.first_request(),
    {
        let n: usize = self.devices.len();
        self.at = self.at + 1;
        if self.at < n {
            self.stage = ConfigStage::Configuration;
            Some(
                ControlRequest {
                    slot_id: self.devices[self.at].slot_id,
                    request_type: 0x00,
                    request: 0x09,
                    value: 1,
                    index: 0,
                    length: 0,
                },
            )
        } else {
            self.stage = ConfigStage::Finished;
            None
        }
    }

    /// Takes the outcome of a transfer and says what to do next. A keyboard that cannot
    /// be configured is passed over; one that does not know the boot protocol is not.
    pub fn step(&mut self, succeeded: bool) -> (a: ConfigAction)
        requires
            old(self).wf(),
            old(self)@.stage != ConfigStage::Finished,
        ensures
            final(self).wf(),
            match old(self)@.stage {
                ConfigStage::Configuration => if succeeded {
                    &&& final(self)@ == (HidConfigurationView {
                        stage: ConfigStage::Protocol,
                        ..old(self)@
                    })
                    &&& a == ConfigAction::Transfer(set_protocol(old(self)@.slot()))
                } else {
                    &&& final(self)@ == old(self)@.next_device()
                    &&& match final(self)@.first_request() {
                        Some(r) => a == ConfigAction::Transfer(r),
                        None => a is Finish,
                    }
                },
                _ => {
                    &&& final(self)@ == old(self)@.next_device()
                    &&& a matches ConfigAction::Configured(slot, name, next) && slot == old(
                        self,
                    )@.slot() && name@ == "usb_hid_poll_"@ + decimal::decimal(slot as nat) && next
                        == final(self)@.first_request()
                },
            },
    {
        let slot_id: u8 = self.devices[self.at].slot_id;
        if self.stage == ConfigStage::Configuration {
            if succeeded {
                self.stage = ConfigStage::Protocol;
                return ConfigAction::Transfer(
                    ControlRequest {
                        slot_id,
                        request_type: 0x21,
                        request: 0x0B,
                        value: 0,
                        index: 0,
                        length: 0,
                    },
                );
            }
            return match self.advance() {
                Some(r) => ConfigAction::Transfer(r),
                None => ConfigAction::Finish,
            };
        }
        let name = numbered("usb_hid_poll_", slot_id as u64);
        let next = self.advance();
        ConfigAction::Configured(slot_id, name, next)
    }
}

/// Event of a modifier bit that changed.
pub open spec fn modifier_event(cur_mods: u8, k: int) -> KeyEvent {
    KeyEvent {
        keycode: keymap::keycode_of((0xE0 + k) as u8).unwrap(),
        action: if keymap::bit(cur_mods, k) {
            KeyAction::Pressed
        } else {
            KeyAction::Released
        },
        modifiers: keymap::modifiers_of(cur_mods),
    }
}

/// Events of the first `n` modifier bits, in order.
pub open spec fn modifier_events(prev_mods: u8, cur_mods: u8, n: int) -> Seq<KeyEvent>
    decreases n,
{
    if n <= 0 {
        Seq::empty()
    } else if keymap::bit(prev_mods, n - 1) != keymap::bit(cur_mods, n - 1) {
        modifier_events(prev_mods, cur_mods, n - 1).push(modifier_event(cur_mods, n - 1))
    } else {
        modifier_events(prev_mods, cur_mods, n - 1)
    }
}

/// The key is held in a report.
pub open spec fn holds(report: Seq<u8>, usage: u8) -> bool {
    exists|i: int| 2 <= i < 8 && #[trigger] report[i] == usage
}

/// Events of the keys of the first slots of a report that are not held in another one.
pub open spec fn key_events(
    report: Seq<u8>,
    other: Seq<u8>,
    n: int,
    action: KeyAction,
    modifiers: KeyboardModifiers,
) -> Seq<KeyEvent>
    decreases n,
{
    if n <= 2 {
        Seq::empty()
    } else {
        let rest = key_events(report, other, n - 1, action, modifiers);
        let usage = report[n - 1];
        if usage != 0 && !holds(other, usage) && keymap::keycode_of(usage) is Some {
            rest.push(KeyEvent { keycode: keymap::keycode_of(usage).unwrap(), action, modifiers })
        } else {
            rest
        }
    }
}

/// Events between two reports: modifier keys first, then released and then pressed
/// keys.
pub open spec fn report_events(prev: Seq<u8>, cur: Seq<u8>) -> Seq<KeyEvent> {
    let m = keymap::modifiers_of(cur[0]);
    modifier_events(prev[0], cur[0], 8) + key_events(prev, cur, 8, KeyAction::Released, m)
        + key_events(cur, prev, 8, KeyAction::Pressed, m)
}

/// Appends the events of modifier keys that changed.
fn process_modifier_changes(
    events: &mut Vec<KeyEvent>,
    prev_mods: u8,
    cur_mods: u8,
    modifiers: KeyboardModifiers,
)
    requires
        modifiers == keymap::modifiers_of(cur_mods),
    ensures
        final(events)@ == old(events)@ + modifier_events(prev_mods, cur_mods, 8),
{
    let mut k: u8 = 0;
    assert(events@ + modifier_events(prev_mods, cur_mods, 0) =~= events@);
    while k < 8
        invariant
            k <= 8,
            modifiers == keymap::modifiers_of(cur_mods),
            events@ == old(events)@ + modifier_events(prev_mods, cur_mods, k as int),
        decreases 8 - k,
    {
        let ghost before = events@;
        let pressed: bool = test_bit(cur_mods, k);
        if test_bit(prev_mods, k) != pressed {
            if let Some(keycode) = hid_usage_to_keycode(0xE0 + k) {
                let action = if pressed {
                    KeyAction::Pressed
                } else {
                    KeyAction::Released
                };
                events.push(KeyEvent { keycode, action, modifiers });
            }
        }
        k += 1;
        assert(events@ =~= old(events)@ + modifier_events(prev_mods, cur_mods, k as int));
    }
}

/// Whether a key is held in a report.
fn is_held(report: &[u8; 8], usage: u8) -> (r: bool)
    ensures
        r == holds(report@, usage),
{
    let mut i: usize = 2;
    while i < 8
        invariant
            2 <= i <= 8,
            forall|k: int| 2 <= k < i ==> #[trigger] report@[k] != usage,
        decreases 8 - i,
    {
        if report[i] == usage {
            assert(report@[i as int] == usage);
            return true;
        }
        i += 1;
    }
    false
}

/// Appends the events of keys of one report that are not held in the other.
fn push_key_events(
    events: &mut Vec<KeyEvent>,
    report: &[u8; 8],
    other: &[u8; 8],
    action: KeyAction,
    modifiers: KeyboardModifiers,
)
    ensures
        final(events)@ == old(events)@ + key_events(report@, other@, 8, action, modifiers),
{
    let mut i: usize = 2;
    assert(events@ + key_events(report@, other@, 2, action, modifiers) =~= events@);
    while i < 8
        invariant
            2 <= i <= 8,
            events@ == old(events)@ + key_events(
                report@,
                other@,
                i as int,
                action,
                modifiers,
            ),
        decreases 8 - i,
    {
        let usage: u8 = report[i];
        if usage != 0 && !is_held(other, usage) {
            if let Some(keycode) = hid_usage_to_keycode(usage) {
                events.push(KeyEvent { keycode, action, modifiers });
            }
        }
        i += 1;
        assert(events@ =~= old(events)@ + key_events(
            report@,
            other@,
            i as int,
            action,
            modifiers,
        ));
    }
}

/// What a poll comes to.
#[derive(Debug)]
pub enum PollOutcome {
    /// The task ends with this code.
    Exit(isize),
    /// Nothing, this time.
    Retry,
    /// Key events, to be queued in order.
    Events(Vec<KeyEvent>),
}

/// Polling of a keyboard.
#[derive(Clone, Copy, Debug)]
pub struct HidPoller {
    prev_report: [u8; 8],
}

impl View for HidPoller {
    type V = Seq<u8>;

    closed spec fn view(&self) -> Seq<u8> {
        self.prev_report@
    }
}

impl HidPoller {
    /// A poller that has seen no key held.
    pub fn new() -> (p: Self)
        ensures
            p@ == seq![0u8, 0u8, 0u8, 0u8, 0u8, 0u8, 0u8, 0u8],
    {
        let p = HidPoller { prev_report: [0;8] };
        assert(p@ =~= seq![0u8, 0u8, 0u8, 0u8, 0u8, 0u8, 0u8, 0u8]);
        p
    }

    /// Takes a report, or nothing if the transfer failed. The task ends when the device
    /// is gone; a short report is ignored.
    pub fn hid_poll_task(&mut self, device_present: bool, report: Option<Vec<u8>>) -> (r:
        PollOutcome)
        ensures
            if !device_present {
                r == PollOutcome::Exit((-1) as isize) && final(self)@ == old(self)@
            } else {
                match report {
                    Some(b) => if b@.len() >= REPORT_SIZE {
                        &&& final(self)@ == b@.take(8)
                        &&& r matches PollOutcome::Events(e) && e@ == report_events(
                            old(self)@,
                            b@.take(8),
                        )
                    } else {
                        r is Retry && final(self)@ == old(self)@
                    },
                    None => r is Retry && final(self)@ == old(self)@,
                }
            },
    {
        if !device_present {
            return PollOutcome::Exit(-1);
        }
        let b = match report {
            Some(b) => b,
            None => {
                return PollOutcome::Retry;
            },
        };
        if b.len() < REPORT_SIZE {
            return PollOutcome::Retry;
        }
        let cur: [u8; 8] = [b[0], b[1], b[2], b[3], b[4], b[5], b[6], b[7]];
        assert(cur@ =~= b@.take(8));
        let modifiers = hid_modifiers_to_keyboard_modifiers(cur[0]);
        let mut events: Vec<KeyEvent> = Vec::new();
        process_modifier_changes(&mut events, self.prev_report[0], cur[0], modifiers);
        push_key_events(&mut events, &self.prev_report, &cur, KeyAction::Released, modifiers);
        push_key_events(&mut events, &cur, &self.prev_report, KeyAction::Pressed, modifiers);
        assert(events@ =~= report_events(self.prev_report@, cur@));
        self.prev_report = cur;
        PollOutcome::Events(events)
    }
}

/// The same report twice gives no events.
pub proof fn same_report_gives_no_events(report: Seq<u8>)
    requires
        report.len() == 8,
    ensures
        report_events(report, report).len() == 0,
{
    lemma_no_modifier_events(report[0], 8);
    lemma_no_key_events(report, 8, KeyAction::Released, keymap::modifiers_of(report[0]));
    lemma_no_key_events(report, 8, KeyAction::Pressed, keymap::modifiers_of(report[0]));
}

/// Unchanged modifiers give no events.
proof fn lemma_no_modifier_events(mods: u8, n: int)
    ensures
        modifier_events(mods, mods, n).len() == 0,
    decreases n,
{
    if n > 0 {
        lemma_no_modifier_events(mods, n - 1);
    }
}

/// Keys that are still held give no events.
proof fn lemma_no_key_events(report: Seq<u8>, n: int, action: KeyAction, m: KeyboardModifiers)
    requires
        n <= 8,
        report.len() == 8,
    ensures
        key_events(report, report, n, action, m).len() == 0,
    decreases n,
{
    if n > 2 {
        lemma_no_key_events(report, n - 1, action, m);
        assert(report[n - 1] == report[n - 1]);
        assert(holds(report, report[n - 1]));
    }
}

/// An event is a key press exactly if the key is held in the new report and was not in
/// the old one.
pub proof fn press_means_newly_held(prev: Seq<u8>, cur: Seq<u8>, i: int)
    requires
        prev.len() == 8,
        cur.len() == 8,
        2 <= i < 8,
        cur[i] != 0,
        keymap::keycode_of(cur[i]) is Some,
        !holds(prev, cur[i]),
    ensures
        key_events(cur, prev, 8, KeyAction::Pressed, keymap::modifiers_of(cur[0])).contains(
            KeyEvent {
                keycode: keymap::keycode_of(cur[i]).unwrap(),
                action: KeyAction::Pressed,
                modifiers: keymap::modifiers_of(cur[0]),
            },
        ),
{
    lemma_key_event_occurs(cur, prev, i, 8, KeyAction::Pressed, keymap::modifiers_of(cur[0]));
}

/// The event of a slot is among the events.
proof fn lemma_key_event_occurs(
    report: Seq<u8>,
    other: Seq<u8>,
    i: int,
    n: int,
    action: KeyAction,
    m: KeyboardModifiers,
)
    requires
        2 <= i < n <= 8,
        report.len() == 8,
        report[i] != 0,
        keymap::keycode_of(report[i]) is Some,
        !holds(other, report[i]),
    ensures
        key_events(report, other, n, action, m).contains(
            KeyEvent { keycode: keymap::keycode_of(report[i]).unwrap(), action, modifiers: m },
        ),
    decreases n,
{
    let e = KeyEvent { keycode: keymap::keycode_of(report[i]).unwrap(), action, modifiers: m };
    let all = key_events(report, other, n, action, m);
    if i == n - 1 {
        assert(all[all.len() - 1] == e);
    } else {
        lemma_key_event_occurs(report, other, i, n - 1, action, m);
        let rest = key_events(report, other, n - 1, action, m);
        let k = choose|k: int| 0 <= k < rest.len() && rest[k] == e;
        assert(all[k] == e);
    }
}

/// Of the devices those are tried that are of class 3, or of a class that only their
/// interfaces tell; they keep their order.
pub proof fn candidates_keep_their_order(devices: Seq<UsbDevice>, n: int, d: UsbDevice)
    requires
        0 <= n <= devices.len(),
    ensures
        candidates(devices, n) == devices.take(n).filter(
            |d: UsbDevice| d.device_class == 3 || d.device_class == 0,
        ),
        candidates(devices, n).contains(d) ==> d.device_class == 3 || d.device_class == 0,
        candidates(devices, n).contains(d) ==> devices.contains(d),
    decreases n,
{
    reveal_with_fuel(Seq::filter, 2);
    if n > 0 {
        let m = n - 1;
        candidates_keep_their_order(devices, m, d);
        assert(devices.take(n).drop_last() =~= devices.take(m));
        assert(devices.take(n).last() == devices[m]);
        let rest = candidates(devices, m);
        let all = candidates(devices, n);
        if all.contains(d) && is_candidate(devices[m]) {
            let i = choose|i: int| 0 <= i < all.len() && all[i] == d;
            if i < rest.len() {
                assert(rest[i] == d);
            } else {
                assert(devices[m] == d);
            }
        }
    }
}

/// The requests to a device: the first configuration, then the boot protocol, and for each
/// poll the eight bytes of its input report.
pub proof fn requests_of_a_device(slot_id: u8)
    ensures
        ({
            let c = set_configuration(slot_id);
            let p = set_protocol(slot_id);
            let r = report_request(slot_id);
            &&& c.slot_id == slot_id && p.slot_id == slot_id && r.slot_id == slot_id
            &&& c.request_type == 0 && c.request == 9 && c.value == 1 && c.index == 0 && c.length
                == 0
            &&& p.request_type == 0x21 && p.request == 0x0B && p.value == 0 && p.index == 0
                && p.length == 0
            &&& r.request_type == 0xA1 && r.request == 1 && r.value == 0x100 && r.index == 0
                && r.length == 8
        }),
{
}

/// A change of a modifier key gives one event, by the rise or fall of its bit, and a modifier
/// that did not change gives none.
pub proof fn modifier_events_follow_their_bits(prev_mods: u8, cur_mods: u8, n: int, e: KeyEvent)
    requires
        0 <= n <= 8,
    ensures
        modifier_events(prev_mods, cur_mods, n).contains(e) <==> exists|k: int|
            0 <= k < n && keymap::bit(prev_mods, k) != #[trigger] keymap::bit(cur_mods, k)
                && keymap::keycode_of((0xE0 + k) as u8) == Some(e.keycode) && (e.action
                == KeyAction::Pressed <==> keymap::bit(cur_mods, k)) && e.modifiers
                == keymap::modifiers_of(cur_mods),
        modifier_events(prev_mods, cur_mods, n).len() <= n,
    decreases n,
{
    let all = modifier_events(prev_mods, cur_mods, n);
    if n > 0 {
        let m = n - 1;
        keymap::modifier_bits_have_keys(m);
        modifier_events_follow_their_bits(prev_mods, cur_mods, m, e);
        let rest = modifier_events(prev_mods, cur_mods, m);
        if keymap::bit(prev_mods, m) != keymap::bit(cur_mods, m) {
            let own = modifier_event(cur_mods, m);
            assert(all == rest.push(own));
            assert(all[rest.len() as int] == own);
            if rest.contains(e) {
                let i = choose|i: int| 0 <= i < rest.len() && rest[i] == e;
                assert(all[i] == e);
            }
            if all.contains(e) {
                let i = choose|i: int| 0 <= i < all.len() && all[i] == e;
                if i < rest.len() {
                    assert(rest[i] == e);
                } else {
                    assert(e == own);
                    assert(keymap::bit(prev_mods, m) != keymap::bit(cur_mods, m));
                }
            }
            if exists|k: int|
                0 <= k < n && keymap::bit(prev_mods, k) != #[trigger] keymap::bit(cur_mods, k)
                    && keymap::keycode_of((0xE0 + k) as u8) == Some(e.keycode) && (e.action
                    == KeyAction::Pressed <==> keymap::bit(cur_mods, k)) && e.modifiers
                    == keymap::modifiers_of(cur_mods) {
                let k = choose|k: int|
                    0 <= k < n && keymap::bit(prev_mods, k) != #[trigger] keymap::bit(cur_mods, k)
                        && keymap::keycode_of((0xE0 + k) as u8) == Some(e.keycode) && (e.action
                        == KeyAction::Pressed <==> keymap::bit(cur_mods, k)) && e.modifiers
                        == keymap::modifiers_of(cur_mods);
                if k == m {
                    assert(e == own);
                }
            }
        }
    }
}

/// Keys give events exactly if one of the two reports holds them and the other does not, and
/// if their usage names a key.
pub proof fn key_events_have_their_cause(
    report: Seq<u8>,
    other: Seq<u8>,
    n: int,
    action: KeyAction,
    modifiers: KeyboardModifiers,
    e: KeyEvent,
)
    requires
        2 <= n <= 8,
        report.len() == 8,
    ensures
        key_events(report, other, n, action, modifiers).contains(e) <==> e.action == action
            && e.modifiers == modifiers && exists|i: int|
            2 <= i < n && #[trigger] report[i] != 0 && keymap::keycode_of(report[i]) == Some(
                e.keycode,
            ) && (forall|j: int| 2 <= j < 8 ==> #[trigger] other[j] != report[i]),
        key_events(report, other, n, action, modifiers).len() <= n - 2,
    decreases n,
{
    let all = key_events(report, other, n, action, modifiers);
    if n > 2 {
        let m = n - 1;
        key_events_have_their_cause(report, other, m, action, modifiers, e);
        let rest = key_events(report, other, m, action, modifiers);
        let u = report[m];
        if u != 0 && !holds(other, u) && keymap::keycode_of(u) is Some {
            let own = KeyEvent { keycode: keymap::keycode_of(u).unwrap(), action, modifiers };
            assert(all == rest.push(own));
            assert(all[rest.len() as int] == own);
            assert forall|j: int| 2 <= j < 8 implies #[trigger] other[j] != report[m] by {
                assert(!holds(other, u));
            }
            if rest.contains(e) {
                let i = choose|i: int| 0 <= i < rest.len() && rest[i] == e;
                assert(all[i] == e);
            }
            if all.contains(e) {
                let i = choose|i: int| 0 <= i < all.len() && all[i] == e;
                if i < rest.len() {
                    assert(rest[i] == e);
                } else {
                    assert(e == own);
                    assert(report[m] != 0);
                }
            }
            if e == own {
                assert(all.contains(e));
            }
        }
    }
}

/// The events of a report come in order: changes of modifiers, then keys that were released,
/// then keys that were pressed. All carry the modifiers of the new report.
pub proof fn releases_come_before_presses(prev: Seq<u8>, cur: Seq<u8>, e: KeyEvent)
    requires
        prev.len() == 8,
        cur.len() == 8,
    ensures
        ({
            let mods = keymap::modifiers_of(cur[0]);
            let a = modifier_events(prev[0], cur[0], 8);
            let b = key_events(prev, cur, 8, KeyAction::Released, mods);
            let c = key_events(cur, prev, 8, KeyAction::Pressed, mods);
            let all = report_events(prev, cur);
            let n = a.len() as int;
            let m = n + b.len();
            &&& all.len() == m + c.len()
            &&& all.subrange(0, n) == a
            &&& all.subrange(n, m) == b
            &&& all.subrange(m, all.len() as int) == c
        }),
{
    let mods = keymap::modifiers_of(cur[0]);
    let a = modifier_events(prev[0], cur[0], 8);
    let b = key_events(prev, cur, 8, KeyAction::Released, mods);
    let c = key_events(cur, prev, 8, KeyAction::Pressed, mods);
    let all = report_events(prev, cur);
    let n = a.len() as int;
    let m = n + b.len();
    assert(all.subrange(0, n) =~= a);
    assert(all.subrange(n, m) =~= b);
    assert(all.subrange(m, all.len() as int) =~= c);
}

/// After a device comes the next one, if there is one, from its first request on.
pub proof fn devices_are_configured_in_turn(v: HidConfigurationView)
    requires
        0 <= v.at < v.devices.len(),
        v.stage != ConfigStage::Finished,
    ensures
        ({
            let n = v.next_device();
            &&& n.at == v.at + 1
            &&& n.devices == v.devices
            &&& n.stage == ConfigStage::Finished <==> v.at == v.devices.len() - 1
            &&& n.stage != ConfigStage::Finished ==> n.first_request() == Some(
                set_configuration(v.devices[v.at + 1].slot_id),
            )
            &&& n.stage == ConfigStage::Finished ==> n.first_request() is None
            &&& n.stage != ConfigStage::Protocol
        }),
{
}

} // verus!
