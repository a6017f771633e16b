use maios_kernel::nano_core::{multicore_info, nano_core, BootStep, GdtLookup, StepOutcome};
use maios_kernel::net;
use maios_kernel::net::{DhcpAction, DhcpConfig, DhcpEvent, Ipv4Address, Network, RegisterStep};
use maios_kernel::syscall;
use maios_kernel::syscall::{ExecMode, Selectors, SyscallFrame};
use maios_kernel::task::TaskTable;
use maios_kernel::task_struct::{InheritedStates, KernelStack, Task};
use maios_kernel::usb_hid;
use maios_kernel::usb_hid::keymap::{hid_modifiers_to_keyboard_modifiers, hid_usage_to_keycode, Keycode};
use maios_kernel::usb_hid::{
    ConfigAction, HidConfiguration, HidPoller, KeyAction, PollOutcome, UsbDevice,
};
use maios_kernel::wasi_interpreter::rights;
use maios_kernel::wasi_interpreter::SystemCall;
use maios_kernel::window;
use maios_kernel::window::{
    AppEvent, BtnState, Button, ButtonDraw, Coord, DrawOp, ManagerAction, MousePositionEvent, PendingActions,
    Rectangle, ResizeEdge, WindowEffect, WindowEvent, WindowFrame, WindowMovingStatus,
};
use rand::{Rng, SeedableRng};
use std::collections::VecDeque;

fn usb(slot_id: u8, device_class: u8) -> UsbDevice {
    UsbDevice { slot_id, device_class, vendor_id: 1, product_id: 2 }
}

#[test]
fn keyboards_are_configured() {
    let all = vec![usb(1, 8), usb(2, 3), usb(3, 0)];
    assert_eq!(usb_hid::hid_devices(&all), vec![usb(2, 3), usb(3, 0)]);
    let (mut c, first) = HidConfiguration::new(&all);
    let r = first.unwrap();
    assert_eq!((r.slot_id, r.request, r.value), (2, 0x09, 1));
    match c.step(true) {
        ConfigAction::Transfer(r) => assert_eq!((r.slot_id, r.request_type, r.request), (2, 0x21, 0x0B)),
        _ => unreachable!(),
    }
    match c.step(false) {
        ConfigAction::Configured(2, name, Some(r)) => {
            assert_eq!(name, "usb_hid_poll_2");
            assert_eq!((r.slot_id, r.request), (3, 0x09));
        }
        _ => unreachable!(),
    }
    assert!(matches!(c.step(false), ConfigAction::Finish));
    assert!(HidConfiguration::new(&vec![usb(1, 8)]).1.is_none());
    assert_eq!(usb_hid::get_report(4).slot_id, 4);
}

#[test]
fn reports_become_key_events() {
    let mut p = HidPoller::new();
    assert!(matches!(p.hid_poll_task(false, None), PollOutcome::Exit(-1)));
    assert!(matches!(p.hid_poll_task(true, None), PollOutcome::Retry));
    assert!(matches!(p.hid_poll_task(true, Some(vec![0; 7])), PollOutcome::Retry));
    let shift_a = vec![0x02, 0, 0x04, 0, 0, 0, 0, 0];
    match p.hid_poll_task(true, Some(shift_a.clone())) {
        PollOutcome::Events(e) => {
            assert_eq!(e.len(), 2);
            assert_eq!(e[0].action, KeyAction::Pressed);
            assert_eq!(e[1].keycode, Keycode::A);
            assert_eq!(e[1].action, KeyAction::Pressed);
            assert!(e[1].modifiers.shift_left);
        }
        _ => unreachable!(),
    }
    assert!(matches!(p.hid_poll_task(true, Some(shift_a)), PollOutcome::Events(e) if e.is_empty()));
    match p.hid_poll_task(true, Some(vec![0x02, 0, 0x05, 0, 0, 0, 0, 0])) {
        PollOutcome::Events(e) => {
            assert_eq!((e[0].keycode, e[0].action), (Keycode::A, KeyAction::Released));
            assert_eq!((e[1].keycode, e[1].action), (Keycode::B, KeyAction::Pressed));
        }
        _ => unreachable!(),
    }
}

#[test]
fn usages_map_to_keys() {
    assert_eq!(hid_usage_to_keycode(0x04), Some(Keycode::A));
    assert_eq!(hid_usage_to_keycode(0x1d), Some(Keycode::Z));
    assert_eq!(hid_usage_to_keycode(0x00), None);
    let m = hid_modifiers_to_keyboard_modifiers(0x41);
    assert!(m.control_left && m.alt_gr && !m.shift_left);
}

#[test]
fn system_calls_have_names() {
    let names = [
        "proc_exit", "fd_close", "fd_write", "fd_seek", "fd_read", "environ_get", "path_open", "args_get",
        "clock_time_get", "random_get", "sched_yield",
    ];
    for n in names.iter() {
        let call = SystemCall::from_str(n).ok().unwrap();
        assert_eq!(call.name(), *n);
        assert!(SystemCall::try_from(call.index()) == Ok(call));
    }
    assert!(matches!(SystemCall::from_str("fd_nothing"), Err("Unknown WASI system call.")));
    assert!(matches!(SystemCall::try_from(1000), Err("Unknown WASI system call.")));
}

#[test]
fn system_calls_have_signatures() {
    let exit = SystemCall::ProcExit.signature();
    assert_eq!(exit.params(), &[wasmi::ValueType::I32][..]);
    assert_eq!(exit.return_type(), None);
    let seek = SystemCall::FdSeek.signature();
    assert_eq!(
        seek.params(),
        &[wasmi::ValueType::I32, wasmi::ValueType::I64, wasmi::ValueType::I32, wasmi::ValueType::I32][..]
    );
    assert_eq!(seek.return_type(), Some(wasmi::ValueType::I32));
}

#[test]
fn rights_are_those_of_wasi() {
    assert_eq!(rights::RIGHTS_FD_DATASYNC, wasi::RIGHTS_FD_DATASYNC);
    assert_eq!(rights::RIGHTS_FD_READ, wasi::RIGHTS_FD_READ);
    assert_eq!(rights::RIGHTS_FD_SEEK, wasi::RIGHTS_FD_SEEK);
    assert_eq!(rights::RIGHTS_FD_FDSTAT_SET_FLAGS, wasi::RIGHTS_FD_FDSTAT_SET_FLAGS);
    assert_eq!(rights::RIGHTS_FD_SYNC, wasi::RIGHTS_FD_SYNC);
    assert_eq!(rights::RIGHTS_FD_TELL, wasi::RIGHTS_FD_TELL);
    assert_eq!(rights::RIGHTS_FD_WRITE, wasi::RIGHTS_FD_WRITE);
    assert_eq!(rights::RIGHTS_FD_ADVISE, wasi::RIGHTS_FD_ADVISE);
    assert_eq!(rights::RIGHTS_FD_ALLOCATE, wasi::RIGHTS_FD_ALLOCATE);
    assert_eq!(rights::RIGHTS_PATH_CREATE_DIRECTORY, wasi::RIGHTS_PATH_CREATE_DIRECTORY);
    assert_eq!(rights::RIGHTS_PATH_CREATE_FILE, wasi::RIGHTS_PATH_CREATE_FILE);
    assert_eq!(rights::RIGHTS_PATH_LINK_SOURCE, wasi::RIGHTS_PATH_LINK_SOURCE);
    assert_eq!(rights::RIGHTS_PATH_LINK_TARGET, wasi::RIGHTS_PATH_LINK_TARGET);
    assert_eq!(rights::RIGHTS_PATH_OPEN, wasi::RIGHTS_PATH_OPEN);
    assert_eq!(rights::RIGHTS_FD_READDIR, wasi::RIGHTS_FD_READDIR);
    assert_eq!(rights::RIGHTS_PATH_READLINK, wasi::RIGHTS_PATH_READLINK);
    assert_eq!(rights::RIGHTS_PATH_RENAME_SOURCE, wasi::RIGHTS_PATH_RENAME_SOURCE);
    assert_eq!(rights::RIGHTS_PATH_RENAME_TARGET, wasi::RIGHTS_PATH_RENAME_TARGET);
    assert_eq!(rights::RIGHTS_PATH_FILESTAT_GET, wasi::RIGHTS_PATH_FILESTAT_GET);
    assert_eq!(rights::RIGHTS_PATH_FILESTAT_SET_SIZE, wasi::RIGHTS_PATH_FILESTAT_SET_SIZE);
    assert_eq!(rights::RIGHTS_PATH_FILESTAT_SET_TIMES, wasi::RIGHTS_PATH_FILESTAT_SET_TIMES);
    assert_eq!(rights::RIGHTS_FD_FILESTAT_GET, wasi::RIGHTS_FD_FILESTAT_GET);
    assert_eq!(rights::RIGHTS_FD_FILESTAT_SET_SIZE, wasi::RIGHTS_FD_FILESTAT_SET_SIZE);
    assert_eq!(rights::RIGHTS_FD_FILESTAT_SET_TIMES, wasi::RIGHTS_FD_FILESTAT_SET_TIMES);
    assert_eq!(rights::RIGHTS_PATH_SYMLINK, wasi::RIGHTS_PATH_SYMLINK);
    assert_eq!(rights::RIGHTS_PATH_REMOVE_DIRECTORY, wasi::RIGHTS_PATH_REMOVE_DIRECTORY);
    assert_eq!(rights::RIGHTS_PATH_UNLINK_FILE, wasi::RIGHTS_PATH_UNLINK_FILE);
    assert_eq!(rights::RIGHTS_POLL_FD_READWRITE, wasi::RIGHTS_POLL_FD_READWRITE);
    assert_eq!(rights::FULL_DIR_RIGHTS, 0xffffe98);
    assert_eq!(rights::FULL_FILE_RIGHTS, 0x8e001ff);
}

#[test]
fn lease_comes_from_the_configuration() {
    assert!(matches!(net::poll_dhcp(&DhcpEvent::Quiet), DhcpAction::Nothing));
    assert!(matches!(net::poll_dhcp(&DhcpEvent::Deconfigured), DhcpAction::ClearAddresses));
    let dns: Vec<Ipv4Address> = (1..6u8).map(|k| Ipv4Address(8, 8, 8, k)).collect();
    let c = DhcpConfig { address: Ipv4Address(10, 0, 0, 9), prefix_len: 24, router: None, dns_servers: dns };
    match net::poll_dhcp(&DhcpEvent::Configured(c)) {
        DhcpAction::Apply(l) => {
            assert_eq!(l.gateway, Ipv4Address(0, 0, 0, 0));
            assert_eq!(l.dns.len(), 3);
            let mut n: Network<u8> = Network::new();
            assert!(matches!(n.register_device(&Some(l), 0), RegisterStep::Configured));
            assert_eq!(n.get_dns_servers()[0], Ipv4Address(8, 8, 8, 1));
        }
        _ => unreachable!(),
    }
}

#[test]
fn silent_network_falls_back() {
    let mut n: Network<u8> = Network::new();
    assert!(matches!(n.register_device(&None, 4999), RegisterStep::PollAgain));
    assert!(matches!(n.register_device(&None, 5000), RegisterStep::Fallback));
    assert_eq!(n.get_dns_servers(), vec![net::fallback_gateway()]);
    let c = net::fallback_config().unwrap();
    assert_eq!(c.address, vec![10, 0, 2, 15]);
    assert_eq!(c.prefix_len, 24);
    assert_eq!(c.gateway, Ipv4Address(10, 0, 2, 2));
    assert!(net::static_config(None).is_none());
    assert!(n.get_default_interface().is_none());
    n.add_interface(5);
    n.add_interface(6);
    assert_eq!(n.get_default_interface(), Some(&5));
    assert_eq!(n.get_interfaces().len(), 2);
}

#[test]
fn ephemeral_port_is_drawn_from_the_seed() {
    for k in 0..20u8 {
        let seed = [k; 32];
        let port = net::get_ephemeral_port(seed);
        assert!(port >= net::EPHEMERAL_START);
        let mut rng = rand_chacha::ChaChaRng::from_seed(seed);
        assert_eq!(port, rng.gen_range(net::EPHEMERAL_START..=net::EPHEMERAL_END));
    }
}

#[test]
fn boot_takes_its_steps_in_order() {
    let ok = StepOutcome::Done;
    assert!(nano_core(BootStep::DisableInterrupts, ok, true) == Ok(BootStep::EarlyLogger));
    assert!(nano_core(BootStep::EarlyExceptions, ok, false) == Ok(BootStep::Memory));
    assert!(nano_core(BootStep::EarlyExceptions, ok, true) == Ok(BootStep::EarlyPrinter));
    let bad = StepOutcome::Failed("no memory");
    assert!(nano_core(BootStep::Memory, bad, true) == Err("no memory"));
    assert!(nano_core(BootStep::EarlyPrinter, bad, true) == Ok(BootStep::Memory));
    assert!(nano_core(BootStep::Captain, ok, true).is_err());
}

#[test]
fn application_processors_need_symbols() {
    let i = multicore_info(Some(1), Some(2), GdtLookup::Found(3)).ok().unwrap();
    assert_eq!((i.ap_start_realmode_begin, i.ap_start_realmode_end, i.ap_gdt), (1, 2, 3));
    assert!(multicore_info(None, Some(2), GdtLookup::Found(3)).is_err());
    assert!(multicore_info(Some(1), None, GdtLookup::Found(3)).is_err());
    assert!(matches!(
        multicore_info(Some(1), Some(2), GdtLookup::Unmapped),
        Err("Failed to translate \"GDT_AP\"")
    ));
    assert!(multicore_info(Some(1), Some(2), GdtLookup::Missing).is_err());
    assert!(multicore_info(Some(1), Some(2), GdtLookup::NotIdentity).is_err());
}

fn selectors() -> Selectors {
    Selectors { kernel_cs: Some(0x08), kernel_ds: Some(0x10), user_cs: Some(0x2B), user_ds: Some(0x23) }
}

#[test]
fn syscall_registers_are_set_up() {
    let w = syscall::setup_syscall_msrs(0x500, 0x08, 0x2B, 0x1234);
    assert_eq!((w[0].register, w[0].value), (syscall::IA32_EFER, 0x501));
    assert_eq!((w[1].register, w[1].value), (syscall::IA32_STAR, (0x18 << 48) | (0x08 << 32)));
    assert_eq!((w[2].register, w[2].value), (syscall::IA32_LSTAR, 0x1234));
    assert_eq!((w[3].register, w[3].value), (syscall::IA32_FMASK, 0x700));
    let mut done = false;
    assert_eq!(
        syscall::init_ap(done, &selectors(), 0, 0).err(),
        Some("syscall::init_ap: BSP has not initialized syscall subsystem yet")
    );
    let mut s = selectors();
    s.kernel_ds = None;
    assert_eq!(
        syscall::init(&mut done, &s, 0, 0).err(),
        Some("syscall::init: kernel data selector not available")
    );
    assert!(!done);
    assert!(syscall::init(&mut done, &selectors(), 0, 0).is_ok());
    assert!(done);
    assert!(syscall::init_ap(done, &selectors(), 0, 0).is_ok());
    s = selectors();
    s.user_cs = None;
    assert!(syscall::init_ap(done, &s, 0, 0).is_err());
}

#[test]
fn arguments_follow_the_mode() {
    let mut f = SyscallFrame { rax: 0x1_0005, rdi: 1, rsi: 2, rdx: 3, r10: 4, r8: 5, r9: 6, rcx: 7, r11: 8, rsp: 9 };
    let l = syscall::syscall_dispatcher(&f, ExecMode::Linux);
    assert_eq!((l.number, l.arg0, l.arg1, l.arg2, l.arg3, l.arg4, l.arg5), (0x1_0005, 1, 2, 3, 4, 5, 6));
    let w = syscall::syscall_dispatcher(&f, ExecMode::Windows);
    assert_eq!((w.number, w.arg0, w.arg1, w.arg2, w.arg3), (0x1_0005, 4, 3, 5, 6));
    assert_eq!(syscall::syscall_dispatcher(&f, ExecMode::Native).number, 5);
    syscall::finish_syscall(&mut f, -1);
    assert_eq!(f.rax, u64::MAX);
}

#[test]
fn execution_mode_is_kept_per_task() {
    let mut tasks = TaskTable::new();
    let stack = KernelStack { bottom: 0, top: 0 };
    let states = InheritedStates { mmi: 0, namespace: 0, env: 0, app_crate: None };
    let t = tasks.insert(Task::new(3, String::from("t"), stack, states));
    assert!(syscall::current_exec_mode(&tasks, None) == ExecMode::Linux);
    assert!(syscall::current_exec_mode(&tasks, Some(t)) == ExecMode::Native);
    syscall::set_task_exec_mode(&mut tasks, 3, ExecMode::Windows);
    assert!(syscall::current_exec_mode(&tasks, Some(t)) == ExecMode::Windows);
    syscall::remove_task_exec_mode(&mut tasks, 3);
    assert!(syscall::current_exec_mode(&tasks, Some(t)) == ExecMode::Native);
}

fn frame() -> WindowFrame {
    WindowFrame {
        position: Coord { x: 10, y: 20 },
        width: 200,
        height: 100,
        title_bar_height: 20,
        border_size: 2,
        moving: WindowMovingStatus::Stationary,
        last_hold: false,
        restore_bounds: None,
    }
}

fn mouse(x: isize, y: isize, hold: bool) -> WindowEvent {
    WindowEvent::Mouse(MousePositionEvent {
        coordinate: Coord { x, y },
        gcoordinate: Coord { x: x + 10, y: y + 20 },
        left_button_hold: hold,
    })
}

#[test]
fn buttons_are_found_under_the_mouse() {
    assert_eq!(Button::Close.x_center(200), 182);
    assert_eq!(Button::Minimize.x_center(200), 162);
    assert_eq!(Button::Maximize.x_center(200), 142);
    assert_eq!(window::button_hit(182, 200), Some(Button::Close));
    assert_eq!(window::button_hit(50, 200), None);
    assert_eq!(window::resize_edge(true, false, true, false), ResizeEdge::TopLeft);
}

#[test]
fn close_button_exits() {
    let mut f = frame();
    let mut q = VecDeque::from(vec![mouse(182, 5, true), mouse(182, 5, false), WindowEvent::Other(4)]);
    let h = window::handle_event(&mut f, &mut q, 800, 600);
    assert!(matches!(h.app_event, Some(AppEvent::Exit)));
    assert_eq!(q.len(), 1);
    assert_eq!(h.effects[0], WindowEffect::Draw(ButtonDraw::One(Button::Close, BtnState::Pressed)));
    assert_eq!(h.effects[1], WindowEffect::Draw(ButtonDraw::One(Button::Close, BtnState::Hover)));
    assert!(h.pending.set_active && h.pending.refresh_buttons);
    let h = window::handle_event(&mut f, &mut q, 800, 600);
    assert!(matches!(h.app_event, Some(AppEvent::Event(WindowEvent::Other(4)))));
}

#[test]
fn title_bar_drags_the_window() {
    let mut f = frame();
    let mut q = VecDeque::from(vec![mouse(50, 5, true), mouse(60, 8, true), mouse(60, 8, false)]);
    let h = window::handle_event(&mut f, &mut q, 800, 600);
    assert!(h.app_event.is_none());
    assert!(h.pending.finalise_move && h.pending.refresh_float_border);
    let actions = window::deferred_actions(&mut f, &h.pending);
    assert_eq!(actions[actions.len() - 1], ManagerAction::MoveActiveWindow);
    assert_eq!(f.moving, WindowMovingStatus::Stationary);
}

#[test]
fn minimise_and_maximise() {
    let mut f = frame();
    let mut q = VecDeque::from(vec![mouse(162, 5, true), mouse(162, 5, false)]);
    assert!(window::handle_event(&mut f, &mut q, 800, 600).pending.hide_window);
    let mut q = VecDeque::from(vec![mouse(142, 5, true), mouse(142, 5, false)]);
    let h = window::handle_event(&mut f, &mut q, 800, 600);
    let full = Rectangle { top_left: Coord { x: 0, y: 0 }, bottom_right: Coord { x: 800, y: 600 } };
    assert_eq!(h.effects[2], WindowEffect::Resize(full));
    assert_eq!((f.position, f.width, f.height), (Coord { x: 0, y: 0 }, 800, 600));
    let back = f.toggle_maximize(800, 600);
    assert_eq!(back.top_left, Coord { x: 10, y: 20 });
    assert_eq!(back.bottom_right, Coord { x: 210, y: 120 });
    f.last_hold = false;
    assert_eq!(f, frame());
}

#[test]
fn events_after_maximising_see_the_full_screen() {
    let mut f = frame();
    // The close button of the maximised window is at x = 782; at x = 182 the title bar is bare.
    let mut q = VecDeque::from(vec![
        mouse(142, 5, true),
        mouse(142, 5, false),
        mouse(182, 5, false),
        mouse(400, 300, false),
        mouse(782, 5, true),
        mouse(782, 5, false),
    ]);
    let h = window::handle_event(&mut f, &mut q, 800, 600);
    assert_eq!(h.effects[3], WindowEffect::Draw(ButtonDraw::AllIdle));
    assert!(matches!(h.app_event, Some(AppEvent::Event(WindowEvent::Mouse(_)))));
    assert_eq!(q.len(), 2);
    let h = window::handle_event(&mut f, &mut q, 800, 600);
    assert!(matches!(h.app_event, Some(AppEvent::Exit)));
    // Maximise and restore in one go: nothing is left of it but the last button state.
    let mut f = frame();
    let mut q = VecDeque::from(vec![
        mouse(142, 5, true),
        mouse(142, 5, false),
        mouse(742, 5, true),
        mouse(742, 5, false),
    ]);
    let h = window::handle_event(&mut f, &mut q, 800, 600);
    assert!(h.app_event.is_none());
    assert_eq!(h.effects.len(), 6);
    assert_eq!(f, frame());
}

#[test]
fn edges_resize_and_content_forwards() {
    let mut f = frame();
    let mut p = PendingActions {
        refresh_buttons: false,
        refresh_float_border: false,
        finalise_move: false,
        set_active: false,
        hide_window: false,
    };
    let inside = MousePositionEvent {
        coordinate: Coord { x: 100, y: 50 },
        gcoordinate: Coord { x: 110, y: 70 },
        left_button_hold: false,
    };
    assert!(matches!(f.process_mouse_event(&inside, &mut p).0, window::MouseOutcome::Forward));
    let corner = MousePositionEvent {
        coordinate: Coord { x: 198, y: 98 },
        gcoordinate: Coord { x: 208, y: 118 },
        left_button_hold: true,
    };
    f.process_mouse_event(&corner, &mut p);
    assert_eq!(f.moving, WindowMovingStatus::Resizing(Coord { x: 208, y: 118 }, ResizeEdge::BottomRight));
}

#[test]
fn decorations_are_drawn() {
    let f = frame();
    let b = window::draw_borders(&f, true);
    assert_eq!(b.len(), 3);
    assert_eq!(
        b[2],
        DrawOp::FillRectangle { at: Coord { x: 0, y: 98 }, width: 200, height: 2, color: window::TN_BORDER }
    );
    let c = window::draw_button(&f, Button::Close, BtnState::Hover);
    assert_eq!(c[0], DrawOp::FillCircle { center: Coord { x: 182, y: 10 }, radius: 6, color: window::BTN_CLOSE });
    assert_eq!(c.len(), 3);
    let t = window::draw_title_bar(&f, "hi", true, 8, 16);
    assert!(t.iter().any(|op| matches!(op, DrawOp::Glyph { code: b'h', .. })));
    assert!(!window::draw_rounded_corners(&f).is_empty());
    let all = window::redraw_decorations(&f, "hi", true, 8, 16);
    assert!(all.len() > t.len());
    assert_eq!(window::glyph_row(0b1000_0001, Coord { x: 5, y: 1 }), vec![Coord { x: 5, y: 1 }, Coord { x: 12, y: 1 }]);
    let area = Rectangle { top_left: Coord { x: 1, y: 2 }, bottom_right: Coord { x: 3, y: 4 } };
    assert_eq!(window::render(Some(area), Coord { x: 10, y: 20 }).unwrap().top_left, Coord { x: 11, y: 22 });
    assert_eq!(window::render(None, Coord { x: 10, y: 20 }), None);
    assert_eq!(window::check_size(10, 10, 20, 5, true), Err("window is too small for decorations"));
    assert_eq!(window::check_size(30, 10, 20, 5, false), Err("window manager not initialised"));
    assert_eq!(window::check_size(30, 10, 20, 5, true), Ok(()));
}
