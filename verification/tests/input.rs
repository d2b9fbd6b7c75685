use contixis::cursor::{AgentCursor, MoveAction};
use contixis::inject::{InjectOp, InputInjector};
use contixis::input::{button_code, dispatch, evdev_key_code, key_event_for, update_mods, Dispatch, HookEvent, EV_KEY, EV_REL, EV_SYN, REL_HWHEEL, REL_WHEEL, REL_X, REL_Y, SYN_REPORT};
use contixis::proto::{MOD_ALT, MOD_CTRL, MOD_META, MOD_SHIFT};

#[test]
fn modifier_keys_set_and_clear_bits() {
    let mut m = 0u32;
    update_mods(42, true, &mut m);
    assert_eq!(m, MOD_SHIFT);
    update_mods(97, true, &mut m);
    assert_eq!(m, MOD_SHIFT | MOD_CTRL);
    update_mods(100, true, &mut m);
    update_mods(126, true, &mut m);
    assert_eq!(m, MOD_SHIFT | MOD_CTRL | MOD_ALT | MOD_META);
    update_mods(54, false, &mut m);
    assert_eq!(m, MOD_CTRL | MOD_ALT | MOD_META);
    update_mods(30, true, &mut m);
    assert_eq!(m, MOD_CTRL | MOD_ALT | MOD_META);
}

#[test]
fn dispatch_of_raw_events() {
    let mut m = 0u32;
    assert_eq!(dispatch(EV_KEY, 30, 2, true, &mut m), Dispatch::Ignore);
    assert_eq!(dispatch(EV_KEY, 30, 1, true, &mut m), Dispatch::LookupKey { x11_code: 38, pressed: true });
    assert_eq!(dispatch(EV_KEY, 29, 1, true, &mut m), Dispatch::LookupKey { x11_code: 37, pressed: true });
    assert_eq!(m, MOD_CTRL);
    assert_eq!(dispatch(EV_KEY, 0x110, 1, false, &mut m), Dispatch::Emit(HookEvent::MouseButton { button: 1, pressed: true }));
    assert_eq!(dispatch(EV_KEY, 0x112, 0, false, &mut m), Dispatch::Emit(HookEvent::MouseButton { button: 2, pressed: false }));
    assert_eq!(dispatch(EV_KEY, 0x111, 1, false, &mut m), Dispatch::Emit(HookEvent::MouseButton { button: 3, pressed: true }));
    assert_eq!(dispatch(EV_KEY, 0x113, 1, false, &mut m), Dispatch::Ignore);
    assert_eq!(dispatch(EV_REL, REL_X, -5, false, &mut m), Dispatch::Emit(HookEvent::MouseMove { dx: -5, dy: 0 }));
    assert_eq!(dispatch(EV_REL, REL_Y, 7, false, &mut m), Dispatch::Emit(HookEvent::MouseMove { dx: 0, dy: 7 }));
    assert_eq!(dispatch(EV_REL, REL_WHEEL, -1, false, &mut m), Dispatch::Emit(HookEvent::MouseScroll { dx: 0, dy: -1 }));
    assert_eq!(dispatch(EV_REL, REL_HWHEEL, 1, false, &mut m), Dispatch::Emit(HookEvent::MouseScroll { dx: 1, dy: 0 }));
    assert_eq!(dispatch(EV_REL, REL_X, 3, true, &mut m), Dispatch::Ignore);
    assert_eq!(dispatch(EV_SYN, SYN_REPORT, 0, false, &mut m), Dispatch::Ignore);
    assert_eq!(m, MOD_CTRL);
}

#[test]
fn key_events_need_a_symbol() {
    assert_eq!(key_event_for(0, true, 0), None);
    assert_eq!(key_event_for(0xFF_FFFF, true, 0), None);
    assert_eq!(key_event_for(0x61, false, MOD_SHIFT), Some(HookEvent::KeyEvent { keysym: 0x61, pressed: false, modifiers: MOD_SHIFT }));
}

#[test]
fn button_and_key_codes() {
    assert_eq!(button_code(1), Some(0x110));
    assert_eq!(button_code(2), Some(0x112));
    assert_eq!(button_code(3), Some(0x111));
    assert_eq!(button_code(4), None);
    assert_eq!(evdev_key_code(38), Some(30));
    assert_eq!(evdev_key_code(9), Some(1));
    assert_eq!(evdev_key_code(8), None);
}

#[test]
fn agent_cursor_moves_and_releases_focus_once() {
    let mut c = AgentCursor::new(100, 50);
    assert_eq!((c.cursor_x, c.cursor_y), (50, 25));
    assert_eq!(c.mouse_move(5, 5), MoveAction::Ignore);
    assert!(!c.accepts_input());
    c.focus_transfer(90, 10);
    assert!(c.accepts_input());
    assert_eq!(c.mouse_move(5, 0), MoveAction::Inject { dx: 5, dy: 0 });
    assert_eq!((c.cursor_x, c.cursor_y), (95, 10));
    assert_eq!(c.mouse_move(10, 0), MoveAction::Release { nudge_dx: 4, nudge_dy: 0, exit_x: 105, exit_y: 10 });
    assert_eq!((c.cursor_x, c.cursor_y), (99, 10));
    assert_eq!(c.mouse_move(3, 0), MoveAction::Hold);
    assert_eq!(c.mouse_move(-3, 0), MoveAction::Inject { dx: -3, dy: 0 });
    assert!(!c.pending_release);
    c.focus_drop();
    assert!(!c.accepts_input());
}

#[test]
fn uinput_injection() {
    let mut inj = InputInjector::new(true, true);
    assert_eq!(inj.mouse_move_rel(3, -4, 1920, 1080), vec![
        InjectOp::Uinput { kind: EV_REL, code: REL_X, value: 3 },
        InjectOp::Uinput { kind: EV_REL, code: REL_Y, value: -4 },
        InjectOp::Uinput { kind: EV_SYN, code: SYN_REPORT, value: 0 },
    ]);
    assert_eq!(inj.mouse_move_abs(10, 20, 1920, 1080), vec![]);
    assert_eq!((inj.cursor_x, inj.cursor_y), (10, 20));
    assert_eq!(inj.mouse_button(2, true), vec![
        InjectOp::Uinput { kind: EV_KEY, code: 0x112, value: 1 },
        InjectOp::Uinput { kind: EV_SYN, code: SYN_REPORT, value: 0 },
    ]);
    assert_eq!(inj.mouse_button(9, true), vec![]);
    assert_eq!(inj.mouse_scroll(0, -2), vec![
        InjectOp::Uinput { kind: EV_REL, code: REL_WHEEL, value: -2 },
        InjectOp::Uinput { kind: EV_SYN, code: SYN_REPORT, value: 0 },
    ]);
    assert_eq!(inj.mouse_scroll(1, 1), vec![
        InjectOp::Uinput { kind: EV_REL, code: REL_WHEEL, value: 1 },
        InjectOp::Uinput { kind: EV_REL, code: REL_HWHEEL, value: 1 },
        InjectOp::Uinput { kind: EV_SYN, code: SYN_REPORT, value: 0 },
    ]);
    assert_eq!(inj.key_event(Some(38), false), vec![
        InjectOp::Uinput { kind: EV_KEY, code: 30, value: 0 },
        InjectOp::Uinput { kind: EV_SYN, code: SYN_REPORT, value: 0 },
    ]);
    assert_eq!(inj.key_event(Some(8), true), vec![InjectOp::FakeKey { keycode: 8, pressed: true }, InjectOp::Flush]);
    assert_eq!(inj.key_event(Some(0), true), vec![]);
    assert_eq!(inj.key_event(None, true), vec![]);
}

#[test]
fn xtest_injection_tracks_and_clamps_the_cursor() {
    let mut inj = InputInjector::new(false, true);
    assert_eq!((inj.cursor_x, inj.cursor_y), (960, 540));
    assert_eq!(inj.mouse_move_rel(2000, -1000, 1920, 1080), vec![InjectOp::FakeMotion { x: 1919, y: 0 }, InjectOp::Flush]);
    assert_eq!(inj.mouse_move_abs(-5, 500, 1920, 1080), vec![InjectOp::FakeMotion { x: 0, y: 500 }, InjectOp::Flush]);
    assert_eq!((inj.cursor_x, inj.cursor_y), (0, 500));
    assert_eq!(inj.mouse_button(4, false), vec![InjectOp::FakeButton { button: 4, pressed: false }, InjectOp::Flush]);
    assert_eq!(inj.mouse_scroll(-2, 3), vec![
        InjectOp::FakeClicks { button: 5, count: 3 },
        InjectOp::FakeClicks { button: 6, count: 2 },
        InjectOp::Flush,
    ]);
    assert_eq!(inj.key_event(Some(38), true), vec![InjectOp::FakeKey { keycode: 38, pressed: true }, InjectOp::Flush]);
}

#[test]
fn no_backend_injects_nothing() {
    let mut inj = InputInjector::new(false, false);
    assert_eq!(inj.mouse_move_rel(1, 1, 0, 0), vec![]);
    assert_eq!(inj.mouse_move_abs(7, 8, 0, 0), vec![]);
    assert_eq!((inj.cursor_x, inj.cursor_y), (7, 8));
    assert_eq!(inj.mouse_button(1, true), vec![]);
    assert_eq!(inj.mouse_scroll(1, 1), vec![]);
}

#[test]
fn input_is_taken_only_between_transfer_and_drop() {
    let mut c = AgentCursor::new(100, 100);
    assert!(!c.accepts_input());
    assert_eq!(c.mouse_move(1, 1), MoveAction::Ignore);
    c.focus_transfer(10, 10);
    assert!(c.accepts_input());
    assert_eq!(c.mouse_move(1, 1), MoveAction::Inject { dx: 1, dy: 1 });
    c.focus_drop();
    assert!(!c.accepts_input());
    assert_eq!(c.mouse_move(1, 1), MoveAction::Ignore);
}
