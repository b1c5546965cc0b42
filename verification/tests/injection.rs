use sidgate::inject::send_input::{
    Injection, SendInputSink, KEY_EXTENDED, KEY_SCANCODE, KEY_UP, MOUSE_ABSOLUTE, MOUSE_HWHEEL,
    MOUSE_LEFT_DOWN, MOUSE_MIDDLE_UP, MOUSE_RIGHT_UP, MOUSE_VIRTUAL_DESK, MOUSE_WHEEL,
    MOUSE_X_DOWN, MOUSE_X_UP, X_BUTTON_2,
};
use sidgate::inject::{InputError, PressedState};
use sidgate::proto::input::{InputEvent, InputFrame, MouseButton, MAX_EVENTS_PER_FRAME};

fn key(scancode: u16, pressed: bool) -> InputEvent {
    InputEvent::Key { scancode, pressed, extended: false }
}

#[test]
fn tracks_keys_until_released() {
    let mut state = PressedState::new();
    state.observe(&key(0x1D, true));
    state.observe(&key(0x2A, true));
    assert_eq!(state.keys().len(), 2);
    state.observe(&key(0x1D, false));
    assert_eq!(state.keys(), &[(0x2A, false)]);
}

#[test]
fn ignores_repeated_press_of_the_same_key() {
    let mut state = PressedState::new();
    for _ in 0..10 {
        state.observe(&key(0x1D, true));
    }
    assert_eq!(state.keys().len(), 1);
    state.observe(&key(0x1D, false));
    assert!(state.is_empty());
}

#[test]
fn distinguishes_extended_keys_from_their_base_scancode() {
    let mut state = PressedState::new();
    state.observe(&InputEvent::Key { scancode: 0x1D, pressed: true, extended: false });
    state.observe(&InputEvent::Key { scancode: 0x1D, pressed: true, extended: true });
    assert_eq!(state.keys().len(), 2, "left and right Ctrl");
}

#[test]
fn tracks_mouse_buttons() {
    let mut state = PressedState::new();
    state.observe(&InputEvent::MouseButton { button: MouseButton::Left, pressed: true });
    state.observe(&InputEvent::MouseButton { button: MouseButton::X1, pressed: true });
    assert_eq!(state.buttons().len(), 2);
    state.observe(&InputEvent::MouseButton { button: MouseButton::Left, pressed: false });
    assert_eq!(state.buttons(), &[MouseButton::X1 as u8]);
}

#[test]
fn movement_does_not_affect_pressed_state() {
    let mut state = PressedState::new();
    state.observe(&InputEvent::MouseMoveRelative { dx: 5, dy: -5 });
    state.observe(&InputEvent::MouseScroll { dx: 0, dy: 120 });
    assert!(state.is_empty());
}

#[test]
fn releasing_a_key_never_pressed_is_harmless() {
    let mut state = PressedState::new();
    state.observe(&key(0x1D, false));
    assert!(state.is_empty());
}

#[test]
fn clearing_forgets_everything() {
    let mut state = PressedState::default();
    state.observe(&key(0x1D, true));
    state.clear();
    assert!(state.is_empty());
}

fn encode(events: &[InputEvent]) -> Vec<Injection> {
    let mut sink = SendInputSink::new();
    for event in events {
        sink.observe(event);
        sink.push_event(event);
    }
    sink.buffer().clone()
}

#[test]
fn scroll_on_both_axes_produces_two_inputs() {
    let buffer = encode(&[InputEvent::MouseScroll { dx: 120, dy: -120 }]);
    assert_eq!(buffer.len(), 2);
    assert_eq!(
        buffer[0],
        Injection::Mouse { dx: 0, dy: 0, data: -120i32 as u32, flags: MOUSE_WHEEL }
    );
    assert_eq!(buffer[1], Injection::Mouse { dx: 0, dy: 0, data: 120, flags: MOUSE_HWHEEL });
}

#[test]
fn scroll_with_no_movement_produces_nothing() {
    assert!(encode(&[InputEvent::MouseScroll { dx: 0, dy: 0 }]).is_empty());
}

#[test]
fn keys_are_injected_as_scancodes_not_virtual_keys() {
    let buffer = encode(&[InputEvent::Key { scancode: 0x1E, pressed: true, extended: false }]);
    assert_eq!(buffer.len(), 1);
    let Injection::Key { virtual_key, scancode, flags } = buffer[0] else {
        panic!("a keyboard record was expected");
    };
    assert_eq!(scancode, 0x1E);
    assert_eq!(virtual_key, 0, "no virtual key must be set");
    assert_eq!(flags & KEY_SCANCODE, KEY_SCANCODE);
    assert_eq!(flags & KEY_UP, 0);
}

#[test]
fn extended_keys_carry_their_flag() {
    let buffer = encode(&[InputEvent::Key { scancode: 0x4B, pressed: false, extended: true }]);
    let Injection::Key { flags, .. } = buffer[0] else {
        panic!("a keyboard record was expected");
    };
    assert_eq!(flags & KEY_EXTENDED, KEY_EXTENDED);
    assert_eq!(flags & KEY_UP, KEY_UP);
}

#[test]
fn absolute_moves_span_the_whole_virtual_desktop() {
    let buffer = encode(&[InputEvent::MouseMoveAbsolute { x: 32768, y: 100 }]);
    let Injection::Mouse { dx, dy, flags, .. } = buffer[0] else {
        panic!("a mouse record was expected");
    };
    assert_eq!(flags & MOUSE_ABSOLUTE, MOUSE_ABSOLUTE);
    assert_eq!(flags & MOUSE_VIRTUAL_DESK, MOUSE_VIRTUAL_DESK);
    assert_eq!((dx, dy), (32768, 100));
}

#[test]
fn side_buttons_select_the_right_button_code() {
    let buffer = encode(&[InputEvent::MouseButton { button: MouseButton::X2, pressed: true }]);
    let Injection::Mouse { data, flags, .. } = buffer[0] else {
        panic!("a mouse record was expected");
    };
    assert_eq!(flags & MOUSE_X_DOWN, MOUSE_X_DOWN);
    assert_eq!(data, X_BUTTON_2 as u32);
}

#[test]
fn release_all_emits_one_event_per_held_input() {
    let mut sink = SendInputSink::new();
    for event in [
        InputEvent::Key { scancode: 0x1D, pressed: true, extended: false },
        InputEvent::Key { scancode: 0x2A, pressed: true, extended: false },
        InputEvent::MouseButton { button: MouseButton::Left, pressed: true },
    ] {
        sink.observe(&event);
    }

    let keys: Vec<(u16, bool)> = sink.pressed().keys().to_vec();
    for (scancode, extended) in keys {
        sink.push_key(scancode, false, extended);
    }
    assert_eq!(sink.buffer().len(), 2);
    let Injection::Key { flags, .. } = sink.buffer()[0] else {
        panic!("a keyboard record was expected");
    };
    assert_eq!(flags & KEY_UP, KEY_UP);
    assert_eq!(sink.pressed().buttons(), &[0]);

    assert!(sink.release_all());
    assert_eq!(sink.buffer().len(), 3);
    assert!(sink.pressed().is_empty());
}

#[test]
fn buffer_capacity_covers_a_full_frame_without_reallocating() {
    let mut sink = SendInputSink::new();
    let capacity = sink.buffer().capacity();
    for _ in 0..MAX_EVENTS_PER_FRAME {
        sink.push_event(&InputEvent::MouseScroll { dx: 1, dy: 1 });
    }
    assert_eq!(sink.buffer().len(), MAX_EVENTS_PER_FRAME * 2);
    assert_eq!(sink.buffer().capacity(), capacity, "no reallocation");
}

#[test]
fn every_button_is_released_by_its_own_record() {
    let mut sink = SendInputSink::default();
    let buttons =
        [MouseButton::Right, MouseButton::Middle, MouseButton::X1, MouseButton::X2];
    for button in buttons {
        sink.observe(&InputEvent::MouseButton { button, pressed: true });
    }
    sink.observe(&InputEvent::Key { scancode: 0x5B, pressed: true, extended: true });
    assert!(sink.release_all());
    let mouse = |data, flags| Injection::Mouse { dx: 0, dy: 0, data, flags };
    assert_eq!(
        sink.buffer(),
        &vec![
            Injection::Key {
                virtual_key: 0,
                scancode: 0x5B,
                flags: KEY_SCANCODE | KEY_UP | KEY_EXTENDED
            },
            mouse(0, MOUSE_RIGHT_UP),
            mouse(0, MOUSE_MIDDLE_UP),
            mouse(1, MOUSE_X_UP),
            mouse(2, MOUSE_X_UP),
        ]
    );
    assert!(!sink.release_all(), "nothing is held any more");
}

#[test]
fn a_frame_is_applied_in_one_block() {
    let mut sink = SendInputSink::new();
    let frame = InputFrame {
        seq: 1,
        events: vec![
            InputEvent::MouseMoveRelative { dx: -7, dy: 3 },
            InputEvent::MouseButton { button: MouseButton::Left, pressed: true },
        ],
    };
    sink.apply(&frame);
    assert_eq!(
        sink.buffer(),
        &vec![
            Injection::Mouse { dx: -7, dy: 3, data: 0, flags: 1 },
            Injection::Mouse { dx: 0, dy: 0, data: 0, flags: MOUSE_LEFT_DOWN },
        ]
    );
    assert_eq!(sink.pressed().buttons(), &[0]);
    assert_eq!(
        sink.flushed(1),
        Err(InputError::Refused("1/2 événements acceptés".to_string()))
    );
    assert!(sink.buffer().is_empty());
    assert_eq!(sink.flushed(0), Ok(()));
    sink.apply(&frame);
    assert_eq!(sink.flushed(2), Ok(()));
}

#[test]
fn injection_errors_are_worded() {
    assert_eq!(InputError::Refused("1/2".to_string()).message(), "injection refusée: 1/2");
    assert_eq!(
        InputError::MissingPrivilege("SeShutdownPrivilege").message(),
        "privilège SeShutdownPrivilege indisponible"
    );
    assert_eq!(InputError::System("x".to_string()).message(), "erreur système: x");
}
