use sidgate::proto::input::{
    decode_event, InputEvent, InputFrame, MouseButton, SeqTracker, FRAME_VERSION, KIND_KEY,
    KIND_MOUSE_BUTTON, KIND_MOUSE_MOVE_REL, MAX_EVENTS_PER_FRAME,
};
use sidgate::proto::{ProtoError, CHANNEL_CONTROL, CHANNEL_INPUT, PROTOCOL_VERSION};

fn sample_frame() -> InputFrame {
    InputFrame {
        seq: 0xDEAD_BEEF,
        events: vec![
            InputEvent::MouseMoveRelative { dx: -3, dy: 12 },
            InputEvent::MouseMoveAbsolute { x: 0, y: u16::MAX },
            InputEvent::MouseButton { button: MouseButton::X2, pressed: true },
            InputEvent::MouseScroll { dx: 0, dy: -120 },
            InputEvent::Key { scancode: 0x4B, pressed: false, extended: true },
        ],
    }
}

#[test]
fn roundtrip_preserves_every_event() {
    let frame = sample_frame();
    assert_eq!(InputFrame::decode(&frame.encode()).unwrap(), frame);
}

#[test]
fn frame_stays_compact() {
    assert_eq!(sample_frame().encode().len(), 28);
}

#[test]
fn encode_into_reuses_buffer_without_growing_it() {
    let frame = sample_frame();
    let mut buf = Vec::new();
    frame.encode_into(&mut buf);
    let capacity = buf.capacity();
    for _ in 0..100 {
        frame.encode_into(&mut buf);
    }
    assert_eq!(buf.capacity(), capacity);
    assert_eq!(InputFrame::decode(&buf).unwrap(), frame);
}

#[test]
fn rejects_wrong_version() {
    let mut buf = sample_frame().encode();
    buf[0] = 0xFF;
    assert_eq!(InputFrame::decode(&buf), Err(ProtoError::BadVersion(0xFF)));
}

#[test]
fn rejects_unknown_event_kind() {
    let buf = [FRAME_VERSION, 0, 0, 0, 0, 1, 0x7F, 0, 0, 0, 0];
    assert_eq!(InputFrame::decode(&buf), Err(ProtoError::UnknownEvent(0x7F)));
}

#[test]
fn rejects_unknown_mouse_button() {
    let buf = [FRAME_VERSION, 0, 0, 0, 0, 1, KIND_MOUSE_BUTTON, 99, 1];
    assert!(matches!(InputFrame::decode(&buf), Err(ProtoError::UnknownEvent(_))));
}

#[test]
fn rejects_truncated_payload() {
    let buf = [FRAME_VERSION, 0, 0, 0, 0, 1, KIND_MOUSE_MOVE_REL, 1, 2];
    assert!(matches!(InputFrame::decode(&buf), Err(ProtoError::Truncated { .. })));
}

#[test]
fn rejects_declared_count_above_hard_limit() {
    let buf = [FRAME_VERSION, 0, 0, 0, 0, 200];
    assert_eq!(InputFrame::decode(&buf), Err(ProtoError::TooManyEvents(200)));
}

#[test]
fn rejects_trailing_bytes() {
    let mut buf = sample_frame().encode();
    buf.push(0x00);
    assert_eq!(InputFrame::decode(&buf), Err(ProtoError::TrailingBytes(1)));
}

#[test]
fn rejects_empty_and_short_buffers() {
    assert!(matches!(InputFrame::decode(&[]), Err(ProtoError::Truncated { .. })));
    assert!(matches!(
        InputFrame::decode(&[FRAME_VERSION, 0, 0]),
        Err(ProtoError::Truncated { .. })
    ));
}

#[test]
fn empty_frame_is_valid() {
    let frame = InputFrame { seq: 7, events: vec![] };
    assert_eq!(InputFrame::decode(&frame.encode()).unwrap(), frame);
}

#[test]
fn encoding_caps_events_at_hard_limit() {
    let frame = InputFrame {
        seq: 1,
        events: vec![InputEvent::MouseMoveRelative { dx: 1, dy: 1 }; MAX_EVENTS_PER_FRAME + 10],
    };
    let decoded = InputFrame::decode(&frame.encode()).unwrap();
    assert_eq!(decoded.events.len(), MAX_EVENTS_PER_FRAME);
}

#[test]
fn tracker_drops_stale_and_duplicate_frames() {
    let mut tracker = SeqTracker::new();
    assert!(tracker.accept(10));
    assert!(tracker.accept(11));
    assert!(!tracker.accept(11), "duplicate");
    assert!(!tracker.accept(9), "stale");
    assert!(tracker.accept(12));
}

#[test]
fn tracker_survives_u32_wraparound() {
    let mut tracker = SeqTracker::new();
    assert!(tracker.accept(u32::MAX - 1));
    assert!(tracker.accept(u32::MAX));
    assert!(tracker.accept(0), "wrap-around accepted");
    assert!(tracker.accept(1));
    assert!(!tracker.accept(u32::MAX), "from before the wrap-around");
}

#[test]
fn tracker_resets_for_a_new_session() {
    let mut tracker = SeqTracker::new();
    assert!(tracker.accept(500));
    assert!(!tracker.accept(1));
    tracker.reset();
    assert!(tracker.accept(1));
}

#[test]
fn every_event_has_its_exact_bytes() {
    let bytes = sample_frame().encode();
    assert_eq!(
        bytes,
        vec![
            1, 0xEF, 0xBE, 0xAD, 0xDE, 5, // header
            1, 0xFD, 0xFF, 12, 0, // relative move
            2, 0, 0, 0xFF, 0xFF, // absolute move
            3, 4, 1, // button
            4, 0, 0, 0x88, 0xFF, // scroll
            5, 0x4B, 0, 2, // key
        ]
    );
}

#[test]
fn eight_moves_take_forty_six_bytes() {
    let frame = InputFrame {
        seq: 0,
        events: vec![InputEvent::MouseMoveRelative { dx: i16::MIN, dy: i16::MAX }; 8],
    };
    let bytes = frame.encode();
    assert_eq!(bytes.len(), 46);
    assert_eq!(InputFrame::decode(&bytes).unwrap(), frame);
}

#[test]
fn truncation_reports_what_is_missing() {
    assert_eq!(
        InputFrame::decode(&[FRAME_VERSION, 0, 0]),
        Err(ProtoError::Truncated { need: 6, have: 3 })
    );
    assert_eq!(
        InputFrame::decode(&[FRAME_VERSION, 0, 0, 0, 0, 1, KIND_KEY, 1]),
        Err(ProtoError::Truncated { need: 4, have: 2 })
    );
    assert_eq!(
        InputFrame::decode(&[FRAME_VERSION, 0, 0, 0, 0, 1]),
        Err(ProtoError::Truncated { need: 1, have: 0 })
    );
}

#[test]
fn unused_flag_bits_are_ignored() {
    let buf = [FRAME_VERSION, 9, 0, 0, 0, 1, KIND_KEY, 0x1E, 0, 0xFD];
    let frame = InputFrame::decode(&buf).unwrap();
    assert_eq!(frame.seq, 9);
    assert_eq!(
        frame.events,
        vec![InputEvent::Key { scancode: 0x1E, pressed: true, extended: false }]
    );
}

#[test]
fn any_nonzero_byte_presses_a_button() {
    let buf = [FRAME_VERSION, 0, 0, 0, 0, 1, KIND_MOUSE_BUTTON, 2, 200];
    assert_eq!(
        InputFrame::decode(&buf).unwrap().events,
        vec![InputEvent::MouseButton { button: MouseButton::Middle, pressed: true }]
    );
    assert_eq!(MouseButton::X1 as u8, 3);
    assert_eq!(MouseButton::X1.code(), 3);
}

#[test]
fn tracker_looks_half_the_space_ahead() {
    let mut tracker = SeqTracker::new();
    assert_eq!(tracker.last(), None);
    assert!(tracker.accept(0));
    assert!(!tracker.accept(0x8000_0000));
    assert!(tracker.accept(0x7FFF_FFFF));
    assert_eq!(tracker.last(), Some(0x7FFF_FFFF));
}

#[test]
fn channel_labels_and_version_are_stable() {
    assert_eq!(CHANNEL_INPUT, "input-raw");
    assert_eq!(CHANNEL_CONTROL, "control-secure");
    assert_eq!(PROTOCOL_VERSION, 1);
    assert_eq!(InputFrame::default(), InputFrame { seq: 0, events: vec![] });
}

#[test]
fn refusals_are_worded() {
    let text = |e: ProtoError| e.message();
    assert_eq!(
        text(ProtoError::Truncated { need: 6, have: 3 }),
        "tampon tronqué: 6 octets requis, 3 disponibles"
    );
    assert_eq!(text(ProtoError::UnknownEvent(0x0F)), "type d'événement inconnu: 0x0f");
    assert_eq!(text(ProtoError::BadVersion(255)), "version de trame non supportée: 255");
    assert_eq!(text(ProtoError::TooManyEvents(200)), "trame trop dense: 200 événements (max 64)");
    assert_eq!(text(ProtoError::TrailingBytes(1)), "1 octets résiduels après la trame");
}

#[test]
fn an_event_needs_all_its_bytes() {
    for event in sample_frame().events {
        let mut bytes = Vec::new();
        event.encode_into(&mut bytes);
        let n = bytes.len();
        assert_eq!(n, event.encoded_len());
        assert_eq!(decode_event(&bytes), Ok((event, n)));
        for m in 0..n {
            assert!(matches!(
                decode_event(&bytes[..m]),
                Err(ProtoError::Truncated { have, .. }) if have == m
            ));
        }
        bytes.extend([0xAA, 0xBB]);
        assert_eq!(decode_event(&bytes), Ok((event, n)));
    }
}
