use sidgate::agent::config::SecurityConfig;
use sidgate::agent::control::RATE_LIMIT;
use sidgate::agent::pipeline::StatsSnapshot;
use sidgate::agent::session::ConnectionState;
use sidgate::agent::signaling::{
    answer, channel_kind, command_outcome, handle_client_message, is_desktop_unavailable, run_session,
    stats_from, try_start_pipeline,
    ActionOutcome, Admission, ChannelKind, ControlInput, ControlStep, HostAction, InputOutcome, PipelineStart, SessionInput,
    SessionRuntime, SessionSlot, SessionStep, StartFailure, StatsReporter, TeardownStep, STATS_INTERVAL,
};
use sidgate::capture::{CaptureError, DesktopInfo};
use sidgate::clock::SECOND;
use sidgate::inject::send_input::Injection;
use sidgate::proto::control::{
    Capabilities, ControlCommand, ControlEvent, CursorMode, QualityPreset, RejectReason,
};
use sidgate::proto::input::{InputEvent, InputFrame};
use sidgate::proto::signaling::{ClientMessage, ServerMessage};

#[test]
fn one_session_at_a_time() {
    let mut slot = SessionSlot::new();
    assert!(slot.take());
    assert!(!slot.take());
    slot.release();
    assert!(slot.take());
}

#[test]
fn signalling_messages_are_routed() {
    let offer = ClientMessage::Offer { sdp: "v=0".to_string() };
    assert!(matches!(handle_client_message(offer), SessionStep::AcceptOffer(s) if s == "v=0"));
    assert!(matches!(
        run_session(SessionInput::Client(ClientMessage::Bye)),
        SessionStep::End
    ));
    let replay = ClientMessage::Authenticate {
        protocol: 1,
        client_key: String::new(),
        client_nonce: String::new(),
        signature: String::new(),
    };
    assert!(matches!(run_session(SessionInput::Client(replay)), SessionStep::Continue));
    let candidate = ClientMessage::Candidate {
        candidate: "c".to_string(),
        sdp_mid: None,
        sdp_mline_index: Some(3),
    };
    assert!(matches!(
        run_session(SessionInput::Client(candidate)),
        SessionStep::AddCandidate { candidate, sdp_mid: None, sdp_mline_index: Some(3) }
            if candidate == "c"
    ));
    assert_eq!(answer("v=1".to_string()), ServerMessage::Answer { sdp: "v=1".to_string() });
}

#[test]
fn transport_events_are_routed() {
    let ice = SessionInput::IceCandidate {
        candidate: "c".to_string(),
        sdp_mid: Some("0".to_string()),
        sdp_mline_index: None,
    };
    assert!(matches!(
        run_session(ice),
        SessionStep::Send(ServerMessage::Candidate { candidate, .. }) if candidate == "c"
    ));
    assert!(matches!(
        run_session(SessionInput::Connection(ConnectionState::Connected)),
        SessionStep::StartStreaming
    ));
    assert!(matches!(
        run_session(SessionInput::Connection(ConnectionState::Disconnected)),
        SessionStep::End
    ));
    assert!(matches!(
        run_session(SessionInput::Connection(ConnectionState::Connecting)),
        SessionStep::Continue
    ));
    for end in [
        SessionInput::SocketClosed,
        SessionInput::SocketFailed,
        SessionInput::OfferRefused,
        SessionInput::SendFailed,
        SessionInput::EventsEnded,
    ] {
        assert!(matches!(run_session(end), SessionStep::End));
    }
    for nothing in [SessionInput::Unreadable, SessionInput::OtherFrame] {
        assert!(matches!(run_session(nothing), SessionStep::Continue));
    }
    assert!(matches!(
        run_session(SessionInput::DataChannel("input-raw".to_string())),
        SessionStep::OpenChannel(ChannelKind::Input)
    ));
    assert_eq!(channel_kind("control-secure"), Some(ChannelKind::Control));
    assert_eq!(channel_kind("Input-Raw"), None);
}

fn frame(seq: u32) -> Vec<u8> {
    InputFrame { seq, events: vec![InputEvent::MouseMoveRelative { dx: 1, dy: 2 }] }.encode()
}

#[test]
fn input_frames_are_applied_once() {
    let mut r = SessionRuntime::new(SecurityConfig::default());
    assert_eq!(r.handle_input(&frame(5)), InputOutcome::Inject);
    assert_eq!(r.waiting(), &vec![Injection::Mouse { dx: 1, dy: 2, data: 0, flags: 1 }]);
    assert_eq!(r.flushed(1), Ok(()));
    assert_eq!(r.handle_input(&frame(5)), InputOutcome::Stale);
    assert_eq!(r.handle_input(&frame(4)), InputOutcome::Stale);
    assert!(r.waiting().is_empty());
    assert_eq!(r.rejected_inputs(), 0);
    assert_eq!(r.handle_input(&[1, 2, 3]), InputOutcome::Refused);
    assert_eq!(r.rejected_inputs(), 1);
}

#[test]
fn input_needs_permission() {
    let strict = SecurityConfig { allow_input: false, ..SecurityConfig::default() };
    let mut r = SessionRuntime::new(strict);
    assert_eq!(r.handle_input(&frame(1)), InputOutcome::Refused);
    assert!(r.waiting().is_empty());
    assert_eq!(r.rejected_inputs(), 1);
}

fn rejected(command: &str, reason: RejectReason) -> ControlStep {
    ControlStep::Reply(ControlEvent::CommandRejected { command: command.to_string(), reason })
}

fn accepted(command: &str) -> ControlStep {
    ControlStep::Reply(ControlEvent::CommandAccepted { command: command.to_string() })
}

fn desktop() -> DesktopInfo {
    DesktopInfo { width: 3840, height: 2160, output_index: 0 }
}

#[test]
fn commands_are_decided_on() {
    let mut r = SessionRuntime::new(SecurityConfig::default());
    assert_eq!(r.handle_control(ControlInput::NotText), ControlStep::Nothing);
    assert_eq!(
        r.handle_control(ControlInput::Malformed),
        rejected("inconnue", RejectReason::Malformed)
    );
    let command = ControlInput::Command;
    assert_eq!(
        r.handle_control(command(ControlCommand::Reboot)),
        rejected("reboot", RejectReason::NotPermitted)
    );
    assert_eq!(
        r.handle_control(command(ControlCommand::RequestKeyframe)),
        rejected("request_keyframe", RejectReason::WrongState)
    );
    let quality = ControlCommand::SetQuality { preset: QualityPreset::Balanced };
    assert_eq!(
        r.handle_control(command(quality)),
        rejected("set_quality", RejectReason::WrongState)
    );
    assert_eq!(
        r.handle_control(command(ControlCommand::Lock)),
        ControlStep::Act { action: HostAction::Lock, command: "lock" }
    );
    assert_eq!(r.handle_control(command(ControlCommand::Pong { seq: 1 })), accepted("pong"));
    assert!(!r.cursor_absolute());
    let absolute = ControlCommand::SetCursorMode { mode: CursorMode::Absolute };
    assert_eq!(r.handle_control(command(absolute)), accepted("set_cursor_mode"));
    assert!(r.cursor_absolute());

    r.start_streaming(PipelineStart::Started(desktop()), "0.1.0");
    assert_eq!(
        r.handle_control(command(quality)),
        ControlStep::Act { action: HostAction::Bitrate(32_000_000), command: "set_quality" }
    );
    assert_eq!(
        r.handle_control(command(ControlCommand::RequestStats)),
        ControlStep::Act { action: HostAction::SendStats, command: "request_stats" }
    );
    assert_eq!(
        command_outcome("lock", ActionOutcome::Done),
        ControlEvent::CommandAccepted { command: "lock".to_string() }
    );
    assert_eq!(
        command_outcome("lock", ActionOutcome::Failed),
        ControlEvent::CommandRejected { command: "lock".to_string(), reason: RejectReason::Failed }
    );
}

#[test]
fn flooding_is_refused_by_name() {
    let mut r = SessionRuntime::new(SecurityConfig::default());
    for _ in 0..40 {
        r.handle_control_at(ControlInput::Command(ControlCommand::RequestStats), 0);
    }
    assert_eq!(
        r.handle_control_at(ControlInput::Command(ControlCommand::Lock), 0),
        rejected("lock", RejectReason::RateLimited)
    );
}

#[test]
fn streaming_starts_with_a_greeting() {
    let mut r = SessionRuntime::new(SecurityConfig::default());
    r.channel_opened(ChannelKind::Input);
    assert!(!r.can_emit());
    r.channel_opened(ChannelKind::Control);
    assert!(r.can_emit());
    let step = r.start_streaming(PipelineStart::Started(desktop()), "0.1.0");
    assert!(!step.retry);
    assert_eq!(
        step.events,
        vec![ControlEvent::Hello {
            version: "0.1.0".to_string(),
            capabilities: Capabilities {
                power_actions: false,
                input_injection: true,
                video_codec: "H264".to_string(),
                width: 3840,
                height: 2160,
            },
        }]
    );
    assert!(r.is_streaming());
    assert!(r.start_streaming(PipelineStart::Running, "0.1.0").events.is_empty());
    r.stop_streaming();
    assert!(!r.is_streaming());
}

#[test]
fn an_unreachable_desktop_is_tried_again() {
    let unavailable = |text: &str| PipelineStart::Unavailable(text.to_string());
    let message = |text: &str| ControlEvent::CaptureUnavailable { message: text.to_string() };
    let mut r = SessionRuntime::new(SecurityConfig::default());
    let step = r.start_streaming(unavailable("verrouillé"), "v");
    assert!(step.retry);
    assert_eq!(step.events, vec![message("verrouillé")]);
    let step = r.start_streaming(PipelineStart::Failed("panne".to_string()), "v");
    assert!(!step.retry);
    assert_eq!(step.events, vec![message("panne")]);

    let step = r.retry_streaming(unavailable("verrouillé"), "v");
    assert!(step.retry && step.events.is_empty());
    let step = r.retry_streaming(PipelineStart::Started(desktop()), "v");
    assert!(!step.retry);
    assert_eq!(step.events.len(), 2);
    assert_eq!(step.events[1], ControlEvent::CaptureResumed);
    let step = r.retry_streaming(PipelineStart::Failed("panne".to_string()), "v");
    assert!(!step.retry && step.events.is_empty());
}

#[test]
fn the_host_is_locked_last() {
    let r = SessionRuntime::new(SecurityConfig::default());
    assert_eq!(
        r.teardown(),
        vec![
            TeardownStep::AbortTasks,
            TeardownStep::ReleaseInputs,
            TeardownStep::DropPipeline,
            TeardownStep::CloseTransport,
            TeardownStep::LockHost,
        ]
    );
    let open = SecurityConfig { lock_on_disconnect: false, ..SecurityConfig::default() };
    assert_eq!(SessionRuntime::new(open).teardown().len(), 4);
}

#[test]
fn what_the_client_holds_is_released() {
    let mut r = SessionRuntime::new(SecurityConfig::default());
    let press = InputFrame {
        seq: 1,
        events: vec![InputEvent::Key { scancode: 0x2A, pressed: true, extended: false }],
    };
    assert_eq!(r.handle_input(&press.encode()), InputOutcome::Inject);
    assert!(r.release_all());
    assert_eq!(
        r.waiting(),
        &vec![Injection::Key { virtual_key: 0, scancode: 0x2A, flags: 0x0A }]
    );
    assert!(!r.release_all());
}

#[test]
fn telemetry_covers_the_interval() {
    let counters = |captured, bytes| StatsSnapshot {
        captured,
        encoded: captured,
        dropped: 0,
        idle: 0,
        bytes,
        encode_us: 0,
    };
    let mut reporter = StatsReporter::new(counters(10, 100), 1_000);
    let report = reporter.tick(true, counters(130, 2_000_100), 1_000 + STATS_INTERVAL).unwrap();
    assert_eq!(report.frames_captured, 120);
    assert_eq!(report.bytes, 2_000_000);
    assert_eq!(report.elapsed_nanos, STATS_INTERVAL);
    let report = reporter.tick(true, counters(130, 2_000_100), 1_001 + STATS_INTERVAL).unwrap();
    assert_eq!((report.frames_captured, report.elapsed_nanos), (0, 1));
    assert!(reporter.tick(false, counters(0, 0), 0).is_none());
    assert_eq!(stats_from(&counters(3, 4), 5).frames_encoded, 3);
}

#[test]
fn only_an_unreachable_desktop_is_waited_for() {
    assert!(is_desktop_unavailable(&CaptureError::DesktopUnavailable));
    assert!(!is_desktop_unavailable(&CaptureError::Lost));
    assert!(!is_desktop_unavailable(&CaptureError::System("x".to_string())));
}

#[test]
fn a_command_that_cannot_be_computed_is_told_apart() {
    let mut r = SessionRuntime::new(SecurityConfig::default());
    let quality = ControlInput::Command(ControlCommand::SetQuality { preset: QualityPreset::Low });
    assert!(r.can_compute(quality));
    let absurd = DesktopInfo { width: u32::MAX, height: u32::MAX, output_index: 0 };
    r.start_streaming(PipelineStart::Started(absurd), "v");
    assert!(!r.can_compute(quality));
    assert!(r.can_compute(ControlInput::Malformed));
}

#[test]
fn an_attempt_to_start_is_told_apart() {
    let desktop = DesktopInfo { width: 1920, height: 1080, output_index: 0 };
    assert!(matches!(try_start_pipeline(None), PipelineStart::Running));
    assert!(matches!(
        try_start_pipeline(Some(Ok(desktop))),
        PipelineStart::Started(d) if d == desktop
    ));
    let locked = StartFailure::Capture(CaptureError::DesktopUnavailable);
    assert!(matches!(
        try_start_pipeline(Some(Err(locked))),
        PipelineStart::Unavailable(t) if t == CaptureError::DesktopUnavailable.message()
    ));
    let lost = StartFailure::Capture(CaptureError::OutputNotFound(3));
    assert!(matches!(
        try_start_pipeline(Some(Err(lost))),
        PipelineStart::Failed(t) if t == "sortie vidéo 3 introuvable"
    ));
    let other = StartFailure::Other("panne".to_string());
    assert!(matches!(
        try_start_pipeline(Some(Err(other))),
        PipelineStart::Failed(t) if t == "panne"
    ));
}

#[test]
fn a_pipeline_that_is_gone_is_the_wrong_state() {
    assert_eq!(
        command_outcome("request_keyframe", ActionOutcome::NoPipeline),
        ControlEvent::CommandRejected {
            command: "request_keyframe".to_string(),
            reason: RejectReason::WrongState,
        }
    );
}

#[test]
fn a_frame_is_admitted_then_applied() {
    let frame = InputFrame {
        seq: 5,
        events: vec![InputEvent::Key { scancode: 0x1E, pressed: true, extended: false }],
    };
    let mut runtime = SessionRuntime::new(SecurityConfig::default());
    assert!(matches!(runtime.admit_input(&[1, 2]), Admission::Refused));
    assert_eq!(runtime.rejected_inputs(), 1);
    match runtime.admit_input(&frame.encode()) {
        Admission::Apply(admitted) => {
            assert_eq!(admitted, frame);
            assert!(runtime.waiting().is_empty());
            runtime.apply_frame(&admitted);
        }
        other => panic!("unexpected: {other:?}"),
    }
    assert_eq!(runtime.waiting().len(), 1);
    assert!(matches!(runtime.admit_input(&frame.encode()), Admission::Stale));
    assert!(runtime.release_all());
}

#[test]
fn stats_are_derived_from_the_interval() {
    let delta = StatsSnapshot {
        captured: 120,
        encoded: 118,
        dropped: 2,
        idle: 5,
        bytes: 2_000_000,
        encode_us: 120_000,
    };
    let stats = stats_from(&delta, 2 * SECOND);
    let seconds = stats.elapsed_nanos as f64 / 1e9;
    assert_eq!(stats.frames_encoded as f64 / seconds, 59.0);
    assert_eq!((stats.bytes as f64 * 8.0 / seconds) as u32, 8_000_000);
    assert_eq!(stats.frames_dropped, 2);
    let encode_ms = stats.encode_us as f64 / stats.frames_captured as f64 / 1000.0;
    assert!((encode_ms - 1.0).abs() < 0.001);
    assert_eq!(stats.frames_idle, 5);
}

#[test]
fn a_command_over_the_limit_is_answered_without_computing() {
    let quality = ControlInput::Command(ControlCommand::SetQuality { preset: QualityPreset::Ultra });
    let mut runtime = SessionRuntime::new(SecurityConfig::default());
    assert!(runtime.can_answer(quality, 0));
    assert!(matches!(
        runtime.try_handle_control(ControlInput::Malformed),
        Some(ControlStep::Reply(_))
    ));
    for _ in 0..RATE_LIMIT {
        runtime.handle_control_at(ControlInput::Command(ControlCommand::RequestStats), 0);
    }
    assert!(runtime.can_answer(quality, 0));
    assert!(matches!(
        runtime.handle_control_at(quality, 0),
        ControlStep::Reply(ControlEvent::CommandRejected { reason: RejectReason::RateLimited, .. })
    ));
}
