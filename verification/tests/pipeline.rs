use sidgate::agent::config::VideoConfig;
use sidgate::agent::pipeline::{
    encoder_config, CaptureLoop, LoopAction, LoopEvent, PipelineCommand, PipelineStats,
    StatsSnapshot, FRAME_QUEUE_DEPTH,
};
use sidgate::agent::pairing::RandomUnavailable;
use sidgate::agent::session::{
    drawn_ssrc, h264_codec, is_connected, is_terminal, negotiated_payload_type, random_ssrc,
    ConnectionState, NegotiatedCodec, Session, VideoClock, VIDEO_CLOCK_RATE,
};
use sidgate::capture::{CaptureError, DesktopInfo, FrameStatus};
use sidgate::encode::mediafoundation::Submission;

fn snapshot(captured: u64, encoded: u64, bytes: u64, encode_us: u64) -> StatsSnapshot {
    StatsSnapshot { captured, encoded, dropped: 0, idle: 0, bytes, encode_us }
}

#[test]
fn delta_reports_the_interval_not_the_total() {
    let previous = snapshot(100, 90, 1_000, 500);
    let current = snapshot(160, 150, 4_000, 1_100);
    let delta = current.delta(&previous);
    assert_eq!(delta.captured, 60);
    assert_eq!(delta.encoded, 60);
    assert_eq!(delta.bytes, 3_000);
    assert_eq!(delta.encode_us, 600);
}

#[test]
fn delta_never_underflows_after_a_pipeline_restart() {
    let previous = snapshot(1_000, 900, 50_000, 9_000);
    let delta = snapshot(5, 4, 100, 20).delta(&previous);
    assert_eq!(delta.captured, 0);
    assert_eq!(delta.encoded, 0);
    assert_eq!(delta.bytes, 0);
}

#[test]
fn stats_snapshot_reads_every_counter() {
    let stats = PipelineStats { captured: 7, dropped: 2, idle: 41, ..PipelineStats::default() };
    let snap = stats.snapshot();
    assert_eq!((snap.captured, snap.dropped, snap.idle), (7, 2, 41));
    assert_eq!((snap.encoded, snap.bytes, snap.encode_us), (0, 0, 0));
}

fn desktop() -> DesktopInfo {
    DesktopInfo { width: 1920, height: 1080, output_index: 0 }
}

fn running() -> CaptureLoop {
    let mut l = CaptureLoop::new();
    assert_eq!(l.advance(LoopEvent::Opened(desktop())), LoopAction::AnnounceReady(desktop()));
    assert_eq!(l.advance(LoopEvent::Announced(true)), LoopAction::NextCommand);
    l
}

#[test]
fn a_cycle_captures_encodes_and_queues() {
    let mut l = running();
    assert_eq!(l.advance(LoopEvent::NoCommand), LoopAction::Acquire);
    let ready = FrameStatus::Ready { accumulated: 1 };
    assert_eq!(l.advance(LoopEvent::Acquired(Ok(ready))), LoopAction::Submit);
    assert_eq!(
        l.advance(LoopEvent::Submitted(Submission::Accepted, 700, 2)),
        LoopAction::Send
    );
    assert_eq!(l.advance(LoopEvent::Queued(1000)), LoopAction::Send);
    assert_eq!(l.advance(LoopEvent::QueueFull(500)), LoopAction::NextCommand);
    assert_eq!(
        l.stats(),
        PipelineStats {
            captured: 1,
            encoded: 2,
            dropped: 1,
            idle: 0,
            bytes: 1500,
            encode_us: 700
        }
    );
}

#[test]
fn a_busy_encoder_drops_the_image() {
    let mut l = running();
    l.advance(LoopEvent::NoCommand);
    l.advance(LoopEvent::Acquired(Ok(FrameStatus::Ready { accumulated: 3 })));
    assert_eq!(
        l.advance(LoopEvent::Submitted(Submission::Busy, 1, 0)),
        LoopAction::NextCommand
    );
    assert_eq!(l.stats().dropped, 1);
    assert_eq!(l.stats().encoded, 0);
}

#[test]
fn a_still_desktop_only_polls() {
    let mut l = running();
    l.advance(LoopEvent::NoCommand);
    assert_eq!(l.advance(LoopEvent::Acquired(Ok(FrameStatus::Idle))), LoopAction::Poll);
    assert_eq!(l.advance(LoopEvent::Polled(0)), LoopAction::NextCommand);
    assert_eq!(l.stats(), PipelineStats { idle: 1, ..PipelineStats::default() });
}

#[test]
fn orders_are_carried_out_before_the_next_image() {
    let mut l = running();
    assert_eq!(
        l.advance(LoopEvent::Command(PipelineCommand::Keyframe)),
        LoopAction::RequestKeyframe
    );
    assert_eq!(
        l.advance(LoopEvent::Command(PipelineCommand::Bitrate(5))),
        LoopAction::SetBitrate(5)
    );
    assert_eq!(l.advance(LoopEvent::Command(PipelineCommand::Stop)), LoopAction::End);
    assert_eq!(running().advance(LoopEvent::CommandsClosed), LoopAction::End);
}

#[test]
fn a_lost_duplication_is_rebuilt() {
    let mut l = running();
    l.advance(LoopEvent::NoCommand);
    assert_eq!(
        l.advance(LoopEvent::Acquired(Err(CaptureError::Lost))),
        LoopAction::Reopen
    );
    assert_eq!(l.advance(LoopEvent::OpenFailed), LoopAction::Pause);
    assert_eq!(l.advance(LoopEvent::Paused), LoopAction::NextCommand);
    l.advance(LoopEvent::NoCommand);
    l.advance(LoopEvent::Acquired(Err(CaptureError::Lost)));
    assert_eq!(l.advance(LoopEvent::Opened(desktop())), LoopAction::KeyframeAfterReopen);
}

#[test]
fn failures_end_the_loop() {
    assert_eq!(CaptureLoop::new().advance(LoopEvent::OpenFailed), LoopAction::AnnounceFailure);
    let mut l = CaptureLoop::new();
    l.advance(LoopEvent::Opened(desktop()));
    assert_eq!(l.advance(LoopEvent::Announced(false)), LoopAction::End);

    let mut l = running();
    l.advance(LoopEvent::NoCommand);
    assert_eq!(
        l.advance(LoopEvent::Acquired(Err(CaptureError::DesktopUnavailable))),
        LoopAction::End
    );

    let mut l = running();
    l.advance(LoopEvent::NoCommand);
    l.advance(LoopEvent::Acquired(Ok(FrameStatus::Idle)));
    assert_eq!(l.advance(LoopEvent::EncoderFailed), LoopAction::End);

    let mut l = running();
    l.advance(LoopEvent::NoCommand);
    l.advance(LoopEvent::Acquired(Ok(FrameStatus::Idle)));
    assert_eq!(l.advance(LoopEvent::Polled(1)), LoopAction::Send);
    assert_eq!(l.advance(LoopEvent::QueueClosed(9)), LoopAction::End);
    assert_eq!(l.stats().encoded, 1);
}

#[test]
fn the_encoder_follows_the_desktop() {
    let video = VideoConfig::default();
    let config = encoder_config(
        &video,
        DesktopInfo { width: 3840, height: 2160, output_index: 1 },
        8_000_000,
    );
    assert_eq!((config.width, config.height, config.framerate), (3840, 2160, 60));
    assert_eq!(config.bitrate, 32_000_000);
    assert_eq!(FRAME_QUEUE_DEPTH, 3);
}

#[test]
fn terminal_states_trigger_the_killswitch() {
    for state in [ConnectionState::Disconnected, ConnectionState::Failed, ConnectionState::Closed] {
        assert!(is_terminal(state), "{state:?} must lock the session");
    }
}

#[test]
fn transient_states_do_not_trigger_it() {
    for state in [ConnectionState::New, ConnectionState::Connecting, ConnectionState::Connected] {
        assert!(!is_terminal(state), "{state:?} must not lock");
    }
    assert!(!is_terminal(ConnectionState::Unspecified));
}

#[test]
fn only_connected_starts_the_pipeline() {
    assert!(is_connected(ConnectionState::Connected));
    assert!(!is_connected(ConnectionState::Connecting));
    assert!(!is_connected(ConnectionState::New));
}

#[test]
fn ssrc_is_never_zero() {
    let mut seen = Vec::new();
    for _ in 0..1000 {
        let ssrc = random_ssrc().unwrap();
        assert_ne!(ssrc, 0, "a zero source is not valid in RTP");
        seen.push(ssrc);
    }
    assert!(seen.iter().any(|s| *s != seen[0]));
}

#[test]
fn codec_line_allows_fragmentation() {
    let codec = h264_codec();
    assert_eq!(codec.clock_rate, VIDEO_CLOCK_RATE);
    assert!(codec.sdp_fmtp_line.contains("packetization-mode=1"));
    assert!(codec.sdp_fmtp_line.contains("level-asymmetry-allowed=1"));
}

fn codec(mime_type: &str, payload_type: u8) -> NegotiatedCodec {
    NegotiatedCodec { mime_type: mime_type.to_string(), payload_type }
}

#[test]
fn the_payload_type_is_the_negotiated_one() {
    let codecs = [codec("video/VP8", 96), codec("VIDEO/h264", 102), codec("video/H264", 104)];
    assert_eq!(negotiated_payload_type(&codecs), Some(102));
    assert_eq!(negotiated_payload_type(&codecs[..1]), Some(96));
    assert_eq!(negotiated_payload_type(&[]), None);

    let mut session = Session::new(7, None);
    assert_eq!(session, Session { ssrc: 7, payload_type: 96 });
    assert!(!session.accept_offer(None));
    assert!(session.accept_offer(Some(&codecs)));
    assert_eq!(session.payload_type, 102);
    assert!(!session.accept_offer(Some(&codecs)));
    assert_eq!(Session::new(7, Some(&codecs[1..])).payload_type, 102);
    assert_eq!(Session::new(7, Some(&[])).payload_type, 96);
}

#[test]
fn a_plan_names_stun_servers_once() {
    let none = Session::plan(&[], 60).unwrap();
    assert_eq!(none.ice_urls, None);
    assert_eq!(none.max_framerate, 60);
    let urls = ["stun:a".to_string(), "stun:b".to_string()];
    let some = Session::plan(&urls, 30).unwrap();
    assert_eq!(some.ice_urls, Some(urls.to_vec()));
    assert_ne!(some.ssrc, 0);
}

#[test]
fn the_video_clock_follows_the_images() {
    let mut clock = VideoClock::new(60);
    assert_eq!(clock.advance(1_000), 16_666_666);
    assert_eq!(clock.advance(5_000_001_000), 5_000_000_000);
    assert_eq!(clock.advance(5_000_001_000), 16_666_666);
    assert_eq!(clock.advance(4_000_000_000), 16_666_666);
    assert_eq!(VideoClock::new(0).advance(0), 1_000_000_000);
}

#[test]
fn the_loop_expects_what_it_asked_for() {
    let mut l = CaptureLoop::new();
    assert!(l.expects(&LoopEvent::OpenFailed));
    assert!(!l.expects(&LoopEvent::NoCommand));
    l.advance(LoopEvent::OpenFailed);
    for event in [LoopEvent::OpenFailed, LoopEvent::Paused, LoopEvent::Queued(1)] {
        assert!(!l.expects(&event), "the loop is over");
    }
    let mut l = running();
    l.advance(LoopEvent::NoCommand);
    l.advance(LoopEvent::Acquired(Ok(FrameStatus::Idle)));
    l.advance(LoopEvent::Polled(1));
    assert!(l.expects(&LoopEvent::QueueFull(1)));
    l.advance(LoopEvent::Queued(1));
    assert!(!l.expects(&LoopEvent::QueueFull(1)));
}

#[test]
fn a_source_is_what_was_drawn() {
    assert_eq!(drawn_ssrc(Some(0x0102_0304)), Ok(0x0102_0304));
    assert_eq!(drawn_ssrc(None), Err(RandomUnavailable));
    assert_ne!(random_ssrc().unwrap(), random_ssrc().unwrap());
}

#[test]
fn a_plan_needs_a_source() {
    assert_eq!(Session::planned(Err(RandomUnavailable), &[], 60), Err(RandomUnavailable));
    let plan = Session::planned(Ok(7), &[], 60).unwrap();
    assert_eq!(plan.ssrc, 7);
    assert_eq!(plan.codec, h264_codec());
}

#[test]
fn the_counters_count_the_events() {
    let desktop = DesktopInfo { width: 640, height: 480, output_index: 0 };
    let mut logic = CaptureLoop::new();
    for event in [
        LoopEvent::Opened(desktop),
        LoopEvent::Announced(true),
        LoopEvent::NoCommand,
        LoopEvent::Acquired(Ok(FrameStatus::Ready { accumulated: 1 })),
        LoopEvent::Submitted(Submission::Accepted, 700, 2),
        LoopEvent::Queued(100),
        LoopEvent::QueueFull(50),
        LoopEvent::NoCommand,
        LoopEvent::Acquired(Ok(FrameStatus::Ready { accumulated: 1 })),
        LoopEvent::Submitted(Submission::Busy, 300, 0),
        LoopEvent::NoCommand,
        LoopEvent::Acquired(Ok(FrameStatus::Idle)),
    ] {
        assert!(logic.expects(&event));
        logic.advance(event);
    }
    assert_eq!(
        logic.stats(),
        PipelineStats {
            captured: 2,
            encoded: 2,
            dropped: 2,
            idle: 1,
            bytes: 150,
            encode_us: 1_000,
        }
    );
}
