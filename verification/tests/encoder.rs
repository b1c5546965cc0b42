use sidgate::capture::desktop::{attach_step, AttachStage};
use sidgate::capture::dxgi::{
    is_lost, map_hresult, open_error, released, target_texture, timeout_ms, AcquireStep,
    DxgiCapturer, FrameInfo, OutputSearch, PointerState, SearchStep, SystemFailure,
    DXGI_ERROR_ACCESS_LOST, DXGI_ERROR_DEVICE_REMOVED, DXGI_ERROR_NOT_FOUND,
    DXGI_ERROR_WAIT_TIMEOUT, E_ACCESSDENIED,
};
use sidgate::capture::{CaptureError, DesktopInfo, FrameStatus};
use sidgate::encode::converter::{Nv12Converter, OUTPUT_COLOR_SPACE};
use sidgate::encode::mediafoundation::{
    build_input_type, build_output_type, configure_steps, low_latency_settings, map_error,
    first_candidate, pack_ratio, read_sample, select_encoder, starts_with_parameter_set, time_fits,
    ConfigureStep, EncoderAction, EncoderEvent, EncoderSetting, EncoderTimings, MediaFoundationEncoder, SampleData, SelectionStep, Submission,
    VideoSubtype, EVENT_HAVE_OUTPUT, EVENT_NEED_INPUT,
};
use sidgate::encode::{EncodeError, EncoderConfig};

fn config(width: u32, height: u32) -> EncoderConfig {
    EncoderConfig { width, height, framerate: 60, bitrate: 0 }
}

#[test]
fn bitrate_scales_with_pixel_count() {
    assert_eq!(config(1920, 1080).scale_bitrate_to_resolution(8_000_000).bitrate, 8_000_000);
    assert_eq!(config(3840, 2160).scale_bitrate_to_resolution(8_000_000).bitrate, 32_000_000);
    assert_eq!(config(1280, 720).scale_bitrate_to_resolution(8_000_000).bitrate, 3_555_555);
}

#[test]
fn bitrate_stays_within_sane_bounds() {
    assert_eq!(config(64, 64).scale_bitrate_to_resolution(8_000_000).bitrate, 500_000);
    assert_eq!(
        config(15360, 8640).scale_bitrate_to_resolution(50_000_000).bitrate,
        100_000_000
    );
}

#[test]
fn bitrate_scaling_does_not_overflow_on_large_surfaces() {
    let scaled = config(u16::MAX as u32, u16::MAX as u32)
        .scale_bitrate_to_resolution(100_000_000)
        .bitrate;
    assert_eq!(scaled, 100_000_000);
    assert!(config(u16::MAX as u32, u16::MAX as u32).scaling_fits(100_000_000));
    assert!(!config(u32::MAX, u32::MAX).scaling_fits(2));
}

#[test]
fn ratio_packing_matches_media_foundation_layout() {
    assert_eq!(pack_ratio(1920, 1080), (1920u64 << 32) | 1080);
    assert_eq!(pack_ratio(60, 1), (60u64 << 32) | 1);
    assert_eq!(pack_ratio(0, 0), 0);
}

#[test]
fn detects_a_leading_sequence_parameter_set() {
    assert!(starts_with_parameter_set(&[0, 0, 0, 1, 0x67, 0x42]));
    assert!(starts_with_parameter_set(&[0, 0, 1, 0x27]));
}

#[test]
fn ignores_slices_and_malformed_prefixes() {
    assert!(!starts_with_parameter_set(&[0, 0, 0, 1, 0x65]));
    assert!(!starts_with_parameter_set(&[0, 0, 1, 0x41]));
    assert!(!starts_with_parameter_set(&[0x67, 0x42]));
    assert!(!starts_with_parameter_set(&[]));
    assert!(!starts_with_parameter_set(&[0, 0, 0, 1]));
}

#[test]
fn media_types_describe_the_stream() {
    let c = EncoderConfig { bitrate: 8_000_000, ..config(1920, 1080) };
    let output = build_output_type(c);
    assert_eq!(output.subtype, VideoSubtype::H264);
    assert_eq!(output.avg_bitrate, Some(8_000_000));
    assert_eq!(output.frame_size, pack_ratio(1920, 1080));
    assert_eq!(output.frame_rate, pack_ratio(60, 1));
    assert_eq!(output.pixel_aspect_ratio, pack_ratio(1, 1));
    assert_eq!((output.interlace_mode, output.profile), (2, Some(100)));
    let input = build_input_type(c);
    assert_eq!(input.subtype, VideoSubtype::Nv12);
    assert_eq!((input.avg_bitrate, input.profile), (None, None));
    assert_eq!(input.frame_size, output.frame_size);
    assert_eq!(
        low_latency_settings(c),
        vec![
            EncoderSetting::RateControlMode(0),
            EncoderSetting::MeanBitRate(8_000_000),
            EncoderSetting::LowLatency(true),
            EncoderSetting::BPictureCount(0),
            EncoderSetting::MaxReferenceFrames(1),
            EncoderSetting::GopSize(0),
        ]
    );
}

#[test]
fn the_configuration_is_ordered() {
    let tail = [
        ConfigureStep::SetDeviceManager,
        ConfigureStep::SetOutputType,
        ConfigureStep::SetInputType,
    ];
    assert_eq!(configure_steps(None), tail.to_vec());
    assert_eq!(configure_steps(Some(0))[0], ConfigureStep::LowLatency);
    assert_eq!(configure_steps(Some(1))[0], ConfigureStep::UnlockAsync);
    assert_eq!(configure_steps(Some(1)).len(), 5);
}

fn sample(bytes: &[u8], clean_point: Option<u32>, time: Option<i64>) -> SampleData {
    SampleData { bytes: bytes.to_vec(), clean_point, time }
}

#[test]
fn key_frames_are_preceded_by_their_parameters() {
    let header = [0, 0, 0, 1, 0x67, 9];
    let key = read_sample(&header, &sample(&[0, 0, 1, 0x65], Some(1), Some(5))).unwrap();
    assert!(key.keyframe);
    assert_eq!(key.timestamp, 500);
    assert_eq!(key.data, vec![0, 0, 0, 1, 0x67, 9, 0, 0, 1, 0x65]);

    let own = read_sample(&header, &sample(&[0, 0, 1, 0x67], Some(1), None)).unwrap();
    assert_eq!(own.data, vec![0, 0, 1, 0x67]);
    let inter = read_sample(&header, &sample(&[0, 0, 1, 0x41], None, Some(-3))).unwrap();
    assert_eq!((inter.keyframe, inter.timestamp), (false, 0));
    assert_eq!(inter.data, vec![0, 0, 1, 0x41]);
    assert!(read_sample(&header, &sample(&[], Some(1), Some(1))).is_none());
    assert!(!read_sample(&header, &sample(&[1], Some(2), None)).unwrap().keyframe);
}

#[test]
fn an_asynchronous_encoder_is_fed_by_its_credits() {
    let mut e = MediaFoundationEncoder::new(config(64, 64), true, vec![0, 0, 1, 0x67]);
    assert_eq!(e.advance(EncoderEvent::Submit(1_000)), EncoderAction::NextEvent);
    assert_eq!(e.advance(EncoderEvent::NoEvent), EncoderAction::Done(Submission::Busy));

    assert_eq!(e.advance(EncoderEvent::Submit(2_000)), EncoderAction::NextEvent);
    assert_eq!(e.advance(EncoderEvent::Event(EVENT_NEED_INPUT)), EncoderAction::NextEvent);
    assert_eq!(e.pending_input(), 1);
    assert_eq!(e.advance(EncoderEvent::Event(999)), EncoderAction::NextEvent);
    assert_eq!(e.advance(EncoderEvent::NoEvent), EncoderAction::Convert(0));
    assert_eq!(
        e.advance(EncoderEvent::Converted(70)),
        EncoderAction::Stamp { surface: 0, time: 20, duration: 166_666 }
    );
    assert_eq!(e.advance(EncoderEvent::Stamped), EncoderAction::Process(0));
    assert_eq!(e.pending_input(), 0);
    assert_eq!(e.advance(EncoderEvent::Processed), EncoderAction::NextEvent);
    assert_eq!(e.advance(EncoderEvent::Event(EVENT_HAVE_OUTPUT)), EncoderAction::Drain);
    assert_eq!(
        e.advance(EncoderEvent::Sample(sample(&[0, 0, 1, 0x65], Some(1), Some(20)))),
        EncoderAction::NextEvent
    );
    assert_eq!(e.advance(EncoderEvent::NoEvent), EncoderAction::Done(Submission::Accepted));
    e.add_process_time(30);
    let frames = e.take_frames();
    assert_eq!(frames.len(), 1);
    assert_eq!(frames[0].data, vec![0, 0, 1, 0x67, 0, 0, 1, 0x65]);
    assert_eq!(frames[0].timestamp, 2_000);
    assert!(e.take_frames().is_empty());
    assert_eq!(
        e.take_timings(),
        EncoderTimings { convert: 70, dropped: 1, process: 30, frames: 1 }
    );
    assert_eq!(e.take_timings(), EncoderTimings::default());
}

#[test]
fn a_synchronous_encoder_is_drained_at_once() {
    let mut e = MediaFoundationEncoder::new(config(64, 64), false, Vec::new());
    for round in 0..4usize {
        assert_eq!(e.advance(EncoderEvent::Submit(0)), EncoderAction::Convert(round % 3));
        e.advance(EncoderEvent::Converted(1));
        e.advance(EncoderEvent::Stamped);
        assert_eq!(e.advance(EncoderEvent::Processed), EncoderAction::Drain);
        assert_eq!(
            e.advance(EncoderEvent::Sample(sample(&[1], None, None))),
            EncoderAction::Drain
        );
        assert_eq!(
            e.advance(EncoderEvent::NothingToDrain),
            EncoderAction::Done(Submission::Accepted)
        );
    }
    assert_eq!(e.advance(EncoderEvent::Poll), EncoderAction::Drain);
    assert_eq!(e.advance(EncoderEvent::NothingToDrain), EncoderAction::Collected);
    assert_eq!(e.take_frames().len(), 4);
}

#[test]
fn a_new_format_is_agreed_on() {
    let mut e = MediaFoundationEncoder::new(config(64, 64), true, Vec::new());
    assert_eq!(e.advance(EncoderEvent::Poll), EncoderAction::NextEvent);
    e.advance(EncoderEvent::Event(EVENT_HAVE_OUTPUT));
    assert_eq!(e.advance(EncoderEvent::StreamChange), EncoderAction::Renegotiate);
    assert_eq!(
        e.advance(EncoderEvent::Renegotiated(vec![0, 0, 1, 0x67])),
        EncoderAction::NextEvent
    );
    e.advance(EncoderEvent::Event(EVENT_HAVE_OUTPUT));
    e.advance(EncoderEvent::StreamChange);
    assert_eq!(
        e.advance(EncoderEvent::RenegotiationFailed),
        EncoderAction::Fail(EncodeError::FormatChange)
    );
    e.advance(EncoderEvent::Poll);
    let error = EncodeError::System("x".to_string());
    assert_eq!(e.advance(EncoderEvent::Failed(error.clone())), EncoderAction::Fail(error));
    assert_eq!(e.set_bitrate(7), EncoderSetting::MeanBitRate(7));
    assert_eq!(e.config().bitrate, 7);
    assert_eq!(e.frame_duration_hns(), 166_666);
}

#[test]
fn the_conversion_keeps_the_size() {
    let c = Nv12Converter::new(1920, 1080, 0);
    assert_eq!((c.width, c.height), (1920, 1080));
    assert_eq!((c.rate_numerator, c.rate_denominator), (1, 1));
    assert_eq!(c.output().format, 103);
    assert_eq!(c.output().bind_flags, 0x20);
    assert_eq!(OUTPUT_COLOR_SPACE, (1 << 2) | (1 << 4));
    assert_eq!(Nv12Converter::new(1, 1, 60).rate_numerator, 60);
    assert_eq!(target_texture(5, 6).bind_flags, 0x28);
    assert_eq!(target_texture(5, 6).format, 87);
}

fn failure(code: u32) -> SystemFailure {
    SystemFailure { code, message: "panne".to_string() }
}

fn info(present: i64, mouse: i64, has_resource: bool) -> FrameInfo {
    FrameInfo {
        last_present_time: present,
        last_mouse_update_time: mouse,
        accumulated_frames: 2,
        pointer: PointerState { x: 3, y: 4, visible: true },
        has_resource,
    }
}

#[test]
fn acquisitions_are_judged_by_their_code() {
    let mut c = DxgiCapturer::new(1920, 1080, 1);
    assert_eq!(c.desktop(), DesktopInfo { width: 1920, height: 1080, output_index: 1 });
    let mut outcome = |code| c.acquired(Err(failure(code)));
    assert_eq!(outcome(DXGI_ERROR_WAIT_TIMEOUT), AcquireStep::Done(Ok(FrameStatus::Idle)));
    for code in [DXGI_ERROR_ACCESS_LOST, DXGI_ERROR_DEVICE_REMOVED, E_ACCESSDENIED] {
        assert_eq!(outcome(code), AcquireStep::Done(Err(CaptureError::Lost)));
    }
    assert_eq!(
        outcome(0x887A_0001),
        AcquireStep::Done(Err(CaptureError::System("panne (0x887A0001)".to_string())))
    );
    assert!(is_lost(DXGI_ERROR_ACCESS_LOST));
    assert!(!is_lost(E_ACCESSDENIED));
}

#[test]
fn images_are_copied_only_when_pixels_changed() {
    let mut c = DxgiCapturer::new(1, 1, 0);
    assert_eq!(c.acquired(Ok(info(0, 0, true))), AcquireStep::Release);
    assert_eq!(c.pointer(), PointerState::default());
    assert_eq!(c.acquired(Ok(info(0, 9, true))), AcquireStep::Release);
    assert_eq!(c.pointer(), PointerState { x: 3, y: 4, visible: true });
    assert_eq!(c.acquired(Ok(info(5, 0, false))), AcquireStep::Release);
    assert_eq!(c.acquired(Ok(info(5, 0, true))), AcquireStep::Copy { accumulated: 2 });
}

#[test]
fn giving_back_counts_for_more_than_copying() {
    assert_eq!(released(Ok(Some(2)), Ok(())), Ok(FrameStatus::Ready { accumulated: 2 }));
    assert_eq!(released(Ok(None), Ok(())), Ok(FrameStatus::Idle));
    assert_eq!(
        released(Err(failure(1)), Ok(())),
        Err(CaptureError::System("panne (0x00000001)".to_string()))
    );
    assert_eq!(
        released(Err(failure(1)), Err(failure(DXGI_ERROR_ACCESS_LOST))),
        Err(CaptureError::Lost)
    );
    assert_eq!(
        released(Ok(Some(1)), Err(failure(2))),
        Err(CaptureError::System("panne (0x00000002)".to_string()))
    );
    assert_eq!(open_error(&failure(E_ACCESSDENIED)), CaptureError::DesktopUnavailable);
    assert_eq!(open_error(&failure(3)), map_hresult(&failure(3)));
    assert_eq!(timeout_ms(100), 100);
    assert_eq!(timeout_ms(1 << 40), u32::MAX);
}

#[test]
fn outputs_are_numbered_across_adapters() {
    // Two outputs on the first adapter, none on the second, one on the third.
    let none = failure(DXGI_ERROR_NOT_FOUND);
    let mut s = OutputSearch::new(2);
    assert_eq!(s.first(), SearchStep::Adapter(0));
    assert_eq!(s.answered(None), SearchStep::Output(0));
    assert_eq!(s.answered(None), SearchStep::Output(1));
    assert_eq!(s.answered(None), SearchStep::Output(2));
    assert_eq!(s.answered(Some(&none)), SearchStep::Adapter(1));
    assert_eq!(s.answered(None), SearchStep::Output(0));
    assert_eq!(s.answered(Some(&none)), SearchStep::Adapter(2));
    assert_eq!(s.answered(None), SearchStep::Output(0));
    assert_eq!(s.answered(None), SearchStep::Found);

    let mut s = OutputSearch::new(7);
    assert_eq!(s.answered(Some(&none)), SearchStep::Failed(CaptureError::OutputNotFound(7)));
    let mut s = OutputSearch::new(0);
    assert_eq!(
        s.answered(Some(&failure(4))),
        SearchStep::Failed(CaptureError::System("panne (0x00000004)".to_string()))
    );
}

#[test]
fn attachment_goes_stage_by_stage() {
    assert_eq!(attach_step(AttachStage::ReadCurrent, None).unwrap(), AttachStage::OpenInput);
    assert_eq!(attach_step(AttachStage::OpenInput, None).unwrap(), AttachStage::Switch);
    assert_eq!(attach_step(AttachStage::Switch, None).unwrap(), AttachStage::Attached);
    let read = attach_step(AttachStage::ReadCurrent, Some("e")).unwrap_err();
    assert_eq!(read.error, CaptureError::System("bureau courant illisible: e".to_string()));
    assert!(!read.close_opened);
    let open = attach_step(AttachStage::OpenInput, Some("e")).unwrap_err();
    assert_eq!(open.error, CaptureError::DesktopUnavailable);
    let switch = attach_step(AttachStage::Switch, Some("e")).unwrap_err();
    assert!(switch.close_opened);
    assert_eq!(
        switch.error,
        CaptureError::System("rattachement au bureau impossible: e".to_string())
    );
}

#[test]
fn capture_and_encoding_errors_are_worded() {
    assert_eq!(CaptureError::Lost.message(), "duplication perdue, recréation nécessaire");
    assert_eq!(CaptureError::OutputNotFound(12).message(), "sortie vidéo 12 introuvable");
    assert_eq!(
        CaptureError::DesktopUnavailable.message(),
        "bureau inaccessible : session verrouillée ou bureau sécurisé actif"
    );
    assert_eq!(CaptureError::System("x".to_string()).message(), "erreur système: x");
    assert_eq!(
        EncodeError::NoHardwareEncoder { codec: "H.264" }.message(),
        "aucun encodeur matériel H.264 disponible sur cette machine"
    );
    assert_eq!(
        EncodeError::FormatChange.message(),
        "le format de sortie a changé et n'a pas pu être renégocié"
    );
    assert_eq!(
        map_error(&failure(0x8000_4005)).message(),
        "erreur système: panne (0x80004005)"
    );
}

#[test]
fn an_encoder_expects_what_it_asked_for() {
    let mut e = MediaFoundationEncoder::new(config(64, 64), true, Vec::new());
    assert!(e.expects(&EncoderEvent::Submit(0)));
    assert!(!e.expects(&EncoderEvent::NoEvent));
    assert!(!e.expects(&EncoderEvent::Failed(EncodeError::FormatChange)));
    e.advance(EncoderEvent::Poll);
    assert!(!e.expects(&EncoderEvent::Poll));
    assert!(e.expects(&EncoderEvent::Event(EVENT_NEED_INPUT)));
    e.advance(EncoderEvent::Event(EVENT_HAVE_OUTPUT));
    assert!(e.expects(&EncoderEvent::Sample(sample(&[1], None, Some(i64::MIN)))));
    assert!(!e.expects(&EncoderEvent::Sample(sample(&[1], None, Some(i64::MAX)))));
    assert!(time_fits(&sample(&[], None, Some((u64::MAX / 100) as i64))));
}

#[test]
fn the_first_working_encoder_is_chosen() {
    let none = SelectionStep::Failed(EncodeError::NoHardwareEncoder { codec: "H.264" });
    assert_eq!(first_candidate(0), none);
    assert_eq!(first_candidate(2), SelectionStep::Try(0));
    assert_eq!(
        select_encoder(0, 2, Some(EncodeError::FormatChange)),
        SelectionStep::Try(1)
    );
    assert_eq!(select_encoder(1, 2, None), SelectionStep::Chosen(1));
    assert_eq!(
        select_encoder(1, 2, Some(EncodeError::System("x".to_string()))),
        SelectionStep::Failed(EncodeError::System("x".to_string()))
    );
}
