use sidgate::agent::config::SecurityConfig;
use sidgate::agent::control::{Dispatcher, Effect, RATE_LIMIT, RATE_WINDOW};
use sidgate::clock::SECOND;
use sidgate::encode::EncoderConfig;
use sidgate::proto::control::{ControlCommand, CursorMode, QualityPreset, RejectReason};

fn permissive() -> SecurityConfig {
    SecurityConfig { allow_power_actions: true, ..SecurityConfig::default() }
}

fn dispatcher(security: SecurityConfig) -> Dispatcher {
    Dispatcher::new(security, 1920, 1080)
}

#[test]
fn power_actions_are_refused_by_default() {
    let mut d = dispatcher(SecurityConfig::default());
    for command in [ControlCommand::Sleep, ControlCommand::Reboot, ControlCommand::Shutdown] {
        assert_eq!(d.dispatch(command), Err(RejectReason::NotPermitted));
    }
}

#[test]
fn locking_is_always_allowed() {
    let mut d = dispatcher(SecurityConfig::default());
    assert_eq!(d.dispatch(ControlCommand::Lock), Ok(Effect::Lock));
}

#[test]
fn power_actions_pass_once_enabled() {
    let mut d = dispatcher(permissive());
    assert_eq!(d.dispatch(ControlCommand::Reboot), Ok(Effect::Reboot));
    assert_eq!(d.dispatch(ControlCommand::Shutdown), Ok(Effect::Shutdown));
    assert_eq!(d.dispatch(ControlCommand::Sleep), Ok(Effect::Sleep));
}

#[test]
fn quality_presets_scale_with_the_desktop_surface() {
    let mut hd = Dispatcher::new(permissive(), 1920, 1080);
    let mut uhd = Dispatcher::new(permissive(), 3840, 2160);
    let preset = QualityPreset::Balanced;

    let Ok(Effect::Bitrate(hd_bitrate)) = hd.dispatch(ControlCommand::SetQuality { preset }) else {
        panic!("a bitrate was expected");
    };
    let Ok(Effect::Bitrate(uhd_bitrate)) = uhd.dispatch(ControlCommand::SetQuality { preset })
    else {
        panic!("a bitrate was expected");
    };
    assert_eq!(hd_bitrate, 8_000_000);
    assert_eq!(uhd_bitrate, 32_000_000);
}

#[test]
fn bitrate_stays_bounded_on_absurd_geometry() {
    let mut tiny = Dispatcher::new(permissive(), 1, 1);
    assert_eq!(
        tiny.dispatch(ControlCommand::SetQuality { preset: QualityPreset::Low }),
        Ok(Effect::Bitrate(500_000))
    );

    let mut huge = Dispatcher::new(permissive(), 15360, 8640);
    assert_eq!(
        huge.dispatch(ControlCommand::SetQuality { preset: QualityPreset::Ultra }),
        Ok(Effect::Bitrate(100_000_000))
    );
}

#[test]
fn command_flooding_is_rate_limited() {
    let mut d = dispatcher(SecurityConfig::default());
    for _ in 0..RATE_LIMIT {
        assert!(d.dispatch(ControlCommand::RequestStats).is_ok());
    }
    assert_eq!(d.dispatch(ControlCommand::RequestStats), Err(RejectReason::RateLimited));
}

#[test]
fn the_rate_window_slides() {
    let mut d = dispatcher(SecurityConfig::default());
    let past = 0u128;
    for _ in 0..RATE_LIMIT {
        assert!(d.dispatch_at(ControlCommand::RequestStats, past).is_ok());
    }
    let now = past + RATE_WINDOW + SECOND;
    assert!(
        d.dispatch_at(ControlCommand::RequestStats, now).is_ok(),
        "old commands must leave the window"
    );
}

#[test]
fn rate_limiting_applies_before_permission_checks() {
    let mut d = dispatcher(SecurityConfig::default());
    for _ in 0..RATE_LIMIT {
        let _ = d.dispatch(ControlCommand::Reboot);
    }
    assert_eq!(d.dispatch(ControlCommand::Reboot), Err(RejectReason::RateLimited));
}

#[test]
fn cursor_mode_and_pong_pass_through() {
    let mut d = dispatcher(SecurityConfig::default());
    assert_eq!(
        d.dispatch(ControlCommand::SetCursorMode { mode: CursorMode::Absolute }),
        Ok(Effect::CursorMode(CursorMode::Absolute))
    );
    assert_eq!(d.dispatch(ControlCommand::Pong { seq: 17 }), Ok(Effect::Pong(17)));
}

#[test]
fn input_permission_is_reported_from_the_configuration() {
    let strict = SecurityConfig { allow_input: false, ..SecurityConfig::default() };
    assert!(!dispatcher(strict).input_allowed());
    assert!(dispatcher(SecurityConfig::default()).input_allowed());
}

#[test]
fn the_window_is_exactly_ten_seconds() {
    let mut d = dispatcher(SecurityConfig::default());
    for k in 0..40u128 {
        assert!(d.dispatch_at(ControlCommand::RequestStats, k).is_ok());
    }
    let command = ControlCommand::RequestStats;
    assert_eq!(d.dispatch_at(command, RATE_WINDOW - 1), Err(RejectReason::RateLimited));
    assert!(d.dispatch_at(command, RATE_WINDOW).is_ok(), "the first has left");
    assert_eq!(d.dispatch_at(command, RATE_WINDOW), Err(RejectReason::RateLimited));
}

#[test]
fn other_commands_have_their_effects() {
    let mut d = dispatcher(SecurityConfig::default());
    assert_eq!(d.dispatch(ControlCommand::RequestKeyframe), Ok(Effect::Keyframe));
    assert_eq!(d.dispatch(ControlCommand::RequestStats), Ok(Effect::SendStats));
    assert!(d.lock_on_disconnect());
}

#[test]
fn only_absurd_surfaces_are_beyond_computing() {
    let quality = |preset| ControlCommand::SetQuality { preset };
    let large = Dispatcher::new(permissive(), 600_000, 600_000);
    assert!(large.can_compute(quality(QualityPreset::Ultra)));
    let absurd = Dispatcher::new(permissive(), u32::MAX, u32::MAX);
    assert!(!absurd.can_compute(quality(QualityPreset::Low)));
    assert!(absurd.can_compute(ControlCommand::Lock));
}

#[test]
fn refused_commands_are_not_counted() {
    let mut d = dispatcher(SecurityConfig::default());
    for _ in 0..RATE_LIMIT {
        assert!(d.dispatch_at(ControlCommand::RequestStats, 0).is_ok());
    }
    for step in 1..100u128 {
        let now = step * RATE_WINDOW / 100;
        assert_eq!(
            d.dispatch_at(ControlCommand::RequestStats, now),
            Err(RejectReason::RateLimited)
        );
    }
    assert!(d.dispatch_at(ControlCommand::RequestStats, RATE_WINDOW).is_ok());
}

#[test]
fn presets_scale_as_the_encoder_does() {
    for (width, height) in [(0, 0), (0, 1080), (1, 1), (1280, 720), (3840, 2160)] {
        for preset in [QualityPreset::Low, QualityPreset::Balanced, QualityPreset::Ultra] {
            let mut d = Dispatcher::new(SecurityConfig::default(), width, height);
            let config = EncoderConfig { width, height, framerate: 60, bitrate: 0 };
            let expected =
                config.scale_bitrate_to_resolution(preset.target_bitrate_1080p()).bitrate;
            assert_eq!(
                d.dispatch_at(ControlCommand::SetQuality { preset }, 0),
                Ok(Effect::Bitrate(expected))
            );
        }
    }
}

#[test]
fn a_surface_out_of_reach_is_refused_by_the_rate_alone() {
    let quality = ControlCommand::SetQuality { preset: QualityPreset::Ultra };
    let mut d = Dispatcher::new(SecurityConfig::default(), u32::MAX, u32::MAX);
    assert!(!d.can_compute(quality));
    for _ in 0..RATE_LIMIT {
        assert!(d.has_room(0));
        assert!(d.check_rate(0).is_ok());
    }
    assert!(!d.has_room(RATE_WINDOW - 1));
    assert_eq!(d.dispatch_at(quality, RATE_WINDOW - 1), Err(RejectReason::RateLimited));
    assert_eq!(d.check_rate(RATE_WINDOW - 1), Err(RejectReason::RateLimited));
    assert!(d.has_room(RATE_WINDOW));
    assert!(d.check_rate(RATE_WINDOW).is_ok());
}
