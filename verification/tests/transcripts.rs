use sidgate::proto::control::{ControlCommand, CursorMode, QualityPreset};
use sidgate::proto::signaling::{
    agent_transcript, client_auth_transcript, client_pair_transcript, from_hex, from_hex_exact,
    to_hex,
};

#[test]
fn hex_roundtrips() {
    let data = [0x00u8, 0x0f, 0xff, 0xa5, 0x10];
    assert_eq!(to_hex(&data), "000fffa510");
    assert_eq!(from_hex("000fffa510").unwrap(), data);
    assert_eq!(from_hex(&to_hex(&data)).unwrap(), data);
}

#[test]
fn hex_rejects_malformed_input() {
    assert!(from_hex("abc").is_none(), "odd length");
    assert!(from_hex("zz").is_none(), "outside the alphabet");
    assert!(from_hex("00 11").is_none(), "space");
    assert!(from_hex("ＡＢ").is_none(), "outside ASCII");
}

#[test]
fn hex_exact_enforces_length() {
    assert!(from_hex_exact::<4>("aabbccdd").is_some());
    assert!(from_hex_exact::<4>("aabbcc").is_none());
    assert!(from_hex_exact::<4>("aabbccddee").is_none());
}

#[test]
fn hex_reads_both_cases_and_the_empty_text() {
    assert_eq!(from_hex("AbCd").unwrap(), vec![0xAB, 0xCD]);
    assert_eq!(from_hex("").unwrap(), Vec::<u8>::new());
    assert_eq!(from_hex_exact::<2>("AbCd"), Some([0xAB, 0xCD]));
    assert!(from_hex("é").is_none());
}

#[test]
fn transcripts_are_domain_separated() {
    let (sn, cn, ck) = (&[1u8; 32][..], &[2u8; 32][..], &[3u8; 65][..]);
    let auth = client_auth_transcript(sn, cn, ck);
    let pair = client_pair_transcript(sn, cn, ck);
    let agent = agent_transcript(sn, cn, ck);
    assert_ne!(auth, pair);
    assert_ne!(auth, agent);
    assert_ne!(pair, agent);
}

#[test]
fn transcript_is_unambiguous_across_field_boundaries() {
    let a = client_auth_transcript(&[1, 2, 3], &[4, 5], &[6]);
    let b = client_auth_transcript(&[1, 2], &[3, 4], &[5, 6]);
    assert_ne!(a, b);
}

#[test]
fn transcript_changes_with_every_input() {
    let base = client_auth_transcript(&[1; 32], &[2; 32], &[3; 65]);
    assert_ne!(base, client_auth_transcript(&[9; 32], &[2; 32], &[3; 65]));
    assert_ne!(base, client_auth_transcript(&[1; 32], &[9; 32], &[3; 65]));
    assert_ne!(base, client_auth_transcript(&[1; 32], &[2; 32], &[9; 65]));
}

#[test]
fn transcript_has_its_exact_bytes() {
    let mut expected = vec![21, 0, 0, 0];
    expected.extend_from_slice(b"sidgate/auth/agent/v1");
    expected.extend_from_slice(&[1, 0, 0, 0, 7, 0, 0, 0, 0, 2, 0, 0, 0, 8, 9]);
    assert_eq!(agent_transcript(&[7], &[], &[8, 9]), expected);
}

#[test]
fn power_actions_are_correctly_classified() {
    assert!(ControlCommand::Reboot.is_power_action());
    assert!(ControlCommand::Shutdown.is_power_action());
    assert!(ControlCommand::Sleep.is_power_action());
    assert!(!ControlCommand::Lock.is_power_action());
    assert!(!ControlCommand::RequestStats.is_power_action());
}

#[test]
fn bitrate_presets_are_ordered() {
    let bitrates: Vec<u32> = [
        QualityPreset::Low,
        QualityPreset::Balanced,
        QualityPreset::High,
        QualityPreset::Ultra,
    ]
    .iter()
    .map(QualityPreset::target_bitrate_1080p)
    .collect();
    assert!(bitrates.windows(2).all(|w| w[0] < w[1]));
}

#[test]
fn presets_have_their_exact_bitrates() {
    assert_eq!(QualityPreset::Low.target_bitrate_1080p(), 2_500_000);
    assert_eq!(QualityPreset::Balanced.target_bitrate_1080p(), 8_000_000);
    assert_eq!(QualityPreset::High.target_bitrate_1080p(), 20_000_000);
    assert_eq!(QualityPreset::Ultra.target_bitrate_1080p(), 50_000_000);
    assert_eq!(QualityPreset::default(), QualityPreset::Balanced);
    assert_eq!(CursorMode::default(), CursorMode::Relative);
}

#[test]
fn commands_have_stable_names() {
    assert_eq!(ControlCommand::Lock.name(), "lock");
    assert_eq!(ControlCommand::Sleep.name(), "sleep");
    assert_eq!(ControlCommand::Reboot.name(), "reboot");
    assert_eq!(ControlCommand::Shutdown.name(), "shutdown");
    assert_eq!(ControlCommand::RequestKeyframe.name(), "request_keyframe");
    assert_eq!(ControlCommand::SetQuality { preset: QualityPreset::Low }.name(), "set_quality");
    assert_eq!(
        ControlCommand::SetCursorMode { mode: CursorMode::Absolute }.name(),
        "set_cursor_mode"
    );
    assert_eq!(ControlCommand::RequestStats.name(), "request_stats");
    assert_eq!(ControlCommand::Pong { seq: 1 }.name(), "pong");
}
