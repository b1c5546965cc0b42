use sidgate::agent::config::{data_dir, Config, ConfigError, DataDirBase, DataDirStep};
use sidgate::agent::console::{
    client_line, client_lines, clients, date_or_seconds, format_unix, info, listen_url,
    pairing_lines, parse_command, print_banner, revoke_line, start_plan, unknown_line, Console,
    ConsoleCommand, StartPlan,
};
use sidgate::agent::identity::PairedClient;
use sidgate::net::IpAddress;

#[test]
fn defaults_are_closed() {
    let config = Config::default();
    assert!(!config.security.allow_power_actions, "power actions must be refused by default");
    assert!(config.security.lock_on_disconnect);
    assert!(config.network.bind.is_loopback(), "the default must not leave the machine");
    assert!(config.network.stun_servers.is_empty(), "no third party by default");
}

#[test]
fn plain_http_is_confined_to_loopback() {
    let mut config = Config::default();
    config.network.tls = false;
    assert!(config.validate().is_ok(), "the loopback stays allowed");

    config.network.bind = IpAddress::v4(10, 0, 0, 5);
    assert_eq!(config.validate(), Err(ConfigError::PlainHttp));
}

#[test]
fn tls_is_on_by_default() {
    assert!(Config::default().network.tls);
}

#[test]
fn validation_rejects_impossible_values() {
    let mut config = Config::default();
    config.video.framerate = 0;
    assert!(config.validate().is_err());

    let mut config = Config::default();
    config.network.port = 0;
    assert!(config.validate().is_err());

    let mut config = Config::default();
    config.security.pairing_window_secs = 1;
    assert!(config.validate().is_err());
}

#[test]
fn every_error_has_its_cause() {
    let mut config = Config::default();
    config.video.framerate = 241;
    assert_eq!(config.validate(), Err(ConfigError::Framerate));
    config.video.framerate = 240;
    assert_eq!(config.validate(), Ok(()));
    config.security.pairing_window_secs = 9;
    assert_eq!(config.validate(), Err(ConfigError::PairingWindow));
    config.network.port = 0;
    assert_eq!(config.validate(), Err(ConfigError::ZeroPort));
}

#[test]
fn load_or_create_writes_then_reads_back() {
    let (created, write) = Config::load_or_create(None).unwrap();
    assert!(write);
    let (reloaded, write) = Config::load_or_create(Some(created.clone())).unwrap();
    assert!(!write);
    assert_eq!(created, reloaded);
    assert_eq!(created.network.port, 8443);
    assert_eq!(created.video.framerate, 60);
    assert_eq!(created.security.pairing_window_secs, 120);
    assert_eq!(created.security.auth_attempts_per_minute, 10);

    let mut broken = created;
    broken.network.port = 0;
    assert_eq!(Config::load_or_create(Some(broken)), Err(ConfigError::ZeroPort));
}

#[test]
fn loopback_and_wildcard_are_recognised() {
    assert!(IpAddress::v4(127, 9, 9, 9).is_loopback());
    assert!(!IpAddress::v4(128, 0, 0, 1).is_loopback());
    assert!(IpAddress::V6(1).is_loopback());
    assert!(IpAddress::v4(0, 0, 0, 0).is_unspecified());
    assert!(IpAddress::V6(0).is_unspecified());
    assert!(!IpAddress::v4(10, 0, 0, 5).is_unspecified());
    assert_eq!(IpAddress::v4(10, 0, 0, 5), IpAddress::V4(0x0A00_0005));
}

#[test]
fn the_console_decides_what_starts() {
    assert_eq!(
        start_plan(Console::Interactive, false, true),
        StartPlan { banner: true, open_pairing: true, warn_no_client: false, read_commands: true }
    );
    assert_eq!(
        start_plan(Console::Detached, true, true),
        StartPlan { banner: false, open_pairing: false, warn_no_client: true, read_commands: false }
    );
    assert!(!start_plan(Console::Interactive, false, false).open_pairing);
    assert!(start_plan(Console::Interactive, true, false).open_pairing);
}

#[test]
fn console_lines_are_trimmed_and_named() {
    assert_eq!(parse_command("  p \n"), ConsoleCommand::Pair);
    assert_eq!(parse_command("pair"), ConsoleCommand::Pair);
    assert_eq!(parse_command("c"), ConsoleCommand::Clients);
    assert_eq!(parse_command("clients\u{a0}"), ConsoleCommand::Clients);
    assert_eq!(parse_command("x"), ConsoleCommand::Cancel);
    assert_eq!(parse_command("\tcancel"), ConsoleCommand::Cancel);
    assert_eq!(parse_command(" \t "), ConsoleCommand::Empty);
    assert_eq!(parse_command(" P "), ConsoleCommand::Unknown("P".to_string()));
}

#[test]
fn dates_and_urls_are_worded() {
    assert_eq!(format_unix(0), "1970-01-01T00:00:00Z");
    assert_eq!(format_unix(1_700_000_000), "2023-11-14T22:13:20Z");
    assert_eq!(format_unix(i64::MAX as u64), "9223372036854775807");
    assert_eq!(date_or_seconds(None, 42), "42");
    assert_eq!(listen_url(true, "10.0.0.1", 8443), "https://10.0.0.1:8443");
    assert_eq!(listen_url(false, "127.0.0.1", 80), "http://127.0.0.1:80");
}

#[test]
fn clients_are_described() {
    let client = PairedClient {
        key: "04ab".to_string(),
        label: "Pixel 8".to_string(),
        paired_at: 0,
        last_seen: None,
    };
    assert_eq!(
        client_lines(&client),
        vec![
            "Pixel 8".to_string(),
            "  clé       : 04ab".to_string(),
            "  appairé   : 1970-01-01T00:00:00Z".to_string(),
            "  vu le     : jamais".to_string(),
        ]
    );
}

#[test]
fn the_list_of_clients_keeps_their_order() {
    let client = |label: &str| PairedClient {
        key: "04ab".to_string(),
        label: label.to_string(),
        paired_at: 0,
        last_seen: Some(1),
    };
    assert_eq!(clients(&[]), vec!["aucun client appairé"]);
    let pair = [client("A"), client("B")];
    let lines = clients(&pair);
    assert_eq!(lines.len(), 8);
    assert_eq!(lines[..4], client_lines(&pair[0])[..]);
    assert_eq!(lines[4..], client_lines(&pair[1])[..]);
    assert_eq!(client_line(&pair[0]), "  A — 04ab");
    assert_eq!(revoke_line(true), "client révoqué");
    assert_eq!(revoke_line(false), "aucun client avec cette clé");
}

#[test]
fn the_console_shows_what_it_is_told() {
    assert_eq!(
        print_banner("0.1.0", "/d", "https://127.0.0.1:8443", "ID", "CERT", 12),
        vec![
            "sidgate 0.1.0",
            "  données     : /d",
            "  écoute      : https://127.0.0.1:8443",
            "  identité    : ID",
            "  certificat  : CERT",
            "  clients     : 12",
            "",
            "  tapez « p » puis Entrée pour ouvrir un appairage, « x » pour l'annuler",
            "",
        ]
    );
    assert_eq!(
        pairing_lines("ABCD-2345", 120),
        vec![
            "",
            "  ┌──────────────────────────────────┐",
            "  │  code d'appairage : ABCD-2345     │",
            "  └──────────────────────────────────┘",
            "  valable 120 secondes, un seul usage",
            "",
        ]
    );
    assert_eq!(
        info("/d", "/d/sidgate.toml", "PK", "ID", "CERT", "127.0.0.1", 8443, false),
        vec![
            "répertoire de données : /d",
            "configuration         : /d/sidgate.toml",
            "clé publique          : PK",
            "empreinte identité    : ID",
            "empreinte certificat  : CERT",
            "écoute                : https://127.0.0.1:8443",
            "actions alimentation  : refusées",
        ]
    );
    assert!(info("", "", "", "", "", "", 1, true)[6].ends_with("autorisées"));
    assert_eq!(
        unknown_line("zut"),
        "commande inconnue: zut (p = appairer, x = annuler, c = clients)"
    );
}

#[test]
fn refused_configurations_are_explained() {
    assert_eq!(ConfigError::ZeroPort.message("::1"), "le port d'écoute ne peut être nul");
    assert!(ConfigError::Framerate.message("").contains("entre 1 et 240"));
    assert!(ConfigError::PairingWindow.message("").contains("moins de 10 secondes"));
    assert!(ConfigError::PlainHttp.message("10.0.0.1").contains("sur 10.0.0.1 un"));
}

#[test]
fn the_data_directory_falls_back() {
    assert_eq!(data_dir(true, &[]), DataDirStep::Given);
    assert_eq!(data_dir(true, &[true]), DataDirStep::Given);
    assert_eq!(data_dir(false, &[]), DataDirStep::Try(DataDirBase::ProgramData));
    assert_eq!(data_dir(false, &[true]), DataDirStep::Use(DataDirBase::ProgramData));
    assert_eq!(data_dir(false, &[false]), DataDirStep::Try(DataDirBase::LocalAppData));
    assert_eq!(data_dir(false, &[false, true]), DataDirStep::Use(DataDirBase::LocalAppData));
    assert_eq!(data_dir(false, &[false, false]), DataDirStep::Try(DataDirBase::Home));
    assert_eq!(data_dir(false, &[false, false, true]), DataDirStep::Use(DataDirBase::Home));
    assert_eq!(data_dir(false, &[false, false, false]), DataDirStep::Local);
    assert_eq!(DataDirBase::ProgramData.variable(), "ProgramData");
    assert_eq!(DataDirBase::LocalAppData.variable(), "LOCALAPPDATA");
    assert_eq!(DataDirBase::Home.variable(), "HOME");
}
