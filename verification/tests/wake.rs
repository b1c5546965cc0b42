use sidgate::net::IpAddress;
use sidgate::wol::{
    load_config, magic_packet, parse_mac, wake_response, Host, WolConfig, WolConfigError, WolStatus,
    MAC_REPEATS, SEND_COUNT, WOL_PORT,
};

#[test]
fn parses_both_mac_separators() {
    let expected = [0xaa, 0xbb, 0xcc, 0xdd, 0xee, 0xff];
    assert_eq!(parse_mac("aa:bb:cc:dd:ee:ff"), Some(expected));
    assert_eq!(parse_mac("AA-BB-CC-DD-EE-FF"), Some(expected));
}

#[test]
fn rejects_malformed_macs() {
    for text in [
        "aa:bb:cc:dd:ee",
        "aa:bb:cc:dd:ee:ff:00",
        "aa:bb:cc:dd:ee:gg",
        "aabbccddeeff",
        "a:b:c:d:e:f",
        "",
    ] {
        assert!(parse_mac(text).is_none(), "should have been refused: {text}");
    }
}

#[test]
fn parts_are_two_hexadecimal_digits() {
    assert_eq!(parse_mac("01:02-03:04:05:06"), Some([1, 2, 3, 4, 5, 6]));
    assert!(parse_mac("+a:bb:cc:dd:ee:ff").is_none());
    assert!(parse_mac("+1:02:03:04:05:06").is_none());
    assert!(parse_mac("1+:02:03:04:05:06").is_none());
    assert!(parse_mac("++:02:03:04:05:06").is_none());
    assert!(parse_mac("é:02:03:04:05:06").is_none());
    assert!(parse_mac("01:02:03:04:05:").is_none());
    assert!(parse_mac(":01:02:03:04:05").is_none());
}

#[test]
fn magic_packet_follows_the_format() {
    let mac = [0x01, 0x02, 0x03, 0x04, 0x05, 0x06];
    let packet = magic_packet(&mac);

    assert_eq!(packet.len(), 102);
    assert_eq!(&packet[..6], &[0xFF; 6], "six bytes of ones first");
    for repeat in 0..MAC_REPEATS {
        let offset = 6 + repeat * 6;
        assert_eq!(&packet[offset..offset + 6], &mac);
    }
}

fn config(token: &str, hosts: &[(&str, &str)]) -> WolConfig {
    WolConfig {
        listen: IpAddress::v4(10, 0, 0, 1),
        port: 9797,
        broadcast: 0xC0A8_01FF,
        token: token.to_string(),
        hosts: hosts
            .iter()
            .map(|(name, mac)| Host { name: name.to_string(), mac: mac.to_string() })
            .collect(),
    }
}

const TOKEN: &str = "un-jeton-assez-long";
const STATION: (&str, &str) = ("station", "aa:bb:cc:dd:ee:ff");

#[test]
fn configuration_refuses_a_wildcard_listen_address() {
    let mut c = config(TOKEN, &[STATION]);
    assert_eq!(c.validate(), Ok(()));
    c.listen = IpAddress::v4(0, 0, 0, 0);
    assert!(c.listen.is_unspecified());
    assert_eq!(c.validate(), Err(WolConfigError::Wildcard));
}

#[test]
fn configuration_errors_have_their_cause() {
    assert_eq!(config("quinze-octets--", &[STATION]).validate(), Err(WolConfigError::ShortToken));
    assert_eq!(config("éééééééé", &[STATION]).validate(), Ok(()), "the length is in bytes");
    assert_eq!(config(TOKEN, &[]).validate(), Err(WolConfigError::NoHost));
    assert_eq!(
        config(TOKEN, &[STATION, ("x", "zz")]).validate(),
        Err(WolConfigError::InvalidMac(1))
    );
}

#[test]
fn token_comparison_rejects_wrong_and_truncated_tokens() {
    let c = config("jeton-de-reference", &[]);
    assert!(c.authorize(Some("jeton-de-reference")).is_ok());
    assert!(c.authorize(Some("jeton-de-referenc")).is_err());
    assert!(c.authorize(Some("jeton-de-referencX")).is_err());
    assert!(c.authorize(None).is_err());
}

#[test]
fn only_declared_machines_are_woken() {
    let c = config(TOKEN, &[STATION, ("nas", "01:02:03:04:05:06"), ("nas", "ff:ff:ff:ff:ff:ff")]);
    assert_eq!(c.wake(Some(TOKEN), "nas"), Ok(magic_packet(&[1, 2, 3, 4, 5, 6])));
    assert_eq!(c.wake(Some(TOKEN), "autre"), Err(WolStatus::NotFound));
    assert_eq!(c.wake(Some("x"), "nas"), Err(WolStatus::Unauthorized));
    assert_eq!(c.list_hosts(Some(TOKEN)).unwrap(), vec!["station", "nas", "nas"]);
    assert_eq!(c.list_hosts(None), Err(WolStatus::Unauthorized));
    let broken = config(TOKEN, &[("x", "zz")]);
    assert_eq!(broken.wake(Some(TOKEN), "x"), Err(WolStatus::Internal));
}

#[test]
fn a_request_is_answered_by_what_was_sent() {
    let ok = wake_response("nas".to_string(), true).unwrap();
    assert_eq!((ok.host.as_str(), ok.sent), ("nas", true));
    assert_eq!(wake_response("nas".to_string(), false), Err(WolStatus::Internal));
    assert_eq!((WOL_PORT, SEND_COUNT), (9, 2));
}

#[test]
fn refused_services_are_explained() {
    let good = WolConfig {
        listen: IpAddress::v4(100, 64, 0, 1),
        port: 9797,
        broadcast: 0xC0A8_01FF,
        token: "0123456789abcdef".to_string(),
        hosts: vec![
            Host { name: "a".to_string(), mac: "aa:bb:cc:dd:ee:ff".to_string() },
            Host { name: "b".to_string(), mac: "00:11:22:33:44:55".to_string() },
        ],
    };
    assert_eq!(load_config(good.clone()).unwrap().hosts.len(), 2);

    let mut everywhere = good.clone();
    everywhere.listen = IpAddress::V6(0);
    assert!(load_config(everywhere).unwrap_err().contains("wg0"));
    let mut short = good.clone();
    short.token = "0123456789abcde".to_string();
    assert!(load_config(short).unwrap_err().contains("16 caractères"));
    let mut nobody = good.clone();
    nobody.hosts.clear();
    assert_eq!(load_config(nobody).unwrap_err(), "aucune machine déclarée");
    let mut broken = good;
    broken.hosts[1].mac = "00:11".to_string();
    assert_eq!(load_config(broken).unwrap_err(), "adresse MAC invalide pour b: 00:11");
}
