use sidgate::agent::tls::{fingerprint_of, host_names, load_or_create, made_material, pem_to_der, TlsError};
use sidgate::net::IpAddress;

fn local() -> IpAddress {
    IpAddress::v4(127, 0, 0, 1)
}

#[test]
fn generates_then_reuses_the_same_certificate() {
    let (first, made) = load_or_create(None, local(), "127.0.0.1", &[]).unwrap();
    assert!(made);
    let stored = Some((first.cert_pem.clone(), first.key_pem.clone()));
    let (second, made) = load_or_create(stored, local(), "127.0.0.1", &[]).unwrap();
    assert!(!made);

    assert_eq!(first.fingerprint, second.fingerprint);
    assert_eq!(first.cert_pem, second.cert_pem);
    assert_eq!(first.key_pem, second.key_pem);
}

#[test]
fn fingerprint_is_a_sha256_over_the_der() {
    let bind = IpAddress::v4(10, 0, 0, 1);
    let (material, _) = load_or_create(None, bind, "10.0.0.1", &[]).unwrap();

    let parts: Vec<&str> = material.fingerprint.split(':').collect();
    assert_eq!(parts.len(), 32, "SHA-256 makes 32 bytes");
    assert!(parts.iter().all(|p| p.len() == 2));
    assert!(parts
        .iter()
        .all(|p| p.chars().all(|c| c.is_ascii_hexdigit() && !c.is_lowercase())));
}

#[test]
fn pem_decoding_rejects_garbage() {
    assert!(pem_to_der(b"pas un certificat").is_none());
    assert!(fingerprint_of(b"").is_err());
}

#[test]
fn material_is_valid_pem() {
    let (material, _) = load_or_create(None, local(), "127.0.0.1", &[]).unwrap();
    let cert = String::from_utf8(material.cert_pem).unwrap();
    let key = String::from_utf8(material.key_pem).unwrap();
    assert!(cert.starts_with("-----BEGIN CERTIFICATE-----"));
    assert!(key.contains("PRIVATE KEY"));
}

#[test]
fn a_known_body_has_a_known_fingerprint() {
    let pem = b"preamble\r\n-----BEGIN CERTIFICATE-----\r\nYW\r\nJj\n-----END CERTIFICATE-----\nx";
    assert_eq!(pem_to_der(pem), Some(b"abc".to_vec()));
    assert_eq!(
        fingerprint_of(pem).unwrap(),
        "BA:78:16:BF:8F:01:CF:EA:41:41:40:DE:5D:AE:22:23:\
         B0:03:61:A3:96:17:7A:9C:B4:10:FF:61:F2:00:15:AD"
    );
}

#[test]
fn unreadable_certificates_are_refused() {
    assert!(pem_to_der(b"-----BEGIN CERTIFICATE-----\n-----END CERTIFICATE-----").is_none());
    assert!(pem_to_der(b"-----BEGIN CERTIFICATE-----\n!!!!\n").is_none());
    assert!(pem_to_der(b"-----BEGIN CERTIFICATE-----\nYWJj\n\xFF").is_none());
    assert_eq!(
        pem_to_der(b"-----BEGIN CERTIFICATE-----\nYWJj").unwrap(),
        b"abc".to_vec(),
        "the closing line may be missing"
    );
    let stored = Some((b"nothing".to_vec(), Vec::new()));
    assert_eq!(
        load_or_create(stored, local(), "127.0.0.1", &[]).err(),
        Some(TlsError::UnreadablePem)
    );
}

#[test]
fn host_names_are_ordered_without_repetition() {
    let extra = ["sidgate.lan".to_string(), "localhost".to_string()];
    assert_eq!(
        host_names(IpAddress::v4(10, 0, 0, 5), "10.0.0.5", &extra),
        vec!["10.0.0.5", "127.0.0.1", "localhost", "sidgate.lan"]
    );
    assert_eq!(
        host_names(IpAddress::v4(0, 0, 0, 0), "0.0.0.0", &[]),
        vec!["127.0.0.1", "localhost"]
    );
}

#[test]
fn a_name_that_no_certificate_can_hold_is_refused() {
    let extra = ["h\u{e9}".to_string()];
    assert_eq!(
        load_or_create(None, local(), "127.0.0.1", &extra).err(),
        Some(TlsError::Generation)
    );
}

#[test]
fn what_was_made_is_checked() {
    assert_eq!(made_material(None).err(), Some(TlsError::Generation));
    assert_eq!(
        made_material(Some((b"nothing".to_vec(), Vec::new()))).err(),
        Some(TlsError::UnreadablePem)
    );
    let pem = b"-----BEGIN CERTIFICATE-----\nYWJj\n-----END CERTIFICATE-----\n".to_vec();
    let (material, made) = made_material(Some((pem.clone(), b"key".to_vec()))).unwrap();
    assert!(made);
    assert_eq!((material.cert_pem, material.key_pem), (pem, b"key".to_vec()));
}
