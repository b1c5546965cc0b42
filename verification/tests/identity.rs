use p256::ecdsa::signature::Signer;
use p256::ecdsa::{Signature, SigningKey};
use sidgate::agent::attempts::ATTEMPT_WINDOW;
use sidgate::agent::handshake::{
    acceptance, authenticate, authenticate_at, challenge, challenge_at, random_nonce, refusal,
    run_connection, AuthStep, ConnectionStep, Incoming,
};
use sidgate::agent::identity::{Identity, IdentityError};
use sidgate::agent::pairing::{
    codes_match, draw_pairing_code, draw_step, drawn_array, generate_pairing_code, push_draw,
    random_array, sanitize_label, RandomUnavailable, CODE_ALPHABET, CODE_LEN, MAX_DRAWS,
};
use sidgate::clock::SECOND;
use sidgate::crypto::Generator;
use sidgate::net::IpAddress;
use sidgate::proto::signaling::{
    agent_transcript, client_auth_transcript, client_pair_transcript, from_hex, from_hex_exact,
    to_hex, AuthError, ClientMessage, ServerMessage, NONCE_LEN,
};
use sidgate::proto::PROTOCOL_VERSION;
use sidgate::text::trim;

const SERVER_NONCE: [u8; 32] = [1u8; 32];
const CLIENT_NONCE: [u8; 32] = [2u8; 32];

fn source() -> IpAddress {
    IpAddress::v4(10, 0, 0, 2)
}

struct TestClient {
    signing: SigningKey,
    key_hex: String,
    key_bytes: Vec<u8>,
}

impl TestClient {
    fn new() -> Self {
        let signing = SigningKey::random(&mut p256::elliptic_curve::rand_core::OsRng);
        let key_bytes = signing.verifying_key().to_encoded_point(false).as_bytes().to_vec();
        Self { key_hex: to_hex(&key_bytes), signing, key_bytes }
    }

    fn sign(&self, transcript: &[u8]) -> String {
        let signature: Signature = self.signing.sign(transcript);
        to_hex(&signature.to_bytes())
    }

    fn auth_signature(&self) -> String {
        self.sign(&client_auth_transcript(&SERVER_NONCE, &CLIENT_NONCE, &self.key_bytes))
    }

    fn pair_signature(&self) -> String {
        self.sign(&client_pair_transcript(&SERVER_NONCE, &CLIENT_NONCE, &self.key_bytes))
    }
}

fn fresh(quota: u32) -> Identity {
    Identity::load_or_create(None, Vec::new(), quota).unwrap().0
}

fn pair_client(identity: &mut Identity, client: &TestClient) -> Result<String, AuthError> {
    let code = identity.open_pairing(60 * SECOND).unwrap();
    identity.pair(
        source(),
        &code,
        &client.key_hex,
        "Banc d'essai",
        &SERVER_NONCE,
        &CLIENT_NONCE,
        &client.pair_signature(),
    )
}

fn authenticate_client(identity: &mut Identity, client: &TestClient) -> Result<String, AuthError> {
    identity.authenticate(
        source(),
        &client.key_hex,
        &SERVER_NONCE,
        &CLIENT_NONCE,
        &client.auth_signature(),
    )
}

#[test]
fn identity_persists_across_restarts() {
    let (first, written) = Identity::load_or_create(None, Vec::new(), 10).unwrap();
    let key = first.public_key_hex();
    drop(first);

    let (second, written_again) = Identity::load_or_create(written, Vec::new(), 10).unwrap();
    assert_eq!(second.public_key_hex(), key);
    assert!(written_again.is_none());
}

#[test]
fn a_corrupt_key_is_refused() {
    for bytes in [vec![], vec![1u8; 31], vec![1u8; 33]] {
        assert_eq!(
            Identity::load_or_create(Some(bytes), Vec::new(), 10).err(),
            Some(IdentityError::CorruptKey)
        );
    }
}

#[test]
fn pairing_then_authentication_succeeds() {
    let mut identity = fresh(100);
    let client = TestClient::new();

    pair_client(&mut identity, &client).unwrap();
    assert_eq!(identity.clients().len(), 1);
    assert_eq!(identity.clients()[0].label, "Banc dessai");
    assert_eq!(authenticate_client(&mut identity, &client), Ok(client.key_hex.clone()));
}

#[test]
fn unpaired_client_is_rejected() {
    let mut identity = fresh(100);
    let client = TestClient::new();
    assert_eq!(authenticate_client(&mut identity, &client), Err(AuthError::Rejected));
}

#[test]
fn signature_from_another_key_is_rejected() {
    let mut identity = fresh(100);
    let client = TestClient::new();
    let impostor = TestClient::new();
    pair_client(&mut identity, &client).unwrap();

    let transcript = client_auth_transcript(&SERVER_NONCE, &CLIENT_NONCE, &client.key_bytes);
    assert_eq!(
        identity.authenticate(
            source(),
            &client.key_hex,
            &SERVER_NONCE,
            &CLIENT_NONCE,
            &impostor.sign(&transcript)
        ),
        Err(AuthError::Rejected)
    );
}

#[test]
fn a_signature_captured_on_another_session_does_not_replay() {
    let mut identity = fresh(100);
    let client = TestClient::new();
    pair_client(&mut identity, &client).unwrap();

    let captured = client.auth_signature();
    let fresh_nonce = [9u8; 32];
    assert_eq!(
        identity.authenticate(source(), &client.key_hex, &fresh_nonce, &CLIENT_NONCE, &captured),
        Err(AuthError::Rejected)
    );
}

#[test]
fn a_pairing_signature_cannot_be_used_to_authenticate() {
    let mut identity = fresh(100);
    let client = TestClient::new();
    pair_client(&mut identity, &client).unwrap();
    assert_eq!(
        identity.authenticate(
            source(),
            &client.key_hex,
            &SERVER_NONCE,
            &CLIENT_NONCE,
            &client.pair_signature()
        ),
        Err(AuthError::Rejected)
    );
}

#[test]
fn wrong_pairing_code_is_rejected_and_does_not_register() {
    let mut identity = fresh(100);
    let client = TestClient::new();
    identity.open_pairing(60 * SECOND).unwrap();
    assert_eq!(
        identity.pair(
            source(),
            "0000-0000",
            &client.key_hex,
            "x",
            &SERVER_NONCE,
            &CLIENT_NONCE,
            &client.pair_signature()
        ),
        Err(AuthError::Rejected)
    );
    assert!(identity.clients().is_empty());
}

#[test]
fn pairing_is_refused_when_no_window_is_open() {
    let mut identity = fresh(100);
    let client = TestClient::new();
    assert_eq!(
        identity.pair(
            source(),
            "ABCD-EFGH",
            &client.key_hex,
            "x",
            &SERVER_NONCE,
            &CLIENT_NONCE,
            &client.pair_signature()
        ),
        Err(AuthError::PairingClosed)
    );
}

#[test]
fn a_code_cannot_be_used_twice() {
    let mut identity = fresh(100);
    let first = TestClient::new();
    let second = TestClient::new();

    let code = identity.open_pairing(60 * SECOND).unwrap();
    identity
        .pair(
            source(),
            &code,
            &first.key_hex,
            "premier",
            &SERVER_NONCE,
            &CLIENT_NONCE,
            &first.pair_signature(),
        )
        .unwrap();
    assert_eq!(
        identity.pair(
            source(),
            &code,
            &second.key_hex,
            "second",
            &SERVER_NONCE,
            &CLIENT_NONCE,
            &second.pair_signature()
        ),
        Err(AuthError::PairingClosed)
    );
    assert_eq!(identity.clients().len(), 1);
}

#[test]
fn expired_pairing_window_closes() {
    let mut identity = fresh(100);
    let client = TestClient::new();
    identity.open_pairing_at("ABCD-EFGH".to_string(), 1_000_000, 0);
    assert!(identity.pairing_open_at(999_999));
    assert!(!identity.pairing_open_at(20_000_000));
    assert_eq!(
        identity.pair_at(
            source(),
            "ABCD-EFGH",
            &client.key_hex,
            "x",
            &SERVER_NONCE,
            &CLIENT_NONCE,
            &client.pair_signature(),
            20_000_000,
            0
        ),
        Err(AuthError::PairingClosed)
    );
    assert!(!identity.pairing_open_at(0), "an expired window is gone for good");
}

#[test]
fn a_closed_window_is_closed() {
    let mut identity = fresh(100);
    identity.open_pairing(60 * SECOND).unwrap();
    assert!(identity.pairing_open());
    identity.close_pairing();
    assert!(!identity.pairing_open());
}

#[test]
fn brute_force_is_rate_limited() {
    let mut identity = fresh(3);
    let client = TestClient::new();
    for _ in 0..3 {
        assert_eq!(authenticate_client(&mut identity, &client), Err(AuthError::Rejected));
    }
    assert_eq!(authenticate_client(&mut identity, &client), Err(AuthError::RateLimited));
}

#[test]
fn attempts_are_counted_per_source_and_per_minute() {
    let mut identity = fresh(1);
    let client = TestClient::new();
    let mut try_at = |from: IpAddress, now: u128| {
        identity.authenticate_at(
            from,
            &client.key_hex,
            &SERVER_NONCE,
            &CLIENT_NONCE,
            &client.auth_signature(),
            now,
            0,
        )
    };
    assert_eq!(try_at(source(), 0), Err(AuthError::Rejected));
    assert_eq!(try_at(source(), ATTEMPT_WINDOW - 1), Err(AuthError::RateLimited));
    assert_eq!(try_at(IpAddress::V6(7), 5), Err(AuthError::Rejected));
    assert_eq!(try_at(IpAddress::V6(7), 6), Err(AuthError::RateLimited));
    assert_eq!(try_at(source(), ATTEMPT_WINDOW), Err(AuthError::Rejected));
}

#[test]
fn a_success_forgets_the_attempts_and_marks_the_client() {
    let mut identity = fresh(2);
    let client = TestClient::new();
    pair_client(&mut identity, &client).unwrap();
    for unix in 100..110u64 {
        identity
            .authenticate_at(
                source(),
                &client.key_hex,
                &SERVER_NONCE,
                &CLIENT_NONCE,
                &client.auth_signature(),
                0,
                unix,
            )
            .unwrap();
        assert_eq!(identity.clients()[0].last_seen, Some(unix));
    }
}

#[test]
fn revocation_removes_access() {
    let mut identity = fresh(100);
    let client = TestClient::new();
    pair_client(&mut identity, &client).unwrap();

    assert!(identity.revoke(&client.key_hex));
    assert!(!identity.revoke(&client.key_hex));
    assert_eq!(authenticate_client(&mut identity, &client), Err(AuthError::Rejected));
}

#[test]
fn pairing_again_replaces_the_client() {
    let mut identity = fresh(100);
    let client = TestClient::new();
    let other = TestClient::new();
    pair_client(&mut identity, &client).unwrap();
    pair_client(&mut identity, &other).unwrap();
    pair_client(&mut identity, &client).unwrap();
    let keys: Vec<&str> = identity.clients().iter().map(|c| c.key.as_str()).collect();
    assert_eq!(keys, vec![other.key_hex.as_str(), client.key_hex.as_str()]);
}

#[test]
fn malformed_keys_and_signatures_are_rejected() {
    let mut identity = fresh(100);
    let client = TestClient::new();
    pair_client(&mut identity, &client).unwrap();
    let mut attempt = |key: &str, signature: &str| {
        identity.authenticate(source(), key, &SERVER_NONCE, &CLIENT_NONCE, signature)
    };
    let good = client.auth_signature();
    assert_eq!(attempt("zz", &good), Err(AuthError::Rejected));
    assert_eq!(attempt("0404", &good), Err(AuthError::Rejected));
    assert_eq!(attempt(&client.key_hex, &good[..126]), Err(AuthError::Rejected));
    assert_eq!(attempt(&client.key_hex, &to_hex(&[0u8; 64])), Err(AuthError::Rejected));
    assert_eq!(attempt(&client.key_hex.to_uppercase(), &good), Err(AuthError::Rejected));
    assert!(attempt(&client.key_hex, &good.to_uppercase()).is_ok());
}

#[test]
fn agent_signature_verifies_against_its_public_key() {
    let identity = fresh(10);
    let client_key = [7u8; 65];
    let signature_hex = identity.sign_agent_transcript(&SERVER_NONCE, &CLIENT_NONCE, &client_key);

    let public = from_hex_exact::<32>(&identity.public_key_hex()).unwrap();
    let verifying = ed25519_dalek::VerifyingKey::from_bytes(&public).unwrap();
    let signature =
        ed25519_dalek::Signature::from_slice(&from_hex(&signature_hex).unwrap()).unwrap();
    let transcript = agent_transcript(&SERVER_NONCE, &CLIENT_NONCE, &client_key);
    assert!(ed25519_dalek::Verifier::verify(&verifying, &transcript, &signature).is_ok());
}

#[test]
fn a_known_secret_has_a_known_public_key() {
    // First test vector of RFC 8032.
    let secret =
        from_hex_exact::<32>("9d61b19deffd5a60ba844af492ec2cc44449c5697b326919703bac031cae7f60")
            .unwrap();
    let identity = Identity::new(secret, Vec::new(), 1);
    assert_eq!(
        identity.public_key_hex(),
        "d75a980182b10ab7d54bfed3c964073a0ee172f3daa62325af021a68f707511a"
    );
    assert_eq!(identity.fingerprint(), "D75A-9801-82B1-0AB7");
}

#[test]
fn pairing_codes_are_readable_and_unbiased_in_alphabet() {
    for _ in 0..50 {
        let code = generate_pairing_code().unwrap();
        assert_eq!(code.len(), CODE_LEN + 1, "four, dash, four");
        assert_eq!(code.as_bytes()[4], b'-');
        for c in code.bytes().filter(u8::is_ascii_alphanumeric) {
            assert!(CODE_ALPHABET.as_bytes().contains(&c), "ambiguous character: {c}");
        }
    }
}

#[test]
fn draws_make_codes() {
    let mut code = Vec::new();
    for draw in [0u8, 33, 223, 224, 255, 10, 9, 20, 31, 64] {
        push_draw(&mut code, draw);
    }
    assert_eq!(code.iter().collect::<String>(), "01ZA-9MZ0");
}

#[test]
fn codes_compare_ignoring_case_and_punctuation() {
    assert!(codes_match("ABCD-EFGH", "abcdefgh"));
    assert!(codes_match("ABCD-EFGH", "ABCD EFGH"));
    assert!(!codes_match("ABCD-EFGH", "ABCD-EFGJ"));
    assert!(!codes_match("ABCD-EFGH", "ABCD-EFG"));
}

#[test]
fn labels_are_sanitized() {
    assert_eq!(sanitize_label("Pixel 8"), "Pixel 8");
    assert_eq!(sanitize_label("  "), "appareil sans nom");
    assert_eq!(sanitize_label("<script>alert(1)</script>"), "scriptalert1script");
    assert_eq!(sanitize_label(&"x".repeat(100)).len(), 48);
}

#[test]
fn labels_keep_letters_of_any_script() {
    assert_eq!(sanitize_label(" Téléphone_de-Zoé.2 "), "Téléphone_de-Zoé.2");
    assert_eq!(sanitize_label("\n\t"), "appareil sans nom");
    assert_eq!(sanitize_label(&format!("{}z", " ".repeat(48))), "appareil sans nom");
}

#[test]
fn nonces_are_unique_and_full_length() {
    let a = random_nonce().unwrap();
    let b = random_nonce().unwrap();
    assert_eq!(a.len(), NONCE_LEN);
    assert_ne!(a, b);
    assert_ne!(a, [0u8; NONCE_LEN]);
}

fn authenticate_message(client: &TestClient, protocol: u16) -> ClientMessage {
    ClientMessage::Authenticate {
        protocol,
        client_key: client.key_hex.clone(),
        client_nonce: to_hex(&CLIENT_NONCE),
        signature: client.auth_signature(),
    }
}

#[test]
fn the_challenge_says_who_asks() {
    let mut identity = fresh(10);
    let ServerMessage::Challenge { protocol, server_nonce, agent_key, pairing_open } =
        challenge(&identity, &SERVER_NONCE)
    else {
        panic!("a challenge was expected");
    };
    assert_eq!(protocol, PROTOCOL_VERSION);
    assert_eq!(server_nonce, to_hex(&SERVER_NONCE));
    assert_eq!(agent_key, identity.public_key_hex());
    assert!(!pairing_open);

    identity.open_pairing_at("ABCD-EFGH".to_string(), 10, 0);
    let later = challenge_at(&identity, &SERVER_NONCE, 5);
    assert!(matches!(later, ServerMessage::Challenge { pairing_open: true, .. }));
}

#[test]
fn a_handshake_runs_to_its_end() {
    let mut identity = fresh(10);
    let client = TestClient::new();
    let code = identity.open_pairing(60 * SECOND).unwrap();
    let pair = ClientMessage::Pair {
        protocol: PROTOCOL_VERSION,
        code,
        client_key: client.key_hex.clone(),
        client_nonce: to_hex(&CLIENT_NONCE),
        signature: client.pair_signature(),
        label: "Pixel 8".to_string(),
    };
    let step = authenticate(&mut identity, source(), &SERVER_NONCE, Incoming::Message(pair));
    assert_eq!(
        step,
        AuthStep::Accepted { client_key: client.key_hex.clone(), client_nonce: CLIENT_NONCE }
    );

    let message = authenticate_message(&client, PROTOCOL_VERSION);
    let step = authenticate(&mut identity, source(), &SERVER_NONCE, Incoming::Message(message));
    assert!(matches!(step, AuthStep::Accepted { .. }));

    let accepted =
        acceptance(&identity, &SERVER_NONCE, &client.key_hex, &CLIENT_NONCE, &[0xAB; 32]);
    assert_eq!(accepted.session_id, "abababababababab");
    let ServerMessage::AuthOk { agent_signature, session_id } = accepted.message else {
        panic!("an acceptance was expected");
    };
    assert_eq!(session_id, "abababababababab");
    assert_eq!(
        agent_signature,
        identity.sign_agent_transcript(&SERVER_NONCE, &CLIENT_NONCE, &client.key_bytes)
    );
}

#[test]
fn a_handshake_refuses_what_it_does_not_expect() {
    let mut identity = fresh(1);
    let client = TestClient::new();
    let mut step = |incoming| {
        authenticate_at(&mut identity, source(), &SERVER_NONCE, incoming, 0, 0)
    };
    assert_eq!(step(Incoming::Other), AuthStep::Wait);
    assert_eq!(step(Incoming::Close), AuthStep::Refused(AuthError::UnexpectedMessage));
    assert_eq!(step(Incoming::End), AuthStep::Refused(AuthError::UnexpectedMessage));
    assert_eq!(step(Incoming::Unreadable), AuthStep::Refused(AuthError::UnexpectedMessage));
    assert_eq!(
        step(Incoming::Message(ClientMessage::Bye)),
        AuthStep::Refused(AuthError::UnexpectedMessage)
    );
    for _ in 0..5 {
        assert_eq!(
            step(Incoming::Message(authenticate_message(&client, 2))),
            AuthStep::Refused(AuthError::ProtocolMismatch)
        );
    }
    let short_nonce = ClientMessage::Authenticate {
        protocol: PROTOCOL_VERSION,
        client_key: client.key_hex.clone(),
        client_nonce: "00".to_string(),
        signature: client.auth_signature(),
    };
    assert_eq!(step(Incoming::Message(short_nonce)), AuthStep::Refused(AuthError::Rejected));
    assert_eq!(
        step(Incoming::Message(authenticate_message(&client, PROTOCOL_VERSION))),
        AuthStep::Refused(AuthError::Rejected)
    );
    assert_eq!(
        step(Incoming::Message(authenticate_message(&client, PROTOCOL_VERSION))),
        AuthStep::Refused(AuthError::RateLimited)
    );
    assert_eq!(
        refusal(AuthError::RateLimited),
        ServerMessage::AuthFailed { reason: AuthError::RateLimited }
    );
}

#[test]
fn a_draw_makes_an_array_of_its_length_only() {
    assert_eq!(drawn_array::<3>(Some(vec![1, 2, 3])), Ok([1, 2, 3]));
    assert_eq!(drawn_array::<3>(Some(vec![1, 2])), Err(RandomUnavailable));
    assert_eq!(drawn_array::<3>(None), Err(RandomUnavailable));
}

#[test]
fn a_refused_pairing_leaves_the_register_as_it_was() {
    let mut identity = fresh(100);
    let client = TestClient::new();
    pair_client(&mut identity, &client).unwrap();
    let before = identity.clients().to_vec();
    let other = TestClient::new();
    identity.open_pairing(60 * SECOND).unwrap();
    let pair = ClientMessage::Pair {
        protocol: PROTOCOL_VERSION,
        code: "0000-0000-0000".to_string(),
        client_key: other.key_hex.clone(),
        client_nonce: to_hex(&CLIENT_NONCE),
        signature: other.pair_signature(),
        label: "x".to_string(),
    };
    assert_eq!(
        authenticate(&mut identity, source(), &SERVER_NONCE, Incoming::Message(pair)),
        AuthStep::Refused(AuthError::Rejected)
    );
    assert_eq!(identity.clients(), &before[..]);
}

#[test]
fn a_connection_follows_its_authentication() {
    assert!(matches!(run_connection(None), ConnectionStep::Close));
    assert!(matches!(run_connection(Some(AuthStep::Wait)), ConnectionStep::Wait));
    match run_connection(Some(AuthStep::Refused(AuthError::RateLimited))) {
        ConnectionStep::Refuse(message) => assert_eq!(message, refusal(AuthError::RateLimited)),
        other => panic!("unexpected: {other:?}"),
    }
    let accepted = AuthStep::Accepted { client_key: "04".to_string(), client_nonce: [7; 32] };
    match run_connection(Some(accepted)) {
        ConnectionStep::Accept { client_key, client_nonce } => {
            assert_eq!(client_key, "04");
            assert_eq!(client_nonce, [7; 32]);
        }
        other => panic!("unexpected: {other:?}"),
    }
}

#[test]
fn a_code_is_complete_with_its_eighth_character() {
    let mut code = Vec::new();
    for draw in [0u8, 1, 31, 10, 255, 9, 20, 31] {
        assert_eq!(draw_step(&mut code, Some(vec![draw]), 1), None);
    }
    let mut broken = code.clone();
    assert_eq!(draw_step(&mut broken, None, 1), Some(Err(RandomUnavailable)));
    assert_eq!(draw_step(&mut broken, Some(Vec::new()), 1), Some(Err(RandomUnavailable)));
    assert_eq!(broken, code);
    assert_eq!(draw_step(&mut code, Some(vec![0]), 0), Some(Ok("01ZA-9MZ0".to_string())));
}

#[test]
fn an_incomplete_code_calls_for_another_draw() {
    let mut code = Vec::new();
    assert_eq!(draw_step(&mut code, Some(vec![255]), MAX_DRAWS - 1), None);
    assert!(code.is_empty());
    assert_eq!(draw_step(&mut code, Some(vec![10]), 1), None);
    assert_eq!(draw_step(&mut code, Some(vec![10]), 0), Some(Err(RandomUnavailable)));
    assert_eq!(code, ['A', 'A']);
}

#[test]
fn a_generator_serves_several_draws() {
    let mut source = Generator::new();
    assert_eq!(source.draw(0), Some(Vec::new()));
    assert_eq!(source.draw(5).unwrap().len(), 5);
    let array: [u8; 32] = random_array(&mut source).unwrap();
    assert_ne!(array, [0; 32]);
    let code = draw_pairing_code(&mut source).unwrap();
    assert_eq!(code.len(), CODE_LEN + 1);
    assert_ne!(code, draw_pairing_code(&mut source).unwrap());
}

#[test]
fn a_window_opens_only_with_a_code() {
    let mut identity = Identity::new([7; 32], Vec::new(), 10);
    let code = "ABCD-EFGH".to_string();
    assert_eq!(identity.open_pairing_drawn(Err(RandomUnavailable), 10, 0), Err(RandomUnavailable));
    assert!(!identity.pairing_open_at(0));
    assert_eq!(identity.open_pairing_drawn(Ok(code.clone()), 10, 0), Ok(code));
    assert!(identity.pairing_open_at(5));
    assert_eq!(identity.open_pairing_drawn(Err(RandomUnavailable), 10, 6), Err(RandomUnavailable));
    assert!(identity.pairing_open_at(7), "the window that was open stays");
}

#[test]
fn a_new_identity_has_the_secret_that_was_drawn() {
    let (identity, write) = Identity::created(Ok([9; 32]), Vec::new(), 10).unwrap();
    assert_eq!(write, Some(vec![9; 32]));
    let (again, nothing) = Identity::load_or_create(write, Vec::new(), 10).unwrap();
    assert_eq!(nothing, None);
    assert_eq!(again.public_key_hex(), identity.public_key_hex());
    assert!(!identity.pairing_open_at(0));
    assert_eq!(
        Identity::created(Err(RandomUnavailable), Vec::new(), 10).err(),
        Some(IdentityError::NoRandom)
    );
}

#[test]
fn labels_are_stable() {
    for given in ["  a b  ", "", "\u{3000}x\u{a0}", "été-2_.", "😀", "nom\u{2028}"] {
        let label = sanitize_label(given);
        assert_eq!(sanitize_label(&label), label);
        assert_eq!(label.trim(), label);
    }
    let ascii: String = (0u8..0x80).map(char::from).filter(|c| *c != ' ').collect();
    let kept = [&ascii[..64], &ascii[64..96], &ascii[96..]].map(sanitize_label).concat();
    assert_eq!(
        kept,
        "-.0123456789ABCDEFGHIJKLMNOPQRSTUVWXYZ_abcdefghijklmnopqrstuvwxyz"
    );
}

#[test]
fn white_space_is_what_unicode_says() {
    for c in '\0'..=char::MAX {
        let expected = matches!(
            c,
            '\u{9}'..='\u{d}'
                | '\u{20}'
                | '\u{85}'
                | '\u{a0}'
                | '\u{1680}'
                | '\u{2000}'..='\u{200a}'
                | '\u{2028}'
                | '\u{2029}'
                | '\u{202f}'
                | '\u{205f}'
                | '\u{3000}'
        );
        assert_eq!(trim(&[c]).is_empty(), expected, "{c:?}");
    }
}
