//! Authentication of a connection, message by message.

use crate::agent::identity::{self, Identity, IdentityModel};
use crate::agent::pairing::{self, RandomUnavailable};
use crate::clock;
use crate::crypto::{self, Generator};
use crate::net::IpAddress;
use crate::proto::signaling::{self, AuthError, ClientMessage, ServerMessage, NONCE_LEN};
use crate::proto::PROTOCOL_VERSION;
use vstd::prelude::*;

verus! {

/// Longest time for a handshake, in seconds. A silent connection takes up the only
/// session there is. It is long because someone may be copying a pairing code: what
/// protects from brute force is the limit on attempts.
pub const AUTH_TIMEOUT_SECS: u64 = 180;

/// What came from the client.
#[derive(Debug)]
pub enum Incoming {
    /// A message.
    Message(ClientMessage),
    /// A text that is no message.
    Unreadable,
    /// Something else than a text, which does not count.
    Other,
    /// The client closed the connection.
    Close,
    /// The connection ended.
    End,
}

/// What an authentication comes to after one more message.
#[derive(Debug, PartialEq, Eq)]
pub enum AuthStep {
    /// Nothing yet.
    Wait,
    /// Refused.
    Refused(AuthError),
    /// Accepted.
    Accepted {
        /// The client's public key, in hexadecimal.
        client_key: String,
        /// The client's nonce.
        client_nonce: [u8; 32],
    },
}

/// An authentication step as a mathematical value.
pub enum AuthStepModel {
    /// Nothing yet.
    Wait,
    /// Refused.
    Refused(AuthError),
    /// Accepted, with the client's key and nonce.
    Accepted(Seq<char>, Seq<u8>),
}

/// A step, from what the identity answers.
pub open spec fn step_of(answer: Option<AuthError>, key: Seq<char>, nonce: Seq<u8>) -> AuthStepModel {
    match answer {
        None => AuthStepModel::Accepted(key, nonce),
        Some(e) => AuthStepModel::Refused(e),
    }
}

/// Whether a text is the hexadecimal form of a nonce.
pub open spec fn is_nonce(t: Seq<char>) -> bool {
    signaling::is_hex_text(t) && t.len() == 2 * NONCE_LEN
}

/// What a message comes to. The protocol version is looked at first, then the nonce;
/// a message that fails either is not counted as an attempt.
pub open spec fn auth_step(
    m: IdentityModel,
    peer: IpAddress,
    server_nonce: Seq<u8>,
    incoming: Incoming,
    now: u128,
) -> AuthStepModel {
    match incoming {
        Incoming::Other => AuthStepModel::Wait,
        Incoming::Message(
            ClientMessage::Authenticate { protocol, client_key, client_nonce, signature },
        ) => if protocol != PROTOCOL_VERSION {
            AuthStepModel::Refused(AuthError::ProtocolMismatch)
        } else if !is_nonce(client_nonce@) {
            AuthStepModel::Refused(AuthError::Rejected)
        } else {
            let nonce = signaling::hex_bytes(client_nonce@);
            let p = identity::proof_of(client_key@, server_nonce, nonce, signature@);
            step_of(identity::auth_answer(m, peer, p, now), client_key@, nonce)
        },
        Incoming::Message(
            ClientMessage::Pair { protocol, code, client_key, client_nonce, signature, label },
        ) => if protocol != PROTOCOL_VERSION {
            AuthStepModel::Refused(AuthError::ProtocolMismatch)
        } else if !is_nonce(client_nonce@) {
            AuthStepModel::Refused(AuthError::Rejected)
        } else {
            let nonce = signaling::hex_bytes(client_nonce@);
            let p = identity::proof_of(client_key@, server_nonce, nonce, signature@);
            step_of(identity::pair_answer(m, peer, code@, p, now), client_key@, nonce)
        },
        _ => AuthStepModel::Refused(AuthError::UnexpectedMessage),
    }
}

/// What the identity becomes after a message.
pub open spec fn auth_after(
    m: IdentityModel,
    peer: IpAddress,
    server_nonce: Seq<u8>,
    incoming: Incoming,
    now: u128,
    unix: u64,
) -> IdentityModel {
    match incoming {
        Incoming::Message(
            ClientMessage::Authenticate { protocol, client_key, client_nonce, signature },
        ) => if protocol != PROTOCOL_VERSION || !is_nonce(client_nonce@) {
            m
        } else {
            let nonce = signaling::hex_bytes(client_nonce@);
            let p = identity::proof_of(client_key@, server_nonce, nonce, signature@);
            identity::auth_after(m, peer, p, now, unix)
        },
        Incoming::Message(
            ClientMessage::Pair { protocol, code, client_key, client_nonce, signature, label },
        ) => if protocol != PROTOCOL_VERSION || !is_nonce(client_nonce@) {
            m
        } else {
            let nonce = signaling::hex_bytes(client_nonce@);
            let p = identity::proof_of(client_key@, server_nonce, nonce, signature@);
            identity::pair_after(m, peer, code@, p, now, unix, label@)
        },
        _ => m,
    }
}

/// Whether a step is the expected one.
pub open spec fn step_is(s: AuthStep, m: AuthStepModel) -> bool {
    match m {
        AuthStepModel::Wait => s is Wait,
        AuthStepModel::Refused(e) => s == AuthStep::Refused(e),
        AuthStepModel::Accepted(key, nonce) => s matches AuthStep::Accepted {
            client_key,
            client_nonce,
        } && client_key@ == key && client_nonce@ == nonce,
    }
}

/// Draws a nonce from the system's generator. Whether there is one, and which, is up
/// to the generator: what a draw makes is said by [`pairing::random_array`].
pub fn random_nonce() -> (r: Result<[u8; 32], RandomUnavailable>)
    ensures
        exists|drawn: Option<Seq<u8>>| #[trigger]
            pairing::array_outcome(drawn, r) && (drawn matches Some(bytes) ==> bytes.len()
                == NONCE_LEN),
{
    let mut source = Generator::new();
    let r = pairing::random_array(&mut source);
    assert(pairing::array_outcome(source.given().last(), r));
    r
}

fn step_from(r: Result<String, AuthError>, client_nonce: [u8; 32]) -> (s: AuthStep)
    ensures
        forall|key: Seq<char>, answer: Option<AuthError>| #[trigger]
            identity::outcome(r, key, answer) ==> step_is(s, step_of(answer, key, client_nonce@)),
{
    match r {
        Ok(client_key) => AuthStep::Accepted { client_key, client_nonce },
        Err(e) => AuthStep::Refused(e),
    }
}

/// Looks at a message from a client that has yet to authenticate, now.
pub fn authenticate(
    id: &mut Identity,
    peer: IpAddress,
    server_nonce: &[u8; 32],
    incoming: Incoming,
) -> (step: AuthStep)
    ensures
        exists|now: u128, unix: u64|
            step_is(step, auth_step(old(id)@, peer, server_nonce@, incoming, now)) && final(id)@
                == #[trigger] auth_after(old(id)@, peer, server_nonce@, incoming, now, unix),
{
    let now: u128 = id.clock();
    let unix: u64 = clock::unix_now();
    authenticate_at(id, peer, server_nonce, incoming, now, unix)
}

/// Looks at a message from a client that has yet to authenticate, at `now` nanoseconds
/// on the identity's clock and `unix` seconds since the Unix epoch.
pub fn authenticate_at(
    id: &mut Identity,
    peer: IpAddress,
    server_nonce: &[u8; 32],
    incoming: Incoming,
    now: u128,
    unix: u64,
) -> (step: AuthStep)
    ensures
        step_is(step, auth_step(old(id)@, peer, server_nonce@, incoming, now)),
        final(id)@ == auth_after(old(id)@, peer, server_nonce@, incoming, now, unix),
{
    match incoming {
        Incoming::Other => AuthStep::Wait,
        Incoming::Message(message) => match message {
            ClientMessage::Authenticate { protocol, client_key, client_nonce, signature } => {
                if protocol != PROTOCOL_VERSION {
                    return AuthStep::Refused(AuthError::ProtocolMismatch);
                }
                let nonce = match signaling::from_hex_exact::<32>(client_nonce.as_str()) {
                    Some(nonce) => nonce,
                    None => {
                        return AuthStep::Refused(AuthError::Rejected);
                    },
                };
                let r = id.authenticate_at(
                    peer,
                    client_key.as_str(),
                    server_nonce,
                    &nonce,
                    signature.as_str(),
                    now,
                    unix,
                );
                step_from(r, nonce)
            },
            ClientMessage::Pair { protocol, code, client_key, client_nonce, signature, label } => {
                if protocol != PROTOCOL_VERSION {
                    return AuthStep::Refused(AuthError::ProtocolMismatch);
                }
                let nonce = match signaling::from_hex_exact::<32>(client_nonce.as_str()) {
                    Some(nonce) => nonce,
                    None => {
                        return AuthStep::Refused(AuthError::Rejected);
                    },
                };
                let r = id.pair_at(
                    peer,
                    code.as_str(),
                    client_key.as_str(),
                    label.as_str(),
                    server_nonce,
                    &nonce,
                    signature.as_str(),
                    now,
                    unix,
                );
                step_from(r, nonce)
            },
            _ => AuthStep::Refused(AuthError::UnexpectedMessage),
        },
        _ => AuthStep::Refused(AuthError::UnexpectedMessage),
    }
}

/// Whether a message is the challenge that goes with a nonce, at `now`.
pub open spec fn is_challenge(
    message: ServerMessage,
    m: IdentityModel,
    server_nonce: Seq<u8>,
    now: u128,
) -> bool {
    message matches ServerMessage::Challenge {
        protocol,
        server_nonce: nonce_text,
        agent_key,
        pairing_open,
    } && protocol == PROTOCOL_VERSION && nonce_text@ == signaling::hex_text(server_nonce)
        && agent_key@ == signaling::hex_text(crypto::ed25519_public_key(m.secret)) && pairing_open
        == identity::pairing_is_open(m, now)
}

/// The challenge that opens a connection.
pub fn challenge_at(id: &Identity, server_nonce: &[u8; 32], now: u128) -> (message: ServerMessage)
    ensures
        is_challenge(message, id@, server_nonce@, now),
{
    ServerMessage::Challenge {
        protocol: PROTOCOL_VERSION,
        server_nonce: signaling::to_hex(server_nonce),
        agent_key: id.public_key_hex(),
        pairing_open: id.pairing_open_at(now),
    }
}

/// The challenge that opens a connection, now.
pub fn challenge(id: &Identity, server_nonce: &[u8; 32]) -> (message: ServerMessage)
    ensures
        exists|now: u128| #[trigger] is_challenge(message, id@, server_nonce@, now),
{
    let now: u128 = id.clock();
    challenge_at(id, server_nonce, now)
}

/// The refusal of a client.
pub fn refusal(reason: AuthError) -> (message: ServerMessage)
    ensures
        message == (ServerMessage::AuthFailed { reason }),
{
    ServerMessage::AuthFailed { reason }
}

/// What a connection comes to after a step of its authentication.
#[derive(Debug)]
pub enum ConnectionStep {
    /// Wait for another message.
    Wait,
    /// Close without a word: the client took too long.
    Close,
    /// Send this, then close.
    Refuse(ServerMessage),
    /// Send the acceptance, then open the session.
    Accept {
        /// The client's public key, in hexadecimal.
        client_key: String,
        /// The client's nonce.
        client_nonce: [u8; 32],
    },
}

/// What a connection comes to.
pub open spec fn connection_step(step: Option<AuthStep>) -> ConnectionStep {
    match step {
        None => ConnectionStep::Close,
        Some(AuthStep::Wait) => ConnectionStep::Wait,
        Some(AuthStep::Refused(reason)) => ConnectionStep::Refuse(
            ServerMessage::AuthFailed { reason },
        ),
        Some(AuthStep::Accepted { client_key, client_nonce }) => ConnectionStep::Accept {
            client_key,
            client_nonce,
        },
    }
}

/// What a connection comes to, given the step that its authentication took (`None`:
/// the time for the handshake ran out).
pub fn run_connection(step: Option<AuthStep>) -> (c: ConnectionStep)
    ensures
        c == connection_step(step),
{
    match step {
        None => ConnectionStep::Close,
        Some(AuthStep::Wait) => ConnectionStep::Wait,
        Some(AuthStep::Refused(reason)) => ConnectionStep::Refuse(refusal(reason)),
        Some(AuthStep::Accepted { client_key, client_nonce }) => ConnectionStep::Accept {
            client_key,
            client_nonce,
        },
    }
}

/// What an acceptance is made of: the message, and the identifier of the session.
#[derive(Debug)]
pub struct Acceptance {
    /// What to send to the client.
    pub message: ServerMessage,
    /// Identifier of the session, to correlate the logs.
    pub session_id: String,
}

/// Whether an acceptance is the one of this handshake.
pub open spec fn is_acceptance(
    a: Acceptance,
    secret: Seq<u8>,
    server_nonce: Seq<u8>,
    client_key: Seq<char>,
    client_nonce: Seq<u8>,
    session_nonce: Seq<u8>,
) -> bool {
    &&& a.session_id@ == signaling::hex_text(session_nonce.take(8))
    &&& a.message matches ServerMessage::AuthOk { agent_signature, session_id } && session_id@
        == a.session_id@ && agent_signature@ == identity::agent_signature(
        secret,
        server_nonce,
        client_nonce,
        if signaling::is_hex_text(client_key) {
            signaling::hex_bytes(client_key)
        } else {
            Seq::empty()
        },
    )
}

/// The acceptance of a client: the agent signs in turn, so that the client can tell it
/// from an impostor. The session goes by the first eight bytes of a fresh nonce.
pub fn acceptance(
    id: &Identity,
    server_nonce: &[u8; 32],
    client_key: &str,
    client_nonce: &[u8; 32],
    session_nonce: &[u8; 32],
) -> (a: Acceptance)
    ensures
        is_acceptance(
            a,
            id@.secret,
            server_nonce@,
            client_key@,
            client_nonce@,
            session_nonce@,
        ),
{
    let key_bytes = match signaling::from_hex(client_key) {
        Some(bytes) => bytes,
        None => Vec::new(),
    };
    let agent_signature = id.sign_agent_transcript(
        server_nonce,
        client_nonce,
        key_bytes.as_slice(),
    );
    let head = vstd::slice::slice_subrange(session_nonce, 0, 8);
    assert(head@ =~= session_nonce@.take(8));
    let session_id = signaling::to_hex(head);
    Acceptance {
        message: ServerMessage::AuthOk { agent_signature, session_id: session_id.clone() },
        session_id,
    }
}

/// Whether a client's message carries this pairing code.
pub open spec fn gives_code(incoming: Incoming, given: Seq<char>) -> bool {
    incoming matches Incoming::Message(ClientMessage::Pair { code, .. }) && code@ == given
}

/// A client gets in only by a signature of this very handshake under a registered key,
/// or, while a pairing window is open, by its code and a signature of this very
/// handshake.
pub proof fn law_no_session_without_proof(
    m: IdentityModel,
    peer: IpAddress,
    server_nonce: Seq<u8>,
    incoming: Incoming,
    now: u128,
)
    requires
        auth_step(m, peer, server_nonce, incoming, now) is Accepted,
    ensures
        ({
            let step = auth_step(m, peer, server_nonce, incoming, now);
            let key = step->Accepted_0;
            let nonce = step->Accepted_1;
            ||| identity::registered(m.clients, key) && exists|signature: Seq<char>|
                identity::proves(
                    #[trigger] identity::proof_of(key, server_nonce, nonce, signature),
                    signaling::Domain::ClientAuth,
                )
            ||| identity::pairing_is_open(m, now) && exists|given: Seq<char>| #[trigger]
                gives_code(incoming, given) && pairing::normal_code(given)
                    == pairing::normal_code(m.pairing->0.code) && exists|signature: Seq<char>|
                    identity::proves(
                        #[trigger] identity::proof_of(key, server_nonce, nonce, signature),
                        signaling::Domain::ClientPair,
                    )
        }),
{
    let step = auth_step(m, peer, server_nonce, incoming, now);
    let key = step->Accepted_0;
    let nonce = step->Accepted_1;
    match incoming {
        Incoming::Message(
            ClientMessage::Authenticate { protocol, client_key, client_nonce, signature },
        ) => {
            let p = identity::proof_of(key, server_nonce, nonce, signature@);
            assert(identity::proves(p, signaling::Domain::ClientAuth));
        },
        Incoming::Message(
            ClientMessage::Pair { protocol, code, client_key, client_nonce, signature, label },
        ) => {
            let p = identity::proof_of(key, server_nonce, nonce, signature@);
            assert(identity::proves(p, signaling::Domain::ClientPair));
            assert(gives_code(incoming, code@));
        },
        _ => {},
    }
}

/// A refusal leaves the register as it was: nobody is added, nobody is dropped.
pub proof fn law_refusals_register_nobody(
    m: IdentityModel,
    peer: IpAddress,
    server_nonce: Seq<u8>,
    incoming: Incoming,
    now: u128,
    unix: u64,
)
    requires
        !(auth_step(m, peer, server_nonce, incoming, now) is Accepted),
    ensures
        auth_after(m, peer, server_nonce, incoming, now, unix).clients == m.clients,
{
}

/// Another version of the protocol is turned away before anything else: nothing is
/// verified, counted or changed.
pub proof fn law_other_protocols_are_turned_away(
    m: IdentityModel,
    peer: IpAddress,
    server_nonce: Seq<u8>,
    message: ClientMessage,
    now: u128,
    unix: u64,
)
    requires
        message matches ClientMessage::Authenticate { protocol, .. } ==> protocol
            != PROTOCOL_VERSION,
        message matches ClientMessage::Pair { protocol, .. } ==> protocol != PROTOCOL_VERSION,
        message is Authenticate || message is Pair,
    ensures
        auth_step(m, peer, server_nonce, Incoming::Message(message), now)
            == AuthStepModel::Refused(AuthError::ProtocolMismatch),
        auth_after(m, peer, server_nonce, Incoming::Message(message), now, unix) == m,
{
}

/// A client that says it is paired is judged by its own key, its own nonce and signature,
/// and the nonce that this connection gave it, by version one of the protocol and with a
/// nonce of 64 digits; and it is let in exactly when the identity says so, under that key and
/// with that nonce. Else it is told why.
pub proof fn law_a_paired_client_is_judged_by_its_message(
    m: IdentityModel,
    peer: IpAddress,
    server_nonce: Seq<u8>,
    message: ClientMessage,
    now: u128,
    unix: u64,
)
    requires
        message matches ClientMessage::Authenticate {
            protocol,
            client_key,
            client_nonce,
            signature,
        } && protocol == 1 && signaling::is_hex_text(client_nonce@) && client_nonce@.len() == 64,
    ensures
        ({
            let p = identity::Proof {
                key: message->Authenticate_client_key@,
                server_nonce,
                client_nonce: signaling::hex_bytes(message->Authenticate_client_nonce@),
                signature: message->Authenticate_signature@,
            };
            let step = auth_step(m, peer, server_nonce, Incoming::Message(message), now);
            let after = auth_after(m, peer, server_nonce, Incoming::Message(message), now, unix);
            &&& step == AuthStepModel::Accepted(p.key, p.client_nonce) <==> identity::auth_answer(
                m,
                peer,
                p,
                now,
            ) is None
            &&& step is Accepted || step is Refused
            &&& step matches AuthStepModel::Refused(e) ==> identity::auth_answer(m, peer, p, now)
                == Some(e)
            &&& after == identity::auth_after(m, peer, p, now, unix)
        }),
{
}

/// A client that asks to be paired is judged in the same way, by its code besides, and goes
/// into the register under the name that it gives itself.
pub proof fn law_a_new_client_is_judged_by_its_message(
    m: IdentityModel,
    peer: IpAddress,
    server_nonce: Seq<u8>,
    message: ClientMessage,
    now: u128,
    unix: u64,
)
    requires
        message matches ClientMessage::Pair {
            protocol,
            code,
            client_key,
            client_nonce,
            signature,
            label,
        } && protocol == 1 && signaling::is_hex_text(client_nonce@) && client_nonce@.len() == 64,
    ensures
        ({
            let p = identity::Proof {
                key: message->Pair_client_key@,
                server_nonce,
                client_nonce: signaling::hex_bytes(message->Pair_client_nonce@),
                signature: message->Pair_signature@,
            };
            let code = message->code@;
            let step = auth_step(m, peer, server_nonce, Incoming::Message(message), now);
            let after = auth_after(m, peer, server_nonce, Incoming::Message(message), now, unix);
            &&& step == AuthStepModel::Accepted(p.key, p.client_nonce) <==> identity::pair_answer(
                m,
                peer,
                code,
                p,
                now,
            ) is None
            &&& step is Accepted || step is Refused
            &&& step matches AuthStepModel::Refused(e) ==> identity::pair_answer(
                m,
                peer,
                code,
                p,
                now,
            ) == Some(e)
            &&& after == identity::pair_after(m, peer, code, p, now, unix, message->label@)
        }),
{
}

/// What is neither of the two is no handshake. What is no text is passed over; anything else,
/// and the end of the connection, is an unexpected message; a nonce that is not 32 bytes in
/// hexadecimal is rejected. None of that counts as an attempt or changes anything.
pub proof fn law_everything_else_is_turned_away(
    m: IdentityModel,
    peer: IpAddress,
    server_nonce: Seq<u8>,
    incoming: Incoming,
    now: u128,
    unix: u64,
)
    ensures
        ({
            let step = auth_step(m, peer, server_nonce, incoming, now);
            let after = auth_after(m, peer, server_nonce, incoming, now, unix);
            let speaks = incoming matches Incoming::Message(message) && (message is Authenticate
                || message is Pair);
            &&& step is Wait <==> incoming is Other
            &&& !speaks ==> after == m
            &&& !speaks && incoming !is Other ==> step == AuthStepModel::Refused(
                AuthError::UnexpectedMessage,
            )
            &&& incoming matches Incoming::Message(
                ClientMessage::Authenticate { protocol, client_nonce, .. },
            ) ==> (protocol == 1 && !(signaling::is_hex_text(client_nonce@) && client_nonce@.len()
                == 64) ==> step == AuthStepModel::Refused(AuthError::Rejected) && after == m)
            &&& incoming matches Incoming::Message(
                ClientMessage::Pair { protocol, client_nonce, .. },
            ) ==> (protocol == 1 && !(signaling::is_hex_text(client_nonce@) && client_nonce@.len()
                == 64) ==> step == AuthStepModel::Refused(AuthError::Rejected) && after == m)
            &&& incoming matches Incoming::Message(ClientMessage::Authenticate { protocol, .. })
                ==> (protocol != 1 ==> step == AuthStepModel::Refused(AuthError::ProtocolMismatch)
                && after == m)
            &&& incoming matches Incoming::Message(ClientMessage::Pair { protocol, .. }) ==> (
            protocol != 1 ==> step == AuthStepModel::Refused(AuthError::ProtocolMismatch) && after
                == m)
        }),
{
}

/// A challenge gives the client what it has to sign and what it pins: the version of the
/// protocol, the nonce of this connection and the agent's public key, which can be read back
/// from their texts, and whether a window is open.
pub proof fn law_a_challenge_can_be_answered(
    message: ServerMessage,
    m: IdentityModel,
    server_nonce: Seq<u8>,
    now: u128,
)
    requires
        is_challenge(message, m, server_nonce, now),
    ensures
        message matches ServerMessage::Challenge {
            protocol,
            server_nonce: nonce_text,
            agent_key,
            pairing_open,
        } && protocol == 1 && signaling::is_hex_text(nonce_text@) && signaling::hex_bytes(
            nonce_text@,
        ) == server_nonce && signaling::is_hex_text(agent_key@) && signaling::hex_bytes(agent_key@)
            == crypto::ed25519_public_key(m.secret) && (pairing_open <==> (
        m.pairing matches Some(w) && w.ttl > 0 && now < w.opened + w.ttl)),
{
    signaling::law_hex_roundtrip(server_nonce);
    signaling::law_hex_roundtrip(crypto::ed25519_public_key(m.secret));
}

/// An acceptance proves the agent to the client: the signature, once read, is the one of the
/// agent's secret on the transcript of this handshake, with both nonces and the client's key.
/// The session goes by the first eight bytes of its nonce, in sixteen digits, in the message
/// as in the logs.
pub proof fn law_an_acceptance_proves_the_agent(
    a: Acceptance,
    secret: Seq<u8>,
    server_nonce: Seq<u8>,
    client_key: Seq<char>,
    client_nonce: Seq<u8>,
    session_nonce: Seq<u8>,
)
    requires
        is_acceptance(a, secret, server_nonce, client_key, client_nonce, session_nonce),
        signaling::is_hex_text(client_key),
        session_nonce.len() == 32,
    ensures
        a.message matches ServerMessage::AuthOk { agent_signature, session_id }
            && signaling::is_hex_text(agent_signature@) && signaling::hex_bytes(agent_signature@)
            == crypto::ed25519_signature(
            secret,
            signaling::transcript_bytes(
                signaling::Domain::Agent,
                server_nonce,
                client_nonce,
                signaling::hex_bytes(client_key),
            ),
        ) && session_id@ == a.session_id@ && session_id@.len() == 16 && signaling::hex_bytes(
            session_id@,
        ) == session_nonce.take(8),
{
    signaling::law_hex_roundtrip(
        crypto::ed25519_signature(
            secret,
            signaling::transcript_bytes(
                signaling::Domain::Agent,
                server_nonce,
                client_nonce,
                signaling::hex_bytes(client_key),
            ),
        ),
    );
    signaling::law_hex_roundtrip(session_nonce.take(8));
}

/// A connection becomes a session for an accepted client only, under its key and with its
/// nonce. A refusal is sent with its reason. One that takes too long is closed without a
/// word, and one that says nothing yet is waited for.
pub proof fn law_only_accepted_clients_get_a_session(step: Option<AuthStep>)
    ensures
        connection_step(step) is Accept <==> (step matches Some(AuthStep::Accepted { .. })),
        step matches Some(AuthStep::Accepted { client_key, client_nonce }) ==> connection_step(
            step,
        ) == (ConnectionStep::Accept { client_key, client_nonce }),
        step matches Some(AuthStep::Refused(reason)) ==> connection_step(step)
            == ConnectionStep::Refuse(ServerMessage::AuthFailed { reason }),
        connection_step(step) is Close <==> step is None,
        connection_step(step) is Wait <==> step == Some(AuthStep::Wait),
{
}

/// The step that is taken is the one that was decided on, with its error, or with its key and
/// its nonce.
pub proof fn law_the_step_is_what_was_decided(s: AuthStep, m: AuthStepModel)
    requires
        step_is(s, m),
    ensures
        s is Wait <==> m is Wait,
        s matches AuthStep::Refused(e) ==> m == AuthStepModel::Refused(e),
        s matches AuthStep::Accepted { client_key, client_nonce } ==> m == AuthStepModel::Accepted(
            client_key@,
            client_nonce@,
        ),
{
}

} // verus!
