//! Identity of the agent, paired clients and mutual authentication.
//!
//! The agent owns an Ed25519 identity made on its first start. Each client owns an
//! ECDSA P-256 key pair made in the browser. Pairing is a short window, opened on
//! the host, during which an eight-character code allows a public key to be
//! registered. From then on every connection is a challenge signed both ways: the
//! client proves its identity, and the agent proves its own so that the client
//! detects an impostor.

use crate::agent::attempts;
use crate::agent::attempts::{AttemptTable, AttemptWindow};
use crate::agent::pairing;
use crate::agent::pairing::RandomUnavailable;
use crate::clock;
use crate::crypto::{self, Generator};
use crate::net::IpAddress;
use crate::proto::signaling;
use crate::proto::signaling::AuthError;
use crate::text;
use vstd::prelude::*;

verus! {

/// A client allowed to open a session.
#[derive(Debug, Clone, PartialEq, Eq)]
pub struct PairedClient {
    /// ECDSA P-256 public key, uncompressed SEC1, in hexadecimal.
    pub key: String,
    /// Readable name given by the client when it was paired.
    pub label: String,
    /// When it was paired, in seconds since the Unix epoch.
    pub paired_at: u64,
    /// Last successful connection, in seconds since the Unix epoch.
    pub last_seen: Option<u64>,
}

/// A paired client as a mathematical value.
pub struct ClientModel {
    /// Public key, in hexadecimal.
    pub key: Seq<char>,
    /// Readable name.
    pub label: Seq<char>,
    /// When it was paired.
    pub paired_at: u64,
    /// Last successful connection.
    pub last_seen: Option<u64>,
}

impl View for PairedClient {
    type V = ClientModel;

    open spec fn view(&self) -> ClientModel {
        ClientModel {
            key: self.key@,
            label: self.label@,
            paired_at: self.paired_at,
            last_seen: self.last_seen,
        }
    }
}

/// A list of clients as mathematical values.
pub open spec fn clients_model(cs: Seq<PairedClient>) -> Seq<ClientModel> {
    Seq::new(cs.len(), |i: int| cs[i]@)
}

struct PairingWindow {
    code: String,
    opened: u128,
    ttl: u128,
}

/// A pairing window as a mathematical value.
pub struct PairingModel {
    /// The code that lets a client in.
    pub code: Seq<char>,
    /// When the window was opened.
    pub opened: u128,
    /// How long it stays open, in nanoseconds.
    pub ttl: u128,
}

/// Identity of the agent and register of the clients.
pub struct Identity {
    secret: [u8; 32],
    clients: Vec<PairedClient>,
    pairing: Option<PairingWindow>,
    attempts: AttemptTable,
    attempts_per_minute: u32,
    epoch: std::time::Instant,
}

/// An identity as a mathematical value.
pub struct IdentityModel {
    /// Secret of the signing key.
    pub secret: Seq<u8>,
    /// Clients allowed to open a session.
    pub clients: Seq<ClientModel>,
    /// Pairing window, if one was opened and neither closed nor used.
    pub pairing: Option<PairingModel>,
    /// Attempts, per source.
    pub attempts: Map<IpAddress, AttemptWindow>,
    /// Attempts tolerated per minute and per source.
    pub quota: u32,
}

impl View for Identity {
    type V = IdentityModel;

    closed spec fn view(&self) -> IdentityModel {
        IdentityModel {
            secret: self.secret@,
            clients: clients_model(self.clients@),
            pairing: match self.pairing {
                None => None,
                Some(w) => Some(PairingModel { code: w.code@, opened: w.opened, ttl: w.ttl }),
            },
            attempts: self.attempts@,
            quota: self.attempts_per_minute,
        }
    }
}

/// Why an identity cannot be had.
#[derive(Debug, Clone, Copy, PartialEq, Eq, Structural)]
pub enum IdentityError {
    /// The stored key is not the 32 bytes of an Ed25519 key.
    CorruptKey,
    /// The system's random generator is not available.
    NoRandom,
}

/// Whether an identity has these clients and this quota, and nothing happened to it yet.
pub open spec fn is_fresh(m: IdentityModel, clients: Seq<PairedClient>, quota: u32) -> bool {
    &&& m.clients == clients_model(clients)
    &&& m.pairing is None
    &&& m.attempts == Map::<IpAddress, AttemptWindow>::empty()
    &&& m.quota == quota
}

/// Whether a result is what a drawn secret comes to, for an agent that had none: the
/// identity and the key to write, or that no secret could be drawn.
pub open spec fn created_outcome(
    drawn: Result<[u8; 32], RandomUnavailable>,
    clients: Seq<PairedClient>,
    quota: u32,
    r: Result<(Identity, Option<Vec<u8>>), IdentityError>,
) -> bool {
    match drawn {
        Ok(secret) => r matches Ok((id, Some(key))) && id@.secret == secret@ && key@ == secret@
            && is_fresh(id@, clients, quota),
        Err(_) => r matches Err(e) && e == IdentityError::NoRandom,
    }
}

/// Whether a client with this key is registered.
pub open spec fn registered(cs: Seq<ClientModel>, key: Seq<char>) -> bool {
    exists|i: int| 0 <= i < cs.len() && (#[trigger] cs[i]).key == key
}

/// The clients but those with this key.
pub open spec fn without(cs: Seq<ClientModel>, key: Seq<char>) -> Seq<ClientModel>
    decreases cs.len(),
{
    if cs.len() == 0 {
        cs
    } else if cs.last().key == key {
        without(cs.drop_last(), key)
    } else {
        without(cs.drop_last(), key).push(cs.last())
    }
}

/// The clients, the first one with this key last seen at `at`.
pub open spec fn seen(cs: Seq<ClientModel>, key: Seq<char>, at: u64) -> Seq<ClientModel>
    decreases cs.len(),
{
    if cs.len() == 0 {
        cs
    } else if cs[0].key == key {
        seq![ClientModel { last_seen: Some(at), ..cs[0] }] + cs.drop_first()
    } else {
        seq![cs[0]] + seen(cs.drop_first(), key, at)
    }
}

/// Whether the signature `signature` (in hexadecimal, 64 bytes) of `transcript`
/// verifies under the key `key` (in hexadecimal).
pub open spec fn signature_holds(
    key: Seq<char>,
    transcript: Seq<u8>,
    signature: Seq<char>,
) -> bool {
    &&& valid_key(key)
    &&& signaling::is_hex_text(signature)
    &&& signature.len() == 128
    &&& crypto::p256_verifies(
        signaling::hex_bytes(key),
        transcript,
        signaling::hex_bytes(signature),
    )
}

/// Whether a text is the hexadecimal form of a P-256 public key.
pub open spec fn valid_key(key: Seq<char>) -> bool {
    signaling::is_hex_text(key) && crypto::p256_key_is_valid(signaling::hex_bytes(key))
}

/// What a client handed over in a handshake, with the agent's nonce.
pub struct Proof {
    /// The client's public key, in hexadecimal.
    pub key: Seq<char>,
    /// The agent's nonce.
    pub server_nonce: Seq<u8>,
    /// The client's nonce.
    pub client_nonce: Seq<u8>,
    /// The client's signature, in hexadecimal.
    pub signature: Seq<char>,
}

/// What a client handed over, put together.
pub open spec fn proof_of(
    key: Seq<char>,
    server_nonce: Seq<u8>,
    client_nonce: Seq<u8>,
    signature: Seq<char>,
) -> Proof {
    Proof { key, server_nonce, client_nonce, signature }
}

/// Whether the client signed the transcript of this handshake for this use.
pub open spec fn proves(p: Proof, d: signaling::Domain) -> bool {
    signature_holds(
        p.key,
        signaling::transcript_bytes(
            d,
            p.server_nonce,
            p.client_nonce,
            signaling::hex_bytes(p.key),
        ),
        p.signature,
    )
}

/// The agent's signature of a handshake, in hexadecimal.
pub open spec fn agent_signature(
    secret: Seq<u8>,
    server_nonce: Seq<u8>,
    client_nonce: Seq<u8>,
    client_key: Seq<u8>,
) -> Seq<char> {
    signaling::hex_text(
        crypto::ed25519_signature(
            secret,
            signaling::transcript_bytes(
                signaling::Domain::Agent,
                server_nonce,
                client_nonce,
                client_key,
            ),
        ),
    )
}

/// An identity once `source` has made an attempt at `now`.
pub open spec fn counted(m: IdentityModel, source: IpAddress, now: u128) -> IdentityModel {
    IdentityModel {
        attempts: m.attempts.insert(
            source,
            attempts::next_window(attempts::window_of(m.attempts, source), now),
        ),
        ..m
    }
}

/// Whether the attempt that `source` makes at `now` is beyond its quota.
pub open spec fn over_quota(m: IdentityModel, source: IpAddress, now: u128) -> bool {
    attempts::next_window(attempts::window_of(m.attempts, source), now).count > m.quota
}

/// Whether a pairing window is open at `now`.
pub open spec fn pairing_is_open(m: IdentityModel, now: u128) -> bool {
    m.pairing matches Some(w) && clock::elapsed(w.opened, now) < w.ttl
}

/// The answer to a client that says it is paired.
pub open spec fn auth_answer(
    m: IdentityModel,
    source: IpAddress,
    p: Proof,
    now: u128,
) -> Option<AuthError> {
    if over_quota(m, source, now) {
        Some(AuthError::RateLimited)
    } else if registered(m.clients, p.key) && proves(p, signaling::Domain::ClientAuth) {
        None
    } else {
        Some(AuthError::Rejected)
    }
}

/// What an identity becomes once a client has said that it is paired.
pub open spec fn auth_after(
    m: IdentityModel,
    source: IpAddress,
    p: Proof,
    now: u128,
    unix: u64,
) -> IdentityModel {
    if auth_answer(m, source, p, now) is None {
        IdentityModel {
            clients: seen(m.clients, p.key, unix),
            attempts: m.attempts.remove(source),
            ..m
        }
    } else {
        counted(m, source, now)
    }
}

/// The answer to a client that asks to be paired.
pub open spec fn pair_answer(
    m: IdentityModel,
    source: IpAddress,
    code: Seq<char>,
    p: Proof,
    now: u128,
) -> Option<AuthError> {
    if over_quota(m, source, now) {
        Some(AuthError::RateLimited)
    } else if !pairing_is_open(m, now) {
        Some(AuthError::PairingClosed)
    } else if pairing::normal_code(m.pairing->0.code) == pairing::normal_code(code) && proves(
        p,
        signaling::Domain::ClientPair,
    ) {
        None
    } else {
        Some(AuthError::Rejected)
    }
}

/// What an identity becomes once a client has asked to be paired under the name
/// `label`.
pub open spec fn pair_after(
    m: IdentityModel,
    source: IpAddress,
    code: Seq<char>,
    p: Proof,
    now: u128,
    unix: u64,
    label: Seq<char>,
) -> IdentityModel {
    match pair_answer(m, source, code, p, now) {
        None => IdentityModel {
            clients: without(m.clients, p.key).push(
                ClientModel {
                    key: p.key,
                    label: pairing::label_text(label),
                    paired_at: unix,
                    last_seen: Some(unix),
                },
            ),
            attempts: m.attempts.remove(source),
            pairing: None,
            ..m
        },
        Some(AuthError::PairingClosed) => IdentityModel {
            pairing: None,
            ..counted(m, source, now)
        },
        Some(_) => counted(m, source, now),
    }
}

/// The short form of a public key, for a visual comparison: its first sixteen
/// digits in upper case, in groups of four.
pub open spec fn short_form(public_key: Seq<u8>) -> Seq<char> {
    Seq::new(
        19,
        |i: int|
            if i % 5 == 4 {
                '-'
            } else {
                pairing::ascii_upper(signaling::hex_text(public_key)[i - i / 5])
            },
    )
}

impl Identity {
    /// An identity with a known secret, no pairing window and no attempt.
    pub fn new(
        secret: [u8; 32],
        clients: Vec<PairedClient>,
        attempts_per_minute: u32,
    ) -> (id: Identity)
        ensures
            id@.secret == secret@,
            id@.clients == clients_model(clients@),
            id@.pairing is None,
            id@.attempts == Map::<IpAddress, AttemptWindow>::empty(),
            id@.quota == attempts_per_minute,
    {
        Identity {
            secret,
            clients,
            pairing: None,
            attempts: AttemptTable::new(),
            attempts_per_minute,
            epoch: clock::start(),
        }
    }

    /// The identity to run with, given what is stored (`None`: there is no key
    /// yet). Where a key was made, it comes along and has to be written.
    pub fn load_or_create(
        stored_key: Option<Vec<u8>>,
        clients: Vec<PairedClient>,
        attempts_per_minute: u32,
    ) -> (r: Result<(Identity, Option<Vec<u8>>), IdentityError>)
        ensures
            match stored_key {
                Some(key) => if key@.len() == 32 {
                    r matches Ok((id, write)) && id@.secret == key@ && write is None
                } else {
                    r matches Err(e) && e == IdentityError::CorruptKey
                },
                None => exists|drawn: Result<[u8; 32], RandomUnavailable>| #[trigger]
                    created_outcome(drawn, clients@, attempts_per_minute, r),
            },
            stored_key is Some ==> (r matches Ok((id, _)) ==> is_fresh(
                id@,
                clients@,
                attempts_per_minute,
            )),
    {
        match stored_key {
            Some(key) => match signaling::array_of::<32>(key) {
                Some(secret) => Ok((Identity::new(secret, clients, attempts_per_minute), None)),
                None => Err(IdentityError::CorruptKey),
            },
            None => Identity::created(generate_signing_key(), clients, attempts_per_minute),
        }
    }

    /// The identity of an agent that had none, with the secret that was drawn for it.
    /// The secret comes along and has to be written.
    pub fn created(
        drawn: Result<[u8; 32], RandomUnavailable>,
        clients: Vec<PairedClient>,
        attempts_per_minute: u32,
    ) -> (r: Result<(Identity, Option<Vec<u8>>), IdentityError>)
        ensures
            created_outcome(drawn, clients@, attempts_per_minute, r),
    {
        match drawn {
            Ok(secret) => {
                let bytes = vstd::slice::slice_to_vec(&secret);
                let id = Identity::new(secret, clients, attempts_per_minute);
                Ok((id, Some(bytes)))
            },
            Err(_) => Err(IdentityError::NoRandom),
        }
    }

    /// The agent's public key, in hexadecimal. This is what the client pins.
    pub fn public_key_hex(&self) -> (s: String)
        ensures
            s@ == signaling::hex_text(crypto::ed25519_public_key(self@.secret)),
    {
        let key = crypto::ed25519_public(&self.secret);
        signaling::to_hex(&key)
    }

    /// Short form of the public key, to be compared by eye with what the client
    /// shows.
    pub fn fingerprint(&self) -> (s: String)
        ensures
            s@ == short_form(crypto::ed25519_public_key(self@.secret)),
    {
        let key = crypto::ed25519_public(&self.secret);
        assert(key@.len() == 32);
        let hex = text::chars_of(signaling::to_hex(&key).as_str());
        let mut out = String::new();
        let ghost expected = short_form(key@);
        let mut i: usize = 0;
        assert(out@ =~= expected.take(0));
        while i < 19
            invariant
                i <= 19,
                hex@ == signaling::hex_text(key@),
                key@.len() == 32,
                expected == short_form(key@),
                out@ == expected.take(i as int),
            decreases 19 - i,
        {
            if i % 5 == 4 {
                out.push('-');
            } else {
                out.push(pairing::to_upper(hex[i - i / 5]));
            }
            i = i + 1;
            assert(out@ =~= expected.take(i as int));
        }
        assert(expected.take(19) =~= expected);
        out
    }

    /// The clients allowed at present.
    pub fn clients(&self) -> (r: &[PairedClient])
        ensures
            clients_model(r@) == self@.clients,
    {
        self.clients.as_slice()
    }

    /// Removes a client. Tells whether it was there.
    pub fn revoke(&mut self, key_hex: &str) -> (removed: bool)
        ensures
            removed == registered(old(self)@.clients, key_hex@),
            final(self)@ == (IdentityModel {
                clients: without(old(self)@.clients, key_hex@),
                ..old(self)@
            }),
    {
        let n = self.drop_clients(key_hex);
        n != 0
    }

    fn drop_clients(&mut self, key_hex: &str) -> (n: usize)
        ensures
            n != 0 <==> registered(old(self)@.clients, key_hex@),
            final(self)@ == (IdentityModel {
                clients: without(old(self)@.clients, key_hex@),
                ..old(self)@
            }),
    {
        let before: usize = self.clients.len();
        let ghost all = clients_model(self.clients@);
        let mut i: usize = 0;
        while i < self.clients.len()
            invariant
                i <= self.clients@.len() <= before,
                before == all.len(),
                all == old(self)@.clients,
                *self == (Identity { clients: self.clients, ..*old(self) }),
                without(clients_model(self.clients@), key_hex@) == without(all, key_hex@),
                forall|k: int| 0 <= k < i ==> (#[trigger] self.clients@[k]).key@ != key_hex@,
                self.clients@.len() < before ==> registered(all, key_hex@),
                self.clients@.len() == before ==> clients_model(self.clients@) == all,
            decreases self.clients@.len() - i,
        {
            if text::same_text(self.clients[i].key.as_str(), key_hex) {
                let ghost cs = clients_model(self.clients@);
                let ghost list = self.clients@;
                proof {
                    lemma_without_remove(cs, key_hex@, i as int);
                    if list.len() == before {
                        assert(all[i as int].key == key_hex@);
                    }
                }
                self.clients.remove(i);
                assert(self.clients@ =~= list.remove(i as int));
                assert(clients_model(self.clients@) =~= cs.remove(i as int));
            } else {
                i = i + 1;
            }
        }
        proof {
            let cs = clients_model(self.clients@);
            lemma_without_none(cs, key_hex@);
            if self.clients@.len() == before {
                assert(!registered(all, key_hex@)) by {
                    assert forall|k: int| 0 <= k < all.len() implies (#[trigger] all[k]).key
                        != key_hex@ by {
                        assert(self.clients@[k]@ == all[k]);
                    }
                }
            }
        }
        before - self.clients.len()
    }

    /// Opens a pairing window for `ttl` nanoseconds and hands out the code to type
    /// on the client. Whether a code can be drawn, and which, is up to the system's
    /// generator: [`Self::open_pairing_drawn`] says what follows.
    pub fn open_pairing(&mut self, ttl: u128) -> (r: Result<String, RandomUnavailable>)
        ensures
            match r {
                Ok(code) => pairing::is_code(code@) && exists|now: u128|
                    final(self)@ == #[trigger] with_window(old(self)@, code@, now, ttl),
                Err(_) => final(self)@ == old(self)@,
            },
    {
        let drawn = pairing::generate_pairing_code();
        let now: u128 = clock::nanos_since(&self.epoch);
        self.open_pairing_drawn(drawn, ttl, now)
    }

    /// Opens a pairing window at `now` with the code that was drawn, and hands it out;
    /// where none could be drawn, a window that is open stays as it is.
    pub fn open_pairing_drawn(
        &mut self,
        drawn: Result<String, RandomUnavailable>,
        ttl: u128,
        now: u128,
    ) -> (r: Result<String, RandomUnavailable>)
        ensures
            match drawn {
                Ok(code) => r matches Ok(shown) && shown@ == code@ && final(self)@ == with_window(
                    old(self)@,
                    code@,
                    now,
                    ttl,
                ),
                Err(e) => r == Err::<String, RandomUnavailable>(e) && final(self)@ == old(self)@,
            },
    {
        match drawn {
            Ok(code) => {
                let shown = code.clone();
                self.open_pairing_at(code, ttl, now);
                Ok(shown)
            },
            Err(e) => Err(e),
        }
    }

    /// Opens a pairing window with a known code at `now`.
    pub fn open_pairing_at(&mut self, code: String, ttl: u128, now: u128)
        ensures
            final(self)@ == with_window(old(self)@, code@, now, ttl),
    {
        self.pairing = Some(PairingWindow { code, opened: now, ttl });
    }

    /// The time on this identity's clock, in nanoseconds. Nothing is claimed of it.
    pub(crate) fn clock(&self) -> u128 {
        clock::nanos_since(&self.epoch)
    }

    /// Closes the pairing window.
    pub fn close_pairing(&mut self)
        ensures
            final(self)@ == (IdentityModel { pairing: None, ..old(self)@ }),
    {
        self.pairing = None;
    }

    /// Whether a pairing window is open right now.
    pub fn pairing_open(&self) -> (b: bool)
        ensures
            exists|now: u128| b == #[trigger] pairing_is_open(self@, now),
    {
        let now: u128 = clock::nanos_since(&self.epoch);
        self.pairing_open_at(now)
    }

    /// Whether a pairing window is open at `now`.
    pub fn pairing_open_at(&self, now: u128) -> (b: bool)
        ensures
            b == pairing_is_open(self@, now),
    {
        match &self.pairing {
            None => false,
            Some(w) => clock::time_between(w.opened, now) < w.ttl,
        }
    }

    /// Signs the agent's transcript, to prove the agent's identity to the client.
    pub fn sign_agent_transcript(
        &self,
        server_nonce: &[u8],
        client_nonce: &[u8],
        client_key: &[u8],
    ) -> (s: String)
        ensures
            s@ == agent_signature(self@.secret, server_nonce@, client_nonce@, client_key@),
    {
        let transcript = signaling::agent_transcript(server_nonce, client_nonce, client_key);
        let signature = crypto::ed25519_sign(&self.secret, transcript.as_slice());
        signaling::to_hex(&signature)
    }

    /// Checks the authentication of an already paired client, now.
    pub fn authenticate(
        &mut self,
        source: IpAddress,
        client_key_hex: &str,
        server_nonce: &[u8],
        client_nonce: &[u8],
        signature_hex: &str,
    ) -> (r: Result<String, AuthError>)
        ensures
            exists|now: u128, unix: u64|
                {
                    let p = proof_of(client_key_hex@, server_nonce@, client_nonce@, signature_hex@);
                    &&& outcome(r, client_key_hex@, auth_answer(old(self)@, source, p, now))
                    &&& final(self)@ == #[trigger] auth_after(
                        old(self)@,
                        source,
                        proof_of(client_key_hex@, server_nonce@, client_nonce@, signature_hex@),
                        now,
                        unix,
                    )
                },
    {
        let now: u128 = clock::nanos_since(&self.epoch);
        let unix: u64 = clock::unix_now();
        self.authenticate_at(
            source,
            client_key_hex,
            server_nonce,
            client_nonce,
            signature_hex,
            now,
            unix,
        )
    }

    /// Checks the authentication of an already paired client, at `now`
    /// nanoseconds and `unix` seconds since the Unix epoch.
    pub fn authenticate_at(
        &mut self,
        source: IpAddress,
        client_key_hex: &str,
        server_nonce: &[u8],
        client_nonce: &[u8],
        signature_hex: &str,
        now: u128,
        unix: u64,
    ) -> (r: Result<String, AuthError>)
        ensures
            ({
                let p = proof_of(client_key_hex@, server_nonce@, client_nonce@, signature_hex@);
                &&& outcome(r, client_key_hex@, auth_answer(old(self)@, source, p, now))
                &&& final(self)@ == auth_after(old(self)@, source, p, now, unix)
            }),
    {
        if let Err(e) = self.check_rate_limit(source, now) {
            return Err(e);
        }
        let client_key = match decode_client_key(client_key_hex) {
            Ok(key) => key,
            Err(e) => {
                return Err(e);
            },
        };
        let at: usize = match self.find_client(client_key_hex) {
            Some(i) => i,
            None => {
                return Err(AuthError::Rejected);
            },
        };
        let transcript = signaling::client_auth_transcript(
            server_nonce,
            client_nonce,
            client_key.as_slice(),
        );
        if let Err(e) = verify_client_signature(
            client_key.as_slice(),
            transcript.as_slice(),
            signature_hex,
        ) {
            return Err(e);
        }
        let ghost cs = clients_model(self.clients@);
        let mut client = self.clients.remove(at);
        client.last_seen = Some(unix);
        self.clients.insert(at, client);
        proof {
            lemma_seen_at(cs, client_key_hex@, unix, at as int);
            assert(clients_model(self.clients@) =~= seen(cs, client_key_hex@, unix));
        }
        self.attempts.forget(source);
        assert(old(self)@.attempts.insert(
            source,
            attempts::next_window(attempts::window_of(old(self)@.attempts, source), now),
        ).remove(source) =~= old(self)@.attempts.remove(source));
        Ok(client_key_hex.to_owned())
    }

    /// Checks a pairing and registers the client, now.
    pub fn pair(
        &mut self,
        source: IpAddress,
        code: &str,
        client_key_hex: &str,
        label: &str,
        server_nonce: &[u8],
        client_nonce: &[u8],
        signature_hex: &str,
    ) -> (r: Result<String, AuthError>)
        ensures
            exists|now: u128, unix: u64|
                {
                    let p = proof_of(client_key_hex@, server_nonce@, client_nonce@, signature_hex@);
                    &&& outcome(r, client_key_hex@, pair_answer(old(self)@, source, code@, p, now))
                    &&& final(self)@ == #[trigger] pair_after(
                        old(self)@,
                        source,
                        code@,
                        proof_of(client_key_hex@, server_nonce@, client_nonce@, signature_hex@),
                        now,
                        unix,
                        label@,
                    )
                },
    {
        let now: u128 = clock::nanos_since(&self.epoch);
        let unix: u64 = clock::unix_now();
        self.pair_at(
            source,
            code,
            client_key_hex,
            label,
            server_nonce,
            client_nonce,
            signature_hex,
            now,
            unix,
        )
    }

    /// Checks a pairing and registers the client, at `now` nanoseconds and `unix`
    /// seconds since the Unix epoch.
    ///
    /// A code is good for one pairing only: leaving it open after a success would
    /// leave a second chance to whoever saw it.
    pub fn pair_at(
        &mut self,
        source: IpAddress,
        code: &str,
        client_key_hex: &str,
        label: &str,
        server_nonce: &[u8],
        client_nonce: &[u8],
        signature_hex: &str,
        now: u128,
        unix: u64,
    ) -> (r: Result<String, AuthError>)
        ensures
            ({
                let p = proof_of(client_key_hex@, server_nonce@, client_nonce@, signature_hex@);
                &&& outcome(r, client_key_hex@, pair_answer(old(self)@, source, code@, p, now))
                &&& final(self)@ == pair_after(
                    old(self)@,
                    source,
                    code@,
                    p,
                    now,
                    unix,
                    label@,
                )
            }),
    {
        let name = pairing::sanitize_label(label);
        let ghost p = proof_of(client_key_hex@, server_nonce@, client_nonce@, signature_hex@);
        let ghost before = self@;
        let ghost after = pair_after(before, source, code@, p, now, unix, label@);
        if let Err(e) = self.check_rate_limit(source, now) {
            assert(self@ == after);
            return Err(e);
        }
        let open = self.pairing_open_at(now);
        if !open {
            self.pairing = None;
            assert(self@ == after);
            return Err(AuthError::PairingClosed);
        }
        let right_code = match &self.pairing {
            Some(w) => pairing::codes_match(w.code.as_str(), code),
            None => false,
        };
        if !right_code {
            assert(self@ == after);
            return Err(AuthError::Rejected);
        }
        let client_key = match decode_client_key(client_key_hex) {
            Ok(key) => key,
            Err(e) => {
                assert(self@ == after);
                return Err(e);
            },
        };
        let transcript = signaling::client_pair_transcript(
            server_nonce,
            client_nonce,
            client_key.as_slice(),
        );
        if let Err(e) = verify_client_signature(
            client_key.as_slice(),
            transcript.as_slice(),
            signature_hex,
        ) {
            assert(self@ == after);
            return Err(e);
        }
        self.pairing = None;
        self.attempts.forget(source);
        assert(self@.attempts =~= before.attempts.remove(source));
        self.drop_clients(client_key_hex);
        let ghost kept = self.clients@;
        self.clients.push(
            PairedClient {
                key: client_key_hex.to_owned(),
                label: name,
                paired_at: unix,
                last_seen: Some(unix),
            },
        );
        proof {
            assert(clients_model(self.clients@) =~= clients_model(kept).push(
                self.clients@.last()@,
            ));
            assert(self@ == after);
        }
        Ok(client_key_hex.to_owned())
    }

    /// Counts the attempts of a source and refuses those beyond the quota.
    fn check_rate_limit(&mut self, source: IpAddress, now: u128) -> (r: Result<(), AuthError>)
        ensures
            *final(self) == (Identity { attempts: final(self).attempts, ..*old(self) }),
            final(self)@ == counted(old(self)@, source, now),
            r == if over_quota(old(self)@, source, now) {
                Err::<(), AuthError>(AuthError::RateLimited)
            } else {
                Ok(())
            },
    {
        let n: u32 = self.attempts.count(source, now);
        if n > self.attempts_per_minute {
            return Err(AuthError::RateLimited);
        }
        Ok(())
    }

    /// Where the first client with this key stands.
    fn find_client(&self, key_hex: &str) -> (r: Option<usize>)
        ensures
            match r {
                Some(i) => {
                    &&& i < self.clients@.len()
                    &&& self.clients@[i as int].key@ == key_hex@
                    &&& registered(self@.clients, key_hex@)
                    &&& forall|k: int|
                        0 <= k < i ==> (#[trigger] self.clients@[k]).key@ != key_hex@
                },
                None => !registered(self@.clients, key_hex@),
            },
    {
        let mut i: usize = 0;
        while i < self.clients.len()
            invariant
                i <= self.clients@.len(),
                forall|k: int| 0 <= k < i ==> (#[trigger] self.clients@[k]).key@ != key_hex@,
            decreases self.clients@.len() - i,
        {
            if text::same_text(self.clients[i].key.as_str(), key_hex) {
                assert(self@.clients[i as int].key == key_hex@);
                return Some(i);
            }
            i = i + 1;
        }
        assert forall|k: int| 0 <= k < self@.clients.len() implies (#[trigger] self@.clients[k]).key
            != key_hex@ by {
            assert(self.clients@[k]@ == self@.clients[k]);
        }
        None
    }
}

/// An identity with an open pairing window.
pub open spec fn with_window(
    m: IdentityModel,
    code: Seq<char>,
    opened: u128,
    ttl: u128,
) -> IdentityModel {
    IdentityModel { pairing: Some(PairingModel { code, opened, ttl }), ..m }
}

/// Whether a handshake's result is the one that `answer` calls for: the client's
/// key, or the error.
pub open spec fn outcome(
    r: Result<String, AuthError>,
    key: Seq<char>,
    answer: Option<AuthError>,
) -> bool {
    match answer {
        None => r matches Ok(s) && s@ == key,
        Some(e) => r matches Err(x) && x == e,
    }
}

/// Decodes a client's public key to its binary form.
fn decode_client_key(hex: &str) -> (r: Result<Vec<u8>, AuthError>)
    ensures
        match r {
            Ok(key) => valid_key(hex@) && key@ == signaling::hex_bytes(hex@),
            Err(e) => !valid_key(hex@) && e == AuthError::Rejected,
        },
{
    match signaling::from_hex(hex) {
        None => Err(AuthError::Rejected),
        Some(key) => {
            if crypto::p256_key_ok(key.as_slice()) {
                Ok(key)
            } else {
                Err(AuthError::Rejected)
            }
        },
    }
}

/// Checks an ECDSA P-256 signature in the raw form `r || s`.
///
/// This is what browsers make; DER is never accepted, so as not to open the door
/// to ambiguous encodings.
fn verify_client_signature(
    key: &[u8],
    transcript: &[u8],
    signature_hex: &str,
) -> (r: Result<(), AuthError>)
    ensures
        r == if signaling::is_hex_text(signature_hex@) && signature_hex@.len() == 128
            && crypto::p256_verifies(key@, transcript@, signaling::hex_bytes(signature_hex@)) {
            Ok::<(), AuthError>(())
        } else {
            Err(AuthError::Rejected)
        },
{
    match signaling::from_hex(signature_hex) {
        None => Err(AuthError::Rejected),
        Some(signature) => {
            if signature.len() != 64 {
                return Err(AuthError::Rejected);
            }
            if crypto::p256_verify(key, transcript, signature.as_slice()) {
                Ok(())
            } else {
                Err(AuthError::Rejected)
            }
        },
    }
}

/// Draws an Ed25519 secret from the system's generator. Whether there is one, and which,
/// is up to the generator: what a draw makes is said by [`pairing::random_array`].
fn generate_signing_key() -> (r: Result<[u8; 32], RandomUnavailable>)
    ensures
        exists|drawn: Option<Seq<u8>>| #[trigger]
            pairing::array_outcome(drawn, r) && (drawn matches Some(bytes) ==> bytes.len() == 32),
{
    let mut source = Generator::new();
    let r = pairing::random_array(&mut source);
    assert(pairing::array_outcome(source.given().last(), r));
    r
}

/// Dropping a client with the key changes nothing to the clients without it.
proof fn lemma_without_remove(cs: Seq<ClientModel>, key: Seq<char>, i: int)
    requires
        0 <= i < cs.len(),
        cs[i].key == key,
    ensures
        without(cs.remove(i), key) == without(cs, key),
    decreases cs.len(),
{
    if i == cs.len() - 1 {
        assert(cs.remove(i) =~= cs.drop_last());
    } else {
        lemma_without_remove(cs.drop_last(), key, i);
        assert(cs.remove(i).drop_last() =~= cs.drop_last().remove(i));
        assert(cs.remove(i).last() == cs.last());
    }
}

/// Where no client has the key, there is nothing to drop.
proof fn lemma_without_none(cs: Seq<ClientModel>, key: Seq<char>)
    requires
        forall|k: int| 0 <= k < cs.len() ==> (#[trigger] cs[k]).key != key,
    ensures
        without(cs, key) == cs,
    decreases cs.len(),
{
    if cs.len() > 0 {
        lemma_without_none(cs.drop_last(), key);
        assert(cs.drop_last().push(cs.last()) =~= cs);
    }
}

/// Dropping the clients with a key leaves none of them, and all the others.
proof fn lemma_without(cs: Seq<ClientModel>, key: Seq<char>, other: Seq<char>)
    ensures
        registered(without(cs, key), other) <==> other != key && registered(cs, other),
    decreases cs.len(),
{
    if cs.len() > 0 {
        let prev = cs.drop_last();
        let rest = without(prev, key);
        let all = without(cs, key);
        lemma_without(prev, key, other);
        if other != key && registered(cs, other) {
            let i = choose|i: int| 0 <= i < cs.len() && (#[trigger] cs[i]).key == other;
            if i < prev.len() {
                assert(prev[i].key == other);
                let j = choose|j: int| 0 <= j < rest.len() && (#[trigger] rest[j]).key == other;
                assert(all[j].key == other);
            } else {
                assert(all.last().key == other);
            }
        }
        if registered(all, other) {
            let i = choose|i: int| 0 <= i < all.len() && (#[trigger] all[i]).key == other;
            if i < rest.len() {
                assert(rest[i].key == other);
                let j = choose|j: int| 0 <= j < prev.len() && (#[trigger] prev[j]).key == other;
                assert(cs[j].key == other);
            } else {
                assert(cs.last().key == other);
            }
        }
    }
}

/// Marking the first client with a key changes that client only.
proof fn lemma_seen_at(cs: Seq<ClientModel>, key: Seq<char>, at: u64, i: int)
    requires
        0 <= i < cs.len(),
        cs[i].key == key,
        forall|k: int| 0 <= k < i ==> (#[trigger] cs[k]).key != key,
    ensures
        seen(cs, key, at) == cs.update(i, ClientModel { last_seen: Some(at), ..cs[i] }),
    decreases i,
{
    if i > 0 {
        let rest = cs.drop_first();
        assert forall|k: int| 0 <= k < i - 1 implies (#[trigger] rest[k]).key != key by {
            assert(cs[k + 1].key != key);
        }
        lemma_seen_at(rest, key, at, i - 1);
    }
    assert(seen(cs, key, at) =~= cs.update(i, ClientModel { last_seen: Some(at), ..cs[i] }));
}

/// Marking a client changes nobody's right to be there.
proof fn lemma_seen_registered(cs: Seq<ClientModel>, key: Seq<char>, at: u64, other: Seq<char>)
    ensures
        seen(cs, key, at).len() == cs.len(),
        forall|i: int|
            0 <= i < cs.len() ==> (#[trigger] seen(cs, key, at)[i]).key == cs[i].key,
        registered(seen(cs, key, at), other) <==> registered(cs, other),
    decreases cs.len(),
{
    let s = seen(cs, key, at);
    if cs.len() > 0 && cs[0].key != key {
        let rest = cs.drop_first();
        lemma_seen_registered(rest, key, at, other);
        assert forall|i: int| 0 <= i < cs.len() implies (#[trigger] s[i]).key == cs[i].key by {
            if i > 0 {
                assert(s[i] == seen(rest, key, at)[i - 1]);
                assert(rest[i - 1] == cs[i]);
            }
        }
    } else if cs.len() > 0 {
        assert forall|i: int| 0 <= i < cs.len() implies (#[trigger] s[i]).key == cs[i].key by {
            if i > 0 {
                assert(s[i] == cs.drop_first()[i - 1]);
            }
        }
    }
    if registered(cs, other) {
        let i = choose|i: int| 0 <= i < cs.len() && (#[trigger] cs[i]).key == other;
        assert(s[i].key == other);
    }
    if registered(s, other) {
        let i = choose|i: int| 0 <= i < s.len() && (#[trigger] s[i]).key == other;
        assert(cs[i].key == other);
    }
}

/// Only a registered client that signed this very handshake is let in; whoever
/// knows neither gets an error, and nothing is registered.
pub proof fn law_authentication_needs_key_and_signature(
    m: IdentityModel,
    source: IpAddress,
    p: Proof,
    now: u128,
)
    requires
        auth_answer(m, source, p, now) is None,
    ensures
        registered(m.clients, p.key),
        proves(p, signaling::Domain::ClientAuth),
{
}

/// What a client's signature has to be made on pins down the use, both nonces and
/// the key: if the bytes that two handshakes ask to be signed are the same, they
/// are the same handshake. So a signature captured elsewhere, or made to be paired,
/// does not open a session.
pub proof fn law_a_signature_serves_one_handshake(
    p: Proof,
    d: signaling::Domain,
    q: Proof,
    e: signaling::Domain,
)
    requires
        p.server_nonce.len() < 0x1_0000_0000,
        p.client_nonce.len() < 0x1_0000_0000,
        p.key.len() < 0x1_0000_0000,
        q.server_nonce.len() < 0x1_0000_0000,
        q.client_nonce.len() < 0x1_0000_0000,
        q.key.len() < 0x1_0000_0000,
        d != e || p.server_nonce != q.server_nonce || p.client_nonce != q.client_nonce
            || signaling::hex_bytes(p.key) != signaling::hex_bytes(q.key),
    ensures
        signaling::transcript_bytes(
            d,
            p.server_nonce,
            p.client_nonce,
            signaling::hex_bytes(p.key),
        ) != signaling::transcript_bytes(
            e,
            q.server_nonce,
            q.client_nonce,
            signaling::hex_bytes(q.key),
        ),
{
    let a = signaling::transcript_bytes(
        d,
        p.server_nonce,
        p.client_nonce,
        signaling::hex_bytes(p.key),
    );
    let b = signaling::transcript_bytes(
        e,
        q.server_nonce,
        q.client_nonce,
        signaling::hex_bytes(q.key),
    );
    if a == b {
        signaling::law_transcript_is_unambiguous(
            d,
            p.server_nonce,
            p.client_nonce,
            signaling::hex_bytes(p.key),
            e,
            q.server_nonce,
            q.client_nonce,
            signaling::hex_bytes(q.key),
        );
    }
}

/// A code serves once: after a successful pairing the window is closed, and the
/// next client is told so whatever code it gives and whatever it signs, unless it
/// is beyond its quota.
pub proof fn law_a_code_serves_once(
    m: IdentityModel,
    source: IpAddress,
    code: Seq<char>,
    p: Proof,
    now: u128,
    unix: u64,
    label: Seq<char>,
    source2: IpAddress,
    code2: Seq<char>,
    p2: Proof,
    now2: u128,
)
    requires
        pair_answer(m, source, code, p, now) is None,
    ensures
        ({
            let after = pair_after(m, source, code, p, now, unix, label);
            pair_answer(after, source2, code2, p2, now2) == Some(
                if over_quota(after, source2, now2) {
                    AuthError::RateLimited
                } else {
                    AuthError::PairingClosed
                },
            )
        }),
{
}

/// A client that was paired is registered, and one that was refused is not: a
/// refused pairing registers nobody and drops nobody.
pub proof fn law_pairing_registers_its_client_only(
    m: IdentityModel,
    source: IpAddress,
    code: Seq<char>,
    p: Proof,
    now: u128,
    unix: u64,
    label: Seq<char>,
    other: Seq<char>,
)
    ensures
        ({
            let after = pair_after(m, source, code, p, now, unix, label);
            if pair_answer(m, source, code, p, now) is None {
                registered(after.clients, other) <==> other == p.key || registered(
                    m.clients,
                    other,
                )
            } else {
                after.clients == m.clients
            }
        }),
{
    if pair_answer(m, source, code, p, now) is None {
        let rest = without(m.clients, p.key);
        let all = pair_after(m, source, code, p, now, unix, label).clients;
        lemma_without(m.clients, p.key, other);
        assert(all.last().key == p.key);
        if registered(all, other) {
            let i = choose|i: int| 0 <= i < all.len() && (#[trigger] all[i]).key == other;
            if i < rest.len() {
                assert(rest[i].key == other);
            }
        }
        if registered(rest, other) {
            let i = choose|i: int| 0 <= i < rest.len() && (#[trigger] rest[i]).key == other;
            assert(all[i].key == other);
        }
    }
}

/// Once a client is paired, it can authenticate; and authenticating drops nobody.
pub proof fn law_pairing_opens_the_door(
    m: IdentityModel,
    source: IpAddress,
    code: Seq<char>,
    p: Proof,
    now: u128,
    unix: u64,
    label: Seq<char>,
    q: Proof,
    later: u128,
)
    requires
        pair_answer(m, source, code, p, now) is None,
        q.key == p.key,
        proves(q, signaling::Domain::ClientAuth),
        m.quota > 0,
    ensures
        auth_answer(pair_after(m, source, code, p, now, unix, label), source, q, later) is None,
{
    law_pairing_registers_its_client_only(m, source, code, p, now, unix, label, p.key);
}

/// Revoking a client takes its access away, whatever it signs, and leaves every
/// other client's as it was.
pub proof fn law_revocation_removes_access(
    m: IdentityModel,
    key: Seq<char>,
    source: IpAddress,
    p: Proof,
    now: u128,
)
    ensures
        ({
            let after = IdentityModel { clients: without(m.clients, key), ..m };
            if p.key == key {
                auth_answer(after, source, p, now) is Some
            } else {
                auth_answer(after, source, p, now) == auth_answer(m, source, p, now)
            }
        }),
{
    lemma_without(m.clients, key, p.key);
}

/// Authenticating, whatever comes of it, leaves the set of clients as it was.
pub proof fn law_authentication_registers_nobody(
    m: IdentityModel,
    source: IpAddress,
    p: Proof,
    now: u128,
    unix: u64,
    other: Seq<char>,
)
    ensures
        registered(auth_after(m, source, p, now, unix).clients, other) <==> registered(
            m.clients,
            other,
        ),
        auth_after(m, source, p, now, unix).pairing == m.pairing,
{
    lemma_seen_registered(m.clients, p.key, unix, other);
}

/// A window that was opened is over once its time has passed: the right code given
/// then comes to a closed window, unless its source is beyond its quota.
pub proof fn law_expired_window_is_closed(
    m: IdentityModel,
    code: Seq<char>,
    opened: u128,
    ttl: u128,
    source: IpAddress,
    p: Proof,
    now: u128,
)
    requires
        now >= opened + ttl,
    ensures
        !pairing_is_open(with_window(m, code, opened, ttl), now),
        pair_answer(with_window(m, code, opened, ttl), source, code, p, now) == Some(
            if over_quota(m, source, now) {
                AuthError::RateLimited
            } else {
                AuthError::PairingClosed
            },
        ),
{
}

/// The register after refused attempts of one source at the given times.
pub open spec fn hammered(m: IdentityModel, source: IpAddress, times: Seq<u128>) -> IdentityModel
    decreases times.len(),
{
    if times.len() == 0 {
        m
    } else {
        counted(hammered(m, source, times.drop_last()), source, times.last())
    }
}

/// Brute force is limited: once a source has made as many attempts as its quota
/// allows within one window, the next one within it is refused without being
/// looked at, and none before is.
pub proof fn law_brute_force_is_limited(
    m: IdentityModel,
    source: IpAddress,
    times: Seq<u128>,
    now: u128,
)
    requires
        !m.attempts.contains_key(source),
        times.len() < u32::MAX,
        forall|i: int|
            0 <= i < times.len() ==> clock::elapsed(times[0], #[trigger] times[i])
                < attempts::ATTEMPT_WINDOW,
        times.len() > 0 ==> clock::elapsed(times[0], now) < attempts::ATTEMPT_WINDOW,
    ensures
        over_quota(hammered(m, source, times), source, now) <==> times.len() >= m.quota,
{
    lemma_hammered(m, source, times);
}

proof fn lemma_hammered(m: IdentityModel, source: IpAddress, times: Seq<u128>)
    requires
        !m.attempts.contains_key(source),
        times.len() < u32::MAX,
        forall|i: int|
            0 <= i < times.len() ==> clock::elapsed(times[0], #[trigger] times[i])
                < attempts::ATTEMPT_WINDOW,
    ensures
        hammered(m, source, times).quota == m.quota,
        times.len() == 0 ==> !hammered(m, source, times).attempts.contains_key(source),
        times.len() > 0 ==> attempts::window_of(hammered(m, source, times).attempts, source)
            == Some(AttemptWindow { start: times[0], count: times.len() as u32 }),
    decreases times.len(),
{
    if times.len() > 0 {
        let prev = times.drop_last();
        assert forall|i: int| 0 <= i < prev.len() implies clock::elapsed(
            prev[0],
            #[trigger] prev[i],
        ) < attempts::ATTEMPT_WINDOW by {
            assert(prev[i] == times[i]);
        }
        lemma_hammered(m, source, prev);
    }
}

/// The attempts of one source are never charged to another.
pub proof fn law_sources_are_counted_apart(
    m: IdentityModel,
    source: IpAddress,
    other: IpAddress,
    now: u128,
    later: u128,
)
    requires
        source != other,
    ensures
        over_quota(counted(m, source, now), other, later) == over_quota(m, other, later),
{
}

/// Who is let in: whoever is within its quota, has a key that is registered and a point of
/// the curve, and signed, with that key and in 64 bytes, the transcript of this handshake
/// made for authentication. All of that is enough, and nothing less is. Beyond the quota the
/// answer is that there were too many attempts, whatever the rest; else, that the client is
/// rejected, whichever part is wrong.
pub proof fn law_a_paired_client_that_signs_is_let_in(
    m: IdentityModel,
    source: IpAddress,
    p: Proof,
    now: u128,
)
    ensures
        ({
            let known = exists|i: int|
                0 <= i < m.clients.len() && (#[trigger] m.clients[i]).key == p.key;
            let signed = {
                &&& signaling::is_hex_text(p.key)
                &&& crypto::p256_key_is_valid(signaling::hex_bytes(p.key))
                &&& signaling::is_hex_text(p.signature)
                &&& p.signature.len() == 128
                &&& crypto::p256_verifies(
                    signaling::hex_bytes(p.key),
                    signaling::transcript_bytes(
                        signaling::Domain::ClientAuth,
                        p.server_nonce,
                        p.client_nonce,
                        signaling::hex_bytes(p.key),
                    ),
                    signaling::hex_bytes(p.signature),
                )
            };
            let over = over_quota(m, source, now);
            &&& auth_answer(m, source, p, now) is None <==> !over && known && signed
            &&& auth_answer(m, source, p, now) == Some(AuthError::RateLimited) <==> over
            &&& auth_answer(m, source, p, now) == Some(AuthError::Rejected) <==> !over && !(known
                && signed)
        }),
{
}

/// Authentication goes by the clients, the attempts and the quota alone: whether a pairing
/// window is open, with what code and since when, plays no part in it, and neither does the
/// agent's secret.
pub proof fn law_a_pairing_window_bars_nobody(
    m: IdentityModel,
    other: IdentityModel,
    source: IpAddress,
    p: Proof,
    now: u128,
    unix: u64,
)
    requires
        other.clients == m.clients,
        other.attempts == m.attempts,
        other.quota == m.quota,
    ensures
        auth_answer(other, source, p, now) == auth_answer(m, source, p, now),
        auth_after(other, source, p, now, unix).clients == auth_after(
            m,
            source,
            p,
            now,
            unix,
        ).clients,
        auth_after(other, source, p, now, unix).attempts == auth_after(
            m,
            source,
            p,
            now,
            unix,
        ).attempts,
        auth_after(other, source, p, now, unix).pairing == other.pairing,
        auth_after(other, source, p, now, unix).secret == other.secret,
        auth_after(other, source, p, now, unix).quota == other.quota,
{
}

/// What an authentication leaves behind. A client that is let in is marked as seen at that
/// time, nothing else of it changes, and nobody else's entry does; the attempts of its
/// source are forgotten. One that is refused changes no entry, and its source has made one
/// attempt more. The attempts of every other source stay.
pub proof fn law_authentication_marks_its_client(
    m: IdentityModel,
    source: IpAddress,
    p: Proof,
    now: u128,
    unix: u64,
    i: int,
    other: IpAddress,
)
    requires
        0 <= i < m.clients.len(),
        other != source,
    ensures
        ({
            let after = auth_after(m, source, p, now, unix);
            let first = m.clients[i].key == p.key && forall|k: int|
                0 <= k < i ==> (#[trigger] m.clients[k]).key != p.key;
            &&& after.clients.len() == m.clients.len()
            &&& after.clients[i].key == m.clients[i].key
            &&& after.clients[i].label == m.clients[i].label
            &&& after.clients[i].paired_at == m.clients[i].paired_at
            &&& after.clients[i].last_seen == (if auth_answer(m, source, p, now) is None && first {
                Some(unix)
            } else {
                m.clients[i].last_seen
            })
            &&& auth_answer(m, source, p, now) is None ==> !after.attempts.contains_key(source)
            &&& auth_answer(m, source, p, now) is Some ==> after.attempts.contains_key(source)
            &&& after.attempts.contains_key(other) <==> m.attempts.contains_key(other)
            &&& m.attempts.contains_key(other) ==> after.attempts[other] == m.attempts[other]
        }),
{
    if auth_answer(m, source, p, now) is None {
        let j = lemma_first_with_key(m.clients, p.key);
        lemma_seen_at(m.clients, p.key, unix, j);
        if i < j {
            assert(m.clients[i].key != p.key);
        } else if i > j {
            assert(m.clients[j].key == p.key);
        }
    }
}

/// Where the first client with a key stands, if there is one.
proof fn lemma_first_with_key(cs: Seq<ClientModel>, key: Seq<char>) -> (i: int)
    requires
        registered(cs, key),
    ensures
        0 <= i < cs.len(),
        cs[i].key == key,
        forall|k: int| 0 <= k < i ==> (#[trigger] cs[k]).key != key,
    decreases cs.len(),
{
    let prev = cs.drop_last();
    if registered(prev, key) {
        let i = lemma_first_with_key(prev, key);
        assert(prev[i] == cs[i]);
        assert forall|k: int| 0 <= k < i implies (#[trigger] cs[k]).key != key by {
            assert(prev[k] == cs[k]);
        }
        i
    } else {
        let i = choose|i: int| 0 <= i < cs.len() && (#[trigger] cs[i]).key == key;
        if i < prev.len() {
            assert(prev[i].key == key);
        }
        assert forall|k: int| 0 <= k < cs.len() - 1 implies (#[trigger] cs[k]).key != key by {
            assert(prev[k] == cs[k]);
        }
        cs.len() - 1
    }
}

/// Who is beyond its quota: a source without attempts, or whose minute is over, makes its
/// first one; within its minute, one more than it has made. It is beyond when that exceeds
/// the quota. A minute is sixty seconds from the first attempt.
pub proof fn law_the_quota_is_per_minute(m: IdentityModel, source: IpAddress, now: u128)
    ensures
        ({
            let running = m.attempts.contains_key(source) && now - m.attempts[source].start
                < 60_000_000_000;
            let made = if running {
                m.attempts[source].count as int
            } else {
                0
            };
            &&& made < u32::MAX ==> (over_quota(m, source, now) <==> made + 1 > m.quota)
            &&& made == u32::MAX ==> (over_quota(m, source, now) <==> m.quota < u32::MAX)
            &&& counted(m, source, now).attempts.contains_key(source)
            &&& counted(m, source, now).attempts[source].start == (if running {
                m.attempts[source].start
            } else {
                now
            })
            &&& made < u32::MAX ==> counted(m, source, now).attempts[source].count == made + 1
            &&& counted(m, source, now).clients == m.clients
            &&& counted(m, source, now).pairing == m.pairing
            &&& counted(m, source, now).secret == m.secret
            &&& counted(m, source, now).quota == m.quota
        }),
{
}

/// Who is paired: whoever is within its quota, while a window is open, gives its code and
/// signed, with a key of the curve and in 64 bytes, the transcript of this handshake made
/// for pairing. All of that is enough, and nothing less is. The answer tells too many
/// attempts from a closed window, and both from everything else.
pub proof fn law_the_code_and_a_signature_pair_a_client(
    m: IdentityModel,
    source: IpAddress,
    code: Seq<char>,
    p: Proof,
    now: u128,
)
    ensures
        ({
            let open = m.pairing matches Some(w) && w.ttl > 0 && now < w.opened + w.ttl;
            let signed = {
                &&& signaling::is_hex_text(p.key)
                &&& crypto::p256_key_is_valid(signaling::hex_bytes(p.key))
                &&& signaling::is_hex_text(p.signature)
                &&& p.signature.len() == 128
                &&& crypto::p256_verifies(
                    signaling::hex_bytes(p.key),
                    signaling::transcript_bytes(
                        signaling::Domain::ClientPair,
                        p.server_nonce,
                        p.client_nonce,
                        signaling::hex_bytes(p.key),
                    ),
                    signaling::hex_bytes(p.signature),
                )
            };
            let right = pairing::normal_code(m.pairing->0.code) == pairing::normal_code(code);
            let over = over_quota(m, source, now);
            &&& pairing_is_open(m, now) <==> open
            &&& pair_answer(m, source, code, p, now) is None <==> !over && open && right && signed
            &&& pair_answer(m, source, code, p, now) == Some(AuthError::RateLimited) <==> over
            &&& pair_answer(m, source, code, p, now) == Some(AuthError::PairingClosed) <==> !over
                && !open
            &&& pair_answer(m, source, code, p, now) == Some(AuthError::Rejected) <==> !over
                && open && !(right && signed)
        }),
{
}

/// Pairing has nothing to do with who is registered: the answer is the same for an agent
/// with other clients and another secret.
pub proof fn law_pairing_goes_by_the_window_alone(
    m: IdentityModel,
    other: IdentityModel,
    source: IpAddress,
    code: Seq<char>,
    p: Proof,
    now: u128,
)
    requires
        other.pairing == m.pairing,
        other.attempts == m.attempts,
        other.quota == m.quota,
    ensures
        pair_answer(other, source, code, p, now) == pair_answer(m, source, code, p, now),
{
}

/// What a pairing leaves behind. A client that is paired stands last among the clients, with
/// its key, its name and the time, and in no other place; the others stay, in their order;
/// the window is closed and the attempts of the source are forgotten. A refusal changes no
/// client, counts one attempt, and leaves the window as it is, unless it was over: then it
/// goes.
pub proof fn law_pairing_adds_its_client_last(
    m: IdentityModel,
    source: IpAddress,
    code: Seq<char>,
    p: Proof,
    now: u128,
    unix: u64,
    label: Seq<char>,
)
    ensures
        ({
            let after = pair_after(m, source, code, p, now, unix, label);
            let answer = pair_answer(m, source, code, p, now);
            &&& answer is None ==> {
                &&& after.clients.len() > 0
                &&& after.clients.last().key == p.key
                &&& after.clients.last().label == pairing::label_text(label)
                &&& after.clients.last().paired_at == unix
                &&& after.clients.last().last_seen == Some(unix)
                &&& after.clients.drop_last() == m.clients.filter(|c: ClientModel| c.key != p.key)
                &&& after.pairing is None
                &&& after.attempts == m.attempts.remove(source)
            }
            &&& answer is Some ==> after.clients == m.clients && after.attempts == counted(
                m,
                source,
                now,
            ).attempts
            &&& answer == Some(AuthError::PairingClosed) ==> after.pairing is None
            &&& answer is Some && answer != Some(AuthError::PairingClosed) ==> after.pairing
                == m.pairing
            &&& after.secret == m.secret && after.quota == m.quota
        }),
{
    law_a_revocation_drops_one_key(m.clients, p.key);
    let after = pair_after(m, source, code, p, now, unix, label);
    if pair_answer(m, source, code, p, now) is None {
        assert(after.clients.drop_last() =~= without(m.clients, p.key));
    }
}

/// A revocation drops the clients with that key, all of them, and keeps the others in their
/// order.
pub proof fn law_a_revocation_drops_one_key(cs: Seq<ClientModel>, key: Seq<char>)
    ensures
        without(cs, key) == cs.filter(|c: ClientModel| c.key != key),
    decreases cs.len(),
{
    reveal(Seq::filter);
    if cs.len() > 0 {
        law_a_revocation_drops_one_key(cs.drop_last(), key);
    }
}

/// A window that was just opened is open, unless it lasts no time at all, and takes the place
/// of the one before; nothing else changes.
pub proof fn law_a_window_opens_at_once(m: IdentityModel, code: Seq<char>, opened: u128, ttl: u128)
    ensures
        pairing_is_open(with_window(m, code, opened, ttl), opened) <==> ttl > 0,
        with_window(m, code, opened, ttl).pairing == Some(PairingModel { code, opened, ttl }),
        with_window(m, code, opened, ttl).clients == m.clients,
        with_window(m, code, opened, ttl).attempts == m.attempts,
        with_window(m, code, opened, ttl).secret == m.secret,
        with_window(m, code, opened, ttl).quota == m.quota,
{
}

/// A fresh identity lets in whom it was given, and pairs nobody: there is no window. Nobody
/// has made an attempt, so that the first one is looked at wherever the quota is not zero.
pub proof fn law_a_fresh_identity_knows_its_clients(
    m: IdentityModel,
    clients: Seq<PairedClient>,
    quota: u32,
    source: IpAddress,
    code: Seq<char>,
    p: Proof,
    now: u128,
    i: int,
)
    requires
        is_fresh(m, clients, quota),
        quota > 0,
        0 <= i < clients.len(),
    ensures
        m.clients.len() == clients.len(),
        m.clients[i] == clients[i]@,
        !over_quota(m, source, now),
        pair_answer(m, source, code, p, now) == Some(AuthError::PairingClosed),
        p.key == clients[i].key@ && proves(p, signaling::Domain::ClientAuth) ==> auth_answer(
            m,
            source,
            p,
            now,
        ) is None,
{
    assert(m.clients[i].key == clients[i].key@);
}

/// The short form shows the first eight bytes of the key: sixteen digits, in upper case, in
/// four groups of four with a dash between.
pub proof fn law_the_short_form_shows_the_key(public_key: Seq<u8>, j: int)
    requires
        public_key.len() >= 8,
        0 <= j < 16,
    ensures
        short_form(public_key).len() == 19,
        short_form(public_key)[4] == '-',
        short_form(public_key)[9] == '-',
        short_form(public_key)[14] == '-',
        ({
            let c = short_form(public_key)[j + j / 4] as int;
            let half = if j % 2 == 0 {
                public_key[j / 2] as int / 16
            } else {
                public_key[j / 2] as int % 16
            };
            c == (if half < 10 {
                48 + half
            } else {
                55 + half
            })
        }),
{
    let i = j + j / 4;
    assert(i % 5 != 4 && i - i / 5 == j);
    assert(signaling::hex_text(public_key)[j] == signaling::hex_digit(
        if j % 2 == 0 {
            public_key[j / 2] as int / 16
        } else {
            public_key[j / 2] as int % 16
        },
    ));
}

/// The agent proves itself by a signature, under its own secret, of the transcript of this
/// handshake made for the agent: the same nonces and the same key as the client's, under a
/// name that no client ever signs. So no signature of a client can pass for the agent's.
pub proof fn law_the_agent_signs_this_handshake(
    secret: Seq<u8>,
    p: Proof,
    d: signaling::Domain,
)
    requires
        d is ClientAuth || d is ClientPair,
    ensures
        ({
            let key = signaling::hex_bytes(p.key);
            let mine = signaling::transcript_bytes(
                signaling::Domain::Agent,
                p.server_nonce,
                p.client_nonce,
                key,
            );
            let theirs = signaling::transcript_bytes(d, p.server_nonce, p.client_nonce, key);
            &&& agent_signature(secret, p.server_nonce, p.client_nonce, key)
                == signaling::hex_text(crypto::ed25519_signature(secret, mine))
            &&& mine != theirs
        }),
{
    let key = signaling::hex_bytes(p.key);
    signaling::law_transcripts_are_domain_separated(
        signaling::Domain::Agent,
        p.server_nonce,
        p.client_nonce,
        key,
        d,
        p.server_nonce,
        p.client_nonce,
        key,
    );
}

/// A client is told what was decided: its own key where nothing stands against it, and
/// otherwise the very reason.
pub proof fn law_the_answer_is_what_was_decided(
    r: Result<String, AuthError>,
    key: Seq<char>,
    answer: Option<AuthError>,
)
    requires
        outcome(r, key, answer),
    ensures
        r is Ok <==> answer is None,
        r matches Ok(told) ==> told@ == key,
        r matches Err(e) ==> answer == Some(e),
{
}

/// An identity is made exactly where the generator gave a secret. The secret is the one that
/// was given, and the bytes to write are the same. Without a generator nothing is made.
pub proof fn law_an_identity_is_made_of_what_was_drawn(
    drawn: Result<[u8; 32], RandomUnavailable>,
    clients: Seq<PairedClient>,
    quota: u32,
    r: Result<(Identity, Option<Vec<u8>>), IdentityError>,
)
    requires
        created_outcome(drawn, clients, quota, r),
    ensures
        r is Ok <==> drawn is Ok,
        r matches Err(e) ==> e is NoRandom,
        r matches Ok((id, key)) ==> key is Some && key->0@ == id@.secret && drawn->Ok_0@
            == id@.secret,
{
}

} // verus!
