//! Signalling: mutual authentication, then the exchange of SDP and ICE.
//!
//! Neither the tunnel nor the transport's TLS is deemed enough: signalling
//! carries a mutual authentication of its own, so that an attacker who already
//! sits on the private network can neither open a session nor pass for the agent.
//!
//! ```text
//! agent  --> Challenge      { protocol, server_nonce, agent_key }
//! client --> Authenticate   { client_key, client_nonce, signature }   (already paired)
//!        or  Pair           { code, client_key, client_nonce, signature }
//! agent  --> AuthOk         { agent_signature, session_id }
//! client --> Offer / Candidate ...
//! agent  --> Answer / Candidate ...
//! ```
//!
//! The client signs with ECDSA P-256 and the agent with Ed25519. Both signatures
//! are made on a transcript that holds both nonces and the client's public key:
//! a captured signature is worth nothing in another session or for another
//! identity.

use crate::proto::bytes;
use crate::text;
use vstd::prelude::*;
use vstd::string::*;

verus! {

/// Length of a handshake nonce, in bytes.
pub const NONCE_LEN: usize = 32;

const DOMAIN_CLIENT_AUTH: &'static str = "sidgate/auth/client/v1";

const DOMAIN_CLIENT_PAIR: &'static str = "sidgate/pair/client/v1";

const DOMAIN_AGENT: &'static str = "sidgate/auth/agent/v1";

/// The use that a transcript is made for.
pub enum Domain {
    /// An already paired client proves its identity.
    ClientAuth,
    /// A client asks to be paired.
    ClientPair,
    /// The agent proves its identity.
    Agent,
}

/// The tag that leads a transcript.
pub open spec fn domain_tag(d: Domain) -> Seq<u8> {
    vstd::utf8::encode_utf8(
        match d {
            Domain::ClientAuth => "sidgate/auth/client/v1"@,
            Domain::ClientPair => "sidgate/pair/client/v1"@,
            Domain::Agent => "sidgate/auth/agent/v1"@,
        },
    )
}

/// A field of a transcript: its length on four bytes, then its bytes.
pub open spec fn field_bytes(part: Seq<u8>) -> Seq<u8> {
    bytes::u32_le((part.len() % 0x1_0000_0000) as u32) + part
}

/// The bytes that get signed: the domain, both nonces and the client's key, each
/// led by its length.
pub open spec fn transcript_bytes(d: Domain, sn: Seq<u8>, cn: Seq<u8>, ck: Seq<u8>) -> Seq<u8> {
    field_bytes(domain_tag(d)) + field_bytes(sn) + field_bytes(cn) + field_bytes(ck)
}

/// The transcript that an already paired client signs.
pub fn client_auth_transcript(
    server_nonce: &[u8],
    client_nonce: &[u8],
    client_key: &[u8],
) -> (out: Vec<u8>)
    ensures
        out@ == transcript_bytes(Domain::ClientAuth, server_nonce@, client_nonce@, client_key@),
{
    transcript(DOMAIN_CLIENT_AUTH.as_bytes(), server_nonce, client_nonce, client_key)
}

/// The transcript that a client signs to be paired.
pub fn client_pair_transcript(
    server_nonce: &[u8],
    client_nonce: &[u8],
    client_key: &[u8],
) -> (out: Vec<u8>)
    ensures
        out@ == transcript_bytes(Domain::ClientPair, server_nonce@, client_nonce@, client_key@),
{
    transcript(DOMAIN_CLIENT_PAIR.as_bytes(), server_nonce, client_nonce, client_key)
}

/// The transcript that the agent signs to prove itself to the client.
pub fn agent_transcript(
    server_nonce: &[u8],
    client_nonce: &[u8],
    client_key: &[u8],
) -> (out: Vec<u8>)
    ensures
        out@ == transcript_bytes(Domain::Agent, server_nonce@, client_nonce@, client_key@),
{
    transcript(DOMAIN_AGENT.as_bytes(), server_nonce, client_nonce, client_key)
}

/// Every field is led by its length: without that, cutting the same bytes
/// elsewhere would give the same transcript.
fn transcript(
    domain: &[u8],
    server_nonce: &[u8],
    client_nonce: &[u8],
    client_key: &[u8],
) -> (out: Vec<u8>)
    ensures
        out@ == field_bytes(domain@) + field_bytes(server_nonce@) + field_bytes(client_nonce@)
            + field_bytes(client_key@),
{
    let mut out: Vec<u8> = Vec::new();
    push_field(&mut out, domain);
    push_field(&mut out, server_nonce);
    push_field(&mut out, client_nonce);
    push_field(&mut out, client_key);
    assert(out@ =~= field_bytes(domain@) + field_bytes(server_nonce@) + field_bytes(client_nonce@)
        + field_bytes(client_key@));
    out
}

fn push_field(out: &mut Vec<u8>, part: &[u8])
    ensures
        final(out)@ == old(out)@ + field_bytes(part@),
{
    let len: u32 = (part.len() as u64 % 0x1_0000_0000) as u32;
    bytes::push_u32_le(out, len);
    out.extend_from_slice(part);
    assert(out@ =~= old(out)@ + field_bytes(part@));
}

/// Two buffers that start with four bytes each and then agree, agree on those four
/// bytes, and on what follows where it is cut at the same place.
proof fn lemma_cut(h: Seq<u8>, p: Seq<u8>, s: Seq<u8>, i: Seq<u8>, q: Seq<u8>, t: Seq<u8>)
    requires
        h.len() == 4,
        i.len() == 4,
        h + p + s == i + q + t,
    ensures
        h == i,
        p.len() == q.len() ==> p == q && s == t,
{
    let b = h + p + s;
    let c = i + q + t;
    assert(b.take(4) =~= h);
    assert(c.take(4) =~= i);
    if p.len() == q.len() {
        assert(b.subrange(4, 4 + p.len() as int) =~= p);
        assert(c.subrange(4, 4 + q.len() as int) =~= q);
        assert(b.skip(4 + p.len() as int) =~= s);
        assert(c.skip(4 + q.len() as int) =~= t);
    }
}

/// Cutting a field off the head of a buffer can be done in one way only.
proof fn lemma_field_is_prefix_free(p: Seq<u8>, q: Seq<u8>, s: Seq<u8>, t: Seq<u8>)
    requires
        p.len() < 0x1_0000_0000,
        q.len() < 0x1_0000_0000,
        field_bytes(p) + s == field_bytes(q) + t,
    ensures
        p == q,
        s == t,
{
    let m = (p.len() % 0x1_0000_0000) as u32;
    let n = (q.len() % 0x1_0000_0000) as u32;
    lemma_cut(bytes::u32_le(m), p, s, bytes::u32_le(n), q, t);
    bytes::lemma_u32_le_injective(m, n);
}

/// Concatenation of four parts, read from the right.
proof fn lemma_four_parts(a: Seq<u8>, b: Seq<u8>, c: Seq<u8>, d: Seq<u8>)
    ensures
        a + b + c + d == a + (b + (c + d)),
{
    assert(a + b + c + d =~= a + (b + (c + d)));
}

/// The three domains have three different tags.
proof fn lemma_domain_tags(d: Domain, e: Domain)
    ensures
        domain_tag(d).len() < 0x1_0000_0000,
        domain_tag(d) == domain_tag(e) ==> d == e,
{
    let auth = "sidgate/auth/client/v1"@;
    let pair = "sidgate/pair/client/v1"@;
    let agent = "sidgate/auth/agent/v1"@;
    reveal_strlit("sidgate/auth/client/v1");
    reveal_strlit("sidgate/pair/client/v1");
    reveal_strlit("sidgate/auth/agent/v1");
    vstd::utf8::is_ascii_chars_encode_utf8(auth);
    vstd::utf8::is_ascii_chars_encode_utf8(pair);
    vstd::utf8::is_ascii_chars_encode_utf8(agent);
    assert(auth[8] == 'a' && pair[8] == 'p');
    vstd::utf8::encode_utf8_decode_utf8(auth);
    vstd::utf8::encode_utf8_decode_utf8(pair);
    assert(auth.len() == 22 && pair.len() == 22 && agent.len() == 21);
}

/// A transcript is unambiguous: if two are equal, they were made for the same
/// use, from the same nonces and the same key. So a signature made for one use,
/// in one session, under one identity proves nothing anywhere else.
///
/// The fields are shorter than 2^32 bytes, which is what their length prefix can
/// hold.
pub proof fn law_transcript_is_unambiguous(
    d: Domain,
    sn: Seq<u8>,
    cn: Seq<u8>,
    ck: Seq<u8>,
    e: Domain,
    sn2: Seq<u8>,
    cn2: Seq<u8>,
    ck2: Seq<u8>,
)
    requires
        sn.len() < 0x1_0000_0000,
        cn.len() < 0x1_0000_0000,
        ck.len() < 0x1_0000_0000,
        sn2.len() < 0x1_0000_0000,
        cn2.len() < 0x1_0000_0000,
        ck2.len() < 0x1_0000_0000,
        transcript_bytes(d, sn, cn, ck) == transcript_bytes(e, sn2, cn2, ck2),
    ensures
        d == e,
        sn == sn2,
        cn == cn2,
        ck == ck2,
{
    lemma_domain_tags(d, e);
    lemma_domain_tags(e, d);
    let a1 = field_bytes(ck);
    let b1 = field_bytes(ck2);
    let a2 = field_bytes(cn) + a1;
    let b2 = field_bytes(cn2) + b1;
    let a3 = field_bytes(sn) + a2;
    let b3 = field_bytes(sn2) + b2;
    lemma_four_parts(field_bytes(domain_tag(d)), field_bytes(sn), field_bytes(cn), a1);
    lemma_four_parts(field_bytes(domain_tag(e)), field_bytes(sn2), field_bytes(cn2), b1);
    lemma_field_is_prefix_free(domain_tag(d), domain_tag(e), a3, b3);
    lemma_field_is_prefix_free(sn, sn2, a2, b2);
    lemma_field_is_prefix_free(cn, cn2, a1, b1);
    lemma_last_field(ck, ck2);
}

/// A field alone determines what it holds.
proof fn lemma_last_field(p: Seq<u8>, q: Seq<u8>)
    requires
        p.len() < 0x1_0000_0000,
        q.len() < 0x1_0000_0000,
        field_bytes(p) == field_bytes(q),
    ensures
        p == q,
{
    let nothing = Seq::<u8>::empty();
    lemma_field_is_prefix_free(p, q, nothing, nothing);
}

/// Transcripts made for two different uses differ, whatever the nonces and the keys,
/// of any length.
pub proof fn law_transcripts_are_domain_separated(
    d: Domain,
    sn: Seq<u8>,
    cn: Seq<u8>,
    ck: Seq<u8>,
    e: Domain,
    sn2: Seq<u8>,
    cn2: Seq<u8>,
    ck2: Seq<u8>,
)
    requires
        d != e,
    ensures
        transcript_bytes(d, sn, cn, ck) != transcript_bytes(e, sn2, cn2, ck2),
{
    lemma_domain_tags(d, e);
    lemma_domain_tags(e, d);
    if transcript_bytes(d, sn, cn, ck) == transcript_bytes(e, sn2, cn2, ck2) {
        let tail = field_bytes(sn) + (field_bytes(cn) + field_bytes(ck));
        let tail2 = field_bytes(sn2) + (field_bytes(cn2) + field_bytes(ck2));
        lemma_four_parts(field_bytes(domain_tag(d)), field_bytes(sn), field_bytes(cn), field_bytes(ck));
        lemma_four_parts(
            field_bytes(domain_tag(e)),
            field_bytes(sn2),
            field_bytes(cn2),
            field_bytes(ck2),
        );
        lemma_field_is_prefix_free(domain_tag(d), domain_tag(e), tail, tail2);
    }
}

/// Messages from the client to the agent.
#[derive(Debug, Clone, PartialEq, Eq)]
pub enum ClientMessage {
    /// Authentication of an already paired client.
    Authenticate {
        /// Protocol version that the client speaks.
        protocol: u16,
        /// ECDSA P-256 public key, uncompressed SEC1, in hexadecimal.
        client_key: String,
        /// The client's nonce, in hexadecimal.
        client_nonce: String,
        /// Signature `r || s` of [`client_auth_transcript`], in hexadecimal.
        signature: String,
    },
    /// First pairing, protected by the code shown on the host.
    Pair {
        /// Protocol version that the client speaks.
        protocol: u16,
        /// Pairing code read on the agent's console.
        code: String,
        /// ECDSA P-256 public key, uncompressed SEC1, in hexadecimal.
        client_key: String,
        /// The client's nonce, in hexadecimal.
        client_nonce: String,
        /// Signature `r || s` of [`client_pair_transcript`], in hexadecimal.
        signature: String,
        /// Readable name of the device, kept for audit and revocation.
        label: String,
    },
    /// The client's SDP offer.
    Offer {
        /// Session description.
        sdp: String,
    },
    /// An ICE candidate of the client.
    Candidate {
        /// The `candidate:` line, as the browser made it.
        candidate: String,
        /// Identifier of the media it belongs to.
        sdp_mid: Option<String>,
        /// Index of the media it belongs to.
        sdp_mline_index: Option<u16>,
    },
    /// The client closes the session.
    Bye,
}

/// Messages from the agent to the client.
#[derive(Debug, Clone, PartialEq, Eq)]
pub enum ServerMessage {
    /// First message on a new connection.
    Challenge {
        /// Protocol version that the agent speaks.
        protocol: u16,
        /// The agent's nonce, in hexadecimal.
        server_nonce: String,
        /// The agent's Ed25519 public key, in hexadecimal. The client pins it at
        /// the first pairing and refuses any other from then on.
        agent_key: String,
        /// Whether a pairing is open right now.
        pairing_open: bool,
    },
    /// Both sides are authenticated.
    AuthOk {
        /// Ed25519 signature of [`agent_transcript`], in hexadecimal.
        agent_signature: String,
        /// Session identifier, to correlate the logs.
        session_id: String,
    },
    /// Authentication is refused.
    AuthFailed {
        /// Why.
        reason: AuthError,
    },
    /// The agent's SDP answer.
    Answer {
        /// Session description.
        sdp: String,
    },
    /// An ICE candidate of the agent.
    Candidate {
        /// The `candidate:` line.
        candidate: String,
        /// Identifier of the media it belongs to.
        sdp_mid: Option<String>,
        /// Index of the media it belongs to.
        sdp_mline_index: Option<u16>,
    },
    /// An error outside authentication.
    Error {
        /// Short message, without internal detail.
        message: String,
    },
}

/// Why authentication is refused.
///
/// Coarse on purpose: telling "unknown key" from "bad signature" would tell an
/// attacker which keys are valid.
#[derive(Debug, Clone, Copy, PartialEq, Eq, Structural)]
pub enum AuthError {
    /// Incompatible protocol version.
    ProtocolMismatch,
    /// Unknown identity, bad signature or wrong code.
    Rejected,
    /// No pairing is open on the host.
    PairingClosed,
    /// Too many attempts from this source.
    RateLimited,
    /// A message that this step of the handshake does not expect.
    UnexpectedMessage,
}

/// The lower-case hexadecimal digit of a value below sixteen.
pub open spec fn hex_digit(v: int) -> char {
    if v < 10 {
        ('0' as int + v) as char
    } else {
        ('a' as int + (v - 10)) as char
    }
}

/// The value of a hexadecimal digit, in either case.
pub open spec fn hex_value(c: char) -> Option<int> {
    if '0' <= c <= '9' {
        Some(c as int - '0' as int)
    } else if 'a' <= c <= 'f' {
        Some(c as int - 'a' as int + 10)
    } else if 'A' <= c <= 'F' {
        Some(c as int - 'A' as int + 10)
    } else {
        None
    }
}

/// The hexadecimal text of `data`: two digits per byte, high half first.
pub open spec fn hex_text(data: Seq<u8>) -> Seq<char> {
    Seq::new(
        2 * data.len(),
        |i: int|
            if i % 2 == 0 {
                hex_digit(data[i / 2] as int / 16)
            } else {
                hex_digit(data[i / 2] as int % 16)
            },
    )
}

/// Whether a text is an even number of hexadecimal digits.
pub open spec fn is_hex_text(t: Seq<char>) -> bool {
    &&& t.len() % 2 == 0
    &&& forall|i: int| 0 <= i < t.len() ==> hex_value(#[trigger] t[i]) is Some
}

/// The bytes that a hexadecimal text stands for.
pub open spec fn hex_bytes(t: Seq<char>) -> Seq<u8> {
    Seq::new(
        t.len() / 2,
        |i: int| (16 * hex_value(t[2 * i])->0 + hex_value(t[2 * i + 1])->0) as u8,
    )
}

fn digit_char(v: u8) -> (c: char)
    requires
        v < 16,
    ensures
        c == hex_digit(v as int),
{
    if v < 10 {
        (48 + v) as char
    } else {
        (97 + (v - 10)) as char
    }
}

/// The value of a hexadecimal digit, in either case.
pub(crate) fn digit_value(c: char) -> (v: Option<u8>)
    ensures
        match v {
            Some(x) => hex_value(c) == Some(x as int) && x < 16,
            None => hex_value(c) is None,
        },
{
    if '0' <= c && c <= '9' {
        Some((c as u32 - '0' as u32) as u8)
    } else if 'a' <= c && c <= 'f' {
        Some((c as u32 - 'a' as u32 + 10) as u8)
    } else if 'A' <= c && c <= 'F' {
        Some((c as u32 - 'A' as u32 + 10) as u8)
    } else {
        None
    }
}

/// Encodes bytes in lower-case hexadecimal.
pub fn to_hex(data: &[u8]) -> (out: String)
    ensures
        out@ == hex_text(data@),
{
    let mut out = String::new();
    assert(out@ =~= hex_text(data@.take(0)));
    let mut i: usize = 0;
    while i < data.len()
        invariant
            i <= data@.len(),
            out@ == hex_text(data@.take(i as int)),
        decreases data@.len() - i,
    {
        let b: u8 = data[i];
        out.push(digit_char(b / 16));
        out.push(digit_char(b % 16));
        proof {
            let t = hex_text(data@.take(i + 1));
            assert forall|k: int| 0 <= k < t.len() implies t[k] == out@[k] by {
                if k < 2 * i {
                    assert(hex_text(data@.take(i as int))[k] == t[k]);
                }
            }
            assert(out@ =~= t);
        }
        i = i + 1;
    }
    assert(data@.take(i as int) =~= data@);
    out
}

/// Decodes a hexadecimal text. Refuses an odd length and any character outside
/// `[0-9a-fA-F]`.
pub fn from_hex(s: &str) -> (r: Option<Vec<u8>>)
    ensures
        r is Some <==> is_hex_text(s@),
        r matches Some(v) ==> v@ == hex_bytes(s@),
{
    let chars = text::chars_of(s);
    if chars.len() % 2 != 0 {
        return None;
    }
    let n: usize = chars.len() / 2;
    let mut out: Vec<u8> = Vec::with_capacity(n);
    let mut i: usize = 0;
    while i < n
        invariant
            i <= n,
            chars.len() == 2 * n,
            chars@ == s@,
            out@.len() == i,
            forall|k: int| 0 <= k < 2 * i ==> hex_value(#[trigger] chars@[k]) is Some,
            forall|k: int| 0 <= k < i ==> #[trigger] out@[k] == hex_bytes(chars@)[k],
        decreases n - i,
    {
        let hi: u8 = match digit_value(chars[2 * i]) {
            Some(v) => v,
            None => {
                return None;
            },
        };
        let lo: u8 = match digit_value(chars[2 * i + 1]) {
            Some(v) => v,
            None => {
                return None;
            },
        };
        out.push(hi * 16 + lo);
        i = i + 1;
    }
    assert(out@ =~= hex_bytes(s@));
    Some(out)
}

/// `<[u8; N]>::try_from(Vec<u8>)` succeeds exactly when the vector holds `N`
/// items, and the array then holds the same items in the same order.
#[verifier::external_body]
pub(crate) fn array_of<const N: usize>(v: Vec<u8>) -> (r: Option<[u8; N]>)
    ensures
        r is Some <==> v@.len() == N,
        r matches Some(a) ==> a@ == v@,
{
    v.try_into().ok()
}

/// Decodes a hexadecimal text of exactly `N` bytes.
pub fn from_hex_exact<const N: usize>(s: &str) -> (r: Option<[u8; N]>)
    ensures
        r is Some <==> is_hex_text(s@) && s@.len() == 2 * N,
        r matches Some(a) ==> a@ == hex_bytes(s@),
{
    match from_hex(s) {
        None => None,
        Some(v) => array_of(v),
    }
}

/// Decoding what was encoded gives the bytes back.
pub proof fn law_hex_roundtrip(data: Seq<u8>)
    ensures
        is_hex_text(hex_text(data)),
        hex_bytes(hex_text(data)) == data,
{
    let t = hex_text(data);
    assert forall|i: int| 0 <= i < t.len() implies hex_value(#[trigger] t[i]) is Some by {
        assert(0 <= data[i / 2] as int / 16 < 16);
    }
    assert forall|i: int| 0 <= i < data.len() implies hex_bytes(t)[i] == data[i] by {
        assert(t[2 * i] == hex_digit(data[i] as int / 16));
        assert(t[2 * i + 1] == hex_digit(data[i] as int % 16));
        assert(data[i] as int == 16 * (data[i] as int / 16) + data[i] as int % 16);
    }
    assert(hex_bytes(t) =~= data);
}

/// Two byte strings with the same hexadecimal text are equal.
pub proof fn law_hex_is_injective(a: Seq<u8>, b: Seq<u8>)
    requires
        hex_text(a) == hex_text(b),
    ensures
        a == b,
{
    law_hex_roundtrip(a);
    law_hex_roundtrip(b);
}

/// A hexadecimal digit is one of `0` to `9`, `a` to `f` or `A` to `F`, by its place in the
/// character table; nothing else is one.
pub proof fn law_digits_have_their_values(c: char, v: int)
    ensures
        hex_value(c) == Some(v) <==> {
            ||| 0 <= v < 10 && c as int == 48 + v
            ||| 10 <= v < 16 && c as int == 87 + v
            ||| 10 <= v < 16 && c as int == 55 + v
        },
        hex_value(c) is None <==> !(48 <= c as int <= 57) && !(97 <= c as int <= 102) && !(65
            <= c as int <= 70),
{
}

/// A byte is written with two digits, the high half first, in lower case; and two digits
/// are read the same way, in either case.
pub proof fn law_the_high_half_comes_first(data: Seq<u8>, t: Seq<char>, i: int)
    requires
        0 <= i < data.len(),
        0 <= 2 * i + 1 < t.len(),
        is_hex_text(t),
    ensures
        hex_text(data).len() == 2 * data.len(),
        ({
            let hi = hex_text(data)[2 * i] as int;
            let lo = hex_text(data)[2 * i + 1] as int;
            &&& 48 <= hi <= 57 || 97 <= hi <= 102
            &&& 48 <= lo <= 57 || 97 <= lo <= 102
            &&& data[i] / 16 == hi - (if hi <= 57 {
                48int
            } else {
                87
            })
            &&& data[i] % 16 == lo - (if lo <= 57 {
                48int
            } else {
                87
            })
        }),
        hex_bytes(t).len() * 2 == t.len(),
        hex_bytes(t)[i] as int / 16 == hex_value(t[2 * i])->0,
        hex_bytes(t)[i] as int % 16 == hex_value(t[2 * i + 1])->0,
{
    assert(hex_value(t[2 * i]) is Some);
    assert(hex_value(t[2 * i + 1]) is Some);
    let hi = hex_value(t[2 * i])->0;
    let lo = hex_value(t[2 * i + 1])->0;
    assert(hex_text(data)[2 * i] == hex_digit(data[i] as int / 16));
    assert(hex_text(data)[2 * i + 1] == hex_digit(data[i] as int % 16));
    assert((16 * hi + lo) / 16 == hi && (16 * hi + lo) % 16 == lo);
}

/// The value of four bytes of a buffer, low byte first.
pub open spec fn prefix_at(b: Seq<u8>, at: int) -> int {
    b[at] + 256 * b[at + 1] + 65536 * b[at + 2] + 16777216 * b[at + 3]
}

/// What gets signed is, in this order, the name of the use, the agent's nonce, the
/// client's nonce and the client's key, each whole and led by its length in four bytes,
/// low byte first. Nothing else is in it.
pub proof fn law_a_transcript_holds_its_parts_in_order(
    d: Domain,
    sn: Seq<u8>,
    cn: Seq<u8>,
    ck: Seq<u8>,
)
    requires
        sn.len() < 0x1_0000_0000,
        cn.len() < 0x1_0000_0000,
        ck.len() < 0x1_0000_0000,
    ensures
        ({
            let t = transcript_bytes(d, sn, cn, ck);
            let tag = vstd::utf8::encode_utf8(
                if d is ClientAuth {
                    "sidgate/auth/client/v1"@
                } else if d is ClientPair {
                    "sidgate/pair/client/v1"@
                } else {
                    "sidgate/auth/agent/v1"@
                },
            );
            let a = 4 + tag.len() as int;
            let b = a + 4 + sn.len();
            let c = b + 4 + cn.len();
            &&& t.len() == c + 4 + ck.len()
            &&& prefix_at(t, 0) == tag.len()
            &&& t.subrange(4, a) == tag
            &&& prefix_at(t, a) == sn.len()
            &&& t.subrange(a + 4, b) == sn
            &&& prefix_at(t, b) == cn.len()
            &&& t.subrange(b + 4, c) == cn
            &&& prefix_at(t, c) == ck.len()
            &&& t.subrange(c + 4, c + 4 + ck.len()) == ck
        }),
{
    lemma_domain_tags(d, d);
    let tag = domain_tag(d);
    let t = transcript_bytes(d, sn, cn, ck);
    let a = 4 + tag.len() as int;
    let b = a + 4 + sn.len();
    let c = b + 4 + cn.len();
    lemma_field_parts(tag);
    lemma_field_parts(sn);
    lemma_field_parts(cn);
    lemma_field_parts(ck);
    assert(t.subrange(0, a) =~= field_bytes(tag));
    assert(t.subrange(a, b) =~= field_bytes(sn));
    assert(t.subrange(b, c) =~= field_bytes(cn));
    assert(t.subrange(c, c + 4 + ck.len()) =~= field_bytes(ck));
    lemma_field_within(t, 0, tag);
    lemma_field_within(t, a, sn);
    lemma_field_within(t, b, cn);
    lemma_field_within(t, c, ck);
}

/// A field is the length of what it holds, then what it holds.
proof fn lemma_field_parts(part: Seq<u8>)
    requires
        part.len() < 0x1_0000_0000,
    ensures
        field_bytes(part).len() == 4 + part.len(),
        prefix_at(field_bytes(part), 0) == part.len(),
        field_bytes(part).subrange(4, 4 + part.len() as int) == part,
{
    let n = part.len() as u32;
    assert(field_bytes(part).subrange(4, 4 + part.len() as int) =~= part);
    bytes::lemma_u32_roundtrip(n);
    let h = bytes::u32_le(n);
    assert(field_bytes(part)[0] == h[0] && field_bytes(part)[1] == h[1] && field_bytes(part)[2]
        == h[2] && field_bytes(part)[3] == h[3]);
}

/// A field that stands in a buffer is found there.
proof fn lemma_field_within(t: Seq<u8>, at: int, part: Seq<u8>)
    requires
        0 <= at,
        at + 4 + part.len() <= t.len(),
        part.len() < 0x1_0000_0000,
        t.subrange(at, at + 4 + part.len()) == field_bytes(part),
    ensures
        prefix_at(t, at) == part.len(),
        t.subrange(at + 4, at + 4 + part.len()) == part,
{
    lemma_field_parts(part);
    let f = field_bytes(part);
    assert(f[0] == t[at] && f[1] == t[at + 1] && f[2] == t[at + 2] && f[3] == t[at + 3]);
    assert(t.subrange(at + 4, at + 4 + part.len()) =~= f.subrange(4, 4 + part.len() as int));
}

} // verus!
