//! TLS certificate of the agent.
//!
//! HTTPS is not an option: WebRTC and WebCrypto exist in a secure context only.
//! The certificate is self-signed and made on the first start. Its SHA-256
//! fingerprint is shown on the host's console, for the user to compare once
//! before accepting the browser's warning.

use crate::crypto;
use crate::net;
use crate::net::IpAddress;
use crate::text;
use vstd::prelude::*;

verus! {

/// Name of the certificate file.
pub const CERT_FILE: &'static str = "agent.crt";

/// Name of the private key file.
pub const KEY_FILE: &'static str = "agent.key.pem";

const BEGIN_LINE: &'static str = "-----BEGIN CERTIFICATE-----";

const END_LINE: &'static str = "-----END CERTIFICATE-----";

/// Certificate and key ready to be served.
#[derive(Debug, Clone)]
pub struct TlsMaterial {
    /// Certificate, in PEM.
    pub cert_pem: Vec<u8>,
    /// Private key, in PEM.
    pub key_pem: Vec<u8>,
    /// SHA-256 fingerprint of the certificate, byte by byte.
    pub fingerprint: String,
}

/// Why there is no TLS material.
#[derive(Debug, Clone, Copy, PartialEq, Eq, Structural)]
pub enum TlsError {
    /// The certificate's PEM cannot be read.
    UnreadablePem,
    /// No certificate could be made for these names.
    Generation,
}

/// Where the first line feed of `b` stands; its length if there is none.
pub open spec fn line_feed(b: Seq<u8>) -> nat
    decreases b.len(),
{
    if b.len() == 0 || b[0] == 10 {
        0
    } else {
        1 + line_feed(b.drop_first())
    }
}

/// The first line of `b`, without what ends it: a line feed, or a carriage return
/// and a line feed.
pub open spec fn first_line(b: Seq<u8>) -> Seq<u8> {
    let n = line_feed(b) as int;
    if n >= b.len() {
        b
    } else if n > 0 && b[n - 1] == 13 {
        b.take(n - 1)
    } else {
        b.take(n)
    }
}

/// What follows the first line of `b`.
pub open spec fn other_lines(b: Seq<u8>) -> Seq<u8> {
    let n = line_feed(b) as int;
    if n >= b.len() {
        Seq::empty()
    } else {
        b.skip(n + 1)
    }
}

/// Whether a line starts with the given mark.
pub open spec fn starts_with(line: Seq<u8>, mark: Seq<u8>) -> bool {
    line.len() >= mark.len() && line.take(mark.len() as int) == mark
}

/// The mark that opens a certificate.
pub open spec fn begin_mark() -> Seq<u8> {
    vstd::utf8::encode_utf8("-----BEGIN CERTIFICATE-----"@)
}

/// The mark that closes a certificate.
pub open spec fn end_mark() -> Seq<u8> {
    vstd::utf8::encode_utf8("-----END CERTIFICATE-----"@)
}

/// What follows the first line that opens a certificate.
pub open spec fn after_begin(b: Seq<u8>) -> Seq<u8>
    decreases b.len(),
{
    if b.len() == 0 {
        b
    } else if starts_with(first_line(b), begin_mark()) {
        other_lines(b)
    } else {
        after_begin(other_lines(b))
    }
}

/// The lines before the one that closes a certificate, put end to end.
pub open spec fn until_end(b: Seq<u8>) -> Seq<u8>
    decreases b.len(),
{
    if b.len() == 0 || starts_with(first_line(b), end_mark()) {
        Seq::empty()
    } else {
        first_line(b) + until_end(other_lines(b))
    }
}

/// The text of the first certificate of a PEM, without its marks.
pub open spec fn pem_body(pem: Seq<u8>) -> Seq<u8> {
    until_end(after_begin(pem))
}

/// What `data_encoding::BASE64` decodes a text to, if it is valid.
pub uninterp spec fn base64_decoded(t: Seq<u8>) -> Option<Seq<u8>>;

/// `data_encoding::BASE64.decode` decodes a text or refuses it, from its bytes
/// alone. It does not panic up to an eighth of the largest length.
#[verifier::external_body]
fn base64_decode(t: &[u8]) -> (r: Option<Vec<u8>>)
    requires
        t@.len() <= usize::MAX / 8,
    ensures
        match r {
            Some(data) => base64_decoded(t@) == Some(data@),
            None => base64_decoded(t@) is None,
        },
{
    data_encoding::BASE64.decode(t).ok()
}

/// `std::str::from_utf8` accepts exactly the bytes that are valid UTF-8.
#[verifier::external_body]
fn is_utf8(b: &[u8]) -> (ok: bool)
    ensures
        ok == vstd::utf8::valid_utf8(b@),
{
    std::str::from_utf8(b).is_ok()
}

/// Whether `cert` and `key`, in PEM, are a self-signed certificate for exactly these
/// names, in this order, and the private key that it was signed with.
pub uninterp spec fn self_signed_for(names: Seq<Seq<char>>, cert: Seq<u8>, key: Seq<u8>) -> bool;

/// `rcgen::generate_simple_self_signed` draws a key pair and signs a certificate for
/// `names` with it, both handed out in PEM, or refuses a name. Which key is drawn is
/// up to chance, so that no more is claimed than what the certificate is for.
#[verifier::external_body]
fn self_signed(names: Vec<String>) -> (r: Option<(Vec<u8>, Vec<u8>)>)
    ensures
        r matches Some((cert, key)) ==> self_signed_for(text::texts(names@), cert@, key@),
{
    match rcgen::generate_simple_self_signed(names) {
        Ok(made) => Some(
            (made.cert.pem().into_bytes(), made.signing_key.serialize_pem().into_bytes()),
        ),
        Err(_) => None,
    }
}

/// The DER that a PEM holds: that of its first certificate, where the PEM is a
/// text, the certificate is there, and it is valid base64.
pub open spec fn der_of(pem: Seq<u8>) -> Option<Seq<u8>> {
    if vstd::utf8::valid_utf8(pem) && pem_body(pem).len() > 0 {
        base64_decoded(pem_body(pem))
    } else {
        None
    }
}

/// Bytes in upper-case hexadecimal, with colons between them.
pub open spec fn colon_hex(data: Seq<u8>) -> Seq<char> {
    Seq::new(
        if data.len() == 0 {
            0
        } else {
            (3 * data.len() - 1) as nat
        },
        |i: int|
            if i % 3 == 0 {
                text::upper_digit(data[i / 3] as int / 16)
            } else if i % 3 == 1 {
                text::upper_digit(data[i / 3] as int % 16)
            } else {
                ':'
            },
    )
}

/// The fingerprint that goes with a PEM: the SHA-256 of the DER and not of the
/// text, since that is what browsers show.
pub open spec fn fingerprint_text(pem: Seq<u8>) -> Option<Seq<char>> {
    match der_of(pem) {
        Some(der) => Some(colon_hex(crypto::sha256_digest(der))),
        None => None,
    }
}

fn to_colon_hex(data: &[u8; 32]) -> (out: String)
    ensures
        out@ == colon_hex(data@),
{
    let mut out = String::new();
    let ghost whole = colon_hex(data@);
    let mut i: usize = 0;
    assert(out@ =~= whole.take(0));
    while i < 32
        invariant
            i <= 32,
            data@.len() == 32,
            whole == colon_hex(data@),
            out@ == whole.take(if i == 32 {
                95
            } else {
                3 * i as int
            }),
        decreases 32 - i,
    {
        let b: u8 = data[i];
        out.push(text::upper_digit_char(b / 16));
        out.push(text::upper_digit_char(b % 16));
        assert(out@ =~= whole.take(3 * i + 2));
        if i < 31 {
            out.push(':');
            assert(out@ =~= whole.take(3 * i + 3));
        }
        i = i + 1;
    }
    assert(whole.take(95) =~= whole);
    out
}

proof fn lemma_line_feed(b: Seq<u8>, n: int)
    requires
        0 <= n <= b.len(),
        forall|k: int| 0 <= k < n ==> b[k] != 10,
        n < b.len() ==> b[n] == 10,
    ensures
        line_feed(b) == n,
    decreases n,
{
    if n > 0 {
        let rest = b.drop_first();
        assert forall|k: int| 0 <= k < n - 1 implies rest[k] != 10 by {
            assert(b[k + 1] != 10);
        }
        lemma_line_feed(rest, n - 1);
    }
}

/// The first line from `from` on: where its text ends, and where the next line
/// starts.
fn scan_line(b: &[u8], from: usize) -> (r: (usize, usize))
    requires
        from < b@.len(),
    ensures
        from <= r.0 <= r.1 <= b@.len(),
        from < r.1,
        b@.subrange(from as int, r.0 as int) == first_line(b@.skip(from as int)),
        b@.skip(r.1 as int) == other_lines(b@.skip(from as int)),
{
    let ghost tail = b@.skip(from as int);
    let mut i: usize = from;
    while i < b.len() && b[i] != 10
        invariant
            from <= i <= b@.len(),
            forall|k: int| from <= k < i ==> b@[k] != 10,
        ensures
            from <= i <= b@.len(),
            forall|k: int| from <= k < i ==> b@[k] != 10,
            i < b@.len() ==> b@[i as int] == 10,
        decreases b@.len() - i,
    {
        i = i + 1;
    }
    proof {
        lemma_line_feed(tail, i - from);
    }
    if i == b.len() {
        assert(b@.subrange(from as int, i as int) =~= tail);
        assert(b@.skip(i as int) =~= Seq::<u8>::empty());
        return (i, i);
    }
    let end: usize = if i > from && b[i - 1] == 13 {
        i - 1
    } else {
        i
    };
    assert(b@.subrange(from as int, end as int) =~= first_line(tail));
    assert(b@.skip(i + 1) =~= other_lines(tail));
    (end, i + 1)
}

/// Whether the line that spans `from..to` starts with `mark`.
fn line_starts_with(b: &[u8], from: usize, to: usize, mark: &[u8]) -> (r: bool)
    requires
        from <= to <= b@.len(),
    ensures
        r == starts_with(b@.subrange(from as int, to as int), mark@),
{
    let ghost line = b@.subrange(from as int, to as int);
    if to - from < mark.len() {
        return false;
    }
    let mut i: usize = 0;
    while i < mark.len()
        invariant
            i <= mark@.len(),
            from + mark@.len() <= to <= b@.len(),
            line == b@.subrange(from as int, to as int),
            forall|k: int| 0 <= k < i ==> line[k] == mark@[k],
        decreases mark@.len() - i,
    {
        if b[from + i] != mark[i] {
            assert(line.take(mark@.len() as int)[i as int] != mark@[i as int]);
            return false;
        }
        i = i + 1;
    }
    assert(line.take(mark@.len() as int) =~= mark@);
    true
}

/// The DER of the first certificate of a PEM.
///
/// An empty body means that no certificate was found. Without that test base64
/// would decode the empty text, and the fingerprint of nothing would be computed.
pub fn pem_to_der(pem: &[u8]) -> (r: Option<Vec<u8>>)
    requires
        pem@.len() <= usize::MAX / 8,
    ensures
        match r {
            Some(der) => der_of(pem@) == Some(der@),
            None => der_of(pem@) is None,
        },
{
    if !is_utf8(pem) {
        return None;
    }
    let begin = BEGIN_LINE.as_bytes();
    let end = END_LINE.as_bytes();
    let mut at: usize = 0;
    let mut found = false;
    assert(pem@.skip(0) =~= pem@);
    while at < pem.len() && !found
        invariant
            at <= pem@.len(),
            begin@ == begin_mark(),
            !found ==> after_begin(pem@.skip(at as int)) == after_begin(pem@),
            found ==> pem@.skip(at as int) == after_begin(pem@),
        decreases pem@.len() - at + (if found {
            0int
        } else {
            1int
        }),
    {
        let (stop, next) = scan_line(pem, at);
        found = line_starts_with(pem, at, stop, begin);
        at = next;
    }
    assert(pem@.skip(at as int) =~= after_begin(pem@)) by {
        if !found {
            assert(pem@.skip(at as int).len() == 0);
        }
    }
    let ghost text = after_begin(pem@);
    let mut body: Vec<u8> = Vec::new();
    let mut done = false;
    assert(body@ + until_end(text) =~= until_end(text));
    while at < pem.len() && !done
        invariant
            at <= pem@.len(),
            end@ == end_mark(),
            body@.len() <= at,
            !done ==> body@ + until_end(pem@.skip(at as int)) == until_end(text),
            done ==> body@ == until_end(text),
        decreases pem@.len() - at + (if done {
            0int
        } else {
            1int
        }),
    {
        let (stop, next) = scan_line(pem, at);
        if line_starts_with(pem, at, stop, end) {
            assert(body@ + Seq::<u8>::empty() =~= body@);
            done = true;
        } else {
            let line = vstd::slice::slice_subrange(pem, at, stop);
            let ghost before = body@;
            body.extend_from_slice(line);
            proof {
                let more = until_end(pem@.skip(next as int));
                assert(body@ =~= before + line@);
                assert(before + (line@ + more) =~= body@ + more);
            }
            at = next;
        }
    }
    assert(body@ == until_end(text)) by {
        if !done {
            assert(pem@.skip(at as int).len() == 0);
            assert(body@ + Seq::<u8>::empty() =~= body@);
        }
    }
    if body.len() == 0 {
        return None;
    }
    base64_decode(body.as_slice())
}

/// The SHA-256 fingerprint of the certificate that a PEM holds.
pub fn fingerprint_of(cert_pem: &[u8]) -> (r: Result<String, TlsError>)
    requires
        cert_pem@.len() <= usize::MAX / 8,
    ensures
        match fingerprint_text(cert_pem@) {
            Some(t) => r matches Ok(s) && s@ == t,
            None => r matches Err(e) && e == TlsError::UnreadablePem,
        },
{
    match pem_to_der(cert_pem) {
        None => Err(TlsError::UnreadablePem),
        Some(der) => {
            let digest = crypto::sha256(der.as_slice());
            Ok(to_colon_hex(&digest))
        },
    }
}

/// Whether a name belongs in the certificate: `localhost`, `127.0.0.1`, the
/// address listened on unless it is the wildcard, and the extra ones.
pub open spec fn is_host_name(
    t: Seq<char>,
    bind: IpAddress,
    bind_text: Seq<char>,
    extra: Seq<Seq<char>>,
) -> bool {
    ||| t == "localhost"@
    ||| t == "127.0.0.1"@
    ||| !net::unspecified(bind) && t == bind_text
    ||| extra.contains(t)
}

/// Whether these are the names of the certificate, in order and without repetition.
pub open spec fn are_host_names(
    names: Seq<Seq<char>>,
    bind: IpAddress,
    bind_text: Seq<char>,
    extra: Seq<Seq<char>>,
) -> bool {
    &&& text::strictly_ordered(names)
    &&& forall|t: Seq<char>| #[trigger]
        names.contains(t) <==> is_host_name(t, bind, bind_text, extra)
}

/// The names and addresses under which the agent is reached, in order and without
/// repetition. `bind_text` is the address listened on, in words.
pub fn host_names(bind: IpAddress, bind_text: &str, extra_hosts: &[String]) -> (names: Vec<String>)
    ensures
        are_host_names(text::texts(names@), bind, bind_text@, text::texts(extra_hosts@)),
{
    let mut names: Vec<String> = Vec::new();
    text::insert_ordered(&mut names, "localhost".to_owned());
    text::insert_ordered(&mut names, "127.0.0.1".to_owned());
    if !bind.is_unspecified() {
        text::insert_ordered(&mut names, bind_text.to_owned());
    }
    let ghost extra = text::texts(extra_hosts@);
    let ghost none = Seq::<Seq<char>>::empty();
    let mut i: usize = 0;
    assert(extra.take(0) =~= none);
    while i < extra_hosts.len()
        invariant
            i <= extra_hosts@.len(),
            extra == text::texts(extra_hosts@),
            text::strictly_ordered(text::texts(names@)),
            forall|t: Seq<char>| #[trigger]
                text::texts(names@).contains(t) <==> is_host_name(
                    t,
                    bind,
                    bind_text@,
                    extra.take(i as int),
                ),
        decreases extra_hosts@.len() - i,
    {
        let ghost before = text::texts(names@);
        text::insert_ordered(&mut names, extra_hosts[i].clone());
        proof {
            let old_part = extra.take(i as int);
            let new_part = extra.take(i + 1);
            assert(new_part =~= old_part.push(extra[i as int]));
            assert forall|t: Seq<char>| #[trigger]
                text::texts(names@).contains(t) <==> is_host_name(
                    t,
                    bind,
                    bind_text@,
                    new_part,
                ) by {
                assert(before.contains(t) <==> is_host_name(t, bind, bind_text@, old_part));
                if old_part.contains(t) {
                    let k = choose|k: int| 0 <= k < old_part.len() && old_part[k] == t;
                    assert(new_part[k] == t);
                }
                if t == extra[i as int] {
                    assert(new_part[i as int] == t);
                }
                if new_part.contains(t) {
                    let k = choose|k: int| 0 <= k < new_part.len() && new_part[k] == t;
                    if k < i {
                        assert(old_part[k] == t);
                    }
                }
            }
        }
        i = i + 1;
    }
    assert(extra.take(i as int) =~= extra);
    names
}

/// The material for a certificate and a key that are at hand.
pub fn material_of(cert_pem: Vec<u8>, key_pem: Vec<u8>) -> (r: Result<TlsMaterial, TlsError>)
    requires
        cert_pem@.len() <= usize::MAX / 8,
    ensures
        match fingerprint_text(cert_pem@) {
            Some(t) => r matches Ok(m) && m.cert_pem@ == cert_pem@ && m.key_pem@ == key_pem@
                && m.fingerprint@ == t,
            None => r matches Err(e) && e == TlsError::UnreadablePem,
        },
{
    match fingerprint_of(cert_pem.as_slice()) {
        Ok(fingerprint) => Ok(TlsMaterial { cert_pem, key_pem, fingerprint }),
        Err(e) => Err(e),
    }
}

/// Whether a result is what a certificate and a key that were just made come to
/// (`None`: none could be made).
pub open spec fn made_outcome(
    made: Option<(Vec<u8>, Vec<u8>)>,
    r: Result<(TlsMaterial, bool), TlsError>,
) -> bool {
    match made {
        None => r matches Err(e) && e == TlsError::Generation,
        Some((cert, key)) => if cert@.len() > usize::MAX / 8 {
            r matches Err(e) && e == TlsError::UnreadablePem
        } else {
            match fingerprint_text(cert@) {
                Some(t) => r matches Ok((m, made)) && made && m.cert_pem@ == cert@ && m.key_pem@
                    == key@ && m.fingerprint@ == t,
                None => r matches Err(e) && e == TlsError::UnreadablePem,
            }
        },
    }
}

/// Whether a result is what a certificate and a key that are stored come to.
pub open spec fn stored_outcome(
    cert: Seq<u8>,
    key: Seq<u8>,
    r: Result<(TlsMaterial, bool), TlsError>,
) -> bool {
    match fingerprint_text(cert) {
        Some(t) => r matches Ok((m, made)) && !made && m.cert_pem@ == cert && m.key_pem@ == key
            && m.fingerprint@ == t,
        None => r matches Err(e) && e == TlsError::UnreadablePem,
    }
}

/// The material for a certificate and a key that were just made, and have to be
/// written; an error where none could be made, or where the certificate cannot be read.
pub fn made_material(made: Option<(Vec<u8>, Vec<u8>)>) -> (r: Result<
    (TlsMaterial, bool),
    TlsError,
>)
    ensures
        made_outcome(made, r),
{
    match made {
        None => Err(TlsError::Generation),
        Some((cert_pem, key_pem)) => {
            if cert_pem.len() > usize::MAX / 8 {
                return Err(TlsError::UnreadablePem);
            }
            match material_of(cert_pem, key_pem) {
                Ok(m) => Ok((m, true)),
                Err(e) => Err(e),
            }
        },
    }
}

/// The material to serve with, given the certificate and the key that are stored
/// (`None`: they are not both there). The flag says that they were made, and have
/// to be written.
pub fn load_or_create(
    stored: Option<(Vec<u8>, Vec<u8>)>,
    bind: IpAddress,
    bind_text: &str,
    extra_hosts: &[String],
) -> (r: Result<(TlsMaterial, bool), TlsError>)
    requires
        stored matches Some((cert, _)) ==> cert@.len() <= usize::MAX / 8,
    ensures
        match stored {
            Some((cert, key)) => stored_outcome(cert@, key@, r),
            None => exists|made: Option<(Vec<u8>, Vec<u8>)>|
                {
                    &&& #[trigger] made_outcome(made, r)
                    &&& made matches Some((cert, key)) ==> exists|names: Seq<Seq<char>>|
                        are_host_names(names, bind, bind_text@, text::texts(extra_hosts@))
                            && #[trigger] self_signed_for(names, cert@, key@)
                },
        },
{
    match stored {
        Some((cert_pem, key_pem)) => match material_of(cert_pem, key_pem) {
            Ok(m) => Ok((m, false)),
            Err(e) => Err(e),
        },
        None => {
            let names = host_names(bind, bind_text, extra_hosts);
            let ghost listed = text::texts(names@);
            let made = self_signed(names);
            let ghost drawn = made;
            let r = made_material(made);
            proof {
                assert(made_outcome(drawn, r));
                if let Some((cert, key)) = drawn {
                    assert(self_signed_for(listed, cert@, key@));
                }
            }
            r
        },
    }
}

/// A PEM in which no line opens a certificate has no fingerprint.
pub proof fn law_no_certificate_no_fingerprint(pem: Seq<u8>)
    requires
        after_begin(pem).len() == 0,
    ensures
        fingerprint_text(pem) is None,
{
}

/// A line ends at the first line feed, without it and without a carriage return before it;
/// what follows is the rest. A text without a line feed is one line.
pub proof fn law_lines_end_at_line_feeds(line: Seq<u8>, rest: Seq<u8>)
    requires
        forall|i: int| 0 <= i < line.len() ==> #[trigger] line[i] != 10,
        line.len() > 0 ==> line.last() != 13,
    ensures
        first_line(line + seq![10u8] + rest) == line,
        other_lines(line + seq![10u8] + rest) == rest,
        first_line(line + seq![13u8, 10u8] + rest) == line,
        other_lines(line + seq![13u8, 10u8] + rest) == rest,
        first_line(line) == line,
        other_lines(line).len() == 0,
{
    let n = line.len() as int;
    let a = line + seq![10u8] + rest;
    let b = line + seq![13u8, 10u8] + rest;
    assert forall|k: int| 0 <= k < n implies a[k] != 10 by {
        assert(a[k] == line[k]);
    }
    assert forall|k: int| 0 <= k < n + 1 implies b[k] != 10 by {
        if k < n {
            assert(b[k] == line[k]);
        }
    }
    lemma_line_feed(a, n);
    lemma_line_feed(b, n + 1);
    lemma_line_feed(line, n);
    assert(a.take(n) =~= line);
    assert(a.skip(n + 1) =~= rest);
    assert(b.take(n) =~= line);
    assert(b.skip(n + 2) =~= rest);
    if n > 0 {
        assert(a[n - 1] == line.last());
    }
}

/// A certificate is read line by line. Lines are passed over until one begins a certificate;
/// from the next line on, lines are put end to end until one ends it. What comes after that
/// does not count.
pub proof fn law_a_certificate_stands_between_its_marks(line: Seq<u8>, rest: Seq<u8>)
    requires
        forall|i: int| 0 <= i < line.len() ==> #[trigger] line[i] != 10,
        line.len() > 0 ==> line.last() != 13,
    ensures
        ({
            let begins = line.len() >= begin_mark().len() && line.take(begin_mark().len() as int)
                == vstd::utf8::encode_utf8("-----BEGIN CERTIFICATE-----"@);
            let ends = line.len() >= end_mark().len() && line.take(end_mark().len() as int)
                == vstd::utf8::encode_utf8("-----END CERTIFICATE-----"@);
            let b = line + seq![10u8] + rest;
            &&& begins ==> after_begin(b) == rest && pem_body(b) == until_end(rest)
            &&& !begins ==> after_begin(b) == after_begin(rest) && pem_body(b) == pem_body(rest)
            &&& ends ==> until_end(b).len() == 0
            &&& !ends ==> until_end(b) == line + until_end(rest)
        }),
{
    law_lines_end_at_line_feeds(line, rest);
    let b = line + seq![10u8] + rest;
    assert(b.len() > 0);
}

/// A PEM has a certificate exactly when it is a text, something stands between its marks, and
/// that can be decoded; the certificate is then what it is decoded to. Its fingerprint is the
/// digest of that, and of nothing else.
pub proof fn law_the_fingerprint_is_that_of_the_certificate(pem: Seq<u8>)
    ensures
        der_of(pem) is Some <==> vstd::utf8::valid_utf8(pem) && pem_body(pem).len() > 0
            && base64_decoded(pem_body(pem)) is Some,
        der_of(pem) matches Some(der) ==> base64_decoded(pem_body(pem)) == Some(der)
            && fingerprint_text(pem) == Some(colon_hex(crypto::sha256_digest(der))),
        fingerprint_text(pem) is Some <==> der_of(pem) is Some,
{
}

/// Bytes are shown in order, each as two digits in upper case with the high half first, with a
/// colon between two bytes and nowhere else.
pub proof fn law_fingerprints_are_pairs_of_digits(data: Seq<u8>, i: int)
    requires
        0 <= i < data.len(),
    ensures
        colon_hex(data).len() == 3 * data.len() - 1,
        i < data.len() - 1 ==> colon_hex(data)[3 * i + 2] == ':',
        ({
            let hi = colon_hex(data)[3 * i] as int;
            let lo = colon_hex(data)[3 * i + 1] as int;
            let h = data[i] as int / 16;
            let l = data[i] as int % 16;
            &&& hi == (if h < 10 {
                48 + h
            } else {
                55 + h
            })
            &&& lo == (if l < 10 {
                48 + l
            } else {
                55 + l
            })
        }),
{
}

/// A certificate is made for the machine itself, for the address listened on unless that is
/// the wildcard, and for every name that is asked for besides; for no other, for none twice,
/// and in order.
pub proof fn law_a_certificate_covers_its_names(
    names: Seq<Seq<char>>,
    bind: IpAddress,
    bind_text: Seq<char>,
    extra: Seq<Seq<char>>,
    t: Seq<char>,
)
    requires
        are_host_names(names, bind, bind_text, extra),
    ensures
        names.contains("localhost"@),
        names.contains("127.0.0.1"@),
        bind != IpAddress::V4(0) && bind != IpAddress::V6(0) ==> names.contains(bind_text),
        extra.contains(t) ==> names.contains(t),
        names.contains(t) && !extra.contains(t) && t != "localhost"@ && t != "127.0.0.1"@ ==> t
            == bind_text && bind != IpAddress::V4(0) && bind != IpAddress::V6(0),
        forall|i: int, j: int|
            0 <= i < j < names.len() ==> text::text_before(#[trigger] names[i], #[trigger] names[j]),
{
    assert(is_host_name("localhost"@, bind, bind_text, extra));
    assert(is_host_name("127.0.0.1"@, bind, bind_text, extra));
    assert(names.contains(bind_text) <==> is_host_name(bind_text, bind, bind_text, extra));
    assert(names.contains(t) <==> is_host_name(t, bind, bind_text, extra));
}

/// What is served is the certificate and the key at hand, each in its place, with the
/// fingerprint of that certificate. What is stored is served without being made anew; what was
/// made is said to be, so that it gets written. A certificate that cannot be read is served in
/// neither case.
pub proof fn law_what_is_served_is_what_is_there(
    cert: Vec<u8>,
    key: Vec<u8>,
    r: Result<(TlsMaterial, bool), TlsError>,
)
    ensures
        stored_outcome(cert@, key@, r) || (made_outcome(Some((cert, key)), r) && cert@.len()
            <= usize::MAX / 8) ==> {
            &&& r is Ok <==> der_of(cert@) is Some
            &&& r matches Ok((m, _)) ==> m.cert_pem@ == cert@ && m.key_pem@ == key@
                && m.fingerprint@ == colon_hex(crypto::sha256_digest(der_of(cert@)->0))
            &&& r matches Err(e) ==> e is UnreadablePem
        },
        stored_outcome(cert@, key@, r) ==> (r matches Ok((_, made)) ==> !made),
        made_outcome(Some((cert, key)), r) ==> (r matches Ok((_, made)) ==> made),
        made_outcome(None, r) ==> (r matches Err(e) && e is Generation),
        made_outcome(Some((cert, key)), r) ==> (r matches Err(e) ==> e is UnreadablePem),
        made_outcome(Some((cert, key)), r) && cert@.len() > usize::MAX / 8 ==> r is Err,
{
}

/// A fingerprint grows by a colon and two digits with every byte but the first, and that of no
/// byte is empty.
pub proof fn law_fingerprints_grow_byte_by_byte(data: Seq<u8>, b: u8)
    ensures
        data.len() == 0 ==> colon_hex(data).len() == 0,
        colon_hex(data.push(b)).len() == colon_hex(data).len() + (if data.len() == 0 {
            2int
        } else {
            3
        }),
        colon_hex(data).is_prefix_of(colon_hex(data.push(b))),
{
    assert(colon_hex(data.push(b)).take(colon_hex(data).len() as int) =~= colon_hex(data));
}

} // verus!
