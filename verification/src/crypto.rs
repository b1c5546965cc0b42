//! Signatures, digests and random numbers, as functions on plain bytes.

use ed25519_dalek::Signer;
use p256::ecdsa::signature::Verifier;
use rand::{Rng, SeedableRng, TryRngCore};
use sha2::Digest;
use subtle::ConstantTimeEq;
use vstd::prelude::*;

verus! {

/// Whether `p256::ecdsa::VerifyingKey::from_sec1_bytes` accepts these bytes.
pub uninterp spec fn p256_key_is_valid(key: Seq<u8>) -> bool;

/// Whether `p256::ecdsa::VerifyingKey::verify` accepts, under the key that
/// `key` encodes, `signature` (`r || s`) as one of `message`. False where either
/// the key or the signature does not parse.
pub uninterp spec fn p256_verifies(key: Seq<u8>, message: Seq<u8>, signature: Seq<u8>) -> bool;

/// The public key that `ed25519_dalek::SigningKey` derives from a secret.
pub uninterp spec fn ed25519_public_key(secret: Seq<u8>) -> Seq<u8>;

/// The signature that `ed25519_dalek::SigningKey` makes of a message.
pub uninterp spec fn ed25519_signature(secret: Seq<u8>, message: Seq<u8>) -> Seq<u8>;

/// The digest that `sha2::Sha256` computes.
pub uninterp spec fn sha256_digest(data: Seq<u8>) -> Seq<u8>;

/// `p256::ecdsa::VerifyingKey::from_sec1_bytes` either parses the bytes as a
/// point of the curve or refuses them, from the bytes alone.
#[verifier::external_body]
pub(crate) fn p256_key_ok(key: &[u8]) -> (ok: bool)
    ensures
        ok == p256_key_is_valid(key@),
{
    p256::ecdsa::VerifyingKey::from_sec1_bytes(key).is_ok()
}

/// `p256::ecdsa::VerifyingKey::verify` accepts or refuses a signature from the
/// key, the message and the signature alone. A key or a signature that does not
/// parse verifies nothing.
#[verifier::external_body]
pub(crate) fn p256_verify(key: &[u8], message: &[u8], signature: &[u8]) -> (ok: bool)
    ensures
        ok == p256_verifies(key@, message@, signature@),
{
    let key = p256::ecdsa::VerifyingKey::from_sec1_bytes(key);
    let signature = p256::ecdsa::Signature::from_slice(signature);
    match (key, signature) {
        (Ok(key), Ok(signature)) => key.verify(message, &signature).is_ok(),
        _ => false,
    }
}

/// `ed25519_dalek::SigningKey::verifying_key` derives the public key from the
/// secret alone.
#[verifier::external_body]
pub(crate) fn ed25519_public(secret: &[u8; 32]) -> (key: [u8; 32])
    ensures
        key@ == ed25519_public_key(secret@),
{
    ed25519_dalek::SigningKey::from_bytes(secret).verifying_key().to_bytes()
}

/// `ed25519_dalek::SigningKey::sign` computes a signature of 64 bytes from the
/// secret and the message alone.
#[verifier::external_body]
pub(crate) fn ed25519_sign(secret: &[u8; 32], message: &[u8]) -> (signature: [u8; 64])
    ensures
        signature@ == ed25519_signature(secret@, message@),
{
    ed25519_dalek::SigningKey::from_bytes(secret).sign(message).to_bytes()
}

/// `sha2::Sha256::digest` computes 32 bytes from the data alone.
#[verifier::external_body]
pub(crate) fn sha256(data: &[u8]) -> (digest: [u8; 32])
    ensures
        digest@ == sha256_digest(data@),
{
    sha2::Sha256::digest(data).into()
}

/// `subtle::ConstantTimeEq::ct_eq` on byte slices tells whether they have the
/// same length and the same bytes.
#[verifier::external_body]
pub(crate) fn constant_time_eq(a: &[u8], b: &[u8]) -> (same: bool)
    ensures
        same == (a@ == b@),
{
    a.ct_eq(b).into()
}

/// `rand::rngs::OsRng::try_fill_bytes` fills a buffer from the system's generator,
/// or reports that it is not available. Nothing is claimed of the bytes. The buffer is
/// one that can be allocated.
#[verifier::external_body]
fn os_random(len: usize) -> (r: Option<Vec<u8>>)
    requires
        len <= 0x7FFF_FFFF,
    ensures
        r matches Some(bytes) ==> bytes@.len() == len,
{
    let mut bytes = vec![0u8; len];
    match rand::rngs::OsRng.try_fill_bytes(&mut bytes) {
        Ok(()) => Some(bytes),
        Err(_) => None,
    }
}

/// `rand::SeedableRng::try_from_os_rng` makes a `rand::rngs::StdRng` with a seed from
/// the system's generator, or reports that it is not available;
/// `rand::Rng::random_range` then draws a number between two bounds, both of which may
/// come. Nothing else is claimed of the number.
#[verifier::external_body]
pub(crate) fn random_between(low: u32, high: u32) -> (r: Option<u32>)
    requires
        low <= high,
    ensures
        r matches Some(n) ==> low <= n <= high,
{
    match rand::rngs::StdRng::try_from_os_rng() {
        Ok(mut rng) => Some(rng.random_range(low..=high)),
        Err(_) => None,
    }
}

/// The bytes of a draw, if there are any.
pub open spec fn draw_view(drawn: Option<Vec<u8>>) -> Option<Seq<u8>> {
    match drawn {
        Some(bytes) => Some(bytes@),
        None => None,
    }
}

/// The system's random generator, with a record of what it gave.
pub struct Generator {
    given: Ghost<Seq<Option<Seq<u8>>>>,
}

impl Generator {
    /// What the generator gave, draw after draw (`None`: it was not available).
    pub closed spec fn given(&self) -> Seq<Option<Seq<u8>>> {
        self.given@
    }

    /// The generator, before any draw.
    pub fn new() -> (g: Generator)
        ensures
            g.given() == Seq::<Option<Seq<u8>>>::empty(),
    {
        Generator { given: Ghost(Seq::empty()) }
    }

    /// Draws `len` bytes. Whether they come, and which, is up to the system.
    pub fn draw(&mut self, len: usize) -> (r: Option<Vec<u8>>)
        requires
            len <= 0x7FFF_FFFF,
        ensures
            r matches Some(bytes) ==> bytes@.len() == len,
            final(self).given() == old(self).given().push(draw_view(r)),
    {
        let drawn = os_random(len);
        self.given = Ghost(self.given@.push(draw_view(drawn)));
        drawn
    }
}

} // verus!
