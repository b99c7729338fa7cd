//! The cryptographic functions that the protocol rests on.
//!
//! Each is computed by an outside crate. The specification functions without
//! a body name their results; nothing is said of those results beyond the few
//! facts that stand beside the calls.
use vstd::prelude::*;

verus! {

/// The SHA-256 digest of a byte string, as `sha2::Sha256` computes it.
pub uninterp spec fn sha256_of(data: Seq<u8>) -> Seq<u8>;

/// Calls `sha2::Sha256::digest`. The digest depends on the bytes alone.
#[verifier::external_body]
pub(crate) fn sha256(data: &[u8]) -> (r: [u8; 32])
    ensures
        r@ == sha256_of(data@),
{
    <sha2::Sha256 as sha2::Digest>::digest(data).into()
}

/// What the URL-safe base64 engine without padding reads out of a text, if it
/// accepts the text.
pub uninterp spec fn base64url_decoded(text: Seq<char>) -> Option<Seq<u8>>;

/// What the URL-safe base64 engine without padding writes for a byte string.
pub uninterp spec fn base64url_encoded(data: Seq<u8>) -> Seq<char>;

/// Calls `decode` of base64's `URL_SAFE_NO_PAD` engine, whose result depends on
/// the text alone.
#[verifier::external_body]
pub(crate) fn base64url_decode(text: &str) -> (r: Option<Vec<u8>>)
    ensures
        match r {
            Some(bytes) => base64url_decoded(text@) == Some(bytes@),
            None => base64url_decoded(text@) is None,
        },
{
    base64::Engine::decode(&base64::engine::general_purpose::URL_SAFE_NO_PAD, text).ok()
}

/// Calls `encode` of base64's `URL_SAFE_NO_PAD` engine, whose result depends on
/// the bytes alone.
#[verifier::external_body]
pub(crate) fn base64url_encode(data: &[u8]) -> (r: String)
    ensures
        r@ == base64url_encoded(data@),
{
    base64::Engine::encode(&base64::engine::general_purpose::URL_SAFE_NO_PAD, data)
}

/// Calls `ct_eq` of `subtle::ConstantTimeEq` for byte slices, which is true
/// exactly where the slices hold the same bytes.
#[verifier::external_body]
pub(crate) fn constant_time_eq(a: &[u8], b: &[u8]) -> (r: bool)
    ensures
        r == (a@ == b@),
{
    bool::from(subtle::ConstantTimeEq::ct_eq(a, b))
}

/// Calls `zeroize` of `zeroize::Zeroize` for an array of bytes, which sets every
/// byte to zero.
#[verifier::external_body]
pub(crate) fn wipe(bytes: &mut [u8; 32])
    ensures
        forall|i: int| 0 <= i < 32 ==> #[trigger] final(bytes)@[i] == 0u8,
    opens_invariants none
    no_unwind
{
    zeroize::Zeroize::zeroize(bytes);
}

/// Calls `zeroize` of `zeroize::Zeroize` for a vector of bytes, which overwrites
/// the bytes and leaves the vector empty.
#[verifier::external_body]
pub(crate) fn wipe_buffer(bytes: &mut Vec<u8>)
    ensures
        final(bytes)@ == Seq::<u8>::empty(),
{
    zeroize::Zeroize::zeroize(bytes);
}

/// The seed of a signing key.
pub(crate) struct Seed {
    bytes: [u8; 32],
}

impl View for Seed {
    type V = Seq<u8>;

    closed spec fn view(&self) -> Seq<u8> {
        self.bytes@
    }
}

impl Seed {
    pub(crate) fn new(bytes: [u8; 32]) -> (r: Self)
        ensures
            r@ == bytes@,
    {
        Seed { bytes }
    }

    pub(crate) fn as_bytes(&self) -> (r: &[u8; 32])
        ensures
            r@ == self@,
    {
        &self.bytes
    }
}

impl Drop for Seed {
    /// A seed does not stay in memory.
    fn drop(&mut self)
        ensures
            forall|i: int| 0 <= i < 32 ==> #[trigger] final(self)@[i] == 0u8,
        opens_invariants none
        no_unwind
    {
        wipe(&mut self.bytes);
    }
}

/// Calls `getrandom::fill`. Nothing is promised of the bytes, nor of success.
#[verifier::external_body]
pub(crate) fn random_array<const N: usize>() -> (r: Option<[u8; N]>)
{
    let mut bytes = [0u8; N];
    match getrandom::fill(&mut bytes) {
        Ok(()) => Some(bytes),
        Err(_) => None,
    }
}

/// The Ed25519 public key of a seed.
pub uninterp spec fn ed25519_public(seed: Seq<u8>) -> Seq<u8>;

/// The Ed25519 signature that the key of a seed makes on a message.
pub uninterp spec fn ed25519_signature(seed: Seq<u8>, message: Seq<u8>) -> Seq<u8>;

/// Whether thirty-two bytes are the encoding of an Ed25519 public key.
pub uninterp spec fn ed25519_point(public: Seq<u8>) -> bool;

/// Whether a public key accepts a signature on a message.
pub uninterp spec fn ed25519_accepts(public: Seq<u8>, message: Seq<u8>, signature: Seq<u8>) -> bool;

/// Calls `SigningKey::from_bytes` and `verifying_key` of `ed25519_dalek`. The
/// public key depends on the seed alone and is the encoding of a curve point.
#[verifier::external_body]
pub(crate) fn ed25519_public_key(seed: &[u8; 32]) -> (r: [u8; 32])
    ensures
        r@ == ed25519_public(seed@),
        ed25519_point(r@),
{
    ed25519_dalek::SigningKey::from_bytes(seed).verifying_key().to_bytes()
}

/// Calls `Signer::sign` of an `ed25519_dalek` signing key. Signing is
/// deterministic, and the key's own public key accepts the signature.
#[verifier::external_body]
pub(crate) fn ed25519_sign(seed: &[u8; 32], message: &[u8]) -> (r: [u8; 64])
    ensures
        r@ == ed25519_signature(seed@, message@),
        ed25519_accepts(ed25519_public(seed@), message@, r@),
{
    ed25519_dalek::Signer::sign(&ed25519_dalek::SigningKey::from_bytes(seed), message).to_bytes()
}

/// Calls `VerifyingKey::from_bytes` of `ed25519_dalek`, which depends on the
/// bytes alone.
#[verifier::external_body]
pub(crate) fn ed25519_is_point(public: &[u8; 32]) -> (r: bool)
    ensures
        r == ed25519_point(public@),
{
    ed25519_dalek::VerifyingKey::from_bytes(public).is_ok()
}

/// Calls `Verifier::verify` of an `ed25519_dalek` verifying key, which depends
/// on key, message and signature alone.
#[verifier::external_body]
pub(crate) fn ed25519_verify(public: &[u8; 32], message: &[u8], signature: &[u8; 64]) -> (r: bool)
    requires
        ed25519_point(public@),
    ensures
        r == ed25519_accepts(public@, message@, signature@),
{
    let signature = ed25519_dalek::Signature::from_bytes(signature);
    match ed25519_dalek::VerifyingKey::from_bytes(public) {
        Ok(key) => ed25519_dalek::Verifier::verify(&key, message, &signature).is_ok(),
        Err(_) => false,
    }
}

} // verus!
