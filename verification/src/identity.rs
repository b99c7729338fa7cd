//! The identity of a node.
use crate::crypto::{sha256, sha256_of};
use crate::hex::{hex, hex_text};
use crate::peer::{peer_id_bytes, PeerId};
use crate::secret_file::SecretFileError;
use vstd::prelude::*;

verus! {

/// The kind of a key pair.
#[derive(Clone, Copy, Debug, PartialEq, Eq, Structural)]
pub enum KeyKind {
    Ed25519,
    Rsa,
    Secp256k1,
    Ecdsa,
}

/// The kind of the key pair whose protobuf form is `bytes`; `None` where
/// `libp2p_identity` does not accept the bytes.
pub uninterp spec fn keypair_kind(bytes: Seq<u8>) -> Option<KeyKind>;

/// The protobuf form of the public key of the key pair whose protobuf form is
/// `bytes`.
pub uninterp spec fn keypair_public_key(bytes: Seq<u8>) -> Seq<u8>;

/// The bytes of the peer of the key pair whose protobuf form is `bytes`.
pub uninterp spec fn keypair_peer(bytes: Seq<u8>) -> Seq<u8>;

/// Calls `Keypair::from_protobuf_encoding` of `libp2p_identity` and hands out the
/// `key_type` of what it accepts. The answer depends on the bytes alone.
#[verifier::external_body]
fn kind_of_keypair(bytes: &[u8]) -> (r: Option<KeyKind>)
    ensures
        r == keypair_kind(bytes@),
{
    let keypair = libp2p_identity::Keypair::from_protobuf_encoding(bytes).ok()?;
    Some(match keypair.key_type() {
        libp2p_identity::KeyType::Ed25519 => KeyKind::Ed25519,
        libp2p_identity::KeyType::RSA => KeyKind::Rsa,
        libp2p_identity::KeyType::Secp256k1 => KeyKind::Secp256k1,
        libp2p_identity::KeyType::Ecdsa => KeyKind::Ecdsa,
    })
}

/// Calls `Keypair::public` of `libp2p_identity` on an accepted key pair, and
/// `PublicKey::encode_protobuf` on the public key. The answer depends on the
/// bytes alone.
#[verifier::external_body]
fn public_key(bytes: &[u8]) -> (r: Vec<u8>)
    requires
        keypair_kind(bytes@) is Some,
    ensures
        r@ == keypair_public_key(bytes@),
{
    let keypair = libp2p_identity::Keypair::from_protobuf_encoding(bytes).unwrap();
    keypair.public().encode_protobuf()
}

/// Calls `PeerId::from_public_key` of `libp2p_identity` on the public key of an
/// accepted key pair. The answer depends on the bytes alone, and it is one that
/// `PeerId::from_bytes` accepts.
#[verifier::external_body]
fn peer_bytes(bytes: &[u8]) -> (r: Vec<u8>)
    requires
        keypair_kind(bytes@) is Some,
    ensures
        r@ == keypair_peer(bytes@),
        peer_id_bytes(r@),
{
    let keypair = libp2p_identity::Keypair::from_protobuf_encoding(bytes).unwrap();
    libp2p_identity::PeerId::from_public_key(&keypair.public()).to_bytes()
}

/// Who a node is.
#[derive(Debug)]
pub struct LoadedIdentity {
    pub peer_id: PeerId,
    /// The digest of the public key in hexadecimal digits.
    pub fingerprint: String,
}

#[derive(Clone, Copy, Debug, PartialEq, Eq, Structural)]
pub enum FileFailure {
    /// The system could not read or write the file.
    Io,
    Rule(SecretFileError),
}

#[derive(Clone, Copy, Debug, PartialEq, Eq, Structural)]
pub enum IdentityError {
    File(FileFailure),
    InvalidEncoding,
    MissingWithoutGeneration,
}

/// Whether bytes are the key pair of an identity.
pub open spec fn is_identity(bytes: Seq<u8>) -> bool {
    keypair_kind(bytes) == Some(KeyKind::Ed25519)
}

impl LoadedIdentity {
    /// The identity in the content of its file. Only Ed25519 keys are
    /// identities.
    pub fn decode(bytes: &[u8]) -> (r: Result<Self, IdentityError>)
        ensures
            match r {
                Ok(identity) => is_identity(bytes@) && identity.peer_id@ == keypair_peer(bytes@)
                    && identity.fingerprint@ == hex_text(sha256_of(keypair_public_key(bytes@))),
                Err(error) => error == IdentityError::InvalidEncoding && !is_identity(bytes@),
            },
    {
        match kind_of_keypair(bytes) {
            Some(KeyKind::Ed25519) => {},
            _ => return Err(IdentityError::InvalidEncoding),
        }
        match PeerId::from_bytes(peer_bytes(bytes).as_slice()) {
            Ok(peer_id) => {
                let digest = sha256(public_key(bytes).as_slice());
                Ok(LoadedIdentity { peer_id, fingerprint: hex(&digest) })
            },
            Err(_) => Err(IdentityError::InvalidEncoding),
        }
    }
}

/// What came of reading or writing a file.
#[derive(Clone, Copy, Debug, PartialEq, Eq, Structural)]
pub enum FileOutcome {
    Done,
    NotFound,
    AlreadyExists,
    Failed(FileFailure),
}

/// What is to be done next for an identity.
#[derive(Clone, Copy, Debug, PartialEq, Eq, Structural)]
pub enum IdentityStep {
    /// Take what the file holds.
    Decode,
    /// Make a new key and write it.
    Generate,
    /// Read the file that another process has written meanwhile.
    ReadAgain,
    Fail(IdentityError),
}

/// What follows an attempt to read the file of an identity.
pub fn after_read(outcome: FileOutcome, generate_if_missing: bool) -> (r: IdentityStep)
    ensures
        r == match outcome {
            FileOutcome::Done => IdentityStep::Decode,
            FileOutcome::NotFound => if generate_if_missing {
                IdentityStep::Generate
            } else {
                IdentityStep::Fail(IdentityError::MissingWithoutGeneration)
            },
            FileOutcome::AlreadyExists => IdentityStep::Fail(IdentityError::File(FileFailure::Io)),
            FileOutcome::Failed(failure) => IdentityStep::Fail(IdentityError::File(failure)),
        },
{
    match outcome {
        FileOutcome::Done => IdentityStep::Decode,
        FileOutcome::NotFound => if generate_if_missing {
            IdentityStep::Generate
        } else {
            IdentityStep::Fail(IdentityError::MissingWithoutGeneration)
        },
        FileOutcome::AlreadyExists => IdentityStep::Fail(IdentityError::File(FileFailure::Io)),
        FileOutcome::Failed(failure) => IdentityStep::Fail(IdentityError::File(failure)),
    }
}

/// What follows an attempt to write the file of a new identity. A file that is
/// there by now is read, and no second key is made.
pub fn after_write(outcome: FileOutcome) -> (r: IdentityStep)
    ensures
        r == match outcome {
            FileOutcome::Done => IdentityStep::Decode,
            FileOutcome::AlreadyExists => IdentityStep::ReadAgain,
            FileOutcome::NotFound => IdentityStep::Fail(IdentityError::File(FileFailure::Io)),
            FileOutcome::Failed(failure) => IdentityStep::Fail(IdentityError::File(failure)),
        },
{
    match outcome {
        FileOutcome::Done => IdentityStep::Decode,
        FileOutcome::AlreadyExists => IdentityStep::ReadAgain,
        FileOutcome::NotFound => IdentityStep::Fail(IdentityError::File(FileFailure::Io)),
        FileOutcome::Failed(failure) => IdentityStep::Fail(IdentityError::File(failure)),
    }
}

/// Only an Ed25519 key is an identity, and it goes by the peer and the digest of
/// the public key that belong to it.
pub proof fn law_identities_are_ed25519_keys(bytes: &[u8], r: Result<LoadedIdentity, IdentityError>)
    requires
        call_ensures(LoadedIdentity::decode, (bytes,), r),
    ensures
        r is Ok <==> keypair_kind(bytes@) == Some(KeyKind::Ed25519),
        r matches Ok(identity) ==> identity.peer_id@ == keypair_peer(bytes@) && identity.fingerprint@
            == hex_text(sha256_of(keypair_public_key(bytes@))),
        r matches Err(error) ==> error == IdentityError::InvalidEncoding,
{
}

/// A key is made only where there is none and that is wanted. A file that cannot
/// be read is never replaced.
pub proof fn law_keys_are_made_only_where_there_are_none(
    outcome: FileOutcome,
    generate_if_missing: bool,
    r: IdentityStep,
)
    requires
        call_ensures(after_read, (outcome, generate_if_missing), r),
    ensures
        r == IdentityStep::Decode <==> outcome == FileOutcome::Done,
        r == IdentityStep::Generate <==> outcome == FileOutcome::NotFound && generate_if_missing,
        outcome == FileOutcome::NotFound && !generate_if_missing ==> r == IdentityStep::Fail(
            IdentityError::MissingWithoutGeneration,
        ),
        outcome matches FileOutcome::Failed(failure) ==> r == IdentityStep::Fail(
            IdentityError::File(failure),
        ),
        outcome == FileOutcome::AlreadyExists ==> r is Fail,
{
}

/// Of two processes that make a key at once, the one that comes second takes the
/// key of the first.
pub proof fn law_one_key_is_kept(outcome: FileOutcome, r: IdentityStep)
    requires
        call_ensures(after_write, (outcome,), r),
    ensures
        r == IdentityStep::ReadAgain <==> outcome == FileOutcome::AlreadyExists,
        r == IdentityStep::Decode <==> outcome == FileOutcome::Done,
        r != IdentityStep::Generate,
        outcome matches FileOutcome::Failed(failure) ==> r == IdentityStep::Fail(
            IdentityError::File(failure),
        ),
        outcome == FileOutcome::NotFound ==> r == IdentityStep::Fail(IdentityError::File(FileFailure::Io)),
{
}

} // verus!
