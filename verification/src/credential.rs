//! Fixed tokens: the secrets with which peers authenticate.
use crate::bytes::to_array;
use crate::crypto::{
    base64url_decode, base64url_decoded, constant_time_eq, sha256, sha256_of, wipe, wipe_buffer,
};
use crate::ids::{id_text, CredentialId};
use crate::text::same_text;
use vstd::prelude::*;
use vstd::string::{StrSliceExecFns, StringExecFns};
use vstd::utf8::encode_utf8;

verus! {

#[derive(Clone, Copy, Debug, PartialEq, Eq, Structural)]
pub enum CredentialError {
    Invalid,
}

/// A secret of thirty-two bytes. It is not shown when printed.
pub struct TokenSecret {
    bytes: [u8; 32],
}

impl View for TokenSecret {
    type V = [u8; 32];

    closed spec fn view(&self) -> [u8; 32] {
        self.bytes
    }
}

/// The written form of a credential: a fixed prefix, the identifier and the
/// encoded secret, separated by dots.
pub open spec fn token_text(id: Seq<char>, encoded: Seq<char>) -> Seq<char> {
    "p2x1."@ + (id + ("."@ + encoded))
}

/// Whether a text holds no dot.
pub open spec fn dotless(s: Seq<char>) -> bool {
    forall|i: int| 0 <= i < s.len() ==> #[trigger] s[i] != '.'
}

/// Whether `text` is the credential `id` with the given secret, written as
/// `encoded`.
pub open spec fn writes_token(text: Seq<char>, id: Seq<char>, encoded: Seq<char>, secret: [u8; 32]) -> bool {
    &&& text == token_text(id, encoded)
    &&& id_text(id)
    &&& dotless(encoded)
    &&& base64url_decoded(encoded) == Some(secret@)
}

/// Whether `text` is a written form of the credential `id` with the given
/// secret.
pub open spec fn is_token(text: Seq<char>, id: Seq<char>, secret: [u8; 32]) -> bool {
    exists|encoded: Seq<char>| writes_token(text, id, encoded, secret)
}

/// What is hashed of a secret.
pub open spec fn digest_message(secret: Seq<u8>) -> Seq<u8> {
    encode_utf8("p2x-fixed-token-v1\0"@) + secret
}

/// The place of the first dot at or after `from`.
fn find_dot(text: &str, from: usize) -> (r: Option<usize>)
    requires
        from <= text@.len(),
    ensures
        match r {
            Some(i) => from <= i < text@.len() && text@[i as int] == '.' && forall|j: int|
                from <= j < i ==> text@[j] != '.',
            None => forall|j: int| from <= j < text@.len() ==> text@[j] != '.',
        },
{
    let length: usize = text.unicode_len();
    let mut i: usize = from;
    while i < length
        invariant
            from <= i <= length,
            length == text@.len(),
            forall|j: int| from <= j < i ==> text@[j] != '.',
        decreases length - i,
    {
        if text.get_char(i) == '.' {
            return Some(i);
        }
        i = i + 1;
    }
    None
}

/// In the written form of a credential the dots stand where the parts meet.
proof fn lemma_token_dots(id: Seq<char>, encoded: Seq<char>)
    requires
        id_text(id),
        dotless(encoded),
    ensures
        token_text(id, encoded).len() == 6 + id.len() + encoded.len(),
        token_text(id, encoded).subrange(0, 4) == "p2x1"@,
        token_text(id, encoded).subrange(5, 5 + id.len() as int) == id,
        token_text(id, encoded).subrange(6 + id.len() as int, 6 + id.len() + encoded.len() as int)
            == encoded,
        forall|i: int|
            0 <= i < token_text(id, encoded).len() ==> (#[trigger] token_text(id, encoded)[i] == '.'
                <==> (i == 4 || i == 5 + id.len())),
{
    reveal_strlit("p2x1.");
    reveal_strlit("p2x1");
    reveal_strlit(".");
    let t = token_text(id, encoded);
    assert(t.subrange(0, 4) =~= "p2x1"@);
    assert(t.subrange(5, 5 + id.len() as int) =~= id);
    assert(t.subrange(6 + id.len() as int, 6 + id.len() + encoded.len() as int) =~= encoded);
    assert forall|i: int| 0 <= i < t.len() implies (#[trigger] t[i] == '.' <==> (i == 4 || i == 5
        + id.len())) by {
        if 5 <= i < 5 + id.len() {
            assert(t[i] == id[i - 5]);
            assert(crate::ids::id_char(id[i - 5]));
        } else if i >= 6 + id.len() {
            assert(t[i] == encoded[i - 6 - id.len()]);
        }
    }
}

impl TokenSecret {
    pub fn from_bytes(bytes: [u8; 32]) -> (r: Self)
        ensures
            r@ == bytes,
    {
        TokenSecret { bytes }
    }

    /// Reads the written form of a credential.
    pub fn parse(value: &str) -> (r: Result<(CredentialId, Self), CredentialError>)
        ensures
            match r {
                Ok((id, secret)) => is_token(value@, id@, secret@),
                Err(_) => forall|id: Seq<char>, secret: [u8; 32]| !is_token(value@, id, secret),
            },
    {
        proof {
            assert forall|id: Seq<char>, encoded: Seq<char>, secret: [u8; 32]|
                writes_token(value@, id, encoded, secret) implies id_text(id) && dotless(encoded)
                && value@.len() == 6 + id.len() + encoded.len() && value@.subrange(0, 4) == "p2x1"@
                && value@.subrange(5, 5 + id.len() as int) == id && value@.subrange(
                6 + id.len() as int,
                6 + id.len() + encoded.len() as int,
            ) == encoded && (forall|i: int|
                0 <= i < value@.len() ==> (#[trigger] value@[i] == '.' <==> (i == 4 || i == 5
                    + id.len()))) by {
                lemma_token_dots(id, encoded);
            }
        }
        let length: usize = value.unicode_len();
        let first: usize = match find_dot(value, 0) {
            Some(i) => i,
            None => {
                assert forall|id: Seq<char>, encoded: Seq<char>, secret: [u8; 32]|
                    !writes_token(value@, id, encoded, secret) by {
                    if writes_token(value@, id, encoded, secret) {
                        assert(value@[4] == '.');
                    }
                }
                return Err(CredentialError::Invalid);
            },
        };
        let prefix = value.substring_char(0, first);
        if !same_text(prefix, "p2x1") {
            assert forall|id: Seq<char>, encoded: Seq<char>, secret: [u8; 32]|
                !writes_token(value@, id, encoded, secret) by {
                if writes_token(value@, id, encoded, secret) {
                    assert(value@[4] == '.');
                    assert(value@[first as int] == '.');
                    assert(first == 4);
                }
            }
            return Err(CredentialError::Invalid);
        }
        proof {
            reveal_strlit("p2x1");
            assert(prefix@.len() == 4);
        }
        let second: usize = match find_dot(value, first + 1) {
            Some(i) => i,
            None => {
                assert forall|id: Seq<char>, encoded: Seq<char>, secret: [u8; 32]|
                    !writes_token(value@, id, encoded, secret) by {
                    if writes_token(value@, id, encoded, secret) {
                        assert(value@[5 + id.len() as int] == '.');
                    }
                }
                return Err(CredentialError::Invalid);
            },
        };
        assert forall|id: Seq<char>, encoded: Seq<char>, secret: [u8; 32]|
            writes_token(value@, id, encoded, secret) implies second == 5 + id.len() by {
            assert(value@[second as int] == '.');
            assert(value@[5 + id.len() as int] == '.');
        }
        match find_dot(value, second + 1) {
            Some(third) => {
                assert forall|id: Seq<char>, encoded: Seq<char>, secret: [u8; 32]|
                    !writes_token(value@, id, encoded, secret) by {
                    if writes_token(value@, id, encoded, secret) {
                        assert(value@[third as int] == '.');
                    }
                }
                return Err(CredentialError::Invalid);
            },
            None => {},
        }
        let id_part = value.substring_char(first + 1, second);
        let encoded = value.substring_char(second + 1, length);
        let id = match CredentialId::new(id_part) {
            Ok(id) => id,
            Err(_) => return Err(CredentialError::Invalid),
        };
        let mut decoded = match base64url_decode(encoded) {
            Some(decoded) => decoded,
            None => return Err(CredentialError::Invalid),
        };
        if decoded.len() != 32 {
            wipe_buffer(&mut decoded);
            return Err(CredentialError::Invalid);
        }
        let bytes: [u8; 32] = to_array(decoded.as_slice());
        wipe_buffer(&mut decoded);
        proof {
            reveal_strlit("p2x1.");
            reveal_strlit(".");
            assert(value@ =~= token_text(id@, encoded@)) by {
                assert(value@.subrange(0, 4) == "p2x1"@);
                assert forall|i: int| 0 <= i < 4 implies value@[i] == "p2x1"@[i] by {
                    assert(value@.subrange(0, 4)[i] == value@[i]);
                }
            }
            assert(dotless(encoded@)) by {
                assert forall|i: int| 0 <= i < encoded@.len() implies #[trigger] encoded@[i] != '.' by {
                    assert(encoded@[i] == value@[second + 1 + i]);
                }
            }
        }
        let secret = TokenSecret { bytes };
        assert(writes_token(value@, id@, encoded@, secret@));
        assert(is_token(value@, id@, secret@));
        Ok((id, secret))
    }

    pub fn as_bytes(&self) -> (r: &[u8; 32])
        ensures
            *r == self@,
    {
        &self.bytes
    }

    /// The digest under which the exchange knows the secret.
    pub fn digest(&self) -> (r: TokenDigest)
        ensures
            r@@ == sha256_of(digest_message(self@@)),
    {
        let mut message: Vec<u8> = Vec::with_capacity(64);
        crate::bytes::put_bytes(&mut message, "p2x-fixed-token-v1\0".as_bytes());
        assert(message@ =~= vstd::utf8::encode_utf8("p2x-fixed-token-v1\0"@));
        crate::bytes::put_bytes(&mut message, &self.bytes);
        let bytes: [u8; 32] = sha256(message.as_slice());
        wipe_buffer(&mut message);
        TokenDigest { bytes }
    }

    /// What may be printed of a secret.
    pub fn redacted(&self) -> (r: String)
        ensures
            r@ == "TokenSecret(REDACTED)"@,
    {
        String::from_str("TokenSecret(REDACTED)")
    }
}

impl Drop for TokenSecret {
    /// A secret does not stay in memory.
    fn drop(&mut self)
        ensures
            forall|i: int| 0 <= i < 32 ==> #[trigger] final(self)@@[i] == 0u8,
        opens_invariants none
        no_unwind
    {
        wipe(&mut self.bytes);
    }
}

/// The digest of a secret.
#[derive(PartialEq, Eq)]
pub struct TokenDigest {
    bytes: [u8; 32],
}

impl View for TokenDigest {
    type V = [u8; 32];

    closed spec fn view(&self) -> [u8; 32] {
        self.bytes
    }
}

impl Clone for TokenDigest {
    fn clone(&self) -> (r: Self)
        ensures
            r@ == self@,
    {
        TokenDigest { bytes: self.bytes }
    }
}

impl Drop for TokenDigest {
    /// A digest does not stay in memory either.
    fn drop(&mut self)
        ensures
            forall|i: int| 0 <= i < 32 ==> #[trigger] final(self)@@[i] == 0u8,
        opens_invariants none
        no_unwind
    {
        wipe(&mut self.bytes);
    }
}

impl TokenDigest {
    pub fn from_bytes(bytes: [u8; 32]) -> (r: Self)
        ensures
            r@ == bytes,
    {
        TokenDigest { bytes }
    }

    pub fn as_bytes(&self) -> (r: &[u8; 32])
        ensures
            *r == self@,
    {
        &self.bytes
    }

    /// Whether this is the digest of `secret`.
    pub fn matches(&self, secret: &TokenSecret) -> (r: bool)
        ensures
            r == (self@@ == sha256_of(digest_message(secret@@))),
    {
        let digest = secret.digest();
        constant_time_eq(&self.bytes, &digest.bytes)
    }

    /// What may be printed of a digest.
    pub fn redacted(&self) -> (r: String)
        ensures
            r@ == "TokenDigest(REDACTED)"@,
    {
        String::from_str("TokenDigest(REDACTED)")
    }
}

/// A credential is written with its prefix, its identifier and its encoded
/// secret, and a text is the written form of one credential at most.
pub proof fn law_tokens_name_one_credential(
    text: Seq<char>,
    id: Seq<char>,
    secret: [u8; 32],
    other_id: Seq<char>,
    other_secret: [u8; 32],
)
    requires
        is_token(text, id, secret),
    ensures
        id_text(id),
        exists|encoded: Seq<char>|
            (forall|i: int| 0 <= i < encoded.len() ==> #[trigger] encoded[i] != '.') && #[trigger]
            base64url_decoded(encoded) == Some(secret@) && text == "p2x1."@ + id + "."@ + encoded,
        is_token(text, other_id, other_secret) ==> other_id == id && other_secret@ == secret@,
{
    let encoded = choose|encoded: Seq<char>| writes_token(text, id, encoded, secret);
    assert(text =~= "p2x1."@ + id + "."@ + encoded);
    assert(base64url_decoded(encoded) == Some(secret@));
    lemma_token_dots(id, encoded);
    if is_token(text, other_id, other_secret) {
        let other = choose|other: Seq<char>| writes_token(text, other_id, other, other_secret);
        lemma_token_dots(other_id, other);
        assert(text[5 + id.len() as int] == '.');
        assert(text[5 + other_id.len() as int] == '.');
        assert(id.len() == other_id.len());
    }
}

/// Whatever has the written form of a credential is one.
pub proof fn law_written_credentials_are_tokens(
    id: Seq<char>,
    encoded: Seq<char>,
    secret: [u8; 32],
)
    requires
        id_text(id),
        forall|i: int| 0 <= i < encoded.len() ==> #[trigger] encoded[i] != '.',
        base64url_decoded(encoded) == Some(secret@),
    ensures
        is_token("p2x1."@ + id + "."@ + encoded, id, secret),
{
    let text = "p2x1."@ + id + "."@ + encoded;
    assert(text =~= token_text(id, encoded));
    assert(writes_token(text, id, encoded, secret));
}

/// A digest is that of the secret after the name of what it is for, and it
/// matches the secret it was taken of.
pub proof fn law_digests_match_their_secrets(
    secret: TokenSecret,
    digest: TokenDigest,
    other: TokenSecret,
    r: bool,
)
    requires
        call_ensures(TokenSecret::digest, (&secret,), digest),
        call_ensures(TokenDigest::matches, (&digest, &other), r),
    ensures
        digest@@ == sha256_of(encode_utf8("p2x-fixed-token-v1\0"@) + secret@@),
        r <==> digest@@ == sha256_of(encode_utf8("p2x-fixed-token-v1\0"@) + other@@),
        other@@ == secret@@ ==> r,
{
}

} // verus!
