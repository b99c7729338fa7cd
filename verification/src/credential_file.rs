//! The file of fixed tokens that an exchange goes by.
use crate::clock::{clamp_i64, saturating_sub};
use crate::credential::{is_token, TokenDigest, TokenSecret};
use crate::crypto::{base64url_decode, base64url_decoded, base64url_encode, base64url_encoded};
use crate::ids::{id_text, CredentialId, QuotaProfile, Tenant};
use crate::peer::{peer_id_of_text, PeerId};
use crate::text::same_text;
use vstd::prelude::*;
use vstd::string::StringExecFns;
use vstd::utf8::encode_utf8;

verus! {

/// How many credentials a file may hold.
pub const MAX_CREDENTIALS: usize = 256;

/// The length of the longest file that is read.
pub const MAX_CREDENTIAL_FILE: u64 = 524_288;

/// The longest life of a credential in seconds.
pub const MAX_CREDENTIAL_LIFE: i64 = 34_560_000;

#[derive(Clone, Copy, Debug, PartialEq, Eq, Structural)]
pub enum CredentialRole {
    Client,
    Server,
}

/// A credential as the file holds it.
pub struct CredentialRecord {
    pub credential_id: String,
    pub token_sha256: String,
    pub peer_id: String,
    pub tenant: String,
    pub role: CredentialRole,
    pub scopes: Vec<String>,
    pub quota_profile: String,
    pub not_before: i64,
    pub expires_at: i64,
    pub revoked: bool,
}

#[verifier::ext_equal]
pub struct RecordModel {
    pub credential_id: Seq<char>,
    pub token_sha256: Seq<char>,
    pub peer_id: Seq<char>,
    pub tenant: Seq<char>,
    pub role: CredentialRole,
    pub scopes: Seq<Seq<char>>,
    pub quota_profile: Seq<char>,
    pub not_before: i64,
    pub expires_at: i64,
    pub revoked: bool,
}

/// The texts of a list.
pub open spec fn texts(list: Seq<String>) -> Seq<Seq<char>> {
    Seq::new(list.len(), |i: int| list[i]@)
}

impl View for CredentialRecord {
    type V = RecordModel;

    open spec fn view(&self) -> RecordModel {
        RecordModel {
            credential_id: self.credential_id@,
            token_sha256: self.token_sha256@,
            peer_id: self.peer_id@,
            tenant: self.tenant@,
            role: self.role,
            scopes: texts(self.scopes@),
            quota_profile: self.quota_profile@,
            not_before: self.not_before,
            expires_at: self.expires_at,
            revoked: self.revoked,
        }
    }
}

impl CredentialRecord {
    /// What may be shown of a record: whose it is, and not the digest of its
    /// token.
    pub fn redacted(&self) -> (r: String)
        ensures
            r@ == "CredentialRecord { credential_id: "@ + self@.credential_id + ", peer_id: "@
                + self@.peer_id + ", tenant: "@ + self@.tenant + ", token_sha256: REDACTED }"@,
    {
        let mut text = String::from_str("CredentialRecord { credential_id: ");
        text.append(self.credential_id.as_str());
        text.append(", peer_id: ");
        text.append(self.peer_id.as_str());
        text.append(", tenant: ");
        text.append(self.tenant.as_str());
        text.append(", token_sha256: REDACTED }");
        text
    }
}

/// The file of the credentials.
pub struct FixedTokenFile {
    pub schema_version: u16,
    pub authorization_revision: u64,
    pub credentials: Vec<CredentialRecord>,
}

/// What the records of a list say.
pub open spec fn record_models(records: Seq<CredentialRecord>) -> Seq<RecordModel> {
    Seq::new(records.len(), |i: int| records[i]@)
}

#[derive(Clone, Copy, Debug, PartialEq, Eq)]
pub enum CredentialConfigError {
    Invalid(&'static str),
    /// The environment does not hold the credential.
    MissingEnvironment,
}

/// The bit of a scope by its name.
pub open spec fn scope_by_name(name: Seq<char>) -> Option<u32> {
    if name == "register_services"@ {
        Some(1)
    } else if name == "reserve_relay"@ {
        Some(2)
    } else if name == "open_proxy_stream"@ {
        Some(4)
    } else {
        None
    }
}

/// The scopes among the first `n` names, or what is wrong with them.
pub open spec fn scopes_among(names: Seq<Seq<char>>, n: nat) -> Result<u32, Seq<char>>
    decreases n,
{
    if n == 0 {
        Ok(0)
    } else {
        match scopes_among(names, (n - 1) as nat) {
            Err(fault) => Err(fault),
            Ok(seen) => match scope_by_name(names[n - 1]) {
                None => Err("scope"@),
                Some(bit) => if seen & bit != 0 {
                    Err("duplicate scope"@)
                } else {
                    Ok(seen | bit)
                },
            },
        }
    }
}

/// The scopes that a role may have.
pub open spec fn allowed_scopes(role: CredentialRole) -> u32 {
    match role {
        CredentialRole::Client => 4,
        CredentialRole::Server => 3,
    }
}

/// Whether peer, tenant, quota and lifetime of a record are in order.
pub open spec fn bound(record: RecordModel) -> bool {
    &&& peer_id_of_text(record.peer_id) is Some
    &&& record.expires_at > record.not_before
    &&& clamp_i64(record.expires_at - record.not_before) <= MAX_CREDENTIAL_LIFE
    &&& record.peer_id.len() > 0
    &&& record.tenant.len() > 0
    &&& record.quota_profile.len() > 0
    &&& encode_utf8(record.quota_profile).len() <= 64
}

/// Whether a text is the canonical form of a digest.
pub open spec fn canonical_digest(text: Seq<char>) -> bool {
    base64url_decoded(text) matches Some(digest) && digest.len() == 32 && base64url_encoded(digest) == text
}

/// What is wrong with the record at place `i`, if anything.
pub open spec fn record_fault(records: Seq<RecordModel>, i: int) -> Option<Seq<char>> {
    let record = records[i];
    if !id_text(record.credential_id) {
        Some("credential id"@)
    } else if exists|j: int|
        i < j < records.len() && (#[trigger] records[j]).credential_id == record.credential_id {
        Some("duplicate credential id"@)
    } else if !bound(record) {
        Some("credential binding"@)
    } else {
        match scopes_among(record.scopes, record.scopes.len()) {
            Err(fault) => Some(fault),
            Ok(seen) => if seen & !allowed_scopes(record.role) != 0 {
                Some("role scope"@)
            } else if !canonical_digest(record.token_sha256) {
                Some("token digest"@)
            } else {
                None
            },
        }
    }
}

/// What is wrong with the first of the first `n` records that is not in order.
pub open spec fn first_fault(records: Seq<RecordModel>, n: nat) -> Option<Seq<char>>
    decreases n,
{
    if n == 0 {
        None
    } else {
        match first_fault(records, (n - 1) as nat) {
            Some(fault) => Some(fault),
            None => record_fault(records, n - 1),
        }
    }
}

/// What is wrong with a file, if anything.
pub open spec fn file_fault(schema_version: u16, records: Seq<RecordModel>) -> Option<Seq<char>> {
    if schema_version != 1 || records.len() > MAX_CREDENTIALS {
        Some("schema or count"@)
    } else {
        first_fault(records, records.len())
    }
}

/// Whether a result is a failure for the given reason.
pub open spec fn fails_with<T>(r: Result<T, CredentialConfigError>, fault: Seq<char>) -> bool {
    r matches Err(CredentialConfigError::Invalid(reason)) && reason@ == fault
}

proof fn lemma_first_fault_stays(records: Seq<RecordModel>, i: nat, n: nat)
    requires
        i <= n,
        first_fault(records, i) is Some,
    ensures
        first_fault(records, n) == first_fault(records, i),
    decreases n,
{
    if i < n {
        lemma_first_fault_stays(records, i, (n - 1) as nat);
    }
}

proof fn lemma_scopes_stay(names: Seq<Seq<char>>, i: nat, n: nat)
    requires
        i <= n,
        scopes_among(names, i) is Err,
    ensures
        scopes_among(names, n) == scopes_among(names, i),
    decreases n,
{
    if i < n {
        lemma_scopes_stay(names, i, (n - 1) as nat);
    }
}

impl FixedTokenFile {
    /// Whether a file of so many bytes may be read.
    pub fn check_length(length: u64) -> (r: Result<(), CredentialConfigError>)
        ensures
            if length > MAX_CREDENTIAL_FILE {
                fails_with(r, "file too large"@)
            } else {
                r is Ok
            },
    {
        if length > MAX_CREDENTIAL_FILE {
            Err(CredentialConfigError::Invalid("file too large"))
        } else {
            Ok(())
        }
    }

    /// Whether the file is in order.
    pub fn validate(&self) -> (r: Result<(), CredentialConfigError>)
        ensures
            match file_fault(self.schema_version, record_models(self.credentials@)) {
                Some(fault) => fails_with(r, fault),
                None => r is Ok,
            },
    {
        let ghost records = record_models(self.credentials@);
        if self.schema_version != 1 || self.credentials.len() > MAX_CREDENTIALS {
            return Err(CredentialConfigError::Invalid("schema or count"));
        }
        let mut i: usize = 0;
        while i < self.credentials.len()
            invariant
                records == record_models(self.credentials@),
                self.schema_version == 1,
                self.credentials@.len() <= MAX_CREDENTIALS,
                i <= self.credentials@.len(),
                first_fault(records, i as nat) is None,
            decreases self.credentials@.len() - i,
        {
            if let Some(fault) = self.fault_at(i) {
                proof {
                    lemma_first_fault_stays(records, (i + 1) as nat, records.len());
                }
                return Err(CredentialConfigError::Invalid(fault));
            }
            i = i + 1;
        }
        Ok(())
    }

    /// What is wrong with the record at place `i`.
    fn fault_at(&self, i: usize) -> (r: Option<&'static str>)
        requires
            i < self.credentials@.len(),
        ensures
            match record_fault(record_models(self.credentials@), i as int) {
                Some(fault) => r matches Some(reason) && reason@ == fault,
                None => r is None,
            },
    {
        let record = &self.credentials[i];
        let count: usize = self.credentials.len();
        let ghost records = record_models(self.credentials@);
        assert(records[i as int] == record@);
        if CredentialId::new(record.credential_id.as_str()).is_err() {
            return Some("credential id");
        }
        let mut j: usize = i + 1;
        while j < count
            invariant
                records == record_models(self.credentials@),
                count == self.credentials@.len(),
                i < j <= self.credentials@.len(),
                records[i as int] == record@,
                id_text(record@.credential_id),
                forall|k: int|
                    i < k < j ==> (#[trigger] records[k]).credential_id != record@.credential_id,
            decreases self.credentials@.len() - j,
        {
            if same_text(self.credentials[j].credential_id.as_str(), record.credential_id.as_str()) {
                assert(records[j as int].credential_id == record@.credential_id);
                return Some("duplicate credential id");
            }
            j = j + 1;
        }
        if !is_bound(record) {
            return Some("credential binding");
        }
        let seen: u32 = match seen_scopes(&record.scopes) {
            Ok(seen) => seen,
            Err(fault) => return Some(fault),
        };
        let allowed: u32 = match record.role {
            CredentialRole::Client => 4,
            CredentialRole::Server => 3,
        };
        if seen & !allowed != 0 {
            return Some("role scope");
        }
        let canonical = match base64url_decode(record.token_sha256.as_str()) {
            Some(digest) => digest.len() == 32 && same_text(
                base64url_encode(digest.as_slice()).as_str(),
                record.token_sha256.as_str(),
            ),
            None => false,
        };
        if !canonical {
            return Some("token digest");
        }
        None
    }
}

fn is_bound(record: &CredentialRecord) -> (r: bool)
    ensures
        r == bound(record@),
{
    PeerId::from_text(record.peer_id.as_str()).is_ok() && record.expires_at > record.not_before
        && saturating_sub(record.expires_at, record.not_before) <= MAX_CREDENTIAL_LIFE && !is_empty(
        record.peer_id.as_str(),
    ) && !is_empty(record.tenant.as_str()) && !is_empty(record.quota_profile.as_str())
        && record.quota_profile.as_str().as_bytes().len() <= 64
}

fn is_empty(text: &str) -> (r: bool)
    ensures
        r == (text@.len() == 0),
{
    let r = same_text(text, "");
    proof {
        reveal_strlit("");
        if text@.len() == 0 {
            assert(text@ =~= ""@);
        }
    }
    r
}

fn seen_scopes(names: &Vec<String>) -> (r: Result<u32, &'static str>)
    ensures
        match scopes_among(texts(names@), names@.len()) {
            Ok(seen) => r == Ok::<u32, &'static str>(seen),
            Err(fault) => r matches Err(reason) && reason@ == fault,
        },
{
    let ghost all = texts(names@);
    let mut seen: u32 = 0;
    let mut i: usize = 0;
    while i < names.len()
        invariant
            all == texts(names@),
            i <= names@.len(),
            scopes_among(all, i as nat) == Ok::<u32, Seq<char>>(seen),
        decreases names@.len() - i,
    {
        let name = names[i].as_str();
        assert(all[i as int] == name@);
        let bit: u32 = if same_text(name, "register_services") {
            1
        } else if same_text(name, "reserve_relay") {
            2
        } else if same_text(name, "open_proxy_stream") {
            4
        } else {
            proof {
                lemma_scopes_stay(all, (i + 1) as nat, all.len());
            }
            return Err("scope");
        };
        if seen & bit != 0 {
            proof {
                lemma_scopes_stay(all, (i + 1) as nat, all.len());
            }
            return Err("duplicate scope");
        }
        seen = seen | bit;
        i = i + 1;
    }
    Ok(seen)
}

/// The name of the environment variable that holds a credential.
#[derive(Debug)]
pub struct CredentialRef {
    pub env_name: String,
}

impl CredentialRef {
    /// The credential, given what the environment holds under the name.
    pub fn read(&self, value: Option<String>) -> (r: Result<(CredentialId, TokenSecret), CredentialConfigError>)
        ensures
            match value {
                None => r == Err::<(CredentialId, TokenSecret), CredentialConfigError>(
                    CredentialConfigError::MissingEnvironment,
                ),
                Some(text) => match r {
                    Ok((id, secret)) => is_token(text@, id@, secret@),
                    Err(error) => fails_with(r, "token"@) && forall|id: Seq<char>, secret: [u8; 32]|
                        !is_token(text@, id, secret),
                },
            },
    {
        let text = match value {
            Some(text) => text,
            None => return Err(CredentialConfigError::MissingEnvironment),
        };
        match TokenSecret::parse(text.as_str()) {
            Ok(credential) => Ok(credential),
            Err(_) => Err(CredentialConfigError::Invalid("token")),
        }
    }
}

/// A credential that was found in order.
pub struct ValidatedCredential {
    pub id: CredentialId,
    pub digest: TokenDigest,
    pub peer_id: String,
    pub tenant: Tenant,
    pub role: CredentialRole,
    pub quota_profile: QuotaProfile,
    pub not_before: i64,
    pub expires_at: i64,
    pub revoked: bool,
}

/// In a file that is in order no two credentials have the same name.
pub proof fn law_credentials_are_distinct(schema_version: u16, records: Seq<RecordModel>, i: int, j: int)
    requires
        file_fault(schema_version, records) is None,
        0 <= i < j < records.len(),
    ensures
        records[i].credential_id != records[j].credential_id,
        id_text(records[i].credential_id),
        bound(records[i]),
{
    lemma_no_fault_at(records, records.len(), i);
}

proof fn lemma_no_fault_at(records: Seq<RecordModel>, n: nat, i: int)
    requires
        first_fault(records, n) is None,
        0 <= i < n,
    ensures
        record_fault(records, i) is None,
    decreases n,
{
    if i < n - 1 {
        lemma_no_fault_at(records, (n - 1) as nat, i);
    }
}

/// In a file that is in order a client's scopes are those of a client, and a
/// server's those of a server.
pub proof fn law_scopes_fit_the_role(schema_version: u16, records: Seq<RecordModel>, i: int)
    requires
        file_fault(schema_version, records) is None,
        0 <= i < records.len(),
    ensures
        scopes_among(records[i].scopes, records[i].scopes.len()) matches Ok(seen) && seen
            & !allowed_scopes(records[i].role) == 0,
        canonical_digest(records[i].token_sha256),
{
    lemma_no_fault_at(records, records.len(), i);
}

/// Whether a name stands among the first `n`.
spec fn stands_in(names: Seq<Seq<char>>, n: int, name: Seq<char>) -> bool {
    exists|i: int| 0 <= i < n && #[trigger] names[i] == name
}

/// Whether a name is that of a scope.
pub open spec fn names_a_scope(name: Seq<char>) -> bool {
    name == "register_services"@ || name == "reserve_relay"@ || name == "open_proxy_stream"@
}

/// Whether the first `n` names are those of scopes, none of them twice.
pub open spec fn names_scopes(names: Seq<Seq<char>>, n: int) -> bool {
    &&& forall|i: int| 0 <= i < n ==> names_a_scope(#[trigger] names[i])
    &&& forall|i: int, j: int| 0 <= i < j < n ==> #[trigger] names[i] != #[trigger] names[j]
}

proof fn lemma_bits_of_scopes(seen: u32)
    requires
        seen < 8,
    ensures
        seen | 1 < 8 && seen | 2 < 8 && seen | 4 < 8,
        (seen | 1) & 1 != 0 && (seen | 2) & 2 != 0 && (seen | 4) & 4 != 0,
        (seen | 1) & 2 == seen & 2 && (seen | 1) & 4 == seen & 4,
        (seen | 2) & 1 == seen & 1 && (seen | 2) & 4 == seen & 4,
        (seen | 4) & 1 == seen & 1 && (seen | 4) & 2 == seen & 2,
        seen & !4 == 0 <==> (seen & 1 == 0 && seen & 2 == 0),
        seen & !3 == 0 <==> seen & 4 == 0,
        0u32 & 1 == 0 && 0u32 & 2 == 0 && 0u32 & 4 == 0,
{
    assert((seen | 1) < 8 && (seen | 2) < 8 && (seen | 4) < 8 && (seen | 1) & 1 != 0 && (seen | 2) & 2 != 0
        && (seen | 4) & 4 != 0 && (seen | 1) & 2 == seen & 2 && (seen | 1) & 4 == seen & 4 && (seen | 2) & 1
        == seen & 1 && (seen | 2) & 4 == seen & 4 && (seen | 4) & 1 == seen & 1 && (seen | 4) & 2 == seen & 2
        && ((seen & !4) == 0 <==> (seen & 1 == 0 && seen & 2 == 0)) && ((seen & !3) == 0 <==> seen & 4 == 0)
        && 0u32 & 1 == 0 && 0u32 & 2 == 0 && 0u32 & 4 == 0) by (bit_vector)
        requires
            seen < 8,
    ;
}

proof fn lemma_scope_names_differ()
    ensures
        "register_services"@ != "reserve_relay"@,
        "register_services"@ != "open_proxy_stream"@,
        "reserve_relay"@ != "open_proxy_stream"@,
{
    reveal_strlit("register_services");
    reveal_strlit("reserve_relay");
    reveal_strlit("open_proxy_stream");
    assert("register_services"@[2] == 'g');
    assert("reserve_relay"@[2] == 's');
    assert("open_proxy_stream"@[2] == 'e');
}

proof fn lemma_stands_in_next(names: Seq<Seq<char>>, n: int, name: Seq<char>)
    requires
        0 <= n < names.len(),
    ensures
        stands_in(names, n + 1, name) <==> stands_in(names, n, name) || names[n] == name,
{
    if stands_in(names, n, name) {
        let i = choose|i: int| 0 <= i < n && #[trigger] names[i] == name;
        assert(names[i] == name);
    }
    if stands_in(names, n + 1, name) {
        let i = choose|i: int| 0 <= i < n + 1 && #[trigger] names[i] == name;
        assert(i == n || names[i] == name);
    }
}

/// The scopes found among names are those whose names stand there.
proof fn lemma_scopes_found(names: Seq<Seq<char>>, n: nat)
    requires
        n <= names.len(),
        names_scopes(names, n as int),
    ensures
        scopes_among(names, n) matches Ok(seen) && seen < 8 && (seen & 1 != 0 <==> stands_in(
            names,
            n as int,
            "register_services"@,
        )) && (seen & 2 != 0 <==> stands_in(names, n as int, "reserve_relay"@)) && (seen & 4 != 0
            <==> stands_in(names, n as int, "open_proxy_stream"@)),
    decreases n,
{
    lemma_scope_names_differ();
    if n == 0 {
        lemma_bits_of_scopes(0);
    } else {
        let k = (n - 1) as nat;
        lemma_scopes_found(names, k);
        let seen = scopes_among(names, k)->Ok_0;
        lemma_bits_of_scopes(seen);
        lemma_stands_in_next(names, k as int, "register_services"@);
        lemma_stands_in_next(names, k as int, "reserve_relay"@);
        lemma_stands_in_next(names, k as int, "open_proxy_stream"@);
        assert(names_a_scope(names[k as int]));
        if stands_in(names, k as int, names[k as int]) {
            let i = choose|i: int| 0 <= i < k && #[trigger] names[i] == names[k as int];
            assert(names[i] != names[k as int]);
        }
    }
}

/// The first name that is wrong decides what is said of the names: it is that of
/// no scope, or it stood there before.
pub proof fn law_scopes_are_named_once(names: Seq<Seq<char>>, k: int)
    requires
        0 <= k <= names.len(),
        names_scopes(names, k),
    ensures
        k == names.len() ==> scopes_among(names, names.len()) is Ok,
        k < names.len() && !names_a_scope(names[k]) ==> scopes_among(names, names.len()) == Err::<u32, Seq<char>>(
            "scope"@,
        ),
        k < names.len() && (exists|i: int| 0 <= i < k && #[trigger] names[i] == names[k]) ==> scopes_among(
            names,
            names.len(),
        ) == Err::<u32, Seq<char>>("duplicate scope"@),
{
    lemma_scopes_found(names, k as nat);
    if k < names.len() {
        let seen = scopes_among(names, k as nat)->Ok_0;
        if exists|i: int| 0 <= i < k && #[trigger] names[i] == names[k] {
            let i = choose|i: int| 0 <= i < k && #[trigger] names[i] == names[k];
            assert(names_a_scope(names[i]));
            assert(stands_in(names, k, names[k]));
            lemma_scope_names_differ();
        }
        if scopes_among(names, (k + 1) as nat) is Err {
            lemma_scopes_stay(names, (k + 1) as nat, names.len());
        }
    }
}

/// Whether a record names a credential of its own, binds it to a peer for at most
/// four hundred days, gives it scopes that its role may have, and holds a digest
/// as it is written.
pub open spec fn in_order(records: Seq<RecordModel>, i: int) -> bool {
    let record = records[i];
    &&& id_text(record.credential_id)
    &&& forall|j: int| i < j < records.len() ==> (#[trigger] records[j]).credential_id != record.credential_id
    &&& binds(record)
    &&& names_scopes(record.scopes, record.scopes.len() as int)
    &&& within_role(record)
    &&& holds_digest(record)
}

/// Whether a record binds a credential to a peer, a tenant and a quota, from a
/// time to a later one, four hundred days after it at most.
pub open spec fn binds(record: RecordModel) -> bool {
    &&& peer_id_of_text(record.peer_id) is Some
    &&& record.peer_id != Seq::<char>::empty()
    &&& record.tenant != Seq::<char>::empty()
    &&& record.quota_profile != Seq::<char>::empty()
    &&& encode_utf8(record.quota_profile).len() <= 64
    &&& 0 < record.expires_at - record.not_before <= 400 * 24 * 60 * 60
}

/// Whether the scopes of a record are those that its role may have: a client may
/// open streams, a server may register services and reserve a relay.
pub open spec fn within_role(record: RecordModel) -> bool {
    forall|i: int|
        0 <= i < record.scopes.len() ==> match record.role {
            CredentialRole::Client => #[trigger] record.scopes[i] == "open_proxy_stream"@,
            CredentialRole::Server => record.scopes[i] == "register_services"@ || record.scopes[i]
                == "reserve_relay"@,
        }
}

/// Whether a record holds thirty-two bytes in the form in which they are written.
pub open spec fn holds_digest(record: RecordModel) -> bool {
    &&& base64url_decoded(record.token_sha256) is Some
    &&& base64url_decoded(record.token_sha256)->0.len() == 32
    &&& base64url_encoded(base64url_decoded(record.token_sha256)->0) == record.token_sha256
}

proof fn lemma_roles(record: RecordModel)
    requires
        names_scopes(record.scopes, record.scopes.len() as int),
    ensures
        scopes_among(record.scopes, record.scopes.len()) matches Ok(seen) && (seen & !allowed_scopes(
            record.role,
        ) == 0 <==> within_role(record)),
{
    let names = record.scopes;
    let n = names.len() as int;
    lemma_scopes_found(names, names.len());
    lemma_scope_names_differ();
    let seen = scopes_among(names, names.len())->Ok_0;
    lemma_bits_of_scopes(seen);
    if within_role(record) {
        assert(record.role is Client ==> !stands_in(names, n, "register_services"@) && !stands_in(
            names,
            n,
            "reserve_relay"@,
        ));
        assert(record.role is Server ==> !stands_in(names, n, "open_proxy_stream"@));
    } else {
        let i = choose|i: int|
            0 <= i < n && !(match record.role {
                CredentialRole::Client => #[trigger] names[i] == "open_proxy_stream"@,
                CredentialRole::Server => names[i] == "register_services"@ || names[i] == "reserve_relay"@,
            });
        assert(names_a_scope(names[i]));
        assert(stands_in(names, n, names[i]));
    }
}

proof fn lemma_binding(record: RecordModel)
    ensures
        bound(record) <==> binds(record),
{
    assert(record.peer_id.len() == 0 ==> record.peer_id =~= Seq::<char>::empty());
    assert(record.tenant.len() == 0 ==> record.tenant =~= Seq::<char>::empty());
    assert(record.quota_profile.len() == 0 ==> record.quota_profile =~= Seq::<char>::empty());
}

/// What is wrong with a record is the first of: its name, that another has the
/// same name, what it is bound to, its scopes, what its role may do, its digest.
pub proof fn law_records_are_refused_for_what_is_wrong(records: Seq<RecordModel>, i: int)
    requires
        0 <= i < records.len(),
    ensures
        ({
            let record = records[i];
            let named = id_text(record.credential_id);
            let alone = forall|j: int|
                i < j < records.len() ==> (#[trigger] records[j]).credential_id != record.credential_id;
            let scoped = names_scopes(record.scopes, record.scopes.len() as int);
            let fault = record_fault(records, i);
            &&& !named ==> fault == Some("credential id"@)
            &&& named && !alone ==> fault == Some("duplicate credential id"@)
            &&& named && alone && !binds(record) ==> fault == Some("credential binding"@)
            &&& named && alone && binds(record) && scoped && !within_role(record) ==> fault == Some(
                "role scope"@,
            )
            &&& named && alone && binds(record) && scoped && within_role(record) && !holds_digest(record)
                ==> fault == Some("token digest"@)
            &&& named && alone && binds(record) && !scoped ==> fault is Some
            &&& in_order(records, i) ==> fault is None
        }),
{
    let record = records[i];
    let names = record.scopes;
    lemma_binding(record);
    if names_scopes(names, names.len() as int) {
        lemma_roles(record);
    } else {
        lemma_scopes_faulty(names, names.len());
    }
}

/// Names that are not those of scopes, each of them once, are refused.
proof fn lemma_scopes_faulty(names: Seq<Seq<char>>, n: nat)
    requires
        n <= names.len(),
        !names_scopes(names, n as int),
    ensures
        scopes_among(names, n) is Err,
    decreases n,
{
    let k = n - 1;
    if n > 0 {
        if names_scopes(names, k) {
            lemma_scopes_found(names, k as nat);
            lemma_scope_names_differ();
            if names_a_scope(names[k]) {
                let (a, b) = choose|a: int, b: int|
                    0 <= a < b < n && #[trigger] names[a] == #[trigger] names[b];
                assert(b == k);
                assert(stands_in(names, k, names[k]));
            }
        } else {
            lemma_scopes_faulty(names, k as nat);
        }
    }
}

/// A file is accepted exactly if it is of the known version, holds no more than
/// two hundred and fifty-six records, and each of them is in order.
pub proof fn law_files_in_order_are_accepted(schema_version: u16, records: Seq<RecordModel>)
    ensures
        file_fault(schema_version, records) is None <==> schema_version == 1 && records.len() <= 256 && (
        forall|i: int| 0 <= i < records.len() ==> #[trigger] in_order(records, i)),
{
    if file_fault(schema_version, records) is None {
        assert forall|i: int| 0 <= i < records.len() implies #[trigger] in_order(records, i) by {
            lemma_no_fault_at(records, records.len(), i);
            law_records_are_refused_for_what_is_wrong(records, i);
        }
    }
    if forall|i: int| 0 <= i < records.len() ==> #[trigger] in_order(records, i) {
        lemma_no_first_fault(records, records.len());
    }
}

proof fn lemma_no_first_fault(records: Seq<RecordModel>, n: nat)
    requires
        n <= records.len(),
        forall|i: int| 0 <= i < n ==> #[trigger] in_order(records, i),
    ensures
        first_fault(records, n) is None,
    decreases n,
{
    if n > 0 {
        lemma_no_first_fault(records, (n - 1) as nat);
        assert(in_order(records, n - 1));
        law_records_are_refused_for_what_is_wrong(records, n - 1);
    }
}

/// What is said of a file is what is wrong with the first record that is not in
/// order; of another version or with too many records it is refused for that.
pub proof fn law_the_first_fault_is_told(schema_version: u16, records: Seq<RecordModel>, i: int)
    requires
        0 <= i < records.len(),
        forall|j: int| 0 <= j < i ==> #[trigger] in_order(records, j),
        !in_order(records, i),
    ensures
        schema_version == 1 && records.len() <= 256 ==> file_fault(schema_version, records) == record_fault(
            records,
            i,
        ) && record_fault(records, i) is Some,
        schema_version != 1 || records.len() > 256 ==> file_fault(schema_version, records) == Some(
            "schema or count"@,
        ),
{
    lemma_no_first_fault(records, i as nat);
    law_records_are_refused_for_what_is_wrong(records, i);
    lemma_first_fault_stays(records, (i + 1) as nat, records.len());
}

/// A file of more than half a mebibyte is not read.
pub proof fn law_long_files_are_not_read(length: u64, r: Result<(), CredentialConfigError>)
    requires
        call_ensures(FixedTokenFile::check_length, (length,), r),
    ensures
        r is Ok <==> length <= 512 * 1024,
        r matches Err(error) ==> (error matches CredentialConfigError::Invalid(reason) && reason@
            == "file too large"@),
{
}

/// What the environment holds under the name is the credential, if it is one; if
/// it holds nothing, that is told apart from something that is no credential.
pub proof fn law_missing_credentials_are_told_apart(
    reference: CredentialRef,
    value: Option<String>,
    r: Result<(CredentialId, TokenSecret), CredentialConfigError>,
)
    requires
        call_ensures(CredentialRef::read, (&reference, value), r),
    ensures
        value is None <==> r == Err::<(CredentialId, TokenSecret), CredentialConfigError>(
            CredentialConfigError::MissingEnvironment,
        ),
        value is Some && r is Err ==> (r->Err_0 matches CredentialConfigError::Invalid(reason) && reason@
            == "token"@),
        r matches Ok((id, secret)) ==> is_token(value->0@, id@, secret@),
        value is Some && (exists|id: Seq<char>, secret: [u8; 32]| is_token(value->0@, id, secret)) ==> r is Ok,
{
}

} // verus!
