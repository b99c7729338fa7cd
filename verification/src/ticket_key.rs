//! Keys that sign tickets, and rings of keys that check them.
use crate::bytes::{put_bytes, put_u8, same_array, same_bytes, to_array};
use crate::crypto::{
    base64url_decode, base64url_decoded, ed25519_accepts, ed25519_point, ed25519_public,
    ed25519_public_key, ed25519_sign, ed25519_signature, random_array, Seed,
};
use crate::hex::{decode_hex_id, hex_id, hex_id_text};
use crate::ticket::{
    key_id_for, key_id_of, ticket_outcome, verify_with_key_resolver, ClaimsModel, TicketError,
    TicketKeyResolver, TicketValidation, VerifiedTicket, VerifyingKey,
};
use vstd::prelude::*;
use vstd::string::StringExecFns;

verus! {

/// How many keys a ring may be loaded with.
pub const MAX_RING_KEYS: usize = 256;

#[derive(Clone, Copy, Debug, PartialEq, Eq, Structural)]
pub enum TicketKeyError {
    /// The ticket key is the transport key.
    KeySeparation,
    Invalid,
    InvalidVerificationKey,
    DuplicateVerificationKey,
    InvalidConfiguration,
}

/// A key that signs tickets.
pub struct TicketKey {
    seed: Seed,
    key_id: [u8; 16],
}

impl View for TicketKey {
    type V = Seq<u8>;

    /// The seed of the key.
    closed spec fn view(&self) -> Seq<u8> {
        self.seed@
    }
}

/// The content of a key file.
pub open spec fn key_file(seed: Seq<u8>) -> Seq<u8> {
    seq![1u8] + seed
}

impl TicketKey {
    #[verifier::type_invariant]
    spec fn consistent(self) -> bool {
        self.key_id@ == key_id_of(ed25519_public(self.seed@))
    }

    /// Refuses a transport key that is this key.
    pub fn ensure_separate_from(&self, transport_public_key: &[u8]) -> (r: Result<(), TicketKeyError>)
        ensures
            r == if transport_public_key@ == ed25519_public(self@) {
                Err::<(), TicketKeyError>(TicketKeyError::KeySeparation)
            } else {
                Ok(())
            },
    {
        let public = self.public();
        if same_bytes(public.as_bytes(), transport_public_key) {
            return Err(TicketKeyError::KeySeparation);
        }
        Ok(())
    }

    /// The key in the content of a key file.
    pub fn load(file: &[u8]) -> (r: Result<Self, TicketKeyError>)
        ensures
            match r {
                Ok(key) => key@.len() == 32 && file@ == key_file(key@),
                Err(error) => error == TicketKeyError::Invalid && !(file@.len() == 33 && file@[0] == 1),
            },
    {
        if file.len() != 33 || file[0] != 1 {
            return Err(TicketKeyError::Invalid);
        }
        let seed: [u8; 32] = to_array(vstd::slice::slice_subrange(file, 1, 33));
        assert(file@ =~= key_file(seed@));
        Ok(TicketKey::from_seed(seed))
    }

    /// A new key and the content of its file. The seed comes from the system's
    /// source of randomness, which may fail.
    pub fn create() -> (r: Result<(Self, Vec<u8>), TicketKeyError>)
        ensures
            match r {
                Ok((key, file)) => file@ == key_file(key@),
                Err(error) => error == TicketKeyError::Invalid,
            },
    {
        TicketKey::create_from(random_array())
    }

    /// A key with the given seed and the content of its file.
    pub fn create_from(seed: Option<[u8; 32]>) -> (r: Result<(Self, Vec<u8>), TicketKeyError>)
        ensures
            match seed {
                Some(seed) => r matches Ok(made) && made.0@ == seed@ && made.1@ == key_file(seed@),
                None => r matches Err(error) && error == TicketKeyError::Invalid,
            },
    {
        match seed {
            Some(seed) => {
                let mut file: Vec<u8> = Vec::new();
                put_u8(&mut file, 1);
                put_bytes(&mut file, &seed);
                assert(file@ =~= key_file(seed@));
                Ok((TicketKey::from_seed(seed), file))
            },
            None => Err(TicketKeyError::Invalid),
        }
    }

    /// The key with the given seed.
    pub fn from_seed(seed: [u8; 32]) -> (r: Self)
        ensures
            r@ == seed@,
    {
        let public = ed25519_public_key(&seed);
        TicketKey { seed: Seed::new(seed), key_id: key_id_for(&public) }
    }

    /// The identifier of the key.
    pub fn key_id(&self) -> (r: [u8; 16])
        ensures
            r@ == key_id_of(ed25519_public(self@)),
    {
        proof {
            use_type_invariant(self);
        }
        self.key_id
    }

    /// The key that checks what this key signs.
    pub fn public(&self) -> (r: VerifyingKey)
        ensures
            r@ == ed25519_public(self@),
    {
        VerifyingKey::of_seed(self.seed.as_bytes())
    }

    /// The signature on a message. The public key accepts it.
    pub fn sign(&self, message: &[u8]) -> (r: [u8; 64])
        ensures
            r@ == ed25519_signature(self@, message@),
            ed25519_accepts(ed25519_public(self@), message@, r@),
    {
        ed25519_sign(self.seed.as_bytes(), message)
    }

    /// What may be shown of the key.
    pub fn redacted(&self) -> (r: String)
        ensures
            r@ == "TicketKey(REDACTED)"@,
    {
        String::from_str("TicketKey(REDACTED)")
    }
}

/// A key of a ring as its file holds it.
#[derive(Debug)]
pub struct VerificationKeyRecord {
    pub key_id: String,
    pub public_key: String,
    pub activates_at: i64,
    pub retires_at: Option<i64>,
}

/// The file of a ring.
#[derive(Debug)]
pub struct VerificationKeyFile {
    pub schema_version: u16,
    pub keys: Vec<VerificationKeyRecord>,
}

/// A key that checks tickets, and when it does.
#[derive(Clone, Copy, Debug)]
pub struct VerificationKey {
    pub key_id: [u8; 16],
    pub public: VerifyingKey,
    pub activates_at: i64,
    pub retires_at: Option<i64>,
}

#[verifier::ext_equal]
pub struct KeyModel {
    pub key_id: Seq<u8>,
    pub public: Seq<u8>,
    pub activates_at: i64,
    pub retires_at: Option<i64>,
}

impl View for VerificationKey {
    type V = KeyModel;

    open spec fn view(&self) -> KeyModel {
        KeyModel {
            key_id: self.key_id@,
            public: self.public@,
            activates_at: self.activates_at,
            retires_at: self.retires_at,
        }
    }
}

/// What the keys of a list say.
pub open spec fn key_models(keys: Seq<VerificationKey>) -> Seq<KeyModel> {
    Seq::new(keys.len(), |i: int| keys[i]@)
}

/// Whether a key checks tickets at a time.
pub open spec fn active(key: KeyModel, now: i64) -> bool {
    now >= key.activates_at && match key.retires_at {
        Some(end) => now < end,
        None => true,
    }
}

/// Whether a key retires after it was activated.
pub open spec fn lives(key: KeyModel) -> bool {
    key.retires_at matches Some(end) ==> end > key.activates_at
}

/// Why a key cannot be added to a ring.
pub open spec fn add_fault(ring: Seq<KeyModel>, key: KeyModel) -> Option<TicketKeyError> {
    if !lives(key) {
        Some(TicketKeyError::InvalidVerificationKey)
    } else if exists|i: int| 0 <= i < ring.len() && (#[trigger] ring[i]).key_id == key.key_id {
        Some(TicketKeyError::DuplicateVerificationKey)
    } else {
        None
    }
}

/// What every ring keeps to: identifiers are distinct, and every key lives.
pub open spec fn valid_ring(ring: Seq<KeyModel>) -> bool {
    &&& forall|i: int| 0 <= i < ring.len() ==> lives(#[trigger] ring[i])
    &&& forall|i: int, j: int|
        0 <= i < j < ring.len() ==> (#[trigger] ring[i]).key_id != (#[trigger] ring[j]).key_id
}

/// Whether a ring holds a key that goes by an identifier at a time.
pub open spec fn holds_active(ring: Seq<KeyModel>, key_id: Seq<u8>, now: i64) -> bool {
    exists|i: int| 0 <= i < ring.len() && (#[trigger] ring[i]).key_id == key_id && active(ring[i], now)
}

/// The key that goes by an identifier at a time.
pub open spec fn active_key(ring: Seq<KeyModel>, key_id: Seq<u8>, now: i64) -> KeyModel {
    ring[choose|i: int|
        0 <= i < ring.len() && (#[trigger] ring[i]).key_id == key_id && active(ring[i], now)]
}

/// The key that a record of a file describes, if it describes one.
pub open spec fn described(record: VerificationKeyRecord) -> Option<KeyModel> {
    match base64url_decoded(record.public_key@) {
        None => None,
        Some(public) => if hex_id_text(record.key_id@) && public.len() == 32 && ed25519_point(public)
            && key_id_of(public) == hex_id(record.key_id@) {
            Some(
                KeyModel {
                    key_id: hex_id(record.key_id@),
                    public,
                    activates_at: record.activates_at,
                    retires_at: record.retires_at,
                },
            )
        } else {
            None
        },
    }
}

/// A ring of keys that check tickets.
#[derive(Debug)]
pub struct VerificationKeyRing {
    keys: Vec<VerificationKey>,
}

impl View for VerificationKeyRing {
    type V = Seq<KeyModel>;

    closed spec fn view(&self) -> Seq<KeyModel> {
        key_models(self.keys@)
    }
}

impl Default for VerificationKeyRing {
    fn default() -> (r: Self)
        ensures
            r@ == Seq::<KeyModel>::empty(),
    {
        let keys: Vec<VerificationKey> = Vec::new();
        assert(key_models(keys@) =~= Seq::<KeyModel>::empty());
        VerificationKeyRing { keys }
    }
}

impl TicketKeyResolver for VerificationKeyRing {
    open spec fn resolves(&self, key_id: Seq<u8>, now: i64) -> Option<Seq<u8>> {
        if holds_active(self@, key_id, now) {
            Some(active_key(self@, key_id, now).public)
        } else {
            None
        }
    }

    fn key(&self, key_id: [u8; 16], now: i64) -> (r: Option<&VerifyingKey>) {
        match self.get(key_id, now) {
            Some(key) => Some(&key.public),
            None => None,
        }
    }
}

/// What becomes of the first `n` records of a file: the keys, or why there is
/// no ring.
pub open spec fn loaded(records: Seq<VerificationKeyRecord>, n: nat) -> Result<Seq<KeyModel>, TicketKeyError>
    decreases n,
{
    if n == 0 {
        Ok(Seq::empty())
    } else {
        match loaded(records, (n - 1) as nat) {
            Err(error) => Err(error),
            Ok(ring) => match described(records[n - 1]) {
                None => Err(TicketKeyError::InvalidConfiguration),
                Some(key) => match add_fault(ring, key) {
                    Some(error) => Err(error),
                    None => Ok(ring.push(key)),
                },
            },
        }
    }
}

proof fn lemma_loading_stops(records: Seq<VerificationKeyRecord>, i: nat, n: nat)
    requires
        i <= n,
        loaded(records, i) is Err,
    ensures
        loaded(records, n) == loaded(records, i),
    decreases n,
{
    if i < n {
        lemma_loading_stops(records, i, (n - 1) as nat);
    }
}

/// The key that a record describes.
fn key_of(record: &VerificationKeyRecord) -> (r: Option<VerificationKey>)
    ensures
        match r {
            Some(key) => described(*record) == Some(key@),
            None => described(*record) is None,
        },
{
    let key_id: [u8; 16] = match decode_hex_id(record.key_id.as_str()) {
        Some(id) => id,
        None => return None,
    };
    let bytes = match base64url_decode(record.public_key.as_str()) {
        Some(bytes) => bytes,
        None => return None,
    };
    if bytes.len() != 32 {
        return None;
    }
    let public_bytes: [u8; 32] = to_array(bytes.as_slice());
    let public = match VerifyingKey::from_bytes(&public_bytes) {
        Ok(key) => key,
        Err(_) => return None,
    };
    let expected: [u8; 16] = key_id_for(&public_bytes);
    if !same_array(&expected, &key_id) {
        proof {
            if expected@ == key_id@ {
                crate::bytes::lemma_array_view(expected, key_id);
            }
        }
        return None;
    }
    let key = VerificationKey {
        key_id,
        public,
        activates_at: record.activates_at,
        retires_at: record.retires_at,
    };
    Some(key)
}

impl VerificationKeyRing {
    #[verifier::type_invariant]
    pub open spec fn valid(self) -> bool {
        valid_ring(self@)
    }

    /// The ring that a file describes.
    pub fn load(file: &VerificationKeyFile) -> (r: Result<Self, TicketKeyError>)
        ensures
            if file.schema_version != 1 || file.keys@.len() > MAX_RING_KEYS {
                r matches Err(error) && error == TicketKeyError::InvalidConfiguration
            } else {
                match r {
                    Ok(ring) => loaded(file.keys@, file.keys@.len()) == Ok::<
                        Seq<KeyModel>,
                        TicketKeyError,
                    >(ring@),
                    Err(error) => loaded(file.keys@, file.keys@.len()) == Err::<
                        Seq<KeyModel>,
                        TicketKeyError,
                    >(error),
                }
            },
    {
        if file.schema_version != 1 || file.keys.len() > MAX_RING_KEYS {
            return Err(TicketKeyError::InvalidConfiguration);
        }
        let ghost records = file.keys@;
        let mut ring = VerificationKeyRing::default();
        let mut i: usize = 0;
        while i < file.keys.len()
            invariant
                records == file.keys@,
                file.schema_version == 1,
                file.keys@.len() <= MAX_RING_KEYS,
                i <= file.keys@.len(),
                loaded(records, i as nat) == Ok::<Seq<KeyModel>, TicketKeyError>(ring@),
            decreases file.keys@.len() - i,
        {
            match key_of(&file.keys[i]) {
                Some(key) => {
                    if let Err(error) = ring.add(key) {
                        proof {
                            lemma_loading_stops(records, (i + 1) as nat, records.len());
                        }
                        return Err(error);
                    }
                },
                None => {
                    proof {
                        lemma_loading_stops(records, (i + 1) as nat, records.len());
                    }
                    return Err(TicketKeyError::InvalidConfiguration);
                },
            }
            i = i + 1;
        }
        Ok(ring)
    }

    /// Adds a key.
    pub fn add(&mut self, key: VerificationKey) -> (r: Result<(), TicketKeyError>)
        ensures
            match add_fault(old(self)@, key@) {
                Some(error) => r == Err::<(), TicketKeyError>(error) && final(self)@ == old(self)@,
                None => r is Ok && final(self)@ == old(self)@.push(key@),
            },
    {
        proof {
            use_type_invariant(&*self);
        }
        let retires_later = match key.retires_at {
            Some(end) => end > key.activates_at,
            None => true,
        };
        if !retires_later {
            return Err(TicketKeyError::InvalidVerificationKey);
        }
        let ghost before = self@;
        let mut i: usize = 0;
        while i < self.keys.len()
            invariant
                *self == *old(self),
                before == self@,
                i <= self.keys@.len(),
                lives(key@),
                forall|j: int| 0 <= j < i ==> (#[trigger] before[j]).key_id != key@.key_id,
            decreases self.keys@.len() - i,
        {
            if same_array(&self.keys[i].key_id, &key.key_id) {
                assert(before[i as int].key_id == key@.key_id);
                return Err(TicketKeyError::DuplicateVerificationKey);
            }
            proof {
                if self.keys@[i as int].key_id@ == key.key_id@ {
                    crate::bytes::lemma_array_view(self.keys@[i as int].key_id, key.key_id);
                }
            }
            i = i + 1;
        }
        let mut keys: Vec<VerificationKey> = Vec::new();
        assert(key_models(keys@) =~= Seq::<KeyModel>::empty());
        std::mem::swap(&mut keys, &mut self.keys);
        keys.push(key);
        assert(key_models(keys@) =~= before.push(key@));
        self.keys = keys;
        Ok(())
    }

    /// The key that goes by an identifier at a time.
    pub fn get(&self, key_id: [u8; 16], now: i64) -> (r: Option<&VerificationKey>)
        ensures
            match r {
                Some(key) => holds_active(self@, key_id@, now) && key@ == active_key(self@, key_id@, now),
                None => !holds_active(self@, key_id@, now),
            },
    {
        proof {
            use_type_invariant(self);
        }
        let ghost ring = self@;
        let mut i: usize = 0;
        while i < self.keys.len()
            invariant
                ring == self@,
                valid_ring(ring),
                i <= self.keys@.len(),
                forall|j: int|
                    0 <= j < i ==> !((#[trigger] ring[j]).key_id == key_id@ && active(ring[j], now)),
            decreases self.keys@.len() - i,
        {
            let key = &self.keys[i];
            assert(ring[i as int] == key@);
            let live = now >= key.activates_at && match key.retires_at {
                Some(end) => now < end,
                None => true,
            };
            if live && same_array(&key.key_id, &key_id) {
                proof {
                    assert(holds_active(ring, key_id@, now));
                    let k = choose|k: int|
                        0 <= k < ring.len() && (#[trigger] ring[k]).key_id == key_id@ && active(
                            ring[k],
                            now,
                        );
                    if k < i {
                        assert(ring[k].key_id != ring[i as int].key_id);
                    } else if k > i {
                        assert(ring[i as int].key_id != ring[k].key_id);
                    }
                }
                return Some(key);
            }
            proof {
                if key.key_id@ == key_id@ {
                    crate::bytes::lemma_array_view(key.key_id, key_id);
                }
            }
            i = i + 1;
        }
        None
    }

    /// Checks a ticket against the keys of the ring.
    pub fn verify(&self, envelope: &[u8], expected: &TicketValidation<'_>) -> (r: Result<
        VerifiedTicket,
        TicketError,
    >)
        ensures
            match r {
                Ok(ticket) => ticket_outcome(envelope@, self, expected@) == Ok::<ClaimsModel, TicketError>(
                    ticket@,
                ),
                Err(error) => ticket_outcome(envelope@, self, expected@) == Err::<
                    ClaimsModel,
                    TicketError,
                >(error),
            },
    {
        verify_with_key_resolver(envelope, self, expected)
    }
}

/// A key checks tickets from its activation until it retires, not before and
/// not after, whatever other keys the ring holds.
pub proof fn law_keys_have_a_life(ring: Seq<KeyModel>, i: int, now: i64)
    requires
        valid_ring(ring),
        0 <= i < ring.len(),
    ensures
        holds_active(ring, ring[i].key_id, now) <==> active(ring[i], now),
        active(ring[i], now) ==> active_key(ring, ring[i].key_id, now) == ring[i],
{
    if holds_active(ring, ring[i].key_id, now) {
        let k = choose|k: int|
            0 <= k < ring.len() && (#[trigger] ring[k]).key_id == ring[i].key_id && active(ring[k], now);
        if k < i {
            assert(ring[k].key_id != ring[i].key_id);
        } else if k > i {
            assert(ring[i].key_id != ring[k].key_id);
        }
    }
}

/// A ring answers for an identifier with the key that goes by it, from the second
/// in which the key is activated to the last one before it retires.
pub proof fn law_keys_check_while_they_live(ring: Seq<KeyModel>, i: int, now: i64)
    requires
        valid_ring(ring),
        0 <= i < ring.len(),
    ensures
        ({
            let key = ring[i];
            let begun = key.activates_at <= now;
            let over = key.retires_at is Some && key.retires_at->0 <= now;
            &&& begun && !over ==> holds_active(ring, key.key_id, now) && active_key(ring, key.key_id, now)
                == key
            &&& !begun || over ==> !holds_active(ring, key.key_id, now)
        }),
{
    law_keys_have_a_life(ring, i, now);
}

/// A ring has no answer for an identifier that none of its keys goes by.
pub proof fn law_unknown_keys_check_nothing(ring: Seq<KeyModel>, key_id: Seq<u8>, now: i64)
    requires
        forall|i: int| 0 <= i < ring.len() ==> (#[trigger] ring[i]).key_id != key_id,
    ensures
        !holds_active(ring, key_id, now),
{
}

/// A key is added unless it would retire before it is activated, or another goes
/// by its identifier already.
pub proof fn law_keys_are_added_once(ring: Seq<KeyModel>, key: KeyModel)
    ensures
        ({
            let backward = key.retires_at is Some && key.retires_at->0 <= key.activates_at;
            let taken = exists|i: int| 0 <= i < ring.len() && (#[trigger] ring[i]).key_id == key.key_id;
            &&& backward ==> add_fault(ring, key) == Some(TicketKeyError::InvalidVerificationKey)
            &&& !backward && taken ==> add_fault(ring, key) == Some(TicketKeyError::DuplicateVerificationKey)
            &&& !backward && !taken ==> add_fault(ring, key) is None
        }),
        valid_ring(ring) && add_fault(ring, key) is None ==> valid_ring(ring.push(key)) && add_fault(
            ring.push(key),
            key,
        ) == Some(TicketKeyError::DuplicateVerificationKey),
{
    if valid_ring(ring) && add_fault(ring, key) is None {
        let after = ring.push(key);
        assert(after[ring.len() as int].key_id == key.key_id);
        assert forall|i: int| 0 <= i < after.len() implies lives(#[trigger] after[i]) by {
            assert(i == ring.len() || after[i] == ring[i]);
        }
        assert forall|i: int, j: int| 0 <= i < j < after.len() implies (#[trigger] after[i]).key_id != (
        #[trigger] after[j]).key_id by {
            assert(after[i] == ring[i]);
            assert(j == ring.len() || after[j] == ring[j]);
        }
    }
}

/// A record describes a key where its identifier is that of the thirty-two bytes
/// it holds and these are a key; what it says of the key's life is kept.
pub proof fn law_records_describe_their_keys(record: VerificationKeyRecord)
    ensures
        match described(record) {
            Some(key) => {
                &&& base64url_decoded(record.public_key@) == Some(key.public)
                &&& key.public.len() == 32
                &&& ed25519_point(key.public)
                &&& hex_id_text(record.key_id@)
                &&& key.key_id == hex_id(record.key_id@)
                &&& key.key_id == key_id_of(key.public)
                &&& key.activates_at == record.activates_at
                &&& key.retires_at == record.retires_at
            },
            None => !hex_id_text(record.key_id@) || (match base64url_decoded(record.public_key@) {
                None => true,
                Some(public) => public.len() != 32 || !ed25519_point(public) || key_id_of(public) != hex_id(
                    record.key_id@,
                ),
            }),
        },
{
}

/// Whether the first `n` records of a file describe keys that can stand in one
/// ring.
pub open spec fn fit_together(records: Seq<VerificationKeyRecord>, n: int) -> bool {
    &&& forall|i: int|
        0 <= i < n ==> described(#[trigger] records[i]) is Some && (records[i].retires_at is Some
            ==> records[i].activates_at < records[i].retires_at->0)
    &&& forall|i: int, j: int|
        0 <= i < j < n ==> described(#[trigger] records[i])->0.key_id != described(
            #[trigger] records[j],
        )->0.key_id
}

/// A ring is loaded with what the records of its file describe, in their order.
pub proof fn law_rings_hold_what_their_files_describe(records: Seq<VerificationKeyRecord>, n: nat)
    requires
        n <= records.len(),
        fit_together(records, n as int),
    ensures
        loaded(records, n) == Ok::<Seq<KeyModel>, TicketKeyError>(
            Seq::new(n, |i: int| described(records[i])->0),
        ),
    decreases n,
{
    let all = Seq::new(n, |i: int| described(records[i])->0);
    if n == 0 {
        assert(all =~= Seq::<KeyModel>::empty());
    } else {
        let k = (n - 1) as nat;
        law_rings_hold_what_their_files_describe(records, k);
        let ring = Seq::new(k, |i: int| described(records[i])->0);
        let key = described(records[k as int])->0;
        assert forall|i: int| 0 <= i < ring.len() implies (#[trigger] ring[i]).key_id != key.key_id by {
            assert(ring[i] == described(records[i])->0);
            assert(described(records[i])->0.key_id != described(records[k as int])->0.key_id);
        }
        assert(described(records[k as int]) is Some);
        assert(add_fault(ring, key) is None);
        assert(all =~= ring.push(key));
    }
}

/// The first record that does not fit decides why there is no ring: it describes
/// no key, its key retires before it is activated, or its key is there already.
pub proof fn law_rings_are_refused_for_what_is_wrong(records: Seq<VerificationKeyRecord>, k: int)
    requires
        0 <= k < records.len(),
        fit_together(records, k),
    ensures
        ({
            let record = records[k];
            let r = loaded(records, records.len());
            let backward = record.retires_at is Some && record.retires_at->0 <= record.activates_at;
            let taken = exists|i: int|
                0 <= i < k && described(#[trigger] records[i])->0.key_id == described(record)->0.key_id;
            &&& described(record) is None ==> r == Err::<Seq<KeyModel>, TicketKeyError>(
                TicketKeyError::InvalidConfiguration,
            )
            &&& described(record) is Some && backward ==> r == Err::<Seq<KeyModel>, TicketKeyError>(
                TicketKeyError::InvalidVerificationKey,
            )
            &&& described(record) is Some && !backward && taken ==> r == Err::<Seq<KeyModel>, TicketKeyError>(
                TicketKeyError::DuplicateVerificationKey,
            )
        }),
{
    law_rings_hold_what_their_files_describe(records, k as nat);
    let ring = Seq::new(k as nat, |i: int| described(records[i])->0);
    let record = records[k];
    if exists|i: int| 0 <= i < k && described(#[trigger] records[i])->0.key_id == described(record)->0.key_id {
        let i = choose|i: int|
            0 <= i < k && described(#[trigger] records[i])->0.key_id == described(record)->0.key_id;
        assert(ring[i].key_id == described(record)->0.key_id);
    }
    if loaded(records, (k + 1) as nat) is Err {
        lemma_loading_stops(records, (k + 1) as nat, records.len());
    }
}

/// A file of another version, or with more than two hundred and fifty-six keys,
/// gives no ring; any other file gives the ring it describes.
pub proof fn law_files_give_rings(file: VerificationKeyFile, r: Result<VerificationKeyRing, TicketKeyError>)
    requires
        call_ensures(VerificationKeyRing::load, (&file,), r),
    ensures
        file.schema_version != 1 || file.keys@.len() > 256 ==> (r matches Err(error) && error
            == TicketKeyError::InvalidConfiguration),
        file.schema_version == 1 && file.keys@.len() <= 256 && fit_together(
            file.keys@,
            file.keys@.len() as int,
        ) ==> (r matches Ok(ring) && ring@ == Seq::new(
            file.keys@.len(),
            |i: int| described(file.keys@[i])->0,
        )),
{
    if fit_together(file.keys@, file.keys@.len() as int) {
        law_rings_hold_what_their_files_describe(file.keys@, file.keys@.len());
    }
}

/// A key file is a version byte and the seed of the key: what is written of a key
/// is the key when it is read, and nothing else is taken for a key.
pub proof fn law_key_files_are_read_back(
    seed: [u8; 32],
    made: Result<(TicketKey, Vec<u8>), TicketKeyError>,
    file: &[u8],
    r: Result<TicketKey, TicketKeyError>,
)
    requires
        call_ensures(TicketKey::create_from, (Some(seed),), made),
        call_ensures(TicketKey::load, (file,), r),
    ensures
        made matches Ok(m) && m.0@ == seed@ && m.1@ == seq![1u8] + seed@,
        made is Ok && file@ == made->Ok_0.1@ ==> (r matches Ok(key) && key@ == seed@),
        file@.len() == 33 && file@[0] == 1 ==> (r matches Ok(key) && file@ == seq![1u8] + key@),
        file@.len() != 33 || file@[0] != 1 ==> (r matches Err(error) && error == TicketKeyError::Invalid),
{
    if made is Ok && file@ == made->Ok_0.1@ {
        assert(file@[0] == 1);
        let key = r->Ok_0;
        assert(key@.len() == 32);
        assert forall|i: int| 0 <= i < 32 implies key@[i] == seed@[i] by {
            assert(file@[i + 1] == key@[i]);
        }
        assert(key@ =~= seed@);
    }
    if r is Ok {
        assert(file@[0] == 1);
        assert(file@.len() == 1 + r->Ok_0@.len());
    }
}

/// A key is refused as the transport key exactly if it is the transport key.
pub proof fn law_ticket_keys_are_not_transport_keys(
    key: TicketKey,
    transport: &[u8],
    r: Result<(), TicketKeyError>,
)
    requires
        call_ensures(TicketKey::ensure_separate_from, (&key, transport), r),
    ensures
        r is Err <==> transport@ == ed25519_public(key@),
        r matches Err(error) ==> error == TicketKeyError::KeySeparation,
{
}

/// A key is added behind the others, or refused without a change.
pub proof fn law_refused_keys_change_nothing(
    ring: &mut VerificationKeyRing,
    key: VerificationKey,
    r: Result<(), TicketKeyError>,
)
    requires
        call_ensures(VerificationKeyRing::add, (ring, key), r),
    ensures
        r is Ok ==> final(ring)@ == old(ring)@.push(key@),
        r is Err ==> final(ring)@ == old(ring)@,
        r is Ok <==> (key.retires_at is Some ==> key.activates_at < key.retires_at->0) && forall|i: int|
            0 <= i < old(ring)@.len() ==> (#[trigger] old(ring)@[i]).key_id != key.key_id@,
{
}

} // verus!
