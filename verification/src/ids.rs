//! Identifiers of the protocol.
use crate::bytes::{be128, be_bytes_128, same_array};
use crate::table::Key;
use crate::text::same_text;
use vstd::prelude::*;

verus! {

/// Every request number has been handed out.
#[derive(Clone, Copy, Debug, PartialEq, Eq, Structural)]
pub struct CorrelationIdExhausted;

/// Hands out request numbers, counting up and never repeating one.
#[derive(Debug)]
pub struct CorrelationIdGenerator {
    next: u128,
    exhausted: bool,
}

impl View for CorrelationIdGenerator {
    type V = Option<u128>;

    /// The number that comes next, if there is one left.
    closed spec fn view(&self) -> Option<u128> {
        if self.exhausted {
            None
        } else {
            Some(self.next)
        }
    }
}

/// The generator's state once it has handed out `x`.
pub open spec fn after_number(x: u128) -> Option<u128> {
    if x == u128::MAX {
        None
    } else {
        Some((x + 1) as u128)
    }
}

impl CorrelationIdGenerator {
    pub fn new(start: u128) -> (r: Self)
        ensures
            r@ == Some(start),
    {
        CorrelationIdGenerator { next: start, exhausted: false }
    }

    /// The next number as sixteen big-endian bytes; after the largest number
    /// every call fails.
    pub fn allocate(&mut self) -> (r: Result<[u8; 16], CorrelationIdExhausted>)
        ensures
            match old(self)@ {
                Some(x) => r matches Ok(id) && id@ == be128(x) && final(self)@ == after_number(x),
                None => r is Err && final(self)@ is None,
            },
    {
        if self.exhausted {
            return Err(CorrelationIdExhausted);
        }
        let value: u128 = self.next;
        if value == u128::MAX {
            self.exhausted = true;
        } else {
            self.next = value + 1;
        }
        Ok(be_bytes_128(value))
    }
}

/// The number that stands `n` places after `x`, if the generator gets there.
pub open spec fn nth_number(x: u128, n: nat) -> Option<u128>
    decreases n,
{
    if n == 0 {
        Some(x)
    } else {
        match nth_number(x, (n - 1) as nat) {
            Some(y) => after_number(y),
            None => None,
        }
    }
}

proof fn lemma_nth_number(x: u128, n: nat)
    ensures
        nth_number(x, n) == if x + n <= u128::MAX {
            Some((x + n) as u128)
        } else {
            None::<u128>
        },
    decreases n,
{
    if n > 0 {
        lemma_nth_number(x, (n - 1) as nat);
    }
}

/// Two allocations of one generator never give the same bytes.
pub proof fn law_correlation_ids_are_distinct(start: u128, i: nat, j: nat)
    requires
        i < j,
        nth_number(start, i) is Some,
        nth_number(start, j) is Some,
    ensures
        be128(nth_number(start, i)->0) != be128(nth_number(start, j)->0),
{
    lemma_nth_number(start, i);
    lemma_nth_number(start, j);
    crate::bytes::lemma_be128_injective(nth_number(start, i)->0, nth_number(start, j)->0);
}

#[derive(Clone, Copy, Debug, PartialEq, Eq, Structural)]
pub enum IdError {
    Invalid,
}

/// The most characters an identifier may have.
pub const MAX_ID_LENGTH: usize = 64;

/// The characters that identifiers are made of.
pub open spec fn id_char(c: char) -> bool {
    ||| 'a' <= c <= 'z'
    ||| 'A' <= c <= 'Z'
    ||| '0' <= c <= '9'
    ||| c == '_'
    ||| c == '-'
}

/// What a valid identifier is: between one and sixty-four letters, digits,
/// underscores and hyphens.
pub open spec fn id_text(s: Seq<char>) -> bool {
    &&& 1 <= s.len() <= MAX_ID_LENGTH
    &&& forall|i: int| 0 <= i < s.len() ==> id_char(#[trigger] s[i])
}

/// An identifier's UTF-8 form has one byte for each character.
pub proof fn lemma_id_utf8(s: Seq<char>)
    requires
        id_text(s),
    ensures
        vstd::utf8::encode_utf8(s).len() == s.len(),
        1 <= vstd::utf8::encode_utf8(s).len() <= MAX_ID_LENGTH,
{
    assert(vstd::utf8::is_ascii_chars(s));
    vstd::utf8::is_ascii_chars_encode_utf8(s);
}

fn id_byte(b: u8) -> (r: bool)
    requires
        b < 128,
    ensures
        r == id_char(b as char),
{
    let c = b as char;
    ('a' <= c && c <= 'z') || ('A' <= c && c <= 'Z') || ('0' <= c && c <= '9') || c == '_'
        || c == '-'
}

/// Checks an identifier and copies it.
fn validate(value: &str) -> (r: Result<String, IdError>)
    ensures
        match r {
            Ok(s) => id_text(value@) && s@ == value@,
            Err(_) => !id_text(value@),
        },
{
    if !value.is_ascii() {
        proof {
            if id_text(value@) {
                assert(vstd::utf8::is_ascii_chars(value@));
            }
        }
        return Err(IdError::Invalid);
    }
    let bytes = value.as_bytes();
    proof {
        vstd::utf8::is_ascii_chars_encode_utf8(value@);
    }
    if bytes.len() == 0 || bytes.len() > MAX_ID_LENGTH {
        return Err(IdError::Invalid);
    }
    let mut i: usize = 0;
    while i < bytes.len()
        invariant
            i <= bytes@.len(),
            bytes@.len() == value@.len(),
            forall|j: int| 0 <= j < value@.len() ==> value@[j] as u8 == #[trigger] bytes@[j],
            vstd::utf8::is_ascii_chars(value@),
            forall|j: int| 0 <= j < i ==> id_char(#[trigger] value@[j]),
        decreases bytes@.len() - i,
    {
        proof {
            let c = value@[i as int];
            assert('\0' <= c <= '\u{7f}');
            assert(c as u8 == bytes@[i as int]);
            assert((c as u8) as char == c);
        }
        if !id_byte(bytes[i]) {
            assert(!id_char(value@[i as int]));
            return Err(IdError::Invalid);
        }
        i = i + 1;
    }
    Ok(value.to_owned())
}

/// Names a credential.
#[derive(Debug, PartialEq, Eq, Hash)]
pub struct CredentialId {
    value: String,
}

impl View for CredentialId {
    type V = Seq<char>;

    closed spec fn view(&self) -> Seq<char> {
        self.value@
    }
}

impl CredentialId {
    #[verifier::type_invariant]
    pub open spec fn valid(self) -> bool {
        id_text(self@)
    }

    /// Accepts exactly the valid identifiers.
    pub fn new(value: &str) -> (r: Result<Self, IdError>)
        ensures
            match r {
                Ok(id) => id_text(value@) && id@ == value@,
                Err(_) => !id_text(value@),
            },
    {
        match validate(value) {
            Ok(value) => Ok(CredentialId { value }),
            Err(error) => Err(error),
        }
    }

    pub fn as_str(&self) -> (r: &str)
        ensures
            r@ == self@,
            id_text(self@),
    {
        proof {
            use_type_invariant(self);
        }
        self.value.as_str()
    }

    /// Whether two identifiers are the same.
    pub fn same(&self, other: &Self) -> (r: bool)
        ensures
            r == (self@ == other@),
    {
        same_text(self.value.as_str(), other.value.as_str())
    }
}

impl Clone for CredentialId {
    fn clone(&self) -> (r: Self)
        ensures
            r@ == self@,
    {
        proof {
            use_type_invariant(self);
        }
        CredentialId { value: self.value.clone() }
    }
}

/// Names a tenant: the scope in which selectors are resolved.
#[derive(Debug, PartialEq, Eq, Hash)]
pub struct Tenant {
    value: String,
}

impl View for Tenant {
    type V = Seq<char>;

    closed spec fn view(&self) -> Seq<char> {
        self.value@
    }
}

impl Tenant {
    #[verifier::type_invariant]
    pub open spec fn valid(self) -> bool {
        id_text(self@)
    }

    /// Accepts exactly the valid identifiers.
    pub fn new(value: &str) -> (r: Result<Self, IdError>)
        ensures
            match r {
                Ok(id) => id_text(value@) && id@ == value@,
                Err(_) => !id_text(value@),
            },
    {
        match validate(value) {
            Ok(value) => Ok(Tenant { value }),
            Err(error) => Err(error),
        }
    }

    pub fn as_str(&self) -> (r: &str)
        ensures
            r@ == self@,
            id_text(self@),
    {
        proof {
            use_type_invariant(self);
        }
        self.value.as_str()
    }

    /// Whether two identifiers are the same.
    pub fn same(&self, other: &Self) -> (r: bool)
        ensures
            r == (self@ == other@),
    {
        same_text(self.value.as_str(), other.value.as_str())
    }
}

impl Clone for Tenant {
    fn clone(&self) -> (r: Self)
        ensures
            r@ == self@,
    {
        proof {
            use_type_invariant(self);
        }
        Tenant { value: self.value.clone() }
    }
}

/// Names a set of limits.
#[derive(Debug, PartialEq, Eq, Hash)]
pub struct QuotaProfile {
    value: String,
}

impl View for QuotaProfile {
    type V = Seq<char>;

    closed spec fn view(&self) -> Seq<char> {
        self.value@
    }
}

impl QuotaProfile {
    #[verifier::type_invariant]
    pub open spec fn valid(self) -> bool {
        id_text(self@)
    }

    /// Accepts exactly the valid identifiers.
    pub fn new(value: &str) -> (r: Result<Self, IdError>)
        ensures
            match r {
                Ok(id) => id_text(value@) && id@ == value@,
                Err(_) => !id_text(value@),
            },
    {
        match validate(value) {
            Ok(value) => Ok(QuotaProfile { value }),
            Err(error) => Err(error),
        }
    }

    pub fn as_str(&self) -> (r: &str)
        ensures
            r@ == self@,
            id_text(self@),
    {
        proof {
            use_type_invariant(self);
        }
        self.value.as_str()
    }

    /// Whether two identifiers are the same.
    pub fn same(&self, other: &Self) -> (r: bool)
        ensures
            r == (self@ == other@),
    {
        same_text(self.value.as_str(), other.value.as_str())
    }
}

impl Clone for QuotaProfile {
    fn clone(&self) -> (r: Self)
        ensures
            r@ == self@,
    {
        proof {
            use_type_invariant(self);
        }
        QuotaProfile { value: self.value.clone() }
    }
}

/// Names a service behind a server.
#[derive(Debug, PartialEq, Eq, Hash)]
pub struct UpstreamId {
    value: String,
}

impl View for UpstreamId {
    type V = Seq<char>;

    closed spec fn view(&self) -> Seq<char> {
        self.value@
    }
}

impl UpstreamId {
    #[verifier::type_invariant]
    pub open spec fn valid(self) -> bool {
        id_text(self@)
    }

    /// Accepts exactly the valid identifiers.
    pub fn new(value: &str) -> (r: Result<Self, IdError>)
        ensures
            match r {
                Ok(id) => id_text(value@) && id@ == value@,
                Err(_) => !id_text(value@),
            },
    {
        match validate(value) {
            Ok(value) => Ok(UpstreamId { value }),
            Err(error) => Err(error),
        }
    }

    pub fn as_str(&self) -> (r: &str)
        ensures
            r@ == self@,
            id_text(self@),
    {
        proof {
            use_type_invariant(self);
        }
        self.value.as_str()
    }

    /// Whether two identifiers are the same.
    pub fn same(&self, other: &Self) -> (r: bool)
        ensures
            r == (self@ == other@),
    {
        same_text(self.value.as_str(), other.value.as_str())
    }
}

impl Key for UpstreamId {
    fn same(&self, other: &Self) -> (r: bool) {
        same_text(self.value.as_str(), other.value.as_str())
    }
}

impl Clone for UpstreamId {
    fn clone(&self) -> (r: Self)
        ensures
            r@ == self@,
    {
        proof {
            use_type_invariant(self);
        }
        UpstreamId { value: self.value.clone() }
    }
}

/// Marks one run of a server.
#[derive(Clone, Copy, Debug, PartialEq, Eq, Hash)]
pub struct InstanceId {
    bytes: [u8; 16],
}

impl View for InstanceId {
    type V = [u8; 16];

    closed spec fn view(&self) -> [u8; 16] {
        self.bytes
    }
}

impl InstanceId {
    pub fn new(bytes: [u8; 16]) -> (r: Self)
        ensures
            r@ == bytes,
    {
        InstanceId { bytes }
    }

    pub fn as_bytes(&self) -> (r: &[u8; 16])
        ensures
            *r == self@,
    {
        &self.bytes
    }

    /// Whether two runs are the same.
    pub fn same(&self, other: &Self) -> (r: bool)
        ensures
            r == (self@ == other@),
    {
        same_array(&self.bytes, &other.bytes)
    }
}

/// An instance is determined by its bytes.
pub proof fn lemma_instance_view(a: InstanceId, b: InstanceId)
    ensures
        a@ == b@ ==> a == b,
{
}

/// The number of a registration, counted from one.
#[derive(Clone, Copy, Debug, PartialEq, Eq, Hash, Structural)]
pub struct RegistrationRevision {
    value: u64,
}

impl View for RegistrationRevision {
    type V = u64;

    closed spec fn view(&self) -> u64 {
        self.value
    }
}

impl RegistrationRevision {
    #[verifier::type_invariant]
    pub open spec fn valid(self) -> bool {
        self@ != 0
    }

    /// Accepts every number but zero.
    pub fn new(value: u64) -> (r: Option<Self>)
        ensures
            match r {
                Some(revision) => value != 0 && revision@ == value,
                None => value == 0,
            },
    {
        if value == 0 {
            None
        } else {
            Some(RegistrationRevision { value })
        }
    }

    pub fn get(self) -> (r: u64)
        ensures
            r == self@,
            r != 0,
    {
        proof {
            use_type_invariant(self);
        }
        self.value
    }
}

/// A revision is determined by its number.
pub proof fn lemma_revision_view(a: RegistrationRevision, b: RegistrationRevision)
    ensures
        a@ == b@ ==> a == b,
{
}

/// Request numbers count up one by one until the largest, and then there is none.
pub proof fn law_correlation_ids_count_up(start: u128, n: nat)
    ensures
        start + n <= 0xffff_ffff_ffff_ffff_ffff_ffff_ffff_ffff ==> nth_number(start, n) is Some && nth_number(
            start,
            n,
        )->0 == start + n,
        start + n > 0xffff_ffff_ffff_ffff_ffff_ffff_ffff_ffff ==> nth_number(start, n) is None,
{
    lemma_nth_number(start, n);
}

/// An identifier has between one and sixty-four characters, and each of them is a
/// letter or a digit of ASCII, an underscore or a hyphen.
pub proof fn law_identifiers_are_plain(text: Seq<char>)
    ensures
        id_text(text) <==> 1 <= text.len() <= 64 && forall|i: int|
            0 <= i < text.len() ==> ({
                let c = #[trigger] text[i] as int;
                0x61 <= c <= 0x7a || 0x41 <= c <= 0x5a || 0x30 <= c <= 0x39 || c == 0x5f || c == 0x2d
            }),
{
    if 1 <= text.len() <= 64 && forall|i: int|
        0 <= i < text.len() ==> ({
            let c = #[trigger] text[i] as int;
            0x61 <= c <= 0x7a || 0x41 <= c <= 0x5a || 0x30 <= c <= 0x39 || c == 0x5f || c == 0x2d
        }) {
        assert forall|i: int| 0 <= i < text.len() implies id_char(#[trigger] text[i]) by {
            let c = text[i] as int;
            assert(0x61 <= c <= 0x7a || 0x41 <= c <= 0x5a || 0x30 <= c <= 0x39 || c == 0x5f || c == 0x2d);
        }
    }
}

/// An identifier of whatever kind is the text that it was made of, and is made of
/// every text that is fit to be one.
pub proof fn law_identifiers_are_their_text(
    text: &str,
    credential: Result<CredentialId, IdError>,
    tenant: Result<Tenant, IdError>,
    quota: Result<QuotaProfile, IdError>,
    upstream: Result<UpstreamId, IdError>,
)
    requires
        call_ensures(CredentialId::new, (text,), credential),
        call_ensures(Tenant::new, (text,), tenant),
        call_ensures(QuotaProfile::new, (text,), quota),
        call_ensures(UpstreamId::new, (text,), upstream),
    ensures
        credential is Ok <==> id_text(text@),
        tenant is Ok <==> id_text(text@),
        quota is Ok <==> id_text(text@),
        upstream is Ok <==> id_text(text@),
        credential is Ok ==> credential->Ok_0@ == text@,
        tenant is Ok ==> tenant->Ok_0@ == text@,
        quota is Ok ==> quota->Ok_0@ == text@,
        upstream is Ok ==> upstream->Ok_0@ == text@,
{
}

/// Revisions are counted from one.
pub proof fn law_revisions_are_counted_from_one(value: u64, r: Option<RegistrationRevision>)
    requires
        call_ensures(RegistrationRevision::new, (value,), r),
    ensures
        r is Some <==> value >= 1,
        r is Some ==> r->0@ == value,
{
}

/// Each number that is handed out is written as sixteen bytes and the next one
/// follows it; after the largest there is none, and then never again.
pub proof fn law_numbers_are_handed_out_in_order(
    a: &mut CorrelationIdGenerator,
    first: Result<[u8; 16], CorrelationIdExhausted>,
    b: &mut CorrelationIdGenerator,
    second: Result<[u8; 16], CorrelationIdExhausted>,
)
    requires
        call_ensures(CorrelationIdGenerator::allocate, (a,), first),
        call_ensures(CorrelationIdGenerator::allocate, (b,), second),
        *old(b) == *final(a),
    ensures
        first is Ok <==> old(a)@ is Some,
        first is Ok ==> first->Ok_0@ == be128(old(a)@->0),
        old(a)@ matches Some(x) && x < u128::MAX ==> (second matches Ok(id) && id@ == be128(
            (old(a)@->0 + 1) as u128,
        )),
        old(a)@ == Some(u128::MAX) || old(a)@ is None ==> second is Err && final(b)@ is None,
{
}

} // verus!
