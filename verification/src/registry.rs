//! The registry: which services a server offers, and the messages with which
//! it keeps its registration alive.
use crate::bytes::{be16, be32, be64, lemma_same_parts, put_bytes, put_u16, put_u32, put_u64, put_u8};
use crate::crypto::{sha256, sha256_of};
use crate::error::PublicError;
use crate::ids::{id_text, lemma_id_utf8, InstanceId, RegistrationRevision, UpstreamId};
use crate::selector::{
    law_selector_round_trip, selector_bytes, valid_selector, ScopedSelector, SelectorError, SelectorModel, UnscopedSelector,
    MAX_SELECTOR_BYTES,
};
use crate::text::{
    lemma_precedes_asymmetric, lemma_precedes_transitive, lemma_utf8_injective, precedes, rank_bytes,
    Rank,
};
use vstd::prelude::*;
use vstd::utf8::encode_utf8;

verus! {

/// Relaying is understood.
pub const RELAY_V2: u32 = 1;

/// Direct connections over TCP are understood.
pub const DIRECT_TCP: u32 = 2;

/// Direct connections over QUIC are understood.
pub const DIRECT_QUIC: u32 = 4;

/// Hole punching is understood.
pub const DCUTR: u32 = 8;

/// The largest set of known capabilities.
pub const KNOWN_CAPABILITIES: u32 = 15;

/// The most services of a server.
pub const MAX_SERVICES: usize = 128;

/// What a peer's software can do, as a set of bits.
#[derive(Clone, Copy, Debug, PartialEq, Eq, Hash, Structural)]
pub struct Capabilities {
    bits: u32,
}

impl View for Capabilities {
    type V = u32;

    closed spec fn view(&self) -> u32 {
        self.bits
    }
}

/// Whether every bit is one of the known capabilities.
pub open spec fn known_bits(bits: u32) -> bool {
    bits <= KNOWN_CAPABILITIES
}

impl Capabilities {
    #[verifier::type_invariant]
    pub open spec fn valid(self) -> bool {
        known_bits(self@)
    }

    pub fn empty() -> (r: Self)
        ensures
            r@ == 0,
    {
        Capabilities { bits: 0 }
    }

    /// Every known capability.
    pub fn all() -> (r: Self)
        ensures
            r@ == KNOWN_CAPABILITIES,
    {
        Capabilities { bits: KNOWN_CAPABILITIES }
    }

    pub fn bits(self) -> (r: u32)
        ensures
            r == self@,
            known_bits(r),
    {
        proof {
            use_type_invariant(self);
        }
        self.bits
    }

    /// Accepts exactly the sets without an unknown bit.
    pub fn from_bits(bits: u32) -> (r: Option<Self>)
        ensures
            match r {
                Some(c) => known_bits(bits) && c@ == bits,
                None => !known_bits(bits),
            },
    {
        assert((bits & !15u32 == 0) <==> bits <= 15) by (bit_vector);
        if bits & !KNOWN_CAPABILITIES == 0 {
            Some(Capabilities { bits })
        } else {
            None
        }
    }

    /// Whether every capability of `other` is also one of these.
    pub fn contains(self, other: Self) -> (r: bool)
        ensures
            r == (self@ & other@ == other@),
    {
        self.bits & other.bits == other.bits
    }

    /// Whether some kind of direct connection is understood.
    pub fn direct_transport(self) -> (r: bool)
        ensures
            r == (self@ & DIRECT_TCP == DIRECT_TCP || self@ & DIRECT_QUIC == DIRECT_QUIC),
    {
        self.bits & DIRECT_TCP == DIRECT_TCP || self.bits & DIRECT_QUIC == DIRECT_QUIC
    }
}

/// Whether a service takes tunnels.
#[derive(Clone, Copy, Debug, PartialEq, Eq, Hash, Structural)]
pub enum Health {
    Ready,
    Unavailable,
}

/// The byte that stands for a health state.
pub open spec fn health_wire(health: Health) -> u8 {
    match health {
        Health::Ready => 0,
        Health::Unavailable => 1,
    }
}

impl Health {
    /// The byte that stands for the state.
    pub fn wire(self) -> (r: u8)
        ensures
            r == health_wire(self),
    {
        match self {
            Health::Ready => 0,
            Health::Unavailable => 1,
        }
    }
}

/// A service that a server offers.
#[derive(Debug, PartialEq, Eq, Hash)]
pub struct ServiceAdvertisementV1 {
    upstream_id: UpstreamId,
    selector: UnscopedSelector,
    health: Health,
}

/// What an advertisement says.
#[verifier::ext_equal]
pub struct ServiceModel {
    pub upstream_id: Seq<char>,
    pub selector: SelectorModel,
    pub health: Health,
}

impl View for ServiceAdvertisementV1 {
    type V = ServiceModel;

    closed spec fn view(&self) -> ServiceModel {
        ServiceModel {
            upstream_id: self.upstream_id@,
            selector: self.selector@,
            health: self.health,
        }
    }
}

/// What a valid advertisement is.
pub open spec fn valid_service(s: ServiceModel) -> bool {
    id_text(s.upstream_id) && valid_selector(s.selector)
}

impl ServiceAdvertisementV1 {
    #[verifier::type_invariant]
    pub open spec fn valid(self) -> bool {
        valid_service(self@)
    }

    pub fn new(upstream_id: UpstreamId, selector: UnscopedSelector, health: Health) -> (r: Self)
        ensures
            r@ == (ServiceModel { upstream_id: upstream_id@, selector: selector@, health }),
    {
        proof {
            use_type_invariant(&upstream_id);
            use_type_invariant(&selector);
        }
        ServiceAdvertisementV1 { upstream_id, selector, health }
    }

    pub fn upstream_id(&self) -> (r: &UpstreamId)
        ensures
            r@ == self@.upstream_id,
    {
        &self.upstream_id
    }

    pub fn selector(&self) -> (r: &UnscopedSelector)
        ensures
            r@ == self@.selector,
    {
        &self.selector
    }

    pub fn health(&self) -> (r: Health)
        ensures
            r == self@.health,
    {
        self.health
    }
}

impl Clone for ServiceAdvertisementV1 {
    fn clone(&self) -> (r: Self)
        ensures
            r@ == self@,
    {
        proof {
            use_type_invariant(self);
        }
        let upstream_id = self.upstream_id.clone();
        let selector = self.selector.clone();
        ServiceAdvertisementV1 { upstream_id, selector, health: self.health }
    }
}

/// What the advertisements of a list say.
pub open spec fn service_models(services: Seq<ServiceAdvertisementV1>) -> Seq<ServiceModel> {
    Seq::new(services.len(), |i: int| services[i]@)
}

/// Whether services stand in strictly ascending order of their identifiers.
pub open spec fn ascending_ids(services: Seq<ServiceModel>) -> bool {
    forall|i: int, j: int|
        0 <= i < j < services.len() ==> precedes(
            encode_utf8((#[trigger] services[i]).upstream_id),
            encode_utf8((#[trigger] services[j]).upstream_id),
        )
}

/// Whether no two services share an identifier.
pub open spec fn distinct_ids(services: Seq<ServiceModel>) -> bool {
    forall|i: int, j: int|
        0 <= i < j < services.len() ==> (#[trigger] services[i]).upstream_id != (
        #[trigger] services[j]).upstream_id
}

/// Whether no two services share a selector.
pub open spec fn distinct_selectors(services: Seq<ServiceModel>) -> bool {
    forall|i: int, j: int|
        0 <= i < j < services.len() ==> (#[trigger] services[i]).selector != (
        #[trigger] services[j]).selector
}

/// What a valid set of services is.
pub open spec fn valid_services(services: Seq<ServiceModel>) -> bool {
    &&& 1 <= services.len() <= MAX_SERVICES
    &&& ascending_ids(services)
    &&& distinct_selectors(services)
    &&& forall|i: int| 0 <= i < services.len() ==> valid_service(#[trigger] services[i])
}

/// A service in the canonical form of its set.
pub open spec fn service_bytes(s: ServiceModel) -> Seq<u8> {
    long_blob(encode_utf8(s.upstream_id)) + (long_blob(selector_bytes(s.selector)) + seq![
        health_wire(s.health),
    ])
}

/// Bytes preceded by their length as four bytes.
pub open spec fn long_blob(b: Seq<u8>) -> Seq<u8> {
    be32(b.len() as u32) + b
}

/// Services one after the other.
pub open spec fn services_bytes(services: Seq<ServiceModel>) -> Seq<u8>
    decreases services.len(),
{
    if services.len() == 0 {
        Seq::empty()
    } else {
        services_bytes(services.drop_last()) + service_bytes(services.last())
    }
}

/// The canonical form of a set of services.
pub open spec fn service_set_bytes(services: Seq<ServiceModel>) -> Seq<u8> {
    encode_utf8("p2x-service-set-v1\0"@) + (be16(services.len() as u16) + services_bytes(services))
}

proof fn lemma_services_bytes_len(services: Seq<ServiceModel>)
    requires
        forall|i: int| 0 <= i < services.len() ==> valid_service(#[trigger] services[i]),
    ensures
        services_bytes(services).len() <= services.len() * (9 + 64 + MAX_SELECTOR_BYTES),
    decreases services.len(),
{
    if services.len() > 0 {
        assert(valid_service(services.last()));
        lemma_id_utf8(services.last().upstream_id);
        assert(services.drop_last().len() == services.len() - 1);
        assert forall|i: int| 0 <= i < services.drop_last().len() implies valid_service(
            #[trigger] services.drop_last()[i],
        ) by {
            assert(services.drop_last()[i] == services[i]);
        }
        lemma_services_bytes_len(services.drop_last());
        crate::bytes::lemma_be32(0, Seq::empty());
        assert(service_bytes(services.last()).len() <= 9 + 64 + MAX_SELECTOR_BYTES);
        assert((services.len() - 1) * (9 + 64 + MAX_SELECTOR_BYTES) + (9 + 64 + MAX_SELECTOR_BYTES)
            == services.len() * (9 + 64 + MAX_SELECTOR_BYTES)) by (nonlinear_arith);
    }
}

/// The canonical form of a valid set fits a four-byte length.
pub proof fn lemma_service_set_len(services: Seq<ServiceModel>)
    requires
        valid_services(services),
    ensures
        service_set_bytes(services).len() <= 600_000,
{
    lemma_services_bytes_len(services);
    assert(services.len() * (9 + 64 + MAX_SELECTOR_BYTES) <= 128 * (9 + 64 + MAX_SELECTOR_BYTES))
        by (nonlinear_arith)
        requires
            services.len() <= 128,
    ;
    reveal_strlit("p2x-service-set-v1\0");
    vstd::utf8::is_ascii_chars_encode_utf8("p2x-service-set-v1\0"@);
}

/// Appends bytes preceded by their length.
fn put_long_blob(out: &mut Vec<u8>, bytes: &[u8])
    requires
        bytes@.len() <= u32::MAX,
    ensures
        final(out)@ == old(out)@ + long_blob(bytes@),
{
    let ghost before = out@;
    put_u32(out, bytes.len() as u32);
    put_bytes(out, bytes);
    proof {
        crate::bytes::lemma_add_assoc(before, be32(bytes@.len() as u32), bytes@);
    }
}

/// The services of a server, sorted by identifier.
#[derive(Debug, PartialEq, Eq)]
pub struct ServiceSet {
    services: Vec<ServiceAdvertisementV1>,
}

impl View for ServiceSet {
    type V = Seq<ServiceModel>;

    closed spec fn view(&self) -> Seq<ServiceModel> {
        service_models(self.services@)
    }
}

/// Whether a list repeats an identifier or a selector.
fn has_duplicate(services: &Vec<ServiceAdvertisementV1>) -> (r: bool)
    ensures
        r == !(distinct_ids(service_models(services@)) && distinct_selectors(
            service_models(services@),
        )),
{
    let ghost models = service_models(services@);
    let mut i: usize = 0;
    while i < services.len()
        invariant
            i <= services@.len(),
            models == service_models(services@),
            forall|a: int, b: int|
                0 <= a < i && a < b < models.len() ==> (#[trigger] models[a]).upstream_id != (
                #[trigger] models[b]).upstream_id && models[a].selector != models[b].selector,
        decreases services@.len() - i,
    {
        let mut j: usize = i + 1;
        while j < services.len()
            invariant
                i < j <= services@.len(),
                models == service_models(services@),
                forall|b: int|
                    i < b < j ==> models[i as int].upstream_id != (#[trigger] models[b]).upstream_id
                        && models[i as int].selector != models[b].selector,
            decreases services@.len() - j,
        {
            let same_id = services[i].upstream_id.same(&services[j].upstream_id);
            let same_selector = services[i].selector.same(&services[j].selector);
            if same_id || same_selector {
                assert(models[i as int].upstream_id == models[j as int].upstream_id
                    || models[i as int].selector == models[j as int].selector);
                return true;
            }
            j = j + 1;
        }
        i = i + 1;
    }
    false
}

/// Where a service belongs in a sorted list that lacks its identifier.
fn place_for(sorted: &Vec<ServiceAdvertisementV1>, service: &ServiceAdvertisementV1) -> (r: usize)
    requires
        ascending_ids(service_models(sorted@)),
        forall|i: int|
            0 <= i < sorted@.len() ==> (#[trigger] service_models(sorted@)[i]).upstream_id
                != service@.upstream_id,
    ensures
        r <= sorted@.len(),
        ascending_ids(service_models(sorted@).insert(r as int, service@)),
{
    let ghost models = service_models(sorted@);
    let ghost key = encode_utf8(service@.upstream_id);
    let mut i: usize = 0;
    while i < sorted.len()
        invariant_except_break
            i <= sorted@.len(),
            models == service_models(sorted@),
            key == encode_utf8(service@.upstream_id),
            ascending_ids(models),
            forall|a: int| 0 <= a < models.len() ==> (#[trigger] models[a]).upstream_id != service@.upstream_id,
            forall|a: int| 0 <= a < i ==> precedes(encode_utf8((#[trigger] models[a]).upstream_id), key),
        ensures
            i <= sorted@.len(),
            forall|a: int| 0 <= a < i ==> precedes(encode_utf8((#[trigger] models[a]).upstream_id), key),
            forall|a: int|
                i <= a < models.len() ==> precedes(key, encode_utf8((#[trigger] models[a]).upstream_id)),
        decreases sorted@.len() - i,
    {
        match rank_bytes(
            sorted[i].upstream_id.as_str().as_bytes(),
            service.upstream_id.as_str().as_bytes(),
        ) {
            Rank::Before => {},
            Rank::Same => {
                proof {
                    lemma_utf8_injective(models[i as int].upstream_id, service@.upstream_id);
                    assert(false);
                }
            },
            Rank::After => {
                assert forall|a: int| i <= a < models.len() implies precedes(
                    key,
                    encode_utf8((#[trigger] models[a]).upstream_id),
                ) by {
                    if a > i {
                        lemma_precedes_transitive(
                            key,
                            encode_utf8(models[i as int].upstream_id),
                            encode_utf8(models[a].upstream_id),
                        );
                    }
                }
                break;
            },
        }
        i = i + 1;
    }
    i
}

impl ServiceSet {
    #[verifier::type_invariant]
    pub open spec fn valid(self) -> bool {
        valid_services(self@)
    }

    /// Accepts between one and 128 services that share neither identifier nor
    /// selector, and sorts them.
    pub fn new(services: Vec<ServiceAdvertisementV1>) -> (r: Result<Self, SelectorError>)
        ensures
            ({
                let models = service_models(services@);
                match r {
                    Ok(set) => {
                        &&& 1 <= models.len() <= MAX_SERVICES
                        &&& distinct_ids(models)
                        &&& distinct_selectors(models)
                        &&& set@.len() == models.len()
                        &&& forall|m: ServiceModel| #[trigger] set@.contains(m) <==> models.contains(m)
                        &&& valid_services(set@)
                    },
                    Err(SelectorError::ServiceCount) => !(1 <= models.len() <= MAX_SERVICES),
                    Err(SelectorError::DuplicateService) => 1 <= models.len() <= MAX_SERVICES && !(
                    distinct_ids(models) && distinct_selectors(models)),
                    Err(_) => false,
                }
            }),
    {
        if services.len() == 0 || services.len() > MAX_SERVICES {
            return Err(SelectorError::ServiceCount);
        }
        if has_duplicate(&services) {
            return Err(SelectorError::DuplicateService);
        }
        let ghost models = service_models(services@);
        let count: usize = services.len();
        let mut rest = services;
        let mut sorted: Vec<ServiceAdvertisementV1> = Vec::new();
        proof {
            assert(models.take(count as int) =~= models);
            assert(service_models(sorted@) =~= Seq::<ServiceModel>::empty());
        }
        while rest.len() > 0
            invariant
                rest@.len() <= count,
                count == models.len(),
                sorted@.len() == count - rest@.len(),
                service_models(rest@) == models.take(rest@.len() as int),
                distinct_ids(models),
                distinct_selectors(models),
                ascending_ids(service_models(sorted@)),
                forall|i: int| 0 <= i < sorted@.len() ==> valid_service(#[trigger] service_models(sorted@)[i]),
                forall|m: ServiceModel|
                    #[trigger] service_models(sorted@).contains(m) <==> exists|k: int|
                        rest@.len() <= k < count && models[k] == m,
            decreases rest@.len(),
        {
            let ghost before = service_models(sorted@);
            let ghost n = rest@.len() - 1;
            let ghost old_rest = rest@;
            let service = match rest.pop() {
                Some(service) => service,
                None => return Err(SelectorError::ServiceCount),
            };
            let ghost model = service@;
            proof {
                use_type_invariant(&service);
                assert(model == service_models(old_rest)[n]);
                assert(model == models[n]);
                assert forall|i: int| 0 <= i < sorted@.len() implies (
                #[trigger] service_models(sorted@)[i]).upstream_id != model.upstream_id by {
                    assert(before.contains(before[i]));
                    let k = choose|k: int| n + 1 <= k < count && models[k] == before[i];
                    assert(models[n].upstream_id != models[k].upstream_id);
                }
                assert(service_models(rest@) =~= models.take(n));
            }
            let place: usize = place_for(&sorted, &service);
            sorted.insert(place, service);
            proof {
                let after = service_models(sorted@);
                assert(after =~= before.insert(place as int, model));
                assert forall|m: ServiceModel| #[trigger] after.contains(m) <==> exists|k: int|
                    n <= k < count && models[k] == m by {
                    lemma_insert_contains(before, place as int, model, m);
                    if after.contains(m) {
                        if m == model {
                            assert(models[n] == m);
                        } else {
                            let k = choose|k: int| n + 1 <= k < count && models[k] == m;
                            assert(models[k] == m);
                        }
                    }
                    if exists|k: int| n <= k < count && models[k] == m {
                        let k = choose|k: int| n <= k < count && models[k] == m;
                        if k > n {
                            assert(before.contains(m));
                        }
                    }
                }
                assert forall|i: int| 0 <= i < sorted@.len() implies valid_service(
                    #[trigger] service_models(sorted@)[i],
                ) by {
                    if i < place {
                        assert(after[i] == before[i]);
                    } else if i > place {
                        assert(after[i] == before[i - 1]);
                    }
                }
            }
        }
        proof {
            let done = service_models(sorted@);
            assert forall|m: ServiceModel| #[trigger] done.contains(m) <==> models.contains(m) by {
                if models.contains(m) {
                    let k = choose|k: int| 0 <= k < models.len() && models[k] == m;
                    assert(models[k] == m);
                }
            }
            assert(distinct_selectors(done)) by {
                assert forall|i: int, j: int| 0 <= i < j < done.len() implies (
                #[trigger] done[i]).selector != (#[trigger] done[j]).selector by {
                    assert(done.contains(done[i]));
                    assert(done.contains(done[j]));
                    let a = choose|k: int| 0 <= k < count && models[k] == done[i];
                    let b = choose|k: int| 0 <= k < count && models[k] == done[j];
                    lemma_precedes_asymmetric(
                        encode_utf8(done[i].upstream_id),
                        encode_utf8(done[j].upstream_id),
                    );
                    if a < b {
                        assert(models[a].selector != models[b].selector);
                    } else {
                        assert(models[b].selector != models[a].selector);
                    }
                }
            }
        }
        Ok(ServiceSet { services: sorted })
    }

    pub fn as_slice(&self) -> (r: &[ServiceAdvertisementV1])
        ensures
            service_models(r@) == self@,
    {
        self.services.as_slice()
    }

    /// The canonical form of the set.
    pub fn canonical_bytes(&self) -> (r: Vec<u8>)
        ensures
            r@ == service_set_bytes(self@),
    {
        proof {
            use_type_invariant(self);
        }
        let mut out: Vec<u8> = vstd::slice::slice_to_vec("p2x-service-set-v1\0".as_bytes());
        let ghost head = encode_utf8("p2x-service-set-v1\0"@);
        put_u16(&mut out, self.services.len() as u16);
        let ghost count = be16(self@.len() as u16);
        let mut i: usize = 0;
        proof {
            assert(self@.take(0) =~= Seq::<ServiceModel>::empty());
            assert(out@ =~= head + count + services_bytes(self@.take(0)));
        }
        while i < self.services.len()
            invariant
                i <= self.services@.len(),
                valid_services(self@),
                out@ == head + count + services_bytes(self@.take(i as int)),
            decreases self.services@.len() - i,
        {
            let ghost so_far = services_bytes(self@.take(i as int));
            let ghost s = self@[i as int];
            let service = &self.services[i];
            assert(s == service@);
            assert(valid_service(s));
            let id = service.upstream_id.as_str();
            let selector = service.selector.canonical_bytes(None);
            proof {
                lemma_id_utf8(id@);
            }
            put_long_blob(&mut out, id.as_bytes());
            put_long_blob(&mut out, selector.as_slice());
            put_u8(&mut out, service.health.wire());
            proof {
                assert(self@.take(i + 1).drop_last() =~= self@.take(i as int));
                assert(self@.take(i + 1).last() == s);
                assert(out@ =~= head + count + (so_far + service_bytes(s)));
            }
            i = i + 1;
        }
        proof {
            assert(self@.take(i as int) =~= self@);
            assert(out@ =~= service_set_bytes(self@));
        }
        out
    }

    /// The digest of the set.
    pub fn hash(&self) -> (r: [u8; 32])
        ensures
            r@ == sha256_of(service_set_bytes(self@)),
    {
        let bytes = self.canonical_bytes();
        sha256(bytes.as_slice())
    }
}

proof fn lemma_insert_contains(s: Seq<ServiceModel>, i: int, x: ServiceModel, m: ServiceModel)
    requires
        0 <= i <= s.len(),
    ensures
        s.insert(i, x).contains(m) <==> m == x || s.contains(m),
{
    let t = s.insert(i, x);
    if t.contains(m) {
        let j = choose|j: int| 0 <= j < t.len() && t[j] == m;
        if j < i {
            assert(s[j] == m);
        } else if j > i {
            assert(s[j - 1] == m);
        }
    }
    if m == x {
        assert(t[i] == m);
    }
    if s.contains(m) {
        let j = choose|j: int| 0 <= j < s.len() && s[j] == m;
        if j < i {
            assert(t[j] == m);
        } else {
            assert(t[j + 1] == m);
        }
    }
}

impl Clone for ServiceSet {
    fn clone(&self) -> (r: Self)
        ensures
            r@ == self@,
    {
        proof {
            use_type_invariant(self);
        }
        let mut services: Vec<ServiceAdvertisementV1> = Vec::new();
        let mut i: usize = 0;
        while i < self.services.len()
            invariant
                i <= self.services@.len(),
                services@.len() == i,
                forall|j: int| 0 <= j < i ==> (#[trigger] services@[j])@ == self.services@[j]@,
            decreases self.services@.len() - i,
        {
            let service = self.services[i].clone();
            services.push(service);
            i = i + 1;
        }
        assert(service_models(services@) =~= service_models(self.services@));
        ServiceSet { services }
    }
}

/// Two valid sets with the same services are the same: order is settled by
/// the identifiers.
pub proof fn law_service_set_is_determined_by_its_members(a: Seq<ServiceModel>, b: Seq<ServiceModel>)
    requires
        ascending_ids(a),
        ascending_ids(b),
        forall|m: ServiceModel| a.contains(m) <==> b.contains(m),
    ensures
        a == b,
    decreases a.len(),
{
    if a.len() == 0 {
        if b.len() > 0 {
            assert(b.contains(b[0]));
            assert(a.contains(b[0]));
        }
        assert(a =~= b);
    } else {
        assert(a.contains(a[0]));
        assert(b.contains(a[0]));
        let x = a.last();
        assert(a.contains(x));
        let ix = choose|k: int| 0 <= k < b.len() && b[k] == x;
        let y = b.last();
        assert(b.contains(y));
        let iy = choose|k: int| 0 <= k < a.len() && a[k] == y;
        if x != y {
            assert(ix < b.len() - 1);
            assert(iy < a.len() - 1);
            lemma_precedes_asymmetric(encode_utf8(b[ix].upstream_id), encode_utf8(y.upstream_id));
            assert(precedes(encode_utf8(a[iy].upstream_id), encode_utf8(a[a.len() - 1].upstream_id)));
        }
        let a1 = a.drop_last();
        let b1 = b.drop_last();
        assert forall|m: ServiceModel| a1.contains(m) <==> b1.contains(m) by {
            if a1.contains(m) {
                let k = choose|k: int| 0 <= k < a1.len() && a1[k] == m;
                assert(a[k] == m);
                assert(a.contains(m));
                let l = choose|l: int| 0 <= l < b.len() && b[l] == m;
                lemma_precedes_asymmetric(
                    encode_utf8(a[k].upstream_id),
                    encode_utf8(a[a.len() - 1].upstream_id),
                );
                assert(l < b.len() - 1);
                assert(b1[l] == m);
            }
            if b1.contains(m) {
                let k = choose|k: int| 0 <= k < b1.len() && b1[k] == m;
                assert(b[k] == m);
                assert(b.contains(m));
                let l = choose|l: int| 0 <= l < a.len() && a[l] == m;
                lemma_precedes_asymmetric(
                    encode_utf8(b[k].upstream_id),
                    encode_utf8(b[b.len() - 1].upstream_id),
                );
                assert(l < a.len() - 1);
                assert(a1[l] == m);
            }
        }
        law_service_set_is_determined_by_its_members(a1, b1);
        assert(a =~= a1.push(x));
        assert(b =~= b1.push(y));
    }
}

proof fn lemma_same_long_blobs(a: Seq<u8>, x: Seq<u8>, b: Seq<u8>, y: Seq<u8>)
    requires
        a.len() <= u32::MAX,
        b.len() <= u32::MAX,
        long_blob(a) + x == long_blob(b) + y,
    ensures
        a == b,
        x == y,
{
    let m: u32 = a.len() as u32;
    let n: u32 = b.len() as u32;
    crate::bytes::lemma_add_assoc(be32(m), a, x);
    crate::bytes::lemma_add_assoc(be32(n), b, y);
    crate::bytes::lemma_be32(m, Seq::empty());
    crate::bytes::lemma_be32(n, Seq::empty());
    lemma_same_parts(be32(m), a + x, be32(n), b + y);
    lemma_same_parts(a, x, b, y);
}

proof fn lemma_same_service(a: ServiceModel, x: Seq<u8>, b: ServiceModel, y: Seq<u8>)
    requires
        valid_service(a),
        valid_service(b),
        service_bytes(a) + x == service_bytes(b) + y,
    ensures
        a == b,
        x == y,
{
    let none = Seq::<u8>::empty();
    let (ai, bi) = (encode_utf8(a.upstream_id), encode_utf8(b.upstream_id));
    let (asel, bsel) = (selector_bytes(a.selector), selector_bytes(b.selector));
    let (ah, bh) = (seq![health_wire(a.health)], seq![health_wire(b.health)]);
    lemma_id_utf8(a.upstream_id);
    lemma_id_utf8(b.upstream_id);
    assert(service_bytes(a) + x =~= long_blob(ai) + (long_blob(asel) + (ah + x)));
    assert(service_bytes(b) + y =~= long_blob(bi) + (long_blob(bsel) + (bh + y)));
    lemma_same_long_blobs(ai, long_blob(asel) + (ah + x), bi, long_blob(bsel) + (bh + y));
    lemma_same_long_blobs(asel, ah + x, bsel, bh + y);
    lemma_same_parts(ah, x, bh, y);
    assert(ah[0] == bh[0]);
    lemma_utf8_injective(a.upstream_id, b.upstream_id);
    law_selector_round_trip(a.selector, none);
    law_selector_round_trip(b.selector, none);
}

proof fn lemma_same_services(a: Seq<ServiceModel>, x: Seq<u8>, b: Seq<ServiceModel>, y: Seq<u8>)
    requires
        a.len() == b.len(),
        forall|i: int| 0 <= i < a.len() ==> valid_service(#[trigger] a[i]),
        forall|i: int| 0 <= i < b.len() ==> valid_service(#[trigger] b[i]),
        services_bytes(a) + x == services_bytes(b) + y,
    ensures
        a == b,
        x == y,
    decreases a.len(),
{
    if a.len() == 0 {
        assert(a =~= b);
        lemma_same_parts(services_bytes(a), x, services_bytes(b), y);
    } else {
        let (a1, b1) = (a.drop_last(), b.drop_last());
        assert forall|i: int| 0 <= i < a1.len() implies valid_service(#[trigger] a1[i]) by {
            assert(a1[i] == a[i]);
        }
        assert forall|i: int| 0 <= i < b1.len() implies valid_service(#[trigger] b1[i]) by {
            assert(b1[i] == b[i]);
        }
        crate::bytes::lemma_add_assoc(services_bytes(a1), service_bytes(a.last()), x);
        crate::bytes::lemma_add_assoc(services_bytes(b1), service_bytes(b.last()), y);
        lemma_same_services(a1, service_bytes(a.last()) + x, b1, service_bytes(b.last()) + y);
        lemma_same_service(a.last(), x, b.last(), y);
        assert(a =~= a1.push(a.last()));
        assert(b =~= b1.push(b.last()));
    }
}

/// The canonical forms of two valid sets are the same exactly if the sets have
/// the same services, in whatever order these were given. The form starts with
/// a fixed label and the number of services.
pub proof fn law_canonical_form_tells_service_sets_apart(a: Seq<ServiceModel>, b: Seq<ServiceModel>)
    requires
        valid_services(a),
        valid_services(b),
    ensures
        service_set_bytes(a) == service_set_bytes(b) <==> forall|m: ServiceModel| #[trigger]
            a.contains(m) <==> b.contains(m),
        service_set_bytes(a) == service_set_bytes(b) <==> a == b,
        service_set_bytes(a).len() >= 21,
        service_set_bytes(a).subrange(0, 19) == encode_utf8("p2x-service-set-v1\0"@),
        service_set_bytes(a).subrange(19, 21) == be16(a.len() as u16),
{
    let label = encode_utf8("p2x-service-set-v1\0"@);
    reveal_strlit("p2x-service-set-v1\0");
    vstd::utf8::is_ascii_chars_encode_utf8("p2x-service-set-v1\0"@);
    assert(label.len() == 19);
    let (m, n) = (be16(a.len() as u16), be16(b.len() as u16));
    let none = Seq::<u8>::empty();
    if service_set_bytes(a) == service_set_bytes(b) {
        lemma_same_parts(label, m + services_bytes(a), label, n + services_bytes(b));
        lemma_same_parts(m, services_bytes(a), n, services_bytes(b));
        crate::bytes::lemma_be16(a.len() as u16, none);
        crate::bytes::lemma_be16(b.len() as u16, none);
        lemma_same_services(a, none, b, none);
    }
    if forall|m: ServiceModel| #[trigger] a.contains(m) <==> b.contains(m) {
        law_service_set_is_determined_by_its_members(a, b);
    }
    assert(service_set_bytes(a).subrange(0, 19) =~= label);
    assert(service_set_bytes(a).subrange(19, 21) =~= m);
}

/// What a server asks of the registry.
#[derive(Debug, PartialEq, Eq)]
pub enum RegistryRequestV1 {
    Register {
        request_id: [u8; 16],
        session_id: [u8; 16],
        instance_id: InstanceId,
        requested_lease_seconds: u16,
        capabilities: Capabilities,
        services: ServiceSet,
    },
    Refresh {
        request_id: [u8; 16],
        session_id: [u8; 16],
        instance_id: InstanceId,
        expected_registration_revision: RegistrationRevision,
        requested_lease_seconds: u16,
    },
    Withdraw {
        request_id: [u8; 16],
        session_id: [u8; 16],
        instance_id: InstanceId,
        expected_registration_revision: RegistrationRevision,
    },
}

/// What a registry request says.
#[verifier::ext_equal]
pub enum RegistryRequestModel {
    Register {
        request_id: [u8; 16],
        session_id: [u8; 16],
        instance_id: [u8; 16],
        requested_lease_seconds: u16,
        capabilities: u32,
        services: Seq<ServiceModel>,
    },
    Refresh {
        request_id: [u8; 16],
        session_id: [u8; 16],
        instance_id: [u8; 16],
        expected_registration_revision: u64,
        requested_lease_seconds: u16,
    },
    Withdraw {
        request_id: [u8; 16],
        session_id: [u8; 16],
        instance_id: [u8; 16],
        expected_registration_revision: u64,
    },
}

impl View for RegistryRequestV1 {
    type V = RegistryRequestModel;

    open spec fn view(&self) -> RegistryRequestModel {
        match *self {
            RegistryRequestV1::Register {
                request_id,
                session_id,
                instance_id,
                requested_lease_seconds,
                capabilities,
                services,
            } => RegistryRequestModel::Register {
                request_id,
                session_id,
                instance_id: instance_id@,
                requested_lease_seconds,
                capabilities: capabilities@,
                services: services@,
            },
            RegistryRequestV1::Refresh {
                request_id,
                session_id,
                instance_id,
                expected_registration_revision,
                requested_lease_seconds,
            } => RegistryRequestModel::Refresh {
                request_id,
                session_id,
                instance_id: instance_id@,
                expected_registration_revision: expected_registration_revision@,
                requested_lease_seconds,
            },
            RegistryRequestV1::Withdraw {
                request_id,
                session_id,
                instance_id,
                expected_registration_revision,
            } => RegistryRequestModel::Withdraw {
                request_id,
                session_id,
                instance_id: instance_id@,
                expected_registration_revision: expected_registration_revision@,
            },
        }
    }
}

/// The form of a request over which its digest is taken.
pub open spec fn registry_request_bytes(request: RegistryRequestModel) -> Seq<u8> {
    encode_utf8("p2x-registry-request-v1\0"@) + match request {
        RegistryRequestModel::Register {
            request_id,
            session_id,
            instance_id,
            requested_lease_seconds,
            capabilities,
            services,
        } => seq![0u8] + (request_id@ + (session_id@ + (instance_id@ + (be16(
            requested_lease_seconds,
        ) + (be32(capabilities) + long_blob(service_set_bytes(services))))))),
        RegistryRequestModel::Refresh {
            request_id,
            session_id,
            instance_id,
            expected_registration_revision,
            requested_lease_seconds,
        } => seq![1u8] + (request_id@ + (session_id@ + (instance_id@ + (be64(
            expected_registration_revision,
        ) + be16(requested_lease_seconds))))),
        RegistryRequestModel::Withdraw {
            request_id,
            session_id,
            instance_id,
            expected_registration_revision,
        } => seq![2u8] + (request_id@ + (session_id@ + (instance_id@ + be64(
            expected_registration_revision,
        )))),
    }
}

/// The byte that stands for the kind of a request in that form.
pub open spec fn request_kind(request: RegistryRequestModel) -> u8 {
    match request {
        RegistryRequestModel::Register { .. } => 0,
        RegistryRequestModel::Refresh { .. } => 1,
        RegistryRequestModel::Withdraw { .. } => 2,
    }
}

/// The three numbers of a request.
pub open spec fn request_numbers(request: RegistryRequestModel) -> ([u8; 16], [u8; 16], [u8; 16]) {
    match request {
        RegistryRequestModel::Register { request_id, session_id, instance_id, .. } => (
            request_id,
            session_id,
            instance_id,
        ),
        RegistryRequestModel::Refresh { request_id, session_id, instance_id, .. } => (
            request_id,
            session_id,
            instance_id,
        ),
        RegistryRequestModel::Withdraw { request_id, session_id, instance_id, .. } => (
            request_id,
            session_id,
            instance_id,
        ),
    }
}

/// What follows the three numbers of a request in that form.
spec fn request_tail(request: RegistryRequestModel) -> Seq<u8> {
    match request {
        RegistryRequestModel::Register { requested_lease_seconds, capabilities, services, .. } => be16(
            requested_lease_seconds,
        ) + (be32(capabilities) + long_blob(service_set_bytes(services))),
        RegistryRequestModel::Refresh {
            expected_registration_revision,
            requested_lease_seconds,
            ..
        } => be64(expected_registration_revision) + be16(requested_lease_seconds),
        RegistryRequestModel::Withdraw { expected_registration_revision, .. } => be64(
            expected_registration_revision,
        ),
    }
}

/// Whether the services that a request names, if any, are a valid set.
pub open spec fn names_valid_services(request: RegistryRequestModel) -> bool {
    request matches RegistryRequestModel::Register { services, .. } ==> valid_services(services)
}

proof fn lemma_request_shape(request: RegistryRequestModel)
    ensures
        encode_utf8("p2x-registry-request-v1\0"@).len() == 24,
        registry_request_bytes(request) == encode_utf8("p2x-registry-request-v1\0"@) + (seq![
            request_kind(request),
        ] + (request_numbers(request).0@ + (request_numbers(request).1@ + (request_numbers(
            request,
        ).2@ + request_tail(request))))),
{
    reveal_strlit("p2x-registry-request-v1\0");
    vstd::utf8::is_ascii_chars_encode_utf8("p2x-registry-request-v1\0"@);
}

proof fn lemma_same_request_tail(a: RegistryRequestModel, b: RegistryRequestModel)
    requires
        names_valid_services(a),
        names_valid_services(b),
        request_kind(a) == request_kind(b),
        request_numbers(a) == request_numbers(b),
        request_tail(a) == request_tail(b),
    ensures
        a == b,
{
    let none = Seq::<u8>::empty();
    match (a, b) {
        (
            RegistryRequestModel::Register {
                requested_lease_seconds: al,
                capabilities: ac,
                services: av,
                ..
            },
            RegistryRequestModel::Register {
                requested_lease_seconds: bl,
                capabilities: bc,
                services: bv,
                ..
            },
        ) => {
            let (x, y) = (service_set_bytes(av), service_set_bytes(bv));
            crate::bytes::lemma_split_u16(al, be32(ac) + long_blob(x));
            crate::bytes::lemma_split_u16(bl, be32(bc) + long_blob(y));
            crate::bytes::lemma_split_u32(ac, long_blob(x));
            crate::bytes::lemma_split_u32(bc, long_blob(y));
            lemma_service_set_len(av);
            lemma_service_set_len(bv);
            lemma_same_long_blobs(x, none, y, none);
            law_canonical_form_tells_service_sets_apart(av, bv);
        },
        (
            RegistryRequestModel::Refresh {
                expected_registration_revision: ar,
                requested_lease_seconds: al,
                ..
            },
            RegistryRequestModel::Refresh {
                expected_registration_revision: br,
                requested_lease_seconds: bl,
                ..
            },
        ) => {
            crate::bytes::lemma_split_u64(ar, be16(al));
            crate::bytes::lemma_split_u64(br, be16(bl));
            crate::bytes::lemma_be16(al, none);
            crate::bytes::lemma_be16(bl, none);
        },
        (
            RegistryRequestModel::Withdraw { expected_registration_revision: ar, .. },
            RegistryRequestModel::Withdraw { expected_registration_revision: br, .. },
        ) => {
            crate::bytes::lemma_be64(ar, none);
            crate::bytes::lemma_be64(br, none);
        },
        _ => {},
    }
}

/// The forms of two requests are the same exactly if the requests are. The
/// form starts with a fixed label and the kind of request; that of a refresh
/// and that of a withdrawal have one length each.
pub proof fn law_digested_form_tells_requests_apart(a: RegistryRequestModel, b: RegistryRequestModel)
    requires
        names_valid_services(a),
        names_valid_services(b),
    ensures
        registry_request_bytes(a) == registry_request_bytes(b) <==> a == b,
        registry_request_bytes(a).len() >= 25,
        registry_request_bytes(a).subrange(0, 24) == encode_utf8("p2x-registry-request-v1\0"@),
        registry_request_bytes(a)[24] == request_kind(a),
        a is Refresh ==> registry_request_bytes(a).len() == 83,
        a is Withdraw ==> registry_request_bytes(a).len() == 81,
{
    let label = encode_utf8("p2x-registry-request-v1\0"@);
    let (a1, a2, a3) = request_numbers(a);
    let (b1, b2, b3) = request_numbers(b);
    lemma_request_shape(a);
    lemma_request_shape(b);
    let a6 = request_tail(a);
    let b6 = request_tail(b);
    let a5 = a3@ + a6;
    let b5 = b3@ + b6;
    let a4 = a2@ + a5;
    let b4 = b2@ + b5;
    if registry_request_bytes(a) == registry_request_bytes(b) {
        let (ak, bk) = (seq![request_kind(a)], seq![request_kind(b)]);
        lemma_same_parts(label, ak + (a1@ + a4), label, bk + (b1@ + b4));
        lemma_same_parts(ak, a1@ + a4, bk, b1@ + b4);
        assert(ak[0] == bk[0]);
        lemma_same_parts(a1@, a4, b1@, b4);
        lemma_same_parts(a2@, a5, b2@, b5);
        lemma_same_parts(a3@, a6, b3@, b6);
        crate::bytes::lemma_array_view(a1, b1);
        crate::bytes::lemma_array_view(a2, b2);
        crate::bytes::lemma_array_view(a3, b3);
        lemma_same_request_tail(a, b);
    }
    match a {
        RegistryRequestModel::Refresh {
            expected_registration_revision,
            requested_lease_seconds,
            ..
        } => {
            crate::bytes::lemma_field_lengths(
                requested_lease_seconds,
                0,
                expected_registration_revision,
                0,
            );
        },
        RegistryRequestModel::Withdraw { expected_registration_revision, .. } => {
            crate::bytes::lemma_field_lengths(0, 0, expected_registration_revision, 0);
        },
        _ => {},
    }
    assert(registry_request_bytes(a).subrange(0, 24) =~= label);
}

impl RegistryRequestV1 {
    /// The form of the request over which its digest is taken.
    pub fn canonical_bytes(&self) -> (r: Vec<u8>)
        ensures
            r@ == registry_request_bytes(self@),
    {
        broadcast use crate::bytes::lemma_add_assoc;

        let mut out: Vec<u8> = vstd::slice::slice_to_vec("p2x-registry-request-v1\0".as_bytes());
        match self {
            RegistryRequestV1::Register {
                request_id,
                session_id,
                instance_id,
                requested_lease_seconds,
                capabilities,
                services,
            } => {
                put_u8(&mut out, 0);
                put_bytes(&mut out, request_id);
                put_bytes(&mut out, session_id);
                put_bytes(&mut out, instance_id.as_bytes());
                put_u16(&mut out, *requested_lease_seconds);
                put_u32(&mut out, capabilities.bits());
                let set = services.canonical_bytes();
                proof {
                    use_type_invariant(services);
                    lemma_service_set_len(services@);
                }
                put_long_blob(&mut out, set.as_slice());
            },
            RegistryRequestV1::Refresh {
                request_id,
                session_id,
                instance_id,
                expected_registration_revision,
                requested_lease_seconds,
            } => {
                put_u8(&mut out, 1);
                put_bytes(&mut out, request_id);
                put_bytes(&mut out, session_id);
                put_bytes(&mut out, instance_id.as_bytes());
                put_u64(&mut out, expected_registration_revision.get());
                put_u16(&mut out, *requested_lease_seconds);
            },
            RegistryRequestV1::Withdraw {
                request_id,
                session_id,
                instance_id,
                expected_registration_revision,
            } => {
                put_u8(&mut out, 2);
                put_bytes(&mut out, request_id);
                put_bytes(&mut out, session_id);
                put_bytes(&mut out, instance_id.as_bytes());
                put_u64(&mut out, expected_registration_revision.get());
            },
        }
        out
    }

    /// The digest of the request.
    pub fn hash(&self) -> (r: [u8; 32])
        ensures
            r@ == sha256_of(registry_request_bytes(self@)),
    {
        let bytes = self.canonical_bytes();
        sha256(bytes.as_slice())
    }
}

impl Clone for RegistryRequestV1 {
    fn clone(&self) -> (r: Self)
        ensures
            r@ == self@,
    {
        match self {
            RegistryRequestV1::Register {
                request_id,
                session_id,
                instance_id,
                requested_lease_seconds,
                capabilities,
                services,
            } => RegistryRequestV1::Register {
                request_id: *request_id,
                session_id: *session_id,
                instance_id: *instance_id,
                requested_lease_seconds: *requested_lease_seconds,
                capabilities: *capabilities,
                services: services.clone(),
            },
            RegistryRequestV1::Refresh {
                request_id,
                session_id,
                instance_id,
                expected_registration_revision,
                requested_lease_seconds,
            } => RegistryRequestV1::Refresh {
                request_id: *request_id,
                session_id: *session_id,
                instance_id: *instance_id,
                expected_registration_revision: *expected_registration_revision,
                requested_lease_seconds: *requested_lease_seconds,
            },
            RegistryRequestV1::Withdraw {
                request_id,
                session_id,
                instance_id,
                expected_registration_revision,
            } => RegistryRequestV1::Withdraw {
                request_id: *request_id,
                session_id: *session_id,
                instance_id: *instance_id,
                expected_registration_revision: *expected_registration_revision,
            },
        }
    }
}

/// What the registry answers.
#[allow(inconsistent_fields)]
#[derive(Clone, Copy, Debug, PartialEq, Eq)]
pub enum RegistryResponseV1 {
    Registered {
        request_id: [u8; 16],
        instance_id: InstanceId,
        registration_revision: RegistrationRevision,
        service_set_hash: [u8; 32],
        expires_at: i64,
        effective_lease_seconds: u16,
    },
    Refreshed {
        request_id: [u8; 16],
        instance_id: InstanceId,
        registration_revision: RegistrationRevision,
        expires_at: i64,
    },
    Withdrawn {
        request_id: [u8; 16],
        instance_id: InstanceId,
        registration_revision: RegistrationRevision,
    },
    Rejected { request_id: Option<[u8; 16]>, error: PublicError },
}

/// A selector together with the tenant in which it is looked up.
#[derive(Debug, PartialEq, Eq, Hash)]
pub struct TenantSelector {
    pub selector: ScopedSelector,
}

/// A set of capabilities is one where no bit but the four lowest is set.
pub proof fn law_unknown_capabilities_are_refused(bits: u32, r: Option<Capabilities>)
    requires
        call_ensures(Capabilities::from_bits, (bits,), r),
    ensures
        r is Some <==> bits & 0xffff_fff0 == 0,
        r matches Some(capabilities) ==> capabilities@ == bits,
{
    assert(bits & 0xffff_fff0 == 0 <==> bits <= 15) by (bit_vector);
}

/// The capabilities are told apart by their bits, and together they are all there
/// are.
pub proof fn law_capabilities_have_their_bits(all: Capabilities)
    requires
        call_ensures(Capabilities::all, (), all),
    ensures
        RELAY_V2 == 1 && DIRECT_TCP == 2 && DIRECT_QUIC == 4 && DCUTR == 8,
        all@ == RELAY_V2 + DIRECT_TCP + DIRECT_QUIC + DCUTR,
{
}

/// A peer can be reached directly if it understands TCP or QUIC, whatever else it
/// understands; a set holds another if it holds each bit of it.
pub proof fn law_direct_transports_are_tcp_and_quic(
    capabilities: Capabilities,
    other: Capabilities,
    direct: bool,
    holds: bool,
)
    requires
        call_ensures(Capabilities::direct_transport, (capabilities,), direct),
        call_ensures(Capabilities::contains, (capabilities, other), holds),
    ensures
        direct <==> capabilities@ & 6 != 0,
        holds <==> other@ & !capabilities@ == 0,
{
    let (a, b) = (capabilities@, other@);
    assert((a & 2 == 2 || a & 4 == 4) <==> a & 6 != 0) by (bit_vector);
    assert((a & b == b) <==> b & !a == 0) by (bit_vector);
}

/// A service is ready or it is not, and the byte says which.
pub proof fn law_health_is_known_by_its_byte(health: Health)
    ensures
        health is Ready <==> health_wire(health) == 0,
        health is Unavailable <==> health_wire(health) == 1,
{
}

/// A set is made of every list of between one and a hundred and twenty-eight
/// services that share neither identifier nor selector; it holds just these, in
/// the order of their identifiers. A list of another length is refused for that,
/// and else for what two of its services share.
pub proof fn law_sets_are_made_of_distinct_services(
    services: Vec<ServiceAdvertisementV1>,
    r: Result<ServiceSet, SelectorError>,
)
    requires
        call_ensures(ServiceSet::new, (services,), r),
    ensures
        ({
            let given = services@;
            let sized = 1 <= given.len() <= 128;
            let apart = forall|i: int, j: int|
                0 <= i < j < given.len() ==> (#[trigger] given[i])@.upstream_id != (
                #[trigger] given[j])@.upstream_id && given[i]@.selector != given[j]@.selector;
            &&& !sized ==> r == Err::<ServiceSet, SelectorError>(SelectorError::ServiceCount)
            &&& sized && !apart ==> r == Err::<ServiceSet, SelectorError>(SelectorError::DuplicateService)
            &&& sized && apart ==> r is Ok
            &&& r matches Ok(set) ==> {
                &&& set@.len() == given.len()
                &&& forall|i: int| 0 <= i < given.len() ==> set@.contains((#[trigger] given[i])@)
                &&& forall|i: int, j: int|
                    0 <= i < j < set@.len() ==> precedes(
                        encode_utf8((#[trigger] set@[i]).upstream_id),
                        encode_utf8((#[trigger] set@[j]).upstream_id),
                    )
            }
        }),
{
    let given = services@;
    let models = service_models(given);
    assert forall|i: int| 0 <= i < given.len() implies models.contains((#[trigger] given[i])@) by {
        assert(models[i] == given[i]@);
    }
    if distinct_ids(models) && distinct_selectors(models) {
        assert forall|i: int, j: int| 0 <= i < j < given.len() implies (#[trigger] given[i])@.upstream_id != (
        #[trigger] given[j])@.upstream_id && given[i]@.selector != given[j]@.selector by {
            assert(models[i] == given[i]@ && models[j] == given[j]@);
        }
    } else {
        if !distinct_ids(models) {
            let (i, j) = choose|i: int, j: int|
                0 <= i < j < models.len() && (#[trigger] models[i]).upstream_id == (
                #[trigger] models[j]).upstream_id;
            assert(given[i]@.upstream_id == given[j]@.upstream_id);
        } else {
            let (i, j) = choose|i: int, j: int|
                0 <= i < j < models.len() && (#[trigger] models[i]).selector == (
                #[trigger] models[j]).selector;
            assert(given[i]@.selector == given[j]@.selector);
        }
    }
}

/// The canonical form of a set names what it is for, counts the services and lists
/// them: identifier and selector with their lengths, then the state.
pub proof fn law_the_canonical_form_lists_the_services(services: Seq<ServiceModel>, service: ServiceModel)
    requires
        services.len() < 65535,
    ensures
        ({
            let name = encode_utf8("p2x-service-set-v1\0"@);
            let id = encode_utf8(service.upstream_id);
            let selector = selector_bytes(service.selector);
            let added = be32(id.len() as u32) + id + be32(selector.len() as u32) + selector + seq![
                if service.health is Ready {
                    0u8
                } else {
                    1u8
                },
            ];
            &&& service_set_bytes(Seq::empty()) == name + be16(0)
            &&& service_set_bytes(services) == name + be16(services.len() as u16) + services_bytes(services)
            &&& service_set_bytes(services.push(service)) == name + be16((services.len() + 1) as u16)
                + services_bytes(services) + added
        }),
{
    let name = encode_utf8("p2x-service-set-v1\0"@);
    let all = services.push(service);
    assert(all.drop_last() =~= services);
    assert(service_set_bytes(Seq::empty()) =~= name + be16(0));
    assert(service_set_bytes(services) =~= name + be16(services.len() as u16) + services_bytes(services));
    let id = encode_utf8(service.upstream_id);
    let selector = selector_bytes(service.selector);
    let added = be32(id.len() as u32) + id + be32(selector.len() as u32) + selector + seq![
        if service.health is Ready {
            0u8
        } else {
            1u8
        },
    ];
    assert(service_bytes(service) =~= added);
    assert(service_set_bytes(all) =~= name + be16((services.len() + 1) as u16) + services_bytes(services)
        + added);
}

/// The digest of a request is taken over the name of what it is for, the kind of
/// the request and its three numbers, and then the rest: for a registration the
/// lease, the capabilities and the services, for a refresh the revision and the
/// lease, for a withdrawal the revision.
pub proof fn law_digests_cover_the_whole_request(
    number: [u8; 16],
    session: [u8; 16],
    instance: [u8; 16],
    lease: u16,
    capabilities: u32,
    services: Seq<ServiceModel>,
    revision: u64,
)
    ensures
        ({
            let name = encode_utf8("p2x-registry-request-v1\0"@);
            let numbers = number@ + session@ + instance@;
            let set = service_set_bytes(services);
            &&& registry_request_bytes(
                RegistryRequestModel::Register {
                    request_id: number,
                    session_id: session,
                    instance_id: instance,
                    requested_lease_seconds: lease,
                    capabilities,
                    services,
                },
            ) == name + seq![0u8] + numbers + be16(lease) + be32(capabilities) + be32(set.len() as u32) + set
            &&& registry_request_bytes(
                RegistryRequestModel::Refresh {
                    request_id: number,
                    session_id: session,
                    instance_id: instance,
                    expected_registration_revision: revision,
                    requested_lease_seconds: lease,
                },
            ) == name + seq![1u8] + numbers + be64(revision) + be16(lease)
            &&& registry_request_bytes(
                RegistryRequestModel::Withdraw {
                    request_id: number,
                    session_id: session,
                    instance_id: instance,
                    expected_registration_revision: revision,
                },
            ) == name + seq![2u8] + numbers + be64(revision)
        }),
{
    let name = encode_utf8("p2x-registry-request-v1\0"@);
    let numbers = number@ + session@ + instance@;
    let set = service_set_bytes(services);
    assert(registry_request_bytes(
        RegistryRequestModel::Register {
            request_id: number,
            session_id: session,
            instance_id: instance,
            requested_lease_seconds: lease,
            capabilities,
            services,
        },
    ) =~= name + seq![0u8] + numbers + be16(lease) + be32(capabilities) + be32(set.len() as u32) + set);
    assert(registry_request_bytes(
        RegistryRequestModel::Refresh {
            request_id: number,
            session_id: session,
            instance_id: instance,
            expected_registration_revision: revision,
            requested_lease_seconds: lease,
        },
    ) =~= name + seq![1u8] + numbers + be64(revision) + be16(lease));
    assert(registry_request_bytes(
        RegistryRequestModel::Withdraw {
            request_id: number,
            session_id: session,
            instance_id: instance,
            expected_registration_revision: revision,
        },
    ) =~= name + seq![2u8] + numbers + be64(revision));
}

} // verus!
