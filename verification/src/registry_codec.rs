//! The bytes of the registry protocol.
use crate::bytes::{
    be16, be32, be64, be_i64, enc_text, lemma_array_view, put_bytes, put_i64, put_text, put_u16, put_u32, put_u64, put_u8,
    split_bytes, split_i64, split_text, split_u16, split_u32, split_u64, split_u8, Reader,
};
use crate::error::{
    enc_error, lemma_error_reads, put_error, read_error, reads_error, PublicError, PublicErrorCode,
};
use crate::frame::{framed, read_frame_within, split_frame, write_frame_within, FrameError};
use crate::ids::{
    id_text, lemma_id_utf8, lemma_instance_view, lemma_revision_view, InstanceId,
    RegistrationRevision, UpstreamId,
};
use crate::proxy::{
    enc_optional_id, lemma_optional_id_reads, put_optional_id, read_optional_id, reads_optional_id,
};
use crate::registry::{
    ascending_ids, distinct_ids, distinct_selectors, health_wire, known_bits,
    law_service_set_is_determined_by_its_members, request_numbers, service_models, valid_service,
    valid_services, Capabilities, Health, RegistryRequestModel, RegistryRequestV1, RegistryResponseV1,
    ServiceAdvertisementV1, ServiceModel, ServiceSet, MAX_SERVICES,
};
use crate::selector::{
    put_selector_bytes, read_selector, selector_bytes, split_selector,
};
use crate::text::{lemma_precedes_asymmetric, lemma_precedes_transitive, precedes, rank_bytes, Rank};
use vstd::prelude::*;
use vstd::utf8::encode_utf8;

verus! {

/// The name of the registry protocol.
pub const REGISTRY_PROTOCOL: &'static str = "/p2x/registry/1";

/// The longest frame of the registry protocol.
pub const MAX_REGISTRY_FRAME: usize = 262144;

#[derive(Clone, Copy, Debug, PartialEq, Eq, Structural)]
pub enum RegistryProtocolError {
    FrameTooLarge,
    Malformed,
    UnsupportedVersion,
    CapabilityMismatch,
}

impl RegistryProtocolError {
    /// The code that is shown to the other side.
    pub fn public_code(&self) -> (r: PublicErrorCode)
        ensures
            r == match *self {
                RegistryProtocolError::FrameTooLarge => PublicErrorCode::ProtocolFrameTooLarge,
                RegistryProtocolError::Malformed => PublicErrorCode::ProtocolMalformed,
                RegistryProtocolError::UnsupportedVersion => PublicErrorCode::ProtocolUnsupportedVersion,
                RegistryProtocolError::CapabilityMismatch => PublicErrorCode::ProtocolCapabilityMismatch,
            },
    {
        match self {
            RegistryProtocolError::FrameTooLarge => PublicErrorCode::ProtocolFrameTooLarge,
            RegistryProtocolError::Malformed => PublicErrorCode::ProtocolMalformed,
            RegistryProtocolError::UnsupportedVersion => PublicErrorCode::ProtocolUnsupportedVersion,
            RegistryProtocolError::CapabilityMismatch => PublicErrorCode::ProtocolCapabilityMismatch,
        }
    }
}

/// A service on the wire.
pub open spec fn enc_service(s: ServiceModel) -> Seq<u8> {
    enc_text(s.upstream_id) + (selector_bytes(s.selector) + seq![health_wire(s.health)])
}

/// Services one after the other.
pub open spec fn enc_services(services: Seq<ServiceModel>) -> Seq<u8>
    decreases services.len(),
{
    if services.len() == 0 {
        Seq::empty()
    } else {
        enc_services(services.drop_last()) + enc_service(services.last())
    }
}

/// A set of services on the wire: how many, then each.
pub open spec fn enc_service_set(services: Seq<ServiceModel>) -> Seq<u8> {
    be16(services.len() as u16) + enc_services(services)
}

/// The health state that a byte stands for.
pub open spec fn health_of(byte: u8) -> Option<Health> {
    match byte {
        0 => Some(Health::Ready),
        1 => Some(Health::Unavailable),
        _ => None,
    }
}

/// The service with which bytes start, and what follows it.
pub open spec fn split_service(s: Seq<u8>) -> Option<(ServiceModel, Seq<u8>)> {
    match split_text(s) {
        None => None,
        Some((upstream_id, s)) => if !id_text(upstream_id) {
            None
        } else {
            match split_selector(s) {
                None => None,
                Some((selector, s)) => match split_u8(s) {
                    None => None,
                    Some((byte, s)) => match health_of(byte) {
                        None => None,
                        Some(health) => Some((ServiceModel { upstream_id, selector, health }, s)),
                    },
                },
            }
        },
    }
}

/// Whether an identifier comes after those of a sorted list.
pub open spec fn id_comes_after(services: Seq<ServiceModel>, id: Seq<char>) -> bool {
    services.len() == 0 || precedes(encode_utf8(services.last().upstream_id), encode_utf8(id))
}

/// The first `n` services and what follows them. Identifiers must ascend.
pub open spec fn split_services(s: Seq<u8>, n: nat) -> Option<(Seq<ServiceModel>, Seq<u8>)>
    decreases n,
{
    if n == 0 {
        Some((Seq::empty(), s))
    } else {
        match split_services(s, (n - 1) as nat) {
            None => None,
            Some((services, s)) => match split_service(s) {
                None => None,
                Some((service, s)) => if id_comes_after(services, service.upstream_id) {
                    Some((services.push(service), s))
                } else {
                    None
                },
            },
        }
    }
}

/// The set of services with which bytes start, and what follows it.
pub open spec fn split_service_set(s: Seq<u8>) -> Option<(Seq<ServiceModel>, Seq<u8>)> {
    match split_u16(s) {
        None => None,
        Some((count, s)) => if count > MAX_SERVICES {
            None
        } else {
            match split_services(s, count as nat) {
                None => None,
                Some((services, s)) => if services.len() > 0 && distinct_selectors(services) {
                    Some((services, s))
                } else {
                    None
                },
            }
        },
    }
}

proof fn lemma_split_services_stops(s: Seq<u8>, i: nat, n: nat)
    requires
        i <= n,
        split_services(s, i) is None,
    ensures
        split_services(s, n) is None,
    decreases n,
{
    if i < n {
        lemma_split_services_stops(s, i, (n - 1) as nat);
    }
}

proof fn lemma_push_ascending(services: Seq<ServiceModel>, service: ServiceModel)
    requires
        ascending_ids(services),
        id_comes_after(services, service.upstream_id),
    ensures
        ascending_ids(services.push(service)),
{
    let after = services.push(service);
    assert forall|i: int, j: int| 0 <= i < j < after.len() implies precedes(
        encode_utf8((#[trigger] after[i]).upstream_id),
        encode_utf8((#[trigger] after[j]).upstream_id),
    ) by {
        if j == services.len() && i < services.len() - 1 {
            lemma_precedes_transitive(
                encode_utf8(services[i].upstream_id),
                encode_utf8(services.last().upstream_id),
                encode_utf8(service.upstream_id),
            );
        }
    }
}

proof fn lemma_service_round_trip(service: ServiceModel, rest: Seq<u8>)
    requires
        valid_service(service),
    ensures
        split_service(enc_service(service) + rest) == Some((service, rest)),
{
    lemma_id_utf8(service.upstream_id);
    let byte = health_wire(service.health);
    let s2 = seq![byte] + rest;
    let s1 = selector_bytes(service.selector) + s2;
    assert(enc_service(service) + rest =~= enc_text(service.upstream_id) + s1);
    crate::bytes::lemma_split_text(service.upstream_id, s1);
    crate::selector::law_selector_round_trip(service.selector, s2);
    crate::bytes::lemma_split_u8(byte, rest);
}

proof fn lemma_one_more_service(
    s: Seq<u8>,
    services: Seq<ServiceModel>,
    tail: Seq<u8>,
    service: ServiceModel,
    rest: Seq<u8>,
)
    requires
        split_services(s, services.len()) == Some((services, tail)),
        split_service(tail) == Some((service, rest)),
        id_comes_after(services, service.upstream_id),
    ensures
        split_services(s, services.len() + 1) == Some((services.push(service), rest)),
{
}

proof fn lemma_prefix_ascends(services: Seq<ServiceModel>)
    requires
        services.len() > 0,
        ascending_ids(services),
    ensures
        ascending_ids(services.drop_last()),
        id_comes_after(services.drop_last(), services.last().upstream_id),
{
    let init = services.drop_last();
    assert forall|i: int, j: int| 0 <= i < j < init.len() implies precedes(
        encode_utf8((#[trigger] init[i]).upstream_id),
        encode_utf8((#[trigger] init[j]).upstream_id),
    ) by {
        assert(init[i] == services[i] && init[j] == services[j]);
    }
    if init.len() > 0 {
        assert(precedes(
            encode_utf8(services[init.len() - 1].upstream_id),
            encode_utf8(services[services.len() - 1].upstream_id),
        ));
    }
}

proof fn lemma_services_round_trip(services: Seq<ServiceModel>, rest: Seq<u8>)
    requires
        ascending_ids(services),
        forall|i: int| 0 <= i < services.len() ==> valid_service(#[trigger] services[i]),
    ensures
        split_services(enc_services(services) + rest, services.len()) == Some((services, rest)),
    decreases services.len(),
{
    if services.len() == 0 {
        assert(enc_services(services) + rest =~= rest);
        assert(services =~= Seq::<ServiceModel>::empty());
    } else {
        let init = services.drop_last();
        let last = services.last();
        let tail = enc_service(last) + rest;
        assert(valid_service(services[services.len() - 1]));
        lemma_prefix_ascends(services);
        assert forall|i: int| 0 <= i < init.len() implies valid_service(#[trigger] init[i]) by {
            assert(init[i] == services[i]);
        }
        lemma_services_round_trip(init, tail);
        lemma_service_round_trip(last, rest);
        lemma_one_more_service(enc_services(init) + tail, init, tail, last, rest);
        crate::bytes::lemma_add_assoc(enc_services(init), enc_service(last), rest);
        assert(init.push(last) =~= services);
    }
}

/// A set of services that was written is read back, whatever follows it.
pub proof fn law_service_set_round_trip(services: Seq<ServiceModel>, rest: Seq<u8>)
    requires
        valid_services(services),
    ensures
        split_service_set(enc_service_set(services) + rest) == Some((services, rest)),
{
    let count: u16 = services.len() as u16;
    crate::bytes::lemma_add_assoc(be16(count), enc_services(services), rest);
    crate::bytes::lemma_split_u16(count, enc_services(services) + rest);
    lemma_services_round_trip(services, rest);
}

/// Reads one service.
fn read_service(reader: &mut Reader<'_>) -> (r: Option<ServiceAdvertisementV1>)
    ensures
        match split_service(old(reader)@) {
            Some((service, rest)) => r matches Some(v) && v@ == service && final(reader)@ == rest,
            None => r is None,
        },
{
    let name = reader.text()?;
    let upstream_id = match UpstreamId::new(name.as_str()) {
        Ok(id) => id,
        Err(_) => return None,
    };
    let selector = read_selector(reader)?;
    let byte: u8 = reader.u8()?;
    let health = if byte == 0 {
        Health::Ready
    } else if byte == 1 {
        Health::Unavailable
    } else {
        return None;
    };
    Some(ServiceAdvertisementV1::new(upstream_id, selector, health))
}

/// Whether an identifier comes after those of a sorted list.
fn is_id_after(services: &Vec<ServiceAdvertisementV1>, id: &UpstreamId) -> (r: bool)
    ensures
        r == id_comes_after(service_models(services@), id@),
{
    let n: usize = services.len();
    if n == 0 {
        return true;
    }
    let last = services[n - 1].upstream_id().as_str();
    assert(service_models(services@).last().upstream_id == last@);
    match rank_bytes(last.as_bytes(), id.as_str().as_bytes()) {
        Rank::Before => true,
        Rank::Same => {
            proof {
                if precedes(encode_utf8(last@), encode_utf8(id@)) {
                    lemma_precedes_asymmetric(encode_utf8(last@), encode_utf8(id@));
                }
            }
            false
        },
        Rank::After => {
            proof {
                lemma_precedes_asymmetric(encode_utf8(id@), encode_utf8(last@));
            }
            false
        },
    }
}

/// Reads a set of services.
#[verifier::loop_isolation(false)]
fn read_service_set(reader: &mut Reader<'_>) -> (r: Option<ServiceSet>)
    ensures
        match split_service_set(old(reader)@) {
            Some((services, rest)) => r matches Some(v) && v@ == services && final(reader)@ == rest,
            None => r is None,
        },
{
    let count: u16 = reader.u16()?;
    if count as usize > MAX_SERVICES {
        return None;
    }
    let ghost start = reader@;
    let mut values: Vec<ServiceAdvertisementV1> = Vec::new();
    assert(service_models(values@) =~= Seq::<ServiceModel>::empty());
    let mut i: u16 = 0;
    while i < count
        invariant
            i <= count,
            values@.len() == i,
            split_services(start, i as nat) == Some((service_models(values@), reader@)),
            ascending_ids(service_models(values@)),
        decreases count - i,
    {
        let ghost before = service_models(values@);
        let service = match read_service(reader) {
            Some(service) => service,
            None => {
                proof {
                    lemma_split_services_stops(start, (i + 1) as nat, count as nat);
                }
                return None;
            },
        };
        if !is_id_after(&values, service.upstream_id()) {
            proof {
                lemma_split_services_stops(start, (i + 1) as nat, count as nat);
            }
            return None;
        }
        proof {
            lemma_push_ascending(before, service@);
        }
        let ghost model = service@;
        values.push(service);
        assert(service_models(values@) =~= before.push(model));
        i = i + 1;
    }
    let ghost models = service_models(values@);
    proof {
        assert(distinct_ids(models)) by {
            assert forall|a: int, b: int| 0 <= a < b < models.len() implies (
            #[trigger] models[a]).upstream_id != (#[trigger] models[b]).upstream_id by {
                lemma_precedes_asymmetric(
                    encode_utf8(models[a].upstream_id),
                    encode_utf8(models[b].upstream_id),
                );
            }
        }
    }
    match ServiceSet::new(values) {
        Ok(set) => {
            proof {
                law_service_set_is_determined_by_its_members(set@, models);
            }
            Some(set)
        },
        Err(_) => None,
    }
}

/// Appends services.
fn put_service_set(out: &mut Vec<u8>, set: &ServiceSet)
    ensures
        final(out)@ == old(out)@ + enc_service_set(set@),
{
    proof {
        use_type_invariant(set);
    }
    let services = set.as_slice();
    let ghost models = set@;
    let ghost before = out@;
    let ghost count = be16(models.len() as u16);
    put_u16(out, services.len() as u16);
    let mut i: usize = 0;
    proof {
        assert(models.take(0) =~= Seq::<ServiceModel>::empty());
        assert(out@ =~= before + count + enc_services(models.take(0)));
    }
    while i < services.len()
        invariant
            i <= services@.len(),
            models == service_models(services@),
            valid_services(models),
            out@ == before + count + enc_services(models.take(i as int)),
        decreases services@.len() - i,
    {
        let service = &services[i];
        let ghost s = models[i as int];
        let ghost so_far = enc_services(models.take(i as int));
        assert(s == service@);
        let id = service.upstream_id().as_str();
        proof {
            lemma_id_utf8(id@);
        }
        put_text(out, id);
        put_selector_bytes(out, service.selector());
        put_u8(out, service.health().wire());
        proof {
            assert(models.take(i + 1).drop_last() =~= models.take(i as int));
            assert(models.take(i + 1).last() == s);
            assert(out@ =~= before + count + (so_far + enc_service(s)));
        }
        i = i + 1;
    }
    proof {
        assert(models.take(i as int) =~= models);
        assert(out@ =~= before + enc_service_set(models));
    }
}

/// What a valid request is.
pub open spec fn valid_request(m: RegistryRequestModel) -> bool {
    match m {
        RegistryRequestModel::Register { capabilities, services, .. } => known_bits(capabilities)
            && valid_services(services),
        RegistryRequestModel::Refresh { expected_registration_revision, .. } =>
            expected_registration_revision != 0,
        RegistryRequestModel::Withdraw { expected_registration_revision, .. } =>
            expected_registration_revision != 0,
    }
}

/// The bytes of a request.
pub open spec fn enc_request(m: RegistryRequestModel) -> Seq<u8> {
    seq![1u8] + match m {
        RegistryRequestModel::Register {
            request_id,
            session_id,
            instance_id,
            requested_lease_seconds,
            capabilities,
            services,
        } => seq![0u8] + (request_id@ + (session_id@ + (instance_id@ + (be16(
            requested_lease_seconds,
        ) + (be32(capabilities) + enc_service_set(services)))))),
        RegistryRequestModel::Refresh {
            request_id,
            session_id,
            instance_id,
            expected_registration_revision,
            requested_lease_seconds,
        } => seq![1u8] + (request_id@ + (session_id@ + (instance_id@ + (be64(
            expected_registration_revision,
        ) + be16(requested_lease_seconds))))),
        RegistryRequestModel::Withdraw {
            request_id,
            session_id,
            instance_id,
            expected_registration_revision,
        } => seq![2u8] + (request_id@ + (session_id@ + (instance_id@ + be64(
            expected_registration_revision,
        )))),
    }
}

/// Version, kind and the three numbers with which every request starts, and
/// what follows them.
pub open spec fn request_head(s: Seq<u8>) -> Option<(u8, Seq<u8>, Seq<u8>, Seq<u8>, Seq<u8>)> {
    match split_u8(s) {
        None => None,
        Some((version, s)) => if version != 1 {
            None
        } else {
            match split_u8(s) {
                None => None,
                Some((kind, s)) => match split_bytes(s, 16) {
                    None => None,
                    Some((request_id, s)) => match split_bytes(s, 16) {
                        None => None,
                        Some((session_id, s)) => match split_bytes(s, 16) {
                            None => None,
                            Some((instance_id, s)) => Some((kind, request_id, session_id, instance_id, s)),
                        },
                    },
                },
            }
        },
    }
}

/// Whether what follows the head of a request reads as the body of `m`.
pub open spec fn reads_request_body(kind: u8, s: Seq<u8>, m: RegistryRequestModel) -> bool {
    match m {
        RegistryRequestModel::Register { requested_lease_seconds, capabilities, services, .. } => kind
            == 0 && match split_u16(s) {
            None => false,
            Some((lease, s)) => lease == requested_lease_seconds && match split_u32(s) {
                None => false,
                Some((bits, s)) => bits == capabilities && known_bits(bits) && match split_service_set(s) {
                    None => false,
                    Some((set, s)) => set == services && s.len() == 0,
                },
            },
        },
        RegistryRequestModel::Refresh { expected_registration_revision, requested_lease_seconds, .. } =>
            kind == 1 && match split_u64(s) {
            None => false,
            Some((revision, s)) => revision == expected_registration_revision && revision != 0
                && match split_u16(s) {
                None => false,
                Some((lease, s)) => lease == requested_lease_seconds && s.len() == 0,
            },
        },
        RegistryRequestModel::Withdraw { expected_registration_revision, .. } => kind == 2
            && match split_u64(s) {
            None => false,
            Some((revision, s)) => revision == expected_registration_revision && revision != 0 && s.len()
                == 0,
        },
    }
}

/// Whether bytes say `m`.
pub open spec fn reads_request(s: Seq<u8>, m: RegistryRequestModel) -> bool {
    match request_head(s) {
        None => false,
        Some((kind, request_id, session_id, instance_id, body)) => {
            let (a, b, c) = request_numbers(m);
            request_id == a@ && session_id == b@ && instance_id == c@ && reads_request_body(kind, body, m)
        },
    }
}

/// Whether bytes are a registration whose capability bits are not all known.
pub open spec fn unknown_capabilities(s: Seq<u8>) -> bool {
    match request_head(s) {
        None => false,
        Some((kind, _, _, _, body)) => kind == 0 && match split_u16(body) {
            None => false,
            Some((_, s)) => split_u32(s) matches Some((bits, _)) && !known_bits(bits),
        },
    }
}

/// Why bytes are not a request.
pub open spec fn request_error(s: Seq<u8>) -> RegistryProtocolError {
    if s.len() > 0 && s[0] != 1 {
        RegistryProtocolError::UnsupportedVersion
    } else if unknown_capabilities(s) {
        RegistryProtocolError::CapabilityMismatch
    } else {
        RegistryProtocolError::Malformed
    }
}

proof fn lemma_request_head(kind: u8, a: [u8; 16], b: [u8; 16], c: [u8; 16], body: Seq<u8>)
    ensures
        request_head(seq![1u8] + (seq![kind] + (a@ + (b@ + (c@ + body))))) == Some(
            (kind, a@, b@, c@, body),
        ),
{
    let s4 = c@ + body;
    let s3 = b@ + s4;
    let s2 = a@ + s3;
    crate::bytes::lemma_split_u8(1, seq![kind] + s2);
    crate::bytes::lemma_split_u8(kind, s2);
    crate::bytes::lemma_split_bytes(a@, s3);
    crate::bytes::lemma_split_bytes(b@, s4);
    crate::bytes::lemma_split_bytes(c@, body);
}

proof fn lemma_request_then(m: RegistryRequestModel, rest: Seq<u8>)
    requires
        valid_request(m),
    ensures
        rest.len() == 0 ==> reads_request(enc_request(m) + rest, m),
        rest.len() > 0 ==> forall|x: RegistryRequestModel| !reads_request(enc_request(m) + rest, x),
        request_error(enc_request(m) + rest) == RegistryProtocolError::Malformed,
{
    broadcast use crate::bytes::lemma_add_assoc;

    assert((enc_request(m) + rest)[0] == 1);
    match m {
        RegistryRequestModel::Register {
            request_id,
            session_id,
            instance_id,
            requested_lease_seconds,
            capabilities,
            services,
        } => {
            let s2 = enc_service_set(services) + rest;
            let s1 = be32(capabilities) + s2;
            lemma_request_head(0, request_id, session_id, instance_id, be16(requested_lease_seconds) + s1);
            crate::bytes::lemma_split_u16(requested_lease_seconds, s1);
            crate::bytes::lemma_split_u32(capabilities, s2);
            law_service_set_round_trip(services, rest);
        },
        RegistryRequestModel::Refresh {
            request_id,
            session_id,
            instance_id,
            expected_registration_revision,
            requested_lease_seconds,
        } => {
            let s1 = be16(requested_lease_seconds) + rest;
            lemma_request_head(
                1,
                request_id,
                session_id,
                instance_id,
                be64(expected_registration_revision) + s1,
            );
            crate::bytes::lemma_split_u64(expected_registration_revision, s1);
            crate::bytes::lemma_split_u16(requested_lease_seconds, rest);
        },
        RegistryRequestModel::Withdraw {
            request_id,
            session_id,
            instance_id,
            expected_registration_revision,
        } => {
            lemma_request_head(
                2,
                request_id,
                session_id,
                instance_id,
                be64(expected_registration_revision) + rest,
            );
            crate::bytes::lemma_split_u64(expected_registration_revision, rest);
        },
    }
}

/// A request that was written is read back.
pub proof fn law_request_round_trip(m: RegistryRequestModel)
    requires
        valid_request(m),
    ensures
        reads_request(enc_request(m), m),
{
    let none = Seq::<u8>::empty();
    lemma_request_then(m, none);
    assert(enc_request(m) + none =~= enc_request(m));
}

/// A request with anything after it is malformed.
pub proof fn law_request_ends_its_frame(m: RegistryRequestModel, added: Seq<u8>)
    requires
        valid_request(m),
        added.len() > 0,
    ensures
        forall|x: RegistryRequestModel| !reads_request(enc_request(m) + added, x),
        request_error(enc_request(m) + added) == RegistryProtocolError::Malformed,
{
    lemma_request_then(m, added);
}

/// Bytes that start with another version than one are of an unsupported
/// version, whatever follows.
pub proof fn law_request_version_is_one(s: Seq<u8>)
    requires
        s.len() > 0,
        s[0] != 1,
    ensures
        forall|x: RegistryRequestModel| !reads_request(s, x),
        request_error(s) == RegistryProtocolError::UnsupportedVersion,
{
    assert(s.subrange(0, 1)[0] == s[0]);
}

/// Bytes say at most one thing.
pub proof fn law_request_is_unambiguous(s: Seq<u8>, a: RegistryRequestModel, b: RegistryRequestModel)
    requires
        reads_request(s, a),
        reads_request(s, b),
    ensures
        a == b,
{
    let (a1, a2, a3) = request_numbers(a);
    let (b1, b2, b3) = request_numbers(b);
    crate::bytes::lemma_array_view(a1, b1);
    crate::bytes::lemma_array_view(a2, b2);
    crate::bytes::lemma_array_view(a3, b3);
}

/// The bytes of a request, if they fit a frame.
pub fn encode_request(request: &RegistryRequestV1) -> (r: Result<Vec<u8>, RegistryProtocolError>)
    ensures
        valid_request(request@),
        match r {
            Ok(bytes) => bytes@ == enc_request(request@) && bytes@.len() <= MAX_REGISTRY_FRAME,
            Err(error) => error == RegistryProtocolError::FrameTooLarge && enc_request(request@).len()
                > MAX_REGISTRY_FRAME,
        },
{
    broadcast use crate::bytes::lemma_add_assoc;

    let mut out: Vec<u8> = Vec::new();
    put_u8(&mut out, 1);
    assert(out@ =~= seq![1u8]);
    match request {
        RegistryRequestV1::Register {
            request_id,
            session_id,
            instance_id,
            requested_lease_seconds,
            capabilities,
            services,
        } => {
            proof {
                use_type_invariant(services);
            }
            put_u8(&mut out, 0);
            put_bytes(&mut out, request_id);
            put_bytes(&mut out, session_id);
            put_bytes(&mut out, instance_id.as_bytes());
            put_u16(&mut out, *requested_lease_seconds);
            put_u32(&mut out, capabilities.bits());
            put_service_set(&mut out, services);
        },
        RegistryRequestV1::Refresh {
            request_id,
            session_id,
            instance_id,
            expected_registration_revision,
            requested_lease_seconds,
        } => {
            put_u8(&mut out, 1);
            put_bytes(&mut out, request_id);
            put_bytes(&mut out, session_id);
            put_bytes(&mut out, instance_id.as_bytes());
            put_u64(&mut out, expected_registration_revision.get());
            put_u16(&mut out, *requested_lease_seconds);
        },
        RegistryRequestV1::Withdraw {
            request_id,
            session_id,
            instance_id,
            expected_registration_revision,
        } => {
            put_u8(&mut out, 2);
            put_bytes(&mut out, request_id);
            put_bytes(&mut out, session_id);
            put_bytes(&mut out, instance_id.as_bytes());
            put_u64(&mut out, expected_registration_revision.get());
        },
    }
    if out.len() > MAX_REGISTRY_FRAME {
        return Err(RegistryProtocolError::FrameTooLarge);
    }
    Ok(out)
}

/// The request that bytes hold.
pub fn decode_request(bytes: &[u8]) -> (r: Result<RegistryRequestV1, RegistryProtocolError>)
    ensures
        match r {
            Ok(request) => reads_request(bytes@, request@),
            Err(error) => error == request_error(bytes@) && forall|m: RegistryRequestModel|
                !reads_request(bytes@, m),
        },
{
    if bytes.len() > 0 && bytes[0] != 1 {
        assert(bytes@.subrange(0, 1)[0] == bytes@[0]);
        return Err(RegistryProtocolError::UnsupportedVersion);
    }
    let mut reader = Reader::new(bytes);
    let (kind, request_id, session_id, instance) = match read_request_head(&mut reader) {
        Some(head) => head,
        None => return Err(RegistryProtocolError::Malformed),
    };
    let instance_id = InstanceId::new(instance);
    let ghost body = reader@;
    if kind == 0 {
        let requested_lease_seconds: u16 = match reader.u16() {
            Some(lease) => lease,
            None => return Err(RegistryProtocolError::Malformed),
        };
        let bits: u32 = match reader.u32() {
            Some(bits) => bits,
            None => return Err(RegistryProtocolError::Malformed),
        };
        let capabilities = match Capabilities::from_bits(bits) {
            Some(capabilities) => capabilities,
            None => return Err(RegistryProtocolError::CapabilityMismatch),
        };
        let services = match read_service_set(&mut reader) {
            Some(services) => services,
            None => return Err(RegistryProtocolError::Malformed),
        };
        if !reader.at_end() {
            return Err(RegistryProtocolError::Malformed);
        }
        Ok(
            RegistryRequestV1::Register {
                request_id,
                session_id,
                instance_id,
                requested_lease_seconds,
                capabilities,
                services,
            },
        )
    } else if kind == 1 {
        let expected_registration_revision = match read_revision(&mut reader) {
            Some(revision) => revision,
            None => return Err(RegistryProtocolError::Malformed),
        };
        let requested_lease_seconds: u16 = match reader.u16() {
            Some(lease) => lease,
            None => return Err(RegistryProtocolError::Malformed),
        };
        if !reader.at_end() {
            return Err(RegistryProtocolError::Malformed);
        }
        Ok(
            RegistryRequestV1::Refresh {
                request_id,
                session_id,
                instance_id,
                expected_registration_revision,
                requested_lease_seconds,
            },
        )
    } else if kind == 2 {
        let expected_registration_revision = match read_revision(&mut reader) {
            Some(revision) => revision,
            None => return Err(RegistryProtocolError::Malformed),
        };
        if !reader.at_end() {
            return Err(RegistryProtocolError::Malformed);
        }
        Ok(
            RegistryRequestV1::Withdraw {
                request_id,
                session_id,
                instance_id,
                expected_registration_revision,
            },
        )
    } else {
        Err(RegistryProtocolError::Malformed)
    }
}

fn read_request_head(reader: &mut Reader<'_>) -> (r: Option<(u8, [u8; 16], [u8; 16], [u8; 16])>)
    ensures
        match r {
            Some((kind, a, b, c)) => request_head(old(reader)@) == Some(
                (kind, a@, b@, c@, final(reader)@),
            ),
            None => request_head(old(reader)@) is None,
        },
{
    let version: u8 = reader.u8()?;
    if version != 1 {
        return None;
    }
    let kind: u8 = reader.u8()?;
    let request_id: [u8; 16] = reader.array()?;
    let session_id: [u8; 16] = reader.array()?;
    let instance_id: [u8; 16] = reader.array()?;
    Some((kind, request_id, session_id, instance_id))
}

/// Reads a registration number.
fn read_revision(reader: &mut Reader<'_>) -> (r: Option<RegistrationRevision>)
    ensures
        match split_u64(old(reader)@) {
            Some((v, rest)) => if v == 0 {
                r is None
            } else {
                r matches Some(revision) && revision@ == v && final(reader)@ == rest
            },
            None => r is None,
        },
{
    RegistrationRevision::new(reader.u64()?)
}

/// The bytes of an answer.
pub open spec fn enc_response(m: RegistryResponseV1) -> Seq<u8> {
    seq![1u8] + match m {
        RegistryResponseV1::Registered {
            request_id,
            instance_id,
            registration_revision,
            service_set_hash,
            expires_at,
            effective_lease_seconds,
        } => seq![0u8] + (request_id@ + (instance_id@@ + (be64(registration_revision@) + (
        service_set_hash@ + (be_i64(expires_at) + be16(effective_lease_seconds)))))),
        RegistryResponseV1::Refreshed { request_id, instance_id, registration_revision, expires_at } =>
            seq![1u8] + (request_id@ + (instance_id@@ + (be64(registration_revision@) + be_i64(
            expires_at,
        )))),
        RegistryResponseV1::Withdrawn { request_id, instance_id, registration_revision } => seq![2u8] + (
        request_id@ + (instance_id@@ + be64(registration_revision@))),
        RegistryResponseV1::Rejected { request_id, error } => seq![3u8] + (enc_optional_id(request_id)
            + enc_error(error)),
    }
}

/// Whether an answer's registration number is one.
pub open spec fn valid_response(m: RegistryResponseV1) -> bool {
    match m {
        RegistryResponseV1::Registered { registration_revision, .. } => registration_revision@ != 0,
        RegistryResponseV1::Refreshed { registration_revision, .. } => registration_revision@ != 0,
        RegistryResponseV1::Withdrawn { registration_revision, .. } => registration_revision@ != 0,
        RegistryResponseV1::Rejected { .. } => true,
    }
}

/// Whether bytes start with the numbers of an answer, and what follows them.
pub open spec fn reads_numbers(
    s: Seq<u8>,
    request_id: [u8; 16],
    instance_id: InstanceId,
    revision: RegistrationRevision,
    rest: Seq<u8>,
) -> bool {
    match split_bytes(s, 16) {
        None => false,
        Some((a, s)) => a == request_id@ && match split_bytes(s, 16) {
            None => false,
            Some((b, s)) => b == instance_id@@ && match split_u64(s) {
                None => false,
                Some((c, s)) => c == revision@ && c != 0 && s == rest,
            },
        },
    }
}

/// What follows the numbers of an answer.
pub open spec fn after_numbers(s: Seq<u8>) -> Seq<u8> {
    s.subrange(40, s.len() as int)
}

/// Whether what follows the kind of an answer reads as `m`.
pub open spec fn reads_response_body(kind: u8, s: Seq<u8>, m: RegistryResponseV1) -> bool {
    match m {
        RegistryResponseV1::Registered {
            request_id,
            instance_id,
            registration_revision,
            service_set_hash,
            expires_at,
            effective_lease_seconds,
        } => kind == 0 && reads_numbers(
            s,
            request_id,
            instance_id,
            registration_revision,
            after_numbers(s),
        ) && match split_bytes(after_numbers(s), 32) {
            None => false,
            Some((hash, s)) => hash == service_set_hash@ && match split_i64(s) {
                None => false,
                Some((time, s)) => time == expires_at && match split_u16(s) {
                    None => false,
                    Some((lease, s)) => lease == effective_lease_seconds && s.len() == 0,
                },
            },
        },
        RegistryResponseV1::Refreshed { request_id, instance_id, registration_revision, expires_at } =>
            kind == 1 && reads_numbers(
            s,
            request_id,
            instance_id,
            registration_revision,
            after_numbers(s),
        ) && match split_i64(after_numbers(s)) {
            None => false,
            Some((time, s)) => time == expires_at && s.len() == 0,
        },
        RegistryResponseV1::Withdrawn { request_id, instance_id, registration_revision } => kind == 2
            && reads_numbers(s, request_id, instance_id, registration_revision, after_numbers(s))
            && after_numbers(s).len() == 0,
        RegistryResponseV1::Rejected { request_id, error } => kind == 3 && reads_rejected(
            s,
            request_id,
            error,
        ),
    }
}

/// Whether bytes read as a refusal.
pub open spec fn reads_rejected(s: Seq<u8>, request_id: Option<[u8; 16]>, error: PublicError) -> bool {
    exists|rest: Seq<u8>|
        #[trigger] reads_optional_id(s, request_id, rest) && reads_error(rest, error, Seq::empty())
}

/// Whether bytes say `m`.
spec fn reads_response(s: Seq<u8>, m: RegistryResponseV1) -> bool {
    match split_u8(s) {
        None => false,
        Some((version, s)) => version == 1 && match split_u8(s) {
            None => false,
            Some((kind, s)) => reads_response_body(kind, s, m),
        },
    }
}

/// Why bytes are not an answer.
pub open spec fn response_error(s: Seq<u8>) -> RegistryProtocolError {
    if s.len() > 0 && s[0] != 1 {
        RegistryProtocolError::UnsupportedVersion
    } else {
        RegistryProtocolError::Malformed
    }
}

proof fn lemma_numbers_read(
    s: Seq<u8>,
    a: [u8; 16],
    b: InstanceId,
    c: RegistrationRevision,
    rest: Seq<u8>,
)
    requires
        c@ != 0,
    ensures
        reads_numbers(s, a, b, c, rest) <==> s == a@ + (b@@ + (be64(c@) + rest)),
        reads_numbers(s, a, b, c, rest) ==> after_numbers(s) == rest,
{
    crate::bytes::lemma_field_lengths(0, 0, c@, 0);
    if s == a@ + (b@@ + (be64(c@) + rest)) {
        crate::bytes::lemma_split_bytes(a@, b@@ + (be64(c@) + rest));
        crate::bytes::lemma_split_bytes(b@@, be64(c@) + rest);
        crate::bytes::lemma_split_u64(c@, rest);
    }
    if reads_numbers(s, a, b, c, rest) {
        crate::bytes::lemma_join_bytes(s, 16);
        let s1 = (split_bytes(s, 16)->0).1;
        crate::bytes::lemma_join_bytes(s1, 16);
        let s2 = (split_bytes(s1, 16)->0).1;
        crate::bytes::lemma_join_u64(s2);
        assert(after_numbers(s) =~= rest);
    }
}

proof fn lemma_response_reads(s: Seq<u8>, m: RegistryResponseV1)
    requires
        valid_response(m),
    ensures
        reads_response(s, m) <==> s == enc_response(m),
{
    let none = Seq::<u8>::empty();
    if s == enc_response(m) {
        let s1 = s.subrange(1, s.len() as int);
        let kind: u8 = s[1];
        let body = s.subrange(2, s.len() as int);
        assert(s =~= seq![1u8] + (seq![kind] + body));
        crate::bytes::lemma_split_u8(1, seq![kind] + body);
        crate::bytes::lemma_split_u8(kind, body);
        lemma_body_reads(kind, body, m);
        assert(seq![kind] + body =~= enc_response(m).subrange(1, s.len() as int));
    }
    if reads_response(s, m) {
        crate::bytes::lemma_join_u8(s);
        let s1 = (split_u8(s)->0).1;
        crate::bytes::lemma_join_u8(s1);
        let (kind, body) = split_u8(s1)->0;
        lemma_body_reads(kind, body, m);
    }
}

/// Different answers have different bytes, so that the bytes of an answer can be
/// read as that answer alone.
pub proof fn law_response_encoding_is_injective(a: RegistryResponseV1, b: RegistryResponseV1)
    requires
        valid_response(a),
        valid_response(b),
        enc_response(a) == enc_response(b),
    ensures
        a == b,
{
    let s = enc_response(a);
    lemma_response_reads(s, a);
    lemma_response_reads(s, b);
    match (a, b) {
        (
            RegistryResponseV1::Registered {
                request_id: ra,
                instance_id: ia,
                registration_revision: va,
                service_set_hash: ha,
                ..
            },
            RegistryResponseV1::Registered {
                request_id: rb,
                instance_id: ib,
                registration_revision: vb,
                service_set_hash: hb,
                ..
            },
        ) => {
            lemma_array_view(ra, rb);
            lemma_array_view(ia@, ib@);
            lemma_instance_view(ia, ib);
            lemma_revision_view(va, vb);
            lemma_array_view(ha, hb);
        },
        (
            RegistryResponseV1::Refreshed {
                request_id: ra,
                instance_id: ia,
                registration_revision: va,
                ..
            },
            RegistryResponseV1::Refreshed {
                request_id: rb,
                instance_id: ib,
                registration_revision: vb,
                ..
            },
        ) => {
            lemma_array_view(ra, rb);
            lemma_array_view(ia@, ib@);
            lemma_instance_view(ia, ib);
            lemma_revision_view(va, vb);
        },
        (
            RegistryResponseV1::Withdrawn { request_id: ra, instance_id: ia, registration_revision: va },
            RegistryResponseV1::Withdrawn { request_id: rb, instance_id: ib, registration_revision: vb },
        ) => {
            lemma_array_view(ra, rb);
            lemma_array_view(ia@, ib@);
            lemma_instance_view(ia, ib);
            lemma_revision_view(va, vb);
        },
        (
            RegistryResponseV1::Rejected { request_id: ida, error: ea },
            RegistryResponseV1::Rejected { request_id: idb, error: eb },
        ) => {
            let body = (split_u8((split_u8(s)->0).1)->0).1;
            let ta = choose|tail: Seq<u8>|
                #[trigger] reads_optional_id(body, ida, tail) && reads_error(tail, ea, Seq::empty());
            let tb = choose|tail: Seq<u8>|
                #[trigger] reads_optional_id(body, idb, tail) && reads_error(tail, eb, Seq::empty());
            if let (Some(x), Some(y)) = (ida, idb) {
                lemma_array_view(x, y);
            }
            crate::error::lemma_error_unique(ta, ea, eb, Seq::empty(), Seq::empty());
        },
        _ => {},
    }
}

proof fn lemma_body_reads(kind: u8, s: Seq<u8>, m: RegistryResponseV1)
    requires
        valid_response(m),
    ensures
        reads_response_body(kind, s, m) <==> seq![1u8] + (seq![kind] + s) == enc_response(m),
{
    let none = Seq::<u8>::empty();
    let whole = seq![1u8] + (seq![kind] + s);
    assert(whole.subrange(2, whole.len() as int) =~= s);
    assert(whole[1] == kind);
    match m {
        RegistryResponseV1::Registered {
            request_id,
            instance_id,
            registration_revision,
            service_set_hash,
            expires_at,
            effective_lease_seconds,
        } => {
            let s3 = be16(effective_lease_seconds);
            let s2 = be_i64(expires_at) + s3;
            let s1 = service_set_hash@ + s2;
            let expected = request_id@ + (instance_id@@ + (be64(registration_revision@) + s1));
            assert(enc_response(m) == seq![1u8] + (seq![0u8] + expected));
            if whole == enc_response(m) {
                lemma_same_tail(kind, s, 0, expected);
                lemma_numbers_read(s, request_id, instance_id, registration_revision, s1);
                crate::bytes::lemma_split_bytes(service_set_hash@, s2);
                crate::bytes::lemma_split_i64(expires_at, s3);
                crate::bytes::lemma_split_u16(effective_lease_seconds, none);
                assert(s3 + none =~= s3);
            }
            if reads_response_body(kind, s, m) {
                lemma_numbers_read(
                    s,
                    request_id,
                    instance_id,
                    registration_revision,
                    after_numbers(s),
                );
                let t1 = after_numbers(s);
                crate::bytes::lemma_join_bytes(t1, 32);
                let t2 = (split_bytes(t1, 32)->0).1;
                crate::bytes::lemma_join_i64(t2);
                let t3 = (split_i64(t2)->0).1;
                crate::bytes::lemma_join_u16(t3);
                let t4 = (split_u16(t3)->0).1;
                assert(s3 + t4 =~= s3);
            }
        },
        RegistryResponseV1::Refreshed { request_id, instance_id, registration_revision, expires_at } => {
            let s1 = be_i64(expires_at);
            let expected = request_id@ + (instance_id@@ + (be64(registration_revision@) + s1));
            assert(enc_response(m) == seq![1u8] + (seq![1u8] + expected));
            if whole == enc_response(m) {
                lemma_same_tail(kind, s, 1, expected);
                lemma_numbers_read(s, request_id, instance_id, registration_revision, s1);
                crate::bytes::lemma_split_i64(expires_at, none);
                assert(s1 + none =~= s1);
            }
            if reads_response_body(kind, s, m) {
                lemma_numbers_read(
                    s,
                    request_id,
                    instance_id,
                    registration_revision,
                    after_numbers(s),
                );
                let t1 = after_numbers(s);
                crate::bytes::lemma_join_i64(t1);
                let t2 = (split_i64(t1)->0).1;
                assert(s1 + t2 =~= s1);
            }
        },
        RegistryResponseV1::Withdrawn { request_id, instance_id, registration_revision } => {
            let s1 = be64(registration_revision@);
            let expected = request_id@ + (instance_id@@ + s1);
            assert(s1 + none =~= s1);
            assert(enc_response(m) == seq![1u8] + (seq![2u8] + expected));
            if whole == enc_response(m) {
                lemma_same_tail(kind, s, 2, expected);
                lemma_numbers_read(s, request_id, instance_id, registration_revision, none);
            }
            if reads_response_body(kind, s, m) {
                assert(after_numbers(s) =~= none);
                lemma_numbers_read(s, request_id, instance_id, registration_revision, none);
            }
        },
        RegistryResponseV1::Rejected { request_id, error } => {
            let tail = enc_error(error);
            let expected = enc_optional_id(request_id) + tail;
            assert(tail + none =~= tail);
            assert(enc_response(m) == seq![1u8] + (seq![3u8] + expected));
            if whole == enc_response(m) {
                lemma_same_tail(kind, s, 3, expected);
                lemma_optional_id_reads(s, request_id, tail);
                lemma_error_reads(tail, error, none);
                assert(reads_rejected(s, request_id, error));
            }
            if reads_response_body(kind, s, m) {
                let rest = choose|rest: Seq<u8>|
                    #[trigger] reads_optional_id(s, request_id, rest) && reads_error(rest, error, none);
                lemma_optional_id_reads(s, request_id, rest);
                lemma_error_reads(rest, error, none);
            }
        },
    }
}

proof fn lemma_same_tail(a: u8, s: Seq<u8>, b: u8, t: Seq<u8>)
    requires
        seq![1u8] + (seq![a] + s) == seq![1u8] + (seq![b] + t),
    ensures
        a == b,
        s == t,
{
    let x = seq![1u8] + (seq![a] + s);
    let y = seq![1u8] + (seq![b] + t);
    assert(x[1] == a && y[1] == b);
    assert(x.subrange(2, x.len() as int) =~= s);
    assert(y.subrange(2, y.len() as int) =~= t);
}

/// An answer with anything after it is the bytes of no answer, and malformed.
#[verifier::spinoff_prover]
#[verifier::rlimit(40)]
pub proof fn law_response_ends_its_frame(m: RegistryResponseV1, added: Seq<u8>)
    requires
        added.len() > 0,
    ensures
        forall|x: RegistryResponseV1| #[trigger] enc_response(x) != enc_response(m) + added,
        response_error(enc_response(m) + added) == RegistryProtocolError::Malformed,
{
    let none = Seq::<u8>::empty();
    let s = enc_response(m) + added;
    assert(s[0] == 1);
    assert forall|x: RegistryResponseV1| #[trigger] enc_response(x) != s by {
        assert(s[1] == enc_response(m)[1]);
        lemma_response_len(m);
        lemma_response_len(x);
        if enc_response(x) == s {
            assert(enc_response(x)[1] == enc_response(m)[1]);
            if let (
                RegistryResponseV1::Rejected { request_id: ida, error: ea },
                RegistryResponseV1::Rejected { request_id: idb, error: eb },
            ) = (x, m) {
                let a = enc_optional_id(ida) + (enc_error(ea) + none);
                let b = enc_optional_id(idb) + (enc_error(eb) + added);
                assert(s.subrange(2, s.len() as int) =~= b);
                assert(enc_response(x).subrange(2, s.len() as int) =~= a);
                crate::proxy::lemma_same_after_refusals(ida, ea, none, idb, eb, added);
            }
        }
    }
}

proof fn lemma_response_len(m: RegistryResponseV1)
    ensures
        m is Registered ==> enc_response(m).len() == 84,
        m is Refreshed ==> enc_response(m).len() == 50,
        m is Withdrawn ==> enc_response(m).len() == 42,
{
    match m {
        RegistryResponseV1::Registered {
            registration_revision,
            expires_at,
            effective_lease_seconds,
            ..
        } => crate::bytes::lemma_field_lengths(
            effective_lease_seconds,
            0,
            registration_revision@,
            expires_at,
        ),
        RegistryResponseV1::Refreshed { registration_revision, expires_at, .. } =>
            crate::bytes::lemma_field_lengths(0, 0, registration_revision@, expires_at),
        RegistryResponseV1::Withdrawn { registration_revision, .. } => crate::bytes::lemma_field_lengths(
            0,
            0,
            registration_revision@,
            0,
        ),
        RegistryResponseV1::Rejected { .. } => {},
    }
}

/// Bytes that start with another version than one are of an unsupported
/// version and the bytes of no answer.
pub proof fn law_response_version_is_one(s: Seq<u8>)
    requires
        s.len() > 0,
        s[0] != 1,
    ensures
        forall|x: RegistryResponseV1| #[trigger] enc_response(x) != s,
        response_error(s) == RegistryProtocolError::UnsupportedVersion,
{
    assert forall|x: RegistryResponseV1| #[trigger] enc_response(x) != s by {
        assert(enc_response(x)[0] == 1);
    }
}

/// The bytes of an answer. Every answer fits its frame.
pub fn encode_response(response: &RegistryResponseV1) -> (r: Result<Vec<u8>, RegistryProtocolError>)
    ensures
        r matches Ok(bytes) && bytes@ == enc_response(*response) && bytes@.len() <= MAX_REGISTRY_FRAME,
{
    broadcast use crate::bytes::lemma_add_assoc;

    let mut out: Vec<u8> = Vec::new();
    put_u8(&mut out, 1);
    assert(out@ =~= seq![1u8]);
    match response {
        RegistryResponseV1::Registered {
            request_id,
            instance_id,
            registration_revision,
            service_set_hash,
            expires_at,
            effective_lease_seconds,
        } => {
            put_u8(&mut out, 0);
            put_bytes(&mut out, request_id);
            put_bytes(&mut out, instance_id.as_bytes());
            put_u64(&mut out, registration_revision.get());
            put_bytes(&mut out, service_set_hash);
            put_i64(&mut out, *expires_at);
            put_u16(&mut out, *effective_lease_seconds);
            proof {
                crate::bytes::lemma_field_lengths(0, 0, registration_revision@, *expires_at);
            }
        },
        RegistryResponseV1::Refreshed { request_id, instance_id, registration_revision, expires_at } => {
            put_u8(&mut out, 1);
            put_bytes(&mut out, request_id);
            put_bytes(&mut out, instance_id.as_bytes());
            put_u64(&mut out, registration_revision.get());
            put_i64(&mut out, *expires_at);
            proof {
                crate::bytes::lemma_field_lengths(0, 0, registration_revision@, *expires_at);
            }
        },
        RegistryResponseV1::Withdrawn { request_id, instance_id, registration_revision } => {
            put_u8(&mut out, 2);
            put_bytes(&mut out, request_id);
            put_bytes(&mut out, instance_id.as_bytes());
            put_u64(&mut out, registration_revision.get());
            proof {
                crate::bytes::lemma_field_lengths(0, 0, registration_revision@, 0);
            }
        },
        RegistryResponseV1::Rejected { request_id, error } => {
            put_u8(&mut out, 3);
            put_optional_id(&mut out, *request_id);
            put_error(&mut out, *error);
            proof {
                crate::error::lemma_code_text_short(error.code);
            }
        },
    }
    Ok(out)
}

/// The answer with the given bytes.
pub fn decode_response(bytes: &[u8]) -> (r: Result<RegistryResponseV1, RegistryProtocolError>)
    ensures
        match r {
            Ok(m) => valid_response(m) && bytes@ == enc_response(m),
            Err(error) => error == response_error(bytes@) && forall|m: RegistryResponseV1|
                valid_response(m) ==> #[trigger] enc_response(m) != bytes@,
        },
{
    assert forall|m: RegistryResponseV1| valid_response(m) implies (reads_response(bytes@, m)
        <==> bytes@ == #[trigger] enc_response(m)) by {
        lemma_response_reads(bytes@, m);
    }
    if bytes.len() > 0 && bytes[0] != 1 {
        assert(bytes@.subrange(0, 1)[0] == bytes@[0]);
        return Err(RegistryProtocolError::UnsupportedVersion);
    }
    match read_response(bytes) {
        Some(m) => Ok(m),
        None => Err(RegistryProtocolError::Malformed),
    }
}

fn read_numbers(reader: &mut Reader<'_>) -> (r: Option<([u8; 16], InstanceId, RegistrationRevision)>)
    ensures
        match r {
            Some((a, b, c)) => reads_numbers(old(reader)@, a, b, c, final(reader)@) && final(reader)@
                == after_numbers(old(reader)@) && c@ != 0,
            None => forall|a: [u8; 16], b: InstanceId, c: RegistrationRevision, rest: Seq<u8>|
                !reads_numbers(old(reader)@, a, b, c, rest),
        },
{
    let request_id: [u8; 16] = reader.array()?;
    let instance: [u8; 16] = reader.array()?;
    let instance_id = InstanceId::new(instance);
    let revision = read_revision(reader)?;
    proof {
        lemma_numbers_read(old(reader)@, request_id, instance_id, revision, reader@);
    }
    Some((request_id, instance_id, revision))
}

fn read_response(bytes: &[u8]) -> (r: Option<RegistryResponseV1>)
    ensures
        match r {
            Some(m) => reads_response(bytes@, m) && valid_response(m),
            None => forall|m: RegistryResponseV1| !reads_response(bytes@, m),
        },
{
    let mut reader = Reader::new(bytes);
    let version: u8 = reader.u8()?;
    if version != 1 {
        return None;
    }
    let kind: u8 = reader.u8()?;
    let ghost body = reader@;
    if kind == 0 {
        let (request_id, instance_id, registration_revision) = read_numbers(&mut reader)?;
        let service_set_hash: [u8; 32] = reader.array()?;
        let expires_at: i64 = reader.i64()?;
        let effective_lease_seconds: u16 = reader.u16()?;
        if !reader.at_end() {
            return None;
        }
        Some(
            RegistryResponseV1::Registered {
                request_id,
                instance_id,
                registration_revision,
                service_set_hash,
                expires_at,
                effective_lease_seconds,
            },
        )
    } else if kind == 1 {
        let (request_id, instance_id, registration_revision) = read_numbers(&mut reader)?;
        let expires_at: i64 = reader.i64()?;
        if !reader.at_end() {
            return None;
        }
        Some(
            RegistryResponseV1::Refreshed { request_id, instance_id, registration_revision, expires_at },
        )
    } else if kind == 2 {
        let (request_id, instance_id, registration_revision) = read_numbers(&mut reader)?;
        if !reader.at_end() {
            return None;
        }
        Some(RegistryResponseV1::Withdrawn { request_id, instance_id, registration_revision })
    } else if kind == 3 {
        let request_id = read_optional_id(&mut reader)?;
        let ghost tail = reader@;
        let error = read_error(&mut reader)?;
        if !reader.at_end() {
            proof {
                assert forall|e: PublicError| !reads_error(tail, e, Seq::empty()) by {
                    if reads_error(tail, e, Seq::empty()) {
                        crate::error::lemma_error_unique(tail, error, e, reader@, Seq::empty());
                    }
                }
            }
            return None;
        }
        assert(reader@ =~= Seq::<u8>::empty());
        assert(reads_rejected(body, request_id, error));
        Some(RegistryResponseV1::Rejected { request_id, error })
    } else {
        None
    }
}

/// What a frame error means in this protocol.
pub open spec fn frame_failure(error: FrameError) -> RegistryProtocolError {
    match error {
        FrameError::UnexpectedEof => RegistryProtocolError::Malformed,
        _ => RegistryProtocolError::FrameTooLarge,
    }
}

/// Reads a frame.
pub fn read_frame(reader: &mut Reader<'_>) -> (r: Result<Vec<u8>, RegistryProtocolError>)
    ensures
        match split_frame(old(reader)@, MAX_REGISTRY_FRAME as int) {
            Ok((body, rest)) => r matches Ok(b) && b@ == body && final(reader)@ == rest,
            Err(error) => r == Err::<Vec<u8>, RegistryProtocolError>(frame_failure(error)),
        },
{
    match read_frame_within(reader, MAX_REGISTRY_FRAME) {
        Ok(body) => Ok(body),
        Err(FrameError::UnexpectedEof) => Err(RegistryProtocolError::Malformed),
        Err(_) => Err(RegistryProtocolError::FrameTooLarge),
    }
}

/// Writes a frame.
pub fn write_frame(out: &mut Vec<u8>, body: &[u8]) -> (r: Result<(), RegistryProtocolError>)
    ensures
        match r {
            Ok(()) => 1 <= body@.len() <= MAX_REGISTRY_FRAME && final(out)@ == old(out)@ + framed(body@),
            Err(error) => (body@.len() == 0 || body@.len() > MAX_REGISTRY_FRAME) && error
                == RegistryProtocolError::FrameTooLarge && final(out)@ == old(out)@,
        },
{
    match write_frame_within(out, body, MAX_REGISTRY_FRAME) {
        Ok(()) => Ok(()),
        Err(_) => Err(RegistryProtocolError::FrameTooLarge),
    }
}

/// What is wrong with a message is shown to the other side under a name of its own.
pub proof fn law_faults_are_shown_by_name(error: RegistryProtocolError, r: PublicErrorCode)
    requires
        call_ensures(RegistryProtocolError::public_code, (&error,), r),
    ensures
        error is FrameTooLarge <==> r is ProtocolFrameTooLarge,
        error is Malformed <==> r is ProtocolMalformed,
        error is UnsupportedVersion <==> r is ProtocolUnsupportedVersion,
        error is CapabilityMismatch <==> r is ProtocolCapabilityMismatch,
{
}

/// A frame that ends too soon is malformed; one of a length that is not allowed is
/// too large. The longest frame is a quarter of a mebibyte.
pub proof fn law_frame_errors_are_told_apart(error: FrameError)
    ensures
        error is UnexpectedEof <==> frame_failure(error) is Malformed,
        error is InvalidData ==> frame_failure(error) is FrameTooLarge,
        error is InvalidInput ==> frame_failure(error) is FrameTooLarge,
        MAX_REGISTRY_FRAME == 256 * 1024,
{
}

/// The state of a service is known by its byte, and by no other.
pub proof fn law_health_is_read_from_its_byte(health: Health, byte: u8)
    ensures
        health_of(byte) == Some(health) <==> health_wire(health) == byte,
        byte > 1 <==> health_of(byte) is None,
        health_of(0) == Some(Health::Ready),
{
}

/// A set of services is written as their number and then one by one: identifier,
/// selector, state.
pub proof fn law_sets_are_written_one_by_one(services: Seq<ServiceModel>, service: ServiceModel)
    requires
        services.len() < 65535,
    ensures
        enc_service_set(Seq::empty()) == be16(0),
        enc_service_set(services) == be16(services.len() as u16) + enc_services(services),
        enc_service_set(services.push(service)) == be16((services.len() + 1) as u16) + enc_services(services)
            + enc_text(service.upstream_id) + selector_bytes(service.selector) + seq![
            health_wire(service.health),
        ],
{
    broadcast use crate::bytes::lemma_add_assoc;

    assert(services.push(service).drop_last() =~= services);
    assert(enc_service_set(Seq::empty()) =~= be16(0));
}

/// A request is written as version, kind and the numbers of the request, the
/// session and the instance; then a registration has the lease, the capabilities
/// and the services, a refresh the revision and the lease, a withdrawal the
/// revision.
pub proof fn law_requests_are_written_in_order(
    request_id: [u8; 16],
    session_id: [u8; 16],
    instance_id: [u8; 16],
    lease: u16,
    capabilities: u32,
    services: Seq<ServiceModel>,
    revision: u64,
)
    ensures
        ({
            let numbers = request_id@ + session_id@ + instance_id@;
            &&& enc_request(
                RegistryRequestModel::Register {
                    request_id,
                    session_id,
                    instance_id,
                    requested_lease_seconds: lease,
                    capabilities,
                    services,
                },
            ) == seq![1u8, 0u8] + numbers + be16(lease) + be32(capabilities) + enc_service_set(services)
            &&& enc_request(
                RegistryRequestModel::Refresh {
                    request_id,
                    session_id,
                    instance_id,
                    expected_registration_revision: revision,
                    requested_lease_seconds: lease,
                },
            ) == seq![1u8, 1u8] + numbers + be64(revision) + be16(lease)
            &&& enc_request(
                RegistryRequestModel::Withdraw {
                    request_id,
                    session_id,
                    instance_id,
                    expected_registration_revision: revision,
                },
            ) == seq![1u8, 2u8] + numbers + be64(revision)
        }),
{
    broadcast use crate::bytes::lemma_add_assoc;

    assert(seq![1u8] + seq![0u8] =~= seq![1u8, 0u8]);
    assert(seq![1u8] + seq![1u8] =~= seq![1u8, 1u8]);
    assert(seq![1u8] + seq![2u8] =~= seq![1u8, 2u8]);
}

/// An answer is written as version and kind; then one that is no refusal has the
/// numbers of the request, the instance and the registration, and with them a
/// registration the digest of the services, when it runs out and the lease, a
/// refresh when it runs out; a refusal has the number of the request if it is
/// known, and the error.
pub proof fn law_answers_are_written_in_order(
    request_id: [u8; 16],
    instance_id: InstanceId,
    registration_revision: RegistrationRevision,
    service_set_hash: [u8; 32],
    expires_at: i64,
    lease: u16,
    error: PublicError,
)
    ensures
        ({
            let numbers = request_id@ + instance_id@@ + be64(registration_revision@);
            &&& enc_response(
                RegistryResponseV1::Registered {
                    request_id,
                    instance_id,
                    registration_revision,
                    service_set_hash,
                    expires_at,
                    effective_lease_seconds: lease,
                },
            ) == seq![1u8, 0u8] + numbers + service_set_hash@ + be_i64(expires_at) + be16(lease)
            &&& enc_response(
                RegistryResponseV1::Refreshed { request_id, instance_id, registration_revision, expires_at },
            ) == seq![1u8, 1u8] + numbers + be_i64(expires_at)
            &&& enc_response(
                RegistryResponseV1::Withdrawn { request_id, instance_id, registration_revision },
            ) == seq![1u8, 2u8] + numbers
            &&& enc_response(RegistryResponseV1::Rejected { request_id: None, error }) == seq![1u8, 3u8, 0u8]
                + enc_error(error)
            &&& enc_response(RegistryResponseV1::Rejected { request_id: Some(request_id), error }) == seq![
                1u8,
                3u8,
                1u8,
            ] + request_id@ + enc_error(error)
        }),
{
    broadcast use crate::bytes::lemma_add_assoc;

    assert(seq![1u8] + seq![0u8] =~= seq![1u8, 0u8]);
    assert(seq![1u8] + seq![1u8] =~= seq![1u8, 1u8]);
    assert(seq![1u8] + seq![2u8] =~= seq![1u8, 2u8]);
    assert(seq![1u8] + (seq![3u8] + seq![0u8]) =~= seq![1u8, 3u8, 0u8]);
    assert(seq![1u8] + (seq![3u8] + seq![1u8]) =~= seq![1u8, 3u8, 1u8]);
}

/// A registration with capabilities that are not known is refused for that.
pub proof fn law_unknown_capabilities_are_a_mismatch(
    request_id: [u8; 16],
    session_id: [u8; 16],
    instance_id: [u8; 16],
    lease: u16,
    capabilities: u32,
    rest: Seq<u8>,
)
    requires
        capabilities >= 16,
    ensures
        request_error(
            seq![1u8, 0u8] + request_id@ + session_id@ + instance_id@ + be16(lease) + be32(capabilities)
                + rest,
        ) == RegistryProtocolError::CapabilityMismatch,
{
    broadcast use crate::bytes::lemma_add_assoc;

    let body = be16(lease) + (be32(capabilities) + rest);
    assert(seq![1u8] + seq![0u8] =~= seq![1u8, 0u8]);
    let s = seq![1u8, 0u8] + request_id@ + session_id@ + instance_id@ + be16(lease) + be32(capabilities)
        + rest;
    assert(s == seq![1u8] + (seq![0u8] + (request_id@ + (session_id@ + (instance_id@ + body)))));
    lemma_request_head(0, request_id, session_id, instance_id, body);
    crate::bytes::lemma_split_u16(lease, be32(capabilities) + rest);
    crate::bytes::lemma_split_u32(capabilities, rest);
    assert(s[0] == 1);
}

/// A body is written as a frame behind what was there, if it is not empty and no
/// longer than a quarter of a mebibyte; another one is refused and nothing is written.
pub proof fn law_frames_are_written_within_bounds(out: &mut Vec<u8>, body: &[u8], r: Result<(), RegistryProtocolError>)
    requires
        call_ensures(write_frame, (out, body), r),
    ensures
        r is Ok <==> 1 <= body@.len() <= 256 * 1024,
        r is Err ==> r->Err_0 == RegistryProtocolError::FrameTooLarge && final(out)@ == old(out)@,
        r is Ok ==> {
            let n = body@.len();
            let s = final(out)@;
            &&& s.len() == old(out)@.len() + 4 + n
            &&& s.subrange(0, old(out)@.len() as int) == old(out)@
            &&& s.subrange(old(out)@.len() as int + 4, s.len() as int) == body@
        },
{
    crate::bytes::law_numbers_are_written_from_the_top(0, body@.len() as u32, 0);
    if r is Ok {
        let s = final(out)@;
        assert(s.subrange(0, old(out)@.len() as int) =~= old(out)@);
        assert(s.subrange(old(out)@.len() as int + 4, s.len() as int) =~= body@);
    }
}

} // verus!
