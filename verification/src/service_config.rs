//! The services that a server offers, and where it finds them.
use crate::crypto::sha256_of;
use crate::ids::{id_text, UpstreamId};
use crate::registry::{
    distinct_ids, distinct_selectors, service_models, service_set_bytes, valid_services, Health,
    ServiceAdvertisementV1, ServiceModel, ServiceSet, MAX_SERVICES,
};
use crate::selector::{
    ascending, key_text, law_metadata_is_determined_by_its_entries, trimmed, valid_selector,
    value_text, Metadata, MetadataKey, MetadataValue, Pair, ProtocolClass, SelectorError,
    SelectorModel, UnscopedSelector, MAX_METADATA,
};
use crate::table::Table;
use crate::text::{
    lemma_precedes_asymmetric, lemma_precedes_total, lemma_precedes_transitive, lemma_utf8_injective,
    precedes, same_text,
};
use vstd::prelude::*;
use vstd::string::StringExecFns;
use vstd::utf8::encode_utf8;

verus! {

/// The smallest buffer that data is copied through.
pub const MIN_COPY_BUFFER: usize = 4096;

/// The largest buffer that data is copied through.
pub const MAX_COPY_BUFFER: usize = 1048576;

#[derive(Debug, PartialEq, Eq)]
pub enum ServiceConfigError {
    /// The file could not be read.
    Load(String),
    /// What the file says cannot be used.
    Invalid(String),
}

/// An IP address.
#[derive(Clone, Copy, Debug, PartialEq, Eq)]
pub enum IpLiteral {
    V4([u8; 4]),
    V6 { address: [u8; 16], flow: u32, scope: u32 },
}

/// Where an upstream listens.
#[derive(Clone, Copy, Debug, PartialEq, Eq)]
pub struct SocketAddress {
    pub ip: IpLiteral,
    pub port: u16,
}

/// How long a registration lives, as the file has it.
#[derive(Clone, Copy, Debug)]
pub struct Registration {
    pub requested_lease_seconds: Option<u16>,
    pub refresh_seconds: Option<u16>,
}

/// What a service is found by, as the file has it.
#[derive(Debug)]
pub struct Selector {
    pub protocol: String,
    pub metadata: Vec<(String, String)>,
}

/// A service as the file has it. Of the address there is nothing if it is not an
/// IP literal with a port.
#[derive(Debug)]
pub struct Entry {
    pub upstream_id: String,
    pub selector: Selector,
    pub enabled: bool,
    pub connect: Option<SocketAddress>,
    pub connect_timeout_ms: Option<u64>,
    pub idle_timeout_ms: Option<u64>,
    pub concurrency_limit: Option<usize>,
}

/// How much is proxied at a time, as the file has it.
#[derive(Clone, Copy, Debug)]
pub struct Proxy {
    pub max_workers: Option<usize>,
    pub max_workers_per_client: Option<usize>,
    pub max_upstream_dials: Option<usize>,
    pub copy_buffer_bytes: Option<usize>,
    pub max_replay_entries: Option<usize>,
    pub ticket_clock_skew: Option<u64>,
}

/// The file of a server's services.
#[derive(Debug)]
pub struct File {
    pub schema_version: u8,
    pub registration: Registration,
    pub services: Vec<Entry>,
    pub proxy: Option<Proxy>,
}

/// What an entry of the file says.
#[verifier::ext_equal]
pub struct EntryModel {
    pub upstream_id: Seq<char>,
    pub protocol: Seq<char>,
    pub metadata: Seq<Pair>,
    pub enabled: bool,
    pub connect: Option<SocketAddress>,
    pub connect_timeout_ms: Option<u64>,
    pub idle_timeout_ms: Option<u64>,
    pub concurrency_limit: Option<usize>,
}

/// What the file says.
#[verifier::ext_equal]
pub struct FileModel {
    pub schema_version: u8,
    pub registration: Registration,
    pub services: Seq<EntryModel>,
    pub proxy: Option<Proxy>,
}

/// The texts of a list of pairs.
pub open spec fn text_pairs(pairs: Seq<(String, String)>) -> Seq<Pair> {
    Seq::new(pairs.len(), |i: int| (pairs[i].0@, pairs[i].1@))
}

/// What the entries of a list say.
pub open spec fn entry_models(entries: Seq<Entry>) -> Seq<EntryModel> {
    Seq::new(entries.len(), |i: int| entries[i]@)
}

impl View for Entry {
    type V = EntryModel;

    open spec fn view(&self) -> EntryModel {
        EntryModel {
            upstream_id: self.upstream_id@,
            protocol: self.selector.protocol@,
            metadata: text_pairs(self.selector.metadata@),
            enabled: self.enabled,
            connect: self.connect,
            connect_timeout_ms: self.connect_timeout_ms,
            idle_timeout_ms: self.idle_timeout_ms,
            concurrency_limit: self.concurrency_limit,
        }
    }
}

impl View for File {
    type V = FileModel;

    open spec fn view(&self) -> FileModel {
        FileModel {
            schema_version: self.schema_version,
            registration: self.registration,
            services: entry_models(self.services@),
            proxy: self.proxy,
        }
    }
}

/// How much is proxied at a time.
#[derive(Clone, Copy, Debug, PartialEq, Eq, Structural)]
pub struct ProxyLimits {
    pub max_workers: usize,
    pub max_workers_per_client: usize,
    pub max_upstream_dials: usize,
    pub copy_buffer_bytes: usize,
    pub max_replay_entries: usize,
    pub ticket_clock_skew: u64,
}

/// A service and where it is found. Times are nanoseconds.
pub struct LocalUpstream {
    pub advertisement: ServiceAdvertisementV1,
    pub connect: SocketAddress,
    pub connect_timeout: u64,
    pub idle_timeout: u64,
    pub concurrency_limit: usize,
}

/// What is known of an upstream.
#[verifier::ext_equal]
pub struct UpstreamModel {
    pub service: ServiceModel,
    pub connect: SocketAddress,
    pub connect_timeout: u64,
    pub idle_timeout: u64,
    pub concurrency_limit: usize,
}

impl View for LocalUpstream {
    type V = UpstreamModel;

    open spec fn view(&self) -> UpstreamModel {
        UpstreamModel {
            service: self.advertisement@,
            connect: self.connect,
            connect_timeout: self.connect_timeout,
            idle_timeout: self.idle_timeout,
            concurrency_limit: self.concurrency_limit,
        }
    }
}

impl Clone for LocalUpstream {
    fn clone(&self) -> (r: Self)
        ensures
            r@ == self@,
    {
        LocalUpstream {
            advertisement: self.advertisement.clone(),
            connect: self.connect,
            connect_timeout: self.connect_timeout,
            idle_timeout: self.idle_timeout,
            concurrency_limit: self.concurrency_limit,
        }
    }
}

impl LocalUpstream {
    /// What may be shown of the upstream: its name, and not where it is.
    pub fn redacted(&self) -> (r: String)
        ensures
            r@ == "LocalUpstream("@ + self@.service.upstream_id + ", connect: <redacted>)"@,
    {
        let mut text = String::from_str("LocalUpstream(");
        text.append(self.advertisement.upstream_id().as_str());
        text.append(", connect: <redacted>)");
        text
    }
}

/// What the upstreams of a list say.
pub open spec fn upstream_models(upstreams: Seq<LocalUpstream>) -> Seq<UpstreamModel> {
    Seq::new(upstreams.len(), |i: int| upstreams[i]@)
}

/// The services of upstreams.
pub open spec fn services_of(upstreams: Seq<UpstreamModel>) -> Seq<ServiceModel> {
    Seq::new(upstreams.len(), |i: int| upstreams[i].service)
}

/// The upstreams by their names.
pub open spec fn by_name(upstreams: Seq<UpstreamModel>) -> Map<Seq<char>, UpstreamModel>
    decreases upstreams.len(),
{
    if upstreams.len() == 0 {
        Map::empty()
    } else {
        by_name(upstreams.drop_last()).insert(
            upstreams.last().service.upstream_id,
            upstreams.last(),
        )
    }
}

/// The protocol class of a name.
pub open spec fn protocol_named(name: Seq<char>) -> Option<ProtocolClass> {
    if name == "http"@ {
        Some(ProtocolClass::Http)
    } else if name == "tls_passthrough"@ {
        Some(ProtocolClass::TlsPassthrough)
    } else if name == "tcp"@ {
        Some(ProtocolClass::Tcp)
    } else {
        None
    }
}

/// What is wrong with the first bad one of `n` metadata entries.
pub open spec fn metadata_fault(raw: Seq<Pair>, n: nat) -> Option<Seq<char>>
    decreases n,
{
    if n == 0 {
        None
    } else {
        match metadata_fault(raw, (n - 1) as nat) {
            Some(fault) => Some(fault),
            None => if !key_text(raw[n - 1].0) {
                Some("invalid metadata key"@)
            } else if !value_text(trimmed(raw[n - 1].1)) {
                Some("invalid metadata value"@)
            } else {
                None
            },
        }
    }
}

/// The table that `n` metadata entries make, later ones first.
pub open spec fn metadata_table(raw: Seq<Pair>, n: nat) -> Map<Seq<char>, Seq<char>>
    decreases n,
{
    if n == 0 {
        Map::empty()
    } else {
        metadata_table(raw, (n - 1) as nat).insert(raw[n - 1].0, trimmed(raw[n - 1].1))
    }
}

/// Whether pairs are the entries of a table in the order of the keys.
pub open spec fn lists(pairs: Seq<Pair>, table: Map<Seq<char>, Seq<char>>) -> bool {
    &&& ascending(pairs)
    &&& forall|p: Pair| #[trigger]
        pairs.contains(p) <==> table.contains_key(p.0) && table[p.0] == p.1
}

/// The entries of a table in the order of the keys.
pub open spec fn listing(table: Map<Seq<char>, Seq<char>>) -> Seq<Pair> {
    choose|pairs: Seq<Pair>| lists(pairs, table)
}

/// There is one order.
pub proof fn law_listing_is_unique(pairs: Seq<Pair>, table: Map<Seq<char>, Seq<char>>)
    requires
        lists(pairs, table),
    ensures
        pairs == listing(table),
{
    let other = listing(table);
    assert(lists(other, table));
    assert forall|p: Pair| pairs.contains(p) <==> other.contains(p) by {}
    law_metadata_is_determined_by_its_entries(pairs, other);
}

/// What an entry is found by, or what is wrong with it.
pub open spec fn selector_of(entry: EntryModel) -> Result<SelectorModel, Seq<char>> {
    if !id_text(entry.upstream_id) {
        Err("invalid upstream_id"@)
    } else {
        match protocol_named(entry.protocol) {
            None => Err("invalid protocol"@),
            Some(protocol) => match metadata_fault(entry.metadata, entry.metadata.len()) {
                Some(fault) => Err(fault),
                None => {
                    let selector = SelectorModel {
                        protocol,
                        metadata: listing(metadata_table(entry.metadata, entry.metadata.len())),
                    };
                    if !(1 <= selector.metadata.len() <= MAX_METADATA) {
                        Err("metadata count is out of bounds"@)
                    } else if !valid_selector(selector) {
                        Err("selector is too large"@)
                    } else {
                        Ok(selector)
                    }
                },
            },
        }
    }
}

/// Whether a name or a selector is taken.
pub open spec fn taken(upstreams: Seq<UpstreamModel>, id: Seq<char>, selector: SelectorModel) -> bool {
    exists|i: int|
        0 <= i < upstreams.len() && ((#[trigger] upstreams[i]).service.upstream_id == id
            || upstreams[i].service.selector == selector)
}

/// A value, or what it is where there is none.
pub open spec fn or<T>(value: Option<T>, default: T) -> T {
    match value {
        Some(value) => value,
        None => default,
    }
}

/// The upstream of an entry, or what is wrong with it.
pub open spec fn upstream_of(entry: EntryModel, selector: SelectorModel) -> Result<
    UpstreamModel,
    Seq<char>,
> {
    let connect_ms = or(entry.connect_timeout_ms, 3_000);
    let idle_ms = or(entry.idle_timeout_ms, 300_000);
    let limit = or(entry.concurrency_limit, 64);
    match entry.connect {
        None => Err("connect must be an IP-literal socket address"@),
        Some(connect) => if connect.port == 0 {
            Err("connect port must be nonzero"@)
        } else if !(100 <= connect_ms <= 20_000 && 1_000 <= idle_ms <= 3_600_000 && 1 <= limit <= 1_024) {
            Err("invalid upstream bounds"@)
        } else {
            Ok(
                UpstreamModel {
                    service: ServiceModel {
                        upstream_id: entry.upstream_id,
                        selector,
                        health: if entry.enabled {
                            Health::Ready
                        } else {
                            Health::Unavailable
                        },
                    },
                    connect,
                    connect_timeout: (connect_ms * 1_000_000) as u64,
                    idle_timeout: (idle_ms * 1_000_000) as u64,
                    concurrency_limit: limit,
                },
            )
        },
    }
}

/// The upstreams of the first `n` entries, or what is wrong with the first bad
/// one.
pub open spec fn loaded(entries: Seq<EntryModel>, n: nat) -> Result<Seq<UpstreamModel>, Seq<char>>
    decreases n,
{
    if n == 0 {
        Ok(Seq::empty())
    } else {
        match loaded(entries, (n - 1) as nat) {
            Err(fault) => Err(fault),
            Ok(before) => match selector_of(entries[n - 1]) {
                Err(fault) => Err(fault),
                Ok(selector) => if taken(before, entries[n - 1].upstream_id, selector) {
                    Err("duplicate service identifier or selector"@)
                } else {
                    match upstream_of(entries[n - 1], selector) {
                        Err(fault) => Err(fault),
                        Ok(upstream) => Ok(before.push(upstream)),
                    }
                },
            },
        }
    }
}

/// A fault stays the fault, however many entries follow.
proof fn lemma_loaded_stops(entries: Seq<EntryModel>, i: nat, n: nat)
    requires
        i <= n,
        loaded(entries, i) is Err,
    ensures
        loaded(entries, n) == loaded(entries, i),
    decreases n,
{
    if i < n {
        lemma_loaded_stops(entries, i, (n - 1) as nat);
    }
}

/// The limits of the file, with what holds where it says nothing.
pub open spec fn limits_of(proxy: Option<Proxy>) -> ProxyLimits {
    match proxy {
        None => ProxyLimits {
            max_workers: 256,
            max_workers_per_client: 32,
            max_upstream_dials: 64,
            copy_buffer_bytes: 32768,
            max_replay_entries: 8_192,
            ticket_clock_skew: 5,
        },
        Some(proxy) => ProxyLimits {
            max_workers: or(proxy.max_workers, 256),
            max_workers_per_client: or(proxy.max_workers_per_client, 32),
            max_upstream_dials: or(proxy.max_upstream_dials, 64),
            copy_buffer_bytes: or(proxy.copy_buffer_bytes, 32768),
            max_replay_entries: or(proxy.max_replay_entries, 8_192),
            ticket_clock_skew: or(proxy.ticket_clock_skew, 5),
        },
    }
}

/// Whether limits can be kept.
pub open spec fn limits_valid(limits: ProxyLimits, upstreams: Seq<UpstreamModel>) -> bool {
    &&& 1 <= limits.max_workers <= 2_048
    &&& 1 <= limits.max_workers_per_client <= 256
    &&& 1 <= limits.max_upstream_dials <= 512
    &&& limits.max_upstream_dials <= limits.max_workers
    &&& MIN_COPY_BUFFER <= limits.copy_buffer_bytes <= MAX_COPY_BUFFER
    &&& limits.copy_buffer_bytes * limits.max_workers * 2 <= usize::MAX
    &&& forall|i: int| 0 <= i < upstreams.len() ==> (#[trigger] upstreams[i]).concurrency_limit <= limits.max_workers
    &&& 1 <= limits.max_replay_entries <= 65_536
    &&& limits.ticket_clock_skew <= 30
}

/// What a file amounts to.
#[verifier::ext_equal]
pub struct Plan {
    pub lease: u16,
    pub refresh: u16,
    pub upstreams: Seq<UpstreamModel>,
    pub proxy: ProxyLimits,
}

/// What a file amounts to, or what is wrong with it.
pub open spec fn plan_of(file: FileModel) -> Result<Plan, Seq<char>> {
    let lease = or(file.registration.requested_lease_seconds, 30);
    let refresh = or(file.registration.refresh_seconds, 10);
    if file.schema_version != 1 {
        Err("schema_version must be 1"@)
    } else if !(10 <= lease <= 60 && 1 <= refresh <= lease / 2) {
        Err("invalid registration lease or refresh"@)
    } else if !(1 <= file.services.len() <= MAX_SERVICES) {
        Err("service entry count is out of bounds"@)
    } else {
        match loaded(file.services, file.services.len()) {
            Err(fault) => Err(fault),
            Ok(upstreams) => if !limits_valid(limits_of(file.proxy), upstreams) {
                Err("invalid proxy limits"@)
            } else {
                Ok(Plan { lease, refresh, upstreams, proxy: limits_of(file.proxy) })
            },
        }
    }
}

/// What a server offers.
pub struct ServiceConfig {
    pub requested_lease_seconds: u16,
    pub refresh_seconds: u16,
    pub services: ServiceSet,
    pub service_set_hash: [u8; 32],
    pub upstreams: Table<UpstreamId, LocalUpstream>,
    pub proxy: ProxyLimits,
}

/// What a configuration says.
#[verifier::ext_equal]
pub struct ConfigModel {
    pub requested_lease_seconds: u16,
    pub refresh_seconds: u16,
    pub services: Seq<ServiceModel>,
    pub service_set_hash: [u8; 32],
    pub upstreams: Map<Seq<char>, UpstreamModel>,
    pub proxy: ProxyLimits,
}

impl View for ServiceConfig {
    type V = ConfigModel;

    open spec fn view(&self) -> ConfigModel {
        ConfigModel {
            requested_lease_seconds: self.requested_lease_seconds,
            refresh_seconds: self.refresh_seconds,
            services: self.services@,
            service_set_hash: self.service_set_hash,
            upstreams: self.upstreams@,
            proxy: self.proxy,
        }
    }
}

impl ServiceConfig {
    /// Whether the configuration is what a file amounts to.
    pub open spec fn follows(self, plan: Plan) -> bool {
        &&& self.requested_lease_seconds == plan.lease
        &&& self.refresh_seconds == plan.refresh
        &&& self.upstreams@ == by_name(plan.upstreams)
        &&& self.proxy == plan.proxy
        &&& valid_services(self.services@)
        &&& self.services@.len() == plan.upstreams.len()
        &&& forall|m: ServiceModel| #[trigger]
            self.services@.contains(m) <==> services_of(plan.upstreams).contains(m)
        &&& self.service_set_hash@ == sha256_of(service_set_bytes(self.services@))
    }
}

fn invalid(text: &str) -> (r: ServiceConfigError)
    ensures
        r matches ServiceConfigError::Invalid(shown) && shown@ == text@,
{
    ServiceConfigError::Invalid(text.to_owned())
}

/// Whether an error says what is wrong.
pub open spec fn says(error: ServiceConfigError, fault: Seq<char>) -> bool {
    error matches ServiceConfigError::Invalid(shown) && shown@ == fault
}

/// The table of the metadata of an entry.
fn read_metadata(raw: &Vec<(String, String)>) -> (r: Result<Metadata, ServiceConfigError>)
    ensures
        ({
            let pairs = text_pairs(raw@);
            match r {
                Ok(metadata) => metadata_fault(pairs, pairs.len()) is None && metadata@ == listing(
                    metadata_table(pairs, pairs.len()),
                ),
                Err(error) => (metadata_fault(pairs, pairs.len()) matches Some(fault) && says(
                    error,
                    fault,
                )),
            }
        }),
{
    let ghost pairs = text_pairs(raw@);
    let mut metadata = Metadata::new();
    let mut i: usize = 0;
    proof {
        use_type_invariant(&metadata);
    }
    while i < raw.len()
        invariant
            i <= raw@.len(),
            pairs == text_pairs(raw@),
            metadata_fault(pairs, i as nat) is None,
            lists(metadata@, metadata_table(pairs, i as nat)),
        decreases raw@.len() - i,
    {
        let ghost before = metadata@;
        let ghost table = metadata_table(pairs, i as nat);
        assert(pairs[i as int] == (raw@[i as int].0@, raw@[i as int].1@));
        let key = match MetadataKey::new(raw[i].0.as_str()) {
            Ok(key) => key,
            Err(_) => {
                proof {
                    lemma_fault_stays(pairs, (i + 1) as nat, pairs.len());
                }
                return Err(invalid("invalid metadata key"));
            },
        };
        let value = match MetadataValue::new(raw[i].1.as_str()) {
            Ok(value) => value,
            Err(_) => {
                proof {
                    lemma_fault_stays(pairs, (i + 1) as nat, pairs.len());
                }
                return Err(invalid("invalid metadata value"));
            },
        };
        let ghost added = (key@, value@);
        metadata.insert(key, value);
        proof {
            use_type_invariant(&metadata);
            assert(metadata_table(pairs, (i + 1) as nat) == table.insert(added.0, added.1));
            assert forall|p: Pair| #[trigger]
                metadata@.contains(p) <==> table.insert(added.0, added.1).contains_key(p.0)
                    && table.insert(added.0, added.1)[p.0] == p.1 by {
                assert(before.contains(p) <==> table.contains_key(p.0) && table[p.0] == p.1);
            }
        }
        i += 1;
    }
    proof {
        law_listing_is_unique(metadata@, metadata_table(pairs, pairs.len()));
    }
    Ok(metadata)
}

/// A fault stays the fault, however many entries follow.
proof fn lemma_fault_stays(raw: Seq<Pair>, i: nat, n: nat)
    requires
        i <= n,
        metadata_fault(raw, i) is Some,
    ensures
        metadata_fault(raw, n) == metadata_fault(raw, i),
    decreases n,
{
    if i < n {
        lemma_fault_stays(raw, i, (n - 1) as nat);
    }
}

fn read_protocol(name: &str) -> (r: Option<ProtocolClass>)
    ensures
        r == protocol_named(name@),
{
    if same_text(name, "http") {
        Some(ProtocolClass::Http)
    } else if same_text(name, "tls_passthrough") {
        Some(ProtocolClass::TlsPassthrough)
    } else if same_text(name, "tcp") {
        Some(ProtocolClass::Tcp)
    } else {
        None
    }
}

/// The name of an entry and what it is found by.
fn read_selector(entry: &Entry) -> (r: Result<(UpstreamId, UnscopedSelector), ServiceConfigError>)
    ensures
        match r {
            Ok(read) => read.0@ == entry@.upstream_id && selector_of(entry@) == Ok::<
                SelectorModel,
                Seq<char>,
            >(read.1@),
            Err(error) => (selector_of(entry@) matches Err(fault) && says(error, fault)),
        },
{
    let id = match UpstreamId::new(entry.upstream_id.as_str()) {
        Ok(id) => id,
        Err(_) => return Err(invalid("invalid upstream_id")),
    };
    let protocol = match read_protocol(entry.selector.protocol.as_str()) {
        Some(protocol) => protocol,
        None => return Err(invalid("invalid protocol")),
    };
    let metadata = match read_metadata(&entry.selector.metadata) {
        Ok(metadata) => metadata,
        Err(error) => return Err(error),
    };
    match UnscopedSelector::new(protocol, metadata) {
        Ok(selector) => Ok((id, selector)),
        Err(SelectorError::MetadataCount) => Err(invalid("metadata count is out of bounds")),
        Err(_) => Err(invalid("selector is too large")),
    }
}

/// Whether a name or a selector is taken.
fn is_taken(upstreams: &Vec<LocalUpstream>, id: &UpstreamId, selector: &UnscopedSelector) -> (r: bool)
    ensures
        r == taken(upstream_models(upstreams@), id@, selector@),
{
    let ghost models = upstream_models(upstreams@);
    let mut i: usize = 0;
    while i < upstreams.len()
        invariant
            i <= upstreams@.len(),
            models == upstream_models(upstreams@),
            forall|j: int|
                0 <= j < i ==> (#[trigger] models[j]).service.upstream_id != id@
                    && models[j].service.selector != selector@,
        decreases upstreams@.len() - i,
    {
        let service = &upstreams[i].advertisement;
        assert(models[i as int].service == service@);
        if service.upstream_id().same(id) || service.selector().same(selector) {
            return true;
        }
        i += 1;
    }
    false
}

fn u16_or(value: Option<u16>, default: u16) -> (r: u16)
    ensures
        r == or(value, default),
{
    match value {
        Some(value) => value,
        None => default,
    }
}

fn u64_or(value: Option<u64>, default: u64) -> (r: u64)
    ensures
        r == or(value, default),
{
    match value {
        Some(value) => value,
        None => default,
    }
}

fn usize_or(value: Option<usize>, default: usize) -> (r: usize)
    ensures
        r == or(value, default),
{
    match value {
        Some(value) => value,
        None => default,
    }
}

/// The upstream of an entry.
fn read_upstream(entry: &Entry, id: UpstreamId, selector: UnscopedSelector) -> (r: Result<
    LocalUpstream,
    ServiceConfigError,
>)
    requires
        id@ == entry@.upstream_id,
    ensures
        match r {
            Ok(upstream) => upstream_of(entry@, selector@) == Ok::<UpstreamModel, Seq<char>>(
                upstream@,
            ),
            Err(error) => (upstream_of(entry@, selector@) matches Err(fault) && says(error, fault)),
        },
{
    let connect = match entry.connect {
        Some(connect) => connect,
        None => return Err(invalid("connect must be an IP-literal socket address")),
    };
    if connect.port == 0 {
        return Err(invalid("connect port must be nonzero"));
    }
    let connect_ms: u64 = u64_or(entry.connect_timeout_ms, 3_000);
    let idle_ms: u64 = u64_or(entry.idle_timeout_ms, 300_000);
    let limit: usize = usize_or(entry.concurrency_limit, 64);
    if connect_ms < 100 || connect_ms > 20_000 || idle_ms < 1_000 || idle_ms > 3_600_000 || limit < 1
        || limit > 1_024 {
        return Err(invalid("invalid upstream bounds"));
    }
    let health = if entry.enabled {
        Health::Ready
    } else {
        Health::Unavailable
    };
    Ok(
        LocalUpstream {
            advertisement: ServiceAdvertisementV1::new(id, selector, health),
            connect,
            connect_timeout: connect_ms * 1_000_000,
            idle_timeout: idle_ms * 1_000_000,
            concurrency_limit: limit,
        },
    )
}

/// The upstreams of entries.
fn read_upstreams(entries: &Vec<Entry>) -> (r: Result<Vec<LocalUpstream>, ServiceConfigError>)
    ensures
        ({
            let models = entry_models(entries@);
            match r {
                Ok(upstreams) => {
                    let read = upstream_models(upstreams@);
                    &&& loaded(models, models.len()) == Ok::<Seq<UpstreamModel>, Seq<char>>(read)
                    &&& read.len() == models.len()
                    &&& distinct_ids(services_of(read))
                    &&& distinct_selectors(services_of(read))
                },
                Err(error) => (loaded(models, models.len()) matches Err(fault) && says(
                    error,
                    fault,
                )),
            }
        }),
{
    let ghost models = entry_models(entries@);
    let mut upstreams: Vec<LocalUpstream> = Vec::new();
    let mut i: usize = 0;
    assert(upstream_models(upstreams@) =~= Seq::<UpstreamModel>::empty());
    while i < entries.len()
        invariant
            i <= entries@.len(),
            models == entry_models(entries@),
            loaded(models, i as nat) == Ok::<Seq<UpstreamModel>, Seq<char>>(
                upstream_models(upstreams@),
            ),
            upstreams@.len() == i,
            distinct_ids(services_of(upstream_models(upstreams@))),
            distinct_selectors(services_of(upstream_models(upstreams@))),
        decreases entries@.len() - i,
    {
        let ghost before = upstream_models(upstreams@);
        let entry = &entries[i];
        assert(models[i as int] == entry@);
        let (id, selector) = match read_selector(entry) {
            Ok(read) => read,
            Err(error) => {
                proof {
                    lemma_loaded_stops(models, (i + 1) as nat, models.len());
                }
                return Err(error);
            },
        };
        if is_taken(&upstreams, &id, &selector) {
            proof {
                lemma_loaded_stops(models, (i + 1) as nat, models.len());
            }
            return Err(invalid("duplicate service identifier or selector"));
        }
        let ghost name = id@;
        let ghost found_by = selector@;
        let upstream = match read_upstream(entry, id, selector) {
            Ok(upstream) => upstream,
            Err(error) => {
                proof {
                    lemma_loaded_stops(models, (i + 1) as nat, models.len());
                }
                return Err(error);
            },
        };
        let ghost model = upstream@;
        upstreams.push(upstream);
        proof {
            let after = upstream_models(upstreams@);
            assert(after =~= before.push(model));
            let old_services = services_of(before);
            let services = services_of(after);
            assert(forall|j: int| 0 <= j < i ==> (#[trigger] services[j]) == old_services[j]);
            assert(services[i as int] == model.service);
            assert forall|j: int, k: int| 0 <= j < k < services.len() implies (
            #[trigger] services[j]).upstream_id != (#[trigger] services[k]).upstream_id
                && services[j].selector != services[k].selector by {
                assert(services[j] == before[j].service);
                if k < i {
                    assert(old_services[j].upstream_id != old_services[k].upstream_id);
                    assert(old_services[j].selector != old_services[k].selector);
                }
            }
        }
        i += 1;
    }
    Ok(upstreams)
}

/// The limits of the file, with what holds where it says nothing.
fn read_limits(proxy: Option<Proxy>) -> (r: ProxyLimits)
    ensures
        r == limits_of(proxy),
{
    let proxy = match proxy {
        Some(proxy) => proxy,
        None => Proxy {
            max_workers: None,
            max_workers_per_client: None,
            max_upstream_dials: None,
            copy_buffer_bytes: None,
            max_replay_entries: None,
            ticket_clock_skew: None,
        },
    };
    ProxyLimits {
        max_workers: usize_or(proxy.max_workers, 256),
        max_workers_per_client: usize_or(proxy.max_workers_per_client, 32),
        max_upstream_dials: usize_or(proxy.max_upstream_dials, 64),
        copy_buffer_bytes: usize_or(proxy.copy_buffer_bytes, 32768),
        max_replay_entries: usize_or(proxy.max_replay_entries, 8_192),
        ticket_clock_skew: u64_or(proxy.ticket_clock_skew, 5),
    }
}

/// Whether twice the product of two sizes is a size.
fn twice_fits(a: usize, b: usize) -> (r: bool)
    ensures
        r == (a * b * 2 <= usize::MAX),
{
    match a.checked_mul(b) {
        Some(product) => product.checked_mul(2).is_some(),
        None => {
            assert(a * b * 2 >= a * b) by (nonlinear_arith);
            false
        },
    }
}

/// Whether limits can be kept.
fn check_limits(limits: &ProxyLimits, upstreams: &Vec<LocalUpstream>) -> (r: bool)
    ensures
        r == limits_valid(*limits, upstream_models(upstreams@)),
{
    let ghost models = upstream_models(upstreams@);
    if limits.max_workers == 0 || limits.max_workers > 2_048 || limits.max_workers_per_client == 0
        || limits.max_workers_per_client > 256 || limits.max_upstream_dials == 0
        || limits.max_upstream_dials > 512 || limits.max_upstream_dials > limits.max_workers
        || limits.copy_buffer_bytes < MIN_COPY_BUFFER || limits.copy_buffer_bytes > MAX_COPY_BUFFER
        || !twice_fits(limits.copy_buffer_bytes, limits.max_workers) || limits.max_replay_entries == 0
        || limits.max_replay_entries > 65_536 || limits.ticket_clock_skew > 30 {
        return false;
    }
    let mut i: usize = 0;
    while i < upstreams.len()
        invariant
            i <= upstreams@.len(),
            models == upstream_models(upstreams@),
            forall|j: int|
                0 <= j < i ==> (#[trigger] models[j]).concurrency_limit <= limits.max_workers,
        decreases upstreams@.len() - i,
    {
        assert(models[i as int] == upstreams@[i as int]@);
        if upstreams[i].concurrency_limit > limits.max_workers {
            return false;
        }
        i += 1;
    }
    true
}

/// The services of upstreams.
fn advertisements(upstreams: &Vec<LocalUpstream>) -> (r: Vec<ServiceAdvertisementV1>)
    ensures
        service_models(r@) == services_of(upstream_models(upstreams@)),
{
    let mut services: Vec<ServiceAdvertisementV1> = Vec::new();
    let mut i: usize = 0;
    while i < upstreams.len()
        invariant
            i <= upstreams@.len(),
            services@.len() == i,
            forall|j: int| 0 <= j < i ==> (#[trigger] services@[j])@ == upstreams@[j]@.service,
        decreases upstreams@.len() - i,
    {
        services.push(upstreams[i].advertisement.clone());
        i += 1;
    }
    assert(service_models(services@) =~= services_of(upstream_models(upstreams@)));
    services
}

/// The upstreams by their names.
fn index(upstreams: &Vec<LocalUpstream>) -> (r: Table<UpstreamId, LocalUpstream>)
    ensures
        r@ == by_name(upstream_models(upstreams@)),
{
    let ghost models = upstream_models(upstreams@);
    let mut table: Table<UpstreamId, LocalUpstream> = Table::new();
    let mut i: usize = 0;
    assert(by_name(models.take(0)) == Map::<Seq<char>, UpstreamModel>::empty());
    while i < upstreams.len()
        invariant
            i <= upstreams@.len(),
            models == upstream_models(upstreams@),
            table@ == by_name(models.take(i as int)),
        decreases upstreams@.len() - i,
    {
        let upstream = upstreams[i].clone();
        assert(models.take(i + 1).drop_last() =~= models.take(i as int));
        assert(models.take(i + 1).last() == upstream@);
        let id = upstream.advertisement.upstream_id().clone();
        table.insert(id, upstream);
        i += 1;
    }
    assert(models.take(i as int) =~= models);
    table
}

impl ServiceConfig {
    /// What a file amounts to.
    pub fn load(file: &File) -> (r: Result<Self, ServiceConfigError>)
        ensures
            match r {
                Ok(config) => (plan_of(file@) matches Ok(plan) && config.follows(plan)),
                Err(error) => (plan_of(file@) matches Err(fault) && says(error, fault)),
            },
    {
        if file.schema_version != 1 {
            return Err(invalid("schema_version must be 1"));
        }
        let lease: u16 = u16_or(file.registration.requested_lease_seconds, 30);
        let refresh: u16 = u16_or(file.registration.refresh_seconds, 10);
        if lease < 10 || lease > 60 || refresh == 0 || refresh > lease / 2 {
            return Err(invalid("invalid registration lease or refresh"));
        }
        if file.services.len() == 0 || file.services.len() > MAX_SERVICES {
            return Err(invalid("service entry count is out of bounds"));
        }
        let upstreams = match read_upstreams(&file.services) {
            Ok(upstreams) => upstreams,
            Err(error) => return Err(error),
        };
        let services = match ServiceSet::new(advertisements(&upstreams)) {
            Ok(services) => services,
            Err(_) => {
                assert(false);
                return Err(invalid("duplicate service identifier or selector"));
            },
        };
        let proxy = read_limits(file.proxy);
        if !check_limits(&proxy, &upstreams) {
            return Err(invalid("invalid proxy limits"));
        }
        let service_set_hash = services.hash();
        Ok(
            ServiceConfig {
                requested_lease_seconds: lease,
                refresh_seconds: refresh,
                services,
                service_set_hash,
                upstreams: index(&upstreams),
                proxy,
            },
        )
    }

    /// The service of a name.
    pub fn service(&self, upstream_id: &UpstreamId) -> (r: Option<&ServiceAdvertisementV1>)
        ensures
            match r {
                Some(service) => service_named(self@.services, upstream_id@, self@.services.len())
                    == Some(service@),
                None => service_named(self@.services, upstream_id@, self@.services.len()) is None,
            },
    {
        let services = self.services.as_slice();
        let ghost models = self.services@;
        let mut i: usize = 0;
        while i < services.len()
            invariant
                i <= services@.len(),
                models == service_models(services@),
                models == self.services@,
                service_named(models, upstream_id@, i as nat) is None,
            decreases services@.len() - i,
        {
            assert(models[i as int] == services@[i as int]@);
            if services[i].upstream_id().same(upstream_id) {
                proof {
                    lemma_named_stays(models, upstream_id@, (i + 1) as nat, models.len());
                }
                return Some(&services[i]);
            }
            i += 1;
        }
        None
    }
}

/// The first of `n` services that has a name.
pub open spec fn service_named(services: Seq<ServiceModel>, id: Seq<char>, n: nat) -> Option<
    ServiceModel,
>
    decreases n,
{
    if n == 0 {
        None
    } else {
        match service_named(services, id, (n - 1) as nat) {
            Some(service) => Some(service),
            None => if services[n - 1].upstream_id == id {
                Some(services[n - 1])
            } else {
                None
            },
        }
    }
}

proof fn lemma_named_stays(services: Seq<ServiceModel>, id: Seq<char>, i: nat, n: nat)
    requires
        i <= n,
        service_named(services, id, i) is Some,
    ensures
        service_named(services, id, n) == service_named(services, id, i),
    decreases n,
{
    if i < n {
        lemma_named_stays(services, id, i, (n - 1) as nat);
    }
}

/// The upstream of a name, in a list without two of one name.
proof fn lemma_by_name(upstreams: Seq<UpstreamModel>, i: int)
    requires
        0 <= i < upstreams.len(),
        distinct_ids(services_of(upstreams)),
    ensures
        by_name(upstreams).contains_key(upstreams[i].service.upstream_id),
        by_name(upstreams)[upstreams[i].service.upstream_id] == upstreams[i],
    decreases upstreams.len(),
{
    let services = services_of(upstreams);
    if i < upstreams.len() - 1 {
        let init = upstreams.drop_last();
        assert forall|j: int, k: int| 0 <= j < k < init.len() implies (
        #[trigger] services_of(init)[j]).upstream_id != (#[trigger] services_of(
            init,
        )[k]).upstream_id by {
            assert(services[j].upstream_id != services[k].upstream_id);
        }
        lemma_by_name(init, i);
        assert(services[i].upstream_id != services[upstreams.len() - 1].upstream_id);
    }
}

proof fn lemma_loaded_distinct(entries: Seq<EntryModel>, n: nat)
    requires
        loaded(entries, n) is Ok,
    ensures
        distinct_ids(services_of(loaded(entries, n)->Ok_0)),
    decreases n,
{
    if n > 0 {
        lemma_loaded_distinct(entries, (n - 1) as nat);
        let before = loaded(entries, (n - 1) as nat)->Ok_0;
        let after = loaded(entries, n)->Ok_0;
        let old_services = services_of(before);
        let services = services_of(after);
        assert forall|j: int, k: int| 0 <= j < k < services.len() implies (
        #[trigger] services[j]).upstream_id != (#[trigger] services[k]).upstream_id by {
            assert(services[j] == before[j].service);
            if k < before.len() {
                assert(old_services[j].upstream_id != old_services[k].upstream_id);
            }
        }
    }
}

/// Every upstream of a file is found under its name, and keeps to the limit on
/// workers.
pub proof fn law_upstreams_are_found_by_name(file: FileModel, i: int)
    requires
        plan_of(file) is Ok,
        0 <= i < plan_of(file)->Ok_0.upstreams.len(),
    ensures
        ({
            let plan = plan_of(file)->Ok_0;
            let upstream = plan.upstreams[i];
            &&& by_name(plan.upstreams).contains_key(upstream.service.upstream_id)
            &&& by_name(plan.upstreams)[upstream.service.upstream_id] == upstream
            &&& upstream.concurrency_limit <= plan.proxy.max_workers
        }),
{
    lemma_loaded_distinct(file.services, file.services.len());
    lemma_by_name(plan_of(file)->Ok_0.upstreams, i);
}

/// A list with one pair more, in its place.
spec fn placed(pairs: Seq<Pair>, p: Pair) -> Seq<Pair>
    decreases pairs.len(),
{
    if pairs.len() == 0 {
        seq![p]
    } else if precedes(encode_utf8(pairs.last().0), encode_utf8(p.0)) {
        pairs.push(p)
    } else if pairs.last().0 == p.0 {
        pairs.drop_last().push(p)
    } else {
        placed(pairs.drop_last(), p).push(pairs.last())
    }
}

proof fn lemma_pushed(pairs: Seq<Pair>, q: Pair, p: Pair)
    ensures
        pairs.push(q).contains(p) <==> pairs.contains(p) || p == q,
{
    let after = pairs.push(q);
    if after.contains(p) {
        let i = choose|i: int| 0 <= i < after.len() && after[i] == p;
        if i < pairs.len() {
            assert(pairs[i] == p);
        }
    }
    if pairs.contains(p) {
        let i = choose|i: int| 0 <= i < pairs.len() && pairs[i] == p;
        assert(after[i] == p);
    }
    if p == q {
        assert(after[pairs.len() as int] == p);
    }
}

proof fn lemma_placed(pairs: Seq<Pair>, p: Pair)
    requires
        ascending(pairs),
    ensures
        ascending(placed(pairs, p)),
        forall|q: Pair| #[trigger]
            placed(pairs, p).contains(q) <==> q == p || (pairs.contains(q) && q.0 != p.0),
    decreases pairs.len(),
{
    let after = placed(pairs, p);
    if pairs.len() == 0 {
        assert forall|q: Pair| #[trigger] after.contains(q) <==> q == p || (pairs.contains(q) && q.0 != p.0)
            by {
            if q == p {
                assert(after[0] == q);
            }
        }
    } else {
        let init = pairs.drop_last();
        let last = pairs.last();
        assert(pairs =~= init.push(last));
        assert forall|i: int, j: int| 0 <= i < j < init.len() implies precedes(
            encode_utf8((#[trigger] init[i]).0),
            encode_utf8((#[trigger] init[j]).0),
        ) by {
            assert(init[i] == pairs[i] && init[j] == pairs[j]);
        }
        assert forall|i: int| 0 <= i < init.len() implies precedes(
            encode_utf8((#[trigger] init[i]).0),
            encode_utf8(last.0),
        ) by {
            assert(init[i] == pairs[i] && last == pairs[pairs.len() - 1]);
        }
        lemma_placed(init, p);
        if precedes(encode_utf8(last.0), encode_utf8(p.0)) {
            assert forall|i: int, j: int| 0 <= i < j < after.len() implies precedes(
                encode_utf8((#[trigger] after[i]).0),
                encode_utf8((#[trigger] after[j]).0),
            ) by {
                if j == pairs.len() && i < init.len() {
                    assert(after[i] == init[i]);
                    lemma_precedes_transitive(encode_utf8(init[i].0), encode_utf8(last.0), encode_utf8(p.0));
                }
            }
            assert forall|q: Pair| #[trigger] after.contains(q) <==> q == p || (pairs.contains(q) && q.0
                != p.0) by {
                lemma_pushed(pairs, p, q);
                if pairs.contains(q) {
                    let i = choose|i: int| 0 <= i < pairs.len() && pairs[i] == q;
                    assert(precedes(encode_utf8(after[i].0), encode_utf8(after[pairs.len() as int].0)));
                    lemma_precedes_asymmetric(encode_utf8(q.0), encode_utf8(p.0));
                }
            }
        } else if last.0 == p.0 {
            assert forall|i: int, j: int| 0 <= i < j < after.len() implies precedes(
                encode_utf8((#[trigger] after[i]).0),
                encode_utf8((#[trigger] after[j]).0),
            ) by {
                assert(after[i] == init[i]);
            }
            assert forall|q: Pair| #[trigger] after.contains(q) <==> q == p || (pairs.contains(q) && q.0
                != p.0) by {
                lemma_pushed(init, p, q);
                lemma_pushed(init, last, q);
                if init.contains(q) {
                    let i = choose|i: int| 0 <= i < init.len() && init[i] == q;
                    lemma_precedes_asymmetric(encode_utf8(init[i].0), encode_utf8(last.0));
                }
            }
        } else {
            let inner = placed(init, p);
            lemma_precedes_total(encode_utf8(last.0), encode_utf8(p.0));
            if encode_utf8(last.0) == encode_utf8(p.0) {
                lemma_utf8_injective(last.0, p.0);
            }
            assert forall|i: int| 0 <= i < inner.len() implies precedes(
                encode_utf8((#[trigger] inner[i]).0),
                encode_utf8(last.0),
            ) by {
                assert(inner.contains(inner[i]));
                if inner[i] != p {
                    let k = choose|k: int| 0 <= k < init.len() && init[k] == inner[i];
                    assert(precedes(encode_utf8(init[k].0), encode_utf8(last.0)));
                }
            }
            assert forall|i: int, j: int| 0 <= i < j < after.len() implies precedes(
                encode_utf8((#[trigger] after[i]).0),
                encode_utf8((#[trigger] after[j]).0),
            ) by {
                assert(after[i] == inner[i]);
                if j < inner.len() {
                    assert(after[j] == inner[j]);
                }
            }
            assert forall|q: Pair| #[trigger] after.contains(q) <==> q == p || (pairs.contains(q) && q.0
                != p.0) by {
                lemma_pushed(inner, last, q);
                lemma_pushed(init, last, q);
            }
        }
    }
}

/// Every table of metadata can be listed.
proof fn lemma_listing(raw: Seq<Pair>, n: nat)
    ensures
        lists(listing(metadata_table(raw, n)), metadata_table(raw, n)),
    decreases n,
{
    let table = metadata_table(raw, n);
    if n == 0 {
        assert(lists(Seq::<Pair>::empty(), table));
    } else {
        lemma_listing(raw, (n - 1) as nat);
        let earlier = metadata_table(raw, (n - 1) as nat);
        let p: Pair = (raw[n - 1].0, trimmed(raw[n - 1].1));
        lemma_placed(listing(earlier), p);
        let pairs = placed(listing(earlier), p);
        assert forall|q: Pair| #[trigger] pairs.contains(q) <==> table.contains_key(q.0) && table[q.0]
            == q.1 by {}
        assert(lists(pairs, table));
    }
}

proof fn lemma_last_value_counts(raw: Seq<Pair>, n: nat, j: int)
    requires
        0 <= j < n,
        forall|k: int| j < k < n ==> (#[trigger] raw[k]).0 != raw[j].0,
    ensures
        metadata_table(raw, n).contains_key(raw[j].0),
        metadata_table(raw, n)[raw[j].0] == trimmed(raw[j].1),
    decreases n,
{
    if j < n - 1 {
        lemma_last_value_counts(raw, (n - 1) as nat, j);
        assert(raw[n - 1].0 != raw[j].0);
    }
}

proof fn lemma_values_come_from_the_file(raw: Seq<Pair>, n: nat, key: Seq<char>)
    requires
        metadata_table(raw, n).contains_key(key),
    ensures
        exists|j: int|
            0 <= j < n && (#[trigger] raw[j]).0 == key && metadata_table(raw, n)[key] == trimmed(raw[j].1),
    decreases n,
{
    if n > 0 {
        if raw[n - 1].0 == key {
        } else {
            lemma_values_come_from_the_file(raw, (n - 1) as nat, key);
        }
    }
}

proof fn lemma_entries_become_upstreams(entries: Seq<EntryModel>, n: nat, i: int)
    requires
        loaded(entries, n) is Ok,
        0 <= i < n,
    ensures
        loaded(entries, n)->Ok_0.len() == n,
        selector_of(entries[i]) is Ok,
        upstream_of(entries[i], selector_of(entries[i])->Ok_0) == Ok::<UpstreamModel, Seq<char>>(
            loaded(entries, n)->Ok_0[i],
        ),
    decreases n,
{
    if n > 1 || i < n - 1 {
        if i < n - 1 {
            lemma_entries_become_upstreams(entries, (n - 1) as nat, i);
        } else {
            lemma_entries_become_upstreams(entries, (n - 1) as nat, 0);
        }
    } else {
        assert(loaded(entries, 0)->Ok_0.len() == 0);
    }
}

/// Every service of a file is offered as the file has it: under its name, by the
/// class of its protocol, with its metadata, as ready exactly if it is enabled;
/// and what connects to it goes to the address of the file, within its limits.
/// Nothing else is offered.
pub proof fn law_services_are_offered_as_the_file_has_them(file: FileModel, config: ServiceConfig, i: int)
    requires
        plan_of(file) matches Ok(plan) && config.follows(plan),
        0 <= i < file.services.len(),
    ensures
        config.services@.len() == file.services.len(),
        ({
            let entry = file.services[i];
            let upstream = config.upstreams@[entry.upstream_id];
            let service = upstream.service;
            &&& config.upstreams@.contains_key(entry.upstream_id)
            &&& config.services@.contains(service)
            &&& service.upstream_id == entry.upstream_id
            &&& entry.protocol == "http"@ || entry.protocol == "tls_passthrough"@ || entry.protocol == "tcp"@
            &&& entry.protocol == "http"@ ==> service.selector.protocol == ProtocolClass::Http
            &&& entry.protocol == "tls_passthrough"@ ==> service.selector.protocol
                == ProtocolClass::TlsPassthrough
            &&& entry.protocol == "tcp"@ ==> service.selector.protocol == ProtocolClass::Tcp
            &&& entry.enabled ==> service.health == Health::Ready
            &&& !entry.enabled ==> service.health == Health::Unavailable
            &&& entry.connect == Some(upstream.connect) && upstream.connect.port != 0
            &&& upstream.connect_timeout == 1_000_000 * match entry.connect_timeout_ms {
                Some(ms) => ms as int,
                None => 3_000,
            }
            &&& upstream.idle_timeout == 1_000_000 * match entry.idle_timeout_ms {
                Some(ms) => ms as int,
                None => 300_000,
            }
            &&& upstream.concurrency_limit == match entry.concurrency_limit {
                Some(limit) => limit as int,
                None => 64,
            }
            &&& forall|j: int|
                0 <= j < entry.metadata.len() && (forall|k: int|
                    j < k < entry.metadata.len() ==> (#[trigger] entry.metadata[k]).0
                        != entry.metadata[j].0) ==> service.selector.metadata.contains(
                    ((#[trigger] entry.metadata[j]).0, trimmed(entry.metadata[j].1)),
                )
            &&& forall|p: Pair| #[trigger]
                service.selector.metadata.contains(p) ==> exists|j: int|
                    0 <= j < entry.metadata.len() && (#[trigger] entry.metadata[j]).0 == p.0 && trimmed(
                        entry.metadata[j].1,
                    ) == p.1
        }),
{
    let plan = plan_of(file)->Ok_0;
    let entry = file.services[i];
    lemma_entries_become_upstreams(file.services, file.services.len(), i);
    lemma_loaded_distinct(file.services, file.services.len());
    lemma_by_name(plan.upstreams, i);
    let services = services_of(plan.upstreams);
    assert(services[i] == plan.upstreams[i].service);
    assert(services.contains(services[i]));
    reveal_strlit("http");
    reveal_strlit("tls_passthrough");
    reveal_strlit("tcp");
    assert("http"@.len() == 4 && "tls_passthrough"@.len() == 15 && "tcp"@.len() == 3);
    let raw = entry.metadata;
    let metadata = plan.upstreams[i].service.selector.metadata;
    lemma_listing(raw, raw.len());
    assert forall|j: int|
        0 <= j < raw.len() && (forall|k: int| j < k < raw.len() ==> (#[trigger] raw[k]).0 != raw[j].0) implies metadata.contains(
        ((#[trigger] raw[j]).0, trimmed(raw[j].1)),
    ) by {
        lemma_last_value_counts(raw, raw.len(), j);
    }
    assert forall|p: Pair| #[trigger] metadata.contains(p) implies exists|j: int|
        0 <= j < raw.len() && (#[trigger] raw[j]).0 == p.0 && trimmed(raw[j].1) == p.1 by {
        lemma_values_come_from_the_file(raw, raw.len(), p.0);
    }
}

/// What the file says of registrations and limits holds, and where it says
/// nothing there is a default.
pub proof fn law_settings_are_taken_from_the_file(file: FileModel, config: ServiceConfig)
    requires
        plan_of(file) matches Ok(plan) && config.follows(plan),
    ensures
        config.requested_lease_seconds == match file.registration.requested_lease_seconds {
            Some(seconds) => seconds as int,
            None => 30,
        },
        config.refresh_seconds == match file.registration.refresh_seconds {
            Some(seconds) => seconds as int,
            None => 10,
        },
        10 <= config.requested_lease_seconds <= 60,
        1 <= config.refresh_seconds,
        2 * config.refresh_seconds <= config.requested_lease_seconds,
        file.proxy is None ==> config.proxy == (ProxyLimits {
            max_workers: 256,
            max_workers_per_client: 32,
            max_upstream_dials: 64,
            copy_buffer_bytes: 32_768,
            max_replay_entries: 8_192,
            ticket_clock_skew: 5,
        }),
        file.proxy matches Some(proxy) ==> {
            &&& proxy.max_workers is Some ==> proxy.max_workers == Some(config.proxy.max_workers)
            &&& proxy.max_workers is None ==> config.proxy.max_workers == 256
            &&& proxy.max_workers_per_client is Some ==> proxy.max_workers_per_client == Some(
                config.proxy.max_workers_per_client,
            )
            &&& proxy.max_workers_per_client is None ==> config.proxy.max_workers_per_client == 32
            &&& proxy.max_upstream_dials is Some ==> proxy.max_upstream_dials == Some(
                config.proxy.max_upstream_dials,
            )
            &&& proxy.max_upstream_dials is None ==> config.proxy.max_upstream_dials == 64
            &&& proxy.copy_buffer_bytes is Some ==> proxy.copy_buffer_bytes == Some(
                config.proxy.copy_buffer_bytes,
            )
            &&& proxy.copy_buffer_bytes is None ==> config.proxy.copy_buffer_bytes == 32_768
            &&& proxy.max_replay_entries is Some ==> proxy.max_replay_entries == Some(
                config.proxy.max_replay_entries,
            )
            &&& proxy.max_replay_entries is None ==> config.proxy.max_replay_entries == 8_192
            &&& proxy.ticket_clock_skew is Some ==> proxy.ticket_clock_skew == Some(
                config.proxy.ticket_clock_skew,
            )
            &&& proxy.ticket_clock_skew is None ==> config.proxy.ticket_clock_skew == 5
        },
        1 <= config.proxy.max_workers <= 2_048,
        1 <= config.proxy.max_workers_per_client <= 256,
        1 <= config.proxy.max_upstream_dials <= 512,
        config.proxy.max_upstream_dials <= config.proxy.max_workers,
        4_096 <= config.proxy.copy_buffer_bytes <= 1_048_576,
        1 <= config.proxy.max_replay_entries <= 65_536,
        config.proxy.ticket_clock_skew <= 30,
{
}

/// Whether an entry could be offered if it were alone: its name, its protocol
/// and its metadata are in order, there is an address with a port, and its
/// limits are within bounds.
pub open spec fn entry_in_order(entry: EntryModel) -> bool {
    &&& id_text(entry.upstream_id)
    &&& entry.protocol == "http"@ || entry.protocol == "tls_passthrough"@ || entry.protocol == "tcp"@
    &&& forall|j: int|
        0 <= j < entry.metadata.len() ==> key_text((#[trigger] entry.metadata[j]).0) && value_text(
            trimmed(entry.metadata[j].1),
        )
    &&& entry.connect matches Some(address) && address.port != 0
    &&& entry.connect_timeout_ms matches Some(ms) ==> 100 <= ms <= 20_000
    &&& entry.idle_timeout_ms matches Some(ms) ==> 1_000 <= ms <= 3_600_000
    &&& entry.concurrency_limit matches Some(limit) ==> 1 <= limit <= 1_024
}

proof fn lemma_metadata_in_order(raw: Seq<Pair>, n: nat)
    ensures
        metadata_fault(raw, n) is None <==> forall|j: int|
            0 <= j < n ==> key_text((#[trigger] raw[j]).0) && value_text(trimmed(raw[j].1)),
    decreases n,
{
    if n > 0 {
        lemma_metadata_in_order(raw, (n - 1) as nat);
        if metadata_fault(raw, n) is None {
            assert forall|j: int| 0 <= j < n implies key_text((#[trigger] raw[j]).0) && value_text(
                trimmed(raw[j].1),
            ) by {
                if j < n - 1 {
                }
            }
        } else if metadata_fault(raw, (n - 1) as nat) is None {
            assert(!(key_text(raw[n - 1].0) && value_text(trimmed(raw[n - 1].1))));
        } else {
            let j = choose|j: int|
                0 <= j < n - 1 && !(key_text((#[trigger] raw[j]).0) && value_text(trimmed(raw[j].1)));
            assert(!(key_text(raw[j].0) && value_text(trimmed(raw[j].1))));
        }
    }
}

proof fn lemma_one_bad_entry(entries: Seq<EntryModel>, n: nat, i: int)
    requires
        0 <= i < n,
        !entry_in_order(entries[i]),
    ensures
        loaded(entries, n) is Err,
    decreases n,
{
    if i < n - 1 {
        lemma_one_bad_entry(entries, (n - 1) as nat, i);
    } else {
        let entry = entries[i];
        lemma_metadata_in_order(entry.metadata, entry.metadata.len());
        reveal_strlit("http");
        reveal_strlit("tls_passthrough");
        reveal_strlit("tcp");
    }
}

/// A file that is not in order is refused: of another schema, with a lease or a
/// refresh out of bounds, without services or with too many, with an entry that
/// cannot be offered, or with two entries of one name.
pub proof fn law_files_out_of_order_are_refused(file: FileModel, i: int, j: int)
    requires
        0 <= i < j < file.services.len() || file.services.len() < 2,
        ({
            let lease = match file.registration.requested_lease_seconds {
                Some(seconds) => seconds as int,
                None => 30,
            };
            let refresh = match file.registration.refresh_seconds {
                Some(seconds) => seconds as int,
                None => 10,
            };
            ||| file.schema_version != 1
            ||| lease < 10
            ||| lease > 60
            ||| refresh < 1
            ||| 2 * refresh > lease
            ||| file.services.len() == 0
            ||| file.services.len() > 128
            ||| exists|k: int| 0 <= k < file.services.len() && !entry_in_order(#[trigger] file.services[k])
            ||| file.services.len() >= 2 && file.services[i].upstream_id == file.services[j].upstream_id
        }),
    ensures
        plan_of(file) is Err,
{
    if plan_of(file) is Ok {
        let n = file.services.len();
        if exists|k: int| 0 <= k < n && !entry_in_order(#[trigger] file.services[k]) {
            let k = choose|k: int| 0 <= k < n && !entry_in_order(#[trigger] file.services[k]);
            lemma_one_bad_entry(file.services, n, k);
        }
        if n >= 2 {
            lemma_entries_become_upstreams(file.services, n, i);
            lemma_entries_become_upstreams(file.services, n, j);
            lemma_loaded_distinct(file.services, n);
            let services = services_of(plan_of(file)->Ok_0.upstreams);
            assert(services[i].upstream_id != services[j].upstream_id);
        }
    }
}

proof fn lemma_good_entries(entries: Seq<EntryModel>, n: nat)
    requires
        n <= entries.len(),
        forall|i: int|
            0 <= i < n ==> entry_in_order(#[trigger] entries[i]) && selector_of(entries[i]) is Ok,
        forall|i: int, j: int|
            0 <= i < j < n ==> (#[trigger] entries[i]).upstream_id != (#[trigger] entries[j]).upstream_id
                && selector_of(entries[i]) != selector_of(entries[j]),
    ensures
        loaded(entries, n) is Ok,
    decreases n,
{
    if n > 0 {
        let m = (n - 1) as nat;
        lemma_good_entries(entries, m);
        let before = loaded(entries, m)->Ok_0;
        let entry = entries[m as int];
        let selector = selector_of(entry)->Ok_0;
        assert(entry_in_order(entry));
        if m > 0 {
            lemma_entries_become_upstreams(entries, m, 0);
        }
        if taken(before, entry.upstream_id, selector) {
            let k = choose|k: int|
                0 <= k < before.len() && ((#[trigger] before[k]).service.upstream_id == entry.upstream_id
                    || before[k].service.selector == selector);
            lemma_entries_become_upstreams(entries, m, k);
            assert(entries[k].upstream_id != entry.upstream_id && selector_of(entries[k]) != selector_of(
                entry,
            ));
        }
        assert(upstream_of(entry, selector) is Ok);
    }
}

/// A file that is in order is accepted: its schema is the first, its lease and
/// its refresh are within bounds, every entry can be offered, no two share a
/// name or a selector, and the limits can be kept.
pub proof fn law_files_in_order_are_accepted(file: FileModel)
    requires
        file.schema_version == 1,
        ({
            let lease = match file.registration.requested_lease_seconds {
                Some(seconds) => seconds as int,
                None => 30,
            };
            let refresh = match file.registration.refresh_seconds {
                Some(seconds) => seconds as int,
                None => 10,
            };
            10 <= lease <= 60 && 1 <= refresh && 2 * refresh <= lease
        }),
        1 <= file.services.len() <= 128,
        forall|i: int|
            0 <= i < file.services.len() ==> entry_in_order(#[trigger] file.services[i]) && selector_of(
                file.services[i],
            ) is Ok,
        forall|i: int, j: int|
            0 <= i < j < file.services.len() ==> (#[trigger] file.services[i]).upstream_id != (
            #[trigger] file.services[j]).upstream_id && selector_of(file.services[i]) != selector_of(
                file.services[j],
            ),
        ({
            let said = match file.proxy {
                Some(proxy) => proxy,
                None => Proxy {
                    max_workers: None,
                    max_workers_per_client: None,
                    max_upstream_dials: None,
                    copy_buffer_bytes: None,
                    max_replay_entries: None,
                    ticket_clock_skew: None,
                },
            };
            let workers = match said.max_workers {
                Some(n) => n as int,
                None => 256,
            };
            let dials = match said.max_upstream_dials {
                Some(n) => n as int,
                None => 64,
            };
            let buffer = match said.copy_buffer_bytes {
                Some(n) => n as int,
                None => 32_768,
            };
            &&& 1 <= workers <= 2_048
            &&& said.max_workers_per_client matches Some(n) ==> 1 <= n <= 256
            &&& 1 <= dials <= 512 && dials <= workers
            &&& 4_096 <= buffer <= 1_048_576 && buffer * workers * 2 <= usize::MAX
            &&& said.max_replay_entries matches Some(n) ==> 1 <= n <= 65_536
            &&& said.ticket_clock_skew matches Some(n) ==> n <= 30
            &&& forall|i: int|
                0 <= i < file.services.len() ==> match (#[trigger] file.services[i]).concurrency_limit {
                    Some(limit) => limit <= workers,
                    None => 64 <= workers,
                }
        }),
    ensures
        plan_of(file) is Ok,
{
    let n = file.services.len();
    lemma_good_entries(file.services, n);
    let upstreams = loaded(file.services, n)->Ok_0;
    let limits = limits_of(file.proxy);
    lemma_entries_become_upstreams(file.services, n, 0);
    assert forall|i: int| 0 <= i < upstreams.len() implies (#[trigger] upstreams[i]).concurrency_limit
        <= limits.max_workers by {
        lemma_entries_become_upstreams(file.services, n, i);
        assert(entry_in_order(file.services[i]));
    }
}

/// Limits that cannot be kept are refused: one that is out of bounds, more dials
/// than workers, or an entry with more streams than workers.
pub proof fn law_limits_out_of_bounds_are_refused(file: FileModel)
    requires
        file.proxy matches Some(said) && {
            ||| said.max_workers matches Some(n) && (n < 1 || n > 2_048)
            ||| said.max_workers_per_client matches Some(n) && (n < 1 || n > 256)
            ||| said.max_upstream_dials matches Some(n) && (n < 1 || n > 512 || (said.max_workers matches Some(
                workers,
            ) && n > workers))
            ||| said.copy_buffer_bytes matches Some(n) && (n < 4_096 || n > 1_048_576)
            ||| said.max_replay_entries matches Some(n) && (n < 1 || n > 65_536)
            ||| said.ticket_clock_skew matches Some(n) && n > 30
            ||| said.max_workers matches Some(workers) && exists|i: int|
                0 <= i < file.services.len() && match (#[trigger] file.services[i]).concurrency_limit {
                    Some(limit) => limit > workers,
                    None => 64 > workers,
                }
        },
    ensures
        plan_of(file) is Err,
{
    if plan_of(file) is Ok {
        let n = file.services.len();
        let upstreams = plan_of(file)->Ok_0.upstreams;
        assert forall|i: int| 0 <= i < n implies upstreams.len() == n && (
        #[trigger] upstreams[i]).concurrency_limit == or(file.services[i].concurrency_limit, 64) by {
            lemma_entries_become_upstreams(file.services, n, i);
        }
        let workers = file.proxy->Some_0.max_workers;
        if exists|i: int|
            0 <= i < n && match (#[trigger] file.services[i]).concurrency_limit {
                Some(limit) => limit > workers->Some_0,
                None => 64 > workers->Some_0,
            } && workers is Some {
            let i = choose|i: int|
                0 <= i < n && match (#[trigger] file.services[i]).concurrency_limit {
                    Some(limit) => limit > workers->Some_0,
                    None => 64 > workers->Some_0,
                } && workers is Some;
            assert(upstreams[i].concurrency_limit == or(file.services[i].concurrency_limit, 64));
        }
    }
}

/// A service is found under its name, and only there.
pub proof fn law_services_are_found_by_name(services: Seq<ServiceModel>, id: Seq<char>)
    ensures
        match service_named(services, id, services.len()) {
            Some(service) => services.contains(service) && service.upstream_id == id,
            None => forall|i: int| 0 <= i < services.len() ==> (#[trigger] services[i]).upstream_id != id,
        },
{
    lemma_named_among(services, id, services.len());
}

proof fn lemma_named_among(services: Seq<ServiceModel>, id: Seq<char>, n: nat)
    requires
        n <= services.len(),
    ensures
        match service_named(services, id, n) {
            Some(service) => services.contains(service) && service.upstream_id == id,
            None => forall|i: int| 0 <= i < n ==> (#[trigger] services[i]).upstream_id != id,
        },
    decreases n,
{
    if n > 0 {
        lemma_named_among(services, id, (n - 1) as nat);
        assert(services.contains(services[n - 1]));
    }
}

} // verus!
