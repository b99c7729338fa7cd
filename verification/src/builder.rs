//! The settings of a node's network.
use crate::address::{
    first_ip_from, has_circuit, has_quic, has_tcp, has_udp, loopback, Address, IpAddress, PartModel,
};
use vstd::prelude::*;

verus! {

pub const IDENTIFY_PROTOCOL: &'static str = "/p2x/connectivity/0.1.0";

pub const AUTH_REQUEST_TIMEOUT_SECONDS: u64 = 5;

pub const REGISTRY_REQUEST_TIMEOUT_SECONDS: u64 = 5;

pub const MAX_STREAMS: usize = 256;

pub const MAX_NEGOTIATIONS: usize = 64;

pub const PROBE_TIMEOUT_SECONDS: u64 = 5;

pub const IDLE_TIMEOUT_SECONDS: u64 = 120;

pub const PING_INTERVAL_SECONDS: u64 = 15;

pub const PING_TIMEOUT_SECONDS: u64 = 5;

#[derive(Clone, Copy, Debug, PartialEq, Eq, Structural)]
pub enum RuntimeMode {
    Product,
    ConnectivityLab,
}

impl Default for RuntimeMode {
    fn default() -> (r: Self)
        ensures
            r == RuntimeMode::Product,
    {
        RuntimeMode::Product
    }
}

#[derive(Clone, Copy, Debug, PartialEq, Eq, Structural)]
pub enum RelayProfile {
    Product,
    DefaultLab,
    LimitTest,
}

impl Default for RelayProfile {
    fn default() -> (r: Self)
        ensures
            r == RelayProfile::Product,
    {
        RelayProfile::Product
    }
}

/// What a rate is counted by.
#[derive(Clone, Copy, Debug, PartialEq, Eq, Structural)]
pub enum RateScope {
    Peer,
    Ip,
}

/// How often something may be done in an interval.
#[derive(Clone, Copy, Debug, PartialEq, Eq, Structural)]
pub struct RateLimit {
    pub scope: RateScope,
    pub limit: u32,
    pub interval_seconds: u64,
}

/// The limits of a relay.
#[derive(Debug, PartialEq, Eq)]
pub struct RelayProfileConfig {
    pub max_reservations: usize,
    pub max_reservations_per_peer: usize,
    pub reservation_duration: u64,
    pub max_circuits: usize,
    pub max_circuits_per_peer: usize,
    pub max_circuit_duration: u64,
    pub max_circuit_bytes: u64,
    pub reservation_rate_limiters: Vec<RateLimit>,
    pub circuit_src_rate_limiters: Vec<RateLimit>,
}

/// Two limits over a minute, by peer and by IP address.
pub open spec fn rates(per_peer: u32, per_ip: u32) -> Seq<RateLimit> {
    seq![
        RateLimit { scope: RateScope::Peer, limit: per_peer, interval_seconds: 60 },
        RateLimit { scope: RateScope::Ip, limit: per_ip, interval_seconds: 60 },
    ]
}

fn rate_limits(per_peer: u32, per_ip: u32) -> (r: Vec<RateLimit>)
    ensures
        r@ == rates(per_peer, per_ip),
{
    let mut limits: Vec<RateLimit> = Vec::new();
    limits.push(RateLimit { scope: RateScope::Peer, limit: per_peer, interval_seconds: 60 });
    limits.push(RateLimit { scope: RateScope::Ip, limit: per_ip, interval_seconds: 60 });
    limits
}

impl RelayProfile {
    /// The limits of the profile.
    pub fn config(self) -> (r: RelayProfileConfig)
        ensures
            r.max_reservations == (if self == RelayProfile::LimitTest {
                2int
            } else {
                64
            }),
            r.max_reservations_per_peer == (if self == RelayProfile::Product {
                0int
            } else {
                1
            }),
            r.reservation_duration == 60,
            r.max_circuits == (if self == RelayProfile::LimitTest {
                2int
            } else {
                128
            }),
            r.max_circuits_per_peer == (match self {
                RelayProfile::Product => 31int,
                RelayProfile::DefaultLab => 3,
                RelayProfile::LimitTest => 0,
            }),
            r.max_circuit_duration == (if self == RelayProfile::LimitTest {
                300int
            } else {
                3600
            }),
            r.max_circuit_bytes == (if self == RelayProfile::LimitTest {
                16_777_216int
            } else {
                1_073_741_824
            }),
            r.reservation_rate_limiters@ == (if self == RelayProfile::LimitTest {
                rates(8, 16)
            } else {
                rates(256, 512)
            }),
            r.circuit_src_rate_limiters@ == (if self == RelayProfile::LimitTest {
                rates(8, 16)
            } else {
                rates(1024, 2048)
            }),
    {
        let limit = self == RelayProfile::LimitTest;
        RelayProfileConfig {
            max_reservations: if limit {
                2
            } else {
                64
            },
            max_reservations_per_peer: if self == RelayProfile::Product {
                0
            } else {
                1
            },
            reservation_duration: 60,
            max_circuits: if limit {
                2
            } else {
                128
            },
            max_circuits_per_peer: match self {
                RelayProfile::Product => 31,
                RelayProfile::DefaultLab => 3,
                RelayProfile::LimitTest => 0,
            },
            max_circuit_duration: if limit {
                300
            } else {
                3600
            },
            max_circuit_bytes: if limit {
                16_777_216
            } else {
                1_073_741_824
            },
            reservation_rate_limiters: if limit {
                rate_limits(8, 16)
            } else {
                rate_limits(256, 512)
            },
            circuit_src_rate_limiters: if limit {
                rate_limits(8, 16)
            } else {
                rate_limits(1024, 2048)
            },
        }
    }
}

/// One step of the generator that stretches a seed.
pub open spec fn stretch(value: u64) -> u64 {
    let a = value ^ (value << 13);
    let b = a ^ (a >> 7);
    b ^ (b << 17)
}

/// The state of the generator after a number of steps.
pub open spec fn stretched(seed: u64, steps: nat) -> u64
    decreases steps,
{
    if steps == 0 {
        seed
    } else {
        stretch(stretched(seed, (steps - 1) as nat))
    }
}

/// The low byte of a number.
pub open spec fn low_byte(value: u64) -> u8 {
    (value % 256) as u8
}

/// The identity seed that a lab node has from its number.
pub fn lab_seed(seed: u64) -> (r: [u8; 32])
    ensures
        forall|i: int| 0 <= i < 32 ==> #[trigger] r@[i] == low_byte(stretched(seed, (i + 1) as nat)),
{
    let mut bytes = [0u8; 32];
    let mut value: u64 = seed;
    let mut i: usize = 0;
    while i < 32
        invariant
            i <= 32,
            value == stretched(seed, i as nat),
            forall|j: int|
                0 <= j < i ==> #[trigger] bytes@[j] == low_byte(stretched(seed, (j + 1) as nat)),
        decreases 32 - i,
    {
        value = value ^ (value << 13);
        value = value ^ (value >> 7);
        value = value ^ (value << 17);
        assert(value == stretched(seed, (i + 1) as nat));
        bytes[i] = (value % 256) as u8;
        i = i + 1;
    }
    bytes
}

/// The network of an exchange.
#[derive(Debug)]
pub struct ExchangeSwarmConfig {
    pub tcp_listen: Address,
    pub quic_listen: Address,
    pub allow_public: bool,
    pub relay_profile: RelayProfile,
    pub relay_admission: bool,
    pub mode: RuntimeMode,
}

/// The network of a peer.
#[derive(Debug)]
pub struct PeerSwarmConfig {
    pub tcp_listen: Address,
    pub quic_listen: Address,
    pub mode: RuntimeMode,
    pub relay_client_enabled: bool,
    pub registry_enabled: bool,
}

#[derive(Debug, PartialEq, Eq)]
pub enum BuildError {
    /// A listener that others can reach was not asked for.
    PublicListener,
    InvalidListener { transport: &'static str, address: Address },
}

/// Whether an address can be listened on by TCP.
pub open spec fn tcp_listener(parts: Seq<PartModel>) -> bool {
    has_tcp(parts) && !has_circuit(parts)
}

/// Whether an address can be listened on by QUIC.
pub open spec fn quic_listener(parts: Seq<PartModel>) -> bool {
    has_udp(parts) && has_quic(parts) && !has_circuit(parts)
}

/// Whether a result says that a listener is invalid.
pub open spec fn says_invalid(r: Result<(), BuildError>, transport: Seq<char>, address: Address) -> bool {
    r matches Err(BuildError::InvalidListener { transport: t, address: a }) && t@ == transport && a.raw()
        == address.raw() && a@ == address@
}

/// The IP address of a listener.
pub open spec fn ip_of(address: Address) -> Option<IpAddress> {
    first_ip_from(address@, 0)
}

fn validate_tcp(address: &Address) -> (r: Result<(), BuildError>)
    ensures
        if tcp_listener(address@) {
            r is Ok
        } else {
            says_invalid(r, "tcp"@, *address)
        },
{
    if address.is_tcp() && !address.is_circuit() {
        Ok(())
    } else {
        Err(BuildError::InvalidListener { transport: "tcp", address: address.clone() })
    }
}

fn validate_quic(address: &Address) -> (r: Result<(), BuildError>)
    ensures
        if quic_listener(address@) {
            r is Ok
        } else {
            says_invalid(r, "quic"@, *address)
        },
{
    if address.is_udp() && address.is_quic() && !address.is_circuit() {
        Ok(())
    } else {
        Err(BuildError::InvalidListener { transport: "quic", address: address.clone() })
    }
}

/// Whether the listeners are listeners.
fn validate_listeners(tcp: &Address, quic: &Address) -> (r: Result<(), BuildError>)
    ensures
        if !tcp_listener(tcp@) {
            says_invalid(r, "tcp"@, *tcp)
        } else if !quic_listener(quic@) {
            says_invalid(r, "quic"@, *quic)
        } else {
            r is Ok
        },
{
    match validate_tcp(tcp) {
        Ok(()) => validate_quic(quic),
        Err(error) => Err(error),
    }
}

/// What is wrong with an address that an exchange listens on.
pub open spec fn exposure(address: Address, allow_public: bool, r: Result<(), BuildError>) -> bool {
    match ip_of(address) {
        None => says_invalid(r, "exchange"@, address),
        Some(ip) => !loopback(ip) && !allow_public && r == Err::<(), BuildError>(
            BuildError::PublicListener,
        ),
    }
}

/// Whether an exchange may listen on an address.
pub open spec fn may_listen(address: Address, allow_public: bool) -> bool {
    ip_of(address) matches Some(ip) && (loopback(ip) || allow_public)
}

fn validate_exposure(address: &Address, allow_public: bool) -> (r: Result<(), BuildError>)
    ensures
        if may_listen(*address, allow_public) {
            r is Ok
        } else {
            exposure(*address, allow_public, r)
        },
{
    match address.ip() {
        Some(ip) => if !ip.is_loopback() && !allow_public {
            Err(BuildError::PublicListener)
        } else {
            Ok(())
        },
        None => Err(BuildError::InvalidListener { transport: "exchange", address: address.clone() }),
    }
}

/// Whether an exchange relays circuits.
pub open spec fn relays(mode: RuntimeMode, admission: bool) -> bool {
    mode == RuntimeMode::ConnectivityLab || admission
}

impl ExchangeSwarmConfig {
    /// Whether the settings can be used. Others can reach the listeners only
    /// where that was asked for.
    pub fn validate(&self) -> (r: Result<(), BuildError>)
        ensures
            if !tcp_listener(self.tcp_listen@) {
                says_invalid(r, "tcp"@, self.tcp_listen)
            } else if !quic_listener(self.quic_listen@) {
                says_invalid(r, "quic"@, self.quic_listen)
            } else if !may_listen(self.tcp_listen, self.allow_public) {
                exposure(self.tcp_listen, self.allow_public, r)
            } else if !may_listen(self.quic_listen, self.allow_public) {
                exposure(self.quic_listen, self.allow_public, r)
            } else {
                r is Ok
            },
    {
        match validate_listeners(&self.tcp_listen, &self.quic_listen) {
            Ok(()) => {},
            Err(error) => return Err(error),
        }
        match validate_exposure(&self.tcp_listen, self.allow_public) {
            Ok(()) => validate_exposure(&self.quic_listen, self.allow_public),
            Err(error) => Err(error),
        }
    }

    /// Whether the exchange relays circuits.
    pub fn relay_enabled(&self) -> (r: bool)
        ensures
            r == relays(self.mode, self.relay_admission),
    {
        self.mode == RuntimeMode::ConnectivityLab || self.relay_admission
    }
}

/// Which protocols a peer speaks besides those that every peer speaks.
#[derive(Clone, Copy, Debug, PartialEq, Eq, Structural)]
pub struct PeerProtocols {
    pub relay_client: bool,
    pub dcutr: bool,
    pub probe_stream: bool,
    pub registry: bool,
}

impl PeerSwarmConfig {
    /// Whether the settings are those of a lab.
    pub fn is_connectivity_lab(&self) -> (r: bool)
        ensures
            r == (self.mode == RuntimeMode::ConnectivityLab),
    {
        self.mode == RuntimeMode::ConnectivityLab
    }

    /// Whether the settings can be used.
    pub fn validate(&self) -> (r: Result<(), BuildError>)
        ensures
            if !tcp_listener(self.tcp_listen@) {
                says_invalid(r, "tcp"@, self.tcp_listen)
            } else if !quic_listener(self.quic_listen@) {
                says_invalid(r, "quic"@, self.quic_listen)
            } else {
                r is Ok
            },
    {
        validate_listeners(&self.tcp_listen, &self.quic_listen)
    }

    /// Which protocols the peer speaks. Hole punching and probes are for labs,
    /// the registry is for products.
    pub fn protocols(&self) -> (r: PeerProtocols)
        ensures
            ({
                let lab = self.mode == RuntimeMode::ConnectivityLab;
                r == (PeerProtocols {
                    relay_client: lab || self.relay_client_enabled,
                    dcutr: lab,
                    probe_stream: lab,
                    registry: !lab && self.registry_enabled,
                })
            }),
    {
        let lab = self.is_connectivity_lab();
        PeerProtocols {
            relay_client: lab || self.relay_client_enabled,
            dcutr: lab,
            probe_stream: lab,
            registry: !lab && self.registry_enabled,
        }
    }
}

/// The limits of the profiles: product and lab relay as much in all and for as
/// long, and differ in what one peer may have; a test of the limits runs into them
/// soon. Rates are counted by the minute, and an address has twice what a peer has.
pub proof fn law_profiles_have_their_limits(
    product: RelayProfileConfig,
    lab: RelayProfileConfig,
    test: RelayProfileConfig,
)
    requires
        call_ensures(RelayProfile::config, (RelayProfile::Product,), product),
        call_ensures(RelayProfile::config, (RelayProfile::DefaultLab,), lab),
        call_ensures(RelayProfile::config, (RelayProfile::LimitTest,), test),
    ensures
        product.reservation_duration == lab.reservation_duration == test.reservation_duration == 60,
        product.max_reservations == lab.max_reservations == 64 && test.max_reservations == 2,
        product.max_reservations_per_peer == 0 && lab.max_reservations_per_peer == 1
            && test.max_reservations_per_peer == 1,
        product.max_circuits == lab.max_circuits == 128 && test.max_circuits == 2,
        product.max_circuits_per_peer == 31 && lab.max_circuits_per_peer == 3 && test.max_circuits_per_peer
            == 0,
        product.max_circuit_duration == lab.max_circuit_duration == 60 * 60 && test.max_circuit_duration
            == 5 * 60,
        product.max_circuit_bytes == lab.max_circuit_bytes == 1024 * 1024 * 1024 && test.max_circuit_bytes
            == 16 * 1024 * 1024,
        product.reservation_rate_limiters@ == lab.reservation_rate_limiters@,
        product.circuit_src_rate_limiters@ == lab.circuit_src_rate_limiters@,
        test.reservation_rate_limiters@ == test.circuit_src_rate_limiters@,
        product.reservation_rate_limiters@[0].limit == 256,
        product.circuit_src_rate_limiters@[0].limit == 1024,
        test.reservation_rate_limiters@[0].limit == 8,
        counts_by_minute(product.reservation_rate_limiters@),
        counts_by_minute(product.circuit_src_rate_limiters@),
        counts_by_minute(test.circuit_src_rate_limiters@),
{
}

/// Whether rates are counted by the minute, for peers and, twice as high, for
/// addresses.
pub open spec fn counts_by_minute(limits: Seq<RateLimit>) -> bool {
    &&& limits.len() == 2
    &&& limits[0].scope == RateScope::Peer && limits[0].interval_seconds == 60
    &&& limits[1].scope == RateScope::Ip && limits[1].interval_seconds == 60
    &&& limits[1].limit == 2 * limits[0].limit
}

/// The seed of a lab node is what a generator of shifts makes of its number: each
/// byte is the low one of the generator's next state.
pub proof fn law_lab_seeds_are_generated(seed: u64, r: [u8; 32], i: int)
    requires
        call_ensures(lab_seed, (seed,), r),
        0 <= i < 32,
    ensures
        r@[i] == stretched(seed, (i + 1) as nat) % 256,
        stretched(seed, 0) == seed,
        ({
            let a = stretched(seed, i as nat);
            let b = a ^ (a << 13u64);
            let c = b ^ (b >> 7u64);
            stretched(seed, (i + 1) as nat) == c ^ (c << 17u64)
        }),
{
}

/// Whether an address has a part of each of the given kinds and does not lead
/// through a relay.
pub open spec fn listens_by(parts: Seq<PartModel>, tcp: bool) -> bool {
    &&& forall|i: int| 0 <= i < parts.len() ==> #[trigger] parts[i] != PartModel::P2pCircuit
    &&& tcp ==> exists|i: int| 0 <= i < parts.len() && #[trigger] parts[i] is Tcp
    &&& !tcp ==> exists|i: int| 0 <= i < parts.len() && #[trigger] parts[i] is Udp
    &&& !tcp ==> exists|i: int| 0 <= i < parts.len() && #[trigger] parts[i] is QuicV1
}

/// A peer listens by TCP and by QUIC on addresses that do not lead through a
/// relay; the first of the two that is not one is told.
pub proof fn law_peers_listen_by_tcp_and_quic(config: PeerSwarmConfig, r: Result<(), BuildError>)
    requires
        call_ensures(PeerSwarmConfig::validate, (&config,), r),
    ensures
        ({
            let tcp = listens_by(config.tcp_listen@, true);
            let quic = listens_by(config.quic_listen@, false);
            &&& r is Ok <==> tcp && quic
            &&& !tcp ==> (r matches Err(BuildError::InvalidListener { transport, address }) && transport@
                == "tcp"@ && address@ == config.tcp_listen@)
            &&& tcp && !quic ==> (r matches Err(BuildError::InvalidListener { transport, address })
                && transport@ == "quic"@ && address@ == config.quic_listen@)
        }),
{
    assert(listens_by(config.tcp_listen@, true) <==> tcp_listener(config.tcp_listen@));
    assert(listens_by(config.quic_listen@, false) <==> quic_listener(config.quic_listen@));
}

/// An exchange listens as a peer does, and on addresses of its own machine only,
/// unless others are asked for.
pub proof fn law_exchanges_are_public_only_if_asked(config: ExchangeSwarmConfig, r: Result<(), BuildError>)
    requires
        call_ensures(ExchangeSwarmConfig::validate, (&config,), r),
    ensures
        ({
            let listens = listens_by(config.tcp_listen@, true) && listens_by(config.quic_listen@, false);
            let tcp = first_ip_from(config.tcp_listen@, 0);
            let quic = first_ip_from(config.quic_listen@, 0);
            let named = tcp is Some && quic is Some;
            let home = named && loopback(tcp->0) && loopback(quic->0);
            &&& r is Ok <==> listens && named && (home || config.allow_public)
            &&& listens && named && !home && !config.allow_public ==> r == Err::<(), BuildError>(
                BuildError::PublicListener,
            )
            &&& listens && tcp is None ==> (r matches Err(BuildError::InvalidListener { transport, address })
                && transport@ == "exchange"@ && address@ == config.tcp_listen@)
            &&& !listens_by(config.tcp_listen@, true) ==> (r matches Err(
                BuildError::InvalidListener { transport, address },
            ) && transport@ == "tcp"@ && address@ == config.tcp_listen@)
        }),
{
    assert(listens_by(config.tcp_listen@, true) <==> tcp_listener(config.tcp_listen@));
    assert(listens_by(config.quic_listen@, false) <==> quic_listener(config.quic_listen@));
}

/// In a lab everything is relayed and peers probe and punch holes, and nobody asks
/// a registry; a product does what it is set to.
pub proof fn law_labs_speak_all_but_the_registry(
    exchange: ExchangeSwarmConfig,
    relays: bool,
    peer: PeerSwarmConfig,
    protocols: PeerProtocols,
)
    requires
        call_ensures(ExchangeSwarmConfig::relay_enabled, (&exchange,), relays),
        call_ensures(PeerSwarmConfig::protocols, (&peer,), protocols),
    ensures
        exchange.mode is ConnectivityLab ==> relays,
        exchange.mode is Product ==> relays == exchange.relay_admission,
        peer.mode is ConnectivityLab ==> protocols.relay_client && protocols.dcutr && protocols.probe_stream
            && !protocols.registry,
        peer.mode is Product ==> protocols.relay_client == peer.relay_client_enabled && !protocols.dcutr
            && !protocols.probe_stream && protocols.registry == peer.registry_enabled,
{
}

/// Connections are pinged every quarter of a minute, a ping and a request are given
/// up after five seconds, and a connection that is idle for two minutes is closed:
/// a ping is answered or given up before the next, and many fit into the idle time.
pub proof fn law_pings_keep_connections_alive()
    ensures
        PING_INTERVAL_SECONDS == 15 && PING_TIMEOUT_SECONDS == 5 && IDLE_TIMEOUT_SECONDS == 2 * 60,
        PING_TIMEOUT_SECONDS < PING_INTERVAL_SECONDS,
        8 * PING_INTERVAL_SECONDS == IDLE_TIMEOUT_SECONDS,
        AUTH_REQUEST_TIMEOUT_SECONDS == 5 && REGISTRY_REQUEST_TIMEOUT_SECONDS == 5 && PROBE_TIMEOUT_SECONDS
            == 5,
        MAX_STREAMS == 4 * MAX_NEGOTIATIONS == 256,
{
}

} // verus!
