//! Which peers may use the relay. Times are nanoseconds since a fixed origin.
use crate::auth::{scope_bit, Role, Scope};
use crate::peer::PeerId;
use crate::table::{kept, Table};
use crate::text::same_text;
use vstd::prelude::*;

verus! {

/// How many sessions are remembered.
pub const MAX_ENTRIES: usize = 256;

/// What the exchange granted to a peer.
#[derive(Debug, PartialEq, Eq)]
pub struct RelaySession {
    pub role: Role,
    pub scopes: u32,
    pub quota_profile: String,
    pub authorization_revision: u64,
    pub expires_at: u64,
}

#[verifier::ext_equal]
pub struct SessionModel {
    pub role: Role,
    pub scopes: u32,
    pub quota_profile: Seq<char>,
    pub authorization_revision: u64,
    pub expires_at: u64,
}

impl View for RelaySession {
    type V = SessionModel;

    open spec fn view(&self) -> SessionModel {
        SessionModel {
            role: self.role,
            scopes: self.scopes,
            quota_profile: self.quota_profile@,
            authorization_revision: self.authorization_revision,
            expires_at: self.expires_at,
        }
    }
}

/// Sessions by peer, and whether the relay is closing down.
#[verifier::ext_equal]
pub struct AdmissionModel {
    pub sessions: Map<Seq<u8>, SessionModel>,
    pub draining: bool,
}

/// Whether a session allows something in a role at a time.
pub open spec fn allows(session: SessionModel, now: u64, role: Role, scope: Scope) -> bool {
    session.role == role && session.scopes & scope_bit(scope) != 0 && session.quota_profile
        == "standard"@ && session.expires_at > now
}

impl AdmissionModel {
    /// Whether a peer may do something in a role at a time.
    pub open spec fn authorizes(self, peer: Seq<u8>, now: u64, role: Role, scope: Scope) -> bool {
        !self.draining && self.sessions.contains_key(peer) && allows(
            self.sessions[peer],
            now,
            role,
            scope,
        )
    }

    /// Whether there is room for the session of a peer.
    pub open spec fn has_room_for(self, peer: Seq<u8>) -> bool {
        self.sessions.len() < MAX_ENTRIES || self.sessions.contains_key(peer)
    }

    /// With the session of a peer in place of one that it had, if there is room.
    pub open spec fn installed(self, peer: Seq<u8>, session: SessionModel) -> Self {
        if self.has_room_for(peer) {
            AdmissionModel { sessions: self.sessions.insert(peer, session), ..self }
        } else {
            self
        }
    }

    /// Without the session of a peer.
    pub open spec fn without(self, peer: Seq<u8>) -> Self {
        AdmissionModel { sessions: self.sessions.remove(peer), ..self }
    }

    /// Without the sessions that have expired.
    pub open spec fn swept(self, now: u64) -> Self {
        AdmissionModel {
            sessions: kept(
                self.sessions,
                |peer: Seq<u8>, session: SessionModel| session.expires_at > now,
            ),
            ..self
        }
    }
}

/// The sessions that the relay goes by.
pub struct RelayAdmissionHandle {
    entries: Table<PeerId, RelaySession>,
    draining: bool,
}

impl View for RelayAdmissionHandle {
    type V = AdmissionModel;

    closed spec fn view(&self) -> AdmissionModel {
        AdmissionModel { sessions: self.entries@, draining: self.draining }
    }
}

impl Default for RelayAdmissionHandle {
    fn default() -> (r: Self)
        ensures
            r@ == (AdmissionModel { sessions: Map::empty(), draining: false }),
    {
        RelayAdmissionHandle { entries: Table::new(), draining: false }
    }
}

impl RelayAdmissionHandle {
    /// Remembers the session of a peer in place of one that it had. Says
    /// whether there was room.
    pub fn install(&mut self, peer: PeerId, session: RelaySession) -> (r: bool)
        ensures
            r == old(self)@.has_room_for(peer@),
            final(self)@ == old(self)@.installed(peer@, session@),
    {
        if self.entries.len() >= MAX_ENTRIES && !self.entries.contains(&peer) {
            return false;
        }
        self.entries.insert(peer, session);
        true
    }

    /// Forgets the session of a peer.
    pub fn remove(&mut self, peer: &PeerId)
        ensures
            final(self)@ == old(self)@.without(peer@),
    {
        let _ = self.entries.remove(peer);
    }

    /// Says whether the relay is closing down.
    pub fn set_draining(&mut self, draining: bool)
        ensures
            final(self)@ == (AdmissionModel { sessions: old(self)@.sessions, draining }),
    {
        self.draining = draining;
    }

    /// Forgets the sessions that have expired.
    pub fn sweep(&mut self, now: u64)
        ensures
            final(self)@ == old(self)@.swept(now),
    {
        let ghost keeps = |peer: Seq<u8>, session: SessionModel| session.expires_at > now;
        let keep = |_peer: &PeerId, session: &RelaySession| -> (b: bool)
            ensures
                b == (session@.expires_at > now),
            { session.expires_at > now };
        self.entries.retain(keep, Ghost(keeps));
    }

    /// Whether a peer may reserve a circuit.
    pub fn is_reservation_authorized(&self, peer: &PeerId, now: u64) -> (r: bool)
        ensures
            r == self@.authorizes(peer@, now, Role::Server, Scope::ReserveRelay),
    {
        self.authorized(peer, now, Role::Server, Scope::ReserveRelay)
    }

    /// Whether a peer may open a circuit.
    pub fn is_circuit_source_authorized(&self, peer: &PeerId, now: u64) -> (r: bool)
        ensures
            r == self@.authorizes(peer@, now, Role::Client, Scope::OpenProxyStream),
    {
        self.authorized(peer, now, Role::Client, Scope::OpenProxyStream)
    }

    /// How many sessions are remembered.
    pub fn len(&self) -> (r: usize)
        ensures
            r == self@.sessions.len(),
    {
        self.entries.len()
    }

    /// Whether no session is remembered.
    pub fn is_empty(&self) -> (r: bool)
        ensures
            r == (self@.sessions.len() == 0),
    {
        self.len() == 0
    }

    fn authorized(&self, peer: &PeerId, now: u64, role: Role, scope: Scope) -> (r: bool)
        ensures
            r == self@.authorizes(peer@, now, role, scope),
    {
        if self.draining {
            return false;
        }
        match self.entries.get(peer) {
            Some(session) => session.role == role && session.scopes & scope.bit() != 0 && same_text(
                session.quota_profile.as_str(),
                "standard",
            ) && session.expires_at > now,
            None => false,
        }
    }
}

/// A relay that is closing down authorizes nothing.
pub proof fn law_draining_fails_closed(
    admission: AdmissionModel,
    peer: Seq<u8>,
    now: u64,
    role: Role,
    scope: Scope,
)
    requires
        admission.draining,
    ensures
        !admission.authorizes(peer, now, role, scope),
{
}

/// Forgetting expired sessions changes no answer, then or later.
pub proof fn law_sweeping_changes_no_answer(
    admission: AdmissionModel,
    swept_at: u64,
    peer: Seq<u8>,
    now: u64,
    role: Role,
    scope: Scope,
)
    requires
        swept_at <= now,
    ensures
        admission.authorizes(peer, now, role, scope) == (AdmissionModel {
            sessions: kept(
                admission.sessions,
                |peer: Seq<u8>, session: SessionModel| session.expires_at > swept_at,
            ),
            draining: admission.draining,
        }).authorizes(peer, now, role, scope),
{
}

/// A session makes a peer a reserver or a circuit source, never both.
pub proof fn law_roles_are_exclusive(admission: AdmissionModel, peer: Seq<u8>, now: u64)
    ensures
        !(admission.authorizes(peer, now, Role::Server, Scope::ReserveRelay) && admission.authorizes(
            peer,
            now,
            Role::Client,
            Scope::OpenProxyStream,
        )),
{
}

/// The settings of a relay. Durations are seconds.
#[derive(Clone, Copy, Debug, PartialEq, Eq, Structural)]
pub struct RelayConfig {
    pub max_reservations: usize,
    pub max_reservations_per_peer: usize,
    pub reservation_duration: u64,
    pub max_circuits: usize,
    pub max_circuits_per_peer: usize,
    pub max_circuit_duration: u64,
    pub max_circuit_bytes: u64,
}

#[derive(Clone, Copy, Debug, PartialEq, Eq, Structural)]
pub struct RelayLimits {
    pub max_reservations: u32,
    pub max_circuits: u32,
    pub max_circuits_per_peer: u32,
}

impl Default for RelayLimits {
    fn default() -> (r: Self)
        ensures
            r.max_reservations == 64,
            r.max_circuits == 128,
            r.max_circuits_per_peer == 32,
    {
        RelayLimits { max_reservations: 64, max_circuits: 128, max_circuits_per_peer: 32 }
    }
}

impl RelayLimits {
    /// The settings of a relay with these limits. The relay counts the circuits
    /// of a peer from zero, so that it takes one less.
    pub fn to_libp2p_config(self) -> (r: RelayConfig)
        ensures
            r.max_reservations == self.max_reservations,
            r.max_reservations_per_peer == 1,
            r.reservation_duration == 60,
            r.max_circuits == self.max_circuits,
            r.max_circuits_per_peer == if self.max_circuits_per_peer == 0 {
                0int
            } else {
                self.max_circuits_per_peer - 1
            },
            r.max_circuit_duration == 3600,
            r.max_circuit_bytes == 1024 * 1024 * 1024,
    {
        RelayConfig {
            max_reservations: self.max_reservations as usize,
            max_reservations_per_peer: 1,
            reservation_duration: 60,
            max_circuits: self.max_circuits as usize,
            max_circuits_per_peer: self.max_circuits_per_peer.saturating_sub(1) as usize,
            max_circuit_duration: 3600,
            max_circuit_bytes: 1024 * 1024 * 1024,
        }
    }
}

/// A peer may do what its session grants: in the role of the session, with the
/// scope among those granted, under the standard quota, until the session
/// expires, and while the relay is not closing down.
pub proof fn law_sessions_authorize_what_they_grant(
    admission: AdmissionModel,
    peer: Seq<u8>,
    session: SessionModel,
    now: u64,
    role: Role,
    scope: Scope,
)
    requires
        admission.has_room_for(peer),
        !admission.draining,
    ensures
        admission.installed(peer, session).authorizes(peer, now, role, scope) <==> session.role == role
            && session.scopes & scope_bit(scope) != 0 && session.quota_profile == "standard"@ && now
            < session.expires_at,
        !admission.without(peer).authorizes(peer, now, role, scope),
{
}

/// A session takes the place of the one that its peer had; the sessions of other
/// peers stay as they are, and so they do when one is forgotten.
pub proof fn law_sessions_of_others_stay(
    admission: AdmissionModel,
    peer: Seq<u8>,
    session: SessionModel,
    other: Seq<u8>,
    now: u64,
    role: Role,
    scope: Scope,
)
    requires
        other != peer,
    ensures
        admission.installed(peer, session).authorizes(other, now, role, scope) == admission.authorizes(
            other,
            now,
            role,
            scope,
        ),
        admission.without(peer).authorizes(other, now, role, scope) == admission.authorizes(
            other,
            now,
            role,
            scope,
        ),
        admission.has_room_for(peer) ==> admission.installed(peer, session).sessions.contains_key(peer)
            && admission.installed(peer, session).sessions[peer] == session,
        admission.sessions.contains_key(peer) ==> admission.has_room_for(peer),
        admission.sessions.len() < 256 ==> admission.has_room_for(peer),
        admission.sessions.len() >= 256 && !admission.sessions.contains_key(peer) ==> admission.installed(
            peer,
            session,
        ) == admission && !admission.has_room_for(peer),
{
}

/// Sessions are forgotten once they have expired and not before.
pub proof fn law_sessions_are_kept_until_they_expire(admission: AdmissionModel, peer: Seq<u8>, now: u64)
    requires
        admission.sessions.contains_key(peer),
    ensures
        admission.swept(now).sessions.contains_key(peer) <==> now < admission.sessions[peer].expires_at,
        now < admission.sessions[peer].expires_at ==> admission.swept(now).sessions[peer]
            == admission.sessions[peer],
        admission.swept(now).draining == admission.draining,
{
}

/// A server may reserve a circuit, and a client may open one, exactly if its
/// session grants that to its role.
pub proof fn law_servers_reserve_and_clients_open(
    relay: &RelayAdmissionHandle,
    peer: &PeerId,
    now: u64,
    reserves: bool,
    opens: bool,
)
    requires
        call_ensures(RelayAdmissionHandle::is_reservation_authorized, (relay, peer, now), reserves),
        call_ensures(RelayAdmissionHandle::is_circuit_source_authorized, (relay, peer, now), opens),
    ensures
        ({
            let session = relay@.sessions[peer@];
            let current = !relay@.draining && relay@.sessions.contains_key(peer@) && now
                < session.expires_at && session.quota_profile == "standard"@;
            &&& reserves <==> current && session.role == Role::Server && session.scopes & 2 != 0
            &&& opens <==> current && session.role == Role::Client && session.scopes & 4 != 0
        }),
{
}

/// The relay is set up with the limits that are given: it counts the circuits of
/// a peer from zero, so that it takes one less, and lets each peer reserve once.
pub proof fn law_relays_keep_the_limits(limits: RelayLimits, r: RelayConfig)
    requires
        call_ensures(RelayLimits::to_libp2p_config, (limits,), r),
    ensures
        r.max_reservations == limits.max_reservations && r.max_circuits == limits.max_circuits,
        limits.max_circuits_per_peer > 0 ==> r.max_circuits_per_peer + 1 == limits.max_circuits_per_peer,
        limits.max_circuits_per_peer == 0 ==> r.max_circuits_per_peer == 0,
        r.max_reservations_per_peer == 1,
        r.reservation_duration == 60 && r.max_circuit_duration == 3_600 && r.max_circuit_bytes
            == 1_073_741_824,
{
}

/// A relay with limits grants a peer one reservation of a minute, circuits of an
/// hour and a gibibyte, and one circuit less than the limit says, since the relay
/// counts from zero.
pub proof fn law_limits_are_handed_to_the_relay(limits: RelayLimits, r: RelayConfig)
    requires
        call_ensures(RelayLimits::to_libp2p_config, (limits,), r),
    ensures
        r.max_reservations == limits.max_reservations,
        r.max_circuits == limits.max_circuits,
        limits.max_circuits_per_peer >= 1 ==> r.max_circuits_per_peer + 1 == limits.max_circuits_per_peer,
        limits.max_circuits_per_peer == 0 ==> r.max_circuits_per_peer == 0,
        r.max_reservations_per_peer == 1,
        r.reservation_duration == 60,
        r.max_circuit_duration == 60 * 60,
        r.max_circuit_bytes == 1024 * 1024 * 1024,
{
}

/// Closing down is turned on and off without touching the sessions.
pub proof fn law_closing_down_keeps_the_sessions(admission: &mut RelayAdmissionHandle, draining: bool, r: ())
    requires
        call_ensures(RelayAdmissionHandle::set_draining, (admission, draining), r),
    ensures
        final(admission)@.draining == draining,
        final(admission)@.sessions == old(admission)@.sessions,
{
}

} // verus!
