//! Whether a server can be reached through its exchange. Times are seconds.
use crate::clock::{clamp_i64, saturating_add, saturating_sub};
use vstd::prelude::*;

verus! {

#[derive(Clone, Copy, Debug, PartialEq, Eq, Structural)]
pub enum AvailabilityState {
    Starting,
    Authenticating,
    AuthReady,
    Reserving,
    RelayReady,
    Registering,
    Ready,
    Degraded,
    Draining,
    Withdrawn,
    Stopped,
}

/// What a server can show for itself.
#[derive(Clone, Copy, Debug, PartialEq, Eq, Structural)]
pub struct AvailabilitySnapshot {
    pub auth: bool,
    pub reservation: bool,
    pub registration: bool,
    pub draining: bool,
    pub generation: u64,
}

#[derive(Clone, Copy, Debug, PartialEq, Eq, Structural)]
pub enum AvailabilityAction {
    Authenticate,
    Reserve(u64),
    Register(u64),
    Refresh,
    Withdraw,
    Publish(bool),
}

/// Everything that is known of a server's availability.
pub struct AvailabilityModel {
    pub state: AvailabilityState,
    pub generation: u64,
    pub readiness_generation: u64,
    pub was_ready: bool,
    pub auth: bool,
    pub reservation: bool,
    pub registration_expires_at: i64,
    pub refresh_at: i64,
    pub refresh_seconds: u16,
    pub instance_id: [u8; 16],
}

/// Something that is reported of a server's availability.
pub enum AvailabilityCall {
    AuthReady,
    ReservationReady { generation: u64 },
    Registered { generation: u64, expires_at: i64, now: i64 },
    Tick { now: i64 },
    ReservationLost,
    SessionLost,
    RegistrationLost,
    BeginShutdown,
    Withdrawn,
    Stopped,
}

/// One more, as far as there is one more.
pub open spec fn next(n: u64) -> u64 {
    if n == u64::MAX {
        u64::MAX
    } else {
        (n + 1) as u64
    }
}

/// When a registration is to be refreshed: after the configured time, but five
/// seconds before it expires, and not before a second has passed.
pub open spec fn refresh_time(refresh_seconds: u16, expires_at: i64, now: i64) -> i64 {
    let left = clamp_i64(clamp_i64(expires_at - now) - 5);
    let latest: int = if left < 1 {
        1
    } else {
        left as int
    };
    clamp_i64(
        now + if refresh_seconds < latest {
            refresh_seconds as int
        } else {
            latest
        },
    )
}

impl AvailabilityModel {
    /// Nothing is known yet.
    pub open spec fn starting(instance_id: [u8; 16], refresh_seconds: u16) -> Self {
        AvailabilityModel {
            state: AvailabilityState::Starting,
            generation: 0,
            readiness_generation: 0,
            was_ready: false,
            auth: false,
            reservation: false,
            registration_expires_at: 0,
            refresh_at: i64::MAX,
            refresh_seconds,
            instance_id,
        }
    }

    /// Whether the server is closing down.
    pub open spec fn draining(self) -> bool {
        self.state == AvailabilityState::Draining || self.state == AvailabilityState::Withdrawn
            || self.state == AvailabilityState::Stopped
    }

    /// What the server can show at a time.
    pub open spec fn snapshot(self, now: i64) -> AvailabilitySnapshot {
        AvailabilitySnapshot {
            auth: self.auth && !self.draining(),
            reservation: self.reservation && !self.draining(),
            registration: self.registration_expires_at > now && !self.draining(),
            draining: self.draining(),
            generation: self.readiness_generation,
        }
    }

    /// Whether the server can be reached at a time.
    pub open spec fn available(self, now: i64) -> bool {
        let s = self.snapshot(now);
        s.auth && s.reservation && s.registration
    }

    /// The session stands.
    pub open spec fn authenticated(self) -> Self {
        AvailabilityModel {
            auth: true,
            state: if self.reservation && self.registration_expires_at > 0 {
                AvailabilityState::Ready
            } else if self.reservation {
                AvailabilityState::RelayReady
            } else {
                AvailabilityState::Reserving
            },
            ..self
        }
    }

    /// Whether a reservation of a generation counts.
    pub open spec fn takes_reservation(self, generation: u64) -> bool {
        generation >= self.generation && self.auth && !self.draining()
    }

    /// Whether a registration counts.
    pub open spec fn takes_registration(self, generation: u64, expires_at: i64, now: i64) -> bool {
        generation == self.generation && self.auth && self.reservation && expires_at > now
    }

    /// The registration stands.
    pub open spec fn registered(self, expires_at: i64, now: i64) -> Self {
        AvailabilityModel {
            registration_expires_at: expires_at,
            refresh_at: refresh_time(self.refresh_seconds, expires_at, now),
            state: AvailabilityState::Ready,
            was_ready: true,
            readiness_generation: if self.was_ready {
                self.readiness_generation
            } else {
                next(self.readiness_generation)
            },
            ..self
        }
    }

    /// A registration of a generation was granted.
    pub open spec fn granted(self, generation: u64, expires_at: i64, now: i64) -> Self {
        if self.takes_registration(generation, expires_at, now) {
            self.registered(expires_at, now)
        } else {
            self.lapsed()
        }
    }

    /// The registration is gone, and the server is no longer known.
    pub open spec fn unregistered(self) -> Self {
        AvailabilityModel {
            registration_expires_at: 0,
            was_ready: false,
            state: self.degraded(),
            ..self
        }
    }

    /// The registration is gone.
    pub open spec fn lapsed(self) -> Self {
        AvailabilityModel {
            registration_expires_at: 0,
            state: AvailabilityState::Degraded,
            ..self
        }
    }

    /// The reservation of a generation stands, if it counts.
    pub open spec fn reserved(self, generation: u64) -> Self {
        if self.takes_reservation(generation) {
            AvailabilityModel {
                generation,
                reservation: true,
                state: AvailabilityState::RelayReady,
                ..self
            }
        } else {
            self
        }
    }

    /// The reservation is gone, and with it its generation.
    pub open spec fn unreserved(self) -> Self {
        AvailabilityModel {
            reservation: false,
            registration_expires_at: 0,
            was_ready: false,
            state: self.degraded(),
            generation: next(self.generation),
            ..self
        }
    }

    /// The session is gone, and with it all that rests on it.
    pub open spec fn signed_off(self) -> Self {
        AvailabilityModel {
            auth: false,
            reservation: false,
            registration_expires_at: 0,
            was_ready: false,
            state: AvailabilityState::Degraded,
            ..self
        }
    }

    /// Time passed.
    pub open spec fn ticked(self, now: i64) -> Self {
        if self.state == AvailabilityState::Ready && now >= self.registration_expires_at {
            self.lapsed()
        } else {
            self
        }
    }

    /// What is due at a time.
    pub open spec fn due(self, now: i64) -> AvailabilityAction {
        if self.state == AvailabilityState::Ready && now >= self.registration_expires_at {
            AvailabilityAction::Publish(false)
        } else if self.state == AvailabilityState::Ready && now >= self.refresh_at {
            AvailabilityAction::Refresh
        } else {
            AvailabilityAction::Publish(self.available(now))
        }
    }

    /// The server closes down.
    pub open spec fn closing(self) -> Self {
        AvailabilityModel { state: AvailabilityState::Draining, was_ready: false, ..self }
    }

    /// Whatever was reported.
    pub open spec fn called(self, call: AvailabilityCall) -> Self {
        match call {
            AvailabilityCall::AuthReady => self.authenticated(),
            AvailabilityCall::ReservationReady { generation } => self.reserved(generation),
            AvailabilityCall::Registered { generation, expires_at, now } => self.granted(
                generation,
                expires_at,
                now,
            ),
            AvailabilityCall::Tick { now } => self.ticked(now),
            AvailabilityCall::ReservationLost => self.unreserved(),
            AvailabilityCall::SessionLost => self.signed_off(),
            AvailabilityCall::RegistrationLost => self.unregistered(),
            AvailabilityCall::BeginShutdown => self.closing(),
            AvailabilityCall::Withdrawn => AvailabilityModel {
                state: AvailabilityState::Withdrawn,
                ..self
            },
            AvailabilityCall::Stopped => AvailabilityModel { state: AvailabilityState::Stopped, ..self },
        }
    }

    /// Whatever was reported, one after the other.
    pub open spec fn after_calls(self, calls: Seq<AvailabilityCall>) -> Self
        decreases calls.len(),
    {
        if calls.len() == 0 {
            self
        } else {
            self.after_calls(calls.drop_last()).called(calls.last())
        }
    }

    /// Degraded, unless the server is closing down.
    pub open spec fn degraded(self) -> AvailabilityState {
        if self.draining() {
            self.state
        } else {
            AvailabilityState::Degraded
        }
    }
}

/// The availability of a server.
#[derive(Debug)]
pub struct Availability {
    state: AvailabilityState,
    generation: u64,
    readiness_generation: u64,
    was_ready: bool,
    auth: bool,
    reservation: bool,
    registration_expires_at: i64,
    refresh_at: i64,
    refresh_seconds: u16,
    instance_id: [u8; 16],
}

impl View for Availability {
    type V = AvailabilityModel;

    closed spec fn view(&self) -> AvailabilityModel {
        AvailabilityModel {
            state: self.state,
            generation: self.generation,
            readiness_generation: self.readiness_generation,
            was_ready: self.was_ready,
            auth: self.auth,
            reservation: self.reservation,
            registration_expires_at: self.registration_expires_at,
            refresh_at: self.refresh_at,
            refresh_seconds: self.refresh_seconds,
            instance_id: self.instance_id,
        }
    }
}

impl Availability {
    /// Registrations are refreshed every ten seconds.
    pub fn new(instance_id: [u8; 16]) -> (r: Self)
        ensures
            r@ == AvailabilityModel::starting(instance_id, 10),
    {
        Availability::with_refresh_seconds(instance_id, 10)
    }

    /// Registrations are refreshed as often as the given seconds say.
    pub fn with_refresh_seconds(instance_id: [u8; 16], refresh_seconds: u16) -> (r: Self)
        ensures
            r@ == AvailabilityModel::starting(instance_id, refresh_seconds),
    {
        Availability {
            state: AvailabilityState::Starting,
            generation: 0,
            readiness_generation: 0,
            was_ready: false,
            auth: false,
            reservation: false,
            registration_expires_at: 0,
            refresh_at: i64::MAX,
            refresh_seconds,
            instance_id,
        }
    }

    pub fn state(&self) -> (r: AvailabilityState)
        ensures
            r == self@.state,
    {
        self.state
    }

    pub fn instance_id(&self) -> (r: [u8; 16])
        ensures
            r == self@.instance_id,
    {
        self.instance_id
    }

    pub fn generation(&self) -> (r: u64)
        ensures
            r == self@.generation,
    {
        self.generation
    }

    pub fn readiness_generation(&self) -> (r: u64)
        ensures
            r == self@.readiness_generation,
    {
        self.readiness_generation
    }

    /// The session stands.
    pub fn auth_ready(&mut self) -> (r: AvailabilityAction)
        ensures
            final(self)@ == old(self)@.authenticated(),
            r == AvailabilityAction::Reserve(old(self)@.generation),
    {
        self.auth = true;
        self.state = if self.reservation && self.registration_expires_at > 0 {
            AvailabilityState::Ready
        } else if self.reservation {
            AvailabilityState::RelayReady
        } else {
            AvailabilityState::Reserving
        };
        AvailabilityAction::Reserve(self.generation)
    }

    /// The reservation of a generation stands.
    pub fn reservation_ready(&mut self, generation: u64) -> (r: AvailabilityAction)
        ensures
            final(self)@ == old(self)@.reserved(generation),
            r == if old(self)@.takes_reservation(generation) {
                AvailabilityAction::Register(generation)
            } else {
                AvailabilityAction::Publish(false)
            },
    {
        if generation < self.generation || !self.auth || self.draining() {
            return AvailabilityAction::Publish(false);
        }
        self.generation = generation;
        self.reservation = true;
        self.state = AvailabilityState::RelayReady;
        AvailabilityAction::Register(generation)
    }

    /// A registration of a generation was granted.
    pub fn registered(&mut self, generation: u64, expires_at: i64, now: i64) -> (r: AvailabilityAction)
        ensures
            r == AvailabilityAction::Publish(
                old(self)@.takes_registration(generation, expires_at, now),
            ),
            final(self)@ == old(self)@.granted(generation, expires_at, now),
    {
        if generation != self.generation || !self.auth || !self.reservation || expires_at <= now {
            self.registration_expires_at = 0;
            self.state = AvailabilityState::Degraded;
            return AvailabilityAction::Publish(false);
        }
        self.registration_expires_at = expires_at;
        let left: i64 = saturating_sub(saturating_sub(expires_at, now), 5);
        let latest: i64 = if left < 1 {
            1
        } else {
            left
        };
        let refresh: i64 = if (self.refresh_seconds as i64) < latest {
            self.refresh_seconds as i64
        } else {
            latest
        };
        self.refresh_at = saturating_add(now, refresh);
        self.state = AvailabilityState::Ready;
        if !self.was_ready {
            self.was_ready = true;
            self.readiness_generation = self.readiness_generation.saturating_add(1);
        }
        AvailabilityAction::Publish(true)
    }

    /// Time passed: the registration may have lapsed, or be due for a refresh.
    pub fn tick(&mut self, now: i64) -> (r: AvailabilityAction)
        ensures
            final(self)@ == old(self)@.ticked(now),
            r == old(self)@.due(now),
    {
        if self.state == AvailabilityState::Ready && now >= self.registration_expires_at {
            self.registration_expires_at = 0;
            self.state = AvailabilityState::Degraded;
            return AvailabilityAction::Publish(false);
        }
        if self.state == AvailabilityState::Ready && now >= self.refresh_at {
            return AvailabilityAction::Refresh;
        }
        let snapshot = self.readiness(now);
        AvailabilityAction::Publish(snapshot.auth && snapshot.reservation && snapshot.registration)
    }

    /// The reservation is gone. What still comes of its generation is stale.
    pub fn reservation_lost(&mut self) -> (r: AvailabilityAction)
        ensures
            r == AvailabilityAction::Publish(false),
            final(self)@ == old(self)@.unreserved(),
    {
        self.reservation = false;
        self.registration_expires_at = 0;
        self.was_ready = false;
        if !self.draining() {
            self.state = AvailabilityState::Degraded;
        }
        self.generation = self.generation.saturating_add(1);
        AvailabilityAction::Publish(false)
    }

    /// The session is gone, and with it all that rests on it.
    pub fn session_lost(&mut self) -> (r: AvailabilityAction)
        ensures
            r == AvailabilityAction::Authenticate,
            final(self)@ == old(self)@.signed_off(),
    {
        self.auth = false;
        self.reservation = false;
        self.registration_expires_at = 0;
        self.was_ready = false;
        self.state = AvailabilityState::Degraded;
        AvailabilityAction::Authenticate
    }

    /// The registration is gone.
    pub fn registration_lost(&mut self) -> (r: AvailabilityAction)
        ensures
            r == AvailabilityAction::Publish(false),
            final(self)@ == old(self)@.unregistered(),
    {
        self.registration_expires_at = 0;
        self.was_ready = false;
        if !self.draining() {
            self.state = AvailabilityState::Degraded;
        }
        AvailabilityAction::Publish(false)
    }

    /// The server closes down.
    pub fn begin_shutdown(&mut self) -> (r: AvailabilityAction)
        ensures
            r == AvailabilityAction::Withdraw,
            final(self)@ == old(self)@.closing(),
    {
        self.state = AvailabilityState::Draining;
        self.was_ready = false;
        AvailabilityAction::Withdraw
    }

    pub fn withdrawn(&mut self)
        ensures
            final(self)@ == (AvailabilityModel { state: AvailabilityState::Withdrawn, ..old(self)@ }),
    {
        self.state = AvailabilityState::Withdrawn;
    }

    pub fn stopped(&mut self)
        ensures
            final(self)@ == (AvailabilityModel { state: AvailabilityState::Stopped, ..old(self)@ }),
    {
        self.state = AvailabilityState::Stopped;
    }

    /// What the server can show at a time.
    pub fn readiness(&self, now: i64) -> (r: AvailabilitySnapshot)
        ensures
            r == self@.snapshot(now),
    {
        AvailabilitySnapshot {
            auth: self.auth && !self.draining(),
            reservation: self.reservation && !self.draining(),
            registration: self.registration_expires_at > now && !self.draining(),
            draining: self.draining(),
            generation: self.readiness_generation,
        }
    }

    fn draining(&self) -> (r: bool)
        ensures
            r == self@.draining(),
    {
        self.state == AvailabilityState::Draining || self.state == AvailabilityState::Withdrawn
            || self.state == AvailabilityState::Stopped
    }
}

/// A server can be reached only with a session, a reservation and a
/// registration that has not expired, and never while it is closing down.
pub proof fn law_available_needs_everything(m: AvailabilityModel, now: i64)
    requires
        m.available(now),
    ensures
        m.auth,
        m.reservation,
        m.registration_expires_at > now,
        !m.draining(),
{
}

/// A refresh is due before the registration expires, if the registration lives
/// for more than a second.
pub proof fn law_refresh_comes_before_expiry(m: AvailabilityModel, expires_at: i64, now: i64)
    requires
        expires_at - now > 1,
    ensures
        now <= m.registered(expires_at, now).refresh_at < expires_at,
{
}

proof fn lemma_generations_ascend(m: AvailabilityModel, calls: Seq<AvailabilityCall>)
    ensures
        m.after_calls(calls).generation >= m.generation,
    decreases calls.len(),
{
    if calls.len() > 0 {
        lemma_generations_ascend(m, calls.drop_last());
    }
}

/// Once a reservation is lost, nothing of its generation is taken any more,
/// whatever is reported in between.
pub proof fn law_lost_generations_stay_lost(
    m: AvailabilityModel,
    calls: Seq<AvailabilityCall>,
    generation: u64,
    expires_at: i64,
    now: i64,
)
    requires
        generation <= m.generation,
        m.generation < u64::MAX,
    ensures
        ({
            let later = m.unreserved().after_calls(calls);
            &&& later.generation > m.generation
            &&& !later.takes_reservation(generation)
            &&& later.reserved(generation) == later
            &&& !later.takes_registration(generation, expires_at, now)
        }),
{
    lemma_generations_ascend(m.unreserved(), calls);
}

/// A lost reservation leaves the server unreachable until there is both a new
/// reservation and a new registration.
pub proof fn law_loss_makes_unavailable(m: AvailabilityModel, now: i64)
    requires
        0 <= now,
    ensures
        !m.unreserved().available(now),
        !m.signed_off().available(now),
        !m.unregistered().available(now),
        !m.closing().available(now),
{
}

/// A server that has a session, a reservation and a registration can be reached
/// until the registration expires, and not a moment longer.
pub proof fn law_reachable_while_everything_stands(m: AvailabilityModel, expires_at: i64, now: i64, later: i64)
    requires
        m.auth,
        m.reservation,
        !m.draining(),
        expires_at > now,
    ensures
        ({
            let standing = m.granted(m.generation, expires_at, now);
            &&& m.takes_registration(m.generation, expires_at, now)
            &&& standing.state == AvailabilityState::Ready
            &&& standing.available(later) <==> later < expires_at
            &&& standing.snapshot(now).auth && standing.snapshot(now).reservation && standing.snapshot(
                now,
            ).registration && !standing.snapshot(now).draining
            &&& standing.generation == m.generation
        }),
{
}

/// A registration of another reservation, one without a session or a
/// reservation, and one that is over already leaves the server unreachable.
pub proof fn law_registrations_need_their_reservation(
    m: AvailabilityModel,
    generation: u64,
    expires_at: i64,
    now: i64,
    later: i64,
)
    requires
        0 <= later,
        generation != m.generation || !m.auth || !m.reservation || expires_at <= now,
    ensures
        !m.takes_registration(generation, expires_at, now),
        !m.granted(generation, expires_at, now).available(later),
        m.granted(generation, expires_at, now).state == AvailabilityState::Degraded,
{
}

/// From a start on, signing in, a reservation and a registration lead to a
/// server that can be reached, one after the other.
pub proof fn law_the_way_to_be_reached(
    instance_id: [u8; 16],
    refresh_seconds: u16,
    generation: u64,
    expires_at: i64,
    now: i64,
)
    requires
        0 <= now < expires_at,
    ensures
        ({
            let start = AvailabilityModel::starting(instance_id, refresh_seconds);
            let signed = start.called(AvailabilityCall::AuthReady);
            let reserved = signed.called(AvailabilityCall::ReservationReady { generation });
            let ready = reserved.called(AvailabilityCall::Registered { generation, expires_at, now });
            &&& !start.available(now) && !signed.available(now) && !reserved.available(now)
            &&& signed.state == AvailabilityState::Reserving
            &&& signed.takes_reservation(generation)
            &&& reserved.state == AvailabilityState::RelayReady && reserved.generation == generation
            &&& ready.available(now) && ready.readiness_generation == 1
            &&& ready.instance_id == instance_id
        }),
{
}

/// A reservation counts only with a session, not for a generation that is past,
/// and not while the server closes down.
pub proof fn law_reservations_need_a_session(m: AvailabilityModel, generation: u64)
    ensures
        m.takes_reservation(generation) <==> m.auth && generation >= m.generation && m.state
            != AvailabilityState::Draining && m.state != AvailabilityState::Withdrawn && m.state
            != AvailabilityState::Stopped,
        m.takes_reservation(generation) ==> m.reserved(generation).reservation && m.reserved(
            generation,
        ).generation == generation && m.reserved(generation).state == AvailabilityState::RelayReady && m.reserved(
            generation,
        ).auth == m.auth && m.reserved(generation).registration_expires_at == m.registration_expires_at,
        !m.takes_reservation(generation) ==> m.reserved(generation) == m,
{
}

/// Losing the reservation takes the registration and the generation with it;
/// losing the session takes both; losing the registration takes nothing else.
pub proof fn law_losses_take_what_rests_on_them(m: AvailabilityModel)
    ensures
        ({
            let reservation = m.called(AvailabilityCall::ReservationLost);
            let session = m.called(AvailabilityCall::SessionLost);
            let registration = m.called(AvailabilityCall::RegistrationLost);
            &&& !reservation.reservation && reservation.registration_expires_at == 0 && reservation.auth
                == m.auth && !reservation.was_ready
            &&& m.generation < u64::MAX ==> reservation.generation == m.generation + 1
            &&& !session.auth && !session.reservation && session.registration_expires_at == 0
                && session.generation == m.generation && session.state == AvailabilityState::Degraded
                && !session.was_ready
            &&& registration.registration_expires_at == 0 && registration.auth == m.auth
                && registration.reservation == m.reservation && registration.generation == m.generation
                && !registration.was_ready
            &&& m.draining() ==> reservation.state == m.state && registration.state == m.state
            &&& !m.draining() ==> reservation.state == AvailabilityState::Degraded && registration.state
                == AvailabilityState::Degraded
        }),
{
}

/// As time passes, a ready server is told to refresh from the time that was set
/// on, and that it is unreachable once the registration has expired. In between
/// it is told whether it can be reached.
pub proof fn law_time_tells_what_is_due(m: AvailabilityModel, now: i64)
    ensures
        m.state == AvailabilityState::Ready && now >= m.registration_expires_at ==> m.due(now)
            == AvailabilityAction::Publish(false) && m.ticked(now).state == AvailabilityState::Degraded
            && m.ticked(now).registration_expires_at == 0,
        m.state == AvailabilityState::Ready && m.refresh_at <= now < m.registration_expires_at ==> m.due(now)
            == AvailabilityAction::Refresh && m.ticked(now) == m,
        !(m.state == AvailabilityState::Ready && (now >= m.registration_expires_at || now
            >= m.refresh_at)) ==> m.due(now) == AvailabilityAction::Publish(
            m.auth && m.reservation && m.registration_expires_at > now && !m.draining(),
        ) && m.ticked(now) == m,
{
}

/// A refresh is due after the configured time, or five seconds before the
/// registration expires if that is earlier, but never within the first second.
pub proof fn law_refreshes_keep_their_distance(m: AvailabilityModel, expires_at: i64, now: i64)
    requires
        0 <= now < expires_at,
        now + 65_536 <= i64::MAX,
    ensures
        ({
            let at = m.registered(expires_at, now).refresh_at;
            &&& at <= now + m.refresh_seconds
            &&& expires_at - now >= 6 ==> at <= expires_at - 5 && (at == now + m.refresh_seconds || at
                == expires_at - 5)
            &&& expires_at - now < 6 ==> at == now + if m.refresh_seconds < 1 {
                0int
            } else {
                1int
            }
        }),
{
}

/// Every time that a server becomes reachable after it was not is counted, and
/// staying reachable is not.
pub proof fn law_becoming_reachable_is_counted(m: AvailabilityModel, expires_at: i64, now: i64)
    requires
        m.readiness_generation < u64::MAX,
    ensures
        ({
            let once = m.registered(expires_at, now);
            &&& once.readiness_generation == m.readiness_generation + if m.was_ready {
                0int
            } else {
                1int
            }
            &&& once.registered(expires_at, now).readiness_generation == once.readiness_generation
            &&& !once.called(AvailabilityCall::RegistrationLost).was_ready
            &&& !once.called(AvailabilityCall::BeginShutdown).was_ready
        }),
{
}

/// A server that closes down can show nothing any more: not while it drains, not
/// once it is withdrawn, and not once it has stopped.
pub proof fn law_closing_servers_show_nothing(m: AvailabilityModel, now: i64)
    ensures
        ({
            let closing = m.called(AvailabilityCall::BeginShutdown);
            let withdrawn = closing.called(AvailabilityCall::Withdrawn);
            let stopped = withdrawn.called(AvailabilityCall::Stopped);
            let shows = |s: AvailabilitySnapshot| s.auth || s.reservation || s.registration;
            &&& closing.state == AvailabilityState::Draining && closing.draining() && !shows(
                closing.snapshot(now),
            ) && closing.snapshot(now).draining
            &&& withdrawn.state == AvailabilityState::Withdrawn && withdrawn.draining() && !shows(
                withdrawn.snapshot(now),
            )
            &&& stopped.state == AvailabilityState::Stopped && stopped.draining() && !shows(
                stopped.snapshot(now),
            )
            &&& m.draining() <==> m.state == AvailabilityState::Draining || m.state
                == AvailabilityState::Withdrawn || m.state == AvailabilityState::Stopped
            &&& m.snapshot(now).generation == m.readiness_generation
        }),
{
}

/// Signing in again takes up what still stands: with a reservation and a
/// registration the server is ready, with a reservation it can register, and
/// without one it reserves.
pub proof fn law_signing_in_takes_up_what_stands(m: AvailabilityModel)
    ensures
        ({
            let signed = m.called(AvailabilityCall::AuthReady);
            &&& signed == (AvailabilityModel { auth: true, state: signed.state, ..m })
            &&& m.reservation && m.registration_expires_at > 0 ==> signed.state == AvailabilityState::Ready
            &&& m.reservation && m.registration_expires_at <= 0 ==> signed.state
                == AvailabilityState::RelayReady
            &&& !m.reservation ==> signed.state == AvailabilityState::Reserving
        }),
{
}

/// Signing in asks for a reservation of the current generation; a reservation that
/// counts asks for a registration, and one that does not shows nothing.
pub proof fn law_each_step_asks_for_the_next(
    availability: &mut Availability,
    signed: AvailabilityAction,
    reserving: &mut Availability,
    generation: u64,
    reserved: AvailabilityAction,
)
    requires
        call_ensures(Availability::auth_ready, (availability,), signed),
        call_ensures(Availability::reservation_ready, (reserving, generation), reserved),
    ensures
        signed == AvailabilityAction::Reserve(old(availability)@.generation),
        final(availability)@.auth,
        final(availability)@.generation == old(availability)@.generation,
        ({
            let before = old(reserving)@;
            let open = before.state != AvailabilityState::Draining && before.state
                != AvailabilityState::Withdrawn && before.state != AvailabilityState::Stopped;
            if generation >= before.generation && before.auth && open {
                &&& reserved == AvailabilityAction::Register(generation)
                &&& final(reserving)@.reservation
                &&& final(reserving)@.generation == generation
                &&& final(reserving)@.state == AvailabilityState::RelayReady
            } else {
                &&& reserved == AvailabilityAction::Publish(false)
                &&& final(reserving)@ == before
            }
        }),
{
}

/// A registration is shown if it is of the current generation, rests on a session
/// and a reservation, and has not run out; any other takes the server down.
pub proof fn law_registrations_are_shown_while_they_count(
    availability: &mut Availability,
    generation: u64,
    expires_at: i64,
    now: i64,
    r: AvailabilityAction,
)
    requires
        call_ensures(Availability::registered, (availability, generation, expires_at, now), r),
    ensures
        ({
            let before = old(availability)@;
            let after = final(availability)@;
            if generation == before.generation && before.auth && before.reservation && now < expires_at {
                &&& r == AvailabilityAction::Publish(true)
                &&& after.state == AvailabilityState::Ready
                &&& after.registration_expires_at == expires_at
            } else {
                &&& r == AvailabilityAction::Publish(false)
                &&& after.state == AvailabilityState::Degraded
                &&& after.registration_expires_at == 0
            }
        }),
{
}

/// Each loss is answered in its own way: without a session the server signs in
/// again, without a reservation or a registration it is not shown, and a server
/// that closes down withdraws.
pub proof fn law_losses_are_answered(
    a: &mut Availability,
    reservation_lost: AvailabilityAction,
    b: &mut Availability,
    session_lost: AvailabilityAction,
    c: &mut Availability,
    registration_lost: AvailabilityAction,
    d: &mut Availability,
    closing: AvailabilityAction,
)
    requires
        call_ensures(Availability::reservation_lost, (a,), reservation_lost),
        call_ensures(Availability::session_lost, (b,), session_lost),
        call_ensures(Availability::registration_lost, (c,), registration_lost),
        call_ensures(Availability::begin_shutdown, (d,), closing),
    ensures
        reservation_lost == AvailabilityAction::Publish(false),
        !final(a)@.reservation && final(a)@.registration_expires_at == 0 && final(a)@.auth == old(a)@.auth,
        session_lost == AvailabilityAction::Authenticate,
        !final(b)@.auth && !final(b)@.reservation && final(b)@.registration_expires_at == 0,
        registration_lost == AvailabilityAction::Publish(false),
        final(c)@.registration_expires_at == 0 && final(c)@.reservation == old(c)@.reservation
            && final(c)@.auth == old(c)@.auth,
        closing == AvailabilityAction::Withdraw,
        final(d)@.state == AvailabilityState::Draining,
{
}

/// A server that has withdrawn is withdrawn, and one that has stopped is stopped;
/// nothing else changes with that.
pub proof fn law_the_end_is_marked(
    a: &mut Availability,
    withdrawn: (),
    b: &mut Availability,
    stopped: (),
    now: i64,
)
    requires
        call_ensures(Availability::withdrawn, (a,), withdrawn),
        call_ensures(Availability::stopped, (b,), stopped),
    ensures
        final(a)@.state == AvailabilityState::Withdrawn,
        final(b)@.state == AvailabilityState::Stopped,
        final(a)@.snapshot(now).draining && final(b)@.snapshot(now).draining,
        !final(a)@.available(now) && !final(b)@.available(now),
        final(a)@.generation == old(a)@.generation && final(b)@.generation == old(b)@.generation,
        final(a)@.registration_expires_at == old(a)@.registration_expires_at,
        final(b)@.registration_expires_at == old(b)@.registration_expires_at,
{
}

/// A server begins with nothing: no session, no reservation, no registration.
pub proof fn law_servers_begin_with_nothing(
    instance_id: [u8; 16],
    refresh_seconds: u16,
    r: Availability,
    now: i64,
)
    requires
        call_ensures(Availability::with_refresh_seconds, (instance_id, refresh_seconds), r),
    ensures
        r@.state == AvailabilityState::Starting,
        !r@.auth && !r@.reservation && r@.registration_expires_at == 0 && !r@.was_ready,
        r@.generation == 0 && r@.readiness_generation == 0,
        r@.instance_id == instance_id,
        r@.refresh_seconds == refresh_seconds,
        !r@.available(now),
{
}

} // verus!
