//! What a server keeps about its link to the exchange.
use crate::auth_state::AuthState;
use crate::clock::{clamp_i64, saturating_add};
use crate::ids::Tenant;
use crate::peer::ConnectionId;
use crate::registry_operation::{backoff_with_jitter, jittered_backoff};
use crate::table::Table;
use vstd::prelude::*;

verus! {

/// The address that comes after one, round and round.
pub open spec fn next_place(place: nat, count: nat) -> nat {
    (place % count + 1) % count
}

/// The place that a cursor reaches in so many steps.
pub open spec fn place_after(place: nat, count: nat, steps: nat) -> nat
    decreases steps,
{
    if steps == 0 {
        place % count
    } else {
        next_place(place_after(place, count, (steps - 1) as nat), count)
    }
}

/// Which of the exchange's addresses is tried next.
#[derive(Debug)]
pub struct AddressCursor {
    place: usize,
}

impl View for AddressCursor {
    type V = nat;

    closed spec fn view(&self) -> nat {
        self.place as nat
    }
}

impl AddressCursor {
    /// Starts with the first address.
    pub fn new() -> (r: Self)
        ensures
            r@ == 0,
    {
        AddressCursor { place: 0 }
    }

    /// The address to try now, if there is one.
    pub fn next(&mut self, count: usize) -> (r: Option<usize>)
        ensures
            match r {
                Some(place) => count > 0 && place as nat == old(self)@ % (count as nat) && final(self)@
                    == next_place(old(self)@, count as nat),
                None => count == 0 && final(self)@ == old(self)@,
            },
    {
        if count == 0 {
            return None;
        }
        let place: usize = self.place % count;
        self.place = if place == count - 1 {
            0
        } else {
            place + 1
        };
        proof {
            if place == count - 1 {
                assert((place + 1) as nat % (count as nat) == 0) by (nonlinear_arith)
                    requires
                        place + 1 == count,
                        count > 0,
                ;
            } else {
                vstd::arithmetic::div_mod::lemma_small_mod((place + 1) as nat, count as nat);
            }
        }
        Some(place)
    }
}

/// A cursor that has taken some steps has moved on by as many addresses.
pub proof fn lemma_place_after(place: nat, count: nat, steps: nat)
    requires
        count > 0,
    ensures
        place_after(place, count, steps) == (place + steps) % count,
    decreases steps,
{
    if steps > 0 {
        let before = (steps - 1) as nat;
        lemma_place_after(place, count, before);
        vstd::arithmetic::div_mod::lemma_mod_twice((place + before) as int, count as int);
        vstd::arithmetic::div_mod::lemma_add_mod_noop(
            (place + before) as int,
            1,
            count as int,
        );
        vstd::arithmetic::div_mod::lemma_add_mod_noop(
            ((place + before) % count) as int,
            1,
            count as int,
        );
    }
}

/// A cursor comes by every address: whichever is wanted, it is tried within one
/// round.
pub proof fn law_cursor_visits_every_address(place: nat, count: nat, wanted: nat)
    requires
        wanted < count,
    ensures
        exists|steps: nat| steps < count && #[trigger] place_after(place, count, steps) == wanted,
{
    let at = place % count;
    let steps = if wanted >= at {
        (wanted - at) as nat
    } else {
        (wanted + count - at) as nat
    };
    assert(at < count) by {
        vstd::arithmetic::div_mod::lemma_mod_bound(place as int, count as int);
    }
    lemma_place_after(place, count, steps);
    assert((place + steps) % count == wanted) by {
        vstd::arithmetic::div_mod::lemma_fundamental_div_mod(place as int, count as int);
        let rounds = place as int / count as int;
        if wanted >= at {
            assert(place + steps == count * rounds + wanted);
            vstd::arithmetic::div_mod::lemma_fundamental_div_mod_converse(
                (place + steps) as int,
                count as int,
                rounds,
                wanted as int,
            );
        } else {
            assert(place + steps == count * (rounds + 1) + wanted) by (nonlinear_arith)
                requires
                    place + steps == count * rounds + wanted + count,
            ;
            vstd::arithmetic::div_mod::lemma_fundamental_div_mod_converse(
                (place + steps) as int,
                count as int,
                rounds + 1,
                wanted as int,
            );
        }
    }
}

/// When the exchange is dialed again.
#[derive(Debug)]
pub struct RedialBackoff {
    attempts: u32,
    due_at: Option<i64>,
}

pub struct BackoffModel {
    pub attempts: u32,
    /// When the exchange is to be dialed, in milliseconds.
    pub due_at: Option<i64>,
}

impl View for RedialBackoff {
    type V = BackoffModel;

    closed spec fn view(&self) -> BackoffModel {
        BackoffModel { attempts: self.attempts, due_at: self.due_at }
    }
}

/// One attempt more.
pub open spec fn one_more(attempts: u32) -> u32 {
    if attempts == u32::MAX {
        attempts
    } else {
        (attempts + 1) as u32
    }
}

impl BackoffModel {
    /// Nothing is to be dialed, and nothing has failed.
    pub open spec fn fresh() -> Self {
        BackoffModel { attempts: 0, due_at: None }
    }

    /// After one failure more.
    pub open spec fn scheduled(self, now_millis: i64, jitter: i16) -> Self {
        BackoffModel {
            attempts: one_more(self.attempts),
            due_at: Some(clamp_i64(now_millis + jittered_backoff(one_more(self.attempts), jitter))),
        }
    }

    /// Whether the exchange is to be dialed now.
    pub open spec fn is_due(self, now_millis: i64) -> bool {
        self.due_at matches Some(due) && now_millis >= due
    }

    /// Once it was said whether the exchange is to be dialed now.
    pub open spec fn told(self, now_millis: i64) -> Self {
        if self.is_due(now_millis) {
            BackoffModel { due_at: None, ..self }
        } else {
            self
        }
    }
}

impl RedialBackoff {
    /// Nothing is to be dialed.
    pub fn new() -> (r: Self)
        ensures
            r@ == BackoffModel::fresh(),
    {
        RedialBackoff { attempts: 0, due_at: None }
    }

    /// Dials again later, and later still after every attempt.
    pub fn schedule(&mut self, now_millis: i64, jitter: i16)
        ensures
            final(self)@ == old(self)@.scheduled(now_millis, jitter),
    {
        self.attempts = self.attempts.saturating_add(1);
        let delay: i64 = backoff_with_jitter(self.attempts, jitter);
        self.due_at = Some(saturating_add(now_millis, delay));
    }

    /// The exchange was reached.
    pub fn reset(&mut self)
        ensures
            final(self)@ == BackoffModel::fresh(),
    {
        self.attempts = 0;
        self.due_at = None;
    }

    /// Whether the exchange is to be dialed now. It is said once.
    pub fn take_due(&mut self, now_millis: i64) -> (r: bool)
        ensures
            r == old(self)@.is_due(now_millis),
            final(self)@ == old(self)@.told(now_millis),
    {
        match self.due_at {
            Some(due) => if now_millis >= due {
                self.due_at = None;
                true
            } else {
                false
            },
            None => false,
        }
    }
}

/// What the end of a connection means for the link.
#[derive(Clone, Copy, Debug, PartialEq, Eq, Structural)]
pub enum ConnectionLoss {
    /// The connection was none to the exchange.
    Unknown,
    /// The exchange can still be reached over another connection.
    Remaining,
    /// It was the last one.
    Final,
}

/// What the end of a connection means, if some are open.
pub open spec fn loss_among(open: Set<ConnectionId>, connection: ConnectionId) -> ConnectionLoss {
    if !open.contains(connection) {
        ConnectionLoss::Unknown
    } else if open.remove(connection) == Set::<ConnectionId>::empty() {
        ConnectionLoss::Final
    } else {
        ConnectionLoss::Remaining
    }
}

/// The connections to the exchange.
pub struct ExchangeConnections {
    open: Table<ConnectionId, ()>,
}

impl View for ExchangeConnections {
    type V = Set<ConnectionId>;

    closed spec fn view(&self) -> Set<ConnectionId> {
        self.open@.dom()
    }
}

impl ExchangeConnections {
    /// There is none.
    pub fn new() -> (r: Self)
        ensures
            r@ == Set::<ConnectionId>::empty(),
    {
        let r = ExchangeConnections { open: Table::new() };
        assert(r@ =~= Set::<ConnectionId>::empty());
        r
    }

    /// A connection was made.
    pub fn established(&mut self, connection: ConnectionId)
        ensures
            final(self)@ == old(self)@.insert(connection),
    {
        let ghost before = self.open@;
        self.open.insert(connection, ());
        assert(self.open@.dom() =~= before.dom().insert(connection));
    }

    /// A connection ended.
    pub fn closed(&mut self, connection: ConnectionId) -> (r: ConnectionLoss)
        ensures
            final(self)@ == old(self)@.remove(connection),
            r == loss_among(old(self)@, connection),
    {
        let ghost before = self.open@;
        let known = self.open.remove(&connection);
        assert(self.open@.dom() =~= before.dom().remove(connection));
        if known.is_none() {
            return ConnectionLoss::Unknown;
        }
        let left: usize = self.open.len();
        proof {
            if left == 0 {
                self.open@.dom().lemma_len0_is_empty();
            } else {
                assert(self.open@.dom().len() != 0);
            }
        }
        if left == 0 {
            ConnectionLoss::Final
        } else {
            ConnectionLoss::Remaining
        }
    }
}

/// Requests of which one at a time is on its way.
#[derive(Debug)]
pub struct PendingRequest {
    request: Option<u64>,
}

impl View for PendingRequest {
    type V = Option<u64>;

    closed spec fn view(&self) -> Option<u64> {
        self.request
    }
}

/// What is on its way after a request was sent.
pub open spec fn after_begin(pending: Option<u64>, request: u64) -> Option<u64> {
    match pending {
        Some(_) => pending,
        None => Some(request),
    }
}

/// What is on its way after a request was answered or failed.
pub open spec fn after_completion(pending: Option<u64>, request: u64) -> Option<u64> {
    if pending == Some(request) {
        None
    } else {
        pending
    }
}

impl PendingRequest {
    /// None is on its way.
    pub fn new() -> (r: Self)
        ensures
            r@ is None,
    {
        PendingRequest { request: None }
    }

    /// A request was sent; it counts if no other is on its way.
    pub fn begin(&mut self, request: u64) -> (r: bool)
        ensures
            r == old(self)@ is None,
            final(self)@ == after_begin(old(self)@, request),
    {
        if self.request.is_some() {
            return false;
        }
        self.request = Some(request);
        true
    }

    /// A request was answered or failed: whether it is the one that counts.
    pub fn complete(&mut self, request: u64) -> (r: bool)
        ensures
            r == (old(self)@ == Some(request)),
            final(self)@ == after_completion(old(self)@, request),
    {
        match self.request {
            Some(pending) => if pending == request {
                self.request = None;
                true
            } else {
                false
            },
            None => false,
        }
    }

    /// No answer is waited for any more.
    pub fn clear(&mut self)
        ensures
            final(self)@ is None,
    {
        self.request = None;
    }
}

/// What the exchange granted with a session.
#[derive(Debug)]
pub struct ExchangeSession {
    pub session_id: [u8; 16],
    pub tenant: Tenant,
    pub authorization_revision: u64,
    pub expires_at: i64,
}

/// The session that requests can be made under now.
pub fn current_session<'a>(
    auth: &AuthState,
    session: &'a Option<ExchangeSession>,
    now: i64,
) -> (r: Option<&'a ExchangeSession>)
    ensures
        match r {
            Some(current) => auth@.phase is Authenticated && *session == Some(*current)
                && current.expires_at > now,
            None => auth@.phase !is Authenticated || session is None
                || session->Some_0.expires_at <= now,
        },
{
    match session {
        Some(granted) => if auth.ready() && granted.expires_at > now {
            Some(granted)
        } else {
            None
        },
        None => None,
    }
}

/// A link that failed is dialed again after a wait that doubles with every
/// failure in a row, from a quarter of a second up to eight seconds, and once
/// for each failure: from its time on that is said, and then not again before
/// the next failure.
pub proof fn law_failed_links_are_dialed_again_once(
    m: BackoffModel,
    now_millis: i64,
    before: i64,
    later: i64,
    latest: i64,
)
    requires
        m.attempts < u32::MAX,
        0 <= now_millis <= i64::MAX - 8_800,
        before < now_millis + 250,
        now_millis + 8_000 <= later <= latest,
    ensures
        ({
            let failed = m.scheduled(now_millis, 0);
            let again = failed.scheduled(now_millis, 0);
            &&& failed.attempts == m.attempts + 1
            &&& failed.due_at matches Some(due) && now_millis + 250 <= due <= now_millis + 8_000
            &&& m.attempts == 0 ==> failed.due_at == Some((now_millis + 250) as i64)
            &&& m.attempts == 1 ==> failed.due_at == Some((now_millis + 500) as i64)
            &&& m.attempts < u32::MAX - 1 && m.attempts > 0 ==> again.due_at->Some_0 - now_millis == if 2 * (
            failed.due_at->Some_0 - now_millis) < 8_000 {
                2 * (failed.due_at->Some_0 - now_millis)
            } else {
                8_000
            }
            &&& !failed.is_due(before) && failed.told(before) == failed
            &&& failed.is_due(later)
            &&& !failed.told(later).is_due(latest)
            &&& failed.told(later).attempts == failed.attempts
        }),
{
}

/// A link that was reached starts over: nothing is due, and the next failure
/// waits as the first one did.
pub proof fn law_reached_links_start_over(now_millis: i64, later: i64)
    requires
        0 <= now_millis <= i64::MAX - 8_800,
    ensures
        !BackoffModel::fresh().is_due(later),
        BackoffModel::fresh().scheduled(now_millis, 0).due_at == Some((now_millis + 250) as i64),
        BackoffModel::fresh().scheduled(now_millis, 0).attempts == 1,
{
}

/// The link is lost with its last connection and not before: while another one
/// is open it remains, and connections that were not open do not matter.
pub proof fn law_the_link_ends_with_its_last_connection(
    open: Set<ConnectionId>,
    connection: ConnectionId,
    other: ConnectionId,
)
    ensures
        !open.contains(connection) ==> loss_among(open, connection) == ConnectionLoss::Unknown,
        open.contains(connection) && open.contains(other) && other != connection ==> loss_among(
            open,
            connection,
        ) == ConnectionLoss::Remaining,
        loss_among(Set::empty().insert(connection), connection) == ConnectionLoss::Final,
        loss_among(open, connection) == ConnectionLoss::Final ==> !open.remove(connection).contains(other),
        loss_among(open.remove(connection), connection) == ConnectionLoss::Unknown,
{
    if open.contains(other) && other != connection {
        assert(open.remove(connection).contains(other));
    }
    assert(Set::empty().insert(connection).remove(connection) =~= Set::<ConnectionId>::empty());
}

/// One request at a time is on its way, the first that was sent; it is answered
/// once, by its own number.
pub proof fn law_one_request_is_on_its_way(pending: Option<u64>, first: u64, second: u64)
    ensures
        after_begin(None, first) == Some(first),
        after_begin(after_begin(None, first), second) == Some(first),
        after_completion(after_begin(None, first), first) is None,
        first != second ==> after_completion(after_begin(None, first), second) == Some(first),
        after_completion(None, first) is None,
        pending is Some ==> after_begin(pending, first) == pending,
{
}

/// Requests can be made under a session that was granted, is served and has not
/// expired, and under no other.
pub proof fn law_sessions_are_used_while_they_last(
    auth: &AuthState,
    session: &Option<ExchangeSession>,
    now: i64,
    r: Option<&ExchangeSession>,
)
    requires
        call_ensures(current_session, (auth, session, now), r),
    ensures
        r is Some <==> auth@.phase is Authenticated && (*session matches Some(granted) && now
            < granted.expires_at),
        r matches Some(current) ==> *session == Some(*current),
{
}

/// The addresses are taken in turn: each call gives the next place, and after the
/// last the first again.
pub proof fn law_addresses_are_taken_in_turn(
    a: &mut AddressCursor,
    count: usize,
    first: Option<usize>,
    b: &mut AddressCursor,
    second: Option<usize>,
)
    requires
        call_ensures(AddressCursor::next, (a, count), first),
        call_ensures(AddressCursor::next, (b, count), second),
        *old(b) == *final(a),
    ensures
        first is Some <==> count > 0,
        first is Some ==> first->0 < count && second is Some && second->0 < count,
        first is Some && first->0 + 1 < count ==> second->0 == first->0 + 1,
        first is Some && first->0 + 1 == count ==> second->0 == 0,
        count == 0 ==> final(a)@ == old(a)@,
{
    if count > 0 {
        let c = count as int;
        let place = first->0 as int;
        if place + 1 < c {
            vstd::arithmetic::div_mod::lemma_small_mod((place + 1) as nat, count as nat);
        } else {
            vstd::arithmetic::div_mod::lemma_mod_self_0(c);
            vstd::arithmetic::div_mod::lemma_small_mod(0, count as nat);
        }
        assert(final(a)@ == (place + 1) % c);
    }
}

/// A session counts while the exchange has authenticated it and it has not run out.
pub proof fn law_sessions_count_until_they_run_out(
    auth: AuthState,
    session: Option<ExchangeSession>,
    now: i64,
    r: Option<&ExchangeSession>,
)
    requires
        call_ensures(current_session, (&auth, &session, now), r),
    ensures
        r is Some <==> auth@.phase is Authenticated && session is Some && now < session->0.expires_at,
        r is Some ==> *r->0 == session->0,
{
}

} // verus!
