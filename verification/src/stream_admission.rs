//! How many streams are let through, in all, for a client and for a service.
use crate::bytes::same_bytes;
use crate::error::PublicErrorCode;
use crate::ids::UpstreamId;
use crate::peer::PeerId;
use crate::table::{count, kept, Key, Table};
use vstd::prelude::*;

verus! {

#[derive(Clone, Copy, Debug, PartialEq, Eq, Structural)]
pub enum StreamPhase {
    /// The upstream is being connected.
    Dialing,
    /// Data flows.
    Active,
}

struct Entry {
    peer: PeerId,
    service: UpstreamId,
    phase: StreamPhase,
}

/// A stream that was let through.
#[verifier::ext_equal]
pub struct EntryModel {
    pub peer: Seq<u8>,
    pub service: Seq<char>,
    pub phase: StreamPhase,
}

impl View for Entry {
    type V = EntryModel;

    closed spec fn view(&self) -> EntryModel {
        EntryModel { peer: self.peer@, service: self.service@, phase: self.phase }
    }
}

/// The number of no stream.
pub open spec fn no_stream() -> Seq<u8> {
    Seq::new(16, |i: int| 0u8)
}

/// The right of a stream to be let through.
#[derive(Clone, Copy, Debug, PartialEq, Eq)]
pub struct AdmissionToken {
    pub stream_id: [u8; 16],
}

impl View for AdmissionToken {
    type V = Seq<u8>;

    open spec fn view(&self) -> Seq<u8> {
        self.stream_id@
    }
}

impl Key for AdmissionToken {
    fn same(&self, other: &Self) -> (r: bool) {
        same_bytes(&self.stream_id, &other.stream_id)
    }
}

impl AdmissionToken {
    pub fn new(stream_id: [u8; 16]) -> (r: Self)
        ensures
            r.stream_id == stream_id,
    {
        AdmissionToken { stream_id }
    }

    /// The token of no stream.
    pub fn empty() -> (r: Self)
        ensures
            r@ == no_stream(),
    {
        let stream_id = [0u8; 16];
        assert(stream_id@ =~= no_stream());
        AdmissionToken { stream_id }
    }

    /// Whether the token is that of no stream.
    pub fn is_empty(self) -> (r: bool)
        ensures
            r == (self@ == no_stream()),
    {
        let zero = [0u8; 16];
        assert(zero@ =~= no_stream());
        same_bytes(&self.stream_id, &zero)
    }
}

/// The streams that were let through, and how many may be.
#[verifier::ext_equal]
pub struct AdmissionModel {
    pub max_workers: usize,
    pub max_per_client: usize,
    pub max_dials: usize,
    pub entries: Map<Seq<u8>, EntryModel>,
}

/// How many streams are in a phase.
pub open spec fn in_phase(entries: Map<Seq<u8>, EntryModel>, phase: StreamPhase) -> nat {
    count(entries, |id: Seq<u8>, entry: EntryModel| entry.phase == phase)
}

/// How many streams a peer has.
pub open spec fn of_peer(entries: Map<Seq<u8>, EntryModel>, peer: Seq<u8>) -> nat {
    count(entries, |id: Seq<u8>, entry: EntryModel| entry.peer == peer)
}

/// How many streams a service has.
pub open spec fn of_service(entries: Map<Seq<u8>, EntryModel>, service: Seq<char>) -> nat {
    count(entries, |id: Seq<u8>, entry: EntryModel| entry.service == service)
}

impl AdmissionModel {
    /// Whether there is room for one stream more.
    pub open spec fn has_room(self, peer: Seq<u8>, service: Seq<char>, service_limit: usize) -> bool {
        &&& self.entries.len() < self.max_workers
        &&& in_phase(self.entries, StreamPhase::Dialing) < self.max_dials
        &&& of_service(self.entries, service) < service_limit
        &&& of_peer(self.entries, peer) < self.max_per_client
    }

    /// With a stream that starts to dial.
    pub open spec fn dialing(self, id: Seq<u8>, peer: Seq<u8>, service: Seq<char>) -> Self {
        AdmissionModel {
            entries: self.entries.insert(
                id,
                EntryModel { peer, service, phase: StreamPhase::Dialing },
            ),
            ..self
        }
    }

    /// Whether a stream is being connected.
    pub open spec fn dials(self, id: Seq<u8>) -> bool {
        self.entries.contains_key(id) && self.entries[id].phase == StreamPhase::Dialing
    }

    /// After a stream was promoted.
    pub open spec fn promoted(self, id: Seq<u8>) -> Self {
        if self.dials(id) {
            AdmissionModel {
                entries: self.entries.insert(
                    id,
                    EntryModel { phase: StreamPhase::Active, ..self.entries[id] },
                ),
                ..self
            }
        } else {
            self
        }
    }
}

/// Something that is asked of the admission of streams.
pub enum AdmissionCall {
    Reserve { id: Seq<u8>, peer: Seq<u8>, service: Seq<char>, service_limit: usize },
    Promote { id: Seq<u8> },
    Release { id: Seq<u8> },
}

impl AdmissionModel {
    /// After a stream was asked for.
    pub open spec fn reserved(self, id: Seq<u8>, peer: Seq<u8>, service: Seq<char>, limit: usize) -> Self {
        if self.has_room(peer, service, limit) {
            self.dialing(id, peer, service)
        } else {
            self
        }
    }

    /// Without a stream.
    pub open spec fn released(self, id: Seq<u8>) -> Self {
        AdmissionModel { entries: self.entries.remove(id), ..self }
    }

    /// Whatever was asked.
    pub open spec fn called(self, call: AdmissionCall) -> Self {
        match call {
            AdmissionCall::Reserve { id, peer, service, service_limit } => self.reserved(
                id,
                peer,
                service,
                service_limit,
            ),
            AdmissionCall::Promote { id } => self.promoted(id),
            AdmissionCall::Release { id } => self.released(id),
        }
    }

    /// Whatever was asked, one after the other.
    pub open spec fn after_calls(self, calls: Seq<AdmissionCall>) -> Self
        decreases calls.len(),
    {
        if calls.len() == 0 {
            self
        } else {
            self.after_calls(calls.drop_last()).called(calls.last())
        }
    }

    /// Whether no limit is exceeded, with `limits` for the services.
    pub open spec fn within_limits(self, limits: spec_fn(Seq<char>) -> usize) -> bool {
        &&& self.entries.dom().finite()
        &&& self.entries.len() <= self.max_workers
        &&& in_phase(self.entries, StreamPhase::Dialing) <= self.max_dials
        &&& forall|peer: Seq<u8>| #[trigger] of_peer(self.entries, peer) <= self.max_per_client
        &&& forall|service: Seq<char>| #[trigger] of_service(self.entries, service) <= limits(service)
    }
}

/// Whether every stream is asked for with the limit of its service.
pub open spec fn limited_by(calls: Seq<AdmissionCall>, limits: spec_fn(Seq<char>) -> usize) -> bool {
    forall|i: int|
        0 <= i < calls.len() ==> ((#[trigger] calls[i]) matches AdmissionCall::Reserve {
            service,
            service_limit,
            ..
        } ==> service_limit == limits(service))
}

/// The streams that were let through.
pub struct StreamAdmission {
    max_workers: usize,
    max_per_client: usize,
    max_dials: usize,
    entries: Table<AdmissionToken, Entry>,
}

impl View for StreamAdmission {
    type V = AdmissionModel;

    closed spec fn view(&self) -> AdmissionModel {
        AdmissionModel {
            max_workers: self.max_workers,
            max_per_client: self.max_per_client,
            max_dials: self.max_dials,
            entries: self.entries@,
        }
    }
}

impl StreamAdmission {
    pub fn new(max_workers: usize, max_per_client: usize, max_dials: usize) -> (r: Self)
        ensures
            r@ == (AdmissionModel { max_workers, max_per_client, max_dials, entries: Map::empty() }),
    {
        StreamAdmission { max_workers, max_per_client, max_dials, entries: Table::new() }
    }

    /// Whether there is room for one stream more.
    pub fn preflight(&self, peer: &PeerId, service: &UpstreamId, service_limit: usize) -> (r: Result<
        (),
        PublicErrorCode,
    >)
        ensures
            r == if self@.has_room(peer@, service@, service_limit) {
                Ok::<(), PublicErrorCode>(())
            } else {
                Err(PublicErrorCode::LimitProxyStreams)
            },
    {
        if self.entries.len() >= self.max_workers {
            return Err(PublicErrorCode::LimitProxyStreams);
        }
        if self.dialing() >= self.max_dials {
            return Err(PublicErrorCode::LimitProxyStreams);
        }
        if self.service_count(service) >= service_limit || self.peer_count(peer) >= self.max_per_client {
            return Err(PublicErrorCode::LimitProxyStreams);
        }
        Ok(())
    }

    /// Lets a stream through. A token that is in use is refused, and its stream
    /// counts as the new one.
    pub fn reserve(&mut self, token: AdmissionToken, peer: PeerId, service: UpstreamId, service_limit: usize) -> (r:
        Result<(), PublicErrorCode>)
        ensures
            final(self)@ == old(self)@.reserved(token@, peer@, service@, service_limit),
            r == if !old(self)@.has_room(peer@, service@, service_limit) {
                Err::<(), PublicErrorCode>(PublicErrorCode::LimitProxyStreams)
            } else if old(self)@.entries.contains_key(token@) {
                Err::<(), PublicErrorCode>(PublicErrorCode::ProtocolMalformed)
            } else {
                Ok(())
            },
    {
        match self.preflight(&peer, &service, service_limit) {
            Ok(()) => {},
            Err(code) => return Err(code),
        }
        let known = self.entries.contains(&token);
        self.entries.insert(token, Entry { peer, service, phase: StreamPhase::Dialing });
        if known {
            return Err(PublicErrorCode::ProtocolMalformed);
        }
        Ok(())
    }

    /// The upstream of a stream is connected. Says whether the stream was
    /// dialing.
    pub fn promote(&mut self, token: AdmissionToken) -> (r: bool)
        ensures
            r == old(self)@.dials(token@),
            final(self)@ == old(self)@.promoted(token@),
    {
        match self.entries.get(&token) {
            Some(entry) => if entry.phase != StreamPhase::Dialing {
                return false;
            },
            None => return false,
        }
        if let Some(mut entry) = self.entries.remove(&token) {
            entry.phase = StreamPhase::Active;
            self.entries.insert(token, entry);
        }
        assert(self@.entries =~= old(self)@.promoted(token@).entries);
        true
    }

    /// A stream is done. Says whether it was known.
    pub fn release(&mut self, token: AdmissionToken) -> (r: bool)
        ensures
            r == old(self)@.entries.contains_key(token@),
            final(self)@ == old(self)@.released(token@),
    {
        self.entries.remove(&token).is_some()
    }

    pub fn contains(&self, token: AdmissionToken) -> (r: bool)
        ensures
            r == self@.entries.contains_key(token@),
    {
        self.entries.contains(&token)
    }

    pub fn len(&self) -> (r: usize)
        ensures
            r == self@.entries.len(),
    {
        self.entries.len()
    }

    pub fn is_empty(&self) -> (r: bool)
        ensures
            r == (self@.entries.len() == 0),
    {
        self.entries.len() == 0
    }

    /// How many streams are being connected.
    pub fn dialing(&self) -> (r: usize)
        ensures
            r == in_phase(self@.entries, StreamPhase::Dialing),
    {
        self.count_phase(StreamPhase::Dialing)
    }

    /// In how many streams data flows.
    pub fn active(&self) -> (r: usize)
        ensures
            r == in_phase(self@.entries, StreamPhase::Active),
    {
        self.count_phase(StreamPhase::Active)
    }

    /// How many streams a peer has.
    pub fn peer_count(&self, peer: &PeerId) -> (r: usize)
        ensures
            r == of_peer(self@.entries, peer@),
    {
        let ghost bytes = peer@;
        let ghost counted = |id: Seq<u8>, entry: EntryModel| entry.peer == bytes;
        let which = |_token: &AdmissionToken, entry: &Entry| -> (b: bool)
            ensures
                b == (entry@.peer == peer@),
            { entry.peer.same(peer) };
        self.entries.count_where(which, Ghost(counted))
    }

    fn count_phase(&self, phase: StreamPhase) -> (r: usize)
        ensures
            r == in_phase(self@.entries, phase),
    {
        let ghost counted = |id: Seq<u8>, entry: EntryModel| entry.phase == phase;
        let which = |_token: &AdmissionToken, entry: &Entry| -> (b: bool)
            ensures
                b == (entry@.phase == phase),
            { entry.phase == phase };
        self.entries.count_where(which, Ghost(counted))
    }

    fn service_count(&self, service: &UpstreamId) -> (r: usize)
        ensures
            r == of_service(self@.entries, service@),
    {
        let ghost name = service@;
        let ghost counted = |id: Seq<u8>, entry: EntryModel| entry.service == name;
        let which = |_token: &AdmissionToken, entry: &Entry| -> (b: bool)
            ensures
                b == (entry@.service == service@),
            { entry.service.same(service) };
        self.entries.count_where(which, Ghost(counted))
    }
}

proof fn lemma_count_insert(
    entries: Map<Seq<u8>, EntryModel>,
    id: Seq<u8>,
    entry: EntryModel,
    which: spec_fn(Seq<u8>, EntryModel) -> bool,
)
    requires
        entries.dom().finite(),
    ensures
        count(entries.insert(id, entry), which) <= count(entries, which) + if which(id, entry) {
            1nat
        } else {
            0nat
        },
        entries.contains_key(id) && which(id, entries[id]) ==> count(entries.insert(id, entry), which)
            <= count(entries, which),
{
    let before = kept(entries, which);
    let after = kept(entries.insert(id, entry), which);
    assert(before.dom().subset_of(entries.dom()));
    vstd::set_lib::lemma_set_subset_finite(entries.dom(), before.dom());
    if which(id, entry) {
        assert(after.dom() =~= before.dom().insert(id));
    } else {
        assert(after.dom() =~= before.dom().remove(id));
    }
}

proof fn lemma_count_remove(
    entries: Map<Seq<u8>, EntryModel>,
    id: Seq<u8>,
    which: spec_fn(Seq<u8>, EntryModel) -> bool,
)
    requires
        entries.dom().finite(),
    ensures
        count(entries.remove(id), which) <= count(entries, which),
{
    let before = kept(entries, which);
    let after = kept(entries.remove(id), which);
    assert(before.dom().subset_of(entries.dom()));
    vstd::set_lib::lemma_set_subset_finite(entries.dom(), before.dom());
    assert(after.dom() =~= before.dom().remove(id));
}

proof fn lemma_limits_kept(m: AdmissionModel, call: AdmissionCall, limits: spec_fn(Seq<char>) -> usize)
    requires
        m.within_limits(limits),
        limited_by(seq![call], limits),
    ensures
        m.called(call).within_limits(limits),
{
    let after = m.called(call);
    let dials = |id: Seq<u8>, entry: EntryModel| entry.phase == StreamPhase::Dialing;
    match call {
        AdmissionCall::Reserve { id, peer, service, service_limit } => {
            assert(seq![call][0] == call);
            if m.has_room(peer, service, service_limit) {
                let entry = EntryModel { peer, service, phase: StreamPhase::Dialing };
                lemma_count_insert(m.entries, id, entry, dials);
                assert forall|p: Seq<u8>| #[trigger] of_peer(after.entries, p)
                    <= after.max_per_client by {
                    lemma_count_insert(
                        m.entries,
                        id,
                        entry,
                        |id: Seq<u8>, entry: EntryModel| entry.peer == p,
                    );
                    assert(of_peer(m.entries, p) <= m.max_per_client);
                }
                assert forall|s: Seq<char>| #[trigger] of_service(after.entries, s) <= limits(s) by {
                    lemma_count_insert(
                        m.entries,
                        id,
                        entry,
                        |id: Seq<u8>, entry: EntryModel| entry.service == s,
                    );
                    assert(of_service(m.entries, s) <= limits(s));
                }
            }
        },
        AdmissionCall::Promote { id } => {
            if m.dials(id) {
                let entry = EntryModel { phase: StreamPhase::Active, ..m.entries[id] };
                lemma_count_insert(m.entries, id, entry, dials);
                assert(after.entries.dom() =~= m.entries.dom());
                assert forall|p: Seq<u8>| #[trigger] of_peer(after.entries, p)
                    <= after.max_per_client by {
                    lemma_count_insert(
                        m.entries,
                        id,
                        entry,
                        |id: Seq<u8>, entry: EntryModel| entry.peer == p,
                    );
                    assert(of_peer(m.entries, p) <= m.max_per_client);
                }
                assert forall|s: Seq<char>| #[trigger] of_service(after.entries, s) <= limits(s) by {
                    lemma_count_insert(
                        m.entries,
                        id,
                        entry,
                        |id: Seq<u8>, entry: EntryModel| entry.service == s,
                    );
                    assert(of_service(m.entries, s) <= limits(s));
                }
            }
        },
        AdmissionCall::Release { id } => {
            lemma_count_remove(m.entries, id, dials);
            assert forall|p: Seq<u8>| #[trigger] of_peer(after.entries, p) <= after.max_per_client by {
                lemma_count_remove(m.entries, id, |id: Seq<u8>, entry: EntryModel| entry.peer == p);
                assert(of_peer(m.entries, p) <= m.max_per_client);
            }
            assert forall|s: Seq<char>| #[trigger] of_service(after.entries, s) <= limits(s) by {
                lemma_count_remove(m.entries, id, |id: Seq<u8>, entry: EntryModel| entry.service == s);
                assert(of_service(m.entries, s) <= limits(s));
            }
        },
    }
}

/// Whatever is asked, there are never more streams, never more streams being
/// connected and never more streams of a peer or of a service than there may
/// be.
pub proof fn law_limits_hold(
    m: AdmissionModel,
    calls: Seq<AdmissionCall>,
    limits: spec_fn(Seq<char>) -> usize,
)
    requires
        m.within_limits(limits),
        limited_by(calls, limits),
    ensures
        m.after_calls(calls).within_limits(limits),
    decreases calls.len(),
{
    if calls.len() > 0 {
        let before = calls.drop_last();
        assert forall|i: int| 0 <= i < before.len() implies ((#[trigger] before[i]) matches AdmissionCall::Reserve {
            service,
            service_limit,
            ..
        } ==> service_limit == limits(service)) by {
            assert(before[i] == calls[i]);
        }
        law_limits_hold(m, before, limits);
        let last = calls[calls.len() - 1];
        assert(limited_by(seq![last], limits));
        lemma_limits_kept(m.after_calls(before), last, limits);
    }
}

/// Where no stream was let through yet, no limit is exceeded.
pub proof fn law_no_streams_are_within_limits(m: AdmissionModel, limits: spec_fn(Seq<char>) -> usize)
    requires
        m.entries == Map::<Seq<u8>, EntryModel>::empty(),
    ensures
        m.within_limits(limits),
{
    assert forall|which: spec_fn(Seq<u8>, EntryModel) -> bool| #[trigger]
        count(m.entries, which) == 0 by {
        assert(kept(m.entries, which).dom() =~= Set::empty());
    }
}

/// A stream is promoted once.
pub proof fn law_promoted_once(m: AdmissionModel, id: Seq<u8>)
    ensures
        !m.promoted(id).dials(id),
        m.promoted(id).promoted(id) == m.promoted(id),
{
}

/// Letting a new stream through and releasing it leaves everything as it was.
pub proof fn law_release_undoes_reserve(m: AdmissionModel, id: Seq<u8>, peer: Seq<u8>, service: Seq<char>)
    requires
        !m.entries.contains_key(id),
    ensures
        m.dialing(id, peer, service).entries.remove(id) == m.entries,
        m.dialing(id, peer, service).promoted(id).entries.remove(id) == m.entries,
{
    assert(m.dialing(id, peer, service).entries.remove(id) =~= m.entries);
    assert(m.dialing(id, peer, service).promoted(id).entries.remove(id) =~= m.entries);
}

/// A stream that was released is not known any more, whatever else is asked,
/// until it is asked for again.
pub proof fn law_released_streams_stay_released(m: AdmissionModel, id: Seq<u8>, calls: Seq<AdmissionCall>)
    requires
        forall|i: int|
            0 <= i < calls.len() ==> !((#[trigger] calls[i]) matches AdmissionCall::Reserve {
                id: other,
                ..
            } && other == id),
    ensures
        !m.released(id).after_calls(calls).entries.contains_key(id),
    decreases calls.len(),
{
    if calls.len() > 0 {
        let before = calls.drop_last();
        assert forall|i: int| 0 <= i < before.len() implies !((
        #[trigger] before[i]) matches AdmissionCall::Reserve { id: other, .. } && other == id) by {
            assert(before[i] == calls[i]);
        }
        law_released_streams_stay_released(m, id, before);
        let last = calls[calls.len() - 1];
        assert(!(last matches AdmissionCall::Reserve { id: other, .. } && other == id));
    }
}

proof fn lemma_count_added(
    entries: Map<Seq<u8>, EntryModel>,
    id: Seq<u8>,
    entry: EntryModel,
    which: spec_fn(Seq<u8>, EntryModel) -> bool,
)
    requires
        entries.dom().finite(),
        !entries.contains_key(id),
    ensures
        count(entries.insert(id, entry), which) == count(entries, which) + if which(id, entry) {
            1nat
        } else {
            0nat
        },
{
    let before = kept(entries, which);
    let after = kept(entries.insert(id, entry), which);
    assert(before.dom().subset_of(entries.dom()));
    vstd::set_lib::lemma_set_subset_finite(entries.dom(), before.dom());
    if which(id, entry) {
        assert(after.dom() =~= before.dom().insert(id));
    } else {
        assert(after.dom() =~= before.dom());
    }
}

/// A stream that is let through is counted, once: as dialing, for its peer and
/// for its service. Once it is promoted it is counted as active in place of
/// dialing, and once it is released it is not counted any more.
pub proof fn law_streams_are_counted(
    m: AdmissionModel,
    id: Seq<u8>,
    peer: Seq<u8>,
    service: Seq<char>,
    limit: usize,
    other_peer: Seq<u8>,
    other_service: Seq<char>,
)
    requires
        m.entries.dom().finite(),
        !m.entries.contains_key(id),
        m.has_room(peer, service, limit),
        other_peer != peer,
        other_service != service,
    ensures
        ({
            let reserved = m.reserved(id, peer, service, limit);
            let promoted = reserved.promoted(id);
            let released = promoted.released(id);
            &&& reserved.entries.contains_key(id) && reserved.entries[id] == (EntryModel {
                peer,
                service,
                phase: StreamPhase::Dialing,
            })
            &&& reserved.entries.len() == m.entries.len() + 1
            &&& of_peer(reserved.entries, peer) == of_peer(m.entries, peer) + 1
            &&& of_peer(reserved.entries, other_peer) == of_peer(m.entries, other_peer)
            &&& of_service(reserved.entries, service) == of_service(m.entries, service) + 1
            &&& of_service(reserved.entries, other_service) == of_service(m.entries, other_service)
            &&& in_phase(reserved.entries, StreamPhase::Dialing) == in_phase(
                m.entries,
                StreamPhase::Dialing,
            ) + 1
            &&& in_phase(promoted.entries, StreamPhase::Dialing) == in_phase(
                m.entries,
                StreamPhase::Dialing,
            )
            &&& in_phase(promoted.entries, StreamPhase::Active) == in_phase(m.entries, StreamPhase::Active)
                + 1
            &&& of_peer(promoted.entries, peer) == of_peer(m.entries, peer) + 1
            &&& promoted.entries[id].peer == peer && promoted.entries[id].service == service
            &&& released.entries == m.entries
            &&& reserved.max_workers == m.max_workers && reserved.max_dials == m.max_dials
                && reserved.max_per_client == m.max_per_client
        }),
{
    let dialing = EntryModel { peer, service, phase: StreamPhase::Dialing };
    let active = EntryModel { peer, service, phase: StreamPhase::Active };
    let reserved = m.reserved(id, peer, service, limit);
    let promoted = reserved.promoted(id);
    assert(promoted.entries =~= m.entries.insert(id, active));
    assert(promoted.released(id).entries =~= m.entries);
    lemma_count_added(m.entries, id, dialing, |id: Seq<u8>, entry: EntryModel| entry.peer == peer);
    lemma_count_added(m.entries, id, dialing, |id: Seq<u8>, entry: EntryModel| entry.peer == other_peer);
    lemma_count_added(m.entries, id, dialing, |id: Seq<u8>, entry: EntryModel| entry.service == service);
    lemma_count_added(
        m.entries,
        id,
        dialing,
        |id: Seq<u8>, entry: EntryModel| entry.service == other_service,
    );
    lemma_count_added(
        m.entries,
        id,
        dialing,
        |id: Seq<u8>, entry: EntryModel| entry.phase == StreamPhase::Dialing,
    );
    lemma_count_added(
        m.entries,
        id,
        active,
        |id: Seq<u8>, entry: EntryModel| entry.phase == StreamPhase::Dialing,
    );
    lemma_count_added(
        m.entries,
        id,
        active,
        |id: Seq<u8>, entry: EntryModel| entry.phase == StreamPhase::Active,
    );
    lemma_count_added(m.entries, id, active, |id: Seq<u8>, entry: EntryModel| entry.peer == peer);
}

/// There is room for a stream exactly while none of the four limits is reached:
/// on streams, on streams that dial, on those of its service, and on those of
/// its peer. Without room nothing changes.
pub proof fn law_every_limit_turns_streams_away(
    m: AdmissionModel,
    id: Seq<u8>,
    peer: Seq<u8>,
    service: Seq<char>,
    limit: usize,
)
    ensures
        m.entries.len() >= m.max_workers || in_phase(m.entries, StreamPhase::Dialing) >= m.max_dials
            || of_service(m.entries, service) >= limit || of_peer(m.entries, peer) >= m.max_per_client ==> m.reserved(
            id,
            peer,
            service,
            limit,
        ) == m && !m.has_room(peer, service, limit),
        m.entries.len() < m.max_workers && in_phase(m.entries, StreamPhase::Dialing) < m.max_dials
            && of_service(m.entries, service) < limit && of_peer(m.entries, peer) < m.max_per_client
            ==> m.has_room(peer, service, limit) && m.reserved(id, peer, service, limit).dials(id),
{
}

/// Only a stream that dials is promoted, and no other stream is touched by that
/// or by a release.
pub proof fn law_streams_are_kept_apart(m: AdmissionModel, id: Seq<u8>, other: Seq<u8>)
    requires
        id != other,
    ensures
        !m.dials(id) ==> m.promoted(id) == m,
        m.dials(id) ==> m.promoted(id).entries[id].phase == StreamPhase::Active,
        m.promoted(id).entries.contains_key(other) == m.entries.contains_key(other),
        m.entries.contains_key(other) ==> m.promoted(id).entries[other] == m.entries[other],
        m.released(id).entries.contains_key(other) == m.entries.contains_key(other),
        m.entries.contains_key(other) ==> m.released(id).entries[other] == m.entries[other],
        !m.released(id).entries.contains_key(id),
{
}

/// A stream is reserved while there is room, once for each token; what is not
/// possible is told apart: no room before a token that is taken.
pub proof fn law_streams_are_reserved_while_there_is_room(
    admission: &mut StreamAdmission,
    token: AdmissionToken,
    peer: PeerId,
    service: UpstreamId,
    limit: usize,
    asked: Result<(), PublicErrorCode>,
    r: Result<(), PublicErrorCode>,
)
    requires
        call_ensures(StreamAdmission::preflight, (&*old(admission), &peer, &service, limit), asked),
        call_ensures(StreamAdmission::reserve, (admission, token, peer, service, limit), r),
    ensures
        asked is Err ==> asked == Err::<(), PublicErrorCode>(PublicErrorCode::LimitProxyStreams) && r == asked,
        asked is Ok && old(admission)@.entries.contains_key(token@) ==> r == Err::<(), PublicErrorCode>(
            PublicErrorCode::ProtocolMalformed,
        ),
        asked is Ok && !old(admission)@.entries.contains_key(token@) ==> r is Ok,
        asked is Err ==> final(admission)@ == old(admission)@,
        asked is Ok ==> {
            &&& final(admission)@.entries.contains_key(token@)
            &&& final(admission)@.entries[token@].peer == peer@
            &&& final(admission)@.entries[token@].service == service@
            &&& final(admission)@.entries[token@].phase == StreamPhase::Dialing
        },
{
}

/// A stream that is being connected becomes one in which data flows; a stream that
/// is released is gone, whatever it was.
pub proof fn law_streams_are_promoted_and_released(
    a: &mut StreamAdmission,
    token: AdmissionToken,
    promoted: bool,
    b: &mut StreamAdmission,
    released: bool,
)
    requires
        call_ensures(StreamAdmission::promote, (a, token), promoted),
        call_ensures(StreamAdmission::release, (b, token), released),
    ensures
        promoted <==> old(a)@.entries.contains_key(token@) && old(a)@.entries[token@].phase
            == StreamPhase::Dialing,
        promoted ==> final(a)@.entries[token@].phase == StreamPhase::Active && final(a)@.entries[token@].peer
            == old(a)@.entries[token@].peer,
        !promoted ==> final(a)@ == old(a)@,
        released <==> old(b)@.entries.contains_key(token@),
        !final(b)@.entries.contains_key(token@),
{
}

/// The streams that are being connected and those in which data flows are counted
/// apart.
pub proof fn law_streams_are_counted_by_phase(admission: StreamAdmission, dialing: usize, active: usize)
    requires
        call_ensures(StreamAdmission::dialing, (&admission,), dialing),
        call_ensures(StreamAdmission::active, (&admission,), active),
    ensures
        dialing == in_phase(admission@.entries, StreamPhase::Dialing),
        active == in_phase(admission@.entries, StreamPhase::Active),
{
}

} // verus!
