//! Which exchange a peer trusts.
use crate::peer::{peer_id_of_text, PeerId};
use vstd::prelude::*;

verus! {

/// The exchange that is trusted, and the peers that its addresses name.
#[derive(Debug, PartialEq, Eq)]
pub struct ExchangeTrustConfig {
    pub peer_id: PeerId,
    pub addresses: Vec<PeerId>,
}

#[derive(Clone, Copy, Debug, PartialEq, Eq, Structural)]
pub enum TrustError {
    /// An address is not pinned to the configured peer.
    AddressMismatch,
    InvalidPeerId,
}

/// Whether every address names the expected peer.
pub open spec fn all_pinned(address_peer_ids: Seq<&str>, expected: Seq<u8>) -> bool {
    forall|i: int|
        0 <= i < address_peer_ids.len() ==> peer_id_of_text((#[trigger] address_peer_ids[i])@) == Some(
            expected,
        )
}

/// The configured peer, if every address names it.
pub fn validate_exchange_pin(peer_id: &str, address_peer_ids: &[&str]) -> (r: Result<PeerId, TrustError>)
    ensures
        match peer_id_of_text(peer_id@) {
            None => r == Err::<PeerId, TrustError>(TrustError::InvalidPeerId),
            Some(expected) => if all_pinned(address_peer_ids@, expected) {
                r matches Ok(peer) && peer@ == expected
            } else {
                r == Err::<PeerId, TrustError>(TrustError::AddressMismatch)
            },
        },
{
    let expected = match PeerId::from_text(peer_id) {
        Ok(peer) => peer,
        Err(_) => return Err(TrustError::InvalidPeerId),
    };
    let mut i: usize = 0;
    while i < address_peer_ids.len()
        invariant
            i <= address_peer_ids@.len(),
            peer_id_of_text(peer_id@) == Some(expected@),
            forall|j: int|
                0 <= j < i ==> peer_id_of_text((#[trigger] address_peer_ids@[j])@) == Some(expected@),
        decreases address_peer_ids@.len() - i,
    {
        let pinned = match PeerId::from_text(address_peer_ids[i]) {
            Ok(peer) => peer.same(&expected),
            Err(_) => false,
        };
        if !pinned {
            assert(peer_id_of_text(address_peer_ids@[i as int]@) != Some(expected@));
            return Err(TrustError::AddressMismatch);
        }
        i = i + 1;
    }
    Ok(expected)
}

/// An exchange is trusted only if every address names the peer that is
/// configured: one address that names another peer, or none, is enough to refuse
/// it, and a configured text that is no peer is refused before that.
pub proof fn law_every_address_names_the_trusted_peer(
    peer_id: &str,
    address_peer_ids: &[&str],
    i: int,
    r: Result<PeerId, TrustError>,
)
    requires
        call_ensures(validate_exchange_pin, (peer_id, address_peer_ids), r),
        0 <= i < address_peer_ids@.len(),
    ensures
        peer_id_of_text(peer_id@) is None <==> r == Err::<PeerId, TrustError>(TrustError::InvalidPeerId),
        peer_id_of_text(peer_id@) is Some && peer_id_of_text(address_peer_ids@[i]@) != peer_id_of_text(
            peer_id@,
        ) ==> r == Err::<PeerId, TrustError>(TrustError::AddressMismatch),
        r matches Ok(peer) ==> peer_id_of_text(peer_id@) == Some(peer@) && peer_id_of_text(
            address_peer_ids@[i]@,
        ) == Some(peer@),
        peer_id_of_text(peer_id@) is Some && (forall|j: int|
            0 <= j < address_peer_ids@.len() ==> peer_id_of_text((#[trigger] address_peer_ids@[j])@)
                == peer_id_of_text(peer_id@)) ==> r is Ok,
{
}

} // verus!
