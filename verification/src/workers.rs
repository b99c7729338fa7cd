//! How many workers each peer has.
use crate::peer::PeerId;
use vstd::multiset::Multiset;
use vstd::prelude::*;

verus! {

/// One entry for each worker: the peer it works for.
pub struct Workers {
    peers: Vec<PeerId>,
}

/// The bytes of the peers in a list.
spec fn peer_list(peers: Seq<PeerId>) -> Seq<Seq<u8>> {
    Seq::new(peers.len(), |i: int| peers[i]@)
}

impl View for Workers {
    type V = Multiset<Seq<u8>>;

    closed spec fn view(&self) -> Multiset<Seq<u8>> {
        peer_list(self.peers@).to_multiset()
    }
}

impl Workers {
    /// No workers.
    pub fn new() -> (r: Self)
        ensures
            r@ == Multiset::<Seq<u8>>::empty(),
    {
        let peers: Vec<PeerId> = Vec::new();
        proof {
            broadcast use vstd::seq_lib::group_to_multiset_ensures;

            let list = peer_list(peers@);
            assert(list =~= Seq::<Seq<u8>>::empty());
            assert(list.to_multiset() =~= Multiset::<Seq<u8>>::empty()) by {
                assert forall|p: Seq<u8>| list.to_multiset().count(p) == 0 by {
                    assert(!list.contains(p));
                }
            }
        }
        Workers { peers }
    }

    /// How many workers there are.
    pub fn total(&self) -> (r: usize)
        ensures
            r == self@.len(),
    {
        proof {
            broadcast use vstd::seq_lib::group_to_multiset_ensures;

            assert(peer_list(self.peers@).to_multiset().len() == self.peers@.len());
        }
        self.peers.len()
    }

    /// How many workers a peer has.
    pub fn of_peer(&self, peer: &PeerId) -> (r: usize)
        ensures
            r == self@.count(peer@),
            r <= self@.len(),
    {
        broadcast use vstd::seq_lib::group_to_multiset_ensures;

        let ghost list = peer_list(self.peers@);
        let mut n: usize = 0;
        let mut i: usize = 0;
        proof {
            assert(list.take(0) =~= Seq::<Seq<u8>>::empty());
            assert(!list.take(0).contains(peer@));
        }
        while i < self.peers.len()
            invariant
                list == peer_list(self.peers@),
                i <= self.peers@.len(),
                n <= i,
                n == list.take(i as int).to_multiset().count(peer@),
            decreases self.peers@.len() - i,
        {
            proof {
                assert(list.take(i + 1) =~= list.take(i as int).push(list[i as int]));
                vstd::seq_lib::to_multiset_build(list.take(i as int), list[i as int]);
            }
            if self.peers[i].same(peer) {
                n = n + 1;
            }
            i = i + 1;
        }
        proof {
            assert(list.take(i as int) =~= list);
        }
        n
    }

    /// One worker more for a peer.
    pub fn start(&mut self, peer: PeerId)
        ensures
            final(self)@ == old(self)@.insert(peer@),
    {
        broadcast use vstd::seq_lib::group_to_multiset_ensures;

        let ghost before = peer_list(self.peers@);
        let ghost added = peer@;
        self.peers.push(peer);
        assert(peer_list(self.peers@) =~= before.push(added));
    }

    /// One worker less for a peer, if it has one.
    pub fn stop(&mut self, peer: &PeerId)
        ensures
            final(self)@ == old(self)@.remove(peer@),
    {
        broadcast use vstd::seq_lib::group_to_multiset_ensures;

        let ghost list = peer_list(self.peers@);
        let mut i: usize = 0;
        while i < self.peers.len()
            invariant
                list == peer_list(self.peers@),
                *self == *old(self),
                i <= self.peers@.len(),
                forall|j: int| 0 <= j < i ==> #[trigger] list[j] != peer@,
            decreases self.peers@.len() - i,
        {
            if self.peers[i].same(peer) {
                let _ = self.peers.remove(i);
                proof {
                    assert(peer_list(self.peers@) =~= list.remove(i as int));
                    vstd::seq_lib::to_multiset_remove(list, i as int);
                }
                return;
            }
            i = i + 1;
        }
        proof {
            assert(!list.contains(peer@));
            assert(list.to_multiset().remove(peer@) =~= list.to_multiset());
        }
    }
}

} // verus!
