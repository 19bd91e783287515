//! Peer identities and sets of them.
//!
//! A peer is known by the bytes of its identity. The node never looks inside
//! them: it only tells one peer from another.

use vstd::prelude::*;

verus! {

/// The identity of a peer.
#[derive(Debug)]
pub struct PeerId {
    pub bytes: Vec<u8>,
}

impl View for PeerId {
    type V = Seq<u8>;

    open spec fn view(&self) -> Seq<u8> {
        self.bytes@
    }
}

/// The identities of the peers in `s`, in the same order.
pub open spec fn peer_views(s: Seq<PeerId>) -> Seq<Seq<u8>> {
    s.map_values(|p: PeerId| p@)
}

impl PeerId {
    /// Makes an identity from its bytes.
    pub fn new(bytes: Vec<u8>) -> (p: PeerId)
        ensures
            p@ == bytes@,
    {
        PeerId { bytes }
    }

    /// Tells whether two identities name the same peer.
    pub fn same(&self, other: &PeerId) -> (r: bool)
        ensures
            r == (self@ == other@),
    {
        if self.bytes.len() != other.bytes.len() {
            return false;
        }
        let mut i: usize = 0;
        while i < self.bytes.len()
            invariant
                i <= self.bytes.len(),
                self.bytes.len() == other.bytes.len(),
                forall|k: int| 0 <= k < i ==> self.bytes@[k] == other.bytes@[k],
            decreases self.bytes.len() - i,
        {
            if self.bytes[i] != other.bytes[i] {
                return false;
            }
            i = i + 1;
        }
        proof {
            assert(self.bytes@ =~= other.bytes@);
        }
        true
    }

    /// A second value for the same peer.
    pub fn duplicate(&self) -> (p: PeerId)
        ensures
            p@ == self@,
    {
        let mut bytes: Vec<u8> = Vec::new();
        let mut i: usize = 0;
        while i < self.bytes.len()
            invariant
                i <= self.bytes.len(),
                bytes@ == self.bytes@.subrange(0, i as int),
            decreases self.bytes.len() - i,
        {
            proof {
                assert(self.bytes@.subrange(0, i + 1) =~= self.bytes@.subrange(0, i as int).push(
                    self.bytes@[i as int],
                ));
            }
            bytes.push(self.bytes[i]);
            i = i + 1;
        }
        proof {
            assert(self.bytes@.subrange(0, i as int) =~= self.bytes@);
        }
        PeerId { bytes }
    }
}

/// A set of peers. No peer is held twice.
#[derive(Debug)]
pub struct PeerSet {
    peers: Vec<PeerId>,
}

impl View for PeerSet {
    type V = Set<Seq<u8>>;

    closed spec fn view(&self) -> Set<Seq<u8>> {
        peer_views(self.peers@).to_set()
    }
}

impl PeerSet {
    #[verifier::type_invariant]
    spec fn no_peer_twice(&self) -> bool {
        peer_views(self.peers@).no_duplicates()
    }

    /// The empty set.
    pub fn new() -> (s: PeerSet)
        ensures
            s@ == Set::<Seq<u8>>::empty(),
    {
        let s = PeerSet { peers: Vec::new() };
        proof {
            assert(peer_views(s.peers@) =~= Seq::<Seq<u8>>::empty());
            assert(s@ =~= Set::<Seq<u8>>::empty());
        }
        s
    }

    /// The number of peers in the set.
    pub fn len(&self) -> (n: usize)
        ensures
            n == self@.len(),
            self@.finite(),
    {
        proof {
            use_type_invariant(self);
            peer_views(self.peers@).unique_seq_to_set();
            vstd::seq_lib::seq_to_set_is_finite(peer_views(self.peers@));
        }
        self.peers.len()
    }

    /// Tells whether the set holds no peer.
    pub fn is_empty(&self) -> (r: bool)
        ensures
            r == (self@ == Set::<Seq<u8>>::empty()),
    {
        proof {
            if self.peers@.len() > 0 {
                assert(peer_views(self.peers@)[0] == self.peers@[0]@);
                assert(self@.contains(self.peers@[0]@));
            } else {
                assert(peer_views(self.peers@) =~= Seq::<Seq<u8>>::empty());
                assert(self@ =~= Set::<Seq<u8>>::empty());
            }
        }
        self.peers.len() == 0
    }

    /// Tells whether `peer` is in the set.
    pub fn contains(&self, peer: &PeerId) -> (r: bool)
        ensures
            r == self@.contains(peer@),
    {
        let mut i: usize = 0;
        while i < self.peers.len()
            invariant
                i <= self.peers.len(),
                forall|k: int| 0 <= k < i ==> self.peers@[k]@ != peer@,
            decreases self.peers.len() - i,
        {
            if self.peers[i].same(peer) {
                proof {
                    assert(peer_views(self.peers@)[i as int] == peer@);
                }
                return true;
            }
            i = i + 1;
        }
        proof {
            let views = peer_views(self.peers@);
            assert forall|k: int| 0 <= k < views.len() implies views[k] != peer@ by {
                assert(views[k] == self.peers@[k]@);
            }
        }
        false
    }

    /// Puts `peer` into the set. Tells whether it was new.
    pub fn insert(&mut self, peer: PeerId) -> (added: bool)
        ensures
            final(self)@ == old(self)@.insert(peer@),
            added == !old(self)@.contains(peer@),
    {
        if self.contains(&peer) {
            proof {
                assert(self@.insert(peer@) =~= self@);
            }
            return false;
        }
        proof {
            use_type_invariant(&*self);
            let before = peer_views(self.peers@);
            let after = peer_views(self.peers@.push(peer));
            assert(after =~= before.push(peer@));
            assert(!before.contains(peer@));
            assert(after.no_duplicates());
            assert(after.to_set() =~= before.to_set().insert(peer@)) by {
                assert forall|x: Seq<u8>| after.to_set().contains(x) implies before.to_set().insert(
                    peer@,
                ).contains(x) by {
                    let k = choose|k: int| 0 <= k < after.len() && after[k] == x;
                    if k < before.len() {
                        assert(before[k] == x);
                    }
                }
                assert forall|x: Seq<u8>| before.to_set().insert(peer@).contains(
                    x,
                ) implies after.to_set().contains(x) by {
                    if x == peer@ {
                        assert(after[before.len() as int] == x);
                    } else {
                        let k = choose|k: int| 0 <= k < before.len() && before[k] == x;
                        assert(after[k] == x);
                    }
                }
            }
        }
        let mut peers: Vec<PeerId> = Vec::new();
        proof {
            assert(peer_views(peers@) =~= Seq::<Seq<u8>>::empty());
        }
        core::mem::swap(&mut self.peers, &mut peers);
        peers.push(peer);
        self.peers = peers;
        true
    }

    /// Puts every peer of `peers` into the set.
    pub fn extend(&mut self, peers: Vec<PeerId>)
        ensures
            final(self)@ == old(self)@.union(peer_views(peers@).to_set()),
    {
        let mut rest = peers;
        proof {
            assert(rest@ =~= peers@);
        }
        loop
            invariant
                self@.union(peer_views(rest@).to_set()) == old(self)@.union(
                    peer_views(peers@).to_set(),
                ),
            decreases rest.len(),
        {
            let ghost before = rest@;
            let ghost held = self@;
            match rest.pop() {
                None => {
                    proof {
                        assert(peer_views(rest@).to_set() =~= Set::<Seq<u8>>::empty());
                        assert(self@.union(peer_views(rest@).to_set()) =~= self@);
                    }
                    return ;
                },
                Some(peer) => {
                    self.insert(peer);
                    proof {
                        let all = peer_views(before);
                        let fewer = peer_views(rest@);
                        assert(all =~= fewer.push(peer@));
                        assert(all.to_set() =~= fewer.to_set().insert(peer@)) by {
                            assert forall|x: Seq<u8>| all.to_set().contains(x) implies fewer.to_set().insert(
                                peer@,
                            ).contains(x) by {
                                let k = choose|k: int| 0 <= k < all.len() && all[k] == x;
                                if k < fewer.len() {
                                    assert(fewer[k] == x);
                                }
                            }
                            assert forall|x: Seq<u8>| fewer.to_set().insert(peer@).contains(
                                x,
                            ) implies all.to_set().contains(x) by {
                                if x == peer@ {
                                    assert(all[fewer.len() as int] == x);
                                } else {
                                    let k = choose|k: int| 0 <= k < fewer.len() && fewer[k] == x;
                                    assert(all[k] == x);
                                }
                            }
                        }
                        assert(held.insert(peer@).union(fewer.to_set()) =~= held.union(
                            all.to_set(),
                        ));
                    }
                },
            }
        }
    }

    /// Hands the peers out, each once.
    pub fn into_vec(self) -> (v: Vec<PeerId>)
        ensures
            peer_views(v@).to_set() == self@,
            peer_views(v@).no_duplicates(),
    {
        proof {
            use_type_invariant(&self);
        }
        self.peers
    }
}

} // verus!
