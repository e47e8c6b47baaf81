//! Whitelist of the authorised peers.

use vstd::prelude::*;
use crate::peer::PeerId;
use crate::protocol::clone_texts;
use crate::table::PeerTable;

verus! {

/// Whitelist: the roles of each authorised peer. Its view is a map from the
/// bytes of the peer to its roles.
///
/// A lookup ([`Whitelist::roles`]) reads every entry and compares the peers in
/// constant time, so that the time it takes tells nothing of the list.
pub struct Whitelist {
    entries: PeerTable<Vec<String>>,
}

impl View for Whitelist {
    type V = Map<Seq<u8>, Seq<Seq<char>>>;

    closed spec fn view(&self) -> Map<Seq<u8>, Seq<Seq<char>>> {
        self.entries@.map_values(|roles: Vec<String>| crate::protocol::texts(roles@))
    }
}

impl Default for Whitelist {
    fn default() -> (r: Self)
        ensures
            r.wf(),
            r@ == Map::<Seq<u8>, Seq<Seq<char>>>::empty(),
    {
        Whitelist::new()
    }
}

impl Clone for Whitelist {
    fn clone(&self) -> (r: Self)
        ensures
            self.wf() ==> r.wf(),
            self.wf() ==> r@ == self@,
    {
        let mut copy = Whitelist::new();
        let n: usize = self.entries.count();
        let mut i: usize = 0;
        while i < n
            invariant
                n == self.entries.size(),
                i <= n,
                copy.wf(),
                self.wf() ==> forall|p: Seq<u8>| #[trigger]
                    copy@.contains_key(p) <==> exists|j: int|
                        0 <= j < i && #[trigger] self.entries.key_at(j) == p,
                self.wf() ==> forall|j: int|
                    0 <= j < i ==> copy@[#[trigger] self.entries.key_at(j)]
                        == crate::protocol::texts(self.entries.value_at(j)@),
            decreases n - i,
        {
            let (peer, roles) = self.entries.entry(i);
            let ghost before = copy@;
            copy.allow(peer.clone(), clone_texts(roles));
            proof {
                if self.wf() {
                    self.entries.lemma_entries();
                    assert(copy@ == before.insert(
                        self.entries.key_at(i as int),
                        crate::protocol::texts(self.entries.value_at(i as int)@),
                    ));
                    assert forall|p: Seq<u8>| #[trigger] copy@.contains_key(p) implies exists|
                        j: int,
                    |
                        0 <= j < i + 1 && #[trigger] self.entries.key_at(j) == p by {
                        if p == self.entries.key_at(i as int) {
                        } else {
                            assert(before.contains_key(p));
                        }
                    }
                    assert forall|j: int| 0 <= j < i + 1 implies copy@[#[trigger] self.entries.key_at(
                        j,
                    )] == crate::protocol::texts(self.entries.value_at(j)@) by {
                        if j < i {
                            assert(self.entries.key_at(j) != self.entries.key_at(i as int));
                        }
                    }
                }
            }
            i += 1;
        }
        proof {
            if self.wf() {
                self.entries.lemma_entries();
                assert forall|p: Seq<u8>| #[trigger] copy@.contains_key(p) implies copy@[p]
                    == self@[p] by {
                    let j = choose|j: int|
                        0 <= j < i && #[trigger] self.entries.key_at(j) == p;
                    assert(self.entries@[self.entries.key_at(j)] == self.entries.value_at(j));
                }
                assert(copy@ =~= self@);
            }
        }
        copy
    }
}

impl Whitelist {
    /// No peer occurs twice.
    pub closed spec fn wf(self) -> bool {
        self.entries.wf()
    }

    /// An empty whitelist: no peer is admitted.
    pub fn new() -> (r: Self)
        ensures
            r.wf(),
            r@ == Map::<Seq<u8>, Seq<Seq<char>>>::empty(),
    {
        let r = Whitelist { entries: PeerTable::new() };
        assert(r@ =~= Map::<Seq<u8>, Seq<Seq<char>>>::empty());
        r
    }

    /// Authorises a peer with the given roles, in place of those it had.
    pub fn allow(&mut self, peer: PeerId, roles: Vec<String>) -> (r: &mut Self)
        requires
            old(self).wf(),
        ensures
            r.wf(),
            r@ == old(self)@.insert(peer@, crate::protocol::texts(roles@)),
            *final(self) == *final(r),
    {
        let ghost before = self@;
        let ghost p = peer@;
        let ghost granted = crate::protocol::texts(roles@);
        self.entries.insert(peer, roles);
        assert(self@ =~= before.insert(p, granted));
        self
    }

    /// Removes a peer from the whitelist.
    pub fn revoke(&mut self, peer: &PeerId)
        requires
            old(self).wf(),
        ensures
            final(self).wf(),
            final(self)@ == old(self)@.remove(peer@),
    {
        let ghost before = self@;
        self.entries.remove(peer);
        assert(self@ =~= before.remove(peer@));
    }

    /// The roles of the peer, or `None` if it is unknown. The whole list is read,
    /// without an early exit.
    pub fn roles(&self, peer: &PeerId) -> (r: Option<Vec<String>>)
        requires
            self.wf(),
        ensures
            r is Some <==> self@.contains_key(peer@),
            r matches Some(roles) ==> crate::protocol::texts(roles@) == self@[peer@],
    {
        match self.entries.get_constant_time(peer) {
            Some(roles) => Some(clone_texts(roles)),
            None => None,
        }
    }

    /// Number of authorised peers.
    pub fn len(&self) -> (r: usize)
        requires
            self.wf(),
        ensures
            r == self@.len(),
            self@.dom().finite(),
    {
        proof {
            assert(self@.dom() =~= self.entries@.dom());
        }
        self.entries.len()
    }

    /// Whether no peer is authorised.
    pub fn is_empty(&self) -> (r: bool)
        requires
            self.wf(),
        ensures
            r == (self@ == Map::<Seq<u8>, Seq<Seq<char>>>::empty()),
    {
        proof {
            self.entries.lemma_len();
            self.entries.lemma_entries();
            assert(self@.dom() =~= self.entries@.dom());
            if self.entries.size() == 0 {
                assert(self@ =~= Map::<Seq<u8>, Seq<Seq<char>>>::empty());
            } else {
                assert(self@.contains_key(self.entries.key_at(0)));
            }
        }
        self.entries.len() == 0
    }
}

} // verus!
