//! Limits on concurrent tunnel streams.
//!
//! An authenticated peer could otherwise open any number of streams, each with a
//! connection to the local service, and exhaust it. A stream holds one permit of
//! its peer and one overall, for as long as it is relayed.

use vstd::prelude::*;
use crate::peer::PeerId;
use crate::table::PeerTable;

verus! {

/// Why a stream gets no permit.
#[derive(Debug, Clone, Copy, PartialEq, Eq, Structural)]
pub enum GateRefusal {
    /// The peer has all the streams it may have.
    PeerLimit,
    /// All peers together have all the streams they may have.
    TotalLimit,
}

/// Right of one stream to be relayed. It is given back once, when the stream ends.
pub struct StreamPermit {
    peer: PeerId,
    account: u64,
}

/// Streams of a peer: the number of its account, and the permits in use.
struct PeerAccount {
    account: u64,
    in_use: usize,
}

/// State of a [`StreamGate`].
#[verifier::ext_equal]
pub struct GateModel {
    /// Streams of one peer at most.
    pub max_per_peer: usize,
    /// Streams of all peers at most.
    pub max_total: usize,
    /// Permits in use.
    pub in_use: usize,
    /// The account of each peer that asked for a permit and is not forgotten: its
    /// number and its permits in use.
    pub peers: Map<Seq<u8>, (u64, usize)>,
    /// Number of the next account.
    pub next_account: u64,
}

impl GateModel {
    /// The account of a peer, a new one if it has none.
    pub open spec fn account(self, peer: Seq<u8>) -> (u64, usize) {
        if self.peers.contains_key(peer) {
            self.peers[peer]
        } else {
            (self.next_account, 0)
        }
    }

    /// The state in which the peer has an account.
    pub open spec fn with_account(self, peer: Seq<u8>) -> GateModel {
        if self.peers.contains_key(peer) {
            self
        } else {
            GateModel {
                peers: self.peers.insert(peer, (self.next_account, 0)),
                next_account: self.next_account.wrapping_add(1),
                ..self
            }
        }
    }

    /// Whether a new stream of the peer gets a permit.
    pub open spec fn grants(self, peer: Seq<u8>) -> bool {
        self.account(peer).1 < self.max_per_peer && self.in_use < self.max_total
    }

    /// The state after a new stream of the peer asked for a permit.
    pub open spec fn after_acquire(self, peer: Seq<u8>) -> GateModel {
        let ready = self.with_account(peer);
        if self.grants(peer) {
            let (account, used) = self.account(peer);
            GateModel {
                in_use: (self.in_use + 1) as usize,
                peers: ready.peers.insert(peer, (account, (used + 1) as usize)),
                ..ready
            }
        } else {
            ready
        }
    }

    /// The state after a permit is given back. A permit of an account that was
    /// forgotten since counts overall only.
    pub open spec fn after_release(self, peer: Seq<u8>, account: u64) -> GateModel {
        let freed = GateModel { in_use: self.in_use.saturating_sub(1), ..self };
        if self.peers.contains_key(peer) && self.peers[peer].0 == account {
            GateModel {
                peers: self.peers.insert(peer, (account, self.peers[peer].1.saturating_sub(1))),
                ..freed
            }
        } else {
            freed
        }
    }

    /// The state after a peer is forgotten.
    pub open spec fn after_forget(self, peer: Seq<u8>) -> GateModel {
        GateModel { peers: self.peers.remove(peer), ..self }
    }

    /// No limit is exceeded.
    pub open spec fn within_limits(self) -> bool {
        &&& self.in_use <= self.max_total
        &&& forall|p: Seq<u8>| #[trigger]
            self.peers.contains_key(p) ==> self.peers[p].1 <= self.max_per_peer
    }
}

/// Counts the concurrent tunnel streams, per peer and overall.
pub struct StreamGate {
    max_per_peer: usize,
    max_total: usize,
    in_use: usize,
    peers: PeerTable<PeerAccount>,
    next_account: u64,
}

impl View for StreamGate {
    type V = GateModel;

    closed spec fn view(&self) -> GateModel {
        GateModel {
            max_per_peer: self.max_per_peer,
            max_total: self.max_total,
            in_use: self.in_use,
            peers: self.peers@.map_values(|a: PeerAccount| (a.account, a.in_use)),
            next_account: self.next_account,
        }
    }
}

impl StreamPermit {
    /// The peer that holds the permit.
    pub closed spec fn holder(self) -> Seq<u8> {
        self.peer@
    }

    /// The account that the permit was taken from.
    pub closed spec fn taken_from(self) -> u64 {
        self.account
    }
}

impl StreamGate {
    /// No limit is exceeded, and no peer occurs twice.
    pub closed spec fn wf(self) -> bool {
        self.peers.wf() && self@.within_limits()
    }

    /// A gate without any stream.
    pub fn new(max_per_peer: usize, max_total: usize) -> (r: Self)
        ensures
            r.wf(),
            r@ == (GateModel {
                max_per_peer,
                max_total,
                in_use: 0,
                peers: Map::empty(),
                next_account: 0,
            }),
    {
        let r = StreamGate {
            max_per_peer,
            max_total,
            in_use: 0,
            peers: PeerTable::new(),
            next_account: 0,
        };
        assert(r@.peers =~= Map::<Seq<u8>, (u64, usize)>::empty());
        r
    }

    /// Asks for the permit of a new stream. The limit of the peer is checked before
    /// the overall one.
    pub fn try_acquire(&mut self, peer: &PeerId) -> (r: core::result::Result<
        StreamPermit,
        GateRefusal,
    >)
        requires
            old(self).wf(),
        ensures
            final(self).wf(),
            final(self)@ == old(self)@.after_acquire(peer@),
            r is Ok <==> old(self)@.grants(peer@),
            r matches Ok(p) ==> p.holder() == peer@ && p.taken_from() == old(self)@.account(
                peer@,
            ).0,
            r matches Err(e) ==> e == if old(self)@.account(peer@).1 >= old(self)@.max_per_peer {
                GateRefusal::PeerLimit
            } else {
                GateRefusal::TotalLimit
            },
    {
        let ghost before = self@;
        let known = match self.peers.get(peer) {
            Some(a) => Some((a.account, a.in_use)),
            None => None,
        };
        let (account, used): (u64, usize) = match known {
            Some((account, used)) => (account, used),
            None => {
                let account: u64 = self.next_account;
                self.peers.insert(peer.clone(), PeerAccount { account, in_use: 0 });
                self.next_account = self.next_account.wrapping_add(1);
                (account, 0)
            },
        };
        assert(self@ =~= before.with_account(peer@)) by {
            assert(self@.peers =~= before.with_account(peer@).peers);
        }
        assert((account, used) == before.account(peer@));
        if used >= self.max_per_peer {
            return Err(GateRefusal::PeerLimit);
        }
        if self.in_use >= self.max_total {
            return Err(GateRefusal::TotalLimit);
        }
        self.in_use = self.in_use + 1;
        self.peers.insert(peer.clone(), PeerAccount { account, in_use: used + 1 });
        assert(self@ =~= before.after_acquire(peer@)) by {
            assert(self@.peers =~= before.after_acquire(peer@).peers);
        }
        Ok(StreamPermit { peer: peer.clone(), account })
    }

    /// Gives a permit back, at the end of its stream.
    pub fn release(&mut self, permit: StreamPermit)
        requires
            old(self).wf(),
        ensures
            final(self).wf(),
            final(self)@ == old(self)@.after_release(permit.holder(), permit.taken_from()),
    {
        let ghost before = self@;
        let ghost p = permit.peer@;
        self.in_use = self.in_use.saturating_sub(1);
        let used: Option<usize> = match self.peers.get(&permit.peer) {
            Some(a) => if a.account == permit.account {
                Some(a.in_use)
            } else {
                None
            },
            None => None,
        };
        let account: u64 = permit.account;
        match used {
            Some(n) => {
                self.peers.insert(
                    permit.peer,
                    PeerAccount { account, in_use: n.saturating_sub(1) },
                );
            },
            None => {},
        }
        assert(self@ =~= before.after_release(p, account)) by {
            assert(self@.peers =~= before.after_release(p, account).peers);
        }
    }

    /// Forgets a peer that left: a permit it still holds no longer counts against
    /// it, should it come back.
    pub fn forget(&mut self, peer: &PeerId)
        requires
            old(self).wf(),
        ensures
            final(self).wf(),
            final(self)@ == old(self)@.after_forget(peer@),
    {
        let ghost before = self@;
        self.peers.remove(peer);
        assert(self@ =~= before.after_forget(peer@)) by {
            assert(self@.peers =~= before.after_forget(peer@).peers);
        }
    }

    /// Whether no stream is in progress.
    pub fn idle(&self) -> (r: bool)
        ensures
            r == (self@.in_use == 0),
    {
        self.in_use == 0
    }
}

/// Whatever comes, the limits hold: the streams in progress are never more than the
/// overall limit, nor those of a peer more than the limit of a peer.
pub proof fn limits_always_hold(m: GateModel, peer: Seq<u8>, account: u64)
    requires
        m.within_limits(),
    ensures
        m.after_acquire(peer).within_limits(),
        m.after_release(peer, account).within_limits(),
        m.after_forget(peer).within_limits(),
{
}

/// A permit given back leaves room for the stream that held it: the counts are those
/// before it was taken.
pub proof fn release_undoes_acquire(m: GateModel, peer: Seq<u8>)
    requires
        m.grants(peer),
    ensures
        m.after_acquire(peer).after_release(peer, m.account(peer).0) == m.with_account(peer),
{
    let after = m.after_acquire(peer).after_release(peer, m.account(peer).0);
    assert(after.peers =~= m.with_account(peer).peers);
}

/// A limit of zero forbids every stream.
pub proof fn zero_limit_forbids_streams(m: GateModel, peer: Seq<u8>)
    requires
        m.max_per_peer == 0 || m.max_total == 0,
    ensures
        !m.grants(peer),
{
}

/// The streams of a peer leave the account of the others alone.
pub proof fn accounts_are_independent(m: GateModel, peer: Seq<u8>, other: Seq<u8>, account: u64)
    requires
        peer != other,
    ensures
        m.after_acquire(peer).peers.contains_key(other) == m.peers.contains_key(other),
        m.after_release(peer, account).peers.contains_key(other) == m.peers.contains_key(other),
        m.after_forget(peer).peers.contains_key(other) == m.peers.contains_key(other),
        m.peers.contains_key(other) ==> m.after_acquire(peer).peers[other] == m.peers[other]
            && m.after_release(peer, account).peers[other] == m.peers[other]
            && m.after_forget(peer).peers[other] == m.peers[other],
{
}

} // verus!
