//! Waiting for an event of the network. Each function looks at one event and tells
//! whether the wait is over: `None` goes on waiting.

use vstd::prelude::*;
use vstd::string::StringExecFns;
use crate::addr::{Multiaddr, Namespace};
use crate::error::{NuxError, Result};
use crate::node::{NodeEvent, Registration};
use crate::peer::PeerId;

verus! {

/// How long the dial of one discovered address may take, in milliseconds.
pub const PER_ADDRESS_DIAL_TIMEOUT_MS: u64 = 10_000;

/// Waits for the first address on which the node listens.
pub fn wait_for_listen_addr(event: NodeEvent) -> (r: Option<Multiaddr>)
    ensures
        match event {
            NodeEvent::NewListenAddr(addr) => r == Some(addr),
            _ => r is None,
        },
{
    match event {
        NodeEvent::NewListenAddr(addr) => Some(addr),
        _ => None,
    }
}

/// Waits for the next connection, to whatever peer, or for the failure of a dial. For
/// dials of one hop: through a circuit, the first connection is to the relay.
pub fn next_connection(event: NodeEvent) -> (r: Option<Result<PeerId>>)
    ensures
        match event {
            NodeEvent::ConnectionEstablished(peer) => r == Some(Ok::<PeerId, NuxError>(peer)),
            NodeEvent::OutgoingConnectionError(_, error) => r == Some(
                Err::<PeerId, NuxError>(NuxError::Dial(error)),
            ),
            _ => r is None,
        },
{
    match event {
        NodeEvent::ConnectionEstablished(peer) => Some(Ok(peer)),
        NodeEvent::OutgoingConnectionError(_, error) => Some(Err(NuxError::Dial(error))),
        _ => None,
    }
}

/// Waits for a connection to `peer`, whatever other connections are established
/// meanwhile, or for the failure of a dial to it.
pub fn wait_for_peer(peer: &PeerId, event: NodeEvent) -> (r: Option<Result<()>>)
    ensures
        match event {
            NodeEvent::ConnectionEstablished(p) => r == if p@ == peer@ {
                Some(Ok::<(), NuxError>(()))
            } else {
                None
            },
            NodeEvent::OutgoingConnectionError(Some(p), error) => r == if p@ == peer@ {
                Some(Err::<(), NuxError>(NuxError::Dial(error)))
            } else {
                None
            },
            _ => r is None,
        },
{
    match event {
        NodeEvent::ConnectionEstablished(p) => {
            if p.same(peer) {
                Some(Ok(()))
            } else {
                None
            }
        },
        NodeEvent::OutgoingConnectionError(Some(p), error) => {
            if p.same(peer) {
                Some(Err(NuxError::Dial(error)))
            } else {
                None
            }
        },
        _ => None,
    }
}

/// Waits until the relay confirms the reservation of a circuit, or until the
/// connection to it is lost.
pub fn wait_for_circuit_reservation(relay_node: &PeerId, event: NodeEvent) -> (r: Option<
    Result<()>,
>)
    ensures
        match event {
            NodeEvent::ReservationAccepted(p) => r == if p@ == relay_node@ {
                Some(Ok::<(), NuxError>(()))
            } else {
                None
            },
            NodeEvent::ConnectionClosed(p, _) => if p@ == relay_node@ {
                r matches Some(Err(NuxError::Network(m))) && m@
                    == "connexion au relay perdue avant confirmation de la réservation"@
            } else {
                r is None
            },
            _ => r is None,
        },
{
    match event {
        NodeEvent::ReservationAccepted(p) => {
            if p.same(relay_node) {
                Some(Ok(()))
            } else {
                None
            }
        },
        NodeEvent::ConnectionClosed(p, _) => {
            if p.same(relay_node) {
                Some(
                    Err(
                        NuxError::Network(
                            "connexion au relay perdue avant confirmation de la réservation".to_owned(),
                        ),
                    ),
                )
            } else {
                None
            }
        },
        _ => None,
    }
}

/// Waits for the answer of the rendezvous point to a registration under `namespace`.
pub fn register_namespace(
    rendezvous_node: &PeerId,
    namespace: &Namespace,
    event: NodeEvent,
) -> (r: Option<Result<()>>)
    ensures
        match event {
            NodeEvent::Registered(p, ns) => r == if p@ == rendezvous_node@ && ns@ == namespace@ {
                Some(Ok::<(), NuxError>(()))
            } else {
                None
            },
            NodeEvent::RegisterFailed(p, ns, error) => if p@ == rendezvous_node@ && ns@
                == namespace@ {
                r matches Some(Err(NuxError::Network(m))) && m@
                    == "enregistrement rendezvous refusé: "@ + error@
            } else {
                r is None
            },
            _ => r is None,
        },
{
    match event {
        NodeEvent::Registered(p, ns) => {
            if p.same(rendezvous_node) && ns == namespace.as_str().to_owned() {
                Some(Ok(()))
            } else {
                None
            }
        },
        NodeEvent::RegisterFailed(p, ns, error) => {
            if p.same(rendezvous_node) && ns == namespace.as_str().to_owned() {
                Some(
                    Err(
                        NuxError::Network(
                            "enregistrement rendezvous refusé: ".to_owned().concat(error.as_str()),
                        ),
                    ),
                )
            } else {
                None
            }
        },
        _ => None,
    }
}

/// The peers and addresses of registrations, in order.
pub open spec fn candidates(registrations: Seq<Registration>) -> Seq<(Seq<u8>, Seq<u8>)>
    decreases registrations.len(),
{
    if registrations.len() == 0 {
        Seq::empty()
    } else {
        candidates(registrations.drop_last()) + addresses_of(
            registrations.last().peer@,
            registrations.last().addresses@,
        )
    }
}

/// A peer with each of its addresses.
pub open spec fn addresses_of(peer: Seq<u8>, addresses: Seq<Multiaddr>) -> Seq<
    (Seq<u8>, Seq<u8>),
> {
    Seq::new(addresses.len(), |i: int| (peer, addresses[i]@))
}

/// The contents of a list of peers and addresses.
pub open spec fn pairs(v: Seq<(PeerId, Multiaddr)>) -> Seq<(Seq<u8>, Seq<u8>)> {
    Seq::new(v.len(), |i: int| (v[i].0@, v[i].1@))
}

/// Search for a peer of a namespace: each address of each peer that the rendezvous
/// point gave is dialled in turn, until one is reached.
pub struct Discovery {
    namespace: Namespace,
    candidates: Vec<(PeerId, Multiaddr)>,
    next: usize,
}

/// State of a [`Discovery`].
#[verifier::ext_equal]
pub struct DiscoveryModel {
    /// The namespace.
    pub namespace: Seq<char>,
    /// The addresses that are left to dial, each with its peer.
    pub left: Seq<(Seq<u8>, Seq<u8>)>,
}

impl View for Discovery {
    type V = DiscoveryModel;

    closed spec fn view(&self) -> DiscoveryModel {
        DiscoveryModel {
            namespace: self.namespace@,
            left: pairs(self.candidates@).skip(self.next as int),
        }
    }
}

impl Discovery {
    /// The position is within the list.
    pub closed spec fn wf(self) -> bool {
        self.next <= self.candidates@.len()
    }

    /// Waits for the answer of the rendezvous point to a discovery: a search over what
    /// it gave. A namespace without any peer is an error.
    pub fn start(
        rendezvous_node: &PeerId,
        namespace: &Namespace,
        event: NodeEvent,
    ) -> (r: Option<Result<Discovery>>)
        ensures
            match event {
                NodeEvent::Discovered(p, registrations) => if p@ != rendezvous_node@ {
                    r is None
                } else if registrations@.len() == 0 {
                    r matches Some(Err(NuxError::Network(m))) && m@
                        == "aucun pair enregistré sous le namespace `"@ + namespace@ + "`"@
                } else {
                    r matches Some(Ok(d)) && d.wf() && d@ == (DiscoveryModel {
                        namespace: namespace@,
                        left: candidates(registrations@),
                    }) && (forall|i: int, j: int|
                        0 <= i < registrations@.len() && 0 <= j < registrations@[i].addresses@.len()
                            ==> d@.left.contains(
                            (registrations@[i].peer@, #[trigger] registrations@[i].addresses@[j]@),
                        ))
                },
                NodeEvent::DiscoverFailed(p, error) => if p@ != rendezvous_node@ {
                    r is None
                } else {
                    r matches Some(Err(NuxError::Network(m))) && m@
                        == "découverte rendezvous échouée: "@ + error@
                },
                _ => r is None,
            },
    {
        match event {
            NodeEvent::Discovered(p, registrations) => {
                if !p.same(rendezvous_node) {
                    return None;
                }
                if registrations.len() == 0 {
                    let mut message = "aucun pair enregistré sous le namespace `".to_owned();
                    message.append(namespace.as_str());
                    message.append("`");
                    return Some(Err(NuxError::Network(message)));
                }
                let list = flatten(&registrations);
                let d = Discovery { namespace: namespace.clone(), candidates: list, next: 0 };
                assert(d@.left =~= candidates(registrations@));
                assert forall|i: int, j: int|
                    0 <= i < registrations@.len() && 0 <= j
                        < registrations@[i].addresses@.len() implies d@.left.contains(
                    (registrations@[i].peer@, #[trigger] registrations@[i].addresses@[j]@),
                ) by {
                    crate::node::laws::every_registered_address_is_a_candidate(
                        registrations@,
                        i,
                        j,
                    );
                }
                Some(Ok(d))
            },
            NodeEvent::DiscoverFailed(p, error) => {
                if !p.same(rendezvous_node) {
                    return None;
                }
                Some(
                    Err(
                        NuxError::Network(
                            "découverte rendezvous échouée: ".to_owned().concat(error.as_str()),
                        ),
                    ),
                )
            },
            _ => None,
        }
    }

    /// The next address to dial with the peer to reach there, or an error once every
    /// address was tried: a dial that is refused, fails or takes too long passes to
    /// the next one.
    pub fn next_candidate(&mut self) -> (r: Result<(PeerId, Multiaddr)>)
        requires
            old(self).wf(),
        ensures
            final(self).wf(),
            final(self)@.namespace == old(self)@.namespace,
            old(self)@.left.len() > 0 ==> (r matches Ok((peer, addr)) && (peer@, addr@)
                == old(self)@.left[0] && final(self)@.left == old(self)@.left.skip(1)),
            old(self)@.left.len() == 0 ==> (r matches Err(NuxError::Network(m)) && m@
                == "aucun pair joignable sous le namespace `"@ + old(self)@.namespace + "`"@
                && final(self)@ == old(self)@),
    {
        let ghost before = self@;
        if self.next < self.candidates.len() {
            let i: usize = self.next;
            let peer = self.candidates[i].0.clone();
            let addr = self.candidates[i].1.clone();
            self.next = self.next + 1;
            assert(self@.left =~= before.left.skip(1));
            Ok((peer, addr))
        } else {
            let mut message = "aucun pair joignable sous le namespace `".to_owned();
            message.append(self.namespace.as_str());
            message.append("`");
            Err(NuxError::Network(message))
        }
    }
}

/// The peers and addresses of registrations, in order.
fn flatten(registrations: &Vec<Registration>) -> (r: Vec<(PeerId, Multiaddr)>)
    ensures
        pairs(r@) == candidates(registrations@),
{
    let mut out: Vec<(PeerId, Multiaddr)> = Vec::new();
    let mut i: usize = 0;
    assert(pairs(out@) =~= candidates(registrations@.take(0)));
    while i < registrations.len()
        invariant
            i <= registrations@.len(),
            pairs(out@) == candidates(registrations@.take(i as int)),
        decreases registrations@.len() - i,
    {
        let entry = &registrations[i];
        let ghost done = pairs(out@);
        let mut j: usize = 0;
        assert(done + addresses_of(entry.peer@, entry.addresses@.take(0)) =~= done);
        while j < entry.addresses.len()
            invariant
                j <= entry.addresses@.len(),
                pairs(out@) == done + addresses_of(entry.peer@, entry.addresses@.take(j as int)),
            decreases entry.addresses@.len() - j,
        {
            let ghost before = pairs(out@);
            out.push((entry.peer.clone(), entry.addresses[j].clone()));
            assert(pairs(out@) =~= done + addresses_of(
                entry.peer@,
                entry.addresses@.take(j + 1),
            )) by {
                assert(pairs(out@) =~= before.push((entry.peer@, entry.addresses@[j as int]@)));
            }
            j += 1;
        }
        assert(entry.addresses@.take(entry.addresses@.len() as int) =~= entry.addresses@);
        assert(registrations@.take(i + 1).drop_last() =~= registrations@.take(i as int));
        i += 1;
    }
    assert(registrations@.take(registrations@.len() as int) =~= registrations@);
    out
}

} // verus!
