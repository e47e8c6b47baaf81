//! Rules of a Guard: authentication, tunnel streams, control commands and graceful
//! stop.

use vstd::prelude::*;
use crate::auth::{
    random_nonce,
    unix_now,
    AuthOutcome,
    GuardAuthenticator,
    GuardModel,
    Whitelist,
};
use crate::identity::Keypair;
use crate::metrics::{Metrics, MetricsModel};
use crate::node::{GuardControl, NodeEvent, NodeMode};
use crate::peer::PeerId;
use crate::protocol::{NuxRequest, NuxResponse, RequestModel, ResponseModel};
use crate::tunnel::gate::GateModel;
use crate::tunnel::{StreamGate, StreamPermit, TunnelOutcome};

verus! {

/// How often the end of the tunnels in progress is checked during a graceful stop, in
/// milliseconds.
pub const DRAIN_CHECK_MS: u64 = 500;

/// What a Guard does after an event of the network.
#[derive(Debug)]
pub enum GuardAction {
    /// Nothing.
    Ignore,
    /// Answer the request.
    Respond(NuxResponse),
    /// Radio silence: drop the request without a byte and close the connection of the
    /// peer at once.
    Silence(PeerId),
}

/// What a Guard does with a new tunnel stream.
pub enum StreamAction {
    /// Serve it, with the roles of the session, and give the permit back at its end.
    Serve(Vec<String>, StreamPermit),
    /// Drop it without a byte.
    Drop,
    /// Drop it without a byte and close the connection of the peer.
    Disconnect,
}

/// Whether a graceful stop is over.
#[derive(Debug, Clone, Copy, PartialEq, Eq, Structural)]
pub enum DrainCheck {
    /// Go on.
    Continue,
    /// Every tunnel ended.
    AllDone,
    /// The grace period is over: the tunnels that are left are cut.
    Expired,
}

/// Content of a [`GuardAction`].
pub enum GuardActionModel {
    Ignore,
    Respond(ResponseModel),
    Silence(Seq<u8>),
}

impl View for GuardAction {
    type V = GuardActionModel;

    open spec fn view(&self) -> GuardActionModel {
        match self {
            GuardAction::Ignore => GuardActionModel::Ignore,
            GuardAction::Respond(m) => GuardActionModel::Respond(m@),
            GuardAction::Silence(p) => GuardActionModel::Silence(p@),
        }
    }
}

/// State of a [`NuxNode`].
#[verifier::ext_equal]
pub struct NodeModel {
    /// Role of the node.
    pub mode: NodeMode,
    /// Secret of its identity.
    pub secret: Seq<u8>,
    /// Time at which a graceful stop ends, once one was asked for.
    pub shutdown_deadline: Option<u128>,
    /// Counters.
    pub metrics: MetricsModel,
}

/// The answer to a request of a peer. A challenge goes to a peer of the whitelist and
/// roles to an accepted answer; anything else is silence, and during a graceful stop a
/// new handshake is treated as that of an unknown peer.
pub open spec fn reply(
    m: GuardModel,
    stopping: bool,
    peer: Seq<u8>,
    request: RequestModel,
    nonce: Seq<u8>,
    now: u64,
) -> GuardActionModel {
    match request {
        RequestModel::HandshakeInit => if !stopping && m.whitelist.contains_key(peer) {
            GuardActionModel::Respond(ResponseModel::Challenge { nonce, timestamp: now })
        } else {
            GuardActionModel::Silence(peer)
        },
        RequestModel::ChallengeAnswer { signature, timestamp } => if m.accepts(
            peer,
            signature,
            timestamp,
            now,
        ) {
            GuardActionModel::Respond(ResponseModel::AccessGranted { roles: m.whitelist[peer] })
        } else {
            GuardActionModel::Silence(peer)
        },
    }
}

/// The state of the authority after a request.
pub open spec fn after_request(
    m: GuardModel,
    stopping: bool,
    peer: Seq<u8>,
    request: RequestModel,
    nonce: Seq<u8>,
    now: u64,
) -> GuardModel {
    match request {
        RequestModel::HandshakeInit => if stopping {
            m
        } else {
            m.after_issue(peer, nonce, now)
        },
        RequestModel::ChallengeAnswer { signature, timestamp } => m.after_verify(
            peer,
            signature,
            timestamp,
            now,
        ),
    }
}

/// The counters after a request: silence counts as a refusal, a grant as a grant.
pub open spec fn count_request(c: MetricsModel, action: GuardActionModel) -> MetricsModel {
    match action {
        GuardActionModel::Silence(_) => MetricsModel {
            auth_denied: c.auth_denied.wrapping_add(1),
            ..c
        },
        GuardActionModel::Respond(ResponseModel::AccessGranted { .. }) => MetricsModel {
            auth_granted: c.auth_granted.wrapping_add(1),
            ..c
        },
        _ => c,
    }
}

/// The authority after its whitelist is replaced: the sessions of the peers outside the
/// new list are closed and their challenges dropped.
pub open spec fn after_reload(m: GuardModel, list: Map<Seq<u8>, Seq<Seq<char>>>) -> GuardModel {
    let lost = m.sessions.dom().difference(list.dom());
    GuardModel {
        whitelist: list,
        pending: m.pending.remove_keys(lost),
        sessions: m.sessions.remove_keys(lost),
    }
}

/// Node: its role, its identity, its counters and its graceful stop.
pub struct NuxNode {
    mode: NodeMode,
    keypair: Keypair,
    shutdown_deadline: Option<u128>,
    metrics: Metrics,
}

impl View for NuxNode {
    type V = NodeModel;

    closed spec fn view(&self) -> NodeModel {
        NodeModel {
            mode: self.mode,
            secret: self.keypair@,
            shutdown_deadline: self.shutdown_deadline,
            metrics: self.metrics@,
        }
    }
}

impl NuxNode {
    /// New node.
    pub fn new(mode: NodeMode, keypair: Keypair) -> (r: Self)
        ensures
            r@.mode == mode,
            r@.secret == keypair@,
            r@.shutdown_deadline is None,
            r@.metrics == (MetricsModel {
                auth_granted: 0,
                auth_denied: 0,
                tunnels_opened: 0,
                tunnels_denied: 0,
                tunnels_active: 0,
                bytes_from_peer: 0,
                bytes_to_peer: 0,
            }),
    {
        NuxNode { mode, keypair, shutdown_deadline: None, metrics: Metrics::default() }
    }

    /// Public identity of the node.
    pub fn local_peer_id(&self) -> (r: PeerId)
        ensures
            r@ == seq![0u8, 36u8] + crate::identity::ed25519_public_key(self@.secret),
            crate::peer::peer_public_key(r@) == Some(
                crate::identity::ed25519_public_key(self@.secret),
            ),
    {
        self.keypair.peer_id()
    }

    /// Role of the node.
    pub fn mode(&self) -> (r: NodeMode)
        ensures
            r == self@.mode,
    {
        self.mode
    }

    /// Key pair of the node.
    pub fn keypair(&self) -> (r: &Keypair)
        ensures
            r@ == self@.secret,
    {
        &self.keypair
    }

    /// Counters of the node.
    pub fn metrics(&self) -> (r: &Metrics)
        ensures
            r@ == self@.metrics,
    {
        &self.metrics
    }

    /// Treats an event of the network on a Guard. With the last connection of a peer its
    /// session ends, and its permits no longer count against it.
    pub fn handle_guard_event(
        &mut self,
        authenticator: &mut GuardAuthenticator,
        gate: &mut StreamGate,
        event: NodeEvent,
    ) -> (r: GuardAction)
        requires
            old(authenticator).wf(),
            old(gate).wf(),
        ensures
            final(authenticator).wf(),
            final(gate).wf(),
            match event {
                NodeEvent::AuthRequest(peer, request) => {
                    &&& final(gate)@ == old(gate)@
                    &&& exists|nonce: Seq<u8>, now: u64|
                        {
                            &&& r@ == #[trigger] reply(
                                old(authenticator)@,
                                old(self)@.shutdown_deadline is Some,
                                peer@,
                                request@,
                                nonce,
                                now,
                            )
                            &&& final(authenticator)@ == after_request(
                                old(authenticator)@,
                                old(self)@.shutdown_deadline is Some,
                                peer@,
                                request@,
                                nonce,
                                now,
                            )
                        }
                    &&& final(self)@ == (NodeModel {
                        metrics: count_request(old(self)@.metrics, r@),
                        ..old(self)@
                    })
                },
                NodeEvent::ConnectionClosed(peer, remaining) => {
                    &&& r is Ignore
                    &&& final(self)@ == old(self)@
                    &&& final(authenticator)@ == if remaining == 0 {
                        old(authenticator)@.after_end(peer@)
                    } else {
                        old(authenticator)@
                    }
                    &&& final(gate)@ == if remaining == 0 {
                        old(gate)@.after_forget(peer@)
                    } else {
                        old(gate)@
                    }
                },
                _ => {
                    &&& r is Ignore
                    &&& final(self)@ == old(self)@
                    &&& final(authenticator)@ == old(authenticator)@
                    &&& final(gate)@ == old(gate)@
                },
            },
    {
        match event {
            NodeEvent::AuthRequest(peer, request) => self.handle_auth_request(
                authenticator,
                peer,
                request,
            ),
            NodeEvent::ConnectionClosed(peer, remaining) => {
                if remaining == 0 {
                    gate.forget(&peer);
                    authenticator.end_session(&peer);
                }
                GuardAction::Ignore
            },
            _ => GuardAction::Ignore,
        }
    }

    /// Treats a request of a peer, with a random nonce and at the time of the local
    /// clock.
    pub fn handle_auth_request(
        &mut self,
        authenticator: &mut GuardAuthenticator,
        peer: PeerId,
        request: NuxRequest,
    ) -> (r: GuardAction)
        requires
            old(authenticator).wf(),
        ensures
            final(authenticator).wf(),
            exists|nonce: Seq<u8>, now: u64|
                {
                    &&& r@ == #[trigger] reply(
                        old(authenticator)@,
                        old(self)@.shutdown_deadline is Some,
                        peer@,
                        request@,
                        nonce,
                        now,
                    )
                    &&& final(authenticator)@ == after_request(
                        old(authenticator)@,
                        old(self)@.shutdown_deadline is Some,
                        peer@,
                        request@,
                        nonce,
                        now,
                    )
                },
            final(self)@ == (NodeModel {
                metrics: count_request(old(self)@.metrics, r@),
                ..old(self)@
            }),
    {
        let nonce = random_nonce();
        let now: u64 = unix_now();
        self.handle_auth_request_at(authenticator, peer, request, nonce, now)
    }

    /// Treats a request of a peer, with a given nonce for a challenge and at a given
    /// time.
    pub fn handle_auth_request_at(
        &mut self,
        authenticator: &mut GuardAuthenticator,
        peer: PeerId,
        request: NuxRequest,
        nonce: [u8; 32],
        now: u64,
    ) -> (r: GuardAction)
        requires
            old(authenticator).wf(),
        ensures
            final(authenticator).wf(),
            r@ == reply(
                old(authenticator)@,
                old(self)@.shutdown_deadline is Some,
                peer@,
                request@,
                nonce@,
                now,
            ),
            final(authenticator)@ == after_request(
                old(authenticator)@,
                old(self)@.shutdown_deadline is Some,
                peer@,
                request@,
                nonce@,
                now,
            ),
            final(self)@ == (NodeModel {
                metrics: count_request(old(self)@.metrics, r@),
                ..old(self)@
            }),
    {
        match request {
            NuxRequest::HandshakeInit => {
                // A stop in progress cannot be told from an unknown peer.
                if self.shutdown_deadline.is_some() {
                    self.metrics.record_auth_denied();
                    return GuardAction::Silence(peer);
                }
                match authenticator.issue_with(peer.clone(), nonce, now) {
                    Some(challenge) => GuardAction::Respond(challenge),
                    None => {
                        self.metrics.record_auth_denied();
                        GuardAction::Silence(peer)
                    },
                }
            },
            NuxRequest::ChallengeAnswer { signature, timestamp } => {
                match authenticator.verify_at(&peer, signature.as_slice(), timestamp, now) {
                    AuthOutcome::Granted { roles } => {
                        self.metrics.record_auth_granted();
                        GuardAction::Respond(NuxResponse::AccessGranted { roles })
                    },
                    AuthOutcome::Reject => {
                        self.metrics.record_auth_denied();
                        GuardAction::Silence(peer)
                    },
                }
            },
        }
    }

    /// Decides on a new tunnel stream of a peer: refused during a graceful stop, refused
    /// with a disconnection if the peer has no session, refused if a limit is reached,
    /// else served with the roles of the session.
    pub fn handle_tunnel_stream(
        &mut self,
        authenticator: &GuardAuthenticator,
        gate: &mut StreamGate,
        peer: &PeerId,
    ) -> (r: StreamAction)
        requires
            authenticator.wf(),
            old(gate).wf(),
        ensures
            final(gate).wf(),
            old(self)@.shutdown_deadline is Some ==> r is Drop && final(gate)@ == old(gate)@,
            old(self)@.shutdown_deadline is None && authenticator@.session_roles(peer@) is None
                ==> r is Disconnect && final(gate)@ == old(gate)@,
            old(self)@.shutdown_deadline is None && authenticator@.session_roles(peer@) is Some ==> {
                &&& final(gate)@ == old(gate)@.after_acquire(peer@)
                &&& old(gate)@.grants(peer@) ==> (r matches StreamAction::Serve(roles, permit)
                    && Some(crate::protocol::texts(roles@)) == authenticator@.session_roles(peer@)
                    && permit.holder() == peer@ && permit.taken_from() == old(gate)@.account(
                    peer@,
                ).0)
                &&& !old(gate)@.grants(peer@) ==> r is Drop
            },
            final(self)@ == (NodeModel {
                metrics: if r is Serve {
                    old(self)@.metrics.started()
                } else {
                    MetricsModel {
                        tunnels_denied: old(self)@.metrics.tunnels_denied.wrapping_add(1),
                        ..old(self)@.metrics
                    }
                },
                ..old(self)@
            }),
    {
        if self.shutdown_deadline.is_some() {
            self.metrics.record_tunnel_denied();
            return StreamAction::Drop;
        }
        let roles = match authenticator.session_roles(peer) {
            Some(roles) => roles,
            None => {
                self.metrics.record_tunnel_denied();
                return StreamAction::Disconnect;
            },
        };
        match gate.try_acquire(peer) {
            Ok(permit) => {
                self.metrics.record_tunnel_started();
                StreamAction::Serve(roles, permit)
            },
            Err(_) => {
                self.metrics.record_tunnel_denied();
                StreamAction::Drop
            },
        }
    }

    /// Records the end of a stream that was served, and gives its permit back.
    pub fn finish_tunnel_stream(
        &mut self,
        gate: &mut StreamGate,
        permit: StreamPermit,
        outcome: TunnelOutcome,
    )
        requires
            old(gate).wf(),
        ensures
            final(gate).wf(),
            final(gate)@ == old(gate)@.after_release(permit.holder(), permit.taken_from()),
            final(self)@ == (NodeModel {
                metrics: old(self)@.metrics.finished(outcome),
                ..old(self)@
            }),
    {
        self.metrics.record_tunnel_finished(outcome);
        gate.release(permit);
    }

    /// Applies a control command at a given time (nanoseconds), and returns the peers to
    /// disconnect.
    pub fn handle_control(
        &mut self,
        authenticator: &mut GuardAuthenticator,
        gate: &mut StreamGate,
        command: GuardControl,
        now: u128,
    ) -> (r: Vec<PeerId>)
        requires
            old(authenticator).wf(),
            old(gate).wf(),
            command matches GuardControl::ReloadWhitelist(list) ==> list.wf(),
        ensures
            final(authenticator).wf(),
            final(gate).wf(),
            match command {
                GuardControl::Shutdown { grace_period } => {
                    &&& r@.len() == 0
                    &&& final(self)@ == (NodeModel {
                        shutdown_deadline: Some(now.saturating_add(grace_period)),
                        ..old(self)@
                    })
                    &&& final(authenticator)@ == old(authenticator)@
                    &&& final(gate)@ == old(gate)@
                },
                GuardControl::Revoke(peer) => {
                    &&& final(self)@ == old(self)@
                    &&& final(authenticator)@ == old(authenticator)@.after_revoke(peer@)
                    &&& r@.len() == 1
                    &&& r@[0]@ == peer@
                    &&& final(gate)@ == old(gate)@.after_forget(peer@)
                },
                GuardControl::Allow { peer, roles } => {
                    &&& r@.len() == 0
                    &&& final(self)@ == old(self)@
                    &&& final(authenticator)@ == (GuardModel {
                        whitelist: old(authenticator)@.whitelist.insert(
                            peer@,
                            crate::protocol::texts(roles@),
                        ),
                        ..old(authenticator)@
                    })
                    &&& final(gate)@ == old(gate)@
                },
                GuardControl::ReloadWhitelist(list) => {
                    &&& final(self)@ == old(self)@
                    &&& final(authenticator)@ == after_reload(old(authenticator)@, list@)
                    &&& final(gate)@ == (GateModel {
                        peers: old(gate)@.peers.remove_keys(
                            old(authenticator)@.sessions.dom().difference(list@.dom()),
                        ),
                        ..old(gate)@
                    })
                    &&& forall|p: Seq<u8>|
                        (old(authenticator)@.sessions.contains_key(p) && !list@.contains_key(p))
                            <==> #[trigger] peer_views(r@).contains(p)
                },
            },
    {
        match command {
            GuardControl::Shutdown { grace_period } => {
                self.shutdown_deadline = Some(now.saturating_add(grace_period));
                Vec::new()
            },
            GuardControl::Revoke(peer) => {
                authenticator.revoke(&peer);
                gate.forget(&peer);
                let mut cut: Vec<PeerId> = Vec::new();
                cut.push(peer);
                cut
            },
            GuardControl::Allow { peer, roles } => {
                authenticator.whitelist_mut().allow(peer, roles);
                Vec::new()
            },
            GuardControl::ReloadWhitelist(list) => reload(authenticator, gate, list),
        }
    }

    /// Checks at a given time (nanoseconds) whether a graceful stop is over.
    pub fn drain_check(&self, gate: &StreamGate, now: u128) -> (r: DrainCheck)
        ensures
            r == match self@.shutdown_deadline {
                None => DrainCheck::Continue,
                Some(deadline) => if gate@.in_use == 0 {
                    DrainCheck::AllDone
                } else if now >= deadline {
                    DrainCheck::Expired
                } else {
                    DrainCheck::Continue
                },
            },
    {
        match self.shutdown_deadline {
            None => DrainCheck::Continue,
            Some(deadline) => {
                if gate.idle() {
                    DrainCheck::AllDone
                } else if now >= deadline {
                    DrainCheck::Expired
                } else {
                    DrainCheck::Continue
                }
            },
        }
    }
}

/// The bytes of peers.
pub open spec fn peer_views(v: Seq<PeerId>) -> Seq<Seq<u8>> {
    Seq::new(v.len(), |i: int| v[i]@)
}

/// Replaces the whitelist, closes the sessions of the peers that lose their access, and
/// returns these peers.
fn reload(
    authenticator: &mut GuardAuthenticator,
    gate: &mut StreamGate,
    list: Whitelist,
) -> (r: Vec<PeerId>)
    requires
        old(authenticator).wf(),
        old(gate).wf(),
        list.wf(),
    ensures
        final(authenticator).wf(),
        final(gate).wf(),
        final(authenticator)@ == after_reload(old(authenticator)@, list@),
        final(gate)@ == (GateModel {
            peers: old(gate)@.peers.remove_keys(
                old(authenticator)@.sessions.dom().difference(list@.dom()),
            ),
            ..old(gate)@
        }),
        forall|p: Seq<u8>|
            (old(authenticator)@.sessions.contains_key(p) && !list@.contains_key(p))
                <==> #[trigger] peer_views(r@).contains(p),
{
    let ghost before = authenticator@;
    let ghost gate_before = gate@;
    let ghost new_list = list@;
    let ghost lost = before.sessions.dom().difference(new_list.dom());
    // Who loses access is found before the list is replaced.
    let peers = authenticator.authenticated_peers();
    let mut cut: Vec<PeerId> = Vec::new();
    let mut i: usize = 0;
    while i < peers.len()
        invariant
            i <= peers@.len(),
            list.wf(),
            list@ == new_list,
            forall|j: int|
                0 <= j < cut@.len() ==> exists|k: int|
                    0 <= k < i && (#[trigger] peers@[k])@ == (#[trigger] cut@[j])@,
            forall|j: int|
                0 <= j < cut@.len() ==> !new_list.contains_key((#[trigger] cut@[j])@),
            forall|k: int|
                0 <= k < i && !new_list.contains_key((#[trigger] peers@[k])@) ==> peer_views(
                    cut@,
                ).contains(peers@[k]@),
        decreases peers@.len() - i,
    {
        let ghost cut_before = cut@;
        if list.roles(&peers[i]).is_none() {
            cut.push(peers[i].clone());
            proof {
                assert(peer_views(cut@)[cut_before.len() as int] == peers@[i as int]@);
                assert forall|p: Seq<u8>|
                    peer_views(cut_before).contains(p) implies #[trigger] peer_views(
                    cut@,
                ).contains(p) by {
                    let j = choose|j: int|
                        0 <= j < peer_views(cut_before).len() && peer_views(cut_before)[j] == p;
                    assert(peer_views(cut@)[j] == p);
                }
            }
        }
        i += 1;
    }
    proof {
        assert forall|p: Seq<u8>| lost.contains(p) <==> #[trigger] peer_views(cut@).contains(p) by {
            if lost.contains(p) {
                assert(before.sessions.contains_key(p));
                let k = choose|k: int| 0 <= k < peers@.len() && (#[trigger] peers@[k])@ == p;
                assert(!new_list.contains_key(peers@[k]@));
            }
            if peer_views(cut@).contains(p) {
                let j = choose|j: int| 0 <= j < peer_views(cut@).len() && peer_views(cut@)[j] == p;
                assert(cut@[j]@ == p);
                let k = choose|k: int| 0 <= k < peers@.len() && (#[trigger] peers@[k])@ == p;
                assert(before.sessions.contains_key(peers@[k]@));
            }
        }
    }
    *authenticator.whitelist_mut() = list;
    let mut n: usize = 0;
    while n < cut.len()
        invariant
            n <= cut@.len(),
            authenticator.wf(),
            gate.wf(),
            forall|p: Seq<u8>| lost.contains(p) <==> #[trigger] peer_views(cut@).contains(p),
            lost == before.sessions.dom().difference(new_list.dom()),
            authenticator@.whitelist == new_list,
            authenticator@.pending == before.pending.remove_keys(
                peer_views(cut@).take(n as int).to_set(),
            ),
            authenticator@.sessions == before.sessions.remove_keys(
                peer_views(cut@).take(n as int).to_set(),
            ),
            gate@ == (GateModel {
                peers: gate_before.peers.remove_keys(peer_views(cut@).take(n as int).to_set()),
                ..gate_before
            }),
        decreases cut@.len() - n,
    {
        let ghost views = peer_views(cut@);
        let ghost done = views.take(n as int).to_set();
        let ghost next = views.take(n + 1).to_set();
        let ghost here = authenticator@;
        proof {
            assert(views.contains(views[n as int]));
            assert(lost.contains(views[n as int]));
            assert(next =~= done.insert(views[n as int])) by {
                assert(views.take(n + 1) =~= views.take(n as int).push(views[n as int]));
                assert forall|p: Seq<u8>| next.contains(p) <==> done.insert(
                    views[n as int],
                ).contains(p) by {
                    let t = views.take(n as int);
                    let u = views.take(n + 1);
                    if next.contains(p) {
                        let j = choose|j: int| 0 <= j < u.len() && u[j] == p;
                        if j < n {
                            assert(t[j] == p);
                        }
                    }
                    if done.contains(p) {
                        let j = choose|j: int| 0 <= j < t.len() && t[j] == p;
                        assert(u[j] == p);
                    }
                    assert(u[n as int] == views[n as int]);
                }
            }
        }
        authenticator.revoke(&cut[n]);
        gate.forget(&cut[n]);
        proof {
            assert(here.after_revoke(views[n as int]).whitelist =~= new_list);
            assert(authenticator@.pending =~= before.pending.remove_keys(next));
            assert(authenticator@.sessions =~= before.sessions.remove_keys(next));
            assert(gate@.peers =~= gate_before.peers.remove_keys(next));
        }
        n += 1;
    }
    proof {
        let views = peer_views(cut@);
        assert(views.take(cut@.len() as int) =~= views);
        assert(views.to_set() =~= lost) by {
            assert forall|p: Seq<u8>| views.to_set().contains(p) <==> lost.contains(p) by {
                assert(views.to_set().contains(p) <==> views.contains(p));
            }
        }
    }
    cut
}

} // verus!
