//! Laws of the exchanges between a Client and a Guard.

use vstd::prelude::*;
use crate::auth::{GuardModel, MAX_CLOCK_SKEW_SECS};
use crate::error::NuxError;
use crate::metrics::MetricsModel;
use crate::node::guard::GuardActionModel;
use crate::node::handshake::{HandshakeAction, Phase};
use crate::node::{NodeEvent, Registration};
use crate::protocol::{NuxRequest, NuxResponse, RequestModel, ResponseModel};
use crate::tunnel::gate::GateModel;

verus! {

/// A refusal is silent: a Guard answers a peer only by a challenge, to a peer of its
/// whitelist, or by roles, to an accepted answer. It never sends a diagnosis.
pub proof fn guard_answers_only_authorised_peers(
    m: GuardModel,
    stopping: bool,
    peer: Seq<u8>,
    request: RequestModel,
    nonce: Seq<u8>,
    now: u64,
)
    ensures
        match crate::node::guard::reply(m, stopping, peer, request, nonce, now) {
            GuardActionModel::Respond(response) => m.whitelist.contains_key(peer) && match response {
                ResponseModel::Challenge { .. } => request is HandshakeInit && !stopping,
                ResponseModel::AccessGranted { .. } => request matches RequestModel::ChallengeAnswer {
                    signature,
                    timestamp,
                } && m.accepts(peer, signature, timestamp, now),
                ResponseModel::Denied => false,
            },
            GuardActionModel::Silence(p) => p == peer,
            GuardActionModel::Ignore => false,
        },
{
}

/// A graceful stop cannot be told from a peer that is not in the whitelist: a new
/// handshake gets the same silence, and changes nothing.
pub proof fn stop_looks_like_an_unknown_peer(
    m: GuardModel,
    unknown_to: GuardModel,
    peer: Seq<u8>,
    nonce: Seq<u8>,
    now: u64,
)
    requires
        !unknown_to.whitelist.contains_key(peer),
    ensures
        crate::node::guard::reply(m, true, peer, RequestModel::HandshakeInit, nonce, now)
            == crate::node::guard::reply(
            unknown_to,
            false,
            peer,
            RequestModel::HandshakeInit,
            nonce,
            now,
        ),
        crate::node::guard::after_request(m, true, peer, RequestModel::HandshakeInit, nonce, now)
            == m,
{
}

/// Two refused requests cannot be told apart, whatever the reason.
pub proof fn refusals_look_alike(
    m1: GuardModel,
    stopping1: bool,
    request1: RequestModel,
    nonce1: Seq<u8>,
    now1: u64,
    m2: GuardModel,
    stopping2: bool,
    request2: RequestModel,
    nonce2: Seq<u8>,
    now2: u64,
    peer: Seq<u8>,
)
    requires
        !(crate::node::guard::reply(m1, stopping1, peer, request1, nonce1, now1) is Respond),
        !(crate::node::guard::reply(m2, stopping2, peer, request2, nonce2, now2) is Respond),
    ensures
        crate::node::guard::reply(m1, stopping1, peer, request1, nonce1, now1)
            == crate::node::guard::reply(m2, stopping2, peer, request2, nonce2, now2),
{
}

/// The handshake succeeds from end to end. A Client whose identity is in the whitelist
/// opens a session at `t0`; the Guard answers by a challenge; the Client answers it at
/// `tc`; the Guard reads the answer at `tg`. If the clocks agree within the window, the
/// Guard grants the roles of the whitelist, and the Client ends with these roles.
pub proof fn handshake_succeeds(
    m: GuardModel,
    peer: Seq<u8>,
    secret: Seq<u8>,
    guard: Seq<u8>,
    t0: u64,
    id1: u64,
    challenge: NodeEvent,
    nonce: Seq<u8>,
    tc: u64,
    after1: Phase,
    action1: HandshakeAction,
    stopping: bool,
    tg: u64,
    unused: Seq<u8>,
    id2: u64,
    grant: NodeEvent,
    roles: Vec<String>,
    t3: u64,
    after2: Phase,
    action2: HandshakeAction,
)
    requires
        m.whitelist.contains_key(peer),
        crate::peer::peer_public_key(peer) == Some(crate::identity::ed25519_public_key(secret)),
        challenge matches NodeEvent::AuthResponse(p, n, response) && p@ == guard && n == id1
            && response@ == (ResponseModel::Challenge { nonce, timestamp: t0 }),
        crate::node::handshake::handshake_step(
            guard,
            secret,
            Phase::AwaitingChallenge(id1),
            challenge,
            tc,
            after1,
            action1,
        ),
        tg <= t0 + MAX_CLOCK_SKEW_SECS,
        tg <= tc + MAX_CLOCK_SKEW_SECS,
        tc <= tg + MAX_CLOCK_SKEW_SECS,
        grant matches NodeEvent::AuthResponse(p, n, response) && p@ == guard && n == id2 && response
            == (NuxResponse::AccessGranted { roles }),
        crate::node::handshake::handshake_step(
            guard,
            secret,
            Phase::AwaitingGrant(id2),
            grant,
            t3,
            after2,
            action2,
        ),
    ensures
        crate::node::guard::reply(m, false, peer, RequestModel::HandshakeInit, nonce, t0)
            == GuardActionModel::Respond(ResponseModel::Challenge { nonce, timestamp: t0 }),
        action1 matches HandshakeAction::Send(request, _) && crate::node::guard::reply(
            m.after_issue(peer, nonce, t0),
            stopping,
            peer,
            request@,
            unused,
            tg,
        ) == GuardActionModel::Respond(
            ResponseModel::AccessGranted { roles: m.whitelist[peer] },
        ),
        after1 == Phase::Sending(true),
        action2 matches HandshakeAction::Done(Ok(granted)) && granted == roles,
{
}

/// A reload of the whitelist cuts the sessions of the peers that lost their access, and
/// keeps the others with the roles of the new list.
pub proof fn reload_cuts_exactly_the_lost_sessions(
    m: GuardModel,
    list: Map<Seq<u8>, Seq<Seq<char>>>,
    peer: Seq<u8>,
)
    ensures
        crate::node::guard::after_reload(m, list).session_roles(peer)
            == if m.sessions.contains_key(peer) && list.contains_key(peer) {
            Some(list[peer])
        } else {
            None
        },
        crate::node::guard::after_reload(m, list).sessions.contains_key(peer) == (
        m.sessions.contains_key(peer) && list.contains_key(peer)),
{
}

/// A revocation concerns one peer: the others keep their roles, their challenges, their
/// sessions and their streams.
pub proof fn revocation_leaves_the_others_alone(
    m: GuardModel,
    gate: GateModel,
    peer: Seq<u8>,
    other: Seq<u8>,
)
    requires
        peer != other,
    ensures
        m.after_revoke(peer).whitelist.contains_key(other) == m.whitelist.contains_key(other),
        m.whitelist.contains_key(other) ==> m.after_revoke(peer).whitelist[other]
            == m.whitelist[other],
        m.after_revoke(peer).pending.contains_key(other) == m.pending.contains_key(other),
        m.pending.contains_key(other) ==> m.after_revoke(peer).pending[other] == m.pending[other],
        m.after_revoke(peer).sessions.contains_key(other) == m.sessions.contains_key(other),
        m.after_revoke(peer).session_roles(other) == m.session_roles(other),
        gate.after_forget(peer).account(other) == gate.account(other),
{
}

/// A Guard that cuts is a Guard that refuses. While the Client awaits an answer, be it the
/// challenge or the grant, the failure of its request, the close of the connection to the
/// Guard and an explicit refusal all end the handshake with a denied access.
pub proof fn cut_is_a_refusal(
    guard: Seq<u8>,
    secret: Seq<u8>,
    phase: Phase,
    id: u64,
    event: NodeEvent,
    now: u64,
    after: Phase,
    action: HandshakeAction,
)
    requires
        crate::node::handshake::handshake_step(guard, secret, phase, event, now, after, action),
        phase == Phase::AwaitingChallenge(id) || phase == Phase::AwaitingGrant(id),
        (event matches NodeEvent::AuthFailure(p, n) && p@ == guard && n == id) || (
        event matches NodeEvent::ConnectionClosed(p, _) && p@ == guard) || (
        event matches NodeEvent::AuthResponse(p, n, response) && p@ == guard && n == id
            && response is Denied),
    ensures
        after == Phase::Over,
        action matches HandshakeAction::Done(Err(NuxError::AccessDenied)),
{
}

/// A Client opens the handshake as soon as the Guard is connected, and gives up with the
/// reason if the Guard cannot be dialled.
pub proof fn connection_opens_the_handshake(
    guard: Seq<u8>,
    secret: Seq<u8>,
    event: NodeEvent,
    now: u64,
    after: Phase,
    action: HandshakeAction,
)
    requires
        crate::node::handshake::handshake_step(
            guard,
            secret,
            Phase::Connecting,
            event,
            now,
            after,
            action,
        ),
    ensures
        match event {
            NodeEvent::ConnectionEstablished(p) => p@ == guard ==> after == Phase::Sending(false)
                && (action matches HandshakeAction::Send(request, warn) && request
                == NuxRequest::HandshakeInit && !warn),
            NodeEvent::OutgoingConnectionError(Some(p), why) => p@ == guard ==> after
                == Phase::Over && (action matches HandshakeAction::Done(Err(NuxError::Dial(m)))
                && m@ == why@),
            _ => true,
        },
{
}

/// The Client answers the challenge it awaits by its signature of the nonce and of its time,
/// and warns if its clock and that of the Guard are more than five seconds apart.
pub proof fn challenge_is_answered(
    guard: Seq<u8>,
    secret: Seq<u8>,
    id: u64,
    from: crate::peer::PeerId,
    nonce: [u8; 32],
    timestamp: u64,
    now: u64,
    after: Phase,
    action: HandshakeAction,
)
    requires
        crate::node::handshake::handshake_step(
            guard,
            secret,
            Phase::AwaitingChallenge(id),
            NodeEvent::AuthResponse(from, id, NuxResponse::Challenge { nonce, timestamp }),
            now,
            after,
            action,
        ),
        from@ == guard,
    ensures
        after == Phase::Sending(true),
        action matches HandshakeAction::Send(NuxRequest::ChallengeAnswer { signature, timestamp: t }, _)
            && t == now && crate::peer::signature_valid(
            crate::identity::ed25519_public_key(secret),
            crate::protocol::signed_bytes(nonce@, now),
            signature@,
        ),
        action matches HandshakeAction::Send(_, warn) && (warn <==> (now - timestamp > 5
            || timestamp - now > 5)),
{
}

/// The Client ends with exactly the roles that the Guard grants to its answer.
pub proof fn granted_roles_are_returned(
    guard: Seq<u8>,
    secret: Seq<u8>,
    id: u64,
    from: crate::peer::PeerId,
    roles: Vec<String>,
    now: u64,
    after: Phase,
    action: HandshakeAction,
)
    requires
        crate::node::handshake::handshake_step(
            guard,
            secret,
            Phase::AwaitingGrant(id),
            NodeEvent::AuthResponse(from, id, NuxResponse::AccessGranted { roles }),
            now,
            after,
            action,
        ),
        from@ == guard,
    ensures
        after == Phase::Over,
        action matches HandshakeAction::Done(Ok(granted)) && granted@ == roles@,
{
}

/// An answer that does not come in its turn ends the handshake with a protocol error: roles
/// before the challenge was answered, or another challenge after it.
pub proof fn answer_out_of_turn_is_an_error(
    guard: Seq<u8>,
    secret: Seq<u8>,
    phase: Phase,
    id: u64,
    from: crate::peer::PeerId,
    response: NuxResponse,
    now: u64,
    after: Phase,
    action: HandshakeAction,
)
    requires
        crate::node::handshake::handshake_step(
            guard,
            secret,
            phase,
            NodeEvent::AuthResponse(from, id, response),
            now,
            after,
            action,
        ),
        from@ == guard,
        (phase == Phase::AwaitingChallenge(id) && response is AccessGranted) || (phase
            == Phase::AwaitingGrant(id) && response is Challenge),
    ensures
        after == Phase::Over,
        action matches HandshakeAction::Done(Err(NuxError::Protocol(_))),
{
}

/// What does not concern the handshake does not move it: events of other peers, answers to
/// other requests, and anything at all before a request is sent or once the handshake is
/// over.
pub proof fn other_events_do_not_move_the_handshake(
    guard: Seq<u8>,
    secret: Seq<u8>,
    phase: Phase,
    event: NodeEvent,
    now: u64,
    after: Phase,
    action: HandshakeAction,
)
    requires
        crate::node::handshake::handshake_step(guard, secret, phase, event, now, after, action),
        phase == Phase::Over || phase is Sending || match event {
            NodeEvent::ConnectionEstablished(p) => p@ != guard || phase != Phase::Connecting,
            NodeEvent::OutgoingConnectionError(Some(p), _) => p@ != guard || phase
                != Phase::Connecting,
            NodeEvent::ConnectionClosed(p, _) => p@ != guard || phase == Phase::Connecting,
            NodeEvent::AuthResponse(p, n, _) => p@ != guard || !(phase == Phase::AwaitingChallenge(n)
                || phase == Phase::AwaitingGrant(n)),
            NodeEvent::AuthFailure(p, n) => p@ != guard || !(phase == Phase::AwaitingChallenge(n)
                || phase == Phase::AwaitingGrant(n)),
            _ => true,
        },
    ensures
        after == phase,
        action is Wait,
{
}

/// The addresses to dial are those of the registrations, one registration after the other
/// and each in its order: none is left out, added or moved.
pub proof fn candidates_follow_the_registrations(
    first: Seq<Registration>,
    second: Seq<Registration>,
    one: Registration,
)
    ensures
        crate::node::wait::candidates(Seq::<Registration>::empty()).len() == 0,
        crate::node::wait::candidates(seq![one]).len() == one.addresses@.len(),
        forall|j: int|
            0 <= j < one.addresses@.len() ==> (#[trigger] crate::node::wait::candidates(seq![one])[j])
                == (one.peer@, one.addresses@[j]@),
        crate::node::wait::candidates(first + second) == crate::node::wait::candidates(first)
            + crate::node::wait::candidates(second),
    decreases second.len(),
{
    assert(seq![one].drop_last() =~= Seq::empty());
    assert(crate::node::wait::candidates(seq![one].drop_last()) =~= Seq::empty());
    if second.len() > 0 {
        candidates_follow_the_registrations(first, second.drop_last(), one);
        assert((first + second).drop_last() =~= first + second.drop_last());
        assert((first + second).last() == second.last());
        assert(crate::node::wait::candidates(first + second) =~= crate::node::wait::candidates(
            first,
        ) + crate::node::wait::candidates(second));
    } else {
        assert(first + second =~= first);
        assert(crate::node::wait::candidates(first + second) =~= crate::node::wait::candidates(
            first,
        ) + crate::node::wait::candidates(second));
    }
}

/// Every address of every peer of the namespace is dialled in its turn: address `j` of
/// registration `i` comes after all the addresses of the registrations before it, and is
/// that far behind the first one of its registration.
pub proof fn every_registered_address_is_a_candidate(
    registrations: Seq<Registration>,
    i: int,
    j: int,
)
    requires
        0 <= i < registrations.len(),
        0 <= j < registrations[i].addresses@.len(),
    ensures
        ({
            let all = crate::node::wait::candidates(registrations);
            let before = crate::node::wait::candidates(registrations.take(i)).len();
            &&& before + j < all.len()
            &&& all[before + j] == (registrations[i].peer@, registrations[i].addresses@[j]@)
            &&& all.contains((registrations[i].peer@, registrations[i].addresses@[j]@))
        }),
{
    let one = registrations[i];
    let head = registrations.take(i);
    let tail = registrations.skip(i + 1);
    candidates_follow_the_registrations(head, seq![one], one);
    candidates_follow_the_registrations(head + seq![one], tail, one);
    assert(head + seq![one] + tail =~= registrations);
    let all = crate::node::wait::candidates(registrations);
    let before = crate::node::wait::candidates(head).len();
    assert(all[before + j] == crate::node::wait::candidates(seq![one])[j]);
}

/// A peer of the whitelist that opens a handshake gets a challenge, which it may then
/// answer, unless the Guard is stopping; any other peer gets silence and leaves no trace.
pub proof fn handshake_of_a_known_peer_gets_a_challenge(
    m: GuardModel,
    stopping: bool,
    peer: Seq<u8>,
    nonce: Seq<u8>,
    now: u64,
)
    ensures
        ({
            let action = crate::node::guard::reply(
                m,
                stopping,
                peer,
                RequestModel::HandshakeInit,
                nonce,
                now,
            );
            let after = crate::node::guard::after_request(
                m,
                stopping,
                peer,
                RequestModel::HandshakeInit,
                nonce,
                now,
            );
            if m.whitelist.contains_key(peer) && !stopping {
                &&& action == GuardActionModel::Respond(
                    ResponseModel::Challenge { nonce, timestamp: now },
                )
                &&& after.pending == m.pending.insert(peer, (nonce, now))
                &&& after.whitelist == m.whitelist
                &&& after.sessions == m.sessions
            } else {
                action == GuardActionModel::Silence(peer) && after == m
            }
        }),
{
}

/// An answer to a challenge gets the roles of the whitelist and a session, if it is given
/// within five seconds, by a peer still in the whitelist, with the signature of the nonce and
/// of a time within five seconds by the key of the peer; else it gets silence and no session.
/// Either way the challenge is used up, and the other peers see no difference.
pub proof fn good_answer_gets_the_roles(
    m: GuardModel,
    stopping: bool,
    peer: Seq<u8>,
    signature: Seq<u8>,
    timestamp: u64,
    nonce: Seq<u8>,
    now: u64,
    other: Seq<u8>,
)
    requires
        peer != other,
    ensures
        ({
            let request = RequestModel::ChallengeAnswer { signature, timestamp };
            let action = crate::node::guard::reply(m, stopping, peer, request, nonce, now);
            let after = crate::node::guard::after_request(m, stopping, peer, request, nonce, now);
            let key = crate::peer::peer_public_key(peer);
            let good = m.pending.contains_key(peer) && m.whitelist.contains_key(peer) && now
                - m.pending[peer].1 <= 5 && now - timestamp <= 5 && timestamp - now <= 5
                && key is Some && crate::peer::signature_valid(
                key->0,
                crate::protocol::signed_bytes(m.pending[peer].0, timestamp),
                signature,
            );
            &&& action == if good {
                GuardActionModel::Respond(ResponseModel::AccessGranted { roles: m.whitelist[peer] })
            } else {
                GuardActionModel::Silence(peer)
            }
            &&& !after.pending.contains_key(peer)
            &&& after.whitelist == m.whitelist
            &&& good ==> after.sessions == m.sessions.insert(peer, m.whitelist[peer])
            &&& !good ==> after.sessions == m.sessions
            &&& after.pending.contains_key(other) == m.pending.contains_key(other)
            &&& m.pending.contains_key(other) ==> after.pending[other] == m.pending[other]
        }),
{
}

/// Each request is counted once: a silence as a refusal, roles as a grant, and a challenge
/// not at all.
pub proof fn requests_are_counted(c: MetricsModel, action: GuardActionModel)
    requires
        c.auth_denied < u64::MAX,
        c.auth_granted < u64::MAX,
    ensures
        ({
            let after = crate::node::guard::count_request(c, action);
            &&& after.auth_denied == c.auth_denied + if action is Silence {
                1int
            } else {
                0
            }
            &&& after.auth_granted == c.auth_granted + if action matches GuardActionModel::Respond(
                response,
            ) && response is AccessGranted {
                1int
            } else {
                0
            }
            &&& after.tunnels_opened == c.tunnels_opened
            &&& after.tunnels_denied == c.tunnels_denied
            &&& after.tunnels_active == c.tunnels_active
            &&& after.bytes_from_peer == c.bytes_from_peer
            &&& after.bytes_to_peer == c.bytes_to_peer
        }),
{
}

/// A reload puts the new list in the place of the old one. A challenge that a peer awaits
/// stays, unless the peer had a session and lost its access.
pub proof fn reload_replaces_the_whitelist(
    m: GuardModel,
    list: Map<Seq<u8>, Seq<Seq<char>>>,
    peer: Seq<u8>,
)
    ensures
        crate::node::guard::after_reload(m, list).whitelist == list,
        crate::node::guard::after_reload(m, list).pending.contains_key(peer) == (
        m.pending.contains_key(peer) && (list.contains_key(peer) || !m.sessions.contains_key(
            peer,
        ))),
        crate::node::guard::after_reload(m, list).pending.contains_key(peer)
            ==> crate::node::guard::after_reload(m, list).pending[peer] == m.pending[peer],
{
}

/// Contents of lists of peers, and of peers with addresses, are those of all their items, in
/// order; and the content of an action is that action.
pub proof fn peers_are_taken_as_they_are(
    peers: Seq<crate::peer::PeerId>,
    found: Seq<(crate::peer::PeerId, crate::addr::Multiaddr)>,
    action: crate::node::GuardAction,
    i: int,
)
    ensures
        crate::node::guard::peer_views(peers).len() == peers.len(),
        0 <= i < peers.len() ==> crate::node::guard::peer_views(peers)[i] == peers[i]@,
        crate::node::wait::pairs(found).len() == found.len(),
        0 <= i < found.len() ==> crate::node::wait::pairs(found)[i] == (found[i].0@, found[i].1@),
        match action {
            crate::node::GuardAction::Ignore => action@ is Ignore,
            crate::node::GuardAction::Respond(m) => action@ == GuardActionModel::Respond(m@),
            crate::node::GuardAction::Silence(p) => action@ == GuardActionModel::Silence(p@),
        },
{
}

} // verus!
