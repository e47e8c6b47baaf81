//! Nodes: Guard and Client as step functions.

use nux_core::auth::{answer_challenge, GuardAuthenticator, Whitelist};
use nux_core::builder::{
    IdentitySource, NuxNodeBuilder, DEFAULT_IDLE_TIMEOUT_MS, DEFAULT_REQUEST_TIMEOUT_MS,
};
use nux_core::addr::IpAddr;
use nux_core::error::NuxError;
use nux_core::identity::{generate, Keypair};
use nux_core::node::guard::{DrainCheck, GuardAction, StreamAction};
use nux_core::node::handshake::{Handshake, HandshakeAction};
use nux_core::node::session::{run_client_session, Backoff, SessionAction};
use nux_core::node::wait::{
    next_connection, register_namespace, wait_for_circuit_reservation, wait_for_listen_addr,
    wait_for_peer, Discovery,
};
use nux_core::node::{GuardControl, NodeEvent, NodeMode, NuxNode, Registration};
use nux_core::protocol::{NuxRequest, NuxResponse};
use nux_core::rate_limit::{DEFAULT_MAX_PER_WINDOW, DEFAULT_WINDOW};
use nux_core::tunnel::gate::StreamGate;
use nux_core::tunnel::TunnelOutcome;
use nux_core::{Multiaddr, Namespace, PeerId};

const SEC: u128 = 1_000_000_000;

struct Guard {
    node: NuxNode,
    authenticator: GuardAuthenticator,
    gate: StreamGate,
}

fn guard(allowed: &[(&PeerId, &[&str])]) -> Guard {
    Guard {
        node: NuxNode::new(NodeMode::Guard, generate()),
        authenticator: GuardAuthenticator::new(whitelist(allowed)),
        gate: StreamGate::new(2, 10),
    }
}

fn whitelist(allowed: &[(&PeerId, &[&str])]) -> Whitelist {
    let mut list = Whitelist::new();
    for (peer, roles) in allowed {
        list.allow((*peer).clone(), roles.iter().map(|r| r.to_string()).collect());
    }
    list
}

impl Guard {
    fn request(&mut self, peer: &PeerId, request: NuxRequest) -> GuardAction {
        self.node.handle_guard_event(
            &mut self.authenticator,
            &mut self.gate,
            NodeEvent::AuthRequest(peer.clone(), request),
        )
    }

    fn control(&mut self, command: GuardControl) -> Vec<PeerId> {
        self.node
            .handle_control(&mut self.authenticator, &mut self.gate, command, 100 * SEC)
    }

    fn stream(&mut self, peer: &PeerId) -> StreamAction {
        self.node
            .handle_tunnel_stream(&self.authenticator, &mut self.gate, peer)
    }
}

/// Plays the whole handshake of a client against a Guard.
fn authenticate(guard: &mut Guard, client: &Keypair) -> Result<Vec<String>, NuxError> {
    let guard_id = guard.node.local_peer_id();
    let (mut handshake, mut action) = Handshake::start(guard_id.clone(), true);
    let mut id = 0;
    loop {
        match action {
            HandshakeAction::Done(result) => return result,
            HandshakeAction::Wait => panic!("le handshake attend sans raison"),
            HandshakeAction::Send(request, _) => {
                id += 1;
                handshake.sent(id);
                let event = match guard.request(&client.peer_id(), request) {
                    GuardAction::Respond(response) => {
                        NodeEvent::AuthResponse(guard_id.clone(), id, response)
                    }
                    GuardAction::Silence(peer) => {
                        assert_eq!(peer, client.peer_id());
                        NodeEvent::AuthFailure(guard_id.clone(), id)
                    }
                    GuardAction::Ignore => panic!("requête ignorée"),
                };
                action = handshake.authenticate(client, event);
            }
        }
    }
}

#[test]
fn whitelisted_client_authenticates_and_receives_roles() {
    let client = generate();
    let mut guard = guard(&[(&client.peer_id(), &["db-writer", "metrics"])]);
    let roles = authenticate(&mut guard, &client).unwrap();
    assert_eq!(roles, vec!["db-writer".to_string(), "metrics".to_string()]);
    assert!(guard.node.metrics().to_prometheus_text().contains("nux_auth_granted_total 1"));
}

#[test]
fn unknown_client_is_cut_off_in_radio_silence() {
    let (client, other) = (generate(), generate());
    let mut guard = guard(&[(&other.peer_id(), &["admin"])]);
    let err = authenticate(&mut guard, &client).err().unwrap();
    assert!(matches!(err, NuxError::AccessDenied));
    assert!(guard.node.metrics().to_prometheus_text().contains("nux_auth_denied_total 1"));
}

#[test]
fn revoked_peer_cannot_reauthenticate() {
    let client = generate();
    let mut guard = guard(&[(&client.peer_id(), &["reader"])]);
    assert!(authenticate(&mut guard, &client).is_ok());
    assert_eq!(guard.control(GuardControl::Revoke(client.peer_id())), vec![client.peer_id()]);
    assert!(matches!(authenticate(&mut guard, &client), Err(NuxError::AccessDenied)));
}

#[test]
fn revoked_peer_loses_tunnel_access() {
    let client = generate();
    let mut guard = guard(&[(&client.peer_id(), &["ops"])]);
    assert!(authenticate(&mut guard, &client).is_ok());
    assert!(matches!(guard.stream(&client.peer_id()), StreamAction::Serve(_, _)));
    guard.control(GuardControl::Revoke(client.peer_id()));
    assert!(!matches!(guard.stream(&client.peer_id()), StreamAction::Serve(_, _)));
}

#[test]
fn per_peer_stream_cap_blocks_amplification() {
    let client = generate();
    let mut guard = guard(&[(&client.peer_id(), &["ops"])]);
    assert!(authenticate(&mut guard, &client).is_ok());
    let StreamAction::Serve(roles, permit) = guard.stream(&client.peer_id()) else {
        panic!("flux attendu");
    };
    assert_eq!(roles, vec!["ops".to_string()]);
    assert!(matches!(guard.stream(&client.peer_id()), StreamAction::Serve(_, _)));
    assert!(matches!(guard.stream(&client.peer_id()), StreamAction::Drop));
    guard.node.finish_tunnel_stream(
        &mut guard.gate,
        permit,
        TunnelOutcome::Served { bytes_from_peer: 1, bytes_to_peer: 2 },
    );
    assert!(matches!(guard.stream(&client.peer_id()), StreamAction::Serve(_, _)));
    let text = guard.node.metrics().to_prometheus_text();
    assert!(text.contains("nux_tunnels_denied_total 1"));
    assert!(text.contains("nux_tunnels_active 2"));
    assert!(text.contains("nux_bytes_to_peer_total 2"));
}

#[test]
fn reload_whitelist_revokes_dropped_peer_but_spares_others() {
    let (dropped, kept) = (generate(), generate());
    let mut guard = guard(&[(&dropped.peer_id(), &["ops"]), (&kept.peer_id(), &["ops"])]);
    assert!(authenticate(&mut guard, &dropped).is_ok());
    assert!(authenticate(&mut guard, &kept).is_ok());
    let list = whitelist(&[(&kept.peer_id(), &["ops"])]);
    assert_eq!(guard.control(GuardControl::ReloadWhitelist(list)), vec![dropped.peer_id()]);
    assert!(!matches!(guard.stream(&dropped.peer_id()), StreamAction::Serve(_, _)));
    assert!(matches!(guard.stream(&kept.peer_id()), StreamAction::Serve(_, _)));
}

#[test]
fn reload_whitelist_narrows_roles_without_disconnecting() {
    let client = generate();
    let mut guard = guard(&[(&client.peer_id(), &["admin"])]);
    assert!(authenticate(&mut guard, &client).is_ok());
    let list = whitelist(&[(&client.peer_id(), &["reader"])]);
    assert!(guard.control(GuardControl::ReloadWhitelist(list)).is_empty());
    let StreamAction::Serve(roles, _) = guard.stream(&client.peer_id()) else {
        panic!("flux attendu");
    };
    assert_eq!(roles, vec!["reader".to_string()]);
}

#[test]
fn unauthenticated_peer_cannot_open_tunnels() {
    let client = generate();
    let mut guard = guard(&[(&client.peer_id(), &["admin"])]);
    assert!(matches!(guard.stream(&client.peer_id()), StreamAction::Disconnect));
}

#[test]
fn graceful_shutdown_refuses_new_auth_but_drains_in_flight_tunnel() {
    let (active, late) = (generate(), generate());
    let mut guard = guard(&[(&active.peer_id(), &["ops"]), (&late.peer_id(), &["ops"])]);
    assert!(authenticate(&mut guard, &active).is_ok());
    let StreamAction::Serve(_, permit) = guard.stream(&active.peer_id()) else {
        panic!("flux attendu");
    };
    assert_eq!(guard.node.drain_check(&guard.gate, 100 * SEC), DrainCheck::Continue);
    guard.control(GuardControl::Shutdown { grace_period: 30 * SEC });
    assert!(matches!(authenticate(&mut guard, &late), Err(NuxError::AccessDenied)));
    assert_eq!(guard.node.drain_check(&guard.gate, 129 * SEC), DrainCheck::Continue);
    assert_eq!(guard.node.drain_check(&guard.gate, 130 * SEC), DrainCheck::Expired);
    guard.node.finish_tunnel_stream(&mut guard.gate, permit, TunnelOutcome::Denied);
    assert_eq!(guard.node.drain_check(&guard.gate, 101 * SEC), DrainCheck::AllDone);
}

#[test]
fn allowing_a_peer_at_run_time_lets_it_in() {
    let client = generate();
    let mut guard = guard(&[]);
    assert!(authenticate(&mut guard, &client).is_err());
    let roles = vec!["ops".to_string()];
    guard.control(GuardControl::Allow { peer: client.peer_id(), roles: roles.clone() });
    assert_eq!(authenticate(&mut guard, &client).unwrap(), roles);
}

#[test]
fn last_closed_connection_ends_the_session() {
    let client = generate();
    let mut guard = guard(&[(&client.peer_id(), &["ops"])]);
    assert!(authenticate(&mut guard, &client).is_ok());
    for (remaining, open) in [(1, true), (0, false)] {
        let action = guard.node.handle_guard_event(
            &mut guard.authenticator,
            &mut guard.gate,
            NodeEvent::ConnectionClosed(client.peer_id(), remaining),
        );
        assert!(matches!(action, GuardAction::Ignore));
        assert_eq!(guard.authenticator.session_roles(&client.peer_id()).is_some(), open);
    }
}

#[test]
fn requests_at_a_given_time_are_exact() {
    let client = generate();
    let mut guard = guard(&[(&client.peer_id(), &["ops"])]);
    let nonce = [9u8; 32];
    let action = guard.node.handle_auth_request_at(
        &mut guard.authenticator,
        client.peer_id(),
        NuxRequest::HandshakeInit,
        nonce,
        1000,
    );
    match action {
        GuardAction::Respond(response) => {
            assert_eq!(response, NuxResponse::Challenge { nonce, timestamp: 1000 })
        }
        _ => panic!("défi attendu"),
    }
    let action = guard.node.handle_auth_request(
        &mut guard.authenticator,
        client.peer_id(),
        answer_challenge(&client, &[0u8; 32]).unwrap(),
    );
    assert!(matches!(action, GuardAction::Silence(_)));
}

#[test]
fn handshake_waits_for_the_connection() {
    let client = generate();
    let guard = generate().peer_id();
    let (mut handshake, action) = Handshake::start(guard.clone(), false);
    assert!(matches!(action, HandshakeAction::Wait));
    let other = generate().peer_id();
    assert!(matches!(
        handshake.authenticate(&client, NodeEvent::ConnectionEstablished(other)),
        HandshakeAction::Wait
    ));
    assert!(matches!(
        handshake.authenticate(&client, NodeEvent::ConnectionEstablished(guard.clone())),
        HandshakeAction::Send(NuxRequest::HandshakeInit, false)
    ));

    let (mut handshake, _) = Handshake::start(guard.clone(), false);
    let failed = NodeEvent::OutgoingConnectionError(Some(guard), "refus".into());
    match handshake.authenticate(&client, failed) {
        HandshakeAction::Done(Err(NuxError::Dial(m))) => assert_eq!(m, "refus"),
        other => panic!("échec attendu, reçu {other:?}"),
    }
}

#[test]
fn handshake_answers_the_challenge_it_asked_for() {
    let client = generate();
    let guard = generate().peer_id();
    let (mut handshake, _) = Handshake::start(guard.clone(), true);
    handshake.sent(7);
    let challenge = NuxResponse::Challenge { nonce: [1u8; 32], timestamp: 50 };
    // The answer to another request is not the one awaited.
    assert!(matches!(
        handshake.authenticate_at(
            &client,
            NodeEvent::AuthResponse(guard.clone(), 8, challenge.clone()),
            50
        ),
        HandshakeAction::Wait
    ));
    assert!(matches!(
        handshake.authenticate_at(
            &client,
            NodeEvent::AuthResponse(guard.clone(), 7, challenge.clone()),
            50
        ),
        HandshakeAction::Send(NuxRequest::ChallengeAnswer { timestamp: 50, .. }, false)
    ));
    handshake.sent(9);
    assert!(matches!(
        handshake.authenticate_at(&client, NodeEvent::AuthResponse(guard.clone(), 9, challenge), 50),
        HandshakeAction::Done(Err(NuxError::Protocol(_)))
    ));

    let (mut handshake, _) = Handshake::start(guard.clone(), true);
    handshake.sent(1);
    assert!(matches!(
        handshake.authenticate(&client, NodeEvent::ConnectionClosed(guard, 0)),
        HandshakeAction::Done(Err(NuxError::AccessDenied))
    ));
}

#[test]
fn client_reconnects_after_the_last_connection_closes() {
    let guard = generate().peer_id();
    let other = generate().peer_id();
    assert_eq!(
        run_client_session(&guard, &NodeEvent::ConnectionClosed(guard.clone(), 0)),
        SessionAction::Reconnect
    );
    assert_eq!(
        run_client_session(&guard, &NodeEvent::ConnectionClosed(guard.clone(), 1)),
        SessionAction::Ignore
    );
    assert_eq!(
        run_client_session(&guard, &NodeEvent::ConnectionClosed(other, 0)),
        SessionAction::Ignore
    );
    let mut backoff = Backoff::new();
    let delays: Vec<u64> = (0..7).map(|_| backoff.next_delay()).collect();
    assert_eq!(delays, vec![1_000, 2_000, 4_000, 8_000, 16_000, 30_000, 30_000]);
}

#[test]
fn waits_end_on_their_event() {
    let (peer, other) = (generate().peer_id(), generate().peer_id());
    let addr = Multiaddr::parse("/ip4/127.0.0.1/tcp/4588").unwrap();
    assert_eq!(wait_for_listen_addr(NodeEvent::NewListenAddr(addr.clone())), Some(addr));
    assert!(wait_for_listen_addr(NodeEvent::Other).is_none());

    let connected = |p: &PeerId| NodeEvent::ConnectionEstablished(p.clone());
    assert!(matches!(next_connection(connected(&peer)), Some(Ok(p)) if p == peer));
    assert!(matches!(
        next_connection(NodeEvent::OutgoingConnectionError(None, "x".into())),
        Some(Err(NuxError::Dial(m))) if m == "x"
    ));
    assert!(matches!(wait_for_peer(&peer, connected(&peer)), Some(Ok(()))));
    assert!(wait_for_peer(&peer, connected(&other)).is_none());
    assert!(matches!(
        wait_for_peer(&peer, NodeEvent::OutgoingConnectionError(Some(peer.clone()), "x".into())),
        Some(Err(NuxError::Dial(_)))
    ));

    let accepted = |p: &PeerId| NodeEvent::ReservationAccepted(p.clone());
    assert!(matches!(wait_for_circuit_reservation(&peer, accepted(&peer)), Some(Ok(()))));
    assert!(wait_for_circuit_reservation(&peer, accepted(&other)).is_none());
    assert!(matches!(
        wait_for_circuit_reservation(&peer, NodeEvent::ConnectionClosed(peer.clone(), 0)),
        Some(Err(NuxError::Network(_)))
    ));
}

#[test]
fn discovery_resolves_namespace_to_authenticated_guard() {
    let server = generate().peer_id();
    let namespace = Namespace::new("prod-db").unwrap();
    assert!(matches!(
        register_namespace(
            &server,
            &namespace,
            NodeEvent::Registered(server.clone(), "prod-db".into())
        ),
        Some(Ok(()))
    ));
    assert!(register_namespace(
        &server,
        &namespace,
        NodeEvent::Registered(server.clone(), "autre".into())
    )
    .is_none());
    assert!(matches!(
        register_namespace(
            &server,
            &namespace,
            NodeEvent::RegisterFailed(server.clone(), "prod-db".into(), "plein".into())
        ),
        Some(Err(NuxError::Network(m))) if m == "enregistrement rendezvous refusé: plein"
    ));

    let guard = generate().peer_id();
    let first = Multiaddr::parse("/ip4/127.0.0.1/tcp/1").unwrap();
    let second = Multiaddr::parse("/ip4/127.0.0.1/tcp/2").unwrap();
    let found = NodeEvent::Discovered(
        server.clone(),
        vec![Registration {
            peer: guard.clone(),
            addresses: vec![first.clone(), second.clone()],
        }],
    );
    let Some(Ok(mut discovery)) = Discovery::start(&server, &namespace, found) else {
        panic!("découverte attendue");
    };
    assert_eq!(discovery.next_candidate().unwrap(), (guard.clone(), first));
    assert_eq!(discovery.next_candidate().unwrap(), (guard, second));
    assert!(matches!(
        discovery.next_candidate(),
        Err(NuxError::Network(m)) if m == "aucun pair joignable sous le namespace `prod-db`"
    ));
    assert!(matches!(
        Discovery::start(&server, &namespace, NodeEvent::Discovered(server.clone(), vec![])),
        Some(Err(NuxError::Network(m))) if m == "aucun pair enregistré sous le namespace `prod-db`"
    ));
    assert!(matches!(
        Discovery::start(&server, &namespace, NodeEvent::DiscoverFailed(server.clone(), "x".into())),
        Some(Err(NuxError::Network(m))) if m == "découverte rendezvous échouée: x"
    ));
}

#[test]
fn nodes_have_distinct_ephemeral_identities() {
    let a = NuxNode::new(NodeMode::Client, generate());
    let b = NuxNode::new(NodeMode::Client, generate());
    assert_ne!(a.local_peer_id(), b.local_peer_id());
    assert_eq!(a.mode(), NodeMode::Client);
    assert_eq!(a.keypair().peer_id(), a.local_peer_id());
}

#[test]
fn builder_keeps_what_it_is_given() {
    let b = NuxNodeBuilder::default();
    assert_eq!(b.mode, NodeMode::Client);
    assert!(matches!(b.identity, IdentitySource::Ephemeral));
    assert!(b.listen_addrs.is_empty());
    assert_eq!(b.idle_timeout_ms, DEFAULT_IDLE_TIMEOUT_MS);
    assert_eq!(b.request_timeout_ms, DEFAULT_REQUEST_TIMEOUT_MS);
    assert_eq!(b.rate_limit_max, DEFAULT_MAX_PER_WINDOW);
    assert_eq!(b.rate_limit_window, DEFAULT_WINDOW);
    assert!(b.rate_limit_exempt.is_empty());

    let addr = Multiaddr::parse("/ip4/127.0.0.1/tcp/0").unwrap();
    let b = NuxNodeBuilder::new()
        .mode(NodeMode::Guard)
        .identity_file("node.key".into())
        .listen_on(addr.clone())
        .idle_timeout(5)
        .request_timeout(6)
        .inbound_rate_limit(7, 8)
        .rate_limit_exempt(IpAddr::V4(9));
    assert_eq!(b.mode, NodeMode::Guard);
    assert!(matches!(&b.identity, IdentitySource::File(p) if p == "node.key"));
    assert_eq!(b.listen_addrs, vec![addr]);
    assert_eq!((b.idle_timeout_ms, b.request_timeout_ms), (5, 6));
    assert_eq!((b.rate_limit_max, b.rate_limit_window), (7, 8));
    assert_eq!(b.rate_limit_exempt, vec![IpAddr::V4(9)]);
    let b = b.identity_env("V".into());
    assert!(matches!(&b.identity, IdentitySource::Env(v) if v == "V"));
    let keypair = generate();
    let b = b.identity(keypair.clone());
    assert!(matches!(&b.identity, IdentitySource::Provided(k) if k.peer_id() == keypair.peer_id()));
}

#[test]
fn revocation_cuts_a_peer_without_a_session() {
    let (client, other) = (generate(), generate());
    let mut guard = guard(&[(&client.peer_id(), &["ops"]), (&other.peer_id(), &["ops"])]);
    assert!(authenticate(&mut guard, &other).is_ok());
    // Connected, with a challenge at most.
    let action = guard.request(&client.peer_id(), NuxRequest::HandshakeInit);
    assert!(matches!(action, GuardAction::Respond(NuxResponse::Challenge { .. })));
    assert_eq!(guard.control(GuardControl::Revoke(client.peer_id())), vec![client.peer_id()]);
    assert!(matches!(authenticate(&mut guard, &client), Err(NuxError::AccessDenied)));
    // The other peer keeps its session.
    assert!(matches!(guard.stream(&other.peer_id()), StreamAction::Serve(_, _)));
}
