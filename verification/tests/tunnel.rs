//! Tunnels: registry, header, service of a stream, stream limits.

use nux_core::addr::{SocketAddr, LOCALHOST};
use nux_core::attestation::current_binary_sha256;
use nux_core::error::NuxError;
use nux_core::identity::generate;
use nux_core::protocol::{TunnelHeader, MAX_TUNNEL_HEADER_SIZE, TUNNEL_ACK};
use nux_core::tunnel::forward::{
    forward_listener, forward_unix_listener, ForwardAction, ForwardEvent, ACCEPT_PAUSE_MS,
};
use nux_core::tunnel::gate::{GateRefusal, StreamGate};
use nux_core::tunnel::serve::{serve_stream, ServeAction, ServeEvent, ServeState};
use nux_core::tunnel::{
    ack_outcome, header_len, peer_uid_authorized, read_header, role_granted, write_header,
    TunnelOutcome, TunnelRegistry, DEFAULT_MAX_STREAMS_PER_PEER, DEFAULT_MAX_STREAMS_TOTAL,
};
use nux_core::PeerId;

const TARGET: SocketAddr = SocketAddr::V4(LOCALHOST, 5432);

fn peer() -> PeerId {
    generate().peer_id()
}

fn header(service: &str) -> TunnelHeader {
    TunnelHeader { service: service.into(), binary_sha256: [0u8; 32] }
}

/// Plays the service of a stream whose header arrives, whose service answers and whose
/// relay ends; returns the actions.
fn serve(
    registry: &TunnelRegistry,
    peer: &PeerId,
    roles: &[&str],
    header: TunnelHeader,
) -> Vec<ServeAction> {
    let roles: Vec<String> = roles.iter().map(|r| r.to_string()).collect();
    let frame = write_header(&header).unwrap();
    let header = read_header(&frame).unwrap();
    let mut state = ServeState::AwaitingHeader;
    let mut actions = Vec::new();
    for event in [
        ServeEvent::HeaderRead(header),
        ServeEvent::Connected,
        ServeEvent::AckSent,
        ServeEvent::RelayEnded(5, 5),
    ] {
        let (next, action) = serve_stream(state, registry, peer, &roles, event);
        state = next;
        actions.push(action);
        if state == ServeState::Closed {
            break;
        }
    }
    assert_eq!(state, ServeState::Closed);
    actions
}

fn silence() -> Vec<ServeAction> {
    vec![ServeAction::Finish(TunnelOutcome::Denied)]
}

fn served() -> Vec<ServeAction> {
    vec![
        ServeAction::Connect(TARGET),
        ServeAction::SendAck,
        ServeAction::Relay,
        ServeAction::Finish(TunnelOutcome::Served { bytes_from_peer: 5, bytes_to_peer: 5 }),
    ]
}

#[test]
fn registry_has_anti_amplification_caps_by_default() {
    let registry = TunnelRegistry::new();
    assert_eq!(registry.max_streams_per_peer(), DEFAULT_MAX_STREAMS_PER_PEER);
    assert_eq!(registry.max_streams_total(), DEFAULT_MAX_STREAMS_TOTAL);
    let mut registry = TunnelRegistry::new();
    registry.max_concurrent_streams(4, 16);
    assert_eq!(registry.max_streams_per_peer(), 4);
    assert_eq!(registry.max_streams_total(), 16);
}

#[test]
fn role_check_covers_all_cases() {
    let granted = vec!["reader".to_string(), "db-writer".to_string()];
    let none: Vec<String> = Vec::new();
    assert!(role_granted(&granted, None));
    assert!(role_granted(&none, None));
    assert!(role_granted(&granted, Some("reader")));
    assert!(role_granted(&granted, Some("db-writer")));
    assert!(!role_granted(&granted, Some("admin")));
    assert!(!role_granted(&granted, Some("read")));
    assert!(!role_granted(&granted, Some("Reader")));
    assert!(!role_granted(&none, Some("reader")));
}

#[test]
fn header_round_trip_over_duplex() {
    let header = header("postgres");
    let frame = write_header(&header).unwrap();
    let back = read_header(&frame).unwrap();
    assert_eq!(back, header);
}

#[test]
fn oversized_header_is_rejected_on_both_sides() {
    let huge = header(&"s".repeat(MAX_TUNNEL_HEADER_SIZE + 1));
    assert!(write_header(&huge).is_err());

    let oversized = u16::try_from(MAX_TUNNEL_HEADER_SIZE + 1).unwrap();
    assert!(read_header(&oversized.to_be_bytes()).is_err());
    assert!(header_len(oversized.to_be_bytes()).is_err());
}

#[test]
fn unknown_service_gets_radio_silence() {
    let registry = TunnelRegistry::new();
    assert_eq!(serve(&registry, &peer(), &["admin"], header("ghost")), silence());
}

#[test]
fn missing_role_gets_radio_silence() {
    let mut registry = TunnelRegistry::new();
    registry.expose("db".into(), TARGET, Some("admin".into()));
    assert_eq!(serve(&registry, &peer(), &["reader"], header("db")), silence());
}

#[test]
fn authorized_stream_is_acked_and_relayed() {
    let mut registry = TunnelRegistry::new();
    registry.expose("echo".into(), TARGET, Some("db-writer".into()));
    assert_eq!(serve(&registry, &peer(), &["db-writer"], header("echo")), served());
    assert!(ack_outcome(Some(TUNNEL_ACK)).is_ok());
}

#[test]
fn unattested_peer_is_not_checked() {
    let mut registry = TunnelRegistry::new();
    registry.expose("echo".into(), TARGET, None);
    let mut declared = header("echo");
    declared.binary_sha256 = [0xAB; 32];
    assert_eq!(serve(&registry, &peer(), &[], declared), served());
}

#[test]
fn matching_binary_sha256_is_acked() {
    let expected = [0x42; 32];
    let mut registry = TunnelRegistry::new();
    registry.expose("echo".into(), TARGET, None);
    let attested_peer = peer();
    registry.require_binary_sha256(attested_peer.clone(), expected);
    let mut declared = header("echo");
    declared.binary_sha256 = expected;
    assert_eq!(serve(&registry, &attested_peer, &[], declared), served());
}

#[test]
fn mismatched_binary_sha256_gets_radio_silence() {
    let mut registry = TunnelRegistry::new();
    registry.expose("echo".into(), TARGET, None);
    let attested_peer = peer();
    registry.require_binary_sha256(attested_peer.clone(), [0x42; 32]);
    let mut declared = header("echo");
    declared.binary_sha256 = [0xFF; 32];
    assert_eq!(serve(&registry, &attested_peer, &[], declared), silence());
}

#[test]
fn own_uid_is_authorized_by_peer_cred() {
    let my_uid = rustix::process::getuid().as_raw();
    assert!(peer_uid_authorized(Some(my_uid), &vec![my_uid]));
    assert!(!peer_uid_authorized(Some(my_uid), &vec![my_uid.wrapping_add(1)]));
    assert!(
        !peer_uid_authorized(Some(my_uid), &Vec::new()),
        "une liste vide ne doit autoriser personne"
    );
    assert!(!peer_uid_authorized(None, &vec![my_uid]));
}

#[test]
fn exposing_a_name_again_replaces_the_service() {
    let mut registry = TunnelRegistry::default();
    assert!(registry.is_empty());
    registry.expose("db".into(), SocketAddr::V4(LOCALHOST, 1), Some("admin".into()));
    registry.expose("db".into(), TARGET, None);
    assert_eq!(registry.len(), 1);
    assert_eq!(registry.resolve(&peer(), &Vec::new(), &header("db")), Some(TARGET));
}

#[test]
fn every_failure_closes_without_a_byte() {
    let mut registry = TunnelRegistry::new();
    registry.expose("db".into(), TARGET, None);
    let (p, roles) = (peer(), Vec::new());
    let denied = (ServeState::Closed, ServeAction::Finish(TunnelOutcome::Denied));
    for (state, event) in [
        (ServeState::AwaitingHeader, ServeEvent::HeaderUnreadable),
        (ServeState::AwaitingHeader, ServeEvent::HeaderTimeout),
        (ServeState::Connecting, ServeEvent::ConnectFailed),
        (ServeState::Acknowledging, ServeEvent::AckFailed),
        (ServeState::Closed, ServeEvent::Connected),
    ] {
        assert_eq!(serve_stream(state, &registry, &p, &roles, event), denied);
    }
    assert_eq!(
        serve_stream(ServeState::Relaying, &registry, &p, &roles, ServeEvent::RelayBroken),
        (
            ServeState::Closed,
            ServeAction::Finish(TunnelOutcome::Served { bytes_from_peer: 0, bytes_to_peer: 0 })
        )
    );
}

#[test]
fn header_frame_is_exact() {
    let mut expected = vec![0, 35, 2, b'd', b'b'];
    expected.extend([0u8; 32]);
    assert_eq!(write_header(&header("db")).unwrap(), expected);
    assert_eq!(header_len([0x01, 0x02]).unwrap(), 258);
    assert!(read_header(&[]).is_err());
    assert!(read_header(&[0, 3, 1]).is_err());
    assert!(read_header(&[0, 1, 200]).is_err());
}

#[test]
fn anything_but_the_acknowledgement_is_a_refusal() {
    assert!(matches!(ack_outcome(None), Err(NuxError::AccessDenied)));
    assert!(ack_outcome(Some(TUNNEL_ACK.wrapping_add(1))).is_err());
}

#[test]
fn stream_limits_hold_per_peer_and_overall() {
    let (a, b, c) = (peer(), peer(), peer());
    let mut gate = StreamGate::new(2, 3);
    assert!(gate.idle());
    let first = gate.try_acquire(&a).ok().unwrap();
    let _second = gate.try_acquire(&a).ok().unwrap();
    assert_eq!(gate.try_acquire(&a).err(), Some(GateRefusal::PeerLimit));
    let _third = gate.try_acquire(&b).ok().unwrap();
    assert_eq!(gate.try_acquire(&c).err(), Some(GateRefusal::TotalLimit));
    assert!(!gate.idle());
    // A freed stream gives its credit back.
    gate.release(first);
    assert!(gate.try_acquire(&a).is_ok());
}

#[test]
fn zero_limit_forbids_every_stream() {
    let mut gate = StreamGate::new(0, 10);
    assert!(gate.try_acquire(&peer()).is_err());
    let mut gate = StreamGate::new(10, 0);
    assert!(gate.try_acquire(&peer()).is_err());
    assert!(gate.idle());
}

#[test]
fn forgotten_peer_starts_a_new_account() {
    let a = peer();
    let mut gate = StreamGate::new(1, 2);
    let old = gate.try_acquire(&a).ok().unwrap();
    gate.forget(&a);
    let new = gate.try_acquire(&a).ok().unwrap();
    // The end of a stream of the old account gives no credit to the new one.
    gate.release(old);
    assert_eq!(gate.try_acquire(&a).err(), Some(GateRefusal::PeerLimit));
    gate.release(new);
    assert!(gate.idle());
}

#[test]
fn local_listeners_relay_pause_or_drain() {
    assert_eq!(forward_listener(ForwardEvent::Accepted(None)), ForwardAction::Relay);
    assert_eq!(forward_listener(ForwardEvent::Shutdown), ForwardAction::Drain);
    assert_eq!(
        forward_listener(ForwardEvent::AcceptFailed),
        ForwardAction::Pause(ACCEPT_PAUSE_MS)
    );
    let uids = vec![1000, 1001];
    assert_eq!(
        forward_unix_listener(ForwardEvent::Accepted(Some(1001)), &uids),
        ForwardAction::Relay
    );
    assert_eq!(
        forward_unix_listener(ForwardEvent::Accepted(Some(7)), &uids),
        ForwardAction::Close
    );
    assert_eq!(
        forward_unix_listener(ForwardEvent::Accepted(None), &uids),
        ForwardAction::Close
    );
    assert_eq!(forward_unix_listener(ForwardEvent::Shutdown, &uids), ForwardAction::Drain);
    assert_eq!(
        forward_unix_listener(ForwardEvent::AcceptFailed, &uids),
        ForwardAction::Pause(ACCEPT_PAUSE_MS)
    );
}

#[test]
fn binary_is_hashed_once() {
    let mut cache = None;
    let hash = current_binary_sha256(&mut cache, b"abc");
    assert_eq!(
        hex::encode(hash),
        "ba7816bf8f01cfea414140de5dae2223b00361a396177a9cb410ff61f20015ad"
    );
    assert_eq!(current_binary_sha256(&mut cache, b"other"), hash);
}
