//! Counters of a node and of a relay, and the identity of a relay.

use nux_core::identity::generate;
use nux_core::relay::key::load_or_generate_keypair;
use nux_core::relay::listen::listen_addresses;
use nux_core::relay::metrics::RelayEvent;
use nux_core::tunnel::TunnelOutcome;
use nux_core::{Metrics, Multiaddr};

#[test]
fn metrics_counters_reflect_recorded_events() {
    let mut m = Metrics::default();
    m.record_auth_granted();
    m.record_auth_granted();
    m.record_auth_denied();
    m.record_tunnel_started();
    m.record_tunnel_finished(TunnelOutcome::Served {
        bytes_from_peer: 10,
        bytes_to_peer: 20,
    });
    m.record_tunnel_started();
    m.record_tunnel_finished(TunnelOutcome::Denied);
    m.record_tunnel_denied();

    let text = m.to_prometheus_text();
    assert!(text.contains("nux_auth_granted_total 2"));
    assert!(text.contains("nux_auth_denied_total 1"));
    assert!(text.contains("nux_tunnels_opened_total 1"));
    // A stream given up on, and one refused before it started: one counter.
    assert!(text.contains("nux_tunnels_denied_total 2"));
    assert!(text.contains("nux_tunnels_active 0"));
    assert!(text.contains("nux_bytes_from_peer_total 10"));
    assert!(text.contains("nux_bytes_to_peer_total 20"));
}

#[test]
fn never_contains_a_peer_id_or_address() {
    let mut m = Metrics::default();
    m.record_auth_granted();
    let text = m.to_prometheus_text();
    assert!(
        !text.contains("12D3Koo"),
        "un PeerId ne doit jamais apparaître ici: {text}"
    );
}

#[test]
fn node_text_is_exact() {
    let mut m = Metrics::default();
    m.record_tunnel_started();
    assert_eq!(
        m.to_prometheus_text(),
        "\
# HELP nux_auth_granted_total Authentifications réussies.
# TYPE nux_auth_granted_total counter
nux_auth_granted_total 0
# HELP nux_auth_denied_total Authentifications refusées (pair inconnu, signature invalide, arrêt en cours).
# TYPE nux_auth_denied_total counter
nux_auth_denied_total 0
# HELP nux_tunnels_opened_total Tunnels établis avec succès (acquittement envoyé).
# TYPE nux_tunnels_opened_total counter
nux_tunnels_opened_total 0
# HELP nux_tunnels_denied_total Flux tunnel abandonnés avant établissement (silence radio).
# TYPE nux_tunnels_denied_total counter
nux_tunnels_denied_total 0
# HELP nux_tunnels_active Tunnels actuellement en cours de relais.
# TYPE nux_tunnels_active gauge
nux_tunnels_active 1
# HELP nux_bytes_from_peer_total Octets reçus du pair et relayés vers le service local.
# TYPE nux_bytes_from_peer_total counter
nux_bytes_from_peer_total 0
# HELP nux_bytes_to_peer_total Octets reçus du service local et relayés vers le pair.
# TYPE nux_bytes_to_peer_total counter
nux_bytes_to_peer_total 0
"
    );
}

#[test]
fn counters_reflect_recorded_events() {
    let mut m = nux_core::relay::metrics::Metrics::default();
    m.record_reservation_accepted();
    m.record_reservation_accepted();
    m.record_reservation_denied();
    m.record_reservation_expired();
    m.record_circuit_opened();
    m.record_circuit_opened();
    m.record_circuit_closed();

    let text = m.to_prometheus_text();
    assert!(text.contains("nux_relay_reservations_total 2"));
    assert!(text.contains("nux_relay_reservations_denied_total 1"));
    assert!(text.contains("nux_relay_reservations_expired_total 1"));
    assert!(text.contains("nux_relay_circuits_opened_total 2"));
    assert!(text.contains("nux_relay_circuits_active 1"));
}

#[test]
fn never_contains_a_peer_id() {
    let mut m = nux_core::relay::metrics::Metrics::default();
    m.record_reservation_accepted();
    let text = m.to_prometheus_text();
    assert!(
        !text.contains("12D3Koo"),
        "un PeerId ne doit jamais apparaître ici: {text}"
    );
}

#[test]
fn relay_events_are_counted() {
    let mut m = nux_core::relay::metrics::Metrics::default();
    for event in [
        RelayEvent::ReservationAccepted,
        RelayEvent::ReservationDenied,
        RelayEvent::ReservationExpired,
        RelayEvent::CircuitOpened,
        RelayEvent::CircuitOpened,
        RelayEvent::CircuitClosed,
        RelayEvent::Other,
    ] {
        m.record(event);
    }
    assert_eq!(
        m.to_prometheus_text(),
        "\
# HELP nux_relay_reservations_total Réservations de circuit acceptées.
# TYPE nux_relay_reservations_total counter
nux_relay_reservations_total 1
# HELP nux_relay_reservations_denied_total Réservations de circuit refusées.
# TYPE nux_relay_reservations_denied_total counter
nux_relay_reservations_denied_total 1
# HELP nux_relay_reservations_expired_total Réservations de circuit expirées.
# TYPE nux_relay_reservations_expired_total counter
nux_relay_reservations_expired_total 1
# HELP nux_relay_circuits_opened_total Circuits relayés établis avec succès.
# TYPE nux_relay_circuits_opened_total counter
nux_relay_circuits_opened_total 2
# HELP nux_relay_circuits_active Circuits relayés actuellement ouverts.
# TYPE nux_relay_circuits_active gauge
nux_relay_circuits_active 1
"
    );
}

#[test]
fn relay_identity_is_created_once_then_reloaded() {
    let Ok((created, Some(stored))) = load_or_generate_keypair(None) else {
        panic!("identité créée attendue");
    };
    let Ok((reloaded, None)) = load_or_generate_keypair(Some(stored)) else {
        panic!("identité relue attendue");
    };
    assert_eq!(created.peer_id(), reloaded.peer_id());
    assert!(load_or_generate_keypair(Some(vec![1, 2, 3])).is_err());
}

#[test]
fn stored_relay_identity_is_protobuf() {
    let Ok((created, Some(stored))) = load_or_generate_keypair(None) else {
        panic!("identité créée attendue");
    };
    // Key type 1 (Ed25519), then the 64 bytes of the secret and public keys.
    assert_eq!(stored[..4], [0x08, 0x01, 0x12, 0x40]);
    assert_eq!(stored[4..36], created.secret_bytes()[..]);
    assert_eq!(stored.len(), 68);
    assert_ne!(created.peer_id(), generate().peer_id());
}

#[test]
fn relay_listens_over_tcp_and_quic() {
    let (tcp, quic) = listen_addresses(4001);
    assert_eq!(tcp, "/ip4/0.0.0.0/tcp/4001");
    assert_eq!(quic, "/ip4/0.0.0.0/udp/4001/quic-v1");
    assert!(Multiaddr::parse(&tcp).is_ok());
    assert!(Multiaddr::parse(&quic).is_ok());
}

#[test]
fn open_circuits_are_those_opened_less_those_closed() {
    let mut m = nux_core::relay::metrics::Metrics::default();
    let (mut opened, mut closed) = (0u64, 0u64);
    for i in 0..50 {
        if i % 3 == 2 {
            m.record(RelayEvent::CircuitClosed);
            closed += 1;
        } else {
            m.record(RelayEvent::CircuitOpened);
            opened += 1;
        }
        m.record(RelayEvent::ReservationDenied);
        let text = m.to_prometheus_text();
        assert!(text.contains(&format!("nux_relay_circuits_active {}\n", opened - closed)));
        assert!(text.contains(&format!("nux_relay_circuits_opened_total {opened}\n")));
        assert!(text.contains(&format!("nux_relay_reservations_denied_total {}\n", i + 1)));
        assert!(text.contains("nux_relay_reservations_total 0\n"));
    }
}
