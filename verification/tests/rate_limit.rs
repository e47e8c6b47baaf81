//! Rate limits and addresses.

use nux_core::addr::{
    ip_among, ip_of, peer_among, target_peer_id, Component, IpAddr, LOCALHOST, MAX_NAMESPACE_LEN,
};
use nux_core::rate_limit::{Behaviour, RateExceeded, RateLimiter};
use nux_core::{Multiaddr, Namespace};

const IP_A: IpAddr = IpAddr::V4(0xCB00_7107);
const IP_B: IpAddr = IpAddr::V4(0xCB00_7108);
const SEC: u128 = 1_000_000_000;
const WINDOW: u128 = 60 * SEC;
const T0: u128 = 5 * SEC;

#[test]
fn allows_up_to_max_then_blocks() {
    let mut limiter = RateLimiter::new(3, WINDOW);
    assert!(limiter.allow_at(IP_A, T0));
    assert!(limiter.allow_at(IP_A, T0));
    assert!(limiter.allow_at(IP_A, T0));
    assert!(!limiter.allow_at(IP_A, T0));
    // Refusals cost no credit: still blocked, no more than that.
    assert!(!limiter.allow_at(IP_A, T0 + SEC));
}

#[test]
fn window_slides_and_credit_returns() {
    let mut limiter = RateLimiter::new(2, WINDOW);
    assert!(limiter.allow_at(IP_A, T0));
    assert!(limiter.allow_at(IP_A, T0 + 30 * SEC));
    assert!(!limiter.allow_at(IP_A, T0 + 50 * SEC));
    // At t0+61 the first attempt leaves the window.
    assert!(limiter.allow_at(IP_A, T0 + 61 * SEC));
    // But only that one: t0+30 is still in it.
    assert!(!limiter.allow_at(IP_A, T0 + 61 * SEC));
}

#[test]
fn ips_are_independent() {
    let mut limiter = RateLimiter::new(1, WINDOW);
    assert!(limiter.allow_at(IP_A, T0));
    assert!(!limiter.allow_at(IP_A, T0));
    assert!(limiter.allow_at(IP_B, T0));
}

#[test]
fn zero_max_blocks_everything() {
    let mut limiter = RateLimiter::new(0, WINDOW);
    assert!(!limiter.allow_at(IP_A, T0));
}

#[test]
fn sweep_forgets_idle_ips() {
    let mut limiter = RateLimiter::new(5, WINDOW);
    assert!(limiter.allow_at(IP_A, T0));
    assert!(limiter.allow_at(IP_B, T0));
    assert_eq!(limiter.tracked_ips(), 2);
    // Well after the window a sweep leaves only the active addresses.
    assert!(limiter.allow_at(IP_B, T0 + WINDOW + SEC));
    assert_eq!(limiter.tracked_ips(), 1);
    assert!(!limiter.tracks(IP_A));
}

#[test]
fn exempt_ip_is_never_limited() {
    let mut limiter = RateLimiter::new(1, WINDOW);
    limiter.exempt(IP_A);
    for _ in 0..100 {
        assert!(limiter.allow_at(IP_A, T0));
    }
    assert!(limiter.tracked_ips() == 0);
    assert!(limiter.allow_at(IP_B, T0));
    assert!(!limiter.allow_at(IP_B, T0));
}

#[test]
fn tracked_ip_table_is_capped() {
    let mut limiter = RateLimiter::new(5, WINDOW);
    limiter.set_max_tracked_ips(2);
    assert!(limiter.allow_at(IP_A, T0));
    assert!(limiter.allow_at(IP_B, T0));
    let ip_c = IpAddr::V4(0xCB00_7109);
    assert!(!limiter.allow_at(ip_c, T0));
    assert_eq!(limiter.tracked_ips(), 2);
    // Tracked addresses are still served.
    assert!(limiter.allow_at(IP_A, T0));
}

#[test]
fn ip_extraction_from_multiaddr() {
    let tcp = Multiaddr::parse("/ip4/203.0.113.7/tcp/4588").unwrap();
    assert_eq!(ip_of(&tcp), Some(IP_A));
    let ip6 = Multiaddr::parse("/ip6/::1/tcp/4588").unwrap();
    assert_eq!(ip_of(&ip6), Some(IpAddr::V6(1)));
    let memory = Multiaddr::parse("/memory/42").unwrap();
    assert_eq!(ip_of(&memory), None);
}

#[test]
fn families_do_not_mix() {
    let mut limiter = RateLimiter::new(1, WINDOW);
    assert!(limiter.allow_at(IpAddr::V4(1), T0));
    assert!(limiter.allow_at(IpAddr::V6(1), T0));
    assert!(!limiter.allow_at(IpAddr::V6(1), T0));
    assert_eq!(limiter.tracked_ips(), 2);
}

#[test]
fn attempt_exactly_one_window_old_still_counts() {
    let mut limiter = RateLimiter::new(1, WINDOW);
    assert!(limiter.allow_at(IP_A, T0));
    assert!(!limiter.allow_at(IP_A, T0 + WINDOW));
    assert!(limiter.allow_at(IP_A, T0 + WINDOW + 1));
}

#[test]
fn sweep_makes_room_in_a_full_table() {
    let mut limiter = RateLimiter::new(1, WINDOW);
    limiter.set_max_tracked_ips(1);
    assert!(limiter.allow_at(IP_A, T0));
    assert!(!limiter.allow_at(IP_B, T0 + SEC));
    assert!(limiter.allow_at(IP_B, T0 + WINDOW + SEC));
    assert!(!limiter.tracks(IP_A));
}

#[test]
fn limiter_works_on_the_real_clock() {
    let mut limiter = RateLimiter::new(1, WINDOW);
    assert!(limiter.allow(IP_A));
    assert!(!limiter.allow(IP_A));
    let mut open = RateLimiter::new(1, 0);
    assert!(open.allow(IP_A));
}

#[test]
fn pending_connections_are_limited_by_address() {
    let mut behaviour = Behaviour::with_exemptions(1, WINDOW, vec![IP_B]);
    let a = Multiaddr::parse("/ip4/203.0.113.7/tcp/4588").unwrap();
    let b = Multiaddr::parse("/ip4/203.0.113.8/tcp/4588").unwrap();
    let memory = Multiaddr::parse("/memory/42").unwrap();
    assert_eq!(behaviour.handle_pending_inbound_connection_at(&a, T0), Ok(()));
    assert_eq!(
        behaviour.handle_pending_inbound_connection_at(&a, T0),
        Err(RateExceeded { ip: IP_A })
    );
    for _ in 0..3 {
        assert_eq!(behaviour.handle_pending_inbound_connection_at(&b, T0), Ok(()));
        assert_eq!(behaviour.handle_pending_inbound_connection_at(&memory, T0), Ok(()));
    }
    let mut plain = Behaviour::new(2, WINDOW);
    assert!(plain.handle_pending_inbound_connection(&b).is_ok());
    assert!(plain.handle_pending_inbound_connection(&b).is_ok());
    assert!(plain.handle_pending_inbound_connection(&b).is_err());
}

#[test]
fn multiaddr_names_its_last_peer() {
    let relay = "12D3KooWKSWkFyEvNTLdch2vGZbvcyxNQBUpFrpccW3nrHPtRWQ4";
    let addr = Multiaddr::parse(&format!("/ip4/203.0.113.9/tcp/4001/p2p/{relay}")).unwrap();
    assert_eq!(target_peer_id(&addr).unwrap().to_base58(), relay);
    let circuit = addr.with_circuit();
    assert_eq!(
        circuit,
        Multiaddr::parse(&format!("/ip4/203.0.113.9/tcp/4001/p2p/{relay}/p2p-circuit")).unwrap()
    );
    assert_eq!(Multiaddr::from_bytes(circuit.to_bytes()), Some(circuit.clone()));
    let target = nux_core::identity::generate().peer_id();
    let through = Multiaddr::parse(&format!(
        "/ip4/203.0.113.9/tcp/4001/p2p/{relay}/p2p-circuit/p2p/{}",
        target.to_base58()
    ))
    .unwrap();
    assert_eq!(target_peer_id(&through), Some(target));
    assert_eq!(target_peer_id(&Multiaddr::parse("/ip4/1.2.3.4/tcp/1").unwrap()), None);
    assert!(Multiaddr::parse("not-a-multiaddr").is_err());
    assert_eq!(Multiaddr::from_bytes(vec![0xFF]), None);
    assert_eq!(LOCALHOST, 0x7F00_0001);
}

#[test]
fn namespaces_are_bounded() {
    assert_eq!(Namespace::new("prod-db").unwrap().as_str(), "prod-db");
    assert!(Namespace::new(&"n".repeat(MAX_NAMESPACE_LEN)).is_some());
    assert!(Namespace::new(&"n".repeat(MAX_NAMESPACE_LEN + 1)).is_none());
}

#[test]
fn first_address_and_last_peer_count() {
    let parts = vec![
        Component::Other,
        Component::P2p(vec![1]),
        Component::Ip6(7),
        Component::Ip4(8),
        Component::P2p(vec![2]),
        Component::Other,
    ];
    assert_eq!(ip_among(&parts), Some(IpAddr::V6(7)));
    assert_eq!(peer_among(&parts), Some(&vec![2]));
    assert_eq!(ip_among(&vec![Component::Other]), None);
    assert_eq!(peer_among(&Vec::new()), None);
    let addr = Multiaddr::parse("/ip4/203.0.113.7/tcp/4588").unwrap();
    assert!(matches!(addr.components()[..], [Component::Ip4(0xCB00_7107), Component::Other]));
}

#[test]
fn admitted_exactly_within_the_rate() {
    let mut limiter = RateLimiter::new(3, 10);
    let mut admitted: Vec<u128> = Vec::new();
    let mut now: u128 = 0;
    for step in 0..200u128 {
        now += (step * 7) % 5;
        let recent = admitted.iter().filter(|t| now - **t <= 10).count();
        assert_eq!(limiter.allow_at(IP_A, now), recent < 3);
        if recent < 3 {
            admitted.push(now);
        }
        limiter.allow_at(IP_B, now);
    }
}
