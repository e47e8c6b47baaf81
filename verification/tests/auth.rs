//! Challenge-response authentication and whitelist.

use nux_core::auth::{
    answer_challenge, answer_challenge_at, seconds_or_epoch, AuthOutcome, GuardAuthenticator,
    Whitelist, MAX_CLOCK_SKEW_SECS,
};
use nux_core::identity::{generate, Keypair};
use nux_core::protocol::{challenge_payload, NuxRequest, NuxResponse, NONCE_LEN};
use nux_core::PeerId;

const T0: u64 = 1_780_000_000;

fn texts(roles: &[&str]) -> Vec<String> {
    roles.iter().map(|r| r.to_string()).collect()
}

fn peer() -> PeerId {
    generate().peer_id()
}

fn setup(roles: &[&str]) -> (GuardAuthenticator, Keypair, PeerId) {
    let client = generate();
    let peer = client.peer_id();
    let mut whitelist = Whitelist::new();
    whitelist.allow(peer.clone(), texts(roles));
    (GuardAuthenticator::new(whitelist), client, peer)
}

fn nonce_of(response: &NuxResponse) -> [u8; NONCE_LEN] {
    match response {
        NuxResponse::Challenge { nonce, .. } => *nonce,
        other => panic!("défi attendu, reçu {other:?}"),
    }
}

fn sign(keypair: &Keypair, nonce: &[u8; NONCE_LEN], timestamp: u64) -> Vec<u8> {
    keypair.sign(&challenge_payload(nonce, timestamp)).unwrap()
}

#[test]
fn valid_answer_is_granted_with_roles() {
    let (mut guard, client, peer) = setup(&["db-writer", "metrics"]);
    let nonce = nonce_of(&guard.issue_at(peer.clone(), T0).unwrap());
    let outcome = guard.verify_at(&peer, &sign(&client, &nonce, T0 + 2), T0 + 2, T0 + 3);
    assert_eq!(
        outcome,
        AuthOutcome::Granted { roles: vec!["db-writer".into(), "metrics".into()] }
    );
    assert_eq!(
        guard.session_roles(&peer),
        Some(vec!["db-writer".to_string(), "metrics".to_string()])
    );
}

#[test]
fn challenge_is_single_use() {
    let (mut guard, client, peer) = setup(&["r"]);
    let nonce = nonce_of(&guard.issue_at(peer.clone(), T0).unwrap());
    let signature = sign(&client, &nonce, T0);
    assert!(matches!(
        guard.verify_at(&peer, &signature, T0, T0),
        AuthOutcome::Granted { .. }
    ));
    // The same valid signature again: the challenge was consumed.
    assert_eq!(guard.verify_at(&peer, &signature, T0, T0), AuthOutcome::Reject);
}

#[test]
fn unknown_peer_gets_no_challenge() {
    let (mut guard, _, _) = setup(&["r"]);
    let stranger = peer();
    assert!(guard.issue_at(stranger, T0).is_none());
}

#[test]
fn timestamp_outside_replay_window_is_rejected() {
    // Too old (6 s > 5 s).
    let (mut guard, client, peer) = setup(&["r"]);
    let nonce = nonce_of(&guard.issue_at(peer.clone(), T0).unwrap());
    assert_eq!(
        guard.verify_at(&peer, &sign(&client, &nonce, T0 - 2), T0 - 2, T0 + 4),
        AuthOutcome::Reject
    );

    // In the future (6 s > 5 s).
    let (mut guard, client, peer) = setup(&["r"]);
    let nonce = nonce_of(&guard.issue_at(peer.clone(), T0).unwrap());
    assert_eq!(
        guard.verify_at(&peer, &sign(&client, &nonce, T0 + 6), T0 + 6, T0),
        AuthOutcome::Reject
    );

    // Exactly 5 s: still accepted.
    let (mut guard, client, peer) = setup(&["r"]);
    let nonce = nonce_of(&guard.issue_at(peer.clone(), T0).unwrap());
    assert!(matches!(
        guard.verify_at(&peer, &sign(&client, &nonce, T0 + 5), T0 + 5, T0),
        AuthOutcome::Granted { .. }
    ));
}

#[test]
fn expired_challenge_is_rejected() {
    let (mut guard, client, peer) = setup(&["r"]);
    let nonce = nonce_of(&guard.issue_at(peer.clone(), T0).unwrap());
    let now = T0 + MAX_CLOCK_SKEW_SECS + 1;
    assert_eq!(
        guard.verify_at(&peer, &sign(&client, &nonce, now), now, now),
        AuthOutcome::Reject
    );
}

#[test]
fn forged_signature_is_rejected() {
    let (mut guard, _, peer) = setup(&["r"]);
    let impostor = generate();
    let nonce = nonce_of(&guard.issue_at(peer.clone(), T0).unwrap());
    assert_eq!(
        guard.verify_at(&peer, &sign(&impostor, &nonce, T0), T0, T0),
        AuthOutcome::Reject
    );
    assert_eq!(guard.session_roles(&peer), None);
}

#[test]
fn old_signature_does_not_cover_new_nonce() {
    let (mut guard, client, peer) = setup(&["r"]);
    let first_nonce = nonce_of(&guard.issue_at(peer.clone(), T0).unwrap());
    let old_signature = sign(&client, &first_nonce, T0);
    // A second challenge replaces the first.
    let _ = guard.issue_at(peer.clone(), T0).unwrap();
    assert_eq!(guard.verify_at(&peer, &old_signature, T0, T0), AuthOutcome::Reject);
}

#[test]
fn end_session_clears_state() {
    let (mut guard, client, peer) = setup(&["r"]);
    let nonce = nonce_of(&guard.issue_at(peer.clone(), T0).unwrap());
    let _ = guard.verify_at(&peer, &sign(&client, &nonce, T0), T0, T0);
    assert!(guard.session_roles(&peer).is_some());
    guard.end_session(&peer);
    assert_eq!(guard.session_roles(&peer), None);
}

#[test]
fn authenticated_peers_reflects_active_sessions_only() {
    let (mut guard, client_a, peer_a) = setup(&["r"]);
    let client_b = generate();
    let peer_b = client_b.peer_id();
    guard.whitelist_mut().allow(peer_b.clone(), texts(&["r"]));

    assert!(
        guard.authenticated_peers().is_empty(),
        "aucune session avant authentification"
    );

    let nonce_a = nonce_of(&guard.issue_at(peer_a.clone(), T0).unwrap());
    let _ = guard.verify_at(&peer_a, &sign(&client_a, &nonce_a, T0), T0, T0);
    assert_eq!(guard.authenticated_peers(), vec![peer_a.clone()]);

    let nonce_b = nonce_of(&guard.issue_at(peer_b.clone(), T0).unwrap());
    let _ = guard.verify_at(&peer_b, &sign(&client_b, &nonce_b, T0), T0, T0);
    let mut sessions = guard.authenticated_peers();
    sessions.sort();
    let mut expected = vec![peer_a.clone(), peer_b.clone()];
    expected.sort();
    assert_eq!(sessions, expected);

    guard.end_session(&peer_a);
    assert_eq!(guard.authenticated_peers(), vec![peer_b]);
}

#[test]
fn hot_revocation_invalidates_live_session() {
    let (mut guard, client, peer) = setup(&["db-writer"]);
    let nonce = nonce_of(&guard.issue_at(peer.clone(), T0).unwrap());
    let _ = guard.verify_at(&peer, &sign(&client, &nonce, T0), T0, T0);
    assert!(guard.session_roles(&peer).is_some());

    // Revoked without being disconnected: the session opens nothing any more.
    assert!(guard.revoke(&peer), "le pair avait une session active");
    assert_eq!(
        guard.session_roles(&peer),
        None,
        "un pair radié ne doit plus être autorisé, même connexion ouverte"
    );
}

#[test]
fn session_roles_follow_live_whitelist_changes() {
    let (mut guard, client, peer) = setup(&["db-writer", "admin"]);
    let nonce = nonce_of(&guard.issue_at(peer.clone(), T0).unwrap());
    let _ = guard.verify_at(&peer, &sign(&client, &nonce, T0), T0, T0);
    guard.whitelist_mut().allow(peer.clone(), texts(&["db-writer"]));
    assert_eq!(
        guard.session_roles(&peer),
        Some(vec!["db-writer".to_string()]),
        "le rôle admin retiré ne doit plus figurer dans la session"
    );
}

#[test]
fn client_answer_round_trip_through_real_clock() {
    let (mut guard, client, peer) = setup(&["r"]);
    let NuxResponse::Challenge { nonce, .. } = guard.issue(peer.clone()).unwrap() else {
        panic!("défi attendu");
    };
    let NuxRequest::ChallengeAnswer { signature, timestamp } =
        answer_challenge(&client, &nonce).unwrap()
    else {
        panic!("réponse au défi attendue");
    };
    assert!(matches!(
        guard.verify(&peer, &signature, timestamp),
        AuthOutcome::Granted { .. }
    ));
}

#[test]
fn lookup_known_and_unknown() {
    let (alice, bob, mallory) = (peer(), peer(), peer());
    let mut list = Whitelist::new();
    list.allow(alice.clone(), texts(&["db-writer", "metrics"]))
        .allow(bob.clone(), Vec::<String>::new());

    assert_eq!(
        list.roles(&alice),
        Some(vec!["db-writer".into(), "metrics".into()])
    );
    assert_eq!(list.roles(&bob), Some(Vec::new()));
    assert_eq!(list.roles(&mallory), None);
    assert_eq!(list.len(), 2);
}

#[test]
fn allow_replaces_roles_and_revoke_removes() {
    let alice = peer();
    let mut list = Whitelist::new();
    list.allow(alice.clone(), texts(&["reader"]));
    list.allow(alice.clone(), texts(&["admin"]));
    assert_eq!(list.roles(&alice), Some(vec!["admin".into()]));
    assert_eq!(list.len(), 1);

    list.revoke(&alice);
    assert!(list.is_empty());
    assert_eq!(list.roles(&alice), None);
}

#[test]
fn default_whitelist_admits_nobody() {
    let list = Whitelist::default();
    assert!(list.is_empty());
    assert_eq!(list.len(), 0);
    assert_eq!(list.roles(&peer()), None);
}

#[test]
fn cloned_whitelist_is_independent() {
    let (alice, bob) = (peer(), peer());
    let mut list = Whitelist::new();
    list.allow(alice.clone(), texts(&["a"]));
    let copy = list.clone();
    list.revoke(&alice);
    list.allow(bob.clone(), texts(&["b"]));
    assert_eq!(copy.roles(&alice), Some(texts(&["a"])));
    assert_eq!(copy.roles(&bob), None);
}

#[test]
fn revoking_without_a_session_reports_none() {
    let (mut guard, _, peer) = setup(&["r"]);
    assert!(!guard.revoke(&peer));
    assert!(guard.issue_at(peer, T0).is_none());
}

#[test]
fn challenge_given_by_the_caller_is_the_one_expected() {
    let (mut guard, client, peer) = setup(&["r"]);
    let nonce = [42u8; NONCE_LEN];
    assert_eq!(
        guard.issue_with(peer.clone(), nonce, T0),
        Some(NuxResponse::Challenge { nonce, timestamp: T0 })
    );
    let Ok(NuxRequest::ChallengeAnswer { signature, timestamp }) =
        answer_challenge_at(&client, &nonce, T0 + 1)
    else {
        panic!("réponse au défi attendue");
    };
    assert_eq!(timestamp, T0 + 1);
    assert_eq!(
        guard.verify_at(&peer, &signature, timestamp, T0 + 1),
        AuthOutcome::Granted { roles: texts(&["r"]) }
    );
}

#[test]
fn answer_without_a_challenge_is_rejected() {
    let (mut guard, client, peer) = setup(&["r"]);
    let signature = sign(&client, &[0u8; NONCE_LEN], T0);
    assert_eq!(guard.verify_at(&peer, &signature, T0, T0), AuthOutcome::Reject);
}

#[test]
fn peer_revoked_between_challenge_and_answer_is_rejected() {
    let (mut guard, client, peer) = setup(&["r"]);
    let nonce = nonce_of(&guard.issue_at(peer.clone(), T0).unwrap());
    guard.whitelist_mut().revoke(&peer);
    assert_eq!(
        guard.verify_at(&peer, &sign(&client, &nonce, T0), T0, T0),
        AuthOutcome::Reject
    );
}

#[test]
fn two_challenges_differ() {
    let (mut guard, _, peer) = setup(&["r"]);
    let first = nonce_of(&guard.issue(peer.clone()).unwrap());
    let second = nonce_of(&guard.issue(peer).unwrap());
    assert_ne!(first, second);
}

#[test]
fn clock_before_the_epoch_reads_as_the_epoch() {
    assert_eq!(seconds_or_epoch(None), 0);
    assert_eq!(seconds_or_epoch(Some(12)), 12);
}

#[test]
fn valid_signature_is_not_enough() {
    // Without a challenge, out of time, or struck off since.
    let (mut guard, _, peer) = setup(&["r"]);
    assert_eq!(guard.verify_signed(&peer, T0, T0, true), AuthOutcome::Reject);
    let _ = guard.issue_at(peer.clone(), T0);
    assert_eq!(guard.verify_signed(&peer, T0 + 6, T0, true), AuthOutcome::Reject);
    let _ = guard.issue_at(peer.clone(), T0);
    assert_eq!(guard.verify_signed(&peer, T0, T0, false), AuthOutcome::Reject);
    let _ = guard.issue_at(peer.clone(), T0);
    assert_eq!(
        guard.verify_signed(&peer, T0, T0, true),
        AuthOutcome::Granted { roles: texts(&["r"]) }
    );
    let _ = guard.issue_at(peer.clone(), T0);
    guard.whitelist_mut().revoke(&peer);
    assert_eq!(guard.verify_signed(&peer, T0, T0, true), AuthOutcome::Reject);
}
