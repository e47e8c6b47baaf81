//! Identities, peer ids and process hardening.

use nux_core::error::NuxError;
use nux_core::hardening::{harden_process, hardening_outcome, hardening_request, Dumpable};
use nux_core::identity::{
    ensure_owner_only, from_env, from_file, from_hex_str, generate, keypair_from_secret_bytes,
};
use nux_core::peer::public_key_of;
use nux_core::PeerId;

// Secret and peer id of the first test vector of RFC 8032.
const SECRET_HEX: &str = "9d61b19deffd5a60ba844af492ec2cc44449c5697b326919703bac031cae7f60";
const PUBLIC_HEX: &str = "d75a980182b10ab7d54bfed3c964073a0ee172f3daa62325af021a68f707511a";

#[test]
fn round_trip_file() {
    let keypair = generate();
    let mut raw = keypair.secret_bytes();
    let reloaded = from_file("node.key", true, 0o100600, &mut raw).unwrap();
    assert_eq!(keypair.peer_id(), reloaded.peer_id());
    assert!(raw.is_empty());
}

#[test]
fn rejects_world_readable_key() {
    let mut raw = generate().secret_bytes();
    assert!(matches!(
        from_file("lax.key", true, 0o100644, &mut raw),
        Err(NuxError::InsecureKeyPermissions { .. })
    ));
    assert!(raw.is_empty());
}

#[test]
fn hex_round_trip() {
    let keypair = generate();
    let reloaded = from_hex_str(&hex::encode(keypair.secret_bytes())).unwrap();
    assert_eq!(keypair.peer_id(), reloaded.peer_id());
    assert!(from_hex_str("zz").is_err());
}

#[test]
fn known_secret_gives_the_known_public_key() {
    let keypair = from_hex_str(&format!("  {SECRET_HEX}\n")).unwrap();
    let mut expected = vec![0x00, 0x24, 0x08, 0x01, 0x12, 0x20];
    expected.extend(hex::decode(PUBLIC_HEX).unwrap());
    assert_eq!(keypair.peer_id().to_bytes(), expected);
    assert_eq!(hex::encode(keypair.secret_bytes()), SECRET_HEX);
    let signature = keypair.sign(b"").unwrap();
    assert_eq!(
        hex::encode(signature),
        "e5564300c360ac729086e2cc806e828a84877f1eb8e5d974d873e065224901555fb8821590a33bacc61e39701cf9b46bd25bf5f0595bbe24655141438e7a100b"
    );
}

#[test]
fn wrong_lengths_are_named() {
    assert_eq!(
        keypair_from_secret_bytes(&[1, 2, 3]).err(),
        Some("longueur de clé invalide: 3 octets, attendu 32".to_string())
    );
    assert_eq!(
        from_hex_str("00ff").err(),
        Some("longueur de clé invalide: 2 octets, attendu 32".to_string())
    );
    assert_eq!(from_hex_str("0").err(), Some("hexadécimal invalide".to_string()));
    let mut raw = vec![0u8; 31];
    assert_eq!(
        from_file("k", true, 0o600, &mut raw).err().unwrap().message(),
        NuxError::Identity("fichier `k`: longueur de clé invalide: 31 octets, attendu 32".into())
            .message()
    );
}

#[test]
fn key_file_must_be_private_and_owned() {
    assert!(ensure_owner_only("k", 0o100600).is_ok());
    assert!(ensure_owner_only("k", 0o100400).is_ok());
    assert!(ensure_owner_only("k", 0o100700).is_err());
    for mode in [0o640, 0o604, 0o610, 0o601, 0o620, 0o602] {
        match ensure_owner_only("k", 0o100000 | mode) {
            Err(NuxError::InsecureKeyPermissions { path, mode: m }) => {
                assert_eq!(path, "k");
                assert_eq!(m, mode);
            }
            other => panic!("refus attendu, reçu {other:?}"),
        }
    }
    let mut raw = generate().secret_bytes();
    match from_file("k", false, 0o600, &mut raw) {
        Err(NuxError::Identity(m)) => {
            assert_eq!(m, "fichier `k`: n'appartient pas à l'utilisateur courant")
        }
        _ => panic!("refus attendu"),
    }
    assert!(raw.is_empty());
}

#[test]
fn environment_identity_is_read_or_named() {
    let keypair = generate();
    let encoded = hex::encode(keypair.secret_bytes());
    assert_eq!(from_env("V", Some(encoded)).unwrap().peer_id(), keypair.peer_id());
    match from_env("V", None) {
        Err(NuxError::Identity(m)) => assert_eq!(m, "variable `V` absente ou illisible"),
        _ => panic!("refus attendu"),
    }
    match from_env("V", Some("xx".into())) {
        Err(NuxError::Identity(m)) => assert_eq!(m, "variable `V`: hexadécimal invalide"),
        _ => panic!("refus attendu"),
    }
}

#[test]
fn peer_ids_have_one_text() {
    let text = "12D3KooWKSWkFyEvNTLdch2vGZbvcyxNQBUpFrpccW3nrHPtRWQ4";
    let peer = PeerId::parse(text).unwrap();
    assert_eq!(peer.to_base58(), text);
    assert_eq!(PeerId::from_bytes(&peer.to_bytes()), Some(peer.clone()));
    assert!(peer.same(&peer.clone()));
    assert!(!peer.same(&generate().peer_id()));
    assert!(PeerId::parse("pas un pair").is_err());
    assert_eq!(PeerId::from_bytes(&[1, 2, 3]), None);
}

#[test]
fn public_key_of_a_peer_checks_its_signatures() {
    let keypair = generate();
    let signature = keypair.sign(b"message").unwrap();
    let key = public_key_of(&keypair.peer_id()).unwrap();
    assert!(key.verify(b"message", &signature));
    assert!(!key.verify(b"autre", &signature));
    assert!(!key.verify(b"message", &signature[1..]));
    let other = public_key_of(&generate().peer_id()).unwrap();
    assert!(!other.verify(b"message", &signature));
}

#[test]
fn hashed_peer_id_holds_no_key() {
    // Multihash SHA-256: the key cannot be read back.
    let mut bytes = vec![0x12, 0x20];
    bytes.extend([7u8; 32]);
    let peer = PeerId::from_bytes(&bytes).unwrap();
    assert!(public_key_of(&peer).is_none());
}

#[test]
fn generated_identities_differ() {
    assert_ne!(generate().peer_id(), generate().peer_id());
}

#[test]
fn hardened_process_is_not_dumpable() {
    harden_process().expect("le durcissement doit réussir sous Linux");
    assert_eq!(
        rustix::process::dumpable_behavior().unwrap(),
        rustix::process::DumpableBehavior::NotDumpable
    );
}

#[test]
fn hardening_failure_is_reported() {
    assert_eq!(hardening_request(), Dumpable::No);
    assert!(hardening_outcome(Ok(())).is_ok());
    assert!(hardening_outcome(Err("EPERM".into())).is_err());
}

#[test]
fn errors_have_messages() {
    assert_eq!(
        NuxError::InsecureKeyPermissions { path: "k".into(), mode: 0o644 }.message(),
        "permissions trop laxistes sur le fichier de clé `k`: mode 644, attendu 0600"
    );
    let all = [
        NuxError::Identity("x".into()),
        NuxError::Io("x".into()),
        NuxError::Network("x".into()),
        NuxError::Transport("x".into()),
        NuxError::Dial("x".into()),
        NuxError::AccessDenied,
        NuxError::Protocol("x".into()),
        NuxError::Tunnel("x".into()),
        NuxError::Config("x".into()),
    ];
    for (i, a) in all.iter().enumerate() {
        for b in &all[i + 1..] {
            assert_ne!(a.message(), b.message());
        }
    }
}
