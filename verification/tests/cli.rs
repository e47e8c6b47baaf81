//! Command line and configuration of a Guard.

use nux_core::addr::{IpAddr, SocketAddr, LOCALHOST};
use nux_core::builder::IdentitySource;
use nux_core::cli::args::{
    builder, dial_target, parse_dial_target, parse_forward, parse_forward_unix, parse_peer_id,
    split_dial_target, DialTarget, DAEMON_IDLE_TIMEOUT_MS,
};
use nux_core::cli::document::{comment_source, is_writable, TomlSection, TomlValue};
use nux_core::cli::guard_config::{
    apply_remote_config, default_listen, default_rate_max, default_rate_window_secs, edited_file,
    is_remote_writable, load, parse_sha256_hex, resolve_with, sections_to_set, ConfigFile, GuardConfig, RawAllow, RawChecksumBin,
    RawConfig, RawExempt, RawExpose, RawRateLimit, Readings, RemoteAllow, RemoteCheckSum, RemoteConfig,
    RemoteRateLimit, NANOS_PER_SEC,
};
use nux_core::cli::startup::{
    dial_plan, guard_builder, guard_registry, plan_dial, relay_setup, DialPlan, RelayAction, RelayPhase,
    RelayStep,
};
use nux_core::cli::sync::{
    remote_config, remote_config_url, sync_step, RemoteReply, SyncAction, SyncEvent, SyncState,
};
use nux_core::error::NuxError;
use nux_core::identity::generate;
use nux_core::protocol::TunnelHeader;
use nux_core::{Multiaddr, Namespace, NodeMode};

const RELAY: &str =
    "/ip4/203.0.113.9/tcp/4001/p2p/12D3KooWKSWkFyEvNTLdch2vGZbvcyxNQBUpFrpccW3nrHPtRWQ4";

fn raw() -> RawConfig {
    RawConfig {
        listen: default_listen(),
        rate_limit: RawRateLimit::default(),
        allow: Vec::new(),
        expose: Vec::new(),
        checksum_bin: Vec::new(),
        relay: None,
        namespace: None,
    }
}

/// A configuration whose top-level texts come from a TOML document.
fn load_text(contents: &str) -> Result<GuardConfig, NuxError> {
    let document: toml::Table = contents.parse().unwrap();
    let text = |key: &str| document.get(key).map(|v| v.as_str().unwrap().to_string());
    let mut config = raw();
    if let Some(listen) = text("listen") {
        config.listen = listen;
    }
    config.relay = text("relay");
    config.namespace = text("namespace");
    load("guard.toml", ConfigFile::Parsed(config))
}

fn refusal(config: RawConfig) -> String {
    match load("guard.toml", ConfigFile::Parsed(config)) {
        Err(NuxError::Config(m)) => m,
        Err(other) => panic!("refus inattendu: {other:?}"),
        Ok(_) => panic!("refus attendu"),
    }
}

#[test]
fn relay_absent_by_default() {
    let config = load_text("listen = \"/ip4/127.0.0.1/tcp/4588\"\n").unwrap();
    assert!(config.relay.is_none());
}

#[test]
fn valid_relay_is_parsed() {
    let config = load_text(
        "listen = \"/ip4/127.0.0.1/tcp/4588\"\n\
         relay = \"/ip4/203.0.113.9/tcp/4001/p2p/12D3KooWKSWkFyEvNTLdch2vGZbvcyxNQBUpFrpccW3nrHPtRWQ4\"\n",
    )
    .unwrap();
    assert_eq!(config.relay, Some(Multiaddr::parse(RELAY).unwrap()));
}

#[test]
fn malformed_relay_is_rejected_by_name() {
    let err = match load_text("relay = \"not-a-multiaddr\"\n") {
        Err(e) => e.message(),
        Ok(_) => panic!("un relay malformé devait être rejeté au chargement"),
    };
    assert!(
        err.contains("relay") && err.contains("not-a-multiaddr"),
        "le message doit nommer le champ et la valeur fautive: {err}"
    );
}

#[test]
fn namespace_without_relay_is_rejected() {
    let err = match load_text("listen = \"/ip4/127.0.0.1/tcp/4588\"\nnamespace = \"prod-db\"\n") {
        Err(e) => e.message(),
        Ok(_) => panic!("namespace sans relay devait être rejeté au chargement"),
    };
    assert!(
        err.contains("namespace") && err.contains("relay"),
        "le message doit expliquer la dépendance namespace -> relay: {err}"
    );
}

#[test]
fn namespace_with_relay_is_parsed() {
    let config = load_text(
        "listen = \"/ip4/127.0.0.1/tcp/4588\"\n\
         relay = \"/ip4/203.0.113.9/tcp/4001/p2p/12D3KooWKSWkFyEvNTLdch2vGZbvcyxNQBUpFrpccW3nrHPtRWQ4\"\n\
         namespace = \"prod-db\"\n",
    )
    .unwrap();
    assert_eq!(config.namespace, Some(Namespace::new("prod-db").unwrap()));
}

#[test]
fn defaults_of_a_guard() {
    assert_eq!(default_listen(), "/ip4/0.0.0.0/tcp/4588");
    assert_eq!(default_rate_max(), 30);
    assert_eq!(default_rate_window_secs(), 60);
    let config = load("guard.toml", ConfigFile::Parsed(raw())).ok().unwrap();
    assert_eq!(config.listen, Multiaddr::parse("/ip4/0.0.0.0/tcp/4588").unwrap());
    assert_eq!(config.rate_limit_max, 30);
    assert_eq!(config.rate_limit_window, 60 * NANOS_PER_SEC);
    assert!(config.whitelist.is_empty());
    assert!(config.expose.is_empty());
    assert!(config.checksum_bin.is_empty());
}

#[test]
fn full_configuration_is_resolved() {
    let peer = generate().peer_id();
    let mut config = raw();
    config.rate_limit = RawRateLimit {
        max: 5,
        window_secs: 7,
        exempt: vec![RawExempt { text: "10.0.0.1".into(), parsed: Ok(IpAddr::V4(0x0A00_0001)) }],
    };
    config.allow = vec![RawAllow { peer: peer.to_base58(), roles: vec!["ops".into()] }];
    config.expose = vec![RawExpose { name: "db".into(), port: 5432, role: Some("ops".into()) }];
    config.checksum_bin = vec![RawChecksumBin { peer: peer.to_base58(), sha256: "ab".repeat(32) }];
    let config = load("guard.toml", ConfigFile::Parsed(config)).ok().unwrap();
    assert_eq!((config.rate_limit_max, config.rate_limit_window), (5, 7 * NANOS_PER_SEC));
    assert_eq!(config.rate_limit_exempt, vec![IpAddr::V4(0x0A00_0001)]);
    assert_eq!(config.whitelist.roles(&peer), Some(vec!["ops".to_string()]));
    assert_eq!(config.expose, vec![("db".to_string(), 5432, Some("ops".to_string()))]);
    assert_eq!(config.checksum_bin, vec![(peer, [0xAB; 32])]);
}

#[test]
fn each_wrong_field_is_named() {
    let peer = generate().peer_id().to_base58();
    let mut c = raw();
    c.listen = "nowhere".into();
    assert!(refusal(c).contains("nowhere"));
    let mut c = raw();
    c.rate_limit.window_secs = 0;
    assert!(refusal(c).contains("window_secs"));
    let mut c = raw();
    c.rate_limit.exempt = vec![RawExempt { text: "x".into(), parsed: Err("pas une IP".into()) }];
    assert!(refusal(c).contains('x'));
    let mut c = raw();
    c.allow = vec![RawAllow { peer: "inconnu".into(), roles: vec![] }];
    assert!(refusal(c).contains("inconnu"));
    let mut c = raw();
    c.expose = vec![
        RawExpose { name: "db".into(), port: 1, role: None },
        RawExpose { name: "db".into(), port: 2, role: None },
    ];
    assert_eq!(refusal(c), "expose: service `db` défini plusieurs fois");
    let mut c = raw();
    c.checksum_bin = vec![RawChecksumBin { peer: "x".into(), sha256: "00".into() }];
    assert!(refusal(c).starts_with("checksum_bin.peer `x` invalide: "));
    let mut c = raw();
    c.checksum_bin = vec![RawChecksumBin { peer: peer.clone(), sha256: "zz".into() }];
    assert_eq!(
        refusal(c),
        "checksum_bin.sha256 `zz` invalide: hexadécimal invalide: Invalid character 'z' at position 0"
    );
    let mut c = raw();
    c.checksum_bin = vec![RawChecksumBin { peer, sha256: "00".into() }];
    assert_eq!(
        refusal(c),
        "checksum_bin.sha256 `00` invalide: longueur invalide: 1 octets, attendu 32"
    );
    let mut c = raw();
    c.relay = Some(RELAY.into());
    c.namespace = Some("n".repeat(256));
    assert!(refusal(c).ends_with("` invalide: trop long"));
    match load("g.toml", ConfigFile::Unreadable("absent".into())) {
        Err(NuxError::Config(m)) => assert_eq!(m, "lecture de `g.toml`: absent"),
        _ => panic!("refus attendu"),
    }
    match load("g.toml", ConfigFile::Malformed("ligne 1".into())) {
        Err(NuxError::Config(m)) => assert_eq!(m, "TOML invalide dans `g.toml`: ligne 1"),
        _ => panic!("refus attendu"),
    }
}

#[test]
fn fingerprints_are_32_bytes() {
    assert_eq!(parse_sha256_hex(&"0f".repeat(32)), Ok([0x0F; 32]));
    assert!(parse_sha256_hex("0f").is_err());
    assert!(parse_sha256_hex("0g").is_err());
}

fn remote() -> RemoteConfig {
    RemoteConfig {
        rate_limit: RemoteRateLimit { max: 9, window_secs: 10, exempt: vec!["::1".into()] },
        allow: vec![RemoteAllow { peer: "P".into(), roles: vec!["a".into(), "b".into()] }],
        check_sum: vec![RemoteCheckSum { peer: "P".into(), sha256: "00".into() }],
        updated_at: "1".into(),
    }
}

#[test]
fn remote_configuration_rewrites_its_sections_only() {
    let text = "# en tête\nlisten = \"/ip4/127.0.0.1/tcp/4588\"\n\n[rate_limit]\nmax = 1\n\n[[expose]]\nname = \"db\"\nport = 5432\n\n[[allow]]\npeer = \"Q\"\n";
    let edited = apply_remote_config("guard.toml", text, &remote()).unwrap();
    assert!(edited.starts_with("# en tête\nlisten = \"/ip4/127.0.0.1/tcp/4588\"\n"));
    let table: toml::Table = edited.parse().unwrap();
    let before: toml::Table = text.parse().unwrap();
    assert_eq!(table["listen"], before["listen"]);
    assert_eq!(table["expose"], before["expose"]);
    assert_eq!(table["rate_limit"]["max"].as_integer(), Some(9));
    assert_eq!(table["rate_limit"]["window_secs"].as_integer(), Some(10));
    assert_eq!(table["rate_limit"]["exempt"][0].as_str(), Some("::1"));
    assert_eq!(table["allow"].as_array().unwrap().len(), 1);
    assert_eq!(table["allow"][0]["peer"].as_str(), Some("P"));
    assert_eq!(table["allow"][0]["roles"][1].as_str(), Some("b"));
    assert_eq!(table["checksum_bin"][0]["sha256"].as_str(), Some("00"));
    match apply_remote_config("guard.toml", "= ", &remote()) {
        Err(NuxError::Config(m)) => assert!(m.starts_with("TOML invalide dans `guard.toml`: ")),
        _ => panic!("refus attendu"),
    }
}

#[test]
fn sections_of_a_remote_configuration_are_exact() {
    let mut config = remote();
    config.rate_limit.window_secs = u64::MAX;
    assert_eq!(
        sections_to_set(&config),
        vec![
            (
                "rate_limit".to_string(),
                TomlSection::Table(vec![
                    ("max".to_string(), TomlValue::Integer(9)),
                    ("window_secs".to_string(), TomlValue::Integer(i64::MAX)),
                    ("exempt".to_string(), TomlValue::Texts(vec!["::1".to_string()])),
                ])
            ),
            (
                "allow".to_string(),
                TomlSection::Tables(vec![vec![
                    ("peer".to_string(), TomlValue::Text("P".to_string())),
                    (
                        "roles".to_string(),
                        TomlValue::Texts(vec!["a".to_string(), "b".to_string()])
                    ),
                ]])
            ),
            (
                "checksum_bin".to_string(),
                TomlSection::Tables(vec![vec![
                    ("peer".to_string(), TomlValue::Text("P".to_string())),
                    ("sha256".to_string(), TomlValue::Text("00".to_string())),
                ]])
            ),
        ]
    );
    assert_eq!(edited_file("f", Ok("texte".into())).unwrap(), "texte");
    assert!(edited_file("f", Err("x".into())).is_err());
}

#[test]
fn forwards_are_read() {
    assert_eq!(parse_forward("5432:postgres"), Ok((5432, "postgres".to_string())));
    assert_eq!(parse_forward(" 80 : web:x "), Ok((80, "web:x".to_string())));
    assert_eq!(parse_forward("5432"), Err("format attendu: PORT_LOCAL:SERVICE".to_string()));
    assert_eq!(
        parse_forward("65536:db"),
        Err("port local invalide: number too large to fit in target type".to_string())
    );
    assert_eq!(
        parse_forward("x:db"),
        Err("port local invalide: invalid digit found in string".to_string())
    );
    assert_eq!(
        parse_forward("1: "),
        Err("nom de service vide (format: PORT_LOCAL:SERVICE)".to_string())
    );
}

#[test]
fn unix_forwards_are_read() {
    assert_eq!(
        parse_forward_unix("/run/db.sock:db:1000, 1001,"),
        Ok(("/run/db.sock".to_string(), "db".to_string(), vec![1000, 1001]))
    );
    for (value, part) in [
        ("", "chemin de socket manquant"),
        ("/run/db.sock", "nom de service manquant"),
        ("/run/db.sock:", "nom de service manquant"),
        ("/run/db.sock:db", "UID autorisé(s) manquant(s)"),
        ("/run/db.sock:db:", "au moins un UID"),
        ("/run/db.sock:db:x", "UID invalide `x`: invalid digit found in string"),
        ("/run/db.sock:db:4294967296", "UID invalide `4294967296`: number too large"),
    ] {
        let err = parse_forward_unix(value).err().unwrap();
        assert!(err.starts_with(part), "{value}: {err}");
    }
}

#[test]
fn dial_targets_are_read() {
    match parse_dial_target(RELAY) {
        Ok(DialTarget::Address(a)) => assert_eq!(a, Multiaddr::parse(RELAY).unwrap()),
        other => panic!("adresse attendue, reçu {other:?}"),
    }
    match parse_dial_target(&format!("discover:prod-db@{RELAY}")) {
        Ok(DialTarget::Discover { namespace, rendezvous }) => {
            assert_eq!(namespace, "prod-db");
            assert_eq!(rendezvous, Multiaddr::parse(RELAY).unwrap());
        }
        other => panic!("découverte attendue, reçu {other:?}"),
    }
    for (value, part) in [
        ("discover:prod-db", "format attendu"),
        ("discover:@/ip4/1.2.3.4/tcp/1", "namespace vide"),
        ("discover:a@b", "adresse de rendezvous invalide: "),
        ("ailleurs", "multiaddr invalide: "),
    ] {
        let err = parse_dial_target(value).err().unwrap();
        assert!(err.starts_with(part), "{value}: {err}");
    }
}

#[test]
fn peer_ids_are_read() {
    let peer = generate().peer_id();
    assert_eq!(parse_peer_id(&peer.to_base58()), Ok(peer));
    assert!(parse_peer_id("x").err().unwrap().starts_with("PeerId invalide: "));
}

#[test]
fn identity_comes_from_the_file_then_the_environment() {
    let b = builder(NodeMode::Guard, Some("k".into()), true);
    assert!(matches!(&b.identity, IdentitySource::File(p) if p == "k"));
    assert_eq!(b.mode, NodeMode::Guard);
    assert_eq!(b.idle_timeout_ms, DAEMON_IDLE_TIMEOUT_MS);
    let b = builder(NodeMode::Client, None, true);
    assert!(matches!(&b.identity, IdentitySource::Env(v) if v == "NUX_IDENTITY_KEY"));
    let b = builder(NodeMode::Client, None, false);
    assert!(matches!(&b.identity, IdentitySource::Ephemeral));
}

#[test]
fn configuration_is_fetched_through_the_tunnel() {
    let peer = generate().peer_id();
    assert_eq!(
        remote_config_url(18089, &peer),
        format!("http://127.0.0.1:18089/api/v1/configs/{}", peer.to_base58())
    );
}

#[test]
fn version_is_applied_once() {
    let mut state = SyncState::new();
    let fetched = |v: &str| SyncEvent::Fetched(v.to_string());
    assert_eq!(sync_step(&mut state, fetched("17")), SyncAction::Apply);
    // Refused: tried again.
    assert_eq!(sync_step(&mut state, SyncEvent::ApplyFailed), SyncAction::Sleep);
    assert_eq!(sync_step(&mut state, fetched("17")), SyncAction::Apply);
    assert_eq!(sync_step(&mut state, SyncEvent::Applied), SyncAction::Signal);
    assert_eq!(sync_step(&mut state, SyncEvent::Signalled), SyncAction::Sleep);
    assert_eq!(sync_step(&mut state, fetched("17")), SyncAction::Sleep);
    assert_eq!(sync_step(&mut state, SyncEvent::FetchFailed), SyncAction::Sleep);
    assert_eq!(sync_step(&mut state, SyncEvent::Applied), SyncAction::Sleep);
    assert_eq!(sync_step(&mut state, fetched("18")), SyncAction::Apply);
}

#[test]
fn guard_serves_what_its_file_says() {
    let peer = generate().peer_id();
    let mut raw = raw();
    raw.listen = "/ip4/127.0.0.1/tcp/4588".into();
    raw.rate_limit = RawRateLimit {
        max: 5,
        window_secs: 7,
        exempt: vec![RawExempt { text: "10.0.0.1".into(), parsed: Ok(IpAddr::V4(0x0A00_0001)) }],
    };
    raw.expose = vec![
        RawExpose { name: "db".into(), port: 5432, role: Some("ops".into()) },
        RawExpose { name: "web".into(), port: 80, role: None },
    ];
    raw.checksum_bin = vec![RawChecksumBin { peer: peer.to_base58(), sha256: "ab".repeat(32) }];
    let config = load("guard.toml", ConfigFile::Parsed(raw)).ok().unwrap();

    let registry = guard_registry(&config);
    let header = |service: &str, byte: u8| TunnelHeader {
        service: service.into(),
        binary_sha256: [byte; 32],
    };
    let ops = vec!["ops".to_string()];
    assert_eq!(registry.len(), 2);
    assert_eq!(
        registry.resolve(&peer, &ops, &header("db", 0xAB)),
        Some(SocketAddr::V4(LOCALHOST, 5432))
    );
    assert_eq!(registry.resolve(&peer, &ops, &header("db", 0)), None);
    assert_eq!(registry.resolve(&generate().peer_id(), &Vec::new(), &header("db", 0)), None);
    assert_eq!(
        registry.resolve(&generate().peer_id(), &Vec::new(), &header("web", 0)),
        Some(SocketAddr::V4(LOCALHOST, 80))
    );

    let settings = guard_builder(&config, Some("node.key".into()), false);
    assert_eq!(settings.mode, NodeMode::Guard);
    assert!(matches!(&settings.identity, IdentitySource::File(p) if p == "node.key"));
    assert_eq!(settings.listen_addrs, vec![config.listen.clone()]);
    assert_eq!(settings.idle_timeout_ms, DAEMON_IDLE_TIMEOUT_MS);
    assert_eq!((settings.rate_limit_max, settings.rate_limit_window), (5, 7 * NANOS_PER_SEC));
    assert_eq!(settings.rate_limit_exempt, vec![IpAddr::V4(0x0A00_0001)]);
}

#[test]
fn dials_are_planned() {
    let plan = |text: &str| dial_plan(parse_dial_target(text).unwrap());
    assert!(matches!(plan("/ip4/127.0.0.1/tcp/1"), Ok(DialPlan::First(_))));
    match plan(RELAY) {
        Ok(DialPlan::Target(_, peer)) => assert!(RELAY.ends_with(&peer.to_base58())),
        other => panic!("pair attendu, reçu {other:?}"),
    }
    match plan(&format!("discover:prod-db@{RELAY}")) {
        Ok(DialPlan::Discover(_, peer, namespace)) => {
            assert!(RELAY.ends_with(&peer.to_base58()));
            assert_eq!(namespace.as_str(), "prod-db");
        }
        other => panic!("découverte attendue, reçu {other:?}"),
    }
    match plan("discover:prod-db@/ip4/127.0.0.1/tcp/1") {
        Err(NuxError::Config(m)) => {
            assert_eq!(m, "adresse de rendezvous invalide: doit inclure /p2p/<peer_id>")
        }
        other => panic!("refus attendu, reçu {other:?}"),
    }
    match plan(&format!("discover:{}@{RELAY}", "n".repeat(256))) {
        Err(NuxError::Config(m)) => assert!(m.ends_with("` invalide: trop long")),
        other => panic!("refus attendu, reçu {other:?}"),
    }
}

#[test]
fn relay_is_optional() {
    let next = |phase, step| relay_setup(phase, true, step);
    assert_eq!(
        next(RelayPhase::Connecting, RelayStep::Done),
        (RelayPhase::Reserving, RelayAction::Reserve)
    );
    assert_eq!(
        next(RelayPhase::Reserving, RelayStep::Done),
        (RelayPhase::Registering, RelayAction::Register)
    );
    assert_eq!(
        relay_setup(RelayPhase::Reserving, false, RelayStep::Done),
        (RelayPhase::Serving, RelayAction::Serve)
    );
    for phase in [RelayPhase::Connecting, RelayPhase::Reserving, RelayPhase::Registering] {
        assert_eq!(next(phase, RelayStep::Failed), (RelayPhase::Serving, RelayAction::Serve));
    }
}

#[test]
fn failed_fetches_are_named() {
    let failure = |reply| match remote_config("http://u", reply) {
        Err(NuxError::Network(m)) => m,
        other => panic!("échec attendu, reçu {other:?}"),
    };
    assert_eq!(
        failure(RemoteReply::Unreachable("refus".into())),
        "Gateway injoignable (http://u): refus"
    );
    assert_eq!(
        failure(RemoteReply::Refused("404 Not Found".into())),
        "Gateway a répondu 404 Not Found pour http://u"
    );
    assert_eq!(
        failure(RemoteReply::Invalid("eof".into())),
        "réponse Gateway invalide: eof"
    );
    assert_eq!(remote_config("http://u", RemoteReply::Config(remote())).unwrap(), remote());
}

#[test]
fn dial_targets_are_split_before_they_are_read() {
    assert_eq!(split_dial_target("/ip4/1.2.3.4"), Ok((None, "/ip4/1.2.3.4")));
    assert_eq!(split_dial_target("discover:a@b@c"), Ok((Some("a"), "b@c")));
    assert!(split_dial_target("discover:a").is_err());
    assert!(split_dial_target("discover:@b").is_err());
    assert_eq!(
        dial_target(Some("a"), Err("x".into())).err(),
        Some("adresse de rendezvous invalide: x".to_string())
    );
    assert_eq!(
        dial_target(None, Err("x".into())).err(),
        Some("multiaddr invalide: x".to_string())
    );
    let addr = Multiaddr::parse("/ip4/1.2.3.4/tcp/5").unwrap();
    assert!(matches!(dial_target(None, Ok(addr.clone())), Ok(DialTarget::Address(a)) if a == addr));
    let peer = generate().peer_id();
    match plan_dial(DialTarget::Address(addr.clone()), Some(peer.clone())) {
        Ok(DialPlan::Target(a, p)) => assert_eq!((a, p), (addr, peer)),
        other => panic!("pair attendu, reçu {other:?}"),
    }
}

#[test]
fn fields_are_validated_from_their_readings() {
    let peer = generate().peer_id();
    let listen = Multiaddr::parse("/ip4/1.2.3.4/tcp/5").unwrap();
    let mut config = raw();
    config.allow = vec![RawAllow { peer: "alice".into(), roles: vec!["ops".into()] }];
    let read = |allow| Readings {
        listen: Ok(listen.clone()),
        allow: vec![allow],
        checksum_bin: vec![],
        relay: None,
    };
    let resolved = resolve_with(&config, read(Ok(peer.clone()))).ok().unwrap();
    assert_eq!(resolved.listen, listen);
    assert_eq!(resolved.whitelist.roles(&peer), Some(vec!["ops".to_string()]));
    assert_eq!(
        resolve_with(&config, read(Err("x".into()))).err(),
        Some("allow.peer `alice` invalide: x".to_string())
    );
}

#[test]
fn comments_survive_a_remote_configuration() {
    let text = "\
# Guard de production
listen = \"/ip4/127.0.0.1/tcp/4588\" # boucle locale

# cadence
[rate_limit]
# par adresse
max = 1 # prudent
window_secs = 60

# équipe
[[allow]]
peer = \"A\" # Alice
roles = [\"x\"]

# astreinte
[[allow]]
peer = \"B\" # Bob

# services
[[expose]]
name = \"db\" # base
port = 5432
# fin
";
    let mut config = remote();
    config.allow = ["B", "C", "A"]
        .iter()
        .map(|p| RemoteAllow { peer: p.to_string(), roles: vec![] })
        .collect();
    let edited = apply_remote_config("guard.toml", text, &config).unwrap();
    for comment in [
        "# Guard de production\nlisten = \"/ip4/127.0.0.1/tcp/4588\" # boucle locale\n",
        "# cadence\n[rate_limit]\n# par adresse\nmax = 9 # prudent\n",
        "# équipe\n[[allow]]\npeer = \"A\" # Alice\n",
        "# astreinte\n[[allow]]\npeer = \"B\" # Bob\n",
        "# services\n[[expose]]\nname = \"db\" # base\nport = 5432\n",
        "# fin\n",
    ] {
        assert!(edited.contains(comment), "{comment:?} absent de\n{edited}");
    }
    let table: toml::Table = edited.parse().unwrap();
    let peers: Vec<&str> = table["allow"]
        .as_array()
        .unwrap()
        .iter()
        .map(|e| e["peer"].as_str().unwrap())
        .collect();
    assert_eq!(peers, vec!["B", "C", "A"]);
    // Applied again, nothing changes.
    assert_eq!(apply_remote_config("guard.toml", &edited, &config).unwrap(), edited);
}

#[test]
fn entries_take_the_comments_of_their_peer() {
    let old = vec![Some("A".to_string()), None, Some("B".to_string())];
    let peers = |names: &[&str]| -> Vec<Option<String>> {
        names.iter().map(|n| Some(n.to_string())).collect()
    };
    assert_eq!(comment_source(&old, &peers(&["B", "A"]), 0), Some(2));
    assert_eq!(comment_source(&old, &peers(&["B", "A"]), 1), Some(0));
    assert_eq!(comment_source(&old, &peers(&["C", "D"]), 0), Some(0));
    assert_eq!(comment_source(&old, &peers(&["C", "D"]), 1), None);
    assert_eq!(comment_source(&old, &peers(&["C", "A"]), 0), None);
    assert_eq!(comment_source(&Vec::new(), &peers(&["C"]), 0), None);
    assert_eq!(comment_source(&old, &vec![Some("B".to_string()), None], 1), None);
}

#[test]
fn field_with_its_value_stays_as_it_is_written() {
    let text = "[rate_limit]\nmax = 0x9\nexempt = [\n    # boucle locale\n    '::1', # v6\n]\nwindow_secs = 10\n\n[[allow]]\nroles = [ \"a\", 'b' ]\npeer = \"P\"\n";
    let edited = apply_remote_config("guard.toml", text, &remote()).unwrap();
    assert_eq!(
        edited,
        "[rate_limit]\nmax = 0x9\nwindow_secs = 10\nexempt = [\n    # boucle locale\n    '::1', # v6\n]\n\n[[allow]]\npeer = \"P\"\nroles = [ \"a\", 'b' ]\n\n[[checksum_bin]]\npeer = \"P\"\nsha256 = \"00\"\n"
    );
}

#[test]
fn file_without_the_sections_stays_and_they_follow() {
    for text in [
        "",
        "listen = \"x\"",
        "# en tête\r\nlisten = \"x\" # ici\r\n\r\n# fin",
        "b.x = 1\nlisten = 'x'\nb.y = 2\n\n[[expose]]\nname = \"db\"\nport = 1\n# fin\n",
        "\u{feff}listen = \"x\"\n[c.d]\n[a]\n[c.e]\n   ",
    ] {
        let edited = apply_remote_config("guard.toml", text, &remote()).unwrap();
        assert!(edited.starts_with(text), "{edited}");
        let added = edited.strip_prefix(text).unwrap();
        assert_eq!(
            added,
            "\n[rate_limit]\nmax = 9\nwindow_secs = 10\nexempt = [\"::1\"]\n\n[[allow]]\npeer = \"P\"\nroles = [\"a\", \"b\"]\n\n[[checksum_bin]]\npeer = \"P\"\nsha256 = \"00\"\n"
        );
        let before: toml_edit::DocumentMut = text.parse().unwrap();
        let after: toml_edit::DocumentMut = edited.parse().unwrap();
        for (key, item) in before.iter() {
            assert_eq!(item.to_string(), after[key].to_string());
        }
        assert_eq!(after.len(), before.len() + 3);
        let again = apply_remote_config("guard.toml", &edited, &remote()).unwrap();
        assert_eq!(again.parse::<toml::Table>(), edited.parse::<toml::Table>());
    }
}

#[test]
fn comment_above_a_section_outlives_it() {
    let mut config = remote();
    config.allow.clear();
    config.check_sum.clear();
    let text = "listen = \"x\"\n\n# équipe\n[[allow]]\npeer = \"Q\"\n\n[[checksum_bin]]\npeer = \"Q\"\n\n[rate_limit]\nmax = 9\n# fin\n";
    let edited = apply_remote_config("guard.toml", text, &config).unwrap();
    assert_eq!(
        edited,
        "listen = \"x\"\n\n[rate_limit]\nmax = 9\nwindow_secs = 10\nexempt = [\"::1\"]\n\n# équipe\n# fin\n"
    );
}

#[test]
fn section_of_another_form_becomes_a_table() {
    for text in [
        "# cadence\nrate_limit = { max = 1 } # en ligne\nallow = []\nlisten = \"x\"\n",
        "allow = [{ peer = \"Q\" }]\nexpose = [{ name = \"db\", port = 1 }]\nlisten = \"x\"\n",
        "rate_limit = [1, 2, []]\nallow = [[\"Q\", []]]\nlisten = \"x\"\n",
        "rate_limit.max = 1\nlisten = \"x\"\n",
        "listen = \"x\"\n[rate_limit.sub]\na = 1\n[allow]\nb = 2\n[checksum_bin.c]\n",
        "listen = \"x\"\nrate_limit = 3\n[[rate_limits]]\na = 1\n[rate_limits.sub]\nb = 2\n",
        "listen = \"x\"\n[[rate_limit]]\nmax = 2\n",
    ] {
        let edited = apply_remote_config("guard.toml", text, &remote()).unwrap();
        let table: toml::Table = edited.parse().unwrap();
        let before: toml::Table = text.parse().unwrap();
        assert_eq!(table["listen"].as_str(), Some("x"));
        assert_eq!(table.get("rate_limits"), before.get("rate_limits"));
        assert_eq!(table.get("expose"), before.get("expose"));
        let limits = table["rate_limit"].as_table().unwrap();
        assert_eq!(limits.len(), 3);
        assert_eq!(limits["max"].as_integer(), Some(9));
        assert_eq!(table["allow"].as_array().unwrap().len(), 1);
        assert_eq!(table["checksum_bin"].as_array().unwrap().len(), 1);
    }
}

#[test]
fn section_without_entries_is_removed() {
    let mut config = remote();
    config.allow.clear();
    config.check_sum.clear();
    let text = "[[allow]]\npeer = \"Q\"\n\n[[expose]]\nname = \"db\"\nport = 1\n";
    let edited = apply_remote_config("guard.toml", text, &config).unwrap();
    let table: toml::Table = edited.parse().unwrap();
    assert!(table.get("allow").is_none());
    assert!(table.get("checksum_bin").is_none());
    assert_eq!(table["expose"][0]["name"].as_str(), Some("db"));
}

#[test]
fn texts_of_a_remote_configuration_are_read_back() {
    let mut config = remote();
    let odd = [
        "", "'", "\"", "'\"", "'''\"\"\"", "a\nb", "\n", "\t\r\u{7f}\u{1}", "\\", "é # [x]", "a''\n\"\"\"",
    ];
    config.allow[0].roles = odd.iter().map(|t| t.to_string()).collect();
    assert!(is_remote_writable(&config));
    let edited = apply_remote_config("guard.toml", "", &config).unwrap();
    let table: toml::Table = edited.parse().unwrap();
    for (i, text) in odd.iter().enumerate() {
        assert_eq!(table["allow"][0]["roles"][i].as_str(), Some(*text));
    }
}

#[test]
fn quotes_in_a_row_are_limited() {
    assert!(is_writable(&"\"".repeat(255)));
    assert!(is_writable(&format!("{}x{}", "'".repeat(255), "'".repeat(255))));
    assert!(!is_writable(&"\"".repeat(256)));
    assert!(!is_writable(&format!("x{}", "'".repeat(256))));
    let mut config = remote();
    assert!(is_remote_writable(&config));
    config.allow[0].roles.push("'".repeat(256));
    assert!(!is_remote_writable(&config));
}

#[test]
fn applied_remote_configuration_is_the_one_that_is_loaded() {
    let peer = generate().peer_id();
    let text = format!(
        "listen = \"/ip4/127.0.0.1/tcp/4588\"\nrelay = \"{RELAY}\"\nnamespace = \"prod-db\"\n\n[[allow]]\npeer = \"{}\"\n",
        generate().peer_id().to_base58()
    );
    let mut config = remote();
    config.allow = vec![RemoteAllow { peer: peer.to_base58(), roles: vec!["ops".into()] }];
    config.check_sum = vec![RemoteCheckSum { peer: peer.to_base58(), sha256: "ab".repeat(32) }];
    let read = |text: &str| {
        let table: toml::Table = text.parse().unwrap();
        let text_of = |v: &toml::Value| v.as_str().unwrap().to_string();
        let list = |key: &str| match table.get(key) {
            Some(v) => v.as_array().unwrap().clone(),
            None => Vec::new(),
        };
        let mut fields = raw();
        fields.listen = text_of(&table["listen"]);
        fields.relay = table.get("relay").map(text_of);
        fields.namespace = table.get("namespace").map(text_of);
        if let Some(limits) = table.get("rate_limit") {
            fields.rate_limit.max = limits["max"].as_integer().unwrap() as u32;
            fields.rate_limit.window_secs = limits["window_secs"].as_integer().unwrap() as u64;
            fields.rate_limit.exempt = limits["exempt"]
                .as_array()
                .unwrap()
                .iter()
                .map(|ip| RawExempt { text: text_of(ip), parsed: Ok(IpAddr::V6(1)) })
                .collect();
        }
        fields.allow = list("allow")
            .iter()
            .map(|e| RawAllow {
                peer: text_of(&e["peer"]),
                roles: e.get("roles").map_or(Vec::new(), |r| {
                    r.as_array().unwrap().iter().map(text_of).collect()
                }),
            })
            .collect();
        fields.checksum_bin = list("checksum_bin")
            .iter()
            .map(|e| RawChecksumBin { peer: text_of(&e["peer"]), sha256: text_of(&e["sha256"]) })
            .collect();
        load("guard.toml", ConfigFile::Parsed(fields)).ok().unwrap()
    };
    let before = read(&text);
    let after = read(&apply_remote_config("guard.toml", &text, &config).unwrap());
    assert_eq!((after.rate_limit_max, after.rate_limit_window), (9, 10 * NANOS_PER_SEC));
    assert_eq!(after.rate_limit_exempt, vec![IpAddr::V6(1)]);
    assert_eq!(after.whitelist.len(), 1);
    assert_eq!(after.whitelist.roles(&peer), Some(vec!["ops".to_string()]));
    assert_eq!(after.checksum_bin, vec![(peer, [0xAB; 32])]);
    assert_eq!(after.listen, before.listen);
    assert_eq!(after.expose, before.expose);
    assert_eq!(after.relay, before.relay);
    assert_eq!(after.namespace, before.namespace);
    config.allow.clear();
    let emptied = read(&apply_remote_config("guard.toml", &text, &config).unwrap());
    assert!(emptied.whitelist.is_empty());
}
