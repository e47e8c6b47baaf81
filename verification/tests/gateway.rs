//! Gateway.

use nux_core::addr::SocketAddr;
use nux_core::gateway::config::{Config, Environment};
use nux_core::gateway::error::AppError;
use nux_core::gateway::handlers::{
    check_uuid, dashboard_health, dashboard_url, get_config, node_state_request, post_node_state,
    put_config, put_config_at, require_bearer, stored_config, uuid_outcome, validate_checked,
    validate_input, SetStateInput,
};
use nux_core::gateway::models::{
    ActorKind, Allow, AuthenticatedActor, CheckSum, ConfigNodeGuard, ConfigNodeGuardInput,
    RateLimit,
};
use nux_core::gateway::rate_limit::{enforce, WindowLimiter};
use nux_core::gateway::roles::{
    rebuild_whitelist, roles_for_config, roles_for_peers, roles_to_push, ROLE_CLIENT, ROLE_GUARD,
};
use nux_core::cli::guard_config::{
    default_listen, resolve, RawAllow, RawChecksumBin, RawConfig, RawExempt, RawRateLimit,
};
use nux_core::gateway::startup::{gateway_builder, gateway_registry};
use nux_core::builder::IdentitySource;
use nux_core::identity::generate;
use nux_core::protocol::TunnelHeader;
use nux_core::NodeMode;

#[test]
fn allows_up_to_the_cap_then_denies_within_the_window() {
    let mut limiter = WindowLimiter::new(3, 60);
    assert!(limiter.allow());
    assert!(limiter.allow());
    assert!(limiter.allow());
    assert!(!limiter.allow());
    assert!(!limiter.allow());
}

#[test]
fn next_window_starts_anew() {
    let mut limiter = WindowLimiter::new_at(1, 60, 100);
    assert!(limiter.allow_at(100));
    assert!(!limiter.allow_at(159));
    assert!(limiter.allow_at(160));
    assert!(!limiter.allow_at(219));
    // A clock that goes back does not open a window.
    assert!(!limiter.allow_at(10));
}

#[test]
fn limited_route_answers_too_many_requests() {
    let mut limiter = WindowLimiter::new(1, 60);
    assert!(enforce(&mut limiter).is_ok());
    let refused = enforce(&mut limiter).err().unwrap();
    assert_eq!(refused.status(), 429);
    assert_eq!(refused.message(), "cadence dépassée");
}

#[test]
fn errors_have_their_status_and_message() {
    for (error, status, message) in [
        (AppError::Unauthorized, 401, "unauthorized"),
        (AppError::NotFound, 404, "not found"),
        (AppError::BadRequest("champ".into()), 400, "champ"),
        (AppError::DashboardNotConfigured, 503, "dashboard non configuré (jeton manquant)"),
        (AppError::DashboardUnreachable, 503, "dashboard control plane injoignable"),
        (AppError::RateLimited, 429, "cadence dépassée"),
        (AppError::Internal, 500, "erreur interne"),
    ] {
        assert_eq!(error.status(), status);
        assert_eq!(error.message(), message);
    }
}

fn environment() -> Environment {
    Environment {
        admin_addr: Ok(SocketAddr::V4(0, 8088)),
        listen: None,
        identity_file: None,
        guard_port: None,
        client_port: None,
        database_url: Some("nux.db".into()),
        api_url: Some("http://dashboard//".into()),
        admin_token: Some("0123456789abcdef".into()),
        dashboard_token: None,
    }
}

fn refusal(env: Environment) -> String {
    Config::from_env(env).err().unwrap()
}

#[test]
fn configuration_has_defaults() {
    let config = Config::from_env(environment()).ok().unwrap();
    assert_eq!(config.admin_addr, SocketAddr::V4(0, 8088));
    assert_eq!(config.listen, nux_core::Multiaddr::parse("/ip4/0.0.0.0/tcp/4589").unwrap());
    assert_eq!(config.identity_file, None);
    assert_eq!((config.guard_port, config.client_port), (8089, 8090));
    assert_eq!(config.database_url, "nux.db");
    assert_eq!(config.dashboard_base_url, "http://dashboard");
    assert_eq!(config.admin_token, "0123456789abcdef");
    assert_eq!(config.dashboard_token, None);
}

#[test]
fn blank_variables_count_as_unset() {
    let mut env = environment();
    env.identity_file = Some("  ".into());
    env.dashboard_token = Some("\t".into());
    let config = Config::from_env(env).ok().unwrap();
    assert_eq!(config.identity_file, None);
    assert_eq!(config.dashboard_token, None);
    let mut env = environment();
    env.identity_file = Some(" gw.key".into());
    env.dashboard_token = Some("jeton".into());
    let config = Config::from_env(env).ok().unwrap();
    assert_eq!(config.identity_file, Some(" gw.key".to_string()));
    assert_eq!(config.dashboard_token, Some("jeton".to_string()));
}

#[test]
fn wrong_variables_are_named() {
    let mut env = environment();
    env.admin_addr = Err("x".into());
    assert_eq!(refusal(env), "NUX_GW_ADMIN_ADDR invalide: x");
    let mut env = environment();
    env.listen = Some("ailleurs".into());
    assert!(refusal(env).starts_with("NUX_GW_LISTEN invalide: "));
    let mut env = environment();
    env.guard_port = Some("x".into());
    assert_eq!(refusal(env), "NUX_GW_GUARD_PORT invalide: invalid digit found in string");
    let mut env = environment();
    env.client_port = Some("".into());
    assert_eq!(
        refusal(env),
        "NUX_GW_CLIENT_PORT invalide: cannot parse integer from empty string"
    );
    let mut env = environment();
    env.client_port = Some("8089".into());
    assert_eq!(refusal(env), "NUX_GW_GUARD_PORT et NUX_GW_CLIENT_PORT doivent différer");
    let mut env = environment();
    env.database_url = None;
    assert_eq!(refusal(env), "DATABASE_URL doit être défini");
    let mut env = environment();
    env.api_url = None;
    assert_eq!(refusal(env), "NUX_GW_API_URL doit être défini");
    let mut env = environment();
    env.admin_token = None;
    assert_eq!(refusal(env), "NUX_GW_ADMIN_TOKEN doit être défini");
    let mut env = environment();
    env.admin_token = Some("éééééééééééééé".into());
    assert_eq!(refusal(env), "NUX_GW_ADMIN_TOKEN doit faire au moins 16 caractères");
}

fn input() -> ConfigNodeGuardInput {
    ConfigNodeGuardInput {
        rate_limit: RateLimit { max: 1, window_secs: 2, exempt: vec!["10.0.0.1".into()] },
        allow: vec![Allow { peer: generate().peer_id().to_base58(), roles: vec![] }],
        check_sum: vec![CheckSum {
            peer: generate().peer_id().to_base58(),
            sha256: format!(" {} ", "ab".repeat(32)),
        }],
    }
}

fn bad_request(result: Result<(), AppError>) -> String {
    match result {
        Err(AppError::BadRequest(m)) => m,
        other => panic!("refus attendu, reçu {other:?}"),
    }
}

#[test]
fn each_wrong_input_is_named() {
    assert!(validate_input(&input(), &vec![true]).is_ok());
    let mut i = input();
    i.rate_limit.window_secs = 0;
    assert_eq!(
        bad_request(validate_input(&i, &vec![true])),
        "rate_limit.window_secs doit être d'au moins 1"
    );
    assert_eq!(
        bad_request(validate_input(&input(), &vec![false])),
        "rate_limit.exempt `10.0.0.1` invalide"
    );
    let mut i = input();
    i.allow[0].peer = "x".into();
    i.check_sum[0].peer = "y".into();
    assert_eq!(bad_request(validate_input(&i, &vec![true])), "allow.peer `x` invalide");
    i.allow.clear();
    assert_eq!(bad_request(validate_input(&i, &vec![true])), "check_sum.peer `y` invalide");
    let mut i = input();
    i.check_sum[0].sha256 = "zz".into();
    assert_eq!(bad_request(validate_input(&i, &vec![true])), "check_sum.sha256 `zz` invalide");
    i.check_sum[0].sha256 = "00".into();
    assert_eq!(
        bad_request(validate_input(&i, &vec![true])),
        "check_sum.sha256 `00` doit faire 32 octets"
    );
}

#[test]
fn configuration_is_kept_with_its_version() {
    let uuid = generate().peer_id().to_base58();
    let i = input();
    let kept = put_config_at(uuid.clone(), i.clone(), &vec![true], 1_780_000_000).unwrap();
    assert_eq!(kept.uuid, uuid);
    assert_eq!(kept.rate_limit, i.rate_limit);
    assert_eq!(kept.allow, i.allow);
    assert_eq!(kept.check_sum, i.check_sum);
    assert_eq!(kept.updated_at, "1780000000");
    assert!(put_config(uuid.clone(), i.clone(), &vec![true]).is_ok());
    assert_eq!(
        bad_request(put_config("x".into(), i, &vec![true]).map(|_| ())),
        "uuid `x` n'est pas un PeerId valide"
    );
    assert!(check_uuid(&uuid).is_ok());
    assert_eq!(get_config(&uuid, Some(kept)).unwrap().uuid, uuid);
    assert!(matches!(get_config(&uuid, None), Err(AppError::NotFound)));
    assert!(matches!(get_config("x", None), Err(AppError::BadRequest(_))));
}

#[test]
fn node_state_is_checked_before_it_is_passed_on() {
    let peer = generate().peer_id().to_base58();
    let body = |state: &str| SetStateInput { state: state.into() };
    for state in ["active", "inactive", "relay", "suspended"] {
        assert_eq!(
            post_node_state(&peer, &body(state), Some("jeton")).unwrap(),
            (format!("/api/v1/private/nodes/{peer}/state"), "jeton")
        );
    }
    assert_eq!(
        bad_request(post_node_state("x", &body("active"), None).map(|_| ())),
        "peer_id `x` invalide"
    );
    assert_eq!(
        bad_request(post_node_state(&peer, &body("off"), None).map(|_| ())),
        "state doit être l'un de [\"active\", \"inactive\", \"relay\", \"suspended\"]"
    );
    assert!(matches!(
        post_node_state(&peer, &body("active"), None),
        Err(AppError::DashboardNotConfigured)
    ));
}

#[test]
fn dashboard_is_addressed_and_probed() {
    assert_eq!(dashboard_url("http://d", "/p", None), "http://d/p");
    assert_eq!(dashboard_url("http://d", "/p", Some("")), "http://d/p");
    assert_eq!(dashboard_url("http://d", "/p", Some("a=1")), "http://d/p?a=1");
    assert_eq!(dashboard_health(Some(204)), "ok");
    assert_eq!(dashboard_health(Some(500)), "unreachable");
    assert_eq!(dashboard_health(None), "unreachable");
}

#[test]
fn bearer_token_must_match() {
    assert!(require_bearer(Some("Bearer secret"), "secret").is_ok());
    for header in [None, Some("Bearer secre"), Some("Bearer secreT"), Some("secret"), Some("bearer secret")] {
        assert!(matches!(require_bearer(header, "secret"), Err(AppError::Unauthorized)));
    }
}

#[test]
fn roles_follow_the_configurations() {
    let (guard, client) = (generate().peer_id(), generate().peer_id());
    let config = ConfigNodeGuard {
        uuid: guard.to_base58(),
        rate_limit: RateLimit { max: 1, window_secs: 1, exempt: vec![] },
        allow: vec![
            Allow { peer: "corrompu".into(), roles: vec!["admin".into()] },
            Allow { peer: client.to_base58(), roles: vec!["admin".into()] },
        ],
        check_sum: vec![],
        updated_at: "0".into(),
    };
    let both = vec![ROLE_GUARD.to_string(), ROLE_CLIENT.to_string()];
    assert_eq!(
        roles_for_config(&config),
        vec![(guard.clone(), both.clone()), (client.clone(), vec![ROLE_CLIENT.to_string()])]
    );
    let mut second = config.clone();
    second.uuid = client.to_base58();
    second.allow.clear();
    let list = rebuild_whitelist(&vec![config, second]);
    assert_eq!(list.len(), 2);
    assert_eq!(list.roles(&guard), Some(both.clone()));
    assert_eq!(list.roles(&client), Some(both));
}

#[test]
fn router_names_the_origin_of_its_requests() {
    assert_eq!(AuthenticatedActor::of_router(ActorKind::Guard).id, "gwapi-guard");
    assert_eq!(AuthenticatedActor::of_router(ActorKind::Client).id, "gwapi-client");
}

#[test]
fn each_router_is_behind_its_role() {
    let config = Config::from_env(environment()).ok().unwrap();
    let registry = gateway_registry(&config);
    let peer = generate().peer_id();
    let header = |service: &str| TunnelHeader { service: service.into(), binary_sha256: [0; 32] };
    let both = vec![ROLE_GUARD.to_string(), ROLE_CLIENT.to_string()];
    let client = vec![ROLE_CLIENT.to_string()];
    let localhost = 0x7F00_0001;
    let (guard_api, client_api) = (header("gwapi-guard"), header("gwapi-client"));
    assert_eq!(registry.resolve(&peer, &both, &guard_api), Some(SocketAddr::V4(localhost, 8089)));
    assert_eq!(registry.resolve(&peer, &both, &client_api), Some(SocketAddr::V4(localhost, 8090)));
    assert_eq!(registry.resolve(&peer, &client, &guard_api), None);
    assert_eq!(registry.resolve(&peer, &client, &client_api), Some(SocketAddr::V4(localhost, 8090)));
    assert_eq!(registry.resolve(&peer, &Vec::new(), &client_api), None);
}

#[test]
fn gateway_is_a_guard_with_its_own_identity() {
    let config = Config::from_env(environment()).ok().unwrap();
    let settings = gateway_builder(&config);
    assert_eq!(settings.mode, NodeMode::Guard);
    assert_eq!(settings.listen_addrs, vec![config.listen.clone()]);
    assert!(matches!(&settings.identity, IdentitySource::Env(v) if v == "NUX_IDENTITY_KEY"));
    let mut env = environment();
    env.identity_file = Some("gw.key".into());
    let config = Config::from_env(env).ok().unwrap();
    assert!(matches!(&gateway_builder(&config).identity, IdentitySource::File(p) if p == "gw.key"));
}

#[test]
fn checks_of_the_caller_decide() {
    let i = input();
    assert!(validate_checked(&i, &vec![true], &vec![true], &vec![true]).is_ok());
    assert!(bad_request(validate_checked(&i, &vec![true], &vec![false], &vec![true]))
        .starts_with("allow.peer `"));
    assert!(bad_request(validate_checked(&i, &vec![true], &vec![true], &vec![false]))
        .starts_with("check_sum.peer `"));
    assert!(uuid_outcome("x", true).is_ok());
    assert_eq!(bad_request(uuid_outcome("x", false)), "uuid `x` n'est pas un PeerId valide");
    assert_eq!(stored_config("x".into(), i, 12).updated_at, "12");
    let body = SetStateInput { state: "relay".into() };
    assert_eq!(
        node_state_request("x", true, &body, Some("t")).unwrap(),
        ("/api/v1/private/nodes/x/state".to_string(), "t")
    );
    assert!(node_state_request("x", false, &body, Some("t")).is_err());
    let listen = nux_core::Multiaddr::parse("/ip4/1.2.3.4/tcp/5").unwrap();
    let config = Config::from_parts(environment(), Ok(listen.clone())).ok().unwrap();
    assert_eq!(config.listen, listen);
    assert_eq!(
        Config::from_parts(environment(), Err("x".into())).err(),
        Some("NUX_GW_LISTEN invalide: x".to_string())
    );
    let client = generate().peer_id();
    assert_eq!(
        roles_for_peers(None, &vec![None, Some(client.clone())]),
        vec![(client.clone(), vec![ROLE_CLIENT.to_string()])]
    );
    assert_eq!(
        roles_for_peers(Some(client.clone()), &vec![None]),
        vec![(client, vec![ROLE_GUARD.to_string(), ROLE_CLIENT.to_string()])]
    );
}

#[test]
fn gateway_and_guard_accept_the_same_configurations() {
    let raw = |i: &ConfigNodeGuardInput| RawConfig {
        listen: default_listen(),
        rate_limit: RawRateLimit {
            max: i.rate_limit.max,
            window_secs: i.rate_limit.window_secs,
            exempt: vec![RawExempt {
                text: "10.0.0.1".into(),
                parsed: Ok(nux_core::addr::IpAddr::V4(0x0A00_0001)),
            }],
        },
        allow: i
            .allow
            .iter()
            .map(|e| RawAllow { peer: e.peer.clone(), roles: e.roles.clone() })
            .collect(),
        expose: vec![],
        checksum_bin: i
            .check_sum
            .iter()
            .map(|e| RawChecksumBin { peer: e.peer.clone(), sha256: e.sha256.clone() })
            .collect(),
        relay: None,
        namespace: None,
    };
    let valid = input();
    let (mut window, mut peer, mut sum) = (input(), input(), input());
    window.rate_limit.window_secs = 0;
    peer.allow[0].peer = "x".into();
    sum.check_sum[0].sha256 = "00".into();
    for (i, accepted) in [(valid, true), (window, false), (peer, false), (sum, false)] {
        assert_eq!(validate_input(&i, &vec![true]).is_ok(), accepted);
        assert_eq!(resolve(&raw(&i)).is_ok(), accepted);
    }
}

fn row(guard: &str, allowed: &[&str]) -> ConfigNodeGuard {
    ConfigNodeGuard {
        uuid: guard.into(),
        rate_limit: RateLimit { max: 1, window_secs: 1, exempt: vec![] },
        allow: allowed.iter().map(|p| Allow { peer: p.to_string(), roles: vec![] }).collect(),
        check_sum: vec![],
        updated_at: "0".into(),
    }
}

#[test]
fn pushed_configuration_has_the_effect_of_a_restart() {
    let text = || generate().peer_id().to_base58();
    let (g1, g2, client) = (text(), text(), text());
    let first = row(&g1, &[&client]);
    let second = row(&g2, &[&g1, &g2]);
    let stored = vec![first.clone(), second.clone()];
    let mut live = rebuild_whitelist(&vec![first]);
    for (peer, roles) in roles_to_push(&second, &stored) {
        live.allow(peer, roles);
    }
    let restarted = rebuild_whitelist(&stored);
    let both = vec![ROLE_GUARD.to_string(), ROLE_CLIENT.to_string()];
    for (peer, roles) in [
        (&g1, both.clone()),
        (&g2, both.clone()),
        (&client, vec![ROLE_CLIENT.to_string()]),
    ] {
        let peer = nux_core::PeerId::parse(peer).unwrap();
        assert_eq!(live.roles(&peer), Some(roles.clone()));
        assert_eq!(restarted.roles(&peer), Some(roles));
    }
    assert_eq!(live.len(), 3);
    assert_eq!(restarted.len(), 3);
}

#[test]
fn guard_keeps_its_role_wherever_it_is_listed() {
    let text = || generate().peer_id().to_base58();
    let (g1, g2) = (text(), text());
    let guard = nux_core::PeerId::parse(&g1).unwrap();
    let both = vec![ROLE_GUARD.to_string(), ROLE_CLIENT.to_string()];
    // By its own row, by a later one, by an earlier one.
    for rows in [
        vec![row(&g1, &[&g1])],
        vec![row(&g1, &[]), row(&g2, &[&g1])],
        vec![row(&g2, &[&g1]), row(&g1, &[])],
    ] {
        assert_eq!(rebuild_whitelist(&rows).roles(&guard), Some(both.clone()));
    }
    // Its own row lists its role first, then what each authorised peer gets.
    assert_eq!(
        roles_for_config(&row(&g1, &[&g1])),
        vec![(guard.clone(), both.clone()), (guard, vec![ROLE_CLIENT.to_string()])]
    );
}

#[test]
fn replaced_configuration_lets_in_whom_a_restart_would() {
    let text = || generate().peer_id().to_base58();
    let (g, old, new) = (text(), text(), text());
    let after = row(&g, &[&new]);
    let mut live = rebuild_whitelist(&vec![row(&g, &[&old])]);
    let stored = vec![after.clone()];
    for (peer, roles) in roles_to_push(&after, &stored) {
        live.allow(peer, roles);
    }
    let restarted = rebuild_whitelist(&stored);
    for peer in [&g, &new] {
        let peer = nux_core::PeerId::parse(peer).unwrap();
        assert_eq!(live.roles(&peer), restarted.roles(&peer));
    }
    // The peer that is no longer authorised stays until a restart.
    let gone = nux_core::PeerId::parse(&old).unwrap();
    assert!(live.roles(&gone).is_some());
    assert!(restarted.roles(&gone).is_none());
}
