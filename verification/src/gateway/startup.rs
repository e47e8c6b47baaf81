//! Start of the gateway: its node and the services it exposes.

use vstd::prelude::*;
use crate::addr::{SocketAddr, LOCALHOST};
use crate::builder::NuxNodeBuilder;
use crate::gateway::config::Config;
use crate::node::NodeMode;
use crate::tunnel::TunnelRegistry;

verus! {

/// How many commands wait for the loop of the node at most.
pub const CONTROL_CAPACITY: usize = 64;

/// The services of the gateway: one local port for the Guards, one for the Clients, each
/// under its role.
pub open spec fn gateway_services(guard_port: u16, client_port: u16) -> Map<
    Seq<char>,
    (SocketAddr, Option<Seq<char>>),
> {
    Map::empty().insert(
        "gwapi-guard"@,
        (SocketAddr::V4(LOCALHOST, guard_port), Some("gw-guard"@)),
    ).insert("gwapi-client"@, (SocketAddr::V4(LOCALHOST, client_port), Some("gw-client"@)))
}

/// The registry of the gateway.
pub fn gateway_registry(config: &Config) -> (r: TunnelRegistry)
    ensures
        r.wf(),
        r@ == (crate::tunnel::RegistryModel {
            services: gateway_services(config.guard_port, config.client_port),
            max_streams_per_peer: crate::tunnel::DEFAULT_MAX_STREAMS_PER_PEER,
            max_streams_total: crate::tunnel::DEFAULT_MAX_STREAMS_TOTAL,
            attested: Map::empty(),
        }),
{
    let mut registry = TunnelRegistry::new();
    registry.expose(
        "gwapi-guard".to_owned(),
        SocketAddr::V4(LOCALHOST, config.guard_port),
        Some("gw-guard".to_owned()),
    );
    registry.expose(
        "gwapi-client".to_owned(),
        SocketAddr::V4(LOCALHOST, config.client_port),
        Some("gw-client".to_owned()),
    );
    registry
}

/// The settings of the node of the gateway: a Guard whose identity comes from the key
/// file, or from the environment without one.
pub fn gateway_builder(config: &Config) -> (r: NuxNodeBuilder)
    ensures
        r.settings() == (crate::builder::BuilderModel {
            mode: NodeMode::Guard,
            identity: match config@.identity_file {
                Some(path) => crate::builder::IdentityModel::File(path),
                None => crate::builder::IdentityModel::Env("NUX_IDENTITY_KEY"@),
            },
            listen_addrs: seq![config@.listen],
            ..crate::builder::default_settings()
        }),
{
    let b = NuxNodeBuilder::new().mode(NodeMode::Guard).listen_on(config.listen.clone());
    assert(b.settings().listen_addrs =~= seq![config@.listen]);
    match &config.identity_file {
        Some(path) => b.identity_file(path.clone()),
        None => b.identity_env("NUX_IDENTITY_KEY".to_owned()),
    }
}

/// A peer that a Guard authorises, with the role of the Clients only, never reaches the
/// service of the Guards; whoever holds a role of the gateway reaches its service.
pub proof fn clients_do_not_reach_the_service_of_the_guards(
    registry: crate::tunnel::RegistryModel,
    guard_port: u16,
    client_port: u16,
    peer: Seq<u8>,
    header: crate::protocol::HeaderModel,
)
    requires
        registry.services == gateway_services(guard_port, client_port),
        registry.attested == Map::<Seq<u8>, Seq<u8>>::empty(),
    ensures
        registry.target(peer, crate::gateway::roles::client_roles(), header) == if header.service
            == "gwapi-client"@ {
            Some(SocketAddr::V4(LOCALHOST, client_port))
        } else {
            None
        },
        registry.target(peer, crate::gateway::roles::guard_roles(), header) == if header.service
            == "gwapi-client"@ {
            Some(SocketAddr::V4(LOCALHOST, client_port))
        } else if header.service == "gwapi-guard"@ {
            Some(SocketAddr::V4(LOCALHOST, guard_port))
        } else {
            None
        },
{
    reveal_strlit("gwapi-guard");
    reveal_strlit("gwapi-client");
    reveal_strlit("gw-guard");
    reveal_strlit("gw-client");
    assert("gwapi-guard"@.len() != "gwapi-client"@.len());
    assert("gw-guard"@.len() != "gw-client"@.len());
    let client = crate::gateway::roles::client_roles();
    let guard = crate::gateway::roles::guard_roles();
    assert(client[0] == "gw-client"@);
    assert(guard[0] == "gw-guard"@);
    assert(guard[1] == "gw-client"@);
    assert(!client.contains("gw-guard"@));
    assert(client.contains("gw-client"@));
    assert(guard.contains("gw-guard"@));
    assert(guard.contains("gw-client"@));
}

} // verus!
