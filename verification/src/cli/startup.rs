//! Start of the daemon: what a Guard serves, where a Client dials, and the way to a relay.

use vstd::prelude::*;
use vstd::string::StringExecFns;
use crate::addr::{target_peer_id, Multiaddr, Namespace, SocketAddr, LOCALHOST};
use crate::builder::NuxNodeBuilder;
use crate::cli::args::{builder, DialTarget};
use crate::cli::guard_config::GuardConfig;
use crate::error::{NuxError, Result};
use crate::node::NodeMode;
use crate::peer::PeerId;
use crate::tunnel::TunnelRegistry;

verus! {

/// How long a relay has to accept a connection, and then a reservation, in milliseconds.
pub const RELAY_TIMEOUT_MS: u64 = 10_000;

/// How many commands wait for the loop of a Guard at most.
pub const CONTROL_CAPACITY: usize = 8;

/// The services of a configuration, each on its local port.
pub open spec fn exposed(services: Seq<(Seq<char>, u16, Option<Seq<char>>)>) -> Map<
    Seq<char>,
    (SocketAddr, Option<Seq<char>>),
>
    decreases services.len(),
{
    if services.len() == 0 {
        Map::empty()
    } else {
        let (name, port, role) = services.last();
        exposed(services.drop_last()).insert(name, (SocketAddr::V4(LOCALHOST, port), role))
    }
}

/// The fingerprints expected by a configuration. The last one of a peer counts.
pub open spec fn attested(sums: Seq<(Seq<u8>, Seq<u8>)>) -> Map<Seq<u8>, Seq<u8>>
    decreases sums.len(),
{
    if sums.len() == 0 {
        Map::empty()
    } else {
        attested(sums.drop_last()).insert(sums.last().0, sums.last().1)
    }
}

fn clone_role(role: &Option<String>) -> (r: Option<String>)
    ensures
        crate::text::opt_text(r) == crate::text::opt_text(*role),
{
    match role {
        Some(name) => Some(name.clone()),
        None => None,
    }
}

/// The services and the expected fingerprints of a Guard.
pub fn guard_registry(config: &GuardConfig) -> (r: TunnelRegistry)
    ensures
        r.wf(),
        r@ == (crate::tunnel::RegistryModel {
            services: exposed(config@.expose),
            max_streams_per_peer: crate::tunnel::DEFAULT_MAX_STREAMS_PER_PEER,
            max_streams_total: crate::tunnel::DEFAULT_MAX_STREAMS_TOTAL,
            attested: attested(config@.checksum_bin),
        }),
{
    let mut registry = TunnelRegistry::new();
    let ghost services = config@.expose;
    let ghost sums = config@.checksum_bin;
    let ghost start = registry@;
    let mut i: usize = 0;
    while i < config.expose.len()
        invariant
            i <= config.expose@.len(),
            services == crate::cli::guard_config::expose_models(config.expose@),
            registry.wf(),
            registry@ == (crate::tunnel::RegistryModel {
                services: exposed(services.take(i as int)),
                ..start
            }),
        decreases config.expose@.len() - i,
    {
        assert(services.take(i + 1).drop_last() =~= services.take(i as int));
        assert(services.take(i + 1).last() == services[i as int]);
        let name = config.expose[i].0.clone();
        let port: u16 = config.expose[i].1;
        let role = clone_role(&config.expose[i].2);
        registry.expose(name, SocketAddr::V4(LOCALHOST, port), role);
        i += 1;
    }
    assert(services.take(services.len() as int) =~= services);
    let mut j: usize = 0;
    while j < config.checksum_bin.len()
        invariant
            j <= config.checksum_bin@.len(),
            sums == crate::cli::guard_config::checksum_models(config.checksum_bin@),
            start.attested == Map::<Seq<u8>, Seq<u8>>::empty(),
            registry.wf(),
            registry@ == (crate::tunnel::RegistryModel {
                services: exposed(services),
                attested: attested(sums.take(j as int)),
                ..start
            }),
        decreases config.checksum_bin@.len() - j,
    {
        assert(sums.take(j + 1).drop_last() =~= sums.take(j as int));
        assert(sums.take(j + 1).last() == sums[j as int]);
        let peer = config.checksum_bin[j].0.clone();
        registry.require_binary_sha256(peer, config.checksum_bin[j].1);
        j += 1;
    }
    assert(sums.take(sums.len() as int) =~= sums);
    registry
}

/// The settings of the node of a Guard: its address and its rate limit come from the
/// configuration, its identity does not.
pub fn guard_builder(config: &GuardConfig, identity: Option<String>, env_is_set: bool) -> (r:
    NuxNodeBuilder)
    ensures
        r.settings() == (crate::builder::BuilderModel {
            mode: NodeMode::Guard,
            identity: match identity {
                Some(path) => crate::builder::IdentityModel::File(path@),
                None => if env_is_set {
                    crate::builder::IdentityModel::Env("NUX_IDENTITY_KEY"@)
                } else {
                    crate::builder::IdentityModel::Ephemeral
                },
            },
            listen_addrs: seq![config@.listen],
            idle_timeout_ms: crate::cli::args::DAEMON_IDLE_TIMEOUT_MS,
            rate_limit_max: config@.rate_limit_max,
            rate_limit_window: config@.rate_limit_window,
            rate_limit_exempt: config@.rate_limit_exempt,
            ..crate::builder::default_settings()
        }),
{
    let mut b = builder(NodeMode::Guard, identity, env_is_set).listen_on(
        config.listen.clone(),
    ).inbound_rate_limit(config.rate_limit_max, config.rate_limit_window);
    let ghost start = b.settings();
    assert(start.listen_addrs =~= seq![config@.listen]);
    assert(config.rate_limit_exempt@.take(0) =~= start.rate_limit_exempt);
    let mut i: usize = 0;
    while i < config.rate_limit_exempt.len()
        invariant
            i <= config.rate_limit_exempt@.len(),
            b.settings() == (crate::builder::BuilderModel {
                rate_limit_exempt: config.rate_limit_exempt@.take(i as int),
                ..start
            }),
        decreases config.rate_limit_exempt@.len() - i,
    {
        assert(config.rate_limit_exempt@.take(i + 1) =~= config.rate_limit_exempt@.take(
            i as int,
        ).push(config.rate_limit_exempt@[i as int]));
        b = b.rate_limit_exempt(config.rate_limit_exempt[i]);
        i += 1;
    }
    assert(config.rate_limit_exempt@.take(config.rate_limit_exempt@.len() as int)
        =~= config.rate_limit_exempt@);
    b
}

/// How a Client reaches its Guard.
#[derive(Debug)]
pub enum DialPlan {
    /// Dial the address, then wait for its target: the first connection through a
    /// circuit is to the relay.
    Target(Multiaddr, PeerId),
    /// Dial the address, then take the peer of the first connection.
    First(Multiaddr),
    /// Dial the rendezvous point, wait for it, and discover the namespace there.
    Discover(Multiaddr, PeerId, Namespace),
}

/// The address of the target of a dial.
pub open spec fn dialled(target: DialTarget) -> Seq<u8> {
    match target {
        DialTarget::Address(addr) => addr@,
        DialTarget::Discover { namespace, rendezvous } => rendezvous@,
    }
}

/// Whether a plan is the one for the target of a dial whose address ends in a peer, if it
/// does.
pub open spec fn plan_for(target: DialTarget, peer: Option<Seq<u8>>, r: Result<DialPlan>) -> bool {
    match target {
        DialTarget::Address(addr) => match peer {
            Some(peer) => r matches Ok(DialPlan::Target(a, p)) && a == addr && p@ == peer,
            None => r matches Ok(DialPlan::First(a)) && a == addr,
        },
        DialTarget::Discover { namespace, rendezvous } => match peer {
            None => r matches Err(NuxError::Config(m)) && m@
                == "adresse de rendezvous invalide: doit inclure /p2p/<peer_id>"@,
            Some(peer) => if crate::addr::is_namespace(namespace@) {
                r matches Ok(DialPlan::Discover(a, p, n)) && a == rendezvous && p@ == peer && n@
                    == namespace@
            } else {
                r matches Err(NuxError::Config(m)) && m@ == "namespace `"@ + namespace@
                    + "` invalide: trop long"@
            },
        },
    }
}

/// Plans the way of a Client to its Guard, `peer` being the one that the address ends in.
pub fn plan_dial(target: DialTarget, peer: Option<PeerId>) -> (r: Result<DialPlan>)
    ensures
        plan_for(
            target,
            match peer {
                Some(p) => Some(p@),
                None => None,
            },
            r,
        ),
{
    match target {
        DialTarget::Address(addr) => match peer {
            Some(peer) => Ok(DialPlan::Target(addr, peer)),
            None => Ok(DialPlan::First(addr)),
        },
        DialTarget::Discover { namespace, rendezvous } => {
            let peer = match peer {
                Some(peer) => peer,
                None => {
                    return Err(
                        NuxError::Config(
                            "adresse de rendezvous invalide: doit inclure /p2p/<peer_id>".to_owned(),
                        ),
                    );
                },
            };
            match Namespace::new(namespace.as_str()) {
                Some(n) => Ok(DialPlan::Discover(rendezvous, peer, n)),
                None => {
                    let mut message = "namespace `".to_owned();
                    message.append(namespace.as_str());
                    message.append("` invalide: trop long");
                    Err(NuxError::Config(message))
                },
            }
        },
    }
}

/// Plans the way of a Client to its Guard.
pub fn dial_plan(target: DialTarget) -> (r: Result<DialPlan>)
    ensures
        plan_for(
            target,
            crate::addr::last_peer(crate::addr::multiaddr_components(dialled(target))->0),
            r,
        ),
{
    let peer = match &target {
        DialTarget::Address(addr) => target_peer_id(addr),
        DialTarget::Discover { namespace, rendezvous } => target_peer_id(rendezvous),
    };
    plan_dial(target, peer)
}

/// Where a Guard stands on its way to a relay.
#[derive(Debug, Clone, Copy, PartialEq, Eq, Structural)]
pub enum RelayPhase {
    /// The connection to the relay is awaited.
    Connecting,
    /// The confirmation of the reservation is awaited.
    Reserving,
    /// The answer to the registration is awaited.
    Registering,
    /// The Guard serves, with or without the relay.
    Serving,
}

/// What came of a step on the way to a relay.
#[derive(Debug, Clone, Copy, PartialEq, Eq, Structural)]
pub enum RelayStep {
    /// It succeeded.
    Done,
    /// It was refused, failed or took too long.
    Failed,
}

/// What a Guard does next on its way to a relay.
#[derive(Debug, Clone, Copy, PartialEq, Eq, Structural)]
pub enum RelayAction {
    /// Listen through the relay, and wait for the confirmation of the reservation.
    Reserve,
    /// Register the namespace at the rendezvous point.
    Register,
    /// Serve.
    Serve,
}

/// The way of a Guard to its relay. A namespace is registered only once the reservation
/// is confirmed, and no failure keeps the Guard from serving on its own addresses.
pub fn relay_setup(phase: RelayPhase, has_namespace: bool, step: RelayStep) -> (r: (
    RelayPhase,
    RelayAction,
))
    ensures
        r == relay_next(phase, has_namespace, step),
{
    match (phase, step) {
        (RelayPhase::Connecting, RelayStep::Done) => (RelayPhase::Reserving, RelayAction::Reserve),
        (RelayPhase::Reserving, RelayStep::Done) => {
            if has_namespace {
                (RelayPhase::Registering, RelayAction::Register)
            } else {
                (RelayPhase::Serving, RelayAction::Serve)
            }
        },
        _ => (RelayPhase::Serving, RelayAction::Serve),
    }
}

/// The next phase on the way to a relay, with what to do.
pub open spec fn relay_next(phase: RelayPhase, has_namespace: bool, step: RelayStep) -> (
    RelayPhase,
    RelayAction,
) {
    if phase == RelayPhase::Connecting && step == RelayStep::Done {
        (RelayPhase::Reserving, RelayAction::Reserve)
    } else if phase == RelayPhase::Reserving && step == RelayStep::Done && has_namespace {
        (RelayPhase::Registering, RelayAction::Register)
    } else {
        (RelayPhase::Serving, RelayAction::Serve)
    }
}

/// The phase after steps, from the dial of the relay on.
pub open spec fn relay_phase(has_namespace: bool, steps: Seq<RelayStep>) -> RelayPhase
    decreases steps.len(),
{
    if steps.len() == 0 {
        RelayPhase::Connecting
    } else {
        relay_next(relay_phase(has_namespace, steps.drop_last()), has_namespace, steps.last()).0
    }
}

/// However the steps on the way to a relay go, the Guard serves after the third at the
/// latest, and at once after one that failed.
pub proof fn relay_never_keeps_a_guard_from_serving(has_namespace: bool, steps: Seq<RelayStep>)
    requires
        steps.len() >= 3 || (steps.len() > 0 && steps.last() == RelayStep::Failed),
    ensures
        relay_phase(has_namespace, steps) == RelayPhase::Serving,
    decreases steps.len(),
{
    if steps.len() >= 3 {
        reveal_with_fuel(relay_phase, 4);
        if steps.len() > 3 {
            relay_never_keeps_a_guard_from_serving(has_namespace, steps.drop_last());
        }
    }
}

/// A namespace is registered only where the relay was reached and the reservation was
/// confirmed.
pub proof fn registration_needs_a_reservation(has_namespace: bool, steps: Seq<RelayStep>)
    requires
        relay_phase(has_namespace, steps) == RelayPhase::Registering,
    ensures
        has_namespace,
        steps == seq![RelayStep::Done, RelayStep::Done],
{
    reveal_with_fuel(relay_phase, 4);
    if steps.len() >= 3 {
        relay_never_keeps_a_guard_from_serving(has_namespace, steps);
    }
    assert(steps.len() == 2);
    assert(steps =~= seq![RelayStep::Done, RelayStep::Done]);
}

/// A Guard serves what its configuration exposes: the service of each entry, if no later one has
/// its name, is at the port of that entry on the local machine, under its required role.
pub proof fn exposed_service_is_that_of_its_entry(
    services: Seq<(Seq<char>, u16, Option<Seq<char>>)>,
    i: int,
)
    requires
        0 <= i < services.len(),
        forall|j: int| i < j < services.len() ==> (#[trigger] services[j]).0 != services[i].0,
    ensures
        exposed(services).contains_key(services[i].0),
        exposed(services)[services[i].0] == (SocketAddr::V4(0x7f00_0001, services[i].1), services[i].2),
    decreases services.len(),
{
    let n = services.len() - 1;
    if i < n {
        let front = services.drop_last();
        assert(services[n].0 != services[i].0);
        assert forall|j: int| i < j < front.len() implies (#[trigger] front[j]).0
            != front[i].0 by {
            assert(services[j].0 != services[i].0);
        }
        exposed_service_is_that_of_its_entry(front, i);
        assert(front[i] == services[i]);
    }
}

/// A Guard serves nothing that its configuration does not expose.
pub proof fn nothing_else_is_exposed(
    services: Seq<(Seq<char>, u16, Option<Seq<char>>)>,
    name: Seq<char>,
)
    requires
        forall|i: int| 0 <= i < services.len() ==> (#[trigger] services[i]).0 != name,
    ensures
        !exposed(services).contains_key(name),
    decreases services.len(),
{
    if services.len() > 0 {
        let front = services.drop_last();
        assert forall|i: int| 0 <= i < front.len() implies (#[trigger] front[i]).0 != name by {
            assert(services[i].0 != name);
        }
        nothing_else_is_exposed(front, name);
        assert(services[services.len() - 1].0 != name);
    }
}

/// A Guard expects of a peer the last fingerprint that its configuration gives for it.
pub proof fn expected_fingerprint_is_the_last_of_the_peer(
    sums: Seq<(Seq<u8>, Seq<u8>)>,
    i: int,
)
    requires
        0 <= i < sums.len(),
        forall|j: int| i < j < sums.len() ==> (#[trigger] sums[j]).0 != sums[i].0,
    ensures
        attested(sums).contains_key(sums[i].0),
        attested(sums)[sums[i].0] == sums[i].1,
    decreases sums.len(),
{
    let n = sums.len() - 1;
    if i < n {
        let front = sums.drop_last();
        assert(sums[n].0 != sums[i].0);
        assert forall|j: int| i < j < front.len() implies (#[trigger] front[j]).0
            != front[i].0 by {
            assert(sums[j].0 != sums[i].0);
        }
        expected_fingerprint_is_the_last_of_the_peer(front, i);
        assert(front[i] == sums[i]);
    }
}

/// A Guard expects no fingerprint of a peer for which its configuration gives none.
pub proof fn no_other_fingerprint_is_expected(
    sums: Seq<(Seq<u8>, Seq<u8>)>,
    peer: Seq<u8>,
)
    requires
        forall|i: int| 0 <= i < sums.len() ==> (#[trigger] sums[i]).0 != peer,
    ensures
        !attested(sums).contains_key(peer),
    decreases sums.len(),
{
    if sums.len() > 0 {
        let front = sums.drop_last();
        assert forall|i: int| 0 <= i < front.len() implies (#[trigger] front[i]).0 != peer by {
            assert(sums[i].0 != peer);
        }
        no_other_fingerprint_is_expected(front, peer);
        assert(sums[sums.len() - 1].0 != peer);
    }
}

/// A Client dials the address it was given, and waits there for the peer that the address ends
/// in, or for the first one if it ends in none; a discovery needs the peer of the rendezvous
/// point and a namespace of at most 255 bytes.
pub proof fn plan_leads_to_the_target(target: DialTarget, peer: Option<Seq<u8>>, r: Result<DialPlan>)
    requires
        plan_for(target, peer, r),
    ensures
        match target {
            DialTarget::Address(addr) => r is Ok && dialled(target) == addr@ && (peer is Some
                <==> r->Ok_0 is Target) && (peer is None <==> r->Ok_0 is First),
            DialTarget::Discover { namespace, rendezvous } => dialled(target) == rendezvous@ && (
            r is Ok <==> peer is Some && vstd::utf8::encode_utf8(namespace@).len() <= 255),
        },
        r matches Ok(DialPlan::Target(addr, p)) ==> addr@ == dialled(target) && Some(p@) == peer,
        r matches Ok(DialPlan::First(addr)) ==> addr@ == dialled(target) && peer is None,
        r matches Ok(DialPlan::Discover(addr, p, name)) ==> addr@ == dialled(target) && Some(p@)
            == peer && (target matches DialTarget::Discover { namespace, .. } && name@
            == namespace@),
        r matches Err(e) ==> e is Config,
{
}

/// The way to a relay is gone step by step: a connection leads to the reservation, a reservation
/// to the registration of the namespace if there is one, and in the end the Guard serves.
pub proof fn relay_is_reached_step_by_step(has_namespace: bool)
    ensures
        relay_next(RelayPhase::Connecting, has_namespace, RelayStep::Done) == (
            RelayPhase::Reserving,
            RelayAction::Reserve,
        ),
        relay_next(RelayPhase::Reserving, true, RelayStep::Done) == (
            RelayPhase::Registering,
            RelayAction::Register,
        ),
        relay_next(RelayPhase::Reserving, false, RelayStep::Done) == (
            RelayPhase::Serving,
            RelayAction::Serve,
        ),
        forall|step: RelayStep| #[trigger]
            relay_next(RelayPhase::Registering, has_namespace, step) == (
                RelayPhase::Serving,
                RelayAction::Serve,
            ),
        forall|phase: RelayPhase| #[trigger]
            relay_next(phase, has_namespace, RelayStep::Failed) == (
                RelayPhase::Serving,
                RelayAction::Serve,
            ),
{
}

} // verus!
