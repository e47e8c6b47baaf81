//! Service of one tunnel stream, as a step function: the caller performs the action
//! and hands back what happened.

use vstd::prelude::*;
use crate::addr::SocketAddr;
use crate::peer::PeerId;
use crate::protocol::{HeaderModel, TunnelHeader};
use crate::tunnel::{RegistryModel, TunnelOutcome, TunnelRegistry};

verus! {

/// Where the service of a stream stands.
#[derive(Debug, Clone, Copy, PartialEq, Eq, Structural)]
pub enum ServeState {
    /// The header is awaited, for [`HEADER_TIMEOUT_MS`](crate::tunnel::HEADER_TIMEOUT_MS).
    AwaitingHeader,
    /// The local service is being reached.
    Connecting,
    /// The acknowledgement is being sent.
    Acknowledging,
    /// The bytes are being relayed.
    Relaying,
    /// The stream is closed.
    Closed,
}

/// What happened on a stream.
#[derive(Debug)]
pub enum ServeEvent {
    /// The header arrived.
    HeaderRead(TunnelHeader),
    /// The header is unreadable.
    HeaderUnreadable,
    /// The header did not arrive in time.
    HeaderTimeout,
    /// The local service was reached.
    Connected,
    /// The local service cannot be reached.
    ConnectFailed,
    /// The acknowledgement was sent.
    AckSent,
    /// The peer left before the acknowledgement.
    AckFailed,
    /// The relay ended, with the bytes from the peer and those to it.
    RelayEnded(u64, u64),
    /// The relay was interrupted.
    RelayBroken,
}

/// Content of a [`ServeEvent`].
pub enum ServeEventModel {
    HeaderRead(HeaderModel),
    HeaderUnreadable,
    HeaderTimeout,
    Connected,
    ConnectFailed,
    AckSent,
    AckFailed,
    RelayEnded(u64, u64),
    RelayBroken,
}

/// What to do next.
#[derive(Debug, Clone, Copy, PartialEq, Eq, Structural)]
pub enum ServeAction {
    /// Connect to the local service.
    Connect(SocketAddr),
    /// Send the acknowledgement, the only byte that a Guard ever sends of itself.
    SendAck,
    /// Relay the bytes both ways.
    Relay,
    /// Close the stream without sending anything.
    Finish(TunnelOutcome),
}

impl View for ServeEvent {
    type V = ServeEventModel;

    open spec fn view(&self) -> ServeEventModel {
        match self {
            ServeEvent::HeaderRead(h) => ServeEventModel::HeaderRead(h@),
            ServeEvent::HeaderUnreadable => ServeEventModel::HeaderUnreadable,
            ServeEvent::HeaderTimeout => ServeEventModel::HeaderTimeout,
            ServeEvent::Connected => ServeEventModel::Connected,
            ServeEvent::ConnectFailed => ServeEventModel::ConnectFailed,
            ServeEvent::AckSent => ServeEventModel::AckSent,
            ServeEvent::AckFailed => ServeEventModel::AckFailed,
            ServeEvent::RelayEnded(a, b) => ServeEventModel::RelayEnded(*a, *b),
            ServeEvent::RelayBroken => ServeEventModel::RelayBroken,
        }
    }
}

/// The step of the service of a stream: the next state and the action. An event that
/// does not fit the state closes the stream.
pub open spec fn serve_step(
    state: ServeState,
    registry: RegistryModel,
    peer: Seq<u8>,
    roles: Seq<Seq<char>>,
    event: ServeEventModel,
) -> (ServeState, ServeAction) {
    match (state, event) {
        (ServeState::AwaitingHeader, ServeEventModel::HeaderRead(header)) => match registry.target(
            peer,
            roles,
            header,
        ) {
            Some(target) => (ServeState::Connecting, ServeAction::Connect(target)),
            None => (ServeState::Closed, ServeAction::Finish(TunnelOutcome::Denied)),
        },
        (ServeState::Connecting, ServeEventModel::Connected) => (
            ServeState::Acknowledging,
            ServeAction::SendAck,
        ),
        (ServeState::Acknowledging, ServeEventModel::AckSent) => (
            ServeState::Relaying,
            ServeAction::Relay,
        ),
        (ServeState::Relaying, ServeEventModel::RelayEnded(bytes_from_peer, bytes_to_peer)) => (
            ServeState::Closed,
            ServeAction::Finish(TunnelOutcome::Served { bytes_from_peer, bytes_to_peer }),
        ),
        (ServeState::Relaying, _) => (
            ServeState::Closed,
            ServeAction::Finish(TunnelOutcome::Served { bytes_from_peer: 0, bytes_to_peer: 0 }),
        ),
        _ => (ServeState::Closed, ServeAction::Finish(TunnelOutcome::Denied)),
    }
}

/// Serves an inbound tunnel stream of a peer whose session was checked; `roles` are
/// those of the session when the stream was opened. Any anomaly closes the stream
/// without a byte: dropping it is the refusal. The bytes relayed before an
/// interruption are not known, and count as none.
pub fn serve_stream(
    state: ServeState,
    registry: &TunnelRegistry,
    peer: &PeerId,
    roles: &Vec<String>,
    event: ServeEvent,
) -> (r: (ServeState, ServeAction))
    requires
        registry.wf(),
    ensures
        r == serve_step(state, registry@, peer@, crate::protocol::texts(roles@), event@),
{
    match state {
        ServeState::AwaitingHeader => match event {
            ServeEvent::HeaderRead(header) => match registry.resolve(peer, roles, &header) {
                Some(target) => (ServeState::Connecting, ServeAction::Connect(target)),
                None => (ServeState::Closed, ServeAction::Finish(TunnelOutcome::Denied)),
            },
            _ => (ServeState::Closed, ServeAction::Finish(TunnelOutcome::Denied)),
        },
        ServeState::Connecting => match event {
            ServeEvent::Connected => (ServeState::Acknowledging, ServeAction::SendAck),
            _ => (ServeState::Closed, ServeAction::Finish(TunnelOutcome::Denied)),
        },
        ServeState::Acknowledging => match event {
            ServeEvent::AckSent => (ServeState::Relaying, ServeAction::Relay),
            _ => (ServeState::Closed, ServeAction::Finish(TunnelOutcome::Denied)),
        },
        ServeState::Relaying => {
            let (bytes_from_peer, bytes_to_peer): (u64, u64) = match event {
                ServeEvent::RelayEnded(from_peer, to_peer) => (from_peer, to_peer),
                _ => (0, 0),
            };
            (
                ServeState::Closed,
                ServeAction::Finish(TunnelOutcome::Served { bytes_from_peer, bytes_to_peer }),
            )
        },
        ServeState::Closed => (ServeState::Closed, ServeAction::Finish(TunnelOutcome::Denied)),
    }
}

/// The state after events, from the opening of the stream.
pub open spec fn state_after(
    registry: RegistryModel,
    peer: Seq<u8>,
    roles: Seq<Seq<char>>,
    events: Seq<ServeEventModel>,
) -> ServeState
    decreases events.len(),
{
    if events.len() == 0 {
        ServeState::AwaitingHeader
    } else {
        serve_step(
            state_after(registry, peer, roles, events.drop_last()),
            registry,
            peer,
            roles,
            events.last(),
        ).0
    }
}

/// Whether the events start with a header that the registry admits for that peer and
/// these roles, and the service it names was then reached.
pub open spec fn authorised(
    registry: RegistryModel,
    peer: Seq<u8>,
    roles: Seq<Seq<char>>,
    events: Seq<ServeEventModel>,
) -> bool {
    &&& events.len() >= 1
    &&& events[0] matches ServeEventModel::HeaderRead(header) && registry.target(
        peer,
        roles,
        header,
    ) is Some
}

proof fn lemma_states(
    registry: RegistryModel,
    peer: Seq<u8>,
    roles: Seq<Seq<char>>,
    events: Seq<ServeEventModel>,
)
    ensures
        ({
            let s = state_after(registry, peer, roles, events);
            &&& s == ServeState::AwaitingHeader <==> events.len() == 0
            &&& s == ServeState::Connecting ==> events.len() == 1 && authorised(
                registry,
                peer,
                roles,
                events,
            )
            &&& s == ServeState::Acknowledging ==> events.len() == 2 && authorised(
                registry,
                peer,
                roles,
                events,
            ) && events[1] is Connected
            &&& s == ServeState::Relaying ==> events.len() == 3 && authorised(
                registry,
                peer,
                roles,
                events,
            ) && events[1] is Connected && events[2] is AckSent
        }),
    decreases events.len(),
{
    if events.len() > 0 {
        let front = events.drop_last();
        lemma_states(registry, peer, roles, front);
        if front.len() > 0 {
            assert(front[0] == events[0]);
        }
        if front.len() > 1 {
            assert(front[1] == events[1]);
        }
    }
}

/// Radio silence: whatever happens on a stream, the acknowledgement is sent only
/// after a header that the registry admits, and only once the local service was
/// reached. A stream that is refused gets not a byte.
pub proof fn refusal_is_silent(
    registry: RegistryModel,
    peer: Seq<u8>,
    roles: Seq<Seq<char>>,
    events: Seq<ServeEventModel>,
    event: ServeEventModel,
)
    requires
        serve_step(state_after(registry, peer, roles, events), registry, peer, roles, event).1
            == ServeAction::SendAck,
    ensures
        authorised(registry, peer, roles, events),
        event is Connected,
{
    lemma_states(registry, peer, roles, events);
}

/// Bytes are relayed only on a stream that was admitted and acknowledged.
pub proof fn relay_needs_admission(
    registry: RegistryModel,
    peer: Seq<u8>,
    roles: Seq<Seq<char>>,
    events: Seq<ServeEventModel>,
    event: ServeEventModel,
)
    requires
        serve_step(state_after(registry, peer, roles, events), registry, peer, roles, event).1
            == ServeAction::Relay,
    ensures
        authorised(registry, peer, roles, events),
        events.len() == 2,
        events[1] is Connected,
        event is AckSent,
{
    lemma_states(registry, peer, roles, events);
}

/// A closed stream stays closed.
pub proof fn closed_stream_stays_closed(
    registry: RegistryModel,
    peer: Seq<u8>,
    roles: Seq<Seq<char>>,
    event: ServeEventModel,
)
    ensures
        serve_step(ServeState::Closed, registry, peer, roles, event) == (
            ServeState::Closed,
            ServeAction::Finish(TunnelOutcome::Denied),
        ),
{
}

/// A service that is not exposed, a role that the session lacks and a fingerprint
/// that differs from the expected one are refused alike.
pub proof fn every_refusal_looks_the_same(
    registry: RegistryModel,
    peer: Seq<u8>,
    roles: Seq<Seq<char>>,
    header: HeaderModel,
)
    requires
        !registry.services.contains_key(header.service) || !crate::tunnel::role_ok(
            roles,
            registry.services[header.service].1,
        ) || (registry.attested.contains_key(peer) && registry.attested[peer]
            != header.binary_sha256),
    ensures
        serve_step(
            ServeState::AwaitingHeader,
            registry,
            peer,
            roles,
            ServeEventModel::HeaderRead(header),
        ) == serve_step(
            ServeState::AwaitingHeader,
            registry,
            peer,
            roles,
            ServeEventModel::HeaderUnreadable,
        ),
{
}

} // verus!
