//! Node of Nux: its rules as step functions. The caller drives the network, hands
//! over each event and performs the actions that come back.

pub mod guard;
pub mod handshake;
pub mod laws;
pub mod session;
pub mod wait;

pub use guard::{DrainCheck, GuardAction, NuxNode, StreamAction};
pub use handshake::{Handshake, HandshakeAction};
pub use session::{Backoff, SessionAction};
pub use wait::Discovery;

use vstd::prelude::*;
use crate::addr::Multiaddr;
use crate::auth::Whitelist;
use crate::peer::PeerId;
use crate::protocol::{NuxRequest, NuxResponse};

verus! {

/// Role of a node in the topology.
#[derive(Debug, Clone, Copy, PartialEq, Eq, Structural)]
pub enum NodeMode {
    /// On the side of the application: intercepts a local port and opens tunnels.
    Client,
    /// On the side of the resource: holds the whitelist and injects the bytes into
    /// the local service. Sends nothing to peers that are not authenticated.
    Guard,
}

/// Command that changes a Guard while it runs.
pub enum GuardControl {
    /// Strikes a peer off: it leaves the whitelist, its session ends, and its connection is
    /// closed, with the tunnels it carries.
    Revoke(PeerId),
    /// Authorises a peer, or changes its roles.
    Allow {
        /// The peer.
        peer: PeerId,
        /// Its roles.
        roles: Vec<String>,
    },
    /// Replaces the whitelist. A peer with a session that is not in the new list is
    /// struck off and disconnected at once; one whose roles change keeps its
    /// connection.
    ReloadWhitelist(Whitelist),
    /// Asks for a graceful stop: new authentications and new tunnels are refused in
    /// silence, and the tunnels in progress have until the end of the grace period.
    Shutdown {
        /// Grace period, in nanoseconds.
        grace_period: u128,
    },
}

/// Peer found at a rendezvous point, with its addresses.
#[derive(Debug)]
pub struct Registration {
    /// The peer.
    pub peer: PeerId,
    /// Its addresses.
    pub addresses: Vec<Multiaddr>,
}

/// Event of the network, as far as the rules look at it.
#[derive(Debug)]
pub enum NodeEvent {
    /// The node listens on an address.
    NewListenAddr(Multiaddr),
    /// A connection was established.
    ConnectionEstablished(PeerId),
    /// A connection was closed; the peer has that many others.
    ConnectionClosed(PeerId, u32),
    /// An outgoing connection failed, to a peer if it is known, with the text of the
    /// error.
    OutgoingConnectionError(Option<PeerId>, String),
    /// A request of a peer arrived.
    AuthRequest(PeerId, NuxRequest),
    /// The answer of a peer to the request with that number arrived.
    AuthResponse(PeerId, u64, NuxResponse),
    /// The request with that number got no answer.
    AuthFailure(PeerId, u64),
    /// A relay accepted the reservation of a circuit.
    ReservationAccepted(PeerId),
    /// A rendezvous point registered this node under a namespace.
    Registered(PeerId, String),
    /// A rendezvous point refused to register this node under a namespace, with the
    /// text of the refusal.
    RegisterFailed(PeerId, String, String),
    /// A rendezvous point gave the peers of a namespace.
    Discovered(PeerId, Vec<Registration>),
    /// A discovery failed, with the text of the error.
    DiscoverFailed(PeerId, String),
    /// Any other event.
    Other,
}

} // verus!
