//! Verified core of Nux-Auth: encrypted and authenticated application tunnels
//! between servers, without a VPN and without a central sign-on server.
//!
//! The library holds every rule of the system as a function on plain values
//! with a contract: the wire format, the challenge-response authentication, the
//! whitelist, the rate limiter, the tunnel registry and its admission rules,
//! the node's event loops as step functions, the configuration rules of the
//! daemons and of the gateway. Sockets, files and clocks live in `app/`.

pub mod addr;
pub mod attestation;
pub mod auth;
pub mod builder;
pub mod bytes;
pub mod cli;
pub mod error;
pub mod fold;
pub mod gateway;
pub mod hardening;
pub mod identity;
pub mod metrics;
pub mod node;
pub mod peer;
pub mod protocol;
pub mod rate_limit;
pub mod relay;
pub mod table;
pub mod text;
pub mod tunnel;

pub use addr::{Multiaddr, Namespace};
pub use auth::{AuthOutcome, GuardAuthenticator, Whitelist};
pub use builder::NuxNodeBuilder;
pub use error::{NuxError, Result};
pub use identity::Keypair;
pub use metrics::Metrics;
pub use node::{GuardControl, NodeMode, NuxNode};
pub use peer::{PeerId, PublicKey};
pub use tunnel::TunnelRegistry;
