//! Configurations that the gateway keeps for the Guards.

use vstd::prelude::*;

verus! {

/// Rate limit of a configuration.
#[derive(Debug, Clone, PartialEq)]
pub struct RateLimit {
    /// Connections per address and per window.
    pub max: u32,
    /// Window, in seconds.
    pub window_secs: u64,
    /// Exempt addresses.
    pub exempt: Vec<String>,
}

/// Authorised peer of a configuration.
#[derive(Debug, Clone, PartialEq)]
pub struct Allow {
    /// Peer id.
    pub peer: String,
    /// Roles.
    pub roles: Vec<String>,
}

/// Expected fingerprint of a configuration.
#[derive(Debug, Clone, PartialEq)]
pub struct CheckSum {
    /// Peer id.
    pub peer: String,
    /// Fingerprint in hexadecimal.
    pub sha256: String,
}

/// Configuration as the dashboard pushes it: without the peer id, which the path of the
/// request holds, and without the version, which the gateway sets.
#[derive(Debug, Clone)]
pub struct ConfigNodeGuardInput {
    /// Rate limit.
    pub rate_limit: RateLimit,
    /// Whitelist.
    pub allow: Vec<Allow>,
    /// Expected fingerprints.
    pub check_sum: Vec<CheckSum>,
}

/// Configuration of a Guard.
#[derive(Debug, Clone)]
pub struct ConfigNodeGuard {
    /// Peer id of the Guard.
    pub uuid: String,
    /// Rate limit.
    pub rate_limit: RateLimit,
    /// Whitelist.
    pub allow: Vec<Allow>,
    /// Expected fingerprints.
    pub check_sum: Vec<CheckSum>,
    /// Version of the configuration.
    pub updated_at: String,
}

/// Which of the two tunnel routers served a request.
#[derive(Debug, Clone, Copy, PartialEq, Eq, Structural)]
pub enum ActorKind {
    /// The router open to the peers that a Guard authorises.
    Client,
    /// The router open to the Guards.
    Guard,
}

/// Origin of a request, for the audit log: the router that served it, not the peer.
#[derive(Debug, Clone)]
pub struct AuthenticatedActor {
    /// Name of the router.
    pub id: String,
    /// Kind of the router.
    pub kind: ActorKind,
}

impl AuthenticatedActor {
    /// The origin of the requests of a router.
    pub fn of_router(kind: ActorKind) -> (r: Self)
        ensures
            r.kind == kind,
            r.id@ == match kind {
                ActorKind::Guard => "gwapi-guard"@,
                ActorKind::Client => "gwapi-client"@,
            },
    {
        let id = match kind {
            ActorKind::Guard => "gwapi-guard".to_owned(),
            ActorKind::Client => "gwapi-client".to_owned(),
        };
        AuthenticatedActor { id, kind }
    }
}

} // verus!
