//! Local redirections of a Client: what to do with each local connection.

use vstd::prelude::*;
use crate::tunnel::peer_uid_authorized;

verus! {

/// Pause after a failed acceptance (descriptors exhausted...), in milliseconds: the
/// loop breathes rather than spins.
pub const ACCEPT_PAUSE_MS: u64 = 100;

/// What happened on the local listener.
#[derive(Debug, Clone, Copy, PartialEq, Eq, Structural)]
pub enum ForwardEvent {
    /// A stop was asked for.
    Shutdown,
    /// A local connection was accepted, from the given user if the kernel reports
    /// one.
    Accepted(Option<u32>),
    /// An acceptance failed.
    AcceptFailed,
}

/// What to do next.
#[derive(Debug, Clone, Copy, PartialEq, Eq, Structural)]
pub enum ForwardAction {
    /// Relay the connection through a new tunnel.
    Relay,
    /// Close the connection without a byte.
    Close,
    /// Wait for that many milliseconds, then accept again.
    Pause(u64),
    /// Accept nothing more, and let the relays in progress end within the grace
    /// period.
    Drain,
}

/// Step of the acceptance loop on a local TCP port: any local process may connect.
pub fn forward_listener(event: ForwardEvent) -> (r: ForwardAction)
    ensures
        r == match event {
            ForwardEvent::Shutdown => ForwardAction::Drain,
            ForwardEvent::Accepted(_) => ForwardAction::Relay,
            ForwardEvent::AcceptFailed => ForwardAction::Pause(ACCEPT_PAUSE_MS),
        },
{
    match event {
        ForwardEvent::Shutdown => ForwardAction::Drain,
        ForwardEvent::Accepted(_) => ForwardAction::Relay,
        ForwardEvent::AcceptFailed => ForwardAction::Pause(ACCEPT_PAUSE_MS),
    }
}

/// Step of the acceptance loop on a local Unix socket: a connection is relayed only
/// if the user of its process, as the kernel reports it, is in the list.
pub fn forward_unix_listener(event: ForwardEvent, allowed_uids: &Vec<u32>) -> (r: ForwardAction)
    ensures
        r == match event {
            ForwardEvent::Shutdown => ForwardAction::Drain,
            ForwardEvent::Accepted(Some(uid)) => if allowed_uids@.contains(uid) {
                ForwardAction::Relay
            } else {
                ForwardAction::Close
            },
            ForwardEvent::Accepted(None) => ForwardAction::Close,
            ForwardEvent::AcceptFailed => ForwardAction::Pause(ACCEPT_PAUSE_MS),
        },
{
    match event {
        ForwardEvent::Shutdown => ForwardAction::Drain,
        ForwardEvent::Accepted(uid) => {
            if peer_uid_authorized(uid, allowed_uids) {
                ForwardAction::Relay
            } else {
                ForwardAction::Close
            }
        },
        ForwardEvent::AcceptFailed => ForwardAction::Pause(ACCEPT_PAUSE_MS),
    }
}

} // verus!
