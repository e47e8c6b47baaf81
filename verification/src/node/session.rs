//! Session of a Client: reconnection with an exponential backoff.

use vstd::prelude::*;
use crate::node::NodeEvent;
use crate::peer::PeerId;

verus! {

/// First delay before a new attempt, in milliseconds.
pub const INITIAL_BACKOFF_MS: u64 = 1_000;

/// Longest delay before a new attempt, in milliseconds.
pub const MAX_BACKOFF_MS: u64 = 30_000;

/// The delay after the one of `d` milliseconds.
pub open spec fn doubled(d: nat) -> nat {
    if 2 * d < MAX_BACKOFF_MS {
        2 * d
    } else {
        MAX_BACKOFF_MS as nat
    }
}

/// The delay before attempt number `n`, counted from zero.
pub open spec fn delay(n: nat) -> nat
    decreases n,
{
    if n == 0 {
        INITIAL_BACKOFF_MS as nat
    } else {
        doubled(delay((n - 1) as nat))
    }
}

/// Delays between the attempts to authenticate again.
#[derive(Debug)]
pub struct Backoff {
    current: u64,
}

impl Backoff {
    /// The delay that comes next.
    pub closed spec fn pending(self) -> nat {
        self.current as nat
    }

    /// The delay is within its limit.
    pub closed spec fn wf(self) -> bool {
        self.current <= MAX_BACKOFF_MS
    }

    /// Before the first attempt.
    pub fn new() -> (r: Self)
        ensures
            r.wf(),
            r.pending() == delay(0),
    {
        Backoff { current: INITIAL_BACKOFF_MS }
    }

    /// After a failed attempt: how long to wait before the next one, in milliseconds.
    pub fn next_delay(&mut self) -> (r: u64)
        requires
            old(self).wf(),
        ensures
            final(self).wf(),
            r == old(self).pending(),
            final(self).pending() == doubled(old(self).pending()),
            forall|n: nat| #[trigger]
                delay(n) == old(self).pending() ==> final(self).pending() == delay(n + 1),
    {
        let wait: u64 = self.current;
        let twice: u64 = wait * 2;
        self.current = if twice < MAX_BACKOFF_MS {
            twice
        } else {
            MAX_BACKOFF_MS
        };
        wait
    }
}

/// The delays start at one second, never shrink, double until they reach thirty
/// seconds and stay there.
pub proof fn delays_double_up_to_the_limit(n: nat)
    ensures
        delay(0) == 1_000,
        INITIAL_BACKOFF_MS <= delay(n) <= MAX_BACKOFF_MS,
        delay(n) <= delay(n + 1) <= 2 * delay(n),
        2 * delay(n) <= MAX_BACKOFF_MS ==> delay(n + 1) == 2 * delay(n),
        n >= 5 ==> delay(n) == MAX_BACKOFF_MS,
    decreases n,
{
    reveal_with_fuel(delay, 7);
    if n > 0 {
        delays_double_up_to_the_limit((n - 1) as nat);
    }
}

/// What a Client does after an event of its session.
#[derive(Debug, Clone, Copy, PartialEq, Eq, Structural)]
pub enum SessionAction {
    /// Nothing.
    Ignore,
    /// Dial the Guard again and play the handshake again, until it succeeds.
    Reconnect,
}

/// Step of the session of a Client: once the last connection to the Guard is closed,
/// it connects again.
pub fn run_client_session(guard: &PeerId, event: &NodeEvent) -> (r: SessionAction)
    ensures
        r == match *event {
            NodeEvent::ConnectionClosed(peer, remaining) => if peer@ == guard@ && remaining == 0 {
                SessionAction::Reconnect
            } else {
                SessionAction::Ignore
            },
            _ => SessionAction::Ignore,
        },
{
    match event {
        NodeEvent::ConnectionClosed(peer, remaining) => {
            if *remaining == 0 && peer.same(guard) {
                SessionAction::Reconnect
            } else {
                SessionAction::Ignore
            }
        },
        _ => SessionAction::Ignore,
    }
}

/// The next delay is twice the one before, but never more than thirty seconds.
pub proof fn next_delay_is_twice_the_one_before(d: nat)
    ensures
        2 * d <= 30_000 ==> doubled(d) == 2 * d,
        2 * d > 30_000 ==> doubled(d) == 30_000,
{
}

} // verus!
