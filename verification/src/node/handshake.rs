//! Challenge-response handshake of a Client, as a step function.

use vstd::prelude::*;
use vstd::string::StringExecFns;
use crate::auth::{answer_challenge_at, unix_now, MAX_CLOCK_SKEW_SECS};
use crate::error::{NuxError, Result};
use crate::identity::Keypair;
use crate::node::NodeEvent;
use crate::peer::PeerId;
use crate::protocol::display::response_text;
use crate::protocol::{NuxRequest, NuxResponse, RequestModel};

verus! {

/// Where the handshake stands.
#[derive(Debug, Clone, Copy, PartialEq, Eq, Structural)]
pub enum Phase {
    /// The connection to the Guard is awaited.
    Connecting,
    /// The challenge is awaited, as the answer to the request with that number.
    AwaitingChallenge(u64),
    /// The grant is awaited, as the answer to the request with that number.
    AwaitingGrant(u64),
    /// A request is to be sent, and then its number given; whether it is the answer
    /// to the challenge.
    Sending(bool),
    /// The handshake is over.
    Over,
}

/// What to do next.
#[derive(Debug)]
pub enum HandshakeAction {
    /// Wait for the next event.
    Wait,
    /// Send a request to the Guard, then give its number by [`Handshake::sent`]. The
    /// flag tells that the clock of the Guard is out of the window: the
    /// authentication will probably fail, which is worth a warning.
    Send(NuxRequest, bool),
    /// The handshake is over: the roles granted, or the error.
    Done(Result<Vec<String>>),
}

/// Handshake of a Client with a Guard.
pub struct Handshake {
    guard: PeerId,
    phase: Phase,
}

/// What an event means to a handshake.
pub enum Meaning {
    /// Nothing to it.
    Unrelated,
    /// The Guard is connected.
    Connected,
    /// The Guard cannot be reached, with the text of the error.
    Unreachable(Seq<char>),
    /// The answer that is awaited.
    Answer(NuxResponse),
    /// The Guard closed without an answer.
    Silence,
}

/// What an event means to the handshake with `guard` in a phase.
pub open spec fn meaning(guard: Seq<u8>, phase: Phase, event: NodeEvent) -> Meaning {
    match phase {
        Phase::Connecting => match event {
            NodeEvent::ConnectionEstablished(p) => if p@ == guard {
                Meaning::Connected
            } else {
                Meaning::Unrelated
            },
            NodeEvent::OutgoingConnectionError(Some(p), error) => if p@ == guard {
                Meaning::Unreachable(error@)
            } else {
                Meaning::Unrelated
            },
            _ => Meaning::Unrelated,
        },
        Phase::AwaitingChallenge(id) | Phase::AwaitingGrant(id) => match event {
            NodeEvent::AuthResponse(p, n, response) => if p@ == guard && n == id {
                Meaning::Answer(response)
            } else {
                Meaning::Unrelated
            },
            NodeEvent::AuthFailure(p, n) => if p@ == guard && n == id {
                Meaning::Silence
            } else {
                Meaning::Unrelated
            },
            NodeEvent::ConnectionClosed(p, _) => if p@ == guard {
                Meaning::Silence
            } else {
                Meaning::Unrelated
            },
            _ => Meaning::Unrelated,
        },
        _ => Meaning::Unrelated,
    }
}

/// Whether the step of a handshake, from a phase to another with an action, is the one
/// that an event calls for at a given time.
pub open spec fn handshake_step(
    guard: Seq<u8>,
    secret: Seq<u8>,
    phase: Phase,
    event: NodeEvent,
    now: u64,
    after: Phase,
    action: HandshakeAction,
) -> bool {
    match meaning(guard, phase, event) {
        Meaning::Unrelated => after == phase && action is Wait,
        Meaning::Connected => {
            &&& after == Phase::Sending(false)
            &&& action matches HandshakeAction::Send(request, false)
            &&& request@ is HandshakeInit
        },
        Meaning::Unreachable(text) => {
            &&& after == Phase::Over
            &&& action matches HandshakeAction::Done(Err(NuxError::Dial(m)))
            &&& m@ == text
        },
        Meaning::Silence => {
            &&& after == Phase::Over
            &&& action matches HandshakeAction::Done(Err(NuxError::AccessDenied))
        },
        Meaning::Answer(response) => match (phase is AwaitingGrant, response) {
            (_, NuxResponse::Denied) => {
                &&& after == Phase::Over
                &&& action matches HandshakeAction::Done(Err(NuxError::AccessDenied))
            },
            (false, NuxResponse::Challenge { nonce, timestamp }) => {
                &&& after == Phase::Sending(true)
                &&& action matches HandshakeAction::Send(request, warn)
                &&& request@ == (RequestModel::ChallengeAnswer {
                    signature: crate::identity::ed25519_signature(
                        secret,
                        crate::protocol::signed_bytes(nonce@, now),
                    ),
                    timestamp: now,
                })
                &&& crate::peer::signature_valid(
                    crate::identity::ed25519_public_key(secret),
                    crate::protocol::signed_bytes(nonce@, now),
                    request@->signature,
                )
                &&& warn == (timestamp > now + MAX_CLOCK_SKEW_SECS || now > timestamp
                    + MAX_CLOCK_SKEW_SECS)
            },
            (true, NuxResponse::AccessGranted { roles }) => {
                &&& after == Phase::Over
                &&& action matches HandshakeAction::Done(Ok(granted))
                &&& granted == roles
            },
            _ => {
                &&& after == Phase::Over
                &&& action matches HandshakeAction::Done(Err(NuxError::Protocol(m)))
                &&& m@ == "réponse inattendue du Guard: "@
                    + crate::protocol::display::response_debug(response@)
            },
        },
    }
}

impl Handshake {
    /// The Guard.
    pub closed spec fn guard(self) -> Seq<u8> {
        self.guard@
    }

    /// Where the handshake stands.
    pub closed spec fn phase(self) -> Phase {
        self.phase
    }

    /// Starts a handshake: at once if the Guard is connected, else once it is.
    pub fn start(guard: PeerId, connected: bool) -> (r: (Handshake, HandshakeAction))
        ensures
            r.0.guard() == guard@,
            connected ==> r.0.phase() == Phase::Sending(false) && (r.1 matches HandshakeAction::Send(
                request,
                false,
            ) && request@ is HandshakeInit),
            !connected ==> r.0.phase() == Phase::Connecting && r.1 is Wait,
    {
        if connected {
            (
                Handshake { guard, phase: Phase::Sending(false) },
                HandshakeAction::Send(NuxRequest::HandshakeInit, false),
            )
        } else {
            (Handshake { guard, phase: Phase::Connecting }, HandshakeAction::Wait)
        }
    }

    /// Gives the number of the request that was sent: its answer is awaited.
    pub fn sent(&mut self, request_id: u64)
        ensures
            final(self).guard() == old(self).guard(),
            final(self).phase() == match old(self).phase() {
                Phase::Sending(false) => Phase::AwaitingChallenge(request_id),
                Phase::Sending(true) => Phase::AwaitingGrant(request_id),
                other => other,
            },
    {
        match self.phase {
            Phase::Sending(answered) => {
                self.phase = if answered {
                    Phase::AwaitingGrant(request_id)
                } else {
                    Phase::AwaitingChallenge(request_id)
                };
            },
            _ => {},
        }
    }

    /// Step of the handshake, at the time of the local clock.
    pub fn authenticate(&mut self, keypair: &Keypair, event: NodeEvent) -> (r: HandshakeAction)
        ensures
            final(self).guard() == old(self).guard(),
            exists|now: u64| #[trigger]
                handshake_step(
                    old(self).guard(),
                    keypair@,
                    old(self).phase(),
                    event,
                    now,
                    final(self).phase(),
                    r,
                ),
            match event {
                NodeEvent::ConnectionClosed(p, _) => p@ == old(self).guard() && (
                old(self).phase() is AwaitingChallenge || old(self).phase() is AwaitingGrant)
                    ==> final(self).phase() == Phase::Over && (r matches HandshakeAction::Done(
                    Err(NuxError::AccessDenied),
                )),
                NodeEvent::AuthFailure(p, n) => p@ == old(self).guard() && (old(self).phase()
                    == Phase::AwaitingChallenge(n) || old(self).phase() == Phase::AwaitingGrant(n))
                    ==> final(self).phase() == Phase::Over && (r matches HandshakeAction::Done(
                    Err(NuxError::AccessDenied),
                )),
                _ => true,
            },
    {
        let now: u64 = unix_now();
        self.authenticate_at(keypair, event, now)
    }

    /// Step of the handshake, at a given time. A Guard that closes in silence means
    /// the same as an explicit refusal.
    pub fn authenticate_at(&mut self, keypair: &Keypair, event: NodeEvent, now: u64) -> (r:
        HandshakeAction)
        ensures
            final(self).guard() == old(self).guard(),
            handshake_step(
                old(self).guard(),
                keypair@,
                old(self).phase(),
                event,
                now,
                final(self).phase(),
                r,
            ),
            match event {
                NodeEvent::ConnectionClosed(p, _) => p@ == old(self).guard() && (
                old(self).phase() is AwaitingChallenge || old(self).phase() is AwaitingGrant)
                    ==> final(self).phase() == Phase::Over && (r matches HandshakeAction::Done(
                    Err(NuxError::AccessDenied),
                )),
                NodeEvent::AuthFailure(p, n) => p@ == old(self).guard() && (old(self).phase()
                    == Phase::AwaitingChallenge(n) || old(self).phase() == Phase::AwaitingGrant(n))
                    ==> final(self).phase() == Phase::Over && (r matches HandshakeAction::Done(
                    Err(NuxError::AccessDenied),
                )),
                _ => true,
            },
    {
        match self.phase {
            Phase::Connecting => match event {
                NodeEvent::ConnectionEstablished(p) => {
                    if p.same(&self.guard) {
                        self.phase = Phase::Sending(false);
                        HandshakeAction::Send(NuxRequest::HandshakeInit, false)
                    } else {
                        HandshakeAction::Wait
                    }
                },
                NodeEvent::OutgoingConnectionError(Some(p), error) => {
                    if p.same(&self.guard) {
                        self.phase = Phase::Over;
                        HandshakeAction::Done(Err(NuxError::Dial(error)))
                    } else {
                        HandshakeAction::Wait
                    }
                },
                _ => HandshakeAction::Wait,
            },
            Phase::AwaitingChallenge(id) => self.on_answer(keypair, event, now, id, false),
            Phase::AwaitingGrant(id) => self.on_answer(keypair, event, now, id, true),
            _ => HandshakeAction::Wait,
        }
    }

    fn on_answer(
        &mut self,
        keypair: &Keypair,
        event: NodeEvent,
        now: u64,
        id: u64,
        answered: bool,
    ) -> (r: HandshakeAction)
        requires
            old(self).phase() == if answered {
                Phase::AwaitingGrant(id)
            } else {
                Phase::AwaitingChallenge(id)
            },
        ensures
            final(self).guard() == old(self).guard(),
            handshake_step(
                old(self).guard(),
                keypair@,
                old(self).phase(),
                event,
                now,
                final(self).phase(),
                r,
            ),
    {
        match event {
            NodeEvent::AuthResponse(p, n, response) => {
                if !p.same(&self.guard) || n != id {
                    return HandshakeAction::Wait;
                }
                self.on_response(keypair, response, now, answered)
            },
            NodeEvent::AuthFailure(p, n) => {
                if !p.same(&self.guard) || n != id {
                    return HandshakeAction::Wait;
                }
                self.phase = Phase::Over;
                HandshakeAction::Done(Err(NuxError::AccessDenied))
            },
            NodeEvent::ConnectionClosed(p, _) => {
                if !p.same(&self.guard) {
                    return HandshakeAction::Wait;
                }
                self.phase = Phase::Over;
                HandshakeAction::Done(Err(NuxError::AccessDenied))
            },
            _ => HandshakeAction::Wait,
        }
    }

    fn on_response(
        &mut self,
        keypair: &Keypair,
        response: NuxResponse,
        now: u64,
        answered: bool,
    ) -> (r: HandshakeAction)
        ensures
            final(self).guard() == old(self).guard(),
            match (answered, response) {
                (_, NuxResponse::Denied) => {
                    &&& final(self).phase() == Phase::Over
                    &&& r matches HandshakeAction::Done(Err(NuxError::AccessDenied))
                },
                (false, NuxResponse::Challenge { nonce, timestamp }) => {
                    &&& final(self).phase() == Phase::Sending(true)
                    &&& r matches HandshakeAction::Send(request, warn)
                    &&& request@ == (RequestModel::ChallengeAnswer {
                        signature: crate::identity::ed25519_signature(
                            keypair@,
                            crate::protocol::signed_bytes(nonce@, now),
                        ),
                        timestamp: now,
                    })
                    &&& crate::peer::signature_valid(
                        crate::identity::ed25519_public_key(keypair@),
                        crate::protocol::signed_bytes(nonce@, now),
                        request@->signature,
                    )
                    &&& warn == (timestamp > now + MAX_CLOCK_SKEW_SECS || now > timestamp
                        + MAX_CLOCK_SKEW_SECS)
                },
                (true, NuxResponse::AccessGranted { roles }) => {
                    &&& final(self).phase() == Phase::Over
                    &&& r matches HandshakeAction::Done(Ok(granted))
                    &&& granted == roles
                },
                _ => {
                    &&& final(self).phase() == Phase::Over
                    &&& r matches HandshakeAction::Done(Err(NuxError::Protocol(m)))
                    &&& m@ == "réponse inattendue du Guard: "@
                        + crate::protocol::display::response_debug(response@)
                },
            },
    {
        self.phase = Phase::Over;
        match response {
            NuxResponse::Denied => HandshakeAction::Done(Err(NuxError::AccessDenied)),
            NuxResponse::Challenge { nonce, timestamp } => {
                if answered {
                    return unexpected(&NuxResponse::Challenge { nonce, timestamp });
                }
                let gap: u64 = if timestamp >= now {
                    timestamp - now
                } else {
                    now - timestamp
                };
                match answer_challenge_at(keypair, &nonce, now) {
                    Ok(answer) => {
                        self.phase = Phase::Sending(true);
                        HandshakeAction::Send(answer, gap > MAX_CLOCK_SKEW_SECS)
                    },
                    Err(e) => HandshakeAction::Done(Err(e)),
                }
            },
            NuxResponse::AccessGranted { roles } => {
                if answered {
                    HandshakeAction::Done(Ok(roles))
                } else {
                    unexpected(&NuxResponse::AccessGranted { roles })
                }
            },
        }
    }
}

/// The end of a handshake on an answer that does not fit.
fn unexpected(response: &NuxResponse) -> (r: HandshakeAction)
    ensures
        r matches HandshakeAction::Done(Err(NuxError::Protocol(m))) && m@
            == "réponse inattendue du Guard: "@ + crate::protocol::display::response_debug(
            response@,
        ),
{
    let text = response_text(response);
    HandshakeAction::Done(
        Err(NuxError::Protocol("réponse inattendue du Guard: ".to_owned().concat(text.as_str()))),
    )
}

/// Roles are granted only to a Client that answered a challenge: in every other phase
/// no event ends the handshake with roles.
pub proof fn grant_needs_an_answered_challenge(
    guard: Seq<u8>,
    secret: Seq<u8>,
    phase: Phase,
    event: NodeEvent,
    now: u64,
    after: Phase,
    action: HandshakeAction,
)
    requires
        handshake_step(guard, secret, phase, event, now, after, action),
        action matches HandshakeAction::Done(Ok(_)),
    ensures
        phase is AwaitingGrant,
        event is AuthResponse,
        event->AuthResponse_0@ == guard,
{
}

/// The silence of a Guard and its explicit refusal mean the same to the Client.
pub proof fn silence_means_denied(
    guard: Seq<u8>,
    secret: Seq<u8>,
    phase: Phase,
    event: NodeEvent,
    now: u64,
    after: Phase,
    action: HandshakeAction,
)
    requires
        handshake_step(guard, secret, phase, event, now, after, action),
        meaning(guard, phase, event) is Silence || (meaning(guard, phase, event) matches Meaning::Answer(
            response,
        ) && response is Denied),
    ensures
        after == Phase::Over,
        action matches HandshakeAction::Done(Err(NuxError::AccessDenied)),
{
}

} // verus!
