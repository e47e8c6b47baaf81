//! Challenge-response authentication.
//!
//! 1. the Client sends `HandshakeInit`;
//! 2. the Guard checks that the peer is in its whitelist and answers by a
//!    challenge: a random nonce, good for one use;
//! 3. the Client signs the nonce and a timestamp and sends `ChallengeAnswer`;
//! 4. the Guard consumes the challenge, checks the replay window of
//!    [`MAX_CLOCK_SKEW_SECS`] seconds, verifies the signature against the public
//!    key held by the peer id, and grants the roles.
//!
//! Every failure is [`AuthOutcome::Reject`]: the caller then closes the
//! connection without sending a byte. The reason never leaves the node.

pub mod laws;
pub mod whitelist;

pub use whitelist::Whitelist;

use std::time::SystemTime;
use vstd::prelude::*;
use vstd::string::StringExecFns;
use rand::RngCore;
use crate::error::{NuxError, Result};
use crate::identity::Keypair;
use crate::peer::{public_key_of, PeerId};
use crate::protocol::{challenge_payload, clone_texts, NuxRequest, NuxResponse, ResponseModel, RequestModel};
use crate::table::PeerTable;

verus! {

/// Largest gap tolerated between the Guard's clock and the timestamp of an
/// authentication message; also the lifetime of a challenge.
pub const MAX_CLOCK_SKEW_SECS: u64 = 5;

/// A reading of the system clock (`std::time::SystemTime`).
#[verifier::external_type_specification]
#[verifier::external_body]
pub struct ExSystemTime(std::time::SystemTime);

/// `std::time::SystemTime::now`. Nothing is claimed of the reading: it is the time.
#[verifier::external_body]
fn system_now() -> (r: SystemTime) {
    SystemTime::now()
}

/// `std::time::SystemTime::duration_since` the Unix epoch, in whole seconds, or `None` if
/// the reading is before the epoch. Nothing is claimed of the value: it is the time.
#[verifier::external_body]
fn seconds_since_epoch(reading: &SystemTime) -> (r: Option<u64>) {
    reading.duration_since(std::time::UNIX_EPOCH).ok().map(|d| d.as_secs())
}

/// `rand::rngs::OsRng::fill_bytes`: 32 bytes of the system's entropy. Nothing is
/// claimed of them: they are random. It panics where the system has no entropy
/// to give.
#[verifier::external_body]
pub(crate) fn random_nonce() -> (r: [u8; 32]) {
    let mut nonce = [0u8; 32];
    rand::rngs::OsRng.fill_bytes(&mut nonce);
    nonce
}

/// A clock reading, where a clock before the epoch counts as the epoch.
pub fn seconds_or_epoch(reading: Option<u64>) -> (r: u64)
    ensures
        r == match reading {
            Some(s) => s,
            None => 0u64,
        },
{
    match reading {
        Some(s) => s,
        None => 0,
    }
}

/// Local Unix clock, in seconds.
pub fn unix_now() -> u64 {
    seconds_or_epoch(seconds_since_epoch(&system_now()))
}

/// Whether an answer with a given timestamp is in time for a challenge: the challenge has
/// not expired, and the timestamp lies in the replay window.
pub open spec fn in_time(issued_at: u64, timestamp: u64, now: u64) -> bool {
    &&& now <= issued_at + MAX_CLOCK_SKEW_SECS
    &&& now <= timestamp + MAX_CLOCK_SKEW_SECS
    &&& timestamp <= now + MAX_CLOCK_SKEW_SECS
}

/// Whether an answer is in time for a challenge.
fn answer_in_time(issued_at: u64, timestamp: u64, now: u64) -> (r: bool)
    ensures
        r == in_time(issued_at, timestamp, now),
{
    let gap: u64 = if now >= timestamp {
        now - timestamp
    } else {
        timestamp - now
    };
    now.saturating_sub(issued_at) <= MAX_CLOCK_SKEW_SECS && gap <= MAX_CLOCK_SKEW_SECS
}

/// Decision of the Guard after a verification.
#[derive(Debug, Clone, PartialEq, Eq)]
pub enum AuthOutcome {
    /// The peer is authenticated.
    Granted {
        /// Roles of the whitelist.
        roles: Vec<String>,
    },
    /// Failure. The reason is never sent to the peer.
    Reject,
}

/// A challenge that waits for its answer.
struct IssuedChallenge {
    nonce: [u8; 32],
    issued_at: u64,
}

/// State of a [`GuardAuthenticator`].
#[verifier::ext_equal]
pub struct GuardModel {
    /// Roles of each authorised peer.
    pub whitelist: Map<Seq<u8>, Seq<Seq<char>>>,
    /// Nonce and time of issue of each challenge without an answer.
    pub pending: Map<Seq<u8>, (Seq<u8>, u64)>,
    /// Roles granted to each authenticated peer when it authenticated.
    pub sessions: Map<Seq<u8>, Seq<Seq<char>>>,
}

impl GuardModel {
    /// The state after a challenge for `peer`: a whitelisted peer has that
    /// challenge and no other, an unknown one changes nothing.
    pub open spec fn after_issue(self, peer: Seq<u8>, nonce: Seq<u8>, now: u64) -> GuardModel {
        if self.whitelist.contains_key(peer) {
            GuardModel { pending: self.pending.insert(peer, (nonce, now)), ..self }
        } else {
            self
        }
    }

    /// Whether the key held by the id of a peer made a signature of the nonce of its
    /// challenge and of a timestamp.
    pub open spec fn signed(self, peer: Seq<u8>, signature: Seq<u8>, timestamp: u64) -> bool {
        &&& crate::peer::peer_public_key(peer) is Some
        &&& crate::peer::signature_valid(
            crate::peer::peer_public_key(peer)->0,
            crate::protocol::signed_bytes(self.pending[peer].0, timestamp),
            signature,
        )
    }

    /// Whether an answer is accepted, `signed` telling whether its signature is the one
    /// that the challenge asks for: a challenge waits for it, it is in time, and the peer
    /// is still in the whitelist.
    pub open spec fn accepts_signed(
        self,
        peer: Seq<u8>,
        timestamp: u64,
        now: u64,
        signed: bool,
    ) -> bool {
        &&& self.pending.contains_key(peer)
        &&& in_time(self.pending[peer].1, timestamp, now)
        &&& self.whitelist.contains_key(peer)
        &&& signed
    }

    /// Whether an answer is accepted: a challenge waits for it and has not
    /// expired, the timestamp lies in the replay window, the peer is still in
    /// the whitelist, and the key held by its id made the signature of that
    /// nonce and that timestamp.
    pub open spec fn accepts(
        self,
        peer: Seq<u8>,
        signature: Seq<u8>,
        timestamp: u64,
        now: u64,
    ) -> bool {
        self.accepts_signed(peer, timestamp, now, self.signed(peer, signature, timestamp))
    }

    /// The state after an answer that is accepted or not: the challenge is consumed
    /// whatever the outcome, and an accepted peer has a session.
    pub open spec fn after_outcome(self, peer: Seq<u8>, accepted: bool) -> GuardModel {
        GuardModel {
            pending: self.pending.remove(peer),
            sessions: if accepted {
                self.sessions.insert(peer, self.whitelist[peer])
            } else {
                self.sessions
            },
            ..self
        }
    }

    /// The state after an answer.
    pub open spec fn after_verify(
        self,
        peer: Seq<u8>,
        signature: Seq<u8>,
        timestamp: u64,
        now: u64,
    ) -> GuardModel {
        self.after_outcome(peer, self.accepts(peer, signature, timestamp, now))
    }

    /// The roles of an authenticated peer: those of the whitelist now.
    pub open spec fn session_roles(self, peer: Seq<u8>) -> Option<Seq<Seq<char>>> {
        if self.sessions.contains_key(peer) && self.whitelist.contains_key(peer) {
            Some(self.whitelist[peer])
        } else {
            None
        }
    }

    /// The state after a peer is struck off.
    pub open spec fn after_revoke(self, peer: Seq<u8>) -> GuardModel {
        GuardModel {
            whitelist: self.whitelist.remove(peer),
            pending: self.pending.remove(peer),
            sessions: self.sessions.remove(peer),
        }
    }

    /// The state after a session is closed.
    pub open spec fn after_end(self, peer: Seq<u8>) -> GuardModel {
        GuardModel {
            pending: self.pending.remove(peer),
            sessions: self.sessions.remove(peer),
            ..self
        }
    }
}

/// Authority that authenticates peers for a Guard: it holds the whitelist, the
/// challenges without an answer and the authenticated sessions.
///
/// The table of challenges is bounded: only a whitelisted peer can create an
/// entry, and each has one at most.
pub struct GuardAuthenticator {
    whitelist: Whitelist,
    pending: PeerTable<IssuedChallenge>,
    sessions: PeerTable<Vec<String>>,
}

impl View for GuardAuthenticator {
    type V = GuardModel;

    closed spec fn view(&self) -> GuardModel {
        GuardModel {
            whitelist: self.whitelist@,
            pending: self.pending@.map_values(|c: IssuedChallenge| (c.nonce@, c.issued_at)),
            sessions: self.sessions@.map_values(|roles: Vec<String>| crate::protocol::texts(roles@)),
        }
    }
}

impl GuardAuthenticator {
    /// No peer occurs twice in a table.
    pub closed spec fn wf(self) -> bool {
        self.whitelist.wf() && self.pending.wf() && self.sessions.wf()
    }

    /// New authority over the given whitelist.
    pub fn new(whitelist: Whitelist) -> (r: Self)
        requires
            whitelist.wf(),
        ensures
            r.wf(),
            r@ == (GuardModel {
                whitelist: whitelist@,
                pending: Map::empty(),
                sessions: Map::empty(),
            }),
    {
        let r = GuardAuthenticator {
            whitelist,
            pending: PeerTable::new(),
            sessions: PeerTable::new(),
        };
        assert(r@.pending =~= Map::<Seq<u8>, (Seq<u8>, u64)>::empty());
        assert(r@.sessions =~= Map::<Seq<u8>, Seq<Seq<char>>>::empty());
        r
    }

    /// Issues a challenge for `peer`, or `None` if it is not in the whitelist:
    /// the caller then closes the connection without an answer.
    pub fn issue(&mut self, peer: PeerId) -> (r: Option<NuxResponse>)
        requires
            old(self).wf(),
        ensures
            final(self).wf(),
            r is Some <==> old(self)@.whitelist.contains_key(peer@),
            r is None ==> final(self)@ == old(self)@,
            r matches Some(m) ==> (m@ matches ResponseModel::Challenge { nonce, timestamp }
                && final(self)@ == old(self)@.after_issue(peer@, nonce, timestamp)),
    {
        self.issue_at(peer, unix_now())
    }

    /// [`GuardAuthenticator::issue`] at a given time.
    pub fn issue_at(&mut self, peer: PeerId, now: u64) -> (r: Option<NuxResponse>)
        requires
            old(self).wf(),
        ensures
            final(self).wf(),
            r is Some <==> old(self)@.whitelist.contains_key(peer@),
            r is None ==> final(self)@ == old(self)@,
            r matches Some(m) ==> (m@ matches ResponseModel::Challenge { nonce, timestamp }
                && timestamp == now && final(self)@ == old(self)@.after_issue(peer@, nonce, now)),
    {
        self.issue_with(peer, random_nonce(), now)
    }

    /// [`GuardAuthenticator::issue`] at a given time with a given nonce.
    pub fn issue_with(&mut self, peer: PeerId, nonce: [u8; 32], now: u64) -> (r: Option<
        NuxResponse,
    >)
        requires
            old(self).wf(),
        ensures
            final(self).wf(),
            r is Some <==> old(self)@.whitelist.contains_key(peer@),
            r matches Some(m) ==> m@ == (ResponseModel::Challenge { nonce: nonce@, timestamp: now }),
            final(self)@ == old(self)@.after_issue(peer@, nonce@, now),
    {
        if self.whitelist.roles(&peer).is_none() {
            return None;
        }
        let ghost before = self@;
        let ghost p = peer@;
        self.pending.insert(peer, IssuedChallenge { nonce, issued_at: now });
        assert(self@.pending =~= before.pending.insert(p, (nonce@, now)));
        Some(NuxResponse::Challenge { nonce, timestamp: now })
    }

    /// Verifies the answer to a challenge, at the time of the local clock. The
    /// outcome is that of [`GuardAuthenticator::verify_at`] at some time.
    pub fn verify(&mut self, peer: &PeerId, signature: &[u8], timestamp: u64) -> (r: AuthOutcome)
        requires
            old(self).wf(),
        ensures
            final(self).wf(),
            exists|now: u64|
                {
                    &&& final(self)@ == #[trigger] old(self)@.after_verify(
                        peer@,
                        signature@,
                        timestamp,
                        now,
                    )
                    &&& match r {
                        AuthOutcome::Granted { roles } => old(self)@.accepts(
                            peer@,
                            signature@,
                            timestamp,
                            now,
                        ) && crate::protocol::texts(roles@) == old(self)@.whitelist[peer@],
                        AuthOutcome::Reject => !old(self)@.accepts(
                            peer@,
                            signature@,
                            timestamp,
                            now,
                        ),
                    }
                },
    {
        let now: u64 = unix_now();
        self.verify_at(peer, signature, timestamp, now)
    }

    /// Verifies the answer to a challenge at a given time. Every anomaly (no
    /// challenge or an expired one, a timestamp outside the window, a peer
    /// struck off, an invalid signature) is a [`AuthOutcome::Reject`], and the
    /// peer cannot tell them apart.
    pub fn verify_at(
        &mut self,
        peer: &PeerId,
        signature: &[u8],
        timestamp: u64,
        now: u64,
    ) -> (r: AuthOutcome)
        requires
            old(self).wf(),
        ensures
            final(self).wf(),
            final(self)@ == old(self)@.after_verify(peer@, signature@, timestamp, now),
            match r {
                AuthOutcome::Granted { roles } => old(self)@.accepts(
                    peer@,
                    signature@,
                    timestamp,
                    now,
                ) && crate::protocol::texts(roles@) == old(self)@.whitelist[peer@],
                AuthOutcome::Reject => !old(self)@.accepts(peer@, signature@, timestamp, now),
            },
    {
        let signed = match self.pending.get(peer) {
            Some(challenge) => {
                let payload = challenge_payload(&challenge.nonce, timestamp);
                match public_key_of(peer) {
                    Some(public) => answer_in_time(challenge.issued_at, timestamp, now)
                        && public.verify(payload.as_slice(), signature),
                    None => false,
                }
            },
            None => false,
        };
        self.verify_signed(peer, timestamp, now, signed)
    }

    /// Concludes on an answer at a given time, `signed` telling whether its signature is
    /// the one that the challenge of the peer asks for.
    pub fn verify_signed(&mut self, peer: &PeerId, timestamp: u64, now: u64, signed: bool) -> (r:
        AuthOutcome)
        requires
            old(self).wf(),
        ensures
            final(self).wf(),
            final(self)@ == old(self)@.after_outcome(
                peer@,
                old(self)@.accepts_signed(peer@, timestamp, now, signed),
            ),
            match r {
                AuthOutcome::Granted { roles } => old(self)@.accepts_signed(
                    peer@,
                    timestamp,
                    now,
                    signed,
                ) && crate::protocol::texts(roles@) == old(self)@.whitelist[peer@],
                AuthOutcome::Reject => !old(self)@.accepts_signed(peer@, timestamp, now, signed),
            },
    {
        let ghost before = self@;
        // The challenge is consumed at once, whatever comes next: a signature
        // that was intercepted cannot be played again.
        let challenge = match self.pending.remove(peer) {
            Some(c) => c,
            None => {
                assert(self@.pending =~= before.pending.remove(peer@));
                return AuthOutcome::Reject;
            },
        };
        assert(self@.pending =~= before.pending.remove(peer@));
        assert(before.pending[peer@] == (challenge.nonce@, challenge.issued_at));
        if !answer_in_time(challenge.issued_at, timestamp, now) || !signed {
            return AuthOutcome::Reject;
        }
        // The peer may have been struck off since the challenge was issued.
        let roles = match self.whitelist.roles(peer) {
            Some(roles) => roles,
            None => {
                return AuthOutcome::Reject;
            },
        };
        let stored = clone_texts(&roles);
        self.sessions.insert(peer.clone(), stored);
        assert(self@.sessions =~= before.sessions.insert(peer@, before.whitelist[peer@]));
        AuthOutcome::Granted { roles }
    }

    /// Effective roles of an authenticated peer, or `None` if it has no session
    /// or was struck off since. The roles are those of the whitelist at the time
    /// of the call, not those of the authentication: a revocation or a change of
    /// role takes effect at once on new streams.
    pub fn session_roles(&self, peer: &PeerId) -> (r: Option<Vec<String>>)
        requires
            self.wf(),
        ensures
            self@.session_roles(peer@) == (match r {
                Some(roles) => Some(crate::protocol::texts(roles@)),
                None => None,
            }),
    {
        if !self.sessions.contains(peer) {
            return None;
        }
        self.whitelist.roles(peer)
    }

    /// Strikes a peer off: removes it from the whitelist, closes its session and
    /// drops its challenge. Returns whether it had a session: the caller then
    /// closes its connection, so that the tunnels in progress stop.
    pub fn revoke(&mut self, peer: &PeerId) -> (r: bool)
        requires
            old(self).wf(),
        ensures
            final(self).wf(),
            final(self)@ == old(self)@.after_revoke(peer@),
            r == old(self)@.sessions.contains_key(peer@),
    {
        let ghost before = self@;
        self.whitelist.revoke(peer);
        self.pending.remove(peer);
        let had_session = self.sessions.remove(peer).is_some();
        assert(self@ =~= before.after_revoke(peer@)) by {
            assert(self@.pending =~= before.pending.remove(peer@));
            assert(self@.sessions =~= before.sessions.remove(peer@));
        }
        had_session
    }

    /// Closes the session of a peer (on disconnection) and drops its challenge.
    pub fn end_session(&mut self, peer: &PeerId)
        requires
            old(self).wf(),
        ensures
            final(self).wf(),
            final(self)@ == old(self)@.after_end(peer@),
    {
        let ghost before = self@;
        self.pending.remove(peer);
        self.sessions.remove(peer);
        assert(self@ =~= before.after_end(peer@)) by {
            assert(self@.pending =~= before.pending.remove(peer@));
            assert(self@.sessions =~= before.sessions.remove(peer@));
        }
    }

    /// Mutable access to the whitelist. For a safe revocation in one step,
    /// prefer [`GuardAuthenticator::revoke`].
    pub fn whitelist_mut(&mut self) -> (r: &mut Whitelist)
        requires
            old(self).wf(),
        ensures
            r.wf(),
            r@ == old(self)@.whitelist,
            final(r).wf() ==> final(self).wf(),
            final(self)@ == (GuardModel { whitelist: final(r)@, ..old(self)@ }),
    {
        &mut self.whitelist
    }

    /// Peers with a session, each once.
    pub fn authenticated_peers(&self) -> (r: Vec<PeerId>)
        requires
            self.wf(),
        ensures
            forall|i: int| 0 <= i < r@.len() ==> self@.sessions.contains_key((#[trigger] r@[i])@),
            forall|p: Seq<u8>| #[trigger]
                self@.sessions.contains_key(p) ==> exists|i: int|
                    0 <= i < r@.len() && (#[trigger] r@[i])@ == p,
            forall|i: int, j: int|
                0 <= i < j < r@.len() ==> (#[trigger] r@[i])@ != (#[trigger] r@[j])@,
    {
        self.sessions.keys()
    }
}

/// On the Client: builds the signed answer to a challenge, at a given time.
pub fn answer_challenge_at(keypair: &Keypair, nonce: &[u8; 32], timestamp: u64) -> (r: Result<
    NuxRequest,
>)
    ensures
        r matches Ok(m) && (m@ matches RequestModel::ChallengeAnswer { signature, timestamp: t }
            && t == timestamp && signature == crate::identity::ed25519_signature(
            keypair@,
            crate::protocol::signed_bytes(nonce@, timestamp),
        ) && crate::peer::signature_valid(
            crate::identity::ed25519_public_key(keypair@),
            crate::protocol::signed_bytes(nonce@, timestamp),
            signature,
        )),
{
    let payload = challenge_payload(nonce, timestamp);
    match keypair.sign(payload.as_slice()) {
        Ok(signature) => Ok(NuxRequest::ChallengeAnswer { signature, timestamp }),
        Err(e) => Err(NuxError::Identity("échec de signature: ".to_owned().concat(e.as_str()))),
    }
}

/// On the Client: builds the signed answer to a challenge. The signature covers
/// the nonce and the Client's time, which the Guard checks against its window.
pub fn answer_challenge(keypair: &Keypair, nonce: &[u8; 32]) -> (r: Result<NuxRequest>)
    ensures
        r matches Ok(m) && (m@ matches RequestModel::ChallengeAnswer { signature, timestamp }
            && signature == crate::identity::ed25519_signature(
            keypair@,
            crate::protocol::signed_bytes(nonce@, timestamp),
        ) && crate::peer::signature_valid(
            crate::identity::ed25519_public_key(keypair@),
            crate::protocol::signed_bytes(nonce@, timestamp),
            signature,
        )),
{
    answer_challenge_at(keypair, nonce, unix_now())
}

} // verus!
