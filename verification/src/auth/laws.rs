//! Laws of the authentication, over the states of a Guard.

use vstd::prelude::*;
use crate::auth::{GuardModel, MAX_CLOCK_SKEW_SECS};

verus! {

/// A challenge is good for one answer: after an answer, accepted or not, no
/// answer of that peer is accepted until a new challenge is issued.
pub proof fn challenge_is_single_use(
    m: GuardModel,
    peer: Seq<u8>,
    signature: Seq<u8>,
    timestamp: u64,
    now: u64,
    signature2: Seq<u8>,
    timestamp2: u64,
    now2: u64,
)
    ensures
        !m.after_verify(peer, signature, timestamp, now).accepts(
            peer,
            signature2,
            timestamp2,
            now2,
        ),
{
}

/// A signed answer is worth nothing once its timestamp is out of the window,
/// whatever the state of the Guard.
pub proof fn answer_expires(
    m: GuardModel,
    peer: Seq<u8>,
    signature: Seq<u8>,
    timestamp: u64,
    now: u64,
)
    requires
        now > timestamp + MAX_CLOCK_SKEW_SECS,
    ensures
        !m.accepts(peer, signature, timestamp, now),
{
}

/// A challenge without an answer expires.
pub proof fn challenge_expires(
    m: GuardModel,
    peer: Seq<u8>,
    nonce: Seq<u8>,
    issued: u64,
    signature: Seq<u8>,
    timestamp: u64,
    now: u64,
)
    requires
        m.whitelist.contains_key(peer),
        now > issued + MAX_CLOCK_SKEW_SECS,
    ensures
        !m.after_issue(peer, nonce, issued).accepts(peer, signature, timestamp, now),
{
}

/// A new challenge replaces the one before: an accepted answer signs the nonce
/// issued last.
pub proof fn last_challenge_counts(
    m: GuardModel,
    peer: Seq<u8>,
    nonce: Seq<u8>,
    issued: u64,
    signature: Seq<u8>,
    timestamp: u64,
    now: u64,
)
    requires
        m.whitelist.contains_key(peer),
        m.after_issue(peer, nonce, issued).accepts(peer, signature, timestamp, now),
    ensures
        crate::peer::signature_valid(
            crate::peer::peer_public_key(peer)->0,
            crate::protocol::signed_bytes(nonce, timestamp),
            signature,
        ),
{
}

/// A peer outside the whitelist gets no challenge and is never accepted.
pub proof fn unknown_peer_is_refused(
    m: GuardModel,
    peer: Seq<u8>,
    nonce: Seq<u8>,
    signature: Seq<u8>,
    timestamp: u64,
    now: u64,
)
    requires
        !m.whitelist.contains_key(peer),
    ensures
        m.after_issue(peer, nonce, now) == m,
        !m.accepts(peer, signature, timestamp, now),
        m.session_roles(peer) is None,
{
}

/// A peer of the whitelist that signs its challenge in time with the key its id
/// holds is accepted, and then has the roles of the whitelist.
pub proof fn honest_answer_is_accepted(
    m: GuardModel,
    peer: Seq<u8>,
    nonce: Seq<u8>,
    issued: u64,
    key: Seq<u8>,
    signature: Seq<u8>,
    timestamp: u64,
    now: u64,
)
    requires
        m.whitelist.contains_key(peer),
        crate::peer::peer_public_key(peer) == Some(key),
        crate::peer::signature_valid(
            key,
            crate::protocol::signed_bytes(nonce, timestamp),
            signature,
        ),
        now <= issued + MAX_CLOCK_SKEW_SECS,
        now <= timestamp + MAX_CLOCK_SKEW_SECS,
        timestamp <= now + MAX_CLOCK_SKEW_SECS,
    ensures
        m.after_issue(peer, nonce, issued).accepts(peer, signature, timestamp, now),
        m.after_issue(peer, nonce, issued).after_verify(
            peer,
            signature,
            timestamp,
            now,
        ).session_roles(peer) == Some(m.whitelist[peer]),
{
}

/// A revocation takes effect at once: the peer has no role, no challenge and no
/// accepted answer, though its connection may still be open.
pub proof fn revocation_is_immediate(
    m: GuardModel,
    peer: Seq<u8>,
    nonce: Seq<u8>,
    signature: Seq<u8>,
    timestamp: u64,
    now: u64,
)
    ensures
        m.after_revoke(peer).session_roles(peer) is None,
        m.after_revoke(peer).after_issue(peer, nonce, now) == m.after_revoke(peer),
        !m.after_revoke(peer).accepts(peer, signature, timestamp, now),
{
}

/// A change of the whitelist is seen by the sessions in progress: their roles
/// are those of the list now, not those of the authentication.
pub proof fn session_roles_follow_the_whitelist(
    m: GuardModel,
    peer: Seq<u8>,
    roles: Seq<Seq<char>>,
)
    requires
        m.sessions.contains_key(peer),
    ensures
        (GuardModel { whitelist: m.whitelist.insert(peer, roles), ..m }).session_roles(peer)
            == Some(roles),
        (GuardModel { whitelist: m.whitelist.remove(peer), ..m }).session_roles(peer) is None,
{
}

/// Nothing but an accepted answer of the peer itself opens a session for it.
pub proof fn sessions_come_from_accepted_answers(
    m: GuardModel,
    peer: Seq<u8>,
    other: Seq<u8>,
    nonce: Seq<u8>,
    signature: Seq<u8>,
    timestamp: u64,
    now: u64,
)
    requires
        !m.sessions.contains_key(other),
    ensures
        !m.after_issue(peer, nonce, now).sessions.contains_key(other),
        !m.after_revoke(peer).sessions.contains_key(other),
        !m.after_end(peer).sessions.contains_key(other),
        m.after_verify(peer, signature, timestamp, now).sessions.contains_key(other) ==> peer
            == other && m.accepts(peer, signature, timestamp, now),
{
}

/// The peers with a challenge are always peers that the whitelist held: a
/// challenge adds one peer at most, and only one of the list.
pub proof fn challenges_are_bounded_by_the_whitelist(
    m: GuardModel,
    peer: Seq<u8>,
    nonce: Seq<u8>,
    signature: Seq<u8>,
    timestamp: u64,
    now: u64,
)
    requires
        m.pending.dom().subset_of(m.whitelist.dom()),
    ensures
        m.after_issue(peer, nonce, now).pending.dom().subset_of(m.whitelist.dom()),
        m.after_verify(peer, signature, timestamp, now).pending.dom().subset_of(m.whitelist.dom()),
        m.after_end(peer).pending.dom().subset_of(m.whitelist.dom()),
        m.after_revoke(peer).pending.dom().subset_of(m.after_revoke(peer).whitelist.dom()),
{
}

/// An answer is accepted, whatever tells that it is well signed, exactly if the peer awaits it, is
/// in the whitelist, and gives it and dates it within five seconds.
pub proof fn answer_is_accepted_exactly_in_time(
    m: GuardModel,
    peer: Seq<u8>,
    timestamp: u64,
    now: u64,
    signed: bool,
)
    ensures
        m.accepts_signed(peer, timestamp, now, signed) <==> signed && m.pending.contains_key(peer)
            && m.whitelist.contains_key(peer) && now - m.pending[peer].1 <= 5 && now - timestamp
            <= 5 && timestamp - now <= 5,
{
}

/// A peer has roles exactly while it has a session and is in the whitelist: those that the
/// whitelist gives it now.
pub proof fn session_has_the_roles_of_the_whitelist(m: GuardModel, peer: Seq<u8>)
    ensures
        m.session_roles(peer) == if m.sessions.contains_key(peer) && m.whitelist.contains_key(
            peer,
        ) {
            Some(m.whitelist[peer])
        } else {
            None
        },
{
}

/// The end of a session takes the session and the challenge of the peer away, and leaves the
/// whitelist and the other peers alone: the peer may authenticate again.
pub proof fn end_of_a_session_concerns_its_peer(m: GuardModel, peer: Seq<u8>, other: Seq<u8>)
    requires
        peer != other,
    ensures
        m.after_end(peer).session_roles(peer) is None,
        !m.after_end(peer).pending.contains_key(peer),
        !m.after_end(peer).sessions.contains_key(peer),
        m.after_end(peer).whitelist == m.whitelist,
        m.after_end(peer).session_roles(other) == m.session_roles(other),
        m.after_end(peer).sessions.contains_key(other) == m.sessions.contains_key(other),
        m.after_end(peer).pending.contains_key(other) == m.pending.contains_key(other),
        m.pending.contains_key(other) ==> m.after_end(peer).pending[other] == m.pending[other],
{
}

/// A challenge or an answer of a peer leaves the others alone, and the whitelist as it is.
pub proof fn others_are_left_alone(
    m: GuardModel,
    peer: Seq<u8>,
    other: Seq<u8>,
    nonce: Seq<u8>,
    signature: Seq<u8>,
    timestamp: u64,
    now: u64,
)
    requires
        peer != other,
    ensures
        m.after_issue(peer, nonce, now).whitelist == m.whitelist,
        m.after_issue(peer, nonce, now).sessions == m.sessions,
        m.after_issue(peer, nonce, now).pending.contains_key(other) == m.pending.contains_key(
            other,
        ),
        m.pending.contains_key(other) ==> m.after_issue(peer, nonce, now).pending[other]
            == m.pending[other],
        m.after_verify(peer, signature, timestamp, now).whitelist == m.whitelist,
        m.after_verify(peer, signature, timestamp, now).session_roles(other) == m.session_roles(
            other,
        ),
        m.after_verify(peer, signature, timestamp, now).pending.contains_key(other)
            == m.pending.contains_key(other),
        m.pending.contains_key(other) ==> m.after_verify(peer, signature, timestamp, now).pending[other]
            == m.pending[other],
        m.after_revoke(peer).session_roles(other) == m.session_roles(other),
        m.after_revoke(peer).whitelist.contains_key(other) == m.whitelist.contains_key(other),
{
}

} // verus!
