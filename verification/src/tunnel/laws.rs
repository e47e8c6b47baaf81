//! Laws of the tunnel streams: who is admitted where, and what becomes of a stream.

use vstd::prelude::*;
use crate::addr::SocketAddr;
use crate::protocol::{HeaderModel, TunnelHeader, Wire};
use crate::tunnel::gate::GateModel;
use crate::tunnel::serve::{ServeAction, ServeEventModel, ServeState};
use crate::tunnel::{RegistryModel, TunnelOutcome};

verus! {

/// The stream of a peer goes to the service it names, if that service is exposed, if the role
/// it requires is one of those of the session, at whatever place in the list, and if the
/// declared fingerprint is the one expected of the peer, where one is expected.
pub proof fn authorised_stream_reaches_its_service(
    registry: RegistryModel,
    peer: Seq<u8>,
    roles: Seq<Seq<char>>,
    header: HeaderModel,
    target: SocketAddr,
    required: Option<Seq<char>>,
)
    requires
        registry.services.contains_key(header.service),
        registry.services[header.service] == (target, required),
        required matches Some(role) ==> exists|i: int|
            0 <= i < roles.len() && #[trigger] roles[i] == role,
        registry.attested.contains_key(peer) ==> registry.attested[peer] == header.binary_sha256,
    ensures
        registry.target(peer, roles, header) == Some(target),
        crate::tunnel::serve::serve_step(
            ServeState::AwaitingHeader,
            registry,
            peer,
            roles,
            ServeEventModel::HeaderRead(header),
        ) == (ServeState::Connecting, ServeAction::Connect(target)),
{
}

/// Nothing else is admitted: neither a service that is not exposed, nor a session without the
/// required role, nor another fingerprint than the expected one.
pub proof fn unauthorised_stream_is_dropped(
    registry: RegistryModel,
    peer: Seq<u8>,
    roles: Seq<Seq<char>>,
    header: HeaderModel,
)
    requires
        !registry.services.contains_key(header.service) || (
        registry.services[header.service].1 matches Some(role) && forall|i: int|
            0 <= i < roles.len() ==> #[trigger] roles[i] != role) || (
        registry.attested.contains_key(peer) && registry.attested[peer] != header.binary_sha256),
    ensures
        registry.target(peer, roles, header) is None,
        crate::tunnel::serve::serve_step(
            ServeState::AwaitingHeader,
            registry,
            peer,
            roles,
            ServeEventModel::HeaderRead(header),
        ) == (ServeState::Closed, ServeAction::Finish(TunnelOutcome::Denied)),
{
}

/// A role is granted if and only if it is one of the list, wherever it stands; where none is
/// required, it is granted to every list.
pub proof fn role_is_granted_by_membership(roles: Seq<Seq<char>>, role: Seq<char>)
    ensures
        crate::tunnel::role_ok(roles, None),
        crate::tunnel::role_ok(roles, Some(role)) <==> exists|i: int|
            0 <= i < roles.len() && #[trigger] roles[i] == role,
{
}

/// A stream that is admitted is served to its end: the service is reached, the peer gets the
/// acknowledgement, the bytes are relayed, and their numbers are reported as they are.
pub proof fn admitted_stream_is_served(
    registry: RegistryModel,
    peer: Seq<u8>,
    roles: Seq<Seq<char>>,
    from_peer: u64,
    to_peer: u64,
)
    ensures
        crate::tunnel::serve::serve_step(
            ServeState::Connecting,
            registry,
            peer,
            roles,
            ServeEventModel::Connected,
        ) == (ServeState::Acknowledging, ServeAction::SendAck),
        crate::tunnel::serve::serve_step(
            ServeState::Acknowledging,
            registry,
            peer,
            roles,
            ServeEventModel::AckSent,
        ) == (ServeState::Relaying, ServeAction::Relay),
        crate::tunnel::serve::serve_step(
            ServeState::Relaying,
            registry,
            peer,
            roles,
            ServeEventModel::RelayEnded(from_peer, to_peer),
        ) == (
            ServeState::Closed,
            ServeAction::Finish(
                TunnelOutcome::Served { bytes_from_peer: from_peer, bytes_to_peer: to_peer },
            ),
        ),
{
}

/// Any other event closes the stream at once and without a byte: as refused before the relay,
/// as served without a known number of bytes during it.
pub proof fn anomaly_closes_the_stream(
    state: ServeState,
    registry: RegistryModel,
    peer: Seq<u8>,
    roles: Seq<Seq<char>>,
    event: ServeEventModel,
)
    requires
        !(state == ServeState::AwaitingHeader && event is HeaderRead),
        !(state == ServeState::Connecting && event is Connected),
        !(state == ServeState::Acknowledging && event is AckSent),
        !(state == ServeState::Relaying && event is RelayEnded),
    ensures
        crate::tunnel::serve::serve_step(state, registry, peer, roles, event) == (
            ServeState::Closed,
            ServeAction::Finish(
                if state == ServeState::Relaying {
                    TunnelOutcome::Served { bytes_from_peer: 0, bytes_to_peer: 0 }
                } else {
                    TunnelOutcome::Denied
                },
            ),
        ),
{
}

/// A new stream gets a permit exactly if the peer has fewer streams than a peer may have, and
/// all peers together fewer than they may have. It then counts once for the peer and once
/// overall; a refused one counts nowhere.
pub proof fn permit_is_given_where_there_is_room(m: GateModel, peer: Seq<u8>)
    requires
        m.within_limits(),
    ensures
        ({
            let used = if m.peers.contains_key(peer) {
                m.peers[peer].1 as int
            } else {
                0
            };
            let after = m.after_acquire(peer);
            let granted = used < m.max_per_peer && m.in_use < m.max_total;
            &&& m.grants(peer) == granted
            &&& after.peers.contains_key(peer)
            &&& after.peers[peer].1 == used + if granted {
                1int
            } else {
                0
            }
            &&& after.in_use == m.in_use + if granted {
                1int
            } else {
                0
            }
            &&& m.peers.contains_key(peer) ==> after.peers[peer].0 == m.peers[peer].0
                && after.next_account == m.next_account
            &&& !m.peers.contains_key(peer) ==> after.peers[peer].0 == m.next_account
            &&& after.max_per_peer == m.max_per_peer
            &&& after.max_total == m.max_total
            &&& m.account(peer).0 == after.peers[peer].0
        }),
{
}

/// A permit that is given back frees one stream overall, and one of the peer unless the peer
/// was forgotten since: its new account owes nothing for the old one.
pub proof fn permit_given_back_frees_a_stream(m: GateModel, peer: Seq<u8>, account: u64)
    ensures
        ({
            let after = m.after_release(peer, account);
            &&& m.in_use > 0 ==> after.in_use == m.in_use - 1
            &&& m.in_use == 0 ==> after.in_use == 0
            &&& after.peers.contains_key(peer) == m.peers.contains_key(peer)
            &&& m.peers.contains_key(peer) && m.peers[peer].0 == account && m.peers[peer].1 > 0
                ==> after.peers[peer] == (account, (m.peers[peer].1 - 1) as usize)
            &&& m.peers.contains_key(peer) && m.peers[peer].0 != account ==> after.peers[peer]
                == m.peers[peer]
            &&& after.max_per_peer == m.max_per_peer
            &&& after.max_total == m.max_total
            &&& after.next_account == m.next_account
        }),
{
}

/// A peer that is forgotten starts again without any stream of its own; the overall count and
/// the limits stay.
pub proof fn forgotten_peer_starts_again(m: GateModel, peer: Seq<u8>)
    ensures
        !m.after_forget(peer).peers.contains_key(peer),
        m.after_forget(peer).in_use == m.in_use,
        m.after_forget(peer).max_per_peer == m.max_per_peer,
        m.after_forget(peer).max_total == m.max_total,
        m.after_forget(peer).next_account == m.next_account,
        m.max_per_peer > 0 && m.in_use < m.max_total ==> m.after_forget(peer).grants(peer),
{
}

/// The frame of a header is the number of its bytes, most significant first, then these bytes;
/// and the header is read back from its frame, whatever follows it.
pub proof fn header_is_read_back_from_its_frame(h: HeaderModel, tail: Seq<u8>)
    requires
        h.binary_sha256.len() == 32,
        TunnelHeader::wire(h).len() <= 1024,
    ensures
        crate::tunnel::header_frame(h).len() == 2 + TunnelHeader::wire(h).len(),
        crate::tunnel::header_frame(h)[0] * 256 + crate::tunnel::header_frame(h)[1]
            == TunnelHeader::wire(h).len(),
        crate::tunnel::header_frame(h).skip(2) == TunnelHeader::wire(h),
        crate::tunnel::header_of_frame(crate::tunnel::header_frame(h) + tail) == Some(h),
{
    let w = TunnelHeader::wire(h);
    let frame = crate::tunnel::header_frame(h);
    let whole = frame + tail;
    assert(frame.skip(2) =~= w);
    assert(whole[0] == frame[0] && whole[1] == frame[1]);
    assert(crate::tunnel::announced(whole) == w.len());
    assert(whole.subrange(2, 2 + w.len() as int) =~= w);
    TunnelHeader::read_back(h, Seq::empty());
    assert(w + Seq::<u8>::empty() =~= w);
}

/// A frame is refused if it announces more bytes than a header may have, or holds fewer than
/// it announces; nothing beyond what it announces matters.
pub proof fn bad_frame_holds_no_header(frame: Seq<u8>)
    ensures
        frame.len() < 2 ==> crate::tunnel::header_of_frame(frame) is None,
        frame.len() >= 2 && frame[0] * 256 + frame[1] > 1024 ==> crate::tunnel::header_of_frame(
            frame,
        ) is None,
        frame.len() >= 2 && frame.len() < 2 + frame[0] * 256 + frame[1]
            ==> crate::tunnel::header_of_frame(frame) is None,
        frame.len() >= 2 && frame[0] * 256 + frame[1] <= 1024 && frame.len() >= 2 + frame[0] * 256
            + frame[1] ==> crate::tunnel::header_of_frame(frame) == TunnelHeader::parsed(
            frame.subrange(2, 2 + frame[0] * 256 + frame[1]),
        ),
{
}

/// The content of an event of a stream is that event.
pub proof fn stream_events_are_taken_as_they_are(event: crate::tunnel::ServeEvent)
    ensures
        match event {
            crate::tunnel::ServeEvent::HeaderRead(h) => event@ == ServeEventModel::HeaderRead(h@),
            crate::tunnel::ServeEvent::HeaderUnreadable => event@ is HeaderUnreadable,
            crate::tunnel::ServeEvent::HeaderTimeout => event@ is HeaderTimeout,
            crate::tunnel::ServeEvent::Connected => event@ is Connected,
            crate::tunnel::ServeEvent::ConnectFailed => event@ is ConnectFailed,
            crate::tunnel::ServeEvent::AckSent => event@ is AckSent,
            crate::tunnel::ServeEvent::AckFailed => event@ is AckFailed,
            crate::tunnel::ServeEvent::RelayEnded(a, b) => event@ == ServeEventModel::RelayEnded(
                a,
                b,
            ),
            crate::tunnel::ServeEvent::RelayBroken => event@ is RelayBroken,
        },
{
}

/// The limits of the tunnels: a header of a kilobyte within five seconds, and by default 64
/// streams for a peer and 1024 for all of them.
pub proof fn tunnel_limits()
    ensures
        crate::protocol::MAX_TUNNEL_HEADER_SIZE == 1024,
        crate::tunnel::HEADER_TIMEOUT_MS == 5_000,
        crate::tunnel::DEFAULT_MAX_STREAMS_PER_PEER == 64,
        crate::tunnel::DEFAULT_MAX_STREAMS_TOTAL == 1024,
        crate::protocol::TUNNEL_ACK == 1,
        crate::protocol::MAX_MESSAGE_SIZE == 65536,
        crate::protocol::NONCE_LEN == 32,
{
}

/// A frame that is cut is reported as cut, one that announces too much as too long, and one whose
/// bytes are no header as what is wrong with these bytes.
pub proof fn frame_error_tells_what_is_wrong(frame: Seq<u8>)
    ensures
        frame.len() < 2 ==> crate::tunnel::frame_error(frame) == "early eof"@,
        frame.len() >= 2 && frame[0] * 256 + frame[1] > 1024 ==> crate::tunnel::frame_error(frame)
            == "en-tête de tunnel trop long"@,
        frame.len() >= 2 && frame[0] * 256 + frame[1] <= 1024 && frame.len() < 2 + frame[0] * 256
            + frame[1] ==> crate::tunnel::frame_error(frame) == "early eof"@,
        frame.len() >= 2 && frame[0] * 256 + frame[1] <= 1024 && frame.len() >= 2 + frame[0] * 256
            + frame[1] ==> crate::tunnel::frame_error(frame) == TunnelHeader::refusal(
            frame.subrange(2, 2 + frame[0] * 256 + frame[1]),
        ),
{
}

} // verus!
