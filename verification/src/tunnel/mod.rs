//! Peer-to-peer TCP tunnels.
//!
//! A Client intercepts local connections and relays them, over a dedicated
//! encrypted stream `/nux/tunnel/1.0.0`, to the Guard, which injects them into the
//! exposed local service.
//!
//! 1. the Client opens a stream and sends a
//!    [`TunnelHeader`](crate::protocol::TunnelHeader): the logical name of the
//!    service, in a frame bounded to
//!    [`MAX_TUNNEL_HEADER_SIZE`](crate::protocol::MAX_TUNNEL_HEADER_SIZE);
//! 2. the Guard looks at the header only if the peer has an authenticated session;
//!    the service must be in its [`TunnelRegistry`] and the session must hold the
//!    required role;
//! 3. on success the Guard connects to the local service, acknowledges by one byte
//!    and relays the bytes both ways;
//! 4. any anomaly drops the stream without a byte of answer.

pub mod forward;
pub mod gate;
pub mod laws;
pub mod serve;

pub use forward::{forward_listener, forward_unix_listener, ForwardAction, ForwardEvent};
pub use gate::{GateRefusal, StreamGate, StreamPermit};
pub use serve::{ServeAction, ServeEvent, ServeState};

use vstd::prelude::*;
use vstd::slice::slice_subrange;
use vstd::string::StringExecFns;
use crate::addr::SocketAddr;
use crate::bytes::constant_time_eq;
use crate::error::{NuxError, Result};
use crate::peer::PeerId;
use crate::protocol::{
    decode,
    encode,
    HeaderModel,
    TunnelHeader,
    Wire,
    MAX_MESSAGE_SIZE,
    MAX_TUNNEL_HEADER_SIZE,
    TUNNEL_ACK,
};
use crate::table::{PeerTable, Table};
use crate::text::{push_decimal, push_hex_byte};

verus! {

/// How long the peer has to send its header once the stream is open, in
/// milliseconds.
pub const HEADER_TIMEOUT_MS: u64 = 5_000;

/// Concurrent tunnel streams of one peer, by default.
pub const DEFAULT_MAX_STREAMS_PER_PEER: usize = 64;

/// Concurrent tunnel streams of all peers, by default.
pub const DEFAULT_MAX_STREAMS_TOTAL: usize = 1024;

/// Outcome of the service of a tunnel stream, for the counters only: whatever the
/// reason of a refusal, nothing more goes to the peer.
#[derive(Debug, Clone, Copy, PartialEq, Eq, Structural)]
pub enum TunnelOutcome {
    /// Dropped before it was established.
    Denied,
    /// Established (acknowledged), then relayed until it closed.
    Served {
        /// Bytes received from the peer and relayed to the local service.
        bytes_from_peer: u64,
        /// Bytes received from the local service and relayed to the peer.
        bytes_to_peer: u64,
    },
}

/// Local service exposed by a Guard.
struct ExposedService {
    /// Where the bytes are injected.
    target: SocketAddr,
    /// Role required of the session; `None` admits any authenticated peer.
    required_role: Option<String>,
}

/// Content of a [`TunnelRegistry`].
#[verifier::ext_equal]
pub struct RegistryModel {
    /// Target and required role of each exposed service.
    pub services: Map<Seq<char>, (SocketAddr, Option<Seq<char>>)>,
    /// Concurrent streams of one peer.
    pub max_streams_per_peer: usize,
    /// Concurrent streams of all peers.
    pub max_streams_total: usize,
    /// Fingerprint expected of the executable of each attested peer.
    pub attested: Map<Seq<u8>, Seq<u8>>,
}

/// Whether a required role is among the granted ones.
pub open spec fn role_ok(granted: Seq<Seq<char>>, required: Option<Seq<char>>) -> bool {
    match required {
        Some(role) => granted.contains(role),
        None => true,
    }
}

impl RegistryModel {
    /// Where the stream of an authenticated peer goes: to the target of the
    /// service it names, if the service is exposed, the session holds the role it
    /// requires, and the declared fingerprint is the one expected of the peer, if
    /// one is.
    pub open spec fn target(
        self,
        peer: Seq<u8>,
        roles: Seq<Seq<char>>,
        header: HeaderModel,
    ) -> Option<SocketAddr> {
        if self.services.contains_key(header.service) && role_ok(
            roles,
            self.services[header.service].1,
        ) && (self.attested.contains_key(peer) ==> self.attested[peer] == header.binary_sha256) {
            Some(self.services[header.service].0)
        } else {
            None
        }
    }
}

/// Services that a Guard agrees to tunnel, with the limits on concurrent streams
/// and the fingerprints expected of the peers.
///
/// A service has a logical name, known to the Client, and a local address, known
/// to the Guard only.
pub struct TunnelRegistry {
    services: Table<String, ExposedService>,
    max_streams_per_peer: usize,
    max_streams_total: usize,
    attested: PeerTable<[u8; 32]>,
}

impl View for TunnelRegistry {
    type V = RegistryModel;

    closed spec fn view(&self) -> RegistryModel {
        RegistryModel {
            services: self.services@.map_values(
                |s: ExposedService|
                    (s.target, crate::text::opt_text(s.required_role)),
            ),
            max_streams_per_peer: self.max_streams_per_peer,
            max_streams_total: self.max_streams_total,
            attested: self.attested@.map_values(|h: [u8; 32]| h@),
        }
    }
}

impl Default for TunnelRegistry {
    fn default() -> (r: Self)
        ensures
            r.wf(),
            r@ == (RegistryModel {
                services: Map::empty(),
                max_streams_per_peer: DEFAULT_MAX_STREAMS_PER_PEER,
                max_streams_total: DEFAULT_MAX_STREAMS_TOTAL,
                attested: Map::empty(),
            }),
    {
        TunnelRegistry::new()
    }
}

impl TunnelRegistry {
    /// No service and no peer occurs twice.
    pub closed spec fn wf(self) -> bool {
        self.services.wf() && self.attested.wf()
    }

    /// An empty registry: every stream is dropped.
    pub fn new() -> (r: Self)
        ensures
            r.wf(),
            r@ == (RegistryModel {
                services: Map::empty(),
                max_streams_per_peer: DEFAULT_MAX_STREAMS_PER_PEER,
                max_streams_total: DEFAULT_MAX_STREAMS_TOTAL,
                attested: Map::empty(),
            }),
    {
        let r = TunnelRegistry {
            services: Table::new(),
            max_streams_per_peer: DEFAULT_MAX_STREAMS_PER_PEER,
            max_streams_total: DEFAULT_MAX_STREAMS_TOTAL,
            attested: Table::new(),
        };
        assert(r@.services =~= Map::<Seq<char>, (SocketAddr, Option<Seq<char>>)>::empty());
        assert(r@.attested =~= Map::<Seq<u8>, Seq<u8>>::empty());
        r
    }

    /// Sets the limits on concurrent streams (per peer, then overall). Zero forbids
    /// every tunnel.
    pub fn max_concurrent_streams(&mut self, per_peer: usize, total: usize) -> (r: &mut Self)
        requires
            old(self).wf(),
        ensures
            r.wf(),
            r@ == (RegistryModel {
                max_streams_per_peer: per_peer,
                max_streams_total: total,
                ..old(self)@
            }),
            *final(self) == *final(r),
    {
        self.max_streams_per_peer = per_peer;
        self.max_streams_total = total;
        self
    }

    /// Concurrent streams of one peer.
    pub fn max_streams_per_peer(&self) -> (r: usize)
        ensures
            r == self@.max_streams_per_peer,
    {
        self.max_streams_per_peer
    }

    /// Concurrent streams of all peers.
    pub fn max_streams_total(&self) -> (r: usize)
        ensures
            r == self@.max_streams_total,
    {
        self.max_streams_total
    }

    /// Exposes the service `name` at `target`. `required_role` restricts it to the
    /// sessions with that role; `None` admits any authenticated peer.
    pub fn expose(
        &mut self,
        name: String,
        target: SocketAddr,
        required_role: Option<String>,
    ) -> (r: &mut Self)
        requires
            old(self).wf(),
        ensures
            r.wf(),
            r@ == (RegistryModel {
                services: old(self)@.services.insert(
                    name@,
                    (target, crate::text::opt_text(required_role)),
                ),
                ..old(self)@
            }),
            *final(self) == *final(r),
    {
        let ghost before = self@;
        let ghost key = name@;
        let ghost value = (target, crate::text::opt_text(required_role));
        self.services.insert(name, ExposedService { target, required_role });
        assert(self@.services =~= before.services.insert(key, value));
        self
    }

    /// Number of exposed services.
    pub fn len(&self) -> (r: usize)
        requires
            self.wf(),
        ensures
            r == self@.services.len(),
            self@.services.dom().finite(),
    {
        assert(self@.services.dom() =~= self.services@.dom());
        self.services.len()
    }

    /// Whether no service is exposed.
    pub fn is_empty(&self) -> (r: bool)
        requires
            self.wf(),
        ensures
            r == (self@.services.len() == 0),
    {
        self.len() == 0
    }

    /// Sets the SHA-256 expected of the executable of `peer`. A peer without one is
    /// not checked.
    pub fn require_binary_sha256(&mut self, peer: PeerId, sha256: [u8; 32]) -> (r: &mut Self)
        requires
            old(self).wf(),
        ensures
            r.wf(),
            r@ == (RegistryModel {
                attested: old(self)@.attested.insert(peer@, sha256@),
                ..old(self)@
            }),
            *final(self) == *final(r),
    {
        let ghost before = self@;
        let ghost p = peer@;
        self.attested.insert(peer, sha256);
        assert(self@.attested =~= before.attested.insert(p, sha256@));
        self
    }

    /// Decides on the stream of an authenticated peer: where it goes, or `None` for
    /// a refusal.
    pub fn resolve(&self, peer: &PeerId, roles: &Vec<String>, header: &TunnelHeader) -> (r: Option<
        SocketAddr,
    >)
        requires
            self.wf(),
        ensures
            r == self@.target(peer@, crate::protocol::texts(roles@), header@),
            r is Some <==> {
                &&& self@.services.contains_key(header@.service)
                &&& self@.services[header@.service].1 matches Some(role) ==> exists|i: int|
                    0 <= i < roles@.len() && (#[trigger] roles@[i])@ == role
                &&& self@.attested.contains_key(peer@) ==> self@.attested[peer@]
                    == header@.binary_sha256
            },
            r matches Some(target) ==> target == self@.services[header@.service].0,
    {
        proof {
            lemma_roles(crate::protocol::texts(roles@), roles@);
        }
        let service = match self.services.get(&header.service) {
            Some(service) => service,
            None => {
                return None;
            },
        };
        let required = match &service.required_role {
            Some(role) => Some(role.as_str()),
            None => None,
        };
        if !role_granted(roles, required) {
            return None;
        }
        match self.attested.get(peer) {
            Some(expected) => {
                if !constant_time_eq(header.binary_sha256.as_slice(), expected.as_slice()) {
                    return None;
                }
            },
            None => {},
        }
        Some(service.target)
    }
}

proof fn lemma_roles(texts: Seq<Seq<char>>, roles: Seq<String>)
    requires
        texts == crate::protocol::texts(roles),
    ensures
        forall|role: Seq<char>| #[trigger]
            role_ok(texts, Some(role)) <==> exists|i: int|
                0 <= i < roles.len() && (#[trigger] roles[i])@ == role,
{
    assert forall|role: Seq<char>| #[trigger]
        role_ok(texts, Some(role)) <==> exists|i: int|
            0 <= i < roles.len() && (#[trigger] roles[i])@ == role by {
        crate::tunnel::laws::role_is_granted_by_membership(texts, role);
        if role_ok(texts, Some(role)) {
            let i = choose|i: int| 0 <= i < texts.len() && #[trigger] texts[i] == role;
            assert(roles[i]@ == role);
        }
        if exists|i: int| 0 <= i < roles.len() && (#[trigger] roles[i])@ == role {
            let i = choose|i: int| 0 <= i < roles.len() && (#[trigger] roles[i])@ == role;
            assert(texts[i] == role);
        }
    }
}

/// Whether a required role is among the roles of a session. Every role is read,
/// without an early exit, and compared in constant time.
pub fn role_granted(granted: &Vec<String>, required: Option<&str>) -> (r: bool)
    ensures
        r == role_ok(
            crate::protocol::texts(granted@),
            match required {
                Some(role) => Some(role@),
                None => None,
            },
        ),
        match required {
            Some(role) => r <==> exists|i: int|
                0 <= i < granted@.len() && (#[trigger] granted@[i])@ == role@,
            None => r,
        },
{
    let role = match required {
        Some(role) => role,
        None => {
            return true;
        },
    };
    let mut authorized = false;
    let mut i: usize = 0;
    while i < granted.len()
        invariant
            i <= granted@.len(),
            authorized <==> exists|j: int| 0 <= j < i && (#[trigger] granted@[j])@ == role@,
        decreases granted@.len() - i,
    {
        let candidate = granted[i].as_str();
        let matches = candidate.as_bytes().len() == role.as_bytes().len() && constant_time_eq(
            candidate.as_bytes(),
            role.as_bytes(),
        );
        proof {
            vstd::utf8::encode_utf8_decode_utf8(candidate@);
            vstd::utf8::encode_utf8_decode_utf8(role@);
            assert(matches <==> granted@[i as int]@ == role@);
        }
        if matches {
            authorized = true;
        }
        i += 1;
    }
    proof {
        let t = crate::protocol::texts(granted@);
        if authorized {
            let j = choose|j: int| 0 <= j < granted@.len() && (#[trigger] granted@[j])@ == role@;
            assert(t[j] == role@);
        }
        if t.contains(role@) {
            let j = choose|j: int| 0 <= j < t.len() && t[j] == role@;
            assert(granted@[j]@ == role@);
        }
    }
    authorized
}

/// The fingerprint that a peer declares is checked only where one is expected of it:
/// without one, whatever it declares leads to the same outcome.
pub proof fn unattested_peer_is_not_checked(
    registry: RegistryModel,
    peer: Seq<u8>,
    roles: Seq<Seq<char>>,
    declared: HeaderModel,
    other: HeaderModel,
)
    requires
        !registry.attested.contains_key(peer),
        declared.service == other.service,
    ensures
        registry.target(peer, roles, declared) == registry.target(peer, roles, other),
{
}

/// The two bytes of an integer, most significant first.
pub open spec fn be16(n: u16) -> Seq<u8> {
    seq![(n / 256) as u8, (n % 256) as u8]
}

/// The frame that opens a tunnel: the length of the header, then the header.
pub open spec fn header_frame(header: HeaderModel) -> Seq<u8> {
    let w = TunnelHeader::wire(header);
    be16(w.len() as u16) + w
}

/// The length announced by the two bytes that start a frame.
pub open spec fn announced(prefix: Seq<u8>) -> nat {
    (prefix[0] * 256 + prefix[1]) as nat
}

/// The header that a frame holds.
pub open spec fn header_of_frame(frame: Seq<u8>) -> Option<HeaderModel> {
    if frame.len() < 2 || announced(frame) > MAX_TUNNEL_HEADER_SIZE || frame.len() < 2 + announced(
        frame,
    ) {
        None
    } else {
        TunnelHeader::parsed(frame.subrange(2, 2 + announced(frame) as int))
    }
}

/// Why a frame holds no header.
pub open spec fn frame_error(frame: Seq<u8>) -> Seq<char> {
    if frame.len() < 2 {
        "early eof"@
    } else if announced(frame) > MAX_TUNNEL_HEADER_SIZE {
        "en-tête de tunnel trop long"@
    } else if frame.len() < 2 + announced(frame) {
        "early eof"@
    } else {
        TunnelHeader::refusal(frame.subrange(2, 2 + announced(frame) as int))
    }
}

/// Builds the frame that opens a tunnel: the length as a big-endian `u16`, then the
/// header. A header that is too long is refused before anything is sent.
pub fn write_header(header: &TunnelHeader) -> (r: Result<Vec<u8>>)
    ensures
        ({
            let n = TunnelHeader::wire(header@).len();
            &&& n <= MAX_TUNNEL_HEADER_SIZE ==> (r matches Ok(b) && b@ == header_frame(header@))
            &&& MAX_TUNNEL_HEADER_SIZE < n <= MAX_MESSAGE_SIZE ==> (r matches Err(NuxError::Tunnel(
                m,
            )) && m@ == "en-tête de tunnel trop long ("@ + crate::text::decimal(n)
                + " octets, max 1024)"@)
            &&& n > MAX_MESSAGE_SIZE ==> (r matches Err(NuxError::Io(m)) && m@
                == "the size limit has been reached"@)
        }),
{
    let bytes = match encode(header) {
        Ok(bytes) => bytes,
        Err(e) => {
            return Err(NuxError::Io(e.message()));
        },
    };
    let len: usize = bytes.len();
    if len > MAX_TUNNEL_HEADER_SIZE {
        let mut message = "en-tête de tunnel trop long (".to_owned();
        push_decimal(&mut message, len as u64);
        message.append(" octets, max 1024)");
        return Err(NuxError::Tunnel(message));
    }
    let mut frame: Vec<u8> = Vec::new();
    frame.push((len / 256) as u8);
    frame.push((len % 256) as u8);
    let mut body = bytes;
    frame.append(&mut body);
    assert(frame@ =~= header_frame(header@));
    Ok(frame)
}

/// How many bytes of header follow the two bytes that start a frame, or an error if
/// they are too many: nothing more is read then.
pub fn header_len(prefix: [u8; 2]) -> (r: Result<usize>)
    ensures
        announced(prefix@) <= MAX_TUNNEL_HEADER_SIZE ==> (r matches Ok(n) && n == announced(
            prefix@,
        )),
        announced(prefix@) > MAX_TUNNEL_HEADER_SIZE ==> (r matches Err(NuxError::Io(m)) && m@
            == "en-tête de tunnel trop long"@),
{
    let len: usize = prefix[0] as usize * 256 + prefix[1] as usize;
    if len > MAX_TUNNEL_HEADER_SIZE {
        return Err(NuxError::Io("en-tête de tunnel trop long".to_owned()));
    }
    Ok(len)
}

/// Reads the header of a frame. What [`write_header`] built is read back.
pub fn read_header(frame: &[u8]) -> (r: Result<TunnelHeader>)
    ensures
        r is Ok <==> header_of_frame(frame@) is Some,
        r matches Ok(h) ==> header_of_frame(frame@) == Some(h@),
        r matches Err(e) ==> (e matches NuxError::Io(m) && m@ == frame_error(frame@)),
        forall|h: HeaderModel|
            h.binary_sha256.len() == 32 && TunnelHeader::wire(h).len() <= MAX_TUNNEL_HEADER_SIZE
                && frame@ == #[trigger] header_frame(h) ==> (r matches Ok(v) && v@ == h),
{
    if frame.len() < 2 {
        return Err(NuxError::Io("early eof".to_owned()));
    }
    let len: usize = match header_len([frame[0], frame[1]]) {
        Ok(len) => len,
        Err(e) => {
            return Err(e);
        },
    };
    if frame.len() - 2 < len {
        return Err(NuxError::Io("early eof".to_owned()));
    }
    let body = slice_subrange(frame, 2, 2 + len);
    proof {
        assert forall|h: HeaderModel|
            h.binary_sha256.len() == 32 && TunnelHeader::wire(h).len() <= MAX_TUNNEL_HEADER_SIZE
                && frame@ == #[trigger] header_frame(h) implies body@ == TunnelHeader::wire(h) by {
            let w = TunnelHeader::wire(h);
            assert(announced(frame@) == w.len());
            assert(body@ =~= w);
        }
    }
    match decode::<TunnelHeader>(body) {
        Ok(header) => Ok(header),
        Err(e) => Err(NuxError::Io(e.message())),
    }
}

/// What the reply of the Guard means to the Client that opens a tunnel. `None`
/// stands for a stream that ended: the Guard never sends a refusal, so that every
/// reason looks the same.
pub fn ack_outcome(reply: Option<u8>) -> (r: Result<()>)
    ensures
        match reply {
            None => r matches Err(NuxError::AccessDenied),
            Some(b) => if b == TUNNEL_ACK {
                r is Ok
            } else {
                r matches Err(NuxError::Protocol(m)) && m@
                    == "acquittement de tunnel inattendu: 0x"@ + crate::text::hex_byte(b)
            },
        },
{
    match reply {
        None => Err(NuxError::AccessDenied),
        Some(b) => {
            if b == TUNNEL_ACK {
                Ok(())
            } else {
                let mut message = "acquittement de tunnel inattendu: 0x".to_owned();
                push_hex_byte(&mut message, b);
                Err(NuxError::Protocol(message))
            }
        },
    }
}

/// Whether the user of a local connection, as the kernel reports it, is in the
/// list. `None` stands for credentials that cannot be read. An empty list refuses
/// everyone.
pub fn peer_uid_authorized(uid: Option<u32>, allowed_uids: &Vec<u32>) -> (r: bool)
    ensures
        r == match uid {
            Some(u) => allowed_uids@.contains(u),
            None => false,
        },
{
    let user: u32 = match uid {
        Some(u) => u,
        None => {
            return false;
        },
    };
    let mut i: usize = 0;
    while i < allowed_uids.len()
        invariant
            i <= allowed_uids@.len(),
            uid == Some(user),
            forall|j: int| 0 <= j < i ==> allowed_uids@[j] != user,
        decreases allowed_uids@.len() - i,
    {
        if allowed_uids[i] == user {
            return true;
        }
        i += 1;
    }
    false
}

} // verus!
