//! Authentication protocol of Nux (`/nux/auth/1.0.0`): the messages of the
//! challenge-response handshake, the header that opens a tunnel, and the binary
//! codec.

pub mod codec;
pub mod display;
pub mod wire;

pub use codec::{decode, encode, CodecError, NuxCodec, Wire, MAX_MESSAGE_SIZE};

use vstd::prelude::*;

verus! {

/// Identifier of the authentication protocol on the multiplexer.
pub const AUTH_PROTOCOL: &'static str = "/nux/auth/1.0.0";

/// Identifier of the tunnel protocol on the multiplexer.
pub const TUNNEL_PROTOCOL: &'static str = "/nux/tunnel/1.0.0";

/// Length of the nonce of a challenge.
pub const NONCE_LEN: usize = 32;

/// Largest header that opens a tunnel, on the wire. The name of a service takes
/// a few dozen bytes: anything larger is an abuse and the stream is dropped.
pub const MAX_TUNNEL_HEADER_SIZE: usize = 1024;

/// Byte sent by the Guard once the tunnel is authorised and the local service
/// reached. A refusal sends nothing at all: this byte exists on the path of
/// success only.
pub const TUNNEL_ACK: u8 = 0x01;

/// The eight bytes of an integer, most significant first.
pub open spec fn be64(n: u64) -> Seq<u8> {
    seq![
        ((n >> 56) & 0xff) as u8,
        ((n >> 48) & 0xff) as u8,
        ((n >> 40) & 0xff) as u8,
        ((n >> 32) & 0xff) as u8,
        ((n >> 24) & 0xff) as u8,
        ((n >> 16) & 0xff) as u8,
        ((n >> 8) & 0xff) as u8,
        (n & 0xff) as u8,
    ]
}

/// The bytes that a challenge-response signature covers: the nonce, then the
/// timestamp.
pub open spec fn signed_bytes(nonce: Seq<u8>, timestamp: u64) -> Seq<u8> {
    nonce + be64(timestamp)
}

/// Builds the bytes of the challenge-response: the nonce followed by the
/// timestamp as a big-endian `u64`. The Client signs exactly these bytes and the
/// Guard verifies the signature over exactly these bytes.
pub fn challenge_payload(nonce: &[u8; 32], timestamp: u64) -> (r: [u8; 40])
    ensures
        r@ == signed_bytes(nonce@, timestamp),
{
    let mut payload: [u8; 40] = [0u8; 40];
    let mut i: usize = 0;
    while i < 32
        invariant
            i <= 32,
            forall|j: int| 0 <= j < i ==> payload@[j] == nonce@[j],
        decreases 32 - i,
    {
        payload[i] = nonce[i];
        i += 1;
    }
    payload[32] = ((timestamp >> 56) & 0xff) as u8;
    payload[33] = ((timestamp >> 48) & 0xff) as u8;
    payload[34] = ((timestamp >> 40) & 0xff) as u8;
    payload[35] = ((timestamp >> 32) & 0xff) as u8;
    payload[36] = ((timestamp >> 24) & 0xff) as u8;
    payload[37] = ((timestamp >> 16) & 0xff) as u8;
    payload[38] = ((timestamp >> 8) & 0xff) as u8;
    payload[39] = (timestamp & 0xff) as u8;
    assert(payload@ =~= signed_bytes(nonce@, timestamp));
    payload
}

/// The eight big-endian bytes determine the integer.
proof fn lemma_be64_injective(a: u64, b: u64)
    requires
        be64(a) == be64(b),
    ensures
        a == b,
{
    let x = be64(a);
    let y = be64(b);
    assert(x[0] == y[0] && x[1] == y[1] && x[2] == y[2] && x[3] == y[3]);
    assert(x[4] == y[4] && x[5] == y[5] && x[6] == y[6] && x[7] == y[7]);
    assert(a == b) by (bit_vector)
        requires
            ((a >> 56) & 0xff) as u8 == ((b >> 56) & 0xff) as u8,
            ((a >> 48) & 0xff) as u8 == ((b >> 48) & 0xff) as u8,
            ((a >> 40) & 0xff) as u8 == ((b >> 40) & 0xff) as u8,
            ((a >> 32) & 0xff) as u8 == ((b >> 32) & 0xff) as u8,
            ((a >> 24) & 0xff) as u8 == ((b >> 24) & 0xff) as u8,
            ((a >> 16) & 0xff) as u8 == ((b >> 16) & 0xff) as u8,
            ((a >> 8) & 0xff) as u8 == ((b >> 8) & 0xff) as u8,
            (a & 0xff) as u8 == (b & 0xff) as u8,
    ;
}

/// The signed bytes determine the nonce and the timestamp: a signature made for
/// one challenge covers no other, and none with another timestamp.
pub proof fn signed_bytes_are_unambiguous(n1: Seq<u8>, t1: u64, n2: Seq<u8>, t2: u64)
    requires
        n1.len() == NONCE_LEN,
        n2.len() == NONCE_LEN,
        signed_bytes(n1, t1) == signed_bytes(n2, t2),
    ensures
        n1 == n2,
        t1 == t2,
{
    let x = signed_bytes(n1, t1);
    let y = signed_bytes(n2, t2);
    assert(x.take(32) =~= n1);
    assert(y.take(32) =~= n2);
    assert(x.skip(32) =~= be64(t1));
    assert(y.skip(32) =~= be64(t2));
    lemma_be64_injective(t1, t2);
}

/// The texts of a list of strings.
pub open spec fn texts(v: Seq<String>) -> Seq<Seq<char>> {
    Seq::new(v.len(), |i: int| v[i]@)
}

/// Copies a list of strings.
pub fn clone_texts(v: &Vec<String>) -> (r: Vec<String>)
    ensures
        texts(r@) == texts(v@),
        r@.len() == v@.len(),
{
    let mut out: Vec<String> = Vec::new();
    let mut i: usize = 0;
    while i < v.len()
        invariant
            i <= v@.len(),
            out@.len() == i,
            forall|j: int| 0 <= j < i ==> out@[j]@ == v@[j]@,
        decreases v@.len() - i,
    {
        out.push(v[i].clone());
        i += 1;
    }
    assert(texts(out@) =~= texts(v@));
    out
}

/// Header that opens a tunnel: the first and only control message of a stream
/// `/nux/tunnel/1.0.0`. Everything after the Guard's acknowledgement is relayed
/// byte by byte.
#[derive(Debug, Clone, PartialEq, Eq)]
pub struct TunnelHeader {
    /// Logical name of the service exposed by the Guard; its real address never
    /// goes on the network.
    pub service: String,
    /// SHA-256 of the Client's executable, as the Client declares it.
    pub binary_sha256: [u8; 32],
}

/// Requests sent by a Client to a Guard.
#[derive(Debug, Clone, PartialEq, Eq)]
pub enum NuxRequest {
    /// Opens the session: the Guard answers by a challenge.
    HandshakeInit,
    /// Answer to the challenge.
    ChallengeAnswer {
        /// Signature of the nonce and of the timestamp by the Client's key.
        signature: Vec<u8>,
        /// Unix time (seconds) of the signature.
        timestamp: u64,
    },
}

/// Answers sent by a Guard. A failed authentication gets no answer at all:
/// `Denied` exists only for polite refusals at a higher level.
#[derive(Debug, Clone, PartialEq, Eq)]
pub enum NuxResponse {
    /// Challenge: a nonce to sign.
    Challenge {
        /// Random nonce, good for one use.
        nonce: [u8; 32],
        /// Unix time (seconds) at which the challenge was issued.
        timestamp: u64,
    },
    /// Authentication succeeded.
    AccessGranted {
        /// Roles of the peer in the whitelist.
        roles: Vec<String>,
    },
    /// High-level refusal, without any detail.
    Denied,
}

/// Content of a [`TunnelHeader`].
pub struct HeaderModel {
    /// Name of the service.
    pub service: Seq<char>,
    /// Declared fingerprint.
    pub binary_sha256: Seq<u8>,
}

/// Content of a [`NuxRequest`].
pub enum RequestModel {
    /// Opens the session.
    HandshakeInit,
    /// Answer to the challenge.
    ChallengeAnswer { signature: Seq<u8>, timestamp: u64 },
}

/// Content of a [`NuxResponse`].
pub enum ResponseModel {
    /// Challenge.
    Challenge { nonce: Seq<u8>, timestamp: u64 },
    /// Authentication succeeded.
    AccessGranted { roles: Seq<Seq<char>> },
    /// High-level refusal.
    Denied,
}

impl View for TunnelHeader {
    type V = HeaderModel;

    open spec fn view(&self) -> HeaderModel {
        HeaderModel { service: self.service@, binary_sha256: self.binary_sha256@ }
    }
}

impl View for NuxRequest {
    type V = RequestModel;

    open spec fn view(&self) -> RequestModel {
        match self {
            NuxRequest::HandshakeInit => RequestModel::HandshakeInit,
            NuxRequest::ChallengeAnswer { signature, timestamp } => RequestModel::ChallengeAnswer {
                signature: signature@,
                timestamp: *timestamp,
            },
        }
    }
}

impl View for NuxResponse {
    type V = ResponseModel;

    open spec fn view(&self) -> ResponseModel {
        match self {
            NuxResponse::Challenge { nonce, timestamp } => ResponseModel::Challenge {
                nonce: nonce@,
                timestamp: *timestamp,
            },
            NuxResponse::AccessGranted { roles } => ResponseModel::AccessGranted {
                roles: texts(roles@),
            },
            NuxResponse::Denied => ResponseModel::Denied,
        }
    }
}

/// The signed bytes are the nonce as it stands, then the time in eight bytes, the most
/// significant first.
pub proof fn signed_bytes_are_the_nonce_and_the_time(nonce: Seq<u8>, t: u64)
    ensures
        signed_bytes(nonce, t).len() == nonce.len() + 8,
        signed_bytes(nonce, t).take(nonce.len() as int) == nonce,
        ({
            let b = signed_bytes(nonce, t).skip(nonce.len() as int);
            &&& b[0] == t / 0x100_0000_0000_0000
            &&& b[1] == t / 0x1_0000_0000_0000 % 256
            &&& b[2] == t / 0x100_0000_0000 % 256
            &&& b[3] == t / 0x1_0000_0000 % 256
            &&& b[4] == t / 0x100_0000 % 256
            &&& b[5] == t / 0x1_0000 % 256
            &&& b[6] == t / 0x100 % 256
            &&& b[7] == t % 256
        }),
{
    let s = signed_bytes(nonce, t);
    let b = s.skip(nonce.len() as int);
    assert(s.take(nonce.len() as int) =~= nonce);
    assert(b =~= be64(t));
    assert((t >> 56) & 0xff == t / 0x100_0000_0000_0000) by (bit_vector);
    assert((t >> 48) & 0xff == t / 0x1_0000_0000_0000 % 256) by (bit_vector);
    assert((t >> 40) & 0xff == t / 0x100_0000_0000 % 256) by (bit_vector);
    assert((t >> 32) & 0xff == t / 0x1_0000_0000 % 256) by (bit_vector);
    assert((t >> 24) & 0xff == t / 0x100_0000 % 256) by (bit_vector);
    assert((t >> 16) & 0xff == t / 0x1_0000 % 256) by (bit_vector);
    assert((t >> 8) & 0xff == t / 0x100 % 256) by (bit_vector);
    assert(t & 0xff == t % 256) by (bit_vector);
}

/// The texts of a list are those of its strings, all of them and in order.
pub proof fn texts_are_those_of_the_strings(v: Seq<String>)
    ensures
        texts(v).len() == v.len(),
        forall|i: int| 0 <= i < v.len() ==> (#[trigger] texts(v)[i]) == v[i]@,
{
}

/// The content of a message is that message, field by field.
pub proof fn messages_are_taken_as_they_are(
    request: NuxRequest,
    response: NuxResponse,
    header: TunnelHeader,
)
    ensures
        match request {
            NuxRequest::HandshakeInit => request@ is HandshakeInit,
            NuxRequest::ChallengeAnswer { signature, timestamp } => request@
                == (RequestModel::ChallengeAnswer { signature: signature@, timestamp }),
        },
        match response {
            NuxResponse::Challenge { nonce, timestamp } => response@ == (ResponseModel::Challenge {
                nonce: nonce@,
                timestamp,
            }),
            NuxResponse::AccessGranted { roles } => response@ matches ResponseModel::AccessGranted {
                roles: r,
            } && r.len() == roles@.len() && forall|i: int|
                0 <= i < roles@.len() ==> #[trigger] r[i] == roles@[i]@,
            NuxResponse::Denied => response@ is Denied,
        },
        header@.service == header.service@,
        header@.binary_sha256 == header.binary_sha256@,
{
}

} // verus!
