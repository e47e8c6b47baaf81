//! Binary codec of the protocol.
//!
//! The format is bincode with variable-length integers. It is defensive: a
//! message holds at most [`MAX_MESSAGE_SIZE`] bytes, when it is read from a
//! stream as well as when it is decoded, and leftover bytes are refused.

use vstd::prelude::*;
use vstd::string::StringExecFns;
use bincode::Options;
use crate::protocol::{
    HeaderModel,
    NuxRequest,
    NuxResponse,
    RequestModel,
    ResponseModel,
    TunnelHeader,
};
use crate::text::push_decimal;

verus! {

/// Largest message of the protocol on the wire (64 KiB).
pub const MAX_MESSAGE_SIZE: u64 = 65536;

/// Refusal of a message.
#[derive(Debug, Clone, PartialEq, Eq)]
pub enum CodecError {
    /// What was read from a stream is larger than [`MAX_MESSAGE_SIZE`].
    TooLarge,
    /// The message to write, or the bytes to decode, are larger than [`MAX_MESSAGE_SIZE`].
    SizeLimit,
    /// The bytes are not a message of the expected kind, and why.
    Malformed(String),
}

impl CodecError {
    /// The text of the refusal, for the local log.
    pub fn message(&self) -> (r: String)
        ensures
            r@ == match *self {
                CodecError::TooLarge => "message au-delà de la taille maximale"@,
                CodecError::SizeLimit => "the size limit has been reached"@,
                CodecError::Malformed(why) => why@,
            },
    {
        match self {
            CodecError::TooLarge => "message au-delà de la taille maximale".to_owned(),
            CodecError::SizeLimit => "the size limit has been reached".to_owned(),
            CodecError::Malformed(why) => why.clone(),
        }
    }
}

/// The text of the error of `bincode::Options::deserialize` on bytes that begin with no
/// variant number.
pub uninterp spec fn variant_error(bytes: Seq<u8>) -> Seq<char>;

/// The text of the error of `bincode::Options::deserialize` on bytes that are no lone variant
/// number.
pub uninterp spec fn tag_error(bytes: Seq<u8>) -> Seq<char>;

/// The text of the error of `bincode::Options::deserialize` on bytes that are no variant
/// number, bytes and integer. It names the largest size of the machine.
pub uninterp spec fn answer_error(bytes: Seq<u8>, largest: usize) -> Seq<char>;

/// The text of the error of `bincode::Options::deserialize` on bytes that are no variant
/// number, nonce and integer.
pub uninterp spec fn challenge_error(bytes: Seq<u8>) -> Seq<char>;

/// The text of the error of `bincode::Options::deserialize` on bytes that are no variant
/// number and texts. It names the largest size of the machine.
pub uninterp spec fn granted_error(bytes: Seq<u8>, largest: usize) -> Seq<char>;

/// The text of the error of `bincode::Options::deserialize` on bytes that are no text and
/// fingerprint. It names the largest size of the machine.
pub uninterp spec fn header_error(bytes: Seq<u8>, largest: usize) -> Seq<char>;

/// `bincode::Options::serialize` of a variant number: fails only beyond the
/// limit.
#[verifier::external_body]
fn write_tag(tag: u32, limit: u64) -> (r: Option<Vec<u8>>)
    ensures
        r is Some <==> crate::protocol::wire::varint(tag as nat).len() <= limit,
        r is Some ==> r->0@ == crate::protocol::wire::varint(tag as nat),
{
    bincode::DefaultOptions::new().with_limit(limit).serialize(&tag).ok()
}

/// `bincode::Options::serialize` of a variant number, bytes and an integer:
/// fails only beyond the limit.
#[verifier::external_body]
fn write_answer(tag: u32, signature: &Vec<u8>, timestamp: u64, limit: u64) -> (r: Option<Vec<u8>>)
    ensures
        r is Some <==> crate::protocol::wire::answer_wire(tag, signature@, timestamp).len()
            <= limit,
        r is Some ==> r->0@ == crate::protocol::wire::answer_wire(tag, signature@, timestamp),
{
    bincode::DefaultOptions::new().with_limit(limit).serialize(&(tag, signature, timestamp)).ok()
}

/// `bincode::Options::serialize` of a variant number, a nonce and an integer:
/// fails only beyond the limit.
#[verifier::external_body]
fn write_challenge(tag: u32, nonce: &[u8; 32], timestamp: u64, limit: u64) -> (r: Option<Vec<u8>>)
    ensures
        r is Some <==> crate::protocol::wire::challenge_wire(tag, nonce@, timestamp).len() <= limit,
        r is Some ==> r->0@ == crate::protocol::wire::challenge_wire(tag, nonce@, timestamp),
{
    bincode::DefaultOptions::new().with_limit(limit).serialize(&(tag, nonce, timestamp)).ok()
}

/// `bincode::Options::serialize` of a variant number and a list of texts: fails
/// only beyond the limit.
#[verifier::external_body]
fn write_granted(tag: u32, roles: &Vec<String>, limit: u64) -> (r: Option<Vec<u8>>)
    ensures
        r is Some <==> crate::protocol::wire::granted_wire(
            tag,
            crate::protocol::texts(roles@),
        ).len() <= limit,
        r is Some ==> r->0@ == crate::protocol::wire::granted_wire(
            tag,
            crate::protocol::texts(roles@),
        ),
{
    bincode::DefaultOptions::new().with_limit(limit).serialize(&(tag, roles)).ok()
}

/// `bincode::Options::serialize` of a text and 32 bytes: fails only beyond the
/// limit.
#[verifier::external_body]
fn write_header(service: &String, sha: &[u8; 32], limit: u64) -> (r: Option<Vec<u8>>)
    ensures
        r is Some <==> crate::protocol::wire::header_wire(service@, sha@).len() <= limit,
        r is Some ==> r->0@ == crate::protocol::wire::header_wire(service@, sha@),
{
    bincode::DefaultOptions::new().with_limit(limit).serialize(&(service, sha)).ok()
}

/// The variant number that bytes begin with.
pub open spec fn first_variant(bytes: Seq<u8>) -> Option<u32> {
    match crate::protocol::wire::read_variant(bytes) {
        Some((tag, _)) => Some(tag),
        None => None,
    }
}

/// `bincode::Options::deserialize` of a variant number, whatever follows it: the integer of
/// variable length, or the text of the error.
#[verifier::external_body]
fn read_prefix(bytes: &[u8]) -> (r: core::result::Result<u32, String>)
    ensures
        first_variant(bytes@) == (match r {
            Ok(v) => Some(v),
            Err(_) => None,
        }),
        r is Err ==> r->Err_0@ == variant_error(bytes@),
{
    bincode::DefaultOptions::new().allow_trailing_bytes().deserialize::<u32>(
        bytes,
    ).map_err(|e| e.to_string())
}

/// `bincode::Options::deserialize` of a variant number: the integer of variable length, if
/// nothing is left over, or the text of the error.
#[verifier::external_body]
fn read_tag(bytes: &[u8]) -> (r: core::result::Result<u32, String>)
    ensures
        crate::protocol::wire::tag_of(bytes@) == (match r {
            Ok(v) => Some(v),
            Err(_) => None,
        }),
        r is Err ==> r->Err_0@ == tag_error(bytes@),
{
    bincode::DefaultOptions::new().reject_trailing_bytes().deserialize::<u32>(
        bytes,
    ).map_err(|e| e.to_string())
}

/// `bincode::Options::deserialize` of a variant number, bytes behind their number and an
/// integer, if nothing is left over, or the text of the error.
#[verifier::external_body]
fn read_answer(bytes: &[u8]) -> (r: core::result::Result<(u32, Vec<u8>, u64), String>)
    ensures
        crate::protocol::wire::answer_of(bytes@) == (match r {
            Ok(v) => Some((v.0, v.1@, v.2)),
            Err(_) => None,
        }),
        r is Err ==> r->Err_0@ == answer_error(bytes@, usize::MAX),
{
    bincode::DefaultOptions::new().reject_trailing_bytes().deserialize::<(u32, Vec<u8>, u64)>(
        bytes,
    ).map_err(|e| e.to_string())
}

/// `bincode::Options::deserialize` of a variant number, a nonce and an integer, if nothing is
/// left over, or the text of the error.
#[verifier::external_body]
fn read_challenge(bytes: &[u8]) -> (r: core::result::Result<(u32, [u8; 32], u64), String>)
    ensures
        crate::protocol::wire::challenge_of(bytes@) == (match r {
            Ok(v) => Some((v.0, v.1@, v.2)),
            Err(_) => None,
        }),
        r is Err ==> r->Err_0@ == challenge_error(bytes@),
{
    bincode::DefaultOptions::new().reject_trailing_bytes().deserialize::<(u32, [u8; 32], u64)>(
        bytes,
    ).map_err(|e| e.to_string())
}

/// `bincode::Options::deserialize` of a variant number and texts behind their number, if each
/// is UTF-8 and nothing is left over, or the text of the error.
#[verifier::external_body]
fn read_granted(bytes: &[u8]) -> (r: core::result::Result<(u32, Vec<String>), String>)
    ensures
        crate::protocol::wire::granted_of(bytes@) == (match r {
            Ok(v) => Some((v.0, crate::protocol::texts(v.1@))),
            Err(_) => None,
        }),
        r is Err ==> r->Err_0@ == granted_error(bytes@, usize::MAX),
{
    bincode::DefaultOptions::new().reject_trailing_bytes().deserialize::<(u32, Vec<String>)>(
        bytes,
    ).map_err(|e| e.to_string())
}

/// `bincode::Options::deserialize` of a text and 32 bytes, if the text is UTF-8 and nothing is
/// left over, or the text of the error.
#[verifier::external_body]
fn read_header(bytes: &[u8]) -> (r: core::result::Result<(String, [u8; 32]), String>)
    ensures
        crate::protocol::wire::header_of(bytes@) == (match r {
            Ok(v) => Some((v.0@, v.1@)),
            Err(_) => None,
        }),
        r is Err ==> r->Err_0@ == header_error(bytes@, usize::MAX),
{
    bincode::DefaultOptions::new().reject_trailing_bytes().deserialize::<(String, [u8; 32])>(
        bytes,
    ).map_err(|e| e.to_string())
}

/// A message of the protocol: its layout on the wire and how it is read.
pub trait Wire: View + Sized {
    /// Whether a content can be held by a message of this kind.
    spec fn valid(m: Self::V) -> bool;

    /// The bytes of a message.
    spec fn wire(m: Self::V) -> Seq<u8>;

    /// The message that bytes hold.
    spec fn parsed(bytes: Seq<u8>) -> Option<Self::V>;

    /// Why bytes hold no message.
    spec fn refusal(bytes: Seq<u8>) -> Seq<char>;

    /// What was written is read back, and refused if anything follows it.
    proof fn read_back(m: Self::V, tail: Seq<u8>)
        requires
            Self::valid(m),
            Self::wire(m).len() <= u64::MAX,
        ensures
            Self::parsed(Self::wire(m) + tail) == (if tail.len() == 0 {
                Some(m)
            } else {
                None
            }),
    ;

    /// What is read, from whatever bytes, is written in no more bytes.
    proof fn written_in_no_more(bytes: Seq<u8>)
        ensures
            Self::parsed(bytes) matches Some(m) ==> Self::valid(m) && Self::wire(m).len()
                <= bytes.len(),
    ;

    /// Writes the message, unless it takes more than `limit` bytes.
    fn write(&self, limit: u64) -> (r: Option<Vec<u8>>)
        ensures
            r is Some <==> Self::wire(self@).len() <= limit,
            r matches Some(b) ==> b@ == Self::wire(self@),
    ;

    /// Reads a message, or says why there is none.
    fn read(bytes: &[u8]) -> (r: core::result::Result<Self, String>)
        ensures
            r is Ok <==> Self::parsed(bytes@) is Some,
            r matches Ok(m) ==> Self::parsed(bytes@) == Some(m@),
            r matches Err(why) ==> why@ == Self::refusal(bytes@),
    ;
}

/// Why a variant number is none of a message with `count` variants.
pub open spec fn unknown_variant(tag: u32, count: u32) -> Seq<char> {
    "invalid value: integer `"@ + crate::text::decimal(tag as nat)
        + "`, expected variant index 0 <= i < "@ + crate::text::decimal(count as nat)
}

fn no_such_variant(tag: u32, count: u32) -> (r: String)
    ensures
        r@ == unknown_variant(tag, count),
{
    let mut why = "invalid value: integer `".to_owned();
    push_decimal(&mut why, tag as u64);
    why.append("`, expected variant index 0 <= i < ");
    push_decimal(&mut why, count as u64);
    why
}

impl Wire for NuxRequest {
    open spec fn valid(m: RequestModel) -> bool {
        true
    }

    open spec fn wire(m: RequestModel) -> Seq<u8> {
        match m {
            RequestModel::HandshakeInit => crate::protocol::wire::varint(0),
            RequestModel::ChallengeAnswer { signature, timestamp } => {
                crate::protocol::wire::answer_wire(1, signature, timestamp)
            },
        }
    }

    open spec fn parsed(bytes: Seq<u8>) -> Option<RequestModel> {
        match first_variant(bytes) {
            Some(tag) => if tag == 0 && crate::protocol::wire::tag_of(bytes) is Some {
                Some(RequestModel::HandshakeInit)
            } else if tag == 1 {
                match crate::protocol::wire::answer_of(bytes) {
                    Some((_, signature, timestamp)) => Some(
                        RequestModel::ChallengeAnswer { signature, timestamp },
                    ),
                    None => None,
                }
            } else {
                None
            },
            None => None,
        }
    }

    open spec fn refusal(bytes: Seq<u8>) -> Seq<char> {
        match first_variant(bytes) {
            Some(tag) => if tag == 0 {
                tag_error(bytes)
            } else if tag == 1 {
                answer_error(bytes, usize::MAX)
            } else {
                unknown_variant(tag, 2)
            },
            None => variant_error(bytes),
        }
    }

    proof fn read_back(m: RequestModel, tail: Seq<u8>) {
        let bytes = Self::wire(m) + tail;
        match m {
            RequestModel::HandshakeInit => {
                crate::protocol::wire::int_is_read_back(0, tail);
            },
            RequestModel::ChallengeAnswer { signature, timestamp } => {
                crate::protocol::wire::answer_is_read_back(1, signature, timestamp, tail);
                assert(bytes[0] == 1u8);
            },
        }
    }

    proof fn written_in_no_more(bytes: Seq<u8>) {
        crate::protocol::wire::read_is_written_in_no_more(bytes);
    }

    fn write(&self, limit: u64) -> (r: Option<Vec<u8>>) {
        match self {
            NuxRequest::HandshakeInit => write_tag(0, limit),
            NuxRequest::ChallengeAnswer { signature, timestamp } => write_answer(
                1,
                signature,
                *timestamp,
                limit,
            ),
        }
    }

    fn read(bytes: &[u8]) -> (r: core::result::Result<Self, String>) {
        let tag: u32 = match read_prefix(bytes) {
            Ok(tag) => tag,
            Err(why) => {
                return Err(why);
            },
        };
        if tag == 0 {
            match read_tag(bytes) {
                Ok(_) => Ok(NuxRequest::HandshakeInit),
                Err(why) => Err(why),
            }
        } else if tag == 1 {
            match read_answer(bytes) {
                Ok((_, signature, timestamp)) => Ok(
                    NuxRequest::ChallengeAnswer { signature, timestamp },
                ),
                Err(why) => Err(why),
            }
        } else {
            Err(no_such_variant(tag, 2))
        }
    }
}

impl Wire for NuxResponse {
    open spec fn valid(m: ResponseModel) -> bool {
        m matches ResponseModel::Challenge { nonce, .. } ==> nonce.len() == 32
    }

    open spec fn wire(m: ResponseModel) -> Seq<u8> {
        match m {
            ResponseModel::Challenge { nonce, timestamp } => {
                crate::protocol::wire::challenge_wire(0, nonce, timestamp)
            },
            ResponseModel::AccessGranted { roles } => crate::protocol::wire::granted_wire(1, roles),
            ResponseModel::Denied => crate::protocol::wire::varint(2),
        }
    }

    open spec fn parsed(bytes: Seq<u8>) -> Option<ResponseModel> {
        match first_variant(bytes) {
            Some(tag) => if tag == 0 {
                match crate::protocol::wire::challenge_of(bytes) {
                    Some((_, nonce, timestamp)) => Some(
                        ResponseModel::Challenge { nonce, timestamp },
                    ),
                    None => None,
                }
            } else if tag == 1 {
                match crate::protocol::wire::granted_of(bytes) {
                    Some((_, roles)) => Some(ResponseModel::AccessGranted { roles }),
                    None => None,
                }
            } else if tag == 2 && crate::protocol::wire::tag_of(bytes) is Some {
                Some(ResponseModel::Denied)
            } else {
                None
            },
            None => None,
        }
    }

    open spec fn refusal(bytes: Seq<u8>) -> Seq<char> {
        match first_variant(bytes) {
            Some(tag) => if tag == 0 {
                challenge_error(bytes)
            } else if tag == 1 {
                granted_error(bytes, usize::MAX)
            } else if tag == 2 {
                tag_error(bytes)
            } else {
                unknown_variant(tag, 3)
            },
            None => variant_error(bytes),
        }
    }

    proof fn read_back(m: ResponseModel, tail: Seq<u8>) {
        let bytes = Self::wire(m) + tail;
        match m {
            ResponseModel::Challenge { nonce, timestamp } => {
                crate::protocol::wire::challenge_is_read_back(0, nonce, timestamp, tail);
                assert(bytes[0] == 0u8);
            },
            ResponseModel::AccessGranted { roles } => {
                crate::protocol::wire::grant_is_read_back(1, roles, tail);
                assert(bytes[0] == 1u8);
            },
            ResponseModel::Denied => {
                crate::protocol::wire::int_is_read_back(2, tail);
            },
        }
    }

    proof fn written_in_no_more(bytes: Seq<u8>) {
        crate::protocol::wire::read_is_written_in_no_more(bytes);
    }

    fn write(&self, limit: u64) -> (r: Option<Vec<u8>>) {
        match self {
            NuxResponse::Challenge { nonce, timestamp } => write_challenge(
                0,
                nonce,
                *timestamp,
                limit,
            ),
            NuxResponse::AccessGranted { roles } => write_granted(1, roles, limit),
            NuxResponse::Denied => write_tag(2, limit),
        }
    }

    fn read(bytes: &[u8]) -> (r: core::result::Result<Self, String>) {
        let tag: u32 = match read_prefix(bytes) {
            Ok(tag) => tag,
            Err(why) => {
                return Err(why);
            },
        };
        if tag == 0 {
            match read_challenge(bytes) {
                Ok((_, nonce, timestamp)) => Ok(NuxResponse::Challenge { nonce, timestamp }),
                Err(why) => Err(why),
            }
        } else if tag == 1 {
            match read_granted(bytes) {
                Ok((_, roles)) => Ok(NuxResponse::AccessGranted { roles }),
                Err(why) => Err(why),
            }
        } else if tag == 2 {
            match read_tag(bytes) {
                Ok(_) => Ok(NuxResponse::Denied),
                Err(why) => Err(why),
            }
        } else {
            Err(no_such_variant(tag, 3))
        }
    }
}

impl Wire for TunnelHeader {
    open spec fn valid(m: HeaderModel) -> bool {
        m.binary_sha256.len() == 32
    }

    open spec fn wire(m: HeaderModel) -> Seq<u8> {
        crate::protocol::wire::header_wire(m.service, m.binary_sha256)
    }

    open spec fn parsed(bytes: Seq<u8>) -> Option<HeaderModel> {
        match crate::protocol::wire::header_of(bytes) {
            Some((service, binary_sha256)) => Some(HeaderModel { service, binary_sha256 }),
            None => None,
        }
    }

    open spec fn refusal(bytes: Seq<u8>) -> Seq<char> {
        header_error(bytes, usize::MAX)
    }

    proof fn read_back(m: HeaderModel, tail: Seq<u8>) {
        crate::protocol::wire::header_is_read_back(m.service, m.binary_sha256, tail);
    }

    proof fn written_in_no_more(bytes: Seq<u8>) {
        crate::protocol::wire::read_is_written_in_no_more(bytes);
    }

    fn write(&self, limit: u64) -> (r: Option<Vec<u8>>) {
        write_header(&self.service, &self.binary_sha256, limit)
    }

    fn read(bytes: &[u8]) -> (r: core::result::Result<Self, String>) {
        match read_header(bytes) {
            Ok((service, binary_sha256)) => Ok(TunnelHeader { service, binary_sha256 }),
            Err(why) => Err(why),
        }
    }
}

/// Serialises a message. The only failure is a message larger than
/// [`MAX_MESSAGE_SIZE`].
pub fn encode<T: Wire>(value: &T) -> (r: core::result::Result<Vec<u8>, CodecError>)
    ensures
        T::wire(value@).len() <= MAX_MESSAGE_SIZE ==> (r matches Ok(b) && b@ == T::wire(value@)),
        T::wire(value@).len() > MAX_MESSAGE_SIZE ==> r == Err::<Vec<u8>, CodecError>(
            CodecError::SizeLimit,
        ),
{
    match value.write(MAX_MESSAGE_SIZE) {
        Some(bytes) => Ok(bytes),
        None => Err(CodecError::SizeLimit),
    }
}

/// Deserialises a message. Any anomaly is an error.
///
/// Three laws of the wire stand in the contract: the bytes that [`encode`] writes
/// are read back as the message they were written for; these bytes followed by
/// anything more are refused; and a message that was read, from whatever bytes, can
/// be encoded again, in no more bytes.
pub fn decode<T: Wire>(bytes: &[u8]) -> (r: core::result::Result<T, CodecError>)
    ensures
        bytes@.len() > MAX_MESSAGE_SIZE ==> r == Err::<T, CodecError>(CodecError::SizeLimit),
        bytes@.len() <= MAX_MESSAGE_SIZE && T::parsed(bytes@) is None ==> (r matches Err(
            CodecError::Malformed(why),
        ) && why@ == T::refusal(bytes@)),
        bytes@.len() <= MAX_MESSAGE_SIZE && T::parsed(bytes@) is Some ==> (r matches Ok(m)
            && T::parsed(bytes@) == Some(m@)),
        forall|m: T::V|
            T::valid(m) && bytes@ == #[trigger] T::wire(m) && bytes@.len() <= MAX_MESSAGE_SIZE
                ==> (r matches Ok(v) && v@ == m),
        forall|m: T::V, tail: Seq<u8>|
            T::valid(m) && tail.len() > 0 && bytes@ == #[trigger] (T::wire(m) + tail) ==> r is Err,
        r matches Ok(v) ==> T::valid(v@) && T::wire(v@).len() <= MAX_MESSAGE_SIZE,
        r matches Ok(v) ==> T::wire(v@).len() <= bytes@.len(),
{
    if bytes.len() as u64 > MAX_MESSAGE_SIZE {
        return Err(CodecError::SizeLimit);
    }
    proof {
        T::written_in_no_more(bytes@);
        assert forall|m: T::V| T::valid(m) && bytes@ == #[trigger] T::wire(m) implies T::parsed(
            bytes@,
        ) == Some(m) by {
            T::read_back(m, Seq::empty());
            assert(bytes@ + Seq::empty() =~= bytes@);
        }
        assert forall|m: T::V, tail: Seq<u8>|
            T::valid(m) && tail.len() > 0 && bytes@ == #[trigger] (T::wire(m)
                + tail) implies T::parsed(bytes@) is None by {
            T::read_back(m, tail);
        }
    }
    match T::read(bytes) {
        Ok(message) => Ok(message),
        Err(why) => Err(CodecError::Malformed(why)),
    }
}

/// Codec of the authentication protocol over a stream.
#[derive(Debug, Clone, Copy)]
pub struct NuxCodec;

impl Default for NuxCodec {
    fn default() -> (r: Self)
        ensures
            r == NuxCodec,
    {
        NuxCodec
    }
}

impl NuxCodec {
    /// How many bytes are read from a stream at most: one more than a message
    /// may hold, which is enough to tell that it is too large.
    pub fn read_limit() -> (r: u64)
        ensures
            r == MAX_MESSAGE_SIZE + 1,
    {
        MAX_MESSAGE_SIZE + 1
    }

    /// Checks what was read from a stream, cut at [`NuxCodec::read_limit`].
    pub fn read_bounded(buffer: Vec<u8>) -> (r: core::result::Result<Vec<u8>, CodecError>)
        ensures
            buffer@.len() <= MAX_MESSAGE_SIZE ==> (r matches Ok(b) && b@ == buffer@),
            buffer@.len() > MAX_MESSAGE_SIZE ==> r == Err::<Vec<u8>, CodecError>(
                CodecError::TooLarge,
            ),
    {
        if buffer.len() as u64 > MAX_MESSAGE_SIZE {
            return Err(CodecError::TooLarge);
        }
        Ok(buffer)
    }
}

/// A request is read only under its own number: the opening under zero and alone, the answer under
/// one, with its signature and its time.
pub proof fn requests_are_read_under_their_number(
    bytes: Seq<u8>,
    signature: Seq<u8>,
    timestamp: u64,
)
    ensures
        NuxRequest::parsed(bytes) == Some(RequestModel::HandshakeInit)
            <==> crate::protocol::wire::tag_of(bytes) == Some(0u32),
        NuxRequest::parsed(bytes) == Some(RequestModel::ChallengeAnswer { signature, timestamp })
            <==> crate::protocol::wire::answer_of(bytes) == Some((1u32, signature, timestamp)),
{
}

/// A response is read only under its own number: a challenge under zero, a grant under one, a
/// refusal under two and alone.
pub proof fn responses_are_read_under_their_number(
    bytes: Seq<u8>,
    nonce: Seq<u8>,
    timestamp: u64,
    roles: Seq<Seq<char>>,
)
    ensures
        NuxResponse::parsed(bytes) == Some(ResponseModel::Challenge { nonce, timestamp })
            <==> crate::protocol::wire::challenge_of(bytes) == Some((0u32, nonce, timestamp)),
        NuxResponse::parsed(bytes) == Some(ResponseModel::AccessGranted { roles })
            <==> crate::protocol::wire::granted_of(bytes) == Some((1u32, roles)),
        NuxResponse::parsed(bytes) == Some(ResponseModel::Denied)
            <==> crate::protocol::wire::tag_of(bytes) == Some(2u32),
{
}

/// A message is written under its number, and a header without one.
pub proof fn messages_are_written_under_their_number(
    signature: Seq<u8>,
    nonce: Seq<u8>,
    timestamp: u64,
    roles: Seq<Seq<char>>,
    header: HeaderModel,
)
    ensures
        NuxRequest::wire(RequestModel::HandshakeInit) == seq![0u8],
        NuxRequest::wire(RequestModel::ChallengeAnswer { signature, timestamp }).len() > 0,
        NuxRequest::wire(RequestModel::ChallengeAnswer { signature, timestamp })[0] == 1u8,
        NuxResponse::wire(ResponseModel::Challenge { nonce, timestamp }).len() > 0,
        NuxResponse::wire(ResponseModel::Challenge { nonce, timestamp })[0] == 0u8,
        NuxResponse::wire(ResponseModel::AccessGranted { roles }).len() > 0,
        NuxResponse::wire(ResponseModel::AccessGranted { roles })[0] == 1u8,
        NuxResponse::wire(ResponseModel::Denied) == seq![2u8],
        NuxRequest::valid(RequestModel::ChallengeAnswer { signature, timestamp }),
        NuxResponse::valid(ResponseModel::Challenge { nonce, timestamp }) <==> nonce.len() == 32,
        NuxResponse::valid(ResponseModel::AccessGranted { roles }),
        NuxResponse::valid(ResponseModel::Denied),
        TunnelHeader::valid(header) <==> header.binary_sha256.len() == 32,
{
}

/// A number that is none of those of a message is refused by name.
pub proof fn unknown_number_is_refused_by_name(bytes: Seq<u8>, tag: u32, rest: Seq<u8>)
    requires
        crate::protocol::wire::read_variant(bytes) == Some((tag, rest)),
    ensures
        tag >= 2 ==> NuxRequest::parsed(bytes) is None && NuxRequest::refusal(bytes)
            == "invalid value: integer `"@ + crate::text::decimal(tag as nat)
            + "`, expected variant index 0 <= i < "@ + crate::text::decimal(2),
        tag >= 3 ==> NuxResponse::parsed(bytes) is None && NuxResponse::refusal(bytes)
            == "invalid value: integer `"@ + crate::text::decimal(tag as nat)
            + "`, expected variant index 0 <= i < "@ + crate::text::decimal(3),
{
}

} // verus!
