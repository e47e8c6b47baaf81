//! Identity of a peer: its `PeerId` and the public key it holds.

use vstd::prelude::*;
use vstd::slice::{slice_subrange, slice_to_vec};
use crate::bytes::bytes_eq;

verus! {

/// Multihash code of a digest that is the hashed value itself.
pub const IDENTITY_MULTIHASH_CODE: u8 = 0x00;

/// Multihash code of SHA-256.
pub const SHA256_MULTIHASH_CODE: u8 = 0x12;

/// The byte strings that are the canonical form of a peer id: one byte for the
/// multihash code, one for the length of the digest, then the digest. An
/// inlined key takes at most 42 bytes, a hash at most 64.
pub open spec fn is_peer_id(b: Seq<u8>) -> bool {
    &&& b.len() >= 2
    &&& b[1] as int == b.len() - 2
    &&& (b[0] == IDENTITY_MULTIHASH_CODE && b.len() <= 44) || (b[0] == SHA256_MULTIHASH_CODE
        && b.len() <= 66)
}

/// What `libp2p::PeerId::from_bytes` reads in a byte string: the canonical
/// bytes of the peer id, or `None` where it refuses them.
pub uninterp spec fn peer_id_of_bytes(data: Seq<u8>) -> Option<Seq<u8>>;

/// What `libp2p::PeerId::from_str` reads in a text: the canonical bytes of the
/// peer id, or the text of the error.
pub uninterp spec fn peer_id_of_text(text: Seq<char>) -> core::result::Result<Seq<u8>, Seq<char>>;

/// What `libp2p::PeerId::to_base58` writes for the canonical bytes of a peer id.
pub uninterp spec fn peer_id_text(peer: Seq<u8>) -> Seq<char>;

/// What `libp2p::identity::PublicKey::try_decode_protobuf` reads in a byte
/// string, as the bytes that `encode_protobuf` writes for it; `None` where it
/// refuses them.
pub uninterp spec fn public_key_of_bytes(encoded: Seq<u8>) -> Option<Seq<u8>>;

/// Whether `libp2p::identity::PublicKey::verify` accepts the signature of a
/// message under an encoded public key.
pub uninterp spec fn signature_valid(key: Seq<u8>, message: Seq<u8>, signature: Seq<u8>) -> bool;

/// The public key inlined in a peer id, if it holds one.
pub open spec fn peer_public_key(peer: Seq<u8>) -> Option<Seq<u8>> {
    if peer[0] == IDENTITY_MULTIHASH_CODE {
        public_key_of_bytes(peer.skip(2))
    } else {
        None
    }
}

/// `libp2p::PeerId::from_bytes`, then `to_bytes` on its result. Canonical bytes
/// are read as they stand, and what comes back is always canonical.
#[verifier::external_body]
fn read_peer_id(data: &[u8]) -> (r: Option<Vec<u8>>)
    ensures
        peer_id_of_bytes(data@) == (match r {
            Some(b) => Some(b@),
            None => None,
        }),
        r matches Some(b) ==> is_peer_id(b@),
        is_peer_id(data@) ==> r is Some && r->0@ == data@,
{
    libp2p::PeerId::from_bytes(data).ok().map(|p| p.to_bytes())
}

/// `libp2p::PeerId::from_str`, then `to_bytes` on its result, or the text of
/// its error. What comes back is canonical.
#[verifier::external_body]
fn parse_peer_id_text(text: &str) -> (r: core::result::Result<Vec<u8>, String>)
    ensures
        peer_id_of_text(text@) == (match r {
            Ok(b) => Ok(b@),
            Err(e) => Err(e@),
        }),
        r matches Ok(b) ==> is_peer_id(b@),
{
    text.parse::<libp2p::PeerId>().map(|p| p.to_bytes()).map_err(|e| e.to_string())
}

/// `libp2p::PeerId::to_base58` of the peer id whose canonical bytes are given.
/// Reading the text back gives the same peer id.
#[verifier::external_body]
fn write_peer_id_text(peer: &[u8]) -> (r: String)
    requires
        is_peer_id(peer@),
    ensures
        r@ == peer_id_text(peer@),
        peer_id_of_text(r@) is Ok,
        peer_id_of_text(r@)->Ok_0 == peer@,
{
    libp2p::PeerId::from_bytes(peer).map(|p| p.to_base58()).unwrap_or_default()
}

/// `libp2p::identity::PublicKey::try_decode_protobuf`, then `encode_protobuf`
/// on its result.
#[verifier::external_body]
fn decode_public_key(encoded: &[u8]) -> (r: Option<Vec<u8>>)
    ensures
        public_key_of_bytes(encoded@) == (match r {
            Some(k) => Some(k@),
            None => None,
        }),
{
    libp2p::identity::PublicKey::try_decode_protobuf(encoded).ok().map(|k| k.encode_protobuf())
}

/// `libp2p::identity::PublicKey::verify` under the key that the encoded bytes
/// hold; bytes that hold no key accept nothing.
#[verifier::external_body]
fn verify_signature(key: &[u8], message: &[u8], signature: &[u8]) -> (r: bool)
    ensures
        r == signature_valid(key@, message@, signature@),
{
    match libp2p::identity::PublicKey::try_decode_protobuf(key) {
        Ok(k) => k.verify(message, signature),
        Err(_) => false,
    }
}

/// Identifier of a peer: the multihash of its public key, or the key itself
/// where it is short enough, as for Ed25519. Its view is the canonical bytes.
#[derive(Debug, PartialEq, Eq, PartialOrd, Ord, Hash)]
pub struct PeerId {
    bytes: Vec<u8>,
}

impl View for PeerId {
    type V = Seq<u8>;

    closed spec fn view(&self) -> Seq<u8> {
        self.bytes@
    }
}

impl Clone for PeerId {
    fn clone(&self) -> (r: Self)
        ensures
            r@ == self@,
    {
        proof {
            use_type_invariant(self);
        }
        PeerId { bytes: slice_to_vec(self.bytes.as_slice()) }
    }
}

impl PeerId {
    #[verifier::type_invariant]
    spec fn canonical(self) -> bool {
        is_peer_id(self.bytes@)
    }

    /// Reads a peer id in its binary form.
    pub fn from_bytes(data: &[u8]) -> (r: Option<PeerId>)
        ensures
            peer_id_of_bytes(data@) == (match r {
                Some(p) => Some(p@),
                None => None,
            }),
            is_peer_id(data@) ==> (r matches Some(p) && p@ == data@),
    {
        match read_peer_id(data) {
            Some(bytes) => Some(PeerId { bytes }),
            None => None,
        }
    }

    /// Reads a peer id in its base 58 form; the error is the text of the
    /// refusal.
    pub fn parse(text: &str) -> (r: core::result::Result<PeerId, String>)
        ensures
            peer_id_of_text(text@) == (match r {
                Ok(p) => Ok(p@),
                Err(e) => Err(e@),
            }),
    {
        match parse_peer_id_text(text) {
            Ok(bytes) => Ok(PeerId { bytes }),
            Err(e) => Err(e),
        }
    }

    /// The binary form of the peer id.
    pub fn to_bytes(&self) -> (r: Vec<u8>)
        ensures
            r@ == self@,
            is_peer_id(r@),
    {
        proof {
            use_type_invariant(self);
        }
        slice_to_vec(self.bytes.as_slice())
    }

    /// The base 58 form of the peer id.
    pub fn to_base58(&self) -> (r: String)
        ensures
            r@ == peer_id_text(self@),
            peer_id_of_text(r@) == Ok::<Seq<u8>, Seq<char>>(self@),
    {
        proof {
            use_type_invariant(self);
        }
        write_peer_id_text(self.bytes.as_slice())
    }

    /// Whether two peer ids are the same.
    pub fn same(&self, other: &PeerId) -> (r: bool)
        ensures
            r == (self@ == other@),
    {
        bytes_eq(self.bytes.as_slice(), other.bytes.as_slice())
    }
}

/// Public key of a peer. Its view is the protobuf encoding.
#[derive(Debug, PartialEq, Eq)]
pub struct PublicKey {
    encoded: Vec<u8>,
}

impl View for PublicKey {
    type V = Seq<u8>;

    closed spec fn view(&self) -> Seq<u8> {
        self.encoded@
    }
}

impl PublicKey {
    /// Whether the signature of the message was made by the private half of
    /// this key.
    pub fn verify(&self, message: &[u8], signature: &[u8]) -> (r: bool)
        ensures
            r == signature_valid(self@, message@, signature@),
    {
        verify_signature(self.encoded.as_slice(), message, signature)
    }
}

/// Extracts the public key held by a peer id. It is always there for Ed25519,
/// whose key is inlined in an `identity` multihash.
pub fn public_key_of(peer: &PeerId) -> (r: Option<PublicKey>)
    ensures
        peer_public_key(peer@) == (match r {
            Some(k) => Some(k@),
            None => None,
        }),
{
    proof {
        use_type_invariant(peer);
    }
    if peer.bytes[0] != IDENTITY_MULTIHASH_CODE {
        return None;
    }
    let n: usize = peer.bytes.len();
    let digest = slice_subrange(peer.bytes.as_slice(), 2, n);
    assert(digest@ =~= peer@.skip(2));
    match decode_public_key(digest) {
        Some(encoded) => Some(PublicKey { encoded }),
        None => None,
    }
}

/// The key of a peer is the digest of its id where the id holds the key itself, whatever the key;
/// an id that is a hash of the key gives none.
pub proof fn key_of_a_peer_is_in_its_id(code: u8, len: u8, digest: Seq<u8>)
    ensures
        code == 0 ==> peer_public_key(seq![code, len] + digest) == public_key_of_bytes(digest),
        code != 0 ==> peer_public_key(seq![code, len] + digest) is None,
{
    assert((seq![code, len] + digest).skip(2) =~= digest);
}

} // verus!
