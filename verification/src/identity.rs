//! Cryptographic identity of a node (Ed25519 key).
//!
//! The private key comes from a file that only its owner can read or from an
//! environment variable, never from the code. Buffers that held the secret are
//! overwritten as soon as the key is built.

use vstd::prelude::*;
use vstd::slice::slice_to_vec;
use vstd::string::StringExecFns;
use libp2p::identity::Keypair as Libp2pKeypair;
use crate::bytes::{wipe_bytes, wipe_text};
use crate::error::{NuxError, Result};
use crate::peer::PeerId;
use crate::text::{push_decimal, trim};

verus! {

/// Length of a raw Ed25519 secret key.
pub const ED25519_SECRET_LEN: usize = 32;

/// The protobuf encoding of the public key of the Ed25519 key pair built from a
/// secret (`libp2p::identity::Keypair::public` and `encode_protobuf`).
pub uninterp spec fn ed25519_public_key(secret: Seq<u8>) -> Seq<u8>;

/// The signature that `libp2p::identity::Keypair::sign` makes of a message with
/// an Ed25519 secret.
pub uninterp spec fn ed25519_signature(secret: Seq<u8>, message: Seq<u8>) -> Seq<u8>;

/// The value of a hexadecimal digit of either case.
pub open spec fn hex_value(c: char) -> Option<u8> {
    if '0' <= c && c <= '9' {
        Some((c as int - 48) as u8)
    } else if 'a' <= c && c <= 'f' {
        Some((c as int - 87) as u8)
    } else if 'A' <= c && c <= 'F' {
        Some((c as int - 55) as u8)
    } else {
        None
    }
}

/// Whether a text is an even number of hexadecimal digits.
pub open spec fn is_hex(text: Seq<char>) -> bool {
    text.len() % 2 == 0 && forall|i: int|
        0 <= i < text.len() ==> (#[trigger] hex_value(text[i])) is Some
}

/// The bytes that a hexadecimal text denotes, high digit first.
pub open spec fn hex_bytes(text: Seq<char>) -> Seq<u8> {
    Seq::new(
        text.len() / 2,
        |i: int| (16 * hex_value(text[2 * i])->0 + hex_value(text[2 * i + 1])->0) as u8,
    )
}

/// The text of the error of `hex::decode`.
pub uninterp spec fn hex_error(text: Seq<char>) -> Seq<char>;

/// `hex::decode`: an even number of hexadecimal digits of either case gives the
/// bytes they denote, anything else is refused.
#[verifier::external_body]
pub(crate) fn hex_decode(text: &str) -> (r: core::result::Result<Vec<u8>, String>)
    ensures
        r is Ok <==> is_hex(text@),
        r matches Ok(b) ==> b@ == hex_bytes(text@),
        r matches Err(e) ==> e@ == hex_error(text@),
{
    hex::decode(text).map_err(|e| e.to_string())
}

/// `libp2p::identity::Keypair::generate_ed25519`: the secret half of a fresh key
/// pair. Nothing is claimed of the bytes: they are random.
#[verifier::external_body]
fn generate_secret() -> (r: [u8; 32]) {
    let pair = Libp2pKeypair::generate_ed25519().try_into_ed25519().unwrap();
    pair.secret().as_ref().try_into().unwrap()
}

/// `libp2p::identity::Keypair::ed25519_from_bytes`: any 32 bytes make a key pair
/// whose secret they are, and the buffer that held them is set to zero.
#[verifier::external_body]
fn ed25519_from_bytes(buffer: &mut [u8; 32]) -> (r: core::result::Result<[u8; 32], String>)
    ensures
        r matches Ok(secret) && secret@ == old(buffer)@,
        final(buffer)@ == Seq::new(32, |i: int| 0u8),
{
    match Libp2pKeypair::ed25519_from_bytes(buffer) {
        Ok(k) => Ok(k.try_into_ed25519().unwrap().secret().as_ref().try_into().unwrap()),
        Err(e) => Err(e.to_string()),
    }
}

/// The peer id of the key pair built from a secret
/// (`libp2p::identity::Keypair::public`, `PublicKey::to_peer_id`,
/// `PeerId::to_bytes`): the 36 bytes of the encoded public key, inlined in an
/// `identity` multihash, from which the same key is decoded.
#[verifier::external_body]
fn ed25519_peer_id(secret: &[u8; 32]) -> (r: Vec<u8>)
    ensures
        r@.len() == 38,
        r@ == seq![0u8, 36u8] + ed25519_public_key(secret@),
        crate::peer::public_key_of_bytes(r@.skip(2)) == Some(ed25519_public_key(secret@)),
{
    Libp2pKeypair::ed25519_from_bytes(*secret).unwrap().public().to_peer_id().to_bytes()
}

/// `libp2p::identity::Keypair::sign` with an Ed25519 secret: it always succeeds,
/// and its public key accepts the signature.
#[verifier::external_body]
fn ed25519_sign(secret: &[u8; 32], message: &[u8]) -> (r: core::result::Result<Vec<u8>, String>)
    ensures
        r is Ok,
        r->Ok_0@ == ed25519_signature(secret@, message@),
        crate::peer::signature_valid(ed25519_public_key(secret@), message@, r->Ok_0@),
{
    Libp2pKeypair::ed25519_from_bytes(*secret).unwrap().sign(message).map_err(|e| e.to_string())
}

/// Ed25519 key pair of a node. Its view is the secret half.
pub struct Keypair {
    secret: [u8; 32],
}

impl View for Keypair {
    type V = Seq<u8>;

    closed spec fn view(&self) -> Seq<u8> {
        self.secret@
    }
}

impl Clone for Keypair {
    fn clone(&self) -> (r: Self)
        ensures
            r@ == self@,
    {
        Keypair { secret: self.secret }
    }
}

impl Keypair {
    /// The key pair with a given secret.
    pub(crate) fn from_secret(secret: [u8; 32]) -> (r: Keypair)
        ensures
            r@ == secret@,
    {
        Keypair { secret }
    }

    pub(crate) fn secret_array(&self) -> (r: &[u8; 32])
        ensures
            r@ == self@,
    {
        &self.secret
    }

    /// The peer id of this identity.
    pub fn peer_id(&self) -> (r: PeerId)
        ensures
            r@ == seq![0u8, 36u8] + ed25519_public_key(self@),
            crate::peer::peer_public_key(r@) == Some(ed25519_public_key(self@)),
    {
        let bytes = ed25519_peer_id(&self.secret);
        assert(crate::peer::is_peer_id(bytes@));
        PeerId::from_bytes(bytes.as_slice()).unwrap()
    }

    /// Signs a message with the secret half.
    pub fn sign(&self, message: &[u8]) -> (r: core::result::Result<Vec<u8>, String>)
        ensures
            r matches Ok(s) && s@ == ed25519_signature(self@, message@),
            r matches Ok(s) && crate::peer::signature_valid(
                ed25519_public_key(self@),
                message@,
                s@,
            ),
    {
        ed25519_sign(&self.secret, message)
    }

    /// The raw secret, for the one place that stores it.
    pub fn secret_bytes(&self) -> (r: Vec<u8>)
        ensures
            r@ == self@,
            r@.len() == ED25519_SECRET_LEN,
    {
        slice_to_vec(self.secret.as_slice())
    }
}

/// Generates a new random identity.
pub fn generate() -> (r: Keypair)
    ensures
        r@.len() == ED25519_SECRET_LEN,
{
    Keypair { secret: generate_secret() }
}

/// The refusal of a secret of the wrong length.
pub open spec fn bad_length_text(len: nat) -> Seq<char> {
    "longueur de clé invalide: "@ + crate::text::decimal(len) + " octets, attendu 32"@
}

/// Builds a key pair from the raw bytes of the secret key. The working copy is
/// set to zero by the derivation.
pub fn keypair_from_secret_bytes(raw: &[u8]) -> (r: core::result::Result<Keypair, String>)
    ensures
        raw@.len() == ED25519_SECRET_LEN ==> (r matches Ok(k) && k@ == raw@),
        raw@.len() != ED25519_SECRET_LEN ==> (r matches Err(e) && e@ == bad_length_text(
            raw@.len(),
        )),
{
    if raw.len() != ED25519_SECRET_LEN {
        let mut message = "longueur de clé invalide: ".to_owned();
        push_decimal(&mut message, raw.len() as u64);
        message.append(" octets, attendu 32");
        return Err(message);
    }
    let mut buffer: [u8; 32] = [0u8; 32];
    let mut i: usize = 0;
    while i < 32
        invariant
            i <= 32,
            raw@.len() == 32,
            forall|j: int| 0 <= j < i ==> buffer@[j] == raw@[j],
        decreases 32 - i,
    {
        buffer[i] = raw[i];
        i += 1;
    }
    assert(buffer@ =~= raw@);
    match ed25519_from_bytes(&mut buffer) {
        Ok(secret) => Ok(Keypair { secret }),
        Err(e) => Err(e),
    }
}

/// What reading a hexadecimal secret gives.
pub open spec fn hex_identity(encoded: Seq<char>) -> core::result::Result<Seq<u8>, Seq<char>> {
    let text = crate::text::trimmed(encoded);
    if !is_hex(text) {
        Err("hexadécimal invalide"@)
    } else if hex_bytes(text).len() != ED25519_SECRET_LEN {
        Err(bad_length_text(hex_bytes(text).len()))
    } else {
        Ok(hex_bytes(text))
    }
}

/// Decodes a hexadecimal Ed25519 secret key; white space around it is ignored.
pub fn from_hex_str(encoded: &str) -> (r: core::result::Result<Keypair, String>)
    ensures
        hex_identity(encoded@) == (match r {
            Ok(k) => Ok(k@),
            Err(e) => Err(e@),
        }),
{
    match hex_decode(trim(encoded)) {
        Ok(bytes) => {
            let mut raw = bytes;
            let result = keypair_from_secret_bytes(raw.as_slice());
            wipe_bytes(&mut raw);
            result
        },
        Err(_) => Err("hexadécimal invalide".to_owned()),
    }
}

/// Whether a Unix mode grants more than reading and writing by the owner (`0600`).
pub open spec fn mode_too_lax(mode: u32) -> bool {
    mode & 0o177 != 0
}

/// Checks that the key file is accessible to its owner only, for reading and writing at
/// most.
pub fn ensure_owner_only(path: &str, mode: u32) -> (r: Result<()>)
    ensures
        r is Ok <==> !mode_too_lax(mode),
        r matches Err(e) ==> (e matches NuxError::InsecureKeyPermissions { path: p, mode: m }
            && p@ == path@ && m == mode & 0o777),
{
    if mode & 0o177 != 0 {
        return Err(
            NuxError::InsecureKeyPermissions { path: path.to_owned(), mode: mode & 0o777 },
        );
    }
    Ok(())
}

/// Message of a failure on a key file.
pub open spec fn file_text(path: Seq<char>, why: Seq<char>) -> Seq<char> {
    "fichier `"@ + path + "`: "@ + why
}

fn file_error(path: &str, why: &str) -> (r: NuxError)
    ensures
        r matches NuxError::Identity(e) && e@ == file_text(path@, why@),
{
    let mut message = "fichier `".to_owned();
    message.append(path);
    message.append("`: ");
    message.append(why);
    NuxError::Identity(message)
}

/// Loads an identity from the content of a key file: the 32 raw bytes of the secret.
/// The file must belong to the current user (`owned`), and its mode must grant no more
/// than `0600`. The buffer is overwritten and emptied, whatever the outcome.
pub fn from_file(path: &str, owned: bool, mode: u32, raw: &mut Vec<u8>) -> (r: Result<Keypair>)
    ensures
        mode_too_lax(mode) ==> (r matches Err(NuxError::InsecureKeyPermissions { path: p, mode: m })
            && p@ == path@ && m == mode & 0o777),
        !mode_too_lax(mode) && !owned ==> (r matches Err(NuxError::Identity(e)) && e@ == file_text(
            path@,
            "n'appartient pas à l'utilisateur courant"@,
        )),
        !mode_too_lax(mode) && owned && old(raw)@.len() != ED25519_SECRET_LEN ==> (r matches Err(
            NuxError::Identity(e),
        ) && e@ == file_text(path@, bad_length_text(old(raw)@.len()))),
        !mode_too_lax(mode) && owned && old(raw)@.len() == ED25519_SECRET_LEN ==> (r matches Ok(k)
            && k@ == old(raw)@),
        final(raw)@.len() == 0,
{
    let result = keypair_from_secret_bytes(raw.as_slice());
    wipe_bytes(raw);
    match ensure_owner_only(path, mode) {
        Ok(()) => {},
        Err(e) => {
            return Err(e);
        },
    }
    if !owned {
        return Err(file_error(path, "n'appartient pas à l'utilisateur courant"));
    }
    match result {
        Ok(keypair) => Ok(keypair),
        Err(e) => Err(file_error(path, e.as_str())),
    }
}

/// Loads an identity from the value of an environment variable: the secret in
/// hexadecimal (64 digits). `None` stands for a variable that is absent or not
/// readable.
pub fn from_env(var: &str, encoded: Option<String>) -> (r: Result<Keypair>)
    ensures
        match encoded {
            None => r matches Err(NuxError::Identity(e)) && e@ == "variable `"@ + var@
                + "` absente ou illisible"@,
            Some(text) => match hex_identity(text@) {
                Ok(secret) => r matches Ok(k) && k@ == secret,
                Err(why) => r matches Err(NuxError::Identity(e)) && e@ == "variable `"@ + var@
                    + "`: "@ + why,
            },
        },
{
    let mut message = "variable `".to_owned();
    message.append(var);
    match encoded {
        None => {
            message.append("` absente ou illisible");
            Err(NuxError::Identity(message))
        },
        Some(value) => {
            let mut text = value;
            let result = from_hex_str(text.as_str());
            wipe_text(&mut text);
            match result {
                Ok(keypair) => Ok(keypair),
                Err(e) => {
                    message.append("`: ");
                    message.append(e.as_str());
                    Err(NuxError::Identity(message))
                },
            }
        },
    }
}

/// A hexadecimal text is read by pairs of digits, high digit first: it has half as many bytes
/// as digits, each worth what its two digits are.
pub proof fn hex_is_read_by_pairs(text: Seq<char>)
    ensures
        is_hex(text) <==> text.len() % 2 == 0 && forall|i: int|
            0 <= i < text.len() ==> '0' <= #[trigger] text[i] <= '9' || 'a' <= text[i] <= 'f'
                || 'A' <= text[i] <= 'F',
        is_hex(text) ==> 2 * hex_bytes(text).len() == text.len(),
{
    if is_hex(text) {
        assert forall|i: int| 0 <= i < text.len() implies '0' <= #[trigger] text[i] <= '9' || 'a'
            <= text[i] <= 'f' || 'A' <= text[i] <= 'F' by {
            assert(hex_value(text[i]) is Some);
        }
    }
    if forall|i: int|
        0 <= i < text.len() ==> '0' <= #[trigger] text[i] <= '9' || 'a' <= text[i] <= 'f' || 'A'
            <= text[i] <= 'F' {
        assert forall|i: int| 0 <= i < text.len() implies (#[trigger] hex_value(
            text[i],
        )) is Some by {
            let c = text[i];
            assert('0' <= c <= '9' || 'a' <= c <= 'f' || 'A' <= c <= 'F');
        }
    }
}

/// The bytes that are written in hexadecimal are read back, in either case of the digits: a
/// text whose pairs of digits are those of the bytes denotes these bytes.
pub proof fn hex_is_read_back(bytes: Seq<u8>, text: Seq<char>)
    requires
        text.len() == 2 * bytes.len(),
        forall|i: int|
            0 <= i < bytes.len() ==> #[trigger] crate::text::hex_byte(bytes[i])[0] == text[2 * i]
                && crate::text::hex_byte(bytes[i])[1] == text[2 * i + 1],
    ensures
        is_hex(text),
        hex_bytes(text) == bytes,
{
    assert forall|k: int| 0 <= k < text.len() implies (#[trigger] hex_value(text[k])) is Some by {
        let i = k / 2;
        assert(crate::text::hex_byte(bytes[i])[0] == text[2 * i]);
        if k % 2 == 0 {
            assert(k == 2 * i);
        } else {
            assert(k == 2 * i + 1);
        }
    }
    assert forall|i: int| 0 <= i < bytes.len() implies hex_bytes(text)[i] == bytes[i] by {
        assert(crate::text::hex_byte(bytes[i])[0] == text[2 * i]);
        let b = bytes[i];
        assert(hex_value(text[2 * i]) == Some((b / 16) as u8));
        assert(hex_value(text[2 * i + 1]) == Some((b % 16) as u8));
    }
    assert(hex_bytes(text) =~= bytes);
}

/// A secret is read from 64 hexadecimal digits, blanks around them aside, and from nothing
/// else.
pub proof fn secret_is_64_digits(encoded: Seq<char>)
    ensures
        hex_identity(encoded) is Ok <==> is_hex(crate::text::trimmed(encoded))
            && crate::text::trimmed(encoded).len() == 64,
        hex_identity(encoded) matches Ok(secret) ==> secret.len() == 32 && secret == hex_bytes(
            crate::text::trimmed(encoded),
        ),
{
    hex_is_read_by_pairs(crate::text::trimmed(encoded));
}

/// A key file is refused for any right beyond reading and writing by its owner: execution by
/// the owner, and any right of the group or of the others.
pub proof fn any_other_right_is_too_much(mode: u32)
    ensures
        mode_too_lax(mode) <==> (mode & 0o100 != 0 || mode & 0o040 != 0 || mode & 0o020 != 0 || mode
            & 0o010 != 0 || mode & 0o004 != 0 || mode & 0o002 != 0 || mode & 0o001 != 0),
{
    assert((mode & 0o177 != 0) <==> (mode & 0o100 != 0 || mode & 0o040 != 0 || mode & 0o020 != 0
        || mode & 0o010 != 0 || mode & 0o004 != 0 || mode & 0o002 != 0 || mode & 0o001 != 0))
        by (bit_vector);
}

} // verus!
