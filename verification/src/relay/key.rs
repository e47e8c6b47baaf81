//! Identity of a relay: loaded from its file if there is one, generated
//! otherwise.

use vstd::prelude::*;
use crate::bytes::wipe_bytes;
use crate::identity::{generate, Keypair};

verus! {

/// What `libp2p::identity::Keypair::from_protobuf_encoding` reads in a byte
/// string: the Ed25519 secret, or the text of the error. Ed25519 is the only kind of key
/// that the enabled features read; a key of another kind is an error.
pub uninterp spec fn secret_of_protobuf(encoded: Seq<u8>) -> core::result::Result<
    Seq<u8>,
    Seq<char>,
>;

/// What `libp2p::identity::Keypair::to_protobuf_encoding` writes for the key pair
/// built from a secret.
pub uninterp spec fn protobuf_of_secret(secret: Seq<u8>) -> Seq<u8>;

/// `libp2p::identity::Keypair::from_protobuf_encoding`, as the Ed25519 secret of
/// its result (`Keypair::try_into_ed25519`), or the text of the error of either.
#[verifier::external_body]
fn decode_protobuf(encoded: &[u8]) -> (r: core::result::Result<[u8; 32], String>)
    ensures
        secret_of_protobuf(encoded@) == (match r {
            Ok(s) => Ok(s@),
            Err(e) => Err(e@),
        }),
{
    let pair = libp2p::identity::Keypair::from_protobuf_encoding(encoded);
    let ed25519 = pair.map_err(|e| e.to_string())?.try_into_ed25519().map_err(|e| e.to_string())?;
    Ok(ed25519.secret().as_ref().try_into().unwrap())
}

/// `libp2p::identity::Keypair::to_protobuf_encoding` of the Ed25519 key pair built
/// from a secret: it always succeeds, and reading it back gives the secret.
#[verifier::external_body]
fn encode_protobuf(secret: &[u8; 32]) -> (r: Vec<u8>)
    ensures
        r@ == protobuf_of_secret(secret@),
        secret_of_protobuf(r@) is Ok,
        secret_of_protobuf(r@)->Ok_0 == secret@,
{
    let pair = libp2p::identity::Keypair::ed25519_from_bytes(*secret).unwrap();
    pair.to_protobuf_encoding().unwrap()
}

/// The identity of a relay and, where it was generated, what has to be written to
/// its file (readable by its owner only). `stored` is the content of the file, if
/// the file exists. The stored bytes are overwritten once they are read.
///
/// A generated identity is the one that a later start reads in the bytes to
/// write.
pub fn load_or_generate_keypair(stored: Option<Vec<u8>>) -> (r: core::result::Result<
    (Keypair, Option<Vec<u8>>),
    String,
>)
    ensures
        match stored {
            Some(bytes) => match secret_of_protobuf(bytes@) {
                Ok(secret) => r matches Ok((k, None)) && k@ == secret,
                Err(why) => r matches Err(e) && e@ == why,
            },
            None => r matches Ok((k, Some(bytes))) && bytes@ == protobuf_of_secret(k@)
                && secret_of_protobuf(bytes@) == Ok::<Seq<u8>, Seq<char>>(k@),
        },
{
    match stored {
        Some(bytes) => {
            let mut raw = bytes;
            let decoded = decode_protobuf(raw.as_slice());
            wipe_bytes(&mut raw);
            match decoded {
                Ok(secret) => Ok((Keypair::from_secret(secret), None)),
                Err(e) => Err(e),
            }
        },
        None => {
            let keypair = generate();
            let encoded = encode_protobuf(keypair.secret_array());
            Ok((keypair, Some(encoded)))
        },
    }
}

} // verus!
