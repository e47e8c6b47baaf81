//! Errors of the Nux-Auth engine.
//!
//! These errors are meant for the log and for the local operator. They are
//! never sent to a remote peer: when an authentication fails, the node closes
//! the connection without a word.

use vstd::prelude::*;
use vstd::string::StringExecFns;
use crate::text::push_octal;

verus! {

/// Unified error of the library.
#[derive(Debug)]
pub enum NuxError {
    /// The cryptographic identity could not be loaded or validated.
    Identity(String),
    /// The private key file is readable by others than its owner (the mode
    /// must be 0600 at most).
    InsecureKeyPermissions {
        /// Path of the file.
        path: String,
        /// Unix mode found.
        mode: u32,
    },
    /// Input/output error (key file, socket...).
    Io(String),
    /// The network stack could not be built.
    Network(String),
    /// The multiaddr is invalid or the transport refuses it.
    Transport(String),
    /// A dial failed.
    Dial(String),
    /// The remote Guard refused access, by an explicit `Denied` or by closing
    /// the connection in silence. Both look the same on purpose.
    AccessDenied,
    /// A message that does not fit the state of the handshake.
    Protocol(String),
    /// A tunnel could not be opened or relayed.
    Tunnel(String),
    /// A configuration that is unreadable, malformed or fails validation.
    Config(String),
}

/// Result of the library.
pub type Result<T> = std::result::Result<T, NuxError>;

/// The text of an error, as the operator reads it.
pub open spec fn error_text(e: NuxError) -> Seq<char> {
    match e {
        NuxError::Identity(m) => "identité: "@ + m@,
        NuxError::InsecureKeyPermissions { path, mode } => {
            "permissions trop laxistes sur le fichier de clé `"@ + path@ + "`: mode "@
                + crate::text::octal(mode as nat) + ", attendu 0600"@
        },
        NuxError::Io(m) => "e/s: "@ + m@,
        NuxError::Network(m) => "pile réseau: "@ + m@,
        NuxError::Transport(m) => "transport: "@ + m@,
        NuxError::Dial(m) => "connexion: "@ + m@,
        NuxError::AccessDenied => "accès refusé par le pair distant"@,
        NuxError::Protocol(m) => "violation de protocole: "@ + m@,
        NuxError::Tunnel(m) => "tunnel: "@ + m@,
        NuxError::Config(m) => "configuration: "@ + m@,
    }
}

impl NuxError {
    /// The text of the error, as the operator reads it.
    pub fn message(&self) -> (r: String)
        ensures
            r@ == error_text(*self),
    {
        match self {
            NuxError::Identity(m) => "identité: ".to_owned().concat(m.as_str()),
            NuxError::InsecureKeyPermissions { path, mode } => {
                let mut out = "permissions trop laxistes sur le fichier de clé `".to_owned();
                out.append(path.as_str());
                out.append("`: mode ");
                push_octal(&mut out, *mode as u64);
                out.append(", attendu 0600");
                out
            },
            NuxError::Io(m) => "e/s: ".to_owned().concat(m.as_str()),
            NuxError::Network(m) => "pile réseau: ".to_owned().concat(m.as_str()),
            NuxError::Transport(m) => "transport: ".to_owned().concat(m.as_str()),
            NuxError::Dial(m) => "connexion: ".to_owned().concat(m.as_str()),
            NuxError::AccessDenied => "accès refusé par le pair distant".to_owned(),
            NuxError::Protocol(m) => "violation de protocole: ".to_owned().concat(m.as_str()),
            NuxError::Tunnel(m) => "tunnel: ".to_owned().concat(m.as_str()),
            NuxError::Config(m) => "configuration: ".to_owned().concat(m.as_str()),
        }
    }
}

/// The text of an error ends with the reason it carries; that of a key file with too many rights
/// names the file and its mode in octal.
pub proof fn error_text_tells_the_reason(e: NuxError)
    ensures
        match e {
            NuxError::Identity(m) | NuxError::Io(m) | NuxError::Network(m) | NuxError::Transport(m)
            | NuxError::Dial(m) | NuxError::Protocol(m) | NuxError::Tunnel(m) | NuxError::Config(
                m,
            ) => error_text(e).len() >= m@.len() && error_text(e).skip(
                error_text(e).len() - m@.len(),
            ) == m@,
            NuxError::InsecureKeyPermissions { path, mode } => error_text(e)
                == "permissions trop laxistes sur le fichier de clé `"@ + path@ + "`: mode "@
                + crate::text::octal(mode as nat) + ", attendu 0600"@,
            NuxError::AccessDenied => error_text(e) == "accès refusé par le pair distant"@,
        },
{
    match e {
        NuxError::Identity(m) => {
            assert(error_text(e).skip(error_text(e).len() - m@.len()) =~= m@);
        },
        NuxError::Io(m) => {
            assert(error_text(e).skip(error_text(e).len() - m@.len()) =~= m@);
        },
        NuxError::Network(m) => {
            assert(error_text(e).skip(error_text(e).len() - m@.len()) =~= m@);
        },
        NuxError::Transport(m) => {
            assert(error_text(e).skip(error_text(e).len() - m@.len()) =~= m@);
        },
        NuxError::Dial(m) => {
            assert(error_text(e).skip(error_text(e).len() - m@.len()) =~= m@);
        },
        NuxError::Protocol(m) => {
            assert(error_text(e).skip(error_text(e).len() - m@.len()) =~= m@);
        },
        NuxError::Tunnel(m) => {
            assert(error_text(e).skip(error_text(e).len() - m@.len()) =~= m@);
        },
        NuxError::Config(m) => {
            assert(error_text(e).skip(error_text(e).len() - m@.len()) =~= m@);
        },
        _ => {},
    }
}

/// The text of an error begins with what the error is about.
pub proof fn error_text_tells_the_subject(m: String)
    ensures
        error_text(NuxError::Identity(m)) == "identité: "@ + m@,
        error_text(NuxError::Io(m)) == "e/s: "@ + m@,
        error_text(NuxError::Network(m)) == "pile réseau: "@ + m@,
        error_text(NuxError::Transport(m)) == "transport: "@ + m@,
        error_text(NuxError::Dial(m)) == "connexion: "@ + m@,
        error_text(NuxError::Protocol(m)) == "violation de protocole: "@ + m@,
        error_text(NuxError::Tunnel(m)) == "tunnel: "@ + m@,
        error_text(NuxError::Config(m)) == "configuration: "@ + m@,
{
}

} // verus!
