//! Configuration of a Guard.
//!
//! The whole topology (addresses, whitelist, exposed services, rate limit, expected
//! fingerprints) stands in one file; the identity is kept out of it on purpose. The
//! rules here take the fields of the file as they were written and validate them.

use vstd::prelude::*;
use vstd::string::StringExecFns;
use crate::addr::{IpAddr, Multiaddr, Namespace};
use crate::auth::Whitelist;
use crate::cli::document::{
    check_toml,
    rewrite,
    sections_are_writable,
    TomlDocModel,
    TomlSection,
    TomlSectionModel,
    TomlValue,
    TomlValueModel,
};
use crate::error::{NuxError, Result};
use crate::identity::hex_decode;
use crate::peer::PeerId;
use crate::protocol::clone_texts;
use crate::text::{push_decimal, trim};

verus! {

/// Nanoseconds in a second.
pub const NANOS_PER_SEC: u128 = 1_000_000_000;

/// Address on which a Guard listens by default.
pub fn default_listen() -> (r: String)
    ensures
        r@ == "/ip4/0.0.0.0/tcp/4588"@,
{
    "/ip4/0.0.0.0/tcp/4588".to_owned()
}

/// Connections per address and per window by default.
pub fn default_rate_max() -> (r: u32)
    ensures
        r == crate::rate_limit::DEFAULT_MAX_PER_WINDOW,
{
    crate::rate_limit::DEFAULT_MAX_PER_WINDOW
}

/// Window of the rate limit by default, in seconds.
pub fn default_rate_window_secs() -> (r: u64)
    ensures
        r * NANOS_PER_SEC == crate::rate_limit::DEFAULT_WINDOW,
{
    60
}

/// An address exempt from the rate limit, as it was written and as it was read (or the
/// text of the error).
pub struct RawExempt {
    /// As it was written.
    pub text: String,
    /// As it was read.
    pub parsed: core::result::Result<IpAddr, String>,
}

/// Rate limit, as it was written.
pub struct RawRateLimit {
    /// Connections per address and per window.
    pub max: u32,
    /// Window, in seconds.
    pub window_secs: u64,
    /// Exempt addresses.
    pub exempt: Vec<RawExempt>,
}

impl Default for RawRateLimit {
    fn default() -> (r: Self)
        ensures
            r.max == crate::rate_limit::DEFAULT_MAX_PER_WINDOW,
            r.window_secs * NANOS_PER_SEC == crate::rate_limit::DEFAULT_WINDOW,
            r.exempt@.len() == 0,
    {
        RawRateLimit {
            max: default_rate_max(),
            window_secs: default_rate_window_secs(),
            exempt: Vec::new(),
        }
    }
}

/// Authorised peer, as it was written.
pub struct RawAllow {
    /// Peer id.
    pub peer: String,
    /// Roles.
    pub roles: Vec<String>,
}

/// Exposed service, as it was written.
pub struct RawExpose {
    /// Logical name.
    pub name: String,
    /// Local port.
    pub port: u16,
    /// Required role.
    pub role: Option<String>,
}

/// Expected fingerprint, as it was written.
pub struct RawChecksumBin {
    /// Peer id.
    pub peer: String,
    /// Fingerprint in hexadecimal.
    pub sha256: String,
}

/// Configuration of a Guard, as it was written.
pub struct RawConfig {
    /// Address on which it listens.
    pub listen: String,
    /// Rate limit.
    pub rate_limit: RawRateLimit,
    /// Whitelist.
    pub allow: Vec<RawAllow>,
    /// Exposed services.
    pub expose: Vec<RawExpose>,
    /// Expected fingerprints.
    pub checksum_bin: Vec<RawChecksumBin>,
    /// Relay.
    pub relay: Option<String>,
    /// Name at the rendezvous point of the relay.
    pub namespace: Option<String>,
}

/// The addresses and peers of a configuration, as they were read (or the texts of the
/// errors).
pub struct Readings {
    /// Address on which the Guard listens.
    pub listen: core::result::Result<Multiaddr, String>,
    /// Authorised peers, in order.
    pub allow: Vec<core::result::Result<PeerId, String>>,
    /// Peers with an expected fingerprint, in order.
    pub checksum_bin: Vec<core::result::Result<PeerId, String>>,
    /// Relay, if there is one.
    pub relay: Option<core::result::Result<Multiaddr, String>>,
}

/// Content of [`Readings`].
#[verifier::ext_equal]
pub struct ReadingsModel {
    pub listen: core::result::Result<Seq<u8>, Seq<char>>,
    pub allow: Seq<core::result::Result<Seq<u8>, Seq<char>>>,
    pub checksum_bin: Seq<core::result::Result<Seq<u8>, Seq<char>>>,
    pub relay: Option<core::result::Result<Seq<u8>, Seq<char>>>,
}

/// The content of an address that was read.
pub open spec fn addr_reading(r: core::result::Result<Multiaddr, String>) -> core::result::Result<
    Seq<u8>,
    Seq<char>,
> {
    match r {
        Ok(a) => Ok(a@),
        Err(e) => Err(e@),
    }
}

/// The content of a peer that was read.
pub open spec fn peer_reading(r: core::result::Result<PeerId, String>) -> core::result::Result<
    Seq<u8>,
    Seq<char>,
> {
    match r {
        Ok(p) => Ok(p@),
        Err(e) => Err(e@),
    }
}

impl View for Readings {
    type V = ReadingsModel;

    open spec fn view(&self) -> ReadingsModel {
        ReadingsModel {
            listen: addr_reading(self.listen),
            allow: Seq::new(self.allow@.len(), |i: int| peer_reading(self.allow@[i])),
            checksum_bin: Seq::new(
                self.checksum_bin@.len(),
                |i: int| peer_reading(self.checksum_bin@[i]),
            ),
            relay: match self.relay {
                Some(r) => Some(addr_reading(r)),
                None => None,
            },
        }
    }
}

/// What the addresses and peers of a configuration are read as.
pub open spec fn readings_of(raw: RawConfig) -> ReadingsModel {
    ReadingsModel {
        listen: crate::addr::multiaddr_of_text(raw.listen@),
        allow: Seq::new(
            raw.allow@.len(),
            |i: int| crate::peer::peer_id_of_text(raw.allow@[i].peer@),
        ),
        checksum_bin: Seq::new(
            raw.checksum_bin@.len(),
            |i: int| crate::peer::peer_id_of_text(raw.checksum_bin@[i].peer@),
        ),
        relay: match raw.relay {
            Some(text) => Some(crate::addr::multiaddr_of_text(text@)),
            None => None,
        },
    }
}

/// What became of the file of a configuration.
pub enum ConfigFile {
    /// It cannot be read, with the text of the error.
    Unreadable(String),
    /// It is not TOML of the expected shape, with the text of the error.
    Malformed(String),
    /// Its fields.
    Parsed(RawConfig),
}

/// Validated configuration of a Guard.
pub struct GuardConfig {
    /// Address on which it listens.
    pub listen: Multiaddr,
    /// Connections per address and per window.
    pub rate_limit_max: u32,
    /// Window, in nanoseconds.
    pub rate_limit_window: u128,
    /// Addresses exempt from the rate limit.
    pub rate_limit_exempt: Vec<IpAddr>,
    /// Whitelist.
    pub whitelist: Whitelist,
    /// Exposed services: name, local port, required role.
    pub expose: Vec<(String, u16, Option<String>)>,
    /// Expected fingerprints.
    pub checksum_bin: Vec<(PeerId, [u8; 32])>,
    /// Relay at which a circuit is reserved, for a Guard without a public address.
    pub relay: Option<Multiaddr>,
    /// Name under which the Guard registers at the rendezvous point of the relay.
    pub namespace: Option<Namespace>,
}

/// Content of a [`GuardConfig`].
#[verifier::ext_equal]
pub struct ConfigModel {
    pub listen: Seq<u8>,
    pub rate_limit_max: u32,
    pub rate_limit_window: u128,
    pub rate_limit_exempt: Seq<IpAddr>,
    pub whitelist: Map<Seq<u8>, Seq<Seq<char>>>,
    pub expose: Seq<(Seq<char>, u16, Option<Seq<char>>)>,
    pub checksum_bin: Seq<(Seq<u8>, Seq<u8>)>,
    pub relay: Option<Seq<u8>>,
    pub namespace: Option<Seq<char>>,
}

/// The contents of exposed services.
pub open spec fn expose_models(v: Seq<(String, u16, Option<String>)>) -> Seq<
    (Seq<char>, u16, Option<Seq<char>>),
> {
    Seq::new(v.len(), |i: int| (v[i].0@, v[i].1, crate::text::opt_text(v[i].2)))
}

/// The contents of expected fingerprints.
pub open spec fn checksum_models(v: Seq<(PeerId, [u8; 32])>) -> Seq<(Seq<u8>, Seq<u8>)> {
    Seq::new(v.len(), |i: int| (v[i].0@, v[i].1@))
}

impl View for GuardConfig {
    type V = ConfigModel;

    open spec fn view(&self) -> ConfigModel {
        ConfigModel {
            listen: self.listen@,
            rate_limit_max: self.rate_limit_max,
            rate_limit_window: self.rate_limit_window,
            rate_limit_exempt: self.rate_limit_exempt@,
            whitelist: self.whitelist@,
            expose: expose_models(self.expose@),
            checksum_bin: checksum_models(self.checksum_bin@),
            relay: match self.relay {
                Some(a) => Some(a@),
                None => None,
            },
            namespace: match self.namespace {
                Some(n) => Some(n@),
                None => None,
            },
        }
    }
}

/// What a hexadecimal SHA-256 denotes, or the message of the refusal.
pub open spec fn sha256_of(value: Seq<char>) -> core::result::Result<Seq<u8>, Seq<char>> {
    let text = crate::text::trimmed(value);
    if !crate::identity::is_hex(text) {
        Err("hexadécimal invalide: "@ + crate::identity::hex_error(text))
    } else if crate::identity::hex_bytes(text).len() != 32 {
        Err(
            "longueur invalide: "@ + crate::text::decimal(crate::identity::hex_bytes(text).len())
                + " octets, attendu 32"@,
        )
    } else {
        Ok(crate::identity::hex_bytes(text))
    }
}

/// Decodes a hexadecimal SHA-256 (64 digits).
pub fn parse_sha256_hex(value: &str) -> (r: core::result::Result<[u8; 32], String>)
    ensures
        sha256_of(value@) == (match r {
            Ok(h) => Ok(h@),
            Err(e) => Err(e@),
        }),
{
    let bytes = match hex_decode(trim(value)) {
        Ok(bytes) => bytes,
        Err(e) => {
            return Err("hexadécimal invalide: ".to_owned().concat(e.as_str()));
        },
    };
    if bytes.len() != 32 {
        let mut message = "longueur invalide: ".to_owned();
        push_decimal(&mut message, bytes.len() as u64);
        message.append(" octets, attendu 32");
        return Err(message);
    }
    let mut hash: [u8; 32] = [0u8; 32];
    let mut i: usize = 0;
    while i < 32
        invariant
            i <= 32,
            bytes@.len() == 32,
            forall|j: int| 0 <= j < i ==> hash@[j] == bytes@[j],
        decreases 32 - i,
    {
        hash[i] = bytes[i];
        i += 1;
    }
    assert(hash@ =~= bytes@);
    Ok(hash)
}

/// A message that quotes a field and gives the reason of its refusal.
pub open spec fn invalid(field: Seq<char>, quoted: Seq<char>, why: Seq<char>) -> Seq<char> {
    field + " `"@ + quoted + "` invalide: "@ + why
}

fn invalid_text(field: &str, quoted: &str, why: &str) -> (r: String)
    ensures
        r@ == invalid(field@, quoted@, why@),
{
    let mut message = field.to_owned();
    message.append(" `");
    message.append(quoted);
    message.append("` invalide: ");
    message.append(why);
    message
}

/// One more exempt address.
pub open spec fn exempt_step() -> spec_fn(Seq<IpAddr>, RawExempt) -> core::result::Result<
    Seq<IpAddr>,
    Seq<char>,
> {
    |done: Seq<IpAddr>, e: RawExempt|
        match e.parsed {
            Ok(ip) => Ok(done.push(ip)),
            Err(why) => Err(invalid("rate_limit.exempt"@, e.text@, why@)),
        }
}

/// One more authorised peer, as it was written and as it was read.
pub open spec fn allow_step() -> spec_fn(
    Map<Seq<u8>, Seq<Seq<char>>>,
    (RawAllow, core::result::Result<Seq<u8>, Seq<char>>),
) -> core::result::Result<Map<Seq<u8>, Seq<Seq<char>>>, Seq<char>> {
    |
        done: Map<Seq<u8>, Seq<Seq<char>>>,
        e: (RawAllow, core::result::Result<Seq<u8>, Seq<char>>),
    |
        match e.1 {
            Ok(peer) => Ok(done.insert(peer, crate::protocol::texts(e.0.roles@))),
            Err(why) => Err(invalid("allow.peer"@, e.0.peer@, why)),
        }
}

/// Whether a service is already exposed.
pub open spec fn exposed(done: Seq<(Seq<char>, u16, Option<Seq<char>>)>, name: Seq<char>) -> bool {
    exists|i: int| 0 <= i < done.len() && (#[trigger] done[i]).0 == name
}

/// One more exposed service.
pub open spec fn expose_step() -> spec_fn(
    Seq<(Seq<char>, u16, Option<Seq<char>>)>,
    RawExpose,
) -> core::result::Result<Seq<(Seq<char>, u16, Option<Seq<char>>)>, Seq<char>> {
    |done: Seq<(Seq<char>, u16, Option<Seq<char>>)>, e: RawExpose|
        if exposed(done, e.name@) {
            Err("expose: service `"@ + e.name@ + "` défini plusieurs fois"@)
        } else {
            Ok(done.push((e.name@, e.port, crate::text::opt_text(e.role))))
        }
}

/// One more expected fingerprint, with its peer as it was read.
pub open spec fn checksum_step() -> spec_fn(
    Seq<(Seq<u8>, Seq<u8>)>,
    (RawChecksumBin, core::result::Result<Seq<u8>, Seq<char>>),
) -> core::result::Result<Seq<(Seq<u8>, Seq<u8>)>, Seq<char>> {
    |
        done: Seq<(Seq<u8>, Seq<u8>)>,
        e: (RawChecksumBin, core::result::Result<Seq<u8>, Seq<char>>),
    |
        match e.1 {
            Err(why) => Err(invalid("checksum_bin.peer"@, e.0.peer@, why)),
            Ok(peer) => match sha256_of(e.0.sha256@) {
                Err(why) => Err(invalid("checksum_bin.sha256"@, e.0.sha256@, why)),
                Ok(hash) => Ok(done.push((peer, hash))),
            },
        }
}

/// Entries with what each was read as.
pub open spec fn read_as<T>(
    entries: Seq<T>,
    readings: Seq<core::result::Result<Seq<u8>, Seq<char>>>,
) -> Seq<(T, core::result::Result<Seq<u8>, Seq<char>>)> {
    Seq::new(entries.len(), |i: int| (entries[i], readings[i]))
}

/// The exempt addresses, or the first refusal.
pub open spec fn exempts(v: Seq<RawExempt>) -> core::result::Result<Seq<IpAddr>, Seq<char>> {
    crate::fold::try_fold(v, Seq::empty(), exempt_step())
}

/// The whitelist, or the first refusal. A peer that occurs twice has its last roles.
pub open spec fn allows(
    v: Seq<RawAllow>,
    readings: Seq<core::result::Result<Seq<u8>, Seq<char>>>,
) -> core::result::Result<Map<Seq<u8>, Seq<Seq<char>>>, Seq<char>> {
    crate::fold::try_fold(read_as(v, readings), Map::empty(), allow_step())
}

/// The exposed services, or the first refusal.
pub open spec fn exposes(v: Seq<RawExpose>) -> core::result::Result<
    Seq<(Seq<char>, u16, Option<Seq<char>>)>,
    Seq<char>,
> {
    crate::fold::try_fold(v, Seq::empty(), expose_step())
}

/// The expected fingerprints, or the first refusal.
pub open spec fn checksums(
    v: Seq<RawChecksumBin>,
    readings: Seq<core::result::Result<Seq<u8>, Seq<char>>>,
) -> core::result::Result<Seq<(Seq<u8>, Seq<u8>)>, Seq<char>> {
    crate::fold::try_fold(read_as(v, readings), Seq::empty(), checksum_step())
}

/// The relay, or its refusal.
pub open spec fn relay_of(
    text: Option<String>,
    reading: Option<core::result::Result<Seq<u8>, Seq<char>>>,
) -> core::result::Result<Option<Seq<u8>>, Seq<char>> {
    match (text, reading) {
        (Some(_), Some(Ok(a))) => Ok(Some(a)),
        (Some(t), Some(Err(why))) => Err(invalid("relay"@, t@, why)),
        _ => Ok(None),
    }
}

/// The namespace, or its refusal.
pub open spec fn namespace_of(text: Option<String>) -> core::result::Result<
    Option<Seq<char>>,
    Seq<char>,
> {
    match text {
        None => Ok(None),
        Some(t) => if crate::addr::is_namespace(t@) {
            Ok(Some(t@))
        } else {
            Err(invalid("namespace"@, t@, "trop long"@))
        },
    }
}

/// The configuration that the fields of a file denote, or the message of the first
/// refusal, in the order in which the fields are looked at.
pub open spec fn resolved(raw: RawConfig) -> core::result::Result<ConfigModel, Seq<char>> {
    resolved_with(raw, readings_of(raw))
}

/// The configuration that the fields of a file denote, from what its addresses and peers
/// were read as.
pub open spec fn resolved_with(raw: RawConfig, readings: ReadingsModel) -> core::result::Result<
    ConfigModel,
    Seq<char>,
> {
    match readings.listen {
        Err(why) => Err(invalid("listen"@, raw.listen@, why)),
        Ok(listen) => if raw.rate_limit.window_secs == 0 {
            Err("rate_limit.window_secs doit être d'au moins 1"@)
        } else {
            match (exempts(raw.rate_limit.exempt@), allows(raw.allow@, readings.allow)) {
                (Err(e), _) => Err(e),
                (_, Err(e)) => Err(e),
                (Ok(rate_limit_exempt), Ok(whitelist)) => match (
                    exposes(raw.expose@),
                    checksums(raw.checksum_bin@, readings.checksum_bin),
                ) {
                    (Err(e), _) => Err(e),
                    (_, Err(e)) => Err(e),
                    (Ok(expose), Ok(checksum_bin)) => match (
                        relay_of(raw.relay, readings.relay),
                        namespace_of(raw.namespace),
                    ) {
                        (Err(e), _) => Err(e),
                        (_, Err(e)) => Err(e),
                        (Ok(relay), Ok(namespace)) => if namespace is Some && relay is None {
                            Err(
                                "namespace exige `relay` : l'enregistrement transite par cette connexion"@,
                            )
                        } else {
                            Ok(
                                ConfigModel {
                                    listen,
                                    rate_limit_max: raw.rate_limit.max,
                                    rate_limit_window: (raw.rate_limit.window_secs
                                        * NANOS_PER_SEC) as u128,
                                    rate_limit_exempt,
                                    whitelist,
                                    expose,
                                    checksum_bin,
                                    relay,
                                    namespace,
                                },
                            )
                        },
                    },
                },
            }
        },
    }
}

fn resolve_exempt(v: &Vec<RawExempt>) -> (r: core::result::Result<Vec<IpAddr>, String>)
    ensures
        exempts(v@) == (match r {
            Ok(out) => Ok(out@),
            Err(e) => Err(e@),
        }),
{
    let mut out: Vec<IpAddr> = Vec::new();
    let mut i: usize = 0;
    while i < v.len()
        invariant
            i <= v@.len(),
            exempts(v@.take(i as int)) == Ok::<Seq<IpAddr>, Seq<char>>(out@),
        decreases v@.len() - i,
    {
        proof {
            crate::fold::lemma_try_fold_next(v@, Seq::empty(), exempt_step(), i as int);
        }
        let entry = &v[i];
        match &entry.parsed {
            Ok(ip) => {
                out.push(*ip);
            },
            Err(why) => {
                proof {
                    crate::fold::lemma_try_fold_error(v@, Seq::empty(), exempt_step(), i + 1);
                }
                return Err(
                    invalid_text("rate_limit.exempt", entry.text.as_str(), why.as_str()),
                );
            },
        }
        i += 1;
    }
    assert(v@.take(v@.len() as int) =~= v@);
    Ok(out)
}

fn resolve_allow(
    v: &Vec<RawAllow>,
    readings: &Vec<core::result::Result<PeerId, String>>,
    Ghost(models): Ghost<Seq<core::result::Result<Seq<u8>, Seq<char>>>>,
) -> (r: core::result::Result<Whitelist, String>)
    requires
        v@.len() == readings@.len(),
        models == Seq::new(readings@.len(), |i: int| peer_reading(readings@[i])),
    ensures
        allows(v@, models) == (match r {
            Ok(out) => Ok(out@),
            Err(e) => Err(e@),
        }),
        r matches Ok(out) ==> out.wf(),
{
    let ghost items = read_as(v@, models);
    let mut out = Whitelist::new();
    let mut i: usize = 0;
    while i < v.len()
        invariant
            i <= v@.len(),
            v@.len() == readings@.len(),
            models == Seq::new(readings@.len(), |i: int| peer_reading(readings@[i])),
            items == read_as(v@, models),
            out.wf(),
            crate::fold::try_fold(items.take(i as int), Map::empty(), allow_step()) == Ok::<
                Map<Seq<u8>, Seq<Seq<char>>>,
                Seq<char>,
            >(out@),
        decreases v@.len() - i,
    {
        proof {
            crate::fold::lemma_try_fold_next(items, Map::empty(), allow_step(), i as int);
        }
        let entry = &v[i];
        match &readings[i] {
            Ok(peer) => {
                out.allow(peer.clone(), clone_texts(&entry.roles));
            },
            Err(why) => {
                proof {
                    crate::fold::lemma_try_fold_error(items, Map::empty(), allow_step(), i + 1);
                }
                return Err(invalid_text("allow.peer", entry.peer.as_str(), why.as_str()));
            },
        }
        i += 1;
    }
    assert(items.take(items.len() as int) =~= items);
    Ok(out)
}

fn is_exposed(done: &Vec<(String, u16, Option<String>)>, name: &String) -> (r: bool)
    ensures
        r == exposed(expose_models(done@), name@),
{
    let mut i: usize = 0;
    while i < done.len()
        invariant
            i <= done@.len(),
            forall|j: int| 0 <= j < i ==> (#[trigger] expose_models(done@)[j]).0 != name@,
        decreases done@.len() - i,
    {
        if done[i].0 == *name {
            assert(expose_models(done@)[i as int].0 == name@);
            return true;
        }
        i += 1;
    }
    false
}

fn resolve_expose(v: &Vec<RawExpose>) -> (r: core::result::Result<
    Vec<(String, u16, Option<String>)>,
    String,
>)
    ensures
        exposes(v@) == (match r {
            Ok(out) => Ok(expose_models(out@)),
            Err(e) => Err(e@),
        }),
        r matches Ok(out) ==> out@.len() == v@.len() && (forall|i: int|
            0 <= i < v@.len() ==> (#[trigger] out@[i]).0@ == v@[i].name@ && out@[i].1 == v@[i].port
                && crate::text::opt_text(out@[i].2) == crate::text::opt_text(v@[i].role)),
{
    let mut out: Vec<(String, u16, Option<String>)> = Vec::new();
    let mut i: usize = 0;
    assert(expose_models(out@) =~= Seq::empty());
    while i < v.len()
        invariant
            i <= v@.len(),
            exposes(v@.take(i as int)) == Ok::<
                Seq<(Seq<char>, u16, Option<Seq<char>>)>,
                Seq<char>,
            >(expose_models(out@)),
            out@.len() == i,
            forall|j: int|
                0 <= j < i ==> (#[trigger] out@[j]).0@ == v@[j].name@ && out@[j].1 == v@[j].port
                    && crate::text::opt_text(out@[j].2) == crate::text::opt_text(v@[j].role),
        decreases v@.len() - i,
    {
        proof {
            crate::fold::lemma_try_fold_next(v@, Seq::empty(), expose_step(), i as int);
        }
        let entry = &v[i];
        if is_exposed(&out, &entry.name) {
            proof {
                crate::fold::lemma_try_fold_error(v@, Seq::empty(), expose_step(), i + 1);
            }
            let mut message = "expose: service `".to_owned();
            message.append(entry.name.as_str());
            message.append("` défini plusieurs fois");
            return Err(message);
        }
        let role = match &entry.role {
            Some(role) => Some(role.clone()),
            None => None,
        };
        let ghost before = expose_models(out@);
        out.push((entry.name.clone(), entry.port, role));
        assert(expose_models(out@) =~= before.push(
            (entry.name@, entry.port, crate::text::opt_text(entry.role)),
        ));
        i += 1;
    }
    assert(v@.take(v@.len() as int) =~= v@);
    Ok(out)
}

fn resolve_checksums(
    v: &Vec<RawChecksumBin>,
    readings: &Vec<core::result::Result<PeerId, String>>,
    Ghost(models): Ghost<Seq<core::result::Result<Seq<u8>, Seq<char>>>>,
) -> (r: core::result::Result<Vec<(PeerId, [u8; 32])>, String>)
    requires
        v@.len() == readings@.len(),
        models == Seq::new(readings@.len(), |i: int| peer_reading(readings@[i])),
    ensures
        checksums(v@, models) == (match r {
            Ok(out) => Ok(checksum_models(out@)),
            Err(e) => Err(e@),
        }),
{
    let ghost items = read_as(v@, models);
    let mut out: Vec<(PeerId, [u8; 32])> = Vec::new();
    let mut i: usize = 0;
    assert(checksum_models(out@) =~= Seq::empty());
    while i < v.len()
        invariant
            i <= v@.len(),
            v@.len() == readings@.len(),
            models == Seq::new(readings@.len(), |i: int| peer_reading(readings@[i])),
            items == read_as(v@, models),
            crate::fold::try_fold(items.take(i as int), Seq::empty(), checksum_step()) == Ok::<
                Seq<(Seq<u8>, Seq<u8>)>,
                Seq<char>,
            >(checksum_models(out@)),
        decreases v@.len() - i,
    {
        proof {
            crate::fold::lemma_try_fold_next(items, Seq::empty(), checksum_step(), i as int);
        }
        let entry = &v[i];
        let peer = match &readings[i] {
            Ok(peer) => peer.clone(),
            Err(why) => {
                proof {
                    crate::fold::lemma_try_fold_error(items, Seq::empty(), checksum_step(), i + 1);
                }
                return Err(
                    invalid_text("checksum_bin.peer", entry.peer.as_str(), why.as_str()),
                );
            },
        };
        let hash = match parse_sha256_hex(entry.sha256.as_str()) {
            Ok(hash) => hash,
            Err(why) => {
                proof {
                    crate::fold::lemma_try_fold_error(items, Seq::empty(), checksum_step(), i + 1);
                }
                return Err(
                    invalid_text("checksum_bin.sha256", entry.sha256.as_str(), why.as_str()),
                );
            },
        };
        let ghost before = checksum_models(out@);
        let ghost pair = (peer@, hash@);
        out.push((peer, hash));
        assert(checksum_models(out@) =~= before.push(pair));
        i += 1;
    }
    assert(items.take(items.len() as int) =~= items);
    Ok(out)
}

fn resolve_relay(
    text: &Option<String>,
    reading: &Option<core::result::Result<Multiaddr, String>>,
) -> (r: core::result::Result<Option<Multiaddr>, String>)
    ensures
        relay_of(
            *text,
            match *reading {
                Some(a) => Some(addr_reading(a)),
                None => None,
            },
        ) == (match r {
            Ok(Some(a)) => Ok(Some(a@)),
            Ok(None) => Ok(None),
            Err(e) => Err(e@),
        }),
{
    match (text, reading) {
        (Some(_), Some(Ok(a))) => Ok(Some(a.clone())),
        (Some(t), Some(Err(why))) => Err(invalid_text("relay", t.as_str(), why.as_str())),
        _ => Ok(None),
    }
}

fn resolve_namespace(text: &Option<String>) -> (r: core::result::Result<
    Option<Namespace>,
    String,
>)
    ensures
        namespace_of(*text) == (match r {
            Ok(Some(n)) => Ok(Some(n@)),
            Ok(None) => Ok(None),
            Err(e) => Err(e@),
        }),
{
    match text {
        None => Ok(None),
        Some(t) => match Namespace::new(t.as_str()) {
            Some(n) => Ok(Some(n)),
            None => Err(invalid_text("namespace", t.as_str(), "trop long")),
        },
    }
}

/// Reads the addresses and peers of a configuration.
fn read_fields(raw: &RawConfig) -> (r: Readings)
    ensures
        r@ == readings_of(*raw),
{
    let mut allow: Vec<core::result::Result<PeerId, String>> = Vec::new();
    let mut i: usize = 0;
    while i < raw.allow.len()
        invariant
            i <= raw.allow@.len(),
            allow@.len() == i,
            forall|j: int|
                0 <= j < i ==> peer_reading(#[trigger] allow@[j]) == crate::peer::peer_id_of_text(
                    raw.allow@[j].peer@,
                ),
        decreases raw.allow@.len() - i,
    {
        allow.push(PeerId::parse(raw.allow[i].peer.as_str()));
        i += 1;
    }
    let mut checksum_bin: Vec<core::result::Result<PeerId, String>> = Vec::new();
    let mut n: usize = 0;
    while n < raw.checksum_bin.len()
        invariant
            n <= raw.checksum_bin@.len(),
            checksum_bin@.len() == n,
            forall|j: int|
                0 <= j < n ==> peer_reading(#[trigger] checksum_bin@[j])
                    == crate::peer::peer_id_of_text(raw.checksum_bin@[j].peer@),
        decreases raw.checksum_bin@.len() - n,
    {
        checksum_bin.push(PeerId::parse(raw.checksum_bin[n].peer.as_str()));
        n += 1;
    }
    let relay = match &raw.relay {
        Some(text) => Some(Multiaddr::parse(text.as_str())),
        None => None,
    };
    let r = Readings { listen: Multiaddr::parse(raw.listen.as_str()), allow, checksum_bin, relay };
    assert(r@ =~= readings_of(*raw));
    r
}

/// Validates the fields of a configuration.
pub fn resolve(raw: &RawConfig) -> (r: core::result::Result<GuardConfig, String>)
    ensures
        resolved(*raw) == (match r {
            Ok(c) => Ok(c@),
            Err(e) => Err(e@),
        }),
        r matches Ok(c) ==> c.whitelist.wf(),
        r matches Ok(c) ==> c.expose@.len() == raw.expose@.len() && (forall|i: int|
            0 <= i < raw.expose@.len() ==> (#[trigger] c.expose@[i]).0@ == raw.expose@[i].name@
                && c.expose@[i].1 == raw.expose@[i].port && crate::text::opt_text(c.expose@[i].2)
                == crate::text::opt_text(raw.expose@[i].role)),
{
    let readings = read_fields(raw);
    assert(readings@.allow.len() == raw.allow@.len());
    assert(readings@.checksum_bin.len() == raw.checksum_bin@.len());
    resolve_with(raw, readings)
}

/// Validates the fields of a configuration, from what its addresses and peers were read
/// as.
pub fn resolve_with(raw: &RawConfig, readings: Readings) -> (r: core::result::Result<
    GuardConfig,
    String,
>)
    requires
        readings.allow@.len() == raw.allow@.len(),
        readings.checksum_bin@.len() == raw.checksum_bin@.len(),
    ensures
        resolved_with(*raw, readings@) == (match r {
            Ok(c) => Ok(c@),
            Err(e) => Err(e@),
        }),
        r matches Ok(c) ==> c.whitelist.wf(),
        r matches Ok(c) ==> c.expose@.len() == raw.expose@.len() && (forall|i: int|
            0 <= i < raw.expose@.len() ==> (#[trigger] c.expose@[i]).0@ == raw.expose@[i].name@
                && c.expose@[i].1 == raw.expose@[i].port && crate::text::opt_text(c.expose@[i].2)
                == crate::text::opt_text(raw.expose@[i].role)),
{
    let ghost models = readings@;
    let listen = match readings.listen {
        Ok(a) => a,
        Err(why) => {
            return Err(invalid_text("listen", raw.listen.as_str(), why.as_str()));
        },
    };
    if raw.rate_limit.window_secs == 0 {
        return Err("rate_limit.window_secs doit être d'au moins 1".to_owned());
    }
    let rate_limit_exempt = match resolve_exempt(&raw.rate_limit.exempt) {
        Ok(v) => v,
        Err(e) => {
            return Err(e);
        },
    };
    let whitelist = match resolve_allow(&raw.allow, &readings.allow, Ghost(models.allow)) {
        Ok(v) => v,
        Err(e) => {
            return Err(e);
        },
    };
    let expose = match resolve_expose(&raw.expose) {
        Ok(v) => v,
        Err(e) => {
            return Err(e);
        },
    };
    let checksum_bin = match resolve_checksums(
        &raw.checksum_bin,
        &readings.checksum_bin,
        Ghost(models.checksum_bin),
    ) {
        Ok(v) => v,
        Err(e) => {
            return Err(e);
        },
    };
    let relay = match resolve_relay(&raw.relay, &readings.relay) {
        Ok(v) => v,
        Err(e) => {
            return Err(e);
        },
    };
    let namespace = match resolve_namespace(&raw.namespace) {
        Ok(v) => v,
        Err(e) => {
            return Err(e);
        },
    };
    if namespace.is_some() && relay.is_none() {
        return Err(
            "namespace exige `relay` : l'enregistrement transite par cette connexion".to_owned(),
        );
    }
    assert(raw.rate_limit.window_secs as u128 * NANOS_PER_SEC <= u128::MAX) by (nonlinear_arith)
        requires
            raw.rate_limit.window_secs <= u64::MAX,
            NANOS_PER_SEC == 1_000_000_000,
    ;
    Ok(
        GuardConfig {
            listen,
            rate_limit_max: raw.rate_limit.max,
            rate_limit_window: raw.rate_limit.window_secs as u128 * NANOS_PER_SEC,
            rate_limit_exempt,
            whitelist,
            expose,
            checksum_bin,
            relay,
            namespace,
        },
    )
}

/// Loads the configuration of a Guard from what became of its file.
pub fn load(path: &str, file: ConfigFile) -> (r: Result<GuardConfig>)
    ensures
        match file {
            ConfigFile::Unreadable(why) => r matches Err(NuxError::Config(m)) && m@
                == "lecture de `"@ + path@ + "`: "@ + why@,
            ConfigFile::Malformed(why) => r matches Err(NuxError::Config(m)) && m@
                == "TOML invalide dans `"@ + path@ + "`: "@ + why@,
            ConfigFile::Parsed(raw) => match resolved(raw) {
                Ok(c) => r matches Ok(v) && v@ == c && v.whitelist.wf() && v.expose@.len()
                    == raw.expose@.len() && (forall|i: int|
                    0 <= i < raw.expose@.len() ==> (#[trigger] v.expose@[i]).0@
                        == raw.expose@[i].name@ && v.expose@[i].1 == raw.expose@[i].port
                        && crate::text::opt_text(v.expose@[i].2) == crate::text::opt_text(
                        raw.expose@[i].role,
                    )),
                Err(why) => r matches Err(NuxError::Config(m)) && m@ == why,
            },
        },
{
    match file {
        ConfigFile::Unreadable(why) => Err(
            NuxError::Config(about_file("lecture de `", path, why.as_str())),
        ),
        ConfigFile::Malformed(why) => Err(
            NuxError::Config(about_file("TOML invalide dans `", path, why.as_str())),
        ),
        ConfigFile::Parsed(raw) => match resolve(&raw) {
            Ok(config) => Ok(config),
            Err(why) => Err(NuxError::Config(why)),
        },
    }
}

fn about_file(head: &str, path: &str, why: &str) -> (r: String)
    ensures
        r@ == head@ + path@ + "`: "@ + why@,
{
    let mut message = head.to_owned();
    message.append(path);
    message.append("`: ");
    message.append(why);
    message
}

/// No two exposed services share a name.
pub open spec fn distinct_services(v: Seq<(Seq<char>, u16, Option<Seq<char>>)>) -> bool {
    forall|i: int, j: int| 0 <= i < j < v.len() ==> (#[trigger] v[i]).0 != (#[trigger] v[j]).0
}

proof fn lemma_distinct_services(v: Seq<RawExpose>)
    ensures
        exposes(v) matches Ok(done) ==> distinct_services(done),
    decreases v.len(),
{
    if v.len() > 0 {
        lemma_distinct_services(v.drop_last());
        match exposes(v.drop_last()) {
            Ok(done) => {
                if exposes(v) is Ok {
                    let after = exposes(v)->Ok_0;
                    assert forall|i: int, j: int| 0 <= i < j < after.len() implies (
                    #[trigger] after[i]).0 != (#[trigger] after[j]).0 by {
                        assert(after[i] == done[i]);
                        if j < done.len() {
                            assert(after[j] == done[j]);
                        }
                    }
                }
            },
            Err(_) => {},
        }
    }
}

/// A configuration that is accepted is consistent: no service is exposed twice, the
/// window of the rate limit is at least a second, and a namespace comes with a relay.
pub proof fn accepted_configuration_is_consistent(raw: RawConfig, readings: ReadingsModel)
    requires
        resolved_with(raw, readings) is Ok,
    ensures
        distinct_services(resolved_with(raw, readings)->Ok_0.expose),
        resolved_with(raw, readings)->Ok_0.rate_limit_window >= NANOS_PER_SEC,
        resolved_with(raw, readings)->Ok_0.namespace is Some ==> resolved_with(
            raw,
            readings,
        )->Ok_0.relay is Some,
{
    lemma_distinct_services(raw.expose@);
}

/// Configuration pushed by the dashboard, as the gateway gives it.
#[derive(Debug, Clone, PartialEq)]
pub struct RemoteConfig {
    /// Rate limit.
    pub rate_limit: RemoteRateLimit,
    /// Whitelist.
    pub allow: Vec<RemoteAllow>,
    /// Expected fingerprints.
    pub check_sum: Vec<RemoteCheckSum>,
    /// Version of the configuration.
    pub updated_at: String,
}

/// Rate limit of a [`RemoteConfig`].
#[derive(Debug, Clone, PartialEq)]
pub struct RemoteRateLimit {
    /// Connections per address and per window.
    pub max: u32,
    /// Window, in seconds.
    pub window_secs: u64,
    /// Exempt addresses.
    pub exempt: Vec<String>,
}

/// Authorised peer of a [`RemoteConfig`].
#[derive(Debug, Clone, PartialEq)]
pub struct RemoteAllow {
    /// Peer id.
    pub peer: String,
    /// Roles.
    pub roles: Vec<String>,
}

/// Expected fingerprint of a [`RemoteConfig`].
#[derive(Debug, Clone, PartialEq)]
pub struct RemoteCheckSum {
    /// Peer id.
    pub peer: String,
    /// Fingerprint in hexadecimal.
    pub sha256: String,
}

/// The largest integer of a TOML document, for a window that does not fit in one.
pub open spec fn window_integer(secs: u64) -> i64 {
    if secs <= i64::MAX {
        secs as i64
    } else {
        i64::MAX
    }
}

/// The fields of an authorised peer.
pub open spec fn allow_fields(e: RemoteAllow) -> Seq<(Seq<char>, TomlValueModel)> {
    seq![
        ("peer"@, TomlValueModel::Text(e.peer@)),
        ("roles"@, crate::cli::document::texts_value(crate::protocol::texts(e.roles@))),
    ]
}

/// The fields of an expected fingerprint.
pub open spec fn checksum_fields(e: RemoteCheckSum) -> Seq<(Seq<char>, TomlValueModel)> {
    seq![("peer"@, TomlValueModel::Text(e.peer@)), ("sha256"@, TomlValueModel::Text(e.sha256@))]
}

/// The sections that a remote configuration sets: the rate limit, the whitelist and the
/// expected fingerprints, and no other.
pub open spec fn remote_sections(remote: RemoteConfig) -> Seq<(Seq<char>, TomlSectionModel)> {
    seq![
        (
            "rate_limit"@,
            TomlSectionModel::Table(
                seq![
                    ("max"@, TomlValueModel::Integer(remote.rate_limit.max as i64)),
                    (
                        "window_secs"@,
                        TomlValueModel::Integer(window_integer(remote.rate_limit.window_secs)),
                    ),
                    (
                        "exempt"@,
                        crate::cli::document::texts_value(
                            crate::protocol::texts(remote.rate_limit.exempt@),
                        ),
                    ),
                ],
            ),
        ),
        (
            "allow"@,
            TomlSectionModel::Tables(
                Seq::new(remote.allow@.len(), |i: int| allow_fields(remote.allow@[i])),
            ),
        ),
        (
            "checksum_bin"@,
            TomlSectionModel::Tables(
                Seq::new(remote.check_sum@.len(), |i: int| checksum_fields(remote.check_sum@[i])),
            ),
        ),
    ]
}

fn rate_limit_section(remote: &RemoteRateLimit) -> (r: TomlSection)
    ensures
        r@ == TomlSectionModel::Table(
            seq![
                ("max"@, TomlValueModel::Integer(remote.max as i64)),
                ("window_secs"@, TomlValueModel::Integer(window_integer(remote.window_secs))),
                ("exempt"@, crate::cli::document::texts_value(crate::protocol::texts(remote.exempt@))),
            ],
        ),
{
    let window: i64 = if remote.window_secs <= i64::MAX as u64 {
        remote.window_secs as i64
    } else {
        i64::MAX
    };
    let mut fields: Vec<(String, TomlValue)> = Vec::new();
    fields.push(("max".to_owned(), TomlValue::Integer(remote.max as i64)));
    fields.push(("window_secs".to_owned(), TomlValue::Integer(window)));
    fields.push(("exempt".to_owned(), TomlValue::Texts(clone_texts(&remote.exempt))));
    assert(crate::cli::document::field_models(fields@) =~= seq![
        ("max"@, TomlValueModel::Integer(remote.max as i64)),
        ("window_secs"@, TomlValueModel::Integer(window_integer(remote.window_secs))),
        ("exempt"@, crate::cli::document::texts_value(crate::protocol::texts(remote.exempt@))),
    ]);
    TomlSection::Table(fields)
}

fn allow_section(allow: &Vec<RemoteAllow>) -> (r: TomlSection)
    ensures
        r@ == TomlSectionModel::Tables(
            Seq::new(allow@.len(), |i: int| allow_fields(allow@[i])),
        ),
{
    let mut list: Vec<Vec<(String, TomlValue)>> = Vec::new();
    let mut i: usize = 0;
    while i < allow.len()
        invariant
            i <= allow@.len(),
            list@.len() == i,
            forall|j: int|
                0 <= j < i ==> crate::cli::document::field_models((#[trigger] list@[j])@)
                    == allow_fields(allow@[j]),
        decreases allow@.len() - i,
    {
        let entry = &allow[i];
        let mut fields: Vec<(String, TomlValue)> = Vec::new();
        fields.push(("peer".to_owned(), TomlValue::Text(entry.peer.clone())));
        fields.push(("roles".to_owned(), TomlValue::Texts(clone_texts(&entry.roles))));
        assert(crate::cli::document::field_models(fields@) =~= allow_fields(*entry));
        list.push(fields);
        i += 1;
    }
    assert(crate::cli::document::list_models(list@) =~= Seq::new(
        allow@.len(),
        |j: int| allow_fields(allow@[j]),
    ));
    TomlSection::Tables(list)
}

fn checksum_section(sums: &Vec<RemoteCheckSum>) -> (r: TomlSection)
    ensures
        r@ == TomlSectionModel::Tables(
            Seq::new(sums@.len(), |i: int| checksum_fields(sums@[i])),
        ),
{
    let mut list: Vec<Vec<(String, TomlValue)>> = Vec::new();
    let mut i: usize = 0;
    while i < sums.len()
        invariant
            i <= sums@.len(),
            list@.len() == i,
            forall|j: int|
                0 <= j < i ==> crate::cli::document::field_models((#[trigger] list@[j])@)
                    == checksum_fields(sums@[j]),
        decreases sums@.len() - i,
    {
        let entry = &sums[i];
        let mut fields: Vec<(String, TomlValue)> = Vec::new();
        fields.push(("peer".to_owned(), TomlValue::Text(entry.peer.clone())));
        fields.push(("sha256".to_owned(), TomlValue::Text(entry.sha256.clone())));
        assert(crate::cli::document::field_models(fields@) =~= checksum_fields(*entry));
        list.push(fields);
        i += 1;
    }
    assert(crate::cli::document::list_models(list@) =~= Seq::new(
        sums@.len(),
        |j: int| checksum_fields(sums@[j]),
    ));
    TomlSection::Tables(list)
}

/// The sections that a remote configuration sets.
pub fn sections_to_set(remote: &RemoteConfig) -> (r: Vec<(String, TomlSection)>)
    ensures
        crate::cli::document::section_models(r@) == remote_sections(*remote),
{
    let mut out: Vec<(String, TomlSection)> = Vec::new();
    out.push(("rate_limit".to_owned(), rate_limit_section(&remote.rate_limit)));
    out.push(("allow".to_owned(), allow_section(&remote.allow)));
    out.push(("checksum_bin".to_owned(), checksum_section(&remote.check_sum)));
    assert(crate::cli::document::section_models(out@) =~= remote_sections(*remote));
    out
}

/// The new text of the file at `path`, from what the edit of the document gave.
pub fn edited_file(path: &str, edited: core::result::Result<String, String>) -> (r: Result<String>)
    ensures
        match edited {
            Ok(text) => r == Ok::<String, NuxError>(text),
            Err(why) => r matches Err(NuxError::Config(m)) && m@ == "TOML invalide dans `"@ + path@
                + "`: "@ + why@,
        },
{
    match edited {
        Ok(text) => Ok(text),
        Err(why) => Err(
            NuxError::Config(about_file("TOML invalide dans `", path, why.as_str())),
        ),
    }
}

/// Whether the texts of a remote configuration can be written in a TOML document.
pub open spec fn remote_writable(remote: RemoteConfig) -> bool {
    crate::cli::document::sections_writable(remote_sections(remote))
}

/// Whether the texts of a remote configuration can be written in a TOML document: none of
/// them holds more than 255 times the same quote in a row.
pub fn is_remote_writable(remote: &RemoteConfig) -> (r: bool)
    ensures
        r == remote_writable(*remote),
{
    sections_are_writable(&sections_to_set(remote))
}

/// The names of the sections that a remote configuration sets differ.
proof fn lemma_section_names()
    ensures
        "rate_limit"@ != "allow"@,
        "rate_limit"@ != "checksum_bin"@,
        "allow"@ != "checksum_bin"@,
{
    reveal_strlit("rate_limit");
    reveal_strlit("allow");
    reveal_strlit("checksum_bin");
    assert("rate_limit"@.len() == 10 && "allow"@.len() == 5 && "checksum_bin"@.len() == 12);
}

/// Rewrites `[rate_limit]`, `[[allow]]` and `[[checksum_bin]]`, and only these, in the
/// text of the file at `path`, from a configuration of the gateway. What is already as it
/// should be stays as it is written, and the comments on the sections, on the entries of the
/// peers that stay and on their fields stay. A file without any of these sections stays byte
/// for byte, and they follow it.
pub fn apply_remote_config(path: &str, text: &str, remote: &RemoteConfig) -> (r: Result<String>)
    requires
        remote_writable(*remote),
    ensures
        match crate::cli::document::toml_content(text@) {
            Ok(doc) => {
                &&& r matches Ok(s)
                &&& s@ == crate::cli::document::rewritten(text@, remote_sections(*remote))
                &&& crate::cli::document::toml_content(s@) == Ok::<TomlDocModel, Seq<char>>(
                    doc.with_sections(remote_sections(*remote)),
                )
                &&& !doc.mentions("rate_limit"@) && !doc.mentions("allow"@) && !doc.mentions(
                    "checksum_bin"@,
                ) ==> text@.is_prefix_of(s@)
            },
            Err(why) => r matches Err(NuxError::Config(m)) && m@ == "TOML invalide dans `"@ + path@
                + "`: "@ + why,
        },
{
    let edited = match check_toml(text) {
        Ok(()) => {
            let sections = sections_to_set(remote);
            proof {
                lemma_section_names();
            }
            Ok(rewrite(text, &sections))
        },
        Err(why) => Err(why),
    };
    edited_file(path, edited)
}

} // verus!
