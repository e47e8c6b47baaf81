//! Arguments of the command line.

use vstd::prelude::*;
use vstd::string::StringExecFns;
use crate::addr::Multiaddr;
use crate::builder::NuxNodeBuilder;
use crate::node::NodeMode;
use crate::peer::PeerId;
use crate::text::{parse_u16, parse_u32, split_once, strip_prefix, trim};

verus! {

/// Environment variable that holds the identity key (hexadecimal).
pub const IDENTITY_ENV_VAR: &'static str = "NUX_IDENTITY_KEY";

/// Idle timeout of the connections of the daemon, in milliseconds: long, so that a
/// session survives between two uses of a tunnel.
pub const DAEMON_IDLE_TIMEOUT_MS: u64 = 3_600_000;

/// Grace period of a stop by default, in milliseconds.
pub const DEFAULT_SHUTDOWN_GRACE_MS: u64 = 30_000;

/// What `LOCAL_PORT:SERVICE` denotes, or the message of the refusal.
pub open spec fn forward_of(value: Seq<char>) -> core::result::Result<(u16, Seq<char>), Seq<char>> {
    match crate::text::cut(value, ':') {
        None => Err("format attendu: PORT_LOCAL:SERVICE"@),
        Some((left, right)) => {
            let port = crate::text::trimmed(left);
            let service = crate::text::trimmed(right);
            if !crate::text::is_unsigned_upto(port, u16::MAX as nat) {
                Err("port local invalide: "@ + crate::text::u16_error(port))
            } else if service.len() == 0 {
                Err("nom de service vide (format: PORT_LOCAL:SERVICE)"@)
            } else {
                Ok(
                    (
                        crate::text::digits_value(crate::text::digits_of(port)) as u16,
                        service,
                    ),
                )
            }
        },
    }
}

/// Reads `LOCAL_PORT:SERVICE`.
pub fn parse_forward(value: &str) -> (r: core::result::Result<(u16, String), String>)
    ensures
        forward_of(value@) == (match r {
            Ok((port, service)) => Ok((port, service@)),
            Err(e) => Err(e@),
        }),
{
    let (left, right) = match split_once(value, ':') {
        Some(parts) => parts,
        None => {
            return Err("format attendu: PORT_LOCAL:SERVICE".to_owned());
        },
    };
    let port: u16 = match parse_u16(trim(left)) {
        Ok(port) => port,
        Err(e) => {
            return Err("port local invalide: ".to_owned().concat(e.as_str()));
        },
    };
    let service = trim(right);
    if service.is_empty() {
        return Err("nom de service vide (format: PORT_LOCAL:SERVICE)".to_owned());
    }
    Ok((port, service.to_owned()))
}

/// The user ids of a comma-separated list, empty items left out, or the message of the
/// refusal of the first that is invalid.
pub open spec fn uids_of(list: Seq<char>) -> core::result::Result<Seq<u32>, Seq<char>>
    decreases list.len(),
{
    let i = crate::text::first_pos(list, ',');
    let head = crate::text::trimmed(list.take(i));
    if head.len() > 0 && !crate::text::is_unsigned_upto(head, u32::MAX as nat) {
        Err("UID invalide `"@ + head + "`: "@ + crate::text::u32_error(head))
    } else {
        let first = if head.len() == 0 {
            Seq::empty()
        } else {
            seq![crate::text::digits_value(crate::text::digits_of(head)) as u32]
        };
        if 0 <= i < list.len() {
            match uids_of(list.skip(i + 1)) {
                Ok(rest) => Ok(first + rest),
                Err(e) => Err(e),
            }
        } else {
            Ok(first)
        }
    }
}

fn parse_uids(list: &str) -> (r: core::result::Result<Vec<u32>, String>)
    ensures
        uids_of(list@) == (match r {
            Ok(v) => Ok(v@),
            Err(e) => Err(e@),
        }),
    decreases list@.len(),
{
    proof {
        crate::text::lemma_first_pos(list@, ',');
    }
    let (item, rest): (&str, Option<&str>) = match split_once(list, ',') {
        Some((item, rest)) => (item, Some(rest)),
        None => (list, None),
    };
    let ghost i = crate::text::first_pos(list@, ',');
    assert(item@ =~= list@.take(i));
    let head = trim(item);
    let mut out: Vec<u32> = Vec::new();
    if !head.is_empty() {
        match parse_u32(head) {
            Ok(uid) => {
                out.push(uid);
            },
            Err(e) => {
                let mut message = "UID invalide `".to_owned();
                message.append(head);
                message.append("`: ");
                message.append(e.as_str());
                return Err(message);
            },
        }
    }
    match rest {
        Some(rest) => match parse_uids(rest) {
            Ok(mut more) => {
                out.append(&mut more);
                Ok(out)
            },
            Err(e) => Err(e),
        },
        None => Ok(out),
    }
}

/// What `PATH:SERVICE:UID[,UID...]` denotes, or the message of the refusal.
pub open spec fn forward_unix_of(value: Seq<char>) -> core::result::Result<
    (Seq<char>, Seq<char>, Seq<u32>),
    Seq<char>,
> {
    let (first, after_first) = match crate::text::cut(value, ':') {
        Some((a, b)) => (a, Some(b)),
        None => (value, None),
    };
    let path = crate::text::trimmed(first);
    if path.len() == 0 {
        Err("chemin de socket manquant (format: CHEMIN:SERVICE:UID[,UID...])"@)
    } else {
        match after_first {
            None => Err("nom de service manquant (format: CHEMIN:SERVICE:UID[,UID...])"@),
            Some(tail) => {
                let (second, after_second) = match crate::text::cut(tail, ':') {
                    Some((a, b)) => (a, Some(b)),
                    None => (tail, None),
                };
                let service = crate::text::trimmed(second);
                if service.len() == 0 {
                    Err("nom de service manquant (format: CHEMIN:SERVICE:UID[,UID...])"@)
                } else {
                    match after_second {
                        None => Err(
                            "UID autorisé(s) manquant(s) (format: CHEMIN:SERVICE:UID[,UID...])"@,
                        ),
                        Some(list) => match uids_of(list) {
                            Err(e) => Err(e),
                            Ok(uids) => if uids.len() == 0 {
                                Err(
                                    "au moins un UID doit être autorisé (une liste vide refuse tout)"@,
                                )
                            } else {
                                Ok((path, service, uids))
                            },
                        },
                    }
                }
            },
        }
    }
}

/// Reads `PATH:SERVICE:UID[,UID...]`.
pub fn parse_forward_unix(value: &str) -> (r: core::result::Result<
    (String, String, Vec<u32>),
    String,
>)
    ensures
        forward_unix_of(value@) == (match r {
            Ok((path, service, uids)) => Ok((path@, service@, uids@)),
            Err(e) => Err(e@),
        }),
{
    let (first, after_first): (&str, Option<&str>) = match split_once(value, ':') {
        Some((a, b)) => (a, Some(b)),
        None => (value, None),
    };
    let path = trim(first);
    if path.is_empty() {
        return Err(
            "chemin de socket manquant (format: CHEMIN:SERVICE:UID[,UID...])".to_owned(),
        );
    }
    let tail = match after_first {
        Some(tail) => tail,
        None => {
            return Err(
                "nom de service manquant (format: CHEMIN:SERVICE:UID[,UID...])".to_owned(),
            );
        },
    };
    let (second, after_second): (&str, Option<&str>) = match split_once(tail, ':') {
        Some((a, b)) => (a, Some(b)),
        None => (tail, None),
    };
    let service = trim(second);
    if service.is_empty() {
        return Err("nom de service manquant (format: CHEMIN:SERVICE:UID[,UID...])".to_owned());
    }
    let list = match after_second {
        Some(list) => list,
        None => {
            return Err(
                "UID autorisé(s) manquant(s) (format: CHEMIN:SERVICE:UID[,UID...])".to_owned(),
            );
        },
    };
    let uids = match parse_uids(list) {
        Ok(uids) => uids,
        Err(e) => {
            return Err(e);
        },
    };
    if uids.len() == 0 {
        return Err(
            "au moins un UID doit être autorisé (une liste vide refuse tout)".to_owned(),
        );
    }
    Ok((path.to_owned(), service.to_owned(), uids))
}

/// Target of a dial: a direct address, or a discovery by name at a rendezvous point.
#[derive(Debug)]
pub enum DialTarget {
    /// Direct address, possibly through a circuit.
    Address(Multiaddr),
    /// Discovery by name.
    Discover {
        /// The name.
        namespace: String,
        /// Address of the rendezvous point.
        rendezvous: Multiaddr,
    },
}

/// Content of a [`DialTarget`].
pub enum DialModel {
    /// Direct address.
    Address(Seq<u8>),
    /// Discovery by name.
    Discover { namespace: Seq<char>, rendezvous: Seq<u8> },
}

impl View for DialTarget {
    type V = DialModel;

    open spec fn view(&self) -> DialModel {
        match self {
            DialTarget::Address(a) => DialModel::Address(a@),
            DialTarget::Discover { namespace, rendezvous } => DialModel::Discover {
                namespace: namespace@,
                rendezvous: rendezvous@,
            },
        }
    }
}

/// The parts of the target of a dial: the name of a discovery, if it is one, and the text
/// of the address; or the message of the refusal.
pub open spec fn dial_parts(value: Seq<char>) -> core::result::Result<
    (Option<Seq<char>>, Seq<char>),
    Seq<char>,
> {
    if crate::text::starts_with(value, "discover:"@) {
        match crate::text::cut(value.skip("discover:"@.len() as int), '@') {
            None => Err("format attendu: discover:<namespace>@<rendezvous_multiaddr>"@),
            Some((namespace, address)) => if namespace.len() == 0 {
                Err("namespace vide (format: discover:<namespace>@<rendezvous_multiaddr>)"@)
            } else {
                Ok((Some(namespace), address))
            },
        }
    } else {
        Ok((None, value))
    }
}

/// The target of a dial with the given parts, the address as it was read.
pub open spec fn dial_with(
    namespace: Option<Seq<char>>,
    address: core::result::Result<Seq<u8>, Seq<char>>,
) -> core::result::Result<DialModel, Seq<char>> {
    match (namespace, address) {
        (Some(namespace), Ok(rendezvous)) => Ok(DialModel::Discover { namespace, rendezvous }),
        (Some(_), Err(e)) => Err("adresse de rendezvous invalide: "@ + e),
        (None, Ok(address)) => Ok(DialModel::Address(address)),
        (None, Err(e)) => Err("multiaddr invalide: "@ + e),
    }
}

/// What the target of a dial denotes, or the message of the refusal.
pub open spec fn dial_of(value: Seq<char>) -> core::result::Result<DialModel, Seq<char>> {
    match dial_parts(value) {
        Ok((namespace, address)) => dial_with(namespace, crate::addr::multiaddr_of_text(address)),
        Err(e) => Err(e),
    }
}

/// Splits the target of a dial: a multiaddr, or
/// `discover:<namespace>@<rendezvous_multiaddr>`.
pub fn split_dial_target(value: &str) -> (r: core::result::Result<(Option<&str>, &str), String>)
    ensures
        dial_parts(value@) == (match r {
            Ok((Some(namespace), address)) => Ok((Some(namespace@), address@)),
            Ok((None, address)) => Ok((None, address@)),
            Err(e) => Err(e@),
        }),
{
    match strip_prefix(value, "discover:") {
        Some(rest) => {
            let (namespace, address) = match split_once(rest, '@') {
                Some(parts) => parts,
                None => {
                    return Err(
                        "format attendu: discover:<namespace>@<rendezvous_multiaddr>".to_owned(),
                    );
                },
            };
            if namespace.is_empty() {
                return Err(
                    "namespace vide (format: discover:<namespace>@<rendezvous_multiaddr>)".to_owned(),
                );
            }
            Ok((Some(namespace), address))
        },
        None => Ok((None, value)),
    }
}

/// The target of a dial with the given parts, from what became of its address.
pub fn dial_target(
    namespace: Option<&str>,
    address: core::result::Result<Multiaddr, String>,
) -> (r: core::result::Result<DialTarget, String>)
    ensures
        dial_with(
            match namespace {
                Some(n) => Some(n@),
                None => None,
            },
            match address {
                Ok(a) => Ok(a@),
                Err(e) => Err(e@),
            },
        ) == (match r {
            Ok(target) => Ok(target@),
            Err(e) => Err(e@),
        }),
{
    match (namespace, address) {
        (Some(namespace), Ok(rendezvous)) => Ok(
            DialTarget::Discover { namespace: namespace.to_owned(), rendezvous },
        ),
        (Some(_), Err(e)) => Err("adresse de rendezvous invalide: ".to_owned().concat(e.as_str())),
        (None, Ok(address)) => Ok(DialTarget::Address(address)),
        (None, Err(e)) => Err("multiaddr invalide: ".to_owned().concat(e.as_str())),
    }
}

/// Reads the target of a dial.
pub fn parse_dial_target(value: &str) -> (r: core::result::Result<DialTarget, String>)
    ensures
        dial_of(value@) == (match r {
            Ok(target) => Ok(target@),
            Err(e) => Err(e@),
        }),
{
    match split_dial_target(value) {
        Ok((namespace, address)) => dial_target(namespace, Multiaddr::parse(address)),
        Err(e) => Err(e),
    }
}

/// Reads a peer id in base 58.
pub fn parse_peer_id(value: &str) -> (r: core::result::Result<PeerId, String>)
    ensures
        match crate::peer::peer_id_of_text(value@) {
            Ok(peer) => r matches Ok(p) && p@ == peer,
            Err(why) => r matches Err(e) && e@ == "PeerId invalide: "@ + why,
        },
{
    match PeerId::parse(value) {
        Ok(peer) => Ok(peer),
        Err(e) => Err("PeerId invalide: ".to_owned().concat(e.as_str())),
    }
}

/// Prepares the builder of the daemon: its role and the source of its identity. A key
/// file comes first, then the environment variable if it is set; without either the
/// identity is ephemeral.
pub fn builder(mode: NodeMode, identity: Option<String>, env_is_set: bool) -> (r: NuxNodeBuilder)
    ensures
        r.settings() == (crate::builder::BuilderModel {
            mode,
            idle_timeout_ms: DAEMON_IDLE_TIMEOUT_MS,
            identity: match identity {
                Some(path) => crate::builder::IdentityModel::File(path@),
                None => if env_is_set {
                    crate::builder::IdentityModel::Env("NUX_IDENTITY_KEY"@)
                } else {
                    crate::builder::IdentityModel::Ephemeral
                },
            },
            ..crate::builder::default_settings()
        }),
{
    let b = NuxNodeBuilder::new().mode(mode).idle_timeout(DAEMON_IDLE_TIMEOUT_MS);
    match identity {
        Some(path) => b.identity_file(path),
        None => {
            if env_is_set {
                b.identity_env("NUX_IDENTITY_KEY".to_owned())
            } else {
                b
            }
        },
    }
}

/// `LOCAL_PORT:SERVICE` is read as the port before the first colon and the service after it,
/// blanks around both aside; it is refused without a colon, without a port or without a
/// service, and in no other case.
pub proof fn forward_is_a_port_and_a_service(left: Seq<char>, right: Seq<char>)
    requires
        !left.contains(':'),
    ensures
        ({
            let port = crate::text::trimmed(left);
            let service = crate::text::trimmed(right);
            let r = forward_of(left.push(':') + right);
            &&& r is Ok <==> crate::text::is_unsigned_upto(port, 65535) && service.len() > 0
            &&& r matches Ok((p, s)) ==> p == crate::text::digits_value(
                crate::text::digits_of(port),
            ) && s == service
        }),
        forward_of(left) is Err,
{
    crate::text::text_is_cut_at_the_first_occurrence(left, right, ':');
}

/// A list of user ids is read item by item, in order: a blank item counts for nothing, a number
/// for itself, and one item that is neither refuses the whole list.
pub proof fn uids_are_read_item_by_item(item: Seq<char>, rest: Seq<char>)
    requires
        !item.contains(','),
    ensures
        ({
            let text = crate::text::trimmed(item);
            let uid = crate::text::digits_value(crate::text::digits_of(text)) as u32;
            let valid = crate::text::is_unsigned_upto(text, 4294967295);
            let alone = uids_of(item);
            let all = uids_of(item.push(',') + rest);
            if text.len() == 0 {
                alone == Ok::<Seq<u32>, Seq<char>>(Seq::empty()) && all == uids_of(rest)
            } else if valid {
                &&& alone == Ok::<Seq<u32>, Seq<char>>(seq![uid])
                &&& all is Ok <==> uids_of(rest) is Ok
                &&& all is Ok ==> all->Ok_0 == seq![uid] + uids_of(rest)->Ok_0
            } else {
                alone is Err && all is Err
            }
        }),
{
    let list = item.push(',') + rest;
    crate::text::lemma_first_pos(list, ',');
    crate::text::lemma_first_pos(item, ',');
    let i = crate::text::first_pos(list, ',');
    if i < item.len() {
        assert(item[i] == ',');
    }
    if i > item.len() {
        assert(list[item.len() as int] == ',');
    }
    assert(i == item.len());
    if crate::text::first_pos(item, ',') < item.len() {
        assert(item.contains(','));
    }
    assert(list.take(i) =~= item);
    assert(list.skip(i + 1) =~= rest);
    assert(item.take(item.len() as int) =~= item);
    if uids_of(rest) is Ok {
        assert(Seq::<u32>::empty() + uids_of(rest)->Ok_0 =~= uids_of(rest)->Ok_0);
    }
}

/// `PATH:SERVICE:UID[,UID...]` is read as its three parts, blanks around the path and the
/// service aside; it is refused if one of them is missing, if an item of the list is no user id,
/// or if the list names nobody, and in no other case.
pub proof fn unix_forward_is_a_path_a_service_and_users(
    path: Seq<char>,
    service: Seq<char>,
    users: Seq<char>,
)
    requires
        !path.contains(':'),
        !service.contains(':'),
    ensures
        ({
            let p = crate::text::trimmed(path);
            let s = crate::text::trimmed(service);
            let r = forward_unix_of(path.push(':') + (service.push(':') + users));
            &&& r is Ok <==> p.len() > 0 && s.len() > 0 && uids_of(users) is Ok && uids_of(
                users,
            )->Ok_0.len() > 0
            &&& r is Ok ==> r->Ok_0 == (p, s, uids_of(users)->Ok_0)
        }),
        forward_unix_of(path) is Err,
        forward_unix_of(path.push(':') + service) is Err,
{
    crate::text::text_is_cut_at_the_first_occurrence(path, service.push(':') + users, ':');
    crate::text::text_is_cut_at_the_first_occurrence(path, service, ':');
    crate::text::text_is_cut_at_the_first_occurrence(service, users, ':');
}

/// A target that starts with `discover:` is the discovery of the namespace before the first `@`
/// at the rendezvous point after it; any other is an address, as it stands.
pub proof fn dial_target_is_an_address_or_a_discovery(namespace: Seq<char>, address: Seq<char>)
    ensures
        !namespace.contains('@') && namespace.len() > 0 ==> {
            let r = dial_of("discover:"@ + (namespace.push('@') + address));
            match crate::addr::multiaddr_of_text(address) {
                Ok(rendezvous) => r == Ok::<DialModel, Seq<char>>(
                    DialModel::Discover { namespace, rendezvous },
                ),
                Err(_) => r is Err,
            }
        },
        !namespace.contains('@') ==> dial_of("discover:"@ + namespace) is Err,
        dial_of("discover:"@ + (Seq::<char>::empty().push('@') + address)) is Err,
        !(address.len() >= "discover:"@.len() && address.take("discover:"@.len() as int)
            == "discover:"@) ==> match crate::addr::multiaddr_of_text(address) {
            Ok(a) => dial_of(address) == Ok::<DialModel, Seq<char>>(DialModel::Address(a)),
            Err(_) => dial_of(address) is Err,
        },
{
    let head = "discover:"@;
    let n = head.len() as int;
    let empty = Seq::<char>::empty();
    if !namespace.contains('@') {
        let rest = namespace.push('@') + address;
        assert((head + rest).take(n) =~= head);
        assert((head + rest).skip(n) =~= rest);
        crate::text::text_is_cut_at_the_first_occurrence(namespace, address, '@');
        assert((head + namespace).take(n) =~= head);
        assert((head + namespace).skip(n) =~= namespace);
    }
    let bare = empty.push('@') + address;
    assert((head + bare).take(n) =~= head);
    assert((head + bare).skip(n) =~= bare);
    crate::text::text_is_cut_at_the_first_occurrence(empty, address, '@');
}

/// The content of a target is that target.
pub proof fn targets_are_taken_as_they_are(target: DialTarget)
    ensures
        match target {
            DialTarget::Address(a) => target@ == DialModel::Address(a@),
            DialTarget::Discover { namespace, rendezvous } => target@ == (DialModel::Discover {
                namespace: namespace@,
                rendezvous: rendezvous@,
            }),
        },
{
}

} // verus!
