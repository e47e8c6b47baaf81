//! Network addresses as plain values.

use vstd::prelude::*;
use vstd::slice::slice_to_vec;
use libp2p::multiaddr::Protocol;
use crate::peer::PeerId;

verus! {

/// IP address.
#[derive(Debug, Clone, Copy, PartialEq, Eq, Structural, PartialOrd, Ord, Hash)]
pub enum IpAddr {
    /// IPv4 address, most significant byte first.
    V4(u32),
    /// IPv6 address, most significant byte first.
    V6(u128),
}

/// The IPv4 loopback address, `127.0.0.1`.
pub const LOCALHOST: u32 = 0x7f00_0001;

/// Address and port of a service.
#[derive(Debug, Clone, Copy, PartialEq, Eq, Structural, PartialOrd, Ord, Hash)]
pub enum SocketAddr {
    /// Address and port over IPv4.
    V4(u32, u16),
    /// Address, port, flow information and scope identifier over IPv6.
    V6(u128, u16, u32, u32),
}

/// A component of a multiaddr, as far as the rules look at it.
#[derive(Debug)]
pub enum Component {
    /// `/ip4/<address>`.
    Ip4(u32),
    /// `/ip6/<address>`.
    Ip6(u128),
    /// `/p2p/<peer>`.
    P2p(Vec<u8>),
    /// Any other protocol.
    Other,
}

/// Content of a [`Component`].
pub enum ComponentModel {
    /// `/ip4/<address>`.
    Ip4(u32),
    /// `/ip6/<address>`.
    Ip6(u128),
    /// `/p2p/<peer>`.
    P2p(Seq<u8>),
    /// Any other protocol.
    Other,
}

impl View for Component {
    type V = ComponentModel;

    open spec fn view(&self) -> ComponentModel {
        match self {
            Component::Ip4(a) => ComponentModel::Ip4(*a),
            Component::Ip6(a) => ComponentModel::Ip6(*a),
            Component::P2p(p) => ComponentModel::P2p(p@),
            Component::Other => ComponentModel::Other,
        }
    }
}

/// The contents of components.
pub open spec fn component_models(v: Seq<Component>) -> Seq<ComponentModel> {
    Seq::new(v.len(), |i: int| v[i]@)
}

/// What `libp2p::Multiaddr::from_str` reads in a text: the bytes of the address,
/// or the text of the error.
pub uninterp spec fn multiaddr_of_text(text: Seq<char>) -> core::result::Result<
    Seq<u8>,
    Seq<char>,
>;

/// The components of the multiaddr with these bytes, or `None` where the bytes
/// are no multiaddr (`libp2p::Multiaddr::try_from` and `iter`).
pub uninterp spec fn multiaddr_components(bytes: Seq<u8>) -> Option<Seq<ComponentModel>>;

/// What `libp2p::Multiaddr::with(Protocol::P2pCircuit)` makes of the multiaddr
/// with these bytes.
pub uninterp spec fn multiaddr_with_circuit(bytes: Seq<u8>) -> Seq<u8>;

/// `libp2p::Multiaddr::from_str`, as the bytes of its result, or the text of its
/// error. The bytes are those of a multiaddr.
#[verifier::external_body]
fn parse_multiaddr_text(text: &str) -> (r: core::result::Result<Vec<u8>, String>)
    ensures
        multiaddr_of_text(text@) == (match r {
            Ok(b) => Ok(b@),
            Err(e) => Err(e@),
        }),
        r matches Ok(b) ==> multiaddr_components(b@) is Some,
{
    text.parse::<libp2p::Multiaddr>().map(|a| a.to_vec()).map_err(|e| e.to_string())
}

/// `libp2p::Multiaddr::try_from` the bytes, then `iter`: each component as a plain
/// value. The peer of a `/p2p` component is in its canonical form.
#[verifier::external_body]
fn read_components(bytes: &[u8]) -> (r: Option<Vec<Component>>)
    ensures
        multiaddr_components(bytes@) == (match r {
            Some(v) => Some(component_models(v@)),
            None => None,
        }),
        r matches Some(v) ==> forall|i: int|
            0 <= i < v@.len() && (#[trigger] v@[i]) is P2p ==> crate::peer::is_peer_id(
                v@[i]->P2p_0@,
            ),
{
    let addr = libp2p::Multiaddr::try_from(bytes.to_vec()).ok()?;
    Some(addr.iter().map(|p| match p {
        Protocol::Ip4(a) => Component::Ip4(a.into()),
        Protocol::Ip6(a) => Component::Ip6(a.into()),
        Protocol::P2p(peer) => Component::P2p(peer.to_bytes()),
        _ => Component::Other,
    }).collect())
}

/// `libp2p::Multiaddr::with(Protocol::P2pCircuit)` on the multiaddr with these
/// bytes: a multiaddr with one component more, that is neither an address nor a
/// peer.
#[verifier::external_body]
fn append_circuit(bytes: &[u8]) -> (r: Vec<u8>)
    requires
        multiaddr_components(bytes@) is Some,
    ensures
        r@ == multiaddr_with_circuit(bytes@),
        multiaddr_components(r@) is Some,
        multiaddr_components(r@)->0 == multiaddr_components(bytes@)->0.push(ComponentModel::Other),
{
    match libp2p::Multiaddr::try_from(bytes.to_vec()) {
        Ok(addr) => addr.with(Protocol::P2pCircuit).to_vec(),
        Err(_) => Vec::new(),
    }
}

/// The first IP address among components.
pub open spec fn first_ip(c: Seq<ComponentModel>) -> Option<IpAddr>
    decreases c.len(),
{
    if c.len() == 0 {
        None
    } else {
        match c[0] {
            ComponentModel::Ip4(a) => Some(IpAddr::V4(a)),
            ComponentModel::Ip6(a) => Some(IpAddr::V6(a)),
            _ => first_ip(c.skip(1)),
        }
    }
}

/// The last peer among components.
pub open spec fn last_peer(c: Seq<ComponentModel>) -> Option<Seq<u8>>
    decreases c.len(),
{
    if c.len() == 0 {
        None
    } else {
        match c.last() {
            ComponentModel::P2p(p) => Some(p),
            _ => last_peer(c.drop_last()),
        }
    }
}

/// Multiaddr: the address of a peer as a list of protocols. Its view is its
/// binary form.
#[derive(Debug, PartialEq, Eq)]
pub struct Multiaddr {
    bytes: Vec<u8>,
}

impl View for Multiaddr {
    type V = Seq<u8>;

    closed spec fn view(&self) -> Seq<u8> {
        self.bytes@
    }
}

impl Clone for Multiaddr {
    fn clone(&self) -> (r: Self)
        ensures
            r@ == self@,
    {
        proof {
            use_type_invariant(self);
        }
        Multiaddr { bytes: slice_to_vec(self.bytes.as_slice()) }
    }
}

impl Multiaddr {
    #[verifier::type_invariant]
    spec fn valid(self) -> bool {
        multiaddr_components(self.bytes@) is Some
    }

    /// Reads a multiaddr in its textual form; the error is the text of the
    /// refusal.
    pub fn parse(text: &str) -> (r: core::result::Result<Multiaddr, String>)
        ensures
            multiaddr_of_text(text@) == (match r {
                Ok(a) => Ok(a@),
                Err(e) => Err(e@),
            }),
    {
        match parse_multiaddr_text(text) {
            Ok(bytes) => Ok(Multiaddr { bytes }),
            Err(e) => Err(e),
        }
    }

    /// Reads a multiaddr in its binary form.
    pub fn from_bytes(bytes: Vec<u8>) -> (r: Option<Multiaddr>)
        ensures
            r is Some <==> multiaddr_components(bytes@) is Some,
            r matches Some(a) ==> a@ == bytes@,
    {
        match read_components(bytes.as_slice()) {
            Some(_) => Some(Multiaddr { bytes }),
            None => None,
        }
    }

    /// The binary form of the address.
    pub fn to_bytes(&self) -> (r: Vec<u8>)
        ensures
            r@ == self@,
    {
        slice_to_vec(self.bytes.as_slice())
    }

    /// The components of the address, in order.
    pub fn components(&self) -> (r: Vec<Component>)
        ensures
            multiaddr_components(self@) == Some(component_models(r@)),
            forall|i: int|
                0 <= i < r@.len() && (#[trigger] r@[i]) is P2p ==> crate::peer::is_peer_id(
                    r@[i]->P2p_0@,
                ),
    {
        proof {
            use_type_invariant(self);
        }
        match read_components(self.bytes.as_slice()) {
            Some(parts) => parts,
            None => Vec::new(),
        }
    }

    /// The address of a circuit through the relay at this address.
    pub fn with_circuit(&self) -> (r: Multiaddr)
        ensures
            r@ == multiaddr_with_circuit(self@),
            multiaddr_components(self@) is Some,
            multiaddr_components(r@) == Some(
                multiaddr_components(self@)->0.push(ComponentModel::Other),
            ),
    {
        proof {
            use_type_invariant(self);
        }
        Multiaddr { bytes: append_circuit(self.bytes.as_slice()) }
    }
}

/// The first IP address among components.
pub fn ip_among(parts: &Vec<Component>) -> (r: Option<IpAddr>)
    ensures
        r == first_ip(component_models(parts@)),
{
    let ghost models = component_models(parts@);
    let mut i: usize = 0;
    assert(models.skip(0) =~= models);
    while i < parts.len()
        invariant
            i <= parts@.len(),
            models == component_models(parts@),
            first_ip(models) == first_ip(models.skip(i as int)),
        decreases parts@.len() - i,
    {
        assert(models.skip(i as int)[0] == parts@[i as int]@);
        assert(models.skip(i as int).skip(1) =~= models.skip(i + 1));
        match &parts[i] {
            Component::Ip4(a) => {
                return Some(IpAddr::V4(*a));
            },
            Component::Ip6(a) => {
                return Some(IpAddr::V6(*a));
            },
            _ => {},
        }
        i += 1;
    }
    None
}

/// The last peer among components.
pub fn peer_among(parts: &Vec<Component>) -> (r: Option<&Vec<u8>>)
    ensures
        last_peer(component_models(parts@)) == (match r {
            Some(p) => Some(p@),
            None => None,
        }),
        r matches Some(p) ==> exists|j: int|
            0 <= j < parts@.len() && (#[trigger] parts@[j]) == Component::P2p(*p),
{
    let ghost models = component_models(parts@);
    let mut i: usize = parts.len();
    assert(models.take(models.len() as int) =~= models);
    while i > 0
        invariant
            i <= parts@.len(),
            models == component_models(parts@),
            last_peer(models) == last_peer(models.take(i as int)),
        decreases i,
    {
        assert(models.take(i as int).last() == parts@[i - 1]@);
        assert(models.take(i as int).drop_last() =~= models.take(i - 1));
        i -= 1;
        match &parts[i] {
            Component::P2p(peer) => {
                assert(parts@[i as int] == Component::P2p(*peer));
                return Some(peer);
            },
            _ => {},
        }
    }
    None
}

/// The IP address of a multiaddr, if it has one: the first one.
pub fn ip_of(addr: &Multiaddr) -> (r: Option<IpAddr>)
    ensures
        multiaddr_components(addr@) is Some,
        r == first_ip(multiaddr_components(addr@)->0),
{
    ip_among(&addr.components())
}

/// The last `/p2p/<peer>` of an address, if there is one: the peer that a dial
/// aims at, whether the address is direct or goes through a relay.
pub fn target_peer_id(addr: &Multiaddr) -> (r: Option<PeerId>)
    ensures
        multiaddr_components(addr@) is Some,
        last_peer(multiaddr_components(addr@)->0) == (match r {
            Some(p) => Some(p@),
            None => None,
        }),
{
    let parts = addr.components();
    match peer_among(&parts) {
        Some(peer) => PeerId::from_bytes(peer.as_slice()),
        None => None,
    }
}

/// Longest name of a rendezvous namespace, in bytes.
pub const MAX_NAMESPACE_LEN: usize = 255;

/// Whether a name is short enough for a namespace: its length counts in bytes.
pub open spec fn is_namespace(name: Seq<char>) -> bool {
    vstd::utf8::encode_utf8(name).len() <= MAX_NAMESPACE_LEN
}

/// `libp2p::rendezvous::Namespace::new`: a name of at most 255 bytes is kept as
/// it stands, a longer one is refused.
#[verifier::external_body]
fn make_namespace(name: &str) -> (r: Option<String>)
    ensures
        r is Some <==> is_namespace(name@),
        r is Some ==> r->0@ == name@,
{
    libp2p::rendezvous::Namespace::new(name.to_string()).ok().map(|n| n.into())
}

/// Logical name under which peers register at a rendezvous point.
#[derive(Debug, PartialEq, Eq)]
pub struct Namespace {
    name: String,
}

impl View for Namespace {
    type V = Seq<char>;

    closed spec fn view(&self) -> Seq<char> {
        self.name@
    }
}

impl Clone for Namespace {
    fn clone(&self) -> (r: Self)
        ensures
            r@ == self@,
    {
        Namespace { name: self.name.clone() }
    }
}

impl Namespace {
    /// A namespace, unless the name is too long.
    pub fn new(name: &str) -> (r: Option<Namespace>)
        ensures
            r is Some <==> is_namespace(name@),
            r matches Some(n) ==> n@ == name@,
    {
        match make_namespace(name) {
            Some(name) => Some(Namespace { name }),
            None => None,
        }
    }

    /// The name.
    pub fn as_str(&self) -> (r: &str)
        ensures
            r@ == self@,
    {
        self.name.as_str()
    }
}

/// The IP address of an address is that of the first component that holds one, be it IPv4 or
/// IPv6; there is none if and only if no component holds one.
pub proof fn first_ip_is_the_first(c: Seq<ComponentModel>, i: int)
    requires
        0 <= i < c.len(),
        forall|j: int| 0 <= j < i ==> !((#[trigger] c[j]) is Ip4 || c[j] is Ip6),
    ensures
        c[i] matches ComponentModel::Ip4(a) ==> first_ip(c) == Some(IpAddr::V4(a)),
        c[i] matches ComponentModel::Ip6(a) ==> first_ip(c) == Some(IpAddr::V6(a)),
    decreases i,
{
    if i > 0 {
        assert(!(c[0] is Ip4 || c[0] is Ip6));
        assert forall|j: int| 0 <= j < i - 1 implies !((#[trigger] c.skip(1)[j]) is Ip4
            || c.skip(1)[j] is Ip6) by {
            assert(c.skip(1)[j] == c[j + 1]);
        }
        first_ip_is_the_first(c.skip(1), i - 1);
    }
}

/// Without a component that holds an IP address, there is none.
pub proof fn no_ip_without_a_component(c: Seq<ComponentModel>)
    ensures
        first_ip(c) is None <==> forall|j: int|
            0 <= j < c.len() ==> !((#[trigger] c[j]) is Ip4 || c[j] is Ip6),
    decreases c.len(),
{
    if c.len() > 0 {
        let rest = c.skip(1);
        no_ip_without_a_component(rest);
        assert forall|j: int| 0 <= j < rest.len() implies rest[j] == #[trigger] c[j + 1] by {}
        if !(c[0] is Ip4 || c[0] is Ip6) && first_ip(rest) is None {
            assert forall|j: int| 0 <= j < c.len() implies !((#[trigger] c[j]) is Ip4
                || c[j] is Ip6) by {
                if j > 0 {
                    assert(rest[j - 1] == c[j]);
                }
            }
        }
        if first_ip(rest) is Some {
            let j = choose|j: int| 0 <= j < rest.len() && ((#[trigger] rest[j]) is Ip4
                || rest[j] is Ip6);
            assert(c[j + 1] is Ip4 || c[j + 1] is Ip6);
        }
    }
}

/// A dial aims at the peer of the last component that names one; there is none if and only if
/// no component names one.
pub proof fn target_is_the_last_peer(c: Seq<ComponentModel>, i: int)
    requires
        0 <= i < c.len(),
        forall|j: int| i < j < c.len() ==> !((#[trigger] c[j]) is P2p),
    ensures
        c[i] matches ComponentModel::P2p(p) ==> last_peer(c) == Some(p),
    decreases c.len(),
{
    if i < c.len() - 1 {
        assert(c.last() == c[c.len() - 1]);
        assert forall|j: int| i < j < c.len() - 1 implies !((#[trigger] c.drop_last()[j]) is P2p) by {
            assert(c.drop_last()[j] == c[j]);
        }
        target_is_the_last_peer(c.drop_last(), i);
    }
}

/// Without a component that names a peer, a dial aims at none.
pub proof fn no_target_without_a_peer(c: Seq<ComponentModel>)
    ensures
        last_peer(c) is None <==> forall|j: int| 0 <= j < c.len() ==> !((#[trigger] c[j]) is P2p),
    decreases c.len(),
{
    if c.len() > 0 {
        let front = c.drop_last();
        no_target_without_a_peer(front);
        assert(c.last() == c[c.len() - 1]);
        assert forall|j: int| 0 <= j < front.len() implies front[j] == #[trigger] c[j] by {}
        if last_peer(front) is Some {
            let j = choose|j: int| 0 <= j < front.len() && (#[trigger] front[j]) is P2p;
            assert(c[j] is P2p);
        }
    }
}

/// The content of a component is that component, and contents keep their order.
pub proof fn components_keep_their_kind(v: Seq<Component>, i: int)
    requires
        0 <= i < v.len(),
    ensures
        component_models(v).len() == v.len(),
        match v[i] {
            Component::Ip4(a) => component_models(v)[i] == ComponentModel::Ip4(a),
            Component::Ip6(a) => component_models(v)[i] == ComponentModel::Ip6(a),
            Component::P2p(p) => component_models(v)[i] == ComponentModel::P2p(p@),
            Component::Other => component_models(v)[i] == ComponentModel::Other,
        },
{
}

/// A name is a namespace if it takes at most 255 bytes.
pub proof fn namespace_is_limited_in_bytes(name: Seq<char>)
    ensures
        is_namespace(name) <==> vstd::utf8::encode_utf8(name).len() <= 255,
{
}

} // verus!
