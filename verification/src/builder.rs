//! Settings of a node, set one by one.

use vstd::prelude::*;
use crate::addr::{IpAddr, Multiaddr};
use crate::identity::Keypair;
use crate::node::NodeMode;
use crate::rate_limit::{DEFAULT_MAX_PER_WINDOW, DEFAULT_WINDOW};

verus! {

/// Delay before an idle connection is closed by default, in milliseconds.
pub const DEFAULT_IDLE_TIMEOUT_MS: u64 = 30_000;

/// Delay of an authentication exchange by default, in milliseconds.
pub const DEFAULT_REQUEST_TIMEOUT_MS: u64 = 10_000;

/// Where the identity of the node comes from.
pub enum IdentitySource {
    /// A new random identity.
    Ephemeral,
    /// A key pair in memory.
    Provided(Keypair),
    /// A key file.
    File(String),
    /// An environment variable.
    Env(String),
}

/// Content of an [`IdentitySource`].
pub enum IdentityModel {
    Ephemeral,
    Provided(Seq<u8>),
    File(Seq<char>),
    Env(Seq<char>),
}

impl View for IdentitySource {
    type V = IdentityModel;

    open spec fn view(&self) -> IdentityModel {
        match self {
            IdentitySource::Ephemeral => IdentityModel::Ephemeral,
            IdentitySource::Provided(k) => IdentityModel::Provided(k@),
            IdentitySource::File(p) => IdentityModel::File(p@),
            IdentitySource::Env(v) => IdentityModel::Env(v@),
        }
    }
}

/// Settings of a node.
#[verifier::ext_equal]
pub struct BuilderModel {
    /// Role of the node.
    pub mode: NodeMode,
    /// Source of its identity.
    pub identity: IdentityModel,
    /// Addresses on which it listens.
    pub listen_addrs: Seq<Seq<u8>>,
    /// Delay before an idle connection is closed.
    pub idle_timeout_ms: u64,
    /// Delay of an authentication exchange.
    pub request_timeout_ms: u64,
    /// Inbound connections per address and per window.
    pub rate_limit_max: u32,
    /// The window, in nanoseconds.
    pub rate_limit_window: u128,
    /// Addresses that are not limited.
    pub rate_limit_exempt: Seq<IpAddr>,
}

/// The settings of a new builder.
pub open spec fn default_settings() -> BuilderModel {
    BuilderModel {
        mode: NodeMode::Client,
        identity: IdentityModel::Ephemeral,
        listen_addrs: Seq::empty(),
        idle_timeout_ms: DEFAULT_IDLE_TIMEOUT_MS,
        request_timeout_ms: DEFAULT_REQUEST_TIMEOUT_MS,
        rate_limit_max: DEFAULT_MAX_PER_WINDOW,
        rate_limit_window: DEFAULT_WINDOW,
        rate_limit_exempt: Seq::empty(),
    }
}

/// The bytes of addresses.
pub open spec fn addr_views(v: Seq<Multiaddr>) -> Seq<Seq<u8>> {
    Seq::new(v.len(), |i: int| v[i]@)
}

/// Settings of a node.
pub struct NuxNodeBuilder {
    /// Role of the node.
    pub mode: NodeMode,
    /// Source of its identity.
    pub identity: IdentitySource,
    /// Addresses on which it listens.
    pub listen_addrs: Vec<Multiaddr>,
    /// Delay before an idle connection is closed, in milliseconds.
    pub idle_timeout_ms: u64,
    /// Delay of an authentication exchange, in milliseconds.
    pub request_timeout_ms: u64,
    /// Inbound connections per address and per window.
    pub rate_limit_max: u32,
    /// The window, in nanoseconds.
    pub rate_limit_window: u128,
    /// Addresses that are not limited.
    pub rate_limit_exempt: Vec<IpAddr>,
}

impl Default for NuxNodeBuilder {
    fn default() -> (r: Self)
        ensures
            r.settings() == default_settings(),
    {
        NuxNodeBuilder::new()
    }
}

impl NuxNodeBuilder {
    /// The settings.
    pub open spec fn settings(self) -> BuilderModel {
        BuilderModel {
            mode: self.mode,
            identity: self.identity@,
            listen_addrs: addr_views(self.listen_addrs@),
            idle_timeout_ms: self.idle_timeout_ms,
            request_timeout_ms: self.request_timeout_ms,
            rate_limit_max: self.rate_limit_max,
            rate_limit_window: self.rate_limit_window,
            rate_limit_exempt: self.rate_limit_exempt@,
        }
    }

    /// New builder: a Client with an ephemeral identity.
    pub fn new() -> (r: Self)
        ensures
            r.settings() == default_settings(),
    {
        let r = NuxNodeBuilder {
            mode: NodeMode::Client,
            identity: IdentitySource::Ephemeral,
            listen_addrs: Vec::new(),
            idle_timeout_ms: DEFAULT_IDLE_TIMEOUT_MS,
            request_timeout_ms: DEFAULT_REQUEST_TIMEOUT_MS,
            rate_limit_max: DEFAULT_MAX_PER_WINDOW,
            rate_limit_window: DEFAULT_WINDOW,
            rate_limit_exempt: Vec::new(),
        };
        assert(r.settings() =~= default_settings());
        r
    }

    /// Sets the role of the node.
    pub fn mode(self, mode: NodeMode) -> (r: Self)
        ensures
            r.settings() == (BuilderModel { mode, ..self.settings() }),
    {
        let mut b = self;
        b.mode = mode;
        b
    }

    /// Uses a key pair in memory.
    pub fn identity(self, keypair: Keypair) -> (r: Self)
        ensures
            r.settings() == (BuilderModel {
                identity: IdentityModel::Provided(keypair@),
                ..self.settings()
            }),
    {
        let mut b = self;
        b.identity = IdentitySource::Provided(keypair);
        b
    }

    /// Loads the identity from a key file.
    pub fn identity_file(self, path: String) -> (r: Self)
        ensures
            r.settings() == (BuilderModel {
                identity: IdentityModel::File(path@),
                ..self.settings()
            }),
    {
        let mut b = self;
        b.identity = IdentitySource::File(path);
        b
    }

    /// Loads the identity from an environment variable.
    pub fn identity_env(self, var: String) -> (r: Self)
        ensures
            r.settings() == (BuilderModel {
                identity: IdentityModel::Env(var@),
                ..self.settings()
            }),
    {
        let mut b = self;
        b.identity = IdentitySource::Env(var);
        b
    }

    /// Adds an address on which the node listens.
    pub fn listen_on(self, addr: Multiaddr) -> (r: Self)
        ensures
            r.settings() == (BuilderModel {
                listen_addrs: self.settings().listen_addrs.push(addr@),
                ..self.settings()
            }),
    {
        let ghost before = self.settings();
        let ghost bytes = addr@;
        let mut b = self;
        b.listen_addrs.push(addr);
        assert(b.settings().listen_addrs =~= before.listen_addrs.push(bytes));
        b
    }

    /// Sets the delay before an idle connection is closed.
    pub fn idle_timeout(self, timeout_ms: u64) -> (r: Self)
        ensures
            r.settings() == (BuilderModel { idle_timeout_ms: timeout_ms, ..self.settings() }),
    {
        let mut b = self;
        b.idle_timeout_ms = timeout_ms;
        b
    }

    /// Sets the delay of an authentication exchange.
    pub fn request_timeout(self, timeout_ms: u64) -> (r: Self)
        ensures
            r.settings() == (BuilderModel { request_timeout_ms: timeout_ms, ..self.settings() }),
    {
        let mut b = self;
        b.request_timeout_ms = timeout_ms;
        b
    }

    /// Limits the inbound connections accepted per address over a sliding window
    /// (nanoseconds).
    pub fn inbound_rate_limit(self, max_per_window: u32, window: u128) -> (r: Self)
        ensures
            r.settings() == (BuilderModel {
                rate_limit_max: max_per_window,
                rate_limit_window: window,
                ..self.settings()
            }),
    {
        let mut b = self;
        b.rate_limit_max = max_per_window;
        b.rate_limit_window = window;
        b
    }

    /// Exempts a trusted address from the limit.
    pub fn rate_limit_exempt(self, ip: IpAddr) -> (r: Self)
        ensures
            r.settings() == (BuilderModel {
                rate_limit_exempt: self.settings().rate_limit_exempt.push(ip),
                ..self.settings()
            }),
    {
        let mut b = self;
        b.rate_limit_exempt.push(ip);
        b
    }
}

/// A new node is a Client with a new identity, that listens nowhere, closes a connection after
/// half a minute without use, waits ten seconds for an answer, and accepts thirty connections
/// per address and per minute, of no address more.
pub proof fn new_node_has_the_default_settings()
    ensures
        default_settings().mode == NodeMode::Client,
        default_settings().identity is Ephemeral,
        default_settings().listen_addrs.len() == 0,
        default_settings().idle_timeout_ms == 30_000,
        default_settings().request_timeout_ms == 10_000,
        default_settings().rate_limit_max == 30,
        default_settings().rate_limit_window == 60_000_000_000,
        default_settings().rate_limit_exempt.len() == 0,
{
}

/// The settings of a builder are its fields, the addresses all and in order.
pub proof fn settings_are_the_fields(b: NuxNodeBuilder, i: int)
    ensures
        b.settings().mode == b.mode,
        match b.identity {
            IdentitySource::Ephemeral => b.settings().identity is Ephemeral,
            IdentitySource::Provided(k) => b.settings().identity == IdentityModel::Provided(k@),
            IdentitySource::File(path) => b.settings().identity == IdentityModel::File(path@),
            IdentitySource::Env(var) => b.settings().identity == IdentityModel::Env(var@),
        },
        b.settings().listen_addrs.len() == b.listen_addrs@.len(),
        0 <= i < b.listen_addrs@.len() ==> b.settings().listen_addrs[i] == b.listen_addrs@[i]@,
        b.settings().idle_timeout_ms == b.idle_timeout_ms,
        b.settings().request_timeout_ms == b.request_timeout_ms,
        b.settings().rate_limit_max == b.rate_limit_max,
        b.settings().rate_limit_window == b.rate_limit_window,
        b.settings().rate_limit_exempt == b.rate_limit_exempt@,
{
}

} // verus!
