//! Configuration of the gateway, from its environment.

use vstd::prelude::*;
use vstd::string::{StrSliceExecFns, StringExecFns};
use crate::addr::{Multiaddr, SocketAddr};
use crate::text::{chars_of, parse_u16, trim};

verus! {

/// Environment variable that holds the identity key (hexadecimal).
pub const IDENTITY_ENV_VAR: &'static str = "NUX_IDENTITY_KEY";

/// Address of the API that the dashboard calls, by default.
pub const DEFAULT_ADMIN_ADDR: &'static str = "0.0.0.0:8088";

/// Length of a token, at least.
pub const MIN_TOKEN_LEN: usize = 16;

/// How long a call to the dashboard may take, in milliseconds.
pub const UPSTREAM_TIMEOUT_MS: u64 = 10_000;

/// Environment of the gateway; `None` stands for a variable that is not set or not
/// readable.
pub struct Environment {
    /// `NUX_GW_ADMIN_ADDR`, or its default [`DEFAULT_ADMIN_ADDR`], as it was read (or the
    /// text of the error).
    pub admin_addr: core::result::Result<SocketAddr, String>,
    /// `NUX_GW_LISTEN`.
    pub listen: Option<String>,
    /// `NUX_GW_IDENTITY_FILE`.
    pub identity_file: Option<String>,
    /// `NUX_GW_GUARD_PORT`.
    pub guard_port: Option<String>,
    /// `NUX_GW_CLIENT_PORT`.
    pub client_port: Option<String>,
    /// `DATABASE_URL`.
    pub database_url: Option<String>,
    /// `NUX_GW_API_URL`.
    pub api_url: Option<String>,
    /// `NUX_GW_ADMIN_TOKEN`.
    pub admin_token: Option<String>,
    /// `NUX_GW_DASHBOARD_TOKEN`.
    pub dashboard_token: Option<String>,
}

/// Validated configuration of the gateway.
pub struct Config {
    /// Address of the API that the dashboard calls.
    pub admin_addr: SocketAddr,
    /// Address on which the node listens.
    pub listen: Multiaddr,
    /// Key file; without it the identity comes from the environment.
    pub identity_file: Option<String>,
    /// Local port exposed under the role of the Guards.
    pub guard_port: u16,
    /// Local port exposed under the role of the Clients.
    pub client_port: u16,
    /// Database.
    pub database_url: String,
    /// Base address of the dashboard, without a slash at its end.
    pub dashboard_base_url: String,
    /// Token that the dashboard presents to push configurations.
    pub admin_token: String,
    /// Token that the gateway presents to the dashboard, if it has one.
    pub dashboard_token: Option<String>,
}

/// Content of a [`Config`].
#[verifier::ext_equal]
pub struct ConfigModel {
    pub admin_addr: SocketAddr,
    pub listen: Seq<u8>,
    pub identity_file: Option<Seq<char>>,
    pub guard_port: u16,
    pub client_port: u16,
    pub database_url: Seq<char>,
    pub dashboard_base_url: Seq<char>,
    pub admin_token: Seq<char>,
    pub dashboard_token: Option<Seq<char>>,
}

impl View for Config {
    type V = ConfigModel;

    open spec fn view(&self) -> ConfigModel {
        ConfigModel {
            admin_addr: self.admin_addr,
            listen: self.listen@,
            identity_file: crate::text::opt_text(self.identity_file),
            guard_port: self.guard_port,
            client_port: self.client_port,
            database_url: self.database_url@,
            dashboard_base_url: self.dashboard_base_url@,
            admin_token: self.admin_token@,
            dashboard_token: crate::text::opt_text(self.dashboard_token),
        }
    }
}

/// A variable, or its default.
pub open spec fn or_default(value: Option<String>, default: Seq<char>) -> Seq<char> {
    match value {
        Some(v) => v@,
        None => default,
    }
}

/// A variable, unless it is blank.
pub open spec fn unless_blank(value: Option<String>) -> Option<Seq<char>> {
    match value {
        Some(v) => if crate::text::trimmed(v@).len() == 0 {
            None
        } else {
            Some(v@)
        },
        None => None,
    }
}

/// A text without the slashes at its end.
pub open spec fn without_slashes(s: Seq<char>) -> Seq<char>
    decreases s.len(),
{
    if s.len() > 0 && s.last() == '/' {
        without_slashes(s.drop_last())
    } else {
        s
    }
}

/// A port, or the message of its refusal.
pub open spec fn port_of(key: Seq<char>, text: Seq<char>) -> core::result::Result<u16, Seq<char>> {
    if crate::text::is_unsigned_upto(text, u16::MAX as nat) {
        Ok(crate::text::digits_value(crate::text::digits_of(text)) as u16)
    } else {
        Err(key + " invalide: "@ + crate::text::u16_error(text))
    }
}

/// A token, or the message of its refusal: it must be set, and long enough.
pub open spec fn token_of(key: Seq<char>, value: Option<String>) -> core::result::Result<
    Seq<char>,
    Seq<char>,
> {
    match value {
        None => Err(key + " doit être défini"@),
        Some(v) => if v@.len() < MIN_TOKEN_LEN {
            Err(key + " doit faire au moins 16 caractères"@)
        } else {
            Ok(v@)
        },
    }
}

/// The configuration that an environment denotes, or the message of the first refusal.
pub open spec fn resolved(env: Environment) -> core::result::Result<ConfigModel, Seq<char>> {
    resolved_with(
        env,
        crate::addr::multiaddr_of_text(or_default(env.listen, "/ip4/0.0.0.0/tcp/4589"@)),
    )
}

/// The configuration that an environment denotes, from what the address of the node was
/// read as, or the message of the first refusal.
pub open spec fn resolved_with(
    env: Environment,
    listen: core::result::Result<Seq<u8>, Seq<char>>,
) -> core::result::Result<ConfigModel, Seq<char>> {
    let guard_port = port_of("NUX_GW_GUARD_PORT"@, or_default(env.guard_port, "8089"@));
    let client_port = port_of("NUX_GW_CLIENT_PORT"@, or_default(env.client_port, "8090"@));
    let token = token_of("NUX_GW_ADMIN_TOKEN"@, env.admin_token);
    if env.admin_addr is Err {
        Err("NUX_GW_ADMIN_ADDR invalide: "@ + env.admin_addr->Err_0@)
    } else if listen is Err {
        Err("NUX_GW_LISTEN invalide: "@ + listen->Err_0)
    } else if guard_port is Err {
        Err(guard_port->Err_0)
    } else if client_port is Err {
        Err(client_port->Err_0)
    } else if guard_port->Ok_0 == client_port->Ok_0 {
        Err("NUX_GW_GUARD_PORT et NUX_GW_CLIENT_PORT doivent différer"@)
    } else if env.database_url is None {
        Err("DATABASE_URL doit être défini"@)
    } else if env.api_url is None {
        Err("NUX_GW_API_URL doit être défini"@)
    } else if token is Err {
        Err(token->Err_0)
    } else {
        Ok(
            ConfigModel {
                admin_addr: env.admin_addr->Ok_0,
                listen: listen->Ok_0,
                identity_file: unless_blank(env.identity_file),
                guard_port: guard_port->Ok_0,
                client_port: client_port->Ok_0,
                database_url: env.database_url->0@,
                dashboard_base_url: without_slashes(env.api_url->0@),
                admin_token: token->Ok_0,
                dashboard_token: unless_blank(env.dashboard_token),
            },
        )
    }
}

fn env_or(value: Option<String>, default: &str) -> (r: String)
    ensures
        r@ == or_default(value, default@),
{
    match value {
        Some(v) => v,
        None => default.to_owned(),
    }
}

fn not_blank(value: Option<String>) -> (r: Option<String>)
    ensures
        crate::text::opt_text(r) == unless_blank(value),
{
    match value {
        Some(v) => {
            if trim(v.as_str()).is_empty() {
                None
            } else {
                Some(v)
            }
        },
        None => None,
    }
}

fn strip_slashes(text: &str) -> (r: String)
    ensures
        r@ == without_slashes(text@),
{
    let chars = chars_of(text);
    let mut n: usize = chars.len();
    assert(text@.take(n as int) =~= text@);
    while n > 0 && chars[n - 1] == '/'
        invariant
            n <= chars@.len(),
            chars@ == text@,
            without_slashes(text@) == without_slashes(text@.take(n as int)),
        decreases n,
    {
        assert(text@.take(n as int).drop_last() =~= text@.take(n - 1));
        n -= 1;
    }
    let kept = text.substring_char(0, n);
    assert(kept@ =~= text@.take(n as int));
    kept.to_owned()
}

fn read_port(key: &str, text: String) -> (r: core::result::Result<u16, String>)
    ensures
        port_of(key@, text@) == (match r {
            Ok(p) => Ok(p),
            Err(e) => Err(e@),
        }),
{
    match parse_u16(text.as_str()) {
        Ok(port) => Ok(port),
        Err(why) => {
            let mut message = key.to_owned();
            message.append(" invalide: ");
            message.append(why.as_str());
            Err(message)
        },
    }
}

fn required_token(key: &str, value: Option<String>) -> (r: core::result::Result<String, String>)
    ensures
        token_of(key@, value) == (match r {
            Ok(t) => Ok(t@),
            Err(e) => Err(e@),
        }),
{
    match value {
        None => Err(key.to_owned().concat(" doit être défini")),
        Some(v) => {
            if v.as_str().unicode_len() < MIN_TOKEN_LEN {
                Err(key.to_owned().concat(" doit faire au moins 16 caractères"))
            } else {
                Ok(v)
            }
        },
    }
}

impl Config {
    /// Validates the environment. A token of administration that is missing or too short
    /// fails the start rather than leaves a route unprotected.
    pub fn from_env(env: Environment) -> (r: core::result::Result<Config, String>)
        ensures
            resolved(env) == (match r {
                Ok(c) => Ok(c@),
                Err(e) => Err(e@),
            }),
    {
        let listen = match &env.listen {
            Some(text) => Multiaddr::parse(text.as_str()),
            None => Multiaddr::parse("/ip4/0.0.0.0/tcp/4589"),
        };
        Config::from_parts(env, listen)
    }

    /// Validates the environment, from what the address of the node was read as.
    pub fn from_parts(env: Environment, listen: core::result::Result<Multiaddr, String>) -> (r:
        core::result::Result<Config, String>)
        ensures
            resolved_with(
                env,
                match listen {
                    Ok(a) => Ok(a@),
                    Err(e) => Err(e@),
                },
            ) == (match r {
                Ok(c) => Ok(c@),
                Err(e) => Err(e@),
            }),
    {
        let admin_addr = match env.admin_addr {
            Ok(addr) => addr,
            Err(why) => {
                return Err("NUX_GW_ADMIN_ADDR invalide: ".to_owned().concat(why.as_str()));
            },
        };
        let listen = match listen {
            Ok(addr) => addr,
            Err(why) => {
                return Err("NUX_GW_LISTEN invalide: ".to_owned().concat(why.as_str()));
            },
        };
        let identity_file = not_blank(env.identity_file);
        let guard_port: u16 = match read_port("NUX_GW_GUARD_PORT", env_or(env.guard_port, "8089")) {
            Ok(port) => port,
            Err(e) => {
                return Err(e);
            },
        };
        let client_port: u16 = match read_port(
            "NUX_GW_CLIENT_PORT",
            env_or(env.client_port, "8090"),
        ) {
            Ok(port) => port,
            Err(e) => {
                return Err(e);
            },
        };
        if guard_port == client_port {
            return Err("NUX_GW_GUARD_PORT et NUX_GW_CLIENT_PORT doivent différer".to_owned());
        }
        let database_url = match env.database_url {
            Some(url) => url,
            None => {
                return Err("DATABASE_URL doit être défini".to_owned());
            },
        };
        let dashboard_base_url = match env.api_url {
            Some(url) => strip_slashes(url.as_str()),
            None => {
                return Err("NUX_GW_API_URL doit être défini".to_owned());
            },
        };
        let admin_token = match required_token("NUX_GW_ADMIN_TOKEN", env.admin_token) {
            Ok(token) => token,
            Err(e) => {
                return Err(e);
            },
        };
        let dashboard_token = not_blank(env.dashboard_token);
        Ok(
            Config {
                admin_addr,
                listen,
                identity_file,
                guard_port,
                client_port,
                database_url,
                dashboard_base_url,
                admin_token,
                dashboard_token,
            },
        )
    }
}

/// An accepted configuration never leaves the administration unprotected, nor serves the
/// two tunnel routers on one port.
pub proof fn accepted_configuration_is_protected(env: Environment)
    requires
        resolved(env) is Ok,
    ensures
        resolved(env)->Ok_0.admin_token.len() >= MIN_TOKEN_LEN,
        resolved(env)->Ok_0.guard_port != resolved(env)->Ok_0.client_port,
{
}

} // verus!
