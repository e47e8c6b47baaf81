//! Decisions of the routes of the gateway.

use vstd::prelude::*;
use vstd::string::StringExecFns;
use crate::auth::unix_now;
use crate::bytes::constant_time_eq;
use crate::gateway::error::AppError;
use crate::gateway::models::{Allow, CheckSum, ConfigNodeGuard, ConfigNodeGuardInput};
use crate::identity::hex_decode;
use crate::peer::PeerId;
use crate::text::{push_decimal, strip_prefix, trim};

verus! {

/// Largest body of a request, in bytes.
pub const MAX_BODY_BYTES: usize = 65536;

/// How long the probe of the dashboard may take, in milliseconds.
pub const PROBE_TIMEOUT_MS: u64 = 2_000;

/// A message that quotes a value between two texts.
pub open spec fn quoting(before: Seq<char>, value: Seq<char>, after: Seq<char>) -> Seq<char> {
    before + " `"@ + value + after
}

fn quoting_text(before: &str, value: &str, after: &str) -> (r: String)
    ensures
        r@ == quoting(before@, value@, after@),
{
    let mut message = before.to_owned();
    message.append(" `");
    message.append(value);
    message.append(after);
    message
}

/// The refusal of the exempt addresses: that of the first one that is no address.
pub open spec fn exempt_refusal(exempt: Seq<String>, valid: Seq<bool>) -> Option<Seq<char>>
    decreases exempt.len(),
{
    if exempt.len() == 0 {
        None
    } else {
        match exempt_refusal(exempt.drop_last(), valid.drop_last()) {
            Some(e) => Some(e),
            None => if valid.last() {
                None
            } else {
                Some(quoting("rate_limit.exempt"@, exempt.last()@, "` invalide"@))
            },
        }
    }
}

/// The refusal of the authorised peers: that of the first one that is no peer id, `valid`
/// telling it of each.
pub open spec fn allow_refusal(allow: Seq<Allow>, valid: Seq<bool>) -> Option<Seq<char>>
    decreases allow.len(),
{
    if allow.len() == 0 {
        None
    } else {
        match allow_refusal(allow.drop_last(), valid.drop_last()) {
            Some(e) => Some(e),
            None => if valid.last() {
                None
            } else {
                Some(quoting("allow.peer"@, allow.last().peer@, "` invalide"@))
            },
        }
    }
}

/// The refusal of one expected fingerprint, `valid` telling whether it is that of a peer.
pub open spec fn checksum_refusal_of(e: CheckSum, valid: bool) -> Option<Seq<char>> {
    let text = crate::text::trimmed(e.sha256@);
    if !valid {
        Some(quoting("check_sum.peer"@, e.peer@, "` invalide"@))
    } else if !crate::identity::is_hex(text) {
        Some(quoting("check_sum.sha256"@, e.sha256@, "` invalide"@))
    } else if crate::identity::hex_bytes(text).len() != 32 {
        Some(quoting("check_sum.sha256"@, e.sha256@, "` doit faire 32 octets"@))
    } else {
        None
    }
}

/// The refusal of the expected fingerprints: that of the first one that is invalid.
pub open spec fn checksum_refusal(sums: Seq<CheckSum>, valid: Seq<bool>) -> Option<Seq<char>>
    decreases sums.len(),
{
    if sums.len() == 0 {
        None
    } else {
        match checksum_refusal(sums.drop_last(), valid.drop_last()) {
            Some(e) => Some(e),
            None => checksum_refusal_of(sums.last(), valid.last()),
        }
    }
}

/// The refusal of a configuration, `None` if it is valid. The lists tell of each exempt
/// entry whether it is an IP address, and of each peer whether it is a peer id.
pub open spec fn input_refusal_with(
    input: ConfigNodeGuardInput,
    exempt_valid: Seq<bool>,
    allow_valid: Seq<bool>,
    sum_valid: Seq<bool>,
) -> Option<Seq<char>> {
    if input.rate_limit.window_secs == 0 {
        Some("rate_limit.window_secs doit être d'au moins 1"@)
    } else if exempt_refusal(input.rate_limit.exempt@, exempt_valid) is Some {
        exempt_refusal(input.rate_limit.exempt@, exempt_valid)
    } else if allow_refusal(input.allow@, allow_valid) is Some {
        allow_refusal(input.allow@, allow_valid)
    } else {
        checksum_refusal(input.check_sum@, sum_valid)
    }
}

/// Whether a text is a peer id.
pub open spec fn names_a_peer(text: Seq<char>) -> bool {
    crate::peer::peer_id_of_text(text) is Ok
}

/// Which authorised peers are peer ids.
pub open spec fn valid_allow(allow: Seq<Allow>) -> Seq<bool> {
    Seq::new(allow.len(), |i: int| names_a_peer(allow[i].peer@))
}

/// Which expected fingerprints are those of peer ids.
pub open spec fn valid_sums(sums: Seq<CheckSum>) -> Seq<bool> {
    Seq::new(sums.len(), |i: int| names_a_peer(sums[i].peer@))
}

/// The refusal of a configuration, `None` if it is valid.
pub open spec fn input_refusal(input: ConfigNodeGuardInput, exempt_valid: Seq<bool>) -> Option<
    Seq<char>,
> {
    input_refusal_with(
        input,
        exempt_valid,
        valid_allow(input.allow@),
        valid_sums(input.check_sum@),
    )
}

fn is_peer_id(text: &str) -> (r: bool)
    ensures
        r == names_a_peer(text@),
{
    match PeerId::parse(text) {
        Ok(_) => true,
        Err(_) => false,
    }
}

fn check_exempt(exempt: &Vec<String>, valid: &Vec<bool>) -> (r: Option<String>)
    requires
        exempt@.len() == valid@.len(),
    ensures
        exempt_refusal(exempt@, valid@) == crate::text::opt_text(r),
{
    let mut first: Option<String> = None;
    let mut i: usize = 0;
    assert(exempt_refusal(exempt@.take(0), valid@.take(0)) is None);
    while i < exempt.len()
        invariant
            i <= exempt@.len(),
            exempt@.len() == valid@.len(),
            exempt_refusal(exempt@.take(i as int), valid@.take(i as int)) == crate::text::opt_text(
                first,
            ),
        decreases exempt@.len() - i,
    {
        assert(exempt@.take(i + 1).drop_last() =~= exempt@.take(i as int));
        assert(valid@.take(i + 1).drop_last() =~= valid@.take(i as int));
        if first.is_none() && !valid[i] {
            first = Some(quoting_text("rate_limit.exempt", exempt[i].as_str(), "` invalide"));
        }
        i += 1;
    }
    assert(exempt@.take(exempt@.len() as int) =~= exempt@);
    assert(valid@.take(valid@.len() as int) =~= valid@);
    first
}

fn check_allow(allow: &Vec<Allow>, valid: &Vec<bool>) -> (r: Option<String>)
    requires
        allow@.len() == valid@.len(),
    ensures
        allow_refusal(allow@, valid@) == crate::text::opt_text(r),
{
    let mut first: Option<String> = None;
    let mut i: usize = 0;
    assert(allow_refusal(allow@.take(0), valid@.take(0)) is None);
    while i < allow.len()
        invariant
            i <= allow@.len(),
            allow@.len() == valid@.len(),
            allow_refusal(allow@.take(i as int), valid@.take(i as int)) == crate::text::opt_text(
                first,
            ),
        decreases allow@.len() - i,
    {
        assert(allow@.take(i + 1).drop_last() =~= allow@.take(i as int));
        assert(valid@.take(i + 1).drop_last() =~= valid@.take(i as int));
        if first.is_none() && !valid[i] {
            first = Some(quoting_text("allow.peer", allow[i].peer.as_str(), "` invalide"));
        }
        i += 1;
    }
    assert(allow@.take(allow@.len() as int) =~= allow@);
    assert(valid@.take(valid@.len() as int) =~= valid@);
    first
}

fn check_one_checksum(e: &CheckSum, valid: bool) -> (r: Option<String>)
    ensures
        checksum_refusal_of(*e, valid) == crate::text::opt_text(r),
{
    if !valid {
        return Some(quoting_text("check_sum.peer", e.peer.as_str(), "` invalide"));
    }
    match hex_decode(trim(e.sha256.as_str())) {
        Ok(bytes) => {
            if bytes.len() != 32 {
                Some(quoting_text("check_sum.sha256", e.sha256.as_str(), "` doit faire 32 octets"))
            } else {
                None
            }
        },
        Err(_) => Some(quoting_text("check_sum.sha256", e.sha256.as_str(), "` invalide")),
    }
}

fn check_checksums(sums: &Vec<CheckSum>, valid: &Vec<bool>) -> (r: Option<String>)
    requires
        sums@.len() == valid@.len(),
    ensures
        checksum_refusal(sums@, valid@) == crate::text::opt_text(r),
{
    let mut first: Option<String> = None;
    let mut i: usize = 0;
    assert(checksum_refusal(sums@.take(0), valid@.take(0)) is None);
    while i < sums.len()
        invariant
            i <= sums@.len(),
            sums@.len() == valid@.len(),
            checksum_refusal(sums@.take(i as int), valid@.take(i as int))
                == crate::text::opt_text(first),
        decreases sums@.len() - i,
    {
        assert(sums@.take(i + 1).drop_last() =~= sums@.take(i as int));
        assert(valid@.take(i + 1).drop_last() =~= valid@.take(i as int));
        if first.is_none() {
            first = check_one_checksum(&sums[i], valid[i]);
        }
        i += 1;
    }
    assert(sums@.take(sums@.len() as int) =~= sums@);
    assert(valid@.take(valid@.len() as int) =~= valid@);
    first
}

/// Validates a configuration. The lists tell of each exempt entry whether it is an IP
/// address, and of each peer whether it is a peer id.
pub fn validate_checked(
    input: &ConfigNodeGuardInput,
    exempt_valid: &Vec<bool>,
    allow_valid: &Vec<bool>,
    sum_valid: &Vec<bool>,
) -> (r: core::result::Result<(), AppError>)
    requires
        input.rate_limit.exempt@.len() == exempt_valid@.len(),
        input.allow@.len() == allow_valid@.len(),
        input.check_sum@.len() == sum_valid@.len(),
    ensures
        match input_refusal_with(*input, exempt_valid@, allow_valid@, sum_valid@) {
            None => r is Ok,
            Some(why) => r matches Err(AppError::BadRequest(m)) && m@ == why,
        },
{
    if input.rate_limit.window_secs == 0 {
        return Err(
            AppError::BadRequest("rate_limit.window_secs doit être d'au moins 1".to_owned()),
        );
    }
    match check_exempt(&input.rate_limit.exempt, exempt_valid) {
        Some(why) => {
            return Err(AppError::BadRequest(why));
        },
        None => {},
    }
    match check_allow(&input.allow, allow_valid) {
        Some(why) => {
            return Err(AppError::BadRequest(why));
        },
        None => {},
    }
    match check_checksums(&input.check_sum, sum_valid) {
        Some(why) => Err(AppError::BadRequest(why)),
        None => Ok(()),
    }
}

/// Validates a configuration. `exempt_valid` tells of each exempt entry whether it is an
/// IP address.
pub fn validate_input(input: &ConfigNodeGuardInput, exempt_valid: &Vec<bool>) -> (r:
    core::result::Result<(), AppError>)
    requires
        input.rate_limit.exempt@.len() == exempt_valid@.len(),
    ensures
        match input_refusal(*input, exempt_valid@) {
            None => r is Ok,
            Some(why) => r matches Err(AppError::BadRequest(m)) && m@ == why,
        },
{
    let mut allow_valid: Vec<bool> = Vec::new();
    let mut i: usize = 0;
    while i < input.allow.len()
        invariant
            i <= input.allow@.len(),
            allow_valid@ =~= valid_allow(input.allow@).take(i as int),
        decreases input.allow@.len() - i,
    {
        allow_valid.push(is_peer_id(input.allow[i].peer.as_str()));
        i += 1;
    }
    let mut sum_valid: Vec<bool> = Vec::new();
    let mut j: usize = 0;
    while j < input.check_sum.len()
        invariant
            j <= input.check_sum@.len(),
            sum_valid@ =~= valid_sums(input.check_sum@).take(j as int),
        decreases input.check_sum@.len() - j,
    {
        sum_valid.push(is_peer_id(input.check_sum[j].peer.as_str()));
        j += 1;
    }
    assert(allow_valid@ =~= valid_allow(input.allow@));
    assert(sum_valid@ =~= valid_sums(input.check_sum@));
    validate_checked(input, exempt_valid, &allow_valid, &sum_valid)
}

/// The refusal of the path of a request on a configuration, `valid` telling whether it
/// names a peer.
pub fn uuid_outcome(uuid: &str, valid: bool) -> (r: core::result::Result<(), AppError>)
    ensures
        valid ==> r is Ok,
        !valid ==> (r matches Err(AppError::BadRequest(m)) && m@ == quoting(
            "uuid"@,
            uuid@,
            "` n'est pas un PeerId valide"@,
        )),
{
    if valid {
        Ok(())
    } else {
        Err(AppError::BadRequest(quoting_text("uuid", uuid, "` n'est pas un PeerId valide")))
    }
}

/// Checks the peer id in the path of a request on a configuration.
pub fn check_uuid(uuid: &str) -> (r: core::result::Result<(), AppError>)
    ensures
        match crate::peer::peer_id_of_text(uuid@) {
            Ok(_) => r is Ok,
            Err(_) => r matches Err(AppError::BadRequest(m)) && m@ == quoting(
                "uuid"@,
                uuid@,
                "` n'est pas un PeerId valide"@,
            ),
        },
{
    uuid_outcome(uuid, is_peer_id(uuid))
}

/// The configuration to keep for the Guard `uuid`, from a valid one that the dashboard
/// pushes, at a given time.
pub fn stored_config(uuid: String, input: ConfigNodeGuardInput, now: u64) -> (r: ConfigNodeGuard)
    ensures
        r.uuid == uuid,
        r.rate_limit == input.rate_limit,
        r.allow == input.allow,
        r.check_sum == input.check_sum,
        r.updated_at@ == crate::text::decimal(now as nat),
{
    let mut updated_at = String::new();
    push_decimal(&mut updated_at, now);
    assert(updated_at@ =~= crate::text::decimal(now as nat));
    ConfigNodeGuard {
        uuid,
        rate_limit: input.rate_limit,
        allow: input.allow,
        check_sum: input.check_sum,
        updated_at,
    }
}

/// The configuration to keep for the Guard `uuid`, from what the dashboard pushes, at a
/// given time.
pub fn put_config_at(
    uuid: String,
    input: ConfigNodeGuardInput,
    exempt_valid: &Vec<bool>,
    now: u64,
) -> (r: core::result::Result<ConfigNodeGuard, AppError>)
    requires
        input.rate_limit.exempt@.len() == exempt_valid@.len(),
    ensures
        crate::peer::peer_id_of_text(uuid@) is Err ==> (r matches Err(AppError::BadRequest(m)) && m@
            == quoting("uuid"@, uuid@, "` n'est pas un PeerId valide"@)),
        crate::peer::peer_id_of_text(uuid@) is Ok ==> match input_refusal(input, exempt_valid@) {
            Some(why) => r matches Err(AppError::BadRequest(m)) && m@ == why,
            None => r matches Ok(c) && c.uuid == uuid && c.rate_limit == input.rate_limit && c.allow
                == input.allow && c.check_sum == input.check_sum && c.updated_at@
                == crate::text::decimal(now as nat),
        },
{
    match check_uuid(uuid.as_str()) {
        Ok(()) => {},
        Err(e) => {
            return Err(e);
        },
    }
    match validate_input(&input, exempt_valid) {
        Ok(()) => {},
        Err(e) => {
            return Err(e);
        },
    }
    Ok(stored_config(uuid, input, now))
}

/// The configuration to keep for the Guard `uuid`, from what the dashboard pushes, at the
/// time of the local clock.
pub fn put_config(uuid: String, input: ConfigNodeGuardInput, exempt_valid: &Vec<bool>) -> (r:
    core::result::Result<ConfigNodeGuard, AppError>)
    requires
        input.rate_limit.exempt@.len() == exempt_valid@.len(),
    ensures
        r is Ok <==> crate::peer::peer_id_of_text(uuid@) is Ok && input_refusal(
            input,
            exempt_valid@,
        ) is None,
        crate::peer::peer_id_of_text(uuid@) is Err ==> (r matches Err(AppError::BadRequest(m)) && m@
            == quoting("uuid"@, uuid@, "` n'est pas un PeerId valide"@)),
        crate::peer::peer_id_of_text(uuid@) is Ok && input_refusal(input, exempt_valid@) is Some
            ==> (r matches Err(AppError::BadRequest(m)) && Some(m@) == input_refusal(
            input,
            exempt_valid@,
        )),
        r matches Ok(c) ==> c.uuid == uuid && c.rate_limit == input.rate_limit && c.allow
            == input.allow && c.check_sum == input.check_sum && exists|now: u64|
            c.updated_at@ == #[trigger] crate::text::decimal(now as nat),
{
    let now: u64 = unix_now();
    put_config_at(uuid, input, exempt_valid, now)
}

/// The answer to the reading of a configuration, from what was found.
pub fn get_config(uuid: &str, found: Option<ConfigNodeGuard>) -> (r: core::result::Result<
    ConfigNodeGuard,
    AppError,
>)
    ensures
        match crate::peer::peer_id_of_text(uuid@) {
            Err(_) => r matches Err(AppError::BadRequest(m)) && m@ == quoting(
                "uuid"@,
                uuid@,
                "` n'est pas un PeerId valide"@,
            ),
            Ok(_) => match found {
                Some(c) => r == Ok::<ConfigNodeGuard, AppError>(c),
                None => r matches Err(AppError::NotFound),
            },
        },
{
    match check_uuid(uuid) {
        Ok(()) => {},
        Err(e) => {
            return Err(e);
        },
    }
    match found {
        Some(config) => Ok(config),
        None => Err(AppError::NotFound),
    }
}

/// State of a node, as a request sets it.
#[derive(Debug, Clone)]
pub struct SetStateInput {
    /// The state.
    pub state: String,
}

/// Whether a state of a node is one that can be set.
pub open spec fn state_allowed(state: Seq<char>) -> bool {
    state == "active"@ || state == "inactive"@ || state == "relay"@ || state == "suspended"@
}

fn is_allowed_state(state: &String) -> (r: bool)
    ensures
        r == state_allowed(state@),
{
    *state == "active".to_owned() || *state == "inactive".to_owned() || *state
        == "relay".to_owned() || *state == "suspended".to_owned()
}

/// Decides on a change of the state of a node, `valid` telling whether the path names a
/// peer: the path to call at the dashboard, with the token to present there. The peer id
/// is checked first, then the state, then whether the gateway has a token.
pub fn node_state_request<'a>(
    peer_id: &str,
    valid: bool,
    body: &SetStateInput,
    dashboard_token: Option<&'a str>,
) -> (r: core::result::Result<(String, &'a str), AppError>)
    ensures
        node_state_decided(peer_id@, valid, body.state@, dashboard_token, r),
{
    if !valid {
        return Err(AppError::BadRequest(quoting_text("peer_id", peer_id, "` invalide")));
    }
    if !is_allowed_state(&body.state) {
        return Err(
            AppError::BadRequest(
                "state doit être l'un de [\"active\", \"inactive\", \"relay\", \"suspended\"]".to_owned(),
            ),
        );
    }
    match dashboard_token {
        None => Err(AppError::DashboardNotConfigured),
        Some(token) => {
            let mut path = "/api/v1/private/nodes/".to_owned();
            path.append(peer_id);
            path.append("/state");
            Ok((path, token))
        },
    }
}

/// Decides on a change of the state of a node.
pub fn post_node_state<'a>(
    peer_id: &str,
    body: &SetStateInput,
    dashboard_token: Option<&'a str>,
) -> (r: core::result::Result<(String, &'a str), AppError>)
    ensures
        node_state_decided(peer_id@, names_a_peer(peer_id@), body.state@, dashboard_token, r),
{
    node_state_request(peer_id, is_peer_id(peer_id), body, dashboard_token)
}

/// What is decided on a change of the state of a node.
pub open spec fn node_state_decided(
    peer_id: Seq<char>,
    valid: bool,
    state: Seq<char>,
    dashboard_token: Option<&str>,
    r: core::result::Result<(String, &str), AppError>,
) -> bool {
    if !valid {
        r matches Err(AppError::BadRequest(m)) && m@ == quoting(
            "peer_id"@,
            peer_id,
            "` invalide"@,
        )
    } else if !state_allowed(state) {
        r matches Err(AppError::BadRequest(m)) && m@
            == "state doit être l'un de [\"active\", \"inactive\", \"relay\", \"suspended\"]"@
    } else {
        match dashboard_token {
            None => r matches Err(AppError::DashboardNotConfigured),
            Some(token) => r matches Ok((path, t)) && path@ == "/api/v1/private/nodes/"@ + peer_id
                + "/state"@ && t == token,
        }
    }
}

/// Address of a call to the dashboard: the base, a path, and the query if there is one.
pub fn dashboard_url(base: &str, path: &str, query: Option<&str>) -> (r: String)
    ensures
        r@ == base@ + path@ + match query {
            Some(q) => if q@.len() > 0 {
                "?"@ + q@
            } else {
                Seq::empty()
            },
            None => Seq::empty(),
        },
{
    let mut url = base.to_owned();
    url.append(path);
    match query {
        Some(q) => {
            if !q.is_empty() {
                url.append("?");
                url.append(q);
            }
        },
        None => {},
    }
    assert(url@ =~= base@ + path@ + match query {
        Some(q) => if q@.len() > 0 {
            "?"@ + q@
        } else {
            Seq::empty()
        },
        None => Seq::empty(),
    });
    url
}

/// Whether a request presents the expected bearer token. The comparison takes constant
/// time for a token of the expected length.
pub fn require_bearer(authorization: Option<&str>, expected: &str) -> (r: core::result::Result<
    (),
    AppError,
>)
    ensures
        r is Ok <==> (authorization matches Some(v) && v@ == "Bearer "@ + expected@),
        r matches Err(e) ==> e is Unauthorized,
{
    let presented = match authorization {
        Some(v) => strip_prefix(v, "Bearer "),
        None => None,
    };
    let ok = match presented {
        Some(token) => {
            let same = token.as_bytes().len() == expected.as_bytes().len() && constant_time_eq(
                token.as_bytes(),
                expected.as_bytes(),
            );
            proof {
                vstd::utf8::encode_utf8_decode_utf8(token@);
                vstd::utf8::encode_utf8_decode_utf8(expected@);
                let v = authorization->0@;
                let n = "Bearer "@.len() as int;
                assert(v =~= v.take(n) + v.skip(n));
                if v == "Bearer "@ + expected@ {
                    assert(v.skip(n) =~= expected@);
                }
            }
            same
        },
        None => {
            proof {
                if authorization is Some && authorization->0@ == "Bearer "@ + expected@ {
                    let n = "Bearer "@.len() as int;
                    assert(authorization->0@.take(n) =~= "Bearer "@);
                }
            }
            false
        },
    };
    if ok {
        Ok(())
    } else {
        Err(AppError::Unauthorized)
    }
}

/// What the health route says of the dashboard, from the status that its probe got, if it
/// got one.
pub fn dashboard_health(probe: Option<u16>) -> (r: &'static str)
    ensures
        r@ == if probe is Some && 200 <= probe->0 < 300 {
            "ok"@
        } else {
            "unreachable"@
        },
{
    match probe {
        Some(status) => {
            if 200 <= status && status < 300 {
                "ok"
            } else {
                "unreachable"
            }
        },
        None => "unreachable",
    }
}

} // verus!
