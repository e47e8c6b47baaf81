//! Laws of the gateway that span its functions and those of the Guards.

use vstd::prelude::*;
use crate::cli::guard_config::{RawAllow, RawChecksumBin, RawConfig, RawExempt};
use crate::addr::SocketAddr;
use crate::gateway::config::{ConfigModel, Environment};
use crate::gateway::error::AppError;
use crate::gateway::models::{Allow, CheckSum, ConfigNodeGuard, ConfigNodeGuardInput};
use crate::gateway::rate_limit::WindowModel;

verus! {

/// Whether the fields of a Guard's file are those of a configuration of the gateway.
/// `exempt_valid` tells of each exempt entry whether it is an IP address.
pub open spec fn same_fields(
    raw: RawConfig,
    input: ConfigNodeGuardInput,
    exempt_valid: Seq<bool>,
) -> bool {
    &&& raw.rate_limit.max == input.rate_limit.max
    &&& raw.rate_limit.window_secs == input.rate_limit.window_secs
    &&& raw.rate_limit.exempt@.len() == input.rate_limit.exempt@.len()
    &&& raw.rate_limit.exempt@.len() == exempt_valid.len()
    &&& forall|i: int|
        0 <= i < exempt_valid.len() ==> (#[trigger] raw.rate_limit.exempt@[i]).text@
            == input.rate_limit.exempt@[i]@ && (raw.rate_limit.exempt@[i].parsed is Ok
            <==> exempt_valid[i])
    &&& raw.allow@.len() == input.allow@.len()
    &&& forall|i: int|
        0 <= i < input.allow@.len() ==> (#[trigger] raw.allow@[i]).peer@ == input.allow@[i].peer@
    &&& raw.checksum_bin@.len() == input.check_sum@.len()
    &&& forall|i: int|
        0 <= i < input.check_sum@.len() ==> (#[trigger] raw.checksum_bin@[i]).peer@
            == input.check_sum@[i].peer@ && raw.checksum_bin@[i].sha256@
            == input.check_sum@[i].sha256@
}

proof fn lemma_exempt(raw: Seq<RawExempt>, exempt: Seq<String>, valid: Seq<bool>)
    requires
        raw.len() == exempt.len(),
        raw.len() == valid.len(),
        forall|i: int|
            0 <= i < valid.len() ==> ((#[trigger] raw[i]).parsed is Ok <==> valid[i]),
    ensures
        crate::cli::guard_config::exempts(raw) is Ok
            <==> crate::gateway::handlers::exempt_refusal(exempt, valid) is None,
    decreases raw.len(),
{
    if raw.len() > 0 {
        assert forall|i: int| 0 <= i < valid.drop_last().len() implies ((
        #[trigger] raw.drop_last()[i]).parsed is Ok <==> valid.drop_last()[i]) by {
            assert(raw.drop_last()[i] == raw[i]);
        }
        lemma_exempt(raw.drop_last(), exempt.drop_last(), valid.drop_last());
        assert(raw.last() == raw[raw.len() - 1]);
    }
}

proof fn lemma_allow(
    raw: Seq<RawAllow>,
    readings: Seq<core::result::Result<Seq<u8>, Seq<char>>>,
    allow: Seq<Allow>,
    valid: Seq<bool>,
)
    requires
        raw.len() == allow.len(),
        raw.len() == readings.len(),
        raw.len() == valid.len(),
        forall|i: int| 0 <= i < raw.len() ==> ((#[trigger] readings[i]) is Ok <==> valid[i]),
    ensures
        crate::cli::guard_config::allows(raw, readings) is Ok
            <==> crate::gateway::handlers::allow_refusal(allow, valid) is None,
    decreases raw.len(),
{
    if raw.len() > 0 {
        assert forall|i: int| 0 <= i < raw.drop_last().len() implies ((
        #[trigger] readings.drop_last()[i]) is Ok <==> valid.drop_last()[i]) by {
            assert(readings.drop_last()[i] == readings[i]);
        }
        lemma_allow(raw.drop_last(), readings.drop_last(), allow.drop_last(), valid.drop_last());
        let items = crate::cli::guard_config::read_as(raw, readings);
        assert(items.drop_last() =~= crate::cli::guard_config::read_as(
            raw.drop_last(),
            readings.drop_last(),
        ));
        assert(items.last() == (raw.last(), readings[raw.len() - 1]));
    }
}

proof fn lemma_checksum(
    raw: Seq<RawChecksumBin>,
    readings: Seq<core::result::Result<Seq<u8>, Seq<char>>>,
    sums: Seq<CheckSum>,
    valid: Seq<bool>,
)
    requires
        raw.len() == sums.len(),
        raw.len() == readings.len(),
        raw.len() == valid.len(),
        forall|i: int| 0 <= i < raw.len() ==> ((#[trigger] readings[i]) is Ok <==> valid[i]),
        forall|i: int| 0 <= i < raw.len() ==> (#[trigger] raw[i]).sha256@ == sums[i].sha256@,
    ensures
        crate::cli::guard_config::checksums(raw, readings) is Ok
            <==> crate::gateway::handlers::checksum_refusal(sums, valid) is None,
    decreases raw.len(),
{
    if raw.len() > 0 {
        assert forall|i: int| 0 <= i < raw.drop_last().len() implies ((
        #[trigger] readings.drop_last()[i]) is Ok <==> valid.drop_last()[i]) by {
            assert(readings.drop_last()[i] == readings[i]);
        }
        assert forall|i: int| 0 <= i < raw.drop_last().len() implies (
        #[trigger] raw.drop_last()[i]).sha256@ == sums.drop_last()[i].sha256@ by {
            assert(raw.drop_last()[i] == raw[i]);
        }
        lemma_checksum(raw.drop_last(), readings.drop_last(), sums.drop_last(), valid.drop_last());
        let items = crate::cli::guard_config::read_as(raw, readings);
        assert(items.drop_last() =~= crate::cli::guard_config::read_as(
            raw.drop_last(),
            readings.drop_last(),
        ));
        assert(items.last() == (raw[raw.len() - 1], readings[raw.len() - 1]));
    }
}

/// The gateway accepts a configuration exactly where a Guard accepts a file with these
/// fields: what the dashboard pushes through the gateway never leaves a Guard with a file
/// that it refuses, as long as the rest of the file is valid.
pub proof fn gateway_and_guard_agree(
    raw: RawConfig,
    input: ConfigNodeGuardInput,
    exempt_valid: Seq<bool>,
)
    requires
        same_fields(raw, input, exempt_valid),
        crate::addr::multiaddr_of_text(raw.listen@) is Ok,
        crate::cli::guard_config::exposes(raw.expose@) is Ok,
        crate::cli::guard_config::relay_of(
            raw.relay,
            crate::cli::guard_config::readings_of(raw).relay,
        ) is Ok,
        crate::cli::guard_config::namespace_of(raw.namespace) is Ok,
        raw.namespace is Some ==> raw.relay is Some,
    ensures
        crate::cli::guard_config::resolved(raw) is Ok
            <==> crate::gateway::handlers::input_refusal(input, exempt_valid) is None,
{
    lemma_exempt(raw.rate_limit.exempt@, input.rate_limit.exempt@, exempt_valid);
    let readings = crate::cli::guard_config::readings_of(raw);
    let allow_valid = crate::gateway::handlers::valid_allow(input.allow@);
    let sum_valid = crate::gateway::handlers::valid_sums(input.check_sum@);
    assert forall|i: int| 0 <= i < raw.allow@.len() implies ((
    #[trigger] readings.allow[i]) is Ok <==> allow_valid[i]) by {
        assert(raw.allow@[i].peer@ == input.allow@[i].peer@);
    }
    assert forall|i: int| 0 <= i < raw.checksum_bin@.len() implies ((
    #[trigger] readings.checksum_bin[i]) is Ok <==> sum_valid[i]) by {
        assert(raw.checksum_bin@[i].peer@ == input.check_sum@[i].peer@);
    }
    lemma_allow(raw.allow@, readings.allow, input.allow@, allow_valid);
    lemma_checksum(raw.checksum_bin@, readings.checksum_bin, input.check_sum@, sum_valid);
}

/// Whether a peer is among peers with roles.
spec fn granted(roles: Seq<(Seq<u8>, Seq<Seq<char>>)>, peer: Seq<u8>) -> bool {
    exists|k: int| 0 <= k < roles.len() && (#[trigger] roles[k]).0 == peer
}

/// A whitelist to which roles are added holds the peers of both; where the roles are those
/// that peers have next to some Guards, it gives these.
proof fn lemma_with_roles(
    list: Map<Seq<u8>, Seq<Seq<char>>>,
    roles: Seq<(Seq<u8>, Seq<Seq<char>>)>,
    guards: Set<Seq<u8>>,
    peer: Seq<u8>,
)
    requires
        forall|k: int|
            0 <= k < roles.len() ==> (#[trigger] roles[k]).1 == crate::gateway::roles::role_of(
                guards,
                roles[k].0,
            ),
    ensures
        crate::gateway::roles::with_roles(list, roles).contains_key(peer) <==> list.contains_key(
            peer,
        ) || granted(roles, peer),
        granted(roles, peer) ==> crate::gateway::roles::with_roles(list, roles)[peer]
            == crate::gateway::roles::role_of(guards, peer),
        !granted(roles, peer) ==> crate::gateway::roles::with_roles(list, roles)[peer]
            == list[peer],
    decreases roles.len(),
{
    if roles.len() > 0 {
        let front = roles.drop_last();
        assert forall|k: int| 0 <= k < front.len() implies (#[trigger] front[k]).1
            == crate::gateway::roles::role_of(guards, front[k].0) by {
            assert(front[k] == roles[k]);
        }
        lemma_with_roles(list, front, guards, peer);
        assert(roles.last() == roles[roles.len() - 1]);
        if granted(front, peer) {
            let k = choose|k: int| 0 <= k < front.len() && (#[trigger] front[k]).0 == peer;
            assert(roles[k].0 == peer);
        }
        if granted(roles, peer) {
            let k = choose|k: int| 0 <= k < roles.len() && (#[trigger] roles[k]).0 == peer;
            if k < front.len() {
                assert(front[k].0 == peer);
            }
        }
    }
}

proof fn lemma_allowed_roles(allowed: Seq<Option<Seq<u8>>>, peer: Seq<u8>)
    ensures
        granted(crate::gateway::roles::allowed_roles(allowed), peer) <==> allowed.contains(
            Some(peer),
        ),
        forall|k: int|
            0 <= k < crate::gateway::roles::allowed_roles(allowed).len() ==> (
            #[trigger] crate::gateway::roles::allowed_roles(allowed)[k]).1
                == crate::gateway::roles::client_roles() && allowed.contains(
                Some(crate::gateway::roles::allowed_roles(allowed)[k].0),
            ),
    decreases allowed.len(),
{
    if allowed.len() > 0 {
        let rest = allowed.drop_last();
        let all = crate::gateway::roles::allowed_roles(allowed);
        let front = crate::gateway::roles::allowed_roles(rest);
        lemma_allowed_roles(rest, peer);
        let n = allowed.len() - 1;
        assert(allowed.last() == allowed[n]);
        assert forall|p: Seq<u8>| #[trigger] rest.contains(Some(p)) implies allowed.contains(
            Some(p),
        ) by {
            let i = choose|i: int| 0 <= i < rest.len() && rest[i] == Some(p);
            assert(allowed[i] == Some(p));
        }
        assert forall|k: int| 0 <= k < all.len() implies (#[trigger] all[k]).1
            == crate::gateway::roles::client_roles() && allowed.contains(Some(all[k].0)) by {
            if k < front.len() {
                assert(all[k] == front[k]);
                assert(rest.contains(Some(front[k].0)));
            } else {
                assert(allowed[n] == Some(all[k].0));
            }
        }
        if granted(front, peer) {
            let k = choose|k: int| 0 <= k < front.len() && (#[trigger] front[k]).0 == peer;
            assert(all[k].0 == peer);
        }
        if granted(all, peer) {
            let k = choose|k: int| 0 <= k < all.len() && (#[trigger] all[k]).0 == peer;
            assert(allowed.contains(Some(all[k].0)));
        }
        if allowed.contains(Some(peer)) {
            let i = choose|i: int| 0 <= i < allowed.len() && allowed[i] == Some(peer);
            if i < n {
                assert(rest[i] == Some(peer));
            } else {
                assert(all[front.len() as int].0 == peer);
            }
        }
    }
}

/// The roles that a pushed configuration grants are those of its Guard and of the peers it
/// lists that are no Guards.
proof fn lemma_pushed_roles(config: ConfigNodeGuard, guards: Set<Seq<u8>>, peer: Seq<u8>)
    ensures
        ({
            let roles = crate::gateway::roles::pushed_roles(config, guards);
            let guard = crate::gateway::roles::named_peer(config.uuid@);
            let all = crate::gateway::roles::and_guard(guards, guard);
            &&& granted(roles, peer) <==> guard == Some(peer) || (crate::gateway::roles::lists(
                config.allow@,
                peer,
            ) && !all.contains(peer))
            &&& forall|k: int|
                0 <= k < roles.len() ==> (#[trigger] roles[k]).1 == crate::gateway::roles::role_of(
                    all,
                    roles[k].0,
                )
        }),
{
    let roles = crate::gateway::roles::pushed_roles(config, guards);
    let guard = crate::gateway::roles::named_peer(config.uuid@);
    let all = crate::gateway::roles::and_guard(guards, guard);
    let named = crate::gateway::roles::named_peers(config.allow@);
    let peers = crate::gateway::roles::without(named, all);
    let allowed = crate::gateway::roles::allowed_roles(peers);
    lemma_allowed_roles(peers, peer);
    let own = roles.len() - allowed.len();
    assert forall|k: int| 0 <= k < roles.len() implies (#[trigger] roles[k]).1
        == crate::gateway::roles::role_of(all, roles[k].0) by {
        if k >= own {
            assert(roles[k] == allowed[k - own]);
            let i = choose|i: int| 0 <= i < peers.len() && peers[i] == Some(roles[k].0);
            assert(!all.contains(roles[k].0));
        }
    }
    if granted(allowed, peer) {
        let k = choose|k: int| 0 <= k < allowed.len() && (#[trigger] allowed[k]).0 == peer;
        assert(roles[own + k].0 == peer);
    }
    if guard == Some(peer) {
        assert(roles[0].0 == peer);
    }
    if granted(roles, peer) {
        let k = choose|k: int| 0 <= k < roles.len() && (#[trigger] roles[k]).0 == peer;
        if k >= own {
            assert(allowed[k - own].0 == peer);
        }
    }
    if crate::gateway::roles::lists(config.allow@, peer) && !all.contains(peer) {
        let j = choose|j: int|
            0 <= j < config.allow@.len() && crate::gateway::roles::named_peer(
                (#[trigger] config.allow@[j]).peer@,
            ) == Some(peer);
        assert(named[j] == Some(peer));
        assert(peers[j] == Some(peer));
    }
    if peers.contains(Some(peer)) {
        let j = choose|j: int| 0 <= j < peers.len() && peers[j] == Some(peer);
        assert(named[j] == Some(peer));
        assert(crate::gateway::roles::named_peer(config.allow@[j].peer@) == Some(peer));
    }
}

/// The whitelist of the gateway while it runs, after a configuration is pushed: the roles
/// of the configuration are added to it, `stored` being the configurations kept since.
pub open spec fn live_after_push(
    live: Map<Seq<u8>, Seq<Seq<char>>>,
    config: ConfigNodeGuard,
    stored: Seq<ConfigNodeGuard>,
) -> Map<Seq<u8>, Seq<Seq<char>>> {
    crate::gateway::roles::with_roles(
        live,
        crate::gateway::roles::pushed_roles(config, crate::gateway::roles::guards_of(stored)),
    )
}

/// A Guard is never lowered: whatever configuration is pushed, the Guard of a configuration
/// that is kept still has the roles of a Guard, though the pushed one lists it among the
/// peers it authorises.
pub proof fn push_never_lowers_a_guard(
    live: Map<Seq<u8>, Seq<Seq<char>>>,
    config: ConfigNodeGuard,
    stored: Seq<ConfigNodeGuard>,
    guard: Seq<u8>,
)
    requires
        crate::gateway::roles::is_guard(stored, guard),
        live.contains_key(guard),
        live[guard] == crate::gateway::roles::guard_roles(),
    ensures
        live_after_push(live, config, stored).contains_key(guard),
        live_after_push(live, config, stored)[guard] == crate::gateway::roles::guard_roles(),
{
    let guards = crate::gateway::roles::guards_of(stored);
    let roles = crate::gateway::roles::pushed_roles(config, guards);
    let all = crate::gateway::roles::and_guard(
        guards,
        crate::gateway::roles::named_peer(config.uuid@),
    );
    lemma_pushed_roles(config, guards, guard);
    lemma_with_roles(live, roles, all, guard);
}

/// A restart cuts off no Guard: the whitelist that is rebuilt gives the Guard of every
/// configuration the roles of a Guard.
pub proof fn restart_cuts_off_no_guard(configs: Seq<ConfigNodeGuard>, i: int)
    requires
        0 <= i < configs.len(),
        crate::peer::peer_id_of_text(configs[i].uuid@) is Ok,
    ensures
        ({
            let list = crate::gateway::roles::whitelist_of(configs);
            let guard = crate::peer::peer_id_of_text(configs[i].uuid@)->Ok_0;
            list.contains_key(guard) && list[guard] == crate::gateway::roles::guard_roles()
        }),
{
    let guard = crate::peer::peer_id_of_text(configs[i].uuid@)->Ok_0;
    assert(crate::gateway::roles::named_peer(configs[i].uuid@) == Some(guard));
    assert(crate::gateway::roles::is_guard(configs, guard));
}

proof fn lemma_stored_row(before: Seq<ConfigNodeGuard>, after: Seq<ConfigNodeGuard>, n: int, peer: Seq<u8>)
    requires
        0 <= n < after.len(),
        after.len() == before.len() || after.len() == before.len() + 1,
        n < before.len() ==> before[n].uuid@ == after[n].uuid@,
        n == before.len() || after.len() == before.len(),
        forall|i: int| 0 <= i < before.len() && i != n ==> after[i] == #[trigger] before[i],
    ensures
        crate::gateway::roles::is_guard(after, peer) <==> crate::gateway::roles::is_guard(
            before,
            peer,
        ) || crate::gateway::roles::named_peer(after[n].uuid@) == Some(peer),
        crate::gateway::roles::is_client(after, peer) ==> crate::gateway::roles::is_client(
            before,
            peer,
        ) || crate::gateway::roles::lists(after[n].allow@, peer),
        n == before.len() && crate::gateway::roles::is_client(before, peer)
            ==> crate::gateway::roles::is_client(after, peer),
        crate::gateway::roles::lists(after[n].allow@, peer) ==> crate::gateway::roles::is_client(
            after,
            peer,
        ),
{
    if crate::gateway::roles::is_guard(before, peer) {
        let i = choose|i: int|
            0 <= i < before.len() && crate::gateway::roles::named_peer(
                (#[trigger] before[i]).uuid@,
            ) == Some(peer);
        assert(crate::gateway::roles::named_peer(after[i].uuid@) == Some(peer));
    }
    if crate::gateway::roles::is_guard(after, peer) {
        let i = choose|i: int|
            0 <= i < after.len() && crate::gateway::roles::named_peer((#[trigger] after[i]).uuid@)
                == Some(peer);
        if i != n {
            assert(after[i] == before[i]);
        }
    }
    if crate::gateway::roles::is_client(after, peer) {
        let i = choose|i: int|
            0 <= i < after.len() && crate::gateway::roles::lists(
                (#[trigger] after[i]).allow@,
                peer,
            );
        if i != n {
            assert(after[i] == before[i]);
        }
    }
    if n == before.len() && crate::gateway::roles::is_client(before, peer) {
        let i = choose|i: int|
            0 <= i < before.len() && crate::gateway::roles::lists(
                (#[trigger] before[i]).allow@,
                peer,
            );
        assert(after[i] == before[i]);
    }
}

/// The configuration of a Guard that had none takes effect at once as it would by a
/// restart: the whitelist that runs becomes the one that the configurations kept since
/// give. (The configuration of a known Guard replaces the one before; see
/// [`push_lets_in_whom_a_restart_would`].)
pub proof fn pushed_configuration_needs_no_restart(
    configs: Seq<ConfigNodeGuard>,
    config: ConfigNodeGuard,
)
    requires
        forall|i: int| 0 <= i < configs.len() ==> (#[trigger] configs[i]).uuid@ != config.uuid@,
    ensures
        live_after_push(
            crate::gateway::roles::whitelist_of(configs),
            config,
            configs.push(config),
        ) == crate::gateway::roles::whitelist_of(configs.push(config)),
{
    let stored = configs.push(config);
    let live = crate::gateway::roles::whitelist_of(configs);
    let guards = crate::gateway::roles::guards_of(stored);
    let roles = crate::gateway::roles::pushed_roles(config, guards);
    let all = crate::gateway::roles::and_guard(
        guards,
        crate::gateway::roles::named_peer(config.uuid@),
    );
    assert(stored[configs.len() as int] == config);
    let after = live_after_push(live, config, stored);
    let rebuilt = crate::gateway::roles::whitelist_of(stored);
    assert forall|p: Seq<u8>| #![trigger after.contains_key(p)]
        (after.contains_key(p) <==> rebuilt.contains_key(p)) && (after.contains_key(p) ==> after[p]
            == rebuilt[p]) by {
        lemma_pushed_roles(config, guards, p);
        lemma_with_roles(live, roles, all, p);
        lemma_stored_row(configs, stored, configs.len() as int, p);
    }
    assert(after =~= rebuilt);
}

/// Whatever configuration is pushed, the whitelist that runs lets in at once whom a restart
/// would, with the same roles. `n` is the row that the configuration of its Guard takes
/// among those kept. A peer that the configuration no longer authorises stays until a
/// restart.
pub proof fn push_lets_in_whom_a_restart_would(
    configs: Seq<ConfigNodeGuard>,
    config: ConfigNodeGuard,
    n: int,
    peer: Seq<u8>,
)
    requires
        0 <= n < configs.len(),
        configs[n].uuid@ == config.uuid@,
        crate::gateway::roles::whitelist_of(configs.update(n, config)).contains_key(peer),
    ensures
        ({
            let live = live_after_push(
                crate::gateway::roles::whitelist_of(configs),
                config,
                configs.update(n, config),
            );
            live.contains_key(peer) && live[peer] == crate::gateway::roles::whitelist_of(
                configs.update(n, config),
            )[peer]
        }),
{
    let stored = configs.update(n, config);
    let guards = crate::gateway::roles::guards_of(stored);
    let roles = crate::gateway::roles::pushed_roles(config, guards);
    let all = crate::gateway::roles::and_guard(
        guards,
        crate::gateway::roles::named_peer(config.uuid@),
    );
    lemma_pushed_roles(config, guards, peer);
    lemma_with_roles(crate::gateway::roles::whitelist_of(configs), roles, all, peer);
    lemma_stored_row(configs, stored, n, peer);
}

/// Once a configuration is applied, every peer that its Guard authorises is in the
/// whitelist of the gateway and may use the service of the Clients, whatever the
/// whitelist held before of any but the Guards.
pub proof fn authorised_peers_are_let_in(
    live: Map<Seq<u8>, Seq<Seq<char>>>,
    config: ConfigNodeGuard,
    stored: Seq<ConfigNodeGuard>,
    i: int,
)
    requires
        0 <= i < config.allow@.len(),
        crate::peer::peer_id_of_text(config.allow@[i].peer@) is Ok,
        forall|guard: Seq<u8>| #[trigger]
            crate::gateway::roles::is_guard(stored, guard) ==> live.contains_key(guard)
                && live[guard] == crate::gateway::roles::guard_roles(),
    ensures
        ({
            let after = live_after_push(live, config, stored);
            let peer = crate::peer::peer_id_of_text(config.allow@[i].peer@)->Ok_0;
            after.contains_key(peer) && after[peer].contains("gw-client"@)
        }),
{
    let guards = crate::gateway::roles::guards_of(stored);
    let roles = crate::gateway::roles::pushed_roles(config, guards);
    let all = crate::gateway::roles::and_guard(
        guards,
        crate::gateway::roles::named_peer(config.uuid@),
    );
    let peer = crate::peer::peer_id_of_text(config.allow@[i].peer@)->Ok_0;
    assert(crate::gateway::roles::named_peer(config.allow@[i].peer@) == Some(peer));
    assert(crate::gateway::roles::lists(config.allow@, peer));
    lemma_pushed_roles(config, guards, peer);
    lemma_with_roles(live, roles, all, peer);
    assert(crate::gateway::roles::client_roles()[0] == "gw-client"@);
    assert(crate::gateway::roles::guard_roles()[1] == "gw-client"@);
}

/// The refusal of a list is that of its first invalid entry, wherever it stands, and there is
/// one if and only if an entry is invalid.
proof fn lemma_exempt_refusal(exempt: Seq<String>, valid: Seq<bool>)
    requires
        exempt.len() == valid.len(),
    ensures
        crate::gateway::handlers::exempt_refusal(exempt, valid) is None <==> forall|i: int|
            0 <= i < valid.len() ==> #[trigger] valid[i],
        forall|i: int|
            0 <= i < valid.len() && !(#[trigger] valid[i]) && (forall|j: int|
                0 <= j < i ==> #[trigger] valid[j]) ==> crate::gateway::handlers::exempt_refusal(
                exempt,
                valid,
            ) == Some("rate_limit.exempt"@ + " `"@ + exempt[i]@ + "` invalide"@),
    decreases exempt.len(),
{
    if exempt.len() > 0 {
        let (e, v) = (exempt.drop_last(), valid.drop_last());
        lemma_exempt_refusal(e, v);
        let n = exempt.len() - 1;
        assert(valid.last() == valid[n] && exempt.last() == exempt[n]);
        assert forall|i: int| 0 <= i < n implies v[i] == #[trigger] valid[i] && e[i] == exempt[i] by {}
        if forall|i: int| 0 <= i < valid.len() ==> #[trigger] valid[i] {
            assert(valid[n]);
            assert forall|i: int| 0 <= i < v.len() implies #[trigger] v[i] by {
                assert(valid[i]);
            }
        }
        assert forall|i: int|
            0 <= i < valid.len() && !(#[trigger] valid[i]) && (forall|j: int|
                0 <= j < i ==> #[trigger] valid[j]) implies crate::gateway::handlers::exempt_refusal(
            exempt,
            valid,
        ) == Some("rate_limit.exempt"@ + " `"@ + exempt[i]@ + "` invalide"@) by {
            if i < n {
                assert(!v[i]);
                assert forall|j: int| 0 <= j < i implies #[trigger] v[j] by {
                    assert(valid[j]);
                }
            } else {
                assert forall|j: int| 0 <= j < v.len() implies #[trigger] v[j] by {
                    assert(valid[j]);
                }
            }
        }
        if crate::gateway::handlers::exempt_refusal(exempt, valid) is None {
            assert forall|i: int| 0 <= i < valid.len() implies #[trigger] valid[i] by {
                if i < n {
                    assert(v[i]);
                }
            }
        }
    }
}

proof fn lemma_allow_refusal(allow: Seq<Allow>, valid: Seq<bool>)
    requires
        allow.len() == valid.len(),
    ensures
        crate::gateway::handlers::allow_refusal(allow, valid) is None <==> forall|i: int|
            0 <= i < valid.len() ==> #[trigger] valid[i],
        forall|i: int|
            0 <= i < valid.len() && !(#[trigger] valid[i]) && (forall|j: int|
                0 <= j < i ==> #[trigger] valid[j]) ==> crate::gateway::handlers::allow_refusal(
                allow,
                valid,
            ) == Some("allow.peer"@ + " `"@ + allow[i].peer@ + "` invalide"@),
    decreases allow.len(),
{
    if allow.len() > 0 {
        let (e, v) = (allow.drop_last(), valid.drop_last());
        lemma_allow_refusal(e, v);
        let n = allow.len() - 1;
        assert(valid.last() == valid[n] && allow.last() == allow[n]);
        assert forall|i: int| 0 <= i < n implies v[i] == #[trigger] valid[i] && e[i] == allow[i] by {}
        if forall|i: int| 0 <= i < valid.len() ==> #[trigger] valid[i] {
            assert(valid[n]);
            assert forall|i: int| 0 <= i < v.len() implies #[trigger] v[i] by {
                assert(valid[i]);
            }
        }
        assert forall|i: int|
            0 <= i < valid.len() && !(#[trigger] valid[i]) && (forall|j: int|
                0 <= j < i ==> #[trigger] valid[j]) implies crate::gateway::handlers::allow_refusal(
            allow,
            valid,
        ) == Some("allow.peer"@ + " `"@ + allow[i].peer@ + "` invalide"@) by {
            if i < n {
                assert(!v[i]);
                assert forall|j: int| 0 <= j < i implies #[trigger] v[j] by {
                    assert(valid[j]);
                }
            } else {
                assert forall|j: int| 0 <= j < v.len() implies #[trigger] v[j] by {
                    assert(valid[j]);
                }
            }
        }
        if crate::gateway::handlers::allow_refusal(allow, valid) is None {
            assert forall|i: int| 0 <= i < valid.len() implies #[trigger] valid[i] by {
                if i < n {
                    assert(v[i]);
                }
            }
        }
    }
}

/// Whether a text, blanks around it aside, is 32 bytes in hexadecimal.
pub open spec fn is_fingerprint(text: Seq<char>) -> bool {
    crate::identity::is_hex(crate::text::trimmed(text)) && crate::text::trimmed(text).len() == 64
}

proof fn lemma_checksum_refusal(sums: Seq<CheckSum>, valid: Seq<bool>)
    requires
        sums.len() == valid.len(),
    ensures
        crate::gateway::handlers::checksum_refusal(sums, valid) is None <==> forall|i: int|
            0 <= i < valid.len() ==> #[trigger] valid[i] && is_fingerprint(sums[i].sha256@),
    decreases sums.len(),
{
    if sums.len() > 0 {
        let (e, v) = (sums.drop_last(), valid.drop_last());
        lemma_checksum_refusal(e, v);
        let n = sums.len() - 1;
        crate::identity::hex_is_read_by_pairs(crate::text::trimmed(sums[n].sha256@));
        assert(valid.last() == valid[n] && sums.last() == sums[n]);
        assert forall|i: int| 0 <= i < n implies v[i] == #[trigger] valid[i] && e[i] == sums[i] by {}
        if forall|i: int|
            0 <= i < valid.len() ==> #[trigger] valid[i] && is_fingerprint(sums[i].sha256@) {
            assert(valid[n]);
            assert forall|i: int| 0 <= i < v.len() implies #[trigger] v[i] && is_fingerprint(
                e[i].sha256@,
            ) by {
                assert(valid[i]);
            }
        }
        if crate::gateway::handlers::checksum_refusal(sums, valid) is None {
            assert forall|i: int| 0 <= i < valid.len() implies #[trigger] valid[i]
                && is_fingerprint(sums[i].sha256@) by {
                if i < n {
                    assert(v[i]);
                }
            }
        }
    }
}

/// A configuration is accepted if and only if its window is not zero, each of its exempt
/// entries is an IP address, each of its peers a peer id, and each fingerprint 32 bytes in
/// hexadecimal.
pub proof fn input_is_accepted_exactly_if_it_is_valid(
    input: ConfigNodeGuardInput,
    exempt_valid: Seq<bool>,
)
    requires
        exempt_valid.len() == input.rate_limit.exempt@.len(),
    ensures
        crate::gateway::handlers::input_refusal(input, exempt_valid) is None <==> {
            &&& input.rate_limit.window_secs > 0
            &&& forall|i: int| 0 <= i < exempt_valid.len() ==> #[trigger] exempt_valid[i]
            &&& forall|i: int|
                0 <= i < input.allow@.len() ==> crate::peer::peer_id_of_text(
                    (#[trigger] input.allow@[i]).peer@,
                ) is Ok
            &&& forall|i: int|
                0 <= i < input.check_sum@.len() ==> crate::peer::peer_id_of_text(
                    (#[trigger] input.check_sum@[i]).peer@,
                ) is Ok && is_fingerprint(input.check_sum@[i].sha256@)
        },
{
    let allow_valid = crate::gateway::handlers::valid_allow(input.allow@);
    let sum_valid = crate::gateway::handlers::valid_sums(input.check_sum@);
    lemma_exempt_refusal(input.rate_limit.exempt@, exempt_valid);
    lemma_allow_refusal(input.allow@, allow_valid);
    lemma_checksum_refusal(input.check_sum@, sum_valid);
    assert forall|i: int| 0 <= i < input.allow@.len() implies allow_valid[i] == (
    crate::peer::peer_id_of_text((#[trigger] input.allow@[i]).peer@) is Ok) by {}
    assert forall|i: int| 0 <= i < input.check_sum@.len() implies sum_valid[i] == (
    crate::peer::peer_id_of_text((#[trigger] input.check_sum@[i]).peer@) is Ok) by {}
    if forall|i: int| 0 <= i < allow_valid.len() ==> #[trigger] allow_valid[i] {
        assert forall|i: int| 0 <= i < input.allow@.len() implies crate::peer::peer_id_of_text(
            (#[trigger] input.allow@[i]).peer@,
        ) is Ok by {
            assert(allow_valid[i]);
        }
    } else {
        let i = choose|i: int| 0 <= i < allow_valid.len() && !(#[trigger] allow_valid[i]);
        assert(crate::peer::peer_id_of_text(input.allow@[i].peer@) is Err);
    }
    if forall|i: int|
        0 <= i < sum_valid.len() ==> #[trigger] sum_valid[i] && is_fingerprint(
            input.check_sum@[i].sha256@,
        ) {
        assert forall|i: int|
            0 <= i < input.check_sum@.len() implies crate::peer::peer_id_of_text(
            (#[trigger] input.check_sum@[i]).peer@,
        ) is Ok && is_fingerprint(input.check_sum@[i].sha256@) by {
            assert(sum_valid[i]);
        }
    } else {
        let i = choose|i: int|
            0 <= i < sum_valid.len() && !(#[trigger] sum_valid[i] && is_fingerprint(
                input.check_sum@[i].sha256@,
            ));
        assert(!(crate::peer::peer_id_of_text(input.check_sum@[i].peer@) is Ok && is_fingerprint(
            input.check_sum@[i].sha256@,
        )));
    }
}

/// A configuration that is refused for an exempt entry, or else for a peer, is refused with the
/// first such entry.
pub proof fn refusal_names_the_first_bad_entry(
    input: ConfigNodeGuardInput,
    exempt_valid: Seq<bool>,
    i: int,
)
    requires
        exempt_valid.len() == input.rate_limit.exempt@.len(),
        input.rate_limit.window_secs > 0,
    ensures
        0 <= i < exempt_valid.len() && !exempt_valid[i] && (forall|j: int|
            0 <= j < i ==> #[trigger] exempt_valid[j]) ==> crate::gateway::handlers::input_refusal(
            input,
            exempt_valid,
        ) == Some("rate_limit.exempt"@ + " `"@ + input.rate_limit.exempt@[i]@ + "` invalide"@),
        (forall|j: int| 0 <= j < exempt_valid.len() ==> #[trigger] exempt_valid[j]) && 0 <= i
            < input.allow@.len() && crate::peer::peer_id_of_text(input.allow@[i].peer@) is Err && (
        forall|j: int|
            0 <= j < i ==> crate::peer::peer_id_of_text((#[trigger] input.allow@[j]).peer@) is Ok)
            ==> crate::gateway::handlers::input_refusal(input, exempt_valid) == Some(
            "allow.peer"@ + " `"@ + input.allow@[i].peer@ + "` invalide"@,
        ),
{
    let allow_valid = crate::gateway::handlers::valid_allow(input.allow@);
    lemma_exempt_refusal(input.rate_limit.exempt@, exempt_valid);
    lemma_allow_refusal(input.allow@, allow_valid);
    if 0 <= i < input.allow@.len() && crate::peer::peer_id_of_text(input.allow@[i].peer@) is Err && (
    forall|j: int|
        0 <= j < i ==> crate::peer::peer_id_of_text((#[trigger] input.allow@[j]).peer@) is Ok) {
        assert(!allow_valid[i]);
        assert forall|j: int| 0 <= j < i implies #[trigger] allow_valid[j] by {
            assert(crate::peer::peer_id_of_text(input.allow@[j].peer@) is Ok);
        }
    }
}

/// The state of a node is changed for a peer id, to one of the four states, by a gateway with a
/// token, and in no other case; the call names that peer and carries that token.
pub proof fn node_state_is_set_exactly_if_allowed(
    peer_id: Seq<char>,
    valid: bool,
    state: Seq<char>,
    token: Option<&str>,
    r: core::result::Result<(String, &str), AppError>,
)
    requires
        crate::gateway::handlers::node_state_decided(peer_id, valid, state, token, r),
    ensures
        r is Ok <==> valid && (state == "active"@ || state == "inactive"@ || state == "relay"@
            || state == "suspended"@) && token is Some,
        r matches Ok((path, t)) ==> path@ == "/api/v1/private/nodes/"@ + peer_id + "/state"@
            && token == Some(t),
        r matches Err(e) ==> (e is DashboardNotConfigured <==> valid && (state == "active"@ || state
            == "inactive"@ || state == "relay"@ || state == "suspended"@)),
        r matches Err(e) ==> e is DashboardNotConfigured || e is BadRequest,
{
}

proof fn lemma_without_slashes(s: Seq<char>)
    ensures
        crate::gateway::config::without_slashes(s).len() <= s.len(),
        crate::gateway::config::without_slashes(s) == s.take(
            crate::gateway::config::without_slashes(s).len() as int,
        ),
        crate::gateway::config::without_slashes(s).len() > 0
            ==> crate::gateway::config::without_slashes(s).last() != '/',
        forall|i: int|
            crate::gateway::config::without_slashes(s).len() <= i < s.len() ==> #[trigger] s[i]
                == '/',
    decreases s.len(),
{
    if s.len() > 0 && s.last() == '/' {
        lemma_without_slashes(s.drop_last());
        let kept = crate::gateway::config::without_slashes(s.drop_last());
        assert(s.drop_last().take(kept.len() as int) =~= s.take(kept.len() as int));
        assert forall|i: int| kept.len() <= i < s.len() implies #[trigger] s[i] == '/' by {
            if i < s.len() - 1 {
                assert(s.drop_last()[i] == s[i]);
            }
        }
    } else {
        assert(s.take(s.len() as int) =~= s);
    }
}

/// What is cut from the address of the dashboard is the slashes at its end, all of them and
/// nothing else.
pub proof fn only_final_slashes_are_cut(base: Seq<char>, slashes: Seq<char>)
    requires
        forall|i: int| 0 <= i < slashes.len() ==> #[trigger] slashes[i] == '/',
        base.len() == 0 || base.last() != '/',
    ensures
        crate::gateway::config::without_slashes(base + slashes) == base,
{
    let s = base + slashes;
    lemma_without_slashes(s);
    let kept = crate::gateway::config::without_slashes(s);
    if kept.len() < base.len() {
        assert(s[base.len() - 1] == '/');
    }
    if kept.len() > base.len() {
        assert(kept.last() == slashes[kept.len() - 1 - base.len()]);
    }
    assert(kept =~= base);
}

/// An environment that is accepted is taken as it is: each setting is the variable, or its
/// default without one.
pub proof fn accepted_environment_is_taken_as_it_is(env: Environment, c: ConfigModel)
    requires
        crate::gateway::config::resolved(env) == Ok::<ConfigModel, Seq<char>>(c),
    ensures
        env.admin_addr == Ok::<SocketAddr, String>(c.admin_addr),
        crate::addr::multiaddr_of_text(
            match env.listen {
                Some(text) => text@,
                None => "/ip4/0.0.0.0/tcp/4589"@,
            },
        ) == Ok::<Seq<u8>, Seq<char>>(c.listen),
        env.database_url is Some && env.database_url->0@ == c.database_url,
        env.api_url is Some && crate::gateway::config::without_slashes(env.api_url->0@)
            == c.dashboard_base_url,
        env.admin_token is Some && env.admin_token->0@ == c.admin_token && c.admin_token.len()
            >= 16,
        c.guard_port == crate::text::digits_value(
            crate::text::digits_of(
                match env.guard_port {
                    Some(text) => text@,
                    None => "8089"@,
                },
            ),
        ),
        c.client_port == crate::text::digits_value(
            crate::text::digits_of(
                match env.client_port {
                    Some(text) => text@,
                    None => "8090"@,
                },
            ),
        ),
        c.guard_port != c.client_port,
        match env.identity_file {
            Some(path) => c.identity_file == if crate::text::trimmed(path@).len() > 0 {
                Some(path@)
            } else {
                None
            },
            None => c.identity_file is None,
        },
        match env.dashboard_token {
            Some(token) => c.dashboard_token == if crate::text::trimmed(token@).len() > 0 {
                Some(token@)
            } else {
                None
            },
            None => c.dashboard_token is None,
        },
{
}

/// An environment is accepted if and only if its addresses and ports can be read, the ports
/// differ, the database, the dashboard and the token are set, and the token has at least 16
/// characters.
pub proof fn environment_is_accepted_exactly_if_it_is_valid(env: Environment)
    ensures
        ({
            let guard = match env.guard_port {
                Some(text) => text@,
                None => "8089"@,
            };
            let client = match env.client_port {
                Some(text) => text@,
                None => "8090"@,
            };
            crate::gateway::config::resolved(env) is Ok <==> {
                &&& env.admin_addr is Ok
                &&& crate::addr::multiaddr_of_text(
                    match env.listen {
                        Some(text) => text@,
                        None => "/ip4/0.0.0.0/tcp/4589"@,
                    },
                ) is Ok
                &&& crate::text::is_unsigned_upto(guard, 65535)
                &&& crate::text::is_unsigned_upto(client, 65535)
                &&& crate::text::digits_value(crate::text::digits_of(guard))
                    != crate::text::digits_value(crate::text::digits_of(client))
                &&& env.database_url is Some
                &&& env.api_url is Some
                &&& env.admin_token matches Some(token) && token@.len() >= 16
            }
        }),
{
}

/// The roles of the authorised peers are given one entry after the other: one role, that of a
/// Client, for each entry that is a peer, and none for the others.
pub proof fn authorised_peers_get_their_role_in_order(
    first: Seq<Option<Seq<u8>>>,
    second: Seq<Option<Seq<u8>>>,
    peer: Seq<u8>,
)
    ensures
        crate::gateway::roles::allowed_roles(first + second)
            == crate::gateway::roles::allowed_roles(first) + crate::gateway::roles::allowed_roles(
            second,
        ),
        crate::gateway::roles::allowed_roles(seq![Some(peer)]) == seq![(peer, seq!["gw-client"@])],
        crate::gateway::roles::allowed_roles(seq![None::<Seq<u8>>]).len() == 0,
        crate::gateway::roles::allowed_roles(Seq::<Option<Seq<u8>>>::empty()).len() == 0,
    decreases second.len(),
{
    let one = seq![Some(peer)];
    assert(one.drop_last() =~= Seq::empty());
    assert(crate::gateway::roles::allowed_roles(one.drop_last()) =~= Seq::empty());
    assert(crate::gateway::roles::allowed_roles(one) =~= seq![(peer, seq!["gw-client"@])]);
    let none = seq![None::<Seq<u8>>];
    assert(none.drop_last() =~= Seq::empty());
    assert(crate::gateway::roles::allowed_roles(none.drop_last()) =~= Seq::empty());
    let all = first + second;
    if second.len() > 0 {
        let front = second.drop_last();
        authorised_peers_get_their_role_in_order(first, front, peer);
        assert(all.drop_last() =~= first + front);
        assert(all.last() == second.last());
        assert(crate::gateway::roles::allowed_roles(all) =~= crate::gateway::roles::allowed_roles(
            first,
        ) + crate::gateway::roles::allowed_roles(second));
    } else {
        assert(all =~= first);
        assert(crate::gateway::roles::allowed_roles(all) =~= crate::gateway::roles::allowed_roles(
            first,
        ) + crate::gateway::roles::allowed_roles(second));
    }
}

/// A configuration gives its Guard both roles, first of all, and then each peer it authorises,
/// in order, the role of a Client.
pub proof fn configuration_gives_its_roles(config: ConfigNodeGuard)
    requires
        crate::peer::peer_id_of_text(config.uuid@) is Ok,
        forall|i: int|
            0 <= i < config.allow@.len() ==> crate::peer::peer_id_of_text(
                (#[trigger] config.allow@[i]).peer@,
            ) is Ok,
    ensures
        ({
            let roles = crate::gateway::roles::config_roles(config);
            &&& roles.len() == 1 + config.allow@.len()
            &&& roles[0].0 == crate::peer::peer_id_of_text(config.uuid@)->Ok_0
            &&& roles[0].1 == seq!["gw-guard"@, "gw-client"@]
            &&& forall|i: int|
                0 <= i < config.allow@.len() ==> (#[trigger] roles[i + 1]).0
                    == crate::peer::peer_id_of_text(config.allow@[i].peer@)->Ok_0 && roles[i + 1].1
                    == seq!["gw-client"@]
        }),
{
    let named = crate::gateway::roles::named_peers(config.allow@);
    assert forall|i: int| 0 <= i < named.len() implies (#[trigger] named[i]) is Some by {
        assert(crate::peer::peer_id_of_text(config.allow@[i].peer@) is Ok);
    }
    lemma_all_named(named);
    let roles = crate::gateway::roles::config_roles(config);
    let rest = crate::gateway::roles::allowed_roles(named);
    assert forall|i: int| 0 <= i < config.allow@.len() implies (#[trigger] roles[i + 1]).0
        == crate::peer::peer_id_of_text(config.allow@[i].peer@)->Ok_0 && roles[i + 1].1
        == seq!["gw-client"@] by {
        assert(roles[i + 1] == rest[i]);
        assert(named[i] is Some);
    }
    assert(roles[0].1 =~= seq!["gw-guard"@, "gw-client"@]);
}

proof fn lemma_all_named(named: Seq<Option<Seq<u8>>>)
    requires
        forall|i: int| 0 <= i < named.len() ==> (#[trigger] named[i]) is Some,
    ensures
        crate::gateway::roles::allowed_roles(named).len() == named.len(),
        forall|i: int|
            0 <= i < named.len() ==> (#[trigger] crate::gateway::roles::allowed_roles(named)[i])
                == (named[i]->0, seq!["gw-client"@]),
    decreases named.len(),
{
    if named.len() > 0 {
        let front = named.drop_last();
        assert forall|i: int| 0 <= i < front.len() implies (#[trigger] front[i]) is Some by {
            assert(named[i] is Some);
        }
        lemma_all_named(front);
        let n = named.len() - 1;
        assert(named[n] is Some);
        let all = crate::gateway::roles::allowed_roles(named);
        assert forall|i: int| 0 <= i < named.len() implies (#[trigger] all[i]) == (
            named[i]->0,
            seq!["gw-client"@],
        ) by {
            if i < n {
                assert(all[i] == crate::gateway::roles::allowed_roles(front)[i]);
            }
            assert(crate::gateway::roles::client_roles() =~= seq!["gw-client"@]);
        }
    }
}

/// The whitelist that a restart rebuilds holds the Guards and the peers they authorise, and
/// nobody else: a Guard with both roles, any other peer with that of a Client.
pub proof fn rebuilt_whitelist_holds_guards_and_clients(
    configs: Seq<ConfigNodeGuard>,
    peer: Seq<u8>,
)
    ensures
        ({
            let list = crate::gateway::roles::whitelist_of(configs);
            let guard = exists|i: int|
                0 <= i < configs.len() && crate::peer::peer_id_of_text((#[trigger] configs[i]).uuid@)
                    == Ok::<Seq<u8>, Seq<char>>(peer);
            let client = exists|i: int, j: int|
                0 <= i < configs.len() && 0 <= j < configs[i].allow@.len()
                    && crate::peer::peer_id_of_text((#[trigger] configs[i].allow@[j]).peer@)
                    == Ok::<Seq<u8>, Seq<char>>(peer);
            &&& list.contains_key(peer) <==> guard || client
            &&& guard ==> list[peer] == seq!["gw-guard"@, "gw-client"@]
            &&& client && !guard ==> list[peer] == seq!["gw-client"@]
        }),
{
    let is_guard = crate::gateway::roles::is_guard(configs, peer);
    let is_client = crate::gateway::roles::is_client(configs, peer);
    if is_guard {
        let i = choose|i: int|
            0 <= i < configs.len() && crate::gateway::roles::named_peer(
                (#[trigger] configs[i]).uuid@,
            ) == Some(peer);
        assert(crate::peer::peer_id_of_text(configs[i].uuid@) == Ok::<Seq<u8>, Seq<char>>(peer));
    }
    if exists|i: int|
        0 <= i < configs.len() && crate::peer::peer_id_of_text((#[trigger] configs[i]).uuid@)
            == Ok::<Seq<u8>, Seq<char>>(peer) {
        let i = choose|i: int|
            0 <= i < configs.len() && crate::peer::peer_id_of_text((#[trigger] configs[i]).uuid@)
                == Ok::<Seq<u8>, Seq<char>>(peer);
        assert(crate::gateway::roles::named_peer(configs[i].uuid@) == Some(peer));
    }
    if is_client {
        let i = choose|i: int|
            0 <= i < configs.len() && crate::gateway::roles::lists(
                (#[trigger] configs[i]).allow@,
                peer,
            );
        let j = choose|j: int|
            0 <= j < configs[i].allow@.len() && crate::gateway::roles::named_peer(
                (#[trigger] configs[i].allow@[j]).peer@,
            ) == Some(peer);
        assert(crate::peer::peer_id_of_text(configs[i].allow@[j].peer@) == Ok::<
            Seq<u8>,
            Seq<char>,
        >(peer));
    }
    if exists|i: int, j: int|
        0 <= i < configs.len() && 0 <= j < configs[i].allow@.len() && crate::peer::peer_id_of_text(
            (#[trigger] configs[i].allow@[j]).peer@,
        ) == Ok::<Seq<u8>, Seq<char>>(peer) {
        let (i, j) = choose|i: int, j: int|
            0 <= i < configs.len() && 0 <= j < configs[i].allow@.len()
                && crate::peer::peer_id_of_text((#[trigger] configs[i].allow@[j]).peer@) == Ok::<
                Seq<u8>,
                Seq<char>,
            >(peer);
        assert(crate::gateway::roles::named_peer(configs[i].allow@[j].peer@) == Some(peer));
        assert(crate::gateway::roles::lists(configs[i].allow@, peer));
    }
    assert(crate::gateway::roles::guard_roles() =~= seq!["gw-guard"@, "gw-client"@]);
    assert(crate::gateway::roles::client_roles() =~= seq!["gw-client"@]);
}

/// A push concerns its Guard and the peers it authorises: whoever is neither keeps what the
/// whitelist held of them.
pub proof fn push_leaves_the_others_alone(
    live: Map<Seq<u8>, Seq<Seq<char>>>,
    config: ConfigNodeGuard,
    stored: Seq<ConfigNodeGuard>,
    peer: Seq<u8>,
)
    requires
        crate::peer::peer_id_of_text(config.uuid@) != Ok::<Seq<u8>, Seq<char>>(peer),
        forall|i: int|
            0 <= i < config.allow@.len() ==> crate::peer::peer_id_of_text(
                (#[trigger] config.allow@[i]).peer@,
            ) != Ok::<Seq<u8>, Seq<char>>(peer),
    ensures
        live_after_push(live, config, stored).contains_key(peer) == live.contains_key(peer),
        live.contains_key(peer) ==> live_after_push(live, config, stored)[peer] == live[peer],
{
    let guards = crate::gateway::roles::guards_of(stored);
    let roles = crate::gateway::roles::pushed_roles(config, guards);
    let all = crate::gateway::roles::and_guard(
        guards,
        crate::gateway::roles::named_peer(config.uuid@),
    );
    assert(!crate::gateway::roles::lists(config.allow@, peer));
    lemma_pushed_roles(config, guards, peer);
    lemma_with_roles(live, roles, all, peer);
    lemma_untouched(live, roles, peer);
}

proof fn lemma_untouched(
    list: Map<Seq<u8>, Seq<Seq<char>>>,
    roles: Seq<(Seq<u8>, Seq<Seq<char>>)>,
    peer: Seq<u8>,
)
    requires
        forall|k: int| 0 <= k < roles.len() ==> (#[trigger] roles[k]).0 != peer,
    ensures
        crate::gateway::roles::with_roles(list, roles).contains_key(peer) == list.contains_key(
            peer,
        ),
        list.contains_key(peer) ==> crate::gateway::roles::with_roles(list, roles)[peer]
            == list[peer],
    decreases roles.len(),
{
    if roles.len() > 0 {
        let front = roles.drop_last();
        assert forall|k: int| 0 <= k < front.len() implies (#[trigger] front[k]).0 != peer by {
            assert(front[k] == roles[k]);
        }
        lemma_untouched(list, front, peer);
        assert(roles.last() == roles[roles.len() - 1]);
    }
}

/// A window lasts its number of seconds from its first request on; then a new one starts, in
/// which requests are admitted again. Every request counts, admitted or not.
pub proof fn window_starts_again(m: WindowModel, now: u64)
    ensures
        now - m.window_start >= m.window_secs ==> {
            &&& m.admits(now) == (m.max_per_window > 0)
            &&& m.after(now).window_start == now
            &&& m.after(now).count == 1
        },
        now - m.window_start < m.window_secs && now >= m.window_start ==> {
            &&& m.admits(now) == (m.count < m.max_per_window)
            &&& m.after(now).window_start == m.window_start
            &&& m.count < u32::MAX ==> m.after(now).count == m.count + 1
        },
        m.after(now).max_per_window == m.max_per_window,
        m.after(now).window_secs == m.window_secs,
        120 == crate::gateway::rate_limit::SENSITIVE_ROUTE_MAX_PER_WINDOW,
        60 == crate::gateway::rate_limit::SENSITIVE_ROUTE_WINDOW_SECS,
{
}

/// What the caller did wrong is answered by a status of the caller, what the gateway or the
/// dashboard lacks by one of the server, each with its own meaning.
pub proof fn statuses_tell_who_is_at_fault(e: AppError)
    ensures
        400 <= crate::gateway::error::status_of(e) < 500 <==> e is Unauthorized || e is NotFound
            || e is BadRequest || e is RateLimited,
        500 <= crate::gateway::error::status_of(e) < 600 <==> e is DashboardNotConfigured
            || e is DashboardUnreachable || e is Internal,
        crate::gateway::error::status_of(e) == 401 <==> e is Unauthorized,
        crate::gateway::error::status_of(e) == 404 <==> e is NotFound,
        crate::gateway::error::status_of(e) == 400 <==> e is BadRequest,
        crate::gateway::error::status_of(e) == 429 <==> e is RateLimited,
        crate::gateway::error::status_of(e) == 500 <==> e is Internal,
        crate::gateway::error::status_of(e) == 503 <==> e is DashboardNotConfigured
            || e is DashboardUnreachable,
        e matches AppError::BadRequest(m) ==> crate::gateway::error::message_of(e) == m@,
{
}

/// Contents of lists of peers and of roles are those of all their items, in order, and the content
/// of a configuration is its fields.
pub proof fn gateway_values_are_taken_as_they_are(
    roles: Seq<(crate::peer::PeerId, Vec<String>)>,
    peers: Seq<Option<crate::peer::PeerId>>,
    allow: Seq<Allow>,
    config: crate::gateway::config::Config,
    i: int,
)
    ensures
        crate::gateway::roles::role_models(roles).len() == roles.len(),
        0 <= i < roles.len() ==> crate::gateway::roles::role_models(roles)[i] == (
            roles[i].0@,
            crate::protocol::texts(roles[i].1@),
        ),
        crate::gateway::roles::peer_models(peers).len() == peers.len(),
        0 <= i < peers.len() ==> crate::gateway::roles::peer_models(peers)[i] == (match peers[i] {
            Some(p) => Some(p@),
            None => None,
        }),
        crate::gateway::roles::named_peers(allow).len() == allow.len(),
        0 <= i < allow.len() ==> (match crate::peer::peer_id_of_text(allow[i].peer@) {
            Ok(peer) => crate::gateway::roles::named_peers(allow)[i] == Some(peer),
            Err(_) => crate::gateway::roles::named_peers(allow)[i] is None,
        }),
        config@.admin_addr == config.admin_addr,
        config@.listen == config.listen@,
        config@.guard_port == config.guard_port,
        config@.client_port == config.client_port,
        config@.database_url == config.database_url@,
        config@.dashboard_base_url == config.dashboard_base_url@,
        config@.admin_token == config.admin_token@,
        match config.identity_file {
            Some(path) => config@.identity_file == Some(path@),
            None => config@.identity_file is None,
        },
        match config.dashboard_token {
            Some(token) => config@.dashboard_token == Some(token@),
            None => config@.dashboard_token is None,
        },
{
}

/// A push gives its Guard both roles, whatever it had, and a peer it authorises that is no Guard
/// that of a Client.
pub proof fn push_gives_the_roles_of_its_configuration(
    live: Map<Seq<u8>, Seq<Seq<char>>>,
    config: ConfigNodeGuard,
    stored: Seq<ConfigNodeGuard>,
    guard: Seq<u8>,
    i: int,
)
    requires
        crate::peer::peer_id_of_text(config.uuid@) == Ok::<Seq<u8>, Seq<char>>(guard),
    ensures
        ({
            let after = live_after_push(live, config, stored);
            &&& after.contains_key(guard)
            &&& after[guard] == seq!["gw-guard"@, "gw-client"@]
            &&& 0 <= i < config.allow@.len() && crate::peer::peer_id_of_text(
                config.allow@[i].peer@,
            ) is Ok ==> {
                let peer = crate::peer::peer_id_of_text(config.allow@[i].peer@)->Ok_0;
                peer != guard && !crate::gateway::roles::is_guard(stored, peer)
                    ==> after.contains_key(peer) && after[peer] == seq!["gw-client"@]
            }
        }),
{
    let guards = crate::gateway::roles::guards_of(stored);
    let roles = crate::gateway::roles::pushed_roles(config, guards);
    let all = crate::gateway::roles::and_guard(
        guards,
        crate::gateway::roles::named_peer(config.uuid@),
    );
    assert(crate::gateway::roles::named_peer(config.uuid@) == Some(guard));
    lemma_pushed_roles(config, guards, guard);
    lemma_with_roles(live, roles, all, guard);
    assert(crate::gateway::roles::guard_roles() =~= seq!["gw-guard"@, "gw-client"@]);
    assert(crate::gateway::roles::client_roles() =~= seq!["gw-client"@]);
    if 0 <= i < config.allow@.len() && crate::peer::peer_id_of_text(config.allow@[i].peer@) is Ok {
        let peer = crate::peer::peer_id_of_text(config.allow@[i].peer@)->Ok_0;
        assert(crate::gateway::roles::named_peer(config.allow@[i].peer@) == Some(peer));
        assert(crate::gateway::roles::lists(config.allow@, peer));
        lemma_pushed_roles(config, guards, peer);
        lemma_with_roles(live, roles, all, peer);
    }
}

/// An environment that is refused is refused for its first fault, and the refusal names the
/// variable.
pub proof fn refusal_of_an_environment_names_the_variable(env: Environment)
    ensures
        ({
            let r = crate::gateway::config::resolved(env);
            let listen = crate::addr::multiaddr_of_text(
                match env.listen {
                    Some(text) => text@,
                    None => "/ip4/0.0.0.0/tcp/4589"@,
                },
            );
            let guard = match env.guard_port {
                Some(text) => text@,
                None => "8089"@,
            };
            let client = match env.client_port {
                Some(text) => text@,
                None => "8090"@,
            };
            let read = env.admin_addr is Ok && listen is Ok;
            let ports = read && crate::text::is_unsigned_upto(guard, 65535)
                && crate::text::is_unsigned_upto(client, 65535);
            let differ = ports && crate::text::digits_value(crate::text::digits_of(guard))
                != crate::text::digits_value(crate::text::digits_of(client));
            &&& env.admin_addr matches Err(why) ==> r == Err::<ConfigModel, Seq<char>>(
                "NUX_GW_ADMIN_ADDR invalide: "@ + why@,
            )
            &&& env.admin_addr is Ok && listen is Err ==> r == Err::<ConfigModel, Seq<char>>(
                "NUX_GW_LISTEN invalide: "@ + listen->Err_0,
            )
            &&& read && !crate::text::is_unsigned_upto(guard, 65535) ==> r == Err::<
                ConfigModel,
                Seq<char>,
            >("NUX_GW_GUARD_PORT"@ + " invalide: "@ + crate::text::u16_error(guard))
            &&& read && crate::text::is_unsigned_upto(guard, 65535)
                && !crate::text::is_unsigned_upto(client, 65535) ==> r == Err::<
                ConfigModel,
                Seq<char>,
            >("NUX_GW_CLIENT_PORT"@ + " invalide: "@ + crate::text::u16_error(client))
            &&& ports && !differ ==> r == Err::<ConfigModel, Seq<char>>(
                "NUX_GW_GUARD_PORT et NUX_GW_CLIENT_PORT doivent différer"@,
            )
            &&& differ && env.database_url is None ==> r == Err::<ConfigModel, Seq<char>>(
                "DATABASE_URL doit être défini"@,
            )
            &&& differ && env.database_url is Some && env.api_url is None ==> r == Err::<
                ConfigModel,
                Seq<char>,
            >("NUX_GW_API_URL doit être défini"@)
            &&& differ && env.database_url is Some && env.api_url is Some && env.admin_token is None
                ==> r == Err::<ConfigModel, Seq<char>>(
                "NUX_GW_ADMIN_TOKEN"@ + " doit être défini"@,
            )
            &&& differ && env.database_url is Some && env.api_url is Some && (
            env.admin_token matches Some(token) && token@.len() < 16) ==> r == Err::<
                ConfigModel,
                Seq<char>,
            >("NUX_GW_ADMIN_TOKEN"@ + " doit faire au moins 16 caractères"@)
        }),
{
}

/// A fingerprint that is refused is refused for the first of its faults: its peer, its digits, or
/// their number.
pub proof fn refusal_of_a_fingerprint_names_its_fault(e: CheckSum, valid: bool)
    ensures
        ({
            let r = crate::gateway::handlers::checksum_refusal_of(e, valid);
            let text = crate::text::trimmed(e.sha256@);
            &&& !valid ==> r == Some("check_sum.peer"@ + " `"@ + e.peer@ + "` invalide"@)
            &&& valid && !crate::identity::is_hex(text) ==> r == Some(
                "check_sum.sha256"@ + " `"@ + e.sha256@ + "` invalide"@,
            )
            &&& valid && crate::identity::is_hex(text) && text.len() != 64 ==> r == Some(
                "check_sum.sha256"@ + " `"@ + e.sha256@ + "` doit faire 32 octets"@,
            )
            &&& valid && is_fingerprint(e.sha256@) ==> r is None
        }),
{
    crate::identity::hex_is_read_by_pairs(crate::text::trimmed(e.sha256@));
}

/// The first fingerprint that is refused is the one that the refusal of a list names.
pub proof fn refusal_of_fingerprints_is_that_of_the_first(
    sums: Seq<CheckSum>,
    valid: Seq<bool>,
    i: int,
)
    requires
        sums.len() == valid.len(),
        0 <= i < sums.len(),
        crate::gateway::handlers::checksum_refusal_of(sums[i], valid[i]) is Some,
        forall|j: int|
            0 <= j < i ==> crate::gateway::handlers::checksum_refusal_of(
                #[trigger] sums[j],
                valid[j],
            ) is None,
    ensures
        crate::gateway::handlers::checksum_refusal(sums, valid)
            == crate::gateway::handlers::checksum_refusal_of(sums[i], valid[i]),
    decreases sums.len(),
{
    let (e, v) = (sums.drop_last(), valid.drop_last());
    let n = sums.len() - 1;
    assert(sums.last() == sums[n] && valid.last() == valid[n]);
    assert forall|j: int| 0 <= j < n implies e[j] == sums[j] && v[j] == #[trigger] valid[j] by {}
    if i < n {
        assert forall|j: int| 0 <= j < i implies crate::gateway::handlers::checksum_refusal_of(
            #[trigger] e[j],
            v[j],
        ) is None by {
            assert(sums[j] == e[j]);
        }
        assert(v[i] == valid[i]);
        refusal_of_fingerprints_is_that_of_the_first(e, v, i);
    } else {
        lemma_no_refusal(e, v);
    }
}

proof fn lemma_no_refusal(sums: Seq<CheckSum>, valid: Seq<bool>)
    requires
        sums.len() == valid.len(),
        forall|j: int|
            0 <= j < sums.len() ==> crate::gateway::handlers::checksum_refusal_of(
                #[trigger] sums[j],
                valid[j],
            ) is None,
    ensures
        crate::gateway::handlers::checksum_refusal(sums, valid) is None,
    decreases sums.len(),
{
    if sums.len() > 0 {
        let (e, v) = (sums.drop_last(), valid.drop_last());
        let n = sums.len() - 1;
        assert forall|j: int| 0 <= j < e.len() implies crate::gateway::handlers::checksum_refusal_of(
            #[trigger] e[j],
            v[j],
        ) is None by {
            assert(sums[j] == e[j] && valid[j] == v[j]);
        }
        lemma_no_refusal(e, v);
        assert(crate::gateway::handlers::checksum_refusal_of(sums[n], valid[n]) is None);
    }
}

/// A refusal tells no more than its kind, but for an invalid request, which is told its fault.
pub proof fn refusals_tell_their_kind(m: String)
    ensures
        crate::gateway::error::message_of(AppError::Unauthorized) == "unauthorized"@,
        crate::gateway::error::message_of(AppError::NotFound) == "not found"@,
        crate::gateway::error::message_of(AppError::BadRequest(m)) == m@,
        crate::gateway::error::message_of(AppError::DashboardNotConfigured)
            == "dashboard non configuré (jeton manquant)"@,
        crate::gateway::error::message_of(AppError::DashboardUnreachable)
            == "dashboard control plane injoignable"@,
        crate::gateway::error::message_of(AppError::RateLimited) == "cadence dépassée"@,
        crate::gateway::error::message_of(AppError::Internal) == "erreur interne"@,
{
}

} // verus!
