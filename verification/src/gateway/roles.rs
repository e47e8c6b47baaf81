//! Roles in the tunnels of the gateway, derived from the configurations of the Guards.

use vstd::prelude::*;
use crate::auth::Whitelist;
use crate::gateway::models::{Allow, ConfigNodeGuard};
use crate::peer::PeerId;

verus! {

/// Role of a Guard itself.
pub const ROLE_GUARD: &'static str = "gw-guard";

/// Role of the peers that a Guard authorises.
pub const ROLE_CLIENT: &'static str = "gw-client";

/// The roles of a Guard.
pub open spec fn guard_roles() -> Seq<Seq<char>> {
    seq!["gw-guard"@, "gw-client"@]
}

/// The roles of a peer that a Guard authorises.
pub open spec fn client_roles() -> Seq<Seq<char>> {
    seq!["gw-client"@]
}

/// The peer that a text names, if it does.
pub open spec fn named_peer(text: Seq<char>) -> Option<Seq<u8>> {
    match crate::peer::peer_id_of_text(text) {
        Ok(peer) => Some(peer),
        Err(_) => None,
    }
}

/// The peers that a Guard authorises, in order, as far as their texts name some.
pub open spec fn named_peers(allow: Seq<Allow>) -> Seq<Option<Seq<u8>>> {
    Seq::new(allow.len(), |i: int| named_peer(allow[i].peer@))
}

/// The roles of a peer, given which peers are Guards.
pub open spec fn role_of(guards: Set<Seq<u8>>, peer: Seq<u8>) -> Seq<Seq<char>> {
    if guards.contains(peer) {
        guard_roles()
    } else {
        client_roles()
    }
}

/// The roles of the authorised peers, in order: that of a Client; what is no peer is left
/// out.
pub open spec fn allowed_roles(allowed: Seq<Option<Seq<u8>>>) -> Seq<(Seq<u8>, Seq<Seq<char>>)>
    decreases allowed.len(),
{
    if allowed.len() == 0 {
        Seq::empty()
    } else {
        match allowed.last() {
            Some(peer) => allowed_roles(allowed.drop_last()).push((peer, client_roles())),
            None => allowed_roles(allowed.drop_last()),
        }
    }
}

/// The roles of a Guard, then those of the peers it authorises. What is no peer is left out.
pub open spec fn roles_of(guard: Option<Seq<u8>>, allowed: Seq<Option<Seq<u8>>>) -> Seq<
    (Seq<u8>, Seq<Seq<char>>),
> {
    let own = match guard {
        Some(peer) => seq![(peer, guard_roles())],
        None => Seq::empty(),
    };
    own + allowed_roles(allowed)
}

/// The roles that a configuration gives: those of its Guard, then those of the peers it
/// authorises. What is no peer id is left out.
pub open spec fn config_roles(config: ConfigNodeGuard) -> Seq<(Seq<u8>, Seq<Seq<char>>)> {
    roles_of(named_peer(config.uuid@), named_peers(config.allow@))
}

/// Guards, with one more if there is one.
pub open spec fn and_guard(guards: Set<Seq<u8>>, guard: Option<Seq<u8>>) -> Set<Seq<u8>> {
    match guard {
        Some(peer) => guards.insert(peer),
        None => guards,
    }
}

/// Authorised peers without the Guards among them.
pub open spec fn without(allowed: Seq<Option<Seq<u8>>>, guards: Set<Seq<u8>>) -> Seq<
    Option<Seq<u8>>,
> {
    Seq::new(
        allowed.len(),
        |i: int|
            match allowed[i] {
                Some(peer) => if guards.contains(peer) {
                    None
                } else {
                    Some(peer)
                },
                None => None,
            },
    )
}

/// The roles to grant when a configuration is pushed, next to the given Guards: those that
/// it gives, but for the Guards among the peers it authorises, whose roles stay.
pub open spec fn pushed_roles(config: ConfigNodeGuard, guards: Set<Seq<u8>>) -> Seq<
    (Seq<u8>, Seq<Seq<char>>),
> {
    let guard = named_peer(config.uuid@);
    roles_of(guard, without(named_peers(config.allow@), and_guard(guards, guard)))
}

/// Whether a peer is the Guard of a configuration.
pub open spec fn is_guard(configs: Seq<ConfigNodeGuard>, peer: Seq<u8>) -> bool {
    exists|i: int|
        0 <= i < configs.len() && named_peer((#[trigger] configs[i]).uuid@) == Some(peer)
}

/// The Guards of configurations.
pub open spec fn guards_of(configs: Seq<ConfigNodeGuard>) -> Set<Seq<u8>> {
    Set::new(|peer: Seq<u8>| is_guard(configs, peer))
}

/// Whether a peer is in a list of authorised peers.
pub open spec fn lists(allow: Seq<Allow>, peer: Seq<u8>) -> bool {
    exists|j: int| 0 <= j < allow.len() && named_peer((#[trigger] allow[j]).peer@) == Some(peer)
}

/// Whether a configuration authorises a peer.
pub open spec fn is_client(configs: Seq<ConfigNodeGuard>, peer: Seq<u8>) -> bool {
    exists|i: int| 0 <= i < configs.len() && lists((#[trigger] configs[i]).allow@, peer)
}

/// The contents of peers that may be missing.
pub open spec fn peer_models(v: Seq<Option<PeerId>>) -> Seq<Option<Seq<u8>>> {
    Seq::new(v.len(), |i: int| peer_model(v[i]))
}

/// The content of a peer that may be missing.
pub open spec fn peer_model(p: Option<PeerId>) -> Option<Seq<u8>> {
    match p {
        Some(peer) => Some(peer@),
        None => None,
    }
}

/// The contents of peers with roles.
pub open spec fn role_models(v: Seq<(PeerId, Vec<String>)>) -> Seq<(Seq<u8>, Seq<Seq<char>>)> {
    Seq::new(v.len(), |i: int| (v[i].0@, crate::protocol::texts(v[i].1@)))
}

/// A whitelist to which peers with roles are added in order.
pub open spec fn with_roles(
    list: Map<Seq<u8>, Seq<Seq<char>>>,
    roles: Seq<(Seq<u8>, Seq<Seq<char>>)>,
) -> Map<Seq<u8>, Seq<Seq<char>>>
    decreases roles.len(),
{
    if roles.len() == 0 {
        list
    } else {
        with_roles(list, roles.drop_last()).insert(roles.last().0, roles.last().1)
    }
}

/// The whitelist that configurations give: every Guard has the roles of a Guard, every
/// other peer that one of them authorises has that of a Client, and nobody else is in it.
pub open spec fn whitelist_of(configs: Seq<ConfigNodeGuard>) -> Map<Seq<u8>, Seq<Seq<char>>> {
    Map::new(
        |peer: Seq<u8>| is_guard(configs, peer) || is_client(configs, peer),
        |peer: Seq<u8>| role_of(guards_of(configs), peer),
    )
}

fn client_role_list() -> (r: Vec<String>)
    ensures
        crate::protocol::texts(r@) == client_roles(),
{
    let mut roles: Vec<String> = Vec::new();
    roles.push("gw-client".to_owned());
    assert(crate::protocol::texts(roles@) =~= client_roles());
    roles
}

fn guard_role_list() -> (r: Vec<String>)
    ensures
        crate::protocol::texts(r@) == guard_roles(),
{
    let mut roles: Vec<String> = Vec::new();
    roles.push("gw-guard".to_owned());
    roles.push("gw-client".to_owned());
    assert(crate::protocol::texts(roles@) =~= guard_roles());
    roles
}

/// The peers of a list.
pub open spec fn peer_set(v: Seq<PeerId>) -> Set<Seq<u8>> {
    Set::new(|peer: Seq<u8>| exists|k: int| 0 <= k < v.len() && (#[trigger] v[k])@ == peer)
}

proof fn lemma_peer_set_push(v: Seq<PeerId>, p: PeerId)
    ensures
        forall|q: PeerId| q@ == p@ ==> #[trigger] peer_set(v.push(q)) == peer_set(v).insert(p@),
{
    assert forall|q: PeerId| q@ == p@ implies #[trigger] peer_set(v.push(q)) == peer_set(v).insert(
        p@,
    ) by {
        let more = v.push(q);
        assert forall|peer: Seq<u8>| peer_set(more).contains(peer) <==> peer_set(v).insert(
            p@,
        ).contains(peer) by {
            if peer_set(v).contains(peer) {
                let k = choose|k: int| 0 <= k < v.len() && (#[trigger] v[k])@ == peer;
                assert(more[k]@ == peer);
            }
            assert(more[v.len() as int]@ == p@);
        }
        assert(peer_set(more) =~= peer_set(v).insert(p@));
    }
}

fn is_among(peers: &Vec<PeerId>, peer: &PeerId) -> (r: bool)
    ensures
        r == peer_set(peers@).contains(peer@),
{
    let mut i: usize = 0;
    while i < peers.len()
        invariant
            i <= peers@.len(),
            forall|k: int| 0 <= k < i ==> (#[trigger] peers@[k])@ != peer@,
        decreases peers@.len() - i,
    {
        if peers[i].same(peer) {
            assert(peers@[i as int]@ == peer@);
            return true;
        }
        i += 1;
    }
    false
}

/// The roles of a Guard, then those of the peers it authorises. What is no peer is left out.
pub fn roles_for_peers(guard: Option<PeerId>, allowed: &Vec<Option<PeerId>>) -> (r: Vec<
    (PeerId, Vec<String>),
>)
    ensures
        role_models(r@) == roles_of(peer_model(guard), peer_models(allowed@)),
{
    let ghost own = match peer_model(guard) {
        Some(peer) => seq![(peer, guard_roles())],
        None => Seq::empty(),
    };
    let ghost peers = peer_models(allowed@);
    let mut out: Vec<(PeerId, Vec<String>)> = Vec::new();
    match guard {
        Some(peer) => {
            out.push((peer, guard_role_list()));
        },
        None => {},
    }
    assert(role_models(out@) =~= own + allowed_roles(peers.take(0)));
    let mut i: usize = 0;
    while i < allowed.len()
        invariant
            i <= allowed@.len(),
            peers == peer_models(allowed@),
            role_models(out@) == own + allowed_roles(peers.take(i as int)),
        decreases allowed@.len() - i,
    {
        let ghost before = role_models(out@);
        assert(peers.take(i + 1).drop_last() =~= peers.take(i as int));
        assert(peers.take(i + 1).last() == peer_model(allowed@[i as int]));
        match &allowed[i] {
            Some(peer) => {
                out.push((peer.clone(), client_role_list()));
                assert(role_models(out@) =~= before.push((peer@, client_roles())));
                assert(role_models(out@) =~= own + allowed_roles(peers.take(i + 1)));
            },
            None => {},
        }
        i += 1;
    }
    assert(peers.take(peers.len() as int) =~= peers);
    out
}

fn read_peer(text: &str) -> (r: Option<PeerId>)
    ensures
        peer_model(r) == named_peer(text@),
{
    match PeerId::parse(text) {
        Ok(peer) => Some(peer),
        Err(_) => None,
    }
}

fn read_allowed(allow: &Vec<Allow>) -> (r: Vec<Option<PeerId>>)
    ensures
        peer_models(r@) == named_peers(allow@),
{
    let mut allowed: Vec<Option<PeerId>> = Vec::new();
    let mut i: usize = 0;
    while i < allow.len()
        invariant
            i <= allow@.len(),
            allowed@.len() == i,
            forall|j: int|
                0 <= j < i ==> peer_model(#[trigger] allowed@[j]) == named_peer(allow@[j].peer@),
        decreases allow@.len() - i,
    {
        allowed.push(read_peer(allow[i].peer.as_str()));
        i += 1;
    }
    assert(peer_models(allowed@) =~= named_peers(allow@));
    allowed
}

/// The roles that a configuration gives: those of the Guard, then those of the peers it
/// authorises. An entry that is no peer id is left out: one corrupt entry does not deprive
/// the others of their roles.
pub fn roles_for_config(config: &ConfigNodeGuard) -> (r: Vec<(PeerId, Vec<String>)>)
    ensures
        role_models(r@) == config_roles(*config),
{
    roles_for_peers(read_peer(config.uuid.as_str()), &read_allowed(&config.allow))
}

/// Authorised peers without the Guards among them.
fn leave_out(allowed: Vec<Option<PeerId>>, guards: &Vec<PeerId>) -> (r: Vec<Option<PeerId>>)
    ensures
        peer_models(r@) == without(peer_models(allowed@), peer_set(guards@)),
{
    let mut out: Vec<Option<PeerId>> = Vec::new();
    let mut i: usize = 0;
    while i < allowed.len()
        invariant
            i <= allowed@.len(),
            out@.len() == i,
            forall|j: int|
                0 <= j < i ==> peer_model(#[trigger] out@[j]) == without(
                    peer_models(allowed@),
                    peer_set(guards@),
                )[j],
        decreases allowed@.len() - i,
    {
        let kept = match &allowed[i] {
            Some(peer) => {
                if is_among(guards, peer) {
                    None
                } else {
                    Some(peer.clone())
                }
            },
            None => None,
        };
        out.push(kept);
        i += 1;
    }
    assert(peer_models(out@) =~= without(peer_models(allowed@), peer_set(guards@)));
    out
}

/// The roles to grant at once when a configuration is pushed, `stored` being the
/// configurations that are kept: those that it gives, but for the peers it authorises that
/// are Guards themselves, which keep their roles.
pub fn roles_to_push(config: &ConfigNodeGuard, stored: &Vec<ConfigNodeGuard>) -> (r: Vec<
    (PeerId, Vec<String>),
>)
    ensures
        role_models(r@) == pushed_roles(*config, guards_of(stored@)),
{
    let guard = read_peer(config.uuid.as_str());
    let mut guards = read_guards(stored);
    match &guard {
        Some(peer) => {
            proof {
                lemma_peer_set_push(guards@, *peer);
            }
            guards.push(peer.clone());
            assert(peer_set(guards@) =~= and_guard(guards_of(stored@), peer_model(guard)));
        },
        None => {},
    }
    let allowed = leave_out(read_allowed(&config.allow), &guards);
    roles_for_peers(guard, &allowed)
}

proof fn lemma_guards_push(configs: Seq<ConfigNodeGuard>, config: ConfigNodeGuard)
    ensures
        guards_of(configs.push(config)) == and_guard(guards_of(configs), named_peer(config.uuid@)),
{
    let more = configs.push(config);
    let expected = and_guard(guards_of(configs), named_peer(config.uuid@));
    assert forall|peer: Seq<u8>| guards_of(more).contains(peer) <==> expected.contains(peer) by {
        if is_guard(configs, peer) {
            let i = choose|i: int|
                0 <= i < configs.len() && named_peer((#[trigger] configs[i]).uuid@) == Some(peer);
            assert(named_peer(more[i].uuid@) == Some(peer));
        }
        assert(more[configs.len() as int] == config);
        if is_guard(more, peer) {
            let i = choose|i: int|
                0 <= i < more.len() && named_peer((#[trigger] more[i]).uuid@) == Some(peer);
            if i < configs.len() {
                assert(named_peer(configs[i].uuid@) == Some(peer));
            }
        }
    }
    assert(guards_of(more) =~= expected);
}

fn read_guards(configs: &Vec<ConfigNodeGuard>) -> (r: Vec<PeerId>)
    ensures
        peer_set(r@) == guards_of(configs@),
{
    let mut guards: Vec<PeerId> = Vec::new();
    let mut i: usize = 0;
    assert(peer_set(guards@) =~= guards_of(configs@.take(0)));
    while i < configs.len()
        invariant
            i <= configs@.len(),
            peer_set(guards@) == guards_of(configs@.take(i as int)),
        decreases configs@.len() - i,
    {
        proof {
            lemma_guards_push(configs@.take(i as int), configs@[i as int]);
            assert(configs@.take(i + 1) =~= configs@.take(i as int).push(configs@[i as int]));
        }
        match read_peer(configs[i].uuid.as_str()) {
            Some(peer) => {
                proof {
                    lemma_peer_set_push(guards@, peer);
                }
                guards.push(peer);
            },
            None => {},
        }
        i += 1;
    }
    assert(configs@.take(configs@.len() as int) =~= configs@);
    guards
}

/// Adds the peers that a list authorises to a whitelist, as Clients.
fn allow_clients(list: &mut Whitelist, allow: &Vec<Allow>)
    requires
        old(list).wf(),
    ensures
        final(list).wf(),
        forall|peer: Seq<u8>| #[trigger]
            final(list)@.contains_key(peer) <==> old(list)@.contains_key(peer) || lists(
                allow@,
                peer,
            ),
        forall|peer: Seq<u8>| #[trigger]
            final(list)@.contains_key(peer) ==> final(list)@[peer] == if lists(allow@, peer) {
                client_roles()
            } else {
                old(list)@[peer]
            },
{
    let ghost before = list@;
    let mut i: usize = 0;
    while i < allow.len()
        invariant
            i <= allow@.len(),
            list.wf(),
            before == old(list)@,
            forall|peer: Seq<u8>| #[trigger]
                list@.contains_key(peer) <==> before.contains_key(peer) || lists(
                    allow@.take(i as int),
                    peer,
                ),
            forall|peer: Seq<u8>| #[trigger]
                list@.contains_key(peer) ==> list@[peer] == if lists(allow@.take(i as int), peer) {
                    client_roles()
                } else {
                    before[peer]
                },
        decreases allow@.len() - i,
    {
        let ghost here = list@;
        let ghost seen = allow@.take(i as int);
        let ghost next = allow@.take(i + 1);
        let ghost entry = allow@[i as int];
        proof {
            assert forall|peer: Seq<u8>| #[trigger] lists(next, peer) <==> lists(seen, peer)
                || named_peer(entry.peer@) == Some(peer) by {
                if lists(seen, peer) {
                    let j = choose|j: int|
                        0 <= j < seen.len() && named_peer((#[trigger] seen[j]).peer@) == Some(peer);
                    assert(next[j] == seen[j]);
                }
                assert(next[i as int] == entry);
                if lists(next, peer) {
                    let j = choose|j: int|
                        0 <= j < next.len() && named_peer((#[trigger] next[j]).peer@) == Some(peer);
                    if j < i {
                        assert(seen[j] == next[j]);
                    }
                }
            }
        }
        match read_peer(allow[i].peer.as_str()) {
            Some(peer) => {
                let ghost p = peer@;
                list.allow(peer, client_role_list());
                assert(list@ == here.insert(p, client_roles()));
            },
            None => {},
        }
        i += 1;
    }
    assert(allow@.take(allow@.len() as int) =~= allow@);
}

/// The whitelist of the gateway, from all the configurations it keeps. A Guard has the
/// roles of a Guard, whichever configurations list it among the peers they authorise.
pub fn rebuild_whitelist(configs: &Vec<ConfigNodeGuard>) -> (r: Whitelist)
    ensures
        r.wf(),
        r@ == whitelist_of(configs@),
{
    let mut list = Whitelist::new();
    let mut i: usize = 0;
    while i < configs.len()
        invariant
            i <= configs@.len(),
            list.wf(),
            forall|peer: Seq<u8>| #[trigger]
                list@.contains_key(peer) <==> is_client(configs@.take(i as int), peer),
            forall|peer: Seq<u8>| #[trigger]
                list@.contains_key(peer) ==> list@[peer] == client_roles(),
        decreases configs@.len() - i,
    {
        let ghost seen = configs@.take(i as int);
        let ghost next = configs@.take(i + 1);
        let ghost config = configs@[i as int];
        proof {
            assert forall|peer: Seq<u8>| #[trigger] is_client(next, peer) <==> is_client(seen, peer)
                || lists(config.allow@, peer) by {
                if is_client(seen, peer) {
                    let k = choose|k: int|
                        0 <= k < seen.len() && lists((#[trigger] seen[k]).allow@, peer);
                    assert(next[k] == seen[k]);
                }
                assert(next[i as int] == config);
                if is_client(next, peer) {
                    let k = choose|k: int|
                        0 <= k < next.len() && lists((#[trigger] next[k]).allow@, peer);
                    if k < i {
                        assert(seen[k] == next[k]);
                    }
                }
            }
        }
        allow_clients(&mut list, &configs[i].allow);
        i += 1;
    }
    assert(configs@.take(configs@.len() as int) =~= configs@);
    let guards = read_guards(configs);
    let mut n: usize = 0;
    assert(peer_set(guards@.take(0)) =~= Set::<Seq<u8>>::empty());
    while n < guards.len()
        invariant
            n <= guards@.len(),
            list.wf(),
            forall|peer: Seq<u8>| #[trigger]
                list@.contains_key(peer) <==> is_client(configs@, peer) || peer_set(
                    guards@.take(n as int),
                ).contains(peer),
            forall|peer: Seq<u8>| #[trigger]
                list@.contains_key(peer) ==> list@[peer] == role_of(
                    peer_set(guards@.take(n as int)),
                    peer,
                ),
        decreases guards@.len() - n,
    {
        let ghost here = list@;
        proof {
            lemma_peer_set_push(guards@.take(n as int), guards@[n as int]);
            assert(guards@.take(n + 1) =~= guards@.take(n as int).push(guards@[n as int]));
        }
        list.allow(guards[n].clone(), guard_role_list());
        assert(list@ == here.insert(guards@[n as int]@, guard_roles()));
        n += 1;
    }
    assert(guards@.take(guards@.len() as int) =~= guards@);
    assert(list@ =~= whitelist_of(configs@));
    list
}

/// A corrupt entry changes nothing for the others: without it, the roles are the same.
pub proof fn corrupt_entries_are_ignored(
    before: Seq<Allow>,
    bad: Allow,
    after: Seq<Allow>,
)
    requires
        crate::peer::peer_id_of_text(bad.peer@) is Err,
    ensures
        allowed_roles(named_peers(before.push(bad) + after)) == allowed_roles(
            named_peers(before + after),
        ),
    decreases after.len(),
{
    let with = named_peers(before.push(bad) + after);
    let without = named_peers(before + after);
    if after.len() == 0 {
        assert(with.drop_last() =~= without);
        assert(with.last() == named_peer(bad.peer@));
    } else {
        let front = after.drop_last();
        assert(with.drop_last() =~= named_peers(before.push(bad) + front));
        assert(without.drop_last() =~= named_peers(before + front));
        assert(with.last() == named_peer(after.last().peer@));
        assert(without.last() == named_peer(after.last().peer@));
        corrupt_entries_are_ignored(before, bad, front);
    }
}

} // verus!
