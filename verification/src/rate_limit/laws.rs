//! Laws of the rate limiter, over its states.

use vstd::prelude::*;
use crate::addr::{ComponentModel, IpAddr};
use crate::rate_limit::{LimiterModel, RateExceeded};

verus! {

/// Attempts, each an address and a time, in the order in which they come.
pub open spec fn in_order(attempts: Seq<(IpAddr, u128)>) -> bool {
    forall|i: int, j: int|
        0 <= i <= j < attempts.len() ==> (#[trigger] attempts[i]).1 <= (#[trigger] attempts[j]).1
}

/// The state after attempts.
pub open spec fn run(m: LimiterModel, attempts: Seq<(IpAddr, u128)>) -> LimiterModel
    decreases attempts.len(),
{
    if attempts.len() == 0 {
        m
    } else {
        run(m, attempts.drop_last()).after(attempts.last().0, attempts.last().1)
    }
}

/// The times of the admitted attempts of an address.
pub open spec fn admitted(m: LimiterModel, attempts: Seq<(IpAddr, u128)>, ip: IpAddr) -> Seq<u128>
    decreases attempts.len(),
{
    if attempts.len() == 0 {
        Seq::empty()
    } else {
        let before = admitted(m, attempts.drop_last(), ip);
        let (who, now) = attempts.last();
        if who == ip && run(m, attempts.drop_last()).admits(ip, now) {
            before.push(now)
        } else {
            before
        }
    }
}

/// What pruning keeps is a suffix, and what it drops has left the window.
proof fn lemma_pruned_is_suffix(hits: Seq<u128>, now: u128, window: u128) -> (k: int)
    ensures
        0 <= k <= hits.len(),
        crate::rate_limit::pruned(hits, now, window) == hits.skip(k),
        forall|i: int| 0 <= i < k ==> crate::rate_limit::elapsed(now, #[trigger] hits[i]) > window,
        k < hits.len() ==> crate::rate_limit::elapsed(now, hits[k]) <= window,
    decreases hits.len(),
{
    if hits.len() > 0 && crate::rate_limit::elapsed(now, hits[0]) > window {
        let k = lemma_pruned_is_suffix(hits.skip(1), now, window);
        assert(hits.skip(1).skip(k) =~= hits.skip(k + 1));
        assert forall|i: int| 0 <= i < k + 1 implies crate::rate_limit::elapsed(
            now,
            #[trigger] hits[i],
        ) > window by {
            if i > 0 {
                assert(hits.skip(1)[i - 1] == hits[i]);
            }
        }
        if k + 1 < hits.len() {
            assert(hits.skip(1)[k] == hits[k + 1]);
        }
        k + 1
    } else {
        assert(hits.skip(0) =~= hits);
        0
    }
}

/// Pruning twice is pruning once, at the later time.
proof fn lemma_pruned_twice(hits: Seq<u128>, t: u128, now: u128, window: u128)
    requires
        t <= now,
    ensures
        crate::rate_limit::pruned(crate::rate_limit::pruned(hits, t, window), now, window)
            == crate::rate_limit::pruned(hits, now, window),
    decreases hits.len(),
{
    if hits.len() > 0 && crate::rate_limit::elapsed(t, hits[0]) > window {
        lemma_pruned_twice(hits.skip(1), t, now, window);
    }
}

/// What the account of `ip` is worth at a later time, after an attempt: the
/// attempt adds to it if it is an admitted attempt of `ip`, and changes nothing
/// otherwise.
proof fn lemma_account_after(m: LimiterModel, who: IpAddr, t: u128, ip: IpAddr, now: u128)
    requires
        t <= now,
    ensures
        crate::rate_limit::pruned(m.after(who, t).hits(ip), now, m.window) == if who == ip
            && !m.exempt.contains(ip) && m.admits(ip, t) {
            crate::rate_limit::pruned(
                crate::rate_limit::pruned(m.hits(ip), t, m.window).push(t),
                now,
                m.window,
            )
        } else {
            crate::rate_limit::pruned(m.hits(ip), now, m.window)
        },
{
    let w = m.window;
    lemma_pruned_twice(m.hits(ip), t, now, w);
    lemma_pruned_twice(m.hits(ip), t, t, w);
    let due = m.sweep_if_due(t);
    let ready = m.ready(who, t);
    assert(due.window == w && ready.window == w);
    lemma_swept_account(m, ip, t, now);
    lemma_swept_account(m, ip, t, t);
    lemma_swept_account(due, ip, t, now);
    lemma_swept_account(due, ip, t, t);
    lemma_pruned_twice(ready.hits(ip), t, now, w);
    if who != ip {
        assert(crate::rate_limit::family_key(who) != crate::rate_limit::family_key(ip) || (who is V4
            != ip is V4));
    }
}

/// A sweep changes the worth of no account.
proof fn lemma_swept_account(m: LimiterModel, ip: IpAddr, t: u128, now: u128)
    requires
        t <= now,
    ensures
        crate::rate_limit::pruned(m.sweep(t).hits(ip), now, m.window) == crate::rate_limit::pruned(
            m.hits(ip),
            now,
            m.window,
        ),
{
    lemma_pruned_twice(m.hits(ip), t, now, m.window);
}

/// A sweep tracks no more addresses than before.
proof fn lemma_sweep_shrinks(table: Map<u128, Seq<u128>>, now: u128, window: u128)
    requires
        table.dom().finite(),
    ensures
        crate::rate_limit::swept(table, now, window).dom().finite(),
        crate::rate_limit::swept(table, now, window).len() <= table.len(),
{
    let after = crate::rate_limit::swept(table, now, window);
    assert(after.dom().subset_of(table.dom()));
    vstd::set_lib::lemma_len_subset(after.dom(), table.dom());
}

/// An exempt address is always admitted, and takes no room.
pub proof fn exempt_address_is_never_limited(m: LimiterModel, ip: IpAddr, now: u128)
    requires
        m.exempt.contains(ip),
    ensures
        m.admits(ip, now),
        m.after(ip, now) == m,
{
}

/// The attempts of an address take no credit from the others.
pub proof fn addresses_are_independent(
    m: LimiterModel,
    who: IpAddr,
    t: u128,
    ip: IpAddr,
    now: u128,
)
    requires
        who != ip,
        t <= now,
    ensures
        crate::rate_limit::pruned(m.after(who, t).hits(ip), now, m.window)
            == crate::rate_limit::pruned(m.hits(ip), now, m.window),
{
    lemma_account_after(m, who, t, ip, now);
}

/// A refused attempt takes no credit.
pub proof fn refusals_do_not_count(m: LimiterModel, ip: IpAddr, t: u128, now: u128)
    requires
        !m.admits(ip, t),
        t <= now,
    ensures
        crate::rate_limit::pruned(m.after(ip, t).hits(ip), now, m.window)
            == crate::rate_limit::pruned(m.hits(ip), now, m.window),
{
    lemma_account_after(m, ip, t, ip, now);
}

/// Credit returns: an address whose attempts all left the window is admitted, as
/// long as the rate is not zero and the table has room for it.
pub proof fn credit_returns(m: LimiterModel, ip: IpAddr, now: u128)
    requires
        m.max_per_window > 0,
        !m.full(ip, now),
        forall|i: int|
            0 <= i < m.hits(ip).len() ==> crate::rate_limit::elapsed(now, #[trigger] m.hits(ip)[i])
                > m.window,
    ensures
        m.admits(ip, now),
{
    let k = lemma_pruned_is_suffix(m.hits(ip), now, m.window);
    assert(k == m.hits(ip).len());
    let due = m.sweep_if_due(now);
    lemma_swept_account(m, ip, now, now);
    lemma_swept_account(due, ip, now, now);
}

/// A rate of zero admits nothing but the exempt addresses.
pub proof fn zero_rate_blocks_everything(m: LimiterModel, ip: IpAddr, now: u128)
    requires
        m.max_per_window == 0,
    ensures
        m.admits(ip, now) == m.exempt.contains(ip),
{
}

/// The table never holds more addresses than its cap.
pub proof fn table_is_capped(m: LimiterModel, ip: IpAddr, now: u128)
    requires
        m.v4.dom().finite(),
        m.v6.dom().finite(),
        m.table_size() <= m.max_tracked_ips,
    ensures
        m.after(ip, now).v4.dom().finite(),
        m.after(ip, now).v6.dom().finite(),
        m.after(ip, now).table_size() <= m.after(ip, now).max_tracked_ips,
{
    let due = m.sweep_if_due(now);
    lemma_sweep_shrinks(m.v4, now, m.window);
    lemma_sweep_shrinks(m.v6, now, m.window);
    lemma_sweep_shrinks(due.v4, now, m.window);
    lemma_sweep_shrinks(due.v6, now, m.window);
}

/// An address already in the table is served though the table is full.
pub proof fn full_table_still_serves_known_addresses(m: LimiterModel, ip: IpAddr, now: u128)
    requires
        m.sweep_if_due(now).tracks(ip),
        crate::rate_limit::pruned(m.hits(ip), now, m.window).len() < m.max_per_window,
    ensures
        m.admits(ip, now),
{
    lemma_swept_account(m, ip, now, now);
}

/// What is known of the account of `ip` after attempts: it is a suffix of its
/// admitted attempts, and those before the suffix have left the window at any
/// time from `last` on.
spec fn account_ok(m: LimiterModel, past: Seq<u128>, ip: IpAddr, last: u128) -> bool {
    let h = m.hits(ip);
    &&& h.len() <= past.len()
    &&& h == past.skip(past.len() - h.len())
    &&& forall|i: int|
        0 <= i < past.len() - h.len() ==> crate::rate_limit::elapsed(last, #[trigger] past[i])
            > m.window
}

/// An account stays a suffix of the admitted attempts when it is pruned.
proof fn lemma_account_pruned(h: Seq<u128>, past: Seq<u128>, last: u128, now: u128, window: u128)
    requires
        last <= now,
        h.len() <= past.len(),
        h == past.skip(past.len() - h.len()),
        forall|i: int|
            0 <= i < past.len() - h.len() ==> crate::rate_limit::elapsed(last, #[trigger] past[i])
                > window,
    ensures
        ({
            let p = crate::rate_limit::pruned(h, now, window);
            &&& p.len() <= past.len()
            &&& p == past.skip(past.len() - p.len())
            &&& forall|i: int|
                0 <= i < past.len() - p.len() ==> crate::rate_limit::elapsed(
                    now,
                    #[trigger] past[i],
                ) > window
        }),
{
    let k = lemma_pruned_is_suffix(h, now, window);
    let p = crate::rate_limit::pruned(h, now, window);
    assert(p =~= past.skip(past.len() - p.len()));
    assert forall|i: int| 0 <= i < past.len() - p.len() implies crate::rate_limit::elapsed(
        now,
        #[trigger] past[i],
    ) > window by {
        let d = past.len() - h.len();
        if i >= d {
            assert(h[i - d] == past[i]);
        }
    }
}

/// One attempt keeps the account.
proof fn lemma_account_step(
    m: LimiterModel,
    past: Seq<u128>,
    ip: IpAddr,
    last: u128,
    who: IpAddr,
    now: u128,
)
    requires
        !m.exempt.contains(ip),
        last <= now,
        account_ok(m, past, ip, last),
    ensures
        ({
            let adds = who == ip && m.admits(ip, now);
            let past2 = if adds {
                past.push(now)
            } else {
                past
            };
            &&& account_ok(m.after(who, now), past2, ip, now)
            &&& adds ==> m.after(who, now).hits(ip).len() <= m.max_per_window
        }),
{
    let w = m.window;
    let due = m.sweep_if_due(now);
    let ready = m.ready(who, now);
    let h = m.hits(ip);
    let p = crate::rate_limit::pruned(h, now, w);
    lemma_account_pruned(h, past, last, now, w);
    lemma_account_pruned(h, past, last, last, w);
    lemma_pruned_twice(h, now, now, w);
    // The account is either untouched or pruned by the sweeps.
    assert(due.hits(ip) == h || due.hits(ip) == p);
    assert(ready.hits(ip) == h || ready.hits(ip) == p) by {
        if due.hits(ip) == p {
            assert(crate::rate_limit::pruned(p, now, w) == p);
        }
    }
    assert(crate::rate_limit::pruned(ready.hits(ip), now, w) == p);
    let after = m.after(who, now);
    assert(after.window == w);
    if who == ip && !m.full(ip, now) {
        if p.len() < m.max_per_window {
            assert(after.hits(ip) == p.push(now));
            let past2 = past.push(now);
            assert(p.push(now) =~= past2.skip(past2.len() - p.push(now).len()));
            assert forall|i: int|
                0 <= i < past2.len() - p.push(now).len() implies crate::rate_limit::elapsed(
                now,
                #[trigger] past2[i],
            ) > w by {
                assert(past2[i] == past[i]);
            }
        } else {
            assert(after.hits(ip) == p);
        }
    } else {
        if who != ip {
            assert(crate::rate_limit::family_key(who) != crate::rate_limit::family_key(ip) || (
            who is V4 != ip is V4));
        }
        assert(after.hits(ip) == if m.exempt.contains(who) {
            h
        } else {
            ready.hits(ip)
        });
        assert forall|i: int| 0 <= i < past.len() - h.len() implies crate::rate_limit::elapsed(
            now,
            #[trigger] past[i],
        ) > w by {}
    }
}

/// The accounts over a run of attempts.
proof fn lemma_run(m: LimiterModel, attempts: Seq<(IpAddr, u128)>, ip: IpAddr)
    requires
        in_order(attempts),
        !m.tracks(ip),
        !m.exempt.contains(ip),
    ensures
        ({
            let past = admitted(m, attempts, ip);
            let end = run(m, attempts);
            let last = if attempts.len() == 0 {
                0
            } else {
                attempts.last().1
            };
            &&& end.exempt == m.exempt
            &&& end.window == m.window
            &&& end.max_per_window == m.max_per_window
            &&& account_ok(end, past, ip, last)
            &&& forall|i: int, j: int|
                0 <= i && j == i + m.max_per_window && j < past.len() ==> #[trigger] past[j]
                    - #[trigger] past[i] > m.window
        }),
    decreases attempts.len(),
{
    if attempts.len() > 0 {
        let front = attempts.drop_last();
        let (who, now) = attempts.last();
        assert(in_order(front)) by {
            assert forall|i: int, j: int| 0 <= i <= j < front.len() implies (#[trigger] front[i]).1
                <= (#[trigger] front[j]).1 by {
                assert(attempts[i].1 <= attempts[j].1);
            }
        }
        lemma_run(m, front, ip);
        let before = run(m, front);
        let past = admitted(m, front, ip);
        let last = if front.len() == 0 {
            0
        } else {
            front.last().1
        };
        if front.len() > 0 {
            assert(attempts[front.len() - 1].1 <= attempts[attempts.len() - 1].1);
        }
        lemma_account_step(before, past, ip, last, who, now);
        let past2 = admitted(m, attempts, ip);
        let after = run(m, attempts);
        let max = m.max_per_window;
        assert forall|i: int, j: int|
            0 <= i && j == i + max && j < past2.len() implies #[trigger] past2[j]
            - #[trigger] past2[i] > m.window by {
            if who == ip && before.admits(ip, now) {
                if j < past.len() {
                    assert(past2[i] == past[i]);
                    assert(past2[j] == past[j]);
                } else {
                    assert(past2[j] == now);
                    assert(after.hits(ip).len() <= max);
                    assert(crate::rate_limit::elapsed(now, past2[i]) > m.window);
                }
            } else {
                assert(past2[i] == past[i]);
            }
        }
    } else {
        assert(m.hits(ip) =~= Seq::<u128>::empty().skip(0));
    }
}

/// The rate holds over every sliding window: whatever the attempts, in order of
/// time, more than `max_per_window` admitted attempts of one address span more
/// than a window. So no window of that length holds more than `max_per_window`
/// of them.
pub proof fn rate_holds_over_every_window(
    m: LimiterModel,
    attempts: Seq<(IpAddr, u128)>,
    ip: IpAddr,
    i: int,
)
    requires
        in_order(attempts),
        !m.tracks(ip),
        !m.exempt.contains(ip),
        0 <= i,
        i + m.max_per_window < admitted(m, attempts, ip).len(),
    ensures
        admitted(m, attempts, ip)[i + m.max_per_window] - admitted(m, attempts, ip)[i] > m.window,
{
    lemma_run(m, attempts, ip);
}

/// How many times lie in the window that ends now.
pub open spec fn in_window(times: Seq<u128>, now: u128, window: u128) -> nat
    decreases times.len(),
{
    if times.len() == 0 {
        0
    } else {
        in_window(times.drop_last(), now, window) + if crate::rate_limit::elapsed(
            now,
            times.last(),
        ) <= window {
            1nat
        } else {
            0nat
        }
    }
}

/// In a list of times that ends with those of the window, the window holds the end.
proof fn lemma_in_window(times: Seq<u128>, now: u128, window: u128, k: int)
    requires
        0 <= k <= times.len(),
        forall|i: int| 0 <= i < k ==> crate::rate_limit::elapsed(now, #[trigger] times[i]) > window,
        forall|i: int|
            k <= i < times.len() ==> crate::rate_limit::elapsed(now, #[trigger] times[i]) <= window,
    ensures
        in_window(times, now, window) == times.len() - k,
    decreases times.len(),
{
    if times.len() > 0 {
        let front = times.drop_last();
        assert(times.last() == times[times.len() - 1]);
        assert forall|i: int| 0 <= i < front.len() implies front[i] == times[i] by {}
        if k < times.len() {
            lemma_in_window(front, now, window, k);
        } else {
            lemma_in_window(front, now, window, k - 1);
        }
    }
}

/// The admitted attempts of an address come in order, none later than the last attempt.
proof fn lemma_admitted_in_order(m: LimiterModel, attempts: Seq<(IpAddr, u128)>, ip: IpAddr)
    requires
        in_order(attempts),
    ensures
        forall|i: int, j: int|
            0 <= i <= j < admitted(m, attempts, ip).len() ==> #[trigger] admitted(
                m,
                attempts,
                ip,
            )[i] <= #[trigger] admitted(m, attempts, ip)[j],
        forall|i: int|
            0 <= i < admitted(m, attempts, ip).len() ==> #[trigger] admitted(m, attempts, ip)[i]
                <= attempts.last().1,
    decreases attempts.len(),
{
    if attempts.len() > 0 {
        let front = attempts.drop_last();
        assert(in_order(front)) by {
            assert forall|i: int, j: int| 0 <= i <= j < front.len() implies (#[trigger] front[i]).1
                <= (#[trigger] front[j]).1 by {
                assert(attempts[i].1 <= attempts[j].1);
            }
        }
        lemma_admitted_in_order(m, front, ip);
        let before = admitted(m, front, ip);
        let all = admitted(m, attempts, ip);
        if front.len() > 0 {
            assert(attempts[front.len() - 1].1 <= attempts[attempts.len() - 1].1);
        }
        assert forall|i: int| 0 <= i < before.len() implies all[i] == before[i] by {}
        assert forall|i: int| 0 <= i < all.len() implies #[trigger] all[i] <= attempts.last().1 by {
            if i < before.len() {
                assert(before[i] <= front.last().1);
            }
        }
        assert forall|i: int, j: int| 0 <= i <= j < all.len() implies #[trigger] all[i]
            <= #[trigger] all[j] by {
            if j < before.len() {
                assert(before[i] <= before[j]);
            } else if i < before.len() {
                assert(before[i] <= front.last().1);
            }
        }
    }
}

/// The rate is exact: after attempts in order of time, an attempt of an address is admitted
/// exactly where fewer than `max_per_window` of its admitted attempts lie in the window that
/// ends with it. Refused attempts and those of other addresses never count. (The address is
/// not exempt, it had made no attempt before these, and the table has room for it.)
pub proof fn attempt_is_admitted_within_the_rate(
    m: LimiterModel,
    attempts: Seq<(IpAddr, u128)>,
    ip: IpAddr,
    now: u128,
)
    requires
        in_order(attempts.push((ip, now))),
        !m.tracks(ip),
        !m.exempt.contains(ip),
        run(m, attempts).tracks(ip) || run(m, attempts).table_size() < m.max_tracked_ips,
        m.v4.dom().finite(),
        m.v6.dom().finite(),
        m.table_size() <= m.max_tracked_ips,
    ensures
        run(m, attempts).admits(ip, now) <==> in_window(
            admitted(m, attempts, ip),
            now,
            m.window,
        ) < m.max_per_window,
{
    let all = attempts.push((ip, now));
    assert(in_order(attempts)) by {
        assert forall|i: int, j: int| 0 <= i <= j < attempts.len() implies (
        #[trigger] attempts[i]).1 <= (#[trigger] attempts[j]).1 by {
            assert(all[i].1 <= all[j].1);
        }
    }
    let last = if attempts.len() == 0 {
        0
    } else {
        attempts.last().1
    };
    if attempts.len() > 0 {
        assert(all[attempts.len() - 1].1 <= all[attempts.len() as int].1);
    }
    lemma_run(m, attempts, ip);
    lemma_admitted_in_order(m, attempts, ip);
    let end = run(m, attempts);
    let past = admitted(m, attempts, ip);
    let w = m.window;
    let h = end.hits(ip);
    lemma_account_pruned(h, past, last, now, w);
    let p = crate::rate_limit::pruned(h, now, w);
    let k = lemma_pruned_is_suffix(h, now, w);
    let d = past.len() - p.len();
    assert forall|i: int| d <= i < past.len() implies crate::rate_limit::elapsed(
        now,
        #[trigger] past[i],
    ) <= w by {
        assert(p[0] == past[d]);
        assert(p[0] == h[k]);
        assert(past[d] <= past[i]);
    }
    lemma_in_window(past, now, w, d);
    // The sweeps change the worth of no account.
    let due = end.sweep_if_due(now);
    lemma_swept_account(end, ip, now, now);
    lemma_swept_account(due, ip, now, now);
    lemma_pruned_twice(h, now, now, w);
    lemma_run_is_capped(m, attempts);
    lemma_room(end, ip, now);
}

/// A run keeps the table within its cap.
proof fn lemma_run_is_capped(m: LimiterModel, attempts: Seq<(IpAddr, u128)>)
    requires
        m.v4.dom().finite(),
        m.v6.dom().finite(),
        m.table_size() <= m.max_tracked_ips,
    ensures
        run(m, attempts).v4.dom().finite(),
        run(m, attempts).v6.dom().finite(),
        run(m, attempts).max_tracked_ips == m.max_tracked_ips,
        run(m, attempts).table_size() <= m.max_tracked_ips,
    decreases attempts.len(),
{
    if attempts.len() > 0 {
        lemma_run_is_capped(m, attempts.drop_last());
        table_is_capped(run(m, attempts.drop_last()), attempts.last().0, attempts.last().1);
    }
}

/// A sweep that forgets an address leaves room for it.
proof fn lemma_sweep_frees(table: Map<u128, Seq<u128>>, key: u128, now: u128, window: u128)
    requires
        table.dom().finite(),
        table.contains_key(key),
        !crate::rate_limit::swept(table, now, window).contains_key(key),
    ensures
        crate::rate_limit::swept(table, now, window).len() < table.len(),
{
    let after = crate::rate_limit::swept(table, now, window);
    assert(after.dom().subset_of(table.dom().remove(key)));
    vstd::set_lib::lemma_len_subset(after.dom(), table.dom().remove(key));
}

/// A table with room, or one that tracks the address, has room for its attempt.
proof fn lemma_room(m: LimiterModel, ip: IpAddr, now: u128)
    requires
        m.v4.dom().finite(),
        m.v6.dom().finite(),
        m.table_size() <= m.max_tracked_ips,
        m.tracks(ip) || m.table_size() < m.max_tracked_ips,
    ensures
        !m.full(ip, now),
{
    let due = m.sweep_if_due(now);
    lemma_sweep_shrinks(m.v4, now, m.window);
    lemma_sweep_shrinks(m.v6, now, m.window);
    if m.tracks(ip) && !due.tracks(ip) {
        lemma_sweep_frees(m.family(ip), crate::rate_limit::family_key(ip), now, m.window);
    }
}

/// Every connection from an IP address is limited, over IPv4 and IPv6 alike: it counts as an
/// attempt of the first IP address of the remote address, and is refused, with that address,
/// exactly where the attempt is.
pub proof fn connection_from_an_ip_is_an_attempt(
    before: LimiterModel,
    remote: Seq<u8>,
    now: u128,
    after: LimiterModel,
    r: core::result::Result<(), RateExceeded>,
    parts: Seq<ComponentModel>,
    i: int,
    ip: IpAddr,
)
    requires
        crate::rate_limit::connection_decided(before, remote, now, after, r),
        crate::addr::multiaddr_components(remote) == Some(parts),
        0 <= i < parts.len(),
        forall|j: int| 0 <= j < i ==> !((#[trigger] parts[j]) is Ip4 || parts[j] is Ip6),
        match ip {
            IpAddr::V4(a) => parts[i] == ComponentModel::Ip4(a),
            IpAddr::V6(a) => parts[i] == ComponentModel::Ip6(a),
        },
    ensures
        after == before.after(ip, now),
        r is Ok <==> before.admits(ip, now),
        r matches Err(e) ==> e.ip == ip,
{
    crate::addr::first_ip_is_the_first(parts, i);
}

/// A connection without an IP address is let in, and counts nowhere.
pub proof fn connection_without_an_ip_is_let_in(
    before: LimiterModel,
    remote: Seq<u8>,
    now: u128,
    after: LimiterModel,
    r: core::result::Result<(), RateExceeded>,
    parts: Seq<ComponentModel>,
)
    requires
        crate::rate_limit::connection_decided(before, remote, now, after, r),
        crate::addr::multiaddr_components(remote) == Some(parts),
        forall|j: int| 0 <= j < parts.len() ==> !((#[trigger] parts[j]) is Ip4 || parts[j] is Ip6),
    ensures
        after == before,
        r is Ok,
{
    crate::addr::no_ip_without_a_component(parts);
}

/// The time that elapsed is the difference of the times, and none if the clock went back.
pub proof fn elapsed_time_is_the_difference(now: u128, t: u128)
    ensures
        now >= t ==> crate::rate_limit::elapsed(now, t) == now - t,
        now < t ==> crate::rate_limit::elapsed(now, t) == 0,
{
}

/// The first attempts of an address are admitted up to the rate, at whatever times they come,
/// while the table has room: with `n` attempts accounted, fewer than the rate, the next one is
/// admitted and accounted.
pub proof fn attempts_below_the_rate_are_admitted(m: LimiterModel, ip: IpAddr, now: u128)
    requires
        !m.exempt.contains(ip),
        m.hits(ip).len() < m.max_per_window,
        m.v4.dom().finite(),
        m.v6.dom().finite(),
        m.table_size() <= m.max_tracked_ips,
        m.tracks(ip) || m.table_size() < m.max_tracked_ips,
    ensures
        m.admits(ip, now),
        m.after(ip, now).tracks(ip),
        m.after(ip, now).hits(ip).len() > 0,
        m.after(ip, now).hits(ip).last() == now,
{
    lemma_room(m, ip, now);
    let due = m.sweep_if_due(now);
    lemma_swept_account(m, ip, now, now);
    lemma_swept_account(due, ip, now, now);
    let k = lemma_pruned_is_suffix(m.hits(ip), now, m.window);
}

/// An attempt changes neither the rate, nor the window, nor the exemptions, nor the cap of the
/// table.
pub proof fn attempts_leave_the_settings_alone(m: LimiterModel, ip: IpAddr, now: u128)
    ensures
        m.after(ip, now).max_per_window == m.max_per_window,
        m.after(ip, now).window == m.window,
        m.after(ip, now).exempt == m.exempt,
        m.after(ip, now).max_tracked_ips == m.max_tracked_ips,
{
}

/// What a sweep keeps: the addresses with an attempt in the window.
proof fn lemma_swept_keeps(table: Map<u128, Seq<u128>>, now: u128, window: u128, key: u128)
    requires
        table.contains_key(key),
    ensures
        crate::rate_limit::swept(table, now, window).contains_key(key) <==> exists|i: int|
            0 <= i < table[key].len() && now - #[trigger] table[key][i] <= window,
{
    let hits = table[key];
    let k = lemma_pruned_is_suffix(hits, now, window);
    if k < hits.len() {
        assert(now - hits[k] <= window);
    } else if exists|i: int| 0 <= i < hits.len() && now - #[trigger] hits[i] <= window {
        let i = choose|i: int| 0 <= i < hits.len() && now - #[trigger] hits[i] <= window;
        assert(crate::rate_limit::elapsed(now, hits[i]) > window);
    }
}

/// Idle addresses hold no memory: once a window has passed since the last sweep, an attempt
/// leaves in the table no other address than those with an attempt in the window, and keeps
/// all of these.
pub proof fn idle_addresses_are_forgotten(m: LimiterModel, ip: IpAddr, now: u128, other: IpAddr)
    requires
        !m.exempt.contains(ip),
        now - m.last_sweep >= m.window,
        other != ip,
    ensures
        m.after(ip, now).tracks(other) <==> exists|i: int|
            0 <= i < m.hits(other).len() && now - #[trigger] m.hits(other)[i] <= m.window,
        m.after(ip, now).last_sweep == now,
{
    let due = m.sweep(now);
    assert(m.sweep_if_due(now) == due);
    let key = crate::rate_limit::family_key(other);
    if m.tracks(other) {
        lemma_swept_keeps(m.family(other), now, m.window, key);
    }
    lemma_swept_account(m, other, now, now);
    lemma_swept_account(due, other, now, now);
    lemma_pruned_twice(m.hits(other), now, now, m.window);
    if due.tracks(other) {
        lemma_swept_keeps(due.family(other), now, m.window, key);
        let k = lemma_pruned_is_suffix(m.hits(other), now, m.window);
        assert(due.hits(other)[0] == m.hits(other)[k]);
        assert(now - due.hits(other)[0] <= m.window);
    }
}

/// A table whose addresses all have an attempt in the window loses none of them by a sweep.
proof fn lemma_swept_live(table: Map<u128, Seq<u128>>, now: u128, window: u128)
    requires
        forall|k: u128| #[trigger]
            table.contains_key(k) ==> exists|i: int|
                0 <= i < table[k].len() && now - #[trigger] table[k][i] <= window,
    ensures
        crate::rate_limit::swept(table, now, window).dom() == table.dom(),
        forall|k: u128| #[trigger]
            table.contains_key(k) ==> exists|i: int|
                0 <= i < crate::rate_limit::swept(table, now, window)[k].len() && now
                    - #[trigger] crate::rate_limit::swept(table, now, window)[k][i] <= window,
{
    let after = crate::rate_limit::swept(table, now, window);
    assert forall|k: u128| #[trigger] table.contains_key(k) implies after.contains_key(k) && exists|
        i: int,
    |
        0 <= i < after[k].len() && now - #[trigger] after[k][i] <= window by {
        lemma_swept_keeps(table, now, window, k);
        let n = lemma_pruned_is_suffix(table[k], now, window);
        assert(after[k][0] == table[k][n]);
        assert(now - after[k][0] <= window);
    }
    assert(after.dom() =~= table.dom());
}

/// A full table refuses the strangers: an address that is not in the table is refused while
/// the table holds as many addresses as it may, each with an attempt in the window.
pub proof fn full_table_refuses_strangers(m: LimiterModel, ip: IpAddr, now: u128)
    requires
        !m.exempt.contains(ip),
        !m.tracks(ip),
        m.v4.len() + m.v6.len() >= m.max_tracked_ips,
        forall|k: u128| #[trigger]
            m.v4.contains_key(k) ==> exists|i: int|
                0 <= i < m.v4[k].len() && now - #[trigger] m.v4[k][i] <= m.window,
        forall|k: u128| #[trigger]
            m.v6.contains_key(k) ==> exists|i: int|
                0 <= i < m.v6[k].len() && now - #[trigger] m.v6[k][i] <= m.window,
    ensures
        !m.admits(ip, now),
{
    let due = m.sweep_if_due(now);
    lemma_swept_live(m.v4, now, m.window);
    lemma_swept_live(m.v6, now, m.window);
    assert(due.v4.dom() == m.v4.dom() && due.v6.dom() == m.v6.dom());
    assert forall|k: u128| #[trigger] due.v4.contains_key(k) implies exists|i: int|
        0 <= i < due.v4[k].len() && now - #[trigger] due.v4[k][i] <= m.window by {
        assert(m.v4.contains_key(k));
    }
    assert forall|k: u128| #[trigger] due.v6.contains_key(k) implies exists|i: int|
        0 <= i < due.v6[k].len() && now - #[trigger] due.v6[k][i] <= m.window by {
        assert(m.v6.contains_key(k));
    }
    lemma_swept_live(due.v4, now, m.window);
    lemma_swept_live(due.v6, now, m.window);
}

/// A stranger is refused for want of room only if, after a sweep, the table still holds as many
/// addresses as it may: where an entry of the table is idle, there is room.
pub proof fn idle_entry_makes_room(m: LimiterModel, ip: IpAddr, now: u128, idle: IpAddr)
    requires
        !m.exempt.contains(ip),
        !m.tracks(ip),
        m.max_per_window > 0,
        m.v4.dom().finite(),
        m.v6.dom().finite(),
        m.v4.len() + m.v6.len() <= m.max_tracked_ips,
        m.tracks(idle),
        forall|i: int| 0 <= i < m.hits(idle).len() ==> now - #[trigger] m.hits(idle)[i] > m.window,
    ensures
        m.admits(ip, now),
{
    let due = m.sweep_if_due(now);
    let key = crate::rate_limit::family_key(idle);
    lemma_sweep_shrinks(m.v4, now, m.window);
    lemma_sweep_shrinks(m.v6, now, m.window);
    lemma_sweep_shrinks(due.v4, now, m.window);
    lemma_sweep_shrinks(due.v6, now, m.window);
    lemma_swept_keeps(m.family(idle), now, m.window, key);
    assert(m.hits(idle) == m.family(idle)[key]);
    assert forall|i: int| 0 <= i < m.family(idle)[key].len() implies now
        - #[trigger] m.family(idle)[key][i] > m.window by {
        assert(m.hits(idle)[i] == m.family(idle)[key][i]);
    }
    lemma_sweep_frees(m.family(idle), key, now, m.window);
    lemma_swept_account(m, ip, now, now);
    lemma_swept_account(due, ip, now, now);
    assert(m.hits(ip) =~= Seq::<u128>::empty());
    assert(crate::rate_limit::pruned(m.hits(ip), now, m.window).len() == 0);
}

/// A new limiter has seen no attempt, has room for a hundred thousand addresses, and exempts
/// those it was given.
pub proof fn new_limiter_has_seen_no_attempt(
    max_per_window: u32,
    window: u128,
    exempt: Set<IpAddr>,
    ip: IpAddr,
    now: u128,
)
    ensures
        ({
            let m = crate::rate_limit::fresh_limiter(max_per_window, window, exempt);
            &&& m.max_per_window == max_per_window
            &&& m.window == window
            &&& m.exempt == exempt
            &&& m.max_tracked_ips == 100_000
            &&& !m.tracks(ip)
            &&& m.hits(ip).len() == 0
            &&& m.table_size() == 0
            &&& m.admits(ip, now) <==> exempt.contains(ip) || max_per_window > 0
        }),
{
    let m = crate::rate_limit::fresh_limiter(max_per_window, window, exempt);
    lemma_room(m, ip, now);
    let due = m.sweep_if_due(now);
    lemma_swept_account(m, ip, now, now);
    lemma_swept_account(due, ip, now, now);
    assert(crate::rate_limit::pruned(m.hits(ip), now, m.window).len() == 0);
}

/// Addresses are accounted each on its own: the numbers of an IPv4 address and of an IPv6
/// address never share an account, nor do two addresses of one family.
pub proof fn accounts_belong_to_one_address(m: LimiterModel, ip: IpAddr, hits: Seq<u128>, other: IpAddr)
    requires
        ip != other,
    ensures
        m.with_hits(ip, hits).tracks(ip),
        m.with_hits(ip, hits).hits(ip) == hits,
        m.with_hits(ip, hits).tracks(other) == m.tracks(other),
        m.with_hits(ip, hits).hits(other) == m.hits(other),
{
}

} // verus!
