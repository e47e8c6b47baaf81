//! Rate limiting of inbound connections by IP address.
//!
//! The check applies to a connection that is still pending, before the Noise
//! handshake: an address above its rate is refused without any cryptographic
//! work and without a byte of answer.
//!
//! The account is a sliding window per address: at most `max_per_window`
//! connections accepted per window. Refused attempts do not count. The table is
//! swept from time to time so that idle addresses hold no memory, and its size
//! is capped ([`MAX_TRACKED_IPS`]) so that a scan of source addresses cannot
//! make it grow.
//!
//! Times are nanoseconds since the creation of the limiter.

pub mod laws;

use std::collections::{HashMap, HashSet, VecDeque};
use std::time::Instant;
use vstd::prelude::*;
use crate::addr::{ip_of, IpAddr, Multiaddr};

verus! {

broadcast use vstd::std_specs::hash::group_hash_axioms;

/// Connections accepted per address and per window, by default.
pub const DEFAULT_MAX_PER_WINDOW: u32 = 30;

/// Sliding window by default, in nanoseconds (60 s).
pub const DEFAULT_WINDOW: u128 = 60_000_000_000;

/// How many addresses are tracked at once. Beyond it, unknown addresses are
/// refused.
pub const MAX_TRACKED_IPS: usize = 100_000;

/// A reading of the monotonic clock (`std::time::Instant`).
#[verifier::external_type_specification]
#[verifier::external_body]
pub struct ExInstant(std::time::Instant);

/// `std::time::Instant::now`. Nothing is claimed of the reading: it is the time.
#[verifier::external_body]
fn instant_now() -> (r: Instant) {
    Instant::now()
}

/// `std::time::Instant::elapsed`, in nanoseconds. Nothing is claimed of the
/// value: it is the time.
#[verifier::external_body]
fn nanos_since(origin: &Instant) -> (r: u128) {
    origin.elapsed().as_nanos()
}

/// The time from `t` to `now`, zero if `t` is later.
pub open spec fn elapsed(now: u128, t: u128) -> int {
    if now >= t {
        now - t
    } else {
        0
    }
}

/// What stays of the accepted attempts of an address: those that left the
/// window are dropped from the oldest on.
pub open spec fn pruned(hits: Seq<u128>, now: u128, window: u128) -> Seq<u128>
    decreases hits.len(),
{
    if hits.len() > 0 && elapsed(now, hits[0]) > window {
        pruned(hits.skip(1), now, window)
    } else {
        hits
    }
}

/// A table after a sweep: the addresses without an attempt in the window are
/// forgotten.
pub open spec fn swept(table: Map<u128, Seq<u128>>, now: u128, window: u128) -> Map<
    u128,
    Seq<u128>,
> {
    Map::new(
        |k: u128| table.contains_key(k) && pruned(table[k], now, window).len() > 0,
        |k: u128| pruned(table[k], now, window),
    )
}

/// Drops the attempts that left the window.
fn prune(hits: &mut VecDeque<u128>, now: u128, window: u128)
    ensures
        final(hits)@ == pruned(old(hits)@, now, window),
{
    let ghost before = hits@;
    while hits.len() > 0 && now.saturating_sub(hits[0]) > window
        invariant
            pruned(before, now, window) == pruned(hits@, now, window),
        decreases hits@.len(),
    {
        let ghost current = hits@;
        hits.pop_front();
        assert(hits@ =~= current.skip(1));
    }
}

/// Accepted attempts of the addresses of one family.
struct HitTable {
    map: HashMap<u128, VecDeque<u128>>,
}

impl View for HitTable {
    type V = Map<u128, Seq<u128>>;

    closed spec fn view(&self) -> Map<u128, Seq<u128>> {
        self.map@.map_values(|hits: VecDeque<u128>| hits@)
    }
}

impl HitTable {
    fn new() -> (r: Self)
        ensures
            r@ == Map::<u128, Seq<u128>>::empty(),
    {
        let r = HitTable { map: HashMap::new() };
        assert(r@ =~= Map::<u128, Seq<u128>>::empty());
        r
    }

    fn len(&self) -> (r: usize)
        ensures
            r == self@.len(),
            self@.dom().finite(),
    {
        assert(self@.dom() =~= self.map@.dom());
        self.map.len()
    }

    fn contains(&self, key: u128) -> (r: bool)
        ensures
            r == self@.contains_key(key),
    {
        self.map.contains_key(&key)
    }

    /// Takes the attempts of an address out of the table.
    fn take(&mut self, key: u128) -> (r: VecDeque<u128>)
        ensures
            r@ == if old(self)@.contains_key(key) {
                old(self)@[key]
            } else {
                Seq::<u128>::empty()
            },
            final(self)@ == old(self)@.remove(key),
    {
        let ghost before = self@;
        let taken = self.map.remove(&key);
        assert(self@ =~= before.remove(key));
        match taken {
            Some(hits) => hits,
            None => VecDeque::new(),
        }
    }

    /// Sets the attempts of an address.
    fn put(&mut self, key: u128, hits: VecDeque<u128>)
        ensures
            final(self)@ == old(self)@.insert(key, hits@),
    {
        let ghost before = self@;
        let ghost content = hits@;
        self.map.insert(key, hits);
        assert(self@ =~= before.insert(key, content));
    }

    fn keys(&self) -> (r: Vec<u128>)
        ensures
            forall|k: u128| self@.contains_key(k) <==> #[trigger] r@.contains(k),
            r@.no_duplicates(),
    {
        let mut out: Vec<u128> = Vec::new();
        for k in it: self.map.keys()
            invariant
                out@ == it.seq().unref().take(it.index()),
                it.seq().unref().to_set() == self.map@.dom(),
                it.seq().unref().no_duplicates(),
                it.index() == it.seq().len() ==> out@ == it.seq().unref(),
        {
            out.push(*k);
            assert(out@ =~= it.seq().unref().take(it.index() + 1));
        }
        assert(out@.to_set() == self.map@.dom());
        assert forall|k: u128| self@.contains_key(k) <==> #[trigger] out@.contains(k) by {
            assert(out@.to_set().contains(k) <==> out@.contains(k));
        }
        out
    }

    /// Forgets the addresses without an attempt in the window.
    fn sweep(&mut self, now: u128, window: u128)
        ensures
            final(self)@ == swept(old(self)@, now, window),
    {
        let ghost before = self@;
        let keys = self.keys();
        assert forall|j: int| 0 <= j < keys@.len() implies self@.contains_key(
            #[trigger] keys@[j],
        ) by {
            assert(keys@.contains(keys@[j]));
        }
        let mut i: usize = 0;
        while i < keys.len()
            invariant
                i <= keys@.len(),
                keys@.no_duplicates(),
                forall|k: u128| before.contains_key(k) <==> #[trigger] keys@.contains(k),
                forall|k: u128| #[trigger]
                    self@.contains_key(k) ==> before.contains_key(k),
                forall|j: int|
                    i <= j < keys@.len() ==> self@.contains_key(#[trigger] keys@[j])
                        && self@[keys@[j]] == before[keys@[j]],
                forall|j: int|
                    0 <= j < i ==> {
                        let p = pruned(before[#[trigger] keys@[j]], now, window);
                        &&& self@.contains_key(keys@[j]) <==> p.len() > 0
                        &&& self@.contains_key(keys@[j]) ==> self@[keys@[j]] == p
                    },
            decreases keys@.len() - i,
        {
            let key: u128 = keys[i];
            assert(keys@.contains(key));
            let mut hits = self.take(key);
            prune(&mut hits, now, window);
            if hits.len() > 0 {
                self.put(key, hits);
            }
            i += 1;
        }
        assert(self@ =~= swept(before, now, window)) by {
            assert forall|k: u128| self@.contains_key(k) <==> swept(
                before,
                now,
                window,
            ).contains_key(k) by {
                if before.contains_key(k) {
                    assert(keys@.contains(k));
                    let j = choose|j: int| 0 <= j < keys@.len() && keys@[j] == k;
                    assert(keys@[j] == k);
                }
            }
            assert forall|k: u128| self@.contains_key(k) implies self@[k] == swept(
                before,
                now,
                window,
            )[k] by {
                assert(keys@.contains(k));
                let j = choose|j: int| 0 <= j < keys@.len() && keys@[j] == k;
                assert(keys@[j] == k);
            }
        }
    }
}

/// The number under which an address is tracked in its family.
pub open spec fn family_key(ip: IpAddr) -> u128 {
    match ip {
        IpAddr::V4(a) => a as u128,
        IpAddr::V6(a) => a,
    }
}

/// State of a [`RateLimiter`].
#[verifier::ext_equal]
pub struct LimiterModel {
    /// Connections accepted per address and per window.
    pub max_per_window: u32,
    /// Sliding window, in nanoseconds.
    pub window: u128,
    /// How many addresses are tracked at most.
    pub max_tracked_ips: nat,
    /// Accepted attempts of the IPv4 addresses.
    pub v4: Map<u128, Seq<u128>>,
    /// Accepted attempts of the IPv6 addresses.
    pub v6: Map<u128, Seq<u128>>,
    /// Addresses never limited.
    pub exempt: Set<IpAddr>,
    /// Time of the last sweep.
    pub last_sweep: u128,
}

impl LimiterModel {
    /// The accepted attempts of the addresses of a family.
    pub open spec fn family(self, ip: IpAddr) -> Map<u128, Seq<u128>> {
        match ip {
            IpAddr::V4(_) => self.v4,
            IpAddr::V6(_) => self.v6,
        }
    }

    /// Whether an address is tracked.
    pub open spec fn tracks(self, ip: IpAddr) -> bool {
        self.family(ip).contains_key(family_key(ip))
    }

    /// The accepted attempts of an address, oldest first.
    pub open spec fn hits(self, ip: IpAddr) -> Seq<u128> {
        if self.tracks(ip) {
            self.family(ip)[family_key(ip)]
        } else {
            Seq::empty()
        }
    }

    /// Sets the accepted attempts of an address.
    pub open spec fn with_hits(self, ip: IpAddr, hits: Seq<u128>) -> LimiterModel {
        match ip {
            IpAddr::V4(_) => LimiterModel { v4: self.v4.insert(family_key(ip), hits), ..self },
            IpAddr::V6(_) => LimiterModel { v6: self.v6.insert(family_key(ip), hits), ..self },
        }
    }

    /// How many addresses are tracked.
    pub open spec fn table_size(self) -> nat {
        self.v4.len() + self.v6.len()
    }

    /// The state after a sweep.
    pub open spec fn sweep(self, now: u128) -> LimiterModel {
        LimiterModel {
            v4: swept(self.v4, now, self.window),
            v6: swept(self.v6, now, self.window),
            last_sweep: now,
            ..self
        }
    }

    /// The state after the sweep that is due once per window.
    pub open spec fn sweep_if_due(self, now: u128) -> LimiterModel {
        if elapsed(now, self.last_sweep) >= self.window {
            self.sweep(now)
        } else {
            self
        }
    }

    /// The state in which an attempt is counted: the sweep that is due, and one
    /// more if the table is full and the address unknown.
    pub open spec fn ready(self, ip: IpAddr, now: u128) -> LimiterModel {
        let due = self.sweep_if_due(now);
        if !due.tracks(ip) && due.table_size() >= due.max_tracked_ips {
            due.sweep(now)
        } else {
            due
        }
    }

    /// Whether the table has no room for the address.
    pub open spec fn full(self, ip: IpAddr, now: u128) -> bool {
        let due = self.sweep_if_due(now);
        !due.tracks(ip) && due.table_size() >= due.max_tracked_ips && due.sweep(now).table_size()
            >= self.max_tracked_ips
    }

    /// Whether an attempt of `ip` at `now` is admitted.
    pub open spec fn admits(self, ip: IpAddr, now: u128) -> bool {
        ||| self.exempt.contains(ip)
        ||| !self.full(ip, now) && pruned(
            self.ready(ip, now).hits(ip),
            now,
            self.window,
        ).len() < self.max_per_window
    }

    /// The state after an attempt of `ip` at `now`.
    pub open spec fn after(self, ip: IpAddr, now: u128) -> LimiterModel {
        if self.exempt.contains(ip) {
            self
        } else {
            let ready = self.ready(ip, now);
            let kept = pruned(ready.hits(ip), now, self.window);
            if self.full(ip, now) {
                ready
            } else if kept.len() < self.max_per_window {
                ready.with_hits(ip, kept.push(now))
            } else {
                ready.with_hits(ip, kept)
            }
        }
    }
}

/// Sliding-window limiter by IP address.
pub struct RateLimiter {
    max_per_window: u32,
    window: u128,
    max_tracked_ips: usize,
    v4: HitTable,
    v6: HitTable,
    exempt_v4: HashSet<u128>,
    exempt_v6: HashSet<u128>,
    last_sweep: u128,
    origin: Instant,
}

impl View for RateLimiter {
    type V = LimiterModel;

    closed spec fn view(&self) -> LimiterModel {
        LimiterModel {
            max_per_window: self.max_per_window,
            window: self.window,
            max_tracked_ips: self.max_tracked_ips as nat,
            v4: self.v4@,
            v6: self.v6@,
            exempt: Set::new(
                |ip: IpAddr|
                    match ip {
                        IpAddr::V4(a) => self.exempt_v4@.contains(a as u128),
                        IpAddr::V6(a) => self.exempt_v6@.contains(a),
                    },
            ),
            last_sweep: self.last_sweep,
        }
    }
}

impl RateLimiter {
    /// New limiter: at most `max_per_window` connections accepted per address
    /// over any sliding window of `window` nanoseconds.
    pub fn new(max_per_window: u32, window: u128) -> (r: Self)
        ensures
            r@ == fresh_limiter(max_per_window, window, Set::empty()),
    {
        let r = RateLimiter {
            max_per_window,
            window,
            max_tracked_ips: MAX_TRACKED_IPS,
            v4: HitTable::new(),
            v6: HitTable::new(),
            exempt_v4: HashSet::new(),
            exempt_v6: HashSet::new(),
            last_sweep: 0,
            origin: instant_now(),
        };
        assert(r@.exempt =~= Set::<IpAddr>::empty());
        r
    }

    /// Exempts a trusted address from any limit: it is never counted, never
    /// refused, and takes no entry in the table.
    pub fn exempt(&mut self, ip: IpAddr) -> (r: &mut Self)
        ensures
            r@ == (LimiterModel { exempt: old(self)@.exempt.insert(ip), ..old(self)@ }),
            *final(self) == *final(r),
    {
        let ghost before = self@;
        match ip {
            IpAddr::V4(a) => {
                self.exempt_v4.insert(a as u128);
            },
            IpAddr::V6(a) => {
                self.exempt_v6.insert(a);
            },
        }
        assert(self@.exempt =~= before.exempt.insert(ip));
        self
    }

    /// Sets how many addresses are tracked at most.
    pub fn set_max_tracked_ips(&mut self, max: usize)
        ensures
            final(self)@ == (LimiterModel { max_tracked_ips: max as nat, ..old(self)@ }),
    {
        self.max_tracked_ips = max;
    }

    /// How many addresses are tracked.
    pub fn tracked_ips(&self) -> (r: u128)
        ensures
            r == self@.table_size(),
    {
        self.v4.len() as u128 + self.v6.len() as u128
    }

    /// Whether an address is tracked.
    pub fn tracks(&self, ip: IpAddr) -> (r: bool)
        ensures
            r == self@.tracks(ip),
    {
        match ip {
            IpAddr::V4(a) => self.v4.contains(a as u128),
            IpAddr::V6(a) => self.v6.contains(a),
        }
    }

    fn is_exempt(&self, ip: IpAddr) -> (r: bool)
        ensures
            r == self@.exempt.contains(ip),
    {
        match ip {
            IpAddr::V4(a) => self.exempt_v4.contains(&(a as u128)),
            IpAddr::V6(a) => self.exempt_v6.contains(&a),
        }
    }

    fn table_is_full(&self) -> (r: bool)
        ensures
            r == (self@.table_size() >= self@.max_tracked_ips),
    {
        let a: usize = self.v4.len();
        let b: usize = self.v6.len();
        a as u128 + b as u128 >= self.max_tracked_ips as u128
    }

    /// Records an attempt of `ip` and tells whether it is admitted. The outcome
    /// is that of [`RateLimiter::allow_at`] at some time.
    pub fn allow(&mut self, ip: IpAddr) -> (r: bool)
        ensures
            exists|now: u128|
                final(self)@ == #[trigger] old(self)@.after(ip, now) && r == old(self)@.admits(
                    ip,
                    now,
                ),
    {
        let now: u128 = nanos_since(&self.origin);
        self.allow_at(ip, now)
    }

    /// Records an attempt of `ip` at a given time and tells whether it is
    /// admitted.
    pub fn allow_at(&mut self, ip: IpAddr, now: u128) -> (r: bool)
        ensures
            final(self)@ == old(self)@.after(ip, now),
            r == old(self)@.admits(ip, now),
    {
        let ghost before = self@;
        if self.is_exempt(ip) {
            return true;
        }
        if now.saturating_sub(self.last_sweep) >= self.window {
            self.sweep(now);
        }
        assert(self@ == before.sweep_if_due(now));
        // The table is full and the address unknown: one last sweep, then a
        // refusal if nothing was freed. Tracked addresses are still served.
        if !self.tracks(ip) && self.table_is_full() {
            self.sweep(now);
            if self.table_is_full() {
                return false;
            }
        }
        let ghost ready = self@;
        assert(ready == before.ready(ip, now));
        assert(!before.full(ip, now));
        let window: u128 = self.window;
        let mut hits = match ip {
            IpAddr::V4(a) => self.v4.take(a as u128),
            IpAddr::V6(a) => self.v6.take(a),
        };
        assert(hits@ == ready.hits(ip));
        prune(&mut hits, now, window);
        let admitted = (hits.len() as u64) < self.max_per_window as u64;
        if admitted {
            hits.push_back(now);
        }
        let ghost content = hits@;
        match ip {
            IpAddr::V4(a) => {
                self.v4.put(a as u128, hits);
                assert(self@.v4 =~= ready.with_hits(ip, content).v4);
            },
            IpAddr::V6(a) => {
                self.v6.put(a, hits);
                assert(self@.v6 =~= ready.with_hits(ip, content).v6);
            },
        }
        assert(self@ =~= ready.with_hits(ip, content));
        admitted
    }

    /// Forgets the addresses without an attempt in the window.
    fn sweep(&mut self, now: u128)
        ensures
            final(self)@ == old(self)@.sweep(now),
    {
        let window: u128 = self.window;
        self.v4.sweep(now, window);
        self.v6.sweep(now, window);
        self.last_sweep = now;
    }
}

/// Refusal of a connection, for the local log only: the peer sees no more than a closed
/// connection.
#[derive(Debug, Clone, Copy, PartialEq, Eq, Structural)]
pub struct RateExceeded {
    /// Address above its rate.
    pub ip: IpAddr,
}

/// The address to which a limit applies: the first IP address of a multiaddr. Without
/// one there is nothing to limit.
pub open spec fn limited_ip(remote: Seq<u8>) -> Option<IpAddr> {
    crate::addr::first_ip(crate::addr::multiaddr_components(remote)->0)
}

/// Applies a [`RateLimiter`] to the inbound connections of a node.
pub struct Behaviour {
    limiter: RateLimiter,
}

impl View for Behaviour {
    type V = LimiterModel;

    closed spec fn view(&self) -> LimiterModel {
        self.limiter@
    }
}

impl Behaviour {
    /// New behaviour at the given rate.
    pub fn new(max_per_window: u32, window: u128) -> (r: Self)
        ensures
            r@ == fresh_limiter(max_per_window, window, Set::empty()),
    {
        Behaviour { limiter: RateLimiter::new(max_per_window, window) }
    }

    /// New behaviour at the given rate, with trusted addresses exempt from any limit.
    pub fn with_exemptions(max_per_window: u32, window: u128, exempt: Vec<IpAddr>) -> (r: Self)
        ensures
            r@ == fresh_limiter(max_per_window, window, exempt@.to_set()),
    {
        let mut limiter = RateLimiter::new(max_per_window, window);
        let mut i: usize = 0;
        assert(exempt@.take(0).to_set() =~= Set::<IpAddr>::empty());
        while i < exempt.len()
            invariant
                i <= exempt@.len(),
                limiter@ == fresh_limiter(
                    max_per_window,
                    window,
                    exempt@.take(i as int).to_set(),
                ),
            decreases exempt@.len() - i,
        {
            limiter.exempt(exempt[i]);
            proof {
                let before = exempt@.take(i as int);
                let after = exempt@.take(i + 1);
                assert(after =~= before.push(exempt@[i as int]));
                assert(after.to_set() =~= before.to_set().insert(exempt@[i as int])) by {
                    assert forall|ip: IpAddr| after.contains(ip) <==> before.contains(ip) || ip
                        == exempt@[i as int] by {
                        if before.contains(ip) {
                            let j = choose|j: int| 0 <= j < before.len() && before[j] == ip;
                            assert(after[j] == ip);
                        }
                        assert(after[i as int] == exempt@[i as int]);
                    }
                }
            }
            i += 1;
        }
        assert(exempt@.take(exempt@.len() as int) =~= exempt@);
        Behaviour { limiter }
    }

    /// Decides on an inbound connection that is still pending. The outcome is that of
    /// [`Behaviour::handle_pending_inbound_connection_at`] at some time.
    pub fn handle_pending_inbound_connection(&mut self, remote: &Multiaddr) -> (r:
        core::result::Result<(), RateExceeded>)
        ensures
            exists|now: u128| #[trigger]
                connection_decided(old(self)@, remote@, now, final(self)@, r),
    {
        let now: u128 = nanos_since(&self.limiter.origin);
        let r = self.handle_pending_inbound_connection_at(remote, now);
        assert(connection_decided(old(self)@, remote@, now, self@, r));
        r
    }

    /// Decides on an inbound connection that is still pending, at a given time: one
    /// without an IP address is accepted, any other counts as an attempt of its address.
    pub fn handle_pending_inbound_connection_at(&mut self, remote: &Multiaddr, now: u128) -> (r:
        core::result::Result<(), RateExceeded>)
        ensures
            connection_decided(old(self)@, remote@, now, final(self)@, r),
    {
        match ip_of(remote) {
            None => Ok(()),
            Some(ip) => {
                if self.limiter.allow_at(ip, now) {
                    Ok(())
                } else {
                    Err(RateExceeded { ip })
                }
            },
        }
    }
}

/// A limiter that has seen no attempt.
pub open spec fn fresh_limiter(
    max_per_window: u32,
    window: u128,
    exempt: Set<IpAddr>,
) -> LimiterModel {
    LimiterModel {
        max_per_window,
        window,
        max_tracked_ips: MAX_TRACKED_IPS as nat,
        v4: Map::empty(),
        v6: Map::empty(),
        exempt,
        last_sweep: 0,
    }
}

/// What is decided on a pending connection from `remote` at `now`.
pub open spec fn connection_decided(
    before: LimiterModel,
    remote: Seq<u8>,
    now: u128,
    after: LimiterModel,
    r: core::result::Result<(), RateExceeded>,
) -> bool {
    match limited_ip(remote) {
        None => after == before && r is Ok,
        Some(ip) => {
            &&& after == before.after(ip, now)
            &&& r == if before.admits(ip, now) {
                Ok(())
            } else {
                Err(RateExceeded { ip })
            }
        },
    }
}

} // verus!
