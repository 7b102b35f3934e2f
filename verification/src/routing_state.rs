//! In-process routing state of the gateway: per-route failure tracking
//! with a cool-down blacklist, and sticky session-to-route bindings.
//!
//! Time is a monotonic millisecond reading supplied by the caller.
use vstd::prelude::*;
use crate::assoc::{AssocMap, ViewEq};

verus! {

/// Consecutive failures after which a route is blacklisted.
pub const FAILURE_THRESHOLD: u32 = 3;

/// How long a blacklisted route stays out of rotation, in milliseconds.
pub const COOLDOWN: u64 = 30_000;

/// How long an idle session binding lives, in milliseconds.
pub const BINDING_TTL: u64 = 1_800_000;

#[derive(Debug, Clone, Copy, Default)]
pub struct ProviderHealth {
    pub consecutive_failures: u32,
    pub blacklisted_until: Option<u64>,
}

impl View for ProviderHealth {
    type V = (u32, Option<u64>);

    open spec fn view(&self) -> (u32, Option<u64>) {
        (self.consecutive_failures, self.blacklisted_until)
    }
}

#[derive(Debug)]
pub struct SessionBinding {
    pub route_id: String,
    pub last_used: u64,
}

impl View for SessionBinding {
    type V = (Seq<char>, u64);

    open spec fn view(&self) -> (Seq<char>, u64) {
        (self.route_id@, self.last_used)
    }
}

/// Per-route health and per-session bindings. Times are milliseconds on a
/// monotonic clock that the caller reads (an `Instant` is opaque here), so
/// every cool-down and expiry below is a statement about numbers.
pub struct GatewayRoutingState {
    health: AssocMap<String, ProviderHealth>,
    bindings: AssocMap<String, SessionBinding>,
}

/// `Instant::duration_since`, which saturates at zero.
pub open spec fn elapsed(now: u64, then: u64) -> int {
    if now >= then {
        now - then
    } else {
        0
    }
}

/// The route is in its cool-down period at `now`.
pub open spec fn health_blacklisted(h: Option<(u32, Option<u64>)>, now: u64) -> bool {
    match h {
        Some((_, Some(until))) => now < until,
        _ => false,
    }
}

/// The health of a route after one more failure at `now`.
pub open spec fn after_failure(h: Option<(u32, Option<u64>)>, now: u64) -> (u32, Option<u64>) {
    let (failures, until) = match h {
        Some(v) => v,
        None => (0u32, None),
    };
    let n: u32 = if failures == u32::MAX { u32::MAX } else { (failures + 1) as u32 };
    if n >= FAILURE_THRESHOLD {
        (n, Some((now + COOLDOWN) as u64))
    } else {
        (n, until)
    }
}

/// The binding is still alive at `now`.
pub open spec fn binding_alive(b: (Seq<char>, u64), now: u64) -> bool {
    elapsed(now, b.1) <= BINDING_TTL
}

/// The entry of a route in a health table.
pub open spec fn health_entry(m: Map<Seq<char>, (u32, Option<u64>)>, route: Seq<char>) -> Option<(u32, Option<u64>)> {
    if m.contains_key(route) {
        Some(m[route])
    } else {
        None
    }
}

/// One outcome reported for a route: a failure at the given time, or a
/// success (`None`).
pub type HealthEvent = (Seq<char>, Option<u64>);

/// The health table after one reported outcome.
pub open spec fn health_step(m: Map<Seq<char>, (u32, Option<u64>)>, e: HealthEvent) -> Map<Seq<char>, (u32, Option<u64>)> {
    match e.1 {
        Some(at) => m.insert(e.0, after_failure(health_entry(m, e.0), at)),
        None => if m.contains_key(e.0) {
            m.insert(e.0, (0u32, None))
        } else {
            m
        },
    }
}

/// The health table after a run of outcomes, starting from an empty one.
pub open spec fn replay_health(events: Seq<HealthEvent>) -> Map<Seq<char>, (u32, Option<u64>)>
    decreases events.len(),
{
    if events.len() == 0 {
        Map::empty()
    } else {
        health_step(replay_health(events.drop_last()), events.last())
    }
}

/// The failures of `route` since its last success (or since the start).
pub open spec fn trailing_failures(events: Seq<HealthEvent>, route: Seq<char>) -> nat
    decreases events.len(),
{
    if events.len() == 0 {
        0
    } else if events.last().0 == route {
        match events.last().1 {
            Some(_) => trailing_failures(events.drop_last(), route) + 1,
            None => 0,
        }
    } else {
        trailing_failures(events.drop_last(), route)
    }
}

/// The time of the last failure reported for `route` (0 when there is none).
pub open spec fn last_failure_at(events: Seq<HealthEvent>, route: Seq<char>) -> u64
    decreases events.len(),
{
    if events.len() == 0 {
        0
    } else if events.last().0 == route && events.last().1 is Some {
        events.last().1->0
    } else {
        last_failure_at(events.drop_last(), route)
    }
}

/// Every failure time leaves room for the cool-down.
pub open spec fn times_fit(events: Seq<HealthEvent>) -> bool {
    forall|i: int| 0 <= i < events.len() ==> match #[trigger] events[i].1 {
        Some(at) => at <= u64::MAX - COOLDOWN,
        None => true,
    }
}

impl GatewayRoutingState {
    pub closed spec fn wf(&self) -> bool {
        self.health.wf() && self.bindings.wf()
    }

    /// Route id → (consecutive failures, blacklisted until).
    pub closed spec fn health_view(&self) -> Map<Seq<char>, (u32, Option<u64>)> {
        self.health.view()
    }

    /// Session id → (route id, last used).
    pub closed spec fn bindings_view(&self) -> Map<Seq<char>, (Seq<char>, u64)> {
        self.bindings.view()
    }

    pub open spec fn health_of(&self, route_id: Seq<char>) -> Option<(u32, Option<u64>)> {
        if self.health_view().contains_key(route_id) {
            Some(self.health_view()[route_id])
        } else {
            None
        }
    }

    /// Whether the route is blacklisted at `now`.
    pub fn is_blacklisted(&self, route_id: &str, now: u64) -> (r: bool)
        requires
            self.wf(),
        ensures
            r == health_blacklisted(self.health_of(route_id@), now),
    {
        let key = String::from_str(route_id);
        match self.health.get(&key) {
            Some(h) => match h.blacklisted_until {
                Some(until) => now < until,
                None => false,
            },
            None => false,
        }
    }

    /// A success clears the failure count and lifts the blacklist.
    pub fn record_success(&mut self, route_id: &str)
        requires
            old(self).wf(),
        ensures
            final(self).wf(),
            final(self).bindings_view() == old(self).bindings_view(),
            final(self).health_view() == if old(self).health_view().contains_key(route_id@) {
                old(self).health_view().insert(route_id@, (0u32, None))
            } else {
                old(self).health_view()
            },
            final(self).health_view() == health_step(old(self).health_view(), (route_id@, None)),
    {
        let key = String::from_str(route_id);
        if self.health.contains_key(&key) {
            self.health.insert(key, ProviderHealth { consecutive_failures: 0, blacklisted_until: None });
        }
    }

    /// A failure counts up; at the threshold the route is blacklisted for
    /// the cool-down period.
    pub fn record_failure(&mut self, route_id: &str, now: u64)
        requires
            old(self).wf(),
            now <= u64::MAX - COOLDOWN,
        ensures
            final(self).wf(),
            final(self).bindings_view() == old(self).bindings_view(),
            final(self).health_view() == old(self).health_view().insert(
                route_id@,
                after_failure(old(self).health_of(route_id@), now),
            ),
            final(self).health_view() == health_step(old(self).health_view(), (route_id@, Some(now))),
    {
        let key = String::from_str(route_id);
        let current = match self.health.get(&key) {
            Some(h) => *h,
            None => ProviderHealth { consecutive_failures: 0, blacklisted_until: None },
        };
        let failures = current.consecutive_failures.saturating_add(1);
        let until = if failures >= FAILURE_THRESHOLD {
            Some(now + COOLDOWN)
        } else {
            current.blacklisted_until
        };
        self.health.insert(key, ProviderHealth { consecutive_failures: failures, blacklisted_until: until });
    }

    /// The route bound to the session, when the binding has not expired.
    pub fn binding_for(&self, session_id: &str, now: u64) -> (r: Option<&str>)
        requires
            self.wf(),
        ensures
            match r {
                Some(route) => self.bindings_view().contains_key(session_id@) && binding_alive(
                    self.bindings_view()[session_id@],
                    now,
                ) && route@ == self.bindings_view()[session_id@].0,
                None => !self.bindings_view().contains_key(session_id@) || !binding_alive(
                    self.bindings_view()[session_id@],
                    now,
                ),
            },
    {
        let key = String::from_str(session_id);
        match self.bindings.get(&key) {
            Some(b) => {
                let since = if now >= b.last_used {
                    now - b.last_used
                } else {
                    0
                };
                if since <= BINDING_TTL {
                    Some(b.route_id.as_str())
                } else {
                    None
                }
            },
            None => None,
        }
    }

    /// Binds (or refreshes) the session to the route.
    pub fn bind(&mut self, session_id: &str, route_id: &str, now: u64)
        requires
            old(self).wf(),
        ensures
            final(self).wf(),
            final(self).health_view() == old(self).health_view(),
            final(self).bindings_view() == old(self).bindings_view().insert(session_id@, (route_id@, now)),
    {
        self.bindings.insert(
            String::from_str(session_id),
            SessionBinding { route_id: String::from_str(route_id), last_used: now },
        );
    }

    /// Drops every binding that has expired at `now`.
    pub fn evict_stale(&mut self, now: u64)
        requires
            old(self).wf(),
        ensures
            final(self).wf(),
            final(self).health_view() == old(self).health_view(),
            final(self).bindings_view() == old(self).bindings_view().restrict(
                old(self).bindings_view().dom().filter(
                    |k: Seq<char>| binding_alive(old(self).bindings_view()[k], now),
                ),
            ),
    {
        let mut kept: Vec<(String, SessionBinding)> = Vec::new();
        let n = self.bindings.entries.len();
        let ghost old_s = self.bindings.entries@;
        let mut i: usize = 0;
        while i < n
            invariant
                n == old_s.len(),
                self.bindings.entries@ == old_s,
                crate::assoc::keys_unique(old_s),
                i <= n,
                crate::assoc::keys_unique(kept@),
                forall|j: int| 0 <= j < kept@.len() ==> exists|m: int| 0 <= m < i && #[trigger] kept@[j].0@ == old_s[m].0@ && kept@[j].1@ == old_s[m].1@,
                forall|m: int| 0 <= m < i && binding_alive(old_s[m].1@, now) ==> exists|j: int| 0 <= j < kept@.len() && #[trigger] kept@[j].0@ == old_s[m].0@,
                forall|j: int| 0 <= j < kept@.len() ==> binding_alive(#[trigger] kept@[j].1@, now),
            decreases n - i,
        {
            let b = &self.bindings.entries[i];
            let since = if now >= b.1.last_used {
                now - b.1.last_used
            } else {
                0
            };
            if since <= BINDING_TTL {
                let ghost before = kept@;
                kept.push((b.0.clone(), SessionBinding { route_id: b.1.route_id.clone(), last_used: b.1.last_used }));
                proof {
                    assert forall|j: int| 0 <= j < kept@.len() implies exists|m: int| 0 <= m < i + 1 && #[trigger] kept@[j].0@ == old_s[m].0@ && kept@[j].1@ == old_s[m].1@ by {
                        if j < before.len() {
                            assert(kept@[j] == before[j]);
                        } else {
                            assert(kept@[j].0@ == old_s[i as int].0@);
                        }
                    }
                    assert forall|m: int| 0 <= m < i + 1 && binding_alive(old_s[m].1@, now) implies exists|j: int| 0 <= j < kept@.len() && #[trigger] kept@[j].0@ == old_s[m].0@ by {
                        if m < i {
                            let j = choose|j: int| 0 <= j < before.len() && #[trigger] before[j].0@ == old_s[m].0@;
                            assert(kept@[j] == before[j]);
                        } else {
                            assert(kept@[before.len() as int].0@ == old_s[m].0@);
                        }
                    }
                    assert forall|a: int, c: int| 0 <= a < kept@.len() && 0 <= c < kept@.len() && a != c implies kept@[a].0@ != kept@[c].0@ by {
                        if a < before.len() && c < before.len() {
                            assert(kept@[a] == before[a] && kept@[c] == before[c]);
                        } else if a < before.len() {
                            assert(kept@[a] == before[a]);
                            let m = choose|m: int| 0 <= m < i && #[trigger] before[a].0@ == old_s[m].0@ && before[a].1@ == old_s[m].1@;
                            assert(old_s[m].0@ != old_s[i as int].0@);
                        } else {
                            assert(kept@[c] == before[c]);
                            let m = choose|m: int| 0 <= m < i && #[trigger] before[c].0@ == old_s[m].0@ && before[c].1@ == old_s[m].1@;
                            assert(old_s[m].0@ != old_s[i as int].0@);
                        }
                    }
                    assert forall|j: int| 0 <= j < kept@.len() implies binding_alive(#[trigger] kept@[j].1@, now) by {
                        if j < before.len() {
                            assert(kept@[j] == before[j]);
                        }
                    }
                }
            }
            i += 1;
        }
        let ghost old_map = self.bindings.view();
        self.bindings = AssocMap { entries: kept };
        proof {
            let s = self.bindings.entries@;
            let target = old_map.restrict(old_map.dom().filter(|k: Seq<char>| binding_alive(old_map[k], now)));
            assert forall|k: Seq<char>| #[trigger] self.bindings.view().contains_key(k) == target.contains_key(k) by {
                if self.bindings.view().contains_key(k) {
                    let j = crate::assoc::key_index(s, k);
                    let m = choose|m: int| 0 <= m < n && #[trigger] s[j].0@ == old_s[m].0@ && s[j].1@ == old_s[m].1@;
                    crate::assoc::lemma_map_of_index(old_s, m);
                }
                if target.contains_key(k) {
                    let m = crate::assoc::key_index(old_s, k);
                    crate::assoc::lemma_map_of_index(old_s, m);
                    let j = choose|j: int| 0 <= j < s.len() && #[trigger] s[j].0@ == old_s[m].0@;
                    assert(crate::assoc::has_key(s, k));
                }
            }
            assert forall|k: Seq<char>| #[trigger] self.bindings.view().contains_key(k) implies self.bindings.view()[k] == target[k] by {
                let j = crate::assoc::key_index(s, k);
                crate::assoc::lemma_map_of_index(s, j);
                let m = choose|m: int| 0 <= m < n && #[trigger] s[j].0@ == old_s[m].0@ && s[j].1@ == old_s[m].1@;
                crate::assoc::lemma_map_of_index(old_s, m);
            }
            assert(self.bindings.view() =~= target);
        }
    }
}

impl Default for GatewayRoutingState {
    fn default() -> (r: Self)
        ensures
            r.wf(),
            r.health_view() == Map::<Seq<char>, (u32, Option<u64>)>::empty(),
            r.bindings_view() == Map::<Seq<char>, (Seq<char>, u64)>::empty(),
    {
        GatewayRoutingState { health: AssocMap::new(), bindings: AssocMap::new() }
    }
}

// ─── laws ──────────────────────────────────────────────────────────────

/// `FAILURE_THRESHOLD` consecutive failures from a clean state blacklist
/// the route until `COOLDOWN` after the last one, and not a moment longer.
pub proof fn law_blacklisted_after_threshold(t1: u64, t2: u64, t3: u64, now: u64)
    requires
        t3 <= u64::MAX - COOLDOWN,
    ensures
        ({
            let h = after_failure(Some(after_failure(Some(after_failure(None, t1)), t2)), t3);
            &&& h.1 == Some((t3 + COOLDOWN) as u64)
            &&& health_blacklisted(Some(h), now) <==> now < t3 + COOLDOWN
        }),
{
}

/// Fewer failures than the threshold never blacklist a clean route.
pub proof fn law_below_threshold_not_blacklisted(t1: u64, t2: u64, now: u64)
    ensures
        !health_blacklisted(Some(after_failure(None, t1)), now),
        !health_blacklisted(Some(after_failure(Some(after_failure(None, t1)), t2)), now),
{
}

/// After a success the route is not blacklisted, whatever the time.
pub proof fn law_success_clears_blacklist(now: u64)
    ensures
        !health_blacklisted(Some((0u32, None)), now),
{
}

/// A fresh binding is returned until its time-to-live has passed.
pub proof fn law_binding_lives_for_ttl(route: Seq<char>, bound_at: u64, now: u64)
    requires
        bound_at <= now,
    ensures
        binding_alive((route, bound_at), now) <==> now - bound_at <= BINDING_TTL,
{
}


proof fn lemma_replay_health(events: Seq<HealthEvent>, route: Seq<char>)
    requires
        times_fit(events),
    ensures
        ({
            let h = health_entry(replay_health(events), route);
            let k = trailing_failures(events, route);
            &&& h is None ==> k == 0
            &&& k > 0 ==> last_failure_at(events, route) <= u64::MAX - COOLDOWN
            &&& h matches Some((n, u)) ==> {
                &&& n as int == (if k >= u32::MAX { u32::MAX as int } else { k as int })
                &&& k >= FAILURE_THRESHOLD ==> u == Some((last_failure_at(events, route) + COOLDOWN) as u64)
                &&& k < FAILURE_THRESHOLD ==> u is None
            }
        }),
    decreases events.len(),
{
    if events.len() > 0 {
        let prev = events.drop_last();
        assert(times_fit(prev)) by {
            assert forall|i: int| 0 <= i < prev.len() implies match #[trigger] prev[i].1 {
                Some(at) => at <= u64::MAX - COOLDOWN,
                None => true,
            } by {
                assert(prev[i] == events[i]);
            }
        }
        lemma_replay_health(prev, route);
        assert(match events[events.len() - 1].1 {
            Some(at) => at <= u64::MAX - COOLDOWN,
            None => true,
        });
    }
}

/// A route is blacklisted at `now` exactly when it has failed at least
/// `FAILURE_THRESHOLD` times in a row since its last success (or since the
/// start) and `now` is within `COOLDOWN` of the last of those failures.
/// Outcomes of other routes never affect it; `record_failure` and
/// `record_success` are each one `health_step`.
pub proof fn law_consecutive_failures_blacklist(events: Seq<HealthEvent>, route: Seq<char>, now: u64)
    requires
        times_fit(events),
    ensures
        health_blacklisted(health_entry(replay_health(events), route), now) == (trailing_failures(
            events,
            route,
        ) >= FAILURE_THRESHOLD && now < last_failure_at(events, route) + COOLDOWN),
{
    lemma_replay_health(events, route);
}

} // verus!
