//! The activator's per-service runtime registry: how many instances a service
//! should run and how many requests are in flight, keyed by `namespace/name`.

use crate::api::service::ServerlessService;
use crate::meta::{namespace_of, object_namespace};
use crate::text::concat3;
use crate::time::{elapsed_at_least, elapsed_nanos, Timestamp};
use vstd::prelude::*;

verus! {

/// Registry key of a service: `namespace/name`.
pub open spec fn key_spec(namespace: Seq<char>, name: Seq<char>) -> Seq<char> {
    namespace + "/"@ + name
}

/// Registry key of a service object.
pub open spec fn service_key_spec(service: ServerlessService) -> Seq<char> {
    key_spec(namespace_of(service.metadata), service.metadata.name@)
}

/// `namespace/name`.
pub fn runtime_key(namespace: &str, name: &str) -> (r: String)
    ensures
        r@ == key_spec(namespace@, name@),
{
    concat3(namespace, "/", name)
}

/// The registry key of a service: its namespace (default when blank), `/`, its name.
pub fn service_key(service: &ServerlessService) -> (r: String)
    ensures
        r@ == service_key_spec(*service),
{
    let ns = object_namespace(&service.metadata);
    runtime_key(ns.as_str(), service.metadata.name.as_str())
}

/// Runtime state of one service.
#[derive(Clone, Copy, Debug, PartialEq, Eq)]
pub struct RuntimeState {
    pub active_instances: u32,
    pub in_flight: u32,
    pub last_used: Timestamp,
}

/// Instance and request counts reported for a service.
#[derive(Clone, Copy, Debug, PartialEq, Eq)]
pub struct RuntimeSnapshot {
    pub active_instances: u32,
    pub in_flight: u32,
}

pub open spec fn snapshot_of(s: RuntimeState) -> RuntimeSnapshot {
    RuntimeSnapshot { active_instances: s.active_instances, in_flight: s.in_flight }
}

/// `u32::saturating_mul`.
pub open spec fn sat_mul(a: u32, b: u32) -> u32 {
    if a * b > u32::MAX { u32::MAX } else { (a * b) as u32 }
}

pub open spec fn max_u32(a: u32, b: u32) -> u32 {
    if a >= b { a } else { b }
}

/// Upper bound on instances that a burst of requests can bring a service to.
pub open spec fn instance_cap(service: ServerlessService) -> u32 {
    max_u32(max_u32(service.spec.scale.max_scale, service.spec.scale.min_scale), 1)
}

/// Requests one instance takes on before another is added (at least one).
pub open spec fn effective_target(service: ServerlessService) -> u32 {
    max_u32(service.spec.concurrency.target, 1)
}

/// State of a service after a request begins.
///
/// A service seen for the first time starts at `minScale` instances. A scaled-to-zero
/// service gets one instance. When the requests in flight already fill every instance
/// up to the concurrency target and the cap is not reached, one more instance is added.
/// The request is then counted in flight and the service marked used at `now`.
pub open spec fn begin_spec(old: Option<RuntimeState>, service: ServerlessService, now: Timestamp) -> RuntimeState {
    let e = match old {
        Some(e) => e,
        None => RuntimeState {
            active_instances: service.spec.scale.min_scale,
            in_flight: 0,
            last_used: now,
        },
    };
    let a1: u32 = if e.active_instances == 0 { 1 } else { e.active_instances };
    let a2: u32 = if e.in_flight >= sat_mul(a1, effective_target(service)) && a1 < instance_cap(service) {
        (a1 + 1) as u32
    } else {
        a1
    };
    RuntimeState { active_instances: a2, in_flight: (e.in_flight + 1) as u32, last_used: now }
}

/// State of a service after a request ends: one fewer in flight (not below zero),
/// marked used at `now`; an unknown service starts from zero instances.
pub open spec fn end_spec(old: Option<RuntimeState>, now: Timestamp) -> RuntimeState {
    let e = match old {
        Some(e) => e,
        None => RuntimeState { active_instances: 0, in_flight: 0, last_used: now },
    };
    RuntimeState {
        active_instances: e.active_instances,
        in_flight: if e.in_flight == 0 { 0 } else { (e.in_flight - 1) as u32 },
        last_used: now,
    }
}

/// A known service with nothing in flight, more instances than `minScale`, and idle
/// for at least `idleSeconds` is due to scale down to `minScale`.
pub open spec fn idle_due(e: RuntimeState, service: ServerlessService, now: Timestamp) -> bool {
    &&& e.in_flight == 0
    &&& e.active_instances > service.spec.scale.min_scale
    &&& elapsed_nanos(now, e.last_used) >= service.spec.scale.idle_seconds * 1_000_000_000
}

/// One entry of the registry.
pub struct RuntimeEntry {
    key: String,
    state: RuntimeState,
}

/// Per-service runtime state, keyed by `namespace/name`.
pub struct RuntimeRegistry {
    entries: Vec<RuntimeEntry>,
}

/// No two entries share a key.
spec fn keys_distinct(entries: Seq<RuntimeEntry>) -> bool {
    forall|i: int, j: int|
        0 <= i < entries.len() && 0 <= j < entries.len() && i != j
            ==> (#[trigger] entries[i]).key@ != (#[trigger] entries[j]).key@
}

spec fn has_key(entries: Seq<RuntimeEntry>, k: Seq<char>) -> bool {
    exists|i: int| 0 <= i < entries.len() && (#[trigger] entries[i]).key@ == k
}

spec fn entries_view(entries: Seq<RuntimeEntry>) -> Map<Seq<char>, RuntimeState> {
    Map::new(
        |k: Seq<char>| has_key(entries, k),
        |k: Seq<char>| entries[choose|i: int| 0 <= i < entries.len() && (#[trigger] entries[i]).key@ == k].state,
    )
}

impl View for RuntimeRegistry {
    type V = Map<Seq<char>, RuntimeState>;

    closed spec fn view(&self) -> Map<Seq<char>, RuntimeState> {
        entries_view(self.entries@)
    }
}

impl RuntimeRegistry {
    #[verifier::type_invariant]
    closed spec fn inv(self) -> bool {
        keys_distinct(self.entries@)
    }
}

/// The entry at `i` is what the view holds under its key.
proof fn lemma_view_at(entries: Seq<RuntimeEntry>, i: int)
    requires
        keys_distinct(entries),
        0 <= i < entries.len(),
    ensures
        entries_view(entries).contains_key(entries[i].key@),
        entries_view(entries)[entries[i].key@] == entries[i].state,
{
    let k = entries[i].key@;
    assert(has_key(entries, k));
    let c = choose|c: int| 0 <= c < entries.len() && (#[trigger] entries[c]).key@ == k;
    assert(c == i);
}

/// Replacing the state at `i` replaces the view's value under that key.
proof fn lemma_view_update(entries: Seq<RuntimeEntry>, i: int, e: RuntimeEntry)
    requires
        keys_distinct(entries),
        0 <= i < entries.len(),
        e.key@ == entries[i].key@,
    ensures
        keys_distinct(entries.update(i, e)),
        entries_view(entries.update(i, e)) == entries_view(entries).insert(e.key@, e.state),
{
    let n = entries.update(i, e);
    assert(keys_distinct(n)) by {
        assert forall|a: int, b: int|
            0 <= a < n.len() && 0 <= b < n.len() && a != b implies (#[trigger] n[a]).key@ != (
            #[trigger] n[b]).key@ by {
            assert(n[a].key@ == entries[a].key@);
            assert(n[b].key@ == entries[b].key@);
        }
    }
    let lhs = entries_view(n);
    let rhs = entries_view(entries).insert(e.key@, e.state);
    assert forall|k: Seq<char>| lhs.contains_key(k) <==> rhs.contains_key(k) by {
        if has_key(n, k) {
            let j = choose|j: int| 0 <= j < n.len() && (#[trigger] n[j]).key@ == k;
            assert(entries[j].key@ == k);
        }
        if has_key(entries, k) {
            let j = choose|j: int| 0 <= j < entries.len() && (#[trigger] entries[j]).key@ == k;
            assert(n[j].key@ == k);
        }
        if k == e.key@ {
            assert(n[i].key@ == k);
        }
    }
    assert forall|k: Seq<char>| lhs.contains_key(k) implies lhs[k] == rhs[k] by {
        let j = choose|j: int| 0 <= j < n.len() && (#[trigger] n[j]).key@ == k;
        lemma_view_at(n, j);
        if j == i {
        } else {
            lemma_view_at(entries, j);
        }
    }
    assert(lhs =~= rhs);
}

/// Appending an entry with a new key adds it to the view.
proof fn lemma_view_push(entries: Seq<RuntimeEntry>, e: RuntimeEntry)
    requires
        keys_distinct(entries),
        !has_key(entries, e.key@),
    ensures
        keys_distinct(entries.push(e)),
        entries_view(entries.push(e)) == entries_view(entries).insert(e.key@, e.state),
{
    let n = entries.push(e);
    assert(keys_distinct(n)) by {
        assert forall|a: int, b: int|
            0 <= a < n.len() && 0 <= b < n.len() && a != b implies (#[trigger] n[a]).key@ != (
            #[trigger] n[b]).key@ by {
            if a < entries.len() && b < entries.len() {
                assert(n[a] == entries[a]);
                assert(n[b] == entries[b]);
            } else if a < entries.len() {
                assert(n[a] == entries[a]);
            } else {
                assert(n[b] == entries[b]);
            }
        }
    }
    let lhs = entries_view(n);
    let rhs = entries_view(entries).insert(e.key@, e.state);
    assert forall|k: Seq<char>| lhs.contains_key(k) <==> rhs.contains_key(k) by {
        if has_key(n, k) {
            let j = choose|j: int| 0 <= j < n.len() && (#[trigger] n[j]).key@ == k;
            if j < entries.len() {
                assert(entries[j] == n[j]);
            }
        }
        if has_key(entries, k) {
            let j = choose|j: int| 0 <= j < entries.len() && (#[trigger] entries[j]).key@ == k;
            assert(n[j] == entries[j]);
        }
        if k == e.key@ {
            assert(n[entries.len() as int] == e);
        }
    }
    assert forall|k: Seq<char>| lhs.contains_key(k) implies lhs[k] == rhs[k] by {
        let j = choose|j: int| 0 <= j < n.len() && (#[trigger] n[j]).key@ == k;
        lemma_view_at(n, j);
        if j < entries.len() {
            assert(n[j] == entries[j]);
            lemma_view_at(entries, j);
        }
    }
    assert(lhs =~= rhs);
}

impl RuntimeRegistry {
    /// An empty registry.
    pub fn new() -> (r: RuntimeRegistry)
        ensures
            r@ == Map::<Seq<char>, RuntimeState>::empty(),
    {
        let r = RuntimeRegistry { entries: Vec::new() };
        assert(r@ =~= Map::<Seq<char>, RuntimeState>::empty());
        r
    }

    /// Position of the entry for `key`, if there is one.
    fn find(&self, key: &String) -> (r: Option<usize>)
        ensures
            r.is_some() ==> r.unwrap() < self.entries@.len() && self.entries@[r.unwrap() as int].key@
                == key@,
            r.is_none() ==> !has_key(self.entries@, key@),
    {
        let mut i: usize = 0;
        while i < self.entries.len()
            invariant
                i <= self.entries@.len(),
                forall|j: int| 0 <= j < i ==> (#[trigger] self.entries@[j]).key@ != key@,
            decreases self.entries@.len() - i,
        {
            if self.entries[i].key == *key {
                return Some(i);
            }
            i = i + 1;
        }
        None
    }

    /// Stores `state` under `key`, replacing what was there.
    fn put(&mut self, key: String, state: RuntimeState, pos: Option<usize>)
        requires
            pos.is_some() ==> pos.unwrap() < old(self).entries@.len()
                && old(self).entries@[pos.unwrap() as int].key@ == key@,
            pos.is_none() ==> !has_key(old(self).entries@, key@),
        ensures
            final(self)@ == old(self)@.insert(key@, state),
    {
        proof {
            use_type_invariant(&*self);
        }
        let ghost k = key@;
        let e = RuntimeEntry { key, state };
        match pos {
            Some(i) => {
                proof {
                    lemma_view_update(self.entries@, i as int, e);
                }
                let mut entries = Vec::new();
                std::mem::swap(&mut entries, &mut self.entries);
                entries.set(i, e);
                self.entries = entries;
            },
            None => {
                proof {
                    lemma_view_push(self.entries@, e);
                }
                let mut entries = Vec::new();
                std::mem::swap(&mut entries, &mut self.entries);
                entries.push(e);
                self.entries = entries;
            },
        }
    }

    /// Current state of `key`, as found by `find`.
    fn state_at(&self, pos: Option<usize>, key: &String) -> (r: Option<RuntimeState>)
        requires
            pos.is_some() ==> pos.unwrap() < self.entries@.len() && self.entries@[pos.unwrap() as int].key@
                == key@,
            pos.is_none() ==> !has_key(self.entries@, key@),
        ensures
            r == (if self@.contains_key(key@) { Some(self@[key@]) } else { None::<RuntimeState> }),
    {
        proof {
            use_type_invariant(self);
        }
        match pos {
            Some(i) => {
                proof {
                    lemma_view_at(self.entries@, i as int);
                }
                Some(self.entries[i].state)
            },
            None => None,
        }
    }
}


/// What the registry holds under `key`, if anything.
pub open spec fn state_of(m: Map<Seq<char>, RuntimeState>, key: Seq<char>) -> Option<RuntimeState> {
    if m.contains_key(key) { Some(m[key]) } else { None }
}

/// No request of the service under `key` is counted at the top of the `u32` range,
/// so counting one more cannot overflow.
pub open spec fn can_begin(m: Map<Seq<char>, RuntimeState>, key: Seq<char>) -> bool {
    m.contains_key(key) ==> m[key].in_flight < u32::MAX
}

/// A request in progress; finishing it takes it off the in-flight count again.
pub struct InFlightGuard {
    key: String,
    armed: bool,
}

impl InFlightGuard {
    /// Registry key of the service the request runs against.
    pub closed spec fn key_view(&self) -> Seq<char> {
        self.key@
    }

    /// Whether the request is still counted in flight.
    pub closed spec fn is_armed(&self) -> bool {
        self.armed
    }

    /// Registry key of the service the request runs against.
    pub fn key(&self) -> (r: &String)
        ensures
            r@ == self.key_view(),
    {
        &self.key
    }

    /// Whether the request is still counted in flight.
    pub fn armed(&self) -> (r: bool)
        ensures
            r == self.is_armed(),
    {
        self.armed
    }

    /// Ends the request: it leaves the in-flight count of its service.
    pub fn finish(self, registry: &mut RuntimeRegistry, now: Timestamp) -> (r: RuntimeSnapshot)
        ensures
            final(registry)@ == old(registry)@.insert(
                self.key_view(),
                end_spec(state_of(old(registry)@, self.key_view()), now),
            ),
            r == snapshot_of(end_spec(state_of(old(registry)@, self.key_view()), now)),
    {
        registry.end_by_key(&self.key, now)
    }
}

impl RuntimeRegistry {
    /// Counts a request against `service`: the service is created at `minScale` instances
    /// if unknown, woken to one instance if at zero, given one more instance when its
    /// in-flight requests fill every instance to the concurrency target and the instance
    /// cap `max(maxScale, minScale, 1)` is not reached, and marked used at `now`.
    pub fn begin(&mut self, service: &ServerlessService, now: Timestamp) -> (r: (RuntimeSnapshot, InFlightGuard))
        requires
            can_begin(old(self)@, service_key_spec(*service)),
        ensures
            final(self)@ == old(self)@.insert(
                service_key_spec(*service),
                begin_spec(state_of(old(self)@, service_key_spec(*service)), *service, now),
            ),
            r.0 == snapshot_of(begin_spec(state_of(old(self)@, service_key_spec(*service)), *service, now)),
            r.1.key_view() == service_key_spec(*service),
            r.1.is_armed(),
    {
        let key = service_key(service);
        let pos = self.find(&key);
        let old_state = self.state_at(pos, &key);
        let e = match old_state {
            Some(e) => e,
            None => RuntimeState {
                active_instances: service.spec.scale.min_scale,
                in_flight: 0,
                last_used: now,
            },
        };
        let mut active = e.active_instances;
        if active == 0 {
            active = 1;
        }
        let target: u32 = if service.spec.concurrency.target >= 1 { service.spec.concurrency.target } else { 1 };
        let mut cap: u32 = if service.spec.scale.max_scale >= service.spec.scale.min_scale {
            service.spec.scale.max_scale
        } else {
            service.spec.scale.min_scale
        };
        if cap < 1 {
            cap = 1;
        }
        assert(active as u64 * target as u64 <= u32::MAX as u64 * u32::MAX as u64) by (nonlinear_arith)
            requires
                active <= u32::MAX,
                target <= u32::MAX,
        ;
        let product: u64 = active as u64 * target as u64;
        let filled: u32 = if product > u32::MAX as u64 { u32::MAX } else { product as u32 };
        if e.in_flight >= filled && active < cap {
            active = active + 1;
        }
        let state = RuntimeState { active_instances: active, in_flight: e.in_flight + 1, last_used: now };
        let guard_key = key.clone();
        self.put(key, state, pos);
        (
            RuntimeSnapshot { active_instances: state.active_instances, in_flight: state.in_flight },
            InFlightGuard { key: guard_key, armed: true },
        )
    }

    /// Takes one request off the in-flight count of `key` (not below zero) and marks the
    /// service used at `now`; an unknown key is recorded with zero instances.
    pub fn end_by_key(&mut self, key: &String, now: Timestamp) -> (r: RuntimeSnapshot)
        ensures
            final(self)@ == old(self)@.insert(key@, end_spec(state_of(old(self)@, key@), now)),
            r == snapshot_of(end_spec(state_of(old(self)@, key@), now)),
    {
        let pos = self.find(key);
        let old_state = self.state_at(pos, key);
        let e = match old_state {
            Some(e) => e,
            None => RuntimeState { active_instances: 0, in_flight: 0, last_used: now },
        };
        let in_flight = e.in_flight.saturating_sub(1);
        let state = RuntimeState { active_instances: e.active_instances, in_flight, last_used: now };
        self.put(key.clone(), state, pos);
        RuntimeSnapshot { active_instances: state.active_instances, in_flight: state.in_flight }
    }

    /// Scales an idle service down to `minScale`: when the service is known, has nothing in
    /// flight, runs more than `minScale` instances and was last used at least `idleSeconds`
    /// before `now`. Returns the new counts when it scaled, and changes nothing otherwise.
    pub fn scale_idle(&mut self, service: &ServerlessService, now: Timestamp) -> (r: Option<RuntimeSnapshot>)
        ensures
            ({
                let k = service_key_spec(*service);
                if old(self)@.contains_key(k) && idle_due(old(self)@[k], *service, now) {
                    let s = RuntimeState { active_instances: service.spec.scale.min_scale, ..old(self)@[k] };
                    &&& final(self)@ == old(self)@.insert(k, s)
                    &&& r == Some(snapshot_of(s))
                } else {
                    &&& final(self)@ == old(self)@
                    &&& r.is_none()
                }
            }),
    {
        let key = service_key(service);
        let pos = self.find(&key);
        let old_state = self.state_at(pos, &key);
        match old_state {
            None => None,
            Some(e) => {
                let min = service.spec.scale.min_scale;
                if e.in_flight == 0 && e.active_instances > min && elapsed_at_least(
                    now,
                    e.last_used,
                    service.spec.scale.idle_seconds,
                ) {
                    let state = RuntimeState { active_instances: min, ..e };
                    self.put(key, state, pos);
                    Some(RuntimeSnapshot { active_instances: state.active_instances, in_flight: state.in_flight })
                } else {
                    None
                }
            },
        }
    }

    /// Raises a service to `minScale` instances. With `minScale` zero nothing changes;
    /// otherwise an unknown service is first recorded with zero instances used at `now`,
    /// and a service below `minScale` is set to it, which is the only case that reports.
    pub fn ensure_min_instances(&mut self, service: &ServerlessService, now: Timestamp) -> (r: Option<RuntimeSnapshot>)
        ensures
            ({
                let k = service_key_spec(*service);
                let min = service.spec.scale.min_scale;
                let e = match state_of(old(self)@, k) {
                    Some(e) => e,
                    None => RuntimeState { active_instances: 0, in_flight: 0, last_used: now },
                };
                if min == 0 {
                    &&& final(self)@ == old(self)@
                    &&& r.is_none()
                } else if e.active_instances < min {
                    let s = RuntimeState { active_instances: min, ..e };
                    &&& final(self)@ == old(self)@.insert(k, s)
                    &&& r == Some(snapshot_of(s))
                } else {
                    &&& final(self)@ == old(self)@.insert(k, e)
                    &&& r.is_none()
                }
            }),
    {
        let min = service.spec.scale.min_scale;
        if min == 0 {
            return None;
        }
        let key = service_key(service);
        let pos = self.find(&key);
        let old_state = self.state_at(pos, &key);
        let e = match old_state {
            Some(e) => e,
            None => RuntimeState { active_instances: 0, in_flight: 0, last_used: now },
        };
        if e.active_instances < min {
            let state = RuntimeState { active_instances: min, ..e };
            self.put(key, state, pos);
            Some(RuntimeSnapshot { active_instances: state.active_instances, in_flight: state.in_flight })
        } else {
            self.put(key, e, pos);
            None
        }
    }

    /// Counts recorded for `key`, zero for an unknown key.
    pub fn snapshot(&self, key: &str) -> (r: RuntimeSnapshot)
        ensures
            r == (if self@.contains_key(key@) {
                snapshot_of(self@[key@])
            } else {
                RuntimeSnapshot { active_instances: 0, in_flight: 0 }
            }),
    {
        let k = crate::text::owned(key);
        let pos = self.find(&k);
        match self.state_at(pos, &k) {
            Some(e) => RuntimeSnapshot { active_instances: e.active_instances, in_flight: e.in_flight },
            None => RuntimeSnapshot { active_instances: 0, in_flight: 0 },
        }
    }
}


pub open spec fn in_flight_of(e: Option<RuntimeState>) -> u32 {
    match e {
        Some(e) => e.in_flight,
        None => 0,
    }
}

/// State after `n` requests begin, one after another, all at `now`.
pub open spec fn begin_n(e: Option<RuntimeState>, service: ServerlessService, now: Timestamp, n: nat) -> Option<RuntimeState>
    decreases n,
{
    if n == 0 {
        e
    } else {
        Some(begin_spec(begin_n(e, service, now, (n - 1) as nat), service, now))
    }
}

/// State after `n` requests end, one after another, all at `now`.
pub open spec fn end_n(e: Option<RuntimeState>, now: Timestamp, n: nat) -> Option<RuntimeState>
    decreases n,
{
    if n == 0 {
        e
    } else {
        Some(end_spec(end_n(e, now, (n - 1) as nat), now))
    }
}

/// Finishing a request takes back exactly what beginning it added to the in-flight count.
pub proof fn law_finish_undoes_begin(e: Option<RuntimeState>, service: ServerlessService, t1: Timestamp, t2: Timestamp)
    requires
        in_flight_of(e) < u32::MAX,
    ensures
        begin_spec(e, service, t1).in_flight == in_flight_of(e) + 1,
        end_spec(Some(begin_spec(e, service, t1)), t2).in_flight == in_flight_of(e),
{
}

/// After `n` requests begin and the same `n` requests end, the in-flight count is back
/// where it started: no request leaks, so an idle service can still scale to zero.
pub proof fn law_in_flight_balanced(e: Option<RuntimeState>, service: ServerlessService, t1: Timestamp, t2: Timestamp, n: nat)
    requires
        in_flight_of(e) + n <= u32::MAX,
    ensures
        in_flight_of(begin_n(e, service, t1, n)) == in_flight_of(e) + n,
        in_flight_of(end_n(begin_n(e, service, t1, n), t2, n)) == in_flight_of(e),
    decreases n,
{
    if n > 0 {
        law_in_flight_balanced(e, service, t1, t2, (n - 1) as nat);
        lemma_end_n_decrements(begin_n(e, service, t1, n), t2, n);
    } else {
        lemma_end_n_decrements(e, t2, 0);
    }
}

/// Ending `n` requests lowers a count of at least `n` by exactly `n`.
pub proof fn lemma_end_n_decrements(e: Option<RuntimeState>, t: Timestamp, n: nat)
    requires
        in_flight_of(e) >= n,
    ensures
        in_flight_of(end_n(e, t, n)) == in_flight_of(e) - n,
    decreases n,
{
    if n > 0 {
        lemma_end_n_decrements(e, t, (n - 1) as nat);
    }
}

/// A request always leaves the service with at least one instance, adds at most one
/// instance, and never takes it past the instance cap unless it already was.
pub proof fn law_begin_bounds(e: Option<RuntimeState>, service: ServerlessService, now: Timestamp)
    requires
        in_flight_of(e) < u32::MAX,
    ensures
        begin_spec(e, service, now).active_instances >= 1,
        begin_spec(e, service, now).last_used == now,
        e.is_some() && e.unwrap().active_instances >= 1
            ==> begin_spec(e, service, now).active_instances <= e.unwrap().active_instances + 1,
        e.is_some() && e.unwrap().active_instances <= instance_cap(service)
            ==> begin_spec(e, service, now).active_instances <= instance_cap(service),
        e.is_none() ==> begin_spec(e, service, now).active_instances <= instance_cap(service),
{
}

/// Once requests fill every instance to the concurrency target, the next request adds an
/// instance as long as the cap allows; while they do not, no instance is added.
pub proof fn law_scale_up_rule(e: RuntimeState, service: ServerlessService, now: Timestamp)
    requires
        e.active_instances >= 1,
        e.in_flight < u32::MAX,
    ensures
        e.in_flight >= sat_mul(e.active_instances, effective_target(service))
            && e.active_instances < instance_cap(service)
            ==> begin_spec(Some(e), service, now).active_instances == e.active_instances + 1,
        !(e.in_flight >= sat_mul(e.active_instances, effective_target(service)))
            ==> begin_spec(Some(e), service, now).active_instances == e.active_instances,
{
}


/// Law: requests do not keep a service warm for ever. Once `n` requests that began on an
/// idle service have all ended at `t2`, the service is due to scale down to `minScale` as
/// soon as `idleSeconds` have passed, if it runs more instances than that.
pub proof fn law_idle_after_requests(
    e: Option<RuntimeState>,
    service: ServerlessService,
    t1: Timestamp,
    t2: Timestamp,
    t3: Timestamp,
    n: nat,
)
    requires
        in_flight_of(e) == 0,
        0 < n <= u32::MAX,
        end_n(begin_n(e, service, t1, n), t2, n).unwrap().active_instances > service.spec.scale.min_scale,
        elapsed_nanos(t3, t2) >= service.spec.scale.idle_seconds * 1_000_000_000,
    ensures
        idle_due(end_n(begin_n(e, service, t1, n), t2, n).unwrap(), service, t3),
{
    law_in_flight_balanced(e, service, t1, t2, n);
    assert(end_n(begin_n(e, service, t1, n), t2, n).unwrap().last_used == t2);
}

/// The registry after a request on `service` begins at `t1` (what `begin` leaves).
pub open spec fn after_begin(reg: Map<Seq<char>, RuntimeState>, service: ServerlessService, t1: Timestamp) -> Map<Seq<char>, RuntimeState> {
    let k = service_key_spec(service);
    reg.insert(k, begin_spec(state_of(reg, k), service, t1))
}

/// The registry after the request under `key` ends at `t2` (what `finish` and
/// `end_by_key` leave).
pub open spec fn after_end(reg: Map<Seq<char>, RuntimeState>, key: Seq<char>, t2: Timestamp) -> Map<Seq<char>, RuntimeState> {
    reg.insert(key, end_spec(state_of(reg, key), t2))
}

/// Law: an invocation, counted when it begins and taken off when it ends, however the call
/// in between went (finished, or its guard dropped), leaves its service's in-flight count
/// where it was, keeps the service known, and leaves every other service as it was.
pub proof fn law_invocation_restores_in_flight(
    reg: Map<Seq<char>, RuntimeState>,
    service: ServerlessService,
    t1: Timestamp,
    t2: Timestamp,
)
    requires
        can_begin(reg, service_key_spec(service)),
    ensures
        ({
            let k = service_key_spec(service);
            let done = after_end(after_begin(reg, service, t1), k, t2);
            &&& done.contains_key(k)
            &&& done[k].in_flight == in_flight_of(state_of(reg, k))
            &&& done.dom() == reg.dom().insert(k)
            &&& forall|j: Seq<char>| j != k && reg.contains_key(j) ==> #[trigger] done[j] == reg[j]
        }),
{
    let k = service_key_spec(service);
    law_finish_undoes_begin(state_of(reg, k), service, t1, t2);
    assert(after_end(after_begin(reg, service, t1), k, t2).dom() =~= reg.dom().insert(k));
}


/// Law: ending a request only takes it off the in-flight count: the service keeps every
/// instance it had (instances go only when the service scales down idle).
pub proof fn law_end_keeps_instances(e: RuntimeState, now: Timestamp)
    ensures
        end_spec(Some(e), now).active_instances == e.active_instances,
        end_spec(Some(e), now).in_flight == if e.in_flight == 0 { 0 } else { e.in_flight - 1 },
        end_spec(Some(e), now).last_used == now,
{
}

/// Law: ending the request of a known service, as `finish` and `end_by_key` do, leaves its
/// active instances as they were and lowers its in-flight count by one (not below zero).
pub proof fn law_registry_end_keeps_instances(reg: Map<Seq<char>, RuntimeState>, key: Seq<char>, now: Timestamp)
    requires
        reg.contains_key(key),
    ensures
        after_end(reg, key, now)[key].active_instances == reg[key].active_instances,
        reg[key].in_flight > 0 ==> after_end(reg, key, now)[key].in_flight == reg[key].in_flight - 1,
{
}

} // verus!
