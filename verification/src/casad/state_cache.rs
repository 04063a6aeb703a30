//! The last reported on/off state of each Matter endpoint, from the events of
//! `mat listen` (priming redeliveries included: they tell the current value).
//! A rule's Matter `off` may be skipped when its target is known to be off
//! from a fresh report. It is never used to skip an `on`: a device can report
//! on while its light is physically off, and skipping would leave it dark.

use vstd::prelude::*;

use crate::casad::dispatch::elapsed_since;
use crate::casad::mat;
use crate::json::{JsonNumber, JsonValue};
use crate::lookup::{first_where, lemma_first_where, lemma_first_where_at};
use crate::text::{eq_ignore_ascii_case, spec_eq_ignore_ascii_case};

verus! {

/// The standard library's `Instant`, a reading of the monotonic clock. Opaque:
/// the cache holds the reading it was made at and measures from it.
#[verifier::external_type_specification]
#[verifier::external_body]
pub struct ExInstant(std::time::Instant);

/// `std::time::Instant::now()`. Nothing is stated of the result: it is the
/// clock's reading.
#[verifier::external_body]
fn clock_now() -> (r: std::time::Instant) {
    std::time::Instant::now()
}

/// `Instant::elapsed`: the time since `origin`. Nothing is stated of the
/// result: it depends on the clock.
#[verifier::external_body]
fn elapsed(origin: &std::time::Instant) -> (r: core::time::Duration) {
    origin.elapsed()
}

/// `Duration::as_nanos`: the whole nanoseconds of a duration. Nothing is
/// stated of the result: a duration is opaque here.
#[verifier::external_body]
fn as_nanos(d: &core::time::Duration) -> (r: u128) {
    d.as_nanos()
}

/// Nanoseconds since the cache was made.
fn nanos_since(origin: &std::time::Instant) -> (r: u128) {
    let d = elapsed(origin);
    as_nanos(&d)
}

/// One report: an endpoint, its on/off value, and when it was received
/// (nanoseconds since the cache was made).
#[derive(Debug, Clone, Copy)]
struct Observation {
    node: u64,
    endpoint: u64,
    on: bool,
    at: u128,
}

/// The last on/off report of each (node, endpoint).
pub struct StateCache {
    origin: std::time::Instant,
    entries: Vec<Observation>,
}

/// Whether a report is of the given endpoint.
spec fn is_of(node: u64, endpoint: u64) -> spec_fn(Observation) -> bool {
    |o: Observation| o.node == node && o.endpoint == endpoint
}

/// The position of an endpoint's report, or -1.
spec fn report_index(s: Seq<Observation>, k: (u64, u64)) -> int {
    first_where(s, is_of(k.0, k.1))
}

/// The reports as a map from (node, endpoint) to (on, received at).
spec fn reports(s: Seq<Observation>) -> Map<(u64, u64), (bool, u128)> {
    Map::new(
        |k: (u64, u64)| report_index(s, k) >= 0,
        |k: (u64, u64)| (s[report_index(s, k)].on, s[report_index(s, k)].at),
    )
}

impl View for StateCache {
    type V = Map<(u64, u64), (bool, u128)>;

    closed spec fn view(&self) -> Map<(u64, u64), (bool, u128)> {
        reports(self.entries@)
    }
}

/// Whether a cluster is OnOff: the chip-tool name "onoff" (any ASCII case) or
/// the number 6.
pub open spec fn spec_is_onoff(cluster: JsonValue) -> bool {
    match cluster {
        JsonValue::String(s) => spec_eq_ignore_ascii_case(s@, "onoff"@),
        JsonValue::Number(n) => n == JsonNumber::PosInt(6),
        _ => false,
    }
}

/// Whether an attribute is on-off: the chip-tool name "on-off" (any ASCII
/// case) or the number 0.
pub open spec fn spec_is_on_off_attr(attr: JsonValue) -> bool {
    match attr {
        JsonValue::String(s) => spec_eq_ignore_ascii_case(s@, "on-off"@),
        JsonValue::Number(n) => n == JsonNumber::PosInt(0),
        _ => false,
    }
}

/// Whether a cluster is OnOff.
pub fn is_onoff(cluster: &JsonValue) -> (r: bool)
    ensures
        r == spec_is_onoff(*cluster),
{
    match cluster {
        JsonValue::String(s) => eq_ignore_ascii_case(s.as_str(), "onoff"),
        JsonValue::Number(n) => n.as_u64() == Some(6u64),
        _ => false,
    }
}

/// Whether an attribute is on-off.
pub fn is_on_off_attr(attr: &JsonValue) -> (r: bool)
    ensures
        r == spec_is_on_off_attr(*attr),
{
    match attr {
        JsonValue::String(s) => eq_ignore_ascii_case(s.as_str(), "on-off"),
        JsonValue::Number(n) => n.as_u64() == Some(0u64),
        _ => false,
    }
}

/// The cache after an event received at `at`: an OnOff on-off report with a
/// boolean value replaces what was known of its endpoint; any other event
/// changes nothing.
pub open spec fn after_event(m: Map<(u64, u64), (bool, u128)>, ev: mat::Event, at: u128) -> Map<(u64, u64), (bool, u128)> {
    if spec_is_onoff(ev.cluster) && spec_is_on_off_attr(ev.attribute) && ev.value is Bool {
        m.insert((ev.node_id, ev.endpoint), (ev.value->Bool_0, at))
    } else {
        m
    }
}

/// Whether the cache shows an endpoint off, from a report at most `ttl`
/// old at `now`. No report, an on report, or a stale one all say no.
pub open spec fn spec_off_fresh(m: Map<(u64, u64), (bool, u128)>, node: u64, endpoint: u64, ttl: u128, now: u128) -> bool {
    match m.get((node, endpoint)) {
        Some((false, at)) => elapsed_since(at, now) <= ttl,
        _ => false,
    }
}

/// Replacing or adding the report of `k` changes the map at `k` alone.
proof fn lemma_reports_update(old_s: Seq<Observation>, new_s: Seq<Observation>, k: (u64, u64), obs: Observation)
    requires
        report_index(new_s, k) >= 0,
        new_s[report_index(new_s, k)] == obs,
        forall|q: (u64, u64)| q != k ==> report_index(new_s, q) == report_index(old_s, q),
        forall|q: (u64, u64)| q != k && report_index(old_s, q) >= 0 ==> new_s[report_index(old_s, q)] == old_s[report_index(old_s, q)],
    ensures
        reports(new_s) =~= reports(old_s).insert(k, (obs.on, obs.at)),
{
    assert forall|q: (u64, u64)| #[trigger] reports(new_s).dom().contains(q) == reports(old_s).insert(k, (obs.on, obs.at)).dom().contains(q) by {
        if q != k {
            assert(report_index(new_s, q) == report_index(old_s, q));
        }
    }
    assert forall|q: (u64, u64)| reports(new_s).dom().contains(q) implies #[trigger] reports(new_s)[q] == reports(old_s).insert(k, (obs.on, obs.at))[q] by {
        if q != k {
            assert(report_index(new_s, q) == report_index(old_s, q));
        }
    }
}

impl StateCache {
    /// An empty cache.
    pub fn new() -> (r: StateCache)
        ensures
            r@ == Map::<(u64, u64), (bool, u128)>::empty(),
    {
        let r = StateCache { origin: clock_now(), entries: Vec::new() };
        assert(r@ =~= Map::<(u64, u64), (bool, u128)>::empty());
        r
    }

    /// Takes in one event, received `at` nanoseconds after the cache was made.
    pub fn record_at(&mut self, ev: &mat::Event, at: u128)
        ensures
            final(self)@ == after_event(old(self)@, *ev, at),
    {
        if !is_onoff(&ev.cluster) || !is_on_off_attr(&ev.attribute) {
            return;
        }
        let v = match ev.value {
            JsonValue::Bool(b) => b,
            _ => {
                return;
            },
        };
        let k = (ev.node_id, ev.endpoint);
        let obs = Observation { node: ev.node_id, endpoint: ev.endpoint, on: v, at };
        let ghost old_entries = self.entries@;
        let ghost p = is_of(ev.node_id, ev.endpoint);
        assert(after_event(old(self)@, *ev, at) == old(self)@.insert(k, (v, at)));
        let mut i: usize = 0;
        while i < self.entries.len()
            invariant
                i <= self.entries.len(),
                self.entries@ == old_entries,
                old_entries == old(self).entries@,
                p == is_of(ev.node_id, ev.endpoint),
                obs == (Observation { node: ev.node_id, endpoint: ev.endpoint, on: v, at }),
                k == (ev.node_id, ev.endpoint),
                after_event(old(self)@, *ev, at) == old(self)@.insert(k, (v, at)),
                forall|j: int| 0 <= j < i ==> !p(#[trigger] old_entries[j]),
            decreases self.entries.len() - i,
        {
            if self.entries[i].node == ev.node_id && self.entries[i].endpoint == ev.endpoint {
                self.entries.set(i, obs);
                proof {
                    assert forall|j: int| 0 <= j < i implies !p(#[trigger] self.entries@[j]) by {
                        assert(self.entries@[j] == old_entries[j]);
                    }
                    lemma_first_where_at(old_entries, p, i as int);
                    lemma_first_where_at(self.entries@, p, i as int);
                    assert forall|q: (u64, u64)| q != k implies report_index(self.entries@, q) == report_index(old_entries, q) by {
                        let pq = is_of(q.0, q.1);
                        lemma_first_where(old_entries, pq);
                        lemma_first_where(self.entries@, pq);
                        let a = first_where(old_entries, pq);
                        let b = first_where(self.entries@, pq);
                        assert(!pq(obs));
                        if a >= 0 && a != i {
                            lemma_first_where_at(self.entries@, pq, a);
                        } else if b >= 0 {
                            lemma_first_where_at(old_entries, pq, b);
                        }
                    }
                    assert forall|q: (u64, u64)| q != k && report_index(old_entries, q) >= 0 implies
                        self.entries@[report_index(old_entries, q)] == old_entries[report_index(old_entries, q)] by {
                        let pq = is_of(q.0, q.1);
                        lemma_first_where(old_entries, pq);
                        assert(report_index(old_entries, q) != i);
                    }
                    lemma_reports_update(old_entries, self.entries@, k, obs);
                    assert(self@ =~= old(self)@.insert(k, (v, at)));
                }
                return;
            }
            i = i + 1;
        }
        self.entries.push(obs);
        proof {
            lemma_first_where(old_entries, p);
            lemma_first_where_at(self.entries@, p, old_entries.len() as int);
            assert forall|q: (u64, u64)| q != k implies report_index(self.entries@, q) == report_index(old_entries, q) by {
                let pq = is_of(q.0, q.1);
                lemma_first_where(old_entries, pq);
                lemma_first_where(self.entries@, pq);
                let a = first_where(old_entries, pq);
                let b = first_where(self.entries@, pq);
                assert(!pq(self.entries@[old_entries.len() as int]));
                if a >= 0 {
                    lemma_first_where_at(self.entries@, pq, a);
                } else if b >= 0 {
                    lemma_first_where_at(old_entries, pq, b);
                }
            }
            assert forall|q: (u64, u64)| q != k && report_index(old_entries, q) >= 0 implies
                self.entries@[report_index(old_entries, q)] == old_entries[report_index(old_entries, q)] by {
                let pq = is_of(q.0, q.1);
                lemma_first_where(old_entries, pq);
            }
            lemma_reports_update(old_entries, self.entries@, k, obs);
            assert(self@ =~= old(self)@.insert(k, (v, at)));
        }
    }

    /// Takes in one event, received now.
    pub fn record(&mut self, ev: &mat::Event)
        ensures
            exists|at: u128| final(self)@ == after_event(old(self)@, *ev, at),
    {
        let at = nanos_since(&self.origin);
        self.record_at(ev, at);
    }

    /// Whether the endpoint's last report is off and at most `ttl` old at
    /// `now` (nanoseconds since the cache was made).
    pub fn is_off_fresh_at(&self, node: u64, endpoint: u64, ttl: u128, now: u128) -> (r: bool)
        ensures
            r == spec_off_fresh(self@, node, endpoint, ttl, now),
    {
        let ghost p = is_of(node, endpoint);
        let mut i: usize = 0;
        while i < self.entries.len()
            invariant
                i <= self.entries.len(),
                p == is_of(node, endpoint),
                forall|j: int| 0 <= j < i ==> !p(#[trigger] self.entries@[j]),
            decreases self.entries.len() - i,
        {
            let o = self.entries[i];
            if o.node == node && o.endpoint == endpoint {
                proof {
                    lemma_first_where_at(self.entries@, p, i as int);
                }
                if o.on {
                    return false;
                }
                let age = if now >= o.at { now - o.at } else { 0 };
                return age <= ttl;
            }
            i = i + 1;
        }
        proof {
            lemma_first_where(self.entries@, p);
        }
        false
    }

    /// Whether the endpoint's last report is off and at most `ttl` old now.
    pub fn is_off_fresh(&self, node: u64, endpoint: u64, ttl: u128) -> (r: bool)
        ensures
            exists|now: u128| r == spec_off_fresh(self@, node, endpoint, ttl, now),
            r ==> self@.get((node, endpoint)) matches Some((false, _)),
    {
        let now = nanos_since(&self.origin);
        self.is_off_fresh_at(node, endpoint, ttl, now)
    }
}

/// Law: the cache never says a device is off when its last report was on, nor
/// when there was no report: an `on` is never skipped on its account.
pub proof fn law_never_off_when_last_seen_on(m: Map<(u64, u64), (bool, u128)>, node: u64, endpoint: u64, ttl: u128, now: u128)
    requires
        !(m.get((node, endpoint)) matches Some((false, _))),
    ensures
        !spec_off_fresh(m, node, endpoint, ttl, now),
{
}

/// Law: the newer report of an endpoint replaces the older one.
pub proof fn law_newer_report_wins(m: Map<(u64, u64), (bool, u128)>, first: mat::Event, second: mat::Event, t1: u128, t2: u128)
    requires
        first.node_id == second.node_id,
        first.endpoint == second.endpoint,
        spec_is_onoff(second.cluster),
        spec_is_on_off_attr(second.attribute),
        second.value is Bool,
    ensures
        after_event(after_event(m, first, t1), second, t2).get((second.node_id, second.endpoint))
            == Some((second.value->Bool_0, t2)),
{
}

/// Law: a fresh off report (received within `ttl` of `now`) makes the
/// endpoint skippable; one older than `ttl` does not.
pub proof fn law_fresh_off_is_skippable(m: Map<(u64, u64), (bool, u128)>, ev: mat::Event, at: u128, ttl: u128, now: u128)
    requires
        spec_is_onoff(ev.cluster),
        spec_is_on_off_attr(ev.attribute),
        ev.value == JsonValue::Bool(false),
        at <= now,
    ensures
        spec_off_fresh(after_event(m, ev, at), ev.node_id, ev.endpoint, ttl, now) <==> now - at <= ttl,
{
}

/// Law: events that are not OnOff on-off reports with a boolean value leave the
/// cache as it was.
pub proof fn law_other_events_ignored(m: Map<(u64, u64), (bool, u128)>, ev: mat::Event, at: u128)
    requires
        !spec_is_onoff(ev.cluster) || !spec_is_on_off_attr(ev.attribute) || !(ev.value is Bool),
    ensures
        after_event(m, ev, at) == m,
{
}

} // verus!
