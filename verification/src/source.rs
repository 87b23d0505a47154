//! Event sources at run time: when a timed or file source fires, and with what payload.

use crate::api::event::CloudEvent;
use crate::api::eventsource::EventSource;
use crate::keyed::Keyed;
use crate::meta::{namespace_of, object_namespace};
use crate::json::{json_view, JsonNumber, JsonValue, JsonView, NumberView};
use crate::text::{concat3, owned};
use crate::time::{elapsed_at_least, elapsed_nanos, not_after, Timestamp};
use vstd::prelude::*;

verus! {

/// Whether the `cron` crate accepts an expression (`Schedule::from_str` succeeds).
pub uninterp spec fn cron_accepts(expr: Seq<char>) -> bool;

/// The first instant after `now` that a cron expression selects (`schedule.after(&now).next()`).
pub uninterp spec fn cron_next_after(expr: Seq<char>, now: Timestamp) -> Option<Timestamp>;

/// What `{:?}` prints for a text: the text quoted, with escapes.
pub uninterp spec fn debug_text(s: Seq<char>) -> Seq<char>;

/// Message of every error `Schedule::from_str` returns.
pub open spec fn cron_error_text() -> Seq<char> {
    "Invalid expression: Invalid cron expression."@
}

/// `cron::Schedule::from_str`: none when the expression parses, else the error's text.
#[verifier::external_body]
pub(crate) fn cron_parse_error(expr: &str) -> (r: Option<String>)
    ensures
        r.is_none() == cron_accepts(expr@),
        r.is_some() ==> r.unwrap()@ == cron_error_text(),
{
    expr.parse::<cron::Schedule>().err().map(|e| e.to_string())
}

/// `schedule.after(&now).next()` for an accepted expression: the next instant it selects,
/// a whole second strictly later than `now`.
#[verifier::external_body]
pub(crate) fn cron_next(expr: &str, now: Timestamp) -> (r: Option<Timestamp>)
    requires
        cron_accepts(expr@),
        now.wf(),
        now.in_chrono_range(),
    ensures
        r == cron_next_after(expr@, now),
        r.is_some() ==> now.secs < r.unwrap().secs && r.unwrap().nanos == 0,
{
    let schedule = expr.parse::<cron::Schedule>().unwrap();
    let at = chrono::DateTime::from_timestamp(now.secs, now.nanos).unwrap();
    schedule.after(&at).next().map(|t| Timestamp { secs: t.timestamp(), nanos: t.timestamp_subsec_nanos() })
}

/// `format!("{:?}", s)`: the text quoted for display.
#[verifier::external_body]
pub(crate) fn debug_quoted(s: &str) -> (r: String)
    ensures
        r@ == debug_text(s@),
{
    format!("{:?}", s)
}

/// Starting `source` asks the cron crate for its next instant: it is a ping source whose
/// schedule parses. Only then must `now` leave room for one more second in chrono's range.
pub open spec fn init_reads_cron(source: EventSource) -> bool {
    source.spec.ping matches Some(p) && p.schedule matches Some(e) && cron_accepts(e@)
}

/// Polling a source in state `k` at `now` asks the cron crate for its next instant: it is
/// a cron source that is due.
pub open spec fn poll_reads_cron(k: SourceKind, now: Timestamp) -> bool {
    k matches SourceKind::PingCron { next, .. } && next.is_some() && next.unwrap().not_after(now)
}

/// Run-time state of one event source.
pub enum SourceKind {
    /// Fires every `interval_secs` seconds after it last fired.
    PingInterval { interval_secs: u64, last_fire: Timestamp, data: JsonValue },
    /// Fires at the instants a cron expression selects; `next` is the next one.
    PingCron { schedule: String, next: Option<Timestamp>, data: JsonValue },
    /// Every `poll_secs` seconds, compares the file's modification time with the last one.
    File { path: String, poll_secs: u64, last_poll: Timestamp, last_mtime: Option<Timestamp> },
    /// A source whose spec could not be used; it never fires.
    Invalid,
}

/// An event source's run-time state.
pub struct SourceRuntime {
    kind: SourceKind,
}

impl SourceRuntime {
    #[verifier::type_invariant]
    closed spec fn inv(self) -> bool {
        match self.kind {
            SourceKind::PingCron { schedule, .. } => cron_accepts(schedule@),
            _ => true,
        }
    }

    /// The source's state.
    pub closed spec fn kind(&self) -> SourceKind {
        self.kind
    }

    /// A source that never fires.
    pub fn invalid() -> (r: SourceRuntime)
        ensures
            r.kind() == SourceKind::Invalid,
    {
        SourceRuntime { kind: SourceKind::Invalid }
    }
}

/// Payload of a file event: the file's path and its modification time in whole seconds
/// since the epoch (zero for a time before the epoch).
pub open spec fn file_event_spec(path: Seq<char>, mtime: Timestamp) -> JsonView {
    JsonView::Object(
        seq![
            ("modifiedUnix"@, JsonView::Number(NumberView::PosInt(if mtime.secs >= 0 { mtime.secs as u64 } else { 0 }))),
            ("path"@, JsonView::Str(path)),
        ],
    )
}

/// The payload of a file event.
pub fn file_event_data(path: &String, mtime: Timestamp) -> (r: JsonValue)
    ensures
        r@ == file_event_spec(path@, mtime),
{
    let secs: u64 = if mtime.secs >= 0 { mtime.secs as u64 } else { 0 };
    let mut fields: Vec<(String, JsonValue)> = Vec::new();
    fields.push((owned("modifiedUnix"), JsonValue::Number(JsonNumber::PosInt(secs))));
    fields.push((path_field_name(), JsonValue::String(path.clone())));
    let r = JsonValue::Object(fields);
    proof {
        assert(fields@.len() == 2);
        assert(fields@[0].0@ == "modifiedUnix"@);
        assert(fields@[1].0@ == "path"@);
        assert(json_view(fields@[0].1) == JsonView::Number(NumberView::PosInt(secs)));
        assert(json_view(fields@[1].1) == JsonView::Str(path@));
        if let JsonView::Object(fs) = r@ {
            assert(fs.len() == 2);
            assert(fs[0] == ("modifiedUnix"@, JsonView::Number(NumberView::PosInt(secs))));
            assert(fs[1] == ("path"@, JsonView::Str(path@)));
            assert(fs =~= seq![
                ("modifiedUnix"@, JsonView::Number(NumberView::PosInt(secs))),
                ("path"@, JsonView::Str(path@)),
            ]);
        }
    }
    r
}

fn path_field_name() -> (r: String)
    ensures
        r@ == "path"@,
{
    owned("path")
}


/// Message of a source whose cron expression does not parse.
pub open spec fn invalid_schedule_message(expr: Seq<char>) -> Seq<char> {
    "invalid cron schedule "@ + debug_text(expr) + ": "@ + cron_error_text()
}

/// The path whose modification time starting `source` needs: that of a file source, when
/// the source is not a ping source.
pub fn init_mtime_path(source: &EventSource) -> (r: Option<&String>)
    ensures
        r.is_some() == (source.spec.ping.is_none() && source.spec.file.is_some()),
        r.is_some() ==> *r.unwrap() == source.spec.file.unwrap().path,
{
    match (&source.spec.ping, &source.spec.file) {
        (None, Some(file)) => Some(&file.path),
        _ => None,
    }
}

/// What starting `source` at `now` gives, with `file_mtime` the file's modification time:
/// the state of the started source, or the error's text.
pub open spec fn init_outcome(source: EventSource, now: Timestamp, file_mtime: Option<Timestamp>, r: Result<SourceKind, Seq<char>>) -> bool {
    match source.spec.ping {
        Some(ping) => match ping.schedule {
            Some(expr) => if cron_accepts(expr@) {
                &&& r matches Ok(kind)
                &&& kind matches SourceKind::PingCron { schedule, next, data }
                &&& schedule@ == expr@
                &&& next == cron_next_after(expr@, now)
                &&& data@ == ping.data@
            } else {
                &&& r matches Err(m)
                &&& m == invalid_schedule_message(expr@)
            },
            None => match ping.interval_seconds {
                Some(i) => {
                    &&& r matches Ok(kind)
                    &&& kind matches SourceKind::PingInterval { interval_secs, last_fire, data }
                    &&& interval_secs == (if i >= 1 { i } else { 1 })
                    &&& last_fire == now
                    &&& data@ == ping.data@
                },
                None => {
                    &&& r matches Err(m)
                    &&& m == "ping requires schedule or intervalSeconds"@
                },
            },
        },
        None => match source.spec.file {
            Some(f) => {
                &&& r matches Ok(kind)
                &&& kind matches SourceKind::File { path, poll_secs, last_poll, last_mtime }
                &&& path@ == f.path@
                &&& poll_secs == (if f.interval_seconds == 0 { 2 } else { f.interval_seconds })
                &&& last_poll == now
                &&& last_mtime == file_mtime
            },
            None => {
                &&& r matches Err(m)
                &&& m == "eventsource spec must set one of ping / file"@
            },
        },
    }
}

/// A start result, by the started state or the error's text.
pub open spec fn runtime_result(r: Result<SourceRuntime, String>) -> Result<SourceKind, Seq<char>> {
    match r {
        Ok(rt) => Ok(rt.kind()),
        Err(m) => Err(m@),
    }
}

impl SourceRuntime {
    /// Starts a source at `now`. A ping source with a schedule fires next at the first
    /// instant the expression selects after `now` (an expression that does not parse is an
    /// error); one with an interval fires every `max(interval, 1)` seconds from `now`; one
    /// with neither is an error. A file source polls every `intervalSeconds` (two when zero)
    /// and takes `file_mtime`, the file's modification time now, as the baseline. A spec
    /// with neither kind is an error. Any time chrono can hold will do, except its last
    /// second for a schedule that parses: there the cron crate cannot step past `now`.
    pub fn init(source: &EventSource, now: Timestamp, file_mtime: Option<Timestamp>) -> (r: Result<SourceRuntime, String>)
        requires
            now.representable(),
            init_reads_cron(*source) ==> now.in_chrono_range(),
        ensures
            init_outcome(*source, now, file_mtime, runtime_result(r)),
    {
        match &source.spec.ping {
            Some(ping) => {
                match &ping.schedule {
                    Some(expr) => {
                        match cron_parse_error(expr.as_str()) {
                            Some(error) => {
                                let q = debug_quoted(expr.as_str());
                                let mut m = concat3("invalid cron schedule ", q.as_str(), ": ");
                                m.append(error.as_str());
                                Err(m)
                            },
                            None => {
                                let next = cron_next(expr.as_str(), now);
                                Ok(SourceRuntime {
                                    kind: SourceKind::PingCron { schedule: expr.clone(), next, data: ping.data.copy() },
                                })
                            },
                        }
                    },
                    None => match ping.interval_seconds {
                        Some(interval) => {
                            let secs = if interval >= 1 { interval } else { 1 };
                            Ok(SourceRuntime {
                                kind: SourceKind::PingInterval { interval_secs: secs, last_fire: now, data: ping.data.copy() },
                            })
                        },
                        None => Err(owned("ping requires schedule or intervalSeconds")),
                    },
                }
            },
            None => match &source.spec.file {
                Some(file) => {
                    let poll = if file.interval_seconds == 0 { 2 } else { file.interval_seconds };
                    Ok(SourceRuntime {
                        kind: SourceKind::File {
                            path: file.path.clone(),
                            poll_secs: poll,
                            last_poll: now,
                            last_mtime: file_mtime,
                        },
                    })
                },
                None => Err(owned("eventsource spec must set one of ping / file")),
            },
        }
    }
}


/// A file source is due to look at its file again.
pub open spec fn file_poll_due(k: SourceKind, now: Timestamp) -> bool {
    match k {
        SourceKind::File { poll_secs, last_poll, .. } => elapsed_nanos(now, last_poll) >= poll_secs * 1_000_000_000,
        _ => false,
    }
}

impl SourceRuntime {
    /// The file to read the modification time of before polling at `now`, when the source
    /// is a file source due to poll.
    pub fn mtime_due(&self, now: Timestamp) -> (r: Option<&String>)
        ensures
            r.is_some() == file_poll_due(self.kind(), now),
            r.is_some() ==> (self.kind() matches SourceKind::File { path, .. } && *r.unwrap() == path),
    {
        proof {
            use_type_invariant(self);
        }
        match &self.kind {
            SourceKind::File { path, poll_secs, last_poll, .. } => {
                if elapsed_at_least(now, *last_poll, *poll_secs) {
                    Some(path)
                } else {
                    None
                }
            },
            _ => None,
        }
    }

    /// Whether polling at `now` asks the cron crate for a next instant.
    pub fn reads_cron(&self, now: Timestamp) -> (r: bool)
        ensures
            r == poll_reads_cron(self.kind(), now),
    {
        match &self.kind {
            SourceKind::PingCron { next, .. } => match next {
                Some(at) => not_after(*at, now),
                None => false,
            },
            _ => false,
        }
    }

    /// Decides whether the source fires at `now`, and with what payload.
    ///
    /// An interval source fires once its interval has passed since it last fired, and
    /// restarts the interval at `now`. A cron source fires once its next instant is not
    /// after `now`, and moves on to the next instant after `now`. A file source that is due
    /// records `now` as its last poll and looks at `observed_mtime`, the file's modification
    /// time now: a change from a known time fires with the file's payload; a first sighting
    /// only sets the baseline. An invalid source never fires. Any time chrono can hold will
    /// do, except its last second for a cron source that is due.
    pub fn poll(&mut self, now: Timestamp, observed_mtime: Option<Timestamp>) -> (r: Option<JsonValue>)
        requires
            now.representable(),
            poll_reads_cron(old(self).kind(), now) ==> now.in_chrono_range(),
        ensures
            poll_step(old(self).kind(), now, observed_mtime, final(self).kind(), r),
    {
        proof {
            use_type_invariant(&*self);
        }
        let mut kind = SourceKind::Invalid;
        std::mem::swap(&mut kind, &mut self.kind);
        let (next_kind, fired) = poll_kind(kind, now, observed_mtime);
        self.kind = next_kind;
        fired
    }
}

/// One poll at `now`, with `observed_mtime` the file's modification time then: the source
/// goes from state `kind` to `k2` and fires with payload `r`, if any.
pub open spec fn poll_step(kind: SourceKind, now: Timestamp, observed_mtime: Option<Timestamp>, k2: SourceKind, r: Option<JsonValue>) -> bool {
    match kind {
        SourceKind::PingInterval { interval_secs, last_fire, data } => if elapsed_nanos(now, last_fire)
            >= interval_secs * 1_000_000_000 {
            &&& r matches Some(v) && v@ == data@
            &&& k2 matches SourceKind::PingInterval { interval_secs: i2, last_fire: l2, data: d2 }
            &&& i2 == interval_secs && l2 == now && d2@ == data@
        } else {
            &&& r.is_none()
            &&& k2 == kind
        },
        SourceKind::PingCron { schedule, next, data } => if next.is_some() && next.unwrap().not_after(now) {
            &&& r matches Some(v) && v@ == data@
            &&& k2 matches SourceKind::PingCron { schedule: s2, next: n2, data: d2 }
            &&& s2@ == schedule@ && n2 == cron_next_after(schedule@, now) && d2@ == data@
            &&& n2.is_some() ==> !n2.unwrap().not_after(now)
        } else {
            &&& r.is_none()
            &&& k2 == kind
        },
        SourceKind::File { path, poll_secs, last_poll, last_mtime } => if !file_poll_due(kind, now) {
            &&& r.is_none()
            &&& k2 == kind
        } else {
            let changed = last_mtime.is_some() && observed_mtime.is_some()
                && observed_mtime.unwrap() != last_mtime.unwrap();
            let first = last_mtime.is_none() && observed_mtime.is_some();
            &&& k2 matches SourceKind::File { path: p2, poll_secs: s2, last_poll: l2, last_mtime: m2 }
            &&& p2@ == path@ && s2 == poll_secs && l2 == now
            &&& m2 == (if changed || first { observed_mtime } else { last_mtime })
            &&& if changed {
                r matches Some(v) && v@ == file_event_spec(path@, observed_mtime.unwrap())
            } else {
                r.is_none()
            }
        },
        SourceKind::Invalid => {
            &&& r.is_none()
            &&& k2 == kind
        },
    }
}

/// Law: an interval source that fired at `t1` does not fire again before its interval
/// has passed.
pub proof fn law_interval_fires_once_per_interval(
    k: SourceKind,
    t1: Timestamp,
    o1: Option<Timestamp>,
    k2: SourceKind,
    r1: Option<JsonValue>,
    t2: Timestamp,
    o2: Option<Timestamp>,
    k3: SourceKind,
    r2: Option<JsonValue>,
)
    requires
        k is PingInterval,
        poll_step(k, t1, o1, k2, r1),
        r1.is_some(),
        poll_step(k2, t2, o2, k3, r2),
        elapsed_nanos(t2, t1) < k->PingInterval_interval_secs * 1_000_000_000,
    ensures
        r2.is_none(),
        k3 == k2,
{
}

/// Law: a file source fires only on a change from a modification time it already knew;
/// the first time it sees the file, it only records the time.
pub proof fn law_file_fires_only_on_change(k: SourceKind, now: Timestamp, observed: Option<Timestamp>, k2: SourceKind, r: Option<JsonValue>)
    requires
        k is File,
        poll_step(k, now, observed, k2, r),
        r.is_some(),
    ensures
        k->File_last_mtime.is_some(),
        observed.is_some(),
        observed != k->File_last_mtime,
        k2->File_last_mtime == observed,
{
}

/// Every period of a source state is at least one second: what starting a source gives.
pub open spec fn periods_positive(k: SourceKind) -> bool {
    match k {
        SourceKind::PingInterval { interval_secs, .. } => interval_secs >= 1,
        SourceKind::File { poll_secs, .. } => poll_secs >= 1,
        _ => true,
    }
}

/// Law: every state that starting a source gives has periods of at least one second.
pub proof fn law_started_periods_positive(source: EventSource, now: Timestamp, file_mtime: Option<Timestamp>, k: SourceKind)
    requires
        init_outcome(source, now, file_mtime, Ok(k)),
    ensures
        periods_positive(k),
{
}

/// Law: a source never fires twice for one instant. Whatever a poll at `now` did, a
/// second poll at the same `now` fires nothing; and polling keeps every period at least
/// one second, so this holds of every state a started source reaches.
pub proof fn law_at_most_one_event_per_instant(
    k: SourceKind,
    now: Timestamp,
    o1: Option<Timestamp>,
    k2: SourceKind,
    r1: Option<JsonValue>,
    o2: Option<Timestamp>,
    k3: SourceKind,
    r2: Option<JsonValue>,
)
    requires
        periods_positive(k),
        poll_step(k, now, o1, k2, r1),
        poll_step(k2, now, o2, k3, r2),
    ensures
        periods_positive(k2),
        r2.is_none(),
{
    match k {
        SourceKind::PingInterval { interval_secs, last_fire, .. } => {
            if elapsed_nanos(now, last_fire) >= interval_secs * 1_000_000_000 {
                assert(elapsed_nanos(now, now) == 0);
            }
        },
        SourceKind::File { poll_secs, last_poll, .. } => {
            if file_poll_due(k, now) {
                assert(elapsed_nanos(now, now) == 0);
                assert(!file_poll_due(k2, now));
            }
        },
        _ => {},
    }
}

fn poll_kind(kind: SourceKind, now: Timestamp, observed_mtime: Option<Timestamp>) -> (r: (SourceKind, Option<JsonValue>))
    requires
        now.representable(),
        poll_reads_cron(kind, now) ==> now.in_chrono_range(),
        (SourceRuntime { kind }).inv(),
    ensures
        (SourceRuntime { kind: r.0 }).inv(),
        poll_step(kind, now, observed_mtime, r.0, r.1),
{
    match kind {
        SourceKind::PingInterval { interval_secs, last_fire, data } => {
            if elapsed_at_least(now, last_fire, interval_secs) {
                let out = data.copy();
                (SourceKind::PingInterval { interval_secs, last_fire: now, data }, Some(out))
            } else {
                (SourceKind::PingInterval { interval_secs, last_fire, data }, None)
            }
        },
        SourceKind::PingCron { schedule, next, data } => {
            match next {
                Some(at) => {
                    if not_after(at, now) {
                        let n2 = cron_next(schedule.as_str(), now);
                        let out = data.copy();
                        (SourceKind::PingCron { schedule, next: n2, data }, Some(out))
                    } else {
                        (SourceKind::PingCron { schedule, next, data }, None)
                    }
                },
                None => (SourceKind::PingCron { schedule, next, data }, None),
            }
        },
        SourceKind::File { path, poll_secs, last_poll, last_mtime } => {
            if !elapsed_at_least(now, last_poll, poll_secs) {
                return (SourceKind::File { path, poll_secs, last_poll, last_mtime }, None);
            }
            match (last_mtime, observed_mtime) {
                (Some(prev), Some(current)) => {
                    if current != prev {
                        let out = file_event_data(&path, current);
                        (SourceKind::File { path, poll_secs, last_poll: now, last_mtime: Some(current) }, Some(out))
                    } else {
                        (SourceKind::File { path, poll_secs, last_poll: now, last_mtime }, None)
                    }
                },
                (None, Some(current)) => {
                    (SourceKind::File { path, poll_secs, last_poll: now, last_mtime: Some(current) }, None)
                },
                _ => (SourceKind::File { path, poll_secs, last_poll: now, last_mtime }, None),
            }
        },
        SourceKind::Invalid => (SourceKind::Invalid, None),
    }
}


/// The key a source's run-time state is kept under: `namespace/name`.
pub open spec fn source_key_spec(source: EventSource) -> Seq<char> {
    namespace_of(source.metadata) + "/"@ + source.metadata.name@
}

/// The `source` attribute of the events a source emits: `/eventsources/namespace/name`.
pub open spec fn source_id_spec(source: EventSource) -> Seq<char> {
    "/eventsources/"@ + namespace_of(source.metadata) + "/"@ + source.metadata.name@
}

/// The key a source's run-time state is kept under.
pub fn source_key(source: &EventSource) -> (r: String)
    ensures
        r@ == source_key_spec(*source),
{
    let ns = object_namespace(&source.metadata);
    concat3(ns.as_str(), "/", source.metadata.name.as_str())
}

/// The identity a source's events carry.
pub fn source_id(source: &EventSource) -> (r: String)
    ensures
        r@ == source_id_spec(*source),
{
    let ns = object_namespace(&source.metadata);
    let mut r = concat3("/eventsources/", ns.as_str(), "/");
    r.append(source.metadata.name.as_str());
    r
}

/// The event a source emits with payload `data`: of the source's event type, from the
/// source's identity, with a fresh identifier and the current time; none when the system
/// gives no random identifier or no time (see `CloudEvent::new`).
pub fn source_event(source: &EventSource, data: JsonValue) -> (r: Option<CloudEvent>)
    ensures
        r matches Some(e) ==> {
            &&& e.spec_version@ == "1.0"@
            &&& crate::api::event::is_v4_uuid_text(e.id@)
            &&& e.source@ == source_id_spec(*source)
            &&& e.event_type == source.spec.event_type
            &&& e.time.is_some()
            &&& e.data == data
        },
{
    CloudEvent::new(source.spec.event_type.clone(), source_id(source), data)
}

/// The run-time state of every event source, by key.
pub struct SourceTable {
    runtimes: Keyed<SourceRuntime>,
}

impl View for SourceTable {
    type V = Map<Seq<char>, SourceKind>;

    closed spec fn view(&self) -> Map<Seq<char>, SourceKind> {
        self.runtimes@.map_values(|rt: SourceRuntime| rt.kind())
    }
}

impl SourceTable {
    /// No sources yet.
    pub fn new() -> (r: SourceTable)
        ensures
            r@ == Map::<Seq<char>, SourceKind>::empty(),
    {
        let r = SourceTable { runtimes: Keyed::new() };
        assert(r@ =~= Map::<Seq<char>, SourceKind>::empty());
        r
    }

    /// Whether `source` has no state yet and must be started.
    pub fn needs_start(&self, source: &EventSource) -> (r: bool)
        ensures
            r == !self@.contains_key(source_key_spec(*source)),
    {
        let key = source_key(source);
        !self.runtimes.contains(&key)
    }

    /// Starts `source` at `now` if it has no state yet, with `file_mtime` the modification
    /// time of its file, if it is a file source. A source that cannot start is kept as one
    /// that never fires, and the error's text is returned.
    pub fn start(&mut self, source: &EventSource, now: Timestamp, file_mtime: Option<Timestamp>) -> (r: Option<String>)
        requires
            now.representable(),
            !old(self)@.contains_key(source_key_spec(*source)) && init_reads_cron(*source) ==> now.in_chrono_range(),
        ensures
            old(self)@.contains_key(source_key_spec(*source)) ==> r.is_none() && final(self)@ == old(self)@,
            !old(self)@.contains_key(source_key_spec(*source)) ==> {
                let k = source_key_spec(*source);
                &&& final(self)@ == old(self)@.insert(k, final(self)@[k])
                &&& init_outcome(*source, now, file_mtime, match r {
                    None => Ok(final(self)@[k]),
                    Some(m) => Err(m@),
                })
                &&& r.is_some() ==> final(self)@[k] == SourceKind::Invalid
            },
    {
        let key = source_key(source);
        if self.runtimes.contains(&key) {
            return None;
        }
        let ghost k = key@;
        match SourceRuntime::init(source, now, file_mtime) {
            Ok(rt) => {
                self.runtimes.insert(key, rt);
                proof {
                    assert(self@ =~= old(self)@.insert(k, self@[k]));
                }
                None
            },
            Err(m) => {
                self.runtimes.insert(key, SourceRuntime::invalid());
                proof {
                    assert(self@ =~= old(self)@.insert(k, self@[k]));
                }
                Some(m)
            },
        }
    }

    /// Whether starting (when it has no state) or else polling `source` at `now` asks the
    /// cron crate for a next instant, which needs `now` before chrono's last second.
    pub fn reads_cron(&self, source: &EventSource, now: Timestamp) -> (r: bool)
        ensures
            r == if self@.contains_key(source_key_spec(*source)) {
                poll_reads_cron(self@[source_key_spec(*source)], now)
            } else {
                init_reads_cron(*source)
            },
    {
        let key = source_key(source);
        match self.runtimes.get(&key) {
            Some(rt) => rt.reads_cron(now),
            None => match &source.spec.ping {
                Some(ping) => match &ping.schedule {
                    Some(expr) => cron_parse_error(expr.as_str()).is_none(),
                    None => false,
                },
                None => false,
            },
        }
    }

    /// The file whose modification time polling `source` at `now` needs, if any.
    pub fn mtime_due(&self, source: &EventSource, now: Timestamp) -> (r: Option<String>)
        ensures
            r.is_some() == (self@.contains_key(source_key_spec(*source)) && file_poll_due(
                self@[source_key_spec(*source)],
                now,
            )),
            r.is_some() ==> (self@[source_key_spec(*source)] matches SourceKind::File { path, .. } && r.unwrap()@
                == path@),
    {
        let key = source_key(source);
        match self.runtimes.get(&key) {
            Some(rt) => match rt.mtime_due(now) {
                Some(p) => Some(p.clone()),
                None => None,
            },
            None => None,
        }
    }

    /// Polls `source` at `now`, with `observed_mtime` the modification time of its file:
    /// the payload of the event it fires, if any. A source without state does nothing.
    pub fn poll(&mut self, source: &EventSource, now: Timestamp, observed_mtime: Option<Timestamp>) -> (r: Option<JsonValue>)
        requires
            now.representable(),
            old(self)@.contains_key(source_key_spec(*source)) && poll_reads_cron(old(self)@[source_key_spec(*source)], now) ==> now.in_chrono_range(),
        ensures
            !old(self)@.contains_key(source_key_spec(*source)) ==> r.is_none() && final(self)@ == old(self)@,
            old(self)@.contains_key(source_key_spec(*source)) ==> {
                let k = source_key_spec(*source);
                &&& final(self)@ == old(self)@.insert(k, final(self)@[k])
                &&& poll_step(old(self)@[k], now, observed_mtime, final(self)@[k], r)
            },
    {
        let key = source_key(source);
        let ghost k = key@;
        match self.runtimes.take(&key) {
            Some(mut rt) => {
                let fired = rt.poll(now, observed_mtime);
                self.runtimes.insert(key, rt);
                proof {
                    assert(self@ =~= old(self)@.insert(k, self@[k]));
                }
                fired
            },
            None => {
                proof {
                    assert(self@ =~= old(self)@);
                }
                None
            },
        }
    }

    /// Forgets the state of every source not among `sources`.
    pub fn retain_live(&mut self, sources: &Vec<EventSource>)
        ensures
            final(self)@ == old(self)@.restrict(
                Set::new(|k: Seq<char>| exists|i: int| 0 <= i < sources@.len() && source_key_spec(#[trigger] sources@[i]) == k),
            ),
    {
        let mut live: Vec<String> = Vec::new();
        let mut i: usize = 0;
        while i < sources.len()
            invariant
                i <= sources@.len(),
                live@.len() == i,
                forall|j: int| 0 <= j < i ==> (#[trigger] live@[j])@ == source_key_spec(sources@[j]),
            decreases sources@.len() - i,
        {
            live.push(source_key(&sources[i]));
            i = i + 1;
        }
        self.runtimes.retain_keys(&live);
        proof {
            let ls = crate::text::texts(live@).to_set();
            let want = Set::new(|k: Seq<char>| exists|i: int| 0 <= i < sources@.len() && source_key_spec(#[trigger] sources@[i]) == k);
            assert forall|k: Seq<char>| ls.contains(k) <==> want.contains(k) by {
                if ls.contains(k) {
                    let j = choose|j: int| 0 <= j < crate::text::texts(live@).len() && crate::text::texts(live@)[j] == k;
                    assert(source_key_spec(sources@[j]) == k);
                }
                if want.contains(k) {
                    let j = choose|j: int| 0 <= j < sources@.len() && source_key_spec(#[trigger] sources@[j]) == k;
                    assert(crate::text::texts(live@)[j] == k);
                }
            }
            assert(ls =~= want);
            assert(self@ =~= old(self)@.restrict(want));
        }
    }
}

} // verus!
