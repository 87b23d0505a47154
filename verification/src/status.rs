//! The statuses the controller and the activator record on resources.

use crate::api::eventsource::{fired_status, fired_status_spec, EventSourceStatus};
use crate::api::eventtrigger::{EventTrigger, EventTriggerStatus};
use crate::api::service::{ServerlessService, ServerlessServiceStatus};
use crate::api::workflow::{contains_step, has_step, steps_view, Workflow, WorkflowStatus};
use crate::json::{JsonNumber, JsonValue, JsonView, NumberView};
use crate::pods::{revision_name_spec, service_revision_name, service_url, service_url_spec};
use crate::runtime::RuntimeSnapshot;
use crate::text::owned;
use crate::time::{now_utc, Timestamp};
use vstd::prelude::*;

verus! {

/// How `chrono` serializes a time: RFC 3339 in UTC with a `Z`, with as many fractional
/// digits as the nanoseconds need (`to_rfc3339_opts(SecondsFormat::AutoSi, true)`).
pub uninterp spec fn rfc3339_text(t: Timestamp) -> Seq<char>;

/// The text `chrono` serializes a `DateTime<Utc>` at `t` to.
#[verifier::external_body]
pub(crate) fn timestamp_text(t: Timestamp) -> (r: String)
    requires
        t.representable(),
    ensures
        r@ == rfc3339_text(t),
{
    let at = chrono::DateTime::from_timestamp(t.secs, t.nanos).unwrap();
    at.to_rfc3339_opts(chrono::SecondsFormat::AutoSi, true)
}

/// The full status a service gets after an invocation at `now`: ready, its revision and
/// URL, the activator's counts and the error, if any. The desired count is not reported.
pub fn service_status_at(service: &ServerlessService, active_instances: u32, in_flight: u32, last_error: Option<String>, now: Timestamp) -> (r: ServerlessServiceStatus)
    ensures
        r.ready,
        r.latest_revision matches Some(v) && v@ == revision_name_spec(*service),
        r.active_instances == active_instances,
        r.desired_instances == 0,
        r.in_flight == in_flight,
        r.url matches Some(u) && u@ == service_url_spec(*service),
        r.last_invoked_at == Some(now),
        r.last_error == last_error,
{
    ServerlessServiceStatus {
        ready: true,
        latest_revision: Some(service_revision_name(service)),
        active_instances,
        desired_instances: 0,
        in_flight,
        url: Some(service_url(service)),
        last_invoked_at: Some(now),
        last_error,
    }
}

/// `service_status_at` at the current time; none when the clock reads before the epoch
/// (see `now_utc`).
pub fn service_status(service: &ServerlessService, active_instances: u32, in_flight: u32, last_error: Option<String>) -> (r: Option<ServerlessServiceStatus>)
    ensures
        r matches Some(st) ==> {
            &&& st.ready
            &&& st.latest_revision matches Some(v) && v@ == revision_name_spec(*service)
            &&& st.active_instances == active_instances
            &&& st.desired_instances == 0
            &&& st.in_flight == in_flight
            &&& st.url matches Some(u) && u@ == service_url_spec(*service)
            &&& st.last_invoked_at matches Some(t) && t.representable()
            &&& st.last_error == last_error
        },
{
    match now_utc() {
        Some(now) => Some(service_status_at(service, active_instances, in_flight, last_error, now)),
        None => None,
    }
}

fn text_value(s: String) -> (r: JsonValue)
    ensures
        r@ == JsonView::Str(s@),
{
    JsonValue::String(s)
}

fn count_value(n: u32) -> (r: JsonValue)
    ensures
        r@ == JsonView::Number(NumberView::PosInt(n as u64)),
{
    JsonValue::Number(JsonNumber::PosInt(n as u64))
}

fn wrap_status(fields: Vec<(String, JsonValue)>) -> (r: JsonValue)
    ensures
        r@ == JsonView::Object(seq![("status"@, JsonValue::Object(fields)@)]),
{
    let mut top: Vec<(String, JsonValue)> = Vec::new();
    top.push((owned("status"), JsonValue::Object(fields)));
    let r = JsonValue::Object(top);
    proof {
        if let JsonView::Object(fs) = r@ {
            assert(fs =~= seq![("status"@, json_of(top@[0].1))]);
        }
    }
    r
}

spec fn json_of(v: JsonValue) -> JsonView {
    v@
}

/// An optional text by its characters.
pub open spec fn opt_view(o: Option<String>) -> Option<Seq<char>> {
    match o {
        Some(e) => Some(e@),
        None => None,
    }
}

/// The merge patch with which the activator records an invocation at `now`: the wanted
/// instances, the requests in flight, the time and the error (null when none).
pub open spec fn runtime_patch_spec(snapshot: RuntimeSnapshot, last_error: Option<Seq<char>>, now: Timestamp) -> JsonView {
    JsonView::Object(seq![("status"@, JsonView::Object(seq![
        ("desiredInstances"@, JsonView::Number(NumberView::PosInt(snapshot.active_instances as u64))),
        ("inFlight"@, JsonView::Number(NumberView::PosInt(snapshot.in_flight as u64))),
        ("lastError"@, match last_error { Some(e) => JsonView::Str(e), None => JsonView::Null }),
        ("lastInvokedAt"@, JsonView::Str(rfc3339_text(now))),
    ]))])
}

/// The activator's status patch for an invocation at `now`.
pub fn runtime_status_patch_at(snapshot: RuntimeSnapshot, last_error: Option<String>, now: Timestamp) -> (r: JsonValue)
    requires
        now.representable(),
    ensures
        r@ == runtime_patch_spec(snapshot, opt_view(last_error), now),
{
    let ghost err = opt_view(last_error);
    let error_value = match last_error {
        Some(e) => text_value(e),
        None => JsonValue::Null,
    };
    let mut fields: Vec<(String, JsonValue)> = Vec::new();
    fields.push((owned("desiredInstances"), count_value(snapshot.active_instances)));
    fields.push((owned("inFlight"), count_value(snapshot.in_flight)));
    fields.push((owned("lastError"), error_value));
    fields.push((owned("lastInvokedAt"), text_value(timestamp_text(now))));
    proof {
        let inner = JsonValue::Object(fields)@;
        if let JsonView::Object(fs) = inner {
            assert(fs.len() == 4);
            assert(fs[0] == ("desiredInstances"@, json_of(fields@[0].1)));
            assert(fs[2] == ("lastError"@, json_of(fields@[2].1)));
            assert(fs =~= seq![
                ("desiredInstances"@, JsonView::Number(NumberView::PosInt(snapshot.active_instances as u64))),
                ("inFlight"@, JsonView::Number(NumberView::PosInt(snapshot.in_flight as u64))),
                ("lastError"@, match err { Some(e) => JsonView::Str(e), None => JsonView::Null }),
                ("lastInvokedAt"@, JsonView::Str(rfc3339_text(now))),
            ]);
        }
    }
    wrap_status(fields)
}

/// The activator's status patch for an invocation now; none when the clock reads before
/// the epoch (see `now_utc`).
pub fn runtime_status_patch(snapshot: RuntimeSnapshot, last_error: Option<String>) -> (r: Option<JsonValue>)
    ensures
        r matches Some(p) ==> exists|t: Timestamp| t.representable() && p@ == runtime_patch_spec(
            snapshot,
            opt_view(last_error),
            t,
        ),
{
    match now_utc() {
        Some(now) => Some(runtime_status_patch_at(snapshot, last_error, now)),
        None => None,
    }
}

/// The merge patch recording how many instances the activator wants.
pub open spec fn desired_patch_spec(desired: u32) -> JsonView {
    JsonView::Object(seq![("status"@, JsonView::Object(seq![
        ("desiredInstances"@, JsonView::Number(NumberView::PosInt(desired as u64))),
    ]))])
}

/// The activator's patch when it warms a service up before any request: the wanted count
/// only.
pub fn desired_status_patch(desired: u32) -> (r: JsonValue)
    ensures
        r@ == desired_patch_spec(desired),
{
    let mut fields: Vec<(String, JsonValue)> = Vec::new();
    fields.push((owned("desiredInstances"), count_value(desired)));
    proof {
        if let JsonView::Object(fs) = JsonValue::Object(fields)@ {
            assert(fs =~= seq![("desiredInstances"@, JsonView::Number(NumberView::PosInt(desired as u64)))]);
        }
    }
    wrap_status(fields)
}

/// The merge patch with which the controller records what it observed: ready unless there
/// was an error, the revision, the active pods, the URL, and the error, if any.
pub open spec fn observed_patch_spec(service: ServerlessService, active: u32, last_error: Option<Seq<char>>) -> JsonView {
    let revision = ("latestRevision"@, JsonView::Str(revision_name_spec(service)));
    let count = ("activeInstances"@, JsonView::Number(NumberView::PosInt(active as u64)));
    let url = ("url"@, JsonView::Str(service_url_spec(service)));
    match last_error {
        Some(e) => JsonView::Object(seq![("status"@, JsonView::Object(seq![
            count, ("lastError"@, JsonView::Str(e)), revision, ("ready"@, JsonView::Bool(false)), url,
        ]))]),
        None => JsonView::Object(seq![("status"@, JsonView::Object(seq![
            count, revision, ("ready"@, JsonView::Bool(true)), url,
        ]))]),
    }
}

/// The controller's status patch after reconciling a service.
pub fn observed_status_patch(service: &ServerlessService, active_instances: u32, last_error: Option<String>) -> (r: JsonValue)
    ensures
        r@ == observed_patch_spec(*service, active_instances, opt_view(last_error)),
{
    let revision = service_revision_name(service);
    let url = service_url(service);
    let ghost rv = revision@;
    let ghost uv = url@;
    let mut fields: Vec<(String, JsonValue)> = Vec::new();
    fields.push((owned("activeInstances"), count_value(active_instances)));
    match last_error {
        Some(e) => {
            let ghost ev = e@;
            fields.push((owned("lastError"), text_value(e)));
            fields.push((owned("latestRevision"), text_value(revision)));
            fields.push((owned("ready"), JsonValue::Bool(false)));
            fields.push((owned("url"), text_value(url)));
            proof {
                if let JsonView::Object(fs) = JsonValue::Object(fields)@ {
                    assert(fs.len() == 5);
                    assert(fs[0] == ("activeInstances"@, json_of(fields@[0].1)));
                    assert(fs[1] == ("lastError"@, json_of(fields@[1].1)));
                    assert(fs[2] == ("latestRevision"@, json_of(fields@[2].1)));
                    assert(fs[3] == ("ready"@, json_of(fields@[3].1)));
                    assert(fs[4] == ("url"@, json_of(fields@[4].1)));
                    assert(fs =~= seq![
                        ("activeInstances"@, JsonView::Number(NumberView::PosInt(active_instances as u64))),
                        ("lastError"@, JsonView::Str(ev)),
                        ("latestRevision"@, JsonView::Str(rv)),
                        ("ready"@, JsonView::Bool(false)),
                        ("url"@, JsonView::Str(uv)),
                    ]);
                }
            }
            wrap_status(fields)
        },
        None => {
            fields.push((owned("latestRevision"), text_value(revision)));
            fields.push((owned("ready"), JsonValue::Bool(true)));
            fields.push((owned("url"), text_value(url)));
            proof {
                if let JsonView::Object(fs) = JsonValue::Object(fields)@ {
                    assert(fs.len() == 4);
                    assert(fs[0] == ("activeInstances"@, json_of(fields@[0].1)));
                    assert(fs[1] == ("latestRevision"@, json_of(fields@[1].1)));
                    assert(fs[2] == ("ready"@, json_of(fields@[2].1)));
                    assert(fs[3] == ("url"@, json_of(fields@[3].1)));
                    assert(fs =~= seq![
                        ("activeInstances"@, JsonView::Number(NumberView::PosInt(active_instances as u64))),
                        ("latestRevision"@, JsonView::Str(rv)),
                        ("ready"@, JsonView::Bool(true)),
                        ("url"@, JsonView::Str(uv)),
                    ]);
                }
            }
            wrap_status(fields)
        },
    }
}

/// A workflow's status after an invocation at `now`: ready when its entrypoint names a
/// step, with the time and the error, if any.
pub fn workflow_status_at(workflow: &Workflow, last_error: Option<String>, now: Timestamp) -> (r: WorkflowStatus)
    ensures
        r.ready == has_step(steps_view(workflow.spec.steps@), workflow.spec.entrypoint@),
        r.last_invoked_at == Some(now),
        r.last_error == last_error,
{
    WorkflowStatus {
        ready: contains_step(&workflow.spec.steps, &workflow.spec.entrypoint),
        last_invoked_at: Some(now),
        last_error,
    }
}

/// `workflow_status_at` at the current time; none when the clock reads before the epoch
/// (see `now_utc`).
pub fn workflow_status(workflow: &Workflow, last_error: Option<String>) -> (r: Option<WorkflowStatus>)
    ensures
        r matches Some(st) ==> {
            &&& st.ready == has_step(steps_view(workflow.spec.steps@), workflow.spec.entrypoint@)
            &&& st.last_invoked_at matches Some(t) && t.representable()
            &&& st.last_error == last_error
        },
{
    match now_utc() {
        Some(now) => Some(workflow_status_at(workflow, last_error, now)),
        None => None,
    }
}

/// A trigger's status after a delivery at `now`: ready, one more delivery, no error.
pub fn trigger_success_status_at(trigger: &EventTrigger, now: Timestamp) -> (r: EventTriggerStatus)
    requires
        trigger.status.delivered_count < u64::MAX,
    ensures
        r.ready,
        r.delivered_count == trigger.status.delivered_count + 1,
        r.last_delivered_at == Some(now),
        r.last_error.is_none(),
{
    EventTriggerStatus {
        ready: true,
        delivered_count: trigger.status.delivered_count + 1,
        last_delivered_at: Some(now),
        last_error: None,
    }
}

/// `trigger_success_status_at` at the current time; none when the clock reads before the
/// epoch (see `now_utc`).
pub fn trigger_success_status(trigger: &EventTrigger) -> (r: Option<EventTriggerStatus>)
    requires
        trigger.status.delivered_count < u64::MAX,
    ensures
        r matches Some(st) ==> {
            &&& st.ready
            &&& st.delivered_count == trigger.status.delivered_count + 1
            &&& st.last_delivered_at matches Some(t) && t.representable()
            &&& st.last_error.is_none()
        },
{
    match now_utc() {
        Some(now) => Some(trigger_success_status_at(trigger, now)),
        None => None,
    }
}

/// An event source's status after it fired now; none when the clock reads before the
/// epoch (see `now_utc`).
pub fn source_fired_status(old: &EventSourceStatus) -> (r: Option<EventSourceStatus>)
    requires
        old.event_count < u64::MAX,
    ensures
        r matches Some(st) ==> exists|t: Timestamp| t.representable() && st == fired_status_spec(*old, t),
{
    match now_utc() {
        Some(now) => Some(fired_status(old, now)),
        None => None,
    }
}

} // verus!
