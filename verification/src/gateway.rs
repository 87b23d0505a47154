//! The activator's HTTP API: decoding requests, finding the addressed resource, and the
//! replies it sends.

use crate::api::event::CloudEvent;
use crate::api::service::ServerlessService;
use crate::broker::EventDelivery;
use crate::http::{api_error, bad_request, HttpError};
use crate::json::{json_from_bytes, parse_json_bytes, JsonValue, JsonView};
use crate::meta::{namespace_of, object_namespace, ObjectMeta};
use crate::runtime::RuntimeSnapshot;
use crate::text::{concat2, concat3, owned};
use vstd::prelude::*;

verus! {

/// What a request body means: null when empty, else the JSON it holds; anything else is a
/// bad request.
pub open spec fn body_spec(body: Seq<u8>) -> Result<JsonView, (u16, Seq<char>)> {
    if body.len() == 0 {
        Ok(JsonView::Null)
    } else {
        match json_from_bytes(body) {
            Ok(v) => Ok(v),
            Err(e) => Err((400u16, "invalid JSON body: "@ + e + "\n"@)),
        }
    }
}

/// Decodes a request body.
pub fn decode_json_body(body: &[u8]) -> (r: Result<JsonValue, HttpError>)
    ensures
        match body_spec(body@) {
            Ok(v) => r matches Ok(x) && x@ == v,
            Err(e) => r matches Err(h) && h.status == e.0 && h.message@ == e.1,
        },
{
    if body.len() == 0 {
        return Ok(JsonValue::Null);
    }
    match parse_json_bytes(body) {
        Ok(v) => Ok(v),
        Err(e) => {
            let m = concat2("invalid JSON body: ", e.as_str());
            Err(bad_request(m.as_str()))
        },
    }
}

/// The object is `name` in `namespace` (its blank namespace counting as the default one).
pub open spec fn is_named(meta: ObjectMeta, namespace: Seq<char>, name: Seq<char>) -> bool {
    meta.name@ == name && namespace_of(meta) == namespace
}

/// Position of the first object named `name` in `namespace`, if any.
pub fn find_namespaced(metas: &Vec<ObjectMeta>, namespace: &str, name: &str) -> (r: Option<usize>)
    ensures
        match r {
            Some(i) => i < metas@.len() && is_named(metas@[i as int], namespace@, name@) && forall|j: int|
                0 <= j < i ==> !is_named(#[trigger] metas@[j], namespace@, name@),
            None => forall|j: int| 0 <= j < metas@.len() ==> !is_named(#[trigger] metas@[j], namespace@, name@),
        },
{
    let ns = owned(namespace);
    let n = owned(name);
    let mut i: usize = 0;
    while i < metas.len()
        invariant
            i <= metas@.len(),
            ns@ == namespace@,
            n@ == name@,
            forall|j: int| 0 <= j < i ==> !is_named(#[trigger] metas@[j], namespace@, name@),
        decreases metas@.len() - i,
    {
        if metas[i].name == n && object_namespace(&metas[i]) == ns {
            return Some(i);
        }
        i = i + 1;
    }
    None
}

/// The reply when a resource cannot be loaded: `<Kind> <namespace>/<name> not found: <why>`.
pub fn load_error(kind: &str, namespace: &str, name: &str, detail: &str) -> (r: HttpError)
    ensures
        r.status == 500,
        r.message@ == kind@ + " "@ + namespace@ + "/"@ + name@ + " not found: "@ + detail@ + "\n"@,
{
    let mut m = concat3(kind, " ", namespace);
    m.append("/");
    m.append(name);
    m.append(" not found: ");
    m.append(detail);
    api_error(m.as_str())
}

/// The reply when invoking a service failed: `function <namespace>/<name> failed: <why>`.
pub fn invoke_failure(service: &ServerlessService, detail: &str) -> (r: HttpError)
    ensures
        r.status == 500,
        r.message@ == "function "@ + namespace_of(service.metadata) + "/"@ + service.metadata.name@ + " failed: "@
            + detail@ + "\n"@,
{
    let ns = object_namespace(&service.metadata);
    let mut m = concat3("function ", ns.as_str(), "/");
    m.append(service.metadata.name.as_str());
    m.append(" failed: ");
    m.append(detail);
    api_error(m.as_str())
}

/// The reply to an invocation: the function's result and the counts after it.
#[derive(Debug, PartialEq, Eq)]
pub struct InvokeResponse {
    pub result: JsonValue,
    pub runtime: RuntimeSnapshot,
}

/// The reply to a state query: the service and its counts.
#[derive(Debug, PartialEq, Eq)]
pub struct FunctionStateResponse {
    pub namespace: String,
    pub name: String,
    pub runtime: RuntimeSnapshot,
}

/// The reply to a published event: its type and what each delivery returned.
#[derive(Debug, PartialEq, Eq)]
pub struct EventResponse {
    pub event_type: String,
    pub delivered: usize,
    pub results: Vec<EventDelivery>,
}

/// The `source` of events posted to the HTTP ingress.
pub const INGRESS_SOURCE: &'static str = "/api/v1/events";

/// The event made of a body posted to `/api/v1/events/<event_type>`.
/// None when the system gives no random identifier or no time (see `CloudEvent::new`).
pub fn ingress_event(event_type: String, data: JsonValue) -> (r: Option<CloudEvent>)
    ensures
        r matches Some(e) ==> {
            &&& e.event_type == event_type
            &&& e.source@ == INGRESS_SOURCE@
            &&& e.data == data
            &&& e.spec_version@ == "1.0"@
            &&& crate::api::event::is_v4_uuid_text(e.id@)
            &&& e.time.is_some()
        },
{
    CloudEvent::new(event_type, owned(INGRESS_SOURCE), data)
}

/// The reply to a published event, counting the deliveries that succeeded.
pub fn event_response(event_type: String, results: Vec<EventDelivery>) -> (r: EventResponse)
    ensures
        r.event_type == event_type,
        r.delivered == results@.len(),
        r.results == results,
{
    let delivered = results.len();
    EventResponse { event_type, delivered, results }
}

} // verus!
