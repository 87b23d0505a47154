//! The CloudEvents 1.0 envelope passed between sources, the broker and triggers.

use crate::json::JsonValue;
use crate::text::owned;
use crate::time::{now_utc, Timestamp};
use vstd::prelude::*;

verus! {

/// A CloudEvents 1.0 event. `source` names where it came from (such as
/// `/eventsources/default/cron-tick`); triggers select events by `event_type`; `data` is
/// the payload handed to the target.
#[derive(Debug, Default, PartialEq, Eq)]
pub struct CloudEvent {
    pub spec_version: String,
    pub id: String,
    pub source: String,
    pub event_type: String,
    pub time: Option<Timestamp>,
    pub data_content_type: Option<String>,
    pub data: JsonValue,
}

/// A lowercase hexadecimal digit.
pub open spec fn is_lower_hex(c: char) -> bool {
    ('0' <= c && c <= '9') || ('a' <= c && c <= 'f')
}

/// The text of a random (version 4) UUID in hyphenated lowercase form, such as
/// `67e55044-10b1-426f-9247-bb680e5fe0c8`.
pub open spec fn is_v4_uuid_text(s: Seq<char>) -> bool {
    &&& s.len() == 36
    &&& forall|i: int|
        0 <= i < 36 ==> if i == 8 || i == 13 || i == 18 || i == 23 {
            #[trigger] s[i] == '-'
        } else {
            is_lower_hex(s[i])
        }
    &&& s[14] == '4'
    &&& (s[19] == '8' || s[19] == '9' || s[19] == 'a' || s[19] == 'b')
}

/// The text of the version 4 UUID that `uuid::Builder::from_random_bytes` makes of
/// sixteen random bytes.
pub uninterp spec fn v4_uuid_text(bytes: Seq<u8>) -> Seq<char>;

/// `getrandom::fill` on sixteen bytes: random bytes from the operating system, or none when
/// its random source fails.
#[verifier::external_body]
fn random_bytes() -> Option<[u8; 16]> {
    let mut bytes = [0u8; 16];
    getrandom::fill(&mut bytes).ok()?;
    Some(bytes)
}

/// `Builder::from_random_bytes(bytes).into_uuid().to_string()`: the version 4 UUID made of
/// the bytes (version and variant bits set), in hyphenated lowercase form.
#[verifier::external_body]
fn uuid_from_random(bytes: [u8; 16]) -> (r: String)
    ensures
        r@ == v4_uuid_text(bytes@),
        is_v4_uuid_text(r@),
{
    uuid::Builder::from_random_bytes(bytes).into_uuid().to_string()
}

/// A fresh random identifier, as `Uuid::new_v4()` makes one; none when the operating
/// system gives no random bytes (where `Uuid::new_v4()` panics).
fn new_event_id() -> (r: Option<String>)
    ensures
        r matches Some(id) ==> is_v4_uuid_text(id@),
{
    match random_bytes() {
        Some(bytes) => Some(uuid_from_random(bytes)),
        None => None,
    }
}

impl CloudEvent {
    /// An event with the given identifier and time, of version `1.0` and content type
    /// `application/json`.
    pub fn assemble(event_type: String, source: String, data: JsonValue, id: String, time: Timestamp) -> (r: CloudEvent)
        ensures
            r.spec_version@ == "1.0"@,
            r.id == id,
            r.source == source,
            r.event_type == event_type,
            r.time == Some(time),
            r.data_content_type matches Some(t) && t@ == "application/json"@,
            r.data == data,
    {
        CloudEvent {
            spec_version: owned("1.0"),
            id,
            source,
            event_type,
            time: Some(time),
            data_content_type: Some(owned("application/json")),
            data,
        }
    }

    /// A CloudEvents 1.0 event with a fresh random identifier and the current time; none
    /// when the system gives no random bytes or its clock reads before the epoch.
    pub fn new(event_type: String, source: String, data: JsonValue) -> (r: Option<CloudEvent>)
        ensures
            r matches Some(e) ==> {
                &&& e.spec_version@ == "1.0"@
                &&& is_v4_uuid_text(e.id@)
                &&& e.source == source
                &&& e.event_type == event_type
                &&& e.time matches Some(t) && t.representable() && 0 <= t.secs
                &&& e.data_content_type matches Some(t) && t@ == "application/json"@
                &&& e.data == data
            },
    {
        let id = match new_event_id() {
            Some(id) => id,
            None => return None,
        };
        let time = match now_utc() {
            Some(t) => t,
            None => return None,
        };
        Some(CloudEvent::assemble(event_type, source, data, id, time))
    }
}

} // verus!
