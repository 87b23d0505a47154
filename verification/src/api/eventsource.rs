//! `EventSource`: produces events on a schedule (`ping`) or when a file changes (`file`).

use crate::api::{SpecError, SpecErrorView, GROUP, VERSION};
use crate::json::JsonValue;
use crate::meta::{ObjectMeta, TypeMeta};
use crate::text::{all_ws, is_blank};
use crate::time::Timestamp;
use vstd::prelude::*;

verus! {

/// An event source.
#[derive(Debug, Default, PartialEq, Eq)]
pub struct EventSource {
    pub types: TypeMeta,
    pub metadata: ObjectMeta,
    pub spec: EventSourceSpec,
    pub status: EventSourceStatus,
}

/// The event type emitted and exactly one of the two source kinds.
#[derive(Debug, Default, PartialEq, Eq)]
pub struct EventSourceSpec {
    pub event_type: String,
    pub ping: Option<PingSource>,
    pub file: Option<FileSource>,
}

/// A timed source: a cron `schedule` or a period in seconds (one of the two), and the
/// payload it sends.
#[derive(Debug, Default, PartialEq, Eq)]
pub struct PingSource {
    pub schedule: Option<String>,
    pub interval_seconds: Option<u64>,
    pub data: JsonValue,
}

/// A file watched for changes of its modification time, polled every `interval_seconds`
/// (every two seconds when zero).
#[derive(Clone, Debug, Default, PartialEq, Eq)]
pub struct FileSource {
    pub path: String,
    pub interval_seconds: u64,
}

/// How the source has fired so far.
#[derive(Clone, Debug, Default, PartialEq, Eq)]
pub struct EventSourceStatus {
    pub ready: bool,
    pub event_count: u64,
    pub last_event_at: Option<Timestamp>,
    pub last_error: Option<String>,
}

/// The first rule an event source spec breaks, if any, in the order the API checks them.
pub open spec fn source_spec_check(spec: EventSourceSpec) -> Option<SpecErrorView> {
    if all_ws(spec.event_type@) {
        Some(SpecErrorView::SourceEventTypeRequired)
    } else if spec.ping.is_some() && spec.file.is_some() {
        Some(SpecErrorView::SourceBothPingAndFile)
    } else if spec.ping.is_none() && spec.file.is_none() {
        Some(SpecErrorView::SourceNeitherPingNorFile)
    } else if spec.ping.is_some() {
        let ping = spec.ping.unwrap();
        if ping.schedule.is_some() && ping.interval_seconds.is_some() {
            Some(SpecErrorView::SourcePingBothScheduleAndInterval)
        } else if ping.schedule.is_none() && ping.interval_seconds.is_none() {
            Some(SpecErrorView::SourcePingWithoutSchedule)
        } else if ping.interval_seconds == Some(0u64) {
            Some(SpecErrorView::SourcePingIntervalZero)
        } else {
            None
        }
    } else if all_ws(spec.file.unwrap().path@) {
        Some(SpecErrorView::SourceFilePathRequired)
    } else {
        None
    }
}

impl EventSource {
    pub fn kind() -> (r: &'static str)
        ensures
            r@ == "EventSource"@,
    {
        "EventSource"
    }

    pub fn plural() -> (r: &'static str)
        ensures
            r@ == "eventsources"@,
    {
        "eventsources"
    }

    pub fn group() -> (r: &'static str)
        ensures
            r@ == GROUP@,
    {
        GROUP
    }

    pub fn version() -> (r: &'static str)
        ensures
            r@ == VERSION@,
    {
        VERSION
    }

    pub fn metadata(&self) -> (r: &ObjectMeta)
        ensures
            *r == self.metadata,
    {
        &self.metadata
    }

    pub fn metadata_mut(&mut self) -> (r: &mut ObjectMeta)
        ensures
            *r == old(self).metadata,
            *final(self) == (EventSource { metadata: *final(r), ..*old(self) }),
    {
        &mut self.metadata
    }

    pub fn status(&self) -> (r: &EventSourceStatus)
        ensures
            *r == self.status,
    {
        &self.status
    }

    pub fn status_mut(&mut self) -> (r: &mut EventSourceStatus)
        ensures
            *r == old(self).status,
            *final(self) == (EventSource { status: *final(r), ..*old(self) }),
    {
        &mut self.status
    }

    /// Checks the spec: a non-blank event type and exactly one of `ping` / `file`; a ping
    /// needs exactly one of a schedule or a non-zero interval, a file a non-blank path.
    pub fn validate_spec(&self) -> (r: Result<(), SpecError>)
        ensures
            r.is_ok() == source_spec_check(self.spec).is_none(),
            r.is_err() ==> r->Err_0@ == source_spec_check(self.spec).unwrap(),
    {
        if is_blank(self.spec.event_type.as_str()) {
            return Err(SpecError::SourceEventTypeRequired);
        }
        match (&self.spec.ping, &self.spec.file) {
            (Some(_), Some(_)) => Err(SpecError::SourceBothPingAndFile),
            (None, None) => Err(SpecError::SourceNeitherPingNorFile),
            (Some(ping), None) => {
                if ping.schedule.is_some() && ping.interval_seconds.is_some() {
                    return Err(SpecError::SourcePingBothScheduleAndInterval);
                }
                if ping.schedule.is_none() && ping.interval_seconds.is_none() {
                    return Err(SpecError::SourcePingWithoutSchedule);
                }
                match ping.interval_seconds {
                    Some(0) => Err(SpecError::SourcePingIntervalZero),
                    _ => Ok(()),
                }
            },
            (None, Some(file)) => {
                if is_blank(file.path.as_str()) {
                    return Err(SpecError::SourceFilePathRequired);
                }
                Ok(())
            },
        }
    }
}

/// Status after the source fired at `now`: ready, one more event, no error.
pub open spec fn fired_status_spec(old: EventSourceStatus, now: Timestamp) -> EventSourceStatus {
    EventSourceStatus {
        ready: true,
        event_count: (old.event_count + 1) as u64,
        last_event_at: Some(now),
        last_error: None,
    }
}

/// The status recorded when the source fired at `now`.
pub fn fired_status(old: &EventSourceStatus, now: Timestamp) -> (r: EventSourceStatus)
    requires
        old.event_count < u64::MAX,
    ensures
        r == fired_status_spec(*old, now),
{
    EventSourceStatus { ready: true, event_count: old.event_count + 1, last_event_at: Some(now), last_error: None }
}

/// The status recorded when the source is invalid: not ready, counts kept, the error.
pub fn error_status(old: &EventSourceStatus, message: String) -> (r: EventSourceStatus)
    ensures
        !r.ready,
        r.event_count == old.event_count,
        r.last_event_at == old.last_event_at,
        r.last_error == Some(message),
{
    EventSourceStatus {
        ready: false,
        event_count: old.event_count,
        last_event_at: old.last_event_at,
        last_error: Some(message),
    }
}

} // verus!
