//! `EventTrigger`: subscribes a function or a workflow to one event type.

use crate::api::{serverless_type_meta, SpecError, SpecErrorView, GROUP, VERSION};
use crate::meta::{ObjectMeta, TypeMeta};
use crate::text::{all_ws, is_blank};
use crate::time::Timestamp;
use vstd::prelude::*;

verus! {

/// An event trigger resource.
#[derive(Clone, Debug, PartialEq, Eq)]
pub struct EventTrigger {
    pub types: TypeMeta,
    pub metadata: ObjectMeta,
    pub spec: EventTriggerSpec,
    pub status: EventTriggerStatus,
}

/// The event type listened for and where matching events go.
#[derive(Clone, Debug, Default, PartialEq, Eq)]
pub struct EventTriggerSpec {
    pub event_type: String,
    pub target: TriggerTarget,
}

/// What a trigger delivers to.
#[derive(Clone, Copy, Debug, PartialEq, Eq, Structural)]
pub enum TriggerTargetKind {
    Function,
    Workflow,
}

/// The kind and name of a trigger's target.
#[derive(Clone, Debug, Default, PartialEq, Eq)]
pub struct TriggerTarget {
    pub kind: TriggerTargetKind,
    pub name: String,
}

/// How deliveries have gone so far.
#[derive(Clone, Debug, Default, PartialEq, Eq)]
pub struct EventTriggerStatus {
    pub ready: bool,
    pub delivered_count: u64,
    pub last_delivered_at: Option<Timestamp>,
    pub last_error: Option<String>,
}

impl Default for TriggerTargetKind {
    fn default() -> (r: Self)
        ensures
            r == TriggerTargetKind::Function,
    {
        TriggerTargetKind::Function
    }
}

impl TriggerTargetKind {
    /// The name of the kind as resources write it.
    pub fn name(&self) -> (r: &'static str)
        ensures
            *self == TriggerTargetKind::Function ==> r@ == "Function"@,
            *self == TriggerTargetKind::Workflow ==> r@ == "Workflow"@,
    {
        match self {
            TriggerTargetKind::Function => "Function",
            TriggerTargetKind::Workflow => "Workflow",
        }
    }
}

/// The first rule a trigger spec breaks, if any, in the order the API checks them.
pub open spec fn trigger_spec_check(spec: EventTriggerSpec) -> Option<SpecErrorView> {
    if all_ws(spec.event_type@) {
        Some(SpecErrorView::TriggerEventTypeRequired)
    } else if all_ws(spec.target.name@) {
        Some(SpecErrorView::TriggerTargetNameRequired)
    } else {
        None
    }
}

impl EventTrigger {
    /// Resource kind.
    pub fn kind() -> (r: &'static str)
        ensures
            r@ == "EventTrigger"@,
    {
        "EventTrigger"
    }

    /// Plural resource name used in API paths.
    pub fn plural() -> (r: &'static str)
        ensures
            r@ == "eventtriggers"@,
    {
        "eventtriggers"
    }

    /// API group.
    pub fn group() -> (r: &'static str)
        ensures
            r@ == GROUP@,
    {
        GROUP
    }

    /// API version.
    pub fn version() -> (r: &'static str)
        ensures
            r@ == VERSION@,
    {
        VERSION
    }

    /// A trigger with the given metadata and spec, not ready, with nothing delivered.
    pub fn new(metadata: ObjectMeta, spec: EventTriggerSpec) -> (r: EventTrigger)
        ensures
            r.types.api_version@ == crate::api::api_version_spec(),
            r.types.kind@ == "EventTrigger"@,
            r.metadata == metadata,
            r.spec == spec,
            !r.status.ready,
            r.status.delivered_count == 0,
            r.status.last_delivered_at.is_none(),
            r.status.last_error.is_none(),
    {
        EventTrigger {
            types: serverless_type_meta("EventTrigger"),
            metadata,
            spec,
            status: EventTriggerStatus {
                ready: false,
                delivered_count: 0,
                last_delivered_at: None,
                last_error: None,
            },
        }
    }

    /// The object's metadata.
    pub fn metadata(&self) -> (r: &ObjectMeta)
        ensures
            *r == self.metadata,
    {
        &self.metadata
    }

    /// The object's metadata, for update.
    pub fn metadata_mut(&mut self) -> (r: &mut ObjectMeta)
        ensures
            *r == old(self).metadata,
            *final(self) == (EventTrigger { metadata: *final(r), ..*old(self) }),
    {
        &mut self.metadata
    }

    /// The object's status.
    pub fn status(&self) -> (r: &EventTriggerStatus)
        ensures
            *r == self.status,
    {
        &self.status
    }

    /// The object's status, for update.
    pub fn status_mut(&mut self) -> (r: &mut EventTriggerStatus)
        ensures
            *r == old(self).status,
            *final(self) == (EventTrigger { status: *final(r), ..*old(self) }),
    {
        &mut self.status
    }

    /// Checks the spec: a non-blank event type and target name; the first rule broken
    /// is the error.
    pub fn validate_spec(&self) -> (r: Result<(), SpecError>)
        ensures
            r.is_ok() == trigger_spec_check(self.spec).is_none(),
            r.is_err() ==> r->Err_0@ == trigger_spec_check(self.spec).unwrap(),
    {
        if is_blank(self.spec.event_type.as_str()) {
            return Err(SpecError::TriggerEventTypeRequired);
        }
        if is_blank(self.spec.target.name.as_str()) {
            return Err(SpecError::TriggerTargetNameRequired);
        }
        Ok(())
    }
}

} // verus!
