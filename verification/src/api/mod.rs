//! Serverless custom resources: their data, defaults and spec validation.

pub mod event;
pub mod eventsource;
pub mod eventtrigger;
pub mod function;
pub mod revision;
pub mod service;
pub mod workflow;

use crate::meta::TypeMeta;
use crate::text::{concat3, owned};
use vstd::prelude::*;

verus! {

/// API group of the serverless resources.
pub const GROUP: &'static str = "serverless.minik8s.io";

/// API version of the serverless resources.
pub const VERSION: &'static str = "v1alpha1";

/// Handler name a function uses when it names none.
pub const DEFAULT_HANDLER: &'static str = "handler";

/// `apiVersion` of the serverless resources: `group/version`.
pub open spec fn api_version_spec() -> Seq<char> {
    GROUP@ + "/"@ + VERSION@
}

/// The type header of a serverless resource of the given kind.
pub fn serverless_type_meta(kind: &str) -> (r: TypeMeta)
    ensures
        r.api_version@ == api_version_spec(),
        r.kind@ == kind@,
{
    TypeMeta { api_version: concat3(GROUP, "/", VERSION), kind: owned(kind) }
}

/// Why a resource spec was refused.
#[derive(Clone, Debug, PartialEq, Eq)]
pub enum SpecError {
    ServiceImageRequired,
    ServicePortZero,
    ServiceTargetConcurrencyZero,
    ServiceMaxScaleZero,
    ServiceMinScaleExceedsMax,
    FunctionHandlerRequired,
    FunctionTargetConcurrencyZero,
    FunctionMaxInstancesZero,
    FunctionMinInstancesExceedsMax,
    RevisionServiceNameRequired,
    RevisionImageRequired,
    RevisionPortZero,
    TriggerEventTypeRequired,
    TriggerTargetNameRequired,
    SourceEventTypeRequired,
    SourceBothPingAndFile,
    SourceNeitherPingNorFile,
    SourcePingBothScheduleAndInterval,
    SourcePingWithoutSchedule,
    SourcePingIntervalZero,
    SourceFilePathRequired,
    WorkflowStepsNotKeyed,
    WorkflowEntrypointRequired,
    WorkflowEntrypointMissing,
    WorkflowStepFunctionRequired { step: String },
    WorkflowStepNextMissing { step: String, next: String },
    WorkflowBranchNextRequired { step: String },
    WorkflowBranchNextMissing { step: String, next: String },
}

/// A `SpecError` with its texts as character sequences.
pub enum SpecErrorView {
    ServiceImageRequired,
    ServicePortZero,
    ServiceTargetConcurrencyZero,
    ServiceMaxScaleZero,
    ServiceMinScaleExceedsMax,
    FunctionHandlerRequired,
    FunctionTargetConcurrencyZero,
    FunctionMaxInstancesZero,
    FunctionMinInstancesExceedsMax,
    RevisionServiceNameRequired,
    RevisionImageRequired,
    RevisionPortZero,
    TriggerEventTypeRequired,
    TriggerTargetNameRequired,
    SourceEventTypeRequired,
    SourceBothPingAndFile,
    SourceNeitherPingNorFile,
    SourcePingBothScheduleAndInterval,
    SourcePingWithoutSchedule,
    SourcePingIntervalZero,
    SourceFilePathRequired,
    WorkflowStepsNotKeyed,
    WorkflowEntrypointRequired,
    WorkflowEntrypointMissing,
    WorkflowStepFunctionRequired { step: Seq<char> },
    WorkflowStepNextMissing { step: Seq<char>, next: Seq<char> },
    WorkflowBranchNextRequired { step: Seq<char> },
    WorkflowBranchNextMissing { step: Seq<char>, next: Seq<char> },
}

impl View for SpecError {
    type V = SpecErrorView;

    open spec fn view(&self) -> SpecErrorView {
        match self {
            SpecError::ServiceImageRequired => SpecErrorView::ServiceImageRequired,
            SpecError::ServicePortZero => SpecErrorView::ServicePortZero,
            SpecError::ServiceTargetConcurrencyZero => SpecErrorView::ServiceTargetConcurrencyZero,
            SpecError::ServiceMaxScaleZero => SpecErrorView::ServiceMaxScaleZero,
            SpecError::ServiceMinScaleExceedsMax => SpecErrorView::ServiceMinScaleExceedsMax,
            SpecError::FunctionHandlerRequired => SpecErrorView::FunctionHandlerRequired,
            SpecError::FunctionTargetConcurrencyZero => SpecErrorView::FunctionTargetConcurrencyZero,
            SpecError::FunctionMaxInstancesZero => SpecErrorView::FunctionMaxInstancesZero,
            SpecError::FunctionMinInstancesExceedsMax => SpecErrorView::FunctionMinInstancesExceedsMax,
            SpecError::RevisionServiceNameRequired => SpecErrorView::RevisionServiceNameRequired,
            SpecError::RevisionImageRequired => SpecErrorView::RevisionImageRequired,
            SpecError::RevisionPortZero => SpecErrorView::RevisionPortZero,
            SpecError::TriggerEventTypeRequired => SpecErrorView::TriggerEventTypeRequired,
            SpecError::TriggerTargetNameRequired => SpecErrorView::TriggerTargetNameRequired,
            SpecError::SourceEventTypeRequired => SpecErrorView::SourceEventTypeRequired,
            SpecError::SourceBothPingAndFile => SpecErrorView::SourceBothPingAndFile,
            SpecError::SourceNeitherPingNorFile => SpecErrorView::SourceNeitherPingNorFile,
            SpecError::SourcePingBothScheduleAndInterval => SpecErrorView::SourcePingBothScheduleAndInterval,
            SpecError::SourcePingWithoutSchedule => SpecErrorView::SourcePingWithoutSchedule,
            SpecError::SourcePingIntervalZero => SpecErrorView::SourcePingIntervalZero,
            SpecError::SourceFilePathRequired => SpecErrorView::SourceFilePathRequired,
            SpecError::WorkflowStepsNotKeyed => SpecErrorView::WorkflowStepsNotKeyed,
            SpecError::WorkflowEntrypointRequired => SpecErrorView::WorkflowEntrypointRequired,
            SpecError::WorkflowEntrypointMissing => SpecErrorView::WorkflowEntrypointMissing,
            SpecError::WorkflowStepFunctionRequired { step } =>
                SpecErrorView::WorkflowStepFunctionRequired { step: step@ },
            SpecError::WorkflowStepNextMissing { step, next } =>
                SpecErrorView::WorkflowStepNextMissing { step: step@, next: next@ },
            SpecError::WorkflowBranchNextRequired { step } =>
                SpecErrorView::WorkflowBranchNextRequired { step: step@ },
            SpecError::WorkflowBranchNextMissing { step, next } =>
                SpecErrorView::WorkflowBranchNextMissing { step: step@, next: next@ },
        }
    }
}

/// The text of the error, as the resource API reports it.
pub open spec fn spec_error_message(e: SpecErrorView) -> Seq<char> {
    match e {
        SpecErrorView::ServiceImageRequired => "serverlessservice spec.image is required"@,
        SpecErrorView::ServicePortZero => "serverlessservice spec.port must be greater than 0"@,
        SpecErrorView::ServiceTargetConcurrencyZero =>
            "serverlessservice spec.concurrency.target must be greater than 0"@,
        SpecErrorView::ServiceMaxScaleZero =>
            "serverlessservice spec.scale.maxScale must be greater than 0"@,
        SpecErrorView::ServiceMinScaleExceedsMax =>
            "serverlessservice spec.scale.minScale must not exceed maxScale"@,
        SpecErrorView::FunctionHandlerRequired => "function spec.handler is required"@,
        SpecErrorView::FunctionTargetConcurrencyZero =>
            "function spec.concurrency.target must be greater than 0"@,
        SpecErrorView::FunctionMaxInstancesZero =>
            "function spec.scale.maxInstances must be greater than 0"@,
        SpecErrorView::FunctionMinInstancesExceedsMax =>
            "function spec.scale.minInstances must not exceed maxInstances"@,
        SpecErrorView::RevisionServiceNameRequired => "revision spec.serviceName is required"@,
        SpecErrorView::RevisionImageRequired => "revision spec.image is required"@,
        SpecErrorView::RevisionPortZero => "revision spec.port must be greater than 0"@,
        SpecErrorView::TriggerEventTypeRequired => "eventtrigger spec.eventType is required"@,
        SpecErrorView::TriggerTargetNameRequired => "eventtrigger spec.target.name is required"@,
        SpecErrorView::SourceEventTypeRequired => "eventsource spec.eventType is required"@,
        SpecErrorView::SourceBothPingAndFile =>
            "eventsource spec must set exactly one of ping / file"@,
        SpecErrorView::SourceNeitherPingNorFile => "eventsource spec must set one of ping / file"@,
        SpecErrorView::SourcePingBothScheduleAndInterval =>
            "eventsource ping must set exactly one of schedule / intervalSeconds"@,
        SpecErrorView::SourcePingWithoutSchedule =>
            "eventsource ping requires schedule or intervalSeconds"@,
        SpecErrorView::SourcePingIntervalZero =>
            "eventsource ping.intervalSeconds must be greater than 0"@,
        SpecErrorView::SourceFilePathRequired => "eventsource file.path is required"@,
        SpecErrorView::WorkflowStepsNotKeyed =>
            "workflow spec.steps must be sorted by name with no name twice"@,
        SpecErrorView::WorkflowEntrypointRequired => "workflow spec.entrypoint is required"@,
        SpecErrorView::WorkflowEntrypointMissing =>
            "workflow spec.entrypoint must name an existing step"@,
        SpecErrorView::WorkflowStepFunctionRequired { step } =>
            "workflow step "@ + step + " function is required"@,
        SpecErrorView::WorkflowStepNextMissing { step, next } =>
            "workflow step "@ + step + " next step "@ + next + " not found"@,
        SpecErrorView::WorkflowBranchNextRequired { step } =>
            "workflow step "@ + step + " branch next is required"@,
        SpecErrorView::WorkflowBranchNextMissing { step, next } =>
            "workflow step "@ + step + " branch next step "@ + next + " not found"@,
    }
}

impl SpecError {
    /// The text of the error, as the resource API reports it.
    pub fn message(&self) -> (r: String)
        ensures
            r@ == spec_error_message(self@),
    {
        match self {
            SpecError::ServiceImageRequired => owned("serverlessservice spec.image is required"),
            SpecError::ServicePortZero => owned("serverlessservice spec.port must be greater than 0"),
            SpecError::ServiceTargetConcurrencyZero => owned(
                "serverlessservice spec.concurrency.target must be greater than 0",
            ),
            SpecError::ServiceMaxScaleZero => owned(
                "serverlessservice spec.scale.maxScale must be greater than 0",
            ),
            SpecError::ServiceMinScaleExceedsMax => owned(
                "serverlessservice spec.scale.minScale must not exceed maxScale",
            ),
            SpecError::FunctionHandlerRequired => owned("function spec.handler is required"),
            SpecError::FunctionTargetConcurrencyZero => owned(
                "function spec.concurrency.target must be greater than 0",
            ),
            SpecError::FunctionMaxInstancesZero => owned(
                "function spec.scale.maxInstances must be greater than 0",
            ),
            SpecError::FunctionMinInstancesExceedsMax => owned(
                "function spec.scale.minInstances must not exceed maxInstances",
            ),
            SpecError::RevisionServiceNameRequired => owned("revision spec.serviceName is required"),
            SpecError::RevisionImageRequired => owned("revision spec.image is required"),
            SpecError::RevisionPortZero => owned("revision spec.port must be greater than 0"),
            SpecError::TriggerEventTypeRequired => owned("eventtrigger spec.eventType is required"),
            SpecError::TriggerTargetNameRequired => owned("eventtrigger spec.target.name is required"),
            SpecError::SourceEventTypeRequired => owned("eventsource spec.eventType is required"),
            SpecError::SourceBothPingAndFile => owned(
                "eventsource spec must set exactly one of ping / file",
            ),
            SpecError::SourceNeitherPingNorFile => owned("eventsource spec must set one of ping / file"),
            SpecError::SourcePingBothScheduleAndInterval => owned(
                "eventsource ping must set exactly one of schedule / intervalSeconds",
            ),
            SpecError::SourcePingWithoutSchedule => owned(
                "eventsource ping requires schedule or intervalSeconds",
            ),
            SpecError::SourcePingIntervalZero => owned(
                "eventsource ping.intervalSeconds must be greater than 0",
            ),
            SpecError::SourceFilePathRequired => owned("eventsource file.path is required"),
            SpecError::WorkflowStepsNotKeyed => owned(
                "workflow spec.steps must be sorted by name with no name twice",
            ),
            SpecError::WorkflowEntrypointRequired => owned("workflow spec.entrypoint is required"),
            SpecError::WorkflowEntrypointMissing => owned(
                "workflow spec.entrypoint must name an existing step",
            ),
            SpecError::WorkflowStepFunctionRequired { step } => concat3(
                "workflow step ",
                step.as_str(),
                " function is required",
            ),
            SpecError::WorkflowStepNextMissing { step, next } => {
                let mut r = concat3("workflow step ", step.as_str(), " next step ");
                r.append(next.as_str());
                r.append(" not found");
                r
            },
            SpecError::WorkflowBranchNextRequired { step } => concat3(
                "workflow step ",
                step.as_str(),
                " branch next is required",
            ),
            SpecError::WorkflowBranchNextMissing { step, next } => {
                let mut r = concat3("workflow step ", step.as_str(), " branch next step ");
                r.append(next.as_str());
                r.append(" not found");
                r
            },
        }
    }
}

} // verus!
