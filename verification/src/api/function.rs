//! `Function`: a handler run on demand from inline source, scaled like a service.

use crate::api::{serverless_type_meta, SpecError, SpecErrorView, DEFAULT_HANDLER, GROUP, VERSION};
use crate::meta::{ObjectMeta, StringMap, TypeMeta};
use crate::text::{all_ws, is_blank, owned};
use crate::time::Timestamp;
use vstd::prelude::*;

verus! {

pub open spec fn function_target_concurrency_spec() -> u32 {
    10
}

pub open spec fn function_max_instances_spec() -> u32 {
    10
}

pub open spec fn function_idle_seconds_spec() -> u64 {
    60
}

/// Handler name used when the spec names none.
pub fn default_handler() -> (r: String)
    ensures
        r@ == DEFAULT_HANDLER@,
{
    owned(DEFAULT_HANDLER)
}

/// Requests one instance takes on before another one is added.
pub fn default_target_concurrency() -> (r: u32)
    ensures
        r == function_target_concurrency_spec(),
{
    10
}

/// Upper bound on instances when the spec names none.
pub fn default_max_instances() -> (r: u32)
    ensures
        r == function_max_instances_spec(),
{
    10
}

/// Seconds without requests after which instances are released.
pub fn default_idle_seconds() -> (r: u64)
    ensures
        r == function_idle_seconds_spec(),
{
    60
}

/// A function resource.
#[derive(Clone, Debug, PartialEq, Eq)]
pub struct Function {
    pub types: TypeMeta,
    pub metadata: ObjectMeta,
    pub spec: FunctionSpec,
    pub status: FunctionStatus,
}

/// The language a function is written in.
#[derive(Clone, Copy, Debug, PartialEq, Eq, Structural)]
pub enum FunctionRuntime {
    Python,
}

/// Source, handler, environment and scaling of a function.
#[derive(Clone, Debug, PartialEq, Eq)]
pub struct FunctionSpec {
    pub runtime: FunctionRuntime,
    pub source: FunctionSource,
    pub handler: String,
    pub env: StringMap,
    pub concurrency: FunctionConcurrency,
    pub scale: FunctionScale,
}

/// Where the function's code comes from: inline text, if any.
#[derive(Clone, Debug, Default, PartialEq, Eq)]
pub struct FunctionSource {
    pub inline: Option<String>,
}

/// Concurrency target per instance.
#[derive(Clone, Copy, Debug, PartialEq, Eq, Structural)]
pub struct FunctionConcurrency {
    pub target: u32,
}

/// Instance bounds and the idle period before release.
#[derive(Clone, Copy, Debug, PartialEq, Eq, Structural)]
pub struct FunctionScale {
    pub min_instances: u32,
    pub max_instances: u32,
    pub idle_seconds: u64,
}

/// Observed state of a function.
#[derive(Clone, Debug, PartialEq, Eq)]
pub struct FunctionStatus {
    pub ready: bool,
    pub active_instances: u32,
    pub in_flight: u32,
    pub last_invoked_at: Option<Timestamp>,
    pub last_error: Option<String>,
}

impl Default for FunctionRuntime {
    fn default() -> (r: Self)
        ensures
            r == FunctionRuntime::Python,
    {
        FunctionRuntime::Python
    }
}

impl Default for FunctionConcurrency {
    fn default() -> (r: Self)
        ensures
            r.target == function_target_concurrency_spec(),
    {
        FunctionConcurrency { target: default_target_concurrency() }
    }
}

impl Default for FunctionScale {
    fn default() -> (r: Self)
        ensures
            r.min_instances == 0,
            r.max_instances == function_max_instances_spec(),
            r.idle_seconds == function_idle_seconds_spec(),
    {
        FunctionScale {
            min_instances: 0,
            max_instances: default_max_instances(),
            idle_seconds: default_idle_seconds(),
        }
    }
}

impl Default for FunctionSpec {
    /// Python, no source, an empty handler, no environment, and the default
    /// concurrency and scale.
    fn default() -> (r: Self)
        ensures
            r.runtime == FunctionRuntime::Python,
            r.source.inline.is_none(),
            r.handler@.len() == 0,
            r.env@.len() == 0,
            r.concurrency.target == function_target_concurrency_spec(),
            r.scale.min_instances == 0,
            r.scale.max_instances == function_max_instances_spec(),
            r.scale.idle_seconds == function_idle_seconds_spec(),
    {
        FunctionSpec {
            runtime: FunctionRuntime::default(),
            source: FunctionSource { inline: None },
            handler: String::new(),
            env: StringMap::new(),
            concurrency: FunctionConcurrency::default(),
            scale: FunctionScale::default(),
        }
    }
}

impl Default for FunctionStatus {
    fn default() -> (r: Self)
        ensures
            !r.ready,
            r.active_instances == 0,
            r.in_flight == 0,
            r.last_invoked_at.is_none(),
            r.last_error.is_none(),
    {
        FunctionStatus {
            ready: false,
            active_instances: 0,
            in_flight: 0,
            last_invoked_at: None,
            last_error: None,
        }
    }
}

/// The first rule a function spec breaks, if any, in the order the API checks them.
pub open spec fn function_spec_check(spec: FunctionSpec) -> Option<SpecErrorView> {
    if all_ws(spec.handler@) {
        Some(SpecErrorView::FunctionHandlerRequired)
    } else if spec.concurrency.target == 0 {
        Some(SpecErrorView::FunctionTargetConcurrencyZero)
    } else if spec.scale.max_instances == 0 {
        Some(SpecErrorView::FunctionMaxInstancesZero)
    } else if spec.scale.min_instances > spec.scale.max_instances {
        Some(SpecErrorView::FunctionMinInstancesExceedsMax)
    } else {
        None
    }
}

impl Function {
    /// Resource kind.
    pub fn kind() -> (r: &'static str)
        ensures
            r@ == "Function"@,
    {
        "Function"
    }

    /// Plural resource name used in API paths.
    pub fn plural() -> (r: &'static str)
        ensures
            r@ == "functions"@,
    {
        "functions"
    }

    /// API group.
    pub fn group() -> (r: &'static str)
        ensures
            r@ == GROUP@,
    {
        GROUP
    }

    /// API version.
    pub fn version() -> (r: &'static str)
        ensures
            r@ == VERSION@,
    {
        VERSION
    }

    /// A function with the given metadata and spec and an empty status.
    pub fn new(metadata: ObjectMeta, spec: FunctionSpec) -> (r: Function)
        ensures
            r.types.api_version@ == crate::api::api_version_spec(),
            r.types.kind@ == "Function"@,
            r.metadata == metadata,
            r.spec == spec,
            !r.status.ready && r.status.active_instances == 0 && r.status.in_flight == 0,
    {
        Function {
            types: serverless_type_meta("Function"),
            metadata,
            spec,
            status: FunctionStatus::default(),
        }
    }

    /// The object's metadata.
    pub fn metadata(&self) -> (r: &ObjectMeta)
        ensures
            *r == self.metadata,
    {
        &self.metadata
    }

    /// The object's metadata, for update.
    pub fn metadata_mut(&mut self) -> (r: &mut ObjectMeta)
        ensures
            *r == old(self).metadata,
            *final(self) == (Function { metadata: *final(r), ..*old(self) }),
    {
        &mut self.metadata
    }

    /// The object's status.
    pub fn status(&self) -> (r: &FunctionStatus)
        ensures
            *r == self.status,
    {
        &self.status
    }

    /// The object's status, for update.
    pub fn status_mut(&mut self) -> (r: &mut FunctionStatus)
        ensures
            *r == old(self).status,
            *final(self) == (Function { status: *final(r), ..*old(self) }),
    {
        &mut self.status
    }

    /// Checks the spec: a non-blank handler, a non-zero concurrency target and
    /// `maxInstances`, and `minInstances <= maxInstances`; the first rule broken is the error.
    pub fn validate_spec(&self) -> (r: Result<(), SpecError>)
        ensures
            r.is_ok() == function_spec_check(self.spec).is_none(),
            r.is_err() ==> r->Err_0@ == function_spec_check(self.spec).unwrap(),
    {
        if is_blank(self.spec.handler.as_str()) {
            return Err(SpecError::FunctionHandlerRequired);
        }
        if self.spec.concurrency.target == 0 {
            return Err(SpecError::FunctionTargetConcurrencyZero);
        }
        if self.spec.scale.max_instances == 0 {
            return Err(SpecError::FunctionMaxInstancesZero);
        }
        if self.spec.scale.min_instances > self.spec.scale.max_instances {
            return Err(SpecError::FunctionMinInstancesExceedsMax);
        }
        Ok(())
    }
}


/// Law: a function spec is accepted exactly when its handler is not blank, its target
/// concurrency and `maxInstances` are not zero, and `minInstances` does not exceed
/// `maxInstances` (equal bounds are fine).
pub proof fn law_function_bounds_accepted(spec: FunctionSpec)
    ensures
        function_spec_check(spec).is_none() <==> (!all_ws(spec.handler@) && spec.concurrency.target != 0
            && spec.scale.max_instances != 0 && spec.scale.min_instances <= spec.scale.max_instances),
{
}

} // verus!
