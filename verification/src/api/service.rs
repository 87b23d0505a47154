//! `ServerlessService`: an image served on demand, scaled between `minScale` and `maxScale`.

use crate::api::{serverless_type_meta, SpecError, SpecErrorView, GROUP, VERSION};
use crate::meta::{ObjectMeta, StringMap, TypeMeta};
use crate::text::{all_ws, is_blank};
use crate::time::Timestamp;
use vstd::prelude::*;

verus! {

pub open spec fn default_port_spec() -> u16 {
    8080
}

pub open spec fn default_target_concurrency_spec() -> u32 {
    10
}

pub open spec fn default_max_scale_spec() -> u32 {
    10
}

pub open spec fn default_idle_seconds_spec() -> u64 {
    60
}

/// Port a service listens on when its spec names none.
pub fn default_port() -> (r: u16)
    ensures
        r == default_port_spec(),
{
    8080
}

/// Requests one instance takes on before another one is added.
pub fn default_target_concurrency() -> (r: u32)
    ensures
        r == default_target_concurrency_spec(),
{
    10
}

/// Upper bound on instances when the spec names none.
pub fn default_max_scale() -> (r: u32)
    ensures
        r == default_max_scale_spec(),
{
    10
}

/// Seconds without requests after which a service scales back to `minScale`.
pub fn default_idle_seconds() -> (r: u64)
    ensures
        r == default_idle_seconds_spec(),
{
    60
}

/// A serverless service.
#[derive(Clone, Debug, PartialEq, Eq)]
pub struct ServerlessService {
    pub types: TypeMeta,
    pub metadata: ObjectMeta,
    pub spec: ServerlessServiceSpec,
    pub status: ServerlessServiceStatus,
}

/// What the service runs and how it scales.
#[derive(Clone, Debug, PartialEq, Eq)]
pub struct ServerlessServiceSpec {
    pub image: String,
    pub port: u16,
    pub env: StringMap,
    pub scale: ServerlessScale,
    pub concurrency: ServerlessConcurrency,
}

/// Concurrency target per instance.
#[derive(Clone, Copy, Debug, PartialEq, Eq)]
pub struct ServerlessConcurrency {
    pub target: u32,
}

/// Scaling bounds and the idle period before scaling down.
#[derive(Clone, Copy, Debug, PartialEq, Eq)]
pub struct ServerlessScale {
    pub min_scale: u32,
    pub max_scale: u32,
    pub idle_seconds: u64,
}

/// Observed and desired runtime state of a service.
#[derive(Clone, Debug, PartialEq, Eq)]
pub struct ServerlessServiceStatus {
    pub ready: bool,
    pub latest_revision: Option<String>,
    pub active_instances: u32,
    pub desired_instances: u32,
    pub in_flight: u32,
    pub url: Option<String>,
    pub last_invoked_at: Option<Timestamp>,
    pub last_error: Option<String>,
}

impl Default for ServerlessConcurrency {
    fn default() -> (r: Self)
        ensures
            r.target == default_target_concurrency_spec(),
    {
        ServerlessConcurrency { target: default_target_concurrency() }
    }
}

impl Default for ServerlessScale {
    fn default() -> (r: Self)
        ensures
            r.min_scale == 0,
            r.max_scale == default_max_scale_spec(),
            r.idle_seconds == default_idle_seconds_spec(),
    {
        ServerlessScale {
            min_scale: 0,
            max_scale: default_max_scale(),
            idle_seconds: default_idle_seconds(),
        }
    }
}

impl Default for ServerlessServiceSpec {
    fn default() -> (r: Self)
        ensures
            r.image@.len() == 0,
            r.port == default_port_spec(),
            r.env@.len() == 0,
            r.scale.min_scale == 0,
            r.scale.max_scale == default_max_scale_spec(),
            r.scale.idle_seconds == default_idle_seconds_spec(),
            r.concurrency.target == default_target_concurrency_spec(),
    {
        ServerlessServiceSpec {
            image: String::new(),
            port: default_port(),
            env: StringMap::new(),
            scale: ServerlessScale::default(),
            concurrency: ServerlessConcurrency::default(),
        }
    }
}

impl Default for ServerlessServiceStatus {
    fn default() -> (r: Self)
        ensures
            !r.ready,
            r.latest_revision.is_none(),
            r.active_instances == 0,
            r.desired_instances == 0,
            r.in_flight == 0,
            r.url.is_none(),
            r.last_invoked_at.is_none(),
            r.last_error.is_none(),
    {
        ServerlessServiceStatus {
            ready: false,
            latest_revision: None,
            active_instances: 0,
            desired_instances: 0,
            in_flight: 0,
            url: None,
            last_invoked_at: None,
            last_error: None,
        }
    }
}

/// The first rule a service spec breaks, if any, checked in the order the API checks them.
pub open spec fn service_spec_check(spec: ServerlessServiceSpec) -> Option<SpecErrorView> {
    if all_ws(spec.image@) {
        Some(SpecErrorView::ServiceImageRequired)
    } else if spec.port == 0 {
        Some(SpecErrorView::ServicePortZero)
    } else if spec.concurrency.target == 0 {
        Some(SpecErrorView::ServiceTargetConcurrencyZero)
    } else if spec.scale.max_scale == 0 {
        Some(SpecErrorView::ServiceMaxScaleZero)
    } else if spec.scale.min_scale > spec.scale.max_scale {
        Some(SpecErrorView::ServiceMinScaleExceedsMax)
    } else {
        None
    }
}

impl ServerlessService {
    /// Resource kind.
    pub fn kind() -> (r: &'static str)
        ensures
            r@ == "ServerlessService"@,
    {
        "ServerlessService"
    }

    /// Plural resource name used in API paths.
    pub fn plural() -> (r: &'static str)
        ensures
            r@ == "serverlessservices"@,
    {
        "serverlessservices"
    }

    /// API group.
    pub fn group() -> (r: &'static str)
        ensures
            r@ == GROUP@,
    {
        GROUP
    }

    /// API version.
    pub fn version() -> (r: &'static str)
        ensures
            r@ == VERSION@,
    {
        VERSION
    }

    /// A service with the given metadata and spec and an empty status.
    pub fn new(metadata: ObjectMeta, spec: ServerlessServiceSpec) -> (r: ServerlessService)
        ensures
            r.types.api_version@ == crate::api::api_version_spec(),
            r.types.kind@ == "ServerlessService"@,
            r.metadata == metadata,
            r.spec == spec,
            r.status.active_instances == 0 && !r.status.ready,
    {
        ServerlessService {
            types: serverless_type_meta("ServerlessService"),
            metadata,
            spec,
            status: ServerlessServiceStatus::default(),
        }
    }

    /// The object's metadata.
    pub fn metadata(&self) -> (r: &ObjectMeta)
        ensures
            *r == self.metadata,
    {
        &self.metadata
    }

    /// The object's metadata, for update.
    pub fn metadata_mut(&mut self) -> (r: &mut ObjectMeta)
        ensures
            *r == old(self).metadata,
            *final(self) == (ServerlessService { metadata: *final(r), ..*old(self) }),
    {
        &mut self.metadata
    }

    /// The object's status.
    pub fn status(&self) -> (r: &ServerlessServiceStatus)
        ensures
            *r == self.status,
    {
        &self.status
    }

    /// The object's status, for update.
    pub fn status_mut(&mut self) -> (r: &mut ServerlessServiceStatus)
        ensures
            *r == old(self).status,
            *final(self) == (ServerlessService { status: *final(r), ..*old(self) }),
    {
        &mut self.status
    }

    /// Checks the spec: a non-blank image, a non-zero port, concurrency target and
    /// `maxScale`, and `minScale <= maxScale`; the first rule broken is the error.
    pub fn validate_spec(&self) -> (r: Result<(), SpecError>)
        ensures
            r.is_ok() == service_spec_check(self.spec).is_none(),
            r.is_err() ==> r->Err_0@ == service_spec_check(self.spec).unwrap(),
    {
        if is_blank(self.spec.image.as_str()) {
            return Err(SpecError::ServiceImageRequired);
        }
        if self.spec.port == 0 {
            return Err(SpecError::ServicePortZero);
        }
        if self.spec.concurrency.target == 0 {
            return Err(SpecError::ServiceTargetConcurrencyZero);
        }
        if self.spec.scale.max_scale == 0 {
            return Err(SpecError::ServiceMaxScaleZero);
        }
        if self.spec.scale.min_scale > self.spec.scale.max_scale {
            return Err(SpecError::ServiceMinScaleExceedsMax);
        }
        Ok(())
    }
}


/// Law: a service spec is accepted exactly when its image is not blank, its port, target
/// concurrency and `maxScale` are not zero, and `minScale` does not exceed `maxScale`
/// (equal bounds are fine); a spec otherwise fine whose `minScale` exceeds `maxScale` is
/// refused for exactly that.
pub proof fn law_service_bounds_accepted(spec: ServerlessServiceSpec)
    ensures
        service_spec_check(spec).is_none() <==> (!all_ws(spec.image@) && spec.port != 0
            && spec.concurrency.target != 0 && spec.scale.max_scale != 0
            && spec.scale.min_scale <= spec.scale.max_scale),
        (!all_ws(spec.image@) && spec.port != 0 && spec.concurrency.target != 0 && spec.scale.max_scale != 0
            && spec.scale.min_scale > spec.scale.max_scale) ==> service_spec_check(spec)
            == Some(SpecErrorView::ServiceMinScaleExceedsMax),
{
}

} // verus!
