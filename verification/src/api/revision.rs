//! `Revision`: an immutable snapshot of a service's image, port and environment.

use crate::api::{serverless_type_meta, SpecError, SpecErrorView, GROUP, VERSION};
use crate::meta::{ObjectMeta, StringMap, TypeMeta};
use crate::text::{all_ws, is_blank};
use crate::time::Timestamp;
use vstd::prelude::*;

verus! {

/// A revision resource.
#[derive(Clone, Debug, PartialEq, Eq)]
pub struct Revision {
    pub types: TypeMeta,
    pub metadata: ObjectMeta,
    pub spec: RevisionSpec,
    pub status: RevisionStatus,
}

/// The service a revision belongs to and what it runs.
#[derive(Clone, Debug, Default, PartialEq, Eq)]
pub struct RevisionSpec {
    pub service_name: String,
    pub image: String,
    pub port: u16,
    pub env: StringMap,
}

/// Whether the revision is ready and when it was created.
#[derive(Clone, Debug, Default, PartialEq, Eq)]
pub struct RevisionStatus {
    pub ready: bool,
    pub created_at: Option<Timestamp>,
}

/// The first rule a revision spec breaks, if any, in the order the API checks them.
pub open spec fn revision_spec_check(spec: RevisionSpec) -> Option<SpecErrorView> {
    if all_ws(spec.service_name@) {
        Some(SpecErrorView::RevisionServiceNameRequired)
    } else if all_ws(spec.image@) {
        Some(SpecErrorView::RevisionImageRequired)
    } else if spec.port == 0 {
        Some(SpecErrorView::RevisionPortZero)
    } else {
        None
    }
}

impl Revision {
    /// Resource kind.
    pub fn kind() -> (r: &'static str)
        ensures
            r@ == "Revision"@,
    {
        "Revision"
    }

    /// Plural resource name used in API paths.
    pub fn plural() -> (r: &'static str)
        ensures
            r@ == "revisions"@,
    {
        "revisions"
    }

    /// API group.
    pub fn group() -> (r: &'static str)
        ensures
            r@ == GROUP@,
    {
        GROUP
    }

    /// API version.
    pub fn version() -> (r: &'static str)
        ensures
            r@ == VERSION@,
    {
        VERSION
    }

    /// A revision with the given metadata and spec, not ready, with no creation time.
    pub fn new(metadata: ObjectMeta, spec: RevisionSpec) -> (r: Revision)
        ensures
            r.types.api_version@ == crate::api::api_version_spec(),
            r.types.kind@ == "Revision"@,
            r.metadata == metadata,
            r.spec == spec,
            !r.status.ready,
            r.status.created_at.is_none(),
    {
        Revision {
            types: serverless_type_meta("Revision"),
            metadata,
            spec,
            status: RevisionStatus { ready: false, created_at: None },
        }
    }

    /// The object's metadata.
    pub fn metadata(&self) -> (r: &ObjectMeta)
        ensures
            *r == self.metadata,
    {
        &self.metadata
    }

    /// The object's metadata, for update.
    pub fn metadata_mut(&mut self) -> (r: &mut ObjectMeta)
        ensures
            *r == old(self).metadata,
            *final(self) == (Revision { metadata: *final(r), ..*old(self) }),
    {
        &mut self.metadata
    }

    /// The object's status.
    pub fn status(&self) -> (r: &RevisionStatus)
        ensures
            *r == self.status,
    {
        &self.status
    }

    /// The object's status, for update.
    pub fn status_mut(&mut self) -> (r: &mut RevisionStatus)
        ensures
            *r == old(self).status,
            *final(self) == (Revision { status: *final(r), ..*old(self) }),
    {
        &mut self.status
    }

    /// Checks the spec: a non-blank service name and image and a non-zero port; the first
    /// rule broken is the error.
    pub fn validate_spec(&self) -> (r: Result<(), SpecError>)
        ensures
            r.is_ok() == revision_spec_check(self.spec).is_none(),
            r.is_err() ==> r->Err_0@ == revision_spec_check(self.spec).unwrap(),
    {
        if is_blank(self.spec.service_name.as_str()) {
            return Err(SpecError::RevisionServiceNameRequired);
        }
        if is_blank(self.spec.image.as_str()) {
            return Err(SpecError::RevisionImageRequired);
        }
        if self.spec.port == 0 {
            return Err(SpecError::RevisionPortZero);
        }
        Ok(())
    }
}

} // verus!
