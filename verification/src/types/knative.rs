//! Knative Serving resources: services and revisions.
use vstd::prelude::*;

use crate::k8s::ObjectMeta;

verus! {

/// The desired state of a Knative service (nothing of it is read here).
pub struct KnativeServiceSpec {}

/// The observed state of a Knative service.
pub struct KnativeServiceStatus {
    pub url: Option<String>,
    pub conditions: Option<Vec<Condition>>,
    pub latest_ready_revision_name: Option<String>,
    pub latest_created_revision_name: Option<String>,
}

/// One status condition, such as `Ready` or `ConfigurationsReady`.
pub struct Condition {
    pub condition_type: String,
    /// `True`, `False` or `Unknown`.
    pub status: String,
    pub reason: Option<String>,
    pub message: Option<String>,
}

/// A Knative service (`serving.knative.dev/v1`, kind `Service`).
pub struct Service {
    pub metadata: ObjectMeta,
    pub spec: KnativeServiceSpec,
    pub status: Option<KnativeServiceStatus>,
}

/// The desired state of a revision: its containers.
pub struct RevisionSpec {
    pub containers: Vec<RevisionContainer>,
}

/// A container of a revision.
pub struct RevisionContainer {
    pub image: String,
}

/// A Knative revision (`serving.knative.dev/v1`, kind `Revision`).
pub struct Revision {
    pub metadata: ObjectMeta,
    pub spec: RevisionSpec,
}

} // verus!
