//! Traefik ingress routes.
use vstd::prelude::*;

use crate::k8s::ObjectMeta;

verus! {

/// The routing part of an ingress route.
pub struct IngressRouteSpec {
    /// Names of the entry points, such as `web` or `websecure`.
    pub entry_points: Vec<String>,
    pub routes: Vec<Route>,
}

/// One route; `rule` is its match rule, such as ``Host(`foo.example.com`)``.
pub struct Route {
    pub rule: String,
}

/// A Traefik ingress route (`traefik.io/v1alpha1`, kind `IngressRoute`).
pub struct IngressRoute {
    pub metadata: ObjectMeta,
    pub spec: IngressRouteSpec,
}

} // verus!
