//! Verified core of a Knative-like serverless plugin: resource models and
//! their validation, the activator's autoscaling registry, workflow routing,
//! event sources, and the controller's reconcile planning.

pub mod text;
pub mod time;
pub mod meta;
pub mod api;
pub mod runtime;
pub mod json;
pub mod routing;
pub mod http;
pub mod flow;
pub mod source;
pub mod keyed;
pub mod broker;
pub mod pods;
pub mod status;
pub mod kn;
pub mod python;
pub mod gateway;
pub mod component;
