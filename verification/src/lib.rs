//! Admission decision engine for TLS-termination conventions on Kubernetes
//! Ingress, Gateway and HTTPRoute objects.
//!
//! The engine is purely functional: every decision is computed from the
//! object under admission plus a snapshot of the relevant cluster state
//! (namespaces, gateways, routes).  Validators return an admission
//! [`status::Status`]; mutators return a repaired clone of the input, which
//! the surrounding transport layer diffs against the original to produce a
//! JSON Patch.

pub mod annotations;
pub mod attachment;
pub mod classifier;
pub mod config;
pub mod gateway;
pub mod httproute;
pub mod ingress;
pub mod laws;
pub mod objects;
pub mod render;
pub mod selector;
pub mod status;
pub mod strings;
