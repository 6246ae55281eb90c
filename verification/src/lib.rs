//! Reconciliation logic of a controller for `Document` custom resources.
//!
//! The crate holds the decisions of the controller as verified functions on
//! plain values: the finalizer protocol, the status patch, the events, the
//! failure labels, the metrics and the diagnostics. The calls to the cluster
//! are made by the program that drives it.

pub mod cache;
mod clock;
pub mod cluster;
pub mod controller;
pub mod diagnostics;
pub mod document;
pub mod error;
pub mod foo;
pub mod label_laws;
pub mod metrics;
pub mod protocol_laws;
pub mod reconciler;
pub mod text;
pub mod watch;

pub use crate::controller::{error_policy, reconcile, Context};
pub use crate::diagnostics::Diagnostics;
pub use crate::document::{Document, DocumentSpec, DocumentStatus, DOCUMENT_FINALIZER};
pub use crate::error::{error_fmt, Error};
pub use crate::metrics::Metrics;
