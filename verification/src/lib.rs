//! A registry of device-control integrations.
//!
//! The registry owns one handler per configured integration, keyed by the
//! integration's identifier. Handlers are built by name from a closed set of
//! kinds, brought up in two whole-registry passes, and afterwards addressed one
//! at a time to push a device state or to run an action.

pub mod error;
pub mod integration;
pub mod kind;
pub mod laws;
pub mod registry;
pub mod text;
pub mod tree;

pub use error::{loading_notice, IntegrationsError};
pub use integration::{Device, Integration, IntegrationId};
pub use kind::IntegrationKind;
pub use registry::{load_integration, Integrations};
pub use tree::IntegrationsTree;
