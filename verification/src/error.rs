//! The failures that the registry reports, and their wording.

use crate::integration::IntegrationId;
use vstd::prelude::*;
use vstd::string::StringExecFns;

verus! {

/// Why a registry operation failed. `E` is the backend's own error, handed on
/// as it came.
#[derive(Debug, PartialEq, Eq)]
pub enum IntegrationsError<E> {
    /// The module name selects no known kind of integration.
    UnknownModule { module_name: String },
    /// The handler's constructor refused the configuration.
    Configuration(E),
    /// No handler stands under the identifier.
    NotFound { integration_id: IntegrationId },
    /// A handler failed in a lifecycle step or in a dispatched call.
    Backend(E),
}

/// The wording of an unknown module name.
pub open spec fn unknown_module_text(module_name: Seq<char>) -> Seq<char> {
    "Unknown module name "@ + module_name + "!"@
}

/// The wording of a missing integration.
pub open spec fn not_found_text(integration_id: Seq<char>) -> Seq<char> {
    "Expected to find integration by id "@ + integration_id
}

/// The wording of the notice that a load begins with.
pub open spec fn loading_text(module_name: Seq<char>) -> Seq<char> {
    "loading integration with module_name "@ + module_name
}

/// The notice that names the module being loaded.
pub fn loading_notice(module_name: &str) -> (notice: String)
    ensures
        notice@ == loading_text(module_name@),
{
    String::from_str("loading integration with module_name ").concat(module_name)
}

impl<E> IntegrationsError<E> {
    /// Whether the configuration is at fault: the module name is unknown, or
    /// the handler refused what it was configured with.
    pub open spec fn is_configuration_error(&self) -> bool {
        self is UnknownModule || self is Configuration
    }

    /// The registry's own words for the failure, where the failure is the
    /// registry's own; a backend's error has none here.
    pub open spec fn spec_message(&self) -> Option<Seq<char>> {
        match self {
            IntegrationsError::UnknownModule { module_name } => Some(
                unknown_module_text(module_name@),
            ),
            IntegrationsError::NotFound { integration_id } => Some(
                not_found_text(integration_id@),
            ),
            IntegrationsError::Configuration(_) => None,
            IntegrationsError::Backend(_) => None,
        }
    }

    pub fn message(&self) -> (text: Option<String>)
        ensures
            text is Some <==> self.spec_message() is Some,
            text matches Some(t) ==> self.spec_message() == Some(t@),
    {
        match self {
            IntegrationsError::UnknownModule { module_name } => Some(
                String::from_str("Unknown module name ").concat(module_name.as_str()).concat("!"),
            ),
            IntegrationsError::NotFound { integration_id } => Some(
                String::from_str("Expected to find integration by id ").concat(
                    integration_id.as_str(),
                ),
            ),
            IntegrationsError::Configuration(_) => None,
            IntegrationsError::Backend(_) => None,
        }
    }
}

} // verus!
