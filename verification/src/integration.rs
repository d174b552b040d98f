//! What every integration handler can do, and the values handed to it.

use crate::kind::IntegrationKind;
use vstd::prelude::*;

verus! {

/// `config::Value`, a configuration document. Nothing is claimed of what is
/// inside one: the registry hands it to a handler's constructor as it came.
#[verifier::external_type_specification]
#[verifier::external_body]
pub struct ExConfigValue(config::Value);

/// The name of one configured integration. Two identifiers are the same
/// identifier when they hold the same text.
#[derive(Debug, PartialEq, Eq, Hash)]
pub struct IntegrationId {
    name: String,
}

impl View for IntegrationId {
    type V = Seq<char>;

    closed spec fn view(&self) -> Seq<char> {
        self.name@
    }
}

impl IntegrationId {
    pub fn new(name: &str) -> (id: IntegrationId)
        ensures
            id@ == name@,
    {
        IntegrationId { name: name.to_owned() }
    }

    pub fn as_str(&self) -> (name: &str)
        ensures
            name@ == self@,
    {
        self.name.as_str()
    }

    /// Whether `self` and `other` name the same integration.
    pub fn same_as(&self, other: &IntegrationId) -> (same: bool)
        ensures
            same == (self@ == other@),
    {
        self.name == other.name
    }
}

impl Clone for IntegrationId {
    fn clone(&self) -> (id: IntegrationId)
        ensures
            id@ == self@,
    {
        IntegrationId { name: self.name.clone() }
    }
}

/// A device together with the state wanted of it. `fields` is whatever the
/// handler that owns the device reads; the registry reads `integration_id`
/// alone.
#[derive(Debug)]
pub struct Device<F> {
    pub integration_id: IntegrationId,
    pub fields: F,
}

impl<F: Clone> Clone for Device<F> {
    fn clone(&self) -> (device: Device<F>)
        ensures
            device.integration_id@ == self.integration_id@,
            cloned(self.fields, device.fields),
    {
        Device { integration_id: self.integration_id.clone(), fields: self.fields.clone() }
    }
}

/// The capabilities of a handler.
///
/// Each method comes with a relation between the handler before the call, the
/// handler after it and the outcome. A handler states in these relations what
/// its methods do; by default they state nothing. The registry's contracts are
/// written over them, so that they say which handler took which step.
///
/// A handler that Verus verifies is held to the relations that it states. Of a
/// handler that Verus does not see nothing is known but what it leaves at the
/// default.
pub trait Integration: Sized {
    /// The handle through which a handler publishes events.
    type EventSink: Clone;

    /// The part of a device that only its handler understands.
    type DeviceFields;

    /// The argument of an action.
    type ActionPayload;

    /// A failure of the backend.
    type Error;

    open spec fn new_spec(
        kind: IntegrationKind,
        id: IntegrationId,
        config: config::Value,
        event_tx: Self::EventSink,
        outcome: Result<Self, Self::Error>,
    ) -> bool {
        true
    }

    open spec fn register_spec(pre: Self, post: Self, outcome: Result<(), Self::Error>) -> bool {
        true
    }

    open spec fn start_spec(pre: Self, post: Self, outcome: Result<(), Self::Error>) -> bool {
        true
    }

    open spec fn set_integration_device_state_spec(
        pre: Self,
        device: Device<Self::DeviceFields>,
        post: Self,
        outcome: Result<(), Self::Error>,
    ) -> bool {
        true
    }

    open spec fn run_integration_action_spec(
        pre: Self,
        payload: Self::ActionPayload,
        post: Self,
        outcome: Result<(), Self::Error>,
    ) -> bool {
        true
    }

    /// Builds the handler of the given kind from its configuration, or says
    /// why the configuration cannot be used.
    fn new(
        kind: IntegrationKind,
        id: &IntegrationId,
        config: &config::Value,
        event_tx: Self::EventSink,
    ) -> (outcome: Result<Self, Self::Error>)
        ensures
            Self::new_spec(kind, *id, *config, event_tx, outcome),
    ;

    /// One-time setup, after every handler exists and before any is started.
    fn register(&mut self) -> (outcome: Result<(), Self::Error>)
        ensures
            Self::register_spec(*old(self), *final(self), outcome),
    ;

    /// Begins ongoing operation.
    fn start(&mut self) -> (outcome: Result<(), Self::Error>)
        ensures
            Self::start_spec(*old(self), *final(self), outcome),
    ;

    /// Pushes the state wanted of one device to the backend.
    fn set_integration_device_state(&mut self, device: &Device<Self::DeviceFields>) -> (outcome:
        Result<(), Self::Error>)
        ensures
            Self::set_integration_device_state_spec(*old(self), *device, *final(self), outcome),
    ;

    /// Runs an action that the backend defines.
    fn run_integration_action(&mut self, payload: &Self::ActionPayload) -> (outcome: Result<
        (),
        Self::Error,
    >)
        ensures
            Self::run_integration_action_spec(*old(self), *payload, *final(self), outcome),
    ;
}

} // verus!
