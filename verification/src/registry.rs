//! The registry: loading handlers by name, bringing them up, and dispatching
//! to one of them.

use crate::error::IntegrationsError;
use crate::integration::{Device, Integration, IntegrationId};
use crate::kind::IntegrationKind;
use crate::tree::{
    entry_handlers, entry_ids, lemma_insert_is_map_insert, order_with, IntegrationsTree,
};
use vstd::prelude::*;

verus! {

/// What building a handler by name may give: an unknown name is refused with
/// the name; a known one gives what the kind's constructor gave, a handler or
/// the constructor's own error.
pub open spec fn load_spec<H: Integration>(
    module_name: Seq<char>,
    id: IntegrationId,
    config: config::Value,
    event_tx: H::EventSink,
    outcome: Result<H, IntegrationsError<H::Error>>,
) -> bool {
    match IntegrationKind::spec_from_module_name(module_name) {
        None => outcome matches Err(IntegrationsError::UnknownModule { module_name: refused })
            && refused@ == module_name,
        Some(kind) => match outcome {
            Ok(handler) => H::new_spec(kind, id, config, event_tx, Ok(handler)),
            Err(IntegrationsError::Configuration(e)) => H::new_spec(
                kind,
                id,
                config,
                event_tx,
                Err(e),
            ),
            Err(_) => false,
        },
    }
}

/// Builds the handler that `module_name` selects.
pub fn load_integration<H: Integration>(
    module_name: &String,
    id: &IntegrationId,
    config: &config::Value,
    event_tx: H::EventSink,
) -> (outcome: Result<H, IntegrationsError<H::Error>>)
    ensures
        load_spec::<H>(module_name@, *id, *config, event_tx, outcome),
{
    match IntegrationKind::from_module_name(module_name.as_str()) {
        Some(kind) => match H::new(kind, id, config, event_tx) {
            Ok(handler) => Ok(handler),
            Err(e) => Err(IntegrationsError::Configuration(e)),
        },
        None => Err(IntegrationsError::UnknownModule { module_name: module_name.clone() }),
    }
}

/// The two steps that bring a handler up.
#[derive(Clone, Copy, Debug, PartialEq, Eq, Structural)]
pub enum Lifecycle {
    Register,
    Start,
}

/// The handler's relation for the given step.
pub open spec fn lifecycle_spec<H: Integration>(
    step: Lifecycle,
    pre: H,
    post: H,
    outcome: Result<(), H::Error>,
) -> bool {
    match step {
        Lifecycle::Register => H::register_spec(pre, post, outcome),
        Lifecycle::Start => H::start_spec(pre, post, outcome),
    }
}

/// The handler's own outcome inside the registry's: success and a backend's
/// failure carry one; the registry's own failures do not.
pub open spec fn backend_outcome<E>(outcome: Result<(), IntegrationsError<E>>) -> Option<
    Result<(), E>,
> {
    match outcome {
        Ok(()) => Some(Ok(())),
        Err(IntegrationsError::Backend(e)) => Some(Err(e)),
        Err(_) => None,
    }
}

/// A success that carries nothing is the one success there is.
pub proof fn lemma_success_is_unit<E>(outcome: Result<(), E>)
    requires
        outcome is Ok,
    ensures
        outcome == Ok::<(), E>(()),
{
    let nothing: () = outcome->Ok_0;
    assert(outcome == Ok::<(), E>(nothing));
}

/// A pass that failed with `e` at place `k`: the handlers before `k` took the
/// step and succeeded, the handler at `k` took it and failed with `e`, and the
/// handlers after `k` were left as they were.
pub open spec fn pass_stopped_at<H: Integration>(
    step: Lifecycle,
    before: Seq<H>,
    after: Seq<H>,
    k: int,
    e: H::Error,
) -> bool {
    &&& 0 <= k < before.len()
    &&& forall|i: int| 0 <= i < k ==> lifecycle_spec(step, before[i], #[trigger] after[i], Ok(()))
    &&& lifecycle_spec(step, before[k], after[k], Err(e))
    &&& forall|i: int| k < i < before.len() ==> #[trigger] after[i] == before[i]
}

/// What a pass over the handlers `before`, in their order, leaves in `after`.
/// A pass that succeeds has had every handler take the step and succeed. A
/// pass fails with the error of the first handler that failed, and goes no
/// further.
pub open spec fn pass_spec<H: Integration>(
    step: Lifecycle,
    before: Seq<H>,
    after: Seq<H>,
    outcome: Result<(), IntegrationsError<H::Error>>,
) -> bool {
    &&& after.len() == before.len()
    &&& match outcome {
        Ok(()) => forall|i: int|
            0 <= i < before.len() ==> lifecycle_spec(step, before[i], #[trigger] after[i], Ok(())),
        Err(IntegrationsError::Backend(e)) => exists|k: int| #[trigger]
            pass_stopped_at(step, before, after, k, e),
        Err(_) => false,
    }
}

/// The handlers of all configured integrations, and the event sink that each
/// new handler is given a clone of.
///
/// Every operation takes the registry by exclusive reference: a program that
/// shares the registry puts it behind one lock and holds the lock for the
/// length of the operation. While handlers are being called the entries are
/// out of the table, and are put back when the last call has returned.
pub struct Integrations<H: Integration> {
    pub integrations: IntegrationsTree<H>,
    pub sender: H::EventSink,
}

impl<H: Integration> Integrations<H> {
    /// What a load does to the registry, `event_tx` being the clone of the
    /// sink that the constructor was given. On success the new handler stands
    /// at `id`, in place of any earlier one; on failure nothing has changed.
    pub open spec fn load_integration_spec(
        before: Self,
        module_name: Seq<char>,
        id: IntegrationId,
        config: config::Value,
        event_tx: H::EventSink,
        after: Self,
        outcome: Result<(), IntegrationsError<H::Error>>,
    ) -> bool {
        &&& cloned(before.sender, event_tx)
        &&& after.sender == before.sender
        &&& match outcome {
            Ok(()) => {
                &&& after.integrations@.contains_key(id@)
                &&& load_spec::<H>(module_name, id, config, event_tx, Ok(after.integrations@[id@]))
                &&& after.integrations@ == before.integrations@.insert(
                    id@,
                    after.integrations@[id@],
                )
                &&& after.integrations.order() == order_with(before.integrations.order(), id@)
            },
            Err(e) => {
                &&& load_spec::<H>(module_name, id, config, event_tx, Err(e))
                &&& after.integrations == before.integrations
            },
        }
    }

    /// A registry with no handler in it, which will give each handler that
    /// it loads a clone of `sender`.
    pub fn new(sender: H::EventSink) -> (registry: Self)
        ensures
            registry.sender == sender,
            registry.integrations.wf(),
            registry.integrations@ == Map::<Seq<char>, H>::empty(),
            registry.integrations.order() == Seq::<Seq<char>>::empty(),
            registry.integrations.handlers() == Seq::<H>::empty(),
    {
        Integrations { integrations: IntegrationsTree::new(), sender }
    }

    /// Builds the handler that `module_name` selects and puts it at
    /// `integration_id`.
    pub fn load_integration(
        &mut self,
        module_name: &String,
        integration_id: &IntegrationId,
        config: &config::Value,
    ) -> (outcome: Result<(), IntegrationsError<H::Error>>)
        ensures
            final(self).integrations.wf(),
            exists|event_tx: H::EventSink| #[trigger]
                Self::load_integration_spec(
                    *old(self),
                    module_name@,
                    *integration_id,
                    *config,
                    event_tx,
                    *final(self),
                    outcome,
                ),
    {
        proof {
            use_type_invariant(&self.integrations);
        }
        let event_tx = self.sender.clone();
        match load_integration::<H>(module_name, integration_id, config, event_tx) {
            Ok(handler) => {
                self.integrations.insert(integration_id.clone(), handler);
                proof {
                    assert(Self::load_integration_spec(
                        *old(self),
                        module_name@,
                        *integration_id,
                        *config,
                        event_tx,
                        *self,
                        Ok(()),
                    ));
                }
                Ok(())
            },
            Err(e) => {
                proof {
                    assert(Self::load_integration_spec(
                        *old(self),
                        module_name@,
                        *integration_id,
                        *config,
                        event_tx,
                        *self,
                        Err(e),
                    ));
                }
                Err(e)
            },
        }
    }

    /// What a call dispatched to `id` does to the registry, `call` being the
    /// handler's relation for the call. Where no handler stands at `id` the
    /// call fails and names `id`, and no handler has changed. Else the handler
    /// at `id`, and no other, took the call, and its outcome is handed on.
    pub open spec fn dispatch_spec(
        before: Self,
        id: Seq<char>,
        call: spec_fn(H, H, Result<(), H::Error>) -> bool,
        after: Self,
        outcome: Result<(), IntegrationsError<H::Error>>,
    ) -> bool {
        &&& after.sender == before.sender
        &&& after.integrations.order() == before.integrations.order()
        &&& if before.integrations@.contains_key(id) {
            &&& after.integrations@.contains_key(id)
            &&& backend_outcome(outcome) matches Some(result)
            &&& call(before.integrations@[id], after.integrations@[id], result)
            &&& after.integrations@ == before.integrations@.insert(id, after.integrations@[id])
        } else {
            &&& outcome matches Err(IntegrationsError::NotFound { integration_id })
            &&& integration_id@ == id
            &&& after.integrations == before.integrations
        }
    }

    /// Takes every handler through `step`, in the table's order, and stops at
    /// the first that fails.
    fn run_pass(&mut self, step: Lifecycle) -> (outcome: Result<(), IntegrationsError<H::Error>>)
        ensures
            final(self).sender == old(self).sender,
            final(self).integrations.wf(),
            final(self).integrations.order() == old(self).integrations.order(),
            pass_spec(
                step,
                old(self).integrations.handlers(),
                final(self).integrations.handlers(),
                outcome,
            ),
    {
        let mut entries = self.integrations.take_entries();
        let ghost before = entry_handlers(entries@);
        let ghost ids = entry_ids(entries@);
        let mut outcome: Result<(), IntegrationsError<H::Error>> = Ok(());
        let mut i: usize = 0;
        while i < entries.len() && outcome.is_ok()
            invariant
                i <= entries@.len(),
                entries@.len() == before.len(),
                entry_ids(entries@) == ids,
                match outcome {
                    Ok(()) => {
                        &&& forall|j: int|
                            0 <= j < i ==> lifecycle_spec(
                                step,
                                before[j],
                                #[trigger] entry_handlers(entries@)[j],
                                Ok(()),
                            )
                        &&& forall|j: int|
                            i <= j < before.len() ==> #[trigger] entry_handlers(entries@)[j]
                                == before[j]
                    },
                    Err(IntegrationsError::Backend(e)) => pass_stopped_at(
                        step,
                        before,
                        entry_handlers(entries@),
                        i as int,
                        e,
                    ),
                    Err(_) => false,
                },
            decreases entries@.len() - i + (if outcome is Ok { 1int } else { 0int }),
        {
            let ghost earlier = entries@;
            let result = match step {
                Lifecycle::Register => entries[i].handler.register(),
                Lifecycle::Start => entries[i].handler.start(),
            };
            proof {
                assert(entry_ids(entries@) =~= ids);
                assert(entry_handlers(earlier)[i as int] == before[i as int]);
                assert(lifecycle_spec(
                    step,
                    before[i as int],
                    entry_handlers(entries@)[i as int],
                    result,
                ));
                assert forall|j: int| 0 <= j < entries@.len() && j != i implies #[trigger]
                    entry_handlers(entries@)[j] == entry_handlers(earlier)[j] by {
                    assert(entries@[j] == earlier[j]);
                }
            }
            match result {
                Ok(()) => {
                    i += 1;
                    proof {
                        lemma_success_is_unit(result);
                    }
                },
                Err(e) => {
                    outcome = Err(IntegrationsError::Backend(e));
                },
            }
        }
        self.integrations.put_entries(entries);
        outcome
    }

    /// Registers every handler, in the table's order. The first failure ends
    /// the pass and is returned; the handlers registered before it stay
    /// registered.
    pub fn run_register_pass(&mut self) -> (outcome: Result<(), IntegrationsError<H::Error>>)
        ensures
            final(self).sender == old(self).sender,
            final(self).integrations.wf(),
            final(self).integrations.order() == old(self).integrations.order(),
            pass_spec(
                Lifecycle::Register,
                old(self).integrations.handlers(),
                final(self).integrations.handlers(),
                outcome,
            ),
    {
        self.run_pass(Lifecycle::Register)
    }

    /// Starts every handler, in the table's order. The first failure ends the
    /// pass and is returned; the handlers started before it stay started.
    pub fn run_start_pass(&mut self) -> (outcome: Result<(), IntegrationsError<H::Error>>)
        ensures
            final(self).sender == old(self).sender,
            final(self).integrations.wf(),
            final(self).integrations.order() == old(self).integrations.order(),
            pass_spec(
                Lifecycle::Start,
                old(self).integrations.handlers(),
                final(self).integrations.handlers(),
                outcome,
            ),
    {
        self.run_pass(Lifecycle::Start)
    }

    /// Pushes the state wanted of `device` to the handler that owns it.
    pub fn set_integration_device_state(&mut self, device: &Device<H::DeviceFields>) -> (outcome:
        Result<(), IntegrationsError<H::Error>>)
        ensures
            final(self).integrations.wf(),
            Self::dispatch_spec(
                *old(self),
                device.integration_id@,
                |pre: H, post: H, result: Result<(), H::Error>|
                    H::set_integration_device_state_spec(pre, *device, post, result),
                *final(self),
                outcome,
            ),
    {
        match self.integrations.position(&device.integration_id) {
            None => Err(
                IntegrationsError::NotFound { integration_id: device.integration_id.clone() },
            ),
            Some(i) => {
                let mut entries = self.integrations.take_entries();
                let ghost earlier = entries@;
                let result = entries[i].handler.set_integration_device_state(device);
                proof {
                    assert(entry_ids(entries@) =~= entry_ids(earlier));
                    assert(entry_handlers(entries@) =~= entry_handlers(earlier).update(
                        i as int,
                        entries@[i as int].handler,
                    ));
                }
                self.integrations.put_entries(entries);
                proof {
                    self.lemma_dispatched(*old(self), i as int);
                    if result is Ok {
                        lemma_success_is_unit(result);
                    }
                }
                match result {
                    Ok(()) => Ok(()),
                    Err(e) => Err(IntegrationsError::Backend(e)),
                }
            },
        }
    }

    /// Runs an action on the handler at `integration_id`.
    pub fn run_integration_action(
        &mut self,
        integration_id: &IntegrationId,
        payload: &H::ActionPayload,
    ) -> (outcome: Result<(), IntegrationsError<H::Error>>)
        ensures
            final(self).integrations.wf(),
            Self::dispatch_spec(
                *old(self),
                integration_id@,
                |pre: H, post: H, result: Result<(), H::Error>|
                    H::run_integration_action_spec(pre, *payload, post, result),
                *final(self),
                outcome,
            ),
    {
        match self.integrations.position(integration_id) {
            None => Err(IntegrationsError::NotFound { integration_id: integration_id.clone() }),
            Some(i) => {
                let mut entries = self.integrations.take_entries();
                let ghost earlier = entries@;
                let result = entries[i].handler.run_integration_action(payload);
                proof {
                    assert(entry_ids(entries@) =~= entry_ids(earlier));
                    assert(entry_handlers(entries@) =~= entry_handlers(earlier).update(
                        i as int,
                        entries@[i as int].handler,
                    ));
                }
                self.integrations.put_entries(entries);
                proof {
                    self.lemma_dispatched(*old(self), i as int);
                    if result is Ok {
                        lemma_success_is_unit(result);
                    }
                }
                match result {
                    Ok(()) => Ok(()),
                    Err(e) => Err(IntegrationsError::Backend(e)),
                }
            },
        }
    }

    /// A registry whose handler at place `i` alone has changed maps the
    /// identifier at `i` to the new handler and every other identifier as
    /// before.
    proof fn lemma_dispatched(&self, before: Self, i: int)
        requires
            before.integrations.wf(),
            0 <= i < before.integrations.order().len(),
            self.integrations.order() == before.integrations.order(),
            self.integrations.handlers() == before.integrations.handlers().update(
                i,
                self.integrations.handlers()[i],
            ),
        ensures
            self.integrations@.contains_key(before.integrations.order()[i]),
            before.integrations@.contains_key(before.integrations.order()[i]),
            self.integrations@[before.integrations.order()[i]] == self.integrations.handlers()[i],
            before.integrations@[before.integrations.order()[i]]
                == before.integrations.handlers()[i],
            self.integrations@ == before.integrations@.insert(
                before.integrations.order()[i],
                self.integrations.handlers()[i],
            ),
    {
        let order = before.integrations.order();
        let id = order[i];
        before.integrations.lemma_order_lists_keys();
        assert(order.contains(id));
        assert(order.index_of(id) == i);
        lemma_insert_is_map_insert(
            order,
            before.integrations.handlers(),
            id,
            self.integrations.handlers()[i],
        );
    }
}

} // verus!
