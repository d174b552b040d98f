//! What holds of the registry's operations, whatever the handlers do.
//!
//! Each law takes the registry before and after an operation, related by the
//! operation's own contract, and states a consequence of it.

use crate::error::{not_found_text, unknown_module_text, IntegrationsError};
use crate::integration::{Integration, IntegrationId};
use crate::kind::IntegrationKind;
use crate::registry::{
    backend_outcome, lifecycle_spec, load_spec, pass_spec, pass_stopped_at, Integrations, Lifecycle,
};
use vstd::prelude::*;

verus! {

/// A load under a known module name either puts exactly one entry at the
/// identifier, the handler that the kind's constructor built, or fails with
/// the constructor's error and changes nothing. On success every other entry
/// is as it was, and the table has grown by one exactly if the identifier is
/// new.
pub proof fn lemma_load_puts_one_entry<H: Integration>(
    before: Integrations<H>,
    module_name: Seq<char>,
    id: IntegrationId,
    config: config::Value,
    event_tx: H::EventSink,
    after: Integrations<H>,
    outcome: Result<(), IntegrationsError<H::Error>>,
)
    requires
        before.integrations.wf(),
        after.integrations.wf(),
        IntegrationKind::spec_from_module_name(module_name) is Some,
        Integrations::<H>::load_integration_spec(
            before,
            module_name,
            id,
            config,
            event_tx,
            after,
            outcome,
        ),
    ensures
        match outcome {
            Ok(()) => {
                &&& after.integrations@.contains_key(id@)
                &&& after.integrations.order().no_duplicates()
                &&& after.integrations.order().contains(id@)
                &&& H::new_spec(
                    IntegrationKind::spec_from_module_name(module_name)->Some_0,
                    id,
                    config,
                    event_tx,
                    Ok(after.integrations@[id@]),
                )
                &&& forall|other: Seq<char>|
                    other != id@ ==> (after.integrations@.contains_key(other)
                        <==> before.integrations@.contains_key(other))
                &&& forall|other: Seq<char>|
                    other != id@ && before.integrations@.contains_key(other)
                        ==> after.integrations@[other] == before.integrations@[other]
                &&& after.integrations@.len() == before.integrations@.len() + (
                if before.integrations@.contains_key(id@) {
                    0int
                } else {
                    1int
                })
            },
            Err(e) => {
                &&& e matches IntegrationsError::Configuration(refusal)
                &&& H::new_spec(
                    IntegrationKind::spec_from_module_name(module_name)->Some_0,
                    id,
                    config,
                    event_tx,
                    Err(refusal),
                )
                &&& after.integrations == before.integrations
            },
        },
{
    before.integrations.lemma_order_lists_keys();
    after.integrations.lemma_order_lists_keys();
}

/// Of two loads under one identifier the second wins: after both, the entry
/// at the identifier is the handler that the second load built, it stands
/// where the first load's handler stood, and the table is no larger than after
/// the first.
pub proof fn lemma_second_load_wins<H: Integration>(
    before: Integrations<H>,
    first_module: Seq<char>,
    first_id: IntegrationId,
    first_config: config::Value,
    first_tx: H::EventSink,
    between: Integrations<H>,
    second_module: Seq<char>,
    second_id: IntegrationId,
    second_config: config::Value,
    second_tx: H::EventSink,
    after: Integrations<H>,
)
    requires
        before.integrations.wf(),
        between.integrations.wf(),
        after.integrations.wf(),
        first_id@ == second_id@,
        Integrations::<H>::load_integration_spec(
            before,
            first_module,
            first_id,
            first_config,
            first_tx,
            between,
            Ok(()),
        ),
        Integrations::<H>::load_integration_spec(
            between,
            second_module,
            second_id,
            second_config,
            second_tx,
            after,
            Ok(()),
        ),
    ensures
        after.integrations@.contains_key(second_id@),
        load_spec::<H>(
            second_module,
            second_id,
            second_config,
            second_tx,
            Ok(after.integrations@[second_id@]),
        ),
        after.integrations.order() == between.integrations.order(),
        after.integrations@.len() == between.integrations@.len(),
        after.integrations@ == before.integrations@.insert(
            second_id@,
            after.integrations@[second_id@],
        ),
{
    before.integrations.lemma_order_lists_keys();
    between.integrations.lemma_order_lists_keys();
    after.integrations.lemma_order_lists_keys();
    assert(after.integrations@ =~= before.integrations@.insert(
        second_id@,
        after.integrations@[second_id@],
    ));
}

/// A load under a module name that selects no kind fails as a configuration
/// error that names the module, and leaves the registry as it was.
pub proof fn lemma_unknown_module_changes_nothing<H: Integration>(
    before: Integrations<H>,
    module_name: Seq<char>,
    id: IntegrationId,
    config: config::Value,
    event_tx: H::EventSink,
    after: Integrations<H>,
    outcome: Result<(), IntegrationsError<H::Error>>,
)
    requires
        IntegrationKind::spec_from_module_name(module_name) is None,
        Integrations::<H>::load_integration_spec(
            before,
            module_name,
            id,
            config,
            event_tx,
            after,
            outcome,
        ),
    ensures
        outcome matches Err(e) && e.is_configuration_error() && e.spec_message() == Some(
            unknown_module_text(module_name),
        ),
        after.integrations == before.integrations,
        after.sender == before.sender,
        after.integrations@ == before.integrations@,
        after.integrations.order() == before.integrations.order(),
        after.integrations.handlers() == before.integrations.handlers(),
{
}

/// A dispatched call fails as not found exactly if no handler stands at the
/// identifier. It then names the identifier, and every handler is as it was:
/// none was called.
pub proof fn lemma_absent_identifier_is_not_found<H: Integration>(
    before: Integrations<H>,
    id: Seq<char>,
    call: spec_fn(H, H, Result<(), H::Error>) -> bool,
    after: Integrations<H>,
    outcome: Result<(), IntegrationsError<H::Error>>,
)
    requires
        Integrations::<H>::dispatch_spec(before, id, call, after, outcome),
    ensures
        (outcome matches Err(e) && e is NotFound) <==> !before.integrations@.contains_key(id),
        !before.integrations@.contains_key(id) ==> {
            &&& outcome matches Err(e)
            &&& e.spec_message() == Some(not_found_text(id))
            &&& after.integrations.handlers() == before.integrations.handlers()
            &&& after.integrations@ == before.integrations@
        },
{
}

/// A dispatched call to an identifier that the table holds reaches the handler
/// at that identifier and no other, and hands the handler's outcome on: its
/// success as success, its failure as a backend error that carries it.
pub proof fn lemma_dispatch_reaches_one_handler<H: Integration>(
    before: Integrations<H>,
    id: Seq<char>,
    call: spec_fn(H, H, Result<(), H::Error>) -> bool,
    after: Integrations<H>,
    outcome: Result<(), IntegrationsError<H::Error>>,
)
    requires
        before.integrations.wf(),
        after.integrations.wf(),
        before.integrations@.contains_key(id),
        Integrations::<H>::dispatch_spec(before, id, call, after, outcome),
    ensures
        backend_outcome(outcome) matches Some(result) && call(
            before.integrations@[id],
            after.integrations@[id],
            result,
        ),
        forall|other: Seq<char>|
            other != id ==> (after.integrations@.contains_key(other)
                <==> before.integrations@.contains_key(other)),
        forall|other: Seq<char>|
            other != id && before.integrations@.contains_key(other) ==> after.integrations@[other]
                == before.integrations@[other],
        forall|i: int|
            0 <= i < before.integrations.order().len() && before.integrations.order()[i] != id
                ==> #[trigger] after.integrations.handlers()[i]
                == before.integrations.handlers()[i],
{
    before.integrations.lemma_order_lists_keys();
    after.integrations.lemma_order_lists_keys();
    assert forall|i: int|
        0 <= i < before.integrations.order().len() && before.integrations.order()[i]
            != id implies #[trigger] after.integrations.handlers()[i]
        == before.integrations.handlers()[i] by {
        let other = before.integrations.order()[i];
        assert(after.integrations.order()[i] == other);
        assert(after.integrations@[other] == before.integrations@[other]);
    }
}

/// A pass ends in success or in a backend's error, never in another failure.
/// It succeeds only if every handler took the step and succeeded. It fails
/// with the error of one handler: every handler before that one took the step
/// and succeeded, that one took it and failed, and no handler after it was
/// touched. A pass over an empty table succeeds.
pub proof fn lemma_pass_stops_at_first_failure<H: Integration>(
    step: Lifecycle,
    before: Seq<H>,
    after: Seq<H>,
    outcome: Result<(), IntegrationsError<H::Error>>,
)
    requires
        pass_spec(step, before, after, outcome),
    ensures
        after.len() == before.len(),
        backend_outcome(outcome) is Some,
        outcome is Ok ==> forall|i: int|
            0 <= i < before.len() ==> lifecycle_spec(step, before[i], #[trigger] after[i], Ok(())),
        outcome matches Err(IntegrationsError::Backend(e)) ==> exists|k: int|
            {
                &&& 0 <= k < before.len()
                &&& #[trigger] lifecycle_spec(step, before[k], after[k], Err(e))
                &&& forall|i: int|
                    0 <= i < k ==> lifecycle_spec(step, before[i], #[trigger] after[i], Ok(()))
                &&& forall|i: int| k < i < before.len() ==> #[trigger] after[i] == before[i]
            },
        before.len() == 0 ==> outcome is Ok,
{
    if let Err(IntegrationsError::Backend(e)) = outcome {
        let k = choose|k: int| #[trigger] pass_stopped_at(step, before, after, k, e);
        assert(lifecycle_spec(step, before[k], after[k], Err(e)));
    }
}

} // verus!
