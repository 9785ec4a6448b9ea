//! Laws of the registry.

use crate::outcome;
use crate::registry;
use crate::registry::{AnyVerifier, RegistryError, VerifierRegistry};
use crate::types::{IntentModel, OutcomeModel, ResultModel, VerificationMode};
use crate::verifiers::file;
use crate::verifiers::http;
use crate::verifiers::json;
use crate::verifiers::{JsonVerifier, Verifier};
use vstd::prelude::*;
use vstd::string::*;

verus! {

/// What the first operation with a verifier is.
proof fn lemma_first_taken(registry: VerifierRegistry, operations: Seq<Seq<char>>)
    ensures
        match registry::first_taken(registry, operations) {
            Some(taken) => registry.verifier_for(taken) is Some && exists|i: int|
                0 <= i < operations.len() && #[trigger] operations[i] == taken && forall|j: int|
                    0 <= j < i ==> registry.verifier_for(#[trigger] operations[j]) is None,
            None => forall|i: int|
                0 <= i < operations.len() ==> registry.verifier_for(#[trigger] operations[i]) is None,
        },
    decreases operations.len(),
{
    if operations.len() > 0 && registry.verifier_for(operations[0]) is None {
        let rest = operations.skip(1);
        lemma_first_taken(registry, rest);
        assert(forall|j: int| 0 < j < operations.len() ==> #[trigger] operations[j] == rest[j - 1]);
        if let Some(taken) = registry::first_taken(registry, rest) {
            let i = choose|i: int|
                0 <= i < rest.len() && #[trigger] rest[i] == taken && forall|j: int|
                    0 <= j < i ==> registry.verifier_for(#[trigger] rest[j]) is None;
            assert(operations[i + 1] == taken);
            assert forall|j: int| 0 <= j < i + 1 implies registry.verifier_for(
                #[trigger] operations[j],
            ) is None by {
                if j > 0 {
                    assert(operations[j] == rest[j - 1]);
                }
            }
        }
    } else if operations.len() > 0 {
        assert(operations[0] == registry::first_taken(registry, operations)->0);
    }
}

/// A verifier is registered for all of the operations or for none: it is
/// accepted exactly where none of them had a verifier, and where it is refused
/// the registry stays as it was.
pub proof fn law_registration_is_all_or_nothing(
    before: VerifierRegistry,
    after: VerifierRegistry,
    operations: Seq<Seq<char>>,
    verifier: AnyVerifier,
    result: Result<(), RegistryError>,
)
    requires
        registry::registered(before, after, operations, verifier, result),
    ensures
        result is Ok <==> forall|i: int|
            0 <= i < operations.len() ==> before.verifier_for(#[trigger] operations[i]) is None,
        result is Ok ==> forall|i: int|
            0 <= i < operations.len() ==> after.verifier_for(#[trigger] operations[i]) == Some(
                verifier,
            ),
        result is Err ==> after == before,
{
    lemma_first_taken(before, operations);
    if let Some(taken) = registry::first_taken(before, operations) {
        let i = choose|i: int| 0 <= i < operations.len() && #[trigger] operations[i] == taken;
        assert(before.verifier_for(operations[i]) is Some);
    }
}

/// An operation goes to the verifier that was registered for it: after a
/// registration that was accepted, an intent or an outcome with one of the
/// operations comes to what that verifier may give, and to nothing else.
pub proof fn law_operations_go_to_their_verifier(
    before: VerifierRegistry,
    after: VerifierRegistry,
    operations: Seq<Seq<char>>,
    verifier: AnyVerifier,
    intent: IntentModel,
    outcome: OutcomeModel,
    result: ResultModel,
)
    requires
        registry::registered(before, after, operations, verifier, Ok(())),
    ensures
        operations.contains(intent.operation) ==> (after.active_may_give(intent, outcome, result)
            <==> verifier.verifier.active_may_give(intent, outcome, result)),
        operations.contains(outcome.operation) ==> (after.passive_may_give(outcome, result)
            <==> verifier.verifier.passive_may_give(outcome, result)),
{
}

/// Operations that a registration is not about go where they went before, and
/// those without a verifier are skipped.
pub proof fn law_other_operations_go_where_they_went(
    before: VerifierRegistry,
    after: VerifierRegistry,
    operations: Seq<Seq<char>>,
    verifier: AnyVerifier,
    registration: Result<(), RegistryError>,
    intent: IntentModel,
    outcome: OutcomeModel,
    result: ResultModel,
)
    requires
        registry::registered(before, after, operations, verifier, registration),
    ensures
        !operations.contains(intent.operation) ==> (after.active_may_give(intent, outcome, result)
            <==> before.active_may_give(intent, outcome, result)),
        !operations.contains(outcome.operation) ==> (after.passive_may_give(outcome, result)
            <==> before.passive_may_give(outcome, result)),
{
}

/// An operation without a verifier is skipped: an intent with it as a mutation,
/// an outcome with it as provenance.
pub proof fn law_operations_without_verifier_are_skipped(
    registry: VerifierRegistry,
    intent: IntentModel,
    outcome: OutcomeModel,
    result: ResultModel,
)
    ensures
        registry.verifier_for(intent.operation) is None && registry.active_may_give(
            intent,
            outcome,
            result,
        ) ==> result == outcome::skipped(VerificationMode::Mutation, intent.operation),
        registry.verifier_for(outcome.operation) is None && registry.passive_may_give(
            outcome,
            result,
        ) ==> result == outcome::skipped(VerificationMode::Provenance, outcome.operation),
{
}

/// The JSON verifier handles two operations, and gives what it is said to give.
pub proof fn law_json_verifier(
    operations: Seq<Seq<char>>,
    intent: IntentModel,
    outcome: OutcomeModel,
    result: ResultModel,
)
    ensures
        JsonVerifier.may_handle(operations) <==> operations == seq![
            "json_output"@,
            "generate_json"@,
        ],
        json::operations_handled() == seq!["json_output"@, "generate_json"@],
        JsonVerifier.active_may_give(intent, outcome, result) ==> exists|elapsed_ms: u128|
            result == #[trigger] json::active_result(intent, outcome, elapsed_ms),
        JsonVerifier.passive_may_give(outcome, result) ==> exists|elapsed_ms: u128|
            result == #[trigger] json::passive_result(outcome, elapsed_ms),
{
}

/// JSON output goes to the JSON verifier: after one was registered, an intent
/// or an outcome with one of its operations comes to what it gives.
pub proof fn law_json_output_goes_to_the_json_verifier(
    before: VerifierRegistry,
    after: VerifierRegistry,
    intent: IntentModel,
    outcome: OutcomeModel,
    result: ResultModel,
)
    requires
        registry::registered(
            before,
            after,
            json::operations_handled(),
            AnyVerifier { verifier: Box::new(JsonVerifier) },
            Ok(()),
        ),
    ensures
        json::operations_handled().contains(intent.operation) && after.active_may_give(
            intent,
            outcome,
            result,
        ) ==> exists|elapsed_ms: u128|
            outcome::timed(elapsed_ms) && result == #[trigger] json::active_result(
                intent,
                outcome,
                elapsed_ms,
            ),
        json::operations_handled().contains(outcome.operation) && after.passive_may_give(
            outcome,
            result,
        ) ==> exists|elapsed_ms: u128|
            outcome::timed(elapsed_ms) && result == #[trigger] json::passive_result(
                outcome,
                elapsed_ms,
            ),
{
}

/// Registering never takes an operation away from its verifier.
pub proof fn law_registered_verifiers_stay(
    before: VerifierRegistry,
    after: VerifierRegistry,
    operations: Seq<Seq<char>>,
    verifier: AnyVerifier,
    result: Result<(), RegistryError>,
    operation: Seq<char>,
)
    requires
        registry::registered(before, after, operations, verifier, result),
        before.verifier_for(operation) is Some,
    ensures
        after.verifier_for(operation) == before.verifier_for(operation),
{
    lemma_first_taken(before, operations);
    if operations.contains(operation) {
        let i = choose|i: int| 0 <= i < operations.len() && operations[i] == operation;
        assert(before.verifier_for(operations[i]) is Some);
    }
}

/// Verifiers for different operations can be registered one after the other:
/// where no operation of either has a verifier and none is handled by both, both
/// are accepted, and each is then there for its own.
pub proof fn law_different_operations_do_not_collide(
    before: VerifierRegistry,
    between: VerifierRegistry,
    after: VerifierRegistry,
    first_operations: Seq<Seq<char>>,
    second_operations: Seq<Seq<char>>,
    first: AnyVerifier,
    second: AnyVerifier,
    first_result: Result<(), RegistryError>,
    second_result: Result<(), RegistryError>,
)
    requires
        registry::registered(before, between, first_operations, first, first_result),
        registry::registered(between, after, second_operations, second, second_result),
        disjoint(first_operations, second_operations),
        forall|k: Seq<char>|
            first_operations.contains(k) || second_operations.contains(k)
                ==> (#[trigger] before.verifier_for(k)) is None,
    ensures
        first_result is Ok,
        second_result is Ok,
        forall|k: Seq<char>|
            first_operations.contains(k) ==> #[trigger] after.verifier_for(k) == Some(first),
        forall|k: Seq<char>|
            second_operations.contains(k) ==> #[trigger] after.verifier_for(k) == Some(second),
{
    lemma_first_taken(before, first_operations);
    if let Some(taken) = registry::first_taken(before, first_operations) {
        assert(first_operations.contains(taken));
    }
    lemma_first_taken(between, second_operations);
    if let Some(taken) = registry::first_taken(between, second_operations) {
        assert(second_operations.contains(taken));
        assert(between.verifier_for(taken) == before.verifier_for(taken));
    }
}

/// Whether two lists of operations have none in common.
pub open spec fn disjoint(a: Seq<Seq<char>>, b: Seq<Seq<char>>) -> bool {
    forall|k: Seq<char>| !(#[trigger] a.contains(k) && b.contains(k))
}

/// No operation is handled by two of the built-in verifiers.
pub proof fn law_built_in_operations_differ()
    ensures
        disjoint(file::operations_handled(), json::operations_handled()),
        disjoint(json::operations_handled(), file::operations_handled()),
        disjoint(file::operations_handled(), http::operations_handled()),
        disjoint(http::operations_handled(), file::operations_handled()),
        disjoint(json::operations_handled(), http::operations_handled()),
        disjoint(http::operations_handled(), json::operations_handled()),
{
    reveal_strlit("write_file");
    reveal_strlit("edit_file");
    reveal_strlit("json_output");
    reveal_strlit("generate_json");
    reveal_strlit("generate_image");
    reveal_strlit("generate_video");
    reveal_strlit("artifact_url");
    assert("write_file"@[0] == 'w');
    assert("edit_file"@[0] == 'e');
    assert("json_output"@[0] == 'j');
    assert("generate_json"@[0] == 'g' && "generate_json"@.len() == 13);
    assert("generate_image"@[0] == 'g' && "generate_image"@.len() == 14);
    assert("generate_video"@[0] == 'g' && "generate_video"@.len() == 14);
    assert("artifact_url"@[0] == 'a');
    assert forall|k: Seq<char>| #[trigger] file::operations_handled().contains(k) implies k[0] == 'w'
        || k[0] == 'e' by {}
    assert forall|k: Seq<char>| #[trigger] json::operations_handled().contains(k) implies k[0] == 'j'
        || (k[0] == 'g' && k.len() == 13) by {}
    assert forall|k: Seq<char>| #[trigger] http::operations_handled().contains(k) implies k[0] == 'a'
        || (k[0] == 'g' && k.len() == 14) by {}
}

/// The built-in verifiers can be registered together, in any order: where one
/// was registered first in a registry that had none, another is accepted after
/// it.
pub proof fn law_built_in_verifiers_register_together(
    empty: VerifierRegistry,
    between: VerifierRegistry,
    after: VerifierRegistry,
    first_operations: Seq<Seq<char>>,
    second_operations: Seq<Seq<char>>,
    first: AnyVerifier,
    second: AnyVerifier,
    first_result: Result<(), RegistryError>,
    second_result: Result<(), RegistryError>,
)
    requires
        forall|k: Seq<char>| (#[trigger] empty.verifier_for(k)) is None,
        is_built_in(first_operations),
        is_built_in(second_operations),
        first_operations != second_operations,
        registry::registered(empty, between, first_operations, first, first_result),
        registry::registered(between, after, second_operations, second, second_result),
    ensures
        first_result is Ok,
        second_result is Ok,
        forall|k: Seq<char>|
            first_operations.contains(k) ==> #[trigger] after.verifier_for(k) == Some(first),
        forall|k: Seq<char>|
            second_operations.contains(k) ==> #[trigger] after.verifier_for(k) == Some(second),
{
    law_built_in_operations_differ();
    law_different_operations_do_not_collide(
        empty,
        between,
        after,
        first_operations,
        second_operations,
        first,
        second,
        first_result,
        second_result,
    );
}

/// Whether these are the operations of a built-in verifier.
pub open spec fn is_built_in(operations: Seq<Seq<char>>) -> bool {
    ||| operations == file::operations_handled()
    ||| operations == json::operations_handled()
    ||| operations == http::operations_handled()
}

/// A refusal names the first of the operations that had a verifier.
pub proof fn law_refusal_names_the_first_taken(
    before: VerifierRegistry,
    after: VerifierRegistry,
    operations: Seq<Seq<char>>,
    verifier: AnyVerifier,
    operation: String,
)
    requires
        registry::registered(
            before,
            after,
            operations,
            verifier,
            Err(RegistryError::DuplicateOperation { operation }),
        ),
    ensures
        before.verifier_for(operation@) is Some,
        exists|i: int|
            0 <= i < operations.len() && #[trigger] operations[i] == operation@ && forall|j: int|
                0 <= j < i ==> before.verifier_for(#[trigger] operations[j]) is None,
{
    lemma_first_taken(before, operations);
}

/// What was registered for some operations cannot be registered for them a
/// second time: the second attempt changes nothing and names the first of them.
pub proof fn law_second_registration_is_refused(
    empty: VerifierRegistry,
    once: VerifierRegistry,
    twice: VerifierRegistry,
    operations: Seq<Seq<char>>,
    first: AnyVerifier,
    second: AnyVerifier,
    result: Result<(), RegistryError>,
)
    requires
        operations.len() > 0,
        registry::registered(empty, once, operations, first, Ok(())),
        registry::registered(once, twice, operations, second, result),
    ensures
        twice == once,
        result matches Err(RegistryError::DuplicateOperation { operation }) && operation@
            == operations[0],
{
    assert(operations.contains(operations[0]));
    assert(once.verifier_for(operations[0]) is Some);
}

}
