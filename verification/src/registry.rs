//! A registry of verifiers by operation.

use crate::outcome;
use crate::outcome::skipped_result;
use crate::text;
use crate::text::{concat, owned_texts, same_text};
use crate::types::{
    ActionIntent, ActionOutcome, IntentModel, OutcomeModel, ResultModel, VerificationMode,
    VerificationResult,
};
use crate::verifiers::Verifier;
use vstd::prelude::*;
use vstd::string::*;

verus! {

/// Why a verifier could not be registered.
#[derive(Debug, PartialEq, Eq)]
pub enum RegistryError {
    /// There is a verifier for the operation already.
    DuplicateOperation { operation: String },
}

impl RegistryError {
    /// The error in words.
    pub open spec fn message(self) -> Seq<char> {
        match self {
            RegistryError::DuplicateOperation { operation } => "verifier for operation `"@
                + operation@ + "` is already registered"@,
        }
    }

    /// The error in words.
    pub fn to_text(&self) -> (s: String)
        ensures
            s@ == self.message(),
    {
        match self {
            RegistryError::DuplicateOperation { operation } => {
                let mut s: String = concat("verifier for operation `", operation.as_str());
                s.append("` is already registered");
                s
            },
        }
    }
}

/// A verifier of whatever type.
pub struct AnyVerifier {
    pub verifier: Box<dyn Verifier>,
}

/// Verifiers, each registered for the operations that it handles.
pub struct VerifierRegistry {
    operations: Vec<(String, usize)>,
    verifiers: Vec<AnyVerifier>,
}

/// The verifier that an operation was last given.
spec fn last_given(
    operations: Seq<(String, usize)>,
    verifiers: Seq<AnyVerifier>,
    operation: Seq<char>,
) -> Option<AnyVerifier>
    decreases operations.len(),
{
    if operations.len() == 0 {
        None
    } else if operations.last().0@ == operation {
        Some(verifiers[operations.last().1 as int])
    } else {
        last_given(operations.drop_last(), verifiers, operation)
    }
}

/// One more verifier changes nothing for the operations that were given others.
proof fn lemma_more_verifiers(
    operations: Seq<(String, usize)>,
    verifiers: Seq<AnyVerifier>,
    more: AnyVerifier,
    operation: Seq<char>,
)
    requires
        forall|i: int| 0 <= i < operations.len() ==> (#[trigger] operations[i]).1 < verifiers.len(),
    ensures
        last_given(operations, verifiers.push(more), operation) == last_given(
            operations,
            verifiers,
            operation,
        ),
    decreases operations.len(),
{
    if operations.len() > 0 {
        assert(operations.last() == operations[operations.len() - 1]);
        assert forall|i: int| 0 <= i < operations.drop_last().len() implies (
        #[trigger] operations.drop_last()[i]).1 < verifiers.len() by {
            assert(operations.drop_last()[i] == operations[i]);
        }
        lemma_more_verifiers(operations.drop_last(), verifiers, more, operation);
    }
}

impl VerifierRegistry {
    /// The verifier for an operation.
    pub closed spec fn verifier_for(&self, operation: Seq<char>) -> Option<AnyVerifier> {
        last_given(self.operations@, self.verifiers@, operation)
    }

    /// Whether an outcome may come to that result, given the intent: what the
    /// verifier for the operation of the intent may give, or that there is none.
    pub open spec fn active_may_give(
        &self,
        intent: IntentModel,
        outcome: OutcomeModel,
        result: ResultModel,
    ) -> bool {
        match self.verifier_for(intent.operation) {
            Some(v) => v.verifier.active_may_give(intent, outcome, result),
            None => result == outcome::skipped(VerificationMode::Mutation, intent.operation),
        }
    }

    /// Whether an outcome by itself may come to that result: what the verifier
    /// for its operation may give, or that there is none.
    pub open spec fn passive_may_give(&self, outcome: OutcomeModel, result: ResultModel) -> bool {
        match self.verifier_for(outcome.operation) {
            Some(v) => v.verifier.passive_may_give(outcome, result),
            None => result == outcome::skipped(VerificationMode::Provenance, outcome.operation),
        }
    }

    #[verifier::type_invariant]
    spec fn operations_have_verifiers(self) -> bool {
        forall|i: int|
            0 <= i < self.operations@.len() ==> (#[trigger] self.operations@[i]).1
                < self.verifiers@.len()
    }

    /// A registry without verifiers.
    pub fn new() -> (registry: VerifierRegistry)
        ensures
            forall|operation: Seq<char>| (#[trigger] registry.verifier_for(operation)) is None,
    {
        VerifierRegistry { operations: Vec::new(), verifiers: Vec::new() }
    }

    /// Finds the verifier for an operation.
    fn find(&self, operation: &str) -> (found: Option<&AnyVerifier>)
        ensures
            match found {
                Some(e) => self.verifier_for(operation@) == Some(*e),
                None => self.verifier_for(operation@) is None,
            },
    {
        proof {
            use_type_invariant(self);
        }
        let ghost all = self.operations@;
        let mut n: usize = self.operations.len();
        assert(all.take(n as int) == all);
        while n > 0
            invariant
                n <= all.len(),
                all == self.operations@,
                self.operations_have_verifiers(),
                self.verifier_for(operation@) == last_given(all.take(n as int), self.verifiers@, operation@),
            decreases n,
        {
            assert(all.take(n as int).drop_last() == all.take(n - 1));
            n = n - 1;
            assert(all[n as int].1 < self.verifiers@.len());
            if same_text(self.operations[n].0.as_str(), operation) {
                return Some(&self.verifiers[self.operations[n].1]);
            }
        }
        None
    }

    /// Checks an outcome with the verifier that is registered for the operation
    /// of the intent.
    pub fn verify_active(&self, intent: &ActionIntent, outcome: &ActionOutcome) -> (result:
        VerificationResult)
        ensures
            self.active_may_give(intent@, outcome@, result@),
    {
        match self.find(intent.operation.as_str()) {
            Some(e) => e.verifier.verify_active(intent, outcome),
            None => skipped_result(VerificationMode::Mutation, intent.operation.as_str()),
        }
    }

    /// Checks an outcome by itself with the verifier that is registered for its
    /// operation.
    pub fn verify_passive(&self, outcome: &ActionOutcome) -> (result: VerificationResult)
        ensures
            self.passive_may_give(outcome@, result@),
    {
        match self.find(outcome.operation.as_str()) {
            Some(e) => e.verifier.verify_passive(outcome),
            None => skipped_result(VerificationMode::Provenance, outcome.operation.as_str()),
        }
    }
}

/// The first of the operations that there is a verifier for.
pub open spec fn first_taken(
    registry: VerifierRegistry,
    operations: Seq<Seq<char>>,
) -> Option<Seq<char>>
    decreases operations.len(),
{
    if operations.len() == 0 {
        None
    } else if registry.verifier_for(operations[0]) is Some {
        Some(operations[0])
    } else {
        first_taken(registry, operations.skip(1))
    }
}

/// What registering a verifier for some operations does. Where there is a
/// verifier for one of them already, nothing changes, and the first such
/// operation is named. Otherwise the verifier is there for each of them, and
/// nothing changes for the others.
pub open spec fn registered(
    before: VerifierRegistry,
    after: VerifierRegistry,
    operations: Seq<Seq<char>>,
    verifier: AnyVerifier,
    result: Result<(), RegistryError>,
) -> bool {
    match first_taken(before, operations) {
        Some(taken) => {
            &&& after == before
            &&& result matches Err(RegistryError::DuplicateOperation { operation })
                && operation@ == taken
        },
        None => {
            &&& result is Ok
            &&& forall|k: Seq<char>| #[trigger]
                after.verifier_for(k) == if operations.contains(k) {
                    Some(verifier)
                } else {
                    before.verifier_for(k)
                }
        },
    }
}

impl VerifierRegistry {
    /// Registers a verifier for some operations.
    pub fn register_for(&mut self, operations: Vec<String>, verifier: AnyVerifier) -> (result: Result<
        (),
        RegistryError,
    >)
        ensures
            registered(*old(self), *final(self), text::texts(operations@), verifier, result),
    {
        proof {
            use_type_invariant(&*self);
        }
        let ghost before = *self;
        let ghost wanted = text::texts(operations@);
        let mut i: usize = 0;
        assert(wanted.skip(0) == wanted);
        while i < operations.len()
            invariant
                i <= operations@.len(),
                wanted == text::texts(operations@),
                *self == before,
                first_taken(before, wanted) == first_taken(before, wanted.skip(i as int)),
            decreases operations@.len() - i,
        {
            assert(wanted.skip(i as int)[0] == operations@[i as int]@);
            assert(wanted.skip(i as int).skip(1) == wanted.skip(i + 1));
            if self.find(operations[i].as_str()).is_some() {
                return Err(
                    RegistryError::DuplicateOperation { operation: operations[i].clone() },
                );
            }
            i = i + 1;
        }
        let mut names: Vec<(String, usize)> = Vec::new();
        std::mem::swap(&mut names, &mut self.operations);
        let mut verifiers: Vec<AnyVerifier> = Vec::new();
        std::mem::swap(&mut verifiers, &mut self.verifiers);
        let at: usize = verifiers.len();
        let ghost e = verifier;
        verifiers.push(verifier);
        proof {
            assert forall|k: Seq<char>| #[trigger]
                last_given(names@, verifiers@, k) == before.verifier_for(k) by {
                lemma_more_verifiers(before.operations@, before.verifiers@, e, k);
            }
        }
        let mut i: usize = 0;
        while i < operations.len()
            invariant
                i <= operations@.len(),
                wanted == text::texts(operations@),
                at + 1 == verifiers@.len(),
                verifiers@[at as int] == e,
                forall|j: int| 0 <= j < names@.len() ==> (#[trigger] names@[j]).1 < verifiers@.len(),
                forall|k: Seq<char>| #[trigger]
                    last_given(names@, verifiers@, k) == if wanted.take(i as int).contains(k) {
                        Some(e)
                    } else {
                        before.verifier_for(k)
                    },
            decreases operations@.len() - i,
        {
            let ghost earlier = names@;
            names.push((operations[i].clone(), at));
            assert(names@.drop_last() =~= earlier);
            assert(wanted.take(i + 1) =~= wanted.take(i as int).push(wanted[i as int]));
            assert forall|k: Seq<char>| #[trigger]
                last_given(names@, verifiers@, k) == if wanted.take(i + 1).contains(k) {
                    Some(e)
                } else {
                    before.verifier_for(k)
                } by {
                let now = wanted.take(i + 1);
                if k == wanted[i as int] {
                    assert(now[i as int] == k);
                } else {
                    assert(last_given(earlier, verifiers@, k) == last_given(names@, verifiers@, k));
                    if wanted.take(i as int).contains(k) {
                        let j = wanted.take(i as int).index_of(k);
                        assert(now[j] == k);
                    } else if now.contains(k) {
                        let j = now.index_of(k);
                        assert(wanted.take(i as int)[j] == k);
                    }
                }
            }
            i = i + 1;
        }
        assert(wanted.take(operations@.len() as int) =~= wanted);
        self.verifiers = verifiers;
        self.operations = names;
        Ok(())
    }

    /// Registers a verifier for the operations that it handles.
    pub fn register<V: Verifier + 'static>(&mut self, verifier: V) -> (result: Result<
        (),
        RegistryError,
    >)
        ensures
            exists|operations: Seq<Seq<char>>| #[trigger]
                verifier.may_handle(operations) && registered(
                    *old(self),
                    *final(self),
                    operations,
                    AnyVerifier { verifier: Box::new(verifier) },
                    result,
                ),
    {
        let operations: Vec<String> = owned_texts(verifier.handles());
        self.register_for(operations, AnyVerifier { verifier: Box::new(verifier) })
    }

    /// Registers a boxed verifier for the operations that it handles.
    pub fn register_any(&mut self, verifier: AnyVerifier) -> (result: Result<(), RegistryError>)
        ensures
            exists|operations: Seq<Seq<char>>| #[trigger]
                verifier.verifier.may_handle(operations) && registered(
                    *old(self),
                    *final(self),
                    operations,
                    verifier,
                    result,
                ),
    {
        let operations: Vec<String> = owned_texts(verifier.verifier.handles());
        self.register_for(operations, verifier)
    }
}

impl Default for VerifierRegistry {
    fn default() -> (registry: Self)
        ensures
            forall|operation: Seq<char>| (#[trigger] registry.verifier_for(operation)) is None,
    {
        VerifierRegistry::new()
    }
}

}
