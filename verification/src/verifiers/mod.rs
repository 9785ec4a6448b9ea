//! Verifiers: what checks the outcome of an operation.

use crate::text;
use crate::types::{
    ActionIntent, ActionOutcome, IntentModel, OutcomeModel, ResultModel, VerificationResult,
};
use vstd::prelude::*;

pub mod file;
pub mod http;
pub mod json;

pub use file::FileVerifier;
pub use http::{HeadResponse, HttpVerifier};
pub use json::JsonVerifier;

verus! {

/// What checks the outcome of some operations.
pub trait Verifier: Send + Sync {
    /// Whether these may be the operations that the verifier checks. A verifier
    /// that does not say may check any.
    open spec fn may_handle(&self, operations: Seq<Seq<char>>) -> bool {
        true
    }

    /// Whether an outcome may come to that result, given the intent. With a
    /// verifier that does not say it may come to any.
    open spec fn active_may_give(
        &self,
        intent: IntentModel,
        outcome: OutcomeModel,
        result: ResultModel,
    ) -> bool {
        true
    }

    /// Whether an outcome by itself may come to that result. With a verifier
    /// that does not say it may come to any.
    open spec fn passive_may_give(&self, outcome: OutcomeModel, result: ResultModel) -> bool {
        true
    }

    /// The operations that the verifier checks.
    fn handles(&self) -> (operations: &[&str])
        ensures
            self.may_handle(text::str_texts(operations@)),
    ;

    /// Checks an outcome against the intent behind it.
    fn verify_active(&self, intent: &ActionIntent, outcome: &ActionOutcome) -> (result:
        VerificationResult)
        ensures
            self.active_may_give(intent@, outcome@, result@),
    ;

    /// Checks an outcome by itself.
    fn verify_passive(&self, outcome: &ActionOutcome) -> (result: VerificationResult)
        ensures
            self.passive_may_give(outcome@, result@),
    ;
}

}
