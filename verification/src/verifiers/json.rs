//! Verifying JSON output.

use super::Verifier;
use crate::constraint;
use crate::constraint::{apply_constraint, ConstraintOutcome, Judgement};
use crate::json::model::Json;
use crate::json::Value;
use crate::outcome;
use crate::outcome::{build_result, detail, summarize_status};
use crate::text;
use crate::text::decimal_text;
use crate::types;
use crate::types::{
    ActionIntent, ActionOutcome, Constraint, ConstraintModel, DetailModel, IntentModel,
    MetadataModel, OutcomeModel, ProvenanceMetadata, ResultModel, VerificationDetail,
    VerificationMode, VerificationResult, VerificationStatus,
};
use vstd::prelude::*;
use vstd::string::*;

verus! {

/// Verifies JSON output against constraints, and that it comes with sources.
#[derive(Debug, Clone)]
pub struct JsonVerifier;

/// The check in a judgement.
pub open spec fn judged_detail(judgement: Judgement) -> DetailModel {
    match judgement {
        Judgement::Detail(d) => d,
        Judgement::Inconclusive(d) => d,
    }
}

/// What the constraints come to, one judgement for each.
pub open spec fn judgements(constraints: Seq<ConstraintModel>, root: Json) -> Seq<Judgement> {
    constraints.map_values(|c: ConstraintModel| constraint::judged(c, root))
}

/// The checks of the constraints, one for each.
pub open spec fn constraint_details(constraints: Seq<ConstraintModel>, root: Json) -> Seq<DetailModel> {
    judgements(constraints, root).map_values(|j: Judgement| judged_detail(j))
}

/// Whether a judgement is that the check was made and did not pass.
pub open spec fn is_failure(judgement: Judgement) -> bool {
    judgement matches Judgement::Detail(d) && !d.passed
}

/// Failed where a check did not pass; otherwise inconclusive where a check
/// could not be made; otherwise verified.
pub open spec fn combined_status(judgements: Seq<Judgement>) -> VerificationStatus {
    if exists|i: int| 0 <= i < judgements.len() && is_failure(#[trigger] judgements[i]) {
        VerificationStatus::Failed
    } else if exists|i: int| 0 <= i < judgements.len() && (#[trigger] judgements[i]) is Inconclusive {
        VerificationStatus::Inconclusive
    } else {
        VerificationStatus::Verified
    }
}

/// The result for an outcome, given the intent.
pub open spec fn active_result(
    intent: IntentModel,
    outcome: OutcomeModel,
    elapsed_ms: u128,
) -> ResultModel {
    outcome::timed_result(
        "json_verifier"@,
        VerificationMode::Output,
        elapsed_ms,
        combined_status(judgements(intent.constraints, outcome.result)),
        constraint_details(intent.constraints, outcome.result),
    )
}

/// The checks of where an outcome comes from.
pub open spec fn provenance_details(metadata: Option<MetadataModel>) -> Seq<DetailModel> {
    match metadata {
        Some(m) => seq![
            outcome::plain_detail(
                "citations_present"@,
                m.citations.len() > 0,
                "one or more citations"@,
                text::decimal(m.citations.len()),
            ),
            outcome::plain_detail(
                "sources_consulted"@,
                m.sources_consulted > 0,
                "sources_consulted > 0"@,
                text::decimal(m.sources_consulted as nat),
            ),
        ],
        None => seq![
            outcome::plain_detail(
                "provenance_metadata"@,
                false,
                "metadata present"@,
                "metadata missing"@,
            ),
        ],
    }
}

/// What the checks of where an outcome comes from come to. Without metadata
/// that stays open.
pub open spec fn provenance_status(metadata: Option<MetadataModel>) -> VerificationStatus {
    match metadata {
        Some(m) => if m.citations.len() > 0 && m.sources_consulted > 0 {
            VerificationStatus::Verified
        } else {
            VerificationStatus::Failed
        },
        None => VerificationStatus::Inconclusive,
    }
}

/// The result for an outcome by itself.
pub open spec fn passive_result(outcome: OutcomeModel, elapsed_ms: u128) -> ResultModel {
    outcome::timed_result(
        "json_verifier"@,
        VerificationMode::Provenance,
        elapsed_ms,
        provenance_status(outcome.metadata),
        provenance_details(outcome.metadata),
    )
}

/// Applies the constraints to a value: what they come to, and the checks.
pub fn check_constraints(constraints: &Vec<Constraint>, root: &Value) -> (r: (
    VerificationStatus,
    Vec<VerificationDetail>,
))
    ensures
        r.0 == combined_status(judgements(types::constraint_models(constraints@), root@)),
        types::detail_models(r.1@) == constraint_details(
            types::constraint_models(constraints@),
            root@,
        ),
{
    let ghost all = judgements(types::constraint_models(constraints@), root@);
    let ghost checks = constraint_details(types::constraint_models(constraints@), root@);
    let mut details: Vec<VerificationDetail> = Vec::new();
    let mut status: VerificationStatus = VerificationStatus::Verified;
    let mut i: usize = 0;
    while i < constraints.len()
        invariant
            i <= constraints@.len(),
            all == judgements(types::constraint_models(constraints@), root@),
            checks == constraint_details(types::constraint_models(constraints@), root@),
            types::detail_models(details@) == checks.take(i as int),
            status == combined_status(all.take(i as int)),
        decreases constraints@.len() - i,
    {
        let ghost before = all.take(i as int);
        let ghost after = all.take(i + 1);
        let ghost so_far = details@;
        let applied: ConstraintOutcome = apply_constraint(&constraints[i], root);
        assert(all[i as int] == applied@);
        assert(forall|j: int| 0 <= j < i ==> #[trigger] before[j] == after[j]);
        assert(after[i as int] == applied@);
        match applied {
            ConstraintOutcome::Detail(d) => {
                if !d.passed {
                    status = VerificationStatus::Failed;
                }
                details.push(d);
            },
            ConstraintOutcome::Inconclusive(d) => {
                if status != VerificationStatus::Failed {
                    status = VerificationStatus::Inconclusive;
                }
                details.push(d);
            },
        }
        assert(types::detail_models(details@) =~= types::detail_models(so_far).push(checks[i as int]));
        assert(types::detail_models(details@) =~= checks.take(i + 1));
        i = i + 1;
    }
    assert(all.take(constraints@.len() as int) =~= all);
    assert(checks.take(constraints@.len() as int) =~= checks);
    (status, details)
}

/// Checks where an outcome comes from: what the checks come to, and the checks.
pub fn check_provenance(metadata: &Option<ProvenanceMetadata>) -> (r: (
    VerificationStatus,
    Vec<VerificationDetail>,
))
    ensures
        r.0 == provenance_status(types::metadata_model(*metadata)),
        types::detail_models(r.1@) == provenance_details(types::metadata_model(*metadata)),
{
    let mut details: Vec<VerificationDetail> = Vec::new();
    let status: VerificationStatus = match metadata {
        Some(metadata) => {
            details.push(
                detail(
                    "citations_present".to_owned(),
                    metadata.citations.len() > 0,
                    "one or more citations",
                    decimal_text(metadata.citations.len() as u64),
                ),
            );
            details.push(
                detail(
                    "sources_consulted".to_owned(),
                    metadata.sources_consulted > 0,
                    "sources_consulted > 0",
                    decimal_text(metadata.sources_consulted as u64),
                ),
            );
            summarize_status(details.as_slice())
        },
        None => {
            details.push(
                detail(
                    "provenance_metadata".to_owned(),
                    false,
                    "metadata present",
                    "metadata missing".to_owned(),
                ),
            );
            VerificationStatus::Inconclusive
        },
    };
    proof {
        let shown = types::detail_models(details@);
        assert(shown =~= provenance_details(types::metadata_model(*metadata)));
        assert(metadata is Some ==> outcome::all_passed(shown) == (shown[0].passed
            && shown[1].passed));
    }
    (status, details)
}

/// The operations that give JSON output.
pub open spec fn operations_handled() -> Seq<Seq<char>> {
    seq!["json_output"@, "generate_json"@]
}

impl JsonVerifier {
    /// A verifier of JSON output.
    pub fn new() -> (v: JsonVerifier)
        ensures
            v == JsonVerifier,
    {
        JsonVerifier
    }
}

impl Default for JsonVerifier {
    fn default() -> (v: Self)
        ensures
            v == JsonVerifier,
    {
        JsonVerifier::new()
    }
}

impl Verifier for JsonVerifier {
    open spec fn may_handle(&self, operations: Seq<Seq<char>>) -> bool {
        operations == operations_handled()
    }

    open spec fn active_may_give(
        &self,
        intent: IntentModel,
        outcome: OutcomeModel,
        result: ResultModel,
    ) -> bool {
        exists|elapsed_ms: u128|
            outcome::timed(elapsed_ms) && result == #[trigger] active_result(
                intent,
                outcome,
                elapsed_ms,
            )
    }

    open spec fn passive_may_give(&self, outcome: OutcomeModel, result: ResultModel) -> bool {
        exists|elapsed_ms: u128|
            outcome::timed(elapsed_ms) && result == #[trigger] passive_result(outcome, elapsed_ms)
    }

    fn handles(&self) -> (operations: &[&str]) {
        let operations: &[&str] = &["json_output", "generate_json"];
        assert(text::str_texts(operations@) =~= operations_handled());
        operations
    }

    fn verify_active(&self, intent: &ActionIntent, outcome: &ActionOutcome) -> (result:
        VerificationResult) {
        let started = std::time::Instant::now();
        let (status, details) = check_constraints(&intent.constraints, &outcome.result);
        let ghost shown = types::detail_models(details@);
        let result: VerificationResult = build_result(
            "json_verifier",
            VerificationMode::Output,
            started,
            status,
            details,
        );
        proof {
            let elapsed_ms = choose|elapsed_ms: u128|
                outcome::elapsed_since(started, elapsed_ms) && result@ == #[trigger] outcome::timed_result(
                    "json_verifier"@,
                    VerificationMode::Output,
                    elapsed_ms,
                    status,
                    shown,
                );
            assert(result@ == active_result(intent@, outcome@, elapsed_ms));
        }
        result
    }

    fn verify_passive(&self, outcome: &ActionOutcome) -> (result: VerificationResult) {
        let started = std::time::Instant::now();
        let (status, details) = check_provenance(&outcome.metadata);
        let ghost shown = types::detail_models(details@);
        let result: VerificationResult = build_result(
            "json_verifier",
            VerificationMode::Provenance,
            started,
            status,
            details,
        );
        proof {
            let elapsed_ms = choose|elapsed_ms: u128|
                outcome::elapsed_since(started, elapsed_ms) && result@ == #[trigger] outcome::timed_result(
                    "json_verifier"@,
                    VerificationMode::Provenance,
                    elapsed_ms,
                    status,
                    shown,
                );
            assert(result@ == passive_result(outcome@, elapsed_ms));
        }
        result
    }
}

}
