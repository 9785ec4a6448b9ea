//! Laws of results.

use crate::constraint;
use crate::constraint::Judgement;
use crate::outcome;
use crate::registry::RegistryError;
use crate::types::{
    DetailModel, IntentModel, OutcomeModel, ResultModel, VerificationMode, VerificationStatus,
};
use crate::verifiers::json;
use vstd::prelude::*;
use vstd::string::*;

verus! {

/// Checks come to verified exactly where each of them passed, and to failed
/// otherwise.
pub proof fn law_summary(details: Seq<DetailModel>)
    ensures
        outcome::summary(details) == VerificationStatus::Verified <==> forall|i: int|
            0 <= i < details.len() ==> (#[trigger] details[i]).passed,
        outcome::summary(details) == VerificationStatus::Failed <==> exists|i: int|
            0 <= i < details.len() && !(#[trigger] details[i]).passed,
{
}

/// One check more leaves a summary verified exactly where it passed, and never
/// mends one that failed.
pub proof fn law_summary_of_one_more(details: Seq<DetailModel>, more: DetailModel)
    ensures
        outcome::summary(Seq::empty()) == VerificationStatus::Verified,
        outcome::summary(details.push(more)) == if more.passed {
            outcome::summary(details)
        } else {
            VerificationStatus::Failed
        },
{
    let all = details.push(more);
    assert(all[details.len() as int] == more);
    assert(forall|i: int| 0 <= i < details.len() ==> #[trigger] all[i] == details[i]);
    if !outcome::all_passed(details) {
        let i = choose|i: int| 0 <= i < details.len() && !(#[trigger] details[i]).passed;
        assert(!all[i].passed);
    }
}

/// A timed result holds what it was put together from, with the milliseconds
/// that 64 bits can hold.
pub proof fn law_timed_result(
    strategy: Seq<char>,
    mode: VerificationMode,
    elapsed_ms: u128,
    status: VerificationStatus,
    details: Seq<DetailModel>,
)
    ensures
        ({
            let r = outcome::timed_result(strategy, mode, elapsed_ms, status, details);
            &&& r.strategy == strategy
            &&& r.mode == mode
            &&& r.status == status
            &&& r.details == details
            &&& elapsed_ms < 0x1_0000_0000_0000_0000 ==> r.duration_ms == elapsed_ms
            &&& (elapsed_ms - r.duration_ms) % 0x1_0000_0000_0000_0000 == 0
        }),
{
}

/// An operation without a verifier is skipped, at once, with one check that
/// names it.
pub proof fn law_skipped(mode: VerificationMode, operation: Seq<char>)
    ensures
        outcome::skipped(mode, operation) == (ResultModel {
            status: VerificationStatus::Skipped,
            mode,
            strategy: "registry"@,
            duration_ms: 0,
            details: seq![
                DetailModel {
                    check: "verifier_registered"@,
                    passed: false,
                    expected: Some("registered verifier"@),
                    actual: Some("no verifier for operation `"@ + operation + "`"@),
                    diff: None,
                },
            ],
        }),
{
}

/// A verification that is not supported is inconclusive, at once, with one check
/// that gives the reason.
pub proof fn law_inconclusive(
    strategy: Seq<char>,
    mode: VerificationMode,
    reason: Seq<char>,
    actual: Option<Seq<char>>,
)
    ensures
        outcome::inconclusive(strategy, mode, reason, actual) == (ResultModel {
            status: VerificationStatus::Inconclusive,
            mode,
            strategy,
            duration_ms: 0,
            details: seq![
                DetailModel {
                    check: "verification_supported"@,
                    passed: false,
                    expected: Some(reason),
                    actual,
                    diff: None,
                },
            ],
        }),
{
}

/// A refusal says which operation has a verifier already.
pub proof fn law_refusal_message(operation: String)
    ensures
        (RegistryError::DuplicateOperation { operation }).message() == "verifier for operation `"@
            + operation@ + "` is already registered"@,
{
}

/// JSON output fails exactly where a check was made and did not pass. Otherwise
/// it is inconclusive exactly where a check could not be made, and verified
/// where every check was made and passed.
pub proof fn law_json_output(intent: IntentModel, outcome: OutcomeModel, elapsed_ms: u128)
    ensures
        ({
            let r = json::active_result(intent, outcome, elapsed_ms);
            let failed = exists|i: int|
                0 <= i < intent.constraints.len() && (constraint::judged(
                    #[trigger] intent.constraints[i],
                    outcome.result,
                ) matches Judgement::Detail(d) && !d.passed);
            let open = exists|i: int|
                0 <= i < intent.constraints.len() && constraint::judged(
                    #[trigger] intent.constraints[i],
                    outcome.result,
                ) is Inconclusive;
            &&& r.strategy == "json_verifier"@
            &&& r.mode == VerificationMode::Output
            &&& r.status == VerificationStatus::Failed <==> failed
            &&& r.status == VerificationStatus::Inconclusive <==> !failed && open
            &&& r.status == VerificationStatus::Verified <==> !failed && !open
            &&& r.details.len() == intent.constraints.len()
            &&& forall|i: int|
                0 <= i < intent.constraints.len() ==> match constraint::judged(
                    intent.constraints[i],
                    outcome.result,
                ) {
                    Judgement::Detail(d) => #[trigger] r.details[i] == d,
                    Judgement::Inconclusive(d) => r.details[i] == d,
                }
        }),
{
    let cs = intent.constraints;
    let js = json::judgements(cs, outcome.result);
    assert(js.len() == cs.len());
    assert(forall|i: int|
        0 <= i < cs.len() ==> js[i] == constraint::judged(#[trigger] cs[i], outcome.result));
    assert(forall|i: int|
        0 <= i < cs.len() ==> #[trigger] js[i] == constraint::judged(cs[i], outcome.result));
}

/// Where an outcome comes from is verified exactly where there are citations
/// and sources, failed where there is metadata without one of them, and open
/// without metadata. The first check is on the citations, the second on the
/// sources.
pub proof fn law_provenance_checks(outcome: OutcomeModel, elapsed_ms: u128)
    ensures
        ({
            let r = json::passive_result(outcome, elapsed_ms);
            &&& r.strategy == "json_verifier"@
            &&& r.mode == VerificationMode::Provenance
            &&& match outcome.metadata {
                Some(m) => {
                    &&& r.status == VerificationStatus::Verified <==> m.citations.len() > 0
                        && m.sources_consulted > 0
                    &&& r.status == VerificationStatus::Failed <==> m.citations.len() == 0
                        || m.sources_consulted == 0
                    &&& r.details == seq![
                        DetailModel {
                            check: "citations_present"@,
                            passed: m.citations.len() > 0,
                            expected: Some("one or more citations"@),
                            actual: Some(crate::text::decimal(m.citations.len())),
                            diff: None,
                        },
                        DetailModel {
                            check: "sources_consulted"@,
                            passed: m.sources_consulted > 0,
                            expected: Some("sources_consulted > 0"@),
                            actual: Some(crate::text::decimal(m.sources_consulted as nat)),
                            diff: None,
                        },
                    ]
                },
                None => {
                    &&& r.status == VerificationStatus::Inconclusive
                    &&& r.details == seq![
                        DetailModel {
                            check: "provenance_metadata"@,
                            passed: false,
                            expected: Some("metadata present"@),
                            actual: Some("metadata missing"@),
                            diff: None,
                        },
                    ]
                },
            }
        }),
{
}

}
