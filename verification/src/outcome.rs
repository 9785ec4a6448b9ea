//! Putting verification results together.

use crate::text;
use crate::text::concat;
use crate::types;
use crate::types::{
    DetailModel, ResultModel, VerificationDetail, VerificationMode, VerificationResult,
    VerificationStatus,
};
use vstd::prelude::*;
use vstd::string::*;

verus! {

/// A point in time of std's monotonic clock.
#[verifier::external_type_specification]
#[verifier::external_body]
pub struct ExInstant(std::time::Instant);

/// `Instant::now` of std reads the monotonic clock. Nothing is claimed of what
/// it reads.
pub assume_specification[ std::time::Instant::now ]() -> (now: std::time::Instant)
;

/// `Instant::elapsed` of std is the time from that instant until now. Nothing
/// is claimed of how long that is.
pub assume_specification[ std::time::Instant::elapsed ](
    started: &std::time::Instant,
) -> (elapsed: std::time::Duration)
;

/// `Duration::as_millis` of std is the number of whole milliseconds. Nothing is
/// claimed of it, since nothing is known of the duration.
pub assume_specification[ std::time::Duration::as_millis ](
    duration: &std::time::Duration,
) -> (millis: u128)
;

/// A check without a diff.
pub open spec fn plain_detail(
    check: Seq<char>,
    passed: bool,
    expected: Seq<char>,
    actual: Seq<char>,
) -> DetailModel {
    DetailModel { check, passed, expected: Some(expected), actual: Some(actual), diff: None }
}

/// A check without a diff.
pub fn detail(check: String, passed: bool, expected: &str, actual: String) -> (d: VerificationDetail)
    ensures
        d@ == plain_detail(check@, passed, expected@, actual@),
{
    VerificationDetail {
        check,
        passed,
        expected: Some(expected.to_owned()),
        actual: Some(actual),
        diff: None,
    }
}

/// Whether every check passed.
pub open spec fn all_passed(details: Seq<DetailModel>) -> bool {
    forall|i: int| 0 <= i < details.len() ==> (#[trigger] details[i]).passed
}

/// Verified where every check passed, and failed otherwise.
pub open spec fn summary(details: Seq<DetailModel>) -> VerificationStatus {
    if all_passed(details) {
        VerificationStatus::Verified
    } else {
        VerificationStatus::Failed
    }
}

/// The status that the checks come to.
pub fn summarize_status(details: &[VerificationDetail]) -> (status: VerificationStatus)
    ensures
        status == summary(types::detail_models(details@)),
{
    let ghost all = types::detail_models(details@);
    let mut i: usize = 0;
    while i < details.len()
        invariant
            i <= details@.len(),
            all == types::detail_models(details@),
            forall|j: int| 0 <= j < i ==> (#[trigger] all[j]).passed,
        decreases details@.len() - i,
    {
        assert(all[i as int].passed == details@[i as int].passed);
        if !details[i].passed {
            return VerificationStatus::Failed;
        }
        i = i + 1;
    }
    VerificationStatus::Verified
}

/// A result after so many milliseconds, of which the lower 64 bits are kept.
pub open spec fn timed_result(
    strategy: Seq<char>,
    mode: VerificationMode,
    elapsed_ms: u128,
    status: VerificationStatus,
    details: Seq<DetailModel>,
) -> ResultModel {
    ResultModel {
        status,
        mode,
        strategy,
        duration_ms: (elapsed_ms % 0x1_0000_0000_0000_0000) as u64,
        details,
    }
}

/// The result of a verification that took so many milliseconds.
pub fn result_after(
    strategy: &str,
    mode: VerificationMode,
    elapsed_ms: u128,
    status: VerificationStatus,
    details: Vec<VerificationDetail>,
) -> (result: VerificationResult)
    ensures
        result@ == timed_result(
            strategy@,
            mode,
            elapsed_ms,
            status,
            types::detail_models(details@),
        ),
{
    let duration_ms: u64 = (elapsed_ms % 0x1_0000_0000_0000_0000) as u64;
    VerificationResult { status, mode, strategy: strategy.to_owned(), duration_ms, details }
}

/// Whether so many milliseconds were read off the clock as those since
/// `started`.
pub open spec fn elapsed_since(started: std::time::Instant, elapsed_ms: u128) -> bool {
    exists|elapsed: std::time::Duration| #[trigger]
        call_ensures(std::time::Instant::elapsed, (&started,), elapsed) && call_ensures(
            std::time::Duration::as_millis,
            (&elapsed,),
            elapsed_ms,
        )
}

/// Whether so many milliseconds were read off the clock as those between two
/// readings.
pub open spec fn timed(elapsed_ms: u128) -> bool {
    exists|started: std::time::Instant| #[trigger]
        call_ensures(std::time::Instant::now, (), started) && elapsed_since(started, elapsed_ms)
}

/// The result of a verification that started at `started` and ends now.
pub fn build_result(
    strategy: &str,
    mode: VerificationMode,
    started: std::time::Instant,
    status: VerificationStatus,
    details: Vec<VerificationDetail>,
) -> (result: VerificationResult)
    ensures
        exists|elapsed_ms: u128|
            elapsed_since(started, elapsed_ms) && result@ == #[trigger] timed_result(
                strategy@,
                mode,
                elapsed_ms,
                status,
                types::detail_models(details@),
            ),
{
    let elapsed = started.elapsed();
    let elapsed_ms: u128 = elapsed.as_millis();
    assert(elapsed_since(started, elapsed_ms));
    result_after(strategy, mode, elapsed_ms, status, details)
}

/// The result for an operation that no verifier is registered for.
pub open spec fn skipped(mode: VerificationMode, operation: Seq<char>) -> ResultModel {
    ResultModel {
        status: VerificationStatus::Skipped,
        mode,
        strategy: "registry"@,
        duration_ms: 0,
        details: seq![
            plain_detail(
                "verifier_registered"@,
                false,
                "registered verifier"@,
                "no verifier for operation `"@ + operation + "`"@,
            ),
        ],
    }
}

/// The result for an operation that no verifier is registered for.
pub fn skipped_result(mode: VerificationMode, operation: &str) -> (result: VerificationResult)
    ensures
        result@ == skipped(mode, operation@),
{
    let mut actual: String = concat("no verifier for operation `", operation);
    actual.append("`");
    let details: Vec<VerificationDetail> = vec![
        detail("verifier_registered".to_owned(), false, "registered verifier", actual),
    ];
    let result = VerificationResult {
        status: VerificationStatus::Skipped,
        mode,
        strategy: "registry".to_owned(),
        duration_ms: 0,
        details,
    };
    assert(result@.details =~= skipped(mode, operation@).details);
    result
}

/// The result of a verification that is not supported.
pub open spec fn inconclusive(
    strategy: Seq<char>,
    mode: VerificationMode,
    reason: Seq<char>,
    actual: Option<Seq<char>>,
) -> ResultModel {
    ResultModel {
        status: VerificationStatus::Inconclusive,
        mode,
        strategy,
        duration_ms: 0,
        details: seq![
            DetailModel {
                check: "verification_supported"@,
                passed: false,
                expected: Some(reason),
                actual,
                diff: None,
            },
        ],
    }
}

/// The result of a verification that is not supported.
pub fn inconclusive_result(
    strategy: &str,
    mode: VerificationMode,
    reason: &str,
    actual: Option<String>,
) -> (result: VerificationResult)
    ensures
        result@ == inconclusive(strategy@, mode, reason@, text::optional_text(actual)),
{
    let details: Vec<VerificationDetail> = vec![
        VerificationDetail {
            check: "verification_supported".to_owned(),
            passed: false,
            expected: Some(reason.to_owned()),
            actual,
            diff: None,
        },
    ];
    let result = VerificationResult {
        status: VerificationStatus::Inconclusive,
        mode,
        strategy: strategy.to_owned(),
        duration_ms: 0,
        details,
    };
    assert(result@.details =~= inconclusive(
        strategy@,
        mode,
        reason@,
        text::optional_text(actual),
    ).details);
    result
}

}
