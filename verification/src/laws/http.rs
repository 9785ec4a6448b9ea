//! Laws of verifying artifacts.

use crate::constraint;
use crate::json::model;
use crate::json::model::Json;
use crate::laws::constraint as constraint_laws;
use crate::laws::text as text_laws;
use crate::outcome;
use crate::path;
use crate::text;
use crate::types::{
    ConstraintModel, DetailModel, OutcomeModel, ResultModel, VerificationMode, VerificationStatus,
};
use crate::verifiers::http;
use crate::verifiers::http::ResponseModel;
use vstd::prelude::*;
use vstd::string::*;

verus! {

/// Whether a path leads to that string.
pub open spec fn leads_to(result: Json, p: Seq<char>, s: Seq<char>) -> bool {
    path::resolved(result, p) == Some(Json::String(s))
}

/// The artifact is asked for where `url` says; where that says nothing, where
/// `artifact.url` says; otherwise nowhere.
pub proof fn law_artifact_place(result: Json, place: Seq<char>)
    ensures
        http::artifact_url(result) == Some(place) <==> leads_to(result, "url"@, place) || (leads_to(
            result,
            "artifact.url"@,
            place,
        ) && forall|s: Seq<char>| !#[trigger] leads_to(result, "url"@, s)),
        http::artifact_url(result) is None <==> forall|s: Seq<char>|
            !#[trigger] leads_to(result, "url"@, s) && !leads_to(result, "artifact.url"@, s),
{
    if let Some(s) = http::artifact_url(result) {
        assert(leads_to(result, "url"@, s) || leads_to(result, "artifact.url"@, s));
    } else {
        assert forall|s: Seq<char>| !#[trigger] leads_to(result, "url"@, s) && !leads_to(
            result,
            "artifact.url"@,
            s,
        ) by {}
    }
    if let Some(Json::String(s)) = path::resolved(result, "url"@) {
        assert(leads_to(result, "url"@, s));
    }
}

/// A header is read as text exactly where each of its bytes is a tab, a space or
/// a visible ASCII character, and then byte by byte.
pub proof fn law_headers_as_text(header: Option<Seq<u8>>, s: Seq<char>)
    ensures
        http::header_text(header) == Some(s) <==> header is Some && s.len() == header->0.len()
            && forall|i: int|
            0 <= i < s.len() ==> (#[trigger] s[i]) as int == header->0[i] as int && (s[i] == '\t' || (
            s[i] as int >= 32 && s[i] as int <= 126)),
{
    if let Some(bytes) = header {
        let chars = bytes.map_values(|b: u8| b as char);
        if http::header_text(header) == Some(s) {
            assert(s == chars);
            assert forall|i: int| 0 <= i < s.len() implies (#[trigger] s[i]) as int == bytes[i] as int
                && (s[i] == '\t' || (s[i] as int >= 32 && s[i] as int <= 126)) by {
                assert(http::is_visible(bytes[i]));
            }
        }
        if s.len() == bytes.len() && forall|i: int|
            0 <= i < s.len() ==> (#[trigger] s[i]) as int == bytes[i] as int && (s[i] == '\t' || (s[i] as int
                >= 32 && s[i] as int <= 126)) {
            assert forall|i: int| 0 <= i < bytes.len() implies http::is_visible(
                #[trigger] bytes[i],
            ) by {
                assert(s[i] as int == bytes[i] as int);
            }
            assert forall|i: int| 0 <= i < s.len() implies s[i] == chars[i] by {
                assert(s[i] as int == bytes[i] as int);
            }
            assert(s =~= chars);
        }
    }
}

/// A header gives a length exactly where it is a decimal number of 64 bits, with
/// zeros and a plus sign before it as may be.
pub proof fn law_header_lengths(header: Option<Seq<u8>>, n: nat)
    ensures
        http::header_length(header) == Some(n) <==> n < 0x1_0000_0000_0000_0000 && exists|
            plus: bool,
            zeros: nat,
        |
            http::header_text(header) == Some(#[trigger] text_laws::written(plus, zeros, n)),
{
    if let Some(s) = http::header_text(header) {
        text_laws::law_reading_numbers(s, u64::MAX as nat, n);
    }
}

/// Whether a constraint is that the content type is that string.
pub open spec fn wants_type(c: ConstraintModel, s: Seq<char>) -> bool {
    c == (ConstraintModel::ExactMatch { field: "content_type"@, expected: Json::String(s) })
}

/// Whether a constraint is that the content type is some string.
pub open spec fn wants_some_type(c: ConstraintModel) -> bool {
    exists|s: Seq<char>| wants_type(c, s)
}

/// The content type that is wanted is that of the first constraint that the
/// field `content_type` equals a string; without such a constraint none is.
pub proof fn law_wanted_content_type(constraints: Seq<ConstraintModel>, s: Seq<char>)
    ensures
        http::wanted_content_type(constraints) == Some(s) <==> exists|i: int|
            0 <= i < constraints.len() && wants_type(#[trigger] constraints[i], s) && forall|j: int|
                0 <= j < i ==> !wants_some_type(#[trigger] constraints[j]),
        http::wanted_content_type(constraints) is None <==> forall|i: int|
            0 <= i < constraints.len() ==> !wants_some_type(#[trigger] constraints[i]),
{
    let fields = seq!["content_type"@];
    assert(http::wanted_content_type(constraints) == constraint::first_wanted_text(
        constraints,
        fields,
    ));
    constraint_laws::law_wanted_text_is_the_first(constraints, fields, s);
    assert forall|c: ConstraintModel, t: Seq<char>| #[trigger]
        constraint_laws::wants(c, fields, t) <==> wants_type(c, t) by {
        assert(fields[0] == "content_type"@);
        if wants_type(c, t) {
            assert(c == (ConstraintModel::ExactMatch {
                field: fields[0],
                expected: Json::String(t),
            }));
        }
    }
    assert forall|c: ConstraintModel| #[trigger]
        constraint_laws::wants_some(c, fields) <==> wants_some_type(c) by {
        if constraint_laws::wants_some(c, fields) {
            let t = choose|t: Seq<char>| constraint_laws::wants(c, fields, t);
            assert(wants_type(c, t));
        }
        if wants_some_type(c) {
            let t = choose|t: Seq<char>| wants_type(c, t);
            assert(constraint_laws::wants(c, fields, t));
        }
    }
}

/// The checks of an answer: that its status code is from 200 to 299, that its
/// content type is the one wanted, if one is, and that its length is not zero.
/// The artifact is verified exactly where all of them hold, and failed
/// otherwise.
pub proof fn law_answers(
    constraints: Seq<ConstraintModel>,
    response: ResponseModel,
    elapsed_ms: u128,
)
    ensures
        ({
            let r = http::reply_result(constraints, Ok(response), elapsed_ms);
            let wanted = http::wanted_content_type(constraints);
            let given = http::header_text(response.content_type);
            let length = http::header_length(response.content_length);
            let reachable = DetailModel {
                check: "http_reachable"@,
                passed: 200 <= response.status && response.status <= 299,
                expected: Some("2xx response"@),
                actual: Some(
                    text::decimal(response.status as nat) + " "@ + match http::canonical_reason(
                        response.status,
                    ) {
                        Some(reason) => reason,
                        None => "<unknown status code>"@,
                    },
                ),
                diff: None,
            };
            let typed = DetailModel {
                check: "content_type"@,
                passed: given == wanted,
                expected: wanted,
                actual: given,
                diff: None,
            };
            let full = DetailModel {
                check: "content_length_non_zero"@,
                passed: length is Some && length->0 > 0,
                expected: Some("> 0"@),
                actual: if length is Some {
                    Some(text::decimal(length->0))
                } else {
                    None
                },
                diff: None,
            };
            &&& r.strategy == "http_verifier"@
            &&& r.mode == VerificationMode::Output
            &&& r.details == if wanted is Some {
                seq![reachable, typed, full]
            } else {
                seq![reachable, full]
            }
            &&& r.status == VerificationStatus::Verified <==> 200 <= response.status
                && response.status <= 299 && (wanted is Some ==> given == wanted) && length is Some
                && length->0 > 0
            &&& r.status == VerificationStatus::Failed <==> r.status != VerificationStatus::Verified
        }),
{
    let r = http::reply_result(constraints, Ok(response), elapsed_ms);
    let wanted = http::wanted_content_type(constraints);
    let ds = r.details;
    if wanted is Some {
        assert(ds.len() == 3);
        assert(ds[1] == http::content_type_details(response, constraints)[0]);
        assert(ds[2] == http::content_length_detail(response));
        assert(outcome::all_passed(ds) <==> ds[0].passed && ds[1].passed && ds[2].passed);
        assert(ds =~= seq![ds[0], ds[1], ds[2]]);
    } else {
        assert(ds.len() == 2);
        assert(ds[1] == http::content_length_detail(response));
        assert(outcome::all_passed(ds) <==> ds[0].passed && ds[1].passed);
        assert(ds =~= seq![ds[0], ds[1]]);
    }
}

/// An answer with another status code than one from 200 to 299 fails, whatever
/// else it says.
pub proof fn law_unsuccessful_answers_fail(
    constraints: Seq<ConstraintModel>,
    response: ResponseModel,
    elapsed_ms: u128,
)
    requires
        response.status < 200 || response.status >= 300,
    ensures
        http::reply_result(constraints, Ok(response), elapsed_ms).status
            == VerificationStatus::Failed,
        !http::reply_result(constraints, Ok(response), elapsed_ms).details[0].passed,
{
    law_answers(constraints, response, elapsed_ms);
}

/// Where the server could not be asked, what went wrong is said; where there is
/// nothing to ask for, that is said. Either way the outcome stays open.
pub proof fn law_no_answer(constraints: Seq<ConstraintModel>, error: Seq<char>, elapsed_ms: u128)
    ensures
        ({
            let r = http::reply_result(constraints, Err(error), elapsed_ms);
            &&& r.strategy == "http_verifier"@
            &&& r.mode == VerificationMode::Output
            &&& r.status == VerificationStatus::Inconclusive
            &&& r.details == seq![
                DetailModel {
                    check: "http_head"@,
                    passed: false,
                    expected: Some("reachable URL"@),
                    actual: Some(error),
                    diff: None,
                },
            ]
        }),
        ({
            let r = http::no_url_result(elapsed_ms);
            &&& r.strategy == "http_verifier"@
            &&& r.mode == VerificationMode::Output
            &&& r.status == VerificationStatus::Inconclusive
            &&& r.details == seq![
                DetailModel {
                    check: "artifact_url"@,
                    passed: false,
                    expected: Some("result.url or result.artifact.url"@),
                    actual: Some("missing URL"@),
                    diff: None,
                },
            ]
        }),
{
}

/// The operations that make artifacts, what is said of one by itself, and which
/// numbers are status codes.
pub proof fn law_artifact_operations(outcome: OutcomeModel, status: u16)
    ensures
        http::operations_handled() == seq!["generate_image"@, "generate_video"@, "artifact_url"@],
        http::passive_result(outcome) == outcome::inconclusive(
            "http_verifier"@,
            VerificationMode::Provenance,
            "passive verification is not supported for HTTP artifacts"@,
            Some(outcome.operation),
        ),
        http::is_status_code(status) <==> text::decimal(status as nat).len() == 3,
{
    let n = status as nat;
    assert(text::decimal(n).len() == if n < 10 {
        1nat
    } else if n < 100 {
        2
    } else if n < 1000 {
        3
    } else {
        text::decimal(n).len()
    }) by {
        reveal_with_fuel(text::decimal, 4);
    }
    if n >= 1000 {
        assert(text::decimal(n).len() >= 4) by {
            reveal_with_fuel(text::decimal, 5);
        }
    }
}

}
