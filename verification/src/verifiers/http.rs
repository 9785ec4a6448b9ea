//! Verifying that an artifact can be fetched.

use crate::constraint;
use crate::constraint::find_wanted_text;
use crate::json::model::Json;
use crate::json::Value;
use crate::outcome;
use crate::outcome::{build_result, detail, inconclusive_result, summarize_status};
use crate::path;
use crate::path::resolve_field;
use crate::text;
use crate::text::{decimal_text, parse_number, same_text};
use crate::types;
use crate::types::{
    ActionIntent, ActionOutcome, Constraint, ConstraintModel, DetailModel, OutcomeModel,
    ResultModel, VerificationDetail, VerificationMode, VerificationResult, VerificationStatus,
};
use vstd::prelude::*;
use vstd::string::*;

verus! {

/// Verifies that the artifact of an operation can be fetched.
#[derive(Debug, Clone)]
pub struct HttpVerifier;

/// What the server answered when it was asked for the headers of an artifact.
#[derive(Debug)]
pub struct HeadResponse {
    status: u16,
    content_type: Option<Vec<u8>>,
    content_length: Option<Vec<u8>>,
}

/// What a [`HeadResponse`] is.
pub struct ResponseModel {
    pub status: u16,
    pub content_type: Option<Seq<u8>>,
    pub content_length: Option<Seq<u8>>,
}

/// What an optional header is.
pub open spec fn header_model(header: Option<Vec<u8>>) -> Option<Seq<u8>> {
    match header {
        Some(bytes) => Some(bytes@),
        None => None,
    }
}

/// Whether a number is a status code: it has three digits.
pub open spec fn is_status_code(status: u16) -> bool {
    100 <= status <= 999
}

impl HeadResponse {
    /// What the answer is.
    pub closed spec fn model(self) -> ResponseModel {
        ResponseModel {
            status: self.status,
            content_type: header_model(self.content_type),
            content_length: header_model(self.content_length),
        }
    }

    #[verifier::type_invariant]
    spec fn status_is_a_code(self) -> bool {
        is_status_code(self.status)
    }

    /// An answer with a status code and the bytes of two headers. There is none
    /// without a status code.
    pub fn new(
        status: u16,
        content_type: Option<Vec<u8>>,
        content_length: Option<Vec<u8>>,
    ) -> (r: Option<HeadResponse>)
        ensures
            match r {
                Some(r) => is_status_code(status) && r.model() == (ResponseModel {
                    status,
                    content_type: header_model(content_type),
                    content_length: header_model(content_length),
                }),
                None => !is_status_code(status),
            },
    {
        if 100 <= status && status <= 999 {
            Some(HeadResponse { status, content_type, content_length })
        } else {
            None
        }
    }
}

/// Whether a byte may stand in a header that is read as text: a visible ASCII
/// character, a space or a tab.
pub open spec fn is_visible(b: u8) -> bool {
    32 <= b < 127 || b == 9
}

/// A header as text, where all of it can be read as such.
pub open spec fn header_text(header: Option<Seq<u8>>) -> Option<Seq<char>> {
    match header {
        Some(bytes) => if forall|i: int| 0 <= i < bytes.len() ==> is_visible(#[trigger] bytes[i]) {
            Some(bytes.map_values(|b: u8| b as char))
        } else {
            None
        },
        None => None,
    }
}

/// The length that a header gives.
pub open spec fn header_length(header: Option<Seq<u8>>) -> Option<nat> {
    match header_text(header) {
        Some(s) => text::parsed_number(s, u64::MAX as nat),
        None => None,
    }
}

/// Whether the status code is one of success.
pub open spec fn is_success(status: u16) -> bool {
    200 <= status < 300
}

/// Where the artifact is.
pub open spec fn artifact_url(result: Json) -> Option<Seq<char>> {
    match path::resolved(result, "url"@) {
        Some(Json::String(s)) => Some(s),
        _ => match path::resolved(result, "artifact.url"@) {
            Some(Json::String(s)) => Some(s),
            _ => None,
        },
    }
}

/// What the content type should be.
pub open spec fn wanted_content_type(constraints: Seq<ConstraintModel>) -> Option<Seq<char>> {
    constraint::first_wanted_text(constraints, seq!["content_type"@])
}

/// The check that the server answered with success. `shown` is the status in
/// words.
pub open spec fn reachable_detail(response: ResponseModel, shown: Seq<char>) -> DetailModel {
    outcome::plain_detail("http_reachable"@, is_success(response.status), "2xx response"@, shown)
}

/// The check of the content type, where one is wanted.
pub open spec fn content_type_details(
    response: ResponseModel,
    constraints: Seq<ConstraintModel>,
) -> Seq<DetailModel> {
    match wanted_content_type(constraints) {
        Some(wanted) => seq![
            DetailModel {
                check: "content_type"@,
                passed: header_text(response.content_type) == Some(wanted),
                expected: Some(wanted),
                actual: header_text(response.content_type),
                diff: None,
            },
        ],
        None => Seq::empty(),
    }
}

/// The check that there is something to fetch.
pub open spec fn content_length_detail(response: ResponseModel) -> DetailModel {
    DetailModel {
        check: "content_length_non_zero"@,
        passed: header_length(response.content_length) matches Some(n) && n > 0,
        expected: Some("> 0"@),
        actual: match header_length(response.content_length) {
            Some(n) => Some(text::decimal(n)),
            None => None,
        },
        diff: None,
    }
}

/// The checks of an answer. `shown` is the status in words.
pub open spec fn response_details(
    response: ResponseModel,
    shown: Seq<char>,
    constraints: Seq<ConstraintModel>,
) -> Seq<DetailModel> {
    seq![reachable_detail(response, shown)] + content_type_details(response, constraints) + seq![
        content_length_detail(response),
    ]
}

/// The reason that `reqwest` gives for a status code, if it knows one.
pub uninterp spec fn canonical_reason(status: u16) -> Option<Seq<char>>;

/// A reason in words.
pub open spec fn reason_text(reason: Option<Seq<char>>) -> Seq<char> {
    match reason {
        Some(s) => s,
        None => "<unknown status code>"@,
    }
}

/// A status code in words: the number and the reason.
pub open spec fn status_line(status: u16, reason: Option<Seq<char>>) -> Seq<char> {
    text::decimal(status as nat) + " "@ + reason_text(reason)
}

/// `StatusCode` of `reqwest` is displayed as the number, a space and the
/// canonical reason, or `<unknown status code>` where there is none. Which
/// codes have a reason, and what it is, is not claimed.
#[verifier::external_body]
fn status_text(status: u16) -> (s: String)
    requires
        is_status_code(status),
    ensures
        s@ == status_line(status, canonical_reason(status)),
{
    reqwest::StatusCode::from_u16(status).unwrap().to_string()
}

/// The check of an artifact that could not be asked for.
pub open spec fn unreachable_detail(error: Seq<char>) -> DetailModel {
    outcome::plain_detail("http_head"@, false, "reachable URL"@, error)
}

/// The check of an outcome that does not say where the artifact is.
pub open spec fn missing_url_detail() -> DetailModel {
    outcome::plain_detail(
        "artifact_url"@,
        false,
        "result.url or result.artifact.url"@,
        "missing URL"@,
    )
}

/// What asking the server gave: its answer, or what went wrong.
pub open spec fn reply_model(reply: Result<HeadResponse, String>) -> Result<ResponseModel, Seq<char>> {
    match reply {
        Ok(r) => Ok(r.model()),
        Err(e) => Err(e@),
    }
}

/// The result after asking the server. Where it could not be asked, that the
/// artifact is there stays open.
pub open spec fn reply_result(
    constraints: Seq<ConstraintModel>,
    reply: Result<ResponseModel, Seq<char>>,
    elapsed_ms: u128,
) -> ResultModel {
    match reply {
        Ok(response) => {
            let details = response_details(
                response,
                status_line(response.status, canonical_reason(response.status)),
                constraints,
            );
            outcome::timed_result(
                "http_verifier"@,
                VerificationMode::Output,
                elapsed_ms,
                outcome::summary(details),
                details,
            )
        },
        Err(e) => outcome::timed_result(
            "http_verifier"@,
            VerificationMode::Output,
            elapsed_ms,
            VerificationStatus::Inconclusive,
            seq![unreachable_detail(e)],
        ),
    }
}

/// The result for an outcome that does not say where the artifact is.
pub open spec fn no_url_result(elapsed_ms: u128) -> ResultModel {
    outcome::timed_result(
        "http_verifier"@,
        VerificationMode::Output,
        elapsed_ms,
        VerificationStatus::Inconclusive,
        seq![missing_url_detail()],
    )
}

/// A header as text.
fn header_to_text(header: &Option<Vec<u8>>) -> (s: Option<String>)
    ensures
        text::optional_text(s) == header_text(header_model(*header)),
{
    match header {
        Some(bytes) => {
            let ghost chars = bytes@.map_values(|b: u8| b as char);
            let mut s: String = String::new();
            let mut i: usize = 0;
            while i < bytes.len()
                invariant
                    i <= bytes@.len(),
                    header_model(*header) == Some(bytes@),
                    chars == bytes@.map_values(|b: u8| b as char),
                    forall|j: int| 0 <= j < i ==> is_visible(#[trigger] bytes@[j]),
                    s@ == chars.take(i as int),
                decreases bytes@.len() - i,
            {
                let b: u8 = bytes[i];
                if !((32 <= b && b < 127) || b == 9) {
                    assert(!is_visible(bytes@[i as int]));
                    return None;
                }
                s.push(b as char);
                assert(s@ =~= chars.take(i + 1));
                i = i + 1;
            }
            assert(chars.take(bytes@.len() as int) =~= chars);
            Some(s)
        },
        None => None,
    }
}

/// The length that a header gives.
fn header_to_length(header: &Option<Vec<u8>>) -> (n: Option<u64>)
    ensures
        match n {
            Some(n) => header_length(header_model(*header)) == Some(n as nat),
            None => header_length(header_model(*header)) is None,
        },
{
    match header_to_text(header) {
        Some(s) => parse_number(s.as_str(), u64::MAX),
        None => None,
    }
}

/// Finds where the artifact is.
pub fn find_artifact_url<'a>(result: &'a Value) -> (url: Option<&'a str>)
    ensures
        match url {
            Some(s) => artifact_url(result@) == Some(s@),
            None => artifact_url(result@) is None,
        },
{
    if let Some(v) = resolve_field(result, "url") {
        if let Some(s) = v.as_str() {
            return Some(s);
        }
    }
    match resolve_field(result, "artifact.url") {
        Some(v) => v.as_str(),
        None => None,
    }
}

/// Checks an answer. `shown` is the status in words.
pub fn check_response(
    response: &HeadResponse,
    shown: String,
    constraints: &Vec<Constraint>,
) -> (details: Vec<VerificationDetail>)
    ensures
        types::detail_models(details@) == response_details(
            response.model(),
            shown@,
            types::constraint_models(constraints@),
        ),
{
    let mut details: Vec<VerificationDetail> = Vec::new();
    details.push(
        detail(
            "http_reachable".to_owned(),
            200 <= response.status && response.status < 300,
            "2xx response",
            shown,
        ),
    );
    let fields: &[&str] = &["content_type"];
    assert(text::str_texts(fields@) =~= seq!["content_type"@]);
    if let Some(wanted) = find_wanted_text(constraints, fields) {
        let actual: Option<String> = header_to_text(&response.content_type);
        let passed: bool = match &actual {
            Some(actual) => same_text(actual.as_str(), wanted),
            None => false,
        };
        details.push(
            VerificationDetail {
                check: "content_type".to_owned(),
                passed,
                expected: Some(wanted.to_owned()),
                actual,
                diff: None,
            },
        );
    }
    let length: Option<u64> = header_to_length(&response.content_length);
    details.push(
        VerificationDetail {
            check: "content_length_non_zero".to_owned(),
            passed: match length {
                Some(n) => n > 0,
                None => false,
            },
            expected: Some("> 0".to_owned()),
            actual: match length {
                Some(n) => Some(decimal_text(n)),
                None => None,
            },
            diff: None,
        },
    );
    assert(types::detail_models(details@) =~= response_details(
        response.model(),
        shown@,
        types::constraint_models(constraints@),
    ));
    details
}

/// The operations that make artifacts.
pub open spec fn operations_handled() -> Seq<Seq<char>> {
    seq!["generate_image"@, "generate_video"@, "artifact_url"@]
}

impl HttpVerifier {
    /// A verifier of artifacts.
    pub fn new() -> (v: HttpVerifier)
        ensures
            v == HttpVerifier,
    {
        HttpVerifier
    }

    /// The operations that make artifacts.
    pub fn handles(&self) -> (operations: &[&str])
        ensures
            text::str_texts(operations@) == operations_handled(),
    {
        let operations: &[&str] = &["generate_image", "generate_video", "artifact_url"];
        assert(text::str_texts(operations@) =~= operations_handled());
        operations
    }

    /// Checks what asking the server gave: its answer, or what went wrong.
    pub fn check_reply(
        &self,
        intent: &ActionIntent,
        reply: Result<HeadResponse, String>,
        started: std::time::Instant,
    ) -> (result: VerificationResult)
        ensures
            exists|elapsed_ms: u128|
                outcome::elapsed_since(started, elapsed_ms) && result@ == #[trigger] reply_result(
                    intent@.constraints,
                    reply_model(reply),
                    elapsed_ms,
                ),
    {
        let ghost given = reply_model(reply);
        let mut details: Vec<VerificationDetail> = Vec::new();
        let status: VerificationStatus = match reply {
            Ok(response) => {
                proof {
                    use_type_invariant(&response);
                }
                details =
                check_response(&response, status_text(response.status), &intent.constraints);
                summarize_status(details.as_slice())
            },
            Err(error) => {
                details.push(detail("http_head".to_owned(), false, "reachable URL", error));
                VerificationStatus::Inconclusive
            },
        };
        let ghost shown = types::detail_models(details@);
        let result: VerificationResult = build_result(
            "http_verifier",
            VerificationMode::Output,
            started,
            status,
            details,
        );
        proof {
            if let Err(e) = given {
                assert(shown =~= seq![unreachable_detail(e)]);
            }
            let elapsed_ms = choose|elapsed_ms: u128|
                outcome::elapsed_since(started, elapsed_ms) && result@ == #[trigger] outcome::timed_result(
                    "http_verifier"@,
                    VerificationMode::Output,
                    elapsed_ms,
                    status,
                    shown,
                );
            assert(result@ == reply_result(intent@.constraints, given, elapsed_ms));
        }
        result
    }

    /// The result for an outcome that does not say where the artifact is.
    pub fn missing_url(&self, started: std::time::Instant) -> (result: VerificationResult)
        ensures
            exists|elapsed_ms: u128|
                outcome::elapsed_since(started, elapsed_ms) && result@ == #[trigger] no_url_result(
                    elapsed_ms,
                ),
    {
        let details: Vec<VerificationDetail> = vec![
            detail(
                "artifact_url".to_owned(),
                false,
                "result.url or result.artifact.url",
                "missing URL".to_owned(),
            ),
        ];
        let ghost shown = types::detail_models(details@);
        let result: VerificationResult = build_result(
            "http_verifier",
            VerificationMode::Output,
            started,
            VerificationStatus::Inconclusive,
            details,
        );
        proof {
            assert(shown =~= seq![missing_url_detail()]);
            let elapsed_ms = choose|elapsed_ms: u128|
                outcome::elapsed_since(started, elapsed_ms) && result@ == #[trigger] outcome::timed_result(
                    "http_verifier"@,
                    VerificationMode::Output,
                    elapsed_ms,
                    VerificationStatus::Inconclusive,
                    shown,
                );
            assert(result@ == no_url_result(elapsed_ms));
        }
        result
    }

    /// Asks the server for the headers of the artifact with `head`, which gives
    /// its answer or says what went wrong, and checks the answer. Nothing else
    /// is asked for, and nothing at all where the outcome does not say where the
    /// artifact is.
    pub fn verify_active_with<H: Fn(&str) -> Result<HeadResponse, String>>(
        &self,
        intent: &ActionIntent,
        outcome: &ActionOutcome,
        head: H,
    ) -> (result: VerificationResult)
        requires
            forall|url: &str|
                artifact_url(outcome@.result) == Some(url@) ==> #[trigger] call_requires(head, (url,)),
        ensures
            match artifact_url(outcome@.result) {
                Some(place) => exists|url: &str, reply: Result<HeadResponse, String>, elapsed_ms: u128|
                    url@ == place && #[trigger] call_ensures(head, (url,), reply) && outcome::timed(
                        elapsed_ms,
                    ) && result@ == #[trigger] reply_result(
                        intent@.constraints,
                        reply_model(reply),
                        elapsed_ms,
                    ),
                None => exists|elapsed_ms: u128|
                    outcome::timed(elapsed_ms) && result@ == #[trigger] no_url_result(elapsed_ms),
            },
    {
        let started = std::time::Instant::now();
        match find_artifact_url(&outcome.result) {
            Some(url) => {
                let reply: Result<HeadResponse, String> = head(url);
                self.check_reply(intent, reply, started)
            },
            None => self.missing_url(started),
        }
    }

    /// An artifact says nothing of where it comes from.
    pub fn verify_passive(&self, outcome: &ActionOutcome) -> (result: VerificationResult)
        ensures
            result@ == passive_result(outcome@),
    {
        inconclusive_result(
            "http_verifier",
            VerificationMode::Provenance,
            "passive verification is not supported for HTTP artifacts",
            Some(outcome.operation.clone()),
        )
    }
}

/// The result without an intent.
pub open spec fn passive_result(outcome: OutcomeModel) -> ResultModel {
    outcome::inconclusive(
        "http_verifier"@,
        VerificationMode::Provenance,
        "passive verification is not supported for HTTP artifacts"@,
        Some(outcome.operation),
    )
}

impl Default for HttpVerifier {
    fn default() -> (v: Self)
        ensures
            v == HttpVerifier,
    {
        HttpVerifier::new()
    }
}

}
