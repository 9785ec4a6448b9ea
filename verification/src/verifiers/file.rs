//! Verifying that a file holds what was to be written.

use crate::constraint;
use crate::constraint::find_wanted_text;
use crate::json::model;
use crate::json::model::Json;
use crate::json::Value;
use crate::outcome;
use crate::outcome::{build_result, detail, inconclusive_result, summarize_status};
use crate::text;
use crate::text::same_text;
use crate::types;
use crate::types::{
    ActionIntent, ActionOutcome, DetailModel, IntentModel, OutcomeModel, ResultModel,
    VerificationDetail, VerificationMode, VerificationResult, VerificationStatus,
};
use vstd::prelude::*;
use vstd::string::*;

verus! {

/// Verifies that a file that was written holds what was to be written.
#[derive(Debug, Clone)]
pub struct FileVerifier;

/// Which file to read back, and what it should hold.
#[derive(Debug)]
pub struct ReadBack {
    pub path: String,
    pub expected: String,
}

/// What a [`ReadBack`] is.
pub struct ReadBackModel {
    pub path: Seq<char>,
    pub expected: Seq<char>,
}

impl View for ReadBack {
    type V = ReadBackModel;

    open spec fn view(&self) -> ReadBackModel {
        ReadBackModel { path: self.path@, expected: self.expected@ }
    }
}

/// What an optional [`ReadBack`] is.
pub open spec fn asked_model(asked: Option<ReadBack>) -> Option<ReadBackModel> {
    match asked {
        Some(asked) => Some(asked@),
        None => None,
    }
}

/// The text of a value that is a string.
pub open spec fn string_of(v: Option<Json>) -> Option<Seq<char>> {
    match v {
        Some(Json::String(s)) => Some(s),
        _ => None,
    }
}

/// Where the file is: the result of the operation says so, or the intent does.
pub open spec fn file_path(intent: IntentModel, outcome: OutcomeModel) -> Option<Seq<char>> {
    match string_of(model::member(outcome.result, "path"@)) {
        Some(p) => Some(p),
        None => string_of(model::member(intent.parameters, "path"@)),
    }
}

/// The contents that the parameters of the intent give. A `content` that is no
/// string hides `expected_content`.
pub open spec fn given_content(parameters: Json) -> Option<Seq<char>> {
    match model::member(parameters, "content"@) {
        Some(v) => string_of(Some(v)),
        None => string_of(model::member(parameters, "expected_content"@)),
    }
}

/// What the file should hold: the parameters say so, or a constraint does.
pub open spec fn expected_content(intent: IntentModel) -> Option<Seq<char>> {
    match given_content(intent.parameters) {
        Some(s) => Some(s),
        None => constraint::first_wanted_text(intent.constraints, seq!["content"@, "contents"@]),
    }
}

/// What is to be read back.
pub open spec fn to_read_back(intent: IntentModel, outcome: OutcomeModel) -> Option<ReadBackModel> {
    match (file_path(intent, outcome), expected_content(intent)) {
        (Some(path), Some(expected)) => Some(ReadBackModel { path, expected }),
        _ => None,
    }
}

/// What reading a file gave: its contents, or what went wrong.
pub open spec fn read_model(read: Result<String, String>) -> Result<Seq<char>, Seq<char>> {
    match read {
        Ok(s) => Ok(s@),
        Err(e) => Err(e@),
    }
}

/// The line diff between two texts, as `similar` writes it in the unified
/// format with a header of two names.
pub uninterp spec fn unified_diff(
    old_text: Seq<char>,
    new_text: Seq<char>,
    old_name: Seq<char>,
    new_name: Seq<char>,
) -> Seq<char>;

/// The number of characters that end a line.
pub open spec fn line_breaks(s: Seq<char>) -> nat
    decreases s.len(),
{
    if s.len() == 0 {
        0
    } else {
        line_breaks(s.drop_last()) + if s.last() == '\n' || s.last() == '\r' {
            1nat
        } else {
            0nat
        }
    }
}

/// Whether two texts have few enough lines to be compared line by line:
/// `similar` numbers the lines with 32 bits.
pub open spec fn comparable(old_text: Seq<char>, new_text: Seq<char>) -> bool {
    line_breaks(old_text) + line_breaks(new_text) + 2 <= u32::MAX
}

/// Counts the characters that end a line.
fn count_line_breaks(s: &str) -> (n: usize)
    ensures
        n == line_breaks(s@),
{
    let mut n: usize = 0;
    let total: usize = s.unicode_len();
    for c in it: s.chars()
        invariant
            it.seq() == s@,
            total == s@.len(),
            n <= it.index(),
            n == line_breaks(s@.take(it.index())),
    {
        assert(s@.take(it.index() + 1).drop_last() =~= s@.take(it.index()));
        if c == '\n' || c == '\r' {
            n = n + 1;
        }
    }
    assert(s@.take(s@.len() as int) =~= s@);
    n
}

/// Whether two texts have few enough lines to be compared line by line.
pub fn texts_comparable(old_text: &str, new_text: &str) -> (r: bool)
    ensures
        r == comparable(old_text@, new_text@),
{
    count_line_breaks(old_text) as u128 + count_line_breaks(new_text) as u128 + 2 <= u32::MAX as u128
}

/// `TextDiff::from_lines` of `similar`, written by `unified_diff` with a header
/// of two names, depends on the two texts and the two names alone. What the
/// diff says is not claimed.
#[verifier::external_body]
fn line_diff(old_text: &str, new_text: &str, old_name: &str, new_name: &str) -> (diff: String)
    requires
        comparable(old_text@, new_text@),
    ensures
        diff@ == unified_diff(old_text@, new_text@, old_name@, new_name@),
{
    similar::TextDiff::from_lines(old_text, new_text)
        .unified_diff()
        .header(old_name, new_name)
        .to_string()
}

/// The check that a file holds what it should, with the diff where it does not.
pub open spec fn contents_detail(expected: Seq<char>, actual: Seq<char>, diff: Seq<char>) -> DetailModel {
    DetailModel {
        check: "file_contents_match"@,
        passed: actual == expected,
        expected: Some(expected),
        actual: Some(actual),
        diff: if actual == expected {
            None
        } else {
            Some(diff)
        },
    }
}

/// The check of what was read back.
pub open spec fn read_back_detail(
    expected: Seq<char>,
    read: Result<Seq<char>, Seq<char>>,
) -> DetailModel {
    match read {
        Ok(actual) => contents_detail(
            expected,
            actual,
            unified_diff(expected, actual, "expected"@, "actual"@),
        ),
        Err(e) => outcome::plain_detail("file_read_back"@, false, "readable file"@, e),
    }
}

/// What the check of what was read back comes to: a file that cannot be read
/// leaves the outcome open.
pub open spec fn read_back_status(
    expected: Seq<char>,
    read: Result<Seq<char>, Seq<char>>,
) -> VerificationStatus {
    match read {
        Ok(actual) => if actual == expected {
            VerificationStatus::Verified
        } else {
            VerificationStatus::Failed
        },
        Err(_) => VerificationStatus::Inconclusive,
    }
}

/// The check of an intent that does not say what to read back.
pub open spec fn inputs_detail() -> DetailModel {
    outcome::plain_detail(
        "file_verifier_inputs"@,
        false,
        "intent.parameters.path and intent.parameters.content"@,
        "missing path or expected content"@,
    )
}

/// The result for an intent that does not say what to read back.
pub open spec fn unasked_result(elapsed_ms: u128) -> ResultModel {
    outcome::timed_result(
        "file_verifier"@,
        VerificationMode::Mutation,
        elapsed_ms,
        VerificationStatus::Inconclusive,
        seq![inputs_detail()],
    )
}

/// The result after reading back what was asked for, if anything was.
pub open spec fn file_result(
    asked: Option<ReadBackModel>,
    read: Result<Seq<char>, Seq<char>>,
    elapsed_ms: u128,
) -> ResultModel {
    match asked {
        Some(asked) => outcome::timed_result(
            "file_verifier"@,
            VerificationMode::Mutation,
            elapsed_ms,
            read_back_status(asked.expected, read),
            seq![read_back_detail(asked.expected, read)],
        ),
        None => unasked_result(elapsed_ms),
    }
}

/// The text of a member that is a string.
fn text_member<'a>(v: &'a Value, name: &str) -> (s: Option<&'a str>)
    ensures
        match s {
            Some(s) => string_of(model::member(v@, name@)) == Some(s@),
            None => string_of(model::member(v@, name@)) is None,
        },
{
    match v.get(name) {
        Some(m) => m.as_str(),
        None => None,
    }
}

/// Checks that a file holds what it should. `diff` is the line diff between
/// what it should hold and what it holds.
pub fn check_contents(expected: String, actual: String, diff: String) -> (d: VerificationDetail)
    ensures
        d@ == contents_detail(expected@, actual@, diff@),
{
    let same: bool = same_text(actual.as_str(), expected.as_str());
    VerificationDetail {
        check: "file_contents_match".to_owned(),
        passed: same,
        expected: Some(expected),
        actual: Some(actual),
        diff: if same {
            None
        } else {
            Some(diff)
        },
    }
}

/// The operations that write files.
pub open spec fn operations_handled() -> Seq<Seq<char>> {
    seq!["write_file"@, "edit_file"@]
}

impl FileVerifier {
    /// A verifier of file contents.
    pub fn new() -> (v: FileVerifier)
        ensures
            v == FileVerifier,
    {
        FileVerifier
    }

    /// The operations that write files.
    pub fn handles(&self) -> (operations: &[&str])
        ensures
            text::str_texts(operations@) == operations_handled(),
    {
        let operations: &[&str] = &["write_file", "edit_file"];
        assert(text::str_texts(operations@) =~= operations_handled());
        operations
    }

    /// Says which file to read back and what it should hold.
    pub fn read_back(&self, intent: &ActionIntent, outcome: &ActionOutcome) -> (asked: Option<ReadBack>)
        ensures
            asked_model(asked) == to_read_back(intent@, outcome@),
    {
        let path: Option<&str> = match text_member(&outcome.result, "path") {
            Some(p) => Some(p),
            None => text_member(&intent.parameters, "path"),
        };
        let given: Option<&str> = match intent.parameters.get("content") {
            Some(v) => v.as_str(),
            None => text_member(&intent.parameters, "expected_content"),
        };
        let fields: &[&str] = &["content", "contents"];
        assert(text::str_texts(fields@) =~= seq!["content"@, "contents"@]);
        let expected: Option<&str> = match given {
            Some(s) => Some(s),
            None => find_wanted_text(&intent.constraints, fields),
        };
        match (path, expected) {
            (Some(path), Some(expected)) => Some(
                ReadBack { path: path.to_owned(), expected: expected.to_owned() },
            ),
            _ => None,
        }
    }

    /// Checks what reading the file back gave: its contents, or what went wrong.
    pub fn check_read_back(
        &self,
        asked: Option<ReadBack>,
        read: Result<String, String>,
        started: std::time::Instant,
    ) -> (result: VerificationResult)
        requires
            asked is Some && read is Ok && read->Ok_0@ != asked->0.expected@ ==> comparable(
                asked->0.expected@,
                read->Ok_0@,
            ),
        ensures
            exists|elapsed_ms: u128|
                outcome::elapsed_since(started, elapsed_ms) && result@ == #[trigger] file_result(
                    asked_model(asked),
                    read_model(read),
                    elapsed_ms,
                ),
    {
        let ghost asked_for = asked_model(asked);
        let ghost given = read_model(read);
        let mut details: Vec<VerificationDetail> = Vec::new();
        let status: VerificationStatus = match asked {
            Some(asked) => match read {
                Ok(actual) => {
                    let diff: String = if same_text(actual.as_str(), asked.expected.as_str()) {
                        String::new()
                    } else {
                        line_diff(asked.expected.as_str(), actual.as_str(), "expected", "actual")
                    };
                    details.push(check_contents(asked.expected, actual, diff));
                    summarize_status(details.as_slice())
                },
                Err(error) => {
                    details.push(
                        detail("file_read_back".to_owned(), false, "readable file", error),
                    );
                    VerificationStatus::Inconclusive
                },
            },
            None => {
                details.push(
                    detail(
                        "file_verifier_inputs".to_owned(),
                        false,
                        "intent.parameters.path and intent.parameters.content",
                        "missing path or expected content".to_owned(),
                    ),
                );
                VerificationStatus::Inconclusive
            },
        };
        let ghost shown = types::detail_models(details@);
        let result: VerificationResult = build_result(
            "file_verifier",
            VerificationMode::Mutation,
            started,
            status,
            details,
        );
        proof {
            let expected_details = match asked_for {
                Some(asked) => seq![read_back_detail(asked.expected, given)],
                None => seq![inputs_detail()],
            };
            assert(shown =~= expected_details);
            assert(outcome::all_passed(shown) == shown[0].passed);
            let elapsed_ms = choose|elapsed_ms: u128|
                outcome::elapsed_since(started, elapsed_ms) && result@ == #[trigger] outcome::timed_result(
                    "file_verifier"@,
                    VerificationMode::Mutation,
                    elapsed_ms,
                    status,
                    shown,
                );
            assert(result@ == file_result(asked_for, given, elapsed_ms));
        }
        result
    }

    /// Reads the file back with `read`, which gives its contents or says what
    /// went wrong, and checks what it holds. No other file is read, and none
    /// where the intent and the outcome do not say what to read back.
    pub fn verify_active_with<R: Fn(&str) -> Result<String, String>>(
        &self,
        intent: &ActionIntent,
        outcome: &ActionOutcome,
        read: R,
    ) -> (result: VerificationResult)
        requires
            forall|path: &str|
                (to_read_back(intent@, outcome@) matches Some(asked) && asked.path == path@)
                    ==> #[trigger] call_requires(read, (path,)),
            forall|path: &str, contents: String|
                call_ensures(read, (path,), Ok(contents)) ==> (expected_content(intent@) matches Some(expected)
                    ==> contents@ == expected || comparable(expected, contents@)),
        ensures
            match to_read_back(intent@, outcome@) {
                Some(asked) => exists|path: &str, given: Result<String, String>, elapsed_ms: u128|
                    path@ == asked.path && #[trigger] call_ensures(read, (path,), given)
                        && outcome::timed(elapsed_ms) && result@ == #[trigger] file_result(
                        Some(asked),
                        read_model(given),
                        elapsed_ms,
                    ),
                None => exists|elapsed_ms: u128|
                    outcome::timed(elapsed_ms) && result@ == #[trigger] unasked_result(elapsed_ms),
            },
    {
        let started = std::time::Instant::now();
        let asked: Option<ReadBack> = self.read_back(intent, outcome);
        let given: Result<String, String> = match &asked {
            Some(asked) => read(asked.path.as_str()),
            None => Err(String::new()),
        };
        self.check_read_back(asked, given, started)
    }

    /// A file that was written says nothing of where its contents come from.
    pub fn verify_passive(&self, outcome: &ActionOutcome) -> (result: VerificationResult)
        ensures
            result@ == passive_result(outcome@),
    {
        inconclusive_result(
            "file_verifier",
            VerificationMode::Provenance,
            "passive verification is not supported for file mutations",
            Some(outcome.operation.clone()),
        )
    }
}

/// The result without an intent.
pub open spec fn passive_result(outcome: OutcomeModel) -> ResultModel {
    outcome::inconclusive(
        "file_verifier"@,
        VerificationMode::Provenance,
        "passive verification is not supported for file mutations"@,
        Some(outcome.operation),
    )
}

impl Default for FileVerifier {
    fn default() -> (v: Self)
        ensures
            v == FileVerifier,
    {
        FileVerifier::new()
    }
}

}
