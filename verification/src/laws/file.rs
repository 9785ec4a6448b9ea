//! Laws of verifying files.

use crate::constraint;
use crate::json::model;
use crate::json::model::Json;
use crate::laws::constraint as constraint_laws;
use crate::outcome;
use crate::types::{
    ConstraintModel, DetailModel, IntentModel, OutcomeModel, ResultModel, VerificationMode,
    VerificationStatus,
};
use crate::verifiers::file;
use crate::verifiers::file::ReadBackModel;
use vstd::prelude::*;
use vstd::string::*;

verus! {

/// Whether a value has a string for that name.
pub open spec fn gives(v: Json, name: Seq<char>, s: Seq<char>) -> bool {
    model::member(v, name) == Some(Json::String(s))
}

/// The file that is read back is the one that the result of the operation
/// names; where it names none, the one that the parameters name; where those
/// name none either, none.
pub proof fn law_file_read_back(intent: IntentModel, outcome: OutcomeModel, p: Seq<char>)
    ensures
        file::file_path(intent, outcome) == Some(p) <==> gives(outcome.result, "path"@, p) || (gives(
            intent.parameters,
            "path"@,
            p,
        ) && forall|q: Seq<char>| !#[trigger] gives(outcome.result, "path"@, q)),
        file::file_path(intent, outcome) is None <==> forall|q: Seq<char>|
            !#[trigger] gives(outcome.result, "path"@, q) && !gives(intent.parameters, "path"@, q),
{
    if let Some(q) = file::file_path(intent, outcome) {
        assert(gives(outcome.result, "path"@, q) || gives(intent.parameters, "path"@, q));
    } else {
        assert forall|q: Seq<char>| !#[trigger] gives(outcome.result, "path"@, q) && !gives(
            intent.parameters,
            "path"@,
            q,
        ) by {}
    }
    if let Some(Json::String(q)) = model::member(outcome.result, "path"@) {
        assert(gives(outcome.result, "path"@, q));
    }
}

/// Whether a constraint is that the contents of the file are that string.
pub open spec fn wants_content(c: ConstraintModel, s: Seq<char>) -> bool {
    ||| c == (ConstraintModel::ExactMatch { field: "content"@, expected: Json::String(s) })
    ||| c == (ConstraintModel::ExactMatch { field: "contents"@, expected: Json::String(s) })
}

/// Whether a constraint is that the contents of the file are some string.
pub open spec fn wants_some_content(c: ConstraintModel) -> bool {
    exists|s: Seq<char>| wants_content(c, s)
}

/// What the parameters give as contents counts: `content`, or where that is not
/// there at all, `expected_content`.
pub proof fn law_given_contents(intent: IntentModel, s: Seq<char>)
    ensures
        gives(intent.parameters, "content"@, s) ==> file::expected_content(intent) == Some(s),
        model::member(intent.parameters, "content"@) is None && gives(
            intent.parameters,
            "expected_content"@,
            s,
        ) ==> file::expected_content(intent) == Some(s),
{
}

/// Where the parameters give no contents, those of the first constraint that
/// the field `content` or `contents` equals a string count; where there is no
/// such constraint, nothing is expected.
pub proof fn law_wanted_contents(intent: IntentModel, s: Seq<char>)
    requires
        match model::member(intent.parameters, "content"@) {
            Some(v) => !(v is String),
            None => !(model::member(intent.parameters, "expected_content"@) matches Some(
                Json::String(_),
            )),
        },
    ensures
        file::expected_content(intent) == Some(s) <==> exists|i: int|
            0 <= i < intent.constraints.len() && wants_content(
                #[trigger] intent.constraints[i],
                s,
            ) && forall|j: int|
                0 <= j < i ==> !wants_some_content(#[trigger] intent.constraints[j]),
        file::expected_content(intent) is None <==> forall|i: int|
            0 <= i < intent.constraints.len() ==> !wants_some_content(
                #[trigger] intent.constraints[i],
            ),
{
    let fields = seq!["content"@, "contents"@];
    assert(file::expected_content(intent) == constraint::first_wanted_text(
        intent.constraints,
        fields,
    ));
    constraint_laws::law_wanted_text_is_the_first(intent.constraints, fields, s);
    assert forall|c: ConstraintModel, t: Seq<char>| #[trigger]
        constraint_laws::wants(c, fields, t) <==> wants_content(c, t) by {
        assert(fields[0] == "content"@ && fields[1] == "contents"@);
        if wants_content(c, t) {
            if c == (ConstraintModel::ExactMatch { field: "content"@, expected: Json::String(t) }) {
                assert(c == (ConstraintModel::ExactMatch {
                    field: fields[0],
                    expected: Json::String(t),
                }));
            } else {
                assert(c == (ConstraintModel::ExactMatch {
                    field: fields[1],
                    expected: Json::String(t),
                }));
            }
        }
    }
    assert forall|c: ConstraintModel| #[trigger]
        constraint_laws::wants_some(c, fields) <==> wants_some_content(c) by {
        if constraint_laws::wants_some(c, fields) {
            let t = choose|t: Seq<char>| constraint_laws::wants(c, fields, t);
            assert(wants_content(c, t));
        }
        if wants_some_content(c) {
            let t = choose|t: Seq<char>| wants_content(c, t);
            assert(constraint_laws::wants(c, fields, t));
        }
    }
}

/// A file is read back exactly where it is named and something is expected of
/// it.
pub proof fn law_read_back_needs_both(intent: IntentModel, outcome: OutcomeModel)
    ensures
        file::to_read_back(intent, outcome) is Some <==> file::file_path(intent, outcome) is Some
            && file::expected_content(intent) is Some,
        file::to_read_back(intent, outcome) matches Some(asked) ==> file::file_path(intent, outcome)
            == Some(asked.path) && file::expected_content(intent) == Some(asked.expected),
{
}

/// What reading a file back comes to. Contents as expected verify it, others
/// fail it with the diff from what was expected to what is there, and a file
/// that cannot be read leaves it open with what went wrong.
pub proof fn law_file_results(
    asked: ReadBackModel,
    read: Result<Seq<char>, Seq<char>>,
    elapsed_ms: u128,
)
    ensures
        ({
            let r = file::file_result(Some(asked), read, elapsed_ms);
            &&& r.strategy == "file_verifier"@
            &&& r.mode == VerificationMode::Mutation
            &&& match read {
                Ok(actual) => {
                    &&& actual == asked.expected ==> r.status == VerificationStatus::Verified
                    &&& actual != asked.expected ==> r.status == VerificationStatus::Failed
                    &&& r.details == seq![
                        DetailModel {
                            check: "file_contents_match"@,
                            passed: actual == asked.expected,
                            expected: Some(asked.expected),
                            actual: Some(actual),
                            diff: if actual == asked.expected {
                                None
                            } else {
                                Some(
                                    file::unified_diff(
                                        asked.expected,
                                        actual,
                                        "expected"@,
                                        "actual"@,
                                    ),
                                )
                            },
                        },
                    ]
                },
                Err(error) => {
                    &&& r.status == VerificationStatus::Inconclusive
                    &&& r.details == seq![
                        DetailModel {
                            check: "file_read_back"@,
                            passed: false,
                            expected: Some("readable file"@),
                            actual: Some(error),
                            diff: None,
                        },
                    ]
                },
            }
        }),
{
}

/// Where there is nothing to read back, that is said, and the outcome stays
/// open.
pub proof fn law_nothing_to_read_back(
    read: Result<Seq<char>, Seq<char>>,
    elapsed_ms: u128,
)
    ensures
        ({
            let r = file::unasked_result(elapsed_ms);
            &&& file::file_result(None, read, elapsed_ms) == r
            &&& r.strategy == "file_verifier"@
            &&& r.mode == VerificationMode::Mutation
            &&& r.status == VerificationStatus::Inconclusive
            &&& r.details == seq![
                DetailModel {
                    check: "file_verifier_inputs"@,
                    passed: false,
                    expected: Some("intent.parameters.path and intent.parameters.content"@),
                    actual: Some("missing path or expected content"@),
                    diff: None,
                },
            ]
        }),
{
}

/// The operations that write files, and what is said of one by itself.
pub proof fn law_file_operations(outcome: OutcomeModel)
    ensures
        file::operations_handled() == seq!["write_file"@, "edit_file"@],
        file::passive_result(outcome) == outcome::inconclusive(
            "file_verifier"@,
            VerificationMode::Provenance,
            "passive verification is not supported for file mutations"@,
            Some(outcome.operation),
        ),
{
}

/// Texts of up to two billion line ends each can be compared.
pub proof fn law_comparable_texts(a: Seq<char>, b: Seq<char>)
    ensures
        file::line_breaks(a + b) == file::line_breaks(a) + file::line_breaks(b),
        file::line_breaks(a) <= a.len(),
        file::line_breaks(a) <= 0x7fff_fffe && file::line_breaks(b) <= 0x7fff_fffe
            ==> file::comparable(a, b),
        file::line_breaks(seq!['\n']) == 1 && file::line_breaks(seq!['\r']) == 1,
    decreases a.len() + b.len(),
{
    assert(seq!['\n'].drop_last() =~= Seq::<char>::empty());
    assert(seq!['\r'].drop_last() =~= Seq::<char>::empty());
    reveal_with_fuel(file::line_breaks, 2);
    if b.len() > 0 {
        assert((a + b).drop_last() =~= a + b.drop_last());
        law_comparable_texts(a, b.drop_last());
    } else {
        assert(a + b =~= a);
        if a.len() > 0 {
            law_comparable_texts(a.drop_last(), b);
        }
    }
}

}
