use lanyte_verify::double::Double;
use lanyte_verify::{
    ActionIntent, ActionOutcome, Citation, Constraint, FileVerifier, HeadResponse, HttpVerifier,
    JsonVerifier, Number, Object, ProvenanceMetadata, Value, VerificationDetail, VerificationMode,
    VerificationStatus, Verifier,
};

fn string(s: &str) -> Value {
    Value::String(s.to_string())
}

fn integer(n: u64) -> Value {
    Value::Number(Number::from_u64(n))
}

fn double(x: f64) -> Double {
    Double { bits: x.to_bits(), display: x.to_string(), debug: format!("{:?}", x) }
}

fn float(x: f64) -> Value {
    let json = serde_json::Value::from(x).to_string();
    Value::Number(Number::from_double(double(x), json).unwrap())
}

fn array(items: Vec<Value>) -> Value {
    Value::Array(items)
}

fn object(members: Vec<(&str, Value)>) -> Value {
    let mut object = Object::new();
    for (name, value) in members {
        object.insert(name.to_string(), value);
    }
    Value::Object(object)
}

fn intent(operation: &str, parameters: Value, constraints: Vec<Constraint>) -> ActionIntent {
    ActionIntent {
        tool_name: "tool".to_string(),
        operation: operation.to_string(),
        parameters,
        constraints,
    }
}

fn outcome(operation: &str, result: Value) -> ActionOutcome {
    ActionOutcome {
        tool_name: "tool".to_string(),
        operation: operation.to_string(),
        result,
        metadata: None,
    }
}

fn exact(field: &str, expected: Value) -> Constraint {
    Constraint::ExactMatch { field: field.to_string(), expected }
}

fn detail(check: &str, passed: bool, expected: &str, actual: &str) -> VerificationDetail {
    VerificationDetail {
        check: check.to_string(),
        passed,
        expected: Some(expected.to_string()),
        actual: Some(actual.to_string()),
        diff: None,
    }
}

#[test]
fn file_verifier_passes_when_contents_match() {
    let verifier = FileVerifier::new();
    let result = verifier.verify_active_with(
        &ActionIntent {
            tool_name: "fs".to_string(),
            operation: "write_file".to_string(),
            parameters: object(vec![
                ("path", string("match.txt")),
                ("content", string("hello\nworld\n")),
            ]),
            constraints: vec![],
        },
        &ActionOutcome {
            tool_name: "fs".to_string(),
            operation: "write_file".to_string(),
            result: object(vec![]),
            metadata: None,
        },
        |path: &str| {
            assert_eq!(path, "match.txt");
            Ok("hello\nworld\n".to_string())
        },
    );

    assert_eq!(result.status, VerificationStatus::Verified);
    assert!(result.details[0].diff.is_none());
    assert_eq!(result.mode, VerificationMode::Mutation);
    assert_eq!(result.strategy, "file_verifier");
}

#[test]
fn file_verifier_reports_diff_on_mismatch() {
    let verifier = FileVerifier::new();
    let result = verifier.verify_active_with(
        &ActionIntent {
            tool_name: "fs".to_string(),
            operation: "write_file".to_string(),
            parameters: object(vec![
                ("path", string("mismatch.txt")),
                ("content", string("hello\nworld\n")),
            ]),
            constraints: vec![],
        },
        &ActionOutcome {
            tool_name: "fs".to_string(),
            operation: "write_file".to_string(),
            result: object(vec![]),
            metadata: None,
        },
        |path: &str| {
            assert_eq!(path, "mismatch.txt");
            Ok("hello\nmars\n".to_string())
        },
    );

    assert_eq!(result.status, VerificationStatus::Failed);
    assert!(result.details[0].diff.as_ref().unwrap().contains("-world"));
    assert!(result.details[0].diff.as_ref().unwrap().contains("+mars"));
    assert_eq!(
        result.details[0].diff.as_ref().unwrap(),
        "--- expected\n+++ actual\n@@ -1,2 +1,2 @@\n hello\n-world\n+mars\n"
    );
}

#[test]
fn unreadable_files_stay_open() {
    let result = FileVerifier::new().verify_active_with(
        &intent(
            "edit_file",
            object(vec![("path", string("a.txt")), ("content", string("x"))]),
            vec![],
        ),
        &outcome("edit_file", object(vec![])),
        |_: &str| Err("No such file or directory (os error 2)".to_string()),
    );
    assert_eq!(result.status, VerificationStatus::Inconclusive);
    assert_eq!(
        result.details,
        vec![detail(
            "file_read_back",
            false,
            "readable file",
            "No such file or directory (os error 2)"
        )]
    );
}

#[test]
fn files_need_a_path_and_contents() {
    let missing = vec![detail(
        "file_verifier_inputs",
        false,
        "intent.parameters.path and intent.parameters.content",
        "missing path or expected content",
    )];
    let no_content = FileVerifier::new().verify_active_with(
        &intent("write_file", object(vec![("path", string("a.txt"))]), vec![]),
        &outcome("write_file", object(vec![])),
        |_: &str| panic!("nothing to read"),
    );
    assert_eq!(no_content.status, VerificationStatus::Inconclusive);
    assert_eq!(no_content.details, missing);
    let no_path = FileVerifier::new().verify_active_with(
        &intent("write_file", object(vec![("content", string("x"))]), vec![]),
        &outcome("write_file", Value::Null),
        |_: &str| panic!("nothing to read"),
    );
    assert_eq!(no_path.status, VerificationStatus::Inconclusive);
    assert_eq!(no_path.details, missing);
}

#[test]
fn path_of_the_outcome_comes_first() {
    let asked = FileVerifier::new()
        .read_back(
            &intent(
                "write_file",
                object(vec![("path", string("asked.txt")), ("content", string("x"))]),
                vec![],
            ),
            &outcome("write_file", object(vec![("path", string("written.txt"))])),
        )
        .unwrap();
    assert_eq!(asked.path, "written.txt");
    assert_eq!(asked.expected, "x");
    let asked = FileVerifier::new()
        .read_back(
            &intent(
                "write_file",
                object(vec![("path", string("asked.txt")), ("content", string("x"))]),
                vec![],
            ),
            &outcome("write_file", object(vec![("path", integer(3))])),
        )
        .unwrap();
    assert_eq!(asked.path, "asked.txt");
}

#[test]
fn expected_contents_have_three_places() {
    let path = ("path", string("a.txt"));
    let wanted = vec![
        exact("other", string("no")),
        exact("content", integer(1)),
        exact("contents", string("from a constraint")),
        exact("content", string("too late")),
    ];
    let expected = |parameters: Value| {
        FileVerifier::new()
            .read_back(
                &intent("write_file", parameters, wanted.clone()),
                &outcome("write_file", Value::Null),
            )
            .unwrap()
            .expected
    };
    assert_eq!(
        expected(object(vec![
            path.clone(),
            ("content", string("given")),
            ("expected_content", string("also given")),
        ])),
        "given"
    );
    assert_eq!(
        expected(object(vec![path.clone(), ("expected_content", string("also given"))])),
        "also given"
    );
    assert_eq!(
        expected(object(vec![
            path.clone(),
            ("content", integer(1)),
            ("expected_content", string("hidden")),
        ])),
        "from a constraint"
    );
    assert_eq!(expected(object(vec![path])), "from a constraint");
}

#[test]
fn checking_contents_keeps_the_diff_of_a_mismatch_only() {
    let same = lanyte_verify::verifiers::file::check_contents(
        "a".to_string(),
        "a".to_string(),
        "unused".to_string(),
    );
    assert_eq!(same, detail("file_contents_match", true, "a", "a"));
    let different = lanyte_verify::verifiers::file::check_contents(
        "a".to_string(),
        "b".to_string(),
        "diff".to_string(),
    );
    assert!(!different.passed);
    assert_eq!(different.diff, Some("diff".to_string()));
    assert!(lanyte_verify::verifiers::file::texts_comparable("a\nb\r\n", "b"));
}

#[test]
fn passive_results_are_inconclusive() {
    let result = FileVerifier::new().verify_passive(&outcome("write_file", Value::Null));
    assert_eq!(result.status, VerificationStatus::Inconclusive);
    assert_eq!(result.mode, VerificationMode::Provenance);
    assert_eq!(result.strategy, "file_verifier");
    assert_eq!(result.duration_ms, 0);
    assert_eq!(
        result.details,
        vec![detail(
            "verification_supported",
            false,
            "passive verification is not supported for file mutations",
            "write_file"
        )]
    );
    let result = HttpVerifier::new().verify_passive(&outcome("generate_image", Value::Null));
    assert_eq!(result.strategy, "http_verifier");
    assert_eq!(
        result.details,
        vec![detail(
            "verification_supported",
            false,
            "passive verification is not supported for HTTP artifacts",
            "generate_image"
        )]
    );
}

#[test]
fn operations_of_the_built_in_verifiers() {
    assert_eq!(FileVerifier::new().handles(), &["write_file", "edit_file"]);
    assert_eq!(JsonVerifier::new().handles(), &["json_output", "generate_json"]);
    assert_eq!(
        HttpVerifier::new().handles(),
        &["generate_image", "generate_video", "artifact_url"]
    );
}

#[test]
fn json_verifier_validates_constraints_and_schema() {
    let verifier = JsonVerifier::new();
    let result = verifier.verify_active(
        &ActionIntent {
            tool_name: "json".to_string(),
            operation: "json_output".to_string(),
            parameters: object(vec![]),
            constraints: vec![
                Constraint::ExactMatch {
                    field: "status".to_string(),
                    expected: string("ok"),
                },
                Constraint::Contains {
                    field: "message".to_string(),
                    substring: "green".to_string(),
                },
                Constraint::Range {
                    field: "count".to_string(),
                    min: Some(double(1.0)),
                    max: Some(double(5.0)),
                },
                Constraint::NonEmpty {
                    field: "items".to_string(),
                },
                Constraint::Schema {
                    field: "$".to_string(),
                    schema: object(vec![
                        ("type", string("object")),
                        ("required", array(vec![string("status"), string("items")])),
                        (
                            "properties",
                            object(vec![
                                ("status", object(vec![("type", string("string"))])),
                                ("message", object(vec![("type", string("string"))])),
                                ("count", object(vec![("type", string("integer"))])),
                                (
                                    "items",
                                    object(vec![
                                        ("type", string("array")),
                                        ("items", object(vec![("type", string("string"))])),
                                    ]),
                                ),
                            ]),
                        ),
                        ("additionalProperties", Value::Bool(false)),
                    ]),
                },
            ],
        },
        &ActionOutcome {
            tool_name: "json".to_string(),
            operation: "json_output".to_string(),
            result: object(vec![
                ("status", string("ok")),
                ("message", string("all green")),
                ("count", integer(3)),
                ("items", array(vec![string("a"), string("b")])),
            ]),
            metadata: None,
        },
    );

    assert_eq!(result.status, VerificationStatus::Verified);
    assert!(result.details.iter().all(|detail| detail.passed));
    assert_eq!(
        result.details,
        vec![
            detail("exact_match:status", true, "\"ok\"", "\"ok\""),
            detail("contains:message", true, "green", "all green"),
            detail("range:count", true, "min=Some(1.0), max=Some(5.0)", "3"),
            detail("non_empty:items", true, "non-empty array", "2"),
            detail("schema:$", true, "schema-compliant value", "valid"),
        ]
    );
}

#[test]
fn json_verifier_reports_schema_mismatch() {
    let verifier = JsonVerifier::new();
    let result = verifier.verify_active(
        &ActionIntent {
            tool_name: "json".to_string(),
            operation: "json_output".to_string(),
            parameters: object(vec![]),
            constraints: vec![Constraint::Schema {
                field: "$".to_string(),
                schema: object(vec![
                    ("type", string("object")),
                    ("required", array(vec![string("status")])),
                    (
                        "properties",
                        object(vec![("status", object(vec![("type", string("string"))]))]),
                    ),
                    ("additionalProperties", Value::Bool(false)),
                ]),
            }],
        },
        &ActionOutcome {
            tool_name: "json".to_string(),
            operation: "json_output".to_string(),
            result: object(vec![("status", integer(7))]),
            metadata: None,
        },
    );

    assert_eq!(result.status, VerificationStatus::Failed);
    assert!(result.details[0]
        .actual
        .as_ref()
        .unwrap()
        .contains("expected type `string`"));
    assert_eq!(result.mode, VerificationMode::Output);
    assert_eq!(result.strategy, "json_verifier");
}

fn status_of(constraints: Vec<Constraint>, result: Value) -> VerificationStatus {
    JsonVerifier::new()
        .verify_active(&intent("json_output", Value::Null, constraints), &outcome("json_output", result))
        .status
}

fn custom() -> Constraint {
    Constraint::Custom { name: "mine".to_string(), params: Value::Null }
}

#[test]
fn failures_outweigh_what_stays_open() {
    let holds = exact("$", integer(1));
    let fails = exact("$", integer(2));
    let one = integer(1);
    assert_eq!(status_of(vec![], one.clone()), VerificationStatus::Verified);
    assert_eq!(status_of(vec![holds.clone()], one.clone()), VerificationStatus::Verified);
    assert_eq!(
        status_of(vec![holds.clone(), custom()], one.clone()),
        VerificationStatus::Inconclusive
    );
    assert_eq!(
        status_of(vec![custom(), holds.clone()], one.clone()),
        VerificationStatus::Inconclusive
    );
    assert_eq!(
        status_of(vec![custom(), fails.clone(), holds.clone()], one.clone()),
        VerificationStatus::Failed
    );
    assert_eq!(status_of(vec![fails, custom(), holds], one), VerificationStatus::Failed);
}

#[test]
fn provenance_rests_on_citations_and_sources() {
    let with = |citations: usize, sources: u32| {
        let mut outcome = outcome("json_output", Value::Null);
        outcome.metadata = Some(ProvenanceMetadata {
            citations: vec![
                Citation { url: None, title: Some("t".to_string()), snippet: None, domain: None };
                citations
            ],
            reasoning_steps: vec!["step".to_string()],
            sources_consulted: sources,
            provider_metadata: object(vec![("provider", string("xai"))]),
        });
        JsonVerifier::new().verify_passive(&outcome)
    };
    let result = with(1, 12);
    assert_eq!(result.status, VerificationStatus::Verified);
    assert_eq!(result.mode, VerificationMode::Provenance);
    assert_eq!(
        result.details,
        vec![
            detail("citations_present", true, "one or more citations", "1"),
            detail("sources_consulted", true, "sources_consulted > 0", "12"),
        ]
    );
    assert_eq!(with(0, 1).status, VerificationStatus::Failed);
    assert_eq!(with(2, 0).status, VerificationStatus::Failed);
    assert_eq!(with(0, 0).details[0].actual, Some("0".to_string()));
    let without = JsonVerifier::new().verify_passive(&outcome("json_output", Value::Null));
    assert_eq!(without.status, VerificationStatus::Inconclusive);
    assert_eq!(
        without.details,
        vec![detail("provenance_metadata", false, "metadata present", "metadata missing")]
    );
}

#[test]
fn http_verifier_checks_head_response() {
    let verifier = HttpVerifier::new();
    let result = verifier.verify_active_with(
        &ActionIntent {
            tool_name: "image".to_string(),
            operation: "generate_image".to_string(),
            parameters: object(vec![]),
            constraints: vec![Constraint::ExactMatch {
                field: "content_type".to_string(),
                expected: string("image/png"),
            }],
        },
        &ActionOutcome {
            tool_name: "image".to_string(),
            operation: "generate_image".to_string(),
            result: object(vec![("url", string("http://127.0.0.1:0/image.png"))]),
            metadata: None,
        },
        |url: &str| {
            assert_eq!(url, "http://127.0.0.1:0/image.png");
            Ok(HeadResponse::new(200, Some(b"image/png".to_vec()), Some(b"42".to_vec())).unwrap())
        },
    );

    assert_eq!(result.status, VerificationStatus::Verified);
    assert_eq!(result.mode, VerificationMode::Output);
    assert_eq!(result.strategy, "http_verifier");
    assert_eq!(
        result.details,
        vec![
            detail("http_reachable", true, "2xx response", "200 OK"),
            detail("content_type", true, "image/png", "image/png"),
            detail("content_length_non_zero", true, "> 0", "42"),
        ]
    );
}

fn reply_to(
    constraints: Vec<Constraint>,
    reply: Result<HeadResponse, String>,
) -> lanyte_verify::VerificationResult {
    HttpVerifier::new().check_reply(
        &intent("artifact_url", Value::Null, constraints),
        reply,
        std::time::Instant::now(),
    )
}

#[test]
fn artifacts_fail_by_status_type_or_length() {
    let missing = reply_to(vec![], Ok(HeadResponse::new(404, None, Some(b"9".to_vec())).unwrap()));
    assert_eq!(missing.status, VerificationStatus::Failed);
    assert_eq!(
        missing.details,
        vec![
            detail("http_reachable", false, "2xx response", "404 Not Found"),
            detail("content_length_non_zero", true, "> 0", "9"),
        ]
    );
    let odd = reply_to(vec![], Ok(HeadResponse::new(299, None, Some(b"+1".to_vec())).unwrap()));
    assert_eq!(odd.status, VerificationStatus::Verified);
    assert_eq!(odd.details[0].actual, Some("299 <unknown status code>".to_string()));
    let empty = reply_to(vec![], Ok(HeadResponse::new(200, None, Some(b"0".to_vec())).unwrap()));
    assert_eq!(empty.status, VerificationStatus::Failed);
    let huge = reply_to(
        vec![],
        Ok(HeadResponse::new(200, None, Some(b"18446744073709551616".to_vec())).unwrap()),
    );
    assert_eq!(huge.status, VerificationStatus::Failed);
    assert_eq!(huge.details[1].actual, None);
    let most = reply_to(
        vec![],
        Ok(HeadResponse::new(200, None, Some(b"18446744073709551615".to_vec())).unwrap()),
    );
    assert_eq!(most.status, VerificationStatus::Verified);
    let wanted = vec![exact("content_type", string("image/png"))];
    let other = reply_to(
        wanted.clone(),
        Ok(HeadResponse::new(200, Some(b"text/html".to_vec()), Some(b"1".to_vec())).unwrap()),
    );
    assert_eq!(other.status, VerificationStatus::Failed);
    assert_eq!(other.details[1], detail("content_type", false, "image/png", "text/html"));
    let unreadable = reply_to(
        wanted,
        Ok(HeadResponse::new(200, Some(vec![0xff]), Some(b"1".to_vec())).unwrap()),
    );
    assert_eq!(unreadable.details[1].actual, None);
    assert!(!unreadable.details[1].passed);
    assert!(HeadResponse::new(99, None, None).is_none());
    assert!(HeadResponse::new(1000, None, None).is_none());
}

#[test]
fn artifacts_that_cannot_be_asked_for_stay_open() {
    let refused = reply_to(vec![], Err("connection refused".to_string()));
    assert_eq!(refused.status, VerificationStatus::Inconclusive);
    assert_eq!(
        refused.details,
        vec![detail("http_head", false, "reachable URL", "connection refused")]
    );
    let nowhere = HttpVerifier::new().verify_active_with(
        &intent("artifact_url", Value::Null, vec![]),
        &outcome("artifact_url", object(vec![("url", integer(1))])),
        |_: &str| panic!("nothing to ask for"),
    );
    assert_eq!(nowhere.status, VerificationStatus::Inconclusive);
    assert_eq!(
        nowhere.details,
        vec![detail("artifact_url", false, "result.url or result.artifact.url", "missing URL")]
    );
}

#[test]
fn artifact_urls_have_two_places() {
    let find = lanyte_verify::verifiers::http::find_artifact_url;
    let inner = object(vec![("url", string("inner"))]);
    assert_eq!(find(&object(vec![("url", string("outer")), ("artifact", inner.clone())])), Some("outer"));
    assert_eq!(find(&object(vec![("url", integer(1)), ("artifact", inner.clone())])), Some("inner"));
    assert_eq!(find(&object(vec![("artifact", inner)])), Some("inner"));
    assert_eq!(find(&string("url")), None);
}

fn checked(constraint: Constraint, root: &Value) -> VerificationDetail {
    match lanyte_verify::constraint::apply_constraint(&constraint, root) {
        lanyte_verify::constraint::ConstraintOutcome::Detail(d) => d,
        lanyte_verify::constraint::ConstraintOutcome::Inconclusive(_) => panic!("not checked"),
    }
}

#[test]
fn constraints_on_fields_that_are_not_there() {
    let root = object(vec![("a", integer(1))]);
    let missing = detail("field_present:b", false, "field present", "missing");
    let b = || "b".to_string();
    assert_eq!(checked(exact("b", Value::Null), &root), missing);
    assert_eq!(
        checked(Constraint::Contains { field: b(), substring: String::new() }, &root),
        missing
    );
    assert_eq!(checked(Constraint::Schema { field: b(), schema: Value::Null }, &root), missing);
    assert_eq!(checked(Constraint::NonEmpty { field: b() }, &root), missing);
    assert_eq!(
        checked(Constraint::Range { field: b(), min: None, max: None }, &root),
        detail("type:b", false, "number", "missing or wrong type")
    );
}

#[test]
fn constraints_on_fields_of_another_type() {
    let root = object(vec![("n", integer(5)), ("s", string("text")), ("t", Value::Bool(true))]);
    assert_eq!(
        checked(Constraint::Contains { field: "n".to_string(), substring: "5".to_string() }, &root),
        detail("contains:n", false, "string field", "5")
    );
    assert_eq!(
        checked(Constraint::Range { field: "s".to_string(), min: None, max: None }, &root),
        detail("type:s", false, "number", "missing or wrong type")
    );
    assert_eq!(
        checked(Constraint::NonEmpty { field: "t".to_string() }, &root),
        detail("non_empty:t", false, "string, array, or object", "true")
    );
    assert_eq!(
        checked(exact("n", float(5.0)), &root),
        detail("exact_match:n", false, "5.0", "5")
    );
}

#[test]
fn empty_and_full_fields() {
    let root = object(vec![
        ("s", string("")),
        ("t", string("x")),
        ("a", array(vec![])),
        ("o", object(vec![])),
        ("p", object(vec![("k", Value::Null), ("l", Value::Null)])),
    ]);
    let on = |field: &str| checked(Constraint::NonEmpty { field: field.to_string() }, &root);
    assert_eq!(on("s"), detail("non_empty:s", false, "non-empty string", ""));
    assert_eq!(on("t"), detail("non_empty:t", true, "non-empty string", "x"));
    assert_eq!(on("a"), detail("non_empty:a", false, "non-empty array", "0"));
    assert_eq!(on("o"), detail("non_empty:o", false, "non-empty object", "0"));
    assert_eq!(on("p"), detail("non_empty:p", true, "non-empty object", "2"));
}

#[test]
fn ranges_take_their_bounds() {
    let on = |value: Value, min: Option<f64>, max: Option<f64>| {
        checked(
            Constraint::Range { field: "$".to_string(), min: min.map(double), max: max.map(double) },
            &value,
        )
    };
    assert_eq!(
        on(float(2.5), Some(2.5), None),
        detail("range:$", true, "min=Some(2.5), max=None", "2.5")
    );
    assert_eq!(
        on(float(2.5), None, Some(-1e16)),
        detail("range:$", false, "min=None, max=Some(-1e16)", "2.5")
    );
    assert!(on(integer(5), Some(1.0), Some(5.0)).passed);
    assert!(!on(integer(6), Some(1.0), Some(5.0)).passed);
    assert!(!on(integer(0), Some(1.0), Some(5.0)).passed);
    assert!(on(float(-0.0), Some(0.0), Some(0.0)).passed);
    assert!(!on(integer(1), Some(f64::NAN), None).passed);
    assert!(on(integer(u64::MAX), Some(18446744073709551616.0), None).passed);
    assert_eq!(on(integer(u64::MAX), None, None).actual, Some("18446744073709552000".to_string()));
    assert!(on(Value::Number(Number::from_i64(-3)), Some(-3.0), Some(-2.0)).passed);
    assert!(on(integer(1), Some(f64::NEG_INFINITY), Some(f64::INFINITY)).passed);
}

#[test]
fn schema_errors_are_joined() {
    let root = object(vec![("a", integer(1)), ("z", integer(2))]);
    let schema = object(vec![
        ("required", array(vec![string("b"), integer(0), string("c")])),
        ("properties", object(vec![("a", object(vec![("type", string("string"))]))])),
        ("additionalProperties", Value::Bool(false)),
        ("enum", array(vec![Value::Null])),
    ]);
    assert_eq!(
        checked(Constraint::Schema { field: "$".to_string(), schema }, &root),
        detail(
            "schema:$",
            false,
            "schema-compliant value",
            "$: missing required field `b`; $: missing required field `c`; $.a: expected type \
             `string`; $: unexpected field `z`; $: value not present in enum"
        )
    );
}

#[test]
fn custom_constraints_are_left_to_the_consumer() {
    let constraint = custom();
    match lanyte_verify::constraint::apply_constraint(&constraint, &Value::Null) {
        lanyte_verify::constraint::ConstraintOutcome::Inconclusive(d) => assert_eq!(
            d,
            detail(
                "custom:mine",
                false,
                "consumer-defined verifier",
                "custom constraints are not handled by JsonVerifier"
            )
        ),
        lanyte_verify::constraint::ConstraintOutcome::Detail(_) => panic!("checked"),
    }
}
