use lanyte_verify::double::{
    bits_are_finite, bits_are_nan, double_at_most, doubles_equal, nearest_to_i64, nearest_to_u64,
    Double,
};
use lanyte_verify::outcome::{build_result, result_after, summarize_status};
use lanyte_verify::path::resolve_field;
use lanyte_verify::schema::{matches_json_type, validate_schema};
use lanyte_verify::text::{
    contains_text, decimal_text, is_before, is_one_of, join, parse_number, same_text,
};
use lanyte_verify::{
    Number, Object, Value, VerificationDetail, VerificationMode, VerificationStatus,
};

fn string(s: &str) -> Value {
    Value::String(s.to_string())
}

fn integer(n: u64) -> Value {
    Value::Number(Number::from_u64(n))
}

fn negative(n: i64) -> Value {
    Value::Number(Number::from_i64(n))
}

fn float(x: f64) -> Value {
    let double = Double { bits: x.to_bits(), display: x.to_string(), debug: format!("{:?}", x) };
    let json = serde_json::Value::from(x).to_string();
    Value::Number(Number::from_double(double, json).unwrap())
}

fn array(items: Vec<Value>) -> Value {
    Value::Array(items)
}

fn object(members: Vec<(&str, Value)>) -> Value {
    let mut object = Object::new();
    for (name, value) in members {
        object.insert(name.to_string(), value);
    }
    Value::Object(object)
}

#[test]
fn objects_keep_their_names_in_order() {
    let mut o = Object::new();
    assert!(o.is_empty());
    o.insert("b".to_string(), integer(1));
    o.insert("a".to_string(), integer(2));
    o.insert("b".to_string(), integer(3));
    assert_eq!(o.len(), 2);
    assert_eq!(o.name_at(0), "a");
    assert_eq!(o.name_at(1), "b");
    assert_eq!(o.get("b"), Some(&integer(3)));
    assert_eq!(o.get("c"), None);
    assert!(o.contains_key("a"));
}

#[test]
fn values_as_text() {
    let value = object(vec![
        ("text", string("a \"quoted\" \\ line\n\t\r\u{8}\u{c}\u{1}\u{7f}\u{e9}")),
        ("list", array(vec![Value::Null, Value::Bool(true), Value::Bool(false)])),
        ("numbers", array(vec![integer(0), negative(-12), integer(u64::MAX), float(1.0), float(1e300)])),
        ("none", array(vec![])),
        ("empty", object(vec![])),
    ]);
    assert_eq!(
        value.to_text(),
        "{\"empty\":{},\"list\":[null,true,false],\"none\":[],\"numbers\":[0,-12,\
         18446744073709551615,1.0,1e+300],\"text\":\"a \\\"quoted\\\" \\\\ line\\n\\t\\r\\b\\f\
         \\u0001\u{7f}\u{e9}\"}"
    );
    assert_eq!(string("x\ny").to_text(), serde_json::Value::from("x\ny").to_string());
}

#[test]
fn text_agrees_with_the_parser() {
    let text = "{\"a\":[1,-2,\"\\u001f\\\"\",{\"b\":null}],\"c\":true}";
    let parsed: serde_json::Value = serde_json::from_str(text).unwrap();
    let value = object(vec![
        ("c", Value::Bool(true)),
        (
            "a",
            array(vec![
                integer(1),
                negative(-2),
                string("\u{1f}\""),
                object(vec![("b", Value::Null)]),
            ]),
        ),
    ]);
    assert_eq!(value.to_text(), parsed.to_string());
}

#[test]
fn equality_of_values() {
    let a = object(vec![("x", array(vec![integer(1), string("s")])), ("y", float(0.5))]);
    let b = object(vec![("y", float(0.5)), ("x", array(vec![integer(1), string("s")]))]);
    let c = a.clone();
    assert_eq!(a, a);
    assert_eq!(a, b);
    assert_eq!(b, a);
    assert_eq!(b, c);
    assert_eq!(a, c);
    assert_ne!(integer(1), float(1.0));
    assert_ne!(integer(1), negative(-1));
    assert_eq!(negative(7), integer(7));
    assert_eq!(float(0.0), float(-0.0));
    assert_ne!(array(vec![integer(1)]), array(vec![integer(1), integer(2)]));
    assert_ne!(object(vec![("a", Value::Null)]), object(vec![("b", Value::Null)]));
    assert_ne!(object(vec![("a", Value::Null)]), object(vec![]));
    assert_ne!(Value::Null, Value::Bool(false));
}

#[test]
fn numbers_give_their_parts() {
    let n = Number::from_u64(u64::MAX);
    assert_eq!(n.as_u64(), Some(u64::MAX));
    assert_eq!(n.as_i64(), None);
    assert_eq!(n.double_bits(), (u64::MAX as f64).to_bits());
    assert_eq!(n.double_display(), "18446744073709552000");
    let m = Number::from_i64(-5);
    assert_eq!(m.as_u64(), None);
    assert_eq!(m.as_i64(), Some(-5));
    assert_eq!(m.double_display(), "-5");
    for n in [0, 7, -9007199254740993, i64::MAX, i64::MIN] {
        assert_eq!(Number::from_i64(n).double_display(), (n as f64).to_string());
    }
    let infinite = Double {
        bits: f64::INFINITY.to_bits(),
        display: "inf".to_string(),
        debug: "inf".to_string(),
    };
    assert!(Number::from_double(infinite, "null".to_string()).is_none());
}

#[test]
fn integers_are_rounded_to_the_nearest_double() {
    let samples: Vec<u64> = vec![
        0,
        1,
        2,
        3,
        9007199254740991,
        9007199254740992,
        9007199254740993,
        9007199254740994,
        9007199254740995,
        18014398509481985,
        18014398509481986,
        18014398509481987,
        9223372036854775807,
        9223372036854775808,
        18446744073709550591,
        18446744073709550592,
        18446744073709551615,
    ];
    for n in samples {
        assert_eq!(nearest_to_u64(n), (n as f64).to_bits());
        assert_eq!(nearest_to_i64(n as i64), (n as i64 as f64).to_bits());
    }
    assert_eq!(nearest_to_i64(i64::MIN), (i64::MIN as f64).to_bits());
}

#[test]
fn doubles_compare_as_numbers() {
    let samples: Vec<f64> = vec![
        f64::NEG_INFINITY,
        -1e300,
        -1.5,
        -5e-324,
        -0.0,
        0.0,
        5e-324,
        2.2250738585072014e-308,
        0.1,
        1.0,
        1e300,
        f64::INFINITY,
        f64::NAN,
        -f64::NAN,
    ];
    for a in &samples {
        for b in &samples {
            assert_eq!(double_at_most(a.to_bits(), b.to_bits()), a <= b);
            assert_eq!(doubles_equal(a.to_bits(), b.to_bits()), a == b);
        }
        assert_eq!(bits_are_nan(a.to_bits()), a.is_nan());
        assert_eq!(bits_are_finite(a.to_bits()), a.is_finite());
    }
}

#[test]
fn paths_lead_into_values() {
    let root = object(vec![
        ("a", object(vec![("b", array(vec![integer(10), object(vec![("c", string("deep"))])]))])),
        ("", integer(1)),
        ("$", integer(2)),
        ("0", integer(3)),
    ]);
    assert_eq!(resolve_field(&root, ""), Some(&root));
    assert_eq!(resolve_field(&root, "$"), Some(&root));
    assert_eq!(resolve_field(&root, "a.b.0"), Some(&integer(10)));
    assert_eq!(resolve_field(&root, "a.b.+0"), Some(&integer(10)));
    assert_eq!(resolve_field(&root, "a.b.00"), Some(&integer(10)));
    assert_eq!(resolve_field(&root, "$.a.b.1.c"), Some(&string("deep")));
    assert_eq!(resolve_field(&root, "$.$.a.b.1.c"), Some(&string("deep")));
    assert_eq!(resolve_field(&root, "a.b.2"), None);
    assert_eq!(resolve_field(&root, "a.b.-0"), None);
    assert_eq!(resolve_field(&root, "a.b."), None);
    assert_eq!(resolve_field(&root, "a.b.0.x"), None);
    assert_eq!(resolve_field(&root, "$."), Some(&integer(1)));
    assert_eq!(resolve_field(&root, "$.$"), Some(&integer(2)));
    assert_eq!(resolve_field(&root, "0"), Some(&integer(3)));
    assert_eq!(resolve_field(&root, "a..b"), None);
    assert_eq!(resolve_field(&string("x"), "0"), None);
}

#[test]
fn types_of_values() {
    assert!(matches_json_type("string", &string("")));
    assert!(matches_json_type("number", &float(0.5)));
    assert!(matches_json_type("number", &integer(1)));
    assert!(matches_json_type("integer", &integer(u64::MAX)));
    assert!(matches_json_type("integer", &negative(-1)));
    assert!(!matches_json_type("integer", &float(1.0)));
    assert!(matches_json_type("boolean", &Value::Bool(true)));
    assert!(matches_json_type("object", &object(vec![])));
    assert!(matches_json_type("array", &array(vec![])));
    assert!(matches_json_type("null", &Value::Null));
    assert!(!matches_json_type("null", &Value::Bool(false)));
    assert!(!matches_json_type("any", &Value::Null));
}

#[test]
fn schemas_report_places() {
    let schema = object(vec![
        ("type", string("array")),
        (
            "items",
            object(vec![
                ("properties", object(vec![("n", object(vec![("type", string("number"))]))])),
                ("required", array(vec![string("n")])),
            ]),
        ),
    ]);
    let value = array(vec![
        object(vec![("n", integer(1))]),
        object(vec![("n", string("x"))]),
        object(vec![]),
        integer(5),
    ]);
    assert_eq!(
        validate_schema(&schema, &value, "list"),
        vec![
            "list[1].n: expected type `number`".to_string(),
            "list[2]: missing required field `n`".to_string(),
        ]
    );
    assert_eq!(
        validate_schema(&schema, &integer(1), "list"),
        vec!["list: expected type `array`".to_string()]
    );
}

#[test]
fn schemas_count_by_their_keywords() {
    let none: Vec<String> = vec![];
    assert_eq!(validate_schema(&Value::Null, &integer(1), "$"), none);
    assert_eq!(validate_schema(&string("type"), &integer(1), "$"), none);
    assert_eq!(validate_schema(&object(vec![("minimum", integer(5))]), &integer(1), "$"), none);
    assert_eq!(validate_schema(&object(vec![("type", integer(5))]), &integer(1), "$"), none);
    let closed = object(vec![("additionalProperties", Value::Bool(false))]);
    assert_eq!(validate_schema(&closed, &object(vec![("a", integer(1))]), "$"), none);
    let listed = object(vec![("enum", array(vec![integer(1), string("a")]))]);
    assert_eq!(validate_schema(&listed, &integer(1), "$"), none);
    assert_eq!(
        validate_schema(&listed, &integer(2), "$"),
        vec!["$: value not present in enum".to_string()]
    );
    let many = object(vec![("items", object(vec![("type", string("null"))]))]);
    let values: Vec<Value> = (0..11).map(|_| integer(0)).collect();
    let errors = validate_schema(&many, &array(values), "$");
    assert_eq!(errors.len(), 11);
    assert_eq!(errors[10], "$[10]: expected type `null`");
}

#[test]
fn texts() {
    assert!(same_text("a\u{e9}", "a\u{e9}"));
    assert!(!same_text("a", "b"));
    assert!(!same_text("a", "ab"));
    assert!(contains_text("all green", "green"));
    assert!(contains_text("", ""));
    assert!(!contains_text("gree", "green"));
    assert!(contains_text("aab", "ab"));
    assert!(is_before("a", "b"));
    assert!(is_before("a", "aa"));
    assert!(!is_before("a", "a"));
    assert!(is_before("z", "\u{e9}"));
    assert!(is_one_of("b", &["a", "b"]));
    assert!(!is_one_of("c", &["a", "b"]));
    assert_eq!(join(&vec!["a".to_string(), "b".to_string()], "; "), "a; b");
    assert_eq!(join(&vec![], "; "), "");
    assert_eq!(decimal_text(0), "0");
    assert_eq!(decimal_text(1200), "1200");
    assert_eq!(parse_number("42", 100), Some(42));
    assert_eq!(parse_number("+42", 100), Some(42));
    assert_eq!(parse_number("0000000000000000000000042", 100), Some(42));
    assert_eq!(parse_number("101", 100), None);
    assert_eq!(parse_number("", 100), None);
    assert_eq!(parse_number("+", 100), None);
    assert_eq!(parse_number("-1", 100), None);
    assert_eq!(parse_number("4 2", 100), None);
}

#[test]
fn results_are_put_together() {
    let check = |passed: bool| VerificationDetail {
        check: "c".to_string(),
        passed,
        expected: None,
        actual: None,
        diff: None,
    };
    assert_eq!(summarize_status(&[]), VerificationStatus::Verified);
    assert_eq!(summarize_status(&[check(true), check(true)]), VerificationStatus::Verified);
    assert_eq!(summarize_status(&[check(true), check(false)]), VerificationStatus::Failed);
    let result = result_after(
        "s",
        VerificationMode::Output,
        (1u128 << 64) + 12,
        VerificationStatus::Verified,
        vec![check(true)],
    );
    assert_eq!(result.duration_ms, 12);
    assert_eq!(result.strategy, "s");
    assert_eq!(result.details, vec![check(true)]);
    let now = build_result(
        "s",
        VerificationMode::Provenance,
        std::time::Instant::now(),
        VerificationStatus::Failed,
        vec![],
    );
    assert_eq!(now.status, VerificationStatus::Failed);
    assert_eq!(now.mode, VerificationMode::Provenance);
    assert!(now.duration_ms < 60000);
}

#[test]
fn equal_values_are_treated_alike() {
    let a = object(vec![("x", array(vec![integer(1), float(0.0)])), ("y", string("s"))]);
    let b = object(vec![("y", string("s")), ("x", array(vec![integer(1), float(-0.0)]))]);
    assert_eq!(a, b);
    assert_eq!(resolve_field(&a, "x.1"), resolve_field(&b, "x.1"));
    assert_eq!(resolve_field(&a, "x.2"), resolve_field(&b, "x.2"));
    let schema = object(vec![
        ("required", array(vec![string("x"), string("z")])),
        ("enum", array(vec![a.clone()])),
    ]);
    let expected = vec!["$: missing required field `z`".to_string()];
    assert_eq!(validate_schema(&schema, &a, "$"), expected);
    assert_eq!(validate_schema(&schema, &b, "$"), expected);
}

#[test]
fn items_are_found_by_position() {
    let items: Vec<Value> = (0..12).map(integer).collect();
    let list = array(items.clone());
    for (i, item) in items.iter().enumerate() {
        assert_eq!(resolve_field(&list, &decimal_text(i as u64)), Some(item));
    }
    assert_eq!(resolve_field(&list, &decimal_text(12)), None);
}
