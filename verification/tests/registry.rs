use lanyte_verify::{
    ActionIntent, ActionOutcome, AnyVerifier, FileVerifier, JsonVerifier, Object, RegistryError,
    Value, VerificationDetail, VerificationMode, VerificationResult, VerificationStatus, Verifier,
    VerifierRegistry,
};

/// Files that are never there.
struct NoFiles(FileVerifier);

impl Verifier for NoFiles {
    fn handles(&self) -> &[&str] {
        self.0.handles()
    }

    fn verify_active(&self, intent: &ActionIntent, outcome: &ActionOutcome) -> VerificationResult {
        self.0.verify_active_with(intent, outcome, |_: &str| Err("no files".to_string()))
    }

    fn verify_passive(&self, outcome: &ActionOutcome) -> VerificationResult {
        self.0.verify_passive(outcome)
    }
}

/// Handles operations of any names.
struct Named(Vec<&'static str>);

impl Verifier for Named {
    fn handles(&self) -> &[&str] {
        &self.0
    }

    fn verify_active(&self, intent: &ActionIntent, outcome: &ActionOutcome) -> VerificationResult {
        JsonVerifier::new().verify_active(intent, outcome)
    }

    fn verify_passive(&self, outcome: &ActionOutcome) -> VerificationResult {
        JsonVerifier::new().verify_passive(outcome)
    }
}

fn any<V: Verifier + 'static>(verifier: V) -> AnyVerifier {
    AnyVerifier { verifier: Box::new(verifier) }
}

fn empty() -> Value {
    Value::Object(Object::new())
}

fn intent(operation: &str) -> ActionIntent {
    ActionIntent {
        tool_name: "fs".to_string(),
        operation: operation.to_string(),
        parameters: empty(),
        constraints: vec![],
    }
}

fn outcome(operation: &str) -> ActionOutcome {
    ActionOutcome {
        tool_name: "fs".to_string(),
        operation: operation.to_string(),
        result: empty(),
        metadata: None,
    }
}

#[test]
fn registry_skips_unknown_operations() {
    let registry = VerifierRegistry::new();
    let result = registry.verify_active(
        &ActionIntent {
            tool_name: "fs".to_string(),
            operation: "unknown".to_string(),
            parameters: empty(),
            constraints: vec![],
        },
        &ActionOutcome {
            tool_name: "fs".to_string(),
            operation: "unknown".to_string(),
            result: empty(),
            metadata: None,
        },
    );

    assert_eq!(result.status, VerificationStatus::Skipped);
    assert_eq!(result.mode, VerificationMode::Mutation);
    assert_eq!(result.strategy, "registry");
    assert_eq!(result.duration_ms, 0);
    assert_eq!(
        result.details,
        vec![VerificationDetail {
            check: "verifier_registered".to_string(),
            passed: false,
            expected: Some("registered verifier".to_string()),
            actual: Some("no verifier for operation `unknown`".to_string()),
            diff: None,
        }]
    );
    let passive = VerifierRegistry::default().verify_passive(&outcome("unknown"));
    assert_eq!(passive.status, VerificationStatus::Skipped);
    assert_eq!(passive.mode, VerificationMode::Provenance);
}

#[test]
fn registry_rejects_duplicate_operations() {
    let mut registry = VerifierRegistry::new();
    registry.register(NoFiles(FileVerifier::new())).unwrap();
    let error = registry.register(NoFiles(FileVerifier::new())).unwrap_err();
    assert_eq!(
        error,
        RegistryError::DuplicateOperation {
            operation: "write_file".to_string()
        }
    );
    assert_eq!(
        error.to_text(),
        "verifier for operation `write_file` is already registered"
    );
}

#[test]
fn registration_is_all_or_nothing() {
    let mut registry = VerifierRegistry::new();
    registry.register(Named(vec!["b", "c"])).unwrap();
    let error = registry.register(Named(vec!["a", "c", "b"])).unwrap_err();
    assert_eq!(error, RegistryError::DuplicateOperation { operation: "c".to_string() });
    let result = registry.verify_active(&intent("a"), &outcome("a"));
    assert_eq!(result.status, VerificationStatus::Skipped);
    registry.register(Named(vec!["a", "a"])).unwrap();
    let result = registry.verify_active(&intent("a"), &outcome("a"));
    assert_eq!(result.status, VerificationStatus::Verified);
}

#[test]
fn registry_dispatches_by_operation() {
    let mut registry = VerifierRegistry::new();
    registry.register(NoFiles(FileVerifier::new())).unwrap();
    registry.register(JsonVerifier::new()).unwrap();
    let active = |operation: &str| registry.verify_active(&intent(operation), &outcome("other"));
    assert_eq!(active("write_file").strategy, "file_verifier");
    assert_eq!(active("edit_file").strategy, "file_verifier");
    assert_eq!(active("json_output").strategy, "json_verifier");
    assert_eq!(active("generate_json").mode, VerificationMode::Output);
    assert_eq!(active("other").strategy, "registry");
    assert_eq!(registry.verify_passive(&outcome("generate_json")).strategy, "json_verifier");
    assert_eq!(registry.verify_passive(&outcome("edit_file")).strategy, "file_verifier");
}

#[test]
fn built_in_verifiers_register_together_in_either_order() {
    let mut registry = VerifierRegistry::new();
    registry.register(NoFiles(FileVerifier::new())).unwrap();
    registry.register(JsonVerifier::new()).unwrap();
    let mut other = VerifierRegistry::new();
    other.register_any(any(JsonVerifier::new())).unwrap();
    other.register_any(any(NoFiles(FileVerifier::new()))).unwrap();
    for registry in [registry, other] {
        let strategy =
            |operation: &str| registry.verify_active(&intent(operation), &outcome(operation)).strategy;
        assert_eq!(strategy("write_file"), "file_verifier");
        assert_eq!(strategy("json_output"), "json_verifier");
        assert_eq!(strategy("generate_image"), "registry");
    }
}

#[test]
fn durations_are_read_off_the_clock() {
    let started = std::time::Instant::now() - std::time::Duration::from_millis(20);
    let result = lanyte_verify::HttpVerifier::new().missing_url(started);
    assert!(result.duration_ms >= 20);
}
