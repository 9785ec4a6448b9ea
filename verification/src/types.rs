//! What goes into a verification and what comes out of it.

use crate::double::{Double, DoubleModel};
use crate::json::model::Json;
use crate::json::Value;
use crate::text;
use vstd::prelude::*;
use vstd::string::*;

verus! {

/// What a tool was asked to do.
#[derive(Debug, Clone, PartialEq)]
pub struct ActionIntent {
    pub tool_name: String,
    pub operation: String,
    pub parameters: Value,
    pub constraints: Vec<Constraint>,
}

/// What the outcome of an operation is held to.
#[derive(Debug, Clone, PartialEq)]
pub enum Constraint {
    /// The field equals `expected`.
    ExactMatch { field: String, expected: Value },
    /// The field is a string that contains `substring`.
    Contains { field: String, substring: String },
    /// The field conforms to a schema.
    Schema { field: String, schema: Value },
    /// The field is a number from `min` to `max`.
    Range { field: String, min: Option<Double>, max: Option<Double> },
    /// The field is a string, an array or an object that is not empty.
    NonEmpty { field: String },
    /// What only the consumer can check.
    Custom { name: String, params: Value },
}

/// What a tool did.
#[derive(Debug, Clone, PartialEq)]
pub struct ActionOutcome {
    pub tool_name: String,
    pub operation: String,
    pub result: Value,
    pub metadata: Option<ProvenanceMetadata>,
}

/// Where the outcome of an operation comes from.
#[derive(Debug, Clone, PartialEq)]
pub struct ProvenanceMetadata {
    pub citations: Vec<Citation>,
    pub reasoning_steps: Vec<String>,
    pub sources_consulted: u32,
    pub provider_metadata: Value,
}

/// A source that was cited.
#[derive(Debug, Clone, PartialEq)]
pub struct Citation {
    pub url: Option<String>,
    pub title: Option<String>,
    pub snippet: Option<String>,
    pub domain: Option<String>,
}

/// What a verification came to.
#[derive(Debug, Clone, PartialEq)]
pub struct VerificationResult {
    pub status: VerificationStatus,
    pub mode: VerificationMode,
    pub strategy: String,
    pub duration_ms: u64,
    pub details: Vec<VerificationDetail>,
}

/// Whether an outcome was verified.
#[derive(Debug, Clone, Copy, PartialEq, Eq, Structural)]
pub enum VerificationStatus {
    /// Every check passed.
    Verified,
    /// A check did not pass.
    Failed,
    /// Something could not be checked.
    Inconclusive,
    /// Nothing was checked.
    Skipped,
}

/// What kind of evidence a verification rests on.
#[derive(Debug, Clone, Copy, PartialEq, Eq, Structural)]
pub enum VerificationMode {
    /// What the operation changed.
    Mutation,
    /// What the operation returned.
    Output,
    /// Where the outcome comes from.
    Provenance,
}

/// One check of a verification.
#[derive(Debug, Clone, PartialEq, Eq)]
pub struct VerificationDetail {
    pub check: String,
    pub passed: bool,
    pub expected: Option<String>,
    pub actual: Option<String>,
    pub diff: Option<String>,
}

/// What an [`ActionIntent`] is.
pub struct IntentModel {
    pub tool_name: Seq<char>,
    pub operation: Seq<char>,
    pub parameters: Json,
    pub constraints: Seq<ConstraintModel>,
}

/// What a [`Constraint`] is.
pub enum ConstraintModel {
    ExactMatch { field: Seq<char>, expected: Json },
    Contains { field: Seq<char>, substring: Seq<char> },
    Schema { field: Seq<char>, schema: Json },
    Range { field: Seq<char>, min: Option<DoubleModel>, max: Option<DoubleModel> },
    NonEmpty { field: Seq<char> },
    Custom { name: Seq<char>, params: Json },
}

/// What an [`ActionOutcome`] is.
pub struct OutcomeModel {
    pub tool_name: Seq<char>,
    pub operation: Seq<char>,
    pub result: Json,
    pub metadata: Option<MetadataModel>,
}

/// What a [`ProvenanceMetadata`] is.
pub struct MetadataModel {
    pub citations: Seq<CitationModel>,
    pub reasoning_steps: Seq<Seq<char>>,
    pub sources_consulted: u32,
    pub provider_metadata: Json,
}

/// What a [`Citation`] is.
pub struct CitationModel {
    pub url: Option<Seq<char>>,
    pub title: Option<Seq<char>>,
    pub snippet: Option<Seq<char>>,
    pub domain: Option<Seq<char>>,
}

/// What a [`VerificationResult`] is.
#[verifier::ext_equal]
pub struct ResultModel {
    pub status: VerificationStatus,
    pub mode: VerificationMode,
    pub strategy: Seq<char>,
    pub duration_ms: u64,
    pub details: Seq<DetailModel>,
}

/// What a [`VerificationDetail`] is.
#[verifier::ext_equal]
pub struct DetailModel {
    pub check: Seq<char>,
    pub passed: bool,
    pub expected: Option<Seq<char>>,
    pub actual: Option<Seq<char>>,
    pub diff: Option<Seq<char>>,
}

/// What an optional double is.
pub open spec fn optional_double(d: Option<Double>) -> Option<DoubleModel> {
    match d {
        Some(d) => Some(d@),
        None => None,
    }
}

/// What a list of constraints is.
pub open spec fn constraint_models(list: Seq<Constraint>) -> Seq<ConstraintModel> {
    list.map_values(|c: Constraint| c@)
}

/// What a list of checks is.
pub open spec fn detail_models(list: Seq<VerificationDetail>) -> Seq<DetailModel> {
    list.map_values(|d: VerificationDetail| d@)
}

impl View for Constraint {
    type V = ConstraintModel;

    open spec fn view(&self) -> ConstraintModel {
        match *self {
            Constraint::ExactMatch { field, expected } => ConstraintModel::ExactMatch {
                field: field@,
                expected: expected@,
            },
            Constraint::Contains { field, substring } => ConstraintModel::Contains {
                field: field@,
                substring: substring@,
            },
            Constraint::Schema { field, schema } => ConstraintModel::Schema {
                field: field@,
                schema: schema@,
            },
            Constraint::Range { field, min, max } => ConstraintModel::Range {
                field: field@,
                min: optional_double(min),
                max: optional_double(max),
            },
            Constraint::NonEmpty { field } => ConstraintModel::NonEmpty { field: field@ },
            Constraint::Custom { name, params } => ConstraintModel::Custom {
                name: name@,
                params: params@,
            },
        }
    }
}

impl View for ActionIntent {
    type V = IntentModel;

    open spec fn view(&self) -> IntentModel {
        IntentModel {
            tool_name: self.tool_name@,
            operation: self.operation@,
            parameters: self.parameters@,
            constraints: constraint_models(self.constraints@),
        }
    }
}

impl View for Citation {
    type V = CitationModel;

    open spec fn view(&self) -> CitationModel {
        CitationModel {
            url: text::optional_text(self.url),
            title: text::optional_text(self.title),
            snippet: text::optional_text(self.snippet),
            domain: text::optional_text(self.domain),
        }
    }
}

impl View for ProvenanceMetadata {
    type V = MetadataModel;

    open spec fn view(&self) -> MetadataModel {
        MetadataModel {
            citations: self.citations@.map_values(|c: Citation| c@),
            reasoning_steps: text::texts(self.reasoning_steps@),
            sources_consulted: self.sources_consulted,
            provider_metadata: self.provider_metadata@,
        }
    }
}

/// What optional metadata is.
pub open spec fn metadata_model(metadata: Option<ProvenanceMetadata>) -> Option<MetadataModel> {
    match metadata {
        Some(m) => Some(m@),
        None => None,
    }
}

impl View for ActionOutcome {
    type V = OutcomeModel;

    open spec fn view(&self) -> OutcomeModel {
        OutcomeModel {
            tool_name: self.tool_name@,
            operation: self.operation@,
            result: self.result@,
            metadata: metadata_model(self.metadata),
        }
    }
}

impl View for VerificationDetail {
    type V = DetailModel;

    open spec fn view(&self) -> DetailModel {
        DetailModel {
            check: self.check@,
            passed: self.passed,
            expected: text::optional_text(self.expected),
            actual: text::optional_text(self.actual),
            diff: text::optional_text(self.diff),
        }
    }
}

impl View for VerificationResult {
    type V = ResultModel;

    open spec fn view(&self) -> ResultModel {
        ResultModel {
            status: self.status,
            mode: self.mode,
            strategy: self.strategy@,
            duration_ms: self.duration_ms,
            details: detail_models(self.details@),
        }
    }
}

}
