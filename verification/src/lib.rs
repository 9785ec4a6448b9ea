//! Verifying what tools did: constraints on the outcome of an operation, the
//! checks that they come to, and a registry of verifiers by operation.

#![allow(unused_imports)]

use vstd::prelude::*;

pub mod constraint;
pub mod double;
pub mod json;
pub mod laws;
pub mod outcome;
pub mod path;
pub mod registry;
pub mod schema;
pub mod text;
pub mod types;
pub mod verifiers;

pub use json::{Number, Object, Value};
pub use registry::{AnyVerifier, RegistryError, VerifierRegistry};
pub use types::{
    ActionIntent, ActionOutcome, Citation, Constraint, ProvenanceMetadata, VerificationDetail,
    VerificationMode, VerificationResult, VerificationStatus,
};
pub use verifiers::{FileVerifier, HeadResponse, HttpVerifier, JsonVerifier, Verifier};
