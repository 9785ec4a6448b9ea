//! What holds of the library as a whole: laws that relate several functions,
//! or several calls of one, stated over the models that their contracts use.

pub mod constraint;
pub mod double;
pub mod file;
pub mod http;
pub mod json;
pub mod outcome;
pub mod path;
pub mod registry;
pub mod schema;
pub mod text;
pub mod types;
pub mod verifiers;
