//! JSON values.

pub mod model;
pub mod number;
pub mod value;

pub use number::Number;
pub use value::{Object, Value};
