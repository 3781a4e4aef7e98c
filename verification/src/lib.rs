//! A dynamic-but-typed value model: every runtime value carries an explicit
//! type descriptor beside its data, so callers can reason about type
//! compatibility without inspecting the payload.

pub mod laws;
pub mod types;
pub mod value;

pub use types::Type;
pub use value::MismatchContext;
pub use value::TypeMismatchError;
pub use value::Value;
pub use value::ValueInner;
