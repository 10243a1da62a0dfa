//! Validation of a configuration document against a small, declarative schema.
//!
//! The document and the schema are both JSON value trees. Validation never
//! stops at the first problem: it collects every violation, each with the path
//! of the offending value and a human-readable message.

pub mod format;
pub mod laws;
pub mod pattern;
pub mod source;
pub mod text;
pub mod validator;
pub mod value;
