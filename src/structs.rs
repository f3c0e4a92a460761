//! Typed argument values and a handler-based argument declaration.
pub mod argument;
pub mod error;
pub mod parser;
pub mod value;
