//! A small command-line argument parser: flags are declared up front, then an
//! invocation's tokens are matched against them.
pub mod arguments;
pub mod error;
pub mod parser;
pub mod structs;
