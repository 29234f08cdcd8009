//! SQL text to statement trees, with located diagnostics on malformed input.

pub mod error;
pub mod parse;
pub mod source;
pub mod value;
pub mod commands;
pub mod ast;
pub mod laws;
