//! The three statements of the language.

pub mod create;
pub mod insert;
pub mod select;
