//! A minimal SQL front end: a parser from SQL text to typed statements, and an
//! engine that applies those statements to in-memory, schema-typed tables.
//!
//! [`parser`] reads `CREATE TABLE`, `INSERT` and `SELECT` statements and
//! reports malformed text with a located diagnostic. [`execution`] keeps the
//! tables: it checks inserted values against the declared column types and
//! answers a selection with the rows of a table, by ascending row id, each
//! shown with the columns asked for.
//!
//! Every function states what it returns over mathematical values: a text is
//! a sequence of characters, a table a sequence of rows, a row a map from
//! column names to values.

pub mod execution;
pub mod parser;
