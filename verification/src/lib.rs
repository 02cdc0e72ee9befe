//! Schema-to-type compiler: reads JSON annotation values that describe the
//! shape of RPC responses and deterministically produces typed declaration
//! trees (records, tagged unions, aliases, unit types) together with their
//! rendered source text.
//!
//! The compiler walks an annotation value, classifies it into one of a closed
//! set of shapes (terminal primitive, enumeration, homogeneous sequence,
//! wildcard-keyed map, nested record, standalone-or-verbose record), applies
//! naming and keyword-collision transformations, and emits a deduplicated,
//! deterministically ordered set of declarations per input file.

pub mod ast;
pub mod classify;
pub mod compile;
pub mod emit;
pub mod lex;
pub mod resolve;
pub mod sorting;
pub mod text;
