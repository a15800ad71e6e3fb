//! Recognizes closure-configured builders in an expression tree and rewrites each one into
//! explicit construction followed by chained setter calls.

pub mod nodes;
pub mod text;
pub mod structures;
pub mod parse;
pub mod rules;
pub mod replace;
pub mod lint;
pub mod laws;
pub mod migrate;
