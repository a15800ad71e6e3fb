//! The whole migration of one expression: recognize a builder closure and rewrite it.

use vstd::prelude::*;
use crate::nodes::Expr;
use crate::parse::{closure_of, parse_builder_closure};
use crate::replace::{closure_text, replace_closure};

verus! {

/// The replacement text of `e`, where `e` is a builder closure that can be rewritten.
pub open spec fn migrate_text(e: Expr) -> Option<Seq<char>> {
    match closure_of(e, false) {
        Some(c) => match closure_text(c) {
            Ok(t) => Some(t),
            Err(_) => None,
        },
        None => None,
    }
}

/// The replacement of a builder closure: explicit construction followed by its setters, with
/// nested builder closures rewritten the same way.
pub fn migrate(expr: &Expr) -> (r: Option<String>)
    ensures
        match r {
            Some(s) => migrate_text(*expr) == Some(s@),
            None => migrate_text(*expr) is None,
        },
{
    match parse_builder_closure(expr, false) {
        Some(closure) => match replace_closure(&closure) {
            Ok(text) => Some(text),
            Err(_) => None,
        },
        None => None,
    }
}

} // verus!
