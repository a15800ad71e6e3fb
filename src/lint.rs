//! The pass that a driver runs over candidate expressions and statements.
//!
//! Each recognized builder gives one finding for its span: a replacement that is safe to apply
//! mechanically, or a note where the builder has a shape the rewriter does not take. Spans
//! inside one already replaced are skipped, so that no region gets two suggestions.

use vstd::prelude::*;
use crate::nodes::{Expr, Span, Stmt};
use crate::parse::{closure_of, parse_builder_closure, parse_stmt_as_builder_call_chain, stmt_chain};
use crate::replace::{
    chain_stmt_text, closure_text, replace_builder_call_chain_stmt, replace_closure, text_view,
    RewriteError,
};

verus! {

/// What the pass reports for one matched span `lo..hi`.
pub enum Finding {
    /// Replace the span with `text`.
    Replace { lo: u32, hi: u32, text: String },
    /// A recognized builder that is left as it is, and why.
    Note { lo: u32, hi: u32, reason: RewriteError },
}

pub open spec fn finding_view(f: Option<Finding>) -> Option<
    (u32, u32, Result<Seq<char>, RewriteError>),
> {
    match f {
        Some(Finding::Replace { lo, hi, text }) => Some((lo, hi, Ok(text@))),
        Some(Finding::Note { lo, hi, reason }) => Some((lo, hi, Err(reason))),
        None => None,
    }
}

/// The finding for a match at `sp` whose replacement text is `t`.
pub open spec fn finding_at(sp: Span, t: Result<Seq<char>, RewriteError>) -> Option<
    (u32, u32, Result<Seq<char>, RewriteError>),
> {
    Some((sp.lo, sp.hi, t))
}

fn make_finding(sp: &Span, t: Result<String, RewriteError>) -> (r: Finding)
    ensures
        finding_view(Some(r)) == finding_at(*sp, text_view(t)),
        r is Replace <==> t is Ok,
{
    match t {
        Ok(text) => Finding::Replace { lo: sp.lo, hi: sp.hi, text },
        Err(reason) => Finding::Note { lo: sp.lo, hi: sp.hi, reason },
    }
}

/// Finds closure-style builders and proposes their replacement.
pub struct Lint {
    /// Whether a call chain must start at a receiver of builder type.
    pub strict: bool,
    /// The spans replaced so far, as `(lo, hi)`.
    pub rewritten: Vec<(u32, u32)>,
}

impl Lint {
    /// Whether `sp` lies inside a span replaced so far.
    pub open spec fn covers(&self, sp: Span) -> bool {
        exists|i: int|
            0 <= i < self.rewritten@.len() && (#[trigger] self.rewritten@[i]).0 <= sp.lo && sp.hi
                <= self.rewritten@[i].1
    }

    /// The replaced spans after a finding `r` at `sp`.
    pub open spec fn after(&self, sp: Span, r: Option<Finding>) -> Seq<(u32, u32)> {
        match r {
            Some(Finding::Replace { .. }) => self.rewritten@.push((sp.lo, sp.hi)),
            _ => self.rewritten@,
        }
    }

    pub fn new(strict: bool) -> (r: Lint)
        ensures
            r.strict == strict,
            r.rewritten@.len() == 0,
    {
        Lint { strict, rewritten: Vec::new() }
    }

    pub fn name(&self) -> (r: &'static str)
        ensures
            r@ == "old_builders"@,
    {
        "old_builders"
    }

    pub fn is_covered(&self, sp: &Span) -> (r: bool)
        ensures
            r == self.covers(*sp),
    {
        let mut i: usize = 0;
        while i < self.rewritten.len()
            invariant
                i <= self.rewritten@.len(),
                forall|j: int|
                    0 <= j < i ==> !((#[trigger] self.rewritten@[j]).0 <= sp.lo && sp.hi
                        <= self.rewritten@[j].1),
            decreases self.rewritten.len() - i,
        {
            let (lo, hi) = self.rewritten[i];
            if lo <= sp.lo && sp.hi <= hi {
                return true;
            }
            i += 1;
        }
        false
    }

    fn record(&mut self, sp: &Span, f: &Finding)
        ensures
            final(self).strict == old(self).strict,
            final(self).rewritten@ == old(self).after(*sp, Some(*f)),
    {
        if let Finding::Replace { .. } = f {
            self.rewritten.push((sp.lo, sp.hi));
        }
    }

    /// The finding for an expression that is a builder closure.
    pub fn check_expr(&mut self, expr: &Expr) -> (r: Option<Finding>)
        ensures
            final(self).strict == old(self).strict,
            finding_view(r) == (if old(self).covers(expr.span) {
                None
            } else {
                match closure_of(*expr, old(self).strict) {
                    Some(c) => finding_at(expr.span, closure_text(c)),
                    None => None,
                }
            }),
            final(self).rewritten@ == old(self).after(expr.span, r),
    {
        if self.is_covered(&expr.span) {
            return None;
        }
        match parse_builder_closure(expr, self.strict) {
            Some(closure) => {
                let f = make_finding(&expr.span, replace_closure(&closure));
                self.record(&expr.span, &f);
                Some(f)
            },
            None => None,
        }
    }

    /// The finding for a statement `b.call1(..).call2(..);`: the assignment `b = b.call1(..)..;`.
    pub fn check_stmt(&mut self, stmt: &Stmt) -> (r: Option<Finding>)
        ensures
            final(self).strict == old(self).strict,
            finding_view(r) == (if old(self).covers(stmt.span) {
                None
            } else {
                match stmt_chain(*stmt, old(self).strict) {
                    Some(c) => finding_at(stmt.span, chain_stmt_text(c)),
                    None => None,
                }
            }),
            final(self).rewritten@ == old(self).after(stmt.span, r),
    {
        if self.is_covered(&stmt.span) {
            return None;
        }
        match parse_stmt_as_builder_call_chain(stmt, self.strict) {
            Some(chain) => {
                let f = make_finding(&stmt.span, replace_builder_call_chain_stmt(&chain));
                self.record(&stmt.span, &f);
                Some(f)
            },
            None => None,
        }
    }
}

} // verus!
