//! Structures that represent instances of the builder pattern, and their mathematical models.
//!
//! The structures borrow from the expression tree they were read from; their models replace
//! each `Vec` by a `Seq` and each `String` by its characters.

use vstd::prelude::*;
use crate::nodes::{Expr, Span};

verus! {

pub enum PreBuilderCallStatement<'a> {
    /// A statement reproduced as it stands in the source.
    Verbatim(&'a Span),
    /// Like the `b.foo().bar();` in `.builder(|b| { b.foo().bar(); b.field() })`
    BuilderCallChain(BuilderCallChain<'a>),
}

pub enum BuilderCallArg<'a> {
    /// Like in `.content("hi!")`
    Literal(&'a Expr),
    /// Like in `.embed(|e| e.title("my embed"))`
    NestedClosure(BuilderClosure<'a>),
}

/// Example: `.method_name(arg1, arg2)`
pub struct BuilderCall<'a> {
    pub field: String,
    pub args: Vec<BuilderCallArg<'a>>,
}

/// `receiver.call1(..).call2(..)`, its calls in source order.
pub struct BuilderCallChain<'a> {
    pub receiver: String,
    pub calls: Vec<BuilderCall<'a>>,
}

pub struct BuilderClosure<'a> {
    /// Type of the passed in builder, e.g. `CreateEmbed`
    pub builder_type: String,
    pub binding: String,
    /// Like `stmts` in `.send_message(|b| { stmts; b.content() })`
    pub stmts: Vec<PreBuilderCallStatement<'a>>,
    pub call_chain: BuilderCallChain<'a>,
    pub span: &'a Span,
}

pub enum ArgModel {
    Literal(Expr),
    Nested(ClosureModel),
}

pub struct CallModel {
    pub field: Seq<char>,
    pub args: Seq<ArgModel>,
}

pub struct ChainModel {
    pub receiver: Seq<char>,
    pub calls: Seq<CallModel>,
}

pub enum StmtModel {
    Verbatim(Span),
    Chained(ChainModel),
}

pub struct ClosureModel {
    pub builder_type: Seq<char>,
    pub binding: Seq<char>,
    pub stmts: Seq<StmtModel>,
    pub chain: ChainModel,
    pub span: Span,
}

pub open spec fn arg_view(a: BuilderCallArg) -> ArgModel
    decreases a,
{
    match a {
        BuilderCallArg::Literal(e) => ArgModel::Literal(*e),
        BuilderCallArg::NestedClosure(c) => ArgModel::Nested(closure_view(c)),
    }
}

pub open spec fn args_view(s: Seq<BuilderCallArg>) -> Seq<ArgModel>
    decreases s,
{
    if s.len() == 0 {
        seq![]
    } else {
        args_view(s.drop_last()).push(arg_view(s.last()))
    }
}

pub open spec fn call_view(c: BuilderCall) -> CallModel
    decreases c,
{
    CallModel { field: c.field@, args: args_view(c.args@) }
}

pub open spec fn calls_view(s: Seq<BuilderCall>) -> Seq<CallModel>
    decreases s,
{
    if s.len() == 0 {
        seq![]
    } else {
        calls_view(s.drop_last()).push(call_view(s.last()))
    }
}

pub open spec fn chain_view(ch: BuilderCallChain) -> ChainModel
    decreases ch,
{
    ChainModel { receiver: ch.receiver@, calls: calls_view(ch.calls@) }
}

pub open spec fn stmt_view(st: PreBuilderCallStatement) -> StmtModel
    decreases st,
{
    match st {
        PreBuilderCallStatement::Verbatim(sp) => StmtModel::Verbatim(*sp),
        PreBuilderCallStatement::BuilderCallChain(ch) => StmtModel::Chained(chain_view(ch)),
    }
}

pub open spec fn stmts_view(s: Seq<PreBuilderCallStatement>) -> Seq<StmtModel>
    decreases s,
{
    if s.len() == 0 {
        seq![]
    } else {
        stmts_view(s.drop_last()).push(stmt_view(s.last()))
    }
}

pub open spec fn closure_view(c: BuilderClosure) -> ClosureModel
    decreases c,
{
    ClosureModel {
        builder_type: c.builder_type@,
        binding: c.binding@,
        stmts: stmts_view(c.stmts@),
        chain: chain_view(c.call_chain),
        span: *c.span,
    }
}

} // verus!
