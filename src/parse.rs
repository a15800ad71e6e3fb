//! Reads the expression tree into the structures of `structures`.
//!
//! `strict` asks, in addition, that the receiver at the start of every call chain has a
//! resolved type that is itself a builder type.

use vstd::prelude::*;
use crate::nodes::{Closure, Expr, ExprKind, MethodCall, Namespace, Path, QPath, Span, Stmt, StmtKind, Type};
use crate::structures::{
    args_view, arg_view, call_view, calls_view, chain_view, closure_view, stmt_view, stmts_view,
    ArgModel, BuilderCall, BuilderCallArg, BuilderCallChain, BuilderClosure, CallModel,
    ChainModel, ClosureModel, PreBuilderCallStatement, StmtModel,
};
use crate::text::text_eq;

verus! {

broadcast use vstd::std_specs::vec::group_vec_axioms;

/// The crate whose builders are recognized.
pub open spec fn builder_crate() -> Seq<char> {
    "serenity"@
}

/// The module, directly under the crate, that holds the builders.
pub open spec fn builder_module() -> Seq<char> {
    "builder"@
}

/// The builder name of a definition path `builder_crate()::builder_module()::..::Name`.
pub open spec fn path_builder_name(p: Path) -> Option<Seq<char>> {
    let d = p.data@;
    if p.krate@ == builder_crate() && d.len() >= 2 && d[0].namespace == Namespace::Type
        && d[0].name@ == builder_module() && d.last().namespace == Namespace::Type {
        Some(d.last().name@)
    } else {
        None
    }
}

/// The short name of the builder that `t` denotes once every reference layer is removed.
pub open spec fn builder_type_name(t: Type) -> Option<Seq<char>>
    decreases t,
{
    match t {
        Type::Ref { inner, .. } => builder_type_name(*inner),
        Type::Adt(a) => path_builder_name(a.def_path),
        Type::Other => None,
    }
}

/// The name of a path expression made of a single plain identifier.
pub open spec fn path_ident(q: QPath) -> Option<Seq<char>> {
    if q.resolved && q.segments@.len() == 1 {
        Some(q.segments@[0]@)
    } else {
        None
    }
}

/// The chain at the bottom of a receiver: a plain identifier (of builder type, if `strict`).
pub open spec fn chain_base(q: QPath, strict: bool) -> Option<ChainModel> {
    match path_ident(q) {
        Some(name) => if strict && builder_type_name(q.ty) is None {
            None
        } else {
            Some(ChainModel { receiver: name, calls: seq![] })
        },
        None => None,
    }
}

/// The call chain that `mc` ends: its receiver's chain, then `mc` itself.
pub open spec fn unravel(mc: MethodCall, strict: bool) -> Option<ChainModel>
    decreases mc, 0int,
{
    let base = match mc.receiver.kind {
        ExprKind::MethodCall(inner) => unravel(inner, strict),
        ExprKind::Path(q) => chain_base(q, strict),
        _ => None,
    };
    match base {
        Some(c) => Some(
            ChainModel {
                receiver: c.receiver,
                calls: c.calls.push(
                    CallModel { field: mc.method@, args: classify_args(mc.args@, strict) },
                ),
            },
        ),
        None => None,
    }
}

/// Each argument is a nested builder closure where it is one, else a literal.
pub open spec fn classify_args(s: Seq<Expr>, strict: bool) -> Seq<ArgModel>
    decreases s, 0int,
{
    if s.len() == 0 {
        seq![]
    } else {
        let a = match closure_of(s.last(), strict) {
            Some(c) => ArgModel::Nested(c),
            None => ArgModel::Literal(s.last()),
        };
        classify_args(s.drop_last(), strict).push(a)
    }
}

/// The builder closure that `e` is, if it is one.
pub open spec fn closure_of(e: Expr, strict: bool) -> Option<ClosureModel>
    decreases e, 0int,
{
    match e.kind {
        ExprKind::Closure(c) => closure_model(c, e.span, strict),
        _ => None,
    }
}

/// A closure is a builder closure when its single parameter is a plain binding of type
/// `&mut B` for a builder `B`, and its body has one of the shapes of `body_model`.
pub open spec fn closure_model(c: Closure, span: Span, strict: bool) -> Option<ClosureModel>
    decreases c, 0int,
{
    if c.params@.len() != 1 {
        None
    } else {
        let p = c.params@[0];
        match p.ty {
            Type::Ref { mutable, inner } => if !mutable {
                None
            } else {
                match (builder_type_name(*inner), p.binding) {
                    (Some(ty), Some(b)) => match body_model(*c.body, b@, strict) {
                        Some((stmts, chain)) => Some(
                            ClosureModel { builder_type: ty, binding: b@, stmts, chain, span },
                        ),
                        None => None,
                    },
                    _ => None,
                }
            },
            _ => None,
        }
    }
}

/// The final expression of a builder closure's block: a call chain, or the binding alone.
pub open spec fn tail_model(e: Expr, binding: Seq<char>, strict: bool) -> Option<ChainModel>
    decreases e, 0int,
{
    match e.kind {
        ExprKind::MethodCall(mc) => unravel(mc, strict),
        ExprKind::Path(q) => if path_ident(q) == Some(binding) {
            Some(ChainModel { receiver: binding, calls: seq![] })
        } else {
            None
        },
        _ => None,
    }
}

/// A closure body is a call chain, or a block of statements ending in what `tail_model` takes.
pub open spec fn body_model(e: Expr, binding: Seq<char>, strict: bool) -> Option<
    (Seq<StmtModel>, ChainModel),
>
    decreases e, 0int,
{
    match e.kind {
        ExprKind::MethodCall(mc) => match unravel(mc, strict) {
            Some(c) => Some((seq![], c)),
            None => None,
        },
        ExprKind::Block(b) => match b.expr {
            Some(tail) => match tail_model(*tail, binding, strict) {
                Some(c) => Some((stmts_model(b.stmts@, binding, strict), c)),
                None => None,
            },
            None => None,
        },
        _ => None,
    }
}

/// The call chain of a statement `chain;`.
pub open spec fn stmt_chain(st: Stmt, strict: bool) -> Option<ChainModel>
    decreases st, 0int,
{
    match st.kind {
        StmtKind::Semi(e) => match e.kind {
            ExprKind::MethodCall(mc) => unravel(mc, strict),
            _ => None,
        },
        StmtKind::Other => None,
    }
}

/// A statement on the closure's own binding is kept as a chain; any other, verbatim.
pub open spec fn stmt_model(st: Stmt, binding: Seq<char>, strict: bool) -> StmtModel
    decreases st, 1int,
{
    let chain = stmt_chain(st, strict);
    match chain {
        Some(c) => if c.receiver == binding {
            StmtModel::Chained(c)
        } else {
            StmtModel::Verbatim(st.span)
        },
        None => StmtModel::Verbatim(st.span),
    }
}

pub open spec fn stmts_model(s: Seq<Stmt>, binding: Seq<char>, strict: bool) -> Seq<StmtModel>
    decreases s, 0int,
{
    if s.len() == 0 {
        seq![]
    } else {
        stmts_model(s.drop_last(), binding, strict).push(stmt_model(s.last(), binding, strict))
    }
}

pub open spec fn opt_chain_view(r: Option<BuilderCallChain>) -> Option<ChainModel> {
    match r {
        Some(c) => Some(chain_view(c)),
        None => None,
    }
}

pub open spec fn opt_closure_view(r: Option<BuilderClosure>) -> Option<ClosureModel> {
    match r {
        Some(c) => Some(closure_view(c)),
        None => None,
    }
}

/// `serenity::builder::CreateAMess<'_>` -> `"CreateAMess"`
pub fn as_serenity_builder_type(ty: &Type) -> (r: Option<String>)
    ensures
        match r {
            Some(s) => builder_type_name(*ty) == Some(s@),
            None => builder_type_name(*ty) is None,
        },
    decreases ty,
{
    match ty {
        Type::Ref { inner, .. } => as_serenity_builder_type(inner),
        Type::Adt(a) => {
            let d = &a.def_path.data;
            if text_eq(a.def_path.krate.as_str(), "serenity") && d.len() >= 2
                && d[0].namespace == Namespace::Type && text_eq(d[0].name.as_str(), "builder")
                && d[d.len() - 1].namespace == Namespace::Type {
                Some(d[d.len() - 1].name.clone())
            } else {
                None
            }
        },
        Type::Other => None,
    }
}

fn path_as_ident(q: &QPath) -> (r: Option<&String>)
    ensures
        match r {
            Some(s) => path_ident(*q) == Some(s@),
            None => path_ident(*q) is None,
        },
{
    if q.resolved && q.segments.len() == 1 {
        Some(&q.segments[0])
    } else {
        None
    }
}

proof fn lemma_push_calls(s: Seq<BuilderCall>, c: BuilderCall)
    ensures
        calls_view(s.push(c)) == calls_view(s).push(call_view(c)),
{
    assert(s.push(c).drop_last() =~= s);
}

pub fn parse_call_chain<'a>(mc: &'a MethodCall, strict: bool) -> (r: Option<BuilderCallChain<'a>>)
    ensures
        opt_chain_view(r) == unravel(*mc, strict),
    decreases mc, 0int,
{
    let mut chain = match &mc.receiver.kind {
        // Recurse until we've reached the start of the chain
        ExprKind::MethodCall(inner) => {
            proof {
                assert(decreases_to!(*mc => mc.receiver));
            }
            match parse_call_chain(inner, strict) {
                Some(c) => c,
                None => return None,
            }
        },
        // We've reached the start of the chain
        ExprKind::Path(q) => {
            match path_as_ident(q) {
                Some(name) => {
                    if strict && as_serenity_builder_type(&q.ty).is_none() {
                        return None;
                    }
                    BuilderCallChain { receiver: name.clone(), calls: Vec::new() }
                },
                None => return None,
            }
        },
        _ => return None,
    };
    proof {
        assert(decreases_to!(*mc => mc.args));
    }
    let args = parse_args(&mc.args, strict);
    let call = BuilderCall { field: mc.method.clone(), args };
    proof {
        lemma_push_calls(chain.calls@, call);
    }
    chain.calls.push(call);
    Some(chain)
}

fn parse_args<'a>(args: &'a Vec<Expr>, strict: bool) -> (r: Vec<BuilderCallArg<'a>>)
    ensures
        args_view(r@) == classify_args(args@, strict),
    decreases args, 0int,
{
    let mut out: Vec<BuilderCallArg<'a>> = Vec::new();
    let mut i: usize = 0;
    while i < args.len()
        invariant
            i <= args.len(),
            args_view(out@) == classify_args(args@.take(i as int), strict),
        decreases args.len() - i,
    {
        proof {
            assert(decreases_to!(*args => args@));
            assert(decreases_to!(args@ => args@[i as int]));
        }
        let a = match parse_builder_closure(&args[i], strict) {
            Some(c) => BuilderCallArg::NestedClosure(c),
            None => BuilderCallArg::Literal(&args[i]),
        };
        assert(arg_view(a) == (match closure_of(args@[i as int], strict) {
            Some(c) => ArgModel::Nested(c),
            None => ArgModel::Literal(args@[i as int]),
        }));
        proof {
            assert(out@.push(a).drop_last() =~= out@);
            assert(args@.take(i + 1).drop_last() =~= args@.take(i as int));
            assert(args@.take(i + 1).last() == args@[i as int]);
        }
        out.push(a);
        i += 1;
    }
    assert(args@.take(args.len() as int) =~= args@);
    out
}

/// The call chain of a statement `receiver.call1(..).call2(..);`.
pub fn parse_stmt_as_builder_call_chain<'a>(stmt: &'a Stmt, strict: bool) -> (r: Option<
    BuilderCallChain<'a>,
>)
    ensures
        opt_chain_view(r) == stmt_chain(*stmt, strict),
    decreases stmt, 0int,
{
    match &stmt.kind {
        StmtKind::Semi(e) => match &e.kind {
            ExprKind::MethodCall(mc) => parse_call_chain(mc, strict),
            _ => None,
        },
        StmtKind::Other => None,
    }
}

fn parse_stmt<'a>(stmt: &'a Stmt, binding: &String, strict: bool) -> (r: PreBuilderCallStatement<
    'a,
>)
    ensures
        stmt_view(r) == stmt_model(*stmt, binding@, strict),
    decreases stmt, 1int,
{
    let chain = parse_stmt_as_builder_call_chain(stmt, strict);
    match chain {
        // In `|a| { b.call() }`, a and b must be the same
        Some(chain) => if chain.receiver == *binding {
            PreBuilderCallStatement::BuilderCallChain(chain)
        } else {
            PreBuilderCallStatement::Verbatim(&stmt.span)
        },
        None => PreBuilderCallStatement::Verbatim(&stmt.span),
    }
}

fn parse_stmts<'a>(stmts: &'a Vec<Stmt>, binding: &String, strict: bool) -> (r: Vec<
    PreBuilderCallStatement<'a>,
>)
    ensures
        stmts_view(r@) == stmts_model(stmts@, binding@, strict),
    decreases stmts, 0int,
{
    let mut out: Vec<PreBuilderCallStatement<'a>> = Vec::new();
    let mut i: usize = 0;
    while i < stmts.len()
        invariant
            i <= stmts.len(),
            stmts_view(out@) == stmts_model(stmts@.take(i as int), binding@, strict),
        decreases stmts.len() - i,
    {
        proof {
            assert(decreases_to!(*stmts => stmts@));
            assert(decreases_to!(stmts@ => stmts@[i as int]));
        }
        let st = parse_stmt(&stmts[i], binding, strict);
        proof {
            assert(out@.push(st).drop_last() =~= out@);
            assert(stmts@.take(i + 1).drop_last() =~= stmts@.take(i as int));
            assert(stmts@.take(i + 1).last() == stmts@[i as int]);
        }
        out.push(st);
        i += 1;
    }
    assert(stmts@.take(stmts.len() as int) =~= stmts@);
    out
}

fn parse_tail<'a>(e: &'a Expr, binding: &String, strict: bool) -> (r: Option<BuilderCallChain<'a>>)
    ensures
        opt_chain_view(r) == tail_model(*e, binding@, strict),
    decreases e, 0int,
{
    match &e.kind {
        ExprKind::MethodCall(mc) => parse_call_chain(mc, strict),
        ExprKind::Path(q) => match path_as_ident(q) {
            Some(name) => if *name == *binding {
                Some(BuilderCallChain { receiver: binding.clone(), calls: Vec::new() })
            } else {
                None
            },
            None => None,
        },
        _ => None,
    }
}

fn parse_closure_body<'a>(body: &'a Expr, binding: &String, strict: bool) -> (r: Option<
    (Vec<PreBuilderCallStatement<'a>>, BuilderCallChain<'a>),
>)
    ensures
        match r {
            Some((stmts, chain)) => body_model(*body, binding@, strict) == Some(
                (stmts_view(stmts@), chain_view(chain)),
            ),
            None => body_model(*body, binding@, strict) is None,
        },
    decreases body, 0int,
{
    match &body.kind {
        ExprKind::MethodCall(mc) => match parse_call_chain(mc, strict) {
            Some(chain) => Some((Vec::new(), chain)),
            None => None,
        },
        ExprKind::Block(b) => match &b.expr {
            Some(tail) => match parse_tail(tail, binding, strict) {
                Some(chain) => {
                    proof {
                        assert(decreases_to!(*body => body.kind));
                        assert(decreases_to!(body.kind => body.kind->Block_0));
                        assert(decreases_to!(body.kind->Block_0 => body.kind->Block_0.stmts));
                    }
                    let stmts = parse_stmts(&b.stmts, binding, strict);
                    Some((stmts, chain))
                },
                None => None,
            },
            None => None,
        },
        _ => None,
    }
}

/// Reads `expr` as a builder closure, if it is one.
pub fn parse_builder_closure<'a>(expr: &'a Expr, strict: bool) -> (r: Option<BuilderClosure<'a>>)
    ensures
        opt_closure_view(r) == closure_of(*expr, strict),
    decreases expr, 0int,
{
    let closure = match &expr.kind {
        ExprKind::Closure(c) => c,
        _ => return None,
    };
    if closure.params.len() != 1 {
        return None;
    }
    let param = &closure.params[0];
    let builder_type = match &param.ty {
        Type::Ref { mutable, inner } => {
            if !*mutable {
                return None;
            }
            match as_serenity_builder_type(inner) {
                Some(t) => t,
                None => return None,
            }
        },
        _ => return None,
    };
    let binding = match &param.binding {
        Some(b) => b,
        None => return None,
    };
    proof {
        assert(decreases_to!(*expr => expr.kind));
        assert(decreases_to!(expr.kind => expr.kind->Closure_0));
        assert(decreases_to!(expr.kind->Closure_0 => expr.kind->Closure_0.body));
    }
    match parse_closure_body(&closure.body, binding, strict) {
        Some((stmts, call_chain)) => Some(
            BuilderClosure {
                builder_type,
                binding: binding.clone(),
                stmts,
                call_chain,
                span: &expr.span,
            },
        ),
        None => None,
    }
}

} // verus!
