//! A read-only model of the host's expression tree: just what the classifiers consult.
//!
//! The host hands every node over with its resolved type and with the source text of its
//! span already looked up through macro hygiene (`None` where that text cannot be recovered).

use vstd::prelude::*;
use crate::text::{placeholder, snippet_or, source_text};

verus! {

/// A source region. `lo`/`hi` identify it; `snippet` is its recovered source text, if any.
pub struct Span {
    pub lo: u32,
    pub hi: u32,
    pub snippet: Option<String>,
}

/// The namespace of one segment of a definition path.
#[derive(PartialEq, Eq, Structural)]
pub enum Namespace {
    Type,
    Value,
    Macro,
    Lifetime,
    Other,
}

/// One segment of a definition path.
pub struct DefSegment {
    pub namespace: Namespace,
    pub name: String,
}

/// The definition path of a nominal type: its crate's name and the segments under it.
pub struct Path {
    pub krate: String,
    pub data: Vec<DefSegment>,
}

/// A nominal (struct or enum) type.
pub struct Adt {
    pub def_path: Path,
}

/// A resolved type, as far as the classifiers look into it.
pub enum Type {
    Ref { mutable: bool, inner: Box<Type> },
    Adt(Adt),
    /// Tuples, primitives, type parameters and every other shape.
    Other,
}

/// A path expression such as `b` or `InteractionResponseType::Pong`.
pub struct QPath {
    /// `false` for a qualified path (`<T as Tr>::x`) or a type-relative one (`T::x`).
    pub resolved: bool,
    pub segments: Vec<String>,
    /// The resolved type of the expression.
    pub ty: Type,
}

/// A closure parameter: its binding name (`None` for any other pattern) and resolved type.
pub struct Param {
    pub binding: Option<String>,
    pub ty: Type,
    pub span: Span,
}

pub struct Closure {
    pub params: Vec<Param>,
    pub body: Box<Expr>,
}

pub struct MethodCall {
    pub method: String,
    pub receiver: Box<Expr>,
    pub args: Vec<Expr>,
}

pub enum StmtKind {
    /// An expression statement ending in `;`.
    Semi(Expr),
    /// `let`, items, and expressions without `;`.
    Other,
}

pub struct Stmt {
    pub kind: StmtKind,
    pub span: Span,
}

pub struct Block {
    pub stmts: Vec<Stmt>,
    pub expr: Option<Box<Expr>>,
}

pub enum ExprKind {
    Path(QPath),
    MethodCall(MethodCall),
    Closure(Closure),
    Block(Block),
    /// Literals, calls, field accesses and every other shape.
    Other,
}

pub struct Expr {
    pub kind: ExprKind,
    pub span: Span,
}

/// The segments of `p` whose namespace is a named one, as `parts` lists them after the crate.
pub open spec fn named_segments(data: Seq<DefSegment>) -> Seq<Seq<char>>
    decreases data.len(),
{
    if data.len() == 0 {
        seq![]
    } else {
        let rest = named_segments(data.drop_last());
        if data.last().namespace == Namespace::Other {
            rest
        } else {
            rest.push(data.last().name@)
        }
    }
}

impl Path {
    /// The crate name followed by the name of every segment in a named namespace.
    pub fn parts(&self) -> (r: Vec<String>)
        ensures
            r@.map_values(|s: String| s@) == seq![self.krate@] + named_segments(self.data@),
    {
        let mut parts: Vec<String> = Vec::new();
        parts.push(self.krate.clone());
        let mut i: usize = 0;
        while i < self.data.len()
            invariant
                i <= self.data.len(),
                parts@.map_values(|s: String| s@) == seq![self.krate@] + named_segments(
                    self.data@.take(i as int),
                ),
            decreases self.data.len() - i,
        {
            let seg = &self.data[i];
            proof {
                assert(self.data@.take(i + 1).drop_last() =~= self.data@.take(i as int));
                assert(self.data@.take(i + 1).last() == self.data@[i as int]);
            }
            let ghost before = parts@;
            if seg.namespace != Namespace::Other {
                parts.push(seg.name.clone());
                assert(parts@.map_values(|s: String| s@) =~= before.map_values(|s: String| s@).push(
                    seg.name@,
                ));
                assert(parts@.map_values(|s: String| s@) =~= seq![self.krate@] + named_segments(
                    self.data@.take(i + 1),
                ));
            }
            i += 1;
        }
        assert(self.data@.take(self.data.len() as int) =~= self.data@);
        parts
    }
}

impl Adt {
    pub fn path(&self) -> (r: &Path)
        ensures
            r == &self.def_path,
    {
        &self.def_path
    }
}

impl Type {
    /// The referenced type, when `self` is a reference.
    pub fn ref_(&self) -> (r: Option<&Type>)
        ensures
            r == (match self {
                Type::Ref { inner, .. } => Some(&**inner),
                _ => None,
            }),
    {
        match self {
            Type::Ref { inner, .. } => Some(&**inner),
            _ => None,
        }
    }

    pub fn adt(&self) -> (r: Option<&Adt>)
        ensures
            r == (match self {
                Type::Adt(a) => Some(a),
                _ => None,
            }),
    {
        match self {
            Type::Adt(a) => Some(a),
            _ => None,
        }
    }
}

impl Param {
    pub fn type_(&self) -> (r: &Type)
        ensures
            r == &self.ty,
    {
        &self.ty
    }
}

impl Closure {
    pub fn body(&self) -> (r: &Expr)
        ensures
            r == &*self.body,
    {
        &*self.body
    }

    pub fn args(&self) -> (r: &Vec<Param>)
        ensures
            r == &self.params,
    {
        &self.params
    }

    /// The closure's parameter, when it has exactly one.
    pub fn single_param(&self) -> (r: Option<&Param>)
        ensures
            r == (if self.params@.len() == 1 {
                Some(&self.params@[0])
            } else {
                None
            }),
    {
        if self.params.len() == 1 {
            Some(&self.params[0])
        } else {
            None
        }
    }
}

impl MethodCall {
    pub fn receiver(&self) -> (r: &Expr)
        ensures
            r == &*self.receiver,
    {
        &*self.receiver
    }

    pub fn method_name(&self) -> (r: String)
        ensures
            r@ == self.method@,
    {
        self.method.clone()
    }

    pub fn args(&self) -> (r: &Vec<Expr>)
        ensures
            r == &self.args,
    {
        &self.args
    }
}

impl Expr {
    /// The expression's source text, trimmed; a placeholder where it cannot be recovered.
    pub fn source_code(&self) -> (r: String)
        ensures
            r@ == snippet_or(self.span, placeholder()),
    {
        source_text(&self.span, "todo!()")
    }

    pub fn new(kind: ExprKind, span: Span) -> (r: Expr)
        ensures
            r == (Expr { kind, span }),
    {
        Expr { kind, span }
    }

    pub fn closure(&self) -> (r: Option<&Closure>)
        ensures
            r == (match &self.kind {
                ExprKind::Closure(c) => Some(c),
                _ => None,
            }),
    {
        match &self.kind {
            ExprKind::Closure(c) => Some(c),
            _ => None,
        }
    }

    pub fn method_call(&self) -> (r: Option<&MethodCall>)
        ensures
            r == (match &self.kind {
                ExprKind::MethodCall(m) => Some(m),
                _ => None,
            }),
    {
        match &self.kind {
            ExprKind::MethodCall(m) => Some(m),
            _ => None,
        }
    }

    /// The inner expression of a block that holds no statement and a final expression.
    pub fn single_expr_block(&self) -> (r: Option<&Expr>)
        ensures
            r == (match &self.kind {
                ExprKind::Block(b) => if b.stmts@.len() == 0 && b.expr is Some {
                    Some(&*b.expr->Some_0)
                } else {
                    None
                },
                _ => None,
            }),
    {
        match &self.kind {
            ExprKind::Block(b) => {
                if b.stmts.len() == 0 {
                    match &b.expr {
                        Some(e) => Some(&**e),
                        None => None,
                    }
                } else {
                    None
                }
            },
            _ => None,
        }
    }
}

} // verus!
