use vstd::prelude::*;

use crate::ids::{ExprId, PatId, StmtId, TyId};
use crate::span::Span;

verus! {

/// A statement node in the AST.
#[derive(Clone, Debug)]
pub struct Stmt {
    pub kind: StmtKind,
    pub span: Span,
}

/// Statement kinds.
#[derive(Clone, Debug)]
pub enum StmtKind {
    Expr(ExprId),
    Assign { targets: Vec<PatId>, value: ExprId },
    AnnAssign { target: PatId, ty: TyId, value: Option<ExprId> },
    Return(Option<ExprId>),
    Raise(ExprId),
    Assert { test: ExprId, msg: Option<ExprId> },
    Pass,
    Break(Option<Label>),
    Continue(Option<Label>),
    While { test: ExprId, body: Vec<StmtId> },
    For { pat: PatId, iter: ExprId, body: Vec<StmtId> },
    If { test: ExprId, then_body: Vec<StmtId>, elifs: Vec<ElifArm>, else_body: Option<Vec<StmtId>> },
    Match { scrutinee: ExprId, arms: Vec<MatchArm> },
}

/// Optional label on `break` / `continue`.
#[derive(Clone, Debug)]
pub struct Label(pub String);

/// One `elif` branch in an `if` statement.
#[derive(Clone, Debug)]
pub struct ElifArm {
    pub test: ExprId,
    pub body: Vec<StmtId>,
    pub span: Span,
}

/// One arm in a `match` statement.
#[derive(Clone, Debug)]
pub struct MatchArm {
    pub pat: PatId,
    pub guard: Option<ExprId>,
    pub body: Vec<StmtId>,
    pub span: Span,
}

} // verus!
