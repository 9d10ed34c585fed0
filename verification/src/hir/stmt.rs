use vstd::prelude::*;

use crate::hir::expr::HirExpr;
use crate::hir::ids::{HirExprId, HirStmtId};
use crate::hir::pat::HirPat;
use crate::hir::place::{Place, Rvalue};
use crate::ids::{DefId, LocalId, TypeId};
use crate::span::Span;
use crate::types::Mutability;

verus! {

/// HIR statement.
#[derive(Clone, Debug)]
pub struct HirStmt {
    pub kind: HirStmtKind,
    pub span: Span,
}

/// HIR statement kinds.
#[derive(Clone, Debug)]
pub enum HirStmtKind {
    Assign { place: Place, rvalue: Rvalue },
    Expr(HirExprId),
    Return(Option<HirExprId>),
    Drop(Place),
    While { cond: HirExprId, body: Vec<HirStmtId> },
}

/// Function body in HIR: the statements run in order, and the tables the
/// ids index into.
#[derive(Clone, Debug)]
pub struct HirBody {
    pub def_id: DefId,
    pub name: String,
    pub params: Vec<LocalId>,
    pub ret_ty: TypeId,
    pub stmts: Vec<HirStmtId>,
    pub exprs: Vec<HirExpr>,
    pub stmts_data: Vec<HirStmt>,
    pub pats: Vec<HirPat>,
    pub locals: Vec<LocalDecl>,
}

/// Local variable declaration in HIR.
#[derive(Clone, Debug)]
pub struct LocalDecl {
    pub ty: TypeId,
    pub mutability: Mutability,
    pub span: Span,
}

} // verus!
