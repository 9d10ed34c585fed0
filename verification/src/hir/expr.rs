use vstd::prelude::*;

use crate::hir::ids::{HirExprId, HirPatId};
use crate::hir::place::{BinaryOp, HirConst, Place, UnaryOp};
use crate::ids::{DefId, LocalId, TypeId};
use crate::span::Span;
use crate::types::{Mutability, Subst};

verus! {

/// HIR expression.
#[derive(Clone, Debug)]
pub struct HirExpr {
    pub kind: HirExprKind,
    pub ty: TypeId,
    pub span: Span,
}

/// HIR expression kinds.
#[derive(Clone, Debug)]
pub enum HirExprKind {
    Literal(HirConst),
    Path { def: DefId, subst: Subst },
    Local(LocalId),
    Unary { op: UnaryOp, operand: HirExprId },
    Binary { op: BinaryOp, left: HirExprId, right: HirExprId },
    Call { def: DefId, subst: Subst, args: Vec<HirExprId> },
    Field { base: HirExprId, field_index: u32 },
    If { cond: HirExprId, then: HirExprId, else_branch: HirExprId },
    Match { scrutinee: HirExprId, arms: Vec<(HirPatId, HirExprId)> },
    Tuple(Vec<HirExprId>),
    Struct { def: DefId, fields: Vec<(u32, HirExprId)> },
    AddrOf { mutability: Mutability, place: Place },
    Deref(Place),
}

} // verus!
