use vstd::prelude::*;

use crate::hir::ids::HirExprId;
use crate::ids::{DefId, LocalId};
use crate::types::Mutability;

verus! {

/// A place in HIR (lvalue).
#[derive(Clone, Debug, PartialEq)]
pub struct Place {
    pub local: LocalId,
    pub projection: Vec<Projection>,
}

/// Projections on a place.
#[derive(Clone, Copy, Debug, PartialEq, Eq, Structural)]
pub enum Projection {
    Field(u32),
    Index(HirExprId),
    Deref,
}

/// Operand in HIR rvalues.
#[derive(Clone, Debug, PartialEq)]
pub enum Operand {
    Copy(Place),
    Move(Place),
    Constant(HirConst),
}

/// HIR constant value; a float is kept as the text of its literal.
#[derive(Clone, Debug, PartialEq)]
pub enum HirConst {
    Int(i64),
    Bool(bool),
    Float(String),
    Str(String),
    Unit,
}

/// HIR rvalue.
#[derive(Clone, Debug, PartialEq)]
pub enum Rvalue {
    Use(Operand),
    UnaryOp { op: UnaryOp, operand: Operand },
    BinaryOp { op: BinaryOp, left: Operand, right: Operand },
    Aggregate(AggregateKind, Vec<Operand>),
    Ref { mutability: Mutability, place: Place },
    Len(Place),
    Discriminant(Place),
}

/// Unary operators in HIR.
#[derive(Clone, Copy, Debug, PartialEq, Eq, Structural)]
pub enum UnaryOp {
    Not,
    Neg,
}

/// Binary operators in HIR.
#[derive(Clone, Copy, Debug, PartialEq, Eq, Structural)]
pub enum BinaryOp {
    Add,
    Sub,
    Mul,
    Div,
    Eq,
    NotEq,
    Lt,
    LtEq,
    Gt,
    GtEq,
    And,
    Or,
    Mod,
}

/// Aggregate kinds.
#[derive(Clone, Copy, Debug, PartialEq, Eq, Structural)]
pub enum AggregateKind {
    Tuple,
    Struct(DefId),
    Enum(DefId, u32),
}

impl Place {
    /// The place of local `local` itself.
    pub fn local(local: LocalId) -> (p: Place)
        ensures
            p.local == local,
            p.projection@.len() == 0,
    {
        Place { local, projection: Vec::new() }
    }
}

} // verus!
