//! Arena-backed abstract syntax tree for rPython.

pub mod arena;
pub mod display;
pub mod expr;
pub mod item;
pub mod literal;
pub mod pat;
pub mod path;
pub mod stmt;
pub mod ty;
pub mod visit;
pub mod visitor;

pub use arena::Arena;
pub use expr::{
    BinaryOp, Expr, ExprKind, FieldExpr, Kwarg, LambdaParam, Mutability as ExprMutability, UnaryOp,
};
pub use item::{
    Abi, Attribute, ExternItem, FieldDef, GenericParam, ImplItem, InterfaceItem, Item, ItemKind,
    Mutability as ItemMutability, Param, Variant, VariantFields,
};
pub use literal::Literal;
pub use pat::{Mutability as PatMutability, Pat, PatField, PatKind};
pub use path::{Path, PathSegment};
pub use stmt::{ElifArm, Label, MatchArm, Stmt, StmtKind};
pub use ty::{Mutability as TyMutability, Ty, TyKind};

use crate::ids::ItemId;
use crate::span::Span;
use vstd::prelude::*;

verus! {

/// Root of a parsed compilation unit.
#[derive(Clone, Debug)]
pub struct Module {
    pub items: Vec<ItemId>,
    pub span: Span,
}

} // verus!
