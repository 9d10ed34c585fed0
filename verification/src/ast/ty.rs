use vstd::prelude::*;

use crate::ast::path::Path;
use crate::ids::TyId;
use crate::span::Span;

verus! {

/// A type annotation in the AST.
#[derive(Clone, Debug)]
pub struct Ty {
    pub kind: TyKind,
    pub span: Span,
}

/// Syntax-level type kinds.
#[derive(Clone, Debug)]
pub enum TyKind {
    Path(Path),
    Tuple(Vec<TyId>),
    Array { elem: TyId, len: Option<u64> },
    Slice { elem: TyId },
    Ref { mutability: Mutability, inner: TyId },
    Fn { params: Vec<TyId>, ret: Option<TyId> },
    GenericParam { name: String },
}

/// Reference mutability for `&T` / `&mut T`.
#[derive(Clone, Copy, Debug, PartialEq, Eq, Structural, Hash)]
pub enum Mutability {
    Imm,
    Mut,
}

} // verus!
