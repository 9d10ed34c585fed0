use vstd::prelude::*;

use crate::ast::literal::Literal;
use crate::ast::path::Path;
use crate::ids::PatId;
use crate::span::Span;

verus! {

/// A pattern in assignments, `for`, `match`, and parameters.
#[derive(Clone, Debug)]
pub struct Pat {
    pub kind: PatKind,
    pub span: Span,
}

/// Pattern kinds.
#[derive(Clone, Debug)]
pub enum PatKind {
    Wild,
    Ident { name: String, mutability: Mutability, subpat: Option<PatId> },
    Literal(Literal),
    Tuple(Vec<PatId>),
    Struct { path: Path, fields: Vec<PatField> },
    Enum { path: Path, variant: String, subpats: Vec<PatId> },
    Or(Vec<PatId>),
}

/// Mutability on binding patterns (`mut x`).
#[derive(Clone, Copy, Debug, PartialEq, Eq, Structural, Hash)]
pub enum Mutability {
    Imm,
    Mut,
}

/// A field in a struct pattern (`Point { x, y: pat }`).
#[derive(Clone, Debug)]
pub struct PatField {
    pub name: String,
    pub pat: PatId,
    pub span: Span,
}

} // verus!
