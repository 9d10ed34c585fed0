use vstd::prelude::*;

use crate::hir::ids::HirPatId;
use crate::hir::place::HirConst;
use crate::ids::{DefId, LocalId};
use crate::span::Span;

verus! {

/// HIR pattern.
#[derive(Clone, Debug)]
pub struct HirPat {
    pub kind: HirPatKind,
    pub span: Span,
}

/// HIR pattern kinds.
#[derive(Clone, Debug)]
pub enum HirPatKind {
    Wild,
    Literal(HirConst),
    Local { name: String, local: LocalId },
    Enum { def: DefId, variant: u32, subpats: Vec<HirPatId> },
}

} // verus!
