use vstd::prelude::*;

use crate::ids::LocalId;
use crate::mir::place::Place;
use crate::mir::rvalue::Rvalue;
use crate::span::Span;

verus! {

#[derive(Clone, Debug, PartialEq)]
pub struct Statement {
    pub kind: StatementKind,
    pub span: Span,
}

#[derive(Clone, Debug, PartialEq)]
pub enum StatementKind {
    Assign { place: Place, rvalue: Rvalue },
    StorageLive(LocalId),
    StorageDead(LocalId),
    Deinit(Place),
    Nop,
}

} // verus!
