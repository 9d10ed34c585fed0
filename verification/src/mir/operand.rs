use vstd::prelude::*;

use crate::ids::DefId;
use crate::mir::place::Place;

verus! {

/// MIR operand.
#[derive(Clone, Debug, PartialEq)]
pub enum Operand {
    Copy(Place),
    Move(Place),
    Constant(ConstValue),
}

/// MIR constant value; a float is kept as the text of its literal.
#[derive(Clone, Debug, PartialEq)]
pub enum ConstValue {
    Int(i64),
    Bool(bool),
    Float(String),
    Str(String),
    Unit,
    ZeroSized,
}

/// Function reference for calls.
#[derive(Clone, Debug, PartialEq)]
pub enum FnOperand {
    Def(DefId),
    Place(Place),
}

} // verus!
