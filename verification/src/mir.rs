//! Mid-level IR (MIR): a control-flow graph of basic blocks per function,
//! its interpreter and its printer.

pub mod body;
pub mod interp;
pub mod memory;
pub mod operand;
pub mod ops;
pub mod place;
pub mod pretty;
pub mod rvalue;
pub mod statement;
pub mod terminator;
pub mod value;
pub mod visit;
