//! High-level IR: typed, desugared function bodies close to MIR.

pub mod expr;
pub mod ids;
pub mod owner;
pub mod pat;
pub mod place;
pub mod stmt;

pub use expr::{HirExpr, HirExprKind};
pub use ids::{HirExprId, HirPatId, HirStmtId};
pub use owner::{HirCrate, HirOwner, HirOwnerKind};
pub use pat::{HirPat, HirPatKind};
pub use place::{AggregateKind, BinaryOp, HirConst, Operand, Place, Projection, Rvalue, UnaryOp};
pub use stmt::{HirBody, HirStmt, HirStmtKind, LocalDecl};
