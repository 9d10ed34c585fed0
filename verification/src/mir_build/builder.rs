use vstd::prelude::*;

use crate::hir::place::{BinaryOp as HirBinOp, HirConst, UnaryOp as HirUnOp};
use crate::ids::{BlockId, LocalId, TypeId};
use crate::mir::body::{BasicBlock, LocalDecl};
use crate::mir::operand::{ConstValue, Operand};
use crate::mir::ops::{abs, binary_spec, integer_division_truncates};
use crate::mir::value::VVal;
use crate::mir::place::Place;
use crate::mir::rvalue::{BinOp, Rvalue, UnaryOp};
use crate::mir::statement::{Statement, StatementKind};
use crate::mir::terminator::{Terminator, TerminatorKind};
use crate::span::Span;
use crate::types::Mutability;

verus! {

/// Every block a terminator can go to is below `nb`.
pub open spec fn targets_in(k: TerminatorKind, nb: nat) -> bool {
    match k {
        TerminatorKind::Goto { target } => target.0 < nb,
        TerminatorKind::SwitchInt { targets, otherwise, .. } => otherwise.0 < nb && forall|i: int|
            0 <= i < targets@.len() ==> (#[trigger] targets@[i]).1 .0 < nb,
        TerminatorKind::Drop { target, unwind, .. } => target.0 < nb && match unwind {
            Some(u) => u.0 < nb,
            None => true,
        },
        TerminatorKind::Call { target, unwind, .. } => target.0 < nb && match unwind {
            Some(u) => u.0 < nb,
            None => true,
        },
        _ => true,
    }
}

/// Every terminator of the blocks goes to blocks among them.
pub open spec fn cfg_closed(blocks: Seq<BasicBlock>) -> bool {
    forall|i: int| 0 <= i < blocks.len() ==> targets_in(#[trigger] blocks[i].terminator.kind, blocks.len())
}

/// CFG builder for one MIR function.
pub struct MirBuilder {
    pub locals: Vec<LocalDecl>,
    pub blocks: Vec<BasicBlock>,
    pub next_local: usize,
    pub current_block: BlockId,
}

/// The blocks of `b` extend those of `a`: the same blocks, and perhaps more.
pub open spec fn grows(a: &MirBuilder, b: &MirBuilder) -> bool {
    &&& a.blocks@.len() <= b.blocks@.len()
    &&& a.locals@.len() <= b.locals@.len()
    &&& forall|i: int| 0 <= i < a.locals@.len() ==> #[trigger] b.locals@[i] == a.locals@[i]
}

impl MirBuilder {
    /// The builder's state is consistent: the current block exists, the
    /// local counter counts the locals, and the graph is closed.
    pub open spec fn wf(&self) -> bool {
        &&& self.blocks@.len() > 0
        &&& self.current_block.0 < self.blocks@.len()
        &&& self.next_local == self.locals@.len()
        &&& cfg_closed(self.blocks@)
    }

    /// A builder with the return local and one open block.
    pub fn new(ret_ty: TypeId, span: Span) -> (b: MirBuilder)
        ensures
            b.wf(),
            b.locals@.len() == 1,
            b.locals@[0] == (LocalDecl { ty: ret_ty, mutability: Mutability::Imm, span }),
            b.blocks@.len() == 1,
            b.blocks@[0].statements@.len() == 0,
            b.blocks@[0].terminator == (Terminator { kind: TerminatorKind::Unreachable, span }),
            b.current_block.0 == 0,
    {
        let mut locals: Vec<LocalDecl> = Vec::new();
        locals.push(LocalDecl { ty: ret_ty, mutability: Mutability::Imm, span });
        let mut builder = MirBuilder {
            locals,
            blocks: Vec::new(),
            next_local: 1,
            current_block: BlockId::from_usize(0),
        };
        builder.start_block(span);
        builder
    }

    /// A new local; its id is the number of locals before.
    pub fn alloc_local(&mut self, ty: TypeId, mutability: Mutability, span: Span) -> (id: LocalId)
        requires
            old(self).wf(),
        ensures
            final(self).wf(),
            grows(&*old(self), &*final(self)),
            id.0 == old(self).locals@.len() as u32,
            final(self).locals@ == old(self).locals@.push(LocalDecl { ty, mutability, span }),
            final(self).blocks@ == old(self).blocks@,
            final(self).current_block == old(self).current_block,
    {
        let id = LocalId::from_usize(self.next_local);
        self.locals.push(LocalDecl { ty, mutability, span });
        self.next_local = self.locals.len();
        id
    }

    /// Opens a new empty block and makes it current.
    pub fn start_block(&mut self, span: Span)
        requires
            old(self).next_local == old(self).locals@.len(),
            cfg_closed(old(self).blocks@),
        ensures
            final(self).wf(),
            grows(&*old(self), &*final(self)),
            final(self).locals@ == old(self).locals@,
            final(self).blocks@ == old(self).blocks@.push(
                BasicBlock { statements: final(self).blocks@.last().statements, terminator: Terminator { kind: TerminatorKind::Unreachable, span } },
            ),
            final(self).blocks@.last().statements@.len() == 0,
            final(self).current_block.0 == old(self).blocks@.len() as u32,
    {
        let id = BlockId::from_usize(self.blocks.len());
        self.current_block = id;
        self.blocks.push(BasicBlock {
            statements: Vec::new(),
            terminator: Terminator { kind: TerminatorKind::Unreachable, span },
        });
        assert forall|i: int| 0 <= i < self.blocks@.len() implies targets_in(#[trigger] self.blocks@[i].terminator.kind, self.blocks@.len()) by {
            if i < old(self).blocks@.len() {
                assert(targets_in(old(self).blocks@[i].terminator.kind, old(self).blocks@.len()));
            }
        }
    }

    /// A new empty block; the current block stays.
    pub fn new_block(&mut self, span: Span) -> (id: BlockId)
        requires
            old(self).wf(),
        ensures
            final(self).wf(),
            grows(&*old(self), &*final(self)),
            id.0 == old(self).blocks@.len() as u32,
            id.0 < final(self).blocks@.len(),
            final(self).blocks@.len() == old(self).blocks@.len() + 1,
            final(self).blocks@.drop_last() == old(self).blocks@,
            final(self).blocks@.last().statements@.len() == 0,
            final(self).blocks@.last().terminator == (Terminator { kind: TerminatorKind::Unreachable, span }),
            final(self).locals@ == old(self).locals@,
            final(self).current_block == old(self).current_block,
    {
        let id = BlockId::from_usize(self.blocks.len());
        self.blocks.push(BasicBlock {
            statements: Vec::new(),
            terminator: Terminator { kind: TerminatorKind::Unreachable, span },
        });
        assert forall|i: int| 0 <= i < self.blocks@.len() implies targets_in(#[trigger] self.blocks@[i].terminator.kind, self.blocks@.len()) by {
            if i < old(self).blocks@.len() {
                assert(targets_in(old(self).blocks@[i].terminator.kind, old(self).blocks@.len()));
            }
        }
        id
    }

    /// Makes `block` current.
    pub fn switch_to(&mut self, block: BlockId)
        requires
            old(self).wf(),
            block.0 < old(self).blocks@.len(),
        ensures
            final(self).wf(),
            grows(&*old(self), &*final(self)),
            final(self).current_block == block,
            final(self).blocks@ == old(self).blocks@,
            final(self).locals@ == old(self).locals@,
    {
        self.current_block = block;
    }

    /// Appends a statement to the current block.
    pub fn push_stmt(&mut self, kind: StatementKind, span: Span)
        requires
            old(self).wf(),
        ensures
            final(self).wf(),
            grows(&*old(self), &*final(self)),
            final(self).blocks@.len() == old(self).blocks@.len(),
            final(self).locals@ == old(self).locals@,
            final(self).current_block == old(self).current_block,
            final(self).blocks@[old(self).current_block.0 as int].statements@ == old(self).blocks@[old(
                self,
            ).current_block.0 as int].statements@.push(Statement { kind, span }),
            final(self).blocks@[old(self).current_block.0 as int].terminator == old(self).blocks@[old(
                self,
            ).current_block.0 as int].terminator,
            forall|i: int| 0 <= i < old(self).blocks@.len() && i != old(self).current_block.0 ==> #[trigger] final(self).blocks@[i] == old(self).blocks@[i],
    {
        let i = self.current_block.index();
        let mut bb = self.blocks.remove(i);
        bb.statements.push(Statement { kind, span });
        self.blocks.insert(i, bb);
        assert forall|j: int| 0 <= j < self.blocks@.len() implies targets_in(#[trigger] self.blocks@[j].terminator.kind, self.blocks@.len()) by {
            assert(targets_in(old(self).blocks@[j].terminator.kind, old(self).blocks@.len()));
        }
    }

    /// Assigns a constant to `place` in the current block.
    pub fn assign_const(&mut self, place: Place, val: ConstValue, span: Span)
        requires
            old(self).wf(),
        ensures
            final(self).wf(),
            grows(&*old(self), &*final(self)),
            final(self).blocks@.len() == old(self).blocks@.len(),
            final(self).locals@ == old(self).locals@,
            final(self).current_block == old(self).current_block,
            final(self).blocks@[old(self).current_block.0 as int].statements@ == old(self).blocks@[old(
                self,
            ).current_block.0 as int].statements@.push(Statement { kind: StatementKind::Assign { place, rvalue: Rvalue::Use(Operand::Constant(val)) }, span }),
            final(self).blocks@[old(self).current_block.0 as int].terminator == old(self).blocks@[old(
                self,
            ).current_block.0 as int].terminator,
            forall|i: int| 0 <= i < old(self).blocks@.len() && i != old(self).current_block.0 ==> #[trigger] final(self).blocks@[i] == old(self).blocks@[i],
    {
        self.push_stmt(StatementKind::Assign { place, rvalue: Rvalue::Use(Operand::Constant(val)) }, span);
    }

    /// Assigns an operand to `place` in the current block.
    pub fn assign_use(&mut self, place: Place, op: Operand, span: Span)
        requires
            old(self).wf(),
        ensures
            final(self).wf(),
            grows(&*old(self), &*final(self)),
            final(self).blocks@.len() == old(self).blocks@.len(),
            final(self).locals@ == old(self).locals@,
            final(self).current_block == old(self).current_block,
            final(self).blocks@[old(self).current_block.0 as int].statements@ == old(self).blocks@[old(
                self,
            ).current_block.0 as int].statements@.push(Statement { kind: StatementKind::Assign { place, rvalue: Rvalue::Use(op) }, span }),
            final(self).blocks@[old(self).current_block.0 as int].terminator == old(self).blocks@[old(
                self,
            ).current_block.0 as int].terminator,
            forall|i: int| 0 <= i < old(self).blocks@.len() && i != old(self).current_block.0 ==> #[trigger] final(self).blocks@[i] == old(self).blocks@[i],
    {
        self.push_stmt(StatementKind::Assign { place, rvalue: Rvalue::Use(op) }, span);
    }

    /// Assigns an rvalue to `place` in the current block.
    pub fn assign_rvalue(&mut self, place: Place, rvalue: Rvalue, span: Span)
        requires
            old(self).wf(),
        ensures
            final(self).wf(),
            grows(&*old(self), &*final(self)),
            final(self).blocks@.len() == old(self).blocks@.len(),
            final(self).locals@ == old(self).locals@,
            final(self).current_block == old(self).current_block,
            final(self).blocks@[old(self).current_block.0 as int].statements@ == old(self).blocks@[old(
                self,
            ).current_block.0 as int].statements@.push(Statement { kind: StatementKind::Assign { place, rvalue: rvalue }, span }),
            final(self).blocks@[old(self).current_block.0 as int].terminator == old(self).blocks@[old(
                self,
            ).current_block.0 as int].terminator,
            forall|i: int| 0 <= i < old(self).blocks@.len() && i != old(self).current_block.0 ==> #[trigger] final(self).blocks@[i] == old(self).blocks@[i],
    {
        self.push_stmt(StatementKind::Assign { place, rvalue }, span);
    }

    /// Sets the terminator of the current block.
    pub fn terminate(&mut self, kind: TerminatorKind, span: Span)
        requires
            old(self).wf(),
            targets_in(kind, old(self).blocks@.len()),
        ensures
            final(self).wf(),
            grows(&*old(self), &*final(self)),
            final(self).blocks@.len() == old(self).blocks@.len(),
            final(self).locals@ == old(self).locals@,
            final(self).current_block == old(self).current_block,
            final(self).blocks@[old(self).current_block.0 as int].terminator == (Terminator { kind, span }),
            final(self).blocks@[old(self).current_block.0 as int].statements == old(self).blocks@[old(
                self,
            ).current_block.0 as int].statements,
            forall|i: int| 0 <= i < old(self).blocks@.len() && i != old(self).current_block.0 ==> #[trigger] final(self).blocks@[i] == old(self).blocks@[i],
    {
        let i = self.current_block.index();
        let mut bb = self.blocks.remove(i);
        bb.terminator = Terminator { kind, span };
        self.blocks.insert(i, bb);
        assert forall|j: int| 0 <= j < self.blocks@.len() implies targets_in(#[trigger] self.blocks@[j].terminator.kind, self.blocks@.len()) by {
            if j != i {
                assert(targets_in(old(self).blocks@[j].terminator.kind, old(self).blocks@.len()));
            }
        }
    }

    /// The locals and blocks; a last block still without terminator returns.
    pub fn finish(self) -> (r: (Vec<LocalDecl>, Vec<BasicBlock>))
        requires
            self.wf(),
        ensures
            r.0@ == self.locals@,
            r.1@.len() == self.blocks@.len(),
            cfg_closed(r.1@),
            forall|i: int| 0 <= i < self.blocks@.len() - 1 ==> #[trigger] r.1@[i] == self.blocks@[i],
            r.1@.last().statements == self.blocks@.last().statements,
            r.1@.last().terminator.span == self.blocks@.last().terminator.span,
            r.1@.last().terminator.kind == if self.blocks@.last().terminator.kind is Unreachable {
                TerminatorKind::Return
            } else {
                self.blocks@.last().terminator.kind
            },
    {
        let mut blocks = self.blocks;
        let last = blocks.len() - 1;
        if matches!(blocks[last].terminator.kind, TerminatorKind::Unreachable) {
            let mut bb = blocks.remove(last);
            bb.terminator = Terminator { kind: TerminatorKind::Return, span: bb.terminator.span };
            blocks.push(bb);
            assert forall|j: int| 0 <= j < blocks@.len() implies targets_in(#[trigger] blocks@[j].terminator.kind, blocks@.len()) by {
                if j < last {
                    assert(targets_in(self.blocks@[j].terminator.kind, self.blocks@.len()));
                }
            }
        }
        (self.locals, blocks)
    }
}

/// The MIR operator of a HIR unary operator.
pub fn hir_unary_to_mir(op: HirUnOp) -> (r: UnaryOp)
    ensures
        r == match op {
            HirUnOp::Not => UnaryOp::Not,
            HirUnOp::Neg => UnaryOp::Neg,
        },
{
    match op {
        HirUnOp::Not => UnaryOp::Not,
        HirUnOp::Neg => UnaryOp::Neg,
    }
}

/// The MIR operator of a HIR binary operator; `%` is the remainder.
pub open spec fn spec_binop(op: HirBinOp) -> BinOp {
    match op {
        HirBinOp::Add => BinOp::Add,
        HirBinOp::Sub => BinOp::Sub,
        HirBinOp::Mul => BinOp::Mul,
        HirBinOp::Div => BinOp::Div,
        HirBinOp::Eq => BinOp::Eq,
        HirBinOp::NotEq => BinOp::Ne,
        HirBinOp::Lt => BinOp::Lt,
        HirBinOp::LtEq => BinOp::Le,
        HirBinOp::Gt => BinOp::Gt,
        HirBinOp::GtEq => BinOp::Ge,
        HirBinOp::And => BinOp::And,
        HirBinOp::Or => BinOp::Or,
        HirBinOp::Mod => BinOp::Rem,
    }
}

/// The MIR operator of a HIR binary operator.
pub fn hir_binary_to_mir(op: HirBinOp) -> (r: BinOp)
    ensures
        r == spec_binop(op),
{
    match op {
        HirBinOp::Add => BinOp::Add,
        HirBinOp::Sub => BinOp::Sub,
        HirBinOp::Mul => BinOp::Mul,
        HirBinOp::Div => BinOp::Div,
        HirBinOp::Eq => BinOp::Eq,
        HirBinOp::NotEq => BinOp::Ne,
        HirBinOp::Lt => BinOp::Lt,
        HirBinOp::LtEq => BinOp::Le,
        HirBinOp::Gt => BinOp::Gt,
        HirBinOp::GtEq => BinOp::Ge,
        HirBinOp::And => BinOp::And,
        HirBinOp::Or => BinOp::Or,
        HirBinOp::Mod => BinOp::Rem,
    }
}

/// The MIR constant of a HIR constant.
pub fn hir_const_to_mir(c: &HirConst) -> (r: ConstValue)
    ensures
        match (*c, r) {
            (HirConst::Int(n), ConstValue::Int(m)) => n == m,
            (HirConst::Bool(b), ConstValue::Bool(d)) => b == d,
            (HirConst::Float(f), ConstValue::Float(g)) => f@ == g@,
            (HirConst::Str(s), ConstValue::Str(t)) => s@ == t@,
            (HirConst::Unit, ConstValue::Unit) => true,
            _ => false,
        },
{
    match c {
        HirConst::Int(n) => ConstValue::Int(*n),
        HirConst::Bool(b) => ConstValue::Bool(*b),
        HirConst::Float(f) => ConstValue::Float(f.clone()),
        HirConst::Str(s) => ConstValue::Str(s.clone()),
        HirConst::Unit => ConstValue::Unit,
    }
}

/// Lowering keeps each HIR operator's meaning. Run on integers, the MIR
/// operator of `+`, `-` and `*` computes the sum, difference and product
/// where they fit in 64 bits and fails where they do not; that of each
/// comparison gives the truth of the comparison the HIR operator names;
/// that of `/` and `%` (a non-zero divisor, a quotient that fits) gives a
/// quotient `q` and remainder `m` with `q * b + m == a`, `m` smaller than
/// `b` in size and zero or of the sign of `a`. Run on booleans, those of
/// `and` and `or` give the conjunction and the disjunction.
pub proof fn lowered_operators_keep_their_meaning(a: i64, b: i64, p: bool, q: bool)
    ensures
        binary_spec(spec_binop(HirBinOp::Add), VVal::Int(a), VVal::Int(b)) == (if i64::MIN <= a + b <= i64::MAX {
            Some(VVal::Int((a + b) as i64))
        } else {
            None
        }),
        binary_spec(spec_binop(HirBinOp::Sub), VVal::Int(a), VVal::Int(b)) == (if i64::MIN <= a - b <= i64::MAX {
            Some(VVal::Int((a - b) as i64))
        } else {
            None
        }),
        binary_spec(spec_binop(HirBinOp::Mul), VVal::Int(a), VVal::Int(b)) == (if i64::MIN <= a * b <= i64::MAX {
            Some(VVal::Int((a * b) as i64))
        } else {
            None
        }),
        binary_spec(spec_binop(HirBinOp::Eq), VVal::Int(a), VVal::Int(b)) == Some(VVal::Bool(a == b)),
        binary_spec(spec_binop(HirBinOp::NotEq), VVal::Int(a), VVal::Int(b)) == Some(VVal::Bool(a != b)),
        binary_spec(spec_binop(HirBinOp::Lt), VVal::Int(a), VVal::Int(b)) == Some(VVal::Bool(a < b)),
        binary_spec(spec_binop(HirBinOp::LtEq), VVal::Int(a), VVal::Int(b)) == Some(VVal::Bool(a <= b)),
        binary_spec(spec_binop(HirBinOp::Gt), VVal::Int(a), VVal::Int(b)) == Some(VVal::Bool(a > b)),
        binary_spec(spec_binop(HirBinOp::GtEq), VVal::Int(a), VVal::Int(b)) == Some(VVal::Bool(a >= b)),
        binary_spec(spec_binop(HirBinOp::And), VVal::Bool(p), VVal::Bool(q)) == Some(VVal::Bool(p && q)),
        binary_spec(spec_binop(HirBinOp::Or), VVal::Bool(p), VVal::Bool(q)) == Some(VVal::Bool(p || q)),
        b != 0 && !(a == i64::MIN && b == -1) ==> {
            &&& binary_spec(spec_binop(HirBinOp::Div), VVal::Int(a), VVal::Int(b)) matches Some(VVal::Int(qq))
            &&& binary_spec(spec_binop(HirBinOp::Mod), VVal::Int(a), VVal::Int(b)) matches Some(VVal::Int(m))
            &&& qq * b + m == a
            &&& -abs(b as int) < m < abs(b as int)
            &&& (m == 0 || (m < 0) == (a < 0))
        },
{
    integer_division_truncates(a, b);
}

} // verus!
