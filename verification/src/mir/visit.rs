use vstd::prelude::*;

use crate::mir::body::{BasicBlock, MirBody};
use crate::mir::statement::Statement;
use crate::mir::terminator::Terminator;

verus! {

/// A walk over the blocks of a MIR body.
///
/// What a hook does to the visitor is named by the `after_*` function of
/// its kind of node. A visitor implements every hook; a hook that does
/// nothing keeps its `after_*`, which leaves the visitor as it is, and a
/// hook that does something overrides its `after_*` to say what.
///
/// The hooks have no default bodies: a default body would be held to the
/// hook's contract for every implementation, and an empty one cannot meet
/// an `after_*` that an implementation overrides. An implementation
/// outside Verus cannot override an `after_*`, so its contract says that
/// its hooks leave the visitor unchanged; one whose hooks change the
/// visitor does not meet it, and what the walks state holds only of
/// implementations that do.
pub trait MirVisitor: Sized {
    /// The visitor after its block hook saw block `bb`.
    open spec fn after_block(self, bb: usize, block: BasicBlock) -> Self {
        self
    }

    /// The visitor after its statement hook saw `stmt`.
    open spec fn after_statement(self, stmt: Statement) -> Self {
        self
    }

    /// The visitor after its terminator hook saw `term`.
    open spec fn after_terminator(self, term: Terminator) -> Self {
        self
    }

    fn visit_block(&mut self, bb: usize, block: &BasicBlock)
        ensures
            *final(self) == old(self).after_block(bb, *block),
    ;

    fn visit_statement(&mut self, stmt: &Statement)
        ensures
            *final(self) == old(self).after_statement(*stmt),
    ;

    fn visit_terminator(&mut self, term: &Terminator)
        ensures
            *final(self) == old(self).after_terminator(*term),
    ;
}

/// The visitor after its statement hook saw `ss`, in order.
pub open spec fn statements_visited<V: MirVisitor>(v: V, ss: Seq<Statement>) -> V
    decreases ss.len(),
{
    if ss.len() == 0 {
        v
    } else {
        statements_visited(v, ss.drop_last()).after_statement(ss.last())
    }
}

/// The visitor after the hooks saw blocks `bs`, in order, each the block,
/// then its statements in order, then its terminator.
pub open spec fn blocks_visited<V: MirVisitor>(v: V, bs: Seq<BasicBlock>) -> V
    decreases bs.len(),
{
    if bs.len() == 0 {
        v
    } else {
        let w = blocks_visited(v, bs.drop_last()).after_block((bs.len() - 1) as usize, bs.last());
        statements_visited(w, bs.last().statements@).after_terminator(bs.last().terminator)
    }
}

/// Visits each block in order: the block, then its statements in order,
/// then its terminator.
pub fn visit_body<V: MirVisitor>(v: &mut V, body: &MirBody)
    ensures
        *final(v) == blocks_visited(*old(v), body.blocks@),
{
    let mut i: usize = 0;
    while i < body.blocks.len()
        invariant
            i <= body.blocks@.len(),
            *v == blocks_visited(*old(v), body.blocks@.subrange(0, i as int)),
        decreases body.blocks@.len() - i,
    {
        let block = &body.blocks[i];
        let ghost v0 = *v;
        v.visit_block(i, block);
        let ghost v1 = *v;
        let mut j: usize = 0;
        while j < block.statements.len()
            invariant
                j <= block.statements@.len(),
                *v == statements_visited(v1, block.statements@.subrange(0, j as int)),
            decreases block.statements@.len() - j,
        {
            v.visit_statement(&block.statements[j]);
            proof {
                assert(block.statements@.subrange(0, j + 1).drop_last() =~= block.statements@.subrange(0, j as int));
            }
            j = j + 1;
        }
        assert(block.statements@.subrange(0, block.statements@.len() as int) =~= block.statements@);
        v.visit_terminator(&block.terminator);
        proof {
            let bs = body.blocks@.subrange(0, i + 1);
            assert(bs.drop_last() =~= body.blocks@.subrange(0, i as int));
            assert(bs.last() == *block);
        }
        i = i + 1;
    }
    assert(body.blocks@.subrange(0, body.blocks@.len() as int) =~= body.blocks@);
}

} // verus!
