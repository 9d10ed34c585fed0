//! The visitor of the AST walks.

use vstd::prelude::*;

use crate::ast::arena::Arena;
use crate::ast::expr::Expr;
use crate::ast::item::Item;
use crate::ast::pat::Pat;
use crate::ast::stmt::Stmt;
use crate::ast::ty::Ty;
use crate::ast::Module;
use crate::ids::{ExprId, ItemId, PatId, StmtId, TyId};

verus! {

/// Visitor over AST nodes stored in an arena.
///
/// What a hook does to the visitor is named by the `after_*` function of
/// its kind of node. A visitor implements every hook; a hook that does
/// nothing keeps its `after_*`, which leaves the visitor as it is, and a
/// hook that does something overrides its `after_*` to say what. The walks
/// are stated over these names, so a walk's effect on the visitor is that
/// of its hook calls, in order.
///
/// The hooks have no default bodies: a default body would be held to the
/// hook's contract for every implementation, and an empty one cannot meet
/// an `after_*` that an implementation overrides. An implementation
/// outside Verus cannot override an `after_*`, so its contract says that
/// its hooks leave the visitor unchanged; one whose hooks change the
/// visitor (a counter, say) does not meet it, and what the walks state
/// holds only of implementations that do.
pub trait Visitor: Sized {
    /// The visitor after its module hook saw `module`.
    open spec fn after_module(self, module: Module, arena: Arena) -> Self {
        self
    }

    /// The visitor after its item hook saw `item`.
    open spec fn after_item(self, item: Item, arena: Arena) -> Self {
        self
    }

    /// The visitor after its statement hook saw `stmt`.
    open spec fn after_stmt(self, stmt: Stmt, arena: Arena) -> Self {
        self
    }

    /// The visitor after its expression hook saw `expr`.
    open spec fn after_expr(self, expr: Expr, arena: Arena) -> Self {
        self
    }

    /// The visitor after its pattern hook saw `pat`.
    open spec fn after_pat(self, pat: Pat, arena: Arena) -> Self {
        self
    }

    /// The visitor after its type hook saw `ty`.
    open spec fn after_ty(self, ty: Ty, arena: Arena) -> Self {
        self
    }

    fn visit_module(&mut self, module: &Module, arena: &Arena)
        ensures
            *final(self) == old(self).after_module(*module, *arena),
    ;

    fn visit_item(&mut self, item: &Item, arena: &Arena)
        ensures
            *final(self) == old(self).after_item(*item, *arena),
    ;

    fn visit_stmt(&mut self, stmt: &Stmt, arena: &Arena)
        ensures
            *final(self) == old(self).after_stmt(*stmt, *arena),
    ;

    fn visit_expr(&mut self, expr: &Expr, arena: &Arena)
        ensures
            *final(self) == old(self).after_expr(*expr, *arena),
    ;

    fn visit_pat(&mut self, pat: &Pat, arena: &Arena)
        ensures
            *final(self) == old(self).after_pat(*pat, *arena),
    ;

    fn visit_ty(&mut self, ty: &Ty, arena: &Arena)
        ensures
            *final(self) == old(self).after_ty(*ty, *arena),
    ;
}

/// One call of a visitor hook: on the module, or on the node with that id.
pub enum Visit {
    Module,
    Item(ItemId),
    Stmt(StmtId),
    Expr(ExprId),
    Pat(PatId),
    Ty(TyId),
}

/// The visitor after the hook call `x` on a node of `a` (the module's own
/// call is stated apart, by `after_module`).
pub open spec fn visit_step<V: Visitor>(v: V, a: Arena, x: Visit) -> V {
    match x {
        Visit::Module => v,
        Visit::Item(i) => v.after_item(a.items()[i.0 as int], a),
        Visit::Stmt(s) => v.after_stmt(a.stmts()[s.0 as int], a),
        Visit::Expr(e) => v.after_expr(a.exprs()[e.0 as int], a),
        Visit::Pat(p) => v.after_pat(a.pats()[p.0 as int], a),
        Visit::Ty(t) => v.after_ty(a.tys()[t.0 as int], a),
    }
}

/// The visitor after the hook calls `t`, in order, starting from `v`.
pub open spec fn replay<V: Visitor>(v: V, a: Arena, t: Seq<Visit>) -> V
    decreases t.len(),
{
    if t.len() == 0 {
        v
    } else {
        visit_step(replay(v, a, t.drop_last()), a, t.last())
    }
}

/// Replaying two runs of calls is replaying the first, then the second.
pub broadcast proof fn lemma_replay_concat<V: Visitor>(v: V, a: Arena, t1: Seq<Visit>, t2: Seq<Visit>)
    ensures
        #[trigger] replay(v, a, t1 + t2) == replay(replay(v, a, t1), a, t2),
    decreases t2.len(),
{
    if t2.len() == 0 {
        assert(t1 + t2 =~= t1);
    } else {
        lemma_replay_concat(v, a, t1, t2.drop_last());
        assert((t1 + t2).drop_last() =~= t1 + t2.drop_last());
        assert((t1 + t2).last() == t2.last());
    }
}

/// Replaying one call is that call's step.
pub broadcast proof fn lemma_replay_one<V: Visitor>(v: V, a: Arena, x: Visit)
    ensures
        #[trigger] replay(v, a, seq![x]) == visit_step(v, a, x),
{
    assert(seq![x].drop_last() =~= Seq::<Visit>::empty());
    assert(replay(v, a, seq![x].drop_last()) == v);
    assert(seq![x].last() == x);
}

/// Replaying no call leaves the visitor as it is.
pub broadcast proof fn lemma_replay_none<V: Visitor>(v: V, a: Arena)
    ensures
        #[trigger] replay(v, a, Seq::<Visit>::empty()) == v,
{
}

pub broadcast group group_replay {
    lemma_replay_concat,
    lemma_replay_one,
    lemma_replay_none,
}


} // verus!
