//! Walks over the AST that call a visitor at every node, parents before
//! their children and children in source order.

use vstd::prelude::*;

use crate::ast::arena::{
    expr_kind_ok, expr_ok, exprs_ok, item_kind_ok, item_ok, items_ok, pat_kind_ok, pat_ok, pats_ok,
    path_ok, stmt_kind_ok, stmt_ok, stmts_ok, ty_kind_ok, ty_ok, tys_ok, Arena,
};
use crate::ast::expr::{Expr, ExprKind, FieldExpr, Kwarg, LambdaParam};
use crate::ast::item::{
    ExternItem, FieldDef, GenericParam, ImplItem, InterfaceItem, Item, ItemKind, Param, Variant,
    VariantFields,
};
use crate::ast::pat::{Pat, PatField, PatKind};
use crate::ast::path::{Path, PathSegment};
use crate::ast::stmt::{ElifArm, MatchArm, Stmt, StmtKind};
use crate::ast::ty::{Ty, TyKind};
use crate::ast::Module;
use crate::ids::{ExprId, ItemId, PatId, StmtId, TyId};
pub use crate::ast::visitor::{replay, visit_step, Visit, Visitor};

verus! {

broadcast use crate::ast::visitor::group_replay;

/// Walks a module and all nested nodes: the hook calls are those of
/// `trace_module`, the module first, then its items in preorder.
pub fn walk_module<V: Visitor>(v: &mut V, module: &Module, arena: &Arena) -> (t: Ghost<Seq<Visit>>)
    requires
        arena.wf(),
        items_ok(arena, module.items@, arena.next_rank()),
    ensures
        *final(v) == replay(old(v).after_module(*module, *arena), *arena, t@),
        t@ == trace_module(arena, *module),
{
    v.visit_module(module, arena);
    let ti = walk_item_list(v, &module.items, arena, Ghost(arena.next_rank()));
    Ghost(seq![Visit::Module] + ti@)
}

fn walk_item_list<V: Visitor>(v: &mut V, ids: &Vec<ItemId>, arena: &Arena, Ghost(r): Ghost<nat>) -> (t: Ghost<Seq<Visit>>)
    requires
        arena.wf(),
        items_ok(arena, ids@, r),
    ensures
        *final(v) == replay(*old(v), *arena, t@),
        t@ == trace_items(arena, ids@, r),
    decreases r, 1nat, ids@.len(),
{
    let ghost mut tl: Seq<Visit> = Seq::empty();
    let mut i: usize = 0;
    let ghost vl = *v;
    while i < ids.len()
        invariant
            *v == replay(vl, *arena, tl),
            arena.wf(),
            i <= ids@.len(),
            items_ok(arena, ids@, r),
            tl == trace_items(arena, ids@.subrange(0, i as int), r),
        decreases ids@.len() - i,
    {
        assert(item_ok(arena, ids@[i as int], r));
        let ti = walk_item(v, ids[i], arena);
        proof {
            assert(sub_item(arena, ids@[i as int], r) == ti@);
            assert(ids@.subrange(0, i + 1).last() == ids@[i as int]);
            assert(ids@.subrange(0, i + 1).drop_last() =~= ids@.subrange(0, i as int));
            tl = tl + ti@;
        }
        i = i + 1;
    }
    assert(ids@.subrange(0, ids@.len() as int) =~= ids@);
    Ghost(tl)
}

/// Walks an item and its nested bodies: the hook calls are those of
/// `trace_item`.
pub fn walk_item<V: Visitor>(v: &mut V, id: ItemId, arena: &Arena) -> (t: Ghost<Seq<Visit>>)
    requires
        arena.wf(),
        id.0 < arena.items().len(),
    ensures
        *final(v) == replay(*old(v), *arena, t@),
        t@ == trace_item(arena, id),
    decreases arena.item_rank(id.0 as int) + 1, 0nat, 0nat,
{
    let ghost r = arena.item_rank(id.0 as int);
    let item = arena.item(id);
    assert(item_kind_ok(arena, item.kind, r));
    v.visit_item(item, arena);
    let ghost mut rest: Seq<Visit> = Seq::empty();
    match &item.kind {
        ItemKind::Function { body, .. } => {
            let tb = walk_stmt_list(v, body, arena, Ghost(r));
            proof {
                rest = tb@;
            }
        },
        ItemKind::Class { body, .. } => {
            let tb = walk_item_list(v, body, arena, Ghost(r));
            proof {
                rest = tb@;
            }
        },
        ItemKind::Const { value, .. } => {
            let tb = walk_expr(v, *value, arena);
            proof {
                rest = tb@;
            }
        },
        ItemKind::Module { items, .. } => {
            let tb = walk_item_list(v, items, arena, Ghost(r));
            proof {
                rest = tb@;
            }
        },
        ItemKind::Impl { items, .. } => {
            let ghost mut tl: Seq<Visit> = Seq::empty();
            let mut i: usize = 0;
            let ghost vl = *v;
            while i < items.len()
                invariant
                    *v == replay(vl, *arena, tl),
                    arena.wf(),
                    i <= items@.len(),
                    r == arena.item_rank(id.0 as int),
                    id.0 < arena.items().len(),
                    crate::ast::arena::impl_items_ok(arena, items@, r),
                    tl == trace_impl_items(arena, items@.subrange(0, i as int), r),
                decreases items@.len() - i,
            {
                assert(crate::ast::arena::impl_item_ok(arena, items@[i as int], r));
                let ti = walk_impl_item(v, &items[i], arena, Ghost(r));
                proof {
                    assert(items@.subrange(0, i + 1).drop_last() =~= items@.subrange(0, i as int));
                    tl = tl + ti@;
                }
                i = i + 1;
            }
            assert(items@.subrange(0, items@.len() as int) =~= items@);
            proof {
                rest = tl;
            }
        },
        ItemKind::Interface { items, .. } => {
            let ghost mut tl: Seq<Visit> = Seq::empty();
            let mut i: usize = 0;
            let ghost vl = *v;
            while i < items.len()
                invariant
                    *v == replay(vl, *arena, tl),
                    arena.wf(),
                    i <= items@.len(),
                    r == arena.item_rank(id.0 as int),
                    id.0 < arena.items().len(),
                    crate::ast::arena::interface_items_ok(arena, items@, r),
                    tl == trace_interface_items(arena, items@.subrange(0, i as int), r),
                decreases items@.len() - i,
            {
                assert(crate::ast::arena::interface_item_ok(arena, items@[i as int], r));
                let ti = walk_interface_item(v, &items[i], arena, Ghost(r));
                proof {
                    assert(items@.subrange(0, i + 1).drop_last() =~= items@.subrange(0, i as int));
                    tl = tl + ti@;
                }
                i = i + 1;
            }
            assert(items@.subrange(0, items@.len() as int) =~= items@);
            proof {
                rest = tl;
            }
        },
        ItemKind::ExternBlock { items, .. } => {
            let mut i: usize = 0;
            let ghost vl = *v;
            while i < items.len()
                invariant
                    *v == vl,
                    arena.wf(),
                    i <= items@.len(),
                    r == arena.item_rank(id.0 as int),
                    id.0 < arena.items().len(),
                decreases items@.len() - i,
            {
                walk_extern_item(v, &items[i], arena);
                i = i + 1;
            }
        },
        ItemKind::Struct { .. } => {},
        ItemKind::Enum { .. } => {},
        ItemKind::Import { .. } => {},
    }
    let ghost t = seq![Visit::Item(id)] + rest;
    assert(t =~= trace_item(arena, id));
    Ghost(t)
}

fn walk_impl_item<V: Visitor>(v: &mut V, item: &ImplItem, arena: &Arena, Ghost(r): Ghost<nat>) -> (t: Ghost<Seq<Visit>>)
    requires
        arena.wf(),
        crate::ast::arena::impl_item_ok(arena, *item, r),
    ensures
        *final(v) == replay(*old(v), *arena, t@),
        t@ == match *item {
            ImplItem::Function { body, .. } => trace_stmts(arena, body@, r),
            ImplItem::Const { value, .. } => sub_expr(arena, value, r),
            ImplItem::Type { .. } => Seq::<Visit>::empty(),
        },
    decreases r, 2nat, 0nat,
{
    match item {
        ImplItem::Function { body, .. } => walk_stmt_list(v, body, arena, Ghost(r)),
        ImplItem::Const { value, .. } => walk_expr(v, *value, arena),
        ImplItem::Type { .. } => Ghost(Seq::empty()),
    }
}

fn walk_interface_item<V: Visitor>(v: &mut V, item: &InterfaceItem, arena: &Arena, Ghost(r): Ghost<nat>) -> (t: Ghost<Seq<Visit>>)
    requires
        arena.wf(),
        crate::ast::arena::interface_item_ok(arena, *item, r),
    ensures
        *final(v) == replay(*old(v), *arena, t@),
        t@ == match *item {
            InterfaceItem::Function { default_body, .. } => match default_body {
                Some(body) => trace_stmts(arena, body@, r),
                None => Seq::<Visit>::empty(),
            },
            InterfaceItem::Type { ty, .. } => sub_opt_ty(arena, ty, r),
        },
    decreases r, 2nat, 0nat,
{
    match item {
        InterfaceItem::Function { default_body, .. } => {
            if let Some(body) = default_body {
                walk_stmt_list(v, body, arena, Ghost(r))
            } else {
                Ghost(Seq::empty())
            }
        },
        InterfaceItem::Type { ty, .. } => {
            if let Some(t) = ty {
                walk_ty(v, *t, arena)
            } else {
                Ghost(Seq::empty())
            }
        },
    }
}

fn walk_extern_item<V: Visitor>(v: &mut V, item: &ExternItem, arena: &Arena)
    ensures
        *final(v) == *old(v),
{
}

/// Walks a statement and its nested expressions, patterns and statements:
/// the hook calls are those of `trace_stmt`.
pub fn walk_stmt<V: Visitor>(v: &mut V, id: StmtId, arena: &Arena) -> (t: Ghost<Seq<Visit>>)
    requires
        arena.wf(),
        id.0 < arena.stmts().len(),
    ensures
        *final(v) == replay(*old(v), *arena, t@),
        t@ == trace_stmt(arena, id),
    decreases arena.stmt_rank(id.0 as int) + 1, 0nat, 0nat,
{
    let ghost r = arena.stmt_rank(id.0 as int);
    let stmt = arena.stmt(id);
    assert(stmt_kind_ok(arena, stmt.kind, r));
    v.visit_stmt(stmt, arena);
    let ghost mut rest: Seq<Visit> = Seq::empty();
    match &stmt.kind {
        StmtKind::Expr(e) => {
            let t1 = walk_expr(v, *e, arena);
            proof {
                rest = t1@;
            }
        },
        StmtKind::Assign { targets, value } => {
            let t1 = walk_pat_list(v, targets, arena, Ghost(r));
            let t2 = walk_expr(v, *value, arena);
            proof {
                rest = t1@ + t2@;
            }
        },
        StmtKind::AnnAssign { target, ty, value } => {
            let t1 = walk_pat(v, *target, arena);
            let t2 = walk_ty(v, *ty, arena);
            proof {
                rest = t1@ + t2@;
            }
            if let Some(val) = value {
                let t3 = walk_expr(v, *val, arena);
                proof {
                    rest = rest + t3@;
                }
            }
        },
        StmtKind::Return(e) => {
            if let Some(e) = e {
                let t1 = walk_expr(v, *e, arena);
                proof {
                    rest = t1@;
                }
            }
        },
        StmtKind::Raise(e) => {
            let t1 = walk_expr(v, *e, arena);
            proof {
                rest = t1@;
            }
        },
        StmtKind::Assert { test, msg } => {
            let t1 = walk_expr(v, *test, arena);
            proof {
                rest = t1@;
            }
            if let Some(m) = msg {
                let t2 = walk_expr(v, *m, arena);
                proof {
                    rest = rest + t2@;
                }
            }
        },
        StmtKind::Pass => {},
        StmtKind::Break(_) => {},
        StmtKind::Continue(_) => {},
        StmtKind::While { test, body } => {
            let t1 = walk_expr(v, *test, arena);
            let t2 = walk_stmt_list(v, body, arena, Ghost(r));
            proof {
                rest = t1@ + t2@;
            }
        },
        StmtKind::For { pat, iter, body } => {
            let t1 = walk_pat(v, *pat, arena);
            let t2 = walk_expr(v, *iter, arena);
            let t3 = walk_stmt_list(v, body, arena, Ghost(r));
            proof {
                rest = t1@ + t2@ + t3@;
            }
        },
        StmtKind::If { test, then_body, elifs, else_body } => {
            let t1 = walk_expr(v, *test, arena);
            let t2 = walk_stmt_list(v, then_body, arena, Ghost(r));
            let ghost mut tl: Seq<Visit> = Seq::empty();
            let mut i: usize = 0;
            let ghost vl = *v;
            while i < elifs.len()
                invariant
                    *v == replay(vl, *arena, tl),
                    arena.wf(),
                    i <= elifs@.len(),
                    r == arena.stmt_rank(id.0 as int),
                    id.0 < arena.stmts().len(),
                    crate::ast::arena::elifs_ok(arena, elifs@, r),
                    tl == trace_elifs(arena, elifs@.subrange(0, i as int), r),
                decreases elifs@.len() - i,
            {
                assert(expr_ok(arena, elifs@[i as int].test, r) && stmts_ok(arena, elifs@[i as int].body@, r));
                let ta = walk_expr(v, elifs[i].test, arena);
                let tb = walk_stmt_list(v, &elifs[i].body, arena, Ghost(r));
                proof {
                    assert(sub_expr(arena, elifs@[i as int].test, r) == ta@);
                    assert(elifs@.subrange(0, i + 1).last() == elifs@[i as int]);
                    assert(elifs@.subrange(0, i + 1).drop_last() =~= elifs@.subrange(0, i as int));
                    tl = tl + ta@ + tb@;
                }
                i = i + 1;
            }
            assert(elifs@.subrange(0, elifs@.len() as int) =~= elifs@);
            proof {
                rest = t1@ + t2@ + tl;
            }
            if let Some(b) = else_body {
                let t3 = walk_stmt_list(v, b, arena, Ghost(r));
                proof {
                    rest = rest + t3@;
                }
            }
        },
        StmtKind::Match { scrutinee, arms } => {
            let t1 = walk_expr(v, *scrutinee, arena);
            let ghost mut tl: Seq<Visit> = Seq::empty();
            let mut i: usize = 0;
            let ghost vl = *v;
            while i < arms.len()
                invariant
                    *v == replay(vl, *arena, tl),
                    arena.wf(),
                    i <= arms@.len(),
                    r == arena.stmt_rank(id.0 as int),
                    id.0 < arena.stmts().len(),
                    crate::ast::arena::arms_ok(arena, arms@, r),
                    tl == trace_arms(arena, arms@.subrange(0, i as int), r),
                decreases arms@.len() - i,
            {
                assert(pat_ok(arena, arms@[i as int].pat, r) && crate::ast::arena::opt_expr_ok(arena, arms@[i as int].guard, r)
                    && stmts_ok(arena, arms@[i as int].body@, r));
                let ta = walk_pat(v, arms[i].pat, arena);
                let ghost mut tg: Seq<Visit> = Seq::empty();
                if let Some(g) = arms[i].guard {
                    let tgg = walk_expr(v, g, arena);
                    proof {
                        tg = tgg@;
                    }
                }
                let tb = walk_stmt_list(v, &arms[i].body, arena, Ghost(r));
                proof {
                    assert(arms@.subrange(0, i + 1).drop_last() =~= arms@.subrange(0, i as int));
                    assert(tg == sub_opt_expr(arena, arms@[i as int].guard, r));
                    tl = tl + ta@ + tg + tb@;
                }
                i = i + 1;
            }
            assert(arms@.subrange(0, arms@.len() as int) =~= arms@);
            proof {
                rest = t1@ + tl;
            }
        },
    }
    let ghost t = seq![Visit::Stmt(id)] + rest;
    assert(t =~= trace_stmt(arena, id));
    Ghost(t)
}

fn walk_stmt_list<V: Visitor>(v: &mut V, ids: &Vec<StmtId>, arena: &Arena, Ghost(r): Ghost<nat>) -> (t: Ghost<Seq<Visit>>)
    requires
        arena.wf(),
        stmts_ok(arena, ids@, r),
    ensures
        *final(v) == replay(*old(v), *arena, t@),
        t@ == trace_stmts(arena, ids@, r),
    decreases r, 1nat, ids@.len(),
{
    let ghost mut tl: Seq<Visit> = Seq::empty();
    let mut i: usize = 0;
    let ghost vl = *v;
    while i < ids.len()
        invariant
            *v == replay(vl, *arena, tl),
            arena.wf(),
            i <= ids@.len(),
            stmts_ok(arena, ids@, r),
            tl == trace_stmts(arena, ids@.subrange(0, i as int), r),
        decreases ids@.len() - i,
    {
        assert(stmt_ok(arena, ids@[i as int], r));
        let ti = walk_stmt(v, ids[i], arena);
        proof {
            assert(sub_stmt(arena, ids@[i as int], r) == ti@);
            assert(ids@.subrange(0, i + 1).last() == ids@[i as int]);
            assert(ids@.subrange(0, i + 1).drop_last() =~= ids@.subrange(0, i as int));
            tl = tl + ti@;
        }
        i = i + 1;
    }
    assert(ids@.subrange(0, ids@.len() as int) =~= ids@);
    Ghost(tl)
}

fn walk_expr_list<V: Visitor>(v: &mut V, ids: &Vec<ExprId>, arena: &Arena, Ghost(r): Ghost<nat>) -> (t: Ghost<Seq<Visit>>)
    requires
        arena.wf(),
        exprs_ok(arena, ids@, r),
    ensures
        *final(v) == replay(*old(v), *arena, t@),
        t@ == trace_exprs(arena, ids@, r),
    decreases r, 1nat, ids@.len(),
{
    let ghost mut tl: Seq<Visit> = Seq::empty();
    let mut i: usize = 0;
    let ghost vl = *v;
    while i < ids.len()
        invariant
            *v == replay(vl, *arena, tl),
            arena.wf(),
            i <= ids@.len(),
            exprs_ok(arena, ids@, r),
            tl == trace_exprs(arena, ids@.subrange(0, i as int), r),
        decreases ids@.len() - i,
    {
        assert(expr_ok(arena, ids@[i as int], r));
        let ti = walk_expr(v, ids[i], arena);
        proof {
            assert(sub_expr(arena, ids@[i as int], r) == ti@);
            assert(ids@.subrange(0, i + 1).last() == ids@[i as int]);
            assert(ids@.subrange(0, i + 1).drop_last() =~= ids@.subrange(0, i as int));
            tl = tl + ti@;
        }
        i = i + 1;
    }
    assert(ids@.subrange(0, ids@.len() as int) =~= ids@);
    Ghost(tl)
}

fn walk_pat_list<V: Visitor>(v: &mut V, ids: &Vec<PatId>, arena: &Arena, Ghost(r): Ghost<nat>) -> (t: Ghost<Seq<Visit>>)
    requires
        arena.wf(),
        pats_ok(arena, ids@, r),
    ensures
        *final(v) == replay(*old(v), *arena, t@),
        t@ == trace_pats(arena, ids@, r),
    decreases r, 1nat, ids@.len(),
{
    let ghost mut tl: Seq<Visit> = Seq::empty();
    let mut i: usize = 0;
    let ghost vl = *v;
    while i < ids.len()
        invariant
            *v == replay(vl, *arena, tl),
            arena.wf(),
            i <= ids@.len(),
            pats_ok(arena, ids@, r),
            tl == trace_pats(arena, ids@.subrange(0, i as int), r),
        decreases ids@.len() - i,
    {
        assert(pat_ok(arena, ids@[i as int], r));
        let ti = walk_pat(v, ids[i], arena);
        proof {
            assert(sub_pat(arena, ids@[i as int], r) == ti@);
            assert(ids@.subrange(0, i + 1).last() == ids@[i as int]);
            assert(ids@.subrange(0, i + 1).drop_last() =~= ids@.subrange(0, i as int));
            tl = tl + ti@;
        }
        i = i + 1;
    }
    assert(ids@.subrange(0, ids@.len() as int) =~= ids@);
    Ghost(tl)
}

fn walk_ty_list<V: Visitor>(v: &mut V, ids: &Vec<TyId>, arena: &Arena, Ghost(r): Ghost<nat>) -> (t: Ghost<Seq<Visit>>)
    requires
        arena.wf(),
        tys_ok(arena, ids@, r),
    ensures
        *final(v) == replay(*old(v), *arena, t@),
        t@ == trace_tys(arena, ids@, r),
    decreases r, 1nat, ids@.len(),
{
    let ghost mut tl: Seq<Visit> = Seq::empty();
    let mut i: usize = 0;
    let ghost vl = *v;
    while i < ids.len()
        invariant
            *v == replay(vl, *arena, tl),
            arena.wf(),
            i <= ids@.len(),
            tys_ok(arena, ids@, r),
            tl == trace_tys(arena, ids@.subrange(0, i as int), r),
        decreases ids@.len() - i,
    {
        assert(ty_ok(arena, ids@[i as int], r));
        let ti = walk_ty(v, ids[i], arena);
        proof {
            assert(sub_ty(arena, ids@[i as int], r) == ti@);
            assert(ids@.subrange(0, i + 1).last() == ids@[i as int]);
            assert(ids@.subrange(0, i + 1).drop_last() =~= ids@.subrange(0, i as int));
            tl = tl + ti@;
        }
        i = i + 1;
    }
    assert(ids@.subrange(0, ids@.len() as int) =~= ids@);
    Ghost(tl)
}

/// Walks an expression and its nested sub-expressions: the hook calls are
/// those of `trace_expr`, the expression first, then its parts in order.
pub fn walk_expr<V: Visitor>(v: &mut V, id: ExprId, arena: &Arena) -> (t: Ghost<Seq<Visit>>)
    requires
        arena.wf(),
        id.0 < arena.exprs().len(),
    ensures
        *final(v) == replay(*old(v), *arena, t@),
        t@ == trace_expr(arena, id),
    decreases arena.expr_rank(id.0 as int) + 1, 0nat, 0nat,
{
    let ghost r = arena.expr_rank(id.0 as int);
    let expr = arena.expr(id);
    assert(expr_kind_ok(arena, expr.kind, r));
    v.visit_expr(expr, arena);
    let ghost mut rest: Seq<Visit> = Seq::empty();
    match &expr.kind {
        ExprKind::Literal(_) => {},
        ExprKind::Path(_) => {},
        ExprKind::Call { func, args, kwargs } => {
            let t1 = walk_expr(v, *func, arena);
            let t2 = walk_expr_list(v, args, arena, Ghost(r));
            let ghost mut tl: Seq<Visit> = Seq::empty();
            let mut i: usize = 0;
            let ghost vl = *v;
            while i < kwargs.len()
                invariant
                    *v == replay(vl, *arena, tl),
                    arena.wf(),
                    i <= kwargs@.len(),
                    r == arena.expr_rank(id.0 as int),
                    id.0 < arena.exprs().len(),
                    crate::ast::arena::kwargs_ok(arena, kwargs@, r),
                    tl == trace_kwargs(arena, kwargs@.subrange(0, i as int), r),
                decreases kwargs@.len() - i,
            {
                assert(expr_ok(arena, kwargs@[i as int].value, r));
                let ti = walk_expr(v, kwargs[i].value, arena);
                proof {
                    assert(sub_expr(arena, kwargs@[i as int].value, r) == ti@);
                    assert(kwargs@.subrange(0, i + 1).last() == kwargs@[i as int]);
                    assert(kwargs@.subrange(0, i + 1).drop_last() =~= kwargs@.subrange(0, i as int));
                    tl = tl + ti@;
                }
                i = i + 1;
            }
            assert(kwargs@.subrange(0, kwargs@.len() as int) =~= kwargs@);
            proof {
                rest = t1@ + t2@ + tl;
            }
        },
        ExprKind::MethodCall { receiver, args, .. } => {
            let t1 = walk_expr(v, *receiver, arena);
            let t2 = walk_expr_list(v, args, arena, Ghost(r));
            proof {
                rest = t1@ + t2@;
            }
        },
        ExprKind::Field { base, .. } => {
            let t1 = walk_expr(v, *base, arena);
            proof {
                rest = t1@;
            }
        },
        ExprKind::Index { base, index } => {
            let t1 = walk_expr(v, *base, arena);
            let t2 = walk_expr(v, *index, arena);
            proof {
                rest = t1@ + t2@;
            }
        },
        ExprKind::Unary { operand, .. } => {
            let t1 = walk_expr(v, *operand, arena);
            proof {
                rest = t1@;
            }
        },
        ExprKind::Binary { left, right, .. } => {
            let t1 = walk_expr(v, *left, arena);
            let t2 = walk_expr(v, *right, arena);
            proof {
                rest = t1@ + t2@;
            }
        },
        ExprKind::Tuple(elems) => {
            let t1 = walk_expr_list(v, elems, arena, Ghost(r));
            proof {
                rest = t1@;
            }
        },
        ExprKind::List(elems) => {
            let t1 = walk_expr_list(v, elems, arena, Ghost(r));
            proof {
                rest = t1@;
            }
        },
        ExprKind::Struct { path, fields } => {
            let t1 = walk_path(v, path, arena, Ghost(r));
            let ghost mut tl: Seq<Visit> = Seq::empty();
            let mut i: usize = 0;
            let ghost vl = *v;
            while i < fields.len()
                invariant
                    *v == replay(vl, *arena, tl),
                    arena.wf(),
                    i <= fields@.len(),
                    r == arena.expr_rank(id.0 as int),
                    id.0 < arena.exprs().len(),
                    crate::ast::arena::field_exprs_ok(arena, fields@, r),
                    tl == trace_field_exprs(arena, fields@.subrange(0, i as int), r),
                decreases fields@.len() - i,
            {
                assert(expr_ok(arena, fields@[i as int].expr, r));
                let ti = walk_expr(v, fields[i].expr, arena);
                proof {
                    assert(sub_expr(arena, fields@[i as int].expr, r) == ti@);
                    assert(fields@.subrange(0, i + 1).last() == fields@[i as int]);
                    assert(fields@.subrange(0, i + 1).drop_last() =~= fields@.subrange(0, i as int));
                    tl = tl + ti@;
                }
                i = i + 1;
            }
            assert(fields@.subrange(0, fields@.len() as int) =~= fields@);
            proof {
                rest = t1@ + tl;
            }
        },
        ExprKind::If { test, then, else_branch } => {
            let t1 = walk_expr(v, *test, arena);
            let t2 = walk_expr(v, *then, arena);
            let t3 = walk_expr(v, *else_branch, arena);
            proof {
                rest = t1@ + t2@ + t3@;
            }
        },
        ExprKind::Block(stmts) => {
            let t1 = walk_stmt_list(v, stmts, arena, Ghost(r));
            proof {
                rest = t1@;
            }
        },
        ExprKind::Lambda { params, body } => {
            let ghost mut tl: Seq<Visit> = Seq::empty();
            let mut i: usize = 0;
            let ghost vl = *v;
            while i < params.len()
                invariant
                    *v == replay(vl, *arena, tl),
                    arena.wf(),
                    i <= params@.len(),
                    r == arena.expr_rank(id.0 as int),
                    id.0 < arena.exprs().len(),
                    crate::ast::arena::lambda_params_ok(arena, params@, r),
                    tl == trace_lambda_params(arena, params@.subrange(0, i as int), r),
                decreases params@.len() - i,
            {
                assert(crate::ast::arena::opt_ty_ok(arena, params@[i as int].ty, r));
                let ghost mut ti: Seq<Visit> = Seq::empty();
                if let Some(t) = params[i].ty {
                    let tt = walk_ty(v, t, arena);
                    proof {
                        ti = tt@;
                    }
                }
                proof {
                    assert(params@.subrange(0, i + 1).drop_last() =~= params@.subrange(0, i as int));
                    assert(ti == sub_opt_ty(arena, params@[i as int].ty, r));
                    tl = tl + ti;
                }
                i = i + 1;
            }
            assert(params@.subrange(0, params@.len() as int) =~= params@);
            let t2 = walk_expr(v, *body, arena);
            proof {
                rest = tl + t2@;
            }
        },
        ExprKind::Cast { expr, ty } => {
            let t1 = walk_expr(v, *expr, arena);
            let t2 = walk_ty(v, *ty, arena);
            proof {
                rest = t1@ + t2@;
            }
        },
        ExprKind::Ref { expr, .. } => {
            let t1 = walk_expr(v, *expr, arena);
            proof {
                rest = t1@;
            }
        },
        ExprKind::Deref(e) => {
            let t1 = walk_expr(v, *e, arena);
            proof {
                rest = t1@;
            }
        },
    }
    let ghost t = seq![Visit::Expr(id)] + rest;
    assert(t =~= trace_expr(arena, id));
    Ghost(t)
}

/// Walks a pattern and its nested sub-patterns: the hook calls are those
/// of `trace_pat`.
pub fn walk_pat<V: Visitor>(v: &mut V, id: PatId, arena: &Arena) -> (t: Ghost<Seq<Visit>>)
    requires
        arena.wf(),
        id.0 < arena.pats().len(),
    ensures
        *final(v) == replay(*old(v), *arena, t@),
        t@ == trace_pat(arena, id),
    decreases arena.pat_rank(id.0 as int) + 1, 0nat, 0nat,
{
    let ghost r = arena.pat_rank(id.0 as int);
    let pat = arena.pat(id);
    assert(pat_kind_ok(arena, pat.kind, r));
    v.visit_pat(pat, arena);
    let ghost mut rest: Seq<Visit> = Seq::empty();
    match &pat.kind {
        PatKind::Wild => {},
        PatKind::Literal(_) => {},
        PatKind::Ident { subpat, .. } => {
            if let Some(sp) = subpat {
                let t1 = walk_pat(v, *sp, arena);
                proof {
                    rest = t1@;
                }
            }
        },
        PatKind::Tuple(ps) => {
            let t1 = walk_pat_list(v, ps, arena, Ghost(r));
            proof {
                rest = t1@;
            }
        },
        PatKind::Or(ps) => {
            let t1 = walk_pat_list(v, ps, arena, Ghost(r));
            proof {
                rest = t1@;
            }
        },
        PatKind::Struct { path, fields } => {
            let t1 = walk_path(v, path, arena, Ghost(r));
            let ghost mut tl: Seq<Visit> = Seq::empty();
            let mut i: usize = 0;
            let ghost vl = *v;
            while i < fields.len()
                invariant
                    *v == replay(vl, *arena, tl),
                    arena.wf(),
                    i <= fields@.len(),
                    r == arena.pat_rank(id.0 as int),
                    id.0 < arena.pats().len(),
                    crate::ast::arena::pat_fields_ok(arena, fields@, r),
                    tl == trace_pat_fields(arena, fields@.subrange(0, i as int), r),
                decreases fields@.len() - i,
            {
                assert(pat_ok(arena, fields@[i as int].pat, r));
                let ti = walk_pat(v, fields[i].pat, arena);
                proof {
                    assert(sub_pat(arena, fields@[i as int].pat, r) == ti@);
                    assert(fields@.subrange(0, i + 1).last() == fields@[i as int]);
                    assert(fields@.subrange(0, i + 1).drop_last() =~= fields@.subrange(0, i as int));
                    tl = tl + ti@;
                }
                i = i + 1;
            }
            assert(fields@.subrange(0, fields@.len() as int) =~= fields@);
            proof {
                rest = t1@ + tl;
            }
        },
        PatKind::Enum { path, subpats, .. } => {
            let t1 = walk_path(v, path, arena, Ghost(r));
            let t2 = walk_pat_list(v, subpats, arena, Ghost(r));
            proof {
                rest = t1@ + t2@;
            }
        },
    }
    let ghost t = seq![Visit::Pat(id)] + rest;
    assert(t =~= trace_pat(arena, id));
    Ghost(t)
}

/// Walks a type and its nested type arguments: the hook calls are those of
/// `trace_ty`.
pub fn walk_ty<V: Visitor>(v: &mut V, id: TyId, arena: &Arena) -> (t: Ghost<Seq<Visit>>)
    requires
        arena.wf(),
        id.0 < arena.tys().len(),
    ensures
        *final(v) == replay(*old(v), *arena, t@),
        t@ == trace_ty(arena, id),
    decreases arena.ty_rank(id.0 as int) + 1, 0nat, 0nat,
{
    let ghost r = arena.ty_rank(id.0 as int);
    let ty = arena.ty(id);
    assert(ty_kind_ok(arena, ty.kind, r));
    v.visit_ty(ty, arena);
    let ghost mut rest: Seq<Visit> = Seq::empty();
    match &ty.kind {
        TyKind::Path(path) => {
            let t1 = walk_path(v, path, arena, Ghost(r));
            proof {
                rest = t1@;
            }
        },
        TyKind::Tuple(elems) => {
            let t1 = walk_ty_list(v, elems, arena, Ghost(r));
            proof {
                rest = t1@;
            }
        },
        TyKind::Array { elem, .. } => {
            let t1 = walk_ty(v, *elem, arena);
            proof {
                rest = t1@;
            }
        },
        TyKind::Slice { elem } => {
            let t1 = walk_ty(v, *elem, arena);
            proof {
                rest = t1@;
            }
        },
        TyKind::Ref { inner, .. } => {
            let t1 = walk_ty(v, *inner, arena);
            proof {
                rest = t1@;
            }
        },
        TyKind::Fn { params, ret } => {
            let t1 = walk_ty_list(v, params, arena, Ghost(r));
            proof {
                rest = t1@;
            }
            if let Some(t) = ret {
                let t2 = walk_ty(v, *t, arena);
                proof {
                    rest = rest + t2@;
                }
            }
        },
        TyKind::GenericParam { .. } => {},
    }
    let ghost t = seq![Visit::Ty(id)] + rest;
    assert(t =~= trace_ty(arena, id));
    Ghost(t)
}

fn walk_path<V: Visitor>(v: &mut V, path: &Path, arena: &Arena, Ghost(r): Ghost<nat>) -> (t: Ghost<Seq<Visit>>)
    requires
        arena.wf(),
        path_ok(arena, *path, r),
    ensures
        *final(v) == replay(*old(v), *arena, t@),
        t@ == trace_segments(arena, path.segments@, r),
    decreases r, 2nat, 1nat,
{
    let ghost mut tl: Seq<Visit> = Seq::empty();
    let mut i: usize = 0;
    let ghost vl = *v;
    while i < path.segments.len()
        invariant
            *v == replay(vl, *arena, tl),
            arena.wf(),
            i <= path.segments@.len(),
            path_ok(arena, *path, r),
            tl == trace_segments(arena, path.segments@.subrange(0, i as int), r),
        decreases path.segments@.len() - i,
    {
        assert(tys_ok(arena, path.segments@[i as int].args@, r));
        let ti = walk_ty_list(v, &path.segments[i].args, arena, Ghost(r));
        proof {
            assert(path.segments@.subrange(0, i + 1).drop_last() =~= path.segments@.subrange(0, i as int));
            tl = tl + ti@;
        }
        i = i + 1;
    }
    assert(path.segments@.subrange(0, path.segments@.len() as int) =~= path.segments@);
    Ghost(tl)
}

/// Walks the types of struct fields: the hook calls are those of
/// `trace_field_defs`.
pub fn walk_field_defs<V: Visitor>(v: &mut V, fields: &Vec<FieldDef>, arena: &Arena) -> (t: Ghost<Seq<Visit>>)
    requires
        arena.wf(),
        crate::ast::arena::field_defs_ok(arena, fields@, arena.next_rank()),
    ensures
        *final(v) == replay(*old(v), *arena, t@),
        t@ == trace_field_defs(arena, fields@, arena.next_rank()),
{
    let ghost mut tl: Seq<Visit> = Seq::empty();
    let mut i: usize = 0;
    let ghost vl = *v;
    while i < fields.len()
        invariant
            *v == replay(vl, *arena, tl),
            arena.wf(),
            i <= fields@.len(),
            crate::ast::arena::field_defs_ok(arena, fields@, arena.next_rank()),
            tl == trace_field_defs(arena, fields@.subrange(0, i as int), arena.next_rank()),
        decreases fields@.len() - i,
    {
        assert(ty_ok(arena, fields@[i as int].ty, arena.next_rank()));
        let ti = walk_ty(v, fields[i].ty, arena);
        proof {
            assert(fields@.subrange(0, i + 1).drop_last() =~= fields@.subrange(0, i as int));
            tl = tl + ti@;
        }
        i = i + 1;
    }
    assert(fields@.subrange(0, fields@.len() as int) =~= fields@);
    Ghost(tl)
}

/// Walks the field types of enum variants: the hook calls are those of
/// `trace_variants`.
pub fn walk_variants<V: Visitor>(v: &mut V, variants: &Vec<Variant>, arena: &Arena) -> (t: Ghost<Seq<Visit>>)
    requires
        arena.wf(),
        crate::ast::arena::variants_ok(arena, variants@, arena.next_rank()),
    ensures
        *final(v) == replay(*old(v), *arena, t@),
        t@ == trace_variants(arena, variants@, arena.next_rank()),
{
    let ghost mut tl: Seq<Visit> = Seq::empty();
    let mut i: usize = 0;
    let ghost vl = *v;
    while i < variants.len()
        invariant
            *v == replay(vl, *arena, tl),
            arena.wf(),
            i <= variants@.len(),
            crate::ast::arena::variants_ok(arena, variants@, arena.next_rank()),
            tl == trace_variants(arena, variants@.subrange(0, i as int), arena.next_rank()),
        decreases variants@.len() - i,
    {
        assert(crate::ast::arena::variant_fields_ok(arena, variants@[i as int].fields, arena.next_rank()));
        let ghost mut ti: Seq<Visit> = Seq::empty();
        match &variants[i].fields {
            VariantFields::Unit => {},
            VariantFields::Tuple(tys) => {
                let tt = walk_ty_list(v, tys, arena, Ghost(arena.next_rank()));
                proof {
                    ti = tt@;
                }
            },
            VariantFields::Struct(defs) => {
                let tt = walk_field_defs(v, defs, arena);
                proof {
                    ti = tt@;
                }
            },
        }
        proof {
            assert(variants@.subrange(0, i + 1).drop_last() =~= variants@.subrange(0, i as int));
            tl = tl + ti;
        }
        i = i + 1;
    }
    assert(variants@.subrange(0, variants@.len() as int) =~= variants@);
    Ghost(tl)
}

/// Walks the bounds of generic parameters: the hook calls are those of
/// `trace_generics`.
pub fn walk_generic_params<V: Visitor>(v: &mut V, params: &Vec<GenericParam>, arena: &Arena) -> (t: Ghost<Seq<Visit>>)
    requires
        arena.wf(),
        crate::ast::arena::generics_ok(arena, params@, arena.next_rank()),
    ensures
        *final(v) == replay(*old(v), *arena, t@),
        t@ == trace_generics(arena, params@, arena.next_rank()),
{
    let ghost mut tl: Seq<Visit> = Seq::empty();
    let mut i: usize = 0;
    let ghost vl = *v;
    while i < params.len()
        invariant
            *v == replay(vl, *arena, tl),
            arena.wf(),
            i <= params@.len(),
            crate::ast::arena::generics_ok(arena, params@, arena.next_rank()),
            tl == trace_generics(arena, params@.subrange(0, i as int), arena.next_rank()),
        decreases params@.len() - i,
    {
        assert(tys_ok(arena, params@[i as int].bounds@, arena.next_rank()));
        let ti = walk_ty_list(v, &params[i].bounds, arena, Ghost(arena.next_rank()));
        proof {
            assert(params@.subrange(0, i + 1).drop_last() =~= params@.subrange(0, i as int));
            tl = tl + ti@;
        }
        i = i + 1;
    }
    assert(params@.subrange(0, params@.len() as int) =~= params@);
    Ghost(tl)
}

/// Walks the types and defaults of parameters: the hook calls are those of
/// `trace_params`.
pub fn walk_params<V: Visitor>(v: &mut V, params: &Vec<Param>, arena: &Arena) -> (t: Ghost<Seq<Visit>>)
    requires
        arena.wf(),
        crate::ast::arena::params_ok(arena, params@, arena.next_rank()),
    ensures
        *final(v) == replay(*old(v), *arena, t@),
        t@ == trace_params(arena, params@, arena.next_rank()),
{
    let ghost mut tl: Seq<Visit> = Seq::empty();
    let mut i: usize = 0;
    let ghost vl = *v;
    while i < params.len()
        invariant
            *v == replay(vl, *arena, tl),
            arena.wf(),
            i <= params@.len(),
            crate::ast::arena::params_ok(arena, params@, arena.next_rank()),
            tl == trace_params(arena, params@.subrange(0, i as int), arena.next_rank()),
        decreases params@.len() - i,
    {
        assert(crate::ast::arena::param_ok(arena, params@[i as int], arena.next_rank()));
        let ghost mut ta: Seq<Visit> = Seq::empty();
        let ghost mut tb: Seq<Visit> = Seq::empty();
        if let Some(t) = params[i].ty {
            let tt = walk_ty(v, t, arena);
            proof {
                ta = tt@;
            }
        }
        if let Some(d) = params[i].default {
            let tt = walk_expr(v, d, arena);
            proof {
                tb = tt@;
            }
        }
        proof {
            assert(params@.subrange(0, i + 1).drop_last() =~= params@.subrange(0, i as int));
            tl = tl + ta + tb;
        }
        i = i + 1;
    }
    assert(params@.subrange(0, params@.len() as int) =~= params@);
    Ghost(tl)
}

// ---- the order of a walk ------------------------------------------------------


/// The hook calls of walking expression `e`, where it is below rank `r`.
pub open spec fn sub_expr(a: &Arena, e: ExprId, r: nat) -> Seq<Visit>
    decreases r, 0nat, 1nat,
{
    if expr_ok(a, e, r) {
        trace_expr(a, e)
    } else {
        Seq::empty()
    }
}

/// The hook calls of walking statement `s`, where it is below rank `r`.
pub open spec fn sub_stmt(a: &Arena, s: StmtId, r: nat) -> Seq<Visit>
    decreases r, 0nat, 1nat,
{
    if stmt_ok(a, s, r) {
        trace_stmt(a, s)
    } else {
        Seq::empty()
    }
}

/// The hook calls of walking pattern `p`, where it is below rank `r`.
pub open spec fn sub_pat(a: &Arena, p: PatId, r: nat) -> Seq<Visit>
    decreases r, 0nat, 1nat,
{
    if pat_ok(a, p, r) {
        trace_pat(a, p)
    } else {
        Seq::empty()
    }
}

/// The hook calls of walking type `t`, where it is below rank `r`.
pub open spec fn sub_ty(a: &Arena, t: TyId, r: nat) -> Seq<Visit>
    decreases r, 0nat, 1nat,
{
    if ty_ok(a, t, r) {
        trace_ty(a, t)
    } else {
        Seq::empty()
    }
}

/// The hook calls of walking item `i`, where it is below rank `r`.
pub open spec fn sub_item(a: &Arena, i: ItemId, r: nat) -> Seq<Visit>
    decreases r, 0nat, 1nat,
{
    if item_ok(a, i, r) {
        trace_item(a, i)
    } else {
        Seq::empty()
    }
}

/// The hook calls of walking an optional expression.
pub open spec fn sub_opt_expr(a: &Arena, o: Option<ExprId>, r: nat) -> Seq<Visit>
    decreases r, 0nat, 1nat,
{
    match o {
        Some(e) => if expr_ok(a, e, r) {
            trace_expr(a, e)
        } else {
            Seq::empty()
        },
        None => Seq::empty(),
    }
}

/// The hook calls of walking an optional type.
pub open spec fn sub_opt_ty(a: &Arena, o: Option<TyId>, r: nat) -> Seq<Visit>
    decreases r, 0nat, 1nat,
{
    match o {
        Some(t) => if ty_ok(a, t, r) {
            trace_ty(a, t)
        } else {
            Seq::empty()
        },
        None => Seq::empty(),
    }
}

/// The hook calls of walking expressions in order.
pub open spec fn trace_exprs(a: &Arena, s: Seq<ExprId>, r: nat) -> Seq<Visit>
    decreases r, 1nat, s.len(),
{
    if s.len() == 0 {
        Seq::empty()
    } else {
        trace_exprs(a, s.drop_last(), r) + sub_expr(a, s.last(), r)
    }
}

/// The hook calls of walking statements in order.
pub open spec fn trace_stmts(a: &Arena, s: Seq<StmtId>, r: nat) -> Seq<Visit>
    decreases r, 1nat, s.len(),
{
    if s.len() == 0 {
        Seq::empty()
    } else {
        trace_stmts(a, s.drop_last(), r) + sub_stmt(a, s.last(), r)
    }
}

/// The hook calls of walking patterns in order.
pub open spec fn trace_pats(a: &Arena, s: Seq<PatId>, r: nat) -> Seq<Visit>
    decreases r, 1nat, s.len(),
{
    if s.len() == 0 {
        Seq::empty()
    } else {
        trace_pats(a, s.drop_last(), r) + sub_pat(a, s.last(), r)
    }
}

/// The hook calls of walking types in order.
pub open spec fn trace_tys(a: &Arena, s: Seq<TyId>, r: nat) -> Seq<Visit>
    decreases r, 1nat, s.len(),
{
    if s.len() == 0 {
        Seq::empty()
    } else {
        trace_tys(a, s.drop_last(), r) + sub_ty(a, s.last(), r)
    }
}

/// The hook calls of walking items in order.
pub open spec fn trace_items(a: &Arena, s: Seq<ItemId>, r: nat) -> Seq<Visit>
    decreases r, 1nat, s.len(),
{
    if s.len() == 0 {
        Seq::empty()
    } else {
        trace_items(a, s.drop_last(), r) + sub_item(a, s.last(), r)
    }
}

/// The hook calls of walking the values of keyword arguments in order.
pub open spec fn trace_kwargs(a: &Arena, s: Seq<Kwarg>, r: nat) -> Seq<Visit>
    decreases r, 2nat, s.len(),
{
    if s.len() == 0 {
        Seq::empty()
    } else {
        trace_kwargs(a, s.drop_last(), r) + sub_expr(a, s.last().value, r)
    }
}

/// The hook calls of walking the values of struct literal fields in order.
pub open spec fn trace_field_exprs(a: &Arena, s: Seq<FieldExpr>, r: nat) -> Seq<Visit>
    decreases r, 2nat, s.len(),
{
    if s.len() == 0 {
        Seq::empty()
    } else {
        trace_field_exprs(a, s.drop_last(), r) + sub_expr(a, s.last().expr, r)
    }
}

/// The hook calls of walking the types of lambda parameters in order.
pub open spec fn trace_lambda_params(a: &Arena, s: Seq<LambdaParam>, r: nat) -> Seq<Visit>
    decreases r, 2nat, s.len(),
{
    if s.len() == 0 {
        Seq::empty()
    } else {
        trace_lambda_params(a, s.drop_last(), r) + sub_opt_ty(a, s.last().ty, r)
    }
}

/// The hook calls of walking `elif` arms in order: test, then body.
pub open spec fn trace_elifs(a: &Arena, s: Seq<ElifArm>, r: nat) -> Seq<Visit>
    decreases r, 2nat, s.len(),
{
    if s.len() == 0 {
        Seq::empty()
    } else {
        trace_elifs(a, s.drop_last(), r) + sub_expr(a, s.last().test, r) + trace_stmts(a, s.last().body@, r)
    }
}

/// The hook calls of walking `match` arms in order: pattern, guard, body.
pub open spec fn trace_arms(a: &Arena, s: Seq<MatchArm>, r: nat) -> Seq<Visit>
    decreases r, 2nat, s.len(),
{
    if s.len() == 0 {
        Seq::empty()
    } else {
        trace_arms(a, s.drop_last(), r) + sub_pat(a, s.last().pat, r) + sub_opt_expr(a, s.last().guard, r)
            + trace_stmts(a, s.last().body@, r)
    }
}

/// The hook calls of walking the patterns of struct pattern fields in
/// order.
pub open spec fn trace_pat_fields(a: &Arena, s: Seq<PatField>, r: nat) -> Seq<Visit>
    decreases r, 2nat, s.len(),
{
    if s.len() == 0 {
        Seq::empty()
    } else {
        trace_pat_fields(a, s.drop_last(), r) + sub_pat(a, s.last().pat, r)
    }
}

/// The hook calls of walking the type arguments of path segments in order.
pub open spec fn trace_segments(a: &Arena, s: Seq<PathSegment>, r: nat) -> Seq<Visit>
    decreases r, 2nat, s.len(),
{
    if s.len() == 0 {
        Seq::empty()
    } else {
        trace_segments(a, s.drop_last(), r) + trace_tys(a, s.last().args@, r)
    }
}

/// The hook calls of walking the types of struct fields in order.
pub open spec fn trace_field_defs(a: &Arena, s: Seq<FieldDef>, r: nat) -> Seq<Visit>
    decreases r, 2nat, s.len(),
{
    if s.len() == 0 {
        Seq::empty()
    } else {
        trace_field_defs(a, s.drop_last(), r) + sub_ty(a, s.last().ty, r)
    }
}

/// The hook calls of walking the bounds of generic parameters in order.
pub open spec fn trace_generics(a: &Arena, s: Seq<GenericParam>, r: nat) -> Seq<Visit>
    decreases r, 2nat, s.len(),
{
    if s.len() == 0 {
        Seq::empty()
    } else {
        trace_generics(a, s.drop_last(), r) + trace_tys(a, s.last().bounds@, r)
    }
}

/// The hook calls of walking parameters in order: type, then default.
pub open spec fn trace_params(a: &Arena, s: Seq<Param>, r: nat) -> Seq<Visit>
    decreases r, 2nat, s.len(),
{
    if s.len() == 0 {
        Seq::empty()
    } else {
        trace_params(a, s.drop_last(), r) + sub_opt_ty(a, s.last().ty, r) + sub_opt_expr(a, s.last().default, r)
    }
}

/// The hook calls of walking the fields of enum variants in order.
pub open spec fn trace_variants(a: &Arena, s: Seq<Variant>, r: nat) -> Seq<Visit>
    decreases r, 3nat, s.len(),
{
    if s.len() == 0 {
        Seq::empty()
    } else {
        trace_variants(a, s.drop_last(), r) + match s.last().fields {
            VariantFields::Unit => Seq::empty(),
            VariantFields::Tuple(tys) => trace_tys(a, tys@, r),
            VariantFields::Struct(defs) => trace_field_defs(a, defs@, r),
        }
    }
}

/// The hook calls of walking the items of an `impl` in order.
pub open spec fn trace_impl_items(a: &Arena, s: Seq<ImplItem>, r: nat) -> Seq<Visit>
    decreases r, 3nat, s.len(),
{
    if s.len() == 0 {
        Seq::empty()
    } else {
        trace_impl_items(a, s.drop_last(), r) + match s.last() {
            ImplItem::Function { body, .. } => trace_stmts(a, body@, r),
            ImplItem::Const { value, .. } => sub_expr(a, value, r),
            ImplItem::Type { .. } => Seq::empty(),
        }
    }
}

/// The hook calls of walking the items of an interface in order.
pub open spec fn trace_interface_items(a: &Arena, s: Seq<InterfaceItem>, r: nat) -> Seq<Visit>
    decreases r, 3nat, s.len(),
{
    if s.len() == 0 {
        Seq::empty()
    } else {
        trace_interface_items(a, s.drop_last(), r) + match s.last() {
            InterfaceItem::Function { default_body, .. } => match default_body {
                Some(body) => trace_stmts(a, body@, r),
                None => Seq::empty(),
            },
            InterfaceItem::Type { ty, .. } => sub_opt_ty(a, ty, r),
        }
    }
}

/// The hook calls of walking expression `id`: its own, then those of its
/// parts in order.
pub open spec fn trace_expr(a: &Arena, id: ExprId) -> Seq<Visit>
    decreases a.expr_rank(id.0 as int) + 1, 0nat, 0nat,
{
    let r = a.expr_rank(id.0 as int);
    seq![Visit::Expr(id)] + if id.0 < a.exprs().len() {
        match a.exprs()[id.0 as int].kind {
            ExprKind::Literal(_) => Seq::empty(),
            ExprKind::Path(_) => Seq::empty(),
            ExprKind::Call { func, args, kwargs } => sub_expr(a, func, r) + trace_exprs(a, args@, r) + trace_kwargs(
                a,
                kwargs@,
                r,
            ),
            ExprKind::MethodCall { receiver, args, .. } => sub_expr(a, receiver, r) + trace_exprs(a, args@, r),
            ExprKind::Field { base, .. } => sub_expr(a, base, r),
            ExprKind::Index { base, index } => sub_expr(a, base, r) + sub_expr(a, index, r),
            ExprKind::Unary { operand, .. } => sub_expr(a, operand, r),
            ExprKind::Binary { left, right, .. } => sub_expr(a, left, r) + sub_expr(a, right, r),
            ExprKind::Tuple(es) => trace_exprs(a, es@, r),
            ExprKind::List(es) => trace_exprs(a, es@, r),
            ExprKind::Struct { path, fields } => trace_segments(a, path.segments@, r) + trace_field_exprs(a, fields@, r),
            ExprKind::If { test, then, else_branch } => sub_expr(a, test, r) + sub_expr(a, then, r) + sub_expr(
                a,
                else_branch,
                r,
            ),
            ExprKind::Block(ss) => trace_stmts(a, ss@, r),
            ExprKind::Lambda { params, body } => trace_lambda_params(a, params@, r) + sub_expr(a, body, r),
            ExprKind::Cast { expr, ty } => sub_expr(a, expr, r) + sub_ty(a, ty, r),
            ExprKind::Ref { expr, .. } => sub_expr(a, expr, r),
            ExprKind::Deref(e) => sub_expr(a, e, r),
        }
    } else {
        Seq::empty()
    }
}

/// The hook calls of walking statement `id`: its own, then those of its
/// parts in order.
pub open spec fn trace_stmt(a: &Arena, id: StmtId) -> Seq<Visit>
    decreases a.stmt_rank(id.0 as int) + 1, 0nat, 0nat,
{
    let r = a.stmt_rank(id.0 as int);
    seq![Visit::Stmt(id)] + if id.0 < a.stmts().len() {
        match a.stmts()[id.0 as int].kind {
            StmtKind::Expr(e) => sub_expr(a, e, r),
            StmtKind::Assign { targets, value } => trace_pats(a, targets@, r) + sub_expr(a, value, r),
            StmtKind::AnnAssign { target, ty, value } => sub_pat(a, target, r) + sub_ty(a, ty, r) + sub_opt_expr(
                a,
                value,
                r,
            ),
            StmtKind::Return(e) => sub_opt_expr(a, e, r),
            StmtKind::Raise(e) => sub_expr(a, e, r),
            StmtKind::Assert { test, msg } => sub_expr(a, test, r) + sub_opt_expr(a, msg, r),
            StmtKind::Pass => Seq::empty(),
            StmtKind::Break(_) => Seq::empty(),
            StmtKind::Continue(_) => Seq::empty(),
            StmtKind::While { test, body } => sub_expr(a, test, r) + trace_stmts(a, body@, r),
            StmtKind::For { pat, iter, body } => sub_pat(a, pat, r) + sub_expr(a, iter, r) + trace_stmts(a, body@, r),
            StmtKind::If { test, then_body, elifs, else_body } => sub_expr(a, test, r) + trace_stmts(a, then_body@, r)
                + trace_elifs(a, elifs@, r) + match else_body {
                Some(b) => trace_stmts(a, b@, r),
                None => Seq::empty(),
            },
            StmtKind::Match { scrutinee, arms } => sub_expr(a, scrutinee, r) + trace_arms(a, arms@, r),
        }
    } else {
        Seq::empty()
    }
}

/// The hook calls of walking pattern `id`: its own, then those of its
/// parts in order.
pub open spec fn trace_pat(a: &Arena, id: PatId) -> Seq<Visit>
    decreases a.pat_rank(id.0 as int) + 1, 0nat, 0nat,
{
    let r = a.pat_rank(id.0 as int);
    seq![Visit::Pat(id)] + if id.0 < a.pats().len() {
        match a.pats()[id.0 as int].kind {
            PatKind::Wild => Seq::empty(),
            PatKind::Literal(_) => Seq::empty(),
            PatKind::Ident { subpat, .. } => match subpat {
                Some(sp) => sub_pat(a, sp, r),
                None => Seq::empty(),
            },
            PatKind::Tuple(ps) => trace_pats(a, ps@, r),
            PatKind::Or(ps) => trace_pats(a, ps@, r),
            PatKind::Struct { path, fields } => trace_segments(a, path.segments@, r) + trace_pat_fields(a, fields@, r),
            PatKind::Enum { path, subpats, .. } => trace_segments(a, path.segments@, r) + trace_pats(a, subpats@, r),
        }
    } else {
        Seq::empty()
    }
}

/// The hook calls of walking type `id`: its own, then those of its parts
/// in order.
pub open spec fn trace_ty(a: &Arena, id: TyId) -> Seq<Visit>
    decreases a.ty_rank(id.0 as int) + 1, 0nat, 0nat,
{
    let r = a.ty_rank(id.0 as int);
    seq![Visit::Ty(id)] + if id.0 < a.tys().len() {
        match a.tys()[id.0 as int].kind {
            TyKind::Path(path) => trace_segments(a, path.segments@, r),
            TyKind::Tuple(es) => trace_tys(a, es@, r),
            TyKind::Array { elem, .. } => sub_ty(a, elem, r),
            TyKind::Slice { elem } => sub_ty(a, elem, r),
            TyKind::Ref { inner, .. } => sub_ty(a, inner, r),
            TyKind::Fn { params, ret } => trace_tys(a, params@, r) + sub_opt_ty(a, ret, r),
            TyKind::GenericParam { .. } => Seq::empty(),
        }
    } else {
        Seq::empty()
    }
}

/// The hook calls of walking item `id`: its own, then those of its bodies
/// in order; the fields and variants of structs and enums, imports and
/// extern blocks are not walked.
pub open spec fn trace_item(a: &Arena, id: ItemId) -> Seq<Visit>
    decreases a.item_rank(id.0 as int) + 1, 0nat, 0nat,
{
    let r = a.item_rank(id.0 as int);
    seq![Visit::Item(id)] + if id.0 < a.items().len() {
        match a.items()[id.0 as int].kind {
            ItemKind::Function { body, .. } => trace_stmts(a, body@, r),
            ItemKind::Class { body, .. } => trace_items(a, body@, r),
            ItemKind::Const { value, .. } => sub_expr(a, value, r),
            ItemKind::Module { items, .. } => trace_items(a, items@, r),
            ItemKind::Impl { items, .. } => trace_impl_items(a, items@, r),
            ItemKind::Interface { items, .. } => trace_interface_items(a, items@, r),
            ItemKind::ExternBlock { .. } => Seq::empty(),
            ItemKind::Struct { .. } => Seq::empty(),
            ItemKind::Enum { .. } => Seq::empty(),
            ItemKind::Import { .. } => Seq::empty(),
        }
    } else {
        Seq::empty()
    }
}

/// The hook calls of walking a module: its own, then those of its items in
/// order.
pub open spec fn trace_module(a: &Arena, m: Module) -> Seq<Visit> {
    seq![Visit::Module] + trace_items(a, m.items@, a.next_rank())
}

} // verus!
