use vstd::prelude::*;

use crate::ast::expr::{Expr, ExprKind, FieldExpr, Kwarg, LambdaParam};
use crate::ast::item::{
    Attribute, ExternItem, FieldDef, GenericParam, ImplItem, InterfaceItem, Item, ItemKind, Param,
    Variant, VariantFields,
};
use crate::ast::pat::{Pat, PatField, PatKind};
use crate::ast::path::{path_same, segment_same, Path};
use crate::ast::stmt::{ElifArm, MatchArm, Stmt, StmtKind};
use crate::ast::ty::{Ty, TyKind};
use crate::ids::{ExprId, ItemId, PatId, StmtId, TyId};
use crate::span::Span;

verus! {

/// Arena-backed storage for all AST nodes in a compilation unit.
///
/// Besides the nodes, the arena keeps (as ghost state) the order in which
/// nodes were allocated: every node has a rank, and a well-formed arena
/// only lets a node refer to nodes of smaller rank, which makes every walk
/// over the tree finite.
pub struct Arena {
    exprs: Vec<Expr>,
    stmts: Vec<Stmt>,
    items: Vec<Item>,
    pats: Vec<Pat>,
    tys: Vec<Ty>,
    expr_ranks: Ghost<Seq<nat>>,
    stmt_ranks: Ghost<Seq<nat>>,
    item_ranks: Ghost<Seq<nat>>,
    pat_ranks: Ghost<Seq<nat>>,
    ty_ranks: Ghost<Seq<nat>>,
    next: Ghost<nat>,
}

// ---- references below a rank -------------------------------------------------

pub open spec fn expr_ok(a: &Arena, id: ExprId, r: nat) -> bool {
    id.0 < a.exprs().len() && a.expr_rank(id.0 as int) < r
}

pub open spec fn stmt_ok(a: &Arena, id: StmtId, r: nat) -> bool {
    id.0 < a.stmts().len() && a.stmt_rank(id.0 as int) < r
}

pub open spec fn item_ok(a: &Arena, id: ItemId, r: nat) -> bool {
    id.0 < a.items().len() && a.item_rank(id.0 as int) < r
}

pub open spec fn pat_ok(a: &Arena, id: PatId, r: nat) -> bool {
    id.0 < a.pats().len() && a.pat_rank(id.0 as int) < r
}

pub open spec fn ty_ok(a: &Arena, id: TyId, r: nat) -> bool {
    id.0 < a.tys().len() && a.ty_rank(id.0 as int) < r
}

pub open spec fn opt_expr_ok(a: &Arena, o: Option<ExprId>, r: nat) -> bool {
    match o {
        Some(e) => expr_ok(a, e, r),
        None => true,
    }
}

pub open spec fn opt_ty_ok(a: &Arena, o: Option<TyId>, r: nat) -> bool {
    match o {
        Some(t) => ty_ok(a, t, r),
        None => true,
    }
}

pub open spec fn opt_pat_ok(a: &Arena, o: Option<PatId>, r: nat) -> bool {
    match o {
        Some(p) => pat_ok(a, p, r),
        None => true,
    }
}

pub open spec fn exprs_ok(a: &Arena, s: Seq<ExprId>, r: nat) -> bool {
    forall|i: int| 0 <= i < s.len() ==> #[trigger] expr_ok(a, s[i], r)
}

pub open spec fn stmts_ok(a: &Arena, s: Seq<StmtId>, r: nat) -> bool {
    forall|i: int| 0 <= i < s.len() ==> #[trigger] stmt_ok(a, s[i], r)
}

pub open spec fn items_ok(a: &Arena, s: Seq<ItemId>, r: nat) -> bool {
    forall|i: int| 0 <= i < s.len() ==> #[trigger] item_ok(a, s[i], r)
}

pub open spec fn pats_ok(a: &Arena, s: Seq<PatId>, r: nat) -> bool {
    forall|i: int| 0 <= i < s.len() ==> #[trigger] pat_ok(a, s[i], r)
}

pub open spec fn tys_ok(a: &Arena, s: Seq<TyId>, r: nat) -> bool {
    forall|i: int| 0 <= i < s.len() ==> #[trigger] ty_ok(a, s[i], r)
}

pub open spec fn path_ok(a: &Arena, p: Path, r: nat) -> bool {
    forall|i: int| 0 <= i < p.segments@.len() ==> tys_ok(a, #[trigger] p.segments@[i].args@, r)
}

pub open spec fn opt_path_ok(a: &Arena, o: Option<Path>, r: nat) -> bool {
    match o {
        Some(p) => path_ok(a, p, r),
        None => true,
    }
}

pub open spec fn generics_ok(a: &Arena, s: Seq<GenericParam>, r: nat) -> bool {
    forall|i: int| 0 <= i < s.len() ==> tys_ok(a, #[trigger] s[i].bounds@, r)
}

pub open spec fn param_ok(a: &Arena, p: Param, r: nat) -> bool {
    opt_ty_ok(a, p.ty, r) && opt_expr_ok(a, p.default, r)
}

pub open spec fn params_ok(a: &Arena, s: Seq<Param>, r: nat) -> bool {
    forall|i: int| 0 <= i < s.len() ==> #[trigger] param_ok(a, s[i], r)
}

pub open spec fn attrs_ok(a: &Arena, s: Seq<Attribute>, r: nat) -> bool {
    forall|i: int| 0 <= i < s.len() ==> exprs_ok(a, #[trigger] s[i].args@, r)
}

pub open spec fn field_defs_ok(a: &Arena, s: Seq<FieldDef>, r: nat) -> bool {
    forall|i: int| 0 <= i < s.len() ==> ty_ok(a, #[trigger] s[i].ty, r)
}

pub open spec fn variant_fields_ok(a: &Arena, f: VariantFields, r: nat) -> bool {
    match f {
        VariantFields::Unit => true,
        VariantFields::Tuple(ts) => tys_ok(a, ts@, r),
        VariantFields::Struct(fs) => field_defs_ok(a, fs@, r),
    }
}

pub open spec fn variants_ok(a: &Arena, s: Seq<Variant>, r: nat) -> bool {
    forall|i: int| 0 <= i < s.len() ==> variant_fields_ok(a, #[trigger] s[i].fields, r)
}

pub open spec fn interface_item_ok(a: &Arena, it: InterfaceItem, r: nat) -> bool {
    match it {
        InterfaceItem::Function { generics, params, ret_ty, default_body, .. } => {
            &&& generics_ok(a, generics@, r)
            &&& params_ok(a, params@, r)
            &&& opt_ty_ok(a, ret_ty, r)
            &&& match default_body {
                Some(b) => stmts_ok(a, b@, r),
                None => true,
            }
        },
        InterfaceItem::Type { ty, .. } => opt_ty_ok(a, ty, r),
    }
}

pub open spec fn interface_items_ok(a: &Arena, s: Seq<InterfaceItem>, r: nat) -> bool {
    forall|i: int| 0 <= i < s.len() ==> #[trigger] interface_item_ok(a, s[i], r)
}

pub open spec fn impl_item_ok(a: &Arena, it: ImplItem, r: nat) -> bool {
    match it {
        ImplItem::Function { generics, params, ret_ty, body, .. } => {
            &&& generics_ok(a, generics@, r)
            &&& params_ok(a, params@, r)
            &&& opt_ty_ok(a, ret_ty, r)
            &&& stmts_ok(a, body@, r)
        },
        ImplItem::Const { ty, value, .. } => ty_ok(a, ty, r) && expr_ok(a, value, r),
        ImplItem::Type { ty, .. } => ty_ok(a, ty, r),
    }
}

pub open spec fn impl_items_ok(a: &Arena, s: Seq<ImplItem>, r: nat) -> bool {
    forall|i: int| 0 <= i < s.len() ==> #[trigger] impl_item_ok(a, s[i], r)
}

pub open spec fn extern_item_ok(a: &Arena, it: ExternItem, r: nat) -> bool {
    match it {
        ExternItem::Function { params, ret_ty, .. } => params_ok(a, params@, r) && opt_ty_ok(
            a,
            ret_ty,
            r,
        ),
        ExternItem::Static { ty, .. } => ty_ok(a, ty, r),
    }
}

pub open spec fn extern_items_ok(a: &Arena, s: Seq<ExternItem>, r: nat) -> bool {
    forall|i: int| 0 <= i < s.len() ==> #[trigger] extern_item_ok(a, s[i], r)
}

pub open spec fn kwargs_ok(a: &Arena, s: Seq<Kwarg>, r: nat) -> bool {
    forall|i: int| 0 <= i < s.len() ==> expr_ok(a, #[trigger] s[i].value, r)
}

pub open spec fn field_exprs_ok(a: &Arena, s: Seq<FieldExpr>, r: nat) -> bool {
    forall|i: int| 0 <= i < s.len() ==> expr_ok(a, #[trigger] s[i].expr, r)
}

pub open spec fn lambda_params_ok(a: &Arena, s: Seq<LambdaParam>, r: nat) -> bool {
    forall|i: int| 0 <= i < s.len() ==> opt_ty_ok(a, #[trigger] s[i].ty, r)
}

pub open spec fn elifs_ok(a: &Arena, s: Seq<ElifArm>, r: nat) -> bool {
    forall|i: int|
        0 <= i < s.len() ==> expr_ok(a, #[trigger] s[i].test, r) && stmts_ok(a, s[i].body@, r)
}

pub open spec fn arms_ok(a: &Arena, s: Seq<MatchArm>, r: nat) -> bool {
    forall|i: int|
        0 <= i < s.len() ==> pat_ok(a, #[trigger] s[i].pat, r) && opt_expr_ok(a, s[i].guard, r)
            && stmts_ok(a, s[i].body@, r)
}

pub open spec fn pat_fields_ok(a: &Arena, s: Seq<PatField>, r: nat) -> bool {
    forall|i: int| 0 <= i < s.len() ==> pat_ok(a, #[trigger] s[i].pat, r)
}

/// Every node that expression kind `k` refers to exists and has rank below `r`.
pub open spec fn expr_kind_ok(a: &Arena, k: ExprKind, r: nat) -> bool {
    match k {
        ExprKind::Literal(_) => true,
        ExprKind::Path(p) => path_ok(a, p, r),
        ExprKind::Call { func, args, kwargs } => expr_ok(a, func, r) && exprs_ok(a, args@, r)
            && kwargs_ok(a, kwargs@, r),
        ExprKind::MethodCall { receiver, args, .. } => expr_ok(a, receiver, r) && exprs_ok(
            a,
            args@,
            r,
        ),
        ExprKind::Field { base, .. } => expr_ok(a, base, r),
        ExprKind::Index { base, index } => expr_ok(a, base, r) && expr_ok(a, index, r),
        ExprKind::Unary { operand, .. } => expr_ok(a, operand, r),
        ExprKind::Binary { left, right, .. } => expr_ok(a, left, r) && expr_ok(a, right, r),
        ExprKind::Tuple(es) => exprs_ok(a, es@, r),
        ExprKind::List(es) => exprs_ok(a, es@, r),
        ExprKind::Struct { path, fields } => path_ok(a, path, r) && field_exprs_ok(a, fields@, r),
        ExprKind::If { test, then, else_branch } => expr_ok(a, test, r) && expr_ok(a, then, r)
            && expr_ok(a, else_branch, r),
        ExprKind::Block(ss) => stmts_ok(a, ss@, r),
        ExprKind::Lambda { params, body } => lambda_params_ok(a, params@, r) && expr_ok(a, body, r),
        ExprKind::Cast { expr, ty } => expr_ok(a, expr, r) && ty_ok(a, ty, r),
        ExprKind::Ref { expr, .. } => expr_ok(a, expr, r),
        ExprKind::Deref(e) => expr_ok(a, e, r),
    }
}

/// Every node that statement kind `k` refers to exists and has rank below `r`.
pub open spec fn stmt_kind_ok(a: &Arena, k: StmtKind, r: nat) -> bool {
    match k {
        StmtKind::Expr(e) => expr_ok(a, e, r),
        StmtKind::Assign { targets, value } => pats_ok(a, targets@, r) && expr_ok(a, value, r),
        StmtKind::AnnAssign { target, ty, value } => pat_ok(a, target, r) && ty_ok(a, ty, r)
            && opt_expr_ok(a, value, r),
        StmtKind::Return(e) => opt_expr_ok(a, e, r),
        StmtKind::Raise(e) => expr_ok(a, e, r),
        StmtKind::Assert { test, msg } => expr_ok(a, test, r) && opt_expr_ok(a, msg, r),
        StmtKind::Pass => true,
        StmtKind::Break(_) => true,
        StmtKind::Continue(_) => true,
        StmtKind::While { test, body } => expr_ok(a, test, r) && stmts_ok(a, body@, r),
        StmtKind::For { pat, iter, body } => pat_ok(a, pat, r) && expr_ok(a, iter, r) && stmts_ok(
            a,
            body@,
            r,
        ),
        StmtKind::If { test, then_body, elifs, else_body } => {
            &&& expr_ok(a, test, r)
            &&& stmts_ok(a, then_body@, r)
            &&& elifs_ok(a, elifs@, r)
            &&& match else_body {
                Some(b) => stmts_ok(a, b@, r),
                None => true,
            }
        },
        StmtKind::Match { scrutinee, arms } => expr_ok(a, scrutinee, r) && arms_ok(a, arms@, r),
    }
}

/// Every node that item kind `k` refers to exists and has rank below `r`.
pub open spec fn item_kind_ok(a: &Arena, k: ItemKind, r: nat) -> bool {
    match k {
        ItemKind::Function { generics, params, ret_ty, body, attrs, .. } => {
            &&& generics_ok(a, generics@, r)
            &&& params_ok(a, params@, r)
            &&& opt_ty_ok(a, ret_ty, r)
            &&& stmts_ok(a, body@, r)
            &&& attrs_ok(a, attrs@, r)
        },
        ItemKind::Class { generics, bases, body, attrs, .. } => {
            &&& generics_ok(a, generics@, r)
            &&& tys_ok(a, bases@, r)
            &&& items_ok(a, body@, r)
            &&& attrs_ok(a, attrs@, r)
        },
        ItemKind::Struct { generics, fields, attrs, .. } => {
            &&& generics_ok(a, generics@, r)
            &&& field_defs_ok(a, fields@, r)
            &&& attrs_ok(a, attrs@, r)
        },
        ItemKind::Enum { generics, variants, attrs, .. } => {
            &&& generics_ok(a, generics@, r)
            &&& variants_ok(a, variants@, r)
            &&& attrs_ok(a, attrs@, r)
        },
        ItemKind::Interface { generics, items, attrs, .. } => {
            &&& generics_ok(a, generics@, r)
            &&& interface_items_ok(a, items@, r)
            &&& attrs_ok(a, attrs@, r)
        },
        ItemKind::Impl { generics, interface_ref, self_ty, items, attrs } => {
            &&& generics_ok(a, generics@, r)
            &&& opt_path_ok(a, interface_ref, r)
            &&& ty_ok(a, self_ty, r)
            &&& impl_items_ok(a, items@, r)
            &&& attrs_ok(a, attrs@, r)
        },
        ItemKind::Const { ty, value, .. } => ty_ok(a, ty, r) && expr_ok(a, value, r),
        ItemKind::Import { path, .. } => path_ok(a, path, r),
        ItemKind::ExternBlock { items, .. } => extern_items_ok(a, items@, r),
        ItemKind::Module { items, .. } => items_ok(a, items@, r),
    }
}

/// Every node that pattern kind `k` refers to exists and has rank below `r`.
pub open spec fn pat_kind_ok(a: &Arena, k: PatKind, r: nat) -> bool {
    match k {
        PatKind::Wild => true,
        PatKind::Ident { subpat, .. } => opt_pat_ok(a, subpat, r),
        PatKind::Literal(_) => true,
        PatKind::Tuple(ps) => pats_ok(a, ps@, r),
        PatKind::Struct { path, fields } => path_ok(a, path, r) && pat_fields_ok(a, fields@, r),
        PatKind::Enum { path, subpats, .. } => path_ok(a, path, r) && pats_ok(a, subpats@, r),
        PatKind::Or(ps) => pats_ok(a, ps@, r),
    }
}

/// Every node that type kind `k` refers to exists and has rank below `r`.
pub open spec fn ty_kind_ok(a: &Arena, k: TyKind, r: nat) -> bool {
    match k {
        TyKind::Path(p) => path_ok(a, p, r),
        TyKind::Tuple(ts) => tys_ok(a, ts@, r),
        TyKind::Array { elem, .. } => ty_ok(a, elem, r),
        TyKind::Slice { elem } => ty_ok(a, elem, r),
        TyKind::Ref { inner, .. } => ty_ok(a, inner, r),
        TyKind::Fn { params, ret } => tys_ok(a, params@, r) && opt_ty_ok(a, ret, r),
        TyKind::GenericParam { .. } => true,
    }
}

/// `b` holds every node of `a`, unchanged and with the same rank, and more.
pub open spec fn arena_extends(a: &Arena, b: &Arena) -> bool {
    &&& a.exprs().len() <= b.exprs().len()
    &&& a.stmts().len() <= b.stmts().len()
    &&& a.items().len() <= b.items().len()
    &&& a.pats().len() <= b.pats().len()
    &&& a.tys().len() <= b.tys().len()
    &&& forall|i: int| 0 <= i < a.exprs().len() ==> #[trigger] b.exprs()[i] == a.exprs()[i]
    &&& forall|i: int| 0 <= i < a.stmts().len() ==> #[trigger] b.stmts()[i] == a.stmts()[i]
    &&& forall|i: int| 0 <= i < a.items().len() ==> #[trigger] b.items()[i] == a.items()[i]
    &&& forall|i: int| 0 <= i < a.pats().len() ==> #[trigger] b.pats()[i] == a.pats()[i]
    &&& forall|i: int| 0 <= i < a.tys().len() ==> #[trigger] b.tys()[i] == a.tys()[i]
    &&& forall|i: int| 0 <= i < a.exprs().len() ==> #[trigger] b.expr_rank(i) == a.expr_rank(i)
    &&& forall|i: int| 0 <= i < a.stmts().len() ==> #[trigger] b.stmt_rank(i) == a.stmt_rank(i)
    &&& forall|i: int| 0 <= i < a.items().len() ==> #[trigger] b.item_rank(i) == a.item_rank(i)
    &&& forall|i: int| 0 <= i < a.pats().len() ==> #[trigger] b.pat_rank(i) == a.pat_rank(i)
    &&& forall|i: int| 0 <= i < a.tys().len() ==> #[trigger] b.ty_rank(i) == a.ty_rank(i)
    &&& a.next_rank() <= b.next_rank()
}



/// References valid in `a` stay valid in every extension of `a`.
pub proof fn lemma_ok_mono(a: &Arena, b: &Arena)
    requires
        arena_extends(a, b),
    ensures
        forall|id: ExprId, r: nat| expr_ok(a, id, r) ==> #[trigger] expr_ok(b, id, r),
        forall|id: StmtId, r: nat| stmt_ok(a, id, r) ==> #[trigger] stmt_ok(b, id, r),
        forall|id: ItemId, r: nat| item_ok(a, id, r) ==> #[trigger] item_ok(b, id, r),
        forall|id: PatId, r: nat| pat_ok(a, id, r) ==> #[trigger] pat_ok(b, id, r),
        forall|id: TyId, r: nat| ty_ok(a, id, r) ==> #[trigger] ty_ok(b, id, r),
{
}

pub proof fn lemma_path_mono(a: &Arena, b: &Arena, p: Path, r: nat)
    requires
        arena_extends(a, b),
        path_ok(a, p, r),
    ensures
        path_ok(b, p, r),
{
    lemma_ok_mono(a, b);
    assert forall|i: int| 0 <= i < p.segments@.len() implies tys_ok(
        b,
        #[trigger] p.segments@[i].args@,
        r,
    ) by {
        assert(tys_ok(a, p.segments@[i].args@, r));
    }
}

pub proof fn lemma_expr_kind_mono(a: &Arena, b: &Arena, k: ExprKind, r: nat)
    requires
        arena_extends(a, b),
        expr_kind_ok(a, k, r),
    ensures
        expr_kind_ok(b, k, r),
{
    lemma_ok_mono(a, b);
    match k {
        ExprKind::Path(p) => lemma_path_mono(a, b, p, r),
        ExprKind::Struct { path, .. } => lemma_path_mono(a, b, path, r),
        ExprKind::Lambda { params, .. } => {
            assert forall|i: int| 0 <= i < params@.len() implies opt_ty_ok(
                b,
                #[trigger] params@[i].ty,
                r,
            ) by {
                assert(opt_ty_ok(a, params@[i].ty, r));
            }
        },
        _ => {},
    }
}

#[verifier::spinoff_prover]
pub proof fn lemma_stmt_kind_mono(a: &Arena, b: &Arena, k: StmtKind, r: nat)
    requires
        arena_extends(a, b),
        stmt_kind_ok(a, k, r),
    ensures
        stmt_kind_ok(b, k, r),
{
    lemma_ok_mono(a, b);
    match k {
        StmtKind::If { elifs, .. } => {
            assert(elifs_ok(a, elifs@, r));
            assert forall|i: int| 0 <= i < elifs@.len() implies expr_ok(
                b,
                #[trigger] elifs@[i].test,
                r,
            ) && stmts_ok(b, elifs@[i].body@, r) by {
                assert(expr_ok(a, elifs@[i].test, r) && stmts_ok(a, elifs@[i].body@, r));
            }
        },
        StmtKind::Match { arms, .. } => {
            assert(arms_ok(a, arms@, r));
            assert forall|i: int| 0 <= i < arms@.len() implies pat_ok(b, #[trigger] arms@[i].pat, r)
                && opt_expr_ok(b, arms@[i].guard, r) && stmts_ok(b, arms@[i].body@, r) by {
                assert(pat_ok(a, arms@[i].pat, r) && opt_expr_ok(a, arms@[i].guard, r) && stmts_ok(
                    a,
                    arms@[i].body@,
                    r,
                ));
            }
        },
        _ => {},
    }
}

pub proof fn lemma_generics_mono(a: &Arena, b: &Arena, g: Seq<GenericParam>, r: nat)
    requires
        arena_extends(a, b),
        generics_ok(a, g, r),
    ensures
        generics_ok(b, g, r),
{
    lemma_ok_mono(a, b);
    assert forall|i: int| 0 <= i < g.len() implies tys_ok(b, #[trigger] g[i].bounds@, r) by {
        assert(tys_ok(a, g[i].bounds@, r));
    }
}

pub proof fn lemma_params_mono(a: &Arena, b: &Arena, ps: Seq<Param>, r: nat)
    requires
        arena_extends(a, b),
        params_ok(a, ps, r),
    ensures
        params_ok(b, ps, r),
{
    lemma_ok_mono(a, b);
    assert forall|i: int| 0 <= i < ps.len() implies #[trigger] param_ok(b, ps[i], r) by {
        assert(param_ok(a, ps[i], r));
    }
}

pub proof fn lemma_attrs_mono(a: &Arena, b: &Arena, s: Seq<Attribute>, r: nat)
    requires
        arena_extends(a, b),
        attrs_ok(a, s, r),
    ensures
        attrs_ok(b, s, r),
{
    lemma_ok_mono(a, b);
    assert forall|i: int| 0 <= i < s.len() implies exprs_ok(b, #[trigger] s[i].args@, r) by {
        assert(exprs_ok(a, s[i].args@, r));
    }
}

pub proof fn lemma_item_kind_mono(a: &Arena, b: &Arena, k: ItemKind, r: nat)
    requires
        arena_extends(a, b),
        item_kind_ok(a, k, r),
    ensures
        item_kind_ok(b, k, r),
{
    lemma_ok_mono(a, b);
    match k {
        ItemKind::Function { generics, params, attrs, .. } => {
            lemma_generics_mono(a, b, generics@, r);
            lemma_params_mono(a, b, params@, r);
            lemma_attrs_mono(a, b, attrs@, r);
        },
        ItemKind::Class { generics, attrs, .. } => {
            lemma_generics_mono(a, b, generics@, r);
            lemma_attrs_mono(a, b, attrs@, r);
        },
        ItemKind::Struct { generics, attrs, .. } => {
            lemma_generics_mono(a, b, generics@, r);
            lemma_attrs_mono(a, b, attrs@, r);
        },
        ItemKind::Enum { generics, variants, attrs, .. } => {
            lemma_generics_mono(a, b, generics@, r);
            lemma_attrs_mono(a, b, attrs@, r);
            assert forall|i: int| 0 <= i < variants@.len() implies variant_fields_ok(
                b,
                #[trigger] variants@[i].fields,
                r,
            ) by {
                assert(variant_fields_ok(a, variants@[i].fields, r));
            }
        },
        ItemKind::Interface { generics, items, attrs, .. } => {
            lemma_generics_mono(a, b, generics@, r);
            lemma_attrs_mono(a, b, attrs@, r);
            assert forall|i: int| 0 <= i < items@.len() implies #[trigger] interface_item_ok(
                b,
                items@[i],
                r,
            ) by {
                assert(interface_item_ok(a, items@[i], r));
                match items@[i] {
                    InterfaceItem::Function { generics, params, .. } => {
                        lemma_generics_mono(a, b, generics@, r);
                        lemma_params_mono(a, b, params@, r);
                    },
                    _ => {},
                }
            }
        },
        ItemKind::Impl { generics, interface_ref, items, attrs, .. } => {
            lemma_generics_mono(a, b, generics@, r);
            lemma_attrs_mono(a, b, attrs@, r);
            if let Some(p) = interface_ref {
                lemma_path_mono(a, b, p, r);
            }
            assert forall|i: int| 0 <= i < items@.len() implies #[trigger] impl_item_ok(
                b,
                items@[i],
                r,
            ) by {
                assert(impl_item_ok(a, items@[i], r));
                match items@[i] {
                    ImplItem::Function { generics, params, .. } => {
                        lemma_generics_mono(a, b, generics@, r);
                        lemma_params_mono(a, b, params@, r);
                    },
                    _ => {},
                }
            }
        },
        ItemKind::Import { path, .. } => lemma_path_mono(a, b, path, r),
        ItemKind::ExternBlock { items, .. } => {
            assert forall|i: int| 0 <= i < items@.len() implies #[trigger] extern_item_ok(
                b,
                items@[i],
                r,
            ) by {
                assert(extern_item_ok(a, items@[i], r));
                match items@[i] {
                    ExternItem::Function { params, .. } => lemma_params_mono(a, b, params@, r),
                    _ => {},
                }
            }
        },
        _ => {},
    }
}

pub proof fn lemma_pat_kind_mono(a: &Arena, b: &Arena, k: PatKind, r: nat)
    requires
        arena_extends(a, b),
        pat_kind_ok(a, k, r),
    ensures
        pat_kind_ok(b, k, r),
{
    lemma_ok_mono(a, b);
    match k {
        PatKind::Struct { path, .. } => lemma_path_mono(a, b, path, r),
        PatKind::Enum { path, .. } => lemma_path_mono(a, b, path, r),
        _ => {},
    }
}

pub proof fn lemma_ty_kind_mono(a: &Arena, b: &Arena, k: TyKind, r: nat)
    requires
        arena_extends(a, b),
        ty_kind_ok(a, k, r),
    ensures
        ty_kind_ok(b, k, r),
{
    lemma_ok_mono(a, b);
    match k {
        TyKind::Path(p) => lemma_path_mono(a, b, p, r),
        _ => {},
    }
}


/// Node `id` exists.
pub open spec fn expr_in(a: &Arena, id: ExprId) -> bool {
    id.0 < a.exprs().len()
}

pub open spec fn stmt_in(a: &Arena, id: StmtId) -> bool {
    id.0 < a.stmts().len()
}

pub open spec fn item_in(a: &Arena, id: ItemId) -> bool {
    id.0 < a.items().len()
}

pub open spec fn pat_in(a: &Arena, id: PatId) -> bool {
    id.0 < a.pats().len()
}

pub open spec fn ty_in(a: &Arena, id: TyId) -> bool {
    id.0 < a.tys().len()
}

/// In a well-formed arena every existing node is a valid reference for a
/// node allocated next.
pub proof fn lemma_in_ok(a: &Arena)
    requires
        a.fits() ==> a.wf(),
    ensures
        a.fits() ==> forall|id: ExprId| #[trigger] expr_in(a, id) ==> expr_ok(a, id, a.next_rank()),
        a.fits() ==> forall|id: StmtId| #[trigger] stmt_in(a, id) ==> stmt_ok(a, id, a.next_rank()),
        a.fits() ==> forall|id: ItemId| #[trigger] item_in(a, id) ==> item_ok(a, id, a.next_rank()),
        a.fits() ==> forall|id: PatId| #[trigger] pat_in(a, id) ==> pat_ok(a, id, a.next_rank()),
        a.fits() ==> forall|id: TyId| #[trigger] ty_in(a, id) ==> ty_ok(a, id, a.next_rank()),
{
}

/// Existing nodes stay in every extension.
pub proof fn lemma_in_mono(a: &Arena, b: &Arena)
    requires
        arena_extends(a, b),
    ensures
        forall|id: ExprId| #[trigger] expr_in(a, id) ==> expr_in(b, id),
        forall|id: StmtId| #[trigger] stmt_in(a, id) ==> stmt_in(b, id),
        forall|id: ItemId| #[trigger] item_in(a, id) ==> item_in(b, id),
        forall|id: PatId| #[trigger] pat_in(a, id) ==> pat_in(b, id),
        forall|id: TyId| #[trigger] ty_in(a, id) ==> ty_in(b, id),
{
}


pub open spec fn exprs_in(a: &Arena, s: Seq<ExprId>) -> bool {
    forall|i: int| 0 <= i < s.len() ==> #[trigger] expr_in(a, s[i])
}

pub open spec fn stmts_in(a: &Arena, s: Seq<StmtId>) -> bool {
    forall|i: int| 0 <= i < s.len() ==> #[trigger] stmt_in(a, s[i])
}

pub open spec fn items_in(a: &Arena, s: Seq<ItemId>) -> bool {
    forall|i: int| 0 <= i < s.len() ==> #[trigger] item_in(a, s[i])
}

pub open spec fn pats_in(a: &Arena, s: Seq<PatId>) -> bool {
    forall|i: int| 0 <= i < s.len() ==> #[trigger] pat_in(a, s[i])
}

pub open spec fn tys_in(a: &Arena, s: Seq<TyId>) -> bool {
    forall|i: int| 0 <= i < s.len() ==> #[trigger] ty_in(a, s[i])
}

/// Every generic argument of the path exists.
pub open spec fn path_in(a: &Arena, p: Path) -> bool {
    forall|i: int| 0 <= i < p.segments@.len() ==> tys_in(a, #[trigger] p.segments@[i].args@)
}

/// Sequences and paths of existing nodes are valid references for a node
/// allocated next.
pub proof fn lemma_seq_in_ok(a: &Arena)
    requires
        a.fits() ==> a.wf(),
    ensures
        a.fits() ==> forall|s: Seq<ExprId>| #[trigger] exprs_in(a, s) ==> exprs_ok(a, s, a.next_rank()),
        a.fits() ==> forall|s: Seq<StmtId>| #[trigger] stmts_in(a, s) ==> stmts_ok(a, s, a.next_rank()),
        a.fits() ==> forall|s: Seq<ItemId>| #[trigger] items_in(a, s) ==> items_ok(a, s, a.next_rank()),
        a.fits() ==> forall|s: Seq<PatId>| #[trigger] pats_in(a, s) ==> pats_ok(a, s, a.next_rank()),
        a.fits() ==> forall|s: Seq<TyId>| #[trigger] tys_in(a, s) ==> tys_ok(a, s, a.next_rank()),
        a.fits() ==> forall|p: Path| #[trigger] path_in(a, p) ==> path_ok(a, p, a.next_rank()),
{
    lemma_in_ok(a);
    if a.fits() {
        assert forall|s: Seq<ExprId>| #[trigger] exprs_in(a, s) implies exprs_ok(a, s, a.next_rank()) by {
            assert forall|i: int| 0 <= i < s.len() implies #[trigger] expr_ok(a, s[i], a.next_rank()) by {
                assert(expr_in(a, s[i]));
            }
        }
        assert forall|s: Seq<StmtId>| #[trigger] stmts_in(a, s) implies stmts_ok(a, s, a.next_rank()) by {
            assert forall|i: int| 0 <= i < s.len() implies #[trigger] stmt_ok(a, s[i], a.next_rank()) by {
                assert(stmt_in(a, s[i]));
            }
        }
        assert forall|s: Seq<ItemId>| #[trigger] items_in(a, s) implies items_ok(a, s, a.next_rank()) by {
            assert forall|i: int| 0 <= i < s.len() implies #[trigger] item_ok(a, s[i], a.next_rank()) by {
                assert(item_in(a, s[i]));
            }
        }
        assert forall|s: Seq<PatId>| #[trigger] pats_in(a, s) implies pats_ok(a, s, a.next_rank()) by {
            assert forall|i: int| 0 <= i < s.len() implies #[trigger] pat_ok(a, s[i], a.next_rank()) by {
                assert(pat_in(a, s[i]));
            }
        }
        assert forall|s: Seq<TyId>| #[trigger] tys_in(a, s) implies tys_ok(a, s, a.next_rank()) by {
            assert forall|i: int| 0 <= i < s.len() implies #[trigger] ty_ok(a, s[i], a.next_rank()) by {
                assert(ty_in(a, s[i]));
            }
        }
        assert forall|p: Path| #[trigger] path_in(a, p) implies path_ok(a, p, a.next_rank()) by {
            assert forall|i: int| 0 <= i < p.segments@.len() implies tys_ok(a, #[trigger] p.segments@[i].args@, a.next_rank()) by {
                let s = p.segments@[i].args@;
                assert(tys_in(a, s));
                assert forall|j: int| 0 <= j < s.len() implies #[trigger] ty_ok(a, s[j], a.next_rank()) by {
                    assert(ty_in(a, s[j]));
                }
            }
        }
    }
}

/// A copy of the path of an existing path expression refers only to
/// existing types.
pub proof fn lemma_path_same_ok(a: &Arena, e: ExprId, p: Path)
    requires
        a.fits() ==> a.wf(),
        expr_in(a, e),
        a.exprs()[e.0 as int].kind matches ExprKind::Path(q) && path_same(p, q),
    ensures
        a.fits() ==> path_in(a, p),
{
    if a.fits() {
        let q = a.exprs()[e.0 as int].kind->Path_0;
        assert(path_ok(a, q, a.expr_rank(e.0 as int)));
        assert forall|i: int| 0 <= i < p.segments@.len() implies tys_in(a, #[trigger] p.segments@[i].args@) by {
            assert(segment_same(p.segments@[i], q.segments@[i]));
            assert(tys_ok(a, q.segments@[i].args@, a.expr_rank(e.0 as int)));
            let s = p.segments@[i].args@;
            assert forall|j: int| 0 <= j < s.len() implies #[trigger] ty_in(a, s[j]) by {
                assert(ty_ok(a, q.segments@[i].args@[j], a.expr_rank(e.0 as int)));
            }
        }
    }
}

/// Field initialisers of existing expressions are valid references for a
/// node allocated next.
pub proof fn lemma_fields_in_ok(a: &Arena, fields: Seq<FieldExpr>)
    requires
        a.fits() ==> a.wf(),
        forall|i: int| 0 <= i < fields.len() ==> #[trigger] expr_in(a, fields[i].expr),
    ensures
        a.fits() ==> field_exprs_ok(a, fields, a.next_rank()),
{
    lemma_in_ok(a);
    if a.fits() {
        assert forall|i: int| 0 <= i < fields.len() implies expr_ok(a, #[trigger] fields[i].expr, a.next_rank()) by {
            assert(expr_in(a, fields[i].expr));
        }
    }
}

/// Every `elif` arm refers to existing nodes.
pub open spec fn elifs_in(a: &Arena, s: Seq<ElifArm>) -> bool {
    forall|i: int| 0 <= i < s.len() ==> expr_in(a, #[trigger] s[i].test) && stmts_in(a, s[i].body@)
}

/// Every `match` arm refers to existing nodes.
pub open spec fn arms_in(a: &Arena, s: Seq<MatchArm>) -> bool {
    forall|i: int|
        0 <= i < s.len() ==> pat_in(a, #[trigger] s[i].pat) && s[i].guard is None && stmts_in(a, s[i].body@)
}

/// Arms of existing nodes are valid references for a node allocated next.
pub proof fn lemma_arms_in_ok(a: &Arena, elifs: Seq<ElifArm>, arms: Seq<MatchArm>)
    requires
        a.fits() ==> a.wf(),
    ensures
        a.fits() && elifs_in(a, elifs) ==> elifs_ok(a, elifs, a.next_rank()),
        a.fits() && arms_in(a, arms) ==> arms_ok(a, arms, a.next_rank()),
{
    lemma_in_ok(a);
    lemma_seq_in_ok(a);
    if a.fits() && elifs_in(a, elifs) {
        assert forall|i: int| 0 <= i < elifs.len() implies expr_ok(a, #[trigger] elifs[i].test, a.next_rank())
            && stmts_ok(a, elifs[i].body@, a.next_rank()) by {
            assert(expr_in(a, elifs[i].test));
            assert(stmts_in(a, elifs[i].body@));
        }
    }
    if a.fits() && arms_in(a, arms) {
        assert forall|i: int| 0 <= i < arms.len() implies pat_ok(a, #[trigger] arms[i].pat, a.next_rank())
            && opt_expr_ok(a, arms[i].guard, a.next_rank()) && stmts_ok(a, arms[i].body@, a.next_rank()) by {
            assert(pat_in(a, arms[i].pat));
            assert(stmts_in(a, arms[i].body@));
        }
    }
}

/// Arms of existing nodes stay so in every extension.
pub proof fn lemma_arms_in_mono(a: &Arena, b: &Arena, elifs: Seq<ElifArm>, arms: Seq<MatchArm>)
    requires
        arena_extends(a, b),
    ensures
        elifs_in(a, elifs) ==> elifs_in(b, elifs),
        arms_in(a, arms) ==> arms_in(b, arms),
{
    lemma_in_mono(a, b);
    lemma_seq_in_mono(a, b);
    if elifs_in(a, elifs) {
        assert forall|i: int| 0 <= i < elifs.len() implies expr_in(b, #[trigger] elifs[i].test)
            && stmts_in(b, elifs[i].body@) by {
            assert(expr_in(a, elifs[i].test));
            assert(stmts_in(a, elifs[i].body@));
        }
    }
    if arms_in(a, arms) {
        assert forall|i: int| 0 <= i < arms.len() implies pat_in(b, #[trigger] arms[i].pat)
            && arms[i].guard is None && stmts_in(b, arms[i].body@) by {
            assert(pat_in(a, arms[i].pat));
            assert(stmts_in(a, arms[i].body@));
        }
    }
}

/// Every generic bound exists.
pub open spec fn generics_in(a: &Arena, s: Seq<GenericParam>) -> bool {
    forall|i: int| 0 <= i < s.len() ==> tys_in(a, #[trigger] s[i].bounds@)
}

/// The parameter's type and default exist.
pub open spec fn param_in(a: &Arena, p: Param) -> bool {
    &&& p.ty matches Some(t) ==> ty_in(a, t)
    &&& p.default matches Some(e) ==> expr_in(a, e)
}

pub open spec fn params_in(a: &Arena, s: Seq<Param>) -> bool {
    forall|i: int| 0 <= i < s.len() ==> #[trigger] param_in(a, s[i])
}

pub open spec fn attrs_in(a: &Arena, s: Seq<Attribute>) -> bool {
    forall|i: int| 0 <= i < s.len() ==> exprs_in(a, #[trigger] s[i].args@)
}

pub open spec fn field_defs_in(a: &Arena, s: Seq<FieldDef>) -> bool {
    forall|i: int| 0 <= i < s.len() ==> ty_in(a, #[trigger] s[i].ty)
}

pub open spec fn variant_fields_in(a: &Arena, f: VariantFields) -> bool {
    match f {
        VariantFields::Unit => true,
        VariantFields::Tuple(ts) => tys_in(a, ts@),
        VariantFields::Struct(fs) => field_defs_in(a, fs@),
    }
}

pub open spec fn variants_in(a: &Arena, s: Seq<Variant>) -> bool {
    forall|i: int| 0 <= i < s.len() ==> variant_fields_in(a, #[trigger] s[i].fields)
}

pub open spec fn opt_ty_in(a: &Arena, o: Option<TyId>) -> bool {
    o matches Some(t) ==> ty_in(a, t)
}

pub open spec fn interface_item_in(a: &Arena, it: InterfaceItem) -> bool {
    match it {
        InterfaceItem::Function { generics, params, ret_ty, default_body, .. } => {
            &&& generics_in(a, generics@)
            &&& params_in(a, params@)
            &&& opt_ty_in(a, ret_ty)
            &&& default_body matches Some(b) ==> stmts_in(a, b@)
        },
        InterfaceItem::Type { ty, .. } => opt_ty_in(a, ty),
    }
}

pub open spec fn interface_items_in(a: &Arena, s: Seq<InterfaceItem>) -> bool {
    forall|i: int| 0 <= i < s.len() ==> #[trigger] interface_item_in(a, s[i])
}

pub open spec fn impl_item_in(a: &Arena, it: ImplItem) -> bool {
    match it {
        ImplItem::Function { generics, params, ret_ty, body, .. } => {
            &&& generics_in(a, generics@)
            &&& params_in(a, params@)
            &&& opt_ty_in(a, ret_ty)
            &&& stmts_in(a, body@)
        },
        ImplItem::Const { ty, value, .. } => ty_in(a, ty) && expr_in(a, value),
        ImplItem::Type { ty, .. } => ty_in(a, ty),
    }
}

pub open spec fn impl_items_in(a: &Arena, s: Seq<ImplItem>) -> bool {
    forall|i: int| 0 <= i < s.len() ==> #[trigger] impl_item_in(a, s[i])
}

/// Every node that item kind `k` refers to exists (extern blocks, which
/// the parser never builds, excluded).
pub open spec fn item_kind_in(a: &Arena, k: ItemKind) -> bool {
    match k {
        ItemKind::Function { generics, params, ret_ty, body, attrs, .. } => {
            &&& generics_in(a, generics@)
            &&& params_in(a, params@)
            &&& opt_ty_in(a, ret_ty)
            &&& stmts_in(a, body@)
            &&& attrs_in(a, attrs@)
        },
        ItemKind::Class { generics, bases, body, attrs, .. } => {
            &&& generics_in(a, generics@)
            &&& tys_in(a, bases@)
            &&& items_in(a, body@)
            &&& attrs_in(a, attrs@)
        },
        ItemKind::Struct { generics, fields, attrs, .. } => {
            &&& generics_in(a, generics@)
            &&& field_defs_in(a, fields@)
            &&& attrs_in(a, attrs@)
        },
        ItemKind::Enum { generics, variants, attrs, .. } => {
            &&& generics_in(a, generics@)
            &&& variants_in(a, variants@)
            &&& attrs_in(a, attrs@)
        },
        ItemKind::Interface { generics, items, attrs, .. } => {
            &&& generics_in(a, generics@)
            &&& interface_items_in(a, items@)
            &&& attrs_in(a, attrs@)
        },
        ItemKind::Impl { generics, interface_ref, self_ty, items, attrs } => {
            &&& generics_in(a, generics@)
            &&& interface_ref matches Some(p) ==> path_in(a, p)
            &&& ty_in(a, self_ty)
            &&& impl_items_in(a, items@)
            &&& attrs_in(a, attrs@)
        },
        ItemKind::Const { ty, value, .. } => ty_in(a, ty) && expr_in(a, value),
        ItemKind::Import { path, .. } => path_in(a, path),
        ItemKind::ExternBlock { .. } => false,
        ItemKind::Module { items, .. } => items_in(a, items@),
    }
}

/// Components of existing nodes are valid references for a node allocated
/// next.
pub proof fn lemma_parts_in_ok(a: &Arena)
    requires
        a.fits() ==> a.wf(),
    ensures
        a.fits() ==> forall|s: Seq<GenericParam>| #[trigger] generics_in(a, s) ==> generics_ok(a, s, a.next_rank()),
        a.fits() ==> forall|s: Seq<Param>| #[trigger] params_in(a, s) ==> params_ok(a, s, a.next_rank()),
        a.fits() ==> forall|s: Seq<Attribute>| #[trigger] attrs_in(a, s) ==> attrs_ok(a, s, a.next_rank()),
        a.fits() ==> forall|s: Seq<FieldDef>| #[trigger] field_defs_in(a, s) ==> field_defs_ok(a, s, a.next_rank()),
        a.fits() ==> forall|s: Seq<Variant>| #[trigger] variants_in(a, s) ==> variants_ok(a, s, a.next_rank()),
        a.fits() ==> forall|o: Option<TyId>| #[trigger] opt_ty_in(a, o) ==> opt_ty_ok(a, o, a.next_rank()),
{
    lemma_in_ok(a);
    lemma_seq_in_ok(a);
    if a.fits() {
        let r = a.next_rank();
        assert forall|s: Seq<GenericParam>| #[trigger] generics_in(a, s) implies generics_ok(a, s, r) by {
            assert forall|i: int| 0 <= i < s.len() implies tys_ok(a, #[trigger] s[i].bounds@, r) by {
                assert(tys_in(a, s[i].bounds@));
            }
        }
        assert forall|s: Seq<Param>| #[trigger] params_in(a, s) implies params_ok(a, s, r) by {
            assert forall|i: int| 0 <= i < s.len() implies #[trigger] param_ok(a, s[i], r) by {
                assert(param_in(a, s[i]));
                if let Some(t) = s[i].ty {
                    assert(ty_in(a, t));
                }
                if let Some(e) = s[i].default {
                    assert(expr_in(a, e));
                }
            }
        }
        assert forall|s: Seq<Attribute>| #[trigger] attrs_in(a, s) implies attrs_ok(a, s, r) by {
            assert forall|i: int| 0 <= i < s.len() implies exprs_ok(a, #[trigger] s[i].args@, r) by {
                assert(exprs_in(a, s[i].args@));
            }
        }
        assert forall|s: Seq<FieldDef>| #[trigger] field_defs_in(a, s) implies field_defs_ok(a, s, r) by {
            assert forall|i: int| 0 <= i < s.len() implies ty_ok(a, #[trigger] s[i].ty, r) by {
                assert(ty_in(a, s[i].ty));
            }
        }
        assert forall|s: Seq<Variant>| #[trigger] variants_in(a, s) implies variants_ok(a, s, r) by {
            assert forall|i: int| 0 <= i < s.len() implies variant_fields_ok(a, #[trigger] s[i].fields, r) by {
                assert(variant_fields_in(a, s[i].fields));
                match s[i].fields {
                    VariantFields::Unit => {},
                    VariantFields::Tuple(ts) => {
                        assert(tys_in(a, ts@));
                    },
                    VariantFields::Struct(fs) => {
                        assert(field_defs_in(a, fs@));
                        assert forall|j: int| 0 <= j < fs@.len() implies ty_ok(a, #[trigger] fs@[j].ty, r) by {
                            assert(ty_in(a, fs@[j].ty));
                        }
                    },
                }
            }
        }
        assert forall|o: Option<TyId>| #[trigger] opt_ty_in(a, o) implies opt_ty_ok(a, o, r) by {
            if let Some(t) = o {
                assert(ty_in(a, t));
            }
        }
    }
}

/// Components of existing nodes stay so in every extension.
pub proof fn lemma_parts_in_mono(a: &Arena, b: &Arena)
    requires
        arena_extends(a, b),
    ensures
        forall|s: Seq<GenericParam>| #[trigger] generics_in(a, s) ==> generics_in(b, s),
        forall|s: Seq<Param>| #[trigger] params_in(a, s) ==> params_in(b, s),
        forall|s: Seq<Attribute>| #[trigger] attrs_in(a, s) ==> attrs_in(b, s),
        forall|s: Seq<FieldDef>| #[trigger] field_defs_in(a, s) ==> field_defs_in(b, s),
        forall|s: Seq<Variant>| #[trigger] variants_in(a, s) ==> variants_in(b, s),
        forall|o: Option<TyId>| #[trigger] opt_ty_in(a, o) ==> opt_ty_in(b, o),
{
    lemma_in_mono(a, b);
    lemma_seq_in_mono(a, b);
    assert forall|s: Seq<GenericParam>| #[trigger] generics_in(a, s) implies generics_in(b, s) by {
        assert forall|i: int| 0 <= i < s.len() implies tys_in(b, #[trigger] s[i].bounds@) by {
            assert(tys_in(a, s[i].bounds@));
        }
    }
    assert forall|s: Seq<Param>| #[trigger] params_in(a, s) implies params_in(b, s) by {
        assert forall|i: int| 0 <= i < s.len() implies #[trigger] param_in(b, s[i]) by {
            assert(param_in(a, s[i]));
            if let Some(t) = s[i].ty {
                assert(ty_in(a, t));
            }
            if let Some(e) = s[i].default {
                assert(expr_in(a, e));
            }
        }
    }
    assert forall|s: Seq<Attribute>| #[trigger] attrs_in(a, s) implies attrs_in(b, s) by {
        assert forall|i: int| 0 <= i < s.len() implies exprs_in(b, #[trigger] s[i].args@) by {
            assert(exprs_in(a, s[i].args@));
        }
    }
    assert forall|s: Seq<FieldDef>| #[trigger] field_defs_in(a, s) implies field_defs_in(b, s) by {
        assert forall|i: int| 0 <= i < s.len() implies ty_in(b, #[trigger] s[i].ty) by {
            assert(ty_in(a, s[i].ty));
        }
    }
    assert forall|s: Seq<Variant>| #[trigger] variants_in(a, s) implies variants_in(b, s) by {
        assert forall|i: int| 0 <= i < s.len() implies variant_fields_in(b, #[trigger] s[i].fields) by {
            assert(variant_fields_in(a, s[i].fields));
            match s[i].fields {
                VariantFields::Unit => {},
                VariantFields::Tuple(ts) => {
                    assert(tys_in(a, ts@));
                },
                VariantFields::Struct(fs) => {
                    assert(field_defs_in(a, fs@));
                    assert forall|j: int| 0 <= j < fs@.len() implies ty_in(b, #[trigger] fs@[j].ty) by {
                        assert(ty_in(a, fs@[j].ty));
                    }
                },
            }
        }
    }
    assert forall|o: Option<TyId>| #[trigger] opt_ty_in(a, o) implies opt_ty_in(b, o) by {
        if let Some(t) = o {
            assert(ty_in(a, t));
        }
    }
}

/// Members of existing nodes are valid references for a node allocated
/// next.
pub proof fn lemma_members_in_ok(a: &Arena)
    requires
        a.fits() ==> a.wf(),
    ensures
        a.fits() ==> forall|s: Seq<InterfaceItem>| #[trigger] interface_items_in(a, s) ==> interface_items_ok(a, s, a.next_rank()),
        a.fits() ==> forall|s: Seq<ImplItem>| #[trigger] impl_items_in(a, s) ==> impl_items_ok(a, s, a.next_rank()),
        a.fits() ==> forall|k: ItemKind| #[trigger] item_kind_in(a, k) ==> item_kind_ok(a, k, a.next_rank()),
{
    lemma_in_ok(a);
    lemma_seq_in_ok(a);
    lemma_parts_in_ok(a);
    if a.fits() {
        let r = a.next_rank();
        assert forall|s: Seq<InterfaceItem>| #[trigger] interface_items_in(a, s) implies interface_items_ok(a, s, r) by {
            assert forall|i: int| 0 <= i < s.len() implies #[trigger] interface_item_ok(a, s[i], r) by {
                assert(interface_item_in(a, s[i]));
                match s[i] {
                    InterfaceItem::Function { generics, params, ret_ty, default_body, .. } => {
                        assert(generics_in(a, generics@));
                        assert(params_in(a, params@));
                        assert(opt_ty_in(a, ret_ty));
                        if let Some(bd) = default_body {
                            assert(stmts_in(a, bd@));
                        }
                    },
                    InterfaceItem::Type { ty, .. } => {
                        assert(opt_ty_in(a, ty));
                    },
                }
            }
        }
        assert forall|s: Seq<ImplItem>| #[trigger] impl_items_in(a, s) implies impl_items_ok(a, s, r) by {
            assert forall|i: int| 0 <= i < s.len() implies #[trigger] impl_item_ok(a, s[i], r) by {
                assert(impl_item_in(a, s[i]));
                match s[i] {
                    ImplItem::Function { generics, params, ret_ty, body, .. } => {
                        assert(generics_in(a, generics@));
                        assert(params_in(a, params@));
                        assert(opt_ty_in(a, ret_ty));
                        assert(stmts_in(a, body@));
                    },
                    ImplItem::Const { ty, value, .. } => {
                        assert(ty_in(a, ty));
                        assert(expr_in(a, value));
                    },
                    ImplItem::Type { ty, .. } => {
                        assert(ty_in(a, ty));
                    },
                }
            }
        }
        assert forall|k: ItemKind| #[trigger] item_kind_in(a, k) implies item_kind_ok(a, k, r) by {
            match k {
                ItemKind::Function { generics, params, ret_ty, body, attrs, .. } => {
                    assert(generics_in(a, generics@));
                    assert(params_in(a, params@));
                    assert(opt_ty_in(a, ret_ty));
                    assert(stmts_in(a, body@));
                    assert(attrs_in(a, attrs@));
                },
                ItemKind::Class { generics, bases, body, attrs, .. } => {
                    assert(generics_in(a, generics@));
                    assert(tys_in(a, bases@));
                    assert(items_in(a, body@));
                    assert(attrs_in(a, attrs@));
                },
                ItemKind::Struct { generics, fields, attrs, .. } => {
                    assert(generics_in(a, generics@));
                    assert(field_defs_in(a, fields@));
                    assert(attrs_in(a, attrs@));
                },
                ItemKind::Enum { generics, variants, attrs, .. } => {
                    assert(generics_in(a, generics@));
                    assert(variants_in(a, variants@));
                    assert(attrs_in(a, attrs@));
                },
                ItemKind::Interface { generics, items, attrs, .. } => {
                    assert(generics_in(a, generics@));
                    assert(interface_items_in(a, items@));
                    assert(attrs_in(a, attrs@));
                },
                ItemKind::Impl { generics, interface_ref, self_ty, items, attrs } => {
                    assert(generics_in(a, generics@));
                    if let Some(p) = interface_ref {
                        assert(path_in(a, p));
                    }
                    assert(ty_in(a, self_ty));
                    assert(impl_items_in(a, items@));
                    assert(attrs_in(a, attrs@));
                },
                ItemKind::Const { ty, value, .. } => {
                    assert(ty_in(a, ty));
                    assert(expr_in(a, value));
                },
                ItemKind::Import { path, .. } => {
                    assert(path_in(a, path));
                },
                ItemKind::ExternBlock { .. } => {},
                ItemKind::Module { items, .. } => {
                    assert(items_in(a, items@));
                },
            }
        }
    }
}

/// Members of existing nodes stay so in every extension.
pub proof fn lemma_members_in_mono(a: &Arena, b: &Arena)
    requires
        arena_extends(a, b),
    ensures
        forall|s: Seq<InterfaceItem>| #[trigger] interface_items_in(a, s) ==> interface_items_in(b, s),
        forall|s: Seq<ImplItem>| #[trigger] impl_items_in(a, s) ==> impl_items_in(b, s),
{
    lemma_in_mono(a, b);
    lemma_seq_in_mono(a, b);
    lemma_parts_in_mono(a, b);
    assert forall|s: Seq<InterfaceItem>| #[trigger] interface_items_in(a, s) implies interface_items_in(b, s) by {
        assert forall|i: int| 0 <= i < s.len() implies #[trigger] interface_item_in(b, s[i]) by {
            assert(interface_item_in(a, s[i]));
            match s[i] {
                InterfaceItem::Function { generics, params, ret_ty, default_body, .. } => {
                    assert(generics_in(a, generics@));
                    assert(params_in(a, params@));
                    assert(opt_ty_in(a, ret_ty));
                    if let Some(bd) = default_body {
                        assert(stmts_in(a, bd@));
                    }
                },
                InterfaceItem::Type { ty, .. } => {
                    assert(opt_ty_in(a, ty));
                },
            }
        }
    }
    assert forall|s: Seq<ImplItem>| #[trigger] impl_items_in(a, s) implies impl_items_in(b, s) by {
        assert forall|i: int| 0 <= i < s.len() implies #[trigger] impl_item_in(b, s[i]) by {
            assert(impl_item_in(a, s[i]));
            match s[i] {
                ImplItem::Function { generics, params, ret_ty, body, .. } => {
                    assert(generics_in(a, generics@));
                    assert(params_in(a, params@));
                    assert(opt_ty_in(a, ret_ty));
                    assert(stmts_in(a, body@));
                },
                ImplItem::Const { ty, value, .. } => {
                    assert(ty_in(a, ty));
                    assert(expr_in(a, value));
                },
                ImplItem::Type { ty, .. } => {
                    assert(ty_in(a, ty));
                },
            }
        }
    }
}

/// Sequences and paths of existing nodes stay so in every extension.
pub proof fn lemma_seq_in_mono(a: &Arena, b: &Arena)
    requires
        arena_extends(a, b),
    ensures
        forall|s: Seq<ExprId>| #[trigger] exprs_in(a, s) ==> exprs_in(b, s),
        forall|s: Seq<StmtId>| #[trigger] stmts_in(a, s) ==> stmts_in(b, s),
        forall|s: Seq<ItemId>| #[trigger] items_in(a, s) ==> items_in(b, s),
        forall|s: Seq<PatId>| #[trigger] pats_in(a, s) ==> pats_in(b, s),
        forall|s: Seq<TyId>| #[trigger] tys_in(a, s) ==> tys_in(b, s),
        forall|p: Path| #[trigger] path_in(a, p) ==> path_in(b, p),
{
    lemma_in_mono(a, b);
    assert forall|s: Seq<ExprId>| #[trigger] exprs_in(a, s) implies exprs_in(b, s) by {
        assert forall|i: int| 0 <= i < s.len() implies #[trigger] expr_in(b, s[i]) by {
            assert(expr_in(a, s[i]));
        }
    }
    assert forall|s: Seq<StmtId>| #[trigger] stmts_in(a, s) implies stmts_in(b, s) by {
        assert forall|i: int| 0 <= i < s.len() implies #[trigger] stmt_in(b, s[i]) by {
            assert(stmt_in(a, s[i]));
        }
    }
    assert forall|s: Seq<ItemId>| #[trigger] items_in(a, s) implies items_in(b, s) by {
        assert forall|i: int| 0 <= i < s.len() implies #[trigger] item_in(b, s[i]) by {
            assert(item_in(a, s[i]));
        }
    }
    assert forall|s: Seq<PatId>| #[trigger] pats_in(a, s) implies pats_in(b, s) by {
        assert forall|i: int| 0 <= i < s.len() implies #[trigger] pat_in(b, s[i]) by {
            assert(pat_in(a, s[i]));
        }
    }
    assert forall|s: Seq<TyId>| #[trigger] tys_in(a, s) implies tys_in(b, s) by {
        assert forall|i: int| 0 <= i < s.len() implies #[trigger] ty_in(b, s[i]) by {
            assert(ty_in(a, s[i]));
        }
    }
    assert forall|p: Path| #[trigger] path_in(a, p) implies path_in(b, p) by {
        assert forall|i: int| 0 <= i < p.segments@.len() implies tys_in(b, #[trigger] p.segments@[i].args@) by {
            let s = p.segments@[i].args@;
            assert(tys_in(a, s));
            assert forall|j: int| 0 <= j < s.len() implies #[trigger] ty_in(b, s[j]) by {
                assert(ty_in(a, s[j]));
            }
        }
    }
}

impl Arena {
    pub closed spec fn exprs(&self) -> Seq<Expr> {
        self.exprs@
    }

    pub closed spec fn stmts(&self) -> Seq<Stmt> {
        self.stmts@
    }

    pub closed spec fn items(&self) -> Seq<Item> {
        self.items@
    }

    pub closed spec fn pats(&self) -> Seq<Pat> {
        self.pats@
    }

    pub closed spec fn tys(&self) -> Seq<Ty> {
        self.tys@
    }

    /// Allocation rank of expression `i`.
    pub closed spec fn expr_rank(&self, i: int) -> nat {
        self.expr_ranks@[i]
    }

    pub closed spec fn stmt_rank(&self, i: int) -> nat {
        self.stmt_ranks@[i]
    }

    pub closed spec fn item_rank(&self, i: int) -> nat {
        self.item_ranks@[i]
    }

    pub closed spec fn pat_rank(&self, i: int) -> nat {
        self.pat_ranks@[i]
    }

    pub closed spec fn ty_rank(&self, i: int) -> nat {
        self.ty_ranks@[i]
    }

    /// The rank the next allocated node gets.
    pub closed spec fn next_rank(&self) -> nat {
        self.next@
    }

    /// The two arenas give every node the same rank and have the same next
    /// rank.
    pub closed spec fn same_ranks(&self, other: &Arena) -> bool {
        &&& self.expr_ranks@ == other.expr_ranks@
        &&& self.stmt_ranks@ == other.stmt_ranks@
        &&& self.item_ranks@ == other.item_ranks@
        &&& self.pat_ranks@ == other.pat_ranks@
        &&& self.ty_ranks@ == other.ty_ranks@
        &&& self.next@ == other.next@
    }

    /// Node counts are small enough for 32-bit ids.
    pub open spec fn fits(&self) -> bool {
        &&& self.exprs().len() <= u32::MAX
        &&& self.stmts().len() <= u32::MAX
        &&& self.items().len() <= u32::MAX
        &&& self.pats().len() <= u32::MAX
        &&& self.tys().len() <= u32::MAX
    }

    /// The count of nodes of every kind.
    pub open spec fn node_count(&self) -> nat {
        self.exprs().len() + self.stmts().len() + self.items().len() + self.pats().len() + self.tys().len()
    }

    /// Ranks are below `next_rank`, which is the count of nodes, and every
    /// node only refers to existing nodes of smaller rank.
    pub open spec fn wf(&self) -> bool {
        &&& self.next_rank() == self.node_count()
        &&& forall|i: int| 0 <= i < self.exprs().len() ==> #[trigger] self.expr_rank(i) < self.next_rank()
        &&& forall|i: int| 0 <= i < self.stmts().len() ==> #[trigger] self.stmt_rank(i) < self.next_rank()
        &&& forall|i: int| 0 <= i < self.items().len() ==> #[trigger] self.item_rank(i) < self.next_rank()
        &&& forall|i: int| 0 <= i < self.pats().len() ==> #[trigger] self.pat_rank(i) < self.next_rank()
        &&& forall|i: int| 0 <= i < self.tys().len() ==> #[trigger] self.ty_rank(i) < self.next_rank()
        &&& forall|i: int|
            0 <= i < self.exprs().len() ==> expr_kind_ok(self, #[trigger] self.exprs()[i].kind, self.expr_rank(i))
        &&& forall|i: int|
            0 <= i < self.stmts().len() ==> stmt_kind_ok(self, #[trigger] self.stmts()[i].kind, self.stmt_rank(i))
        &&& forall|i: int|
            0 <= i < self.items().len() ==> item_kind_ok(self, #[trigger] self.items()[i].kind, self.item_rank(i))
        &&& forall|i: int|
            0 <= i < self.pats().len() ==> pat_kind_ok(self, #[trigger] self.pats()[i].kind, self.pat_rank(i))
        &&& forall|i: int|
            0 <= i < self.tys().len() ==> ty_kind_ok(self, #[trigger] self.tys()[i].kind, self.ty_rank(i))
    }

    /// An empty arena.
    pub fn new() -> (a: Arena)
        ensures
            a.wf(),
            a.exprs().len() == 0,
            a.stmts().len() == 0,
            a.items().len() == 0,
            a.pats().len() == 0,
            a.tys().len() == 0,
            a.next_rank() == 0,
    {
        Arena {
            exprs: Vec::new(),
            stmts: Vec::new(),
            items: Vec::new(),
            pats: Vec::new(),
            tys: Vec::new(),
            expr_ranks: Ghost(Seq::empty()),
            stmt_ranks: Ghost(Seq::empty()),
            item_ranks: Ghost(Seq::empty()),
            pat_ranks: Ghost(Seq::empty()),
            ty_ranks: Ghost(Seq::empty()),
            next: Ghost(0),
        }
    }

    pub fn expr_count(&self) -> (n: usize)
        ensures
            n == self.exprs().len(),
    {
        self.exprs.len()
    }

    pub fn stmt_count(&self) -> (n: usize)
        ensures
            n == self.stmts().len(),
    {
        self.stmts.len()
    }

    pub fn item_count(&self) -> (n: usize)
        ensures
            n == self.items().len(),
    {
        self.items.len()
    }

    pub fn pat_count(&self) -> (n: usize)
        ensures
            n == self.pats().len(),
    {
        self.pats.len()
    }

    pub fn ty_count(&self) -> (n: usize)
        ensures
            n == self.tys().len(),
    {
        self.tys.len()
    }

    pub fn expr(&self, id: ExprId) -> (e: &Expr)
        requires
            id.0 < self.exprs().len(),
        ensures
            *e == self.exprs()[id.0 as int],
    {
        &self.exprs[id.0 as usize]
    }

    pub fn stmt(&self, id: StmtId) -> (s: &Stmt)
        requires
            id.0 < self.stmts().len(),
        ensures
            *s == self.stmts()[id.0 as int],
    {
        &self.stmts[id.0 as usize]
    }

    pub fn item(&self, id: ItemId) -> (it: &Item)
        requires
            id.0 < self.items().len(),
        ensures
            *it == self.items()[id.0 as int],
    {
        &self.items[id.0 as usize]
    }

    pub fn pat(&self, id: PatId) -> (p: &Pat)
        requires
            id.0 < self.pats().len(),
        ensures
            *p == self.pats()[id.0 as int],
    {
        &self.pats[id.0 as usize]
    }

    pub fn ty(&self, id: TyId) -> (t: &Ty)
        requires
            id.0 < self.tys().len(),
        ensures
            *t == self.tys()[id.0 as int],
    {
        &self.tys[id.0 as usize]
    }

    /// Node `id`, to change in place; the other nodes and the ranks stay.
    pub fn expr_mut(&mut self, id: ExprId) -> (r: &mut Expr)
        requires
            id.0 < old(self).exprs().len(),
        ensures
            *r == old(self).exprs()[id.0 as int],
            final(self).exprs() == old(self).exprs().update(id.0 as int, *final(r)),
            final(self).stmts() == old(self).stmts(),
            final(self).items() == old(self).items(),
            final(self).pats() == old(self).pats(),
            final(self).tys() == old(self).tys(),
            final(self).same_ranks(&*old(self)),
    {
        &mut self.exprs[id.0 as usize]
    }

    /// Node `id`, to change in place; the other nodes and the ranks stay.
    pub fn stmt_mut(&mut self, id: StmtId) -> (r: &mut Stmt)
        requires
            id.0 < old(self).stmts().len(),
        ensures
            *r == old(self).stmts()[id.0 as int],
            final(self).stmts() == old(self).stmts().update(id.0 as int, *final(r)),
            final(self).exprs() == old(self).exprs(),
            final(self).items() == old(self).items(),
            final(self).pats() == old(self).pats(),
            final(self).tys() == old(self).tys(),
            final(self).same_ranks(&*old(self)),
    {
        &mut self.stmts[id.0 as usize]
    }

    /// Node `id`, to change in place; the other nodes and the ranks stay.
    pub fn item_mut(&mut self, id: ItemId) -> (r: &mut Item)
        requires
            id.0 < old(self).items().len(),
        ensures
            *r == old(self).items()[id.0 as int],
            final(self).items() == old(self).items().update(id.0 as int, *final(r)),
            final(self).exprs() == old(self).exprs(),
            final(self).stmts() == old(self).stmts(),
            final(self).pats() == old(self).pats(),
            final(self).tys() == old(self).tys(),
            final(self).same_ranks(&*old(self)),
    {
        &mut self.items[id.0 as usize]
    }

    /// Node `id`, to change in place; the other nodes and the ranks stay.
    pub fn pat_mut(&mut self, id: PatId) -> (r: &mut Pat)
        requires
            id.0 < old(self).pats().len(),
        ensures
            *r == old(self).pats()[id.0 as int],
            final(self).pats() == old(self).pats().update(id.0 as int, *final(r)),
            final(self).exprs() == old(self).exprs(),
            final(self).stmts() == old(self).stmts(),
            final(self).items() == old(self).items(),
            final(self).tys() == old(self).tys(),
            final(self).same_ranks(&*old(self)),
    {
        &mut self.pats[id.0 as usize]
    }

    /// Node `id`, to change in place; the other nodes and the ranks stay.
    pub fn ty_mut(&mut self, id: TyId) -> (r: &mut Ty)
        requires
            id.0 < old(self).tys().len(),
        ensures
            *r == old(self).tys()[id.0 as int],
            final(self).tys() == old(self).tys().update(id.0 as int, *final(r)),
            final(self).exprs() == old(self).exprs(),
            final(self).stmts() == old(self).stmts(),
            final(self).items() == old(self).items(),
            final(self).pats() == old(self).pats(),
            final(self).same_ranks(&*old(self)),
    {
        &mut self.tys[id.0 as usize]
    }

    /// Appends a node; its id is its position, and its rank is `next_rank`.
    /// The arena stays well-formed when the node only refers to existing nodes.
    pub fn alloc_expr(&mut self, kind: ExprKind, span: Span) -> (id: ExprId)
        ensures
            id.0 == old(self).exprs().len() as u32,
            final(self).exprs() == old(self).exprs().push(Expr { kind, span }),
            final(self).stmts() == old(self).stmts(),
            final(self).items() == old(self).items(),
            final(self).pats() == old(self).pats(),
            final(self).tys() == old(self).tys(),
            final(self).expr_rank(old(self).exprs().len() as int) == old(self).next_rank(),
            final(self).next_rank() == old(self).next_rank() + 1,
            arena_extends(&*old(self), &*final(self)),
            old(self).wf() && expr_kind_ok(&*old(self), kind, old(self).next_rank()) ==> final(self).wf(),
    {
        let id = ExprId::from_usize(self.exprs.len());
        let ghost old_a = *self;
        let ghost r = self.next@;
        let ghost k = kind;
        self.exprs.push(Expr { kind, span });
        let ghost old_ranks = self.expr_ranks@;
        let ghost len = old_a.exprs@.len() as int;
        self.expr_ranks = Ghost(Seq::new((len + 1) as nat, |j: int| if j < len { old_ranks[j] } else { r }));
        self.next = Ghost(r + 1);
        proof {
            assert(arena_extends(&old_a, &*self));
            lemma_ok_mono(&old_a, &*self);
            if old_a.wf() && expr_kind_ok(&old_a, k, r) {
                assert forall|i: int| 0 <= i < self.exprs().len() implies expr_kind_ok(&*self, #[trigger] self.exprs()[i].kind, self.expr_rank(i)) by {
                    if i < old_a.exprs().len() {
                        lemma_expr_kind_mono(&old_a, &*self, old_a.exprs()[i].kind, old_a.expr_rank(i));
                    } else {
                        lemma_expr_kind_mono(&old_a, &*self, k, r);
                    }
                }
                assert forall|i: int| 0 <= i < self.stmts().len() implies stmt_kind_ok(&*self, #[trigger] self.stmts()[i].kind, self.stmt_rank(i)) by {
                    if i < old_a.stmts().len() {
                        lemma_stmt_kind_mono(&old_a, &*self, old_a.stmts()[i].kind, old_a.stmt_rank(i));
                    } else {
                        assert(false);
                    }
                }
                assert forall|i: int| 0 <= i < self.items().len() implies item_kind_ok(&*self, #[trigger] self.items()[i].kind, self.item_rank(i)) by {
                    if i < old_a.items().len() {
                        lemma_item_kind_mono(&old_a, &*self, old_a.items()[i].kind, old_a.item_rank(i));
                    } else {
                        assert(false);
                    }
                }
                assert forall|i: int| 0 <= i < self.pats().len() implies pat_kind_ok(&*self, #[trigger] self.pats()[i].kind, self.pat_rank(i)) by {
                    if i < old_a.pats().len() {
                        lemma_pat_kind_mono(&old_a, &*self, old_a.pats()[i].kind, old_a.pat_rank(i));
                    } else {
                        assert(false);
                    }
                }
                assert forall|i: int| 0 <= i < self.tys().len() implies ty_kind_ok(&*self, #[trigger] self.tys()[i].kind, self.ty_rank(i)) by {
                    if i < old_a.tys().len() {
                        lemma_ty_kind_mono(&old_a, &*self, old_a.tys()[i].kind, old_a.ty_rank(i));
                    } else {
                        assert(false);
                    }
                }
            }
        }
        id
    }

    /// Appends a node; its id is its position, and its rank is `next_rank`.
    /// The arena stays well-formed when the node only refers to existing nodes.
    pub fn alloc_stmt(&mut self, kind: StmtKind, span: Span) -> (id: StmtId)
        ensures
            id.0 == old(self).stmts().len() as u32,
            final(self).stmts() == old(self).stmts().push(Stmt { kind, span }),
            final(self).exprs() == old(self).exprs(),
            final(self).items() == old(self).items(),
            final(self).pats() == old(self).pats(),
            final(self).tys() == old(self).tys(),
            final(self).stmt_rank(old(self).stmts().len() as int) == old(self).next_rank(),
            final(self).next_rank() == old(self).next_rank() + 1,
            arena_extends(&*old(self), &*final(self)),
            old(self).wf() && stmt_kind_ok(&*old(self), kind, old(self).next_rank()) ==> final(self).wf(),
    {
        let id = StmtId::from_usize(self.stmts.len());
        let ghost old_a = *self;
        let ghost r = self.next@;
        let ghost k = kind;
        self.stmts.push(Stmt { kind, span });
        let ghost old_ranks = self.stmt_ranks@;
        let ghost len = old_a.stmts@.len() as int;
        self.stmt_ranks = Ghost(Seq::new((len + 1) as nat, |j: int| if j < len { old_ranks[j] } else { r }));
        self.next = Ghost(r + 1);
        proof {
            assert(arena_extends(&old_a, &*self));
            lemma_ok_mono(&old_a, &*self);
            if old_a.wf() && stmt_kind_ok(&old_a, k, r) {
                assert forall|i: int| 0 <= i < self.exprs().len() implies expr_kind_ok(&*self, #[trigger] self.exprs()[i].kind, self.expr_rank(i)) by {
                    if i < old_a.exprs().len() {
                        lemma_expr_kind_mono(&old_a, &*self, old_a.exprs()[i].kind, old_a.expr_rank(i));
                    } else {
                        assert(false);
                    }
                }
                assert forall|i: int| 0 <= i < self.stmts().len() implies stmt_kind_ok(&*self, #[trigger] self.stmts()[i].kind, self.stmt_rank(i)) by {
                    if i < old_a.stmts().len() {
                        lemma_stmt_kind_mono(&old_a, &*self, old_a.stmts()[i].kind, old_a.stmt_rank(i));
                    } else {
                        lemma_stmt_kind_mono(&old_a, &*self, k, r);
                    }
                }
                assert forall|i: int| 0 <= i < self.items().len() implies item_kind_ok(&*self, #[trigger] self.items()[i].kind, self.item_rank(i)) by {
                    if i < old_a.items().len() {
                        lemma_item_kind_mono(&old_a, &*self, old_a.items()[i].kind, old_a.item_rank(i));
                    } else {
                        assert(false);
                    }
                }
                assert forall|i: int| 0 <= i < self.pats().len() implies pat_kind_ok(&*self, #[trigger] self.pats()[i].kind, self.pat_rank(i)) by {
                    if i < old_a.pats().len() {
                        lemma_pat_kind_mono(&old_a, &*self, old_a.pats()[i].kind, old_a.pat_rank(i));
                    } else {
                        assert(false);
                    }
                }
                assert forall|i: int| 0 <= i < self.tys().len() implies ty_kind_ok(&*self, #[trigger] self.tys()[i].kind, self.ty_rank(i)) by {
                    if i < old_a.tys().len() {
                        lemma_ty_kind_mono(&old_a, &*self, old_a.tys()[i].kind, old_a.ty_rank(i));
                    } else {
                        assert(false);
                    }
                }
            }
        }
        id
    }

    /// Appends a node; its id is its position, and its rank is `next_rank`.
    /// The arena stays well-formed when the node only refers to existing nodes.
    pub fn alloc_item(&mut self, kind: ItemKind, span: Span) -> (id: ItemId)
        ensures
            id.0 == old(self).items().len() as u32,
            final(self).items() == old(self).items().push(Item { kind, span }),
            final(self).exprs() == old(self).exprs(),
            final(self).stmts() == old(self).stmts(),
            final(self).pats() == old(self).pats(),
            final(self).tys() == old(self).tys(),
            final(self).item_rank(old(self).items().len() as int) == old(self).next_rank(),
            final(self).next_rank() == old(self).next_rank() + 1,
            arena_extends(&*old(self), &*final(self)),
            old(self).wf() && item_kind_ok(&*old(self), kind, old(self).next_rank()) ==> final(self).wf(),
    {
        let id = ItemId::from_usize(self.items.len());
        let ghost old_a = *self;
        let ghost r = self.next@;
        let ghost k = kind;
        self.items.push(Item { kind, span });
        let ghost old_ranks = self.item_ranks@;
        let ghost len = old_a.items@.len() as int;
        self.item_ranks = Ghost(Seq::new((len + 1) as nat, |j: int| if j < len { old_ranks[j] } else { r }));
        self.next = Ghost(r + 1);
        proof {
            assert(arena_extends(&old_a, &*self));
            lemma_ok_mono(&old_a, &*self);
            if old_a.wf() && item_kind_ok(&old_a, k, r) {
                assert forall|i: int| 0 <= i < self.exprs().len() implies expr_kind_ok(&*self, #[trigger] self.exprs()[i].kind, self.expr_rank(i)) by {
                    if i < old_a.exprs().len() {
                        lemma_expr_kind_mono(&old_a, &*self, old_a.exprs()[i].kind, old_a.expr_rank(i));
                    } else {
                        assert(false);
                    }
                }
                assert forall|i: int| 0 <= i < self.stmts().len() implies stmt_kind_ok(&*self, #[trigger] self.stmts()[i].kind, self.stmt_rank(i)) by {
                    if i < old_a.stmts().len() {
                        lemma_stmt_kind_mono(&old_a, &*self, old_a.stmts()[i].kind, old_a.stmt_rank(i));
                    } else {
                        assert(false);
                    }
                }
                assert forall|i: int| 0 <= i < self.items().len() implies item_kind_ok(&*self, #[trigger] self.items()[i].kind, self.item_rank(i)) by {
                    if i < old_a.items().len() {
                        lemma_item_kind_mono(&old_a, &*self, old_a.items()[i].kind, old_a.item_rank(i));
                    } else {
                        lemma_item_kind_mono(&old_a, &*self, k, r);
                    }
                }
                assert forall|i: int| 0 <= i < self.pats().len() implies pat_kind_ok(&*self, #[trigger] self.pats()[i].kind, self.pat_rank(i)) by {
                    if i < old_a.pats().len() {
                        lemma_pat_kind_mono(&old_a, &*self, old_a.pats()[i].kind, old_a.pat_rank(i));
                    } else {
                        assert(false);
                    }
                }
                assert forall|i: int| 0 <= i < self.tys().len() implies ty_kind_ok(&*self, #[trigger] self.tys()[i].kind, self.ty_rank(i)) by {
                    if i < old_a.tys().len() {
                        lemma_ty_kind_mono(&old_a, &*self, old_a.tys()[i].kind, old_a.ty_rank(i));
                    } else {
                        assert(false);
                    }
                }
            }
        }
        id
    }

    /// Appends a node; its id is its position, and its rank is `next_rank`.
    /// The arena stays well-formed when the node only refers to existing nodes.
    pub fn alloc_pat(&mut self, kind: PatKind, span: Span) -> (id: PatId)
        ensures
            id.0 == old(self).pats().len() as u32,
            final(self).pats() == old(self).pats().push(Pat { kind, span }),
            final(self).exprs() == old(self).exprs(),
            final(self).stmts() == old(self).stmts(),
            final(self).items() == old(self).items(),
            final(self).tys() == old(self).tys(),
            final(self).pat_rank(old(self).pats().len() as int) == old(self).next_rank(),
            final(self).next_rank() == old(self).next_rank() + 1,
            arena_extends(&*old(self), &*final(self)),
            old(self).wf() && pat_kind_ok(&*old(self), kind, old(self).next_rank()) ==> final(self).wf(),
    {
        let id = PatId::from_usize(self.pats.len());
        let ghost old_a = *self;
        let ghost r = self.next@;
        let ghost k = kind;
        self.pats.push(Pat { kind, span });
        let ghost old_ranks = self.pat_ranks@;
        let ghost len = old_a.pats@.len() as int;
        self.pat_ranks = Ghost(Seq::new((len + 1) as nat, |j: int| if j < len { old_ranks[j] } else { r }));
        self.next = Ghost(r + 1);
        proof {
            assert(arena_extends(&old_a, &*self));
            lemma_ok_mono(&old_a, &*self);
            if old_a.wf() && pat_kind_ok(&old_a, k, r) {
                assert forall|i: int| 0 <= i < self.exprs().len() implies expr_kind_ok(&*self, #[trigger] self.exprs()[i].kind, self.expr_rank(i)) by {
                    if i < old_a.exprs().len() {
                        lemma_expr_kind_mono(&old_a, &*self, old_a.exprs()[i].kind, old_a.expr_rank(i));
                    } else {
                        assert(false);
                    }
                }
                assert forall|i: int| 0 <= i < self.stmts().len() implies stmt_kind_ok(&*self, #[trigger] self.stmts()[i].kind, self.stmt_rank(i)) by {
                    if i < old_a.stmts().len() {
                        lemma_stmt_kind_mono(&old_a, &*self, old_a.stmts()[i].kind, old_a.stmt_rank(i));
                    } else {
                        assert(false);
                    }
                }
                assert forall|i: int| 0 <= i < self.items().len() implies item_kind_ok(&*self, #[trigger] self.items()[i].kind, self.item_rank(i)) by {
                    if i < old_a.items().len() {
                        lemma_item_kind_mono(&old_a, &*self, old_a.items()[i].kind, old_a.item_rank(i));
                    } else {
                        assert(false);
                    }
                }
                assert forall|i: int| 0 <= i < self.pats().len() implies pat_kind_ok(&*self, #[trigger] self.pats()[i].kind, self.pat_rank(i)) by {
                    if i < old_a.pats().len() {
                        lemma_pat_kind_mono(&old_a, &*self, old_a.pats()[i].kind, old_a.pat_rank(i));
                    } else {
                        lemma_pat_kind_mono(&old_a, &*self, k, r);
                    }
                }
                assert forall|i: int| 0 <= i < self.tys().len() implies ty_kind_ok(&*self, #[trigger] self.tys()[i].kind, self.ty_rank(i)) by {
                    if i < old_a.tys().len() {
                        lemma_ty_kind_mono(&old_a, &*self, old_a.tys()[i].kind, old_a.ty_rank(i));
                    } else {
                        assert(false);
                    }
                }
            }
        }
        id
    }

    /// Appends a node; its id is its position, and its rank is `next_rank`.
    /// The arena stays well-formed when the node only refers to existing nodes.
    pub fn alloc_ty(&mut self, kind: TyKind, span: Span) -> (id: TyId)
        ensures
            id.0 == old(self).tys().len() as u32,
            final(self).tys() == old(self).tys().push(Ty { kind, span }),
            final(self).exprs() == old(self).exprs(),
            final(self).stmts() == old(self).stmts(),
            final(self).items() == old(self).items(),
            final(self).pats() == old(self).pats(),
            final(self).ty_rank(old(self).tys().len() as int) == old(self).next_rank(),
            final(self).next_rank() == old(self).next_rank() + 1,
            arena_extends(&*old(self), &*final(self)),
            old(self).wf() && ty_kind_ok(&*old(self), kind, old(self).next_rank()) ==> final(self).wf(),
    {
        let id = TyId::from_usize(self.tys.len());
        let ghost old_a = *self;
        let ghost r = self.next@;
        let ghost k = kind;
        self.tys.push(Ty { kind, span });
        let ghost old_ranks = self.ty_ranks@;
        let ghost len = old_a.tys@.len() as int;
        self.ty_ranks = Ghost(Seq::new((len + 1) as nat, |j: int| if j < len { old_ranks[j] } else { r }));
        self.next = Ghost(r + 1);
        proof {
            assert(arena_extends(&old_a, &*self));
            lemma_ok_mono(&old_a, &*self);
            if old_a.wf() && ty_kind_ok(&old_a, k, r) {
                assert forall|i: int| 0 <= i < self.exprs().len() implies expr_kind_ok(&*self, #[trigger] self.exprs()[i].kind, self.expr_rank(i)) by {
                    if i < old_a.exprs().len() {
                        lemma_expr_kind_mono(&old_a, &*self, old_a.exprs()[i].kind, old_a.expr_rank(i));
                    } else {
                        assert(false);
                    }
                }
                assert forall|i: int| 0 <= i < self.stmts().len() implies stmt_kind_ok(&*self, #[trigger] self.stmts()[i].kind, self.stmt_rank(i)) by {
                    if i < old_a.stmts().len() {
                        lemma_stmt_kind_mono(&old_a, &*self, old_a.stmts()[i].kind, old_a.stmt_rank(i));
                    } else {
                        assert(false);
                    }
                }
                assert forall|i: int| 0 <= i < self.items().len() implies item_kind_ok(&*self, #[trigger] self.items()[i].kind, self.item_rank(i)) by {
                    if i < old_a.items().len() {
                        lemma_item_kind_mono(&old_a, &*self, old_a.items()[i].kind, old_a.item_rank(i));
                    } else {
                        assert(false);
                    }
                }
                assert forall|i: int| 0 <= i < self.pats().len() implies pat_kind_ok(&*self, #[trigger] self.pats()[i].kind, self.pat_rank(i)) by {
                    if i < old_a.pats().len() {
                        lemma_pat_kind_mono(&old_a, &*self, old_a.pats()[i].kind, old_a.pat_rank(i));
                    } else {
                        assert(false);
                    }
                }
                assert forall|i: int| 0 <= i < self.tys().len() implies ty_kind_ok(&*self, #[trigger] self.tys()[i].kind, self.ty_rank(i)) by {
                    if i < old_a.tys().len() {
                        lemma_ty_kind_mono(&old_a, &*self, old_a.tys()[i].kind, old_a.ty_rank(i));
                    } else {
                        lemma_ty_kind_mono(&old_a, &*self, k, r);
                    }
                }
            }
        }
        id
    }
}

/// Reading the id that `alloc_expr(kind, span)` returned gives the node
/// it was given, and every earlier node keeps its id: `before` and `after`
/// are the arena around the call, while ids still fit in 32 bits.
pub proof fn expr_read_after_alloc(before: Arena, after: Arena, id: ExprId, kind: ExprKind, span: Span, other: ExprId)
    requires
        before.exprs().len() < u32::MAX,
        id.0 == before.exprs().len() as u32,
        after.exprs() == before.exprs().push(Expr { kind, span }),
        other.0 < before.exprs().len(),
    ensures
        id.0 < after.exprs().len(),
        after.exprs()[id.0 as int] == (Expr { kind, span }),
        after.exprs()[other.0 as int] == before.exprs()[other.0 as int],
        other != id,
{
}

} // verus!
