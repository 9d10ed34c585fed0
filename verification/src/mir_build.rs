//! Lowering of HIR function bodies to MIR control-flow graphs.

pub mod builder;
pub mod lower;

use vstd::prelude::*;

use crate::hir::{HirBody, HirCrate, HirOwner, HirOwnerKind};
use crate::hir::expr::HirExprKind;
use crate::hir::stmt::HirStmtKind;
use crate::ids::MirFuncId;
use crate::mir::body::MirCrate;

pub use lower::lower_function;

verus! {

/// The body of a function owner.
pub open spec fn owner_body(o: HirOwner) -> HirBody {
    match o.kind {
        HirOwnerKind::Function(b) => b,
    }
}

/// What building the MIR of a HIR crate gives: the `i`-th owner becomes
/// function `i`, lowered from its body.
pub open spec fn mir_built_from(c: MirCrate, hir: HirCrate) -> bool {
    &&& c.funcs().len() == hir.entries().len()
    &&& forall|i: int| 0 <= i < c.funcs().len() ==> (#[trigger] c.funcs()[i]).0 == MirFuncId(i as u32)
    &&& forall|i: int| 0 <= i < c.funcs().len() ==> lower::lowered_from(#[trigger] c.funcs()[i].1, owner_body(hir.entries()[i].1))
    &&& c.defs().len() == hir.entries().len()
    &&& forall|i: int| 0 <= i < c.defs().len() ==> #[trigger] c.defs()[i] == (hir.entries()[i].0, MirFuncId(i as u32))
}

/// Builds the MIR of every function of a HIR crate: the `i`-th owner gets
/// function id `i`, and its definition maps to it.
pub fn build_mir(hir: &HirCrate) -> (c: MirCrate)
    requires
        hir.entries().len() < u32::MAX,
        forall|i: int| 0 <= i < hir.entries().len() ==> lower::hir_wf(owner_body(#[trigger] hir.entries()[i].1)),
    ensures
        mir_built_from(c, *hir),
{
    let mut crate_ = MirCrate::new();
    let n = hir.len();
    let mut i: usize = 0;
    while i < n
        invariant
            i <= n,
            n == hir.entries().len(),
            n < u32::MAX,
            forall|j: int| 0 <= j < n ==> lower::hir_wf(owner_body(#[trigger] hir.entries()[j].1)),
            crate_.funcs().len() == i,
            forall|j: int| 0 <= j < i ==> (#[trigger] crate_.funcs()[j]).0 == MirFuncId(j as u32),
            forall|j: int| 0 <= j < i ==> lower::lowered_from(#[trigger] crate_.funcs()[j].1, owner_body(hir.entries()[j].1)),
            crate::hir::owner::keys_distinct(hir.entries()),
            crate_.defs().len() == i,
            forall|j: int| 0 <= j < i ==> #[trigger] crate_.defs()[j] == (hir.entries()[j].0, MirFuncId(j as u32)),
        decreases n - i,
    {
        let (def_id, owner) = hir.entry_at(i);
        let HirOwnerKind::Function(body) = &owner.kind;
        assert(lower::hir_wf(owner_body(hir.entries()[i as int].1)));
        let func_id = MirFuncId(crate_.function_count() as u32);
        let mir_body = lower::lower_function(body);
        assert forall|j: int| 0 <= j < crate_.defs().len() implies crate_.defs()[j].0 != def_id by {
            assert(crate_.defs()[j] == (hir.entries()[j].0, MirFuncId(j as u32)));
            assert(hir.entries()[j].0 != hir.entries()[i as int].0);
        }
        crate_.insert_def(def_id, func_id);
        assert forall|j: int| 0 <= j < crate_.funcs().len() implies (#[trigger] crate_.funcs()[j]).0 != func_id by {
            assert(crate_.funcs()[j].0 == MirFuncId(j as u32));
        }
        crate_.insert_function(func_id, mir_body);
        i = i + 1;
    }
    crate_
}

/// Whether the ids of `b` index its tables, with every expression after
/// the expressions it is built from.
pub fn check_hir_wf(b: &HirBody) -> (r: bool)
    ensures
        r == lower::hir_wf(*b),
{
    let ns = b.stmts_data.len();
    let ne = b.exprs.len();
    let mut i: usize = 0;
    while i < b.stmts.len()
        invariant
            i <= b.stmts@.len(),
            ns == b.stmts_data@.len(),
            forall|j: int| 0 <= j < i ==> (#[trigger] b.stmts@[j]).0 < ns,
        decreases b.stmts@.len() - i,
    {
        if b.stmts[i].index() >= ns {
            return false;
        }
        i = i + 1;
    }
    let mut i: usize = 0;
    while i < ns
        invariant
            i <= ns,
            ns == b.stmts_data@.len(),
            ne == b.exprs@.len(),
            forall|j: int| 0 <= j < i ==> lower::stmt_exprs_in(#[trigger] b.stmts_data@[j].kind, ne as nat),
        decreases ns - i,
    {
        let ok = match &b.stmts_data[i].kind {
            HirStmtKind::Expr(e) => e.index() < ne,
            HirStmtKind::Return(Some(e)) => e.index() < ne,
            HirStmtKind::While { cond, .. } => cond.index() < ne,
            _ => true,
        };
        if !ok {
            return false;
        }
        i = i + 1;
    }
    let mut i: usize = 0;
    while i < ne
        invariant
            i <= ne,
            ns == b.stmts_data@.len(),
            ne == b.exprs@.len(),
            forall|j: int| 0 <= j < b.stmts@.len() ==> (#[trigger] b.stmts@[j]).0 < ns,
            forall|j: int| 0 <= j < ns ==> lower::stmt_exprs_in(#[trigger] b.stmts_data@[j].kind, ne as nat),
            forall|j: int| 0 <= j < i ==> lower::children_below(#[trigger] b.exprs@[j].kind, j),
        decreases ne - i,
    {
        let ok = match &b.exprs[i].kind {
            HirExprKind::Unary { operand, .. } => operand.index() < i,
            HirExprKind::Binary { left, right, .. } => left.index() < i && right.index() < i,
            HirExprKind::Call { args, .. } => {
                let mut k: usize = 0;
                let mut all = true;
                while k < args.len()
                    invariant
                        k <= args@.len(),
                        all ==> forall|m: int| 0 <= m < k ==> (#[trigger] args@[m]).0 < i,
                        !all ==> exists|m: int| 0 <= m < args@.len() && (#[trigger] args@[m]).0 >= i,
                    decreases args@.len() - k,
                {
                    if args[k].index() >= i {
                        all = false;
                    }
                    k = k + 1;
                }
                all
            },
            HirExprKind::If { cond, then, else_branch } => cond.index() < i && then.index() < i
                && else_branch.index() < i,
            _ => true,
        };
        if !ok {
            assert(!lower::children_below(b.exprs@[i as int].kind, i as int));
            return false;
        }
        i = i + 1;
    }
    true
}

/// [`build_mir`] can lower every owner of `hir`.
pub open spec fn lowerable(hir: HirCrate) -> bool {
    hir.entries().len() < u32::MAX && forall|i: int|
        0 <= i < hir.entries().len() ==> lower::hir_wf(owner_body(#[trigger] hir.entries()[i].1))
}

/// Whether [`build_mir`] can lower every owner of `hir`.
pub fn can_build_mir(hir: &HirCrate) -> (r: bool)
    ensures
        r == lowerable(*hir),
{
    let n = hir.len();
    if n >= 4294967295usize {
        return false;
    }
    let mut i: usize = 0;
    while i < n
        invariant
            i <= n,
            n == hir.entries().len(),
            n < u32::MAX,
            forall|j: int| 0 <= j < i ==> lower::hir_wf(owner_body(#[trigger] hir.entries()[j].1)),
        decreases n - i,
    {
        let (_, owner) = hir.entry_at(i);
        let HirOwnerKind::Function(body) = &owner.kind;
        if !check_hir_wf(body) {
            return false;
        }
        i = i + 1;
    }
    true
}

/// Builds the MIR of a typed module through its HIR; `None` when a
/// function body of that HIR cannot be lowered to MIR.
pub fn build_mir_from_typed(
    typed: &crate::hir_build::TypedCrate,
    module: &crate::ast::Module,
    arena: &crate::ast::arena::Arena,
) -> (r: Option<MirCrate>)
    requires
        arena.wf(),
        forall|i: int| 0 <= i < typed.item_def_ids@.len() ==> (#[trigger] typed.item_def_ids@[i]).0 .0 < arena.items().len(),
    ensures
        exists|h: HirCrate|
            #[trigger] crate::hir_build::hir_built_from(h, typed, arena) && (r is Some <==> lowerable(h)) && (r matches Some(
                c,
            ) ==> mir_built_from(c, h)),
{
    let hir = crate::hir_build::build_hir(typed, module, arena);
    if !can_build_mir(&hir) {
        assert(crate::hir_build::hir_built_from(hir, typed, arena));
        return None;
    }
    let c = build_mir(&hir);
    assert(crate::hir_build::hir_built_from(hir, typed, arena));
    Some(c)
}

} // verus!
