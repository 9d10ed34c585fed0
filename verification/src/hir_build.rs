//! Lowering of the typed AST of a module to HIR: one function body per
//! function item, with locals, expressions, statements and patterns in
//! tables.

use vstd::prelude::*;

use crate::ast::arena::{expr_kind_ok, expr_ok, exprs_ok, stmt_kind_ok, stmt_ok, stmts_ok, Arena};
use crate::ast::expr::{BinaryOp as AstBinOp, ExprKind, UnaryOp as AstUnaryOp};
use crate::ast::item::ItemKind;
use crate::ast::literal::Literal;
use crate::ast::pat::{Mutability as AstPatMut, PatKind};
use crate::ast::stmt::StmtKind;
use crate::hir::expr::{HirExpr, HirExprKind};
use crate::hir::ids::{HirExprId, HirPatId, HirStmtId};
use crate::hir::owner::{HirCrate, HirOwner, HirOwnerKind};
use crate::hir::pat::{HirPat, HirPatKind};
use crate::hir::place::{BinaryOp, HirConst, Operand, Place, Rvalue, UnaryOp};
use crate::hir::stmt::{HirBody, HirStmt, HirStmtKind, LocalDecl};
use crate::ids::{DefId, ExprId, ItemId, LocalId, PatId, StmtId, TypeId};
use crate::mir::body::MirCrate;
use crate::mir::body::def_lookup;
use crate::mir::interp::{run_body, Ending};
use crate::mir_build::lower::{call_args, printing_run};
use crate::mir::value::VVal;
use crate::mir::ops::{abs, binary_spec, unary_spec};
use crate::mir_build::lower::{
    children_below, const_call, const_expr, const_value, hir_const_value, hir_wf, lemma_const_prefix, lower_binop_spec, single_const_return, stmt_exprs_in, calls_then_return, call_values, return_value, stmt_const_call,
    unop_spec,
};
use crate::span::Span;
use crate::types::{Mutability, Subst};

verus! {

/// What type checking and name resolution determined about a module, as
/// the lowering reads it.
pub struct TypedCrate {
    /// The unit type, the type of anything without a recorded type.
    pub unit: TypeId,
    /// The type of each expression, by expression id.
    pub expr_types: Vec<Option<TypeId>>,
    /// The type of each pattern, by pattern id.
    pub pat_types: Vec<Option<TypeId>>,
    /// The return type of each function definition.
    pub fn_ret: Vec<(DefId, TypeId)>,
    /// The parameter types of each function definition.
    pub fn_params: Vec<(DefId, Vec<TypeId>)>,
    /// The definition of each item, in order.
    pub item_def_ids: Vec<(ItemId, DefId)>,
    /// The definition that the path of a path, call or struct expression
    /// resolves to, by expression id.
    pub expr_paths: Vec<Option<DefId>>,
    /// The definition that the path of an enum pattern resolves to, by
    /// pattern id.
    pub pat_paths: Vec<Option<DefId>>,
}

/// The return type recorded first for `def` in `s`.
pub open spec fn first_ret(s: Seq<(DefId, TypeId)>, def: DefId) -> Option<TypeId>
    decreases s.len(),
{
    if s.len() == 0 {
        None
    } else if s[0].0 == def {
        Some(s[0].1)
    } else {
        first_ret(s.drop_first(), def)
    }
}

/// The parameter types recorded first for `def` in `s`.
pub open spec fn first_params(s: Seq<(DefId, Vec<TypeId>)>, def: DefId) -> Option<Vec<TypeId>>
    decreases s.len(),
{
    if s.len() == 0 {
        None
    } else if s[0].0 == def {
        Some(s[0].1)
    } else {
        first_params(s.drop_first(), def)
    }
}

/// A type recorded by id, the unit type where none is.
pub open spec fn recorded_ty(tys: Seq<Option<TypeId>>, i: int, unit: TypeId) -> TypeId {
    if 0 <= i < tys.len() {
        match tys[i] {
            Some(t) => t,
            None => unit,
        }
    } else {
        unit
    }
}

impl TypedCrate {
    fn expr_ty(&self, id: ExprId) -> (t: TypeId)
        ensures
            t == recorded_ty(self.expr_types@, id.0 as int, self.unit),
    {
        let i = id.index();
        if i < self.expr_types.len() {
            match self.expr_types[i] {
                Some(t) => t,
                None => self.unit,
            }
        } else {
            self.unit
        }
    }

    fn pat_ty(&self, id: PatId) -> (t: TypeId)
        ensures
            t == recorded_ty(self.pat_types@, id.0 as int, self.unit),
    {
        let i = id.index();
        if i < self.pat_types.len() {
            match self.pat_types[i] {
                Some(t) => t,
                None => self.unit,
            }
        } else {
            self.unit
        }
    }

    /// The definition recorded for the path of expression `id`.
    pub open spec fn expr_path_spec(&self, id: ExprId) -> Option<DefId> {
        if id.0 < self.expr_paths@.len() {
            self.expr_paths@[id.0 as int]
        } else {
            None
        }
    }

    fn expr_path(&self, id: ExprId) -> (r: Option<DefId>)
        ensures
            r == self.expr_path_spec(id),
    {
        let i = id.index();
        if i < self.expr_paths.len() {
            self.expr_paths[i]
        } else {
            None
        }
    }

    /// The definition recorded for the path of pattern `id`.
    pub open spec fn pat_path_spec(&self, id: PatId) -> Option<DefId> {
        if id.0 < self.pat_paths@.len() {
            self.pat_paths@[id.0 as int]
        } else {
            None
        }
    }

    fn pat_path(&self, id: PatId) -> (r: Option<DefId>)
        ensures
            r == self.pat_path_spec(id),
    {
        let i = id.index();
        if i < self.pat_paths.len() {
            self.pat_paths[i]
        } else {
            None
        }
    }

    fn ret_of(&self, def: DefId) -> (r: Option<TypeId>)
        ensures
            r == first_ret(self.fn_ret@, def),
    {
        let mut i: usize = 0;
        assert(self.fn_ret@.subrange(0, self.fn_ret@.len() as int) =~= self.fn_ret@);
        while i < self.fn_ret.len()
            invariant
                i <= self.fn_ret@.len(),
                first_ret(self.fn_ret@.subrange(i as int, self.fn_ret@.len() as int), def) == first_ret(self.fn_ret@, def),
            decreases self.fn_ret@.len() - i,
        {
            let ghost rest = self.fn_ret@.subrange(i as int, self.fn_ret@.len() as int);
            assert(rest[0] == self.fn_ret@[i as int]);
            if self.fn_ret[i].0 == def {
                return Some(self.fn_ret[i].1);
            }
            assert(rest.drop_first() =~= self.fn_ret@.subrange(i + 1, self.fn_ret@.len() as int));
            i = i + 1;
        }
        assert(self.fn_ret@.subrange(i as int, self.fn_ret@.len() as int).len() == 0);
        None
    }

    fn params_of(&self, def: DefId) -> (r: Option<&Vec<TypeId>>)
        ensures
            match r {
                Some(v) => first_params(self.fn_params@, def) == Some(*v),
                None => first_params(self.fn_params@, def) is None,
            },
    {
        let mut i: usize = 0;
        assert(self.fn_params@.subrange(0, self.fn_params@.len() as int) =~= self.fn_params@);
        while i < self.fn_params.len()
            invariant
                i <= self.fn_params@.len(),
                first_params(self.fn_params@.subrange(i as int, self.fn_params@.len() as int), def) == first_params(
                    self.fn_params@,
                    def,
                ),
            decreases self.fn_params@.len() - i,
        {
            let ghost rest = self.fn_params@.subrange(i as int, self.fn_params@.len() as int);
            assert(rest[0] == self.fn_params@[i as int]);
            if self.fn_params[i].0 == def {
                return Some(&self.fn_params[i].1);
            }
            assert(rest.drop_first() =~= self.fn_params@.subrange(i + 1, self.fn_params@.len() as int));
            i = i + 1;
        }
        assert(self.fn_params@.subrange(i as int, self.fn_params@.len() as int).len() == 0);
        None
    }
}

/// A statement's expressions exist, except the placeholder expression 0.
pub open spec fn stmt_exprs_in_or_zero(k: HirStmtKind, n: nat) -> bool {
    match k {
        HirStmtKind::Expr(e) => e.0 < n || e.0 == 0,
        _ => stmt_exprs_in(k, n),
    }
}

/// The local of the last entry of `s` named `name`.
pub open spec fn last_local(s: Seq<(String, LocalId)>, name: Seq<char>) -> Option<LocalId>
    decreases s.len(),
{
    if s.len() == 0 {
        None
    } else if s.last().0@ == name {
        Some(s.last().1)
    } else {
        last_local(s.drop_last(), name)
    }
}

struct HirBuilder {
    exprs: Vec<HirExpr>,
    stmts: Vec<HirStmt>,
    pats: Vec<HirPat>,
    locals: Vec<LocalDecl>,
    local_names: Vec<(String, LocalId)>,
    next_local: usize,
}

impl HirBuilder {
    /// Every expression comes after those it is built from and every
    /// statement refers to existing expressions.
    spec fn wf(&self) -> bool {
        &&& forall|i: int| 0 <= i < self.exprs@.len() ==> children_below(#[trigger] self.exprs@[i].kind, i)
        &&& forall|i: int| 0 <= i < self.stmts@.len() ==> stmt_exprs_in_or_zero(#[trigger] self.stmts@[i].kind, self.exprs@.len())
        &&& self.next_local == self.locals@.len()
    }

    /// `b` holds the expressions and statements of `a`, and perhaps more.
    spec fn grows(&self, b: &HirBuilder) -> bool {
        &&& self.exprs@.len() <= b.exprs@.len()
        &&& self.stmts@.len() <= b.stmts@.len()
        &&& forall|i: int| 0 <= i < self.exprs@.len() ==> #[trigger] b.exprs@[i] == self.exprs@[i]
        &&& forall|i: int| 0 <= i < self.stmts@.len() ==> #[trigger] b.stmts@[i] == self.stmts@[i]
    }

    fn new() -> (b: HirBuilder)
        ensures
            b.wf(),
            b.exprs@.len() == 0,
            b.stmts@.len() == 0,
            b.pats@.len() == 0,
            b.locals@.len() == 0,
            b.local_names@.len() == 0,
            b.next_local == 0,
    {
        HirBuilder {
            exprs: Vec::new(),
            stmts: Vec::new(),
            pats: Vec::new(),
            locals: Vec::new(),
            local_names: Vec::new(),
            next_local: 0,
        }
    }

    fn alloc_local(&mut self, name: String, ty: TypeId, mutability: Mutability, span: Span) -> (id: LocalId)
        requires
            old(self).wf(),
        ensures
            final(self).wf(),
            old(self).grows(&*final(self)),
            final(self).exprs@ == old(self).exprs@,
            final(self).stmts@ == old(self).stmts@,
            final(self).pats@ == old(self).pats@,
            id.0 == old(self).locals@.len() as u32,
            final(self).locals@ == old(self).locals@.push(LocalDecl { ty, mutability, span }),
            final(self).local_names@ == old(self).local_names@.push((name, id)),
    {
        let id = LocalId::from_usize(self.next_local);
        self.locals.push(LocalDecl { ty, mutability, span });
        self.next_local = self.locals.len();
        self.local_names.push((name, id));
        id
    }

    /// The local most recently declared under `name`.
    fn lookup_local(&self, name: &str) -> (r: Option<LocalId>)
        ensures
            r == last_local(self.local_names@, name@),
    {
        let mut i = self.local_names.len();
        assert(self.local_names@.subrange(0, i as int) =~= self.local_names@);
        while i > 0
            invariant
                i <= self.local_names@.len(),
                last_local(self.local_names@.subrange(0, i as int), name@) == last_local(self.local_names@, name@),
            decreases i,
        {
            let ghost front = self.local_names@.subrange(0, i as int);
            i = i - 1;
            assert(front.last() == self.local_names@[i as int]);
            if crate::text::str_eq(self.local_names[i].0.as_str(), name) {
                return Some(self.local_names[i].1);
            }
            assert(front.drop_last() =~= self.local_names@.subrange(0, i as int));
        }
        None
    }

    fn alloc_expr(&mut self, kind: HirExprKind, ty: TypeId, span: Span) -> (id: HirExprId)
        requires
            old(self).wf(),
            children_below(kind, old(self).exprs@.len() as int),
        ensures
            final(self).wf(),
            old(self).grows(&*final(self)),
            id.0 < final(self).exprs@.len(),
            final(self).exprs@.len() == old(self).exprs@.len() + 1,
            final(self).exprs@ == old(self).exprs@.push(HirExpr { kind, ty, span }),
            id.0 == old(self).exprs@.len() as u32,
            final(self).stmts@ == old(self).stmts@,
            final(self).locals@ == old(self).locals@,
    {
        let id = HirExprId::from_usize(self.exprs.len());
        self.exprs.push(HirExpr { kind, ty, span });
        proof {
            assert forall|i: int| 0 <= i < self.stmts@.len() implies stmt_exprs_in_or_zero(#[trigger] self.stmts@[i].kind, self.exprs@.len()) by {
                assert(stmt_exprs_in_or_zero(old(self).stmts@[i].kind, old(self).exprs@.len()));
            }
        }
        id
    }

    fn alloc_stmt(&mut self, kind: HirStmtKind, span: Span) -> (id: HirStmtId)
        requires
            old(self).wf(),
            stmt_exprs_in_or_zero(kind, old(self).exprs@.len()),
        ensures
            final(self).wf(),
            old(self).grows(&*final(self)),
            id.0 < final(self).stmts@.len(),
            final(self).exprs@ == old(self).exprs@,
            final(self).stmts@ == old(self).stmts@.push(HirStmt { kind, span }),
            final(self).locals@ == old(self).locals@,
            id.0 == old(self).stmts@.len() as u32,
    {
        let id = HirStmtId::from_usize(self.stmts.len());
        self.stmts.push(HirStmt { kind, span });
        id
    }

    fn alloc_pat(&mut self, kind: HirPatKind, span: Span) -> (id: HirPatId)
        requires
            old(self).wf(),
        ensures
            final(self).wf(),
            old(self).grows(&*final(self)),
            final(self).exprs@ == old(self).exprs@,
            final(self).stmts@ == old(self).stmts@,
            final(self).locals@ == old(self).locals@,
            final(self).local_names@ == old(self).local_names@,
            id.0 == old(self).pats@.len() as u32,
            final(self).pats@ == old(self).pats@.push(HirPat { kind, span }),
    {
        let id = HirPatId::from_usize(self.pats.len());
        self.pats.push(HirPat { kind, span });
        id
    }
}

/// The HIR constant of a literal: numbers, booleans and strings as they
/// are, other literals as the unit constant.
pub fn ast_literal(lit: &Literal) -> (c: HirConst)
    ensures
        match *lit {
            Literal::Int(n) => c == HirConst::Int(n),
            Literal::Bool(b) => c == HirConst::Bool(b),
            Literal::Float(f) => c matches HirConst::Float(g) && g@ == f@,
            Literal::String(s) => c matches HirConst::Str(t) && t@ == s@,
            _ => c == HirConst::Unit,
        },
{
    match lit {
        Literal::Int(n) => HirConst::Int(*n),
        Literal::Bool(b) => HirConst::Bool(*b),
        Literal::Float(f) => HirConst::Float(f.clone()),
        Literal::String(s) => HirConst::Str(s.clone()),
        _ => HirConst::Unit,
    }
}

/// The HIR operator of an AST binary operator; operators HIR lacks become
/// `Add`.
pub open spec fn spec_lower_binop(op: AstBinOp) -> BinaryOp {
    match op {
        AstBinOp::Add => BinaryOp::Add,
        AstBinOp::Sub => BinaryOp::Sub,
        AstBinOp::Mul => BinaryOp::Mul,
        AstBinOp::Div => BinaryOp::Div,
        AstBinOp::Eq => BinaryOp::Eq,
        AstBinOp::NotEq => BinaryOp::NotEq,
        AstBinOp::Lt => BinaryOp::Lt,
        AstBinOp::LtEq => BinaryOp::LtEq,
        AstBinOp::Gt => BinaryOp::Gt,
        AstBinOp::GtEq => BinaryOp::GtEq,
        AstBinOp::And => BinaryOp::And,
        AstBinOp::Or => BinaryOp::Or,
        _ => BinaryOp::Add,
    }
}

/// The HIR operator of an AST binary operator; operators HIR lacks become
/// `Add`.
pub fn lower_binop(op: AstBinOp) -> (r: BinaryOp)
    ensures
        r == spec_lower_binop(op),
        r == match op {
            AstBinOp::Add => BinaryOp::Add,
            AstBinOp::Sub => BinaryOp::Sub,
            AstBinOp::Mul => BinaryOp::Mul,
            AstBinOp::Div => BinaryOp::Div,
            AstBinOp::Eq => BinaryOp::Eq,
            AstBinOp::NotEq => BinaryOp::NotEq,
            AstBinOp::Lt => BinaryOp::Lt,
            AstBinOp::LtEq => BinaryOp::LtEq,
            AstBinOp::Gt => BinaryOp::Gt,
            AstBinOp::GtEq => BinaryOp::GtEq,
            AstBinOp::And => BinaryOp::And,
            AstBinOp::Or => BinaryOp::Or,
            _ => BinaryOp::Add,
        },
{
    match op {
        AstBinOp::Add => BinaryOp::Add,
        AstBinOp::Sub => BinaryOp::Sub,
        AstBinOp::Mul => BinaryOp::Mul,
        AstBinOp::Div => BinaryOp::Div,
        AstBinOp::Eq => BinaryOp::Eq,
        AstBinOp::NotEq => BinaryOp::NotEq,
        AstBinOp::Lt => BinaryOp::Lt,
        AstBinOp::LtEq => BinaryOp::LtEq,
        AstBinOp::Gt => BinaryOp::Gt,
        AstBinOp::GtEq => BinaryOp::GtEq,
        AstBinOp::And => BinaryOp::And,
        AstBinOp::Or => BinaryOp::Or,
        _ => BinaryOp::Add,
    }
}


/// The AST expression that statement `s` returns, where it is `return`
/// of an expression built from literals and operators.
pub open spec fn ast_stmt_const_return(a: &Arena, s: int) -> Option<int> {
    if 0 <= s < a.stmts().len() {
        match a.stmts()[s].kind {
            StmtKind::Return(Some(ex)) => if ast_const_expr(a, ex.0 as int) {
                Some(ex.0 as int)
            } else {
                None
            },
            _ => None,
        }
    } else {
        None
    }
}

/// Where the ids of the tables fit, statement `sid` returns a constant
/// expression with the value of AST expression `ex`.
pub open spec fn returns_ast_const(exprs: Seq<HirExpr>, stmts: Seq<HirStmt>, sid: int, a: &Arena, ex: int) -> bool {
    exprs.len() <= u32::MAX && stmts.len() <= u32::MAX ==> 0 <= sid < stmts.len() && match stmts[sid].kind {
        HirStmtKind::Return(Some(e)) => const_expr(exprs, e.0 as int) && const_value(exprs, e.0 as int)
            == ast_const_value(a, ex),
        _ => false,
    }
}

/// The call that AST statement `s` is, where it is an expression
/// statement calling something on one constant expression.
pub open spec fn ast_stmt_const_call(a: &Arena, s: int) -> Option<(ExprId, int)> {
    if 0 <= s < a.stmts().len() {
        match a.stmts()[s].kind {
            StmtKind::Expr(e) => ast_const_call(a, e.0 as int),
            _ => None,
        }
    } else {
        None
    }
}

/// Where the ids of the tables fit, statement `sid` is an expression
/// statement calling the definition that the callee of AST call `cl`
/// names, on an expression with the value of its argument.
pub open spec fn calls_ast(
    exprs: Seq<HirExpr>,
    stmts: Seq<HirStmt>,
    sid: int,
    typed: &TypedCrate,
    a: &Arena,
    cl: (ExprId, int),
) -> bool {
    exprs.len() <= u32::MAX && stmts.len() <= u32::MAX ==> 0 <= sid < stmts.len() && match stmts[sid].kind {
        HirStmtKind::Expr(he) => const_call(exprs, he.0 as int) matches Some(hc) && hc.0 == callee_def(typed, a, cl.0)
            && const_value(exprs, hc.1) == ast_const_value(a, cl.1),
        _ => false,
    }
}

/// Where the ids of the tables fit, the last statement of `stmts` has the
/// shape of AST statement `s`, whose lowering began with `locals0` locals
/// and ended with `locals`:
/// - an expression statement: on the lowered expression, the last one;
/// - an assignment to patterns: `Assign` to the place the first pattern
///   names (the fresh local `locals0` for a name, the return local
///   otherwise) of a copy of the lowered value, the last expression, read
///   from its own local where it is a local and from a fresh temporary
///   otherwise; without patterns, an expression statement on the value;
/// - `if` and `while`: an expression statement on the lowered test;
/// - `match`: an expression statement on the last expression, a `match`
///   over the lowered scrutinee with one arm per AST arm;
/// - a `return` is stated apart; anything else is an expression statement
///   on expression 0.
pub open spec fn stmt_shape(
    exprs: Seq<HirExpr>,
    stmts: Seq<HirStmt>,
    locals0: int,
    locals: int,
    typed: &TypedCrate,
    a: &Arena,
    s: int,
) -> bool {
    exprs.len() <= u32::MAX && stmts.len() <= u32::MAX ==> {
        let last = HirExprId((exprs.len() - 1) as u32);
        &&& 0 <= s < a.stmts().len()
        &&& stmts.len() > 0
        &&& match a.stmts()[s].kind {
            StmtKind::Expr(e) => stmts.last().kind == HirStmtKind::Expr(last) && mirrors(exprs, exprs.len() - 1, typed, a, e.0 as int),
            StmtKind::Assign { targets, value } => if targets@.len() > 0 {
                &&& stmts.last().kind matches HirStmtKind::Assign { place, rvalue: Rvalue::Use(Operand::Copy(src)) }
                &&& place.projection@.len() == 0
                &&& place.local.0 == (if a.pats()[targets@[0].0 as int].kind is Ident { locals0 as u32 } else { 0u32 })
                &&& src.projection@.len() == 0
                &&& src.local == (match exprs.last().kind {
                    HirExprKind::Local(l) => l,
                    _ => LocalId((locals - 1) as u32),
                })
                &&& mirrors(exprs, exprs.len() - 1, typed, a, value.0 as int)
            } else {
                stmts.last().kind == HirStmtKind::Expr(last) && mirrors(exprs, exprs.len() - 1, typed, a, value.0 as int)
            },
            StmtKind::If { test, .. } => stmts.last().kind matches HirStmtKind::Expr(c) && mirrors(exprs, c.0 as int, typed, a, test.0 as int),
            StmtKind::While { test, .. } => stmts.last().kind matches HirStmtKind::Expr(c) && mirrors(exprs, c.0 as int, typed, a, test.0 as int),
            StmtKind::Match { scrutinee, arms } => {
                &&& stmts.last().kind == HirStmtKind::Expr(last)
                &&& exprs.last().kind matches HirExprKind::Match { scrutinee: sc, arms: ha }
                &&& ha@.len() == arms@.len()
                &&& mirrors(exprs, sc.0 as int, typed, a, scrutinee.0 as int)
            },
            StmtKind::Return(_) => true,
            _ => stmts.last().kind == HirStmtKind::Expr(HirExprId(0)),
        }
    }
}

/// Lowers a statement; nested statements are lowered and left out of the
/// result.
#[verifier::rlimit(60)]
fn lower_stmt(b: &mut HirBuilder, typed: &TypedCrate, arena: &Arena, stmt_id: StmtId) -> (r: HirStmtId)
    requires
        old(b).wf(),
        arena.wf(),
        stmt_id.0 < arena.stmts().len(),
    ensures
        final(b).wf(),
        old(b).grows(&*final(b)),
        r.0 < final(b).stmts@.len(),
        ast_stmt_const_return(arena, stmt_id.0 as int) matches Some(ex) ==> returns_ast_const(
            final(b).exprs@,
            final(b).stmts@,
            r.0 as int,
            arena,
            ex,
        ),
        ast_stmt_const_call(arena, stmt_id.0 as int) matches Some(cl) ==> calls_ast(
            final(b).exprs@,
            final(b).stmts@,
            r.0 as int,
            typed,
            arena,
            cl,
        ),
        final(b).stmts@.len() > old(b).stmts@.len(),
        final(b).stmts@.len() <= u32::MAX ==> r.0 == final(b).stmts@.len() - 1,
        arena.stmts()[stmt_id.0 as int].kind matches StmtKind::Return(None) ==> final(b).exprs@ == old(b).exprs@
            && final(b).stmts@ == old(b).stmts@.push(
            HirStmt { kind: HirStmtKind::Return(None), span: arena.stmts()[stmt_id.0 as int].span },
        ),
        arena.stmts()[stmt_id.0 as int].kind matches StmtKind::Return(Some(ex)) ==> final(b).exprs@.len() > old(
            b,
        ).exprs@.len() && (final(b).exprs@.len() <= u32::MAX ==> final(b).stmts@.last().kind == HirStmtKind::Return(
            Some(HirExprId((final(b).exprs@.len() - 1) as u32)),
        ) && mirrors(final(b).exprs@, final(b).exprs@.len() - 1, typed, arena, ex.0 as int)),
        stmt_shape(
            final(b).exprs@,
            final(b).stmts@,
            old(b).locals@.len() as int,
            final(b).locals@.len() as int,
            typed,
            arena,
            stmt_id.0 as int,
        ),
    decreases arena.stmt_rank(stmt_id.0 as int) + 1, 0nat,
{
    let ghost rk = arena.stmt_rank(stmt_id.0 as int);
    let stmt = arena.stmt(stmt_id);
    assert(stmt_kind_ok(arena, stmt.kind, rk));
    let unit = typed.unit;
    match &stmt.kind {
        StmtKind::Expr(expr) => {
            let e = lower_expr(b, typed, arena, *expr);
            b.alloc_stmt(HirStmtKind::Expr(e), stmt.span)
        },
        StmtKind::Assign { targets, value } => {
            if targets.len() > 0 {
                let pat_id = targets[0];
                assert(crate::ast::arena::pat_ok(arena, targets@[0], rk));
                let val_ty = typed.expr_ty(*value);
                let ghost l0 = b.locals@.len();
                let place = lower_pat_assign(b, typed, arena, pat_id, val_ty, stmt.span);
                let val = lower_expr(b, typed, arena, *value);
                let ghost bv = *b;
                let src = match &b.exprs[val.index()].kind {
                    HirExprKind::Local(l) => Place::local(*l),
                    _ => Place::local(b.alloc_local(String::from_str("_tmp"), val_ty, Mutability::Imm, stmt.span)),
                };
                assert(b.exprs@ == bv.exprs@);
                assert(src.local == (match bv.exprs@[val.0 as int].kind {
                    HirExprKind::Local(l) => l,
                    _ => LocalId((b.locals@.len() - 1) as u32),
                }));
                assert(place.local.0 == (if arena.pats()[targets@[0].0 as int].kind is Ident { l0 as u32 } else { 0u32 }));
                return b.alloc_stmt(HirStmtKind::Assign { place, rvalue: Rvalue::Use(Operand::Copy(src)) }, stmt.span);
            }
            let val = lower_expr(b, typed, arena, *value);
            b.alloc_stmt(HirStmtKind::Expr(val), stmt.span)
        },
        StmtKind::Return(opt) => {
            let e = match opt {
                Some(ex) => Some(lower_expr(b, typed, arena, *ex)),
                None => None,
            };
            b.alloc_stmt(HirStmtKind::Return(e), stmt.span)
        },
        StmtKind::If { test, then_body, elifs, else_body } => {
            let cond = lower_expr(b, typed, arena, *test);
            let ghost b1 = *b;
            lower_stmts(b, typed, arena, then_body, Ghost(rk));
            let mut i: usize = 0;
            while i < elifs.len()
                invariant
                    i <= elifs@.len(),
                    arena.wf(),
                    crate::ast::arena::elifs_ok(arena, elifs@, rk),
                    b.wf(),
                    b1.grows(&*b),
                    rk == arena.stmt_rank(stmt_id.0 as int),
                    stmt_id.0 < arena.stmts().len(),
                decreases elifs@.len() - i,
            {
                assert(expr_ok(arena, elifs@[i as int].test, rk) && stmts_ok(arena, elifs@[i as int].body@, rk));
                let _ = lower_expr(b, typed, arena, elifs[i].test);
                lower_stmts(b, typed, arena, &elifs[i].body, Ghost(rk));
                i = i + 1;
            }
            if let Some(body) = else_body {
                lower_stmts(b, typed, arena, body, Ghost(rk));
            }
            proof {
                if b.exprs@.len() <= u32::MAX {
                    lemma_mirrors_prefix(b1.exprs@, b.exprs@, cond.0 as int, typed, arena, test.0 as int);
                }
            }
            b.alloc_stmt(HirStmtKind::Expr(cond), stmt.span)
        },
        StmtKind::While { test, body } => {
            let cond = lower_expr(b, typed, arena, *test);
            let ghost b1 = *b;
            lower_stmts(b, typed, arena, body, Ghost(rk));
            proof {
                if b.exprs@.len() <= u32::MAX {
                    lemma_mirrors_prefix(b1.exprs@, b.exprs@, cond.0 as int, typed, arena, test.0 as int);
                }
            }
            b.alloc_stmt(HirStmtKind::Expr(cond), stmt.span)
        },
        StmtKind::For { pat, iter, body } => {
            let _ = lower_expr(b, typed, arena, *iter);
            let pat_ty = typed.pat_ty(*pat);
            let _ = lower_pat_assign(b, typed, arena, *pat, pat_ty, stmt.span);
            lower_stmts(b, typed, arena, body, Ghost(rk));
            b.alloc_stmt(HirStmtKind::Expr(HirExprId::from_usize(0)), stmt.span)
        },
        StmtKind::Match { scrutinee, arms } => {
            let scr = lower_expr(b, typed, arena, *scrutinee);
            let ghost b1 = *b;
            let mut hir_arms: Vec<(HirPatId, HirExprId)> = Vec::new();
            let mut i: usize = 0;
            while i < arms.len()
                invariant
                    i <= arms@.len(),
                    arena.wf(),
                    crate::ast::arena::arms_ok(arena, arms@, rk),
                    b.wf(),
                    b1.grows(&*b),
                    scr.0 < b1.exprs@.len(),
                    rk == arena.stmt_rank(stmt_id.0 as int),
                    stmt_id.0 < arena.stmts().len(),
                    hir_arms@.len() == i,
                decreases arms@.len() - i,
            {
                assert(crate::ast::arena::pat_ok(arena, arms@[i as int].pat, rk) && stmts_ok(arena, arms@[i as int].body@, rk));
                let pat = lower_pat(b, typed, arena, arms[i].pat);
                lower_stmts(b, typed, arena, &arms[i].body, Ghost(rk));
                hir_arms.push((pat, scr));
                i = i + 1;
            }
            let ty = typed.expr_ty(*scrutinee);
            let match_expr = b.alloc_expr(HirExprKind::Match { scrutinee: scr, arms: hir_arms }, ty, stmt.span);
            proof {
                if b.exprs@.len() <= u32::MAX {
                    lemma_mirrors_prefix(b1.exprs@, b.exprs@, scr.0 as int, typed, arena, scrutinee.0 as int);
                }
            }
            b.alloc_stmt(HirStmtKind::Expr(match_expr), stmt.span)
        },
        _ => b.alloc_stmt(HirStmtKind::Expr(HirExprId::from_usize(0)), stmt.span),
    }
}

/// Lowers statements in order, leaving them out of any result.
fn lower_stmts(b: &mut HirBuilder, typed: &TypedCrate, arena: &Arena, ids: &Vec<StmtId>, Ghost(rk): Ghost<nat>)
    requires
        old(b).wf(),
        arena.wf(),
        stmts_ok(arena, ids@, rk),
    ensures
        final(b).wf(),
        old(b).grows(&*final(b)),
        final(b).stmts@.len() >= old(b).stmts@.len() + ids@.len(),
        forall|j: int|
            0 <= j < ids@.len() ==> #[trigger] lowered_after(
                final(b).exprs@,
                final(b).stmts@,
                old(b).stmts@.len() as int,
                typed,
                arena,
                ids@[j].0 as int,
            ),
    decreases rk, 1nat,
{
    let ghost b0 = *b;
    let mut i: usize = 0;
    while i < ids.len()
        invariant
            i <= ids@.len(),
            arena.wf(),
            stmts_ok(arena, ids@, rk),
            b.wf(),
            b0.grows(&*b),
            b0 == *old(b),
            b.stmts@.len() >= b0.stmts@.len() + i,
            forall|j: int|
                0 <= j < i ==> #[trigger] lowered_after(b.exprs@, b.stmts@, b0.stmts@.len() as int, typed, arena, ids@[j].0 as int),
        decreases ids@.len() - i,
    {
        assert(stmt_ok(arena, ids@[i as int], rk));
        let ghost bp = *b;
        let r = lower_stmt(b, typed, arena, ids[i]);
        proof {
            let last = b.stmts@.len() - 1;
            assert(stmt_lowers(b.exprs@, b.stmts@, last, typed, arena, ids@[i as int].0 as int));
            assert forall|j: int| 0 <= j < i + 1 implies #[trigger] lowered_after(
                b.exprs@,
                b.stmts@,
                b0.stmts@.len() as int,
                typed,
                arena,
                ids@[j].0 as int,
            ) by {
                if j < i {
                    assert(lowered_after(bp.exprs@, bp.stmts@, b0.stmts@.len() as int, typed, arena, ids@[j].0 as int));
                    let sid = choose|sid: int|
                        b0.stmts@.len() <= sid < bp.stmts@.len() && #[trigger] stmt_lowers(
                            bp.exprs@,
                            bp.stmts@,
                            sid,
                            typed,
                            arena,
                            ids@[j].0 as int,
                        );
                    lemma_stmt_lowers_grow(bp.exprs@, bp.stmts@, b.exprs@, b.stmts@, sid, typed, arena, ids@[j].0 as int);
                } else {
                    assert(stmt_lowers(b.exprs@, b.stmts@, last, typed, arena, ids@[j].0 as int));
                }
            }
        }
        i = i + 1;
    }
}

/// Some statement of the tables from `lo` on lowers AST statement `asid`,
/// as far as calls on constants and returns of constants go.
spec fn lowered_after(exprs: Seq<HirExpr>, stmts: Seq<HirStmt>, lo: int, typed: &TypedCrate, a: &Arena, asid: int) -> bool {
    exists|sid: int| lo <= sid < stmts.len() && #[trigger] stmt_lowers(exprs, stmts, sid, typed, a, asid)
}

/// The mutability of a local that a binding pattern declares.
pub open spec fn binding_mutability(m: AstPatMut) -> Mutability {
    match m {
        AstPatMut::Imm => Mutability::Imm,
        AstPatMut::Mut => Mutability::Mut,
    }
}

/// The place an assignment to a pattern writes: a fresh local for a name,
/// the return local otherwise.
fn lower_pat_assign(b: &mut HirBuilder, typed: &TypedCrate, arena: &Arena, pat_id: PatId, ty: TypeId, span: Span) -> (p: Place)
    requires
        old(b).wf(),
        pat_id.0 < arena.pats().len(),
    ensures
        final(b).wf(),
        old(b).grows(&*final(b)),
        p.projection@.len() == 0,
        match arena.pats()[pat_id.0 as int].kind {
            PatKind::Ident { name, mutability, .. } => {
                &&& p.local.0 == old(b).locals@.len() as u32
                &&& final(b).locals@ == old(b).locals@.push(LocalDecl { ty, mutability: binding_mutability(mutability), span })
                &&& final(b).local_names@.drop_last() == old(b).local_names@
                &&& final(b).local_names@.last().0@ == name@
                &&& final(b).local_names@.last().1 == p.local
                &&& final(b).exprs@ == old(b).exprs@ && final(b).stmts@ == old(b).stmts@ && final(b).pats@ == old(b).pats@
            },
            _ => p.local.0 == 0 && *final(b) == *old(b),
        },
{
    let pat = arena.pat(pat_id);
    match &pat.kind {
        PatKind::Ident { name, mutability, .. } => {
            let m = match mutability {
                AstPatMut::Imm => Mutability::Imm,
                AstPatMut::Mut => Mutability::Mut,
            };
            let ghost b0 = *b;
            let n = name.clone();
            let ghost gn = n;
            let local = b.alloc_local(n, ty, m, span);
            assert(b.local_names@ == b0.local_names@.push((gn, local)));
            assert(b.local_names@.drop_last() =~= b0.local_names@);
            Place::local(local)
        },
        _ => Place::local(LocalId::from_usize(0)),
    }
}

/// Lowers a `match` pattern.
fn lower_pat(b: &mut HirBuilder, typed: &TypedCrate, arena: &Arena, pat_id: PatId) -> (r: HirPatId)
    requires
        old(b).wf(),
        pat_id.0 < arena.pats().len(),
    ensures
        final(b).wf(),
        old(b).grows(&*final(b)),
        final(b).exprs@ == old(b).exprs@,
        final(b).stmts@ == old(b).stmts@,
        r.0 == old(b).pats@.len() as u32,
        final(b).pats@.len() == old(b).pats@.len() + 1,
        final(b).pats@.drop_last() == old(b).pats@,
        final(b).pats@.last().span == arena.pats()[pat_id.0 as int].span,
        match arena.pats()[pat_id.0 as int].kind {
            PatKind::Literal(lit) => final(b).pats@.last().kind matches HirPatKind::Literal(c) && hir_const_value(c)
                == ast_literal_value(lit),
            PatKind::Ident { name, .. } => final(b).pats@.last().kind matches HirPatKind::Local { name: n, local } && n@
                == name@ && match last_local(old(b).local_names@, name@) {
                Some(l) => local == l && final(b).locals@ == old(b).locals@,
                None => local.0 == old(b).locals@.len() as u32 && final(b).locals@ == old(b).locals@.push(
                    LocalDecl { ty: typed.unit, mutability: Mutability::Imm, span: arena.pats()[pat_id.0 as int].span },
                ),
            },
            PatKind::Enum { .. } => final(b).pats@.last().kind matches HirPatKind::Enum { def, variant, subpats } && def
                == match typed.pat_path_spec(pat_id) {
                Some(d) => d,
                None => DefId(0),
            } && variant == 0 && subpats@.len() == 0,
            _ => final(b).pats@.last().kind == HirPatKind::Wild,
        },
{
    let pat = arena.pat(pat_id);
    let unit = typed.unit;
    match &pat.kind {
        PatKind::Wild => b.alloc_pat(HirPatKind::Wild, pat.span),
        PatKind::Literal(lit) => b.alloc_pat(HirPatKind::Literal(ast_literal(lit)), pat.span),
        PatKind::Ident { name, .. } => {
            let local = match b.lookup_local(name.as_str()) {
                Some(l) => l,
                None => b.alloc_local(name.clone(), unit, Mutability::Imm, pat.span),
            };
            b.alloc_pat(HirPatKind::Local { name: name.clone(), local }, pat.span)
        },
        PatKind::Enum { .. } => {
            let def = match typed.pat_path(pat_id) {
                Some(d) => d,
                None => DefId::from_usize(0),
            };
            b.alloc_pat(HirPatKind::Enum { def, variant: 0, subpats: Vec::new() }, pat.span)
        },
        _ => b.alloc_pat(HirPatKind::Wild, pat.span),
    }
}

// ---- constant expressions keep their value ----------------------------------

/// The value of an AST literal as HIR keeps it: numbers, booleans and
/// strings as they are, other literals as the unit value.
pub open spec fn ast_literal_value(lit: Literal) -> VVal {
    match lit {
        Literal::Int(n) => VVal::Int(n),
        Literal::Bool(b) => VVal::Bool(b),
        Literal::Float(f) => VVal::Float(f@),
        Literal::String(s) => VVal::Str(s@),
        _ => VVal::Unit,
    }
}

/// The HIR operator of an AST unary operator (operators HIR lacks become
/// negation).
pub open spec fn ast_unop(op: AstUnaryOp) -> UnaryOp {
    match op {
        AstUnaryOp::Not => UnaryOp::Not,
        _ => UnaryOp::Neg,
    }
}

/// The HIR operator of an AST binary operator (operators HIR lacks become
/// addition).
pub open spec fn ast_binop(op: AstBinOp) -> BinaryOp {
    match op {
        AstBinOp::Add => BinaryOp::Add,
        AstBinOp::Sub => BinaryOp::Sub,
        AstBinOp::Mul => BinaryOp::Mul,
        AstBinOp::Div => BinaryOp::Div,
        AstBinOp::Eq => BinaryOp::Eq,
        AstBinOp::NotEq => BinaryOp::NotEq,
        AstBinOp::Lt => BinaryOp::Lt,
        AstBinOp::LtEq => BinaryOp::LtEq,
        AstBinOp::Gt => BinaryOp::Gt,
        AstBinOp::GtEq => BinaryOp::GtEq,
        AstBinOp::And => BinaryOp::And,
        AstBinOp::Or => BinaryOp::Or,
        _ => BinaryOp::Add,
    }
}

/// Lowering keeps the meaning of `not` and of `-`: run, `not` negates a
/// boolean, and `-` negates an integer exactly, failing only where the
/// negation does not fit in 64 bits.
pub proof fn ast_unary_operators_keep_their_meaning(p: bool, a: i64)
    ensures
        unary_spec(unop_spec(ast_unop(AstUnaryOp::Not)), VVal::Bool(p)) == Some(VVal::Bool(!p)),
        unary_spec(unop_spec(ast_unop(AstUnaryOp::Neg)), VVal::Int(a)) == (if a == i64::MIN {
            None
        } else {
            Some(VVal::Int((-a) as i64))
        }),
{
}

/// The MIR operator an AST operator ends as, through HIR.
pub open spec fn ast_mir_binop(op: AstBinOp) -> crate::mir::rvalue::BinOp {
    lower_binop_spec(spec_lower_binop(op))
}

/// Lowering keeps each AST operator's meaning, through HIR to MIR: run on
/// integers, `+`, `-` and `*` compute the sum, difference and product where
/// they fit in 64 bits, each comparison gives the truth of the comparison
/// it is written as, `/` a quotient rounded toward zero; run on booleans,
/// `and` and `or` give the conjunction and the disjunction. The operator
/// that constant expressions are valued by is the same.
pub proof fn ast_operators_keep_their_meaning(a: i64, b: i64, p: bool, q: bool, op: AstBinOp)
    ensures
        lower_binop_spec(ast_binop(op)) == ast_mir_binop(op),
        binary_spec(ast_mir_binop(AstBinOp::Add), VVal::Int(a), VVal::Int(b)) == (if i64::MIN <= a + b <= i64::MAX {
            Some(VVal::Int((a + b) as i64))
        } else {
            None
        }),
        binary_spec(ast_mir_binop(AstBinOp::Sub), VVal::Int(a), VVal::Int(b)) == (if i64::MIN <= a - b <= i64::MAX {
            Some(VVal::Int((a - b) as i64))
        } else {
            None
        }),
        binary_spec(ast_mir_binop(AstBinOp::Mul), VVal::Int(a), VVal::Int(b)) == (if i64::MIN <= a * b <= i64::MAX {
            Some(VVal::Int((a * b) as i64))
        } else {
            None
        }),
        binary_spec(ast_mir_binop(AstBinOp::Eq), VVal::Int(a), VVal::Int(b)) == Some(VVal::Bool(a == b)),
        binary_spec(ast_mir_binop(AstBinOp::NotEq), VVal::Int(a), VVal::Int(b)) == Some(VVal::Bool(a != b)),
        binary_spec(ast_mir_binop(AstBinOp::Lt), VVal::Int(a), VVal::Int(b)) == Some(VVal::Bool(a < b)),
        binary_spec(ast_mir_binop(AstBinOp::LtEq), VVal::Int(a), VVal::Int(b)) == Some(VVal::Bool(a <= b)),
        binary_spec(ast_mir_binop(AstBinOp::Gt), VVal::Int(a), VVal::Int(b)) == Some(VVal::Bool(a > b)),
        binary_spec(ast_mir_binop(AstBinOp::GtEq), VVal::Int(a), VVal::Int(b)) == Some(VVal::Bool(a >= b)),
        binary_spec(ast_mir_binop(AstBinOp::And), VVal::Bool(p), VVal::Bool(q)) == Some(VVal::Bool(p && q)),
        binary_spec(ast_mir_binop(AstBinOp::Or), VVal::Bool(p), VVal::Bool(q)) == Some(VVal::Bool(p || q)),
        b != 0 && !(a == i64::MIN && b == -1) ==> (binary_spec(ast_mir_binop(AstBinOp::Div), VVal::Int(a), VVal::Int(b))
            matches Some(VVal::Int(qq)) && -abs(b as int) < a - qq * b < abs(b as int) && (a - qq * b == 0 || (a - qq * b
            < 0) == (a < 0))),
{
    crate::mir_build::builder::lowered_operators_keep_their_meaning(a, b, p, q);
    crate::mir::ops::integer_division_truncates(a, b);
}

/// AST expression `e` is built from literals with unary and binary
/// operators only.
pub open spec fn ast_const_expr(a: &Arena, e: int) -> bool
    decreases a.expr_rank(e),
{
    if 0 <= e < a.exprs().len() {
        match a.exprs()[e].kind {
            ExprKind::Literal(_) => true,
            ExprKind::Unary { operand, .. } => a.expr_rank(operand.0 as int) < a.expr_rank(e) && ast_const_expr(
                a,
                operand.0 as int,
            ),
            ExprKind::Binary { left, right, .. } => a.expr_rank(left.0 as int) < a.expr_rank(e) && a.expr_rank(right.0 as int)
                < a.expr_rank(e) && ast_const_expr(a, left.0 as int) && ast_const_expr(a, right.0 as int),
            _ => false,
        }
    } else {
        false
    }
}

/// The value of an AST constant expression, with the operators the
/// compiler maps it to; `None` where evaluating it traps.
pub open spec fn ast_const_value(a: &Arena, e: int) -> Option<VVal>
    decreases a.expr_rank(e),
{
    if 0 <= e < a.exprs().len() {
        match a.exprs()[e].kind {
            ExprKind::Literal(lit) => Some(ast_literal_value(lit)),
            ExprKind::Unary { op, operand } => if a.expr_rank(operand.0 as int) < a.expr_rank(e) {
                match ast_const_value(a, operand.0 as int) {
                    Some(v) => unary_spec(unop_spec(ast_unop(op)), v),
                    None => None,
                }
            } else {
                None
            },
            ExprKind::Binary { op, left, right } => if a.expr_rank(left.0 as int) < a.expr_rank(e) && a.expr_rank(
                right.0 as int,
            ) < a.expr_rank(e) {
                match (ast_const_value(a, left.0 as int), ast_const_value(a, right.0 as int)) {
                    (Some(l), Some(r)) => binary_spec(lower_binop_spec(ast_binop(op)), l, r),
                    _ => None,
                }
            } else {
                None
            },
            _ => None,
        }
    } else {
        None
    }
}

/// A kind built on the table `es` (of `n` expressions) is constant.
spec fn kind_const(es: Seq<HirExpr>, k: HirExprKind, n: int) -> bool {
    match k {
        HirExprKind::Literal(_) => true,
        HirExprKind::Unary { operand, .. } => operand.0 < n && const_expr(es, operand.0 as int),
        HirExprKind::Binary { left, right, .. } => left.0 < n && right.0 < n && const_expr(es, left.0 as int) && const_expr(
            es,
            right.0 as int,
        ),
        _ => false,
    }
}

/// The value of a constant kind built on the table `es` (of `n`
/// expressions).
spec fn kind_value(es: Seq<HirExpr>, k: HirExprKind, n: int) -> Option<VVal> {
    match k {
        HirExprKind::Literal(c) => Some(hir_const_value(c)),
        HirExprKind::Unary { op, operand } => if operand.0 < n {
            match const_value(es, operand.0 as int) {
                Some(v) => unary_spec(unop_spec(op), v),
                None => None,
            }
        } else {
            None
        },
        HirExprKind::Binary { op, left, right } => if left.0 < n && right.0 < n {
            match (const_value(es, left.0 as int), const_value(es, right.0 as int)) {
                (Some(l), Some(r)) => binary_spec(lower_binop_spec(op), l, r),
                _ => None,
            }
        } else {
            None
        },
        _ => None,
    }
}

proof fn lemma_push_kind(es: Seq<HirExpr>, x: HirExpr)
    ensures
        const_expr(es.push(x), es.len() as int) == kind_const(es, x.kind, es.len() as int),
        const_value(es.push(x), es.len() as int) == kind_value(es, x.kind, es.len() as int),
{
    let es2 = es.push(x);
    assert(es2[es.len() as int] == x);
    match x.kind {
        HirExprKind::Unary { operand, .. } => {
            if operand.0 < es.len() {
                lemma_const_prefix(es, es2, operand.0 as int);
            }
        },
        HirExprKind::Binary { left, right, .. } => {
            if left.0 < es.len() && right.0 < es.len() {
                lemma_const_prefix(es, es2, left.0 as int);
                lemma_const_prefix(es, es2, right.0 as int);
            }
        },
        _ => {},
    }
}

/// While the table `es` has room for another id, kind `k` built on it is
/// constant, with the value of AST expression `e`, if `e` is constant.
spec fn kind_matches(es: Seq<HirExpr>, k: HirExprKind, a: &Arena, e: int) -> bool {
    es.len() < u32::MAX && ast_const_expr(a, e) ==> kind_const(es, k, es.len() as int) && kind_value(
        es,
        k,
        es.len() as int,
    ) == ast_const_value(a, e)
}

/// Expression `r` of the table `es` lowers the AST expression `e`: if `e`
/// is constant and the ids of `es` fit, `r` is constant with its value.
pub open spec fn lowers_const(es: Seq<HirExpr>, r: int, a: &Arena, e: int) -> bool {
    es.len() <= u32::MAX && ast_const_expr(a, e) ==> const_expr(es, r) && const_value(es, r) == ast_const_value(a, e)
}

/// Expression `r` of the table `es` mirrors AST expression `e` of `a`
/// (with the names resolved in `typed`): a literal for a literal; a path to
/// the definition a resolved path names, a local for another plain name;
/// for a unary or binary operation, a call, a field access, a conditional,
/// a tuple or a struct literal, the node of the same kind (with the lowered
/// operator, callee and field numbers) whose operands, earlier in the table,
/// mirror those of `e` in order; the unit constant for every other kind.
pub open spec fn mirrors(es: Seq<HirExpr>, r: int, typed: &TypedCrate, a: &Arena, e: int) -> bool
    decreases r, 1int,
{
    &&& 0 <= r < es.len()
    &&& kind_mirrors(es, es[r].kind, typed, a, e, r)
}

/// Kind `k`, of a node at `r`, mirrors AST expression `e`, its operands
/// being nodes of `es` below `r`.
pub open spec fn kind_mirrors(es: Seq<HirExpr>, k: HirExprKind, typed: &TypedCrate, a: &Arena, e: int, r: int) -> bool
    decreases r, 0int,
{
    &&& 0 <= e < a.exprs().len()
    &&& match a.exprs()[e].kind {
        ExprKind::Literal(_) => k is Literal,
        ExprKind::Path(path) => match typed.expr_path_spec(ExprId(e as u32)) {
            Some(d) => k matches HirExprKind::Path { def, .. } && def == d,
            None => if path.segments@.len() == 1 && path.segments@[0].args@.len() == 0 {
                k is Local
            } else {
                k == HirExprKind::Literal(HirConst::Unit)
            },
        },
        ExprKind::Unary { operand, .. } => match k {
            HirExprKind::Unary { operand: o, .. } => 0 <= o.0 < r && mirrors(es, o.0 as int, typed, a, operand.0 as int),
            _ => false,
        },
        ExprKind::Binary { op, left, right } => match k {
            HirExprKind::Binary { op: hop, left: l, right: rr } => {
                &&& hop == spec_lower_binop(op)
                &&& 0 <= l.0 < r && mirrors(es, l.0 as int, typed, a, left.0 as int)
                &&& 0 <= rr.0 < r && mirrors(es, rr.0 as int, typed, a, right.0 as int)
            },
            _ => false,
        },
        ExprKind::Call { func, args, .. } => match k {
            HirExprKind::Call { def, args: ha, .. } => {
                &&& def == callee_def(typed, a, func)
                &&& ha@.len() == args@.len()
                &&& forall|i: int| 0 <= i < ha@.len() ==> 0 <= (#[trigger] ha@[i]).0 < r && mirrors(es, ha@[i].0 as int, typed, a, args@[i].0 as int)
            },
            _ => false,
        },
        ExprKind::If { test, then, else_branch } => match k {
            HirExprKind::If { cond, then: t, else_branch: el } => {
                &&& 0 <= cond.0 < r && mirrors(es, cond.0 as int, typed, a, test.0 as int)
                &&& 0 <= t.0 < r && mirrors(es, t.0 as int, typed, a, then.0 as int)
                &&& 0 <= el.0 < r && mirrors(es, el.0 as int, typed, a, else_branch.0 as int)
            },
            _ => false,
        },
        ExprKind::Tuple(elems) => match k {
            HirExprKind::Tuple(v) => {
                &&& v@.len() == elems@.len()
                &&& forall|i: int| 0 <= i < v@.len() ==> 0 <= (#[trigger] v@[i]).0 < r && mirrors(es, v@[i].0 as int, typed, a, elems@[i].0 as int)
            },
            _ => false,
        },
        ExprKind::Struct { fields, .. } => match k {
            HirExprKind::Struct { fields: hf, .. } => {
                &&& hf@.len() == fields@.len()
                &&& forall|i: int| 0 <= i < hf@.len() ==> (#[trigger] hf@[i]).0 == i && 0 <= hf@[i].1.0 < r && mirrors(es, hf@[i].1.0 as int, typed, a, fields@[i].expr.0 as int)
            },
            _ => false,
        },
        ExprKind::Field { base, .. } => match k {
            HirExprKind::Field { base: bb, .. } => 0 <= bb.0 < r && mirrors(es, bb.0 as int, typed, a, base.0 as int),
            _ => false,
        },
        _ => k == HirExprKind::Literal(HirConst::Unit),
    }
}

proof fn lemma_mirrors_prefix(es: Seq<HirExpr>, es2: Seq<HirExpr>, r: int, typed: &TypedCrate, a: &Arena, e: int)
    requires
        es.len() <= es2.len(),
        forall|i: int| 0 <= i < es.len() ==> #[trigger] es2[i] == es[i],
        mirrors(es, r, typed, a, e),
    ensures
        mirrors(es2, r, typed, a, e),
    decreases r, 1int,
{
    assert(es2[r] == es[r]);
    lemma_kind_mirrors_prefix(es, es2, es[r].kind, typed, a, e, r);
}

proof fn lemma_kind_mirrors_prefix(
    es: Seq<HirExpr>,
    es2: Seq<HirExpr>,
    k: HirExprKind,
    typed: &TypedCrate,
    a: &Arena,
    e: int,
    r: int,
)
    requires
        es.len() <= es2.len(),
        forall|i: int| 0 <= i < es.len() ==> #[trigger] es2[i] == es[i],
        kind_mirrors(es, k, typed, a, e, r),
    ensures
        kind_mirrors(es2, k, typed, a, e, r),
    decreases r, 0int,
{
    match a.exprs()[e].kind {
        ExprKind::Unary { operand, .. } => match k {
            HirExprKind::Unary { operand: o, .. } => lemma_mirrors_prefix(es, es2, o.0 as int, typed, a, operand.0 as int),
            _ => {},
        },
        ExprKind::Binary { left, right, .. } => match k {
            HirExprKind::Binary { left: l, right: rr, .. } => {
                lemma_mirrors_prefix(es, es2, l.0 as int, typed, a, left.0 as int);
                lemma_mirrors_prefix(es, es2, rr.0 as int, typed, a, right.0 as int);
            },
            _ => {},
        },
        ExprKind::Call { args, .. } => match k {
            HirExprKind::Call { args: ha, .. } => {
                assert forall|i: int| 0 <= i < ha@.len() implies 0 <= (#[trigger] ha@[i]).0 < r && mirrors(es2, ha@[i].0 as int, typed, a, args@[i].0 as int) by {
                    lemma_mirrors_prefix(es, es2, ha@[i].0 as int, typed, a, args@[i].0 as int);
                }
            },
            _ => {},
        },
        ExprKind::If { test, then, else_branch } => match k {
            HirExprKind::If { cond, then: t, else_branch: el } => {
                lemma_mirrors_prefix(es, es2, cond.0 as int, typed, a, test.0 as int);
                lemma_mirrors_prefix(es, es2, t.0 as int, typed, a, then.0 as int);
                lemma_mirrors_prefix(es, es2, el.0 as int, typed, a, else_branch.0 as int);
            },
            _ => {},
        },
        ExprKind::Tuple(elems) => match k {
            HirExprKind::Tuple(v) => {
                assert forall|i: int| 0 <= i < v@.len() implies 0 <= (#[trigger] v@[i]).0 < r && mirrors(es2, v@[i].0 as int, typed, a, elems@[i].0 as int) by {
                    lemma_mirrors_prefix(es, es2, v@[i].0 as int, typed, a, elems@[i].0 as int);
                }
            },
            _ => {},
        },
        ExprKind::Struct { fields, .. } => match k {
            HirExprKind::Struct { fields: hf, .. } => {
                assert forall|i: int| 0 <= i < hf@.len() implies (#[trigger] hf@[i]).0 == i && 0 <= hf@[i].1.0 < r && mirrors(es2, hf@[i].1.0 as int, typed, a, fields@[i].expr.0 as int) by {
                    lemma_mirrors_prefix(es, es2, hf@[i].1.0 as int, typed, a, fields@[i].expr.0 as int);
                }
            },
            _ => {},
        },
        ExprKind::Field { base, .. } => match k {
            HirExprKind::Field { base: bb, .. } => lemma_mirrors_prefix(es, es2, bb.0 as int, typed, a, base.0 as int),
            _ => {},
        },
        _ => {},
    }
}

/// The definition that a call's callee names: what name resolution
/// recorded for a path, else the first definition.
pub open spec fn callee_def(typed: &TypedCrate, a: &Arena, func: ExprId) -> DefId {
    if func.0 < a.exprs().len() && a.exprs()[func.0 as int].kind is Path {
        match typed.expr_path_spec(func) {
            Some(d) => d,
            None => DefId(0),
        }
    } else {
        DefId(0)
    }
}

/// The call that AST expression `e` is, where it calls something on one
/// constant expression: the callee and the argument.
pub open spec fn ast_const_call(a: &Arena, e: int) -> Option<(ExprId, int)> {
    if 0 <= e < a.exprs().len() {
        match a.exprs()[e].kind {
            ExprKind::Call { func, args, .. } => if args@.len() == 1 && ast_const_expr(a, args@[0].0 as int) {
                Some((func, args@[0].0 as int))
            } else {
                None
            },
            _ => None,
        }
    } else {
        None
    }
}

/// Expression `r` of the table `es` lowers the AST expression `e`: if `e`
/// calls something on one constant expression and the ids of `es` fit,
/// `r` calls the definition the callee names on an expression of the same
/// value.
pub open spec fn lowers_call(es: Seq<HirExpr>, r: int, typed: &TypedCrate, a: &Arena, e: int) -> bool {
    ast_const_call(a, e) matches Some(cl) ==> (es.len() <= u32::MAX ==> (const_call(es, r) matches Some(hc) && hc.0
        == callee_def(typed, a, cl.0) && const_value(es, hc.1) == ast_const_value(a, cl.1)))
}

/// While the table `es` has room for another id, kind `k` built on it is
/// the call that lowers AST expression `e`, if `e` is a call on one
/// constant expression.
spec fn call_kind_matches(es: Seq<HirExpr>, k: HirExprKind, typed: &TypedCrate, a: &Arena, e: int) -> bool {
    ast_const_call(a, e) matches Some(cl) ==> (es.len() < u32::MAX ==> (k matches HirExprKind::Call { def, args, .. }
        && def == callee_def(typed, a, cl.0) && args@.len() == 1 && args@[0].0 < es.len() && const_expr(
        es,
        args@[0].0 as int,
    ) && const_value(es, args@[0].0 as int) == ast_const_value(a, cl.1)))
}

/// The local that AST expression `e` reads, where it is a plain name that
/// resolution left unresolved: the one declared last under that name in
/// `names`, else local 0.
pub open spec fn name_local(a: &Arena, typed: &TypedCrate, e: ExprId, names: Seq<(String, LocalId)>) -> Option<LocalId> {
    match a.exprs()[e.0 as int].kind {
        ExprKind::Path(path) => if typed.expr_path_spec(e) is None && path.segments@.len() == 1
            && path.segments@[0].args@.len() == 0 {
            Some(
                match last_local(names, path.segments@[0].ident@) {
                    Some(l) => l,
                    None => LocalId(0),
                },
            )
        } else {
            None
        },
        _ => None,
    }
}

/// Lowers an expression; its parts are lowered before it.
#[verifier::rlimit(60)]
fn lower_expr(b: &mut HirBuilder, typed: &TypedCrate, arena: &Arena, expr_id: ExprId) -> (r: HirExprId)
    requires
        old(b).wf(),
        arena.wf(),
        expr_id.0 < arena.exprs().len(),
    ensures
        final(b).wf(),
        old(b).grows(&*final(b)),
        r.0 < final(b).exprs@.len(),
        lowers_const(final(b).exprs@, r.0 as int, arena, expr_id.0 as int),
        lowers_call(final(b).exprs@, r.0 as int, typed, arena, expr_id.0 as int),
        final(b).exprs@.len() > old(b).exprs@.len(),
        final(b).exprs@.len() <= u32::MAX ==> r.0 == final(b).exprs@.len() - 1 && mirrors(
            final(b).exprs@,
            r.0 as int,
            typed,
            arena,
            expr_id.0 as int,
        ),
        name_local(arena, typed, expr_id, old(b).local_names@) matches Some(l) ==> (final(b).exprs@.len() <= u32::MAX
            ==> final(b).exprs@.last().kind == HirExprKind::Local(l)),
    decreases arena.expr_rank(expr_id.0 as int) + 1, 0nat,
{
    let ghost rk = arena.expr_rank(expr_id.0 as int);
    let expr = arena.expr(expr_id);
    assert(expr_kind_ok(arena, expr.kind, rk));
    let ty = typed.expr_ty(expr_id);
    let kind = match &expr.kind {
        ExprKind::Literal(lit) => {
            let k = HirExprKind::Literal(ast_literal(lit));
            assert(kind_matches(b.exprs@, k, arena, expr_id.0 as int));
            k
        },
        ExprKind::Path(path) => {
            if let Some(def) = typed.expr_path(expr_id) {
                HirExprKind::Path { def, subst: Subst::empty() }
            } else if let Some(name) = path.is_simple_ident() {
                let l = match b.lookup_local(name.as_str()) {
                    Some(l) => l,
                    None => LocalId::from_usize(0),
                };
                HirExprKind::Local(l)
            } else {
                HirExprKind::Literal(HirConst::Unit)
            }
        },
        ExprKind::Unary { op, operand } => {
            let hop = match op {
                AstUnaryOp::Not => UnaryOp::Not,
                AstUnaryOp::Neg => UnaryOp::Neg,
                _ => UnaryOp::Neg,
            };
            let o = lower_expr(b, typed, arena, *operand);
            let k = HirExprKind::Unary { op: hop, operand: o };
            assert(kind_matches(b.exprs@, k, arena, expr_id.0 as int));
            k
        },
        ExprKind::Binary { op, left, right } => {
            let hop = lower_binop(*op);
            let l = lower_expr(b, typed, arena, *left);
            let ghost b2 = *b;
            let rr = lower_expr(b, typed, arena, *right);
            proof {
                if b.exprs@.len() < u32::MAX && ast_const_expr(arena, expr_id.0 as int) {
                    lemma_const_prefix(b2.exprs@, b.exprs@, l.0 as int);
                }
                if b.exprs@.len() < u32::MAX {
                    lemma_mirrors_prefix(b2.exprs@, b.exprs@, l.0 as int, typed, arena, left.0 as int);
                }
            }
            let k = HirExprKind::Binary { op: hop, left: l, right: rr };
            assert(kind_matches(b.exprs@, k, arena, expr_id.0 as int));
            k
        },
        ExprKind::Call { func, args, .. } => {
            let def = match &arena.expr(*func).kind {
                ExprKind::Path(_) => match typed.expr_path(*func) {
                    Some(d) => d,
                    None => DefId::from_usize(0),
                },
                _ => DefId::from_usize(0),
            };
            let hargs = lower_expr_list(b, typed, arena, args, Ghost(rk));
            let k = HirExprKind::Call { def, subst: Subst::empty(), args: hargs };
            assert(call_kind_matches(b.exprs@, k, typed, arena, expr_id.0 as int));
            k
        },
        ExprKind::If { test, then, else_branch } => {
            let c = lower_expr(b, typed, arena, *test);
            let ghost b1 = *b;
            let t = lower_expr(b, typed, arena, *then);
            let ghost b2 = *b;
            let e = lower_expr(b, typed, arena, *else_branch);
            proof {
                if b.exprs@.len() < u32::MAX {
                    lemma_mirrors_prefix(b1.exprs@, b.exprs@, c.0 as int, typed, arena, test.0 as int);
                    lemma_mirrors_prefix(b2.exprs@, b.exprs@, t.0 as int, typed, arena, then.0 as int);
                }
            }
            HirExprKind::If { cond: c, then: t, else_branch: e }
        },
        ExprKind::Tuple(elems) => HirExprKind::Tuple(lower_expr_list(b, typed, arena, elems, Ghost(rk))),
        ExprKind::Struct { fields, .. } => {
            let def = match typed.expr_path(expr_id) {
                Some(d) => d,
                None => DefId::from_usize(0),
            };
            let ghost b0 = *b;
            let mut hfields: Vec<(u32, HirExprId)> = Vec::new();
            let mut i: usize = 0;
            while i < fields.len()
                invariant
                    i <= fields@.len(),
                    arena.wf(),
                    crate::ast::arena::field_exprs_ok(arena, fields@, rk),
                    b.wf(),
                    b0.grows(&*b),
                    rk == arena.expr_rank(expr_id.0 as int),
                    expr_id.0 < arena.exprs().len(),
                    hfields@.len() == i,
                    b.exprs@.len() >= b0.exprs@.len() + i,
                    b.exprs@.len() <= u32::MAX ==> forall|j: int| 0 <= j < hfields@.len() ==> (#[trigger] hfields@[j]).0 == j
                        && 0 <= hfields@[j].1.0 < b.exprs@.len() && mirrors(b.exprs@, hfields@[j].1.0 as int, typed, arena, fields@[j].expr.0 as int),
                decreases fields@.len() - i,
            {
                assert(expr_ok(arena, fields@[i as int].expr, rk));
                let ghost bp = *b;
                let e = lower_expr(b, typed, arena, fields[i].expr);
                proof {
                    if b.exprs@.len() <= u32::MAX {
                        assert forall|j: int| 0 <= j < hfields@.len() implies mirrors(b.exprs@, (#[trigger] hfields@[j]).1.0 as int, typed, arena, fields@[j].expr.0 as int) by {
                            lemma_mirrors_prefix(bp.exprs@, b.exprs@, hfields@[j].1.0 as int, typed, arena, fields@[j].expr.0 as int);
                        }
                    }
                }
                let ghost old_h = hfields@;
                hfields.push((i as u32, e));
                assert(hfields@ == old_h.push((i as u32, e)));
                i = i + 1;
            }
            HirExprKind::Struct { def, fields: hfields }
        },
        ExprKind::Field { base, .. } => {
            let bb = lower_expr(b, typed, arena, *base);
            HirExprKind::Field { base: bb, field_index: 0 }
        },
        ExprKind::Block(stmts) => {
            lower_stmts(b, typed, arena, stmts, Ghost(rk));
            HirExprKind::Literal(HirConst::Unit)
        },
        _ => HirExprKind::Literal(HirConst::Unit),
    };
    assert(kind_matches(b.exprs@, kind, arena, expr_id.0 as int));
    assert(call_kind_matches(b.exprs@, kind, typed, arena, expr_id.0 as int));
    assert(b.exprs@.len() < u32::MAX ==> kind_mirrors(b.exprs@, kind, typed, arena, expr_id.0 as int, b.exprs@.len() as int));
    let ghost es = b.exprs@;
    let ghost gk = kind;
    let id = b.alloc_expr(kind, ty, expr.span);
    proof {
        lemma_push_kind(es, HirExpr { kind, ty, span: expr.span });
        if b.exprs@.len() <= u32::MAX {
            assert(b.exprs@[id.0 as int].kind == gk);
            lemma_kind_mirrors_prefix(es, b.exprs@, gk, typed, arena, expr_id.0 as int, es.len() as int);
        }
        if ast_const_call(arena, expr_id.0 as int) is Some && b.exprs@.len() <= u32::MAX {
            match gk {
                HirExprKind::Call { args, .. } => {
                    lemma_const_prefix(es, b.exprs@, args@[0].0 as int);
                },
                _ => {},
            }
        }
    }
    id
}

/// Lowers expressions in order; the ids are below the count of
/// expressions after, and each lowers its AST expression.
fn lower_expr_list(b: &mut HirBuilder, typed: &TypedCrate, arena: &Arena, ids: &Vec<ExprId>, Ghost(rk): Ghost<nat>) -> (r: Vec<HirExprId>)
    requires
        old(b).wf(),
        arena.wf(),
        exprs_ok(arena, ids@, rk),
    ensures
        final(b).wf(),
        old(b).grows(&*final(b)),
        r@.len() == ids@.len(),
        forall|j: int| 0 <= j < r@.len() ==> (#[trigger] r@[j]).0 < final(b).exprs@.len(),
        forall|j: int| 0 <= j < r@.len() ==> lowers_const(final(b).exprs@, (#[trigger] r@[j]).0 as int, arena, ids@[j].0 as int),
        final(b).exprs@.len() <= u32::MAX ==> forall|j: int| 0 <= j < r@.len() ==> mirrors(final(b).exprs@, (#[trigger] r@[j]).0 as int, typed, arena, ids@[j].0 as int),
    decreases rk, 1nat,
{
    let ghost b0 = *b;
    let mut out: Vec<HirExprId> = Vec::new();
    let mut i: usize = 0;
    while i < ids.len()
        invariant
            i <= ids@.len(),
            out@.len() == i,
            arena.wf(),
            exprs_ok(arena, ids@, rk),
            b.wf(),
            b0.grows(&*b),
            forall|j: int| 0 <= j < out@.len() ==> (#[trigger] out@[j]).0 < b.exprs@.len(),
            forall|j: int| 0 <= j < out@.len() ==> lowers_const(b.exprs@, (#[trigger] out@[j]).0 as int, arena, ids@[j].0 as int),
            b.exprs@.len() <= u32::MAX ==> forall|j: int| 0 <= j < out@.len() ==> mirrors(b.exprs@, (#[trigger] out@[j]).0 as int, typed, arena, ids@[j].0 as int),
        decreases ids@.len() - i,
    {
        assert(expr_ok(arena, ids@[i as int], rk));
        let ghost bp = *b;
        let e = lower_expr(b, typed, arena, ids[i]);
        proof {
            assert forall|j: int| 0 <= j < out@.len() implies lowers_const(b.exprs@, (#[trigger] out@[j]).0 as int, arena, ids@[j].0 as int) by {
                if b.exprs@.len() <= u32::MAX && ast_const_expr(arena, ids@[j].0 as int) {
                    assert(lowers_const(bp.exprs@, out@[j].0 as int, arena, ids@[j].0 as int));
                    lemma_const_prefix(bp.exprs@, b.exprs@, out@[j].0 as int);
                }
            }
            if b.exprs@.len() <= u32::MAX {
                assert forall|j: int| 0 <= j < out@.len() implies mirrors(b.exprs@, (#[trigger] out@[j]).0 as int, typed, arena, ids@[j].0 as int) by {
                    lemma_mirrors_prefix(bp.exprs@, b.exprs@, out@[j].0 as int, typed, arena, ids@[j].0 as int);
                }
            }
        }
        let ghost old_out = out@;
        out.push(e);
        assert(out@ == old_out.push(e));
        i = i + 1;
    }
    out
}

/// The AST expression that a function body returns, where its only
/// statement is `return` of an expression built from literals and
/// operators.
pub open spec fn ast_body_const_return(a: &Arena, body: Seq<StmtId>) -> Option<int> {
    if body.len() == 1 {
        ast_stmt_const_return(a, body[0].0 as int)
    } else {
        None
    }
}

/// Every statement of AST body `body` but the last calls something on one
/// constant expression, and the last returns a constant expression.
pub open spec fn ast_calls_then_return(a: &Arena, body: Seq<StmtId>) -> bool {
    &&& body.len() >= 1
    &&& forall|i: int| 0 <= i < body.len() - 1 ==> ast_stmt_const_call(a, (#[trigger] body[i]).0 as int) is Some
    &&& ast_stmt_const_return(a, body.last().0 as int) is Some
}

/// The definitions that the calls of AST body `body` call, each with the
/// value of its argument.
pub open spec fn ast_call_values(typed: &TypedCrate, a: &Arena, body: Seq<StmtId>) -> Seq<(DefId, Option<VVal>)> {
    Seq::new(
        (body.len() - 1) as nat,
        |i: int|
            {
                let cl = ast_stmt_const_call(a, body[i].0 as int).unwrap();
                (callee_def(typed, a, cl.0), ast_const_value(a, cl.1))
            },
    )
}

/// The value that the last statement of AST body `body` returns.
pub open spec fn ast_return_value(a: &Arena, body: Seq<StmtId>) -> Option<VVal> {
    ast_const_value(a, ast_stmt_const_return(a, body.last().0 as int).unwrap())
}

/// HIR statement `sid` of the tables lowers AST statement `asid`, as far
/// as calls on constants and returns of constants go.
spec fn stmt_lowers(exprs: Seq<HirExpr>, stmts: Seq<HirStmt>, sid: int, typed: &TypedCrate, a: &Arena, asid: int) -> bool {
    &&& ast_stmt_const_call(a, asid) matches Some(cl) ==> calls_ast(exprs, stmts, sid, typed, a, cl)
    &&& ast_stmt_const_return(a, asid) matches Some(ex) ==> returns_ast_const(exprs, stmts, sid, a, ex)
}

proof fn lemma_stmt_lowers_grow(
    e1: Seq<HirExpr>,
    s1: Seq<HirStmt>,
    e2: Seq<HirExpr>,
    s2: Seq<HirStmt>,
    sid: int,
    typed: &TypedCrate,
    a: &Arena,
    asid: int,
)
    requires
        stmt_lowers(e1, s1, sid, typed, a, asid),
        e1.len() <= e2.len(),
        s1.len() <= s2.len(),
        forall|i: int| 0 <= i < e1.len() ==> #[trigger] e2[i] == e1[i],
        forall|i: int| 0 <= i < s1.len() ==> #[trigger] s2[i] == s1[i],
    ensures
        stmt_lowers(e2, s2, sid, typed, a, asid),
{
    if e2.len() <= u32::MAX && s2.len() <= u32::MAX {
        if ast_stmt_const_call(a, asid) is Some {
            match s1[sid].kind {
                HirStmtKind::Expr(he) => {
                    assert(s2[sid] == s1[sid]);
                    let hc = const_call(e1, he.0 as int).unwrap();
                    lemma_const_prefix(e1, e2, hc.1);
                    assert(e2[he.0 as int] == e1[he.0 as int]);
                    lemma_const_prefix(e1, e2, hc.1);
                },
                _ => {},
            }
        }
        if ast_stmt_const_return(a, asid) is Some {
            match s1[sid].kind {
                HirStmtKind::Return(Some(e)) => {
                    assert(s2[sid] == s1[sid]);
                    lemma_const_prefix(e1, e2, e.0 as int);
                },
                _ => {},
            }
        }
    }
}

proof fn lemma_body_calls(hb: HirBody, typed: &TypedCrate, a: &Arena, body: Seq<StmtId>)
    requires
        hb.stmts@.len() == body.len(),
        forall|m: int| 0 <= m < body.len() ==> stmt_lowers(hb.exprs@, hb.stmts_data@, (#[trigger] hb.stmts@[m]).0 as int, typed, a, body[m].0 as int),
        ast_calls_then_return(a, body),
        hb.exprs@.len() <= u32::MAX,
        hb.stmts_data@.len() <= u32::MAX,
    ensures
        calls_then_return(hb),
        call_values(hb) == ast_call_values(typed, a, body),
        return_value(hb) == ast_return_value(a, body),
{
    let n = body.len();
    assert forall|i: int| 0 <= i < hb.stmts@.len() - 1 implies stmt_const_call(hb, (#[trigger] hb.stmts@[i]).0 as int) is Some by {
        assert(ast_stmt_const_call(a, body[i].0 as int) is Some);
        assert(stmt_lowers(hb.exprs@, hb.stmts_data@, hb.stmts@[i].0 as int, typed, a, body[i].0 as int));
    }
    assert(stmt_lowers(hb.exprs@, hb.stmts_data@, hb.stmts@[n - 1].0 as int, typed, a, body[n - 1].0 as int));
    assert(hb.stmts@.last() == hb.stmts@[n - 1]);
    assert(body.last() == body[n - 1]);
    assert forall|i: int| 0 <= i < n - 1 implies #[trigger] call_values(hb)[i] == ast_call_values(typed, a, body)[i] by {
        assert(ast_stmt_const_call(a, body[i].0 as int) is Some);
        assert(stmt_lowers(hb.exprs@, hb.stmts_data@, hb.stmts@[i].0 as int, typed, a, body[i].0 as int));
    }
    assert(call_values(hb) =~= ast_call_values(typed, a, body));
}

/// Owner `o` of definition `def` is the HIR of the `k`-th item of `typed`:
/// a function item of that definition, with its name and as many
/// parameters; where the item returns a constant expression (and the ids
/// of the body fit), the body returns a constant expression of the same
/// value.
pub open spec fn owner_of_item(typed: &TypedCrate, a: &Arena, k: int, def: DefId, o: HirOwner) -> bool {
    let hb = crate::mir_build::owner_body(o);
    &&& 0 <= k < typed.item_def_ids@.len()
    &&& typed.item_def_ids@[k].1 == def
    &&& o.def_id == def
    &&& hb.def_id == def
    &&& match a.items()[typed.item_def_ids@[k].0 .0 as int].kind {
        ItemKind::Function { name, params, body, .. } => {
            &&& hb.name@ == name@
            &&& hb.params@.len() == params@.len()
            &&& forall|m: int| 0 <= m < hb.params@.len() ==> (#[trigger] hb.params@[m]).0 == m as u32
            &&& hb.stmts@.len() == body@.len()
            &&& ast_body_const_return(a, body@) matches Some(ex) ==> (hb.exprs@.len() <= u32::MAX
                && hb.stmts_data@.len() <= u32::MAX ==> (single_const_return(hb) matches Some(e) && const_value(
                hb.exprs@,
                e,
            ) == ast_const_value(a, ex)))
            &&& ast_calls_then_return(a, body@) && hb.exprs@.len() <= u32::MAX && hb.stmts_data@.len() <= u32::MAX
                ==> calls_then_return(hb) && call_values(hb) == ast_call_values(typed, a, body@) && return_value(hb)
                == ast_return_value(a, body@)
        },
        _ => false,
    }
}

/// Some entry of `entries` is for definition `d`.
pub open spec fn has_entry(entries: Seq<(DefId, HirOwner)>, d: DefId) -> bool {
    exists|i: int| 0 <= i < entries.len() && entries[i].0 == d
}

/// Entry `e` of a HIR crate is the HIR of one of the items of `typed`.
pub open spec fn entry_of_some_item(typed: &TypedCrate, a: &Arena, e: (DefId, HirOwner)) -> bool {
    exists|k: int| #[trigger] owner_of_item(typed, a, k, e.0, e.1)
}

/// What building the HIR of a module gives: each owner is the HIR of a
/// function item, and each body with at least one expression is well
/// formed for lowering to MIR.
pub open spec fn hir_built_from(c: HirCrate, typed: &TypedCrate, a: &Arena) -> bool {
    &&& forall|i: int| 0 <= i < c.entries().len() ==> #[trigger] entry_of_some_item(typed, a, c.entries()[i])
    &&& forall|i: int| 0 <= i < c.entries().len() ==> (
        #[trigger] crate::mir_build::owner_body(c.entries()[i].1)).exprs@.len() > 0 ==> hir_wf(
        crate::mir_build::owner_body(c.entries()[i].1),
    )
}

/// Builds the HIR of every function item that has a definition: its
/// parameters become its first locals, typed as recorded (else unit).
pub fn build_hir(typed: &TypedCrate, module: &crate::ast::Module, arena: &Arena) -> (c: HirCrate)
    requires
        arena.wf(),
        forall|i: int| 0 <= i < typed.item_def_ids@.len() ==> (#[trigger] typed.item_def_ids@[i]).0 .0 < arena.items().len(),
    ensures
        hir_built_from(c, typed, arena),
        forall|k: int|
            0 <= k < typed.item_def_ids@.len() && arena.items()[typed.item_def_ids@[k].0 .0 as int].kind is Function
                ==> #[trigger] has_entry(c.entries(), typed.item_def_ids@[k].1),
{
    let mut hir_crate = HirCrate::new();
    let unit = typed.unit;
    let mut k: usize = 0;
    while k < typed.item_def_ids.len()
        invariant
            k <= typed.item_def_ids@.len(),
            arena.wf(),
            forall|i: int| 0 <= i < typed.item_def_ids@.len() ==> (#[trigger] typed.item_def_ids@[i]).0 .0 < arena.items().len(),
            hir_built_from(hir_crate, typed, arena),
            forall|kk: int|
                0 <= kk < k && arena.items()[typed.item_def_ids@[kk].0 .0 as int].kind is Function
                    ==> #[trigger] has_entry(hir_crate.entries(), typed.item_def_ids@[kk].1),
        decreases typed.item_def_ids@.len() - k,
    {
        let (item_id, def_id) = typed.item_def_ids[k];
        assert(typed.item_def_ids@[k as int].0 .0 < arena.items().len());
        let item = arena.item(item_id);
        assert(crate::ast::arena::item_kind_ok(arena, item.kind, arena.item_rank(item_id.0 as int)));
        if let ItemKind::Function { name, params, body, .. } = &item.kind {
            let mut b = HirBuilder::new();
            let ret = match typed.ret_of(def_id) {
                Some(t) => t,
                None => unit,
            };
            let mut param_locals: Vec<LocalId> = Vec::new();
            let no_tys: Vec<TypeId> = Vec::new();
            let param_tys = match typed.params_of(def_id) {
                Some(v) => v,
                None => &no_tys,
            };
            let mut i: usize = 0;
            while i < params.len()
                invariant
                    i <= params@.len(),
                    param_locals@.len() == i,
                    b.locals@.len() == i,
                    forall|m: int| 0 <= m < i ==> (#[trigger] param_locals@[m]).0 == m as u32,
                    b.wf(),
                    b.exprs@.len() == 0,
                    b.stmts@.len() == 0,
                decreases params@.len() - i,
            {
                let ty = if i < param_tys.len() { param_tys[i] } else { unit };
                let local = b.alloc_local(params[i].name.clone(), ty, Mutability::Imm, params[i].span);
                let ghost old_locals = param_locals@;
                param_locals.push(local);
                assert(param_locals@ == old_locals.push(local));
                i = i + 1;
            }
            let ghost b0 = b;
            let mut stmt_ids: Vec<HirStmtId> = Vec::new();
            let mut j: usize = 0;
            while j < body.len()
                invariant
                    j <= body@.len(),
                    arena.wf(),
                    stmts_ok(arena, body@, arena.item_rank(item_id.0 as int)),
                    b.wf(),
                    b0.grows(&b),
                    stmt_ids@.len() == j,
                    forall|m: int| 0 <= m < stmt_ids@.len() ==> (#[trigger] stmt_ids@[m]).0 < b.stmts@.len(),
                    body@.len() == 1 && j == 1 ==> (ast_stmt_const_return(arena, body@[0].0 as int) matches Some(
                        ex,
                    ) ==> returns_ast_const(b.exprs@, b.stmts@, stmt_ids@[0].0 as int, arena, ex)),
                    forall|m: int|
                        0 <= m < stmt_ids@.len() ==> stmt_lowers(
                            b.exprs@,
                            b.stmts@,
                            (#[trigger] stmt_ids@[m]).0 as int,
                            typed,
                            arena,
                            body@[m].0 as int,
                        ),
                decreases body@.len() - j,
            {
                assert(stmt_ok(arena, body@[j as int], arena.item_rank(item_id.0 as int)));
                let ghost bp = b;
                let sid = lower_stmt(&mut b, typed, arena, body[j]);
                proof {
                    assert forall|m: int| 0 <= m < stmt_ids@.len() implies stmt_lowers(
                        b.exprs@,
                        b.stmts@,
                        (#[trigger] stmt_ids@[m]).0 as int,
                        typed,
                        arena,
                        body@[m].0 as int,
                    ) by {
                        lemma_stmt_lowers_grow(
                            bp.exprs@,
                            bp.stmts@,
                            b.exprs@,
                            b.stmts@,
                            stmt_ids@[m].0 as int,
                            typed,
                            arena,
                            body@[m].0 as int,
                        );
                    }
                }
                let ghost old_ids = stmt_ids@;
                stmt_ids.push(sid);
                assert(stmt_ids@ == old_ids.push(sid));
                j = j + 1;
            }
            let hb = HirBody {
                def_id,
                name: name.clone(),
                params: param_locals,
                ret_ty: ret,
                stmts: stmt_ids,
                exprs: b.exprs,
                stmts_data: b.stmts,
                pats: b.pats,
                locals: b.locals,
            };
            proof {
                if hb.exprs@.len() > 0 {
                    assert forall|i: int| 0 <= i < hb.stmts_data@.len() implies stmt_exprs_in(#[trigger] hb.stmts_data@[i].kind, hb.exprs@.len()) by {
                        assert(stmt_exprs_in_or_zero(hb.stmts_data@[i].kind, hb.exprs@.len()));
                    }
                }
            }
            proof {
                if ast_body_const_return(arena, body@) is Some {
                    assert(hb.stmts@.len() == 1);
                }
                if ast_calls_then_return(arena, body@) && hb.exprs@.len() <= u32::MAX && hb.stmts_data@.len() <= u32::MAX {
                    lemma_body_calls(hb, typed, arena, body@);
                }
            }
            let owner = HirOwner { def_id, kind: HirOwnerKind::Function(hb) };
            assert(owner_of_item(typed, arena, k as int, def_id, owner));
            let ghost before = hir_crate.entries();
            hir_crate.insert(def_id, owner);
            proof {
                assert forall|d: DefId| has_entry(before, d) implies #[trigger] has_entry(hir_crate.entries(), d) by {
                    let i = choose|i: int| 0 <= i < before.len() && before[i].0 == d;
                    assert(hir_crate.entries()[i].0 == d);
                }
                if forall|i: int| 0 <= i < before.len() ==> before[i].0 != def_id {
                    assert(hir_crate.entries()[before.len() as int].0 == def_id);
                } else {
                    let i0 = choose|i: int| 0 <= i < before.len() && before[i].0 == def_id;
                    assert(has_entry(before, def_id));
                }
                assert(has_entry(hir_crate.entries(), def_id));
                assert forall|i: int| 0 <= i < hir_crate.entries().len() implies (
                    #[trigger] crate::mir_build::owner_body(hir_crate.entries()[i].1)).exprs@.len() > 0 ==> hir_wf(
                    crate::mir_build::owner_body(hir_crate.entries()[i].1),
                ) by {
                    if i < before.len() && hir_crate.entries()[i] == before[i] {
                    }
                }
                assert forall|i: int| 0 <= i < hir_crate.entries().len() implies #[trigger] entry_of_some_item(
                    typed,
                    arena,
                    hir_crate.entries()[i],
                ) by {
                    if i < before.len() && hir_crate.entries()[i] == before[i] {
                        assert(entry_of_some_item(typed, arena, before[i]));
                        let kk = choose|kk: int| owner_of_item(typed, arena, kk, before[i].0, before[i].1);
                        assert(owner_of_item(typed, arena, kk, hir_crate.entries()[i].0, hir_crate.entries()[i].1));
                    } else {
                        assert(hir_crate.entries()[i] == (def_id, owner));
                        assert(owner_of_item(typed, arena, k as int, hir_crate.entries()[i].0, hir_crate.entries()[i].1));
                    }
                }
            }
        }
        k = k + 1;
    }
    hir_crate
}

/// The AST expression that item `item` returns, where it is a function
/// whose only statement is `return` of an expression built from literals
/// and operators.
pub open spec fn ast_item_const_return(a: &Arena, item: ItemId) -> Option<int> {
    if item.0 < a.items().len() {
        match a.items()[item.0 as int].kind {
            ItemKind::Function { body, .. } => ast_body_const_return(a, body@),
            _ => None,
        }
    } else {
        None
    }
}

/// A function item whose body is `return` of an expression built from
/// literals and operators compiles, through HIR and MIR, to a function
/// whose every run returns the value of that expression (or traps where
/// evaluating it traps) and prints nothing; the ids of its HIR and the
/// locals of its MIR must fit in 32 bits.
pub proof fn constant_function_returns_its_value(
    typed: &TypedCrate,
    a: &Arena,
    hir: HirCrate,
    mir: MirCrate,
    i: int,
    k: int,
    c: MirCrate,
    fuel: nat,
    out: Seq<Seq<char>>,
)
    requires
        hir_built_from(hir, typed, a),
        crate::mir_build::mir_built_from(mir, hir),
        0 <= i < hir.entries().len(),
        0 <= k < typed.item_def_ids@.len(),
        typed.item_def_ids@[k].1 == hir.entries()[i].0,
        forall|k1: int, k2: int|
            0 <= k1 < k2 < typed.item_def_ids@.len() ==> #[trigger] typed.item_def_ids@[k1].1
                != #[trigger] typed.item_def_ids@[k2].1,
        ast_item_const_return(a, typed.item_def_ids@[k].0) is Some,
        crate::mir_build::owner_body(hir.entries()[i].1).exprs@.len() <= u32::MAX,
        crate::mir_build::owner_body(hir.entries()[i].1).stmts_data@.len() <= u32::MAX,
        mir.funcs()[i].1.locals@.len() <= u32::MAX,
        fuel > 0,
    ensures
        run_body(c, mir.funcs()[i].1, Seq::empty(), fuel, out) == (
            match ast_const_value(a, ast_item_const_return(a, typed.item_def_ids@[k].0).unwrap()) {
                Some(v) => Ending::Returned(v),
                None => Ending::Trapped,
            },
            out,
        ),
{
    let e = hir.entries()[i];
    assert(entry_of_some_item(typed, a, e));
    let kk = choose|kk: int| owner_of_item(typed, a, kk, e.0, e.1);
    assert(kk == k) by {
        if kk < k {
            assert(typed.item_def_ids@[kk].1 != typed.item_def_ids@[k].1);
        } else if k < kk {
            assert(typed.item_def_ids@[k].1 != typed.item_def_ids@[kk].1);
        }
    }
    let hb = crate::mir_build::owner_body(e.1);
    assert(crate::mir_build::lower::lowered_from(mir.funcs()[i].1, hb));
    let se = single_const_return(hb).unwrap();
    assert(run_body(c, mir.funcs()[i].1, Seq::empty(), fuel, out) == (
        match const_value(hb.exprs@, se) {
            Some(v) => Ending::Returned(v),
            None => Ending::Trapped,
        },
        out,
    ));
}


/// The statements of item `item`, where it is a function.
pub open spec fn ast_item_body(a: &Arena, item: ItemId) -> Option<Seq<StmtId>> {
    if item.0 < a.items().len() {
        match a.items()[item.0 as int].kind {
            ItemKind::Function { body, .. } => Some(body@),
            _ => None,
        }
    } else {
        None
    }
}

/// A function item whose statements call something on a constant
/// expression each and then return a constant expression compiles, through
/// HIR and MIR, to a function whose every run with more steps than calls,
/// in a crate that defines none of the definitions called (so that each
/// call is the builtin `print`), prints the values of the arguments in
/// turn and returns the value of the last expression; an argument that
/// traps stops the run there. The ids of its HIR and the locals and blocks
/// of its MIR must fit in 32 bits.
pub proof fn printing_function_prints_its_values(
    typed: &TypedCrate,
    a: &Arena,
    hir: HirCrate,
    mir: MirCrate,
    i: int,
    k: int,
    c: MirCrate,
    fuel: nat,
    out: Seq<Seq<char>>,
)
    requires
        hir_built_from(hir, typed, a),
        crate::mir_build::mir_built_from(mir, hir),
        0 <= i < hir.entries().len(),
        0 <= k < typed.item_def_ids@.len(),
        typed.item_def_ids@[k].1 == hir.entries()[i].0,
        forall|k1: int, k2: int|
            0 <= k1 < k2 < typed.item_def_ids@.len() ==> #[trigger] typed.item_def_ids@[k1].1
                != #[trigger] typed.item_def_ids@[k2].1,
        ast_item_body(a, typed.item_def_ids@[k].0) is Some,
        ast_calls_then_return(a, ast_item_body(a, typed.item_def_ids@[k].0).unwrap()),
        crate::mir_build::owner_body(hir.entries()[i].1).exprs@.len() <= u32::MAX,
        crate::mir_build::owner_body(hir.entries()[i].1).stmts_data@.len() <= u32::MAX,
        mir.funcs()[i].1.locals@.len() <= u32::MAX,
        mir.funcs()[i].1.blocks@.len() <= u32::MAX,
        fuel > ast_call_values(typed, a, ast_item_body(a, typed.item_def_ids@[k].0).unwrap()).len(),
        forall|j: int|
            0 <= j < ast_call_values(typed, a, ast_item_body(a, typed.item_def_ids@[k].0).unwrap()).len()
                ==> def_lookup(
                c.defs(),
                #[trigger] ast_call_values(typed, a, ast_item_body(a, typed.item_def_ids@[k].0).unwrap())[j].0,
            ) is None,
    ensures
        run_body(c, mir.funcs()[i].1, Seq::empty(), fuel, out) == printing_run(
            call_args(ast_call_values(typed, a, ast_item_body(a, typed.item_def_ids@[k].0).unwrap())),
            ast_return_value(a, ast_item_body(a, typed.item_def_ids@[k].0).unwrap()),
            out,
        ),
{
    let e = hir.entries()[i];
    assert(entry_of_some_item(typed, a, e));
    let kk = choose|kk: int| owner_of_item(typed, a, kk, e.0, e.1);
    assert(kk == k) by {
        if kk < k {
            assert(typed.item_def_ids@[kk].1 != typed.item_def_ids@[k].1);
        } else if k < kk {
            assert(typed.item_def_ids@[k].1 != typed.item_def_ids@[kk].1);
        }
    }
    let hb = crate::mir_build::owner_body(e.1);
    let body = ast_item_body(a, typed.item_def_ids@[k].0).unwrap();
    assert(calls_then_return(hb) && call_values(hb) == ast_call_values(typed, a, body) && return_value(hb)
        == ast_return_value(a, body));
    assert(crate::mir_build::lower::lowered_from(mir.funcs()[i].1, hb));
    let calls = call_values(hb);
    assert(forall|j: int| 0 <= j < calls.len() ==> def_lookup(c.defs(), #[trigger] calls[j].0) is None);
    assert(run_body(c, mir.funcs()[i].1, Seq::empty(), fuel, out) == printing_run(call_args(calls), return_value(hb), out));
}

} // verus!
