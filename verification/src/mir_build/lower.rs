use vstd::prelude::*;

use crate::hir::expr::{HirExpr, HirExprKind};
use crate::hir::ids::{HirExprId, HirStmtId};
use crate::hir::place::{BinaryOp as HirBinOp, HirConst, Operand as HirOperand, Place as HirPlace, Rvalue as HirRvalue};
use crate::hir::stmt::{HirBody, HirStmtKind};
use crate::ids::{BlockId, DefId, LocalId};
use crate::mir::body::{BasicBlock, MirBody};
use crate::mir::operand::{ConstValue, FnOperand, Operand};
use crate::mir::place::Place;
use crate::mir::rvalue::{BinOp, Rvalue};
use crate::mir::body::MirCrate;
use crate::mir::body::def_lookup;
use crate::mir::interp::{const_view, print_text, run_body, stmt_spec, stmts_spec, Ending};
use crate::mir::ops::{binary_spec, unary_spec};
use crate::mir::statement::{Statement, StatementKind};
use crate::mir::terminator::{OperandPlace, TerminatorKind};
use crate::mir::value::VVal;
use crate::hir::place::UnaryOp as HirUnOp;
use crate::mir::rvalue::UnaryOp;
use crate::mir_build::builder::{
    cfg_closed, grows, hir_binary_to_mir, hir_const_to_mir, hir_unary_to_mir, targets_in, MirBuilder,
};
use crate::span::Span;
use crate::types::Mutability;

verus! {

/// The expressions an expression kind lowers recursively come before it.
pub open spec fn children_below(k: HirExprKind, i: int) -> bool {
    match k {
        HirExprKind::Unary { operand, .. } => operand.0 < i,
        HirExprKind::Binary { left, right, .. } => left.0 < i && right.0 < i,
        HirExprKind::Call { args, .. } => forall|j: int| 0 <= j < args@.len() ==> (#[trigger] args@[j]).0 < i,
        HirExprKind::If { cond, then, else_branch } => cond.0 < i && then.0 < i && else_branch.0 < i,
        _ => true,
    }
}

/// The expressions a statement lowers exist.
pub open spec fn stmt_exprs_in(k: HirStmtKind, n: nat) -> bool {
    match k {
        HirStmtKind::Expr(e) => e.0 < n,
        HirStmtKind::Return(Some(e)) => e.0 < n,
        HirStmtKind::While { cond, .. } => cond.0 < n,
        _ => true,
    }
}

/// A HIR body whose ids index its tables, with every expression after the
/// expressions it is built from.
pub open spec fn hir_wf(b: HirBody) -> bool {
    &&& forall|i: int| 0 <= i < b.stmts@.len() ==> (#[trigger] b.stmts@[i]).0 < b.stmts_data@.len()
    &&& forall|i: int| 0 <= i < b.stmts_data@.len() ==> stmt_exprs_in(#[trigger] b.stmts_data@[i].kind, b.exprs@.len())
    &&& forall|i: int| 0 <= i < b.exprs@.len() ==> children_below(#[trigger] b.exprs@[i].kind, i)
}

/// The constant expression that `b` returns, where its only statement is
/// `return` of an expression built from literals and operators.
pub open spec fn single_const_return(b: HirBody) -> Option<int> {
    if b.stmts@.len() == 1 && b.stmts@[0].0 < b.stmts_data@.len() {
        match b.stmts_data@[b.stmts@[0].0 as int].kind {
            HirStmtKind::Return(Some(e)) => if const_expr(b.exprs@, e.0 as int) {
                Some(e.0 as int)
            } else {
                None
            },
            _ => None,
        }
    } else {
        None
    }
}

/// Every run of `m`, given any fuel at all, returns the value of the
/// constant expression `e` of `b` (or traps where evaluating it traps) and
/// prints nothing.
pub open spec fn runs_to_const(m: MirBody, b: HirBody, e: int) -> bool {
    forall|c: MirCrate, fuel: nat, out: Seq<Seq<char>>|
        fuel > 0 ==> #[trigger] run_body(c, m, Seq::empty(), fuel, out) == (
            match const_value(b.exprs@, e) {
                Some(v) => Ending::Returned(v),
                None => Ending::Trapped,
            },
            out,
        )
}

/// A MIR body lowered from `b`: same name, definition, arguments and
/// return type, a return local of that type, and a closed control-flow
/// graph; a body that returns a constant expression computes it.
pub open spec fn lowered_from(m: MirBody, b: HirBody) -> bool {
    &&& m.name@ == b.name@
    &&& m.def_id == b.def_id
    &&& m.arg_count == b.params@.len()
    &&& m.return_ty == b.ret_ty
    &&& m.locals@.len() >= 1
    &&& m.locals@[0].ty == b.ret_ty
    &&& m.blocks@.len() >= 1
    &&& cfg_closed(m.blocks@)
    &&& m.source_scopes@.len() == 0
    &&& match single_const_return(b) {
        Some(e) => m.locals@.len() <= u32::MAX ==> runs_to_const(m, b, e),
        None => true,
    }
    &&& calls_then_return(b) && m.locals@.len() <= u32::MAX && m.blocks@.len() <= u32::MAX ==> runs_printing(
        m,
        call_values(b),
        return_value(b),
    )
}

/// MIR operand `o` is HIR operand `op` lowered: a copy of its local (a move
/// too), or a constant.
pub open spec fn operand_as(op: HirOperand, o: Operand) -> bool {
    match op {
        HirOperand::Copy(p) => o matches Operand::Copy(q) && q.local == p.local && q.projection@.len() == 0,
        HirOperand::Move(p) => o matches Operand::Copy(q) && q.local == p.local && q.projection@.len() == 0,
        HirOperand::Constant(_) => o is Constant,
    }
}

/// MIR rvalue `r` is HIR rvalue `rv` lowered, operator by operator and
/// operand by operand; the unit constant for the other kinds.
pub open spec fn assigned_as(rv: HirRvalue, r: Rvalue) -> bool {
    match rv {
        HirRvalue::Use(op) => r matches Rvalue::Use(o) && operand_as(op, o),
        HirRvalue::UnaryOp { operand, .. } => r matches Rvalue::UnaryOp { operand: o, .. } && operand_as(operand, o),
        HirRvalue::BinaryOp { op, left, right } => r matches Rvalue::BinaryOp { op: o, left: l, right: rr } && o
            == lower_binop_spec(op) && operand_as(left, l) && operand_as(right, rr),
        _ => r == Rvalue::Use(Operand::Constant(ConstValue::Unit)),
    }
}

/// Builder `b` is `a` with one statement appended to its current block:
/// the assignment of `rv`, lowered, to the local of `place`.
pub open spec fn assign_appended(a: MirBuilder, b: MirBuilder, place: HirPlace, rv: HirRvalue) -> bool {
    let cur = a.current_block.0 as int;
    &&& b.current_block == a.current_block
    &&& b.blocks@.len() == a.blocks@.len()
    &&& b.locals@ == a.locals@
    &&& b.blocks@[cur].statements@.len() == a.blocks@[cur].statements@.len() + 1
    &&& b.blocks@[cur].statements@.drop_last() == a.blocks@[cur].statements@
    &&& b.blocks@[cur].statements@.last().kind matches StatementKind::Assign { place: mp, rvalue: mr }
    &&& mp.local == place.local
    &&& mp.projection@.len() == 0
    &&& assigned_as(rv, mr)
    &&& b.blocks@[cur].terminator == a.blocks@[cur].terminator
    &&& forall|i: int| 0 <= i < a.blocks@.len() && i != cur ==> #[trigger] b.blocks@[i] == a.blocks@[i]
}

/// Where the locals of `b` fit, the current block of `b` ends a return of
/// HIR expression `e`: its last statement copies the local that holds the
/// value of `e` to the return local, and it returns.
pub open spec fn returns_expr(b: MirBuilder, es: Seq<HirExpr>, e: int) -> bool {
    b.locals@.len() <= u32::MAX ==> {
        let bb = b.blocks@[b.current_block.0 as int];
        &&& bb.statements@.len() > 0
        &&& bb.statements@.last().kind matches StatementKind::Assign { place, rvalue: Rvalue::Use(Operand::Copy(q)) }
        &&& place.local.0 == 0 && place.projection@.len() == 0
        &&& q.projection@.len() == 0 && q.local == result_local(es, e, b.locals@.len() as int)
        &&& bb.terminator.kind == TerminatorKind::Return
    }
}

/// The constant expression a statement returns, where it is `return` of
/// an expression built from literals and operators.
pub open spec fn stmt_const_return(b: HirBody, sid: int) -> Option<int> {
    if 0 <= sid < b.stmts_data@.len() {
        match b.stmts_data@[sid].kind {
            HirStmtKind::Return(Some(e)) => if const_expr(b.exprs@, e.0 as int) {
                Some(e.0 as int)
            } else {
                None
            },
            _ => None,
        }
    } else {
        None
    }
}

/// Block `cur` of `b` is that of `a` with statements appended that leave
/// `v` in the return place (or trap where `v` is `None`), and it returns;
/// the other blocks are as they were.
pub open spec fn returns_const(a: MirBuilder, b: MirBuilder, v: Option<VVal>) -> bool {
    let cur = a.current_block.0 as int;
    let s0 = a.blocks@[cur].statements@;
    let s1 = b.blocks@[cur].statements@;
    &&& b.blocks@.len() == a.blocks@.len()
    &&& b.current_block == a.current_block
    &&& b.blocks@[cur].terminator.kind == TerminatorKind::Return
    &&& forall|i: int| 0 <= i < a.blocks@.len() && i != cur ==> #[trigger] b.blocks@[i] == a.blocks@[i]
    &&& s0.len() <= s1.len()
    &&& s1.subrange(0, s0.len() as int) == s0
    &&& computes(s1.subrange(s0.len() as int, s1.len() as int), 0, 0, b.locals@.len(), v)
}

proof fn lemma_return_lowered(
    a: MirBuilder,
    b1: MirBuilder,
    b2: MirBuilder,
    b: MirBuilder,
    q: Place,
    rp: Place,
    st: Statement,
    v: Option<VVal>,
)
    requires
        a.wf(),
        b1.wf(),
        lowered_const(a, b1, q, v),
        appended(b1, b2, seq![st]),
        st.kind == (StatementKind::Assign { place: rp, rvalue: Rvalue::Use(Operand::Copy(q)) }),
        rp.local.0 == 0,
        rp.projection@.len() == 0,
        b2.locals@ == b1.locals@,
        b.locals@ == b2.locals@,
        b.blocks@.len() == b2.blocks@.len(),
        b.current_block == b2.current_block,
        b.blocks@[b2.current_block.0 as int].terminator.kind == TerminatorKind::Return,
        b.blocks@[b2.current_block.0 as int].statements == b2.blocks@[b2.current_block.0 as int].statements,
        forall|i: int| 0 <= i < b2.blocks@.len() && i != b2.current_block.0 ==> #[trigger] b.blocks@[i] == b2.blocks@[i],
    ensures
        returns_const(a, b, v),
{
    let cur = a.current_block.0 as int;
    let t1 = b1.blocks@[cur].statements@.subrange(a.blocks@[cur].statements@.len() as int, b1.blocks@[cur].statements@.len() as int);
    lemma_appended_of_lowered(a, b1, q, v);
    lemma_append_chain(a, b1, b2, t1, seq![st]);
    let s0 = a.blocks@[cur].statements@;
    let s1 = b.blocks@[cur].statements@;
    assert(s1 == s0 + (t1 + seq![st]));
    assert(s1.subrange(0, s0.len() as int) =~= s0);
    assert(s1.subrange(s0.len() as int, s1.len() as int) =~= t1 + seq![st]);
    assert forall|slots: Seq<Option<VVal>>| slots.len() >= b.locals@.len() implies match v {
        Some(x) => #[trigger] stmts_spec(slots, t1 + seq![st]) matches Some(s2) && s2.len() == slots.len() && s2[0] == Some(x)
            && forall|j: int| 0 <= j < 0 ==> s2[j] == slots[j],
        None => stmts_spec(slots, t1 + seq![st]) is None,
    } by {
        lemma_stmts_concat(slots, t1, seq![st]);
        assert(stmts_spec(slots, t1) == stmts_spec(slots, t1));
        match stmts_spec(slots, t1) {
            Some(s1) => lemma_stmts_one(s1, st),
            None => {},
        }
    }
}

proof fn lemma_runs_to_const(m: MirBody, b: HirBody, e: int, v: Option<VVal>)
    requires
        m.blocks@.len() == 1,
        m.locals@.len() >= 1,
        m.blocks@[0].terminator.kind == TerminatorKind::Return,
        computes(m.blocks@[0].statements@, 0, 0, m.locals@.len(), v),
        v == const_value(b.exprs@, e),
    ensures
        runs_to_const(m, b, e),
{
    assert forall|c: MirCrate, fuel: nat, out: Seq<Seq<char>>| fuel > 0 implies #[trigger] run_body(c, m, Seq::empty(), fuel, out)
        == (
        match const_value(b.exprs@, e) {
            Some(x) => Ending::Returned(x),
            None => Ending::Trapped,
        },
        out,
    ) by {
        let slots = crate::mir::interp::init_slots(m.locals@.len(), Seq::empty());
        let ss = m.blocks@[0].statements@;
        assert(slots.len() == m.locals@.len());
        assert(run_body(c, m, Seq::empty(), fuel, out) == crate::mir::interp::run_from(c, m, slots, 0, fuel, out));
        assert(stmts_spec(slots, ss) == stmts_spec(slots, ss));
        match v {
            Some(x) => {
                assert(stmts_spec(slots, ss) matches Some(s2) && s2[0] == Some(x) && s2.len() == slots.len());
                let s2 = stmts_spec(slots, ss)->0;
                assert(crate::mir::interp::run_from(c, m, slots, 0, fuel, out) == crate::mir::interp::run_terminator(
                    c,
                    m,
                    s2,
                    TerminatorKind::Return,
                    fuel,
                    out,
                ));
                assert(crate::mir::memory::slot_value(s2, 0) == x);
                assert(crate::mir::memory::frame_get(s2, 0, Seq::empty()) == x);
            },
            None => {
                assert(stmts_spec(slots, ss) is None);
                assert(crate::mir::interp::run_from(c, m, slots, 0, fuel, out) == (Ending::Trapped, out));
            },
        }
    }
}

/// Lowers a HIR function body to MIR.
pub fn lower_function(body: &HirBody) -> (m: MirBody)
    requires
        hir_wf(*body),
    ensures
        lowered_from(m, *body),
{
    let span = if body.locals.len() > 0 { body.locals[0].span } else { Span::dummy() };
    let mut builder = MirBuilder::new(body.ret_ty, span);
    let ghost b_new = builder;
    let mut i: usize = 0;
    while i < body.stmts.len()
        invariant
            hir_wf(*body),
            builder.wf(),
            builder.locals@.len() >= 1,
            builder.locals@[0].ty == body.ret_ty,
            i <= body.stmts@.len(),
            i == 0 ==> builder == b_new,
            b_new.blocks@.len() == 1,
            b_new.blocks@[0].statements@.len() == 0,
            b_new.current_block.0 == 0,
            b_new.wf(),
            match single_const_return(*body) {
                Some(e) => i == 1 && builder.locals@.len() <= u32::MAX ==> returns_const(b_new, builder, const_value(body.exprs@, e)),
                None => true,
            },
            calls_then_return(*body) && builder.locals@.len() <= u32::MAX && builder.blocks@.len() <= u32::MAX
                ==> chain_so_far(builder, call_values(*body), return_value(*body), i as nat),
        decreases body.stmts@.len() - i,
    {
        let ghost bp = builder;
        lower_stmt(&mut builder, body, body.stmts[i]);
        proof {
            if single_const_return(*body) is Some && i == 0 {
                assert(stmt_const_return(*body, body.stmts@[0].0 as int) == single_const_return(*body));
            }
            if calls_then_return(*body) && builder.locals@.len() <= u32::MAX && builder.blocks@.len() <= u32::MAX {
                lemma_chain_step(bp, builder, *body, i as nat);
            }
        }
        i = i + 1;
    }
    let last = builder.blocks.len() - 1;
    if !matches!(builder.blocks[last].terminator.kind, TerminatorKind::Return | TerminatorKind::Unreachable) {
        builder.terminate(TerminatorKind::Return, span);
    }
    proof {
        match single_const_return(*body) {
            Some(e) => {
                if builder.locals@.len() <= u32::MAX {
                    assert(i == 1);
                    assert(returns_const(b_new, builder, const_value(body.exprs@, e)));
                    assert(builder.blocks@.len() == 1);
                    let s1 = builder.blocks@[0].statements@;
                    assert(s1.subrange(0, 0) =~= Seq::<Statement>::empty());
                    assert(s1.subrange(0, s1.len() as int) =~= s1);
                }
            },
            None => {},
        }
    }
    let ghost bf = builder;
    let m = MirBody {
        name: body.name.clone(),
        def_id: body.def_id,
        arg_count: body.params.len(),
        return_ty: body.ret_ty,
        locals: builder.locals,
        blocks: builder.blocks,
        source_scopes: Vec::new(),
    };
    proof {
        match single_const_return(*body) {
            Some(e) => {
                if m.locals@.len() <= u32::MAX {
                    lemma_runs_to_const(m, *body, e, const_value(body.exprs@, e));
                }
            },
            None => {},
        }
        if calls_then_return(*body) && m.locals@.len() <= u32::MAX && m.blocks@.len() <= u32::MAX {
            let calls = call_values(*body);
            let ret = return_value(*body);
            assert(chain_so_far(bf, calls, ret, body.stmts@.len()));
            assert(print_chain(m, calls, ret));
            assert forall|c: MirCrate, fuel: nat, out: Seq<Seq<char>>|
                fuel > calls.len() && (forall|j: int| 0 <= j < calls.len() ==> def_lookup(c.defs(), #[trigger] calls[j].0) is None)
                    implies #[trigger] run_body(c, m, Seq::empty(), fuel, out) == printing_run(call_args(calls), ret, out) by {
                let slots = crate::mir::interp::init_slots(m.locals@.len(), Seq::empty());
                lemma_chain_run(c, m, calls, ret, 0, slots, fuel, out);
                assert(call_args(calls).subrange(0, calls.len() as int) =~= call_args(calls));
            }
        }
    }
    m
}

/// The builder after lowering the first `i` statements of a body of calls
/// and a final `return`: a chain of call blocks, then (once the `return`
/// is lowered) the returning block; before that, the current block is the
/// last one and empty.
spec fn chain_so_far(b: MirBuilder, calls: Seq<(DefId, Option<VVal>)>, ret: Option<VVal>, i: nat) -> bool {
    let k = calls.len();
    &&& forall|j: int|
        0 <= j < i && j < k ==> calls_after(
            #[trigger] b.blocks@[j].terminator.kind,
            b.blocks@[j].statements@,
            calls[j].0,
            (j + 1) as nat,
            0,
            b.locals@.len(),
            calls[j].1,
        )
    &&& i <= k ==> b.blocks@.len() == i + 1 && b.current_block.0 == i && b.blocks@[i as int].statements@.len() == 0
    &&& i == k + 1 ==> b.blocks@.len() == k + 1 && b.blocks@[k as int].terminator.kind == TerminatorKind::Return
        && computes(b.blocks@[k as int].statements@, 0, 0, b.locals@.len(), ret)
}

proof fn lemma_chain_step(a: MirBuilder, b: MirBuilder, body: HirBody, i: nat)
    requires
        calls_then_return(body),
        i < body.stmts@.len(),
        a.wf(),
        grows(&a, &b),
        b.locals@.len() <= u32::MAX,
        b.blocks@.len() <= u32::MAX,
        a.locals@.len() <= u32::MAX && a.blocks@.len() <= u32::MAX ==> chain_so_far(a, call_values(body), return_value(body), i),
        match stmt_const_return(body, body.stmts@[i as int].0 as int) {
            Some(e) => b.locals@.len() <= u32::MAX ==> returns_const(a, b, const_value(body.exprs@, e)),
            None => true,
        },
        match stmt_const_call(body, body.stmts@[i as int].0 as int) {
            Some(call) => b.locals@.len() <= u32::MAX && b.blocks@.len() <= u32::MAX ==> call_lowered(
                a,
                b,
                call.0,
                const_value(body.exprs@, call.1),
            ),
            None => true,
        },
    ensures
        chain_so_far(b, call_values(body), return_value(body), i + 1),
{
    let calls = call_values(body);
    let ret = return_value(body);
    let k = calls.len();
    assert(chain_so_far(a, calls, ret, i));
    if i < k {
        assert(stmt_const_call(body, body.stmts@[i as int].0 as int) is Some);
        let call = stmt_const_call(body, body.stmts@[i as int].0 as int).unwrap();
        assert(calls[i as int] == (call.0, const_value(body.exprs@, call.1)));
        assert(call_lowered(a, b, call.0, const_value(body.exprs@, call.1)));
        let s1 = b.blocks@[i as int].statements@;
        assert(s1.subrange(0, 0) =~= Seq::<Statement>::empty());
        assert(s1.subrange(0, s1.len() as int) =~= s1);
        lemma_calls_after_mono(
            b.blocks@[i as int].terminator.kind,
            s1,
            call.0,
            i + 1,
            a.locals@.len(),
            b.locals@.len(),
            b.locals@.len(),
            calls[i as int].1,
        );
        assert forall|j: int| 0 <= j < i + 1 && j < k implies calls_after(
            #[trigger] b.blocks@[j].terminator.kind,
            b.blocks@[j].statements@,
            calls[j].0,
            (j + 1) as nat,
            0,
            b.locals@.len(),
            calls[j].1,
        ) by {
            if j < i {
                assert(b.blocks@[j] == a.blocks@[j]);
                lemma_calls_after_mono(
                    a.blocks@[j].terminator.kind,
                    a.blocks@[j].statements@,
                    calls[j].0,
                    (j + 1) as nat,
                    0,
                    a.locals@.len(),
                    b.locals@.len(),
                    calls[j].1,
                );
            }
        }
    } else {
        assert(i == k);
        assert(body.stmts@[i as int] == body.stmts@.last());
        let e = stmt_const_return(body, body.stmts@[i as int].0 as int).unwrap();
        assert(returns_const(a, b, const_value(body.exprs@, e)));
        let s1 = b.blocks@[i as int].statements@;
        assert(s1.subrange(0, 0) =~= Seq::<Statement>::empty());
        assert(s1.subrange(0, s1.len() as int) =~= s1);
        assert forall|j: int| 0 <= j < i + 1 && j < k implies calls_after(
            #[trigger] b.blocks@[j].terminator.kind,
            b.blocks@[j].statements@,
            calls[j].0,
            (j + 1) as nat,
            0,
            b.locals@.len(),
            calls[j].1,
        ) by {
            assert(b.blocks@[j] == a.blocks@[j]);
            lemma_calls_after_mono(
                a.blocks@[j].terminator.kind,
                a.blocks@[j].statements@,
                calls[j].0,
                (j + 1) as nat,
                0,
                a.locals@.len(),
                b.locals@.len(),
                calls[j].1,
            );
        }
    }
}

/// Lowers one statement into the current block.
fn lower_stmt(builder: &mut MirBuilder, body: &HirBody, stmt_id: HirStmtId)
    requires
        old(builder).wf(),
        hir_wf(*body),
        stmt_id.0 < body.stmts_data@.len(),
    ensures
        final(builder).wf(),
        grows(&*old(builder), &*final(builder)),
        match stmt_const_return(*body, stmt_id.0 as int) {
            Some(e) => final(builder).locals@.len() <= u32::MAX ==> returns_const(
                *old(builder),
                *final(builder),
                const_value(body.exprs@, e),
            ),
            None => true,
        },
        match stmt_const_call(*body, stmt_id.0 as int) {
            Some(call) => final(builder).locals@.len() <= u32::MAX && final(builder).blocks@.len() <= u32::MAX
                ==> call_lowered(*old(builder), *final(builder), call.0, const_value(body.exprs@, call.1)),
            None => true,
        },
        match body.stmts_data@[stmt_id.0 as int].kind {
            HirStmtKind::Assign { place, rvalue } => assign_appended(*old(builder), *final(builder), place, rvalue),
            HirStmtKind::Return(Some(e)) => returns_expr(*final(builder), body.exprs@, e.0 as int),
            HirStmtKind::Return(None) => final(builder).blocks@[final(builder).current_block.0 as int].terminator.kind
                == TerminatorKind::Return,
            _ => true,
        },
{
    let stmt = &body.stmts_data[stmt_id.index()];
    let span = stmt.span;
    assert(stmt_exprs_in(stmt.kind, body.exprs@.len()));
    match &stmt.kind {
        HirStmtKind::Assign { place, rvalue } => {
            let ghost b0 = *builder;
            let mir_place = lower_place(place);
            let mir_rv = lower_rvalue(builder, body, rvalue, span);
            builder.assign_rvalue(mir_place, mir_rv, span);
            proof {
                let cur = b0.current_block.0 as int;
                assert(builder.blocks@[cur].statements@.drop_last() =~= b0.blocks@[cur].statements@);
            }
        },
        HirStmtKind::Expr(expr) => {
            let _ = lower_expr(builder, body, *expr, span);
        },
        HirStmtKind::Return(opt) => match opt {
            Some(expr) => {
                let ghost b0 = *builder;
                let val = lower_expr(builder, body, *expr, span);
                let ghost b1 = *builder;
                let tmp = expr_local(body, val);
                let ghost gtmp = tmp;
                let rp = Place::return_place();
                let ghost grp = rp;
                builder.assign_use(rp, Operand::Copy(tmp), span);
                let ghost b2 = *builder;
                builder.terminate(TerminatorKind::Return, span);
                proof {
                    if stmt_const_return(*body, stmt_id.0 as int) is Some && builder.locals@.len() <= u32::MAX {
                        let st = Statement {
                            kind: StatementKind::Assign { place: grp, rvalue: Rvalue::Use(Operand::Copy(gtmp)) },
                            span,
                        };
                        let cur = b0.current_block.0 as int;
                        assert(b2.blocks@[cur].statements@ =~= b1.blocks@[cur].statements@ + seq![st]);
                        lemma_return_lowered(b0, b1, b2, *builder, gtmp, grp, st, const_value(body.exprs@, expr.0 as int));
                    }
                }
            },
            None => builder.terminate(TerminatorKind::Return, span),
        },
        HirStmtKind::Drop(place) => {
            let _ = lower_place(place);
        },
        HirStmtKind::While { cond, .. } => {
            let _ = lower_expr(builder, body, *cond, span);
        },
    }
}

// ---- what lowering a constant expression computes ------------------------------

/// The value of a HIR constant.
pub open spec fn hir_const_value(c: HirConst) -> VVal {
    match c {
        HirConst::Int(n) => VVal::Int(n),
        HirConst::Bool(b) => VVal::Bool(b),
        HirConst::Float(f) => VVal::Float(f@),
        HirConst::Str(s) => VVal::Str(s@),
        HirConst::Unit => VVal::Unit,
    }
}

/// The MIR operator of a HIR unary operator.
pub open spec fn unop_spec(op: HirUnOp) -> UnaryOp {
    match op {
        HirUnOp::Not => UnaryOp::Not,
        HirUnOp::Neg => UnaryOp::Neg,
    }
}

/// Expression `e` of the table `es` is built from literals with unary and
/// binary operators only.
pub open spec fn const_expr(es: Seq<HirExpr>, e: int) -> bool
    decreases e,
{
    if 0 <= e < es.len() {
        match es[e].kind {
            HirExprKind::Literal(_) => true,
            HirExprKind::Unary { operand, .. } => operand.0 < e && const_expr(es, operand.0 as int),
            HirExprKind::Binary { left, right, .. } => left.0 < e && right.0 < e && const_expr(es, left.0 as int)
                && const_expr(es, right.0 as int),
            _ => false,
        }
    } else {
        false
    }
}

/// The value of a constant expression, computed with the interpreter's
/// operators; `None` where that traps (overflow, division by zero).
pub open spec fn const_value(es: Seq<HirExpr>, e: int) -> Option<VVal>
    decreases e,
{
    if 0 <= e < es.len() {
        match es[e].kind {
            HirExprKind::Literal(c) => Some(hir_const_value(c)),
            HirExprKind::Unary { op, operand } => if operand.0 < e {
                match const_value(es, operand.0 as int) {
                    Some(v) => unary_spec(unop_spec(op), v),
                    None => None,
                }
            } else {
                None
            },
            HirExprKind::Binary { op, left, right } => if left.0 < e && right.0 < e {
                match (const_value(es, left.0 as int), const_value(es, right.0 as int)) {
                    (Some(l), Some(r)) => binary_spec(lower_binop_spec(op), l, r),
                    _ => None,
                }
            } else {
                None
            },
            _ => None,
        }
    } else {
        None
    }
}

/// Appending expressions to a table changes neither which of its
/// expressions are constant nor their values.
pub(crate) proof fn lemma_const_prefix(es: Seq<HirExpr>, es2: Seq<HirExpr>, e: int)
    requires
        es.len() <= es2.len(),
        forall|i: int| 0 <= i < es.len() ==> #[trigger] es2[i] == es[i],
        0 <= e < es.len(),
    ensures
        const_expr(es2, e) == const_expr(es, e),
        const_value(es2, e) == const_value(es, e),
    decreases e,
{
    assert(es2[e] == es[e]);
    match es[e].kind {
        HirExprKind::Unary { operand, .. } => {
            if operand.0 < e {
                lemma_const_prefix(es, es2, operand.0 as int);
            }
        },
        HirExprKind::Binary { left, right, .. } => {
            if left.0 < e && right.0 < e {
                lemma_const_prefix(es, es2, left.0 as int);
                lemma_const_prefix(es, es2, right.0 as int);
            }
        },
        _ => {},
    }
}

/// Running `ss` from any slots with room for `hi` locals leaves the slots
/// below `lo` as they were and `v` in `local`, or traps where `v` is
/// `None`.
pub open spec fn computes(ss: Seq<Statement>, local: int, lo: nat, hi: nat, v: Option<VVal>) -> bool {
    forall|slots: Seq<Option<VVal>>|
        slots.len() >= hi ==> match v {
            Some(x) => #[trigger] stmts_spec(slots, ss) matches Some(s2) && s2.len() == slots.len() && s2[local] == Some(x)
                && forall|j: int| 0 <= j < lo ==> s2[j] == slots[j],
            None => stmts_spec(slots, ss) is None,
        }
}

/// What lowering a constant expression does to the builder: it appends
/// statements to the current block and nothing else, and they compute the
/// expression's value into the fresh local of `p`.
pub open spec fn lowered_const(a: MirBuilder, b: MirBuilder, p: Place, v: Option<VVal>) -> bool {
    let cur = a.current_block.0 as int;
    let s0 = a.blocks@[cur].statements@;
    let s1 = b.blocks@[cur].statements@;
    &&& b.blocks@.len() == a.blocks@.len()
    &&& b.current_block == a.current_block
    &&& b.blocks@[cur].terminator == a.blocks@[cur].terminator
    &&& forall|i: int| 0 <= i < a.blocks@.len() && i != cur ==> #[trigger] b.blocks@[i] == a.blocks@[i]
    &&& s0.len() <= s1.len()
    &&& s1.subrange(0, s0.len() as int) == s0
    &&& a.locals@.len() <= p.local.0 < b.locals@.len()
    &&& p.projection@.len() == 0
    &&& computes(s1.subrange(s0.len() as int, s1.len() as int), p.local.0 as int, a.locals@.len(), b.locals@.len(), v)
}

proof fn lemma_stmts_concat(slots: Seq<Option<VVal>>, a: Seq<Statement>, b: Seq<Statement>)
    ensures
        stmts_spec(slots, a + b) == match stmts_spec(slots, a) {
            Some(s) => stmts_spec(s, b),
            None => None,
        },
    decreases b.len(),
{
    if b.len() == 0 {
        assert(a + b =~= a);
    } else {
        assert((a + b).drop_last() =~= a + b.drop_last());
        lemma_stmts_concat(slots, a, b.drop_last());
    }
}

proof fn lemma_stmts_one(slots: Seq<Option<VVal>>, st: Statement)
    ensures
        stmts_spec(slots, seq![st]) == stmt_spec(slots, st),
{
    let one = seq![st];
    assert(one.drop_last() =~= Seq::<Statement>::empty());
    assert(one.last() == st);
    assert(stmts_spec(slots, Seq::<Statement>::empty()) == Some(slots));
}

proof fn lemma_const_view(c: HirConst, m: ConstValue)
    requires
        match (c, m) {
            (HirConst::Int(n), ConstValue::Int(k)) => n == k,
            (HirConst::Bool(b), ConstValue::Bool(d)) => b == d,
            (HirConst::Float(f), ConstValue::Float(g)) => f@ == g@,
            (HirConst::Str(x), ConstValue::Str(t)) => x@ == t@,
            (HirConst::Unit, ConstValue::Unit) => true,
            _ => false,
        },
    ensures
        const_view(m) == hir_const_value(c),
{
}


/// The statements of block `cur` of `b` are those of `a` and then `tail`;
/// nothing else of the blocks changed.
pub open spec fn appended(a: MirBuilder, b: MirBuilder, tail: Seq<Statement>) -> bool {
    let cur = a.current_block.0 as int;
    &&& b.blocks@.len() == a.blocks@.len()
    &&& b.current_block == a.current_block
    &&& b.blocks@[cur].terminator == a.blocks@[cur].terminator
    &&& forall|i: int| 0 <= i < a.blocks@.len() && i != cur ==> #[trigger] b.blocks@[i] == a.blocks@[i]
    &&& b.blocks@[cur].statements@ == a.blocks@[cur].statements@ + tail
}

proof fn lemma_lowered_from_appended(a: MirBuilder, b: MirBuilder, tail: Seq<Statement>, p: Place, v: Option<VVal>)
    requires
        a.wf(),
        appended(a, b, tail),
        a.locals@.len() <= p.local.0 < b.locals@.len(),
        p.projection@.len() == 0,
        computes(tail, p.local.0 as int, a.locals@.len(), b.locals@.len(), v),
    ensures
        lowered_const(a, b, p, v),
{
    let cur = a.current_block.0 as int;
    let s0 = a.blocks@[cur].statements@;
    let s1 = b.blocks@[cur].statements@;
    assert(s1.subrange(0, s0.len() as int) =~= s0);
    assert(s1.subrange(s0.len() as int, s1.len() as int) =~= tail);
}

proof fn lemma_appended_of_lowered(a: MirBuilder, b: MirBuilder, p: Place, v: Option<VVal>)
    requires
        a.wf(),
        lowered_const(a, b, p, v),
    ensures
        appended(a, b, b.blocks@[a.current_block.0 as int].statements@.subrange(
            a.blocks@[a.current_block.0 as int].statements@.len() as int,
            b.blocks@[a.current_block.0 as int].statements@.len() as int,
        )),
{
    let cur = a.current_block.0 as int;
    let s0 = a.blocks@[cur].statements@;
    let s1 = b.blocks@[cur].statements@;
    assert(s1 =~= s1.subrange(0, s0.len() as int) + s1.subrange(s0.len() as int, s1.len() as int));
}

proof fn lemma_append_chain(a: MirBuilder, b: MirBuilder, c: MirBuilder, t1: Seq<Statement>, t2: Seq<Statement>)
    requires
        appended(a, b, t1),
        appended(b, c, t2),
    ensures
        appended(a, c, t1 + t2),
{
    let cur = a.current_block.0 as int;
    assert(c.blocks@[cur].statements@ =~= a.blocks@[cur].statements@ + (t1 + t2));
}

proof fn lemma_literal_lowered(a: MirBuilder, b: MirBuilder, p: Place, q: Place, st: Statement, c: ConstValue)
    requires
        a.wf(),
        appended(a, b, seq![st]),
        st.kind == (StatementKind::Assign { place: q, rvalue: Rvalue::Use(Operand::Constant(c)) }),
        q.local == p.local,
        q.projection@.len() == 0,
        p.projection@.len() == 0,
        p.local.0 == a.locals@.len(),
        b.locals@.len() == a.locals@.len() + 1,
    ensures
        lowered_const(a, b, p, Some(const_view(c))),
{
    assert forall|slots: Seq<Option<VVal>>| slots.len() >= b.locals@.len() implies (#[trigger] stmts_spec(slots, seq![st]) matches Some(
        s2,
    ) && s2.len() == slots.len() && s2[p.local.0 as int] == Some(const_view(c)) && forall|j: int|
        0 <= j < a.locals@.len() ==> s2[j] == slots[j]) by {
        lemma_stmts_one(slots, st);
    }
    lemma_lowered_from_appended(a, b, seq![st], p, Some(const_view(c)));
}

proof fn lemma_unary_lowered(
    a: MirBuilder,
    b1: MirBuilder,
    b: MirBuilder,
    q: Place,
    p: Place,
    q2: Place,
    st: Statement,
    op: UnaryOp,
    v: Option<VVal>,
)
    requires
        a.wf(),
        b1.wf(),
        lowered_const(a, b1, q, v),
        appended(b1, b, seq![st]),
        st.kind == (StatementKind::Assign { place: q2, rvalue: Rvalue::UnaryOp { op, operand: Operand::Copy(q) } }),
        q2.local == p.local,
        q2.projection@.len() == 0,
        p.projection@.len() == 0,
        p.local.0 == b1.locals@.len(),
        b.locals@.len() == b1.locals@.len() + 1,
    ensures
        lowered_const(
            a,
            b,
            p,
            match v {
                Some(x) => unary_spec(op, x),
                None => None,
            },
        ),
{
    let cur = a.current_block.0 as int;
    let t1 = b1.blocks@[cur].statements@.subrange(a.blocks@[cur].statements@.len() as int, b1.blocks@[cur].statements@.len() as int);
    lemma_appended_of_lowered(a, b1, q, v);
    lemma_append_chain(a, b1, b, t1, seq![st]);
    let w = match v {
        Some(x) => unary_spec(op, x),
        None => None,
    };
    assert forall|slots: Seq<Option<VVal>>| slots.len() >= b.locals@.len() implies match w {
        Some(x) => #[trigger] stmts_spec(slots, t1 + seq![st]) matches Some(s2) && s2.len() == slots.len() && s2[p.local.0 as int]
            == Some(x) && forall|j: int| 0 <= j < a.locals@.len() ==> s2[j] == slots[j],
        None => stmts_spec(slots, t1 + seq![st]) is None,
    } by {
        lemma_stmts_concat(slots, t1, seq![st]);
        assert(stmts_spec(slots, t1) == stmts_spec(slots, t1));
        match stmts_spec(slots, t1) {
            Some(s1) => lemma_stmts_one(s1, st),
            None => {},
        }
    }
    lemma_lowered_from_appended(a, b, t1 + seq![st], p, w);
}

proof fn lemma_binary_lowered(
    a: MirBuilder,
    b1: MirBuilder,
    b2: MirBuilder,
    b: MirBuilder,
    l: Place,
    r: Place,
    p: Place,
    q2: Place,
    st: Statement,
    op: BinOp,
    vl: Option<VVal>,
    vr: Option<VVal>,
)
    requires
        a.wf(),
        b1.wf(),
        b2.wf(),
        lowered_const(a, b1, l, vl),
        lowered_const(b1, b2, r, vr),
        appended(b2, b, seq![st]),
        st.kind == (StatementKind::Assign {
            place: q2,
            rvalue: Rvalue::BinaryOp { op, left: Operand::Copy(l), right: Operand::Copy(r) },
        }),
        q2.local == p.local,
        q2.projection@.len() == 0,
        p.projection@.len() == 0,
        p.local.0 == b2.locals@.len(),
        b.locals@.len() == b2.locals@.len() + 1,
    ensures
        lowered_const(
            a,
            b,
            p,
            match (vl, vr) {
                (Some(x), Some(y)) => binary_spec(op, x, y),
                _ => None,
            },
        ),
{
    let cur = a.current_block.0 as int;
    let t1 = b1.blocks@[cur].statements@.subrange(a.blocks@[cur].statements@.len() as int, b1.blocks@[cur].statements@.len() as int);
    let t2 = b2.blocks@[cur].statements@.subrange(b1.blocks@[cur].statements@.len() as int, b2.blocks@[cur].statements@.len() as int);
    lemma_appended_of_lowered(a, b1, l, vl);
    lemma_appended_of_lowered(b1, b2, r, vr);
    lemma_append_chain(a, b1, b2, t1, t2);
    lemma_append_chain(a, b2, b, t1 + t2, seq![st]);
    let w = match (vl, vr) {
        (Some(x), Some(y)) => binary_spec(op, x, y),
        _ => None,
    };
    assert forall|slots: Seq<Option<VVal>>| slots.len() >= b.locals@.len() implies match w {
        Some(x) => #[trigger] stmts_spec(slots, (t1 + t2) + seq![st]) matches Some(s3) && s3.len() == slots.len()
            && s3[p.local.0 as int] == Some(x) && forall|j: int| 0 <= j < a.locals@.len() ==> s3[j] == slots[j],
        None => stmts_spec(slots, (t1 + t2) + seq![st]) is None,
    } by {
        lemma_stmts_concat(slots, t1 + t2, seq![st]);
        lemma_stmts_concat(slots, t1, t2);
        assert(stmts_spec(slots, t1) == stmts_spec(slots, t1));
        match stmts_spec(slots, t1) {
            Some(s1) => {
                assert(stmts_spec(s1, t2) == stmts_spec(s1, t2));
                match stmts_spec(s1, t2) {
                    Some(s2) => lemma_stmts_one(s2, st),
                    None => {},
                }
            },
            None => {},
        }
    }
    lemma_lowered_from_appended(a, b, (t1 + t2) + seq![st], p, w);
}

// ---- what lowering a call on a constant builds -------------------------------

/// The call that expression `e` of `es` is, where it calls a definition
/// on one constant expression: the definition and the argument.
pub open spec fn const_call(es: Seq<HirExpr>, e: int) -> Option<(DefId, int)> {
    if 0 <= e < es.len() {
        match es[e].kind {
            HirExprKind::Call { def, args, .. } => if args@.len() == 1 && args@[0].0 < e && const_expr(
                es,
                args@[0].0 as int,
            ) {
                Some((def, args@[0].0 as int))
            } else {
                None
            },
            _ => None,
        }
    } else {
        None
    }
}

/// The call that statement `sid` of `b` is, where it is an expression
/// statement calling a definition on one constant expression.
pub open spec fn stmt_const_call(b: HirBody, sid: int) -> Option<(DefId, int)> {
    if 0 <= sid < b.stmts_data@.len() {
        match b.stmts_data@[sid].kind {
            HirStmtKind::Expr(e) => const_call(b.exprs@, e.0 as int),
            _ => None,
        }
    } else {
        None
    }
}

/// Terminator `t` calls `d` on one place, which statements `ss` fill with
/// `v` (from any slots with room for `hi` locals, keeping those below
/// `lo`), keeps the result in a local below `hi` and goes on to block
/// `next`.
pub open spec fn calls_after(t: TerminatorKind, ss: Seq<Statement>, d: DefId, next: nat, lo: nat, hi: nat, v: Option<VVal>) -> bool {
    match t {
        TerminatorKind::Call { func: FnOperand::Def(dd), args, destination: Some(dst), target, .. } => {
            &&& dd == d
            &&& target.0 == next
            &&& dst.projection@.len() == 0
            &&& dst.local.0 < hi
            &&& args@.len() == 1
            &&& match args@[0] {
                OperandPlace::Place(q) => q.projection@.len() == 0 && q.local.0 < hi && computes(ss, q.local.0 as int, lo, hi, v),
                _ => false,
            }
        },
        _ => false,
    }
}

/// The definition that expression `e` of `es` calls, where it is a call
/// without arguments.
pub open spec fn call_no_args(es: Seq<HirExpr>, e: int) -> Option<DefId> {
    if 0 <= e < es.len() {
        match es[e].kind {
            HirExprKind::Call { def, args, .. } => if args@.len() == 0 {
                Some(def)
            } else {
                None
            },
            _ => None,
        }
    } else {
        None
    }
}

/// What lowering a call of `d` without arguments does to the builder: the
/// current block keeps its statements and ends in the call, whose result
/// goes to a new local and which goes on to a new empty block, now
/// current; the other blocks are as they were.
pub open spec fn call_lowered_no_args(a: MirBuilder, b: MirBuilder, d: DefId, p: Place) -> bool {
    let cur = a.current_block.0 as int;
    let n = a.blocks@.len();
    &&& b.blocks@.len() == n + 1
    &&& b.current_block.0 == n
    &&& b.blocks@[n as int].statements@.len() == 0
    &&& forall|i: int| 0 <= i < n && i != cur ==> #[trigger] b.blocks@[i] == a.blocks@[i]
    &&& b.blocks@[cur].statements == a.blocks@[cur].statements
    &&& b.locals@.len() == a.locals@.len() + 1
    &&& match b.blocks@[cur].terminator.kind {
        TerminatorKind::Call { func: FnOperand::Def(dd), args, destination: Some(dst), target, unwind } => {
            &&& dd == d
            &&& args@.len() == 0
            &&& target.0 == n
            &&& unwind is None
            &&& dst.local == p.local
            &&& p.projection@.len() == 0
            &&& dst.projection@.len() == 0
            &&& dst.local.0 == a.locals@.len()
        },
        _ => false,
    }
}

/// What lowering a call of `d` on a constant of value `v` does to the
/// builder: the current block gets statements that compute `v` and ends in
/// the call, which goes on to a new empty block, now current; the other
/// blocks are as they were.
pub open spec fn call_lowered(a: MirBuilder, b: MirBuilder, d: DefId, v: Option<VVal>) -> bool {
    let cur = a.current_block.0 as int;
    let n = a.blocks@.len();
    let s0 = a.blocks@[cur].statements@;
    let s1 = b.blocks@[cur].statements@;
    &&& b.blocks@.len() == n + 1
    &&& b.current_block.0 == n
    &&& b.blocks@[n as int].statements@.len() == 0
    &&& forall|i: int| 0 <= i < n && i != cur ==> #[trigger] b.blocks@[i] == a.blocks@[i]
    &&& s0.len() <= s1.len()
    &&& s1.subrange(0, s0.len() as int) == s0
    &&& calls_after(b.blocks@[cur].terminator.kind, s1.subrange(s0.len() as int, s1.len() as int), d, n, a.locals@.len(), b.locals@.len(), v)
}

proof fn lemma_calls_after_mono(t: TerminatorKind, ss: Seq<Statement>, d: DefId, next: nat, lo: nat, hi: nat, hi2: nat, v: Option<VVal>)
    requires
        calls_after(t, ss, d, next, lo, hi, v),
        hi <= hi2,
    ensures
        calls_after(t, ss, d, next, 0, hi2, v),
{
    match t {
        TerminatorKind::Call { args, .. } => match args@[0] {
            OperandPlace::Place(q) => lemma_computes_mono(ss, q.local.0 as int, lo, 0, hi, hi2, v),
            _ => {},
        },
        _ => {},
    }
}

/// Every statement of `b` but the last calls a definition on one constant
/// expression, and the last returns a constant expression.
pub open spec fn calls_then_return(b: HirBody) -> bool {
    &&& b.stmts@.len() >= 1
    &&& forall|i: int| 0 <= i < b.stmts@.len() - 1 ==> stmt_const_call(b, #[trigger] b.stmts@[i].0 as int) is Some
    &&& stmt_const_return(b, b.stmts@.last().0 as int) is Some
}

/// The definitions that the calls of `b` call, each with the value of its
/// argument.
pub open spec fn call_values(b: HirBody) -> Seq<(DefId, Option<VVal>)> {
    Seq::new(
        (b.stmts@.len() - 1) as nat,
        |i: int|
            {
                let call = stmt_const_call(b, b.stmts@[i].0 as int).unwrap();
                (call.0, const_value(b.exprs@, call.1))
            },
    )
}

/// The value that the last statement of `b` returns.
pub open spec fn return_value(b: HirBody) -> Option<VVal> {
    const_value(b.exprs@, stmt_const_return(b, b.stmts@.last().0 as int).unwrap())
}

/// The arguments of calls.
pub open spec fn call_args(calls: Seq<(DefId, Option<VVal>)>) -> Seq<Option<VVal>> {
    Seq::new(calls.len(), |i: int| calls[i].1)
}

/// A run that prints each of `vs` in turn, trapping at the first that is
/// no value, and then returns `ret` (or traps where it is no value).
pub open spec fn printing_run(vs: Seq<Option<VVal>>, ret: Option<VVal>, out: Seq<Seq<char>>) -> (Ending, Seq<Seq<char>>)
    decreases vs.len(),
{
    if vs.len() == 0 {
        (
            match ret {
                Some(v) => Ending::Returned(v),
                None => Ending::Trapped,
            },
            out,
        )
    } else {
        match vs[0] {
            Some(x) => printing_run(vs.drop_first(), ret, out.push(print_text(x))),
            None => (Ending::Trapped, out),
        }
    }
}

/// Every run of `m` with more fuel than it makes calls, in a crate that
/// defines none of the definitions called (each call is then the builtin
/// `print`), prints the arguments in turn and returns `ret`.
pub open spec fn runs_printing(m: MirBody, calls: Seq<(DefId, Option<VVal>)>, ret: Option<VVal>) -> bool {
    forall|c: MirCrate, fuel: nat, out: Seq<Seq<char>>|
        fuel > calls.len() && (forall|j: int| 0 <= j < calls.len() ==> def_lookup(c.defs(), #[trigger] calls[j].0) is None)
            ==> #[trigger] run_body(c, m, Seq::empty(), fuel, out) == printing_run(call_args(calls), ret, out)
}

/// Blocks `0..calls.len()` of `m` each compute the argument of a call and
/// end in it, going on to the next block; the block after them computes
/// `ret` into the return place and returns.
pub open spec fn print_chain(m: MirBody, calls: Seq<(DefId, Option<VVal>)>, ret: Option<VVal>) -> bool {
    let k = calls.len();
    &&& m.blocks@.len() == k + 1
    &&& m.locals@.len() >= 1
    &&& forall|j: int|
        0 <= j < k ==> calls_after(
            #[trigger] m.blocks@[j].terminator.kind,
            m.blocks@[j].statements@,
            calls[j].0,
            (j + 1) as nat,
            0,
            m.locals@.len(),
            calls[j].1,
        )
    &&& m.blocks@[k as int].terminator.kind == TerminatorKind::Return
    &&& computes(m.blocks@[k as int].statements@, 0, 0, m.locals@.len(), ret)
}

proof fn lemma_chain_run(
    c: MirCrate,
    m: MirBody,
    calls: Seq<(DefId, Option<VVal>)>,
    ret: Option<VVal>,
    j: nat,
    slots: Seq<Option<VVal>>,
    fuel: nat,
    out: Seq<Seq<char>>,
)
    requires
        print_chain(m, calls, ret),
        j <= calls.len(),
        slots.len() == m.locals@.len(),
        fuel > calls.len() - j,
        forall|i: int| 0 <= i < calls.len() ==> def_lookup(c.defs(), #[trigger] calls[i].0) is None,
    ensures
        crate::mir::interp::run_from(c, m, slots, j, fuel, out) == printing_run(
            call_args(calls).subrange(j as int, calls.len() as int),
            ret,
            out,
        ),
    decreases calls.len() - j,
{
    let k = calls.len();
    let vs = call_args(calls).subrange(j as int, k as int);
    let bb = m.blocks@[j as int];
    if j == k {
        assert(vs.len() == 0);
        assert(stmts_spec(slots, bb.statements@) == stmts_spec(slots, bb.statements@));
        match ret {
            Some(x) => {
                let s2 = stmts_spec(slots, bb.statements@)->0;
                assert(crate::mir::memory::slot_value(s2, 0) == x);
                assert(crate::mir::memory::frame_get(s2, 0, Seq::empty()) == x);
            },
            None => {},
        }
    } else {
        assert(calls_after(bb.terminator.kind, bb.statements@, calls[j as int].0, j + 1, 0, m.locals@.len(), calls[j as int].1));
        assert(vs[0] == calls[j as int].1);
        assert(vs.drop_first() =~= call_args(calls).subrange(j + 1 as int, k as int));
        assert(stmts_spec(slots, bb.statements@) == stmts_spec(slots, bb.statements@));
        match bb.terminator.kind {
            TerminatorKind::Call { func, args, destination, target, .. } => {
                match args@[0] {
                    OperandPlace::Place(q) => {
                        match calls[j as int].1 {
                            Some(x) => {
                                let s2 = stmts_spec(slots, bb.statements@)->0;
                                assert(crate::mir::memory::slot_value(s2, q.local.0 as int) == x);
                                assert(crate::mir::memory::frame_get(s2, q.local.0 as int, q.projection@) == x);
                                let line = print_text(x);
                                assert(crate::mir::interp::call_spec(c, func, args@, s2, (fuel - 1) as nat, out) == (
                                    crate::mir::interp::CallEnding::Value(Some(VVal::Unit)),
                                    out.push(line),
                                ));
                                let dst = destination.unwrap();
                                let s3 = crate::mir::memory::frame_set(s2, dst.local.0 as int, dst.projection@, VVal::Unit);
                                assert(s3.len() == slots.len());
                                lemma_chain_run(c, m, calls, ret, j + 1, s3, (fuel - 1) as nat, out.push(line));
                            },
                            None => {},
                        }
                    },
                    _ => {},
                }
            },
            _ => {},
        }
    }
}

proof fn lemma_computes_mono(ss: Seq<Statement>, local: int, lo: nat, lo2: nat, hi: nat, hi2: nat, v: Option<VVal>)
    requires
        computes(ss, local, lo, hi, v),
        lo2 <= lo,
        hi <= hi2,
    ensures
        computes(ss, local, lo2, hi2, v),
{
    assert forall|slots: Seq<Option<VVal>>| slots.len() >= hi2 implies match v {
        Some(x) => #[trigger] stmts_spec(slots, ss) matches Some(s2) && s2.len() == slots.len() && s2[local] == Some(x)
            && forall|j: int| 0 <= j < lo2 ==> s2[j] == slots[j],
        None => stmts_spec(slots, ss) is None,
    } by {
        assert(slots.len() >= hi);
    }
}

/// The local that holds the value of HIR expression `e` once it is
/// lowered, `n` locals having been declared by then: its own local for a
/// local, the return local for a conditional, and otherwise the local
/// declared last.
pub open spec fn result_local(es: Seq<HirExpr>, e: int, n: int) -> LocalId {
    match es[e].kind {
        HirExprKind::Local(l) => l,
        HirExprKind::If { .. } => LocalId(0),
        _ => LocalId((n - 1) as u32),
    }
}

/// Where the block ids of `b` fit: from `a` to `b` only the current block
/// of `a` and new blocks changed, and the current block is that of `a` or
/// a new one.
pub open spec fn keeps_other_blocks(a: MirBuilder, b: MirBuilder) -> bool {
    &&& a.blocks@.len() <= b.blocks@.len()
    &&& b.blocks@.len() <= u32::MAX ==> {
        &&& forall|i: int| 0 <= i < a.blocks@.len() && i != a.current_block.0 ==> #[trigger] b.blocks@[i] == a.blocks@[i]
        &&& b.current_block == a.current_block || b.current_block.0 >= a.blocks@.len()
    }
}

proof fn lemma_keeps_trans(a: MirBuilder, b: MirBuilder, c: MirBuilder)
    requires
        keeps_other_blocks(a, b),
        keeps_other_blocks(b, c),
    ensures
        keeps_other_blocks(a, c),
{
    if c.blocks@.len() <= u32::MAX {
        assert forall|i: int| 0 <= i < a.blocks@.len() && i != a.current_block.0 implies #[trigger] c.blocks@[i] == a.blocks@[i] by {
            assert(b.blocks@[i] == a.blocks@[i]);
            assert(c.blocks@[i] == b.blocks@[i]);
        }
    }
}

/// The kind of the last statement of the current block of `b`.
pub open spec fn last_stmt_kind(b: MirBuilder) -> StatementKind {
    b.blocks@[b.current_block.0 as int].statements@.last().kind
}

/// Terminator `t` calls `def` on copies of the locals that hold the values
/// of `args`, in order, the `j`-th being the `result_local` of its
/// argument at count `ns[j]`, puts the result in `p` and goes on to block
/// `next`.
pub open spec fn call_on(t: TerminatorKind, def: DefId, next: int, p: Place, es: Seq<HirExpr>, args: Seq<HirExprId>, ns: Seq<int>) -> bool {
    match t {
        TerminatorKind::Call { func: FnOperand::Def(dd), args: ma, destination: Some(dst), target, unwind } => {
            &&& dd == def
            &&& target.0 == next
            &&& unwind is None
            &&& dst.local == p.local && dst.projection@.len() == 0
            &&& ma@.len() == args.len() && ns.len() == args.len()
            &&& forall|j: int| 0 <= j < ma@.len() ==> (#[trigger] ma@[j] matches OperandPlace::Place(q) && q.projection@.len() == 0
                && q.local == result_local(es, args[j].0 as int, ns[j]))
        },
        _ => false,
    }
}

/// The counts `ns` do not decrease and lie in `lo ..= hi`.
pub open spec fn counts_between(ns: Seq<int>, lo: int, hi: int) -> bool {
    &&& forall|j: int| 0 <= j < ns.len() ==> lo <= #[trigger] ns[j] <= hi
    &&& forall|i: int, j: int| 0 <= i <= j < ns.len() ==> #[trigger] ns[i] <= #[trigger] ns[j]
}

/// Terminator `t` branches on the value of HIR expression `c`, held in the
/// `result_local` of `c` at count `n`: to block `tb` on 1, to block `eb`
/// otherwise.
pub open spec fn switch_on(t: TerminatorKind, es: Seq<HirExpr>, c: int, n: int, tb: int, eb: int) -> bool {
    &&& t matches TerminatorKind::SwitchInt { discr: OperandPlace::Place(q), targets, otherwise }
    &&& q.projection@.len() == 0 && q.local == result_local(es, c, n)
    &&& targets@.len() == 1 && targets@[0].0 == 1 && targets@[0].1.0 == tb
    &&& otherwise.0 == eb
}

/// Block `bb` ends a branch whose value is HIR expression `e`: its last
/// statement copies the `result_local` of `e` at count `n` to the return
/// local, and it goes on to block `merge`.
pub open spec fn branch_ends(bb: BasicBlock, es: Seq<HirExpr>, e: int, n: int, merge: BlockId) -> bool {
    &&& bb.statements@.len() > 0
    &&& bb.statements@.last().kind matches StatementKind::Assign { place, rvalue: Rvalue::Use(Operand::Copy(q)) }
    &&& place.local.0 == 0 && place.projection@.len() == 0
    &&& q.projection@.len() == 0 && q.local == result_local(es, e, n)
    &&& bb.terminator.kind == (TerminatorKind::Goto { target: merge })
}

/// Where the locals of `b` fit, what lowering HIR expression `e` from `a`
/// to `b` ends in:
/// - a unary or binary operation: the current block assigns to `p` the
///   operation on copies of the locals that hold the operands' values, in
///   order: each operand's value is in its `result_local` at a count of
///   locals between those of `a` and `b`, the left operand's count not
///   above the right one's;
/// - a call (where the block ids fit): a block ends in a call of the
///   definition on copies of the locals that hold the arguments' values, in
///   order, with the result in `p`, going on to the last block, now
///   current;
/// - a conditional (where the block ids fit): the current block is the
///   third of three new blocks and is still empty; a block branches on the
///   test's value to the first (on 1) or the second; the then-branch ends
///   in the first or in a block after the current one, the else-branch in
///   the second or in a block after that; each end block copies its
///   branch's value to the return local and goes on to the current block.
pub open spec fn operation_lowered(a: MirBuilder, b: MirBuilder, es: Seq<HirExpr>, e: int, p: Place) -> bool {
    b.locals@.len() <= u32::MAX ==> match es[e].kind {
        HirExprKind::Unary { op, operand } => {
            &&& last_stmt_kind(b) matches StatementKind::Assign {
                place,
                rvalue: Rvalue::UnaryOp { op: mop, operand: Operand::Copy(q) },
            }
            &&& place.local == p.local && place.projection@.len() == 0
            &&& mop == unop_spec(op)
            &&& q.projection@.len() == 0
            &&& exists|n: int| a.locals@.len() <= n < b.locals@.len() && q.local == #[trigger] result_local(es, operand.0 as int, n)
        },
        HirExprKind::Binary { op, left, right } => {
            &&& last_stmt_kind(b) matches StatementKind::Assign {
                place,
                rvalue: Rvalue::BinaryOp { op: mop, left: Operand::Copy(ql), right: Operand::Copy(qr) },
            }
            &&& place.local == p.local && place.projection@.len() == 0
            &&& mop == lower_binop_spec(op)
            &&& ql.projection@.len() == 0 && qr.projection@.len() == 0
            &&& exists|n1: int, n2: int| a.locals@.len() <= n1 <= n2 < b.locals@.len() && ql.local == #[trigger] result_local(es, left.0 as int, n1)
                && qr.local == #[trigger] result_local(es, right.0 as int, n2)
        },
        HirExprKind::Call { def, args, .. } => b.blocks@.len() <= u32::MAX ==> {
            &&& b.current_block.0 == b.blocks@.len() - 1
            &&& exists|k: int, ns: Seq<int>| 0 <= k < b.blocks@.len() - 1 && #[trigger] call_on(
                b.blocks@[k].terminator.kind,
                def,
                b.blocks@.len() - 1,
                p,
                es,
                args@,
                ns,
            ) && counts_between(ns, a.locals@.len() as int, b.locals@.len() - 1)
        },
        HirExprKind::If { cond, then, else_branch } => b.blocks@.len() <= u32::MAX ==> {
            let merge = b.current_block.0 as int;
            &&& a.blocks@.len() + 2 <= merge
            &&& exists|k: int, n: int| 0 <= k < b.blocks@.len() && a.locals@.len() <= n <= b.locals@.len() && #[trigger] switch_on(
                b.blocks@[k].terminator.kind,
                es,
                cond.0 as int,
                n,
                merge - 2,
                merge - 1,
            )
            &&& exists|kt: int, ke: int, nt: int, ne: int|
                0 <= kt < b.blocks@.len() && 0 <= ke < b.blocks@.len() && (kt == merge - 2 || kt > merge) && (ke == merge - 1
                    || ke > kt) && a.locals@.len() <= nt <= ne <= b.locals@.len()
                    && #[trigger] branch_ends(b.blocks@[kt], es, then.0 as int, nt, b.current_block) && #[trigger] branch_ends(
                    b.blocks@[ke],
                    es,
                    else_branch.0 as int,
                    ne,
                    b.current_block,
                )
            &&& b.blocks@[b.current_block.0 as int].statements@.len() == 0
        },
        _ => true,
    }
}

/// Lowers an expression; the returned place holds its value.
#[verifier::rlimit(60)]
fn lower_expr(builder: &mut MirBuilder, body: &HirBody, id: HirExprId, span: Span) -> (p: Place)
    requires
        old(builder).wf(),
        hir_wf(*body),
        id.0 < body.exprs@.len(),
    ensures
        final(builder).wf(),
        grows(&*old(builder), &*final(builder)),
        p.projection@.len() == 0,
        const_expr(body.exprs@, id.0 as int) && final(builder).locals@.len() <= u32::MAX ==> lowered_const(
            *old(builder),
            *final(builder),
            p,
            const_value(body.exprs@, id.0 as int),
        ),
        const_call(body.exprs@, id.0 as int) matches Some(call) ==> (final(builder).locals@.len() <= u32::MAX
            && final(builder).blocks@.len() <= u32::MAX ==> call_lowered(
            *old(builder),
            *final(builder),
            call.0,
            const_value(body.exprs@, call.1),
        )),
        call_no_args(body.exprs@, id.0 as int) matches Some(d) ==> (final(builder).locals@.len() <= u32::MAX
            && final(builder).blocks@.len() <= u32::MAX ==> call_lowered_no_args(*old(builder), *final(builder), d, p)),
        body.exprs@[id.0 as int].kind matches HirExprKind::Local(l) ==> p.local == l && *final(builder) == *old(builder),
        final(builder).locals@.len() <= u32::MAX ==> p.local == result_local(body.exprs@, id.0 as int, final(builder).locals@.len() as int),
        operation_lowered(*old(builder), *final(builder), body.exprs@, id.0 as int, p),
        keeps_other_blocks(*old(builder), *final(builder)),
    decreases id.0, 1nat,
{
    let expr = &body.exprs[id.index()];
    assert(children_below(expr.kind, id.0 as int));
    let ghost b0 = *builder;
    match &expr.kind {
        HirExprKind::Literal(c) => {
            let local = builder.alloc_local(expr.ty, Mutability::Imm, span);
            let mc = hir_const_to_mir(c);
            let pl = Place::local(local);
            let ghost gpl = pl;
            let ghost b1 = *builder;
            builder.assign_const(pl, mc, span);
            let p = Place::local(local);
            proof {
                let st = Statement {
                    kind: StatementKind::Assign { place: gpl, rvalue: Rvalue::Use(Operand::Constant(mc)) },
                    span,
                };
                if builder.locals@.len() <= u32::MAX {
                    let cur = b0.current_block.0 as int;
                    assert(builder.blocks@[cur].statements@ =~= b0.blocks@[cur].statements@ + seq![st]);
                    lemma_const_view(*c, mc);
                    lemma_literal_lowered(b0, *builder, p, gpl, st, mc);
                }
            }
            p
        },
        HirExprKind::Local(local) => Place::local(*local),
        HirExprKind::Path { def, .. } => {
            let local = builder.alloc_local(expr.ty, Mutability::Imm, span);
            let next = builder.new_block(span);
            builder.terminate(
                TerminatorKind::Call {
                    func: FnOperand::Def(*def),
                    args: Vec::new(),
                    destination: Some(Place::local(local)),
                    target: next,
                    unwind: None,
                },
                span,
            );
            builder.switch_to(next);
            Place::local(local)
        },
        HirExprKind::Unary { op, operand } => {
            let op_place = lower_expr(builder, body, *operand, span);
            let ghost b1 = *builder;
            assert(keeps_other_blocks(b0, b1));
            let ghost gq = op_place;
            let local = builder.alloc_local(expr.ty, Mutability::Imm, span);
            let mop = hir_unary_to_mir(*op);
            let pl = Place::local(local);
            let ghost gpl = pl;
            let ghost b2 = *builder;
            builder.assign_rvalue(pl, Rvalue::UnaryOp { op: mop, operand: Operand::Copy(op_place) }, span);
            let p = Place::local(local);
            proof {
                if const_expr(body.exprs@, id.0 as int) && builder.locals@.len() <= u32::MAX {
                    let st = Statement {
                        kind: StatementKind::Assign {
                            place: gpl,
                            rvalue: Rvalue::UnaryOp { op: mop, operand: Operand::Copy(gq) },
                        },
                        span,
                    };
                    let cur = b0.current_block.0 as int;
                    assert(builder.blocks@[cur].statements@ =~= b1.blocks@[cur].statements@ + seq![st]);
                    lemma_unary_lowered(b0, b1, *builder, gq, p, gpl, st, mop, const_value(body.exprs@, operand.0 as int));
                }
                if builder.locals@.len() <= u32::MAX {
                    assert(last_stmt_kind(*builder) == StatementKind::Assign {
                        place: gpl,
                        rvalue: Rvalue::UnaryOp { op: mop, operand: Operand::Copy(gq) },
                    });
                    assert(gq.local == result_local(body.exprs@, operand.0 as int, b1.locals@.len() as int));
                }
                assert(keeps_other_blocks(b1, *builder));
                lemma_keeps_trans(b0, b1, *builder);
            }
            p
        },
        HirExprKind::Binary { op, left, right } => {
            let l = lower_expr(builder, body, *left, span);
            let ghost b1 = *builder;
            let r = lower_expr(builder, body, *right, span);
            let ghost b2 = *builder;
            let ghost gl = l;
            let ghost gr = r;
            let local = builder.alloc_local(expr.ty, Mutability::Imm, span);
            let mop = lower_binop(*op);
            let pl = Place::local(local);
            let ghost gpl = pl;
            let ghost b3 = *builder;
            builder.assign_rvalue(pl, Rvalue::BinaryOp { op: mop, left: Operand::Copy(l), right: Operand::Copy(r) }, span);
            let p = Place::local(local);
            proof {
                if const_expr(body.exprs@, id.0 as int) && builder.locals@.len() <= u32::MAX {
                    let st = Statement {
                        kind: StatementKind::Assign {
                            place: gpl,
                            rvalue: Rvalue::BinaryOp { op: mop, left: Operand::Copy(gl), right: Operand::Copy(gr) },
                        },
                        span,
                    };
                    let cur = b0.current_block.0 as int;
                    assert(builder.blocks@[cur].statements@ =~= b2.blocks@[cur].statements@ + seq![st]);
                    lemma_binary_lowered(
                        b0,
                        b1,
                        b2,
                        *builder,
                        gl,
                        gr,
                        p,
                        gpl,
                        st,
                        mop,
                        const_value(body.exprs@, left.0 as int),
                        const_value(body.exprs@, right.0 as int),
                    );
                }
                if builder.locals@.len() <= u32::MAX {
                    assert(last_stmt_kind(*builder) == StatementKind::Assign {
                        place: gpl,
                        rvalue: Rvalue::BinaryOp { op: mop, left: Operand::Copy(gl), right: Operand::Copy(gr) },
                    });
                    assert(gl.local == result_local(body.exprs@, left.0 as int, b1.locals@.len() as int));
                    assert(gr.local == result_local(body.exprs@, right.0 as int, b2.locals@.len() as int));
                }
                assert(keeps_other_blocks(b2, *builder));
                lemma_keeps_trans(b0, b1, b2);
                lemma_keeps_trans(b0, b2, *builder);
            }
            p
        },
        HirExprKind::Call { def, args, .. } => {
            let ghost call = const_call(body.exprs@, id.0 as int);
            let ghost mut ns: Seq<int> = Seq::empty();
            let mut mir_args: Vec<OperandPlace> = Vec::new();
            let mut i: usize = 0;
            while i < args.len()
                invariant
                    builder.wf(),
                    grows(&*old(builder), &*builder),
                    hir_wf(*body),
                    forall|j: int| 0 <= j < args@.len() ==> (#[trigger] args@[j]).0 < id.0,
                    id.0 < body.exprs@.len(),
                    i <= args@.len(),
                    mir_args@.len() == i,
                    b0 == *old(builder),
                    i == 0 ==> *builder == b0,
                    call == const_call(body.exprs@, id.0 as int),
                    body.exprs@[id.0 as int].kind == expr.kind,
                    expr.kind matches HirExprKind::Call { args: aa, .. } && aa == args,
                    call matches Some(cl) ==> (i == 1 ==> (mir_args@[0] matches OperandPlace::Place(q) && (
                    builder.locals@.len() <= u32::MAX ==> lowered_const(b0, *builder, q, const_value(body.exprs@, cl.1))))),
                    ns.len() == i,
                    counts_between(ns, b0.locals@.len() as int, builder.locals@.len() as int),
                    keeps_other_blocks(b0, *builder),
                    forall|j: int| 0 <= j < i ==> (#[trigger] mir_args@[j] matches OperandPlace::Place(q) && q.projection@.len() == 0
                        && (builder.locals@.len() <= u32::MAX ==> q.local == result_local(body.exprs@, args@[j].0 as int, ns[j]))),
                decreases args@.len() - i,
            {
                assert(args@[i as int].0 < id.0);
                let ghost bq = *builder;
                let p = lower_expr(builder, body, args[i], span);
                proof {
                    lemma_keeps_trans(b0, bq, *builder);
                }
                let ghost old_args = mir_args@;
                mir_args.push(OperandPlace::Place(p));
                proof {
                    ns = ns.push(builder.locals@.len() as int);
                    assert(mir_args@ == old_args.push(OperandPlace::Place(p)));
                }
                i = i + 1;
            }
            let ghost b1 = *builder;
            let dest = builder.alloc_local(expr.ty, Mutability::Imm, span);
            let next = builder.new_block(span);
            let ghost b3 = *builder;
            let ghost gargs = mir_args;
            let dplace = Place::local(dest);
            let ghost gd = dplace;
            builder.terminate(
                TerminatorKind::Call {
                    func: FnOperand::Def(*def),
                    args: mir_args,
                    destination: Some(dplace),
                    target: next,
                    unwind: None,
                },
                span,
            );
            builder.switch_to(next);
            proof {
                if call is Some && builder.locals@.len() <= u32::MAX && builder.blocks@.len() <= u32::MAX {
                    let cl = call.unwrap();
                    let v = const_value(body.exprs@, cl.1);
                    let cur = b0.current_block.0 as int;
                    let q = match gargs@[0] {
                        OperandPlace::Place(q) => q,
                        _ => arbitrary(),
                    };
                    assert(lowered_const(b0, b1, q, v));
                    let s0 = b0.blocks@[cur].statements@;
                    let s1 = builder.blocks@[cur].statements@;
                    assert(b3.blocks@[cur] == b1.blocks@[cur]);
                    assert(s1 == b1.blocks@[cur].statements@);
                    lemma_computes_mono(
                        s1.subrange(s0.len() as int, s1.len() as int),
                        q.local.0 as int,
                        b0.locals@.len(),
                        b0.locals@.len(),
                        b1.locals@.len(),
                        builder.locals@.len(),
                        v,
                    );
                    assert forall|k: int| 0 <= k < b0.blocks@.len() && k != cur implies #[trigger] builder.blocks@[k] == b0.blocks@[k] by {
                        assert(b1.blocks@[k] == b0.blocks@[k]);
                        assert(b3.blocks@[k] == b1.blocks@[k]);
                    }
                    assert(call_lowered(b0, *builder, cl.0, v));
                }
                if call_no_args(body.exprs@, id.0 as int) is Some && builder.locals@.len() <= u32::MAX
                    && builder.blocks@.len() <= u32::MAX {
                    let cur = b0.current_block.0 as int;
                    assert(b1 == b0);
                    assert forall|k: int| 0 <= k < b0.blocks@.len() && k != cur implies #[trigger] builder.blocks@[k] == b0.blocks@[k] by {
                        assert(b3.blocks@[k] == b1.blocks@[k]);
                    }
                    assert(b3.blocks@[cur] == b1.blocks@[cur]);
                }
            }
            let p = Place::local(dest);
            proof {
                assert forall|k: int| 0 <= k < b1.blocks@.len() && k != b1.current_block.0 implies #[trigger] builder.blocks@[k] == b1.blocks@[k] by {
                    assert(b3.blocks@[k] == b1.blocks@[k]);
                }
                assert(keeps_other_blocks(b1, *builder));
                lemma_keeps_trans(b0, b1, *builder);
                if builder.locals@.len() <= u32::MAX && builder.blocks@.len() <= u32::MAX {
                    let k = b1.current_block.0 as int;
                    assert(builder.blocks@[k].terminator.kind == TerminatorKind::Call {
                        func: FnOperand::Def(*def),
                        args: gargs,
                        destination: Some(gd),
                        target: next,
                        unwind: None,
                    });
                    assert(call_on(builder.blocks@[k].terminator.kind, *def, builder.blocks@.len() - 1, p, body.exprs@, args@, ns));
                }
                if call_no_args(body.exprs@, id.0 as int) is Some && builder.locals@.len() <= u32::MAX
                    && builder.blocks@.len() <= u32::MAX {
                    assert(call_lowered_no_args(b0, *builder, call_no_args(body.exprs@, id.0 as int).unwrap(), p));
                }
            }
            p
        },
        HirExprKind::If { cond, then, else_branch } => lower_if(builder, body, id, *cond, *then, *else_branch, span),
        _ => {
            let local = builder.alloc_local(expr.ty, Mutability::Imm, span);
            builder.assign_const(Place::local(local), ConstValue::Unit, span);
            Place::local(local)
        },
    }
}

/// Lowers a conditional: the current block branches on the test's value;
/// each branch copies its value to the return local and goes on to a new
/// block, which becomes current.
#[verifier::rlimit(60)]
fn lower_if(
    builder: &mut MirBuilder,
    body: &HirBody,
    id: HirExprId,
    cond: HirExprId,
    then: HirExprId,
    else_branch: HirExprId,
    span: Span,
) -> (p: Place)
    requires
        old(builder).wf(),
        hir_wf(*body),
        id.0 < body.exprs@.len(),
        body.exprs@[id.0 as int].kind == (HirExprKind::If { cond, then, else_branch }),
    ensures
        final(builder).wf(),
        grows(&*old(builder), &*final(builder)),
        p.local.0 == 0,
        p.projection@.len() == 0,
        operation_lowered(*old(builder), *final(builder), body.exprs@, id.0 as int, p),
        keeps_other_blocks(*old(builder), *final(builder)),
    decreases id.0, 0nat,
{
    let ghost b0 = *builder;
    assert(children_below(body.exprs@[id.0 as int].kind, id.0 as int));
    let c = lower_expr(builder, body, cond, span);
    let ghost b1 = *builder;
    let then_bb = builder.new_block(span);
    let else_bb = builder.new_block(span);
    let merge = builder.new_block(span);
    let ghost bm = *builder;
    let mut targets: Vec<(u128, BlockId)> = Vec::new();
    targets.push((1u128, then_bb));
    let ghost gt = targets;
    builder.terminate(TerminatorKind::SwitchInt { discr: OperandPlace::Place(c), targets, otherwise: else_bb }, span);
    let ghost b2 = *builder;
    builder.switch_to(then_bb);
    let ghost b3 = *builder;
    let t = lower_expr(builder, body, then, span);
    let ghost b4 = *builder;
    let ret1 = Place::return_place();
    let ghost gr1 = ret1;
    builder.assign_use(ret1, Operand::Copy(t), span);
    builder.terminate(TerminatorKind::Goto { target: merge }, span);
    let ghost b5 = *builder;
    builder.switch_to(else_bb);
    let ghost b6 = *builder;
    let e = lower_expr(builder, body, else_branch, span);
    let ghost b7 = *builder;
    let ret2 = Place::return_place();
    let ghost gr2 = ret2;
    builder.assign_use(ret2, Operand::Copy(e), span);
    builder.terminate(TerminatorKind::Goto { target: merge }, span);
    let ghost b8 = *builder;
    builder.switch_to(merge);
    let p = Place::return_place();
    proof {
        if builder.blocks@.len() <= u32::MAX && builder.locals@.len() <= u32::MAX {
            let k = b1.current_block.0 as int;
            let kt = b4.current_block.0 as int;
            let ke = b7.current_block.0 as int;
            let l1 = b1.blocks@.len() as int;
            assert(then_bb.0 == l1 && else_bb.0 == l1 + 1 && merge.0 == l1 + 2);
            assert(kt == then_bb.0 || kt >= l1 + 3);
            assert(ke == else_bb.0 || ke >= b6.blocks@.len());
            assert(b5.blocks@.len() == b6.blocks@.len());
            assert(kt < b5.blocks@.len());
            // the branching block
            assert(b2.blocks@[k].terminator.kind == TerminatorKind::SwitchInt { discr: OperandPlace::Place(c), targets: gt, otherwise: else_bb });
            assert(b3.blocks@[k] == b2.blocks@[k]);
            assert(b4.blocks@[k] == b3.blocks@[k]);
            assert(b5.blocks@[k] == b4.blocks@[k]);
            assert(b7.blocks@[k] == b6.blocks@[k]);
            assert(b8.blocks@[k] == b7.blocks@[k]);
            assert(builder.blocks@[k] == b2.blocks@[k]);
            assert(gt@ == seq![(1u128, then_bb)]);
            assert(switch_on(builder.blocks@[k].terminator.kind, body.exprs@, cond.0 as int, b1.locals@.len() as int, l1, l1 + 1));
            // the then-branch
            assert(b5.blocks@[kt].statements@.last().kind == StatementKind::Assign { place: gr1, rvalue: Rvalue::Use(Operand::Copy(t)) });
            assert(branch_ends(b5.blocks@[kt], body.exprs@, then.0 as int, b4.locals@.len() as int, merge));
            assert(b7.blocks@[kt] == b6.blocks@[kt]);
            assert(b8.blocks@[kt] == b7.blocks@[kt]);
            assert(builder.blocks@[kt] == b5.blocks@[kt]);
            // the else-branch
            assert(b8.blocks@[ke].statements@.last().kind == StatementKind::Assign { place: gr2, rvalue: Rvalue::Use(Operand::Copy(e)) });
            assert(branch_ends(builder.blocks@[ke], body.exprs@, else_branch.0 as int, b7.locals@.len() as int, merge));
            // the merge block
            assert(bm.blocks@[merge.0 as int].statements@.len() == 0);
            assert(b4.blocks@[merge.0 as int] == b3.blocks@[merge.0 as int]);
            assert(b7.blocks@[merge.0 as int] == b6.blocks@[merge.0 as int]);
            assert(builder.blocks@[merge.0 as int].statements@.len() == 0);
            assert(builder.current_block == merge);
            assert(b0.locals@.len() <= b1.locals@.len() <= b4.locals@.len() <= b7.locals@.len() <= builder.locals@.len());
            assert(kt != ke);
            assert(ke < builder.blocks@.len() && kt < builder.blocks@.len() && k < builder.blocks@.len());
            let mg = builder.current_block.0 as int;
            assert(mg - 2 == l1 && mg - 1 == l1 + 1);
            assert(switch_on(builder.blocks@[k].terminator.kind, body.exprs@, cond.0 as int, b1.locals@.len() as int, mg - 2, mg - 1));
            assert(exists|k: int, n: int| 0 <= k < builder.blocks@.len() && b0.locals@.len() <= n <= builder.locals@.len()
                && #[trigger] switch_on(builder.blocks@[k].terminator.kind, body.exprs@, cond.0 as int, n, mg - 2, mg - 1));
            assert(branch_ends(builder.blocks@[kt], body.exprs@, then.0 as int, b4.locals@.len() as int, builder.current_block));
            assert(branch_ends(builder.blocks@[ke], body.exprs@, else_branch.0 as int, b7.locals@.len() as int, builder.current_block));
            let nt = b4.locals@.len() as int;
            let ne = b7.locals@.len() as int;
            assert(0 <= kt < builder.blocks@.len() && 0 <= ke < builder.blocks@.len() && (kt == mg - 2 || kt > mg) && (ke == mg - 1
                || ke > kt) && b0.locals@.len() <= nt <= ne
                <= builder.locals@.len() && branch_ends(builder.blocks@[kt], body.exprs@, then.0 as int, nt, builder.current_block)
                && branch_ends(builder.blocks@[ke], body.exprs@, else_branch.0 as int, ne, builder.current_block));
            assert(operation_lowered(b0, *builder, body.exprs@, id.0 as int, p));
        }
    }
    proof {
        if builder.blocks@.len() <= u32::MAX {
            let kt = b4.current_block.0 as int;
            let ke = b7.current_block.0 as int;
            let l1 = b1.blocks@.len() as int;
            assert(then_bb.0 == l1 && else_bb.0 == l1 + 1 && merge.0 == l1 + 2);
            assert(kt == then_bb.0 || kt >= l1 + 3);
            assert(ke == else_bb.0 || ke >= b6.blocks@.len());
            assert forall|i: int| 0 <= i < b0.blocks@.len() && i != b0.current_block.0 implies #[trigger] builder.blocks@[i] == b0.blocks@[i] by {
                assert(b1.blocks@[i] == b0.blocks@[i]);
                assert(bm.blocks@[i] == b1.blocks@[i]);
                assert(b2.blocks@[i] == bm.blocks@[i]);
                assert(b4.blocks@[i] == b3.blocks@[i]);
                assert(b5.blocks@[i] == b4.blocks@[i]);
                assert(b7.blocks@[i] == b6.blocks@[i]);
                assert(b8.blocks@[i] == b7.blocks@[i]);
            }
        }
    }
    p
}

/// Lowers an rvalue; aggregates, references, lengths and discriminants
/// become the unit constant.
fn lower_rvalue(builder: &mut MirBuilder, body: &HirBody, rv: &HirRvalue, span: Span) -> (r: Rvalue)
    ensures
        *final(builder) == *old(builder),
        assigned_as(*rv, r),
{
    match rv {
        HirRvalue::Use(op) => Rvalue::Use(lower_operand(op)),
        HirRvalue::UnaryOp { op, operand } => Rvalue::UnaryOp { op: hir_unary_to_mir(*op), operand: lower_operand(operand) },
        HirRvalue::BinaryOp { op, left, right } => Rvalue::BinaryOp {
            op: lower_binop(*op),
            left: lower_operand(left),
            right: lower_operand(right),
        },
        _ => Rvalue::Use(Operand::Constant(ConstValue::Unit)),
    }
}

/// Lowers an operand; a move becomes a copy.
fn lower_operand(op: &HirOperand) -> (r: Operand)
    ensures
        match *op {
            HirOperand::Copy(p) => r matches Operand::Copy(q) && q.local == p.local && q.projection@.len() == 0,
            HirOperand::Move(p) => r matches Operand::Copy(q) && q.local == p.local && q.projection@.len() == 0,
            HirOperand::Constant(_) => r is Constant,
        },
{
    match op {
        HirOperand::Copy(p) => Operand::Copy(lower_place(p)),
        HirOperand::Move(p) => Operand::Copy(lower_place(p)),
        HirOperand::Constant(c) => Operand::Constant(hir_const_to_mir(c)),
    }
}

/// The MIR place of a HIR place: its local, without projections.
pub fn lower_place(p: &HirPlace) -> (r: Place)
    ensures
        r.local == p.local,
        r.projection@.len() == 0,
{
    Place { local: p.local, projection: Vec::new() }
}

/// The place holding an expression's value.
fn expr_local(_body: &HirBody, place: Place) -> (r: Place)
    ensures
        r == place,
{
    place
}

pub open spec fn lower_binop_spec(op: HirBinOp) -> BinOp {
    crate::mir_build::builder::spec_binop(op)
}

/// The MIR operator of a HIR binary operator.
pub fn lower_binop(op: HirBinOp) -> (r: BinOp)
    ensures
        r == lower_binop_spec(op),
{
    hir_binary_to_mir(op)
}

} // verus!
