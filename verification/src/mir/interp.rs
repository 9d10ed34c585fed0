//! The MIR interpreter.
//!
//! Its meaning is given by [`run_body`]: a run with a budget of steps that
//! ends with the returned value, with the budget spent, or with a trap where
//! the program divides by zero, overflows an `i64` or reaches an
//! unreachable block. The builtin `print` appends a line to the output.

use vstd::prelude::*;

use crate::ids::{BlockId, DefId, LocalId, MirFuncId};
use crate::mir::body::{def_lookup, func_lookup, BasicBlock, MirBody, MirCrate};
use crate::mir::memory::{frame_get, frame_set, Frame};
use crate::mir::operand::{ConstValue, FnOperand, Operand};
use crate::mir::ops::{binary_op, binary_spec, unary_op, unary_spec};
use crate::mir::place::Place;
use crate::mir::rvalue::{AggregateKind, Rvalue};
use crate::mir::statement::{Statement, StatementKind};
use crate::mir::terminator::{OperandPlace, TerminatorKind};
use crate::mir::value::{value_view, values_view, vv_discriminant, VVal, Value};
use crate::text::{debug_str_text, dec, dec_int, push_dec, push_debug_str, push_int, push_str};
use vstd::utf8::encode_utf8;

verus! {

// ---- the meaning of one step ---------------------------------------------

/// The value a constant denotes.
pub open spec fn const_view(c: ConstValue) -> VVal {
    match c {
        ConstValue::Int(n) => VVal::Int(n),
        ConstValue::Bool(b) => VVal::Bool(b),
        ConstValue::Float(s) => VVal::Float(s@),
        ConstValue::Str(s) => VVal::Str(s@),
        ConstValue::Unit => VVal::Unit,
        ConstValue::ZeroSized => VVal::Unit,
    }
}

/// The value of an operand in the slots.
pub open spec fn operand_spec(slots: Seq<Option<VVal>>, op: Operand) -> VVal {
    match op {
        Operand::Copy(p) => frame_get(slots, p.local.0 as int, p.projection@),
        Operand::Move(p) => frame_get(slots, p.local.0 as int, p.projection@),
        Operand::Constant(c) => const_view(c),
    }
}

/// The value of a terminator operand in the slots.
pub open spec fn operand_place_spec(slots: Seq<Option<VVal>>, op: OperandPlace) -> VVal {
    match op {
        OperandPlace::Place(p) => frame_get(slots, p.local.0 as int, p.projection@),
        OperandPlace::ConstInt(n) => VVal::Int(n),
        OperandPlace::ConstBool(b) => VVal::Bool(b),
        OperandPlace::ConstStr(s) => VVal::Str(s@),
    }
}

/// The values of operands, in order.
pub open spec fn operands_spec(slots: Seq<Option<VVal>>, ops: Seq<Operand>) -> Seq<VVal> {
    Seq::new(ops.len(), |i: int| operand_spec(slots, ops[i]))
}

/// The values of terminator operands, in order.
pub open spec fn operand_places_spec(slots: Seq<Option<VVal>>, ops: Seq<OperandPlace>) -> Seq<VVal> {
    Seq::new(ops.len(), |i: int| operand_place_spec(slots, ops[i]))
}

/// The length `len` reports: the number of components of a tuple, the
/// number of UTF-8 bytes of a string, 0 otherwise.
pub open spec fn len_spec(v: VVal) -> i64 {
    match v {
        VVal::Tuple(xs) => xs.len() as i64,
        VVal::Str(s) => (encode_utf8(s).len() as usize) as i64,
        _ => 0,
    }
}

/// The value of an rvalue; `None` where it traps.
pub open spec fn rvalue_spec(slots: Seq<Option<VVal>>, rv: Rvalue) -> Option<VVal> {
    match rv {
        Rvalue::Use(op) => Some(operand_spec(slots, op)),
        Rvalue::UnaryOp { op, operand } => unary_spec(op, operand_spec(slots, operand)),
        Rvalue::BinaryOp { op, left, right } => binary_spec(op, operand_spec(slots, left), operand_spec(slots, right)),
        Rvalue::Aggregate { kind, ops } => {
            let vals = operands_spec(slots, ops@);
            Some(
                match kind {
                    AggregateKind::Tuple => VVal::Tuple(vals),
                    AggregateKind::Struct(def) => VVal::Struct { def, fields: vals },
                    AggregateKind::Enum(def, variant) => VVal::Enum {
                        def,
                        variant,
                        payload: if vals.len() > 0 { Some(Box::new(vals[0])) } else { None },
                    },
                    AggregateKind::Array(_) => VVal::Tuple(vals),
                },
            )
        },
        Rvalue::Ref { place, .. } => Some(frame_get(slots, place.local.0 as int, place.projection@)),
        Rvalue::Len(p) => Some(VVal::Int(len_spec(frame_get(slots, p.local.0 as int, p.projection@)))),
        Rvalue::Discriminant(p) => Some(
            VVal::Int(vv_discriminant(frame_get(slots, p.local.0 as int, p.projection@)) as i64),
        ),
        Rvalue::Cast { operand, .. } => Some(operand_spec(slots, operand)),
    }
}

/// The slots after a statement; `None` where it traps. Only assignments
/// change the slots.
pub open spec fn stmt_spec(slots: Seq<Option<VVal>>, s: Statement) -> Option<Seq<Option<VVal>>> {
    match s.kind {
        StatementKind::Assign { place, rvalue } => match rvalue_spec(slots, rvalue) {
            Some(v) => Some(frame_set(slots, place.local.0 as int, place.projection@, v)),
            None => None,
        },
        _ => Some(slots),
    }
}

/// The slots after statements in order; `None` where one traps.
pub open spec fn stmts_spec(slots: Seq<Option<VVal>>, ss: Seq<Statement>) -> Option<Seq<Option<VVal>>>
    decreases ss.len(),
{
    if ss.len() == 0 {
        Some(slots)
    } else {
        match stmts_spec(slots, ss.drop_last()) {
            Some(s) => stmt_spec(s, ss.last()),
            None => None,
        }
    }
}

/// The block a `switchInt` goes to: the first target whose value is `d`,
/// else `otherwise`.
pub open spec fn switch_target(targets: Seq<(u128, BlockId)>, d: u128, otherwise: BlockId) -> BlockId
    decreases targets.len(),
{
    if targets.len() == 0 {
        otherwise
    } else if targets[0].0 == d {
        targets[0].1
    } else {
        switch_target(targets.drop_first(), d, otherwise)
    }
}

// ---- the builtin `print` -----------------------------------------------------

/// The text `{:?}` gives for a value.
pub open spec fn debug_text(v: VVal) -> Seq<char>
    decreases v,
{
    match v {
        VVal::Unit => "Unit"@,
        VVal::Bool(b) => "Bool("@ + (if b { "true"@ } else { "false"@ }) + ")"@,
        VVal::Int(n) => "Int("@ + dec_int(n as int) + ")"@,
        VVal::Float(s) => "Float("@ + s + ")"@,
        VVal::Str(s) => "String("@ + debug_str_text(s) + ")"@,
        VVal::Tuple(xs) => "Tuple(["@ + debug_list(xs) + "])"@,
        VVal::Struct { def, fields } => "Struct { def: DefId("@ + dec(def.0 as nat) + "), fields: ["@
            + debug_list(fields) + "] }"@,
        VVal::Enum { def, variant, payload } => "Enum { def: DefId("@ + dec(def.0 as nat) + "), variant: "@
            + dec(variant as nat) + ", payload: "@ + match payload {
            Some(p) => "Some("@ + debug_text(*p) + ")"@,
            None => "None"@,
        } + " }"@,
    }
}

/// The texts `{:?}` gives for values, separated by `, `.
pub open spec fn debug_list(xs: Seq<VVal>) -> Seq<char>
    decreases xs,
{
    if xs.len() == 0 {
        Seq::empty()
    } else if xs.len() == 1 {
        debug_text(xs[0])
    } else {
        debug_list(xs.subrange(0, xs.len() - 1)) + ", "@ + debug_text(xs[xs.len() - 1])
    }
}

/// The line `print` writes for a value: strings, integers and booleans as
/// themselves, the unit value as an empty line, others as `{:?}` gives.
pub open spec fn print_text(v: VVal) -> Seq<char> {
    match v {
        VVal::Str(s) => s,
        VVal::Int(n) => dec_int(n as int),
        VVal::Bool(b) => if b { "true"@ } else { "false"@ },
        VVal::Unit => Seq::empty(),
        _ => debug_text(v),
    }
}

// ---- well-formed bodies ---------------------------------------------------------

/// Every block a terminator can go to exists, and every place a statement
/// or a call writes is a local of the body.
pub open spec fn body_wf(body: MirBody) -> bool {
    let nb = body.blocks@.len();
    let nl = body.locals@.len();
    &&& nb > 0
    &&& 1 <= nl <= u32::MAX
    &&& forall|b: int| 0 <= b < nb ==> stmts_write_locals(#[trigger] body.blocks@[b].statements@, nl)
    &&& forall|b: int| 0 <= b < nb ==> term_wf(#[trigger] body.blocks@[b], nb, nl)
}

/// Every place the statements assign is a local.
pub open spec fn stmts_write_locals(ss: Seq<Statement>, nl: nat) -> bool {
    forall|j: int| 0 <= j < ss.len() ==> stmt_writes_local(#[trigger] ss[j], nl)
}

pub open spec fn stmt_writes_local(s: Statement, nl: nat) -> bool {
    match s.kind {
        StatementKind::Assign { place, .. } => place.local.0 < nl,
        _ => true,
    }
}

/// The targets of the block's terminator exist and its destination is a
/// local.
pub open spec fn term_wf(bb: BasicBlock, nb: nat, nl: nat) -> bool {
    match bb.terminator.kind {
        TerminatorKind::Goto { target } => target.0 < nb,
        TerminatorKind::SwitchInt { targets, otherwise, .. } => otherwise.0 < nb && forall|i: int|
            0 <= i < targets@.len() ==> (#[trigger] targets@[i]).1 .0 < nb,
        TerminatorKind::Drop { target, .. } => target.0 < nb,
        TerminatorKind::Call { destination, target, .. } => target.0 < nb && match destination {
            Some(d) => d.local.0 < nl,
            None => true,
        },
        _ => true,
    }
}

/// Every call of a definition with a body names an existing function that
/// has a local for each argument.
pub open spec fn calls_wf(c: MirCrate, body: MirBody) -> bool {
    forall|b: int| 0 <= b < body.blocks@.len() ==> call_wf(c, #[trigger] body.blocks@[b])
}

pub open spec fn call_wf(c: MirCrate, bb: BasicBlock) -> bool {
    match bb.terminator.kind {
        TerminatorKind::Call { func: FnOperand::Def(d), args, .. } => match def_lookup(c.defs(), d) {
            Some(f) => match func_lookup(c.funcs(), f) {
                Some(callee) => args@.len() + 1 <= callee.locals@.len(),
                None => false,
            },
            None => true,
        },
        _ => true,
    }
}

/// Every function of the crate is well formed.
pub open spec fn crate_wf(c: MirCrate) -> bool {
    forall|i: int| 0 <= i < c.funcs().len() ==> body_wf(#[trigger] c.funcs()[i].1) && calls_wf(c, c.funcs()[i].1)
}

// ---- the meaning of a run -------------------------------------------------------

/// How a run ends.
pub enum Ending {
    Returned(VVal),
    OutOfFuel,
    Trapped,
}

/// How a call ends: with a value (none where nothing was called), or not.
pub enum CallEnding {
    Value(Option<VVal>),
    OutOfFuel,
    Trapped,
}

/// The slots of a fresh activation: argument `i` in local `i + 1`.
pub open spec fn init_slots(n: nat, args: Seq<VVal>) -> Seq<Option<VVal>> {
    Seq::new(n, |j: int| if 1 <= j < args.len() + 1 { Some(args[j - 1]) } else { None })
}

/// A run of `body` on `args` with `fuel` steps, after output `out`: how it
/// ends and the output then.
pub open spec fn run_body(c: MirCrate, body: MirBody, args: Seq<VVal>, fuel: nat, out: Seq<Seq<char>>) -> (Ending, Seq<Seq<char>>)
    decreases fuel, 2nat,
{
    run_from(c, body, init_slots(body.locals@.len(), args), 0, fuel, out)
}

/// A run from the start of `block`.
pub open spec fn run_from(c: MirCrate, body: MirBody, slots: Seq<Option<VVal>>, block: nat, fuel: nat, out: Seq<Seq<char>>) -> (Ending, Seq<Seq<char>>)
    decreases fuel, 1nat,
{
    if fuel == 0 {
        (Ending::OutOfFuel, out)
    } else if block >= body.blocks@.len() {
        (Ending::Trapped, out)
    } else {
        let bb = body.blocks@[block as int];
        match stmts_spec(slots, bb.statements@) {
            None => (Ending::Trapped, out),
            Some(s2) => run_terminator(c, body, s2, bb.terminator.kind, fuel, out),
        }
    }
}

/// A run from the terminator of a block, with `fuel` left for the block.
pub open spec fn run_terminator(c: MirCrate, body: MirBody, s2: Seq<Option<VVal>>, term: TerminatorKind, fuel: nat, out: Seq<Seq<char>>) -> (Ending, Seq<Seq<char>>)
    decreases fuel, 0nat,
{
    if fuel == 0 {
        (Ending::OutOfFuel, out)
    } else {
        match term {
            TerminatorKind::Goto { target } => run_from(c, body, s2, target.0 as nat, (fuel - 1) as nat, out),
            TerminatorKind::SwitchInt { discr, targets, otherwise } => run_from(
                c,
                body,
                s2,
                switch_target(targets@, vv_discriminant(operand_place_spec(s2, discr)), otherwise).0 as nat,
                (fuel - 1) as nat,
                out,
            ),
            TerminatorKind::Return => (Ending::Returned(frame_get(s2, 0, Seq::empty())), out),
            TerminatorKind::Unreachable => (Ending::Trapped, out),
            TerminatorKind::Drop { target, .. } => run_from(c, body, s2, target.0 as nat, (fuel - 1) as nat, out),
            TerminatorKind::Call { func, args, destination, target, .. } => {
                let (e, out2) = call_spec(c, func, args@, s2, (fuel - 1) as nat, out);
                match e {
                    CallEnding::Value(Some(v)) => {
                        let s3 = match destination {
                            Some(d) => frame_set(s2, d.local.0 as int, d.projection@, v),
                            None => s2,
                        };
                        run_from(c, body, s3, target.0 as nat, (fuel - 1) as nat, out2)
                    },
                    CallEnding::Value(None) => run_from(c, body, s2, target.0 as nat, (fuel - 1) as nat, out2),
                    CallEnding::OutOfFuel => (Ending::OutOfFuel, out2),
                    CallEnding::Trapped => (Ending::Trapped, out2),
                }
            },
        }
    }
}

/// A call: a definition with a body runs it; any other definition is the
/// builtin `print` of its first argument; a call through a place calls
/// nothing.
pub open spec fn call_spec(c: MirCrate, func: FnOperand, args: Seq<OperandPlace>, slots: Seq<Option<VVal>>, fuel: nat, out: Seq<Seq<char>>) -> (CallEnding, Seq<Seq<char>>)
    decreases fuel, 3nat,
{
    match func {
        FnOperand::Place(_) => (CallEnding::Value(None), out),
        FnOperand::Def(d) => match def_lookup(c.defs(), d) {
            Some(f) => match func_lookup(c.funcs(), f) {
                Some(callee) => {
                    let (e, out2) = run_body(c, callee, operand_places_spec(slots, args), fuel, out);
                    match e {
                        Ending::Returned(v) => (CallEnding::Value(Some(v)), out2),
                        Ending::OutOfFuel => (CallEnding::OutOfFuel, out2),
                        Ending::Trapped => (CallEnding::Trapped, out2),
                    }
                },
                None => (CallEnding::Trapped, out),
            },
            None => {
                let line = if args.len() > 0 { print_text(operand_place_spec(slots, args[0])) } else { Seq::empty() };
                (CallEnding::Value(Some(VVal::Unit)), out.push(line))
            },
        },
    }
}

// ---- the interpreter ----------------------------------------------------------

/// How an interpreted run ended.
#[derive(Debug)]
pub enum Outcome {
    Returned(Value),
    OutOfFuel,
    Trapped,
}

pub open spec fn outcome_view(o: Outcome) -> Ending {
    match o {
        Outcome::Returned(v) => Ending::Returned(value_view(v)),
        Outcome::OutOfFuel => Ending::OutOfFuel,
        Outcome::Trapped => Ending::Trapped,
    }
}

/// The lines of an output.
pub open spec fn lines_view(out: Seq<String>) -> Seq<Seq<char>> {
    Seq::new(out.len(), |i: int| out[i]@)
}

enum CallResult {
    Value(Option<Value>),
    OutOfFuel,
    Trapped,
}

spec fn call_result_view(r: CallResult) -> CallEnding {
    match r {
        CallResult::Value(Some(v)) => CallEnding::Value(Some(value_view(v))),
        CallResult::Value(None) => CallEnding::Value(None),
        CallResult::OutOfFuel => CallEnding::OutOfFuel,
        CallResult::Trapped => CallEnding::Trapped,
    }
}

fn eval_operand(frame: &Frame, op: &Operand) -> (v: Value)
    ensures
        value_view(v) == operand_spec(frame.model(), *op),
{
    match op {
        Operand::Copy(p) => frame.get(p),
        Operand::Move(p) => frame.get(p),
        Operand::Constant(c) => match c {
            ConstValue::Int(n) => Value::Int(*n),
            ConstValue::Bool(b) => Value::Bool(*b),
            ConstValue::Float(f) => Value::Float(f.clone()),
            ConstValue::Str(s) => Value::String(s.clone()),
            ConstValue::Unit => Value::Unit,
            ConstValue::ZeroSized => Value::Unit,
        },
    }
}

fn eval_operand_place(frame: &Frame, op: &OperandPlace) -> (v: Value)
    ensures
        value_view(v) == operand_place_spec(frame.model(), *op),
{
    match op {
        OperandPlace::Place(p) => frame.get(p),
        OperandPlace::ConstInt(n) => Value::Int(*n),
        OperandPlace::ConstBool(b) => Value::Bool(*b),
        OperandPlace::ConstStr(s) => Value::String(s.clone()),
    }
}

fn eval_operands(frame: &Frame, ops: &Vec<Operand>) -> (vals: Vec<Value>)
    ensures
        values_view(vals@) == operands_spec(frame.model(), ops@),
{
    let mut vals: Vec<Value> = Vec::new();
    let mut i: usize = 0;
    while i < ops.len()
        invariant
            i <= ops@.len(),
            vals@.len() == i,
            forall|j: int| 0 <= j < i ==> value_view(#[trigger] vals@[j]) == operand_spec(frame.model(), ops@[j]),
        decreases ops@.len() - i,
    {
        vals.push(eval_operand(frame, &ops[i]));
        i = i + 1;
    }
    assert(values_view(vals@) =~= operands_spec(frame.model(), ops@));
    vals
}

fn eval_operand_places(frame: &Frame, ops: &Vec<OperandPlace>) -> (vals: Vec<Value>)
    ensures
        values_view(vals@) == operand_places_spec(frame.model(), ops@),
{
    let mut vals: Vec<Value> = Vec::new();
    let mut i: usize = 0;
    while i < ops.len()
        invariant
            i <= ops@.len(),
            vals@.len() == i,
            forall|j: int| 0 <= j < i ==> value_view(#[trigger] vals@[j]) == operand_place_spec(frame.model(), ops@[j]),
        decreases ops@.len() - i,
    {
        vals.push(eval_operand_place(frame, &ops[i]));
        i = i + 1;
    }
    assert(values_view(vals@) =~= operand_places_spec(frame.model(), ops@));
    vals
}

fn eval_rvalue(frame: &Frame, rv: &Rvalue) -> (r: Option<Value>)
    ensures
        match rvalue_spec(frame.model(), *rv) {
            Some(x) => r matches Some(v) && value_view(v) == x,
            None => r is None,
        },
{
    match rv {
        Rvalue::Use(op) => Some(eval_operand(frame, op)),
        Rvalue::UnaryOp { op, operand } => unary_op(*op, eval_operand(frame, operand)),
        Rvalue::BinaryOp { op, left, right } => binary_op(*op, eval_operand(frame, left), eval_operand(frame, right)),
        Rvalue::Aggregate { kind, ops } => {
            let vals = eval_operands(frame, ops);
            match kind {
                AggregateKind::Tuple => Some(Value::Tuple(vals)),
                AggregateKind::Struct(def) => Some(Value::Struct { def: *def, fields: vals }),
                AggregateKind::Enum(def, variant) => {
                    let mut vals = vals;
                    let ghost vv = values_view(vals@);
                    let payload = if vals.len() > 0 {
                        let first = vals.swap_remove(0);
                        assert(value_view(first) == vv[0]);
                        Some(Box::new(first))
                    } else {
                        None
                    };
                    let r = Value::Enum { def: *def, variant: *variant, payload };
                    assert(value_view(r) == VVal::Enum {
                        def: *def,
                        variant: *variant,
                        payload: if vv.len() > 0 { Some(Box::new(vv[0])) } else { None },
                    });
                    Some(r)
                },
                AggregateKind::Array(_) => Some(Value::Tuple(vals)),
            }
        },
        Rvalue::Ref { place, .. } => Some(frame.get(place)),
        Rvalue::Len(p) => {
            let v = frame.get(p);
            let n: i64 = match &v {
                Value::Tuple(xs) => {
                    assert(values_view(xs@).len() == xs@.len());
                    xs.len() as i64
                },
                Value::String(s) => s.as_str().len() as i64,
                _ => 0,
            };
            assert(n == len_spec(value_view(v)));
            Some(Value::Int(n))
        },
        Rvalue::Discriminant(p) => {
            let d = frame.get(p).discriminant_u128();
            Some(Value::Int(d as i64))
        },
        Rvalue::Cast { operand, .. } => Some(eval_operand(frame, operand)),
    }
}

proof fn lemma_stmts_trap_stays(slots: Seq<Option<VVal>>, ss: Seq<Statement>, i: int)
    requires
        0 <= i <= ss.len(),
        stmts_spec(slots, ss.take(i)) is None,
    ensures
        stmts_spec(slots, ss) is None,
    decreases ss.len() - i,
{
    if i < ss.len() {
        assert(ss.take(i + 1).drop_last() =~= ss.take(i));
        lemma_stmts_trap_stays(slots, ss, i + 1);
    } else {
        assert(ss.take(i) =~= ss);
    }
}

/// Runs the statements of a block; `false` where one traps.
fn eval_statements(frame: &mut Frame, stmts: &Vec<Statement>) -> (ok: bool)
    requires
        stmts_write_locals(stmts@, old(frame).slots@.len()),
    ensures
        final(frame).slots@.len() == old(frame).slots@.len(),
        ok ==> stmts_spec(old(frame).model(), stmts@) == Some(final(frame).model()),
        !ok ==> stmts_spec(old(frame).model(), stmts@) is None,
{
    let ghost m0 = frame.model();
    let mut i: usize = 0;
    assert(stmts@.take(0) =~= Seq::<Statement>::empty());
    while i < stmts.len()
        invariant
            i <= stmts@.len(),
            m0 == old(frame).model(),
            frame.slots@.len() == old(frame).slots@.len(),
            stmts_spec(m0, stmts@.take(i as int)) == Some(frame.model()),
            stmts_write_locals(stmts@, old(frame).slots@.len()),
        decreases stmts@.len() - i,
    {
        assert(stmts@.take(i + 1).drop_last() =~= stmts@.take(i as int));
        assert(stmts@.take(i + 1).last() == stmts@[i as int]);
        assert(stmt_writes_local(stmts@[i as int], old(frame).slots@.len()));
        match &stmts[i].kind {
            StatementKind::Assign { place, rvalue } => {
                match eval_rvalue(frame, rvalue) {
                    Some(v) => frame.set(place, v),
                    None => {
                        proof {
                            assert(stmt_spec(frame.model(), stmts@[i as int]) is None);
                            assert(stmts_spec(m0, stmts@.take(i + 1)) is None);
                            lemma_stmts_trap_stays(m0, stmts@, i + 1);
                        }
                        return false;
                    },
                }
            },
            _ => {},
        }
        i = i + 1;
    }
    assert(stmts@.take(stmts@.len() as int) =~= stmts@);
    true
}

fn switch_block(targets: &Vec<(u128, BlockId)>, d: u128, otherwise: BlockId) -> (b: BlockId)
    ensures
        b == switch_target(targets@, d, otherwise),
{
    let mut i: usize = 0;
    assert(targets@.subrange(0, targets@.len() as int) =~= targets@);
    while i < targets.len()
        invariant
            i <= targets@.len(),
            switch_target(targets@.subrange(i as int, targets@.len() as int), d, otherwise) == switch_target(
                targets@,
                d,
                otherwise,
            ),
        decreases targets@.len() - i,
    {
        assert(targets@.subrange(i as int, targets@.len() as int).drop_first() =~= targets@.subrange(
            i + 1,
            targets@.len() as int,
        ));
        if targets[i].0 == d {
            return targets[i].1;
        }
        i = i + 1;
    }
    assert(targets@.subrange(i as int, targets@.len() as int) =~= Seq::<(u128, BlockId)>::empty());
    otherwise
}

fn push_debug_value(out: &mut String, v: &Value)
    ensures
        final(out)@ == old(out)@ + debug_text(value_view(*v)),
    decreases v,
{
    match v {
        Value::Unit => push_str(out, "Unit"),
        Value::Bool(b) => {
            push_str(out, "Bool(");
            push_str(out, if *b { "true" } else { "false" });
            push_str(out, ")");
        },
        Value::Int(n) => {
            push_str(out, "Int(");
            push_int(out, *n);
            push_str(out, ")");
        },
        Value::Float(s) => {
            push_str(out, "Float(");
            push_str(out, s.as_str());
            push_str(out, ")");
        },
        Value::String(s) => {
            push_str(out, "String(");
            push_debug_str(out, s.as_str());
            push_str(out, ")");
        },
        Value::Tuple(xs) => {
            push_str(out, "Tuple([");
            push_debug_list(out, xs);
            push_str(out, "])");
        },
        Value::Struct { def, fields } => {
            push_str(out, "Struct { def: DefId(");
            push_dec(out, def.0 as u128);
            push_str(out, "), fields: [");
            push_debug_list(out, fields);
            push_str(out, "] }");
        },
        Value::Enum { def, variant, payload } => {
            push_str(out, "Enum { def: DefId(");
            push_dec(out, def.0 as u128);
            push_str(out, "), variant: ");
            push_dec(out, *variant as u128);
            push_str(out, ", payload: ");
            match payload {
                Some(p) => {
                    push_str(out, "Some(");
                    push_debug_value(out, &**p);
                    push_str(out, ")");
                },
                None => push_str(out, "None"),
            }
            push_str(out, " }");
        },
    }
    assert(final(out)@ =~= old(out)@ + debug_text(value_view(*v)));
}

fn push_debug_list(out: &mut String, xs: &Vec<Value>)
    ensures
        final(out)@ == old(out)@ + debug_list(values_view(xs@)),
    decreases xs,
{
    let ghost vs = values_view(xs@);
    let mut i: usize = 0;
    while i < xs.len()
        invariant
            i <= xs@.len(),
            vs == values_view(xs@),
            out@ == old(out)@ + debug_list(vs.subrange(0, i as int)),
        decreases xs@.len() - i,
    {
        proof {
            assert(decreases_to!(xs => xs@[i as int]));
        }
        let ghost before = out@;
        if i > 0 {
            push_str(out, ", ");
        }
        push_debug_value(out, &xs[i]);
        proof {
            let s = vs.subrange(0, i + 1);
            assert(s.subrange(0, s.len() - 1) =~= vs.subrange(0, i as int));
            assert(s[s.len() - 1] == value_view(xs@[i as int]));
            if i == 0 {
                assert(vs.subrange(0, 0) =~= Seq::<VVal>::empty());
            }
            assert(out@ =~= old(out)@ + debug_list(s));
        }
        i = i + 1;
    }
    assert(vs.subrange(0, xs@.len() as int) =~= vs);
}

/// The line `print` writes for its arguments.
fn print_line(frame: &Frame, args: &Vec<OperandPlace>) -> (line: String)
    ensures
        line@ == if args@.len() > 0 { print_text(operand_place_spec(frame.model(), args@[0])) } else { Seq::empty() },
{
    let mut line = String::new();
    if args.len() > 0 {
        let v = eval_operand_place(frame, &args[0]);
        match &v {
            Value::String(s) => push_str(&mut line, s.as_str()),
            Value::Int(n) => push_int(&mut line, *n),
            Value::Bool(b) => push_str(&mut line, if *b { "true" } else { "false" }),
            Value::Unit => {},
            _ => push_debug_value(&mut line, &v),
        }
        assert(line@ =~= print_text(value_view(v)));
    }
    line
}

proof fn lemma_lookup_wf(c: MirCrate, f: MirFuncId, s: Seq<(MirFuncId, MirBody)>)
    requires
        forall|i: int| 0 <= i < s.len() ==> body_wf(#[trigger] s[i].1) && calls_wf(c, s[i].1),
    ensures
        func_lookup(s, f) matches Some(b) ==> body_wf(b) && calls_wf(c, b),
    decreases s.len(),
{
    if s.len() > 0 && s[0].0 != f {
        assert forall|i: int| 0 <= i < s.drop_first().len() implies body_wf(#[trigger] s.drop_first()[i].1)
            && calls_wf(c, s.drop_first()[i].1) by {
            assert(s.drop_first()[i] == s[i + 1]);
        }
        lemma_lookup_wf(c, f, s.drop_first());
    }
}

fn eval_call(c: &MirCrate, func: &FnOperand, args: &Vec<OperandPlace>, frame: &Frame, fuel: u64, out: &mut Vec<String>) -> (r: CallResult)
    requires
        crate_wf(*c),
        match *func {
            FnOperand::Def(d) => match def_lookup(c.defs(), d) {
                Some(f) => match func_lookup(c.funcs(), f) {
                    Some(callee) => args@.len() + 1 <= callee.locals@.len(),
                    None => false,
                },
                None => true,
            },
            _ => true,
        },
    ensures
        (call_result_view(r), lines_view(final(out)@)) == call_spec(*c, *func, args@, frame.model(), fuel as nat, lines_view(old(out)@)),
    decreases fuel, 3nat,
{
    match func {
        FnOperand::Place(_) => CallResult::Value(None),
        FnOperand::Def(d) => match crate::mir::body::def_table_get(&c.def_to_func, *d) {
            Some(f) => match crate::mir::body::func_table_get(&c.functions, f) {
                Some(callee) => {
                    proof {
                        lemma_lookup_wf(*c, f, c.funcs());
                    }
                    let vals = eval_operand_places(frame, args);
                    match interpret_body(c, callee, vals, fuel, out) {
                        Outcome::Returned(v) => CallResult::Value(Some(v)),
                        Outcome::OutOfFuel => CallResult::OutOfFuel,
                        Outcome::Trapped => CallResult::Trapped,
                    }
                },
                None => CallResult::Trapped,
            },
            None => {
                let line = print_line(frame, args);
                out.push(line);
                assert(lines_view(out@) =~= lines_view(old(out)@).push(line@));
                CallResult::Value(Some(Value::Unit))
            },
        },
    }
}

/// Interprets `body` on `args` for at most `fuel` steps (block transitions
/// and calls each take one); `crate_` resolves calls. Lines that the
/// builtin `print` writes are appended to `out`.
#[verifier::rlimit(30)]
pub fn interpret_body(crate_: &MirCrate, body: &MirBody, args: Vec<Value>, fuel0: u64, out: &mut Vec<String>) -> (r: Outcome)
    requires
        crate_wf(*crate_),
        body_wf(*body),
        calls_wf(*crate_, *body),
        args@.len() + 1 <= body.locals@.len(),
    ensures
        (outcome_view(r), lines_view(final(out)@)) == run_body(*crate_, *body, values_view(args@), fuel0 as nat, lines_view(old(out)@)),
    decreases fuel0, 2nat,
{
    let ghost argv = values_view(args@);
    let n = body.locals.len();
    let mut frame = Frame::new(n);
    let mut i: usize = 0;
    while i < args.len()
        invariant
            i <= args@.len(),
            args@.len() + 1 <= n,
            n == body.locals@.len(),
            n <= u32::MAX,
            argv == values_view(args@),
            frame.slots@.len() == n,
            frame.model() == Seq::new(n as nat, |j: int| if 1 <= j < i + 1 { Some(argv[j - 1]) } else { None::<VVal> }),
        decreases args@.len() - i,
    {
        let l = body.arg_local(i);
        let ghost before = frame.model();
        frame.set(&Place::local(l), args[i].deep_copy());
        assert(frame.model() =~= Seq::new(n as nat, |j: int| if 1 <= j < i + 2 { Some(argv[j - 1]) } else { None::<VVal> }));
        i = i + 1;
    }
    assert(frame.model() =~= crate::mir::interp::init_slots(n as nat, argv));
    let mut block: usize = 0;
    let mut fuel = fuel0;
    loop
        invariant
            crate_wf(*crate_),
            body_wf(*body),
            calls_wf(*crate_, *body),
            frame.slots@.len() == body.locals@.len(),
            block < body.blocks@.len(),
            fuel <= fuel0,
            argv == values_view(args@),
            run_body(*crate_, *body, argv, fuel0 as nat, lines_view(old(out)@)) == run_from(
                *crate_,
                *body,
                frame.model(),
                block as nat,
                fuel as nat,
                lines_view(out@),
            ),
        decreases fuel,
    {
        if fuel == 0 {
            return Outcome::OutOfFuel;
        }
        let bb = &body.blocks[block];
        assert(term_wf(*bb, body.blocks@.len(), body.locals@.len()));
        assert(call_wf(*crate_, *bb));
        assert(stmts_write_locals(bb.statements@, body.locals@.len()));
        let ghost s1 = frame.model();
        if !eval_statements(&mut frame, &bb.statements) {
            assert(run_from(*crate_, *body, s1, block as nat, fuel as nat, lines_view(out@)) == (Ending::Trapped, lines_view(out@)));
            return Outcome::Trapped;
        }
        assert(run_from(*crate_, *body, s1, block as nat, fuel as nat, lines_view(out@)) == run_terminator(
            *crate_,
            *body,
            frame.model(),
            bb.terminator.kind,
            fuel as nat,
            lines_view(out@),
        ));
        match &bb.terminator.kind {
            TerminatorKind::Goto { target } => {
                block = target.index();
            },
            TerminatorKind::SwitchInt { discr, targets, otherwise } => {
                let d = eval_operand_place(&frame, discr).discriminant_u128();
                let t = switch_block(targets, d, *otherwise);
                proof {
                    lemma_switch_in(targets@, d, *otherwise, body.blocks@.len());
                }
                block = t.index();
            },
            TerminatorKind::Return => {
                return Outcome::Returned(frame.get(&Place::return_place()));
            },
            TerminatorKind::Unreachable => {
                return Outcome::Trapped;
            },
            TerminatorKind::Drop { target, .. } => {
                block = target.index();
            },
            TerminatorKind::Call { func, args: call_args, destination, target, .. } => {
                match eval_call(crate_, func, call_args, &frame, fuel - 1, out) {
                    CallResult::Value(Some(v)) => {
                        match destination {
                            Some(d) => frame.set(d, v),
                            None => {},
                        }
                        block = target.index();
                    },
                    CallResult::Value(None) => {
                        block = target.index();
                    },
                    CallResult::OutOfFuel => {
                        return Outcome::OutOfFuel;
                    },
                    CallResult::Trapped => {
                        return Outcome::Trapped;
                    },
                }
            },
        }
        fuel = fuel - 1;
    }
}

proof fn lemma_switch_in(targets: Seq<(u128, BlockId)>, d: u128, otherwise: BlockId, nb: nat)
    requires
        otherwise.0 < nb,
        forall|i: int| 0 <= i < targets.len() ==> (#[trigger] targets[i]).1 .0 < nb,
    ensures
        switch_target(targets, d, otherwise).0 < nb,
    decreases targets.len(),
{
    if targets.len() > 0 && targets[0].0 != d {
        assert forall|i: int| 0 <= i < targets.drop_first().len() implies (#[trigger] targets.drop_first()[i]).1 .0 < nb by {
            assert(targets.drop_first()[i] == targets[i + 1]);
        }
        lemma_switch_in(targets.drop_first(), d, otherwise, nb);
    }
}

} // verus!

verus! {

/// Every definition of the table names a function of the crate.
pub open spec fn defs_wf(c: MirCrate) -> bool {
    forall|i: int| 0 <= i < c.defs().len() ==> (#[trigger] func_lookup(c.funcs(), c.defs()[i].1)) is Some
}

/// Interprets function `func` of the crate on `args`, as
/// [`interpret_body`] does.
pub fn interpret(crate_: &MirCrate, func: MirFuncId, args: Vec<Value>, fuel: u64, out: &mut Vec<String>) -> (r: Outcome)
    requires
        crate_wf(*crate_),
        func_lookup(crate_.funcs(), func) matches Some(b) && args@.len() + 1 <= b.locals@.len(),
    ensures
        (outcome_view(r), lines_view(final(out)@)) == run_body(
            *crate_,
            func_lookup(crate_.funcs(), func).unwrap(),
            values_view(args@),
            fuel as nat,
            lines_view(old(out)@),
        ),
{
    proof {
        lemma_lookup_wf(*crate_, func, crate_.funcs());
    }
    match crate::mir::body::func_table_get(&crate_.functions, func) {
        Some(body) => interpret_body(crate_, body, args, fuel, out),
        None => vstd::pervasive::unreached(),
    }
}

/// The first function named `main`.
pub open spec fn first_main(s: Seq<(MirFuncId, MirBody)>) -> Option<MirBody>
    decreases s.len(),
{
    if s.len() == 0 {
        None
    } else if s[0].1.name@ == "main"@ {
        Some(s[0].1)
    } else {
        first_main(s.drop_first())
    }
}

/// The function a crate runs: the one of the definition of the first
/// function named `main`, else that of the first definition.
pub open spec fn entry_func(c: MirCrate) -> Result<MirFuncId, Seq<char>> {
    match first_main(c.funcs()) {
        Some(m) => match def_lookup(c.defs(), m.def_id) {
            Some(f) => Ok(f),
            None => Err("main not in def_to_func"@),
        },
        None => if c.defs().len() > 0 {
            Ok(c.defs()[0].1)
        } else {
            Err("no functions in crate"@)
        },
    }
}


proof fn lemma_def_lookup_in(s: Seq<(DefId, MirFuncId)>, d: DefId)
    ensures
        def_lookup(s, d) matches Some(f) ==> exists|i: int| 0 <= i < s.len() && #[trigger] s[i].1 == f,
    decreases s.len(),
{
    if s.len() > 0 && s[0].0 != d {
        lemma_def_lookup_in(s.drop_first(), d);
        if let Some(f) = def_lookup(s, d) {
            let i = choose|i: int| 0 <= i < s.drop_first().len() && #[trigger] s.drop_first()[i].1 == f;
            assert(s[i + 1].1 == f);
        }
    }
}

/// Runs the entry function of the crate (see [`entry_func`]) without
/// arguments for at most `fuel` steps; how the run ends is not reported.
pub fn interpret_crate(crate_: &MirCrate, fuel: u64, out: &mut Vec<String>) -> (r: Result<(), String>)
    requires
        crate_wf(*crate_),
        defs_wf(*crate_),
    ensures
        match entry_func(*crate_) {
            Ok(f) => r is Ok && lines_view(final(out)@) == run_body(
                *crate_,
                func_lookup(crate_.funcs(), f).unwrap(),
                Seq::empty(),
                fuel as nat,
                lines_view(old(out)@),
            ).1,
            Err(e) => r matches Err(m) && m@ == e && final(out)@ == old(out)@,
        },
{
    let n = crate_.function_count();
    let mut i: usize = 0;
    let mut main_def: Option<DefId> = None;
    assert(crate_.funcs().subrange(0, n as int) =~= crate_.funcs());
    while i < n
        invariant_except_break
            main_def is None,
        invariant
            i <= n,
            n == crate_.funcs().len(),
            first_main(crate_.funcs()) == first_main(crate_.funcs().subrange(i as int, n as int)),
        ensures
            match main_def {
                Some(d) => first_main(crate_.funcs()) matches Some(m) && m.def_id == d,
                None => first_main(crate_.funcs()) is None,
            },
        decreases n - i,
    {
        let f = crate_.function_at(i);
        proof {
            assert(crate_.funcs().subrange(i as int, n as int).drop_first() =~= crate_.funcs().subrange(i + 1, n as int));
            reveal_strlit("main");
        }
        if crate::text::str_eq(f.name.as_str(), "main") {
            main_def = Some(f.def_id);
            break;
        }
        i = i + 1;
        proof {
            if i == n {
                assert(crate_.funcs().subrange(n as int, n as int) =~= Seq::<(MirFuncId, MirBody)>::empty());
            }
        }
    }
    let func_id = match main_def {
        Some(def) => match crate::mir::body::def_table_get(&crate_.def_to_func, def) {
            Some(f) => f,
            None => return Err(String::from_str("main not in def_to_func")),
        },
        None => {
            match crate::mir::body::def_table_get_first(&crate_.def_to_func) {
                Some(f) => f,
                None => return Err(String::from_str("no functions in crate")),
            }
        },
    };
    proof {
        if let Ok(f) = entry_func(*crate_) {
            if let Some(m) = first_main(crate_.funcs()) {
                lemma_def_lookup_in(crate_.defs(), m.def_id);
            } else {
                assert(crate_.defs()[0].1 == f);
            }
            let k = choose|k: int| 0 <= k < crate_.defs().len() && #[trigger] crate_.defs()[k].1 == f;
            assert(func_lookup(crate_.funcs(), crate_.defs()[k].1) is Some);
            lemma_lookup_wf(*crate_, f, crate_.funcs());
        }
    }
    let no_args: Vec<Value> = Vec::new();
    assert(values_view(no_args@) =~= Seq::<VVal>::empty());
    let _ = interpret(crate_, func_id, no_args, fuel, out);
    Ok(())
}

// ---- checking what a run needs ---------------------------------------------

fn check_body_wf(body: &MirBody) -> (r: bool)
    ensures
        r == body_wf(*body),
{
    let nb = body.blocks.len();
    let nl = body.locals.len();
    if nb == 0 || nl == 0 || nl > 4294967295usize {
        return false;
    }
    let mut b: usize = 0;
    while b < nb
        invariant
            b <= nb,
            nb == body.blocks@.len(),
            nl == body.locals@.len(),
            nb > 0,
            1 <= nl <= u32::MAX,
            forall|j: int| 0 <= j < b ==> stmts_write_locals(#[trigger] body.blocks@[j].statements@, nl as nat),
            forall|j: int| 0 <= j < b ==> term_wf(#[trigger] body.blocks@[j], nb as nat, nl as nat),
        decreases nb - b,
    {
        let bb = &body.blocks[b];
        let mut k: usize = 0;
        while k < bb.statements.len()
            invariant
                k <= bb.statements@.len(),
                b < nb,
                nb == body.blocks@.len(),
                nl == body.locals@.len(),
                *bb == body.blocks@[b as int],
                nb > 0,
                1 <= nl <= u32::MAX,
                forall|j: int| 0 <= j < b ==> stmts_write_locals(#[trigger] body.blocks@[j].statements@, nl as nat),
                forall|j: int| 0 <= j < b ==> term_wf(#[trigger] body.blocks@[j], nb as nat, nl as nat),
                forall|m: int| 0 <= m < k ==> stmt_writes_local(#[trigger] bb.statements@[m], nl as nat),
            decreases bb.statements@.len() - k,
        {
            if let StatementKind::Assign { place, .. } = &bb.statements[k].kind {
                if place.local.index() >= nl {
                    assert(!stmt_writes_local(bb.statements@[k as int], nl as nat));
                    assert(!stmts_write_locals(body.blocks@[b as int].statements@, nl as nat));
                    return false;
                }
            }
            k = k + 1;
        }
        let ok = match &bb.terminator.kind {
            TerminatorKind::Goto { target } => target.index() < nb,
            TerminatorKind::SwitchInt { targets, otherwise, .. } => {
                let mut all = otherwise.index() < nb;
                let mut t: usize = 0;
                while t < targets.len()
                    invariant
                        t <= targets@.len(),
                        all == (otherwise.0 < nb && forall|m: int| 0 <= m < t ==> (#[trigger] targets@[m]).1 .0 < nb),
                    decreases targets@.len() - t,
                {
                    if targets[t].1.index() >= nb {
                        all = false;
                    }
                    t = t + 1;
                }
                all
            },
            TerminatorKind::Drop { target, .. } => target.index() < nb,
            TerminatorKind::Call { destination, target, .. } => target.index() < nb && match destination {
                Some(d) => d.local.index() < nl,
                None => true,
            },
            _ => true,
        };
        if !ok {
            assert(!term_wf(body.blocks@[b as int], nb as nat, nl as nat));
            return false;
        }
        assert(stmts_write_locals(body.blocks@[b as int].statements@, nl as nat));
        b = b + 1;
    }
    true
}

fn check_calls_wf(c: &MirCrate, body: &MirBody) -> (r: bool)
    ensures
        r == calls_wf(*c, *body),
{
    let mut b: usize = 0;
    while b < body.blocks.len()
        invariant
            b <= body.blocks@.len(),
            forall|j: int| 0 <= j < b ==> call_wf(*c, #[trigger] body.blocks@[j]),
        decreases body.blocks@.len() - b,
    {
        if let TerminatorKind::Call { func: FnOperand::Def(d), args, .. } = &body.blocks[b].terminator.kind {
            match crate::mir::body::def_table_get(&c.def_to_func, *d) {
                Some(f) => match crate::mir::body::func_table_get(&c.functions, f) {
                    Some(callee) => {
                        if args.len() >= callee.locals.len() {
                            assert(!call_wf(*c, body.blocks@[b as int]));
                            return false;
                        }
                    },
                    None => {
                        assert(!call_wf(*c, body.blocks@[b as int]));
                        return false;
                    },
                },
                None => {},
            }
        }
        b = b + 1;
    }
    true
}

/// Whether [`interpret_crate`] can run `c`: every body is well formed,
/// every call it can make finds a body with room for its arguments, and
/// every definition has a body.
pub fn can_interpret(c: &MirCrate) -> (r: bool)
    ensures
        r == (crate_wf(*c) && defs_wf(*c)),
{
    let n = c.function_count();
    let mut i: usize = 0;
    while i < n
        invariant
            i <= n,
            n == c.funcs().len(),
            forall|j: int| 0 <= j < i ==> body_wf(#[trigger] c.funcs()[j].1) && calls_wf(*c, c.funcs()[j].1),
        decreases n - i,
    {
        let body = c.function_at(i);
        if !check_body_wf(body) || !check_calls_wf(c, body) {
            assert(!(body_wf(c.funcs()[i as int].1) && calls_wf(*c, c.funcs()[i as int].1)));
            return false;
        }
        i = i + 1;
    }
    let m = crate::mir::body::def_table_len(&c.def_to_func);
    let mut i: usize = 0;
    while i < m
        invariant
            i <= m,
            m == c.defs().len(),
            crate_wf(*c),
            forall|j: int| 0 <= j < i ==> (#[trigger] func_lookup(c.funcs(), c.defs()[j].1)) is Some,
        decreases m - i,
    {
        let entry = crate::mir::body::def_table_get_index(&c.def_to_func, i);
        match entry {
            Some((_, f)) => {
                if crate::mir::body::func_table_get(&c.functions, f).is_none() {
                    assert(!defs_wf(*c));
                    return false;
                }
            },
            None => {},
        }
        i = i + 1;
    }
    true
}

// ---- fuel only bounds a run -------------------------------------------------

proof fn lemma_fuel_from(
    c: MirCrate,
    body: MirBody,
    slots: Seq<Option<VVal>>,
    block: nat,
    f1: nat,
    f2: nat,
    out: Seq<Seq<char>>,
)
    requires
        f1 <= f2,
        !(run_from(c, body, slots, block, f1, out).0 is OutOfFuel),
    ensures
        run_from(c, body, slots, block, f2, out) == run_from(c, body, slots, block, f1, out),
    decreases f1, 1nat,
{
    if f1 > 0 && block < body.blocks@.len() {
        let bb = body.blocks@[block as int];
        match stmts_spec(slots, bb.statements@) {
            None => {},
            Some(s2) => lemma_fuel_term(c, body, s2, bb.terminator.kind, f1, f2, out),
        }
    }
}

proof fn lemma_fuel_term(
    c: MirCrate,
    body: MirBody,
    s2: Seq<Option<VVal>>,
    term: TerminatorKind,
    f1: nat,
    f2: nat,
    out: Seq<Seq<char>>,
)
    requires
        f1 <= f2,
        !(run_terminator(c, body, s2, term, f1, out).0 is OutOfFuel),
    ensures
        run_terminator(c, body, s2, term, f2, out) == run_terminator(c, body, s2, term, f1, out),
    decreases f1, 0nat,
{
    if f1 > 0 {
        let g1 = (f1 - 1) as nat;
        let g2 = (f2 - 1) as nat;
        match term {
            TerminatorKind::Goto { target } => lemma_fuel_from(c, body, s2, target.0 as nat, g1, g2, out),
            TerminatorKind::SwitchInt { discr, targets, otherwise } => lemma_fuel_from(
                c,
                body,
                s2,
                switch_target(targets@, vv_discriminant(operand_place_spec(s2, discr)), otherwise).0 as nat,
                g1,
                g2,
                out,
            ),
            TerminatorKind::Drop { target, .. } => lemma_fuel_from(c, body, s2, target.0 as nat, g1, g2, out),
            TerminatorKind::Call { func, args, destination, target, .. } => {
                let (e, out2) = call_spec(c, func, args@, s2, g1, out);
                if !(e is OutOfFuel) {
                    lemma_fuel_call(c, func, args@, s2, g1, g2, out);
                    match e {
                        CallEnding::Value(Some(v)) => {
                            let s3 = match destination {
                                Some(d) => frame_set(s2, d.local.0 as int, d.projection@, v),
                                None => s2,
                            };
                            lemma_fuel_from(c, body, s3, target.0 as nat, g1, g2, out2);
                        },
                        CallEnding::Value(None) => lemma_fuel_from(c, body, s2, target.0 as nat, g1, g2, out2),
                        _ => {},
                    }
                }
            },
            _ => {},
        }
    }
}

proof fn lemma_fuel_call(
    c: MirCrate,
    func: FnOperand,
    args: Seq<OperandPlace>,
    slots: Seq<Option<VVal>>,
    f1: nat,
    f2: nat,
    out: Seq<Seq<char>>,
)
    requires
        f1 <= f2,
        !(call_spec(c, func, args, slots, f1, out).0 is OutOfFuel),
    ensures
        call_spec(c, func, args, slots, f2, out) == call_spec(c, func, args, slots, f1, out),
    decreases f1, 3nat,
{
    if let FnOperand::Def(d) = func {
        if let Some(f) = def_lookup(c.defs(), d) {
            if let Some(callee) = func_lookup(c.funcs(), f) {
                lemma_fuel_body(c, callee, operand_places_spec(slots, args), f1, f2, out);
            }
        }
    }
}

proof fn lemma_fuel_body(c: MirCrate, body: MirBody, args: Seq<VVal>, f1: nat, f2: nat, out: Seq<Seq<char>>)
    requires
        f1 <= f2,
        !(run_body(c, body, args, f1, out).0 is OutOfFuel),
    ensures
        run_body(c, body, args, f2, out) == run_body(c, body, args, f1, out),
    decreases f1, 2nat,
{
    lemma_fuel_from(c, body, init_slots(body.locals@.len(), args), 0, f1, f2, out);
}

/// Fuel only bounds a run: a run that returns or traps within some fuel
/// returns or traps the same way, printing the same lines, with any more
/// fuel.
pub proof fn more_fuel_same_run(c: MirCrate, body: MirBody, args: Seq<VVal>, fuel: nat, more: nat, out: Seq<Seq<char>>)
    requires
        fuel <= more,
        !(run_body(c, body, args, fuel, out).0 is OutOfFuel),
    ensures
        run_body(c, body, args, more, out) == run_body(c, body, args, fuel, out),
{
    lemma_fuel_body(c, body, args, fuel, more, out);
}

} // verus!
