//! C source from MIR: a preamble of runtime declarations, a pool of the
//! string constants, one C function per MIR body and a `main` wrapper.

use vstd::prelude::*;
use vstd::utf8::encode_utf8;

use crate::ids::{BlockId, DefId, LocalId, MirFuncId};
use crate::mir::body::{BasicBlock, MirBody, MirCrate};
use crate::mir::operand::{ConstValue, FnOperand, Operand};
use crate::mir::ops::{binary_spec, lemma_trunc_div, unary_spec};
use crate::mir::rvalue::{BinOp, Rvalue, UnaryOp};
use crate::mir::value::{vv_as_int, VVal};
use crate::mir::statement::{Statement, StatementKind};
use crate::mir::terminator::{OperandPlace, Terminator, TerminatorKind};
use crate::resolve::{name_lookup, Resolution};
use crate::text::{dec, dec_int, push_char, push_dec, push_int, push_str, str_eq};
use crate::types::{TyKind, TypeTable};

verus! {

/// Generated C source.
#[derive(Clone, Debug)]
pub struct COutput {
    pub source: String,
}

// ---- the string pool ------------------------------------------------------

/// The string constants of an operand.
pub open spec fn operand_strs(op: Operand) -> Seq<Seq<char>> {
    match op {
        Operand::Constant(ConstValue::Str(s)) => seq![s@],
        _ => Seq::empty(),
    }
}

/// The string constants of an rvalue that the emitter reads.
pub open spec fn rvalue_strs(rv: Rvalue) -> Seq<Seq<char>> {
    match rv {
        Rvalue::Use(op) => operand_strs(op),
        Rvalue::UnaryOp { operand, .. } => operand_strs(operand),
        Rvalue::BinaryOp { left, right, .. } => operand_strs(left) + operand_strs(right),
        _ => Seq::empty(),
    }
}

/// The string constants of a statement.
pub open spec fn stmt_strs(s: Statement) -> Seq<Seq<char>> {
    match s.kind {
        StatementKind::Assign { rvalue, .. } => rvalue_strs(rvalue),
        _ => Seq::empty(),
    }
}

/// The string constant of a call argument or switch operand.
pub open spec fn op_place_strs(op: OperandPlace) -> Seq<Seq<char>> {
    match op {
        OperandPlace::ConstStr(s) => seq![s@],
        _ => Seq::empty(),
    }
}

/// The string constants of call arguments, in order.
pub open spec fn args_strs(args: Seq<OperandPlace>) -> Seq<Seq<char>>
    decreases args.len(),
{
    if args.len() == 0 {
        Seq::empty()
    } else {
        args_strs(args.drop_last()) + op_place_strs(args.last())
    }
}

/// The string constants of a terminator.
pub open spec fn term_strs(t: Terminator) -> Seq<Seq<char>> {
    match t.kind {
        TerminatorKind::Call { args, .. } => args_strs(args@),
        TerminatorKind::SwitchInt { discr, .. } => op_place_strs(discr),
        _ => Seq::empty(),
    }
}

/// The string constants of statements, in order.
pub open spec fn stmts_strs(ss: Seq<Statement>) -> Seq<Seq<char>>
    decreases ss.len(),
{
    if ss.len() == 0 {
        Seq::empty()
    } else {
        stmts_strs(ss.drop_last()) + stmt_strs(ss.last())
    }
}

/// The string constants of a block: its statements', then its terminator's.
pub open spec fn block_strs(bb: BasicBlock) -> Seq<Seq<char>> {
    stmts_strs(bb.statements@) + term_strs(bb.terminator)
}

/// The string constants of blocks, in order.
pub open spec fn blocks_strs(bbs: Seq<BasicBlock>) -> Seq<Seq<char>>
    decreases bbs.len(),
{
    if bbs.len() == 0 {
        Seq::empty()
    } else {
        blocks_strs(bbs.drop_last()) + block_strs(bbs.last())
    }
}

/// The string constants of bodies, in order.
pub open spec fn bodies_strs(fs: Seq<(MirFuncId, MirBody)>) -> Seq<Seq<char>>
    decreases fs.len(),
{
    if fs.len() == 0 {
        Seq::empty()
    } else {
        bodies_strs(fs.drop_last()) + blocks_strs(fs.last().1.blocks@)
    }
}

/// `pool` with `s` appended unless it holds it already.
pub open spec fn intern_spec(pool: Seq<Seq<char>>, s: Seq<char>) -> Seq<Seq<char>> {
    if pool.contains(s) {
        pool
    } else {
        pool.push(s)
    }
}

/// `pool` extended by each of `occs` in turn.
pub open spec fn dedup_into(pool: Seq<Seq<char>>, occs: Seq<Seq<char>>) -> Seq<Seq<char>>
    decreases occs.len(),
{
    if occs.len() == 0 {
        pool
    } else {
        intern_spec(dedup_into(pool, occs.drop_last()), occs.last())
    }
}

/// The string pool of a crate: its string constants without repeats, in
/// the order of their first occurrence.
pub open spec fn string_pool(fs: Seq<(MirFuncId, MirBody)>) -> Seq<Seq<char>> {
    dedup_into(Seq::empty(), bodies_strs(fs))
}

/// The position of the first `s` in `pool`.
pub open spec fn first_index(pool: Seq<Seq<char>>, s: Seq<char>) -> nat
    decreases pool.len(),
{
    if pool.len() == 0 {
        0
    } else if pool[0] == s {
        0
    } else {
        1 + first_index(pool.drop_first(), s)
    }
}

/// Every one of `occs` is in `pool`.
pub open spec fn strs_in(pool: Seq<Seq<char>>, occs: Seq<Seq<char>>) -> bool {
    forall|i: int| 0 <= i < occs.len() ==> pool.contains(#[trigger] occs[i])
}

/// The view of a pool of strings.
pub open spec fn pool_view(v: Seq<String>) -> Seq<Seq<char>> {
    v.map_values(|x: String| x@)
}

proof fn lemma_dedup_concat(p: Seq<Seq<char>>, a: Seq<Seq<char>>, b: Seq<Seq<char>>)
    ensures
        dedup_into(p, a + b) == dedup_into(dedup_into(p, a), b),
    decreases b.len(),
{
    if b.len() == 0 {
        assert(a + b =~= a);
    } else {
        assert((a + b).drop_last() =~= a + b.drop_last());
        lemma_dedup_concat(p, a, b.drop_last());
    }
}

proof fn lemma_dedup_covers(p: Seq<Seq<char>>, occs: Seq<Seq<char>>)
    ensures
        strs_in(dedup_into(p, occs), occs),
        forall|x: Seq<char>| p.contains(x) ==> dedup_into(p, occs).contains(x),
    decreases occs.len(),
{
    if occs.len() > 0 {
        let q = dedup_into(p, occs.drop_last());
        lemma_dedup_covers(p, occs.drop_last());
        let r = intern_spec(q, occs.last());
        assert forall|x: Seq<char>| q.contains(x) implies r.contains(x) by {
            if !q.contains(occs.last()) {
                let k = choose|k: int| 0 <= k < q.len() && q[k] == x;
                assert(r[k] == x);
            }
        }
        assert forall|i: int| 0 <= i < occs.len() implies r.contains(#[trigger] occs[i]) by {
            if i < occs.len() - 1 {
                assert(occs.drop_last()[i] == occs[i]);
                assert(q.contains(occs.drop_last()[i]));
            } else if !q.contains(occs.last()) {
                assert(r[q.len() as int] == occs.last());
            }
        }
    }
}

proof fn lemma_first_index(pool: Seq<Seq<char>>, s: Seq<char>, i: int)
    requires
        0 <= i < pool.len(),
        pool[i] == s,
        forall|j: int| 0 <= j < i ==> pool[j] != s,
    ensures
        first_index(pool, s) == i,
    decreases i,
{
    if i > 0 {
        lemma_first_index(pool.drop_first(), s, i - 1);
    }
}

proof fn lemma_strs_in_concat(pool: Seq<Seq<char>>, a: Seq<Seq<char>>, b: Seq<Seq<char>>)
    requires
        strs_in(pool, a + b),
    ensures
        strs_in(pool, a),
        strs_in(pool, b),
{
    assert forall|i: int| 0 <= i < a.len() implies pool.contains(#[trigger] a[i]) by {
        assert((a + b)[i] == a[i]);
    }
    assert forall|i: int| 0 <= i < b.len() implies pool.contains(#[trigger] b[i]) by {
        assert((a + b)[a.len() + i] == b[i]);
    }
}

proof fn lemma_bodies_strs_in(pool: Seq<Seq<char>>, fs: Seq<(MirFuncId, MirBody)>, i: int)
    requires
        strs_in(pool, bodies_strs(fs)),
        0 <= i < fs.len(),
    ensures
        strs_in(pool, blocks_strs(fs[i].1.blocks@)),
    decreases fs.len(),
{
    lemma_strs_in_concat(pool, bodies_strs(fs.drop_last()), blocks_strs(fs.last().1.blocks@));
    if i < fs.len() - 1 {
        lemma_bodies_strs_in(pool, fs.drop_last(), i);
    }
}

proof fn lemma_blocks_strs_in(pool: Seq<Seq<char>>, bbs: Seq<BasicBlock>, i: int)
    requires
        strs_in(pool, blocks_strs(bbs)),
        0 <= i < bbs.len(),
    ensures
        strs_in(pool, stmts_strs(bbs[i].statements@)),
        strs_in(pool, term_strs(bbs[i].terminator)),
    decreases bbs.len(),
{
    lemma_strs_in_concat(pool, blocks_strs(bbs.drop_last()), block_strs(bbs.last()));
    if i < bbs.len() - 1 {
        lemma_blocks_strs_in(pool, bbs.drop_last(), i);
    } else {
        lemma_strs_in_concat(pool, stmts_strs(bbs[i].statements@), term_strs(bbs[i].terminator));
    }
}

proof fn lemma_stmts_strs_in(pool: Seq<Seq<char>>, ss: Seq<Statement>, i: int)
    requires
        strs_in(pool, stmts_strs(ss)),
        0 <= i < ss.len(),
    ensures
        strs_in(pool, stmt_strs(ss[i])),
    decreases ss.len(),
{
    lemma_strs_in_concat(pool, stmts_strs(ss.drop_last()), stmt_strs(ss.last()));
    if i < ss.len() - 1 {
        lemma_stmts_strs_in(pool, ss.drop_last(), i);
    }
}

proof fn lemma_args_strs_in(pool: Seq<Seq<char>>, args: Seq<OperandPlace>, i: int)
    requires
        strs_in(pool, args_strs(args)),
        0 <= i < args.len(),
    ensures
        strs_in(pool, op_place_strs(args[i])),
    decreases args.len(),
{
    lemma_strs_in_concat(pool, args_strs(args.drop_last()), op_place_strs(args.last()));
    if i < args.len() - 1 {
        lemma_args_strs_in(pool, args.drop_last(), i);
    }
}

// ---- the text ------------------------------------------------------------

/// The runtime declarations that open every generated file.
pub const PREAMBLE: &'static str = "#include <stdint.h>\n#include <stdio.h>\n\nvoid rpy_rt_init(void);\nvoid rpy_panic(const char *, int64_t);\nvoid rpy_print_str(const char *, int64_t);\nvoid rpy_print_int(int64_t);\nvoid rpy_print_bool(int8_t);\nvoid rpy_print_newline(void);\n\ntypedef struct { const char *ptr; int64_t len; } rpy_str;\n\n";

/// The wrapper that makes `main` the program's entry point.
pub const MAIN_WRAPPER: &'static str = "int main(void) {\n  rpy_rt_init();\n  return (int)_rpy__main();\n}\n";

/// The C type of a kind of type.
pub open spec fn c_type_text(k: TyKind) -> Seq<char> {
    match k {
        TyKind::Bool => "int8_t"@,
        TyKind::Str => "rpy_str"@,
        TyKind::Unit => "void"@,
        TyKind::Never => "void"@,
        TyKind::Int => "int64_t"@,
        TyKind::Float => "double"@,
        TyKind::Other => "int64_t"@,
    }
}

/// The C variable of a local.
pub open spec fn local_name(l: LocalId) -> Seq<char> {
    "_"@ + dec(l.0 as nat)
}

/// A boolean as a C integer.
pub open spec fn bool_digit(b: bool) -> Seq<char> {
    if b {
        "1"@
    } else {
        "0"@
    }
}

/// The pool entry of a string constant.
pub open spec fn str_ref(pool: Seq<Seq<char>>, s: Seq<char>) -> Seq<char> {
    "rpy_str_"@ + dec(first_index(pool, s))
}

/// An operand as a C expression.
pub open spec fn c_operand(pool: Seq<Seq<char>>, op: Operand) -> Seq<char> {
    match op {
        Operand::Copy(p) => local_name(p.local),
        Operand::Move(p) => local_name(p.local),
        Operand::Constant(c) => match c {
            ConstValue::Int(n) => dec_int(n as int),
            ConstValue::Bool(b) => bool_digit(b),
            ConstValue::Float(f) => f@,
            ConstValue::Str(s) => str_ref(pool, s@),
            ConstValue::Unit => "0"@,
            ConstValue::ZeroSized => "0"@,
        },
    }
}

/// The C operator of a binary operation.
pub open spec fn binop_sym(op: BinOp) -> Seq<char> {
    match op {
        BinOp::Add => "+"@,
        BinOp::Sub => "-"@,
        BinOp::Mul => "*"@,
        BinOp::Div => "/"@,
        BinOp::Rem => "%"@,
        BinOp::Eq => "=="@,
        BinOp::Ne => "!="@,
        BinOp::Lt => "<"@,
        BinOp::Le => "<="@,
        BinOp::Gt => ">"@,
        BinOp::Ge => ">="@,
        BinOp::And => "&&"@,
        BinOp::Or => "||"@,
    }
}

/// The C value of an interpreted value: an integer as itself, a boolean as
/// 1 or 0, anything else as 0.
pub open spec fn c_val(v: VVal) -> int {
    match v {
        VVal::Int(n) => n as int,
        VVal::Bool(b) => if b { 1 } else { 0 },
        _ => 0,
    }
}

/// The quotient C's `/` gives on integers: that of the sizes, rounded down,
/// negated where exactly one operand is negative (rounding toward zero).
pub open spec fn c_quot(a: int, b: int) -> int {
    let q = (if a < 0 { -a } else { a }) / (if b < 0 { -b } else { b });
    if (a < 0) == (b < 0) { q } else { -q }
}

/// What C's binary operator `tok` computes on two `int64_t` values `a` and
/// `b`, where C defines it: `+`, `-`, `*` exactly, `/` rounding toward
/// zero, `%` what is left over from it, the comparisons and `&&`, `||` 1
/// or 0; `None` for anything else, a zero divisor or a result out of range.
pub open spec fn c_int_op(tok: Seq<char>, a: int, b: int) -> Option<int> {
    let bit = |c: bool| if c { 1int } else { 0int };
    let r: Option<int> = if tok == seq!['+'] {
        Some(a + b)
    } else if tok == seq!['-'] {
        Some(a - b)
    } else if tok == seq!['*'] {
        Some(a * b)
    } else if tok == seq!['/'] {
        if b == 0 { None } else { Some(c_quot(a, b)) }
    } else if tok == seq!['%'] {
        if b == 0 { None } else { Some(a - b * c_quot(a, b)) }
    } else if tok == seq!['=', '='] {
        Some(bit(a == b))
    } else if tok == seq!['!', '='] {
        Some(bit(a != b))
    } else if tok == seq!['<'] {
        Some(bit(a < b))
    } else if tok == seq!['<', '='] {
        Some(bit(a <= b))
    } else if tok == seq!['>'] {
        Some(bit(a > b))
    } else if tok == seq!['>', '='] {
        Some(bit(a >= b))
    } else if tok == seq!['&', '&'] {
        Some(bit(a != 0 && b != 0))
    } else if tok == seq!['|', '|'] {
        Some(bit(a != 0 || b != 0))
    } else {
        None
    };
    match r {
        Some(v) => if i64::MIN <= v <= i64::MAX { Some(v) } else { None },
        None => None,
    }
}

/// The C operator emitted for each MIR binary operator computes what the
/// interpreter computes: on integer operands (boolean ones for `and` and
/// `or`), wherever the interpreter gives a result, the C operator applied
/// to the operands' C values gives the result's C value.
pub proof fn c_operators_compute_as_interpreted(op: BinOp, l: VVal, r: VVal)
    requires
        (op is And || op is Or) ==> l is Bool && r is Bool,
        !(op is And || op is Or) ==> l is Int && r is Int,
        binary_spec(op, l, r) is Some,
    ensures
        c_int_op(binop_sym(op), c_val(l), c_val(r)) == Some(c_val(binary_spec(op, l, r).unwrap())),
{
    reveal_strlit("+");
    reveal_strlit("-");
    reveal_strlit("*");
    reveal_strlit("/");
    reveal_strlit("%");
    reveal_strlit("==");
    reveal_strlit("!=");
    reveal_strlit("<");
    reveal_strlit("<=");
    reveal_strlit(">");
    reveal_strlit(">=");
    reveal_strlit("&&");
    reveal_strlit("||");
    assert(binop_sym(op) == match op {
        BinOp::Add => seq!['+'],
        BinOp::Sub => seq!['-'],
        BinOp::Mul => seq!['*'],
        BinOp::Div => seq!['/'],
        BinOp::Rem => seq!['%'],
        BinOp::Eq => seq!['=', '='],
        BinOp::Ne => seq!['!', '='],
        BinOp::Lt => seq!['<'],
        BinOp::Le => seq!['<', '='],
        BinOp::Gt => seq!['>'],
        BinOp::Ge => seq!['>', '='],
        BinOp::And => seq!['&', '&'],
        BinOp::Or => seq!['|', '|'],
    });
    let toks = seq![seq!['+'], seq!['-'], seq!['*'], seq!['/'], seq!['%'], seq!['=', '='], seq!['!', '='], seq!['<'], seq!['<', '='], seq![
        '>',
    ], seq!['>', '='], seq!['&', '&'], seq!['|', '|']];
    assert forall|i: int, j: int| 0 <= i < j < 13 implies toks[i] != toks[j] by {
        if toks[i].len() == toks[j].len() {
            if toks[i].len() == 1 {
                assert(toks[i][0] != toks[j][0]);
            } else if toks[i][0] == toks[j][0] {
                assert(toks[i][1] != toks[j][1]);
            } else {
                assert(toks[i][0] != toks[j][0]);
            }
        }
    }
    assert(toks[0] == seq!['+'] && toks[1] == seq!['-'] && toks[2] == seq!['*'] && toks[3] == seq!['/'] && toks[4] == seq!['%']
        && toks[5] == seq!['=', '='] && toks[6] == seq!['!', '='] && toks[7] == seq!['<'] && toks[8] == seq!['<', '='] && toks[9]
        == seq!['>'] && toks[10] == seq!['>', '='] && toks[11] == seq!['&', '&'] && toks[12] == seq!['|', '|']);
    if op is Div || op is Rem {
        let a = vv_as_int(l).unwrap();
        let b = vv_as_int(r).unwrap();
        assert(b != 0);
        if a == i64::MIN && b == -1 {
            assert(binary_spec(op, l, r) is None);
        } else {
            lemma_trunc_div(a, b);
        }
    }
    if op is Rem {
        let q = c_quot(c_val(l), c_val(r));
        assert(c_val(r) * q == q * c_val(r)) by (nonlinear_arith);
    }
}

/// What C's unary operator `tok` computes on an `int64_t` value `a`: `!`
/// gives 1 for 0 and 0 otherwise, `-` the negation where it is in range;
/// `None` for anything else.
pub open spec fn c_unary_op(tok: char, a: int) -> Option<int> {
    if tok == '!' {
        Some(if a == 0 { 1int } else { 0int })
    } else if tok == '-' && i64::MIN <= -a <= i64::MAX {
        Some(-a)
    } else {
        None
    }
}

/// The C expression emitted for a unary operation applies the C operator
/// that computes what the interpreter computes: its operator (the
/// character after the opening parenthesis), applied to the C value of a
/// boolean operand of `not` or an integer operand of `-`, gives the C value
/// of the interpreter's result wherever there is one.
pub proof fn c_unary_operators_compute_as_interpreted(pool: Seq<Seq<char>>, op: UnaryOp, o: Operand, v: VVal)
    requires
        op is Not ==> v is Bool,
        op is Neg ==> v is Int,
        unary_spec(op, v) is Some,
    ensures
        c_rvalue(pool, Rvalue::UnaryOp { op, operand: o }).len() > 1,
        c_unary_op(c_rvalue(pool, Rvalue::UnaryOp { op, operand: o })[1], c_val(v)) == Some(c_val(unary_spec(op, v).unwrap())),
{
    reveal_strlit("(!");
    reveal_strlit("(-");
    reveal_strlit(")");
}

/// An rvalue as a C expression; the rvalues without a C form become `0`.
pub open spec fn c_rvalue(pool: Seq<Seq<char>>, rv: Rvalue) -> Seq<char> {
    match rv {
        Rvalue::Use(op) => c_operand(pool, op),
        Rvalue::UnaryOp { op, operand } => match op {
            UnaryOp::Not => "(!"@ + c_operand(pool, operand) + ")"@,
            UnaryOp::Neg => "(-"@ + c_operand(pool, operand) + ")"@,
        },
        Rvalue::BinaryOp { op, left, right } => "("@ + c_operand(pool, left) + " "@ + binop_sym(op) + " "@
            + c_operand(pool, right) + ")"@,
        _ => "0"@,
    }
}

/// A call argument or switch operand as a C expression.
pub open spec fn c_operand_place(pool: Seq<Seq<char>>, op: OperandPlace) -> Seq<char> {
    match op {
        OperandPlace::Place(p) => local_name(p.local),
        OperandPlace::ConstInt(n) => dec_int(n as int),
        OperandPlace::ConstBool(b) => bool_digit(b),
        OperandPlace::ConstStr(s) => str_ref(pool, s@),
    }
}

/// The kind of the type of a local.
pub open spec fn local_kind(types: Seq<TyKind>, b: MirBody, l: LocalId) -> TyKind {
    types[b.locals@[l.0 as int].ty.0 as int]
}

/// The kind of the type of a call argument.
pub open spec fn op_place_kind(types: Seq<TyKind>, b: MirBody, op: OperandPlace) -> TyKind {
    match op {
        OperandPlace::Place(p) => local_kind(types, b, p.local),
        OperandPlace::ConstInt(_) => TyKind::Int,
        OperandPlace::ConstBool(_) => TyKind::Bool,
        OperandPlace::ConstStr(_) => TyKind::Str,
    }
}

/// A statement as C: an assignment declares its local; the other
/// statements emit nothing.
pub open spec fn c_stmt(types: Seq<TyKind>, pool: Seq<Seq<char>>, b: MirBody, s: Statement) -> Seq<char> {
    match s.kind {
        StatementKind::Assign { place, rvalue } => "  "@ + c_type_text(local_kind(types, b, place.local)) + " "@
            + local_name(place.local) + " = "@ + c_rvalue(pool, rvalue) + ";\n"@,
        _ => Seq::empty(),
    }
}

/// Statements as C.
pub open spec fn c_stmts(types: Seq<TyKind>, pool: Seq<Seq<char>>, b: MirBody, ss: Seq<Statement>) -> Seq<char>
    decreases ss.len(),
{
    if ss.len() == 0 {
        Seq::empty()
    } else {
        c_stmts(types, pool, b, ss.drop_last()) + c_stmt(types, pool, b, ss.last())
    }
}

/// A jump to a block.
pub open spec fn goto_text(t: BlockId) -> Seq<char> {
    "  goto bb"@ + dec(t.0 as nat) + ";\n"@
}

/// The tests of a switch on the C expression `d`.
pub open spec fn c_switch_arms(d: Seq<char>, ts: Seq<(u128, BlockId)>) -> Seq<char>
    decreases ts.len(),
{
    if ts.len() == 0 {
        Seq::empty()
    } else {
        c_switch_arms(d, ts.drop_last()) + "  if ("@ + d + " == "@ + dec(ts.last().0 as nat) + ") goto bb"@
            + dec(ts.last().1.0 as nat) + ";\n"@
    }
}

/// A call of the runtime's printer for a value of kind `k`.
pub open spec fn print_text(k: TyKind, op: Seq<char>) -> Seq<char> {
    match k {
        TyKind::Str => "  rpy_print_str("@ + op + ".ptr, "@ + op + ".len); rpy_print_newline();\n"@,
        TyKind::Bool => "  rpy_print_bool((int8_t)"@ + op + "); rpy_print_newline();\n"@,
        _ => "  rpy_print_int("@ + op + "); rpy_print_newline();\n"@,
    }
}

/// The C name of a definition.
pub open spec fn def_name(res: Resolution, def: DefId) -> Seq<char> {
    match name_lookup(res.def_names@, def) {
        Some(n) => n,
        None => "unknown"@,
    }
}

/// The C name of the function for a name.
pub open spec fn mangled(name: Seq<char>) -> Seq<char> {
    "_rpy__"@ + name
}

/// A call as C: `print` prints its first argument and a newline, another
/// definition is called without arguments, and a call through a place
/// emits nothing.
pub open spec fn c_call(
    types: Seq<TyKind>,
    pool: Seq<Seq<char>>,
    res: Resolution,
    b: MirBody,
    func: FnOperand,
    args: Seq<OperandPlace>,
) -> Seq<char> {
    match func {
        FnOperand::Place(_) => Seq::empty(),
        FnOperand::Def(def) => if def == res.print {
            if args.len() > 0 {
                print_text(op_place_kind(types, b, args[0]), c_operand_place(pool, args[0]))
            } else {
                "  rpy_print_newline();\n"@
            }
        } else {
            "  "@ + mangled(def_name(res, def)) + "();\n"@
        },
    }
}

/// A terminator as C.
pub open spec fn c_term(types: Seq<TyKind>, pool: Seq<Seq<char>>, res: Resolution, b: MirBody, t: Terminator) -> Seq<char> {
    match t.kind {
        TerminatorKind::Goto { target } => goto_text(target),
        TerminatorKind::Return => "  return (int)_0;\n"@,
        TerminatorKind::SwitchInt { discr, targets, otherwise } => c_switch_arms(c_operand_place(pool, discr), targets@)
            + goto_text(otherwise),
        TerminatorKind::Call { func, args, target, .. } => c_call(types, pool, res, b, func, args@) + goto_text(target),
        TerminatorKind::Unreachable => "  rpy_panic(\"unreachable\", 11);\n"@,
        TerminatorKind::Drop { target, .. } => goto_text(target),
    }
}

/// Block `i` as a labelled C block.
pub open spec fn c_block(types: Seq<TyKind>, pool: Seq<Seq<char>>, res: Resolution, b: MirBody, i: nat, bb: BasicBlock) -> Seq<char> {
    "bb"@ + dec(i) + ": {\n"@ + c_stmts(types, pool, b, bb.statements@) + c_term(types, pool, res, b, bb.terminator)
        + "}\n"@
}

/// Blocks as C, labelled by their position.
pub open spec fn c_blocks(types: Seq<TyKind>, pool: Seq<Seq<char>>, res: Resolution, b: MirBody, bbs: Seq<BasicBlock>) -> Seq<char>
    decreases bbs.len(),
{
    if bbs.len() == 0 {
        Seq::empty()
    } else {
        c_blocks(types, pool, res, b, bbs.drop_last()) + c_block(types, pool, res, b, (bbs.len() - 1) as nat, bbs.last())
    }
}

/// A body as a C function without parameters.
pub open spec fn c_function(types: Seq<TyKind>, pool: Seq<Seq<char>>, res: Resolution, b: MirBody) -> Seq<char> {
    c_type_text(types[b.return_ty.0 as int]) + " "@ + mangled(b.name@) + "(void) {\n"@ + c_blocks(types, pool, res, b, b.blocks@)
        + "}\n\n"@
}

/// Bodies as C functions, in order.
pub open spec fn c_functions(types: Seq<TyKind>, pool: Seq<Seq<char>>, res: Resolution, fs: Seq<(MirFuncId, MirBody)>) -> Seq<char>
    decreases fs.len(),
{
    if fs.len() == 0 {
        Seq::empty()
    } else {
        c_functions(types, pool, res, fs.drop_last()) + c_function(types, pool, res, fs.last().1)
    }
}

/// A character as it stands in a C string literal.
pub open spec fn escape_char(c: char) -> Seq<char> {
    if c == '\\' {
        seq!['\\', '\\']
    } else if c == '"' {
        seq!['\\', '"']
    } else if c == '\n' {
        seq!['\\', 'n']
    } else {
        seq![c]
    }
}

/// A string as the body of a C string literal: backslash, double quote and
/// newline escaped.
pub open spec fn escape_c_text(s: Seq<char>) -> Seq<char>
    decreases s.len(),
{
    if s.len() == 0 {
        Seq::empty()
    } else {
        escape_c_text(s.drop_last()) + escape_char(s.last())
    }
}

/// The declarations of pool entry `i`: the characters, and the string
/// value with its length in UTF-8 bytes.
pub open spec fn c_pool_entry(i: nat, s: Seq<char>) -> Seq<char> {
    "static const char rpy_str_lit_"@ + dec(i) + "[] = \""@ + escape_c_text(s) + "\";\n"@
        + "static const rpy_str rpy_str_"@ + dec(i) + " = { rpy_str_lit_"@ + dec(i) + ", "@
        + dec((encode_utf8(s).len() as usize) as nat) + " };\n"@
}

/// The declarations of a string pool.
pub open spec fn c_pool(pool: Seq<Seq<char>>) -> Seq<char>
    decreases pool.len(),
{
    if pool.len() == 0 {
        Seq::empty()
    } else {
        c_pool(pool.drop_last()) + c_pool_entry((pool.len() - 1) as nat, pool.last())
    }
}

/// Whether some body is named `main`.
pub open spec fn has_main(fs: Seq<(MirFuncId, MirBody)>) -> bool {
    exists|i: int| 0 <= i < fs.len() && fs[i].1.name@ == "main"@
}

/// The C source of a crate: the preamble, the string pool, the functions
/// and, where a body is named `main`, the wrapper that calls it.
pub open spec fn c_source(types: Seq<TyKind>, res: Resolution, fs: Seq<(MirFuncId, MirBody)>) -> Seq<char> {
    let pool = string_pool(fs);
    PREAMBLE@ + c_pool(pool) + c_functions(types, pool, res, fs) + if has_main(fs) {
        MAIN_WRAPPER@
    } else {
        Seq::empty()
    }
}

// ---- what the emitter reads ------------------------------------------------

/// An assignment's local and the type of that local are known.
pub open spec fn stmt_ready(n: nat, b: MirBody, s: Statement) -> bool {
    match s.kind {
        StatementKind::Assign { place, .. } => place.local.0 < b.locals@.len() && b.locals@[place.local.0 as int].ty.0 < n,
        _ => true,
    }
}

/// The type of the argument that a call of `print` prints is known.
pub open spec fn term_ready(n: nat, print: DefId, b: MirBody, t: Terminator) -> bool {
    match t.kind {
        TerminatorKind::Call { func: FnOperand::Def(d), args, .. } => (d == print && args@.len() > 0) ==> match args@[0] {
            OperandPlace::Place(p) => p.local.0 < b.locals@.len() && b.locals@[p.local.0 as int].ty.0 < n,
            _ => true,
        },
        _ => true,
    }
}

/// What a block needs to be emitted.
pub open spec fn block_ready(n: nat, print: DefId, b: MirBody, bb: BasicBlock) -> bool {
    &&& forall|k: int| 0 <= k < bb.statements@.len() ==> #[trigger] stmt_ready(n, b, bb.statements@[k])
    &&& term_ready(n, print, b, bb.terminator)
}

/// What a body needs to be emitted: every type that the emitter looks up
/// is in the type table, and every local it looks up is declared.
pub open spec fn body_ready(n: nat, print: DefId, b: MirBody) -> bool {
    &&& b.return_ty.0 < n
    &&& forall|j: int| 0 <= j < b.blocks@.len() ==> #[trigger] block_ready(n, print, b, b.blocks@[j])
}

/// What a crate needs to be emitted.
pub open spec fn crate_ready(types: TypeTable, res: Resolution, fs: Seq<(MirFuncId, MirBody)>) -> bool {
    forall|i: int| 0 <= i < fs.len() ==> #[trigger] body_ready(types.kinds@.len(), res.print, fs[i].1)
}

// ---- the emitter ----------------------------------------------------------

struct CEmitter<'a> {
    out: String,
    types: &'a TypeTable,
    resolution: &'a Resolution,
    strings: Vec<String>,
}

impl<'a> CEmitter<'a> {
    spec fn pool(&self) -> Seq<Seq<char>> {
        pool_view(self.strings@)
    }

    spec fn tys(&self) -> Seq<TyKind> {
        self.types.kinds@
    }

    /// The position of `s` in the pool, which gets it appended if it does
    /// not hold it yet.
    fn intern_string(&mut self, s: &str) -> (i: usize)
        ensures
            final(self).pool() == intern_spec(old(self).pool(), s@),
            old(self).pool().contains(s@) ==> final(self).strings@ == old(self).strings@,
            i == first_index(final(self).pool(), s@),
            final(self).out@ == old(self).out@,
            final(self).types == old(self).types,
            final(self).resolution == old(self).resolution,
    {
        let ghost p = self.pool();
        let ghost v = self.strings@;
        let mut i: usize = 0;
        while i < self.strings.len()
            invariant
                i <= v.len(),
                self.strings@ == v,
                p == pool_view(v),
                forall|j: int| 0 <= j < i ==> p[j] != s@,
            decreases v.len() - i,
        {
            assert(p[i as int] == v[i as int]@);
            if str_eq(self.strings[i].as_str(), s) {
                proof {
                    lemma_first_index(p, s@, i as int);
                    assert(p.contains(s@));
                }
                return i;
            }
            i = i + 1;
        }
        let n = self.strings.len();
        proof {
            assert forall|j: int| 0 <= j < p.len() implies p[j] != s@ by {}
        }
        self.strings.push(String::from_str(s));
        proof {
            assert(pool_view(self.strings@) =~= p.push(s@));
            lemma_first_index(p.push(s@), s@, n as int);
        }
        n
    }

    fn collect_operand_strings(&mut self, op: &Operand)
        ensures
            final(self).pool() == dedup_into(old(self).pool(), operand_strs(*op)),
            final(self).out@ == old(self).out@,
            final(self).types == old(self).types,
            final(self).resolution == old(self).resolution,
    {
        if let Operand::Constant(ConstValue::Str(s)) = op {
            let ghost p = self.pool();
            self.intern_string(s.as_str());
            assert(operand_strs(*op).drop_last() =~= Seq::<Seq<char>>::empty());
            assert(dedup_into(p, Seq::<Seq<char>>::empty()) == p);
            assert(dedup_into(p, operand_strs(*op)) == intern_spec(p, s@));
        } else {
            assert(operand_strs(*op) =~= Seq::<Seq<char>>::empty());
        }
    }

    fn collect_rvalue_strings(&mut self, rv: &Rvalue)
        ensures
            final(self).pool() == dedup_into(old(self).pool(), rvalue_strs(*rv)),
            final(self).out@ == old(self).out@,
            final(self).types == old(self).types,
            final(self).resolution == old(self).resolution,
    {
        match rv {
            Rvalue::Use(op) => self.collect_operand_strings(op),
            Rvalue::UnaryOp { operand, .. } => self.collect_operand_strings(operand),
            Rvalue::BinaryOp { left, right, .. } => {
                let ghost p = self.pool();
                self.collect_operand_strings(left);
                self.collect_operand_strings(right);
                proof {
                    lemma_dedup_concat(p, operand_strs(*left), operand_strs(*right));
                }
            },
            _ => {},
        }
    }

    fn collect_op_place_strings(&mut self, op: &OperandPlace)
        ensures
            final(self).pool() == dedup_into(old(self).pool(), op_place_strs(*op)),
            final(self).out@ == old(self).out@,
            final(self).types == old(self).types,
            final(self).resolution == old(self).resolution,
    {
        if let OperandPlace::ConstStr(s) = op {
            let ghost p = self.pool();
            self.intern_string(s.as_str());
            assert(op_place_strs(*op).drop_last() =~= Seq::<Seq<char>>::empty());
            assert(dedup_into(p, Seq::<Seq<char>>::empty()) == p);
            assert(dedup_into(p, op_place_strs(*op)) == intern_spec(p, s@));
        } else {
            assert(op_place_strs(*op) =~= Seq::<Seq<char>>::empty());
        }
    }

    fn collect_term_strings(&mut self, t: &Terminator)
        ensures
            final(self).pool() == dedup_into(old(self).pool(), term_strs(*t)),
            final(self).out@ == old(self).out@,
            final(self).types == old(self).types,
            final(self).resolution == old(self).resolution,
    {
        match &t.kind {
            TerminatorKind::Call { args, .. } => {
                let ghost p0 = self.pool();
                let mut a: usize = 0;
                while a < args.len()
                    invariant
                        a <= args@.len(),
                        self.pool() == dedup_into(p0, args_strs(args@.subrange(0, a as int))),
                        self.out@ == old(self).out@,
                        self.types == old(self).types,
                        self.resolution == old(self).resolution,
                    decreases args@.len() - a,
                {
                    self.collect_op_place_strings(&args[a]);
                    proof {
                        assert(args@.subrange(0, a + 1).drop_last() =~= args@.subrange(0, a as int));
                        lemma_dedup_concat(p0, args_strs(args@.subrange(0, a as int)), op_place_strs(args@[a as int]));
                    }
                    a = a + 1;
                }
                assert(args@.subrange(0, args@.len() as int) =~= args@);
            },
            TerminatorKind::SwitchInt { discr, .. } => self.collect_op_place_strings(discr),
            _ => {},
        }
    }

    fn collect_block_strings(&mut self, bb: &BasicBlock)
        ensures
            final(self).pool() == dedup_into(old(self).pool(), block_strs(*bb)),
            final(self).out@ == old(self).out@,
            final(self).types == old(self).types,
            final(self).resolution == old(self).resolution,
    {
        let ghost p0 = self.pool();
        let mut k: usize = 0;
        while k < bb.statements.len()
            invariant
                k <= bb.statements@.len(),
                self.pool() == dedup_into(p0, stmts_strs(bb.statements@.subrange(0, k as int))),
                self.out@ == old(self).out@,
                self.types == old(self).types,
                self.resolution == old(self).resolution,
            decreases bb.statements@.len() - k,
        {
            if let StatementKind::Assign { rvalue, .. } = &bb.statements[k].kind {
                self.collect_rvalue_strings(rvalue);
            }
            proof {
                assert(bb.statements@.subrange(0, k + 1).drop_last() =~= bb.statements@.subrange(0, k as int));
                lemma_dedup_concat(p0, stmts_strs(bb.statements@.subrange(0, k as int)), stmt_strs(bb.statements@[k as int]));
            }
            k = k + 1;
        }
        assert(bb.statements@.subrange(0, bb.statements@.len() as int) =~= bb.statements@);
        let ghost p1 = self.pool();
        self.collect_term_strings(&bb.terminator);
        proof {
            lemma_dedup_concat(p0, stmts_strs(bb.statements@), term_strs(bb.terminator));
        }
    }

    fn collect_strings(&mut self, body: &MirBody)
        ensures
            final(self).pool() == dedup_into(old(self).pool(), blocks_strs(body.blocks@)),
            final(self).out@ == old(self).out@,
            final(self).types == old(self).types,
            final(self).resolution == old(self).resolution,
    {
        let ghost p0 = self.pool();
        let mut j: usize = 0;
        while j < body.blocks.len()
            invariant
                j <= body.blocks@.len(),
                self.pool() == dedup_into(p0, blocks_strs(body.blocks@.subrange(0, j as int))),
                self.out@ == old(self).out@,
                self.types == old(self).types,
                self.resolution == old(self).resolution,
            decreases body.blocks@.len() - j,
        {
            self.collect_block_strings(&body.blocks[j]);
            proof {
                assert(body.blocks@.subrange(0, j + 1).drop_last() =~= body.blocks@.subrange(0, j as int));
                lemma_dedup_concat(p0, blocks_strs(body.blocks@.subrange(0, j as int)), block_strs(body.blocks@[j as int]));
            }
            j = j + 1;
        }
        assert(body.blocks@.subrange(0, body.blocks@.len() as int) =~= body.blocks@);
    }

    fn c_type(&self, ty: crate::ids::TypeId) -> (r: &'static str)
        requires
            ty.0 < self.tys().len(),
        ensures
            r@ == c_type_text(self.tys()[ty.0 as int]),
    {
        match self.types.kind(ty) {
            TyKind::Bool => "int8_t",
            TyKind::Str => "rpy_str",
            TyKind::Unit => "void",
            TyKind::Never => "void",
            TyKind::Int => "int64_t",
            TyKind::Float => "double",
            TyKind::Other => "int64_t",
        }
    }

    fn emit_preamble(&mut self)
        ensures
            final(self).out@ == old(self).out@ + PREAMBLE@,
            final(self).strings@ == old(self).strings@,
            final(self).types == old(self).types,
            final(self).resolution == old(self).resolution,
    {
        push_str(&mut self.out, PREAMBLE);
    }

    fn emit_operand(&mut self, op: &Operand) -> (r: String)
        requires
            strs_in(old(self).pool(), operand_strs(*op)),
        ensures
            r@ == c_operand(old(self).pool(), *op),
            final(self).strings@ == old(self).strings@,
            final(self).out@ == old(self).out@,
            final(self).types == old(self).types,
            final(self).resolution == old(self).resolution,
    {
        let ghost pool = self.pool();
        let mut r = String::new();
        match op {
            Operand::Copy(p) => {
                push_str(&mut r, "_");
                push_dec(&mut r, p.local.0 as u128);
            },
            Operand::Move(p) => {
                push_str(&mut r, "_");
                push_dec(&mut r, p.local.0 as u128);
            },
            Operand::Constant(c) => match c {
                ConstValue::Int(n) => push_int(&mut r, *n),
                ConstValue::Bool(b) => push_str(&mut r, if *b { "1" } else { "0" }),
                ConstValue::Float(f) => push_str(&mut r, f.as_str()),
                ConstValue::Str(s) => {
                    assert(operand_strs(*op)[0] == s@);
                    let idx = self.intern_string(s.as_str());
                    push_str(&mut r, "rpy_str_");
                    push_dec(&mut r, idx as u128);
                },
                ConstValue::Unit => push_str(&mut r, "0"),
                ConstValue::ZeroSized => push_str(&mut r, "0"),
            },
        }
        assert(r@ =~= c_operand(pool, *op));
        r
    }

    fn emit_rvalue(&mut self, rv: &Rvalue) -> (r: String)
        requires
            strs_in(old(self).pool(), rvalue_strs(*rv)),
        ensures
            r@ == c_rvalue(old(self).pool(), *rv),
            final(self).strings@ == old(self).strings@,
            final(self).out@ == old(self).out@,
            final(self).types == old(self).types,
            final(self).resolution == old(self).resolution,
    {
        let ghost pool = self.pool();
        match rv {
            Rvalue::Use(op) => self.emit_operand(op),
            Rvalue::UnaryOp { op, operand } => {
                let o = self.emit_operand(operand);
                let mut r = String::new();
                match op {
                    UnaryOp::Not => push_str(&mut r, "(!"),
                    UnaryOp::Neg => push_str(&mut r, "(-"),
                }
                push_str(&mut r, o.as_str());
                push_str(&mut r, ")");
                assert(r@ =~= c_rvalue(pool, *rv));
                r
            },
            Rvalue::BinaryOp { op, left, right } => {
                proof {
                    lemma_strs_in_concat(pool, operand_strs(*left), operand_strs(*right));
                }
                let l = self.emit_operand(left);
                let rr = self.emit_operand(right);
                let sym = match op {
                    BinOp::Add => "+",
                    BinOp::Sub => "-",
                    BinOp::Mul => "*",
                    BinOp::Div => "/",
                    BinOp::Rem => "%",
                    BinOp::Eq => "==",
                    BinOp::Ne => "!=",
                    BinOp::Lt => "<",
                    BinOp::Le => "<=",
                    BinOp::Gt => ">",
                    BinOp::Ge => ">=",
                    BinOp::And => "&&",
                    BinOp::Or => "||",
                };
                assert(sym@ == binop_sym(*op));
                let mut r = String::new();
                push_str(&mut r, "(");
                push_str(&mut r, l.as_str());
                push_str(&mut r, " ");
                push_str(&mut r, sym);
                push_str(&mut r, " ");
                push_str(&mut r, rr.as_str());
                push_str(&mut r, ")");
                assert(r@ =~= c_rvalue(pool, *rv));
                r
            },
            _ => {
                let mut r = String::new();
                push_str(&mut r, "0");
                assert(r@ =~= c_rvalue(pool, *rv));
                r
            },
        }
    }

    fn emit_operand_place(&mut self, op: &OperandPlace) -> (r: String)
        requires
            strs_in(old(self).pool(), op_place_strs(*op)),
        ensures
            r@ == c_operand_place(old(self).pool(), *op),
            final(self).strings@ == old(self).strings@,
            final(self).out@ == old(self).out@,
            final(self).types == old(self).types,
            final(self).resolution == old(self).resolution,
    {
        let ghost pool = self.pool();
        let mut r = String::new();
        match op {
            OperandPlace::Place(p) => {
                push_str(&mut r, "_");
                push_dec(&mut r, p.local.0 as u128);
            },
            OperandPlace::ConstInt(n) => push_int(&mut r, *n),
            OperandPlace::ConstBool(b) => push_str(&mut r, if *b { "1" } else { "0" }),
            OperandPlace::ConstStr(s) => {
                assert(op_place_strs(*op)[0] == s@);
                let idx = self.intern_string(s.as_str());
                push_str(&mut r, "rpy_str_");
                push_dec(&mut r, idx as u128);
            },
        }
        assert(r@ =~= c_operand_place(pool, *op));
        r
    }

    fn operand_place_ty(&self, op: &OperandPlace, body: &MirBody) -> (k: TyKind)
        requires
            op matches OperandPlace::Place(p) ==> p.local.0 < body.locals@.len() && body.locals@[p.local.0 as int].ty.0
                < self.tys().len(),
        ensures
            k == op_place_kind(self.tys(), *body, *op),
    {
        match op {
            OperandPlace::Place(p) => self.types.kind(body.local_ty(p.local)),
            OperandPlace::ConstBool(_) => TyKind::Bool,
            OperandPlace::ConstInt(_) => TyKind::Int,
            OperandPlace::ConstStr(_) => TyKind::Str,
        }
    }

    fn mangle(&self, name: &str) -> (r: String)
        ensures
            r@ == mangled(name@),
    {
        let mut r = String::new();
        push_str(&mut r, "_rpy__");
        push_str(&mut r, name);
        assert(r@ =~= "_rpy__"@ + name@);
        r
    }

    fn emit_call(&mut self, func: &FnOperand, args: &Vec<OperandPlace>, body: &MirBody)
        requires
            strs_in(old(self).pool(), args_strs(args@)),
            func matches FnOperand::Def(d) && d == old(self).resolution.print && args@.len() > 0 ==> (
            args@[0] matches OperandPlace::Place(p) ==> p.local.0 < body.locals@.len() && body.locals@[p.local.0 as int].ty.0
                < old(self).tys().len()),
        ensures
            final(self).out@ == old(self).out@ + c_call(old(self).tys(), old(self).pool(), *old(self).resolution, *body, *func, args@),
            final(self).strings@ == old(self).strings@,
            final(self).types == old(self).types,
            final(self).resolution == old(self).resolution,
    {
        let ghost pool = self.pool();
        let ghost o0 = self.out@;
        let def = match func {
            FnOperand::Def(d) => *d,
            FnOperand::Place(_) => {
                assert(self.out@ =~= o0 + c_call(self.tys(), pool, *self.resolution, *body, *func, args@));
                return;
            },
        };
        if def == self.resolution.print {
            if args.len() > 0 {
                proof {
                    lemma_args_strs_in(pool, args@, 0);
                }
                let op = self.emit_operand_place(&args[0]);
                let ty = self.operand_place_ty(&args[0], body);
                match ty {
                    TyKind::Str => {
                        push_str(&mut self.out, "  rpy_print_str(");
                        push_str(&mut self.out, op.as_str());
                        push_str(&mut self.out, ".ptr, ");
                        push_str(&mut self.out, op.as_str());
                        push_str(&mut self.out, ".len); rpy_print_newline();\n");
                    },
                    TyKind::Bool => {
                        push_str(&mut self.out, "  rpy_print_bool((int8_t)");
                        push_str(&mut self.out, op.as_str());
                        push_str(&mut self.out, "); rpy_print_newline();\n");
                    },
                    _ => {
                        push_str(&mut self.out, "  rpy_print_int(");
                        push_str(&mut self.out, op.as_str());
                        push_str(&mut self.out, "); rpy_print_newline();\n");
                    },
                }
            } else {
                push_str(&mut self.out, "  rpy_print_newline();\n");
            }
            assert(self.out@ =~= o0 + c_call(self.tys(), pool, *self.resolution, *body, *func, args@));
            return;
        }
        let name = match self.resolution.name(def) {
            Some(n) => self.mangle(n.as_str()),
            None => self.mangle("unknown"),
        };
        push_str(&mut self.out, "  ");
        push_str(&mut self.out, name.as_str());
        push_str(&mut self.out, "();\n");
        assert(self.out@ =~= o0 + c_call(self.tys(), pool, *self.resolution, *body, *func, args@));
    }

    fn emit_goto(&mut self, t: BlockId)
        ensures
            final(self).out@ == old(self).out@ + goto_text(t),
            final(self).strings@ == old(self).strings@,
            final(self).types == old(self).types,
            final(self).resolution == old(self).resolution,
    {
        let ghost o0 = self.out@;
        push_str(&mut self.out, "  goto bb");
        push_dec(&mut self.out, t.0 as u128);
        push_str(&mut self.out, ";\n");
        assert(self.out@ =~= o0 + goto_text(t));
    }

    #[verifier::rlimit(50)]
    fn emit_terminator(&mut self, t: &Terminator, body: &MirBody)
        requires
            term_ready(old(self).tys().len(), old(self).resolution.print, *body, *t),
            strs_in(old(self).pool(), term_strs(*t)),
        ensures
            final(self).out@ == old(self).out@ + c_term(old(self).tys(), old(self).pool(), *old(self).resolution, *body, *t),
            final(self).strings@ == old(self).strings@,
            final(self).types == old(self).types,
            final(self).resolution == old(self).resolution,
    {
        let ghost pool = self.pool();
        let ghost o0 = self.out@;
        match &t.kind {
            TerminatorKind::Goto { target } => self.emit_goto(*target),
            TerminatorKind::Return => push_str(&mut self.out, "  return (int)_0;\n"),
            TerminatorKind::SwitchInt { discr, targets, otherwise } => {
                let d = self.emit_operand_place(discr);
                let ghost o1 = self.out@;
                let mut i: usize = 0;
                while i < targets.len()
                    invariant
                        i <= targets@.len(),
                        self.out@ == o1 + c_switch_arms(d@, targets@.subrange(0, i as int)),
                        self.strings@ == old(self).strings@,
                        self.types == old(self).types,
                        self.resolution == old(self).resolution,
                    decreases targets@.len() - i,
                {
                    let (val, tgt) = targets[i];
                    push_str(&mut self.out, "  if (");
                    push_str(&mut self.out, d.as_str());
                    push_str(&mut self.out, " == ");
                    push_dec(&mut self.out, val);
                    push_str(&mut self.out, ") goto bb");
                    push_dec(&mut self.out, tgt.0 as u128);
                    push_str(&mut self.out, ";\n");
                    proof {
                        assert(targets@.subrange(0, i + 1).drop_last() =~= targets@.subrange(0, i as int));
                    }
                    i = i + 1;
                    assert(self.out@ =~= o1 + c_switch_arms(d@, targets@.subrange(0, i as int)));
                }
                assert(targets@.subrange(0, targets@.len() as int) =~= targets@);
                self.emit_goto(*otherwise);
            },
            TerminatorKind::Call { func, args, target, .. } => {
                self.emit_call(func, args, body);
                self.emit_goto(*target);
            },
            TerminatorKind::Unreachable => push_str(&mut self.out, "  rpy_panic(\"unreachable\", 11);\n"),
            TerminatorKind::Drop { target, .. } => self.emit_goto(*target),
        }
        assert(self.out@ =~= o0 + c_term(self.tys(), pool, *self.resolution, *body, *t));
    }

    fn emit_block(&mut self, bb: &BasicBlock, body: &MirBody)
        requires
            block_ready(old(self).tys().len(), old(self).resolution.print, *body, *bb),
            strs_in(old(self).pool(), stmts_strs(bb.statements@)),
            strs_in(old(self).pool(), term_strs(bb.terminator)),
        ensures
            final(self).out@ == old(self).out@ + c_stmts(old(self).tys(), old(self).pool(), *body, bb.statements@) + c_term(
                old(self).tys(),
                old(self).pool(),
                *old(self).resolution,
                *body,
                bb.terminator,
            ),
            final(self).strings@ == old(self).strings@,
            final(self).types == old(self).types,
            final(self).resolution == old(self).resolution,
    {
        let ghost pool = self.pool();
        let ghost tys = self.tys();
        let ghost o0 = self.out@;
        let mut k: usize = 0;
        while k < bb.statements.len()
            invariant
                k <= bb.statements@.len(),
                self.out@ == o0 + c_stmts(tys, pool, *body, bb.statements@.subrange(0, k as int)),
                self.strings@ == old(self).strings@,
                self.types == old(self).types,
                self.resolution == old(self).resolution,
                pool == self.pool(),
                tys == self.tys(),
                block_ready(tys.len(), self.resolution.print, *body, *bb),
                strs_in(pool, stmts_strs(bb.statements@)),
            decreases bb.statements@.len() - k,
        {
            let ghost o1 = self.out@;
            if let StatementKind::Assign { place, rvalue } = &bb.statements[k].kind {
                proof {
                    lemma_stmts_strs_in(pool, bb.statements@, k as int);
                    assert(stmt_ready(tys.len(), *body, bb.statements@[k as int]));
                }
                let rhs = self.emit_rvalue(rvalue);
                let c_ty = self.c_type(body.local_ty(place.local));
                push_str(&mut self.out, "  ");
                push_str(&mut self.out, c_ty);
                push_str(&mut self.out, " ");
                push_str(&mut self.out, "_");
                push_dec(&mut self.out, place.local.0 as u128);
                push_str(&mut self.out, " = ");
                push_str(&mut self.out, rhs.as_str());
                push_str(&mut self.out, ";\n");
                assert(self.out@ =~= o1 + c_stmt(tys, pool, *body, bb.statements@[k as int]));
            } else {
                assert(self.out@ =~= o1 + c_stmt(tys, pool, *body, bb.statements@[k as int]));
            }
            proof {
                assert(bb.statements@.subrange(0, k + 1).drop_last() =~= bb.statements@.subrange(0, k as int));
            }
            k = k + 1;
            assert(self.out@ =~= o0 + c_stmts(tys, pool, *body, bb.statements@.subrange(0, k as int)));
        }
        assert(bb.statements@.subrange(0, bb.statements@.len() as int) =~= bb.statements@);
        self.emit_terminator(&bb.terminator, body);
    }

    fn emit_function(&mut self, body: &MirBody)
        requires
            body_ready(old(self).tys().len(), old(self).resolution.print, *body),
            strs_in(old(self).pool(), blocks_strs(body.blocks@)),
        ensures
            final(self).out@ == old(self).out@ + c_function(old(self).tys(), old(self).pool(), *old(self).resolution, *body),
            final(self).strings@ == old(self).strings@,
            final(self).types == old(self).types,
            final(self).resolution == old(self).resolution,
    {
        let ghost pool = self.pool();
        let ghost tys = self.tys();
        let ghost o0 = self.out@;
        let ret = self.c_type(body.return_ty);
        let name = self.mangle(body.name.as_str());
        push_str(&mut self.out, ret);
        push_str(&mut self.out, " ");
        push_str(&mut self.out, name.as_str());
        push_str(&mut self.out, "(void) {\n");
        let ghost o1 = self.out@;
        let mut j: usize = 0;
        while j < body.blocks.len()
            invariant
                j <= body.blocks@.len(),
                self.out@ == o1 + c_blocks(tys, pool, *self.resolution, *body, body.blocks@.subrange(0, j as int)),
                self.strings@ == old(self).strings@,
                self.types == old(self).types,
                self.resolution == old(self).resolution,
                pool == self.pool(),
                tys == self.tys(),
                body_ready(tys.len(), self.resolution.print, *body),
                strs_in(pool, blocks_strs(body.blocks@)),
            decreases body.blocks@.len() - j,
        {
            let ghost o2 = self.out@;
            proof {
                lemma_blocks_strs_in(pool, body.blocks@, j as int);
                assert(block_ready(tys.len(), self.resolution.print, *body, body.blocks@[j as int]));
            }
            push_str(&mut self.out, "bb");
            push_dec(&mut self.out, j as u128);
            push_str(&mut self.out, ": {\n");
            self.emit_block(&body.blocks[j], body);
            push_str(&mut self.out, "}\n");
            proof {
                assert(self.out@ =~= o2 + c_block(tys, pool, *self.resolution, *body, j as nat, body.blocks@[j as int]));
                assert(body.blocks@.subrange(0, j + 1).drop_last() =~= body.blocks@.subrange(0, j as int));
            }
            j = j + 1;
            assert(self.out@ =~= o1 + c_blocks(tys, pool, *self.resolution, *body, body.blocks@.subrange(0, j as int)));
        }
        assert(body.blocks@.subrange(0, body.blocks@.len() as int) =~= body.blocks@);
        push_str(&mut self.out, "}\n\n");
        assert(self.out@ =~= o0 + c_function(tys, pool, *self.resolution, *body));
    }

    fn emit_string_pool(&mut self)
        ensures
            final(self).out@ == old(self).out@ + c_pool(old(self).pool()),
            final(self).strings@ == old(self).strings@,
            final(self).types == old(self).types,
            final(self).resolution == old(self).resolution,
    {
        let ghost pool = self.pool();
        let ghost o0 = self.out@;
        let mut i: usize = 0;
        while i < self.strings.len()
            invariant
                i <= self.strings@.len(),
                self.out@ == o0 + c_pool(pool.subrange(0, i as int)),
                self.strings@ == old(self).strings@,
                self.types == old(self).types,
                self.resolution == old(self).resolution,
                pool == self.pool(),
            decreases self.strings@.len() - i,
        {
            let ghost o1 = self.out@;
            let escaped = escape_c(self.strings[i].as_str());
            let len = self.strings[i].as_str().len();
            push_str(&mut self.out, "static const char rpy_str_lit_");
            push_dec(&mut self.out, i as u128);
            push_str(&mut self.out, "[] = \"");
            push_str(&mut self.out, escaped.as_str());
            push_str(&mut self.out, "\";\n");
            push_str(&mut self.out, "static const rpy_str rpy_str_");
            push_dec(&mut self.out, i as u128);
            push_str(&mut self.out, " = { rpy_str_lit_");
            push_dec(&mut self.out, i as u128);
            push_str(&mut self.out, ", ");
            push_dec(&mut self.out, len as u128);
            push_str(&mut self.out, " };\n");
            proof {
                assert(pool[i as int] == self.strings@[i as int]@);
                assert(self.out@ =~= o1 + c_pool_entry(i as nat, pool[i as int]));
                assert(pool.subrange(0, i + 1).drop_last() =~= pool.subrange(0, i as int));
            }
            i = i + 1;
            assert(self.out@ =~= o0 + c_pool(pool.subrange(0, i as int)));
        }
        assert(pool.subrange(0, pool.len() as int) =~= pool);
    }

    fn emit_main_wrapper(&mut self, mir: &MirCrate)
        ensures
            final(self).out@ == old(self).out@ + if has_main(mir.funcs()) {
                MAIN_WRAPPER@
            } else {
                Seq::empty()
            },
            final(self).strings@ == old(self).strings@,
            final(self).types == old(self).types,
            final(self).resolution == old(self).resolution,
    {
        let n = mir.function_count();
        let ghost fs = mir.funcs();
        let mut found = false;
        let mut i: usize = 0;
        while i < n && !found
            invariant
                i <= n,
                n == fs.len(),
                fs == mir.funcs(),
                found ==> has_main(fs),
                !found ==> forall|j: int| 0 <= j < i ==> fs[j].1.name@ != "main"@,
            decreases n - i,
        {
            if str_eq(mir.function_at(i).name.as_str(), "main") {
                assert(fs[i as int].1.name@ == "main"@);
                found = true;
            }
            i = i + 1;
        }
        if found {
            push_str(&mut self.out, MAIN_WRAPPER);
        } else {
            assert(!has_main(fs));
            assert(self.out@ =~= self.out@ + Seq::<char>::empty());
        }
    }
}

/// A string as the body of a C string literal.
pub fn escape_c(s: &str) -> (r: String)
    ensures
        r@ == escape_c_text(s@),
{
    let mut out = String::new();
    let n = s.unicode_len();
    let mut i: usize = 0;
    while i < n
        invariant
            n == s@.len(),
            i <= n,
            out@ == escape_c_text(s@.subrange(0, i as int)),
        decreases n - i,
    {
        let ch = s.get_char(i);
        if ch == '\\' {
            push_char(&mut out, '\\');
            push_char(&mut out, '\\');
        } else if ch == '"' {
            push_char(&mut out, '\\');
            push_char(&mut out, '"');
        } else if ch == '\n' {
            push_char(&mut out, '\\');
            push_char(&mut out, 'n');
        } else {
            push_char(&mut out, ch);
        }
        proof {
            assert(s@.subrange(0, i + 1).drop_last() =~= s@.subrange(0, i as int));
        }
        i = i + 1;
        assert(out@ =~= escape_c_text(s@.subrange(0, i as int)));
    }
    assert(s@.subrange(0, n as int) =~= s@);
    out
}

/// Emits the C source of `mir`: the string constants of all bodies are
/// pooled first, then each body becomes a C function.
pub fn compile_crate_to_c(mir: &MirCrate, types: &TypeTable, resolution: &Resolution) -> (out: COutput)
    requires
        crate_ready(*types, *resolution, mir.funcs()),
    ensures
        out.source@ == c_source(types.kinds@, *resolution, mir.funcs()),
{
    let mut emitter = CEmitter { out: String::new(), types, resolution, strings: Vec::new() };
    emitter.emit_preamble();
    let n = mir.function_count();
    let ghost fs = mir.funcs();
    let ghost empty = Seq::<Seq<char>>::empty();
    assert(emitter.pool() =~= empty);
    assert(fs.subrange(0, 0) =~= Seq::<(MirFuncId, MirBody)>::empty());
    let mut i: usize = 0;
    while i < n
        invariant
            i <= n,
            n == fs.len(),
            fs == mir.funcs(),
            emitter.pool() == dedup_into(empty, bodies_strs(fs.subrange(0, i as int))),
            emitter.out@ == PREAMBLE@,
            emitter.types == types,
            emitter.resolution == resolution,
        decreases n - i,
    {
        emitter.collect_strings(mir.function_at(i));
        proof {
            assert(fs.subrange(0, i + 1).drop_last() =~= fs.subrange(0, i as int));
            lemma_dedup_concat(empty, bodies_strs(fs.subrange(0, i as int)), blocks_strs(fs[i as int].1.blocks@));
        }
        i = i + 1;
    }
    assert(fs.subrange(0, n as int) =~= fs);
    let ghost pool = emitter.pool();
    let ghost tys = types.kinds@;
    assert(pool == string_pool(fs));
    proof {
        lemma_dedup_covers(empty, bodies_strs(fs));
    }
    emitter.emit_string_pool();
    let ghost o1 = emitter.out@;
    let mut i: usize = 0;
    while i < n
        invariant
            i <= n,
            n == fs.len(),
            fs == mir.funcs(),
            emitter.pool() == pool,
            emitter.out@ == o1 + c_functions(tys, pool, *resolution, fs.subrange(0, i as int)),
            emitter.types == types,
            emitter.resolution == resolution,
            tys == types.kinds@,
            strs_in(pool, bodies_strs(fs)),
            crate_ready(*types, *resolution, fs),
        decreases n - i,
    {
        proof {
            lemma_bodies_strs_in(pool, fs, i as int);
            assert(body_ready(tys.len(), resolution.print, fs[i as int].1));
        }
        emitter.emit_function(mir.function_at(i));
        proof {
            assert(fs.subrange(0, i + 1).drop_last() =~= fs.subrange(0, i as int));
        }
        i = i + 1;
    }
    assert(fs.subrange(0, n as int) =~= fs);
    emitter.emit_main_wrapper(mir);
    COutput { source: emitter.out }
}

fn local_known(n: usize, b: &MirBody, l: LocalId) -> (r: bool)
    ensures
        r == (l.0 < b.locals@.len() && b.locals@[l.0 as int].ty.0 < n),
{
    l.index() < b.locals.len() && b.locals[l.index()].ty.index() < n
}

fn block_ready_check(n: usize, print: DefId, b: &MirBody, bb: &BasicBlock) -> (r: bool)
    ensures
        r == block_ready(n as nat, print, *b, *bb),
{
    let mut k: usize = 0;
    while k < bb.statements.len()
        invariant
            k <= bb.statements@.len(),
            forall|j: int| 0 <= j < k ==> #[trigger] stmt_ready(n as nat, *b, bb.statements@[j]),
        decreases bb.statements@.len() - k,
    {
        if let StatementKind::Assign { place, .. } = &bb.statements[k].kind {
            if !local_known(n, b, place.local) {
                assert(!stmt_ready(n as nat, *b, bb.statements@[k as int]));
                return false;
            }
        }
        k = k + 1;
    }
    match &bb.terminator.kind {
        TerminatorKind::Call { func: FnOperand::Def(d), args, .. } => {
            if *d == print && args.len() > 0 {
                if let OperandPlace::Place(p) = &args[0] {
                    return local_known(n, b, p.local);
                }
            }
            true
        },
        _ => true,
    }
}

/// Whether `compile_crate_to_c` finds everything it looks up: the types of
/// the return values, of the assigned locals and of what `print` prints,
/// and those locals themselves.
pub fn can_emit_c(mir: &MirCrate, types: &TypeTable, resolution: &Resolution) -> (r: bool)
    ensures
        r == crate_ready(*types, *resolution, mir.funcs()),
{
    let n = types.kinds.len();
    let count = mir.function_count();
    let ghost fs = mir.funcs();
    let mut i: usize = 0;
    while i < count
        invariant
            i <= count,
            count == fs.len(),
            fs == mir.funcs(),
            n == types.kinds@.len(),
            forall|j: int| 0 <= j < i ==> #[trigger] body_ready(n as nat, resolution.print, fs[j].1),
        decreases count - i,
    {
        let b = mir.function_at(i);
        if b.return_ty.index() >= n {
            assert(!body_ready(n as nat, resolution.print, fs[i as int].1));
            return false;
        }
        let mut j: usize = 0;
        while j < b.blocks.len()
            invariant
                j <= b.blocks@.len(),
                i < count,
                count == fs.len(),
                fs == mir.funcs(),
                *b == fs[i as int].1,
                n == types.kinds@.len(),
                b.return_ty.0 < n,
                forall|k: int| 0 <= k < i ==> #[trigger] body_ready(n as nat, resolution.print, fs[k].1),
                forall|k: int| 0 <= k < j ==> #[trigger] block_ready(n as nat, resolution.print, *b, b.blocks@[k]),
            decreases b.blocks@.len() - j,
        {
            if !block_ready_check(n, resolution.print, b, &b.blocks[j]) {
                assert(!body_ready(n as nat, resolution.print, fs[i as int].1));
                return false;
            }
            j = j + 1;
        }
        assert(body_ready(n as nat, resolution.print, fs[i as int].1));
        i = i + 1;
    }
    true
}

proof fn lemma_dedup_distinct(p: Seq<Seq<char>>, occs: Seq<Seq<char>>)
    requires
        p.no_duplicates(),
    ensures
        dedup_into(p, occs).no_duplicates(),
    decreases occs.len(),
{
    if occs.len() > 0 {
        lemma_dedup_distinct(p, occs.drop_last());
        let q = dedup_into(p, occs.drop_last());
        if !q.contains(occs.last()) {
            let r = q.push(occs.last());
            assert forall|i: int, j: int| 0 <= i < r.len() && 0 <= j < r.len() && i != j implies r[i] != r[j] by {
                if i < q.len() && j < q.len() {
                } else if i == q.len() {
                    assert(r[j] == q[j]);
                } else {
                    assert(r[i] == q[i]);
                }
            }
        }
    }
}

/// The string pool holds every string constant of the crate exactly once:
/// each pool entry is declared once, and every constant names one.
pub proof fn string_pool_distinct_and_complete(fs: Seq<(MirFuncId, MirBody)>)
    ensures
        string_pool(fs).no_duplicates(),
        forall|i: int| 0 <= i < bodies_strs(fs).len() ==> string_pool(fs).contains(#[trigger] bodies_strs(fs)[i]),
        forall|i: int| 0 <= i < string_pool(fs).len() ==> bodies_strs(fs).contains(#[trigger] string_pool(fs)[i]),
{
    let e = Seq::<Seq<char>>::empty();
    lemma_dedup_distinct(e, bodies_strs(fs));
    lemma_dedup_covers(e, bodies_strs(fs));
    lemma_dedup_from(e, bodies_strs(fs));
}

proof fn lemma_dedup_from(p: Seq<Seq<char>>, occs: Seq<Seq<char>>)
    ensures
        forall|i: int| 0 <= i < dedup_into(p, occs).len() ==> p.contains(#[trigger] dedup_into(p, occs)[i])
            || occs.contains(dedup_into(p, occs)[i]),
    decreases occs.len(),
{
    if occs.len() > 0 {
        lemma_dedup_from(p, occs.drop_last());
        let q = dedup_into(p, occs.drop_last());
        let r = dedup_into(p, occs);
        assert forall|i: int| 0 <= i < r.len() implies p.contains(#[trigger] r[i]) || occs.contains(r[i]) by {
            if i < q.len() {
                assert(r[i] == q[i]);
                if occs.drop_last().contains(q[i]) {
                    let k = choose|k: int| 0 <= k < occs.drop_last().len() && occs.drop_last()[k] == q[i];
                    assert(occs[k] == q[i]);
                }
            } else {
                assert(r[i] == occs.last());
                assert(occs[occs.len() - 1] == occs.last());
            }
        }
    }
}

proof fn lemma_escape_no_newline(s: Seq<char>)
    ensures
        !escape_c_text(s).contains('\n'),
    decreases s.len(),
{
    if s.len() > 0 {
        lemma_escape_no_newline(s.drop_last());
        let a = escape_c_text(s.drop_last());
        let b = escape_char(s.last());
        assert(escape_c_text(s) == a + b);
        if (a + b).contains('\n') {
            let k = choose|k: int| 0 <= k < (a + b).len() && (a + b)[k] == '\n';
            if k < a.len() {
                assert(a[k] == '\n');
            } else {
                assert(b[k - a.len()] == '\n');
            }
        }
    }
}

/// An escaped string never holds a newline, so the C string literal that
/// holds it stays on one line.
pub proof fn escaped_string_is_one_line(s: Seq<char>)
    ensures
        !escape_c_text(s).contains('\n'),
{
    lemma_escape_no_newline(s);
}

} // verus!
