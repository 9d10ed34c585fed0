//! A textual dump of MIR bodies.

use vstd::prelude::*;

use crate::ids::BlockId;
use crate::mir::body::{BasicBlock, LocalDecl, MirBody, MirCrate};
use crate::mir::operand::{ConstValue, FnOperand, Operand};
use crate::mir::place::{Place, Projection};
use crate::mir::rvalue::{AggregateKind, BinOp, Rvalue, UnaryOp};
use crate::mir::statement::{Statement, StatementKind};
use crate::mir::terminator::{OperandPlace, Terminator, TerminatorKind};
use crate::text::{debug_str_text, dec, dec_int, push_char, push_dec, push_debug_str, push_int, push_str};
use crate::types::Mutability;

verus! {

// ---- the text -------------------------------------------------------------------

pub open spec fn proj_text(p: Projection) -> Seq<char> {
    match p {
        Projection::Field(i) => ".f"@ + dec(i as nat),
        Projection::Index(l) => "[_"@ + dec(l.0 as nat) + "]"@,
        Projection::Deref => ".*"@,
        Projection::Downcast(v) => ":"@ + dec(v as nat),
    }
}

pub open spec fn projs_text(s: Seq<Projection>) -> Seq<char>
    decreases s.len(),
{
    if s.len() == 0 {
        Seq::empty()
    } else {
        projs_text(s.drop_last()) + proj_text(s.last())
    }
}

/// A place as `_n` followed by its projections.
pub open spec fn place_text(p: Place) -> Seq<char> {
    "_"@ + dec(p.local.0 as nat) + projs_text(p.projection@)
}

/// A projection as `{:?}` gives it.
pub open spec fn proj_debug(p: Projection) -> Seq<char> {
    match p {
        Projection::Field(i) => "Field("@ + dec(i as nat) + ")"@,
        Projection::Index(l) => "Index(LocalId("@ + dec(l.0 as nat) + "))"@,
        Projection::Deref => "Deref"@,
        Projection::Downcast(v) => "Downcast("@ + dec(v as nat) + ")"@,
    }
}

pub open spec fn projs_debug(s: Seq<Projection>) -> Seq<char>
    decreases s.len(),
{
    if s.len() == 0 {
        Seq::empty()
    } else if s.len() == 1 {
        proj_debug(s[0])
    } else {
        projs_debug(s.drop_last()) + ", "@ + proj_debug(s.last())
    }
}

/// A place as `{:?}` gives it.
pub open spec fn place_debug(p: Place) -> Seq<char> {
    "Place { local: LocalId("@ + dec(p.local.0 as nat) + "), projection: ["@ + projs_debug(p.projection@) + "] }"@
}

pub open spec fn const_text(c: ConstValue) -> Seq<char> {
    match c {
        ConstValue::Int(n) => "const "@ + dec_int(n as int),
        ConstValue::Bool(b) => "const "@ + if b { "true"@ } else { "false"@ },
        ConstValue::Float(s) => "const "@ + s@,
        ConstValue::Unit => "const ()"@,
        ConstValue::ZeroSized => "const ZST"@,
        ConstValue::Str(s) => "const \""@ + s@ + "\""@,
    }
}

pub open spec fn operand_text(op: Operand) -> Seq<char> {
    match op {
        Operand::Copy(p) => place_text(p),
        Operand::Move(p) => place_text(p),
        Operand::Constant(c) => const_text(c),
    }
}

pub open spec fn operands_text(s: Seq<Operand>) -> Seq<char>
    decreases s.len(),
{
    if s.len() == 0 {
        Seq::empty()
    } else if s.len() == 1 {
        operand_text(s[0])
    } else {
        operands_text(s.drop_last()) + ", "@ + operand_text(s.last())
    }
}

pub open spec fn unop_debug(op: UnaryOp) -> Seq<char> {
    match op {
        UnaryOp::Not => "Not"@,
        UnaryOp::Neg => "Neg"@,
    }
}

pub open spec fn binop_debug(op: BinOp) -> Seq<char> {
    match op {
        BinOp::Add => "Add"@,
        BinOp::Sub => "Sub"@,
        BinOp::Mul => "Mul"@,
        BinOp::Div => "Div"@,
        BinOp::Rem => "Rem"@,
        BinOp::Eq => "Eq"@,
        BinOp::Ne => "Ne"@,
        BinOp::Lt => "Lt"@,
        BinOp::Le => "Le"@,
        BinOp::Gt => "Gt"@,
        BinOp::Ge => "Ge"@,
        BinOp::And => "And"@,
        BinOp::Or => "Or"@,
    }
}

/// The dump tells the unary operators apart: `Not` and `Neg`.
pub proof fn unary_operators_print_apart(x: UnaryOp, y: UnaryOp)
    ensures
        unop_debug(x) == unop_debug(y) ==> x == y,
        unop_debug(UnaryOp::Not) == "Not"@ && unop_debug(UnaryOp::Neg) == "Neg"@,
{
    reveal_strlit("Not");
    reveal_strlit("Neg");
    if unop_debug(x) == unop_debug(y) {
        assert(unop_debug(x)[1] == unop_debug(y)[1]);
    }
}

/// The dump tells the binary operators apart: no two print alike. Each
/// prints as its variant is named: `Add`, `Sub`, `Mul`, `Div`, `Rem`, `Eq`,
/// `Ne`, `Lt`, `Le`, `Gt`, `Ge`, `And`, `Or`.
pub proof fn binary_operators_print_apart(x: BinOp, y: BinOp)
    ensures
        binop_debug(x) == binop_debug(y) ==> x == y,
        binop_debug(BinOp::Add) == "Add"@ && binop_debug(BinOp::Sub) == "Sub"@ && binop_debug(BinOp::Mul) == "Mul"@
            && binop_debug(BinOp::Div) == "Div"@ && binop_debug(BinOp::Rem) == "Rem"@,
        binop_debug(BinOp::Eq) == "Eq"@ && binop_debug(BinOp::Ne) == "Ne"@ && binop_debug(BinOp::Lt) == "Lt"@
            && binop_debug(BinOp::Le) == "Le"@ && binop_debug(BinOp::Gt) == "Gt"@ && binop_debug(BinOp::Ge) == "Ge"@,
        binop_debug(BinOp::And) == "And"@ && binop_debug(BinOp::Or) == "Or"@,
{
    reveal_strlit("Add");
    reveal_strlit("Sub");
    reveal_strlit("Mul");
    reveal_strlit("Div");
    reveal_strlit("Rem");
    reveal_strlit("Eq");
    reveal_strlit("Ne");
    reveal_strlit("Lt");
    reveal_strlit("Le");
    reveal_strlit("Gt");
    reveal_strlit("Ge");
    reveal_strlit("And");
    reveal_strlit("Or");
    if binop_debug(x) == binop_debug(y) {
        let s = binop_debug(x);
        assert(s.len() == binop_debug(y).len());
        assert(s[0] == binop_debug(y)[0]);
        assert(s[1] == binop_debug(y)[1]);
        if s.len() == 3 {
            assert(s[2] == binop_debug(y)[2]);
        }
    }
}

pub open spec fn aggregate_debug(k: AggregateKind) -> Seq<char> {
    match k {
        AggregateKind::Tuple => "Tuple"@,
        AggregateKind::Struct(d) => "Struct(DefId("@ + dec(d.0 as nat) + "))"@,
        AggregateKind::Enum(d, v) => "Enum(DefId("@ + dec(d.0 as nat) + "), "@ + dec(v as nat) + ")"@,
        AggregateKind::Array(t) => "Array(TypeId("@ + dec(t.0 as nat) + "))"@,
    }
}

pub open spec fn mut_debug(m: Mutability) -> Seq<char> {
    match m {
        Mutability::Imm => "Imm"@,
        Mutability::Mut => "Mut"@,
    }
}

pub open spec fn rvalue_text(rv: Rvalue) -> Seq<char> {
    match rv {
        Rvalue::Use(op) => operand_text(op),
        Rvalue::UnaryOp { op, operand } => unop_debug(op) + " "@ + operand_text(operand),
        Rvalue::BinaryOp { op, left, right } => operand_text(left) + " "@ + binop_debug(op) + " "@ + operand_text(right),
        Rvalue::Aggregate { kind, ops } => "Aggregate("@ + aggregate_debug(kind) + ", ["@ + operands_text(ops@) + "])"@,
        Rvalue::Ref { mutability, place, .. } => "&"@ + mut_debug(mutability) + " "@ + place_text(place),
        Rvalue::Len(p) => "len("@ + place_text(p) + ")"@,
        Rvalue::Cast { operand, .. } => "cast("@ + operand_text(operand) + ")"@,
        Rvalue::Discriminant(p) => "discriminant("@ + place_text(p) + ")"@,
    }
}

pub open spec fn op_place_text(op: OperandPlace) -> Seq<char> {
    match op {
        OperandPlace::Place(p) => place_text(p),
        OperandPlace::ConstInt(n) => dec_int(n as int),
        OperandPlace::ConstBool(b) => if b { "true"@ } else { "false"@ },
        OperandPlace::ConstStr(s) => "\""@ + s@ + "\""@,
    }
}

pub open spec fn op_places_text(s: Seq<OperandPlace>) -> Seq<char>
    decreases s.len(),
{
    if s.len() == 0 {
        Seq::empty()
    } else if s.len() == 1 {
        op_place_text(s[0])
    } else {
        op_places_text(s.drop_last()) + ", "@ + op_place_text(s.last())
    }
}

/// One switch target as `{:?}` gives the string `v: bbN`.
pub open spec fn target_debug(t: (u128, BlockId)) -> Seq<char> {
    debug_str_text(dec(t.0 as nat) + ": bb"@ + dec(t.1 .0 as nat))
}

pub open spec fn targets_debug(s: Seq<(u128, BlockId)>) -> Seq<char>
    decreases s.len(),
{
    if s.len() == 0 {
        Seq::empty()
    } else if s.len() == 1 {
        target_debug(s[0])
    } else {
        targets_debug(s.drop_last()) + ", "@ + target_debug(s.last())
    }
}

pub open spec fn fn_operand_debug(f: FnOperand) -> Seq<char> {
    match f {
        FnOperand::Def(d) => "Def(DefId("@ + dec(d.0 as nat) + "))"@,
        FnOperand::Place(p) => "Place("@ + place_debug(p) + ")"@,
    }
}

pub open spec fn dest_debug(d: Option<Place>) -> Seq<char> {
    match d {
        Some(p) => "Some("@ + place_debug(p) + ")"@,
        None => "None"@,
    }
}

/// The line of a statement, with its newline.
pub open spec fn stmt_text(s: Statement) -> Seq<char> {
    "      "@ + match s.kind {
        StatementKind::Assign { place, rvalue } => place_text(place) + " = "@ + rvalue_text(rvalue),
        StatementKind::StorageLive(l) => "StorageLive(_"@ + dec(l.0 as nat) + ")"@,
        StatementKind::StorageDead(l) => "StorageDead(_"@ + dec(l.0 as nat) + ")"@,
        StatementKind::Deinit(p) => "Deinit("@ + place_text(p) + ")"@,
        StatementKind::Nop => "Nop"@,
    } + "\n"@
}

/// The line of a terminator, with its newline.
pub open spec fn term_text(t: Terminator) -> Seq<char> {
    "      "@ + term_kind_text(t.kind) + "\n"@
}

pub open spec fn call_text(func: FnOperand, args: Seq<OperandPlace>, destination: Option<Place>, target: BlockId) -> Seq<char> {
    "call "@ + fn_operand_debug(func) + "("@ + op_places_text(args) + ") -> "@ + dest_debug(destination) + " -> bb"@
        + dec(target.0 as nat)
}

pub open spec fn term_kind_text(k: TerminatorKind) -> Seq<char> {
    match k {
        TerminatorKind::Goto { target } => "goto -> bb"@ + dec(target.0 as nat),
        TerminatorKind::SwitchInt { discr, targets, otherwise } => "switchInt("@ + op_place_text(discr) + ") -> ["@
            + targets_debug(targets@) + "], otherwise bb"@ + dec(otherwise.0 as nat),
        TerminatorKind::Return => "return"@,
        TerminatorKind::Unreachable => "unreachable"@,
        TerminatorKind::Drop { place, target, .. } => "drop("@ + place_text(place) + ") -> bb"@ + dec(target.0 as nat),
        TerminatorKind::Call { func, args, destination, target, .. } => call_text(func, args@, destination, target),
    }
}

pub open spec fn stmts_text(s: Seq<Statement>) -> Seq<char>
    decreases s.len(),
{
    if s.len() == 0 {
        Seq::empty()
    } else {
        stmts_text(s.drop_last()) + stmt_text(s.last())
    }
}

pub open spec fn block_text(i: nat, bb: BasicBlock) -> Seq<char> {
    "  bb"@ + dec(i) + ":\n"@ + stmts_text(bb.statements@) + term_text(bb.terminator)
}

pub open spec fn blocks_text(s: Seq<BasicBlock>) -> Seq<char>
    decreases s.len(),
{
    if s.len() == 0 {
        Seq::empty()
    } else {
        blocks_text(s.drop_last()) + block_text((s.len() - 1) as nat, s.last())
    }
}

pub open spec fn local_text(i: nat, l: LocalDecl) -> Seq<char> {
    "  _"@ + dec(i) + ": ty=TypeId("@ + dec(l.ty.0 as nat) + ") mut="@ + mut_debug(l.mutability) + "\n"@
}

pub open spec fn locals_text(s: Seq<LocalDecl>) -> Seq<char>
    decreases s.len(),
{
    if s.len() == 0 {
        Seq::empty()
    } else {
        locals_text(s.drop_last()) + local_text((s.len() - 1) as nat, s.last())
    }
}

/// The dump of a body: its name, one line per local, then each block.
pub open spec fn body_text(b: MirBody) -> Seq<char> {
    "fn "@ + b.name@ + ":\n"@ + locals_text(b.locals@) + blocks_text(b.blocks@)
}

/// The dumps of bodies, each followed by an empty line.
pub open spec fn bodies_text(s: Seq<(crate::ids::MirFuncId, MirBody)>) -> Seq<char>
    decreases s.len(),
{
    if s.len() == 0 {
        Seq::empty()
    } else {
        bodies_text(s.drop_last()) + body_text(s.last().1) + "\n"@
    }
}

// ---- the printer ----------------------------------------------------------------

#[verifier::rlimit(50)]
/// The text of a place, as the MIR dump writes it: `_` and the local's
/// number, then its projections.
pub fn place_to_string(p: &Place) -> (s: String)
    ensures
        s@ == place_text(*p),
{
    let mut out = String::new();
    push_place(&mut out, p);
    out
}

fn push_place(out: &mut String, p: &Place)
    ensures
        final(out)@ == old(out)@ + place_text(*p),
{
    push_str(out, "_");
    push_dec(out, p.local.0 as u128);
    let ghost start = out@;
    let mut i: usize = 0;
    while i < p.projection.len()
        invariant
            i <= p.projection@.len(),
            out@ == start + projs_text(p.projection@.subrange(0, i as int)),
        decreases p.projection@.len() - i,
    {
        match p.projection[i] {
            Projection::Field(f) => {
                push_str(out, ".f");
                push_dec(out, f as u128);
            },
            Projection::Index(l) => {
                push_str(out, "[_");
                push_dec(out, l.0 as u128);
                push_str(out, "]");
            },
            Projection::Deref => push_str(out, ".*"),
            Projection::Downcast(v) => {
                push_str(out, ":");
                push_dec(out, v as u128);
            },
        }
        proof {
            let s = p.projection@.subrange(0, i + 1);
            assert(s.drop_last() =~= p.projection@.subrange(0, i as int));
        }
        i = i + 1;
        assert(out@ =~= start + projs_text(p.projection@.subrange(0, i as int)));
    }
    assert(p.projection@.subrange(0, p.projection@.len() as int) =~= p.projection@);
    assert(final(out)@ =~= old(out)@ + place_text(*p));
}

#[verifier::rlimit(50)]
fn push_place_debug(out: &mut String, p: &Place)
    ensures
        final(out)@ == old(out)@ + place_debug(*p),
{
    push_str(out, "Place { local: LocalId(");
    push_dec(out, p.local.0 as u128);
    push_str(out, "), projection: [");
    let ghost start = out@;
    let mut i: usize = 0;
    while i < p.projection.len()
        invariant
            i <= p.projection@.len(),
            out@ == start + projs_debug(p.projection@.subrange(0, i as int)),
        decreases p.projection@.len() - i,
    {
        if i > 0 {
            push_str(out, ", ");
        }
        match p.projection[i] {
            Projection::Field(f) => {
                push_str(out, "Field(");
                push_dec(out, f as u128);
                push_str(out, ")");
            },
            Projection::Index(l) => {
                push_str(out, "Index(LocalId(");
                push_dec(out, l.0 as u128);
                push_str(out, "))");
            },
            Projection::Deref => push_str(out, "Deref"),
            Projection::Downcast(v) => {
                push_str(out, "Downcast(");
                push_dec(out, v as u128);
                push_str(out, ")");
            },
        }
        proof {
            let s = p.projection@.subrange(0, i + 1);
            assert(s.drop_last() =~= p.projection@.subrange(0, i as int));
        }
        i = i + 1;
        assert(out@ =~= start + projs_debug(p.projection@.subrange(0, i as int)));
    }
    assert(p.projection@.subrange(0, p.projection@.len() as int) =~= p.projection@);
    push_str(out, "] }");
    assert(final(out)@ =~= old(out)@ + place_debug(*p));
}

fn push_const(out: &mut String, c: &ConstValue)
    ensures
        final(out)@ == old(out)@ + const_text(*c),
{
    match c {
        ConstValue::Int(n) => {
            push_str(out, "const ");
            push_int(out, *n);
        },
        ConstValue::Bool(b) => {
            push_str(out, "const ");
            push_str(out, if *b { "true" } else { "false" });
        },
        ConstValue::Float(s) => {
            push_str(out, "const ");
            push_str(out, s.as_str());
        },
        ConstValue::Unit => push_str(out, "const ()"),
        ConstValue::ZeroSized => push_str(out, "const ZST"),
        ConstValue::Str(s) => {
            push_str(out, "const \"");
            push_str(out, s.as_str());
            push_str(out, "\"");
        },
    }
    assert(final(out)@ =~= old(out)@ + const_text(*c));
}

fn push_operand(out: &mut String, op: &Operand)
    ensures
        final(out)@ == old(out)@ + operand_text(*op),
{
    match op {
        Operand::Copy(p) => push_place(out, p),
        Operand::Move(p) => push_place(out, p),
        Operand::Constant(c) => push_const(out, c),
    }
}

fn push_op_place(out: &mut String, op: &OperandPlace)
    ensures
        final(out)@ == old(out)@ + op_place_text(*op),
{
    match op {
        OperandPlace::Place(p) => push_place(out, p),
        OperandPlace::ConstInt(n) => push_int(out, *n),
        OperandPlace::ConstBool(b) => push_str(out, if *b { "true" } else { "false" }),
        OperandPlace::ConstStr(s) => {
            push_str(out, "\"");
            push_str(out, s.as_str());
            push_str(out, "\"");
            assert(final(out)@ =~= old(out)@ + op_place_text(*op));
        },
    }
}

fn push_mut(out: &mut String, m: Mutability)
    ensures
        final(out)@ == old(out)@ + mut_debug(m),
{
    match m {
        Mutability::Imm => push_str(out, "Imm"),
        Mutability::Mut => push_str(out, "Mut"),
    }
}

#[verifier::rlimit(50)]
fn push_rvalue(out: &mut String, rv: &Rvalue)
    ensures
        final(out)@ == old(out)@ + rvalue_text(*rv),
{
    match rv {
        Rvalue::Use(op) => push_operand(out, op),
        Rvalue::UnaryOp { op, operand } => {
            push_str(out, match op {
                UnaryOp::Not => "Not",
                UnaryOp::Neg => "Neg",
            });
            push_str(out, " ");
            push_operand(out, operand);
        },
        Rvalue::BinaryOp { op, left, right } => {
            push_operand(out, left);
            push_str(out, " ");
            push_str(out, match op {
                BinOp::Add => "Add",
                BinOp::Sub => "Sub",
                BinOp::Mul => "Mul",
                BinOp::Div => "Div",
                BinOp::Rem => "Rem",
                BinOp::Eq => "Eq",
                BinOp::Ne => "Ne",
                BinOp::Lt => "Lt",
                BinOp::Le => "Le",
                BinOp::Gt => "Gt",
                BinOp::Ge => "Ge",
                BinOp::And => "And",
                BinOp::Or => "Or",
            });
            push_str(out, " ");
            push_operand(out, right);
        },
        Rvalue::Aggregate { kind, ops } => {
            push_str(out, "Aggregate(");
            match kind {
                AggregateKind::Tuple => push_str(out, "Tuple"),
                AggregateKind::Struct(d) => {
                    push_str(out, "Struct(DefId(");
                    push_dec(out, d.0 as u128);
                    push_str(out, "))");
                },
                AggregateKind::Enum(d, v) => {
                    push_str(out, "Enum(DefId(");
                    push_dec(out, d.0 as u128);
                    push_str(out, "), ");
                    push_dec(out, *v as u128);
                    push_str(out, ")");
                },
                AggregateKind::Array(t) => {
                    push_str(out, "Array(TypeId(");
                    push_dec(out, t.0 as u128);
                    push_str(out, "))");
                },
            }
            push_str(out, ", [");
            let ghost start = out@;
            let mut i: usize = 0;
            while i < ops.len()
                invariant
                    i <= ops@.len(),
                    out@ == start + operands_text(ops@.subrange(0, i as int)),
                decreases ops@.len() - i,
            {
                if i > 0 {
                    push_str(out, ", ");
                }
                push_operand(out, &ops[i]);
                proof {
                    let s = ops@.subrange(0, i + 1);
                    assert(s.drop_last() =~= ops@.subrange(0, i as int));
                }
                i = i + 1;
                assert(out@ =~= start + operands_text(ops@.subrange(0, i as int)));
            }
            assert(ops@.subrange(0, ops@.len() as int) =~= ops@);
            push_str(out, "])");
        },
        Rvalue::Ref { mutability, place, .. } => {
            push_str(out, "&");
            push_mut(out, *mutability);
            push_str(out, " ");
            push_place(out, place);
        },
        Rvalue::Len(p) => {
            push_str(out, "len(");
            push_place(out, p);
            push_str(out, ")");
        },
        Rvalue::Cast { operand, .. } => {
            push_str(out, "cast(");
            push_operand(out, operand);
            push_str(out, ")");
        },
        Rvalue::Discriminant(p) => {
            push_str(out, "discriminant(");
            push_place(out, p);
            push_str(out, ")");
        },
    }
    assert(final(out)@ =~= old(out)@ + rvalue_text(*rv));
}

/// Printer of one MIR body.
pub struct MirPrinter<'a> {
    body: &'a MirBody,
    out: String,
}

impl<'a> MirPrinter<'a> {
    pub fn new(body: &'a MirBody) -> (p: MirPrinter<'a>)
        ensures
            p.spec_body() == *body,
            p.spec_out() == Seq::<char>::empty(),
    {
        MirPrinter { body, out: String::new() }
    }

    pub closed spec fn spec_body(&self) -> MirBody {
        *self.body
    }

    pub closed spec fn spec_out(&self) -> Seq<char> {
        self.out@
    }

    /// The dump of the body after what was printed already.
#[verifier::rlimit(50)]
    pub fn print(self) -> (s: String)
        ensures
            s@ == self.spec_out() + body_text(self.spec_body()),
    {
        let mut out = self.out;
        let body = self.body;
        push_str(&mut out, "fn ");
        push_str(&mut out, body.name.as_str());
        push_str(&mut out, ":\n");
        let ghost s1 = out@;
        let mut i: usize = 0;
        while i < body.locals.len()
            invariant
                i <= body.locals@.len(),
                out@ == s1 + locals_text(body.locals@.subrange(0, i as int)),
            decreases body.locals@.len() - i,
        {
            let l = &body.locals[i];
            push_str(&mut out, "  _");
            push_dec(&mut out, i as u128);
            push_str(&mut out, ": ty=TypeId(");
            push_dec(&mut out, l.ty.0 as u128);
            push_str(&mut out, ") mut=");
            push_mut(&mut out, l.mutability);
            push_str(&mut out, "\n");
            proof {
                let s = body.locals@.subrange(0, i + 1);
                assert(s.drop_last() =~= body.locals@.subrange(0, i as int));
            }
            i = i + 1;
            assert(out@ =~= s1 + locals_text(body.locals@.subrange(0, i as int)));
        }
        assert(body.locals@.subrange(0, body.locals@.len() as int) =~= body.locals@);
        let ghost s2 = out@;
        let mut j: usize = 0;
        while j < body.blocks.len()
            invariant
                j <= body.blocks@.len(),
                out@ == s2 + blocks_text(body.blocks@.subrange(0, j as int)),
            decreases body.blocks@.len() - j,
        {
            print_block(&mut out, j, &body.blocks[j]);
            proof {
                let s = body.blocks@.subrange(0, j + 1);
                assert(s.drop_last() =~= body.blocks@.subrange(0, j as int));
            }
            j = j + 1;
            assert(out@ =~= s2 + blocks_text(body.blocks@.subrange(0, j as int)));
        }
        assert(body.blocks@.subrange(0, body.blocks@.len() as int) =~= body.blocks@);
        assert(out@ =~= self.spec_out() + body_text(self.spec_body()));
        out
    }
}

fn print_block(out: &mut String, id: usize, bb: &BasicBlock)
    ensures
        final(out)@ == old(out)@ + block_text(id as nat, *bb),
{
    push_str(out, "  bb");
    push_dec(out, id as u128);
    push_str(out, ":\n");
    let ghost s1 = out@;
    let mut i: usize = 0;
    while i < bb.statements.len()
        invariant
            i <= bb.statements@.len(),
            out@ == s1 + stmts_text(bb.statements@.subrange(0, i as int)),
        decreases bb.statements@.len() - i,
    {
        print_stmt(out, &bb.statements[i]);
        proof {
            let s = bb.statements@.subrange(0, i + 1);
            assert(s.drop_last() =~= bb.statements@.subrange(0, i as int));
        }
        i = i + 1;
        assert(out@ =~= s1 + stmts_text(bb.statements@.subrange(0, i as int)));
    }
    assert(bb.statements@.subrange(0, bb.statements@.len() as int) =~= bb.statements@);
    print_term(out, &bb.terminator);
    assert(final(out)@ =~= old(out)@ + block_text(id as nat, *bb));
}

fn print_stmt(out: &mut String, stmt: &Statement)
    ensures
        final(out)@ == old(out)@ + stmt_text(*stmt),
{
    push_str(out, "      ");
    match &stmt.kind {
        StatementKind::Assign { place, rvalue } => {
            push_place(out, place);
            push_str(out, " = ");
            push_rvalue(out, rvalue);
        },
        StatementKind::StorageLive(l) => {
            push_str(out, "StorageLive(_");
            push_dec(out, l.0 as u128);
            push_str(out, ")");
        },
        StatementKind::StorageDead(l) => {
            push_str(out, "StorageDead(_");
            push_dec(out, l.0 as u128);
            push_str(out, ")");
        },
        StatementKind::Deinit(p) => {
            push_str(out, "Deinit(");
            push_place(out, p);
            push_str(out, ")");
        },
        StatementKind::Nop => push_str(out, "Nop"),
    }
    push_str(out, "\n");
    assert(final(out)@ =~= old(out)@ + stmt_text(*stmt));
}

fn push_targets(out: &mut String, targets: &Vec<(u128, BlockId)>)
    ensures
        final(out)@ == old(out)@ + targets_debug(targets@),
{
    let ghost start = out@;
    let mut i: usize = 0;
    while i < targets.len()
        invariant
            i <= targets@.len(),
            out@ == start + targets_debug(targets@.subrange(0, i as int)),
        decreases targets@.len() - i,
    {
        if i > 0 {
            push_str(out, ", ");
        }
        let mut item = String::new();
        push_dec(&mut item, targets[i].0);
        push_str(&mut item, ": bb");
        push_dec(&mut item, targets[i].1 .0 as u128);
        push_debug_str(out, item.as_str());
        proof {
            let s = targets@.subrange(0, i + 1);
            assert(s.drop_last() =~= targets@.subrange(0, i as int));
            assert(item@ =~= dec(targets@[i as int].0 as nat) + ": bb"@ + dec(targets@[i as int].1 .0 as nat));
        }
        i = i + 1;
        assert(out@ =~= start + targets_debug(targets@.subrange(0, i as int)));
    }
    assert(targets@.subrange(0, targets@.len() as int) =~= targets@);
}

fn push_op_places(out: &mut String, args: &Vec<OperandPlace>)
    ensures
        final(out)@ == old(out)@ + op_places_text(args@),
{
    let ghost start = out@;
    let mut i: usize = 0;
    while i < args.len()
        invariant
            i <= args@.len(),
            out@ == start + op_places_text(args@.subrange(0, i as int)),
        decreases args@.len() - i,
    {
        if i > 0 {
            push_str(out, ", ");
        }
        push_op_place(out, &args[i]);
        proof {
            let s = args@.subrange(0, i + 1);
            assert(s.drop_last() =~= args@.subrange(0, i as int));
        }
        i = i + 1;
        assert(out@ =~= start + op_places_text(args@.subrange(0, i as int)));
    }
    assert(args@.subrange(0, args@.len() as int) =~= args@);
}

#[verifier::rlimit(50)]
fn push_call(out: &mut String, func: &FnOperand, args: &Vec<OperandPlace>, destination: &Option<Place>, target: BlockId)
    ensures
        final(out)@ == old(out)@ + call_text(*func, args@, *destination, target),
{
    push_str(out, "call ");
    match func {
        FnOperand::Def(d) => {
            push_str(out, "Def(DefId(");
            push_dec(out, d.0 as u128);
            push_str(out, "))");
        },
        FnOperand::Place(p) => {
            push_str(out, "Place(");
            push_place_debug(out, p);
            push_str(out, ")");
        },
    }
    let ghost s1 = out@;
    assert(s1 == old(out)@ + "call "@ + fn_operand_debug(*func));
    push_str(out, "(");
    push_op_places(out, args);
    push_str(out, ") -> ");
    match destination {
        Some(p) => {
            push_str(out, "Some(");
            push_place_debug(out, p);
            push_str(out, ")");
        },
        None => push_str(out, "None"),
    }
    push_str(out, " -> bb");
    push_dec(out, target.0 as u128);
    assert(final(out)@ =~= old(out)@ + call_text(*func, args@, *destination, target));
}

#[verifier::rlimit(50)]
fn push_term_kind(out: &mut String, kind: &TerminatorKind)
    ensures
        final(out)@ == old(out)@ + term_kind_text(*kind),
{
    match kind {
        TerminatorKind::Goto { target } => {
            push_str(out, "goto -> bb");
            push_dec(out, target.0 as u128);
        },
        TerminatorKind::SwitchInt { discr, targets, otherwise } => {
            push_str(out, "switchInt(");
            push_op_place(out, discr);
            push_str(out, ") -> [");
            push_targets(out, targets);
            push_str(out, "], otherwise bb");
            push_dec(out, otherwise.0 as u128);
        },
        TerminatorKind::Return => push_str(out, "return"),
        TerminatorKind::Unreachable => push_str(out, "unreachable"),
        TerminatorKind::Drop { place, target, .. } => {
            push_str(out, "drop(");
            push_place(out, place);
            push_str(out, ") -> bb");
            push_dec(out, target.0 as u128);
        },
        TerminatorKind::Call { func, args, destination, target, .. } => push_call(out, func, args, destination, *target),
    }
    assert(final(out)@ =~= old(out)@ + term_kind_text(*kind));
}

fn print_term(out: &mut String, term: &Terminator)
    ensures
        final(out)@ == old(out)@ + term_text(*term),
{
    push_str(out, "      ");
    push_term_kind(out, &term.kind);
    push_str(out, "\n");
    assert(final(out)@ =~= old(out)@ + term_text(*term));
}

/// The dump of one body.
pub fn pretty_print_mir(body: &MirBody) -> (s: String)
    ensures
        s@ == body_text(*body),
{
    let p = MirPrinter::new(body);
    p.print()
}

/// The dumps of all bodies of the crate, in order, each followed by an
/// empty line.
pub fn format_mir_crate(crate_: &MirCrate) -> (s: String)
    ensures
        s@ == bodies_text(crate_.funcs()),
{
    let mut out = String::new();
    let n = crate_.function_count();
    let mut i: usize = 0;
    while i < n
        invariant
            i <= n,
            n == crate_.funcs().len(),
            out@ == bodies_text(crate_.funcs().subrange(0, i as int)),
        decreases n - i,
    {
        let body = crate_.function_at(i);
        let text = pretty_print_mir(body);
        push_str(&mut out, text.as_str());
        push_str(&mut out, "\n");
        proof {
            let s = crate_.funcs().subrange(0, i + 1);
            assert(s.drop_last() =~= crate_.funcs().subrange(0, i as int));
            assert(s.last().1 == *body);
        }
        i = i + 1;
        assert(out@ =~= bodies_text(crate_.funcs().subrange(0, i as int)));
    }
    assert(crate_.funcs().subrange(0, n as int) =~= crate_.funcs());
    out
}

} // verus!
