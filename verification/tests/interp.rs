use rpython::borrowck::borrowck_crate;
use rpython::ids::{BlockId, DefId, LocalId, MirFuncId, TypeId};
use rpython::mir::body::{BasicBlock, LocalDecl, MirBody, MirCrate};
use rpython::mir::interp::{can_interpret, interpret, interpret_crate, Outcome};
use rpython::mir::memory::Frame;
use rpython::mir::operand::{ConstValue, FnOperand, Operand};
use rpython::mir::ops::{binary_op, unary_op};
use rpython::mir::place::{Place, Projection};
use rpython::mir::pretty::{format_mir_crate, place_to_string, pretty_print_mir};
use rpython::mir::rvalue::{AggregateKind, BinOp, Rvalue, UnaryOp};
use rpython::mir::statement::{Statement, StatementKind};
use rpython::mir::terminator::{OperandPlace, Terminator, TerminatorKind};
use rpython::mir::value::Value;
use rpython::span::Span;
use rpython::types::Mutability;

fn term(kind: TerminatorKind) -> Terminator {
    Terminator { kind, span: Span::dummy() }
}

fn assign(local: u32, rvalue: Rvalue) -> Statement {
    Statement { kind: StatementKind::Assign { place: Place::local(LocalId(local)), rvalue }, span: Span::dummy() }
}

fn print_call(arg: OperandPlace, target: u32) -> Terminator {
    term(TerminatorKind::Call {
        func: FnOperand::Def(DefId(99)),
        args: vec![arg],
        destination: None,
        target: BlockId(target),
        unwind: None,
    })
}

fn body(name: &str, def: u32, locals: usize, blocks: Vec<BasicBlock>) -> MirBody {
    MirBody {
        name: name.to_string(),
        def_id: DefId(def),
        arg_count: 0,
        return_ty: TypeId(0),
        locals: (0..locals)
            .map(|_| LocalDecl { ty: TypeId(0), mutability: Mutability::Mut, span: Span::dummy() })
            .collect(),
        blocks,
        source_scopes: vec![],
    }
}

fn cint(n: i64) -> Operand {
    Operand::Constant(ConstValue::Int(n))
}

fn one_block_crate(stmts: Vec<Statement>, terminator: Terminator, extra: Vec<BasicBlock>) -> MirCrate {
    let mut blocks = vec![BasicBlock { statements: stmts, terminator }];
    blocks.extend(extra);
    let mut c = MirCrate::new();
    c.insert_function(MirFuncId(0), body("main", 0, 3, blocks));
    c.insert_def(DefId(0), MirFuncId(0));
    c
}

#[test]
fn main_prints_its_lines() {
    let c = one_block_crate(
        vec![assign(1, Rvalue::BinaryOp { op: BinOp::Add, left: cint(1), right: cint(2) })],
        print_call(OperandPlace::ConstStr("hello".to_string()), 1),
        vec![
            BasicBlock { statements: vec![], terminator: print_call(OperandPlace::Place(Place::local(LocalId(1))), 2) },
            BasicBlock { statements: vec![], terminator: print_call(OperandPlace::ConstBool(true), 3) },
            BasicBlock { statements: vec![], terminator: term(TerminatorKind::Return) },
        ],
    );
    assert!(can_interpret(&c));
    let mut out = Vec::new();
    assert_eq!(interpret_crate(&c, 1000, &mut out), Ok(()));
    assert_eq!(out, vec!["hello".to_string(), "3".to_string(), "true".to_string()]);
}

#[test]
fn division_by_zero_traps() {
    let c = one_block_crate(
        vec![assign(1, Rvalue::BinaryOp { op: BinOp::Div, left: cint(7), right: cint(0) })],
        print_call(OperandPlace::ConstStr("after".to_string()), 1),
        vec![BasicBlock { statements: vec![], terminator: term(TerminatorKind::Return) }],
    );
    let mut out = Vec::new();
    let r = interpret(&c, MirFuncId(0), vec![], 1000, &mut out);
    assert!(matches!(r, Outcome::Trapped));
    assert!(out.is_empty());
}

#[test]
fn returned_value_and_switch() {
    // _1 = 5 < 9; switch _1: 1 -> bb1 (_0 = 10), otherwise bb2 (_0 = 20)
    let c = one_block_crate(
        vec![assign(1, Rvalue::BinaryOp { op: BinOp::Lt, left: cint(5), right: cint(9) })],
        term(TerminatorKind::SwitchInt {
            discr: OperandPlace::Place(Place::local(LocalId(1))),
            targets: vec![(1, BlockId(1))],
            otherwise: BlockId(2),
        }),
        vec![
            BasicBlock { statements: vec![assign(0, Rvalue::Use(cint(10)))], terminator: term(TerminatorKind::Return) },
            BasicBlock { statements: vec![assign(0, Rvalue::Use(cint(20)))], terminator: term(TerminatorKind::Return) },
        ],
    );
    let mut out = Vec::new();
    match interpret(&c, MirFuncId(0), vec![], 1000, &mut out) {
        Outcome::Returned(Value::Int(n)) => assert_eq!(n, 10),
        _ => panic!("expected a returned integer"),
    }
}

#[test]
fn a_loop_runs_out_of_fuel() {
    let c = one_block_crate(vec![], term(TerminatorKind::Goto { target: BlockId(0) }), vec![]);
    let mut out = Vec::new();
    assert!(matches!(interpret(&c, MirFuncId(0), vec![], 50, &mut out), Outcome::OutOfFuel));
}

#[test]
fn crate_without_functions_reports_it() {
    let c = MirCrate::new();
    let mut out = Vec::new();
    assert_eq!(interpret_crate(&c, 10, &mut out), Err("no functions in crate".to_string()));
}

#[test]
fn malformed_body_cannot_be_interpreted() {
    let c = one_block_crate(vec![], term(TerminatorKind::Goto { target: BlockId(9) }), vec![]);
    assert!(!can_interpret(&c));
}

#[test]
fn checked_arithmetic() {
    assert_eq!(binary_op(BinOp::Add, Value::Int(2), Value::Int(3)).map(|v| v.as_int()), Some(Some(5)));
    assert!(binary_op(BinOp::Add, Value::Int(i64::MAX), Value::Int(1)).is_none());
    assert!(binary_op(BinOp::Rem, Value::Int(1), Value::Int(0)).is_none());
    assert!(binary_op(BinOp::Div, Value::Int(i64::MIN), Value::Int(-1)).is_none());
    assert_eq!(binary_op(BinOp::Div, Value::Int(-7), Value::Int(2)).map(|v| v.as_int()), Some(Some(-3)));
    assert_eq!(binary_op(BinOp::Rem, Value::Int(-7), Value::Int(2)).map(|v| v.as_int()), Some(Some(-1)));
    assert_eq!(binary_op(BinOp::Ge, Value::Int(2), Value::Int(2)).map(|v| v.as_bool()), Some(Some(true)));
    assert_eq!(binary_op(BinOp::And, Value::Bool(true), Value::Bool(false)).map(|v| v.as_bool()), Some(Some(false)));
    assert!(unary_op(UnaryOp::Neg, Value::Int(i64::MIN)).is_none());
    assert_eq!(unary_op(UnaryOp::Not, Value::Bool(false)).map(|v| v.as_bool()), Some(Some(true)));
}

#[test]
fn frame_reads_back_what_was_written() {
    let mut frame = Frame::new(3);
    frame.set(&Place::local(LocalId(1)), Value::Tuple(vec![Value::Int(1), Value::Int(2)]));
    let field = Place { local: LocalId(1), projection: vec![Projection::Field(1)] };
    frame.set(&field, Value::Int(42));
    assert_eq!(frame.get(&field).as_int(), Some(42));
    let first = Place { local: LocalId(1), projection: vec![Projection::Field(0)] };
    assert_eq!(frame.get(&first).as_int(), Some(1));
    assert!(matches!(frame.get(&Place::local(LocalId(2))), Value::Unit));
}

#[test]
fn aggregates_build_tuples() {
    let c = one_block_crate(
        vec![assign(1, Rvalue::Aggregate { kind: AggregateKind::Tuple, ops: vec![cint(1), cint(2)] })],
        print_call(OperandPlace::Place(Place::local(LocalId(1))), 1),
        vec![BasicBlock { statements: vec![], terminator: term(TerminatorKind::Return) }],
    );
    let mut out = Vec::new();
    assert_eq!(interpret_crate(&c, 100, &mut out), Ok(()));
    assert_eq!(out, vec!["Tuple([Int(1), Int(2)])".to_string()]);
}

#[test]
fn borrowck_keeps_the_mir() {
    let c = one_block_crate(vec![], term(TerminatorKind::Return), vec![]);
    let before = format_mir_crate(&c);
    let after = format_mir_crate(&borrowck_crate(c));
    assert_eq!(before, after);
}

#[test]
fn mir_dump() {
    let c = one_block_crate(
        vec![assign(1, Rvalue::BinaryOp { op: BinOp::Add, left: cint(1), right: cint(2) })],
        term(TerminatorKind::Return),
        vec![],
    );
    let text = pretty_print_mir(c.function_at(0));
    assert!(text.starts_with("fn main:\n  _0: ty=TypeId(0) mut=Mut\n"));
    assert!(text.contains("  bb0:\n"));
}

#[test]
fn a_new_definition_finds_its_body() {
    let mut c = MirCrate::new();
    c.insert_function(MirFuncId(0), body("a", 3, 1, vec![]));
    c.insert_def(DefId(3), MirFuncId(0));
    c.insert_function(MirFuncId(1), body("b", 4, 1, vec![]));
    c.insert_def(DefId(4), MirFuncId(1));
    assert_eq!(c.get_by_def(DefId(4)).map(|b| b.name.clone()), Some("b".to_string()));
    assert_eq!(c.get_by_def(DefId(3)).map(|b| b.name.clone()), Some("a".to_string()));
    assert!(c.get_by_def(DefId(5)).is_none());
    assert_eq!(c.function_count(), 2);
}

#[test]
fn more_fuel_gives_the_same_run() {
    let c = one_block_crate(
        vec![assign(1, Rvalue::BinaryOp { op: BinOp::Mul, left: cint(6), right: cint(7) })],
        print_call(OperandPlace::Place(Place::local(LocalId(1))), 1),
        vec![BasicBlock { statements: vec![assign(0, Rvalue::Use(Operand::Copy(Place::local(LocalId(1)))))], terminator: term(TerminatorKind::Return) }],
    );
    let mut few = Vec::new();
    let mut many = Vec::new();
    let a = interpret(&c, MirFuncId(0), vec![], 3, &mut few);
    let b = interpret(&c, MirFuncId(0), vec![], 1_000_000, &mut many);
    assert!(matches!(a, Outcome::Returned(Value::Int(42))));
    assert!(matches!(b, Outcome::Returned(Value::Int(42))));
    assert_eq!(few, many);
    let mut none = Vec::new();
    assert!(matches!(interpret(&c, MirFuncId(0), vec![], 0, &mut none), Outcome::OutOfFuel));
}

#[test]
fn place_text_lists_local_then_projections() {
    let p = Place {
        local: LocalId(3),
        projection: vec![Projection::Field(1), Projection::Deref, Projection::Index(LocalId(2)), Projection::Downcast(4)],
    };
    assert_eq!(place_to_string(&p), "_3.f1.*[_2]:4");
}

struct HookLog(Vec<String>);

impl rpython::mir::visit::MirVisitor for HookLog {
    fn visit_block(&mut self, bb: usize, _block: &BasicBlock) {
        self.0.push(format!("block {bb}"));
    }

    fn visit_statement(&mut self, _stmt: &Statement) {
        self.0.push("statement".to_string());
    }

    fn visit_terminator(&mut self, _term: &Terminator) {
        self.0.push("terminator".to_string());
    }
}

#[test]
fn body_visit_goes_block_statements_terminator() {
    let b = body(
        "f",
        0,
        2,
        vec![
            BasicBlock { statements: vec![assign(1, Rvalue::Use(cint(1))), assign(1, Rvalue::Use(cint(2)))], terminator: term(TerminatorKind::Goto { target: BlockId(1) }) },
            BasicBlock { statements: vec![], terminator: term(TerminatorKind::Return) },
        ],
    );
    let mut log = HookLog(Vec::new());
    rpython::mir::visit::visit_body(&mut log, &b);
    assert_eq!(log.0, vec!["block 0", "statement", "statement", "terminator", "block 1", "terminator"]);
}
