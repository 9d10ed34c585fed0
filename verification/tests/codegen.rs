use rpython::codegen::c::{can_emit_c, compile_crate_to_c, escape_c, PREAMBLE};
use rpython::cli::parse_opt_level;
use rpython::codegen::compile_llvm_stub;
use rpython::driver::link::opt_flag;
use rpython::driver::session::OptLevel;
use rpython::ids::{BlockId, DefId, LocalId, MirFuncId, TypeId};
use rpython::mir::body::{BasicBlock, LocalDecl, MirBody, MirCrate};
use rpython::mir::operand::{ConstValue, FnOperand, Operand};
use rpython::mir::place::Place;
use rpython::mir::rvalue::{BinOp, Rvalue, UnaryOp};
use rpython::mir::statement::{Statement, StatementKind};
use rpython::mir::terminator::{OperandPlace, Terminator, TerminatorKind};
use rpython::resolve::Resolution;
use rpython::span::Span;
use rpython::types::{Mutability, TyKind, TypeTable};

fn term(kind: TerminatorKind) -> Terminator {
    Terminator { kind, span: Span::dummy() }
}

fn assign(local: u32, rvalue: Rvalue) -> Statement {
    Statement { kind: StatementKind::Assign { place: Place::local(LocalId(local)), rvalue }, span: Span::dummy() }
}

fn print_call(arg: OperandPlace, target: u32) -> Terminator {
    term(TerminatorKind::Call {
        func: FnOperand::Def(DefId(99)),
        args: vec![arg],
        destination: None,
        target: BlockId(target),
        unwind: None,
    })
}

fn body(name: &str, def: u32, locals: Vec<TypeId>, blocks: Vec<BasicBlock>) -> MirBody {
    MirBody {
        name: name.to_string(),
        def_id: DefId(def),
        arg_count: 0,
        return_ty: locals[0],
        locals: locals
            .into_iter()
            .map(|ty| LocalDecl { ty, mutability: Mutability::Mut, span: Span::dummy() })
            .collect(),
        blocks,
        source_scopes: vec![],
    }
}

/// `main`: prints "hello", then 1 + 2.
fn hello_crate() -> MirCrate {
    let blocks = vec![
        BasicBlock {
            statements: vec![assign(
                1,
                Rvalue::BinaryOp {
                    op: BinOp::Add,
                    left: Operand::Constant(ConstValue::Int(1)),
                    right: Operand::Constant(ConstValue::Int(2)),
                },
            )],
            terminator: print_call(OperandPlace::ConstStr("hello".to_string()), 1),
        },
        BasicBlock {
            statements: vec![],
            terminator: print_call(OperandPlace::Place(Place::local(LocalId(1))), 2),
        },
        BasicBlock { statements: vec![], terminator: term(TerminatorKind::Return) },
    ];
    let mut c = MirCrate::new();
    c.insert_function(MirFuncId(0), body("main", 0, vec![TypeId(0), TypeId(0)], blocks));
    c.insert_def(DefId(0), MirFuncId(0));
    c
}

fn types() -> TypeTable {
    TypeTable { kinds: vec![TyKind::Int, TyKind::Unit, TyKind::Bool, TyKind::Str] }
}

fn resolution() -> Resolution {
    Resolution { print: DefId(99), def_names: vec![(DefId(0), "main".to_string()), (DefId(5), "helper".to_string())] }
}

#[test]
fn emits_c_for_a_printing_main() {
    let mir = hello_crate();
    assert!(can_emit_c(&mir, &types(), &resolution()));
    let out = compile_crate_to_c(&mir, &types(), &resolution());
    let expected = format!(
        "{}{}{}{}",
        PREAMBLE,
        "static const char rpy_str_lit_0[] = \"hello\";\nstatic const rpy_str rpy_str_0 = { rpy_str_lit_0, 5 };\n",
        "int64_t _rpy__main(void) {\nbb0: {\n  int64_t _1 = (1 + 2);\n  rpy_print_str(rpy_str_0.ptr, rpy_str_0.len); rpy_print_newline();\n  goto bb1;\n}\nbb1: {\n  rpy_print_int(_1); rpy_print_newline();\n  goto bb2;\n}\nbb2: {\n  return (int)_0;\n}\n}\n\n",
        "int main(void) {\n  rpy_rt_init();\n  return (int)_rpy__main();\n}\n",
    );
    assert_eq!(out.source, expected);
}

#[test]
fn preamble_declares_the_runtime() {
    assert!(PREAMBLE.starts_with("#include <stdint.h>\n#include <stdio.h>\n\nvoid rpy_rt_init(void);\n"));
    assert!(PREAMBLE.ends_with("typedef struct { const char *ptr; int64_t len; } rpy_str;\n\n"));
}

#[test]
fn repeated_strings_are_pooled_once() {
    let blocks = vec![
        BasicBlock {
            statements: vec![assign(1, Rvalue::Use(Operand::Constant(ConstValue::Str("a\"b".to_string()))))],
            terminator: print_call(OperandPlace::ConstStr("x".to_string()), 1),
        },
        BasicBlock {
            statements: vec![assign(2, Rvalue::Use(Operand::Constant(ConstValue::Str("a\"b".to_string()))))],
            terminator: term(TerminatorKind::Return),
        },
    ];
    let mut mir = MirCrate::new();
    mir.insert_function(MirFuncId(0), body("f", 5, vec![TypeId(1), TypeId(3), TypeId(3)], blocks));
    mir.insert_def(DefId(5), MirFuncId(0));
    let out = compile_crate_to_c(&mir, &types(), &resolution()).source;
    assert!(out.contains("static const char rpy_str_lit_0[] = \"a\\\"b\";\nstatic const rpy_str rpy_str_0 = { rpy_str_lit_0, 3 };\n"));
    assert!(out.contains("static const char rpy_str_lit_1[] = \"x\";\n"));
    assert!(!out.contains("rpy_str_lit_2"));
    assert!(out.contains("void _rpy__f(void) {\n"));
    assert!(out.contains("  rpy_str _1 = rpy_str_0;\n"));
    assert!(out.contains("  rpy_str _2 = rpy_str_0;\n"));
    assert!(out.contains("  rpy_print_str(rpy_str_1.ptr, rpy_str_1.len); rpy_print_newline();\n"));
    assert!(!out.contains("int main(void)"));
}

#[test]
fn switch_calls_and_unreachable() {
    let blocks = vec![
        BasicBlock {
            statements: vec![assign(
                1,
                Rvalue::UnaryOp { op: UnaryOp::Not, operand: Operand::Constant(ConstValue::Bool(true)) },
            )],
            terminator: term(TerminatorKind::SwitchInt {
                discr: OperandPlace::Place(Place::local(LocalId(1))),
                targets: vec![(0, BlockId(1)), (1, BlockId(2))],
                otherwise: BlockId(3),
            }),
        },
        BasicBlock {
            statements: vec![],
            terminator: term(TerminatorKind::Call {
                func: FnOperand::Def(DefId(5)),
                args: vec![],
                destination: None,
                target: BlockId(3),
                unwind: None,
            }),
        },
        BasicBlock {
            statements: vec![],
            terminator: term(TerminatorKind::Call {
                func: FnOperand::Def(DefId(7)),
                args: vec![],
                destination: None,
                target: BlockId(3),
                unwind: None,
            }),
        },
        BasicBlock { statements: vec![], terminator: term(TerminatorKind::Unreachable) },
    ];
    let mut mir = MirCrate::new();
    mir.insert_function(MirFuncId(0), body("g", 1, vec![TypeId(2), TypeId(2)], blocks));
    let out = compile_crate_to_c(&mir, &types(), &resolution()).source;
    assert!(out.contains("  int8_t _1 = (!1);\n"));
    assert!(out.contains("  if (_1 == 0) goto bb1;\n  if (_1 == 1) goto bb2;\n  goto bb3;\n"));
    assert!(out.contains("  _rpy__helper();\n"));
    assert!(out.contains("  _rpy__unknown();\n"));
    assert!(out.contains("  rpy_panic(\"unreachable\", 11);\n"));
}

#[test]
fn emitter_refuses_unknown_types_and_locals() {
    let blocks = vec![BasicBlock {
        statements: vec![assign(4, Rvalue::Use(Operand::Constant(ConstValue::Int(1))))],
        terminator: term(TerminatorKind::Return),
    }];
    let mut mir = MirCrate::new();
    mir.insert_function(MirFuncId(0), body("h", 1, vec![TypeId(0)], blocks));
    assert!(!can_emit_c(&mir, &types(), &resolution()));
    let empty = TypeTable { kinds: vec![] };
    assert!(!can_emit_c(&hello_crate(), &empty, &resolution()));
}

#[test]
fn escape_c_escapes_backslash_quote_and_newline() {
    assert_eq!(escape_c("plain"), "plain");
    assert_eq!(escape_c("a\\b"), "a\\\\b");
    assert_eq!(escape_c("say \"hi\"\n"), "say \\\"hi\\\"\\n");
    assert_eq!(escape_c(""), "");
    assert!(!escape_c("line1\nline2").contains('\n'));
}

#[test]
fn optimisation_flags() {
    assert_eq!(opt_flag(OptLevel::O0), "-O0");
    assert_eq!(opt_flag(OptLevel::O1), "-O1");
    assert_eq!(opt_flag(OptLevel::O2), "-O2");
    assert_eq!(opt_flag(OptLevel::O3), "-O3");
    assert_eq!(parse_opt_level(0), Ok(OptLevel::O0));
    assert_eq!(parse_opt_level(2), Ok(OptLevel::O2));
    assert_eq!(parse_opt_level(7), Err("unsupported optimization level 7 (use 0-3)".to_string()));
    assert_eq!(parse_opt_level(255), Err("unsupported optimization level 255 (use 0-3)".to_string()));
}

#[test]
fn llvm_stub_does_nothing() {
    compile_llvm_stub();
}
