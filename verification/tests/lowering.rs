use rpython::ast::{Arena, BinaryOp, ExprKind, ItemKind, Literal, Module, Path, PatKind, PatMutability, StmtKind};
use rpython::hir::{HirOwnerKind, HirStmtKind, Operand as HirOperand, Rvalue as HirRvalue};
use rpython::hir_build::{build_hir, TypedCrate};
use rpython::ids::{DefId, ItemId, MirFuncId, TypeId};
use rpython::mir::interp::{can_interpret, interpret, interpret_crate, Outcome};
use rpython::mir::value::Value;
use rpython::mir_build::{build_mir, build_mir_from_typed, can_build_mir};
use rpython::span::Span;

/// `def main(): print("hi"); return 3 * 4`, with `print` resolved to a
/// definition without a body.
fn program() -> (Arena, Module, TypedCrate) {
    let sp = Span::dummy();
    let mut arena = Arena::new();
    let callee = arena.alloc_expr(ExprKind::Path(Path::single("print".to_string(), sp)), sp);
    let hi = arena.alloc_expr(ExprKind::Literal(Literal::String("hi".to_string())), sp);
    let call = arena.alloc_expr(ExprKind::Call { func: callee, args: vec![hi], kwargs: vec![] }, sp);
    let three = arena.alloc_expr(ExprKind::Literal(Literal::Int(3)), sp);
    let four = arena.alloc_expr(ExprKind::Literal(Literal::Int(4)), sp);
    let product = arena.alloc_expr(ExprKind::Binary { op: BinaryOp::Mul, left: three, right: four }, sp);
    let s0 = arena.alloc_stmt(StmtKind::Expr(call), sp);
    let s1 = arena.alloc_stmt(StmtKind::Return(Some(product)), sp);
    let main = arena.alloc_item(
        ItemKind::Function {
            name: "main".to_string(),
            generics: vec![],
            params: vec![],
            ret_ty: None,
            body: vec![s0, s1],
            is_pub: false,
            attrs: vec![],
        },
        sp,
    );
    let module = Module { items: vec![main], span: sp };
    let int_ty = TypeId(0);
    let unit = TypeId(1);
    let string = TypeId(3);
    let typed = TypedCrate {
        unit,
        expr_types: vec![None, Some(string), Some(unit), Some(int_ty), Some(int_ty), Some(int_ty)],
        pat_types: vec![],
        fn_ret: vec![(DefId(0), int_ty)],
        fn_params: vec![(DefId(0), vec![])],
        item_def_ids: vec![(ItemId(0), DefId(0))],
        expr_paths: vec![Some(DefId(99)), None, None, None, None, None],
        pat_paths: vec![],
    };
    (arena, module, typed)
}

#[test]
fn lowered_program_runs() {
    let (arena, module, typed) = program();
    let hir = build_hir(&typed, &module, &arena);
    assert_eq!(hir.len(), 1);
    assert!(can_build_mir(&hir));
    let mir = build_mir(&hir);
    assert_eq!(mir.function_count(), 1);
    assert_eq!(mir.function_at(0).name, "main");
    assert!(can_interpret(&mir));
    let mut out = Vec::new();
    match interpret(&mir, MirFuncId(0), vec![], 1000, &mut out) {
        Outcome::Returned(Value::Int(n)) => assert_eq!(n, 12),
        _ => panic!("expected 12"),
    }
    assert_eq!(out, vec!["hi".to_string()]);
    let mut out = Vec::new();
    assert_eq!(interpret_crate(&mir, 1000, &mut out), Ok(()));
    assert_eq!(out, vec!["hi".to_string()]);
}

#[test]
fn a_body_without_expressions_cannot_be_lowered() {
    let sp = Span::dummy();
    let mut arena = Arena::new();
    let pass = arena.alloc_stmt(StmtKind::Pass, sp);
    let f = arena.alloc_item(
        ItemKind::Function {
            name: "f".to_string(),
            generics: vec![],
            params: vec![],
            ret_ty: None,
            body: vec![pass],
            is_pub: false,
            attrs: vec![],
        },
        sp,
    );
    let module = Module { items: vec![f], span: sp };
    let typed = TypedCrate {
        unit: TypeId(1),
        expr_types: vec![],
        pat_types: vec![],
        fn_ret: vec![(DefId(0), TypeId(1))],
        fn_params: vec![(DefId(0), vec![])],
        item_def_ids: vec![(ItemId(0), DefId(0))],
        expr_paths: vec![],
        pat_paths: vec![],
    };
    let hir = build_hir(&typed, &module, &arena);
    assert!(!can_build_mir(&hir));
    assert!(build_mir_from_typed(&typed, &module, &arena).is_none());
}

#[test]
fn mir_straight_from_the_typed_module() {
    let (arena, module, typed) = program();
    let mir = build_mir_from_typed(&typed, &module, &arena).expect("lowerable");
    assert_eq!(mir.function_count(), 1);
    assert_eq!(mir.function_at(0).name, "main");
}

/// `def f(): return -(7 - 2) * 3`
fn constant_program(left: i64) -> (Arena, Module, TypedCrate) {
    let sp = Span::dummy();
    let mut arena = Arena::new();
    let seven = arena.alloc_expr(ExprKind::Literal(Literal::Int(left)), sp);
    let two = arena.alloc_expr(ExprKind::Literal(Literal::Int(2)), sp);
    let diff = arena.alloc_expr(ExprKind::Binary { op: BinaryOp::Sub, left: seven, right: two }, sp);
    let neg = arena.alloc_expr(ExprKind::Unary { op: rpython::ast::UnaryOp::Neg, operand: diff }, sp);
    let three = arena.alloc_expr(ExprKind::Literal(Literal::Int(3)), sp);
    let prod = arena.alloc_expr(ExprKind::Binary { op: BinaryOp::Mul, left: neg, right: three }, sp);
    let ret = arena.alloc_stmt(StmtKind::Return(Some(prod)), sp);
    let f = arena.alloc_item(
        ItemKind::Function {
            name: "f".to_string(),
            generics: vec![],
            params: vec![],
            ret_ty: None,
            body: vec![ret],
            is_pub: false,
            attrs: vec![],
        },
        sp,
    );
    let module = Module { items: vec![f], span: sp };
    let int_ty = TypeId(0);
    let typed = TypedCrate {
        unit: TypeId(1),
        expr_types: vec![Some(int_ty); 6],
        pat_types: vec![],
        fn_ret: vec![(DefId(0), int_ty)],
        fn_params: vec![(DefId(0), vec![])],
        item_def_ids: vec![(ItemId(0), DefId(0))],
        expr_paths: vec![None; 6],
        pat_paths: vec![],
    };
    (arena, module, typed)
}

#[test]
fn a_constant_return_computes_its_value() {
    let (arena, module, typed) = constant_program(7);
    let mir = build_mir_from_typed(&typed, &module, &arena).expect("lowerable");
    for fuel in [1u64, 2, 100] {
        let mut out = Vec::new();
        match interpret(&mir, MirFuncId(0), vec![], fuel, &mut out) {
            Outcome::Returned(Value::Int(n)) => assert_eq!(n, -15),
            _ => panic!("expected -15"),
        }
        assert!(out.is_empty());
    }
}

#[test]
fn a_constant_return_that_overflows_traps() {
    let (arena, module, typed) = constant_program(i64::MIN);
    let mir = build_mir_from_typed(&typed, &module, &arena).expect("lowerable");
    let mut out = Vec::new();
    assert!(matches!(interpret(&mir, MirFuncId(0), vec![], 10, &mut out), Outcome::Trapped));
}

#[test]
fn a_print_program_needs_one_step_more_than_its_calls() {
    let (arena, module, typed) = program();
    let mir = build_mir(&build_hir(&typed, &module, &arena));
    let mut out = Vec::new();
    match interpret(&mir, MirFuncId(0), vec![], 2, &mut out) {
        Outcome::Returned(Value::Int(n)) => assert_eq!(n, 12),
        _ => panic!("expected 12"),
    }
    assert_eq!(out, vec!["hi".to_string()]);
    let mut out = Vec::new();
    assert!(matches!(interpret(&mir, MirFuncId(0), vec![], 1, &mut out), Outcome::OutOfFuel));
    assert_eq!(out, vec!["hi".to_string()]);
}

/// `def f(): x = 1; y = x`, two assignments to new names.
fn assignments_program() -> (Arena, Module, TypedCrate) {
    let sp = Span::dummy();
    let mut arena = Arena::new();
    let one = arena.alloc_expr(ExprKind::Literal(Literal::Int(1)), sp);
    let x = arena.alloc_pat(PatKind::Ident { name: "x".to_string(), mutability: PatMutability::Imm, subpat: None }, sp);
    let s0 = arena.alloc_stmt(StmtKind::Assign { targets: vec![x], value: one }, sp);
    let read_x = arena.alloc_expr(ExprKind::Path(Path::single("x".to_string(), sp)), sp);
    let y = arena.alloc_pat(PatKind::Ident { name: "y".to_string(), mutability: PatMutability::Imm, subpat: None }, sp);
    let s1 = arena.alloc_stmt(StmtKind::Assign { targets: vec![y], value: read_x }, sp);
    let f = arena.alloc_item(
        ItemKind::Function {
            name: "f".to_string(),
            generics: vec![],
            params: vec![],
            ret_ty: None,
            body: vec![s0, s1],
            is_pub: false,
            attrs: vec![],
        },
        sp,
    );
    let module = Module { items: vec![f], span: sp };
    let int_ty = TypeId(0);
    let typed = TypedCrate {
        unit: TypeId(1),
        expr_types: vec![Some(int_ty); 2],
        pat_types: vec![Some(int_ty); 2],
        fn_ret: vec![(DefId(0), TypeId(1))],
        fn_params: vec![(DefId(0), vec![])],
        item_def_ids: vec![(ItemId(0), DefId(0))],
        expr_paths: vec![None; 2],
        pat_paths: vec![None; 2],
    };
    (arena, module, typed)
}

#[test]
fn assignment_of_a_name_copies_its_local_into_the_new_one() {
    let (arena, module, typed) = assignments_program();
    let hir = build_hir(&typed, &module, &arena);
    let (_, owner) = hir.entry_at(0);
    let HirOwnerKind::Function(body) = &owner.kind;
    assert_eq!(body.stmts.len(), 2);
    let first = &body.stmts_data[body.stmts[0].0 as usize].kind;
    let second = &body.stmts_data[body.stmts[1].0 as usize].kind;
    let HirStmtKind::Assign { place: x_place, .. } = first else {
        panic!("expected an assignment");
    };
    let HirStmtKind::Assign { place: y_place, rvalue: HirRvalue::Use(HirOperand::Copy(src)) } = second else {
        panic!("expected an assignment of a copy");
    };
    assert_eq!(src.local, x_place.local);
    assert_ne!(y_place.local, x_place.local);
    assert!(y_place.projection.is_empty());
}
