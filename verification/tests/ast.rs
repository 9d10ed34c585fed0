use rpython::ast::display::{format_binary_op, format_module, format_unary_op};
use rpython::ast::visit::{walk_module, Visitor};
use rpython::ast::{Arena, BinaryOp, Expr, ExprKind, ItemKind, Literal, Module, StmtKind, UnaryOp};
use rpython::ast::item::Item;
use rpython::ast::pat::Pat;
use rpython::ast::stmt::Stmt;
use rpython::ast::ty::Ty;
use rpython::span::{BytePos, FileId, Span};

fn span() -> Span {
    Span::new(FileId(0), BytePos(0), BytePos(1))
}

#[test]
fn arena_alloc_and_pretty_print() {
    let mut arena = Arena::new();
    let lit = arena.alloc_expr(ExprKind::Literal(Literal::Int(42)), span());
    let ret = arena.alloc_stmt(StmtKind::Return(Some(lit)), span());
    let func = arena.alloc_item(
        ItemKind::Function {
            name: "main".into(),
            generics: vec![],
            params: vec![],
            ret_ty: None,
            body: vec![ret],
            is_pub: true,
            attrs: vec![],
        },
        span(),
    );
    let module = Module { items: vec![func], span: span() };
    let out = format_module(&module, &arena);
    assert!(out.contains("Function"));
    assert!(out.contains("Return"));
    assert!(out.contains("Literal"));
    assert!(out.contains("42"));
}

struct ExprCounter(usize);

impl Visitor for ExprCounter {
    fn visit_module(&mut self, _module: &Module, _arena: &Arena) {}

    fn visit_item(&mut self, _item: &Item, _arena: &Arena) {}

    fn visit_stmt(&mut self, _stmt: &Stmt, _arena: &Arena) {}

    fn visit_expr(&mut self, _expr: &Expr, _arena: &Arena) {
        self.0 += 1;
    }

    fn visit_pat(&mut self, _pat: &Pat, _arena: &Arena) {}

    fn visit_ty(&mut self, _ty: &Ty, _arena: &Arena) {}
}

#[test]
fn visitor_counts_exprs() {
    let mut arena = Arena::new();
    let a = arena.alloc_expr(ExprKind::Literal(Literal::Int(1)), span());
    let b = arena.alloc_expr(ExprKind::Literal(Literal::Int(2)), span());
    let bin = arena.alloc_expr(ExprKind::Binary { op: BinaryOp::Add, left: a, right: b }, span());
    let module = Module { items: vec![], span: span() };
    let mut counter = ExprCounter(0);
    walk_module(&mut counter, &module, &arena);
    assert_eq!(counter.0, 0);

    let stmt = arena.alloc_stmt(StmtKind::Expr(bin), span());
    let func = arena.alloc_item(
        ItemKind::Function {
            name: "f".into(),
            generics: vec![],
            params: vec![],
            ret_ty: None,
            body: vec![stmt],
            is_pub: false,
            attrs: vec![],
        },
        span(),
    );
    let module = Module { items: vec![func], span: span() };
    let mut counter = ExprCounter(0);
    walk_module(&mut counter, &module, &arena);
    assert_eq!(counter.0, 3);
}

#[test]
fn reading_an_allocated_expr_gives_it_back() {
    let mut arena = Arena::new();
    let first = arena.alloc_expr(ExprKind::Literal(Literal::Int(7)), span());
    let second = arena.alloc_expr(ExprKind::Literal(Literal::Bool(true)), span());
    assert_eq!(first.0, 0);
    assert_eq!(second.0, 1);
    assert!(matches!(arena.expr(first).kind, ExprKind::Literal(Literal::Int(7))));
    assert!(matches!(arena.expr(second).kind, ExprKind::Literal(Literal::Bool(true))));
    assert_eq!(arena.expr_count(), 2);
}

#[test]
fn operator_symbols() {
    assert_eq!(format_binary_op(BinaryOp::Add), "+");
    assert_eq!(format_binary_op(BinaryOp::FloorDiv), "//");
    assert_eq!(format_binary_op(BinaryOp::And), "and");
    assert_eq!(format_unary_op(UnaryOp::Not), "not");
    assert_eq!(format_unary_op(UnaryOp::Neg), "-");
}

#[test]
fn empty_module_dump() {
    let arena = Arena::new();
    let module = Module { items: vec![], span: span() };
    let out = format_module(&module, &arena);
    assert_eq!(out, "Module {\n}\n");
}

#[test]
fn nodes_change_in_place() {
    let mut arena = Arena::new();
    let a = arena.alloc_expr(ExprKind::Literal(Literal::Int(1)), span());
    let b = arena.alloc_expr(ExprKind::Literal(Literal::Int(2)), span());
    arena.expr_mut(a).kind = ExprKind::Literal(Literal::Int(10));
    assert!(matches!(arena.expr(a).kind, ExprKind::Literal(Literal::Int(10))));
    assert!(matches!(arena.expr(b).kind, ExprKind::Literal(Literal::Int(2))));
    let s = arena.alloc_stmt(StmtKind::Pass, span());
    arena.stmt_mut(s).kind = StmtKind::Expr(b);
    assert!(matches!(arena.stmt(s).kind, StmtKind::Expr(_)));
}

#[test]
fn bytes_literal_prints_as_lossy_text_in_quotes() {
    let mut arena = Arena::new();
    let lit = arena.alloc_expr(ExprKind::Literal(Literal::Bytes(vec![104, 105, 255])), span());
    let ret = arena.alloc_stmt(StmtKind::Return(Some(lit)), span());
    let func = arena.alloc_item(
        ItemKind::Function {
            name: "main".into(),
            generics: vec![],
            params: vec![],
            ret_ty: None,
            body: vec![ret],
            is_pub: true,
            attrs: vec![],
        },
        span(),
    );
    let module = Module { items: vec![func], span: span() };
    let out = format_module(&module, &arena);
    assert!(out.contains("b\"hi\u{fffd}\""), "{out}");
}
