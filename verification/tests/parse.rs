use rpython::ast::{Arena, ExprKind, ItemKind, Literal, PatKind, StmtKind, TyKind};
use rpython::parse::Parser;
use rpython::errors::Handler;
use rpython::parse::parse_module;
use rpython::span::{BytePos, FileId, Span};
use rpython::syntax::{IntLiteral, SpannedToken, TokenKind, TokenStream};

fn tok(kind: TokenKind, lo: u32, hi: u32) -> SpannedToken {
    SpannedToken { kind, span: Span::new(FileId(0), BytePos(lo), BytePos(hi)) }
}

fn ident(name: &str, lo: u32) -> SpannedToken {
    tok(TokenKind::Ident { name: name.to_string() }, lo, lo + name.len() as u32)
}

/// The tokens of `def main() -> int:` and its newline.
fn main_header() -> Vec<SpannedToken> {
    vec![
        tok(TokenKind::KwDef, 0, 3),
        ident("main", 4),
        tok(TokenKind::LParen, 8, 9),
        tok(TokenKind::RParen, 9, 10),
        tok(TokenKind::Arrow, 11, 13),
        ident("int", 14),
        tok(TokenKind::Colon, 17, 18),
        tok(TokenKind::Newline, 18, 19),
    ]
}

#[test]
fn parses_annotated_local_assign() {
    // def main() -> int:\n    a: str = "hello"\n    return 0\n
    let mut tokens = main_header();
    tokens.extend(vec![
        tok(TokenKind::Indent, 19, 23),
        ident("a", 23),
        tok(TokenKind::Colon, 24, 25),
        ident("str", 26),
        tok(TokenKind::Assign, 30, 31),
        tok(TokenKind::StringLit { value: "hello".to_string() }, 32, 39),
        tok(TokenKind::Newline, 39, 40),
        tok(TokenKind::KwReturn, 44, 50),
        tok(TokenKind::IntLit { value: IntLiteral::Decimal(0) }, 51, 52),
        tok(TokenKind::Newline, 52, 53),
        tok(TokenKind::Dedent, 53, 53),
        tok(TokenKind::Eof, 53, 53),
    ]);
    let stream = TokenStream { tokens };
    let mut handler = Handler::new();
    assert!(!handler.has_errors());

    let mut arena = Arena::new();
    let module = parse_module(stream, &mut arena, &mut handler).expect("parse");
    assert!(!handler.has_errors());

    let item = arena.item(module.items[0]);
    let ItemKind::Function { body, .. } = &item.kind else {
        panic!("expected function");
    };
    let stmt = arena.stmt(body[0]);
    assert!(matches!(stmt.kind, StmtKind::AnnAssign { .. }));
}

#[test]
fn return_with_value_is_not_split_into_two_stmts() {
    // def main() -> int:\n    return 0\n
    let mut tokens = main_header();
    tokens.extend(vec![
        tok(TokenKind::Indent, 19, 23),
        tok(TokenKind::KwReturn, 23, 29),
        tok(TokenKind::IntLit { value: IntLiteral::Decimal(0) }, 30, 31),
        tok(TokenKind::Newline, 31, 32),
        tok(TokenKind::Dedent, 32, 32),
        tok(TokenKind::Eof, 32, 32),
    ]);
    let stream = TokenStream { tokens };
    let mut handler = Handler::new();
    assert!(!handler.has_errors());

    let mut arena = Arena::new();
    let module = parse_module(stream, &mut arena, &mut handler).expect("parse");
    assert!(!handler.has_errors());

    let item = arena.item(module.items[0]);
    let ItemKind::Function { body, .. } = &item.kind else {
        panic!("expected function");
    };
    assert_eq!(body.len(), 1);
    let stmt = arena.stmt(body[0]);
    let StmtKind::Return(Some(expr)) = &stmt.kind else {
        panic!("expected return with value, got {:?}", stmt.kind);
    };
    let expr = arena.expr(*expr);
    assert!(matches!(expr.kind, ExprKind::Literal(Literal::Int(0))));
}

#[test]
fn empty_stream_has_no_module() {
    let mut handler = Handler::new();
    let mut arena = Arena::new();
    assert!(parse_module(TokenStream { tokens: vec![] }, &mut arena, &mut handler).is_none());
    assert_eq!(arena.item_count(), 0);
}

#[test]
fn module_span_covers_first_and_last_token() {
    let mut tokens = main_header();
    tokens.extend(vec![
        tok(TokenKind::Indent, 19, 23),
        tok(TokenKind::KwPass, 23, 27),
        tok(TokenKind::Newline, 27, 28),
        tok(TokenKind::Dedent, 28, 28),
        tok(TokenKind::Eof, 28, 28),
    ]);
    let mut handler = Handler::new();
    let mut arena = Arena::new();
    let module = parse_module(TokenStream { tokens }, &mut arena, &mut handler).expect("parse");
    assert_eq!(module.span.lo.0, 0);
    assert_eq!(module.span.hi.0, 28);
    assert_eq!(module.items.len(), 1);
}

#[test]
fn stray_token_is_reported() {
    let tokens = vec![tok(TokenKind::RParen, 0, 1), tok(TokenKind::Newline, 1, 2), tok(TokenKind::Eof, 2, 2)];
    let mut handler = Handler::new();
    let mut arena = Arena::new();
    let _ = parse_module(TokenStream { tokens }, &mut arena, &mut handler).expect("parse");
    assert!(handler.has_errors());
}

fn parser(tokens: &[SpannedToken]) -> Parser<'_> {
    Parser::new(tokens, Arena::new(), Handler::new())
}

#[test]
fn lone_literal_after_newlines_is_the_expression() {
    let tokens = vec![
        tok(TokenKind::Newline, 0, 1),
        tok(TokenKind::IntLit { value: IntLiteral::Decimal(7) }, 1, 2),
        tok(TokenKind::Newline, 2, 3),
        tok(TokenKind::RParen, 3, 4),
        tok(TokenKind::Eof, 4, 4),
    ];
    let mut p = parser(&tokens);
    let e = p.parse_expr().expect("expression");
    assert!(matches!(p.arena.expr(e).kind, ExprKind::Literal(Literal::Int(7))));
    assert_eq!(p.pos, 3);
    assert!(!p.handler.has_errors());
}

#[test]
fn token_that_starts_no_expression_is_reported() {
    let tokens = vec![tok(TokenKind::RParen, 0, 1), tok(TokenKind::Eof, 1, 1)];
    let mut p = parser(&tokens);
    assert!(p.parse_expr().is_none());
    assert_eq!(p.handler.errors(), 1);
    assert_eq!(p.handler.diagnostics()[0].message, "expected expression, found RParen");
    assert_eq!(p.arena.expr_count(), 0);
}

#[test]
fn pass_after_blank_lines_is_one_statement() {
    let tokens = vec![
        tok(TokenKind::Newline, 0, 1),
        tok(TokenKind::KwPass, 1, 5),
        tok(TokenKind::Newline, 5, 6),
        tok(TokenKind::Eof, 6, 6),
    ];
    let mut p = parser(&tokens);
    let s = p.parse_stmt().expect("statement");
    assert!(matches!(p.arena.stmt(s).kind, StmtKind::Pass));
    assert_eq!(p.pos, 2);
}

#[test]
fn bare_return_at_block_end_has_no_value() {
    let tokens = vec![
        tok(TokenKind::KwReturn, 0, 6),
        tok(TokenKind::Newline, 6, 7),
        tok(TokenKind::Dedent, 7, 7),
        tok(TokenKind::Eof, 7, 7),
    ];
    let mut p = parser(&tokens);
    let s = p.parse_stmt().expect("statement");
    assert!(matches!(p.arena.stmt(s).kind, StmtKind::Return(None)));
}

#[test]
fn statement_parse_stops_at_block_end() {
    let tokens = vec![tok(TokenKind::Newline, 0, 1), tok(TokenKind::Dedent, 1, 1), tok(TokenKind::Eof, 1, 1)];
    let mut p = parser(&tokens);
    assert!(p.parse_stmt().is_none());
    assert!(!p.handler.has_errors());
}

#[test]
fn underscore_is_the_wildcard_pattern() {
    let tokens = vec![tok(TokenKind::Underscore, 0, 1), tok(TokenKind::Eof, 1, 1)];
    let mut p = parser(&tokens);
    let id = p.parse_pat().expect("pattern");
    assert!(matches!(p.arena.pat(id).kind, PatKind::Wild));
    assert_eq!(p.pos, 1);
}

#[test]
fn empty_parentheses_are_the_unit_type() {
    let tokens = vec![tok(TokenKind::LParen, 0, 1), tok(TokenKind::RParen, 1, 2), tok(TokenKind::Eof, 2, 2)];
    let mut p = parser(&tokens);
    let id = p.parse_ty().expect("type");
    let TyKind::Tuple(elems) = &p.arena.ty(id).kind else {
        panic!("expected tuple type");
    };
    assert!(elems.is_empty());
}

#[test]
fn non_item_token_is_reported_at_top_level() {
    let tokens = vec![ident("x", 0), tok(TokenKind::Eof, 1, 1)];
    let mut p = parser(&tokens);
    assert!(p.parse_item().is_none());
    assert_eq!(p.handler.diagnostics()[0].message, "expected item");
}

#[test]
fn block_after_newline_must_be_indented() {
    let tokens = vec![tok(TokenKind::Newline, 0, 1), ident("x", 1), tok(TokenKind::Eof, 2, 2)];
    let mut p = parser(&tokens);
    assert!(p.parse_block().is_none());
    assert_eq!(p.handler.diagnostics()[0].message, "expected indented block");
}

fn int_tok(v: i64, lo: u32) -> SpannedToken {
    tok(TokenKind::IntLit { value: IntLiteral::Decimal(v) }, lo, lo + 1)
}

#[test]
fn operators_group_by_precedence_then_from_the_left() {
    // 1 - 2 - 3 * 4\n
    let tokens = vec![
        int_tok(1, 0),
        tok(TokenKind::Minus, 2, 3),
        int_tok(2, 4),
        tok(TokenKind::Minus, 6, 7),
        int_tok(3, 8),
        tok(TokenKind::Star, 10, 11),
        int_tok(4, 12),
        tok(TokenKind::Newline, 13, 14),
        tok(TokenKind::Eof, 14, 14),
    ];
    let mut p = parser(&tokens);
    let e = p.parse_expr().expect("expression");
    assert!(!p.handler.has_errors());
    assert_eq!(p.pos, 8);
    let lit = |id| match &p.arena.expr(id).kind {
        ExprKind::Literal(Literal::Int(v)) => *v,
        other => panic!("expected an integer literal, found {:?}", other),
    };
    let ExprKind::Binary { op: top, left: l, right: r } = p.arena.expr(e).kind.clone() else {
        panic!("expected a binary expression");
    };
    assert!(matches!(top, rpython::ast::BinaryOp::Sub));
    let ExprKind::Binary { op: lop, left: ll, right: lr } = p.arena.expr(l).kind.clone() else {
        panic!("expected a binary left operand");
    };
    assert!(matches!(lop, rpython::ast::BinaryOp::Sub));
    assert_eq!((lit(ll), lit(lr)), (1, 2));
    let ExprKind::Binary { op: rop, left: rl, right: rr } = p.arena.expr(r).kind.clone() else {
        panic!("expected a binary right operand");
    };
    assert!(matches!(rop, rpython::ast::BinaryOp::Mul));
    assert_eq!((lit(rl), lit(rr)), (3, 4));
}

#[test]
fn name_assigned_a_literal_is_an_assignment() {
    // x = 5\n
    let tokens = vec![
        ident("x", 0),
        tok(TokenKind::Assign, 2, 3),
        int_tok(5, 4),
        tok(TokenKind::Newline, 5, 6),
        tok(TokenKind::Eof, 6, 6),
    ];
    let mut p = parser(&tokens);
    let s = p.parse_stmt().expect("statement");
    assert!(!p.handler.has_errors());
    let StmtKind::Assign { targets, value } = p.arena.stmt(s).kind.clone() else {
        panic!("expected an assignment");
    };
    assert_eq!(targets.len(), 1);
    match &p.arena.pat(targets[0]).kind {
        PatKind::Ident { name, subpat, .. } => {
            assert_eq!(name, "x");
            assert!(subpat.is_none());
        }
        other => panic!("expected a name pattern, found {:?}", other),
    }
    assert!(matches!(p.arena.expr(value).kind, ExprKind::Literal(Literal::Int(5))));
}

#[test]
fn parenthesized_pattern_is_not_a_one_element_tuple() {
    // (a, (b), _)
    let tokens = vec![
        tok(TokenKind::LParen, 0, 1),
        ident("a", 1),
        tok(TokenKind::Comma, 2, 3),
        tok(TokenKind::LParen, 4, 5),
        ident("b", 5),
        tok(TokenKind::RParen, 6, 7),
        tok(TokenKind::Comma, 7, 8),
        tok(TokenKind::Underscore, 9, 10),
        tok(TokenKind::RParen, 10, 11),
        tok(TokenKind::Eof, 11, 11),
    ];
    let mut p = parser(&tokens);
    let q = p.parse_pat().expect("pattern");
    assert!(!p.handler.has_errors());
    assert_eq!(p.pos, 9);
    let PatKind::Tuple(elems) = p.arena.pat(q).kind.clone() else {
        panic!("expected a tuple pattern");
    };
    assert_eq!(elems.len(), 3);
    let name = |id| match &p.arena.pat(id).kind {
        PatKind::Ident { name, .. } => name.clone(),
        other => panic!("expected a name pattern, found {:?}", other),
    };
    assert_eq!(name(elems[0]), "a");
    assert_eq!(name(elems[1]), "b");
    assert!(matches!(p.arena.pat(elems[2]).kind, PatKind::Wild));
}

#[test]
fn method_call_then_index_nest_in_order() {
    // a.b(c)[0]\n
    let tokens = vec![
        ident("a", 0),
        tok(TokenKind::Dot, 1, 2),
        ident("b", 2),
        tok(TokenKind::LParen, 3, 4),
        ident("c", 4),
        tok(TokenKind::RParen, 5, 6),
        tok(TokenKind::LBracket, 6, 7),
        int_tok(0, 7),
        tok(TokenKind::RBracket, 8, 9),
        tok(TokenKind::Newline, 9, 10),
        tok(TokenKind::Eof, 10, 10),
    ];
    let mut p = parser(&tokens);
    let e = p.parse_expr().expect("expression");
    assert!(!p.handler.has_errors());
    let ExprKind::Index { base, index } = p.arena.expr(e).kind.clone() else {
        panic!("expected an index expression");
    };
    assert!(matches!(p.arena.expr(index).kind, ExprKind::Literal(Literal::Int(0))));
    let ExprKind::MethodCall { receiver, method, args } = p.arena.expr(base).kind.clone() else {
        panic!("expected a method call");
    };
    assert_eq!(method, "b");
    assert_eq!(args.len(), 1);
    let path_name = |id| match &p.arena.expr(id).kind {
        ExprKind::Path(path) => path.segments[0].ident.clone(),
        other => panic!("expected a path, found {:?}", other),
    };
    assert_eq!(path_name(receiver), "a");
    assert_eq!(path_name(args[0]), "c");
}

#[test]
fn list_of_operands_keeps_them_in_order() {
    // [1, x]\n
    let tokens = vec![
        tok(TokenKind::LBracket, 0, 1),
        int_tok(1, 1),
        tok(TokenKind::Comma, 2, 3),
        ident("x", 4),
        tok(TokenKind::RBracket, 5, 6),
        tok(TokenKind::Newline, 6, 7),
        tok(TokenKind::Eof, 7, 7),
    ];
    let mut p = parser(&tokens);
    let e = p.parse_expr().expect("expression");
    assert!(!p.handler.has_errors());
    let ExprKind::List(elems) = p.arena.expr(e).kind.clone() else {
        panic!("expected a list");
    };
    assert_eq!(elems.len(), 2);
    assert!(matches!(p.arena.expr(elems[0]).kind, ExprKind::Literal(Literal::Int(1))));
    assert!(matches!(&p.arena.expr(elems[1]).kind, ExprKind::Path(path) if path.segments[0].ident == "x"));
}

#[test]
fn conditional_expression_keeps_test_value_and_alternative() {
    // if c: 1 else 2\n
    let tokens = vec![
        tok(TokenKind::KwIf, 0, 2),
        ident("c", 3),
        tok(TokenKind::Colon, 4, 5),
        int_tok(1, 6),
        tok(TokenKind::KwElse, 8, 12),
        int_tok(2, 13),
        tok(TokenKind::Newline, 14, 15),
        tok(TokenKind::Eof, 15, 15),
    ];
    let mut p = parser(&tokens);
    let e = p.parse_expr().expect("expression");
    assert!(!p.handler.has_errors());
    let ExprKind::If { test, then, else_branch } = p.arena.expr(e).kind.clone() else {
        panic!("expected a conditional");
    };
    assert!(matches!(&p.arena.expr(test).kind, ExprKind::Path(path) if path.segments[0].ident == "c"));
    assert!(matches!(p.arena.expr(then).kind, ExprKind::Literal(Literal::Int(1))));
    assert!(matches!(p.arena.expr(else_branch).kind, ExprKind::Literal(Literal::Int(2))));
}

#[test]
fn literal_in_a_tuple_pattern_is_a_literal_pattern() {
    // (1, x)
    let tokens = vec![
        tok(TokenKind::LParen, 0, 1),
        int_tok(1, 1),
        tok(TokenKind::Comma, 2, 3),
        ident("x", 4),
        tok(TokenKind::RParen, 5, 6),
        tok(TokenKind::Eof, 6, 6),
    ];
    let mut p = parser(&tokens);
    let q = p.parse_pat().expect("pattern");
    assert!(!p.handler.has_errors());
    let PatKind::Tuple(elems) = p.arena.pat(q).kind.clone() else {
        panic!("expected a tuple pattern");
    };
    assert_eq!(elems.len(), 2);
    assert!(matches!(p.arena.pat(elems[0]).kind, PatKind::Literal(Literal::Int(1))));
    assert!(matches!(&p.arena.pat(elems[1]).kind, PatKind::Ident { name, .. } if name == "x"));
}

#[test]
fn parenthesized_operands_with_a_comma_are_a_tuple_in_order() {
    // (1, x)\n
    let tokens = vec![
        tok(TokenKind::LParen, 0, 1),
        int_tok(1, 1),
        tok(TokenKind::Comma, 2, 3),
        ident("x", 4),
        tok(TokenKind::RParen, 5, 6),
        tok(TokenKind::Newline, 6, 7),
        tok(TokenKind::Eof, 7, 7),
    ];
    let mut p = parser(&tokens);
    let e = p.parse_expr().expect("expression");
    assert!(!p.handler.has_errors());
    let ExprKind::Tuple(elems) = p.arena.expr(e).kind.clone() else {
        panic!("expected a tuple");
    };
    assert_eq!(elems.len(), 2);
    assert!(matches!(p.arena.expr(elems[0]).kind, ExprKind::Literal(Literal::Int(1))));
    assert!(matches!(&p.arena.expr(elems[1]).kind, ExprKind::Path(path) if path.segments[0].ident == "x"));
    assert_eq!(p.pos, 6);
}

#[test]
fn one_parenthesized_operand_is_the_operand_itself() {
    // (x)\n
    let tokens = vec![
        tok(TokenKind::LParen, 0, 1),
        ident("x", 1),
        tok(TokenKind::RParen, 2, 3),
        tok(TokenKind::Newline, 3, 4),
        tok(TokenKind::Eof, 4, 4),
    ];
    let mut p = parser(&tokens);
    let e = p.parse_expr().expect("expression");
    assert!(!p.handler.has_errors());
    assert!(matches!(&p.arena.expr(e).kind, ExprKind::Path(path) if path.segments[0].ident == "x"));
}

#[test]
fn empty_parentheses_are_the_empty_tuple() {
    // ()\n
    let tokens = vec![
        tok(TokenKind::LParen, 0, 1),
        tok(TokenKind::RParen, 1, 2),
        tok(TokenKind::Newline, 2, 3),
        tok(TokenKind::Eof, 3, 3),
    ];
    let mut p = parser(&tokens);
    let e = p.parse_expr().expect("expression");
    assert!(!p.handler.has_errors());
    let ExprKind::Tuple(elems) = p.arena.expr(e).kind.clone() else {
        panic!("expected a tuple");
    };
    assert!(elems.is_empty());
}

#[test]
fn failed_expectation_reports_one_primary_label_here() {
    let tokens = vec![tok(TokenKind::RParen, 3, 4), tok(TokenKind::Eof, 4, 4)];
    let mut p = parser(&tokens);
    assert!(!p.expect(TokenKind::Colon, "expected ':'"));
    assert_eq!(p.pos, 0);
    assert_eq!(p.handler.errors(), 1);
    let d = &p.handler.diagnostics()[0];
    assert_eq!(d.message, "expected ':'");
    assert_eq!(d.labels.len(), 1);
    assert!(d.labels[0].primary);
    assert_eq!(d.labels[0].message, "here");
    assert_eq!(d.labels[0].span, Span::new(FileId(0), BytePos(3), BytePos(4)));
}
