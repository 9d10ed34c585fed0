use rpython::ast::Arena;
use rpython::driver::pipeline::{
    check_resolution, emit_ast, emit_mir, format_token, format_token_stream, run_front_end, FrontEnd, ParsedUnit, PipelineError,
};
use rpython::driver::session::{CompileOptions, CompilerSession, EmitStage, OptLevel};
use rpython::driver::pipeline::report_errors;
use rpython::errors::{Diagnostic, Handler, SourceMap};
use rpython::resolve::Resolution;
use rpython::span::{BytePos, FileId, Span};
use rpython::syntax::{IntLiteral, SpannedToken, TokenKind, TokenStream};
use rpython::ids::DefId;

fn tok(kind: TokenKind) -> SpannedToken {
    SpannedToken { kind, span: Span::new(FileId(0), BytePos(0), BytePos(1)) }
}

fn session(emit: EmitStage) -> CompilerSession {
    let mut map = SourceMap::new();
    let file = map.load_file("t.rpy".to_string(), "def main():\n    pass\n".to_string());
    let options = CompileOptions { emit, ..CompileOptions::default() };
    CompilerSession::new(map, file, Handler::new(), options, "t.rpy".to_string(), "def main():\n    pass\n".to_string())
}

fn pass_main() -> TokenStream {
    TokenStream {
        tokens: vec![
            tok(TokenKind::KwDef),
            tok(TokenKind::Ident { name: "main".to_string() }),
            tok(TokenKind::LParen),
            tok(TokenKind::RParen),
            tok(TokenKind::Colon),
            tok(TokenKind::Newline),
            tok(TokenKind::Indent),
            tok(TokenKind::KwPass),
            tok(TokenKind::Newline),
            tok(TokenKind::Dedent),
            tok(TokenKind::Eof),
        ],
    }
}

#[test]
fn token_lines() {
    assert_eq!(format_token(&tok(TokenKind::Eof)), "Eof");
    assert_eq!(format_token(&tok(TokenKind::IntLit { value: IntLiteral::Hex(255) })), "IntLit(Hex(255))");
    assert_eq!(format_token(&tok(TokenKind::IntLit { value: IntLiteral::Decimal(-3) })), "IntLit(Decimal(-3))");
    assert_eq!(format_token(&tok(TokenKind::FloatLit { value: "1.5".to_string() })), "FloatLit(1.5)");
    assert_eq!(format_token(&tok(TokenKind::StringLit { value: "a\"b".to_string() })), "StringLit(\"a\\\"b\")");
    assert_eq!(format_token(&tok(TokenKind::BytesLit { value: vec![104, 105] })), "BytesLit([104, 105])");
    assert_eq!(format_token(&tok(TokenKind::BoolLit(false))), "BoolLit(false)");
    assert_eq!(format_token(&tok(TokenKind::Ident { name: "x".to_string() })), "Ident(x)");
    assert_eq!(format_token(&tok(TokenKind::KwDef)), TokenKind::KwDef.name());
}

#[test]
fn token_stream_dump() {
    let stream = TokenStream { tokens: vec![tok(TokenKind::KwPass), tok(TokenKind::Newline), tok(TokenKind::Eof)] };
    let pass = TokenKind::KwPass.name();
    assert_eq!(format_token_stream(stream.tokens()), format!("{pass}\nNewline\nEof\n"));
    assert_eq!(format_token_stream(&[]), "");
}

#[test]
fn default_options() {
    let o = CompileOptions::default();
    assert_eq!(o.emit, EmitStage::Executable);
    assert_eq!(o.opt_level, OptLevel::O0);
    assert!(o.output.is_none());
    assert!(!o.run_interp);
}

#[test]
fn tokens_stage_stops_with_the_dump() {
    let mut s = session(EmitStage::Tokens);
    let stream = pass_main();
    let expected = format_token_stream(stream.tokens());
    match run_front_end(&mut s, stream) {
        Ok(FrontEnd::Done(unit)) => {
            assert_eq!(unit.tokens, Some(expected));
            assert!(unit.mir.is_none());
            assert!(unit.module.items.is_empty());
        },
        _ => panic!("expected the token dump"),
    }
}

#[test]
fn ast_stage_stops_with_the_module() {
    let mut s = session(EmitStage::Ast);
    match run_front_end(&mut s, pass_main()) {
        Ok(FrontEnd::Ast(unit, dump)) => {
            assert_eq!(unit.module.items.len(), 1);
            assert!(unit.tokens.is_none());
            assert!(unit.hir.is_none());
            assert_eq!(emit_mir(&unit), "");
            assert_eq!(dump, emit_ast(&unit));
            assert!(dump.contains("main"));
        },
        _ => panic!("expected the parsed module"),
    }
}

#[test]
fn later_stages_go_on_to_resolution() {
    let mut s = session(EmitStage::Mir);
    let parsed = match run_front_end(&mut s, pass_main()) {
        Ok(FrontEnd::Parsed(p)) => p,
        _ => panic!("expected a parsed unit"),
    };
    assert!(!parsed.handler.has_errors());
    let resolution = Resolution { print: DefId(0), def_names: vec![] };
    let resolved = check_resolution(parsed, Some(resolution)).ok().expect("resolved");
    assert_eq!(resolved.module.items.len(), 1);
}

#[test]
fn empty_stream_fails_to_parse() {
    let mut s = session(EmitStage::Ast);
    match run_front_end(&mut s, TokenStream { tokens: vec![] }) {
        Err(PipelineError::Failed(m)) => assert_eq!(m, "parse failed"),
        _ => panic!("expected a parse failure"),
    }
}

#[test]
fn lexer_errors_stop_the_front_end() {
    let mut s = session(EmitStage::Tokens);
    s.handler.error(Span::dummy(), "invalid character".to_string());
    match run_front_end(&mut s, pass_main()) {
        Err(PipelineError::Reported(h)) => assert_eq!(h.errors(), 1),
        _ => panic!("expected the reported errors"),
    }
}

#[test]
fn missing_resolution_fails() {
    let parsed = ParsedUnit {
        module: rpython::ast::Module { items: vec![], span: Span::dummy() },
        arena: Arena::new(),
        handler: Handler::new(),
    };
    match check_resolution(parsed, None) {
        Err(PipelineError::Failed(m)) => assert_eq!(m, "name resolution failed"),
        _ => panic!("expected a resolution failure"),
    }
}

#[test]
fn reported_errors_read_in_order_with_the_count() {
    let mut map = SourceMap::new();
    let file = map.load_file("m.rpy".to_string(), "x = 1\ny = \n".to_string());
    let mut h = Handler::new();
    h.error(Span::new(file, BytePos(10), BytePos(11)), "expected expression".to_string());
    h.emit(Diagnostic::error("second".to_string()));
    assert_eq!(
        report_errors(&map, &h),
        "error: expected expression\n  --> m.rpy:2:5\n   | \nerror: second\n\n2 error(s) emitted\n"
    );
    assert_eq!(report_errors(&map, &Handler::new()), "");
}

#[test]
fn stages_without_output_are_refused() {
    use_stage(EmitStage::Hir, Some("emit stage Hir not implemented yet"));
    use_stage(EmitStage::Llvm, Some("emit stage Llvm not implemented yet"));
    use_stage(EmitStage::Mir, None);
    use_stage(EmitStage::Executable, None);
}

fn use_stage(emit: EmitStage, expected: Option<&str>) {
    assert_eq!(rpython::driver::session::unimplemented_stage(emit).as_deref(), expected);
}
