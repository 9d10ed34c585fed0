use rpython::cli::explain_error;
use rpython::driver::pipeline::can_report;
use rpython::errors::{Diagnostic, Emitter, ErrorCode, Handler, HumanEmitter, Level, SourceMap};
use rpython::span::{BytePos, FileId, Span};

#[test]
fn error_code_text_is_padded() {
    assert_eq!(ErrorCode(1).as_str(), "E0001");
    assert_eq!(ErrorCode(201).as_str(), "E0201");
    assert_eq!(ErrorCode(12345).as_str(), "E12345");
}

#[test]
fn error_code_documentation() {
    assert_eq!(ErrorCode(300).explain(), "type mismatch");
    assert_eq!(ErrorCode(999).explain(), "no documentation available for this error code");
}

#[test]
fn explain_error_reads_codes() {
    assert_eq!(explain_error("E0001"), "invalid character in source");
    assert_eq!(explain_error("e0302"), "cannot infer type");
    assert_eq!(explain_error("E+0306"), "trait bound not satisfied");
    assert_eq!(explain_error("E4"), "no documentation available for this error code");
    assert_eq!(explain_error("X0001"), "expected error code like E0001");
    assert_eq!(explain_error("E"), "expected error code like E0001");
    assert_eq!(explain_error("E+"), "expected error code like E0001");
    assert_eq!(explain_error("E-1"), "expected error code like E0001");
    assert_eq!(explain_error("E00x1"), "expected error code like E0001");
    assert_eq!(explain_error("E65536"), "expected error code like E0001");
    assert_eq!(explain_error("E65535"), "no documentation available for this error code");
    assert_eq!(explain_error(""), "expected error code like E0001");
}

#[test]
fn explaining_the_text_of_a_code_documents_it() {
    for n in [1u16, 2, 201, 202, 203, 204, 300, 301, 302, 303, 304, 305, 306, 7, 65535] {
        let code = ErrorCode(n);
        assert_eq!(explain_error(&code.as_str()), code.explain());
    }
}

#[test]
fn handler_counts_errors_and_warnings() {
    let mut h = Handler::new();
    assert!(!h.has_errors());
    assert_eq!(h.errors(), 0);
    let mut warning = Diagnostic::error("careful".to_string());
    warning.level = Level::Warning;
    h.emit(warning);
    assert!(!h.has_errors());
    h.error(Span::dummy(), "bad".to_string());
    assert!(h.has_errors());
    assert_eq!(h.errors(), 1);
    assert_eq!(h.diagnostics().len(), 2);
    assert!(!h.should_abort());
}

#[test]
fn human_emitter_renders_labels_and_count() {
    let mut map = SourceMap::new();
    let file = map.load_file("t.rpy".to_string(), "ab\ncd\n".to_string());
    assert_eq!(file, FileId(0));
    let mut h = Handler::new();
    h.emit(
        Diagnostic::error("unexpected token".to_string())
            .with_code(ErrorCode(1))
            .with_label(Span::new(file, BytePos(4), BytePos(5)), "here".to_string(), true),
    );
    let mut emitter = HumanEmitter::new();
    h.report(&map, &mut emitter);
    assert_eq!(
        emitter.into_string(),
        "error[E0001]: unexpected token\n  --> t.rpy:2:2\n   | here\n\n1 error(s) emitted\n"
    );
}

#[test]
fn human_emitter_without_errors_adds_no_count() {
    let map = SourceMap::new();
    let mut h = Handler::new();
    let note = || {
        let mut d = Diagnostic::error("just so you know".to_string());
        d.level = Level::Note;
        d
    };
    h.emit(note());
    let note = note();
    let mut emitter = HumanEmitter::new();
    emitter.emit(&map, &note);
    emitter.finish(&map, &h);
    assert_eq!(emitter.into_string(), "note: just so you know\n");
}

#[test]
fn line_and_column_of_a_span() {
    let mut map = SourceMap::new();
    let file = map.load_file("x.rpy".to_string(), "first\nsecond\nthird".to_string());
    let lc = map.line_col(Span::new(file, BytePos(13), BytePos(14)));
    assert_eq!((lc.line, lc.col), (3, 1));
    let lc = map.line_col(Span::new(file, BytePos(0), BytePos(1)));
    assert_eq!((lc.line, lc.col), (1, 1));
    let lc = map.line_col(Span::new(file, BytePos(8), BytePos(9)));
    assert_eq!((lc.line, lc.col), (2, 3));
}

#[test]
fn merged_span_covers_both() {
    let a = Span::new(FileId(0), BytePos(4), BytePos(9));
    let b = Span::new(FileId(0), BytePos(2), BytePos(6));
    let m = Span::merge(a, b);
    assert_eq!((m.lo.0, m.hi.0), (2, 9));
    let m2 = Span::merge(b, a);
    assert_eq!(m, m2);
}

#[test]
fn labels_outside_the_loaded_files_cannot_be_reported() {
    let mut map = SourceMap::new();
    let file = map.load_file("t.rpy".to_string(), "ab\n".to_string());
    let mut h = Handler::new();
    h.emit(Diagnostic::error("in the file".to_string()).with_label(Span::new(file, BytePos(1), BytePos(2)), "here".to_string(), true));
    assert!(can_report(&map, &h));
    h.emit(Diagnostic::error("elsewhere".to_string()).with_label(Span::new(FileId(7), BytePos(0), BytePos(1)), "here".to_string(), true));
    assert!(!can_report(&map, &h));
}

#[test]
fn default_emitter_has_rendered_nothing() {
    let emitter = HumanEmitter::default();
    assert_eq!(emitter.into_string(), "");
}
