//! The stages of a compilation, from a token stream to MIR, and the text
//! dumps of the token stream, the AST and the MIR.

use vstd::prelude::*;

use crate::ast::arena::{items_in, items_ok, Arena};
use crate::ast::display::{format_module, module_text, room};
use crate::ast::Module;
use crate::borrowck::borrowck_crate;
use crate::driver::session::{CompilerSession, EmitStage};
use crate::errors::diagnostic::Diagnostic;
use crate::errors::emitter::{diagnostic_text, finish_text, labels_resolvable, rendered_all, Emitter, HumanEmitter};
use crate::errors::handler::Handler;
use crate::errors::source_map::SourceMap;
use crate::hir::HirCrate;
use crate::hir_build::{build_hir, hir_built_from, TypedCrate};
use crate::mir::body::{func_lookup, MirCrate};
use crate::mir::interp::{can_interpret, crate_wf, defs_wf, entry_func, interpret_crate, lines_view, run_body};
use crate::mir::pretty::{bodies_text, format_mir_crate};
use crate::mir_build::lower::lowered_from;
use crate::mir_build::{build_mir, can_build_mir, lowerable, owner_body};
use crate::parse::parse_module;
use crate::resolve::Resolution;
use crate::span::Span;
use crate::syntax::{spec_name, IntLiteral, SpannedToken, TokenKind, TokenStream};
use crate::text::{debug_str_text, dec, dec_int, push_debug_str, push_dec, push_int, push_str};

verus! {

// ---- the token dump -------------------------------------------------------

/// An integer literal as `{:?}` gives it.
pub open spec fn int_literal_debug(v: IntLiteral) -> Seq<char> {
    match v {
        IntLiteral::Decimal(n) => "Decimal("@ + dec_int(n as int) + ")"@,
        IntLiteral::Hex(n) => "Hex("@ + dec_int(n as int) + ")"@,
        IntLiteral::Bin(n) => "Bin("@ + dec_int(n as int) + ")"@,
    }
}

/// Bytes separated by `, `.
pub open spec fn bytes_list(b: Seq<u8>) -> Seq<char>
    decreases b.len(),
{
    if b.len() == 0 {
        Seq::empty()
    } else if b.len() == 1 {
        dec(b[0] as nat)
    } else {
        bytes_list(b.drop_last()) + ", "@ + dec(b.last() as nat)
    }
}

/// A byte vector as `{:?}` gives it.
pub open spec fn bytes_debug(b: Seq<u8>) -> Seq<char> {
    "["@ + bytes_list(b) + "]"@
}

/// The line of the token dump for a token kind: a literal or identifier
/// with its value, any other kind by its name.
pub open spec fn token_text(k: TokenKind) -> Seq<char> {
    match k {
        TokenKind::Eof => "Eof"@,
        TokenKind::Newline => "Newline"@,
        TokenKind::Indent => "Indent"@,
        TokenKind::Dedent => "Dedent"@,
        TokenKind::IntLit { value } => "IntLit("@ + int_literal_debug(value) + ")"@,
        TokenKind::FloatLit { value } => "FloatLit("@ + value@ + ")"@,
        TokenKind::StringLit { value } => "StringLit("@ + debug_str_text(value@) + ")"@,
        TokenKind::BytesLit { value } => "BytesLit("@ + bytes_debug(value@) + ")"@,
        TokenKind::BoolLit(b) => "BoolLit("@ + if b {
            "true"@
        } else {
            "false"@
        } + ")"@,
        TokenKind::Ident { name } => "Ident("@ + name@ + ")"@,
        _ => spec_name(k),
    }
}

/// The token dump: one line per token.
pub open spec fn tokens_text(ts: Seq<SpannedToken>) -> Seq<char>
    decreases ts.len(),
{
    if ts.len() == 0 {
        Seq::empty()
    } else {
        tokens_text(ts.drop_last()) + token_text(ts.last().kind) + "\n"@
    }
}

fn push_bytes_debug(out: &mut String, b: &Vec<u8>)
    ensures
        final(out)@ == old(out)@ + bytes_debug(b@),
{
    let ghost o0 = out@;
    push_str(out, "[");
    let ghost o1 = out@;
    let mut i: usize = 0;
    while i < b.len()
        invariant
            i <= b@.len(),
            out@ == o1 + bytes_list(b@.subrange(0, i as int)),
        decreases b@.len() - i,
    {
        if i > 0 {
            push_str(out, ", ");
        }
        push_dec(out, b[i] as u128);
        proof {
            assert(b@.subrange(0, i + 1).drop_last() =~= b@.subrange(0, i as int));
        }
        i = i + 1;
        assert(out@ =~= o1 + bytes_list(b@.subrange(0, i as int)));
    }
    assert(b@.subrange(0, b@.len() as int) =~= b@);
    push_str(out, "]");
    assert(out@ =~= o0 + bytes_debug(b@));
}

/// The line of the token dump for a token.
pub fn format_token(token: &SpannedToken) -> (s: String)
    ensures
        s@ == token_text(token.kind),
{
    let mut out = String::new();
    match &token.kind {
        TokenKind::Eof => push_str(&mut out, "Eof"),
        TokenKind::Newline => push_str(&mut out, "Newline"),
        TokenKind::Indent => push_str(&mut out, "Indent"),
        TokenKind::Dedent => push_str(&mut out, "Dedent"),
        TokenKind::IntLit { value } => {
            push_str(&mut out, "IntLit(");
            match value {
                IntLiteral::Decimal(n) => {
                    push_str(&mut out, "Decimal(");
                    push_int(&mut out, *n);
                },
                IntLiteral::Hex(n) => {
                    push_str(&mut out, "Hex(");
                    push_int(&mut out, *n);
                },
                IntLiteral::Bin(n) => {
                    push_str(&mut out, "Bin(");
                    push_int(&mut out, *n);
                },
            }
            push_str(&mut out, ")");
            push_str(&mut out, ")");
        },
        TokenKind::FloatLit { value } => {
            push_str(&mut out, "FloatLit(");
            push_str(&mut out, value.as_str());
            push_str(&mut out, ")");
        },
        TokenKind::StringLit { value } => {
            push_str(&mut out, "StringLit(");
            push_debug_str(&mut out, value.as_str());
            push_str(&mut out, ")");
        },
        TokenKind::BytesLit { value } => {
            push_str(&mut out, "BytesLit(");
            push_bytes_debug(&mut out, value);
            push_str(&mut out, ")");
        },
        TokenKind::BoolLit(b) => {
            push_str(&mut out, "BoolLit(");
            push_str(&mut out, if *b { "true" } else { "false" });
            push_str(&mut out, ")");
        },
        TokenKind::Ident { name } => {
            push_str(&mut out, "Ident(");
            push_str(&mut out, name.as_str());
            push_str(&mut out, ")");
        },
        kind => push_str(&mut out, kind.name()),
    }
    assert(out@ =~= token_text(token.kind));
    out
}

/// The token dump of a stream: one line per token.
pub fn format_token_stream(tokens: &[SpannedToken]) -> (s: String)
    ensures
        s@ == tokens_text(tokens@),
{
    let mut out = String::new();
    let mut i: usize = 0;
    while i < tokens.len()
        invariant
            i <= tokens@.len(),
            out@ == tokens_text(tokens@.subrange(0, i as int)),
        decreases tokens@.len() - i,
    {
        let line = format_token(&tokens[i]);
        push_str(&mut out, line.as_str());
        push_str(&mut out, "\n");
        proof {
            assert(tokens@.subrange(0, i + 1).drop_last() =~= tokens@.subrange(0, i as int));
        }
        i = i + 1;
        assert(out@ =~= tokens_text(tokens@.subrange(0, i as int)));
    }
    assert(tokens@.subrange(0, tokens@.len() as int) =~= tokens@);
    out
}

// ---- reporting errors --------------------------------------------------------

/// Diagnostics rendered in order.
pub open spec fn diagnostics_text(sm: &SourceMap, ds: Seq<Diagnostic>) -> Seq<char>
    decreases ds.len(),
{
    if ds.len() == 0 {
        Seq::empty()
    } else {
        diagnostics_text(sm, ds.drop_last()) + diagnostic_text(sm, &ds.last())
    }
}

/// Whether every label of every diagnostic of `handler` can be placed in
/// `source_map`, as [`report_errors`] needs.
pub fn can_report(source_map: &SourceMap, handler: &Handler) -> (r: bool)
    ensures
        r == forall|i: int| 0 <= i < handler.diags().len() ==> labels_resolvable(source_map, #[trigger] &handler.diags()[i]),
{
    let ds = handler.diagnostics();
    let mut i: usize = 0;
    while i < ds.len()
        invariant
            i <= ds@.len(),
            ds@ == handler.diags(),
            forall|k: int| 0 <= k < i ==> labels_resolvable(source_map, #[trigger] &handler.diags()[k]),
        decreases ds@.len() - i,
    {
        let d = &ds[i];
        let mut j: usize = 0;
        while j < d.labels.len()
            invariant
                j <= d.labels@.len(),
                i < ds@.len(),
                ds@ == handler.diags(),
                *d == handler.diags()[i as int],
                forall|k: int|
                    0 <= k < j ==> {
                        let sp = #[trigger] d.labels@[k].span;
                        &&& source_map.has_file(sp.file_id)
                        &&& sp.lo.0 < u32::MAX
                        &&& source_map.files@[sp.file_id.0 as int].line_starts@.len() < u32::MAX
                    },
            decreases d.labels@.len() - j,
        {
            let sp = d.labels[j].span;
            match source_map.file(sp.file_id) {
                Some(f) => {
                    if sp.lo.0 >= 4294967295u32 || f.line_starts.len() >= 4294967295usize {
                        assert(!labels_resolvable(source_map, &handler.diags()[i as int]) && d.labels@[j as int].span == sp);
                        return false;
                    }
                },
                None => {
                    assert(!labels_resolvable(source_map, &handler.diags()[i as int]) && d.labels@[j as int].span == sp);
                    return false;
                },
            }
            j = j + 1;
        }
        i = i + 1;
    }
    true
}

/// The message of a compilation stopped by errors: every diagnostic of the
/// handler, in order, then the count of errors.
pub fn report_errors(source_map: &SourceMap, handler: &Handler) -> (s: String)
    requires
        forall|i: int| 0 <= i < handler.diags().len() ==> labels_resolvable(source_map, #[trigger] &handler.diags()[i]),
    ensures
        s@ == diagnostics_text(source_map, handler.diags()) + finish_text(handler),
{
    let mut emitter = HumanEmitter::new();
    handler.report(source_map, &mut emitter);
    proof {
        lemma_rendered_human(source_map, handler.diags());
    }
    emitter.into_string()
}

proof fn lemma_rendered_human(sm: &SourceMap, ds: Seq<Diagnostic>)
    ensures
        rendered_all::<HumanEmitter>(sm, ds) == diagnostics_text(sm, ds),
    decreases ds.len(),
{
    if ds.len() > 0 {
        lemma_rendered_human(sm, ds.drop_last());
    }
}

// ---- the stages ------------------------------------------------------------

/// What a compilation produced, as far as it went.
pub struct CompiledUnit {
    pub module: Module,
    pub arena: Arena,
    pub resolution: Option<Resolution>,
    pub typed: Option<TypedCrate>,
    pub hir: Option<HirCrate>,
    pub mir: Option<MirCrate>,
    /// The token dump, when the compilation stopped after lexing.
    pub tokens: Option<String>,
}

/// A parsed module, waiting for name resolution.
pub struct ParsedUnit {
    pub module: Module,
    pub arena: Arena,
    pub handler: Handler,
}

/// A module whose names resolved, waiting for type checking.
pub struct ResolvedUnit {
    pub module: Module,
    pub arena: Arena,
    pub resolution: Resolution,
    pub handler: Handler,
}

/// Where a compilation stands after the front end.
pub enum FrontEnd {
    /// The stage asked for is reached: the unit is complete.
    Done(CompiledUnit),
    /// The AST stage is reached: the unit holds the module, and the text is
    /// its dump.
    Ast(CompiledUnit, String),
    /// The module is parsed; resolution and type checking come next.
    Parsed(ParsedUnit),
}

/// Why a compilation stopped.
pub enum PipelineError {
    /// Errors were reported; they are the diagnostics of the handler.
    Reported(Handler),
    /// A stage failed with this message.
    Failed(String),
    /// The lowered program breaks what a later stage relies on (a HIR body
    /// that MIR building cannot take, or MIR the interpreter cannot run):
    /// a defect of the compiler, not of the program.
    Bug(String),
}

/// The unit of a compilation that stopped after lexing.
pub open spec fn tokens_unit(u: CompiledUnit, ts: Seq<SpannedToken>) -> bool {
    &&& u.module.items@.len() == 0
    &&& u.tokens matches Some(t) && t@ == tokens_text(ts)
    &&& u.resolution is None
    &&& u.typed is None
    &&& u.hir is None
    &&& u.mir is None
}

/// The session is the same but for its handler.
pub open spec fn same_session(a: CompilerSession, b: CompilerSession) -> bool {
    &&& a.source_map == b.source_map
    &&& a.file_id == b.file_id
    &&& a.options == b.options
    &&& a.input_path == b.input_path
    &&& a.source == b.source
}

/// Lexing and parsing. The token stream is what the lexer produced with
/// the session's handler. Errors already reported stop the compilation;
/// at `EmitStage::Tokens` the unit holds the token dump; else the stream is
/// parsed, and at `EmitStage::Ast` the unit holds the module and comes
/// with its dump.
pub fn run_front_end(session: &mut CompilerSession, stream: TokenStream) -> (r: Result<FrontEnd, PipelineError>)
    requires
        stream.tokens@.len() > 0 ==> stream.tokens@.last().kind is Eof,
        old(session).handler.wf(),
    ensures
        same_session(*final(session), *old(session)),
        old(session).handler.error_count() > 0 ==> (r matches Err(PipelineError::Reported(h)) && h == old(session).handler),
        old(session).handler.error_count() == 0 && old(session).options.emit == EmitStage::Tokens ==> (
        r matches Ok(FrontEnd::Done(u)) && tokens_unit(u, stream.tokens@) && final(session).handler == old(session).handler),
        old(session).handler.error_count() == 0 && old(session).options.emit != EmitStage::Tokens && stream.tokens@.len() == 0
            ==> (r matches Err(PipelineError::Failed(m)) && m@ == "parse failed"@),
        old(session).handler.error_count() == 0 && old(session).options.emit != EmitStage::Tokens && stream.tokens@.len() > 0
            ==> match r {
            Err(PipelineError::Reported(h)) => h.wf() && h.error_count() > 0,
            Ok(FrontEnd::Ast(u, dump)) => {
                &&& old(session).options.emit == EmitStage::Ast
                &&& items_in(&u.arena, u.module.items@)
                &&& u.arena.fits() && u.arena.wf()
                &&& dump@ == module_text(&u.arena, u.module)
                &&& u.tokens is None && u.resolution is None && u.typed is None && u.hir is None && u.mir is None
                &&& final(session).handler.wf() && final(session).handler.error_count() == 0
            },
            Err(PipelineError::Bug(m)) => old(session).options.emit == EmitStage::Ast && m@ == "AST arena too large"@,
            Ok(FrontEnd::Parsed(p)) => {
                &&& old(session).options.emit != EmitStage::Ast
                &&& items_in(&p.arena, p.module.items@)
                &&& p.arena.fits() ==> p.arena.wf()
                &&& p.handler.wf() && p.handler.error_count() == 0
            },
            _ => false,
        },
{
    let mut handler = Handler::new();
    std::mem::swap(&mut handler, &mut session.handler);
    if handler.has_errors() {
        return Err(PipelineError::Reported(handler));
    }
    let token_text = format_token_stream(stream.tokens());
    if session.options.emit == EmitStage::Tokens {
        session.handler = handler;
        return Ok(
            FrontEnd::Done(
                CompiledUnit {
                    module: Module { items: Vec::new(), span: Span::dummy() },
                    arena: Arena::new(),
                    resolution: None,
                    typed: None,
                    hir: None,
                    mir: None,
                    tokens: Some(token_text),
                },
            ),
        );
    }
    let mut arena = Arena::new();
    let module = match parse_module(stream, &mut arena, &mut handler) {
        Some(m) => m,
        None => return Err(PipelineError::Failed(String::from_str("parse failed"))),
    };
    if handler.has_errors() {
        return Err(PipelineError::Reported(handler));
    }
    if session.options.emit == EmitStage::Ast {
        session.handler = handler;
        if !arena_fits(&arena) || !dump_has_room(&arena) {
            return Err(PipelineError::Bug(String::from_str("AST arena too large")));
        }
        proof {
            crate::ast::arena::lemma_seq_in_ok(&arena);
        }
        let dump = format_module(&module, &arena);
        return Ok(
            FrontEnd::Ast(
                CompiledUnit { module, arena, resolution: None, typed: None, hir: None, mir: None, tokens: None },
                dump,
            ),
        );
    }
    Ok(FrontEnd::Parsed(ParsedUnit { module, arena, handler }))
}

/// Whether the ids of every kind of node of `arena` fit in 32 bits.
fn arena_fits(arena: &Arena) -> (b: bool)
    ensures
        b == arena.fits(),
{
    arena.expr_count() <= 4294967295usize && arena.stmt_count() <= 4294967295usize && arena.item_count()
        <= 4294967295usize && arena.pat_count() <= 4294967295usize && arena.ty_count() <= 4294967295usize
}

/// Whether the dump of a well-formed arena has room: its node count, which
/// is its next rank, leaves room for the dump's indentation.
fn dump_has_room(arena: &Arena) -> (b: bool)
    requires
        arena.wf(),
    ensures
        b ==> room(0, arena.next_rank(), 2),
{
    let limit: usize = (usize::MAX - 20) / 16;
    let counts = [arena.expr_count(), arena.stmt_count(), arena.item_count(), arena.pat_count(), arena.ty_count()];
    let mut n: usize = 0;
    let mut i: usize = 0;
    while i < 5
        invariant
            i <= 5,
            n <= limit,
            limit == (usize::MAX - 20) / 16,
            counts@.len() == 5,
            counts@[0] == arena.exprs().len() && counts@[1] == arena.stmts().len() && counts@[2] == arena.items().len()
                && counts@[3] == arena.pats().len() && counts@[4] == arena.tys().len(),
            n == (if i == 0 { 0 } else if i == 1 { counts@[0] as int } else if i == 2 { counts@[0] + counts@[1] } else if i == 3 {
                counts@[0] + counts@[1] + counts@[2]
            } else if i == 4 { counts@[0] + counts@[1] + counts@[2] + counts@[3] } else {
                counts@[0] + counts@[1] + counts@[2] + counts@[3] + counts@[4]
            }),
        decreases 5 - i,
    {
        let c = counts[i];
        if c > limit - n {
            return false;
        }
        n = n + c;
        i = i + 1;
    }
    assert(16 * n + 20 <= usize::MAX) by (nonlinear_arith)
        requires
            n <= (usize::MAX - 20) / 16,
            usize::MAX >= 20,
    ;
    true
}

/// Takes what name resolution returned: a failure or reported errors stop
/// the compilation.
pub fn check_resolution(parsed: ParsedUnit, resolution: Option<Resolution>) -> (r: Result<ResolvedUnit, PipelineError>)
    ensures
        resolution is None ==> (r matches Err(PipelineError::Failed(m)) && m@ == "name resolution failed"@),
        resolution is Some && parsed.handler.error_count() > 0 ==> (r matches Err(PipelineError::Reported(h)) && h
            == parsed.handler),
        resolution is Some && parsed.handler.error_count() == 0 ==> (r matches Ok(u) && u.module == parsed.module
            && u.arena == parsed.arena && u.resolution == resolution.unwrap() && u.handler == parsed.handler),
{
    let resolution = match resolution {
        Some(res) => res,
        None => return Err(PipelineError::Failed(String::from_str("name resolution failed"))),
    };
    if parsed.handler.has_errors() {
        return Err(PipelineError::Reported(parsed.handler));
    }
    Ok(ResolvedUnit { module: parsed.module, arena: parsed.arena, resolution, handler: parsed.handler })
}

/// Every item that `typed` records has a node in `arena`.
pub open spec fn items_have_nodes(typed: &TypedCrate, arena: &Arena) -> bool {
    forall|i: int| 0 <= i < typed.item_def_ids@.len() ==> (#[trigger] typed.item_def_ids@[i]).0 .0 < arena.items().len()
}

fn items_known(typed: &TypedCrate, arena: &Arena) -> (r: bool)
    ensures
        r == items_have_nodes(typed, arena),
{
    let n = arena.item_count();
    let mut i: usize = 0;
    while i < typed.item_def_ids.len()
        invariant
            i <= typed.item_def_ids@.len(),
            n == arena.items().len(),
            forall|j: int| 0 <= j < i ==> (#[trigger] typed.item_def_ids@[j]).0 .0 < n,
        decreases typed.item_def_ids@.len() - i,
    {
        if typed.item_def_ids[i].0.index() >= n {
            return false;
        }
        i = i + 1;
    }
    true
}

/// HIR and MIR. The handler and the type information are what type
/// checking returned; a failure or reported errors stop the compilation.
/// Else the module is lowered to HIR, the HIR to MIR, and the MIR is
/// borrow-checked; at `EmitStage::Hir` the unit leaves the MIR out.
pub fn run_back_end(session: &mut CompilerSession, resolved: ResolvedUnit, typed: Option<TypedCrate>) -> (r: Result<
    CompiledUnit,
    PipelineError,
>)
    requires
        resolved.arena.fits() ==> resolved.arena.wf(),
    ensures
        same_session(*final(session), *old(session)),
        typed is None ==> (r matches Err(PipelineError::Reported(h)) && h == resolved.handler),
        typed is Some && resolved.handler.error_count() > 0 ==> (r matches Err(PipelineError::Reported(h)) && h
            == resolved.handler),
        typed is Some && resolved.handler.error_count() == 0 && !resolved.arena.fits() ==> (r matches Err(
            PipelineError::Bug(m),
        ) && m@ == "AST arena too large"@),
        typed is Some && resolved.handler.error_count() == 0 && resolved.arena.fits() && !items_have_nodes(
            &typed.unwrap(),
            &resolved.arena,
        ) ==> (r matches Err(PipelineError::Bug(m)) && m@ == "item without AST node"@),
        typed is Some && resolved.handler.error_count() == 0 && resolved.arena.fits() && items_have_nodes(
            &typed.unwrap(),
            &resolved.arena,
        ) ==> match r {
            Ok(u) => {
                &&& u.module == resolved.module
                &&& u.arena == resolved.arena
                &&& u.resolution == Some(resolved.resolution)
                &&& u.typed == typed
                &&& u.tokens is None
                &&& final(session).handler == resolved.handler
                &&& u.hir matches Some(h) && hir_built_from(h, &typed.unwrap(), &resolved.arena) && lowerable(h)
                    && match u.mir {
                    None => old(session).options.emit == EmitStage::Hir,
                    Some(m) => {
                        &&& old(session).options.emit != EmitStage::Hir
                        &&& m.funcs().len() == h.entries().len()
                        &&& forall|i: int| 0 <= i < m.funcs().len() ==> lowered_from(#[trigger] m.funcs()[i].1, owner_body(h.entries()[i].1))
                    },
                }
            },
            Err(PipelineError::Bug(m)) => m@ == "HIR body cannot be lowered to MIR"@ && exists|h: HirCrate|
                #[trigger] hir_built_from(h, &typed.unwrap(), &resolved.arena) && !lowerable(h),
            _ => false,
        },
{
    let typed = match typed {
        Some(t) => t,
        None => return Err(PipelineError::Reported(resolved.handler)),
    };
    if resolved.handler.has_errors() {
        return Err(PipelineError::Reported(resolved.handler));
    }
    let arena = resolved.arena;
    if arena.expr_count() > 4294967295usize || arena.stmt_count() > 4294967295usize || arena.item_count() > 4294967295usize
        || arena.pat_count() > 4294967295usize || arena.ty_count() > 4294967295usize {
        return Err(PipelineError::Bug(String::from_str("AST arena too large")));
    }
    if !items_known(&typed, &arena) {
        return Err(PipelineError::Bug(String::from_str("item without AST node")));
    }
    let hir = build_hir(&typed, &resolved.module, &arena);
    if !can_build_mir(&hir) {
        return Err(PipelineError::Bug(String::from_str("HIR body cannot be lowered to MIR")));
    }
    let mir = borrowck_crate(build_mir(&hir));
    session.handler = resolved.handler;
    let mir = if session.options.emit == EmitStage::Hir {
        None
    } else {
        Some(mir)
    };
    Ok(
        CompiledUnit {
            module: resolved.module,
            arena,
            resolution: Some(resolved.resolution),
            typed: Some(typed),
            hir: Some(hir),
            mir,
            tokens: None,
        },
    )
}

/// The interpreter run of a compilation that asked for one: the lines it
/// prints go to `out`.
pub fn run_interp_stage(session: &CompilerSession, unit: &CompiledUnit, fuel: u64, out: &mut Vec<String>) -> (r: Result<(), PipelineError>)
    ensures
        !session.options.run_interp || unit.mir is None ==> r is Ok && final(out)@ == old(out)@,
        session.options.run_interp && unit.mir is Some ==> ({
            let m = unit.mir.unwrap();
            if crate_wf(m) && defs_wf(m) {
                match entry_func(m) {
                    Ok(f) => r is Ok && lines_view(final(out)@) == run_body(
                        m,
                        func_lookup(m.funcs(), f).unwrap(),
                        Seq::empty(),
                        fuel as nat,
                        lines_view(old(out)@),
                    ).1,
                    Err(e) => (r matches Err(PipelineError::Failed(msg)) && msg@ == e && final(out)@ == old(out)@),
                }
            } else {
                r matches Err(PipelineError::Bug(msg)) && msg@ == "MIR cannot be interpreted"@ && final(out)@ == old(out)@
            }
        }),
{
    if !session.options.run_interp {
        return Ok(());
    }
    match &unit.mir {
        None => Ok(()),
        Some(m) => {
            if !can_interpret(m) {
                return Err(PipelineError::Bug(String::from_str("MIR cannot be interpreted")));
            }
            match interpret_crate(m, fuel, out) {
                Ok(()) => Ok(()),
                Err(e) => Err(PipelineError::Failed(e)),
            }
        },
    }
}

/// The AST dump of a unit.
pub fn emit_ast(unit: &CompiledUnit) -> (s: String)
    requires
        unit.arena.wf(),
        items_ok(&unit.arena, unit.module.items@, unit.arena.next_rank()),
        room(0, unit.arena.next_rank(), 2),
    ensures
        s@ == module_text(&unit.arena, unit.module),
{
    format_module(&unit.module, &unit.arena)
}

/// The MIR dump of a unit; empty without MIR.
pub fn emit_mir(unit: &CompiledUnit) -> (s: String)
    ensures
        s@ == match unit.mir {
            Some(m) => bodies_text(m.funcs()),
            None => Seq::empty(),
        },
{
    match &unit.mir {
        Some(m) => format_mir_crate(m),
        None => String::new(),
    }
}

} // verus!
