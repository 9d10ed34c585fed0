//! What one compilation is asked to do and works on.

use vstd::prelude::*;

use crate::errors::handler::Handler;
use crate::errors::source_map::SourceMap;
use crate::span::FileId;

verus! {

/// What a compilation is asked to produce.
#[derive(Clone, Debug)]
pub struct CompileOptions {
    pub emit: EmitStage,
    /// The path of the executable; next to the input when absent.
    pub output: Option<String>,
    pub opt_level: OptLevel,
    pub run_interp: bool,
}

impl Default for CompileOptions {
    /// A full compilation to an executable, unoptimised, next to the input.
    fn default() -> (o: Self)
        ensures
            o.emit == EmitStage::Executable,
            o.output is None,
            o.opt_level == OptLevel::O0,
            !o.run_interp,
    {
        CompileOptions { emit: EmitStage::Executable, output: None, opt_level: OptLevel::O0, run_interp: false }
    }
}

/// The optimisation level handed to the C compiler.
#[derive(Clone, Copy, Debug, PartialEq, Eq, Structural, Default)]
pub enum OptLevel {
    #[default]
    O0,
    O1,
    O2,
    O3,
}

/// The stage after which a compilation stops and prints what it has.
#[derive(Clone, Copy, Debug, PartialEq, Eq, Structural, Default)]
pub enum EmitStage {
    Tokens,
    Ast,
    Hir,
    Mir,
    Llvm,
    #[default]
    Executable,
}

/// The refusal of an emit stage that has no output yet: `Hir` and `Llvm`.
pub open spec fn unimplemented_stage_text(emit: EmitStage) -> Option<Seq<char>> {
    match emit {
        EmitStage::Hir => Some("emit stage Hir not implemented yet"@),
        EmitStage::Llvm => Some("emit stage Llvm not implemented yet"@),
        _ => None,
    }
}

/// The message that refuses an emit stage without output yet, if `emit`
/// is one.
pub fn unimplemented_stage(emit: EmitStage) -> (r: Option<String>)
    ensures
        match unimplemented_stage_text(emit) {
            Some(t) => r matches Some(m) && m@ == t,
            None => r is None,
        },
{
    match emit {
        EmitStage::Hir => Some(String::from_str("emit stage Hir not implemented yet")),
        EmitStage::Llvm => Some(String::from_str("emit stage Llvm not implemented yet")),
        _ => None,
    }
}

/// One compilation: its source, its diagnostics and its options.
pub struct CompilerSession {
    pub source_map: SourceMap,
    pub file_id: FileId,
    pub handler: Handler,
    pub options: CompileOptions,
    pub input_path: String,
    pub source: String,
}

impl CompilerSession {
    pub fn new(
        source_map: SourceMap,
        file_id: FileId,
        handler: Handler,
        options: CompileOptions,
        input_path: String,
        source: String,
    ) -> (s: Self)
        ensures
            s.source_map == source_map,
            s.file_id == file_id,
            s.handler == handler,
            s.options == options,
            s.input_path == input_path,
            s.source == source,
    {
        CompilerSession { source_map, file_id, handler, options, input_path, source }
    }
}

} // verus!
