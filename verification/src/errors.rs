//! Diagnostics: error codes, diagnostics, the handler that collects them and
//! the emitter that renders them for humans.

pub mod codes;
pub mod diagnostic;
pub mod emitter;
pub mod handler;
pub mod source_map;

pub use codes::ErrorCode;
pub use diagnostic::{Diagnostic, Label, Level, Suggestion};
pub use emitter::{Emitter, HumanEmitter};
pub use handler::Handler;
pub use source_map::{LineCol, SourceFile, SourceMap};
