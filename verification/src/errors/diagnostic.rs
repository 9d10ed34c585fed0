use vstd::prelude::*;

use crate::errors::ErrorCode;
use crate::span::Span;

verus! {

/// Severity of a diagnostic.
#[derive(Clone, Copy, Debug, PartialEq, Eq, Structural)]
pub enum Level {
    Error,
    Warning,
    Note,
    Help,
}

/// A source location a diagnostic points at.
#[derive(Clone, Debug)]
pub struct Label {
    pub span: Span,
    pub message: String,
    pub primary: bool,
}

/// A suggested fix.
#[derive(Clone, Debug)]
pub struct Suggestion {
    pub message: String,
    pub replacement: Option<String>,
}

/// A compiler message with its labels, suggestions and nested notes.
#[derive(Debug)]
pub struct Diagnostic {
    pub level: Level,
    pub code: Option<ErrorCode>,
    pub message: String,
    pub labels: Vec<Label>,
    pub suggestions: Vec<Suggestion>,
    pub children: Vec<Diagnostic>,
}

impl Diagnostic {
    /// An error with `message` and nothing else.
    pub fn error(message: String) -> (d: Diagnostic)
        ensures
            d.level == Level::Error,
            d.code.is_none(),
            d.message@ == message@,
            d.labels@.len() == 0,
            d.suggestions@.len() == 0,
            d.children@.len() == 0,
    {
        Diagnostic {
            level: Level::Error,
            code: None,
            message,
            labels: Vec::new(),
            suggestions: Vec::new(),
            children: Vec::new(),
        }
    }

    /// The same diagnostic with its code set to `code`.
    pub fn with_code(self, code: ErrorCode) -> (d: Diagnostic)
        ensures
            d == (Diagnostic { code: Some(code), ..self }),
    {
        let mut d = self;
        d.code = Some(code);
        d
    }

    /// The same diagnostic with one more label at the end.
    pub fn with_label(self, span: Span, message: String, primary: bool) -> (d: Diagnostic)
        ensures
            d.level == self.level,
            d.code == self.code,
            d.message == self.message,
            d.labels@ == self.labels@.push(Label { span, message, primary }),
            d.suggestions == self.suggestions,
            d.children == self.children,
    {
        let mut d = self;
        d.labels.push(Label { span, message, primary });
        d
    }
}

} // verus!
