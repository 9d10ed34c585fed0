use vstd::prelude::*;

use crate::errors::codes::{code_text, ErrorCode};
use crate::errors::diagnostic::{Diagnostic, Label, Level};
use crate::errors::handler::Handler;
use crate::errors::source_map::{spec_line_col, SourceMap};
use crate::text::{dec, push_dec, push_str};

verus! {

/// Renders diagnostics.
pub trait Emitter {
    /// What `emit` needs of a diagnostic and the source map.
    spec fn emit_requires(source_map: &SourceMap, diagnostic: &Diagnostic) -> bool;

    /// What the emitter has produced so far.
    spec fn output(&self) -> Seq<char>;

    /// What emitting a diagnostic adds to the output.
    spec fn rendered(source_map: &SourceMap, diagnostic: &Diagnostic) -> Seq<char>;

    /// What finishing adds to the output.
    spec fn finished(source_map: &SourceMap, handler: &Handler) -> Seq<char>;

    /// The calls made on the emitter so far, in order.
    spec fn calls(&self) -> Seq<EmitterCall>;

    fn emit(&mut self, source_map: &SourceMap, diagnostic: &Diagnostic)
        requires
            Self::emit_requires(source_map, diagnostic),
        ensures
            final(self).output() == old(self).output() + Self::rendered(source_map, diagnostic),
            final(self).calls() == old(self).calls().push(EmitterCall::Emit(*diagnostic)),
    ;

    fn finish(&mut self, source_map: &SourceMap, handler: &Handler)
        ensures
            final(self).output() == old(self).output() + Self::finished(source_map, handler),
            final(self).calls() == old(self).calls().push(EmitterCall::Finish(*handler)),
    ;
}

/// A call made on an emitter: `emit` of a diagnostic, or `finish` with a
/// handler.
pub enum EmitterCall {
    Emit(Diagnostic),
    Finish(Handler),
}

/// The `emit` calls for the diagnostics `ds`, in order.
pub open spec fn emit_calls(ds: Seq<Diagnostic>) -> Seq<EmitterCall> {
    ds.map_values(|d: Diagnostic| EmitterCall::Emit(d))
}

/// What an emitter adds to its output for the diagnostics `ds`, in order.
pub open spec fn rendered_all<E: Emitter>(sm: &SourceMap, ds: Seq<Diagnostic>) -> Seq<char>
    decreases ds.len(),
{
    if ds.len() == 0 {
        Seq::empty()
    } else {
        rendered_all::<E>(sm, ds.drop_last()) + E::rendered(sm, &ds.last())
    }
}

/// Renders diagnostics as plain text into a buffer.
pub struct HumanEmitter {
    output: String,
    calls: Ghost<Seq<EmitterCall>>,
}

pub open spec fn level_text(l: Level) -> Seq<char> {
    match l {
        Level::Error => "error"@,
        Level::Warning => "warning"@,
        Level::Note => "note"@,
        Level::Help => "help"@,
    }
}

/// Every label of `d` points into a file of `sm`, at a position and in a
/// file small enough for 32-bit line and column numbers.
pub open spec fn labels_resolvable(sm: &SourceMap, d: &Diagnostic) -> bool {
    forall|i: int|
        0 <= i < d.labels@.len() ==> {
            let sp = #[trigger] d.labels@[i].span;
            &&& sm.has_file(sp.file_id)
            &&& sp.lo.0 < u32::MAX
            &&& sm.files@[sp.file_id.0 as int].line_starts@.len() < u32::MAX
        }
}

/// The first line of a rendered diagnostic.
pub open spec fn header_text(d: &Diagnostic) -> Seq<char> {
    match d.code {
        Some(c) => level_text(d.level) + "["@ + code_text(c) + "]: "@ + d.message@ + "\n"@,
        None => level_text(d.level) + ": "@ + d.message@ + "\n"@,
    }
}

/// The two lines rendered for one label.
pub open spec fn label_text(sm: &SourceMap, l: Label) -> Seq<char> {
    let f = sm.files@[l.span.file_id.0 as int];
    let lc = spec_line_col(f.line_starts@, l.span.lo.0);
    "  --> "@ + f.name@ + ":"@ + dec(lc.0 as nat) + ":"@ + dec(lc.1 as nat) + "\n"@ + "   | "@
        + l.message@ + "\n"@
}

pub open spec fn labels_text(sm: &SourceMap, ls: Seq<Label>) -> Seq<char>
    decreases ls.len(),
{
    if ls.len() == 0 {
        Seq::empty()
    } else {
        labels_text(sm, ls.drop_last()) + label_text(sm, ls.last())
    }
}

/// The full text rendered for a diagnostic.
pub open spec fn diagnostic_text(sm: &SourceMap, d: &Diagnostic) -> Seq<char> {
    header_text(d) + labels_text(sm, d.labels@)
}

/// The closing text: a count of errors when there were any.
pub open spec fn finish_text(h: &Handler) -> Seq<char> {
    if h.error_count() > 0 {
        "\n"@ + dec(h.error_count()) + " error(s) emitted\n"@
    } else {
        Seq::empty()
    }
}

fn push_level(out: &mut String, l: Level)
    ensures
        final(out)@ == old(out)@ + level_text(l),
{
    match l {
        Level::Error => push_str(out, "error"),
        Level::Warning => push_str(out, "warning"),
        Level::Note => push_str(out, "note"),
        Level::Help => push_str(out, "help"),
    }
}

impl HumanEmitter {
    /// The text rendered so far.
    pub closed spec fn text(&self) -> Seq<char> {
        self.output@
    }

    pub fn new() -> (e: HumanEmitter)
        ensures
            e.text() == Seq::<char>::empty(),
            e.calls() == Seq::<EmitterCall>::empty(),
    {
        HumanEmitter { output: String::new(), calls: Ghost(Seq::empty()) }
    }

    pub fn into_string(self) -> (s: String)
        ensures
            s@ == self.text(),
    {
        self.output
    }
}

impl Default for HumanEmitter {
    /// An emitter that has rendered nothing.
    fn default() -> (e: HumanEmitter)
        ensures
            e.text() == Seq::<char>::empty(),
            e.calls() == Seq::<EmitterCall>::empty(),
    {
        HumanEmitter::new()
    }
}

impl Emitter for HumanEmitter {
    open spec fn emit_requires(source_map: &SourceMap, diagnostic: &Diagnostic) -> bool {
        labels_resolvable(source_map, diagnostic)
    }

    open spec fn output(&self) -> Seq<char> {
        self.text()
    }

    open spec fn rendered(source_map: &SourceMap, diagnostic: &Diagnostic) -> Seq<char> {
        diagnostic_text(source_map, diagnostic)
    }

    open spec fn finished(source_map: &SourceMap, handler: &Handler) -> Seq<char> {
        finish_text(handler)
    }

    closed spec fn calls(&self) -> Seq<EmitterCall> {
        self.calls@
    }

    /// Appends the header line, then two lines per label.
    fn emit(&mut self, source_map: &SourceMap, diagnostic: &Diagnostic)
        ensures
            final(self).text() == old(self).text() + diagnostic_text(source_map, diagnostic),
    {
        let ghost start = self.output@;
        push_level(&mut self.output, diagnostic.level);
        match diagnostic.code {
            Some(code) => {
                push_str(&mut self.output, "[");
                let c = code.as_str();
                push_str(&mut self.output, c.as_str());
                push_str(&mut self.output, "]: ");
            },
            None => {
                push_str(&mut self.output, ": ");
            },
        }
        push_str(&mut self.output, diagnostic.message.as_str());
        push_str(&mut self.output, "\n");
        assert(self.output@ =~= start + header_text(diagnostic));
        let n = diagnostic.labels.len();
        let mut i: usize = 0;
        while i < n
            invariant
                n == diagnostic.labels@.len(),
                i <= n,
                labels_resolvable(source_map, diagnostic),
                self.output@ == start + header_text(diagnostic) + labels_text(
                    source_map,
                    diagnostic.labels@.subrange(0, i as int),
                ),
            decreases n - i,
        {
            let label = &diagnostic.labels[i];
            let ghost before = self.output@;
            let file = source_map.file(label.span.file_id);
            let f = file.unwrap();
            let lc = source_map.line_col(label.span);
            push_str(&mut self.output, "  --> ");
            push_str(&mut self.output, f.name.as_str());
            push_str(&mut self.output, ":");
            push_dec(&mut self.output, lc.line as u128);
            push_str(&mut self.output, ":");
            push_dec(&mut self.output, lc.col as u128);
            push_str(&mut self.output, "\n");
            push_str(&mut self.output, "   | ");
            push_str(&mut self.output, label.message.as_str());
            push_str(&mut self.output, "\n");
            proof {
                let ls = diagnostic.labels@.subrange(0, i + 1);
                assert(ls.drop_last() =~= diagnostic.labels@.subrange(0, i as int));
                assert(self.output@ =~= before + label_text(source_map, ls.last()));
            }
            i = i + 1;
        }
        assert(diagnostic.labels@.subrange(0, n as int) =~= diagnostic.labels@);
        proof {
            self.calls@ = old(self).calls@.push(EmitterCall::Emit(*diagnostic));
        }
    }

    /// Appends the error count when there were errors.
    fn finish(&mut self, _source_map: &SourceMap, handler: &Handler)
        ensures
            final(self).text() == old(self).text() + finish_text(handler),
    {
        proof {
            self.calls@ = self.calls@.push(EmitterCall::Finish(*handler));
        }
        if handler.has_errors() {
            let ghost start = self.output@;
            push_str(&mut self.output, "\n");
            push_dec(&mut self.output, handler.errors() as u128);
            push_str(&mut self.output, " error(s) emitted\n");
            assert(self.output@ =~= start + finish_text(handler));
        } else {
            assert(self.output@ =~= old(self).output@ + finish_text(handler));
        }
    }
}

} // verus!
