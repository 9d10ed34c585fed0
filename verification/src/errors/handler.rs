use vstd::prelude::*;

use crate::errors::diagnostic::{Diagnostic, Level};
use crate::errors::emitter::{emit_calls, rendered_all, Emitter, EmitterCall};
use crate::errors::source_map::SourceMap;
use crate::span::Span;

verus! {

/// Collects the diagnostics of a compilation and counts errors and warnings.
#[derive(Debug, Default)]
pub struct Handler {
    diagnostics: Vec<Diagnostic>,
    errors: usize,
    warnings: usize,
    max_errors: usize,
}

/// How many of `ds` have level `lv`.
pub open spec fn count_level(ds: Seq<Diagnostic>, lv: Level) -> nat
    decreases ds.len(),
{
    if ds.len() == 0 {
        0
    } else {
        count_level(ds.drop_last(), lv) + if ds.last().level == lv { 1nat } else { 0nat }
    }
}

pub proof fn lemma_count_level_le(ds: Seq<Diagnostic>, lv: Level)
    ensures
        count_level(ds, lv) <= ds.len(),
    decreases ds.len(),
{
    if ds.len() > 0 {
        lemma_count_level_le(ds.drop_last(), lv);
    }
}

impl Handler {
    /// The diagnostics emitted so far, in order.
    pub closed spec fn diags(&self) -> Seq<Diagnostic> {
        self.diagnostics@
    }

    /// The number of errors emitted so far.
    pub closed spec fn error_count(&self) -> nat {
        self.errors as nat
    }

    /// The number of warnings emitted so far.
    pub closed spec fn warning_count(&self) -> nat {
        self.warnings as nat
    }

    /// The error count at which compilation should stop.
    pub closed spec fn max_error_count(&self) -> nat {
        self.max_errors as nat
    }

    /// The counters agree with the diagnostics.
    pub closed spec fn wf(&self) -> bool {
        &&& self.errors == count_level(self.diagnostics@, Level::Error)
        &&& self.warnings == count_level(self.diagnostics@, Level::Warning)
    }

    /// A handler with no diagnostics that aborts at 50 errors.
    pub fn new() -> (h: Handler)
        ensures
            h.wf(),
            h.diags() == Seq::<Diagnostic>::empty(),
            h.error_count() == 0,
            h.warning_count() == 0,
            h.max_error_count() == 50,
    {
        Handler { diagnostics: Vec::new(), errors: 0, warnings: 0, max_errors: 50 }
    }

    /// Records a diagnostic and counts it by level.
    pub fn emit(&mut self, diagnostic: Diagnostic)
        requires
            old(self).wf(),
        ensures
            final(self).wf(),
            final(self).diags() == old(self).diags().push(diagnostic),
            final(self).error_count() == old(self).error_count() + if diagnostic.level
                == Level::Error { 1nat } else { 0nat },
            final(self).warning_count() == old(self).warning_count() + if diagnostic.level
                == Level::Warning { 1nat } else { 0nat },
            final(self).max_error_count() == old(self).max_error_count(),
    {
        let level = diagnostic.level;
        let ghost before = self.diagnostics@;
        self.diagnostics.push(diagnostic);
        let n = self.diagnostics.len();
        proof {
            assert(self.diagnostics@.drop_last() == before);
            lemma_count_level_le(before, Level::Error);
            lemma_count_level_le(before, Level::Warning);
        }
        match level {
            Level::Error => self.errors = self.errors + 1,
            Level::Warning => self.warnings = self.warnings + 1,
            Level::Note | Level::Help => {},
        }
    }

    /// Records an error with `message` and one primary label with an empty
    /// message at `span`.
    pub fn error(&mut self, span: Span, message: String)
        requires
            old(self).wf(),
        ensures
            final(self).wf(),
            final(self).diags().len() == old(self).diags().len() + 1,
            final(self).diags().drop_last() == old(self).diags(),
            final(self).diags().last().level == Level::Error,
            final(self).diags().last().code.is_none(),
            final(self).diags().last().message@ == message@,
            final(self).diags().last().labels@.len() == 1,
            final(self).diags().last().labels@[0].span == span,
            final(self).diags().last().labels@[0].message@ == Seq::<char>::empty(),
            final(self).diags().last().labels@[0].primary,
            final(self).error_count() == old(self).error_count() + 1,
            final(self).warning_count() == old(self).warning_count(),
            final(self).max_error_count() == old(self).max_error_count(),
    {
        let d = Diagnostic::error(message).with_label(span, String::new(), true);
        self.emit(d);
        proof {
            assert(self.diags().drop_last() =~= old(self).diags());
        }
    }

    /// Whether any error was emitted.
    pub fn has_errors(&self) -> (b: bool)
        ensures
            b == (self.error_count() > 0),
    {
        self.errors > 0
    }

    /// The number of errors emitted.
    pub fn errors(&self) -> (n: usize)
        ensures
            n == self.error_count(),
    {
        self.errors
    }

    /// The diagnostics emitted, in order.
    pub fn diagnostics(&self) -> (ds: &[Diagnostic])
        ensures
            ds@ == self.diags(),
    {
        self.diagnostics.as_slice()
    }

    /// Whether the error limit has been reached.
    pub fn should_abort(&self) -> (b: bool)
        ensures
            b == (self.error_count() >= self.max_error_count()),
    {
        self.errors >= self.max_errors
    }

    /// Hands every diagnostic, in order, to `emitter`, then lets it finish.
    pub fn report<E: Emitter>(&self, source_map: &SourceMap, emitter: &mut E)
        requires
            forall|i: int|
                0 <= i < self.diags().len() ==> #[trigger] E::emit_requires(
                    source_map,
                    &self.diags()[i],
                ),
        ensures
            final(emitter).output() == old(emitter).output() + rendered_all::<E>(source_map, self.diags()) + E::finished(
                source_map,
                self,
            ),
            final(emitter).calls() == old(emitter).calls() + emit_calls(self.diags()).push(EmitterCall::Finish(*self)),
    {
        let n = self.diagnostics.len();
        let mut i: usize = 0;
        while i < n
            invariant
                i <= n,
                n == self.diags().len(),
                forall|j: int|
                    0 <= j < self.diags().len() ==> #[trigger] E::emit_requires(
                        source_map,
                        &self.diags()[j],
                    ),
                emitter.output() == old(emitter).output() + rendered_all::<E>(source_map, self.diags().subrange(0, i as int)),
                emitter.calls() == old(emitter).calls() + emit_calls(self.diags().subrange(0, i as int)),
            decreases n - i,
        {
            emitter.emit(source_map, &self.diagnostics[i]);
            proof {
                assert(self.diags().subrange(0, i + 1).drop_last() =~= self.diags().subrange(0, i as int));
                assert(emit_calls(self.diags().subrange(0, i + 1)) =~= emit_calls(self.diags().subrange(0, i as int)).push(
                    EmitterCall::Emit(self.diags()[i as int]),
                ));
            }
            i = i + 1;
        }
        assert(self.diags().subrange(0, n as int) =~= self.diags());
        emitter.finish(source_map, self);
    }
}

proof fn lemma_count_level_pos(ds: Seq<Diagnostic>, lv: Level)
    ensures
        count_level(ds, lv) > 0 <==> exists|i: int| 0 <= i < ds.len() && (#[trigger] ds[i]).level == lv,
    decreases ds.len(),
{
    if ds.len() > 0 {
        lemma_count_level_pos(ds.drop_last(), lv);
        if exists|i: int| 0 <= i < ds.drop_last().len() && (#[trigger] ds.drop_last()[i]).level == lv {
            let i = choose|i: int| 0 <= i < ds.drop_last().len() && (#[trigger] ds.drop_last()[i]).level == lv;
            assert(ds[i].level == lv);
        }
        if exists|i: int| 0 <= i < ds.len() && (#[trigger] ds[i]).level == lv {
            let i = choose|i: int| 0 <= i < ds.len() && (#[trigger] ds[i]).level == lv;
            if i < ds.len() - 1 {
                assert(ds.drop_last()[i].level == lv);
            }
        }
    }
}

/// A handler counts errors exactly: it has errors if and only if one of
/// its diagnostics is an error, and its counts never exceed the number of
/// diagnostics.
pub proof fn error_count_matches_diagnostics(h: Handler)
    requires
        h.wf(),
    ensures
        h.error_count() > 0 <==> exists|i: int| 0 <= i < h.diags().len() && (#[trigger] h.diags()[i]).level == Level::Error,
        h.error_count() <= h.diags().len(),
        h.warning_count() <= h.diags().len(),
{
    lemma_count_level_pos(h.diagnostics@, Level::Error);
    lemma_count_level_le(h.diagnostics@, Level::Error);
    lemma_count_level_le(h.diagnostics@, Level::Warning);
}

} // verus!
