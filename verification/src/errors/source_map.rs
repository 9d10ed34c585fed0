use vstd::prelude::*;

use crate::span::{FileId, Span};
use vstd::utf8::encode_utf8;

verus! {

/// A loaded source file: its display name, its text and where its lines start.
#[derive(Clone, Debug)]
pub struct SourceFile {
    pub name: String,
    pub source: String,
    pub line_starts: Vec<u32>,
}

/// 1-based line and column of a position.
#[derive(Clone, Copy, Debug, PartialEq, Eq, Structural)]
pub struct LineCol {
    pub line: u32,
    pub col: u32,
}

/// All source files of a compilation, indexed by `FileId`.
#[derive(Clone, Debug, Default)]
pub struct SourceMap {
    pub files: Vec<SourceFile>,
}

/// The byte offsets at which the lines of `b` start: 0 and every offset
/// just after a newline byte.
pub open spec fn line_starts_of(b: Seq<u8>) -> Seq<u32>
    decreases b.len(),
{
    if b.len() == 0 {
        seq![0u32]
    } else if b.last() == 10u8 {
        line_starts_of(b.drop_last()).push(b.len() as u32)
    } else {
        line_starts_of(b.drop_last())
    }
}

/// The 1-based number of the line holding offset `pos`: how many line
/// starts at the front of `starts` are at or before `pos`.
pub open spec fn line_of(starts: Seq<u32>, pos: u32) -> nat
    decreases starts.len(),
{
    if starts.len() == 0 {
        0
    } else if starts.last() <= pos {
        starts.len()
    } else {
        line_of(starts.drop_last(), pos)
    }
}

/// Line and column of offset `pos` given the line starts of its file.
pub open spec fn spec_line_col(starts: Seq<u32>, pos: u32) -> (int, int) {
    let line = line_of(starts, pos);
    if line == 0 {
        (0, pos + 1)
    } else {
        (line as int, pos - starts[line - 1] + 1)
    }
}

proof fn lemma_line_of_le(starts: Seq<u32>, pos: u32)
    ensures
        line_of(starts, pos) <= starts.len(),
        line_of(starts, pos) > 0 ==> starts[line_of(starts, pos) - 1] <= pos,
    decreases starts.len(),
{
    if starts.len() > 0 && !(starts.last() <= pos) {
        lemma_line_of_le(starts.drop_last(), pos);
    }
}

impl SourceMap {
    pub open spec fn has_file(&self, id: FileId) -> bool {
        id.0 < self.files@.len()
    }

    pub fn new() -> (m: SourceMap)
        ensures
            m.files@.len() == 0,
    {
        SourceMap { files: Vec::new() }
    }

    /// Adds a file; its id is its position.
    pub fn load_file(&mut self, name: String, source: String) -> (id: FileId)
        requires
            old(self).files@.len() < u32::MAX,
            encode_utf8(source@).len() < u32::MAX,
        ensures
            id.0 == old(self).files@.len(),
            final(self).files@.len() == old(self).files@.len() + 1,
            final(self).files@.drop_last() == old(self).files@,
            final(self).files@.last().name == name,
            final(self).files@.last().source == source,
            final(self).files@.last().line_starts@ == line_starts_of(encode_utf8(source@)),
    {
        let bytes = source.as_str().as_bytes();
        let mut starts: Vec<u32> = Vec::new();
        starts.push(0);
        let mut i: usize = 0;
        while i < bytes.len()
            invariant
                i <= bytes@.len(),
                bytes@ == encode_utf8(source@),
                bytes@.len() < u32::MAX,
                starts@ == line_starts_of(bytes@.subrange(0, i as int)),
            decreases bytes@.len() - i,
        {
            assert(bytes@.subrange(0, i + 1).drop_last() == bytes@.subrange(0, i as int));
            if bytes[i] == 10u8 {
                starts.push((i + 1) as u32);
            }
            i = i + 1;
        }
        assert(bytes@.subrange(0, bytes@.len() as int) == bytes@);
        let id = FileId(self.files.len() as u32);
        self.files.push(SourceFile { name, source, line_starts: starts });
        proof {
            assert(self.files@.drop_last() == old(self).files@);
        }
        id
    }

    /// The file with id `id`, if loaded.
    pub fn file(&self, id: FileId) -> (f: Option<&SourceFile>)
        ensures
            self.has_file(id) ==> f == Some(&self.files@[id.0 as int]),
            !self.has_file(id) ==> f.is_none(),
    {
        let i = id.0 as usize;
        if i < self.files.len() {
            Some(&self.files[i])
        } else {
            None
        }
    }

    /// Line and column of the start of `span`.
    pub fn line_col(&self, span: Span) -> (lc: LineCol)
        requires
            self.has_file(span.file_id),
            span.lo.0 < u32::MAX,
            self.files@[span.file_id.0 as int].line_starts@.len() < u32::MAX,
        ensures
            lc.line == spec_line_col(self.files@[span.file_id.0 as int].line_starts@, span.lo.0).0,
            lc.col == spec_line_col(self.files@[span.file_id.0 as int].line_starts@, span.lo.0).1,
    {
        let starts = &self.files[span.file_id.0 as usize].line_starts;
        let pos = span.lo.0;
        let mut k: usize = starts.len();
        assert(starts@.subrange(0, k as int) =~= starts@);
        while k > 0 && starts[k - 1] > pos
            invariant
                k <= starts@.len(),
                line_of(starts@, pos) == line_of(starts@.subrange(0, k as int), pos),
            decreases k,
        {
            assert(starts@.subrange(0, k as int).drop_last() == starts@.subrange(0, k - 1));
            k = k - 1;
        }
        proof {
            if k > 0 {
                assert(starts@.subrange(0, k as int).last() == starts@[k - 1]);
            }
            assert(line_of(starts@.subrange(0, k as int), pos) == k);
            lemma_line_of_le(starts@, pos);
        }
        if k == 0 {
            LineCol { line: 0, col: pos + 1 }
        } else {
            LineCol { line: k as u32, col: pos - starts[k - 1] + 1 }
        }
    }
}

} // verus!
