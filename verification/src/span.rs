//! Source positions.

use vstd::prelude::*;

verus! {

/// Index of a source file in a source map.
#[derive(Clone, Copy, PartialEq, Eq, Structural, Hash, Debug, Default)]
pub struct FileId(pub u32);

/// Byte offset into a source file.
#[derive(Clone, Copy, PartialEq, Eq, Structural, Hash, Debug, Default)]
pub struct BytePos(pub u32);

/// A half-open byte range `lo..hi` in one source file.
#[derive(Clone, Copy, PartialEq, Eq, Structural, Hash, Debug, Default)]
pub struct Span {
    pub file_id: FileId,
    pub lo: BytePos,
    pub hi: BytePos,
}

/// The span covering both `a` and `b` (in the file of `a`).
pub open spec fn spec_merge(a: Span, b: Span) -> Span {
    Span {
        file_id: a.file_id,
        lo: if a.lo.0 <= b.lo.0 { a.lo } else { b.lo },
        hi: if a.hi.0 >= b.hi.0 { a.hi } else { b.hi },
    }
}

impl Span {
    pub fn new(file_id: FileId, lo: BytePos, hi: BytePos) -> (s: Span)
        ensures
            s == (Span { file_id, lo, hi }),
    {
        Span { file_id, lo, hi }
    }

    /// The placeholder span of nodes that have no source position.
    pub fn dummy() -> (s: Span)
        ensures
            s == (Span { file_id: FileId(0), lo: BytePos(0), hi: BytePos(0) }),
    {
        Span { file_id: FileId(0), lo: BytePos(0), hi: BytePos(0) }
    }

    /// The smallest span that covers `a` and `b`.
    pub fn merge(a: Span, b: Span) -> (s: Span)
        ensures
            s == spec_merge(a, b),
    {
        Span {
            file_id: a.file_id,
            lo: if a.lo.0 <= b.lo.0 { a.lo } else { b.lo },
            hi: if a.hi.0 >= b.hi.0 { a.hi } else { b.hi },
        }
    }
}

/// Merging two spans of one file gives a span of that file that covers
/// both, and the order of the two does not matter.
pub proof fn merge_covers(a: Span, b: Span)
    requires
        a.file_id == b.file_id,
    ensures
        spec_merge(a, b).file_id == a.file_id,
        spec_merge(a, b).lo.0 <= a.lo.0 && spec_merge(a, b).lo.0 <= b.lo.0,
        spec_merge(a, b).hi.0 >= a.hi.0 && spec_merge(a, b).hi.0 >= b.hi.0,
        spec_merge(a, b).lo == a.lo || spec_merge(a, b).lo == b.lo,
        spec_merge(a, b).hi == a.hi || spec_merge(a, b).hi == b.hi,
        spec_merge(a, b) == spec_merge(b, a),
{
}

} // verus!
