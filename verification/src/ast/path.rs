use vstd::prelude::*;

use crate::ids::TyId;
use crate::span::Span;

verus! {

/// A qualified path (`foo.bar.Baz`).
#[derive(Clone, Debug)]
pub struct Path {
    pub segments: Vec<PathSegment>,
    pub span: Span,
}

/// One segment of a path, optionally with generic arguments.
#[derive(Clone, Debug)]
pub struct PathSegment {
    pub ident: String,
    pub args: Vec<TyId>,
    pub span: Span,
}

/// A copy of `v` equal to it.
pub fn clone_ids(v: &Vec<TyId>) -> (r: Vec<TyId>)
    ensures
        r@ == v@,
{
    let mut r: Vec<TyId> = Vec::new();
    let mut i: usize = 0;
    while i < v.len()
        invariant
            i <= v@.len(),
            r@ == v@.subrange(0, i as int),
        decreases v@.len() - i,
    {
        r.push(v[i]);
        i = i + 1;
        assert(r@ =~= v@.subrange(0, i as int));
    }
    assert(v@.subrange(0, v@.len() as int) =~= v@);
    r
}

/// Two path segments are the same (argument lists compared by contents).
pub open spec fn segment_same(a: PathSegment, b: PathSegment) -> bool {
    a.ident == b.ident && a.args@ == b.args@ && a.span == b.span
}

/// Two paths are the same segment by segment.
pub open spec fn path_same(a: Path, b: Path) -> bool {
    &&& a.span == b.span
    &&& a.segments@.len() == b.segments@.len()
    &&& forall|i: int| 0 <= i < a.segments@.len() ==> #[trigger] segment_same(a.segments@[i], b.segments@[i])
}

/// A copy of `p`, the same segment by segment.
pub fn clone_path(p: &Path) -> (r: Path)
    ensures
        path_same(r, *p),
{
    let mut segs: Vec<PathSegment> = Vec::new();
    let mut i: usize = 0;
    while i < p.segments.len()
        invariant
            i <= p.segments@.len(),
            segs@.len() == i,
            forall|j: int| 0 <= j < i ==> #[trigger] segment_same(segs@[j], p.segments@[j]),
        decreases p.segments@.len() - i,
    {
        let s = &p.segments[i];
        segs.push(PathSegment { ident: s.ident.clone(), args: clone_ids(&s.args), span: s.span });
        i = i + 1;
    }
    Path { segments: segs, span: p.span }
}

impl Path {
    /// A path of one segment without generic arguments.
    pub fn single(name: String, span: Span) -> (p: Path)
        ensures
            p.span == span,
            p.segments@.len() == 1,
            p.segments@[0].ident == name,
            p.segments@[0].args@.len() == 0,
            p.segments@[0].span == span,
    {
        let mut segments = Vec::new();
        segments.push(PathSegment { ident: name, args: Vec::new(), span });
        Path { segments, span }
    }

    /// The identifier of a one-segment path without generic arguments.
    pub fn is_simple_ident(&self) -> (r: Option<&String>)
        ensures
            (self.segments@.len() == 1 && self.segments@[0].args@.len() == 0) ==> r == Some(
                &self.segments@[0].ident,
            ),
            !(self.segments@.len() == 1 && self.segments@[0].args@.len() == 0) ==> r.is_none(),
    {
        if self.segments.len() == 1 && self.segments[0].args.len() == 0 {
            Some(&self.segments[0].ident)
        } else {
            None
        }
    }
}

} // verus!
