use vstd::prelude::*;

use crate::ast::arena::{
    expr_in, lemma_in_mono, lemma_in_ok, lemma_seq_in_mono, lemma_seq_in_ok, path_in, ty_in, tys_in,
};
use crate::ast::{Path, PathSegment, TyKind, TyMutability};
use crate::ids::TyId;
use crate::parse::expr::after_atom;
use crate::parse::parser::{skip_nl, step, ty_result, Parser};
use crate::syntax::{SpannedToken, TokenKind};

verus! {

broadcast use crate::parse::parser::lemma_step_trans;

/// The mutability of the reference type a token starts.
pub open spec fn ref_token(k: TokenKind) -> Option<TyMutability> {
    match k {
        TokenKind::Amp => Some(TyMutability::Imm),
        TokenKind::AmpMut => Some(TyMutability::Mut),
        _ => None,
    }
}

/// The token at `p` is an identifier that no `[` or `.` follows: the path
/// of that one name.
pub open spec fn lone_ident(t: Seq<SpannedToken>, p: int) -> Option<String> {
    if 0 <= p && p + 1 < t.len() && !(t[p + 1].kind is LBracket) && !(t[p + 1].kind is Dot) {
        match t[p].kind {
            TokenKind::Ident { name } => Some(name),
            _ => None,
        }
    } else {
        None
    }
}

impl<'a> Parser<'a> {
    /// Parses a dotted path whose segments may carry `[..]` type arguments.
    /// On success at least one token was consumed, the path has a segment and
    /// every type argument exists; on failure an error was reported.
    pub fn parse_path(&mut self) -> (r: Option<Path>)
        requires
            old(self).wf(),
        ensures
            step(&*old(self), &*final(self)),
            r matches Some(p) ==> old(self).pos < final(self).pos && p.segments@.len() > 0
                && path_in(&final(self).arena, p),
            r is None ==> old(self).handler.error_count() < final(self).handler.error_count(),
            lone_ident(old(self).tokens@, old(self).pos as int) matches Some(n) ==> (r matches Some(p)
                && final(self).pos == old(self).pos + 1 && final(self).arena == old(self).arena && final(self).handler
                == old(self).handler && p.segments@.len() == 1 && p.segments@[0].ident == n),
        decreases old(self).remaining(), 12nat,
    {
        let tokens: &'a [SpannedToken] = self.tokens;
        let start = tokens[self.pos].span;
        let mut segments: Vec<PathSegment> = Vec::new();
        let ghost lone = lone_ident(old(self).tokens@, old(self).pos as int);
        loop
            invariant_except_break
                lone is Some ==> segments@.len() == 0 && self.pos == old(self).pos && self.arena == old(self).arena
                    && self.handler == old(self).handler,
            invariant
                step(&*old(self), &*self),
                tokens@ == self.tokens@,
                lone == lone_ident(old(self).tokens@, old(self).pos as int),
                segments@.len() > 0 ==> old(self).pos < self.pos,
                forall|i: int|
                    0 <= i < segments@.len() ==> tys_in(&self.arena, #[trigger] segments@[i].args@),
            ensures
                segments@.len() > 0,
                old(self).pos < self.pos,
                lone matches Some(n) ==> segments@.len() == 1 && segments@[0].ident == n && self.pos == old(self).pos
                    + 1 && self.arena == old(self).arena && self.handler == old(self).handler,
            decreases self.remaining(),
        {
            let ghost iter_start = *self;
            let ident = match &tokens[self.pos].kind {
                TokenKind::Ident { name } => name.clone(),
                TokenKind::KwSelf => {
                    self.bump();
                    String::from_str("self")
                },
                _ => {
                    if segments.len() == 0 {
                        self.error(start, String::from_str("expected path"));
                        return None;
                    }
                    break;
                },
            };
            if !matches!(tokens[self.pos].kind, TokenKind::KwSelf) {
                self.bump();
            }
            assert(iter_start.pos < self.pos);
            let ghost before_args = *self;
            let args = if self.eat(TokenKind::LBracket) {
                match self.parse_type_args() {
                    Some(a) => a,
                    None => return None,
                }
            } else {
                Vec::new()
            };
            let seg_span = tokens[self.pos - 1].span;
            proof {
                lemma_seq_in_mono(&iter_start.arena, &self.arena);
            }
            let ghost old_segs = segments@;
            segments.push(PathSegment { ident, args, span: seg_span });
            proof {
                assert forall|i: int|
                    0 <= i < segments@.len() implies tys_in(&self.arena, #[trigger] segments@[i].args@) by {
                    if i < old_segs.len() {
                        assert(segments@[i] == old_segs[i]);
                        assert(tys_in(&iter_start.arena, old_segs[i].args@));
                    }
                }
            }
            if !self.eat(TokenKind::Dot) {
                break;
            }
        }
        let span = self.span_from(start);
        let p = Path { segments, span };
        Some(p)
    }

    /// Parses type arguments after `[` up to and including `]`.
    pub fn parse_type_args(&mut self) -> (r: Option<Vec<TyId>>)
        requires
            old(self).wf(),
        ensures
            step(&*old(self), &*final(self)),
            r matches Some(v) ==> tys_in(&final(self).arena, v@),
            r is None ==> old(self).handler.error_count() < final(self).handler.error_count(),
        decreases old(self).remaining(), 14nat,
    {
        self.skip_layout();
        let mut args: Vec<TyId> = Vec::new();
        if !self.eat(TokenKind::RBracket) {
            loop
                invariant
                    step(&*old(self), &*self),
                    tys_in(&self.arena, args@),
                    args@.len() > 0 ==> old(self).pos < self.pos,
                decreases self.remaining(),
            {
                let ghost before = *self;
                let t = match self.parse_ty() {
                    Some(t) => t,
                    None => return None,
                };
                proof {
                    lemma_seq_in_mono(&before.arena, &self.arena);
                }
                let ghost old_args = args@;
                args.push(t);
                assert(args@ == old_args.push(t));
                self.skip_layout();
                if self.eat(TokenKind::RBracket) {
                    break;
                }
                if !self.eat(TokenKind::Comma) {
                    self.error_here("expected ',' or ']'");
                    return None;
                }
            }
        }
        Some(args)
    }

    /// Parses a type: `&mut T`, `&T`, a tuple `(T, ...)` or a path.
    pub fn parse_ty(&mut self) -> (r: Option<TyId>)
        requires
            old(self).wf(),
        ensures
            ty_result(&*old(self), &*final(self), r),
            old(self).tokens@[skip_nl(old(self).tokens@, old(self).pos as int)].kind is LParen && old(
                self,
            ).tokens@[after_atom(old(self).tokens@, old(self).pos as int)].kind is RParen ==> (r matches Some(id)
                && (final(self).arena.fits() ==> (final(self).arena.tys()[id.0 as int].kind matches TyKind::Tuple(v)
                && v@.len() == 0))),
            ref_token(old(self).tokens@[skip_nl(old(self).tokens@, old(self).pos as int)].kind) matches Some(m) ==> (
            r matches Some(id) ==> (final(self).arena.fits() ==> (final(self).arena.tys()[id.0 as int].kind matches TyKind::Ref {
                mutability,
                ..
            } && mutability == m))),
            lone_ident(old(self).tokens@, skip_nl(old(self).tokens@, old(self).pos as int)) is Some ==> (r is Some
                && final(self).pos == skip_nl(old(self).tokens@, old(self).pos as int) + 1 && final(self).handler == old(
                self,
            ).handler),
        decreases old(self).remaining(), 13nat,
    {
        self.skip_layout();
        let start = self.tokens[self.pos].span;
        if self.eat(TokenKind::AmpMut) {
            self.skip_layout();
            let inner = match self.parse_ty() {
                Some(t) => t,
                None => return None,
            };
            let span = self.span_from(start);
            proof {
                lemma_in_ok(&self.arena);
            }
            return Some(self.alloc_ty_node(TyKind::Ref { mutability: TyMutability::Mut, inner }, span));
        }
        if self.eat(TokenKind::Amp) {
            self.skip_layout();
            let inner = match self.parse_ty() {
                Some(t) => t,
                None => return None,
            };
            let span = self.span_from(start);
            proof {
                lemma_in_ok(&self.arena);
            }
            return Some(self.alloc_ty_node(TyKind::Ref { mutability: TyMutability::Imm, inner }, span));
        }
        if self.eat(TokenKind::LParen) {
            let ghost after_open = *self;
            self.skip_layout();
            let mut elems: Vec<TyId> = Vec::new();
            if !self.eat(TokenKind::RParen) {
                loop
                    invariant
                        step(&*old(self), &after_open),
                        step(&after_open, &*self),
                        !(old(self).tokens@[after_atom(old(self).tokens@, old(self).pos as int)].kind is RParen),
                        lone_ident(old(self).tokens@, skip_nl(old(self).tokens@, old(self).pos as int)) is None,
                        old(self).pos < after_open.pos,
                        tys_in(&self.arena, elems@),
                    decreases self.remaining(),
                {
                    let ghost before = *self;
                    let t = match self.parse_ty() {
                        Some(t) => t,
                        None => return None,
                    };
                    proof {
                        lemma_seq_in_mono(&before.arena, &self.arena);
                    }
                    let ghost old_elems = elems@;
                    elems.push(t);
                    assert(elems@ == old_elems.push(t));
                    self.skip_layout();
                    if self.eat(TokenKind::RParen) {
                        break;
                    }
                    if !self.eat(TokenKind::Comma) {
                        self.error_here("expected ',' or ')'");
                        return None;
                    }
                }
            }
            let span = self.span_from(start);
            proof {
                lemma_seq_in_ok(&self.arena);
            }
            return Some(self.alloc_ty_node(TyKind::Tuple(elems), span));
        }
        let path = match self.parse_path() {
            Some(p) => p,
            None => return None,
        };
        let span = path.span;
        proof {
            lemma_seq_in_ok(&self.arena);
        }
        Some(self.alloc_ty_node(TyKind::Path(path), span))
    }
}

} // verus!
