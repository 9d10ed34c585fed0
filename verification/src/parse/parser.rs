use vstd::prelude::*;
use crate::text::str_eq;

use crate::ast::arena::{
    arena_extends, expr_in, expr_kind_ok, item_in, item_kind_ok, lemma_in_mono, pat_in, pat_kind_ok,
    stmt_in, stmt_kind_ok, ty_in, ty_kind_ok, Arena,
};
use crate::ast::{Expr, ExprKind, Item, ItemKind, Pat, PatKind, Stmt, StmtKind, Ty, TyKind};
use crate::ids::{ExprId, ItemId, PatId, StmtId, TyId};
use crate::errors::{Diagnostic, Handler, Level};
use crate::span::{spec_merge, Span};
use crate::syntax::{spec_tag, SpannedToken, TokenKind};

verus! {

/// The parser state: the tokens, the position of the current token, the
/// arena that receives the nodes and the handler that receives diagnostics.
pub struct Parser<'a> {
    pub tokens: &'a [SpannedToken],
    pub pos: usize,
    pub arena: Arena,
    pub handler: Handler,
}

/// A token stream the parser can run on: it is non-empty and ends with `Eof`.
pub open spec fn tokens_wf(t: Seq<SpannedToken>) -> bool {
    t.len() > 0 && t.last().kind is Eof
}

/// The position of the first token at or after `p` that is not a newline.
pub open spec fn skip_nl(toks: Seq<SpannedToken>, p: int) -> int
    decreases toks.len() - p,
{
    if 0 <= p < toks.len() && toks[p].kind is Newline {
        skip_nl(toks, p + 1)
    } else {
        p
    }
}

/// Skipping newlines twice is skipping them once.
pub proof fn lemma_skip_nl_idem(toks: Seq<SpannedToken>, p: int)
    ensures
        p <= skip_nl(toks, p),
        skip_nl(toks, skip_nl(toks, p)) == skip_nl(toks, p),
    decreases toks.len() - p,
{
    if 0 <= p < toks.len() && toks[p].kind is Newline {
        lemma_skip_nl_idem(toks, p + 1);
    }
}

/// Tokens at which statement-level error recovery stops.
pub open spec fn is_stmt_start(k: TokenKind) -> bool {
    match k {
        TokenKind::KwDef | TokenKind::KwClass | TokenKind::KwStruct | TokenKind::KwEnum
        | TokenKind::KwImpl | TokenKind::KwInterface | TokenKind::KwTrait | TokenKind::KwImport
        | TokenKind::KwFrom | TokenKind::KwIf | TokenKind::KwWhile | TokenKind::KwFor
        | TokenKind::KwReturn | TokenKind::KwPass | TokenKind::KwBreak | TokenKind::KwContinue
        | TokenKind::KwPub | TokenKind::At | TokenKind::Dedent | TokenKind::Eof => true,
        TokenKind::Ident { .. } | TokenKind::IntLit { .. } | TokenKind::FloatLit { .. }
        | TokenKind::StringLit { .. } | TokenKind::BytesLit { .. } | TokenKind::BoolLit(_)
        | TokenKind::KwTrue | TokenKind::KwFalse | TokenKind::KwNone | TokenKind::KwSelf
        | TokenKind::LParen | TokenKind::LBracket | TokenKind::LBrace | TokenKind::Minus
        | TokenKind::Bang => true,
        _ => false,
    }
}

/// The identifier `match` (which is not a keyword token).
pub open spec fn is_match_ident(k: TokenKind) -> bool {
    match k {
        TokenKind::Ident { name } => name@ == "match"@,
        _ => false,
    }
}


/// One step of parsing: same tokens, a position not behind, an arena that
/// only grew, diagnostics only appended and a state the parser can go on from.
pub open spec fn step(a: &Parser, b: &Parser) -> bool {
    &&& b.tokens@ == a.tokens@
    &&& b.wf()
    &&& a.pos <= b.pos
    &&& arena_extends(&a.arena, &b.arena)
    &&& a.handler.error_count() <= b.handler.error_count()
    &&& a.handler.diags().len() <= b.handler.diags().len()
    &&& forall|i: int| 0 <= i < a.handler.diags().len() ==> #[trigger] b.handler.diags()[i] == a.handler.diags()[i]
}

/// A parse that yields a node consumed at least one token and the node
/// exists; one that yields nothing reported an error.
pub open spec fn expr_result(a: &Parser, b: &Parser, r: Option<ExprId>) -> bool {
    &&& step(a, b)
    &&& match r {
        Some(e) => a.pos < b.pos && expr_in(&b.arena, e),
        None => a.handler.error_count() < b.handler.error_count(),
    }
}

pub open spec fn ty_result(a: &Parser, b: &Parser, r: Option<TyId>) -> bool {
    &&& step(a, b)
    &&& match r {
        Some(t) => a.pos < b.pos && ty_in(&b.arena, t),
        None => a.handler.error_count() < b.handler.error_count(),
    }
}

pub open spec fn pat_result(a: &Parser, b: &Parser, r: Option<PatId>) -> bool {
    &&& step(a, b)
    &&& match r {
        Some(t) => a.pos < b.pos && pat_in(&b.arena, t),
        None => a.handler.error_count() < b.handler.error_count(),
    }
}

/// The diagnostics of `b` are those of `a` and one error with `msg` whose one
/// label is a primary `here` at `sp`.
pub open spec fn one_error(a: &Handler, b: &Handler, sp: Span, msg: Seq<char>) -> bool {
    &&& b.diags().len() == a.diags().len() + 1
    &&& b.diags().drop_last() == a.diags()
    &&& b.diags().last().level == Level::Error
    &&& b.diags().last().message@ == msg
    &&& b.diags().last().labels@.len() == 1
    &&& b.diags().last().labels@[0].span == sp
    &&& b.diags().last().labels@[0].message@ == "here"@
    &&& b.diags().last().labels@[0].primary
    &&& b.error_count() == a.error_count() + 1
}


pub broadcast proof fn lemma_step_trans(a: &Parser, b: &Parser, c: &Parser)
    requires
        step(a, b),
        step(b, c),
    ensures
        #![trigger step(a, b), step(b, c)]
        step(a, c),
{
}

impl<'a> Parser<'a> {
    /// The parser can go on: the tokens end with `Eof`, the position is on a
    /// token, the handler's counters are right and the arena is well-formed
    /// as long as its ids fit in 32 bits.
    pub open spec fn wf(&self) -> bool {
        &&& tokens_wf(self.tokens@)
        &&& self.pos < self.tokens@.len()
        &&& self.handler.wf()
        &&& (self.arena.fits() ==> self.arena.wf())
    }

    /// The current token's kind.
    pub open spec fn cur(&self) -> TokenKind {
        self.tokens@[self.pos as int].kind
    }

    /// The current token's span.
    pub open spec fn cur_span(&self) -> Span {
        self.tokens@[self.pos as int].span
    }

    /// Tokens not yet consumed.
    pub open spec fn remaining(&self) -> nat {
        (self.tokens@.len() - self.pos) as nat
    }

    pub fn new(tokens: &'a [SpannedToken], arena: Arena, handler: Handler) -> (p: Parser<'a>)
        ensures
            p.tokens@ == tokens@,
            p.pos == 0,
            p.arena == arena,
            p.handler == handler,
    {
        Parser { tokens, pos: 0, arena, handler }
    }

    /// Whether the current token is `Eof`.
    pub fn is_at_end(&self) -> (b: bool)
        requires
            self.wf(),
        ensures
            b == self.cur() is Eof,
    {
        matches!(self.tokens[self.pos].kind, TokenKind::Eof)
    }

    pub fn current(&self) -> (t: &SpannedToken)
        requires
            self.wf(),
        ensures
            *t == self.tokens@[self.pos as int],
    {
        &self.tokens[self.pos]
    }

    pub fn current_kind(&self) -> (k: &TokenKind)
        requires
            self.wf(),
        ensures
            *k == self.cur(),
    {
        &self.tokens[self.pos].kind
    }

    /// The token `offset` places ahead, if there is one.
    pub fn peek(&self, offset: usize) -> (t: Option<&SpannedToken>)
        requires
            self.wf(),
        ensures
            self.pos + offset < self.tokens@.len() ==> t == Some(&self.tokens@[self.pos + offset]),
            self.pos + offset >= self.tokens@.len() ==> t.is_none(),
    {
        if offset < self.tokens.len() - self.pos {
            Some(&self.tokens[self.pos + offset])
        } else {
            None
        }
    }

    pub fn peek_kind(&self, offset: usize) -> (k: Option<&TokenKind>)
        requires
            self.wf(),
        ensures
            self.pos + offset < self.tokens@.len() ==> k == Some(
                &self.tokens@[self.pos + offset].kind,
            ),
            self.pos + offset >= self.tokens@.len() ==> k.is_none(),
    {
        match self.peek(offset) {
            Some(t) => Some(&t.kind),
            None => None,
        }
    }

    /// Moves past the current token unless it is `Eof`; returns the token.
    pub fn bump(&mut self) -> (t: &'a SpannedToken)
        requires
            old(self).wf(),
        ensures
            step(&*old(self), &*final(self)),
            *t == old(self).tokens@[old(self).pos as int],
            final(self).pos == if old(self).cur() is Eof { old(self).pos as int } else { old(self).pos + 1 },
            final(self).tokens == old(self).tokens,
            final(self).arena == old(self).arena,
            final(self).handler == old(self).handler,
            final(self).wf(),
    {
        let tokens: &'a [SpannedToken] = self.tokens;
        let token = &tokens[self.pos];
        if !matches!(self.tokens[self.pos].kind, TokenKind::Eof) {
            self.pos = self.pos + 1;
        }
        token
    }

    /// The span from `start` to the end of the last consumed token.
    pub fn span_from(&self, start: Span) -> (s: Span)
        requires
            self.wf(),
        ensures
            s == spec_merge(start, self.tokens@[if self.pos == 0 { 0int } else { self.pos - 1 }].span),
    {
        let i = if self.pos == 0 { 0 } else { self.pos - 1 };
        Span::merge(start, self.tokens[i].span)
    }

    /// Reports an error at `span` with one primary label `here`.
    pub fn error(&mut self, span: Span, message: String)
        requires
            old(self).wf(),
        ensures
            step(&*old(self), &*final(self)),
            final(self).tokens == old(self).tokens,
            final(self).pos == old(self).pos,
            final(self).arena == old(self).arena,
            final(self).wf(),
            one_error(&old(self).handler, &final(self).handler, span, message@),
    {
        let d = Diagnostic::error(message).with_label(span, String::from_str("here"), true);
        self.handler.emit(d);
        proof {
            reveal_strlit("here");
            assert(self.handler.diags().drop_last() =~= old(self).handler.diags());
        }
    }

    /// Reports an error at the current token.
    pub fn error_here(&mut self, message: &str)
        requires
            old(self).wf(),
        ensures
            step(&*old(self), &*final(self)),
            final(self).tokens == old(self).tokens,
            final(self).pos == old(self).pos,
            final(self).arena == old(self).arena,
            final(self).wf(),
            one_error(&old(self).handler, &final(self).handler, old(self).cur_span(), message@),
    {
        let sp = self.tokens[self.pos].span;
        self.error(sp, String::from_str(message));
    }

    /// Consumes the current token if it is of the same variant as `kind`;
    /// otherwise reports `message` at it.
    pub fn expect(&mut self, kind: TokenKind, message: &str) -> (b: bool)
        requires
            old(self).wf(),
        ensures
            step(&*old(self), &*final(self)),
            b == (spec_tag(old(self).cur()) == spec_tag(kind)),
            final(self).tokens == old(self).tokens,
            final(self).arena == old(self).arena,
            final(self).wf(),
            b ==> final(self).handler == old(self).handler,
            b ==> final(self).pos == if old(self).cur() is Eof { old(self).pos as int } else { old(self).pos + 1 },
            !b ==> final(self).pos == old(self).pos,
            !b ==> one_error(&old(self).handler, &final(self).handler, old(self).cur_span(), message@),
    {
        if self.tokens[self.pos].kind.tag() == kind.tag() {
            self.bump();
            true
        } else {
            self.error_here(message);
            false
        }
    }

    /// Consumes the current token if it is of the same variant as `kind`.
    pub fn eat(&mut self, kind: TokenKind) -> (b: bool)
        requires
            old(self).wf(),
        ensures
            step(&*old(self), &*final(self)),
            b == (spec_tag(old(self).cur()) == spec_tag(kind)),
            final(self).tokens == old(self).tokens,
            final(self).arena == old(self).arena,
            final(self).handler == old(self).handler,
            final(self).wf(),
            final(self).pos == if b && !(old(self).cur() is Eof) { old(self).pos + 1 } else { old(self).pos as int },
    {
        if self.tokens[self.pos].kind.tag() == kind.tag() {
            self.bump();
            true
        } else {
            false
        }
    }

    /// Consumes the current token if it is the identifier `name`.
    pub fn eat_ident(&mut self, name: &str) -> (b: bool)
        requires
            old(self).wf(),
        ensures
            step(&*old(self), &*final(self)),
            b == (match old(self).cur() {
                TokenKind::Ident { name: n } => n@ == name@,
                _ => false,
            }),
            final(self).tokens == old(self).tokens,
            final(self).arena == old(self).arena,
            final(self).handler == old(self).handler,
            final(self).wf(),
            final(self).pos == if b { old(self).pos + 1 } else { old(self).pos as int },
    {
        let tokens: &'a [SpannedToken] = self.tokens;
        if let TokenKind::Ident { name: ident } = &tokens[self.pos].kind {
            if str_eq(ident.as_str(), name) {
                self.bump();
                return true;
            }
        }
        false
    }

    /// Skips newline tokens.
    pub fn skip_layout(&mut self)
        requires
            old(self).wf(),
        ensures
            step(&*old(self), &*final(self)),
            final(self).tokens == old(self).tokens,
            final(self).arena == old(self).arena,
            final(self).handler == old(self).handler,
            final(self).wf(),
            old(self).pos <= final(self).pos,
            !(final(self).cur() is Newline),
            forall|j: int| old(self).pos <= j < final(self).pos ==> #[trigger] final(self).tokens@[j].kind is Newline,
            final(self).pos == skip_nl(old(self).tokens@, old(self).pos as int),
    {
        while matches!(self.tokens[self.pos].kind, TokenKind::Newline)
            invariant
                self.tokens == old(self).tokens,
                self.arena == old(self).arena,
                self.handler == old(self).handler,
                self.wf(),
                old(self).pos <= self.pos,
                skip_nl(self.tokens@, self.pos as int) == skip_nl(old(self).tokens@, old(self).pos as int),
                forall|j: int| old(self).pos <= j < self.pos ==> #[trigger] self.tokens@[j].kind is Newline,
            decreases self.tokens@.len() - self.pos,
        {
            self.bump();
        }
    }

    /// Skips newline tokens between statements.
    pub fn skip_stmt_separators(&mut self)
        requires
            old(self).wf(),
        ensures
            step(&*old(self), &*final(self)),
            final(self).tokens == old(self).tokens,
            final(self).arena == old(self).arena,
            final(self).handler == old(self).handler,
            final(self).wf(),
            old(self).pos <= final(self).pos,
            !(final(self).cur() is Newline),
            forall|j: int| old(self).pos <= j < final(self).pos ==> #[trigger] final(self).tokens@[j].kind is Newline,
            final(self).pos == skip_nl(old(self).tokens@, old(self).pos as int),
    {
        while matches!(self.tokens[self.pos].kind, TokenKind::Newline)
            invariant
                self.tokens == old(self).tokens,
                self.arena == old(self).arena,
                self.handler == old(self).handler,
                self.wf(),
                old(self).pos <= self.pos,
                skip_nl(self.tokens@, self.pos as int) == skip_nl(old(self).tokens@, old(self).pos as int),
                forall|j: int| old(self).pos <= j < self.pos ==> #[trigger] self.tokens@[j].kind is Newline,
            decreases self.tokens@.len() - self.pos,
        {
            self.bump();
        }
    }

    /// Whether the current token can start a statement or item.
    pub fn at_stmt_start(&self) -> (b: bool)
        requires
            self.wf(),
        ensures
            b == (is_stmt_start(self.cur()) || is_match_ident(self.cur())),
    {
        let first = match &self.tokens[self.pos].kind {
            TokenKind::KwDef | TokenKind::KwClass | TokenKind::KwStruct | TokenKind::KwEnum
            | TokenKind::KwImpl | TokenKind::KwInterface | TokenKind::KwTrait
            | TokenKind::KwImport | TokenKind::KwFrom | TokenKind::KwIf | TokenKind::KwWhile
            | TokenKind::KwFor | TokenKind::KwReturn | TokenKind::KwPass | TokenKind::KwBreak
            | TokenKind::KwContinue | TokenKind::KwPub | TokenKind::At | TokenKind::Dedent
            | TokenKind::Eof => true,
            _ => false,
        };
        if first || self.is_match_kw() {
            return true;
        }
        match &self.tokens[self.pos].kind {
            TokenKind::Ident { .. } | TokenKind::IntLit { .. } | TokenKind::FloatLit { .. }
            | TokenKind::StringLit { .. } | TokenKind::BytesLit { .. } | TokenKind::BoolLit(_)
            | TokenKind::KwTrue | TokenKind::KwFalse | TokenKind::KwNone | TokenKind::KwSelf
            | TokenKind::LParen | TokenKind::LBracket | TokenKind::LBrace | TokenKind::Minus
            | TokenKind::Bang => true,
            _ => false,
        }
    }

    /// Whether the current token is the identifier `match`.
    pub fn is_match_kw(&self) -> (b: bool)
        requires
            self.wf(),
        ensures
            b == is_match_ident(self.cur()),
    {
        match &self.tokens[self.pos].kind {
            TokenKind::Ident { name } => {
                let r = str_eq(name.as_str(), "match");
                proof {
                    reveal_strlit("match");
                }
                r
            },
            _ => false,
        }
    }

    /// Error recovery: skips tokens up to the next one that can start a
    /// statement, or to `Eof`.
    pub fn synchronize(&mut self)
        requires
            old(self).wf(),
        ensures
            step(&*old(self), &*final(self)),
            final(self).tokens == old(self).tokens,
            final(self).arena == old(self).arena,
            final(self).handler == old(self).handler,
            final(self).wf(),
            old(self).pos <= final(self).pos,
            final(self).cur() is Eof || is_stmt_start(final(self).cur()) || is_match_ident(final(self).cur()),
            forall|j: int|
                old(self).pos <= j < final(self).pos ==> !(#[trigger] final(self).tokens@[j].kind is Eof)
                    && !is_stmt_start(final(self).tokens@[j].kind),
    {
        while !matches!(self.tokens[self.pos].kind, TokenKind::Eof)
            invariant
                self.tokens == old(self).tokens,
                self.arena == old(self).arena,
                self.handler == old(self).handler,
                self.wf(),
                old(self).pos <= self.pos,
                forall|j: int|
                    old(self).pos <= j < self.pos ==> !(#[trigger] self.tokens@[j].kind is Eof)
                        && !is_stmt_start(self.tokens@[j].kind),
            decreases self.tokens@.len() - self.pos,
        {
            if self.at_stmt_start() {
                return;
            }
            self.bump();
        }
    }

    /// Allocates a node in the arena; it may only refer to existing nodes.
    pub fn alloc_expr_node(&mut self, kind: ExprKind, span: Span) -> (id: ExprId)
        requires
            old(self).wf(),
            old(self).arena.fits() ==> expr_kind_ok(&old(self).arena, kind, old(self).arena.next_rank()),
        ensures
            step(&*old(self), &*final(self)),
            final(self).pos == old(self).pos,
            final(self).handler == old(self).handler,
            expr_in(&final(self).arena, id),
            final(self).arena.exprs() == old(self).arena.exprs().push(Expr { kind, span }),
            id.0 == old(self).arena.exprs().len() as u32,
    {
        let id = self.arena.alloc_expr(kind, span);
        proof {
            lemma_in_mono(&old(self).arena, &self.arena);
        }
        id
    }

    /// Allocates a node in the arena; it may only refer to existing nodes.
    pub fn alloc_stmt_node(&mut self, kind: StmtKind, span: Span) -> (id: StmtId)
        requires
            old(self).wf(),
            old(self).arena.fits() ==> stmt_kind_ok(&old(self).arena, kind, old(self).arena.next_rank()),
        ensures
            step(&*old(self), &*final(self)),
            final(self).pos == old(self).pos,
            final(self).handler == old(self).handler,
            stmt_in(&final(self).arena, id),
            final(self).arena.stmts() == old(self).arena.stmts().push(Stmt { kind, span }),
            id.0 == old(self).arena.stmts().len() as u32,
    {
        let id = self.arena.alloc_stmt(kind, span);
        proof {
            lemma_in_mono(&old(self).arena, &self.arena);
        }
        id
    }

    /// Allocates a node in the arena; it may only refer to existing nodes.
    pub fn alloc_item_node(&mut self, kind: ItemKind, span: Span) -> (id: ItemId)
        requires
            old(self).wf(),
            old(self).arena.fits() ==> item_kind_ok(&old(self).arena, kind, old(self).arena.next_rank()),
        ensures
            step(&*old(self), &*final(self)),
            final(self).pos == old(self).pos,
            final(self).handler == old(self).handler,
            item_in(&final(self).arena, id),
            final(self).arena.items() == old(self).arena.items().push(Item { kind, span }),
            id.0 == old(self).arena.items().len() as u32,
    {
        let id = self.arena.alloc_item(kind, span);
        proof {
            lemma_in_mono(&old(self).arena, &self.arena);
        }
        id
    }

    /// Allocates a node in the arena; it may only refer to existing nodes.
    pub fn alloc_pat_node(&mut self, kind: PatKind, span: Span) -> (id: PatId)
        requires
            old(self).wf(),
            old(self).arena.fits() ==> pat_kind_ok(&old(self).arena, kind, old(self).arena.next_rank()),
        ensures
            step(&*old(self), &*final(self)),
            final(self).pos == old(self).pos,
            final(self).handler == old(self).handler,
            pat_in(&final(self).arena, id),
            final(self).arena.pats() == old(self).arena.pats().push(Pat { kind, span }),
            id.0 == old(self).arena.pats().len() as u32,
    {
        let id = self.arena.alloc_pat(kind, span);
        proof {
            lemma_in_mono(&old(self).arena, &self.arena);
        }
        id
    }

    /// Allocates a node in the arena; it may only refer to existing nodes.
    pub fn alloc_ty_node(&mut self, kind: TyKind, span: Span) -> (id: TyId)
        requires
            old(self).wf(),
            old(self).arena.fits() ==> ty_kind_ok(&old(self).arena, kind, old(self).arena.next_rank()),
        ensures
            step(&*old(self), &*final(self)),
            final(self).pos == old(self).pos,
            final(self).handler == old(self).handler,
            ty_in(&final(self).arena, id),
            final(self).arena.tys() == old(self).arena.tys().push(Ty { kind, span }),
            id.0 == old(self).arena.tys().len() as u32,
    {
        let id = self.arena.alloc_ty(kind, span);
        proof {
            lemma_in_mono(&old(self).arena, &self.arena);
        }
        id
    }
}

} // verus!
