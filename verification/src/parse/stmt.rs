use vstd::prelude::*;

use crate::ast::arena::{
    arms_in, elifs_in, expr_in, lemma_arms_in_mono, lemma_arms_in_ok, lemma_in_mono, lemma_in_ok,
    lemma_seq_in_mono, lemma_seq_in_ok, pat_in, pats_in, stmt_in, stmts_in,
};
use crate::ast::expr::ExprKind;
use crate::ast::pat::{Mutability, Pat, PatKind};
use crate::ast::arena::{arena_extends, Arena};
use crate::parse::ty::lone_ident;
use crate::ast::literal::Literal;
use crate::ast::stmt::{ElifArm, MatchArm, StmtKind};
use crate::ids::{ExprId, PatId, StmtId};
use crate::parse::expr::{after_atom, atom_literal, lone_literal, name_atom, yields_name};
use crate::ast::literal::{clone_literal, literal_same};
use crate::parse::parser::{expr_result, lemma_skip_nl_idem, one_error, pat_result, skip_nl, step, Parser};
use crate::span::Span;
use crate::syntax::{SpannedToken, TokenKind};

verus! {

broadcast use crate::parse::parser::lemma_step_trans;

/// Whether `k` closes a block.
pub open spec fn ends_block(k: TokenKind) -> bool {
    k is Dedent || k is Eof
}

/// A parse that yields nothing either reported an error or stopped at the
/// end of a block.
pub open spec fn none_ok(a: &Parser, b: &Parser) -> bool {
    a.handler.error_count() < b.handler.error_count() || ends_block(b.cur())
}

/// A statement parse: a yielded statement consumed at least one token and
/// exists.
pub open spec fn stmt_result(a: &Parser, b: &Parser, r: Option<StmtId>) -> bool {
    &&& step(a, b)
    &&& match r {
        Some(s) => a.pos < b.pos && stmt_in(&b.arena, s),
        None => none_ok(a, b),
    }
}

/// A block parse: the yielded statements exist.
pub open spec fn block_result(a: &Parser, b: &Parser, r: Option<Vec<StmtId>>) -> bool {
    &&& step(a, b)
    &&& match r {
        Some(v) => stmts_in(&b.arena, v@),
        None => none_ok(a, b),
    }
}

/// The statement a keyword stands for on its own.
pub open spec fn simple_stmt(k: TokenKind) -> Option<StmtKind> {
    match k {
        TokenKind::KwPass => Some(StmtKind::Pass),
        TokenKind::KwBreak => Some(StmtKind::Break(None)),
        TokenKind::KwContinue => Some(StmtKind::Continue(None)),
        _ => None,
    }
}

/// Statement `id` of the arena of `b` (where its ids fit) is `return`,
/// with a value exactly when `valued`.
pub open spec fn yields_return(b: &Parser, id: StmtId, valued: bool) -> bool {
    b.arena.fits() ==> (b.arena.stmts()[id.0 as int].kind matches StmtKind::Return(v) && (v is Some <==> valued))
}

/// Statement `id` of the arena of `b` (where its ids fit) is `return` of
/// literal `lit`.
pub open spec fn yields_return_literal(b: &Parser, id: StmtId, lit: Literal) -> bool {
    b.arena.fits() ==> {
        &&& id.0 < b.arena.stmts().len()
        &&& b.arena.stmts()[id.0 as int].kind matches StmtKind::Return(Some(e))
        &&& e.0 < b.arena.exprs().len()
        &&& b.arena.exprs()[e.0 as int].kind == ExprKind::Literal(lit)
    }
}

/// The tokens from `p`, past newlines, are a name (other than `match`),
/// `=` and a literal that nothing continues or combines: the name and the
/// literal.
pub open spec fn assign_literal(t: Seq<SpannedToken>, p: int) -> Option<(String, Literal)> {
    let q = after_atom(t, p);
    match (name_atom(t[skip_nl(t, p)].kind), lone_literal(t, q + 1)) {
        (Some(n), Some(lit)) => if t[q].kind is Assign && n@ != "match"@ {
            Some((n, lit))
        } else {
            None
        },
        _ => None,
    }
}

/// The tokens from `p`, past newlines, are a name (other than `match`), `:`,
/// a type that is a plain name, `=` and a literal that nothing continues or
/// combines: the name, the literal and where the literal ends.
pub open spec fn ann_assign_literal(t: Seq<SpannedToken>, p: int) -> Option<(String, Literal, int)> {
    let q = after_atom(t, p);
    let ty = skip_nl(t, q + 1);
    let eq = skip_nl(t, ty + 1);
    if 0 <= q < t.len() && 0 <= eq < t.len() && t[q].kind is Colon && lone_ident(t, ty) is Some
        && t[eq].kind is Assign {
        match (name_atom(t[skip_nl(t, p)].kind), lone_literal(t, eq + 1)) {
            (Some(n), Some(lit)) => if n@ != "match"@ {
                Some((n, lit, after_atom(t, eq + 1)))
            } else {
                None
            },
            _ => None,
        }
    } else {
        None
    }
}

/// Statement `id` of the arena of `b` (where its ids fit) declares the one
/// target `name` with a type and assigns it literal `lit`.
pub open spec fn yields_ann_assign(b: &Parser, id: StmtId, n: String, lit: Literal) -> bool {
    b.arena.fits() ==> {
        &&& id.0 < b.arena.stmts().len()
        &&& b.arena.stmts()[id.0 as int].kind matches StmtKind::AnnAssign { target, value: Some(v), .. }
        &&& b.arena.pats()[target.0 as int].kind == (PatKind::Ident {
            name: n,
            mutability: Mutability::Imm,
            subpat: None,
        })
        &&& v.0 < b.arena.exprs().len()
        &&& b.arena.exprs()[v.0 as int].kind == ExprKind::Literal(lit)
    }
}

/// Statement `id` of the arena of `b` (where its ids fit) assigns literal
/// `lit` to the one target `name`.
pub open spec fn yields_assign(b: &Parser, id: StmtId, n: String, lit: Literal) -> bool {
    b.arena.fits() ==> (b.arena.stmts()[id.0 as int].kind matches StmtKind::Assign { targets, value }
        && targets@.len() == 1 && b.arena.pats()[targets@[0].0 as int].kind == PatKind::Ident {
        name: n,
        mutability: Mutability::Imm,
        subpat: None,
    } && b.arena.exprs()[value.0 as int].kind == ExprKind::Literal(lit))
}

/// From `s`, the lines of a block up to its dedent: annotated assignments
/// of literals (`NAME : TYPE = LITERAL`), then `return LITERAL`. How many
/// assignments there are, the returned literal and the dedent's position.
pub open spec fn ann_return_lines(t: Seq<SpannedToken>, s: int) -> Option<(nat, Literal, int)>
    decreases t.len() - s,
{
    if !(0 <= s < t.len()) {
        None
    } else if t[s].kind is KwReturn {
        match lone_literal(t, s + 1) {
            Some(lit) => if 0 <= after_atom(t, s + 1) < t.len() && t[after_atom(t, s + 1)].kind is Dedent {
                Some((0nat, lit, after_atom(t, s + 1)))
            } else {
                None
            },
            None => None,
        }
    } else {
        match ann_assign_literal(t, s) {
            Some((_, _, end)) => if s < end < t.len() {
                match ann_return_lines(t, end) {
                    Some((k, lit, d)) => Some((k + 1, lit, d)),
                    None => None,
                }
            } else {
                None
            },
            None => None,
        }
    }
}

proof fn lemma_lines_dedent(t: Seq<SpannedToken>, s: int)
    ensures
        ann_return_lines(t, s) matches Some((k, lit, d)) ==> 0 <= d < t.len() && t[d].kind is Dedent,
    decreases t.len() - s,
{
    if 0 <= s < t.len() && !(t[s].kind is KwReturn) {
        match ann_assign_literal(t, s) {
            Some((_, _, end)) => if s < end < t.len() {
                lemma_lines_dedent(t, end);
            },
            None => {},
        }
    }
}

/// The tokens from `p` are a block of such lines: a newline, an indent, the
/// lines and a dedent.
pub open spec fn return_block(t: Seq<SpannedToken>, p: int) -> Option<(nat, Literal, int)> {
    if 0 <= p && p + 2 < t.len() && t[p].kind is Newline && t[p + 1].kind is Indent {
        ann_return_lines(t, p + 2)
    } else {
        None
    }
}

/// Statements `v` of `a`, as far as they go, are `k` annotated assignments
/// and then `return` of literal `lit`.
pub open spec fn body_prefix(a: &Arena, v: Seq<StmtId>, k: nat, lit: Literal) -> bool {
    &&& v.len() <= k + 1
    &&& forall|i: int|
        0 <= i < v.len() && i < k ==> (#[trigger] v[i]).0 < a.stmts().len() && a.stmts()[v[i].0 as int].kind is AnnAssign
    &&& v.len() == k + 1 ==> {
        &&& v[k as int].0 < a.stmts().len()
        &&& a.stmts()[v[k as int].0 as int].kind matches StmtKind::Return(Some(e))
        &&& e.0 < a.exprs().len()
        &&& a.exprs()[e.0 as int].kind == ExprKind::Literal(lit)
    }
}

/// Statements `v` of `a` are `k` annotated assignments and then `return`
/// of literal `lit`.
pub open spec fn body_shape(a: &Arena, v: Seq<StmtId>, k: nat, lit: Literal) -> bool {
    v.len() == k + 1 && body_prefix(a, v, k, lit)
}

pub proof fn lemma_body_prefix_extend(a: &Arena, b: &Arena, v: Seq<StmtId>, k: nat, lit: Literal)
    requires
        arena_extends(a, b),
        body_prefix(a, v, k, lit),
    ensures
        body_prefix(b, v, k, lit),
{
    assert forall|i: int| 0 <= i < v.len() && i < k implies (#[trigger] v[i]).0 < b.stmts().len()
        && b.stmts()[v[i].0 as int].kind is AnnAssign by {
        assert(b.stmts()[v[i].0 as int] == a.stmts()[v[i].0 as int]);
    }
    if v.len() == k + 1 {
        assert(b.stmts()[v[k as int].0 as int] == a.stmts()[v[k as int].0 as int]);
        match a.stmts()[v[k as int].0 as int].kind {
            StmtKind::Return(Some(e)) => {
                assert(b.exprs()[e.0 as int] == a.exprs()[e.0 as int]);
            },
            _ => {},
        }
    }
}

/// A token that stands for the wildcard pattern: `_`.
pub open spec fn wild_token(k: TokenKind) -> bool {
    match k {
        TokenKind::Underscore => true,
        TokenKind::Ident { name } => name@ == "_"@,
        _ => false,
    }
}

/// The name a token stands for as a pattern: an identifier other than `_`
/// that no `[`, `.` or `(` follows.
pub open spec fn pat_name(t: Seq<SpannedToken>, p: int) -> Option<String> {
    if 0 <= p && p + 1 < t.len() {
        match t[p].kind {
            TokenKind::Ident { name } => if name@ != "_"@ && !(t[p + 1].kind is LBracket) && !(t[p
                + 1].kind is Dot) && !(t[p + 1].kind is LParen) {
                Some(name)
            } else {
                None
            },
            _ => None,
        }
    } else {
        None
    }
}

/// Where the pattern at `p` ends, if the tokens from `p` form a pattern of
/// wildcards, names and parenthesized lists of such patterns separated by
/// commas (no trailing comma); -1 if they do not.
pub open spec fn pat_end(t: Seq<SpannedToken>, p: int) -> int
    decreases t.len() - p, 1int,
{
    if !(0 <= p < t.len()) {
        -1
    } else if wild_token(t[p].kind) || pat_name(t, p) is Some {
        p + 1
    } else if atom_literal(t[p].kind) is Some && lone_literal(t, p) is Some {
        after_atom(t, p)
    } else if t[p].kind is LParen {
        let a = skip_nl(t, p + 1);
        if !(p < a < t.len()) {
            -1
        } else if t[a].kind is RParen {
            a + 1
        } else {
            list_end(t, a)
        }
    } else {
        -1
    }
}

/// Where the list of patterns that starts at `a` ends, past its `)`; -1 if
/// the tokens from `a` are no such list.
pub open spec fn list_end(t: Seq<SpannedToken>, a: int) -> int
    decreases t.len() - a, 2int,
{
    if !(0 <= a < t.len()) {
        -1
    } else {
        let e = pat_end(t, a);
        if !(a < e < t.len()) {
            -1
        } else if t[e].kind is RParen {
            e + 1
        } else if t[e].kind is Comma {
            let b = skip_nl(t, e + 1);
            if e < b < t.len() && !(t[b].kind is RParen) {
                list_end(t, b)
            } else {
                -1
            }
        } else {
            -1
        }
    }
}

/// Pattern `id` of `ps` is the pattern that the tokens from `p` stand for: a
/// parenthesized single pattern is that pattern itself, and parentheses
/// around none or several patterns make a tuple of them.
pub open spec fn pat_denotes(t: Seq<SpannedToken>, p: int, ps: Seq<Pat>, id: int) -> bool
    decreases t.len() - p, 1int,
{
    if !(0 <= p < t.len() && 0 <= id < ps.len()) {
        false
    } else if wild_token(t[p].kind) {
        ps[id].kind == PatKind::Wild
    } else if pat_name(t, p) is Some {
        ps[id].kind == (PatKind::Ident {
            name: pat_name(t, p).unwrap(),
            mutability: Mutability::Imm,
            subpat: None,
        })
    } else if atom_literal(t[p].kind) is Some && lone_literal(t, p) is Some {
        ps[id].kind matches PatKind::Literal(pl) && literal_same(pl, lone_literal(t, p).unwrap())
    } else if t[p].kind is LParen {
        let a = skip_nl(t, p + 1);
        if !(p < a < t.len()) {
            false
        } else if t[a].kind is RParen {
            ps[id].kind matches PatKind::Tuple(v) && v@.len() == 0
        } else if 0 <= pat_end(t, a) < t.len() && t[pat_end(t, a)].kind is RParen {
            pat_denotes(t, a, ps, id)
        } else {
            ps[id].kind matches PatKind::Tuple(v) && list_denotes(t, a, ps, v@)
        }
    } else {
        false
    }
}

/// The patterns `v` of `ps` are those of the list of patterns that starts at
/// `a`, in order.
pub open spec fn list_denotes(t: Seq<SpannedToken>, a: int, ps: Seq<Pat>, v: Seq<PatId>) -> bool
    decreases t.len() - a, 2int,
{
    if !(0 <= a < t.len() && v.len() >= 1) {
        false
    } else {
        let e = pat_end(t, a);
        &&& pat_denotes(t, a, ps, v[0].0 as int)
        &&& a < e < t.len()
        &&& if t[e].kind is RParen {
            v.len() == 1
        } else {
            let b = skip_nl(t, e + 1);
            &&& t[e].kind is Comma
            &&& e < b < t.len()
            &&& list_denotes(t, b, ps, v.drop_first())
        }
    }
}

/// Where the element of index `k` of the list of patterns that starts at `a`
/// starts.
pub open spec fn elem_at(t: Seq<SpannedToken>, a: int, k: nat) -> int
    decreases k,
{
    if k == 0 {
        a
    } else {
        skip_nl(t, pat_end(t, elem_at(t, a, (k - 1) as nat)) + 1)
    }
}

/// The elements `v` of the list of patterns that starts at `a` have been
/// parsed into patterns of `ps` (where `fits`), separated by commas, up to
/// `pos` just past the last one; the whole list ends at `end`.
pub open spec fn list_parsed(
    t: Seq<SpannedToken>,
    a: int,
    v: Seq<PatId>,
    pos: int,
    ps: Seq<Pat>,
    fits: bool,
    end: int,
) -> bool {
    &&& v.len() > 0
    &&& pos == pat_end(t, elem_at(t, a, (v.len() - 1) as nat))
    &&& list_end(t, elem_at(t, a, (v.len() - 1) as nat)) == end
    &&& forall|i: int|
        0 <= i < v.len() ==> elem_at(t, a, i as nat) < #[trigger] pat_end(t, elem_at(t, a, i as nat)) < t.len()
    &&& forall|i: int| 0 <= i < v.len() - 1 ==> (#[trigger] t[pat_end(t, elem_at(t, a, i as nat))]).kind is Comma
    &&& forall|i: int|
        0 <= i < v.len() - 1 ==> pat_end(t, elem_at(t, a, i as nat)) < #[trigger] elem_at(t, a, (i + 1) as nat)
            < t.len()
    &&& fits ==> forall|i: int|
        0 <= i < v.len() ==> #[trigger] pat_denotes(t, elem_at(t, a, i as nat), ps, v[i].0 as int)
}

proof fn lemma_pat_denotes_extend(t: Seq<SpannedToken>, p: int, ps: Seq<Pat>, ps2: Seq<Pat>, id: int)
    requires
        ps.len() <= ps2.len(),
        forall|i: int| 0 <= i < ps.len() ==> #[trigger] ps2[i] == ps[i],
        pat_denotes(t, p, ps, id),
    ensures
        pat_denotes(t, p, ps2, id),
    decreases t.len() - p, 1int,
{
    assert(ps2[id] == ps[id]);
    if !wild_token(t[p].kind) && pat_name(t, p) is None && t[p].kind is LParen {
        let a = skip_nl(t, p + 1);
        if !(t[a].kind is RParen) {
            if 0 <= pat_end(t, a) < t.len() && t[pat_end(t, a)].kind is RParen {
                lemma_pat_denotes_extend(t, a, ps, ps2, id);
            } else {
                match ps[id].kind {
                    PatKind::Tuple(v) => lemma_list_denotes_extend(t, a, ps, ps2, v@),
                    _ => {},
                }
            }
        }
    }
}

proof fn lemma_list_denotes_extend(t: Seq<SpannedToken>, a: int, ps: Seq<Pat>, ps2: Seq<Pat>, v: Seq<PatId>)
    requires
        ps.len() <= ps2.len(),
        forall|i: int| 0 <= i < ps.len() ==> #[trigger] ps2[i] == ps[i],
        list_denotes(t, a, ps, v),
    ensures
        list_denotes(t, a, ps2, v),
    decreases t.len() - a, 2int,
{
    lemma_pat_denotes_extend(t, a, ps, ps2, v[0].0 as int);
    let e = pat_end(t, a);
    if !(t[e].kind is RParen) {
        lemma_list_denotes_extend(t, skip_nl(t, e + 1), ps, ps2, v.drop_first());
    }
}

/// The patterns `v`, each standing for the element of its index, make the
/// list from element `j` on, when the elements are separated by commas and
/// the last is followed by `)`.
proof fn lemma_list_build(t: Seq<SpannedToken>, a: int, ps: Seq<Pat>, v: Seq<PatId>, j: int)
    requires
        0 <= j < v.len(),
        forall|i: int| 0 <= i < v.len() ==> #[trigger] pat_denotes(t, elem_at(t, a, i as nat), ps, v[i].0 as int),
        forall|i: int|
            0 <= i < v.len() ==> elem_at(t, a, i as nat) < #[trigger] pat_end(t, elem_at(t, a, i as nat)) < t.len(),
        forall|i: int|
            0 <= i < v.len() - 1 ==> (#[trigger] t[pat_end(t, elem_at(t, a, i as nat))]).kind is Comma,
        forall|i: int|
            0 <= i < v.len() - 1 ==> pat_end(t, elem_at(t, a, i as nat)) < #[trigger] elem_at(t, a, (i + 1) as nat)
                < t.len(),
        t[pat_end(t, elem_at(t, a, (v.len() - 1) as nat))].kind is RParen,
    ensures
        list_denotes(t, elem_at(t, a, j as nat), ps, v.subrange(j, v.len() as int)),
    decreases v.len() - j,
{
    let s = elem_at(t, a, j as nat);
    assert(pat_denotes(t, elem_at(t, a, j as nat), ps, v[j].0 as int));
    assert(elem_at(t, a, j as nat) < pat_end(t, elem_at(t, a, j as nat)) < t.len());
    assert(v.subrange(j, v.len() as int)[0] == v[j]);
    if j < v.len() - 1 {
        assert(t[pat_end(t, elem_at(t, a, j as nat))].kind is Comma);
        assert(pat_end(t, elem_at(t, a, j as nat)) < elem_at(t, a, (j + 1) as nat) < t.len());
        lemma_list_build(t, a, ps, v, j + 1);
        assert(v.subrange(j, v.len() as int).drop_first() =~= v.subrange(j + 1, v.len() as int));
    }
}

impl<'a> Parser<'a> {
    /// Parses one statement; yields nothing, without an error, at the end of
    /// a block.
    ///
    /// Past blank lines, `pass`, `break` and `continue` are statements of
    /// their own; `return` takes as its value whatever follows it up to the
    /// end of the block, newlines skipped.
    #[verifier::rlimit(100)]
    pub fn parse_stmt(&mut self) -> (r: Option<StmtId>)
        requires
            old(self).wf(),
        ensures
            stmt_result(&*old(self), &*final(self), r),
            ends_block(old(self).tokens@[skip_nl(old(self).tokens@, old(self).pos as int)].kind) ==> r is None
                && final(self).arena == old(self).arena && final(self).handler == old(self).handler,
            simple_stmt(old(self).tokens@[skip_nl(old(self).tokens@, old(self).pos as int)].kind) matches Some(sk) ==> (
            r matches Some(id) && final(self).pos == skip_nl(old(self).tokens@, old(self).pos as int) + 1
                && final(self).handler == old(self).handler && (final(self).arena.fits()
                ==> final(self).arena.stmts()[id.0 as int].kind == sk)),
            old(self).tokens@[skip_nl(old(self).tokens@, old(self).pos as int)].kind is KwReturn ==> (r matches Some(
                id,
            ) ==> yields_return(
                &*final(self),
                id,
                !ends_block(old(self).tokens@[after_atom(old(self).tokens@, old(self).pos as int)].kind),
            )),
            old(self).tokens@[skip_nl(old(self).tokens@, old(self).pos as int)].kind is KwReturn && ends_block(
                old(self).tokens@[after_atom(old(self).tokens@, old(self).pos as int)].kind,
            ) ==> r is Some,
            old(self).tokens@[skip_nl(old(self).tokens@, old(self).pos as int)].kind is KwReturn ==> (lone_literal(
                old(self).tokens@,
                skip_nl(old(self).tokens@, old(self).pos as int) + 1,
            ) matches Some(lit) ==> (r matches Some(id) && yields_return_literal(&*final(self), id, lit) && final(self).pos
                == after_atom(old(self).tokens@, skip_nl(old(self).tokens@, old(self).pos as int) + 1) && final(self).handler
                == old(self).handler)),
            assign_literal(old(self).tokens@, old(self).pos as int) matches Some((n, lit)) ==> (final(self).arena.fits()
                ==> (r matches Some(id) && yields_assign(&*final(self), id, n, lit) && final(self).handler == old(
                self,
            ).handler)),
            ann_assign_literal(old(self).tokens@, old(self).pos as int) matches Some((n, lit, end)) ==> (final(self).arena.fits()
                ==> (r matches Some(id) && yields_ann_assign(&*final(self), id, n, lit) && final(self).pos == end
                && final(self).handler == old(self).handler)),
        decreases old(self).remaining(), 22nat,
    {
        let tokens: &'a [SpannedToken] = self.tokens;
        proof {
            lemma_skip_nl_idem(old(self).tokens@, skip_nl(old(self).tokens@, old(self).pos as int) + 1);
        }
        self.skip_stmt_separators();
        if matches!(tokens[self.pos].kind, TokenKind::Dedent | TokenKind::Eof) {
            return None;
        }
        let start = tokens[self.pos].span;
        let kind = if self.eat(TokenKind::KwPass) {
            StmtKind::Pass
        } else if self.eat(TokenKind::KwBreak) {
            StmtKind::Break(None)
        } else if self.eat(TokenKind::KwContinue) {
            StmtKind::Continue(None)
        } else if self.eat(TokenKind::KwReturn) {
            self.skip_layout();
            let value = if matches!(
                tokens[self.pos].kind,
                TokenKind::Newline | TokenKind::Dedent | TokenKind::Eof
            ) {
                None
            } else {
                match self.parse_expr() {
                    Some(e) => Some(e),
                    None => return None,
                }
            };
            StmtKind::Return(value)
        } else if self.eat(TokenKind::KwIf) {
            return self.parse_if_stmt(start);
        } else if self.eat(TokenKind::KwWhile) {
            return self.parse_while_stmt(start);
        } else if self.eat(TokenKind::KwFor) {
            return self.parse_for_stmt(start);
        } else if self.is_match_kw() {
            return self.parse_match_stmt(start);
        } else {
            let expr = match self.parse_expr() {
                Some(e) => e,
                None => return None,
            };
            self.skip_layout();
            if self.eat(TokenKind::Assign) {
                let ghost q1 = self.pos as int;
                proof {
                    lemma_skip_nl_idem(tokens@, q1);
                    lemma_skip_nl_idem(tokens@, skip_nl(tokens@, q1) + 1);
                }
                self.skip_layout();
                let ghost s1 = *self;
                let value = match self.parse_expr() {
                    Some(e) => e,
                    None => return None,
                };
                proof {
                    lemma_in_mono(&s1.arena, &self.arena);
                }
                let ghost s2 = *self;
                let target = match self.expr_to_pat(expr) {
                    Some(t) => t,
                    None => return None,
                };
                proof {
                    lemma_in_mono(&s2.arena, &self.arena);
                    if self.arena.fits() {
                        assert(self.arena.exprs()[value.0 as int] == s2.arena.exprs()[value.0 as int]);
                    }
                }
                let mut targets: Vec<PatId> = Vec::new();
                targets.push(target);
                assert(pats_in(&self.arena, targets@));
                StmtKind::Assign { targets, value }
            } else if self.eat(TokenKind::Colon) {
                let ghost s1 = *self;
                proof {
                    lemma_skip_nl_idem(tokens@, s1.pos as int);
                }
                let ty = match self.parse_ty() {
                    Some(t) => t,
                    None => return None,
                };
                proof {
                    lemma_in_mono(&s1.arena, &self.arena);
                    lemma_skip_nl_idem(tokens@, self.pos as int);
                }
                self.skip_layout();
                let value = if self.eat(TokenKind::Assign) {
                    proof {
                        lemma_skip_nl_idem(tokens@, self.pos as int);
                        lemma_skip_nl_idem(tokens@, skip_nl(tokens@, self.pos as int) + 1);
                    }
                    self.skip_layout();
                    let ghost s2 = *self;
                    match self.parse_expr() {
                        Some(e) => {
                            proof {
                                lemma_in_mono(&s2.arena, &self.arena);
                            }
                            Some(e)
                        },
                        None => return None,
                    }
                } else {
                    None
                };
                let ghost s3 = *self;
                let target = match self.expr_to_pat(expr) {
                    Some(t) => t,
                    None => return None,
                };
                proof {
                    lemma_in_mono(&s3.arena, &self.arena);
                    if self.arena.fits() {
                        match value {
                            Some(v) => {
                                assert(self.arena.exprs()[v.0 as int] == s3.arena.exprs()[v.0 as int]);
                            },
                            None => {},
                        }
                    }
                }
                StmtKind::AnnAssign { target, ty, value }
            } else {
                StmtKind::Expr(expr)
            }
        };
        let span = self.span_from(start);
        proof {
            lemma_in_ok(&self.arena);
            lemma_seq_in_ok(&self.arena);
        }
        Some(self.alloc_stmt_node(kind, span))
    }

    /// Parses the rest of an `if` statement (after `if`).
    fn parse_if_stmt(&mut self, start: Span) -> (r: Option<StmtId>)
        requires
            old(self).wf(),
        ensures
            stmt_result(&*old(self), &*final(self), r),
        decreases old(self).remaining(), 21nat,
    {
        let tokens: &'a [SpannedToken] = self.tokens;
        self.skip_layout();
        let test = match self.parse_expr() {
            Some(e) => e,
            None => return None,
        };
        self.skip_layout();
        if !self.eat(TokenKind::Colon) {
            self.error_here("expected ':' after if condition");
            return None;
        }
        let ghost s1 = *self;
        let then_body = match self.parse_block() {
            Some(b) => b,
            None => return None,
        };
        proof {
            lemma_in_mono(&s1.arena, &self.arena);
        }
        let mut elifs: Vec<ElifArm> = Vec::new();
        loop
            invariant
                step(&*old(self), &*self),
                tokens@ == self.tokens@,
                old(self).pos < self.pos,
                expr_in(&self.arena, test),
                stmts_in(&self.arena, then_body@),
                elifs_in(&self.arena, elifs@),
            decreases self.remaining(),
        {
            let ghost s2 = *self;
            if !self.eat(TokenKind::KwElif) {
                break;
            }
            let elif_start = tokens[self.pos].span;
            self.skip_layout();
            let elif_test = match self.parse_expr() {
                Some(e) => e,
                None => return None,
            };
            self.skip_layout();
            if !self.eat(TokenKind::Colon) {
                self.error_here("expected ':' after elif condition");
                return None;
            }
            let ghost s3 = *self;
            let elif_body = match self.parse_block() {
                Some(b) => b,
                None => return None,
            };
            proof {
                lemma_in_mono(&s3.arena, &self.arena);
                lemma_seq_in_mono(&s2.arena, &self.arena);
                lemma_arms_in_mono(&s2.arena, &self.arena, elifs@, Seq::empty());
            }
            let span = self.span_from(elif_start);
            let ghost old_elifs = elifs@;
            elifs.push(ElifArm { test: elif_test, body: elif_body, span });
            assert(elifs_in(&self.arena, elifs@)) by {
                assert forall|i: int| 0 <= i < elifs@.len() implies expr_in(&self.arena, #[trigger] elifs@[i].test)
                    && stmts_in(&self.arena, elifs@[i].body@) by {
                    if i < old_elifs.len() {
                        assert(elifs@[i] == old_elifs[i]);
                    }
                }
            }
        }
        let ghost s4 = *self;
        let else_body = if self.eat(TokenKind::KwElse) {
            self.skip_layout();
            if !self.eat(TokenKind::Colon) {
                self.error_here("expected ':' after else");
                return None;
            }
            match self.parse_block() {
                Some(b) => Some(b),
                None => return None,
            }
        } else {
            None
        };
        proof {
            lemma_in_mono(&s4.arena, &self.arena);
            lemma_seq_in_mono(&s4.arena, &self.arena);
            lemma_arms_in_mono(&s4.arena, &self.arena, elifs@, Seq::empty());
            lemma_in_ok(&self.arena);
            lemma_seq_in_ok(&self.arena);
            lemma_arms_in_ok(&self.arena, elifs@, Seq::empty());
        }
        let span = self.span_from(start);
        Some(self.alloc_stmt_node(StmtKind::If { test, then_body, elifs, else_body }, span))
    }

    /// Parses the rest of a `while` statement (after `while`).
    fn parse_while_stmt(&mut self, start: Span) -> (r: Option<StmtId>)
        requires
            old(self).wf(),
        ensures
            stmt_result(&*old(self), &*final(self), r),
        decreases old(self).remaining(), 21nat,
    {
        self.skip_layout();
        let test = match self.parse_expr() {
            Some(e) => e,
            None => return None,
        };
        self.skip_layout();
        if !self.eat(TokenKind::Colon) {
            self.error_here("expected ':' after while condition");
            return None;
        }
        let ghost s1 = *self;
        let body = match self.parse_block() {
            Some(b) => b,
            None => return None,
        };
        proof {
            lemma_in_mono(&s1.arena, &self.arena);
            lemma_in_ok(&self.arena);
            lemma_seq_in_ok(&self.arena);
        }
        let span = self.span_from(start);
        Some(self.alloc_stmt_node(StmtKind::While { test, body }, span))
    }

    /// Parses the rest of a `for` statement (after `for`).
    fn parse_for_stmt(&mut self, start: Span) -> (r: Option<StmtId>)
        requires
            old(self).wf(),
        ensures
            stmt_result(&*old(self), &*final(self), r),
        decreases old(self).remaining(), 21nat,
    {
        self.skip_layout();
        let pat = match self.parse_pat() {
            Some(p) => p,
            None => return None,
        };
        self.skip_layout();
        if !self.eat(TokenKind::KwIn) {
            self.error_here("expected 'in' in for loop");
            return None;
        }
        self.skip_layout();
        let ghost s1 = *self;
        let iter = match self.parse_expr() {
            Some(e) => e,
            None => return None,
        };
        proof {
            lemma_in_mono(&s1.arena, &self.arena);
        }
        self.skip_layout();
        if !self.eat(TokenKind::Colon) {
            self.error_here("expected ':' after for header");
            return None;
        }
        let ghost s2 = *self;
        let body = match self.parse_block() {
            Some(b) => b,
            None => return None,
        };
        proof {
            lemma_in_mono(&s2.arena, &self.arena);
            lemma_in_ok(&self.arena);
            lemma_seq_in_ok(&self.arena);
        }
        let span = self.span_from(start);
        Some(self.alloc_stmt_node(StmtKind::For { pat, iter, body }, span))
    }

    /// Parses a `match` statement (the identifier `match` is current).
    fn parse_match_stmt(&mut self, start: Span) -> (r: Option<StmtId>)
        requires
            old(self).wf(),
            !(old(self).cur() is Eof),
        ensures
            stmt_result(&*old(self), &*final(self), r),
        decreases old(self).remaining(), 21nat,
    {
        let tokens: &'a [SpannedToken] = self.tokens;
        self.bump();
        self.skip_layout();
        let scrutinee = match self.parse_expr() {
            Some(e) => e,
            None => return None,
        };
        self.skip_layout();
        if !self.eat(TokenKind::Colon) {
            self.error_here("expected ':' after match scrutinee");
            return None;
        }
        if !self.eat(TokenKind::Newline) {
            self.error_here("expected newline after match ':'");
            return None;
        }
        if !self.eat(TokenKind::Indent) {
            self.error_here("expected indented match arms");
            return None;
        }
        let mut arms: Vec<MatchArm> = Vec::new();
        while !matches!(tokens[self.pos].kind, TokenKind::Dedent | TokenKind::Eof)
            invariant
                step(&*old(self), &*self),
                tokens@ == self.tokens@,
                old(self).pos < self.pos,
                expr_in(&self.arena, scrutinee),
                arms_in(&self.arena, arms@),
            decreases self.remaining(),
        {
            let ghost s2 = *self;
            self.skip_stmt_separators();
            if matches!(tokens[self.pos].kind, TokenKind::Dedent | TokenKind::Eof) {
                break;
            }
            let arm_start = tokens[self.pos].span;
            let pat = match self.parse_pat() {
                Some(p) => p,
                None => return None,
            };
            if !self.eat(TokenKind::FatArrow) {
                self.error_here("expected '=>' in match arm");
                return None;
            }
            let ghost s3 = *self;
            let body = match self.parse_block() {
                Some(b) => b,
                None => return None,
            };
            proof {
                lemma_in_mono(&s3.arena, &self.arena);
                lemma_arms_in_mono(&s2.arena, &self.arena, Seq::empty(), arms@);
            }
            let span = self.span_from(arm_start);
            let ghost old_arms = arms@;
            arms.push(MatchArm { pat, guard: None, body, span });
            assert(arms_in(&self.arena, arms@)) by {
                assert forall|i: int| 0 <= i < arms@.len() implies pat_in(&self.arena, #[trigger] arms@[i].pat)
                    && arms@[i].guard is None && stmts_in(&self.arena, arms@[i].body@) by {
                    if i < old_arms.len() {
                        assert(arms@[i] == old_arms[i]);
                    }
                }
            }
            self.skip_stmt_separators();
        }
        self.eat(TokenKind::Dedent);
        proof {
            lemma_in_ok(&self.arena);
            lemma_arms_in_ok(&self.arena, Seq::empty(), arms@);
        }
        let span = self.span_from(start);
        Some(self.alloc_stmt_node(StmtKind::Match { scrutinee, arms }, span))
    }

    /// Parses a block: a single statement on the same line, or an indented
    /// run of statements up to the matching dedent.
    ///
    /// An iteration that consumes nothing while errors were already reported
    /// would repeat itself forever; the block ends there instead.
    pub fn parse_block(&mut self) -> (r: Option<Vec<StmtId>>)
        requires
            old(self).wf(),
        ensures
            block_result(&*old(self), &*final(self), r),
            !(old(self).cur() is Newline) ==> (r matches Some(v) ==> v@.len() == 1),
            old(self).cur() is Newline && !(old(self).tokens@[old(self).pos + 1].kind is Indent) ==> r is None
                && final(self).arena == old(self).arena && one_error(
                &old(self).handler,
                &final(self).handler,
                old(self).tokens@[old(self).pos + 1].span,
                "expected indented block"@,
            ),
            return_block(old(self).tokens@, old(self).pos as int) matches Some((k, lit, d)) ==> (final(self).arena.fits()
                ==> (r matches Some(v) && final(self).pos == d + 1 && final(self).handler == old(self).handler
                && body_shape(&final(self).arena, v@, k, lit))),
        decreases old(self).remaining(), 23nat,
    {
        let ghost rb = return_block(old(self).tokens@, old(self).pos as int);
        let tokens: &'a [SpannedToken] = self.tokens;
        if !self.eat(TokenKind::Newline) {
            let stmt = match self.parse_stmt() {
                Some(s) => s,
                None => return None,
            };
            let mut v: Vec<StmtId> = Vec::new();
            v.push(stmt);
            assert(stmts_in(&self.arena, v@));
            return Some(v);
        }
        if !self.eat(TokenKind::Indent) {
            self.error_here("expected indented block");
            return None;
        }
        let mut stmts: Vec<StmtId> = Vec::new();
        proof {
            lemma_lines_dedent(tokens@, old(self).pos + 2);
        }
        while !matches!(tokens[self.pos].kind, TokenKind::Dedent | TokenKind::Eof)
            invariant
                step(&*old(self), &*self),
                tokens@ == self.tokens@,
                stmts_in(&self.arena, stmts@),
                rb == return_block(old(self).tokens@, old(self).pos as int),
                rb matches Some((k, lit, d)) ==> 0 <= d < tokens@.len() && tokens@[d].kind is Dedent,
                rb matches Some((k, lit, d)) ==> (self.arena.fits() ==> {
                    &&& self.handler == old(self).handler
                    &&& body_prefix(&self.arena, stmts@, k, lit)
                    &&& stmts@.len() <= k ==> ann_return_lines(tokens@, self.pos as int) == Some(
                        ((k - stmts@.len()) as nat, lit, d),
                    )
                    &&& stmts@.len() == k + 1 ==> self.pos == d
                }),
            ensures
                step(&*old(self), &*self),
                tokens@ == self.tokens@,
                stmts_in(&self.arena, stmts@),
                rb matches Some((k, lit, d)) ==> (self.arena.fits() ==> (self.handler == old(self).handler && body_shape(
                    &self.arena,
                    stmts@,
                    k,
                    lit,
                ) && self.pos == d)),
            decreases self.remaining(), if self.handler.error_count() > 0 { 0nat } else { 1nat },
        {
            let iter_start = self.pos;
            let had_errors = self.handler.has_errors();
            let ghost s1 = *self;
            self.skip_stmt_separators();
            proof {
                match rb {
                    Some((k, lit, d)) => {
                        if self.arena.fits() {
                            let t = tokens@;
                            lemma_skip_nl_idem(t, s1.pos as int);
                            if !(t[s1.pos as int].kind is KwReturn) {
                                assert(ann_assign_literal(t, s1.pos as int) is Some);
                                assert(ann_assign_literal(t, self.pos as int) == ann_assign_literal(t, s1.pos as int));
                            }
                        }
                    },
                    None => {},
                }
            }
            if matches!(tokens[self.pos].kind, TokenKind::Dedent | TokenKind::Eof) {
                break;
            }
            let ghost s2 = *self;
            match self.parse_stmt() {
                Some(stmt) => {
                    proof {
                        lemma_seq_in_mono(&s1.arena, &self.arena);
                    }
                    let ghost old_stmts = stmts@;
                    stmts.push(stmt);
                    assert(stmts_in(&self.arena, stmts@)) by {
                        assert forall|i: int| 0 <= i < stmts@.len() implies #[trigger] stmt_in(&self.arena, stmts@[i]) by {
                            if i < old_stmts.len() {
                                assert(stmts@[i] == old_stmts[i]);
                                assert(stmt_in(&s1.arena, old_stmts[i]));
                            }
                        }
                    }
                    proof {
                        match rb {
                            Some((k, lit, d)) => {
                                if self.arena.fits() {
                                    let t = tokens@;
                                    let j = old_stmts.len();
                                    lemma_body_prefix_extend(&s1.arena, &self.arena, old_stmts, k, lit);
                                    assert(j <= k);
                                    if k - j == 0 {
                                        assert(t[s1.pos as int].kind is KwReturn);
                                        assert(yields_return_literal(&*self, stmt, lit));
                                    } else {
                                        let a = ann_assign_literal(t, s1.pos as int).unwrap();
                                        assert(yields_ann_assign(&*self, stmt, a.0, a.1));
                                        assert(ann_return_lines(t, self.pos as int) == Some(((k - j - 1) as nat, lit, d)));
                                    }
                                    assert forall|i: int|
                                        0 <= i < stmts@.len() && i < k implies (#[trigger] stmts@[i]).0
                                        < self.arena.stmts().len() && self.arena.stmts()[stmts@[i].0 as int].kind is AnnAssign by {
                                        if i < j {
                                            assert(stmts@[i] == old_stmts[i]);
                                        }
                                    }
                                }
                            },
                            None => {},
                        }
                    }
                },
                None => {
                    proof {
                        lemma_seq_in_mono(&s1.arena, &self.arena);
                    }
                    if self.handler.has_errors() {
                        self.synchronize();
                    } else {
                        break;
                    }
                },
            }
            if self.pos == iter_start && had_errors {
                break;
            }
        }
        self.eat(TokenKind::Dedent);
        Some(stmts)
    }

    /// Parses a pattern.
    pub fn parse_pat(&mut self) -> (r: Option<PatId>)
        requires
            old(self).wf(),
        ensures
            pat_result(&*old(self), &*final(self), r),
            wild_token(old(self).cur()) ==> (r matches Some(id) && final(self).pos == old(self).pos + 1
                && final(self).handler == old(self).handler && (final(self).arena.fits()
                ==> final(self).arena.pats()[id.0 as int].kind == PatKind::Wild)),
            pat_end(old(self).tokens@, old(self).pos as int) > old(self).pos ==> (final(self).arena.fits() ==> (r matches Some(
                id,
            ) && final(self).pos == pat_end(old(self).tokens@, old(self).pos as int) && final(self).handler == old(
                self,
            ).handler && pat_denotes(old(self).tokens@, old(self).pos as int, final(self).arena.pats(), id.0 as int))),
        decreases old(self).remaining(), 20nat,
    {
        let tokens: &'a [SpannedToken] = self.tokens;
        let start = tokens[self.pos].span;
        if self.eat(TokenKind::Underscore) {
            let span = self.span_from(start);
            return Some(self.alloc_pat_node(PatKind::Wild, span));
        }
        let is_wild_name = match &tokens[self.pos].kind {
            TokenKind::Ident { name } => {
                let r = crate::text::str_eq(name.as_str(), "_");
                r
            },
            _ => false,
        };
        if is_wild_name {
            self.bump();
            let span = self.span_from(start);
            return Some(self.alloc_pat_node(PatKind::Wild, span));
        }
        if matches!(
            tokens[self.pos].kind,
            TokenKind::IntLit { .. } | TokenKind::FloatLit { .. } | TokenKind::StringLit { .. }
                | TokenKind::BoolLit(_) | TokenKind::KwTrue | TokenKind::KwFalse | TokenKind::KwNone
        ) {
            let expr = match self.parse_expr() {
                Some(e) => e,
                None => return None,
            };
            return self.expr_to_pat(expr);
        }
        if self.eat(TokenKind::LParen) {
            let ghost t = tokens@;
            let ghost p0 = old(self).pos as int;
            let ghost ok = pat_end(t, p0) > p0;
            self.skip_layout();
            let ghost a = self.pos as int;
            let mut pats: Vec<PatId> = Vec::new();
            if !self.eat(TokenKind::RParen) {
                let ghost s0 = *self;
                let first = match self.parse_pat() {
                    Some(p) => p,
                    None => return None,
                };
                pats.push(first);
                assert(pats_in(&self.arena, pats@));
                proof {
                    if ok && self.arena.fits() {
                        assert(elem_at(t, a, 0) == a);
                        assert(pats@[0] == first);
                    }
                }
                loop
                    invariant
                        step(&*old(self), &*self),
                        !wild_token(old(self).cur()),
                        tokens@ == self.tokens@,
                        t == tokens@,
                        old(self).pos < self.pos,
                        pats_in(&self.arena, pats@),
                        pats@.len() > 0,
                        ok == (pat_end(t, p0) > p0),
                        p0 == old(self).pos,
                        ok && self.arena.fits() ==> {
                            &&& t[p0].kind is LParen
                            &&& a == skip_nl(t, p0 + 1)
                            &&& !(t[a].kind is RParen)
                            &&& self.handler == old(self).handler
                            &&& list_parsed(t, a, pats@, self.pos as int, self.arena.pats(), self.arena.fits(), pat_end(t, p0))
                        },
                    ensures
                        step(&*old(self), &*self),
                        tokens@ == self.tokens@,
                        old(self).pos < self.pos,
                        pats_in(&self.arena, pats@),
                        pats@.len() > 0,
                        ok && self.arena.fits() ==> {
                            &&& t[p0].kind is LParen
                            &&& a == skip_nl(t, p0 + 1)
                            &&& !(t[a].kind is RParen)
                            &&& self.handler == old(self).handler
                            &&& list_parsed(t, a, pats@, self.pos as int, self.arena.pats(), self.arena.fits(), pat_end(t, p0))
                            &&& t[self.pos as int].kind is RParen
                        },
                    decreases self.remaining(),
                {
                    let ghost k = (pats@.len() - 1) as nat;
                    let ghost e = self.pos as int;
                    proof {
                        if ok && self.arena.fits() {
                            assert(elem_at(t, a, k) < pat_end(t, elem_at(t, a, k)) < t.len());
                            assert(list_end(t, elem_at(t, a, k)) > 0);
                        }
                    }
                    if !self.eat(TokenKind::Comma) {
                        break;
                    }
                    proof {
                        lemma_skip_nl_idem(t, e + 1);
                    }
                    self.skip_layout();
                    proof {
                        if ok && self.arena.fits() {
                            assert(self.pos == elem_at(t, a, k + 1));
                            assert(list_end(t, self.pos as int) == pat_end(t, p0));
                            assert(self.pos < pat_end(t, self.pos as int) < t.len());
                        }
                    }
                    if self.eat(TokenKind::RParen) {
                        break;
                    }
                    let ghost s2 = *self;
                    let p = match self.parse_pat() {
                        Some(p) => p,
                        None => return None,
                    };
                    proof {
                        lemma_seq_in_mono(&s2.arena, &self.arena);
                    }
                    let ghost old_pats = pats@;
                    pats.push(p);
                    assert(pats_in(&self.arena, pats@)) by {
                        assert forall|i: int| 0 <= i < pats@.len() implies #[trigger] pat_in(&self.arena, pats@[i]) by {
                            if i < old_pats.len() {
                                assert(pats@[i] == old_pats[i]);
                                assert(pat_in(&s2.arena, old_pats[i]));
                            }
                        }
                    }
                    proof {
                        if ok && self.arena.fits() {
                            assert(elem_at(t, a, (k + 1) as nat) == skip_nl(t, pat_end(t, elem_at(t, a, k)) + 1));
                            let fits = self.arena.fits();
                            let ps = self.arena.pats();
                            assert forall|i: int|
                                0 <= i < pats@.len() implies elem_at(t, a, i as nat) < #[trigger] pat_end(
                                t,
                                elem_at(t, a, i as nat),
                            ) < t.len() by {
                                if i == k + 1 {
                                    assert(elem_at(t, a, i as nat) == s2.pos);
                                }
                            }
                            assert forall|i: int|
                                0 <= i < pats@.len() - 1 implies (#[trigger] t[pat_end(t, elem_at(t, a, i as nat))]).kind is Comma by {
                            }
                            assert forall|i: int|
                                0 <= i < pats@.len() - 1 implies pat_end(t, elem_at(t, a, i as nat)) < #[trigger] elem_at(
                                t,
                                a,
                                (i + 1) as nat,
                            ) < t.len() by {
                            }
                            if fits {
                                assert forall|i: int|
                                    0 <= i < pats@.len() implies #[trigger] pat_denotes(
                                    t,
                                    elem_at(t, a, i as nat),
                                    ps,
                                    pats@[i].0 as int,
                                ) by {
                                    if i < old_pats.len() {
                                        assert(pats@[i] == old_pats[i]);
                                        lemma_pat_denotes_extend(
                                            t,
                                            elem_at(t, a, i as nat),
                                            s2.arena.pats(),
                                            ps,
                                            old_pats[i].0 as int,
                                        );
                                    } else {
                                        assert(elem_at(t, a, i as nat) == s2.pos);
                                    }
                                }
                            }
                            assert(list_parsed(t, a, pats@, self.pos as int, ps, fits, pat_end(t, p0)));
                        }
                    }
                }
                let ghost s3 = *self;
                if !self.expect(TokenKind::RParen, "expected ')'") {
                    return None;
                }
            }
            let span = self.span_from(start);
            if pats.len() == 1 {
                let p = pats[0];
                assert(pat_in(&self.arena, pats@[0]));
                proof {
                    if ok && self.arena.fits() {
                        assert(elem_at(t, a, 0) == a);
                        assert(t[pat_end(t, a)].kind is RParen);
                        assert(self.pos == pat_end(t, a) + 1);
                        assert(list_end(t, a) == pat_end(t, a) + 1);
                        assert(pat_end(t, p0) == list_end(t, a));
                        assert(self.handler == old(self).handler);
                        if self.arena.fits() {
                            assert(pat_denotes(t, a, self.arena.pats(), pats@[0].0 as int));
                            assert(pat_denotes(t, p0, self.arena.pats(), p.0 as int));
                        }
                    }
                }
                return Some(p);
            }
            proof {
                lemma_seq_in_ok(&self.arena);
            }
            let ghost s4 = *self;
            let id = self.alloc_pat_node(PatKind::Tuple(pats), span);
            proof {
                if ok && self.arena.fits() && pats@.len() > 0 {
                    assert forall|i: int|
                        0 <= i < pats@.len() implies #[trigger] pat_denotes(
                        t,
                        elem_at(t, a, i as nat),
                        self.arena.pats(),
                        pats@[i].0 as int,
                    ) by {
                        lemma_pat_denotes_extend(
                            t,
                            elem_at(t, a, i as nat),
                            s4.arena.pats(),
                            self.arena.pats(),
                            pats@[i].0 as int,
                        );
                    }
                    lemma_list_build(t, a, self.arena.pats(), pats@, 0);
                    assert(pats@.subrange(0, pats@.len() as int) =~= pats@);
                    assert(elem_at(t, a, 0) == a);
                }
            }
            return Some(id);
        }
        let path = match self.parse_path() {
            Some(p) => p,
            None => return None,
        };
        if self.eat(TokenKind::LParen) {
            proof {
                assert(!(pat_end(tokens@, old(self).pos as int) > old(self).pos));
            }
            let n = path.segments.len();
            let variant = path.segments[n - 1].ident.clone();
            let mut subpats: Vec<PatId> = Vec::new();
            if !self.eat(TokenKind::RParen) {
                loop
                    invariant
                        step(&*old(self), &*self),
                        !wild_token(old(self).cur()),
                        tokens@ == self.tokens@,
                        old(self).pos < self.pos,
                        pats_in(&self.arena, subpats@),
                        crate::ast::arena::path_in(&self.arena, path),
                        !(pat_end(old(self).tokens@, old(self).pos as int) > old(self).pos),
                    decreases self.remaining(),
                {
                    let ghost s2 = *self;
                    let p = match self.parse_pat() {
                        Some(p) => p,
                        None => return None,
                    };
                    proof {
                        lemma_seq_in_mono(&s2.arena, &self.arena);
                    }
                    let ghost old_pats = subpats@;
                    subpats.push(p);
                    assert(pats_in(&self.arena, subpats@)) by {
                        assert forall|i: int| 0 <= i < subpats@.len() implies #[trigger] pat_in(&self.arena, subpats@[i]) by {
                            if i < old_pats.len() {
                                assert(subpats@[i] == old_pats[i]);
                                assert(pat_in(&s2.arena, old_pats[i]));
                            }
                        }
                    }
                    self.skip_layout();
                    if self.eat(TokenKind::RParen) {
                        break;
                    }
                    if !self.eat(TokenKind::Comma) {
                        self.error_here("expected ',' or ')'");
                        return None;
                    }
                }
            }
            let span = self.span_from(start);
            proof {
                lemma_seq_in_ok(&self.arena);
            }
            return Some(self.alloc_pat_node(PatKind::Enum { path, variant, subpats }, span));
        }
        let n = path.segments.len();
        let name = path.segments[n - 1].ident.clone();
        let span = self.span_from(start);
        Some(self.alloc_pat_node(PatKind::Ident { name, mutability: Mutability::Imm, subpat: None }, span))
    }

    /// Turns a parsed expression into the pattern it denotes: a plain name or
    /// a literal.
    fn expr_to_pat(&mut self, expr: ExprId) -> (r: Option<PatId>)
        requires
            old(self).wf(),
            expr_in(&old(self).arena, expr),
        ensures
            step(&*old(self), &*final(self)),
            final(self).pos == old(self).pos,
            r matches Some(p) ==> pat_in(&final(self).arena, p) && final(self).handler == old(self).handler,
            r is None ==> old(self).handler.error_count() < final(self).handler.error_count(),
            final(self).arena.fits() ==> (old(self).arena.exprs()[expr.0 as int].kind matches ExprKind::Path(path)
                ==> (path.segments@.len() == 1 ==> (r matches Some(q) && final(self).arena.pats()[q.0 as int].kind
                == PatKind::Ident { name: path.segments@[0].ident, mutability: Mutability::Imm, subpat: None }))),
            final(self).arena.fits() ==> (old(self).arena.exprs()[expr.0 as int].kind matches ExprKind::Literal(l) ==> (
            r matches Some(q) && (final(self).arena.pats()[q.0 as int].kind matches PatKind::Literal(pl) && literal_same(
                pl,
                l,
            )))),
    {
        let span = self.arena.expr(expr).span;
        let kind = match &self.arena.expr(expr).kind {
            ExprKind::Path(path) => {
                if path.segments.len() == 1 {
                    PatKind::Ident {
                        name: path.segments[0].ident.clone(),
                        mutability: Mutability::Imm,
                        subpat: None,
                    }
                } else {
                    self.error(span, String::from_str("invalid assignment target"));
                    return None;
                }
            },
            ExprKind::Literal(lit) => PatKind::Literal(clone_literal(lit)),
            _ => {
                self.error(span, String::from_str("invalid assignment target"));
                return None;
            },
        };
        Some(self.alloc_pat_node(kind, span))
    }
}

} // verus!
