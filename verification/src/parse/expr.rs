use vstd::prelude::*;

use crate::ast::arena::{
    expr_in, exprs_in, expr_kind_ok, lemma_in_mono, lemma_in_ok, lemma_seq_in_mono, lemma_seq_in_ok, path_in,
};
use crate::ast::expr::{BinaryOp, ExprKind, FieldExpr, UnaryOp};
use crate::ast::literal::Literal;
use crate::ast::path::{clone_path, path_same, Path};
use crate::ast::expr::Expr;
use crate::ast::arena::{lemma_fields_in_ok, lemma_path_same_ok};
use crate::ids::ExprId;
use crate::parse::parser::{expr_result, lemma_skip_nl_idem, one_error, skip_nl, step, Parser};
use crate::span::Span;
use crate::ast::display::binary_op_text;
use crate::syntax::{operator_spelling, spec_name, IntLiteral, SpannedToken, TokenKind};

verus! {

broadcast use crate::parse::parser::lemma_step_trans;

/// Binding powers and operator of an infix token.
pub open spec fn spec_infix(k: TokenKind) -> Option<(u8, u8, BinaryOp)> {
    match k {
        TokenKind::KwOr => Some((1u8, 2u8, BinaryOp::Or)),
        TokenKind::KwAnd => Some((3u8, 4u8, BinaryOp::And)),
        TokenKind::EqEq => Some((5u8, 6u8, BinaryOp::Eq)),
        TokenKind::NotEq => Some((5u8, 6u8, BinaryOp::NotEq)),
        TokenKind::Lt => Some((5u8, 6u8, BinaryOp::Lt)),
        TokenKind::LtEq => Some((5u8, 6u8, BinaryOp::LtEq)),
        TokenKind::Gt => Some((5u8, 6u8, BinaryOp::Gt)),
        TokenKind::GtEq => Some((5u8, 6u8, BinaryOp::GtEq)),
        TokenKind::Plus => Some((7u8, 8u8, BinaryOp::Add)),
        TokenKind::Minus => Some((7u8, 8u8, BinaryOp::Sub)),
        TokenKind::Star => Some((9u8, 10u8, BinaryOp::Mul)),
        TokenKind::Slash => Some((9u8, 10u8, BinaryOp::Div)),
        TokenKind::FloorDiv => Some((9u8, 10u8, BinaryOp::FloorDiv)),
        TokenKind::Percent => Some((9u8, 10u8, BinaryOp::Mod)),
        _ => None,
    }
}

/// Each infix token stands for the operator it spells: the operator the
/// parser builds for it is written as the token is, and every operator
/// token but none other is infix.
pub proof fn infix_tokens_spell_their_operators(k: TokenKind)
    ensures
        spec_infix(k) matches Some((_, _, op)) ==> operator_spelling(k) == Some(binary_op_text(op)),
        spec_infix(k) is Some <==> operator_spelling(k) is Some,
{
}

/// The literal an integer token denotes.
pub open spec fn spec_int_literal(lit: IntLiteral) -> Literal {
    match lit {
        IntLiteral::Decimal(v) => Literal::Int(v),
        IntLiteral::Hex(v) => Literal::Int(v),
        IntLiteral::Bin(v) => Literal::Int(v),
    }
}

/// The literal that a token always stands for as an expression atom.
pub open spec fn atom_literal(k: TokenKind) -> Option<Literal> {
    match k {
        TokenKind::IntLit { value } => Some(spec_int_literal(value)),
        TokenKind::StringLit { value } => Some(Literal::String(value)),
        TokenKind::BoolLit(b) => Some(Literal::Bool(b)),
        TokenKind::KwTrue => Some(Literal::Bool(true)),
        TokenKind::KwFalse => Some(Literal::Bool(false)),
        TokenKind::KwNone => Some(Literal::NoneValue),
        _ => None,
    }
}

/// The name a token stands for as an expression atom: an identifier other
/// than `True` and `False`.
pub open spec fn name_atom(k: TokenKind) -> Option<String> {
    match k {
        TokenKind::Ident { name } => if name@ != "True"@ && name@ != "False"@ {
            Some(name)
        } else {
            None
        },
        _ => None,
    }
}

/// Tokens an expression atom starts with.
pub open spec fn atom_start(k: TokenKind) -> bool {
    match k {
        TokenKind::IntLit { .. } | TokenKind::FloatLit { .. } | TokenKind::StringLit { .. }
        | TokenKind::BytesLit { .. } | TokenKind::BoolLit(_) | TokenKind::KwTrue | TokenKind::KwFalse
        | TokenKind::KwNone | TokenKind::KwSelf | TokenKind::Ident { .. } | TokenKind::LParen
        | TokenKind::LBracket | TokenKind::LBrace | TokenKind::KwIf => true,
        _ => false,
    }
}

/// The prefix operator a token stands for.
pub open spec fn prefix_op(k: TokenKind) -> Option<UnaryOp> {
    match k {
        TokenKind::Bang => Some(UnaryOp::Not),
        TokenKind::Minus => Some(UnaryOp::Neg),
        TokenKind::Plus => Some(UnaryOp::Pos),
        _ => None,
    }
}

/// Tokens a postfix operation (call, struct literal, field or index)
/// starts with.
pub open spec fn postfix_start(k: TokenKind) -> bool {
    match k {
        TokenKind::LParen | TokenKind::LBrace | TokenKind::Dot | TokenKind::LBracket => true,
        _ => false,
    }
}

/// Expression `r` of `es` is expression `e` with postfix operations
/// applied: `e` itself, or a call, method call, field access or index
/// whose base is such an expression built before it, or a struct literal
/// whose path is that of `e`, a path.
pub open spec fn postfix_of(es: Seq<Expr>, r: int, e: int) -> bool
    decreases r,
{
    if r == e {
        true
    } else if 0 <= e < r < es.len() {
        match es[r].kind {
            ExprKind::Call { func, .. } => e <= func.0 < r && postfix_of(es, func.0 as int, e),
            ExprKind::MethodCall { receiver, .. } => e <= receiver.0 < r && postfix_of(es, receiver.0 as int, e),
            ExprKind::Field { base, .. } => e <= base.0 < r && postfix_of(es, base.0 as int, e),
            ExprKind::Index { base, .. } => e <= base.0 < r && postfix_of(es, base.0 as int, e),
            ExprKind::Struct { path, .. } => es[e].kind matches ExprKind::Path(p) && path_same(path, p),
            _ => false,
        }
    } else {
        false
    }
}

proof fn lemma_postfix_prefix(es: Seq<Expr>, es2: Seq<Expr>, r: int, e: int)
    requires
        es.len() <= es2.len(),
        forall|i: int| 0 <= i < es.len() ==> #[trigger] es2[i] == es[i],
        postfix_of(es, r, e),
    ensures
        postfix_of(es2, r, e),
    decreases r,
{
    if r != e {
        assert(es2[r] == es[r]);
        assert(es2[e] == es[e]);
        match es[r].kind {
            ExprKind::Call { func, .. } => lemma_postfix_prefix(es, es2, func.0 as int, e),
            ExprKind::MethodCall { receiver, .. } => lemma_postfix_prefix(es, es2, receiver.0 as int, e),
            ExprKind::Field { base, .. } => lemma_postfix_prefix(es, es2, base.0 as int, e),
            ExprKind::Index { base, .. } => lemma_postfix_prefix(es, es2, base.0 as int, e),
            _ => {},
        }
    }
}

/// A postfix chain from `e` holds no path but at `e`.
proof fn lemma_postfix_path(es: Seq<Expr>, r: int, e: int)
    requires
        postfix_of(es, r, e),
        0 <= r < es.len(),
        es[r].kind is Path,
    ensures
        r == e,
{
}

/// A piece of an operator chain: an operand literal or a binary operator.
pub enum ChainPiece {
    Lit(Literal),
    Op(BinaryOp),
}

/// How tightly a binary operator binds: `or`, `and`, comparisons,
/// additive, multiplicative, from loosest to tightest.
pub open spec fn op_bp(op: BinaryOp) -> int {
    match op {
        BinaryOp::Or => 1,
        BinaryOp::And => 3,
        BinaryOp::Eq | BinaryOp::NotEq | BinaryOp::Lt | BinaryOp::LtEq | BinaryOp::Gt | BinaryOp::GtEq => 5,
        BinaryOp::Add | BinaryOp::Sub => 7,
        _ => 9,
    }
}

proof fn lemma_infix_bp(k: TokenKind)
    ensures
        spec_infix(k) matches Some((l, r, op)) ==> l == op_bp(op) && r == l + 1,
{
}

/// Past newlines at `p`, a literal token that no postfix operation follows.
pub open spec fn operand_at(t: Seq<SpannedToken>, p: int) -> Option<Literal> {
    if 0 <= after_atom(t, p) < t.len() && !postfix_start(t[after_atom(t, p)].kind) {
        atom_literal(t[skip_nl(t, p)].kind)
    } else {
        None
    }
}

/// From `q`, just past an operand, the tokens go on as a run of infix
/// operators each followed by an operand literal, up to a token that is no
/// infix operator.
pub open spec fn flat_from(t: Seq<SpannedToken>, q: int) -> bool
    decreases t.len() - q,
{
    &&& 0 <= q < t.len()
    &&& spec_infix(t[q].kind) is Some ==> {
        &&& q < after_atom(t, q + 1) < t.len()
        &&& operand_at(t, q + 1) is Some
        &&& flat_from(t, after_atom(t, q + 1))
    }
}

/// The tokens from `p` are an operator chain over literals: an operand
/// literal and, past it, a run of operators and operands.
pub open spec fn flat_chain(t: Seq<SpannedToken>, p: int) -> bool {
    operand_at(t, p) is Some && flat_from(t, after_atom(t, p))
}

/// The pieces of the chain from `q`, just past an operand, through the
/// operators that bind at least `m`: up to the first that binds less.
pub open spec fn ops_from(t: Seq<SpannedToken>, q: int, m: int) -> Seq<ChainPiece>
    decreases t.len() - q,
{
    if 0 <= q < t.len() && q < after_atom(t, q + 1) < t.len() {
        match (spec_infix(t[q].kind), operand_at(t, q + 1)) {
            (Some((l, _, op)), Some(lit)) => if l >= m {
                seq![ChainPiece::Op(op), ChainPiece::Lit(lit)] + ops_from(t, after_atom(t, q + 1), m)
            } else {
                Seq::empty()
            },
            _ => Seq::empty(),
        }
    } else {
        Seq::empty()
    }
}

/// Where the chain from `q` stops when it takes only operators that bind
/// at least `m`.
pub open spec fn end_from(t: Seq<SpannedToken>, q: int, m: int) -> int
    decreases t.len() - q,
{
    if 0 <= q < t.len() && q < after_atom(t, q + 1) < t.len() {
        match (spec_infix(t[q].kind), operand_at(t, q + 1)) {
            (Some((l, _, _)), Some(_)) => if l >= m {
                end_from(t, after_atom(t, q + 1), m)
            } else {
                q
            },
            _ => q,
        }
    } else {
        q
    }
}

/// The pieces of the whole chain from `p`.
pub open spec fn chain_pieces(t: Seq<SpannedToken>, p: int) -> Seq<ChainPiece> {
    seq![ChainPiece::Lit(operand_at(t, p).unwrap())] + ops_from(t, after_atom(t, p), 0)
}

/// The operands and operators of expression `e` of `es`, left to right.
pub open spec fn chain_yield(es: Seq<Expr>, e: int) -> Seq<ChainPiece>
    decreases e,
{
    if 0 <= e < es.len() {
        match es[e].kind {
            ExprKind::Literal(l) => seq![ChainPiece::Lit(l)],
            ExprKind::Binary { op, left, right } => if left.0 < e && right.0 < e {
                chain_yield(es, left.0 as int) + seq![ChainPiece::Op(op)] + chain_yield(es, right.0 as int)
            } else {
                Seq::empty()
            },
            _ => Seq::empty(),
        }
    } else {
        Seq::empty()
    }
}

/// Expression `e` of `es` is a tree of binary operators over literals in
/// which an operator's left operand binds at least as tightly as it, and
/// its right operand more tightly: tighter operators group first, and
/// operators of one level group from the left.
pub open spec fn operator_tree(es: Seq<Expr>, e: int) -> bool
    decreases e,
{
    &&& 0 <= e < es.len()
    &&& match es[e].kind {
        ExprKind::Literal(_) => true,
        ExprKind::Binary { op, left, right } => {
            &&& left.0 < e && right.0 < e
            &&& operator_tree(es, left.0 as int)
            &&& operator_tree(es, right.0 as int)
            &&& es[left.0 as int].kind matches ExprKind::Binary { op: lo, .. } ==> op_bp(lo) >= op_bp(op)
            &&& es[right.0 as int].kind matches ExprKind::Binary { op: ro, .. } ==> op_bp(ro) > op_bp(op)
        },
        _ => false,
    }
}

/// The operator at the root of expression `e`, if any, binds at least `m`.
pub open spec fn root_binds(es: Seq<Expr>, e: int, m: int) -> bool {
    es[e].kind matches ExprKind::Binary { op, .. } ==> op_bp(op) >= m
}

/// Expression `e` of the arena of `b` (where its ids fit) is the operator
/// tree over `pieces` whose root binds at least `m`.
pub open spec fn yields_chain(b: &Parser, e: ExprId, pieces: Seq<ChainPiece>, m: int) -> bool {
    b.arena.fits() ==> {
        &&& chain_yield(b.arena.exprs(), e.0 as int) == pieces
        &&& operator_tree(b.arena.exprs(), e.0 as int)
        &&& root_binds(b.arena.exprs(), e.0 as int, m)
    }
}

proof fn lemma_chain_extend(es: Seq<Expr>, es2: Seq<Expr>, e: int)
    requires
        es.len() <= es2.len(),
        forall|i: int| 0 <= i < es.len() ==> #[trigger] es2[i] == es[i],
        0 <= e < es.len(),
    ensures
        chain_yield(es2, e) == chain_yield(es, e),
        operator_tree(es2, e) == operator_tree(es, e),
    decreases e,
{
    assert(es2[e] == es[e]);
    match es[e].kind {
        ExprKind::Binary { op, left, right } => {
            if left.0 < e && right.0 < e {
                lemma_chain_extend(es, es2, left.0 as int);
                lemma_chain_extend(es, es2, right.0 as int);
                assert(es2[left.0 as int] == es[left.0 as int]);
                assert(es2[right.0 as int] == es[right.0 as int]);
            }
        },
        _ => {},
    }
}

/// Taking first the operators that bind at least `m2`, then from where that
/// stops those that bind at least `m`, takes those that bind at least `m`.
proof fn lemma_ops_split(t: Seq<SpannedToken>, q: int, m: int, m2: int)
    requires
        m <= m2,
        flat_from(t, q),
        skip_nl(t, q) == q,
    ensures
        ops_from(t, q, m) == ops_from(t, q, m2) + ops_from(t, end_from(t, q, m2), m),
        end_from(t, q, m) == end_from(t, end_from(t, q, m2), m),
        flat_from(t, end_from(t, q, m2)),
        skip_nl(t, end_from(t, q, m2)) == end_from(t, q, m2),
        spec_infix(t[end_from(t, q, m2)].kind) matches Some((l, _, _)) ==> l < m2,
    decreases t.len() - q,
{
    if 0 <= q < t.len() && q < after_atom(t, q + 1) < t.len() {
        match (spec_infix(t[q].kind), operand_at(t, q + 1)) {
            (Some((l, _, _)), Some(_)) => {
                if l >= m2 {
                    lemma_skip_nl_idem(t, skip_nl(t, q + 1) + 1);
                    lemma_ops_split(t, after_atom(t, q + 1), m, m2);
                    assert(ops_from(t, q, m) == seq![ops_from(t, q, m)[0], ops_from(t, q, m)[1]] + ops_from(
                        t,
                        after_atom(t, q + 1),
                        m,
                    ));
                }
            },
            _ => {},
        }
    }
}

/// The error reported where an expression was expected.
pub open spec fn no_expr_message(k: TokenKind) -> Seq<char> {
    "expected expression, found "@ + spec_name(k)
}

/// The position just past the first token at or after `p` that is not a
/// newline, and past the newlines after it.
pub open spec fn after_atom(t: Seq<SpannedToken>, p: int) -> int {
    skip_nl(t, skip_nl(t, p) + 1)
}

/// The literal that the tokens from `p` on stand for as a whole
/// expression: past newlines, a literal token followed (past newlines) by a
/// token that neither continues it (a call, field, index or struct
/// literal) nor combines it with an infix operator.
pub open spec fn lone_literal(t: Seq<SpannedToken>, p: int) -> Option<Literal> {
    let q = after_atom(t, p);
    if !postfix_start(t[q].kind) && spec_infix(t[q].kind) is None {
        atom_literal(t[skip_nl(t, p)].kind)
    } else {
        None
    }
}

/// Past newlines, the token at `p` can start no expression.
pub open spec fn no_expr_start(t: Seq<SpannedToken>, p: int) -> bool {
    let k = t[skip_nl(t, p)].kind;
    prefix_op(k) is None && !atom_start(k)
}

/// The name that the tokens from `p` stand for as a whole expression: past
/// newlines, a name followed (past newlines) by a token that neither
/// continues it nor combines it with an infix operator.
pub open spec fn lone_name(t: Seq<SpannedToken>, p: int) -> Option<String> {
    let q = after_atom(t, p);
    if !postfix_start(t[q].kind) && spec_infix(t[q].kind) is None {
        name_atom(t[skip_nl(t, p)].kind)
    } else {
        None
    }
}

/// Expression `e` of the arena of `b` (where its ids fit) is the
/// one-segment path `n`.
pub open spec fn yields_name(b: &Parser, e: ExprId, n: String) -> bool {
    b.arena.fits() ==> (b.arena.exprs()[e.0 as int].kind matches ExprKind::Path(path) && path.segments@.len() == 1
        && path.segments@[0].ident == n)
}

/// Past newlines at `p`, a literal or a name that nothing continues or
/// combines.
pub open spec fn lone_operand(t: Seq<SpannedToken>, p: int) -> bool {
    lone_literal(t, p) is Some || lone_name(t, p) is Some
}

/// Expression `id` of `es` is the operand at `p`: its literal, or the
/// one-segment path of its name.
pub open spec fn operand_denotes(t: Seq<SpannedToken>, p: int, es: Seq<Expr>, id: int) -> bool {
    &&& 0 <= id < es.len()
    &&& match lone_literal(t, p) {
        Some(l) => es[id].kind == ExprKind::Literal(l),
        None => match lone_name(t, p) {
            Some(n) => es[id].kind matches ExprKind::Path(path) && path.segments@.len() == 1 && path.segments@[0].ident
                == n,
            None => false,
        },
    }
}

/// From `p`, just past `(`: no argument or one operand, then `)`. Where
/// the arguments end, past the `)`; -1 otherwise.
pub open spec fn args_end(t: Seq<SpannedToken>, p: int) -> int {
    let a = skip_nl(t, p);
    if 0 <= a < t.len() && t[a].kind is RParen {
        a + 1
    } else if lone_operand(t, p) && 0 <= after_atom(t, p) < t.len() && t[after_atom(t, p)].kind is RParen {
        after_atom(t, p) + 1
    } else {
        -1
    }
}

/// Arguments `v` of `es` are those from `p` on.
pub open spec fn args_denote(t: Seq<SpannedToken>, p: int, es: Seq<Expr>, v: Seq<ExprId>) -> bool {
    if t[skip_nl(t, p)].kind is RParen {
        v.len() == 0
    } else {
        v.len() == 1 && operand_denotes(t, p, es, v[0].0 as int)
    }
}

/// The tokens from `p` are `if OPERAND : OPERAND else OPERAND`: where the
/// last operand ends.
pub open spec fn if_operands(t: Seq<SpannedToken>, p: int) -> Option<int> {
    let c = after_atom(t, p + 1);
    let e = after_atom(t, c + 1);
    if 0 <= p && 0 <= c < t.len() && 0 <= e < t.len() && t[p].kind is KwIf && lone_operand(t, p + 1)
        && t[c].kind is Colon && lone_operand(t, c + 1) && t[e].kind is KwElse && lone_operand(t, e + 1) {
        Some(after_atom(t, e + 1))
    } else {
        None
    }
}

/// Expression `x` of `es` is the conditional whose test, value and
/// alternative are the operands of `if OPERAND : OPERAND else OPERAND` at
/// `p`, in that order.
pub open spec fn if_denotes(t: Seq<SpannedToken>, p: int, es: Seq<Expr>, x: int) -> bool {
    let c = after_atom(t, p + 1);
    let e = after_atom(t, c + 1);
    &&& 0 <= x < es.len()
    &&& es[x].kind matches ExprKind::If { test, then, else_branch }
    &&& operand_denotes(t, p + 1, es, test.0 as int)
    &&& operand_denotes(t, c + 1, es, then.0 as int)
    &&& operand_denotes(t, e + 1, es, else_branch.0 as int)
}

/// From `q`, operands separated by commas up to `]`: where the list ends,
/// past the `]`; -1 if the tokens from `q` are no such list.
pub open spec fn list_ops_end(t: Seq<SpannedToken>, q: int) -> int
    decreases t.len() - q,
{
    let e = after_atom(t, q);
    if !(0 <= q < e < t.len() && lone_operand(t, q)) {
        -1
    } else if t[e].kind is RBracket {
        e + 1
    } else if t[e].kind is Comma {
        list_ops_end(t, e + 1)
    } else {
        -1
    }
}

/// Where operand `i` of such a list from `q` starts (before its newlines).
pub open spec fn list_elem_at(t: Seq<SpannedToken>, q: int, i: nat) -> int
    decreases i,
{
    if i == 0 {
        q
    } else {
        after_atom(t, list_elem_at(t, q, (i - 1) as nat)) + 1
    }
}

/// The tokens from `p` are `[`, then past newlines `]`, or operands
/// separated by commas and `]`: where the list ends; -1 otherwise.
pub open spec fn list_atom_end(t: Seq<SpannedToken>, p: int) -> int {
    let a = skip_nl(t, p + 1);
    if !(0 <= p && p < a < t.len() && t[p].kind is LBracket) {
        -1
    } else if t[a].kind is RBracket {
        a + 1
    } else {
        list_ops_end(t, p + 1)
    }
}

/// Expression `x` of `es` is the list of the operands of the list at `p`,
/// in order.
pub open spec fn list_atom_denotes(t: Seq<SpannedToken>, p: int, es: Seq<Expr>, x: int) -> bool {
    &&& 0 <= x < es.len()
    &&& es[x].kind matches ExprKind::List(v)
    &&& if t[skip_nl(t, p + 1)].kind is RBracket {
        v@.len() == 0
    } else {
        &&& v@.len() > 0
        &&& forall|i: int| 0 <= i < v@.len() ==> #[trigger] operand_denotes(t, list_elem_at(t, p + 1, i as nat), es, v@[i].0 as int)
        &&& forall|i: int| 0 <= i < v@.len() - 1 ==> (#[trigger] t[after_atom(t, list_elem_at(t, p + 1, i as nat))]).kind is Comma
        &&& t[after_atom(t, list_elem_at(t, p + 1, (v@.len() - 1) as nat))].kind is RBracket
    }
}

/// From `q`, just past a comma in parentheses: `)` past newlines, or an
/// operand followed by `)` or by a comma and more of the same. Where the
/// parentheses end, past the `)`; -1 otherwise.
pub open spec fn tuple_rest_end(t: Seq<SpannedToken>, q: int) -> int
    decreases t.len() - q,
{
    let c = skip_nl(t, q);
    let e = after_atom(t, q);
    if !(0 <= q && 0 <= c < t.len()) {
        -1
    } else if t[c].kind is RParen {
        c + 1
    } else if !(q < e < t.len() && lone_operand(t, q)) {
        -1
    } else if t[e].kind is RParen {
        e + 1
    } else if t[e].kind is Comma {
        tuple_rest_end(t, e + 1)
    } else {
        -1
    }
}

/// The tokens from `p` are `(`, then past newlines `)`, or operands
/// separated by commas (perhaps with one after the last) and `)`: where
/// the parentheses end; -1 otherwise.
pub open spec fn paren_atom_end(t: Seq<SpannedToken>, p: int) -> int {
    let a = skip_nl(t, p + 1);
    let e = after_atom(t, p + 1);
    if !(0 <= p && p < a < t.len() && t[p].kind is LParen) {
        -1
    } else if t[a].kind is RParen {
        a + 1
    } else if !(p + 1 < e < t.len() && lone_operand(t, p + 1)) {
        -1
    } else if t[e].kind is RParen {
        e + 1
    } else if t[e].kind is Comma {
        tuple_rest_end(t, e + 1)
    } else {
        -1
    }
}

/// The operand ending at `e` is the last in its parentheses: `)` follows,
/// or a comma and, past newlines, `)`.
pub open spec fn closes_tuple(t: Seq<SpannedToken>, e: int) -> bool {
    t[e].kind is RParen || (t[e].kind is Comma && t[skip_nl(t, e + 1)].kind is RParen)
}

/// Expression `x` of `es` is what the parentheses at `p` stand for: the
/// empty tuple for `()`, the operand itself for one operand without a
/// comma, and otherwise the tuple of the operands, in order.
pub open spec fn paren_atom_denotes(t: Seq<SpannedToken>, p: int, es: Seq<Expr>, x: int) -> bool {
    let a = skip_nl(t, p + 1);
    let e = after_atom(t, p + 1);
    &&& 0 <= x < es.len()
    &&& if t[a].kind is RParen {
        es[x].kind matches ExprKind::Tuple(v) && v@.len() == 0
    } else if t[e].kind is RParen {
        operand_denotes(t, p + 1, es, x)
    } else {
        &&& es[x].kind matches ExprKind::Tuple(v)
        &&& v@.len() > 0
        &&& forall|i: int| 0 <= i < v@.len() ==> #[trigger] operand_denotes(t, list_elem_at(t, p + 1, i as nat), es, v@[i].0 as int)
        &&& forall|i: int| 0 <= i < v@.len() - 1 ==> !closes_tuple(t, #[trigger] after_atom(t, list_elem_at(t, p + 1, i as nat)))
            && t[after_atom(t, list_elem_at(t, p + 1, i as nat))].kind is Comma
        &&& closes_tuple(t, after_atom(t, list_elem_at(t, p + 1, (v@.len() - 1) as nat)))
    }
}

/// Where the postfix operation at `q` (past newlines) ends: a call or a
/// method call with no argument or one operand, a field, or an index by an
/// operand; -1 for any other.
pub open spec fn pf_op_end(t: Seq<SpannedToken>, q: int) -> int {
    let s = skip_nl(t, q);
    if !(0 <= s && s + 2 < t.len()) {
        -1
    } else if t[s].kind is LParen {
        args_end(t, s + 1)
    } else if t[s].kind is Dot && t[s + 1].kind is Ident {
        if t[s + 2].kind is LParen {
            args_end(t, s + 3)
        } else {
            s + 2
        }
    } else if t[s].kind is LBracket && lone_operand(t, s + 1) && 0 <= after_atom(t, s + 1) < t.len()
        && t[after_atom(t, s + 1)].kind is RBracket {
        after_atom(t, s + 1) + 1
    } else {
        -1
    }
}

/// How many such postfix operations follow from `q` up to a token that
/// starts none; `None` where another kind of postfix operation comes first.
pub open spec fn pf_ops(t: Seq<SpannedToken>, q: int) -> Option<nat>
    decreases t.len() - q,
{
    let s = skip_nl(t, q);
    if !(0 <= q && 0 <= s < t.len()) {
        None
    } else if !postfix_start(t[s].kind) {
        Some(0nat)
    } else if q < pf_op_end(t, q) < t.len() {
        match pf_ops(t, pf_op_end(t, q)) {
            Some(n) => Some(n + 1),
            None => None,
        }
    } else {
        None
    }
}

/// Where postfix operation `i` from `q0` starts.
pub open spec fn pf_op_at(t: Seq<SpannedToken>, q0: int, i: nat) -> int
    decreases i,
{
    if i == 0 {
        q0
    } else {
        pf_op_end(t, pf_op_at(t, q0, (i - 1) as nat))
    }
}

/// The expression an operation node applies to.
pub open spec fn node_base(k: ExprKind) -> int {
    match k {
        ExprKind::Call { func, .. } => func.0 as int,
        ExprKind::MethodCall { receiver, .. } => receiver.0 as int,
        ExprKind::Field { base, .. } => base.0 as int,
        ExprKind::Index { base, .. } => base.0 as int,
        _ => -1,
    }
}

/// Expression `x` of `es` is the postfix operation at `q` applied to `b`.
pub open spec fn pf_node(t: Seq<SpannedToken>, q: int, es: Seq<Expr>, x: int, b: int) -> bool {
    let s = skip_nl(t, q);
    &&& 0 <= x < es.len()
    &&& node_base(es[x].kind) == b
    &&& if t[s].kind is LParen {
        es[x].kind matches ExprKind::Call { args, kwargs, .. } && kwargs@.len() == 0 && args_denote(t, s + 1, es, args@)
    } else if t[s].kind is Dot {
        if t[s + 2].kind is LParen {
            es[x].kind matches ExprKind::MethodCall { method, args, .. } && t[s + 1].kind == (TokenKind::Ident {
                name: method,
            }) && args_denote(t, s + 3, es, args@)
        } else {
            es[x].kind matches ExprKind::Field { field, .. } && t[s + 1].kind == (TokenKind::Ident { name: field })
        }
    } else {
        es[x].kind matches ExprKind::Index { index, .. } && operand_denotes(t, s + 1, es, index.0 as int)
    }
}

/// Expression `r` of `es` is the first `n` postfix operations from `q0`
/// applied, in order, to `e0`.
pub open spec fn pf_result(t: Seq<SpannedToken>, q0: int, n: nat, es: Seq<Expr>, r: int, e0: int) -> bool
    decreases n,
{
    if n == 0 {
        r == e0
    } else {
        &&& 0 <= r < es.len()
        &&& pf_node(t, pf_op_at(t, q0, (n - 1) as nat), es, r, node_base(es[r].kind))
        &&& pf_result(t, q0, (n - 1) as nat, es, node_base(es[r].kind), e0)
    }
}

proof fn lemma_operand_extend(t: Seq<SpannedToken>, p: int, es: Seq<Expr>, es2: Seq<Expr>, v: Seq<ExprId>, id: int)
    requires
        es.len() <= es2.len(),
        forall|i: int| 0 <= i < es.len() ==> #[trigger] es2[i] == es[i],
    ensures
        operand_denotes(t, p, es, id) ==> operand_denotes(t, p, es2, id),
        args_denote(t, p, es, v) ==> args_denote(t, p, es2, v),
{
    if 0 <= id < es.len() {
        assert(es2[id] == es[id]);
    }
    if v.len() == 1 && 0 <= v[0].0 < es.len() {
        assert(es2[v[0].0 as int] == es[v[0].0 as int]);
    }
}

proof fn lemma_pf_extend(t: Seq<SpannedToken>, q0: int, n: nat, es: Seq<Expr>, es2: Seq<Expr>, r: int, e0: int)
    requires
        es.len() <= es2.len(),
        forall|i: int| 0 <= i < es.len() ==> #[trigger] es2[i] == es[i],
        pf_result(t, q0, n, es, r, e0),
    ensures
        pf_result(t, q0, n, es2, r, e0),
    decreases n,
{
    if n > 0 {
        assert(es2[r] == es[r]);
        let s = skip_nl(t, pf_op_at(t, q0, (n - 1) as nat));
        match es[r].kind {
            ExprKind::Call { args, .. } => {
                if args@.len() == 1 {
                    assert(es2[args@[0].0 as int] == es[args@[0].0 as int]);
                }
            },
            ExprKind::MethodCall { args, .. } => {
                if args@.len() == 1 {
                    assert(es2[args@[0].0 as int] == es[args@[0].0 as int]);
                }
            },
            ExprKind::Index { index, .. } => {
                assert(es2[index.0 as int] == es[index.0 as int]);
            },
            _ => {},
        }
        lemma_pf_extend(t, q0, (n - 1) as nat, es, es2, node_base(es[r].kind), e0);
    }
}

/// Parser `b` holds, as its last expression, literal `lit` (where the ids
/// of its arena fit), and `e` names it.
pub open spec fn yields_literal(b: &Parser, e: ExprId, lit: Literal) -> bool {
    b.arena.fits() ==> b.arena.exprs()[e.0 as int].kind == ExprKind::Literal(lit)
}

impl<'a> Parser<'a> {
    /// Parses an expression.
    ///
    /// A literal token followed (past newlines) by a token that neither
    /// continues nor combines it is the literal; a token that cannot start
    /// an expression is reported and yields nothing.
    pub fn parse_expr(&mut self) -> (r: Option<ExprId>)
        requires
            old(self).wf(),
        ensures
            expr_result(&*old(self), &*final(self), r),
            lone_literal(old(self).tokens@, old(self).pos as int) matches Some(lit) ==> (r matches Some(e)
                && final(self).pos == after_atom(old(self).tokens@, old(self).pos as int) && final(self).handler
                == old(self).handler && yields_literal(&*final(self), e, lit)),
            no_expr_start(old(self).tokens@, old(self).pos as int) ==> r is None && final(self).arena == old(
                self,
            ).arena && one_error(
                &old(self).handler,
                &final(self).handler,
                old(self).tokens@[skip_nl(old(self).tokens@, old(self).pos as int)].span,
                no_expr_message(old(self).tokens@[skip_nl(old(self).tokens@, old(self).pos as int)].kind),
            ),
            flat_chain(old(self).tokens@, old(self).pos as int) ==> (r matches Some(e) && final(self).pos == end_from(
                old(self).tokens@,
                after_atom(old(self).tokens@, old(self).pos as int),
                0,
            ) && final(self).handler == old(self).handler && yields_chain(
                &*final(self),
                e,
                chain_pieces(old(self).tokens@, old(self).pos as int),
                0,
            )),
            lone_name(old(self).tokens@, old(self).pos as int) matches Some(n) ==> (r matches Some(e) && final(self).pos == after_atom(old(self).tokens@, old(self).pos as int) && final(self).handler == old(self).handler
                && yields_name(&*final(self), e, n)),
        decreases old(self).remaining(), 19nat,
    {
        self.parse_expr_bp(0)
    }

    /// Precedence climbing: parses operators that bind at least `min_bp`.
    fn parse_expr_bp(&mut self, min_bp: u8) -> (r: Option<ExprId>)
        requires
            old(self).wf(),
        ensures
            expr_result(&*old(self), &*final(self), r),
            lone_literal(old(self).tokens@, old(self).pos as int) matches Some(lit) ==> (r matches Some(e)
                && final(self).pos == after_atom(old(self).tokens@, old(self).pos as int) && final(self).handler
                == old(self).handler && yields_literal(&*final(self), e, lit)),
            no_expr_start(old(self).tokens@, old(self).pos as int) ==> r is None && final(self).arena == old(
                self,
            ).arena && one_error(
                &old(self).handler,
                &final(self).handler,
                old(self).tokens@[skip_nl(old(self).tokens@, old(self).pos as int)].span,
                no_expr_message(old(self).tokens@[skip_nl(old(self).tokens@, old(self).pos as int)].kind),
            ),
            flat_chain(old(self).tokens@, old(self).pos as int) ==> (r matches Some(e) && final(self).pos == end_from(
                old(self).tokens@,
                after_atom(old(self).tokens@, old(self).pos as int),
                min_bp as int,
            ) && final(self).handler == old(self).handler && yields_chain(
                &*final(self),
                e,
                seq![ChainPiece::Lit(operand_at(old(self).tokens@, old(self).pos as int).unwrap())] + ops_from(
                    old(self).tokens@,
                    after_atom(old(self).tokens@, old(self).pos as int),
                    min_bp as int,
                ),
                min_bp as int,
            ) && (spec_infix(old(self).tokens@[final(self).pos as int].kind) matches Some((l, _, _)) ==> l < min_bp)),
            lone_name(old(self).tokens@, old(self).pos as int) matches Some(n) ==> (r matches Some(e) && final(self).pos == after_atom(old(self).tokens@, old(self).pos as int) && final(self).handler == old(self).handler
                && yields_name(&*final(self), e, n)),
        decreases old(self).remaining(), 18nat,
    {
        let ghost t = old(self).tokens@;
        let ghost lone = lone_literal(t, old(self).pos as int);
        let ghost lname = lone_name(t, old(self).pos as int);
        let ghost flat = flat_chain(t, old(self).pos as int);
        let ghost q0 = after_atom(t, old(self).pos as int);
        let ghost m = min_bp as int;
        let ghost l0 = operand_at(t, old(self).pos as int).unwrap();
        proof {
            lemma_skip_nl_idem(t, skip_nl(t, old(self).pos as int) + 1);
            lemma_skip_nl_idem(t, old(self).pos as int);
        }
        self.skip_layout();
        let start = self.tokens[self.pos].span;
        let mut lhs = match self.parse_prefix() {
            Some(e) => e,
            None => return None,
        };
        loop
            invariant_except_break
                lone matches Some(lit) ==> self.pos == after_atom(t, old(self).pos as int) && self.handler == old(
                    self,
                ).handler && yields_literal(&*self, lhs, lit),
                lname matches Some(n) ==> self.pos == after_atom(t, old(self).pos as int) && self.handler == old(
                    self,
                ).handler && yields_name(&*self, lhs, n),
            invariant
                step(&*old(self), &*self),
                old(self).pos < self.pos,
                expr_in(&self.arena, lhs),
                t == old(self).tokens@,
                lone == lone_literal(t, old(self).pos as int),
                lname == lone_name(t, old(self).pos as int),
                !no_expr_start(t, old(self).pos as int),
                skip_nl(t, after_atom(t, old(self).pos as int)) == after_atom(t, old(self).pos as int),
                flat == flat_chain(t, old(self).pos as int),
                q0 == after_atom(t, old(self).pos as int),
                m == min_bp as int,
                flat ==> {
                    &&& self.handler == old(self).handler
                    &&& skip_nl(t, self.pos as int) == self.pos
                    &&& flat_from(t, self.pos as int)
                    &&& end_from(t, q0, m) == end_from(t, self.pos as int, m)
                    &&& self.arena.fits() ==> {
                        &&& seq![ChainPiece::Lit(l0)] + ops_from(t, q0, m) == chain_yield(
                            self.arena.exprs(),
                            lhs.0 as int,
                        ) + ops_from(t, self.pos as int, m)
                        &&& operator_tree(self.arena.exprs(), lhs.0 as int)
                        &&& root_binds(self.arena.exprs(), lhs.0 as int, m)
                        &&& self.arena.exprs()[lhs.0 as int].kind matches ExprKind::Binary { op: lo, .. } ==> (
                        spec_infix(t[self.pos as int].kind) matches Some((l, _, _)) ==> l <= op_bp(lo))
                    }
                },
            ensures
                step(&*old(self), &*self),
                old(self).pos < self.pos,
                expr_in(&self.arena, lhs),
                lone matches Some(lit) ==> self.pos == after_atom(t, old(self).pos as int) && self.handler == old(
                    self,
                ).handler && yields_literal(&*self, lhs, lit),
                lname matches Some(n) ==> self.pos == after_atom(t, old(self).pos as int) && self.handler == old(
                    self,
                ).handler && yields_name(&*self, lhs, n),
                flat ==> {
                    &&& self.handler == old(self).handler
                    &&& self.pos == end_from(t, q0, m)
                    &&& yields_chain(&*self, lhs, seq![ChainPiece::Lit(l0)] + ops_from(t, q0, m), m)
                    &&& spec_infix(t[self.pos as int].kind) matches Some((l, _, _)) ==> l < min_bp
                },
            decreases self.remaining(),
        {
            self.skip_layout();
            if matches!(self.tokens[self.pos].kind, TokenKind::Assign) {
                proof {
                    if flat && self.arena.fits() {
                        assert(seq![ChainPiece::Lit(l0)] + ops_from(t, q0, m) =~= chain_yield(
                            self.arena.exprs(),
                            lhs.0 as int,
                        ));
                    }
                }
                break;
            }
            let (l_bp, r_bp, op) = match self.infix_op() {
                Some(v) => v,
                None => {
                    proof {
                        if flat && self.arena.fits() {
                            assert(seq![ChainPiece::Lit(l0)] + ops_from(t, q0, m) =~= chain_yield(
                                self.arena.exprs(),
                                lhs.0 as int,
                            ));
                        }
                    }
                    break;
                },
            };
            proof {
                lemma_infix_bp(t[self.pos as int].kind);
            }
            if l_bp < min_bp {
                proof {
                    if flat && self.arena.fits() {
                        assert(seq![ChainPiece::Lit(l0)] + ops_from(t, q0, m) =~= chain_yield(
                            self.arena.exprs(),
                            lhs.0 as int,
                        ));
                    }
                }
                break;
            }
            let ghost s0 = *self;
            self.bump();
            proof {
                lemma_skip_nl_idem(t, s0.pos + 1);
                lemma_skip_nl_idem(t, skip_nl(t, s0.pos + 1) + 1);
            }
            self.skip_layout();
            let ghost s1 = *self;
            let rhs = match self.parse_expr_bp(r_bp) {
                Some(e) => e,
                None => return None,
            };
            let ghost s2 = *self;
            let span = self.span_from(start);
            proof {
                lemma_in_ok(&self.arena);
            }
            let ghost old_lhs = lhs;
            lhs = self.alloc_expr_node(ExprKind::Binary { op, left: lhs, right: rhs }, span);
            proof {
                if flat {
                    let a1 = after_atom(t, s0.pos + 1);
                    assert(after_atom(t, s1.pos as int) == a1);
                    assert(operand_at(t, s1.pos as int) == operand_at(t, s0.pos + 1));
                    let l1 = operand_at(t, s0.pos + 1).unwrap();
                    lemma_ops_split(t, a1, m, r_bp as int);
                    assert(ops_from(t, s0.pos as int, m) == seq![ChainPiece::Op(op), ChainPiece::Lit(l1)]
                        + ops_from(t, a1, m));
                    assert(end_from(t, s0.pos as int, m) == end_from(t, a1, m));
                    if self.arena.fits() {
                        let es0 = s0.arena.exprs();
                        let es2 = s2.arena.exprs();
                        let es3 = self.arena.exprs();
                        lemma_chain_extend(es0, es2, old_lhs.0 as int);
                        lemma_chain_extend(es2, es3, old_lhs.0 as int);
                        lemma_chain_extend(es2, es3, rhs.0 as int);
                        assert(es3[old_lhs.0 as int] == es0[old_lhs.0 as int]);
                        assert(es3[rhs.0 as int] == es2[rhs.0 as int]);
                        assert(es3[lhs.0 as int].kind == ExprKind::Binary { op, left: old_lhs, right: rhs });
                        assert(chain_yield(es3, lhs.0 as int) == chain_yield(es0, old_lhs.0 as int) + seq![
                            ChainPiece::Op(op)]
                            + chain_yield(es2, rhs.0 as int));
                        assert(seq![ChainPiece::Lit(l0)] + ops_from(t, q0, m) =~= chain_yield(es3, lhs.0 as int)
                            + ops_from(t, self.pos as int, m));
                    }
                }
            }
        }
        Some(lhs)
    }

    /// The binding powers and operator of the current token, if it is infix.
    fn infix_op(&self) -> (r: Option<(u8, u8, BinaryOp)>)
        requires
            self.wf(),
        ensures
            r == spec_infix(self.cur()),
    {
        match &self.tokens[self.pos].kind {
            TokenKind::KwOr => Some((1, 2, BinaryOp::Or)),
            TokenKind::KwAnd => Some((3, 4, BinaryOp::And)),
            TokenKind::EqEq => Some((5, 6, BinaryOp::Eq)),
            TokenKind::NotEq => Some((5, 6, BinaryOp::NotEq)),
            TokenKind::Lt => Some((5, 6, BinaryOp::Lt)),
            TokenKind::LtEq => Some((5, 6, BinaryOp::LtEq)),
            TokenKind::Gt => Some((5, 6, BinaryOp::Gt)),
            TokenKind::GtEq => Some((5, 6, BinaryOp::GtEq)),
            TokenKind::Plus => Some((7, 8, BinaryOp::Add)),
            TokenKind::Minus => Some((7, 8, BinaryOp::Sub)),
            TokenKind::Star => Some((9, 10, BinaryOp::Mul)),
            TokenKind::Slash => Some((9, 10, BinaryOp::Div)),
            TokenKind::FloorDiv => Some((9, 10, BinaryOp::FloorDiv)),
            TokenKind::Percent => Some((9, 10, BinaryOp::Mod)),
            _ => None,
        }
    }

    /// Parses a prefix operator application (`!`, `-`, `+`) or an atom with
    /// its postfix operations.
    fn parse_prefix(&mut self) -> (r: Option<ExprId>)
        requires
            old(self).wf(),
        ensures
            expr_result(&*old(self), &*final(self), r),
            atom_literal(old(self).cur()) matches Some(lit) ==> (!postfix_start(
                old(self).tokens@[skip_nl(old(self).tokens@, old(self).pos + 1)].kind,
            ) ==> (r matches Some(e) && final(self).pos == skip_nl(old(self).tokens@, old(self).pos + 1)
                && final(self).handler == old(self).handler && yields_literal(&*final(self), e, lit))),
            name_atom(old(self).cur()) matches Some(n) ==> (!postfix_start(
                old(self).tokens@[skip_nl(old(self).tokens@, old(self).pos + 1)].kind,
            ) ==> (r matches Some(e) && final(self).pos == skip_nl(old(self).tokens@, old(self).pos + 1)
                && final(self).handler == old(self).handler && yields_name(&*final(self), e, n))),
            prefix_op(old(self).cur()) is None && !atom_start(old(self).cur()) ==> r is None && final(self).pos == old(
                self,
            ).pos && final(self).arena == old(self).arena && one_error(
                &old(self).handler,
                &final(self).handler,
                old(self).cur_span(),
                no_expr_message(old(self).cur()),
            ),
            prefix_op(old(self).cur()) matches Some(op) ==> (r matches Some(e) ==> (final(self).arena.fits()
                ==> (final(self).arena.exprs()[e.0 as int].kind matches ExprKind::Unary { op: o, .. } && o == op))),
        decreases old(self).remaining(), 17nat,
    {
        let start = self.tokens[self.pos].span;
        let op = match &self.tokens[self.pos].kind {
            TokenKind::Bang => UnaryOp::Not,
            TokenKind::Minus => UnaryOp::Neg,
            TokenKind::Plus => UnaryOp::Pos,
            _ => {
                let expr = match self.parse_atom() {
                    Some(e) => e,
                    None => return None,
                };
                return self.parse_postfix(expr);
            },
        };
        self.bump();
        self.skip_layout();
        let operand = match self.parse_expr_bp(11) {
            Some(e) => e,
            None => return None,
        };
        let span = self.span_from(start);
        proof {
            lemma_in_ok(&self.arena);
        }
        Some(self.alloc_expr_node(ExprKind::Unary { op, operand }, span))
    }

    /// Parses an atom: a literal, a name, a parenthesized or tuple
    /// expression, a list, a struct literal or a conditional expression.
    fn parse_atom(&mut self) -> (r: Option<ExprId>)
        requires
            old(self).wf(),
        ensures
            expr_result(&*old(self), &*final(self), r),
            atom_literal(old(self).cur()) matches Some(lit) ==> (r matches Some(e) && final(self).pos == old(self).pos
                + 1 && final(self).handler == old(self).handler && yields_literal(&*final(self), e, lit)),
            name_atom(old(self).cur()) matches Some(n) ==> (r matches Some(e) && final(self).pos == old(self).pos + 1
                && final(self).handler == old(self).handler && yields_name(&*final(self), e, n)),
            if_operands(old(self).tokens@, old(self).pos as int) matches Some(end) ==> (r matches Some(x)
                && final(self).pos == end && final(self).handler == old(self).handler && (final(self).arena.fits()
                ==> if_denotes(old(self).tokens@, old(self).pos as int, final(self).arena.exprs(), x.0 as int))),
            old(self).cur() is LBracket ==> (r matches Some(x) ==> (final(self).arena.fits()
                ==> final(self).arena.exprs()[x.0 as int].kind is List)),
            paren_atom_end(old(self).tokens@, old(self).pos as int) >= 0 ==> (r matches Some(x) && final(self).pos
                == paren_atom_end(old(self).tokens@, old(self).pos as int) && final(self).handler == old(self).handler
                && (final(self).arena.fits() ==> paren_atom_denotes(
                old(self).tokens@,
                old(self).pos as int,
                final(self).arena.exprs(),
                x.0 as int,
            ))),
            list_atom_end(old(self).tokens@, old(self).pos as int) >= 0 ==> (r matches Some(x) && final(self).pos
                == list_atom_end(old(self).tokens@, old(self).pos as int) && final(self).handler == old(self).handler
                && (final(self).arena.fits() ==> list_atom_denotes(
                old(self).tokens@,
                old(self).pos as int,
                final(self).arena.exprs(),
                x.0 as int,
            ))),
            old(self).cur() is LBrace ==> (r matches Some(x) ==> (final(self).arena.fits()
                ==> final(self).arena.exprs()[x.0 as int].kind is Struct)),
            !atom_start(old(self).cur()) ==> r is None && final(self).pos == old(self).pos && final(self).arena
                == old(self).arena && one_error(
                &old(self).handler,
                &final(self).handler,
                old(self).cur_span(),
                no_expr_message(old(self).cur()),
            ),
        decreases old(self).remaining(), 16nat,
    {
        let tokens: &'a [SpannedToken] = self.tokens;
        let start = tokens[self.pos].span;
        let kind = match &tokens[self.pos].kind {
            TokenKind::IntLit { value } => {
                self.bump();
                ExprKind::Literal(self.int_literal(*value))
            },
            TokenKind::FloatLit { value } => {
                self.bump();
                ExprKind::Literal(Literal::Float(value.clone()))
            },
            TokenKind::StringLit { value } => {
                self.bump();
                ExprKind::Literal(Literal::String(value.clone()))
            },
            TokenKind::BytesLit { value } => {
                self.bump();
                ExprKind::Literal(Literal::Bytes(value.clone()))
            },
            TokenKind::BoolLit(value) => {
                self.bump();
                ExprKind::Literal(Literal::Bool(*value))
            },
            TokenKind::KwTrue => {
                self.bump();
                ExprKind::Literal(Literal::Bool(true))
            },
            TokenKind::KwFalse => {
                self.bump();
                ExprKind::Literal(Literal::Bool(false))
            },
            TokenKind::KwNone => {
                self.bump();
                ExprKind::Literal(Literal::NoneValue)
            },
            TokenKind::KwSelf => {
                self.bump();
                ExprKind::Path(Path::single(String::from_str("self"), start))
            },
            TokenKind::Ident { name } => {
                self.bump();
                let is_true = crate::text::str_eq(name.as_str(), "True");
                let is_false = crate::text::str_eq(name.as_str(), "False");
                if is_true {
                    ExprKind::Literal(Literal::Bool(true))
                } else if is_false {
                    ExprKind::Literal(Literal::Bool(false))
                } else {
                    ExprKind::Path(Path::single(name.clone(), start))
                }
            },
            TokenKind::LParen => {
                let ghost t = tokens@;
                let ghost p = old(self).pos as int;
                let ghost ok = paren_atom_end(t, p) >= 0;
                proof {
                    lemma_skip_nl_idem(t, p + 1);
                    lemma_skip_nl_idem(t, skip_nl(t, p + 1) + 1);
                }
                self.bump();
                let ghost after_open = *self;
                self.skip_layout();
                if self.eat(TokenKind::RParen) {
                    ExprKind::Tuple(Vec::new())
                } else {
                    let ghost s0 = *self;
                    proof {
                        assert(ok ==> lone_operand(t, p + 1));
                        assert(lone_literal(t, self.pos as int) == lone_literal(t, p + 1));
                        assert(lone_name(t, self.pos as int) == lone_name(t, p + 1));
                        assert(after_atom(t, self.pos as int) == after_atom(t, p + 1));
                    }
                    let first = match self.parse_expr() {
                        Some(e) => e,
                        None => return None,
                    };
                    let ghost s1 = *self;
                    self.skip_layout();
                    if self.eat(TokenKind::Comma) {
                        let mut elems: Vec<ExprId> = Vec::new();
                        elems.push(first);
                        proof {
                            assert(list_elem_at(t, p + 1, 0) == p + 1);
                            assert(elems@[0] == first);
                            assert(list_elem_at(t, p + 1, 1) == after_atom(t, p + 1) + 1);
                        }
                        loop
                            invariant_except_break
                                ok ==> self.pos == list_elem_at(t, p + 1, elems@.len()) && tuple_rest_end(
                                    t,
                                    self.pos as int,
                                ) == paren_atom_end(t, p),
                                ok ==> forall|i: int|
                                    0 <= i < elems@.len() ==> (#[trigger] t[after_atom(t, list_elem_at(t, p + 1, i as nat))]).kind
                                        is Comma,
                            invariant
                                step(&*old(self), &after_open),
                                old(self).pos < after_open.pos,
                                old(self).cur() is LParen,
                                step(&after_open, &*self),
                                exprs_in(&self.arena, elems@),
                                t == tokens@,
                                t == old(self).tokens@,
                                p == old(self).pos,
                                ok == (paren_atom_end(t, p) >= 0),
                                elems@.len() > 0,
                                ok ==> !(t[skip_nl(t, p + 1)].kind is RParen) && !(t[after_atom(t, p + 1)].kind is RParen),
                                ok ==> self.handler == old(self).handler,
                                ok ==> forall|i: int|
                                    0 <= i < elems@.len() - 1 ==> !closes_tuple(
                                        t,
                                        #[trigger] after_atom(t, list_elem_at(t, p + 1, i as nat)),
                                    ),
                                ok && self.arena.fits() ==> forall|i: int|
                                    0 <= i < elems@.len() ==> #[trigger] operand_denotes(
                                        t,
                                        list_elem_at(t, p + 1, i as nat),
                                        self.arena.exprs(),
                                        elems@[i].0 as int,
                                    ),
                            ensures
                                step(&*old(self), &after_open),
                                old(self).pos < after_open.pos,
                                step(&after_open, &*self),
                                exprs_in(&self.arena, elems@),
                                ok ==> self.pos == paren_atom_end(t, p),
                                ok ==> self.handler == old(self).handler,
                                ok ==> elems@.len() > 0,
                                ok ==> forall|i: int|
                                    0 <= i < elems@.len() - 1 ==> !closes_tuple(
                                        t,
                                        #[trigger] after_atom(t, list_elem_at(t, p + 1, i as nat)),
                                    ) && t[after_atom(t, list_elem_at(t, p + 1, i as nat))].kind is Comma,
                                ok ==> closes_tuple(t, after_atom(t, list_elem_at(t, p + 1, (elems@.len() - 1) as nat))),
                                ok && self.arena.fits() ==> forall|i: int|
                                    0 <= i < elems@.len() ==> #[trigger] operand_denotes(
                                        t,
                                        list_elem_at(t, p + 1, i as nat),
                                        self.arena.exprs(),
                                        elems@[i].0 as int,
                                    ),
                            decreases self.remaining(),
                        {
                            let ghost k = elems@.len();
                            let ghost q = self.pos as int;
                            proof {
                                lemma_skip_nl_idem(t, q);
                                lemma_skip_nl_idem(t, skip_nl(t, q) + 1);
                                assert(ok ==> q == list_elem_at(t, p + 1, k));
                                assert(ok ==> list_elem_at(t, p + 1, k) == after_atom(t, list_elem_at(t, p + 1, (k - 1) as nat)) + 1);
                            }
                            self.skip_layout();
                            if self.eat(TokenKind::RParen) {
                                proof {
                                    assert(ok ==> closes_tuple(t, after_atom(t, list_elem_at(t, p + 1, (k - 1) as nat))));
                                }
                                break;
                            }
                            proof {
                                assert(ok ==> !closes_tuple(t, after_atom(t, list_elem_at(t, p + 1, (k - 1) as nat))));
                                assert(ok ==> lone_operand(t, q));
                                assert(ok ==> lone_literal(t, self.pos as int) == lone_literal(t, q));
                                assert(ok ==> lone_name(t, self.pos as int) == lone_name(t, q));
                                assert(ok ==> after_atom(t, self.pos as int) == after_atom(t, q));
                                assert(ok ==> (t[after_atom(t, q)].kind is RParen || t[after_atom(t, q)].kind is Comma));
                            }
                            let ghost before = *self;
                            let e = match self.parse_expr() {
                                Some(e) => e,
                                None => return None,
                            };
                            proof {
                                lemma_seq_in_mono(&before.arena, &self.arena);
                            }
                            let ghost old_elems = elems@;
                            elems.push(e);
                            assert(elems@ == old_elems.push(e));
                            proof {
                                if ok && self.arena.fits() {
                                    assert forall|i: int|
                                        0 <= i < elems@.len() implies #[trigger] operand_denotes(
                                        t,
                                        list_elem_at(t, p + 1, i as nat),
                                        self.arena.exprs(),
                                        elems@[i].0 as int,
                                    ) by {
                                        if i < k {
                                            assert(elems@[i] == old_elems[i]);
                                            lemma_operand_extend(
                                                t,
                                                list_elem_at(t, p + 1, i as nat),
                                                before.arena.exprs(),
                                                self.arena.exprs(),
                                                Seq::empty(),
                                                old_elems[i].0 as int,
                                            );
                                        }
                                    }
                                }
                            }
                            self.skip_layout();
                            if !self.eat(TokenKind::Comma) {
                                if !self.expect(TokenKind::RParen, "expected ')'") {
                                    return None;
                                }
                                proof {
                                    assert(ok ==> closes_tuple(t, after_atom(t, list_elem_at(t, p + 1, k))));
                                }
                                break;
                            }
                            proof {
                                assert(ok ==> list_elem_at(t, p + 1, (k + 1) as nat) == after_atom(t, q) + 1);
                                assert(ok ==> t[after_atom(t, list_elem_at(t, p + 1, k))].kind is Comma);
                            }
                        }
                        ExprKind::Tuple(elems)
                    } else {
                        if !self.expect(TokenKind::RParen, "expected ')'") {
                            return None;
                        }
                        return Some(first);
                    }
                }
            },
            TokenKind::LBracket => {
                let ghost t = tokens@;
                let ghost p = old(self).pos as int;
                let ghost ok = list_atom_end(t, p) >= 0;
                self.bump();
                let ghost after_open = *self;
                self.skip_layout();
                let mut elems: Vec<ExprId> = Vec::new();
                if !self.eat(TokenKind::RBracket) {
                    loop
                        invariant_except_break
                            ok ==> skip_nl(t, self.pos as int) == skip_nl(t, list_elem_at(t, p + 1, elems@.len()))
                                && list_ops_end(t, list_elem_at(t, p + 1, elems@.len())) == list_atom_end(t, p),
                            ok ==> forall|i: int|
                                0 <= i < elems@.len() ==> (#[trigger] t[after_atom(t, list_elem_at(t, p + 1, i as nat))]).kind
                                    is Comma,
                        invariant
                            step(&*old(self), &after_open),
                            old(self).pos < after_open.pos,
                            old(self).cur() is LBracket,
                            step(&after_open, &*self),
                            exprs_in(&self.arena, elems@),
                            t == tokens@,
                            t == old(self).tokens@,
                            p == old(self).pos,
                            ok == (list_atom_end(t, p) >= 0),
                            ok ==> !(t[skip_nl(t, p + 1)].kind is RBracket),
                            ok ==> self.handler == old(self).handler,
                            ok && self.arena.fits() ==> forall|i: int|
                                0 <= i < elems@.len() ==> #[trigger] operand_denotes(
                                    t,
                                    list_elem_at(t, p + 1, i as nat),
                                    self.arena.exprs(),
                                    elems@[i].0 as int,
                                ),
                        ensures
                            step(&*old(self), &after_open),
                            old(self).pos < after_open.pos,
                            step(&after_open, &*self),
                            exprs_in(&self.arena, elems@),
                            ok ==> elems@.len() > 0 && self.pos == list_atom_end(t, p) && t[after_atom(
                                t,
                                list_elem_at(t, p + 1, (elems@.len() - 1) as nat),
                            )].kind is RBracket,
                            ok ==> forall|i: int|
                                0 <= i < elems@.len() - 1 ==> (#[trigger] t[after_atom(t, list_elem_at(t, p + 1, i as nat))]).kind
                                    is Comma,
                            ok ==> self.handler == old(self).handler,
                            ok && self.arena.fits() ==> forall|i: int|
                                0 <= i < elems@.len() ==> #[trigger] operand_denotes(
                                    t,
                                    list_elem_at(t, p + 1, i as nat),
                                    self.arena.exprs(),
                                    elems@[i].0 as int,
                                ),
                        decreases self.remaining(),
                    {
                        let ghost before = *self;
                        let ghost k = elems@.len();
                        let ghost q = list_elem_at(t, p + 1, k);
                        proof {
                            lemma_skip_nl_idem(t, q);
                            lemma_skip_nl_idem(t, skip_nl(t, q) + 1);
                            lemma_skip_nl_idem(t, self.pos as int);
                            assert(ok ==> list_ops_end(t, q) >= 0);
                            assert(ok ==> lone_operand(t, q));
                            assert(ok ==> after_atom(t, self.pos as int) == after_atom(t, q));
                            assert(ok ==> lone_literal(t, self.pos as int) == lone_literal(t, q));
                            assert(ok ==> lone_name(t, self.pos as int) == lone_name(t, q));
                            assert(ok ==> (t[after_atom(t, q)].kind is RBracket || t[after_atom(t, q)].kind is Comma));
                            assert(ok ==> (lone_literal(self.tokens@, self.pos as int) is Some || lone_name(
                                self.tokens@,
                                self.pos as int,
                            ) is Some));
                        }
                        let e = match self.parse_expr() {
                            Some(e) => e,
                            None => {
                                proof {
                                    assert(!ok);
                                }
                                return None;
                            },
                        };
                        proof {
                            lemma_seq_in_mono(&before.arena, &self.arena);
                        }
                        let ghost old_elems = elems@;
                        elems.push(e);
                        assert(elems@ == old_elems.push(e));
                        proof {
                            if ok && self.arena.fits() {
                                assert forall|i: int|
                                    0 <= i < elems@.len() implies #[trigger] operand_denotes(
                                    t,
                                    list_elem_at(t, p + 1, i as nat),
                                    self.arena.exprs(),
                                    elems@[i].0 as int,
                                ) by {
                                    if i < k {
                                        assert(elems@[i] == old_elems[i]);
                                        lemma_operand_extend(
                                            t,
                                            list_elem_at(t, p + 1, i as nat),
                                            before.arena.exprs(),
                                            self.arena.exprs(),
                                            Seq::empty(),
                                            old_elems[i].0 as int,
                                        );
                                    }
                                }
                            }
                        }
                        self.skip_layout();
                        if self.eat(TokenKind::RBracket) {
                            break;
                        }
                        if !self.eat(TokenKind::Comma) {
                            self.error_here("expected ',' or ']'");
                            return None;
                        }
                        proof {
                            if ok {
                                assert(list_elem_at(t, p + 1, (k + 1) as nat) == after_atom(t, q) + 1);
                                assert(t[after_atom(t, list_elem_at(t, p + 1, k))].kind is Comma);
                            }
                        }
                        self.skip_layout();
                    }
                }
                ExprKind::List(elems)
            },
            TokenKind::LBrace => {
                self.bump();
                let path = Path { segments: Vec::new(), span: start };
                let fields = match self.parse_struct_fields(start) {
                    Some(f) => f,
                    None => return None,
                };
                let span = self.span_from(start);
                proof {
                    lemma_in_ok(&self.arena);
                    lemma_seq_in_ok(&self.arena);
                    assert(path_in(&self.arena, path));
                    lemma_fields_in_ok(&self.arena, fields@);
                }
                return Some(self.alloc_expr_node(ExprKind::Struct { path, fields }, span));
            },
            TokenKind::KwIf => {
                return self.parse_if_expr(start);
            },
            _ => {
                let mut msg = String::from_str("expected expression, found ");
                msg.append(tokens[self.pos].kind.name());
                self.error(start, msg);
                return None;
            },
        };
        let span = self.span_from(start);
        proof {
            lemma_in_ok(&self.arena);
            lemma_seq_in_ok(&self.arena);
        }
        let ghost s5 = *self;
        let ghost gk = kind;
        let x = self.alloc_expr_node(kind, span);
        proof {
            let t = tokens@;
            let p = old(self).pos as int;
            if paren_atom_end(t, p) >= 0 && self.arena.fits() {
                match gk {
                    ExprKind::Tuple(v) => {
                        assert forall|i: int| 0 <= i < v@.len() implies #[trigger] operand_denotes(
                            t,
                            list_elem_at(t, p + 1, i as nat),
                            self.arena.exprs(),
                            v@[i].0 as int,
                        ) by {
                            lemma_operand_extend(
                                t,
                                list_elem_at(t, p + 1, i as nat),
                                s5.arena.exprs(),
                                self.arena.exprs(),
                                Seq::empty(),
                                v@[i].0 as int,
                            );
                        }
                    },
                    _ => {},
                }
            }
            if list_atom_end(t, p) >= 0 && self.arena.fits() {
                match gk {
                    ExprKind::List(v) => {
                        assert forall|i: int| 0 <= i < v@.len() implies #[trigger] operand_denotes(
                            t,
                            list_elem_at(t, p + 1, i as nat),
                            self.arena.exprs(),
                            v@[i].0 as int,
                        ) by {
                            lemma_operand_extend(
                                t,
                                list_elem_at(t, p + 1, i as nat),
                                s5.arena.exprs(),
                                self.arena.exprs(),
                                Seq::empty(),
                                v@[i].0 as int,
                            );
                        }
                    },
                    _ => {},
                }
            }
        }
        Some(x)
    }

    /// The literal an integer token denotes.
    fn int_literal(&self, lit: IntLiteral) -> (l: Literal)
        ensures
            l == spec_int_literal(lit),
    {
        let value = match lit {
            IntLiteral::Decimal(v) => v,
            IntLiteral::Hex(v) => v,
            IntLiteral::Bin(v) => v,
        };
        Literal::Int(value)
    }

    /// Parses `if test: then else other` (the `if` is current).
    fn parse_if_expr(&mut self, start: Span) -> (r: Option<ExprId>)
        requires
            old(self).wf(),
            old(self).cur() is KwIf,
        ensures
            expr_result(&*old(self), &*final(self), r),
            if_operands(old(self).tokens@, old(self).pos as int) matches Some(end) ==> (r matches Some(x)
                && final(self).pos == end && final(self).handler == old(self).handler && (final(self).arena.fits()
                ==> if_denotes(old(self).tokens@, old(self).pos as int, final(self).arena.exprs(), x.0 as int))),
        decreases old(self).remaining(), 15nat,
    {
        let ghost t = old(self).tokens@;
        let ghost p = old(self).pos as int;
        proof {
            let c = after_atom(t, p + 1);
            let e = after_atom(t, c + 1);
            lemma_skip_nl_idem(t, p + 1);
            lemma_skip_nl_idem(t, skip_nl(t, p + 1) + 1);
            lemma_skip_nl_idem(t, c + 1);
            lemma_skip_nl_idem(t, skip_nl(t, c + 1) + 1);
            lemma_skip_nl_idem(t, e + 1);
            lemma_skip_nl_idem(t, skip_nl(t, e + 1) + 1);
        }
        self.bump();
        assert(self.pos == old(self).pos + 1);
        assert(self.tokens@ == old(self).tokens@);
        self.skip_layout();
        assert(old(self).remaining() > self.remaining());
        let test = match self.parse_expr() {
            Some(e) => e,
            None => return None,
        };
        let ghost s1 = *self;
        self.skip_layout();
        if !self.eat(TokenKind::Colon) {
            self.error_here("expected ':' after if condition");
            return None;
        }
        self.skip_layout();
        let then_branch = match self.parse_expr() {
            Some(e) => e,
            None => return None,
        };
        let ghost s2 = *self;
        self.skip_layout();
        if !self.eat(TokenKind::KwElse) {
            self.error_here("expected 'else' in if expression");
            return None;
        }
        self.skip_layout();
        let else_branch = match self.parse_expr() {
            Some(e) => e,
            None => return None,
        };
        let ghost s3 = *self;
        let span = Span::merge(start, self.arena.expr(else_branch).span);
        proof {
            lemma_in_ok(&self.arena);
        }
        let x = self.alloc_expr_node(ExprKind::If { test, then: then_branch, else_branch }, span);
        proof {
            if if_operands(t, p) is Some && self.arena.fits() {
                let c = after_atom(t, p + 1);
                let e = after_atom(t, c + 1);
                let es = self.arena.exprs();
                lemma_operand_extend(t, p + 1, s1.arena.exprs(), es, Seq::empty(), test.0 as int);
                lemma_operand_extend(t, c + 1, s2.arena.exprs(), es, Seq::empty(), then_branch.0 as int);
                lemma_operand_extend(t, e + 1, s3.arena.exprs(), es, Seq::empty(), else_branch.0 as int);
            }
        }
        Some(x)
    }

    /// Parses `name: expr, ...` up to and including `}`; every field gets
    /// `field_span`.
    fn parse_struct_fields(&mut self, field_span: Span) -> (r: Option<Vec<FieldExpr>>)
        requires
            old(self).wf(),
        ensures
            step(&*old(self), &*final(self)),
            r matches Some(v) ==> forall|i: int| 0 <= i < v@.len() ==> #[trigger] expr_in(&final(self).arena, v@[i].expr),
            r matches Some(v) ==> forall|i: int| 0 <= i < v@.len() ==> (#[trigger] v@[i]).span == field_span,
            r is None ==> old(self).handler.error_count() < final(self).handler.error_count(),
        decreases old(self).remaining(), 15nat,
    {
        let tokens: &'a [SpannedToken] = self.tokens;
        self.skip_layout();
        let mut fields: Vec<FieldExpr> = Vec::new();
        if self.eat(TokenKind::RBrace) {
            return Some(fields);
        }
        loop
            invariant
                step(&*old(self), &*self),
                tokens@ == self.tokens@,
                forall|i: int| 0 <= i < fields@.len() ==> #[trigger] expr_in(&self.arena, fields@[i].expr),
                forall|i: int| 0 <= i < fields@.len() ==> (#[trigger] fields@[i]).span == field_span,
            decreases self.remaining(),
        {
            let name = match &tokens[self.pos].kind {
                TokenKind::Ident { name } => name.clone(),
                _ => {
                    self.error_here("expected field name");
                    return None;
                },
            };
            let ghost s0 = *self;
            self.bump();
            if !self.eat(TokenKind::Colon) {
                self.error_here("expected ':' in struct literal");
                return None;
            }
            self.skip_layout();
            let expr = match self.parse_expr() {
                Some(e) => e,
                None => return None,
            };
            let ghost old_fields = fields@;
            fields.push(FieldExpr { name, expr, span: field_span });
            proof {
                assert(step(&s0, &*self));
                lemma_in_mono(&s0.arena, &self.arena);
                assert forall|i: int| 0 <= i < fields@.len() implies #[trigger] expr_in(&self.arena, fields@[i].expr) by {
                    if i < old_fields.len() {
                        assert(fields@[i] == old_fields[i]);
                        assert(expr_in(&s0.arena, old_fields[i].expr));
                    } else {
                        assert(fields@[i].expr == expr);
                    }
                }
            }
            self.skip_layout();
            if self.eat(TokenKind::RBrace) {
                break;
            }
            if !self.eat(TokenKind::Comma) {
                self.error_here("expected ',' or '}'");
                return None;
            }
            self.skip_layout();
        }
        Some(fields)
    }

    /// Applies calls `(..)`, struct literals `{..}` after a path, field and
    /// method accesses `.name` and indexing `[..]` to `expr`.
    #[verifier::rlimit(100)]
    #[verifier::spinoff_prover]
    fn parse_postfix(&mut self, expr: ExprId) -> (r: Option<ExprId>)
        requires
            old(self).wf(),
            expr_in(&old(self).arena, expr),
        ensures
            step(&*old(self), &*final(self)),
            r matches Some(e) ==> expr_in(&final(self).arena, e),
            r is None ==> old(self).handler.error_count() < final(self).handler.error_count(),
            !postfix_start(old(self).tokens@[skip_nl(old(self).tokens@, old(self).pos as int)].kind) ==> r == Some(expr)
                && final(self).pos == skip_nl(old(self).tokens@, old(self).pos as int) && final(self).arena == old(
                self,
            ).arena && final(self).handler == old(self).handler,
            r matches Some(x) ==> (final(self).arena.fits() ==> postfix_of(final(self).arena.exprs(), x.0 as int, expr.0 as int)),
            postfix_start(old(self).tokens@[skip_nl(old(self).tokens@, old(self).pos as int)].kind) ==> (r matches Some(x)
                ==> old(self).pos < final(self).pos && (final(self).arena.fits() ==> expr.0 < x.0)),
            pf_ops(old(self).tokens@, old(self).pos as int) matches Some(n) ==> (r matches Some(x) && final(self).pos
                == skip_nl(old(self).tokens@, pf_op_at(old(self).tokens@, old(self).pos as int, n)) && final(self).handler
                == old(self).handler && (final(self).arena.fits() ==> pf_result(
                old(self).tokens@,
                old(self).pos as int,
                n,
                final(self).arena.exprs(),
                x.0 as int,
                expr.0 as int,
            ))),
        decreases old(self).remaining(), 15nat,
    {
        let tokens: &'a [SpannedToken] = self.tokens;
        let ghost t = old(self).tokens@;
        let ghost p = old(self).pos as int;
        let ghost pf = pf_ops(t, p) is Some;
        let ghost big_n = pf_ops(t, p).unwrap();
        let ghost e0 = expr;
        let ghost plain = !postfix_start(old(self).tokens@[skip_nl(old(self).tokens@, old(self).pos as int)].kind);
        let ghost mut n_ops: nat = 0;
        let mut expr = expr;
        loop
            invariant_except_break
                plain ==> self.pos == old(self).pos && self.arena == old(self).arena && self.handler == old(self).handler
                    && expr == e0,
                n_ops == 0 ==> self.pos == old(self).pos && expr == e0,
                pf ==> self.pos == pf_op_at(t, p, n_ops) && pf_ops(t, self.pos as int) == Some((big_n - n_ops) as nat)
                    && n_ops <= big_n,
            invariant
                t == tokens@,
                p == old(self).pos,
                pf == (pf_ops(t, p) is Some),
                pf ==> pf_ops(t, p) == Some(big_n),
                pf ==> self.handler == old(self).handler && (self.arena.fits() ==> pf_result(
                    t,
                    p,
                    n_ops,
                    self.arena.exprs(),
                    expr.0 as int,
                    e0.0 as int,
                )),
                step(&*old(self), &*self),
                tokens@ == self.tokens@,
                expr_in(&self.arena, expr),
                plain == !postfix_start(old(self).tokens@[skip_nl(old(self).tokens@, old(self).pos as int)].kind),
                e0.0 < old(self).arena.exprs().len(),
                self.arena.fits() ==> postfix_of(self.arena.exprs(), expr.0 as int, e0.0 as int),
                n_ops > 0 ==> old(self).pos < self.pos && (self.arena.fits() ==> e0.0 < expr.0),
            ensures
                step(&*old(self), &*self),
                expr_in(&self.arena, expr),
                plain ==> expr == e0 && self.pos == skip_nl(old(self).tokens@, old(self).pos as int) && self.arena
                    == old(self).arena && self.handler == old(self).handler,
                self.arena.fits() ==> postfix_of(self.arena.exprs(), expr.0 as int, e0.0 as int),
                !plain ==> old(self).pos < self.pos && (self.arena.fits() ==> e0.0 < expr.0),
                pf ==> self.pos == skip_nl(t, pf_op_at(t, p, big_n)) && self.handler == old(self).handler && (
                self.arena.fits() ==> pf_result(t, p, big_n, self.arena.exprs(), expr.0 as int, e0.0 as int)),
            decreases self.remaining(),
        {
            let ghost a_start = self.arena;
            let ghost q = self.pos as int;
            proof {
                if pf {
                    lemma_skip_nl_idem(t, q);
                    lemma_skip_nl_idem(t, skip_nl(t, q) + 1);
                    lemma_skip_nl_idem(t, skip_nl(t, skip_nl(t, q) + 1) + 1);
                }
            }
            let ghost x_start = expr;
            let ghost pos_start = self.pos;
            self.skip_layout();
            let ghost s0 = *self;
            match &tokens[self.pos].kind {
                TokenKind::LParen => {
                    self.bump();
                    let args = match self.parse_call_args() {
                        Some(a) => a,
                        None => return None,
                    };
                    let span = Span::merge(self.arena.expr(expr).span, tokens[self.pos - 1].span);
                    proof {
                        lemma_in_ok(&self.arena);
                        lemma_seq_in_ok(&self.arena);
                    }
                    expr = self.alloc_expr_node(
                        ExprKind::Call { func: expr, args, kwargs: Vec::new() },
                        span,
                    );
                },
                TokenKind::LBrace => {
                    proof {
                        if self.arena.fits() && self.arena.exprs()[expr.0 as int].kind is Path {
                            lemma_postfix_path(self.arena.exprs(), expr.0 as int, e0.0 as int);
                        }
                    }
                    let path = match &self.arena.expr(expr).kind {
                        ExprKind::Path(path) => clone_path(path),
                        _ => {
                            self.error_here("unexpected '{'");
                            return None;
                        },
                    };
                    proof {
                        lemma_path_same_ok(&self.arena, expr, path);
                    }
                    self.bump();
                    let fspan = tokens[self.pos].span;
                    let fields = match self.parse_struct_fields(fspan) {
                        Some(f) => f,
                        None => return None,
                    };
                    let span = Span::merge(self.arena.expr(expr).span, tokens[self.pos - 1].span);
                    proof {
                        lemma_in_ok(&self.arena);
                        lemma_seq_in_mono(&s0.arena, &self.arena);
                        lemma_seq_in_ok(&self.arena);
                        lemma_fields_in_ok(&self.arena, fields@);
                    }
                    expr = self.alloc_expr_node(ExprKind::Struct { path, fields }, span);
                },
                TokenKind::Dot => {
                    self.bump();
                    let field = match &tokens[self.pos].kind {
                        TokenKind::Ident { name } => {
                            let n = name.clone();
                            self.bump();
                            n
                        },
                        _ => {
                            self.error_here("expected field name after '.'");
                            return None;
                        },
                    };
                    if self.eat(TokenKind::LParen) {
                        let args = match self.parse_call_args() {
                            Some(a) => a,
                            None => return None,
                        };
                        let span = Span::merge(self.arena.expr(expr).span, tokens[self.pos - 1].span);
                        proof {
                            lemma_in_ok(&self.arena);
                            lemma_seq_in_ok(&self.arena);
                        }
                        expr = self.alloc_expr_node(
                            ExprKind::MethodCall { receiver: expr, method: field, args },
                            span,
                        );
                    } else {
                        let span = Span::merge(self.arena.expr(expr).span, tokens[self.pos - 1].span);
                        proof {
                            lemma_in_ok(&self.arena);
                        }
                        expr = self.alloc_expr_node(ExprKind::Field { base: expr, field }, span);
                    }
                },
                TokenKind::LBracket => {
                    self.bump();
                    self.skip_layout();
                    let index = match self.parse_expr() {
                        Some(e) => e,
                        None => return None,
                    };
                    self.skip_layout();
                    if !self.expect(TokenKind::RBracket, "expected ']'") {
                        return None;
                    }
                    let span = Span::merge(self.arena.expr(expr).span, tokens[self.pos - 1].span);
                    proof {
                        lemma_in_ok(&self.arena);
                    }
                    expr = self.alloc_expr_node(ExprKind::Index { base: expr, index }, span);
                },
                _ => break,
            }
            proof {
                if self.arena.fits() {
                    assert(a_start.fits());
                    lemma_postfix_prefix(a_start.exprs(), self.arena.exprs(), x_start.0 as int, e0.0 as int);
                }
                if pf && self.arena.fits() {
                    lemma_pf_extend(t, p, n_ops, a_start.exprs(), self.arena.exprs(), x_start.0 as int, e0.0 as int);
                    assert(pf_op_at(t, p, n_ops + 1) == pf_op_end(t, q));
                    assert(pf_node(t, q, self.arena.exprs(), expr.0 as int, x_start.0 as int));
                    assert(pf_result(t, p, n_ops + 1, self.arena.exprs(), expr.0 as int, e0.0 as int));
                }
                n_ops = n_ops + 1;
            }
        }
        Some(expr)
    }

    /// Parses call arguments after `(` up to and including `)`.
    fn parse_call_args(&mut self) -> (r: Option<Vec<ExprId>>)
        requires
            old(self).wf(),
        ensures
            step(&*old(self), &*final(self)),
            r matches Some(v) ==> exprs_in(&final(self).arena, v@),
            r is None ==> old(self).handler.error_count() < final(self).handler.error_count(),
            args_end(old(self).tokens@, old(self).pos as int) >= 0 ==> (r matches Some(v) && final(self).pos == args_end(
                old(self).tokens@,
                old(self).pos as int,
            ) && final(self).handler == old(self).handler && (final(self).arena.fits() ==> args_denote(
                old(self).tokens@,
                old(self).pos as int,
                final(self).arena.exprs(),
                v@,
            ))),
        decreases old(self).remaining(), 20nat,
    {
        proof {
            lemma_skip_nl_idem(old(self).tokens@, old(self).pos as int);
            lemma_skip_nl_idem(old(self).tokens@, skip_nl(old(self).tokens@, old(self).pos as int) + 1);
        }
        self.skip_layout();
        let mut args: Vec<ExprId> = Vec::new();
        if !self.eat(TokenKind::RParen) {
            loop
                invariant_except_break
                    args_end(old(self).tokens@, old(self).pos as int) >= 0 ==> (self.handler == old(self).handler
                        && args@.len() == 0 && self.pos == skip_nl(old(self).tokens@, old(self).pos as int)),
                invariant
                    step(&*old(self), &*self),
                    exprs_in(&self.arena, args@),
                    args@.len() > 0 ==> old(self).pos < self.pos,
                    !(old(self).tokens@[skip_nl(old(self).tokens@, old(self).pos as int)].kind is RParen),
                ensures
                    step(&*old(self), &*self),
                    exprs_in(&self.arena, args@),
                    args_end(old(self).tokens@, old(self).pos as int) >= 0 ==> (self.handler == old(self).handler
                        && args@.len() == 1 && self.pos == args_end(old(self).tokens@, old(self).pos as int) && (
                    self.arena.fits() ==> operand_denotes(
                        old(self).tokens@,
                        old(self).pos as int,
                        self.arena.exprs(),
                        args@[0].0 as int,
                    ))),
                decreases self.remaining(),
            {
                let ghost before = *self;
                let e = match self.parse_expr() {
                    Some(e) => e,
                    None => return None,
                };
                proof {
                    lemma_seq_in_mono(&before.arena, &self.arena);
                }
                let ghost old_args = args@;
                args.push(e);
                assert(args@ == old_args.push(e));
                self.skip_layout();
                if self.eat(TokenKind::RParen) {
                    break;
                }
                if !self.eat(TokenKind::Comma) {
                    self.error_here("expected ',' or ')'");
                    return None;
                }
            }
        }
        Some(args)
    }
}

} // verus!
