//! An indented dump of AST nodes, one field per line.

use vstd::prelude::*;

use crate::ast::arena::{
    exprs_ok, expr_ok, items_ok, item_ok, pats_ok, pat_ok, stmts_ok, stmt_ok, tys_ok, ty_ok, Arena,
};
use crate::ast::expr::{BinaryOp, ExprKind, FieldExpr, Kwarg, LambdaParam, Mutability as ExprMutability, UnaryOp};
use crate::ast::item::{
    Abi, Attribute, ExternItem, FieldDef, GenericParam, ImplItem, InterfaceItem, ItemKind, Param, Variant,
    VariantFields,
};
use crate::ast::literal::Literal;
use crate::ast::pat::{Mutability as PatMutability, PatField, PatKind};
use crate::ast::path::Path;
use crate::ast::stmt::{ElifArm, MatchArm, StmtKind};
use crate::ast::ty::{Mutability as TyMutability, TyKind};
use crate::ast::Module;
use crate::ids::{ExprId, ItemId, PatId, StmtId, TyId};
use crate::text::{debug_str_text, dec, dec_int, push_char, push_debug_str, push_dec, push_int, push_str};

verus! {

// ---- leaf texts ------------------------------------------------------------------

/// The string that `String::from_utf8_lossy` makes of `b`: its valid UTF-8
/// sequences decoded, each invalid one replaced by U+FFFD.
pub uninterp spec fn lossy_text(b: Seq<u8>) -> Seq<char>;

/// `String::from_utf8_lossy(b)`, owned.
#[verifier::external_body]
fn lossy_string(b: &[u8]) -> (s: String)
    ensures
        s@ == lossy_text(b@),
{
    String::from_utf8_lossy(b).into_owned()
}

pub open spec fn literal_text(lit: Literal) -> Seq<char> {
    match lit {
        Literal::Int(n) => dec_int(n as int),
        Literal::Float(x) => x@,
        Literal::String(s) => debug_str_text(s@),
        Literal::Bytes(b) => "b"@ + debug_str_text(lossy_text(b@)),
        Literal::Bool(b) => if b { "true"@ } else { "false"@ },
        Literal::Char(c) => seq!['\'', c, '\''],
        Literal::NoneValue => "None"@,
    }
}

pub open spec fn unary_op_text(op: UnaryOp) -> Seq<char> {
    match op {
        UnaryOp::Not => "not"@,
        UnaryOp::Neg => "-"@,
        UnaryOp::Pos => "+"@,
        UnaryOp::BitNot => "~"@,
    }
}

pub open spec fn binary_op_text(op: BinaryOp) -> Seq<char> {
    match op {
        BinaryOp::Add => "+"@,
        BinaryOp::Sub => "-"@,
        BinaryOp::Mul => "*"@,
        BinaryOp::Div => "/"@,
        BinaryOp::Mod => "%"@,
        BinaryOp::FloorDiv => "//"@,
        BinaryOp::Pow => "**"@,
        BinaryOp::Eq => "=="@,
        BinaryOp::NotEq => "!="@,
        BinaryOp::Lt => "<"@,
        BinaryOp::LtEq => "<="@,
        BinaryOp::Gt => ">"@,
        BinaryOp::GtEq => ">="@,
        BinaryOp::And => "and"@,
        BinaryOp::Or => "or"@,
        BinaryOp::BitAnd => "&"@,
        BinaryOp::BitOr => "|"@,
        BinaryOp::BitXor => "^"@,
        BinaryOp::Shl => "<<"@,
        BinaryOp::Shr => ">>"@,
        BinaryOp::Is => "is"@,
        BinaryOp::In => "in"@,
    }
}

pub open spec fn expr_mut_text(m: ExprMutability) -> Seq<char> {
    match m {
        ExprMutability::Imm => "imm"@,
        ExprMutability::Mut => "mut"@,
    }
}

pub open spec fn pat_mut_text(m: PatMutability) -> Seq<char> {
    match m {
        PatMutability::Imm => "imm"@,
        PatMutability::Mut => "mut"@,
    }
}

pub open spec fn ty_mut_text(m: TyMutability) -> Seq<char> {
    match m {
        TyMutability::Imm => "imm"@,
        TyMutability::Mut => "mut"@,
    }
}

pub open spec fn abi_text(abi: Abi) -> Seq<char> {
    match abi {
        Abi::C => "C"@,
        Abi::RPython => "rpython"@,
        Abi::Other(s) => s@,
    }
}

/// A segment of a path: its identifier, and the count of its type
/// arguments if it has any.
pub open spec fn segment_text(p: Path, i: int) -> Seq<char> {
    p.segments@[i].ident@ + if p.segments@[i].args@.len() > 0 {
        "["@ + dec(p.segments@[i].args@.len()) + " type args]"@
    } else {
        Seq::empty()
    }
}

/// The segments of a path before `n`, separated by dots.
pub open spec fn path_prefix_text(p: Path, n: int) -> Seq<char>
    decreases n,
{
    if n <= 0 {
        Seq::empty()
    } else if n == 1 {
        segment_text(p, 0)
    } else {
        path_prefix_text(p, n - 1) + "."@ + segment_text(p, n - 1)
    }
}

pub open spec fn path_text(p: Path) -> Seq<char> {
    path_prefix_text(p, p.segments@.len() as int)
}

/// `{:?}` of an optional type id.
pub open spec fn opt_ty_debug(t: Option<TyId>) -> Seq<char> {
    match t {
        Some(t) => "Some(TyId("@ + dec(t.0 as nat) + "))"@,
        None => "None"@,
    }
}

// ---- lines -------------------------------------------------------------------------

/// Two spaces per level of indentation.
pub open spec fn spaces(ind: nat) -> Seq<char> {
    Seq::new(2 * ind, |_i: int| ' ')
}

/// A line at indentation `ind`.
pub open spec fn line(ind: nat, s: Seq<char>) -> Seq<char> {
    spaces(ind) + s + "\n"@
}

/// A `key: value` line.
pub open spec fn kv(ind: nat, k: Seq<char>, v: Seq<char>) -> Seq<char> {
    line(ind, k + ": "@ + v)
}

/// A line opening a node: `label @id {`.
pub open spec fn open_line(ind: nat, label: Seq<char>, id: u32) -> Seq<char> {
    line(ind, label + " @"@ + dec(id as nat) + " {"@)
}

pub open spec fn vis_text(is_pub: bool) -> Seq<char> {
    if is_pub { "pub"@ } else { "private"@ }
}

pub open spec fn attrs_lines(ind: nat, s: Seq<Attribute>) -> Seq<char> {
    if s.len() == 0 {
        Seq::empty()
    } else {
        line(ind, "attrs ["@) + attr_list(ind + 1, s) + line(ind, "]"@)
    }
}

pub open spec fn attr_list(ind: nat, s: Seq<Attribute>) -> Seq<char>
    decreases s.len(),
{
    if s.len() == 0 {
        Seq::empty()
    } else {
        attr_list(ind, s.drop_last()) + line(ind, "@"@ + s.last().name@ + "(...)"@)
    }
}

pub open spec fn generics_lines(ind: nat, s: Seq<GenericParam>) -> Seq<char> {
    if s.len() == 0 {
        Seq::empty()
    } else {
        line(ind, "generics ["@) + generic_list(ind + 1, s) + line(ind, "]"@)
    }
}

pub open spec fn generic_list(ind: nat, s: Seq<GenericParam>) -> Seq<char>
    decreases s.len(),
{
    if s.len() == 0 {
        Seq::empty()
    } else {
        generic_list(ind, s.drop_last()) + line(ind, s.last().name@)
    }
}

pub open spec fn params_lines(ind: nat, s: Seq<Param>) -> Seq<char> {
    line(ind, "params ["@) + param_list(ind + 1, s) + line(ind, "]"@)
}

pub open spec fn param_list(ind: nat, s: Seq<Param>) -> Seq<char>
    decreases s.len(),
{
    if s.len() == 0 {
        Seq::empty()
    } else {
        param_list(ind, s.drop_last()) + line(ind, s.last().name@ + ": "@ + opt_ty_debug(s.last().ty))
    }
}

pub open spec fn lambda_param_list(ind: nat, s: Seq<LambdaParam>) -> Seq<char>
    decreases s.len(),
{
    if s.len() == 0 {
        Seq::empty()
    } else {
        lambda_param_list(ind, s.drop_last()) + line(ind, s.last().name@ + ": "@ + opt_ty_debug(s.last().ty))
    }
}

pub open spec fn extern_list(ind: nat, s: Seq<ExternItem>) -> Seq<char>
    decreases s.len(),
{
    if s.len() == 0 {
        Seq::empty()
    } else {
        extern_list(ind, s.drop_last()) + line(
            ind,
            match s.last() {
                ExternItem::Function { name, .. } => "extern fn "@ + name@,
                ExternItem::Static { name, .. } => "extern static "@ + name@,
            },
        )
    }
}


// ---- nodes ----------------------------------------------------------------------------

/// The lines of expression `id` under `label` at indentation `ind`.
pub open spec fn expr_text(a: &Arena, label: Seq<char>, id: ExprId, ind: nat) -> Seq<char>
    decreases a.expr_rank(id.0 as int) + 1, 0nat, 0nat,
    when a.wf() && id.0 < a.exprs().len()
{
    open_line(ind, label, id.0) + expr_body(a, a.exprs()[id.0 as int].kind, ind + 1, a.expr_rank(id.0 as int)) + line(ind, "}"@)
}

/// The field lines of a node of kind `k` of rank `r`.
pub open spec fn expr_body(a: &Arena, k: ExprKind, inner: nat, r: nat) -> Seq<char>
    decreases r, 5nat, 0nat,
    when a.wf() && crate::ast::arena::expr_kind_ok(a, k, r)
{
    match k {
        ExprKind::Literal(lit) => kv(inner, "kind"@, "Literal"@) + kv(inner, "value"@, literal_text(lit)),
        ExprKind::Path(p) => kv(inner, "kind"@, "Path"@) + kv(inner, "path"@, path_text(p)),
        ExprKind::Call { func, args, kwargs } => kv(inner, "kind"@, "Call"@) + expr_text(a, "func"@, func, inner)
            + line(inner, "args ["@) + exprs_list(a, args@, inner + 1, r) + line(inner, "]"@) + if kwargs@.len() > 0 {
            line(inner, "kwargs ["@) + kwargs_list(a, kwargs@, inner + 1, r) + line(inner, "]"@)
        } else {
            Seq::empty()
        },
        ExprKind::MethodCall { receiver, method, args } => kv(inner, "kind"@, "MethodCall"@) + expr_text(
            a,
            "receiver"@,
            receiver,
            inner,
        ) + kv(inner, "method"@, method@) + line(inner, "args ["@) + exprs_list(a, args@, inner + 1, r) + line(
            inner,
            "]"@,
        ),
        ExprKind::Field { base, field } => kv(inner, "kind"@, "Field"@) + expr_text(a, "base"@, base, inner) + kv(
            inner,
            "field"@,
            field@,
        ),
        ExprKind::Index { base, index } => kv(inner, "kind"@, "Index"@) + expr_text(a, "base"@, base, inner)
            + expr_text(a, "index"@, index, inner),
        ExprKind::Unary { op, operand } => kv(inner, "kind"@, "Unary"@) + kv(inner, "op"@, unary_op_text(op))
            + expr_text(a, "operand"@, operand, inner),
        ExprKind::Binary { op, left, right } => kv(inner, "kind"@, "Binary"@) + kv(inner, "op"@, binary_op_text(op))
            + expr_text(a, "left"@, left, inner) + expr_text(a, "right"@, right, inner),
        ExprKind::Tuple(elems) => kv(inner, "kind"@, "Tuple"@) + line(inner, "elems ["@) + exprs_list(
            a,
            elems@,
            inner + 1,
            r,
        ) + line(inner, "]"@),
        ExprKind::List(elems) => kv(inner, "kind"@, "List"@) + line(inner, "elems ["@) + exprs_list(
            a,
            elems@,
            inner + 1,
            r,
        ) + line(inner, "]"@),
        ExprKind::Struct { path, fields } => kv(inner, "kind"@, "Struct"@) + kv(inner, "path"@, path_text(path))
            + line(inner, "fields ["@) + field_exprs_list(a, fields@, inner + 1, r) + line(inner, "]"@),
        ExprKind::If { test, then, else_branch } => kv(inner, "kind"@, "If"@) + expr_text(a, "test"@, test, inner)
            + expr_text(a, "then"@, then, inner) + expr_text(a, "else"@, else_branch, inner),
        ExprKind::Block(stmts) => kv(inner, "kind"@, "Block"@) + stmt_block(a, "stmts"@, stmts@, inner, r),
        ExprKind::Lambda { params, body } => kv(inner, "kind"@, "Lambda"@) + line(inner, "params ["@)
            + lambda_param_list(inner + 1, params@) + line(inner, "]"@) + expr_text(a, "body"@, body, inner),
        ExprKind::Cast { expr, ty } => kv(inner, "kind"@, "Cast"@) + expr_text(a, "expr"@, expr, inner) + ty_text(
            a,
            "ty"@,
            ty,
            inner,
        ),
        ExprKind::Ref { mutability, expr } => kv(inner, "kind"@, "Ref"@) + kv(inner, "mut"@, expr_mut_text(mutability))
            + expr_text(a, "expr"@, expr, inner),
        ExprKind::Deref(e) => kv(inner, "kind"@, "Deref"@) + expr_text(a, "expr"@, e, inner),
    }
}

/// The lines of statement `id` at indentation `ind`.
pub open spec fn stmt_text(a: &Arena, id: StmtId, ind: nat) -> Seq<char>
    decreases a.stmt_rank(id.0 as int) + 1, 0nat, 0nat,
    when a.wf() && id.0 < a.stmts().len()
{
    open_line(ind, "Stmt"@, id.0) + stmt_body(a, a.stmts()[id.0 as int].kind, ind + 1, a.stmt_rank(id.0 as int)) + line(ind, "}"@)
}

/// The field lines of a node of kind `k` of rank `r`.
pub open spec fn stmt_body(a: &Arena, k: StmtKind, inner: nat, r: nat) -> Seq<char>
    decreases r, 5nat, 0nat,
    when a.wf() && crate::ast::arena::stmt_kind_ok(a, k, r)
{
    match k {
        StmtKind::Expr(e) => kv(inner, "kind"@, "Expr"@) + expr_text(a, "expr"@, e, inner),
        StmtKind::Assign { targets, value } => kv(inner, "kind"@, "Assign"@) + line(inner, "targets ["@) + pats_list(
            a,
            targets@,
            inner + 1,
            r,
        ) + line(inner, "]"@) + expr_text(a, "value"@, value, inner),
        StmtKind::AnnAssign { target, ty, value } => kv(inner, "kind"@, "AnnAssign"@) + pat_text(a, target, inner)
            + ty_text(a, "ty"@, ty, inner) + match value {
            Some(v) => expr_text(a, "value"@, v, inner),
            None => Seq::empty(),
        },
        StmtKind::Return(e) => kv(inner, "kind"@, "Return"@) + match e {
            Some(v) => expr_text(a, "value"@, v, inner),
            None => Seq::empty(),
        },
        StmtKind::Raise(e) => kv(inner, "kind"@, "Raise"@) + expr_text(a, "exc"@, e, inner),
        StmtKind::Assert { test, msg } => kv(inner, "kind"@, "Assert"@) + expr_text(a, "test"@, test, inner) + match msg {
            Some(m) => expr_text(a, "msg"@, m, inner),
            None => Seq::empty(),
        },
        StmtKind::Pass => kv(inner, "kind"@, "Pass"@),
        StmtKind::Break(l) => kv(inner, "kind"@, "Break"@) + match l {
            Some(l) => kv(inner, "label"@, l.0@),
            None => Seq::empty(),
        },
        StmtKind::Continue(l) => kv(inner, "kind"@, "Continue"@) + match l {
            Some(l) => kv(inner, "label"@, l.0@),
            None => Seq::empty(),
        },
        StmtKind::While { test, body } => kv(inner, "kind"@, "While"@) + expr_text(a, "test"@, test, inner)
            + stmt_block(a, "body"@, body@, inner, r),
        StmtKind::For { pat, iter, body } => kv(inner, "kind"@, "For"@) + pat_text(a, pat, inner) + expr_text(
            a,
            "iter"@,
            iter,
            inner,
        ) + stmt_block(a, "body"@, body@, inner, r),
        StmtKind::If { test, then_body, elifs, else_body } => kv(inner, "kind"@, "If"@) + expr_text(
            a,
            "test"@,
            test,
            inner,
        ) + stmt_block(a, "then"@, then_body@, inner, r) + elifs_list(a, elifs@, inner, r) + match else_body {
            Some(b) => stmt_block(a, "else"@, b@, inner, r),
            None => Seq::empty(),
        },
        StmtKind::Match { scrutinee, arms } => kv(inner, "kind"@, "Match"@) + expr_text(
            a,
            "scrutinee"@,
            scrutinee,
            inner,
        ) + line(inner, "arms ["@) + arms_list(a, arms@, inner + 1, r) + line(inner, "]"@),
    }
}

/// The lines of pattern `id` at indentation `ind`.
pub open spec fn pat_text(a: &Arena, id: PatId, ind: nat) -> Seq<char>
    decreases a.pat_rank(id.0 as int) + 1, 0nat, 0nat,
    when a.wf() && id.0 < a.pats().len()
{
    open_line(ind, "Pat"@, id.0) + pat_body(a, a.pats()[id.0 as int].kind, ind + 1, a.pat_rank(id.0 as int)) + line(ind, "}"@)
}

/// The field lines of a node of kind `k` of rank `r`.
pub open spec fn pat_body(a: &Arena, k: PatKind, inner: nat, r: nat) -> Seq<char>
    decreases r, 5nat, 0nat,
    when a.wf() && crate::ast::arena::pat_kind_ok(a, k, r)
{
    match k {
        PatKind::Wild => kv(inner, "kind"@, "Wild"@),
        PatKind::Ident { name, mutability, subpat } => kv(inner, "kind"@, "Ident"@) + kv(inner, "name"@, name@) + kv(
            inner,
            "mut"@,
            pat_mut_text(mutability),
        ) + match subpat {
            Some(sp) => pat_text(a, sp, inner),
            None => Seq::empty(),
        },
        PatKind::Literal(lit) => kv(inner, "kind"@, "Literal"@) + kv(inner, "value"@, literal_text(lit)),
        PatKind::Tuple(ps) => kv(inner, "kind"@, "Tuple"@) + line(inner, "pats ["@) + pats_list(a, ps@, inner + 1, r)
            + line(inner, "]"@),
        PatKind::Struct { path, fields } => kv(inner, "kind"@, "Struct"@) + kv(inner, "path"@, path_text(path)) + line(
            inner,
            "fields ["@,
        ) + pat_fields_list(a, fields@, inner + 1, r) + line(inner, "]"@),
        PatKind::Enum { path, variant, subpats } => kv(inner, "kind"@, "Enum"@) + kv(inner, "path"@, path_text(path))
            + kv(inner, "variant"@, variant@) + line(inner, "subpats ["@) + pats_list(a, subpats@, inner + 1, r) + line(
            inner,
            "]"@,
        ),
        PatKind::Or(ps) => kv(inner, "kind"@, "Or"@) + line(inner, "pats ["@) + pats_list(a, ps@, inner + 1, r) + line(
            inner,
            "]"@,
        ),
    }
}

/// The lines of type `id` under `label` at indentation `ind`.
pub open spec fn ty_text(a: &Arena, label: Seq<char>, id: TyId, ind: nat) -> Seq<char>
    decreases a.ty_rank(id.0 as int) + 1, 0nat, 0nat,
    when a.wf() && id.0 < a.tys().len()
{
    open_line(ind, label, id.0) + ty_body(a, a.tys()[id.0 as int].kind, ind + 1, a.ty_rank(id.0 as int)) + line(ind, "}"@)
}

/// The field lines of a node of kind `k` of rank `r`.
pub open spec fn ty_body(a: &Arena, k: TyKind, inner: nat, r: nat) -> Seq<char>
    decreases r, 5nat, 0nat,
    when a.wf() && crate::ast::arena::ty_kind_ok(a, k, r)
{
    match k {
        TyKind::Path(p) => kv(inner, "kind"@, "Path"@) + kv(inner, "path"@, path_text(p)),
        TyKind::Tuple(elems) => kv(inner, "kind"@, "Tuple"@) + line(inner, "elems ["@) + tys_list(a, elems@, inner + 1, r)
            + line(inner, "]"@),
        TyKind::Array { elem, len } => kv(inner, "kind"@, "Array"@) + ty_text(a, "ty"@, elem, inner) + match len {
            Some(n) => kv(inner, "len"@, dec(n as nat)),
            None => Seq::empty(),
        },
        TyKind::Slice { elem } => kv(inner, "kind"@, "Slice"@) + ty_text(a, "ty"@, elem, inner),
        TyKind::Ref { mutability, inner: t } => kv(inner, "kind"@, "Ref"@) + kv(inner, "mut"@, ty_mut_text(mutability))
            + ty_text(a, "ty"@, t, inner),
        TyKind::Fn { params, ret } => kv(inner, "kind"@, "Fn"@) + line(inner, "params ["@) + tys_list(
            a,
            params@,
            inner + 1,
            r,
        ) + line(inner, "]"@) + match ret {
            Some(t) => ty_text(a, "ret"@, t, inner),
            None => Seq::empty(),
        },
        TyKind::GenericParam { name } => kv(inner, "kind"@, "GenericParam"@) + kv(inner, "name"@, name@),
    }
}

/// The lines of item `id` at indentation `ind`.
pub open spec fn item_text(a: &Arena, id: ItemId, ind: nat) -> Seq<char>
    decreases a.item_rank(id.0 as int) + 1, 0nat, 0nat,
    when a.wf() && id.0 < a.items().len()
{
    open_line(ind, "Item"@, id.0) + item_body(a, a.items()[id.0 as int].kind, ind + 1, a.item_rank(id.0 as int)) + line(ind, "}"@)
}

/// The field lines of a node of kind `k` of rank `r`.
pub open spec fn item_body(a: &Arena, k: ItemKind, inner: nat, r: nat) -> Seq<char>
    decreases r, 5nat, 0nat,
    when a.wf() && crate::ast::arena::item_kind_ok(a, k, r)
{
    match k {
        ItemKind::Function { name, generics, params, ret_ty, body, is_pub, attrs } => attrs_lines(inner, attrs@) + kv(
            inner,
            "vis"@,
            vis_text(is_pub),
        ) + kv(inner, "kind"@, "Function"@) + kv(inner, "name"@, name@) + generics_lines(inner, generics@)
            + params_lines(inner, params@) + match ret_ty {
            Some(t) => ty_text(a, "ret"@, t, inner),
            None => Seq::empty(),
        } + stmt_block(a, "body"@, body@, inner, r),
        ItemKind::Class { name, generics, bases, body, is_pub, attrs } => attrs_lines(inner, attrs@) + kv(
            inner,
            "vis"@,
            vis_text(is_pub),
        ) + kv(inner, "kind"@, "Class"@) + kv(inner, "name"@, name@) + generics_lines(inner, generics@) + line(
            inner,
            "bases ["@,
        ) + tys_list(a, bases@, inner + 1, r) + line(inner, "]"@) + line(inner, "body ["@) + items_list(
            a,
            body@,
            inner + 1,
            r,
        ) + line(inner, "]"@),
        ItemKind::Struct { name, generics, fields, is_pub, attrs } => attrs_lines(inner, attrs@) + kv(
            inner,
            "vis"@,
            vis_text(is_pub),
        ) + kv(inner, "kind"@, "Struct"@) + kv(inner, "name"@, name@) + generics_lines(inner, generics@)
            + field_defs_lines(a, fields@, inner, r),
        ItemKind::Enum { name, generics, variants, is_pub, attrs } => attrs_lines(inner, attrs@) + kv(
            inner,
            "vis"@,
            vis_text(is_pub),
        ) + kv(inner, "kind"@, "Enum"@) + kv(inner, "name"@, name@) + generics_lines(inner, generics@) + line(
            inner,
            "variants ["@,
        ) + variants_list(a, variants@, inner + 1, r) + line(inner, "]"@),
        ItemKind::Interface { name, generics, items, is_pub, attrs } => attrs_lines(inner, attrs@) + kv(
            inner,
            "vis"@,
            vis_text(is_pub),
        ) + kv(inner, "kind"@, "Interface"@) + kv(inner, "name"@, name@) + generics_lines(inner, generics@) + line(
            inner,
            "items ["@,
        ) + interface_list(a, items@, inner + 1, r) + line(inner, "]"@),
        ItemKind::Impl { generics, interface_ref, self_ty, items, attrs } => attrs_lines(inner, attrs@) + kv(
            inner,
            "kind"@,
            "Impl"@,
        ) + generics_lines(inner, generics@) + match interface_ref {
            Some(p) => kv(inner, "interface"@, path_text(p)),
            None => Seq::empty(),
        } + ty_text(a, "self_ty"@, self_ty, inner) + line(inner, "items ["@) + impl_list(a, items@, inner + 1, r)
            + line(inner, "]"@),
        ItemKind::Const { name, ty, value, is_pub } => kv(inner, "vis"@, vis_text(is_pub)) + kv(
            inner,
            "kind"@,
            "Const"@,
        ) + kv(inner, "name"@, name@) + ty_text(a, "ty"@, ty, inner) + expr_text(a, "value"@, value, inner),
        ItemKind::Import { path, alias } => kv(inner, "kind"@, "Import"@) + kv(inner, "path"@, path_text(path)) + match alias {
            Some(al) => kv(inner, "alias"@, al@),
            None => Seq::empty(),
        },
        ItemKind::ExternBlock { abi, items } => kv(inner, "kind"@, "ExternBlock"@) + kv(inner, "abi"@, abi_text(abi))
            + line(inner, "items ["@) + extern_list(inner + 1, items@) + line(inner, "]"@),
        ItemKind::Module { name, items } => kv(inner, "kind"@, "Module"@) + kv(inner, "name"@, name@) + line(
            inner,
            "items ["@,
        ) + items_list(a, items@, inner + 1, r) + line(inner, "]"@),
    }
}

// ---- lists of nodes ---------------------------------------------------------------------

pub open spec fn exprs_list(a: &Arena, s: Seq<ExprId>, ind: nat, r: nat) -> Seq<char>
    decreases r, 1nat, s.len(),
    when a.wf() && exprs_ok(a, s, r)
{
    if s.len() == 0 {
        Seq::empty()
    } else {
        proof {
            assert(expr_ok(a, s[s.len() - 1], r));
        }
        exprs_list(a, s.drop_last(), ind, r) + expr_text(a, "expr"@, s.last(), ind)
    }
}

pub open spec fn stmts_list(a: &Arena, s: Seq<StmtId>, ind: nat, r: nat) -> Seq<char>
    decreases r, 1nat, s.len(),
    when a.wf() && stmts_ok(a, s, r)
{
    if s.len() == 0 {
        Seq::empty()
    } else {
        proof {
            assert(stmt_ok(a, s[s.len() - 1], r));
        }
        stmts_list(a, s.drop_last(), ind, r) + stmt_text(a, s.last(), ind)
    }
}

pub open spec fn pats_list(a: &Arena, s: Seq<PatId>, ind: nat, r: nat) -> Seq<char>
    decreases r, 1nat, s.len(),
    when a.wf() && pats_ok(a, s, r)
{
    if s.len() == 0 {
        Seq::empty()
    } else {
        proof {
            assert(pat_ok(a, s[s.len() - 1], r));
        }
        pats_list(a, s.drop_last(), ind, r) + pat_text(a, s.last(), ind)
    }
}

pub open spec fn tys_list(a: &Arena, s: Seq<TyId>, ind: nat, r: nat) -> Seq<char>
    decreases r, 1nat, s.len(),
    when a.wf() && tys_ok(a, s, r)
{
    if s.len() == 0 {
        Seq::empty()
    } else {
        proof {
            assert(ty_ok(a, s[s.len() - 1], r));
        }
        tys_list(a, s.drop_last(), ind, r) + ty_text(a, "ty"@, s.last(), ind)
    }
}

pub open spec fn items_list(a: &Arena, s: Seq<ItemId>, ind: nat, r: nat) -> Seq<char>
    decreases r, 1nat, s.len(),
    when a.wf() && items_ok(a, s, r)
{
    if s.len() == 0 {
        Seq::empty()
    } else {
        proof {
            assert(item_ok(a, s[s.len() - 1], r));
        }
        items_list(a, s.drop_last(), ind, r) + item_text(a, s.last(), ind)
    }
}

pub open spec fn kwargs_list(a: &Arena, s: Seq<Kwarg>, ind: nat, r: nat) -> Seq<char>
    decreases r, 1nat, s.len(),
    when a.wf() && crate::ast::arena::kwargs_ok(a, s, r)
{
    if s.len() == 0 {
        Seq::empty()
    } else {
        kwargs_list(a, s.drop_last(), ind, r) + line(ind, s.last().name@ + " ="@) + expr_text(
            a,
            "expr"@,
            s.last().value,
            ind + 1,
        )
    }
}

pub open spec fn field_exprs_list(a: &Arena, s: Seq<FieldExpr>, ind: nat, r: nat) -> Seq<char>
    decreases r, 1nat, s.len(),
    when a.wf() && crate::ast::arena::field_exprs_ok(a, s, r)
{
    if s.len() == 0 {
        Seq::empty()
    } else {
        field_exprs_list(a, s.drop_last(), ind, r) + line(ind, s.last().name@ + ":"@) + expr_text(
            a,
            "expr"@,
            s.last().expr,
            ind + 1,
        )
    }
}

pub open spec fn pat_fields_list(a: &Arena, s: Seq<PatField>, ind: nat, r: nat) -> Seq<char>
    decreases r, 1nat, s.len(),
    when a.wf() && crate::ast::arena::pat_fields_ok(a, s, r)
{
    if s.len() == 0 {
        Seq::empty()
    } else {
        pat_fields_list(a, s.drop_last(), ind, r) + line(ind, s.last().name@ + ":"@) + pat_text(a, s.last().pat, ind + 1)
    }
}

pub open spec fn field_defs_list(a: &Arena, s: Seq<FieldDef>, ind: nat, r: nat) -> Seq<char>
    decreases r, 1nat, s.len(),
    when a.wf() && crate::ast::arena::field_defs_ok(a, s, r)
{
    if s.len() == 0 {
        Seq::empty()
    } else {
        field_defs_list(a, s.drop_last(), ind, r) + line(ind, s.last().name@ + ":"@) + ty_text(
            a,
            "ty"@,
            s.last().ty,
            ind + 1,
        )
    }
}

pub open spec fn stmt_block(a: &Arena, label: Seq<char>, s: Seq<StmtId>, ind: nat, r: nat) -> Seq<char>
    decreases r, 2nat, 0nat,
    when a.wf() && stmts_ok(a, s, r)
{
    line(ind, label + " ["@) + stmts_list(a, s, ind + 1, r) + line(ind, "]"@)
}

pub open spec fn field_defs_lines(a: &Arena, s: Seq<FieldDef>, ind: nat, r: nat) -> Seq<char>
    decreases r, 2nat, 0nat,
    when a.wf() && crate::ast::arena::field_defs_ok(a, s, r)
{
    line(ind, "fields ["@) + field_defs_list(a, s, ind + 1, r) + line(ind, "]"@)
}

pub open spec fn elifs_list(a: &Arena, s: Seq<ElifArm>, ind: nat, r: nat) -> Seq<char>
    decreases r, 3nat, s.len(),
    when a.wf() && crate::ast::arena::elifs_ok(a, s, r)
{
    if s.len() == 0 {
        Seq::empty()
    } else {
        proof {
            assert(expr_ok(a, s[s.len() - 1].test, r) && stmts_ok(a, s[s.len() - 1].body@, r));
        }
        elifs_list(a, s.drop_last(), ind, r) + elif_text(a, (s.len() - 1) as nat, s.last(), ind, r)
    }
}

pub open spec fn arms_list(a: &Arena, s: Seq<MatchArm>, ind: nat, r: nat) -> Seq<char>
    decreases r, 3nat, s.len(),
    when a.wf() && crate::ast::arena::arms_ok(a, s, r)
{
    if s.len() == 0 {
        Seq::empty()
    } else {
        arms_list(a, s.drop_last(), ind, r) + arm_text(a, s.last(), ind, r)
    }
}

proof fn lemma_arms_list_step(a: &Arena, s: Seq<MatchArm>, i: int, ind: nat, r: nat)
    requires
        a.wf(),
        crate::ast::arena::arms_ok(a, s, r),
        0 <= i < s.len(),
    ensures
        arms_list(a, s.subrange(0, i + 1), ind, r) == arms_list(a, s.subrange(0, i), ind, r) + arm_text(a, s[i], ind, r),
{
    let sub = s.subrange(0, i + 1);
    assert(sub.drop_last() =~= s.subrange(0, i));
    assert(sub.last() == s[i]);
    assert(crate::ast::arena::arms_ok(a, sub, r));
}

pub open spec fn interface_list(a: &Arena, s: Seq<InterfaceItem>, ind: nat, r: nat) -> Seq<char>
    decreases r, 3nat, s.len(),
    when a.wf() && crate::ast::arena::interface_items_ok(a, s, r)
{
    if s.len() == 0 {
        Seq::empty()
    } else {
        interface_list(a, s.drop_last(), ind, r) + interface_item_text(a, s.last(), ind, r)
    }
}

pub open spec fn impl_list(a: &Arena, s: Seq<ImplItem>, ind: nat, r: nat) -> Seq<char>
    decreases r, 3nat, s.len(),
    when a.wf() && crate::ast::arena::impl_items_ok(a, s, r)
{
    if s.len() == 0 {
        Seq::empty()
    } else {
        impl_list(a, s.drop_last(), ind, r) + impl_item_text(a, s.last(), ind, r)
    }
}

pub open spec fn variants_list(a: &Arena, s: Seq<Variant>, ind: nat, r: nat) -> Seq<char>
    decreases r, 4nat, s.len(),
    when a.wf() && crate::ast::arena::variants_ok(a, s, r)
{
    if s.len() == 0 {
        Seq::empty()
    } else {
        variants_list(a, s.drop_last(), ind, r) + variant_text(a, s.last(), ind, r)
    }
}


pub open spec fn elif_text(a: &Arena, i: nat, e: ElifArm, ind: nat, r: nat) -> Seq<char>
    decreases r, 3nat, 0nat,
    when a.wf() && expr_ok(a, e.test, r) && stmts_ok(a, e.body@, r)
{
    line(ind, "elif["@ + dec(i) + "] {"@) + expr_text(a, "test"@, e.test, ind + 1) + stmt_block(a, "body"@, e.body@, ind + 1, r)
        + line(ind, "}"@)
}

pub open spec fn arm_text(a: &Arena, it: MatchArm, ind: nat, r: nat) -> Seq<char>
    decreases r, 3nat, 0nat,
    when a.wf() && pat_ok(a, it.pat, r) && crate::ast::arena::opt_expr_ok(a, it.guard, r) && stmts_ok(a, it.body@, r)
{
    line(ind, "arm {"@) + pat_text(a, it.pat, ind + 1) + match it.guard {
        Some(g) => expr_text(a, "guard"@, g, ind + 1),
        None => Seq::empty(),
    } + stmt_block(a, "body"@, it.body@, ind + 1, r) + line(ind, "}"@)
}

pub open spec fn interface_item_text(a: &Arena, it: InterfaceItem, ind: nat, r: nat) -> Seq<char>
    decreases r, 3nat, 0nat,
    when a.wf() && crate::ast::arena::interface_item_ok(a, it, r)
{
    match it {
            InterfaceItem::Function { name, generics, params, ret_ty, default_body, .. } => line(
                ind,
                "fn "@ + name@ + "(...)"@,
            ) + generics_lines(ind + 1, generics@) + params_lines(ind + 1, params@) + match ret_ty {
                Some(t) => ty_text(a, "ret"@, t, ind + 1),
                None => Seq::empty(),
            } + match default_body {
                Some(b) => stmt_block(a, "default"@, b@, ind + 1, r),
                None => Seq::empty(),
            },
            InterfaceItem::Type { name, ty, .. } => line(ind, "type "@ + name@) + match ty {
                Some(t) => ty_text(a, "ty"@, t, ind),
                None => Seq::empty(),
            },
        }
}

pub open spec fn impl_item_text(a: &Arena, it: ImplItem, ind: nat, r: nat) -> Seq<char>
    decreases r, 3nat, 0nat,
    when a.wf() && crate::ast::arena::impl_item_ok(a, it, r)
{
    match it {
            ImplItem::Function { name, generics, params, ret_ty, body, .. } => line(ind, "fn "@ + name@ + "(...)"@)
                + generics_lines(ind + 1, generics@) + params_lines(ind + 1, params@) + match ret_ty {
                Some(t) => ty_text(a, "ret"@, t, ind + 1),
                None => Seq::empty(),
            } + stmt_block(a, "body"@, body@, ind + 1, r),
            ImplItem::Const { name, ty, value, .. } => line(ind, "const "@ + name@) + ty_text(a, "ty"@, ty, ind)
                + expr_text(a, "value"@, value, ind),
            ImplItem::Type { name, ty, .. } => line(ind, "type "@ + name@) + ty_text(a, "ty"@, ty, ind),
        }
}

pub open spec fn variant_text(a: &Arena, it: Variant, ind: nat, r: nat) -> Seq<char>
    decreases r, 4nat, 0nat,
    when a.wf() && crate::ast::arena::variant_fields_ok(a, it.fields, r)
{
    line(ind, it.name@ + " {"@) + match it.fields {
            VariantFields::Unit => kv(ind + 1, "fields"@, "Unit"@),
            VariantFields::Tuple(tys) => line(ind + 1, "tuple ["@) + tys_list(a, tys@, ind + 2, r) + line(ind + 1, "]"@),
            VariantFields::Struct(defs) => field_defs_lines(a, defs@, ind + 1, r),
        } + line(ind, "}"@)
}

/// The dump of a module: its items between `Module {` and `}`.
pub open spec fn module_text(a: &Arena, m: Module) -> Seq<char> {
    line(0, "Module {"@) + items_list(a, m.items@, 1, a.next_rank()) + line(0, "}"@)
}


// ---- the printer ------------------------------------------------------------------------

/// Enough room for the indentation of a dump `level` levels deep below
/// nodes of rank `r`.
pub open spec fn room(ind: nat, r: nat, level: nat) -> bool {
    ind + 16 * r + 2 * level + 16 <= usize::MAX
}

pub fn format_unary_op(op: UnaryOp) -> (s: &'static str)
    ensures
        s@ == unary_op_text(op),
{
    match op {
        UnaryOp::Not => "not",
        UnaryOp::Neg => "-",
        UnaryOp::Pos => "+",
        UnaryOp::BitNot => "~",
    }
}

pub fn format_binary_op(op: BinaryOp) -> (s: &'static str)
    ensures
        s@ == binary_op_text(op),
{
    match op {
        BinaryOp::Add => "+",
        BinaryOp::Sub => "-",
        BinaryOp::Mul => "*",
        BinaryOp::Div => "/",
        BinaryOp::Mod => "%",
        BinaryOp::FloorDiv => "//",
        BinaryOp::Pow => "**",
        BinaryOp::Eq => "==",
        BinaryOp::NotEq => "!=",
        BinaryOp::Lt => "<",
        BinaryOp::LtEq => "<=",
        BinaryOp::Gt => ">",
        BinaryOp::GtEq => ">=",
        BinaryOp::And => "and",
        BinaryOp::Or => "or",
        BinaryOp::BitAnd => "&",
        BinaryOp::BitOr => "|",
        BinaryOp::BitXor => "^",
        BinaryOp::Shl => "<<",
        BinaryOp::Shr => ">>",
        BinaryOp::Is => "is",
        BinaryOp::In => "in",
    }
}

pub fn format_expr_mut(m: ExprMutability) -> (s: &'static str)
    ensures
        s@ == expr_mut_text(m),
{
    match m {
        ExprMutability::Imm => "imm",
        ExprMutability::Mut => "mut",
    }
}

pub fn format_pat_mut(m: PatMutability) -> (s: &'static str)
    ensures
        s@ == pat_mut_text(m),
{
    match m {
        PatMutability::Imm => "imm",
        PatMutability::Mut => "mut",
    }
}

pub fn format_ty_mut(m: TyMutability) -> (s: &'static str)
    ensures
        s@ == ty_mut_text(m),
{
    match m {
        TyMutability::Imm => "imm",
        TyMutability::Mut => "mut",
    }
}

fn format_abi(abi: &Abi) -> (s: String)
    ensures
        s@ == abi_text(*abi),
{
    match abi {
        Abi::C => String::from_str("C"),
        Abi::RPython => String::from_str("rpython"),
        Abi::Other(s) => s.clone(),
    }
}

fn format_path(path: &Path) -> (s: String)
    ensures
        s@ == path_text(*path),
{
    let mut out = String::new();
    let mut i: usize = 0;
    while i < path.segments.len()
        invariant
            i <= path.segments@.len(),
            out@ == path_prefix_text(*path, i as int),
        decreases path.segments@.len() - i,
    {
        if i > 0 {
            push_char(&mut out, '.');
        }
        let seg = &path.segments[i];
        push_str(&mut out, seg.ident.as_str());
        if seg.args.len() > 0 {
            push_str(&mut out, "[");
            push_dec(&mut out, seg.args.len() as u128);
            push_str(&mut out, " type args]");
        }
        proof {
            if i > 0 {
                reveal_strlit(".");
            }
        }
        i = i + 1;
        assert(out@ =~= path_prefix_text(*path, i as int));
    }
    out
}

fn format_literal(lit: &Literal) -> (s: String)
    ensures
        s@ == literal_text(*lit),
{
    let mut out = String::new();
    match lit {
        Literal::Int(n) => push_int(&mut out, *n),
        Literal::Float(x) => push_str(&mut out, x.as_str()),
        Literal::String(s) => push_debug_str(&mut out, s.as_str()),
        Literal::Bytes(b) => {
            push_str(&mut out, "b");
            let text = lossy_string(b.as_slice());
            push_debug_str(&mut out, text.as_str());
        },
        Literal::Bool(b) => push_str(&mut out, if *b { "true" } else { "false" }),
        Literal::Char(c) => {
            push_char(&mut out, '\'');
            push_char(&mut out, *c);
            push_char(&mut out, '\'');
        },
        Literal::NoneValue => push_str(&mut out, "None"),
    }
    assert(out@ =~= literal_text(*lit));
    out
}

fn format_opt_ty(t: Option<TyId>) -> (s: String)
    ensures
        s@ == opt_ty_debug(t),
{
    let mut out = String::new();
    match t {
        Some(t) => {
            push_str(&mut out, "Some(TyId(");
            push_dec(&mut out, t.0 as u128);
            push_str(&mut out, "))");
        },
        None => push_str(&mut out, "None"),
    }
    assert(out@ =~= opt_ty_debug(t));
    out
}

/// Pretty-printer for AST nodes: an indented dump with one field per line.
pub struct AstPrinter<'a> {
    arena: &'a Arena,
    indent: usize,
    buf: String,
}

impl<'a> AstPrinter<'a> {
    pub closed spec fn spec_arena(&self) -> &Arena {
        self.arena
    }

    pub closed spec fn spec_indent(&self) -> nat {
        self.indent as nat
    }

    pub closed spec fn spec_buf(&self) -> Seq<char> {
        self.buf@
    }

    /// A printer over `arena` at indentation 0 with nothing printed.
    pub fn new(arena: &'a Arena) -> (p: AstPrinter<'a>)
        ensures
            p.spec_arena() == arena,
            p.spec_indent() == 0,
            p.spec_buf() == Seq::<char>::empty(),
    {
        AstPrinter { arena, indent: 0, buf: String::new() }
    }

    /// What was printed so far.
    pub fn into_string(self) -> (s: String)
        ensures
            s@ == self.spec_buf(),
    {
        self.buf
    }

    fn line(&mut self, s: &str)
        ensures
            final(self).spec_arena() == old(self).spec_arena(),
            final(self).spec_indent() == old(self).spec_indent(),
            final(self).spec_buf() == old(self).spec_buf() + line(old(self).spec_indent(), s@),
    {
        let ghost start = self.buf@;
        let mut i: usize = 0;
        while i < self.indent
            invariant
                i <= self.indent,
                self.arena == old(self).arena,
                self.indent == old(self).indent,
                start == old(self).buf@,
                self.buf@ == start + Seq::new(2 * i as nat, |_j: int| ' '),
            decreases self.indent - i,
        {
            push_str(&mut self.buf, "  ");
            proof {
                reveal_strlit("  ");
            }
            i = i + 1;
            assert(self.buf@ =~= start + Seq::new(2 * i as nat, |_j: int| ' '));
        }
        push_str(&mut self.buf, s);
        push_str(&mut self.buf, "\n");
        assert(self.buf@ =~= old(self).buf@ + line(old(self).indent as nat, s@));
    }

    fn kv(&mut self, key: &str, value: &str)
        ensures
            final(self).spec_arena() == old(self).spec_arena(),
            final(self).spec_indent() == old(self).spec_indent(),
            final(self).spec_buf() == old(self).spec_buf() + kv(old(self).spec_indent(), key@, value@),
    {
        let mut s = String::new();
        push_str(&mut s, key);
        push_str(&mut s, ": ");
        push_str(&mut s, value);
        self.line(s.as_str());
    }

    fn open_node(&mut self, label: &str, id: u32)
        ensures
            final(self).spec_arena() == old(self).spec_arena(),
            final(self).spec_indent() == old(self).spec_indent(),
            final(self).spec_buf() == old(self).spec_buf() + open_line(old(self).spec_indent(), label@, id),
    {
        let mut s = String::new();
        push_str(&mut s, label);
        push_str(&mut s, " @");
        push_dec(&mut s, id as u128);
        push_str(&mut s, " {");
        self.line(s.as_str());
    }

    fn bump(&mut self)
        requires
            old(self).spec_indent() < usize::MAX,
        ensures
            final(self).spec_arena() == old(self).spec_arena(),
            final(self).spec_indent() == old(self).spec_indent() + 1,
            final(self).spec_buf() == old(self).spec_buf(),
    {
        self.indent = self.indent + 1;
    }

    fn unbump(&mut self)
        requires
            old(self).spec_indent() > 0,
        ensures
            final(self).spec_arena() == old(self).spec_arena(),
            final(self).spec_indent() == old(self).spec_indent() - 1,
            final(self).spec_buf() == old(self).spec_buf(),
    {
        self.indent = self.indent - 1;
    }
}


impl<'a> AstPrinter<'a> {
    /// Prints type `id` under `label`.
    pub fn print_ty(&mut self, label: &str, id: TyId)
        requires
            old(self).spec_arena().wf(),
            id.0 < old(self).spec_arena().tys().len(),
            room(old(self).spec_indent(), old(self).spec_arena().ty_rank(id.0 as int), 6),
        ensures
            final(self).spec_arena() == old(self).spec_arena(),
            final(self).spec_indent() == old(self).spec_indent(),
            final(self).spec_buf() == old(self).spec_buf() + ty_text(old(self).spec_arena(), label@, id, old(self).spec_indent()),
        decreases old(self).spec_arena().ty_rank(id.0 as int) + 1, 0nat, 0nat,
    {
        let a = self.arena;
        let ghost r = a.ty_rank(id.0 as int);
        let ty = a.ty(id);
        assert(crate::ast::arena::ty_kind_ok(a, ty.kind, r));
        self.open_node(label, id.0);
        self.bump();
        self.print_ty_kind(&ty.kind, Ghost(r));
        self.unbump();
        self.line("}");
        assert(self.buf@ =~= old(self).buf@ + ty_text(a, label@, id, old(self).indent as nat));
    }

    fn print_ty_node(&mut self, id: TyId)
        requires
            old(self).spec_arena().wf(),
            id.0 < old(self).spec_arena().tys().len(),
            room(old(self).spec_indent(), old(self).spec_arena().ty_rank(id.0 as int), 6),
        ensures
            final(self).spec_arena() == old(self).spec_arena(),
            final(self).spec_indent() == old(self).spec_indent(),
            final(self).spec_buf() == old(self).spec_buf() + ty_text(old(self).spec_arena(), "ty"@, id, old(self).spec_indent()),
        decreases old(self).spec_arena().ty_rank(id.0 as int) + 1, 1nat, 0nat,
    {
        self.print_ty("ty", id);
    }

    fn print_ty_kind(&mut self, kind: &TyKind, Ghost(r): Ghost<nat>)
        requires
            old(self).spec_arena().wf(),
            crate::ast::arena::ty_kind_ok(old(self).spec_arena(), *kind, r),
            room(old(self).spec_indent(), r, 5),
            old(self).spec_indent() > 0,
        ensures
            final(self).spec_arena() == old(self).spec_arena(),
            final(self).spec_indent() == old(self).spec_indent(),
            final(self).spec_buf() == old(self).spec_buf() + ty_body(old(self).spec_arena(), *kind, old(self).spec_indent(), r),
        decreases r, 5nat, 0nat,
    {
        let a = self.arena;
        match kind {
            TyKind::Path(path) => {
                self.kv("kind", "Path");
                let t = format_path(path);
                self.kv("path", t.as_str());
                assert(self.buf@ =~= old(self).buf@ + ty_body(a, *kind, old(self).indent as nat, r));
            },
            TyKind::Tuple(elems) => {
                self.kv("kind", "Tuple");
                self.line("elems [");
                self.bump();
                self.print_ty_nodes(elems, Ghost(r));
                self.unbump();
                self.line("]");
                assert(self.buf@ =~= old(self).buf@ + ty_body(a, *kind, old(self).indent as nat, r));
            },
            TyKind::Array { elem, len } => {
                self.kv("kind", "Array");
                self.print_ty_node(*elem);
                if let Some(n) = len {
                    let mut t = String::new();
                    push_dec(&mut t, *n as u128);
                    self.kv("len", t.as_str());
                }
                assert(self.buf@ =~= old(self).buf@ + ty_body(a, *kind, old(self).indent as nat, r));
            },
            TyKind::Slice { elem } => {
                self.kv("kind", "Slice");
                self.print_ty_node(*elem);
                assert(self.buf@ =~= old(self).buf@ + ty_body(a, *kind, old(self).indent as nat, r));
            },
            TyKind::Ref { mutability, inner } => {
                self.kv("kind", "Ref");
                self.kv("mut", format_ty_mut(*mutability));
                self.print_ty_node(*inner);
                assert(self.buf@ =~= old(self).buf@ + ty_body(a, *kind, old(self).indent as nat, r));
            },
            TyKind::Fn { params, ret } => {
                self.kv("kind", "Fn");
                self.line("params [");
                self.bump();
                self.print_ty_nodes(params, Ghost(r));
                self.unbump();
                self.line("]");
                if let Some(t) = ret {
                    self.print_ty("ret", *t);
                }
                assert(self.buf@ =~= old(self).buf@ + ty_body(a, *kind, old(self).indent as nat, r));
            },
            TyKind::GenericParam { name } => {
                self.kv("kind", "GenericParam");
                self.kv("name", name.as_str());
                assert(self.buf@ =~= old(self).buf@ + ty_body(a, *kind, old(self).indent as nat, r));
            },
        }
        assert(self.buf@ =~= old(self).buf@ + ty_body(a, *kind, old(self).indent as nat, r));
    }

    fn print_ty_nodes(&mut self, tys: &Vec<TyId>, Ghost(r): Ghost<nat>)
        requires
            old(self).spec_arena().wf(),
            tys_ok(old(self).spec_arena(), tys@, r),
            room(old(self).spec_indent(), r, 1),
        ensures
            final(self).spec_arena() == old(self).spec_arena(),
            final(self).spec_indent() == old(self).spec_indent(),
            final(self).spec_buf() == old(self).spec_buf() + tys_list(old(self).spec_arena(), tys@, old(self).spec_indent(), r),
        decreases r, 1nat, tys@.len(),
    {
        let a = self.arena;
        let mut i: usize = 0;
        assert(tys@.subrange(0, 0) =~= Seq::<TyId>::empty());
        while i < tys.len()
            invariant
                i <= tys@.len(),
                self.arena == a,
                a.wf(),
                tys_ok(a, tys@, r),
                self.indent == old(self).indent,
                room(self.indent as nat, r, 1),
                self.buf@ == old(self).buf@ + tys_list(a, tys@.subrange(0, i as int), self.indent as nat, r),
            decreases tys@.len() - i,
        {
            assert(ty_ok(a, tys@[i as int], r));
            self.print_ty("ty", tys[i]);
            proof {
                let sub = tys@.subrange(0, i + 1);
                assert(sub.drop_last() =~= tys@.subrange(0, i as int));
                assert(tys_ok(a, sub, r));
                assert(sub[sub.len() - 1] == tys@[i as int]);
            }
            i = i + 1;
            assert(self.buf@ =~= old(self).buf@ + tys_list(a, tys@.subrange(0, i as int), self.indent as nat, r));
        }
        assert(tys@.subrange(0, tys@.len() as int) =~= tys@);
    }
}


impl<'a> AstPrinter<'a> {

    fn print_pat_nodes(&mut self, s: &Vec<PatId>, Ghost(r): Ghost<nat>)
        requires
            old(self).spec_arena().wf(),
            pats_ok(old(self).spec_arena(), s@, r),
            room(old(self).spec_indent(), r, 1),
        ensures
            final(self).spec_arena() == old(self).spec_arena(),
            final(self).spec_indent() == old(self).spec_indent(),
            final(self).spec_buf() == old(self).spec_buf() + pats_list(old(self).spec_arena(), s@, old(self).spec_indent(), r),
        decreases r, 1nat, s@.len(),
    {
        let a = self.arena;
        let mut i: usize = 0;
        while i < s.len()
            invariant
                i <= s@.len(),
                self.arena == a,
                a.wf(),
                pats_ok(a, s@, r),
                self.indent == old(self).indent,
                room(self.indent as nat, r, 1),
                self.buf@ == old(self).buf@ + pats_list(a, s@.subrange(0, i as int), self.indent as nat, r),
            decreases s@.len() - i,
        {
            assert(pat_ok(a, s@[i as int], r));
            self.print_pat(s[i]);
            proof {
                let sub = s@.subrange(0, i + 1);
                assert(sub.drop_last() =~= s@.subrange(0, i as int));
                assert(pats_ok(a, sub, r));
                assert(sub[sub.len() - 1] == s@[i as int]);
            }
            i = i + 1;
            assert(self.buf@ =~= old(self).buf@ + pats_list(a, s@.subrange(0, i as int), self.indent as nat, r));
        }
        assert(s@.subrange(0, s@.len() as int) =~= s@);
    }

    fn print_expr_nodes(&mut self, s: &Vec<ExprId>, Ghost(r): Ghost<nat>)
        requires
            old(self).spec_arena().wf(),
            exprs_ok(old(self).spec_arena(), s@, r),
            room(old(self).spec_indent(), r, 1),
        ensures
            final(self).spec_arena() == old(self).spec_arena(),
            final(self).spec_indent() == old(self).spec_indent(),
            final(self).spec_buf() == old(self).spec_buf() + exprs_list(old(self).spec_arena(), s@, old(self).spec_indent(), r),
        decreases r, 1nat, s@.len(),
    {
        let a = self.arena;
        let mut i: usize = 0;
        while i < s.len()
            invariant
                i <= s@.len(),
                self.arena == a,
                a.wf(),
                exprs_ok(a, s@, r),
                self.indent == old(self).indent,
                room(self.indent as nat, r, 1),
                self.buf@ == old(self).buf@ + exprs_list(a, s@.subrange(0, i as int), self.indent as nat, r),
            decreases s@.len() - i,
        {
            assert(expr_ok(a, s@[i as int], r));
            self.print_expr_node(s[i]);
            proof {
                let sub = s@.subrange(0, i + 1);
                assert(sub.drop_last() =~= s@.subrange(0, i as int));
                assert(exprs_ok(a, sub, r));
                assert(sub[sub.len() - 1] == s@[i as int]);
            }
            i = i + 1;
            assert(self.buf@ =~= old(self).buf@ + exprs_list(a, s@.subrange(0, i as int), self.indent as nat, r));
        }
        assert(s@.subrange(0, s@.len() as int) =~= s@);
    }

    fn print_stmt_nodes(&mut self, s: &Vec<StmtId>, Ghost(r): Ghost<nat>)
        requires
            old(self).spec_arena().wf(),
            stmts_ok(old(self).spec_arena(), s@, r),
            room(old(self).spec_indent(), r, 1),
        ensures
            final(self).spec_arena() == old(self).spec_arena(),
            final(self).spec_indent() == old(self).spec_indent(),
            final(self).spec_buf() == old(self).spec_buf() + stmts_list(old(self).spec_arena(), s@, old(self).spec_indent(), r),
        decreases r, 1nat, s@.len(),
    {
        let a = self.arena;
        let mut i: usize = 0;
        while i < s.len()
            invariant
                i <= s@.len(),
                self.arena == a,
                a.wf(),
                stmts_ok(a, s@, r),
                self.indent == old(self).indent,
                room(self.indent as nat, r, 1),
                self.buf@ == old(self).buf@ + stmts_list(a, s@.subrange(0, i as int), self.indent as nat, r),
            decreases s@.len() - i,
        {
            assert(stmt_ok(a, s@[i as int], r));
            self.print_stmt(s[i]);
            proof {
                let sub = s@.subrange(0, i + 1);
                assert(sub.drop_last() =~= s@.subrange(0, i as int));
                assert(stmts_ok(a, sub, r));
                assert(sub[sub.len() - 1] == s@[i as int]);
            }
            i = i + 1;
            assert(self.buf@ =~= old(self).buf@ + stmts_list(a, s@.subrange(0, i as int), self.indent as nat, r));
        }
        assert(s@.subrange(0, s@.len() as int) =~= s@);
    }

    fn print_item_nodes(&mut self, s: &Vec<ItemId>, Ghost(r): Ghost<nat>)
        requires
            old(self).spec_arena().wf(),
            items_ok(old(self).spec_arena(), s@, r),
            room(old(self).spec_indent(), r, 1),
        ensures
            final(self).spec_arena() == old(self).spec_arena(),
            final(self).spec_indent() == old(self).spec_indent(),
            final(self).spec_buf() == old(self).spec_buf() + items_list(old(self).spec_arena(), s@, old(self).spec_indent(), r),
        decreases r, 1nat, s@.len(),
    {
        let a = self.arena;
        let mut i: usize = 0;
        while i < s.len()
            invariant
                i <= s@.len(),
                self.arena == a,
                a.wf(),
                items_ok(a, s@, r),
                self.indent == old(self).indent,
                room(self.indent as nat, r, 1),
                self.buf@ == old(self).buf@ + items_list(a, s@.subrange(0, i as int), self.indent as nat, r),
            decreases s@.len() - i,
        {
            assert(item_ok(a, s@[i as int], r));
            self.print_item(s[i]);
            proof {
                let sub = s@.subrange(0, i + 1);
                assert(sub.drop_last() =~= s@.subrange(0, i as int));
                assert(items_ok(a, sub, r));
                assert(sub[sub.len() - 1] == s@[i as int]);
            }
            i = i + 1;
            assert(self.buf@ =~= old(self).buf@ + items_list(a, s@.subrange(0, i as int), self.indent as nat, r));
        }
        assert(s@.subrange(0, s@.len() as int) =~= s@);
    }
}

impl<'a> AstPrinter<'a> {

    fn print_kwargs(&mut self, s: &Vec<Kwarg>, Ghost(r): Ghost<nat>)
        requires
            old(self).spec_arena().wf(),
            crate::ast::arena::kwargs_ok(old(self).spec_arena(), s@, r),
            room(old(self).spec_indent(), r, 1),
        ensures
            final(self).spec_arena() == old(self).spec_arena(),
            final(self).spec_indent() == old(self).spec_indent(),
            final(self).spec_buf() == old(self).spec_buf() + kwargs_list(old(self).spec_arena(), s@, old(self).spec_indent(), r),
        decreases r, 1nat, s@.len(),
    {
        let a = self.arena;
        let mut i: usize = 0;
        while i < s.len()
            invariant
                i <= s@.len(),
                self.arena == a,
                a.wf(),
                crate::ast::arena::kwargs_ok(a, s@, r),
                self.indent == old(self).indent,
                room(self.indent as nat, r, 1),
                self.buf@ == old(self).buf@ + kwargs_list(a, s@.subrange(0, i as int), self.indent as nat, r),
            decreases s@.len() - i,
        {
            assert(expr_ok(a, s@[i as int].value, r));
            let e = &s[i];
            let mut t = String::new();
            push_str(&mut t, e.name.as_str());
            push_str(&mut t, " =");
            self.line(t.as_str());
            self.bump();
            self.print_expr_node(e.value);
            self.unbump();
            proof {
                let sub = s@.subrange(0, i + 1);
                assert(sub.drop_last() =~= s@.subrange(0, i as int));
                assert(sub[sub.len() - 1] == s@[i as int]);
            }
            i = i + 1;
            assert(self.buf@ =~= old(self).buf@ + kwargs_list(a, s@.subrange(0, i as int), self.indent as nat, r));
        }
        assert(s@.subrange(0, s@.len() as int) =~= s@);
    }

    fn print_field_exprs(&mut self, s: &Vec<FieldExpr>, Ghost(r): Ghost<nat>)
        requires
            old(self).spec_arena().wf(),
            crate::ast::arena::field_exprs_ok(old(self).spec_arena(), s@, r),
            room(old(self).spec_indent(), r, 1),
        ensures
            final(self).spec_arena() == old(self).spec_arena(),
            final(self).spec_indent() == old(self).spec_indent(),
            final(self).spec_buf() == old(self).spec_buf() + field_exprs_list(old(self).spec_arena(), s@, old(self).spec_indent(), r),
        decreases r, 1nat, s@.len(),
    {
        let a = self.arena;
        let mut i: usize = 0;
        while i < s.len()
            invariant
                i <= s@.len(),
                self.arena == a,
                a.wf(),
                crate::ast::arena::field_exprs_ok(a, s@, r),
                self.indent == old(self).indent,
                room(self.indent as nat, r, 1),
                self.buf@ == old(self).buf@ + field_exprs_list(a, s@.subrange(0, i as int), self.indent as nat, r),
            decreases s@.len() - i,
        {
            assert(expr_ok(a, s@[i as int].expr, r));
            let e = &s[i];
            let mut t = String::new();
            push_str(&mut t, e.name.as_str());
            push_str(&mut t, ":");
            self.line(t.as_str());
            self.bump();
            self.print_expr_node(e.expr);
            self.unbump();
            proof {
                let sub = s@.subrange(0, i + 1);
                assert(sub.drop_last() =~= s@.subrange(0, i as int));
                assert(sub[sub.len() - 1] == s@[i as int]);
            }
            i = i + 1;
            assert(self.buf@ =~= old(self).buf@ + field_exprs_list(a, s@.subrange(0, i as int), self.indent as nat, r));
        }
        assert(s@.subrange(0, s@.len() as int) =~= s@);
    }

    fn print_pat_fields(&mut self, s: &Vec<PatField>, Ghost(r): Ghost<nat>)
        requires
            old(self).spec_arena().wf(),
            crate::ast::arena::pat_fields_ok(old(self).spec_arena(), s@, r),
            room(old(self).spec_indent(), r, 1),
        ensures
            final(self).spec_arena() == old(self).spec_arena(),
            final(self).spec_indent() == old(self).spec_indent(),
            final(self).spec_buf() == old(self).spec_buf() + pat_fields_list(old(self).spec_arena(), s@, old(self).spec_indent(), r),
        decreases r, 1nat, s@.len(),
    {
        let a = self.arena;
        let mut i: usize = 0;
        while i < s.len()
            invariant
                i <= s@.len(),
                self.arena == a,
                a.wf(),
                crate::ast::arena::pat_fields_ok(a, s@, r),
                self.indent == old(self).indent,
                room(self.indent as nat, r, 1),
                self.buf@ == old(self).buf@ + pat_fields_list(a, s@.subrange(0, i as int), self.indent as nat, r),
            decreases s@.len() - i,
        {
            assert(pat_ok(a, s@[i as int].pat, r));
            let e = &s[i];
            let mut t = String::new();
            push_str(&mut t, e.name.as_str());
            push_str(&mut t, ":");
            self.line(t.as_str());
            self.bump();
            self.print_pat(e.pat);
            self.unbump();
            proof {
                let sub = s@.subrange(0, i + 1);
                assert(sub.drop_last() =~= s@.subrange(0, i as int));
                assert(sub[sub.len() - 1] == s@[i as int]);
            }
            i = i + 1;
            assert(self.buf@ =~= old(self).buf@ + pat_fields_list(a, s@.subrange(0, i as int), self.indent as nat, r));
        }
        assert(s@.subrange(0, s@.len() as int) =~= s@);
    }

    fn print_field_def_list(&mut self, s: &Vec<FieldDef>, Ghost(r): Ghost<nat>)
        requires
            old(self).spec_arena().wf(),
            crate::ast::arena::field_defs_ok(old(self).spec_arena(), s@, r),
            room(old(self).spec_indent(), r, 1),
        ensures
            final(self).spec_arena() == old(self).spec_arena(),
            final(self).spec_indent() == old(self).spec_indent(),
            final(self).spec_buf() == old(self).spec_buf() + field_defs_list(old(self).spec_arena(), s@, old(self).spec_indent(), r),
        decreases r, 1nat, s@.len(),
    {
        let a = self.arena;
        let mut i: usize = 0;
        while i < s.len()
            invariant
                i <= s@.len(),
                self.arena == a,
                a.wf(),
                crate::ast::arena::field_defs_ok(a, s@, r),
                self.indent == old(self).indent,
                room(self.indent as nat, r, 1),
                self.buf@ == old(self).buf@ + field_defs_list(a, s@.subrange(0, i as int), self.indent as nat, r),
            decreases s@.len() - i,
        {
            assert(ty_ok(a, s@[i as int].ty, r));
            let e = &s[i];
            let mut t = String::new();
            push_str(&mut t, e.name.as_str());
            push_str(&mut t, ":");
            self.line(t.as_str());
            self.bump();
            self.print_ty_node(e.ty);
            self.unbump();
            proof {
                let sub = s@.subrange(0, i + 1);
                assert(sub.drop_last() =~= s@.subrange(0, i as int));
                assert(sub[sub.len() - 1] == s@[i as int]);
            }
            i = i + 1;
            assert(self.buf@ =~= old(self).buf@ + field_defs_list(a, s@.subrange(0, i as int), self.indent as nat, r));
        }
        assert(s@.subrange(0, s@.len() as int) =~= s@);
    }
}

impl<'a> AstPrinter<'a> {
    fn print_attrs(&mut self, attrs: &Vec<Attribute>)
        requires
            old(self).spec_indent() < usize::MAX,
        ensures
            final(self).spec_arena() == old(self).spec_arena(),
            final(self).spec_indent() == old(self).spec_indent(),
            final(self).spec_buf() == old(self).spec_buf() + attrs_lines(old(self).spec_indent(), attrs@),
    {
        if attrs.len() == 0 {
            return;
        }
        let ghost ind = self.indent as nat;
        self.line("attrs [");
        let ghost s1 = self.buf@;
        let mut i: usize = 0;
        while i < attrs.len()
            invariant
                i <= attrs@.len(),
                self.arena == old(self).arena,
                self.indent == old(self).indent,
                self.indent < usize::MAX,
                ind == self.indent,
                self.buf@ == s1 + attr_list(ind + 1, attrs@.subrange(0, i as int)),
            decreases attrs@.len() - i,
        {
            let mut t = String::new();
            push_str(&mut t, "@");
            push_str(&mut t, attrs[i].name.as_str());
            push_str(&mut t, "(...)");
            self.line_at(t.as_str(), Ghost((ind + 1) as nat));
            proof {
                let sub = attrs@.subrange(0, i + 1);
                assert(sub.drop_last() =~= attrs@.subrange(0, i as int));
            }
            i = i + 1;
            assert(self.buf@ =~= s1 + attr_list(ind + 1, attrs@.subrange(0, i as int)));
        }
        assert(attrs@.subrange(0, attrs@.len() as int) =~= attrs@);
        self.line("]");
        assert(self.buf@ =~= old(self).buf@ + attrs_lines(ind, attrs@));
    }

    fn print_generics(&mut self, generics: &Vec<GenericParam>)
        requires
            old(self).spec_indent() < usize::MAX,
        ensures
            final(self).spec_arena() == old(self).spec_arena(),
            final(self).spec_indent() == old(self).spec_indent(),
            final(self).spec_buf() == old(self).spec_buf() + generics_lines(old(self).spec_indent(), generics@),
    {
        if generics.len() == 0 {
            return;
        }
        let ghost ind = self.indent as nat;
        self.line("generics [");
        let ghost s1 = self.buf@;
        let mut i: usize = 0;
        while i < generics.len()
            invariant
                i <= generics@.len(),
                self.arena == old(self).arena,
                self.indent == old(self).indent,
                self.indent < usize::MAX,
                ind == self.indent,
                self.buf@ == s1 + generic_list(ind + 1, generics@.subrange(0, i as int)),
            decreases generics@.len() - i,
        {
            self.line_at(generics[i].name.as_str(), Ghost((ind + 1) as nat));
            proof {
                let sub = generics@.subrange(0, i + 1);
                assert(sub.drop_last() =~= generics@.subrange(0, i as int));
            }
            i = i + 1;
            assert(self.buf@ =~= s1 + generic_list(ind + 1, generics@.subrange(0, i as int)));
        }
        assert(generics@.subrange(0, generics@.len() as int) =~= generics@);
        self.line("]");
        assert(self.buf@ =~= old(self).buf@ + generics_lines(ind, generics@));
    }

    fn print_params(&mut self, params: &Vec<Param>)
        requires
            old(self).spec_indent() < usize::MAX,
        ensures
            final(self).spec_arena() == old(self).spec_arena(),
            final(self).spec_indent() == old(self).spec_indent(),
            final(self).spec_buf() == old(self).spec_buf() + params_lines(old(self).spec_indent(), params@),
    {
        let ghost ind = self.indent as nat;
        self.line("params [");
        let ghost s1 = self.buf@;
        let mut i: usize = 0;
        while i < params.len()
            invariant
                i <= params@.len(),
                self.arena == old(self).arena,
                self.indent == old(self).indent,
                self.indent < usize::MAX,
                ind == self.indent,
                self.buf@ == s1 + param_list(ind + 1, params@.subrange(0, i as int)),
            decreases params@.len() - i,
        {
            let mut t = String::new();
            push_str(&mut t, params[i].name.as_str());
            push_str(&mut t, ": ");
            let d = format_opt_ty(params[i].ty);
            push_str(&mut t, d.as_str());
            self.line_at(t.as_str(), Ghost((ind + 1) as nat));
            proof {
                let sub = params@.subrange(0, i + 1);
                assert(sub.drop_last() =~= params@.subrange(0, i as int));
            }
            i = i + 1;
            assert(self.buf@ =~= s1 + param_list(ind + 1, params@.subrange(0, i as int)));
        }
        assert(params@.subrange(0, params@.len() as int) =~= params@);
        self.line("]");
        assert(self.buf@ =~= old(self).buf@ + params_lines(ind, params@));
    }

    fn print_lambda_params(&mut self, params: &Vec<LambdaParam>)
        ensures
            final(self).spec_arena() == old(self).spec_arena(),
            final(self).spec_indent() == old(self).spec_indent(),
            final(self).spec_buf() == old(self).spec_buf() + lambda_param_list(old(self).spec_indent(), params@),
    {
        let ghost ind = self.indent as nat;
        let mut i: usize = 0;
        while i < params.len()
            invariant
                i <= params@.len(),
                self.arena == old(self).arena,
                self.indent == old(self).indent,
                ind == self.indent,
                self.buf@ == old(self).buf@ + lambda_param_list(ind, params@.subrange(0, i as int)),
            decreases params@.len() - i,
        {
            let mut t = String::new();
            push_str(&mut t, params[i].name.as_str());
            push_str(&mut t, ": ");
            let d = format_opt_ty(params[i].ty);
            push_str(&mut t, d.as_str());
            self.line(t.as_str());
            proof {
                let sub = params@.subrange(0, i + 1);
                assert(sub.drop_last() =~= params@.subrange(0, i as int));
            }
            i = i + 1;
            assert(self.buf@ =~= old(self).buf@ + lambda_param_list(ind, params@.subrange(0, i as int)));
        }
        assert(params@.subrange(0, params@.len() as int) =~= params@);
    }

    fn print_extern_items(&mut self, items: &Vec<ExternItem>)
        ensures
            final(self).spec_arena() == old(self).spec_arena(),
            final(self).spec_indent() == old(self).spec_indent(),
            final(self).spec_buf() == old(self).spec_buf() + extern_list(old(self).spec_indent(), items@),
    {
        let ghost ind = self.indent as nat;
        let mut i: usize = 0;
        while i < items.len()
            invariant
                i <= items@.len(),
                self.arena == old(self).arena,
                self.indent == old(self).indent,
                ind == self.indent,
                self.buf@ == old(self).buf@ + extern_list(ind, items@.subrange(0, i as int)),
            decreases items@.len() - i,
        {
            let mut t = String::new();
            match &items[i] {
                ExternItem::Function { name, .. } => {
                    push_str(&mut t, "extern fn ");
                    push_str(&mut t, name.as_str());
                },
                ExternItem::Static { name, .. } => {
                    push_str(&mut t, "extern static ");
                    push_str(&mut t, name.as_str());
                },
            }
            self.line(t.as_str());
            proof {
                let sub = items@.subrange(0, i + 1);
                assert(sub.drop_last() =~= items@.subrange(0, i as int));
            }
            i = i + 1;
            assert(self.buf@ =~= old(self).buf@ + extern_list(ind, items@.subrange(0, i as int)));
        }
        assert(items@.subrange(0, items@.len() as int) =~= items@);
    }

    /// A line at indentation `ind` (one deeper than the current one).
    fn line_at(&mut self, s: &str, Ghost(ind): Ghost<nat>)
        requires
            ind == old(self).spec_indent() + 1,
            old(self).spec_indent() < usize::MAX,
        ensures
            final(self).spec_arena() == old(self).spec_arena(),
            final(self).spec_indent() == old(self).spec_indent(),
            final(self).spec_buf() == old(self).spec_buf() + line(ind, s@),
    {
        self.bump();
        self.line(s);
        self.unbump();
    }
}


impl<'a> AstPrinter<'a> {

    /// Prints pattern `id`.
    pub fn print_pat(&mut self, id: PatId)
        requires
            old(self).spec_arena().wf(),
            id.0 < old(self).spec_arena().pats().len(),
            room(old(self).spec_indent(), old(self).spec_arena().pat_rank(id.0 as int), 6),
        ensures
            final(self).spec_arena() == old(self).spec_arena(),
            final(self).spec_indent() == old(self).spec_indent(),
            final(self).spec_buf() == old(self).spec_buf() + pat_text(old(self).spec_arena(), id, old(self).spec_indent()),
        decreases old(self).spec_arena().pat_rank(id.0 as int) + 1, 0nat, 0nat,
    {
        let a = self.arena;
        let ghost r = a.pat_rank(id.0 as int);
        let node = a.pat(id);
        assert(crate::ast::arena::pat_kind_ok(a, node.kind, r));
        self.open_node("Pat", id.0);
        self.bump();
        self.print_pat_kind(&node.kind, Ghost(r));
        self.unbump();
        self.line("}");
        assert(self.buf@ =~= old(self).buf@ + pat_text(a, id, old(self).indent as nat));
    }

    #[verifier::rlimit(100)]
    #[verifier::spinoff_prover]
    fn print_pat_kind(&mut self, kind: &PatKind, Ghost(r): Ghost<nat>)
        requires
            old(self).spec_arena().wf(),
            crate::ast::arena::pat_kind_ok(old(self).spec_arena(), *kind, r),
            room(old(self).spec_indent(), r, 5),
            old(self).spec_indent() > 0,
        ensures
            final(self).spec_arena() == old(self).spec_arena(),
            final(self).spec_indent() == old(self).spec_indent(),
            final(self).spec_buf() == old(self).spec_buf() + pat_body(old(self).spec_arena(), *kind, old(self).spec_indent(), r),
        decreases r, 5nat, 0nat,
    {
        let a = self.arena;
        match kind {
            PatKind::Wild => {
                self.kv("kind", "Wild");
                assert(self.buf@ =~= old(self).buf@ + pat_body(a, *kind, old(self).indent as nat, r));
            },
            PatKind::Ident { name, mutability, subpat } => {
                self.kv("kind", "Ident");
                self.kv("name", name.as_str());
                self.kv("mut", format_pat_mut(*mutability));
                if let Some(sp) = subpat {
                    self.print_pat(*sp);
                }
                assert(self.buf@ =~= old(self).buf@ + pat_body(a, *kind, old(self).indent as nat, r));
            },
            PatKind::Literal(lit) => {
                self.kv("kind", "Literal");
                let t = format_literal(lit);
                self.kv("value", t.as_str());
                assert(self.buf@ =~= old(self).buf@ + pat_body(a, *kind, old(self).indent as nat, r));
            },
            PatKind::Tuple(ps) => {
                self.kv("kind", "Tuple");
                self.line("pats [");
                self.bump();
                self.print_pat_nodes(ps, Ghost(r));
                self.unbump();
                self.line("]");
                assert(self.buf@ =~= old(self).buf@ + pat_body(a, *kind, old(self).indent as nat, r));
            },
            PatKind::Struct { path, fields } => {
                self.kv("kind", "Struct");
                let t = format_path(path);
                self.kv("path", t.as_str());
                self.line("fields [");
                self.bump();
                self.print_pat_fields(fields, Ghost(r));
                self.unbump();
                self.line("]");
                assert(self.buf@ =~= old(self).buf@ + pat_body(a, *kind, old(self).indent as nat, r));
            },
            PatKind::Enum { path, variant, subpats } => {
                self.kv("kind", "Enum");
                let t = format_path(path);
                self.kv("path", t.as_str());
                self.kv("variant", variant.as_str());
                self.line("subpats [");
                self.bump();
                self.print_pat_nodes(subpats, Ghost(r));
                self.unbump();
                self.line("]");
                assert(self.buf@ =~= old(self).buf@ + pat_body(a, *kind, old(self).indent as nat, r));
            },
            PatKind::Or(ps) => {
                self.kv("kind", "Or");
                self.line("pats [");
                self.bump();
                self.print_pat_nodes(ps, Ghost(r));
                self.unbump();
                self.line("]");
                assert(self.buf@ =~= old(self).buf@ + pat_body(a, *kind, old(self).indent as nat, r));
            },
        }
        assert(self.buf@ =~= old(self).buf@ + pat_body(a, *kind, old(self).indent as nat, r));
    }

    /// Prints expression `id` under `label`.
    pub fn print_expr(&mut self, label: &str, id: ExprId)
        requires
            old(self).spec_arena().wf(),
            id.0 < old(self).spec_arena().exprs().len(),
            room(old(self).spec_indent(), old(self).spec_arena().expr_rank(id.0 as int), 6),
        ensures
            final(self).spec_arena() == old(self).spec_arena(),
            final(self).spec_indent() == old(self).spec_indent(),
            final(self).spec_buf() == old(self).spec_buf() + expr_text(old(self).spec_arena(), label@, id, old(self).spec_indent()),
        decreases old(self).spec_arena().expr_rank(id.0 as int) + 1, 0nat, 0nat,
    {
        let a = self.arena;
        let ghost r = a.expr_rank(id.0 as int);
        let node = a.expr(id);
        assert(crate::ast::arena::expr_kind_ok(a, node.kind, r));
        self.open_node(label, id.0);
        self.bump();
        self.print_expr_kind(&node.kind, Ghost(r));
        self.unbump();
        self.line("}");
        assert(self.buf@ =~= old(self).buf@ + expr_text(a, label@, id, old(self).indent as nat));
    }

    #[verifier::rlimit(100)]
    #[verifier::spinoff_prover]
    fn print_expr_kind(&mut self, kind: &ExprKind, Ghost(r): Ghost<nat>)
        requires
            old(self).spec_arena().wf(),
            crate::ast::arena::expr_kind_ok(old(self).spec_arena(), *kind, r),
            room(old(self).spec_indent(), r, 5),
            old(self).spec_indent() > 0,
        ensures
            final(self).spec_arena() == old(self).spec_arena(),
            final(self).spec_indent() == old(self).spec_indent(),
            final(self).spec_buf() == old(self).spec_buf() + expr_body(old(self).spec_arena(), *kind, old(self).spec_indent(), r),
        decreases r, 5nat, 0nat,
    {
        let a = self.arena;
        match kind {
            ExprKind::Literal(lit) => {
                self.kv("kind", "Literal");
                let t = format_literal(lit);
                self.kv("value", t.as_str());
                assert(self.buf@ =~= old(self).buf@ + expr_body(a, *kind, old(self).indent as nat, r));
            },
            ExprKind::Path(path) => {
                self.kv("kind", "Path");
                let t = format_path(path);
                self.kv("path", t.as_str());
                assert(self.buf@ =~= old(self).buf@ + expr_body(a, *kind, old(self).indent as nat, r));
            },
            ExprKind::Call { func, args, kwargs } => {
                self.kv("kind", "Call");
                self.print_expr("func", *func);
                self.line("args [");
                self.bump();
                self.print_expr_nodes(args, Ghost(r));
                self.unbump();
                self.line("]");
                if kwargs.len() > 0 {
                    self.line("kwargs [");
                    self.bump();
                    self.print_kwargs(kwargs, Ghost(r));
                    self.unbump();
                    self.line("]");
                }
                assert(self.buf@ =~= old(self).buf@ + expr_body(a, *kind, old(self).indent as nat, r));
            },
            ExprKind::MethodCall { receiver, method, args } => {
                self.kv("kind", "MethodCall");
                self.print_expr("receiver", *receiver);
                self.kv("method", method.as_str());
                self.line("args [");
                self.bump();
                self.print_expr_nodes(args, Ghost(r));
                self.unbump();
                self.line("]");
                assert(self.buf@ =~= old(self).buf@ + expr_body(a, *kind, old(self).indent as nat, r));
            },
            ExprKind::Field { base, field } => {
                self.kv("kind", "Field");
                self.print_expr("base", *base);
                self.kv("field", field.as_str());
                assert(self.buf@ =~= old(self).buf@ + expr_body(a, *kind, old(self).indent as nat, r));
            },
            ExprKind::Index { base, index } => {
                self.kv("kind", "Index");
                self.print_expr("base", *base);
                self.print_expr("index", *index);
                assert(self.buf@ =~= old(self).buf@ + expr_body(a, *kind, old(self).indent as nat, r));
            },
            ExprKind::Unary { op, operand } => {
                self.kv("kind", "Unary");
                self.kv("op", format_unary_op(*op));
                self.print_expr("operand", *operand);
                assert(self.buf@ =~= old(self).buf@ + expr_body(a, *kind, old(self).indent as nat, r));
            },
            ExprKind::Binary { op, left, right } => {
                self.kv("kind", "Binary");
                self.kv("op", format_binary_op(*op));
                self.print_expr("left", *left);
                self.print_expr("right", *right);
                assert(self.buf@ =~= old(self).buf@ + expr_body(a, *kind, old(self).indent as nat, r));
            },
            _ => self.print_expr_kind_compound(kind, Ghost(r)),
        }
        assert(self.buf@ =~= old(self).buf@ + expr_body(a, *kind, old(self).indent as nat, r));
    }

    #[verifier::rlimit(100)]
    #[verifier::spinoff_prover]
    fn print_expr_kind_compound(&mut self, kind: &ExprKind, Ghost(r): Ghost<nat>)
        requires
            old(self).spec_arena().wf(),
            crate::ast::arena::expr_kind_ok(old(self).spec_arena(), *kind, r),
            room(old(self).spec_indent(), r, 5),
            old(self).spec_indent() > 0,
            kind is Tuple || kind is List || kind is Struct || kind is If || kind is Block || kind is Lambda || kind is Cast
                || kind is Ref || kind is Deref,
        ensures
            final(self).spec_arena() == old(self).spec_arena(),
            final(self).spec_indent() == old(self).spec_indent(),
            final(self).spec_buf() == old(self).spec_buf() + expr_body(old(self).spec_arena(), *kind, old(self).spec_indent(), r),
        decreases r, 4nat, 0nat,
    {
        let a = self.arena;
        match kind {
            ExprKind::Tuple(elems) => {
                self.kv("kind", "Tuple");
                self.line("elems [");
                self.bump();
                self.print_expr_nodes(elems, Ghost(r));
                self.unbump();
                self.line("]");
                assert(self.buf@ =~= old(self).buf@ + expr_body(a, *kind, old(self).indent as nat, r));
            },
            ExprKind::List(elems) => {
                self.kv("kind", "List");
                self.line("elems [");
                self.bump();
                self.print_expr_nodes(elems, Ghost(r));
                self.unbump();
                self.line("]");
                assert(self.buf@ =~= old(self).buf@ + expr_body(a, *kind, old(self).indent as nat, r));
            },
            ExprKind::Struct { path, fields } => {
                self.kv("kind", "Struct");
                let t = format_path(path);
                self.kv("path", t.as_str());
                self.line("fields [");
                self.bump();
                self.print_field_exprs(fields, Ghost(r));
                self.unbump();
                self.line("]");
                assert(self.buf@ =~= old(self).buf@ + expr_body(a, *kind, old(self).indent as nat, r));
            },
            ExprKind::If { test, then, else_branch } => {
                self.kv("kind", "If");
                self.print_expr("test", *test);
                self.print_expr("then", *then);
                self.print_expr("else", *else_branch);
                assert(self.buf@ =~= old(self).buf@ + expr_body(a, *kind, old(self).indent as nat, r));
            },
            ExprKind::Block(stmts) => {
                self.kv("kind", "Block");
                self.print_stmt_block("stmts", stmts, Ghost(r));
                assert(self.buf@ =~= old(self).buf@ + expr_body(a, *kind, old(self).indent as nat, r));
            },
            ExprKind::Lambda { params, body } => {
                self.kv("kind", "Lambda");
                self.line("params [");
                self.bump();
                self.print_lambda_params(params);
                self.unbump();
                self.line("]");
                self.print_expr("body", *body);
                assert(self.buf@ =~= old(self).buf@ + expr_body(a, *kind, old(self).indent as nat, r));
            },
            ExprKind::Cast { expr, ty } => {
                self.kv("kind", "Cast");
                self.print_expr("expr", *expr);
                self.print_ty("ty", *ty);
                assert(self.buf@ =~= old(self).buf@ + expr_body(a, *kind, old(self).indent as nat, r));
            },
            ExprKind::Ref { mutability, expr } => {
                self.kv("kind", "Ref");
                self.kv("mut", format_expr_mut(*mutability));
                self.print_expr("expr", *expr);
                assert(self.buf@ =~= old(self).buf@ + expr_body(a, *kind, old(self).indent as nat, r));
            },
            ExprKind::Deref(e) => {
                self.kv("kind", "Deref");
                self.print_expr("expr", *e);
                assert(self.buf@ =~= old(self).buf@ + expr_body(a, *kind, old(self).indent as nat, r));
            },
            _ => {
                proof {
                    assert(false);
                }
            },
        }
        assert(self.buf@ =~= old(self).buf@ + expr_body(a, *kind, old(self).indent as nat, r));
    }

    fn print_expr_node(&mut self, id: ExprId)
        requires
            old(self).spec_arena().wf(),
            id.0 < old(self).spec_arena().exprs().len(),
            room(old(self).spec_indent(), old(self).spec_arena().expr_rank(id.0 as int), 6),
        ensures
            final(self).spec_arena() == old(self).spec_arena(),
            final(self).spec_indent() == old(self).spec_indent(),
            final(self).spec_buf() == old(self).spec_buf() + expr_text(old(self).spec_arena(), "expr"@, id, old(self).spec_indent()),
        decreases old(self).spec_arena().expr_rank(id.0 as int) + 1, 1nat, 0nat,
    {
        self.print_expr("expr", id);
    }

    fn print_stmt_block(&mut self, label: &str, stmts: &Vec<StmtId>, Ghost(r): Ghost<nat>)
        requires
            old(self).spec_arena().wf(),
            stmts_ok(old(self).spec_arena(), stmts@, r),
            room(old(self).spec_indent(), r, 2),
        ensures
            final(self).spec_arena() == old(self).spec_arena(),
            final(self).spec_indent() == old(self).spec_indent(),
            final(self).spec_buf() == old(self).spec_buf() + stmt_block(old(self).spec_arena(), label@, stmts@, old(self).spec_indent(), r),
        decreases r, 2nat, 0nat,
    {
        let a = self.arena;
        let mut t = String::new();
        push_str(&mut t, label);
        push_str(&mut t, " [");
        self.line(t.as_str());
        self.bump();
        self.print_stmt_nodes(stmts, Ghost(r));
        self.unbump();
        self.line("]");
        assert(self.buf@ =~= old(self).buf@ + stmt_block(a, label@, stmts@, old(self).indent as nat, r));
    }
}

impl<'a> AstPrinter<'a> {
    /// Prints statement `id`.
    pub fn print_stmt(&mut self, id: StmtId)
        requires
            old(self).spec_arena().wf(),
            id.0 < old(self).spec_arena().stmts().len(),
            room(old(self).spec_indent(), old(self).spec_arena().stmt_rank(id.0 as int), 6),
        ensures
            final(self).spec_arena() == old(self).spec_arena(),
            final(self).spec_indent() == old(self).spec_indent(),
            final(self).spec_buf() == old(self).spec_buf() + stmt_text(old(self).spec_arena(), id, old(self).spec_indent()),
        decreases old(self).spec_arena().stmt_rank(id.0 as int) + 1, 0nat, 0nat,
    {
        let a = self.arena;
        let ghost r = a.stmt_rank(id.0 as int);
        let node = a.stmt(id);
        assert(crate::ast::arena::stmt_kind_ok(a, node.kind, r));
        self.open_node("Stmt", id.0);
        self.bump();
        self.print_stmt_kind(&node.kind, Ghost(r));
        self.unbump();
        self.line("}");
        assert(self.buf@ =~= old(self).buf@ + stmt_text(a, id, old(self).indent as nat));
    }

    #[verifier::rlimit(100)]
    #[verifier::spinoff_prover]
    fn print_stmt_kind(&mut self, kind: &StmtKind, Ghost(r): Ghost<nat>)
        requires
            old(self).spec_arena().wf(),
            crate::ast::arena::stmt_kind_ok(old(self).spec_arena(), *kind, r),
            room(old(self).spec_indent(), r, 5),
            old(self).spec_indent() > 0,
        ensures
            final(self).spec_arena() == old(self).spec_arena(),
            final(self).spec_indent() == old(self).spec_indent(),
            final(self).spec_buf() == old(self).spec_buf() + stmt_body(old(self).spec_arena(), *kind, old(self).spec_indent(), r),
        decreases r, 5nat, 0nat,
    {
        let a = self.arena;
        match kind {
            StmtKind::Expr(e) => {
                self.kv("kind", "Expr");
                self.print_expr("expr", *e);
                assert(self.buf@ =~= old(self).buf@ + stmt_body(a, *kind, old(self).indent as nat, r));
            },
            StmtKind::Assign { targets, value } => {
                self.kv("kind", "Assign");
                self.line("targets [");
                self.bump();
                self.print_pat_nodes(targets, Ghost(r));
                self.unbump();
                self.line("]");
                self.print_expr("value", *value);
                assert(self.buf@ =~= old(self).buf@ + stmt_body(a, *kind, old(self).indent as nat, r));
            },
            StmtKind::AnnAssign { target, ty, value } => {
                self.kv("kind", "AnnAssign");
                self.print_pat(*target);
                self.print_ty("ty", *ty);
                if let Some(v) = value {
                    self.print_expr("value", *v);
                }
                assert(self.buf@ =~= old(self).buf@ + stmt_body(a, *kind, old(self).indent as nat, r));
            },
            StmtKind::Return(e) => {
                self.kv("kind", "Return");
                if let Some(v) = e {
                    self.print_expr("value", *v);
                }
                assert(self.buf@ =~= old(self).buf@ + stmt_body(a, *kind, old(self).indent as nat, r));
            },
            StmtKind::Raise(e) => {
                self.kv("kind", "Raise");
                self.print_expr("exc", *e);
                assert(self.buf@ =~= old(self).buf@ + stmt_body(a, *kind, old(self).indent as nat, r));
            },
            StmtKind::Assert { test, msg } => {
                self.kv("kind", "Assert");
                self.print_expr("test", *test);
                if let Some(m) = msg {
                    self.print_expr("msg", *m);
                }
                assert(self.buf@ =~= old(self).buf@ + stmt_body(a, *kind, old(self).indent as nat, r));
            },
            StmtKind::Pass => {
                self.kv("kind", "Pass");
                assert(self.buf@ =~= old(self).buf@ + stmt_body(a, *kind, old(self).indent as nat, r));
            },
            StmtKind::Break(label) => {
                self.kv("kind", "Break");
                if let Some(l) = label {
                    self.kv("label", l.0.as_str());
                }
                assert(self.buf@ =~= old(self).buf@ + stmt_body(a, *kind, old(self).indent as nat, r));
            },
            StmtKind::Continue(label) => {
                self.kv("kind", "Continue");
                if let Some(l) = label {
                    self.kv("label", l.0.as_str());
                }
                assert(self.buf@ =~= old(self).buf@ + stmt_body(a, *kind, old(self).indent as nat, r));
            },
            StmtKind::While { test, body } => {
                self.kv("kind", "While");
                self.print_expr("test", *test);
                self.print_stmt_block("body", body, Ghost(r));
                assert(self.buf@ =~= old(self).buf@ + stmt_body(a, *kind, old(self).indent as nat, r));
            },
            StmtKind::For { pat, iter, body } => {
                self.kv("kind", "For");
                self.print_pat(*pat);
                self.print_expr("iter", *iter);
                self.print_stmt_block("body", body, Ghost(r));
                assert(self.buf@ =~= old(self).buf@ + stmt_body(a, *kind, old(self).indent as nat, r));
            },
            StmtKind::If { test, then_body, elifs, else_body } => {
                self.kv("kind", "If");
                self.print_expr("test", *test);
                self.print_stmt_block("then", then_body, Ghost(r));
                self.print_elifs(elifs, Ghost(r));
                if let Some(b) = else_body {
                    self.print_stmt_block("else", b, Ghost(r));
                }
                assert(self.buf@ =~= old(self).buf@ + stmt_body(a, *kind, old(self).indent as nat, r));
            },
            StmtKind::Match { scrutinee, arms } => {
                self.kv("kind", "Match");
                self.print_expr("scrutinee", *scrutinee);
                self.line("arms [");
                self.bump();
                self.print_arms(arms, Ghost(r));
                self.unbump();
                self.line("]");
                assert(self.buf@ =~= old(self).buf@ + stmt_body(a, *kind, old(self).indent as nat, r));
            },
        }
        assert(self.buf@ =~= old(self).buf@ + stmt_body(a, *kind, old(self).indent as nat, r));
    }

    fn print_elifs(&mut self, elifs: &Vec<ElifArm>, Ghost(r): Ghost<nat>)
        requires
            old(self).spec_arena().wf(),
            crate::ast::arena::elifs_ok(old(self).spec_arena(), elifs@, r),
            room(old(self).spec_indent(), r, 3),
        ensures
            final(self).spec_arena() == old(self).spec_arena(),
            final(self).spec_indent() == old(self).spec_indent(),
            final(self).spec_buf() == old(self).spec_buf() + elifs_list(old(self).spec_arena(), elifs@, old(self).spec_indent(), r),
        decreases r, 3nat, elifs@.len(),
    {
        let a = self.arena;
        let mut i: usize = 0;
        while i < elifs.len()
            invariant
                i <= elifs@.len(),
                self.arena == a,
                a.wf(),
                crate::ast::arena::elifs_ok(a, elifs@, r),
                self.indent == old(self).indent,
                room(self.indent as nat, r, 3),
                self.buf@ == old(self).buf@ + elifs_list(a, elifs@.subrange(0, i as int), self.indent as nat, r),
            decreases elifs@.len() - i,
        {
            assert(expr_ok(a, elifs@[i as int].test, r) && stmts_ok(a, elifs@[i as int].body@, r));
            self.print_elif(i, &elifs[i], Ghost(r));
            proof {
                let sub = elifs@.subrange(0, i + 1);
                assert(sub.drop_last() =~= elifs@.subrange(0, i as int));
                assert(sub[sub.len() - 1] == elifs@[i as int]);
            }
            i = i + 1;
            assert(self.buf@ =~= old(self).buf@ + elifs_list(a, elifs@.subrange(0, i as int), self.indent as nat, r));
        }
        assert(elifs@.subrange(0, elifs@.len() as int) =~= elifs@);
    }

    fn print_arms(&mut self, arms: &Vec<MatchArm>, Ghost(r): Ghost<nat>)
        requires
            old(self).spec_arena().wf(),
            crate::ast::arena::arms_ok(old(self).spec_arena(), arms@, r),
            room(old(self).spec_indent(), r, 3),
        ensures
            final(self).spec_arena() == old(self).spec_arena(),
            final(self).spec_indent() == old(self).spec_indent(),
            final(self).spec_buf() == old(self).spec_buf() + arms_list(old(self).spec_arena(), arms@, old(self).spec_indent(), r),
        decreases r, 3nat, arms@.len(),
    {
        let a = self.arena;
        let mut i: usize = 0;
        while i < arms.len()
            invariant
                i <= arms@.len(),
                self.arena == a,
                a.wf(),
                crate::ast::arena::arms_ok(a, arms@, r),
                self.indent == old(self).indent,
                room(self.indent as nat, r, 3),
                self.buf@ == old(self).buf@ + arms_list(a, arms@.subrange(0, i as int), self.indent as nat, r),
            decreases arms@.len() - i,
        {
            assert(pat_ok(a, arms@[i as int].pat, r) && crate::ast::arena::opt_expr_ok(a, arms@[i as int].guard, r)
                && stmts_ok(a, arms@[i as int].body@, r));
            let ghost before = self.buf@;
            self.print_match_arm(&arms[i], Ghost(r));
            proof {
                lemma_arms_list_step(a, arms@, i as int, self.indent as nat, r);
                assert(self.buf@ == before + arm_text(a, arms@[i as int], self.indent as nat, r));
            }
            i = i + 1;
            assert(self.buf@ =~= old(self).buf@ + arms_list(a, arms@.subrange(0, i as int), self.indent as nat, r));
        }
        assert(arms@.subrange(0, arms@.len() as int) =~= arms@);
    }
}

impl<'a> AstPrinter<'a> {
    /// Prints item `id`.
    pub fn print_item(&mut self, id: ItemId)
        requires
            old(self).spec_arena().wf(),
            id.0 < old(self).spec_arena().items().len(),
            room(old(self).spec_indent(), old(self).spec_arena().item_rank(id.0 as int), 6),
        ensures
            final(self).spec_arena() == old(self).spec_arena(),
            final(self).spec_indent() == old(self).spec_indent(),
            final(self).spec_buf() == old(self).spec_buf() + item_text(old(self).spec_arena(), id, old(self).spec_indent()),
        decreases old(self).spec_arena().item_rank(id.0 as int) + 1, 0nat, 0nat,
    {
        let a = self.arena;
        let ghost r = a.item_rank(id.0 as int);
        let node = a.item(id);
        assert(crate::ast::arena::item_kind_ok(a, node.kind, r));
        self.open_node("Item", id.0);
        self.bump();
        self.print_item_kind(&node.kind, Ghost(r));
        self.unbump();
        self.line("}");
        assert(self.buf@ =~= old(self).buf@ + item_text(a, id, old(self).indent as nat));
    }

    fn print_vis(&mut self, is_pub: bool)
        ensures
            final(self).spec_arena() == old(self).spec_arena(),
            final(self).spec_indent() == old(self).spec_indent(),
            final(self).spec_buf() == old(self).spec_buf() + kv(old(self).spec_indent(), "vis"@, vis_text(is_pub)),
    {
        self.kv("vis", if is_pub { "pub" } else { "private" });
    }

    #[verifier::rlimit(100)]
    #[verifier::spinoff_prover]
    fn print_item_kind(&mut self, kind: &ItemKind, Ghost(r): Ghost<nat>)
        requires
            old(self).spec_arena().wf(),
            crate::ast::arena::item_kind_ok(old(self).spec_arena(), *kind, r),
            room(old(self).spec_indent(), r, 5),
            old(self).spec_indent() > 0,
        ensures
            final(self).spec_arena() == old(self).spec_arena(),
            final(self).spec_indent() == old(self).spec_indent(),
            final(self).spec_buf() == old(self).spec_buf() + item_body(old(self).spec_arena(), *kind, old(self).spec_indent(), r),
        decreases r, 6nat, 0nat,
    {
        let a = self.arena;
        match kind {
            ItemKind::Function { .. } => self.print_function_item(kind, Ghost(r)),
            ItemKind::Class { .. } => self.print_class_item(kind, Ghost(r)),
            ItemKind::Struct { .. } => self.print_struct_item(kind, Ghost(r)),
            ItemKind::Enum { .. } => self.print_enum_item(kind, Ghost(r)),
            ItemKind::Interface { .. } => self.print_interface_decl(kind, Ghost(r)),
            ItemKind::Impl { .. } => self.print_impl_decl(kind, Ghost(r)),
            ItemKind::Const { name, ty, value, is_pub } => {
                self.print_vis(*is_pub);
                self.kv("kind", "Const");
                self.kv("name", name.as_str());
                self.print_ty("ty", *ty);
                self.print_expr("value", *value);
                assert(self.buf@ =~= old(self).buf@ + item_body(a, *kind, old(self).indent as nat, r));
            },
            ItemKind::Import { path, alias } => {
                self.kv("kind", "Import");
                let t = format_path(path);
                self.kv("path", t.as_str());
                if let Some(al) = alias {
                    self.kv("alias", al.as_str());
                }
                assert(self.buf@ =~= old(self).buf@ + item_body(a, *kind, old(self).indent as nat, r));
            },
            ItemKind::ExternBlock { abi, items } => {
                self.kv("kind", "ExternBlock");
                let t = format_abi(abi);
                self.kv("abi", t.as_str());
                self.line("items [");
                self.bump();
                self.print_extern_items(items);
                self.unbump();
                self.line("]");
                assert(self.buf@ =~= old(self).buf@ + item_body(a, *kind, old(self).indent as nat, r));
            },
            ItemKind::Module { name, items } => {
                self.kv("kind", "Module");
                self.kv("name", name.as_str());
                self.line("items [");
                self.bump();
                self.print_item_nodes(items, Ghost(r));
                self.unbump();
                self.line("]");
                assert(self.buf@ =~= old(self).buf@ + item_body(a, *kind, old(self).indent as nat, r));
            },
        }
        assert(self.buf@ =~= old(self).buf@ + item_body(a, *kind, old(self).indent as nat, r));
    }

    fn print_field_defs(&mut self, fields: &Vec<FieldDef>, Ghost(r): Ghost<nat>)
        requires
            old(self).spec_arena().wf(),
            crate::ast::arena::field_defs_ok(old(self).spec_arena(), fields@, r),
            room(old(self).spec_indent(), r, 2),
        ensures
            final(self).spec_arena() == old(self).spec_arena(),
            final(self).spec_indent() == old(self).spec_indent(),
            final(self).spec_buf() == old(self).spec_buf() + field_defs_lines(old(self).spec_arena(), fields@, old(self).spec_indent(), r),
        decreases r, 2nat, 0nat,
    {
        let a = self.arena;
        self.line("fields [");
        self.bump();
        self.print_field_def_list(fields, Ghost(r));
        self.unbump();
        self.line("]");
        assert(self.buf@ =~= old(self).buf@ + field_defs_lines(a, fields@, old(self).indent as nat, r));
    }

    fn print_variants(&mut self, variants: &Vec<Variant>, Ghost(r): Ghost<nat>)
        requires
            old(self).spec_arena().wf(),
            crate::ast::arena::variants_ok(old(self).spec_arena(), variants@, r),
            room(old(self).spec_indent(), r, 5),
        ensures
            final(self).spec_arena() == old(self).spec_arena(),
            final(self).spec_indent() == old(self).spec_indent(),
            final(self).spec_buf() == old(self).spec_buf() + line(old(self).spec_indent(), "variants ["@)
                + variants_list(old(self).spec_arena(), variants@, old(self).spec_indent() + 1, r) + line(
                old(self).spec_indent(),
                "]"@,
            ),
        decreases r, 5nat, 0nat,
    {
        let a = self.arena;
        self.line("variants [");
        self.bump();
        let ghost s1 = self.buf@;
        let mut i: usize = 0;
        while i < variants.len()
            invariant
                i <= variants@.len(),
                self.arena == a,
                a.wf(),
                crate::ast::arena::variants_ok(a, variants@, r),
                self.indent == old(self).indent + 1,
                room(self.indent as nat, r, 4),
                self.buf@ == s1 + variants_list(a, variants@.subrange(0, i as int), self.indent as nat, r),
            decreases variants@.len() - i,
        {
            assert(crate::ast::arena::variant_fields_ok(a, variants@[i as int].fields, r));
            self.print_variant(&variants[i], Ghost(r));
            proof {
                let sub = variants@.subrange(0, i + 1);
                assert(sub.drop_last() =~= variants@.subrange(0, i as int));
                assert(sub[sub.len() - 1] == variants@[i as int]);
            }
            i = i + 1;
            assert(self.buf@ =~= s1 + variants_list(a, variants@.subrange(0, i as int), self.indent as nat, r));
        }
        assert(variants@.subrange(0, variants@.len() as int) =~= variants@);
        self.unbump();
        self.line("]");
    }

    fn print_interface_items(&mut self, items: &Vec<InterfaceItem>, Ghost(r): Ghost<nat>)
        requires
            old(self).spec_arena().wf(),
            crate::ast::arena::interface_items_ok(old(self).spec_arena(), items@, r),
            room(old(self).spec_indent(), r, 3),
        ensures
            final(self).spec_arena() == old(self).spec_arena(),
            final(self).spec_indent() == old(self).spec_indent(),
            final(self).spec_buf() == old(self).spec_buf() + interface_list(old(self).spec_arena(), items@, old(self).spec_indent(), r),
        decreases r, 3nat, items@.len(),
    {
        let a = self.arena;
        let mut i: usize = 0;
        while i < items.len()
            invariant
                i <= items@.len(),
                self.arena == a,
                a.wf(),
                crate::ast::arena::interface_items_ok(a, items@, r),
                self.indent == old(self).indent,
                room(self.indent as nat, r, 3),
                self.buf@ == old(self).buf@ + interface_list(a, items@.subrange(0, i as int), self.indent as nat, r),
            decreases items@.len() - i,
        {
            assert(crate::ast::arena::interface_item_ok(a, items@[i as int], r));
            self.print_interface_item(&items[i], Ghost(r));
            proof {
                let sub = items@.subrange(0, i + 1);
                assert(sub.drop_last() =~= items@.subrange(0, i as int));
                assert(sub[sub.len() - 1] == items@[i as int]);
            }
            i = i + 1;
            assert(self.buf@ =~= old(self).buf@ + interface_list(a, items@.subrange(0, i as int), self.indent as nat, r));
        }
        assert(items@.subrange(0, items@.len() as int) =~= items@);
    }

    fn print_impl_items(&mut self, items: &Vec<ImplItem>, Ghost(r): Ghost<nat>)
        requires
            old(self).spec_arena().wf(),
            crate::ast::arena::impl_items_ok(old(self).spec_arena(), items@, r),
            room(old(self).spec_indent(), r, 3),
        ensures
            final(self).spec_arena() == old(self).spec_arena(),
            final(self).spec_indent() == old(self).spec_indent(),
            final(self).spec_buf() == old(self).spec_buf() + impl_list(old(self).spec_arena(), items@, old(self).spec_indent(), r),
        decreases r, 3nat, items@.len(),
    {
        let a = self.arena;
        let mut i: usize = 0;
        while i < items.len()
            invariant
                i <= items@.len(),
                self.arena == a,
                a.wf(),
                crate::ast::arena::impl_items_ok(a, items@, r),
                self.indent == old(self).indent,
                room(self.indent as nat, r, 3),
                self.buf@ == old(self).buf@ + impl_list(a, items@.subrange(0, i as int), self.indent as nat, r),
            decreases items@.len() - i,
        {
            assert(crate::ast::arena::impl_item_ok(a, items@[i as int], r));
            self.print_impl_item(&items[i], Ghost(r));
            proof {
                let sub = items@.subrange(0, i + 1);
                assert(sub.drop_last() =~= items@.subrange(0, i as int));
                assert(sub[sub.len() - 1] == items@[i as int]);
            }
            i = i + 1;
            assert(self.buf@ =~= old(self).buf@ + impl_list(a, items@.subrange(0, i as int), self.indent as nat, r));
        }
        assert(items@.subrange(0, items@.len() as int) =~= items@);
    }

    /// The dump of a module: its items between `Module {` and `}`.
    pub fn print_module(self, module: &Module) -> (s: String)
        requires
            self.spec_arena().wf(),
            self.spec_indent() == 0,
            items_ok(self.spec_arena(), module.items@, self.spec_arena().next_rank()),
            room(0, self.spec_arena().next_rank(), 2),
        ensures
            s@ == self.spec_buf() + module_text(self.spec_arena(), *module),
    {
        let mut p = self;
        let a = p.arena;
        p.line("Module {");
        p.bump();
        p.print_item_nodes(&module.items, Ghost(a.next_rank()));
        p.unbump();
        p.line("}");
        assert(p.buf@ =~= self.buf@ + module_text(a, *module));
        p.buf
    }
}

/// The dump of a module whose items are nodes of `arena`.
pub fn format_module(module: &Module, arena: &Arena) -> (s: String)
    requires
        arena.wf(),
        items_ok(arena, module.items@, arena.next_rank()),
        room(0, arena.next_rank(), 2),
    ensures
        s@ == module_text(arena, *module),
{
    AstPrinter::new(arena).print_module(module)
}


impl<'a> AstPrinter<'a> {

    fn print_elif(&mut self, i: usize, elif: &ElifArm, Ghost(r): Ghost<nat>)
        requires
            old(self).spec_arena().wf(),
            expr_ok(old(self).spec_arena(), elif.test, r) && stmts_ok(old(self).spec_arena(), elif.body@, r),
            room(old(self).spec_indent(), r, 3),
        ensures
            final(self).spec_arena() == old(self).spec_arena(),
            final(self).spec_indent() == old(self).spec_indent(),
            final(self).spec_buf() == old(self).spec_buf() + elif_text(old(self).spec_arena(), i as nat, *elif, old(self).spec_indent(), r),
        decreases r, 3nat, 0nat,
    {
        let a = self.arena;
        let mut t = String::new();
        push_str(&mut t, "elif[");
        push_dec(&mut t, i as u128);
        push_str(&mut t, "] {");
        self.line(t.as_str());
        self.bump();
        self.print_expr("test", elif.test);
        self.print_stmt_block("body", &elif.body, Ghost(r));
        self.unbump();
        self.line("}");
        assert(self.buf@ =~= old(self).buf@ + elif_text(a, i as nat, *elif, old(self).indent as nat, r));
    }

    fn print_match_arm(&mut self, arm: &MatchArm, Ghost(r): Ghost<nat>)
        requires
            old(self).spec_arena().wf(),
            pat_ok(old(self).spec_arena(), arm.pat, r) && crate::ast::arena::opt_expr_ok(old(self).spec_arena(), arm.guard, r) && stmts_ok(old(self).spec_arena(), arm.body@, r),
            room(old(self).spec_indent(), r, 3),
        ensures
            final(self).spec_arena() == old(self).spec_arena(),
            final(self).spec_indent() == old(self).spec_indent(),
            final(self).spec_buf() == old(self).spec_buf() + arm_text(old(self).spec_arena(), *arm, old(self).spec_indent(), r),
        decreases r, 3nat, 0nat,
    {
        let a = self.arena;
        self.line("arm {");
        self.bump();
        self.print_pat(arm.pat);
        if let Some(g) = arm.guard {
            self.print_expr("guard", g);
        }
        self.print_stmt_block("body", &arm.body, Ghost(r));
        self.unbump();
        self.line("}");
        assert(self.buf@ =~= old(self).buf@ + arm_text(a, *arm, old(self).indent as nat, r));
    }

    fn print_interface_item(&mut self, item: &InterfaceItem, Ghost(r): Ghost<nat>)
        requires
            old(self).spec_arena().wf(),
            crate::ast::arena::interface_item_ok(old(self).spec_arena(), *item, r),
            room(old(self).spec_indent(), r, 3),
        ensures
            final(self).spec_arena() == old(self).spec_arena(),
            final(self).spec_indent() == old(self).spec_indent(),
            final(self).spec_buf() == old(self).spec_buf() + interface_item_text(old(self).spec_arena(), *item, old(self).spec_indent(), r),
        decreases r, 3nat, 0nat,
    {
        let a = self.arena;
        match item {
            InterfaceItem::Function { name, generics, params, ret_ty, default_body, .. } => {
                let mut t = String::new();
                push_str(&mut t, "fn ");
                push_str(&mut t, name.as_str());
                push_str(&mut t, "(...)");
                self.line(t.as_str());
                self.bump();
                self.print_generics(generics);
                self.print_params(params);
                if let Some(rt) = ret_ty {
                    self.print_ty("ret", *rt);
                }
                if let Some(b) = default_body {
                    self.print_stmt_block("default", b, Ghost(r));
                }
                self.unbump();
            },
            InterfaceItem::Type { name, ty, .. } => {
                let mut t = String::new();
                push_str(&mut t, "type ");
                push_str(&mut t, name.as_str());
                self.line(t.as_str());
                if let Some(tt) = ty {
                    self.print_ty("ty", *tt);
                }
            },
        }
        assert(self.buf@ =~= old(self).buf@ + interface_item_text(a, *item, old(self).indent as nat, r));
    }

    fn print_impl_item(&mut self, item: &ImplItem, Ghost(r): Ghost<nat>)
        requires
            old(self).spec_arena().wf(),
            crate::ast::arena::impl_item_ok(old(self).spec_arena(), *item, r),
            room(old(self).spec_indent(), r, 3),
        ensures
            final(self).spec_arena() == old(self).spec_arena(),
            final(self).spec_indent() == old(self).spec_indent(),
            final(self).spec_buf() == old(self).spec_buf() + impl_item_text(old(self).spec_arena(), *item, old(self).spec_indent(), r),
        decreases r, 3nat, 0nat,
    {
        let a = self.arena;
        match item {
            ImplItem::Function { name, generics, params, ret_ty, body, .. } => {
                let mut t = String::new();
                push_str(&mut t, "fn ");
                push_str(&mut t, name.as_str());
                push_str(&mut t, "(...)");
                self.line(t.as_str());
                self.bump();
                self.print_generics(generics);
                self.print_params(params);
                if let Some(rt) = ret_ty {
                    self.print_ty("ret", *rt);
                }
                self.print_stmt_block("body", body, Ghost(r));
                self.unbump();
            },
            ImplItem::Const { name, ty, value, .. } => {
                let mut t = String::new();
                push_str(&mut t, "const ");
                push_str(&mut t, name.as_str());
                self.line(t.as_str());
                self.print_ty("ty", *ty);
                self.print_expr("value", *value);
            },
            ImplItem::Type { name, ty, .. } => {
                let mut t = String::new();
                push_str(&mut t, "type ");
                push_str(&mut t, name.as_str());
                self.line(t.as_str());
                self.print_ty("ty", *ty);
            },
        }
        assert(self.buf@ =~= old(self).buf@ + impl_item_text(a, *item, old(self).indent as nat, r));
    }

    fn print_variant(&mut self, v: &Variant, Ghost(r): Ghost<nat>)
        requires
            old(self).spec_arena().wf(),
            crate::ast::arena::variant_fields_ok(old(self).spec_arena(), v.fields, r),
            room(old(self).spec_indent(), r, 4),
        ensures
            final(self).spec_arena() == old(self).spec_arena(),
            final(self).spec_indent() == old(self).spec_indent(),
            final(self).spec_buf() == old(self).spec_buf() + variant_text(old(self).spec_arena(), *v, old(self).spec_indent(), r),
        decreases r, 4nat, 0nat,
    {
        let a = self.arena;
        let mut t = String::new();
        push_str(&mut t, v.name.as_str());
        push_str(&mut t, " {");
        self.line(t.as_str());
        self.bump();
        match &v.fields {
            VariantFields::Unit => self.kv("fields", "Unit"),
            VariantFields::Tuple(tys) => {
                self.line("tuple [");
                self.bump();
                self.print_ty_nodes(tys, Ghost(r));
                self.unbump();
                self.line("]");
            },
            VariantFields::Struct(defs) => self.print_field_defs(defs, Ghost(r)),
        }
        self.unbump();
        self.line("}");
        assert(self.buf@ =~= old(self).buf@ + variant_text(a, *v, old(self).indent as nat, r));
    }
}

impl<'a> AstPrinter<'a> {

    #[verifier::rlimit(100)]
    fn print_function_item(&mut self, kind: &ItemKind, Ghost(r): Ghost<nat>)
        requires
            old(self).spec_arena().wf(),
            *kind is Function,
            crate::ast::arena::item_kind_ok(old(self).spec_arena(), *kind, r),
            room(old(self).spec_indent(), r, 5),
            old(self).spec_indent() > 0,
        ensures
            final(self).spec_arena() == old(self).spec_arena(),
            final(self).spec_indent() == old(self).spec_indent(),
            final(self).spec_buf() == old(self).spec_buf() + item_body(old(self).spec_arena(), *kind, old(self).spec_indent(), r),
        decreases r, 5nat, 0nat,
    {
        let a = self.arena;
        match kind {
            ItemKind::Function { name, generics, params, ret_ty, body, is_pub, attrs } => {
                self.print_attrs(attrs);
                self.print_vis(*is_pub);
                self.kv("kind", "Function");
                self.kv("name", name.as_str());
                self.print_generics(generics);
                self.print_params(params);
                if let Some(t) = ret_ty {
                    self.print_ty("ret", *t);
                }
                self.print_stmt_block("body", body, Ghost(r));
                assert(self.buf@ =~= old(self).buf@ + item_body(a, *kind, old(self).indent as nat, r));
            },
            _ => {},
        }
    }

    #[verifier::rlimit(100)]
    #[verifier::spinoff_prover]
    fn print_class_item(&mut self, kind: &ItemKind, Ghost(r): Ghost<nat>)
        requires
            old(self).spec_arena().wf(),
            *kind is Class,
            crate::ast::arena::item_kind_ok(old(self).spec_arena(), *kind, r),
            room(old(self).spec_indent(), r, 5),
            old(self).spec_indent() > 0,
        ensures
            final(self).spec_arena() == old(self).spec_arena(),
            final(self).spec_indent() == old(self).spec_indent(),
            final(self).spec_buf() == old(self).spec_buf() + item_body(old(self).spec_arena(), *kind, old(self).spec_indent(), r),
        decreases r, 5nat, 0nat,
    {
        let a = self.arena;
        match kind {
            ItemKind::Class { name, generics, bases, body, is_pub, attrs } => {
                self.print_attrs(attrs);
                self.print_vis(*is_pub);
                self.kv("kind", "Class");
                self.kv("name", name.as_str());
                self.print_generics(generics);
                self.line("bases [");
                self.bump();
                self.print_ty_nodes(bases, Ghost(r));
                self.unbump();
                self.line("]");
                self.line("body [");
                self.bump();
                self.print_item_nodes(body, Ghost(r));
                self.unbump();
                self.line("]");
                assert(self.buf@ =~= old(self).buf@ + item_body(a, *kind, old(self).indent as nat, r));
            },
            _ => {},
        }
    }

    #[verifier::rlimit(100)]
    fn print_struct_item(&mut self, kind: &ItemKind, Ghost(r): Ghost<nat>)
        requires
            old(self).spec_arena().wf(),
            *kind is Struct,
            crate::ast::arena::item_kind_ok(old(self).spec_arena(), *kind, r),
            room(old(self).spec_indent(), r, 5),
            old(self).spec_indent() > 0,
        ensures
            final(self).spec_arena() == old(self).spec_arena(),
            final(self).spec_indent() == old(self).spec_indent(),
            final(self).spec_buf() == old(self).spec_buf() + item_body(old(self).spec_arena(), *kind, old(self).spec_indent(), r),
        decreases r, 5nat, 0nat,
    {
        let a = self.arena;
        match kind {
            ItemKind::Struct { name, generics, fields, is_pub, attrs } => {
                self.print_attrs(attrs);
                self.print_vis(*is_pub);
                self.kv("kind", "Struct");
                self.kv("name", name.as_str());
                self.print_generics(generics);
                self.print_field_defs(fields, Ghost(r));
                assert(self.buf@ =~= old(self).buf@ + item_body(a, *kind, old(self).indent as nat, r));
            },
            _ => {},
        }
    }

    #[verifier::rlimit(100)]
    fn print_enum_item(&mut self, kind: &ItemKind, Ghost(r): Ghost<nat>)
        requires
            old(self).spec_arena().wf(),
            *kind is Enum,
            crate::ast::arena::item_kind_ok(old(self).spec_arena(), *kind, r),
            room(old(self).spec_indent(), r, 5),
            old(self).spec_indent() > 0,
        ensures
            final(self).spec_arena() == old(self).spec_arena(),
            final(self).spec_indent() == old(self).spec_indent(),
            final(self).spec_buf() == old(self).spec_buf() + item_body(old(self).spec_arena(), *kind, old(self).spec_indent(), r),
        decreases r, 5nat, 0nat,
    {
        let a = self.arena;
        match kind {
            ItemKind::Enum { name, generics, variants, is_pub, attrs } => {
                self.print_attrs(attrs);
                self.print_vis(*is_pub);
                self.kv("kind", "Enum");
                self.kv("name", name.as_str());
                self.print_generics(generics);
                self.print_variants(variants, Ghost(r));
                assert(self.buf@ =~= old(self).buf@ + item_body(a, *kind, old(self).indent as nat, r));
            },
            _ => {},
        }
    }

    #[verifier::rlimit(100)]
    fn print_interface_decl(&mut self, kind: &ItemKind, Ghost(r): Ghost<nat>)
        requires
            old(self).spec_arena().wf(),
            *kind is Interface,
            crate::ast::arena::item_kind_ok(old(self).spec_arena(), *kind, r),
            room(old(self).spec_indent(), r, 5),
            old(self).spec_indent() > 0,
        ensures
            final(self).spec_arena() == old(self).spec_arena(),
            final(self).spec_indent() == old(self).spec_indent(),
            final(self).spec_buf() == old(self).spec_buf() + item_body(old(self).spec_arena(), *kind, old(self).spec_indent(), r),
        decreases r, 5nat, 0nat,
    {
        let a = self.arena;
        match kind {
            ItemKind::Interface { name, generics, items, is_pub, attrs } => {
                self.print_attrs(attrs);
                self.print_vis(*is_pub);
                self.kv("kind", "Interface");
                self.kv("name", name.as_str());
                self.print_generics(generics);
                self.line("items [");
                self.bump();
                self.print_interface_items(items, Ghost(r));
                self.unbump();
                self.line("]");
                assert(self.buf@ =~= old(self).buf@ + item_body(a, *kind, old(self).indent as nat, r));
            },
            _ => {},
        }
    }

    #[verifier::rlimit(100)]
    fn print_impl_decl(&mut self, kind: &ItemKind, Ghost(r): Ghost<nat>)
        requires
            old(self).spec_arena().wf(),
            *kind is Impl,
            crate::ast::arena::item_kind_ok(old(self).spec_arena(), *kind, r),
            room(old(self).spec_indent(), r, 5),
            old(self).spec_indent() > 0,
        ensures
            final(self).spec_arena() == old(self).spec_arena(),
            final(self).spec_indent() == old(self).spec_indent(),
            final(self).spec_buf() == old(self).spec_buf() + item_body(old(self).spec_arena(), *kind, old(self).spec_indent(), r),
        decreases r, 5nat, 0nat,
    {
        let a = self.arena;
        match kind {
            ItemKind::Impl { generics, interface_ref, self_ty, items, attrs } => {
                self.print_attrs(attrs);
                self.kv("kind", "Impl");
                self.print_generics(generics);
                if let Some(path) = interface_ref {
                    let t = format_path(path);
                    self.kv("interface", t.as_str());
                }
                self.print_ty("self_ty", *self_ty);
                self.line("items [");
                self.bump();
                self.print_impl_items(items, Ghost(r));
                self.unbump();
                self.line("]");
                assert(self.buf@ =~= old(self).buf@ + item_body(a, *kind, old(self).indent as nat, r));
            },
            _ => {},
        }
    }
}
} // verus!
