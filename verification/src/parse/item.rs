use vstd::prelude::*;

use crate::ast::arena::{
    attrs_in, expr_in, field_defs_in, generics_in, impl_item_in, impl_items_in, interface_item_in,
    interface_items_in, item_in, item_kind_in, items_in, lemma_in_mono, lemma_in_ok,
    lemma_members_in_mono, lemma_members_in_ok, lemma_parts_in_mono, lemma_parts_in_ok,
    lemma_seq_in_mono, lemma_seq_in_ok, opt_ty_in, param_in, params_in, path_in, stmts_in, ty_in,
    tys_in, variants_in,
};
use crate::ast::item::{
    Attribute, FieldDef, GenericParam, ImplItem, InterfaceItem, ItemKind, Param, Variant,
    VariantFields,
};
use crate::ast::path::{Path, PathSegment};
use crate::ast::ty::TyKind;
use crate::ids::{ItemId, TyId};
use crate::parse::parser::{one_error, skip_nl, step, Parser};
use crate::parse::stmt::{body_shape, lemma_body_prefix_extend, none_ok, return_block};
use crate::parse::ty::lone_ident;
use crate::ast::expr::ExprKind;
use crate::ast::literal::Literal;
use crate::ast::stmt::StmtKind;
use crate::syntax::{SpannedToken, TokenKind};

verus! {

broadcast use crate::parse::parser::lemma_step_trans;

/// An item-kind parse: a yielded kind consumed at least one token and refers
/// to existing nodes.
pub open spec fn kind_result(a: &Parser, b: &Parser, r: Option<ItemKind>) -> bool {
    &&& step(a, b)
    &&& match r {
        Some(k) => a.pos < b.pos && item_kind_in(&b.arena, k),
        None => none_ok(a, b),
    }
}

/// An item parse: a yielded item consumed at least one token and exists.
pub open spec fn item_result(a: &Parser, b: &Parser, r: Option<ItemId>) -> bool {
    &&& step(a, b)
    &&& match r {
        Some(i) => a.pos < b.pos && item_in(&b.arena, i),
        None => none_ok(a, b),
    }
}

/// A parse of a run of items: the yielded items exist.
pub open spec fn items_result(a: &Parser, b: &Parser, r: Option<Vec<ItemId>>) -> bool {
    &&& step(a, b)
    &&& match r {
        Some(v) => items_in(&b.arena, v@),
        None => none_ok(a, b),
    }
}

/// Attributes as the parser builds them: without arguments.
pub open spec fn bare_attrs(s: Seq<Attribute>) -> bool {
    forall|i: int| 0 <= i < s.len() ==> (#[trigger] s[i]).args@.len() == 0
}

/// Generic parameters as the parser builds them: without bounds.
pub open spec fn bare_generics(s: Seq<GenericParam>) -> bool {
    forall|i: int| 0 <= i < s.len() ==> (#[trigger] s[i]).bounds@.len() == 0
}

pub proof fn lemma_bare(a: &Arena, attrs: Seq<Attribute>, generics: Seq<GenericParam>)
    ensures
        bare_attrs(attrs) ==> attrs_in(a, attrs),
        bare_generics(generics) ==> generics_in(a, generics),
{
    if bare_attrs(attrs) {
        assert forall|i: int| 0 <= i < attrs.len() implies crate::ast::arena::exprs_in(a, #[trigger] attrs[i].args@) by {
            assert(attrs[i].args@.len() == 0);
        }
    }
    if bare_generics(generics) {
        assert forall|i: int| 0 <= i < generics.len() implies tys_in(a, #[trigger] generics[i].bounds@) by {
            assert(generics[i].bounds@.len() == 0);
        }
    }
}

use crate::ast::arena::Arena;

/// The tokens from `p` are a function that takes no parameters and whose
/// body, on lines of its own, is annotated assignments of literals and then
/// a `return` of a literal:
/// `def NAME ( ) [-> TYPE] : NEWLINE INDENT (NAME : TYPE = LITERAL NEWLINE..)..
/// return LITERAL NEWLINE.. DEDENT`, each type a plain name. The function's
/// name, how many assignments it holds, the returned literal and where the
/// function ends.
pub open spec fn return_function(t: Seq<SpannedToken>, p: int) -> Option<(String, nat, Literal, int)> {
    let colon = if t[p + 4].kind is Arrow {
        p + 6
    } else {
        p + 4
    };
    if 0 <= p && p + 7 < t.len() && t[p].kind is KwDef && t[p + 2].kind is LParen && t[p + 3].kind is RParen && (t[p
        + 4].kind is Arrow ==> lone_ident(t, p + 5) is Some) && t[colon].kind is Colon {
        match (t[p + 1].kind, return_block(t, colon + 1)) {
            (TokenKind::Ident { name }, Some((k, lit, d))) => Some((name, k, lit, d + 1)),
            _ => None,
        }
    } else {
        None
    }
}

/// The tokens are, past newlines, such a function and, past newlines,
/// `Eof`: its name, how many assignments it holds and its literal.
pub open spec fn module_of_return_function(t: Seq<SpannedToken>) -> Option<(String, nat, Literal)> {
    match return_function(t, skip_nl(t, 0)) {
        Some((n, k, lit, end)) => if 0 <= skip_nl(t, end) < t.len() && t[skip_nl(t, end)].kind is Eof {
            Some((n, k, lit))
        } else {
            None
        },
        None => None,
    }
}

/// Item `id` of `a` is a function named `n` whose body is `k` annotated
/// assignments and then `return` of literal `lit`.
pub open spec fn fn_returns(a: &Arena, id: ItemId, n: String, k: nat, lit: Literal) -> bool {
    &&& a.items()[id.0 as int].kind matches ItemKind::Function { name, body, .. }
    &&& name == n
    &&& body_shape(a, body@, k, lit)
}

/// Keywords an item starts with.
pub open spec fn item_keyword(k: TokenKind) -> bool {
    match k {
        TokenKind::KwDef | TokenKind::KwClass | TokenKind::KwStruct | TokenKind::KwEnum
        | TokenKind::KwInterface | TokenKind::KwTrait | TokenKind::KwImpl | TokenKind::KwImport
        | TokenKind::KwFrom => true,
        _ => false,
    }
}

impl<'a> Parser<'a> {
    /// Parses the items of a module up to `Eof`.
    ///
    /// An iteration that consumes nothing while errors were already reported
    /// would repeat itself forever; the run of items ends there instead.
    pub fn parse_module_items(&mut self) -> (r: Option<Vec<ItemId>>)
        requires
            old(self).wf(),
        ensures
            items_result(&*old(self), &*final(self), r),
            r is Some,
            return_function(old(self).tokens@, skip_nl(old(self).tokens@, old(self).pos as int)) matches Some((n, k, lit, end))
                ==> (0 <= skip_nl(old(self).tokens@, end) < old(self).tokens@.len() && old(self).tokens@[skip_nl(
                old(self).tokens@,
                end,
            )].kind is Eof ==> (final(self).arena.fits() ==> (r matches Some(v) && v@.len() == 1 && final(self).handler
                == old(self).handler && final(self).cur() is Eof && fn_returns(&final(self).arena, v@[0], n, k, lit)))),
        decreases old(self).remaining(), 30nat,
    {
        let tokens: &'a [SpannedToken] = self.tokens;
        let mut items: Vec<ItemId> = Vec::new();
        let ghost t = old(self).tokens@;
        let ghost s0 = skip_nl(t, old(self).pos as int);
        let ghost rf = return_function(t, s0) is Some && 0 <= skip_nl(t, return_function(t, s0).unwrap().3) < t.len()
            && t[skip_nl(t, return_function(t, s0).unwrap().3)].kind is Eof;
        let ghost fnv = return_function(t, s0).unwrap();
        proof {
            crate::parse::parser::lemma_skip_nl_idem(t, old(self).pos as int);
        }
        self.skip_stmt_separators();
        while !self.is_at_end()
            invariant
                step(&*old(self), &*self),
                tokens@ == self.tokens@,
                items_in(&self.arena, items@),
                t == tokens@,
                s0 == skip_nl(t, old(self).pos as int),
                skip_nl(t, s0) == s0,
                rf == (return_function(t, s0) is Some && 0 <= skip_nl(t, return_function(t, s0).unwrap().3) < t.len()
                    && t[skip_nl(t, return_function(t, s0).unwrap().3)].kind is Eof),
                rf ==> return_function(t, s0) == Some(fnv),
                rf ==> (self.arena.fits() ==> (self.handler == old(self).handler && ((items@.len() == 0 && self.pos == s0)
                    || (items@.len() == 1 && self.pos == skip_nl(t, fnv.3) && fn_returns(
                    &self.arena,
                    items@[0],
                    fnv.0,
                    fnv.1,
                    fnv.2,
                ))))),
            ensures
                step(&*old(self), &*self),
                tokens@ == self.tokens@,
                items_in(&self.arena, items@),
                rf ==> (self.arena.fits() ==> (self.handler == old(self).handler && items@.len() == 1 && self.cur() is Eof
                    && fn_returns(&self.arena, items@[0], fnv.0, fnv.1, fnv.2))),
            decreases self.remaining(), if self.handler.error_count() > 0 { 0nat } else { 1nat },
        {
            let iter_start = self.pos;
            let had_errors = self.handler.has_errors();
            let ghost s1 = *self;
            self.skip_stmt_separators();
            if self.is_at_end() {
                break;
            }
            match self.parse_item() {
                Some(item) => {
                    proof {
                        lemma_seq_in_mono(&s1.arena, &self.arena);
                    }
                    let ghost old_items = items@;
                    items.push(item);
                    assert(items_in(&self.arena, items@)) by {
                        assert forall|i: int| 0 <= i < items@.len() implies #[trigger] item_in(&self.arena, items@[i]) by {
                            if i < old_items.len() {
                                assert(items@[i] == old_items[i]);
                                assert(item_in(&s1.arena, old_items[i]));
                            }
                        }
                    }
                },
                None => {
                    proof {
                        lemma_seq_in_mono(&s1.arena, &self.arena);
                    }
                    if self.handler.has_errors() {
                        self.synchronize();
                    } else {
                        break;
                    }
                },
            }
            self.skip_stmt_separators();
            if self.pos == iter_start && had_errors {
                break;
            }
        }
        Some(items)
    }

    /// Parses one item, with its attributes and visibility.
    pub fn parse_item(&mut self) -> (r: Option<ItemId>)
        requires
            old(self).wf(),
        ensures
            item_result(&*old(self), &*final(self), r),
            !(old(self).cur() is At) && !(old(self).cur() is KwPub) && !item_keyword(
                old(self).tokens@[skip_nl(old(self).tokens@, old(self).pos as int)].kind,
            ) ==> r is None && final(self).arena == old(self).arena && one_error(
                &old(self).handler,
                &final(self).handler,
                old(self).tokens@[skip_nl(old(self).tokens@, old(self).pos as int)].span,
                "expected item"@,
            ),
            !(old(self).cur() is At) && !(old(self).cur() is KwPub) && old(self).tokens@[skip_nl(
                old(self).tokens@,
                old(self).pos as int,
            )].kind is KwDef ==> (r matches Some(id) ==> (final(self).arena.fits()
                ==> final(self).arena.items()[id.0 as int].kind is Function)),
            !(old(self).cur() is At) && !(old(self).cur() is KwPub) ==> (return_function(
                old(self).tokens@,
                skip_nl(old(self).tokens@, old(self).pos as int),
            ) matches Some((n, k, lit, end)) ==> (final(self).arena.fits() ==> (r matches Some(id) && final(self).pos == end
                && final(self).handler == old(self).handler && fn_returns(&final(self).arena, id, n, k, lit)))),
        decreases old(self).remaining(), 29nat,
    {
        let tokens: &'a [SpannedToken] = self.tokens;
        let attrs = match self.parse_attrs() {
            Some(a) => a,
            None => return None,
        };
        let is_pub = self.eat(TokenKind::KwPub);
        self.skip_layout();
        let start = tokens[self.pos].span;
        proof {
            lemma_bare(&self.arena, attrs@, Seq::empty());
        }
        let kind = match &tokens[self.pos].kind {
            TokenKind::KwDef => self.parse_function_item(is_pub, attrs),
            TokenKind::KwClass => self.parse_class_item(is_pub, attrs),
            TokenKind::KwStruct => self.parse_struct_item(is_pub, attrs),
            TokenKind::KwEnum => self.parse_enum_item(is_pub, attrs),
            TokenKind::KwInterface | TokenKind::KwTrait => self.parse_interface_item(is_pub, attrs),
            TokenKind::KwImpl => self.parse_impl_item(attrs),
            TokenKind::KwImport => self.parse_import_item(),
            TokenKind::KwFrom => self.parse_from_import_item(),
            _ => {
                self.error(start, String::from_str("expected item"));
                return None;
            },
        };
        let kind = match kind {
            Some(k) => k,
            None => return None,
        };
        let span = self.span_from(start);
        proof {
            lemma_members_in_ok(&self.arena);
        }
        let ghost s5 = *self;
        let ghost k = kind;
        let id = self.alloc_item_node(kind, span);
        proof {
            let t = old(self).tokens@;
            let q = skip_nl(t, old(self).pos as int);
            if return_function(t, q) is Some {
                let f = return_function(t, q).unwrap();
                match k {
                    ItemKind::Function { body, .. } => {
                        if body_shape(&s5.arena, body@, f.1, f.2) {
                            lemma_body_prefix_extend(&s5.arena, &self.arena, body@, f.1, f.2);
                        }
                    },
                    _ => {},
                }
            }
        }
        Some(id)
    }

    /// Parses `@name` attributes, each followed by optional layout.
    fn parse_attrs(&mut self) -> (r: Option<Vec<Attribute>>)
        requires
            old(self).wf(),
        ensures
            step(&*old(self), &*final(self)),
            final(self).arena == old(self).arena,
            r matches Some(v) ==> bare_attrs(v@),
            r is None ==> old(self).handler.error_count() < final(self).handler.error_count(),
            !(old(self).cur() is At) ==> (r matches Some(v) && v@.len() == 0) && final(self).pos == old(self).pos
                && final(self).handler == old(self).handler,
        decreases old(self).remaining(), 24nat,
    {
        let tokens: &'a [SpannedToken] = self.tokens;
        let mut attrs: Vec<Attribute> = Vec::new();
        while self.eat(TokenKind::At)
            invariant
                step(&*old(self), &*self),
                tokens@ == self.tokens@,
                self.arena == old(self).arena,
                bare_attrs(attrs@),
                !(old(self).cur() is At) ==> attrs@.len() == 0 && self.pos == old(self).pos && self.handler == old(
                    self,
                ).handler,
            decreases self.remaining(),
        {
            let name = match &tokens[self.pos].kind {
                TokenKind::Ident { name } => {
                    let n = name.clone();
                    self.bump();
                    n
                },
                _ => {
                    self.error_here("expected attribute name");
                    return None;
                },
            };
            let span = tokens[self.pos - 1].span;
            let ghost old_attrs = attrs@;
            attrs.push(Attribute { name, args: Vec::new(), span });
            assert(bare_attrs(attrs@)) by {
                assert forall|i: int| 0 <= i < attrs@.len() implies (#[trigger] attrs@[i]).args@.len() == 0 by {
                    if i < old_attrs.len() {
                        assert(attrs@[i] == old_attrs[i]);
                    }
                }
            }
            self.skip_layout();
        }
        Some(attrs)
    }

    /// Parses `[T, U, ..]` generic parameters, if present.
    fn parse_generics(&mut self) -> (r: Option<Vec<GenericParam>>)
        requires
            old(self).wf(),
        ensures
            step(&*old(self), &*final(self)),
            final(self).arena == old(self).arena,
            r matches Some(v) ==> bare_generics(v@),
            r is None ==> old(self).handler.error_count() < final(self).handler.error_count(),
            !(old(self).cur() is LBracket) ==> (r matches Some(v) && v@.len() == 0 && final(self).pos == old(self).pos
                && final(self).handler == old(self).handler),
        decreases old(self).remaining(), 24nat,
    {
        let tokens: &'a [SpannedToken] = self.tokens;
        let mut params: Vec<GenericParam> = Vec::new();
        if !self.eat(TokenKind::LBracket) {
            return Some(params);
        }
        self.skip_layout();
        if !self.eat(TokenKind::RBracket) {
            loop
                invariant
                    step(&*old(self), &*self),
                    tokens@ == self.tokens@,
                    self.arena == old(self).arena,
                    bare_generics(params@),
                    old(self).cur() is LBracket,
                decreases self.remaining(),
            {
                let start = tokens[self.pos].span;
                let name = match self.parse_ident_name() {
                    Some(n) => n,
                    None => return None,
                };
                let span = self.span_from(start);
                let ghost old_params = params@;
                params.push(GenericParam { name, bounds: Vec::new(), span });
                assert(bare_generics(params@)) by {
                    assert forall|i: int| 0 <= i < params@.len() implies (#[trigger] params@[i]).bounds@.len() == 0 by {
                        if i < old_params.len() {
                            assert(params@[i] == old_params[i]);
                        }
                    }
                }
                self.skip_layout();
                if self.eat(TokenKind::RBracket) {
                    break;
                }
                if !self.eat(TokenKind::Comma) {
                    self.error_here("expected ',' or ']'");
                    return None;
                }
            }
        }
        Some(params)
    }

    /// Parses `def name[generics](params) -> ret: body` (`def` is current).
    fn parse_function_item(&mut self, is_pub: bool, attrs: Vec<Attribute>) -> (r: Option<ItemKind>)
        requires
            old(self).wf(),
            !(old(self).cur() is Eof),
            bare_attrs(attrs@),
        ensures
            kind_result(&*old(self), &*final(self), r),
            r matches Some(k) ==> k is Function,
            return_function(old(self).tokens@, old(self).pos as int) matches Some((n, k, lit, end)) ==> (final(self).arena.fits()
                ==> (r matches Some(ik) && (ik matches ItemKind::Function { name, body, .. } && name == n && final(self).pos
                == end && final(self).handler == old(self).handler && body_shape(&final(self).arena, body@, k, lit)))),
        decreases old(self).remaining(), 27nat,
    {
        proof {
            crate::parse::parser::lemma_skip_nl_idem(old(self).tokens@, old(self).pos + 5);
        }
        self.bump();
        let name = match self.parse_ident_name() {
            Some(n) => n,
            None => return None,
        };
        let generics = match self.parse_generics() {
            Some(g) => g,
            None => return None,
        };
        self.skip_layout();
        if !self.eat(TokenKind::LParen) {
            self.error_here("expected '(' after function name");
            return None;
        }
        let params = match self.parse_params() {
            Some(p) => p,
            None => return None,
        };
        let ghost s1 = *self;
        let ret_ty = if self.eat(TokenKind::Arrow) {
            self.skip_layout();
            match self.parse_ty() {
                Some(t) => Some(t),
                None => return None,
            }
        } else {
            None
        };
        proof {
            lemma_parts_in_mono(&s1.arena, &self.arena);
        }
        self.skip_layout();
        if !self.eat(TokenKind::Colon) {
            self.error_here("expected ':' before function body");
            return None;
        }
        let ghost s2 = *self;
        let body = match self.parse_block() {
            Some(b) => b,
            None => return None,
        };
        proof {
            lemma_parts_in_mono(&s2.arena, &self.arena);
            lemma_bare(&self.arena, attrs@, generics@);
        }
        Some(ItemKind::Function { name, generics, params, ret_ty, body, is_pub, attrs })
    }

    /// Parses parameters after `(` up to and including `)`.
    fn parse_params(&mut self) -> (r: Option<Vec<Param>>)
        requires
            old(self).wf(),
        ensures
            step(&*old(self), &*final(self)),
            r matches Some(v) ==> params_in(&final(self).arena, v@),
            r is None ==> old(self).handler.error_count() < final(self).handler.error_count(),
            old(self).tokens@[skip_nl(old(self).tokens@, old(self).pos as int)].kind is RParen ==> (r matches Some(v)
                && v@.len() == 0 && final(self).pos == skip_nl(old(self).tokens@, old(self).pos as int) + 1
                && final(self).handler == old(self).handler && final(self).arena == old(self).arena),
        decreases old(self).remaining(), 24nat,
    {
        let tokens: &'a [SpannedToken] = self.tokens;
        self.skip_layout();
        let mut params: Vec<Param> = Vec::new();
        if self.eat(TokenKind::RParen) {
            return Some(params);
        }
        loop
            invariant
                step(&*old(self), &*self),
                tokens@ == self.tokens@,
                params_in(&self.arena, params@),
                !(old(self).tokens@[skip_nl(old(self).tokens@, old(self).pos as int)].kind is RParen),
            decreases self.remaining(),
        {
            let ghost s0 = *self;
            let start = tokens[self.pos].span;
            let name = if self.eat(TokenKind::KwSelf) {
                String::from_str("self")
            } else {
                match self.parse_ident_name() {
                    Some(n) => n,
                    None => return None,
                }
            };
            assert(s0.pos < self.pos);
            let ty = if self.eat(TokenKind::Colon) {
                self.skip_layout();
                match self.parse_ty() {
                    Some(t) => Some(t),
                    None => return None,
                }
            } else {
                None
            };
            let ghost s1 = *self;
            let default = if self.eat(TokenKind::Assign) {
                self.skip_layout();
                match self.parse_expr() {
                    Some(e) => Some(e),
                    None => return None,
                }
            } else {
                None
            };
            proof {
                lemma_in_mono(&s1.arena, &self.arena);
                lemma_parts_in_mono(&s0.arena, &self.arena);
            }
            let span = self.span_from(start);
            let ghost old_params = params@;
            params.push(Param { name, ty, default, span });
            assert(params_in(&self.arena, params@)) by {
                assert forall|i: int| 0 <= i < params@.len() implies #[trigger] param_in(&self.arena, params@[i]) by {
                    if i < old_params.len() {
                        assert(params@[i] == old_params[i]);
                    }
                }
            }
            self.skip_layout();
            if self.eat(TokenKind::RParen) {
                break;
            }
            if !self.eat(TokenKind::Comma) {
                self.error_here("expected ',' or ')'");
                return None;
            }
        }
        Some(params)
    }

    /// Parses types separated by commas after `(` up to and including `)`.
    fn parse_ty_list(&mut self) -> (r: Option<Vec<TyId>>)
        requires
            old(self).wf(),
        ensures
            step(&*old(self), &*final(self)),
            r matches Some(v) ==> tys_in(&final(self).arena, v@),
            r is None ==> old(self).handler.error_count() < final(self).handler.error_count(),
        decreases old(self).remaining(), 24nat,
    {
        let mut types: Vec<TyId> = Vec::new();
        if !self.eat(TokenKind::RParen) {
            loop
                invariant
                    step(&*old(self), &*self),
                    tys_in(&self.arena, types@),
                decreases self.remaining(),
            {
                let ghost s0 = *self;
                let t = match self.parse_ty() {
                    Some(t) => t,
                    None => return None,
                };
                proof {
                    lemma_seq_in_mono(&s0.arena, &self.arena);
                }
                let ghost old_types = types@;
                types.push(t);
                assert(tys_in(&self.arena, types@)) by {
                    assert forall|i: int| 0 <= i < types@.len() implies #[trigger] ty_in(&self.arena, types@[i]) by {
                        if i < old_types.len() {
                            assert(types@[i] == old_types[i]);
                            assert(ty_in(&s0.arena, old_types[i]));
                        }
                    }
                }
                self.skip_layout();
                if self.eat(TokenKind::RParen) {
                    break;
                }
                if !self.eat(TokenKind::Comma) {
                    self.error_here("expected ',' or ')'");
                    return None;
                }
            }
        }
        Some(types)
    }

    /// Parses `class Name[generics](bases): body` (`class` is current).
    fn parse_class_item(&mut self, is_pub: bool, attrs: Vec<Attribute>) -> (r: Option<ItemKind>)
        requires
            old(self).wf(),
            !(old(self).cur() is Eof),
            bare_attrs(attrs@),
        ensures
            kind_result(&*old(self), &*final(self), r),
        decreases old(self).remaining(), 27nat,
    {
        self.bump();
        let name = match self.parse_ident_name() {
            Some(n) => n,
            None => return None,
        };
        let generics = match self.parse_generics() {
            Some(g) => g,
            None => return None,
        };
        self.skip_layout();
        let bases = if self.eat(TokenKind::LParen) {
            match self.parse_ty_list() {
                Some(b) => b,
                None => return None,
            }
        } else {
            Vec::new()
        };
        self.skip_layout();
        if !self.eat(TokenKind::Colon) {
            self.error_here("expected ':' after class header");
            return None;
        }
        let ghost s1 = *self;
        let body = match self.parse_item_block() {
            Some(b) => b,
            None => return None,
        };
        proof {
            lemma_seq_in_mono(&s1.arena, &self.arena);
            lemma_bare(&self.arena, attrs@, generics@);
        }
        Some(ItemKind::Class { name, generics, bases, body, is_pub, attrs })
    }

    /// Parses `struct Name[generics]:` and its indented fields (`struct` is
    /// current).
    fn parse_struct_item(&mut self, is_pub: bool, attrs: Vec<Attribute>) -> (r: Option<ItemKind>)
        requires
            old(self).wf(),
            !(old(self).cur() is Eof),
            bare_attrs(attrs@),
        ensures
            kind_result(&*old(self), &*final(self), r),
        decreases old(self).remaining(), 27nat,
    {
        self.bump();
        let name = match self.parse_ident_name() {
            Some(n) => n,
            None => return None,
        };
        let generics = match self.parse_generics() {
            Some(g) => g,
            None => return None,
        };
        self.skip_layout();
        if !self.eat(TokenKind::Colon) {
            self.error_here("expected ':' after struct name");
            return None;
        }
        let fields = match self.parse_struct_fields_block() {
            Some(f) => f,
            None => return None,
        };
        proof {
            lemma_bare(&self.arena, attrs@, generics@);
        }
        Some(ItemKind::Struct { name, generics, fields, is_pub, attrs })
    }

    /// Parses the indented `name: type` lines of a struct.
    fn parse_struct_fields_block(&mut self) -> (r: Option<Vec<FieldDef>>)
        requires
            old(self).wf(),
        ensures
            step(&*old(self), &*final(self)),
            r matches Some(v) ==> field_defs_in(&final(self).arena, v@),
            r is None ==> old(self).handler.error_count() < final(self).handler.error_count(),
        decreases old(self).remaining(), 25nat,
    {
        let tokens: &'a [SpannedToken] = self.tokens;
        if !self.eat(TokenKind::Newline) || !self.eat(TokenKind::Indent) {
            self.error_here("expected indented struct fields");
            return None;
        }
        let mut fields: Vec<FieldDef> = Vec::new();
        while !matches!(tokens[self.pos].kind, TokenKind::Dedent | TokenKind::Eof)
            invariant
                step(&*old(self), &*self),
                tokens@ == self.tokens@,
                field_defs_in(&self.arena, fields@),
            decreases self.remaining(),
        {
            let ghost s0 = *self;
            self.skip_stmt_separators();
            if matches!(tokens[self.pos].kind, TokenKind::Dedent | TokenKind::Eof) {
                break;
            }
            let start = tokens[self.pos].span;
            let name = match self.parse_ident_name() {
                Some(n) => n,
                None => return None,
            };
            if !self.eat(TokenKind::Colon) {
                self.error_here("expected ':' after field name");
                return None;
            }
            self.skip_layout();
            let ty = match self.parse_ty() {
                Some(t) => t,
                None => return None,
            };
            proof {
                lemma_parts_in_mono(&s0.arena, &self.arena);
            }
            let span = self.span_from(start);
            let ghost old_fields = fields@;
            fields.push(FieldDef { name, ty, span });
            assert(field_defs_in(&self.arena, fields@)) by {
                assert forall|i: int| 0 <= i < fields@.len() implies ty_in(&self.arena, #[trigger] fields@[i].ty) by {
                    if i < old_fields.len() {
                        assert(fields@[i] == old_fields[i]);
                    }
                }
            }
            self.skip_stmt_separators();
        }
        self.eat(TokenKind::Dedent);
        Some(fields)
    }

    /// Parses `enum Name[generics]:` and its indented variants (`enum` is
    /// current).
    fn parse_enum_item(&mut self, is_pub: bool, attrs: Vec<Attribute>) -> (r: Option<ItemKind>)
        requires
            old(self).wf(),
            !(old(self).cur() is Eof),
            bare_attrs(attrs@),
        ensures
            kind_result(&*old(self), &*final(self), r),
        decreases old(self).remaining(), 27nat,
    {
        let tokens: &'a [SpannedToken] = self.tokens;
        self.bump();
        let name = match self.parse_ident_name() {
            Some(n) => n,
            None => return None,
        };
        let generics = match self.parse_generics() {
            Some(g) => g,
            None => return None,
        };
        self.skip_layout();
        if !self.eat(TokenKind::Colon) {
            self.error_here("expected ':' after enum name");
            return None;
        }
        if !self.eat(TokenKind::Newline) || !self.eat(TokenKind::Indent) {
            self.error_here("expected indented enum variants");
            return None;
        }
        let mut variants: Vec<Variant> = Vec::new();
        while !matches!(tokens[self.pos].kind, TokenKind::Dedent | TokenKind::Eof)
            invariant
                step(&*old(self), &*self),
                tokens@ == self.tokens@,
                old(self).pos < self.pos,
                variants_in(&self.arena, variants@),
            decreases self.remaining(),
        {
            let ghost s0 = *self;
            self.skip_stmt_separators();
            if matches!(tokens[self.pos].kind, TokenKind::Dedent | TokenKind::Eof) {
                break;
            }
            let start = tokens[self.pos].span;
            let vname = match self.parse_ident_name() {
                Some(n) => n,
                None => return None,
            };
            let fields = if self.eat(TokenKind::LParen) {
                match self.parse_ty_list() {
                    Some(ts) => VariantFields::Tuple(ts),
                    None => return None,
                }
            } else {
                VariantFields::Unit
            };
            proof {
                lemma_parts_in_mono(&s0.arena, &self.arena);
            }
            let span = self.span_from(start);
            let ghost old_variants = variants@;
            variants.push(Variant { name: vname, fields, span });
            assert(variants_in(&self.arena, variants@)) by {
                assert forall|i: int| 0 <= i < variants@.len() implies crate::ast::arena::variant_fields_in(&self.arena, #[trigger] variants@[i].fields) by {
                    if i < old_variants.len() {
                        assert(variants@[i] == old_variants[i]);
                    }
                }
            }
            self.skip_stmt_separators();
        }
        self.eat(TokenKind::Dedent);
        proof {
            lemma_bare(&self.arena, attrs@, generics@);
        }
        Some(ItemKind::Enum { name, generics, variants, is_pub, attrs })
    }

    /// Parses `interface Name[generics]:` and its members (`interface` or
    /// `trait` is current).
    fn parse_interface_item(&mut self, is_pub: bool, attrs: Vec<Attribute>) -> (r: Option<ItemKind>)
        requires
            old(self).wf(),
            !(old(self).cur() is Eof),
            bare_attrs(attrs@),
        ensures
            kind_result(&*old(self), &*final(self), r),
        decreases old(self).remaining(), 27nat,
    {
        self.bump();
        let name = match self.parse_ident_name() {
            Some(n) => n,
            None => return None,
        };
        let generics = match self.parse_generics() {
            Some(g) => g,
            None => return None,
        };
        self.skip_layout();
        if !self.eat(TokenKind::Colon) {
            self.error_here("expected ':' after interface name");
            return None;
        }
        let items = match self.parse_interface_item_block() {
            Some(i) => i,
            None => return None,
        };
        proof {
            lemma_bare(&self.arena, attrs@, generics@);
        }
        Some(ItemKind::Interface { name, generics, items, is_pub, attrs })
    }

    /// Parses the indented members of an interface.
    ///
    /// An iteration that consumes nothing while errors were already reported
    /// would repeat itself forever; the body ends there instead.
    fn parse_interface_item_block(&mut self) -> (r: Option<Vec<InterfaceItem>>)
        requires
            old(self).wf(),
        ensures
            step(&*old(self), &*final(self)),
            r matches Some(v) ==> interface_items_in(&final(self).arena, v@),
            r is None ==> old(self).handler.error_count() < final(self).handler.error_count(),
        decreases old(self).remaining(), 26nat,
    {
        let tokens: &'a [SpannedToken] = self.tokens;
        if !self.eat(TokenKind::Newline) || !self.eat(TokenKind::Indent) {
            self.error_here("expected indented interface body");
            return None;
        }
        let mut items: Vec<InterfaceItem> = Vec::new();
        while !matches!(tokens[self.pos].kind, TokenKind::Dedent | TokenKind::Eof)
            invariant
                step(&*old(self), &*self),
                tokens@ == self.tokens@,
                interface_items_in(&self.arena, items@),
            decreases self.remaining(), if self.handler.error_count() > 0 { 0nat } else { 1nat },
        {
            let iter_start = self.pos;
            let had_errors = self.handler.has_errors();
            let ghost s1 = *self;
            self.skip_stmt_separators();
            if matches!(tokens[self.pos].kind, TokenKind::Dedent | TokenKind::Eof) {
                break;
            }
            match self.parse_interface_member() {
                Some(item) => {
                    proof {
                        lemma_members_in_mono(&s1.arena, &self.arena);
                    }
                    let ghost old_items = items@;
                    items.push(item);
                    assert(interface_items_in(&self.arena, items@)) by {
                        assert forall|i: int| 0 <= i < items@.len() implies #[trigger] interface_item_in(&self.arena, items@[i]) by {
                            if i < old_items.len() {
                                assert(items@[i] == old_items[i]);
                            }
                        }
                    }
                },
                None => {
                    proof {
                        lemma_members_in_mono(&s1.arena, &self.arena);
                    }
                    if self.handler.has_errors() {
                        self.synchronize();
                    } else {
                        break;
                    }
                },
            }
            self.skip_stmt_separators();
            if self.pos == iter_start && had_errors {
                break;
            }
        }
        self.eat(TokenKind::Dedent);
        Some(items)
    }

    /// Parses `def name[generics](params) -> ret` with an optional default
    /// body.
    fn parse_interface_member(&mut self) -> (r: Option<InterfaceItem>)
        requires
            old(self).wf(),
        ensures
            step(&*old(self), &*final(self)),
            r matches Some(it) ==> old(self).pos < final(self).pos && interface_item_in(&final(self).arena, it),
            r is None ==> none_ok(&*old(self), &*final(self)),
        decreases old(self).remaining(), 25nat,
    {
        let tokens: &'a [SpannedToken] = self.tokens;
        let start = tokens[self.pos].span;
        if !self.eat(TokenKind::KwDef) {
            self.error(start, String::from_str("expected 'def' in interface body"));
            return None;
        }
        let name = match self.parse_ident_name() {
            Some(n) => n,
            None => return None,
        };
        let generics = match self.parse_generics() {
            Some(g) => g,
            None => return None,
        };
        self.skip_layout();
        if !self.eat(TokenKind::LParen) {
            self.error_here("expected '('");
            return None;
        }
        let params = match self.parse_params() {
            Some(p) => p,
            None => return None,
        };
        let ghost s1 = *self;
        let ret_ty = if self.eat(TokenKind::Arrow) {
            self.skip_layout();
            match self.parse_ty() {
                Some(t) => Some(t),
                None => return None,
            }
        } else {
            None
        };
        proof {
            lemma_parts_in_mono(&s1.arena, &self.arena);
        }
        self.skip_layout();
        let ghost s2 = *self;
        let default_body = if self.eat(TokenKind::Colon) {
            match self.parse_block() {
                Some(b) => Some(b),
                None => return None,
            }
        } else {
            None
        };
        proof {
            lemma_parts_in_mono(&s2.arena, &self.arena);
            lemma_bare(&self.arena, Seq::empty(), generics@);
        }
        let span = self.span_from(start);
        Some(InterfaceItem::Function { name, generics, params, ret_ty, default_body, span })
    }

    /// Parses `impl[generics] Path for Type:` or `impl[generics] Type:` and
    /// its members (`impl` is current).
    fn parse_impl_item(&mut self, attrs: Vec<Attribute>) -> (r: Option<ItemKind>)
        requires
            old(self).wf(),
            !(old(self).cur() is Eof),
            bare_attrs(attrs@),
        ensures
            kind_result(&*old(self), &*final(self), r),
        decreases old(self).remaining(), 27nat,
    {
        self.bump();
        let generics = match self.parse_generics() {
            Some(g) => g,
            None => return None,
        };
        self.skip_layout();
        let path = match self.parse_path() {
            Some(p) => p,
            None => return None,
        };
        let ghost s1 = *self;
        let (interface_ref, self_ty) = if self.eat(TokenKind::KwFor) {
            self.skip_layout();
            match self.parse_ty() {
                Some(t) => (Some(path), t),
                None => return None,
            }
        } else {
            match self.path_to_ty(path) {
                Some(t) => (None, t),
                None => return None,
            }
        };
        proof {
            lemma_seq_in_mono(&s1.arena, &self.arena);
        }
        self.skip_layout();
        if !self.eat(TokenKind::Colon) {
            self.error_here("expected ':' after impl header");
            return None;
        }
        let ghost s2 = *self;
        let items = match self.parse_impl_item_block() {
            Some(i) => i,
            None => return None,
        };
        proof {
            lemma_in_mono(&s2.arena, &self.arena);
            lemma_seq_in_mono(&s2.arena, &self.arena);
            lemma_bare(&self.arena, attrs@, generics@);
        }
        Some(ItemKind::Impl { generics, interface_ref, self_ty, items, attrs })
    }

    /// Parses the indented members of an impl block.
    ///
    /// An iteration that consumes nothing while errors were already reported
    /// would repeat itself forever; the body ends there instead.
    fn parse_impl_item_block(&mut self) -> (r: Option<Vec<ImplItem>>)
        requires
            old(self).wf(),
        ensures
            step(&*old(self), &*final(self)),
            r matches Some(v) ==> impl_items_in(&final(self).arena, v@),
            r is None ==> old(self).handler.error_count() < final(self).handler.error_count(),
        decreases old(self).remaining(), 26nat,
    {
        let tokens: &'a [SpannedToken] = self.tokens;
        if !self.eat(TokenKind::Newline) || !self.eat(TokenKind::Indent) {
            self.error_here("expected indented impl body");
            return None;
        }
        let mut items: Vec<ImplItem> = Vec::new();
        while !matches!(tokens[self.pos].kind, TokenKind::Dedent | TokenKind::Eof)
            invariant
                step(&*old(self), &*self),
                tokens@ == self.tokens@,
                impl_items_in(&self.arena, items@),
            decreases self.remaining(), if self.handler.error_count() > 0 { 0nat } else { 1nat },
        {
            let iter_start = self.pos;
            let had_errors = self.handler.has_errors();
            let ghost s1 = *self;
            self.skip_stmt_separators();
            if matches!(tokens[self.pos].kind, TokenKind::Dedent | TokenKind::Eof) {
                break;
            }
            match self.parse_impl_member() {
                Some(item) => {
                    proof {
                        lemma_members_in_mono(&s1.arena, &self.arena);
                    }
                    let ghost old_items = items@;
                    items.push(item);
                    assert(impl_items_in(&self.arena, items@)) by {
                        assert forall|i: int| 0 <= i < items@.len() implies #[trigger] impl_item_in(&self.arena, items@[i]) by {
                            if i < old_items.len() {
                                assert(items@[i] == old_items[i]);
                            }
                        }
                    }
                },
                None => {
                    proof {
                        lemma_members_in_mono(&s1.arena, &self.arena);
                    }
                    if self.handler.has_errors() {
                        self.synchronize();
                    } else {
                        break;
                    }
                },
            }
            self.skip_stmt_separators();
            if self.pos == iter_start && had_errors {
                break;
            }
        }
        self.eat(TokenKind::Dedent);
        Some(items)
    }

    /// Parses `def name[generics](params) -> ret: body` inside an impl.
    fn parse_impl_member(&mut self) -> (r: Option<ImplItem>)
        requires
            old(self).wf(),
        ensures
            step(&*old(self), &*final(self)),
            r matches Some(it) ==> old(self).pos < final(self).pos && impl_item_in(&final(self).arena, it),
            r is None ==> none_ok(&*old(self), &*final(self)),
        decreases old(self).remaining(), 25nat,
    {
        let tokens: &'a [SpannedToken] = self.tokens;
        let start = tokens[self.pos].span;
        if !self.eat(TokenKind::KwDef) {
            self.error(start, String::from_str("expected 'def' in impl body"));
            return None;
        }
        let name = match self.parse_ident_name() {
            Some(n) => n,
            None => return None,
        };
        let generics = match self.parse_generics() {
            Some(g) => g,
            None => return None,
        };
        self.skip_layout();
        if !self.eat(TokenKind::LParen) {
            self.error_here("expected '('");
            return None;
        }
        let params = match self.parse_params() {
            Some(p) => p,
            None => return None,
        };
        let ghost s1 = *self;
        let ret_ty = if self.eat(TokenKind::Arrow) {
            self.skip_layout();
            match self.parse_ty() {
                Some(t) => Some(t),
                None => return None,
            }
        } else {
            None
        };
        proof {
            lemma_parts_in_mono(&s1.arena, &self.arena);
        }
        self.skip_layout();
        if !self.eat(TokenKind::Colon) {
            self.error_here("expected ':' before impl method body");
            return None;
        }
        let ghost s2 = *self;
        let body = match self.parse_block() {
            Some(b) => b,
            None => return None,
        };
        proof {
            lemma_parts_in_mono(&s2.arena, &self.arena);
            lemma_bare(&self.arena, Seq::empty(), generics@);
        }
        let span = self.span_from(start);
        Some(ImplItem::Function { name, generics, params, ret_ty, body, span })
    }

    /// The type named by `path`.
    fn path_to_ty(&mut self, path: Path) -> (r: Option<TyId>)
        requires
            old(self).wf(),
            path_in(&old(self).arena, path),
        ensures
            step(&*old(self), &*final(self)),
            final(self).pos == old(self).pos,
            r matches Some(t) && ty_in(&final(self).arena, t),
    {
        let span = path.span;
        proof {
            lemma_seq_in_ok(&self.arena);
        }
        Some(self.alloc_ty_node(TyKind::Path(path), span))
    }

    /// Parses `import a.b.c as name` (`import` is current).
    fn parse_import_item(&mut self) -> (r: Option<ItemKind>)
        requires
            old(self).wf(),
            !(old(self).cur() is Eof),
        ensures
            kind_result(&*old(self), &*final(self), r),
        decreases old(self).remaining(), 27nat,
    {
        self.bump();
        self.skip_layout();
        let path = match self.parse_path() {
            Some(p) => p,
            None => return None,
        };
        let ghost s1 = *self;
        let alias = if self.eat(TokenKind::KwAs) {
            self.skip_layout();
            match self.parse_ident_name() {
                Some(n) => Some(n),
                None => return None,
            }
        } else {
            None
        };
        Some(ItemKind::Import { path, alias })
    }

    /// Parses `from a.b import name as alias` (`from` is current); the
    /// imported name becomes the last segment of the path.
    fn parse_from_import_item(&mut self) -> (r: Option<ItemKind>)
        requires
            old(self).wf(),
            !(old(self).cur() is Eof),
        ensures
            kind_result(&*old(self), &*final(self), r),
        decreases old(self).remaining(), 27nat,
    {
        self.bump();
        self.skip_layout();
        let mut path = match self.parse_path() {
            Some(p) => p,
            None => return None,
        };
        if !self.eat(TokenKind::KwImport) {
            self.error_here("expected 'import' in from-import");
            return None;
        }
        self.skip_layout();
        let name = match self.parse_ident_name() {
            Some(n) => n,
            None => return None,
        };
        let alias = if self.eat(TokenKind::KwAs) {
            self.skip_layout();
            match self.parse_ident_name() {
                Some(n) => Some(n),
                None => return None,
            }
        } else {
            None
        };
        let span = path.span;
        let ghost old_segs = path.segments@;
        assert(forall|i: int| 0 <= i < old_segs.len() ==> tys_in(&self.arena, #[trigger] old_segs[i].args@));
        let seg = PathSegment { ident: name, args: Vec::new(), span };
        let ghost gseg = seg;
        assert(gseg.args@.len() == 0);
        path.segments.push(seg);
        assert(path.segments@ == old_segs.push(gseg));
        assert(path_in(&self.arena, path)) by {
            assert forall|i: int| 0 <= i < path.segments@.len() implies tys_in(&self.arena, #[trigger] path.segments@[i].args@) by {
                if i < old_segs.len() {
                    assert(path.segments@[i] == old_segs[i]);
                    assert(tys_in(&self.arena, old_segs[i].args@));
                } else {
                    assert(path.segments@[i] == gseg);
                    assert(gseg.args@ =~= Seq::<TyId>::empty());
                }
            }
        }
        Some(ItemKind::Import { path, alias })
    }

    /// Parses an indented block of items.
    ///
    /// An iteration that consumes nothing while errors were already reported
    /// would repeat itself forever; the block ends there instead.
    fn parse_item_block(&mut self) -> (r: Option<Vec<ItemId>>)
        requires
            old(self).wf(),
        ensures
            items_result(&*old(self), &*final(self), r),
        decreases old(self).remaining(), 28nat,
    {
        let tokens: &'a [SpannedToken] = self.tokens;
        if !self.eat(TokenKind::Newline) || !self.eat(TokenKind::Indent) {
            self.error_here("expected indented item block");
            return None;
        }
        let mut items: Vec<ItemId> = Vec::new();
        while !matches!(tokens[self.pos].kind, TokenKind::Dedent | TokenKind::Eof)
            invariant
                step(&*old(self), &*self),
                tokens@ == self.tokens@,
                old(self).pos < self.pos,
                items_in(&self.arena, items@),
            decreases self.remaining(), if self.handler.error_count() > 0 { 0nat } else { 1nat },
        {
            let iter_start = self.pos;
            let had_errors = self.handler.has_errors();
            let ghost s1 = *self;
            self.skip_stmt_separators();
            if matches!(tokens[self.pos].kind, TokenKind::Dedent | TokenKind::Eof) {
                break;
            }
            match self.parse_item() {
                Some(item) => {
                    proof {
                        lemma_seq_in_mono(&s1.arena, &self.arena);
                    }
                    let ghost old_items = items@;
                    items.push(item);
                    assert(items_in(&self.arena, items@)) by {
                        assert forall|i: int| 0 <= i < items@.len() implies #[trigger] item_in(&self.arena, items@[i]) by {
                            if i < old_items.len() {
                                assert(items@[i] == old_items[i]);
                                assert(item_in(&s1.arena, old_items[i]));
                            }
                        }
                    }
                },
                None => {
                    proof {
                        lemma_seq_in_mono(&s1.arena, &self.arena);
                    }
                    if self.handler.has_errors() {
                        self.synchronize();
                    } else {
                        break;
                    }
                },
            }
            self.skip_stmt_separators();
            if self.pos == iter_start && had_errors {
                break;
            }
        }
        self.eat(TokenKind::Dedent);
        Some(items)
    }

    /// Parses an identifier and yields its name.
    pub fn parse_ident_name(&mut self) -> (r: Option<String>)
        requires
            old(self).wf(),
        ensures
            step(&*old(self), &*final(self)),
            final(self).arena == old(self).arena,
            r matches Some(n) ==> old(self).cur() matches TokenKind::Ident { name } && n == name
                && final(self).pos == old(self).pos + 1 && final(self).handler == old(self).handler,
            r is None ==> final(self).pos == old(self).pos && !(old(self).cur() is Ident)
                && crate::parse::parser::one_error(&old(self).handler, &final(self).handler, old(self).cur_span(), "expected identifier"@),
    {
        let tokens: &'a [SpannedToken] = self.tokens;
        match &tokens[self.pos].kind {
            TokenKind::Ident { name } => {
                let n = name.clone();
                self.bump();
                Some(n)
            },
            _ => {
                self.error_here("expected identifier");
                proof {
                    reveal_strlit("expected identifier");
                }
                None
            },
        }
    }
}

} // verus!
