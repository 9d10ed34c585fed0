//! Recursive-descent parser for rPython.

pub mod expr;
pub mod item;
pub mod parser;
pub mod stmt;
pub mod ty;

pub use parser::Parser;

use vstd::prelude::*;

use crate::ast::arena::{arena_extends, items_in, Arena};
use crate::ast::Module;
use crate::errors::Handler;
use crate::parse::item::{fn_returns, module_of_return_function};
use crate::parse::parser::{lemma_skip_nl_idem, skip_nl};
use crate::span::{spec_merge, Span};
use crate::syntax::{TokenKind, TokenStream};

verus! {

broadcast use crate::parse::parser::lemma_step_trans;

/// Parses a token stream into a module; the nodes go into `arena` and the
/// diagnostics into `handler`.
///
/// An empty stream yields no module. Otherwise the stream ends with `Eof`
/// (as the tokenizer makes it) and the module spans from the first token to
/// the last.
pub fn parse_module(tokens: TokenStream, arena: &mut Arena, handler: &mut Handler) -> (r: Option<Module>)
    requires
        tokens.tokens@.len() > 0 ==> tokens.tokens@.last().kind is Eof,
        old(arena).fits() ==> old(arena).wf(),
        old(handler).wf(),
    ensures
        r is None <==> tokens.tokens@.len() == 0,
        r is None ==> *final(arena) == *old(arena) && *final(handler) == *old(handler),
        arena_extends(&*old(arena), &*final(arena)),
        final(arena).fits() ==> final(arena).wf(),
        final(handler).wf(),
        old(handler).diags().len() <= final(handler).diags().len(),
        forall|i: int| 0 <= i < old(handler).diags().len() ==> #[trigger] final(handler).diags()[i] == old(handler).diags()[i],
        r matches Some(m) ==> items_in(&*final(arena), m.items@),
        r matches Some(m) ==> m.span == spec_merge(tokens.tokens@[0].span, tokens.tokens@.last().span),
        module_of_return_function(tokens.tokens@) matches Some((n, k, lit)) ==> (final(arena).fits() ==> (r matches Some(
            m,
        ) && m.items@.len() == 1 && *final(handler) == *old(handler) && fn_returns(&*final(arena), m.items@[0], n, k, lit))),
{
    let slice = tokens.tokens();
    if slice.len() == 0 {
        return None;
    }
    let start = slice[0].span;
    let mut a = Arena::new();
    let mut h = Handler::new();
    std::mem::swap(&mut a, arena);
    std::mem::swap(&mut h, handler);
    let mut parser = Parser::new(slice, a, h);
    proof {
        lemma_skip_nl_idem(slice@, 0);
    }
    parser.skip_stmt_separators();
    let ghost p0 = parser;
    let items = match parser.parse_module_items() {
        Some(items) => items,
        None => Vec::new(),
    };
    parser.skip_stmt_separators();
    if !parser.is_at_end() && !matches!(slice[parser.pos].kind, TokenKind::Eof) {
        let sp = slice[parser.pos].span;
        parser.error(sp, String::from_str("unexpected tokens after module items"));
    }
    let end = slice[slice.len() - 1].span;
    let span = Span::merge(start, end);
    let Parser { arena: a2, handler: h2, .. } = parser;
    let mut a2 = a2;
    let mut h2 = h2;
    std::mem::swap(&mut a2, arena);
    std::mem::swap(&mut h2, handler);
    Some(Module { items, span })
}

} // verus!
