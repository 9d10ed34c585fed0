//! Tokens: what the lexer hands to the parser.

use vstd::prelude::*;

use crate::span::Span;

verus! {

/// An integer literal and the notation it was written in.
#[derive(Clone, Copy, Debug, PartialEq, Eq, Structural)]
pub enum IntLiteral {
    Decimal(i64),
    Hex(i64),
    Bin(i64),
}

/// Token kinds. A float literal carries the text that Rust's `Display`
/// gives for its value.
#[derive(Clone, Debug)]
pub enum TokenKind {
    Eof,
    Newline,
    Indent,
    Dedent,
    Assign,
    KwOr,
    KwAnd,
    EqEq,
    NotEq,
    Lt,
    LtEq,
    Gt,
    GtEq,
    Plus,
    Minus,
    Star,
    Slash,
    FloorDiv,
    Percent,
    Bang,
    KwTrue,
    KwFalse,
    KwNone,
    KwSelf,
    LParen,
    RParen,
    LBracket,
    RBracket,
    LBrace,
    RBrace,
    Comma,
    KwIf,
    KwElse,
    KwElif,
    Colon,
    Dot,
    KwDef,
    KwClass,
    KwStruct,
    KwEnum,
    KwImpl,
    KwInterface,
    KwTrait,
    KwImport,
    KwFrom,
    KwWhile,
    KwFor,
    KwReturn,
    KwPass,
    KwBreak,
    KwContinue,
    KwPub,
    At,
    KwIn,
    FatArrow,
    Underscore,
    Arrow,
    AmpMut,
    Amp,
    KwAs,
    IntLit { value: IntLiteral },
    FloatLit { value: String },
    StringLit { value: String },
    BytesLit { value: Vec<u8> },
    BoolLit(bool),
    Ident { name: String },
}

/// A token with its source span.
#[derive(Clone, Debug)]
pub struct SpannedToken {
    pub kind: TokenKind,
    pub span: Span,
}

/// A lexed file: its tokens, ending with `Eof`.
#[derive(Clone, Debug)]
pub struct TokenStream {
    pub tokens: Vec<SpannedToken>,
}

/// The variant number of a token kind; two kinds are the same variant when
/// their numbers agree.
pub open spec fn spec_tag(k: TokenKind) -> u8 {
    match k {
        TokenKind::Eof => 0,
        TokenKind::Newline => 1,
        TokenKind::Indent => 2,
        TokenKind::Dedent => 3,
        TokenKind::Assign => 4,
        TokenKind::KwOr => 5,
        TokenKind::KwAnd => 6,
        TokenKind::EqEq => 7,
        TokenKind::NotEq => 8,
        TokenKind::Lt => 9,
        TokenKind::LtEq => 10,
        TokenKind::Gt => 11,
        TokenKind::GtEq => 12,
        TokenKind::Plus => 13,
        TokenKind::Minus => 14,
        TokenKind::Star => 15,
        TokenKind::Slash => 16,
        TokenKind::FloorDiv => 17,
        TokenKind::Percent => 18,
        TokenKind::Bang => 19,
        TokenKind::KwTrue => 20,
        TokenKind::KwFalse => 21,
        TokenKind::KwNone => 22,
        TokenKind::KwSelf => 23,
        TokenKind::LParen => 24,
        TokenKind::RParen => 25,
        TokenKind::LBracket => 26,
        TokenKind::RBracket => 27,
        TokenKind::LBrace => 28,
        TokenKind::RBrace => 29,
        TokenKind::Comma => 30,
        TokenKind::KwIf => 31,
        TokenKind::KwElse => 32,
        TokenKind::KwElif => 33,
        TokenKind::Colon => 34,
        TokenKind::Dot => 35,
        TokenKind::KwDef => 36,
        TokenKind::KwClass => 37,
        TokenKind::KwStruct => 38,
        TokenKind::KwEnum => 39,
        TokenKind::KwImpl => 40,
        TokenKind::KwInterface => 41,
        TokenKind::KwTrait => 42,
        TokenKind::KwImport => 43,
        TokenKind::KwFrom => 44,
        TokenKind::KwWhile => 45,
        TokenKind::KwFor => 46,
        TokenKind::KwReturn => 47,
        TokenKind::KwPass => 48,
        TokenKind::KwBreak => 49,
        TokenKind::KwContinue => 50,
        TokenKind::KwPub => 51,
        TokenKind::At => 52,
        TokenKind::KwIn => 53,
        TokenKind::FatArrow => 54,
        TokenKind::Underscore => 55,
        TokenKind::Arrow => 56,
        TokenKind::AmpMut => 57,
        TokenKind::Amp => 58,
        TokenKind::KwAs => 59,
        TokenKind::IntLit { .. } => 60,
        TokenKind::FloatLit { .. } => 61,
        TokenKind::StringLit { .. } => 62,
        TokenKind::BytesLit { .. } => 63,
        TokenKind::BoolLit(_) => 64,
        TokenKind::Ident { .. } => 65,
    }
}

/// How an operator token is written in source; `None` for the other
/// tokens.
pub open spec fn operator_spelling(k: TokenKind) -> Option<Seq<char>> {
    match k {
        TokenKind::KwOr => Some("or"@),
        TokenKind::KwAnd => Some("and"@),
        TokenKind::EqEq => Some("=="@),
        TokenKind::NotEq => Some("!="@),
        TokenKind::Lt => Some("<"@),
        TokenKind::LtEq => Some("<="@),
        TokenKind::Gt => Some(">"@),
        TokenKind::GtEq => Some(">="@),
        TokenKind::Plus => Some("+"@),
        TokenKind::Minus => Some("-"@),
        TokenKind::Star => Some("*"@),
        TokenKind::Slash => Some("/"@),
        TokenKind::FloorDiv => Some("//"@),
        TokenKind::Percent => Some("%"@),
        _ => None,
    }
}

/// The name of a kind's variant.
pub open spec fn spec_name(k: TokenKind) -> Seq<char> {
    match k {
        TokenKind::Eof => "Eof"@,
        TokenKind::Newline => "Newline"@,
        TokenKind::Indent => "Indent"@,
        TokenKind::Dedent => "Dedent"@,
        TokenKind::Assign => "Assign"@,
        TokenKind::KwOr => "KwOr"@,
        TokenKind::KwAnd => "KwAnd"@,
        TokenKind::EqEq => "EqEq"@,
        TokenKind::NotEq => "NotEq"@,
        TokenKind::Lt => "Lt"@,
        TokenKind::LtEq => "LtEq"@,
        TokenKind::Gt => "Gt"@,
        TokenKind::GtEq => "GtEq"@,
        TokenKind::Plus => "Plus"@,
        TokenKind::Minus => "Minus"@,
        TokenKind::Star => "Star"@,
        TokenKind::Slash => "Slash"@,
        TokenKind::FloorDiv => "FloorDiv"@,
        TokenKind::Percent => "Percent"@,
        TokenKind::Bang => "Bang"@,
        TokenKind::KwTrue => "KwTrue"@,
        TokenKind::KwFalse => "KwFalse"@,
        TokenKind::KwNone => "KwNone"@,
        TokenKind::KwSelf => "KwSelf"@,
        TokenKind::LParen => "LParen"@,
        TokenKind::RParen => "RParen"@,
        TokenKind::LBracket => "LBracket"@,
        TokenKind::RBracket => "RBracket"@,
        TokenKind::LBrace => "LBrace"@,
        TokenKind::RBrace => "RBrace"@,
        TokenKind::Comma => "Comma"@,
        TokenKind::KwIf => "KwIf"@,
        TokenKind::KwElse => "KwElse"@,
        TokenKind::KwElif => "KwElif"@,
        TokenKind::Colon => "Colon"@,
        TokenKind::Dot => "Dot"@,
        TokenKind::KwDef => "KwDef"@,
        TokenKind::KwClass => "KwClass"@,
        TokenKind::KwStruct => "KwStruct"@,
        TokenKind::KwEnum => "KwEnum"@,
        TokenKind::KwImpl => "KwImpl"@,
        TokenKind::KwInterface => "KwInterface"@,
        TokenKind::KwTrait => "KwTrait"@,
        TokenKind::KwImport => "KwImport"@,
        TokenKind::KwFrom => "KwFrom"@,
        TokenKind::KwWhile => "KwWhile"@,
        TokenKind::KwFor => "KwFor"@,
        TokenKind::KwReturn => "KwReturn"@,
        TokenKind::KwPass => "KwPass"@,
        TokenKind::KwBreak => "KwBreak"@,
        TokenKind::KwContinue => "KwContinue"@,
        TokenKind::KwPub => "KwPub"@,
        TokenKind::At => "At"@,
        TokenKind::KwIn => "KwIn"@,
        TokenKind::FatArrow => "FatArrow"@,
        TokenKind::Underscore => "Underscore"@,
        TokenKind::Arrow => "Arrow"@,
        TokenKind::AmpMut => "AmpMut"@,
        TokenKind::Amp => "Amp"@,
        TokenKind::KwAs => "KwAs"@,
        TokenKind::IntLit { .. } => "IntLit"@,
        TokenKind::FloatLit { .. } => "FloatLit"@,
        TokenKind::StringLit { .. } => "StringLit"@,
        TokenKind::BytesLit { .. } => "BytesLit"@,
        TokenKind::BoolLit(_) => "BoolLit"@,
        TokenKind::Ident { .. } => "Ident"@,
    }
}

impl TokenKind {
    /// The variant number of this kind.
    pub fn tag(&self) -> (t: u8)
        ensures
            t == spec_tag(*self),
    {
        match self {
        TokenKind::Eof => 0,
        TokenKind::Newline => 1,
        TokenKind::Indent => 2,
        TokenKind::Dedent => 3,
        TokenKind::Assign => 4,
        TokenKind::KwOr => 5,
        TokenKind::KwAnd => 6,
        TokenKind::EqEq => 7,
        TokenKind::NotEq => 8,
        TokenKind::Lt => 9,
        TokenKind::LtEq => 10,
        TokenKind::Gt => 11,
        TokenKind::GtEq => 12,
        TokenKind::Plus => 13,
        TokenKind::Minus => 14,
        TokenKind::Star => 15,
        TokenKind::Slash => 16,
        TokenKind::FloorDiv => 17,
        TokenKind::Percent => 18,
        TokenKind::Bang => 19,
        TokenKind::KwTrue => 20,
        TokenKind::KwFalse => 21,
        TokenKind::KwNone => 22,
        TokenKind::KwSelf => 23,
        TokenKind::LParen => 24,
        TokenKind::RParen => 25,
        TokenKind::LBracket => 26,
        TokenKind::RBracket => 27,
        TokenKind::LBrace => 28,
        TokenKind::RBrace => 29,
        TokenKind::Comma => 30,
        TokenKind::KwIf => 31,
        TokenKind::KwElse => 32,
        TokenKind::KwElif => 33,
        TokenKind::Colon => 34,
        TokenKind::Dot => 35,
        TokenKind::KwDef => 36,
        TokenKind::KwClass => 37,
        TokenKind::KwStruct => 38,
        TokenKind::KwEnum => 39,
        TokenKind::KwImpl => 40,
        TokenKind::KwInterface => 41,
        TokenKind::KwTrait => 42,
        TokenKind::KwImport => 43,
        TokenKind::KwFrom => 44,
        TokenKind::KwWhile => 45,
        TokenKind::KwFor => 46,
        TokenKind::KwReturn => 47,
        TokenKind::KwPass => 48,
        TokenKind::KwBreak => 49,
        TokenKind::KwContinue => 50,
        TokenKind::KwPub => 51,
        TokenKind::At => 52,
        TokenKind::KwIn => 53,
        TokenKind::FatArrow => 54,
        TokenKind::Underscore => 55,
        TokenKind::Arrow => 56,
        TokenKind::AmpMut => 57,
        TokenKind::Amp => 58,
        TokenKind::KwAs => 59,
        TokenKind::IntLit { .. } => 60,
        TokenKind::FloatLit { .. } => 61,
        TokenKind::StringLit { .. } => 62,
        TokenKind::BytesLit { .. } => 63,
        TokenKind::BoolLit(_) => 64,
        TokenKind::Ident { .. } => 65,
        }
    }

    /// The name of this kind's variant.
    pub fn name(&self) -> (s: &'static str)
        ensures
            s@ == spec_name(*self),
    {
        match self {
            TokenKind::Eof => "Eof",
            TokenKind::Newline => "Newline",
            TokenKind::Indent => "Indent",
            TokenKind::Dedent => "Dedent",
            TokenKind::Assign => "Assign",
            TokenKind::KwOr => "KwOr",
            TokenKind::KwAnd => "KwAnd",
            TokenKind::EqEq => "EqEq",
            TokenKind::NotEq => "NotEq",
            TokenKind::Lt => "Lt",
            TokenKind::LtEq => "LtEq",
            TokenKind::Gt => "Gt",
            TokenKind::GtEq => "GtEq",
            TokenKind::Plus => "Plus",
            TokenKind::Minus => "Minus",
            TokenKind::Star => "Star",
            TokenKind::Slash => "Slash",
            TokenKind::FloorDiv => "FloorDiv",
            TokenKind::Percent => "Percent",
            TokenKind::Bang => "Bang",
            TokenKind::KwTrue => "KwTrue",
            TokenKind::KwFalse => "KwFalse",
            TokenKind::KwNone => "KwNone",
            TokenKind::KwSelf => "KwSelf",
            TokenKind::LParen => "LParen",
            TokenKind::RParen => "RParen",
            TokenKind::LBracket => "LBracket",
            TokenKind::RBracket => "RBracket",
            TokenKind::LBrace => "LBrace",
            TokenKind::RBrace => "RBrace",
            TokenKind::Comma => "Comma",
            TokenKind::KwIf => "KwIf",
            TokenKind::KwElse => "KwElse",
            TokenKind::KwElif => "KwElif",
            TokenKind::Colon => "Colon",
            TokenKind::Dot => "Dot",
            TokenKind::KwDef => "KwDef",
            TokenKind::KwClass => "KwClass",
            TokenKind::KwStruct => "KwStruct",
            TokenKind::KwEnum => "KwEnum",
            TokenKind::KwImpl => "KwImpl",
            TokenKind::KwInterface => "KwInterface",
            TokenKind::KwTrait => "KwTrait",
            TokenKind::KwImport => "KwImport",
            TokenKind::KwFrom => "KwFrom",
            TokenKind::KwWhile => "KwWhile",
            TokenKind::KwFor => "KwFor",
            TokenKind::KwReturn => "KwReturn",
            TokenKind::KwPass => "KwPass",
            TokenKind::KwBreak => "KwBreak",
            TokenKind::KwContinue => "KwContinue",
            TokenKind::KwPub => "KwPub",
            TokenKind::At => "At",
            TokenKind::KwIn => "KwIn",
            TokenKind::FatArrow => "FatArrow",
            TokenKind::Underscore => "Underscore",
            TokenKind::Arrow => "Arrow",
            TokenKind::AmpMut => "AmpMut",
            TokenKind::Amp => "Amp",
            TokenKind::KwAs => "KwAs",
            TokenKind::IntLit { .. } => "IntLit",
            TokenKind::FloatLit { .. } => "FloatLit",
            TokenKind::StringLit { .. } => "StringLit",
            TokenKind::BytesLit { .. } => "BytesLit",
            TokenKind::BoolLit(_) => "BoolLit",
            TokenKind::Ident { .. } => "Ident",
        }
    }
}

impl TokenStream {
    /// The tokens, in order.
    pub fn tokens(&self) -> (t: &[SpannedToken])
        ensures
            t@ == self.tokens@,
    {
        self.tokens.as_slice()
    }
}

} // verus!
