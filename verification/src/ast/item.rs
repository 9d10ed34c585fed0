use vstd::prelude::*;

use crate::ast::path::Path;
use crate::ids::{ExprId, ItemId, StmtId, TyId};
use crate::span::Span;

verus! {

/// A top-level or nested item (definition).
#[derive(Clone, Debug)]
pub struct Item {
    pub kind: ItemKind,
    pub span: Span,
}

/// Item kinds.
#[derive(Clone, Debug)]
pub enum ItemKind {
    Function {
        name: String,
        generics: Vec<GenericParam>,
        params: Vec<Param>,
        ret_ty: Option<TyId>,
        body: Vec<StmtId>,
        is_pub: bool,
        attrs: Vec<Attribute>,
    },
    Class {
        name: String,
        generics: Vec<GenericParam>,
        bases: Vec<TyId>,
        body: Vec<ItemId>,
        is_pub: bool,
        attrs: Vec<Attribute>,
    },
    Struct {
        name: String,
        generics: Vec<GenericParam>,
        fields: Vec<FieldDef>,
        is_pub: bool,
        attrs: Vec<Attribute>,
    },
    Enum {
        name: String,
        generics: Vec<GenericParam>,
        variants: Vec<Variant>,
        is_pub: bool,
        attrs: Vec<Attribute>,
    },
    Interface {
        name: String,
        generics: Vec<GenericParam>,
        items: Vec<InterfaceItem>,
        is_pub: bool,
        attrs: Vec<Attribute>,
    },
    Impl {
        generics: Vec<GenericParam>,
        interface_ref: Option<Path>,
        self_ty: TyId,
        items: Vec<ImplItem>,
        attrs: Vec<Attribute>,
    },
    Const { name: String, ty: TyId, value: ExprId, is_pub: bool },
    Import { path: Path, alias: Option<String> },
    ExternBlock { abi: Abi, items: Vec<ExternItem> },
    Module { name: String, items: Vec<ItemId> },
}

/// Source attribute (`@name` or `@name(args)`).
#[derive(Clone, Debug)]
pub struct Attribute {
    pub name: String,
    pub args: Vec<ExprId>,
    pub span: Span,
}

/// Generic type parameter (`T`, `T: Bound`).
#[derive(Clone, Debug)]
pub struct GenericParam {
    pub name: String,
    pub bounds: Vec<TyId>,
    pub span: Span,
}

/// Function or method parameter.
#[derive(Clone, Debug)]
pub struct Param {
    pub name: String,
    pub ty: Option<TyId>,
    pub default: Option<ExprId>,
    pub span: Span,
}

/// Struct or record field definition.
#[derive(Clone, Debug)]
pub struct FieldDef {
    pub name: String,
    pub ty: TyId,
    pub span: Span,
}

/// Enum variant definition.
#[derive(Clone, Debug)]
pub struct Variant {
    pub name: String,
    pub fields: VariantFields,
    pub span: Span,
}

/// Fields carried by an enum variant.
#[derive(Clone, Debug)]
pub enum VariantFields {
    Unit,
    Tuple(Vec<TyId>),
    Struct(Vec<FieldDef>),
}

/// Item inside an `interface` block.
#[derive(Clone, Debug)]
pub enum InterfaceItem {
    Function {
        name: String,
        generics: Vec<GenericParam>,
        params: Vec<Param>,
        ret_ty: Option<TyId>,
        default_body: Option<Vec<StmtId>>,
        span: Span,
    },
    Type { name: String, ty: Option<TyId>, span: Span },
}

/// Item inside an `impl` block.
#[derive(Clone, Debug)]
pub enum ImplItem {
    Function {
        name: String,
        generics: Vec<GenericParam>,
        params: Vec<Param>,
        ret_ty: Option<TyId>,
        body: Vec<StmtId>,
        span: Span,
    },
    Const { name: String, ty: TyId, value: ExprId, span: Span },
    Type { name: String, ty: TyId, span: Span },
}

/// Item inside an `extern` block.
#[derive(Clone, Debug)]
pub enum ExternItem {
    Function { name: String, params: Vec<Param>, ret_ty: Option<TyId>, span: Span },
    Static { name: String, ty: TyId, mutability: Mutability, span: Span },
}

/// ABI for `extern` blocks.
#[derive(Clone, Debug)]
pub enum Abi {
    C,
    RPython,
    Other(String),
}

/// Mutability for `extern` statics.
#[derive(Clone, Copy, Debug, PartialEq, Eq, Structural, Hash)]
pub enum Mutability {
    Imm,
    Mut,
}

} // verus!
