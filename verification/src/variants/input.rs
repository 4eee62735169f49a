//! The declaration that class lists are derived for, as far as the
//! derivation reads it: the cases of an enum, the fields of each case, and
//! the tokens of its attributes.

use vstd::prelude::*;
use crate::text::strs;
use crate::tokens::{views, Span, Token, TokenView};

verus! {

/// The fields of a case with named fields: their names, in order.
#[derive(Debug, PartialEq, Eq)]
pub struct FieldsNamed {
    pub named: Vec<String>,
    pub span: Span,
}

/// The fields of a case with positional fields: how many there are.
#[derive(Clone, Copy, Debug, PartialEq, Eq, Structural)]
pub struct FieldsUnnamed {
    pub len: usize,
    pub span: Span,
}

/// The fields of a case.
#[derive(Debug, PartialEq, Eq)]
pub enum Fields {
    Named(FieldsNamed),
    Unnamed(FieldsUnnamed),
    Unit,
}

pub ghost enum FieldsView {
    Named { names: Seq<Seq<char>>, span: Span },
    Unnamed { len: usize, span: Span },
    Unit,
}

impl View for Fields {
    type V = FieldsView;

    open spec fn view(&self) -> FieldsView {
        match self {
            Fields::Named(fields) => FieldsView::Named {
                names: strs(fields.named@),
                span: fields.span,
            },
            Fields::Unnamed(fields) => FieldsView::Unnamed { len: fields.len, span: fields.span },
            Fields::Unit => FieldsView::Unit,
        }
    }
}

/// An attribute: only a list, `path(tokens)`, is read.
#[derive(Debug, PartialEq, Eq)]
pub enum Meta {
    Path,
    List { path: String, tokens: Vec<Token> },
    NameValue,
}

pub ghost enum MetaView {
    Path,
    List { path: Seq<char>, tokens: Seq<TokenView> },
    NameValue,
}

impl View for Meta {
    type V = MetaView;

    open spec fn view(&self) -> MetaView {
        match self {
            Meta::Path => MetaView::Path,
            Meta::List { path, tokens } => MetaView::List { path: path@, tokens: views(tokens@) },
            Meta::NameValue => MetaView::NameValue,
        }
    }
}

/// The views of a sequence of attributes.
pub open spec fn meta_views(attrs: Seq<Meta>) -> Seq<MetaView> {
    attrs.map_values(|m: Meta| m@)
}

/// One case of an enum.
#[derive(Debug, PartialEq, Eq)]
pub struct Variant {
    pub ident: String,
    pub fields: Fields,
    pub attrs: Vec<Meta>,
}

pub ghost struct VariantView {
    pub ident: Seq<char>,
    pub fields: FieldsView,
    pub attrs: Seq<MetaView>,
}

impl View for Variant {
    type V = VariantView;

    open spec fn view(&self) -> VariantView {
        VariantView { ident: self.ident@, fields: self.fields@, attrs: meta_views(self.attrs@) }
    }
}

/// The views of a sequence of cases.
pub open spec fn variant_views(variants: Seq<Variant>) -> Seq<VariantView> {
    variants.map_values(|v: Variant| v@)
}

/// What a declaration says of generic parameters.
#[derive(Clone, Copy, Debug, PartialEq, Eq, Structural)]
pub struct Generics {
    pub lt_token: bool,
    pub gt_token: bool,
    pub params: usize,
    pub where_clause: bool,
    pub span: Span,
}

/// What is declared.
#[derive(Debug, PartialEq, Eq)]
pub enum Data {
    Enum(Vec<Variant>),
    Struct,
    Union,
}

pub ghost enum DataView {
    Enum(Seq<VariantView>),
    Struct,
    Union,
}

impl View for Data {
    type V = DataView;

    open spec fn view(&self) -> DataView {
        match self {
            Data::Enum(variants) => DataView::Enum(variant_views(variants@)),
            Data::Struct => DataView::Struct,
            Data::Union => DataView::Union,
        }
    }
}

/// A declaration.
#[derive(Debug, PartialEq, Eq)]
pub struct DeriveInput {
    pub ident: String,
    pub generics: Generics,
    pub data: Data,
    pub span: Span,
}

pub ghost struct DeriveInputView {
    pub ident: Seq<char>,
    pub generics: Generics,
    pub data: DataView,
    pub span: Span,
}

impl View for DeriveInput {
    type V = DeriveInputView;

    open spec fn view(&self) -> DeriveInputView {
        DeriveInputView {
            ident: self.ident@,
            generics: self.generics,
            data: self.data@,
            span: self.span,
        }
    }
}

} // verus!
