//! Items: what an annotation of a whole block or type stands on.

use vstd::prelude::*;
use crate::lift::{option_view, views};
use crate::meta::{Attribute, AttributeView, Ident, IdentView, ItemSig, ItemSigView, Span};

verus! {

/// A block of member functions: an implementation block or a trait.
#[derive(Debug, PartialEq, Eq)]
pub struct ItemBlock {
    /// The member functions of the block, in source order.
    pub methods: Vec<ItemSig>,
    pub span: Span,
}

pub struct ItemBlockView {
    pub methods: Seq<ItemSigView>,
    pub span: Span,
}

impl View for ItemBlock {
    type V = ItemBlockView;

    open spec fn view(&self) -> ItemBlockView {
        ItemBlockView { methods: views(self.methods@), span: self.span }
    }
}

/// A field of a record: named, or known by its position alone.
#[derive(Debug, PartialEq, Eq)]
pub struct Field {
    pub ident: Option<Ident>,
}

pub struct FieldView {
    pub ident: Option<IdentView>,
}

impl View for Field {
    type V = FieldView;

    open spec fn view(&self) -> FieldView {
        FieldView { ident: option_view(self.ident) }
    }
}

/// A record type.
#[derive(Debug, PartialEq, Eq)]
pub struct ItemStruct {
    pub ident: Ident,
    pub attrs: Vec<Attribute>,
    pub fields: Vec<Field>,
    pub span: Span,
}

pub struct ItemStructView {
    pub ident: IdentView,
    pub attrs: Seq<AttributeView>,
    pub fields: Seq<FieldView>,
    pub span: Span,
}

impl View for ItemStruct {
    type V = ItemStructView;

    open spec fn view(&self) -> ItemStructView {
        ItemStructView {
            ident: self.ident@,
            attrs: views(self.attrs@),
            fields: views(self.fields@),
            span: self.span,
        }
    }
}

/// A type with variants.
#[derive(Debug, PartialEq, Eq)]
pub struct ItemEnum {
    pub ident: Ident,
    pub attrs: Vec<Attribute>,
    pub span: Span,
}

pub struct ItemEnumView {
    pub ident: IdentView,
    pub attrs: Seq<AttributeView>,
    pub span: Span,
}

impl View for ItemEnum {
    type V = ItemEnumView;

    open spec fn view(&self) -> ItemEnumView {
        ItemEnumView { ident: self.ident@, attrs: views(self.attrs@), span: self.span }
    }
}

/// What an annotation stands on.
#[derive(Debug, PartialEq, Eq)]
pub enum Item {
    Impl(ItemBlock),
    Trait(ItemBlock),
    Struct(ItemStruct),
    Enum(ItemEnum),
    /// Any other item, of which only the place is known.
    Other(Span),
}

pub enum ItemView {
    Impl(ItemBlockView),
    Trait(ItemBlockView),
    Struct(ItemStructView),
    Enum(ItemEnumView),
    Other(Span),
}

impl ItemView {
    pub open spec fn span(self) -> Span {
        match self {
            ItemView::Impl(block) => block.span,
            ItemView::Trait(block) => block.span,
            ItemView::Struct(record) => record.span,
            ItemView::Enum(variants) => variants.span,
            ItemView::Other(span) => span,
        }
    }
}

impl View for Item {
    type V = ItemView;

    open spec fn view(&self) -> ItemView {
        match self {
            Item::Impl(block) => ItemView::Impl(block@),
            Item::Trait(block) => ItemView::Trait(block@),
            Item::Struct(record) => ItemView::Struct(record@),
            Item::Enum(variants) => ItemView::Enum(variants@),
            Item::Other(span) => ItemView::Other(*span),
        }
    }
}

impl Item {
    pub fn span(&self) -> (span: Span)
        ensures
            span == self@.span(),
    {
        match self {
            Item::Impl(block) => block.span,
            Item::Trait(block) => block.span,
            Item::Struct(record) => record.span,
            Item::Enum(variants) => variants.span,
            Item::Other(span) => *span,
        }
    }
}

} // verus!
