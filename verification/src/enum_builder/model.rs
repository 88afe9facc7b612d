use vstd::prelude::*;
use crate::token::{TokenTree, Tree, trees_view};

verus! {

/// A generic parameter of a trait method: a type parameter (its name) or anything else
/// (a lifetime, a const parameter).
#[derive(Debug)]
pub enum GenericParam {
    Type(String),
    Other,
}

/// An input of a trait method: the receiver (`self`), or a typed argument (the tokens of its
/// type).
#[derive(Debug)]
pub enum FnArg {
    Receiver,
    Typed(Vec<TokenTree>),
}

/// The signature of a trait method: its name, its generic parameters and its inputs.
#[derive(Debug)]
pub struct TraitFn {
    pub ident: String,
    pub generic_params: Vec<GenericParam>,
    pub inputs: Vec<FnArg>,
}

/// An item of a trait: a method, or anything else (a constant, a type, a macro).
#[derive(Debug)]
pub enum TraitItem {
    Fn(TraitFn),
    Other,
}

/// A trait declaration, as the items it holds.
#[derive(Debug)]
pub struct ItemTrait {
    pub items: Vec<TraitItem>,
}

/// Model of a generic parameter.
pub enum GenericParamView {
    Type(Seq<char>),
    Other,
}

/// Model of a method input.
pub enum FnArgView {
    Receiver,
    Typed(Seq<Tree>),
}

/// Model of a method signature.
pub struct TraitFnView {
    pub ident: Seq<char>,
    pub generic_params: Seq<GenericParamView>,
    pub inputs: Seq<FnArgView>,
}

/// Model of a trait item.
pub enum TraitItemView {
    Fn(TraitFnView),
    Other,
}

/// Model of a trait declaration.
pub struct ItemTraitView {
    pub items: Seq<TraitItemView>,
}

impl View for GenericParam {
    type V = GenericParamView;

    open spec fn view(&self) -> GenericParamView {
        match self {
            GenericParam::Type(n) => GenericParamView::Type(n@),
            GenericParam::Other => GenericParamView::Other,
        }
    }
}

impl View for FnArg {
    type V = FnArgView;

    open spec fn view(&self) -> FnArgView {
        match self {
            FnArg::Receiver => FnArgView::Receiver,
            FnArg::Typed(ts) => FnArgView::Typed(trees_view(ts@)),
        }
    }
}

impl View for TraitFn {
    type V = TraitFnView;

    open spec fn view(&self) -> TraitFnView {
        TraitFnView {
            ident: self.ident@,
            generic_params: self.generic_params@.map_values(|p: GenericParam| p@),
            inputs: self.inputs@.map_values(|a: FnArg| a@),
        }
    }
}

impl View for TraitItem {
    type V = TraitItemView;

    open spec fn view(&self) -> TraitItemView {
        match self {
            TraitItem::Fn(f) => TraitItemView::Fn(f@),
            TraitItem::Other => TraitItemView::Other,
        }
    }
}

impl View for ItemTrait {
    type V = ItemTraitView;

    open spec fn view(&self) -> ItemTraitView {
        ItemTraitView { items: self.items@.map_values(|i: TraitItem| i@) }
    }
}

/// The models of a sequence of trait declarations.
pub open spec fn decls_view(ds: Seq<ItemTrait>) -> Seq<ItemTraitView> {
    ds.map_values(|d: ItemTrait| d@)
}

} // verus!
