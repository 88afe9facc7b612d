use vstd::prelude::*;
use crate::token::{TokenTree, Tree, Delimiter, Spacing, trees_view};
use crate::builder::model::{
    Data, DeriveInput, Field, Fields, GenericArgument, Meta, PathArguments, PathSegment, Type, TypeKind,
};
use crate::enum_builder::model::{FnArg, GenericParam, ItemTrait, ItemTraitView, TraitFn, TraitItem};

pub mod outside;

verus! {

/// What `syn::parse2::<syn::DeriveInput>` makes of the tokens, in the library's model, or the
/// text of syn's error when it refuses them.
pub uninterp spec fn syn_derive_input(tokens: Seq<Tree>) -> Result<DeriveInput, Seq<char>>;

/// What syn's `ItemTrait` parser makes of the start of the tokens, in the library's model,
/// with the tokens that syn has not read after the trait, or the text of syn's error when it
/// refuses them.
pub uninterp spec fn syn_item_trait_prefix(tokens: Seq<Tree>) -> Result<(ItemTraitView, Seq<Tree>), Seq<char>>;

/// Conversion: a proc-macro2 group with the delimiter and stream. It promises nothing.
#[verifier::external_body]
fn group_of(d: Delimiter, inner: proc_macro2::TokenStream) -> proc_macro2::TokenStream {
    let delimiter = match d {
        Delimiter::Parenthesis => proc_macro2::Delimiter::Parenthesis,
        Delimiter::Brace => proc_macro2::Delimiter::Brace,
        Delimiter::Bracket => proc_macro2::Delimiter::Bracket,
        Delimiter::Invisible => proc_macro2::Delimiter::None,
    };
    proc_macro2::TokenTree::Group(proc_macro2::Group::new(delimiter, inner)).into()
}

/// Conversion: the identifier of that text, where the text lexes as one identifier. It
/// promises nothing.
#[verifier::external_body]
fn ident_of(x: &String) -> Option<proc_macro2::TokenStream> {
    let ts = x.parse::<proc_macro2::TokenStream>().ok()?;
    let trees: Vec<proc_macro2::TokenTree> = ts.clone().into_iter().collect();
    match trees.as_slice() {
        [proc_macro2::TokenTree::Ident(_)] => Some(ts),
        _ => None,
    }
}

/// Conversion: the punctuation character with its spacing, where it lexes as punctuation. It
/// promises nothing.
#[verifier::external_body]
fn punct_of(c: char, joint: bool) -> Option<proc_macro2::TokenStream> {
    let trees: Vec<proc_macro2::TokenTree> = c.to_string().parse::<proc_macro2::TokenStream>().ok()?.into_iter().collect();
    let spacing = if joint { proc_macro2::Spacing::Joint } else { proc_macro2::Spacing::Alone };
    match trees.as_slice() {
        [proc_macro2::TokenTree::Punct(p)] => Some(proc_macro2::TokenTree::Punct(proc_macro2::Punct::new(p.as_char(), spacing)).into()),
        _ => None,
    }
}

/// Conversion: the literal of that text, where it lexes as one literal. It promises nothing.
#[verifier::external_body]
fn literal_of(x: &String) -> Option<proc_macro2::TokenStream> {
    Some(proc_macro2::TokenTree::Literal(x.parse::<proc_macro2::Literal>().ok()?).into())
}

/// Conversion of a model tree into a proc-macro2 stream of that one tree. It promises nothing.
#[verifier::external_body]
fn proc_tree_of(t: &TokenTree) -> Option<proc_macro2::TokenStream> {
    match t {
        TokenTree::Group(d, s) => Some(group_of(*d, proc_stream_of(s)?)),
        TokenTree::Ident(x) => ident_of(x),
        TokenTree::Punct(c, sp) => punct_of(*c, *sp == Spacing::Joint),
        TokenTree::Literal(x) => literal_of(x),
    }
}

/// Conversion of a model stream into a proc-macro2 stream, tree by tree. It promises nothing.
#[verifier::external_body]
fn proc_stream_of(tokens: &Vec<TokenTree>) -> Option<proc_macro2::TokenStream> {
    let parts: Option<Vec<proc_macro2::TokenStream>> = tokens.iter().map(proc_tree_of).collect();
    Some(parts?.into_iter().collect())
}

/// Conversion of a proc-macro2 group's delimiter into the model. It promises nothing.
#[verifier::external_body]
fn delimiter_model(g: &proc_macro2::Group) -> Delimiter {
    match g.delimiter() {
        proc_macro2::Delimiter::Parenthesis => Delimiter::Parenthesis,
        proc_macro2::Delimiter::Brace => Delimiter::Brace,
        proc_macro2::Delimiter::Bracket => Delimiter::Bracket,
        proc_macro2::Delimiter::None => Delimiter::Invisible,
    }
}

/// Conversion of a proc-macro2 stream into the model, tree by tree. It promises nothing.
#[verifier::external_body]
fn model_of(ts: proc_macro2::TokenStream) -> Vec<TokenTree> {
    ts.into_iter().map(|t| match t {
        proc_macro2::TokenTree::Group(g) => TokenTree::Group(delimiter_model(&g), model_of(g.stream())),
        proc_macro2::TokenTree::Ident(i) => TokenTree::Ident(i.to_string()),
        proc_macro2::TokenTree::Punct(p) => TokenTree::Punct(p.as_char(), match p.spacing() {
            proc_macro2::Spacing::Joint => Spacing::Joint,
            proc_macro2::Spacing::Alone => Spacing::Alone,
        }),
        proc_macro2::TokenTree::Literal(l) => TokenTree::Literal(l.to_string()),
    }).collect()
}

/// Conversion of syn's angle-bracketed arguments into the model. It promises nothing.
#[verifier::external_body]
fn angle_args_of(ab: &syn::AngleBracketedGenericArguments) -> PathArguments {
    PathArguments::AngleBracketed(ab.args.iter().map(|g| match g {
        syn::GenericArgument::Type(t) => GenericArgument::Type(model_of(quote::ToTokens::to_token_stream(t))),
        _ => GenericArgument::Other,
    }).collect())
}

/// Conversion of a syn type path into the model: its first segment. It promises nothing.
#[verifier::external_body]
fn type_path_of(tp: &syn::TypePath) -> TypeKind {
    TypeKind::Path(tp.path.segments.first().map(|s| PathSegment {
        ident: s.ident.to_string(),
        arguments: match &s.arguments {
            syn::PathArguments::None => PathArguments::NoArguments,
            syn::PathArguments::AngleBracketed(ab) => angle_args_of(ab),
            syn::PathArguments::Parenthesized(_) => PathArguments::Parenthesized,
        },
    }))
}

/// Conversion of a syn attribute into the model of its meta. It promises nothing.
#[verifier::external_body]
fn attribute_of(a: &syn::Attribute) -> Meta {
    match &a.meta {
        syn::Meta::Path(_) => Meta::Path,
        syn::Meta::List(l) => Meta::List(l.path.segments.first().map(|s| s.ident.to_string()), model_of(l.tokens.clone())),
        syn::Meta::NameValue(_) => Meta::NameValue,
    }
}

/// Conversion of syn's named fields into the model. It promises nothing.
#[verifier::external_body]
fn fields_named_of(n: &syn::FieldsNamed) -> Fields {
    Fields::Named(n.named.iter().map(|f| Field {
        ident: f.ident.as_ref().map(|i| i.to_string()),
        ty: Type {
            tokens: model_of(quote::ToTokens::to_token_stream(&f.ty)),
            kind: match &f.ty { syn::Type::Path(tp) => type_path_of(tp), _ => TypeKind::Other },
        },
        attrs: f.attrs.iter().map(attribute_of).collect(),
    }).collect())
}

/// Conversion of a syn trait method into the model. It promises nothing.
#[verifier::external_body]
fn trait_fn_of(m: &syn::TraitItemFn) -> TraitFn {
    TraitFn {
        ident: m.sig.ident.to_string(),
        generic_params: m.sig.generics.params.iter().map(|gp| match gp {
            syn::GenericParam::Type(tp) => GenericParam::Type(tp.ident.to_string()),
            _ => GenericParam::Other,
        }).collect(),
        inputs: m.sig.inputs.iter().map(|a| match a {
            syn::FnArg::Receiver(_) => FnArg::Receiver,
            syn::FnArg::Typed(t) => FnArg::Typed(model_of(quote::ToTokens::to_token_stream(&t.ty))),
        }).collect(),
    }
}

/// Trusted: parses the tokens with `syn::parse2::<syn::DeriveInput>` and converts what syn
/// returns into the library's model, or gives the text of syn's error (or, for a token whose
/// text does not lex as such a token, the text of that failure). The contract names the result.
#[verifier::external_body]
pub fn parse_derive_input(tokens: &Vec<TokenTree>) -> (r: Result<DeriveInput, String>)
    ensures
        match r {
            Ok(d) => syn_derive_input(trees_view(tokens@)) == Ok::<DeriveInput, Seq<char>>(d),
            Err(m) => syn_derive_input(trees_view(tokens@)) == Err::<DeriveInput, Seq<char>>(m@),
        },
{
    let ts = proc_stream_of(tokens).ok_or_else(|| "a token's text does not lex as that token".to_string())?;
    let d = syn::parse2::<syn::DeriveInput>(ts).map_err(|e| e.to_string())?;
    let data = match &d.data {
        syn::Data::Struct(s) => Data::Struct(match &s.fields {
            syn::Fields::Named(n) => fields_named_of(n),
            syn::Fields::Unnamed(_) => Fields::Unnamed,
            syn::Fields::Unit => Fields::Unit,
        }),
        syn::Data::Enum(_) => Data::Enum,
        syn::Data::Union(_) => Data::Union,
    };
    Ok(DeriveInput { ident: d.ident.to_string(), data })
}

/// Trusted: parses one trait declaration at the start of the tokens with syn's `ItemTrait`
/// parser and takes the tokens that syn has not read after it, or gives the text of syn's error.
/// The contract names the result and states nothing else of it: where the trait ends inside a
/// group without delimiters, syn reads on through that group, so the tokens left may be more
/// trees than the input had.
#[verifier::external_body]
pub fn parse_item_trait(tokens: &Vec<TokenTree>) -> (r: Result<(ItemTrait, Vec<TokenTree>), String>)
    ensures
        match r {
            Ok((d, rest)) => syn_item_trait_prefix(trees_view(tokens@)) == Ok::<(ItemTraitView, Seq<Tree>), Seq<char>>((d@, trees_view(rest@))),
            Err(m) => syn_item_trait_prefix(trees_view(tokens@)) == Err::<(ItemTraitView, Seq<Tree>), Seq<char>>(m@),
        },
{
    let ts = proc_stream_of(tokens).ok_or_else(|| "a token's text does not lex as that token".to_string())?;
    let (t, rest) = syn::parse::Parser::parse2(
        |input: syn::parse::ParseStream| Ok((input.parse::<syn::ItemTrait>()?, input.parse::<proc_macro2::TokenStream>()?)),
        ts,
    ).map_err(|e| e.to_string())?;
    let items = t.items.iter().map(|i| match i {
        syn::TraitItem::Fn(m) => TraitItem::Fn(trait_fn_of(m)),
        _ => TraitItem::Other,
    }).collect();
    Ok((ItemTrait { items }, model_of(rest)))
}

} // verus!
