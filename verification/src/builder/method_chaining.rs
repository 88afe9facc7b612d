use vstd::prelude::*;
use crate::token::{TokenTree, Tree, trees_view, push_stream};
use crate::builder::model::{DeriveInput, Data, Fields, FieldView, fields_view};
use crate::syntax::{syn_derive_input, parse_derive_input};
use crate::builder::fields::{get_fields_with_ident, is_struct_with_named_fields, with_ident};
use crate::builder::expansion::{
    builder_expansion, builder_expansion_exec, concat_pieces, lemma_concat_pieces_step, underscored, underscored_of,
    empty_stream,
};
use crate::builder::pieces::{
    init_none, decl_option, setter_some, build_required, init_none_exec, decl_option_exec, setter_some_exec,
    build_required_exec,
};

verus! {

/// `_id: None,`
pub open spec fn init_piece(f: FieldView) -> Seq<Tree> {
    match f.ident {
        Some(id) => init_none(underscored(id)),
        None => Seq::empty(),
    }
}

/// `_id: Option<ty>,`
pub open spec fn type_piece(f: FieldView) -> Seq<Tree> {
    match f.ident {
        Some(id) => decl_option(underscored(id), f.ty.tokens),
        None => Seq::empty(),
    }
}

/// `fn id(&mut self, id: ty) -> &mut Self { self._id = Some(id); self }`
pub open spec fn setter_piece(f: FieldView) -> Seq<Tree> {
    match f.ident {
        Some(id) => setter_some(id, underscored(id), f.ty.tokens),
        None => Seq::empty(),
    }
}

/// `id: self._id.take().ok_or(format!("Field {} is not set", stringify!(id)))?,`
pub open spec fn build_piece(f: FieldView) -> Seq<Tree> {
    match f.ident {
        Some(id) => build_required(id, underscored(id)),
        None => Seq::empty(),
    }
}

/// The named fields of a struct with named fields.
pub open spec fn named_fields(data: Data) -> Seq<FieldView> {
    match data {
        Data::Struct(Fields::Named(fs)) => fields_view(fs@),
        _ => Seq::empty(),
    }
}

/// The code that `#[derive(Builder)]` (chained setters) emits for a struct with named fields:
/// a builder with an optional field per field, a setter per field that returns the builder,
/// and `build`, which fails on the first field that was not set.
pub open spec fn derive_output(input: DeriveInput) -> Seq<Tree> {
    let fs = with_ident(named_fields(input.data));
    builder_expansion(
        input.ident@,
        concat_pieces(fs, |f: FieldView| init_piece(f)),
        concat_pieces(fs, |f: FieldView| type_piece(f)),
        concat_pieces(fs, |f: FieldView| setter_piece(f)),
        concat_pieces(fs, |f: FieldView| build_piece(f)),
    )
}

/// `#[derive(Builder)]` with chained setters, as `derive_output` states.
pub fn derive(input: &DeriveInput) -> (res: Vec<TokenTree>)
    requires
        is_struct_with_named_fields(input.data),
    ensures
        trees_view(res@) == derive_output(*input),
{
    let name = &input.ident;
    let fields = get_fields_with_ident(&input.data);
    let ghost fs = fields_view(fields@);
    assert(fs == with_ident(named_fields(input.data)));
    let mut fields_init = empty_stream();
    let mut field_types = empty_stream();
    let mut setters = empty_stream();
    let mut build_code = empty_stream();
    let mut i: usize = 0;
    while i < fields.len()
        invariant
            i <= fields@.len(),
            fs == fields_view(fields@),
            trees_view(fields_init@) == concat_pieces(fs.take(i as int), |f: FieldView| init_piece(f)),
            trees_view(field_types@) == concat_pieces(fs.take(i as int), |f: FieldView| type_piece(f)),
            trees_view(setters@) == concat_pieces(fs.take(i as int), |f: FieldView| setter_piece(f)),
            trees_view(build_code@) == concat_pieces(fs.take(i as int), |f: FieldView| build_piece(f)),
        decreases fields.len() - i,
    {
        let f = &fields[i];
        assert(fs[i as int] == f@);
        proof {
            lemma_concat_pieces_step(fs, i as int, |f: FieldView| init_piece(f));
            lemma_concat_pieces_step(fs, i as int, |f: FieldView| type_piece(f));
            lemma_concat_pieces_step(fs, i as int, |f: FieldView| setter_piece(f));
            lemma_concat_pieces_step(fs, i as int, |f: FieldView| build_piece(f));
        }
        match &f.ident {
            Some(id) => {
                let uid = underscored_of(id);
                push_stream(&mut fields_init, init_none_exec(&uid));
                push_stream(&mut field_types, decl_option_exec(&uid, &f.ty.tokens));
                push_stream(&mut setters, setter_some_exec(id, &uid, &f.ty.tokens));
                push_stream(&mut build_code, build_required_exec(id, &uid));
            },
            None => {
                assert(trees_view(fields_init@) + Seq::<Tree>::empty() =~= trees_view(fields_init@));
                assert(trees_view(field_types@) + Seq::<Tree>::empty() =~= trees_view(field_types@));
                assert(trees_view(setters@) + Seq::<Tree>::empty() =~= trees_view(setters@));
                assert(trees_view(build_code@) + Seq::<Tree>::empty() =~= trees_view(build_code@));
            },
        }
        i = i + 1;
    }
    assert(fs.take(fields@.len() as int) =~= fs);
    builder_expansion_exec(name, fields_init, field_types, setters, build_code)
}

/// The field initializers of `build`, one per named field, as `build_piece` states.
pub fn fields_build(data: &Data) -> (res: Vec<TokenTree>)
    requires
        is_struct_with_named_fields(*data),
    ensures
        trees_view(res@) == concat_pieces(named_fields(*data), |f: FieldView| build_piece(f)),
{
    match data {
        Data::Struct(Fields::Named(named)) => {
            let ghost fs = fields_view(named@);
            let mut out = empty_stream();
            let mut i: usize = 0;
            while i < named.len()
                invariant
                    i <= named@.len(),
                    fs == fields_view(named@),
                    trees_view(out@) == concat_pieces(fs.take(i as int), |f: FieldView| build_piece(f)),
                decreases named.len() - i,
            {
                let f = &named[i];
                assert(fs[i as int] == f@);
                proof {
                    lemma_concat_pieces_step(fs, i as int, |f: FieldView| build_piece(f));
                }
                match &f.ident {
                    Some(name) => {
                        let bname = underscored_of(name);
                        push_stream(&mut out, build_required_exec(name, &bname));
                    },
                    None => {
                        assert(trees_view(out@) + Seq::<Tree>::empty() =~= trees_view(out@));
                    },
                }
                i = i + 1;
            }
            assert(fs.take(named@.len() as int) =~= fs);
            out
        },
        _ => {
            assert(false);
            empty_stream()
        },
    }
}

/// The chained derive on the raw tokens of the item: `Err` with the text of syn's error where
/// syn does not parse them as a derive input; else `Ok(None)` where the derive panics (the item
/// is not a struct with named fields), else `Ok` of the expansion, as `derive_output` states.
pub fn derive_tokens(tokens: &Vec<TokenTree>) -> (res: Result<Option<Vec<TokenTree>>, String>)
    ensures
        match syn_derive_input(trees_view(tokens@)) {
            Err(m) => res matches Err(e) && e@ == m,
            Ok(d) => res matches Ok(o) && (o is Some <==> is_struct_with_named_fields(d.data))
                && (o matches Some(v) ==> trees_view(v@) == derive_output(d)),
        },
{
    match parse_derive_input(tokens) {
        Err(m) => Err(m),
        Ok(d) => match &d.data {
            Data::Struct(Fields::Named(_)) => Ok(Some(derive(&d))),
            _ => Ok(None),
        },
    }
}

} // verus!
