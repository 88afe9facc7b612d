use vstd::prelude::*;
use crate::token::{TokenTree, Tree, trees_view, push_stream};
use crate::builder::model::{DeriveInput, Data, Fields, FieldView, fields_view};
use crate::syntax::{syn_derive_input, parse_derive_input};
use crate::builder::fields::{
    get_fields_with_ident, is_struct_with_named_fields, with_ident, is_option, is_field_an_option,
    is_field_an_option_ty, first_type_arg, first_arg_exists, first_arg_exists_exec,
};
use crate::builder::expansion::{
    builder_expansion, builder_expansion_exec, concat_pieces, lemma_concat_pieces_step, underscored, underscored_of,
    empty_stream,
};
use crate::builder::pieces::{
    decl_option, decl_plain, setter_some, build_required, build_optional, decl_option_exec, decl_plain_exec,
    init_none_exec, setter_some_exec, build_required_exec, build_optional_exec,
};
use crate::builder::method_chaining::{init_piece, named_fields};

verus! {

/// `_id: ty,` for an `Option` field, else `_id: Option<ty>,`.
pub open spec fn type_piece(f: FieldView) -> Seq<Tree> {
    match f.ident {
        Some(id) => if is_option(f) {
            decl_plain(underscored(id), f.ty.tokens)
        } else {
            decl_option(underscored(id), f.ty.tokens)
        },
        None => Seq::empty(),
    }
}

/// The setter; for a field `Option<T>` it takes a `T`.
pub open spec fn setter_piece(f: FieldView) -> Seq<Tree> {
    match f.ident {
        Some(id) => match first_type_arg(f.ty, "Option"@) {
            Some(inner) => setter_some(id, underscored(id), inner),
            None => setter_some(id, underscored(id), f.ty.tokens),
        },
        None => Seq::empty(),
    }
}

/// `id: self._id.take(),` for an `Option` field (unset is `None`), else the failing form.
pub open spec fn build_piece(f: FieldView) -> Seq<Tree> {
    match f.ident {
        Some(id) => if is_option(f) {
            build_optional(id, underscored(id))
        } else {
            build_required(id, underscored(id))
        },
        None => Seq::empty(),
    }
}

/// Whether reading the fields' types does not panic: every `Option<...>` has an argument.
pub open spec fn fields_ok(fs: Seq<FieldView>) -> bool {
    forall|i: int| 0 <= i < fs.len() ==> first_arg_exists(#[trigger] fs[i].ty, "Option"@)
}

/// The code that `#[derive(Builder)]` (optional fields) emits: as the chained form, except
/// that an `Option<T>` field is kept as is in the builder, set with a `T`, and left `None` by
/// `build` when unset.
pub open spec fn derive_output(input: DeriveInput) -> Seq<Tree> {
    let fs = with_ident(named_fields(input.data));
    builder_expansion(
        input.ident@,
        concat_pieces(fs, |f: FieldView| init_piece(f)),
        concat_pieces(fs, |f: FieldView| type_piece(f)),
        concat_pieces(fs, |f: FieldView| setter_piece(f)),
        concat_pieces(fs, |f: FieldView| build_piece(f)),
    )
}

/// `#[derive(Builder)]` with optional fields, as `derive_output` states.
pub fn derive(input: &DeriveInput) -> (res: Vec<TokenTree>)
    requires
        is_struct_with_named_fields(input.data),
        fields_ok(with_ident(named_fields(input.data))),
    ensures
        trees_view(res@) == derive_output(*input),
{
    let name = &input.ident;
    let fields = get_fields_with_ident(&input.data);
    let ghost fs = fields_view(fields@);
    assert(fs == with_ident(named_fields(input.data)));
    let mut fields_init = empty_stream();
    let mut field_types = empty_stream();
    let mut setters = empty_stream();
    let mut build_code = empty_stream();
    let mut i: usize = 0;
    while i < fields.len()
        invariant
            i <= fields@.len(),
            fs == fields_view(fields@),
            fields_ok(fs),
            trees_view(fields_init@) == concat_pieces(fs.take(i as int), |f: FieldView| init_piece(f)),
            trees_view(field_types@) == concat_pieces(fs.take(i as int), |f: FieldView| type_piece(f)),
            trees_view(setters@) == concat_pieces(fs.take(i as int), |f: FieldView| setter_piece(f)),
            trees_view(build_code@) == concat_pieces(fs.take(i as int), |f: FieldView| build_piece(f)),
        decreases fields.len() - i,
    {
        let f = &fields[i];
        assert(fs[i as int] == f@);
        assert(first_arg_exists(fs[i as int].ty, "Option"@));
        proof {
            lemma_concat_pieces_step(fs, i as int, |f: FieldView| init_piece(f));
            lemma_concat_pieces_step(fs, i as int, |f: FieldView| type_piece(f));
            lemma_concat_pieces_step(fs, i as int, |f: FieldView| setter_piece(f));
            lemma_concat_pieces_step(fs, i as int, |f: FieldView| build_piece(f));
        }
        match &f.ident {
            Some(id) => {
                let uid = underscored_of(id);
                let is_an_option = is_field_an_option(f);
                push_stream(&mut fields_init, init_none_exec(&uid));
                if is_an_option {
                    push_stream(&mut field_types, decl_plain_exec(&uid, &f.ty.tokens));
                } else {
                    push_stream(&mut field_types, decl_option_exec(&uid, &f.ty.tokens));
                }
                match is_field_an_option_ty(f) {
                    Some(option_inner_ty) => {
                        push_stream(&mut setters, setter_some_exec(id, &uid, &option_inner_ty));
                    },
                    None => {
                        push_stream(&mut setters, setter_some_exec(id, &uid, &f.ty.tokens));
                    },
                }
                if is_an_option {
                    push_stream(&mut build_code, build_optional_exec(id, &uid));
                } else {
                    push_stream(&mut build_code, build_required_exec(id, &uid));
                }
            },
            None => {
                assert(trees_view(fields_init@) + Seq::<Tree>::empty() =~= trees_view(fields_init@));
                assert(trees_view(field_types@) + Seq::<Tree>::empty() =~= trees_view(field_types@));
                assert(trees_view(setters@) + Seq::<Tree>::empty() =~= trees_view(setters@));
                assert(trees_view(build_code@) + Seq::<Tree>::empty() =~= trees_view(build_code@));
            },
        }
        i = i + 1;
    }
    assert(fs.take(fields@.len() as int) =~= fs);
    builder_expansion_exec(name, fields_init, field_types, setters, build_code)
}

/// Whether every named field's `Option<...>` has an argument, as `fields_ok` states.
fn fields_ok_exec(input: &DeriveInput) -> (b: bool)
    requires
        is_struct_with_named_fields(input.data),
    ensures
        b == fields_ok(with_ident(named_fields(input.data))),
{
    let fields = get_fields_with_ident(&input.data);
    let ghost fs = fields_view(fields@);
    assert(fs == with_ident(named_fields(input.data)));
    let mut i: usize = 0;
    while i < fields.len()
        invariant
            i <= fields@.len(),
            fs == fields_view(fields@),
            fs == with_ident(named_fields(input.data)),
            forall|j: int| 0 <= j < i ==> first_arg_exists(#[trigger] fs[j].ty, "Option"@),
        decreases fields.len() - i,
    {
        assert(fs[i as int] == fields@[i as int]@);
        if !first_arg_exists_exec(&fields[i].ty, "Option") {
            assert(!first_arg_exists(fs[i as int].ty, "Option"@));
            return false;
        }
        i = i + 1;
    }
    true
}

/// The derive with optional fields on the raw tokens of the item: `Err` with the text of syn's
/// error where syn does not parse them as a derive input; else `Ok(None)` where the derive
/// panics (not a struct with named fields, or an `Option<>` without an argument), else `Ok` of
/// the expansion, as `derive_output` states.
pub fn derive_tokens(tokens: &Vec<TokenTree>) -> (res: Result<Option<Vec<TokenTree>>, String>)
    ensures
        match syn_derive_input(trees_view(tokens@)) {
            Err(m) => res matches Err(e) && e@ == m,
            Ok(d) => res matches Ok(o)
                && (o is Some <==> (is_struct_with_named_fields(d.data) && fields_ok(with_ident(named_fields(d.data)))))
                && (o matches Some(v) ==> trees_view(v@) == derive_output(d)),
        },
{
    match parse_derive_input(tokens) {
        Err(m) => Err(m),
        Ok(d) => match &d.data {
            Data::Struct(Fields::Named(_)) => {
                if fields_ok_exec(&d) {
                    Ok(Some(derive(&d)))
                } else {
                    Ok(None)
                }
            },
            _ => Ok(None),
        },
    }
}

} // verus!
