use vstd::prelude::*;
use crate::token::{TokenTree, Tree, trees_view, push_stream};
use crate::builder::model::{DeriveInput, Field, FieldView, fields_view};
use crate::syntax::{syn_derive_input, parse_derive_input};
use crate::builder::fields::{
    get_fields_with_ident, is_struct_with_named_fields, with_ident, is_option, is_field_an_option,
    is_field_an_option_ty, first_type_arg, first_arg_exists, get_vec_inner_ty, first_arg_exists_exec,
    is_path_type,
};
use crate::builder::attrs::{builder_attr, builder_attr_ok, has_field_builder_attr, has_field_builder_attr_checked, opt_view};
use crate::builder::expansion::{
    builder_expansion, builder_expansion_exec, concat_pieces, lemma_concat_pieces_step, underscored, underscored_of,
    empty_stream,
};
use crate::builder::pieces::{
    init_none, init_vec, decl_option, decl_plain, setter_some, setter_push, build_required, build_optional, build_vec,
    init_none_exec, init_vec_exec, decl_option_exec, decl_plain_exec, setter_some_exec, setter_push_exec,
    build_required_exec, build_optional_exec, build_vec_exec,
};
use crate::builder::method_chaining::named_fields;

verus! {

/// `_id: vec![],` for a field with `#[builder(each = ..)]`, else `_id: None,`.
pub open spec fn init_piece(f: FieldView) -> Seq<Tree> {
    match f.ident {
        Some(id) => if builder_attr(f) is Some { init_vec(underscored(id)) } else { init_none(underscored(id)) },
        None => Seq::empty(),
    }
}

/// `_id: ty,` for an `Option` field or one with `#[builder(each = ..)]`, else `_id: Option<ty>,`.
pub open spec fn type_piece(f: FieldView) -> Seq<Tree> {
    match f.ident {
        Some(id) => if is_option(f) || builder_attr(f) is Some {
            decl_plain(underscored(id), f.ty.tokens)
        } else {
            decl_option(underscored(id), f.ty.tokens)
        },
        None => Seq::empty(),
    }
}

/// The element type of a `Vec<T>` field (no tokens when it has none).
pub open spec fn vec_item(f: FieldView) -> Seq<Tree> {
    match first_type_arg(f.ty, "Vec"@) {
        Some(t) => t,
        None => Seq::empty(),
    }
}

/// The setter: for `Option<T>` it takes a `T`; with `#[builder(each = "name")]` it is named
/// `name` and pushes one element; else it sets the whole value.
pub open spec fn setter_piece(f: FieldView) -> Seq<Tree> {
    match f.ident {
        Some(id) => match first_type_arg(f.ty, "Option"@) {
            Some(inner) => setter_some(id, underscored(id), inner),
            None => match builder_attr(f) {
                Some(name) => setter_push(name, underscored(id), vec_item(f)),
                None => setter_some(id, underscored(id), f.ty.tokens),
            },
        },
        None => Seq::empty(),
    }
}

/// `build`'s initializer: the collected elements with `#[builder(each = ..)]`, the option for
/// an `Option` field, else the failing form.
pub open spec fn build_piece(f: FieldView) -> Seq<Tree> {
    match f.ident {
        Some(id) => if builder_attr(f) is Some {
            build_vec(id, underscored(id))
        } else if is_option(f) {
            build_optional(id, underscored(id))
        } else {
            build_required(id, underscored(id))
        },
        None => Seq::empty(),
    }
}

/// Whether the derive does not panic on the field: its `builder` attribute reads well, its
/// `Option<...>` has an argument, and a field set one element at a time has a path type whose
/// `Vec<...>` has an argument.
pub open spec fn field_ok(f: FieldView) -> bool {
    &&& builder_attr_ok(f)
    &&& first_arg_exists(f.ty, "Option"@)
    &&& (first_type_arg(f.ty, "Option"@) is None && builder_attr(f) is Some) ==> (f.ty.kind is Path
        && first_arg_exists(f.ty, "Vec"@))
}

/// Whether the derive does not panic on any of the fields.
pub open spec fn fields_ok(fs: Seq<FieldView>) -> bool {
    forall|i: int| 0 <= i < fs.len() ==> field_ok(#[trigger] fs[i])
}

/// The code that `#[derive(Builder)]` (repeated fields) emits: as the optional form, and a
/// field marked `#[builder(each = "name")]` starts empty in the builder, gets a setter `name`
/// that pushes one element, and is handed to the struct as collected.
pub open spec fn derive_output(input: DeriveInput) -> Seq<Tree> {
    let fs = with_ident(named_fields(input.data));
    builder_expansion(
        input.ident@,
        concat_pieces(fs, |f: FieldView| init_piece(f)),
        concat_pieces(fs, |f: FieldView| type_piece(f)),
        concat_pieces(fs, |f: FieldView| setter_piece(f)),
        concat_pieces(fs, |f: FieldView| build_piece(f)),
    )
}

/// `#[derive(Builder)]` with repeated fields, as `derive_output` states.
pub fn derive(input: &DeriveInput) -> (res: Vec<TokenTree>)
    requires
        is_struct_with_named_fields(input.data),
        fields_ok(with_ident(named_fields(input.data))),
    ensures
        trees_view(res@) == derive_output(*input),
{
    let name = &input.ident;
    let struct_fields = get_fields_with_ident(&input.data);
    let ghost fs = fields_view(struct_fields@);
    assert(fs == with_ident(named_fields(input.data)));
    let mut builder_init = empty_stream();
    let mut struct_types = empty_stream();
    let mut setters = empty_stream();
    let mut build_code = empty_stream();
    let mut i: usize = 0;
    while i < struct_fields.len()
        invariant
            i <= struct_fields@.len(),
            fs == fields_view(struct_fields@),
            fields_ok(fs),
            trees_view(builder_init@) == concat_pieces(fs.take(i as int), |f: FieldView| init_piece(f)),
            trees_view(struct_types@) == concat_pieces(fs.take(i as int), |f: FieldView| type_piece(f)),
            trees_view(setters@) == concat_pieces(fs.take(i as int), |f: FieldView| setter_piece(f)),
            trees_view(build_code@) == concat_pieces(fs.take(i as int), |f: FieldView| build_piece(f)),
        decreases struct_fields.len() - i,
    {
        let f = &struct_fields[i];
        assert(fs[i as int] == f@);
        assert(field_ok(fs[i as int]));
        proof {
            lemma_concat_pieces_step(fs, i as int, |f: FieldView| init_piece(f));
            lemma_concat_pieces_step(fs, i as int, |f: FieldView| type_piece(f));
            lemma_concat_pieces_step(fs, i as int, |f: FieldView| setter_piece(f));
            lemma_concat_pieces_step(fs, i as int, |f: FieldView| build_piece(f));
        }
        match &f.ident {
            Some(id) => {
                let uid = underscored_of(id);
                let has_builder_attr = has_field_builder_attr(f);
                let is_an_option = is_field_an_option(f);
                if has_builder_attr.is_some() {
                    push_stream(&mut builder_init, init_vec_exec(&uid));
                } else {
                    push_stream(&mut builder_init, init_none_exec(&uid));
                }
                if is_an_option || has_builder_attr.is_some() {
                    push_stream(&mut struct_types, decl_plain_exec(&uid, &f.ty.tokens));
                } else {
                    push_stream(&mut struct_types, decl_option_exec(&uid, &f.ty.tokens));
                }
                match is_field_an_option_ty(f) {
                    Some(option_inner_ty) => {
                        push_stream(&mut setters, setter_some_exec(id, &uid, &option_inner_ty));
                    },
                    None => match &has_builder_attr {
                        Some(builder_attr) => {
                            let inner_ty = match get_vec_inner_ty(&f.ty) {
                                Some(t) => t,
                                None => empty_stream(),
                            };
                            push_stream(&mut setters, setter_push_exec(builder_attr, &uid, &inner_ty));
                        },
                        None => {
                            push_stream(&mut setters, setter_some_exec(id, &uid, &f.ty.tokens));
                        },
                    },
                }
                if has_builder_attr.is_some() {
                    push_stream(&mut build_code, build_vec_exec(id, &uid));
                } else if is_an_option {
                    push_stream(&mut build_code, build_optional_exec(id, &uid));
                } else {
                    push_stream(&mut build_code, build_required_exec(id, &uid));
                }
            },
            None => {
                assert(trees_view(builder_init@) + Seq::<Tree>::empty() =~= trees_view(builder_init@));
                assert(trees_view(struct_types@) + Seq::<Tree>::empty() =~= trees_view(struct_types@));
                assert(trees_view(setters@) + Seq::<Tree>::empty() =~= trees_view(setters@));
                assert(trees_view(build_code@) + Seq::<Tree>::empty() =~= trees_view(build_code@));
            },
        }
        i = i + 1;
    }
    assert(fs.take(struct_fields@.len() as int) =~= fs);
    builder_expansion_exec(name, builder_init, struct_types, setters, build_code)
}

/// Whether the derive does not panic on the field, as `field_ok` states.
fn field_ok_exec(f: &Field) -> (b: bool)
    ensures
        b == field_ok(f@),
{
    let attr = match has_field_builder_attr_checked(f) {
        None => return false,
        Some(a) => a,
    };
    if !first_arg_exists_exec(&f.ty, "Option") {
        return false;
    }
    match is_field_an_option_ty(f) {
        Some(_) => true,
        None => match attr {
            Some(_) => is_path_type(&f.ty) && first_arg_exists_exec(&f.ty, "Vec"),
            None => true,
        },
    }
}

/// `derive` on any input: `None` where the derive panics (a struct without named fields, a
/// `builder` attribute that does not read, `Option<>` or `Vec<>` without an argument, or a
/// field set one element at a time whose type is not a path), else `Some` of what `derive`
/// returns.
pub fn derive_checked(input: &DeriveInput) -> (res: Option<Vec<TokenTree>>)
    ensures
        res is None <==> !(is_struct_with_named_fields(input.data) && fields_ok(with_ident(named_fields(input.data)))),
        res matches Some(v) ==> trees_view(v@) == derive_output(*input),
{
    match &input.data {
        crate::builder::model::Data::Struct(crate::builder::model::Fields::Named(_)) => {},
        _ => return None,
    }
    let fields = get_fields_with_ident(&input.data);
    let ghost fs = fields_view(fields@);
    assert(fs == with_ident(named_fields(input.data)));
    let mut i: usize = 0;
    while i < fields.len()
        invariant
            i <= fields@.len(),
            fs == fields_view(fields@),
            fs == with_ident(named_fields(input.data)),
            forall|j: int| 0 <= j < i ==> field_ok(#[trigger] fs[j]),
        decreases fields.len() - i,
    {
        assert(fs[i as int] == fields@[i as int]@);
        if !field_ok_exec(&fields[i]) {
            assert(!field_ok(fs[i as int]));
            return None;
        }
        i = i + 1;
    }
    Some(derive(input))
}

/// The derive with repeated fields on the raw tokens of the item: `Err` with the text of syn's
/// error where syn does not parse them as a derive input; else `Ok` of what `derive_checked`
/// gives for the parsed item.
pub fn derive_tokens(tokens: &Vec<TokenTree>) -> (res: Result<Option<Vec<TokenTree>>, String>)
    ensures
        match syn_derive_input(trees_view(tokens@)) {
            Err(m) => res matches Err(e) && e@ == m,
            Ok(d) => res matches Ok(o)
                && (o is None <==> !(is_struct_with_named_fields(d.data) && fields_ok(with_ident(named_fields(d.data)))))
                && (o matches Some(v) ==> trees_view(v@) == derive_output(d)),
        },
{
    match parse_derive_input(tokens) {
        Err(m) => Err(m),
        Ok(d) => Ok(derive_checked(&d)),
    }
}

} // verus!
