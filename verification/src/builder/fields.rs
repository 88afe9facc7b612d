use vstd::prelude::*;
use crate::token::{
    TokenTree, Tree, trees_view, tree_view, lemma_trees_view, is_ident, ident_text, is_literal, literal_text,
    punct_is, text_is, clone_stream,
};
use crate::builder::model::{
    Field, FieldView, Data, Fields, Type, TypeKind, TypeView, TypeKindView, PathArguments, PathArgumentsView,
    GenericArgument, GenericArgumentView, Meta, MetaView, fields_view, clone_field,
};

verus! {

broadcast use lemma_trees_view;

/// The fields of a struct with named fields, as `get_fields_with_ident` reads them.
pub open spec fn is_struct_with_named_fields(data: Data) -> bool {
    data matches Data::Struct(Fields::Named(_))
}

/// The fields that have a name, in their order.
pub open spec fn with_ident(fs: Seq<FieldView>) -> Seq<FieldView>
    decreases fs.len(),
{
    if fs.len() == 0 {
        Seq::empty()
    } else {
        with_ident(fs.drop_last()) + if fs.last().ident is Some { seq![fs.last()] } else { Seq::empty() }
    }
}

/// The named fields of a struct with named fields (a copy of each).
pub fn get_fields_with_ident(data: &Data) -> (res: Vec<Field>)
    requires
        is_struct_with_named_fields(*data),
    ensures
        data matches Data::Struct(Fields::Named(fs)) && fields_view(res@) == with_ident(fields_view(fs@)),
{
    match data {
        Data::Struct(Fields::Named(fs)) => {
            let ghost fv = fields_view(fs@);
            let mut res: Vec<Field> = Vec::new();
            let mut i: usize = 0;
            while i < fs.len()
                invariant
                    i <= fs@.len(),
                    fv == fields_view(fs@),
                    fields_view(res@) == with_ident(fv.take(i as int)),
                decreases fs.len() - i,
            {
                let ghost old_res = res@;
                if fs[i].ident.is_some() {
                    res.push(clone_field(&fs[i]));
                    assert(fields_view(res@) =~= fields_view(old_res) + seq![fv[i as int]]);
                } else {
                    assert(fields_view(res@) =~= fields_view(old_res) + Seq::<FieldView>::empty());
                }
                assert(fv.take(i + 1).drop_last() =~= fv.take(i as int));
                i = i + 1;
            }
            assert(fv.take(fs@.len() as int) =~= fv);
            res
        },
        _ => {
            assert(false);
            Vec::new()
        },
    }
}

/// Whether the type's path begins with the segment `name`.
pub open spec fn first_segment_is(t: TypeView, name: Seq<char>) -> bool {
    t.kind matches TypeKindView::Path(Some(seg)) && seg.ident == name
}

/// The first argument of the path's first segment `name<...>`: `None` unless the path begins
/// with `name<...>` and that argument is a type, else that type's tokens.
pub open spec fn first_type_arg(t: TypeView, name: Seq<char>) -> Option<Seq<Tree>> {
    match t.kind {
        TypeKindView::Path(Some(seg)) => if seg.ident == name {
            match seg.arguments {
                PathArgumentsView::AngleBracketed(args) => match args[0] {
                    GenericArgumentView::Type(x) => Some(x),
                    GenericArgumentView::Other => None,
                },
                _ => None,
            }
        } else {
            None
        },
        _ => None,
    }
}

/// Whether `name<...>` at the start of the path has at least one argument when it has angle
/// brackets (reading the first argument of `name<>` panics).
pub open spec fn first_arg_exists(t: TypeView, name: Seq<char>) -> bool {
    match t.kind {
        TypeKindView::Path(Some(seg)) => seg.ident == name ==> match seg.arguments {
            PathArgumentsView::AngleBracketed(args) => args.len() > 0,
            _ => true,
        },
        _ => true,
    }
}

/// Whether the field's type is a path that begins with `Option`.
pub open spec fn is_option(f: FieldView) -> bool {
    first_segment_is(f.ty, "Option"@)
}

/// Whether the field's type is a path that begins with `Option`.
pub fn is_field_an_option(field: &Field) -> (b: bool)
    ensures
        b == is_option(field@),
{
    match &field.ty.kind {
        TypeKind::Path(Some(seg)) => text_is(&seg.ident, "Option"),
        _ => false,
    }
}

/// The type inside `Option<...>` at the start of the field's type path.
pub fn is_field_an_option_ty(field: &Field) -> (res: Option<Vec<TokenTree>>)
    requires
        first_arg_exists(field@.ty, "Option"@),
    ensures
        match res {
            Some(t) => first_type_arg(field@.ty, "Option"@) == Some(trees_view(t@)),
            None => first_type_arg(field@.ty, "Option"@) is None,
        },
{
    first_type_arg_exec(&field.ty, "Option")
}

/// The type inside `Vec<...>` at the start of a path type.
pub fn get_vec_inner_ty(ty: &Type) -> (res: Option<Vec<TokenTree>>)
    requires
        ty@.kind is Path,
        first_arg_exists(ty@, "Vec"@),
    ensures
        match res {
            Some(t) => first_type_arg(ty@, "Vec"@) == Some(trees_view(t@)),
            None => first_type_arg(ty@, "Vec"@) is None,
        },
{
    first_type_arg_exec(ty, "Vec")
}

/// The first argument of `name<...>` at the start of a type path, as `first_type_arg` states.
fn first_type_arg_exec(ty: &Type, name: &str) -> (res: Option<Vec<TokenTree>>)
    requires
        first_arg_exists(ty@, name@),
    ensures
        match res {
            Some(t) => first_type_arg(ty@, name@) == Some(trees_view(t@)),
            None => first_type_arg(ty@, name@) is None,
        },
{
    match &ty.kind {
        TypeKind::Path(Some(seg)) => {
            if text_is(&seg.ident, name) {
                match &seg.arguments {
                    PathArguments::AngleBracketed(args) => {
                        assert(args@.map_values(|a: GenericArgument| a@)[0] == args@[0]@);
                        match &args[0] {
                            GenericArgument::Type(t) => Some(clone_stream(t)),
                            GenericArgument::Other => None,
                        }
                    },
                    _ => None,
                }
            } else {
                None
            }
        },
        _ => None,
    }
}


/// Whether reading the first argument of `name<...>` at the start of the type path does not
/// panic, as `first_arg_exists` states.
pub fn first_arg_exists_exec(ty: &Type, name: &str) -> (b: bool)
    ensures
        b == first_arg_exists(ty@, name@),
{
    match &ty.kind {
        TypeKind::Path(Some(seg)) => {
            if text_is(&seg.ident, name) {
                match &seg.arguments {
                    PathArguments::AngleBracketed(args) => args.len() > 0,
                    _ => true,
                }
            } else {
                true
            }
        },
        _ => true,
    }
}

/// Whether the type is a path type.
pub fn is_path_type(ty: &Type) -> (b: bool)
    ensures
        b == (ty@.kind is Path),
{
    match &ty.kind {
        TypeKind::Path(_) => true,
        _ => false,
    }
}

} // verus!
