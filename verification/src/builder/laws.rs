use vstd::prelude::*;
use crate::token::{Tree, Delimiter, Spacing, is_ident, ident_text, is_paren_group};
use crate::builder::model::{DeriveInput, Data, FieldView};
use crate::builder::expansion::{underscored, sid, sp, sj, parens, braced, brackets};
use crate::builder::pieces::setter;
use crate::seq_macro::expand::group_trees;
use crate::builder::fields::{with_ident, is_option, first_type_arg, is_struct_with_named_fields};
use crate::builder::attrs::builder_attr;
use crate::builder::expansion::concat_pieces;
use crate::builder::method_chaining;
use crate::builder::method_chaining::named_fields;
use crate::builder::optional_field;
use crate::builder::repeated_field;

verus! {

/// Pieces that agree on every field make the same stream.
proof fn lemma_concat_pieces_agree(
    fs: Seq<FieldView>,
    p: spec_fn(FieldView) -> Seq<Tree>,
    q: spec_fn(FieldView) -> Seq<Tree>,
)
    requires
        forall|i: int| 0 <= i < fs.len() ==> p(#[trigger] fs[i]) == q(fs[i]),
    ensures
        concat_pieces(fs, p) == concat_pieces(fs, q),
    decreases fs.len(),
{
    if fs.len() > 0 {
        let init = fs.drop_last();
        assert forall|i: int| 0 <= i < init.len() implies p(#[trigger] init[i]) == q(init[i]) by {
            assert(init[i] == fs[i]);
        }
        lemma_concat_pieces_agree(init, p, q);
        assert(p(fs[fs.len() - 1]) == q(fs[fs.len() - 1]));
    }
}

/// Fields without a name add nothing, where their piece is empty.
proof fn lemma_concat_with_ident(fs: Seq<FieldView>, p: spec_fn(FieldView) -> Seq<Tree>)
    requires
        forall|f: FieldView| f.ident is None ==> #[trigger] p(f) == Seq::<Tree>::empty(),
    ensures
        concat_pieces(with_ident(fs), p) == concat_pieces(fs, p),
    decreases fs.len(),
{
    if fs.len() > 0 {
        let init = fs.drop_last();
        let last = fs.last();
        lemma_concat_with_ident(init, p);
        if last.ident is Some {
            let w = with_ident(init) + seq![last];
            assert(w.drop_last() =~= with_ident(init));
            assert(w.last() == last);
        } else {
            assert(with_ident(init) + Seq::<FieldView>::empty() =~= with_ident(init));
            assert(concat_pieces(init, p) + p(last) =~= concat_pieces(init, p));
        }
    }
}

/// The fields that have a name, of a struct's named fields.
pub open spec fn builder_fields(input: DeriveInput) -> Seq<FieldView> {
    with_ident(named_fields(input.data))
}

/// What `fields_build` returns is the body of `build` in what the chained `derive` emits: the
/// initializers over all named fields are those over the fields that have a name.
pub proof fn law_fields_build_is_derive_build(data: Data)
    requires
        is_struct_with_named_fields(data),
    ensures
        concat_pieces(named_fields(data), |f: FieldView| method_chaining::build_piece(f))
            == concat_pieces(with_ident(named_fields(data)), |f: FieldView| method_chaining::build_piece(f)),
{
    lemma_concat_with_ident(named_fields(data), |f: FieldView| method_chaining::build_piece(f));
}

/// On a struct none of whose fields is an `Option`, the derive with optional fields emits
/// exactly what the chained derive emits.
pub proof fn law_optional_without_options_is_chained(input: DeriveInput)
    requires
        forall|i: int| 0 <= i < builder_fields(input).len() ==> !is_option(#[trigger] builder_fields(input)[i]),
    ensures
        optional_field::derive_output(input) == method_chaining::derive_output(input),
{
    let fs = builder_fields(input);
    assert forall|i: int| 0 <= i < fs.len() implies first_type_arg(#[trigger] fs[i].ty, "Option"@) is None by {
        assert(!is_option(fs[i]));
    }
    lemma_concat_pieces_agree(fs, |f: FieldView| optional_field::type_piece(f), |f: FieldView| method_chaining::type_piece(f));
    lemma_concat_pieces_agree(fs, |f: FieldView| optional_field::setter_piece(f), |f: FieldView| method_chaining::setter_piece(f));
    lemma_concat_pieces_agree(fs, |f: FieldView| optional_field::build_piece(f), |f: FieldView| method_chaining::build_piece(f));
}

/// On a struct none of whose fields has a `#[builder(each = ..)]` attribute, the derive with
/// repeated fields emits exactly what the derive with optional fields emits.
pub proof fn law_repeated_without_each_is_optional(input: DeriveInput)
    requires
        forall|i: int| 0 <= i < builder_fields(input).len() ==> builder_attr(#[trigger] builder_fields(input)[i]) is None,
    ensures
        repeated_field::derive_output(input) == optional_field::derive_output(input),
{
    let fs = builder_fields(input);
    lemma_concat_pieces_agree(fs, |f: FieldView| repeated_field::init_piece(f), |f: FieldView| method_chaining::init_piece(f));
    lemma_concat_pieces_agree(fs, |f: FieldView| repeated_field::type_piece(f), |f: FieldView| optional_field::type_piece(f));
    lemma_concat_pieces_agree(fs, |f: FieldView| repeated_field::setter_piece(f), |f: FieldView| optional_field::setter_piece(f));
    lemma_concat_pieces_agree(fs, |f: FieldView| repeated_field::build_piece(f), |f: FieldView| optional_field::build_piece(f));
}

/// A field whose type has an `Option<...>` argument is an `Option` field.
pub proof fn law_option_inner_type_means_option(f: FieldView)
    ensures
        first_type_arg(f.ty, "Option"@) is Some ==> is_option(f),
{
}

/// The setters that a stream declares, in order: for each `fn name(...)` at its top level, the
/// name and the type of the value it takes (the tokens after `&mut self, name:` in its
/// parameter list).
pub open spec fn declared_setters(s: Seq<Tree>) -> Seq<(Seq<char>, Seq<Tree>)>
    decreases s.len(),
{
    if s.len() < 3 {
        Seq::empty()
    } else if s[0] == Tree::Ident("fn"@) && is_ident(s[1]) && is_paren_group(s[2]) {
        seq![(ident_text(s[1]), group_trees(s[2]).skip(6))] + declared_setters(s.subrange(3, s.len() as int))
    } else {
        declared_setters(s.subrange(1, s.len() as int))
    }
}

/// A value for each field that has a name, in order.
pub open spec fn per_named_field<A>(fs: Seq<FieldView>, g: spec_fn(FieldView) -> A) -> Seq<A>
    decreases fs.len(),
{
    if fs.len() == 0 {
        Seq::empty()
    } else if fs[0].ident is Some {
        seq![g(fs[0])] + per_named_field(fs.drop_first(), g)
    } else {
        per_named_field(fs.drop_first(), g)
    }
}

/// A tree that does not start a setter adds none.
proof fn lemma_declared_skip(t: Tree, rest: Seq<Tree>)
    requires
        t != Tree::Ident("fn"@),
    ensures
        declared_setters(seq![t] + rest) == declared_setters(rest),
{
    let s = seq![t] + rest;
    assert(s.subrange(1, s.len() as int) =~= rest);
}

/// A setter adds its name and the type it takes.
proof fn lemma_declared_setter(name: Seq<char>, ty: Seq<Tree>, body: Seq<Tree>, rest: Seq<Tree>)
    ensures
        declared_setters(setter(name, ty, body) + rest) == seq![(name, ty)] + declared_setters(rest),
{
    let st = setter(name, ty, body);
    let s = st + rest;
    let params = seq![sp('&'), sid("mut"), sid("self"), sp(','), Tree::Ident(name), sp(':')] + ty;
    assert(s[0] == st[0] && s[1] == st[1] && s[2] == st[2]);
    assert(st[2] == parens(params));
    assert(params.skip(6) =~= ty);
    reveal_strlit("fn");
    reveal_strlit("mut");
    reveal_strlit("Self");
    assert("Self"@.len() != "fn"@.len());
    assert("mut"@.len() != "fn"@.len());
    assert(sid("Self") != Tree::Ident("fn"@));
    assert(sid("mut") != Tree::Ident("fn"@));
    let t5 = seq![sid("Self"), braced(body)] + rest;
    let t4 = seq![sid("mut")] + t5;
    let t3 = seq![sp('&')] + t4;
    let t2 = seq![sp('>')] + t3;
    let t1 = seq![sj('-')] + t2;
    assert(s.subrange(3, s.len() as int) =~= t1);
    lemma_declared_skip(braced(body), rest);
    assert(seq![sid("Self")] + (seq![braced(body)] + rest) =~= t5);
    lemma_declared_skip(sid("Self"), seq![braced(body)] + rest);
    lemma_declared_skip(sid("mut"), t5);
    lemma_declared_skip(sp('&'), t4);
    lemma_declared_skip(sp('>'), t3);
    lemma_declared_skip(sj('-'), t2);
}

/// The pieces of the fields, taken from the first field on.
proof fn lemma_concat_pieces_front(fs: Seq<FieldView>, p: spec_fn(FieldView) -> Seq<Tree>)
    requires
        fs.len() > 0,
    ensures
        concat_pieces(fs, p) == p(fs[0]) + concat_pieces(fs.drop_first(), p),
    decreases fs.len(),
{
    if fs.len() == 1 {
        assert(fs.drop_last().len() == 0);
        assert(fs.drop_first().len() == 0);
        assert(concat_pieces(fs.drop_last(), p) == Seq::<Tree>::empty());
        assert(concat_pieces(fs.drop_first(), p) == Seq::<Tree>::empty());
        assert(fs.last() == fs[0]);
        assert(p(fs[0]) + Seq::<Tree>::empty() =~= p(fs[0]));
        assert(Seq::<Tree>::empty() + p(fs.last()) =~= p(fs[0]));
    } else {
        let init = fs.drop_last();
        lemma_concat_pieces_front(init, p);
        assert(init.drop_first() =~= fs.drop_first().drop_last());
        assert(fs.drop_first().last() == fs.last());
        assert(concat_pieces(fs.drop_first(), p)
            == concat_pieces(fs.drop_first().drop_last(), p) + p(fs.drop_first().last()));
        assert(init[0] == fs[0]);
        assert(p(fs[0]) + concat_pieces(init.drop_first(), p) + p(fs.last())
            =~= p(fs[0]) + (concat_pieces(init.drop_first(), p) + p(fs.last())));
    }
}

/// Where each named field's piece is one setter, with the name and type that `sig` gives, and
/// a field without a name adds nothing, the setters declared are one per named field, as
/// `sig` gives them.
proof fn lemma_one_setter_per_field(
    fs: Seq<FieldView>,
    piece: spec_fn(FieldView) -> Seq<Tree>,
    sig: spec_fn(FieldView) -> (Seq<char>, Seq<Tree>),
    body: spec_fn(FieldView) -> Seq<Tree>,
)
    requires
        forall|f: FieldView| f.ident is None ==> #[trigger] piece(f) == Seq::<Tree>::empty(),
        forall|f: FieldView| f.ident is Some ==> #[trigger] piece(f) == setter(sig(f).0, sig(f).1, body(f)),
    ensures
        declared_setters(concat_pieces(fs, piece)) == per_named_field(fs, sig),
    decreases fs.len(),
{
    if fs.len() == 0 {
        assert(declared_setters(Seq::<Tree>::empty()) =~= Seq::<(Seq<char>, Seq<Tree>)>::empty());
    } else {
        lemma_concat_pieces_front(fs, piece);
        lemma_one_setter_per_field(fs.drop_first(), piece, sig, body);
        let rest = concat_pieces(fs.drop_first(), piece);
        if fs[0].ident is Some {
            lemma_declared_setter(sig(fs[0]).0, sig(fs[0]).1, body(fs[0]), rest);
        } else {
            assert(piece(fs[0]) + rest =~= rest);
        }
    }
}

/// The setter that the chained derive gives a named field: named after it, taking its type.
pub open spec fn chained_setter_sig(f: FieldView) -> (Seq<char>, Seq<Tree>) {
    (f.ident.unwrap(), f.ty.tokens)
}

/// The setter that the derive with optional fields gives a named field: named after it,
/// taking `T` for an `Option<T>` field and the field's type otherwise.
pub open spec fn optional_setter_sig(f: FieldView) -> (Seq<char>, Seq<Tree>) {
    match first_type_arg(f.ty, "Option"@) {
        Some(inner) => (f.ident.unwrap(), inner),
        None => (f.ident.unwrap(), f.ty.tokens),
    }
}

/// The setter that the derive with repeated fields gives a named field: as with optional
/// fields, except that a field marked `#[builder(each = "name")]` (and not an `Option`) gets
/// the setter `name`, which takes one element of the `Vec`.
pub open spec fn repeated_setter_sig(f: FieldView) -> (Seq<char>, Seq<Tree>) {
    match first_type_arg(f.ty, "Option"@) {
        Some(inner) => (f.ident.unwrap(), inner),
        None => match builder_attr(f) {
            Some(name) => (name, match first_type_arg(f.ty, "Vec"@) { Some(t) => t, None => Seq::empty() }),
            None => (f.ident.unwrap(), f.ty.tokens),
        },
    }
}

/// The chained derive's builder declares exactly one setter per named field, in field order,
/// named after the field and taking the field's type.
pub proof fn law_chained_one_setter_per_field(fs: Seq<FieldView>)
    ensures
        declared_setters(concat_pieces(fs, |f: FieldView| method_chaining::setter_piece(f)))
            == per_named_field(fs, |f: FieldView| chained_setter_sig(f)),
{
    lemma_one_setter_per_field(fs, |f: FieldView| method_chaining::setter_piece(f), |f: FieldView| chained_setter_sig(f),
        |f: FieldView| crate::builder::pieces::assign_some(underscored(f.ident.unwrap()), f.ident.unwrap()));
}

/// The optional derive's builder declares exactly one setter per named field, in field order,
/// named after the field; an `Option<T>` field's setter takes a `T`.
pub proof fn law_optional_one_setter_per_field(fs: Seq<FieldView>)
    ensures
        declared_setters(concat_pieces(fs, |f: FieldView| optional_field::setter_piece(f)))
            == per_named_field(fs, |f: FieldView| optional_setter_sig(f)),
{
    lemma_one_setter_per_field(fs, |f: FieldView| optional_field::setter_piece(f), |f: FieldView| optional_setter_sig(f),
        |f: FieldView| crate::builder::pieces::assign_some(underscored(f.ident.unwrap()), f.ident.unwrap()));
}

/// The repeated derive's builder declares exactly one setter per named field, in field order:
/// a field marked `#[builder(each = "name")]` gets only the setter `name`, which takes one
/// element; an `Option<T>` field's setter takes a `T`.
pub proof fn law_repeated_one_setter_per_field(fs: Seq<FieldView>)
    ensures
        declared_setters(concat_pieces(fs, |f: FieldView| repeated_field::setter_piece(f)))
            == per_named_field(fs, |f: FieldView| repeated_setter_sig(f)),
{
    let body = |f: FieldView| match (first_type_arg(f.ty, "Option"@), builder_attr(f)) {
        (None, Some(name)) => crate::builder::pieces::push_item(underscored(f.ident.unwrap()), name),
        _ => crate::builder::pieces::assign_some(underscored(f.ident.unwrap()), f.ident.unwrap()),
    };
    assert forall|f: FieldView| f.ident is Some implies #[trigger] repeated_field::setter_piece(f)
        == setter(repeated_setter_sig(f).0, repeated_setter_sig(f).1, body(f)) by {
        assert(repeated_field::vec_item(f) == match first_type_arg(f.ty, "Vec"@) { Some(t) => t, None => Seq::<Tree>::empty() });
    }
    lemma_one_setter_per_field(fs, |f: FieldView| repeated_field::setter_piece(f), |f: FieldView| repeated_setter_sig(f), body);
}

/// `id: self._id.take().ok_or(format!("Field {} is not set", stringify!(id)))?,`: the
/// initializer with which `build` fails, saying "Field id is not set", when the field was not
/// set.
pub open spec fn fails_unless_set(id: Seq<char>) -> Seq<Tree> {
    seq![
        Tree::Ident(id), sp(':'), sid("self"), sp('.'), Tree::Ident(underscored(id)), sp('.'), sid("take"),
        parens(Seq::empty()), sp('.'), sid("ok_or"),
        parens(seq![
            sid("format"), sp('!'),
            parens(seq![
                Tree::Literal("\"Field {} is not set\""@), sp(','), sid("stringify"), sp('!'), parens(seq![Tree::Ident(id)]),
            ]),
        ]),
        sp('?'), sp(','),
    ]
}

/// `id: self._id.take(),`: the initializer that leaves an unset field `None`.
pub open spec fn none_unless_set(id: Seq<char>) -> Seq<Tree> {
    seq![
        Tree::Ident(id), sp(':'), sid("self"), sp('.'), Tree::Ident(underscored(id)), sp('.'), sid("take"),
        parens(Seq::empty()), sp(','),
    ]
}

/// `id: std::mem::replace(&mut self._id, vec![]),`: the initializer that hands over the
/// elements collected one at a time.
pub open spec fn collected(id: Seq<char>) -> Seq<Tree> {
    seq![
        Tree::Ident(id), sp(':'), sid("std"), sj(':'), sp(':'), sid("mem"), sj(':'), sp(':'), sid("replace"),
        parens(seq![
            sp('&'), sid("mut"), sid("self"), sp('.'), Tree::Ident(underscored(id)), sp(','), sid("vec"), sp('!'),
            brackets(Seq::empty()),
        ]),
        sp(','),
    ]
}

/// In the chained derive, `build` fails with "Field id is not set" for every named field that
/// was not set, whatever its type: its body is that initializer for each named field, in order.
pub proof fn law_chained_build_requires_every_field(fs: Seq<FieldView>)
    ensures
        concat_pieces(fs, |f: FieldView| method_chaining::build_piece(f)) == concat_pieces(fs, |f: FieldView|
            match f.ident {
                Some(id) => fails_unless_set(id),
                None => Seq::<Tree>::empty(),
            }),
{
    reveal_strlit("\"Field {} is not set\"");
    lemma_concat_pieces_agree(fs, |f: FieldView| method_chaining::build_piece(f), |f: FieldView|
        match f.ident {
            Some(id) => fails_unless_set(id),
            None => Seq::<Tree>::empty(),
        });
}

/// In the derive with optional fields, `build` leaves an unset `Option` field `None` and fails
/// with "Field id is not set" for every other named field that was not set.
pub proof fn law_optional_build_requires_non_option_fields(fs: Seq<FieldView>)
    ensures
        concat_pieces(fs, |f: FieldView| optional_field::build_piece(f)) == concat_pieces(fs, |f: FieldView|
            match f.ident {
                Some(id) => if is_option(f) { none_unless_set(id) } else { fails_unless_set(id) },
                None => Seq::<Tree>::empty(),
            }),
{
    lemma_concat_pieces_agree(fs, |f: FieldView| optional_field::build_piece(f), |f: FieldView|
        match f.ident {
            Some(id) => if is_option(f) { none_unless_set(id) } else { fails_unless_set(id) },
            None => Seq::<Tree>::empty(),
        });
}

/// In the derive with repeated fields, `build` hands over the elements collected for a field
/// marked `#[builder(each = ..)]`, leaves an unset `Option` field `None`, and fails with
/// "Field id is not set" for every other named field that was not set.
pub proof fn law_repeated_build_requires_plain_fields(fs: Seq<FieldView>)
    ensures
        concat_pieces(fs, |f: FieldView| repeated_field::build_piece(f)) == concat_pieces(fs, |f: FieldView|
            match f.ident {
                Some(id) => if builder_attr(f) is Some {
                    collected(id)
                } else if is_option(f) {
                    none_unless_set(id)
                } else {
                    fails_unless_set(id)
                },
                None => Seq::<Tree>::empty(),
            }),
{
    lemma_concat_pieces_agree(fs, |f: FieldView| repeated_field::build_piece(f), |f: FieldView|
        match f.ident {
            Some(id) => if builder_attr(f) is Some {
                collected(id)
            } else if is_option(f) {
                none_unless_set(id)
            } else {
                fails_unless_set(id)
            },
            None => Seq::<Tree>::empty(),
        });
}

} // verus!
