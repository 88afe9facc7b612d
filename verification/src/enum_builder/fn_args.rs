use vstd::prelude::*;
use crate::token::{
    TokenTree, Tree, Delimiter, Spacing, trees_view, lemma_trees_view, clone_stream,
    push_tree, push_copy, ident, punct,
};
use crate::builder::attrs::{ident_new_accepts, ident_new_ok};
use crate::enum_builder::names::{texts, insert_all, insert_name};
use crate::enum_builder::model::{
    GenericParam, FnArg, TraitFn, TraitItem, ItemTrait, GenericParamView, FnArgView, TraitFnView,
    TraitItemView, ItemTraitView, decls_view,
};

verus! {

broadcast use lemma_trees_view;

/// The separator `,`.
pub open spec fn comma() -> Tree {
    Tree::Punct(',', Spacing::Alone)
}

/// What `Itertools::intersperse` yields: the items with `sep` between each two of them.
pub open spec fn interspersed<A>(s: Seq<A>, sep: A) -> Seq<A>
    decreases s.len(),
{
    if s.len() <= 1 {
        s
    } else {
        interspersed(s.drop_last(), sep).push(sep).push(s.last())
    }
}

/// The models of a sequence of token streams.
pub open spec fn streams_view(v: Seq<Vec<TokenTree>>) -> Seq<Seq<Tree>> {
    v.map_values(|x: Vec<TokenTree>| trees_view(x@))
}

/// Trusted: calls `itertools::Itertools::intersperse` on the streams with the separator stream
/// and collects what it yields. The contract states what its documentation says: the items in
/// order, with a clone of the separator between each two of them (the clone of a token tree
/// is the verified deep copy, so it has the separator's model).
#[verifier::external_body]
fn intersperse_streams(items: Vec<Vec<TokenTree>>, sep: Vec<TokenTree>) -> (res: Vec<Vec<TokenTree>>)
    ensures
        streams_view(res@) == interspersed(streams_view(items@), trees_view(sep@)),
{
    itertools::Itertools::intersperse(items.into_iter(), sep).collect()
}

/// The types of the typed inputs of a method, in order (the receiver has none).
pub open spec fn typed_inputs(inputs: Seq<FnArgView>) -> Seq<Seq<Tree>>
    decreases inputs.len(),
{
    if inputs.len() == 0 {
        Seq::empty()
    } else {
        let r = typed_inputs(inputs.drop_last());
        match inputs.last() {
            FnArgView::Typed(ts) => r.push(ts),
            FnArgView::Receiver => r,
        }
    }
}

/// The argument types of a method's variant: its input types separated by commas.
pub open spec fn arg_types(f: TraitFnView) -> Seq<Tree> {
    interspersed(typed_inputs(f.inputs), seq![comma()]).flatten()
}

/// The name of a method's variant: the method's name followed by `Arg`.
pub open spec fn variant_name(f: TraitFnView) -> Seq<char> {
    f.ident + "Arg"@
}

/// The tokens of a method's variant: `nameArg(T1, T2),`.
pub open spec fn variant_tokens(f: TraitFnView) -> Seq<Tree> {
    seq![
        Tree::Ident(variant_name(f)),
        Tree::Group(Delimiter::Parenthesis, arg_types(f)),
        comma(),
    ]
}

/// The methods among the items of a trait, in order.
pub open spec fn item_fns(items: Seq<TraitItemView>) -> Seq<TraitFnView>
    decreases items.len(),
{
    if items.len() == 0 {
        Seq::empty()
    } else {
        let r = item_fns(items.drop_last());
        match items.last() {
            TraitItemView::Fn(f) => r.push(f),
            TraitItemView::Other => r,
        }
    }
}

/// The methods of all the trait declarations, in order.
pub open spec fn all_fns(decls: Seq<ItemTraitView>) -> Seq<TraitFnView>
    decreases decls.len(),
{
    if decls.len() == 0 {
        Seq::empty()
    } else {
        all_fns(decls.drop_last()) + item_fns(decls.last().items)
    }
}

/// The variants of the methods, one after the other.
pub open spec fn variants(fns: Seq<TraitFnView>) -> Seq<Tree>
    decreases fns.len(),
{
    if fns.len() == 0 {
        Seq::empty()
    } else {
        variants(fns.drop_last()) + variant_tokens(fns.last())
    }
}

/// The names of the type parameters among generic parameters, in order.
pub open spec fn type_param_names(ps: Seq<GenericParamView>) -> Seq<Seq<char>>
    decreases ps.len(),
{
    if ps.len() == 0 {
        Seq::empty()
    } else {
        let r = type_param_names(ps.drop_last());
        match ps.last() {
            GenericParamView::Type(n) => r.push(n),
            GenericParamView::Other => r,
        }
    }
}

/// The keys of the ordered map of type-parameter names after the methods are read in turn.
pub open spec fn generics_after(fns: Seq<TraitFnView>) -> Seq<Seq<char>>
    decreases fns.len(),
{
    if fns.len() == 0 {
        Seq::empty()
    } else {
        insert_all(generics_after(fns.drop_last()), type_param_names(fns.last().generic_params))
    }
}

/// Identifiers separated by commas.
pub open spec fn comma_list(names: Seq<Seq<char>>) -> Seq<Tree>
    decreases names.len(),
{
    if names.len() == 0 {
        Seq::empty()
    } else if names.len() == 1 {
        seq![Tree::Ident(names[0])]
    } else {
        comma_list(names.drop_last()) + seq![comma(), Tree::Ident(names.last())]
    }
}

/// The enum generated from the trait declarations:
/// `enum FnArgs<Data: DataTrait, G1, G2> { fooArg(T1, T2), ... }`, with the type parameters of
/// all the methods, each once and in order, and a variant for each method.
pub open spec fn enum_tokens(decls: Seq<ItemTraitView>) -> Seq<Tree> {
    let fns = all_fns(decls);
    seq![
        Tree::Ident("enum"@),
        Tree::Ident("FnArgs"@),
        Tree::Punct('<', Spacing::Alone),
        Tree::Ident("Data"@),
        Tree::Punct(':', Spacing::Alone),
        Tree::Ident("DataTrait"@),
        comma(),
    ] + comma_list(generics_after(fns)) + seq![
        Tree::Punct('>', Spacing::Alone),
        Tree::Group(Delimiter::Brace, variants(fns)),
    ]
}

/// Whether every variant name is an identifier that `proc_macro2::Ident::new` accepts (it
/// panics on any other, such as the name made from a raw identifier `r#fn`).
pub open spec fn variant_names_ok(decls: Seq<ItemTraitView>) -> bool {
    forall|k: int| 0 <= k < all_fns(decls).len() ==> ident_new_accepts(#[trigger] variant_name(all_fns(decls)[k]))
}

/// The argument types of a method's variant, as `arg_types` states.
fn arg_types_of(f: &TraitFn) -> (res: Vec<TokenTree>)
    ensures
        trees_view(res@) == arg_types(f@),
{
    let ghost ins = f@.inputs;
    let mut types: Vec<Vec<TokenTree>> = Vec::new();
    let mut j: usize = 0;
    while j < f.inputs.len()
        invariant
            j <= f.inputs@.len(),
            ins == f@.inputs,
            streams_view(types@) == typed_inputs(ins.subrange(0, j as int)),
        decreases f.inputs.len() - j,
    {
        let ghost pre = ins.subrange(0, j as int);
        assert(ins.subrange(0, j + 1).drop_last() =~= pre);
        assert(ins.subrange(0, j + 1).last() == f.inputs@[j as int]@);
        match &f.inputs[j] {
            FnArg::Typed(ts) => {
                let c = clone_stream(ts);
                let ghost old_types = types@;
                types.push(c);
                assert(streams_view(types@) =~= streams_view(old_types).push(trees_view(ts@)));
            },
            FnArg::Receiver => {},
        }
        j = j + 1;
    }
    assert(ins.subrange(0, j as int) =~= ins);
    let mut sep: Vec<TokenTree> = Vec::new();
    sep.push(punct(','));
    assert(trees_view(sep@) =~= seq![comma()]);
    let parts = intersperse_streams(types, sep);
    let ghost ps = streams_view(parts@);
    let mut out: Vec<TokenTree> = Vec::new();
    let mut k: usize = 0;
    assert(ps.subrange(0, 0).flatten() =~= Seq::<Tree>::empty());
    while k < parts.len()
        invariant
            k <= parts@.len(),
            ps == streams_view(parts@),
            trees_view(out@) == ps.subrange(0, k as int).flatten(),
        decreases parts.len() - k,
    {
        push_copy(&mut out, &parts[k]);
        proof {
            assert(ps.subrange(0, k + 1) =~= ps.subrange(0, k as int).push(ps[k as int]));
            ps.subrange(0, k as int).lemma_flatten_push(ps[k as int]);
        }
        k = k + 1;
    }
    assert(ps.subrange(0, k as int) =~= ps);
    out
}

/// Appends a method's variant, as `variant_tokens` states.
fn push_variant(out: &mut Vec<TokenTree>, f: &TraitFn)
    requires
        ident_new_accepts(variant_name(f@)),
    ensures
        trees_view(final(out)@) == trees_view(old(out)@) + variant_tokens(f@),
{
    let mut name = f.ident.clone();
    name.append("Arg");
    push_tree(out, TokenTree::Ident(name));
    let types = arg_types_of(f);
    push_tree(out, TokenTree::Group(Delimiter::Parenthesis, types));
    push_tree(out, punct(','));
    assert(trees_view(out@) =~= trees_view(old(out)@) + variant_tokens(f@));
}

/// Inserts the names of a method's type parameters into the ordered keys.
fn add_fn_generics(keys: &mut Vec<String>, f: &TraitFn)
    ensures
        texts(final(keys)@) == insert_all(texts(old(keys)@), type_param_names(f@.generic_params)),
{
    let ghost ps = f@.generic_params;
    let ghost start = texts(keys@);
    let mut j: usize = 0;
    while j < f.generic_params.len()
        invariant
            j <= f.generic_params@.len(),
            ps == f@.generic_params,
            texts(keys@) == insert_all(start, type_param_names(ps.subrange(0, j as int))),
        decreases f.generic_params.len() - j,
    {
        let ghost pre = ps.subrange(0, j as int);
        assert(ps.subrange(0, j + 1).drop_last() =~= pre);
        assert(ps.subrange(0, j + 1).last() == f.generic_params@[j as int]@);
        match &f.generic_params[j] {
            GenericParam::Type(n) => {
                insert_name(keys, n.clone());
                assert(type_param_names(pre).push(n@).drop_last() =~= type_param_names(pre));
            },
            GenericParam::Other => {},
        }
        j = j + 1;
    }
    assert(ps.subrange(0, j as int) =~= ps);
}

/// Reads the methods of one trait declaration: their type parameters go into the keys and their
/// variants onto the fields.
fn add_trait(keys: &mut Vec<String>, fields: &mut Vec<TokenTree>, d: &ItemTrait, Ghost(prev): Ghost<Seq<TraitFnView>>)
    requires
        texts(old(keys)@) == generics_after(prev),
        trees_view(old(fields)@) == variants(prev),
        forall|k: int| 0 <= k < item_fns(d@.items).len() ==> ident_new_accepts(#[trigger] variant_name(item_fns(d@.items)[k])),
    ensures
        texts(final(keys)@) == generics_after(prev + item_fns(d@.items)),
        trees_view(final(fields)@) == variants(prev + item_fns(d@.items)),
{
    let ghost its = d@.items;
    let mut j: usize = 0;
    assert(prev + item_fns(its.subrange(0, 0)) =~= prev);
    while j < d.items.len()
        invariant
            j <= d.items@.len(),
            its == d@.items,
            forall|k: int| 0 <= k < item_fns(its).len() ==> ident_new_accepts(#[trigger] variant_name(item_fns(its)[k])),
            texts(keys@) == generics_after(prev + item_fns(its.subrange(0, j as int))),
            trees_view(fields@) == variants(prev + item_fns(its.subrange(0, j as int))),
        decreases d.items.len() - j,
    {
        let ghost done = prev + item_fns(its.subrange(0, j as int));
        assert(its.subrange(0, j + 1).drop_last() =~= its.subrange(0, j as int));
        assert(its.subrange(0, j + 1).last() == d.items@[j as int]@);
        match &d.items[j] {
            TraitItem::Fn(f) => {
                proof {
                    lemma_item_fns_prefix(its, j as int + 1);
                    let n = item_fns(its.subrange(0, j as int)).len() as int;
                    assert(item_fns(its.subrange(0, j + 1)) == item_fns(its.subrange(0, j as int)).push(f@));
                    assert(item_fns(its.subrange(0, j + 1))[n] == f@);
                    assert(item_fns(its)[n] == f@);
                    assert(prev + item_fns(its.subrange(0, j + 1)) =~= done.push(f@));
                    assert(done.push(f@).drop_last() =~= done);
                }
                add_fn_generics(keys, f);
                push_variant(fields, f);
            },
            TraitItem::Other => {},
        }
        j = j + 1;
    }
    assert(its.subrange(0, j as int) =~= its);
}

/// The methods of the first `j` items are the first methods of all the items.
proof fn lemma_item_fns_prefix(its: Seq<TraitItemView>, j: int)
    requires
        0 <= j <= its.len(),
    ensures
        item_fns(its.subrange(0, j)).len() <= item_fns(its).len(),
        forall|k: int| 0 <= k < item_fns(its.subrange(0, j)).len() ==> #[trigger] item_fns(its.subrange(0, j))[k] == item_fns(its)[k],
    decreases its.len() - j,
{
    if j < its.len() {
        lemma_item_fns_prefix(its, j + 1);
        let a = its.subrange(0, j + 1);
        assert(a.drop_last() =~= its.subrange(0, j));
        let r = item_fns(its.subrange(0, j));
        assert forall|k: int| 0 <= k < r.len() implies #[trigger] r[k] == item_fns(its)[k] by {
            assert(item_fns(a)[k] == r[k]);
        }
    } else {
        assert(its.subrange(0, j) =~= its);
    }
}

/// The methods of the first `i` declarations are the first methods of all of them.
proof fn lemma_all_fns_prefix(ds: Seq<ItemTraitView>, i: int)
    requires
        0 <= i <= ds.len(),
    ensures
        all_fns(ds.subrange(0, i)).len() <= all_fns(ds).len(),
        forall|k: int| 0 <= k < all_fns(ds.subrange(0, i)).len() ==> #[trigger] all_fns(ds.subrange(0, i))[k] == all_fns(ds)[k],
    decreases ds.len() - i,
{
    if i < ds.len() {
        lemma_all_fns_prefix(ds, i + 1);
        let a = ds.subrange(0, i + 1);
        assert(a.drop_last() =~= ds.subrange(0, i));
        let r = all_fns(ds.subrange(0, i));
        assert forall|k: int| 0 <= k < r.len() implies #[trigger] r[k] == all_fns(ds)[k] by {
            assert(all_fns(a)[k] == r[k]);
        }
    } else {
        assert(ds.subrange(0, i) =~= ds);
    }
}

/// Identifiers separated by commas, as `comma_list` states.
fn comma_list_of(names: &Vec<String>) -> (res: Vec<TokenTree>)
    ensures
        trees_view(res@) == comma_list(texts(names@)),
{
    let ghost ns = texts(names@);
    let mut res: Vec<TokenTree> = Vec::new();
    let mut i: usize = 0;
    assert(trees_view(res@) =~= comma_list(ns.subrange(0, 0)));
    while i < names.len()
        invariant
            i <= names@.len(),
            ns == texts(names@),
            trees_view(res@) == comma_list(ns.subrange(0, i as int)),
        decreases names.len() - i,
    {
        let ghost pre = ns.subrange(0, i as int);
        assert(ns.subrange(0, i + 1).drop_last() =~= pre);
        assert(ns.subrange(0, i + 1).last() == names@[i as int]@);
        if i > 0 {
            push_tree(&mut res, punct(','));
        }
        push_tree(&mut res, TokenTree::Ident(names[i].clone()));
        proof {
            if i == 0 {
                assert(trees_view(res@) =~= seq![Tree::Ident(ns.subrange(0, 1)[0])]);
            } else {
                assert(trees_view(res@) =~= comma_list(pre) + seq![comma(), Tree::Ident(ns[i as int])]);
            }
        }
        i = i + 1;
    }
    assert(ns.subrange(0, i as int) =~= ns);
    res
}

/// Expands trait declarations into the enum of their methods' arguments, as `enum_tokens`
/// states.
pub fn enum_build(decls: &Vec<ItemTrait>) -> (out: Vec<TokenTree>)
    requires
        variant_names_ok(decls_view(decls@)),
    ensures
        trees_view(out@) == enum_tokens(decls_view(decls@)),
{
    let ghost ds = decls_view(decls@);
    let mut keys: Vec<String> = Vec::new();
    let mut fields: Vec<TokenTree> = Vec::new();
    let mut i: usize = 0;
    assert(texts(keys@) =~= Seq::<Seq<char>>::empty());
    assert(trees_view(fields@) =~= Seq::<Tree>::empty());
    assert(all_fns(ds.subrange(0, 0)) =~= Seq::<TraitFnView>::empty());
    while i < decls.len()
        invariant
            i <= decls@.len(),
            ds == decls_view(decls@),
            variant_names_ok(ds),
            texts(keys@) == generics_after(all_fns(ds.subrange(0, i as int))),
            trees_view(fields@) == variants(all_fns(ds.subrange(0, i as int))),
        decreases decls.len() - i,
    {
        let ghost prev = all_fns(ds.subrange(0, i as int));
        let ghost d = ds[i as int];
        assert(ds.subrange(0, i + 1).drop_last() =~= ds.subrange(0, i as int));
        assert(d == decls@[i as int]@);
        assert(all_fns(ds.subrange(0, i + 1)) == prev + item_fns(d.items));
        proof {
            lemma_all_fns_prefix(ds, i + 1);
            assert forall|k: int| 0 <= k < item_fns(d.items).len() implies ident_new_accepts(#[trigger] variant_name(item_fns(d.items)[k])) by {
                let at = prev.len() + k;
                assert(all_fns(ds.subrange(0, i + 1))[at] == item_fns(d.items)[k]);
                assert(all_fns(ds)[at] == item_fns(d.items)[k]);
            }
        }
        add_trait(&mut keys, &mut fields, &decls[i], Ghost(prev));
        i = i + 1;
    }
    assert(ds.subrange(0, i as int) =~= ds);
    let mut out: Vec<TokenTree> = Vec::new();
    push_tree(&mut out, ident("enum"));
    push_tree(&mut out, ident("FnArgs"));
    push_tree(&mut out, punct('<'));
    push_tree(&mut out, ident("Data"));
    push_tree(&mut out, punct(':'));
    push_tree(&mut out, ident("DataTrait"));
    push_tree(&mut out, punct(','));
    let gens = comma_list_of(&keys);
    push_copy(&mut out, &gens);
    push_tree(&mut out, punct('>'));
    push_tree(&mut out, TokenTree::Group(Delimiter::Brace, fields));
    assert(trees_view(out@) =~= enum_tokens(ds));
    out
}

/// Whether every variant name is accepted, as `variant_names_ok` states.
fn variant_names_ok_exec(decls: &Vec<ItemTrait>) -> (b: bool)
    ensures
        b == variant_names_ok(decls_view(decls@)),
{
    let ghost ds = decls_view(decls@);
    let mut i: usize = 0;
    while i < decls.len()
        invariant
            i <= decls@.len(),
            ds == decls_view(decls@),
            forall|k: int| 0 <= k < all_fns(ds.subrange(0, i as int)).len() ==> ident_new_accepts(#[trigger] variant_name(all_fns(ds.subrange(0, i as int))[k])),
        decreases decls.len() - i,
    {
        let ghost prev = all_fns(ds.subrange(0, i as int));
        let ghost its = ds[i as int].items;
        assert(ds.subrange(0, i + 1).drop_last() =~= ds.subrange(0, i as int));
        assert(ds[i as int] == decls@[i as int]@);
        let items = &decls[i].items;
        let mut j: usize = 0;
        while j < items.len()
            invariant
                j <= items@.len(),
                i < decls@.len(),
                ds == decls_view(decls@),
                prev == all_fns(ds.subrange(0, i as int)),
                forall|k: int| 0 <= k < prev.len() ==> ident_new_accepts(#[trigger] variant_name(prev[k])),
                its == decls@[i as int]@.items,
                items == &decls@[i as int].items,
                forall|k: int| 0 <= k < item_fns(its.subrange(0, j as int)).len() ==> ident_new_accepts(#[trigger] variant_name(item_fns(its.subrange(0, j as int))[k])),
            decreases items.len() - j,
        {
            assert(its.subrange(0, j + 1).drop_last() =~= its.subrange(0, j as int));
            assert(its.subrange(0, j + 1).last() == items@[j as int]@);
            match &items[j] {
                TraitItem::Fn(f) => {
                    let mut name = f.ident.clone();
                    name.append("Arg");
                    assert(item_fns(its.subrange(0, j + 1)) == item_fns(its.subrange(0, j as int)).push(f@));
                    assert(name@ == variant_name(f@));
                    if !ident_new_ok(&name) {
                        proof {
                            lemma_item_fns_prefix(its, j + 1);
                            lemma_all_fns_prefix(ds, i + 1);
                            let n = item_fns(its.subrange(0, j as int)).len() as int;
                            assert(item_fns(its.subrange(0, j + 1))[n] == f@);
                            assert(item_fns(its)[n] == f@);
                            assert(ds.subrange(0, i + 1).drop_last() =~= ds.subrange(0, i as int));
                            assert(ds[i as int] == decls@[i as int]@);
                            assert(all_fns(ds.subrange(0, i + 1)) == prev + item_fns(its));
                            assert(all_fns(ds.subrange(0, i + 1))[prev.len() as int + n] == f@);
                            assert(all_fns(ds)[prev.len() as int + n] == f@);
                        }
                        return false;
                    }
                    proof {
                        let a = item_fns(its.subrange(0, j + 1));
                        let r = item_fns(its.subrange(0, j as int));
                        assert forall|k: int| 0 <= k < a.len() implies ident_new_accepts(#[trigger] variant_name(a[k])) by {
                            if k < r.len() {
                                assert(a[k] == r[k]);
                            }
                        }
                    }
                },
                TraitItem::Other => {
                    assert(item_fns(its.subrange(0, j + 1)) == item_fns(its.subrange(0, j as int)));
                },
            }
            j = j + 1;
        }
        proof {
            assert(its.subrange(0, j as int) =~= its);
            assert(all_fns(ds.subrange(0, i + 1)) == prev + item_fns(its));
            assert forall|k: int| 0 <= k < all_fns(ds.subrange(0, i + 1)).len() implies ident_new_accepts(#[trigger] variant_name(all_fns(ds.subrange(0, i + 1))[k])) by {
                if k >= prev.len() {
                    assert(all_fns(ds.subrange(0, i + 1))[k] == item_fns(its)[k - prev.len()]);
                }
            }
        }
        i = i + 1;
    }
    assert(ds.subrange(0, i as int) =~= ds);
    true
}

/// `enum_build` on any declarations: `None` where a variant name is not an identifier (where
/// the expansion panics), else `Some` of the expansion.
pub fn enum_build_checked(decls: &Vec<ItemTrait>) -> (out: Option<Vec<TokenTree>>)
    ensures
        out is None <==> !variant_names_ok(decls_view(decls@)),
        out matches Some(o) ==> trees_view(o@) == enum_tokens(decls_view(decls@)),
{
    if variant_names_ok_exec(decls) {
        Some(enum_build(decls))
    } else {
        None
    }
}

} // verus!
