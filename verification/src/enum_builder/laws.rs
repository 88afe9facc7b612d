use vstd::prelude::*;
use crate::enum_builder::names::{
    text_lt, strictly_sorted, lemma_insert_all_sorted, lemma_insert_all_contains, lemma_text_lt_irreflexive,
    lemma_text_lt_asymmetric, lemma_text_lt_transitive, lemma_text_lt_total,
};
use crate::enum_builder::model::{TraitFnView, ItemTraitView};
use crate::enum_builder::fn_args::{all_fns, generics_after, type_param_names, variants, variant_tokens};

verus! {

/// The order in which the generics are sorted (that of `String`) is a strict total order: no
/// name comes before itself, two names never come each before the other, it is transitive, and
/// of two different names one comes before the other.
pub proof fn law_name_order_is_strict_total(a: Seq<char>, b: Seq<char>, c: Seq<char>)
    ensures
        !text_lt(a, a),
        text_lt(a, b) ==> !text_lt(b, a),
        text_lt(a, b) && text_lt(b, c) ==> text_lt(a, c),
        a != b ==> text_lt(a, b) || text_lt(b, a),
{
    lemma_text_lt_irreflexive(a);
    if text_lt(a, b) {
        lemma_text_lt_asymmetric(a, b);
        if text_lt(b, c) {
            lemma_text_lt_transitive(a, b, c);
        }
    }
    if a != b {
        lemma_text_lt_total(a, b);
    }
}

/// `a` comes before `b` at index `i`: they agree before it and `a`'s character there is smaller.
pub open spec fn differs_first_at(a: Seq<char>, b: Seq<char>, i: int) -> bool {
    &&& 0 <= i < a.len()
    &&& i < b.len()
    &&& a.subrange(0, i) == b.subrange(0, i)
    &&& (a[i] as int) < (b[i] as int)
}

/// The order of the generics' names is the lexicographic order of `String`: a name comes
/// before another exactly when it is a proper prefix of it, or when at the first index where
/// they differ its character is the smaller (so `Item` comes before `T`, and `T` before `T1`).
pub proof fn law_name_order_is_lexicographic(a: Seq<char>, b: Seq<char>)
    ensures
        text_lt(a, b) <==> ((a.len() < b.len() && b.subrange(0, a.len() as int) == a)
            || exists|i: int| #[trigger] differs_first_at(a, b, i)),
    decreases a.len(),
{
    if a.len() == 0 {
        assert(b.subrange(0, 0) =~= a);
    } else if b.len() == 0 {
    } else if a[0] != b[0] {
        if text_lt(a, b) {
            assert(a.subrange(0, 0) =~= b.subrange(0, 0));
            assert(differs_first_at(a, b, 0));
        }
        if a.len() < b.len() && b.subrange(0, a.len() as int) == a {
            assert(b.subrange(0, a.len() as int)[0] == b[0]);
        }
        if exists|i: int| #[trigger] differs_first_at(a, b, i) {
            let i = choose|i: int| #[trigger] differs_first_at(a, b, i);
            if i > 0 {
                assert(a.subrange(0, i)[0] == b.subrange(0, i)[0]);
            }
        }
    } else {
        let a1 = a.drop_first();
        let b1 = b.drop_first();
        law_name_order_is_lexicographic(a1, b1);
        if a.len() < b.len() && b.subrange(0, a.len() as int) == a {
            assert(b1.subrange(0, a1.len() as int) =~= a1) by {
                assert forall|k: int| 0 <= k < a1.len() implies b1.subrange(0, a1.len() as int)[k] == a1[k] by {
                    assert(b.subrange(0, a.len() as int)[k + 1] == a[k + 1]);
                }
            }
        }
        if a1.len() < b1.len() && b1.subrange(0, a1.len() as int) == a1 {
            assert(b.subrange(0, a.len() as int) =~= a) by {
                assert forall|k: int| 0 <= k < a.len() implies b.subrange(0, a.len() as int)[k] == a[k] by {
                    if k > 0 {
                        assert(b1.subrange(0, a1.len() as int)[k - 1] == a1[k - 1]);
                    }
                }
            }
        }
        if exists|i: int| #[trigger] differs_first_at(a, b, i) {
            let i = choose|i: int| #[trigger] differs_first_at(a, b, i);
            assert(i > 0);
            assert(a1.subrange(0, i - 1) =~= a.subrange(0, i).drop_first());
            assert(b1.subrange(0, i - 1) =~= b.subrange(0, i).drop_first());
            assert(differs_first_at(a1, b1, i - 1));
        }
        if exists|i: int| #[trigger] differs_first_at(a1, b1, i) {
            let i = choose|i: int| #[trigger] differs_first_at(a1, b1, i);
            assert(a.subrange(0, i + 1) =~= seq![a[0]] + a1.subrange(0, i));
            assert(b.subrange(0, i + 1) =~= seq![b[0]] + b1.subrange(0, i));
            assert(differs_first_at(a, b, i + 1));
        }
    }
}

/// Whether a name is a type parameter of one of the methods.
pub open spec fn is_type_param_of(fns: Seq<TraitFnView>, y: Seq<char>) -> bool {
    exists|k: int| 0 <= k < fns.len() && #[trigger] type_param_names(fns[k].generic_params).contains(y)
}

/// The generics after reading methods are strictly increasing and are the methods' type
/// parameters.
proof fn lemma_generics_after(fns: Seq<TraitFnView>)
    ensures
        strictly_sorted(generics_after(fns)),
        forall|y: Seq<char>| generics_after(fns).contains(y) <==> is_type_param_of(fns, y),
    decreases fns.len(),
{
    if fns.len() > 0 {
        let init = fns.drop_last();
        let last = fns.last();
        lemma_generics_after(init);
        lemma_insert_all_sorted(generics_after(init), type_param_names(last.generic_params));
        assert forall|y: Seq<char>| generics_after(fns).contains(y) <==> is_type_param_of(fns, y) by {
            lemma_insert_all_contains(generics_after(init), type_param_names(last.generic_params), y);
            if is_type_param_of(init, y) {
                let k = choose|k: int| 0 <= k < init.len() && #[trigger] type_param_names(init[k].generic_params).contains(y);
                assert(fns[k] == init[k]);
            }
            if type_param_names(last.generic_params).contains(y) {
                assert(fns[fns.len() - 1] == last);
            }
            if is_type_param_of(fns, y) {
                let k = choose|k: int| 0 <= k < fns.len() && #[trigger] type_param_names(fns[k].generic_params).contains(y);
                if k < fns.len() - 1 {
                    assert(init[k] == fns[k]);
                }
            }
        }
    } else {
        assert forall|y: Seq<char>| generics_after(fns).contains(y) <==> is_type_param_of(fns, y) by {}
    }
}

/// The type parameters of the generated enum (after `Data`) are those of all the methods of all
/// the traits, each once, in the order of `String` (the order in which a `BTreeMap` keyed by
/// their names yields them).
pub proof fn law_enum_generics_sorted_and_complete(decls: Seq<ItemTraitView>)
    ensures
        strictly_sorted(generics_after(all_fns(decls))),
        forall|y: Seq<char>| generics_after(all_fns(decls)).contains(y) <==> is_type_param_of(all_fns(decls), y),
{
    lemma_generics_after(all_fns(decls));
}

/// The variants are three trees each, one for each method.
proof fn lemma_variants(fns: Seq<TraitFnView>)
    ensures
        variants(fns).len() == 3 * fns.len(),
        forall|k: int| 0 <= k < fns.len() ==> variants(fns).subrange(3 * k, 3 * k + 3) == variant_tokens(#[trigger] fns[k]),
    decreases fns.len(),
{
    if fns.len() > 0 {
        let init = fns.drop_last();
        lemma_variants(init);
        let v = variants(fns);
        assert(v == variants(init) + variant_tokens(fns.last()));
        assert forall|k: int| 0 <= k < fns.len() implies v.subrange(3 * k, 3 * k + 3) == variant_tokens(#[trigger] fns[k]) by {
            if k < fns.len() - 1 {
                assert(init[k] == fns[k]);
                assert(v.subrange(3 * k, 3 * k + 3) =~= variants(init).subrange(3 * k, 3 * k + 3));
            } else {
                assert(v.subrange(3 * k, 3 * k + 3) =~= variant_tokens(fns.last()));
            }
        }
    }
}

/// The generated enum has one variant for each method of the traits, in their order, and
/// nothing else: the `k`-th three trees of its body are the variant of the `k`-th method.
pub proof fn law_enum_one_variant_per_method(decls: Seq<ItemTraitView>)
    ensures
        variants(all_fns(decls)).len() == 3 * all_fns(decls).len(),
        forall|k: int| 0 <= k < all_fns(decls).len() ==>
            variants(all_fns(decls)).subrange(3 * k, 3 * k + 3) == variant_tokens(#[trigger] all_fns(decls)[k]),
{
    lemma_variants(all_fns(decls));
}

} // verus!
