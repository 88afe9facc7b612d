use vstd::prelude::*;
use crate::token::{TokenTree, Tree, trees_view, lemma_trees_view, clone_stream, visible, visible_stream};
use crate::syntax::{syn_item_trait_prefix, parse_item_trait};
use crate::enum_builder::model::{ItemTrait, ItemTraitView, decls_view};
use crate::enum_builder::fn_args::{enum_build_checked, enum_tokens, variant_names_ok};

verus! {

broadcast use lemma_trees_view;

/// The trait declarations that the tokens hold one after the other, as syn's `ItemTrait`
/// parser reads them in turn until no token is left, or the text of syn's error where it
/// refuses one. Syn reads through groups without delimiters, so each trait takes at least one
/// of the trees that `visible` shows and fewer of them are left after it; where that would not
/// be so, the reading stops with an error.
pub open spec fn decls_of(tokens: Seq<Tree>) -> Result<Seq<ItemTraitView>, Seq<char>>
    decreases visible(tokens).len(),
{
    if tokens.len() == 0 {
        Ok(Seq::empty())
    } else {
        match syn_item_trait_prefix(tokens) {
            Err(m) => Err(m),
            Ok((d, rest)) => if visible(rest).len() < visible(tokens).len() {
                match decls_of(rest) {
                    Ok(ds) => Ok(seq![d] + ds),
                    Err(m) => Err(m),
                }
            } else {
                Err(no_progress())
            },
        }
    }
}

/// The error where reading a trait would leave no fewer tokens to read.
pub open spec fn no_progress() -> Seq<char> {
    "a trait declaration read no token"@
}

/// Reads trait declarations until the tokens are used up, as `decls_of` states.
pub fn parse_decls(tokens: &Vec<TokenTree>) -> (res: Result<Vec<ItemTrait>, String>)
    ensures
        match res {
            Ok(ds) => decls_of(trees_view(tokens@)) == Ok::<Seq<ItemTraitView>, Seq<char>>(decls_view(ds@)),
            Err(m) => decls_of(trees_view(tokens@)) == Err::<Seq<ItemTraitView>, Seq<char>>(m@),
        },
{
    let ghost all = trees_view(tokens@);
    let mut decls: Vec<ItemTrait> = Vec::new();
    let mut cur = clone_stream(tokens);
    let mut cur_seen = visible_stream(&cur).len();
    assert(decls_view(decls@) =~= Seq::<ItemTraitView>::empty());
    proof {
        match decls_of(all) {
            Ok(ds) => assert(decls_view(decls@) + ds =~= ds),
            Err(_) => {},
        }
    }
    while cur.len() > 0
        invariant
            all == trees_view(tokens@),
            cur_seen == visible(trees_view(cur@)).len(),
            decls_of(all) == match decls_of(trees_view(cur@)) {
                Ok(ds) => Ok::<Seq<ItemTraitView>, Seq<char>>(decls_view(decls@) + ds),
                Err(m) => Err(m),
            },
        decreases cur_seen,
    {
        assert(trees_view(cur@).len() == cur@.len());
        match parse_item_trait(&cur) {
            Err(m) => {
                assert(decls_of(trees_view(cur@)) == Err::<Seq<ItemTraitView>, Seq<char>>(m@));
                return Err(m);
            },
            Ok((d, rest)) => {
                let rest_seen = visible_stream(&rest).len();
                if rest_seen >= cur_seen {
                    let m = String::from_str("a trait declaration read no token");
                    proof {
                        reveal_strlit("a trait declaration read no token");
                    }
                    assert(decls_of(trees_view(cur@)) == Err::<Seq<ItemTraitView>, Seq<char>>(m@));
                    return Err(m);
                }
                let ghost before = decls_view(decls@);
                decls.push(d);
                assert(decls_view(decls@) =~= before.push(d@));
                proof {
                    match decls_of(trees_view(rest@)) {
                        Ok(ds) => assert(before + (seq![d@] + ds) =~= before.push(d@) + ds),
                        Err(_) => {},
                    }
                }
                cur = rest;
                cur_seen = rest_seen;
            },
        }
    }
    assert(trees_view(cur@) =~= Seq::<Tree>::empty());
    assert(decls_view(decls@) + Seq::<ItemTraitView>::empty() =~= decls_view(decls@));
    Ok(decls)
}

/// `enum_build!` on its raw tokens: `Err` with the text of syn's error where syn does not read
/// them as trait declarations; else `Ok` of what `enum_build_checked` gives for them.
pub fn enum_build_tokens(tokens: &Vec<TokenTree>) -> (res: Result<Option<Vec<TokenTree>>, String>)
    ensures
        match decls_of(trees_view(tokens@)) {
            Err(m) => res matches Err(e) && e@ == m,
            Ok(ds) => res matches Ok(o) && (o is None <==> !variant_names_ok(ds))
                && (o matches Some(v) ==> trees_view(v@) == enum_tokens(ds)),
        },
{
    match parse_decls(tokens) {
        Err(m) => Err(m),
        Ok(ds) => Ok(enum_build_checked(&ds)),
    }
}

} // verus!
