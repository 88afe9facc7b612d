use vstd::prelude::*;
use crate::token::{lemma_trees_view_add, TokenTree, Tree, Delimiter, trees_view, tree_view, lemma_trees_view, n_name, decimal_text, literal_i32_unsuffixed, text_is, text_is_raw, append_decimal, clone_tree, punct_is, is_punct, is_ident, ident_text, is_paren_group, is_raw_text};

verus! {

broadcast use lemma_trees_view;

/// Whether a tree is the identifier `N`.
pub open spec fn is_n(t: Tree) -> bool {
    t matches Tree::Ident(x) && x == n_name()
}

/// Every identifier `N` in a stream, at any depth, replaced by the literal `lit`.
pub open spec fn expand_n_trees(s: Seq<Tree>, lit: Seq<char>) -> Seq<Tree>
    decreases s,
{
    if s.len() == 0 {
        Seq::empty()
    } else {
        seq![expand_n_tree(s[0], lit)] + expand_n_trees(s.subrange(1, s.len() as int), lit)
    }
}

/// The identifier `N` replaced by the literal `lit` in one tree, at any depth.
pub open spec fn expand_n_tree(t: Tree, lit: Seq<char>) -> Tree
    decreases t,
{
    match t {
        Tree::Group(d, inner) => Tree::Group(d, expand_n_trees(inner, lit)),
        Tree::Ident(x) => if x == n_name() { Tree::Literal(lit) } else { t },
        _ => t,
    }
}

/// Replaces every identifier `N` in `ts`, inside groups too, by the literal `n`.
pub fn expand_n(ts: &Vec<TokenTree>, n: i32) -> (res: Vec<TokenTree>)
    ensures
        trees_view(res@) == expand_n_trees(trees_view(ts@), decimal_text(n as int)),
    decreases ts@,
{
    let ghost lit = decimal_text(n as int);
    let ghost v = trees_view(ts@);
    let mut res: Vec<TokenTree> = Vec::new();
    let mut i: usize = 0;
    while i < ts.len()
        invariant
            i <= ts.len(),
            v == trees_view(ts@),
            lit == decimal_text(n as int),
            res@.len() == i,
            forall|j: int| 0 <= j < i ==> tree_view(#[trigger] res@[j]) == expand_n_tree(v[j], lit),
        decreases ts.len() - i,
    {
        assert(v[i as int] == tree_view(ts@[i as int]));
        let t = match &ts[i] {
            TokenTree::Group(d, inner) => {
                assert(decreases_to!(ts@ => ts@[i as int]));
                let r = TokenTree::Group(*d, expand_n(inner, n));
                assert(tree_view(ts@[i as int]) == Tree::Group(*d, trees_view(inner@)));
                assert(tree_view(r) == expand_n_tree(tree_view(ts@[i as int]), lit));
                r
            },
            TokenTree::Ident(x) => {
                if text_is(x, "N") {
                    proof { reveal_strlit("N"); assert("N"@ =~= n_name()); }
                    let r = TokenTree::Literal(literal_i32_unsuffixed(n));
                    assert(tree_view(r) == expand_n_tree(tree_view(ts@[i as int]), lit));
                    r
                } else {
                    proof { reveal_strlit("N"); assert("N"@ =~= n_name()); }
                    let r = TokenTree::Ident(x.clone());
                    assert(tree_view(r) == expand_n_tree(tree_view(ts@[i as int]), lit));
                    r
                }
            },
            TokenTree::Punct(c, sp) => TokenTree::Punct(*c, *sp),
            TokenTree::Literal(x) => TokenTree::Literal(x.clone()),
        };
        assert(tree_view(t) == expand_n_tree(v[i as int], lit));
        res.push(t);
        assert(res@[i as int] == t);
        i = i + 1;
    }
    proof {
        lemma_expand_n_trees(v, lit);
        assert(v.len() == ts@.len());
        lemma_trees_view(res@);
        assert forall|j: int| 0 <= j < res@.len() implies trees_view(res@)[j] == expand_n_trees(v, lit)[j] by {
            assert(tree_view(res@[j]) == expand_n_tree(v[j], lit));
        }
        assert(trees_view(res@) =~= expand_n_trees(v, lit));
    }
    res
}

/// `expand_n_trees` works tree by tree.
pub proof fn lemma_expand_n_trees(s: Seq<Tree>, lit: Seq<char>)
    ensures
        expand_n_trees(s, lit).len() == s.len(),
        forall|i: int| 0 <= i < s.len() ==> expand_n_trees(s, lit)[i] == expand_n_tree(#[trigger] s[i], lit),
    decreases s.len(),
{
    if s.len() > 0 {
        let rest = s.subrange(1, s.len() as int);
        lemma_expand_n_trees(rest, lit);
        assert forall|i: int| 0 <= i < s.len() implies expand_n_trees(s, lit)[i] == expand_n_tree(#[trigger] s[i], lit) by {
            if i > 0 {
                assert(s[i] == rest[i - 1]);
            }
        }
    }
}


/// Whether `N` may be pasted onto identifier `x`: the pasted text `x` followed by the decimal
/// text of `n` is an identifier exactly when `x` is not raw and `n` is not negative.
pub open spec fn paste_ok(x: Seq<char>, n: int) -> bool {
    n >= 0 && !is_raw_text(x)
}

/// The stream from index `k` on (or empty when `k` is past its end).
pub open spec fn from(s: Seq<Tree>, k: int) -> Seq<Tree> {
    if k <= s.len() { s.subrange(k, s.len() as int) } else { Seq::empty() }
}

/// The `~N` rewriting of a stream for the value `n`: `N` becomes the literal `n`,
/// `x ~ N` becomes the identifier `x` followed by the digits of `n`, and `x ~` followed by
/// anything else (another identifier too) is kept as it is; groups are rewritten inside.
pub open spec fn expand_v2_trees(s: Seq<Tree>, n: int) -> Seq<Tree>
    decreases s,
{
    if s.len() == 0 {
        Seq::empty()
    } else {
        match s[0] {
            Tree::Group(d, inner) => seq![Tree::Group(d, expand_v2_trees(inner, n))] + expand_v2_trees(from(s, 1), n),
            Tree::Ident(x) => {
                if x == n_name() {
                    seq![Tree::Literal(decimal_text(n))] + expand_v2_trees(from(s, 1), n)
                } else if s.len() >= 2 && punct_is(s[1], '~') {
                    if s.len() >= 3 && is_ident(s[2]) {
                        if ident_text(s[2]) == n_name() {
                            seq![Tree::Ident(x + decimal_text(n))] + expand_v2_trees(from(s, 3), n)
                        } else {
                            s.subrange(0, 3) + expand_v2_trees(from(s, 3), n)
                        }
                    } else if s.len() >= 3 {
                        s.subrange(0, 3) + expand_v2_trees(from(s, 3), n)
                    } else {
                        s
                    }
                } else {
                    seq![s[0]] + expand_v2_trees(from(s, 1), n)
                }
            },
            _ => seq![s[0]] + expand_v2_trees(from(s, 1), n),
        }
    }
}

/// Whether every `x ~ N` that `expand_v2_trees` pastes yields an identifier.
pub open spec fn v2_pastes_ok(s: Seq<Tree>, n: int) -> bool
    decreases s,
{
    if s.len() == 0 {
        true
    } else {
        match s[0] {
            Tree::Group(_, inner) => v2_pastes_ok(inner, n) && v2_pastes_ok(from(s, 1), n),
            Tree::Ident(x) => {
                if x == n_name() {
                    v2_pastes_ok(from(s, 1), n)
                } else if s.len() >= 2 && punct_is(s[1], '~') {
                    if s.len() >= 3 && is_ident(s[2]) {
                        (ident_text(s[2]) == n_name() ==> paste_ok(x, n)) && v2_pastes_ok(from(s, 3), n)
                    } else if s.len() >= 3 {
                        v2_pastes_ok(from(s, 3), n)
                    } else {
                        true
                    }
                } else {
                    v2_pastes_ok(from(s, 1), n)
                }
            },
            _ => v2_pastes_ok(from(s, 1), n),
        }
    }
}


/// The stream inside a group tree (empty for any other tree).
pub open spec fn group_trees(t: Tree) -> Seq<Tree> {
    match t {
        Tree::Group(_, inner) => inner,
        _ => Seq::empty(),
    }
}

/// The third form of the expansion, for the value `n` of the range `start..end`: as
/// `expand_v2_trees`, and in addition `#(...)*` becomes the contents of the parentheses
/// expanded once for each value of `start..end`, one after the other, while `#` followed by a
/// parenthesized group and then by anything other than `*` loses the `#` and keeps the group
/// and the next tree as they are.
pub open spec fn expand_v3_trees(s: Seq<Tree>, start: int, end: int, n: int) -> Seq<Tree>
    decreases s, 0int,
{
    if s.len() == 0 {
        Seq::empty()
    } else {
        match s[0] {
            Tree::Group(d, inner) => seq![Tree::Group(d, expand_v3_trees(inner, start, end, n))]
                + expand_v3_trees(from(s, 1), start, end, n),
            Tree::Ident(x) => {
                if x == n_name() {
                    seq![Tree::Literal(decimal_text(n))] + expand_v3_trees(from(s, 1), start, end, n)
                } else if s.len() >= 2 && punct_is(s[1], '~') {
                    if s.len() >= 3 && is_ident(s[2]) {
                        if ident_text(s[2]) == n_name() {
                            seq![Tree::Ident(x + decimal_text(n))] + expand_v3_trees(from(s, 3), start, end, n)
                        } else {
                            s.subrange(0, 3) + expand_v3_trees(from(s, 3), start, end, n)
                        }
                    } else if s.len() >= 3 {
                        s.subrange(0, 3) + expand_v3_trees(from(s, 3), start, end, n)
                    } else {
                        s
                    }
                } else {
                    seq![s[0]] + expand_v3_trees(from(s, 1), start, end, n)
                }
            },
            Tree::Punct(c, _) => {
                if c == '#' && s.len() >= 2 && is_paren_group(s[1]) {
                    if s.len() >= 3 && punct_is(s[2], '*') {
                        match s[1] {
                            Tree::Group(_, body) => expand_v3_repeat(body, start, end, start)
                                + expand_v3_trees(from(s, 3), start, end, n),
                            _ => Seq::empty(),
                        }
                    } else if s.len() >= 3 {
                        s.subrange(1, 3) + expand_v3_trees(from(s, 3), start, end, n)
                    } else {
                        s.subrange(1, 2)
                    }
                } else {
                    seq![s[0]] + expand_v3_trees(from(s, 1), start, end, n)
                }
            },
            _ => seq![s[0]] + expand_v3_trees(from(s, 1), start, end, n),
        }
    }
}

/// The expansions of `body` for the values `i..end`, one after the other.
pub open spec fn expand_v3_repeat(body: Seq<Tree>, start: int, end: int, i: int) -> Seq<Tree>
    decreases body, end - i,
{
    if i < end {
        expand_v3_trees(body, start, end, i) + expand_v3_repeat(body, start, end, i + 1)
    } else {
        Seq::empty()
    }
}

/// Whether every `x ~ N` that `expand_v3_trees` pastes yields an identifier.
pub open spec fn v3_pastes_ok(s: Seq<Tree>, start: int, end: int, n: int) -> bool
    decreases s, 0int,
{
    if s.len() == 0 {
        true
    } else {
        match s[0] {
            Tree::Group(_, inner) => v3_pastes_ok(inner, start, end, n) && v3_pastes_ok(from(s, 1), start, end, n),
            Tree::Ident(x) => {
                if x == n_name() {
                    v3_pastes_ok(from(s, 1), start, end, n)
                } else if s.len() >= 2 && punct_is(s[1], '~') {
                    if s.len() >= 3 && is_ident(s[2]) {
                        (ident_text(s[2]) == n_name() ==> paste_ok(x, n)) && v3_pastes_ok(from(s, 3), start, end, n)
                    } else if s.len() >= 3 {
                        v3_pastes_ok(from(s, 3), start, end, n)
                    } else {
                        true
                    }
                } else {
                    v3_pastes_ok(from(s, 1), start, end, n)
                }
            },
            Tree::Punct(c, _) => {
                if c == '#' && s.len() >= 2 && is_paren_group(s[1]) {
                    if s.len() >= 3 && punct_is(s[2], '*') {
                        match s[1] {
                            Tree::Group(_, body) => repeat_pastes_ok(body, start, end, start)
                                && v3_pastes_ok(from(s, 3), start, end, n),
                            _ => true,
                        }
                    } else if s.len() >= 3 {
                        v3_pastes_ok(from(s, 3), start, end, n)
                    } else {
                        true
                    }
                } else {
                    v3_pastes_ok(from(s, 1), start, end, n)
                }
            },
            _ => v3_pastes_ok(from(s, 1), start, end, n),
        }
    }
}

/// Whether the pastes of `body` are fine for each value of `i..end`.
pub open spec fn repeat_pastes_ok(body: Seq<Tree>, start: int, end: int, i: int) -> bool
    decreases body, end - i,
{
    if i < end {
        v3_pastes_ok(body, start, end, i) && repeat_pastes_ok(body, start, end, i + 1)
    } else {
        true
    }
}

/// Whether a stream holds `#(...)*` at any depth, as `detect_partial_repeat` looks for it:
/// after `#` and a parenthesized group, the next tree is consumed too and not looked into.
pub open spec fn has_partial_repeat(s: Seq<Tree>) -> bool
    decreases s,
{
    if s.len() == 0 {
        false
    } else {
        match s[0] {
            Tree::Group(_, inner) => has_partial_repeat(inner) || has_partial_repeat(from(s, 1)),
            Tree::Punct(c, _) => {
                if c == '#' && s.len() >= 2 && is_paren_group(s[1]) {
                    if s.len() >= 3 {
                        punct_is(s[2], '*') || has_partial_repeat(from(s, 3))
                    } else {
                        false
                    }
                } else {
                    has_partial_repeat(from(s, 1))
                }
            },
            _ => has_partial_repeat(from(s, 1)),
        }
    }
}

/// Drops the first `k` trees of `from(s, i)`.
pub proof fn lemma_from_from(s: Seq<Tree>, i: int, k: int)
    requires
        0 <= i <= s.len(),
        0 <= k,
    ensures
        from(from(s, i), k) == from(s, i + k),
{
    assert(from(from(s, i), k) =~= from(s, i + k));
}

/// `~N` rewriting of a token stream for the value `n` (the second form of the expansion):
/// `N` becomes the literal `n`, `x ~ N` becomes the identifier `x` followed by the digits of
/// `n`; see `expand_v2_trees`.
pub fn expand_n_v2(ts: &Vec<TokenTree>, n: i32) -> (res: Vec<TokenTree>)
    requires
        v2_pastes_ok(trees_view(ts@), n as int),
    ensures
        trees_view(res@) == expand_v2_trees(trees_view(ts@), n as int),
    decreases ts@,
{
    let ghost v = trees_view(ts@);
    let len = ts.len();
    let mut res: Vec<TokenTree> = Vec::new();
    let mut i: usize = 0;
    proof {
        assert(from(v, 0) =~= v);
        assert(trees_view(res@) =~= Seq::<Tree>::empty());
    }
    while i < len
        invariant
            len == ts@.len(),
            v == trees_view(ts@),
            v.len() == len,
            i <= len,
            expand_v2_trees(v, n as int) == trees_view(res@) + expand_v2_trees(from(v, i as int), n as int),
            v2_pastes_ok(from(v, i as int), n as int),
        decreases len - i,
    {
        let ghost w = from(v, i as int);
        proof {
            assert(w.len() == len - i);
            assert(w[0] == v[i as int]);
            assert(v[i as int] == tree_view(ts@[i as int]));
            lemma_from_from(v, i as int, 1);
            lemma_from_from(v, i as int, 2);
            lemma_from_from(v, i as int, 3);
        }
        let mut out: Vec<TokenTree> = Vec::new();
        let mut k: usize = 1;
        match &ts[i] {
            TokenTree::Group(d, inner) => {
                assert(decreases_to!(ts@ => ts@[i as int]));
                out.push(TokenTree::Group(*d, expand_n_v2(inner, n)));
                proof {
                    lemma_trees_view(out@);
                    assert(trees_view(out@) =~= seq![Tree::Group(*d, expand_v2_trees(trees_view(inner@), n as int))]);
                    assert(trees_view(out@) + expand_v2_trees(from(v, i + k), n as int) == expand_v2_trees(w, n as int));
                }
            },
            TokenTree::Ident(x) => {
                proof { reveal_strlit("N"); assert("N"@ =~= n_name()); }
                if text_is(x, "N") {
                    out.push(TokenTree::Literal(literal_i32_unsuffixed(n)));
                    proof {
                        lemma_trees_view(out@);
                        assert(trees_view(out@) =~= seq![Tree::Literal(decimal_text(n as int))]);
                        assert(trees_view(out@) + expand_v2_trees(from(v, i + k), n as int) == expand_v2_trees(w, n as int));
                    }
                } else if i + 1 < len && ts[i + 1].is_punct() {
                    assert(w[1] == v[i + 1]);
                    assert(v[i + 1] == tree_view(ts@[i + 1]));
                    if ts[i + 1].punct_char() == '~' {
                        if i + 2 < len && ts[i + 2].is_ident() {
                            assert(w[2] == v[i + 2]);
                            assert(v[i + 2] == tree_view(ts@[i + 2]));
                            if ts[i + 2].ident_text_is("N") {
                                out.push(TokenTree::Ident(append_decimal(x, n)));
                            } else {
                                let c0 = clone_tree(&ts[i]);
                                let c1 = clone_tree(&ts[i + 1]);
                                let c2 = clone_tree(&ts[i + 2]);
                                out.push(c0);
                                out.push(c1);
                                out.push(c2);
                                assert(out@ =~= seq![c0, c1, c2]);
                            }
                            k = 3;
                            proof {
                                lemma_trees_view(out@);
                                assert(trees_view(out@) =~= if ident_text(w[2]) == n_name() { seq![Tree::Ident(x@ + decimal_text(n as int))] } else { w.subrange(0, 3) });
                                assert(trees_view(out@) + expand_v2_trees(from(v, i + k), n as int) == expand_v2_trees(w, n as int));
                            }
                        } else if i + 2 < len {
                            assert(w[2] == v[i + 2]);
                            assert(v[i + 2] == tree_view(ts@[i + 2]));
                            let c0 = clone_tree(&ts[i]);
                            let c1 = clone_tree(&ts[i + 1]);
                            let c2 = clone_tree(&ts[i + 2]);
                            out.push(c0);
                            out.push(c1);
                            out.push(c2);
                            assert(out@ =~= seq![c0, c1, c2]);
                            k = 3;
                            proof {
                                lemma_trees_view(out@);
                                assert(trees_view(out@) =~= w.subrange(0, 3));
                                assert(trees_view(out@) + expand_v2_trees(from(v, i + k), n as int) == expand_v2_trees(w, n as int));
                            }
                        } else {
                            let c0 = clone_tree(&ts[i]);
                            let c1 = clone_tree(&ts[i + 1]);
                            out.push(c0);
                            out.push(c1);
                            assert(out@ =~= seq![c0, c1]);
                            k = 2;
                            proof {
                                lemma_trees_view(out@);
                                assert(trees_view(out@) =~= w.subrange(0, 2));
                                assert(trees_view(out@) + expand_v2_trees(from(v, i + k), n as int) == expand_v2_trees(w, n as int));
                            }
                        }
                    } else {
                        out.push(clone_tree(&ts[i]));
                        proof {
                            lemma_trees_view(out@);
                            assert(trees_view(out@) =~= seq![w[0]]);
                            assert(trees_view(out@) + expand_v2_trees(from(v, i + k), n as int) == expand_v2_trees(w, n as int));
                        }
                    }
                } else {
                    if i + 1 < len {
                        assert(w[1] == v[i + 1]);
                        assert(v[i + 1] == tree_view(ts@[i + 1]));
                    }
                    out.push(clone_tree(&ts[i]));
                    proof {
                        lemma_trees_view(out@);
                        assert(trees_view(out@) =~= seq![w[0]]);
                        assert(trees_view(out@) + expand_v2_trees(from(v, i + k), n as int) == expand_v2_trees(w, n as int));
                    }
                }
            },
            _ => {
                out.push(clone_tree(&ts[i]));
                proof {
                    lemma_trees_view(out@);
                    assert(trees_view(out@) =~= seq![w[0]]);
                    assert(trees_view(out@) + expand_v2_trees(from(v, i + k), n as int) == expand_v2_trees(w, n as int));
                }
            },
        }
        proof {
            assert(v2_pastes_ok(from(v, i + k), n as int));
            lemma_trees_view_add(res@, out@);
        }
        let ghost old_res = res@;
        res.append(&mut out);
        i = i + k;
        proof {
            assert(trees_view(old_res) + trees_view(out@) + expand_v2_trees(from(v, i as int), n as int)
                =~= trees_view(old_res) + (trees_view(out@) + expand_v2_trees(from(v, i as int), n as int)));
        }
    }
    proof {
        assert(from(v, len as int) =~= Seq::<Tree>::empty());
        assert(trees_view(res@) + Seq::<Tree>::empty() =~= trees_view(res@));
    }
    res
}


/// Expansion of a token stream for the value `n` of the range `start..end`, with repeated
/// sections `#(...)*`; see `expand_v3_trees`.
pub fn expand_n_v3(ts: &Vec<TokenTree>, start: i32, end: i32, n: i32) -> (res: Vec<TokenTree>)
    requires
        v3_pastes_ok(trees_view(ts@), start as int, end as int, n as int),
    ensures
        trees_view(res@) == expand_v3_trees(trees_view(ts@), start as int, end as int, n as int),
    decreases ts@, 0int,
{
    let ghost v = trees_view(ts@);
    let len = ts.len();
    let mut res: Vec<TokenTree> = Vec::new();
    let mut i: usize = 0;
    proof {
        assert(from(v, 0) =~= v);
        assert(trees_view(res@) =~= Seq::<Tree>::empty());
    }
    while i < len
        invariant
            len == ts@.len(),
            v == trees_view(ts@),
            v.len() == len,
            i <= len,
            expand_v3_trees(v, start as int, end as int, n as int) == trees_view(res@) + expand_v3_trees(from(v, i as int), start as int, end as int, n as int),
            v3_pastes_ok(from(v, i as int), start as int, end as int, n as int),
        decreases len - i,
    {
        let ghost w = from(v, i as int);
        proof {
            assert(w.len() == len - i);
            assert(w[0] == v[i as int]);
            assert(v[i as int] == tree_view(ts@[i as int]));
            lemma_from_from(v, i as int, 1);
            lemma_from_from(v, i as int, 2);
            lemma_from_from(v, i as int, 3);
        }
        let mut out: Vec<TokenTree> = Vec::new();
        let mut k: usize = 1;
        match &ts[i] {
            TokenTree::Group(d, inner) => {
                assert(decreases_to!(ts@ => ts@[i as int]));
                out.push(TokenTree::Group(*d, expand_n_v3(inner, start, end, n)));
                proof {
                    lemma_trees_view(out@);
                    assert(trees_view(out@) =~= seq![Tree::Group(*d, expand_v3_trees(trees_view(inner@), start as int, end as int, n as int))]);
                    assert(trees_view(out@) + expand_v3_trees(from(v, i + k), start as int, end as int, n as int) == expand_v3_trees(w, start as int, end as int, n as int));
                }
            },
            TokenTree::Ident(x) => {
                proof { reveal_strlit("N"); assert("N"@ =~= n_name()); }
                if text_is(x, "N") {
                    out.push(TokenTree::Literal(literal_i32_unsuffixed(n)));
                    proof {
                        lemma_trees_view(out@);
                        assert(trees_view(out@) =~= seq![Tree::Literal(decimal_text(n as int))]);
                        assert(trees_view(out@) + expand_v3_trees(from(v, i + k), start as int, end as int, n as int) == expand_v3_trees(w, start as int, end as int, n as int));
                    }
                } else if i + 1 < len && ts[i + 1].is_punct() {
                    assert(w[1] == v[i + 1]);
                    assert(v[i + 1] == tree_view(ts@[i + 1]));
                    if ts[i + 1].punct_char() == '~' {
                        if i + 2 < len && ts[i + 2].is_ident() {
                            assert(w[2] == v[i + 2]);
                            assert(v[i + 2] == tree_view(ts@[i + 2]));
                            if ts[i + 2].ident_text_is("N") {
                                out.push(TokenTree::Ident(append_decimal(x, n)));
                            } else {
                                let c0 = clone_tree(&ts[i]);
                                let c1 = clone_tree(&ts[i + 1]);
                                let c2 = clone_tree(&ts[i + 2]);
                                out.push(c0);
                                out.push(c1);
                                out.push(c2);
                                assert(out@ =~= seq![c0, c1, c2]);
                            }
                            k = 3;
                            proof {
                                lemma_trees_view(out@);
                                assert(trees_view(out@) =~= if ident_text(w[2]) == n_name() { seq![Tree::Ident(x@ + decimal_text(n as int))] } else { w.subrange(0, 3) });
                                assert(trees_view(out@) + expand_v3_trees(from(v, i + k), start as int, end as int, n as int) == expand_v3_trees(w, start as int, end as int, n as int));
                            }
                        } else if i + 2 < len {
                            assert(w[2] == v[i + 2]);
                            assert(v[i + 2] == tree_view(ts@[i + 2]));
                            let c0 = clone_tree(&ts[i]);
                            let c1 = clone_tree(&ts[i + 1]);
                            let c2 = clone_tree(&ts[i + 2]);
                            out.push(c0);
                            out.push(c1);
                            out.push(c2);
                            assert(out@ =~= seq![c0, c1, c2]);
                            k = 3;
                            proof {
                                lemma_trees_view(out@);
                                assert(trees_view(out@) =~= w.subrange(0, 3));
                                assert(trees_view(out@) + expand_v3_trees(from(v, i + k), start as int, end as int, n as int) == expand_v3_trees(w, start as int, end as int, n as int));
                            }
                        } else {
                            let c0 = clone_tree(&ts[i]);
                            let c1 = clone_tree(&ts[i + 1]);
                            out.push(c0);
                            out.push(c1);
                            assert(out@ =~= seq![c0, c1]);
                            k = 2;
                            proof {
                                lemma_trees_view(out@);
                                assert(trees_view(out@) =~= w.subrange(0, 2));
                                assert(trees_view(out@) + expand_v3_trees(from(v, i + k), start as int, end as int, n as int) == expand_v3_trees(w, start as int, end as int, n as int));
                            }
                        }
                    } else {
                        out.push(clone_tree(&ts[i]));
                        proof {
                            lemma_trees_view(out@);
                            assert(trees_view(out@) =~= seq![w[0]]);
                            assert(trees_view(out@) + expand_v3_trees(from(v, i + k), start as int, end as int, n as int) == expand_v3_trees(w, start as int, end as int, n as int));
                        }
                    }
                } else {
                    if i + 1 < len {
                        assert(w[1] == v[i + 1]);
                        assert(v[i + 1] == tree_view(ts@[i + 1]));
                    }
                    out.push(clone_tree(&ts[i]));
                    proof {
                        lemma_trees_view(out@);
                        assert(trees_view(out@) =~= seq![w[0]]);
                        assert(trees_view(out@) + expand_v3_trees(from(v, i + k), start as int, end as int, n as int) == expand_v3_trees(w, start as int, end as int, n as int));
                    }
                }
            },
            TokenTree::Punct(c, _) => {
                if i + 1 < len {
                    assert(w[1] == v[i + 1]);
                    assert(v[i + 1] == tree_view(ts@[i + 1]));
                }
                if i + 1 < len && i + 2 < len {
                    assert(w[2] == v[i + 2]);
                    assert(v[i + 2] == tree_view(ts@[i + 2]));
                }
                if *c == '#' && i + 1 < len && ts[i + 1].is_paren_group() {
                    if i + 2 < len && ts[i + 2].is_punct() && ts[i + 2].punct_char() == '*' {
                        match &ts[i + 1] {
                            TokenTree::Group(_, body) => {
                                assert(decreases_to!(ts@ => ts@[i + 1]));
                                out = expand_repeat(body, start, end);
                            },
                            _ => {},
                        }
                        k = 3;
                        proof {
                            assert(trees_view(out@) + expand_v3_trees(from(v, i + k), start as int, end as int, n as int) == expand_v3_trees(w, start as int, end as int, n as int));
                        }
                    } else if i + 2 < len {
                        let c1 = clone_tree(&ts[i + 1]);
                        let c2 = clone_tree(&ts[i + 2]);
                        out.push(c1);
                        out.push(c2);
                        assert(out@ =~= seq![c1, c2]);
                        k = 3;
                        proof {
                            lemma_trees_view(out@);
                            assert(trees_view(out@) =~= w.subrange(1, 3));
                            assert(trees_view(out@) + expand_v3_trees(from(v, i + k), start as int, end as int, n as int) == expand_v3_trees(w, start as int, end as int, n as int));
                        }
                    } else {
                        let c1 = clone_tree(&ts[i + 1]);
                        out.push(c1);
                        assert(out@ =~= seq![c1]);
                        k = 2;
                        proof {
                            lemma_trees_view(out@);
                            assert(trees_view(out@) =~= w.subrange(1, 2));
                            assert(from(v, i + k) =~= Seq::<Tree>::empty());
                            assert(trees_view(out@) + expand_v3_trees(from(v, i + k), start as int, end as int, n as int) == expand_v3_trees(w, start as int, end as int, n as int));
                        }
                    }
                } else {
                    out.push(clone_tree(&ts[i]));
                    proof {
                        lemma_trees_view(out@);
                        assert(trees_view(out@) =~= seq![w[0]]);
                        assert(trees_view(out@) + expand_v3_trees(from(v, i + k), start as int, end as int, n as int) == expand_v3_trees(w, start as int, end as int, n as int));
                    }
                }
            },
            _ => {
                out.push(clone_tree(&ts[i]));
                proof {
                    lemma_trees_view(out@);
                    assert(trees_view(out@) =~= seq![w[0]]);
                    assert(trees_view(out@) + expand_v3_trees(from(v, i + k), start as int, end as int, n as int) == expand_v3_trees(w, start as int, end as int, n as int));
                }
            },
        }
        proof {
            assert(v3_pastes_ok(from(v, i + k), start as int, end as int, n as int));
            lemma_trees_view_add(res@, out@);
        }
        let ghost old_res = res@;
        res.append(&mut out);
        i = i + k;
        proof {
            assert(trees_view(old_res) + trees_view(out@) + expand_v3_trees(from(v, i as int), start as int, end as int, n as int)
                =~= trees_view(old_res) + (trees_view(out@) + expand_v3_trees(from(v, i as int), start as int, end as int, n as int)));
        }
    }
    proof {
        assert(from(v, len as int) =~= Seq::<Tree>::empty());
        assert(trees_view(res@) + Seq::<Tree>::empty() =~= trees_view(res@));
    }
    res
}



/// The expansions of `body` for each value of `start..end`, one after the other.
fn expand_repeat(body: &Vec<TokenTree>, start: i32, end: i32) -> (out: Vec<TokenTree>)
    requires
        repeat_pastes_ok(trees_view(body@), start as int, end as int, start as int),
    ensures
        trees_view(out@) == expand_v3_repeat(trees_view(body@), start as int, end as int, start as int),
    decreases body@, 1int,
{
    let ghost bv = trees_view(body@);
    let mut out: Vec<TokenTree> = Vec::new();
    let mut j: i32 = start;
    proof {
        assert(trees_view(out@) =~= Seq::<Tree>::empty());
    }
    while j < end
        invariant
            bv == trees_view(body@),
            expand_v3_repeat(bv, start as int, end as int, start as int)
                == trees_view(out@) + expand_v3_repeat(bv, start as int, end as int, j as int),
            repeat_pastes_ok(bv, start as int, end as int, j as int),
        decreases end - j,
    {
        let mut part = expand_n_v3(body, start, end, j);
        let ghost old_out = out@;
        let ghost pv = trees_view(part@);
        proof {
            lemma_trees_view_add(out@, part@);
        }
        out.append(&mut part);
        j = j + 1;
        proof {
            assert(trees_view(old_out) + pv + expand_v3_repeat(bv, start as int, end as int, j as int)
                =~= trees_view(old_out) + (pv + expand_v3_repeat(bv, start as int, end as int, j as int)));
        }
    }
    proof {
        assert(expand_v3_repeat(bv, start as int, end as int, j as int) =~= Seq::<Tree>::empty());
        assert(trees_view(out@) + Seq::<Tree>::empty() =~= trees_view(out@));
    }
    out
}


/// Whether every paste `x ~ N` that `expand_n_v3` performs on `ts` yields an identifier.
pub fn check_v3_pastes(ts: &Vec<TokenTree>, start: i32, end: i32, n: i32) -> (b: bool)
    ensures
        b == v3_pastes_ok(trees_view(ts@), start as int, end as int, n as int),
    decreases ts@, 0int,
{
    let ghost v = trees_view(ts@);
    let len = ts.len();
    let mut i: usize = 0;
    proof {
        assert(from(v, 0) =~= v);
    }
    while i < len
        invariant
            len == ts@.len(),
            v == trees_view(ts@),
            v.len() == len,
            i <= len,
            v3_pastes_ok(v, start as int, end as int, n as int) == v3_pastes_ok(from(v, i as int), start as int, end as int, n as int),
        decreases len - i,
    {
        let ghost w = from(v, i as int);
        proof {
            assert(w.len() == len - i);
            assert(w[0] == v[i as int]);
            assert(v[i as int] == tree_view(ts@[i as int]));
            lemma_from_from(v, i as int, 1);
            lemma_from_from(v, i as int, 2);
            lemma_from_from(v, i as int, 3);
            if i + 1 < len {
                assert(w[1] == v[i + 1]);
                assert(v[i + 1] == tree_view(ts@[i + 1]));
            }
            if i + 2 < len {
                assert(w[2] == v[i + 2]);
                assert(v[i + 2] == tree_view(ts@[i + 2]));
            }
        }
        let mut k: usize = 1;
        match &ts[i] {
            TokenTree::Group(_, inner) => {
                assert(decreases_to!(ts@ => ts@[i as int]));
                if !check_v3_pastes(inner, start, end, n) {
                    return false;
                }
            },
            TokenTree::Ident(x) => {
                proof { reveal_strlit("N"); assert("N"@ =~= n_name()); }
                if text_is(x, "N") {
                } else if i + 1 < len && ts[i + 1].is_punct() && ts[i + 1].punct_char() == '~' {
                    if i + 2 < len && ts[i + 2].is_ident() {
                        if ts[i + 2].ident_text_is("N") && (n < 0 || text_is_raw(x)) {
                            return false;
                        }
                        k = 3;
                    } else if i + 2 < len {
                        k = 3;
                    } else {
                        k = 2;
                        assert(from(v, i + 2) =~= Seq::<Tree>::empty());
                    }
                }
            },
            TokenTree::Punct(c, _) => {
                if *c == '#' && i + 1 < len && ts[i + 1].is_paren_group() {
                    if i + 2 < len && ts[i + 2].is_punct() && ts[i + 2].punct_char() == '*' {
                        match &ts[i + 1] {
                            TokenTree::Group(_, body) => {
                                assert(decreases_to!(ts@ => ts@[i + 1]));
                                if !check_repeat_pastes(body, start, end) {
                                    return false;
                                }
                            },
                            _ => {},
                        }
                        k = 3;
                    } else if i + 2 < len {
                        k = 3;
                    } else {
                        k = 2;
                        assert(from(v, i + 2) =~= Seq::<Tree>::empty());
                    }
                }
            },
            _ => {},
        }
        i = i + k;
    }
    proof {
        assert(from(v, len as int) =~= Seq::<Tree>::empty());
    }
    true
}

/// Whether the pastes of `body` yield identifiers for each value of `start..end`.
pub fn check_repeat_pastes(body: &Vec<TokenTree>, start: i32, end: i32) -> (b: bool)
    ensures
        b == repeat_pastes_ok(trees_view(body@), start as int, end as int, start as int),
    decreases body@, 1int,
{
    let ghost bv = trees_view(body@);
    let mut j: i32 = start;
    while j < end
        invariant
            bv == trees_view(body@),
            repeat_pastes_ok(bv, start as int, end as int, start as int) == repeat_pastes_ok(bv, start as int, end as int, j as int),
        decreases end - j,
    {
        if !check_v3_pastes(body, start, end, j) {
            return false;
        }
        j = j + 1;
    }
    true
}

/// Whether `ts` holds a repeated section `#(...)*`, looked for as `has_partial_repeat` says.
pub fn detect_partial_repeat(ts: &Vec<TokenTree>) -> (b: bool)
    ensures
        b == has_partial_repeat(trees_view(ts@)),
    decreases ts@,
{
    let ghost v = trees_view(ts@);
    let len = ts.len();
    let mut i: usize = 0;
    proof {
        assert(from(v, 0) =~= v);
    }
    while i < len
        invariant
            len == ts@.len(),
            v == trees_view(ts@),
            v.len() == len,
            i <= len,
            has_partial_repeat(v) == has_partial_repeat(from(v, i as int)),
        decreases len - i,
    {
        let ghost w = from(v, i as int);
        proof {
            assert(w.len() == len - i);
            assert(w[0] == v[i as int]);
            assert(v[i as int] == tree_view(ts@[i as int]));
            lemma_from_from(v, i as int, 1);
            lemma_from_from(v, i as int, 2);
            lemma_from_from(v, i as int, 3);
        }
        let mut k: usize = 1;
        match &ts[i] {
            TokenTree::Group(_, inner) => {
                assert(decreases_to!(ts@ => ts@[i as int]));
                if detect_partial_repeat(inner) {
                    return true;
                }
            },
            TokenTree::Punct(c, _) => {
                if i + 1 < len {
                    assert(w[1] == v[i + 1]);
                    assert(v[i + 1] == tree_view(ts@[i + 1]));
                }
                if *c == '#' && i + 1 < len && ts[i + 1].is_paren_group() {
                    if i + 2 < len {
                        assert(w[2] == v[i + 2]);
                        assert(v[i + 2] == tree_view(ts@[i + 2]));
                        if ts[i + 2].is_punct() && ts[i + 2].punct_char() == '*' {
                            return true;
                        }
                        k = 3;
                    } else {
                        k = 2;
                        assert(from(v, i + 2) =~= Seq::<Tree>::empty());
                    }
                }
            },
            _ => {},
        }
        i = i + k;
    }
    proof {
        assert(from(v, len as int) =~= Seq::<Tree>::empty());
    }
    false
}

} // verus!
