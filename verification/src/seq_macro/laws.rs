use vstd::prelude::*;
use crate::token::{Tree, Delimiter, Spacing, decimal_text};
use crate::token::{punct_is, is_paren_group};
use crate::seq_macro::input::SeqErrorView;
use crate::seq_macro::expand::{
    expand_n_trees, expand_n_tree, expand_v2_trees, expand_v3_trees, expand_v3_repeat, has_partial_repeat, from,
};
use crate::seq_macro::expand_four_errors::expand_n_repeat;
use crate::seq_macro::expand_four_errors;
use crate::seq_macro::repeat_section;

verus! {

/// Whether no punctuation `c` occurs in a stream, at any depth.
pub open spec fn trees_avoid(s: Seq<Tree>, c: char) -> bool
    decreases s,
{
    if s.len() == 0 {
        true
    } else {
        tree_avoids(s[0], c) && trees_avoid(s.subrange(1, s.len() as int), c)
    }
}

/// Whether no punctuation `c` occurs in a tree, at any depth.
pub open spec fn tree_avoids(t: Tree, c: char) -> bool
    decreases t,
{
    match t {
        Tree::Group(_, inner) => trees_avoid(inner, c),
        Tree::Punct(p, _) => p != c,
        _ => true,
    }
}

/// Whether no `#` is followed by a parenthesized group in a stream, at any depth: the stream
/// holds no repeated section `#(...)`, whatever follows it.
pub open spec fn free_of_repeats(s: Seq<Tree>) -> bool
    decreases s,
{
    if s.len() == 0 {
        true
    } else {
        &&& tree_free_of_repeats(s[0])
        &&& !(punct_is(s[0], '#') && s.len() >= 2 && is_paren_group(s[1]))
        &&& free_of_repeats(s.subrange(1, s.len() as int))
    }
}

/// Whether no `#` is followed by a parenthesized group inside a tree.
pub open spec fn tree_free_of_repeats(t: Tree) -> bool
    decreases t,
{
    match t {
        Tree::Group(_, inner) => free_of_repeats(inner),
        _ => true,
    }
}

/// A stream free of repeated sections is free of them from any index on.
proof fn lemma_from_free(s: Seq<Tree>, k: int)
    requires
        free_of_repeats(s),
        0 <= k,
    ensures
        free_of_repeats(from(s, k)),
    decreases k,
{
    if k > 0 && k <= s.len() {
        lemma_from_free(s, k - 1);
        let t = from(s, k - 1);
        assert(t.len() > 0);
        assert(t.subrange(1, t.len() as int) =~= from(s, k));
    } else if k > s.len() {
        assert(from(s, k) =~= Seq::<Tree>::empty());
    } else {
        assert(from(s, 0) =~= s);
    }
}

/// A stream avoids `c` exactly when each of its trees does.
pub proof fn lemma_trees_avoid(s: Seq<Tree>, c: char)
    ensures
        trees_avoid(s, c) <==> forall|i: int| 0 <= i < s.len() ==> tree_avoids(#[trigger] s[i], c),
    decreases s.len(),
{
    if s.len() > 0 {
        let rest = s.subrange(1, s.len() as int);
        lemma_trees_avoid(rest, c);
        if trees_avoid(s, c) {
            assert forall|i: int| 0 <= i < s.len() implies tree_avoids(#[trigger] s[i], c) by {
                if i > 0 {
                    assert(s[i] == rest[i - 1]);
                }
            }
        }
        if forall|i: int| 0 <= i < s.len() ==> tree_avoids(#[trigger] s[i], c) {
            assert forall|i: int| 0 <= i < rest.len() implies tree_avoids(#[trigger] rest[i], c) by {
                assert(rest[i] == s[i + 1]);
            }
        }
    }
}

/// A stream that avoids `c` avoids it from any index on.
proof fn lemma_from_avoids(s: Seq<Tree>, c: char, k: int)
    requires
        trees_avoid(s, c),
        0 <= k,
    ensures
        trees_avoid(from(s, k), c),
{
    lemma_trees_avoid(s, c);
    lemma_trees_avoid(from(s, k), c);
    if k <= s.len() {
        assert forall|i: int| 0 <= i < from(s, k).len() implies tree_avoids(#[trigger] from(s, k)[i], c) by {
            assert(from(s, k)[i] == s[i + k]);
        }
    }
}

/// Expanding a stream that was already expanded changes nothing.
proof fn lemma_expand_n_trees_twice(s: Seq<Tree>, a: Seq<char>, b: Seq<char>)
    ensures
        expand_n_trees(expand_n_trees(s, a), b) == expand_n_trees(s, a),
    decreases s,
{
    if s.len() > 0 {
        let rest = s.subrange(1, s.len() as int);
        lemma_expand_n_tree_twice(s[0], a, b);
        lemma_expand_n_trees_twice(rest, a, b);
        let r = expand_n_trees(s, a);
        assert(r[0] == expand_n_tree(s[0], a));
        assert(r.subrange(1, r.len() as int) =~= expand_n_trees(rest, a));
        assert(expand_n_trees(r, b) =~= r);
    }
}

/// Expanding a tree that was already expanded changes nothing.
proof fn lemma_expand_n_tree_twice(t: Tree, a: Seq<char>, b: Seq<char>)
    ensures
        expand_n_tree(expand_n_tree(t, a), b) == expand_n_tree(t, a),
    decreases t,
{
    match t {
        Tree::Group(d, inner) => {
            lemma_expand_n_trees_twice(inner, a, b);
        },
        _ => {},
    }
}

/// Once every `N` is replaced by a literal, none is left: expanding the result again, for any
/// value, gives it back unchanged.
pub proof fn law_expand_n_idempotent(s: Seq<Tree>, n: i32, m: i32)
    ensures
        expand_n_trees(expand_n_trees(s, decimal_text(n as int)), decimal_text(m as int))
            == expand_n_trees(s, decimal_text(n as int)),
{
    lemma_expand_n_trees_twice(s, decimal_text(n as int), decimal_text(m as int));
}

/// Without `~` anywhere in the stream, the `~N` rewriting only replaces `N` by the value: it is
/// the plain expansion.
pub proof fn law_v2_without_tilde_is_plain(s: Seq<Tree>, n: int)
    requires
        trees_avoid(s, '~'),
    ensures
        expand_v2_trees(s, n) == expand_n_trees(s, decimal_text(n)),
    decreases s,
{
    if s.len() > 0 {
        let rest = s.subrange(1, s.len() as int);
        let lit = decimal_text(n);
        lemma_trees_avoid(s, '~');
        assert(tree_avoids(s[0], '~'));
        lemma_from_avoids(s, '~', 1);
        assert(from(s, 1) == rest);
        law_v2_without_tilde_is_plain(rest, n);
        assert(expand_n_trees(s, lit) == seq![expand_n_tree(s[0], lit)] + expand_n_trees(rest, lit));
        match s[0] {
            Tree::Group(d, inner) => {
                assert(trees_avoid(inner, '~'));
                law_v2_without_tilde_is_plain(inner, n);
            },
            Tree::Ident(x) => {
                if s.len() >= 2 {
                    assert(tree_avoids(s[1], '~'));
                }
            },
            _ => {},
        }
    }
}

/// Where no `#` is followed by a parenthesized group, the expansion with repeated sections is
/// the `~N` rewriting, for any range.
pub proof fn law_v3_without_repeat_is_v2(s: Seq<Tree>, start: int, end: int, n: int)
    requires
        free_of_repeats(s),
    ensures
        expand_v3_trees(s, start, end, n) == expand_v2_trees(s, n),
    decreases s,
{
    if s.len() > 0 {
        assert(tree_free_of_repeats(s[0]));
        lemma_from_free(s, 1);
        assert(from(s, 1) =~= s.subrange(1, s.len() as int));
        law_v3_without_repeat_is_v2(from(s, 1), start, end, n);
        if s.len() >= 3 {
            lemma_from_free(s, 3);
            law_v3_without_repeat_is_v2(from(s, 3), start, end, n);
        }
        match s[0] {
            Tree::Group(d, inner) => {
                assert(free_of_repeats(inner));
                law_v3_without_repeat_is_v2(inner, start, end, n);
            },
            _ => {},
        }
    }
}

/// Where no `#` is followed by a parenthesized group and no `~` occurs, the expansion with
/// repeated sections only replaces `N` by the value: it is the plain expansion.
pub proof fn law_v3_plain_is_expand_n(s: Seq<Tree>, start: int, end: int, n: int)
    requires
        free_of_repeats(s),
        trees_avoid(s, '~'),
    ensures
        expand_v3_trees(s, start, end, n) == expand_n_trees(s, decimal_text(n)),
{
    law_v3_without_repeat_is_v2(s, start, end, n);
    law_v2_without_tilde_is_plain(s, n);
}

/// A stream free of repeated sections holds none for `detect_partial_repeat`.
proof fn lemma_free_no_repeat(s: Seq<Tree>)
    requires
        free_of_repeats(s),
    ensures
        !has_partial_repeat(s),
    decreases s,
{
    if s.len() > 0 {
        assert(tree_free_of_repeats(s[0]));
        lemma_from_free(s, 1);
        assert(from(s, 1) =~= s.subrange(1, s.len() as int));
        lemma_free_no_repeat(from(s, 1));
        if s.len() >= 3 {
            lemma_from_free(s, 3);
            lemma_free_no_repeat(from(s, 3));
        }
        match s[0] {
            Tree::Group(d, inner) => {
                assert(free_of_repeats(inner));
                lemma_free_no_repeat(inner);
            },
            _ => {},
        }
    }
}

/// Repeating a body without repeated section or `~` for the values `i..end` is repeating its
/// plain expansion.
proof fn lemma_repeat_plain(body: Seq<Tree>, start: int, end: int, i: int)
    requires
        free_of_repeats(body),
        trees_avoid(body, '~'),
    ensures
        expand_v3_repeat(body, start, end, i) == expand_n_repeat(body, i, end),
    decreases end - i,
{
    if i < end {
        law_v3_plain_is_expand_n(body, start, end, i);
        lemma_repeat_plain(body, start, end, i + 1);
    }
}

/// On a body without repeated section (no `#` followed by a parenthesized group) and without
/// `~`, `seq!` with repeated sections does what the plain `seq!` does: the same error on an
/// empty range, else the same copies of the body.
pub proof fn law_repeat_section_extends_plain_seq(start: i32, end: i32, body: Seq<Tree>)
    requires
        free_of_repeats(body),
        trees_avoid(body, '~'),
    ensures
        repeat_section::seq_from_bounds(start, end, body) == expand_four_errors::seq_from_bounds(start, end, body),
{
    if start < end {
        lemma_free_no_repeat(body);
        lemma_repeat_plain(body, start as int, end as int, start as int);
    }
}

/// A stream without `#` holds no repeated section.
proof fn lemma_no_hash_free(s: Seq<Tree>)
    requires
        trees_avoid(s, '#'),
    ensures
        free_of_repeats(s),
    decreases s,
{
    if s.len() > 0 {
        let rest = s.subrange(1, s.len() as int);
        assert(tree_avoids(s[0], '#'));
        lemma_no_hash_free(rest);
        match s[0] {
            Tree::Group(_, inner) => {
                assert(trees_avoid(inner, '#'));
                lemma_no_hash_free(inner);
                assert(tree_free_of_repeats(s[0]));
            },
            Tree::Punct(c, _) => {
                assert(c != '#');
            },
            _ => {},
        }
        assert(!punct_is(s[0], '#'));
        assert(tree_free_of_repeats(s[0]));
    }
}

/// The expansion with repeated sections, on a stream that starts with trees without `#` or
/// `~`: those trees get the plain expansion, and the rest is expanded on its own.
proof fn lemma_v3_plain_prefix(p: Seq<Tree>, r: Seq<Tree>, start: int, end: int, n: int)
    requires
        trees_avoid(p, '#'),
        trees_avoid(p, '~'),
        r.len() == 0 || !punct_is(r[0], '~'),
    ensures
        expand_v3_trees(p + r, start, end, n) == expand_n_trees(p, decimal_text(n)) + expand_v3_trees(r, start, end, n),
    decreases p.len(),
{
    let lit = decimal_text(n);
    if p.len() == 0 {
        assert(p + r =~= r);
        assert(expand_n_trees(p, lit) + expand_v3_trees(r, start, end, n) =~= expand_v3_trees(r, start, end, n));
    } else {
        let s = p + r;
        let p1 = p.subrange(1, p.len() as int);
        assert(from(s, 1) =~= p1 + r);
        assert(s[0] == p[0]);
        lemma_trees_avoid(p, '#');
        lemma_trees_avoid(p, '~');
        lemma_from_avoids(p, '#', 1);
        lemma_from_avoids(p, '~', 1);
        assert(from(p, 1) == p1);
        lemma_v3_plain_prefix(p1, r, start, end, n);
        assert(expand_n_trees(p, lit) == seq![expand_n_tree(p[0], lit)] + expand_n_trees(p1, lit));
        if s.len() >= 2 {
            if p.len() >= 2 {
                assert(s[1] == p[1]);
                assert(tree_avoids(p[1], '~'));
            } else {
                assert(s[1] == r[0]);
            }
        }
        match p[0] {
            Tree::Group(d, inner) => {
                assert(tree_avoids(p[0], '#') && tree_avoids(p[0], '~'));
                lemma_no_hash_free(inner);
                law_v3_plain_is_expand_n(inner, start, end, n);
            },
            Tree::Punct(c, _) => {
                assert(tree_avoids(p[0], '#'));
            },
            _ => {},
        }
        assert(seq![expand_n_tree(p[0], lit)] + expand_n_trees(p1, lit) + expand_v3_trees(r, start, end, n)
            =~= seq![expand_n_tree(p[0], lit)] + (expand_n_trees(p1, lit) + expand_v3_trees(r, start, end, n)));
    }
}

/// A stream that starts with trees without `#` holds the repeated sections of what follows.
proof fn lemma_repeat_found(p: Seq<Tree>, r: Seq<Tree>)
    requires
        trees_avoid(p, '#'),
        has_partial_repeat(r),
    ensures
        has_partial_repeat(p + r),
    decreases p.len(),
{
    if p.len() == 0 {
        assert(p + r =~= r);
    } else {
        let s = p + r;
        let p1 = p.subrange(1, p.len() as int);
        assert(from(s, 1) =~= p1 + r);
        assert(s[0] == p[0]);
        assert(tree_avoids(p[0], '#'));
        lemma_repeat_found(p1, r);
    }
}

/// The stream `prefix #( section )* suffix`.
pub open spec fn with_section(prefix: Seq<Tree>, section: Seq<Tree>, suffix: Seq<Tree>, hash: Spacing, star: Spacing) -> Seq<Tree> {
    prefix + seq![Tree::Punct('#', hash), Tree::Group(Delimiter::Parenthesis, section), Tree::Punct('*', star)] + suffix
}

/// Whether a stream holds neither `#` nor `~`, at any depth.
pub open spec fn plain_trees(s: Seq<Tree>) -> bool {
    trees_avoid(s, '#') && trees_avoid(s, '~')
}

/// `prefix #( section )* suffix` with plain parts holds a repeated section, and its expansion
/// for the value 0 is the plain prefix and suffix around the section repeated over the range.
proof fn lemma_section_expansion(
    start: int,
    end: int,
    prefix: Seq<Tree>,
    section: Seq<Tree>,
    suffix: Seq<Tree>,
    hash: Spacing,
    star: Spacing,
)
    requires
        plain_trees(prefix),
        plain_trees(section),
        plain_trees(suffix),
    ensures
        has_partial_repeat(with_section(prefix, section, suffix, hash, star)),
        expand_v3_trees(with_section(prefix, section, suffix, hash, star), start, end, 0)
            == expand_n_trees(prefix, decimal_text(0)) + expand_n_repeat(section, start, end)
                + expand_n_trees(suffix, decimal_text(0)),
{
    let marks = seq![Tree::Punct('#', hash), Tree::Group(Delimiter::Parenthesis, section), Tree::Punct('*', star)];
    let r = marks + suffix;
    assert(with_section(prefix, section, suffix, hash, star) =~= prefix + r);
    assert(r[0] == Tree::Punct('#', hash));
    assert(r[1] == Tree::Group(Delimiter::Parenthesis, section));
    assert(r[2] == Tree::Punct('*', star));
    assert(from(r, 3) =~= suffix);
    assert(has_partial_repeat(r));
    lemma_repeat_found(prefix, r);
    lemma_v3_plain_prefix(prefix, r, start, end, 0);
    assert(expand_v3_trees(r, start, end, 0)
        == expand_v3_repeat(section, start, end, start) + expand_v3_trees(suffix, start, end, 0));
    lemma_no_hash_free(section);
    lemma_no_hash_free(suffix);
    lemma_repeat_plain(section, start, end, start);
    law_v3_plain_is_expand_n(suffix, start, end, 0);
    assert(expand_n_trees(prefix, decimal_text(0)) + (expand_n_repeat(section, start, end)
        + expand_n_trees(suffix, decimal_text(0))) =~= expand_n_trees(prefix, decimal_text(0))
        + expand_n_repeat(section, start, end) + expand_n_trees(suffix, decimal_text(0)));
}

/// What `seq!` with repeated sections does with a body `prefix #( section )* suffix` whose
/// parts hold neither `#` nor `~`: the trees around the section are expanded once, with `N` as
/// 0, and the section is repeated once for each value of the range `start..end`, in order,
/// with `N` as that value, exactly as the plain `seq!` repeats a whole body.
pub proof fn law_repeated_section_takes_the_range(
    start: i32,
    end: i32,
    prefix: Seq<Tree>,
    section: Seq<Tree>,
    suffix: Seq<Tree>,
    hash: Spacing,
    star: Spacing,
)
    requires
        start < end,
        plain_trees(prefix),
        plain_trees(section),
        plain_trees(suffix),
    ensures
        repeat_section::seq_from_bounds(start, end, with_section(prefix, section, suffix, hash, star))
            == Ok::<Seq<Tree>, SeqErrorView<i32>>(expand_n_trees(prefix, decimal_text(0))
                + expand_n_repeat(section, start as int, end as int) + expand_n_trees(suffix, decimal_text(0))),
{
    lemma_section_expansion(start as int, end as int, prefix, section, suffix, hash, star);
}

/// As `law_repeated_section_takes_the_range`, with the section inside a group (such as the
/// braces of an `enum`): the group keeps its delimiter, and inside it the section is repeated
/// once for each value of `start..end`.
pub proof fn law_repeated_section_in_a_group_takes_the_range(
    start: i32,
    end: i32,
    outer_prefix: Seq<Tree>,
    delimiter: Delimiter,
    prefix: Seq<Tree>,
    section: Seq<Tree>,
    suffix: Seq<Tree>,
    outer_suffix: Seq<Tree>,
    hash: Spacing,
    star: Spacing,
)
    requires
        start < end,
        plain_trees(outer_prefix),
        plain_trees(prefix),
        plain_trees(section),
        plain_trees(suffix),
        plain_trees(outer_suffix),
    ensures
        repeat_section::seq_from_bounds(start, end,
            outer_prefix + seq![Tree::Group(delimiter, with_section(prefix, section, suffix, hash, star))] + outer_suffix)
            == Ok::<Seq<Tree>, SeqErrorView<i32>>(expand_n_trees(outer_prefix, decimal_text(0))
                + seq![Tree::Group(delimiter, expand_n_trees(prefix, decimal_text(0))
                    + expand_n_repeat(section, start as int, end as int) + expand_n_trees(suffix, decimal_text(0)))]
                + expand_n_trees(outer_suffix, decimal_text(0))),
{
    let inner = with_section(prefix, section, suffix, hash, star);
    lemma_section_expansion(start as int, end as int, prefix, section, suffix, hash, star);
    let g = Tree::Group(delimiter, inner);
    let r = seq![g] + outer_suffix;
    let body = outer_prefix + seq![g] + outer_suffix;
    assert(body =~= outer_prefix + r);
    assert(r[0] == g);
    assert(from(r, 1) =~= outer_suffix);
    assert(has_partial_repeat(r));
    lemma_repeat_found(outer_prefix, r);
    lemma_v3_plain_prefix(outer_prefix, r, start as int, end as int, 0);
    lemma_no_hash_free(outer_suffix);
    law_v3_plain_is_expand_n(outer_suffix, start as int, end as int, 0);
    let e = expand_n_trees(prefix, decimal_text(0)) + expand_n_repeat(section, start as int, end as int)
        + expand_n_trees(suffix, decimal_text(0));
    assert(expand_v3_trees(r, start as int, end as int, 0)
        == seq![Tree::Group(delimiter, e)] + expand_n_trees(outer_suffix, decimal_text(0)));
    assert(expand_n_trees(outer_prefix, decimal_text(0)) + (seq![Tree::Group(delimiter, e)]
        + expand_n_trees(outer_suffix, decimal_text(0))) =~= expand_n_trees(outer_prefix, decimal_text(0))
        + seq![Tree::Group(delimiter, e)] + expand_n_trees(outer_suffix, decimal_text(0)));
}

/// The copies of a section for the values `i..end`, one after the other: the copy for a value
/// `v` has `N` replaced by `v` and each `x ~ N` pasted into the identifier `x` followed by `v`.
pub open spec fn pasted_copies(section: Seq<Tree>, i: int, end: int) -> Seq<Tree>
    decreases end - i,
{
    if i < end {
        expand_v2_trees(section, i) + pasted_copies(section, i + 1, end)
    } else {
        Seq::empty()
    }
}

/// Repeating a section without `#` for the values `i..end` gives its `~N` rewriting for each
/// of those values in turn.
proof fn lemma_repeat_pasted(section: Seq<Tree>, start: int, end: int, i: int)
    requires
        trees_avoid(section, '#'),
    ensures
        expand_v3_repeat(section, start, end, i) == pasted_copies(section, i, end),
    decreases end - i,
{
    if i < end {
        lemma_no_hash_free(section);
        law_v3_without_repeat_is_v2(section, start, end, i);
        lemma_repeat_pasted(section, start, end, i + 1);
    }
}

/// `prefix #( section )* suffix`, with plain parts around a section without `#`: its expansion
/// for the value 0 is the plain prefix and suffix around the pasted copies of the section.
proof fn lemma_section_pasted(
    start: int,
    end: int,
    prefix: Seq<Tree>,
    section: Seq<Tree>,
    suffix: Seq<Tree>,
    hash: Spacing,
    star: Spacing,
)
    requires
        plain_trees(prefix),
        trees_avoid(section, '#'),
        plain_trees(suffix),
    ensures
        has_partial_repeat(with_section(prefix, section, suffix, hash, star)),
        expand_v3_trees(with_section(prefix, section, suffix, hash, star), start, end, 0)
            == expand_n_trees(prefix, decimal_text(0)) + pasted_copies(section, start, end)
                + expand_n_trees(suffix, decimal_text(0)),
{
    let marks = seq![Tree::Punct('#', hash), Tree::Group(Delimiter::Parenthesis, section), Tree::Punct('*', star)];
    let r = marks + suffix;
    assert(with_section(prefix, section, suffix, hash, star) =~= prefix + r);
    assert(r[0] == Tree::Punct('#', hash));
    assert(r[1] == Tree::Group(Delimiter::Parenthesis, section));
    assert(r[2] == Tree::Punct('*', star));
    assert(from(r, 3) =~= suffix);
    assert(has_partial_repeat(r));
    lemma_repeat_found(prefix, r);
    lemma_v3_plain_prefix(prefix, r, start, end, 0);
    assert(expand_v3_trees(r, start, end, 0)
        == expand_v3_repeat(section, start, end, start) + expand_v3_trees(suffix, start, end, 0));
    lemma_no_hash_free(suffix);
    lemma_repeat_pasted(section, start, end, start);
    law_v3_plain_is_expand_n(suffix, start, end, 0);
    assert(expand_n_trees(prefix, decimal_text(0)) + (pasted_copies(section, start, end)
        + expand_n_trees(suffix, decimal_text(0))) =~= expand_n_trees(prefix, decimal_text(0))
        + pasted_copies(section, start, end) + expand_n_trees(suffix, decimal_text(0)));
}

/// What `seq!` with repeated sections does with a body `prefix #( section )* suffix` whose
/// section holds no `#` (it may paste `x ~ N`) and whose other parts hold neither `#` nor `~`:
/// the section is copied once for each value of `start..end`, in order, the copy for a value
/// having `N` replaced by that value and `x ~ N` pasted with it; the rest is expanded once,
/// with `N` as 0.
pub proof fn law_repeated_section_pastes_each_value(
    start: i32,
    end: i32,
    prefix: Seq<Tree>,
    section: Seq<Tree>,
    suffix: Seq<Tree>,
    hash: Spacing,
    star: Spacing,
)
    requires
        start < end,
        plain_trees(prefix),
        trees_avoid(section, '#'),
        plain_trees(suffix),
    ensures
        repeat_section::seq_from_bounds(start, end, with_section(prefix, section, suffix, hash, star))
            == Ok::<Seq<Tree>, SeqErrorView<i32>>(expand_n_trees(prefix, decimal_text(0))
                + pasted_copies(section, start as int, end as int) + expand_n_trees(suffix, decimal_text(0))),
{
    lemma_section_pasted(start as int, end as int, prefix, section, suffix, hash, star);
}

/// As `law_repeated_section_pastes_each_value`, with the section inside a group (such as the
/// braces of an `enum` whose variants are pasted): the group keeps its delimiter, and inside it
/// the section is copied once for each value of `start..end`, with that value pasted.
pub proof fn law_repeated_section_in_a_group_pastes_each_value(
    start: i32,
    end: i32,
    outer_prefix: Seq<Tree>,
    delimiter: Delimiter,
    prefix: Seq<Tree>,
    section: Seq<Tree>,
    suffix: Seq<Tree>,
    outer_suffix: Seq<Tree>,
    hash: Spacing,
    star: Spacing,
)
    requires
        start < end,
        plain_trees(outer_prefix),
        plain_trees(prefix),
        trees_avoid(section, '#'),
        plain_trees(suffix),
        plain_trees(outer_suffix),
    ensures
        repeat_section::seq_from_bounds(start, end,
            outer_prefix + seq![Tree::Group(delimiter, with_section(prefix, section, suffix, hash, star))] + outer_suffix)
            == Ok::<Seq<Tree>, SeqErrorView<i32>>(expand_n_trees(outer_prefix, decimal_text(0))
                + seq![Tree::Group(delimiter, expand_n_trees(prefix, decimal_text(0))
                    + pasted_copies(section, start as int, end as int) + expand_n_trees(suffix, decimal_text(0)))]
                + expand_n_trees(outer_suffix, decimal_text(0))),
{
    let inner = with_section(prefix, section, suffix, hash, star);
    lemma_section_pasted(start as int, end as int, prefix, section, suffix, hash, star);
    let g = Tree::Group(delimiter, inner);
    let r = seq![g] + outer_suffix;
    let body = outer_prefix + seq![g] + outer_suffix;
    assert(body =~= outer_prefix + r);
    assert(r[0] == g);
    assert(from(r, 1) =~= outer_suffix);
    assert(has_partial_repeat(r));
    lemma_repeat_found(outer_prefix, r);
    lemma_v3_plain_prefix(outer_prefix, r, start as int, end as int, 0);
    lemma_no_hash_free(outer_suffix);
    law_v3_plain_is_expand_n(outer_suffix, start as int, end as int, 0);
    let e = expand_n_trees(prefix, decimal_text(0)) + pasted_copies(section, start as int, end as int)
        + expand_n_trees(suffix, decimal_text(0));
    assert(expand_v3_trees(r, start as int, end as int, 0)
        == seq![Tree::Group(delimiter, e)] + expand_n_trees(outer_suffix, decimal_text(0)));
    assert(expand_n_trees(outer_prefix, decimal_text(0)) + (seq![Tree::Group(delimiter, e)]
        + expand_n_trees(outer_suffix, decimal_text(0))) =~= expand_n_trees(outer_prefix, decimal_text(0))
        + seq![Tree::Group(delimiter, e)] + expand_n_trees(outer_suffix, decimal_text(0)));
}


} // verus!
