use vstd::prelude::*;

verus! {

/// Delimiter of a token group.
#[derive(Clone, Copy, Debug, PartialEq, Eq, Structural)]
pub enum Delimiter {
    Parenthesis,
    Brace,
    Bracket,
    Invisible,
}

/// Whether a punctuation character is joined to the punctuation that follows it.
#[derive(Clone, Copy, Debug, PartialEq, Eq, Structural)]
pub enum Spacing {
    Alone,
    Joint,
}

/// A token tree, holding as plain values what the macros read of a token.
#[derive(Debug)]
pub enum TokenTree {
    Group(Delimiter, Vec<TokenTree>),
    Ident(String),
    Punct(char, Spacing),
    Literal(String),
}

/// Mathematical model of a token tree.
pub enum Tree {
    Group(Delimiter, Seq<Tree>),
    Ident(Seq<char>),
    Punct(char, Spacing),
    Literal(Seq<char>),
}

/// The model of a sequence of token trees.
pub open spec fn trees_view(s: Seq<TokenTree>) -> Seq<Tree>
    decreases s,
{
    if s.len() == 0 {
        Seq::empty()
    } else {
        seq![tree_view(s[0])] + trees_view(s.subrange(1, s.len() as int))
    }
}

/// The model of one token tree.
pub open spec fn tree_view(t: TokenTree) -> Tree
    decreases t,
{
    match t {
        TokenTree::Group(d, ts) => Tree::Group(d, trees_view(ts@)),
        TokenTree::Ident(s) => Tree::Ident(s@),
        TokenTree::Punct(c, sp) => Tree::Punct(c, sp),
        TokenTree::Literal(s) => Tree::Literal(s@),
    }
}


/// The model of a sequence is the models of its elements, one for one.
pub broadcast proof fn lemma_trees_view(s: Seq<TokenTree>)
    ensures
        (#[trigger] trees_view(s)).len() == s.len(),
        forall|i: int| 0 <= i < s.len() ==> trees_view(s)[i] == tree_view(#[trigger] s[i]),
    decreases s.len(),
{
    if s.len() > 0 {
        let rest = s.subrange(1, s.len() as int);
        lemma_trees_view(rest);
        assert forall|i: int| 0 <= i < s.len() implies trees_view(s)[i] == tree_view(#[trigger] s[i]) by {
            if i > 0 {
                assert(s[i] == rest[i - 1]);
            }
        }
    }
}

/// The model of a concatenation is the concatenation of the models.
pub proof fn lemma_trees_view_add(a: Seq<TokenTree>, b: Seq<TokenTree>)
    ensures
        trees_view(a + b) == trees_view(a) + trees_view(b),
{
    lemma_trees_view(a);
    lemma_trees_view(b);
    lemma_trees_view(a + b);
    assert forall|i: int| 0 <= i < (a + b).len() implies trees_view(a + b)[i] == (trees_view(a) + trees_view(b))[i] by {
        if i < a.len() {
            assert((a + b)[i] == a[i]);
        } else {
            assert((a + b)[i] == b[i - a.len()]);
        }
    }
    assert(trees_view(a + b) =~= trees_view(a) + trees_view(b));
}

/// The model of a token stream held in a vector.
pub open spec fn stream_view(v: Vec<TokenTree>) -> Seq<Tree> {
    trees_view(v@)
}

impl TokenTree {
    /// Whether this tree is a punctuation character.
    pub fn is_punct(&self) -> (b: bool)
        ensures
            b == is_punct(tree_view(*self)),
    {
        match self {
            TokenTree::Punct(_, _) => true,
            _ => false,
        }
    }

    /// Whether this tree is an identifier.
    pub fn is_ident(&self) -> (b: bool)
        ensures
            b == is_ident(tree_view(*self)),
    {
        match self {
            TokenTree::Ident(_) => true,
            _ => false,
        }
    }

    /// The character of a punctuation tree (a space for any other tree).
    pub fn punct_char(&self) -> (c: char)
        ensures
            is_punct(tree_view(*self)) ==> punct_is(tree_view(*self), c),
    {
        match self {
            TokenTree::Punct(c, _) => *c,
            _ => ' ',
        }
    }

    /// Whether this tree is the identifier `name`.
    pub fn ident_text_is(&self, name: &str) -> (b: bool)
        ensures
            b == (is_ident(tree_view(*self)) && ident_text(tree_view(*self)) == name@),
    {
        match self {
            TokenTree::Ident(x) => text_is(x, name),
            _ => false,
        }
    }

    /// Whether this tree is a literal.
    pub fn is_literal(&self) -> (b: bool)
        ensures
            b == is_literal(tree_view(*self)),
    {
        match self {
            TokenTree::Literal(_) => true,
            _ => false,
        }
    }

    /// Whether this tree is the punctuation `c` joined to the next punctuation.
    pub fn is_joint_punct(&self, c: char) -> (b: bool)
        ensures
            b == joint_punct_is(tree_view(*self), c),
    {
        match self {
            TokenTree::Punct(p, sp) => *p == c && match sp {
                Spacing::Joint => true,
                Spacing::Alone => false,
            },
            _ => false,
        }
    }

    /// Whether this tree is a group delimited by braces.
    pub fn is_brace_group(&self) -> (b: bool)
        ensures
            b == is_group_with(tree_view(*self), Delimiter::Brace),
    {
        match self {
            TokenTree::Group(d, _) => match d {
                Delimiter::Brace => true,
                _ => false,
            },
            _ => false,
        }
    }

    /// Whether this tree is a group delimited by parentheses.
    pub fn is_paren_group(&self) -> (b: bool)
        ensures
            b == is_paren_group(tree_view(*self)),
    {
        match self {
            TokenTree::Group(d, _) => match d {
                Delimiter::Parenthesis => true,
                _ => false,
            },
            _ => false,
        }
    }
}

/// An identifier token with the text `s`.
pub fn ident(s: &str) -> (t: TokenTree)
    ensures
        tree_view(t) == Tree::Ident(s@),
{
    TokenTree::Ident(String::from_str(s))
}

/// An identifier token with the text of `s`.
pub fn ident_from(s: &String) -> (t: TokenTree)
    ensures
        tree_view(t) == Tree::Ident(s@),
{
    TokenTree::Ident(s.clone())
}

/// A punctuation token `c` that stands alone.
pub fn punct(c: char) -> (t: TokenTree)
    ensures
        tree_view(t) == Tree::Punct(c, Spacing::Alone),
{
    TokenTree::Punct(c, Spacing::Alone)
}

/// A punctuation token `c` joined to the punctuation after it.
pub fn joint(c: char) -> (t: TokenTree)
    ensures
        tree_view(t) == Tree::Punct(c, Spacing::Joint),
{
    TokenTree::Punct(c, Spacing::Joint)
}

/// Appends one tree to a token stream.
pub fn push_tree(out: &mut Vec<TokenTree>, t: TokenTree)
    ensures
        trees_view(final(out)@) == trees_view(old(out)@).push(tree_view(t)),
{
    let ghost old_v = out@;
    out.push(t);
    proof {
        lemma_trees_view(old_v);
        lemma_trees_view(out@);
        assert(out@ == old_v.push(t));
        assert forall|i: int| 0 <= i < out@.len() implies trees_view(out@)[i] == trees_view(old_v).push(tree_view(t))[i] by {
            if i < old_v.len() {
                assert(out@[i] == old_v[i]);
            } else {
                assert(out@[i] == t);
            }
        }
        assert(trees_view(out@) =~= trees_view(old_v).push(tree_view(t)));
    }
}

/// Appends a whole token stream to another.
pub fn push_stream(out: &mut Vec<TokenTree>, mut more: Vec<TokenTree>)
    ensures
        trees_view(final(out)@) == trees_view(old(out)@) + trees_view(more@),
{
    proof {
        lemma_trees_view_add(out@, more@);
    }
    out.append(&mut more);
}

/// Appends a copy of a token stream to another.
pub fn push_copy(out: &mut Vec<TokenTree>, more: &Vec<TokenTree>)
    ensures
        trees_view(final(out)@) == trees_view(old(out)@) + trees_view(more@),
{
    let c = clone_stream(more);
    push_stream(out, c);
}

impl Clone for TokenTree {
    /// Deep copy, as `clone_tree` states.
    fn clone(&self) -> (res: TokenTree)
        ensures
            tree_view(res) == tree_view(*self),
    {
        clone_tree(self)
    }
}

/// Deep copy of a token stream.
pub fn clone_stream(ts: &Vec<TokenTree>) -> (res: Vec<TokenTree>)
    ensures
        trees_view(res@) == trees_view(ts@),
    decreases ts@,
{
    broadcast use lemma_trees_view;
    let mut res: Vec<TokenTree> = Vec::new();
    let mut i: usize = 0;
    while i < ts.len()
        invariant
            i <= ts.len(),
            res@.len() == i,
            forall|j: int| 0 <= j < i ==> tree_view(#[trigger] res@[j]) == tree_view(ts@[j]),
        decreases ts.len() - i,
    {
        let t = clone_tree(&ts[i]);
        res.push(t);
        i = i + 1;
    }
    proof {
        lemma_trees_view(res@);
        lemma_trees_view(ts@);
        assert forall|j: int| 0 <= j < res@.len() implies trees_view(res@)[j] == trees_view(ts@)[j] by {
            assert(tree_view(res@[j]) == tree_view(ts@[j]));
        }
        assert(trees_view(res@) =~= trees_view(ts@));
    }
    res
}

/// Deep copy of a token tree.
pub fn clone_tree(t: &TokenTree) -> (res: TokenTree)
    ensures
        tree_view(res) == tree_view(*t),
    decreases *t,
{
    match t {
        TokenTree::Group(d, inner) => TokenTree::Group(*d, clone_stream(inner)),
        TokenTree::Ident(s) => TokenTree::Ident(s.clone()),
        TokenTree::Punct(c, sp) => TokenTree::Punct(*c, *sp),
        TokenTree::Literal(s) => TokenTree::Literal(s.clone()),
    }
}


/// A stream as syn's cursor reads identifiers, literals and punctuation in it: each group
/// without delimiters (as a `macro_rules!` fragment arrives) is opened, in place, at any
/// nesting of such groups; other groups stay whole.
pub open spec fn visible(s: Seq<Tree>) -> Seq<Tree>
    decreases s,
{
    if s.len() == 0 {
        Seq::empty()
    } else {
        visible(s.drop_last()) + match s.last() {
            Tree::Group(Delimiter::Invisible, inner) => visible(inner),
            t => seq![t],
        }
    }
}

/// The stream with its groups without delimiters opened, as `visible` states.
pub fn visible_stream(ts: &Vec<TokenTree>) -> (res: Vec<TokenTree>)
    ensures
        trees_view(res@) == visible(trees_view(ts@)),
    decreases ts@,
{
    broadcast use lemma_trees_view;
    let ghost v = trees_view(ts@);
    let mut res: Vec<TokenTree> = Vec::new();
    let mut i: usize = 0;
    proof { lemma_trees_view(ts@); }
    assert(trees_view(res@) =~= visible(v.subrange(0, 0)));
    while i < ts.len()
        invariant
            i <= ts@.len(),
            v == trees_view(ts@),
            v.len() == ts@.len(),
            trees_view(res@) == visible(v.subrange(0, i as int)),
        decreases ts.len() - i,
    {
        proof { lemma_trees_view(ts@); }
        assert(v.subrange(0, i + 1).drop_last() =~= v.subrange(0, i as int));
        assert(v.subrange(0, i + 1).last() == tree_view(ts@[i as int]));
        match &ts[i] {
            TokenTree::Group(Delimiter::Invisible, inner) => {
                assert(decreases_to!(ts@ => ts@[i as int]));
                let opened = visible_stream(inner);
                push_stream(&mut res, opened);
            },
            _ => {
                let t = clone_tree(&ts[i]);
                push_tree(&mut res, t);
                assert(trees_view(res@) =~= visible(v.subrange(0, i as int)) + seq![v[i as int]]);
            },
        }
        i = i + 1;
    }
    assert(v.subrange(0, i as int) =~= v);
    res
}

/// Text of the identifier `N`, the placeholder that `seq!` replaces.
pub open spec fn n_name() -> Seq<char> {
    seq!['N']
}

/// The decimal digit character of `d` (for `0 <= d < 10`).
pub open spec fn digit_char(d: int) -> char {
    (d + 48) as char
}

/// Decimal digits of a natural number, most significant first, no leading zeros.
pub open spec fn nat_text(m: nat) -> Seq<char>
    decreases m,
{
    if m < 10 {
        seq![digit_char(m as int)]
    } else {
        nat_text(m / 10).push(digit_char((m % 10) as int))
    }
}

/// Decimal text of an integer, with a leading `-` when it is negative.
pub open spec fn decimal_text(n: int) -> Seq<char> {
    if n < 0 {
        seq!['-'] + nat_text((-n) as nat)
    } else {
        nat_text(n as nat)
    }
}

/// Text of the unsuffixed integer literal that `proc_macro2::Literal::i32_unsuffixed` makes.
///
/// Trusted: calls `proc_macro2::Literal::i32_unsuffixed` and renders the literal; proc-macro2
/// builds the literal from `n.to_string()`, the decimal text of `n` with a leading `-` when
/// negative.
#[verifier::external_body]
pub(crate) fn literal_i32_unsuffixed(n: i32) -> (s: String)
    ensures
        s@ == decimal_text(n as int),
{
    proc_macro2::Literal::i32_unsuffixed(n).to_string()
}

/// Whether a string holds exactly the text of `lit`.
pub fn text_is(s: &String, lit: &str) -> (b: bool)
    ensures
        b == (s@ == lit@),
{
    let t = String::from_str(lit);
    s.eq(&t)
}


/// Whether a tree is a punctuation character `c`, whatever its spacing.
pub open spec fn punct_is(t: Tree, c: char) -> bool {
    t matches Tree::Punct(p, _) && p == c
}

/// Whether a tree is a punctuation character.
pub open spec fn is_punct(t: Tree) -> bool {
    t is Punct
}

/// Whether a tree is an identifier.
pub open spec fn is_ident(t: Tree) -> bool {
    t is Ident
}

/// The text of an identifier tree.
pub open spec fn ident_text(t: Tree) -> Seq<char> {
    match t {
        Tree::Ident(x) => x,
        _ => Seq::empty(),
    }
}

/// Whether a tree is a literal.
pub open spec fn is_literal(t: Tree) -> bool {
    t is Literal
}

/// The text of a literal tree.
pub open spec fn literal_text(t: Tree) -> Seq<char> {
    match t {
        Tree::Literal(x) => x,
        _ => Seq::empty(),
    }
}

/// Whether a tree is a group with delimiter `d`.
pub open spec fn is_group_with(t: Tree, d: Delimiter) -> bool {
    t matches Tree::Group(e, _) && e == d
}

/// Whether a tree is a punctuation character `c` joined to the next punctuation.
pub open spec fn joint_punct_is(t: Tree, c: char) -> bool {
    t matches Tree::Punct(p, sp) && p == c && sp == Spacing::Joint
}

/// Whether a tree is a group delimited by parentheses.
pub open spec fn is_paren_group(t: Tree) -> bool {
    t matches Tree::Group(d, _) && d == Delimiter::Parenthesis
}

/// Whether an identifier's text is that of a raw identifier (`r#...`).
pub open spec fn is_raw_text(x: Seq<char>) -> bool {
    x.len() >= 2 && x[0] == 'r' && x[1] == '#'
}

/// Whether a string starts with `r#`, the mark of a raw identifier.
pub fn text_is_raw(x: &String) -> (b: bool)
    ensures
        b == is_raw_text(x@),
{
    let s = x.as_str();
    let len = s.unicode_len();
    if len < 2 {
        false
    } else {
        s.get_char(0) == 'r' && s.get_char(1) == '#'
    }
}

/// The digit character of `d`, as a string.
fn digit_str(d: u32) -> (s: &'static str)
    requires
        d < 10,
    ensures
        s@ == seq![digit_char(d as int)],
{
    proof {
        reveal_strlit("0");
        reveal_strlit("1");
        reveal_strlit("2");
        reveal_strlit("3");
        reveal_strlit("4");
        reveal_strlit("5");
        reveal_strlit("6");
        reveal_strlit("7");
        reveal_strlit("8");
        reveal_strlit("9");
    }
    let s = match d {
        0 => "0",
        1 => "1",
        2 => "2",
        3 => "3",
        4 => "4",
        5 => "5",
        6 => "6",
        7 => "7",
        8 => "8",
        _ => "9",
    };
    assert(s@ =~= seq![digit_char(d as int)]);
    s
}

/// Appends the decimal digits of `m`, as `nat_text` states.
fn append_nat(res: &mut String, m: u32)
    ensures
        final(res)@ == old(res)@ + nat_text(m as nat),
    decreases m,
{
    if m >= 10 {
        append_nat(res, m / 10);
    }
    res.append(digit_str(m % 10));
    proof {
        if m >= 10 {
            assert(old(res)@ + nat_text((m / 10) as nat) + seq![digit_char((m % 10) as int)]
                =~= old(res)@ + nat_text(m as nat));
        } else {
            assert(m % 10 == m);
            assert(old(res)@ + seq![digit_char((m % 10) as int)] =~= old(res)@ + nat_text(m as nat));
        }
    }
}

/// The identifier text with the decimal text of `n` appended, as `decimal_text` states.
pub(crate) fn append_decimal(x: &String, n: i32) -> (res: String)
    ensures
        res@ == x@ + decimal_text(n as int),
{
    let mut res = x.clone();
    if n < 0 {
        res.append("-");
        proof {
            reveal_strlit("-");
        }
        let m: u32 = (-(n as i64)) as u32;
        append_nat(&mut res, m);
        assert(res@ =~= x@ + (seq!['-'] + nat_text((-n) as nat)));
    } else {
        append_nat(&mut res, n as u32);
    }
    res
}

} // verus!
