use vstd::prelude::*;
use crate::token::{
    TokenTree, Tree, Delimiter, Spacing, trees_view, lemma_trees_view, is_raw_text, ident, ident_from, punct,
    joint, push_tree, push_stream, text_is_raw,
};
use crate::builder::model::FieldView;

verus! {

/// The identifier tree with the text of `s`.
pub open spec fn sid(s: &str) -> Tree {
    Tree::Ident(s@)
}

/// The punctuation tree `c` standing alone.
pub open spec fn sp(c: char) -> Tree {
    Tree::Punct(c, Spacing::Alone)
}

/// The punctuation tree `c` joined to the next punctuation.
pub open spec fn sj(c: char) -> Tree {
    Tree::Punct(c, Spacing::Joint)
}

/// A braced group.
pub open spec fn braced(s: Seq<Tree>) -> Tree {
    Tree::Group(Delimiter::Brace, s)
}

/// A parenthesized group.
pub open spec fn parens(s: Seq<Tree>) -> Tree {
    Tree::Group(Delimiter::Parenthesis, s)
}

/// A bracketed group.
pub open spec fn brackets(s: Seq<Tree>) -> Tree {
    Tree::Group(Delimiter::Bracket, s)
}

/// The text an identifier contributes to `format_ident!`: its text without the `r#` of a raw
/// identifier.
pub open spec fn fragment(id: Seq<char>) -> Seq<char> {
    if is_raw_text(id) { id.subrange(2, id.len() as int) } else { id }
}

/// The builder's field for a field named `id`: `_` followed by the name.
pub open spec fn underscored(id: Seq<char>) -> Seq<char> {
    seq!['_'] + fragment(id)
}

/// The builder's name for a struct named `name`: the name followed by `Builder`.
pub open spec fn builder_name(name: Seq<char>) -> Seq<char> {
    fragment(name) + "Builder"@
}

/// The pieces that each field contributes, one after the other.
pub open spec fn concat_pieces(fs: Seq<FieldView>, piece: spec_fn(FieldView) -> Seq<Tree>) -> Seq<Tree>
    decreases fs.len(),
{
    if fs.len() == 0 {
        Seq::empty()
    } else {
        concat_pieces(fs.drop_last(), piece) + piece(fs.last())
    }
}

/// Adding one more field adds its piece at the end.
pub proof fn lemma_concat_pieces_step(fs: Seq<FieldView>, i: int, piece: spec_fn(FieldView) -> Seq<Tree>)
    requires
        0 <= i < fs.len(),
    ensures
        concat_pieces(fs.take(i + 1), piece) == concat_pieces(fs.take(i), piece) + piece(fs[i]),
{
    assert(fs.take(i + 1).drop_last() =~= fs.take(i));
    assert(fs.take(i + 1).last() == fs[i]);
}

/// `use std::error::Error;`
pub open spec fn use_error() -> Seq<Tree> {
    seq![sid("use"), sid("std"), sj(':'), sp(':'), sid("error"), sj(':'), sp(':'), sid("Error"), sp(';')]
}

/// `impl Name { pub fn builder() -> NameBuilder { CommandBuilder { init } } }`
pub open spec fn impl_builder(name: Seq<char>, init: Seq<Tree>) -> Seq<Tree> {
    seq![
        sid("impl"), Tree::Ident(name), braced(seq![
            sid("pub"), sid("fn"), sid("builder"), parens(Seq::empty()), sj('-'), sp('>'),
            Tree::Ident(builder_name(name)),
            braced(seq![sid("CommandBuilder"), braced(init)]),
        ]),
    ]
}

/// `pub struct NameBuilder { types }`
pub open spec fn struct_builder(name: Seq<char>, types: Seq<Tree>) -> Seq<Tree> {
    seq![sid("pub"), sid("struct"), Tree::Ident(builder_name(name)), braced(types)]
}

/// `pub fn build(&mut self) -> Result<Name, Box<dyn Error>> { let st = Name { build }; Ok(st) }`
pub open spec fn build_fn(name: Seq<char>, build: Seq<Tree>) -> Seq<Tree> {
    seq![
        sid("pub"), sid("fn"), sid("build"), parens(seq![sp('&'), sid("mut"), sid("self")]), sj('-'), sp('>'),
        sid("Result"), sp('<'), Tree::Ident(name), sp(','), sid("Box"), sp('<'), sid("dyn"), sid("Error"), sj('>'), sp('>'),
        braced(seq![sid("let"), sid("st"), sp('='), Tree::Ident(name), braced(build), sp(';'), sid("Ok"), parens(seq![sid("st")])]),
    ]
}

/// `impl CommandBuilder { setters build_fn }`
pub open spec fn impl_command_builder(name: Seq<char>, setters: Seq<Tree>, build: Seq<Tree>) -> Seq<Tree> {
    seq![sid("impl"), sid("CommandBuilder"), braced(setters + build_fn(name, build))]
}

/// The code that the builder derives emit for the struct `name`, given the builder's field
/// initializers, its field declarations, its setters and the field initializers of `build`:
///
/// ```text
/// use std::error::Error;
/// impl Name { pub fn builder() -> NameBuilder { CommandBuilder { init } } }
/// pub struct NameBuilder { types }
/// impl CommandBuilder {
///     setters
///     pub fn build(&mut self) -> Result<Name, Box<dyn Error>> { let st = Name { build }; Ok(st) }
/// }
/// ```
pub open spec fn builder_expansion(name: Seq<char>, init: Seq<Tree>, types: Seq<Tree>, setters: Seq<Tree>, build: Seq<Tree>) -> Seq<Tree> {
    use_error() + impl_builder(name, init) + struct_builder(name, types) + impl_command_builder(name, setters, build)
}

/// The text an identifier contributes to `format_ident!`, as `fragment` states.
pub fn fragment_of(id: &String) -> (res: String)
    ensures
        res@ == fragment(id@),
{
    if text_is_raw(id) {
        let t = id.as_str();
        let len = t.unicode_len();
        String::from_str(t.substring_char(2, len))
    } else {
        id.clone()
    }
}

/// `_` followed by the identifier's text, as `underscored` states.
pub fn underscored_of(id: &String) -> (res: String)
    ensures
        res@ == underscored(id@),
{
    let mut res = String::from_str("_");
    proof {
        reveal_strlit("_");
        assert("_"@ =~= seq!['_']);
    }
    let frag = fragment_of(id);
    res.append(frag.as_str());
    res
}

/// The builder's name, as `builder_name` states.
pub fn builder_name_of(name: &String) -> (res: String)
    ensures
        res@ == builder_name(name@),
{
    let mut res = fragment_of(name);
    res.append("Builder");
    res
}

/// A group tree with delimiter `d` around the stream.
pub fn group(d: Delimiter, s: Vec<TokenTree>) -> (t: TokenTree)
    ensures
        crate::token::tree_view(t) == Tree::Group(d, trees_view(s@)),
{
    TokenTree::Group(d, s)
}

/// An empty token stream.
pub fn empty_stream() -> (res: Vec<TokenTree>)
    ensures
        trees_view(res@) == Seq::<Tree>::empty(),
{
    let res: Vec<TokenTree> = Vec::new();
    assert(trees_view(res@) =~= Seq::<Tree>::empty());
    res
}

/// `use std::error::Error;`
fn use_error_exec() -> (out: Vec<TokenTree>)
    ensures
        trees_view(out@) == use_error(),
{
    let mut out = empty_stream();
    push_tree(&mut out, ident("use"));
    push_tree(&mut out, ident("std"));
    push_tree(&mut out, joint(':'));
    push_tree(&mut out, punct(':'));
    push_tree(&mut out, ident("error"));
    push_tree(&mut out, joint(':'));
    push_tree(&mut out, punct(':'));
    push_tree(&mut out, ident("Error"));
    push_tree(&mut out, punct(';'));
    assert(trees_view(out@) =~= use_error());
    out
}

/// `impl Name { pub fn builder() -> NameBuilder { CommandBuilder { init } } }`
fn impl_builder_exec(name: &String, init: Vec<TokenTree>) -> (out: Vec<TokenTree>)
    ensures
        trees_view(out@) == impl_builder(name@, trees_view(init@)),
{
    let bname = builder_name_of(name);
    let mut cb = empty_stream();
    push_tree(&mut cb, ident("CommandBuilder"));
    push_tree(&mut cb, group(Delimiter::Brace, init));
    assert(trees_view(cb@) =~= seq![sid("CommandBuilder"), braced(trees_view(init@))]);
    let mut builder_fn = empty_stream();
    push_tree(&mut builder_fn, ident("pub"));
    push_tree(&mut builder_fn, ident("fn"));
    push_tree(&mut builder_fn, ident("builder"));
    push_tree(&mut builder_fn, group(Delimiter::Parenthesis, empty_stream()));
    push_tree(&mut builder_fn, joint('-'));
    push_tree(&mut builder_fn, punct('>'));
    push_tree(&mut builder_fn, ident_from(&bname));
    push_tree(&mut builder_fn, group(Delimiter::Brace, cb));
    assert(trees_view(builder_fn@) =~= seq![
        sid("pub"), sid("fn"), sid("builder"), parens(Seq::empty()), sj('-'), sp('>'),
        Tree::Ident(builder_name(name@)),
        braced(seq![sid("CommandBuilder"), braced(trees_view(init@))]),
    ]);
    let mut out = empty_stream();
    push_tree(&mut out, ident("impl"));
    push_tree(&mut out, ident_from(name));
    push_tree(&mut out, group(Delimiter::Brace, builder_fn));
    assert(trees_view(out@) =~= impl_builder(name@, trees_view(init@)));
    out
}

/// `pub struct NameBuilder { types }`
fn struct_builder_exec(name: &String, types: Vec<TokenTree>) -> (out: Vec<TokenTree>)
    ensures
        trees_view(out@) == struct_builder(name@, trees_view(types@)),
{
    let bname = builder_name_of(name);
    let mut out = empty_stream();
    push_tree(&mut out, ident("pub"));
    push_tree(&mut out, ident("struct"));
    push_tree(&mut out, ident_from(&bname));
    push_tree(&mut out, group(Delimiter::Brace, types));
    assert(trees_view(out@) =~= struct_builder(name@, trees_view(types@)));
    out
}

/// The body `{ let st = Name { build }; Ok(st) }` of `build`.
fn build_body_exec(name: &String, build: Vec<TokenTree>) -> (t: TokenTree)
    ensures
        crate::token::tree_view(t) == braced(seq![sid("let"), sid("st"), sp('='), Tree::Ident(name@), braced(trees_view(build@)), sp(';'), sid("Ok"), parens(seq![sid("st")])]),
{
    let mut ok_arg = empty_stream();
    push_tree(&mut ok_arg, ident("st"));
    let mut body = empty_stream();
    push_tree(&mut body, ident("let"));
    push_tree(&mut body, ident("st"));
    push_tree(&mut body, punct('='));
    push_tree(&mut body, ident_from(name));
    push_tree(&mut body, group(Delimiter::Brace, build));
    push_tree(&mut body, punct(';'));
    push_tree(&mut body, ident("Ok"));
    push_tree(&mut body, group(Delimiter::Parenthesis, ok_arg));
    assert(trees_view(ok_arg@) =~= seq![sid("st")]);
    assert(trees_view(body@) =~= seq![sid("let"), sid("st"), sp('='), Tree::Ident(name@), braced(trees_view(build@)), sp(';'), sid("Ok"), parens(seq![sid("st")])]);
    group(Delimiter::Brace, body)
}

/// `pub fn build(&mut self) -> Result<Name, Box<dyn Error>> { ... }`
fn build_fn_exec(name: &String, build: Vec<TokenTree>) -> (out: Vec<TokenTree>)
    ensures
        trees_view(out@) == build_fn(name@, trees_view(build@)),
{
    let mut self_param = empty_stream();
    push_tree(&mut self_param, punct('&'));
    push_tree(&mut self_param, ident("mut"));
    push_tree(&mut self_param, ident("self"));
    assert(trees_view(self_param@) =~= seq![sp('&'), sid("mut"), sid("self")]);
    let body = build_body_exec(name, build);
    let mut out = empty_stream();
    push_tree(&mut out, ident("pub"));
    push_tree(&mut out, ident("fn"));
    push_tree(&mut out, ident("build"));
    push_tree(&mut out, group(Delimiter::Parenthesis, self_param));
    push_tree(&mut out, joint('-'));
    push_tree(&mut out, punct('>'));
    assert(trees_view(out@) =~= seq![
        sid("pub"), sid("fn"), sid("build"), parens(seq![sp('&'), sid("mut"), sid("self")]), sj('-'), sp('>')]);
    let ghost first = trees_view(out@);
    push_tree(&mut out, ident("Result"));
    push_tree(&mut out, punct('<'));
    push_tree(&mut out, ident_from(name));
    push_tree(&mut out, punct(','));
    push_tree(&mut out, ident("Box"));
    push_tree(&mut out, punct('<'));
    push_tree(&mut out, ident("dyn"));
    push_tree(&mut out, ident("Error"));
    push_tree(&mut out, joint('>'));
    push_tree(&mut out, punct('>'));
    assert(trees_view(out@) =~= first + seq![
        sid("Result"), sp('<'), Tree::Ident(name@), sp(','), sid("Box"), sp('<'), sid("dyn"), sid("Error"), sj('>'), sp('>')]);
    push_tree(&mut out, body);
    assert(trees_view(out@) =~= build_fn(name@, trees_view(build@)));
    out
}

/// `impl CommandBuilder { setters build_fn }`
fn impl_command_builder_exec(name: &String, setters: Vec<TokenTree>, build: Vec<TokenTree>) -> (out: Vec<TokenTree>)
    ensures
        trees_view(out@) == impl_command_builder(name@, trees_view(setters@), trees_view(build@)),
{
    let mut imp = setters;
    push_stream(&mut imp, build_fn_exec(name, build));
    let mut out = empty_stream();
    push_tree(&mut out, ident("impl"));
    push_tree(&mut out, ident("CommandBuilder"));
    push_tree(&mut out, group(Delimiter::Brace, imp));
    assert(trees_view(out@) =~= impl_command_builder(name@, trees_view(setters@), trees_view(build@)));
    out
}

/// The code that the builder derives emit, as `builder_expansion` states.
pub fn builder_expansion_exec(
    name: &String,
    init: Vec<TokenTree>,
    types: Vec<TokenTree>,
    setters: Vec<TokenTree>,
    build: Vec<TokenTree>,
) -> (res: Vec<TokenTree>)
    ensures
        trees_view(res@) == builder_expansion(name@, trees_view(init@), trees_view(types@), trees_view(setters@), trees_view(build@)),
{
    let mut out = use_error_exec();
    push_stream(&mut out, impl_builder_exec(name, init));
    push_stream(&mut out, struct_builder_exec(name, types));
    push_stream(&mut out, impl_command_builder_exec(name, setters, build));
    out
}

} // verus!
