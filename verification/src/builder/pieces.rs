use vstd::prelude::*;
use crate::token::{TokenTree, Tree, Delimiter, Spacing, trees_view, ident, ident_from, punct, joint, push_tree, push_stream, push_copy};
use crate::builder::expansion::{sid, sp, sj, braced, parens, brackets, underscored, underscored_of, empty_stream, group};

verus! {

/// `uid: None,` — a builder field that starts unset.
pub open spec fn init_none(uid: Seq<char>) -> Seq<Tree> {
    seq![Tree::Ident(uid), sp(':'), sid("None"), sp(',')]
}

/// `uid: vec![],` — a builder field that starts empty.
pub open spec fn init_vec(uid: Seq<char>) -> Seq<Tree> {
    seq![Tree::Ident(uid), sp(':'), sid("vec"), sp('!'), brackets(Seq::empty()), sp(',')]
}

/// `uid: Option<ty>,`
pub open spec fn decl_option(uid: Seq<char>, ty: Seq<Tree>) -> Seq<Tree> {
    seq![Tree::Ident(uid), sp(':'), sid("Option"), sp('<')] + ty + seq![sp('>'), sp(',')]
}

/// `uid: ty,`
pub open spec fn decl_plain(uid: Seq<char>, ty: Seq<Tree>) -> Seq<Tree> {
    seq![Tree::Ident(uid), sp(':')] + ty + seq![sp(',')]
}

/// `fn name(&mut self, name: ty) -> &mut Self { body }`
pub open spec fn setter(name: Seq<char>, ty: Seq<Tree>, body: Seq<Tree>) -> Seq<Tree> {
    seq![
        sid("fn"), Tree::Ident(name),
        parens(seq![sp('&'), sid("mut"), sid("self"), sp(','), Tree::Ident(name), sp(':')] + ty),
        sj('-'), sp('>'), sp('&'), sid("mut"), sid("Self"), braced(body),
    ]
}

/// `self.uid = Some(name); self`
pub open spec fn assign_some(uid: Seq<char>, name: Seq<char>) -> Seq<Tree> {
    seq![sid("self"), sp('.'), Tree::Ident(uid), sp('='), sid("Some"), parens(seq![Tree::Ident(name)]), sp(';'), sid("self")]
}

/// `self.uid.push(name); self`
pub open spec fn push_item(uid: Seq<char>, name: Seq<char>) -> Seq<Tree> {
    seq![sid("self"), sp('.'), Tree::Ident(uid), sp('.'), sid("push"), parens(seq![Tree::Ident(name)]), sp(';'), sid("self")]
}

/// `fn name(&mut self, name: ty) -> &mut Self { self.uid = Some(name); self }`
pub open spec fn setter_some(name: Seq<char>, uid: Seq<char>, ty: Seq<Tree>) -> Seq<Tree> {
    setter(name, ty, assign_some(uid, name))
}

/// `fn name(&mut self, name: ty) -> &mut Self { self.uid.push(name); self }`
pub open spec fn setter_push(name: Seq<char>, uid: Seq<char>, ty: Seq<Tree>) -> Seq<Tree> {
    setter(name, ty, push_item(uid, name))
}

/// The text of the error message literal, `"Field {} is not set"`.
pub open spec fn not_set_literal() -> Seq<char> {
    "\"Field {} is not set\""@
}

/// `id: self.uid.take().ok_or(format!("Field {} is not set", stringify!(id)))?,`
pub open spec fn build_required(id: Seq<char>, uid: Seq<char>) -> Seq<Tree> {
    seq![
        Tree::Ident(id), sp(':'), sid("self"), sp('.'), Tree::Ident(uid), sp('.'), sid("take"), parens(Seq::empty()),
        sp('.'), sid("ok_or"),
        parens(seq![
            sid("format"), sp('!'),
            parens(seq![Tree::Literal(not_set_literal()), sp(','), sid("stringify"), sp('!'), parens(seq![Tree::Ident(id)])]),
        ]),
        sp('?'), sp(','),
    ]
}

/// `id: self.uid.take(),`
pub open spec fn build_optional(id: Seq<char>, uid: Seq<char>) -> Seq<Tree> {
    seq![Tree::Ident(id), sp(':'), sid("self"), sp('.'), Tree::Ident(uid), sp('.'), sid("take"), parens(Seq::empty()), sp(',')]
}

/// `id: std::mem::replace(&mut self.uid, vec![]),`
pub open spec fn build_vec(id: Seq<char>, uid: Seq<char>) -> Seq<Tree> {
    seq![
        Tree::Ident(id), sp(':'), sid("std"), sj(':'), sp(':'), sid("mem"), sj(':'), sp(':'), sid("replace"),
        parens(seq![sp('&'), sid("mut"), sid("self"), sp('.'), Tree::Ident(uid), sp(','), sid("vec"), sp('!'), brackets(Seq::empty())]),
        sp(','),
    ]
}

/// `uid: None,`
pub fn init_none_exec(uid: &String) -> (out: Vec<TokenTree>)
    ensures
        trees_view(out@) == init_none(uid@),
{
    let mut out = empty_stream();
    push_tree(&mut out, ident_from(uid));
    push_tree(&mut out, punct(':'));
    push_tree(&mut out, ident("None"));
    push_tree(&mut out, punct(','));
    assert(trees_view(out@) =~= init_none(uid@));
    out
}

/// `uid: vec![],`
pub fn init_vec_exec(uid: &String) -> (out: Vec<TokenTree>)
    ensures
        trees_view(out@) == init_vec(uid@),
{
    let mut out = empty_stream();
    push_tree(&mut out, ident_from(uid));
    push_tree(&mut out, punct(':'));
    push_tree(&mut out, ident("vec"));
    push_tree(&mut out, punct('!'));
    push_tree(&mut out, group(Delimiter::Bracket, empty_stream()));
    push_tree(&mut out, punct(','));
    assert(trees_view(out@) =~= init_vec(uid@));
    out
}

/// `uid: Option<ty>,`
pub fn decl_option_exec(uid: &String, ty: &Vec<TokenTree>) -> (out: Vec<TokenTree>)
    ensures
        trees_view(out@) == decl_option(uid@, trees_view(ty@)),
{
    let mut out = empty_stream();
    push_tree(&mut out, ident_from(uid));
    push_tree(&mut out, punct(':'));
    push_tree(&mut out, ident("Option"));
    push_tree(&mut out, punct('<'));
    let ghost head = trees_view(out@);
    push_copy(&mut out, ty);
    push_tree(&mut out, punct('>'));
    push_tree(&mut out, punct(','));
    assert(head =~= seq![Tree::Ident(uid@), sp(':'), sid("Option"), sp('<')]);
    assert(trees_view(out@) =~= decl_option(uid@, trees_view(ty@)));
    out
}

/// `uid: ty,`
pub fn decl_plain_exec(uid: &String, ty: &Vec<TokenTree>) -> (out: Vec<TokenTree>)
    ensures
        trees_view(out@) == decl_plain(uid@, trees_view(ty@)),
{
    let mut out = empty_stream();
    push_tree(&mut out, ident_from(uid));
    push_tree(&mut out, punct(':'));
    let ghost head = trees_view(out@);
    push_copy(&mut out, ty);
    push_tree(&mut out, punct(','));
    assert(head =~= seq![Tree::Ident(uid@), sp(':')]);
    assert(trees_view(out@) =~= decl_plain(uid@, trees_view(ty@)));
    out
}

/// `fn name(&mut self, name: ty) -> &mut Self { body }`
fn setter_exec(name: &String, ty: &Vec<TokenTree>, body: Vec<TokenTree>) -> (out: Vec<TokenTree>)
    ensures
        trees_view(out@) == setter(name@, trees_view(ty@), trees_view(body@)),
{
    let mut params = empty_stream();
    push_tree(&mut params, punct('&'));
    push_tree(&mut params, ident("mut"));
    push_tree(&mut params, ident("self"));
    push_tree(&mut params, punct(','));
    push_tree(&mut params, ident_from(name));
    push_tree(&mut params, punct(':'));
    let ghost head = trees_view(params@);
    assert(head =~= seq![sp('&'), sid("mut"), sid("self"), sp(','), Tree::Ident(name@), sp(':')]);
    push_copy(&mut params, ty);
    let mut out = empty_stream();
    push_tree(&mut out, ident("fn"));
    push_tree(&mut out, ident_from(name));
    push_tree(&mut out, group(Delimiter::Parenthesis, params));
    push_tree(&mut out, joint('-'));
    push_tree(&mut out, punct('>'));
    push_tree(&mut out, punct('&'));
    push_tree(&mut out, ident("mut"));
    push_tree(&mut out, ident("Self"));
    push_tree(&mut out, group(Delimiter::Brace, body));
    assert(trees_view(out@) =~= setter(name@, trees_view(ty@), trees_view(body@)));
    out
}

/// The one-element stream holding the identifier `name`.
fn single_ident(name: &String) -> (out: Vec<TokenTree>)
    ensures
        trees_view(out@) == seq![Tree::Ident(name@)],
{
    let mut out = empty_stream();
    push_tree(&mut out, ident_from(name));
    assert(trees_view(out@) =~= seq![Tree::Ident(name@)]);
    out
}

/// `fn name(&mut self, name: ty) -> &mut Self { self.uid = Some(name); self }`
pub fn setter_some_exec(name: &String, uid: &String, ty: &Vec<TokenTree>) -> (out: Vec<TokenTree>)
    ensures
        trees_view(out@) == setter_some(name@, uid@, trees_view(ty@)),
{
    let mut body = empty_stream();
    push_tree(&mut body, ident("self"));
    push_tree(&mut body, punct('.'));
    push_tree(&mut body, ident_from(uid));
    push_tree(&mut body, punct('='));
    push_tree(&mut body, ident("Some"));
    push_tree(&mut body, group(Delimiter::Parenthesis, single_ident(name)));
    push_tree(&mut body, punct(';'));
    push_tree(&mut body, ident("self"));
    assert(trees_view(body@) =~= assign_some(uid@, name@));
    setter_exec(name, ty, body)
}

/// `fn name(&mut self, name: ty) -> &mut Self { self.uid.push(name); self }`
pub fn setter_push_exec(name: &String, uid: &String, ty: &Vec<TokenTree>) -> (out: Vec<TokenTree>)
    ensures
        trees_view(out@) == setter_push(name@, uid@, trees_view(ty@)),
{
    let mut body = empty_stream();
    push_tree(&mut body, ident("self"));
    push_tree(&mut body, punct('.'));
    push_tree(&mut body, ident_from(uid));
    push_tree(&mut body, punct('.'));
    push_tree(&mut body, ident("push"));
    push_tree(&mut body, group(Delimiter::Parenthesis, single_ident(name)));
    push_tree(&mut body, punct(';'));
    push_tree(&mut body, ident("self"));
    assert(trees_view(body@) =~= push_item(uid@, name@));
    setter_exec(name, ty, body)
}

/// `id: self.uid.take().ok_or(format!("Field {} is not set", stringify!(id)))?,`
pub fn build_required_exec(id: &String, uid: &String) -> (out: Vec<TokenTree>)
    ensures
        trees_view(out@) == build_required(id@, uid@),
{
    let mut fmt_args = empty_stream();
    push_tree(&mut fmt_args, TokenTree::Literal(String::from_str("\"Field {} is not set\"")));
    push_tree(&mut fmt_args, punct(','));
    push_tree(&mut fmt_args, ident("stringify"));
    push_tree(&mut fmt_args, punct('!'));
    push_tree(&mut fmt_args, group(Delimiter::Parenthesis, single_ident(id)));
    assert(trees_view(fmt_args@) =~= seq![Tree::Literal(not_set_literal()), sp(','), sid("stringify"), sp('!'), parens(seq![Tree::Ident(id@)])]);
    let mut ok_or_args = empty_stream();
    push_tree(&mut ok_or_args, ident("format"));
    push_tree(&mut ok_or_args, punct('!'));
    push_tree(&mut ok_or_args, group(Delimiter::Parenthesis, fmt_args));
    assert(trees_view(ok_or_args@) =~= seq![
        sid("format"), sp('!'),
        parens(seq![Tree::Literal(not_set_literal()), sp(','), sid("stringify"), sp('!'), parens(seq![Tree::Ident(id@)])]),
    ]);
    let mut out = empty_stream();
    push_tree(&mut out, ident_from(id));
    push_tree(&mut out, punct(':'));
    push_tree(&mut out, ident("self"));
    push_tree(&mut out, punct('.'));
    push_tree(&mut out, ident_from(uid));
    push_tree(&mut out, punct('.'));
    push_tree(&mut out, ident("take"));
    push_tree(&mut out, group(Delimiter::Parenthesis, empty_stream()));
    push_tree(&mut out, punct('.'));
    push_tree(&mut out, ident("ok_or"));
    push_tree(&mut out, group(Delimiter::Parenthesis, ok_or_args));
    push_tree(&mut out, punct('?'));
    push_tree(&mut out, punct(','));
    assert(trees_view(out@) =~= build_required(id@, uid@));
    out
}

/// `id: self.uid.take(),`
pub fn build_optional_exec(id: &String, uid: &String) -> (out: Vec<TokenTree>)
    ensures
        trees_view(out@) == build_optional(id@, uid@),
{
    let mut out = empty_stream();
    push_tree(&mut out, ident_from(id));
    push_tree(&mut out, punct(':'));
    push_tree(&mut out, ident("self"));
    push_tree(&mut out, punct('.'));
    push_tree(&mut out, ident_from(uid));
    push_tree(&mut out, punct('.'));
    push_tree(&mut out, ident("take"));
    push_tree(&mut out, group(Delimiter::Parenthesis, empty_stream()));
    push_tree(&mut out, punct(','));
    assert(trees_view(out@) =~= build_optional(id@, uid@));
    out
}

/// `id: std::mem::replace(&mut self.uid, vec![]),`
pub fn build_vec_exec(id: &String, uid: &String) -> (out: Vec<TokenTree>)
    ensures
        trees_view(out@) == build_vec(id@, uid@),
{
    let mut args = empty_stream();
    push_tree(&mut args, punct('&'));
    push_tree(&mut args, ident("mut"));
    push_tree(&mut args, ident("self"));
    push_tree(&mut args, punct('.'));
    push_tree(&mut args, ident_from(uid));
    push_tree(&mut args, punct(','));
    push_tree(&mut args, ident("vec"));
    push_tree(&mut args, punct('!'));
    push_tree(&mut args, group(Delimiter::Bracket, empty_stream()));
    assert(trees_view(args@) =~= seq![sp('&'), sid("mut"), sid("self"), sp('.'), Tree::Ident(uid@), sp(','), sid("vec"), sp('!'), brackets(Seq::empty())]);
    let mut out = empty_stream();
    push_tree(&mut out, ident_from(id));
    push_tree(&mut out, punct(':'));
    push_tree(&mut out, ident("std"));
    push_tree(&mut out, joint(':'));
    push_tree(&mut out, punct(':'));
    push_tree(&mut out, ident("mem"));
    push_tree(&mut out, joint(':'));
    push_tree(&mut out, punct(':'));
    push_tree(&mut out, ident("replace"));
    push_tree(&mut out, group(Delimiter::Parenthesis, args));
    push_tree(&mut out, punct(','));
    assert(trees_view(out@) =~= build_vec(id@, uid@));
    out
}

} // verus!
