use vstd::prelude::*;
use vstd::slice::axiom_spec_len;
use crate::token::{
    TokenTree, Tree, trees_view, tree_view, lemma_trees_view, is_ident, ident_text, is_literal, literal_text,
    punct_is, visible, visible_stream,
};
use crate::seq_macro::input::{syn_keyword, ident_accepted};
use crate::builder::model::{Field, FieldView, Meta, MetaView};

verus! {

broadcast use {lemma_trees_view, axiom_spec_len};

/// What `unicode_ident::is_xid_start` says of a character.
pub uninterp spec fn xid_start(c: char) -> bool;

/// What `unicode_ident::is_xid_continue` says of a character.
pub uninterp spec fn xid_continue(c: char) -> bool;

/// Trusted: calls `unicode_ident::is_xid_start`, the Unicode `XID_Start` property. The
/// contract names the result.
#[verifier::external_body]
fn is_xid_start(c: char) -> (b: bool)
    ensures
        b == xid_start(c),
{
    unicode_ident::is_xid_start(c)
}

/// Trusted: calls `unicode_ident::is_xid_continue`, the Unicode `XID_Continue` property. The
/// contract names the result.
#[verifier::external_body]
fn is_xid_continue(c: char) -> (b: bool)
    ensures
        b == xid_continue(c),
{
    unicode_ident::is_xid_continue(c)
}

/// Whether every character is an ASCII digit.
pub open spec fn all_ascii_digits(s: Seq<char>) -> bool {
    forall|i: int| 0 <= i < s.len() ==> '0' <= #[trigger] s[i] <= '9'
}

/// Whether `proc_macro2::Ident::new` accepts the text (it panics on any other): not empty, not
/// all digits, a first character that is `_` or `XID_Start`, and `XID_Continue` after it.
pub open spec fn ident_new_accepts(s: Seq<char>) -> bool {
    &&& s.len() > 0
    &&& !all_ascii_digits(s)
    &&& (s[0] == '_' || xid_start(s[0]))
    &&& forall|i: int| 1 <= i < s.len() ==> xid_continue(#[trigger] s[i])
}

/// Whether `proc_macro2::Ident::new` accepts the text, as `ident_new_accepts` states.
pub fn ident_new_ok(s: &String) -> (b: bool)
    ensures
        b == ident_new_accepts(s@),
{
    let t = s.as_str();
    let len = t.unicode_len();
    if len == 0 {
        return false;
    }
    let mut all_digits = true;
    let mut i: usize = 0;
    while i < len
        invariant
            len == t@.len(),
            t@ == s@,
            i <= len,
            all_digits == (forall|j: int| 0 <= j < i ==> '0' <= #[trigger] t@[j] <= '9'),
        decreases len - i,
    {
        let c = t.get_char(i);
        if !('0' <= c && c <= '9') {
            all_digits = false;
        }
        i = i + 1;
    }
    if all_digits {
        return false;
    }
    let first = t.get_char(0);
    if !(first == '_' || is_xid_start(first)) {
        return false;
    }
    let mut k: usize = 1;
    while k < len
        invariant
            len == t@.len(),
            t@ == s@,
            1 <= k <= len,
            forall|j: int| 1 <= j < k ==> xid_continue(#[trigger] t@[j]),
        decreases len - k,
    {
        if !is_xid_continue(t.get_char(k)) {
            return false;
        }
        k = k + 1;
    }
    true
}

/// Why the arguments of a `builder(...)` attribute could not be parsed.
#[derive(Clone, Copy, Debug, PartialEq, Eq, Structural)]
pub enum MetaError {
    /// The first token is not an identifier that syn accepts.
    ExpectedIdent,
    /// The identifier is not `each`.
    UnsupportedAttribute,
    /// The `=` is missing.
    ExpectedEq,
    /// The literal is missing.
    ExpectedLiteral,
    /// Tokens are left after the literal.
    UnexpectedToken,
}

/// The index of the token on which an error of `parse_builder_meta` is reported, in the tokens
/// with their groups without delimiters opened: the first
/// token for a missing or wrong identifier (the identifier that is not `each`), the place of the
/// `=`, the place of the literal, and the first token left after the literal.
pub open spec fn meta_error_at(e: MetaError) -> int {
    match e {
        MetaError::ExpectedIdent => 0,
        MetaError::UnsupportedAttribute => 0,
        MetaError::ExpectedEq => 1,
        MetaError::ExpectedLiteral => 2,
        MetaError::UnexpectedToken => 3,
    }
}

impl MetaError {
    /// The index of the token on which the error is reported, as `meta_error_at` states.
    pub fn position(&self) -> (p: usize)
        ensures
            p as int == meta_error_at(*self),
    {
        match self {
            MetaError::ExpectedIdent => 0,
            MetaError::UnsupportedAttribute => 0,
            MetaError::ExpectedEq => 1,
            MetaError::ExpectedLiteral => 2,
            MetaError::UnexpectedToken => 3,
        }
    }
}

/// What the arguments `each = "name"` of a `builder(...)` attribute parse to: the text of the
/// literal.
pub open spec fn parse_builder_meta(ts: Seq<Tree>) -> Result<Seq<char>, MetaError> {
    if !(ts.len() > 0 && is_ident(ts[0]) && !syn_keyword(ident_text(ts[0]))) {
        Err(MetaError::ExpectedIdent)
    } else if ident_text(ts[0]) != "each"@ {
        Err(MetaError::UnsupportedAttribute)
    } else if !(ts.len() > 1 && punct_is(ts[1], '=')) {
        Err(MetaError::ExpectedEq)
    } else if !(ts.len() > 2 && is_literal(ts[2])) {
        Err(MetaError::ExpectedLiteral)
    } else if ts.len() > 3 {
        Err(MetaError::UnexpectedToken)
    } else {
        Ok(literal_text(ts[2]))
    }
}

/// The parsed arguments of `#[builder(each = "name")]`: the identifier `each` and the literal.
pub struct BuilderMeta {
    pub id: String,
    pub value: String,
}

impl BuilderMeta {
    /// Parses `each = literal` with nothing after it, as `parse_builder_meta` states of the
    /// tokens with their groups without delimiters opened (syn's cursor reads through them).
    pub fn parse(input: &Vec<TokenTree>) -> (res: Result<BuilderMeta, MetaError>)
        ensures
            match res {
                Ok(m) => parse_builder_meta(visible(trees_view(input@))) == Ok::<Seq<char>, MetaError>(m.value@)
                    && m.id@ == "each"@,
                Err(e) => parse_builder_meta(visible(trees_view(input@))) == Err::<Seq<char>, MetaError>(e)
                    && (e == MetaError::UnsupportedAttribute ==> is_ident(visible(trees_view(input@))[meta_error_at(e)])
                        && ident_text(visible(trees_view(input@))[meta_error_at(e)]) != "each"@),
            },
    {
        BuilderMeta::parse_opened(&visible_stream(input))
    }

    /// Parses `each = literal` on tokens read as syn reads them, as `parse_builder_meta` states.
    fn parse_opened(input: &Vec<TokenTree>) -> (res: Result<BuilderMeta, MetaError>)
        ensures
            match res {
                Ok(m) => parse_builder_meta(trees_view(input@)) == Ok::<Seq<char>, MetaError>(m.value@)
                    && m.id@ == "each"@,
                Err(e) => parse_builder_meta(trees_view(input@)) == Err::<Seq<char>, MetaError>(e)
                    && (e == MetaError::UnsupportedAttribute ==> is_ident(trees_view(input@)[meta_error_at(e)])
                        && ident_text(trees_view(input@)[meta_error_at(e)]) != "each"@),
            },
    {
        let ghost s = trees_view(input@);
        if input.len() > 0 {
            assert(s[0] == tree_view(input@[0]));
        }
        if input.len() > 1 {
            assert(s[1] == tree_view(input@[1]));
        }
        if input.len() > 2 {
            assert(s[2] == tree_view(input@[2]));
        }
        let arg_each = match input.len() > 0 {
            true => match &input[0] {
                TokenTree::Ident(x) => {
                    if ident_accepted(x) {
                        x.clone()
                    } else {
                        return Err(MetaError::ExpectedIdent);
                    }
                },
                _ => return Err(MetaError::ExpectedIdent),
            },
            false => return Err(MetaError::ExpectedIdent),
        };
        if !crate::token::text_is(&arg_each, "each") {
            return Err(MetaError::UnsupportedAttribute);
        }
        if !(input.len() > 1 && input[1].is_punct() && input[1].punct_char() == '=') {
            return Err(MetaError::ExpectedEq);
        }
        let value = match input.len() > 2 {
            true => match &input[2] {
                TokenTree::Literal(x) => x.clone(),
                _ => return Err(MetaError::ExpectedLiteral),
            },
            false => return Err(MetaError::ExpectedLiteral),
        };
        if input.len() > 3 {
            return Err(MetaError::UnexpectedToken);
        }
        Ok(BuilderMeta { id: arg_each, value })
    }
}

/// The literal of the attribute when it is `#[builder(each = literal)]` (first path segment
/// `builder`) with arguments that parse.
pub open spec fn builder_each(m: MetaView) -> Option<Seq<char>> {
    match m {
        MetaView::List(Some(p), ts) => if p == "builder"@ {
            match parse_builder_meta(visible(ts)) {
                Ok(lit) => Some(lit),
                Err(_) => None,
            }
        } else {
            None
        },
        _ => None,
    }
}

/// The literal of the first attribute for which `builder_each` has one.
pub open spec fn first_each(attrs: Seq<MetaView>) -> Option<Seq<char>>
    decreases attrs.len(),
{
    if attrs.len() == 0 {
        None
    } else {
        match builder_each(attrs[0]) {
            Some(lit) => Some(lit),
            None => first_each(attrs.subrange(1, attrs.len() as int)),
        }
    }
}

/// Length in bytes of the UTF-8 encoding of a text.
pub open spec fn utf8_len(s: Seq<char>) -> int {
    vstd::utf8::encode_utf8(s).len() as int
}

/// The literal's text without its first character and cut to its length in bytes less two:
/// for a string literal of ASCII text, the text between the quotes.
pub open spec fn strip_quotes(lit: Seq<char>) -> Seq<char> {
    let k = utf8_len(lit) - 2;
    let rest = lit.len() - 1;
    lit.subrange(1, 1 + if k < rest { k } else { rest })
}

/// The name that `#[builder(each = "name")]` gives the field's one-at-a-time setter.
pub open spec fn builder_attr(f: FieldView) -> Option<Seq<char>> {
    match first_each(f.attrs) {
        Some(lit) => Some(strip_quotes(lit)),
        None => None,
    }
}

/// Whether reading the field's `builder` attribute does not panic: the literal is at least two
/// bytes long and what is left of it is an identifier.
pub open spec fn builder_attr_ok(f: FieldView) -> bool {
    match first_each(f.attrs) {
        Some(lit) => utf8_len(lit) >= 2 && ident_new_accepts(strip_quotes(lit)),
        None => true,
    }
}

/// The literal of the first attribute `#[builder(each = literal)]` that parses, as
/// `first_each` states.
fn find_each(f: &Field) -> (res: Option<String>)
    ensures
        opt_view(res) == first_each(f@.attrs),
{
    let attrs = &f.attrs;
    let ghost mv = f@.attrs;
    let mut i: usize = 0;
    proof {
        assert(mv.subrange(0, mv.len() as int) =~= mv);
    }
    while i < attrs.len()
        invariant
            i <= attrs@.len(),
            mv == f@.attrs,
            attrs == &f.attrs,
            first_each(mv) == first_each(mv.subrange(i as int, mv.len() as int)),
        decreases attrs.len() - i,
    {
        let ghost w = mv.subrange(i as int, mv.len() as int);
        assert(w[0] == attrs@[i as int]@);
        assert(w.subrange(1, w.len() as int) =~= mv.subrange(i + 1, mv.len() as int));
        match &attrs[i] {
            Meta::List(Some(p), ts) => {
                if crate::token::text_is(p, "builder") {
                    match BuilderMeta::parse(ts) {
                        Ok(m) => {
                            return Some(m.value);
                        },
                        Err(_) => {},
                    }
                }
            },
            _ => {},
        }
        i = i + 1;
    }
    None
}

/// The model of an optional string.
pub open spec fn opt_view(s: Option<String>) -> Option<Seq<char>> {
    match s {
        Some(x) => Some(x@),
        None => None,
    }
}

/// The name given by the field's `#[builder(each = "name")]` attribute, as `builder_attr`
/// states.
pub fn has_field_builder_attr(f: &Field) -> (res: Option<String>)
    requires
        builder_attr_ok(f@),
    ensures
        opt_view(res) == builder_attr(f@),
{
    match find_each(f) {
        Some(lit_str) => {
            let t = lit_str.as_str();
            let blen = t.as_bytes().len();
            assert(t@ == lit_str@);
            assert(first_each(f@.attrs) == Some(lit_str@));
            assert(blen == utf8_len(lit_str@));
            let clen = t.unicode_len();
            if clen == 0 {
                assert(t@ =~= Seq::<char>::empty());
            }
            let k = blen - 2;
            let rest = clen - 1;
            let take = if k < rest { k } else { rest };
            let stripped = t.substring_char(1, 1 + take);
            Some(String::from_str(stripped))
        },
        None => None,
    }
}

/// `has_field_builder_attr` on any field: `None` where reading the attribute panics, else
/// `Some` of its result.
pub fn has_field_builder_attr_checked(f: &Field) -> (res: Option<Option<String>>)
    ensures
        res is None <==> !builder_attr_ok(f@),
        res matches Some(r) ==> opt_view(r) == builder_attr(f@),
{
    match find_each(f) {
        Some(lit_str) => {
            let t = lit_str.as_str();
            if t.as_bytes().len() < 2 {
                return None;
            }
            let blen = t.as_bytes().len();
            let clen = t.unicode_len();
            if clen == 0 {
                assert(t@ =~= Seq::<char>::empty());
            }
            let k = blen - 2;
            let rest = clen - 1;
            let take = if k < rest { k } else { rest };
            let stripped = String::from_str(t.substring_char(1, 1 + take));
            if ident_new_ok(&stripped) {
                Some(has_field_builder_attr(f))
            } else {
                None
            }
        },
        None => Some(has_field_builder_attr(f)),
    }
}

} // verus!
