use vstd::prelude::*;
use crate::token::{
    TokenTree, Tree, Delimiter, Spacing, trees_view, tree_view, lemma_trees_view, is_ident, ident_text,
    is_literal, literal_text, punct_is, joint_punct_is, is_group_with, text_is, clone_stream, visible,
    visible_stream,
};

verus! {

broadcast use lemma_trees_view;

/// Whether syn refuses an identifier token with this text where it parses an identifier: `_`
/// and the keywords that its identifier parser lists (`accept_as_ident`). A raw identifier's
/// text starts with `r#`, so it is never one of them.
pub open spec fn syn_keyword(t: Seq<char>) -> bool {
    ||| t == "_"@ ||| t == "abstract"@ ||| t == "as"@ ||| t == "async"@ ||| t == "await"@ ||| t == "become"@
    ||| t == "box"@ ||| t == "break"@ ||| t == "const"@ ||| t == "continue"@ ||| t == "crate"@ ||| t == "do"@
    ||| t == "dyn"@ ||| t == "else"@ ||| t == "enum"@ ||| t == "extern"@ ||| t == "false"@ ||| t == "final"@
    ||| t == "fn"@ ||| t == "for"@ ||| t == "if"@ ||| t == "impl"@ ||| t == "in"@ ||| t == "let"@
    ||| t == "loop"@ ||| t == "macro"@ ||| t == "match"@ ||| t == "mod"@ ||| t == "move"@ ||| t == "mut"@
    ||| t == "override"@ ||| t == "priv"@ ||| t == "pub"@ ||| t == "ref"@ ||| t == "return"@ ||| t == "Self"@
    ||| t == "self"@ ||| t == "static"@ ||| t == "struct"@ ||| t == "super"@ ||| t == "trait"@ ||| t == "true"@
    ||| t == "try"@ ||| t == "type"@ ||| t == "typeof"@ ||| t == "unsafe"@ ||| t == "unsized"@ ||| t == "use"@
    ||| t == "virtual"@ ||| t == "where"@ ||| t == "while"@ ||| t == "yield"@
}

/// Whether syn accepts an identifier token with this text, as `syn_keyword` states.
pub fn ident_accepted(x: &String) -> (b: bool)
    ensures
        b == !syn_keyword(x@),
{
    let t = x;
    !(
        text_is(t, "_") || text_is(t, "abstract") || text_is(t, "as") || text_is(t, "async") || text_is(t, "await")
        || text_is(t, "become") || text_is(t, "box") || text_is(t, "break") || text_is(t, "const") || text_is(t, "continue")
        || text_is(t, "crate") || text_is(t, "do") || text_is(t, "dyn") || text_is(t, "else") || text_is(t, "enum")
        || text_is(t, "extern") || text_is(t, "false") || text_is(t, "final") || text_is(t, "fn") || text_is(t, "for")
        || text_is(t, "if") || text_is(t, "impl") || text_is(t, "in") || text_is(t, "let") || text_is(t, "loop")
        || text_is(t, "macro") || text_is(t, "match") || text_is(t, "mod") || text_is(t, "move") || text_is(t, "mut")
        || text_is(t, "override") || text_is(t, "priv") || text_is(t, "pub") || text_is(t, "ref") || text_is(t, "return")
        || text_is(t, "Self") || text_is(t, "self") || text_is(t, "static") || text_is(t, "struct") || text_is(t, "super")
        || text_is(t, "trait") || text_is(t, "true") || text_is(t, "try") || text_is(t, "type") || text_is(t, "typeof")
        || text_is(t, "unsafe") || text_is(t, "unsized") || text_is(t, "use") || text_is(t, "virtual") || text_is(t, "where")
        || text_is(t, "while") || text_is(t, "yield")
    )
}

/// What syn makes of the text of an integer literal: `None` when syn does not read it as an
/// integer literal (`syn::LitInt`), else what `base10_parse::<i32>` gives on it: the value, or
/// the text of its error.
pub uninterp spec fn lit_int_i32(repr: Seq<char>) -> Option<Result<i32, Seq<char>>>;

/// As `lit_int_i32`, with `base10_parse::<u64>`.
pub uninterp spec fn lit_int_u64(repr: Seq<char>) -> Option<Result<u64, Seq<char>>>;

/// The model of what a literal reads to: an error is taken as its text.
pub open spec fn read_view<T>(r: Option<Result<T, String>>) -> Option<Result<T, Seq<char>>> {
    match r {
        Some(Ok(v)) => Some(Ok(v)),
        Some(Err(m)) => Some(Err(m@)),
        None => None,
    }
}

/// Trusted: parses the text with `syn::parse_str::<syn::LitInt>` and, when that succeeds, calls
/// `base10_parse::<i32>` on the literal, keeping the text of its error. The contract names the
/// result.
#[verifier::external_body]
pub(crate) fn int_literal_i32(repr: &String) -> (r: Option<Result<i32, String>>)
    ensures
        read_view(r) == lit_int_i32(repr@),
{
    match syn::parse_str::<syn::LitInt>(repr.as_str()) {
        Ok(lit) => Some(lit.base10_parse::<i32>().map_err(|e| e.to_string())),
        Err(_) => None,
    }
}

/// Trusted: parses the text with `syn::parse_str::<syn::LitInt>` and, when that succeeds, calls
/// `base10_parse::<u64>` on the literal, keeping the text of its error. The contract names the
/// result.
#[verifier::external_body]
pub(crate) fn int_literal_u64(repr: &String) -> (r: Option<Result<u64, String>>)
    ensures
        read_view(r) == lit_int_u64(repr@),
{
    match syn::parse_str::<syn::LitInt>(repr.as_str()) {
        Ok(lit) => Some(lit.base10_parse::<u64>().map_err(|e| e.to_string())),
        Err(_) => None,
    }
}

/// Why the header of a `seq!` invocation could not be parsed, with the index of the token where
/// syn stops (in the input with its groups without delimiters opened; the input's length when
/// the tokens ran out).
#[derive(Clone, Copy, Debug, PartialEq, Eq, Structural)]
pub enum ParseError {
    /// The first token is not an identifier that syn accepts.
    ExpectedIdent(usize),
    /// The keyword `in` is missing.
    ExpectedIn(usize),
    /// An integer literal is missing.
    ExpectedIntLiteral(usize),
    /// The `..` between the bounds is missing.
    ExpectedDotDot(usize),
    /// The braced body is missing.
    ExpectedBraces(usize),
    /// Tokens are left over: after the body, or (pointing at the braces) inside a body that
    /// must be empty.
    UnexpectedToken(usize),
}

/// Which bound of the range.
#[derive(Clone, Copy, Debug, PartialEq, Eq, Structural)]
pub enum Bound {
    Start,
    End,
}

/// The index of the start bound's first token in an input that parses: after `N in`.
pub const START_BOUND_AT: usize = 2;

/// Why a `seq!` invocation expands to a compile error; `T` is the type of the bounds. The
/// positions are indices of tokens in the invocation's input with its groups without
/// delimiters opened (as `visible` states), where the error is reported.
#[derive(Debug, PartialEq, Eq)]
pub enum SeqError<T> {
    /// The invocation could not be parsed.
    Parse(ParseError),
    /// A bound does not read as a value of the type of the bounds: which one (the start is read first),
    /// the index of its first token, and the text of syn's error.
    IntValue(Bound, usize, String),
    /// The start of the range is not lower than its end: both bounds, and the index of the
    /// start bound's first token.
    EmptyRange(T, T, usize),
}

/// Model of `SeqError`.
pub enum SeqErrorView<T> {
    Parse(ParseError),
    IntValue(Bound, usize, Seq<char>),
    EmptyRange(T, T, usize),
}

/// The model of an error.
pub open spec fn seq_error_view<T>(e: SeqError<T>) -> SeqErrorView<T> {
    match e {
        SeqError::Parse(p) => SeqErrorView::Parse(p),
        SeqError::IntValue(b, at, m) => SeqErrorView::IntValue(b, at, m@),
        SeqError::EmptyRange(a, b, at) => SeqErrorView::EmptyRange(a, b, at),
    }
}

/// The model of the outcome of a `seq!` expansion.
pub open spec fn seq_result_view<T>(r: Result<Vec<TokenTree>, SeqError<T>>) -> Result<Seq<Tree>, SeqErrorView<T>> {
    match r {
        Ok(v) => Ok(trees_view(v@)),
        Err(e) => Err(seq_error_view(e)),
    }
}

/// The value of a bound read as `i32` (`None` when it does not fit).
pub open spec fn bound_i32(r: Seq<char>) -> Option<i32> {
    match lit_int_i32(r) {
        Some(Ok(v)) => Some(v),
        _ => None,
    }
}

/// The text of syn's error for a bound that does not read as `i32`.
pub open spec fn bound_error_i32(r: Seq<char>) -> Seq<char> {
    match lit_int_i32(r) {
        Some(Err(m)) => m,
        _ => Seq::empty(),
    }
}

/// The value of a bound read as `u64` (`None` when it does not fit).
pub open spec fn bound_u64(r: Seq<char>) -> Option<u64> {
    match lit_int_u64(r) {
        Some(Ok(v)) => Some(v),
        _ => None,
    }
}

/// The text of syn's error for a bound that does not read as `u64`.
pub open spec fn bound_error_u64(r: Seq<char>) -> Seq<char> {
    match lit_int_u64(r) {
        Some(Err(m)) => m,
        _ => Seq::empty(),
    }
}

/// The value of a parsed bound read as `i32`, or the text of syn's error.
pub fn base10_i32(r: &String) -> (v: Result<i32, String>)
    ensures
        match v {
            Ok(x) => bound_i32(r@) == Some(x),
            Err(m) => bound_i32(r@) is None && m@ == bound_error_i32(r@),
        },
{
    match int_literal_i32(r) {
        Some(Ok(v)) => Ok(v),
        Some(Err(m)) => Err(m),
        None => Err(String::new()),
    }
}

/// The value of a parsed bound read as `u64`, or the text of syn's error.
pub fn base10_u64(r: &String) -> (v: Result<u64, String>)
    ensures
        match v {
            Ok(x) => bound_u64(r@) == Some(x),
            Err(m) => bound_u64(r@) is None && m@ == bound_error_u64(r@),
        },
{
    match int_literal_u64(r) {
        Some(Ok(v)) => Ok(v),
        Some(Err(m)) => Err(m),
        None => Err(String::new()),
    }
}

/// The text of the candidate integer literal at `i`, and the position after it: a literal, or
/// `-` followed by a literal (which syn reads as a negative literal).
pub open spec fn int_lit_repr_at(s: Seq<Tree>, i: int) -> Option<(Seq<char>, int)> {
    if 0 <= i < s.len() && is_literal(s[i]) {
        Some((literal_text(s[i]), i + 1))
    } else if 0 <= i && i + 1 < s.len() && punct_is(s[i], '-') && is_literal(s[i + 1]) {
        Some((seq!['-'] + literal_text(s[i + 1]), i + 2))
    } else {
        None
    }
}

/// The index of the end bound's first token: two after the end of the start bound (past `..`).
pub open spec fn end_bound_at(s: Seq<Tree>) -> int {
    match int_lit_repr_at(s, START_BOUND_AT as int) {
        Some((_, p1)) => p1 + 2,
        None => 0,
    }
}

/// Whether `..` stands at `i`: a `.` joined to a second `.`.
pub open spec fn dot_dot_at(s: Seq<Tree>, i: int) -> bool {
    0 <= i && i + 1 < s.len() && joint_punct_is(s[i], '.') && punct_is(s[i + 1], '.')
}

/// Whether a braced group stands at `i`.
pub open spec fn braces_at(s: Seq<Tree>, i: int) -> bool {
    0 <= i < s.len() && is_group_with(s[i], Delimiter::Brace)
}

/// The text of the keyword `in`.
pub open spec fn in_text() -> Seq<char> {
    seq!['i', 'n']
}

/// The header `N in a..b` of a `seq!` invocation, parsed up to the second bound: the name,
/// the texts of both bounds and the position after the second bound. `is_int` says which
/// literal texts syn reads as integer literals.
pub open spec fn parse_header(s: Seq<Tree>, is_int: spec_fn(Seq<char>) -> bool)
    -> Result<(Seq<char>, Seq<char>, Seq<char>, int), ParseError>
{
    if !(s.len() > 0 && is_ident(s[0]) && !syn_keyword(ident_text(s[0]))) {
        Err(ParseError::ExpectedIdent(0))
    } else if !(s.len() > 1 && is_ident(s[1]) && ident_text(s[1]) == in_text()) {
        Err(ParseError::ExpectedIn(1))
    } else {
        match int_lit_repr_at(s, 2) {
            None => Err(ParseError::ExpectedIntLiteral(2)),
            Some((r1, p1)) => {
                if !is_int(r1) {
                    Err(ParseError::ExpectedIntLiteral(2))
                } else if !dot_dot_at(s, p1) {
                    Err(ParseError::ExpectedDotDot(p1 as usize))
                } else {
                    match int_lit_repr_at(s, p1 + 2) {
                        None => Err(ParseError::ExpectedIntLiteral((p1 + 2) as usize)),
                        Some((r2, p2)) => {
                            if !is_int(r2) {
                                Err(ParseError::ExpectedIntLiteral((p1 + 2) as usize))
                            } else {
                                Ok((ident_text(s[0]), r1, r2, p2))
                            }
                        },
                    }
                }
            },
        }
    }
}

/// Whether syn reads the text as an integer literal (with `base10_parse::<i32>` after it).
pub open spec fn is_int_i32(r: Seq<char>) -> bool {
    lit_int_i32(r) is Some
}

/// Whether syn reads the text as an integer literal (with `base10_parse::<u64>` after it).
pub open spec fn is_int_u64(r: Seq<char>) -> bool {
    lit_int_u64(r) is Some
}

/// The model of a parsed `seq!` invocation.
pub struct SeqInputView {
    pub n: Seq<char>,
    pub start: Seq<char>,
    pub end: Seq<char>,
    pub body: Seq<Tree>,
}

/// The stream inside a group tree (empty for any other tree).
pub open spec fn group_contents(t: Tree) -> Seq<Tree> {
    match t {
        Tree::Group(_, inner) => inner,
        _ => Seq::empty(),
    }
}

/// `N in a..b { body }` and nothing after it; the body is the whole contents of the braces.
pub open spec fn parse_seq_input(s: Seq<Tree>) -> Result<SeqInputView, ParseError> {
    match parse_header(s, |r: Seq<char>| is_int_i32(r)) {
        Err(e) => Err(e),
        Ok((n, r1, r2, p)) => {
            if !braces_at(s, p) {
                Err(ParseError::ExpectedBraces(p as usize))
            } else if p + 1 != s.len() {
                Err(ParseError::UnexpectedToken((p + 1) as usize))
            } else {
                Ok(SeqInputView { n, start: r1, end: r2, body: group_contents(s[p]) })
            }
        },
    }
}

/// `N in a..b {}` and nothing after it: the braces must be empty, since their contents are
/// not parsed.
pub open spec fn parse_seq_header(s: Seq<Tree>) -> Result<SeqInputView, ParseError> {
    match parse_header(s, |r: Seq<char>| is_int_u64(r)) {
        Err(e) => Err(e),
        Ok((n, r1, r2, p)) => {
            if !braces_at(s, p) {
                Err(ParseError::ExpectedBraces(p as usize))
            } else if p + 1 != s.len() {
                Err(ParseError::UnexpectedToken((p + 1) as usize))
            } else if group_contents(s[p]).len() != 0 {
                Err(ParseError::UnexpectedToken(p as usize))
            } else {
                Ok(SeqInputView { n, start: r1, end: r2, body: Seq::empty() })
            }
        },
    }
}

/// A parsed `seq!` invocation: the loop variable, the texts of the two integer literals that
/// bound the range, and the body inside the braces.
pub struct SeqInput {
    pub n: String,
    pub start: String,
    pub end: String,
    pub brace_in: Vec<TokenTree>,
}

impl SeqInput {
    /// The model of a parsed invocation.
    pub open spec fn view(&self) -> SeqInputView {
        SeqInputView { n: self.n@, start: self.start@, end: self.end@, body: trees_view(self.brace_in@) }
    }

    /// Parses `N in a..b { body }`, as `parse_seq_input` states of the input with its groups
    /// without delimiters opened (syn's cursor reads through them).
    pub fn parse(input: &Vec<TokenTree>) -> (res: Result<SeqInput, ParseError>)
        ensures
            match res {
                Ok(si) => parse_seq_input(visible(trees_view(input@))) == Ok::<SeqInputView, ParseError>(si.view()),
                Err(e) => parse_seq_input(visible(trees_view(input@))) == Err::<SeqInputView, ParseError>(e),
            },
    {
        SeqInput::parse_opened(&visible_stream(input))
    }

    /// Parses `N in a..b {}`, as `parse_seq_header` states of the input with its groups without
    /// delimiters opened; the bounds are read as `u64`.
    pub fn parse_header(input: &Vec<TokenTree>) -> (res: Result<SeqInput, ParseError>)
        ensures
            match res {
                Ok(si) => parse_seq_header(visible(trees_view(input@))) == Ok::<SeqInputView, ParseError>(si.view()),
                Err(e) => parse_seq_header(visible(trees_view(input@))) == Err::<SeqInputView, ParseError>(e),
            },
    {
        SeqInput::parse_header_opened(&visible_stream(input))
    }

    /// Parses `N in a..b { body }` on a stream read as syn reads it, as `parse_seq_input`
    /// states.
    fn parse_opened(input: &Vec<TokenTree>) -> (res: Result<SeqInput, ParseError>)
        ensures
            match res {
                Ok(si) => parse_seq_input(trees_view(input@)) == Ok::<SeqInputView, ParseError>(si.view()),
                Err(e) => parse_seq_input(trees_view(input@)) == Err::<SeqInputView, ParseError>(e),
            },
    {
        let ghost s = trees_view(input@);
        match parse_header_exec(input, true) {
            Err(e) => Err(e),
            Ok((n, start, end, p)) => {
                if p >= input.len() || !input[p].is_brace_group() {
                    Err(ParseError::ExpectedBraces(p))
                } else if p + 1 != input.len() {
                    assert(s[p as int] == tree_view(input@[p as int]));
                    Err(ParseError::UnexpectedToken(p + 1))
                } else {
                    assert(s[p as int] == tree_view(input@[p as int]));
                    match &input[p] {
                        TokenTree::Group(_, content) => {
                            let brace_in = clone_stream(content);
                            Ok(SeqInput { n, start, end, brace_in })
                        },
                        _ => Err(ParseError::ExpectedBraces(p)),
                    }
                }
            },
        }
    }

    /// Parses `N in a..b {}` on a stream read as syn reads it, as `parse_seq_header` states.
    fn parse_header_opened(input: &Vec<TokenTree>) -> (res: Result<SeqInput, ParseError>)
        ensures
            match res {
                Ok(si) => parse_seq_header(trees_view(input@)) == Ok::<SeqInputView, ParseError>(si.view()),
                Err(e) => parse_seq_header(trees_view(input@)) == Err::<SeqInputView, ParseError>(e),
            },
    {
        let ghost s = trees_view(input@);
        match parse_header_exec(input, false) {
            Err(e) => Err(e),
            Ok((n, start, end, p)) => {
                if p >= input.len() || !input[p].is_brace_group() {
                    Err(ParseError::ExpectedBraces(p))
                } else {
                    assert(s[p as int] == tree_view(input@[p as int]));
                    match &input[p] {
                        TokenTree::Group(_, content) => {
                            if p + 1 != input.len() {
                                Err(ParseError::UnexpectedToken(p + 1))
                            } else if content.len() != 0 {
                                Err(ParseError::UnexpectedToken(p))
                            } else {
                                let brace_in: Vec<TokenTree> = Vec::new();
                                assert(trees_view(brace_in@) =~= Seq::<Tree>::empty());
                                Ok(SeqInput { n, start, end, brace_in })
                            }
                        },
                        _ => Err(ParseError::ExpectedBraces(p)),
                    }
                }
            },
        }
    }
}

/// The candidate integer literal at `i`, as `int_lit_repr_at` states.
fn int_lit_repr_exec(input: &Vec<TokenTree>, i: usize) -> (res: Option<(String, usize)>)
    ensures
        match res {
            Some((r, p)) => int_lit_repr_at(trees_view(input@), i as int) == Some((r@, p as int)),
            None => int_lit_repr_at(trees_view(input@), i as int) is None,
        },
{
    let ghost s = trees_view(input@);
    if i < input.len() {
        assert(s[i as int] == tree_view(input@[i as int]));
    }
    if i < input.len() && i + 1 < input.len() {
        assert(s[i + 1] == tree_view(input@[i + 1]));
    }
    if i < input.len() && input[i].is_literal() {
        match &input[i] {
            TokenTree::Literal(x) => Some((x.clone(), i + 1)),
            _ => None,
        }
    } else if i < input.len() && i + 1 < input.len() && input[i].is_punct() && input[i].punct_char() == '-'
        && input[i + 1].is_literal() {
        match &input[i + 1] {
            TokenTree::Literal(x) => {
                let mut r = String::from_str("-");
                proof {
                    reveal_strlit("-");
                    assert("-"@ =~= seq!['-']);
                }
                r.append(x.as_str());
                Some((r, i + 2))
            },
            _ => None,
        }
    } else {
        None
    }
}

/// Whether syn reads the text as an integer literal, for the bound type chosen by `signed`.
fn is_int_exec(r: &String, signed: bool) -> (b: bool)
    ensures
        b == (if signed { is_int_i32(r@) } else { is_int_u64(r@) }),
{
    if signed {
        int_literal_i32(r).is_some()
    } else {
        int_literal_u64(r).is_some()
    }
}

/// Parses the header `N in a..b`, as `parse_header` states; `signed` chooses `i32` bounds
/// (else `u64`).
fn parse_header_exec(input: &Vec<TokenTree>, signed: bool) -> (res: Result<(String, String, String, usize), ParseError>)
    ensures
        ({
            let spec_res = if signed {
                parse_header(trees_view(input@), |r: Seq<char>| is_int_i32(r))
            } else {
                parse_header(trees_view(input@), |r: Seq<char>| is_int_u64(r))
            };
            match res {
                Ok((n, r1, r2, p)) => spec_res == Ok::<(Seq<char>, Seq<char>, Seq<char>, int), ParseError>((n@, r1@, r2@, p as int)),
                Err(e) => spec_res == Err::<(Seq<char>, Seq<char>, Seq<char>, int), ParseError>(e),
            }
        }),
{
    let ghost s = trees_view(input@);
    let ghost is_int = if signed { |r: Seq<char>| is_int_i32(r) } else { |r: Seq<char>| is_int_u64(r) };
    assert(parse_header(s, is_int) == if signed {
        parse_header(trees_view(input@), |r: Seq<char>| is_int_i32(r))
    } else {
        parse_header(trees_view(input@), |r: Seq<char>| is_int_u64(r))
    });
    if input.len() > 0 {
        assert(s[0] == tree_view(input@[0]));
    }
    if input.len() > 1 {
        assert(s[1] == tree_view(input@[1]));
    }
    let n = match input.len() > 0 {
        true => match &input[0] {
            TokenTree::Ident(x) => {
                if ident_accepted(x) {
                    x.clone()
                } else {
                    return Err(ParseError::ExpectedIdent(0));
                }
            },
            _ => return Err(ParseError::ExpectedIdent(0)),
        },
        false => return Err(ParseError::ExpectedIdent(0)),
    };
    proof {
        reveal_strlit("in");
        assert("in"@ =~= in_text());
    }
    if !(input.len() > 1 && input[1].ident_text_is("in")) {
        return Err(ParseError::ExpectedIn(1));
    }
    let (r1, p1) = match int_lit_repr_exec(input, 2) {
        None => return Err(ParseError::ExpectedIntLiteral(2)),
        Some(x) => x,
    };
    if !is_int_exec(&r1, signed) {
        return Err(ParseError::ExpectedIntLiteral(2));
    }
    if p1 < input.len() {
        assert(s[p1 as int] == tree_view(input@[p1 as int]));
    }
    if p1 < input.len() && p1 + 1 < input.len() {
        assert(s[p1 + 1] == tree_view(input@[p1 + 1]));
    }
    if !(p1 < input.len() && p1 + 1 < input.len() && input[p1].is_joint_punct('.') && input[p1 + 1].is_punct()
        && input[p1 + 1].punct_char() == '.') {
        return Err(ParseError::ExpectedDotDot(p1));
    }
    let (r2, p2) = match int_lit_repr_exec(input, p1 + 2) {
        None => return Err(ParseError::ExpectedIntLiteral(p1 + 2)),
        Some(x) => x,
    };
    if !is_int_exec(&r2, signed) {
        return Err(ParseError::ExpectedIntLiteral(p1 + 2));
    }
    Ok((n, r1, r2, p2))
}

/// The index of the end bound's first token, as `end_bound_at` states, in an input whose
/// header parses once its groups without delimiters are opened.
pub fn end_bound_index(input: &Vec<TokenTree>) -> (p: usize)
    requires
        int_lit_repr_at(visible(trees_view(input@)), START_BOUND_AT as int) matches Some((_, p1))
            && p1 + 2 < visible(trees_view(input@)).len(),
    ensures
        p as int == end_bound_at(visible(trees_view(input@))),
{
    let opened = visible_stream(input);
    match int_lit_repr_exec(&opened, START_BOUND_AT) {
        Some((_, p1)) => p1 + 2,
        None => 0,
    }
}

/// Where an invocation parses, its end bound stands after its start bound, inside the input.
pub proof fn lemma_parsed_bounds(s: Seq<Tree>)
    requires
        parse_seq_input(s) is Ok || parse_seq_header(s) is Ok,
    ensures
        int_lit_repr_at(s, START_BOUND_AT as int) matches Some((_, p1)) && p1 + 2 < s.len(),
{
}

} // verus!
