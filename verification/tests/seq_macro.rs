use workshop_macros::token::{Delimiter, Spacing, TokenTree};
use workshop_macros::seq_macro::expand::{
    check_repeat_pastes, check_v3_pastes, detect_partial_repeat, expand_n, expand_n_v2, expand_n_v3,
};
use workshop_macros::seq_macro::expand_four_errors;
use workshop_macros::seq_macro::input::{base10_i32, base10_u64, Bound, ParseError, SeqError, SeqInput};
use workshop_macros::seq_macro::parse_header;
use workshop_macros::seq_macro::repeat_section;

fn is_punct_char(c: char) -> bool {
    !(c.is_whitespace() || c.is_alphanumeric() || c == '_' || c == '"' || "()[]{}".contains(c))
}

fn lex_into(cs: &[char], pos: &mut usize, close: Option<char>) -> Vec<TokenTree> {
    let mut out = Vec::new();
    while *pos < cs.len() {
        let c = cs[*pos];
        if c.is_whitespace() {
            *pos += 1;
        } else if Some(c) == close {
            *pos += 1;
            return out;
        } else if c == '(' || c == '[' || c == '{' {
            *pos += 1;
            let (d, cl) = match c {
                '(' => (Delimiter::Parenthesis, ')'),
                '[' => (Delimiter::Bracket, ']'),
                _ => (Delimiter::Brace, '}'),
            };
            let inner = lex_into(cs, pos, Some(cl));
            out.push(TokenTree::Group(d, inner));
        } else if c == '"' {
            let start = *pos;
            *pos += 1;
            while cs[*pos] != '"' {
                *pos += 1;
            }
            *pos += 1;
            out.push(TokenTree::Literal(cs[start..*pos].iter().collect()));
        } else if c == 'r' && *pos + 2 < cs.len() && cs[*pos + 1] == '#' && cs[*pos + 2].is_alphabetic() {
            let start = *pos;
            *pos += 2;
            while *pos < cs.len() && (cs[*pos].is_alphanumeric() || cs[*pos] == '_') {
                *pos += 1;
            }
            out.push(TokenTree::Ident(cs[start..*pos].iter().collect()));
        } else if c.is_alphabetic() || c == '_' {
            let start = *pos;
            while *pos < cs.len() && (cs[*pos].is_alphanumeric() || cs[*pos] == '_') {
                *pos += 1;
            }
            out.push(TokenTree::Ident(cs[start..*pos].iter().collect()));
        } else if c.is_ascii_digit() {
            let start = *pos;
            while *pos < cs.len() && (cs[*pos].is_alphanumeric() || cs[*pos] == '_') {
                *pos += 1;
            }
            out.push(TokenTree::Literal(cs[start..*pos].iter().collect()));
        } else {
            *pos += 1;
            let joint = *pos < cs.len() && is_punct_char(cs[*pos]);
            out.push(TokenTree::Punct(c, if joint { Spacing::Joint } else { Spacing::Alone }));
        }
    }
    out
}

fn lex(src: &str) -> Vec<TokenTree> {
    let cs: Vec<char> = src.chars().collect();
    let mut pos = 0;
    lex_into(&cs, &mut pos, None)
}

fn render(ts: &[TokenTree]) -> String {
    let mut out = String::new();
    let mut glue = true;
    for t in ts {
        if !glue {
            out.push(' ');
        }
        glue = false;
        match t {
            TokenTree::Ident(s) | TokenTree::Literal(s) => out.push_str(s),
            TokenTree::Punct(c, sp) => {
                out.push(*c);
                glue = *sp == Spacing::Joint;
            }
            TokenTree::Group(d, inner) => {
                let (o, c) = match d {
                    Delimiter::Parenthesis => ("(", ")"),
                    Delimiter::Brace => ("{", "}"),
                    Delimiter::Bracket => ("[", "]"),
                    Delimiter::Invisible => ("", ""),
                };
                let r = render(inner);
                if r.is_empty() {
                    out.push_str(&format!("{} {}", o, c));
                } else {
                    out.push_str(&format!("{} {} {}", o, r, c));
                }
            }
        }
    }
    out
}

fn ok_text<E: std::fmt::Debug>(r: Result<Vec<TokenTree>, E>) -> String {
    match r {
        Ok(ts) => render(&ts),
        Err(e) => panic!("unexpected error {:?}", e),
    }
}

#[test]
fn expand_n_replaces_every_n_at_any_depth() {
    let out = expand_n(&lex("let x = N + f(N, [N]) ; M"), 7);
    assert_eq!(render(&out), "let x = 7 + f ( 7 , [ 7 ] ) ; M");
}

#[test]
fn expand_n_writes_negative_values_with_a_minus() {
    let out = expand_n(&lex("N"), -12);
    assert_eq!(render(&out), "-12");
    assert!(matches!(&out[0], TokenTree::Literal(_)));
}

#[test]
fn expand_n_twice_changes_nothing() {
    let s = lex("a N { N b } N");
    let once = expand_n(&s, 1);
    let twice = expand_n(&once, 2);
    assert_eq!(render(&twice), render(&once));
    assert_eq!(render(&once), "a 1 { 1 b } 1");
}

#[test]
fn expand_n_v2_pastes_the_value() {
    let out = expand_n_v2(&lex("fn f~N() -> u64 { N * 2 }"), 3);
    assert_eq!(render(&out), "fn f3 ( ) -> u64 { 3 * 2 }");
}

#[test]
fn expand_n_v2_keeps_a_tilde_before_another_ident() {
    let out = expand_n_v2(&lex("a ~ b c N"), 3);
    assert_eq!(render(&out), "a ~ b c 3");
    let v3 = expand_n_v3(&lex("a ~ b N"), 0, 2, 1);
    assert_eq!(render(&v3), "a ~ b 1");
}

#[test]
fn expand_n_v2_keeps_a_tilde_before_something_else() {
    let out = expand_n_v2(&lex("a ~ ; d"), 3);
    assert_eq!(render(&out), "a ~ ; d");
    let end = expand_n_v2(&lex("a ~"), 3);
    assert_eq!(render(&end), "a ~");
}

#[test]
fn expand_n_v2_without_tilde_is_expand_n() {
    let s = lex("struct S { x: [u8; N], y: (N, M) }");
    assert_eq!(render(&expand_n_v2(&s, 5)), render(&expand_n(&s, 5)));
}

#[test]
fn expand_n_v3_repeats_the_section_for_each_value() {
    let out = expand_n_v3(&lex("[ #( x~N , )* ] N"), 1, 4, 9);
    assert_eq!(render(&out), "[ x1 , x2 , x3 , ] 9");
}

#[test]
fn expand_n_v3_drops_the_hash_before_a_group_not_followed_by_star() {
    let out = expand_n_v3(&lex("#(a) + b"), 0, 2, 0);
    assert_eq!(render(&out), "( a ) + b");
    let end = expand_n_v3(&lex("#(a)"), 0, 2, 0);
    assert_eq!(render(&end), "( a )");
}

#[test]
fn expand_n_v3_without_hash_is_expand_n_v2() {
    let s = lex("f~N(N) ; { g~N }");
    assert_eq!(render(&expand_n_v3(&s, 0, 3, 2)), render(&expand_n_v2(&s, 2)));
}

#[test]
fn detect_partial_repeat_finds_a_section_at_any_depth() {
    assert!(detect_partial_repeat(&lex("a { b #(c)* }")));
    assert!(!detect_partial_repeat(&lex("a #(c) + b")));
    assert!(!detect_partial_repeat(&lex("a # b")));
}

#[test]
fn pastes_are_checked_for_raw_idents_and_negative_values() {
    assert!(check_v3_pastes(&lex("a~N"), 0, 3, 1));
    assert!(!check_v3_pastes(&lex("r#a~N"), 0, 3, 1));
    assert!(!check_v3_pastes(&lex("a~N"), -2, 3, -1));
    assert!(check_repeat_pastes(&lex("a~N"), 0, 3));
    assert!(!check_repeat_pastes(&lex("a~N"), -1, 3));
}

#[test]
fn base10_reads_integer_literals() {
    assert_eq!(base10_i32(&"42".to_string()), Ok(42));
    assert_eq!(base10_i32(&"-7".to_string()), Ok(-7));
    assert_eq!(base10_i32(&"0x10".to_string()), Ok(16));
    assert_eq!(base10_i32(&"5u8".to_string()), Ok(5));
    assert_eq!(base10_i32(&"3000000000".to_string()), Err("number too large to fit in target type".to_string()));
    assert_eq!(base10_u64(&"3000000000".to_string()), Ok(3000000000));
    assert_eq!(base10_u64(&"-1".to_string()), Err("invalid digit found in string".to_string()));
}

#[test]
fn parse_reads_header_and_body() {
    let si = match SeqInput::parse(&lex("N in 0..4 { x ; y }")) {
        Ok(si) => si,
        Err(e) => panic!("{:?}", e),
    };
    assert_eq!(si.n, "N");
    assert_eq!(si.start, "0");
    assert_eq!(si.end, "4");
    assert_eq!(render(&si.brace_in), "x ; y");
}

#[test]
fn parse_reports_each_error() {
    let e = |src: &str| SeqInput::parse(&lex(src)).err();
    assert_eq!(e("in 0..4 {}"), Some(ParseError::ExpectedIdent(0)));
    assert_eq!(e("_ in 0..4 {}"), Some(ParseError::ExpectedIdent(0)));
    assert_eq!(e("N on 0..4 {}"), Some(ParseError::ExpectedIn(1)));
    assert_eq!(e("N in x..4 {}"), Some(ParseError::ExpectedIntLiteral(2)));
    assert_eq!(e("N in \"a\"..4 {}"), Some(ParseError::ExpectedIntLiteral(2)));
    assert_eq!(e("N in 0 4 {}"), Some(ParseError::ExpectedDotDot(3)));
    assert_eq!(e("N in 0..=4 {}"), Some(ParseError::ExpectedIntLiteral(5)));
    assert_eq!(e("N in 0..4"), Some(ParseError::ExpectedBraces(6)));
    assert_eq!(e("N in 0..4 ( )"), Some(ParseError::ExpectedBraces(6)));
    assert_eq!(e("N in 0..4 {} x"), Some(ParseError::UnexpectedToken(7)));
}

#[test]
fn parse_header_requires_empty_braces() {
    assert!(SeqInput::parse_header(&lex("N in 0..4 {}")).is_ok());
    assert_eq!(SeqInput::parse_header(&lex("N in 0..4 { x }")).err(), Some(ParseError::UnexpectedToken(6)));
}

#[test]
fn header_seq_accepts_a_nonempty_range() {
    let out = parse_header::seq(&lex("N in 0..4 {}"));
    assert_eq!(ok_text(out), "");
}

#[test]
fn header_seq_reports_errors() {
    assert!(matches!(parse_header::seq(&lex("N in 4..4 {}")), Err(SeqError::EmptyRange(4, 4, 2))));
    assert!(matches!(parse_header::seq(&lex("N in -1..4 {}")), Err(SeqError::IntValue(Bound::Start, 2, ref m)) if m == "invalid digit found in string"));
    assert!(matches!(parse_header::seq(&lex("N in 0..18446744073709551616 {}")), Err(SeqError::IntValue(Bound::End, 5, _))));
    assert!(matches!(parse_header::seq(&lex("N in 0..4 { x }")), Err(SeqError::Parse(ParseError::UnexpectedToken(6)))));
    assert!(matches!(parse_header::seq_check_bounds(5, 2), Err(SeqError::EmptyRange(5, 2, 2))));
    assert!(matches!(parse_header::seq_check_bounds(2, 5), Ok(v) if v.is_empty()));
}

#[test]
fn plain_seq_repeats_the_body() {
    let out = expand_four_errors::seq(&lex("N in 0..3 { x + N ; }"));
    assert_eq!(ok_text(out), "x + 0 ; x + 1 ; x + 2 ;");
}

#[test]
fn plain_seq_handles_negative_bounds() {
    let out = expand_four_errors::seq(&lex("N in -2..0 { N }"));
    assert_eq!(ok_text(out), "-2 -1");
}

#[test]
fn plain_seq_reports_errors() {
    assert!(matches!(expand_four_errors::seq(&lex("N in 3..1 { N }")), Err(SeqError::EmptyRange(3, 1, 2))));
    assert!(matches!(expand_four_errors::seq(&lex("N in 0..3000000000 { N }")), Err(SeqError::IntValue(Bound::End, 5, ref m)) if m == "number too large to fit in target type"));
    assert!(matches!(expand_four_errors::seq(&lex("N in -1..4294967296 { N }")), Err(SeqError::IntValue(Bound::End, 6, _))));
    assert!(matches!(repeat_section::seq(&lex("N in 4294967296..0 { N }")), Err(SeqError::IntValue(Bound::Start, 2, _))));
    assert!(matches!(expand_four_errors::seq(&lex("N in 0..3")), Err(SeqError::Parse(ParseError::ExpectedBraces(6)))));
    assert!(matches!(expand_four_errors::seq_expand(2, 2, &lex("N")), Err(SeqError::EmptyRange(2, 2, 2))));
}

#[test]
fn repeat_section_seq_expands_sections() {
    let out = repeat_section::seq(&lex("N in 0..3 { enum E { #( V~N , )* } }"));
    assert_eq!(ok_text(out), "enum E { V0 , V1 , V2 , }");
}

#[test]
fn repeat_section_seq_repeats_a_body_without_section() {
    let out = repeat_section::seq(&lex("N in 1..3 { fn f~N() -> u64 { N } }"));
    assert_eq!(ok_text(out), "fn f1 ( ) -> u64 { 1 } fn f2 ( ) -> u64 { 2 }");
}

#[test]
fn repeat_section_seq_agrees_with_plain_seq_without_hash_or_tilde() {
    let body = lex("x [ N ] = N * 2 ;");
    let a = repeat_section::seq_expand(0, 4, &body);
    let b = expand_four_errors::seq_expand(0, 4, &body);
    assert_eq!(ok_text(a), ok_text(b));
    assert!(matches!(repeat_section::seq_expand(4, 0, &body), Err(SeqError::EmptyRange(4, 0, 2))));
}

#[test]
fn seq_checked_refuses_pastes_that_are_not_identifiers() {
    assert!(repeat_section::seq_checked(&lex("N in 0..2 { r#a~N }")).is_none());
    assert!(repeat_section::seq_checked(&lex("N in -1..1 { a~N }")).is_none());
    match repeat_section::seq_checked(&lex("N in 0..2 { a~N }")) {
        Some(r) => assert_eq!(ok_text(r), "a0 a1"),
        None => panic!("pastes are fine"),
    }
    assert!(matches!(repeat_section::seq_checked(&lex("N in 2..0 { r#a~N }")), Some(Err(SeqError::EmptyRange(2, 0, 2)))));
}

#[test]
fn expand_n_v3_with_a_hash_not_before_parentheses_is_expand_n_v2() {
    let s = lex("# [ attr ] f~N { # x N }");
    assert_eq!(render(&expand_n_v3(&s, 0, 3, 2)), render(&expand_n_v2(&s, 2)));
    assert_eq!(render(&expand_n_v3(&s, 0, 3, 2)), "# [ attr ] f2 { # x 2 }");
    let plain = lex("# [ a ] { N # b }");
    assert_eq!(render(&expand_n_v3(&plain, 5, 9, 1)), render(&expand_n(&plain, 1)));
}

#[test]
fn parse_reads_through_groups_without_delimiters() {
    let mut input = lex("N in ..4 { N }");
    input.insert(2, TokenTree::Group(Delimiter::Invisible, lex("- 1")));
    let si = match SeqInput::parse(&input) {
        Ok(si) => si,
        Err(e) => panic!("{:?}", e),
    };
    assert_eq!(si.start, "-1");
    assert_eq!(si.end, "4");
    assert_eq!(ok_text(expand_four_errors::seq(&input)), "-1 0 1 2 3");
    let mut late = lex("N in 0.. { N }");
    late.insert(5, TokenTree::Group(Delimiter::Invisible, lex("5000000000")));
    assert!(matches!(expand_four_errors::seq(&late), Err(SeqError::IntValue(Bound::End, 5, ref m)) if m == "number too large to fit in target type"));
}
