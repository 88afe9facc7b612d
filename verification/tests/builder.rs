use workshop_macros::token::{Delimiter, Spacing, TokenTree};
use workshop_macros::builder::model::{
    Data, DeriveInput, Field, Fields, GenericArgument, Meta, PathArguments, PathSegment, Type, TypeKind,
};
use workshop_macros::builder::fields::{
    first_arg_exists_exec, get_fields_with_ident, get_vec_inner_ty, is_field_an_option, is_field_an_option_ty,
    is_path_type,
};
use workshop_macros::builder::attrs::{
    has_field_builder_attr, has_field_builder_attr_checked, ident_new_ok, BuilderMeta, MetaError,
};
use workshop_macros::builder::method_chaining;
use workshop_macros::builder::optional_field;
use workshop_macros::builder::repeated_field;

fn b_is_punct_char(c: char) -> bool {
    !(c.is_whitespace() || c.is_alphanumeric() || c == '_' || c == '"' || "()[]{}".contains(c))
}

fn b_lex_into(cs: &[char], pos: &mut usize, close: Option<char>) -> Vec<TokenTree> {
    let mut out = Vec::new();
    while *pos < cs.len() {
        let c = cs[*pos];
        if c.is_whitespace() {
            *pos += 1;
        } else if Some(c) == close {
            *pos += 1;
            return out;
        } else if c == '(' || c == '[' || c == '{' {
            *pos += 1;
            let (d, cl) = match c {
                '(' => (Delimiter::Parenthesis, ')'),
                '[' => (Delimiter::Bracket, ']'),
                _ => (Delimiter::Brace, '}'),
            };
            let inner = b_lex_into(cs, pos, Some(cl));
            out.push(TokenTree::Group(d, inner));
        } else if c == '"' {
            let start = *pos;
            *pos += 1;
            while cs[*pos] != '"' {
                *pos += 1;
            }
            *pos += 1;
            out.push(TokenTree::Literal(cs[start..*pos].iter().collect()));
        } else if c.is_alphabetic() || c == '_' {
            let start = *pos;
            while *pos < cs.len() && (cs[*pos].is_alphanumeric() || cs[*pos] == '_') {
                *pos += 1;
            }
            out.push(TokenTree::Ident(cs[start..*pos].iter().collect()));
        } else if c.is_ascii_digit() {
            let start = *pos;
            while *pos < cs.len() && (cs[*pos].is_alphanumeric() || cs[*pos] == '_') {
                *pos += 1;
            }
            out.push(TokenTree::Literal(cs[start..*pos].iter().collect()));
        } else {
            *pos += 1;
            let joint = *pos < cs.len() && b_is_punct_char(cs[*pos]);
            out.push(TokenTree::Punct(c, if joint { Spacing::Joint } else { Spacing::Alone }));
        }
    }
    out
}

fn b_lex(src: &str) -> Vec<TokenTree> {
    let cs: Vec<char> = src.chars().collect();
    let mut pos = 0;
    b_lex_into(&cs, &mut pos, None)
}

fn b_render(ts: &[TokenTree]) -> String {
    let mut out = String::new();
    let mut glue = true;
    for t in ts {
        if !glue {
            out.push(' ');
        }
        glue = false;
        match t {
            TokenTree::Ident(s) | TokenTree::Literal(s) => out.push_str(s),
            TokenTree::Punct(c, sp) => {
                out.push(*c);
                glue = *sp == Spacing::Joint;
            }
            TokenTree::Group(d, inner) => {
                let (o, c) = match d {
                    Delimiter::Parenthesis => ("(", ")"),
                    Delimiter::Brace => ("{", "}"),
                    Delimiter::Bracket => ("[", "]"),
                    Delimiter::Invisible => ("", ""),
                };
                let r = b_render(inner);
                if r.is_empty() {
                    out.push_str(&format!("{} {}", o, c));
                } else {
                    out.push_str(&format!("{} {} {}", o, r, c));
                }
            }
        }
    }
    out
}

fn plain_ty(name: &str) -> Type {
    Type {
        tokens: b_lex(name),
        kind: TypeKind::Path(Some(PathSegment { ident: name.to_string(), arguments: PathArguments::NoArguments })),
    }
}

fn generic_ty(outer: &str, inner: &str) -> Type {
    Type {
        tokens: b_lex(&format!("{}<{}>", outer, inner)),
        kind: TypeKind::Path(Some(PathSegment {
            ident: outer.to_string(),
            arguments: PathArguments::AngleBracketed(vec![GenericArgument::Type(b_lex(inner))]),
        })),
    }
}

fn field(name: &str, ty: Type, attrs: Vec<Meta>) -> Field {
    Field { ident: Some(name.to_string()), ty, attrs }
}

fn each_attr(lit: &str) -> Meta {
    Meta::List(Some("builder".to_string()), b_lex(&format!("each = {}", lit)))
}

fn struct_input(name: &str, fields: Vec<Field>) -> DeriveInput {
    DeriveInput { ident: name.to_string(), data: Data::Struct(Fields::Named(fields)) }
}

#[test]
fn chained_derive_emits_the_whole_builder() {
    let input = struct_input("Command", vec![field("executable", plain_ty("String"), vec![])]);
    let out = b_render(&method_chaining::derive(&input));
    let expected = [
        "use std :: error :: Error ;",
        "impl Command { pub fn builder ( ) -> CommandBuilder { CommandBuilder { _executable : None , } } }",
        "pub struct CommandBuilder { _executable : Option < String > , }",
        "impl CommandBuilder { fn executable ( & mut self , executable : String ) -> & mut Self \
         { self . _executable = Some ( executable ) ; self }",
        "pub fn build ( & mut self ) -> Result < Command , Box < dyn Error >> { let st = Command \
         { executable : self . _executable . take ( ) . ok_or ( format ! ( \"Field {} is not set\" , \
         stringify ! ( executable ) ) ) ? , } ; Ok ( st ) } }",
    ]
    .join(" ");
    assert_eq!(out, expected);
}

#[test]
fn chained_derive_handles_every_field_in_order() {
    let input = struct_input(
        "Command",
        vec![field("executable", plain_ty("String"), vec![]), field("args", generic_ty("Vec", "String"), vec![])],
    );
    let out = b_render(&method_chaining::derive(&input));
    assert!(out.contains("CommandBuilder { _executable : None , _args : None , }"));
    assert!(out.contains("{ _executable : Option < String > , _args : Option < Vec < String > > , }"));
    assert!(out.contains("fn args ( & mut self , args : Vec < String > ) -> & mut Self"));
}

#[test]
fn raw_field_and_struct_names_lose_their_prefix_in_the_builder() {
    let input = struct_input("r#Cmd", vec![field("r#type", plain_ty("u8"), vec![])]);
    let out = b_render(&method_chaining::derive(&input));
    assert!(out.contains("pub struct CmdBuilder { _type : Option < u8 > , }"));
    assert!(out.contains("fn r#type ( & mut self , r#type : u8 )"));
}

#[test]
fn fields_build_is_the_body_of_build() {
    let data = Data::Struct(Fields::Named(vec![
        field("a", plain_ty("u8"), vec![]),
        Field { ident: None, ty: plain_ty("u16"), attrs: vec![] },
    ]));
    let out = b_render(&method_chaining::fields_build(&data));
    assert_eq!(
        out,
        "a : self . _a . take ( ) . ok_or ( format ! ( \"Field {} is not set\" , stringify ! ( a ) ) ) ? ,"
    );
    let input = DeriveInput { ident: "S".to_string(), data };
    assert!(b_render(&method_chaining::derive(&input)).contains(&format!("let st = S {{ {} }}", out)));
}

#[test]
fn get_fields_with_ident_keeps_named_fields_only() {
    let data = Data::Struct(Fields::Named(vec![
        field("a", plain_ty("u8"), vec![]),
        Field { ident: None, ty: plain_ty("u16"), attrs: vec![] },
        field("b", plain_ty("u32"), vec![]),
    ]));
    let fs = get_fields_with_ident(&data);
    assert_eq!(fs.len(), 2);
    assert_eq!(fs[0].ident.as_deref(), Some("a"));
    assert_eq!(fs[1].ident.as_deref(), Some("b"));
}

#[test]
fn optional_derive_keeps_option_fields_optional() {
    let input = struct_input(
        "Command",
        vec![field("executable", plain_ty("String"), vec![]), field("current_dir", generic_ty("Option", "String"), vec![])],
    );
    let out = b_render(&optional_field::derive(&input));
    assert!(out.contains("{ _executable : Option < String > , _current_dir : Option < String > , }"));
    assert!(out.contains(
        "fn current_dir ( & mut self , current_dir : String ) -> & mut Self { self . _current_dir = Some ( current_dir ) ; self }"
    ));
    assert!(out.contains("current_dir : self . _current_dir . take ( ) , }"));
}

#[test]
fn optional_derive_without_option_fields_is_the_chained_derive() {
    let input = struct_input(
        "Command",
        vec![field("executable", plain_ty("String"), vec![]), field("args", generic_ty("Vec", "String"), vec![])],
    );
    assert_eq!(b_render(&optional_field::derive(&input)), b_render(&method_chaining::derive(&input)));
}

#[test]
fn repeated_derive_sets_marked_fields_one_element_at_a_time() {
    let input = struct_input(
        "Command",
        vec![
            field("args", generic_ty("Vec", "String"), vec![each_attr("\"arg\"")]),
            field("current_dir", generic_ty("Option", "String"), vec![]),
        ],
    );
    let out = b_render(&repeated_field::derive(&input));
    assert!(out.contains("CommandBuilder { _args : vec ! [ ] , _current_dir : None , }"));
    assert!(out.contains("{ _args : Vec < String > , _current_dir : Option < String > , }"));
    assert!(out.contains("fn arg ( & mut self , arg : String ) -> & mut Self { self . _args . push ( arg ) ; self }"));
    assert!(out.contains("args : std :: mem :: replace ( & mut self . _args , vec ! [ ] ) ,"));
    assert!(out.contains("current_dir : self . _current_dir . take ( ) ,"));
}

#[test]
fn repeated_derive_without_each_is_the_optional_derive() {
    let input = struct_input(
        "Command",
        vec![
            field("args", generic_ty("Vec", "String"), vec![Meta::Path]),
            field("current_dir", generic_ty("Option", "String"), vec![]),
        ],
    );
    assert_eq!(b_render(&repeated_field::derive(&input)), b_render(&optional_field::derive(&input)));
}

#[test]
fn repeated_derive_checked_refuses_what_panics() {
    let bad_name = struct_input("C", vec![field("args", generic_ty("Vec", "String"), vec![each_attr("\"1x\"")])]);
    assert!(repeated_field::derive_checked(&bad_name).is_none());
    let short = struct_input("C", vec![field("args", generic_ty("Vec", "String"), vec![each_attr("5")])]);
    assert!(repeated_field::derive_checked(&short).is_none());
    let not_struct = DeriveInput { ident: "C".to_string(), data: Data::Enum };
    assert!(repeated_field::derive_checked(&not_struct).is_none());
    let empty_option = struct_input(
        "C",
        vec![field(
            "x",
            Type {
                tokens: b_lex("Option<>"),
                kind: TypeKind::Path(Some(PathSegment {
                    ident: "Option".to_string(),
                    arguments: PathArguments::AngleBracketed(vec![]),
                })),
            },
            vec![],
        )],
    );
    assert!(repeated_field::derive_checked(&empty_option).is_none());
    let not_path = struct_input(
        "C",
        vec![field("x", Type { tokens: b_lex("[u8]"), kind: TypeKind::Other }, vec![each_attr("\"item\"")])],
    );
    assert!(repeated_field::derive_checked(&not_path).is_none());
    let fine = struct_input("C", vec![field("args", generic_ty("Vec", "String"), vec![each_attr("\"arg\"")])]);
    match repeated_field::derive_checked(&fine) {
        Some(out) => assert_eq!(b_render(&out), b_render(&repeated_field::derive(&fine))),
        None => panic!("the input is fine"),
    }
}

#[test]
fn builder_meta_parses_each_and_reports_errors() {
    match BuilderMeta::parse(&b_lex("each = \"arg\"")) {
        Ok(m) => {
            assert_eq!(m.id, "each");
            assert_eq!(m.value, "\"arg\"");
        }
        Err(e) => panic!("{:?}", e),
    }
    let e = |src: &str| BuilderMeta::parse(&b_lex(src)).err();
    assert_eq!(e("= \"arg\""), Some(MetaError::ExpectedIdent));
    assert_eq!(e("fn = \"arg\""), Some(MetaError::ExpectedIdent));
    assert_eq!(e("eac = \"arg\""), Some(MetaError::UnsupportedAttribute));
    assert_eq!(MetaError::UnsupportedAttribute.position(), 0);
    assert_eq!(MetaError::ExpectedEq.position(), 1);
    assert_eq!(MetaError::ExpectedLiteral.position(), 2);
    assert_eq!(MetaError::UnexpectedToken.position(), 3);
    assert_eq!(e("each \"arg\""), Some(MetaError::ExpectedEq));
    assert_eq!(e("each ="), Some(MetaError::ExpectedLiteral));
    assert_eq!(e("each = arg"), Some(MetaError::ExpectedLiteral));
    assert_eq!(e("each = \"arg\" x"), Some(MetaError::UnexpectedToken));
}

#[test]
fn field_builder_attr_reads_the_first_each() {
    let f = field(
        "args",
        generic_ty("Vec", "String"),
        vec![Meta::NameValue, Meta::List(Some("serde".to_string()), b_lex("each = \"no\"")), each_attr("\"arg\""), each_attr("\"other\"")],
    );
    assert_eq!(has_field_builder_attr(&f), Some("arg".to_string()));
    let g = field("args", generic_ty("Vec", "String"), vec![Meta::List(Some("builder".to_string()), b_lex("eac = \"arg\""))]);
    assert_eq!(has_field_builder_attr(&g), None);
}

#[test]
fn field_builder_attr_checked_refuses_literals_that_are_not_identifiers() {
    let name = |lit: &str| has_field_builder_attr_checked(&field("x", plain_ty("u8"), vec![each_attr(lit)]));
    assert_eq!(name("\"item\""), Some(Some("item".to_string())));
    assert_eq!(name("\"\""), None);
    assert_eq!(name("\"1x\""), None);
    assert_eq!(name("7"), None);
    assert_eq!(has_field_builder_attr_checked(&field("x", plain_ty("u8"), vec![])), Some(None));
}

#[test]
fn ident_new_ok_follows_the_identifier_rules() {
    assert!(ident_new_ok(&"arg".to_string()));
    assert!(ident_new_ok(&"_".to_string()));
    assert!(ident_new_ok(&"été".to_string()));
    assert!(!ident_new_ok(&"".to_string()));
    assert!(!ident_new_ok(&"12".to_string()));
    assert!(!ident_new_ok(&"1x".to_string()));
    assert!(!ident_new_ok(&"a-b".to_string()));
    assert!(!ident_new_ok(&"r#a".to_string()));
}

#[test]
fn option_and_vec_types_are_recognised() {
    let opt = field("x", generic_ty("Option", "u8"), vec![]);
    let plain = field("y", plain_ty("u8"), vec![]);
    assert!(is_field_an_option(&opt));
    assert!(!is_field_an_option(&plain));
    assert_eq!(is_field_an_option_ty(&opt).map(|t| b_render(&t)), Some("u8".to_string()));
    assert!(is_field_an_option_ty(&plain).is_none());
    let v = generic_ty("Vec", "Vec<u8>");
    assert_eq!(get_vec_inner_ty(&v).map(|t| b_render(&t)), Some("Vec < u8 >".to_string()));
    assert!(get_vec_inner_ty(&plain_ty("String")).is_none());
    assert!(is_path_type(&v));
    assert!(!is_path_type(&Type { tokens: b_lex("[u8]"), kind: TypeKind::Other }));
    let empty = Type {
        tokens: b_lex("Vec<>"),
        kind: TypeKind::Path(Some(PathSegment { ident: "Vec".to_string(), arguments: PathArguments::AngleBracketed(vec![]) })),
    };
    assert!(!first_arg_exists_exec(&empty, "Vec"));
    assert!(first_arg_exists_exec(&empty, "Option"));
}

#[test]
fn derive_tokens_parses_the_item_with_syn() {
    let src = "struct Command { executable: String, #[builder(each = \"arg\")] args: Vec<String>, current_dir: Option<String> }";
    let model = struct_input(
        "Command",
        vec![
            field("executable", plain_ty("String"), vec![]),
            field("args", generic_ty("Vec", "String"), vec![each_attr("\"arg\"")]),
            field("current_dir", generic_ty("Option", "String"), vec![]),
        ],
    );
    let tokens = b_lex(src);
    match method_chaining::derive_tokens(&tokens) {
        Ok(Some(out)) => assert_eq!(b_render(&out), b_render(&method_chaining::derive(&model))),
        _ => panic!("a struct with named fields"),
    }
    match optional_field::derive_tokens(&tokens) {
        Ok(Some(out)) => assert_eq!(b_render(&out), b_render(&optional_field::derive(&model))),
        _ => panic!("a struct with named fields"),
    }
    match repeated_field::derive_tokens(&tokens) {
        Ok(Some(out)) => assert_eq!(b_render(&out), b_render(&repeated_field::derive(&model))),
        _ => panic!("a struct with named fields"),
    }
}

#[test]
fn derive_tokens_reports_what_is_not_parsed_or_not_supported() {
    assert!(method_chaining::derive_tokens(&b_lex("fn f() {}")).is_err());
    assert!(repeated_field::derive_tokens(&b_lex("struct")).is_err());
    assert!(matches!(method_chaining::derive_tokens(&b_lex("struct T(u8);")), Ok(None)));
    assert!(matches!(method_chaining::derive_tokens(&b_lex("enum E { A }")), Ok(None)));
    assert!(matches!(optional_field::derive_tokens(&b_lex("struct S { x: Option<> }")), Ok(None)));
    assert!(matches!(repeated_field::derive_tokens(&b_lex("struct S { #[builder(each = \"1x\")] x: Vec<u8> }")), Ok(None)));
}

#[test]
fn builder_meta_reads_through_groups_without_delimiters() {
    let mut input = b_lex("each =");
    input.push(TokenTree::Group(Delimiter::Invisible, b_lex("\"arg\"")));
    match BuilderMeta::parse(&input) {
        Ok(m) => assert_eq!(m.value, "\"arg\""),
        Err(e) => panic!("{:?}", e),
    }
}
