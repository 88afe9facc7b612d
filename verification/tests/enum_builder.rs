use workshop_macros::token::{Delimiter, Spacing, TokenTree};
use workshop_macros::enum_builder::model::{FnArg, GenericParam, ItemTrait, TraitFn, TraitItem};
use workshop_macros::enum_builder::fn_args::{enum_build, enum_build_checked};
use workshop_macros::enum_builder::names::{insert_name, text_less};
use workshop_macros::enum_builder::decls::enum_build_tokens;

fn e_render(ts: &[TokenTree]) -> String {
    let mut out = String::new();
    let mut glue = true;
    for t in ts {
        if !glue {
            out.push(' ');
        }
        glue = false;
        match t {
            TokenTree::Ident(s) | TokenTree::Literal(s) => out.push_str(s),
            TokenTree::Punct(c, sp) => {
                out.push(*c);
                glue = *sp == Spacing::Joint;
            }
            TokenTree::Group(d, inner) => {
                let (o, c) = match d {
                    Delimiter::Parenthesis => ("(", ")"),
                    Delimiter::Brace => ("{", "}"),
                    Delimiter::Bracket => ("[", "]"),
                    Delimiter::Invisible => ("", ""),
                };
                let r = e_render(inner);
                if r.is_empty() {
                    out.push_str(&format!("{} {}", o, c));
                } else {
                    out.push_str(&format!("{} {} {}", o, r, c));
                }
            }
        }
    }
    out
}

fn ty(name: &str) -> FnArg {
    FnArg::Typed(vec![TokenTree::Ident(name.to_string())])
}

fn vec_ty(inner: &str) -> FnArg {
    FnArg::Typed(vec![
        TokenTree::Ident("Vec".to_string()),
        TokenTree::Punct('<', Spacing::Alone),
        TokenTree::Ident(inner.to_string()),
        TokenTree::Punct('>', Spacing::Alone),
    ])
}

fn method(name: &str, generics: &[&str], inputs: Vec<FnArg>) -> TraitItem {
    let mut generic_params: Vec<GenericParam> =
        generics.iter().map(|g| GenericParam::Type(g.to_string())).collect();
    generic_params.push(GenericParam::Other);
    TraitItem::Fn(TraitFn { ident: name.to_string(), generic_params, inputs })
}

#[test]
fn enum_build_collects_methods_and_generics() {
    let decls = vec![
        ItemTrait {
            items: vec![
                method("foo", &["T", "A"], vec![FnArg::Receiver, ty("u32"), ty("T")]),
                TraitItem::Other,
                method("bar", &["B", "A"], vec![vec_ty("B")]),
            ],
        },
        ItemTrait { items: vec![method("baz", &[], vec![FnArg::Receiver])] },
    ];
    let out = e_render(&enum_build(&decls));
    assert_eq!(
        out,
        "enum FnArgs < Data : DataTrait , A , B , T > { fooArg ( u32 , T ) , barArg ( Vec < B > ) , bazArg ( ) , }"
    );
}

#[test]
fn enum_build_on_no_declarations() {
    let out = e_render(&enum_build(&vec![]));
    assert_eq!(out, "enum FnArgs < Data : DataTrait , > { }");
}

#[test]
fn enum_build_orders_generics_as_strings() {
    let decls = vec![ItemTrait { items: vec![method("f", &["b", "Z", "a", "Z", "B"], vec![])] }];
    let out = e_render(&enum_build(&decls));
    assert_eq!(out, "enum FnArgs < Data : DataTrait , B , Z , a , b > { fArg ( ) , }");
}

#[test]
fn enum_build_checked_refuses_raw_method_names() {
    let bad = vec![ItemTrait { items: vec![method("ok", &[], vec![]), method("r#type", &[], vec![])] }];
    assert!(enum_build_checked(&bad).is_none());
    let good = vec![ItemTrait { items: vec![method("ok", &["T"], vec![ty("T")])] }];
    match enum_build_checked(&good) {
        Some(out) => assert_eq!(e_render(&out), "enum FnArgs < Data : DataTrait , T > { okArg ( T ) , }"),
        None => panic!("the names are identifiers"),
    }
}

#[test]
fn text_less_is_the_order_of_strings() {
    let s = |x: &str| x.to_string();
    assert!(text_less(&s("A"), &s("B")));
    assert!(text_less(&s("Z"), &s("a")));
    assert!(text_less(&s("ab"), &s("abc")));
    assert!(!text_less(&s("abc"), &s("ab")));
    assert!(!text_less(&s("x"), &s("x")));
    assert!(text_less(&s("z"), &s("é")));
    assert_eq!(text_less(&s("T1"), &s("T10")), s("T1") < s("T10"));
}

#[test]
fn insert_name_keeps_keys_sorted_and_unique() {
    let mut keys: Vec<String> = Vec::new();
    for n in ["m", "c", "x", "c", "a", "m"] {
        insert_name(&mut keys, n.to_string());
    }
    assert_eq!(keys, vec!["a".to_string(), "c".to_string(), "m".to_string(), "x".to_string()]);
}

fn e_lex_words(src: &str) -> Vec<TokenTree> {
    let mut stack: Vec<(Delimiter, Vec<TokenTree>)> = vec![(Delimiter::Invisible, Vec::new())];
    let cs: Vec<char> = src.chars().collect();
    let mut i = 0;
    while i < cs.len() {
        let c = cs[i];
        if c.is_whitespace() {
            i += 1;
        } else if "([{".contains(c) {
            let d = match c { '(' => Delimiter::Parenthesis, '[' => Delimiter::Bracket, _ => Delimiter::Brace };
            stack.push((d, Vec::new()));
            i += 1;
        } else if ")]}".contains(c) {
            let (d, inner) = stack.pop().unwrap();
            stack.last_mut().unwrap().1.push(TokenTree::Group(d, inner));
            i += 1;
        } else if c.is_alphanumeric() || c == '_' {
            let start = i;
            while i < cs.len() && (cs[i].is_alphanumeric() || cs[i] == '_') {
                i += 1;
            }
            let word: String = cs[start..i].iter().collect();
            let t = if c.is_ascii_digit() { TokenTree::Literal(word) } else { TokenTree::Ident(word) };
            stack.last_mut().unwrap().1.push(t);
        } else {
            i += 1;
            let joint = i < cs.len() && !(cs[i].is_whitespace() || cs[i].is_alphanumeric() || "()[]{}_".contains(cs[i]));
            stack.last_mut().unwrap().1.push(TokenTree::Punct(c, if joint { Spacing::Joint } else { Spacing::Alone }));
        }
    }
    stack.pop().unwrap().1
}

#[test]
fn enum_build_tokens_reads_trait_declarations_with_syn() {
    let tokens = e_lex_words(
        "trait Foo { fn foo<B>(a: u64, b: B); fn bar<B>(c: bool, d: <Data as DataTrait>::Embedded, e: B); } \
         trait Bar { const C: u8; fn baz<A>(&self, x: Vec<A>); }",
    );
    match enum_build_tokens(&tokens) {
        Ok(Some(out)) => assert_eq!(
            e_render(&out),
            "enum FnArgs < Data : DataTrait , A , B > { fooArg ( u64 , B ) , barArg ( bool , < Data as DataTrait > :: Embedded , B ) , bazArg ( Vec < A > ) , }"
        ),
        _ => panic!("trait declarations"),
    }
}

#[test]
fn enum_build_tokens_refuses_what_is_not_a_trait() {
    assert!(matches!(enum_build_tokens(&e_lex_words("struct S;")), Err(m) if m == "expected `trait`"));
    assert!(enum_build_tokens(&e_lex_words("trait A {} fn f() {}")).is_err());
    match enum_build_tokens(&e_lex_words("")) {
        Ok(Some(out)) => assert_eq!(e_render(&out), "enum FnArgs < Data : DataTrait , > { }"),
        _ => panic!("no declaration is fine"),
    }
    let raw_name = vec![
        TokenTree::Ident("trait".to_string()),
        TokenTree::Ident("A".to_string()),
        TokenTree::Group(
            Delimiter::Brace,
            vec![
                TokenTree::Ident("fn".to_string()),
                TokenTree::Ident("r#type".to_string()),
                TokenTree::Group(Delimiter::Parenthesis, vec![]),
                TokenTree::Punct(';', Spacing::Alone),
            ],
        ),
    ];
    assert!(matches!(enum_build_tokens(&raw_name), Ok(None)));
}

#[test]
fn enum_build_tokens_reads_through_a_group_without_delimiters() {
    let inner = e_lex_words("trait A { fn f<T>(x: T); } trait B { fn g(y: u8); }");
    let tokens = vec![TokenTree::Group(Delimiter::Invisible, inner)];
    match enum_build_tokens(&tokens) {
        Ok(Some(out)) => assert_eq!(e_render(&out), "enum FnArgs < Data : DataTrait , T > { fArg ( T ) , gArg ( u8 ) , }"),
        _ => panic!("two traits inside a group without delimiters"),
    }
}
