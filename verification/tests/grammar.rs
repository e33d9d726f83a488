use inkwellkit::{lex, parse_signatures, FunHdr, TokenKind, TypeExpr};

fn expr(levels: usize, name: &str) -> TypeExpr {
    TypeExpr { levels, name: name.to_string() }
}

#[test]
fn lex_splits_a_signature_into_tokens() {
    let toks = lex("open(*i8, i32, ...) -> i32;").unwrap();
    let kinds: Vec<TokenKind> = toks.iter().map(|t| t.kind).collect();
    assert_eq!(
        kinds,
        vec![
            TokenKind::Ident,
            TokenKind::Open,
            TokenKind::Star,
            TokenKind::Ident,
            TokenKind::Comma,
            TokenKind::Ident,
            TokenKind::Comma,
            TokenKind::Ellipsis,
            TokenKind::Close,
            TokenKind::Arrow,
            TokenKind::Ident,
            TokenKind::Semi,
        ]
    );
    assert_eq!((toks[0].start, toks[0].end), (0, 4));
    assert_eq!((toks[3].start, toks[3].end), (6, 8));
    assert_eq!((toks[7].start, toks[7].end), (15, 18));
    assert_eq!((toks[9].start, toks[9].end), (20, 22));
}

#[test]
fn lex_ignores_blanks_and_takes_the_longest_name() {
    let toks = lex(" \t\n vec_push_i32\r\n").unwrap();
    assert_eq!(toks.len(), 1);
    assert_eq!(toks[0].kind, TokenKind::Ident);
    assert_eq!((toks[0].start, toks[0].end), (4, 16));
    assert_eq!(lex("").unwrap().len(), 0);
    assert_eq!(lex("   ").unwrap().len(), 0);
}

#[test]
fn lex_refuses_what_starts_no_token() {
    assert!(lex("f(i32) - > i32").is_none());
    assert!(lex("f(..)").is_none());
    assert!(lex("f(. ..)").is_none());
    assert!(lex("f(i32) -").is_none());
    assert!(lex("f(&i8)").is_none());
    assert!(lex("9lives").is_none());
    assert!(lex("写(i8)").is_none());
    assert!(lex("f(i8) // note").is_none());
}

#[test]
fn pointer_markers_count_the_levels() {
    let mut text = String::from("i8");
    for n in 0..9usize {
        assert_eq!(TypeExpr::parse(&text), Some(expr(n, "i8")));
        text.insert(0, '*');
    }
    assert_eq!(TypeExpr::parse("* * vec"), Some(expr(2, "vec")));
}

#[test]
fn a_type_is_markers_and_one_name() {
    assert_eq!(TypeExpr::parse(""), None);
    assert_eq!(TypeExpr::parse("*"), None);
    assert_eq!(TypeExpr::parse("..."), None);
    assert_eq!(TypeExpr::parse("i8*"), None);
    assert_eq!(TypeExpr::parse("i8 i8"), None);
    assert_eq!(TypeExpr::parse("_"), Some(expr(0, "_")));
}

#[test]
fn signature_with_variadic_marker() {
    let hdr = FunHdr::parse("open(*i8, i32, ...) -> i32").unwrap();
    assert_eq!(
        hdr,
        FunHdr {
            name: "open".to_string(),
            args: vec![expr(1, "i8"), expr(0, "i32")],
            ret: expr(0, "i32"),
            is_var: true,
        }
    );
}

#[test]
fn signature_without_return_clause_returns_void() {
    let hdr = FunHdr::parse("tick()").unwrap();
    assert_eq!(
        hdr,
        FunHdr { name: "tick".to_string(), args: vec![], ret: expr(0, "void"), is_var: false }
    );
    let hdr = FunHdr::parse("exit(i32)").unwrap();
    assert_eq!(hdr.args, vec![expr(0, "i32")]);
    assert_eq!(hdr.ret, expr(0, "void"));
}

#[test]
fn parameter_count_is_the_list_length() {
    let cases: [(&str, usize, bool); 8] = [
        ("f()", 0, false),
        ("f(...)", 0, true),
        ("f(i8)", 1, false),
        ("f(i8,)", 1, false),
        ("f(i8, ...)", 1, true),
        ("f(*i8, **i32, usize)", 3, false),
        ("f(*i8, **i32, usize,)", 3, false),
        ("f(a, b, c, d, ...) -> *e", 4, true),
    ];
    for (text, count, variadic) in cases {
        let hdr = FunHdr::parse(text).unwrap();
        assert_eq!(hdr.args.len(), count, "{}", text);
        assert_eq!(hdr.is_var, variadic, "{}", text);
    }
}

#[test]
fn nothing_follows_the_variadic_marker() {
    assert!(FunHdr::parse("f(..., i8)").is_none());
    assert!(FunHdr::parse("f(...,)").is_none());
    assert!(FunHdr::parse("f(i8, ..., ...)").is_none());
    assert!(FunHdr::parse("f(i8, ...) -> ...").is_none());
    assert!(FunHdr::parse("f() -> ...").is_none());
}

#[test]
fn malformed_signatures_are_refused() {
    for text in [
        "",
        "f",
        "f(",
        "f)",
        "(i8)",
        "f(,)",
        "f(i8,,i8)",
        "f(i8 i8)",
        "f(i8) ->",
        "f(i8) -> ",
        "f(i8) -> i8 i8",
        "f(i8) i8",
        "f(i8));",
        "f(i8);",
        "*f(i8)",
        "f(i8*)",
        "f(i8) -> -> i8",
    ] {
        assert!(FunHdr::parse(text).is_none(), "{:?}", text);
    }
}

#[test]
fn batch_of_signatures() {
    let text = "write(i32, *i8, usize) -> i128;\n close(i32) -> i32;\n sleep(u32) -> u32;";
    let hdrs = parse_signatures(text).unwrap();
    assert_eq!(hdrs.len(), 3);
    assert_eq!(hdrs[0].name, "write");
    assert_eq!(hdrs[0].args, vec![expr(0, "i32"), expr(1, "i8"), expr(0, "usize")]);
    assert_eq!(hdrs[0].ret, expr(0, "i128"));
    assert_eq!(hdrs[1].name, "close");
    assert_eq!(hdrs[2].name, "sleep");
    assert_eq!(hdrs[2].args, vec![expr(0, "u32")]);
    assert!(!hdrs[2].is_var);
}

#[test]
fn the_last_semicolon_of_a_batch_is_optional() {
    assert_eq!(parse_signatures("").unwrap().len(), 0);
    assert_eq!(parse_signatures("  \n").unwrap().len(), 0);
    assert_eq!(parse_signatures("f()").unwrap().len(), 1);
    assert_eq!(parse_signatures("f();").unwrap().len(), 1);
    assert_eq!(parse_signatures("f(); g()").unwrap().len(), 2);
    assert_eq!(parse_signatures("f(); g();").unwrap().len(), 2);
}

#[test]
fn a_malformed_batch_gives_no_signature() {
    assert!(parse_signatures(";").is_none());
    assert!(parse_signatures("f();;").is_none());
    assert!(parse_signatures("f() g()").is_none());
    assert!(parse_signatures("f(); g(").is_none());
    assert!(parse_signatures("f(); g(i8,,)").is_none());
    assert!(parse_signatures("f(); 写()").is_none());
}

fn written(hdr: &FunHdr) -> String {
    let ty = |e: &TypeExpr| format!("{}{}", "*".repeat(e.levels), e.name);
    let mut params: Vec<String> = hdr.args.iter().map(ty).collect();
    if hdr.is_var {
        params.push("...".to_string());
    }
    format!("{}({})->{}", hdr.name, params.join(","), ty(&hdr.ret))
}

#[test]
fn a_written_signature_is_read_back() {
    let names = ["f", "_", "open", "vec_push_i32", "A9_z"];
    for (n, name) in names.iter().enumerate() {
        for count in 0..4usize {
            for is_var in [false, true] {
                let args: Vec<TypeExpr> =
                    (0..count).map(|i| expr((i + n) % 3, names[(i + n) % names.len()])).collect();
                let hdr = FunHdr {
                    name: name.to_string(),
                    args,
                    ret: expr(n % 4, names[(n + 1) % names.len()]),
                    is_var,
                };
                let text = written(&hdr);
                assert_eq!(FunHdr::parse(&text), Some(hdr), "{}", text);
            }
        }
    }
    assert_eq!(written(&FunHdr::parse("open ( * i8 , i32 , ... ) -> i32").unwrap()), "open(*i8,i32,...)->i32");
    assert_eq!(written(&FunHdr::parse("tick()").unwrap()), "tick()->void");
}
