//! Grammar round-trip checks: parsing one minimal example of each
//! top-level definition class yields exactly the expected tree.

use xdrgen::ast::Token;
use xdrgen::ast::Type;
use xdrgen::parser::parse;

fn ident(s: &str) -> Box<Token> {
    Box::new(Token::Ident(s.to_string()))
}

#[test]
fn parses_minimal_struct() {
    let toks = parse("struct point { int x; int y; };").expect("struct should parse");
    let expected = vec![Token::StructDef {
        id: ident("point"),
        decl: Box::new(Token::Struct(vec![
            Token::Decl { ty: Box::new(Token::Type(Type::Int)), id: ident("x") },
            Token::Decl { ty: Box::new(Token::Type(Type::Int)), id: ident("y") },
        ])),
    }];
    assert_eq!(toks, expected);
}

#[test]
fn parses_minimal_enum() {
    let toks = parse("enum color { RED = 0, GREEN = 1, BLUE = 2 };").expect("enum should parse");
    let expected = vec![Token::EnumDef {
        id: ident("color"),
        decl: Box::new(Token::Enum(vec![
            (Token::Ident("RED".to_string()), Token::Constant(0)),
            (Token::Ident("GREEN".to_string()), Token::Constant(1)),
            (Token::Ident("BLUE".to_string()), Token::Constant(2)),
        ])),
    }];
    assert_eq!(toks, expected);
}

#[test]
fn parses_minimal_union() {
    let toks = parse("union u switch (color c) { case RED: int a; default: void; };")
        .expect("union should parse");
    let expected = vec![Token::UnionDef {
        id: ident("u"),
        decl: Box::new(Token::Union {
            decl: Box::new(Token::Decl { ty: ident("color"), id: ident("c") }),
            cases: vec![Token::UnionCase {
                vals: vec![Token::Ident("RED".to_string())],
                decl: Box::new(Token::Decl {
                    ty: Box::new(Token::Type(Type::Int)),
                    id: ident("a"),
                }),
            }],
            default: Box::new(Some(Token::VoidDecl)),
        }),
    }];
    assert_eq!(toks, expected);
}

#[test]
fn parses_minimal_typedef() {
    let toks = parse("typedef int my_int;").expect("typedef should parse");
    let expected = vec![Token::TypeDef(Box::new(Token::Decl {
        ty: Box::new(Token::Type(Type::Int)),
        id: ident("my_int"),
    }))];
    assert_eq!(toks, expected);
}

#[test]
fn parses_minimal_program() {
    let toks = parse("program p { version v1 { void noop(void) = 1; } = 1; } = 100;\n")
        .expect("program should parse");
    let expected = vec![Token::Program {
        name: ident("p"),
        id: Box::new(Token::Constant(100)),
        versions: vec![Token::Version {
            name: ident("v1"),
            id: Box::new(Token::Constant(1)),
            procs: vec![Token::Proc {
                return_type: Box::new(Token::VoidDecl),
                name: ident("noop"),
                arg_types: vec![Token::VoidDecl],
                id: Box::new(Token::Constant(1)),
            }],
        }],
    }];
    assert_eq!(toks, expected);
}

#[test]
fn parses_minimal_namespace() {
    let toks = parse("namespace ns { program p { version v { void q(void) = 0; } = 1; } = 2;\n };")
        .expect("namespace should parse");
    assert_eq!(toks.len(), 1);
    match &toks[0] {
        Token::Namespace { name, progs } => {
            assert_eq!(**name, Token::Ident("ns".to_string()));
            assert_eq!(progs.len(), 1);
        },
        other => panic!("expected a namespace node, got {:?}", other),
    }
}

#[test]
fn parses_comments_snippets_and_blanks() {
    let toks = parse("// note\n/* box */%passthrough\n ").expect("trivia should parse");
    let expected = vec![
        Token::Comment(" note".to_string()),
        Token::Comment(" box ".to_string()),
        Token::CodeSnippet("passthrough".to_string()),
        Token::Blank,
    ];
    assert_eq!(toks, expected);
}

#[test]
fn parses_constants_in_all_radixes() {
    let toks = parse("const a = 0x10;const b = 010;const c = 42;").expect("consts should parse");
    let expected = vec![
        Token::ConstantDef(Box::new(Token::Constant(16))),
        Token::ConstantDef(Box::new(Token::Constant(8))),
        Token::ConstantDef(Box::new(Token::Constant(42))),
    ];
    assert_eq!(toks, expected);
}

#[test]
fn parses_opaque_string_and_array_declarations() {
    let toks = parse("struct s { opaque f[16]; opaque g<>; string n<32>; int a[4]; int b<>; };")
        .expect("declaration shapes should parse");
    match &toks[0] {
        Token::StructDef { id: _, decl } => match &**decl {
            Token::Struct(fields) => {
                assert_eq!(fields.len(), 5);
                assert!(matches!(fields[0], Token::OpaqueDecl { .. }));
                assert!(matches!(fields[1], Token::VarOpaqueDecl { .. }));
                assert!(matches!(fields[2], Token::StringDecl { .. }));
                assert!(matches!(fields[3], Token::ArrayDecl { .. }));
                assert!(matches!(fields[4], Token::VarArrayDecl { .. }));
            },
            other => panic!("expected a struct body, got {:?}", other),
        },
        other => panic!("expected a struct definition, got {:?}", other),
    }
}

#[test]
fn rejects_unfinished_input() {
    assert_eq!(parse("struct {"), None);
}

#[test]
fn rejects_trailing_garbage() {
    assert_eq!(parse("typedef int my_int; @@@"), None);
}

#[test]
fn rejects_numeric_overflow() {
    assert_eq!(parse("const a = 99999999999999999999;"), None);
}
