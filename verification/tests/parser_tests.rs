use lunaria::ast::Expr;
use lunaria::lexer::Lexer;
use lunaria::parser::Parser;
use lunaria::token::Token;

fn parse_src(src: &str) -> Result<Vec<Expr>, String> {
    let tokens = Lexer::new(src).tokenize();
    let mut parser = Parser::new(tokens);
    parser.parse()
}

#[test]
fn parse_define_with_hint() {
    let ast = parse_src("define x :: int := 3;").unwrap();
    assert_eq!(ast.len(), 1);
    match &ast[0] {
        Expr::Assignment { name, value, type_hint, mutable } => {
            assert_eq!(name, "x");
            assert_eq!(**value, Expr::Number(3.0f64.to_bits()));
            assert_eq!(type_hint.as_deref(), Some("int"));
            assert!(!mutable);
        }
        other => panic!("unexpected node: {:?}", other),
    }
}

#[test]
fn parse_define_mut() {
    let ast = parse_src("define mut y :: string := \"a\"").unwrap();
    match &ast[0] {
        Expr::Assignment { name, mutable, .. } => {
            assert_eq!(name, "y");
            assert!(mutable);
        }
        other => panic!("unexpected node: {:?}", other),
    }
}

#[test]
fn parse_define_missing_name_fails() {
    let e = parse_src("define :: int := 3;").unwrap_err();
    assert_eq!(e, "Expected identifier after 'define'");
}

#[test]
fn parse_define_missing_walrus_fails() {
    let e = parse_src("define x :: int 3;").unwrap_err();
    assert_eq!(e, "Expected ':=' after type");
}

#[test]
fn parse_function_definition() {
    let ast = parse_src("fn add2(a :: int, b :: int) -> int { return a; }").unwrap();
    match &ast[0] {
        Expr::FunctionDef { name, params, body, return_type } => {
            assert_eq!(name, "add2");
            assert_eq!(
                params,
                &vec![
                    ("a".to_string(), "int".to_string()),
                    ("b".to_string(), "int".to_string())
                ]
            );
            assert_eq!(return_type, "int");
            assert_eq!(body.len(), 2);
            assert_eq!(body[0], Expr::Return(Box::new(Expr::Identifier("a".to_string()))));
            // The bare semicolon statement stays in a top level body.
            assert_eq!(body[1], Expr::Empty);
        }
        other => panic!("unexpected node: {:?}", other),
    }
}

#[test]
fn parse_function_missing_arrow_fails() {
    let e = parse_src("fn f() { }").unwrap_err();
    assert_eq!(e, "Expected '->' after parameters");
}

#[test]
fn parse_unterminated_body_fails() {
    let e = parse_src("fn f() -> void {").unwrap_err();
    assert_eq!(e, "Unexpected end of function body");
}

#[test]
fn parse_dotted_call() {
    let ast = parse_src("a.b.c(1, x)").unwrap();
    match &ast[0] {
        Expr::FunctionCall { name, args } => {
            assert_eq!(name, "a.b.c");
            assert_eq!(
                args,
                &vec![
                    Expr::Number(1.0f64.to_bits()),
                    Expr::Identifier("x".to_string())
                ]
            );
        }
        other => panic!("unexpected node: {:?}", other),
    }
}

#[test]
fn parse_dot_without_identifier_fails() {
    let e = parse_src("a.(").unwrap_err();
    assert_eq!(e, "Expected identifier after '.'");
}

#[test]
fn parse_map_access() {
    // The tokenizer never emits bracket symbols, so a bracket access is
    // reachable only from a hand-built token list, as in the host surface.
    let tokens = vec![
        Token::Identifier("agenda".to_string()),
        Token::Symbol("[".to_string()),
        Token::String("Juan".to_string()),
        Token::Symbol("]".to_string()),
    ];
    let mut parser = Parser::new(tokens);
    let ast = parser.parse().unwrap();
    match &ast[0] {
        Expr::MapAccess { map, key } => {
            assert_eq!(**map, Expr::Identifier("agenda".to_string()));
            assert_eq!(**key, Expr::String("Juan".to_string()));
        }
        other => panic!("unexpected node: {:?}", other),
    }
}

#[test]
fn parse_map_access_missing_bracket_fails() {
    let tokens = vec![
        Token::Identifier("m".to_string()),
        Token::Symbol("[".to_string()),
        Token::String("k".to_string()),
    ];
    let mut parser = Parser::new(tokens);
    let e = parser.parse().unwrap_err();
    assert_eq!(e, "Expected ']' after map key");
}

#[test]
fn tokenize_skips_brackets() {
    let tokens = Lexer::new("m[\"k\"]").tokenize();
    assert_eq!(
        tokens,
        vec![
            Token::Identifier("m".to_string()),
            Token::String("k".to_string())
        ]
    );
}

#[test]
fn parse_evoke() {
    let ast = parse_src("evoke util;").unwrap();
    assert_eq!(ast[0], Expr::ModuleImport("util".to_string()));
}

#[test]
fn parse_module_keeps_functions_only() {
    let ast = parse_src("summon M { fn f() -> void { } x }").unwrap();
    match &ast[0] {
        Expr::ModuleDef { name, body } => {
            assert_eq!(name, "M");
            assert_eq!(body.len(), 1);
            match &body[0] {
                Expr::FunctionDef { name, .. } => assert_eq!(name, "f"),
                other => panic!("unexpected module member: {:?}", other),
            }
        }
        other => panic!("unexpected node: {:?}", other),
    }
}

#[test]
fn parse_module_logs_ignored_member() {
    let tokens = Lexer::new("summon M { x }").tokenize();
    let mut parser = Parser::new(tokens);
    let ast = parser.parse().unwrap();
    assert_eq!(ast.len(), 1);
    assert_eq!(parser.log, vec!["Ignored in module: M".to_string()]);
}

#[test]
fn parse_unterminated_module_fails() {
    let e = parse_src("summon M {").unwrap_err();
    assert_eq!(e, "Unexpected end of module body");
}

#[test]
fn parse_bare_literal_becomes_empty() {
    let ast = parse_src("3 \"s\" true").unwrap();
    assert_eq!(ast, vec![Expr::Empty, Expr::Empty, Expr::Empty]);
}

#[test]
fn parse_return_with_semicolon() {
    let ast = parse_src("return;").unwrap();
    assert_eq!(ast[0], Expr::Return(Box::new(Expr::Empty)));
}
