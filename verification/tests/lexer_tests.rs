use lunaria::lexer::Lexer;
use lunaria::token::Token;

fn toks(src: &str) -> Vec<Token> {
    Lexer::new(src).tokenize()
}

fn sym(s: &str) -> Token {
    Token::Symbol(s.to_string())
}

fn op(s: &str) -> Token {
    Token::Operator(s.to_string())
}

fn kw(s: &str) -> Token {
    Token::Keyword(s.to_string())
}

fn ident(s: &str) -> Token {
    Token::Identifier(s.to_string())
}

fn num(x: f64) -> Token {
    Token::Number(x.to_bits())
}

#[test]
fn tokenize_simple_number() {
    assert_eq!(toks("3"), vec![num(3.0)]);
}

#[test]
fn tokenize_decimal_number() {
    assert_eq!(toks("3.5"), vec![num(3.5)]);
}

#[test]
fn tokenize_number_with_second_dot() {
    assert_eq!(toks("3.5.5"), vec![num(3.5), sym("."), num(5.0)]);
}

#[test]
fn tokenize_trailing_dot_number() {
    assert_eq!(toks("3."), vec![num(3.0)]);
}

#[test]
fn tokenize_whitespace_skipped() {
    assert_eq!(toks("  a \t b\n"), vec![ident("a"), ident("b")]);
}

#[test]
fn tokenize_line_comment() {
    assert_eq!(
        toks("~> hello\nx"),
        vec![Token::Comment(" hello".to_string()), ident("x")]
    );
}

#[test]
fn tokenize_block_comment() {
    assert_eq!(
        toks("~< inner >~x"),
        vec![Token::Comment(" inner ".to_string()), ident("x")]
    );
}

#[test]
fn tokenize_unterminated_block_comment() {
    assert_eq!(toks("~< open"), vec![Token::Comment(" open".to_string())]);
}

#[test]
fn tokenize_walrus_and_double_colon() {
    assert_eq!(toks(":= ::"), vec![op(":="), sym("::")]);
}

#[test]
fn tokenize_lone_colon_dropped() {
    assert_eq!(toks(": x"), vec![ident("x")]);
}

#[test]
fn tokenize_arrow_and_minus() {
    assert_eq!(toks("-> -"), vec![op("->"), op("-")]);
}

#[test]
fn tokenize_double_quoted_string_with_escapes() {
    assert_eq!(
        toks("\"a\\n\\t\\r\\\\\\\"b\""),
        vec![Token::String("a\n\t\r\\\"b".to_string())]
    );
}

#[test]
fn tokenize_unknown_escape_kept_literally() {
    assert_eq!(toks("\"a\\qb\""), vec![Token::String("a\\qb".to_string())]);
}

#[test]
fn tokenize_single_quoted_string_no_escapes() {
    assert_eq!(toks("'a\\nb'"), vec![Token::String("a\\nb".to_string())]);
}

#[test]
fn tokenize_unterminated_string() {
    assert_eq!(toks("\"open"), vec![Token::String("open".to_string())]);
}

#[test]
fn tokenize_symbols() {
    assert_eq!(
        toks(". , ( ) ; { }"),
        vec![sym("."), sym(","), sym("("), sym(")"), sym(";"), sym("{"), sym("}")]
    );
}

#[test]
fn tokenize_keywords() {
    assert_eq!(
        toks("fn define mut return evoke summon as"),
        vec![kw("fn"), kw("define"), kw("mut"), kw("return"), kw("evoke"), kw("summon"), kw("as")]
    );
}

#[test]
fn tokenize_booleans() {
    assert_eq!(toks("true false"), vec![Token::Boolean(true), Token::Boolean(false)]);
}

#[test]
fn tokenize_operator_words() {
    assert_eq!(
        toks("and or not if else elif match"),
        vec![op("and"), op("or"), op("not"), op("if"), op("else"), op("elif"), op("match")]
    );
}

#[test]
fn tokenize_identifier_with_underscore_and_digits() {
    assert_eq!(toks("_ab1 c_2"), vec![ident("_ab1"), ident("c_2")]);
}

#[test]
fn tokenize_unknown_characters_skipped() {
    assert_eq!(toks("@ # x"), vec![ident("x")]);
}

#[test]
fn tokenize_call_site() {
    assert_eq!(
        toks("console.out(\"hi\")"),
        vec![
            ident("console"),
            sym("."),
            ident("out"),
            sym("("),
            Token::String("hi".to_string()),
            sym(")")
        ]
    );
}

#[test]
fn number_token_bits_are_exact() {
    // A tokenizer that handed back a constant would fail one of these.
    assert_ne!(toks("2.5"), toks("3.5"));
    assert_eq!(toks("0.1"), vec![num(0.1)]);
}
