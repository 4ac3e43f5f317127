use lunaria::ast::{Expr, Value};
use lunaria::grimoire::{Function, Grimoire, Module};
use lunaria::lexer::Lexer;
use lunaria::parser::Parser;
use lunaria::serialize::serialize_call;
use lunaria::token::Token;

fn native_echo(args: Vec<Value>) -> Value {
    match args.into_iter().next() {
        Some(v) => v,
        None => Value::Void,
    }
}

#[test]
fn call_site_tokens_round_trip() {
    let src = "console.out(\"hi\", 3, true, id)";
    let tokens = Lexer::new(src).tokenize();
    let mut parser = Parser::new(tokens.clone());
    let ast = parser.parse().unwrap();
    match &ast[0] {
        Expr::FunctionCall { name, args } => {
            assert_eq!(name, "console.out");
            let back = serialize_call(name, args);
            // The canonical tokens carry the dotted name as one identifier;
            // all argument tokens and separators come back exactly.
            assert_eq!(back[0], Token::Identifier("console.out".to_string()));
            assert_eq!(&back[1..], &tokens[3..]);
        }
        other => panic!("unexpected node: {:?}", other),
    }
}

#[test]
fn undotted_call_round_trips_exactly() {
    let src = "show(\"a\", 2.5, false)";
    let tokens = Lexer::new(src).tokenize();
    let mut parser = Parser::new(tokens.clone());
    let ast = parser.parse().unwrap();
    match &ast[0] {
        Expr::FunctionCall { name, args } => {
            let back = serialize_call(name, args);
            assert_eq!(back, tokens);
        }
        other => panic!("unexpected node: {:?}", other),
    }
}

#[test]
fn serialized_tokens_parse_to_same_call() {
    let name = "f".to_string();
    let args = vec![
        Expr::String("x".to_string()),
        Expr::Number(7.0f64.to_bits()),
        Expr::Boolean(true),
        Expr::Identifier("y".to_string()),
    ];
    let tokens = serialize_call(&name, &args);
    let mut parser = Parser::new(tokens);
    let ast = parser.parse().unwrap();
    assert_eq!(ast, vec![Expr::FunctionCall { name, args }]);
}

fn native_void(_args: Vec<Value>) -> Value {
    Value::Void
}

#[test]
fn module_insert_replaces_same_name() {
    let mut m: Module<fn(Vec<Value>) -> Value> = Module::new("m");
    m.insert("f", Function::Native(native_void));
    m.insert("f", Function::Native(native_echo));
    let mut grim: Grimoire<fn(Vec<Value>) -> Value> = Grimoire::new();
    grim.add_module(m);
    let r = grim.call_function("m", "f", vec![Value::Integer(1)]);
    assert_eq!(r, Some(Value::Integer(1)));
}

#[test]
fn grimoire_variables_round_trip() {
    let mut grim: Grimoire<fn(Vec<Value>) -> Value> = Grimoire::new();
    grim.set_var("x", Value::Integer(1));
    grim.set_var("x", Value::Integer(2));
    grim.set_var("y", Value::Boolean(true));
    assert_eq!(grim.get_var("x"), Some(&Value::Integer(2)));
    assert_eq!(grim.get_var("y"), Some(&Value::Boolean(true)));
    assert_eq!(grim.get_var("z"), None);
}

#[test]
fn grimoire_module_call() {
    let mut grim: Grimoire<fn(Vec<Value>) -> Value> = Grimoire::new();
    let mut console: Module<fn(Vec<Value>) -> Value> = Module::new("console");
    console.insert("out", Function::Native(native_echo));
    grim.add_module(console);
    let r = grim.call_function("console", "out", vec![Value::String("hi".to_string())]);
    assert_eq!(r, Some(Value::String("hi".to_string())));
    assert_eq!(grim.call_function("console", "missing", vec![]), None);
    assert_eq!(grim.call_function("nope", "out", vec![]), None);
}

#[test]
fn grimoire_global_lookup() {
    let mut grim: Grimoire<fn(Vec<Value>) -> Value> = Grimoire::new();
    let mut a: Module<fn(Vec<Value>) -> Value> = Module::new("a");
    a.insert("f", Function::Native(native_echo));
    grim.add_module(a);
    let r = grim.call_global_function("f", vec![Value::Integer(9)]);
    assert_eq!(r, Some(Value::Integer(9)));
    assert_eq!(grim.call_global_function("g", vec![]), None);
}
