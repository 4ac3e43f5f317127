use lunaria::ast::{Expr, Value};
use lunaria::interpreter::Interpreter;
use lunaria::lexer::Lexer;
use lunaria::parser::Parser;

fn run(src: &str) -> Interpreter {
    let tokens = Lexer::new(src).tokenize();
    let mut parser = Parser::new(tokens);
    let ast = parser.parse().unwrap();
    let mut interp = Interpreter::new();
    interp.interpret(ast);
    interp
}

fn env_get(interp: &Interpreter, name: &str) -> Option<Value> {
    for (k, v) in interp.env.iter() {
        if k == name {
            return Some(v.clone());
        }
    }
    None
}

fn call(interp: &mut Interpreter, name: &str, args: Vec<Expr>) -> Value {
    interp.eval(Expr::FunctionCall { name: name.to_string(), args })
}

#[test]
fn define_binds_string_and_rereads_it() {
    let mut interp = run("define msg :: string := \"hello\";");
    assert_eq!(env_get(&interp, "msg"), Some(Value::String("hello".to_string())));
    // Reading the name back through a console call shows the same text.
    let _ = call(
        &mut interp,
        "console.out",
        vec![Expr::Identifier("msg".to_string())],
    );
    assert_eq!(interp.output, "hello\n");
}

#[test]
fn number_literal_three_is_integer() {
    let interp = run("define v :: int := 3;");
    assert_eq!(env_get(&interp, "v"), Some(Value::Integer(3)));
}

#[test]
fn number_literal_three_point_five_is_float() {
    let interp = run("define v :: int := 3.5;");
    assert_eq!(env_get(&interp, "v"), Some(Value::Float(3.5f64.to_bits())));
}

#[test]
fn number_literal_three_point_zero_is_integer() {
    let interp = run("define v :: int := 3.0;");
    assert_eq!(env_get(&interp, "v"), Some(Value::Integer(3)));
}

#[test]
fn math_add_integers() {
    let mut interp = Interpreter::new();
    let v = call(
        &mut interp,
        "math.add",
        vec![
            Expr::Number(2.0f64.to_bits()),
            Expr::Number(3.0f64.to_bits()),
        ],
    );
    assert_eq!(v, Value::Integer(5));
}

#[test]
fn math_add_mixed_promotes_to_float() {
    let mut interp = Interpreter::new();
    interp.env.push(("f".to_string(), Value::Float(3.0f64.to_bits())));
    let v = call(
        &mut interp,
        "math.add",
        vec![
            Expr::Number(2.0f64.to_bits()),
            Expr::Identifier("f".to_string()),
        ],
    );
    assert_eq!(v, Value::Float(5.0f64.to_bits()));
}

#[test]
fn math_add_floats_exact() {
    let mut interp = Interpreter::new();
    interp.env.push(("a".to_string(), Value::Float(2.5f64.to_bits())));
    interp.env.push(("b".to_string(), Value::Float(3.25f64.to_bits())));
    let v = call(
        &mut interp,
        "math.add",
        vec![
            Expr::Identifier("a".to_string()),
            Expr::Identifier("b".to_string()),
        ],
    );
    assert_eq!(v, Value::Float(5.75f64.to_bits()));
}

#[test]
fn math_sub_mul_div() {
    let mut interp = Interpreter::new();
    let two = Expr::Number(2.0f64.to_bits());
    let seven = Expr::Number(7.0f64.to_bits());
    assert_eq!(
        call(&mut interp, "math.sub", vec![seven.clone(), two.clone()]),
        Value::Integer(5)
    );
    assert_eq!(
        call(&mut interp, "math.mul", vec![seven.clone(), two.clone()]),
        Value::Integer(14)
    );
    assert_eq!(
        call(&mut interp, "math.div", vec![seven, two]),
        Value::Integer(3)
    );
}

#[test]
fn math_div_truncates_toward_zero() {
    let mut interp = Interpreter::new();
    interp.env.push(("n".to_string(), Value::Integer(-7)));
    let v = call(
        &mut interp,
        "math.div",
        vec![
            Expr::Identifier("n".to_string()),
            Expr::Number(2.0f64.to_bits()),
        ],
    );
    assert_eq!(v, Value::Integer(-3));
}

#[test]
fn math_add_wraps_at_integer_bounds() {
    let mut interp = Interpreter::new();
    interp.env.push(("m".to_string(), Value::Integer(i32::MAX)));
    let v = call(
        &mut interp,
        "math.add",
        vec![
            Expr::Identifier("m".to_string()),
            Expr::Number(1.0f64.to_bits()),
        ],
    );
    assert_eq!(v, Value::Integer(i32::MIN));
}

#[test]
fn math_div_integer_zero_skips_zero_guard() {
    let mut interp = Interpreter::new();
    let v = call(
        &mut interp,
        "math.div",
        vec![
            Expr::Number(4.0f64.to_bits()),
            Expr::Number(0.0f64.to_bits()),
        ],
    );
    // An integer zero denominator is an Integer, so 0.0 parses to Integer(0)
    // here; the float zero guard must not fire.
    assert_eq!(v, Value::Void);
    assert_eq!(interp.log, vec!["Invalid integer division".to_string()]);
    assert!(!interp.log.contains(&"Division by zero is not allowed".to_string()));
}

#[test]
fn math_div_float_zero_guard_fires() {
    let mut interp = Interpreter::new();
    interp.env.push(("z".to_string(), Value::Float(0.0f64.to_bits())));
    let v = call(
        &mut interp,
        "math.div",
        vec![
            Expr::Number(4.0f64.to_bits()),
            Expr::Identifier("z".to_string()),
        ],
    );
    assert_eq!(v, Value::Void);
    assert_eq!(interp.log, vec!["Division by zero is not allowed".to_string()]);
}

#[test]
fn math_add_wrong_arity_reports() {
    let mut interp = Interpreter::new();
    let v = call(&mut interp, "math.add", vec![Expr::Number(1.0f64.to_bits())]);
    assert_eq!(v, Value::Void);
    assert_eq!(interp.log, vec!["'add' expects 2 arguments".to_string()]);
}

#[test]
fn math_add_non_numeric_reports() {
    let mut interp = Interpreter::new();
    let v = call(
        &mut interp,
        "math.add",
        vec![
            Expr::String("a".to_string()),
            Expr::Number(1.0f64.to_bits()),
        ],
    );
    assert_eq!(v, Value::Void);
    assert_eq!(interp.log, vec!["'add' expects valid numbers".to_string()]);
}

#[test]
fn unknown_function_logs_and_continues() {
    let interp = run("foo.bar()\nconsole.out(\"after\")");
    assert_eq!(interp.output, "after\n");
    assert!(interp.log.contains(&"Unknown function: foo.bar".to_string()));
}

#[test]
fn wrong_argument_count_skips_body() {
    let interp = run(
        "fn f(a :: int) -> void { console.out(\"side\"); }\nf()",
    );
    assert_eq!(interp.output, "");
    assert!(interp.log.contains(&"Wrong number of arguments for: f".to_string()));
}

#[test]
fn module_function_callable_by_bare_name() {
    let mut interp = Interpreter::new();
    let tokens = Lexer::new("summon Mod { fn f() -> void { return \"x\"; } }").tokenize();
    let mut parser = Parser::new(tokens);
    let ast = parser.parse().unwrap();
    for node in ast {
        interp.eval(node);
    }
    // The nested definition lands under the bare name, so the call
    // resolves rather than warning about an unknown function. Its body's
    // bare string after return parses to an empty node, so the call
    // yields void.
    let v = call(&mut interp, "f", vec![]);
    assert_eq!(v, Value::Void);
    assert!(!interp.log.contains(&"Unknown function: f".to_string()));
}

#[test]
fn module_function_runs_from_top_level_call() {
    let interp = run(
        "summon Mod { fn greet() -> void { console.out(\"from-module\"); } }\ngreet()",
    );
    assert_eq!(interp.output, "from-module\n");
}

#[test]
fn main_prints_exactly_once() {
    let interp = run("fn main() -> void { console.out(\"hi\"); }");
    assert_eq!(interp.output, "hi\n");
}

#[test]
fn main_with_parameters_is_not_invoked() {
    let interp = run("fn main(a :: int) -> void { console.out(\"no\"); }");
    assert_eq!(interp.output, "");
}

#[test]
fn later_definition_replaces_earlier() {
    let interp = run(
        "fn g() -> void { console.out(\"one\"); }\nfn g() -> void { console.out(\"two\"); }\ng()",
    );
    assert_eq!(interp.output, "two\n");
}

#[test]
fn forward_reference_resolves() {
    let interp = run(
        "fn main() -> void { late(); }\nfn late() -> void { console.out(\"ok\"); }",
    );
    assert_eq!(interp.output, "ok\n");
}

#[test]
fn function_return_value_flows_to_caller() {
    let mut interp = run("fn same(a :: int) -> int { return a; }");
    let v = call(&mut interp, "same", vec![Expr::Number(3.0f64.to_bits())]);
    assert_eq!(v, Value::Integer(3));
}

#[test]
fn bare_literal_after_return_yields_void() {
    let mut interp = run("fn three() -> int { return 3; }");
    let v = call(&mut interp, "three", vec![]);
    assert_eq!(v, Value::Void);
}

#[test]
fn statements_after_return_are_skipped() {
    let interp = run(
        "fn main() -> void { console.out(\"a\"); return; console.out(\"b\"); }",
    );
    assert_eq!(interp.output, "a\n");
}

#[test]
fn callee_definitions_die_with_the_call() {
    let interp = run(
        "fn outer() -> void { inner_def(); }\nfn inner_def() -> void { }\nouter()",
    );
    // The registry the callee grew is a private copy; the caller's registry
    // holds only what top level definitions put there.
    let names: Vec<&str> = interp.functions.iter().map(|(k, _)| k.as_str()).collect();
    assert!(names.contains(&"outer"));
    assert!(names.contains(&"inner_def"));
    assert_eq!(names.len(), 7);
}

#[test]
fn type_hint_mismatch_logged_but_binding_kept() {
    let interp = run("define n :: int := \"s\";");
    assert_eq!(env_get(&interp, "n"), Some(Value::String("s".to_string())));
    assert!(interp.log.contains(&"Type mismatch: expected int".to_string()));
}

#[test]
fn float_hint_never_matches() {
    let interp = run("define f :: float := 2.5;");
    assert_eq!(env_get(&interp, "f"), Some(Value::Float(2.5f64.to_bits())));
    assert!(interp.log.contains(&"Type mismatch: expected float".to_string()));
}

#[test]
fn assignment_overwrites_binding() {
    let interp = run("define x :: int := 1;\ndefine x :: int := 2;");
    assert_eq!(env_get(&interp, "x"), Some(Value::Integer(2)));
    assert_eq!(interp.env.len(), 1);
}

#[test]
fn map_access_reads_dict_binding() {
    // Bracket symbols never come out of the tokenizer, so the access node
    // is built directly, as a host would.
    let mut interp = Interpreter::new();
    interp.env.push((
        "agenda".to_string(),
        Value::Dict(vec![("Juan".to_string(), Value::String("555".to_string()))]),
    ));
    let node = Expr::Assignment {
        name: "y".to_string(),
        value: Box::new(Expr::MapAccess {
            map: Box::new(Expr::Identifier("agenda".to_string())),
            key: Box::new(Expr::String("Juan".to_string())),
        }),
        type_hint: Some("string".to_string()),
        mutable: false,
    };
    let v = interp.eval(node);
    assert_eq!(v, Value::String("555".to_string()));
    assert_eq!(env_get(&interp, "y"), Some(Value::String("555".to_string())));
}

#[test]
fn missing_map_key_reads_void() {
    let mut interp = Interpreter::new();
    interp.env.push(("m".to_string(), Value::Dict(vec![])));
    let node = Expr::Assignment {
        name: "y".to_string(),
        value: Box::new(Expr::MapAccess {
            map: Box::new(Expr::Identifier("m".to_string())),
            key: Box::new(Expr::String("k".to_string())),
        }),
        type_hint: None,
        mutable: false,
    };
    assert_eq!(interp.eval(node), Value::Void);
}

#[test]
fn invalid_map_access_is_soft() {
    let mut interp = Interpreter::new();
    interp.env.push(("x".to_string(), Value::Integer(1)));
    let node = Expr::Assignment {
        name: "y".to_string(),
        value: Box::new(Expr::MapAccess {
            map: Box::new(Expr::Identifier("x".to_string())),
            key: Box::new(Expr::String("k".to_string())),
        }),
        type_hint: None,
        mutable: false,
    };
    assert_eq!(interp.eval(node), Value::Void);
    assert_eq!(env_get(&interp, "y"), Some(Value::Void));
    assert!(interp.log.contains(&"Invalid map access.".to_string()));
}

#[test]
fn unbound_identifier_reads_void() {
    let interp = run("define y :: void := nothing;");
    assert_eq!(env_get(&interp, "y"), Some(Value::Void));
}

#[test]
fn call_as_define_initializer_yields_void() {
    // The right side of a definition is read as a plain expression; a call
    // there is not invoked and contributes void.
    let interp = run("fn three() -> int { return 3; }\ndefine v :: int := three();");
    assert_eq!(env_get(&interp, "v"), Some(Value::Void));
    assert_eq!(interp.output, "");
}

#[test]
fn saturating_large_integral_literal() {
    let interp = run("define big :: int := 3000000000;");
    assert_eq!(env_get(&interp, "big"), Some(Value::Integer(i32::MAX)));
}

#[test]
fn empty_program_does_nothing() {
    let interp = run("");
    assert_eq!(interp.output, "");
    assert!(interp.log.is_empty());
    assert!(interp.env.is_empty());
}

#[test]
fn map_literal_with_equal_keys_keeps_last() {
    let mut interp = Interpreter::new();
    let node = Expr::Assignment {
        name: "m".to_string(),
        value: Box::new(Expr::MapLiteral(vec![
            ("k".to_string(), Expr::Number(1.0f64.to_bits())),
            ("k".to_string(), Expr::Number(2.0f64.to_bits())),
        ])),
        type_hint: None,
        mutable: false,
    };
    let v = interp.eval(node);
    assert_eq!(v, Value::Dict(vec![("k".to_string(), Value::Integer(2))]));
}

#[test]
fn bare_map_literal_statement_is_void() {
    let mut interp = Interpreter::new();
    let v = interp.eval(Expr::MapLiteral(vec![]));
    assert_eq!(v, Value::Void);
}

#[test]
fn deep_recursion_is_cut_off() {
    let interp = run("fn loopy() -> void { loopy(); }\nloopy()");
    assert!(interp.log.contains(&"Call depth limit reached: loopy".to_string()));
}
