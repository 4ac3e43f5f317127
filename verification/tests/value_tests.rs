use lunaria::ast::Value;
use lunaria::repl::{repl_line, ReplAction};
use lunaria::value::{hint_matches, int_to_text, number_value};

#[test]
fn stringify_string_is_plain() {
    assert_eq!(lunaria::value::stringify(&Value::String("abc".to_string())), "abc");
}

#[test]
fn stringify_integers() {
    assert_eq!(lunaria::value::stringify(&Value::Integer(0)), "0");
    assert_eq!(lunaria::value::stringify(&Value::Integer(42)), "42");
    assert_eq!(lunaria::value::stringify(&Value::Integer(-7)), "-7");
    assert_eq!(lunaria::value::stringify(&Value::Integer(i32::MIN)), "-2147483648");
    assert_eq!(lunaria::value::stringify(&Value::Integer(i32::MAX)), "2147483647");
}

#[test]
fn stringify_booleans_and_void() {
    assert_eq!(lunaria::value::stringify(&Value::Boolean(true)), "true");
    assert_eq!(lunaria::value::stringify(&Value::Boolean(false)), "false");
    assert_eq!(lunaria::value::stringify(&Value::Void), "(void)");
}

#[test]
fn stringify_map_in_order() {
    let m = Value::Dict(vec![
        ("a".to_string(), Value::Integer(1)),
        ("b".to_string(), Value::String("x".to_string())),
    ]);
    assert_eq!(lunaria::value::stringify(&m), "{ 'a': 1, 'b': x }");
}

#[test]
fn stringify_empty_map() {
    assert_eq!(lunaria::value::stringify(&Value::Dict(vec![])), "{  }");
}

#[test]
fn stringify_list() {
    let l = Value::List(vec![Value::Integer(1), Value::Integer(2)]);
    assert_eq!(lunaria::value::stringify(&l), "[1, 2]");
}

#[test]
fn stringify_empty_list() {
    assert_eq!(lunaria::value::stringify(&Value::List(vec![])), "[]");
}

#[test]
fn stringify_nested_map_in_list() {
    let v = Value::List(vec![Value::Dict(vec![(
        "k".to_string(),
        Value::Boolean(false),
    )])]);
    assert_eq!(lunaria::value::stringify(&v), "[{ 'k': false }]");
}

#[test]
fn stringify_floats_distinguish_values() {
    let a = lunaria::value::stringify(&Value::Float(3.5f64.to_bits()));
    let b = lunaria::value::stringify(&Value::Float(2.5f64.to_bits()));
    assert!(!a.is_empty());
    assert_ne!(a, b);
}

#[test]
fn int_to_text_zero_and_negative() {
    assert_eq!(int_to_text(0), "0");
    assert_eq!(int_to_text(-1), "-1");
    assert_eq!(int_to_text(1000000), "1000000");
}

#[test]
fn number_value_integral_and_fractional() {
    assert_eq!(number_value(3.0f64.to_bits()), Value::Integer(3));
    assert_eq!(number_value(3.5f64.to_bits()), Value::Float(3.5f64.to_bits()));
    assert_eq!(number_value(0.0f64.to_bits()), Value::Integer(0));
    assert_eq!(number_value(0.25f64.to_bits()), Value::Float(0.25f64.to_bits()));
}

#[test]
fn number_value_saturates_out_of_range() {
    assert_eq!(number_value(1.0e10f64.to_bits()), Value::Integer(i32::MAX));
    assert_eq!(number_value((-1.0e10f64).to_bits()), Value::Integer(i32::MIN));
}

#[test]
fn number_value_huge_is_integral() {
    assert_eq!(number_value(1.0e300f64.to_bits()), Value::Integer(i32::MAX));
}

#[test]
fn hint_table_matches() {
    assert!(hint_matches(&"string".to_string(), &Value::String("s".to_string())));
    assert!(hint_matches(&"int".to_string(), &Value::Integer(1)));
    assert!(hint_matches(&"bool".to_string(), &Value::Boolean(true)));
    assert!(hint_matches(&"void".to_string(), &Value::Void));
    assert!(!hint_matches(&"int".to_string(), &Value::Float(1.5f64.to_bits())));
    assert!(!hint_matches(&"float".to_string(), &Value::Float(1.5f64.to_bits())));
    assert!(!hint_matches(&"string".to_string(), &Value::Integer(1)));
}

#[test]
fn repl_exit_line() {
    assert_eq!(repl_line("  exit() "), ReplAction::Exit);
}

#[test]
fn repl_console_line() {
    assert_eq!(
        repl_line("console.out(\"hi\");"),
        ReplAction::ConsoleOut("hi".to_string())
    );
}

#[test]
fn repl_console_line_trims_quotes() {
    assert_eq!(
        repl_line("  console.out(\"\"greet\"\");  "),
        ReplAction::ConsoleOut("greet".to_string())
    );
}

#[test]
fn repl_unsupported_line() {
    assert_eq!(repl_line("define x :: int := 1;"), ReplAction::Unsupported);
    assert_eq!(repl_line("console.out(\"hi\")"), ReplAction::Unsupported);
}
