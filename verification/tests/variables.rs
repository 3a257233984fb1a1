use dingo_test_runner::tester::variables::{LetHandler, VariableContext};

#[test]
fn test_basic_variable_operations() {
    let mut ctx = VariableContext::new();
    ctx.set("test_var", "test_value");
    assert_eq!(ctx.get("test_var"), Some(&"test_value".to_string()));
    assert!(ctx.contains("test_var"));
    assert!(!ctx.contains("nonexistent"));
    assert_eq!(ctx.remove("test_var"), Some("test_value".to_string()));
    assert!(!ctx.contains("test_var"));
}

#[test]
fn test_simple_expansion() {
    let mut ctx = VariableContext::new();
    ctx.set("name", "world");
    let result = ctx.expand("Hello $name!").unwrap();
    assert_eq!(result, "Hello world!");
}

#[test]
fn test_multiple_variables() {
    let mut ctx = VariableContext::new();
    ctx.set("first", "Hello");
    ctx.set("second", "world");
    let result = ctx.expand("$first $second!").unwrap();
    assert_eq!(result, "Hello world!");
}

#[test]
fn test_recursive_expansion() {
    let mut ctx = VariableContext::new();
    ctx.set("base", "world");
    ctx.set("greeting", "Hello $base");
    let result = ctx.expand("$greeting!").unwrap();
    assert_eq!(result, "Hello world!");
}

#[test]
fn test_undefined_variable_error() {
    let ctx = VariableContext::new();
    let result = ctx.expand("Hello $undefined!");
    assert!(result.is_err());
    assert!(result.unwrap_err().message().contains("Undefined variable: $undefined"));
}

#[test]
fn test_infinite_recursion_protection() {
    let mut ctx = VariableContext::new();
    ctx.set("a", "$b");
    ctx.set("b", "$a");
    let result = ctx.expand("$a");
    assert!(result.is_err());
    assert!(result.unwrap_err().message().contains("exceeded maximum depth"));
}

#[test]
fn test_parse_let_statement_mysqltest_var() {
    let ctx = VariableContext::new();
    let stmt = ctx.parse_let_statement("let $test_var = hello world").unwrap();
    assert_eq!(stmt.name, "test_var");
    assert_eq!(stmt.value, "hello world");
    assert!(!stmt.is_env);
}

#[test]
fn test_parse_let_statement_env_var() {
    let ctx = VariableContext::new();
    let stmt = ctx.parse_let_statement("let TEST_VAR = hello world").unwrap();
    assert_eq!(stmt.name, "TEST_VAR");
    assert_eq!(stmt.value, "hello world");
    assert!(stmt.is_env);
}

#[test]
fn test_parse_let_statement_with_expansion() {
    let mut ctx = VariableContext::new();
    ctx.set("base", "world");
    let stmt = ctx.parse_let_statement("let $greeting = Hello $base").unwrap();
    assert_eq!(stmt.name, "greeting");
    assert_eq!(stmt.value, "Hello world");
    assert!(!stmt.is_env);
}

#[test]
fn test_parse_let_statement_invalid() {
    let ctx = VariableContext::new();
    assert!(ctx.parse_let_statement("let $var").is_err());
    assert!(ctx.parse_let_statement("let $ = value").is_err());
    assert!(ctx.parse_let_statement("let $var-name = value").is_err());
}

#[test]
fn test_no_variables_in_text() {
    let ctx = VariableContext::new();
    let result = ctx.expand("This text has no variables").unwrap();
    assert_eq!(result, "This text has no variables");
}

#[test]
fn test_variable_name_validation() {
    let ctx = VariableContext::new();
    assert!(ctx.parse_let_statement("let $valid_name = value").is_ok());
    assert!(ctx.parse_let_statement("let $valid123 = value").is_ok());
    assert!(ctx.parse_let_statement("let $_underscore = value").is_ok());
    assert!(ctx.parse_let_statement("let $123invalid = value").is_err());
    assert!(ctx.parse_let_statement("let $invalid-name = value").is_err());
    assert!(ctx.parse_let_statement("let $invalid.name = value").is_err());
}

#[test]
fn test_variable_expansion_debug() {
    let mut ctx = VariableContext::new();
    ctx.set("admin_flag", "1");
    ctx.set("a", "5");
    ctx.set("b", "3");
    let problematic = "✓ 逻辑与运算正常: $a > $b 且 admin_flag = $admin_flag";
    println!("Original: {}", problematic);
    let result = ctx.expand(problematic).unwrap();
    println!("Expanded: {}", result);
    let simple_var = "$admin_flag";
    let simple_result = ctx.expand(simple_var).unwrap();
    println!("Simple variable: {} -> {}", simple_var, simple_result);
    let arithmetic = "$a + $b";
    let arith_result = ctx.expand(arithmetic).unwrap();
    println!("Arithmetic: {} -> {}", arithmetic, arith_result);
}

#[test]
fn test_handle_mysqltest_variable() {
    let mut ctx = VariableContext::new();
    LetHandler::handle(&mut ctx, "let $test_var = hello world").unwrap();
    assert_eq!(ctx.get("test_var"), Some(&"hello world".to_string()));
}

#[test]
fn test_handle_variable_expansion() {
    let mut ctx = VariableContext::new();
    ctx.set("base", "world");
    LetHandler::handle(&mut ctx, "let $greeting = Hello $base").unwrap();
    assert_eq!(ctx.get("greeting"), Some(&"Hello world".to_string()));
}

#[test]
fn test_handle_invalid_statement() {
    let mut ctx = VariableContext::new();
    let result = LetHandler::handle(&mut ctx, "let invalid");
    assert!(result.is_err());
}

#[test]
fn test_handle_undefined_variable_in_value() {
    let ctx = VariableContext::new();
    let result = ctx.parse_let_statement("let $test = $undefined");
    assert!(result.is_err());
    assert!(result.unwrap_err().message().contains("Undefined variable"));
}

#[test]
fn set_then_get_gives_value_back() {
    let mut ctx = VariableContext::default();
    ctx.set("x", "1");
    ctx.set("x", "2");
    assert_eq!(ctx.get("x"), Some(&"2".to_string()));
    assert_eq!(ctx.keys().len(), 1);
    ctx.clear();
    assert!(!ctx.contains("x"));
}

#[test]
fn expansion_is_idempotent_on_example() {
    let mut ctx = VariableContext::new();
    ctx.set("a", "x$b");
    ctx.set("b", "y");
    let once = ctx.expand("[$a]").unwrap();
    assert_eq!(once, "[xy]");
    assert_eq!(ctx.expand(&once).unwrap(), once);
}

#[test]
fn expansion_leaves_no_reference_when_values_have_no_dollar() {
    let mut ctx = VariableContext::new();
    ctx.set("a", "x");
    let r = ctx.expand("$a and $a, $_ok? no: $1").unwrap_err();
    assert!(r.message().contains("_ok"));
    let mut ctx = VariableContext::new();
    ctx.set("a", "x");
    ctx.set("b_2", "y");
    let r = ctx.expand("$a+$b_2 costs $5").unwrap();
    assert_eq!(r, "x+y costs $5");
    assert_eq!(ctx.expand(&r).unwrap(), r);
}
