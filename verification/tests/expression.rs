use dingo_test_runner::tester::expression::ExpressionEvaluator;
use dingo_test_runner::tester::variables::VariableContext;
use dingo_test_runner::tester::variables::LetHandler;

fn float_reading(s: &str) -> Option<bool> {
    s.trim().parse::<f64>().ok().map(|f| f != 0.0)
}

fn eval(e: &ExpressionEvaluator, s: &str) -> bool {
    e.evaluate_final_expression(s, float_reading(s)).unwrap()
}

#[test]
fn test_simple_expressions() {
    let evaluator = ExpressionEvaluator::new();
    let _var_context = VariableContext::new();
    assert!(eval(&evaluator, "1"));
    assert!(!eval(&evaluator, "0"));
    assert!(eval(&evaluator, "5 > 3"));
    assert!(!eval(&evaluator, "2 > 5"));
    assert!(eval(&evaluator, "\"hello\""));
    assert!(!eval(&evaluator, "\"\""));
}

#[test]
fn test_variable_expansion() {
    let evaluator = ExpressionEvaluator::new();
    let mut var_context = VariableContext::new();
    var_context.set("test_var", "5");
    var_context.set("zero_var", "0");
    let expanded1 = var_context.expand("$test_var > 3").unwrap();
    assert_eq!(expanded1, "5 > 3");
    assert!(eval(&evaluator, &expanded1));
    let expanded2 = var_context.expand("$zero_var").unwrap();
    assert_eq!(expanded2, "0");
    assert!(!eval(&evaluator, &expanded2));
}

#[test]
fn blank_and_word_conditions() {
    let evaluator = ExpressionEvaluator::default();
    assert!(!eval(&evaluator, "   "));
    assert!(eval(&evaluator, "0.5"));
    assert!(!eval(&evaluator, "0.0"));
    assert!(eval(&evaluator, "1 + 1 == 2"));
}

#[test]
fn texts_that_can_make_evalexpr_panic_are_not_evaluated() {
    assert_eq!(LetHandler::try_evaluate_expression("str::substring(\"abc\", 0, 1)"), Some("a".to_string()));
    assert_eq!(LetHandler::try_evaluate_expression("str::substring(\"éa\", 0, 1)"), None);
    assert_eq!(LetHandler::try_evaluate_expression("shl(1, 70)"), None);
    assert_eq!(LetHandler::try_evaluate_expression("shr(1, 70)"), None);
    assert_eq!(LetHandler::try_evaluate_expression("math::abs(-9223372036854775807 - 1)"), None);
    assert_eq!(LetHandler::evaluate_value_optimistically("shl(1, 70)"), "shl(1, 70)");
    assert_eq!(LetHandler::try_evaluate_expression("1 + 2"), Some("3".to_string()));
}
