use dingo_test_runner::tester::error_handler::{ErrorCheckResult, MySQLErrorHandler};
use dingo_test_runner::util::error_utils::{OptionExt, SafeParse};

#[test]
fn error_handler_test_error_handler_creation() {
    let handler = MySQLErrorHandler::new();
    assert!(handler.error_name_map().contains_key("ER_DUP_KEY"));
    assert_eq!(handler.error_name_map().get("ER_DUP_KEY"), Some(&1022));
}

#[test]
fn error_handler_test_error_check_result() {
    let result = ErrorCheckResult::NoError;
    assert!(result.is_success());
    assert!(result.error_message().is_none());
    let result = ErrorCheckResult::UnexpectedErrorOccurred("test error".to_string());
    assert!(!result.is_success());
    assert!(result.error_message().is_some());
}

#[test]
fn error_utils_test_option_ext() {
    let some_value: Option<i32> = Some(42);
    let result = some_value.or_context("Expected value");
    assert!(result.is_ok());
    assert_eq!(result.unwrap(), 42);
    let none_value: Option<i32> = None;
    let result = none_value.or_context("Value was None");
    assert!(result.is_err());
    assert!(result.unwrap_err().message().contains("Value was None"));
}

#[test]
fn error_utils_test_safe_parse() {
    let result = SafeParse::parse_u16("123", "port");
    assert!(result.is_ok());
    assert_eq!(result.unwrap(), 123);
    let result = SafeParse::parse_u16("abc", "port");
    assert!(result.is_err());
    assert!(result.unwrap_err().message().contains("Failed to parse port"));
}

#[test]
fn safe_parse_u32_limits() {
    assert_eq!(SafeParse::parse_u32("4294967295", "n").unwrap(), 4294967295);
    assert!(SafeParse::parse_u32("4294967296", "n").is_err());
    assert!(SafeParse::parse_u16("65536", "port").is_err());
    assert_eq!(SafeParse::parse_u16("+7", "port").unwrap(), 7);
}

#[test]
fn expected_error_by_name_and_code() {
    let handler = MySQLErrorHandler::new();
    let expected = vec!["ER_DUP_KEY".to_string()];
    assert!(handler.check_expected_error(Some(1022), &expected));
    let by_number = vec![" 1062 ".to_string()];
    assert!(handler.check_expected_error(Some(1062), &by_number));
    assert!(!handler.check_expected_error(Some(1064), &by_number));
    assert!(!handler.check_expected_error(None, &by_number));
    assert!(!handler.check_expected_error(Some(1062), &[]));
    let any = vec!["0".to_string()];
    assert!(handler.check_expected_error(None, &any));
}

#[test]
fn test_option_ext() {
    let some_value: Option<i32> = Some(42);
    let result = some_value.or_context("Expected value");
    assert!(result.is_ok());
    assert_eq!(result.unwrap(), 42);
    let none_value: Option<i32> = None;
    let result = none_value.or_context("Value was None");
    assert!(result.is_err());
    assert!(result.unwrap_err().message().contains("Value was None"));
}
