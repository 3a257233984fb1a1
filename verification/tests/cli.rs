use dingo_test_runner::cli::{Args, ResolvedTest};
use dingo_test_runner::resolve::{InputProbe, NameProbe};

fn create_test_args(test_files: Vec<String>) -> Args {
    Args {
        host: "127.0.0.1".to_string(),
        port: "3306".to_string(),
        user: "root".to_string(),
        passwd: "".to_string(),
        log_level: "error".to_string(),
        record: false,
        params: "".to_string(),
        all: false,
        reserve_schema: false,
        xunit_file: "".to_string(),
        report_format: "terminal".to_string(),
        allure_dir: "".to_string(),
        retry_conn_count: 1,
        check_err: false,
        collation_disable: false,
        extension: "result".to_string(),
        email_enable: false,
        email_smtp_host: "".to_string(),
        email_smtp_port: 587,
        email_username: "".to_string(),
        email_password: "".to_string(),
        email_from: "".to_string(),
        email_to: "".to_string(),
        email_enable_tls: false,
        test_files,
        fail_fast: false,
    }
}

#[test]
fn test_resolve_nonexistent_input() {
    let args = create_test_args(vec!["nonexistent".to_string()]);
    let nothing = InputProbe::Name(NameProbe { exact: None, relative: None, t_tests: None });
    let result = args.resolve_test_inputs(&vec![nothing]);
    assert!(result.is_err());
    let error_msg = result.unwrap_err().message();
    assert!(error_msg.contains("Could not resolve test input"));
    assert!(error_msg.contains("Hint: Use one of these formats"));
}

fn test(name: &str, path: &str) -> ResolvedTest {
    ResolvedTest { name: name.to_string(), path: path.to_string() }
}

#[test]
fn resolution_sorts_matches_and_drops_repeats() {
    let args = create_test_args(vec!["feature".to_string(), "sel".to_string(), "t/feature/a.test".to_string()]);
    let dir = InputProbe::Directory(vec![test("b", "feature/b.test"), test("a", "feature/a.test")]);
    let partial = InputProbe::Name(NameProbe {
        exact: None,
        relative: None,
        t_tests: Some(vec![test("zz/select", "t/zz/select.test"), test("insert", "t/insert.test"), test("select", "t/select.test")]),
    });
    let file = InputProbe::File { is_test: true, name: "feature/a".to_string() };
    let tests = args.resolve_test_inputs(&vec![dir, partial, file]).unwrap();
    let names: Vec<&str> = tests.iter().map(|t| t.name.as_str()).collect();
    assert_eq!(names, vec!["a", "b", "select", "zz/select", "feature/a"]);
    let again = create_test_args(vec!["feature".to_string(), "feature".to_string()]);
    let d = || InputProbe::Directory(vec![test("a", "feature/a.test")]);
    assert_eq!(again.resolve_test_inputs(&vec![d(), d()]).unwrap().len(), 1);
}

#[test]
fn resolution_errors() {
    let args = create_test_args(vec!["notes.txt".to_string()]);
    let err = args.resolve_test_inputs(&vec![InputProbe::File { is_test: false, name: "notes".to_string() }]);
    assert_eq!(err.unwrap_err().message(), "File must have .test extension: notes.txt");
    let empty = create_test_args(vec!["dir".to_string()]);
    let err = empty.resolve_test_inputs(&vec![InputProbe::Directory(vec![])]);
    assert_eq!(err.unwrap_err().message(), "No .test files found in directory: dir");
    let exact = create_test_args(vec!["basic.test".to_string()]);
    let found = exact
        .resolve_test_inputs(&vec![InputProbe::Name(NameProbe {
            exact: Some("t/basic.test".to_string()),
            relative: None,
            t_tests: None,
        })])
        .unwrap();
    assert_eq!(found[0].name, "basic");
    assert_eq!(found[0].path, "t/basic.test");
}

#[test]
fn settings_are_validated() {
    let args = create_test_args(vec!["basic".to_string()]);
    assert!(args.validate().is_ok());
    assert_eq!(
        create_test_args(vec![]).validate().unwrap_err().message(),
        "No test files specified. Use --all to run all tests or specify test files."
    );
    let mut bad_port = create_test_args(vec![]);
    bad_port.port = "70000".to_string();
    assert_eq!(bad_port.validate().unwrap_err().message(), "Invalid port: 70000");
    let mut bad_level = create_test_args(vec![]);
    bad_level.log_level = "loud".to_string();
    assert_eq!(bad_level.validate().unwrap_err().message(), "Invalid log level: loud");
    let mut upper = create_test_args(vec!["basic".to_string()]);
    upper.log_level = "DEBUG".to_string();
    assert!(upper.validate().is_ok());
}

#[test]
fn email_settings() {
    let mut args = create_test_args(vec![]);
    assert!(args.validate_email_config().is_ok());
    assert!(args.get_email_config("now").is_none());
    args.email_enable = true;
    assert_eq!(
        args.validate_email_config().unwrap_err().message(),
        "SMTP host is required when email is enabled"
    );
    args.email_smtp_host = "smtp.example.com".to_string();
    args.email_username = "bot@example.com".to_string();
    args.email_to = " a@example.com , ,b@example.com".to_string();
    let config = args.get_email_config("2024-01-01 00:00:00").unwrap();
    assert_eq!(config.to, vec!["a@example.com".to_string(), "b@example.com".to_string()]);
    assert_eq!(config.from, "bot@example.com");
}

#[test]
fn email_address_length_counts_bytes() {
    let mut args = create_test_args(vec![]);
    args.email_enable = true;
    args.email_smtp_host = "smtp.example.com".to_string();
    args.email_username = "bot".to_string();
    args.email_password = "secret".to_string();
    args.email_to = " é@ab ".to_string();
    assert!(args.validate_email_config().is_ok());
    args.email_to = "x@example.com, a@bc".to_string();
    assert_eq!(
        args.validate_email_config().unwrap_err().message(),
        "Invalid email address: a@bc"
    );
}
