use dingo_test_runner::cli::Args;
use dingo_test_runner::tester::tester::Tester;

fn create_test_tester() -> Tester {
    let args = Args {
        host: "127.0.0.1".to_string(),
        port: "3306".to_string(),
        user: "root".to_string(),
        passwd: "".to_string(),
        log_level: "error".to_string(),
        record: true,
        params: "".to_string(),
        all: false,
        reserve_schema: false,
        xunit_file: "".to_string(),
        report_format: "terminal".to_string(),
        allure_dir: "".to_string(),
        retry_conn_count: 3,
        check_err: false,
        collation_disable: false,
        extension: "result".to_string(),
        email_enable: false,
        email_smtp_host: "".to_string(),
        email_smtp_port: 587,
        email_username: "".to_string(),
        email_password: "".to_string(),
        email_from: "MySQL Tester".to_string(),
        email_to: "".to_string(),
        email_enable_tls: false,
        test_files: vec![],
        fail_fast: false,
    };
    Tester::new(&args).expect("Failed to create test tester")
}

/// What `sh -c` gives for the commands these tests run: exit code and
/// standard output.
fn shell(command: &str) -> Result<(i32, String), String> {
    match command {
        "echo 'Hello World'" => Ok((0, "Hello World\n".to_string())),
        "exit 1" => Ok((1, String::new())),
        "echo 'success'" => Ok((0, "success\n".to_string())),
        "echo 'This should not appear'" => Ok((0, "This should not appear\n".to_string())),
        "true" => Ok((0, String::new())),
        "printf 'Line 1\\nLine 2\\nLine 3\\n'" => Ok((0, "Line 1\nLine 2\nLine 3\n".to_string())),
        other => Err(format!("no such command in this test: {}", other)),
    }
}

fn exec(tester: &mut Tester, command: &str) -> Result<(), String> {
    tester.finish_exec(command, shell(command)).map_err(|e| e.message())
}

#[test]
fn exec_test_exec_simple_command() {
    let mut tester = create_test_tester();
    let result = exec(&mut tester, "echo 'Hello World'");
    assert!(result.is_ok(), "Exec command should succeed: {:?}", result);
    assert!(tester.output_buffer.contains("Hello World"), "got: {}", tester.output_buffer);
}

#[test]
fn exec_test_exec_command_with_exit_code() {
    let mut tester = create_test_tester();
    tester.expected_errors = vec!["1".to_string()];
    let result = exec(&mut tester, "exit 1");
    assert!(result.is_ok(), "Exec command with expected error should succeed: {:?}", result);
    let output = &tester.output_buffer;
    assert!(
        output.contains("ERROR: Command failed with exit code 1") || output.contains("Got one of the listed errors"),
        "got: {}",
        output
    );
}

#[test]
fn exec_test_exec_unexpected_failure() {
    let mut tester = create_test_tester();
    let result = exec(&mut tester, "exit 1");
    assert!(result.is_err(), "Exec command with unexpected failure should fail");
    let error_msg = result.unwrap_err();
    assert!(error_msg.contains("failed with exit code: 1"), "got: {}", error_msg);
}

#[test]
fn exec_test_exec_expected_success_but_failed() {
    let mut tester = create_test_tester();
    tester.check_err = true;
    tester.expected_errors = vec!["0".to_string()];
    let result = exec(&mut tester, "exit 1");
    assert!(result.is_err(), "Should fail when expected success but got failure");
}

#[test]
fn exec_test_exec_expected_failure_but_succeeded() {
    let mut tester = create_test_tester();
    tester.check_err = true;
    tester.expected_errors = vec!["1".to_string()];
    let result = exec(&mut tester, "echo 'success'");
    assert!(result.is_err(), "Should fail when expected failure but got success");
}

#[test]
fn exec_test_exec_with_result_log_disabled() {
    let mut tester = create_test_tester();
    tester.enable_result_log = false;
    let result = exec(&mut tester, "echo 'This should not appear'");
    assert!(result.is_ok(), "Exec command should succeed: {:?}", result);
    assert!(tester.output_buffer.is_empty(), "got: {}", tester.output_buffer);
}

#[test]
fn exec_test_exec_with_regex_replacement() {
    let mut tester = create_test_tester();
    tester.pending_replace_regex.push(("Hello".to_string(), "Hi".to_string()));
    let result = exec(&mut tester, "echo 'Hello World'");
    assert!(result.is_ok(), "Exec command should succeed: {:?}", result);
    assert!(tester.output_buffer.contains("Hi World"), "got: {}", tester.output_buffer);
    assert!(!tester.output_buffer.contains("Hello World"));
}

#[test]
fn exec_test_exec_empty_output() {
    let mut tester = create_test_tester();
    let result = exec(&mut tester, "true");
    assert!(result.is_ok(), "Exec command should succeed: {:?}", result);
    assert!(tester.output_buffer.is_empty(), "got: '{}'", tester.output_buffer);
}

#[test]
fn exec_test_exec_multiline_output() {
    let mut tester = create_test_tester();
    let result = exec(&mut tester, "printf 'Line 1\\nLine 2\\nLine 3\\n'");
    assert!(result.is_ok(), "Exec command should succeed: {:?}", result);
    let lines: Vec<&str> = tester.output_buffer.lines().collect();
    assert_eq!(lines.len(), 3, "got: {:?}", lines);
    assert_eq!(lines[0], "Line 1");
    assert_eq!(lines[1], "Line 2");
    assert_eq!(lines[2], "Line 3");
}

#[test]
fn exec_that_cannot_start_is_an_error() {
    let mut tester = create_test_tester();
    let result = tester.finish_exec("missing", Err("No such file".to_string()));
    assert_eq!(result.unwrap_err().message(), "Failed to execute shell command 'missing': No such file");
}
