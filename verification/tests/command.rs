use dingo_test_runner::tester::command::Command;

#[test]
fn test_command_new() {
    let cmd = Command::new("echo", "Hello World", 42);
    assert_eq!(cmd.name, "echo");
    assert_eq!(cmd.args, "Hello World");
    assert_eq!(cmd.line, 42);
}

#[test]
fn test_command_default() {
    let cmd = Command::default();
    assert_eq!(cmd.name, "");
    assert_eq!(cmd.args, "");
    assert_eq!(cmd.line, 0);
}

#[test]
fn test_command_is_type() {
    let cmd = Command::new("sleep", "1.5", 10);
    assert!(cmd.is_type("sleep"));
    assert!(!cmd.is_type("echo"));
    assert!(!cmd.is_type("Sleep"));
}

#[test]
fn test_command_getters() {
    let cmd = Command::new("connect", "server1", 15);
    assert_eq!(cmd.get_name(), "connect");
    assert_eq!(cmd.get_args(), "server1");
    assert_eq!(cmd.get_line(), 15);
}

#[test]
fn test_command_clone() {
    let cmd1 = Command::new("test", "args", 20);
    let cmd2 = cmd1.clone();
    assert_eq!(cmd1.name, cmd2.name);
    assert_eq!(cmd1.args, cmd2.args);
    assert_eq!(cmd1.line, cmd2.line);
}

#[test]
fn test_command_empty_args() {
    let cmd = Command::new("disconnect", "", 5);
    assert_eq!(cmd.get_args(), "");
    assert!(cmd.is_type("disconnect"));
}

#[test]
fn test_command_multiline_args() {
    let args = "SELECT * FROM table\nWHERE id = 1";
    let cmd = Command::new("query", args, 30);
    assert_eq!(cmd.get_args(), args);
    assert!(cmd.get_args().contains('\n'));
}

#[test]
fn test_echo_command_parsing() {
    let cmd = Command::new("echo", "test message", 1);
    assert_eq!(cmd.get_name(), "echo");
    assert_eq!(cmd.get_args(), "test message");
}

#[test]
fn test_echo_function_exists() {
    let cmd = Command::default();
    assert_eq!(cmd.get_name(), "");
}
