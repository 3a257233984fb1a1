use dingo_test_runner::tester::connection_manager::{ConnectParams, ConnectionManager};
use dingo_test_runner::tester::database::{
    create_database_sql, drop_database_sql, drop_table_sql, list_tables_sql,
    retries_exhausted_message, sanitize_db_name, test_database_name, unique_db_suffix,
    ConnectRetry, ConnectionInfo, DatabaseKind,
};

fn create_test_connection_info() -> ConnectionInfo {
    ConnectionInfo {
        host: "127.0.0.1".to_string(),
        port: 3306,
        user: "root".to_string(),
        password: "".to_string(),
        database: "test".to_string(),
        params: "".to_string(),
    }
}

fn manager() -> ConnectionManager<()> {
    ConnectionManager {
        connections: Vec::new(),
        current_connection: "default".to_string(),
        default_connection_info: create_test_connection_info(),
        max_retries: 1,
    }
}

#[test]
fn database_test_connection_info_creation() {
    let info = create_test_connection_info();
    assert_eq!(info.host, "127.0.0.1");
    assert_eq!(info.port, 3306);
    assert_eq!(info.user, "root");
    assert_eq!(info.database, "test");
}

#[test]
fn database_test_unsupported_database_type() {
    let _info = create_test_connection_info();
    let result = DatabaseKind::parse("unsupported");
    assert!(result.is_err());
    assert!(result.unwrap_err().message().contains("Unsupported database type"));
}

#[test]
fn database_test_mysql_database_info_format() {
    let info = create_test_connection_info();
    let expected_info = "mysql://root@127.0.0.1:3306/test";
    let formatted_info = format!("mysql://{}@{}:{}/{}", info.user, info.host, info.port, info.database);
    assert_eq!(formatted_info, expected_info);
    assert_eq!(info.info(), expected_info);
}

#[test]
fn mysql_kind_is_case_insensitive() {
    assert_eq!(DatabaseKind::parse("MySQL").unwrap(), DatabaseKind::MySQL);
}

#[test]
fn schema_names_of_tests() {
    assert_eq!(sanitize_db_name("basic/select.test"), "basic_select_test");
    assert_eq!(sanitize_db_name("__a--b__"), "a_b");
    assert_eq!(sanitize_db_name("---"), "dingo");
    assert_eq!(sanitize_db_name("é"), "dingo");
    let long = "x".repeat(70);
    assert_eq!(sanitize_db_name(&long).len(), 55);
    assert_eq!(test_database_name("t/a.test", ""), "test_t_a_test");
    assert_eq!(
        test_database_name("a", "charset=utf8&test_db_suffix=w3&x=1"),
        "test_a_w3"
    );
}

#[test]
fn suffix_is_taken_from_the_first_matching_key() {
    assert_eq!(unique_db_suffix(""), None);
    assert_eq!(unique_db_suffix("test_db_suffix"), None);
    assert_eq!(unique_db_suffix("test_db_suffix=a=b"), Some("a=b".to_string()));
    assert_eq!(unique_db_suffix("x=1&test_db_suffix=7&test_db_suffix=8"), Some("7".to_string()));
}

#[test]
fn schema_statements() {
    assert_eq!(drop_database_sql("test_a"), "DROP DATABASE IF EXISTS `test_a`");
    assert_eq!(create_database_sql("test_a"), "CREATE DATABASE `test_a`");
    assert_eq!(
        list_tables_sql("test_a"),
        "SELECT table_name AS tbl_name FROM information_schema.tables WHERE table_schema = 'test_a'"
    );
    assert_eq!(drop_table_sql("test_a", "t1"), "DROP TABLE IF EXISTS `test_a`.`t1`");
}

#[test]
fn retries_back_off_and_give_up() {
    let mut r = ConnectRetry::new();
    assert_eq!(r.after_failure(3), Some(100));
    assert_eq!(r.after_failure(3), Some(200));
    assert_eq!(r.after_failure(3), None);
    let mut r = ConnectRetry { attempts: 0, delay_ms: 8000 };
    assert_eq!(r.after_failure(5), Some(8000));
    assert_eq!(r.delay_ms, 10000);
    let mut r = ConnectRetry::new();
    assert_eq!(r.after_failure(0), None);
    assert_eq!(retries_exhausted_message(3, "refused"), "Failed to connect after 3 attempts: refused");
}

#[test]
fn test_parse_connect_params_full() {
    let manager = manager();
    let params = manager
        .parse_connect_params("(conn1,localhost,user,pass,db,3307)")
        .expect("Failed to parse full connection parameters");
    assert_eq!(params.connection_name, "conn1");
    assert_eq!(params.host, "localhost");
    assert_eq!(params.user, "user");
    assert_eq!(params.password, "pass");
    assert_eq!(params.database, "db");
    assert_eq!(params.port, "3307");
}

#[test]
fn test_parse_connect_params_minimal() {
    let manager = manager();
    let params = manager.parse_connect_params("(conn1)").expect("Failed to parse minimal connection parameters");
    assert_eq!(params.connection_name, "conn1");
    assert_eq!(params.host, "");
    assert_eq!(params.user, "");
}

#[test]
fn test_build_connection_info_with_defaults() {
    let manager = manager();
    let params = ConnectParams {
        connection_name: "test_conn".to_string(),
        host: "".to_string(),
        user: "".to_string(),
        password: "".to_string(),
        database: "".to_string(),
        port: "".to_string(),
    };
    let info = manager.build_connection_info(&params).expect("Failed to build connection info with defaults");
    assert_eq!(info.host, "127.0.0.1");
    assert_eq!(info.user, "root");
    assert_eq!(info.port, 3306);
}

#[test]
fn test_connection_manager_interface() {
    let manager = manager();
    let connections = manager.list_connections();
    assert_eq!(connections.len(), 0);
    let info = manager.current_connection_info();
    assert!(info.contains("default"));
}

#[test]
fn connect_errors() {
    let manager = manager();
    assert_eq!(
        manager.parse_connect_params("conn1, localhost").unwrap_err().message(),
        "Connect parameters must be enclosed in parentheses"
    );
    let err = manager.connect_target("(c, h, u, p, d, 99999)").unwrap_err();
    assert_eq!(err.message(), "Invalid port: 99999");
    let (name, info) = manager.connect_target(" ( c2 , otherhost , , , , 3310 ) ").unwrap();
    assert_eq!(name, "c2");
    assert_eq!(info.host, "otherhost");
    assert_eq!(info.user, "root");
    assert_eq!(info.port, 3310);
}

#[test]
fn connections_switch_and_close() {
    let mut m = ConnectionManager::new(create_test_connection_info(), 1, 0u32);
    assert_eq!(m.list_connections(), vec!["default".to_string()]);
    m.add_connection("c1".to_string(), 1);
    assert_eq!(m.current_connection, "c1");
    assert_eq!(*m.current_database().unwrap(), 1);
    assert!(m.switch_connection("default").is_ok());
    assert_eq!(*m.current_database().unwrap(), 0);
    assert_eq!(m.switch_connection("nope").unwrap_err().message(), "Connection 'nope' does not exist");
    assert_eq!(m.disconnect("default").unwrap_err().message(), "Cannot disconnect the default connection");
    m.switch_connection("c1").unwrap();
    m.disconnect("c1").unwrap();
    assert_eq!(m.current_connection, "default");
    assert_eq!(m.list_connections(), vec!["default".to_string()]);
    m.add_connection("c1".to_string(), 5);
    m.add_connection("c1".to_string(), 6);
    assert_eq!(m.list_connections().len(), 2);
    assert_eq!(*m.current_database().unwrap(), 6);
    assert_eq!(
        m.current_connection_info(),
        "Current connection: c1 (available: [\"default\", \"c1\"])"
    );
}
