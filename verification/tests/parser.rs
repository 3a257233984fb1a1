use dingo_test_runner::tester::parser::{create_parser, default_parser, QueryParser};
use dingo_test_runner::tester::query::QueryType;

#[test]
fn parser_test_parse_simple_query() {
    let mut parser = default_parser();
    let content = "SELECT 1;";
    let queries = parser.parse(content).expect("Failed to parse simple query");
    assert_eq!(queries.len(), 1);
    assert_eq!(queries[0].query_type, QueryType::Query);
    assert_eq!(queries[0].query, "SELECT 1");
}

#[test]
fn parser_test_parse_command() {
    let mut parser = default_parser();
    let content = "--echo hello world";
    let queries = parser.parse(content).expect("Failed to parse command");
    assert_eq!(queries.len(), 1);
    assert_eq!(queries[0].query_type, QueryType::Echo);
    assert_eq!(queries[0].query, "hello world");
}

#[test]
fn parser_test_parse_comment() {
    let mut parser = default_parser();
    let content = "# This is a comment";
    let queries = parser.parse(content).expect("Failed to parse comment");
    assert_eq!(queries.len(), 1);
    assert_eq!(queries[0].query_type, QueryType::Comment);
}

#[test]
fn parser_test_parse_multiline_query() {
    let mut parser = default_parser();
    let content = "SELECT 1\nFROM dual;";
    let queries = parser.parse(content).expect("Failed to parse multiline query");
    assert_eq!(queries.len(), 1);
    assert_eq!(queries[0].query_type, QueryType::Query);
    assert_eq!(queries[0].query, "SELECT 1\nFROM dual");
}

#[test]
fn parser_test_delimiter_change() {
    let mut parser = default_parser();
    let content = "--delimiter //\nSELECT 1//\n--delimiter ;\nSELECT 2;";
    let queries = parser.parse(content).expect("Failed to parse delimiter change");
    assert_eq!(queries.len(), 4);
    assert_eq!(queries[0].query_type, QueryType::Delimiter);
    assert_eq!(queries[0].query, "//");
    assert_eq!(queries[1].query_type, QueryType::Query);
    assert_eq!(queries[1].query, "SELECT 1");
    assert_eq!(queries[2].query_type, QueryType::Delimiter);
    assert_eq!(queries[2].query, ";");
    assert_eq!(queries[3].query_type, QueryType::Query);
    assert_eq!(queries[3].query, "SELECT 2");
}

#[test]
fn pest_parser_test_pest_parse_simple_query() {
    let mut parser = create_parser("pest").expect("Failed to create pest parser");
    let content = "SELECT 1;";
    let queries = parser.parse(content).expect("Failed to parse simple query");
    assert_eq!(queries.len(), 1);
    assert_eq!(queries[0].query_type, QueryType::Query);
    assert_eq!(queries[0].query.trim(), "SELECT 1");
}

#[test]
fn pest_parser_test_pest_parse_command() {
    let mut parser = create_parser("pest").expect("Failed to create pest parser");
    let content = "--echo hello world";
    let queries = parser.parse(content).expect("Failed to parse command");
    assert_eq!(queries.len(), 1);
    assert_eq!(queries[0].query_type, QueryType::Echo);
    assert_eq!(queries[0].query, "hello world");
}

#[test]
fn pest_parser_test_pest_parse_comment() {
    let mut parser = create_parser("pest").expect("Failed to create pest parser");
    let content = "# This is a comment";
    let queries = parser.parse(content).expect("Failed to parse comment");
    assert_eq!(queries.len(), 1);
    assert_eq!(queries[0].query_type, QueryType::Comment);
    assert!(queries[0].query.contains("This is a comment"));
}

#[test]
fn pest_parser_test_pest_parse_if_statement() {
    let mut parser = create_parser("pest").expect("Failed to create pest parser");
    let content = "if ($var > 0) {\n--echo positive\n}";
    let queries = parser.parse(content).expect("Failed to parse if statement");
    assert!(!queries.is_empty());
    let if_query = queries.iter().find(|q| q.query_type == QueryType::If);
    assert!(if_query.is_some());
    assert_eq!(if_query.unwrap().query.trim(), "$var > 0");
}

#[test]
fn pest_parser_test_pest_parse_delimiter_change() {
    let mut parser = create_parser("pest").expect("Failed to create pest parser");
    let content = "--delimiter //\nSELECT 1//";
    let queries = parser.parse(content).expect("Failed to parse delimiter change");
    assert!(queries.len() >= 2);
    let delimiter_query = queries.iter().find(|q| q.query_type == QueryType::Delimiter);
    assert!(delimiter_query.is_some());
    assert_eq!(delimiter_query.unwrap().query, "//");
    let sql_query = queries.iter().find(|q| q.query_type == QueryType::Query);
    assert!(sql_query.is_some());
    assert_eq!(sql_query.unwrap().query.trim(), "SELECT 1");
}

#[test]
fn test_pest_parser_basic_functionality() {
    let mut parser = create_parser("pest").expect("Failed to create pest parser");
    let content = r#"
# This is a comment
--echo Hello World
SELECT 1;
--delimiter //
SELECT 2//
if ($var > 0) {
    --echo positive
}
"#;
    let queries = parser.parse(content).expect("Failed to parse content");
    assert!(queries.len() > 0);
    let comment_queries: Vec<_> = queries.iter().filter(|q| q.query_type == QueryType::Comment).collect();
    assert!(!comment_queries.is_empty());
    let echo_queries: Vec<_> = queries.iter().filter(|q| q.query_type == QueryType::Echo).collect();
    assert!(!echo_queries.is_empty());
    assert_eq!(echo_queries[0].query, "Hello World");
    let sql_queries: Vec<_> = queries.iter().filter(|q| q.query_type == QueryType::Query).collect();
    assert!(!sql_queries.is_empty());
    let delimiter_queries: Vec<_> =
        queries.iter().filter(|q| q.query_type == QueryType::Delimiter).collect();
    assert!(!delimiter_queries.is_empty());
    assert_eq!(delimiter_queries[0].query, "//");
    let if_queries: Vec<_> = queries.iter().filter(|q| q.query_type == QueryType::If).collect();
    assert!(!if_queries.is_empty());
    assert_eq!(if_queries[0].query.trim(), "$var > 0");
}

#[test]
fn test_default_parser_uses_pest() {
    let mut parser = default_parser();
    let content = "--echo test";
    let queries = parser.parse(content).expect("Failed to parse with default parser");
    assert_eq!(queries.len(), 1);
    assert_eq!(queries[0].query_type, QueryType::Echo);
    assert_eq!(queries[0].query, "test");
}

#[test]
fn test_pest_parser_comprehensive() {
    let test_cases = vec![
        ("SELECT 1;", QueryType::Query, "SELECT 1"),
        ("--echo hello", QueryType::Echo, "hello"),
        ("# comment", QueryType::Comment, "#comment"),
        ("let $x = 5", QueryType::Let, "$x = 5"),
        ("--sleep 1", QueryType::Sleep, "1"),
    ];
    for (test_content, expected_type, expected_query) in test_cases {
        let mut parser = create_parser("pest").expect("Failed to create pest parser");
        let queries = parser.parse(test_content).expect("Failed to parse content");
        assert_eq!(queries.len(), 1, "Expected exactly one query for: {}", test_content);
        assert_eq!(queries[0].query_type, expected_type, "Query type mismatch for: {}", test_content);
        assert_eq!(queries[0].query.trim(), expected_query, "Query content mismatch for: {}", test_content);
    }
}

#[test]
fn debug_pest_parser() {
    let mut parser = create_parser("pest").expect("Failed to create pest parser");
    let content = "--echo Hello World";
    println!("Parsing content: '{}'", content);
    let queries = parser.parse(content).expect("Failed to parse content");
    println!("Parsed {} queries:", queries.len());
    for (i, query) in queries.iter().enumerate() {
        println!("Query {}: type={:?}, content='{}', line={}", i, query.query_type, query.query, query.line);
    }
    assert!(true);
}

#[test]
fn debug_pest_parser_simple_sql() {
    let mut parser = create_parser("pest").expect("Failed to create pest parser");
    let content = "SELECT 1;";
    println!("Parsing SQL content: '{}'", content);
    let queries = parser.parse(content).expect("Failed to parse content");
    println!("Parsed {} queries from SQL:", queries.len());
    for (i, query) in queries.iter().enumerate() {
        println!("Query {}: type={:?}, content='{}', line={}", i, query.query_type, query.query, query.line);
    }
    assert!(true);
}

#[test]
fn debug_pest_parser_advanced() {
    let mut parser = create_parser("pest").expect("Failed to create pest parser");
    let content = "--echo Hello World";
    println!("Parsing content: '{}'", content);
    let queries = parser.parse(content).expect("Failed to parse with pest");
    println!("Pest parser results:");
    for (i, query) in queries.iter().enumerate() {
        println!("  Query {}: type={:?}, content='{}'", i, query.query_type, query.query);
    }
    assert!(true);
}

#[test]
fn debug_pest_parsing_complex() {
    let content = r#"--echo # concurrent_advanced.test - 高级并发功能测试
--echo # 演示并发块与变量、连接管理的综合应用

--let $table_name = concurrent_advanced_test
CREATE TABLE $table_name (
    id INT PRIMARY KEY,
    name VARCHAR(50),
    value INT
);"#;
    let mut parser = create_parser("pest").unwrap();
    let queries = parser.parse(content).unwrap();
    println!("\n=== Pest Parser Results ===");
    for (i, query) in queries.iter().enumerate() {
        println!("{}: type={:?}, content='{}'", i, query.query_type, query.query);
    }
    assert!(queries.len() > 0, "Should parse at least one query");
}

#[test]
fn unknown_parser_type_is_refused() {
    let err = create_parser("yacc").unwrap_err();
    assert!(err.message().contains("yacc"));
    assert!(create_parser("PEST").is_ok());
    assert!(create_parser("default").is_ok());
}

#[test]
fn parse_records_line_numbers_and_control_flow() {
    let mut parser = default_parser();
    let content = "--echo a\nwhile ($i < 3) {\ninc $i\n}\nSELECT 2;";
    let queries = parser.parse(content).unwrap();
    let kinds: Vec<QueryType> = queries.iter().map(|q| q.query_type).collect();
    assert_eq!(kinds[0], QueryType::Echo);
    assert_eq!(queries[0].line, 1);
    assert!(kinds.contains(&QueryType::While));
    assert!(kinds.contains(&QueryType::Inc));
    assert_eq!(*kinds.last().unwrap(), QueryType::Query);
    assert_eq!(queries.last().unwrap().query, "SELECT 2");
    assert_eq!(queries.last().unwrap().line, 5);
}
