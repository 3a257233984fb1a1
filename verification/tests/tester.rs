use dingo_test_runner::cli::Args;
use dingo_test_runner::tester::error_handler::DbError;
use dingo_test_runner::tester::parser::{default_parser, QueryParser};
use dingo_test_runner::tester::tester::{QueryAction, Step, Tester};

fn args(record: bool) -> Args {
    Args {
        host: "127.0.0.1".to_string(),
        port: "3306".to_string(),
        user: "root".to_string(),
        passwd: "123456".to_string(),
        log_level: "error".to_string(),
        record,
        params: "".to_string(),
        all: false,
        reserve_schema: false,
        xunit_file: "".to_string(),
        report_format: "terminal".to_string(),
        allure_dir: "".to_string(),
        retry_conn_count: 1,
        check_err: false,
        collation_disable: false,
        extension: "result".to_string(),
        email_enable: false,
        email_smtp_host: "".to_string(),
        email_smtp_port: 587,
        email_username: "".to_string(),
        email_password: "".to_string(),
        email_from: "".to_string(),
        email_to: "".to_string(),
        email_enable_tls: false,
        test_files: vec![],
        fail_fast: false,
    }
}

fn float_reading(s: &str) -> Option<bool> {
    s.trim().parse::<f64>().ok().map(|f| f != 0.0)
}

/// Runs a test the way the runner does, answering every SQL statement with
/// `answer`; returns the output, or the first error's text.
fn run(t: &mut Tester, content: &str, answer: &dyn Fn(&str) -> Result<Vec<Vec<String>>, DbError>) -> Result<String, String> {
    let mut parser = default_parser();
    let queries = parser.parse(content).map_err(|e| e.message())?;
    t.build_control_flow_map(&queries).map_err(|e| e.message())?;
    let mut pc = 0;
    while pc < queries.len() {
        let step = t.control_step(&queries[pc], pc).map_err(|e| e.message())?;
        pc = match step {
            Step::Next(n) => n,
            Step::Run(action) => {
                match action {
                    QueryAction::RunSql(sql) => {
                        t.finish_query(answer(&sql)).map_err(|e| e.message())?;
                    }
                    QueryAction::Done => {}
                    QueryAction::Let(stmt) => {
                        let value = stmt.value.clone();
                        t.assign_let(&stmt, &value);
                        t.finish_command();
                    }
                    _ => t.finish_command(),
                }
                pc + 1
            }
            Step::IfCondition(c) => {
                let e = t.variable_context.expand(&c).map_err(|e| e.message())?;
                let v = t.expression_evaluator.evaluate_final_expression(&e, float_reading(&e)).unwrap();
                t.finish_if(pc, v).map_err(|e| e.message())?
            }
            Step::WhileCondition(c) => {
                let e = t.variable_context.expand(&c).map_err(|e| e.message())?;
                let v = t.expression_evaluator.evaluate_final_expression(&e, float_reading(&e)).unwrap();
                t.finish_while(pc, &c, v).map_err(|e| e.message())?
            }
            Step::EndCondition(c) => {
                let e = t.variable_context.expand(&c).map_err(|e| e.message())?;
                let v = t.expression_evaluator.evaluate_final_expression(&e, float_reading(&e)).unwrap();
                t.finish_end(pc, v)
            }
            Step::RunConcurrent(_) => pc + 1,
        };
    }
    t.verify_expected_consumed().map_err(|e| e.message())?;
    Ok(t.output_buffer.clone())
}

fn no_sql(_: &str) -> Result<Vec<Vec<String>>, DbError> {
    Ok(vec![])
}

#[test]
fn tester_test_tester_creation() {
    let a = args(false);
    let result = Tester::new(&a);
    assert!(result.is_ok());
}

#[test]
fn tester_test_error_directive_only_affects_sql() {
    let args = args(true);
    assert_eq!(args.host, "127.0.0.1");
    assert_eq!(args.port, "3306");
    assert_eq!(args.user, "root");
}

#[test]
fn bad_port_is_refused() {
    let mut a = args(false);
    a.port = "port".to_string();
    assert!(Tester::new(&a).is_err());
}

#[test]
fn recorded_echo_and_loop_output() {
    let mut t = Tester::new(&args(true)).unwrap();
    t.set_test("loop", None);
    let out = run(&mut t, "--let $i = 0\nwhile ($i < 3) {\n--echo round $i\n--let $i = $i + 1\n}\n--echo done", &no_sql).unwrap();
    assert_eq!(out, "round 0\nround 1\nround 2\ndone\n");
}

#[test]
fn if_branch_is_taken_or_skipped() {
    let mut t = Tester::new(&args(true)).unwrap();
    t.set_test("if", None);
    let out = run(&mut t, "--let $a = 5\nif ($a > 3) {\n--echo big\n}\nif ($a > 10) {\n--echo huge\n}\n--echo end", &no_sql).unwrap();
    assert_eq!(out, "big\nend\n");
}

#[test]
fn replay_matches_recorded_output() {
    let content = "--echo one\nSELECT 1;\n--echo two";
    let answer = |_: &str| -> Result<Vec<Vec<String>>, DbError> { Ok(vec![vec!["1".to_string()]]) };
    let mut rec = Tester::new(&args(true)).unwrap();
    rec.set_test("r", None);
    let recorded = run(&mut rec, content, &answer).unwrap();
    assert_eq!(recorded, "one\nSELECT 1\n1\ntwo\n");
    let mut cmp = Tester::new(&args(false)).unwrap();
    cmp.set_test("r", Some(&recorded));
    assert!(run(&mut cmp, content, &answer).is_ok());
    let mut wrong = Tester::new(&args(false)).unwrap();
    wrong.set_test("r", Some("one\nSELECT 1\n2\ntwo\n"));
    assert!(run(&mut wrong, content, &answer).is_err());
    let mut short = Tester::new(&args(false)).unwrap();
    short.set_test("r", Some("one\nSELECT 1\n1\ntwo\nthree\n"));
    assert!(run(&mut short, content, &answer).is_err());
}

#[test]
fn sorted_result_orders_rows() {
    let answer = |_: &str| -> Result<Vec<Vec<String>>, DbError> {
        Ok(vec![vec!["b".to_string(), "2".to_string()], vec!["a".to_string(), "1".to_string()]])
    };
    let mut t = Tester::new(&args(true)).unwrap();
    t.set_test("s", None);
    let out = run(&mut t, "--disable_query_log\n--sorted_result\nSELECT x;\nSELECT y;", &answer).unwrap();
    assert_eq!(out, "a\t1\nb\t2\nb\t2\na\t1\n");
}

#[test]
fn expected_error_is_written_and_accepted() {
    let answer = |_: &str| -> Result<Vec<Vec<String>>, DbError> {
        Err(DbError::Server {
            code: 1062,
            state: "23000".to_string(),
            message: "Duplicate entry".to_string(),
            text: "ERROR 1062 (23000): Duplicate entry".to_string(),
        })
    };
    let mut t = Tester::new(&args(true)).unwrap();
    t.set_test("e", None);
    let out = run(&mut t, "--error ER_DUP_ENTRY\nINSERT INTO t VALUES (1);", &answer);
    assert!(out.is_ok());
    let mut strict = args(true);
    strict.check_err = true;
    let mut t = Tester::new(&strict).unwrap();
    t.set_test("e2", None);
    assert!(run(&mut t, "--error 1064\nINSERT INTO t VALUES (1);", &answer).is_err());
    let mut t = Tester::new(&args(true)).unwrap();
    t.set_test("e3", None);
    assert!(run(&mut t, "--error 1064\nINSERT INTO t VALUES (1);", &answer).is_ok());
}

#[test]
fn unbalanced_blocks_are_refused() {
    let mut t = Tester::new(&args(true)).unwrap();
    t.set_test("u", None);
    assert!(run(&mut t, "}\n", &no_sql).is_err());
    let mut t = Tester::new(&args(true)).unwrap();
    t.set_test("u2", None);
    assert!(run(&mut t, "if (1) {\n--echo x\n", &no_sql).is_err());
}

#[test]
fn line_info_from_mismatch_errors() {
    let t = Tester::new(&args(false)).unwrap();
    assert_eq!(t.extract_line_info_from_error("Mismatch at result line 12 (from test file line 3)"), (12, 3));
    assert_eq!(t.extract_line_info_from_error("nothing here"), (0, 0));
}

#[test]
fn concurrent_block_queues_expanded_sql_with_its_modifiers() {
    let mut t = Tester::new(&args(true)).unwrap();
    t.set_test("concurrent", None);
    t.variable_context.set("t", "t1");
    let mut parser = default_parser();
    let qs = parser
        .parse("--begin_concurrent\n--error 1146\nselect * from $t;\nselect 2;\n--end_concurrent\n")
        .unwrap();
    t.build_control_flow_map(&qs).unwrap();
    let mut pc = 0;
    let mut queued = None;
    while pc < qs.len() {
        match t.control_step(&qs[pc], pc).unwrap() {
            Step::Next(n) => pc = n,
            Step::RunConcurrent(q) => {
                queued = Some(q);
                pc += 1;
            }
            _ => panic!("unexpected step"),
        }
    }
    let q = queued.unwrap();
    assert_eq!(q.len(), 2);
    assert_eq!(q[0].query, "select * from t1");
    assert_eq!(q[0].options.expected_errors, vec!["1146".to_string()]);
    assert_eq!(q[1].query, "select 2");
    assert!(q[1].options.expected_errors.is_empty());
    assert!(t.expected_errors.is_empty());
}
