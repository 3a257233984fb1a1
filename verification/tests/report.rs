use dingo_test_runner::executor::progress::{ProgressStats, ProgressTracker};
use dingo_test_runner::report::allure::AllureRenderer;
use dingo_test_runner::report::html::generate_plain_text_report;
use dingo_test_runner::report::xunit::escape_xml;
use dingo_test_runner::report::{
    create_renderer, create_renderer_with_allure_dir, format_name, html_escape, short_commit,
    EnvironmentInfo, ReportFigures, Renderer, SimpleHtmlRenderer, TerminalRenderer,
    TestSuiteResult, XunitRenderer,
};
use dingo_test_runner::tester::tester::{QueryFailureDetail, TestResult, TestStatus};

fn env() -> EnvironmentInfo {
    EnvironmentInfo {
        git_commit: Some("0123456789abcdef".to_string()),
        os: "linux".to_string(),
        rust_version: "0.2.0".to_string(),
        mysql_version: None,
        cli_args: vec!["runner".to_string(), "--all".to_string()],
    }
}

fn figures(n: usize) -> ReportFigures {
    ReportFigures {
        pass_rate: "50.0".to_string(),
        total_seconds_1: "0.3".to_string(),
        total_seconds_2: "0.30".to_string(),
        total_seconds_3: "0.300".to_string(),
        case_seconds_3: vec!["0.100".to_string(); n],
        generated_at: "2024-01-01 00:00:00".to_string(),
    }
}

fn suite() -> TestSuiteResult {
    let mut suite = TestSuiteResult::new("test-suite", "2024-01-01T00:00:00Z".to_string(), env());
    let mut passed = TestResult::new("test_passed");
    passed.duration_ms = 100;
    suite.add_case(passed);
    let mut failed = TestResult::new("test_failed");
    failed.duration_ms = 200;
    failed.mark_failed();
    failed.add_error("Assertion failed".to_string());
    failed.set_stdout("Some output".to_string());
    suite.add_case(failed);
    suite
}

#[test]
fn test_escape_xml() {
    assert_eq!(escape_xml("hello & world"), "hello &amp; world");
    assert_eq!(escape_xml("<test>"), "&lt;test&gt;");
    assert_eq!(escape_xml("\"quoted\""), "&quot;quoted&quot;");
}

#[test]
fn escape_html_and_apostrophes() {
    assert_eq!(escape_xml("it's"), "it&apos;s");
    assert_eq!(html_escape("<a href='x'>&</a>"), "&lt;a href=&#39;x&#39;&gt;&amp;&lt;/a&gt;");
}

#[test]
fn suite_counts() {
    let s = suite();
    assert_eq!(s.total_tests(), 2);
    assert_eq!(s.passed_tests(), 1);
    assert_eq!(s.failed_tests(), 1);
    assert_eq!(s.skipped_tests(), 0);
    assert!(!s.all_passed());
    assert_eq!(s.total_duration_ms, 300);
}

#[test]
fn xunit_report_content() {
    let s = suite();
    let content = XunitRenderer.render(&s, &figures(2));
    assert!(content.starts_with("<?xml version=\"1.0\" encoding=\"UTF-8\"?>\n"));
    assert!(content.contains(
        "<testsuite name=\"test-suite\" tests=\"2\" failures=\"1\" skipped=\"0\" time=\"0.300\" timestamp=\"2024-01-01T00:00:00Z\">"
    ));
    assert!(content.contains("    <property name=\"cli_args\" value=\"runner --all\"/>\n"));
    assert!(content.contains("test_passed"));
    assert!(content.contains("<testcase name=\"test_failed\" classname=\"mysql-test.test_failed\" time=\"0.100\">"));
    assert!(content.contains("failure"));
    assert!(content.contains("<![CDATA[Assertion failed]]>\n"));
    assert!(content.contains("    <system-out><![CDATA[Some output]]></system-out>\n"));
    assert!(content.ends_with("</testsuite>\n"));
}

#[test]
fn terminal_report_content() {
    let s = suite();
    let out = TerminalRenderer.render(&s, &figures(2));
    assert_eq!(
        out,
        "Total: 2 Passed: 1 Failed: 1 ⏱ 0.3 s\nPass rate: 50.0%\nFailed tests:\n  • test_failed\n    Assertion failed\n"
    );
}

#[test]
fn plain_and_html_reports() {
    let s = suite();
    let plain = generate_plain_text_report(&s, &figures(2));
    assert!(plain.contains("  • 总测试数: 2\n"));
    assert!(plain.contains("  1. ✓ test_passed (100 ms)\n"));
    assert!(plain.contains("  2. ✗ test_failed (200 ms)\n     错误: Assertion failed\n"));
    assert!(plain.contains("  • Git 提交: 01234567\n"));
    let html = SimpleHtmlRenderer.render(&s, &figures(2));
    assert!(html.starts_with("<!DOCTYPE html>\n"));
    assert!(html.contains("      <tr class=\"error\">\n"));
    assert!(html.contains("<span class=\"failed\">✗ FAILED</span>"));
    assert!(html.contains("    <li><strong>Git 提交:</strong> 01234567</li>\n"));
    assert!(html.ends_with("</body>\n</html>\n"));
}

#[test]
fn short_commit_cuts_at_eight_bytes() {
    assert_eq!(short_commit("abc"), "abc");
    assert_eq!(short_commit("0123456789"), "01234567");
    assert_eq!(short_commit("ééééé"), "éééé");
}

#[test]
fn renderer_choice() {
    assert_eq!(format_name(&create_renderer("TEXT").unwrap()), "plain");
    assert_eq!(format_name(&create_renderer("junit").unwrap()), "xunit");
    assert_eq!(create_renderer("pdf").unwrap_err().message(), "Unsupported report format: pdf");
    assert!(create_renderer("allure").is_err());
    assert_eq!(
        create_renderer_with_allure_dir("allure", None).unwrap_err().message(),
        "Allure format requires --allure-dir parameter"
    );
    match create_renderer_with_allure_dir("allure", Some("out")).unwrap() {
        Renderer::Allure(a) => assert_eq!(a.output_dir, "out"),
        _ => panic!("expected the Allure renderer"),
    }
}

#[test]
fn allure_steps_and_texts() {
    let r = AllureRenderer::new("out".to_string());
    let mut case = TestResult::new("t1");
    case.mark_failed();
    case.add_error("boom".to_string());
    case.query_failures.push(QueryFailureDetail {
        sql: "SELECT 1".to_string(),
        expected: "".to_string(),
        actual: "2".to_string(),
        line_number: 7,
        error_message: "mismatch".to_string(),
    });
    let steps = r.generate_test_steps(&case);
    assert_eq!(steps.len(), 2);
    assert_eq!(steps[0].name, "Test Execution Summary (t1)");
    assert_eq!(steps[0].status, "failed");
    assert_eq!(steps[1].name, "Query Failure #1 (Line 7)");
    let trace = steps[1].status_details.as_ref().unwrap().trace.clone().unwrap();
    assert_eq!(
        trace,
        "Line Number: 7\n\nSQL Query:\nSELECT 1\n\nError Message:\nmismatch\n\nResult Comparison:\nExpected: \nActual:   2"
    );
    assert_eq!(r.add_line_numbers_to_content("a\nb"), "  1: a\n  2: b");
    let details = r.generate_failure_details_content(&case, "now");
    assert!(details.contains("      Expected: (empty)\n"));
    assert!(details.ends_with("Generated at: now\n"));
    assert_eq!(r.parse_timestamps(&case, 1000).unwrap(), (1000, 1000, 0));
    case.start_time = "2024-01-01T00:00:00Z".to_string();
    case.end_time = "garbage".to_string();
    assert_eq!(r.parse_timestamps(&case, 1000).unwrap_err().message(), "Invalid end time format");
    case.end_time = "2024-01-01T00:00:01Z".to_string();
    assert_eq!(r.parse_timestamps(&case, 1000).unwrap(), (1704067200000, 1704067201000, 0));
    let record = r.test_result_record(&case, &suite(), "u-1", steps[0].time, Vec::new());
    assert_eq!(record.full_name, "mysql-test.mysql-test.t1.t1");
    assert_eq!(record.labels[5].value, "linux");
    assert!(record.parameters.is_empty() && record.links.is_empty());
    assert!(record.steps[1].steps.is_empty() && record.steps[1].parameters.is_empty());
    assert_eq!(record.status_details.unwrap().message.unwrap(), "boom");
    assert_eq!(
        r.environment_properties(&env()),
        "CLI.Args=runner --all\nGit.Commit=0123456789abcdef\nOS=linux\nRust.Version=0.2.0\n"
    );
}

#[test]
fn progress_counts_and_line() {
    let mut p = ProgressTracker::new(3);
    p.mark_passed();
    p.mark_failed();
    assert!(!p.is_complete());
    let stats = p.get_stats();
    assert_eq!(stats.completed, 2);
    assert_eq!(stats.format_progress(66, "1.5s"), "[ 66%] 2/3 tests (1 passed, 1 failed) - 1.5s");
    p.mark_passed();
    assert!(p.is_complete());
    let one_of_four = ProgressStats { total: 4, completed: 1, passed: 1, failed: 0 };
    let share = (1.0_f64 / 4.0 * 100.0) as u32;
    assert_eq!(one_of_four.format_progress(share, "2s"), "[ 25%] 1/4 tests (1 passed, 0 failed) - 2s");
    let empty = ProgressTracker::new(0).get_stats();
    assert_eq!(empty.percentage(0), 100);
    assert_eq!(empty.format_progress(0, "0ns"), "[100%] 0/0 tests (0 passed, 0 failed) - 0ns");
}

#[test]
fn skipped_case_in_xunit() {
    let mut s = TestSuiteResult::new("s", "t".to_string(), env());
    let mut c = TestResult::new("sk");
    c.status = TestStatus::Skipped;
    s.add_case(c);
    let content = XunitRenderer.render(&s, &figures(1));
    assert!(content.contains(">\n    <skipped/>\n  </testcase>\n"));
}

#[test]
fn xml_escape_round_trips_and_leaves_no_raw_specials() {
    let s = "a<b>&\"c'd";
    let e = escape_xml(s);
    assert_eq!(e, "a&lt;b&gt;&amp;&quot;c&apos;d");
    assert!(!e.contains('<') && !e.contains('>') && !e.contains('"') && !e.contains('\''));
    let back = e
        .replace("&lt;", "<")
        .replace("&gt;", ">")
        .replace("&quot;", "\"")
        .replace("&apos;", "'")
        .replace("&amp;", "&");
    assert_eq!(back, s);
    assert_eq!(escape_xml("plain text"), "plain text");
}

#[test]
fn tracker_counts_any_order_of_marks() {
    let mut p = ProgressTracker::new(4);
    p.mark_failed();
    p.mark_passed();
    p.mark_failed();
    p.mark_passed();
    let s = p.get_stats();
    assert_eq!((s.total, s.completed, s.passed, s.failed), (4, 4, 2, 2));
    assert_eq!(s.completed, s.passed + s.failed);
    assert!(p.is_complete());
}
