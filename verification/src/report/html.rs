//! The HTML page and the plain-text report (the one sent by mail).

use vstd::prelude::*;
use crate::report::{
    byte_prefix, count_status, ends_on_char, escape_with, html_entity, html_escape, indented_lines,
    push_indented_lines, short_commit, text_if, ReportFigures, SimpleHtmlRenderer, TestSuiteResult,
};
use crate::tester::tester::{TestResult, TestStatus};
use crate::text::{chars_of, push_all, decimal, pad_left, push_decimal, push_padded_decimal, push_repeat, push_str,
    string_views, to_string};

verus! {

/// Whether a commit id shown in a report can be cut at its eighth byte.
pub open spec fn commit_cuttable(suite: TestSuiteResult) -> bool {
    match suite.environment.git_commit {
        Some(c) => ends_on_char(c@, 8),
        None => true,
    }
}

/// The mark of a status.
pub open spec fn status_icon(s: TestStatus) -> Seq<char> {
    match s {
        TestStatus::Passed => "✓"@,
        TestStatus::Failed => "✗"@,
        TestStatus::Skipped => "⊘"@,
    }
}

/// A rule of `n` copies of `c`.
pub open spec fn rule(c: char, n: nat) -> Seq<char> {
    Seq::new(n, |i: int| c)
}

/// The lines of the plain-text report for the case numbered `number`.
pub open spec fn plain_case_line(number: nat, c: TestResult) -> Seq<char> {
    pad_left(decimal(number), 3) + ". "@ + status_icon(c.status) + " "@ + c.test_name@ + " ("@
        + decimal(c.duration_ms as nat) + " ms)\n"@ + indented_lines(
        string_views(c.errors@),
        "     错误: "@,
    )
}

/// The lines of the plain-text report for the cases `cases`, numbered from
/// 1: number, mark, name and time, then each error.
pub open spec fn plain_case_lines(cases: Seq<TestResult>) -> Seq<char>
    decreases cases.len(),
{
    if cases.len() == 0 {
        Seq::empty()
    } else {
        plain_case_lines(cases.drop_last()) + plain_case_line(cases.len(), cases.last())
    }
}

/// `prefix`, the decimal `n`, then `suffix`.
pub open spec fn number_line(prefix: Seq<char>, n: nat, suffix: Seq<char>) -> Seq<char> {
    prefix + decimal(n) + suffix
}

/// The summary block of the plain-text report.
pub open spec fn plain_summary(suite: TestSuiteResult, figures: ReportFigures) -> Seq<char> {
    "📋 执行摘要:\n"@ + number_line("  • 总测试数: "@, suite.cases@.len(), "\n"@) + number_line(
        "  • 通过: "@,
        count_status(suite.cases@, TestStatus::Passed),
        " ✓\n"@,
    ) + number_line("  • 失败: "@, count_status(suite.cases@, TestStatus::Failed), " ✗\n"@)
        + number_line("  • 跳过: "@, count_status(suite.cases@, TestStatus::Skipped), " ⊘\n"@)
        + ("  • 通过率: "@ + figures.pass_rate@ + "%\n"@) + ("  • 总用时: "@
        + figures.total_seconds_2@ + "s\n"@) + "\n"@
}

fn push_number_line(out: &mut Vec<char>, prefix: &str, n: usize, suffix: &str)
    ensures
        final(out)@ == old(out)@ + number_line(prefix@, n as nat, suffix@),
{
    push_str(out, prefix);
    push_decimal(out, n as u64);
    push_str(out, suffix);
    assert(final(out)@ =~= old(out)@ + number_line(prefix@, n as nat, suffix@));
}

fn push_text_line(out: &mut Vec<char>, prefix: &str, text: &str, suffix: &str)
    ensures
        final(out)@ == old(out)@ + (prefix@ + text@ + suffix@),
{
    push_str(out, prefix);
    push_str(out, text);
    push_str(out, suffix);
    assert(final(out)@ =~= old(out)@ + (prefix@ + text@ + suffix@));
}

/// The environment block of the plain-text report.
pub open spec fn plain_environment(suite: TestSuiteResult, figures: ReportFigures) -> Seq<char> {
    "🔧 环境信息:\n"@ + "  • 操作系统: "@ + suite.environment.os@ + "\n"@ + (match suite.environment.git_commit {
        Some(c) => "  • Git 提交: "@ + byte_prefix(c@, 8) + "\n"@,
        None => Seq::empty(),
    }) + "  • Rust 版本: "@ + suite.environment.rust_version@ + "\n"@ + "  • 生成时间: "@
        + figures.generated_at@ + "\n"@ + "\n"@
}

/// The plain-text report of a run.
pub open spec fn plain_text_report(suite: TestSuiteResult, figures: ReportFigures) -> Seq<char> {
    rule('=', 60) + "\n📊 MySQL 测试报告\n"@ + rule('=', 60) + "\n"@ + plain_summary(
        suite,
        figures,
    ) + text_if(
        suite.cases@.len() > 0,
        "🧪 测试详情:\n"@ + rule('-', 60) + "\n"@ + plain_case_lines(suite.cases@) + "\n"@,
    ) + plain_environment(suite, figures) + rule('=', 60) + "\n由 MySQL Test Runner (Rust) 自动生成\n"@
        + rule('=', 60)
}

fn push_plain_summary(out: &mut Vec<char>, suite: &TestSuiteResult, figures: &ReportFigures)
    ensures
        final(out)@ == old(out)@ + plain_summary(*suite, *figures),
{
    push_str(out, "📋 执行摘要:\n");
    push_number_line(out, "  • 总测试数: ", suite.total_tests(), "\n");
    push_number_line(out, "  • 通过: ", suite.passed_tests(), " ✓\n");
    push_number_line(out, "  • 失败: ", suite.failed_tests(), " ✗\n");
    push_number_line(out, "  • 跳过: ", suite.skipped_tests(), " ⊘\n");
    push_text_line(out, "  • 通过率: ", figures.pass_rate.as_str(), "%\n");
    push_text_line(out, "  • 总用时: ", figures.total_seconds_2.as_str(), "s\n");
    push_str(out, "\n");
    assert(final(out)@ =~= old(out)@ + plain_summary(*suite, *figures));
}

fn push_status_icon(out: &mut Vec<char>, s: TestStatus)
    ensures
        final(out)@ == old(out)@ + status_icon(s),
{
    match s {
        TestStatus::Passed => push_str(out, "✓"),
        TestStatus::Failed => push_str(out, "✗"),
        TestStatus::Skipped => push_str(out, "⊘"),
    }
}

fn push_plain_case(out: &mut Vec<char>, number: u64, c: &TestResult)
    ensures
        final(out)@ == old(out)@ + plain_case_line(number as nat, *c),
{
    push_padded_decimal(out, number, 3);
    push_str(out, ". ");
    push_status_icon(out, c.status);
    push_str(out, " ");
    push_str(out, c.test_name.as_str());
    push_str(out, " (");
    push_decimal(out, c.duration_ms);
    push_str(out, " ms)\n");
    push_indented_lines(out, &c.errors, "     错误: ");
    assert(final(out)@ =~= old(out)@ + plain_case_line(number as nat, *c));
}

fn push_plain_cases(out: &mut Vec<char>, cases: &Vec<TestResult>)
    requires
        cases@.len() < u64::MAX,
    ensures
        final(out)@ == old(out)@ + plain_case_lines(cases@),
{
    let ghost start = out@;
    let mut i: usize = 0;
    while i < cases.len()
        invariant
            i <= cases@.len() < u64::MAX,
            out@ == start + plain_case_lines(cases@.take(i as int)),
        decreases cases@.len() - i,
    {
        push_plain_case(out, (i + 1) as u64, &cases[i]);
        proof {
            let t = cases@.take(i + 1);
            assert(t.drop_last() =~= cases@.take(i as int));
            assert(t.len() == i + 1);
        }
        i += 1;
        assert(out@ =~= start + plain_case_lines(cases@.take(i as int)));
    }
    assert(cases@.take(i as int) =~= cases@);
}

fn push_plain_environment(out: &mut Vec<char>, suite: &TestSuiteResult, figures: &ReportFigures)
    requires
        commit_cuttable(*suite),
    ensures
        final(out)@ == old(out)@ + plain_environment(*suite, *figures),
{
    push_str(out, "🔧 环境信息:\n");
    push_str(out, "  • 操作系统: ");
    push_str(out, suite.environment.os.as_str());
    push_str(out, "\n");
    let ghost a = out@;
    match &suite.environment.git_commit {
        Some(c) => {
            push_str(out, "  • Git 提交: ");
            let short = short_commit(c.as_str());
            push_str(out, short.as_str());
            push_str(out, "\n");
        },
        None => {},
    }
    push_str(out, "  • Rust 版本: ");
    push_str(out, suite.environment.rust_version.as_str());
    push_str(out, "\n");
    push_str(out, "  • 生成时间: ");
    push_str(out, figures.generated_at.as_str());
    push_str(out, "\n");
    push_str(out, "\n");
    assert(final(out)@ =~= old(out)@ + plain_environment(*suite, *figures));
}

/// The plain-text report of `suite` (see [`plain_text_report`]).
pub fn generate_plain_text_report(suite: &TestSuiteResult, figures: &ReportFigures) -> (res: String)
    requires
        commit_cuttable(*suite),
        suite.cases@.len() < u64::MAX,
    ensures
        res@ == plain_text_report(*suite, *figures),
{
    let mut out: Vec<char> = Vec::new();
    push_repeat(&mut out, '=', 60);
    push_str(&mut out, "\n📊 MySQL 测试报告\n");
    push_repeat(&mut out, '=', 60);
    push_str(&mut out, "\n");
    push_plain_summary(&mut out, suite, figures);
    let ghost a = out@;
    if suite.cases.len() > 0 {
        push_str(&mut out, "🧪 测试详情:\n");
        push_repeat(&mut out, '-', 60);
        push_str(&mut out, "\n");
        push_plain_cases(&mut out, &suite.cases);
        push_str(&mut out, "\n");
    }
    assert(out@ =~= a + text_if(
        suite.cases@.len() > 0,
        "🧪 测试详情:\n"@ + rule('-', 60) + "\n"@ + plain_case_lines(suite.cases@) + "\n"@,
    ));
    push_plain_environment(&mut out, suite, figures);
    push_repeat(&mut out, '=', 60);
    push_str(&mut out, "\n由 MySQL Test Runner (Rust) 自动生成\n");
    push_repeat(&mut out, '=', 60);
    assert(out@ =~= plain_text_report(*suite, *figures));
    to_string(&out)
}

/// The start of the HTML page, up to its body.
pub open spec fn html_head() -> Seq<char> {
    "<!DOCTYPE html>\n"@ + "<html lang=\"zh-CN\">\n"@ + "<head>\n"@ + "  <meta charset=\"UTF-8\">\n"@ + "  <meta name=\"viewport\" content=\"width=device-width, initial-scale=1.0\">\n"@ + "  <title>MySQL 测试报告</title>\n"@ + "  <style>\n"@ + "    body { font-family: Arial, sans-serif; margin: 20px; }\n"@ + "    .summary { background: #f5f5f5; padding: 15px; border-radius: 5px; margin-bottom: 20px; }\n"@ + "    .passed { color: #28a745; font-weight: bold; }\n"@ + "    .failed { color: #dc3545; font-weight: bold; }\n"@ + "    .skipped { color: #ffc107; font-weight: bold; }\n"@ + "    table { border-collapse: collapse; width: 100%; }\n"@ + "    th, td { border: 1px solid #ddd; padding: 8px; text-align: left; }\n"@ + "    th { background-color: #f2f2f2; }\n"@ + "    .error { background-color: #f8d7da; }\n"@ + "  </style>\n"@ + "</head>\n"@ + "<body>\n"@
}

/// The heading of the case table.
pub open spec fn html_table_head() -> Seq<char> {
    "  <h2>🧪 测试详情</h2>\n"@ + "  <table>\n"@ + "    <thead>\n"@ + "      <tr>\n"@ + "        <th>序号</th>\n"@ + "        <th>测试名称</th>\n"@ + "        <th>状态</th>\n"@ + "        <th>用时 (ms)</th>\n"@ + "        <th>通过查询</th>\n"@ + "        <th>失败查询</th>\n"@ + "        <th>首个错误</th>\n"@ + "      </tr>\n"@ + "    </thead>\n"@ + "    <tbody>\n"@
}

fn push_html_head(out: &mut Vec<char>)
    ensures
        final(out)@ == old(out)@ + html_head(),
{
    push_str(out, "<!DOCTYPE html>\n");
    push_str(out, "<html lang=\"zh-CN\">\n");
    push_str(out, "<head>\n");
    push_str(out, "  <meta charset=\"UTF-8\">\n");
    push_str(out, "  <meta name=\"viewport\" content=\"width=device-width, initial-scale=1.0\">\n");
    push_str(out, "  <title>MySQL 测试报告</title>\n");
    push_str(out, "  <style>\n");
    push_str(out, "    body { font-family: Arial, sans-serif; margin: 20px; }\n");
    push_str(out, "    .summary { background: #f5f5f5; padding: 15px; border-radius: 5px; margin-bottom: 20px; }\n");
    push_str(out, "    .passed { color: #28a745; font-weight: bold; }\n");
    push_str(out, "    .failed { color: #dc3545; font-weight: bold; }\n");
    push_str(out, "    .skipped { color: #ffc107; font-weight: bold; }\n");
    push_str(out, "    table { border-collapse: collapse; width: 100%; }\n");
    push_str(out, "    th, td { border: 1px solid #ddd; padding: 8px; text-align: left; }\n");
    push_str(out, "    th { background-color: #f2f2f2; }\n");
    push_str(out, "    .error { background-color: #f8d7da; }\n");
    push_str(out, "  </style>\n");
    push_str(out, "</head>\n");
    push_str(out, "<body>\n");
    assert(final(out)@ =~= old(out)@ + html_head());
}

fn push_html_table_head(out: &mut Vec<char>)
    ensures
        final(out)@ == old(out)@ + html_table_head(),
{
    push_str(out, "  <h2>🧪 测试详情</h2>\n");
    push_str(out, "  <table>\n");
    push_str(out, "    <thead>\n");
    push_str(out, "      <tr>\n");
    push_str(out, "        <th>序号</th>\n");
    push_str(out, "        <th>测试名称</th>\n");
    push_str(out, "        <th>状态</th>\n");
    push_str(out, "        <th>用时 (ms)</th>\n");
    push_str(out, "        <th>通过查询</th>\n");
    push_str(out, "        <th>失败查询</th>\n");
    push_str(out, "        <th>首个错误</th>\n");
    push_str(out, "      </tr>\n");
    push_str(out, "    </thead>\n");
    push_str(out, "    <tbody>\n");
    assert(final(out)@ =~= old(out)@ + html_table_head());
}

/// The class name of a status.
pub open spec fn status_class(s: TestStatus) -> Seq<char> {
    match s {
        TestStatus::Passed => "passed"@,
        TestStatus::Failed => "failed"@,
        TestStatus::Skipped => "skipped"@,
    }
}

/// The class name of a status in capitals.
pub open spec fn status_label(s: TestStatus) -> Seq<char> {
    match s {
        TestStatus::Passed => "PASSED"@,
        TestStatus::Failed => "FAILED"@,
        TestStatus::Skipped => "SKIPPED"@,
    }
}

/// The first error of a case, escaped, or `-`.
pub open spec fn first_error_cell(c: TestResult) -> Seq<char> {
    if c.errors@.len() > 0 {
        escape_with(c.errors@[0]@, |ch: char| html_entity(ch))
    } else {
        "-"@
    }
}

/// The table row of the case numbered `number`.
pub open spec fn html_row(number: nat, c: TestResult) -> Seq<char> {
    html_row_head(number, c) + html_row_tail(c)
}

/// The first cells of a case's row: number, name and status.
pub open spec fn html_row_head(number: nat, c: TestResult) -> Seq<char> {
    html_row_open(c) + html_cell(decimal(number)) + html_cell(
        escape_with(c.test_name@, |ch: char| html_entity(ch)),
    ) + html_status_cell(c.status)
}

/// The start of a case's row, marked where the case failed.
pub open spec fn html_row_open(c: TestResult) -> Seq<char> {
    "      <tr"@ + text_if(c.status == TestStatus::Failed, " class=\"error\""@) + ">\n"@
}

/// A table cell holding `text`.
pub open spec fn html_cell(text: Seq<char>) -> Seq<char> {
    "        <td>"@ + text + "</td>\n"@
}

/// The status cell of a row.
pub open spec fn html_status_cell(s: TestStatus) -> Seq<char> {
    "        <td><span class=\""@ + status_class(s) + "\">"@ + status_icon(s) + " "@ + status_label(s)
        + "</span></td>\n"@
}

/// The last cells of a case's row: time, query counts and first error.
pub open spec fn html_row_tail(c: TestResult) -> Seq<char> {
    "        <td>"@ + decimal(c.duration_ms as nat) + "</td>\n"@ + "        <td>"@ + decimal(
        c.passed_queries as nat,
    ) + "</td>\n"@ + "        <td>"@ + decimal(c.failed_queries as nat) + "</td>\n"@
        + "        <td>"@ + first_error_cell(c) + "</td>\n"@ + "      </tr>\n"@
}

/// The table rows of `cases`, numbered from 1.
pub open spec fn html_rows(cases: Seq<TestResult>) -> Seq<char>
    decreases cases.len(),
{
    if cases.len() == 0 {
        Seq::empty()
    } else {
        html_rows(cases.drop_last()) + html_row(cases.len(), cases.last())
    }
}

/// The summary block of the HTML page.
pub open spec fn html_summary(suite: TestSuiteResult, figures: ReportFigures) -> Seq<char> {
    "  <div class=\"summary\">\n"@ + "    <h2>📊 执行摘要</h2>\n"@ + number_line(
        "    <p><strong>总测试数:</strong> "@,
        suite.cases@.len(),
        "</p>\n"@,
    ) + number_line(
        "    <p><strong>通过:</strong> <span class=\"passed\">"@,
        count_status(suite.cases@, TestStatus::Passed),
        "</span></p>\n"@,
    ) + number_line(
        "    <p><strong>失败:</strong> <span class=\"failed\">"@,
        count_status(suite.cases@, TestStatus::Failed),
        "</span></p>\n"@,
    ) + number_line(
        "    <p><strong>跳过:</strong> <span class=\"skipped\">"@,
        count_status(suite.cases@, TestStatus::Skipped),
        "</span></p>\n"@,
    ) + ("    <p><strong>通过率:</strong> "@ + figures.pass_rate@ + "%</p>\n"@) + (
    "    <p><strong>总用时:</strong> "@ + figures.total_seconds_2@ + "s</p>\n"@) + (
    "    <p><strong>生成时间:</strong> "@ + figures.generated_at@ + "</p>\n"@) + "  </div>\n"@
}

/// The environment block of the HTML page.
pub open spec fn html_environment(suite: TestSuiteResult) -> Seq<char> {
    "  <h2>🔧 环境信息</h2>\n"@ + "  <ul>\n"@ + "    <li><strong>操作系统:</strong> "@
        + suite.environment.os@ + "</li>\n"@ + "    <li><strong>Rust 版本:</strong> "@
        + suite.environment.rust_version@ + "</li>\n"@ + (match suite.environment.git_commit {
        Some(c) => "    <li><strong>Git 提交:</strong> "@ + byte_prefix(c@, 8) + "</li>\n"@,
        None => Seq::empty(),
    }) + (match suite.environment.mysql_version {
        Some(v) => "    <li><strong>MySQL 版本:</strong> "@ + v@ + "</li>\n"@,
        None => Seq::empty(),
    }) + "  </ul>\n"@
}

/// The HTML page of a run.
pub open spec fn html_report(suite: TestSuiteResult, figures: ReportFigures) -> Seq<char> {
    html_head() + "  <h1>🧪 MySQL 测试报告: "@ + suite.name@ + "</h1>\n"@ + html_summary(
        suite,
        figures,
    ) + text_if(
        suite.cases@.len() > 0,
        html_table_head() + html_rows(suite.cases@) + "    </tbody>\n"@ + "  </table>\n"@,
    ) + html_environment(suite) + "</body>\n"@ + "</html>\n"@
}

fn push_html_summary(out: &mut Vec<char>, suite: &TestSuiteResult, figures: &ReportFigures)
    ensures
        final(out)@ == old(out)@ + html_summary(*suite, *figures),
{
    push_str(out, "  <div class=\"summary\">\n");
    push_str(out, "    <h2>📊 执行摘要</h2>\n");
    push_number_line(out, "    <p><strong>总测试数:</strong> ", suite.total_tests(), "</p>\n");
    push_number_line(
        out,
        "    <p><strong>通过:</strong> <span class=\"passed\">",
        suite.passed_tests(),
        "</span></p>\n",
    );
    push_number_line(
        out,
        "    <p><strong>失败:</strong> <span class=\"failed\">",
        suite.failed_tests(),
        "</span></p>\n",
    );
    push_number_line(
        out,
        "    <p><strong>跳过:</strong> <span class=\"skipped\">",
        suite.skipped_tests(),
        "</span></p>\n",
    );
    push_text_line(out, "    <p><strong>通过率:</strong> ", figures.pass_rate.as_str(), "%</p>\n");
    push_text_line(out, "    <p><strong>总用时:</strong> ", figures.total_seconds_2.as_str(), "s</p>\n");
    push_text_line(out, "    <p><strong>生成时间:</strong> ", figures.generated_at.as_str(), "</p>\n");
    push_str(out, "  </div>\n");
    assert(final(out)@ =~= old(out)@ + html_summary(*suite, *figures));
}

fn push_status_cell(out: &mut Vec<char>, s: TestStatus)
    ensures
        final(out)@ == old(out)@ + html_status_cell(s),
{
    push_str(out, "        <td><span class=\"");
    match s {
        TestStatus::Passed => {
            push_str(out, "passed");
            push_str(out, "\">");
            push_str(out, "✓");
            push_str(out, " ");
            push_str(out, "PASSED");
        },
        TestStatus::Failed => {
            push_str(out, "failed");
            push_str(out, "\">");
            push_str(out, "✗");
            push_str(out, " ");
            push_str(out, "FAILED");
        },
        TestStatus::Skipped => {
            push_str(out, "skipped");
            push_str(out, "\">");
            push_str(out, "⊘");
            push_str(out, " ");
            push_str(out, "SKIPPED");
        },
    }
    push_str(out, "</span></td>\n");
    assert(final(out)@ =~= old(out)@ + html_status_cell(s));
}

fn push_html_row_open(out: &mut Vec<char>, c: &TestResult)
    ensures
        final(out)@ == old(out)@ + html_row_open(*c),
{
    push_str(out, "      <tr");
    if c.status == TestStatus::Failed {
        push_str(out, " class=\"error\"");
    }
    push_str(out, ">\n");
    assert(final(out)@ =~= old(out)@ + html_row_open(*c));
}

fn push_html_cell(out: &mut Vec<char>, text: &Vec<char>)
    ensures
        final(out)@ == old(out)@ + html_cell(text@),
{
    push_str(out, "        <td>");
    push_all(out, text);
    push_str(out, "</td>\n");
    assert(final(out)@ =~= old(out)@ + html_cell(text@));
}

fn push_html_row_head(out: &mut Vec<char>, number: u64, c: &TestResult)
    ensures
        final(out)@ == old(out)@ + html_row_head(number as nat, *c),
{
    push_html_row_open(out, c);
    let mut n: Vec<char> = Vec::new();
    push_decimal(&mut n, number);
    assert(n@ =~= decimal(number as nat));
    push_html_cell(out, &n);
    let name = html_escape(c.test_name.as_str());
    push_html_cell(out, &chars_of(name.as_str()));
    push_status_cell(out, c.status);
    assert(final(out)@ =~= old(out)@ + html_row_head(number as nat, *c));
}

fn push_html_row_tail(out: &mut Vec<char>, c: &TestResult)
    ensures
        final(out)@ == old(out)@ + html_row_tail(*c),
{
    let ghost start = out@;
    push_str(out, "        <td>");
    push_decimal(out, c.duration_ms);
    push_str(out, "</td>\n");
    push_str(out, "        <td>");
    push_decimal(out, c.passed_queries as u64);
    push_str(out, "</td>\n");
    push_str(out, "        <td>");
    push_decimal(out, c.failed_queries as u64);
    push_str(out, "</td>\n");
    push_str(out, "        <td>");
    let ghost mid = out@;
    if c.errors.len() > 0 {
        let e = html_escape(c.errors[0].as_str());
        push_str(out, e.as_str());
    } else {
        push_str(out, "-");
    }
    assert(out@ =~= mid + first_error_cell(*c));
    push_str(out, "</td>\n");
    push_str(out, "      </tr>\n");
    assert(out@ =~= start + html_row_tail(*c));
}

fn push_html_row(out: &mut Vec<char>, number: u64, c: &TestResult)
    ensures
        final(out)@ == old(out)@ + html_row(number as nat, *c),
{
    push_html_row_head(out, number, c);
    push_html_row_tail(out, c);
    assert(final(out)@ =~= old(out)@ + html_row(number as nat, *c));
}

fn push_html_rows(out: &mut Vec<char>, cases: &Vec<TestResult>)
    requires
        cases@.len() < u64::MAX,
    ensures
        final(out)@ == old(out)@ + html_rows(cases@),
{
    let ghost start = out@;
    let mut i: usize = 0;
    while i < cases.len()
        invariant
            i <= cases@.len() < u64::MAX,
            out@ == start + html_rows(cases@.take(i as int)),
        decreases cases@.len() - i,
    {
        push_html_row(out, (i + 1) as u64, &cases[i]);
        proof {
            let t = cases@.take(i + 1);
            assert(t.drop_last() =~= cases@.take(i as int));
        }
        i += 1;
        assert(out@ =~= start + html_rows(cases@.take(i as int)));
    }
    assert(cases@.take(i as int) =~= cases@);
}

#[verifier::rlimit(100)]
fn push_html_environment(out: &mut Vec<char>, suite: &TestSuiteResult)
    requires
        commit_cuttable(*suite),
    ensures
        final(out)@ == old(out)@ + html_environment(*suite),
{
    push_str(out, "  <h2>🔧 环境信息</h2>\n");
    push_str(out, "  <ul>\n");
    push_str(out, "    <li><strong>操作系统:</strong> ");
    push_str(out, suite.environment.os.as_str());
    push_str(out, "</li>\n");
    push_str(out, "    <li><strong>Rust 版本:</strong> ");
    push_str(out, suite.environment.rust_version.as_str());
    push_str(out, "</li>\n");
    match &suite.environment.git_commit {
        Some(c) => {
            push_str(out, "    <li><strong>Git 提交:</strong> ");
            let short = short_commit(c.as_str());
            push_str(out, short.as_str());
            push_str(out, "</li>\n");
        },
        None => {},
    }
    match &suite.environment.mysql_version {
        Some(v) => {
            push_str(out, "    <li><strong>MySQL 版本:</strong> ");
            push_str(out, v.as_str());
            push_str(out, "</li>\n");
        },
        None => {},
    }
    push_str(out, "  </ul>\n");
    assert(final(out)@ =~= old(out)@ + html_environment(*suite));
}

impl SimpleHtmlRenderer {
    /// The HTML page of `suite` (see [`html_report`]).
    pub fn render(&self, suite: &TestSuiteResult, figures: &ReportFigures) -> (res: String)
        requires
            commit_cuttable(*suite),
            suite.cases@.len() < u64::MAX,
        ensures
            res@ == html_report(*suite, *figures),
    {
        let mut out: Vec<char> = Vec::new();
        push_html_head(&mut out);
        push_str(&mut out, "  <h1>🧪 MySQL 测试报告: ");
        push_str(&mut out, suite.name.as_str());
        push_str(&mut out, "</h1>\n");
        push_html_summary(&mut out, suite, figures);
        let ghost a = out@;
        if suite.cases.len() > 0 {
            push_html_table_head(&mut out);
            push_html_rows(&mut out, &suite.cases);
            push_str(&mut out, "    </tbody>\n");
            push_str(&mut out, "  </table>\n");
        }
        assert(out@ =~= a + text_if(
            suite.cases@.len() > 0,
            html_table_head() + html_rows(suite.cases@) + "    </tbody>\n"@ + "  </table>\n"@,
        ));
        push_html_environment(&mut out, suite);
        push_str(&mut out, "</body>\n");
        push_str(&mut out, "</html>\n");
        assert(out@ =~= html_report(*suite, *figures));
        to_string(&out)
    }
}

} // verus!
