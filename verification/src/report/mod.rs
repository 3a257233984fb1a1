//! Test-suite results and the reports written from them.
//!
//! The figures of a report that are computed in floating point (the pass
//! rate, times in seconds) and the time of writing come from the caller as
//! text, in a [`ReportFigures`]; everything else is laid out here.

pub mod allure;
pub mod html;
pub mod xunit;

use vstd::prelude::*;
use crate::tester::tester::{TestResult, TestStatus};
use crate::text::{
    chars_of, decimal, push_decimal, push_str, push_all, to_string, string_views, join,
    push_joined, utf8_len, lemma_utf8_len_mono,
};
use crate::unicode::{spec_to_lowercase, to_lowercase};

verus! {

/// Where and how a run took place.
#[derive(Debug, Clone)]
pub struct EnvironmentInfo {
    /// The commit the runner was built from, when known.
    pub git_commit: Option<String>,
    pub os: String,
    pub rust_version: String,
    /// The server's version, when known.
    pub mysql_version: Option<String>,
    /// The runner's command line.
    pub cli_args: Vec<String>,
}

/// The results of a run.
#[derive(Debug, Clone)]
pub struct TestSuiteResult {
    pub name: String,
    pub cases: Vec<TestResult>,
    /// The sum of the cases' durations, in milliseconds.
    pub total_duration_ms: u64,
    /// When the run started, RFC 3339.
    pub timestamp: String,
    pub environment: EnvironmentInfo,
}

/// How many of `cases` have status `s`.
pub open spec fn count_status(cases: Seq<TestResult>, s: TestStatus) -> nat
    decreases cases.len(),
{
    if cases.len() == 0 {
        0
    } else {
        count_status(cases.drop_last(), s) + if cases.last().status == s {
            1nat
        } else {
            0nat
        }
    }
}

/// A count never exceeds the number of cases.
pub proof fn lemma_count_status_le(cases: Seq<TestResult>, s: TestStatus)
    ensures
        count_status(cases, s) <= cases.len(),
    decreases cases.len(),
{
    if cases.len() > 0 {
        lemma_count_status_le(cases.drop_last(), s);
    }
}

/// Every case is counted once: the passed, failed and skipped cases add up
/// to all of them.
pub proof fn law_status_counts_total(cases: Seq<TestResult>)
    ensures
        count_status(cases, TestStatus::Passed) + count_status(cases, TestStatus::Failed)
            + count_status(cases, TestStatus::Skipped) == cases.len(),
    decreases cases.len(),
{
    if cases.len() > 0 {
        law_status_counts_total(cases.drop_last());
    }
}

impl TestSuiteResult {
    /// An empty suite named `name`, started at `timestamp` in `environment`.
    pub fn new(name: &str, timestamp: String, environment: EnvironmentInfo) -> (res: Self)
        ensures
            res.name@ == name@,
            res.cases@.len() == 0,
            res.total_duration_ms == 0,
            res.timestamp == timestamp,
            res.environment == environment,
    {
        TestSuiteResult {
            name: to_string(&chars_of(name)),
            cases: Vec::new(),
            total_duration_ms: 0,
            timestamp,
            environment,
        }
    }

    /// Adds a case, and its duration to the total.
    pub fn add_case(&mut self, case: TestResult)
        requires
            old(self).total_duration_ms + case.duration_ms <= u64::MAX,
        ensures
            final(self).cases@ == old(self).cases@.push(case),
            final(self).total_duration_ms == old(self).total_duration_ms + case.duration_ms,
            final(self).name == old(self).name,
            final(self).timestamp == old(self).timestamp,
            final(self).environment == old(self).environment,
    {
        self.total_duration_ms = self.total_duration_ms + case.duration_ms;
        self.cases.push(case);
    }

    /// The number of cases.
    pub fn total_tests(&self) -> (res: usize)
        ensures
            res == self.cases@.len(),
    {
        self.cases.len()
    }

    fn count(&self, s: TestStatus) -> (res: usize)
        ensures
            res == count_status(self.cases@, s),
    {
        let mut n: usize = 0;
        let mut i: usize = 0;
        while i < self.cases.len()
            invariant
                i <= self.cases@.len(),
                n == count_status(self.cases@.take(i as int), s),
            decreases self.cases@.len() - i,
        {
            assert(self.cases@.take(i + 1).drop_last() =~= self.cases@.take(i as int));
            proof {
                lemma_count_status_le(self.cases@.take(i as int), s);
            }
            if self.cases[i].status == s {
                n = n + 1;
            }
            i += 1;
        }
        assert(self.cases@.take(i as int) =~= self.cases@);
        n
    }

    /// The number of cases that passed.
    pub fn passed_tests(&self) -> (res: usize)
        ensures
            res == count_status(self.cases@, TestStatus::Passed),
    {
        self.count(TestStatus::Passed)
    }

    /// The number of cases that failed.
    pub fn failed_tests(&self) -> (res: usize)
        ensures
            res == count_status(self.cases@, TestStatus::Failed),
    {
        self.count(TestStatus::Failed)
    }

    /// The number of cases that were skipped.
    pub fn skipped_tests(&self) -> (res: usize)
        ensures
            res == count_status(self.cases@, TestStatus::Skipped),
    {
        self.count(TestStatus::Skipped)
    }

    /// Whether no case failed.
    pub fn all_passed(&self) -> (res: bool)
        ensures
            res == (count_status(self.cases@, TestStatus::Failed) == 0),
    {
        self.failed_tests() == 0
    }
}

/// The figures of a report that are computed in floating point, and the
/// time it is written, as the caller formatted them.
#[derive(Debug, Clone)]
pub struct ReportFigures {
    /// The share of passed cases in percent, one decimal (`{:.1}`).
    pub pass_rate: String,
    /// The total time in seconds with one decimal.
    pub total_seconds_1: String,
    /// The total time in seconds with two decimals.
    pub total_seconds_2: String,
    /// The total time in seconds with three decimals.
    pub total_seconds_3: String,
    /// Each case's time in seconds with three decimals, in case order.
    pub case_seconds_3: Vec<String>,
    /// When the report is written, `%Y-%m-%d %H:%M:%S`.
    pub generated_at: String,
}

/// `s` with each character replaced by `f` of it.
pub open spec fn escape_with(s: Seq<char>, f: spec_fn(char) -> Seq<char>) -> Seq<char>
    decreases s.len(),
{
    if s.len() == 0 {
        Seq::empty()
    } else {
        escape_with(s.drop_last(), f) + f(s.last())
    }
}

/// How HTML text writes a character.
pub open spec fn html_entity(c: char) -> Seq<char> {
    if c == '&' {
        "&amp;"@
    } else if c == '<' {
        "&lt;"@
    } else if c == '>' {
        "&gt;"@
    } else if c == '"' {
        "&quot;"@
    } else if c == '\'' {
        "&#39;"@
    } else {
        seq![c]
    }
}

/// `text` escaped for HTML: `&`, `<`, `>`, `"` and `'` as entities.
pub fn html_escape(text: &str) -> (res: String)
    ensures
        res@ == escape_with(text@, |c: char| html_entity(c)),
{
    let cs = chars_of(text);
    let mut out: Vec<char> = Vec::new();
    let mut i: usize = 0;
    while i < cs.len()
        invariant
            i <= cs.len(),
            cs@ == text@,
            out@ == escape_with(cs@.take(i as int), |c: char| html_entity(c)),
        decreases cs.len() - i,
    {
        let c = cs[i];
        if c == '&' {
            push_str(&mut out, "&amp;");
        } else if c == '<' {
            push_str(&mut out, "&lt;");
        } else if c == '>' {
            push_str(&mut out, "&gt;");
        } else if c == '"' {
            push_str(&mut out, "&quot;");
        } else if c == '\'' {
            push_str(&mut out, "&#39;");
        } else {
            out.push(c);
        }
        assert(cs@.take(i + 1).drop_last() =~= cs@.take(i as int));
        i += 1;
    }
    assert(cs@.take(i as int) =~= cs@);
    to_string(&out)
}

/// Whether the first `n` bytes of `s` end between two characters, or `s` is
/// no longer than that (slicing `s` there does not panic).
pub open spec fn ends_on_char(s: Seq<char>, n: nat) -> bool {
    utf8_len(s) <= n || exists|k: int| 0 <= k <= s.len() && #[trigger] utf8_len(s.take(k)) == n
}

/// The characters of the first `n` bytes of `s` (all of `s` if shorter).
pub open spec fn byte_prefix(s: Seq<char>, n: nat) -> Seq<char> {
    if utf8_len(s) <= n {
        s
    } else {
        s.take(choose|k: int| 0 <= k <= s.len() && #[trigger] utf8_len(s.take(k)) == n)
    }
}

/// The first eight bytes of a commit id, as reports show it.
pub fn short_commit(commit: &str) -> (res: String)
    requires
        ends_on_char(commit@, 8),
    ensures
        res@ == byte_prefix(commit@, 8),
{
    let cs = chars_of(commit);
    let mut out: Vec<char> = Vec::new();
    let mut bytes: usize = 0;
    let mut i: usize = 0;
    while i < cs.len()
        invariant
            i <= cs.len(),
            cs@ == commit@,
            out@ == cs@.take(i as int),
            bytes == utf8_len(cs@.take(i as int)),
            bytes <= 8,
        ensures
            i <= cs.len(),
            cs@ == commit@,
            out@ == cs@.take(i as int),
            i == cs.len() || utf8_len(cs@.take(i + 1)) > 8,
        decreases cs.len() - i,
    {
        let c = cs[i];
        let w: usize = if (c as u32) < 0x80 {
            1
        } else if (c as u32) < 0x800 {
            2
        } else if (c as u32) < 0x10000 {
            3
        } else {
            4
        };
        assert(cs@.take(i + 1).drop_last() =~= cs@.take(i as int));
        if bytes + w > 8 {
            assert(utf8_len(cs@.take(i + 1)) == bytes + w);
            break;
        }
        out.push(c);
        bytes = bytes + w;
        i += 1;
        assert(out@ =~= cs@.take(i as int));
    }
    proof {
        if i == cs.len() {
            assert(cs@.take(i as int) =~= cs@);
        } else {
            assert(utf8_len(cs@.take(i + 1)) > 8);
            assert(utf8_len(cs@) > 8) by {
                lemma_utf8_len_mono(cs@, i + 1, cs@.len() as int);
                assert(cs@.take(cs@.len() as int) =~= cs@);
            }
            let k = choose|k: int| 0 <= k <= cs@.len() && #[trigger] utf8_len(cs@.take(k)) == 8;
            if k < i {
                lemma_utf8_len_mono(cs@, k, i as int);
            } else if k > i + 1 {
                lemma_utf8_len_mono(cs@, i + 1, k);
            } else if k == i + 1 {
            }
            assert(k == i);
        }
    }
    to_string(&out)
}

/// The report formats a run can be written in.
#[derive(Debug, Clone)]
pub enum Renderer {
    Plain(PlainTextRenderer),
    Html(SimpleHtmlRenderer),
    Xunit(XunitRenderer),
    Terminal(TerminalRenderer),
    Allure(crate::report::allure::AllureRenderer),
}

/// Plain text, as sent by mail.
#[derive(Debug, Clone, Copy)]
pub struct PlainTextRenderer;

/// A self-contained HTML page.
#[derive(Debug, Clone, Copy)]
pub struct SimpleHtmlRenderer;

/// JUnit-style XML.
#[derive(Debug, Clone, Copy)]
pub struct XunitRenderer;

/// A short summary for the terminal.
#[derive(Debug, Clone, Copy)]
pub struct TerminalRenderer;

/// Why no renderer could be made.
#[derive(Debug, Clone)]
pub enum ReportError {
    /// No format has this name.
    UnsupportedFormat(String),
    /// The Allure format needs an output directory.
    AllureDirMissing,
}

impl ReportError {
    /// The error's text.
    pub fn message(&self) -> (res: String)
        ensures
            match self {
                ReportError::UnsupportedFormat(f) => res@ == "Unsupported report format: "@ + f@,
                ReportError::AllureDirMissing => res@
                    == "Allure format requires --allure-dir parameter"@,
            },
    {
        let mut out: Vec<char> = Vec::new();
        match self {
            ReportError::UnsupportedFormat(f) => {
                push_str(&mut out, "Unsupported report format: ");
                push_str(&mut out, f.as_str());
            },
            ReportError::AllureDirMissing => {
                push_str(&mut out, "Allure format requires --allure-dir parameter");
            },
        }
        to_string(&out)
    }
}

/// Which format a (lower-cased) format name selects: 0 plain, 1 HTML,
/// 2 xUnit, 3 terminal, 4 Allure, 5 none.
pub open spec fn format_index(f: Seq<char>) -> int {
    if f == "plain"@ || f == "text"@ {
        0
    } else if f == "html"@ {
        1
    } else if f == "xunit"@ || f == "xml"@ || f == "junit"@ {
        2
    } else if f == "terminal"@ || f == "console"@ {
        3
    } else if f == "allure"@ {
        4
    } else {
        5
    }
}

/// The index of the format `r` renders.
pub open spec fn renderer_index(r: Renderer) -> int {
    match r {
        Renderer::Plain(_) => 0,
        Renderer::Html(_) => 1,
        Renderer::Xunit(_) => 2,
        Renderer::Terminal(_) => 3,
        Renderer::Allure(_) => 4,
    }
}

fn format_index_of(format: &str) -> (res: usize)
    ensures
        res == format_index(spec_to_lowercase(format@)),
{
    let lower = to_lowercase(format);
    let l = chars_of(lower.as_str());
    if crate::text::eq_str(&l, "plain") || crate::text::eq_str(&l, "text") {
        0
    } else if crate::text::eq_str(&l, "html") {
        1
    } else if crate::text::eq_str(&l, "xunit") || crate::text::eq_str(&l, "xml")
        || crate::text::eq_str(&l, "junit") {
        2
    } else if crate::text::eq_str(&l, "terminal") || crate::text::eq_str(&l, "console") {
        3
    } else if crate::text::eq_str(&l, "allure") {
        4
    } else {
        5
    }
}

/// The renderer for a format name (compared without regard to case); the
/// Allure format is not among them.
pub fn create_renderer(format: &str) -> (res: Result<Renderer, ReportError>)
    ensures
        format_index(spec_to_lowercase(format@)) < 4 <==> res is Ok,
        res matches Ok(r) ==> renderer_index(r) == format_index(spec_to_lowercase(format@)),
        res matches Err(e) ==> (e matches ReportError::UnsupportedFormat(f) && f@ == format@),
{
    let k = format_index_of(format);
    if k == 0 {
        Ok(Renderer::Plain(PlainTextRenderer))
    } else if k == 1 {
        Ok(Renderer::Html(SimpleHtmlRenderer))
    } else if k == 2 {
        Ok(Renderer::Xunit(XunitRenderer))
    } else if k == 3 {
        Ok(Renderer::Terminal(TerminalRenderer))
    } else {
        Err(ReportError::UnsupportedFormat(to_string(&chars_of(format))))
    }
}

/// The renderer for a format name, the Allure one writing to `allure_dir`,
/// which that format needs.
pub fn create_renderer_with_allure_dir(format: &str, allure_dir: Option<&str>) -> (res: Result<
    Renderer,
    ReportError,
>)
    ensures
        (format_index(spec_to_lowercase(format@)) < 4 || (format_index(spec_to_lowercase(format@))
            == 4 && allure_dir is Some)) <==> res is Ok,
        res matches Ok(r) ==> renderer_index(r) == format_index(spec_to_lowercase(format@)),
        res matches Ok(Renderer::Allure(a)) ==> a.output_dir@ == allure_dir.unwrap()@,
        (format_index(spec_to_lowercase(format@)) == 4 && allure_dir is None) ==> (res matches Err(
            ReportError::AllureDirMissing,
        )),
        format_index(spec_to_lowercase(format@)) == 5 ==> (res matches Err(
            ReportError::UnsupportedFormat(f),
        ) && f@ == format@),
{
    let k = format_index_of(format);
    if k == 4 {
        match allure_dir {
            Some(dir) => Ok(
                Renderer::Allure(
                    crate::report::allure::AllureRenderer::new(to_string(&chars_of(dir))),
                ),
            ),
            None => Err(ReportError::AllureDirMissing),
        }
    } else {
        create_renderer(format)
    }
}

/// The name of the format a renderer writes.
pub fn format_name(r: &Renderer) -> (res: &'static str)
    ensures
        res@ == (match r {
            Renderer::Plain(_) => "plain"@,
            Renderer::Html(_) => "html"@,
            Renderer::Xunit(_) => "xunit"@,
            Renderer::Terminal(_) => "terminal"@,
            Renderer::Allure(_) => "allure"@,
        }),
{
    match r {
        Renderer::Plain(_) => "plain",
        Renderer::Html(_) => "html",
        Renderer::Xunit(_) => "xunit",
        Renderer::Terminal(_) => "terminal",
        Renderer::Allure(_) => "allure",
    }
}

/// Each of `lines` as its own line, after `indent`.
pub open spec fn indented_lines(lines: Seq<Seq<char>>, indent: Seq<char>) -> Seq<char>
    decreases lines.len(),
{
    if lines.len() == 0 {
        Seq::empty()
    } else {
        indented_lines(lines.drop_last(), indent) + indent + lines.last() + "\n"@
    }
}

/// Appends each of `lines` as its own line, after `indent`.
pub fn push_indented_lines(out: &mut Vec<char>, lines: &Vec<String>, indent: &str)
    ensures
        final(out)@ == old(out)@ + indented_lines(string_views(lines@), indent@),
{
    let ghost start = out@;
    let ghost v = string_views(lines@);
    let mut i: usize = 0;
    while i < lines.len()
        invariant
            i <= lines@.len(),
            v == string_views(lines@),
            out@ == start + indented_lines(v.take(i as int), indent@),
        decreases lines@.len() - i,
    {
        push_str(out, indent);
        push_str(out, lines[i].as_str());
        push_str(out, "\n");
        assert(v.take(i + 1).drop_last() =~= v.take(i as int));
        assert(v.take(i + 1).last() == lines@[i as int]@);
        i += 1;
        assert(out@ =~= start + indented_lines(v.take(i as int), indent@));
    }
    assert(v.take(i as int) =~= v);
}

/// The failed cases of a terminal summary: each name, then its errors.
pub open spec fn terminal_failures(cases: Seq<TestResult>) -> Seq<char>
    decreases cases.len(),
{
    if cases.len() == 0 {
        Seq::empty()
    } else {
        let c = cases.last();
        terminal_failures(cases.drop_last()) + if c.status == TestStatus::Failed {
            "  • "@ + c.test_name@ + "\n"@ + indented_lines(string_views(c.errors@), "    "@)
        } else {
            Seq::empty()
        }
    }
}

/// `text` where `cond` holds, else nothing.
pub open spec fn text_if(cond: bool, text: Seq<char>) -> Seq<char> {
    if cond {
        text
    } else {
        Seq::empty()
    }
}

/// `LABEL: n ` where `n` is not zero.
pub open spec fn count_part(label: Seq<char>, n: nat) -> Seq<char> {
    text_if(n > 0, label + decimal(n) + " "@)
}

/// The terminal summary of a run.
pub open spec fn terminal_report(suite: TestSuiteResult, figures: ReportFigures) -> Seq<char> {
    let total = suite.cases@.len();
    let failed = count_status(suite.cases@, TestStatus::Failed);
    "Total: "@ + decimal(total) + " "@ + count_part(
        "Passed: "@,
        count_status(suite.cases@, TestStatus::Passed),
    ) + count_part("Failed: "@, failed) + count_part(
        "Skipped: "@,
        count_status(suite.cases@, TestStatus::Skipped),
    ) + "⏱ "@ + figures.total_seconds_1@ + " s\n"@ + text_if(
        total > 0,
        "Pass rate: "@ + figures.pass_rate@ + "%\n"@,
    ) + text_if(failed > 0, "Failed tests:\n"@ + terminal_failures(suite.cases@))
}

fn push_count_part(out: &mut Vec<char>, label: &str, n: usize)
    ensures
        final(out)@ == old(out)@ + count_part(label@, n as nat),
{
    if n > 0 {
        push_str(out, label);
        push_decimal(out, n as u64);
        push_str(out, " ");
    }
    assert(final(out)@ =~= old(out)@ + count_part(label@, n as nat));
}

fn push_terminal_failures(out: &mut Vec<char>, cases: &Vec<TestResult>)
    ensures
        final(out)@ == old(out)@ + terminal_failures(cases@),
{
    let ghost start = out@;
    let mut i: usize = 0;
    while i < cases.len()
        invariant
            i <= cases@.len(),
            out@ == start + terminal_failures(cases@.take(i as int)),
        decreases cases@.len() - i,
    {
        let ghost before = out@;
        let c = &cases[i];
        if c.status == TestStatus::Failed {
            push_str(out, "  • ");
            push_str(out, c.test_name.as_str());
            push_str(out, "\n");
            push_indented_lines(out, &c.errors, "    ");
        }
        assert(cases@.take(i + 1).drop_last() =~= cases@.take(i as int));
        i += 1;
        assert(out@ =~= start + terminal_failures(cases@.take(i as int)));
    }
    assert(cases@.take(i as int) =~= cases@);
}

impl TerminalRenderer {
    /// The terminal summary of `suite` (see [`terminal_report`]).
    pub fn render(&self, suite: &TestSuiteResult, figures: &ReportFigures) -> (res: String)
        ensures
            res@ == terminal_report(*suite, *figures),
    {
        let total = suite.total_tests();
        let passed = suite.passed_tests();
        let failed = suite.failed_tests();
        let skipped = suite.skipped_tests();
        let mut out: Vec<char> = Vec::new();
        push_str(&mut out, "Total: ");
        push_decimal(&mut out, total as u64);
        push_str(&mut out, " ");
        push_count_part(&mut out, "Passed: ", passed);
        push_count_part(&mut out, "Failed: ", failed);
        push_count_part(&mut out, "Skipped: ", skipped);
        push_str(&mut out, "⏱ ");
        push_str(&mut out, figures.total_seconds_1.as_str());
        push_str(&mut out, " s\n");
        let ghost e = out@;
        if total > 0 {
            push_str(&mut out, "Pass rate: ");
            push_str(&mut out, figures.pass_rate.as_str());
            push_str(&mut out, "%\n");
        }
        assert(out@ =~= e + text_if(total > 0, "Pass rate: "@ + figures.pass_rate@ + "%\n"@));
        let ghost f = out@;
        if failed > 0 {
            push_str(&mut out, "Failed tests:\n");
            push_terminal_failures(&mut out, &suite.cases);
        }
        assert(out@ =~= f + text_if(failed > 0, "Failed tests:\n"@ + terminal_failures(suite.cases@)));
        assert(out@ =~= terminal_report(*suite, *figures));
        to_string(&out)
    }
}

} // verus!
