//! Allure results: one result per case, with its steps and attachments.
//!
//! This module builds the records and texts of an Allure result; the caller
//! gives each result its random id, turns the records into JSON and writes
//! the files.

use vstd::prelude::*;
use crate::report::{text_if, EnvironmentInfo, TestSuiteResult};
use crate::report::xunit::xml_escaped;
use crate::tester::tester::{QueryFailureDetail, TestResult, TestStatus};
use crate::text::{
    chars_of, decimal, join, lines, lines_of, pad_left, push_all, push_decimal, push_joined,
    push_padded_decimal, push_repeat, push_str, string_views, to_string, views,
};

verus! {

/// Writes Allure result files into a directory.
#[derive(Debug, Clone)]
pub struct AllureRenderer {
    /// The directory the results go to.
    pub output_dir: String,
}

/// The span of a result or step, in milliseconds.
#[derive(Debug, Clone, Copy)]
pub struct AllureTime {
    pub start: u64,
    pub stop: u64,
    pub duration: u64,
}

/// Why a result or step has its status.
#[derive(Debug, Clone)]
pub struct AllureStatusDetails {
    pub known: bool,
    pub muted: bool,
    pub flaky: bool,
    pub message: Option<String>,
    pub trace: Option<String>,
}

/// One step of a result (steps of Allure results from this runner have no
/// sub-steps, attachments or parameters).
#[derive(Debug)]
pub struct AllureStep {
    pub name: String,
    pub status: String,
    pub time: AllureTime,
    pub status_details: Option<AllureStatusDetails>,
    pub stage: String,
    /// Nested steps.
    pub steps: Vec<AllureStep>,
    pub attachments: Vec<AllureAttachment>,
    pub parameters: Vec<AllureParameter>,
}

/// A named value a step or result was run with.
#[derive(Debug, Clone)]
pub struct AllureParameter {
    pub name: String,
    pub value: String,
}

/// A link shown with a result.
#[derive(Debug, Clone)]
pub struct AllureLink {
    pub name: String,
    pub url: String,
    pub link_type: String,
}

/// A name and value that Allure groups results by.
#[derive(Debug, Clone)]
pub struct AllureLabel {
    pub name: String,
    pub value: String,
}

/// A file attached to a result.
#[derive(Debug, Clone)]
pub struct AllureAttachment {
    pub name: String,
    /// The file's name in the output directory.
    pub source: String,
    /// Its MIME type.
    pub attachment_type: String,
}

/// The record of one case.
#[derive(Debug)]
pub struct AllureTestResult {
    pub uuid: String,
    pub name: String,
    pub full_name: String,
    pub status: String,
    pub time: AllureTime,
    pub description: Option<String>,
    pub description_html: Option<String>,
    pub stage: String,
    pub steps: Vec<AllureStep>,
    pub attachments: Vec<AllureAttachment>,
    pub parameters: Vec<AllureParameter>,
    pub status_details: Option<AllureStatusDetails>,
    pub labels: Vec<AllureLabel>,
    pub links: Vec<AllureLink>,
}

/// Why a case's times could not be read.
#[derive(Debug, Clone, Copy, PartialEq, Eq, Structural)]
pub enum AllureError {
    /// The start time is not RFC 3339.
    InvalidStartTime,
    /// The end time is not RFC 3339.
    InvalidEndTime,
}

impl AllureError {
    /// The error's text.
    pub fn message(&self) -> (res: String)
        ensures
            *self == AllureError::InvalidStartTime ==> res@ == "Invalid start time format"@,
            *self == AllureError::InvalidEndTime ==> res@ == "Invalid end time format"@,
    {
        match self {
            AllureError::InvalidStartTime => to_string(&chars_of("Invalid start time format")),
            AllureError::InvalidEndTime => to_string(&chars_of("Invalid end time format")),
        }
    }
}

/// The Allure name of a status.
pub open spec fn status_text(s: TestStatus) -> Seq<char> {
    match s {
        TestStatus::Passed => "passed"@,
        TestStatus::Failed => "failed"@,
        TestStatus::Skipped => "skipped"@,
    }
}

fn status_string(s: TestStatus) -> (res: String)
    ensures
        res@ == status_text(s),
{
    match s {
        TestStatus::Passed => to_string(&chars_of("passed")),
        TestStatus::Failed => to_string(&chars_of("failed")),
        TestStatus::Skipped => to_string(&chars_of("skipped")),
    }
}

/// The milliseconds since the Unix epoch of an RFC 3339 time, or `None`
/// where the text is not one.
pub uninterp spec fn spec_rfc3339_millis(s: Seq<char>) -> Option<i64>;

/// Calls `chrono::DateTime::parse_from_rfc3339` and, on success,
/// `timestamp_millis` of the result. The claim: the result is a function of
/// the text alone, `None` exactly where the parse fails.
#[verifier::external_body]
fn rfc3339_millis(s: &str) -> (res: Option<i64>)
    ensures
        res == spec_rfc3339_millis(s@),
{
    match chrono::DateTime::parse_from_rfc3339(s) {
        Ok(t) => Some(t.timestamp_millis()),
        Err(_) => None,
    }
}

/// `s` with every `from` replaced by `to`.
pub open spec fn replace_char(s: Seq<char>, from: char, to: char) -> Seq<char> {
    s.map_values(|c: char| if c == from {
        to
    } else {
        c
    })
}

/// `mysql-test.` and the class name with `/` as `.`.
pub open spec fn test_class(case: TestResult) -> Seq<char> {
    "mysql-test."@ + replace_char(case.classname@, '/', '.')
}

/// The summary step of a case.
pub open spec fn summary_step_ok(step: AllureStep, case: TestResult) -> bool {
    &&& step.name@ == "Test Execution Summary ("@ + case.test_name@ + ")"@
    &&& step.status@ == status_text(case.status)
    &&& step.time.start == 0 && step.time.stop == case.duration_ms && step.time.duration
        == case.duration_ms
    &&& step.stage@ == "finished"@
    &&& step.steps@.len() == 0 && step.attachments@.len() == 0 && step.parameters@.len() == 0
    &&& step.status_details matches Some(d) && !d.known && !d.muted && !d.flaky && if case.status
        == TestStatus::Failed {
        &&& d.message matches Some(m) && m@ == "Test failed with "@ + decimal(
            case.failed_queries as nat,
        ) + " query failure(s)"@
        &&& d.trace matches Some(t) && t@ == "Passed: "@ + decimal(case.passed_queries as nat)
            + " queries\nFailed: "@ + decimal(case.failed_queries as nat) + " queries\nDuration: "@
            + decimal(case.duration_ms as nat) + " ms\n\nFirst Error: "@ + (if case.errors@.len()
            > 0 {
            case.errors@[0]@
        } else {
            "No error details"@
        })
    } else {
        &&& d.message matches Some(m) && m@ == "Test passed with "@ + decimal(
            case.passed_queries as nat,
        ) + " queries executed"@
        &&& d.trace is None
    }
}

/// The trace of a failed query's step.
pub open spec fn failure_trace(f: QueryFailureDetail) -> Seq<char> {
    "Line Number: "@ + decimal(f.line_number as nat) + "\n\nSQL Query:\n"@ + f.sql@
        + "\n\nError Message:\n"@ + f.error_message@ + "\n"@ + text_if(
        f.expected@.len() > 0 || f.actual@.len() > 0,
        "\nResult Comparison:\nExpected: "@ + f.expected@ + "\nActual:   "@ + f.actual@,
    )
}

/// The step of the `number`-th failed query.
pub open spec fn failure_step_ok(step: AllureStep, number: nat, f: QueryFailureDetail) -> bool {
    &&& step.name@ == "Query Failure #"@ + decimal(number) + " (Line "@ + decimal(
        f.line_number as nat,
    ) + ")"@
    &&& step.status@ == "failed"@
    &&& step.time.start == 0 && step.time.stop == 0 && step.time.duration == 0
    &&& step.stage@ == "finished"@
    &&& step.steps@.len() == 0 && step.attachments@.len() == 0 && step.parameters@.len() == 0
    &&& step.status_details matches Some(d) && !d.known && !d.muted && !d.flaky
    &&& step.status_details.unwrap().message matches Some(m) && m@ == "SQL query failed at line "@
        + decimal(f.line_number as nat)
    &&& step.status_details.unwrap().trace matches Some(t) && t@ == failure_trace(f)
}

fn summary_step(case: &TestResult) -> (res: AllureStep)
    ensures
        summary_step_ok(res, *case),
{
    let mut name: Vec<char> = Vec::new();
    push_str(&mut name, "Test Execution Summary (");
    push_str(&mut name, case.test_name.as_str());
    push_str(&mut name, ")");
    let details = if case.status == TestStatus::Failed {
        let mut m: Vec<char> = Vec::new();
        push_str(&mut m, "Test failed with ");
        push_decimal(&mut m, case.failed_queries as u64);
        push_str(&mut m, " query failure(s)");
        let mut t: Vec<char> = Vec::new();
        push_str(&mut t, "Passed: ");
        push_decimal(&mut t, case.passed_queries as u64);
        push_str(&mut t, " queries\nFailed: ");
        push_decimal(&mut t, case.failed_queries as u64);
        push_str(&mut t, " queries\nDuration: ");
        push_decimal(&mut t, case.duration_ms);
        push_str(&mut t, " ms\n\nFirst Error: ");
        if case.errors.len() > 0 {
            push_str(&mut t, case.errors[0].as_str());
        } else {
            push_str(&mut t, "No error details");
        }
        AllureStatusDetails {
            known: false,
            muted: false,
            flaky: false,
            message: Some(to_string(&m)),
            trace: Some(to_string(&t)),
        }
    } else {
        let mut m: Vec<char> = Vec::new();
        push_str(&mut m, "Test passed with ");
        push_decimal(&mut m, case.passed_queries as u64);
        push_str(&mut m, " queries executed");
        AllureStatusDetails {
            known: false,
            muted: false,
            flaky: false,
            message: Some(to_string(&m)),
            trace: None,
        }
    };
    AllureStep {
        name: to_string(&name),
        status: status_string(case.status),
        time: AllureTime { start: 0, stop: case.duration_ms, duration: case.duration_ms },
        status_details: Some(details),
        stage: to_string(&chars_of("finished")),
        steps: Vec::new(),
        attachments: Vec::new(),
        parameters: Vec::new(),
    }
}

fn failure_step(number: u64, f: &QueryFailureDetail) -> (res: AllureStep)
    ensures
        failure_step_ok(res, number as nat, *f),
{
    let mut name: Vec<char> = Vec::new();
    push_str(&mut name, "Query Failure #");
    push_decimal(&mut name, number);
    push_str(&mut name, " (Line ");
    push_decimal(&mut name, f.line_number as u64);
    push_str(&mut name, ")");
    let mut m: Vec<char> = Vec::new();
    push_str(&mut m, "SQL query failed at line ");
    push_decimal(&mut m, f.line_number as u64);
    let mut t: Vec<char> = Vec::new();
    push_str(&mut t, "Line Number: ");
    push_decimal(&mut t, f.line_number as u64);
    push_str(&mut t, "\n\nSQL Query:\n");
    push_str(&mut t, f.sql.as_str());
    push_str(&mut t, "\n\nError Message:\n");
    push_str(&mut t, f.error_message.as_str());
    push_str(&mut t, "\n");
    let ghost a = t@;
    let ev = chars_of(f.expected.as_str());
    let av = chars_of(f.actual.as_str());
    if ev.len() > 0 || av.len() > 0 {
        push_str(&mut t, "\nResult Comparison:\nExpected: ");
        push_str(&mut t, f.expected.as_str());
        push_str(&mut t, "\nActual:   ");
        push_str(&mut t, f.actual.as_str());
    }
    assert(t@ =~= a + text_if(
        f.expected@.len() > 0 || f.actual@.len() > 0,
        "\nResult Comparison:\nExpected: "@ + f.expected@ + "\nActual:   "@ + f.actual@,
    ));
    assert(t@ =~= failure_trace(*f));
    AllureStep {
        name: to_string(&name),
        status: to_string(&chars_of("failed")),
        time: AllureTime { start: 0, stop: 0, duration: 0 },
        status_details: Some(
            AllureStatusDetails {
                known: false,
                muted: false,
                flaky: false,
                message: Some(to_string(&m)),
                trace: Some(to_string(&t)),
            },
        ),
        stage: to_string(&chars_of("finished")),
        steps: Vec::new(),
        attachments: Vec::new(),
        parameters: Vec::new(),
    }
}

impl AllureRenderer {
    /// A renderer writing into `output_dir`.
    pub fn new(output_dir: String) -> (res: Self)
        ensures
            res.output_dir == output_dir,
    {
        AllureRenderer { output_dir }
    }

    /// The steps of a case's result: a summary, then one step for each
    /// failed query, numbered from 1.
    pub fn generate_test_steps(&self, case: &TestResult) -> (res: Vec<AllureStep>)
        requires
            case.query_failures@.len() < u64::MAX,
        ensures
            res@.len() == case.query_failures@.len() + 1,
            summary_step_ok(res@[0], *case),
            forall|i: int|
                0 <= i < case.query_failures@.len() ==> failure_step_ok(
                    #[trigger] res@[i + 1],
                    (i + 1) as nat,
                    case.query_failures@[i],
                ),
    {
        let mut steps: Vec<AllureStep> = Vec::new();
        steps.push(summary_step(case));
        let mut i: usize = 0;
        while i < case.query_failures.len()
            invariant
                i <= case.query_failures@.len() < u64::MAX,
                steps@.len() == i + 1,
                summary_step_ok(steps@[0], *case),
                forall|k: int|
                    0 <= k < i ==> failure_step_ok(
                        #[trigger] steps@[k + 1],
                        (k + 1) as nat,
                        case.query_failures@[k],
                    ),
            decreases case.query_failures@.len() - i,
        {
            let s = failure_step((i + 1) as u64, &case.query_failures[i]);
            steps.push(s);
            i += 1;
        }
        steps
    }

    /// Parses a case's start and end times into milliseconds since the
    /// epoch; where either is empty, the run ends at `now_ms` and started
    /// the case's duration before it.
    pub fn parse_timestamps(&self, case: &TestResult, now_ms: u64) -> (res: Result<
        (u64, u64, u64),
        AllureError,
    >)
        requires
            (case.start_time@.len() == 0 || case.end_time@.len() == 0) ==> now_ms
                >= case.duration_ms,
        ensures
            (case.start_time@.len() == 0 || case.end_time@.len() == 0) ==> res == Ok::<
                (u64, u64, u64),
                AllureError,
            >(((now_ms - case.duration_ms) as u64, now_ms, case.duration_ms)),
            (case.start_time@.len() > 0 && case.end_time@.len() > 0) ==> {
                let s = spec_rfc3339_millis(case.start_time@);
                let e = spec_rfc3339_millis(case.end_time@);
                &&& s is None ==> res == Err::<(u64, u64, u64), AllureError>(
                    AllureError::InvalidStartTime,
                )
                &&& s is Some && e is None ==> res == Err::<(u64, u64, u64), AllureError>(
                    AllureError::InvalidEndTime,
                )
                &&& s is Some && e is Some ==> res == Ok::<(u64, u64, u64), AllureError>(
                    (s.unwrap() as u64, e.unwrap() as u64, case.duration_ms),
                )
            },
    {
        let duration_ms = case.duration_ms;
        let sv = chars_of(case.start_time.as_str());
        let ev = chars_of(case.end_time.as_str());
        if sv.len() > 0 && ev.len() > 0 {
            let start = match rfc3339_millis(case.start_time.as_str()) {
                Some(t) => t,
                None => {
                    return Err(AllureError::InvalidStartTime);
                },
            };
            let end = match rfc3339_millis(case.end_time.as_str()) {
                Some(t) => t,
                None => {
                    return Err(AllureError::InvalidEndTime);
                },
            };
            Ok((start as u64, end as u64, duration_ms))
        } else {
            Ok((now_ms - duration_ms, now_ms, duration_ms))
        }
    }

    /// The result record of a case of `suite`, under the id `uuid`, with the
    /// given times and attachments.
    pub fn test_result_record(
        &self,
        case: &TestResult,
        suite: &TestSuiteResult,
        uuid: &str,
        time: AllureTime,
        attachments: Vec<AllureAttachment>,
    ) -> (res: AllureTestResult)
        requires
            case.query_failures@.len() < u64::MAX,
        ensures
            res.uuid@ == uuid@,
            res.name@ == case.test_name@,
            res.full_name@ == test_class(*case) + "."@ + case.test_name@,
            res.status@ == status_text(case.status),
            res.time == time,
            res.description matches Some(d) && d@ == "MySQL test case: "@ + case.test_name@,
            res.description_html is None,
            res.stage@ == "finished"@,
            res.steps@.len() == case.query_failures@.len() + 1,
            summary_step_ok(res.steps@[0], *case),
            forall|i: int|
                0 <= i < case.query_failures@.len() ==> failure_step_ok(
                    #[trigger] res.steps@[i + 1],
                    (i + 1) as nat,
                    case.query_failures@[i],
                ),
            res.attachments@ == attachments@,
            res.parameters@.len() == 0,
            res.links@.len() == 0,
            case.status == TestStatus::Failed ==> (res.status_details matches Some(d) && !d.known
                && !d.muted && !d.flaky && (if case.errors@.len() > 0 {
                d.message matches Some(m) && m@ == case.errors@[0]@
            } else {
                d.message is None
            }) && (if case.errors@.len() > 0 {
                d.trace matches Some(t) && t@ == join(string_views(case.errors@), "\n"@)
            } else {
                d.trace is None
            })),
            case.status != TestStatus::Failed ==> res.status_details is None,
            res.labels@.len() == 6,
            res.labels@[0].name@ == "suite"@ && res.labels@[0].value@ == "mysql-test"@,
            res.labels@[1].name@ == "testClass"@ && res.labels@[1].value@ == test_class(*case),
            res.labels@[2].name@ == "testMethod"@ && res.labels@[2].value@ == case.test_name@,
            res.labels@[3].name@ == "framework"@ && res.labels@[3].value@ == "mysql-tester-rs"@,
            res.labels@[4].name@ == "language"@ && res.labels@[4].value@ == "rust"@,
            res.labels@[5].name@ == "host"@ && res.labels@[5].value@ == suite.environment.os@,
    {
        let class = test_class_string(case);
        let mut full: Vec<char> = chars_of(class.as_str());
        push_str(&mut full, ".");
        push_str(&mut full, case.test_name.as_str());
        let mut desc: Vec<char> = Vec::new();
        push_str(&mut desc, "MySQL test case: ");
        push_str(&mut desc, case.test_name.as_str());
        let status_details = if case.status == TestStatus::Failed {
            let (message, trace) = if case.errors.len() > 0 {
                let mut t: Vec<char> = Vec::new();
                push_joined(&mut t, &case.errors, "\n");
                assert(t@ =~= join(string_views(case.errors@), "\n"@));
                (Some(to_string(&chars_of(case.errors[0].as_str()))), Some(to_string(&t)))
            } else {
                (None, None)
            };
            Some(AllureStatusDetails { known: false, muted: false, flaky: false, message, trace })
        } else {
            None
        };
        let mut labels: Vec<AllureLabel> = Vec::new();
        labels.push(label("suite", "mysql-test"));
        labels.push(label("testClass", class.as_str()));
        labels.push(label("testMethod", case.test_name.as_str()));
        labels.push(label("framework", "mysql-tester-rs"));
        labels.push(label("language", "rust"));
        labels.push(label("host", suite.environment.os.as_str()));
        AllureTestResult {
            uuid: to_string(&chars_of(uuid)),
            name: to_string(&chars_of(case.test_name.as_str())),
            full_name: to_string(&full),
            status: status_string(case.status),
            time,
            description: Some(to_string(&desc)),
            description_html: None,
            stage: to_string(&chars_of("finished")),
            steps: self.generate_test_steps(case),
            attachments,
            parameters: Vec::new(),
            status_details,
            labels,
            links: Vec::new(),
        }
    }

    /// `content` with each line numbered: the number right-aligned in three
    /// columns, `: `, the line; lines joined by newlines.
    pub fn add_line_numbers_to_content(&self, content: &str) -> (res: String)
        requires
            lines(content@).len() < u64::MAX,
        ensures
            res@ == join(numbered_lines(lines(content@)), "\n"@),
    {
        let ls = lines_of(&chars_of(content));
        let mut parts: Vec<String> = Vec::new();
        let mut i: usize = 0;
        while i < ls.len()
            invariant
                i <= ls@.len(),
                views(ls@) == lines(content@),
                lines(content@).len() < u64::MAX,
                string_views(parts@) == numbered_lines(views(ls@)).take(i as int),
            decreases ls@.len() - i,
        {
            let mut line: Vec<char> = Vec::new();
            push_padded_decimal(&mut line, (i + 1) as u64, 3);
            push_str(&mut line, ": ");
            push_all(&mut line, &ls[i]);
            assert(line@ =~= numbered_lines(views(ls@))[i as int]);
            let ghost before = parts@;
            parts.push(to_string(&line));
            assert(string_views(parts@) =~= string_views(before).push(line@));
            i += 1;
            assert(string_views(parts@) =~= numbered_lines(views(ls@)).take(i as int));
        }
        assert(numbered_lines(views(ls@)).take(i as int) =~= numbered_lines(views(ls@)));
        let mut out: Vec<char> = Vec::new();
        push_joined(&mut out, &parts, "\n");
        assert(out@ =~= join(numbered_lines(lines(content@)), "\n"@));
        to_string(&out)
    }

    /// The `environment.properties` file of a run.
    pub fn environment_properties(&self, env: &EnvironmentInfo) -> (res: String)
        ensures
            res@ == environment_properties_text(*env),
    {
        let mut out: Vec<char> = Vec::new();
        push_str(&mut out, "CLI.Args=");
        push_joined(&mut out, &env.cli_args, " ");
        push_str(&mut out, "\n");
        let ghost a = out@;
        match &env.git_commit {
            Some(c) => {
                push_str(&mut out, "Git.Commit=");
                push_str(&mut out, c.as_str());
                push_str(&mut out, "\n");
            },
            None => {},
        }
        push_str(&mut out, "OS=");
        push_str(&mut out, env.os.as_str());
        push_str(&mut out, "\n");
        push_str(&mut out, "Rust.Version=");
        push_str(&mut out, env.rust_version.as_str());
        push_str(&mut out, "\n");
        match &env.mysql_version {
            Some(v) => {
                push_str(&mut out, "MySQL.Version=");
                push_str(&mut out, v.as_str());
                push_str(&mut out, "\n");
            },
            None => {},
        }
        assert(out@ =~= environment_properties_text(*env));
        to_string(&out)
    }
}

/// Each line, numbered from 1 in three right-aligned columns.
pub open spec fn numbered_lines(ls: Seq<Seq<char>>) -> Seq<Seq<char>> {
    Seq::new(ls.len(), |i: int| pad_left(decimal((i + 1) as nat), 3) + ": "@ + ls[i])
}

/// The `environment.properties` text of a run's environment.
pub open spec fn environment_properties_text(env: EnvironmentInfo) -> Seq<char> {
    "CLI.Args="@ + join(string_views(env.cli_args@), " "@) + "\n"@ + (match env.git_commit {
        Some(c) => "Git.Commit="@ + c@ + "\n"@,
        None => Seq::empty(),
    }) + "OS="@ + env.os@ + "\n"@ + "Rust.Version="@ + env.rust_version@ + "\n"@ + (match env.mysql_version {
        Some(v) => "MySQL.Version="@ + v@ + "\n"@,
        None => Seq::empty(),
    })
}

fn label(name: &str, value: &str) -> (res: AllureLabel)
    ensures
        res.name@ == name@,
        res.value@ == value@,
{
    AllureLabel { name: to_string(&chars_of(name)), value: to_string(&chars_of(value)) }
}

fn test_class_string(case: &TestResult) -> (res: String)
    ensures
        res@ == test_class(*case),
{
    let cs = chars_of(case.classname.as_str());
    let mut out: Vec<char> = Vec::new();
    push_str(&mut out, "mysql-test.");
    let ghost start = out@;
    let mut i: usize = 0;
    while i < cs.len()
        invariant
            i <= cs@.len(),
            cs@ == case.classname@,
            out@ == start + replace_char(cs@.take(i as int), '/', '.'),
        decreases cs@.len() - i,
    {
        if cs[i] == '/' {
            out.push('.');
        } else {
            out.push(cs[i]);
        }
        i += 1;
        assert(out@ =~= start + replace_char(cs@.take(i as int), '/', '.'));
    }
    assert(cs@.take(i as int) =~= cs@);
    to_string(&out)
}

/// The numbered error lines of a failure analysis.
pub open spec fn numbered_errors(errors: Seq<Seq<char>>) -> Seq<char>
    decreases errors.len(),
{
    if errors.len() == 0 {
        Seq::empty()
    } else {
        numbered_errors(errors.drop_last()) + "  "@ + decimal(errors.len()) + ". "@ + errors.last()
            + "\n"@
    }
}

/// `text`, or `(empty)` where it is empty.
pub open spec fn or_empty_mark(text: Seq<char>) -> Seq<char> {
    if text.len() == 0 {
        "(empty)"@
    } else {
        text
    }
}

/// The analysis of the `number`-th failed query.
pub open spec fn failure_block(number: nat, f: QueryFailureDetail) -> Seq<char> {
    failure_block_head(number, f) + failure_comparison(f)
}

/// Where the `number`-th failed query stands, what it was and what it gave.
pub open spec fn failure_block_head(number: nat, f: QueryFailureDetail) -> Seq<char> {
    ("\n🚫 Failure #"@ + decimal(number) + " Details:\n"@) + ("   📍 Location: Line "@ + decimal(
        f.line_number as nat,
    ) + " in test file\n"@) + ("   📝 SQL Query:\n      "@ + f.sql@ + "\n"@) + (
    "   ⚠️  Error Message:\n      "@ + f.error_message@ + "\n"@)
}

/// The expected and actual output of a failed query, where there is any.
pub open spec fn failure_comparison(f: QueryFailureDetail) -> Seq<char> {
    text_if(
        f.expected@.len() > 0 || f.actual@.len() > 0,
        "\n   📋 Result Comparison:\n"@ + ("      Expected: "@ + or_empty_mark(f.expected@) + "\n"@)
            + ("      Actual:   "@ + or_empty_mark(f.actual@) + "\n"@),
    )
}

/// The analyses of the failed queries `fs`, out of `total`, each but the
/// last followed by a rule.
pub open spec fn failure_blocks(fs: Seq<QueryFailureDetail>, total: nat) -> Seq<char>
    decreases fs.len(),
{
    if fs.len() == 0 {
        Seq::empty()
    } else {
        failure_blocks(fs.drop_last(), total) + failure_block(fs.len(), fs.last()) + block_rule(
            fs.len() < total,
        )
    }
}

/// The rule between two failure analyses, where another follows.
pub open spec fn block_rule(more: bool) -> Seq<char> {
    text_if(more, "\n"@ + Seq::new(40, |i: int| '-') + "\n"@)
}

fn push_block_rule(out: &mut Vec<char>, more: bool)
    ensures
        final(out)@ == old(out)@ + block_rule(more),
{
    if more {
        push_str(out, "\n");
        push_repeat(out, '-', 40);
        push_str(out, "\n");
    }
    assert(final(out)@ =~= old(out)@ + block_rule(more));
}

/// The closing advice of a failure analysis.
pub open spec fn debugging_tips() -> Seq<char> {
    "🔧 Debugging Tips:\n"@
        + "  1. Check the 'Test File Content' attachment to see the exact test content\n"@
        + "  2. Review the 'Expected Result File (with line numbers)' attachment to find the problematic line\n"@
        + "  3. The error shows result file line numbers - use them to locate issues in the expected result\n"@
        + "  4. Check if the database schema or data setup matches the test expectations\n\n"@
}

/// The failure analysis attached to a failed case, written at `generated_at`.
pub open spec fn failure_details_text(case: TestResult, generated_at: Seq<char>) -> Seq<char> {
    ("Test Failure Analysis for: "@ + case.test_name@ + "\n"@ + Seq::new(80, |i: int| '=')
        + "\n\n"@) + failure_statistics(case) + error_summary(case) + failure_analysis(case)
        + debugging_tips() + ("Generated at: "@ + generated_at + "\n"@)
}

/// The numbered errors of a case, where there are any.
pub open spec fn error_summary(case: TestResult) -> Seq<char> {
    text_if(
        case.errors@.len() > 0,
        "❌ Error Summary:\n"@ + numbered_errors(string_views(case.errors@)) + "\n"@,
    )
}

/// The analyses of a case's failed queries, where there are any.
pub open spec fn failure_analysis(case: TestResult) -> Seq<char> {
    text_if(
        case.query_failures@.len() > 0,
        "🔍 Detailed Query Failure Analysis:\n"@ + Seq::new(60, |i: int| '-') + "\n"@
            + failure_blocks(case.query_failures@, case.query_failures@.len()) + "\n"@,
    )
}

fn push_numbered_errors(out: &mut Vec<char>, errors: &Vec<String>)
    requires
        errors@.len() < u64::MAX,
    ensures
        final(out)@ == old(out)@ + numbered_errors(string_views(errors@)),
{
    let ghost start = out@;
    let ghost v = string_views(errors@);
    let mut i: usize = 0;
    while i < errors.len()
        invariant
            i <= errors@.len() < u64::MAX,
            v == string_views(errors@),
            out@ == start + numbered_errors(v.take(i as int)),
        decreases errors@.len() - i,
    {
        push_str(out, "  ");
        push_decimal(out, (i + 1) as u64);
        push_str(out, ". ");
        push_str(out, errors[i].as_str());
        push_str(out, "\n");
        assert(v.take(i + 1).drop_last() =~= v.take(i as int));
        assert(v.take(i + 1).last() == errors@[i as int]@);
        i += 1;
        assert(out@ =~= start + numbered_errors(v.take(i as int)));
    }
    assert(v.take(i as int) =~= v);
}

fn push_or_empty_mark(out: &mut Vec<char>, text: &String)
    ensures
        final(out)@ == old(out)@ + or_empty_mark(text@),
{
    if chars_of(text.as_str()).len() == 0 {
        push_str(out, "(empty)");
    } else {
        push_str(out, text.as_str());
    }
}

fn push_failure_block_head(out: &mut Vec<char>, number: u64, f: &QueryFailureDetail)
    ensures
        final(out)@ == old(out)@ + failure_block_head(number as nat, *f),
{
    let ghost s0 = out@;
    push_str(out, "\n🚫 Failure #");
    push_decimal(out, number);
    push_str(out, " Details:\n");
    let ghost s1 = out@;
    assert(s1 =~= s0 + ("\n🚫 Failure #"@ + decimal(number as nat) + " Details:\n"@));
    push_str(out, "   📍 Location: Line ");
    push_decimal(out, f.line_number as u64);
    push_str(out, " in test file\n");
    let ghost s2 = out@;
    assert(s2 =~= s1 + ("   📍 Location: Line "@ + decimal(f.line_number as nat) + " in test file\n"@));
    push_str(out, "   📝 SQL Query:\n      ");
    push_str(out, f.sql.as_str());
    push_str(out, "\n");
    let ghost s3 = out@;
    assert(s3 =~= s2 + ("   📝 SQL Query:\n      "@ + f.sql@ + "\n"@));
    push_str(out, "   ⚠️  Error Message:\n      ");
    push_str(out, f.error_message.as_str());
    push_str(out, "\n");
    assert(out@ =~= s3 + ("   ⚠️  Error Message:\n      "@ + f.error_message@ + "\n"@));
    assert(out@ =~= s0 + failure_block_head(number as nat, *f));
}

fn push_failure_comparison(out: &mut Vec<char>, f: &QueryFailureDetail)
    ensures
        final(out)@ == old(out)@ + failure_comparison(*f),
{
    let ghost s0 = out@;
    if chars_of(f.expected.as_str()).len() > 0 || chars_of(f.actual.as_str()).len() > 0 {
        push_str(out, "\n   📋 Result Comparison:\n");
        let ghost s1 = out@;
        push_str(out, "      Expected: ");
        push_or_empty_mark(out, &f.expected);
        push_str(out, "\n");
        let ghost s2 = out@;
        assert(s2 =~= s1 + ("      Expected: "@ + or_empty_mark(f.expected@) + "\n"@));
        push_str(out, "      Actual:   ");
        push_or_empty_mark(out, &f.actual);
        push_str(out, "\n");
        assert(out@ =~= s2 + ("      Actual:   "@ + or_empty_mark(f.actual@) + "\n"@));
    }
    assert(out@ =~= s0 + failure_comparison(*f));
}

fn push_failure_block(out: &mut Vec<char>, number: u64, f: &QueryFailureDetail)
    ensures
        final(out)@ == old(out)@ + failure_block(number as nat, *f),
{
    push_failure_block_head(out, number, f);
    push_failure_comparison(out, f);
    assert(final(out)@ =~= old(out)@ + failure_block(number as nat, *f));
}

fn push_failure_blocks(out: &mut Vec<char>, fs: &Vec<QueryFailureDetail>)
    requires
        fs@.len() < u64::MAX,
    ensures
        final(out)@ == old(out)@ + failure_blocks(fs@, fs@.len()),
{
    let ghost start = out@;
    let mut i: usize = 0;
    while i < fs.len()
        invariant
            i <= fs@.len() < u64::MAX,
            out@ == start + failure_blocks(fs@.take(i as int), fs@.len()),
        decreases fs@.len() - i,
    {
        push_failure_block(out, (i + 1) as u64, &fs[i]);
        push_block_rule(out, i + 1 < fs.len());
        proof {
            let t = fs@.take(i + 1);
            assert(t.drop_last() =~= fs@.take(i as int));
        }
        i += 1;
        assert(out@ =~= start + failure_blocks(fs@.take(i as int), fs@.len()));
    }
    assert(fs@.take(i as int) =~= fs@);
}

fn push_debugging_tips(out: &mut Vec<char>)
    ensures
        final(out)@ == old(out)@ + debugging_tips(),
{
    push_str(out, "🔧 Debugging Tips:\n");
    push_str(out, "  1. Check the 'Test File Content' attachment to see the exact test content\n");
    push_str(
        out,
        "  2. Review the 'Expected Result File (with line numbers)' attachment to find the problematic line\n",
    );
    push_str(
        out,
        "  3. The error shows result file line numbers - use them to locate issues in the expected result\n",
    );
    push_str(out, "  4. Check if the database schema or data setup matches the test expectations\n\n");
    assert(final(out)@ =~= old(out)@ + debugging_tips());
}

/// The statistics block of a failure analysis.
pub open spec fn failure_statistics(case: TestResult) -> Seq<char> {
    "📊 Test Statistics:\n"@ + "  • Duration: "@ + decimal(case.duration_ms as nat) + " ms\n"@
        + "  • Passed Queries: "@ + decimal(case.passed_queries as nat) + "\n"@
        + "  • Failed Queries: "@ + decimal(case.failed_queries as nat) + "\n"@
        + "  • Total Errors: "@ + decimal(case.errors@.len()) + "\n\n"@
}

fn push_failure_statistics(out: &mut Vec<char>, case: &TestResult)
    ensures
        final(out)@ == old(out)@ + failure_statistics(*case),
{
    push_str(out, "📊 Test Statistics:\n");
    push_str(out, "  • Duration: ");
    push_decimal(out, case.duration_ms);
    push_str(out, " ms\n");
    push_str(out, "  • Passed Queries: ");
    push_decimal(out, case.passed_queries as u64);
    push_str(out, "\n");
    push_str(out, "  • Failed Queries: ");
    push_decimal(out, case.failed_queries as u64);
    push_str(out, "\n");
    push_str(out, "  • Total Errors: ");
    push_decimal(out, case.errors.len() as u64);
    push_str(out, "\n\n");
    assert(final(out)@ =~= old(out)@ + failure_statistics(*case));
}

fn push_error_summary(out: &mut Vec<char>, case: &TestResult)
    requires
        case.errors@.len() < u64::MAX,
    ensures
        final(out)@ == old(out)@ + error_summary(*case),
{
    if case.errors.len() > 0 {
        push_str(out, "❌ Error Summary:\n");
        push_numbered_errors(out, &case.errors);
        push_str(out, "\n");
    }
    assert(final(out)@ =~= old(out)@ + error_summary(*case));
}

fn push_failure_analysis(out: &mut Vec<char>, case: &TestResult)
    requires
        case.query_failures@.len() < u64::MAX,
    ensures
        final(out)@ == old(out)@ + failure_analysis(*case),
{
    if case.query_failures.len() > 0 {
        push_str(out, "🔍 Detailed Query Failure Analysis:\n");
        push_repeat(out, '-', 60);
        push_str(out, "\n");
        push_failure_blocks(out, &case.query_failures);
        push_str(out, "\n");
    }
    assert(final(out)@ =~= old(out)@ + failure_analysis(*case));
}

impl AllureRenderer {
    /// The failure analysis attached to a failed case (see
    /// [`failure_details_text`]), dated `generated_at`.
    pub fn generate_failure_details_content(&self, case: &TestResult, generated_at: &str) -> (res:
        String)
        requires
            case.errors@.len() < u64::MAX,
            case.query_failures@.len() < u64::MAX,
        ensures
            res@ == failure_details_text(*case, generated_at@),
    {
        let mut out: Vec<char> = Vec::new();
        push_str(&mut out, "Test Failure Analysis for: ");
        push_str(&mut out, case.test_name.as_str());
        push_str(&mut out, "\n");
        push_repeat(&mut out, '=', 80);
        push_str(&mut out, "\n\n");
        let ghost s1 = out@;
        push_failure_statistics(&mut out, case);
        push_error_summary(&mut out, case);
        push_failure_analysis(&mut out, case);
        push_debugging_tips(&mut out);
        let ghost s2 = out@;
        push_str(&mut out, "Generated at: ");
        push_str(&mut out, generated_at);
        push_str(&mut out, "\n");
        assert(out@ =~= s2 + ("Generated at: "@ + generated_at@ + "\n"@));
        assert(out@ =~= failure_details_text(*case, generated_at@));
        to_string(&out)
    }
}

} // verus!
