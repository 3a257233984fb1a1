//! The test execution engine: the state of a running test and every
//! decision it takes. The engine does no I/O itself; the caller runs the
//! SQL, commands and files it asks for and hands back what came of them.

use vstd::prelude::*;
use std::collections::HashMap;
use crate::text::{
    chars_of, decimal, push_str, push_all, push_decimal, to_string, lines, lines_of, views, trim,
    trim_vec, subvec, eq_vec, whole_lines, str_le, str_le_vec, lemma_str_le_total,
    lemma_str_le_transitive, lemma_str_le_antisymmetric, join, join_vecs, debug_strings,
    spec_debug_strings, eq_str,
};
use crate::tester::query::{Query, QueryType, queries_view};
use crate::tester::error_handler::DbError;
use crate::tester::replace_regex::spec_regex_captures;

verus! {

broadcast use vstd::std_specs::hash::group_hash_axioms;

/// The status of a finished test.
#[derive(Debug, Clone, Copy, PartialEq, Eq, Structural)]
pub enum TestStatus {
    Passed,
    Failed,
    Skipped,
}

/// What went wrong in one query, for detailed reports.
#[derive(Debug, Clone)]
pub struct QueryFailureDetail {
    /// The SQL of the query that failed.
    pub sql: String,
    /// The output that was expected.
    pub expected: String,
    /// The output that was produced.
    pub actual: String,
    /// The line of the test file.
    pub line_number: usize,
    /// The error message.
    pub error_message: String,
}

/// The outcome of running one test file.
#[derive(Debug, Clone)]
pub struct TestResult {
    pub test_name: String,
    pub success: bool,
    pub passed_queries: usize,
    pub failed_queries: usize,
    pub errors: Vec<String>,
    /// Duration in milliseconds.
    pub duration_ms: u64,
    pub status: TestStatus,
    pub stdout: String,
    pub stderr: String,
    /// `mysql-test.` followed by the test name.
    pub classname: String,
    pub query_failures: Vec<QueryFailureDetail>,
    /// Start time, ISO 8601.
    pub start_time: String,
    /// End time, ISO 8601.
    pub end_time: String,
}

impl TestResult {
    /// A passed result with no queries run.
    pub fn new(test_name: &str) -> (res: Self)
        ensures
            res.test_name@ == test_name@,
            res.success,
            res.passed_queries == 0,
            res.failed_queries == 0,
            res.errors@.len() == 0,
            res.duration_ms == 0,
            res.status == TestStatus::Passed,
            res.stdout@.len() == 0,
            res.stderr@.len() == 0,
            res.classname@ == "mysql-test."@ + test_name@,
            res.query_failures@.len() == 0,
            res.start_time@.len() == 0,
            res.end_time@.len() == 0,
    {
        let mut c: Vec<char> = Vec::new();
        push_str(&mut c, "mysql-test.");
        push_str(&mut c, test_name);
        TestResult {
            test_name: String::from_str(test_name),
            success: true,
            passed_queries: 0,
            failed_queries: 0,
            errors: Vec::new(),
            duration_ms: 0,
            status: TestStatus::Passed,
            stdout: String::new(),
            stderr: String::new(),
            classname: to_string(&c),
            query_failures: Vec::new(),
            start_time: String::new(),
            end_time: String::new(),
        }
    }

    /// Marks the test failed.
    pub fn mark_failed(&mut self)
        ensures
            *final(self) == (TestResult { success: false, status: TestStatus::Failed, ..*old(self) }),
    {
        self.success = false;
        self.status = TestStatus::Failed;
    }

    /// Records an error; the test is then failed.
    pub fn add_error(&mut self, error: String)
        ensures
            final(self).errors@ == old(self).errors@.push(error),
            *final(self) == (TestResult {
                errors: final(self).errors,
                success: false,
                status: TestStatus::Failed,
                ..*old(self)
            }),
    {
        self.errors.push(error);
        self.mark_failed();
    }

    pub fn set_duration(&mut self, duration_ms: u64)
        ensures
            *final(self) == (TestResult { duration_ms, ..*old(self) }),
    {
        self.duration_ms = duration_ms;
    }

    pub fn set_stdout(&mut self, stdout: String)
        ensures
            *final(self) == (TestResult { stdout, ..*old(self) }),
    {
        self.stdout = stdout;
    }

    pub fn set_stderr(&mut self, stderr: String)
        ensures
            *final(self) == (TestResult { stderr, ..*old(self) }),
    {
        self.stderr = stderr;
    }

    pub fn set_start_time(&mut self, start_time: String)
        ensures
            *final(self) == (TestResult { start_time, ..*old(self) }),
    {
        self.start_time = start_time;
    }

    pub fn set_end_time(&mut self, end_time: String)
        ensures
            *final(self) == (TestResult { end_time, ..*old(self) }),
    {
        self.end_time = end_time;
    }

    /// Adds the details of a failed query.
    pub fn add_query_failure(&mut self, failure: QueryFailureDetail)
        ensures
            final(self).query_failures@ == old(self).query_failures@.push(failure),
            *final(self) == (TestResult { query_failures: final(self).query_failures, ..*old(self) }),
    {
        self.query_failures.push(failure);
    }
}

/// Why the engine refused or failed a step.
#[derive(Debug, Clone)]
pub enum TesterError {
    /// An `end` with no open `if` or `while`; its line.
    MismatchedEnd(usize),
    /// An `if` or `while` never closed; its line.
    UnclosedBlock(usize),
    /// Output went on past the end of the expected result; the extra line.
    ExtraLine(String),
    /// A line of output differs from the expected one.
    Mismatch { result_line: usize, test_line: usize, expected: String, actual: String },
    /// Output was produced but there is no result file.
    NoResultFile,
    /// The expected result has lines left; where they start, and the first.
    MissingLines { result_line: usize, expected: String },
    /// A variable could not be expanded or assigned.
    Variable(crate::tester::variables::VariableError),
    /// A `--replace_regex` argument was refused.
    ReplaceRegex(crate::tester::replace_regex::ReplaceRegexError),
    /// A database error that was not expected.
    Database(crate::tester::error_handler::DbError),
    /// Any other failure, with its message.
    Message(String),
}

pub enum TesterErrorView {
    MismatchedEnd(int),
    UnclosedBlock(int),
    ExtraLine(Seq<char>),
    Mismatch { result_line: int, test_line: int, expected: Seq<char>, actual: Seq<char> },
    NoResultFile,
    MissingLines { result_line: int, expected: Seq<char> },
    Variable(crate::tester::variables::VarFailure),
    ReplaceRegex(crate::tester::replace_regex::ReplaceRegexErrorView),
    Database(crate::tester::error_handler::DbError),
    Message(Seq<char>),
}

impl View for TesterError {
    type V = TesterErrorView;

    open spec fn view(&self) -> TesterErrorView {
        match self {
            TesterError::MismatchedEnd(l) => TesterErrorView::MismatchedEnd(*l as int),
            TesterError::UnclosedBlock(l) => TesterErrorView::UnclosedBlock(*l as int),
            TesterError::ExtraLine(s) => TesterErrorView::ExtraLine(s@),
            TesterError::Mismatch { result_line, test_line, expected, actual } =>
                TesterErrorView::Mismatch {
                result_line: *result_line as int,
                test_line: *test_line as int,
                expected: expected@,
                actual: actual@,
            },
            TesterError::NoResultFile => TesterErrorView::NoResultFile,
            TesterError::MissingLines { result_line, expected } => TesterErrorView::MissingLines {
                result_line: *result_line as int,
                expected: expected@,
            },
            TesterError::Variable(e) => TesterErrorView::Variable(e@),
            TesterError::ReplaceRegex(e) => TesterErrorView::ReplaceRegex(e@),
            TesterError::Database(e) => TesterErrorView::Database(*e),
            TesterError::Message(s) => TesterErrorView::Message(s@),
        }
    }
}

/// The text of an engine error.
pub open spec fn tester_message(e: TesterErrorView) -> Seq<char> {
    match e {
        TesterErrorView::MismatchedEnd(l) => "Mismatched 'end' at line "@ + decimal(l as nat),
        TesterErrorView::UnclosedBlock(l) => "Unclosed control block starting at line "@ + decimal(
            l as nat,
        ),
        TesterErrorView::ExtraLine(s) => "Output has more lines than expected. Extra line: '"@ + s
            + "'"@,
        TesterErrorView::Mismatch { result_line, test_line, expected, actual } =>
            "Output mismatch at result line "@ + decimal(result_line as nat) + (if test_line > 0 {
            " (from test file line "@ + decimal(test_line as nat) + ")"@
        } else {
            seq![]
        }) + ":\n    Expected: "@ + expected + "\n    Actual: "@ + actual,
        TesterErrorView::NoResultFile => "Result file not found, but output was produced."@,
        TesterErrorView::MissingLines { result_line, expected } =>
            "Output missing lines starting at expected line "@ + decimal(result_line as nat)
            + ":\n    Expected: "@ + expected,
        TesterErrorView::Variable(f) => crate::tester::variables::failure_message(f),
        TesterErrorView::ReplaceRegex(e) => crate::tester::replace_regex::replace_regex_message(e),
        TesterErrorView::Database(e) => crate::tester::error_handler::db_error_text(e),
        TesterErrorView::Message(s) => s,
    }
}

impl TesterError {
    /// The text of the error.
    pub fn message(&self) -> (res: String)
        ensures
            res@ == tester_message(self@),
    {
        let mut v: Vec<char> = Vec::new();
        match self {
            TesterError::MismatchedEnd(l) => {
                push_str(&mut v, "Mismatched 'end' at line ");
                push_decimal(&mut v, *l as u64);
            },
            TesterError::UnclosedBlock(l) => {
                push_str(&mut v, "Unclosed control block starting at line ");
                push_decimal(&mut v, *l as u64);
            },
            TesterError::ExtraLine(s) => {
                push_str(&mut v, "Output has more lines than expected. Extra line: '");
                push_str(&mut v, s.as_str());
                push_str(&mut v, "'");
            },
            TesterError::Mismatch { result_line, test_line, expected, actual } => {
                push_str(&mut v, "Output mismatch at result line ");
                push_decimal(&mut v, *result_line as u64);
                if *test_line > 0 {
                    push_str(&mut v, " (from test file line ");
                    push_decimal(&mut v, *test_line as u64);
                    push_str(&mut v, ")");
                }
                push_str(&mut v, ":\n    Expected: ");
                push_str(&mut v, expected.as_str());
                push_str(&mut v, "\n    Actual: ");
                push_str(&mut v, actual.as_str());
            },
            TesterError::NoResultFile => {
                push_str(&mut v, "Result file not found, but output was produced.");
            },
            TesterError::MissingLines { result_line, expected } => {
                push_str(&mut v, "Output missing lines starting at expected line ");
                push_decimal(&mut v, *result_line as u64);
                push_str(&mut v, ":\n    Expected: ");
                push_str(&mut v, expected.as_str());
            },
            TesterError::Variable(e) => {
                let m = e.message();
                push_str(&mut v, m.as_str());
            },
            TesterError::ReplaceRegex(e) => {
                let m = e.message();
                push_str(&mut v, m.as_str());
            },
            TesterError::Database(e) => {
                let m = e.text();
                push_str(&mut v, m.as_str());
            },
            TesterError::Message(s) => {
                push_str(&mut v, s.as_str());
            },
        }
        to_string(&v)
    }
}

/// Whether a query opens a control block.
pub open spec fn opens_block(t: QueryType) -> bool {
    t == QueryType::If || t == QueryType::While
}

/// The types of the queries.
pub open spec fn query_types(qs: Seq<Query>) -> Seq<QueryType> {
    qs.map_values(|q: Query| q.query_type)
}

/// Matching of `if`/`while` with `end` over the first `n` queries: the open
/// blocks (innermost last) and the pairs found, both ways; or the index of
/// an `end` with nothing to close, with the pairs found before it.
pub open spec fn cf_fold(types: Seq<QueryType>, n: int) -> Result<
    (Seq<int>, Map<int, int>),
    (int, Map<int, int>),
>
    decreases n,
{
    if n <= 0 {
        Ok((seq![], Map::empty()))
    } else {
        match cf_fold(types, n - 1) {
            Err(e) => Err(e),
            Ok(st) => {
                let i = n - 1;
                if opens_block(types[i]) {
                    Ok((st.0.push(i), st.1))
                } else if types[i] == QueryType::End {
                    if st.0.len() == 0 {
                        Err((i, st.1))
                    } else {
                        Ok((st.0.drop_last(), st.1.insert(st.0.last(), i).insert(i, st.0.last())))
                    }
                } else {
                    Ok(st)
                }
            },
        }
    }
}

/// The pairs a control-flow scan records, whether or not it succeeds.
pub open spec fn cf_pairs(types: Seq<QueryType>) -> Map<int, int> {
    match cf_fold(types, types.len() as int) {
        Ok(st) => st.1,
        Err(e) => e.1,
    }
}

/// The error of a control-flow scan, if any: the line of an unmatched `end`,
/// else the line of the innermost unclosed block.
pub open spec fn cf_error(qs: Seq<Query>) -> Option<TesterErrorView> {
    match cf_fold(query_types(qs), qs.len() as int) {
        Err(e) => Some(TesterErrorView::MismatchedEnd(qs[e.0].line as int)),
        Ok(st) => if st.0.len() > 0 {
            Some(TesterErrorView::UnclosedBlock(qs[st.0.last()].line as int))
        } else {
            None
        },
    }
}

pub open spec fn map_view(m: Map<usize, usize>) -> Map<int, int> {
    Map::new(|k: int| m.dom().contains(k as usize) && 0 <= k <= usize::MAX, |k: int| m[k as usize] as int)
}

/// The facts a successful scan keeps: each pair links an opener to a later
/// `end` and back, and the open blocks are openers, in order, in no pair.
pub open spec fn cf_wf(types: Seq<QueryType>, n: int, stack: Seq<int>, pairs: Map<int, int>) -> bool {
    &&& forall|k: int| #[trigger] pairs.contains_key(k) ==> 0 <= k < n && pairs.contains_key(pairs[k])
        && pairs[pairs[k]] == k && 0 <= pairs[k] < n && (opens_block(types[k]) ==> k < pairs[k]
        && types[pairs[k]] == QueryType::End) && (types[k] == QueryType::End ==> pairs[k] < k
        && opens_block(types[pairs[k]])) && (opens_block(types[k]) || types[k] == QueryType::End)
    &&& forall|j: int| 0 <= j < stack.len() ==> 0 <= #[trigger] stack[j] < n && opens_block(types[stack[j]])
        && !pairs.contains_key(stack[j])
    &&& forall|j: int, l: int| 0 <= j < l < stack.len() ==> #[trigger] stack[j] < #[trigger] stack[l]
    &&& forall|k: int| 0 <= k < n && (opens_block(types[k]) || types[k] == QueryType::End) ==> (
        pairs.contains_key(k) || exists|j: int| 0 <= j < stack.len() && #[trigger] stack[j] == k)
}

proof fn lemma_cf_fold_wf(types: Seq<QueryType>, n: int)
    requires
        0 <= n <= types.len(),
    ensures
        cf_fold(types, n) matches Ok(st) ==> cf_wf(types, n, st.0, st.1),
    decreases n,
{
    if n > 0 {
        lemma_cf_fold_wf(types, n - 1);
        match cf_fold(types, n - 1) {
            Err(_) => {},
            Ok(st) => {
                let i = n - 1;
                if opens_block(types[i]) {
                    let s2 = st.0.push(i);
                    assert forall|k: int| 0 <= k < n && (opens_block(types[k]) || types[k]
                        == QueryType::End) implies (st.1.contains_key(k) || exists|j: int|
                        0 <= j < s2.len() && #[trigger] s2[j] == k) by {
                        if k == i {
                            assert(s2[s2.len() - 1] == k);
                        } else if !st.1.contains_key(k) {
                            let j = choose|j: int| 0 <= j < st.0.len() && #[trigger] st.0[j] == k;
                            assert(s2[j] == k);
                        }
                    }
                } else if types[i] == QueryType::End && st.0.len() > 0 {
                    let o = st.0.last();
                    let s2 = st.0.drop_last();
                    let p2 = st.1.insert(o, i).insert(i, o);
                    assert(o < i);
                    assert forall|k: int| 0 <= k < n && (opens_block(types[k]) || types[k]
                        == QueryType::End) implies (p2.contains_key(k) || exists|j: int|
                        0 <= j < s2.len() && #[trigger] s2[j] == k) by {
                        if k != i && k != o && !st.1.contains_key(k) {
                            let j = choose|j: int| 0 <= j < st.0.len() && #[trigger] st.0[j] == k;
                            if j == st.0.len() - 1 {
                                assert(false);
                            }
                            assert(s2[j] == k);
                        }
                    }
                    assert forall|j: int| 0 <= j < s2.len() implies 0 <= #[trigger] s2[j] < n
                        && opens_block(types[s2[j]]) && !p2.contains_key(s2[j]) by {
                        assert(s2[j] == st.0[j]);
                        assert(st.0[j] < st.0[st.0.len() - 1]);
                    }
                } else if types[i] != QueryType::End {
                    assert forall|k: int| 0 <= k < n && (opens_block(types[k]) || types[k]
                        == QueryType::End) implies (st.1.contains_key(k) || exists|j: int|
                        0 <= j < st.0.len() && #[trigger] st.0[j] == k) by {
                        if k == i {
                            assert(false);
                        }
                    }
                }
            },
        }
    }
}

/// A successful scan pairs every `if` and `while` with a later `end` and
/// every `end` with an earlier `if` or `while`, each pair linked both ways.
pub proof fn law_control_flow_pairs(qs: Seq<Query>)
    requires
        cf_error(qs) is None,
    ensures
        forall|k: int|
            0 <= k < qs.len() && (opens_block(qs[k].query_type) || qs[k].query_type
                == QueryType::End) ==> #[trigger] cf_pairs(query_types(qs)).contains_key(k),
        forall|k: int| #[trigger]
            cf_pairs(query_types(qs)).contains_key(k) ==> {
                let m = cf_pairs(query_types(qs));
                &&& 0 <= k < qs.len()
                &&& m.contains_key(m[k]) && m[m[k]] == k
                &&& opens_block(qs[k].query_type) ==> k < m[k] && qs[m[k]].query_type
                    == QueryType::End
                &&& qs[k].query_type == QueryType::End ==> m[k] < k && opens_block(
                    qs[m[k]].query_type,
                )
            },
{
    let types = query_types(qs);
    lemma_cf_fold_wf(types, qs.len() as int);
    assert forall|k: int| 0 <= k < qs.len() implies types[k] == qs[k].query_type by {}
    let st = cf_fold(types, qs.len() as int)->Ok_0;
    assert(st.0.len() == 0);
    assert forall|k: int|
        0 <= k < qs.len() && (opens_block(qs[k].query_type) || qs[k].query_type
            == QueryType::End) implies #[trigger] cf_pairs(types).contains_key(k) by {
        assert(types[k] == qs[k].query_type);
    }
}

proof fn lemma_cf_err_persists(types: Seq<QueryType>, n: int, m: int)
    requires
        0 <= n <= m,
        cf_fold(types, n) is Err,
    ensures
        cf_fold(types, m) == cf_fold(types, n),
    decreases m - n,
{
    if m > n {
        lemma_cf_err_persists(types, n, m - 1);
    }
}

proof fn lemma_map_view_insert(m: Map<usize, usize>, a: usize, b: usize)
    ensures
        map_view(m.insert(a, b)) == map_view(m).insert(a as int, b as int),
{
    assert(map_view(m.insert(a, b)) =~= map_view(m).insert(a as int, b as int));
}

/// A `while` loop being run.
#[derive(Debug, Clone)]
pub struct WhileFrame {
    /// Index of the `while`.
    pub start_index: usize,
    /// Index of its `end`.
    pub end_index: usize,
    /// The condition, as written.
    pub condition: String,
    /// How many times the loop body has run.
    pub iteration_count: usize,
}

/// A loop that runs this many times is taken to run forever.
pub const MAX_LOOP_ITERATIONS: usize = 10000;

/// The state of a running test.
pub struct Tester {
    /// The name of the test being run.
    pub test_name: String,
    /// Whether output is recorded (else it is compared with the result file).
    pub record: bool,
    /// Whether an error other than the expected one fails the query.
    pub check_err: bool,
    /// The output recorded so far.
    pub output_buffer: String,
    /// Whether queries are echoed to the output.
    pub enable_query_log: bool,
    /// Whether results are written to the output.
    pub enable_result_log: bool,
    /// The errors the next query is expected to raise.
    pub expected_errors: Vec<String>,
    pub error_handler: crate::tester::error_handler::MySQLErrorHandler,
    /// The lines of the expected result, when there is a result file.
    pub result_lines: Option<Vec<Vec<char>>>,
    /// The next expected line to compare, counted from 1.
    pub current_result_line: usize,
    /// Whether the next query's rows are sorted.
    pub pending_sorted_result: bool,
    /// The (pattern, replacement) rules for the next query's output.
    pub pending_replace_regex: Vec<(String, String)>,
    /// The test's variables.
    pub variable_context: crate::tester::variables::VariableContext,
    pub expression_evaluator: crate::tester::expression::ExpressionEvaluator,
    pub while_stack: Vec<WhileFrame>,
    /// Each `if`/`while` index to its `end` index, and back.
    pub control_flow_map: HashMap<usize, usize>,
    pub in_concurrent_block: bool,
    pub concurrent_queries: Vec<Query>,
    pub current_query: Option<String>,
    pub current_query_line: usize,
}

impl Tester {
    /// The invariant of the engine's state.
    pub closed spec fn wf(&self) -> bool {
        &&& self.variable_context.wf()
        &&& self.expression_evaluator.wf()
        &&& self.current_result_line >= 1
        &&& (self.result_lines matches Some(e) ==> self.current_result_line <= e.len() + 1 && e.len()
            < usize::MAX)
        &&& forall|i: int| 0 <= i < self.while_stack@.len() ==> (#[trigger] self.while_stack@[i]).start_index < usize::MAX
    }

    /// The control-flow map, as pairs of indexes.
    pub closed spec fn flow_map(&self) -> Map<int, int> {
        map_view(self.control_flow_map@)
    }

    /// Records the matching `end` of each `if` and `while` (and back).
    pub fn build_control_flow_map(&mut self, queries: &[Query]) -> (res: Result<(), TesterError>)
        ensures
            final(self).flow_map() == old(self).flow_map().union_prefer_right(
                cf_pairs(query_types(queries@)),
            ),
            match cf_error(queries@) {
                Some(e) => res is Err && res->Err_0@ == e,
                None => res is Ok,
            },
            old(self).wf() ==> final(self).wf(),
    {
        let ghost types = query_types(queries@);
        let ghost base = self.flow_map();
        let mut stack: Vec<usize> = Vec::new();
        let mut i: usize = 0;
        while i < queries.len()
            invariant
                i <= queries.len(),
                types == query_types(queries@),
                base == old(self).flow_map(),
                self.while_stack == old(self).while_stack,
                self.result_lines == old(self).result_lines,
                self.current_result_line == old(self).current_result_line,
                self.variable_context == old(self).variable_context,
                self.error_handler == old(self).error_handler,
                self.expression_evaluator == old(self).expression_evaluator,
                old(self).wf() ==> self.wf(),
                cf_fold(types, i as int) is Ok,
                stack@.map_values(|x: usize| x as int) == cf_fold(types, i as int)->Ok_0.0,
                self.flow_map() == base.union_prefer_right(cf_fold(types, i as int)->Ok_0.1),
                forall|j: int| 0 <= j < stack@.len() ==> #[trigger] stack@[j] < queries@.len(),
            decreases queries.len() - i,
        {
            let ghost st = cf_fold(types, i as int)->Ok_0;
            let t = queries[i].query_type;
            assert(types[i as int] == t);
            if t == QueryType::If || t == QueryType::While {
                stack.push(i);
                assert(stack@.map_values(|x: usize| x as int) =~= st.0.push(i as int));
            } else if t == QueryType::End {
                if stack.len() == 0 {
                    proof {
                        assert(st.0.len() == 0);
                        lemma_cf_err_persists(types, i + 1, queries@.len() as int);
                    }
                    return Err(TesterError::MismatchedEnd(queries[i].line));
                }
                let start = stack.pop().unwrap();
                proof {
                    assert(st.0.last() == start as int);
                    assert(stack@.map_values(|x: usize| x as int) =~= st.0.drop_last());
                    lemma_map_view_insert(self.control_flow_map@, start, i);
                    lemma_map_view_insert(self.control_flow_map@.insert(start, i), i, start);
                }
                self.control_flow_map.insert(start, i);
                self.control_flow_map.insert(i, start);
                assert(self.flow_map() =~= base.union_prefer_right(st.1.insert(start as int, i as int).insert(i as int, start as int)));
            }
            i += 1;
        }
        assert(queries@.len() == types.len());
        if stack.len() > 0 {
            let last = stack[stack.len() - 1];
            return Err(TesterError::UnclosedBlock(queries[last].line));
        }
        Ok(())
    }
}

/// Compares output lines with the expected lines from line `cur` (counted
/// from 1): the line reached, and the first difference, if any.
pub open spec fn compare_lines(
    exp: Seq<Seq<char>>,
    cur: int,
    actual: Seq<Seq<char>>,
    test_line: int,
) -> (int, Option<TesterErrorView>)
    decreases actual.len(),
{
    if actual.len() == 0 {
        (cur, None)
    } else if cur - 1 >= exp.len() {
        (cur, Some(TesterErrorView::ExtraLine(actual[0])))
    } else if actual[0] != exp[cur - 1] {
        (
            cur,
            Some(
                TesterErrorView::Mismatch {
                    result_line: cur,
                    test_line,
                    expected: exp[cur - 1],
                    actual: actual[0],
                },
            ),
        )
    } else {
        compare_lines(exp, cur + 1, actual.drop_first(), test_line)
    }
}

/// Comparing output lines with the expected lines from `cur` (a line of the
/// expected result, or just past its end) on accepts
/// them exactly when each output line equals, as a string, the expected line
/// it meets (and none runs past the end); then the cursor moves past them.
/// An error that reports a mismatch names two lines that differ.
pub proof fn law_compare_accepts_only_equal_lines(
    exp: Seq<Seq<char>>,
    cur: int,
    actual: Seq<Seq<char>>,
    test_line: int,
)
    requires
        1 <= cur <= exp.len() + 1,
    ensures
        compare_lines(exp, cur, actual, test_line).1 is None <==> (cur - 1 + actual.len() <= exp.len()
            && forall|k: int| 0 <= k < actual.len() ==> #[trigger] actual[k] == exp[cur - 1 + k]),
        compare_lines(exp, cur, actual, test_line).1 is None ==> compare_lines(exp, cur, actual, test_line).0
            == cur + actual.len(),
        compare_lines(exp, cur, actual, test_line).1 matches Some(TesterErrorView::Mismatch { expected, actual: a, .. })
            ==> expected != a,
        actual.len() > 0 && cur - 1 < exp.len() && actual[0] != exp[cur - 1] ==> compare_lines(
            exp,
            cur,
            actual,
            test_line,
        ).1 == Some(
            TesterErrorView::Mismatch {
                result_line: cur,
                test_line,
                expected: exp[cur - 1],
                actual: actual[0],
            },
        ),
    decreases actual.len(),
{
    if actual.len() > 0 && cur - 1 < exp.len() && actual[0] == exp[cur - 1] {
        law_compare_accepts_only_equal_lines(exp, cur + 1, actual.drop_first(), test_line);
        let r = compare_lines(exp, cur + 1, actual.drop_first(), test_line);
        if r.1 is None {
            assert forall|k: int| 0 <= k < actual.len() implies #[trigger] actual[k] == exp[cur - 1 + k] by {
                if k > 0 {
                    assert(actual[k] == actual.drop_first()[k - 1]);
                }
            }
        } else {
            if cur - 1 + actual.len() <= exp.len() && forall|k: int| 0 <= k < actual.len() ==> #[trigger] actual[k] == exp[cur - 1 + k] {
                assert forall|k: int| 0 <= k < actual.drop_first().len() implies #[trigger] actual.drop_first()[k] == exp[(cur + 1) - 1 + k] by {
                    assert(actual[k + 1] == exp[cur - 1 + (k + 1)]);
                }
                assert(false);
            }
        }
    } else if actual.len() > 0 {
        if cur - 1 < exp.len() {
            if forall|k: int| 0 <= k < actual.len() ==> #[trigger] actual[k] == exp[cur - 1 + k] {
                assert(actual[0] == exp[cur - 1 + 0]);
                assert(false);
            }
        }
    }
}

/// Comparing output with an expected result from `cur` on accepts it
/// exactly when each of its lines equals the expected line it meets.
pub proof fn law_compare_output_accepts_only_equal_lines(
    exp: Seq<Seq<char>>,
    cur: int,
    output: Seq<char>,
    test_line: int,
)
    requires
        1 <= cur <= exp.len() + 1,
    ensures
        compare_output(Some(exp), cur, output, test_line).1 is None <==> (cur - 1 + lines(output).len()
            <= exp.len() && forall|k: int|
            0 <= k < lines(output).len() ==> #[trigger] lines(output)[k] == exp[cur - 1 + k]),
        compare_output(Some(exp), cur, output, test_line).1 matches Some(TesterErrorView::Mismatch { expected, actual, .. })
            ==> expected != actual,
{
    law_compare_accepts_only_equal_lines(exp, cur, lines(output), test_line);
}

/// What comparing `output` does when not recording: the line reached and
/// the error, if any.
pub open spec fn compare_output(
    exp: Option<Seq<Seq<char>>>,
    cur: int,
    output: Seq<char>,
    test_line: int,
) -> (int, Option<TesterErrorView>) {
    match exp {
        None => (cur, if output.len() > 0 {
            Some(TesterErrorView::NoResultFile)
        } else {
            None
        }),
        Some(e) => compare_lines(e, cur, lines(output), test_line),
    }
}

/// The error left when a test ends: expected lines not reached.
pub open spec fn unconsumed(exp: Option<Seq<Seq<char>>>, cur: int) -> Option<TesterErrorView> {
    match exp {
        Some(e) => if cur - 1 < e.len() {
            Some(TesterErrorView::MissingLines { result_line: cur, expected: e[cur - 1] })
        } else {
            None
        },
        None => None,
    }
}

pub open spec fn error_matches(res: Result<(), TesterError>, e: Option<TesterErrorView>) -> bool {
    match e {
        None => res is Ok,
        Some(v) => res is Err && res->Err_0@ == v,
    }
}

impl Tester {
    /// The lines of the expected result, if there is one.
    pub closed spec fn expected_lines(&self) -> Option<Seq<Seq<char>>> {
        match self.result_lines {
            Some(v) => Some(views(v@)),
            None => None,
        }
    }

    /// The next expected line to compare, counted from 1.
    pub closed spec fn cursor(&self) -> int {
        self.current_result_line as int
    }

    /// The test-file line of the query being run (0 when none).
    pub closed spec fn query_line(&self) -> int {
        self.current_query_line as int
    }

    /// The SQL being run, if any.
    pub closed spec fn query_text(&self) -> Option<Seq<char>> {
        match self.current_query {
            Some(s) => Some(s@),
            None => None,
        }
    }

    /// An engine for the given settings: logs on, no modifiers, no result
    /// file, no variables.
    pub fn new(args: &crate::cli::Args) -> (res: Result<Tester, TesterError>)
        ensures
            match res {
                Ok(t) => {
                    &&& parse_unsigned_port(args.port@)
                    &&& t.wf()
                    &&& t.record == args.record
                    &&& t.check_err == args.check_err
                    &&& t.enable_query_log && t.enable_result_log
                    &&& t.expected_errors@.len() == 0
                    &&& !t.pending_sorted_result
                    &&& t.pending_replace_regex@.len() == 0
                    &&& t.variable_context@ == Map::<Seq<char>, Seq<char>>::empty()
                    &&& t.output_buffer@.len() == 0
                    &&& t.expected_lines() is None
                    &&& t.cursor() == 1
                    &&& t.flow_map() == Map::<int, int>::empty()
                },
                Err(e) => !parse_unsigned_port(args.port@) && e@ == TesterErrorView::Message(
                    "Invalid port: "@ + args.port@,
                ),
            },
    {
        if crate::text::parse_u16_vec(&chars_of(args.port.as_str())).is_none() {
            let mut v: Vec<char> = Vec::new();
            push_str(&mut v, "Invalid port: ");
            push_str(&mut v, args.port.as_str());
            return Err(TesterError::Message(to_string(&v)));
        }
        let t = Tester {
            test_name: String::new(),
            record: args.record,
            check_err: args.check_err,
            output_buffer: String::new(),
            enable_query_log: true,
            enable_result_log: true,
            expected_errors: Vec::new(),
            error_handler: crate::tester::error_handler::MySQLErrorHandler::new(),
            result_lines: None,
            current_result_line: 1,
            pending_sorted_result: false,
            pending_replace_regex: Vec::new(),
            variable_context: crate::tester::variables::VariableContext::new(),
            expression_evaluator: crate::tester::expression::ExpressionEvaluator::new(),
            while_stack: Vec::new(),
            control_flow_map: HashMap::new(),
            in_concurrent_block: false,
            concurrent_queries: Vec::new(),
            current_query: None,
            current_query_line: 0,
        };
        assert(t.flow_map() =~= Map::<int, int>::empty());
        Ok(t)
    }

    /// Starts a test: its name is set, the output and the one-shot
    /// modifiers are cleared, and the expected result is `result_content`
    /// (`None` in record mode or when there is no result file).
    pub fn set_test(&mut self, test_name: &str, result_content: Option<&str>)
        requires
            old(self).wf(),
            result_content matches Some(c) ==> c@.len() < usize::MAX,
        ensures
            final(self).wf(),
            final(self).test_name@ == test_name@,
            final(self).output_buffer@.len() == 0,
            final(self).expected_errors@.len() == 0,
            !final(self).pending_sorted_result,
            final(self).pending_replace_regex@.len() == 0,
            final(self).cursor() == 1,
            final(self).expected_lines() == (match result_content {
                Some(c) => Some(lines(c@)),
                None => None,
            }),
            final(self).flow_map() == Map::<int, int>::empty(),
            final(self).record == old(self).record,
            final(self).check_err == old(self).check_err,
            final(self).enable_query_log == old(self).enable_query_log,
            final(self).enable_result_log == old(self).enable_result_log,
            final(self).variable_context@ == old(self).variable_context@,
    {
        self.test_name = String::from_str(test_name);
        self.output_buffer = String::new();
        self.expected_errors = Vec::new();
        self.current_result_line = 1;
        self.pending_sorted_result = false;
        self.pending_replace_regex = Vec::new();
        self.while_stack = Vec::new();
        self.control_flow_map = HashMap::new();
        self.in_concurrent_block = false;
        self.concurrent_queries = Vec::new();
        self.result_lines = match result_content {
            Some(c) => {
                let ls = lines_of(&chars_of(c));
                proof {
                    crate::text::lemma_lines_len(c@);
                }
                Some(ls)
            },
            None => None,
        };
        assert(self.flow_map() =~= Map::<int, int>::empty());
    }

    /// Compares output with the expected result from the current line on
    /// (or, when recording, appends it to the output).
    pub fn compare_with_result(&mut self, output: &str) -> (res: Result<(), TesterError>)
        requires
            old(self).wf(),
        ensures
            final(self).wf(),
            old(self).record ==> res is Ok && final(self).output_buffer@ == old(self).output_buffer@
                + output@ && final(self).cursor() == old(self).cursor(),
            !old(self).record ==> {
                let r = compare_output(
                    old(self).expected_lines(),
                    old(self).cursor(),
                    output@,
                    old(self).query_line(),
                );
                &&& final(self).cursor() == r.0
                &&& error_matches(res, r.1)
                &&& final(self).output_buffer@ == old(self).output_buffer@
            },
            final(self).expected_lines() == old(self).expected_lines(),
            final(self).query_line() == old(self).query_line(),
            final(self).query_text() == old(self).query_text(),
            final(self).record == old(self).record,
            final(self).check_err == old(self).check_err,
            final(self).enable_query_log == old(self).enable_query_log,
            final(self).enable_result_log == old(self).enable_result_log,
            final(self).expected_errors == old(self).expected_errors,
            final(self).pending_sorted_result == old(self).pending_sorted_result,
            final(self).pending_replace_regex == old(self).pending_replace_regex,
            final(self).variable_context == old(self).variable_context,
            final(self).flow_map() == old(self).flow_map(),
    {
        if self.record {
            let mut v = chars_of(self.output_buffer.as_str());
            crate::text::push_str(&mut v, output);
            self.output_buffer = to_string(&v);
            return Ok(());
        }
        match &self.result_lines {
            None => {
                if chars_of(output).len() > 0 {
                    return Err(TesterError::NoResultFile);
                }
                Ok(())
            },
            Some(exp) => {
                let actual = lines_of(&chars_of(output));
                let ghost ev = views(exp@);
                let ghost av = views(actual@);
                let mut k: usize = 0;
                assert(av.skip(0) =~= av);
                while k < actual.len()
                    invariant
                        k <= actual.len(),
                        self.result_lines == old(self).result_lines,
                        ev == views(exp@),
                        av == views(actual@),
                        av == lines(output@),
                        self.result_lines == Some(*exp),
                        self.wf(),
                        self.current_result_line as int == old(self).current_result_line + k,
                        compare_lines(ev, old(self).current_result_line as int, av, self.current_query_line as int)
                            == compare_lines(ev, self.current_result_line as int, av.skip(k as int), self.current_query_line as int),
                        self.current_query_line == old(self).current_query_line,
                        self.output_buffer == old(self).output_buffer,
                        self.record == old(self).record,
                        !self.record,
                        self.check_err == old(self).check_err,
                        self.enable_query_log == old(self).enable_query_log,
                        self.enable_result_log == old(self).enable_result_log,
                        self.expected_errors == old(self).expected_errors,
                        self.pending_sorted_result == old(self).pending_sorted_result,
                        self.pending_replace_regex == old(self).pending_replace_regex,
                        self.variable_context == old(self).variable_context,
                        self.control_flow_map == old(self).control_flow_map,
                        self.current_query == old(self).current_query,
                    decreases actual.len() - k,
                {
                    let cursor = self.current_result_line - 1;
                    assert(av.len() == actual@.len());
                    assert(ev.len() == exp@.len());
                    assert(av.skip(k as int).len() > 0);
                    assert(av.skip(k as int)[0] == actual@[k as int]@);
                    if cursor >= exp.len() {
                        let e = TesterError::ExtraLine(to_string(&actual[k]));
                        return Err(e);
                    }
                    assert(ev[cursor as int] == exp@[cursor as int]@);
                    if !eq_vec(&actual[k], &exp[cursor]) {
                        return Err(
                            TesterError::Mismatch {
                                result_line: self.current_result_line,
                                test_line: self.current_query_line,
                                expected: to_string(&exp[cursor]),
                                actual: to_string(&actual[k]),
                            },
                        );
                    }
                    assert(av.skip(k as int).drop_first() =~= av.skip(k + 1));
                    self.current_result_line = self.current_result_line + 1;
                    k += 1;
                }
                assert(av.skip(k as int).len() == 0);
                Ok(())
            },
        }
    }

    /// Checks, at the end of a test, that every expected line was reached.
    pub fn verify_expected_consumed(&self) -> (res: Result<(), TesterError>)
        requires
            self.wf(),
        ensures
            error_matches(res, unconsumed(self.expected_lines(), self.cursor())),
    {
        match &self.result_lines {
            Some(exp) => {
                if self.current_result_line - 1 < exp.len() {
                    let line = &exp[self.current_result_line - 1];
                    assert(views(exp@)[self.current_result_line - 1] == line@);
                    return Err(
                        TesterError::MissingLines {
                            result_line: self.current_result_line,
                            expected: to_string(line),
                        },
                    );
                }
                Ok(())
            },
            None => Ok(()),
        }
    }
}

pub open spec fn parse_unsigned_port(port: Seq<char>) -> bool {
    crate::text::parse_unsigned(port, 65535) is Some
}

/// All outputs, one after the other.
pub open spec fn concat_all(outs: Seq<Seq<char>>) -> Seq<char>
    decreases outs.len(),
{
    if outs.len() == 0 {
        seq![]
    } else {
        outs[0] + concat_all(outs.drop_first())
    }
}

/// Compares outputs one after the other, stopping at the first difference.
pub open spec fn replay(
    exp: Seq<Seq<char>>,
    cur: int,
    outs: Seq<Seq<char>>,
    test_line: int,
) -> (int, Option<TesterErrorView>)
    decreases outs.len(),
{
    if outs.len() == 0 {
        (cur, None)
    } else {
        let r = compare_lines(exp, cur, lines(outs[0]), test_line);
        if r.1 is Some {
            r
        } else {
            replay(exp, r.0, outs.drop_first(), test_line)
        }
    }
}

proof fn lemma_compare_prefix(exp: Seq<Seq<char>>, cur: int, actual: Seq<Seq<char>>, test_line: int)
    requires
        1 <= cur,
        cur - 1 + actual.len() <= exp.len(),
        exp.subrange(cur - 1, cur - 1 + actual.len()) == actual,
    ensures
        compare_lines(exp, cur, actual, test_line) == (cur + actual.len() as int, None::<TesterErrorView>),
    decreases actual.len(),
{
    if actual.len() > 0 {
        assert(exp[cur - 1] == exp.subrange(cur - 1, cur - 1 + actual.len())[0]);
        assert(exp.subrange(cur, cur + actual.drop_first().len()) =~= actual.drop_first());
        lemma_compare_prefix(exp, cur + 1, actual.drop_first(), test_line);
    }
}

proof fn lemma_replay_suffix(exp: Seq<Seq<char>>, cur: int, outs: Seq<Seq<char>>, test_line: int)
    requires
        1 <= cur,
        forall|i: int| 0 <= i < outs.len() ==> whole_lines(#[trigger] outs[i]),
        exp.skip(cur - 1) == lines(concat_all(outs)),
        cur - 1 <= exp.len(),
    ensures
        replay(exp, cur, outs, test_line) == ((exp.len() + 1) as int, None::<TesterErrorView>),
    decreases outs.len(),
{
    if outs.len() == 0 {
        assert(lines(concat_all(outs)) =~= Seq::<Seq<char>>::empty());
        assert(exp.skip(cur - 1).len() == 0);
    } else {
        let first = lines(outs[0]);
        let rest = outs.drop_first();
        assert(whole_lines(outs[0]));
        crate::text::lemma_lines_append(outs[0], concat_all(rest));
        assert(exp.skip(cur - 1) == first + lines(concat_all(rest)));
        assert(exp.subrange(cur - 1, cur - 1 + first.len()) =~= first) by {
            assert forall|k: int| 0 <= k < first.len() implies exp.subrange(
                cur - 1,
                cur - 1 + first.len(),
            )[k] == first[k] by {
                assert(exp.skip(cur - 1)[k] == (first + lines(concat_all(rest)))[k]);
            }
        }
        lemma_compare_prefix(exp, cur, first, test_line);
        assert(exp.skip(cur + first.len() - 1) =~= lines(concat_all(rest))) by {
            assert forall|k: int| 0 <= k < exp.skip(cur + first.len() - 1).len() implies exp.skip(
                cur + first.len() - 1,
            )[k] == lines(concat_all(rest))[k] by {
                assert(exp.skip(cur - 1)[first.len() + k] == (first + lines(concat_all(rest)))[first.len() + k]);
            }
        }
        assert forall|i: int| 0 <= i < rest.len() implies whole_lines(#[trigger] rest[i]) by {
            assert(rest[i] == outs[i + 1]);
        }
        lemma_replay_suffix(exp, cur + first.len(), rest, test_line);
    }
}

/// Recorded output replays: when the expected result is what a sequence of
/// outputs (each empty or ending in a newline) recorded, comparing the same
/// outputs from the first line finds no difference and reaches the end of
/// the result, so nothing is left unconsumed.
pub proof fn law_replay_recorded_output(outs: Seq<Seq<char>>, test_line: int)
    requires
        forall|i: int| 0 <= i < outs.len() ==> whole_lines(#[trigger] outs[i]),
    ensures
        replay(lines(concat_all(outs)), 1, outs, test_line) == (
            (lines(concat_all(outs)).len() + 1) as int,
            None::<TesterErrorView>,
        ),
        unconsumed(Some(lines(concat_all(outs))), (lines(concat_all(outs)).len() + 1) as int) is None,
{
    let exp = lines(concat_all(outs));
    assert(exp.skip(0) =~= exp);
    lemma_replay_suffix(exp, 1, outs, test_line);
}

/// The order of result rows: lexicographic by cell, cells ordered as strings.
pub open spec fn row_le(a: Seq<Seq<char>>, b: Seq<Seq<char>>) -> bool
    decreases a.len(),
{
    if a.len() == 0 {
        true
    } else if b.len() == 0 {
        false
    } else if a[0] != b[0] {
        str_le(a[0], b[0])
    } else {
        row_le(a.drop_first(), b.drop_first())
    }
}

proof fn lemma_row_le_total(a: Seq<Seq<char>>, b: Seq<Seq<char>>)
    ensures
        row_le(a, b) || row_le(b, a),
    decreases a.len(),
{
    if a.len() > 0 && b.len() > 0 {
        if a[0] == b[0] {
            lemma_row_le_total(a.drop_first(), b.drop_first());
        } else {
            lemma_str_le_total(a[0], b[0]);
        }
    }
}

proof fn lemma_row_le_transitive(a: Seq<Seq<char>>, b: Seq<Seq<char>>, c: Seq<Seq<char>>)
    requires
        row_le(a, b),
        row_le(b, c),
    ensures
        row_le(a, c),
    decreases a.len(),
{
    if a.len() > 0 && b.len() > 0 && c.len() > 0 {
        if a[0] == b[0] && b[0] == c[0] {
            lemma_row_le_transitive(a.drop_first(), b.drop_first(), c.drop_first());
        } else if a[0] == b[0] {
        } else if b[0] == c[0] {
        } else {
            lemma_str_le_transitive(a[0], b[0], c[0]);
            if a[0] == c[0] {
                lemma_str_le_antisymmetric(a[0], b[0]);
            }
        }
    }
}

/// Rows in order.
pub open spec fn rows_sorted(rows: Seq<Seq<Seq<char>>>) -> bool {
    forall|i: int, j: int| 0 <= i < j < rows.len() ==> row_le(#[trigger] rows[i], #[trigger] rows[j])
}

/// The text of result rows: each row's cells joined by tabs, then a newline.
pub open spec fn format_rows(rows: Seq<Seq<Seq<char>>>) -> Seq<char>
    decreases rows.len(),
{
    if rows.len() == 0 {
        seq![]
    } else {
        format_rows(rows.drop_last()) + join(rows.last(), seq!['\t']) + seq!['\n']
    }
}

pub open spec fn row_views(rows: Seq<Vec<String>>) -> Seq<Seq<Seq<char>>> {
    rows.map_values(|r: Vec<String>| crate::text::string_views(r@))
}

fn row_le_exec(a: &Vec<String>, b: &Vec<String>) -> (res: bool)
    ensures
        res == row_le(crate::text::string_views(a@), crate::text::string_views(b@)),
{
    let ghost av = crate::text::string_views(a@);
    let ghost bv = crate::text::string_views(b@);
    let mut i: usize = 0;
    assert(av.skip(0) =~= av);
    assert(bv.skip(0) =~= bv);
    loop
        invariant
            i <= a.len(),
            i <= b.len(),
            av == crate::text::string_views(a@),
            bv == crate::text::string_views(b@),
            row_le(av, bv) == row_le(av.skip(i as int), bv.skip(i as int)),
        decreases a.len() - i,
    {
        if i == a.len() {
            return true;
        }
        if i == b.len() {
            return false;
        }
        let x = chars_of(a[i].as_str());
        let y = chars_of(b[i].as_str());
        assert(av.skip(i as int)[0] == x@);
        assert(bv.skip(i as int)[0] == y@);
        if !eq_vec(&x, &y) {
            return str_le_vec(&x, &y);
        }
        assert(av.skip(i as int).drop_first() =~= av.skip(i + 1));
        assert(bv.skip(i as int).drop_first() =~= bv.skip(i + 1));
        i += 1;
    }
}

/// The rows in order; equal rows keep their relative order.
fn sort_rows(rows: &[Vec<String>]) -> (res: Vec<&Vec<String>>)
    ensures
        rows_sorted(res@.map_values(|r: &Vec<String>| crate::text::string_views(r@))),
        res@.map_values(|r: &Vec<String>| crate::text::string_views(r@)).to_multiset()
            == row_views(rows@).to_multiset(),
{
    let ghost rv = row_views(rows@);
    let mut out: Vec<&Vec<String>> = Vec::new();
    let mut k: usize = 0;
    assert(out@.map_values(|r: &Vec<String>| crate::text::string_views(r@)) =~= rv.take(0));
    while k < rows.len()
        invariant
            k <= rows.len(),
            rv == row_views(rows@),
            rows_sorted(out@.map_values(|r: &Vec<String>| crate::text::string_views(r@))),
            out@.map_values(|r: &Vec<String>| crate::text::string_views(r@)).to_multiset()
                == rv.take(k as int).to_multiset(),
        decreases rows.len() - k,
    {
        let ghost ov = out@.map_values(|r: &Vec<String>| crate::text::string_views(r@));
        let ghost x = rv[k as int];
        assert(x == crate::text::string_views(rows@[k as int]@));
        let mut p: usize = 0;
        while p < out.len() && row_le_exec(out[p], &rows[k])
            invariant
                p <= out.len(),
                k < rows.len(),
                ov == out@.map_values(|r: &Vec<String>| crate::text::string_views(r@)),
                x == crate::text::string_views(rows@[k as int]@),
                forall|m: int| 0 <= m < p ==> row_le(#[trigger] ov[m], x),
            decreases out.len() - p,
        {
            p += 1;
        }
        proof {
            if p < out.len() {
                lemma_row_le_total(ov[p as int], x);
            }
        }
        out.insert(p, &rows[k]);
        proof {
            let nv = out@.map_values(|r: &Vec<String>| crate::text::string_views(r@));
            assert(nv =~= ov.insert(p as int, x));
            assert forall|i: int, j: int| 0 <= i < j < nv.len() implies row_le(
                #[trigger] nv[i],
                #[trigger] nv[j],
            ) by {
                if j < p {
                    assert(nv[i] == ov[i] && nv[j] == ov[j]);
                } else if j == p {
                    assert(nv[i] == ov[i]);
                } else if i > p {
                    assert(nv[i] == ov[i - 1] && nv[j] == ov[j - 1]);
                } else if i == p {
                    assert(nv[j] == ov[j - 1]);
                    if j - 1 > p {
                        lemma_row_le_transitive(x, ov[p as int], ov[j - 1]);
                    }
                } else {
                    assert(nv[i] == ov[i] && nv[j] == ov[j - 1]);
                    assert(row_le(ov[i], x));
                    if j - 1 >= p {
                        assert(row_le(x, ov[j - 1])) by {
                            if j - 1 > p {
                                lemma_row_le_transitive(x, ov[p as int], ov[j - 1]);
                            }
                        }
                        lemma_row_le_transitive(ov[i], x, ov[j - 1]);
                    }
                }
            }
            vstd::seq_lib::to_multiset_insert(ov, p as int, x);
            vstd::seq_lib::to_multiset_build(rv.take(k as int), x);
            assert(rv.take(k + 1) =~= rv.take(k as int).push(x));
        }
        k += 1;
    }
    assert(rv.take(rows.len() as int) =~= rv);
    out
}

proof fn lemma_row_le_refl(a: Seq<Seq<char>>)
    ensures
        row_le(a, a),
    decreases a.len(),
{
    if a.len() > 0 {
        lemma_row_le_refl(a.drop_first());
    }
}

proof fn lemma_row_le_antisymmetric(a: Seq<Seq<char>>, b: Seq<Seq<char>>)
    requires
        row_le(a, b),
        row_le(b, a),
    ensures
        a == b,
    decreases a.len(),
{
    if a.len() == 0 {
        assert(a =~= b);
    } else {
        if a[0] != b[0] {
            lemma_str_le_antisymmetric(a[0], b[0]);
        }
        lemma_row_le_antisymmetric(a.drop_first(), b.drop_first());
        assert(a =~= seq![a[0]] + a.drop_first());
        assert(b =~= seq![b[0]] + b.drop_first());
    }
}

/// Rows in order are fixed by the rows they hold: two ordered arrangements
/// of the same rows are the same.
#[verifier::rlimit(40)]
#[verifier::spinoff_prover]
pub proof fn law_sorted_rows_unique(a: Seq<Seq<Seq<char>>>, b: Seq<Seq<Seq<char>>>)
    requires
        rows_sorted(a),
        rows_sorted(b),
        a.to_multiset() == b.to_multiset(),
    ensures
        a == b,
    decreases a.len(),
{
    broadcast use vstd::seq_lib::group_to_multiset_ensures;

    if a.len() == 0 {
        assert(b.to_multiset().len() == 0);
        assert(b.len() == 0);
        assert(a =~= b);
    } else {
        assert(b.len() == a.len()) by {
            assert(a.to_multiset().len() == a.len());
            assert(b.to_multiset().len() == b.len());
        }
        assert(a.to_multiset().count(a[0]) > 0);
        assert(b.contains(a[0]));
        assert(a.contains(b[0])) by {
            assert(b.to_multiset().count(b[0]) > 0);
        }
        let i = choose|i: int| 0 <= i < b.len() && b[i] == a[0];
        let j = choose|j: int| 0 <= j < a.len() && a[j] == b[0];
        assert(row_le(b[0], a[0])) by {
            if i > 0 {
                assert(row_le(b[0], b[i]));
            } else {
                lemma_row_le_refl(a[0]);
            }
        }
        assert(row_le(a[0], b[0])) by {
            if j > 0 {
                assert(row_le(a[0], a[j]));
            } else {
                lemma_row_le_refl(a[0]);
            }
        }
        lemma_row_le_antisymmetric(a[0], b[0]);
        let a1 = a.drop_first();
        let b1 = b.drop_first();
        assert(a =~= a1.insert(0, a[0]));
        assert(b =~= b1.insert(0, b[0]));
        vstd::seq_lib::to_multiset_insert(a1, 0, a[0]);
        vstd::seq_lib::to_multiset_insert(b1, 0, b[0]);
        assert(a1.to_multiset() =~= b1.to_multiset()) by {
            assert(a1.to_multiset() == a.to_multiset().remove(a[0]));
            assert(b1.to_multiset() == b.to_multiset().remove(b[0]));
        }
        assert forall|x: int, y: int| 0 <= x < y < a1.len() implies row_le(
            #[trigger] a1[x],
            #[trigger] a1[y],
        ) by {
            assert(a1[x] == a[x + 1] && a1[y] == a[y + 1]);
        }
        assert forall|x: int, y: int| 0 <= x < y < b1.len() implies row_le(
            #[trigger] b1[x],
            #[trigger] b1[y],
        ) by {
            assert(b1[x] == b[x + 1] && b1[y] == b[y + 1]);
        }
        law_sorted_rows_unique(a1, b1);
    }
}

impl Tester {
    /// The text of result rows: cells joined by tabs, one row per line; the
    /// rows are put in order first when the sorted-result modifier is set.
    pub fn format_query_result_to_string(&self, rows: &[Vec<String>]) -> (res: String)
        ensures
            !self.pending_sorted_result ==> res@ == format_rows(row_views(rows@)),
            self.pending_sorted_result ==> exists|s: Seq<Seq<Seq<char>>>|
                rows_sorted(s) && s.to_multiset() == row_views(rows@).to_multiset() && res@
                    == format_rows(s),
    {
        let mut order: Vec<&Vec<String>> = Vec::new();
        if self.pending_sorted_result {
            order = sort_rows(rows);
        } else {
            let mut k: usize = 0;
            while k < rows.len()
                invariant
                    k <= rows.len(),
                    order@.map_values(|r: &Vec<String>| crate::text::string_views(r@))
                        == row_views(rows@).take(k as int),
                decreases rows.len() - k,
            {
                let ghost before = order@;
                order.push(&rows[k]);
                assert(row_views(rows@)[k as int] == crate::text::string_views(rows@[k as int]@));
                assert(order@ == before.push(&rows@[k as int]));
                assert(order@.map_values(|r: &Vec<String>| crate::text::string_views(r@))
                    =~= before.map_values(|r: &Vec<String>| crate::text::string_views(r@)).push(
                    crate::text::string_views(rows@[k as int]@),
                ));
                assert(row_views(rows@).take(k + 1) =~= row_views(rows@).take(k as int).push(
                    row_views(rows@)[k as int],
                ));
                k += 1;
            }
            assert(row_views(rows@).take(rows.len() as int) =~= row_views(rows@));
        }
        let ghost ov = order@.map_values(|r: &Vec<String>| crate::text::string_views(r@));
        let tab = vec!['\t'];
        assert(tab@ =~= seq!['\t']);
        let mut out: Vec<char> = Vec::new();
        let mut i: usize = 0;
        while i < order.len()
            invariant
                i <= order.len(),
                ov == order@.map_values(|r: &Vec<String>| crate::text::string_views(r@)),
                tab@ == seq!['\t'],
                out@ == format_rows(ov.take(i as int)),
            decreases order.len() - i,
        {
            let row = order[i];
            let mut cells: Vec<Vec<char>> = Vec::new();
            let mut c: usize = 0;
            while c < row.len()
                invariant
                    c <= row.len(),
                    views(cells@) == crate::text::string_views(row@).take(c as int),
                decreases row.len() - c,
            {
                let cell = chars_of(row[c].as_str());
                proof {
                    crate::text::lemma_views_push(cells@, cell);
                }
                cells.push(cell);
                assert(crate::text::string_views(row@).take(c + 1) =~= crate::text::string_views(row@).take(c as int).push(row@[c as int]@));
                c += 1;
            }
            assert(crate::text::string_views(row@).take(row.len() as int) =~= crate::text::string_views(row@));
            let line = join_vecs(&cells, &tab);
            push_all(&mut out, &line);
            out.push('\n');
            assert(ov.take(i + 1).drop_last() =~= ov.take(i as int));
            assert(ov.take(i + 1).last() == ov[i as int]);
            assert(out@ =~= format_rows(ov.take(i + 1)));
            i += 1;
        }
        assert(ov.take(order.len() as int) =~= ov);
        to_string(&out)
    }
}

/// The settings and state that outputs and modifiers leave alone.
pub open spec fn settings_same(a: Tester, b: Tester) -> bool {
    &&& a.record == b.record
    &&& a.check_err == b.check_err
    &&& a.enable_query_log == b.enable_query_log
    &&& a.enable_result_log == b.enable_result_log
    &&& a.variable_context@ == b.variable_context@
    &&& a.flow_map() == b.flow_map()
    &&& a.expected_lines() == b.expected_lines()
}

/// The query being run is the same.
pub open spec fn query_same(a: Tester, b: Tester) -> bool {
    a.query_line() == b.query_line() && a.query_text() == b.query_text()
}

/// The one-shot modifiers are the same.
pub open spec fn modifiers_same(a: Tester, b: Tester) -> bool {
    &&& a.expected_errors@ == b.expected_errors@
    &&& a.pending_sorted_result == b.pending_sorted_result
    &&& a.pending_replace_regex@ == b.pending_replace_regex@
}

/// The output and the place reached in the expected result are the same.
pub open spec fn output_same(a: Tester, b: Tester) -> bool {
    a.output_buffer@ == b.output_buffer@ && a.cursor() == b.cursor()
}

/// What writing `out` does: recorded, or compared with the expected result
/// from the current line.
pub open spec fn output_effect(a: Tester, b: Tester, res: Result<(), TesterError>, out: Seq<char>) -> bool {
    if a.record {
        res is Ok && b.output_buffer@ == a.output_buffer@ + out && b.cursor() == a.cursor()
    } else {
        let r = compare_output(a.expected_lines(), a.cursor(), out, a.query_line());
        b.cursor() == r.0 && error_matches(res, r.1) && b.output_buffer@ == a.output_buffer@
    }
}

/// Writing `out` with nothing else changed.
pub open spec fn output_step(a: Tester, b: Tester, res: Result<(), TesterError>, out: Seq<char>) -> bool {
    &&& b.wf()
    &&& output_effect(a, b, res, out)
    &&& settings_same(a, b)
    &&& modifiers_same(a, b)
    &&& query_same(a, b)
}

/// Nothing observable changed.
pub open spec fn unchanged(a: Tester, b: Tester) -> bool {
    b.wf() && settings_same(a, b) && modifiers_same(a, b) && output_same(a, b) && query_same(a, b)
}

impl Tester {
    /// Writes output (records it, or compares it with the expected result).
    pub fn write_output(&mut self, output: &str) -> (res: Result<(), TesterError>)
        requires
            old(self).wf(),
        ensures
            output_step(*old(self), *final(self), res, output@),
    {
        self.compare_with_result(output)
    }

    /// `--echo text`: the text, variables expanded, is written as a line.
    pub fn handle_echo(&mut self, text: &str) -> (res: Result<(), TesterError>)
        requires
            old(self).wf(),
        ensures
            match crate::tester::variables::expand_spec(old(self).variable_context@, text@, 0) {
                Ok(e) => output_step(*old(self), *final(self), res, e + seq!['\n']),
                Err(f) => res is Err && res->Err_0@ == TesterErrorView::Variable(f) && unchanged(
                    *old(self),
                    *final(self),
                ),
            },
    {
        let r = self.variable_context.expand(text);
        match r {
            Ok(e) => {
                assert(crate::tester::variables::expand_spec(self.variable_context@, text@, 0) == Ok::<Seq<char>, crate::tester::variables::VarFailure>(e@));
                let mut v = chars_of(e.as_str());
                v.push('\n');
                let out = to_string(&v);
                assert(out@ == e@ + seq!['\n']);
                self.write_output(out.as_str())
            },
            Err(err) => {
                assert(crate::tester::variables::expand_spec(self.variable_context@, text@, 0) == Err::<Seq<char>, crate::tester::variables::VarFailure>(err@));
                Err(TesterError::Variable(err))
            },
        }
    }

    /// `--error list`: the comma separated, trimmed error codes or names
    /// the next query is expected to raise.
    pub fn parse_expected_errors(&mut self, error_spec: &str)
        requires
            old(self).wf(),
        ensures
            final(self).wf(),
            crate::text::string_views(final(self).expected_errors@) == crate::text::split_trimmed(
                error_spec@,
                ',',
            ),
            settings_same(*old(self), *final(self)),
            output_same(*old(self), *final(self)),
            query_same(*old(self), *final(self)),
            final(self).pending_sorted_result == old(self).pending_sorted_result,
            final(self).pending_replace_regex@ == old(self).pending_replace_regex@,
            final(self).in_concurrent_block == old(self).in_concurrent_block,
            final(self).concurrent_queries@ == old(self).concurrent_queries@,
    {
        let parts = crate::text::split_trim(&chars_of(error_spec), ',');
        let ghost pv = views(parts@);
        let mut errs: Vec<String> = Vec::new();
        let mut i: usize = 0;
        while i < parts.len()
            invariant
                i <= parts.len(),
                pv == views(parts@),
                crate::text::string_views(errs@) == pv.take(i as int),
            decreases parts.len() - i,
        {
            let ghost before = errs@;
            errs.push(to_string(&parts[i]));
            assert(crate::text::string_views(errs@) =~= crate::text::string_views(before).push(parts@[i as int]@));
            assert(pv.take(i + 1) =~= pv.take(i as int).push(pv[i as int]));
            i += 1;
        }
        assert(pv.take(parts.len() as int) =~= pv);
        self.expected_errors = errs;
    }

    /// `--replace_regex /pattern/replacement/`: adds a rule for the next
    /// query's output.
    pub fn parse_replace_regex(&mut self, pattern: &str) -> (res: Result<(), TesterError>)
        requires
            old(self).wf(),
        ensures
            final(self).wf(),
            match crate::tester::replace_regex::replace_rule(pattern@) {
                Ok(r) => res is Ok && crate::tester::replace_regex::rule_views(
                    final(self).pending_replace_regex@,
                ) == crate::tester::replace_regex::rule_views(old(self).pending_replace_regex@).push(r),
                Err(e) => res is Err && res->Err_0@ == TesterErrorView::ReplaceRegex(e)
                    && final(self).pending_replace_regex@ == old(self).pending_replace_regex@,
            },
            settings_same(*old(self), *final(self)),
            output_same(*old(self), *final(self)),
            query_same(*old(self), *final(self)),
            final(self).pending_sorted_result == old(self).pending_sorted_result,
            final(self).expected_errors@ == old(self).expected_errors@,
    {
        match crate::tester::replace_regex::parse_replace_regex(pattern) {
            Ok(rule) => {
                let ghost before = self.pending_replace_regex@;
                self.pending_replace_regex.push(rule);
                assert(crate::tester::replace_regex::rule_views(self.pending_replace_regex@)
                    =~= crate::tester::replace_regex::rule_views(before).push((rule.0@, rule.1@)));
                Ok(())
            },
            Err(e) => Err(TesterError::ReplaceRegex(e)),
        }
    }

    /// Applies the pending replacement rules, in order, to `buffer`.
    pub fn apply_regex_replacements(&self, buffer: &mut String)
        ensures
            final(buffer)@ == crate::tester::replace_regex::apply_rules(
                old(buffer)@,
                crate::tester::replace_regex::rule_views(self.pending_replace_regex@),
            ),
    {
        crate::tester::replace_regex::apply_replacements(&self.pending_replace_regex, buffer);
    }
}

/// The server error code of an error, if it has one.
pub open spec fn code_of(e: DbError) -> Option<u16> {
    match e {
        DbError::Server { code, .. } => Some(code),
        _ => None,
    }
}

/// Whether one of the expected errors accepts the error: a database client
/// error is matched by code or name, any other error by `0` or by holding
/// the expected text.
pub open spec fn error_expected(e: DbError, expected: Seq<Seq<char>>) -> bool {
    match e {
        DbError::Runner(t) => exists|i: int|
            0 <= i < expected.len() && (#[trigger] expected[i] == "0"@ || crate::text::contains(
                t@,
                expected[i],
            )),
        _ => exists|i: int|
            0 <= i < expected.len() && crate::tester::error_handler::accepts(
                #[trigger] expected[i],
                code_of(e),
            ),
    }
}

/// How an error is shown in messages.
pub open spec fn error_display(e: DbError) -> Seq<char> {
    match e {
        DbError::Runner(t) => t@,
        _ => crate::tester::error_handler::format_db_error(e),
    }
}

/// What is written for an expected error: the error itself when exactly one
/// error other than `0` was expected, else a fixed line.
pub open spec fn expected_error_output(e: DbError, expected: Seq<Seq<char>>) -> Seq<char> {
    if expected.len() == 1 && expected[0] != "0"@ {
        error_display(e) + seq!['\n']
    } else {
        "Got one of the listed errors\n"@
    }
}

/// The message for an error other than the expected ones.
pub open spec fn wrong_error_message(e: DbError, expected: Seq<Seq<char>>) -> Seq<char> {
    "Expected error(s) "@ + spec_debug_strings(expected) + ", but got: "@ + error_display(e)
}

pub open spec fn unit_of(r: Result<bool, TesterError>) -> Result<(), TesterError> {
    match r {
        Ok(_) => Ok(()),
        Err(e) => Err(e),
    }
}

impl Tester {
    /// Decides about a query's error against the expected errors: `true`
    /// when it is handled (expected, or only warned about), `false` when no
    /// error was expected. An expected error is written to the output (when
    /// results are logged), after the replacement rules.
    pub fn handle_query_error(&mut self, error: &DbError) -> (res: Result<bool, TesterError>)
        requires
            old(self).wf(),
        ensures
            ({
                let exp = crate::text::string_views(old(self).expected_errors@);
                if exp.len() == 0 {
                    res == Ok::<bool, TesterError>(false) && unchanged(*old(self), *final(self))
                } else if error_expected(*error, exp) {
                    if old(self).enable_result_log {
                        output_step(
                            *old(self),
                            *final(self),
                            unit_of(res),
                            crate::tester::replace_regex::apply_rules(
                                expected_error_output(*error, exp),
                                crate::tester::replace_regex::rule_views(old(self).pending_replace_regex@),
                            ),
                        ) && (res is Ok ==> res == Ok::<bool, TesterError>(true))
                    } else {
                        res == Ok::<bool, TesterError>(true) && unchanged(*old(self), *final(self))
                    }
                } else {
                    &&& unchanged(*old(self), *final(self))
                    &&& old(self).check_err ==> res is Err && res->Err_0@ == TesterErrorView::Message(
                        wrong_error_message(*error, exp),
                    )
                    &&& !old(self).check_err ==> res == Ok::<bool, TesterError>(true)
                }
            }),
    {
        let ghost exp = crate::text::string_views(self.expected_errors@);
        if self.expected_errors.len() == 0 {
            return Ok(false);
        }
        assert forall|j: int| 0 <= j < exp.len() implies exp[j] == self.expected_errors@[j]@ by {}
        let is_match = match error {
            DbError::Runner(t) => {
                let msg = chars_of(t.as_str());
                let mut found = false;
                let mut i: usize = 0;
                while i < self.expected_errors.len()
                    invariant
                        i <= self.expected_errors.len(),
                        exp == crate::text::string_views(self.expected_errors@),
                        msg@ == t@,
                        found <==> exists|j: int|
                            0 <= j < i && (#[trigger] exp[j] == "0"@ || crate::text::contains(t@, exp[j])),
                    decreases self.expected_errors.len() - i,
                {
                    let e = chars_of(self.expected_errors[i].as_str());
                    assert(exp[i as int] == e@);
                    if eq_str(&e, "0") || crate::text::contains_vec(&msg, &e) {
                        found = true;
                    }
                    i += 1;
                }
                found
            },
            _ => {
                let code = self.error_handler.get_error_code(error);
                let r = self.error_handler.check_expected_error(code, self.expected_errors.as_slice());
                assert(r == error_expected(*error, exp)) by {
                    if r {
                        let j = choose|j: int| 0 <= j < self.expected_errors@.len() && crate::tester::error_handler::accepts(#[trigger] self.expected_errors@[j]@, code);
                        assert(exp[j] == self.expected_errors@[j]@);
                    }
                    if error_expected(*error, exp) {
                        let j = choose|j: int| 0 <= j < exp.len() && crate::tester::error_handler::accepts(#[trigger] exp[j], code_of(*error));
                        assert(exp[j] == self.expected_errors@[j]@);
                    }
                }
                r
            },
        };
        if is_match {
            if self.enable_result_log {
                let shown: String = match error {
                    DbError::Runner(t) => t.clone(),
                    _ => self.error_handler.format_error(error),
                };
                let mut out: String = if self.expected_errors.len() == 1 && !eq_str(
                    &chars_of(self.expected_errors[0].as_str()),
                    "0",
                ) {
                    let mut v = chars_of(shown.as_str());
                    v.push('\n');
                    to_string(&v)
                } else {
                    String::from_str("Got one of the listed errors\n")
                };
                assert(exp.len() == 1 ==> exp[0] == self.expected_errors@[0]@);
                assert(shown@ == error_display(*error));
                assert(out@ == expected_error_output(*error, exp));
                self.apply_regex_replacements(&mut out);
                match self.write_output(out.as_str()) {
                    Ok(()) => {
                        return Ok(true);
                    },
                    Err(e) => {
                        return Err(e);
                    },
                }
            }
            return Ok(true);
        }
        if self.check_err {
            let shown: String = match error {
                DbError::Runner(t) => t.clone(),
                _ => self.error_handler.format_error(error),
            };
            let mut v: Vec<char> = Vec::new();
            push_str(&mut v, "Expected error(s) ");
            let d = debug_strings(&self.expected_errors);
            push_str(&mut v, d.as_str());
            push_str(&mut v, ", but got: ");
            push_str(&mut v, shown.as_str());
            return Err(TesterError::Message(to_string(&v)));
        }
        Ok(true)
    }
}

/// The text of query result rows, as `format_query_result_to_string` makes
/// it with the sorted-result modifier `sorted`.
pub open spec fn rows_text(sorted: bool, rows: Seq<Seq<Seq<char>>>, text: Seq<char>) -> bool {
    if sorted {
        exists|s: Seq<Seq<Seq<char>>>|
            rows_sorted(s) && s.to_multiset() == rows.to_multiset() && text == format_rows(s)
    } else {
        text == format_rows(rows)
    }
}

/// What starting a SQL query does to the output, the query being run and
/// the result (the expanded SQL).
pub open spec fn begin_sql_effect(
    a: Tester,
    b: Tester,
    sql: Seq<char>,
    line_number: int,
    res: Result<String, TesterError>,
) -> bool {
    match crate::tester::variables::expand_spec(a.variable_context@, sql, 0) {
        Err(f) => res is Err && res->Err_0@ == TesterErrorView::Variable(f) && output_same(a, b)
            && b.query_text() == Some(sql) && b.query_line() == line_number,
        Ok(e) => if a.enable_query_log {
            let r = compare_output(a.expected_lines(), a.cursor(), e + seq!['\n'], line_number);
            if a.record {
                res is Ok && res->Ok_0@ == e && b.output_buffer@ == a.output_buffer@ + e + seq![
                    '\n',
                ] && b.cursor() == a.cursor() && b.query_text() == Some(sql) && b.query_line()
                    == line_number
            } else if r.1 is Some {
                res is Err && res->Err_0@ == r.1->0 && b.cursor() == r.0 && b.output_buffer@
                    == a.output_buffer@ && query_cleared(b)
            } else {
                res is Ok && res->Ok_0@ == e && b.cursor() == r.0 && b.output_buffer@
                    == a.output_buffer@ && b.query_text() == Some(sql) && b.query_line()
                    == line_number
            }
        } else {
            res is Ok && res->Ok_0@ == e && output_same(a, b) && b.query_text() == Some(sql)
                && b.query_line() == line_number
        },
    }
}

/// What ending a SQL query with its outcome does, the one-shot modifiers
/// aside.
pub open spec fn sql_finished(
    a: Tester,
    b: Tester,
    outcome: Result<Vec<Vec<String>>, DbError>,
    res: Result<(), TesterError>,
) -> bool {
    &&& b.wf()
    &&& settings_same(a, b)
    &&& match outcome {
        Ok(rows) => {
            let exp = crate::text::string_views(a.expected_errors@);
            &&& query_cleared(b)
            &&& if exp.len() > 0 && a.check_err {
                res is Err && res->Err_0@ == TesterErrorView::Message(
                    unexpected_success_message(exp),
                ) && output_same(a, b)
            } else if a.enable_result_log {
                exists|t: Seq<char>|
                    rows_text(a.pending_sorted_result, row_views(rows@), t) && output_effect(
                        a,
                        b,
                        res,
                        crate::tester::replace_regex::apply_rules(
                            t,
                            crate::tester::replace_regex::rule_views(a.pending_replace_regex@),
                        ),
                    )
            } else {
                res is Ok && output_same(a, b)
            }
        },
        Err(e) => {
            let exp = crate::text::string_views(a.expected_errors@);
            if exp.len() == 0 {
                res is Err && res->Err_0@ == TesterErrorView::Database(e) && output_same(a, b)
                    && query_cleared(b)
            } else if error_expected(e, exp) {
                if a.enable_result_log {
                    output_effect(
                        a,
                        b,
                        res,
                        crate::tester::replace_regex::apply_rules(
                            expected_error_output(e, exp),
                            crate::tester::replace_regex::rule_views(a.pending_replace_regex@),
                        ),
                    ) && (res is Ok ==> query_cleared(b)) && (res is Err ==> query_same(a, b))
                } else {
                    res is Ok && output_same(a, b) && query_cleared(b)
                }
            } else {
                &&& output_same(a, b)
                &&& a.check_err ==> res is Err && res->Err_0@ == TesterErrorView::Message(
                    wrong_error_message(e, exp),
                ) && query_same(a, b)
                &&& !a.check_err ==> res is Ok && query_cleared(b)
            }
        },
    }
}

/// After a query's outcome: the query is no longer the one being run.
pub open spec fn query_cleared(b: Tester) -> bool {
    b.query_text() is None && b.query_line() == 0
}

/// The message when an error was expected but the query succeeded.
pub open spec fn unexpected_success_message(expected: Seq<Seq<char>>) -> Seq<char> {
    "Expected error(s) "@ + spec_debug_strings(expected) + ", but query succeeded"@
}

impl Tester {
    /// Records the query being run, for failure reports.
    pub fn set_current_query(&mut self, sql: String, line_number: usize)
        requires
            old(self).wf(),
        ensures
            final(self).wf(),
            final(self).query_text() == Some(sql@),
            final(self).query_line() == line_number,
            settings_same(*old(self), *final(self)),
            modifiers_same(*old(self), *final(self)),
            output_same(*old(self), *final(self)),
    {
        self.current_query = Some(sql);
        self.current_query_line = line_number;
    }

    /// Forgets the query being run.
    pub fn clear_current_query(&mut self)
        requires
            old(self).wf(),
        ensures
            final(self).wf(),
            query_cleared(*final(self)),
            settings_same(*old(self), *final(self)),
            modifiers_same(*old(self), *final(self)),
            output_same(*old(self), *final(self)),
    {
        self.current_query = None;
        self.current_query_line = 0;
    }

    /// Starts a SQL query: it becomes the query being run, its variables are
    /// expanded, and it is written to the output when queries are logged.
    /// The expanded SQL is what the caller is to run.
    pub fn begin_sql_query(&mut self, sql: &str, line_number: usize) -> (res: Result<
        String,
        TesterError,
    >)
        requires
            old(self).wf(),
        ensures
            final(self).wf(),
            settings_same(*old(self), *final(self)),
            modifiers_same(*old(self), *final(self)),
            begin_sql_effect(*old(self), *final(self), sql@, line_number as int, res),
    {
        self.set_current_query(String::from_str(sql), line_number);
        let expanded = match self.variable_context.expand(sql) {
            Ok(e) => {
                assert(crate::tester::variables::expand_spec(self.variable_context@, sql@, 0) == Ok::<Seq<char>, crate::tester::variables::VarFailure>(e@));
                e
            },
            Err(err) => {
                assert(crate::tester::variables::expand_spec(self.variable_context@, sql@, 0) == Err::<Seq<char>, crate::tester::variables::VarFailure>(err@));
                return Err(TesterError::Variable(err));
            },
        };
        if self.enable_query_log {
            let mut v = chars_of(expanded.as_str());
            v.push('\n');
            let out = to_string(&v);
            assert(out@ == expanded@ + seq!['\n']);
            match self.write_output(out.as_str()) {
                Ok(()) => {},
                Err(e) => {
                    self.clear_current_query();
                    return Err(e);
                },
            }
            if self.record {
                assert(self.output_buffer@ =~= old(self).output_buffer@ + expanded@ + seq!['\n']);
            }
        }
        Ok(expanded)
    }

    /// Ends a SQL query with what running it gave: rows are written (when
    /// results are logged), after sorting and replacement; an error is
    /// judged against the expected errors. The query being run is then
    /// forgotten, except when judging the error itself failed.
    pub fn finish_sql_query(&mut self, outcome: Result<Vec<Vec<String>>, DbError>) -> (res: Result<
        (),
        TesterError,
    >)
        requires
            old(self).wf(),
        ensures
            sql_finished(*old(self), *final(self), outcome, res),
            modifiers_same(*old(self), *final(self)),
    {
        match outcome {
            Ok(rows) => {
                if self.expected_errors.len() > 0 && self.check_err {
                    let mut v: Vec<char> = Vec::new();
                    push_str(&mut v, "Expected error(s) ");
                    let d = debug_strings(&self.expected_errors);
                    push_str(&mut v, d.as_str());
                    push_str(&mut v, ", but query succeeded");
                    self.clear_current_query();
                    return Err(TesterError::Message(to_string(&v)));
                }
                if self.enable_result_log {
                    let mut formatted = self.format_query_result_to_string(rows.as_slice());
                    let ghost t = formatted@;
                    assert(rows_text(self.pending_sorted_result, row_views(rows@), t));
                    self.apply_regex_replacements(&mut formatted);
                    let ghost before = *self;
                    let r = self.write_output(formatted.as_str());
                    self.clear_current_query();
                    assert(output_effect(before, *self, r, formatted@));
                    return r;
                }
                self.clear_current_query();
                Ok(())
            },
            Err(e) => {
                let handled = match self.handle_query_error(&e) {
                    Ok(h) => h,
                    Err(err) => {
                        return Err(err);
                    },
                };
                self.clear_current_query();
                if !handled {
                    return Err(TesterError::Database(e));
                }
                Ok(())
            },
        }
    }
}

/// What a shell command's outcome leads to: a failure with its message,
/// output to write, or nothing more.
pub enum ExecPlan {
    Fail(Seq<char>),
    Write(Seq<char>),
    Done,
}

/// The decision on a shell command that ran with exit code `code` and
/// printed `stdout`, given the expected errors and settings of `t`.
pub open spec fn exec_plan(t: Tester, cmd: Seq<char>, code: i32, stdout: Seq<char>) -> ExecPlan {
    let exp = crate::text::string_views(t.expected_errors@);
    let dec = crate::text::int_decimal(code as int);
    let after = if t.enable_result_log && stdout.len() > 0 {
        ExecPlan::Write(stdout)
    } else {
        ExecPlan::Done
    };
    if exp.len() > 0 {
        if code != 0 {
            if exp.contains(dec) {
                if t.enable_result_log {
                    ExecPlan::Write(
                        if exp.len() == 1 && exp[0] != "0"@ {
                            "ERROR: Command failed with exit code "@ + dec + seq!['\n']
                        } else {
                            "Got one of the listed errors\n"@
                        },
                    )
                } else {
                    ExecPlan::Done
                }
            } else if t.check_err {
                ExecPlan::Fail(
                    "Expected error(s) "@ + spec_debug_strings(exp)
                        + ", but shell command failed with exit code: "@ + dec,
                )
            } else {
                after
            }
        } else if t.check_err {
            ExecPlan::Fail(
                "Expected error(s) "@ + spec_debug_strings(exp) + ", but shell command succeeded"@,
            )
        } else {
            after
        }
    } else if code != 0 {
        ExecPlan::Fail("Shell command '"@ + cmd + "' failed with exit code: "@ + dec)
    } else {
        after
    }
}

/// The state is the same but for the output, the one-shot modifiers aside.
pub open spec fn kept(a: Tester, b: Tester) -> bool {
    b.wf() && settings_same(a, b) && query_same(a, b)
}

/// What ending a shell command with its outcome does, the one-shot
/// modifiers aside.
pub open spec fn exec_finished(
    a: Tester,
    b: Tester,
    command: Seq<char>,
    outcome: Result<(i32, String), String>,
    res: Result<(), TesterError>,
) -> bool {
    &&& kept(a, b)
    &&& match outcome {
        Ok(o) => match exec_plan(a, command, o.0, o.1@) {
            ExecPlan::Fail(m) => res is Err && res->Err_0@ == TesterErrorView::Message(m)
                && output_same(a, b),
            ExecPlan::Write(out) => output_effect(
                a,
                b,
                res,
                crate::tester::replace_regex::apply_rules(
                    out,
                    crate::tester::replace_regex::rule_views(a.pending_replace_regex@),
                ),
            ),
            ExecPlan::Done => res is Ok && output_same(a, b),
        },
        Err(e) => res is Err && res->Err_0@ == TesterErrorView::Message(
            "Failed to execute shell command '"@ + command + "': "@ + e@,
        ) && output_same(a, b),
    }
}

impl Tester {
    /// Ends a `--exec` command with what running `command` (variables
    /// expanded) gave: its exit code and output, or why it could not run.
    pub fn finish_exec(&mut self, command: &str, outcome: Result<(i32, String), String>) -> (res:
        Result<(), TesterError>)
        requires
            old(self).wf(),
        ensures
            exec_finished(*old(self), *final(self), command@, outcome, res),
            modifiers_same(*old(self), *final(self)),
    {
        let (code, stdout) = match outcome {
            Ok(o) => o,
            Err(e) => {
                let mut v: Vec<char> = Vec::new();
                push_str(&mut v, "Failed to execute shell command '");
                push_str(&mut v, command);
                push_str(&mut v, "': ");
                push_str(&mut v, e.as_str());
                return Err(TesterError::Message(to_string(&v)));
            },
        };
        let ghost exp = crate::text::string_views(self.expected_errors@);
        let mut dec: Vec<char> = Vec::new();
        crate::text::push_i64(&mut dec, code as i64);
        assert(dec@ == crate::text::int_decimal(code as int));
        if self.expected_errors.len() > 0 {
            if code != 0 {
                let mut found = false;
                let mut i: usize = 0;
                while i < self.expected_errors.len()
                    invariant
                        i <= self.expected_errors.len(),
                        exp == crate::text::string_views(self.expected_errors@),
                        found <==> exists|j: int| 0 <= j < i && exp[j] == dec@,
                    decreases self.expected_errors.len() - i,
                {
                    assert(exp[i as int] == self.expected_errors@[i as int]@);
                    if eq_vec(&chars_of(self.expected_errors[i].as_str()), &dec) {
                        found = true;
                    }
                    i += 1;
                }
                assert(found == exp.contains(dec@));
                if found {
                    if self.enable_result_log {
                        assert(exp[0] == self.expected_errors@[0]@);
                        let mut out = if self.expected_errors.len() == 1 && !eq_str(
                            &chars_of(self.expected_errors[0].as_str()),
                            "0",
                        ) {
                            let mut v: Vec<char> = Vec::new();
                            push_str(&mut v, "ERROR: Command failed with exit code ");
                            push_all(&mut v, &dec);
                            v.push('\n');
                            to_string(&v)
                        } else {
                            String::from_str("Got one of the listed errors\n")
                        };
                        assert(out@ == (if exp.len() == 1 && exp[0] != "0"@ {
                            "ERROR: Command failed with exit code "@ + dec@ + seq!['\n']
                        } else {
                            "Got one of the listed errors\n"@
                        }));
                        self.apply_regex_replacements(&mut out);
                        return self.write_output(out.as_str());
                    }
                    return Ok(());
                } else if self.check_err {
                    let mut v: Vec<char> = Vec::new();
                    push_str(&mut v, "Expected error(s) ");
                    let d = debug_strings(&self.expected_errors);
                    push_str(&mut v, d.as_str());
                    push_str(&mut v, ", but shell command failed with exit code: ");
                    push_all(&mut v, &dec);
                    return Err(TesterError::Message(to_string(&v)));
                }
            } else if self.check_err {
                let mut v: Vec<char> = Vec::new();
                push_str(&mut v, "Expected error(s) ");
                let d = debug_strings(&self.expected_errors);
                push_str(&mut v, d.as_str());
                push_str(&mut v, ", but shell command succeeded");
                return Err(TesterError::Message(to_string(&v)));
            }
        } else if code != 0 {
            let mut v: Vec<char> = Vec::new();
            push_str(&mut v, "Shell command '");
            push_str(&mut v, command);
            push_str(&mut v, "' failed with exit code: ");
            push_all(&mut v, &dec);
            return Err(TesterError::Message(to_string(&v)));
        }
        if self.enable_result_log && chars_of(stdout.as_str()).len() > 0 {
            let mut out = stdout;
            self.apply_regex_replacements(&mut out);
            return self.write_output(out.as_str());
        }
        Ok(())
    }
}

/// What the caller is to do for a query the engine cannot finish alone.
#[derive(Debug, Clone)]
pub enum QueryAction {
    /// Nothing more.
    Done,
    /// Run this SQL, then call `finish_query` with what it gave.
    RunSql(String),
    /// Run this shell command, then call `complete_exec` with what it gave.
    RunExec(String),
    /// Sleep as the argument says, then call `finish_command`.
    Sleep(String),
    /// Open a connection with these parameters, then call `finish_command`.
    Connect(String),
    /// Make the named connection current, then call `finish_command`.
    SwitchConnection(String),
    /// Close the named connection, then call `finish_command`.
    Disconnect(String),
    /// Evaluate and assign the value of this `let`, then call `finish_command`.
    Let(crate::tester::variables::LetStatement),
}

pub enum QueryActionView {
    Done,
    RunSql(Seq<char>),
    RunExec(Seq<char>),
    Sleep(Seq<char>),
    Connect(Seq<char>),
    SwitchConnection(Seq<char>),
    Disconnect(Seq<char>),
    Let((Seq<char>, Seq<char>, bool)),
}

impl View for QueryAction {
    type V = QueryActionView;

    open spec fn view(&self) -> QueryActionView {
        match self {
            QueryAction::Done => QueryActionView::Done,
            QueryAction::RunSql(s) => QueryActionView::RunSql(s@),
            QueryAction::RunExec(s) => QueryActionView::RunExec(s@),
            QueryAction::Sleep(s) => QueryActionView::Sleep(s@),
            QueryAction::Connect(s) => QueryActionView::Connect(s@),
            QueryAction::SwitchConnection(s) => QueryActionView::SwitchConnection(s@),
            QueryAction::Disconnect(s) => QueryActionView::Disconnect(s@),
            QueryAction::Let(l) => QueryActionView::Let((l.name@, l.value@, l.is_env)),
        }
    }
}

/// The one-shot modifiers bound to a query take effect: its expected
/// errors, rules and sorting replace (or set) the pending ones.
pub open spec fn options_applied(a: Tester, b: Tester, q: Query) -> bool {
    &&& b.wf()
    &&& settings_same(a, b)
    &&& output_same(a, b)
    &&& query_same(a, b)
    &&& b.expected_errors@ == (if q.options.expected_errors@.len() > 0 {
        q.options.expected_errors@
    } else {
        a.expected_errors@
    })
    &&& crate::tester::replace_regex::rule_views(b.pending_replace_regex@) == (if q.options.replace_regex@.len() > 0 {
        crate::tester::replace_regex::rule_views(q.options.replace_regex@)
    } else {
        crate::tester::replace_regex::rule_views(a.pending_replace_regex@)
    })
    &&& b.pending_sorted_result == (a.pending_sorted_result || q.options.sorted_result)
}

/// A command that ignores `--error`: the expected errors are dropped once
/// it succeeded.
pub open spec fn errors_dropped(a: Tester, b: Tester) -> bool {
    b.expected_errors@.len() == 0 && b.pending_sorted_result == a.pending_sorted_result
        && b.pending_replace_regex@ == a.pending_replace_regex@
}

/// An action that expands variables in `text` first.
pub open spec fn expanded_action(
    a: Tester,
    b: Tester,
    text: Seq<char>,
    res: Result<QueryAction, TesterError>,
    make: spec_fn(Seq<char>) -> QueryActionView,
) -> bool {
    &&& unchanged(a, b)
    &&& match crate::tester::variables::expand_spec(a.variable_context@, text, 0) {
        Ok(e) => res is Ok && res->Ok_0@ == make(e),
        Err(f) => res is Err && res->Err_0@ == TesterErrorView::Variable(f),
    }
}

/// A log switch: the flag is set, the expected errors dropped.
pub open spec fn log_switched(a: Tester, b: Tester, query_log: bool, on: bool) -> bool {
    &&& b.wf()
    &&& b.record == a.record && b.check_err == a.check_err
    &&& (if query_log {
        b.enable_query_log == on && b.enable_result_log == a.enable_result_log
    } else {
        b.enable_result_log == on && b.enable_query_log == a.enable_query_log
    })
    &&& b.variable_context@ == a.variable_context@ && b.flow_map() == a.flow_map()
        && b.expected_lines() == a.expected_lines()
    &&& output_same(a, b) && query_same(a, b) && errors_dropped(a, b)
}

/// What running a query (its options already applied) does.
pub open spec fn dispatched(a: Tester, b: Tester, q: Query, res: Result<QueryAction, TesterError>) -> bool {
    let text = q.query@;
    match q.query_type {
        QueryType::Query => {
            &&& b.wf() && settings_same(a, b) && modifiers_same(a, b)
            &&& match res {
                Ok(act) => act is RunSql && begin_sql_effect(a, b, text, q.line as int, Ok(act->RunSql_0)),
                Err(e) => begin_sql_effect(a, b, text, q.line as int, Err(e)),
            }
        },
        QueryType::Exec => expanded_action(a, b, text, res, |e: Seq<char>| QueryActionView::RunExec(e)),
        QueryType::Comment => res is Ok && res->Ok_0@ == QueryActionView::Done && unchanged(a, b),
        QueryType::Echo => {
            &&& b.wf() && settings_same(a, b) && query_same(a, b)
            &&& b.pending_sorted_result == a.pending_sorted_result
            &&& b.pending_replace_regex@ == a.pending_replace_regex@
            &&& match crate::tester::variables::expand_spec(a.variable_context@, text, 0) {
                Ok(e) => output_effect(a, b, unit_of_action(res), e + seq!['\n']) && (res is Ok ==> res->Ok_0@
                    == QueryActionView::Done && b.expected_errors@.len() == 0) && (res is Err
                    ==> b.expected_errors@ == a.expected_errors@),
                Err(f) => res is Err && res->Err_0@ == TesterErrorView::Variable(f) && output_same(a, b)
                    && b.expected_errors@ == a.expected_errors@,
            }
        },
        QueryType::Sleep => res is Ok && res->Ok_0@ == QueryActionView::Sleep(text) && unchanged(a, b),
        QueryType::Delimiter => {
            &&& res is Ok && res->Ok_0@ == QueryActionView::Done
            &&& b.wf() && settings_same(a, b) && output_same(a, b) && query_same(a, b)
            &&& errors_dropped(a, b)
        },
        QueryType::DisableQueryLog => res is Ok && res->Ok_0@ == QueryActionView::Done && log_switched(a, b, true, false),
        QueryType::EnableQueryLog => res is Ok && res->Ok_0@ == QueryActionView::Done && log_switched(a, b, true, true),
        QueryType::DisableResultLog => res is Ok && res->Ok_0@ == QueryActionView::Done && log_switched(a, b, false, false),
        QueryType::EnableResultLog => res is Ok && res->Ok_0@ == QueryActionView::Done && log_switched(a, b, false, true),
        QueryType::SortedResult => {
            &&& res is Ok && res->Ok_0@ == QueryActionView::Done
            &&& b.wf() && settings_same(a, b) && output_same(a, b) && query_same(a, b)
            &&& b.pending_sorted_result && b.expected_errors@ == a.expected_errors@
                && b.pending_replace_regex@ == a.pending_replace_regex@
        },
        QueryType::ReplaceRegex => {
            &&& b.wf() && settings_same(a, b) && output_same(a, b) && query_same(a, b)
            &&& b.pending_sorted_result == a.pending_sorted_result && b.expected_errors@ == a.expected_errors@
            &&& match crate::tester::replace_regex::replace_rule(text) {
                Ok(r) => res is Ok && res->Ok_0@ == QueryActionView::Done
                    && crate::tester::replace_regex::rule_views(b.pending_replace_regex@)
                    == crate::tester::replace_regex::rule_views(a.pending_replace_regex@).push(r),
                Err(e) => res is Err && res->Err_0@ == TesterErrorView::ReplaceRegex(e)
                    && b.pending_replace_regex@ == a.pending_replace_regex@,
            }
        },
        QueryType::Error => {
            &&& res is Ok && res->Ok_0@ == QueryActionView::Done
            &&& b.wf() && settings_same(a, b) && output_same(a, b) && query_same(a, b)
            &&& crate::text::string_views(b.expected_errors@) == crate::text::split_trimmed(text, ',')
            &&& b.pending_sorted_result == a.pending_sorted_result
                && b.pending_replace_regex@ == a.pending_replace_regex@
        },
        QueryType::Connect => expanded_action(a, b, text, res, |e: Seq<char>| QueryActionView::Connect(e)),
        QueryType::Connection => expanded_action(a, b, text, res, |e: Seq<char>| QueryActionView::SwitchConnection(trim(e))),
        QueryType::Disconnect => expanded_action(a, b, text, res, |e: Seq<char>| QueryActionView::Disconnect(trim(e))),
        QueryType::Let => {
            &&& unchanged(a, b)
            &&& match crate::tester::variables::parse_let_spec(a.variable_context@, text) {
                Ok(l) => res is Ok && res->Ok_0@ == QueryActionView::Let(l),
                Err(f) => res is Err && res->Err_0@ == TesterErrorView::Variable(f),
            }
        },
        _ => res is Ok && res->Ok_0@ == QueryActionView::Done && unchanged(a, b),
    }
}

pub open spec fn unit_of_action(r: Result<QueryAction, TesterError>) -> Result<(), TesterError> {
    match r {
        Ok(_) => Ok(()),
        Err(e) => Err(e),
    }
}

impl Tester {
    /// Makes the one-shot modifiers bound to a query the pending ones.
    pub fn apply_query_options(&mut self, query: &Query)
        requires
            old(self).wf(),
        ensures
            options_applied(*old(self), *final(self), *query),
    {
        if query.options.expected_errors.len() > 0 {
            self.expected_errors = crate::text::clone_strings(&query.options.expected_errors);
        }
        if query.options.replace_regex.len() > 0 {
            self.pending_replace_regex = crate::text::clone_string_pairs(&query.options.replace_regex);
        }
        if query.options.sorted_result {
            self.pending_sorted_result = true;
        }
    }

    fn expand_for(&self, text: &str) -> (res: Result<String, TesterError>)
        ensures
            match crate::tester::variables::expand_spec(self.variable_context@, text@, 0) {
                Ok(e) => res is Ok && res->Ok_0@ == e,
                Err(f) => res is Err && res->Err_0@ == TesterErrorView::Variable(f),
            },
    {
        let r = self.variable_context.expand(text);
        match r {
            Ok(e) => {
                assert(crate::tester::variables::expand_spec(self.variable_context@, text@, 0) == Ok::<Seq<char>, crate::tester::variables::VarFailure>(e@));
                Ok(e)
            },
            Err(err) => {
                assert(crate::tester::variables::expand_spec(self.variable_context@, text@, 0) == Err::<Seq<char>, crate::tester::variables::VarFailure>(err@));
                Err(TesterError::Variable(err))
            },
        }
    }

    /// Runs a query whose options are already applied, as far as the engine
    /// can; what is left for the caller is the returned action.
    pub fn dispatch_query(&mut self, query: &Query) -> (res: Result<QueryAction, TesterError>)
        requires
            old(self).wf(),
        ensures
            dispatched(*old(self), *final(self), *query, res),
    {
        let text = query.query.as_str();
        match query.query_type {
            QueryType::Query => {
                match self.begin_sql_query(text, query.line) {
                    Ok(e) => Ok(QueryAction::RunSql(e)),
                    Err(e) => Err(e),
                }
            },
            QueryType::Exec => {
                match self.expand_for(text) {
                    Ok(e) => Ok(QueryAction::RunExec(e)),
                    Err(e) => Err(e),
                }
            },
            QueryType::Comment => Ok(QueryAction::Done),
            QueryType::Echo => {
                match self.handle_echo(text) {
                    Ok(()) => {
                        self.expected_errors = Vec::new();
                        Ok(QueryAction::Done)
                    },
                    Err(e) => Err(e),
                }
            },
            QueryType::Sleep => Ok(QueryAction::Sleep(query.query.clone())),
            QueryType::Delimiter => {
                self.expected_errors = Vec::new();
                Ok(QueryAction::Done)
            },
            QueryType::DisableQueryLog => {
                self.enable_query_log = false;
                self.expected_errors = Vec::new();
                Ok(QueryAction::Done)
            },
            QueryType::EnableQueryLog => {
                self.enable_query_log = true;
                self.expected_errors = Vec::new();
                Ok(QueryAction::Done)
            },
            QueryType::DisableResultLog => {
                self.enable_result_log = false;
                self.expected_errors = Vec::new();
                Ok(QueryAction::Done)
            },
            QueryType::EnableResultLog => {
                self.enable_result_log = true;
                self.expected_errors = Vec::new();
                Ok(QueryAction::Done)
            },
            QueryType::SortedResult => {
                self.pending_sorted_result = true;
                Ok(QueryAction::Done)
            },
            QueryType::ReplaceRegex => {
                match self.parse_replace_regex(text) {
                    Ok(()) => Ok(QueryAction::Done),
                    Err(e) => Err(e),
                }
            },
            QueryType::Error => {
                self.parse_expected_errors(text);
                Ok(QueryAction::Done)
            },
            QueryType::Connect => {
                match self.expand_for(text) {
                    Ok(e) => Ok(QueryAction::Connect(e)),
                    Err(e) => Err(e),
                }
            },
            QueryType::Connection => {
                match self.expand_for(text) {
                    Ok(e) => Ok(QueryAction::SwitchConnection(to_string(&trim_vec(&chars_of(e.as_str()))))),
                    Err(e) => Err(e),
                }
            },
            QueryType::Disconnect => {
                match self.expand_for(text) {
                    Ok(e) => Ok(QueryAction::Disconnect(to_string(&trim_vec(&chars_of(e.as_str()))))),
                    Err(e) => Err(e),
                }
            },
            QueryType::Let => {
                match self.variable_context.parse_let_statement(text) {
                    Ok(l) => Ok(QueryAction::Let(l)),
                    Err(e) => Err(TesterError::Variable(e)),
                }
            },
            _ => Ok(QueryAction::Done),
        }
    }
}

/// The one-shot modifiers are dropped.
pub open spec fn modifiers_cleared(b: Tester) -> bool {
    b.expected_errors@.len() == 0 && !b.pending_sorted_result && b.pending_replace_regex@.len() == 0
}

impl Tester {
    fn clear_modifiers(&mut self)
        requires
            old(self).wf(),
        ensures
            kept(*old(self), *final(self)),
            output_same(*old(self), *final(self)),
            modifiers_cleared(*final(self)),
    {
        self.expected_errors = Vec::new();
        self.pending_sorted_result = false;
        self.pending_replace_regex = Vec::new();
    }

    /// Runs a query as far as the engine can: its one-shot modifiers take
    /// effect, then it is dispatched.
    pub fn execute_query(&mut self, query: &Query) -> (res: Result<QueryAction, TesterError>)
        requires
            old(self).wf(),
        ensures
            exists|m: Tester|
                #[trigger] options_applied(*old(self), m, *query) && dispatched(
                    m,
                    *final(self),
                    *query,
                    res,
                ),
    {
        self.apply_query_options(query);
        let ghost m = *self;
        let r = self.dispatch_query(query);
        assert(options_applied(*old(self), m, *query) && dispatched(m, *self, *query, r));
        r
    }

    /// Ends a query's SQL with what running it gave; once it succeeded the
    /// one-shot modifiers are dropped.
    pub fn finish_query(&mut self, outcome: Result<Vec<Vec<String>>, DbError>) -> (res: Result<
        (),
        TesterError,
    >)
        requires
            old(self).wf(),
        ensures
            exists|m: Tester|
                #[trigger] sql_finished(*old(self), m, outcome, res) && (res is Ok ==> modifiers_cleared(
                    *final(self),
                ) && kept(m, *final(self)) && output_same(m, *final(self))) && (res is Err
                    ==> *final(self) == m && modifiers_same(*old(self), *final(self))),
    {
        let ghost oc = outcome;
        let r = self.finish_sql_query(outcome);
        let ghost m = *self;
        if r.is_ok() {
            self.clear_modifiers();
        }
        assert(sql_finished(*old(self), m, oc, r));
        r
    }

    /// Ends a `--exec` command with what running it gave; once it succeeded
    /// the one-shot modifiers are dropped.
    pub fn complete_exec(&mut self, command: &str, outcome: Result<(i32, String), String>) -> (res:
        Result<(), TesterError>)
        requires
            old(self).wf(),
        ensures
            exists|m: Tester|
                #[trigger] exec_finished(*old(self), m, command@, outcome, res) && (res is Ok
                    ==> modifiers_cleared(*final(self)) && kept(m, *final(self)) && output_same(
                    m,
                    *final(self),
                )) && (res is Err ==> *final(self) == m && modifiers_same(*old(self), *final(self))),
    {
        let ghost oc = outcome;
        let r = self.finish_exec(command, outcome);
        let ghost m = *self;
        if r.is_ok() {
            self.clear_modifiers();
        }
        assert(exec_finished(*old(self), m, command@, oc, r));
        r
    }

    /// Ends a command that ignores `--error` (sleep, connections, `let`)
    /// once it succeeded: the expected errors are dropped.
    pub fn finish_command(&mut self)
        requires
            old(self).wf(),
        ensures
            kept(*old(self), *final(self)),
            output_same(*old(self), *final(self)),
            errors_dropped(*old(self), *final(self)),
    {
        self.expected_errors = Vec::new();
    }
}

impl Tester {
    /// Assigns a `let` whose value has its SQL expressions resolved: the
    /// value is evaluated when it can be (else kept as it is) and stored.
    /// For an environment variable, the (name, value) to set in the
    /// environment is returned.
    pub fn assign_let(&mut self, stmt: &crate::tester::variables::LetStatement, resolved_value: &str) -> (res:
        Option<(String, String)>)
        requires
            old(self).wf(),
        ensures
            final(self).wf(),
            final(self).variable_context@ == old(self).variable_context@.insert(
                stmt.name@,
                crate::tester::expression::let_value(resolved_value@),
            ),
            match res {
                Some(p) => stmt.is_env && p.0@ == stmt.name@ && p.1@
                    == crate::tester::expression::let_value(resolved_value@),
                None => !stmt.is_env,
            },
            final(self).record == old(self).record,
            final(self).check_err == old(self).check_err,
            final(self).enable_query_log == old(self).enable_query_log,
            final(self).enable_result_log == old(self).enable_result_log,
            final(self).flow_map() == old(self).flow_map(),
            final(self).expected_lines() == old(self).expected_lines(),
            query_same(*old(self), *final(self)),
            output_same(*old(self), *final(self)),
            modifiers_same(*old(self), *final(self)),
    {
        let value = crate::tester::variables::LetHandler::evaluate_value_optimistically(resolved_value);
        self.variable_context.set(stmt.name.as_str(), value.as_str());
        if stmt.is_env {
            Some((stmt.name.clone(), value))
        } else {
            None
        }
    }
}

/// The next step of a test, as the engine decides it.
#[derive(Debug, Clone)]
pub enum Step {
    /// Go on with the query at this index.
    Next(usize),
    /// Perform the action, then go on with the next query.
    Run(QueryAction),
    /// Evaluate the condition of the `if` at the current index, then call `finish_if`.
    IfCondition(String),
    /// Evaluate the condition of the `while` at the current index, then call `finish_while`.
    WhileCondition(String),
    /// Evaluate the loop condition again, then call `finish_end`.
    EndCondition(String),
    /// Run these queries concurrently, then call `finish_concurrent`.
    RunConcurrent(Vec<Query>),
}

impl Tester {
    /// Index of the query that closes or opens the block at `pc`.
    pub fn partner(&self, pc: usize) -> (res: Option<usize>)
        ensures
            match res {
                Some(e) => self.flow_map().contains_key(pc as int) && self.flow_map()[pc as int] == e,
                None => !self.flow_map().contains_key(pc as int),
            },
    {
        match self.control_flow_map.get(&pc) {
            Some(e) => Some(*e),
            None => None,
        }
    }

    /// Ends an `if` at `pc` whose condition evaluated to `value`: go on into
    /// the block, or past its `end`.
    pub fn finish_if(&self, pc: usize, value: bool) -> (res: Result<usize, TesterError>)
        requires
            pc < usize::MAX,
        ensures
            value ==> res == Ok::<usize, TesterError>((pc + 1) as usize),
            !value ==> match res {
                Ok(n) => self.flow_map().contains_key(pc as int) && n == self.flow_map()[pc as int] + 1,
                Err(e) => !self.flow_map().contains_key(pc as int) || self.flow_map()[pc as int] == usize::MAX,
            },
    {
        if value {
            return Ok(pc + 1);
        }
        match self.partner(pc) {
            Some(e) => {
                if e == usize::MAX {
                    return Err(TesterError::Message(String::from_str("Mismatched 'end' for 'if'")));
                }
                Ok(e + 1)
            },
            None => {
                let mut v: Vec<char> = Vec::new();
                push_str(&mut v, "Mismatched 'end' for 'if' at line ");
                push_decimal(&mut v, pc as u64);
                Err(TesterError::Message(to_string(&v)))
            },
        }
    }
}

/// The loop being run, innermost, as (start, end, condition, iterations).
pub open spec fn top_frame(t: Tester) -> Option<(int, int, Seq<char>, int)> {
    if t.while_stack@.len() == 0 {
        None
    } else {
        let f = t.while_stack@.last();
        Some((f.start_index as int, f.end_index as int, f.condition@, f.iteration_count as int))
    }
}

pub open spec fn frames_view(v: Seq<WhileFrame>) -> Seq<(int, int, Seq<char>, int)> {
    v.map_values(|f: WhileFrame| (f.start_index as int, f.end_index as int, f.condition@, f.iteration_count as int))
}

/// All but the loops are the same.
pub open spec fn same_but_loops(a: Tester, b: Tester) -> bool {
    b.wf() && settings_same(a, b) && modifiers_same(a, b) && output_same(a, b) && query_same(a, b)
        && b.in_concurrent_block == a.in_concurrent_block && b.concurrent_queries@ == a.concurrent_queries@
}

impl Tester {
    /// Ends a `while` at `pc` whose condition evaluated to `value`: enter
    /// the loop (it becomes the innermost one) or go past its `end`.
    pub fn finish_while(&mut self, pc: usize, condition: &str, value: bool) -> (res: Result<usize, TesterError>)
        requires
            old(self).wf(),
            pc < usize::MAX,
        ensures
            same_but_loops(*old(self), *final(self)),
            match res {
                Ok(n) => old(self).flow_map().contains_key(pc as int) && if value {
                    n == pc + 1 && frames_view(final(self).while_stack@) == frames_view(old(self).while_stack@).push(
                        (pc as int, old(self).flow_map()[pc as int], condition@, 0),
                    )
                } else {
                    n == old(self).flow_map()[pc as int] + 1 && final(self).while_stack@ == old(self).while_stack@
                },
                Err(_) => (!old(self).flow_map().contains_key(pc as int) || (!value && old(self).flow_map()[pc as int] == usize::MAX))
                    && final(self).while_stack@ == old(self).while_stack@,
            },
    {
        let end = match self.partner(pc) {
            Some(e) => e,
            None => {
                let mut v: Vec<char> = Vec::new();
                push_str(&mut v, "Mismatched 'end' for 'while' at line ");
                push_decimal(&mut v, pc as u64);
                return Err(TesterError::Message(to_string(&v)));
            },
        };
        if value {
            let ghost before = self.while_stack@;
            self.while_stack.push(
                WhileFrame {
                    start_index: pc,
                    end_index: end,
                    condition: String::from_str(condition),
                    iteration_count: 0,
                },
            );
            assert(frames_view(self.while_stack@) =~= frames_view(before).push(
                (pc as int, end as int, condition@, 0),
            ));
            Ok(pc + 1)
        } else {
            if end == usize::MAX {
                return Err(TesterError::Message(String::from_str("Mismatched 'end' for 'while'")));
            }
            Ok(end + 1)
        }
    }

    /// At an `end` at `pc`: when it closes the innermost running loop, the
    /// loop counts one more run (failing past the limit) and its condition
    /// is to be evaluated again; an `end` of an `if` just goes on.
    pub fn begin_end(&mut self, pc: usize) -> (res: Result<Step, TesterError>)
        requires
            old(self).wf(),
            pc < usize::MAX,
        ensures
            same_but_loops(*old(self), *final(self)),
            match top_frame(*old(self)) {
                Some(f) => if f.1 == pc {
                    if f.3 + 1 >= MAX_LOOP_ITERATIONS {
                        res is Err && res->Err_0@ == TesterErrorView::Message(
                            "Infinite loop detected at line "@ + decimal((f.0 + 1) as nat),
                        )
                    } else {
                        res is Ok && res->Ok_0 is EndCondition && res->Ok_0->EndCondition_0@ == f.2
                            && frames_view(final(self).while_stack@) == frames_view(old(self).while_stack@).drop_last().push(
                            (f.0, f.1, f.2, f.3 + 1),
                        )
                    }
                } else {
                    res is Ok && res->Ok_0 == Step::Next((pc + 1) as usize) && final(self).while_stack@ == old(self).while_stack@
                },
                None => res is Ok && res->Ok_0 == Step::Next((pc + 1) as usize) && final(self).while_stack@ == old(self).while_stack@,
            },
    {
        let n = self.while_stack.len();
        if n > 0 && self.while_stack[n - 1].end_index == pc {
            let count = self.while_stack[n - 1].iteration_count;
            if count >= MAX_LOOP_ITERATIONS - 1 {
                let start = self.while_stack[n - 1].start_index;
                assert(self.while_stack@[n - 1].start_index < usize::MAX);
                let mut v: Vec<char> = Vec::new();
                push_str(&mut v, "Infinite loop detected at line ");
                push_decimal(&mut v, (start + 1) as u64);
                return Err(TesterError::Message(to_string(&v)));
            }
            let ghost before = self.while_stack@;
            let mut frame = self.while_stack.pop().unwrap();
            frame.iteration_count = count + 1;
            let cond = frame.condition.clone();
            self.while_stack.push(frame);
            assert(frames_view(self.while_stack@) =~= frames_view(before).drop_last().push(
                (before.last().start_index as int, before.last().end_index as int, before.last().condition@, count + 1),
            ));
            return Ok(Step::EndCondition(cond));
        }
        Ok(Step::Next(pc + 1))
    }

    /// Ends an `end` at `pc` whose loop condition evaluated to `value`: run
    /// the loop again from its `while`, or leave it.
    pub fn finish_end(&mut self, pc: usize, value: bool) -> (res: usize)
        requires
            old(self).wf(),
            pc < usize::MAX,
            old(self).while_stack@.len() > 0,
        ensures
            same_but_loops(*old(self), *final(self)),
            value ==> res == old(self).while_stack@.last().start_index && final(self).while_stack@ == old(self).while_stack@,
            !value ==> res == pc + 1 && final(self).while_stack@ == old(self).while_stack@.drop_last(),
    {
        let n = self.while_stack.len();
        if value {
            return self.while_stack[n - 1].start_index;
        }
        let _ = self.while_stack.pop();
        pc + 1
    }
}

/// Texts in order.
pub open spec fn strs_sorted(v: Seq<Seq<char>>) -> bool {
    forall|i: int, j: int| 0 <= i < j < v.len() ==> str_le(#[trigger] v[i], #[trigger] v[j])
}

proof fn lemma_str_le_refl(a: Seq<char>)
    ensures
        str_le(a, a),
    decreases a.len(),
{
    if a.len() > 0 {
        lemma_str_le_refl(a.drop_first());
    }
}

/// The texts in order (equal texts keep their relative order).
fn sort_strs(v: Vec<Vec<char>>) -> (res: Vec<Vec<char>>)
    ensures
        strs_sorted(views(res@)),
        views(res@).to_multiset() == views(v@).to_multiset(),
{
    let ghost vv = views(v@);
    let mut out: Vec<Vec<char>> = Vec::new();
    let mut k: usize = 0;
    assert(views(out@) =~= vv.take(0));
    while k < v.len()
        invariant
            k <= v.len(),
            vv == views(v@),
            strs_sorted(views(out@)),
            views(out@).to_multiset() == vv.take(k as int).to_multiset(),
        decreases v.len() - k,
    {
        let ghost ov = views(out@);
        let x = crate::text::subvec(&v[k], 0, v[k].len());
        assert(x@ =~= vv[k as int]);
        let mut p: usize = 0;
        while p < out.len() && str_le_vec(&out[p], &x)
            invariant
                p <= out.len(),
                ov == views(out@),
                forall|m: int| 0 <= m < p ==> str_le(#[trigger] ov[m], x@),
            decreases out.len() - p,
        {
            p += 1;
        }
        proof {
            if p < out.len() {
                lemma_str_le_total(ov[p as int], x@);
            }
        }
        let ghost xv = x@;
        out.insert(p, x);
        proof {
            let nv = views(out@);
            assert(nv =~= ov.insert(p as int, xv));
            assert forall|i: int, j: int| 0 <= i < j < nv.len() implies str_le(
                #[trigger] nv[i],
                #[trigger] nv[j],
            ) by {
                if j < p {
                    assert(nv[i] == ov[i] && nv[j] == ov[j]);
                } else if j == p {
                    assert(nv[i] == ov[i]);
                } else if i > p {
                    assert(nv[i] == ov[i - 1] && nv[j] == ov[j - 1]);
                } else if i == p {
                    assert(nv[j] == ov[j - 1]);
                    if j - 1 > p {
                        lemma_str_le_transitive(xv, ov[p as int], ov[j - 1]);
                    }
                } else {
                    assert(nv[i] == ov[i] && nv[j] == ov[j - 1]);
                    assert(str_le(ov[i], xv));
                    assert(str_le(xv, ov[j - 1])) by {
                        if j - 1 > p {
                            lemma_str_le_transitive(xv, ov[p as int], ov[j - 1]);
                        }
                    }
                    lemma_str_le_transitive(ov[i], xv, ov[j - 1]);
                }
            }
            vstd::seq_lib::to_multiset_insert(ov, p as int, xv);
            vstd::seq_lib::to_multiset_build(vv.take(k as int), xv);
            assert(vv.take(k + 1) =~= vv.take(k as int).push(xv));
        }
        k += 1;
    }
    assert(vv.take(v.len() as int) =~= vv);
    out
}

/// The rows' text as a concurrent query writes it: cells joined by tabs,
/// rows joined by newlines.
pub open spec fn rows_joined(rows: Seq<Seq<Seq<char>>>) -> Seq<char> {
    join(rows.map_values(|r: Seq<Seq<char>>| join(r, seq!['\t'])), seq!['\n'])
}

/// What a concurrent query's output is: its rows' text after its
/// replacement rules; with sorting, the lines of that text in order, joined
/// by newlines.
pub open spec fn concurrent_text(
    rows: Seq<Seq<Seq<char>>>,
    rules: Seq<(Seq<char>, Seq<char>)>,
    sorted: bool,
    text: Seq<char>,
) -> bool {
    let t = crate::tester::replace_regex::apply_rules(rows_joined(rows), rules);
    if sorted {
        exists|ls: Seq<Seq<char>>|
            strs_sorted(ls) && ls.to_multiset() == lines(t).to_multiset() && text == join(ls, seq!['\n'])
    } else {
        text == t
    }
}

/// The output of one concurrent query from its rows and options.
pub fn concurrent_query_output(rows: &Vec<Vec<String>>, options: &crate::tester::query::QueryOptions) -> (res: String)
    ensures
        concurrent_text(
            row_views(rows@),
            crate::tester::replace_regex::rule_views(options.replace_regex@),
            options.sorted_result,
            res@,
        ),
{
    let ghost rv = row_views(rows@);
    let tab = vec!['\t'];
    let nl = vec!['\n'];
    assert(tab@ =~= seq!['\t']);
    assert(nl@ =~= seq!['\n']);
    let mut row_lines: Vec<Vec<char>> = Vec::new();
    let mut i: usize = 0;
    while i < rows.len()
        invariant
            i <= rows.len(),
            rv == row_views(rows@),
            tab@ == seq!['\t'],
            views(row_lines@) == rv.take(i as int).map_values(|r: Seq<Seq<char>>| join(r, seq!['\t'])),
        decreases rows.len() - i,
    {
        let row = &rows[i];
        let mut cells: Vec<Vec<char>> = Vec::new();
        let mut c: usize = 0;
        while c < row.len()
            invariant
                c <= row.len(),
                views(cells@) == crate::text::string_views(row@).take(c as int),
            decreases row.len() - c,
        {
            let cell = chars_of(row[c].as_str());
            proof {
                crate::text::lemma_views_push(cells@, cell);
            }
            cells.push(cell);
            assert(crate::text::string_views(row@).take(c + 1) =~= crate::text::string_views(row@).take(c as int).push(row@[c as int]@));
            c += 1;
        }
        assert(crate::text::string_views(row@).take(row.len() as int) =~= crate::text::string_views(row@));
        let line = join_vecs(&cells, &tab);
        proof {
            crate::text::lemma_views_push(row_lines@, line);
        }
        row_lines.push(line);
        assert(rv[i as int] == crate::text::string_views(rows@[i as int]@));
        assert(rv.take(i + 1).map_values(|r: Seq<Seq<char>>| join(r, seq!['\t'])) =~= rv.take(i as int).map_values(|r: Seq<Seq<char>>| join(r, seq!['\t'])).push(join(rv[i as int], seq!['\t'])));
        i += 1;
    }
    assert(rv.take(rows.len() as int) =~= rv);
    let joined = join_vecs(&row_lines, &nl);
    let mut out = to_string(&joined);
    crate::tester::replace_regex::apply_replacements(&options.replace_regex, &mut out);
    if options.sorted_result {
        let ls = lines_of(&chars_of(out.as_str()));
        let sorted = sort_strs(ls);
        let text = join_vecs(&sorted, &nl);
        return to_string(&text);
    }
    out
}

/// What a concurrent query gave (its output, or its error) and the errors
/// it was expected to raise.
pub type ConcurrentOutcome = (Result<String, DbError>, Vec<String>);

/// The text written for one concurrent query.
pub open spec fn concurrent_part(o: ConcurrentOutcome, rules: Seq<(Seq<char>, Seq<char>)>) -> Seq<char> {
    let exp = crate::text::string_views(o.1@);
    match o.0 {
        Ok(out) => if exp.len() > 0 {
            "UNEXPECTED_SUCCESS: "@ + unexpected_success_message(exp)
        } else {
            crate::tester::replace_regex::apply_rules(out@, rules)
        },
        Err(e) => if exp.len() > 0 && (exists|i: int|
            0 <= i < exp.len() && crate::tester::error_handler::accepts(#[trigger] exp[i], code_of(e))) {
            crate::tester::error_handler::format_db_error(e)
        } else if exp.len() == 0 {
            "UNEXPECTED_ERROR: "@ + crate::tester::error_handler::format_db_error(e)
        } else {
            "WRONG_ERROR: Expected "@ + spec_debug_strings(exp) + ", got "@
                + crate::tester::error_handler::format_db_error(e)
        },
    }
}

/// The text written for a concurrent block: the parts joined by newlines,
/// ending with a newline unless empty.
pub open spec fn concurrent_output(results: Seq<ConcurrentOutcome>, rules: Seq<(Seq<char>, Seq<char>)>) -> Seq<char> {
    let j = join(results.map_values(|o: ConcurrentOutcome| concurrent_part(o, rules)), seq!['\n']);
    if j.len() > 0 && j.last() != '\n' {
        j.push('\n')
    } else {
        j
    }
}

impl Tester {
    fn concurrent_part(&self, o: &ConcurrentOutcome) -> (res: Vec<char>)
        requires
            self.wf(),
        ensures
            res@ == concurrent_part(*o, crate::tester::replace_regex::rule_views(self.pending_replace_regex@)),
    {
        let ghost exp = crate::text::string_views(o.1@);
        let mut v: Vec<char> = Vec::new();
        match &o.0 {
            Ok(out) => {
                if o.1.len() > 0 {
                    push_str(&mut v, "UNEXPECTED_SUCCESS: ");
                    push_str(&mut v, "Expected error(s) ");
                    let d = debug_strings(&o.1);
                    push_str(&mut v, d.as_str());
                    push_str(&mut v, ", but query succeeded");
                    assert(v@ =~= "UNEXPECTED_SUCCESS: "@ + unexpected_success_message(exp));
                } else {
                    let mut t = out.clone();
                    self.apply_regex_replacements(&mut t);
                    push_str(&mut v, t.as_str());
                }
            },
            Err(e) => {
                let code = self.error_handler.get_error_code(e);
                let matched = o.1.len() > 0 && self.error_handler.check_expected_error(code, o.1.as_slice());
                proof {
                    assert forall|j: int| 0 <= j < exp.len() implies exp[j] == o.1@[j]@ by {}
                    if o.1@.len() > 0 {
                        if matched {
                            let j = choose|j: int| 0 <= j < o.1@.len() && crate::tester::error_handler::accepts(#[trigger] o.1@[j]@, code);
                            assert(exp[j] == o.1@[j]@);
                        }
                        if exists|i: int| 0 <= i < exp.len() && crate::tester::error_handler::accepts(#[trigger] exp[i], code_of(*e)) {
                            let j = choose|i: int| 0 <= i < exp.len() && crate::tester::error_handler::accepts(#[trigger] exp[i], code_of(*e));
                            assert(exp[j] == o.1@[j]@);
                        }
                    }
                }
                let f = self.error_handler.format_error(e);
                if matched {
                    push_str(&mut v, f.as_str());
                } else if o.1.len() == 0 {
                    push_str(&mut v, "UNEXPECTED_ERROR: ");
                    push_str(&mut v, f.as_str());
                } else {
                    push_str(&mut v, "WRONG_ERROR: Expected ");
                    let d = debug_strings(&o.1);
                    push_str(&mut v, d.as_str());
                    push_str(&mut v, ", got ");
                    push_str(&mut v, f.as_str());
                }
            },
        }
        v
    }

    /// Ends a concurrent block with what its queries gave, in their order:
    /// their parts are written (or compared) as one output; then the block
    /// and the pending rules and sorting are dropped.
    pub fn finish_concurrent(&mut self, results: &Vec<ConcurrentOutcome>) -> (res: Result<(), TesterError>)
        requires
            old(self).wf(),
        ensures
            final(self).wf(),
            settings_same(*old(self), *final(self)),
            query_same(*old(self), *final(self)),
            ({
                let out = concurrent_output(results@, crate::tester::replace_regex::rule_views(old(self).pending_replace_regex@));
                if out.len() == 0 {
                    res is Ok && output_same(*old(self), *final(self))
                } else {
                    output_effect(*old(self), *final(self), res, out)
                }
            }),
            res is Ok ==> !final(self).in_concurrent_block && final(self).concurrent_queries@.len() == 0
                && !final(self).pending_sorted_result && final(self).pending_replace_regex@.len() == 0
                && final(self).expected_errors@ == old(self).expected_errors@,
            res is Err ==> modifiers_same(*old(self), *final(self)),
    {
        let ghost rules = crate::tester::replace_regex::rule_views(self.pending_replace_regex@);
        let ghost parts = results@.map_values(|o: ConcurrentOutcome| concurrent_part(o, rules));
        let mut pieces: Vec<Vec<char>> = Vec::new();
        let mut i: usize = 0;
        while i < results.len()
            invariant
                i <= results.len(),
                self.wf(),
                rules == crate::tester::replace_regex::rule_views(self.pending_replace_regex@),
                parts == results@.map_values(|o: ConcurrentOutcome| concurrent_part(o, rules)),
                views(pieces@) == parts.take(i as int),
            decreases results.len() - i,
        {
            let p = self.concurrent_part(&results[i]);
            proof {
                crate::text::lemma_views_push(pieces@, p);
            }
            pieces.push(p);
            assert(parts.take(i + 1) =~= parts.take(i as int).push(parts[i as int]));
            i += 1;
        }
        assert(parts.take(results.len() as int) =~= parts);
        let nl = vec!['\n'];
        assert(nl@ =~= seq!['\n']);
        let mut combined = join_vecs(&pieces, &nl);
        if combined.len() > 0 && combined[combined.len() - 1] != '\n' {
            combined.push('\n');
        }
        if combined.len() > 0 {
            let text = to_string(&combined);
            match self.write_output(text.as_str()) {
                Ok(()) => {},
                Err(e) => {
                    return Err(e);
                },
            }
        }
        self.in_concurrent_block = false;
        self.concurrent_queries = Vec::new();
        self.pending_replace_regex = Vec::new();
        self.pending_sorted_result = false;
        Ok(())
    }
}

/// The query as it is queued in a concurrent block: SQL expanded, and the
/// pending one-shot modifiers bound to it.
pub open spec fn queued_query(a: Tester, q: Query, expanded: Seq<char>, c: Query) -> bool {
    &&& c.query_type == q.query_type && c.line == q.line && c.query@ == expanded
    &&& c.options.expected_errors@ == (if a.expected_errors@.len() > 0 {
        a.expected_errors@
    } else {
        q.options.expected_errors@
    })
    &&& c.options.replace_regex@ == (if a.pending_replace_regex@.len() > 0 {
        a.pending_replace_regex@
    } else {
        q.options.replace_regex@
    })
    &&& c.options.sorted_result == (q.options.sorted_result || a.pending_sorted_result)
}

impl Tester {
    /// Queues a SQL query of a concurrent block; the pending one-shot
    /// modifiers move into its options.
    pub fn add_concurrent_query(&mut self, query: &Query) -> (res: Result<(), TesterError>)
        requires
            old(self).wf(),
        ensures
            final(self).wf(),
            settings_same(*old(self), *final(self)),
            output_same(*old(self), *final(self)),
            query_same(*old(self), *final(self)),
            final(self).in_concurrent_block == old(self).in_concurrent_block,
            match crate::tester::variables::expand_spec(old(self).variable_context@, query.query@, 0) {
                Ok(e) => res is Ok && final(self).concurrent_queries@.len() == old(self).concurrent_queries@.len() + 1
                    && final(self).concurrent_queries@.drop_last() == old(self).concurrent_queries@
                    && queued_query(*old(self), *query, e, final(self).concurrent_queries@.last())
                    && modifiers_cleared(*final(self)),
                Err(f) => res is Err && res->Err_0@ == TesterErrorView::Variable(f)
                    && final(self).concurrent_queries@ == old(self).concurrent_queries@
                    && modifiers_same(*old(self), *final(self)),
            },
    {
        let expanded = match self.expand_for(query.query.as_str()) {
            Ok(e) => e,
            Err(e) => {
                return Err(e);
            },
        };
        let mut options = crate::tester::query::QueryOptions {
            expected_errors: crate::text::clone_strings(&query.options.expected_errors),
            replace_regex: crate::text::clone_string_pairs(&query.options.replace_regex),
            sorted_result: query.options.sorted_result,
        };
        if self.expected_errors.len() > 0 {
            options.expected_errors = crate::text::clone_strings(&self.expected_errors);
            self.expected_errors = Vec::new();
        }
        if self.pending_replace_regex.len() > 0 {
            options.replace_regex = crate::text::clone_string_pairs(&self.pending_replace_regex);
            self.pending_replace_regex = Vec::new();
        }
        if self.pending_sorted_result {
            options.sorted_result = true;
            self.pending_sorted_result = false;
        }
        let c = Query { query_type: query.query_type, query: expanded, line: query.line, options };
        self.concurrent_queries.push(c);
        Ok(())
    }

    /// Decides what to do with the query at `pc`: blocks and concurrency are
    /// handled here, everything else goes through `execute_query`.
    pub fn control_step(&mut self, query: &Query, pc: usize) -> (res: Result<Step, TesterError>)
        requires
            old(self).wf(),
            pc < usize::MAX,
        ensures
            final(self).wf(),
            query.query_type == QueryType::BeginConcurrent ==> res == Ok::<Step, TesterError>(Step::Next((pc + 1) as usize))
                && final(self).in_concurrent_block && final(self).concurrent_queries@.len() == 0
                && unchanged_but_block(*old(self), *final(self)),
            query.query_type == QueryType::EndConcurrent ==> if !old(self).in_concurrent_block {
                res is Err && res->Err_0@ == TesterErrorView::Message(
                    "--end_concurrent without --begin_concurrent at line "@ + decimal(query.line as nat),
                ) && unchanged(*old(self), *final(self))
            } else if old(self).concurrent_queries@.len() == 0 {
                res == Ok::<Step, TesterError>(Step::Next((pc + 1) as usize)) && !final(self).in_concurrent_block
                    && unchanged_but_block(*old(self), *final(self))
            } else {
                res is Ok && res->Ok_0 is RunConcurrent && res->Ok_0->RunConcurrent_0@ == old(self).concurrent_queries@
                    && !final(self).in_concurrent_block && unchanged_but_block(*old(self), *final(self))
                    && final(self).concurrent_queries@.len() == 0
            },
            query.query_type != QueryType::BeginConcurrent && query.query_type != QueryType::EndConcurrent
                && !old(self).in_concurrent_block ==> match query.query_type {
                QueryType::If => res is Ok && res->Ok_0 is IfCondition && res->Ok_0->IfCondition_0@ == query.query@
                    && unchanged(*old(self), *final(self)),
                QueryType::While => unchanged(*old(self), *final(self)) && if old(self).flow_map().contains_key(pc as int) {
                    res is Ok && res->Ok_0 is WhileCondition && res->Ok_0->WhileCondition_0@ == query.query@
                } else {
                    res is Err
                },
                QueryType::End => same_but_loops(*old(self), *final(self)),
                _ => (exists|m: Tester| #[trigger] options_applied(*old(self), m, *query) && dispatched(m, *final(self), *query, match res {
                    Ok(Step::Run(a)) => Ok::<QueryAction, TesterError>(a),
                    Ok(_) => Err::<QueryAction, TesterError>(TesterError::NoResultFile),
                    Err(e) => Err::<QueryAction, TesterError>(e),
                })) && (res is Ok ==> res->Ok_0 is Run),
            },
            query.query_type != QueryType::BeginConcurrent && query.query_type != QueryType::EndConcurrent
                && old(self).in_concurrent_block ==> match query.query_type {
                QueryType::Query => match crate::tester::variables::expand_spec(
                    old(self).variable_context@,
                    query.query@,
                    0,
                ) {
                    Ok(e) => res == Ok::<Step, TesterError>(Step::Next((pc + 1) as usize))
                        && final(self).in_concurrent_block
                        && final(self).concurrent_queries@.len() == old(self).concurrent_queries@.len() + 1
                        && final(self).concurrent_queries@.drop_last() == old(self).concurrent_queries@
                        && queued_query(*old(self), *query, e, final(self).concurrent_queries@.last())
                        && modifiers_cleared(*final(self)) && settings_same(*old(self), *final(self))
                        && output_same(*old(self), *final(self)) && query_same(*old(self), *final(self)),
                    Err(f) => res is Err && res->Err_0@ == TesterErrorView::Variable(f)
                        && final(self).in_concurrent_block
                        && final(self).concurrent_queries@ == old(self).concurrent_queries@
                        && unchanged(*old(self), *final(self)),
                },
                QueryType::Error => res == Ok::<Step, TesterError>(Step::Next((pc + 1) as usize))
                    && crate::text::string_views(final(self).expected_errors@)
                    == crate::text::split_trimmed(query.query@, ',')
                    && final(self).in_concurrent_block
                    && final(self).concurrent_queries@ == old(self).concurrent_queries@
                    && settings_same(*old(self), *final(self)) && output_same(*old(self), *final(self))
                    && query_same(*old(self), *final(self))
                    && final(self).pending_sorted_result == old(self).pending_sorted_result
                    && final(self).pending_replace_regex@ == old(self).pending_replace_regex@,
                _ => (exists|m: Tester| #[trigger] options_applied(*old(self), m, *query) && dispatched(m, *final(self), *query, match res {
                    Ok(Step::Run(a)) => Ok::<QueryAction, TesterError>(a),
                    Ok(_) => Err::<QueryAction, TesterError>(TesterError::NoResultFile),
                    Err(e) => Err::<QueryAction, TesterError>(e),
                })) && (res is Ok ==> res->Ok_0 is Run),
            },
    {
        if query.query_type == QueryType::BeginConcurrent {
            self.in_concurrent_block = true;
            self.concurrent_queries = Vec::new();
            return Ok(Step::Next(pc + 1));
        }
        if query.query_type == QueryType::EndConcurrent {
            if !self.in_concurrent_block {
                let mut v: Vec<char> = Vec::new();
                push_str(&mut v, "--end_concurrent without --begin_concurrent at line ");
                push_decimal(&mut v, query.line as u64);
                return Err(TesterError::Message(to_string(&v)));
            }
            self.in_concurrent_block = false;
            if self.concurrent_queries.len() == 0 {
                return Ok(Step::Next(pc + 1));
            }
            let mut queued: Vec<Query> = Vec::new();
            std::mem::swap(&mut queued, &mut self.concurrent_queries);
            return Ok(Step::RunConcurrent(queued));
        }
        if self.in_concurrent_block {
            if query.query_type == QueryType::Query {
                return match self.add_concurrent_query(query) {
                    Ok(()) => Ok(Step::Next(pc + 1)),
                    Err(e) => Err(e),
                };
            }
            if query.query_type == QueryType::Error {
                self.parse_expected_errors(query.query.as_str());
                return Ok(Step::Next(pc + 1));
            }
            return match self.execute_query(query) {
                Ok(a) => Ok(Step::Run(a)),
                Err(e) => Err(e),
            };
        }
        if query.query_type == QueryType::If {
            return Ok(Step::IfCondition(query.query.clone()));
        }
        if query.query_type == QueryType::While {
            return match self.partner(pc) {
                Some(_) => Ok(Step::WhileCondition(query.query.clone())),
                None => {
                    let mut v: Vec<char> = Vec::new();
                    push_str(&mut v, "Mismatched 'end' for 'while' at line ");
                    push_decimal(&mut v, pc as u64);
                    Err(TesterError::Message(to_string(&v)))
                },
            };
        }
        if query.query_type == QueryType::End {
            return self.begin_end(pc);
        }
        match self.execute_query(query) {
            Ok(a) => Ok(Step::Run(a)),
            Err(e) => Err(e),
        }
    }
}

/// Only the concurrent block changed.
pub open spec fn unchanged_but_block(a: Tester, b: Tester) -> bool {
    b.wf() && settings_same(a, b) && modifiers_same(a, b) && output_same(a, b) && query_same(a, b)
}

/// The pattern of a mismatch message's line numbers.
pub open spec fn line_info_pattern() -> Seq<char> {
    "result line (\\d+)(?: \\(from test file line (\\d+)\\))?"@
}

/// A captured number, or `0` when absent or too large.
pub open spec fn group_number(groups: Seq<Option<Seq<char>>>, i: int) -> int {
    if i < groups.len() && groups[i] is Some && crate::text::parse_unsigned(groups[i]->0, usize::MAX as nat) is Some {
        crate::text::parse_unsigned(groups[i]->0, usize::MAX as nat)->0 as int
    } else {
        0
    }
}

/// The (result line, test file line) a mismatch message names, `0` where
/// it names none.
pub open spec fn line_info(msg: Seq<char>) -> (int, int) {
    if crate::tester::replace_regex::spec_regex_error(line_info_pattern()) is Some {
        (0, 0)
    } else {
        match spec_regex_captures(line_info_pattern(), msg) {
            Some(g) => (group_number(g, 1), group_number(g, 2)),
            None => (0, 0),
        }
    }
}

/// First index at or after `i` where `p` occurs in `s`; `s.len()` if none.
pub open spec fn find_from(s: Seq<char>, p: Seq<char>, i: int) -> int
    decreases s.len() + 1 - i,
{
    if i < 0 || i + p.len() > s.len() {
        s.len() as int
    } else if s.subrange(i, i + p.len()) == p {
        i
    } else {
        find_from(s, p, i + 1)
    }
}

/// The text after `start` up to the first newline (or the end), trimmed.
pub open spec fn line_after(s: Seq<char>, start: int) -> Seq<char> {
    let rest = s.skip(start);
    trim(rest.take(crate::text::index_of(rest, '\n')))
}

/// The expected and actual lines a mismatch message names; empty when it
/// names them not.
pub open spec fn comparison_details(msg: Seq<char>) -> (Seq<char>, Seq<char>) {
    let e = find_from(msg, "Expected: "@, 0);
    let a = find_from(msg, "Actual: "@, 0);
    if e < msg.len() && a < msg.len() {
        (line_after(msg, e + 10), line_after(msg, a + 8))
    } else {
        (seq![], seq![])
    }
}

proof fn lemma_find_from(s: Seq<char>, p: Seq<char>, i: int)
    ensures
        find_from(s, p, i) <= s.len(),
        find_from(s, p, i) < s.len() ==> find_from(s, p, i) + p.len() <= s.len() && s.subrange(
            find_from(s, p, i),
            find_from(s, p, i) + p.len(),
        ) == p,
    decreases s.len() + 1 - i,
{
    if !(i < 0 || i + p.len() > s.len()) && s.subrange(i, i + p.len()) != p {
        lemma_find_from(s, p, i + 1);
    }
}

fn find_str_from(v: &Vec<char>, p: &Vec<char>, start: usize) -> (res: usize)
    requires
        start <= v.len(),
    ensures
        res == find_from(v@, p@, start as int),
        res <= v.len(),
{
    if p.len() == 0 {
        assert(v@.subrange(start as int, start as int) =~= p@);
        return start;
    }
    let mut i = start;
    while i < v.len() && p.len() <= v.len() - i
        invariant
            start <= i <= v.len(),
            p.len() > 0,
            find_from(v@, p@, start as int) == find_from(v@, p@, i as int),
        decreases v.len() - i,
    {
        if crate::text::starts_with_at(v, i, p) {
            assert(v@.skip(i as int).take(p.len() as int) =~= v@.subrange(i as int, i + p.len()));
            return i;
        }
        assert(v@.skip(i as int).take(p.len() as int) =~= v@.subrange(i as int, i + p.len()));
        i += 1;
    }
    v.len()
}

fn line_after_exec(v: &Vec<char>, start: usize) -> (res: String)
    requires
        start <= v.len(),
    ensures
        res@ == line_after(v@, start as int),
{
    let rest = subvec(v, start, v.len());
    assert(rest@ =~= v@.skip(start as int));
    let end = crate::text::find_char_from(&rest, '\n', 0);
    assert(rest@.skip(0) =~= rest@);
    let line = subvec(&rest, 0, end);
    to_string(&trim_vec(&line))
}

impl Tester {
    /// The (result line, test file line) a mismatch message names.
    pub fn extract_line_info_from_error(&self, error_msg: &str) -> (res: (usize, usize))
        ensures
            res.0 as int == line_info(error_msg@).0,
            res.1 as int == line_info(error_msg@).1,
    {
        let pattern = "result line (\\d+)(?: \\(from test file line (\\d+)\\))?";
        match crate::tester::replace_regex::regex_captures(pattern, error_msg) {
            Some(Some(groups)) => {
                let ghost gv = crate::tester::replace_regex::group_views(groups@);
                let mut nums: [usize; 2] = [0, 0];
                let mut k: usize = 1;
                while k <= 2
                    invariant
                        1 <= k <= 3,
                        gv == crate::tester::replace_regex::group_views(groups@),
                        forall|j: int| 1 <= j < k ==> nums@[j - 1] as int == group_number(gv, j),
                    decreases 3 - k,
                {
                    let mut n: usize = 0;
                    if k < groups.len() {
                        match &groups[k] {
                            Some(g) => {
                                match crate::text::parse_unsigned_vec(&chars_of(g.as_str()), usize::MAX as u64) {
                                    Some(x) => {
                                        n = x as usize;
                                    },
                                    None => {},
                                }
                            },
                            None => {},
                        }
                    }
                    nums.set(k - 1, n);
                    k += 1;
                }
                (nums[0], nums[1])
            },
            _ => (0, 0),
        }
    }

    /// The (expected, actual) lines a mismatch message names.
    pub fn extract_comparison_details(&self, error_msg: &str) -> (res: (String, String))
        ensures
            (res.0@, res.1@) == comparison_details(error_msg@),
    {
        let v = chars_of(error_msg);
        proof {
            reveal_strlit("Expected: ");
            reveal_strlit("Actual: ");
        }
        let e = find_str_from(&v, &chars_of("Expected: "), 0);
        let a = find_str_from(&v, &chars_of("Actual: "), 0);
        proof {
            lemma_find_from(v@, "Expected: "@, 0);
            lemma_find_from(v@, "Actual: "@, 0);
        }
        if e < v.len() && a < v.len() {
            return (line_after_exec(&v, e + 10), line_after_exec(&v, a + 8));
        }
        (String::new(), String::new())
    }
}

/// The failure detail recorded for an error of the query being run.
pub open spec fn failure_detail(t: Tester, msg: Seq<char>, d: QueryFailureDetail) -> bool {
    &&& t.query_text() is Some && d.sql@ == t.query_text()->0
    &&& (d.expected@, d.actual@) == comparison_details(msg)
    &&& d.line_number as int == (if line_info(msg).1 > 0 {
        line_info(msg).1
    } else {
        t.query_line()
    })
    &&& d.error_message@ == msg
}

impl Tester {
    /// Adds the details of a failed query to `result`, when a query is being
    /// run: its SQL, the expected and actual lines and the test file line the
    /// message names (else the query's line).
    pub fn record_query_failure(&self, result: &mut TestResult, error: &TesterError)
        ensures
            self.query_text() is None ==> final(result).query_failures@ == old(result).query_failures@,
            self.query_text() is Some ==> final(result).query_failures@.len() == old(result).query_failures@.len() + 1
                && final(result).query_failures@.drop_last() == old(result).query_failures@
                && failure_detail(*self, tester_message(error@), final(result).query_failures@.last()),
            final(result).errors@ == old(result).errors@,
            final(result).status == old(result).status,
            final(result).passed_queries == old(result).passed_queries,
            final(result).failed_queries == old(result).failed_queries,
    {
        match &self.current_query {
            Some(sql) => {
                let msg = error.message();
                let (expected, actual) = self.extract_comparison_details(msg.as_str());
                let (_, test_line) = self.extract_line_info_from_error(msg.as_str());
                let line = if test_line > 0 {
                    test_line
                } else {
                    self.current_query_line
                };
                let failure = QueryFailureDetail {
                    sql: sql.clone(),
                    expected,
                    actual,
                    line_number: line,
                    error_message: msg,
                };
                result.add_query_failure(failure);
            },
            None => {},
        }
    }

    /// Counts one step of a test: a success moves on to `next`; a failure
    /// is recorded as `Query N failed: message` (N counted from 1) with its
    /// details, and the test stops there under `fail_fast`. The index of the
    /// next query is returned, `None` to stop.
    pub fn record_step_outcome(
        &self,
        result: &mut TestResult,
        pc: usize,
        outcome: Result<usize, TesterError>,
        fail_fast: bool,
    ) -> (res: Option<usize>)
        requires
            old(result).passed_queries < usize::MAX,
            old(result).failed_queries < usize::MAX,
            pc < usize::MAX,
        ensures
            match outcome {
                Ok(next) => res == Some(next) && final(result).passed_queries == old(result).passed_queries + 1
                    && final(result).failed_queries == old(result).failed_queries
                    && final(result).errors@ == old(result).errors@
                    && final(result).status == old(result).status,
                Err(e) => final(result).failed_queries == old(result).failed_queries + 1
                    && final(result).passed_queries == old(result).passed_queries
                    && crate::text::string_views(final(result).errors@) == crate::text::string_views(old(result).errors@).push(
                    "Query "@ + decimal((pc + 1) as nat) + " failed: "@ + tester_message(e@),
                ) && final(result).status == TestStatus::Failed && res == (if fail_fast {
                    None
                } else {
                    Some((pc + 1) as usize)
                }),
            },
    {
        match outcome {
            Ok(next) => {
                result.passed_queries = result.passed_queries + 1;
                Some(next)
            },
            Err(e) => {
                result.failed_queries = result.failed_queries + 1;
                let mut v: Vec<char> = Vec::new();
                push_str(&mut v, "Query ");
                push_decimal(&mut v, (pc + 1) as u64);
                push_str(&mut v, " failed: ");
                let m = e.message();
                push_str(&mut v, m.as_str());
                let text = to_string(&v);
                let ghost before = result.errors@;
                result.add_error(text);
                assert(crate::text::string_views(result.errors@) =~= crate::text::string_views(before).push(text@));
                self.record_query_failure(result, &e);
                if fail_fast {
                    None
                } else {
                    Some(pc + 1)
                }
            },
        }
    }

    /// Concludes a test: when comparing, every expected line must have been
    /// reached (else `Result verification failed: ...` is recorded); a test
    /// with failed queries or errors is failed; the output is its stdout.
    pub fn conclude(&self, result: &mut TestResult)
        requires
            self.wf(),
        ensures
            final(result).stdout@ == self.output_buffer@,
            crate::text::string_views(final(result).errors@) == (if !self.record && unconsumed(self.expected_lines(), self.cursor()) is Some {
                crate::text::string_views(old(result).errors@).push(
                    "Result verification failed: "@ + tester_message(unconsumed(self.expected_lines(), self.cursor())->0),
                )
            } else {
                crate::text::string_views(old(result).errors@)
            }),
            (old(result).failed_queries > 0 || final(result).errors@.len() > 0) ==> final(result).status == TestStatus::Failed && !final(result).success,
            (old(result).failed_queries == 0 && final(result).errors@.len() == 0) ==> final(result).status == old(result).status && final(result).success == old(result).success,
            final(result).passed_queries == old(result).passed_queries,
            final(result).failed_queries == old(result).failed_queries,
    {
        if !self.record {
            match self.verify_expected_consumed() {
                Ok(()) => {},
                Err(e) => {
                    let mut v: Vec<char> = Vec::new();
                    push_str(&mut v, "Result verification failed: ");
                    let m = e.message();
                    push_str(&mut v, m.as_str());
                    let text = to_string(&v);
                    let ghost before = result.errors@;
                    result.add_error(text);
                    assert(crate::text::string_views(result.errors@) =~= crate::text::string_views(before).push(text@));
                },
            }
        }
        if result.failed_queries > 0 || result.errors.len() > 0 {
            result.mark_failed();
        }
        result.set_stdout(self.output_buffer.clone());
    }
}

} // verus!
