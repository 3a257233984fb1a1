//! The representation of a query. A `.test` file is a sequence of queries.

use vstd::prelude::*;

verus! {

/// The kind of a query.
#[derive(Debug, PartialEq, Eq, Clone, Copy, Structural)]
pub enum QueryType {
    Query,
    Exec,
    Admin,
    Error,
    Fatal,
    Echo,
    Sleep,
    ReplaceRegex,
    ReplaceColumn,
    Replace,
    Let,
    Eval,
    Require,
    Source,
    Comment,
    Unknown,
    Connect,
    Connection,
    Disconnect,
    Delimiter,
    DisableQueryLog,
    EnableQueryLog,
    DisableResultLog,
    EnableResultLog,
    SortedResult,
    EnableSortResult,
    DisableSortResult,
    ChangeUser,
    EndOfFile,
    BeginConcurrent,
    EndConcurrent,
    Concurrent,
    VerticalResults,
    HorizontalResults,
    Send,
    Recv,
    Wait,
    RealSleep,
    QueryAsync,
    Block,
    Unblock,
    Checkpoint,
    Restart,
    Ping,
    Skip,
    Exit,
    // Control flow commands
    If,
    While,
    End,
    /// `}` closing a control flow block.
    CloseBrace,
    // Variable arithmetic
    Inc,
    Dec,
    Add,
    Sub,
    // Batches
    BatchInsert,
    BatchExecute,
    EndBatch,
    // Transactions
    BeginTransaction,
    CommitTransaction,
    RollbackTransaction,
}

/// One-shot modifiers and expected errors bound to a query.
#[derive(Debug, Clone)]
pub struct QueryOptions {
    /// Error codes or names the query is expected to raise; empty when no
    /// error is expected.
    pub expected_errors: Vec<String>,
    /// `--replace_regex` rules as (pattern, replacement), in order.
    pub replace_regex: Vec<(String, String)>,
    /// Whether the result rows are sorted (`--sorted_result`).
    pub sorted_result: bool,
}

impl QueryOptions {
    /// No expected errors, no replacements, no sorting.
    pub open spec fn is_default(&self) -> bool {
        self.expected_errors@.len() == 0 && self.replace_regex@.len() == 0 && !self.sorted_result
    }
}

impl Default for QueryOptions {
    fn default() -> (res: Self)
        ensures
            res.is_default(),
    {
        QueryOptions { expected_errors: Vec::new(), replace_regex: Vec::new(), sorted_result: false }
    }
}

/// A query of a test file.
#[derive(Debug, Clone)]
pub struct Query {
    pub query_type: QueryType,
    pub query: String,
    pub line: usize,
    pub options: QueryOptions,
}

/// A query as (kind, text, line).
pub open spec fn query_view(q: Query) -> (QueryType, Seq<char>, int) {
    (q.query_type, q.query@, q.line as int)
}

pub open spec fn queries_view(v: Seq<Query>) -> Seq<(QueryType, Seq<char>, int)> {
    v.map_values(|q: Query| query_view(q))
}

/// A query without options.
pub fn plain_query(query_type: QueryType, query: String, line: usize) -> (res: Query)
    ensures
        query_view(res) == (query_type, query@, line as int),
        res.options.is_default(),
{
    Query { query_type, query, line, options: QueryOptions::default() }
}

/// Adding a query adds its view.
pub proof fn lemma_queries_view_push(s: Seq<Query>, q: Query)
    ensures
        queries_view(s.push(q)) == queries_view(s).push(query_view(q)),
{
    assert(queries_view(s.push(q)) =~= queries_view(s).push(query_view(q)));
}

} // verus!
