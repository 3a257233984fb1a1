//! The `.test` file parser.
//!
//! A test file is read line by line (`str::lines`). After trimming, a line is
//! one of:
//! - empty: skipped, without ending a pending SQL statement;
//! - `# text`: a comment, kept as `#` followed by the text without its
//!   leading white space;
//! - `--delimiter VALUE`: changes the SQL delimiter to `VALUE`;
//! - `--name args`: a command; `name` ends at the first white space or `(`,
//!   is lower-cased and looked up in the command map;
//! - `}`: the end of an `if` or `while` block;
//! - `if (cond)` or `while (cond)`, optionally followed by `{`;
//! - `let args`: a variable assignment;
//! - anything else is a SQL line. A few bare commands (`inc $v`, `echo ..`,
//!   `begin_transaction`, ...) are recognised there; the other SQL lines are
//!   collected until one ends with the delimiter.
//!
//! A comment, command or control line first ends the pending SQL statement.

use vstd::prelude::*;
use crate::text::{
    is_ws, is_whitespace, trim, trim_start, trim_vec, trim_start_vec, subvec, starts_with,
    starts_with_str, ends_with, ends_with_vec, eq_str, views, lines, lines_of, chars_of, join,
    join_vecs, split, split_char, split_ws, split_ws_vec, run_len, lemma_run_len, not_ws,
    word_end, push_all, to_string,
};
use crate::unicode::{spec_to_lowercase, to_lowercase};
use crate::tester::query::{Query, QueryType, QueryOptions, plain_query, query_view, queries_view};
use crate::tester::parser::{command_type, command_query_type, QueryParser, ParserError};

verus! {

/// The kinds of line of a test file, with what each carries.
pub enum LineRule {
    EmptyLine,
    Comment(Seq<char>),
    DelimiterChange(Seq<char>),
    Command(Seq<char>),
    EndStmt,
    IfStmt(Seq<char>),
    WhileStmt(Seq<char>),
    LetStmt(Seq<char>),
    SqlStatement(Seq<char>),
}

/// A classified line, as the converter receives it.
pub enum Rule {
    EmptyLine,
    /// The comment text after `#`, leading white space dropped.
    Comment(Vec<char>),
    /// The new delimiter.
    DelimiterChange(Vec<char>),
    /// What follows `--`, trimmed.
    Command(Vec<char>),
    EndStmt,
    /// The condition between the parentheses, trimmed.
    IfStmt(Vec<char>),
    WhileStmt(Vec<char>),
    /// What follows `let`, trimmed.
    LetStmt(Vec<char>),
    /// The trimmed line.
    SqlStatement(Vec<char>),
}

impl View for Rule {
    type V = LineRule;

    open spec fn view(&self) -> LineRule {
        match self {
            Rule::EmptyLine => LineRule::EmptyLine,
            Rule::Comment(t) => LineRule::Comment(t@),
            Rule::DelimiterChange(t) => LineRule::DelimiterChange(t@),
            Rule::Command(t) => LineRule::Command(t@),
            Rule::EndStmt => LineRule::EndStmt,
            Rule::IfStmt(t) => LineRule::IfStmt(t@),
            Rule::WhileStmt(t) => LineRule::WhileStmt(t@),
            Rule::LetStmt(t) => LineRule::LetStmt(t@),
            Rule::SqlStatement(t) => LineRule::SqlStatement(t@),
        }
    }
}

pub open spec fn delimiter_keyword() -> Seq<char> {
    seq!['-', '-', 'd', 'e', 'l', 'i', 'm', 'i', 't', 'e', 'r']
}

/// `--delimiter VALUE` with a non-empty value.
pub open spec fn delimiter_change(s: Seq<char>) -> Option<Seq<char>> {
    let rest = s.skip(11);
    if starts_with(s, delimiter_keyword()) && rest.len() > 0 && is_ws(rest[0]) && trim(rest).len()
        > 0 {
        Some(trim(rest))
    } else {
        None
    }
}

/// `kw (cond)` or `kw (cond) {`: the trimmed condition.
pub open spec fn cond_stmt(s: Seq<char>, kw: Seq<char>) -> Option<Seq<char>> {
    let t = trim_start(s.skip(kw.len() as int));
    let u = if t.len() > 0 && t.last() == '{' {
        trim(t.drop_last())
    } else {
        t
    };
    if starts_with(s, kw) && t.len() > 0 && t[0] == '(' && u.len() >= 2 && u.last() == ')' {
        Some(trim(u.subrange(1, u.len() - 1)))
    } else {
        None
    }
}

/// `let args`: the trimmed arguments.
pub open spec fn let_args(s: Seq<char>) -> Option<Seq<char>> {
    if starts_with(s, seq!['l', 'e', 't']) && s.len() > 3 && is_ws(s[3]) {
        Some(trim(s.skip(3)))
    } else {
        None
    }
}

/// The grammar of one line.
pub open spec fn classify_spec(line: Seq<char>) -> LineRule {
    let s = trim(line);
    if s.len() == 0 {
        LineRule::EmptyLine
    } else if s[0] == '#' {
        LineRule::Comment(trim_start(s.skip(1)))
    } else if delimiter_change(s) is Some {
        LineRule::DelimiterChange(delimiter_change(s)->0)
    } else if starts_with(s, seq!['-', '-']) {
        LineRule::Command(trim(s.skip(2)))
    } else if s == seq!['}'] {
        LineRule::EndStmt
    } else if cond_stmt(s, seq!['i', 'f']) is Some {
        LineRule::IfStmt(cond_stmt(s, seq!['i', 'f'])->0)
    } else if cond_stmt(s, seq!['w', 'h', 'i', 'l', 'e']) is Some {
        LineRule::WhileStmt(cond_stmt(s, seq!['w', 'h', 'i', 'l', 'e'])->0)
    } else if let_args(s) is Some {
        LineRule::LetStmt(let_args(s)->0)
    } else {
        LineRule::SqlStatement(s)
    }
}

/// The grammar of test files, line by line.
pub struct PestMySQLParser;

impl PestMySQLParser {
    fn delimiter_change(s: &Vec<char>) -> (res: Option<Vec<char>>)
        ensures
            match res {
                Some(v) => delimiter_change(s@) == Some(v@),
                None => delimiter_change(s@) is None,
            },
    {
        proof {
            reveal_strlit("--delimiter");
            assert("--delimiter"@ =~= delimiter_keyword());
        }
        if !starts_with_str(s, "--delimiter") {
            return None;
        }
        let rest = subvec(s, 11, s.len());
        assert(rest@ =~= s@.skip(11));
        if rest.len() == 0 || !is_whitespace(rest[0]) {
            return None;
        }
        let v = trim_vec(&rest);
        if v.len() == 0 {
            return None;
        }
        Some(v)
    }

    fn cond_stmt(s: &Vec<char>, kw: &str) -> (res: Option<Vec<char>>)
        ensures
            match res {
                Some(v) => cond_stmt(s@, kw@) == Some(v@),
                None => cond_stmt(s@, kw@) is None,
            },
    {
        if !starts_with_str(s, kw) {
            return None;
        }
        let k = chars_of(kw).len();
        let rest = subvec(s, k, s.len());
        assert(rest@ =~= s@.skip(kw@.len() as int));
        let t = trim_start_vec(&rest);
        if t.len() == 0 || t[0] != '(' {
            return None;
        }
        let u = if t[t.len() - 1] == '{' {
            let d = subvec(&t, 0, t.len() - 1);
            assert(d@ =~= t@.drop_last());
            trim_vec(&d)
        } else {
            t
        };
        if u.len() < 2 || u[u.len() - 1] != ')' {
            return None;
        }
        let inner = subvec(&u, 1, u.len() - 1);
        Some(trim_vec(&inner))
    }

    fn let_args(s: &Vec<char>) -> (res: Option<Vec<char>>)
        ensures
            match res {
                Some(v) => let_args(s@) == Some(v@),
                None => let_args(s@) is None,
            },
    {
        if s.len() > 3 && s[0] == 'l' && s[1] == 'e' && s[2] == 't' && is_whitespace(s[3]) {
            assert(s@.take(3) =~= seq!['l', 'e', 't']);
            let rest = subvec(s, 3, s.len());
            assert(rest@ =~= s@.skip(3));
            Some(trim_vec(&rest))
        } else {
            proof {
                if starts_with(s@, seq!['l', 'e', 't']) {
                    assert(s@.take(3)[0] == s@[0]);
                    assert(s@.take(3)[1] == s@[1]);
                    assert(s@.take(3)[2] == s@[2]);
                }
            }
            None
        }
    }

    /// Classifies one line of a test file.
    pub fn classify(line: &Vec<char>) -> (res: Rule)
        ensures
            res@ == classify_spec(line@),
    {
        let s = trim_vec(line);
        if s.len() == 0 {
            return Rule::EmptyLine;
        }
        if s[0] == '#' {
            let rest = subvec(&s, 1, s.len());
            assert(rest@ =~= s@.skip(1));
            return Rule::Comment(trim_start_vec(&rest));
        }
        match Self::delimiter_change(&s) {
            Some(v) => {
                return Rule::DelimiterChange(v);
            },
            None => {},
        }
        if s.len() >= 2 && s[0] == '-' && s[1] == '-' {
            assert(s@.take(2) =~= seq!['-', '-']);
            let rest = subvec(&s, 2, s.len());
            assert(rest@ =~= s@.skip(2));
            return Rule::Command(trim_vec(&rest));
        }
        proof {
            if starts_with(s@, seq!['-', '-']) {
                assert(s@.take(2)[0] == s@[0]);
                assert(s@.take(2)[1] == s@[1]);
            }
        }
        if s.len() == 1 && s[0] == '}' {
            assert(s@ =~= seq!['}']);
            return Rule::EndStmt;
        }
        proof {
            if s@ == seq!['}'] {
                assert(s@[0] == '}');
            }
        }
        proof {
            reveal_strlit("if");
            reveal_strlit("while");
            assert("if"@ =~= seq!['i', 'f']);
            assert("while"@ =~= seq!['w', 'h', 'i', 'l', 'e']);
        }
        match Self::cond_stmt(&s, "if") {
            Some(c) => {
                return Rule::IfStmt(c);
            },
            None => {},
        }
        match Self::cond_stmt(&s, "while") {
            Some(c) => {
                return Rule::WhileStmt(c);
            },
            None => {},
        }
        match Self::let_args(&s) {
            Some(a) => {
                return Rule::LetStmt(a);
            },
            None => {},
        }
        Rule::SqlStatement(s)
    }
}


/// What the converter has built after some lines: the queries so far, the
/// SQL lines waiting for a delimiter, and the delimiter in force.
#[verifier::ext_equal]
pub struct ParseState {
    pub queries: Seq<(QueryType, Seq<char>, int)>,
    pub pending: Seq<Seq<char>>,
    pub delimiter: Seq<char>,
}

/// The state held in the converter's variables.
pub open spec fn state_of(queries: Seq<Query>, pending: Seq<Vec<char>>, delimiter: Seq<char>) -> ParseState {
    ParseState { queries: queries_view(queries), pending: views(pending), delimiter }
}

/// All queries carry the default options.
pub open spec fn all_default(qs: Seq<Query>) -> bool {
    forall|i: int| 0 <= i < qs.len() ==> (#[trigger] qs[i]).options.is_default()
}

/// The pending SQL lines, joined by newlines and trimmed.
pub open spec fn pending_sql(pending: Seq<Seq<char>>) -> Seq<char> {
    trim(join(pending, seq!['\n']))
}

/// Ends the pending SQL statement: it becomes one query, if not blank.
pub open spec fn flush(st: ParseState, ln: int) -> ParseState {
    if st.pending.len() == 0 {
        st
    } else {
        let full = pending_sql(st.pending);
        ParseState {
            queries: if full.len() > 0 {
                st.queries.push((QueryType::Query, full, ln))
            } else {
                st.queries
            },
            pending: seq![],
            delimiter: st.delimiter,
        }
    }
}

/// Index of the first line at or after `j` that is not blank.
pub open spec fn next_nonempty(ls: Seq<Seq<char>>, j: int) -> int
    decreases ls.len() - j,
{
    if j < 0 || j >= ls.len() {
        ls.len() as int
    } else if trim(ls[j]).len() > 0 {
        j
    } else {
        next_nonempty(ls, j + 1)
    }
}

/// The first white-space separated word of a line.
pub open spec fn first_word(t: Seq<char>) -> Seq<char> {
    t.take(run_len(t, not_ws()))
}

/// The words that start a new SQL statement.
pub open spec fn is_sql_keyword(w: Seq<char>) -> bool {
    ||| w == "select"@
    ||| w == "insert"@
    ||| w == "update"@
    ||| w == "delete"@
    ||| w == "create"@
    ||| w == "drop"@
    ||| w == "alter"@
    ||| w == "show"@
    ||| w == "describe"@
    ||| w == "explain"@
}

/// Whether a line ending in `;` ends a statement: the next non-blank line
/// begins with a SQL keyword, or there is none.
pub open spec fn ends_statement(ls: Seq<Seq<char>>, i: int) -> bool {
    let j = next_nonempty(ls, i + 1);
    j >= ls.len() || is_sql_keyword(spec_to_lowercase(first_word(trim(ls[j]))))
}

/// One line of statement splitting: (current statement, finished statements).
pub open spec fn stmt_step(ls: Seq<Seq<char>>, i: int, st: (Seq<char>, Seq<Seq<char>>)) -> (
    Seq<char>,
    Seq<Seq<char>>,
) {
    let t = trim(ls[i]);
    if t.len() == 0 {
        st
    } else {
        let cur = st.0 + ls[i] + seq!['\n'];
        if t.last() == ';' && ends_statement(ls, i) {
            (seq![], st.1.push(trim(cur)))
        } else {
            (cur, st.1)
        }
    }
}

pub open spec fn stmt_fold(ls: Seq<Seq<char>>, n: int) -> (Seq<char>, Seq<Seq<char>>)
    decreases n,
{
    if n <= 0 {
        (seq![], seq![])
    } else {
        stmt_step(ls, n - 1, stmt_fold(ls, n - 1))
    }
}

/// The statements of a multi-line SQL text: a line ending in `;` closes a
/// statement when the next non-blank line starts a new one.
pub open spec fn split_statements(ls: Seq<Seq<char>>) -> Seq<Seq<char>> {
    let st = stmt_fold(ls, ls.len() as int);
    if trim(st.0).len() > 0 {
        st.1.push(trim(st.0))
    } else {
        st.1
    }
}

/// `a + b`, capped at `usize::MAX`.
pub open spec fn sat_add(a: int, b: int) -> int {
    if a + b > usize::MAX {
        usize::MAX as int
    } else {
        a + b
    }
}

/// The queries of split statements; the `i`-th is given line `ln + i`.
pub open spec fn statement_queries(stmts: Seq<Seq<char>>, ln: int, n: int) -> Seq<
    (QueryType, Seq<char>, int),
>
    decreases n,
{
    if n <= 0 {
        seq![]
    } else {
        let t = trim(stmts[n - 1]);
        statement_queries(stmts, ln, n - 1) + if t.len() > 0 {
            seq![(QueryType::Query, t, sat_add(ln, n - 1))]
        } else {
            seq![]
        }
    }
}

/// Ends the pending SQL at a delimiter, splitting it into statements when it
/// holds more than one.
pub open spec fn flush_split(st: ParseState, ln: int) -> ParseState {
    if st.pending.len() == 0 {
        st
    } else {
        let full = pending_sql(st.pending);
        let stmts = split_statements(lines(full));
        ParseState {
            queries: if full.len() == 0 {
                st.queries
            } else if stmts.len() > 1 {
                st.queries + statement_queries(stmts, ln, stmts.len() as int)
            } else {
                st.queries.push((QueryType::Query, full, ln))
            },
            pending: seq![],
            delimiter: st.delimiter,
        }
    }
}

/// A SQL line: collected, and the statement ended when the line ends with
/// the delimiter (which is dropped).
pub open spec fn sql_line(st: ParseState, content: Seq<char>, ln: int) -> ParseState {
    let t = trim(content);
    if t.len() == 0 {
        st
    } else if ends_with(t, st.delimiter) {
        let c = trim(t.take(t.len() - st.delimiter.len()));
        flush_split(
            ParseState {
                queries: st.queries,
                pending: if c.len() > 0 {
                    st.pending.push(c)
                } else {
                    st.pending
                },
                delimiter: st.delimiter,
            },
            ln,
        )
    } else {
        ParseState { queries: st.queries, pending: st.pending.push(t), delimiter: st.delimiter }
    }
}

/// `inc $v` / `dec $v`: exactly two words, the second a variable.
pub open spec fn var_arg(c: Seq<char>, t: QueryType) -> Option<(QueryType, Seq<char>)> {
    let parts = split_ws(c);
    if parts.len() == 2 && parts[1].len() > 0 && parts[1][0] == '$' {
        Some((t, parts[1]))
    } else {
        None
    }
}

/// `add $v, value` / `sub $v, value`: one comma, a variable before it.
pub open spec fn value_arg(c: Seq<char>, t: QueryType) -> Option<(QueryType, Seq<char>)> {
    let parts = split(c, ',');
    if parts.len() == 2 {
        let words = split_ws(trim(parts[0]));
        let var = if words.len() > 1 {
            words[1]
        } else {
            seq![]
        };
        if var.len() > 0 && var[0] == '$' {
            Some((t, var + seq![',', ' '] + trim(parts[1])))
        } else {
            None
        }
    } else {
        None
    }
}

/// The bare commands that may stand on a SQL line.
pub open spec fn new_syntax(content: Seq<char>) -> Option<(QueryType, Seq<char>)> {
    let c = trim(content);
    if starts_with(c, "inc "@) {
        var_arg(c, QueryType::Inc)
    } else if starts_with(c, "dec "@) {
        var_arg(c, QueryType::Dec)
    } else if starts_with(c, "add "@) {
        value_arg(c, QueryType::Add)
    } else if starts_with(c, "sub "@) {
        value_arg(c, QueryType::Sub)
    } else if starts_with(c, "batch_insert "@) {
        Some((QueryType::BatchInsert, trim(c.skip(13))))
    } else if c == "batch_execute"@ {
        Some((QueryType::BatchExecute, seq![]))
    } else if c == "end_batch"@ {
        Some((QueryType::EndBatch, seq![]))
    } else if c == "begin_transaction"@ {
        Some((QueryType::BeginTransaction, seq![]))
    } else if c == "commit_transaction"@ {
        Some((QueryType::CommitTransaction, seq![]))
    } else if c == "rollback_transaction"@ {
        Some((QueryType::RollbackTransaction, seq![]))
    } else if starts_with(c, "echo "@) {
        Some((QueryType::Echo, c.skip(5)))
    } else if starts_with(c, "sleep "@) {
        Some((QueryType::Sleep, c.skip(6)))
    } else if starts_with(c, "error "@) {
        Some((QueryType::Error, c.skip(6)))
    } else if c == "sorted_result"@ {
        Some((QueryType::SortedResult, seq![]))
    } else if starts_with(c, "source "@) {
        Some((QueryType::Source, c.skip(7)))
    } else {
        None
    }
}

/// Where a command's name ends: at the first white space or `(`.
pub open spec fn command_name_end(c: Seq<char>) -> int {
    run_len(c, name_char())
}

/// The characters of a command's name.
pub open spec fn name_char() -> spec_fn(char) -> bool {
    |ch: char| !is_ws(ch) && ch != '('
}

/// A command's query type and arguments.
pub open spec fn command_parts(c: Seq<char>) -> (QueryType, Seq<char>) {
    let k = command_name_end(c);
    (command_type(spec_to_lowercase(c.take(k))), trim_start(c.skip(k)))
}

/// Ends the pending SQL, then adds a query.
pub open spec fn emit(st: ParseState, ln: int, t: QueryType, q: Seq<char>) -> ParseState {
    let f = flush(st, ln);
    ParseState { queries: f.queries.push((t, q, ln)), pending: f.pending, delimiter: f.delimiter }
}

/// What one line (numbered `ln`) does to the state.
pub open spec fn step(st: ParseState, line: Seq<char>, ln: int) -> ParseState {
    match classify_spec(line) {
        LineRule::EmptyLine => st,
        LineRule::Comment(text) => emit(st, ln, QueryType::Comment, seq!['#'] + text),
        LineRule::DelimiterChange(v) => {
            let e = emit(st, ln, QueryType::Delimiter, v);
            ParseState { queries: e.queries, pending: e.pending, delimiter: v }
        },
        LineRule::Command(c) => emit(st, ln, command_parts(c).0, command_parts(c).1),
        LineRule::EndStmt => emit(st, ln, QueryType::End, seq![]),
        LineRule::IfStmt(c) => emit(st, ln, QueryType::If, c),
        LineRule::WhileStmt(c) => emit(st, ln, QueryType::While, c),
        LineRule::LetStmt(a) => emit(st, ln, QueryType::Let, a),
        LineRule::SqlStatement(s) => match new_syntax(s) {
            Some(p) => emit(st, ln, p.0, p.1),
            None => sql_line(st, s, ln),
        },
    }
}

/// The state after the first `n` lines.
pub open spec fn run_lines(st0: ParseState, ls: Seq<Seq<char>>, n: int) -> ParseState
    decreases n,
{
    if n <= 0 {
        st0
    } else {
        step(run_lines(st0, ls, n - 1), ls[n - 1], n)
    }
}

/// The result of parsing `content` with the given delimiter in force: the
/// lines are numbered from 1, and what is pending at the end is flushed.
pub open spec fn parse_spec(delimiter: Seq<char>, content: Seq<char>) -> ParseState {
    let ls = lines(content);
    let st = run_lines(
        ParseState { queries: seq![], pending: seq![], delimiter },
        ls,
        ls.len() as int,
    );
    flush(st, if ls.len() > 0 { ls.len() as int } else { 1 })
}

/// Converts test files into queries; it keeps the SQL delimiter in force
/// from one file to the next.
#[derive(Debug)]
pub struct PestParser {
    delimiter: Vec<char>,
}

impl View for PestParser {
    type V = Seq<char>;

    /// The delimiter in force.
    closed spec fn view(&self) -> Seq<char> {
        self.delimiter@
    }
}

impl PestParser {
    /// A parser with `;` as delimiter.
    pub fn new() -> (res: Self)
        ensures
            res@ == seq![';'],
    {
        let mut d: Vec<char> = Vec::new();
        d.push(';');
        PestParser { delimiter: d }
    }
}

impl PestParser {
    /// Ends the pending SQL statement: it becomes one query if not blank.
    fn finalize_pending_sql(
        &self,
        queries: &mut Vec<Query>,
        pending: &mut Vec<Vec<char>>,
        line_num: usize,
    )
        requires
            all_default(old(queries)@),
        ensures
            all_default(final(queries)@),
            queries_view(final(queries)@) == flush(
                ParseState {
                    queries: queries_view(old(queries)@),
                    pending: views(old(pending)@),
                    delimiter: self@,
                },
                line_num as int,
            ).queries,
            views(final(pending)@) == flush(
                ParseState {
                    queries: queries_view(old(queries)@),
                    pending: views(old(pending)@),
                    delimiter: self@,
                },
                line_num as int,
            ).pending,
    {
        if pending.len() == 0 {
            return ;
        }
        let nl = vec!['\n'];
        assert(nl@ =~= seq!['\n']);
        let joined = join_vecs(pending, &nl);
        let full = trim_vec(&joined);
        assert(full@ == pending_sql(views(pending@)));
        if full.len() > 0 {
            let q = plain_query(QueryType::Query, to_string(&full), line_num);
            proof {
                crate::tester::query::lemma_queries_view_push(queries@, q);
            }
            queries.push(q);
        }
        pending.clear();
        assert(views(pending@) =~= Seq::<Seq<char>>::empty());
    }

    /// Whether a line ending in `;` ends a statement.
    fn ends_statement(ls: &Vec<Vec<char>>, i: usize) -> (res: bool)
        requires
            i < ls.len(),
        ensures
            res == ends_statement(views(ls@), i as int),
    {
        let ghost vs = views(ls@);
        let mut j = i + 1;
        while j < ls.len() && trim_vec(&ls[j]).len() == 0
            invariant
                i + 1 <= j <= ls.len(),
                vs == views(ls@),
                next_nonempty(vs, i + 1) == next_nonempty(vs, j as int),
            decreases ls.len() - j,
        {
            assert(vs[j as int] == ls@[j as int]@);
            j += 1;
        }
        if j >= ls.len() {
            return true;
        }
        assert(vs[j as int] == ls@[j as int]@);
        let t = trim_vec(&ls[j]);
        let e = word_end(&t, 0);
        assert(t@.skip(0) =~= t@);
        let w = subvec(&t, 0, e);
        assert(w@ =~= first_word(t@));
        let lw = to_lowercase(to_string(&w).as_str());
        let lv = chars_of(lw.as_str());
        eq_str(&lv, "select") || eq_str(&lv, "insert") || eq_str(&lv, "update") || eq_str(
            &lv,
            "delete",
        ) || eq_str(&lv, "create") || eq_str(&lv, "drop") || eq_str(&lv, "alter") || eq_str(
            &lv,
            "show",
        ) || eq_str(&lv, "describe") || eq_str(&lv, "explain")
    }

    /// Splits the lines of a SQL text into statements.
    fn split_statements(ls: &Vec<Vec<char>>) -> (res: Vec<Vec<char>>)
        ensures
            views(res@) == split_statements(views(ls@)),
    {
        let ghost vs = views(ls@);
        let mut cur: Vec<char> = Vec::new();
        let mut acc: Vec<Vec<char>> = Vec::new();
        let mut i: usize = 0;
        while i < ls.len()
            invariant
                i <= ls.len(),
                vs == views(ls@),
                (cur@, views(acc@)) == stmt_fold(vs, i as int),
            decreases ls.len() - i,
        {
            assert(vs[i as int] == ls@[i as int]@);
            let ghost prev = (cur@, views(acc@));
            let t = trim_vec(&ls[i]);
            if t.len() > 0 {
                push_all(&mut cur, &ls[i]);
                cur.push('\n');
                assert(cur@ =~= prev.0 + vs[i as int] + seq!['\n']);
                if t[t.len() - 1] == ';' && Self::ends_statement(ls, i) {
                    let s = trim_vec(&cur);
                    proof {
                        crate::text::lemma_views_push(acc@, s);
                    }
                    acc.push(s);
                    cur = Vec::new();
                }
            }
            i += 1;
        }
        let tc = trim_vec(&cur);
        if tc.len() > 0 {
            proof {
                crate::text::lemma_views_push(acc@, tc);
            }
            acc.push(tc);
        }
        acc
    }

    /// Ends the pending SQL at a delimiter; when it holds several
    /// statements, each becomes a query of its own.
    fn finalize_pending_sql_with_splitting(
        &self,
        queries: &mut Vec<Query>,
        pending: &mut Vec<Vec<char>>,
        line_num: usize,
    )
        requires
            all_default(old(queries)@),
        ensures
            all_default(final(queries)@),
            queries_view(final(queries)@) == flush_split(
                ParseState {
                    queries: queries_view(old(queries)@),
                    pending: views(old(pending)@),
                    delimiter: self@,
                },
                line_num as int,
            ).queries,
            views(final(pending)@) == flush_split(
                ParseState {
                    queries: queries_view(old(queries)@),
                    pending: views(old(pending)@),
                    delimiter: self@,
                },
                line_num as int,
            ).pending,
    {
        if pending.len() == 0 {
            return ;
        }
        let ghost q0 = queries_view(queries@);
        let nl = vec!['\n'];
        assert(nl@ =~= seq!['\n']);
        let joined = join_vecs(pending, &nl);
        let full = trim_vec(&joined);
        assert(full@ == pending_sql(views(pending@)));
        if full.len() == 0 {
            pending.clear();
            assert(views(pending@) =~= Seq::<Seq<char>>::empty());
            return ;
        }
        let ls = lines_of(&full);
        let stmts = Self::split_statements(&ls);
        if stmts.len() > 1 {
            let ghost ss = views(stmts@);
            let mut i: usize = 0;
            while i < stmts.len()
                invariant
                    i <= stmts.len(),
                    ss == views(stmts@),
                    all_default(queries@),
                    queries_view(queries@) == q0 + statement_queries(ss, line_num as int, i as int),
                decreases stmts.len() - i,
            {
                assert(ss[i as int] == stmts@[i as int]@);
                let t = trim_vec(&stmts[i]);
                if t.len() > 0 {
                    let q = plain_query(QueryType::Query, to_string(&t), line_num.saturating_add(i));
                    proof {
                        crate::tester::query::lemma_queries_view_push(queries@, q);
                    }
                    queries.push(q);
                    assert(queries_view(queries@) =~= q0 + statement_queries(ss, line_num as int, i + 1));
                } else {
                    assert(statement_queries(ss, line_num as int, i + 1) =~= statement_queries(ss, line_num as int, i as int));
                }
                i += 1;
            }
        } else {
            let q = plain_query(QueryType::Query, to_string(&full), line_num);
            proof {
                crate::tester::query::lemma_queries_view_push(queries@, q);
            }
            queries.push(q);
        }
        pending.clear();
        assert(views(pending@) =~= Seq::<Seq<char>>::empty());
    }
}

impl PestParser {
    /// Collects one SQL line; at the delimiter the statement is ended.
    fn process_sql_line(
        &self,
        pending: &mut Vec<Vec<char>>,
        queries: &mut Vec<Query>,
        sql_content: &Vec<char>,
        line_num: usize,
    )
        requires
            all_default(old(queries)@),
        ensures
            all_default(final(queries)@),
            queries_view(final(queries)@) == sql_line(
                ParseState {
                    queries: queries_view(old(queries)@),
                    pending: views(old(pending)@),
                    delimiter: self@,
                },
                sql_content@,
                line_num as int,
            ).queries,
            views(final(pending)@) == sql_line(
                ParseState {
                    queries: queries_view(old(queries)@),
                    pending: views(old(pending)@),
                    delimiter: self@,
                },
                sql_content@,
                line_num as int,
            ).pending,
    {
        let t = trim_vec(sql_content);
        if t.len() == 0 {
            return ;
        }
        if ends_with_vec(&t, &self.delimiter) {
            let body = subvec(&t, 0, t.len() - self.delimiter.len());
            assert(body@ =~= t@.take(t.len() - self.delimiter@.len()));
            let c = trim_vec(&body);
            if c.len() > 0 {
                proof {
                    crate::text::lemma_views_push(pending@, c);
                }
                pending.push(c);
            }
            self.finalize_pending_sql_with_splitting(queries, pending, line_num);
        } else {
            proof {
                crate::text::lemma_views_push(pending@, t);
            }
            pending.push(t);
        }
    }

    /// `inc $v` / `dec $v`.
    fn var_arg(c: &Vec<char>, t: QueryType) -> (res: Option<(QueryType, Vec<char>)>)
        ensures
            match res {
                Some(p) => var_arg(c@, t) == Some((p.0, p.1@)),
                None => var_arg(c@, t) is None,
            },
    {
        let parts = split_ws_vec(c);
        assert(views(parts@).len() == parts@.len());
        if parts.len() == 2 && parts[1].len() > 0 && parts[1][0] == '$' {
            assert(views(parts@)[1] == parts@[1]@);
            let w = subvec(&parts[1], 0, parts[1].len());
            assert(w@ =~= parts@[1]@);
            Some((t, w))
        } else {
            proof {
                if parts@.len() == 2 {
                    assert(views(parts@)[1] == parts@[1]@);
                }
            }
            None
        }
    }

    /// `add $v, value` / `sub $v, value`.
    fn value_arg(c: &Vec<char>, t: QueryType) -> (res: Option<(QueryType, Vec<char>)>)
        ensures
            match res {
                Some(p) => value_arg(c@, t) == Some((p.0, p.1@)),
                None => value_arg(c@, t) is None,
            },
    {
        let parts = split_char(c, ',');
        assert(views(parts@).len() == parts@.len());
        if parts.len() != 2 {
            return None;
        }
        assert(views(parts@)[0] == parts@[0]@);
        assert(views(parts@)[1] == parts@[1]@);
        let head = trim_vec(&parts[0]);
        let words = split_ws_vec(&head);
        assert(views(words@).len() == words@.len());
        let var = if words.len() > 1 {
            assert(views(words@)[1] == words@[1]@);
            subvec(&words[1], 0, words[1].len())
        } else {
            Vec::new()
        };
        assert(var@ =~= (if views(words@).len() > 1 {
            views(words@)[1]
        } else {
            seq![]
        }));
        if var.len() > 0 && var[0] == '$' {
            let mut out = var;
            out.push(',');
            out.push(' ');
            let value = trim_vec(&parts[1]);
            push_all(&mut out, &value);
            Some((t, out))
        } else {
            None
        }
    }

    /// Recognises the bare commands that may stand on a SQL line.
    fn try_parse_new_syntax(&self, content: &Vec<char>, line_num: usize) -> (res: Option<Query>)
        ensures
            match res {
                Some(q) => new_syntax(content@) matches Some(p) && query_view(q) == (
                    p.0,
                    p.1,
                    line_num as int,
                ) && q.options.is_default(),
                None => new_syntax(content@) is None,
            },
    {
        let c = trim_vec(content);
        proof {
            reveal_strlit("batch_insert ");
            reveal_strlit("echo ");
            reveal_strlit("sleep ");
            reveal_strlit("error ");
            reveal_strlit("source ");
        }
        let found: Option<(QueryType, Vec<char>)> = if starts_with_str(&c, "inc ") {
            Self::var_arg(&c, QueryType::Inc)
        } else if starts_with_str(&c, "dec ") {
            Self::var_arg(&c, QueryType::Dec)
        } else if starts_with_str(&c, "add ") {
            Self::value_arg(&c, QueryType::Add)
        } else if starts_with_str(&c, "sub ") {
            Self::value_arg(&c, QueryType::Sub)
        } else if starts_with_str(&c, "batch_insert ") {
            let rest = subvec(&c, 13, c.len());
            assert(rest@ =~= c@.skip(13));
            Some((QueryType::BatchInsert, trim_vec(&rest)))
        } else if eq_str(&c, "batch_execute") {
            Some((QueryType::BatchExecute, Vec::new()))
        } else if eq_str(&c, "end_batch") {
            Some((QueryType::EndBatch, Vec::new()))
        } else if eq_str(&c, "begin_transaction") {
            Some((QueryType::BeginTransaction, Vec::new()))
        } else if eq_str(&c, "commit_transaction") {
            Some((QueryType::CommitTransaction, Vec::new()))
        } else if eq_str(&c, "rollback_transaction") {
            Some((QueryType::RollbackTransaction, Vec::new()))
        } else if starts_with_str(&c, "echo ") {
            let rest = subvec(&c, 5, c.len());
            assert(rest@ =~= c@.skip(5));
            Some((QueryType::Echo, rest))
        } else if starts_with_str(&c, "sleep ") {
            let rest = subvec(&c, 6, c.len());
            assert(rest@ =~= c@.skip(6));
            Some((QueryType::Sleep, rest))
        } else if starts_with_str(&c, "error ") {
            let rest = subvec(&c, 6, c.len());
            assert(rest@ =~= c@.skip(6));
            Some((QueryType::Error, rest))
        } else if eq_str(&c, "sorted_result") {
            Some((QueryType::SortedResult, Vec::new()))
        } else if starts_with_str(&c, "source ") {
            let rest = subvec(&c, 7, c.len());
            assert(rest@ =~= c@.skip(7));
            Some((QueryType::Source, rest))
        } else {
            None
        };
        match found {
            Some(p) => Some(plain_query(p.0, to_string(&p.1), line_num)),
            None => None,
        }
    }

    /// Looks a lower-case command name up in the command map.
    fn map_command_to_query_type(&self, command: &Vec<char>) -> (res: QueryType)
        ensures
            res == command_type(command@),
    {
        command_query_type(command)
    }

    /// Splits a command into its query type and its arguments.
    fn parse_command_pair(&self, command_content: &Vec<char>) -> (res: (QueryType, Vec<char>))
        ensures
            (res.0, res.1@) == command_parts(command_content@),
    {
        let c = command_content;
        let mut k: usize = 0;
        while k < c.len() && !is_whitespace(c[k]) && c[k] != '('
            invariant
                k <= c.len(),
                forall|m: int| 0 <= m < k ==> #[trigger] name_char()(c@[m]),
            decreases c.len() - k,
        {
            k += 1;
        }
        proof {
            crate::text::lemma_run_len_unique(c@, name_char(), k as int);
        }
        let name = subvec(c, 0, k);
        assert(name@ =~= c@.take(k as int));
        let lower = to_lowercase(to_string(&name).as_str());
        let lv = chars_of(lower.as_str());
        let t = self.map_command_to_query_type(&lv);
        let rest = subvec(c, k, c.len());
        assert(rest@ =~= c@.skip(k as int));
        (t, trim_start_vec(&rest))
    }

    /// `sql` trimmed, without a trailing delimiter.
    pub fn remove_delimiter(&self, sql: &str) -> (res: String)
        ensures
            res@ == (if ends_with(trim(sql@), self@) {
                trim(trim(sql@).take(trim(sql@).len() - self@.len()))
            } else {
                trim(sql@)
            }),
    {
        let t = trim_vec(&chars_of(sql));
        if ends_with_vec(&t, &self.delimiter) {
            let body = subvec(&t, 0, t.len() - self.delimiter.len());
            assert(body@ =~= t@.take(t.len() - self.delimiter@.len()));
            to_string(&trim_vec(&body))
        } else {
            to_string(&t)
        }
    }
}

impl PestParser {
    /// Ends the pending SQL, then adds a query.
    fn emit(
        &self,
        queries: &mut Vec<Query>,
        pending: &mut Vec<Vec<char>>,
        line_num: usize,
        query_type: QueryType,
        text: &Vec<char>,
    )
        requires
            all_default(old(queries)@),
        ensures
            all_default(final(queries)@),
            state_of(final(queries)@, final(pending)@, self@) == emit(
                state_of(old(queries)@, old(pending)@, self@),
                line_num as int,
                query_type,
                text@,
            ),
    {
        self.finalize_pending_sql(queries, pending, line_num);
        let q = plain_query(query_type, to_string(text), line_num);
        proof {
            crate::tester::query::lemma_queries_view_push(queries@, q);
        }
        queries.push(q);
    }

    /// Handles one line of a test file.
    fn process_line(
        &mut self,
        line: &Vec<char>,
        line_num: usize,
        queries: &mut Vec<Query>,
        pending: &mut Vec<Vec<char>>,
    )
        requires
            all_default(old(queries)@),
        ensures
            all_default(final(queries)@),
            state_of(final(queries)@, final(pending)@, final(self)@) == step(
                state_of(old(queries)@, old(pending)@, old(self)@),
                line@,
                line_num as int,
            ),
    {
        let rule = PestMySQLParser::classify(line);
        match rule {
            Rule::EmptyLine => {},
            Rule::Comment(text) => {
                let mut c: Vec<char> = Vec::new();
                c.push('#');
                push_all(&mut c, &text);
                assert(c@ =~= seq!['#'] + text@);
                self.emit(queries, pending, line_num, QueryType::Comment, &c);
            },
            Rule::DelimiterChange(v) => {
                self.emit(queries, pending, line_num, QueryType::Delimiter, &v);
                self.delimiter = v;
            },
            Rule::Command(c) => {
                let (t, args) = self.parse_command_pair(&c);
                self.emit(queries, pending, line_num, t, &args);
            },
            Rule::EndStmt => {
                let e: Vec<char> = Vec::new();
                self.emit(queries, pending, line_num, QueryType::End, &e);
            },
            Rule::IfStmt(c) => {
                self.emit(queries, pending, line_num, QueryType::If, &c);
            },
            Rule::WhileStmt(c) => {
                self.emit(queries, pending, line_num, QueryType::While, &c);
            },
            Rule::LetStmt(a) => {
                self.emit(queries, pending, line_num, QueryType::Let, &a);
            },
            Rule::SqlStatement(sql) => {
                match self.try_parse_new_syntax(&sql, line_num) {
                    Some(q) => {
                        self.finalize_pending_sql(queries, pending, line_num);
                        proof {
                            crate::tester::query::lemma_queries_view_push(queries@, q);
                        }
                        queries.push(q);
                    },
                    None => {
                        self.process_sql_line(pending, queries, &sql, line_num);
                    },
                }
            },
        }
    }
}

impl QueryParser for PestParser {
    /// Parses a test file. Every line is accepted, so parsing always
    /// succeeds; the delimiter in force at the end stays in force.
    fn parse(&mut self, content: &str) -> (res: Result<Vec<Query>, ParserError>)
        ensures
            res is Ok,
            queries_view(res->Ok_0@) == parse_spec(old(self)@, content@).queries,
            all_default(res->Ok_0@),
            final(self)@ == parse_spec(old(self)@, content@).delimiter,
    {
        let cs = chars_of(content);
        let ls = lines_of(&cs);
        let ghost vs = views(ls@);
        let ghost st0 = ParseState { queries: seq![], pending: seq![], delimiter: self@ };
        let mut queries: Vec<Query> = Vec::new();
        let mut pending: Vec<Vec<char>> = Vec::new();
        assert(state_of(queries@, pending@, self@) =~= st0);
        let mut k: usize = 0;
        while k < ls.len()
            invariant
                k <= ls.len(),
                vs == views(ls@),
                vs == lines(content@),
                all_default(queries@),
                state_of(queries@, pending@, self@) == run_lines(st0, vs, k as int),
            decreases ls.len() - k,
        {
            assert(vs[k as int] == ls@[k as int]@);
            self.process_line(&ls[k], k + 1, &mut queries, &mut pending);
            k += 1;
        }
        let last = if ls.len() > 0 {
            ls.len()
        } else {
            1
        };
        self.finalize_pending_sql(&mut queries, &mut pending, last);
        Ok(queries)
    }
}

} // verus!
