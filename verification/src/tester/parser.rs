//! The parser interface and the command map.

use vstd::prelude::*;
use crate::text::{chars_of, eq_str, push_str, push_all, to_string};
use crate::unicode::{spec_to_lowercase, to_lowercase};
use crate::tester::query::{Query, QueryType};
use crate::tester::pest_parser::PestParser;

verus! {

/// Why a parser could not be made or could not parse.
#[derive(Debug, Clone)]
pub enum ParserError {
    /// `create_parser` was given a name it does not know.
    UnknownParserType(String),
}

pub enum ParserErrorView {
    UnknownParserType(Seq<char>),
}

impl View for ParserError {
    type V = ParserErrorView;

    open spec fn view(&self) -> ParserErrorView {
        match self {
            ParserError::UnknownParserType(s) => ParserErrorView::UnknownParserType(s@),
        }
    }
}

impl ParserError {
    /// The text of the error.
    pub fn message(&self) -> (res: String)
        ensures
            res@ == (match self@ {
                ParserErrorView::UnknownParserType(s) => "Unknown parser type: "@ + s,
            }),
    {
        match self {
            ParserError::UnknownParserType(s) => {
                let mut v: Vec<char> = Vec::new();
                push_str(&mut v, "Unknown parser type: ");
                push_str(&mut v, s.as_str());
                to_string(&v)
            },
        }
    }
}

/// Parses the content of a `.test` file into queries.
pub trait QueryParser {
    fn parse(&mut self, content: &str) -> Result<Vec<Query>, ParserError>;
}

/// The parser used when none is named.
pub fn default_parser() -> (res: PestParser)
    ensures
        res@ == seq![';'],
{
    PestParser::new()
}

/// Makes the parser of the given name: `pest` and `default` (in any case)
/// name the one parser there is.
pub fn create_parser(parser_type: &str) -> (res: Result<PestParser, ParserError>)
    ensures
        res is Ok <==> (spec_to_lowercase(parser_type@) == "pest"@ || spec_to_lowercase(
            parser_type@,
        ) == "default"@),
        res is Ok ==> res->Ok_0@ == seq![';'],
        res is Err ==> res->Err_0@ == ParserErrorView::UnknownParserType(parser_type@),
{
    let lower = to_lowercase(parser_type);
    let lv = chars_of(lower.as_str());
    if eq_str(&lv, "pest") || eq_str(&lv, "default") {
        Ok(PestParser::new())
    } else {
        Err(ParserError::UnknownParserType(String::from_str(parser_type)))
    }
}

/// The command map: the query type of each command name.
pub open spec fn command_type(name: Seq<char>) -> QueryType {
    if name == "query"@ {
        QueryType::Query
    } else if name == "exec"@ {
        QueryType::Exec
    } else if name == "admin"@ {
        QueryType::Admin
    } else if name == "error"@ {
        QueryType::Error
    } else if name == "fatal"@ {
        QueryType::Fatal
    } else if name == "echo"@ {
        QueryType::Echo
    } else if name == "sleep"@ {
        QueryType::Sleep
    } else if name == "replace_regex"@ {
        QueryType::ReplaceRegex
    } else if name == "replace_column"@ {
        QueryType::ReplaceColumn
    } else if name == "replace_result"@ {
        QueryType::Replace
    } else if name == "let"@ {
        QueryType::Let
    } else if name == "eval"@ {
        QueryType::Eval
    } else if name == "require"@ {
        QueryType::Require
    } else if name == "source"@ {
        QueryType::Source
    } else if name == "comment"@ {
        QueryType::Comment
    } else if name == "connect"@ {
        QueryType::Connect
    } else if name == "connection"@ {
        QueryType::Connection
    } else if name == "disconnect"@ {
        QueryType::Disconnect
    } else if name == "delimiter"@ {
        QueryType::Delimiter
    } else if name == "disable_query_log"@ {
        QueryType::DisableQueryLog
    } else if name == "enable_query_log"@ {
        QueryType::EnableQueryLog
    } else if name == "disable_result_log"@ {
        QueryType::DisableResultLog
    } else if name == "enable_result_log"@ {
        QueryType::EnableResultLog
    } else if name == "sorted_result"@ {
        QueryType::SortedResult
    } else if name == "enable_sort_result"@ {
        QueryType::EnableSortResult
    } else if name == "disable_sort_result"@ {
        QueryType::DisableSortResult
    } else if name == "change_user"@ {
        QueryType::ChangeUser
    } else if name == "eof"@ {
        QueryType::EndOfFile
    } else if name == "begin_concurrent"@ {
        QueryType::BeginConcurrent
    } else if name == "end_concurrent"@ {
        QueryType::EndConcurrent
    } else if name == "concurrent"@ {
        QueryType::Concurrent
    } else if name == "vertical_results"@ {
        QueryType::VerticalResults
    } else if name == "horizontal_results"@ {
        QueryType::HorizontalResults
    } else if name == "send"@ {
        QueryType::Send
    } else if name == "recv"@ {
        QueryType::Recv
    } else if name == "wait"@ {
        QueryType::Wait
    } else if name == "real_sleep"@ {
        QueryType::RealSleep
    } else if name == "query_async"@ {
        QueryType::QueryAsync
    } else if name == "block"@ {
        QueryType::Block
    } else if name == "unblock"@ {
        QueryType::Unblock
    } else if name == "checkpoint"@ {
        QueryType::Checkpoint
    } else if name == "restart"@ {
        QueryType::Restart
    } else if name == "ping"@ {
        QueryType::Ping
    } else if name == "skip"@ {
        QueryType::Skip
    } else if name == "exit"@ {
        QueryType::Exit
    } else if name == "if"@ {
        QueryType::If
    } else if name == "while"@ {
        QueryType::While
    } else if name == "end"@ {
        QueryType::End
    } else {
        QueryType::Unknown
    }
}

/// Looks a (lower-case) command name up in the command map; `Unknown` when
/// it is not there.
pub fn command_query_type(name: &Vec<char>) -> (res: QueryType)
    ensures
        res == command_type(name@),
{
    if eq_str(name, "query") {
        QueryType::Query
    } else if eq_str(name, "exec") {
        QueryType::Exec
    } else if eq_str(name, "admin") {
        QueryType::Admin
    } else if eq_str(name, "error") {
        QueryType::Error
    } else if eq_str(name, "fatal") {
        QueryType::Fatal
    } else if eq_str(name, "echo") {
        QueryType::Echo
    } else if eq_str(name, "sleep") {
        QueryType::Sleep
    } else if eq_str(name, "replace_regex") {
        QueryType::ReplaceRegex
    } else if eq_str(name, "replace_column") {
        QueryType::ReplaceColumn
    } else if eq_str(name, "replace_result") {
        QueryType::Replace
    } else if eq_str(name, "let") {
        QueryType::Let
    } else if eq_str(name, "eval") {
        QueryType::Eval
    } else if eq_str(name, "require") {
        QueryType::Require
    } else if eq_str(name, "source") {
        QueryType::Source
    } else if eq_str(name, "comment") {
        QueryType::Comment
    } else if eq_str(name, "connect") {
        QueryType::Connect
    } else if eq_str(name, "connection") {
        QueryType::Connection
    } else if eq_str(name, "disconnect") {
        QueryType::Disconnect
    } else if eq_str(name, "delimiter") {
        QueryType::Delimiter
    } else if eq_str(name, "disable_query_log") {
        QueryType::DisableQueryLog
    } else if eq_str(name, "enable_query_log") {
        QueryType::EnableQueryLog
    } else if eq_str(name, "disable_result_log") {
        QueryType::DisableResultLog
    } else if eq_str(name, "enable_result_log") {
        QueryType::EnableResultLog
    } else if eq_str(name, "sorted_result") {
        QueryType::SortedResult
    } else if eq_str(name, "enable_sort_result") {
        QueryType::EnableSortResult
    } else if eq_str(name, "disable_sort_result") {
        QueryType::DisableSortResult
    } else if eq_str(name, "change_user") {
        QueryType::ChangeUser
    } else if eq_str(name, "eof") {
        QueryType::EndOfFile
    } else if eq_str(name, "begin_concurrent") {
        QueryType::BeginConcurrent
    } else if eq_str(name, "end_concurrent") {
        QueryType::EndConcurrent
    } else if eq_str(name, "concurrent") {
        QueryType::Concurrent
    } else if eq_str(name, "vertical_results") {
        QueryType::VerticalResults
    } else if eq_str(name, "horizontal_results") {
        QueryType::HorizontalResults
    } else if eq_str(name, "send") {
        QueryType::Send
    } else if eq_str(name, "recv") {
        QueryType::Recv
    } else if eq_str(name, "wait") {
        QueryType::Wait
    } else if eq_str(name, "real_sleep") {
        QueryType::RealSleep
    } else if eq_str(name, "query_async") {
        QueryType::QueryAsync
    } else if eq_str(name, "block") {
        QueryType::Block
    } else if eq_str(name, "unblock") {
        QueryType::Unblock
    } else if eq_str(name, "checkpoint") {
        QueryType::Checkpoint
    } else if eq_str(name, "restart") {
        QueryType::Restart
    } else if eq_str(name, "ping") {
        QueryType::Ping
    } else if eq_str(name, "skip") {
        QueryType::Skip
    } else if eq_str(name, "exit") {
        QueryType::Exit
    } else if eq_str(name, "if") {
        QueryType::If
    } else if eq_str(name, "while") {
        QueryType::While
    } else if eq_str(name, "end") {
        QueryType::End
    } else {
        QueryType::Unknown
    }
}

} // verus!
