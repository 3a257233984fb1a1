//! Test-file model, parsing, variables and evaluation.

pub mod command;
pub mod connection_manager;
pub mod database;
pub mod error_handler;
pub mod expression;
pub mod parser;
pub mod pest_parser;
pub mod query;
pub mod replace_regex;
pub mod tester;
pub mod var_operations;
pub mod variables;
