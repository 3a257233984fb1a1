//! Errors that carry a context message, and parsing with such errors.

use vstd::prelude::*;
use crate::text::{chars_of, push_str, to_string, parse_u16_vec, parse_u32_vec, parse_unsigned};

verus! {

/// An error described by its message.
#[derive(Debug, Clone)]
pub struct ContextError {
    pub message: String,
}

impl ContextError {
    /// The text of the error.
    pub fn message(&self) -> (res: String)
        ensures
            res@ == self.message@,
    {
        self.message.clone()
    }
}

/// Turns an absent value into an error with a message.
pub trait OptionExt<T>: Sized {
    fn or_context(self, context: &str) -> Result<T, ContextError>;
}

impl<T> OptionExt<T> for Option<T> {
    /// `Some(v)` gives `Ok(v)`; `None` gives an error whose message is `context`.
    fn or_context(self, context: &str) -> (res: Result<T, ContextError>)
        ensures
            match self {
                Some(v) => res == Ok::<T, ContextError>(v),
                None => res is Err && res->Err_0.message@ == context@,
            },
    {
        match self {
            Some(v) => Ok(v),
            None => Err(ContextError { message: String::from_str(context) }),
        }
    }
}

/// The message of a failed parse: `Failed to parse FIELD as TYPE: 'TEXT'`.
pub open spec fn parse_failure(field: Seq<char>, kind_name: Seq<char>, text: Seq<char>) -> Seq<
    char,
> {
    "Failed to parse "@ + field + " as "@ + kind_name + ": '"@ + text + "'"@
}

fn parse_failure_message(field: &str, kind_name: &str, text: &str) -> (res: String)
    ensures
        res@ == parse_failure(field@, kind_name@, text@),
{
    let mut v: Vec<char> = Vec::new();
    push_str(&mut v, "Failed to parse ");
    push_str(&mut v, field);
    push_str(&mut v, " as ");
    push_str(&mut v, kind_name);
    push_str(&mut v, ": '");
    push_str(&mut v, text);
    push_str(&mut v, "'");
    to_string(&v)
}

/// Parsing of command-line and test-file numbers.
pub struct SafeParse;

impl SafeParse {
    /// Parses `s` as a `u16` (an optional `+`, then decimal digits whose
    /// value fits); on failure the message names the field and the text.
    pub fn parse_u16(s: &str, field_name: &str) -> (res: Result<u16, ContextError>)
        ensures
            match parse_unsigned(s@, 65535) {
                Some(n) => res == Ok::<u16, ContextError>(n as u16),
                None => res is Err && res->Err_0.message@ == parse_failure(
                    field_name@,
                    "u16"@,
                    s@,
                ),
            },
    {
        match parse_u16_vec(&chars_of(s)) {
            Some(n) => Ok(n),
            None => Err(ContextError { message: parse_failure_message(field_name, "u16", s) }),
        }
    }

    /// Parses `s` as a `u32`, as `parse_u16` does for `u16`.
    pub fn parse_u32(s: &str, field_name: &str) -> (res: Result<u32, ContextError>)
        ensures
            match parse_unsigned(s@, 4294967295) {
                Some(n) => res == Ok::<u32, ContextError>(n as u32),
                None => res is Err && res->Err_0.message@ == parse_failure(
                    field_name@,
                    "u32"@,
                    s@,
                ),
            },
    {
        match parse_u32_vec(&chars_of(s)) {
            Some(n) => Ok(n),
            None => Err(ContextError { message: parse_failure_message(field_name, "u32", s) }),
        }
    }
}

} // verus!
