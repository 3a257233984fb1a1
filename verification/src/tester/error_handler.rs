//! Matching of server errors against the errors a test expects.

use vstd::prelude::*;
use vstd::hash_map::StringHashMap;
use crate::text::{
    chars_of, trim, trim_vec, push_str, push_all, push_decimal, decimal, to_string, parse_u16_vec,
    parse_unsigned, debug_strings, spec_debug_strings, string_views,
};

verus! {

/// The error names a test may expect, with their server error codes.
pub open spec fn error_codes() -> Map<Seq<char>, u16> {
    Map::<Seq<char>, u16>::empty()
        .insert("ER_DUP_KEY"@, 1022)
        .insert("ER_DUP_ENTRY"@, 1062)
        .insert("ER_NO_SUCH_TABLE"@, 1146)
        .insert("ER_TABLE_EXISTS_ERROR"@, 1050)
        .insert("ER_BAD_FIELD_ERROR"@, 1054)
        .insert("ER_PARSE_ERROR"@, 1064)
        .insert("ER_NO_SUCH_INDEX"@, 1082)
        .insert("ER_KEY_COLUMN_DOES_NOT_EXITS"@, 1072)
        .insert("ER_WRONG_VALUE_COUNT_ON_ROW"@, 1136)
        .insert("ER_ACCESS_DENIED_ERROR"@, 1045)
        .insert("ER_DBACCESS_DENIED_ERROR"@, 1044)
        .insert("ER_TABLEACCESS_DENIED_ERROR"@, 1142)
        .insert("ER_COLUMNACCESS_DENIED_ERROR"@, 1143)
        .insert("ER_DATA_TOO_LONG"@, 1406)
        .insert("ER_WARN_DATA_OUT_OF_RANGE"@, 1264)
        .insert("ER_DIVISION_BY_ZERO"@, 1365)
        .insert("ER_BAD_NULL_ERROR"@, 1048)
        .insert("ER_NON_UNIQ_ERROR"@, 1052)
        .insert("ER_WRONG_AUTO_KEY"@, 1075)
        .insert("ER_WRONG_VALUE_FOR_VAR"@, 1231)
        .insert("ER_UNKNOWN_SYSTEM_VARIABLE"@, 1193)
        .insert("ER_CANT_DROP_FIELD_OR_KEY"@, 1091)
        .insert("ER_TOO_MANY_KEYS"@, 1069)
        .insert("ER_TOO_MANY_KEY_PARTS"@, 1070)
        .insert("ER_TOO_LONG_KEY"@, 1071)
        .insert("ER_BLOB_USED_AS_KEY"@, 1073)
        .insert("ER_TOO_BIG_FIELDLENGTH"@, 1074)
        .insert("ER_WRONG_FIELD_SPEC"@, 1063)
        .insert("ER_EMPTY_QUERY"@, 1065)
        .insert("ER_NONUNIQ_TABLE"@, 1066)
        .insert("ER_INVALID_DEFAULT"@, 1067)
        .insert("ER_MULTIPLE_PRI_KEY"@, 1068)
}

/// An error from the database, as the runner reads it.
#[derive(Debug, Clone)]
pub enum DbError {
    /// An error reported by the server; `text` is how the client writes the
    /// whole error.
    Server { code: u16, state: String, message: String, text: String },
    /// An error of the client driver: the driver's own text, and the whole.
    Driver { detail: String, text: String },
    /// Any other error of the database client, with its text.
    Client(String),
    /// An error that did not come from the database client, with its text.
    Runner(String),
}

/// How an error is written as a whole.
pub open spec fn db_error_text(e: DbError) -> Seq<char> {
    match e {
        DbError::Server { text, .. } => text@,
        DbError::Driver { text, .. } => text@,
        DbError::Client(t) => t@,
        DbError::Runner(t) => t@,
    }
}

impl DbError {
    /// How the error is written as a whole.
    pub fn text(&self) -> (res: String)
        ensures
            res@ == db_error_text(*self),
    {
        match self {
            DbError::Server { text, .. } => text.clone(),
            DbError::Driver { text, .. } => text.clone(),
            DbError::Client(t) => t.clone(),
            DbError::Runner(t) => t.clone(),
        }
    }
}

/// Whether one expected error accepts a server error code: `0` accepts any
/// error; a number accepts that code; a known name accepts its code.
pub open spec fn accepts(expected: Seq<char>, code: Option<u16>) -> bool {
    let e = trim(expected);
    ||| e == "0"@
    ||| (parse_unsigned(e, 65535) matches Some(n) && code == Some(n as u16))
    ||| (error_codes().contains_key(e) && code == Some(error_codes()[e]))
}

/// The text written for an error: `ERROR code (state): message` for a
/// server error, `ERROR (Driver): text` for a driver error, else `ERROR: `
/// and the error's text.
pub open spec fn format_db_error(e: DbError) -> Seq<char> {
    match e {
        DbError::Server { code, state, message, .. } => "ERROR "@ + decimal(code as nat) + " ("@
            + state@ + "): "@ + message@,
        DbError::Driver { detail, .. } => "ERROR (Driver): "@ + detail@,
        DbError::Client(t) => "ERROR: "@ + t@,
        DbError::Runner(t) => "ERROR: "@ + t@,
    }
}

/// Maps error names to server error codes.
pub struct MySQLErrorHandler {
    error_name_map: StringHashMap<u16>,
}

impl MySQLErrorHandler {
    /// The map always holds exactly the standard error names.
    #[verifier::type_invariant]
    spec fn knows_standard_names(&self) -> bool {
        self.error_name_map@ == error_codes()
    }

    /// The error names the handler knows, with their codes.
    pub closed spec fn names(&self) -> Map<Seq<char>, u16> {
        self.error_name_map@
    }

    /// The error names the handler knows, with their codes.
    pub fn error_name_map(&self) -> (res: &StringHashMap<u16>)
        ensures
            res@ == error_codes(),
    {
        proof {
            use_type_invariant(self);
        }
        &self.error_name_map
    }

    /// A handler that knows the standard error names.
    pub fn new() -> (res: Self)
        ensures
            res.names() == error_codes(),
    {
        let mut map: StringHashMap<u16> = StringHashMap::new();
        map.insert(String::from_str("ER_DUP_KEY"), 1022);
        map.insert(String::from_str("ER_DUP_ENTRY"), 1062);
        map.insert(String::from_str("ER_NO_SUCH_TABLE"), 1146);
        map.insert(String::from_str("ER_TABLE_EXISTS_ERROR"), 1050);
        map.insert(String::from_str("ER_BAD_FIELD_ERROR"), 1054);
        map.insert(String::from_str("ER_PARSE_ERROR"), 1064);
        map.insert(String::from_str("ER_NO_SUCH_INDEX"), 1082);
        map.insert(String::from_str("ER_KEY_COLUMN_DOES_NOT_EXITS"), 1072);
        map.insert(String::from_str("ER_WRONG_VALUE_COUNT_ON_ROW"), 1136);
        map.insert(String::from_str("ER_ACCESS_DENIED_ERROR"), 1045);
        map.insert(String::from_str("ER_DBACCESS_DENIED_ERROR"), 1044);
        map.insert(String::from_str("ER_TABLEACCESS_DENIED_ERROR"), 1142);
        map.insert(String::from_str("ER_COLUMNACCESS_DENIED_ERROR"), 1143);
        map.insert(String::from_str("ER_DATA_TOO_LONG"), 1406);
        map.insert(String::from_str("ER_WARN_DATA_OUT_OF_RANGE"), 1264);
        map.insert(String::from_str("ER_DIVISION_BY_ZERO"), 1365);
        map.insert(String::from_str("ER_BAD_NULL_ERROR"), 1048);
        map.insert(String::from_str("ER_NON_UNIQ_ERROR"), 1052);
        map.insert(String::from_str("ER_WRONG_AUTO_KEY"), 1075);
        map.insert(String::from_str("ER_WRONG_VALUE_FOR_VAR"), 1231);
        map.insert(String::from_str("ER_UNKNOWN_SYSTEM_VARIABLE"), 1193);
        map.insert(String::from_str("ER_CANT_DROP_FIELD_OR_KEY"), 1091);
        map.insert(String::from_str("ER_TOO_MANY_KEYS"), 1069);
        map.insert(String::from_str("ER_TOO_MANY_KEY_PARTS"), 1070);
        map.insert(String::from_str("ER_TOO_LONG_KEY"), 1071);
        map.insert(String::from_str("ER_BLOB_USED_AS_KEY"), 1073);
        map.insert(String::from_str("ER_TOO_BIG_FIELDLENGTH"), 1074);
        map.insert(String::from_str("ER_WRONG_FIELD_SPEC"), 1063);
        map.insert(String::from_str("ER_EMPTY_QUERY"), 1065);
        map.insert(String::from_str("ER_NONUNIQ_TABLE"), 1066);
        map.insert(String::from_str("ER_INVALID_DEFAULT"), 1067);
        map.insert(String::from_str("ER_MULTIPLE_PRI_KEY"), 1068);
        MySQLErrorHandler { error_name_map: map }
    }

    /// Whether one of the expected errors accepts the error; an error that
    /// did not come from the server has no code, so only `0` accepts it.
    pub fn check_expected_error(&self, error_code: Option<u16>, expected_errors: &[String]) -> (res:
        bool)
        ensures
            res <==> exists|i: int|
                0 <= i < expected_errors@.len() && accepts(#[trigger] expected_errors@[i]@, error_code),
    {
        proof {
            use_type_invariant(self);
        }
        let mut i: usize = 0;
        while i < expected_errors.len()
            invariant
                i <= expected_errors@.len(),
                self.error_name_map@ == error_codes(),
                forall|j: int| 0 <= j < i ==> !accepts(#[trigger] expected_errors@[j]@, error_code),
            decreases expected_errors.len() - i,
        {
            let e = trim_vec(&chars_of(expected_errors[i].as_str()));
            if e.len() == 1 && e[0] == '0' {
                proof {
                    reveal_strlit("0");
                    assert(e@ =~= "0"@);
                }
                return true;
            }
            match parse_u16_vec(&e) {
                Some(n) => {
                    match error_code {
                        Some(c) => {
                            if c == n {
                                return true;
                            }
                        },
                        None => {},
                    }
                },
                None => {},
            }
            let name = to_string(&e);
            match self.error_name_map.get(name.as_str()) {
                Some(mapped) => {
                    match error_code {
                        Some(c) => {
                            if c == *mapped {
                                return true;
                            }
                        },
                        None => {},
                    }
                },
                None => {},
            }
            proof {
                reveal_strlit("0");
                if e@ == "0"@ {
                    assert(e@.len() == 1 && e@[0] == '0');
                }
            }
            i += 1;
        }
        false
    }

    /// The server error code, if the error came from the server.
    pub fn get_error_code(&self, error: &DbError) -> (res: Option<u16>)
        ensures
            res == (match error {
                DbError::Server { code, .. } => Some(*code),
                _ => None,
            }),
    {
        match error {
            DbError::Server { code, .. } => Some(*code),
            _ => None,
        }
    }

    /// The text written for an error (see `format_db_error`).
    pub fn format_error(&self, error: &DbError) -> (res: String)
        ensures
            res@ == format_db_error(*error),
    {
        let mut v: Vec<char> = Vec::new();
        match error {
            DbError::Server { code, state, message, .. } => {
                push_str(&mut v, "ERROR ");
                push_decimal(&mut v, *code as u64);
                push_str(&mut v, " (");
                push_str(&mut v, state.as_str());
                push_str(&mut v, "): ");
                push_str(&mut v, message.as_str());
            },
            DbError::Driver { detail, .. } => {
                push_str(&mut v, "ERROR (Driver): ");
                push_str(&mut v, detail.as_str());
            },
            DbError::Client(t) => {
                push_str(&mut v, "ERROR: ");
                push_str(&mut v, t.as_str());
            },
            DbError::Runner(t) => {
                push_str(&mut v, "ERROR: ");
                push_str(&mut v, t.as_str());
            },
        }
        to_string(&v)
    }
}

impl Default for MySQLErrorHandler {
    fn default() -> (res: Self)
        ensures
            res.names() == error_codes(),
    {
        Self::new()
    }
}

/// How a query's outcome compares with the errors it was expected to raise.
#[derive(Debug, Clone)]
pub enum ErrorCheckResult {
    /// No error expected, none occurred.
    NoError,
    /// An error was expected and the one that occurred matched.
    ExpectedError(String),
    /// An error was expected, but another one occurred.
    UnexpectedError { expected: Vec<String>, actual: String },
    /// No error was expected, but one occurred.
    UnexpectedErrorOccurred(String),
}

impl ErrorCheckResult {
    /// Whether the outcome is as expected.
    pub fn is_success(&self) -> (res: bool)
        ensures
            res <==> (self is NoError || self is ExpectedError),
    {
        match self {
            ErrorCheckResult::NoError => true,
            ErrorCheckResult::ExpectedError(_) => true,
            _ => false,
        }
    }

    /// The failure message, when the outcome is not as expected.
    pub fn error_message(&self) -> (res: Option<String>)
        ensures
            match self {
                ErrorCheckResult::NoError => res is None,
                ErrorCheckResult::ExpectedError(_) => res is None,
                ErrorCheckResult::UnexpectedError { expected, actual } => res is Some && res->0@
                    == "Expected error(s) "@ + spec_debug_strings(string_views(expected@))
                    + ", but got: "@ + actual@,
                ErrorCheckResult::UnexpectedErrorOccurred(msg) => res is Some && res->0@
                    == "Unexpected error: "@ + msg@,
            },
    {
        match self {
            ErrorCheckResult::NoError => None,
            ErrorCheckResult::ExpectedError(_) => None,
            ErrorCheckResult::UnexpectedError { expected, actual } => {
                let mut v: Vec<char> = Vec::new();
                push_str(&mut v, "Expected error(s) ");
                let d = debug_strings(expected);
                push_str(&mut v, d.as_str());
                push_str(&mut v, ", but got: ");
                push_str(&mut v, actual.as_str());
                Some(to_string(&v))
            },
            ErrorCheckResult::UnexpectedErrorOccurred(msg) => {
                let mut v: Vec<char> = Vec::new();
                push_str(&mut v, "Unexpected error: ");
                push_str(&mut v, msg.as_str());
                Some(to_string(&v))
            },
        }
    }
}


/// A known error name (one that is not itself a number) accepts a server
/// error exactly when the error's code is the code the name stands for, and
/// never accepts an error that has no code.
pub proof fn law_error_name_accepts_only_its_code(expected: Seq<char>, code: u16)
    requires
        error_codes().contains_key(trim(expected)),
        parse_unsigned(trim(expected), 65535) is None,
    ensures
        accepts(expected, Some(code)) <==> code == error_codes()[trim(expected)],
        !accepts(expected, None),
{
    reveal_strlit("0");
    if trim(expected) == "0"@ {
        let d = trim(expected);
        assert(d.len() == 1 && d[0] == '0');
        assert(crate::text::all_digits(d));
        assert(d.drop_last() =~= Seq::<char>::empty());
        assert(crate::text::digits_value(Seq::<char>::empty()) == 0);
    }
}

/// Zero accepts every error; a number accepts exactly the error with that
/// code.
pub proof fn law_error_number_accepts_only_its_code(expected: Seq<char>, code: u16)
    requires
        parse_unsigned(trim(expected), 65535) is Some,
        trim(expected) != "0"@,
        !error_codes().contains_key(trim(expected)),
    ensures
        accepts(expected, Some(code)) <==> code == parse_unsigned(trim(expected), 65535)->0,
{
}

} // verus!
