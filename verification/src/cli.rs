//! The runner's settings and their validation.

use vstd::prelude::*;
use crate::text::{
    chars_of, trim, trim_vec, push_str, to_string, split, split_char, split_trimmed, split_trim,
    views, contains_char, eq_str, parse_unsigned, parse_u16_vec, contains, contains_vec, utf8_len,
    utf8_len_at_least,
};
use crate::unicode::{spec_to_lowercase, to_lowercase};

verus! {

/// The runner's settings, as given on the command line.
#[derive(Debug, Clone)]
pub struct Args {
    pub host: String,
    pub port: String,
    pub user: String,
    pub passwd: String,
    /// One of error, warn, info, debug, trace.
    pub log_level: String,
    /// Record output to result files instead of comparing with them.
    pub record: bool,
    /// Extra connection parameters.
    pub params: String,
    /// Run every test under `t/`.
    pub all: bool,
    /// Keep each test's schema afterwards.
    pub reserve_schema: bool,
    pub xunit_file: String,
    /// terminal, html, plain, xunit or allure.
    pub report_format: String,
    pub allure_dir: String,
    pub retry_conn_count: i32,
    /// Fail a query whose error is not the expected one (else only warn).
    pub check_err: bool,
    pub collation_disable: bool,
    /// The extension of result files.
    pub extension: String,
    pub email_enable: bool,
    pub email_smtp_host: String,
    pub email_smtp_port: i32,
    pub email_username: String,
    pub email_password: String,
    pub email_from: String,
    /// Comma separated recipients.
    pub email_to: String,
    pub email_enable_tls: bool,
    /// Tests to run: directories, names, file names or paths.
    pub test_files: Vec<String>,
    /// Stop a test at its first failing query.
    pub fail_fast: bool,
}

/// A test found for an input: its name and the path of its file.
#[derive(Debug, Clone)]
pub struct ResolvedTest {
    pub name: String,
    pub path: String,
}

/// Where and how test reports are mailed.
#[derive(Debug, Clone)]
pub struct EmailConfig {
    pub smtp_host: String,
    pub smtp_port: u16,
    pub username: String,
    pub password: String,
    pub from: String,
    pub to: Vec<String>,
    pub enable_tls: bool,
    pub subject: String,
    pub attach_xunit: bool,
}

/// A refused setting, with its message.
#[derive(Debug, Clone)]
pub struct CliError {
    pub message: String,
}

impl CliError {
    pub fn message(&self) -> (res: String)
        ensures
            res@ == self.message@,
    {
        self.message.clone()
    }
}

pub open spec fn known_log_level(l: Seq<char>) -> bool {
    l == "error"@ || l == "warn"@ || l == "info"@ || l == "debug"@ || l == "trace"@
}

/// A recipient is accepted when, trimmed, it holds `@` and takes at least
/// five bytes in UTF-8.
pub open spec fn valid_address(a: Seq<char>) -> bool {
    trim(a).contains('@') && utf8_len(trim(a)) >= 5
}

/// The first refused recipient, if any.
pub open spec fn first_invalid_address(parts: Seq<Seq<char>>) -> Option<Seq<char>>
    decreases parts.len(),
{
    if parts.len() == 0 {
        None
    } else if !valid_address(parts[0]) {
        Some(trim(parts[0]))
    } else {
        first_invalid_address(parts.drop_first())
    }
}

/// The message of the first email setting refused, if any.
pub open spec fn email_config_error(a: Args) -> Option<Seq<char>> {
    if !a.email_enable {
        None
    } else if a.email_smtp_host@.len() == 0 {
        Some("SMTP host is required when email is enabled"@)
    } else if a.email_username@.len() == 0 {
        Some("Email username is required when email is enabled"@)
    } else if a.email_password@.len() == 0 {
        Some("Email password is required when email is enabled"@)
    } else if a.email_to@.len() == 0 {
        Some("Email recipients are required when email is enabled"@)
    } else if first_invalid_address(split(a.email_to@, ',')) is Some {
        Some("Invalid email address: "@ + first_invalid_address(split(a.email_to@, ','))->0)
    } else {
        None
    }
}

/// The message of the first setting refused, if any.
pub open spec fn args_error(a: Args) -> Option<Seq<char>> {
    if parse_unsigned(a.port@, 65535) is None {
        Some("Invalid port: "@ + a.port@)
    } else if !known_log_level(spec_to_lowercase(a.log_level@)) {
        Some("Invalid log level: "@ + a.log_level@)
    } else if a.retry_conn_count < 1 {
        Some("Retry connection count must be at least 1"@)
    } else if !a.all && a.test_files@.len() == 0 {
        Some("No test files specified. Use --all to run all tests or specify test files."@)
    } else {
        email_config_error(a)
    }
}

pub open spec fn error_is(res: Result<(), CliError>, e: Option<Seq<char>>) -> bool {
    match e {
        None => res is Ok,
        Some(m) => res is Err && res->Err_0.message@ == m,
    }
}

fn err_with(prefix: &str, rest: &str) -> (res: CliError)
    ensures
        res.message@ == prefix@ + rest@,
{
    let mut v: Vec<char> = Vec::new();
    push_str(&mut v, prefix);
    push_str(&mut v, rest);
    CliError { message: to_string(&v) }
}

impl Args {
    /// Checks the settings; the error names the first one refused.
    pub fn validate(&self) -> (res: Result<(), CliError>)
        ensures
            error_is(res, args_error(*self)),
    {
        if parse_u16_vec(&chars_of(self.port.as_str())).is_none() {
            return Err(err_with("Invalid port: ", self.port.as_str()));
        }
        let lower = to_lowercase(self.log_level.as_str());
        let l = chars_of(lower.as_str());
        if !(eq_str(&l, "error") || eq_str(&l, "warn") || eq_str(&l, "info") || eq_str(&l, "debug")
            || eq_str(&l, "trace")) {
            return Err(err_with("Invalid log level: ", self.log_level.as_str()));
        }
        if self.retry_conn_count < 1 {
            return Err(CliError { message: String::from_str("Retry connection count must be at least 1") });
        }
        if !self.all && self.test_files.len() == 0 {
            return Err(
                CliError {
                    message: String::from_str(
                        "No test files specified. Use --all to run all tests or specify test files.",
                    ),
                },
            );
        }
        self.validate_email_config()
    }

    /// Checks the email settings, when email is enabled.
    pub fn validate_email_config(&self) -> (res: Result<(), CliError>)
        ensures
            error_is(res, email_config_error(*self)),
    {
        if !self.email_enable {
            return Ok(());
        }
        if chars_of(self.email_smtp_host.as_str()).len() == 0 {
            return Err(CliError { message: String::from_str("SMTP host is required when email is enabled") });
        }
        if chars_of(self.email_username.as_str()).len() == 0 {
            return Err(CliError { message: String::from_str("Email username is required when email is enabled") });
        }
        if chars_of(self.email_password.as_str()).len() == 0 {
            return Err(CliError { message: String::from_str("Email password is required when email is enabled") });
        }
        if chars_of(self.email_to.as_str()).len() == 0 {
            return Err(
                CliError {
                    message: String::from_str("Email recipients are required when email is enabled"),
                },
            );
        }
        let parts = split_char(&chars_of(self.email_to.as_str()), ',');
        let ghost pv = views(parts@);
        let mut i: usize = 0;
        assert(pv.skip(0) =~= pv);
        while i < parts.len()
            invariant
                i <= parts.len(),
                pv == views(parts@),
                pv == split(self.email_to@, ','),
                first_invalid_address(pv) == first_invalid_address(pv.skip(i as int)),
                self.email_enable,
                self.email_smtp_host@.len() > 0,
                self.email_username@.len() > 0,
                self.email_password@.len() > 0,
                self.email_to@.len() > 0,
            decreases parts.len() - i,
        {
            assert(pv[i as int] == parts@[i as int]@);
            let a = trim_vec(&parts[i]);
            assert(pv.skip(i as int)[0] == pv[i as int]);
            assert(a@ == trim(pv.skip(i as int)[0]));
            if !(contains_char(&a, '@') && utf8_len_at_least(&a, 5)) {
                assert(!valid_address(pv.skip(i as int)[0]));
                assert(first_invalid_address(pv.skip(i as int)) == Some(a@));
                let msg = to_string(&a);
                return Err(err_with("Invalid email address: ", msg.as_str()));
            }
            assert(pv.skip(i as int).drop_first() =~= pv.skip(i + 1));
            i += 1;
        }
        assert(pv.skip(i as int).len() == 0);
        Ok(())
    }
}

/// The non-empty parts, in order.
pub open spec fn nonempty_parts(parts: Seq<Seq<char>>) -> Seq<Seq<char>>
    decreases parts.len(),
{
    if parts.len() == 0 {
        seq![]
    } else if parts.last().len() > 0 {
        nonempty_parts(parts.drop_last()).push(parts.last())
    } else {
        nonempty_parts(parts.drop_last())
    }
}

/// The recipients: the comma separated, trimmed, non-empty addresses.
pub open spec fn recipients(to: Seq<char>) -> Seq<Seq<char>> {
    nonempty_parts(split_trimmed(to, ','))
}

/// The subject of report mails; `now` is the local time, formatted.
pub open spec fn mail_subject(to: Seq<char>, now: Seq<char>) -> Seq<char> {
    if contains(to, "Test Report"@) {
        "MySQL Test Report - "@ + now
    } else {
        "MySQL Test Report"@
    }
}

impl Args {
    /// The mail settings, when mail is enabled and has a host and at least
    /// one recipient. `now` is the local time as `%Y-%m-%d %H:%M:%S`.
    pub fn get_email_config(&self, now: &str) -> (res: Option<EmailConfig>)
        ensures
            res is Some <==> (self.email_enable && self.email_smtp_host@.len() > 0
                && self.email_to@.len() > 0 && recipients(self.email_to@).len() > 0),
            res matches Some(c) ==> {
                &&& c.smtp_host@ == self.email_smtp_host@
                &&& c.smtp_port == self.email_smtp_port as u16
                &&& c.username@ == self.email_username@
                &&& c.password@ == self.email_password@
                &&& c.from@ == (if self.email_from@.len() == 0 {
                    self.email_username@
                } else {
                    self.email_from@
                })
                &&& crate::text::string_views(c.to@) == recipients(self.email_to@)
                &&& c.enable_tls == self.email_enable_tls
                &&& c.subject@ == mail_subject(self.email_to@, now@)
                &&& c.attach_xunit == (self.xunit_file@.len() > 0)
            },
    {
        if !self.email_enable || chars_of(self.email_smtp_host.as_str()).len() == 0 || chars_of(
            self.email_to.as_str(),
        ).len() == 0 {
            return None;
        }
        let parts = split_trim(&chars_of(self.email_to.as_str()), ',');
        let ghost pv = views(parts@);
        let mut to: Vec<String> = Vec::new();
        let mut i: usize = 0;
        while i < parts.len()
            invariant
                i <= parts.len(),
                pv == views(parts@),
                crate::text::string_views(to@) == nonempty_parts(pv.take(i as int)),
            decreases parts.len() - i,
        {
            assert(pv.take(i + 1).drop_last() =~= pv.take(i as int));
            assert(pv.take(i + 1).last() == parts@[i as int]@);
            if parts[i].len() > 0 {
                let ghost before = to@;
                to.push(to_string(&parts[i]));
                assert(crate::text::string_views(to@) =~= crate::text::string_views(before).push(parts@[i as int]@));
            }
            i += 1;
        }
        assert(pv.take(parts.len() as int) =~= pv);
        if to.len() == 0 {
            return None;
        }
        let to_chars = chars_of(self.email_to.as_str());
        let subject = if contains_vec(&to_chars, &chars_of("Test Report")) {
            let mut v: Vec<char> = Vec::new();
            push_str(&mut v, "MySQL Test Report - ");
            push_str(&mut v, now);
            to_string(&v)
        } else {
            String::from_str("MySQL Test Report")
        };
        let from = if chars_of(self.email_from.as_str()).len() == 0 {
            self.email_username.clone()
        } else {
            self.email_from.clone()
        };
        Some(
            EmailConfig {
                smtp_host: self.email_smtp_host.clone(),
                smtp_port: self.email_smtp_port as u16,
                username: self.email_username.clone(),
                password: self.email_password.clone(),
                from,
                to,
                enable_tls: self.email_enable_tls,
                subject,
                attach_xunit: chars_of(self.xunit_file.as_str()).len() > 0,
            },
        )
    }

    /// The error for a test input that names no test.
    pub fn unresolved_input_error(input: &str) -> (res: CliError)
        ensures
            res.message@ == unresolved_input_text(input@),
    {
        let v = chars_of(input);
        let ext = chars_of(".test");
        let clean = clean_input(input);
        let mut with_ext: Vec<char> = crate::text::subvec(&v, 0, v.len());
        if !crate::text::ends_with_vec(&v, &ext) {
            push_str(&mut with_ext, ".test");
        }
        proof {
            assert(v@.subrange(0, v.len() as int) =~= v@);
        }
        let mut m: Vec<char> = Vec::new();
        push_str(&mut m, "Could not resolve test input: '");
        push_str(&mut m, input);
        push_str(&mut m, "'\nTried:\n- Test name in t/ directory: t/");
        crate::text::push_all(&mut m, &clean);
        push_str(&mut m, ".test\n- Relative file path: ");
        crate::text::push_all(&mut m, &with_ext);
        push_str(
            &mut m,
            "\n- Partial match search in t/ directory\n\nHint: Use one of these formats:\n- Test name: 'basic' (looks for t/basic.test)\n- Directory: 't/feature' (runs all .test files in directory)\n- Full file name: 'basic.test' (looks for t/basic.test)\n- File path: 'path/to/test.test' (direct file access)",
        );
        CliError { message: to_string(&m) }
    }
}

/// The text of the error for a test input that names no test.
pub open spec fn unresolved_input_text(input: Seq<char>) -> Seq<char> {
    "Could not resolve test input: '"@ + input + "'\nTried:\n- Test name in t/ directory: t/"@
        + clean_test_name(input) + ".test\n- Relative file path: "@ + with_test_extension(input)
        + "\n- Partial match search in t/ directory\n\nHint: Use one of these formats:\n- Test name: 'basic' (looks for t/basic.test)\n- Directory: 't/feature' (runs all .test files in directory)\n- Full file name: 'basic.test' (looks for t/basic.test)\n- File path: 'path/to/test.test' (direct file access)"@
}

/// A test input without a trailing `.test`.
pub fn clean_input(input: &str) -> (res: Vec<char>)
    ensures
        res@ == clean_test_name(input@),
{
    let v = chars_of(input);
    let ext = chars_of(".test");
    if crate::text::ends_with_vec(&v, &ext) {
        crate::text::subvec(&v, 0, v.len() - ext.len())
    } else {
        let r = crate::text::subvec(&v, 0, v.len());
        assert(r@ =~= v@);
        r
    }
}

/// A test input without a trailing `.test`.
pub open spec fn clean_test_name(input: Seq<char>) -> Seq<char> {
    if crate::text::ends_with(input, ".test"@) {
        input.take(input.len() - ".test"@.len())
    } else {
        input
    }
}

/// A test input with `.test` added when it lacks it.
pub open spec fn with_test_extension(input: Seq<char>) -> Seq<char> {
    if crate::text::ends_with(input, ".test"@) {
        input
    } else {
        input + ".test"@
    }
}

impl EmailConfig {
    /// The sender as mail headers write it: the `from` setting where it is
    /// an address (holds `@`), else `from <username>`.
    pub fn sender_text(&self) -> (res: String)
        ensures
            res@ == (if self.from@.contains('@') {
                self.from@
            } else {
                self.from@ + " <"@ + self.username@ + ">"@
            }),
    {
        let f = chars_of(self.from.as_str());
        if contains_char(&f, '@') {
            to_string(&f)
        } else {
            let mut v = f;
            push_str(&mut v, " <");
            push_str(&mut v, self.username.as_str());
            push_str(&mut v, ">");
            to_string(&v)
        }
    }

    /// The subject of a report mail: the configured subject, then the
    /// number of tests, passed and failed.
    pub fn report_subject(&self, total: usize, passed: usize, failed: usize) -> (res: String)
        ensures
            res@ == self.subject@ + " - "@ + crate::text::decimal(total as nat) + " Tests ("@
                + crate::text::decimal(passed as nat) + " Passed, "@ + crate::text::decimal(
                failed as nat,
            ) + " Failed)"@,
    {
        let mut v = chars_of(self.subject.as_str());
        push_str(&mut v, " - ");
        crate::text::push_decimal(&mut v, total as u64);
        push_str(&mut v, " Tests (");
        crate::text::push_decimal(&mut v, passed as u64);
        push_str(&mut v, " Passed, ");
        crate::text::push_decimal(&mut v, failed as u64);
        push_str(&mut v, " Failed)");
        to_string(&v)
    }
}

} // verus!
