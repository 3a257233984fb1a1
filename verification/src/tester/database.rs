//! Connection settings and the naming of per-test schemas.
//!
//! Opening connections and sending statements is the caller's part; this
//! module decides which schema a test gets, what is sent to create and drop
//! it, which back ends are supported and when a failed connection is retried.

use vstd::prelude::*;
use crate::text::{chars_of, push_str, push_all, to_string, subvec, split, split_char, views,
    index_of, lemma_index_of, find_char_from, eq_vec, push_decimal, decimal};
use crate::unicode::{
    char_is_alphanumeric, is_ascii_letter, is_ascii_digit, spec_is_alphanumeric, spec_to_lowercase,
    to_lowercase,
};

verus! {

/// Where and as whom to connect.
#[derive(Debug, Clone)]
pub struct ConnectionInfo {
    pub host: String,
    pub port: u16,
    pub user: String,
    pub password: String,
    pub database: String,
    /// Extra parameters, `key=value` pairs joined by `&`.
    pub params: String,
}

/// `mysql://user@host:port/database`.
pub open spec fn connection_url(user: Seq<char>, host: Seq<char>, port: u16, database: Seq<char>) -> Seq<
    char,
> {
    "mysql://"@ + user + "@"@ + host + ":"@ + decimal(port as nat) + "/"@ + database
}

impl ConnectionInfo {
    /// A description of the connection: `mysql://user@host:port/database`.
    pub fn info(&self) -> (res: String)
        ensures
            res@ == connection_url(self.user@, self.host@, self.port, self.database@),
    {
        let mut out: Vec<char> = Vec::new();
        push_str(&mut out, "mysql://");
        push_str(&mut out, self.user.as_str());
        push_str(&mut out, "@");
        push_str(&mut out, self.host.as_str());
        push_str(&mut out, ":");
        push_decimal(&mut out, self.port as u64);
        push_str(&mut out, "/");
        push_str(&mut out, self.database.as_str());
        to_string(&out)
    }
}

/// The database back ends that can be opened.
#[derive(Debug, Clone, Copy, PartialEq, Eq, Structural)]
pub enum DatabaseKind {
    MySQL,
}

/// Why a database could not be opened.
#[derive(Debug, Clone)]
pub enum DatabaseError {
    /// The named back end is not supported.
    UnsupportedType(String),
}

impl DatabaseError {
    /// The error's text.
    pub fn message(&self) -> (res: String)
        ensures
            match self {
                DatabaseError::UnsupportedType(t) => res@ == "Unsupported database type: "@ + t@
                    + ". Currently only 'mysql' is supported."@,
            },
    {
        match self {
            DatabaseError::UnsupportedType(t) => {
                let mut out: Vec<char> = Vec::new();
                push_str(&mut out, "Unsupported database type: ");
                push_str(&mut out, t.as_str());
                push_str(&mut out, ". Currently only 'mysql' is supported.");
                to_string(&out)
            },
        }
    }
}

impl DatabaseKind {
    /// The back end named by `db_type`, compared without regard to case.
    pub fn parse(db_type: &str) -> (res: Result<DatabaseKind, DatabaseError>)
        ensures
            spec_to_lowercase(db_type@) == "mysql"@ ==> res == Ok::<DatabaseKind, DatabaseError>(
                DatabaseKind::MySQL),
            spec_to_lowercase(db_type@) != "mysql"@ ==> (res matches Err(
                DatabaseError::UnsupportedType(t),
            ) && t@ == db_type@),
    {
        let lower = to_lowercase(db_type);
        let lv = chars_of(lower.as_str());
        let m = chars_of("mysql");
        if eq_vec(&lv, &m) {
            Ok(DatabaseKind::MySQL)
        } else {
            Err(DatabaseError::UnsupportedType(to_string(&chars_of(db_type))))
        }
    }
}

/// How a character of a test's name appears in its schema's name.
pub open spec fn db_char(c: char) -> char {
    if is_ascii_letter(c) || is_ascii_digit(c) {
        c
    } else {
        '_'
    }
}

/// `s` with every run of underscores shortened to one.
pub open spec fn collapse_underscores(s: Seq<char>) -> Seq<char>
    decreases s.len(),
{
    if s.len() == 0 {
        s
    } else {
        let p = collapse_underscores(s.drop_last());
        if s.last() == '_' && p.len() > 0 && p.last() == '_' {
            p
        } else {
            p.push(s.last())
        }
    }
}

/// `s` without the `c`s it starts with.
pub open spec fn strip_leading(s: Seq<char>, c: char) -> Seq<char>
    decreases s.len(),
{
    if s.len() > 0 && s[0] == c {
        strip_leading(s.skip(1), c)
    } else {
        s
    }
}

/// `s` without the `c`s it ends with.
pub open spec fn strip_trailing(s: Seq<char>, c: char) -> Seq<char>
    decreases s.len(),
{
    if s.len() > 0 && s.last() == c {
        strip_trailing(s.drop_last(), c)
    } else {
        s
    }
}

/// The longest schema name taken from a test's name (64 bytes, less `test_`).
pub open spec fn max_db_name_len() -> nat {
    55
}

/// The schema-name form of a test's name: letters and digits kept, every
/// other character an underscore, runs of underscores shortened to one,
/// underscores trimmed from both ends, `dingo` when nothing is left, and at
/// most 55 characters.
pub open spec fn sanitized_db_name(name: Seq<char>) -> Seq<char> {
    let t = strip_trailing(
        strip_leading(collapse_underscores(name.map_values(|c: char| db_char(c))), '_'),
        '_',
    );
    let u = if t.len() == 0 {
        "dingo"@
    } else {
        t
    };
    if u.len() > max_db_name_len() {
        u.take(max_db_name_len() as int)
    } else {
        u
    }
}

/// Index from which `v` no longer starts with `c`.
fn strip_leading_index(v: &Vec<char>, c: char) -> (res: usize)
    ensures
        res <= v.len(),
        strip_leading(v@, c) == v@.skip(res as int),
{
    let mut i: usize = 0;
    assert(v@.skip(0) =~= v@);
    while i < v.len() && v[i] == c
        invariant
            i <= v.len(),
            strip_leading(v@.skip(i as int), c) == strip_leading(v@, c),
        decreases v.len() - i,
    {
        assert(v@.skip(i as int).skip(1) =~= v@.skip(i + 1));
        i += 1;
    }
    i
}

/// Length of `v` once the `c`s it ends with are dropped.
fn strip_trailing_len(v: &Vec<char>, c: char) -> (res: usize)
    ensures
        res <= v.len(),
        strip_trailing(v@, c) == v@.take(res as int),
{
    let mut j: usize = v.len();
    assert(v@.take(j as int) =~= v@);
    while j > 0 && v[j - 1] == c
        invariant
            j <= v.len(),
            strip_trailing(v@.take(j as int), c) == strip_trailing(v@, c),
        decreases j,
    {
        assert(v@.take(j as int).drop_last() =~= v@.take(j - 1));
        j -= 1;
    }
    j
}

/// The schema-name form of a test's name (see [`sanitized_db_name`]).
pub fn sanitize_db_name(test_name: &str) -> (res: String)
    ensures
        res@ == sanitized_db_name(test_name@),
{
    let cs = chars_of(test_name);
    let ghost mapped = test_name@.map_values(|c: char| db_char(c));
    let mut collapsed: Vec<char> = Vec::new();
    let mut i: usize = 0;
    while i < cs.len()
        invariant
            i <= cs.len(),
            cs@ == test_name@,
            mapped == test_name@.map_values(|c: char| db_char(c)),
            collapsed@ == collapse_underscores(mapped.take(i as int)),
        decreases cs.len() - i,
    {
        let c = cs[i];
        let m = if ('a' <= c && c <= 'z') || ('A' <= c && c <= 'Z') || ('0' <= c && c <= '9') {
            c
        } else {
            '_'
        };
        assert(m == db_char(c));
        assert(mapped.take(i + 1).drop_last() =~= mapped.take(i as int));
        assert(mapped.take(i + 1).last() == m);
        if m == '_' && collapsed.len() > 0 && collapsed[collapsed.len() - 1] == '_' {
        } else {
            collapsed.push(m);
        }
        i += 1;
    }
    assert(mapped.take(cs.len() as int) =~= mapped);
    let lo = strip_leading_index(&collapsed, '_');
    let rest = subvec(&collapsed, lo, collapsed.len());
    let hi = strip_trailing_len(&rest, '_');
    let mut t = subvec(&rest, 0, hi);
    if t.len() == 0 {
        t = chars_of("dingo");
    }
    if t.len() > 55 {
        t = subvec(&t, 0, 55);
    }
    to_string(&t)
}

/// The value of the first piece `key=value` whose key (the text before its
/// first `=`) is `test_db_suffix`.
pub open spec fn suffix_in(pieces: Seq<Seq<char>>) -> Option<Seq<char>>
    decreases pieces.len(),
{
    if pieces.len() == 0 {
        None
    } else {
        let p = pieces[0];
        let i = index_of(p, '=');
        if i < p.len() && p.take(i) == "test_db_suffix"@ {
            Some(p.skip(i + 1))
        } else {
            suffix_in(pieces.skip(1))
        }
    }
}

/// The schema suffix that connection parameters ask for, if any: the
/// `test_db_suffix` entry among the `&`-separated `key=value` pieces.
pub open spec fn db_suffix(params: Seq<char>) -> Option<Seq<char>> {
    if params.len() == 0 {
        None
    } else {
        suffix_in(split(params, '&'))
    }
}

/// The schema suffix named in connection parameters (see [`db_suffix`]);
/// runs in parallel give each worker its own.
pub fn unique_db_suffix(params: &str) -> (res: Option<String>)
    ensures
        match res {
            Some(s) => db_suffix(params@) == Some(s@),
            None => db_suffix(params@) is None,
        },
{
    let pv = chars_of(params);
    if pv.len() == 0 {
        return None;
    }
    let pieces = split_char(&pv, '&');
    let key = chars_of("test_db_suffix");
    let mut k: usize = 0;
    assert(views(pieces@).skip(0) =~= views(pieces@));
    while k < pieces.len()
        invariant
            k <= pieces.len(),
            key@ == "test_db_suffix"@,
            pv@ == params@,
            pv@.len() > 0,
            views(pieces@) == split(pv@, '&'),
            suffix_in(views(pieces@).skip(k as int)) == suffix_in(views(pieces@)),
        decreases pieces.len() - k,
    {
        let p = &pieces[k];
        let ghost ps = views(pieces@).skip(k as int);
        assert(ps[0] == p@);
        assert(ps.skip(1) =~= views(pieces@).skip(k + 1));
        let i = find_char_from(p, '=', 0);
        assert(p@.skip(0) =~= p@);
        proof {
            lemma_index_of(p@, '=');
        }
        if i < p.len() {
            let kv = subvec(p, 0, i);
            if eq_vec(&kv, &key) {
                let value = subvec(p, i + 1, p.len());
                assert(value@ =~= p@.skip(i + 1));
                assert(suffix_in(ps) == Some(value@));
                return Some(to_string(&value));
            }
        }
        k += 1;
    }
    assert(views(pieces@).skip(k as int) =~= Seq::<Seq<char>>::empty());
    None
}

/// The schema a test runs in: `test_` and the sanitized test name, then `_`
/// and the suffix where the parameters name one.
pub open spec fn test_db_name(test_name: Seq<char>, params: Seq<char>) -> Seq<char> {
    match db_suffix(params) {
        Some(s) => "test_"@ + sanitized_db_name(test_name) + "_"@ + s,
        None => "test_"@ + sanitized_db_name(test_name),
    }
}

/// The schema a test runs in (see [`test_db_name`]).
pub fn test_database_name(test_name: &str, params: &str) -> (res: String)
    ensures
        res@ == test_db_name(test_name@, params@),
{
    let mut out: Vec<char> = Vec::new();
    push_str(&mut out, "test_");
    let s = sanitize_db_name(test_name);
    push_str(&mut out, s.as_str());
    match unique_db_suffix(params) {
        Some(suffix) => {
            push_str(&mut out, "_");
            push_str(&mut out, suffix.as_str());
        },
        None => {},
    }
    to_string(&out)
}

/// The statement that removes a schema if it exists.
pub fn drop_database_sql(db: &str) -> (res: String)
    ensures
        res@ == "DROP DATABASE IF EXISTS `"@ + db@ + "`"@,
{
    let mut out: Vec<char> = Vec::new();
    push_str(&mut out, "DROP DATABASE IF EXISTS `");
    push_str(&mut out, db);
    push_str(&mut out, "`");
    to_string(&out)
}

/// The statement that creates a schema.
pub fn create_database_sql(db: &str) -> (res: String)
    ensures
        res@ == "CREATE DATABASE `"@ + db@ + "`"@,
{
    let mut out: Vec<char> = Vec::new();
    push_str(&mut out, "CREATE DATABASE `");
    push_str(&mut out, db);
    push_str(&mut out, "`");
    to_string(&out)
}

/// The query that lists the tables of a schema.
pub fn list_tables_sql(db: &str) -> (res: String)
    ensures
        res@ == "SELECT table_name AS tbl_name FROM information_schema.tables WHERE table_schema = '"@
            + db@ + "'"@,
{
    let mut out: Vec<char> = Vec::new();
    push_str(
        &mut out,
        "SELECT table_name AS tbl_name FROM information_schema.tables WHERE table_schema = '",
    );
    push_str(&mut out, db);
    push_str(&mut out, "'");
    to_string(&out)
}

/// The statement that drops one table of a schema, named in full.
pub fn drop_table_sql(db: &str, table: &str) -> (res: String)
    ensures
        res@ == "DROP TABLE IF EXISTS `"@ + db@ + "`.`"@ + table@ + "`"@,
{
    let mut out: Vec<char> = Vec::new();
    push_str(&mut out, "DROP TABLE IF EXISTS `");
    push_str(&mut out, db);
    push_str(&mut out, "`.`");
    push_str(&mut out, table);
    push_str(&mut out, "`");
    to_string(&out)
}

/// The longest pause between two connection attempts, in milliseconds.
pub open spec fn max_retry_delay_ms() -> nat {
    10000
}

/// The state of repeated attempts to open a connection: how many failed so
/// far, and how long to wait before the next one.
#[derive(Debug, Clone, Copy)]
pub struct ConnectRetry {
    pub attempts: u32,
    pub delay_ms: u64,
}

impl ConnectRetry {
    /// No attempt made yet; the first pause is 100 ms.
    pub fn new() -> (res: Self)
        ensures
            res.attempts == 0,
            res.delay_ms == 100,
    {
        ConnectRetry { attempts: 0, delay_ms: 100 }
    }

    /// Counts a failed attempt. With `max_retries` attempts made it gives
    /// up (`None`); else it returns the pause to take before the next attempt
    /// and doubles the pause, up to ten seconds.
    pub fn after_failure(&mut self, max_retries: u32) -> (res: Option<u64>)
        requires
            old(self).attempts < u32::MAX,
        ensures
            final(self).attempts == old(self).attempts + 1,
            final(self).attempts >= max_retries ==> res is None && final(self).delay_ms == old(self).delay_ms,
            final(self).attempts < max_retries ==> res == Some(old(self).delay_ms) && final(self).delay_ms == (if 2 * old(self).delay_ms < max_retry_delay_ms() {
                2 * old(self).delay_ms
            } else {
                max_retry_delay_ms() as int
            }),
    {
        self.attempts = self.attempts + 1;
        if self.attempts >= max_retries {
            None
        } else {
            let d = self.delay_ms;
            self.delay_ms = if d < 5000 {
                2 * d
            } else {
                10000
            };
            Some(d)
        }
    }
}

/// The error given when every connection attempt failed.
pub fn retries_exhausted_message(max_retries: u32, detail: &str) -> (res: String)
    ensures
        res@ == "Failed to connect after "@ + decimal(max_retries as nat) + " attempts: "@ + detail@,
{
    let mut out: Vec<char> = Vec::new();
    push_str(&mut out, "Failed to connect after ");
    push_decimal(&mut out, max_retries as u64);
    push_str(&mut out, " attempts: ");
    push_str(&mut out, detail);
    to_string(&out)
}

/// How a character of a test's name appears in a worker's schema suffix:
/// kept when alphanumeric (in Unicode's sense) or `_`, else `_`.
pub open spec fn worker_char(c: char) -> char {
    if spec_is_alphanumeric(c) || c == '_' {
        c
    } else {
        '_'
    }
}

/// A test's name as it starts the schema suffix of a parallel worker.
pub fn worker_test_name(test_name: &str) -> (res: String)
    ensures
        res@ == test_name@.map_values(|c: char| worker_char(c)),
{
    let cs = chars_of(test_name);
    let mut out: Vec<char> = Vec::new();
    let mut i: usize = 0;
    while i < cs.len()
        invariant
            i <= cs.len(),
            cs@ == test_name@,
            out@ == cs@.take(i as int).map_values(|c: char| worker_char(c)),
        decreases cs.len() - i,
    {
        let c = cs[i];
        if char_is_alphanumeric(c) || c == '_' {
            out.push(c);
        } else {
            out.push('_');
        }
        i += 1;
        assert(out@ =~= cs@.take(i as int).map_values(|c: char| worker_char(c)));
    }
    assert(cs@.take(i as int) =~= cs@);
    to_string(&out)
}

/// Connection parameters with a worker's schema suffix added.
pub open spec fn params_with_suffix(params: Seq<char>, suffix: Seq<char>) -> Seq<char> {
    if params.len() == 0 {
        "test_db_suffix="@ + suffix
    } else {
        params + "&test_db_suffix="@ + suffix
    }
}

/// Adds `test_db_suffix=SUFFIX` to connection parameters, so that a
/// parallel worker's tests get schemas of their own.
pub fn isolated_params(params: &str, suffix: &str) -> (res: String)
    ensures
        res@ == params_with_suffix(params@, suffix@),
{
    let mut out = chars_of(params);
    if out.len() == 0 {
        push_str(&mut out, "test_db_suffix=");
    } else {
        push_str(&mut out, "&test_db_suffix=");
    }
    push_str(&mut out, suffix);
    to_string(&out)
}

/// Where the first pieces name no suffix, the suffix is the one the rest
/// name.
proof fn lemma_suffix_in_concat(a: Seq<Seq<char>>, b: Seq<Seq<char>>)
    requires
        suffix_in(a) is None,
    ensures
        suffix_in(a + b) == suffix_in(b),
    decreases a.len(),
{
    if a.len() > 0 {
        assert((a + b)[0] == a[0]);
        assert((a + b).skip(1) =~= a.skip(1) + b);
        lemma_suffix_in_concat(a.skip(1), b);
    } else {
        assert(a + b =~= b);
    }
}

/// The piece `test_db_suffix=SUFFIX` names `SUFFIX`.
proof fn lemma_suffix_piece(suffix: Seq<char>)
    requires
        !suffix.contains('&'),
    ensures
        split("test_db_suffix="@ + suffix, '&') == seq!["test_db_suffix="@ + suffix],
        suffix_in(seq!["test_db_suffix="@ + suffix]) == Some(suffix),
{
    reveal_strlit("test_db_suffix=");
    reveal_strlit("test_db_suffix");
    let p = "test_db_suffix="@ + suffix;
    assert(!p.contains('&')) by {
        if p.contains('&') {
            let k = choose|k: int| 0 <= k < p.len() && p[k] == '&';
            if k >= 15 {
                assert(suffix[k - 15] == '&');
            }
        }
    }
    crate::text::lemma_split_single(p, '&');
    assert forall|k: int| 0 <= k < 14 implies p[k] != '=' by {}
    crate::text::lemma_index_of_unique(p, '=', 14);
    assert(p.take(14) =~= "test_db_suffix"@);
    assert(p.skip(15) =~= suffix);
    let ps = seq![p];
    assert(ps[0] == p);
}

/// A worker's tests get schemas ending with the worker's suffix, whatever
/// parameters it started from, as long as those name no suffix of their own
/// and the suffix holds no `&`.
pub proof fn law_isolated_suffix_found(params: Seq<char>, suffix: Seq<char>)
    requires
        db_suffix(params) is None,
        !suffix.contains('&'),
    ensures
        db_suffix(params_with_suffix(params, suffix)) == Some(suffix),
{
    reveal_strlit("test_db_suffix=");
    reveal_strlit("&test_db_suffix=");
    lemma_suffix_piece(suffix);
    let q = "test_db_suffix="@ + suffix;
    if params.len() == 0 {
        assert(params_with_suffix(params, suffix) == q);
    } else {
        let p = params_with_suffix(params, suffix);
        assert(p =~= params + seq!['&'] + q);
        crate::text::lemma_split_concat(params, q, '&');
        lemma_suffix_in_concat(split(params, '&'), split(q, '&'));
    }
}

} // verus!
