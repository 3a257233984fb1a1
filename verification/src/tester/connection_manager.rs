//! The named connections of a test run.
//!
//! A manager holds each open connection under a name, and which of them is
//! current. It is generic in the connection itself: opening one is the
//! caller's part, which `connect_target` prepares and `add_connection`
//! completes.

use vstd::prelude::*;
use crate::tester::database::ConnectionInfo;
use crate::text::{
    chars_of, trim, trim_str, to_string, subvec, split, split_trimmed, split_trim, views,
    parse_unsigned, parse_u16_vec, eq_str, eq_vec, push_str, string_views, spec_debug_strings,
    debug_strings,
};

verus! {

/// The name of the connection a run starts with.
pub open spec fn default_name() -> Seq<char> {
    "default"@
}

/// The fields of a `connect` command, as written (missing ones empty).
#[derive(Debug, Clone)]
pub struct ConnectParams {
    pub connection_name: String,
    pub host: String,
    pub user: String,
    pub password: String,
    pub database: String,
    pub port: String,
}

/// Why a connection request was refused.
#[derive(Debug, Clone)]
pub enum ConnectionError {
    /// The parameters are not enclosed in parentheses.
    NotParenthesized,
    /// The port is not a number from 0 to 65535.
    InvalidPort(String),
    /// No connection has this name.
    NotFound(String),
    /// The default connection cannot be closed.
    DefaultDisconnect,
    /// The current connection is not open.
    CurrentMissing(String),
}

/// The text of a connection error.
pub open spec fn connection_error_text(e: ConnectionError) -> Seq<char> {
    match e {
        ConnectionError::NotParenthesized => "Connect parameters must be enclosed in parentheses"@,
        ConnectionError::InvalidPort(p) => "Invalid port: "@ + p@,
        ConnectionError::NotFound(n) => "Connection '"@ + n@ + "' does not exist"@,
        ConnectionError::DefaultDisconnect => "Cannot disconnect the default connection"@,
        ConnectionError::CurrentMissing(n) => "Current connection '"@ + n@ + "' not found"@,
    }
}

impl ConnectionError {
    /// The error's text.
    pub fn message(&self) -> (res: String)
        ensures
            res@ == connection_error_text(*self),
    {
        let mut out: Vec<char> = Vec::new();
        match self {
            ConnectionError::NotParenthesized => {
                push_str(&mut out, "Connect parameters must be enclosed in parentheses");
            },
            ConnectionError::InvalidPort(p) => {
                push_str(&mut out, "Invalid port: ");
                push_str(&mut out, p.as_str());
            },
            ConnectionError::NotFound(n) => {
                push_str(&mut out, "Connection '");
                push_str(&mut out, n.as_str());
                push_str(&mut out, "' does not exist");
            },
            ConnectionError::DefaultDisconnect => {
                push_str(&mut out, "Cannot disconnect the default connection");
            },
            ConnectionError::CurrentMissing(n) => {
                push_str(&mut out, "Current connection '");
                push_str(&mut out, n.as_str());
                push_str(&mut out, "' not found");
            },
        }
        to_string(&out)
    }
}

/// Whether `s` is enclosed in parentheses.
pub open spec fn parenthesized(s: Seq<char>) -> bool {
    s.len() > 0 && s[0] == '(' && s.last() == ')'
}

/// The comma-separated fields inside the parentheses of a `connect`
/// command, each trimmed.
pub open spec fn connect_fields(params: Seq<char>) -> Seq<Seq<char>> {
    let t = trim(params);
    split_trimmed(t.subrange(1, t.len() - 1), ',')
}

/// Field `k` of a `connect` command, empty when it is missing.
pub open spec fn connect_field(params: Seq<char>, k: int) -> Seq<char> {
    let f = connect_fields(params);
    if k < f.len() {
        f[k]
    } else {
        Seq::empty()
    }
}

/// `param` where it is given, else `default`.
pub open spec fn or_default(param: Seq<char>, default: Seq<char>) -> Seq<char> {
    if param.len() == 0 {
        default
    } else {
        param
    }
}

/// An open connection manager: connection names are distinct.
pub struct ConnectionManager<D> {
    /// The open connections, by name, oldest first.
    pub connections: Vec<(String, D)>,
    /// The name of the current connection.
    pub current_connection: String,
    /// Where new connections go where their command leaves a field empty.
    pub default_connection_info: ConnectionInfo,
    /// How often opening a connection is tried.
    pub max_retries: u32,
}

impl<D> ConnectionManager<D> {
    /// The names of the open connections, oldest first.
    pub open spec fn names(&self) -> Seq<Seq<char>> {
        self.connections@.map_values(|e: (String, D)| e.0@)
    }

    /// No two connections share a name.
    pub open spec fn wf(&self) -> bool {
        forall|i: int, j: int|
            0 <= i < self.connections@.len() && 0 <= j < self.connections@.len() && i != j
                ==> #[trigger] self.connections@[i].0@ != #[trigger] self.connections@[j].0@
    }

    /// A manager whose only connection is `default_db`, named `default` and
    /// current.
    pub fn new(default_connection_info: ConnectionInfo, max_retries: u32, default_db: D) -> (res:
        Self)
        ensures
            res.wf(),
            res.names() == seq![default_name()],
            res.connections@[0].1 == default_db,
            res.current_connection@ == default_name(),
            res.default_connection_info == default_connection_info,
            res.max_retries == max_retries,
    {
        let mut connections: Vec<(String, D)> = Vec::new();
        connections.push((to_string(&chars_of("default")), default_db));
        let res = ConnectionManager {
            connections,
            current_connection: to_string(&chars_of("default")),
            default_connection_info,
            max_retries,
        };
        assert(res.names() =~= seq![default_name()]);
        res
    }

    /// Position of the connection named `name`, if one is open.
    pub fn find(&self, name: &str) -> (res: Option<usize>)
        requires
            self.wf(),
        ensures
            match res {
                Some(i) => i < self.connections@.len() && self.connections@[i as int].0@ == name@,
                None => !self.names().contains(name@),
            },
    {
        let nv = chars_of(name);
        let mut i: usize = 0;
        while i < self.connections.len()
            invariant
                i <= self.connections@.len(),
                nv@ == name@,
                forall|k: int| 0 <= k < i ==> self.connections@[k].0@ != name@,
            decreases self.connections@.len() - i,
        {
            let cv = chars_of(self.connections[i].0.as_str());
            if eq_vec(&cv, &nv) {
                return Some(i);
            }
            i += 1;
        }
        assert forall|k: int| 0 <= k < self.names().len() implies self.names()[k] != name@ by {
            assert(self.names()[k] == self.connections@[k].0@);
        }
        None
    }

    /// Position of the current connection.
    pub fn current_database_index(&self) -> (res: Result<usize, ConnectionError>)
        requires
            self.wf(),
        ensures
            match res {
                Ok(i) => i < self.connections@.len() && self.connections@[i as int].0@
                    == self.current_connection@,
                Err(e) => !self.names().contains(self.current_connection@) && (e matches ConnectionError::CurrentMissing(n) && n@ == self.current_connection@),
            },
    {
        match self.find(self.current_connection.as_str()) {
            Some(i) => Ok(i),
            None => Err(
                ConnectionError::CurrentMissing(to_string(&chars_of(self.current_connection.as_str()))),
            ),
        }
    }

    /// The current connection.
    pub fn current_database(&self) -> (res: Result<&D, ConnectionError>)
        requires
            self.wf(),
        ensures
            match res {
                Ok(d) => exists|i: int|
                    0 <= i < self.connections@.len() && self.connections@[i].0@
                        == self.current_connection@ && *d == self.connections@[i].1,
                Err(e) => !self.names().contains(self.current_connection@) && (e matches ConnectionError::CurrentMissing(n) && n@ == self.current_connection@),
            },
    {
        match self.current_database_index() {
            Ok(i) => Ok(&self.connections[i].1),
            Err(e) => Err(e),
        }
    }

    /// Reads the fields of `connect (name, host, user, password, database,
    /// port)`; missing trailing fields are empty.
    pub fn parse_connect_params(&self, params: &str) -> (res: Result<ConnectParams, ConnectionError>)
        requires
            trim(params@) != seq!['('],
        ensures
            !parenthesized(trim(params@)) <==> res is Err,
            res is Err ==> res matches Err(ConnectionError::NotParenthesized),
            res matches Ok(p) ==> {
                &&& p.connection_name@ == connect_field(params@, 0)
                &&& p.host@ == connect_field(params@, 1)
                &&& p.user@ == connect_field(params@, 2)
                &&& p.password@ == connect_field(params@, 3)
                &&& p.database@ == connect_field(params@, 4)
                &&& p.port@ == connect_field(params@, 5)
            },
    {
        let t = trim_str(params);
        if !(t.len() > 0 && t[0] == '(' && t[t.len() - 1] == ')') {
            return Err(ConnectionError::NotParenthesized);
        }
        let inner = subvec(&t, 1, t.len() - 1);
        let parts = split_trim(&inner, ',');
        assert(views(parts@) == connect_fields(params@));
        let mut fields: Vec<String> = Vec::new();
        let mut k: usize = 0;
        while k < 6
            invariant
                k <= 6,
                views(parts@) == connect_fields(params@),
                fields@.len() == k,
                forall|j: int| 0 <= j < k ==> #[trigger] fields@[j]@ == connect_field(params@, j),
            decreases 6 - k,
        {
            if k < parts.len() {
                assert(views(parts@)[k as int] == parts@[k as int]@);
                fields.push(to_string(&parts[k]));
            } else {
                fields.push(String::new());
            }
            k += 1;
        }
        let port = fields.pop().unwrap();
        let database = fields.pop().unwrap();
        let password = fields.pop().unwrap();
        let user = fields.pop().unwrap();
        let host = fields.pop().unwrap();
        let connection_name = fields.pop().unwrap();
        Ok(ConnectParams { connection_name, host, user, password, database, port })
    }

    /// The connection a `connect` command asks for: each empty field taken
    /// from the default connection, the extra parameters always from it.
    pub fn build_connection_info(&self, params: &ConnectParams) -> (res: Result<
        ConnectionInfo,
        ConnectionError,
    >)
        ensures
            params.port@.len() > 0 && parse_unsigned(params.port@, 65535) is None <==> res is Err,
            res matches Err(e) ==> e matches ConnectionError::InvalidPort(p) && p@ == params.port@,
            res matches Ok(info) ==> {
                let d = self.default_connection_info;
                &&& info.host@ == or_default(params.host@, d.host@)
                &&& info.user@ == or_default(params.user@, d.user@)
                &&& info.password@ == or_default(params.password@, d.password@)
                &&& info.database@ == or_default(params.database@, d.database@)
                &&& info.params@ == d.params@
                &&& (params.port@.len() == 0 ==> info.port == d.port)
                &&& (params.port@.len() > 0 ==> parse_unsigned(params.port@, 65535) == Some(
                    info.port as nat,
                ))
            },
    {
        let d = &self.default_connection_info;
        let pv = chars_of(params.port.as_str());
        let port = if pv.len() == 0 {
            d.port
        } else {
            match parse_u16_vec(&pv) {
                Some(p) => p,
                None => {
                    return Err(
                        ConnectionError::InvalidPort(to_string(&chars_of(params.port.as_str()))),
                    );
                },
            }
        };
        Ok(
            ConnectionInfo {
                host: pick(&params.host, &d.host),
                port,
                user: pick(&params.user, &d.user),
                password: pick(&params.password, &d.password),
                database: pick(&params.database, &d.database),
                params: to_string(&chars_of(d.params.as_str())),
            },
        )
    }

    /// The name and settings of the connection that `connect` with these
    /// parameters opens: the parameters read, then filled from the default.
    pub fn connect_target(&self, params: &str) -> (res: Result<
        (String, ConnectionInfo),
        ConnectionError,
    >)
        requires
            trim(params@) != seq!['('],
        ensures
            !parenthesized(trim(params@)) ==> res matches Err(ConnectionError::NotParenthesized),
            parenthesized(trim(params@)) ==> {
                let port = connect_field(params@, 5);
                &&& (port.len() > 0 && parse_unsigned(port, 65535) is None) <==> res is Err
                &&& res matches Err(e) ==> e matches ConnectionError::InvalidPort(p) && p@ == port
                &&& res matches Ok(r) ==> {
                    let d = self.default_connection_info;
                    &&& r.0@ == connect_field(params@, 0)
                    &&& r.1.host@ == or_default(connect_field(params@, 1), d.host@)
                    &&& r.1.user@ == or_default(connect_field(params@, 2), d.user@)
                    &&& r.1.password@ == or_default(connect_field(params@, 3), d.password@)
                    &&& r.1.database@ == or_default(connect_field(params@, 4), d.database@)
                    &&& r.1.params@ == d.params@
                    &&& (port.len() == 0 ==> r.1.port == d.port)
                    &&& (port.len() > 0 ==> parse_unsigned(port, 65535) == Some(r.1.port as nat))
                }
            },
    {
        let p = match self.parse_connect_params(params) {
            Ok(p) => p,
            Err(e) => {
                return Err(e);
            },
        };
        match self.build_connection_info(&p) {
            Ok(info) => Ok((p.connection_name, info)),
            Err(e) => Err(e),
        }
    }

    /// Stores a newly opened connection under `name`, replacing one of the
    /// same name, and makes it current.
    pub fn add_connection(&mut self, name: String, db: D)
        requires
            old(self).wf(),
        ensures
            final(self).wf(),
            final(self).current_connection@ == name@,
            final(self).default_connection_info == old(self).default_connection_info,
            final(self).max_retries == old(self).max_retries,
            old(self).names().contains(name@) ==> exists|i: int|
                0 <= i < old(self).connections@.len() && old(self).connections@[i].0@ == name@
                    && final(self).connections@ == old(self).connections@.update(i, (name, db)),
            !old(self).names().contains(name@) ==> final(self).connections@ == old(
                self,
            ).connections@.push((name, db)),
    {
        let current = to_string(&chars_of(name.as_str()));
        match self.find(name.as_str()) {
            Some(i) => {
                assert(old(self).names()[i as int] == name@);
                let ghost before = self.connections@;
                self.connections.set(i, (name, db));
                assert forall|a: int, b: int|
                    0 <= a < self.connections@.len() && 0 <= b < self.connections@.len() && a
                        != b implies #[trigger] self.connections@[a].0@
                    != #[trigger] self.connections@[b].0@ by {
                    if a != i && b != i {
                        assert(before[a].0@ != before[b].0@);
                    } else if a == i {
                        assert(before[b].0@ != before[i as int].0@);
                    } else {
                        assert(before[a].0@ != before[i as int].0@);
                    }
                }
            },
            None => {
                let ghost before = self.connections@;
                let ghost entry = (name, db);
                self.connections.push((name, db));
                assert(self.connections@ == before.push(entry));
                assert forall|a: int, b: int|
                    0 <= a < self.connections@.len() && 0 <= b < self.connections@.len() && a
                        != b implies #[trigger] self.connections@[a].0@
                    != #[trigger] self.connections@[b].0@ by {
                    let last = before.len() as int;
                    if a != last && b != last {
                        assert(before[a].0@ != before[b].0@);
                    } else if a == last {
                        assert(old(self).names()[b] == before[b].0@);
                    } else {
                        assert(old(self).names()[a] == before[a].0@);
                    }
                }
            },
        }
        self.current_connection = current;
    }

    /// Makes the open connection `conn_name` current.
    pub fn switch_connection(&mut self, conn_name: &str) -> (res: Result<(), ConnectionError>)
        requires
            old(self).wf(),
        ensures
            final(self).wf(),
            final(self).connections@ == old(self).connections@,
            final(self).default_connection_info == old(self).default_connection_info,
            final(self).max_retries == old(self).max_retries,
            res is Ok <==> old(self).names().contains(conn_name@),
            res is Ok ==> final(self).current_connection@ == conn_name@,
            res matches Err(e) ==> final(self).current_connection == old(self).current_connection
                && (e matches ConnectionError::NotFound(n) && n@ == conn_name@),
    {
        match self.find(conn_name) {
            Some(i) => {
                assert(self.names()[i as int] == conn_name@);
                self.current_connection = to_string(&chars_of(conn_name));
                Ok(())
            },
            None => Err(ConnectionError::NotFound(to_string(&chars_of(conn_name)))),
        }
    }

    /// Closes the open connection `conn_name`, which may not be the default
    /// one; where it was current, the default one becomes current.
    pub fn disconnect(&mut self, conn_name: &str) -> (res: Result<(), ConnectionError>)
        requires
            old(self).wf(),
        ensures
            final(self).wf(),
            final(self).default_connection_info == old(self).default_connection_info,
            final(self).max_retries == old(self).max_retries,
            conn_name@ == default_name() ==> res matches Err(ConnectionError::DefaultDisconnect),
            conn_name@ != default_name() && !old(self).names().contains(conn_name@) ==> (res matches Err(ConnectionError::NotFound(n)) && n@ == conn_name@),
            res is Err ==> final(self).connections@ == old(self).connections@
                && final(self).current_connection == old(self).current_connection,
            res is Ok ==> conn_name@ != default_name() && exists|i: int|
                0 <= i < old(self).connections@.len() && old(self).connections@[i].0@ == conn_name@
                    && final(self).connections@ == old(self).connections@.remove(i),
            res is Ok ==> final(self).current_connection@ == (if old(self).current_connection@
                == conn_name@ {
                default_name()
            } else {
                old(self).current_connection@
            }),
            (conn_name@ != default_name() && old(self).names().contains(conn_name@)) ==> res is Ok,
    {
        if eq_str(&chars_of(conn_name), "default") {
            return Err(ConnectionError::DefaultDisconnect);
        }
        match self.find(conn_name) {
            None => Err(ConnectionError::NotFound(to_string(&chars_of(conn_name)))),
            Some(i) => {
                assert(self.names()[i as int] == conn_name@);
                if eq_vec(&chars_of(self.current_connection.as_str()), &chars_of(conn_name)) {
                    self.current_connection = to_string(&chars_of("default"));
                }
                let ghost before = self.connections@;
                let _closed = self.connections.remove(i);
                assert forall|a: int, b: int|
                    0 <= a < self.connections@.len() && 0 <= b < self.connections@.len() && a
                        != b implies #[trigger] self.connections@[a].0@
                    != #[trigger] self.connections@[b].0@ by {
                    let a2 = if a < i {
                        a
                    } else {
                        a + 1
                    };
                    let b2 = if b < i {
                        b
                    } else {
                        b + 1
                    };
                    assert(self.connections@[a] == before[a2]);
                    assert(self.connections@[b] == before[b2]);
                }
                Ok(())
            },
        }
    }

    /// The names of the open connections, oldest first.
    pub fn list_connections(&self) -> (res: Vec<String>)
        ensures
            string_views(res@) == self.names(),
    {
        let mut res: Vec<String> = Vec::new();
        let mut i: usize = 0;
        while i < self.connections.len()
            invariant
                i <= self.connections@.len(),
                string_views(res@) == self.names().take(i as int),
            decreases self.connections@.len() - i,
        {
            let ghost before = res@;
            res.push(to_string(&chars_of(self.connections[i].0.as_str())));
            assert(self.names()[i as int] == self.connections@[i as int].0@);
            assert(string_views(res@) =~= string_views(before).push(self.names()[i as int]));
            i += 1;
            assert(string_views(res@) =~= self.names().take(i as int));
        }
        assert(self.names().take(i as int) =~= self.names());
        res
    }

    /// `Current connection: NAME (available: [..])`, the open names listed
    /// as `{:?}` lists them.
    pub fn current_connection_info(&self) -> (res: String)
        ensures
            res@ == "Current connection: "@ + self.current_connection@ + " (available: "@
                + spec_debug_strings(self.names()) + ")"@,
    {
        let names = self.list_connections();
        let listed = debug_strings(&names);
        let mut out: Vec<char> = Vec::new();
        push_str(&mut out, "Current connection: ");
        push_str(&mut out, self.current_connection.as_str());
        push_str(&mut out, " (available: ");
        push_str(&mut out, listed.as_str());
        push_str(&mut out, ")");
        to_string(&out)
    }
}

/// A copy of `given` where it is not empty, else of `default`.
fn pick(given: &String, default: &String) -> (res: String)
    ensures
        res@ == or_default(given@, default@),
{
    let g = chars_of(given.as_str());
    if g.len() == 0 {
        to_string(&chars_of(default.as_str()))
    } else {
        to_string(&g)
    }
}

} // verus!
