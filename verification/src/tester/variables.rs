//! Variable system of the test runner: storage of `$name` variables,
//! expansion of `$name` references in text, and parsing of `let` statements.

use crate::text::{
    chars_of, chars_of_string, eq_vec, find_char_from, index_of, join, join_vecs, lemma_index_of,
    lemma_run_len, lemma_run_len_unique, push_all, push_str, run_len, subvec, to_string, trim,
    trim_str, trim_vec, views, string_views,
};
use crate::unicode::{
    char_is_alphabetic, char_is_alphanumeric, is_ascii_digit, is_ascii_letter,
    spec_is_alphabetic, spec_is_alphanumeric,
};
use vstd::hash_map::StringHashMap;
use vstd::prelude::*;

verus! {

/// Expansion gives up after this many rounds of re-expanding a result.
pub const MAX_EXPANSION_DEPTH: usize = 10;

/// First character of a variable name in a `$name` reference.
pub open spec fn is_ident_start(c: char) -> bool {
    is_ascii_letter(c) || c == '_'
}

/// Later characters of a variable name in a `$name` reference.
pub open spec fn is_ident_char(c: char) -> bool {
    is_ascii_letter(c) || is_ascii_digit(c) || c == '_'
}

pub open spec fn ident_pred() -> spec_fn(char) -> bool {
    |c: char| is_ident_char(c)
}

/// Length of the `$name` reference that starts `s` (`$` included), or 0 when
/// `s` does not start with one. A reference is `$`, a letter or `_`, then
/// letters, digits and `_` as far as they go.
pub open spec fn ref_len(s: Seq<char>) -> int {
    if s.len() > 1 && s[0] == '$' && is_ident_start(s[1]) {
        1 + run_len(s.drop_first(), ident_pred())
    } else {
        0
    }
}

pub proof fn lemma_ref_len(s: Seq<char>)
    ensures
        0 <= ref_len(s) <= s.len(),
        ref_len(s) > 0 ==> ref_len(s) >= 2,
{
    lemma_run_len(s.drop_first(), ident_pred());
    if s.len() > 1 && s[0] == '$' && is_ident_start(s[1]) {
        assert(ident_pred()(s.drop_first()[0]));
    }
}

/// One left-to-right pass that replaces each `$name` reference by the value
/// of `name`; references to names without a value are kept as they are.
pub open spec fn subst_pass(s: Seq<char>, vars: Map<Seq<char>, Seq<char>>) -> Seq<char>
    decreases s.len(),
{
    if s.len() == 0 {
        seq![]
    } else if ref_len(s) > 0 {
        let n = ref_len(s);
        proof {
            lemma_ref_len(s);
        }
        let name = s.subrange(1, n);
        (if vars.contains_key(name) {
            vars[name]
        } else {
            s.take(n)
        }) + subst_pass(s.skip(n), vars)
    } else {
        seq![s[0]] + subst_pass(s.drop_first(), vars)
    }
}

/// The names, in order of appearance, of the `$name` references in `s` whose
/// name has no value.
pub open spec fn undefined_refs(s: Seq<char>, vars: Map<Seq<char>, Seq<char>>) -> Seq<Seq<char>>
    decreases s.len(),
{
    if s.len() == 0 {
        seq![]
    } else if ref_len(s) > 0 {
        let n = ref_len(s);
        proof {
            lemma_ref_len(s);
        }
        let name = s.subrange(1, n);
        (if vars.contains_key(name) {
            seq![]
        } else {
            seq![name]
        }) + undefined_refs(s.skip(n), vars)
    } else {
        undefined_refs(s.drop_first(), vars)
    }
}

/// Why expanding a text or parsing a `let` statement failed.
pub enum VarFailure {
    Undefined(Seq<Seq<char>>),
    TooDeep,
    MissingEquals(Seq<char>),
    EmptyName,
    InvalidName(Seq<char>),
}

/// Expansion of `text` at recursion depth `depth`: substitute once; fail if
/// the result names undefined variables; stop when a pass changes nothing;
/// otherwise expand the result again, failing beyond depth 10.
pub open spec fn expand_spec(vars: Map<Seq<char>, Seq<char>>, text: Seq<char>, depth: int) -> Result<
    Seq<char>,
    VarFailure,
>
    decreases 11 - depth,
{
    if depth > 10 {
        Err(VarFailure::TooDeep)
    } else {
        let r = subst_pass(text, vars);
        let u = undefined_refs(r, vars);
        if u.len() > 0 {
            Err(VarFailure::Undefined(u))
        } else if r != text {
            expand_spec(vars, r, depth + 1)
        } else {
            Ok(r)
        }
    }
}

/// Error of the variable system.
#[derive(Debug, Clone)]
pub enum VariableError {
    /// `$name` references to variables without a value, in order of appearance.
    UndefinedVariables(Vec<String>),
    /// Expansion kept changing the text beyond the maximum depth.
    ExpansionDepthExceeded,
    /// A `let` statement without `=`; holds the statement.
    MissingEquals(String),
    /// A `let` statement with an empty variable name.
    EmptyName,
    /// A `let` statement whose variable name is not a valid identifier.
    InvalidName(String),
}

impl View for VariableError {
    type V = VarFailure;

    open spec fn view(&self) -> VarFailure {
        match self {
            VariableError::UndefinedVariables(v) => VarFailure::Undefined(string_views(v@)),
            VariableError::ExpansionDepthExceeded => VarFailure::TooDeep,
            VariableError::MissingEquals(s) => VarFailure::MissingEquals(s@),
            VariableError::EmptyName => VarFailure::EmptyName,
            VariableError::InvalidName(s) => VarFailure::InvalidName(s@),
        }
    }
}

/// The text of an error, as the test runner reports it.
pub open spec fn failure_message(f: VarFailure) -> Seq<char> {
    match f {
        VarFailure::Undefined(names) => if names.len() == 1 {
            "Undefined variable: $"@ + names[0]
        } else {
            "Undefined variables: $"@ + join(names, ", $"@)
        },
        VarFailure::TooDeep => "Variable expansion exceeded maximum depth (10)"@,
        VarFailure::MissingEquals(s) => "Invalid let statement: missing '=' in '"@ + s + "'"@,
        VarFailure::EmptyName => "Empty variable name in let statement"@,
        VarFailure::InvalidName(n) => "Invalid variable name '"@ + n
            + "': must start with letter or underscore, followed by alphanumeric characters or underscores"@,
    }
}

impl VariableError {
    /// The error text.
    pub fn message(&self) -> (res: String)
        ensures
            res@ == failure_message(self@),
    {
        let mut out: Vec<char> = Vec::new();
        match self {
            VariableError::UndefinedVariables(names) => {
                if names.len() == 1 {
                    push_str(&mut out, "Undefined variable: $");
                    push_all(&mut out, &chars_of_string(&names[0]));
                } else {
                    push_str(&mut out, "Undefined variables: $");
                    let mut parts: Vec<Vec<char>> = Vec::new();
                    let mut i: usize = 0;
                    while i < names.len()
                        invariant
                            i <= names.len(),
                            views(parts@) == string_views(names@).take(i as int),
                        decreases names.len() - i,
                    {
                        let ghost before = parts@;
                        parts.push(chars_of_string(&names[i]));
                        assert(views(parts@) =~= views(before).push(names@[i as int]@));
                        assert(views(parts@) =~= string_views(names@).take(i + 1));
                        i += 1;
                    }
                    assert(string_views(names@).take(names.len() as int) =~= string_views(
                        names@,
                    ));
                    let sep = chars_of(", $");
                    let joined = join_vecs(&parts, &sep);
                    push_all(&mut out, &joined);
                }
            },
            VariableError::ExpansionDepthExceeded => {
                push_str(&mut out, "Variable expansion exceeded maximum depth (10)");
            },
            VariableError::MissingEquals(s) => {
                push_str(&mut out, "Invalid let statement: missing '=' in '");
                push_all(&mut out, &chars_of_string(s));
                push_str(&mut out, "'");
            },
            VariableError::EmptyName => {
                push_str(&mut out, "Empty variable name in let statement");
            },
            VariableError::InvalidName(n) => {
                push_str(&mut out, "Invalid variable name '");
                push_all(&mut out, &chars_of_string(n));
                push_str(
                    &mut out,
                    "': must start with letter or underscore, followed by alphanumeric characters or underscores",
                );
            },
        }
        assert(out@ =~= failure_message(self@));
        to_string(&out)
    }
}

/// Storage of test variables (name to value).
pub struct VariableContext {
    variables: StringHashMap<String>,
    names: Vec<String>,
}

impl View for VariableContext {
    type V = Map<Seq<char>, Seq<char>>;

    closed spec fn view(&self) -> Map<Seq<char>, Seq<char>> {
        self.variables@.map_values(|v: String| v@)
    }
}

impl VariableContext {
    /// The names are listed once each, and exactly the names that have a value.
    pub closed spec fn wf(&self) -> bool {
        &&& forall|i: int, j: int|
            0 <= i < self.names.len() && 0 <= j < self.names.len() && i != j
                ==> #[trigger] self.names@[i]@ != #[trigger] self.names@[j]@
        &&& forall|i: int|
            0 <= i < self.names.len() ==> self.variables@.contains_key(#[trigger] self.names@[i]@)
        &&& forall|k: Seq<char>|
            #[trigger] self.variables@.contains_key(k) ==> exists|i: int|
                0 <= i < self.names.len() && #[trigger] self.names@[i]@ == k
    }

    /// An empty variable context.
    pub fn new() -> (res: Self)
        ensures
            res.wf(),
            res@ == Map::<Seq<char>, Seq<char>>::empty(),
    {
        let res = VariableContext { variables: StringHashMap::new(), names: Vec::new() };
        assert(res@ =~= Map::<Seq<char>, Seq<char>>::empty());
        res
    }

    /// Gives `name` the value `value`, replacing any earlier value.
    pub fn set(&mut self, name: &str, value: &str)
        requires
            old(self).wf(),
        ensures
            final(self).wf(),
            final(self)@ == old(self)@.insert(name@, value@),
    {
        let key = String::from_str(name);
        let val = String::from_str(value);
        if !self.variables.contains_key(name) {
            let k2 = key.clone();
            self.names.push(k2);
        }
        self.variables.insert(key, val);
        proof {
            assert forall|k: Seq<char>| #[trigger] self.variables@.contains_key(k) implies exists|
                i: int,
            | 0 <= i < self.names.len() && #[trigger] self.names@[i]@ == k by {
                if k == name@ {
                    if !old(self).variables@.contains_key(name@) {
                        assert(self.names@[self.names.len() - 1]@ == k);
                    } else {
                        assert(old(self).variables@.contains_key(k));
                    }
                } else {
                    assert(old(self).variables@.contains_key(k));
                    let i = choose|i: int|
                        0 <= i < old(self).names.len() && #[trigger] old(self).names@[i]@ == k;
                    assert(self.names@[i] == old(self).names@[i]);
                }
            }
            assert forall|i: int, j: int|
                0 <= i < self.names.len() && 0 <= j < self.names.len() && i != j
                    implies #[trigger] self.names@[i]@ != #[trigger] self.names@[j]@ by {
                if i < old(self).names.len() && j < old(self).names.len() {
                    assert(self.names@[i] == old(self).names@[i]);
                    assert(self.names@[j] == old(self).names@[j]);
                } else if i < old(self).names.len() {
                    assert(old(self).variables@.contains_key(old(self).names@[i]@));
                } else {
                    assert(old(self).variables@.contains_key(old(self).names@[j]@));
                }
            }
            assert forall|i: int| 0 <= i < self.names.len() implies self.variables@.contains_key(
                #[trigger] self.names@[i]@,
            ) by {
                if i < old(self).names.len() {
                    assert(self.names@[i] == old(self).names@[i]);
                }
            }
        }
        assert(self@ =~= old(self)@.insert(name@, value@));
    }

    /// The value of `name`, if it has one.
    pub fn get(&self, name: &str) -> (res: Option<&String>)
        ensures
            match res {
                Some(v) => self@.contains_key(name@) && v@ == self@[name@],
                None => !self@.contains_key(name@),
            },
    {
        self.variables.get(name)
    }

    /// Whether `name` has a value.
    pub fn contains(&self, name: &str) -> (res: bool)
        ensures
            res == self@.contains_key(name@),
    {
        self.variables.contains_key(name)
    }

    /// Removes `name`, returning the value it had.
    pub fn remove(&mut self, name: &str) -> (res: Option<String>)
        requires
            old(self).wf(),
        ensures
            final(self).wf(),
            final(self)@ == old(self)@.remove(name@),
            match res {
                Some(v) => old(self)@.contains_key(name@) && v@ == old(self)@[name@],
                None => !old(self)@.contains_key(name@),
            },
    {
        let old_value = match self.variables.get(name) {
            Some(v) => Some(v.clone()),
            None => None,
        };
        if old_value.is_none() {
            return None;
        }
        let key = String::from_str(name);
        let mut i: usize = 0;
        while i < self.names.len() && !(self.names[i] == key)
            invariant
                self.wf(),
                *self == *old(self),
                key@ == name@,
                self.variables@.contains_key(name@),
                i <= self.names.len(),
                forall|k: int| 0 <= k < i ==> self.names@[k]@ != name@,
            decreases self.names.len() - i,
        {
            i += 1;
        }
        proof {
            if i == self.names.len() {
                let j = choose|j: int| 0 <= j < self.names.len() && #[trigger] self.names@[j]@ == name@;
                assert(self.names@[j]@ == name@);
            }
        }
        assert(self.names@[i as int]@ == name@);
        self.names.remove(i);
        self.variables.remove(name);
        proof {
            assert forall|a: int, b: int|
                0 <= a < self.names.len() && 0 <= b < self.names.len() && a != b
                    implies #[trigger] self.names@[a]@ != #[trigger] self.names@[b]@ by {
                let a0 = if a < i { a } else { a + 1 };
                let b0 = if b < i { b } else { b + 1 };
                assert(self.names@[a] == old(self).names@[a0]);
                assert(self.names@[b] == old(self).names@[b0]);
                assert(old(self).names@[a0]@ != old(self).names@[b0]@);
            }
            assert forall|a: int| 0 <= a < self.names.len() implies self.variables@.contains_key(
                #[trigger] self.names@[a]@,
            ) by {
                let a0 = if a < i { a } else { a + 1 };
                assert(self.names@[a] == old(self).names@[a0]);
                assert(old(self).names@[a0]@ != old(self).names@[i as int]@);
            }
            assert forall|k: Seq<char>| #[trigger] self.variables@.contains_key(k) implies exists|
                a: int,
            | 0 <= a < self.names.len() && #[trigger] self.names@[a]@ == k by {
                assert(old(self).variables@.contains_key(k));
                let j = choose|j: int|
                    0 <= j < old(self).names.len() && #[trigger] old(self).names@[j]@ == k;
                if j < i {
                    assert(self.names@[j] == old(self).names@[j]);
                } else {
                    assert(j != i);
                    assert(self.names@[j - 1] == old(self).names@[j]);
                }
            }
        }
        assert(self@ =~= old(self)@.remove(name@));
        old_value
    }

    /// Removes every variable.
    pub fn clear(&mut self)
        ensures
            final(self).wf(),
            final(self)@ == Map::<Seq<char>, Seq<char>>::empty(),
    {
        self.variables.clear();
        self.names.clear();
        assert(self@ =~= Map::<Seq<char>, Seq<char>>::empty());
    }

    /// The names of all variables, each once, in no particular order.
    pub fn keys(&self) -> (res: Vec<String>)
        requires
            self.wf(),
        ensures
            forall|i: int, j: int|
                0 <= i < res.len() && 0 <= j < res.len() && i != j ==> #[trigger] res@[i]@
                    != #[trigger] res@[j]@,
            forall|i: int| 0 <= i < res.len() ==> self@.contains_key(#[trigger] res@[i]@),
            forall|k: Seq<char>| #[trigger]
                self@.contains_key(k) ==> exists|i: int| 0 <= i < res.len() && #[trigger] res@[i]@ == k,
    {
        let mut res: Vec<String> = Vec::new();
        let mut i: usize = 0;
        while i < self.names.len()
            invariant
                i <= self.names.len(),
                res.len() == i,
                forall|k: int| 0 <= k < i ==> #[trigger] res@[k]@ == self.names@[k]@,
            decreases self.names.len() - i,
        {
            res.push(self.names[i].clone());
            i += 1;
        }
        proof {
            assert forall|k: Seq<char>| #[trigger] self@.contains_key(k) implies exists|i: int|
                0 <= i < res.len() && #[trigger] res@[i]@ == k by {
                assert(self.variables@.contains_key(k));
                let j = choose|j: int| 0 <= j < self.names.len() && #[trigger] self.names@[j]@ == k;
                assert(res@[j]@ == k);
            }
            assert forall|a: int, b: int|
                0 <= a < res.len() && 0 <= b < res.len() && a != b implies #[trigger] res@[a]@
                    != #[trigger] res@[b]@ by {
                assert(res@[a]@ == self.names@[a]@);
                assert(res@[b]@ == self.names@[b]@);
            }
            assert forall|a: int| 0 <= a < res.len() implies self@.contains_key(
                #[trigger] res@[a]@,
            ) by {
                assert(res@[a]@ == self.names@[a]@);
            }
        }
        res
    }
}


fn is_ident_start_char(c: char) -> (res: bool)
    ensures
        res == is_ident_start(c),
{
    let n = c as u32;
    (65 <= n && n <= 90) || (97 <= n && n <= 122) || n == 95
}

fn is_ident_char_exec(c: char) -> (res: bool)
    ensures
        res == is_ident_char(c),
{
    let n = c as u32;
    (65 <= n && n <= 90) || (97 <= n && n <= 122) || (48 <= n && n <= 57) || n == 95
}

/// End of the `$name` reference that starts at `pos`, or `pos` when none does.
fn ref_end(v: &Vec<char>, pos: usize) -> (res: usize)
    requires
        pos < v.len(),
    ensures
        pos <= res <= v.len(),
        res - pos == ref_len(v@.skip(pos as int)),
{
    let ghost t = v@.skip(pos as int);
    if v[pos] == '$' && pos + 1 < v.len() && is_ident_start_char(v[pos + 1]) {
        let mut e = pos + 1;
        while e < v.len() && is_ident_char_exec(v[e])
            invariant
                pos + 1 <= e <= v.len(),
                forall|k: int| pos + 1 <= k < e ==> is_ident_char(#[trigger] v@[k]),
            decreases v.len() - e,
        {
            e += 1;
        }
        proof {
            let u = t.drop_first();
            assert(u =~= v@.skip(pos + 1));
            assert forall|k: int| 0 <= k < e - pos - 1 implies #[trigger] ident_pred()(u[k]) by {
                assert(u[k] == v@[k + pos + 1]);
            }
            lemma_run_len_unique(u, ident_pred(), e - pos - 1);
        }
        e
    } else {
        pos
    }
}

pub open spec fn expand_view(r: Result<String, VariableError>) -> Result<Seq<char>, VarFailure> {
    match r {
        Ok(s) => Ok(s@),
        Err(e) => Err(e@),
    }
}

pub open spec fn expand_vec_view(r: Result<Vec<char>, VariableError>) -> Result<
    Seq<char>,
    VarFailure,
> {
    match r {
        Ok(s) => Ok(s@),
        Err(e) => Err(e@),
    }
}

impl VariableContext {
    proof fn lemma_view_lookup(&self, k: Seq<char>)
        ensures
            self@.contains_key(k) == self.variables@.contains_key(k),
            self@.contains_key(k) ==> self@[k] == self.variables@[k]@,
    {
    }

    /// One substitution pass over `text`.
    fn subst(&self, text: &Vec<char>) -> (res: Vec<char>)
        ensures
            res@ == subst_pass(text@, self@),
    {
        let mut out: Vec<char> = Vec::new();
        let mut pos: usize = 0;
        assert(text@.skip(0) =~= text@);
        while pos < text.len()
            invariant
                pos <= text.len(),
                out@ + subst_pass(text@.skip(pos as int), self@) == subst_pass(text@, self@),
            decreases text.len() - pos,
        {
            let ghost t = text@.skip(pos as int);
            let ghost before = out@;
            let e = ref_end(text, pos);
            if e > pos {
                proof {
                    lemma_ref_len(t);
                }
                let name = subvec(text, pos + 1, e);
                assert(name@ =~= t.subrange(1, e - pos));
                let name_s = to_string(&name);
                proof {
                    self.lemma_view_lookup(name@);
                }
                match self.variables.get(name_s.as_str()) {
                    Some(v) => {
                        let vc = chars_of_string(v);
                        push_all(&mut out, &vc);
                    },
                    None => {
                        let raw = subvec(text, pos, e);
                        assert(raw@ =~= t.take(e - pos));
                        push_all(&mut out, &raw);
                    },
                }
                assert(t.skip(e - pos) =~= text@.skip(e as int));
                pos = e;
            } else {
                out.push(text[pos]);
                assert(t.drop_first() =~= text@.skip(pos + 1));
                pos += 1;
            }
            assert(out@ + subst_pass(text@.skip(pos as int), self@) =~= before + subst_pass(
                t,
                self@,
            ));
        }
        assert(text@.skip(pos as int) =~= Seq::<char>::empty());
        assert(out@ + Seq::<char>::empty() =~= out@);
        out
    }

    /// The names referenced in `text` that have no value, in order.
    fn undefined(&self, text: &Vec<char>) -> (res: Vec<String>)
        ensures
            string_views(res@) == undefined_refs(text@, self@),
    {
        let mut out: Vec<String> = Vec::new();
        let mut pos: usize = 0;
        assert(text@.skip(0) =~= text@);
        while pos < text.len()
            invariant
                pos <= text.len(),
                string_views(out@) + undefined_refs(text@.skip(pos as int), self@)
                    == undefined_refs(text@, self@),
            decreases text.len() - pos,
        {
            let ghost t = text@.skip(pos as int);
            let ghost before = string_views(out@);
            let e = ref_end(text, pos);
            if e > pos {
                proof {
                    lemma_ref_len(t);
                }
                let name = subvec(text, pos + 1, e);
                assert(name@ =~= t.subrange(1, e - pos));
                let name_s = to_string(&name);
                proof {
                    self.lemma_view_lookup(name@);
                }
                if !self.variables.contains_key(name_s.as_str()) {
                    out.push(name_s);
                    assert(string_views(out@) =~= before.push(name@));
                }
                assert(t.skip(e - pos) =~= text@.skip(e as int));
                pos = e;
            } else {
                assert(t.drop_first() =~= text@.skip(pos + 1));
                pos += 1;
            }
            assert(string_views(out@) + undefined_refs(text@.skip(pos as int), self@) =~= before
                + undefined_refs(t, self@));
        }
        assert(text@.skip(pos as int) =~= Seq::<char>::empty());
        assert(string_views(out@) + Seq::<Seq<char>>::empty() =~= string_views(out@));
        out
    }

    /// Expansion at recursion depth `depth`.
    fn expand_with_depth(&self, text: Vec<char>, depth: usize) -> (res: Result<
        Vec<char>,
        VariableError,
    >)
        requires
            depth <= MAX_EXPANSION_DEPTH + 1,
        ensures
            expand_vec_view(res) == expand_spec(self@, text@, depth as int),
        decreases MAX_EXPANSION_DEPTH + 1 - depth,
    {
        if depth > MAX_EXPANSION_DEPTH {
            return Err(VariableError::ExpansionDepthExceeded);
        }
        let result = self.subst(&text);
        let undefined_vars = self.undefined(&result);
        if undefined_vars.len() > 0 {
            return Err(VariableError::UndefinedVariables(undefined_vars));
        }
        if !eq_vec(&result, &text) {
            self.expand_with_depth(result, depth + 1)
        } else {
            Ok(result)
        }
    }

    /// Replaces every `$name` reference in `text` by the value of `name`,
    /// again and again until nothing changes. Fails when a reference names a
    /// variable without a value, or when the text still changes after ten
    /// rounds of re-expansion.
    pub fn expand(&self, text: &str) -> (res: Result<String, VariableError>)
        ensures
            expand_view(res) == expand_spec(self@, text@, 0),
    {
        let v = chars_of(text);
        match self.expand_with_depth(v, 0) {
            Ok(r) => Ok(to_string(&r)),
            Err(e) => Err(e),
        }
    }
}


/// A parsed `let` statement.
#[derive(Debug, Clone, PartialEq)]
pub struct LetStatement {
    pub name: String,
    pub value: String,
    /// `true` for an environment variable (`let NAME = ..`), `false` for a
    /// test variable (`let $name = ..`).
    pub is_env: bool,
}

/// The statement begins with `let ` in any letter case.
pub open spec fn has_let_prefix(s: Seq<char>) -> bool {
    &&& s.len() >= 4
    &&& (s[0] == 'l' || s[0] == 'L')
    &&& (s[1] == 'e' || s[1] == 'E')
    &&& (s[2] == 't' || s[2] == 'T')
    &&& s[3] == ' '
}

/// A variable name starts with a letter or `_` and goes on with letters,
/// digits and `_` (letters and digits in Unicode's sense).
pub open spec fn valid_var_name(n: Seq<char>) -> bool {
    &&& n.len() > 0
    &&& (spec_is_alphabetic(n[0]) || n[0] == '_')
    &&& forall|i: int| 0 <= i < n.len() ==> (spec_is_alphanumeric(#[trigger] n[i]) || n[i] == '_')
}

/// The part of a `let` statement after the `let` keyword.
pub open spec fn let_body(statement: Seq<char>) -> Seq<char> {
    let st = trim(statement);
    if has_let_prefix(st) {
        trim(st.skip(4))
    } else {
        st
    }
}

/// Parse of a `let` statement: `let $name = value` (a test variable) or
/// `let NAME = value` (an environment variable), the `let` keyword being
/// optional; the value is expanded. Gives name, expanded value and whether
/// the variable is an environment variable.
pub open spec fn parse_let_spec(vars: Map<Seq<char>, Seq<char>>, statement: Seq<char>) -> Result<
    (Seq<char>, Seq<char>, bool),
    VarFailure,
> {
    let body = let_body(statement);
    let eq = index_of(body, '=');
    if eq >= body.len() {
        Err(VarFailure::MissingEquals(body))
    } else {
        let name_part = trim(body.take(eq));
        let value_part = trim(body.skip(eq + 1));
        let is_env = !(name_part.len() > 0 && name_part[0] == '$');
        let name = if is_env {
            name_part
        } else {
            name_part.drop_first()
        };
        if name.len() == 0 {
            Err(VarFailure::EmptyName)
        } else if !valid_var_name(name) {
            Err(VarFailure::InvalidName(name))
        } else {
            match expand_spec(vars, value_part, 0) {
                Ok(v) => Ok((name, v, is_env)),
                Err(e) => Err(e),
            }
        }
    }
}

pub open spec fn let_view(r: Result<LetStatement, VariableError>) -> Result<
    (Seq<char>, Seq<char>, bool),
    VarFailure,
> {
    match r {
        Ok(l) => Ok((l.name@, l.value@, l.is_env)),
        Err(e) => Err(e@),
    }
}

/// Whether `n` is a valid variable name.
fn check_var_name(n: &Vec<char>) -> (res: bool)
    requires
        n.len() > 0,
    ensures
        res == valid_var_name(n@),
{
    let first = n[0];
    if !(char_is_alphabetic(first) || first == '_') {
        return false;
    }
    let mut i: usize = 0;
    while i < n.len()
        invariant
            i <= n.len(),
            forall|k: int| 0 <= k < i ==> (spec_is_alphanumeric(#[trigger] n@[k]) || n@[k] == '_'),
        decreases n.len() - i,
    {
        if !(char_is_alphanumeric(n[i]) || n[i] == '_') {
            return false;
        }
        i += 1;
    }
    true
}

impl VariableContext {
    /// Parses a `let` statement and expands variables in its value.
    ///
    /// Accepts `let $var_name = value` (a test variable) and
    /// `let VAR_NAME = value` (an environment variable).
    pub fn parse_let_statement(&self, statement: &str) -> (res: Result<LetStatement, VariableError>)
        ensures
            let_view(res) == parse_let_spec(self@, statement@),
    {
        let st = trim_str(statement);
        let body = if st.len() >= 4 && (st[0] == 'l' || st[0] == 'L') && (st[1] == 'e' || st[1]
            == 'E') && (st[2] == 't' || st[2] == 'T') && st[3] == ' ' {
            let rest = subvec(&st, 4, st.len());
            assert(rest@ =~= st@.skip(4));
            trim_vec(&rest)
        } else {
            st
        };
        assert(body@ == let_body(statement@));
        assert(body@.skip(0) =~= body@);
        let eq = find_char_from(&body, '=', 0);
        proof {
            lemma_index_of(body@, '=');
        }
        if eq >= body.len() {
            return Err(VariableError::MissingEquals(to_string(&body)));
        }
        let name_part = trim_vec(&subvec(&body, 0, eq));
        assert(body@.subrange(0, eq as int) =~= body@.take(eq as int));
        let value_part = trim_vec(&subvec(&body, eq + 1, body.len()));
        assert(body@.subrange(eq + 1, body.len() as int) =~= body@.skip(eq + 1));
        let is_env = !(name_part.len() > 0 && name_part[0] == '$');
        let var_name = if is_env {
            name_part
        } else {
            let n = subvec(&name_part, 1, name_part.len());
            assert(n@ =~= name_part@.drop_first());
            n
        };
        if var_name.len() == 0 {
            return Err(VariableError::EmptyName);
        }
        if !check_var_name(&var_name) {
            return Err(VariableError::InvalidName(to_string(&var_name)));
        }
        match self.expand_with_depth(value_part, 0) {
            Ok(v) => Ok(LetStatement { name: to_string(&var_name), value: to_string(&v), is_env }),
            Err(e) => Err(e),
        }
    }
}

/// Handler of the `let` command.
pub struct LetHandler;

impl LetHandler {
    /// Parses a `let` statement and assigns the variable. Returns the
    /// assignment made; the caller also exports an environment variable
    /// (`is_env`) to the process environment.
    pub fn handle(variable_context: &mut VariableContext, statement: &str) -> (res: Result<
        LetStatement,
        VariableError,
    >)
        requires
            old(variable_context).wf(),
        ensures
            final(variable_context).wf(),
            let_view(res) == parse_let_spec(old(variable_context)@, statement@),
            match res {
                Ok(l) => final(variable_context)@ == old(variable_context)@.insert(l.name@, l.value@),
                Err(_) => final(variable_context)@ == old(variable_context)@,
            },
    {
        let stmt = variable_context.parse_let_statement(statement);
        match stmt {
            Ok(l) => {
                variable_context.set(l.name.as_str(), l.value.as_str());
                Ok(l)
            },
            Err(e) => Err(e),
        }
    }
}


proof fn lemma_expand_ok_is_fixed(vars: Map<Seq<char>, Seq<char>>, text: Seq<char>, depth: int)
    requires
        expand_spec(vars, text, depth) is Ok,
    ensures
        ({
            let r = expand_spec(vars, text, depth)->Ok_0;
            subst_pass(r, vars) == r && undefined_refs(r, vars).len() == 0
        }),
    decreases 11 - depth,
{
    if depth <= 10 {
        let r = subst_pass(text, vars);
        if undefined_refs(r, vars).len() == 0 && r != text {
            lemma_expand_ok_is_fixed(vars, r, depth + 1);
        }
    }
}

/// Expanding an expanded text changes nothing: the result of a successful
/// expansion expands to itself.
pub proof fn law_expand_idempotent(vars: Map<Seq<char>, Seq<char>>, text: Seq<char>, r: Seq<char>)
    requires
        expand_spec(vars, text, 0) == Ok::<Seq<char>, VarFailure>(r),
    ensures
        expand_spec(vars, r, 0) == Ok::<Seq<char>, VarFailure>(r),
{
    lemma_expand_ok_is_fixed(vars, text, 0);
}

/// The number of `$` in `s`.
pub open spec fn dollar_count(s: Seq<char>) -> nat
    decreases s.len(),
{
    if s.len() == 0 {
        0
    } else {
        (if s[0] == '$' {
            1nat
        } else {
            0nat
        }) + dollar_count(s.drop_first())
    }
}

/// `s` holds no `$name` reference: no `$` is followed by a letter or `_`.
pub open spec fn no_reference(s: Seq<char>) -> bool {
    forall|i: int| 0 <= i < s.len() - 1 && s[i] == '$' ==> !is_ident_start(#[trigger] s[i + 1])
}

/// No stored value holds a `$`.
pub open spec fn values_without_dollar(vars: Map<Seq<char>, Seq<char>>) -> bool {
    forall|k: Seq<char>| vars.contains_key(k) ==> !(#[trigger] vars[k]).contains('$')
}

proof fn lemma_dollar_count_concat(a: Seq<char>, b: Seq<char>)
    ensures
        dollar_count(a + b) == dollar_count(a) + dollar_count(b),
    decreases a.len(),
{
    if a.len() > 0 {
        assert((a + b).drop_first() =~= a.drop_first() + b);
        lemma_dollar_count_concat(a.drop_first(), b);
    } else {
        assert(a + b =~= b);
    }
}

proof fn lemma_dollar_count_none(s: Seq<char>)
    requires
        !s.contains('$'),
    ensures
        dollar_count(s) == 0,
    decreases s.len(),
{
    if s.len() > 0 {
        assert(s[0] != '$');
        assert(!s.drop_first().contains('$')) by {
            if s.drop_first().contains('$') {
                let i = choose|i: int| 0 <= i < s.drop_first().len() && s.drop_first()[i] == '$';
                assert(s[i + 1] == '$');
            }
        }
        lemma_dollar_count_none(s.drop_first());
    }
}

/// With `$`-free values, a pass never adds a `$`, and a text holding a
/// reference either loses a `$` or names an undefined variable.
proof fn lemma_pass_removes_references(s: Seq<char>, vars: Map<Seq<char>, Seq<char>>)
    requires
        values_without_dollar(vars),
    ensures
        dollar_count(subst_pass(s, vars)) <= dollar_count(s),
        !no_reference(s) ==> dollar_count(subst_pass(s, vars)) < dollar_count(s) || undefined_refs(
            s,
            vars,
        ).len() > 0,
    decreases s.len(),
{
    if s.len() == 0 {
    } else if ref_len(s) > 0 {
        let n = ref_len(s);
        lemma_ref_len(s);
        let name = s.subrange(1, n);
        lemma_pass_removes_references(s.skip(n), vars);
        assert(s =~= s.take(n) + s.skip(n));
        lemma_dollar_count_concat(s.take(n), s.skip(n));
        assert(s.take(n)[0] == '$');
        assert(dollar_count(s.take(n)) >= 1);
        if vars.contains_key(name) {
            assert(!vars[name].contains('$'));
            lemma_dollar_count_none(vars[name]);
            lemma_dollar_count_concat(vars[name], subst_pass(s.skip(n), vars));
        } else {
            lemma_dollar_count_concat(s.take(n), subst_pass(s.skip(n), vars));
        }
    } else {
        lemma_pass_removes_references(s.drop_first(), vars);
        lemma_dollar_count_concat(seq![s[0]], subst_pass(s.drop_first(), vars));
        assert(dollar_count(seq![s[0]]) == if s[0] == '$' { 1nat } else { 0nat }) by {
            assert(seq![s[0]].drop_first() =~= Seq::<char>::empty());
            assert(dollar_count(Seq::<char>::empty()) == 0);
        }
        if !no_reference(s) {
            let i = choose|i: int| 0 <= i < s.len() - 1 && s[i] == '$' && is_ident_start(#[trigger] s[i + 1]);
            lemma_run_len(s.drop_first(), ident_pred());
            assert(i != 0);
            let t = s.drop_first();
            assert(t[i - 1] == '$' && t[i] == s[i + 1]);
            assert(!no_reference(t));
        }
    }
}

/// With values free of `$`, a successful expansion leaves no `$name`
/// reference in its result: every reference was replaced.
pub proof fn law_expand_leaves_no_reference(
    vars: Map<Seq<char>, Seq<char>>,
    text: Seq<char>,
    r: Seq<char>,
)
    requires
        values_without_dollar(vars),
        expand_spec(vars, text, 0) == Ok::<Seq<char>, VarFailure>(r),
    ensures
        no_reference(r),
{
    lemma_expand_ok_is_fixed(vars, text, 0);
    lemma_pass_removes_references(r, vars);
}

proof fn lemma_no_dollar_fixed(vars: Map<Seq<char>, Seq<char>>, s: Seq<char>)
    requires
        !s.contains('$'),
    ensures
        subst_pass(s, vars) == s,
        undefined_refs(s, vars) == Seq::<Seq<char>>::empty(),
    decreases s.len(),
{
    if s.len() > 0 {
        assert(s[0] != '$');
        assert(!s.drop_first().contains('$')) by {
            if s.drop_first().contains('$') {
                let i = choose|i: int| 0 <= i < s.drop_first().len() && s.drop_first()[i] == '$';
                assert(s[i + 1] == '$');
            }
        }
        lemma_no_dollar_fixed(vars, s.drop_first());
        assert(seq![s[0]] + s.drop_first() =~= s);
    }
}

/// A text without `$` expands to itself.
pub proof fn law_expand_without_references(vars: Map<Seq<char>, Seq<char>>, text: Seq<char>)
    requires
        !text.contains('$'),
    ensures
        expand_spec(vars, text, 0) == Ok::<Seq<char>, VarFailure>(text),
{
    lemma_no_dollar_fixed(vars, text);
}

proof fn lemma_reference_len(name: Seq<char>)
    requires
        name.len() > 0,
        is_ident_start(name[0]),
        forall|i: int| 0 <= i < name.len() ==> is_ident_char(#[trigger] name[i]),
    ensures
        ref_len(seq!['$'] + name) == name.len() + 1,
{
    let s = seq!['$'] + name;
    assert(s.drop_first() =~= name);
    assert forall|k: int| 0 <= k < name.len() implies #[trigger] ident_pred()(name[k]) by {}
    lemma_run_len_unique(name, ident_pred(), name.len() as int);
}

/// `$name` alone expands to the value of `name` when that value holds no
/// `$`.
pub proof fn law_expand_single_reference(vars: Map<Seq<char>, Seq<char>>, name: Seq<char>)
    requires
        name.len() > 0,
        is_ident_start(name[0]),
        forall|i: int| 0 <= i < name.len() ==> is_ident_char(#[trigger] name[i]),
        vars.contains_key(name),
        !vars[name].contains('$'),
    ensures
        expand_spec(vars, seq!['$'] + name, 0) == Ok::<Seq<char>, VarFailure>(vars[name]),
{
    let s = seq!['$'] + name;
    lemma_reference_len(name);
    let n = name.len() + 1;
    assert(s.subrange(1, n as int) =~= name);
    assert(s.skip(n as int) =~= Seq::<char>::empty());
    assert(subst_pass(s.skip(n as int), vars) == Seq::<char>::empty());
    assert(subst_pass(s, vars) =~= vars[name]);
    lemma_no_dollar_fixed(vars, vars[name]);
    assert(s.contains('$')) by {
        assert(s[0] == '$');
    }
    assert(vars[name] != s);
    assert(undefined_refs(subst_pass(s, vars), vars).len() == 0);
    assert(expand_spec(vars, vars[name], 1) == Ok::<Seq<char>, VarFailure>(vars[name]));
}

/// `$name` alone, where `name` has no value, fails and names `name`.
pub proof fn law_expand_undefined_reference(vars: Map<Seq<char>, Seq<char>>, name: Seq<char>)
    requires
        name.len() > 0,
        is_ident_start(name[0]),
        forall|i: int| 0 <= i < name.len() ==> is_ident_char(#[trigger] name[i]),
        !vars.contains_key(name),
    ensures
        expand_spec(vars, seq!['$'] + name, 0) == Err::<Seq<char>, VarFailure>(
            VarFailure::Undefined(seq![name]),
        ),
{
    let s = seq!['$'] + name;
    lemma_reference_len(name);
    let n = name.len() + 1;
    assert(s.subrange(1, n as int) =~= name);
    assert(s.skip(n as int) =~= Seq::<char>::empty());
    assert(s.take(n as int) =~= s);
    assert(subst_pass(s.skip(n as int), vars) == Seq::<char>::empty());
    assert(subst_pass(s, vars) =~= s);
    assert(undefined_refs(s.skip(n as int), vars) == Seq::<Seq<char>>::empty());
    assert(undefined_refs(s, vars) =~= seq![name]);
}

/// A read gives back what a write wrote: after `set(name, value)` the
/// context maps `name` to `value` and every other name keeps its value.
pub proof fn law_set_then_get(
    before: Map<Seq<char>, Seq<char>>,
    after: Map<Seq<char>, Seq<char>>,
    name: Seq<char>,
    value: Seq<char>,
    other: Seq<char>,
)
    requires
        after == before.insert(name, value),
    ensures
        after.contains_key(name),
        after[name] == value,
        other != name ==> after.contains_key(other) == before.contains_key(other),
        other != name && before.contains_key(other) ==> after[other] == before[other],
{
}

/// After `remove(name)` the name has no value and other names keep theirs.
pub proof fn law_remove_then_absent(
    before: Map<Seq<char>, Seq<char>>,
    after: Map<Seq<char>, Seq<char>>,
    name: Seq<char>,
    other: Seq<char>,
)
    requires
        after == before.remove(name),
    ensures
        !after.contains_key(name),
        other != name ==> after.contains_key(other) == before.contains_key(other),
        other != name && before.contains_key(other) ==> after[other] == before[other],
{
}

impl Default for VariableContext {
    /// The same as [`VariableContext::new`].
    fn default() -> (res: Self)
        ensures
            res.wf(),
            res@ == Map::<Seq<char>, Seq<char>>::empty(),
    {
        VariableContext::new()
    }
}

} // verus!
