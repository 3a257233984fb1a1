//! Which tests the command line names.
//!
//! The caller looks at the file system (is the input a directory, a file,
//! which `.test` files lie under `t/`); this module decides, from what it
//! saw, which tests run and under which names.

use vstd::prelude::*;
use crate::cli::{clean_test_name, Args, CliError, ResolvedTest};
use crate::text::{
    chars_of, contains, contains_vec, lemma_str_le_total, push_str, str_le, str_le_vec, to_string,
};

verus! {

/// A test as (name, path).
pub open spec fn test_view(t: ResolvedTest) -> (Seq<char>, Seq<char>) {
    (t.name@, t.path@)
}

/// Tests as (name, path) pairs.
pub open spec fn tests_view(s: Seq<ResolvedTest>) -> Seq<(Seq<char>, Seq<char>)> {
    s.map_values(|t: ResolvedTest| test_view(t))
}

/// `x` placed after the leading tests whose names do not come after its
/// own: one step of a stable sort by name.
pub open spec fn insert_by_name(s: Seq<(Seq<char>, Seq<char>)>, x: (Seq<char>, Seq<char>)) -> Seq<
    (Seq<char>, Seq<char>),
>
    decreases s.len(),
{
    if s.len() == 0 {
        seq![x]
    } else if str_le(s[0].0, x.0) {
        seq![s[0]] + insert_by_name(s.skip(1), x)
    } else {
        seq![x] + s
    }
}

/// The tests in order of name, tests of equal names in their given order.
pub open spec fn sort_by_name(s: Seq<(Seq<char>, Seq<char>)>) -> Seq<(Seq<char>, Seq<char>)>
    decreases s.len(),
{
    if s.len() == 0 {
        s
    } else {
        insert_by_name(sort_by_name(s.drop_last()), s.last())
    }
}

/// The tests whose names hold `part`, in their given order.
pub open spec fn name_matches(s: Seq<(Seq<char>, Seq<char>)>, part: Seq<char>) -> Seq<
    (Seq<char>, Seq<char>),
>
    decreases s.len(),
{
    if s.len() == 0 {
        s
    } else if contains(s.last().0, part) {
        name_matches(s.drop_last(), part).push(s.last())
    } else {
        name_matches(s.drop_last(), part)
    }
}

/// The tests, each path only at its first occurrence.
pub open spec fn unique_by_path(s: Seq<(Seq<char>, Seq<char>)>) -> Seq<(Seq<char>, Seq<char>)>
    decreases s.len(),
{
    if s.len() == 0 {
        s
    } else {
        let u = unique_by_path(s.drop_last());
        if exists|k: int| 0 <= k < u.len() && #[trigger] u[k].1 == s.last().1 {
            u
        } else {
            u.push(s.last())
        }
    }
}

/// What the file system shows about a test input.
#[derive(Debug, Clone)]
pub enum InputProbe {
    /// The input is a directory; the `.test` files under it, each named by
    /// its path relative to the directory, without the extension.
    Directory(Vec<ResolvedTest>),
    /// The input is a file: whether its extension is `.test`, and the name
    /// its path gives.
    File { is_test: bool, name: String },
    /// The input is neither; what the lookups by name found.
    Name(NameProbe),
}

/// What the lookups of a test input by name found.
#[derive(Debug, Clone)]
pub struct NameProbe {
    /// `t/NAME.test` is a file (NAME the input without `.test`): its path.
    pub exact: Option<String>,
    /// The input, with `.test` added where it lacks it, is a file: the test
    /// its path gives.
    pub relative: Option<ResolvedTest>,
    /// `t/` is a directory: the `.test` files under it, each named by its
    /// path relative to `t/`, without the extension.
    pub t_tests: Option<Vec<ResolvedTest>>,
}

/// The tests one input names, or the error's text.
pub open spec fn resolve_input(input: Seq<char>, probe: InputProbe) -> Result<
    Seq<(Seq<char>, Seq<char>)>,
    Seq<char>,
> {
    match probe {
        InputProbe::Directory(ts) => if ts@.len() == 0 {
            Err("No .test files found in directory: "@ + input)
        } else {
            Ok(sort_by_name(tests_view(ts@)))
        },
        InputProbe::File { is_test, name } => if is_test {
            Ok(seq![(name@, input)])
        } else {
            Err("File must have .test extension: "@ + input)
        },
        InputProbe::Name(p) => {
            let clean = clean_test_name(input);
            match p.exact {
                Some(path) => Ok(seq![(clean, path@)]),
                None => match p.relative {
                    Some(t) => Ok(seq![test_view(t)]),
                    None => {
                        let found = match p.t_tests {
                            Some(ts) => name_matches(tests_view(ts@), clean),
                            None => Seq::empty(),
                        };
                        if found.len() > 0 {
                            Ok(sort_by_name(found))
                        } else {
                            Err(crate::cli::unresolved_input_text(input))
                        }
                    },
                }
            }
        },
    }
}

/// The tests the inputs name, in order, or the first error's text.
pub open spec fn resolve_inputs(inputs: Seq<Seq<char>>, probes: Seq<InputProbe>) -> Result<
    Seq<(Seq<char>, Seq<char>)>,
    Seq<char>,
>
    decreases inputs.len(),
{
    if inputs.len() == 0 {
        Ok(Seq::empty())
    } else {
        match resolve_inputs(inputs.drop_last(), probes) {
            Err(e) => Err(e),
            Ok(before) => match resolve_input(inputs.last(), probes[inputs.len() - 1]) {
                Err(e) => Err(e),
                Ok(found) => Ok(before + found),
            },
        }
    }
}

proof fn lemma_insert_by_name_at(s: Seq<(Seq<char>, Seq<char>)>, x: (Seq<char>, Seq<char>), p: int)
    requires
        0 <= p <= s.len(),
        forall|m: int| 0 <= m < p ==> str_le(#[trigger] s[m].0, x.0),
        p < s.len() ==> !str_le(s[p].0, x.0),
    ensures
        insert_by_name(s, x) == s.insert(p, x),
    decreases s.len(),
{
    if s.len() > 0 && p > 0 {
        assert forall|m: int| 0 <= m < p - 1 implies str_le(#[trigger] s.skip(1)[m].0, x.0) by {
            assert(s.skip(1)[m] == s[m + 1]);
        }
        lemma_insert_by_name_at(s.skip(1), x, p - 1);
        assert(seq![s[0]] + s.skip(1).insert(p - 1, x) =~= s.insert(p, x));
    } else if s.len() > 0 {
        assert(seq![x] + s =~= s.insert(0, x));
    } else {
        assert(seq![x] =~= s.insert(0, x));
    }
}

fn copy_test(t: &ResolvedTest) -> (res: ResolvedTest)
    ensures
        test_view(res) == test_view(*t),
{
    ResolvedTest {
        name: to_string(&chars_of(t.name.as_str())),
        path: to_string(&chars_of(t.path.as_str())),
    }
}

/// The tests in order of name, tests of equal names in their given order.
fn sort_tests_by_name(v: &Vec<ResolvedTest>) -> (res: Vec<ResolvedTest>)
    ensures
        tests_view(res@) == sort_by_name(tests_view(v@)),
{
    let ghost vv = tests_view(v@);
    let mut out: Vec<ResolvedTest> = Vec::new();
    let mut k: usize = 0;
    while k < v.len()
        invariant
            k <= v.len(),
            vv == tests_view(v@),
            tests_view(out@) == sort_by_name(vv.take(k as int)),
        decreases v.len() - k,
    {
        let ghost ov = tests_view(out@);
        let x = copy_test(&v[k]);
        let xn = chars_of(x.name.as_str());
        let mut p: usize = 0;
        while p < out.len() && str_le_vec(&chars_of(out[p].name.as_str()), &xn)
            invariant
                p <= out.len(),
                ov == tests_view(out@),
                xn@ == x.name@,
                forall|m: int| 0 <= m < p ==> str_le(#[trigger] ov[m].0, xn@),
            decreases out.len() - p,
        {
            p += 1;
        }
        proof {
            lemma_insert_by_name_at(ov, test_view(x), p as int);
            assert(vv.take(k + 1).drop_last() =~= vv.take(k as int));
            assert(vv.take(k + 1).last() == test_view(x));
        }
        let ghost xv = test_view(x);
        out.insert(p, x);
        assert(tests_view(out@) =~= ov.insert(p as int, xv));
        k += 1;
    }
    assert(vv.take(k as int) =~= vv);
    out
}

/// The tests whose names hold `part`, in their given order.
fn matching_tests(v: &Vec<ResolvedTest>, part: &Vec<char>) -> (res: Vec<ResolvedTest>)
    ensures
        tests_view(res@) == name_matches(tests_view(v@), part@),
{
    let ghost vv = tests_view(v@);
    let mut out: Vec<ResolvedTest> = Vec::new();
    let mut k: usize = 0;
    while k < v.len()
        invariant
            k <= v.len(),
            vv == tests_view(v@),
            tests_view(out@) == name_matches(vv.take(k as int), part@),
        decreases v.len() - k,
    {
        assert(vv.take(k + 1).drop_last() =~= vv.take(k as int));
        assert(vv.take(k + 1).last() == test_view(v@[k as int]));
        if contains_vec(&chars_of(v[k].name.as_str()), part) {
            let ghost before = tests_view(out@);
            out.push(copy_test(&v[k]));
            assert(tests_view(out@) =~= before.push(test_view(v@[k as int])));
        }
        k += 1;
    }
    assert(vv.take(k as int) =~= vv);
    out
}

/// The error of a refused input.
fn refusal(prefix: &str, input: &str) -> (res: CliError)
    ensures
        res.message@ == prefix@ + input@,
{
    let mut v: Vec<char> = Vec::new();
    push_str(&mut v, prefix);
    push_str(&mut v, input);
    CliError { message: to_string(&v) }
}

/// `res` is what `spec` says, its tests as (name, path) pairs.
pub open spec fn resolved_as(res: Result<Vec<ResolvedTest>, CliError>, spec: Result<
    Seq<(Seq<char>, Seq<char>)>,
    Seq<char>,
>) -> bool {
    match spec {
        Ok(ts) => res matches Ok(v) && tests_view(v@) == ts,
        Err(m) => res matches Err(e) && e.message@ == m,
    }
}

impl Args {
    /// The tests one input names, from what the file system shows about it
    /// (see [`resolve_input`]).
    pub fn resolve_single_input(input: &str, probe: &InputProbe) -> (res: Result<
        Vec<ResolvedTest>,
        CliError,
    >)
        ensures
            resolved_as(res, resolve_input(input@, *probe)),
    {
        match probe {
            InputProbe::Directory(ts) => {
                if ts.len() == 0 {
                    Err(refusal("No .test files found in directory: ", input))
                } else {
                    Ok(sort_tests_by_name(ts))
                }
            },
            InputProbe::File { is_test, name } => {
                if *is_test {
                    let mut v: Vec<ResolvedTest> = Vec::new();
                    v.push(
                        ResolvedTest {
                            name: to_string(&chars_of(name.as_str())),
                            path: to_string(&chars_of(input)),
                        },
                    );
                    assert(tests_view(v@) =~= seq![(name@, input@)]);
                    Ok(v)
                } else {
                    Err(refusal("File must have .test extension: ", input))
                }
            },
            InputProbe::Name(p) => {
                let clean = crate::cli::clean_input(input);
                match &p.exact {
                    Some(path) => {
                        let mut v: Vec<ResolvedTest> = Vec::new();
                        v.push(
                            ResolvedTest {
                                name: to_string(&clean),
                                path: to_string(&chars_of(path.as_str())),
                            },
                        );
                        assert(tests_view(v@) =~= seq![(clean_test_name(input@), path@)]);
                        Ok(v)
                    },
                    None => match &p.relative {
                        Some(t) => {
                            let mut v: Vec<ResolvedTest> = Vec::new();
                            v.push(copy_test(t));
                            assert(tests_view(v@) =~= seq![test_view(*t)]);
                            Ok(v)
                        },
                        None => {
                            let found = match &p.t_tests {
                                Some(ts) => matching_tests(ts, &clean),
                                None => {
                                    let e: Vec<ResolvedTest> = Vec::new();
                                    assert(tests_view(e@) =~= Seq::<(Seq<char>, Seq<char>)>::empty());
                                    e
                                },
                            };
                            if found.len() > 0 {
                                Ok(sort_tests_by_name(&found))
                            } else {
                                Err(Args::unresolved_input_error(input))
                            }
                        },
                    },
                }
            },
        }
    }

    /// The tests the command line names, each path once, in the order first
    /// named; `probes` holds what the file system shows about each input.
    pub fn resolve_test_inputs(&self, probes: &Vec<InputProbe>) -> (res: Result<
        Vec<ResolvedTest>,
        CliError,
    >)
        requires
            probes@.len() == self.test_files@.len(),
        ensures
            match resolve_inputs(crate::text::string_views(self.test_files@), probes@) {
                Ok(ts) => res matches Ok(v) && tests_view(v@) == unique_by_path(ts),
                Err(m) => res matches Err(e) && e.message@ == m,
            },
    {
        let ghost inputs = crate::text::string_views(self.test_files@);
        let mut all: Vec<ResolvedTest> = Vec::new();
        let mut i: usize = 0;
        assert(tests_view(all@) =~= Seq::<(Seq<char>, Seq<char>)>::empty());
        assert(inputs.take(0) =~= Seq::<Seq<char>>::empty());
        while i < self.test_files.len()
            invariant
                i <= self.test_files@.len(),
                probes@.len() == self.test_files@.len(),
                inputs == crate::text::string_views(self.test_files@),
                resolve_inputs(inputs.take(i as int), probes@) == Ok::<
                    Seq<(Seq<char>, Seq<char>)>,
                    Seq<char>,
                >(tests_view(all@)),
            decreases self.test_files@.len() - i,
        {
            proof {
                assert(inputs.take(i + 1).drop_last() =~= inputs.take(i as int));
                assert(inputs.take(i + 1).last() == self.test_files@[i as int]@);
            }
            let found = match Args::resolve_single_input(self.test_files[i].as_str(), &probes[i]) {
                Ok(f) => f,
                Err(e) => {
                    proof {
                        lemma_resolve_error_persists(inputs, probes@, i as int + 1);
                    }
                    return Err(e);
                },
            };
            let mut j: usize = 0;
            let ghost before = tests_view(all@);
            while j < found.len()
                invariant
                    j <= found@.len(),
                    tests_view(all@) == before + tests_view(found@).take(j as int),
                decreases found@.len() - j,
            {
                let ghost pre = tests_view(all@);
                all.push(copy_test(&found[j]));
                assert(tests_view(all@) =~= pre.push(test_view(found@[j as int])));
                assert(tests_view(found@).take(j + 1) =~= tests_view(found@).take(j as int).push(
                    test_view(found@[j as int]),
                ));
                j += 1;
                assert(tests_view(all@) =~= before + tests_view(found@).take(j as int));
            }
            assert(tests_view(found@).take(j as int) =~= tests_view(found@));
            i += 1;
        }
        assert(inputs.take(i as int) =~= inputs);
        Ok(unique_tests(&all))
    }
}

/// Once an input is refused, so is every longer list that starts with it.
proof fn lemma_resolve_error_persists(inputs: Seq<Seq<char>>, probes: Seq<InputProbe>, n: int)
    requires
        0 < n <= inputs.len(),
        resolve_inputs(inputs.take(n), probes) is Err,
    ensures
        resolve_inputs(inputs, probes) == resolve_inputs(inputs.take(n), probes),
    decreases inputs.len() - n,
{
    if n < inputs.len() {
        assert(inputs.take(n + 1).drop_last() =~= inputs.take(n));
        lemma_resolve_error_persists(inputs, probes, n + 1);
    } else {
        assert(inputs.take(n) =~= inputs);
    }
}

/// The tests, each path only at its first occurrence.
fn unique_tests(v: &Vec<ResolvedTest>) -> (res: Vec<ResolvedTest>)
    ensures
        tests_view(res@) == unique_by_path(tests_view(v@)),
{
    let ghost vv = tests_view(v@);
    let mut out: Vec<ResolvedTest> = Vec::new();
    let mut k: usize = 0;
    while k < v.len()
        invariant
            k <= v.len(),
            vv == tests_view(v@),
            tests_view(out@) == unique_by_path(vv.take(k as int)),
        decreases v.len() - k,
    {
        let ghost ov = tests_view(out@);
        assert(vv.take(k + 1).drop_last() =~= vv.take(k as int));
        assert(vv.take(k + 1).last() == test_view(v@[k as int]));
        let p = chars_of(v[k].path.as_str());
        let mut seen = false;
        let mut m: usize = 0;
        while m < out.len()
            invariant
                m <= out.len(),
                ov == tests_view(out@),
                p@ == v@[k as int].path@,
                k < v.len(),
                seen <==> exists|q: int| 0 <= q < m && #[trigger] ov[q].1 == p@,
            decreases out.len() - m,
        {
            if crate::text::eq_vec(&chars_of(out[m].path.as_str()), &p) {
                seen = true;
            }
            proof {
                assert(ov[m as int].1 == out@[m as int].path@);
            }
            m += 1;
        }
        if !seen {
            out.push(copy_test(&v[k]));
            assert(tests_view(out@) =~= ov.push(test_view(v@[k as int])));
        }
        k += 1;
    }
    assert(vv.take(k as int) =~= vv);
    out
}

} // verus!
