//! JUnit-style XML reports.

use vstd::prelude::*;
use crate::report::{escape_with, text_if, count_status, EnvironmentInfo, ReportFigures, TestSuiteResult, XunitRenderer};
use crate::tester::tester::{TestResult, TestStatus};
use crate::text::{chars_of, push_str, push_decimal, push_joined, to_string, decimal, join, string_views};

verus! {

/// How XML text writes a character.
pub open spec fn xml_entity(c: char) -> Seq<char> {
    if c == '&' {
        "&amp;"@
    } else if c == '<' {
        "&lt;"@
    } else if c == '>' {
        "&gt;"@
    } else if c == '"' {
        "&quot;"@
    } else if c == '\'' {
        "&apos;"@
    } else {
        seq![c]
    }
}

/// `text` escaped for XML: `&`, `<`, `>`, `"` and `'` as entities.
pub open spec fn xml_escaped(text: Seq<char>) -> Seq<char> {
    escape_with(text, |c: char| xml_entity(c))
}

/// Escapes `&`, `<`, `>`, `"` and `'` for XML.
pub fn escape_xml(text: &str) -> (res: String)
    ensures
        res@ == xml_escaped(text@),
{
    let cs = chars_of(text);
    let mut out: Vec<char> = Vec::new();
    let mut i: usize = 0;
    while i < cs.len()
        invariant
            i <= cs.len(),
            cs@ == text@,
            out@ == escape_with(cs@.take(i as int), |c: char| xml_entity(c)),
        decreases cs.len() - i,
    {
        let c = cs[i];
        if c == '&' {
            push_str(&mut out, "&amp;");
        } else if c == '<' {
            push_str(&mut out, "&lt;");
        } else if c == '>' {
            push_str(&mut out, "&gt;");
        } else if c == '"' {
            push_str(&mut out, "&quot;");
        } else if c == '\'' {
            push_str(&mut out, "&apos;");
        } else {
            out.push(c);
        }
        assert(cs@.take(i + 1).drop_last() =~= cs@.take(i as int));
        i += 1;
    }
    assert(cs@.take(i as int) =~= cs@);
    to_string(&out)
}

/// Reads XML text back: each of the five entities becomes its character;
/// every other character stands for itself.
pub open spec fn xml_unescaped(r: Seq<char>) -> Seq<char>
    decreases r.len(),
{
    if r.len() == 0 {
        Seq::empty()
    } else if r.len() >= 5 && r.take(5) == "&amp;"@ {
        seq!['&'] + xml_unescaped(r.skip(5))
    } else if r.len() >= 4 && r.take(4) == "&lt;"@ {
        seq!['<'] + xml_unescaped(r.skip(4))
    } else if r.len() >= 4 && r.take(4) == "&gt;"@ {
        seq!['>'] + xml_unescaped(r.skip(4))
    } else if r.len() >= 6 && r.take(6) == "&quot;"@ {
        seq!['"'] + xml_unescaped(r.skip(6))
    } else if r.len() >= 6 && r.take(6) == "&apos;"@ {
        seq!['\''] + xml_unescaped(r.skip(6))
    } else {
        seq![r[0]] + xml_unescaped(r.drop_first())
    }
}

/// One of the characters XML text writes as an entity.
pub open spec fn xml_special(c: char) -> bool {
    c == '&' || c == '<' || c == '>' || c == '"' || c == '\''
}

/// An entity starts at `i` in `r`.
pub open spec fn xml_entity_at(r: Seq<char>, i: int) -> bool {
    ||| i + 5 <= r.len() && r.subrange(i, i + 5) == "&amp;"@
    ||| i + 4 <= r.len() && r.subrange(i, i + 4) == "&lt;"@
    ||| i + 4 <= r.len() && r.subrange(i, i + 4) == "&gt;"@
    ||| i + 6 <= r.len() && r.subrange(i, i + 6) == "&quot;"@
    ||| i + 6 <= r.len() && r.subrange(i, i + 6) == "&apos;"@
}

proof fn lemma_escape_concat(a: Seq<char>, b: Seq<char>, f: spec_fn(char) -> Seq<char>)
    ensures
        escape_with(a + b, f) == escape_with(a, f) + escape_with(b, f),
    decreases b.len(),
{
    if b.len() == 0 {
        assert(a + b =~= a);
        assert(escape_with(a, f) + escape_with(b, f) =~= escape_with(a, f));
    } else {
        assert((a + b).drop_last() =~= a + b.drop_last());
        assert((a + b).last() == b.last());
        lemma_escape_concat(a, b.drop_last(), f);
        assert(escape_with(a, f) + escape_with(b.drop_last(), f) + f(b.last()) =~= escape_with(a, f)
            + (escape_with(b.drop_last(), f) + f(b.last())));
    }
}

proof fn lemma_escape_front(s: Seq<char>, f: spec_fn(char) -> Seq<char>)
    requires
        s.len() > 0,
    ensures
        escape_with(s, f) == f(s[0]) + escape_with(s.drop_first(), f),
{
    assert(s =~= seq![s[0]] + s.drop_first());
    lemma_escape_concat(seq![s[0]], s.drop_first(), f);
    assert(seq![s[0]].drop_last() =~= Seq::<char>::empty());
    assert(escape_with(Seq::<char>::empty(), f) + f(s[0]) =~= f(s[0]));
}

proof fn lemma_unescape_entity(c: char, rest: Seq<char>)
    ensures
        xml_unescaped(xml_entity(c) + rest) == seq![c] + xml_unescaped(rest),
{
    reveal_strlit("&amp;");
    reveal_strlit("&lt;");
    reveal_strlit("&gt;");
    reveal_strlit("&quot;");
    reveal_strlit("&apos;");
    let r = xml_entity(c) + rest;
    let n = xml_entity(c).len() as int;
    assert(r.skip(n) =~= rest);
    let amp = r.len() >= 5 && r.take(5) == "&amp;"@;
    let lt = r.len() >= 4 && r.take(4) == "&lt;"@;
    let gt = r.len() >= 4 && r.take(4) == "&gt;"@;
    let quot = r.len() >= 6 && r.take(6) == "&quot;"@;
    let apos = r.len() >= 6 && r.take(6) == "&apos;"@;
    if c == '&' {
        assert(r.take(5) =~= "&amp;"@);
        assert(xml_unescaped(r) == seq!['&'] + xml_unescaped(r.skip(5)));
    } else if c == '<' {
        assert(r.take(4) =~= "&lt;"@);
        assert(!amp) by {
            if amp {
                assert(r.take(5)[1] == r[1]);
            }
        }
        assert(xml_unescaped(r) == seq!['<'] + xml_unescaped(r.skip(4)));
    } else if c == '>' {
        assert(r.take(4) =~= "&gt;"@);
        assert(!amp && !lt) by {
            if amp {
                assert(r.take(5)[1] == r[1]);
            }
            if lt {
                assert(r.take(4)[1] == r[1]);
            }
        }
        assert(xml_unescaped(r) == seq!['>'] + xml_unescaped(r.skip(4)));
    } else if c == '"' {
        assert(r.take(6) =~= "&quot;"@);
        assert(!amp && !lt && !gt) by {
            if amp {
                assert(r.take(5)[1] == r[1]);
            }
            if lt || gt {
                assert(r.take(4)[1] == r[1]);
            }
        }
        assert(xml_unescaped(r) == seq!['"'] + xml_unescaped(r.skip(6)));
    } else if c == '\'' {
        assert(r.take(6) =~= "&apos;"@);
        assert(!amp && !lt && !gt && !quot) by {
            if amp {
                assert(r.take(5)[2] == r[2]);
            }
            if lt || gt {
                assert(r.take(4)[1] == r[1]);
            }
            if quot {
                assert(r.take(6)[1] == r[1]);
            }
        }
        assert(xml_unescaped(r) == seq!['\''] + xml_unescaped(r.skip(6)));
    } else {
        assert(r[0] == c);
        assert(!amp && !lt && !gt && !quot && !apos) by {
            if amp {
                assert(r.take(5)[0] == r[0]);
            }
            if lt || gt {
                assert(r.take(4)[0] == r[0]);
            }
            if quot || apos {
                assert(r.take(6)[0] == r[0]);
            }
        }
        assert(r.drop_first() =~= rest);
    }
}

/// At `i`, `r` holds no raw `<`, `>`, `"` or `'`, and an `&` there starts
/// an entity.
pub open spec fn xml_clean_at(r: Seq<char>, i: int) -> bool {
    &&& r[i] != '<' && r[i] != '>' && r[i] != '"' && r[i] != '\''
    &&& r[i] == '&' ==> xml_entity_at(r, i)
}

/// Escaping can be undone: reading the escaped text back gives the text.
pub proof fn law_xml_escape_round_trip(s: Seq<char>)
    ensures
        xml_unescaped(xml_escaped(s)) == s,
    decreases s.len(),
{
    if s.len() == 0 {
    } else {
        lemma_escape_front(s, |c: char| xml_entity(c));
        law_xml_escape_round_trip(s.drop_first());
        lemma_unescape_entity(s[0], xml_escaped(s.drop_first()));
        assert(seq![s[0]] + s.drop_first() =~= s);
    }
}

/// Escaped text holds no `<`, `>`, `"` or `'`, and each `&` in it starts
/// one of the five entities.
pub proof fn law_xml_escape_no_raw_specials(s: Seq<char>)
    ensures
        forall|i: int| 0 <= i < xml_escaped(s).len() ==> #[trigger] xml_clean_at(xml_escaped(s), i),
    decreases s.len(),
{
    reveal_strlit("&amp;");
    reveal_strlit("&lt;");
    reveal_strlit("&gt;");
    reveal_strlit("&quot;");
    reveal_strlit("&apos;");
    if s.len() > 0 {
        law_xml_escape_no_raw_specials(s.drop_last());
        let p = xml_escaped(s.drop_last());
        let e = xml_entity(s.last());
        let r = xml_escaped(s);
        assert(r == p + e);
        assert forall|i: int| 0 <= i < r.len() implies #[trigger] xml_clean_at(r, i) by {
            if i < p.len() {
                assert(r[i] == p[i]);
                assert(xml_clean_at(p, i));
                if p[i] == '&' {
                    assert(xml_entity_at(p, i));
                    if i + 5 <= p.len() && p.subrange(i, i + 5) == "&amp;"@ {
                        assert(r.subrange(i, i + 5) =~= p.subrange(i, i + 5));
                    } else if i + 4 <= p.len() && p.subrange(i, i + 4) == "&lt;"@ {
                        assert(r.subrange(i, i + 4) =~= p.subrange(i, i + 4));
                    } else if i + 4 <= p.len() && p.subrange(i, i + 4) == "&gt;"@ {
                        assert(r.subrange(i, i + 4) =~= p.subrange(i, i + 4));
                    } else if i + 6 <= p.len() && p.subrange(i, i + 6) == "&quot;"@ {
                        assert(r.subrange(i, i + 6) =~= p.subrange(i, i + 6));
                    } else {
                        assert(r.subrange(i, i + 6) =~= p.subrange(i, i + 6));
                    }
                }
            } else {
                let j = i - p.len();
                assert(r[i] == e[j]);
                if r[i] == '&' {
                    assert(j == 0);
                    assert(r.subrange(i, i + e.len()) =~= e);
                }
            }
        }
    }
}

proof fn lemma_escape_len(s: Seq<char>)
    ensures
        xml_escaped(s).len() >= s.len(),
        (exists|i: int| 0 <= i < s.len() && xml_special(#[trigger] s[i])) ==> xml_escaped(s).len() > s.len(),
    decreases s.len(),
{
    reveal_strlit("&amp;");
    reveal_strlit("&lt;");
    reveal_strlit("&gt;");
    reveal_strlit("&quot;");
    reveal_strlit("&apos;");
    if s.len() > 0 {
        lemma_escape_len(s.drop_last());
        if exists|i: int| 0 <= i < s.len() && xml_special(#[trigger] s[i]) {
            let i = choose|i: int| 0 <= i < s.len() && xml_special(#[trigger] s[i]);
            if i < s.len() - 1 {
                assert(xml_special(s.drop_last()[i]));
            }
        }
    }
}

proof fn lemma_escape_plain(s: Seq<char>)
    requires
        forall|i: int| 0 <= i < s.len() ==> !xml_special(#[trigger] s[i]),
    ensures
        xml_escaped(s) == s,
    decreases s.len(),
{
    if s.len() > 0 {
        assert forall|i: int| 0 <= i < s.drop_last().len() implies !xml_special(#[trigger] s.drop_last()[i]) by {
            assert(s.drop_last()[i] == s[i]);
        }
        lemma_escape_plain(s.drop_last());
        assert(!xml_special(s[s.len() - 1]));
        assert(s.drop_last() + seq![s.last()] =~= s);
    }
}

/// Escaping changes a text exactly when it holds one of `&`, `<`, `>`, `"`
/// and `'`.
pub proof fn law_xml_escape_identity(s: Seq<char>)
    ensures
        xml_escaped(s) == s <==> forall|i: int| 0 <= i < s.len() ==> !xml_special(#[trigger] s[i]),
{
    lemma_escape_len(s);
    if forall|i: int| 0 <= i < s.len() ==> !xml_special(#[trigger] s[i]) {
        lemma_escape_plain(s);
    }
}

/// One `<property>` line.
pub open spec fn xml_property(name: Seq<char>, value: Seq<char>) -> Seq<char> {
    "    <property name=\""@ + name + "\" value=\""@ + xml_escaped(value) + "\"/>\n"@
}

/// A `<property>` line where there is a value.
pub open spec fn xml_opt_property(name: Seq<char>, value: Option<String>) -> Seq<char> {
    match value {
        Some(v) => xml_property(name, v@),
        None => Seq::empty(),
    }
}

/// The `<properties>` block of a run's environment.
pub open spec fn xml_properties(env: EnvironmentInfo) -> Seq<char> {
    "  <properties>\n"@ + xml_property("os"@, env.os@) + xml_property(
        "rust_version"@,
        env.rust_version@,
    ) + xml_opt_property("git_commit"@, env.git_commit) + xml_opt_property(
        "mysql_version"@,
        env.mysql_version,
    ) + xml_property("cli_args"@, join(string_views(env.cli_args@), " "@)) + "  </properties>\n"@
}

/// The start of a `<testcase>` tag, without its end.
pub open spec fn xml_case_open(case: TestResult, seconds: Seq<char>) -> Seq<char> {
    "  <testcase name=\""@ + xml_escaped(case.test_name@) + "\" classname=\""@ + xml_escaped(
        case.classname@,
    ) + "\" time=\""@ + seconds + "\""@
}

/// The rest of the `<testcase>` element of a failed case.
pub open spec fn xml_failure(case: TestResult) -> Seq<char> {
    ">\n"@ + "    <failure message=\"Test failed\" type=\"TestFailure\">\n"@ + text_if(
        case.errors@.len() > 0,
        "<![CDATA["@ + join(string_views(case.errors@), "\n"@) + "]]>\n"@,
    ) + "    </failure>\n"@ + text_if(
        case.stdout@.len() > 0,
        "    <system-out><![CDATA["@ + case.stdout@ + "]]></system-out>\n"@,
    ) + text_if(
        case.stderr@.len() > 0,
        "    <system-err><![CDATA["@ + case.stderr@ + "]]></system-err>\n"@,
    ) + "  </testcase>\n"@
}

/// The `<testcase>` element of one case that took `seconds`.
pub open spec fn xml_case(case: TestResult, seconds: Seq<char>) -> Seq<char> {
    match case.status {
        TestStatus::Passed => xml_case_open(case, seconds) + "/>\n"@,
        TestStatus::Failed => xml_case_open(case, seconds) + xml_failure(case),
        TestStatus::Skipped => xml_case_open(case, seconds) + ">\n"@ + "    <skipped/>\n"@
            + "  </testcase>\n"@,
    }
}

/// The `<testcase>` elements of `cases`, the i-th taking `seconds[i]`.
pub open spec fn xml_cases(cases: Seq<TestResult>, seconds: Seq<Seq<char>>) -> Seq<char>
    decreases cases.len(),
{
    if cases.len() == 0 {
        Seq::empty()
    } else {
        xml_cases(cases.drop_last(), seconds.take(cases.len() - 1)) + xml_case(
            cases.last(),
            seconds[cases.len() - 1],
        )
    }
}

/// The JUnit-style XML report of a run.
pub open spec fn xunit_report(suite: TestSuiteResult, figures: ReportFigures) -> Seq<char> {
    "<?xml version=\"1.0\" encoding=\"UTF-8\"?>\n"@ + "<testsuite name=\""@ + xml_escaped(
        suite.name@,
    ) + "\" tests=\""@ + decimal(suite.cases@.len()) + "\" failures=\""@ + decimal(
        count_status(suite.cases@, TestStatus::Failed),
    ) + "\" skipped=\""@ + decimal(count_status(suite.cases@, TestStatus::Skipped))
        + "\" time=\""@ + figures.total_seconds_3@ + "\" timestamp=\""@ + xml_escaped(
        suite.timestamp@,
    ) + "\">"@ + "\n"@ + xml_properties(suite.environment) + xml_cases(
        suite.cases@,
        string_views(figures.case_seconds_3@),
    ) + "</testsuite>\n"@
}

fn push_escaped(out: &mut Vec<char>, text: &str)
    ensures
        final(out)@ == old(out)@ + xml_escaped(text@),
{
    let e = escape_xml(text);
    push_str(out, e.as_str());
}

fn push_property(out: &mut Vec<char>, name: &str, value: &str)
    ensures
        final(out)@ == old(out)@ + xml_property(name@, value@),
{
    push_str(out, "    <property name=\"");
    push_str(out, name);
    push_str(out, "\" value=\"");
    push_escaped(out, value);
    push_str(out, "\"/>\n");
}

fn push_opt_property(out: &mut Vec<char>, name: &str, value: &Option<String>)
    ensures
        final(out)@ == old(out)@ + xml_opt_property(name@, *value),
{
    match value {
        Some(v) => push_property(out, name, v.as_str()),
        None => {
            assert(old(out)@ + Seq::<char>::empty() =~= old(out)@);
        },
    }
}

fn push_properties(out: &mut Vec<char>, env: &EnvironmentInfo)
    ensures
        final(out)@ == old(out)@ + xml_properties(*env),
{
    push_str(out, "  <properties>\n");
    push_property(out, "os", env.os.as_str());
    push_property(out, "rust_version", env.rust_version.as_str());
    push_opt_property(out, "git_commit", &env.git_commit);
    push_opt_property(out, "mysql_version", &env.mysql_version);
    let mut args: Vec<char> = Vec::new();
    push_joined(&mut args, &env.cli_args, " ");
    assert(args@ =~= join(string_views(env.cli_args@), " "@));
    let a = to_string(&args);
    push_property(out, "cli_args", a.as_str());
    push_str(out, "  </properties>\n");
    assert(final(out)@ =~= old(out)@ + xml_properties(*env));
}

fn push_failure(out: &mut Vec<char>, case: &TestResult)
    ensures
        final(out)@ == old(out)@ + xml_failure(*case),
{
    let ghost start = out@;
    push_str(out, ">\n");
    push_str(out, "    <failure message=\"Test failed\" type=\"TestFailure\">\n");
    let ghost a = out@;
    if case.errors.len() > 0 {
        push_str(out, "<![CDATA[");
        push_joined(out, &case.errors, "\n");
        push_str(out, "]]>\n");
    }
    assert(out@ =~= a + text_if(
        case.errors@.len() > 0,
        "<![CDATA["@ + join(string_views(case.errors@), "\n"@) + "]]>\n"@,
    ));
    push_str(out, "    </failure>\n");
    let ghost b = out@;
    let so = chars_of(case.stdout.as_str());
    if so.len() > 0 {
        push_str(out, "    <system-out><![CDATA[");
        push_str(out, case.stdout.as_str());
        push_str(out, "]]></system-out>\n");
    }
    assert(out@ =~= b + text_if(
        case.stdout@.len() > 0,
        "    <system-out><![CDATA["@ + case.stdout@ + "]]></system-out>\n"@,
    ));
    let ghost c = out@;
    let se = chars_of(case.stderr.as_str());
    if se.len() > 0 {
        push_str(out, "    <system-err><![CDATA[");
        push_str(out, case.stderr.as_str());
        push_str(out, "]]></system-err>\n");
    }
    assert(out@ =~= c + text_if(
        case.stderr@.len() > 0,
        "    <system-err><![CDATA["@ + case.stderr@ + "]]></system-err>\n"@,
    ));
    push_str(out, "  </testcase>\n");
    assert(out@ =~= start + xml_failure(*case));
}

fn push_case(out: &mut Vec<char>, case: &TestResult, seconds: &str)
    ensures
        final(out)@ == old(out)@ + xml_case(*case, seconds@),
{
    let ghost start = out@;
    push_str(out, "  <testcase name=\"");
    push_escaped(out, case.test_name.as_str());
    push_str(out, "\" classname=\"");
    push_escaped(out, case.classname.as_str());
    push_str(out, "\" time=\"");
    push_str(out, seconds);
    push_str(out, "\"");
    assert(out@ =~= start + xml_case_open(*case, seconds@));
    let ghost opened = out@;
    match case.status {
        TestStatus::Passed => {
            push_str(out, "/>\n");
        },
        TestStatus::Failed => {
            push_failure(out, case);
        },
        TestStatus::Skipped => {
            push_str(out, ">\n");
            push_str(out, "    <skipped/>\n");
            push_str(out, "  </testcase>\n");
        },
    }
    assert(out@ =~= start + xml_case(*case, seconds@));
}

impl XunitRenderer {
    /// The JUnit-style XML report of `suite` (see [`xunit_report`]).
    pub fn render(&self, suite: &TestSuiteResult, figures: &ReportFigures) -> (res: String)
        requires
            figures.case_seconds_3@.len() == suite.cases@.len(),
        ensures
            res@ == xunit_report(*suite, *figures),
    {
        let mut out: Vec<char> = Vec::new();
        push_str(&mut out, "<?xml version=\"1.0\" encoding=\"UTF-8\"?>\n");
        push_str(&mut out, "<testsuite name=\"");
        push_escaped(&mut out, suite.name.as_str());
        push_str(&mut out, "\" tests=\"");
        push_decimal(&mut out, suite.total_tests() as u64);
        push_str(&mut out, "\" failures=\"");
        push_decimal(&mut out, suite.failed_tests() as u64);
        push_str(&mut out, "\" skipped=\"");
        push_decimal(&mut out, suite.skipped_tests() as u64);
        push_str(&mut out, "\" time=\"");
        push_str(&mut out, figures.total_seconds_3.as_str());
        push_str(&mut out, "\" timestamp=\"");
        push_escaped(&mut out, suite.timestamp.as_str());
        push_str(&mut out, "\">");
        push_str(&mut out, "\n");
        push_properties(&mut out, &suite.environment);
        let ghost head = out@;
        let ghost secs = string_views(figures.case_seconds_3@);
        let mut i: usize = 0;
        while i < suite.cases.len()
            invariant
                i <= suite.cases@.len(),
                figures.case_seconds_3@.len() == suite.cases@.len(),
                secs == string_views(figures.case_seconds_3@),
                out@ == head + xml_cases(suite.cases@.take(i as int), secs.take(i as int)),
            decreases suite.cases@.len() - i,
        {
            push_case(&mut out, &suite.cases[i], figures.case_seconds_3[i].as_str());
            proof {
                let t = suite.cases@.take(i + 1);
                assert(t.drop_last() =~= suite.cases@.take(i as int));
                assert(secs.take(i + 1).take(i as int) =~= secs.take(i as int));
                assert(secs.take(i + 1)[i as int] == figures.case_seconds_3@[i as int]@);
            }
            i += 1;
        }
        assert(suite.cases@.take(i as int) =~= suite.cases@);
        assert(secs.take(i as int) =~= secs);
        push_str(&mut out, "</testsuite>\n");
        assert(out@ =~= xunit_report(*suite, *figures));
        to_string(&out)
    }
}

} // verus!
