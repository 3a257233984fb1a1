//! `--replace_regex /pattern/replacement/`: rules that rewrite the next
//! query's output, and the regular expressions behind them.

use vstd::prelude::*;
use crate::text::{chars_of, push_str, to_string, subvec};

verus! {

/// The error `regex::Regex::new` reports for a pattern: `None` when the
/// pattern compiles.
pub uninterp spec fn spec_regex_error(pattern: Seq<char>) -> Option<Seq<char>>;

/// What `regex::Regex::replace_all` gives for a pattern that compiles.
pub uninterp spec fn spec_regex_replace_all(
    pattern: Seq<char>,
    text: Seq<char>,
    replacement: Seq<char>,
) -> Seq<char>;

/// Calls `regex::Regex::new`. The claim: whether the pattern compiles, and
/// the text of the error when it does not, depend on the pattern alone.
#[verifier::external_body]
pub(crate) fn regex_check(pattern: &str) -> (res: Option<String>)
    ensures
        match res {
            Some(e) => spec_regex_error(pattern@) == Some(e@),
            None => spec_regex_error(pattern@) is None,
        },
{
    match regex::Regex::new(pattern) {
        Ok(_) => None,
        Err(e) => Some(e.to_string()),
    }
}

/// Calls `regex::Regex::new` and, when the pattern compiles, `replace_all`
/// with it. The claim: `None` exactly when the pattern does not compile;
/// otherwise the result depends on the pattern, the text and the
/// replacement alone.
#[verifier::external_body]
pub(crate) fn regex_replace_all(pattern: &str, text: &str, replacement: &str) -> (res: Option<String>)
    ensures
        match res {
            Some(r) => spec_regex_error(pattern@) is None && r@ == spec_regex_replace_all(
                pattern@,
                text@,
                replacement@,
            ),
            None => spec_regex_error(pattern@) is Some,
        },
{
    match regex::Regex::new(pattern) {
        Ok(re) => Some(re.replace_all(text, replacement).into_owned()),
        Err(_) => None,
    }
}

/// What `regex::Regex::captures` gives for a pattern that compiles and a
/// text: `None` when the pattern does not match, else each group of the
/// first match (group 0 the whole match), `None` for a group that took no
/// part.
pub uninterp spec fn spec_regex_captures(pattern: Seq<char>, text: Seq<char>) -> Option<
    Seq<Option<Seq<char>>>,
>;

pub open spec fn group_views(v: Seq<Option<String>>) -> Seq<Option<Seq<char>>> {
    v.map_values(|g: Option<String>| match g {
        Some(s) => Some(s@),
        None => None,
    })
}

/// Calls `regex::Regex::new` and, when the pattern compiles, `captures`
/// with it. The claim: `None` exactly when the pattern does not compile;
/// otherwise the groups of the first match depend on the pattern and the
/// text alone.
#[verifier::external_body]
pub(crate) fn regex_captures(pattern: &str, text: &str) -> (res: Option<Option<Vec<Option<String>>>>)
    ensures
        match res {
            Some(Some(g)) => spec_regex_error(pattern@) is None && spec_regex_captures(pattern@, text@)
                == Some(group_views(g@)),
            Some(None) => spec_regex_error(pattern@) is None && spec_regex_captures(pattern@, text@)
                is None,
            None => spec_regex_error(pattern@) is Some,
        },
{
    match regex::Regex::new(pattern) {
        Ok(re) => Some(re.captures(text).map(|c| c.iter().map(|m| m.map(|m| m.as_str().to_string())).collect())),
        Err(_) => None,
    }
}

/// Splitting of `pattern/replacement`: (parts done, current part, after a
/// backslash). A backslash keeps itself and the character after it; the
/// first other `/` ends the pattern.
pub open spec fn split_state(inner: Seq<char>, n: int) -> (Seq<Seq<char>>, Seq<char>, bool)
    decreases n,
{
    if n <= 0 {
        (seq![], seq![], false)
    } else {
        let st = split_state(inner, n - 1);
        let c = inner[n - 1];
        if st.2 {
            (st.0, st.1.push(c), false)
        } else if c == '\\' {
            (st.0, st.1.push(c), true)
        } else if c == '/' && st.0.len() == 0 {
            (st.0.push(st.1), seq![], false)
        } else {
            (st.0, st.1.push(c), false)
        }
    }
}

/// The parts of `pattern/replacement`.
pub open spec fn split_rule(inner: Seq<char>) -> Seq<Seq<char>> {
    let st = split_state(inner, inner.len() as int);
    st.0.push(st.1)
}

/// The number of backslashes right before index `n` of `s`.
pub open spec fn backslashes_before(s: Seq<char>, n: int) -> nat
    decreases n,
{
    if n <= 0 || n > s.len() || s[n - 1] != '\\' {
        0
    } else {
        1 + backslashes_before(s, n - 1)
    }
}

/// A `/` at `i` that no backslash escapes: an even number of backslashes
/// stands right before it (each escapes the character after it).
pub open spec fn unescaped_slash(s: Seq<char>, i: int) -> bool {
    0 <= i < s.len() && s[i] == '/' && backslashes_before(s, i) % 2 == 0
}

proof fn lemma_split_before_slash(inner: Seq<char>, n: int)
    requires
        0 <= n <= inner.len(),
        forall|j: int| 0 <= j < n ==> !#[trigger] unescaped_slash(inner, j),
    ensures
        split_state(inner, n) == (Seq::<Seq<char>>::empty(), inner.take(n), backslashes_before(inner, n)
            % 2 == 1),
    decreases n,
{
    if n > 0 {
        lemma_split_before_slash(inner, n - 1);
        assert(inner.take(n - 1).push(inner[n - 1]) =~= inner.take(n));
        assert(!unescaped_slash(inner, n - 1));
    }
}

proof fn lemma_split_after_slash(inner: Seq<char>, i: int, n: int)
    requires
        unescaped_slash(inner, i),
        forall|j: int| 0 <= j < i ==> !#[trigger] unescaped_slash(inner, j),
        i < n <= inner.len(),
    ensures
        split_state(inner, n).0 == seq![inner.take(i)],
        split_state(inner, n).1 == inner.subrange(i + 1, n),
    decreases n,
{
    if n == i + 1 {
        lemma_split_before_slash(inner, i);
        assert(inner.subrange(i + 1, n) =~= Seq::<char>::empty());
    } else {
        lemma_split_after_slash(inner, i, n - 1);
        assert(inner.subrange(i + 1, n - 1).push(inner[n - 1]) =~= inner.subrange(i + 1, n));
    }
}

/// The pattern of a rule runs up to the first `/` that no backslash escapes
/// and the replacement is the rest; an escaped `/` stays in the pattern.
pub proof fn law_rule_splits_at_first_unescaped_slash(inner: Seq<char>, i: int)
    requires
        unescaped_slash(inner, i),
        forall|j: int| 0 <= j < i ==> !#[trigger] unescaped_slash(inner, j),
    ensures
        split_rule(inner) == seq![inner.take(i), inner.skip(i + 1)],
{
    lemma_split_after_slash(inner, i, inner.len() as int);
    assert(inner.subrange(i + 1, inner.len() as int) =~= inner.skip(i + 1));
    assert(seq![inner.take(i)].push(inner.skip(i + 1)) =~= seq![inner.take(i), inner.skip(i + 1)]);
}

/// Text without a `/` that no backslash escapes is a single part (so the
/// rule has no replacement).
pub proof fn law_rule_without_unescaped_slash(inner: Seq<char>)
    requires
        forall|j: int| 0 <= j < inner.len() ==> !#[trigger] unescaped_slash(inner, j),
    ensures
        split_rule(inner) == seq![inner],
{
    lemma_split_before_slash(inner, inner.len() as int);
    assert(inner.take(inner.len() as int) =~= inner);
    assert(Seq::<Seq<char>>::empty().push(inner) =~= seq![inner]);
}

/// A delimited `--replace_regex` argument `/inner/` whose inner text has a
/// first unescaped `/` at `i` gives the rule (text before it, text after
/// it) when that pattern compiles, and is refused with the pattern's error
/// otherwise; without an unescaped `/` it is refused as badly formed.
pub proof fn law_replace_rule_parts(arg: Seq<char>, i: int)
    requires
        arg.len() >= 3,
        arg[0] == '/',
        arg.last() == '/',
    ensures
        ({
            let inner = arg.subrange(1, arg.len() - 1);
            unescaped_slash(inner, i) && (forall|j: int| 0 <= j < i ==> !#[trigger] unescaped_slash(inner, j))
                ==> replace_rule(arg) == if spec_regex_error(inner.take(i)) is Some {
                Err::<(Seq<char>, Seq<char>), ReplaceRegexErrorView>(
                    ReplaceRegexErrorView::InvalidPattern(spec_regex_error(inner.take(i))->0),
                )
            } else {
                Ok::<(Seq<char>, Seq<char>), ReplaceRegexErrorView>((inner.take(i), inner.skip(i + 1)))
            }
        }),
        ({
            let inner = arg.subrange(1, arg.len() - 1);
            (forall|j: int| 0 <= j < inner.len() ==> !#[trigger] unescaped_slash(inner, j))
                ==> replace_rule(arg) == Err::<(Seq<char>, Seq<char>), ReplaceRegexErrorView>(
                ReplaceRegexErrorView::BadFormat(arg),
            )
        }),
{
    let inner = arg.subrange(1, arg.len() - 1);
    if unescaped_slash(inner, i) && (forall|j: int| 0 <= j < i ==> !#[trigger] unescaped_slash(inner, j)) {
        law_rule_splits_at_first_unescaped_slash(inner, i);
    }
    if forall|j: int| 0 <= j < inner.len() ==> !#[trigger] unescaped_slash(inner, j) {
        law_rule_without_unescaped_slash(inner);
    }
}

/// Why a `--replace_regex` argument was refused.
#[derive(Debug, Clone)]
pub enum ReplaceRegexError {
    /// Not of the form `/.../`.
    NotDelimited(String),
    /// No `/` between pattern and replacement.
    BadFormat(String),
    /// The pattern does not compile; the regex error's text.
    InvalidPattern(String),
}

pub enum ReplaceRegexErrorView {
    NotDelimited(Seq<char>),
    BadFormat(Seq<char>),
    InvalidPattern(Seq<char>),
}

impl View for ReplaceRegexError {
    type V = ReplaceRegexErrorView;

    open spec fn view(&self) -> ReplaceRegexErrorView {
        match self {
            ReplaceRegexError::NotDelimited(s) => ReplaceRegexErrorView::NotDelimited(s@),
            ReplaceRegexError::BadFormat(s) => ReplaceRegexErrorView::BadFormat(s@),
            ReplaceRegexError::InvalidPattern(s) => ReplaceRegexErrorView::InvalidPattern(s@),
        }
    }
}

pub open spec fn replace_regex_message(e: ReplaceRegexErrorView) -> Seq<char> {
    match e {
        ReplaceRegexErrorView::NotDelimited(p) =>
            "Invalid replace_regex: must be /regex/replacement/. Got: "@ + p,
        ReplaceRegexErrorView::BadFormat(p) => "Invalid replace_regex format. Got: "@ + p,
        ReplaceRegexErrorView::InvalidPattern(m) => m,
    }
}

impl ReplaceRegexError {
    pub fn message(&self) -> (res: String)
        ensures
            res@ == replace_regex_message(self@),
    {
        let mut v: Vec<char> = Vec::new();
        match self {
            ReplaceRegexError::NotDelimited(p) => {
                push_str(&mut v, "Invalid replace_regex: must be /regex/replacement/. Got: ");
                push_str(&mut v, p.as_str());
            },
            ReplaceRegexError::BadFormat(p) => {
                push_str(&mut v, "Invalid replace_regex format. Got: ");
                push_str(&mut v, p.as_str());
            },
            ReplaceRegexError::InvalidPattern(m) => {
                push_str(&mut v, m.as_str());
            },
        }
        to_string(&v)
    }
}

/// The rule a `--replace_regex` argument gives, or why it is refused.
pub open spec fn replace_rule(arg: Seq<char>) -> Result<(Seq<char>, Seq<char>), ReplaceRegexErrorView> {
    if !(arg.len() >= 3 && arg[0] == '/' && arg.last() == '/') {
        Err(ReplaceRegexErrorView::NotDelimited(arg))
    } else {
        let parts = split_rule(arg.subrange(1, arg.len() - 1));
        if parts.len() != 2 {
            Err(ReplaceRegexErrorView::BadFormat(arg))
        } else if spec_regex_error(parts[0]) is Some {
            Err(ReplaceRegexErrorView::InvalidPattern(spec_regex_error(parts[0])->0))
        } else {
            Ok((parts[0], parts[1]))
        }
    }
}

/// Reads `/pattern/replacement/` into a (pattern, replacement) rule.
pub fn parse_replace_regex(arg: &str) -> (res: Result<(String, String), ReplaceRegexError>)
    ensures
        match replace_rule(arg@) {
            Ok(r) => res is Ok && res->Ok_0.0@ == r.0 && res->Ok_0.1@ == r.1,
            Err(e) => res is Err && res->Err_0@ == e,
        },
{
    let v = chars_of(arg);
    if !(v.len() >= 3 && v[0] == '/' && v[v.len() - 1] == '/') {
        return Err(ReplaceRegexError::NotDelimited(String::from_str(arg)));
    }
    let inner = subvec(&v, 1, v.len() - 1);
    let mut parts: Vec<Vec<char>> = Vec::new();
    let mut current: Vec<char> = Vec::new();
    let mut in_escape = false;
    let mut i: usize = 0;
    while i < inner.len()
        invariant
            i <= inner.len(),
            (crate::text::views(parts@), current@, in_escape) == split_state(inner@, i as int),
        decreases inner.len() - i,
    {
        let c = inner[i];
        if in_escape {
            current.push(c);
            in_escape = false;
        } else if c == '\\' {
            current.push(c);
            in_escape = true;
        } else if c == '/' && parts.len() == 0 {
            proof {
                crate::text::lemma_views_push(parts@, current);
            }
            parts.push(current);
            current = Vec::new();
        } else {
            current.push(c);
        }
        i += 1;
    }
    proof {
        crate::text::lemma_views_push(parts@, current);
    }
    parts.push(current);
    let ghost pv = crate::text::views(parts@);
    if parts.len() != 2 {
        return Err(ReplaceRegexError::BadFormat(String::from_str(arg)));
    }
    assert(pv[0] == parts@[0]@);
    assert(pv[1] == parts@[1]@);
    let pattern = to_string(&parts[0]);
    match regex_check(pattern.as_str()) {
        Some(e) => Err(ReplaceRegexError::InvalidPattern(e)),
        None => Ok((pattern, to_string(&parts[1]))),
    }
}

/// The rules applied in order.
pub open spec fn apply_rules(text: Seq<char>, rules: Seq<(Seq<char>, Seq<char>)>) -> Seq<char>
    decreases rules.len(),
{
    if rules.len() == 0 {
        text
    } else {
        let t = apply_rules(text, rules.drop_last());
        let r = rules.last();
        if spec_regex_error(r.0) is None {
            spec_regex_replace_all(r.0, t, r.1)
        } else {
            t
        }
    }
}

pub open spec fn rule_views(v: Seq<(String, String)>) -> Seq<(Seq<char>, Seq<char>)> {
    v.map_values(|p: (String, String)| (p.0@, p.1@))
}

/// Applies the rules, in order, to `buffer`.
pub fn apply_replacements(rules: &Vec<(String, String)>, buffer: &mut String)
    ensures
        final(buffer)@ == apply_rules(old(buffer)@, rule_views(rules@)),
{
    let ghost rv = rule_views(rules@);
    let ghost start = buffer@;
    let mut i: usize = 0;
    while i < rules.len()
        invariant
            i <= rules.len(),
            rv == rule_views(rules@),
            buffer@ == apply_rules(start, rv.take(i as int)),
        decreases rules.len() - i,
    {
        assert(rv.take(i + 1).drop_last() =~= rv.take(i as int));
        assert(rv.take(i + 1).last() == (rules@[i as int].0@, rules@[i as int].1@));
        match regex_replace_all(rules[i].0.as_str(), buffer.as_str(), rules[i].1.as_str()) {
            Some(replaced) => {
                *buffer = replaced;
            },
            None => {},
        }
        i += 1;
    }
    assert(rv.take(rules.len() as int) =~= rv);
}

} // verus!
