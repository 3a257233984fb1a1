//! Evaluation of `if` and `while` conditions.
//!
//! A condition is evaluated in three steps: its `$name` references are
//! expanded, each backtick SQL expression (`` `SELECT ...` ``) is replaced by
//! the value its query gives, and the text is evaluated by `evalexpr`. When
//! `evalexpr` cannot evaluate it, the text is read as a plain value. Text
//! on which a built-in function of `evalexpr` could panic (see
//! [`may_panic_in_eval`]) is not handed to it and is read as a plain value
//! too.

use vstd::prelude::*;
use crate::text::{
    chars_of, index_of, lemma_index_of, find_char_from, trim, trim_vec, subvec, to_string, eq_str,
    replace, replace_vec, parse_i64_vec, parse_i64_spec, decimal, decimal_vec, string_views,
    contains, contains_vec,
};
use crate::unicode::{spec_to_lowercase, to_lowercase};
use crate::tester::variables::{VariableContext, VariableError, VarFailure, expand_spec, expand_view};
use crate::tester::error_handler::DbError;

verus! {

#[verifier::external_type_specification]
#[verifier::external_body]
pub struct ExEvalexprError(evalexpr::EvalexprError);

/// The value of an evaluated expression, as far as its truth needs it.
pub enum EvalValue {
    String(String),
    /// A float, by its IEEE-754 bits and its text.
    Float(u64, String),
    Int(i64),
    Boolean(bool),
    /// A tuple, by its debug text.
    Tuple(String),
    Empty,
}

pub enum EvalValueView {
    String(Seq<char>),
    Float(u64, Seq<char>),
    Int(i64),
    Boolean(bool),
    Tuple(Seq<char>),
    Empty,
}

impl View for EvalValue {
    type V = EvalValueView;

    open spec fn view(&self) -> EvalValueView {
        match self {
            EvalValue::String(s) => EvalValueView::String(s@),
            EvalValue::Float(b, t) => EvalValueView::Float(*b, t@),
            EvalValue::Int(i) => EvalValueView::Int(*i),
            EvalValue::Boolean(b) => EvalValueView::Boolean(*b),
            EvalValue::Tuple(t) => EvalValueView::Tuple(t@),
            EvalValue::Empty => EvalValueView::Empty,
        }
    }
}

/// What `evalexpr::eval` gives for an expression: `None` when it fails.
pub uninterp spec fn spec_eval(expr: Seq<char>) -> Option<EvalValueView>;

/// Every character of `t` is ASCII.
pub open spec fn all_ascii(t: Seq<char>) -> bool {
    forall|i: int| 0 <= i < t.len() ==> (#[trigger] t[i] as u32) < 128
}

/// Text that may call one of `evalexpr`'s built-in functions that can
/// panic: `str::substring` where the text is not all ASCII (it slices by
/// bytes, and only ASCII text makes only ASCII strings), `shl` and `shr` (a
/// shift by 64 or more, or by a negative amount) and `math::abs` (of the
/// least `i64`). Such text is not handed to `evalexpr`.
pub open spec fn may_panic_in_eval(t: Seq<char>) -> bool {
    ||| contains(t, "substring"@) && !all_ascii(t)
    ||| contains(t, "shl"@)
    ||| contains(t, "shr"@)
    ||| contains(t, "math::abs"@)
}

/// What evaluating `t` gives as this library does it: `None` for text that
/// may make `evalexpr` panic, else what `evalexpr::eval` gives.
pub open spec fn guarded_eval(t: Seq<char>) -> Option<EvalValueView> {
    if may_panic_in_eval(t) {
        None
    } else {
        spec_eval(t)
    }
}

/// Whether `t` may make `evalexpr` panic (see [`may_panic_in_eval`]).
pub fn eval_may_panic(t: &str) -> (res: bool)
    ensures
        res == may_panic_in_eval(t@),
{
    let v = chars_of(t);
    if contains_vec(&v, &chars_of("shl")) || contains_vec(&v, &chars_of("shr")) || contains_vec(
        &v,
        &chars_of("math::abs"),
    ) {
        return true;
    }
    if !contains_vec(&v, &chars_of("substring")) {
        return false;
    }
    let mut i: usize = 0;
    while i < v.len()
        invariant
            i <= v.len(),
            v@ == t@,
            contains(t@, "substring"@),
            forall|j: int| 0 <= j < i ==> (#[trigger] v@[j] as u32) < 128,
        decreases v.len() - i,
    {
        if (v[i] as u32) >= 128 {
            assert(!all_ascii(t@)) by {
                assert(!((t@[i as int] as u32) < 128));
            }
            return true;
        }
        i += 1;
    }
    false
}

/// Calls `evalexpr::eval`, which evaluates an expression in an empty
/// context. The claim: the outcome is a function of the text alone; a float
/// is handed over by its IEEE-754 bits and its text, a tuple by its debug
/// text. The `requires` leaves out the text on which a built-in function
/// of `evalexpr` can panic; what is left unsaid is that a text nested deep
/// enough can still exhaust the stack while it is parsed.
#[verifier::external_body]
fn eval_expression(expr: &str) -> (res: Result<EvalValue, evalexpr::EvalexprError>)
    requires
        !may_panic_in_eval(expr@),
    ensures
        match res {
            Ok(v) => spec_eval(expr@) == Some(v@),
            Err(_) => spec_eval(expr@) is None,
        },
{
    match evalexpr::eval(expr) {
        Ok(evalexpr::Value::String(s)) => Ok(EvalValue::String(s)),
        Ok(evalexpr::Value::Float(f)) => Ok(EvalValue::Float(f.to_bits(), f.to_string())),
        Ok(evalexpr::Value::Int(i)) => Ok(EvalValue::Int(i)),
        Ok(evalexpr::Value::Boolean(b)) => Ok(EvalValue::Boolean(b)),
        Ok(evalexpr::Value::Tuple(t)) => Ok(EvalValue::Tuple(format!("{:?}", t))),
        Ok(evalexpr::Value::Empty) => Ok(EvalValue::Empty),
        Err(e) => Err(e),
    }
}

/// Whether a float, given by its bits, differs from `0.0`: every value but
/// the two zeros does (NaN included).
pub open spec fn float_bits_nonzero(bits: u64) -> bool {
    bits & 0x7fff_ffff_ffff_ffffu64 != 0
}

/// The truth of a value: `false`, `0`, `0.0`, `""` and the empty value are
/// false; everything else is true.
pub open spec fn value_truth(v: EvalValueView) -> bool {
    match v {
        EvalValueView::Boolean(b) => b,
        EvalValueView::Int(i) => i != 0,
        EvalValueView::Float(bits, _) => float_bits_nonzero(bits),
        EvalValueView::String(s) => s.len() > 0,
        EvalValueView::Tuple(_) => true,
        EvalValueView::Empty => false,
    }
}

/// The truth of a text read as a plain value: an integer or a float is true
/// when not zero; `true`/`yes`/`on`/`1` and `false`/`no`/`off`/`0` (in any
/// case) are what they say; the empty text is false; any other text is true.
/// `float_reading` is what reading the trimmed text as a float gives: `None`
/// when it is no float, else whether the float differs from zero.
pub open spec fn simple_value_truth(value: Seq<char>, float_reading: Option<bool>) -> bool {
    let t = trim(value);
    if parse_i64_spec(t) is Some {
        parse_i64_spec(t)->0 != 0
    } else if float_reading is Some {
        float_reading->0
    } else {
        let l = spec_to_lowercase(t);
        if l == "true"@ || l == "yes"@ || l == "on"@ || l == "1"@ {
            true
        } else if l == "false"@ || l == "no"@ || l == "off"@ || l == "0"@ {
            false
        } else {
            l.len() > 0
        }
    }
}

/// The truth of an expression, once evaluated (`None` when `evalexpr`
/// failed on it).
pub open spec fn outcome_truth(
    trimmed: Seq<char>,
    outcome: Option<EvalValueView>,
    float_reading: Option<bool>,
) -> bool {
    if trimmed.len() == 0 {
        false
    } else {
        match outcome {
            Some(v) => value_truth(v),
            None => simple_value_truth(trimmed, float_reading),
        }
    }
}

/// The truth of an expression whose variables and SQL are resolved, given
/// the float reading of its trimmed text.
pub open spec fn expression_truth(expr: Seq<char>, float_reading: Option<bool>) -> bool {
    outcome_truth(trim(expr), guarded_eval(trim(expr)), float_reading)
}

/// The backtick SQL expressions of a text, left to right: each is a
/// backtick, one or more other characters, and a backtick; the pair is the
/// whole expression and the SQL inside it.
pub open spec fn backtick_exprs(s: Seq<char>) -> Seq<(Seq<char>, Seq<char>)>
    decreases s.len(),
{
    let p = index_of(s, '`');
    if p < 0 || p >= s.len() {
        seq![]
    } else {
        let rest = s.skip(p + 1);
        let k = index_of(rest, '`');
        if k < 0 || k >= rest.len() {
            seq![]
        } else if k == 0 {
            backtick_exprs(rest)
        } else {
            seq![(s.subrange(p, p + k + 2), rest.take(k))] + backtick_exprs(s.skip(p + k + 2))
        }
    }
}

/// The pairs with a whole expression seen before dropped.
pub open spec fn first_occurrences(v: Seq<(Seq<char>, Seq<char>)>) -> Seq<(Seq<char>, Seq<char>)>
    decreases v.len(),
{
    if v.len() == 0 {
        seq![]
    } else {
        let prev = first_occurrences(v.drop_last());
        if exists|i: int| 0 <= i < prev.len() && (#[trigger] prev[i]).0 == v.last().0 {
            prev
        } else {
            prev.push(v.last())
        }
    }
}

/// The rows a SQL expression's query gave, or its error.
pub type SqlOutcome = Result<Vec<Vec<String>>, DbError>;

/// The value that stands for a SQL expression: `0` on error or when there
/// are no rows; the first column of a single row; else the number of rows.
pub open spec fn sql_value(outcome: Result<Seq<Seq<Seq<char>>>, ()>) -> Seq<char> {
    match outcome {
        Err(_) => "0"@,
        Ok(rows) => if rows.len() == 0 {
            "0"@
        } else if rows.len() == 1 {
            rows[0][0]
        } else {
            decimal(rows.len())
        },
    }
}

pub open spec fn rows_view(rows: Seq<Vec<String>>) -> Seq<Seq<Seq<char>>> {
    rows.map_values(|r: Vec<String>| string_views(r@))
}

pub open spec fn outcome_view(o: SqlOutcome) -> Result<Seq<Seq<Seq<char>>>, ()> {
    match o {
        Ok(rows) => Ok(rows_view(rows@)),
        Err(_) => Err(()),
    }
}

/// Replaces each pattern by its value, in order.
pub open spec fn replace_all(s: Seq<char>, reps: Seq<(Seq<char>, Seq<char>)>) -> Seq<char>
    decreases reps.len(),
{
    if reps.len() == 0 {
        s
    } else {
        replace(replace_all(s, reps.drop_last()), reps.last().0, reps.last().1)
    }
}

/// Evaluates conditions of `if` and `while`.
pub struct ExpressionEvaluator {
    /// The character that delimits SQL expressions.
    backtick: char,
}

impl Default for ExpressionEvaluator {
    fn default() -> (res: Self)
        ensures
            res.wf(),
    {
        Self::new()
    }
}

impl ExpressionEvaluator {
    pub closed spec fn wf(&self) -> bool {
        self.backtick == '`'
    }

    pub fn new() -> (res: Self)
        ensures
            res.wf(),
    {
        ExpressionEvaluator { backtick: '`' }
    }

    /// The truth of a text read as a plain value; `float_reading` is what
    /// reading its trimmed text as a float gives (`None`: no float; else
    /// whether it differs from zero).
    pub fn interpret_as_simple_value(&self, value: &str, float_reading: Option<bool>) -> (res:
        Result<bool, VariableError>)
        ensures
            res == Ok::<bool, VariableError>(simple_value_truth(value@, float_reading)),
    {
        let t = trim_vec(&chars_of(value));
        match parse_i64_vec(&t) {
            Some(i) => {
                return Ok(i != 0);
            },
            None => {},
        }
        match float_reading {
            Some(nonzero) => {
                return Ok(nonzero);
            },
            None => {},
        }
        let ts = to_string(&t);
        let lower = to_lowercase(ts.as_str());
        let l = chars_of(lower.as_str());
        if eq_str(&l, "true") || eq_str(&l, "yes") || eq_str(&l, "on") || eq_str(&l, "1") {
            Ok(true)
        } else if eq_str(&l, "false") || eq_str(&l, "no") || eq_str(&l, "off") || eq_str(&l, "0") {
            Ok(false)
        } else {
            Ok(l.len() > 0)
        }
    }

    /// The truth of an evaluated value.
    fn value_to_bool(&self, value: &EvalValue) -> (res: bool)
        ensures
            res == value_truth(value@),
    {
        match value {
            EvalValue::Boolean(b) => *b,
            EvalValue::Int(i) => *i != 0,
            EvalValue::Float(bits, _) => *bits & 0x7fff_ffff_ffff_ffffu64 != 0,
            EvalValue::String(s) => chars_of(s.as_str()).len() > 0,
            EvalValue::Tuple(_) => true,
            EvalValue::Empty => false,
        }
    }

    /// The truth of an expression, given what `evalexpr` made of its trimmed
    /// text (`None` when it failed).
    pub fn truth_of_outcome(
        &self,
        trimmed: &str,
        outcome: Option<EvalValue>,
        float_reading: Option<bool>,
    ) -> (res: bool)
        ensures
            res == outcome_truth(
                trimmed@,
                match outcome {
                    Some(v) => Some(v@),
                    None => None,
                },
                float_reading,
            ),
    {
        if chars_of(trimmed).len() == 0 {
            return false;
        }
        match outcome {
            Some(v) => self.value_to_bool(&v),
            None => {
                let r = self.interpret_as_simple_value(trimmed, float_reading);
                match r {
                    Ok(b) => b,
                    Err(_) => false,
                }
            },
        }
    }

    /// Evaluates an expression whose variables and SQL are resolved; blank
    /// text is false. `float_reading` is what reading the trimmed text as a
    /// float gives.
    pub fn evaluate_final_expression(&self, expression: &str, float_reading: Option<bool>) -> (res:
        Result<bool, VariableError>)
        ensures
            res == Ok::<bool, VariableError>(expression_truth(expression@, float_reading)),
    {
        let t = to_string(&trim_vec(&chars_of(expression)));
        let outcome = if eval_may_panic(t.as_str()) {
            None
        } else {
            match eval_expression(t.as_str()) {
                Ok(v) => Some(v),
                Err(_) => None,
            }
        };
        Ok(self.truth_of_outcome(t.as_str(), outcome, float_reading))
    }
}

pub open spec fn pair_views(v: Seq<(Vec<char>, Vec<char>)>) -> Seq<(Seq<char>, Seq<char>)> {
    v.map_values(|p: (Vec<char>, Vec<char>)| (p.0@, p.1@))
}

pub open spec fn string_pair_views(v: Seq<(String, String)>) -> Seq<(Seq<char>, Seq<char>)> {
    v.map_values(|p: (String, String)| (p.0@, p.1@))
}

/// The replacements for the SQL expressions found: each whole expression
/// with the value its outcome gives.
pub open spec fn sql_replacements(
    found: Seq<(Seq<char>, Seq<char>)>,
    outcomes: Seq<Result<Seq<Seq<Seq<char>>>, ()>>,
) -> Seq<(Seq<char>, Seq<char>)> {
    Seq::new(found.len(), |i: int| (found[i].0, sql_value(outcomes[i])))
}

/// An outcome whose single row has no column has no value to stand for it.
pub open spec fn outcome_has_value(o: SqlOutcome) -> bool {
    match o {
        Ok(rows) => rows@.len() == 1 ==> rows@[0]@.len() > 0,
        Err(_) => true,
    }
}

impl ExpressionEvaluator {
    /// All backtick SQL expressions of `v`, left to right.
    fn backtick_expressions(&self, v: &Vec<char>) -> (res: Vec<(Vec<char>, Vec<char>)>)
        ensures
            pair_views(res@) == backtick_exprs(v@),
    {
        let mut res: Vec<(Vec<char>, Vec<char>)> = Vec::new();
        let mut pos: usize = 0;
        assert(v@.skip(0) =~= v@);
        while pos < v.len()
            invariant
                pos <= v.len(),
                pair_views(res@) + backtick_exprs(v@.skip(pos as int)) == backtick_exprs(v@),
            decreases v.len() - pos,
        {
            let ghost t = v@.skip(pos as int);
            let p = find_char_from(v, '`', pos);
            if p == v.len() {
                proof {
                    lemma_index_of(t, '`');
                }
                assert(backtick_exprs(t) =~= Seq::<(Seq<char>, Seq<char>)>::empty());
                assert(pair_views(res@) + Seq::<(Seq<char>, Seq<char>)>::empty() =~= pair_views(res@));
                return res;
            }
            proof {
                lemma_index_of(t, '`');
            }
            let k = find_char_from(v, '`', p + 1);
            assert(t.skip(p - pos + 1) =~= v@.skip(p + 1));
            if k == v.len() {
                proof {
                    lemma_index_of(v@.skip(p + 1), '`');
                }
                assert(backtick_exprs(t) =~= Seq::<(Seq<char>, Seq<char>)>::empty());
                assert(pair_views(res@) + Seq::<(Seq<char>, Seq<char>)>::empty() =~= pair_views(res@));
                return res;
            }
            proof {
                lemma_index_of(v@.skip(p + 1), '`');
            }
            if k == p + 1 {
                pos = p + 1;
            } else {
                let whole = subvec(v, p, k + 1);
                let inner = subvec(v, p + 1, k);
                let ghost old_res = res@;
                assert(whole@ =~= t.subrange(p - pos, p - pos + (k - p - 1) + 2));
                assert(inner@ =~= v@.skip(p + 1).take(k - p - 1));
                assert(t.skip(p - pos + (k - p - 1) + 2) =~= v@.skip(k + 1));
                res.push((whole, inner));
                assert(pair_views(res@) =~= pair_views(old_res).push((whole@, inner@)));
                assert(pair_views(res@) + backtick_exprs(v@.skip(k + 1)) =~= pair_views(old_res)
                    + backtick_exprs(t));
                pos = k + 1;
            }
        }
        assert(v@.skip(pos as int) =~= Seq::<char>::empty());
        assert(pair_views(res@) + Seq::<(Seq<char>, Seq<char>)>::empty() =~= pair_views(res@));
        res
    }

    /// The distinct backtick SQL expressions of an expression, in the order
    /// of their first occurrence: each as (whole expression, SQL).
    pub fn find_sql_expressions(&self, expression: &str) -> (res: Vec<(String, String)>)
        ensures
            string_pair_views(res@) == first_occurrences(backtick_exprs(expression@)),
    {
        let all = self.backtick_expressions(&chars_of(expression));
        let ghost av = pair_views(all@);
        let mut res: Vec<(String, String)> = Vec::new();
        let mut i: usize = 0;
        while i < all.len()
            invariant
                i <= all.len(),
                av == pair_views(all@),
                string_pair_views(res@) == first_occurrences(av.take(i as int)),
            decreases all.len() - i,
        {
            let ghost prev = string_pair_views(res@);
            assert(av.take(i + 1).drop_last() =~= av.take(i as int));
            assert(av.take(i + 1).last() == av[i as int]);
            assert(av[i as int].0 == all@[i as int].0@);
            let mut seen = false;
            let mut j: usize = 0;
            while j < res.len()
                invariant
                    j <= res.len(),
                    i < all.len(),
                    av == pair_views(all@),
                    prev == string_pair_views(res@),
                    seen <==> exists|m: int| 0 <= m < j && (#[trigger] prev[m]).0 == av[i as int].0,
                decreases res.len() - j,
            {
                let r0 = chars_of(res[j].0.as_str());
                if crate::text::eq_vec(&r0, &all[i].0) {
                    seen = true;
                }
                proof {
                    if r0@ == av[i as int].0 {
                        assert(prev[j as int].0 == av[i as int].0);
                    }
                }
                j += 1;
            }
            if !seen {
                let pair = (to_string(&all[i].0), to_string(&all[i].1));
                res.push(pair);
                assert(string_pair_views(res@) =~= prev.push(av[i as int]));
            }
            i += 1;
        }
        assert(av.take(all.len() as int) =~= av);
        res
    }

    /// The value that stands for a SQL expression, from what its query gave.
    pub fn sql_replacement_value(&self, outcome: &SqlOutcome) -> (res: String)
        requires
            outcome_has_value(*outcome),
        ensures
            res@ == sql_value(outcome_view(*outcome)),
    {
        proof {
            reveal_strlit("0");
        }
        match outcome {
            Err(_) => String::from_str("0"),
            Ok(rows) => {
                if rows.len() == 0 {
                    String::from_str("0")
                } else if rows.len() == 1 {
                    assert(rows_view(rows@)[0] == string_views(rows@[0]@));
                    rows[0][0].clone()
                } else {
                    to_string(&decimal_vec(rows.len() as u64))
                }
            },
        }
    }

    /// Replaces each backtick SQL expression by the value its query gave;
    /// `outcomes` holds, for each expression `find_sql_expressions` gives,
    /// in that order, what its query gave.
    pub fn resolve_sql_expressions(&self, expression: &str, outcomes: &Vec<SqlOutcome>) -> (res:
        String)
        requires
            outcomes@.len() == first_occurrences(backtick_exprs(expression@)).len(),
            forall|i: int| 0 <= i < outcomes@.len() ==> outcome_has_value(#[trigger] outcomes@[i]),
        ensures
            res@ == replace_all(
                expression@,
                sql_replacements(
                    first_occurrences(backtick_exprs(expression@)),
                    outcomes@.map_values(|o: SqlOutcome| outcome_view(o)),
                ),
            ),
    {
        let found = self.find_sql_expressions(expression);
        let ghost fv = string_pair_views(found@);
        let ghost reps = sql_replacements(fv, outcomes@.map_values(|o: SqlOutcome| outcome_view(o)));
        let mut out = chars_of(expression);
        let mut i: usize = 0;
        while i < found.len()
            invariant
                i <= found.len(),
                found.len() == outcomes.len(),
                fv == string_pair_views(found@),
                fv == first_occurrences(backtick_exprs(expression@)),
                reps == sql_replacements(fv, outcomes@.map_values(|o: SqlOutcome| outcome_view(o))),
                forall|m: int| 0 <= m < outcomes@.len() ==> outcome_has_value(#[trigger] outcomes@[m]),
                out@ == replace_all(expression@, reps.take(i as int)),
            decreases found.len() - i,
        {
            let value = self.sql_replacement_value(&outcomes[i]);
            let pattern = chars_of(found[i].0.as_str());
            assert(reps.take(i + 1).drop_last() =~= reps.take(i as int));
            assert(reps.take(i + 1).last() == reps[i as int]);
            if pattern.len() > 0 {
                out = replace_vec(&out, &pattern, &chars_of(value.as_str()));
            } else {
                assert(replace(out@, pattern@, value@) == out@);
            }
            i += 1;
        }
        assert(reps.take(found.len() as int) =~= reps);
        to_string(&out)
    }
}

/// The text a `let` stores for an evaluated value: `1`/`0` for a boolean,
/// the number's text, the string, a tuple's debug text, or nothing.
pub open spec fn value_text(v: EvalValueView) -> Seq<char> {
    match v {
        EvalValueView::Boolean(b) => if b {
            "1"@
        } else {
            "0"@
        },
        EvalValueView::Int(i) => crate::text::int_decimal(i as int),
        EvalValueView::Float(_, t) => t,
        EvalValueView::String(s) => s,
        EvalValueView::Tuple(t) => t,
        EvalValueView::Empty => seq![],
    }
}

/// The value a `let` stores: its value (SQL resolved) evaluated when that
/// succeeds, else the value as it is; a blank value stores nothing.
pub open spec fn let_value(value: Seq<char>) -> Seq<char> {
    let t = trim(value);
    if t.len() == 0 {
        seq![]
    } else {
        match guarded_eval(t) {
            Some(v) => value_text(v),
            None => value,
        }
    }
}

impl crate::tester::variables::LetHandler {
    /// The text stored for an evaluated value.
    pub fn eval_value_to_string(value: &EvalValue) -> (res: String)
        ensures
            res@ == value_text(value@),
    {
        proof {
            reveal_strlit("1");
            reveal_strlit("0");
        }
        match value {
            EvalValue::Boolean(b) => if *b {
                String::from_str("1")
            } else {
                String::from_str("0")
            },
            EvalValue::Int(i) => {
                let mut v: Vec<char> = Vec::new();
                crate::text::push_i64(&mut v, *i);
                to_string(&v)
            },
            EvalValue::Float(_, t) => t.clone(),
            EvalValue::String(s) => s.clone(),
            EvalValue::Tuple(t) => t.clone(),
            EvalValue::Empty => String::new(),
        }
    }

    /// Evaluates a value: `None` when `evalexpr` cannot; blank text gives
    /// the empty text.
    pub fn try_evaluate_expression(expr: &str) -> (res: Option<String>)
        ensures
            match res {
                Some(v) => if trim(expr@).len() == 0 {
                    v@.len() == 0
                } else {
                    guarded_eval(trim(expr@)) is Some && v@ == value_text(guarded_eval(trim(expr@))->0)
                },
                None => trim(expr@).len() > 0 && guarded_eval(trim(expr@)) is None,
            },
    {
        let t = to_string(&trim_vec(&chars_of(expr)));
        if chars_of(t.as_str()).len() == 0 {
            return Some(String::new());
        }
        if eval_may_panic(t.as_str()) {
            return None;
        }
        match eval_expression(t.as_str()) {
            Ok(v) => Some(Self::eval_value_to_string(&v)),
            Err(_) => None,
        }
    }

    /// The value a `let` stores, given its value with SQL expressions
    /// already resolved.
    pub fn evaluate_value_optimistically(value: &str) -> (res: String)
        ensures
            res@ == let_value(value@),
    {
        match Self::try_evaluate_expression(value) {
            Some(v) => v,
            None => String::from_str(value),
        }
    }
}


/// An evaluated condition is as true as its value: an integer is true
/// exactly when it is not zero (so a negative integer is true), a boolean is
/// itself, a string is true exactly when it is not empty.
pub proof fn law_condition_truth_of_values(expr: Seq<char>, float_reading: Option<bool>)
    requires
        trim(expr).len() > 0,
    ensures
        guarded_eval(trim(expr)) matches Some(EvalValueView::Int(i)) ==> (expression_truth(
            expr,
            float_reading,
        ) <==> i != 0),
        guarded_eval(trim(expr)) matches Some(EvalValueView::Int(i)) && i < 0 ==> expression_truth(
            expr,
            float_reading,
        ),
        guarded_eval(trim(expr)) matches Some(EvalValueView::Boolean(b)) ==> expression_truth(
            expr,
            float_reading,
        ) == b,
        guarded_eval(trim(expr)) matches Some(EvalValueView::String(t)) ==> (expression_truth(
            expr,
            float_reading,
        ) <==> t.len() > 0),
{
}

} // verus!
