//! Integer arithmetic on test variables: `inc`, `dec`, `add` and `sub`.
//!
//! A variable whose value is not an integer, or that has no value, counts
//! as `0`.

use vstd::prelude::*;
use crate::text::{
    chars_of, trim, trim_vec, subvec, to_string, push_str, push_i64, parse_i64_vec, parse_i64_spec,
    int_decimal, split, split_trimmed, split_trim, views, lemma_int_decimal_parses,
};
use crate::tester::variables::VariableContext;

verus! {

/// Why a variable operation was refused.
#[derive(Debug, Clone)]
pub enum VarOpError {
    /// The named variable does not start with `$`.
    NotAVariable(String),
    /// `add` or `sub` was not given `$var, value`; the operation's name.
    BadFormat(String),
    /// The value is neither an integer nor a variable.
    InvalidNumber(String),
}

pub enum VarOpErrorView {
    NotAVariable(Seq<char>),
    BadFormat(Seq<char>),
    InvalidNumber(Seq<char>),
}

impl View for VarOpError {
    type V = VarOpErrorView;

    open spec fn view(&self) -> VarOpErrorView {
        match self {
            VarOpError::NotAVariable(s) => VarOpErrorView::NotAVariable(s@),
            VarOpError::BadFormat(s) => VarOpErrorView::BadFormat(s@),
            VarOpError::InvalidNumber(s) => VarOpErrorView::InvalidNumber(s@),
        }
    }
}

pub open spec fn var_op_message(e: VarOpErrorView) -> Seq<char> {
    match e {
        VarOpErrorView::NotAVariable(s) => "Variable name must start with $: "@ + s,
        VarOpErrorView::BadFormat(op) => op + " command requires format: "@ + op + " $var, value"@,
        VarOpErrorView::InvalidNumber(s) => "Invalid number or variable: "@ + s,
    }
}

impl VarOpError {
    /// The text of the error.
    pub fn message(&self) -> (res: String)
        ensures
            res@ == var_op_message(self@),
    {
        let mut v: Vec<char> = Vec::new();
        match self {
            VarOpError::NotAVariable(s) => {
                push_str(&mut v, "Variable name must start with $: ");
                push_str(&mut v, s.as_str());
            },
            VarOpError::BadFormat(op) => {
                push_str(&mut v, op.as_str());
                push_str(&mut v, " command requires format: ");
                push_str(&mut v, op.as_str());
                push_str(&mut v, " $var, value");
            },
            VarOpError::InvalidNumber(s) => {
                push_str(&mut v, "Invalid number or variable: ");
                push_str(&mut v, s.as_str());
            },
        }
        to_string(&v)
    }
}

/// The integer value of a variable: its value read as an `i64`, or `0`
/// when it has none or it is no integer.
pub open spec fn int_value(vars: Map<Seq<char>, Seq<char>>, key: Seq<char>) -> int {
    if vars.contains_key(key) && parse_i64_spec(vars[key]) is Some {
        parse_i64_spec(vars[key])->0
    } else {
        0
    }
}

pub open spec fn names_variable(t: Seq<char>) -> bool {
    t.len() > 0 && t[0] == '$'
}

/// The operand of `add`/`sub`: a variable's integer value, or an integer.
pub open spec fn operand(vars: Map<Seq<char>, Seq<char>>, value: Seq<char>) -> Option<int> {
    if names_variable(value) {
        Some(int_value(vars, value.skip(1)))
    } else {
        parse_i64_spec(value)
    }
}

pub open spec fn i64_range(n: int) -> bool {
    i64::MIN <= n <= i64::MAX
}

/// The new value of the variable named in `args` after adding `delta`
/// (`inc`, `dec`), or the error.
pub open spec fn step_result(vars: Map<Seq<char>, Seq<char>>, args: Seq<char>, delta: int) -> Result<
    Map<Seq<char>, Seq<char>>,
    VarOpErrorView,
> {
    let t = trim(args);
    if !names_variable(t) {
        Err(VarOpErrorView::NotAVariable(t))
    } else {
        Ok(vars.insert(t.skip(1), int_decimal(int_value(vars, t.skip(1)) + delta)))
    }
}

/// The variables after `add` (`sign` 1) or `sub` (`sign` -1), or the error.
pub open spec fn arith_result(
    vars: Map<Seq<char>, Seq<char>>,
    args: Seq<char>,
    op: Seq<char>,
    sign: int,
) -> Result<Map<Seq<char>, Seq<char>>, VarOpErrorView> {
    let parts = split_trimmed(args, ',');
    if parts.len() != 2 {
        Err(VarOpErrorView::BadFormat(op))
    } else if !names_variable(parts[0]) {
        Err(VarOpErrorView::NotAVariable(parts[0]))
    } else if operand(vars, parts[1]) is None {
        Err(VarOpErrorView::InvalidNumber(parts[1]))
    } else {
        let key = parts[0].skip(1);
        Ok(vars.insert(key, int_decimal(int_value(vars, key) + sign * operand(vars, parts[1])->0)))
    }
}

/// Whether the arithmetic of `add`/`sub` stays in range.
pub open spec fn arith_in_range(vars: Map<Seq<char>, Seq<char>>, args: Seq<char>, sign: int) -> bool {
    let parts = split_trimmed(args, ',');
    parts.len() == 2 && names_variable(parts[0]) && operand(vars, parts[1]) is Some ==> i64_range(
        int_value(vars, parts[0].skip(1)) + sign * operand(vars, parts[1])->0,
    )
}

pub open spec fn applied(
    before: Map<Seq<char>, Seq<char>>,
    after: Map<Seq<char>, Seq<char>>,
    res: Result<(), VarOpError>,
    expected: Result<Map<Seq<char>, Seq<char>>, VarOpErrorView>,
) -> bool {
    match expected {
        Ok(m) => res is Ok && after == m,
        Err(e) => res is Err && res->Err_0@ == e && after == before,
    }
}

/// The integer value of the variable `key`.
fn read_int(ctx: &VariableContext, key: &str) -> (res: i64)
    ensures
        res as int == int_value(ctx@, key@),
{
    match ctx.get(key) {
        Some(v) => {
            match parse_i64_vec(&chars_of(v.as_str())) {
                Some(n) => n,
                None => 0,
            }
        },
        None => 0,
    }
}

fn store_int(ctx: &mut VariableContext, key: &str, n: i64)
    requires
        old(ctx).wf(),
    ensures
        final(ctx).wf(),
        final(ctx)@ == old(ctx)@.insert(key@, int_decimal(n as int)),
{
    let mut v: Vec<char> = Vec::new();
    push_i64(&mut v, n);
    let s = to_string(&v);
    ctx.set(key, s.as_str());
}

/// Adds `delta` to the variable named (with `$`) in `args`.
fn step(ctx: &mut VariableContext, args: &str, delta: i64) -> (res: Result<(), VarOpError>)
    requires
        old(ctx).wf(),
        names_variable(trim(args@)) ==> i64_range(
            int_value(old(ctx)@, trim(args@).skip(1)) + delta,
        ),
    ensures
        final(ctx).wf(),
        applied(old(ctx)@, final(ctx)@, res, step_result(old(ctx)@, args@, delta as int)),
{
    let t = trim_vec(&chars_of(args));
    if t.len() == 0 || t[0] != '$' {
        return Err(VarOpError::NotAVariable(to_string(&t)));
    }
    let key = to_string(&subvec(&t, 1, t.len()));
    assert(key@ =~= t@.skip(1));
    let current = read_int(ctx, key.as_str());
    store_int(ctx, key.as_str(), current + delta);
    Ok(())
}

/// `inc $var`: adds one to the variable.
pub fn execute_inc(ctx: &mut VariableContext, args: &str) -> (res: Result<(), VarOpError>)
    requires
        old(ctx).wf(),
        names_variable(trim(args@)) ==> int_value(old(ctx)@, trim(args@).skip(1)) < i64::MAX,
    ensures
        final(ctx).wf(),
        applied(old(ctx)@, final(ctx)@, res, step_result(old(ctx)@, args@, 1)),
{
    step(ctx, args, 1)
}

/// `dec $var`: subtracts one from the variable.
pub fn execute_dec(ctx: &mut VariableContext, args: &str) -> (res: Result<(), VarOpError>)
    requires
        old(ctx).wf(),
        names_variable(trim(args@)) ==> int_value(old(ctx)@, trim(args@).skip(1)) > i64::MIN,
    ensures
        final(ctx).wf(),
        applied(old(ctx)@, final(ctx)@, res, step_result(old(ctx)@, args@, -1)),
{
    step(ctx, args, -1)
}

/// `add $var, value` (`negate` false) or `sub $var, value` (`negate` true).
fn arith(ctx: &mut VariableContext, args: &str, op: &str, negate: bool) -> (res: Result<(), VarOpError>)
    requires
        old(ctx).wf(),
        arith_in_range(old(ctx)@, args@, if negate { -1 } else { 1 }),
    ensures
        final(ctx).wf(),
        applied(
            old(ctx)@,
            final(ctx)@,
            res,
            arith_result(old(ctx)@, args@, op@, if negate { -1 } else { 1 }),
        ),
{
    let parts = split_trim(&chars_of(args), ',');
    assert(views(parts@).len() == parts@.len());
    if parts.len() != 2 {
        return Err(VarOpError::BadFormat(String::from_str(op)));
    }
    assert(views(parts@)[0] == parts@[0]@);
    assert(views(parts@)[1] == parts@[1]@);
    let var = &parts[0];
    let value = &parts[1];
    if var.len() == 0 || var[0] != '$' {
        return Err(VarOpError::NotAVariable(to_string(var)));
    }
    let amount: i64 = if value.len() > 0 && value[0] == '$' {
        let vkey = to_string(&subvec(value, 1, value.len()));
        assert(vkey@ =~= value@.skip(1));
        read_int(ctx, vkey.as_str())
    } else {
        match parse_i64_vec(value) {
            Some(n) => n,
            None => {
                return Err(VarOpError::InvalidNumber(to_string(value)));
            },
        }
    };
    let key = to_string(&subvec(var, 1, var.len()));
    assert(key@ =~= var@.skip(1));
    let current = read_int(ctx, key.as_str());
    let updated = if negate {
        current - amount
    } else {
        current + amount
    };
    store_int(ctx, key.as_str(), updated);
    Ok(())
}

/// `add $var, value`: adds an integer, or another variable's value.
pub fn execute_add(ctx: &mut VariableContext, args: &str) -> (res: Result<(), VarOpError>)
    requires
        old(ctx).wf(),
        arith_in_range(old(ctx)@, args@, 1),
    ensures
        final(ctx).wf(),
        applied(old(ctx)@, final(ctx)@, res, arith_result(old(ctx)@, args@, "add"@, 1)),
{
    arith(ctx, args, "add", false)
}

/// `sub $var, value`: subtracts an integer, or another variable's value.
pub fn execute_sub(ctx: &mut VariableContext, args: &str) -> (res: Result<(), VarOpError>)
    requires
        old(ctx).wf(),
        arith_in_range(old(ctx)@, args@, -1),
    ensures
        final(ctx).wf(),
        applied(old(ctx)@, final(ctx)@, res, arith_result(old(ctx)@, args@, "sub"@, -1)),
{
    arith(ctx, args, "sub", true)
}


/// `inc`/`dec` count from the old value: after a successful step on the
/// variable `$name`, its integer value is its old integer value plus
/// `delta`, it holds the decimal text of that number, and every other
/// variable keeps its value. A step on text that names no variable fails
/// and changes nothing.
pub proof fn law_step_counts_from_old_value(
    vars: Map<Seq<char>, Seq<char>>,
    args: Seq<char>,
    delta: int,
)
    requires
        names_variable(trim(args)) ==> i64_range(int_value(vars, trim(args).skip(1)) + delta),
    ensures
        names_variable(trim(args)) ==> {
            let key = trim(args).skip(1);
            &&& step_result(vars, args, delta) is Ok
            &&& int_value(step_result(vars, args, delta)->Ok_0, key) == int_value(vars, key) + delta
            &&& step_result(vars, args, delta)->Ok_0.contains_key(key)
            &&& parse_i64_spec(step_result(vars, args, delta)->Ok_0[key]) == Some(
                int_value(vars, key) + delta,
            )
            &&& forall|k: Seq<char>|
                k != key ==> (#[trigger] step_result(vars, args, delta)->Ok_0.contains_key(k)
                    == vars.contains_key(k) && (vars.contains_key(k)
                    ==> step_result(vars, args, delta)->Ok_0[k] == vars[k]))
        },
        !names_variable(trim(args)) ==> step_result(vars, args, delta) is Err,
{
    if names_variable(trim(args)) {
        lemma_int_decimal_parses(int_value(vars, trim(args).skip(1)) + delta);
    }
}

/// `inc` then `dec` on a variable leaves its integer value as it was.
pub proof fn law_inc_then_dec(vars: Map<Seq<char>, Seq<char>>, args: Seq<char>)
    requires
        names_variable(trim(args)),
        int_value(vars, trim(args).skip(1)) < i64::MAX,
    ensures
        step_result(step_result(vars, args, 1)->Ok_0, args, -1) is Ok,
        int_value(step_result(step_result(vars, args, 1)->Ok_0, args, -1)->Ok_0, trim(args).skip(1))
            == int_value(vars, trim(args).skip(1)),
{
    let key = trim(args).skip(1);
    lemma_int_decimal_parses(int_value(vars, key) + 1);
    let m = step_result(vars, args, 1)->Ok_0;
    lemma_int_decimal_parses(int_value(m, key) - 1);
}

/// `add`/`sub` count from the old value: after success, the variable's
/// integer value is its old integer value plus (`add`) or minus (`sub`) the
/// operand.
pub proof fn law_arith_counts_from_old_value(
    vars: Map<Seq<char>, Seq<char>>,
    args: Seq<char>,
    op: Seq<char>,
    sign: int,
)
    requires
        arith_in_range(vars, args, sign),
        arith_result(vars, args, op, sign) is Ok,
    ensures
        ({
            let parts = split_trimmed(args, ',');
            let key = parts[0].skip(1);
            &&& parts.len() == 2
            &&& operand(vars, parts[1]) is Some
            &&& int_value(arith_result(vars, args, op, sign)->Ok_0, key) == int_value(vars, key) + sign
                * operand(vars, parts[1])->0
        }),
{
    let parts = split_trimmed(args, ',');
    lemma_int_decimal_parses(int_value(vars, parts[0].skip(1)) + sign * operand(vars, parts[1])->0);
}

} // verus!
