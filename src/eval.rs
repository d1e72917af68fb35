use vstd::prelude::*;
use vstd::string::*;
use vstd::math::abs;
use vstd::arithmetic::div_mod::{lemma_small_mod, lemma_div_basics, lemma_div_is_ordered_by_denominator, lemma_mod_pos_bound};
use crate::ast::{BinaryOp, Term};
use crate::context::Context;
use crate::value::{append_decimal, decimal, printed, SpecValue, Value};

verus! {

/// Why an evaluation was abandoned.
#[derive(Debug, Clone, Copy, PartialEq, Eq, Structural)]
pub enum EvalError {
    /// A variable was read that no `Let` has bound.
    UnboundVariable,
    /// An operator, a condition or a print got a value it does not accept.
    TypeMismatch,
    /// Division or remainder by zero.
    DivisionByZero,
    /// An integer result does not fit in 32 signed bits.
    Overflow,
}

/// What an evaluation ends with: its result, the environment and the lines
/// printed so far (including those before the evaluation began).
pub struct Outcome {
    pub result: Result<SpecValue, EvalError>,
    pub env: Map<Seq<char>, SpecValue>,
    pub out: Seq<Seq<char>>,
}

/// Integer division rounding toward zero.
pub open spec fn trunc_div(a: int, b: int) -> int
    recommends
        b != 0,
{
    let q = (abs(a) / abs(b)) as int;
    if (a < 0) == (b < 0) {
        q
    } else {
        -q
    }
}

/// The remainder of `trunc_div`: the sign of the dividend, the magnitude of
/// `|a| mod |b|`.
pub open spec fn trunc_rem(a: int, b: int) -> int
    recommends
        b != 0,
{
    let r = (abs(a) % abs(b)) as int;
    if a < 0 {
        -r
    } else {
        r
    }
}

proof fn lemma_quotient_bounds(x: int, y: int)
    requires
        y != 0,
    ensures
        abs(x) / abs(y) <= abs(x),
        abs(y) >= 2 ==> abs(x) / abs(y) <= abs(x) / 2,
        0 <= abs(x) / abs(y),
        0 <= abs(x) % abs(y) < abs(y),
{
    lemma_div_is_ordered_by_denominator(abs(x) as int, 1, abs(y) as int);
    if abs(y) >= 2 {
        lemma_div_is_ordered_by_denominator(abs(x) as int, 2, abs(y) as int);
    }
    lemma_mod_pos_bound(abs(x) as int, abs(y) as int);
}

proof fn lemma_checked_div(x: i32, y: i32)
    requires
        y != 0,
    ensures
        x.checked_div(y) is Some <==> int_result(trunc_div(x as int, y as int)) is Ok,
        x.checked_div(y) matches Some(n) ==> n == trunc_div(x as int, y as int),
{
    lemma_quotient_bounds(x as int, y as int);
    if x == i32::MIN && y == -1 {
        assert(abs(y as int) == 1);
        lemma_div_basics(abs(x as int) as int);
    }
}

proof fn lemma_checked_rem(x: i32, y: i32)
    requires
        y != 0,
    ensures
        x.checked_rem(y) is Some <==> int_result(trunc_div(x as int, y as int)) is Ok,
        x.checked_rem(y) matches Some(n) ==> n == trunc_rem(x as int, y as int),
{
    lemma_quotient_bounds(x as int, y as int);
    if x == i32::MIN && y == -1 {
        assert(abs(y as int) == 1);
        lemma_div_basics(abs(x as int) as int);
    } else if y == -1 || y == 1 {
        assert(abs(y as int) == 1);
        lemma_div_basics(abs(x as int) as int);
    } else {
        assert(abs(x as int) / abs(y as int) <= abs(x as int) / 2);
    }
    let (a, b) = (x as int, y as int);
    if a == 0 {
        lemma_small_mod(0, abs(b) as nat);
        assert(trunc_rem(a, b) == 0);
    } else if a < 0 && b < 0 {
        assert(abs(a) == a * -1 && abs(b) == b * -1);
        assert(trunc_rem(a, b) == ((a * -1) % (b * -1)) * -1);
    } else if a < 0 {
        assert(abs(a) == a * -1 && abs(b) == b);
        assert(trunc_rem(a, b) == ((a * -1) % b) * -1);
    } else if b < 0 {
        assert(abs(a) == a && abs(b) == b * -1);
        assert(trunc_rem(a, b) == a % (b * -1));
    } else {
        assert(abs(a) == a && abs(b) == b);
        assert(trunc_rem(a, b) == a % b);
    }
}

/// An `Int` result, or `Overflow` where it does not fit in an `i32`.
pub open spec fn int_result(n: int) -> Result<SpecValue, EvalError> {
    if i32::MIN <= n <= i32::MAX {
        Ok(SpecValue::Int(n as i32))
    } else {
        Err(EvalError::Overflow)
    }
}

/// What `a op b` gives once both operands are evaluated.
pub open spec fn apply_op(op: BinaryOp, a: SpecValue, b: SpecValue) -> Result<SpecValue, EvalError> {
    match (op, a, b) {
        (BinaryOp::Add, SpecValue::Int(x), SpecValue::Int(y)) => int_result(x + y),
        (BinaryOp::Add, SpecValue::Str(x), SpecValue::Int(y)) => Ok(SpecValue::Str(x + decimal(y as int))),
        (BinaryOp::Add, SpecValue::Int(x), SpecValue::Str(y)) => Ok(SpecValue::Str(decimal(x as int) + y)),
        (BinaryOp::Add, SpecValue::Str(x), SpecValue::Str(y)) => Ok(SpecValue::Str(x + y)),
        (BinaryOp::Sub, SpecValue::Int(x), SpecValue::Int(y)) => int_result(x - y),
        (BinaryOp::Mul, SpecValue::Int(x), SpecValue::Int(y)) => int_result(x * y),
        (BinaryOp::Div, SpecValue::Int(x), SpecValue::Int(y)) => if y == 0 {
            Err(EvalError::DivisionByZero)
        } else {
            int_result(trunc_div(x as int, y as int))
        },
        (BinaryOp::Rem, SpecValue::Int(x), SpecValue::Int(y)) => if y == 0 {
            Err(EvalError::DivisionByZero)
        } else if int_result(trunc_div(x as int, y as int)) is Err {
            Err(EvalError::Overflow)
        } else {
            Ok(SpecValue::Int(trunc_rem(x as int, y as int) as i32))
        },
        (BinaryOp::Eq, SpecValue::Int(x), SpecValue::Int(y)) => Ok(SpecValue::Bool(x == y)),
        (BinaryOp::Eq, SpecValue::Str(x), SpecValue::Str(y)) => Ok(SpecValue::Bool(x == y)),
        (BinaryOp::Eq, SpecValue::Bool(x), SpecValue::Bool(y)) => Ok(SpecValue::Bool(x == y)),
        (BinaryOp::Neq, SpecValue::Int(x), SpecValue::Int(y)) => Ok(SpecValue::Bool(x != y)),
        (BinaryOp::Neq, SpecValue::Str(x), SpecValue::Str(y)) => Ok(SpecValue::Bool(x != y)),
        (BinaryOp::Neq, SpecValue::Bool(x), SpecValue::Bool(y)) => Ok(SpecValue::Bool(x != y)),
        (BinaryOp::Lt, SpecValue::Int(x), SpecValue::Int(y)) => Ok(SpecValue::Bool(x < y)),
        (BinaryOp::Gt, SpecValue::Int(x), SpecValue::Int(y)) => Ok(SpecValue::Bool(x > y)),
        (BinaryOp::Lte, SpecValue::Int(x), SpecValue::Int(y)) => Ok(SpecValue::Bool(x <= y)),
        (BinaryOp::Gte, SpecValue::Int(x), SpecValue::Int(y)) => Ok(SpecValue::Bool(x >= y)),
        (BinaryOp::And, SpecValue::Bool(x), SpecValue::Bool(y)) => Ok(SpecValue::Bool(x && y)),
        (BinaryOp::Or, SpecValue::Bool(x), SpecValue::Bool(y)) => Ok(SpecValue::Bool(x || y)),
        _ => Err(EvalError::TypeMismatch),
    }
}

/// The outcome of evaluating `t` in environment `env`, after the lines `out`
/// have been printed.
pub open spec fn eval_term(t: Term, env: Map<Seq<char>, SpecValue>, out: Seq<Seq<char>>) -> Outcome
    decreases t,
{
    match t {
        Term::Int(i) => Outcome { result: Ok(SpecValue::Int(i.value)), env, out },
        Term::Str(s) => Outcome { result: Ok(SpecValue::Str(s.value@)), env, out },
        Term::Bool(b) => Outcome { result: Ok(SpecValue::Bool(b.value)), env, out },
        Term::Var(v) => Outcome {
            result: if env.contains_key(v.text@) {
                Ok(env[v.text@])
            } else {
                Err(EvalError::UnboundVariable)
            },
            env,
            out,
        },
        Term::Print(p) => {
            let o = eval_term(*p.value, env, out);
            match o.result {
                Ok(v) => match printed(v) {
                    Some(line) => Outcome { result: Ok(SpecValue::Void), env: o.env, out: o.out.push(line) },
                    None => Outcome { result: Err(EvalError::TypeMismatch), env: o.env, out: o.out },
                },
                Err(_) => o,
            }
        },
        Term::If(i) => {
            let c = eval_term(*i.condition, env, out);
            match c.result {
                Ok(SpecValue::Bool(true)) => eval_term(*i.then_branch, c.env, c.out),
                Ok(SpecValue::Bool(false)) => eval_term(*i.otherwise, c.env, c.out),
                Ok(_) => Outcome { result: Err(EvalError::TypeMismatch), env: c.env, out: c.out },
                Err(_) => c,
            }
        },
        Term::Let(l) => {
            let o = eval_term(*l.value, env, out);
            match o.result {
                Ok(v) => eval_term(*l.next, o.env.insert(l.name.text@, v), o.out),
                Err(_) => o,
            }
        },
        Term::Binary(b) => {
            let lo = eval_term(*b.lhs, env, out);
            match lo.result {
                Ok(x) => {
                    let ro = eval_term(*b.rhs, lo.env, lo.out);
                    match ro.result {
                        Ok(y) => Outcome { result: apply_op(b.op, x, y), env: ro.env, out: ro.out },
                        Err(_) => ro,
                    }
                },
                Err(_) => lo,
            }
        },
    }
}

/// The model of an evaluation result.
pub open spec fn result_view(r: Result<Value, EvalError>) -> Result<SpecValue, EvalError> {
    match r {
        Ok(v) => Ok(v@),
        Err(e) => Err(e),
    }
}

/// The text of each printed line.
pub open spec fn lines(v: Seq<String>) -> Seq<Seq<char>> {
    v.map_values(|s: String| s@)
}

fn int_value(r: Option<i32>) -> (v: Result<Value, EvalError>)
    ensures
        r matches Some(n) ==> v == Ok::<Value, EvalError>(Value::Int(n)),
        r is None ==> v == Err::<Value, EvalError>(EvalError::Overflow),
{
    match r {
        Some(n) => Ok(Value::Int(n)),
        None => Err(EvalError::Overflow),
    }
}

/// Applies `op` to two evaluated operands.
pub fn apply(op: BinaryOp, a: Value, b: Value) -> (r: Result<Value, EvalError>)
    ensures
        result_view(r) == apply_op(op, a@, b@),
{
    match (op, a, b) {
        (BinaryOp::Add, Value::Int(x), Value::Int(y)) => int_value(x.checked_add(y)),
        (BinaryOp::Add, Value::Str(x), Value::Int(y)) => {
            let mut s = x;
            append_decimal(&mut s, y);
            Ok(Value::Str(s))
        },
        (BinaryOp::Add, Value::Int(x), Value::Str(y)) => {
            let mut s = String::new();
            append_decimal(&mut s, x);
            s.append(y.as_str());
            Ok(Value::Str(s))
        },
        (BinaryOp::Add, Value::Str(x), Value::Str(y)) => {
            let mut s = x;
            s.append(y.as_str());
            Ok(Value::Str(s))
        },
        (BinaryOp::Sub, Value::Int(x), Value::Int(y)) => int_value(x.checked_sub(y)),
        (BinaryOp::Mul, Value::Int(x), Value::Int(y)) => int_value(x.checked_mul(y)),
        (BinaryOp::Div, Value::Int(x), Value::Int(y)) => {
            if y == 0 {
                Err(EvalError::DivisionByZero)
            } else {
                proof {
                    lemma_checked_div(x, y);
                }
                int_value(x.checked_div(y))
            }
        },
        (BinaryOp::Rem, Value::Int(x), Value::Int(y)) => {
            if y == 0 {
                Err(EvalError::DivisionByZero)
            } else {
                proof {
                    lemma_checked_rem(x, y);
                }
                int_value(x.checked_rem(y))
            }
        },
        (BinaryOp::Eq, Value::Int(x), Value::Int(y)) => Ok(Value::Bool(x == y)),
        (BinaryOp::Eq, Value::Str(x), Value::Str(y)) => Ok(Value::Bool(x == y)),
        (BinaryOp::Eq, Value::Bool(x), Value::Bool(y)) => Ok(Value::Bool(x == y)),
        (BinaryOp::Neq, Value::Int(x), Value::Int(y)) => Ok(Value::Bool(x != y)),
        (BinaryOp::Neq, Value::Str(x), Value::Str(y)) => Ok(Value::Bool(!(x == y))),
        (BinaryOp::Neq, Value::Bool(x), Value::Bool(y)) => Ok(Value::Bool(x != y)),
        (BinaryOp::Lt, Value::Int(x), Value::Int(y)) => Ok(Value::Bool(x < y)),
        (BinaryOp::Gt, Value::Int(x), Value::Int(y)) => Ok(Value::Bool(x > y)),
        (BinaryOp::Lte, Value::Int(x), Value::Int(y)) => Ok(Value::Bool(x <= y)),
        (BinaryOp::Gte, Value::Int(x), Value::Int(y)) => Ok(Value::Bool(x >= y)),
        (BinaryOp::And, Value::Bool(x), Value::Bool(y)) => Ok(Value::Bool(x && y)),
        (BinaryOp::Or, Value::Bool(x), Value::Bool(y)) => Ok(Value::Bool(x || y)),
        _ => Err(EvalError::TypeMismatch),
    }
}

/// Evaluates `term` in `context`.
///
/// The line of each `Print` met is appended to `output`, in evaluation order;
/// a `Let` binds its name in `context` itself, so the binding outlives the
/// `Let`. The first error abandons the evaluation: what was printed and bound
/// before it stays.
pub fn eval(term: Term, context: &mut Context, output: &mut Vec<String>) -> (r: Result<Value, EvalError>)
    ensures
        result_view(r) == eval_term(term, old(context)@, lines(old(output)@)).result,
        final(context)@ == eval_term(term, old(context)@, lines(old(output)@)).env,
        lines(final(output)@) == eval_term(term, old(context)@, lines(old(output)@)).out,
    decreases term,
{
    match term {
        Term::Int(i) => Ok(Value::Int(i.value)),
        Term::Str(s) => Ok(Value::Str(s.value)),
        Term::Bool(b) => Ok(Value::Bool(b.value)),
        Term::Var(v) => match context.get(&v.text) {
            Some(x) => Ok(x.duplicate()),
            None => Err(EvalError::UnboundVariable),
        },
        Term::Print(print) => {
            let value = match eval(*print.value, context, output) {
                Ok(v) => v,
                Err(e) => return Err(e),
            };
            match value.print_line() {
                Some(line) => {
                    let ghost before = output@;
                    output.push(line);
                    assert(lines(output@) =~= lines(before).push(line@));
                    Ok(Value::Void)
                },
                None => Err(EvalError::TypeMismatch),
            }
        },
        Term::If(elem) => {
            let condition = match eval(*elem.condition, context, output) {
                Ok(v) => v,
                Err(e) => return Err(e),
            };
            match condition {
                Value::Bool(true) => eval(*elem.then_branch, context, output),
                Value::Bool(false) => eval(*elem.otherwise, context, output),
                _ => Err(EvalError::TypeMismatch),
            }
        },
        Term::Let(elem) => {
            let value = match eval(*elem.value, context, output) {
                Ok(v) => v,
                Err(e) => return Err(e),
            };
            context.insert(elem.name.text, value);
            eval(*elem.next, context, output)
        },
        Term::Binary(binary) => {
            let lhs = match eval(*binary.lhs, context, output) {
                Ok(v) => v,
                Err(e) => return Err(e),
            };
            let rhs = match eval(*binary.rhs, context, output) {
                Ok(v) => v,
                Err(e) => return Err(e),
            };
            apply(binary.op, lhs, rhs)
        },
    }
}

} // verus!
