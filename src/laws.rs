use vstd::prelude::*;
use vstd::math::abs;
use vstd::arithmetic::div_mod::{
    lemma_div_basics, lemma_div_is_ordered_by_denominator, lemma_div_pos_is_pos, lemma_fundamental_div_mod,
    lemma_mod_pos_bound,
};
use crate::ast::{Binary, BinaryOp, Bool, If, Int, Term};
use crate::eval::{eval_term, trunc_div, trunc_rem, EvalError};
use crate::value::{printed, SpecValue};

verus! {

/// The integer literal `a`.
pub open spec fn int_term(a: i32) -> Term {
    Term::Int(Int { value: a })
}

/// `a op b` on two integer literals.
pub open spec fn int_op_term(a: i32, op: BinaryOp, b: i32) -> Term {
    Term::Binary(Binary { lhs: Box::new(int_term(a)), op, rhs: Box::new(int_term(b)) })
}

/// Integer division of literals rounds toward zero: where `b` is not zero and
/// the quotient fits in 32 bits, `a / b` gives `q` and `a % b` gives `r` with
/// `a == q * b + r`, `|r| < |b|`, and `r` zero or of the sign of `a`.
pub proof fn law_division_truncates(a: i32, b: i32, env: Map<Seq<char>, SpecValue>, out: Seq<Seq<char>>)
    requires
        b != 0,
        !(a == i32::MIN && b == -1),
    ensures
        eval_term(int_op_term(a, BinaryOp::Div, b), env, out).result
            == Ok::<SpecValue, EvalError>(SpecValue::Int(trunc_div(a as int, b as int) as i32)),
        eval_term(int_op_term(a, BinaryOp::Rem, b), env, out).result
            == Ok::<SpecValue, EvalError>(SpecValue::Int(trunc_rem(a as int, b as int) as i32)),
        a == trunc_div(a as int, b as int) * b + trunc_rem(a as int, b as int),
        abs(trunc_rem(a as int, b as int)) < abs(b as int),
        trunc_rem(a as int, b as int) == 0 || (trunc_rem(a as int, b as int) < 0) == (a < 0),
        i32::MIN <= trunc_div(a as int, b as int) <= i32::MAX,
{
    reveal_with_fuel(eval_term, 2);
    let (x, y) = (a as int, b as int);
    let (m, n) = (abs(x) as int, abs(y) as int);
    lemma_fundamental_div_mod(m, n);
    lemma_mod_pos_bound(m, n);
    let (q, r) = (m / n, m % n);
    assert(0 <= q <= m) by {
        lemma_div_is_ordered_by_denominator(m, 1, n);
        lemma_div_basics(m);
        lemma_div_pos_is_pos(m, n);
    }
    if n >= 2 {
        lemma_div_is_ordered_by_denominator(m, 2, n);
    } else {
        lemma_div_basics(m);
    }
    assert(x == trunc_div(x, y) * y + trunc_rem(x, y)) by (nonlinear_arith)
        requires
            m == n * q + r,
            m == abs(x),
            n == abs(y),
            trunc_div(x, y) == (if (x < 0) == (y < 0) { q } else { -q }),
            trunc_rem(x, y) == (if x < 0 { -r } else { r }),
    ;
}

/// Dividing by zero, or taking a remainder by zero, fails with
/// `DivisionByZero` whatever the dividend.
pub proof fn law_division_by_zero(a: i32, env: Map<Seq<char>, SpecValue>, out: Seq<Seq<char>>)
    ensures
        eval_term(int_op_term(a, BinaryOp::Div, 0), env, out).result
            == Err::<SpecValue, EvalError>(EvalError::DivisionByZero),
        eval_term(int_op_term(a, BinaryOp::Rem, 0), env, out).result
            == Err::<SpecValue, EvalError>(EvalError::DivisionByZero),
{
    reveal_with_fuel(eval_term, 2);
}

/// An evaluation keeps no hidden state: what it returns and binds depends on
/// the term and the environment alone, and what it prints is appended to the
/// lines printed before, whatever they were. So two evaluations of one term in
/// fresh environments agree in result, bindings and printed lines.
pub proof fn law_no_hidden_state(t: Term, env: Map<Seq<char>, SpecValue>, out: Seq<Seq<char>>)
    ensures
        eval_term(t, env, out).result == eval_term(t, env, Seq::empty()).result,
        eval_term(t, env, out).env == eval_term(t, env, Seq::empty()).env,
        eval_term(t, env, out).out == out + eval_term(t, env, Seq::empty()).out,
    decreases t,
{
    let e = Seq::<Seq<char>>::empty();
    match t {
        Term::Print(p) => {
            law_no_hidden_state(*p.value, env, out);
            let o = eval_term(*p.value, env, e);
            if let Ok(v) = o.result {
                if let Some(line) = printed(v) {
                    assert(out + o.out.push(line) =~= (out + o.out).push(line));
                }
            }
        },
        Term::If(i) => {
            law_no_hidden_state(*i.condition, env, out);
            let c = eval_term(*i.condition, env, e);
            law_no_hidden_state(*i.then_branch, c.env, out + c.out);
            law_no_hidden_state(*i.then_branch, c.env, c.out);
            law_no_hidden_state(*i.otherwise, c.env, out + c.out);
            law_no_hidden_state(*i.otherwise, c.env, c.out);
            assert(out + c.out + eval_term(*i.then_branch, c.env, e).out
                =~= out + (c.out + eval_term(*i.then_branch, c.env, e).out));
            assert(out + c.out + eval_term(*i.otherwise, c.env, e).out
                =~= out + (c.out + eval_term(*i.otherwise, c.env, e).out));
        },
        Term::Let(l) => {
            law_no_hidden_state(*l.value, env, out);
            let o = eval_term(*l.value, env, e);
            if let Ok(v) = o.result {
                let env2 = o.env.insert(l.name.text@, v);
                law_no_hidden_state(*l.next, env2, out + o.out);
                law_no_hidden_state(*l.next, env2, o.out);
                assert(out + o.out + eval_term(*l.next, env2, e).out
                    =~= out + (o.out + eval_term(*l.next, env2, e).out));
            }
        },
        Term::Binary(b) => {
            law_no_hidden_state(*b.lhs, env, out);
            let lo = eval_term(*b.lhs, env, e);
            law_no_hidden_state(*b.rhs, lo.env, out + lo.out);
            law_no_hidden_state(*b.rhs, lo.env, lo.out);
            assert(out + lo.out + eval_term(*b.rhs, lo.env, e).out
                =~= out + (lo.out + eval_term(*b.rhs, lo.env, e).out));
        },
        _ => {
            assert(out + e =~= out);
        },
    }
}

/// A conditional whose condition is `true` evaluates to its first branch
/// alone: the second branch is not evaluated, so it neither prints nor binds
/// nor fails.
pub proof fn law_true_condition_skips_otherwise(
    then_branch: Term,
    otherwise: Term,
    env: Map<Seq<char>, SpecValue>,
    out: Seq<Seq<char>>,
)
    ensures
        eval_term(
            Term::If(If {
                condition: Box::new(Term::Bool(Bool { value: true })),
                then_branch: Box::new(then_branch),
                otherwise: Box::new(otherwise),
            }),
            env,
            out,
        ) == eval_term(then_branch, env, out),
{
    reveal_with_fuel(eval_term, 2);
}

} // verus!
