use evaluator::{
    apply, decimal_string, eval, Binary, BinaryOp, Bool, Context, EvalError, If, Int, Let, Parameter, Print,
    Str, Term, Value, Var,
};

fn lit(v: i32) -> Term {
    Term::Int(Int { value: v })
}

fn string(s: &str) -> Term {
    Term::Str(Str { value: s.to_string() })
}

fn boolean(b: bool) -> Term {
    Term::Bool(Bool { value: b })
}

fn var(name: &str) -> Term {
    Term::Var(Var { text: name.to_string() })
}

fn print(t: Term) -> Term {
    Term::Print(Print { value: Box::new(t) })
}

fn binary(lhs: Term, op: BinaryOp, rhs: Term) -> Term {
    Term::Binary(Binary { lhs: Box::new(lhs), op, rhs: Box::new(rhs) })
}

fn if_term(condition: Term, then_branch: Term, otherwise: Term) -> Term {
    Term::If(If {
        condition: Box::new(condition),
        then_branch: Box::new(then_branch),
        otherwise: Box::new(otherwise),
    })
}

fn let_term(name: &str, value: Term, next: Term) -> Term {
    Term::Let(Let {
        name: Parameter { text: name.to_string() },
        value: Box::new(value),
        next: Box::new(next),
    })
}

fn run(t: Term) -> (Result<Value, EvalError>, Vec<String>) {
    let mut context = Context::new();
    let mut output = Vec::new();
    let r = eval(t, &mut context, &mut output);
    (r, output)
}

fn value_of(t: Term) -> Result<Value, EvalError> {
    run(t).0
}

#[test]
fn division_truncates_toward_zero() {
    assert_eq!(value_of(binary(lit(7), BinaryOp::Div, lit(2))), Ok(Value::Int(3)));
    assert_eq!(value_of(binary(lit(-7), BinaryOp::Div, lit(2))), Ok(Value::Int(-3)));
    assert_eq!(value_of(binary(lit(7), BinaryOp::Div, lit(-2))), Ok(Value::Int(-3)));
    assert_eq!(value_of(binary(lit(-7), BinaryOp::Div, lit(-2))), Ok(Value::Int(3)));
    assert_eq!(value_of(binary(lit(0), BinaryOp::Div, lit(-5))), Ok(Value::Int(0)));
}

#[test]
fn remainder_takes_the_sign_of_the_dividend() {
    assert_eq!(value_of(binary(lit(7), BinaryOp::Rem, lit(2))), Ok(Value::Int(1)));
    assert_eq!(value_of(binary(lit(-7), BinaryOp::Rem, lit(2))), Ok(Value::Int(-1)));
    assert_eq!(value_of(binary(lit(7), BinaryOp::Rem, lit(-2))), Ok(Value::Int(1)));
    assert_eq!(value_of(binary(lit(-7), BinaryOp::Rem, lit(-2))), Ok(Value::Int(-1)));
    assert_eq!(value_of(binary(lit(6), BinaryOp::Rem, lit(3))), Ok(Value::Int(0)));
}

#[test]
fn quotient_that_does_not_fit_overflows() {
    assert_eq!(value_of(binary(lit(i32::MIN), BinaryOp::Div, lit(-1))), Err(EvalError::Overflow));
    assert_eq!(value_of(binary(lit(i32::MIN), BinaryOp::Rem, lit(-1))), Err(EvalError::Overflow));
    assert_eq!(value_of(binary(lit(i32::MIN), BinaryOp::Div, lit(1))), Ok(Value::Int(i32::MIN)));
}

#[test]
fn division_by_zero_fails() {
    assert_eq!(value_of(binary(lit(5), BinaryOp::Div, lit(0))), Err(EvalError::DivisionByZero));
    assert_eq!(value_of(binary(lit(0), BinaryOp::Div, lit(0))), Err(EvalError::DivisionByZero));
    assert_eq!(value_of(binary(lit(-5), BinaryOp::Rem, lit(0))), Err(EvalError::DivisionByZero));
    assert_eq!(value_of(binary(lit(i32::MIN), BinaryOp::Rem, lit(0))), Err(EvalError::DivisionByZero));
}

#[test]
fn unbound_variable_fails() {
    assert_eq!(value_of(var("x")), Err(EvalError::UnboundVariable));
}

#[test]
fn let_binds_its_value() {
    assert_eq!(value_of(let_term("x", lit(5), var("x"))), Ok(Value::Int(5)));
}

#[test]
fn let_body_reads_the_binding() {
    let t = let_term("x", lit(1), binary(var("x"), BinaryOp::Add, lit(1)));
    assert_eq!(value_of(t), Ok(Value::Int(2)));
}

#[test]
fn later_let_overrides_earlier() {
    let t = let_term("x", lit(1), let_term("x", string("b"), var("x")));
    assert_eq!(value_of(t), Ok(Value::Str("b".to_string())));
}

#[test]
fn let_binding_outlives_its_body() {
    // The binding made on the left is still there when the right operand runs.
    let t = binary(let_term("x", lit(1), var("x")), BinaryOp::Add, var("x"));
    assert_eq!(value_of(t), Ok(Value::Int(2)));
}

#[test]
fn let_leaves_binding_in_context() {
    let mut context = Context::new();
    let mut output = Vec::new();
    let r = eval(let_term("y", lit(9), lit(0)), &mut context, &mut output);
    assert_eq!(r, Ok(Value::Int(0)));
    assert_eq!(context.get(&"y".to_string()), Some(&Value::Int(9)));
}

#[test]
fn string_and_int_add_keeps_operand_order() {
    assert_eq!(value_of(binary(string("a"), BinaryOp::Add, lit(1))), Ok(Value::Str("a1".to_string())));
    assert_eq!(value_of(binary(lit(1), BinaryOp::Add, string("a"))), Ok(Value::Str("1a".to_string())));
    assert_eq!(value_of(binary(string("x"), BinaryOp::Add, lit(-12))), Ok(Value::Str("x-12".to_string())));
    assert_eq!(value_of(binary(string("ab"), BinaryOp::Add, string("cd"))), Ok(Value::Str("abcd".to_string())));
}

#[test]
fn integer_arithmetic() {
    assert_eq!(value_of(binary(lit(2), BinaryOp::Add, lit(3))), Ok(Value::Int(5)));
    assert_eq!(value_of(binary(lit(2), BinaryOp::Sub, lit(3))), Ok(Value::Int(-1)));
    assert_eq!(value_of(binary(lit(-4), BinaryOp::Mul, lit(3))), Ok(Value::Int(-12)));
}

#[test]
fn integer_overflow_fails() {
    assert_eq!(value_of(binary(lit(i32::MAX), BinaryOp::Add, lit(1))), Err(EvalError::Overflow));
    assert_eq!(value_of(binary(lit(i32::MIN), BinaryOp::Sub, lit(1))), Err(EvalError::Overflow));
    assert_eq!(value_of(binary(lit(65536), BinaryOp::Mul, lit(65536))), Err(EvalError::Overflow));
}

#[test]
fn comparisons() {
    assert_eq!(value_of(binary(lit(1), BinaryOp::Lt, lit(2))), Ok(Value::Bool(true)));
    assert_eq!(value_of(binary(lit(2), BinaryOp::Gt, lit(2))), Ok(Value::Bool(false)));
    assert_eq!(value_of(binary(lit(2), BinaryOp::Lte, lit(2))), Ok(Value::Bool(true)));
    assert_eq!(value_of(binary(lit(1), BinaryOp::Gte, lit(2))), Ok(Value::Bool(false)));
    assert_eq!(value_of(binary(string("a"), BinaryOp::Lt, string("b"))), Err(EvalError::TypeMismatch));
}

#[test]
fn equality_of_like_values() {
    assert_eq!(value_of(binary(lit(3), BinaryOp::Eq, lit(3))), Ok(Value::Bool(true)));
    assert_eq!(value_of(binary(string("a"), BinaryOp::Eq, string("b"))), Ok(Value::Bool(false)));
    assert_eq!(value_of(binary(boolean(true), BinaryOp::Neq, boolean(false))), Ok(Value::Bool(true)));
    assert_eq!(value_of(binary(string("a"), BinaryOp::Neq, string("a"))), Ok(Value::Bool(false)));
    assert_eq!(value_of(binary(lit(1), BinaryOp::Eq, string("1"))), Err(EvalError::TypeMismatch));
}

#[test]
fn true_condition_skips_otherwise() {
    let (r, out) = run(if_term(boolean(true), lit(1), lit(2)));
    assert_eq!(r, Ok(Value::Int(1)));
    assert!(out.is_empty());
    let (r, out) = run(if_term(boolean(true), lit(1), print(string("no"))));
    assert_eq!(r, Ok(Value::Int(1)));
    assert!(out.is_empty());
    let (r, out) = run(if_term(boolean(false), print(string("no")), lit(2)));
    assert_eq!(r, Ok(Value::Int(2)));
    assert!(out.is_empty());
}

#[test]
fn non_bool_condition_fails() {
    assert_eq!(value_of(if_term(lit(1), lit(1), lit(2))), Err(EvalError::TypeMismatch));
}

#[test]
fn logical_operators() {
    assert_eq!(value_of(binary(boolean(true), BinaryOp::And, boolean(false))), Ok(Value::Bool(false)));
    assert_eq!(value_of(binary(boolean(true), BinaryOp::Or, boolean(false))), Ok(Value::Bool(true)));
    assert_eq!(value_of(binary(lit(1), BinaryOp::And, boolean(false))), Err(EvalError::TypeMismatch));
}

#[test]
fn logical_operators_evaluate_both_operands() {
    let t = binary(boolean(false), BinaryOp::And, binary(print(lit(7)), BinaryOp::Eq, boolean(true)));
    let (r, out) = run(t);
    assert_eq!(r, Err(EvalError::TypeMismatch));
    assert_eq!(out, vec!["7".to_string()]);
}

#[test]
fn print_writes_one_line() {
    let (r, out) = run(print(lit(42)));
    assert_eq!(r, Ok(Value::Void));
    assert_eq!(out, vec!["42".to_string()]);
    let (_, out) = run(print(boolean(false)));
    assert_eq!(out, vec!["false".to_string()]);
    let (_, out) = run(print(string("hi there")));
    assert_eq!(out, vec!["hi there".to_string()]);
}

#[test]
fn printing_void_fails() {
    let (r, out) = run(print(print(lit(1))));
    assert_eq!(r, Err(EvalError::TypeMismatch));
    assert_eq!(out, vec!["1".to_string()]);
}

#[test]
fn operands_run_left_to_right() {
    let t = binary(print(lit(1)), BinaryOp::Eq, print(lit(2)));
    let (r, out) = run(t);
    assert_eq!(r, Err(EvalError::TypeMismatch));
    assert_eq!(out, vec!["1".to_string(), "2".to_string()]);
}

fn program() -> Term {
    let_term(
        "n",
        binary(lit(10), BinaryOp::Div, lit(3)),
        if_term(
            binary(var("n"), BinaryOp::Gt, lit(2)),
            print(binary(string("n="), BinaryOp::Add, var("n"))),
            print(lit(0)),
        ),
    )
}

#[test]
fn evaluating_twice_agrees() {
    let first = run(program());
    let second = run(program());
    assert_eq!(first, second);
    assert_eq!(first.0, Ok(Value::Void));
    assert_eq!(first.1, vec!["n=3".to_string()]);
}

#[test]
fn decimal_text_of_integers() {
    assert_eq!(decimal_string(0), "0");
    assert_eq!(decimal_string(7), "7");
    assert_eq!(decimal_string(-305), "-305");
    assert_eq!(decimal_string(i32::MAX), "2147483647");
    assert_eq!(decimal_string(i32::MIN), "-2147483648");
}

#[test]
fn tuples_and_void_cannot_be_printed() {
    let t = Value::Tuple(Box::new(Value::Int(1)), Box::new(Value::Void));
    assert_eq!(t.print_line(), None);
    assert_eq!(Value::Void.print_line(), None);
    assert_eq!(Value::Bool(true).print_line(), Some("true".to_string()));
    assert_eq!(t.duplicate(), t);
}

#[test]
fn apply_rejects_mismatched_operands() {
    assert_eq!(apply(BinaryOp::Sub, Value::Str("a".to_string()), Value::Int(1)), Err(EvalError::TypeMismatch));
    assert_eq!(apply(BinaryOp::Add, Value::Void, Value::Void), Err(EvalError::TypeMismatch));
    assert_eq!(apply(BinaryOp::Or, Value::Bool(false), Value::Bool(false)), Ok(Value::Bool(false)));
}

#[test]
fn context_lookup_takes_latest_binding() {
    let mut c = Context::new();
    assert_eq!(c.get(&"a".to_string()), None);
    c.insert("a".to_string(), Value::Int(1));
    c.insert("b".to_string(), Value::Int(2));
    c.insert("a".to_string(), Value::Int(3));
    assert_eq!(c.get(&"a".to_string()), Some(&Value::Int(3)));
    assert_eq!(c.get(&"b".to_string()), Some(&Value::Int(2)));
}
