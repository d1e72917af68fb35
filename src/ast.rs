use vstd::prelude::*;

verus! {

/// A whole program: a name and the root expression to evaluate.
#[derive(Debug)]
pub struct File {
    pub name: String,
    pub expression: Term,
}

/// `if condition then ... else otherwise`.
#[derive(Debug)]
pub struct If {
    pub condition: Box<Term>,
    pub then_branch: Box<Term>,
    pub otherwise: Box<Term>,
}

/// The name bound by a `Let`.
#[derive(Debug)]
pub struct Parameter {
    pub text: String,
}

/// `let name = value; next`.
#[derive(Debug)]
pub struct Let {
    pub name: Parameter,
    pub value: Box<Term>,
    pub next: Box<Term>,
}

/// A reference to a bound variable.
#[derive(Debug)]
pub struct Var {
    pub text: String,
}

/// A 32-bit signed integer literal.
#[derive(Debug)]
pub struct Int {
    pub value: i32,
}

/// A string literal.
#[derive(Debug)]
pub struct Str {
    pub value: String,
}

/// Prints the value of its operand on a line of its own.
#[derive(Debug)]
pub struct Print {
    pub value: Box<Term>,
}

/// A boolean literal.
#[derive(Debug)]
pub struct Bool {
    pub value: bool,
}

/// The binary operators of the language.
#[derive(Debug, Clone, Copy, PartialEq, Eq, Structural)]
pub enum BinaryOp {
    Add,
    Sub,
    Mul,
    Div,
    Rem,
    Eq,
    Neq,
    Lt,
    Gt,
    Lte,
    Gte,
    And,
    Or,
}

/// `lhs op rhs`; `lhs` is evaluated before `rhs`.
#[derive(Debug)]
pub struct Binary {
    pub lhs: Box<Term>,
    pub op: BinaryOp,
    pub rhs: Box<Term>,
}

/// One node of an expression tree.
#[derive(Debug)]
pub enum Term {
    Int(Int),
    Str(Str),
    Print(Print),
    Binary(Binary),
    Bool(Bool),
    If(If),
    Let(Let),
    Var(Var),
}

} // verus!
