//! A tree-walking evaluator for a small dynamically typed expression language.
//!
//! The evaluator is specified by the spec function `eval_term`, and the
//! executable `eval` is proved to compute exactly that outcome: the result,
//! the environment afterwards and the lines printed on the way. Printing is
//! collected as lines; writing them out is left to the caller.

mod ast;
mod context;
mod eval;
mod laws;
mod value;

pub use ast::{Binary, BinaryOp, Bool, File, If, Int, Let, Parameter, Print, Str, Term, Var};
pub use value::{append_decimal, bool_text, decimal, decimal_string, digit_char, digits, printed, value_view, SpecValue, Value};
pub use context::Context;
pub use eval::{apply, eval, apply_op, eval_term, int_result, lines, result_view, trunc_div, trunc_rem, EvalError, Outcome};
pub use laws::{int_op_term, int_term, law_division_by_zero, law_division_truncates, law_no_hidden_state, law_true_condition_skips_otherwise};
