//! The tree evaluator's state.
use crate::ast::environment::Environment;
use crate::ast::{expression_text, EvaluateModel, Expression};
use vstd::prelude::*;

verus! {

/// The expression written out.
pub fn format_expr_ast(expr: &Box<Expression>) -> (out: String)
    ensures
        out@ == expression_text(**expr),
{
    expr.to_text()
}

/// An evaluator: the variables defined so far.
pub struct Interpreter {
    pub env: Environment,
}

impl Interpreter {
    /// An evaluator with no variables.
    pub fn new() -> (out: Interpreter)
        ensures
            out.env@ == Map::<Seq<char>, EvaluateModel>::empty(),
    {
        Interpreter { env: Environment::new() }
    }
}

impl Default for Interpreter {
    fn default() -> (out: Interpreter)
        ensures
            out.env@ == Map::<Seq<char>, EvaluateModel>::empty(),
    {
        Interpreter::new()
    }
}

} // verus!
