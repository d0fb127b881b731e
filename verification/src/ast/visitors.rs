//! Walking an expression tree.
use crate::ast::{expression_text, Expression};
use vstd::prelude::*;

verus! {

/// The expression written out.
pub fn format_expr_ast(expr: &Box<Expression>) -> (out: String)
    ensures
        out@ == expression_text(**expr),
{
    expr.to_text()
}

} // verus!
