//! Writing an expression tree out.
use crate::ast::{expression_text, Expression};
use vstd::prelude::*;

verus! {

/// The expression written out.
pub fn format_ast(expr: &Box<Expression>) -> (out: String)
    ensures
        out@ == expression_text(**expr),
{
    expr.to_text()
}

} // verus!
