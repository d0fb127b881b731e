//! Statements as trees.
use crate::ast::{expression_text, Expression};
use crate::tokens::Token;
use vstd::prelude::*;

verus! {

/// `print` and the expression whose value is printed.
#[derive(Debug)]
pub struct PrintStat {
    pub expr: Box<Expression>,
}

impl PrintStat {
    pub fn new(expr: Box<Expression>) -> (out: Self)
        ensures
            out.expr == expr,
    {
        Self { expr }
    }
}

/// An expression evaluated for what it does.
#[derive(Debug)]
pub struct ExpressionStat {
    pub expr: Box<Expression>,
}

impl ExpressionStat {
    pub fn new(expr: Box<Expression>) -> (out: Self)
        ensures
            out.expr == expr,
    {
        Self { expr }
    }
}

/// The declaration of a variable, with its initial value if it has one.
#[derive(Debug)]
pub struct VariableStat {
    pub name: Token,
    pub initializer: Option<Box<Expression>>,
}

impl VariableStat {
    pub fn new(name: Token, initializer: Option<Box<Expression>>) -> (out: Self)
        ensures
            out.name == name,
            out.initializer == initializer,
    {
        VariableStat { name, initializer }
    }
}

/// A statement: one of the three kinds.
#[derive(Debug)]
pub enum Statement {
    Print(PrintStat),
    Expression(ExpressionStat),
    Variable(VariableStat),
}

/// How a statement is written out: its expression, or `var` and the name.
pub open spec fn statement_text(s: Statement) -> Seq<char> {
    match s {
        Statement::Print(p) => expression_text(*p.expr),
        Statement::Expression(e) => expression_text(*e.expr),
        Statement::Variable(v) => "var "@ + v.name@.lexeme,
    }
}

impl Statement {
    /// The statement written out.
    pub fn to_text(&self) -> (out: String)
        ensures
            out@ == statement_text(*self),
    {
        match self {
            Statement::Print(p) => p.expr.to_text(),
            Statement::Expression(e) => e.expr.to_text(),
            Statement::Variable(v) => {
                let mut out = String::new();
                out.append("var ");
                out.append(v.name.get_lexeme().as_str());
                assert(out@ =~= "var "@ + v.name@.lexeme);
                out
            },
        }
    }
}

} // verus!
