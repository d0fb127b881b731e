//! Expressions as trees, and the values that evaluating them yields.
//!
//! A value of this evaluator is a string with a type tag. What the
//! operators do to truth values, strings and nil is decided here; numbers
//! are kept as their decimal text, and arithmetic on them is left to the
//! host.
use crate::text::{chars_of, decimal, decimal_text, push_str_of};
use crate::tokens::{same_text, Token, TokenType};
use vstd::prelude::*;

pub mod environment;
pub mod interpreter;
pub mod statements;
pub mod visitors;

verus! {

/// The type of an evaluated value.
#[derive(Debug, PartialEq, Eq, Copy, Clone, Structural)]
pub enum EvaluationType {
    Number,
    String,
    Bool,
    Nil,
}

impl EvaluationType {
    pub open spec fn text(self) -> Seq<char> {
        match self {
            EvaluationType::Number => "Number"@,
            EvaluationType::String => "String"@,
            EvaluationType::Bool => "Bool"@,
            EvaluationType::Nil => "Nil"@,
        }
    }

    /// The name of the type.
    pub fn name(&self) -> (out: &'static str)
        ensures
            out@ == self.text(),
    {
        match self {
            EvaluationType::Number => "Number",
            EvaluationType::String => "String",
            EvaluationType::Bool => "Bool",
            EvaluationType::Nil => "Nil",
        }
    }
}

/// An evaluated value: its type, its text, and whether it counts as empty.
#[derive(Debug)]
pub struct EvaluateValue {
    pub eval_type: EvaluationType,
    pub is_empty: bool,
    pub value: String,
}

pub struct EvaluateModel {
    pub eval_type: EvaluationType,
    pub is_empty: bool,
    pub value: Seq<char>,
}

impl View for EvaluateValue {
    type V = EvaluateModel;

    open spec fn view(&self) -> EvaluateModel {
        EvaluateModel { eval_type: self.eval_type, is_empty: self.is_empty, value: self.value@ }
    }
}

impl EvaluateValue {
    pub fn new(eval_type: EvaluationType, is_empty: bool, value: String) -> (out: EvaluateValue)
        ensures
            out@ == (EvaluateModel { eval_type, is_empty, value: value@ }),
    {
        EvaluateValue { eval_type, is_empty, value }
    }
}

impl Clone for EvaluateValue {
    fn clone(&self) -> (out: Self)
        ensures
            out@ == self@,
    {
        EvaluateValue {
            eval_type: self.eval_type,
            is_empty: self.is_empty,
            value: self.value.clone(),
        }
    }
}

/// The shape of an expression.
#[derive(Debug, PartialEq, Eq, Copy, Clone, Structural)]
pub enum ExpressionType {
    Literal,
    Grouping,
    Unary,
    Binary,
    UnknownExpression,
}

impl ExpressionType {
    pub open spec fn text(self) -> Seq<char> {
        match self {
            ExpressionType::Literal => "Literal"@,
            ExpressionType::Grouping => "Grouping"@,
            ExpressionType::Unary => "Unary"@,
            ExpressionType::Binary => "Binary"@,
            ExpressionType::UnknownExpression => "Unknown Expression"@,
        }
    }

    /// The name of the shape.
    pub fn name(&self) -> (out: &'static str)
        ensures
            out@ == self.text(),
    {
        match self {
            ExpressionType::Literal => "Literal",
            ExpressionType::Grouping => "Grouping",
            ExpressionType::Unary => "Unary",
            ExpressionType::Binary => "Binary",
            ExpressionType::UnknownExpression => "Unknown Expression",
        }
    }
}

/// What stands where no expression could be parsed.
#[derive(Debug)]
pub struct UnknownExpression {}

impl UnknownExpression {
    pub fn new() -> (out: Self) {
        UnknownExpression {  }
    }
}

/// A literal: the token that spells it, and its text.
#[derive(Debug)]
pub struct Literal {
    pub token: Token,
    pub value: String,
}

impl Literal {
    pub fn new(token: Token) -> (out: Self)
        ensures
            out.token@ == token@,
            out.value@ == token@.lexeme,
    {
        Literal { value: token.get_lexeme(), token }
    }
}

/// An expression in parentheses.
#[derive(Debug)]
pub struct Grouping {
    pub expr: Box<Expression>,
}

impl Grouping {
    pub fn new(expr: Box<Expression>) -> (out: Self)
        ensures
            out.expr == expr,
    {
        Grouping { expr }
    }
}

/// An operator in front of its operand.
#[derive(Debug)]
pub struct Unary {
    pub operator: Token,
    pub right: Box<Expression>,
}

impl Unary {
    pub fn new(operator: Token, right: Box<Expression>) -> (out: Self)
        ensures
            out.operator == operator,
            out.right == right,
    {
        Unary { operator, right }
    }
}

/// An operator between its two operands.
#[derive(Debug)]
pub struct Binary {
    pub left: Box<Expression>,
    pub operator: Token,
    pub right: Box<Expression>,
}

/// An expression: one of the five shapes.
#[derive(Debug)]
pub enum Expression {
    Literal(Literal),
    Grouping(Grouping),
    Unary(Unary),
    Binary(Binary),
    UnknownExpression(UnknownExpression),
}

/// How an expression is written out: operators first, every compound in
/// parentheses.
pub open spec fn expression_text(e: Expression) -> Seq<char>
    decreases e,
{
    match e {
        Expression::Literal(l) => l.token@.lexeme,
        Expression::Grouping(g) => "( grouping "@ + expression_text(*g.expr) + " )"@,
        Expression::Unary(u) => "( "@ + u.operator@.lexeme + " "@ + expression_text(*u.right)
            + " )"@,
        Expression::Binary(b) => "( "@ + b.operator@.lexeme + " "@ + expression_text(*b.left)
            + " "@ + expression_text(*b.right) + " )"@,
        Expression::UnknownExpression(_) => "( found unknown expression )"@,
    }
}

impl Expression {
    pub open spec fn shape(self) -> ExpressionType {
        match self {
            Expression::Literal(_) => ExpressionType::Literal,
            Expression::Grouping(_) => ExpressionType::Grouping,
            Expression::Unary(_) => ExpressionType::Unary,
            Expression::Binary(_) => ExpressionType::Binary,
            Expression::UnknownExpression(_) => ExpressionType::UnknownExpression,
        }
    }

    /// The shape of the expression.
    pub fn expr_type(&self) -> (out: ExpressionType)
        ensures
            out == self.shape(),
    {
        match self {
            Expression::Literal(_) => ExpressionType::Literal,
            Expression::Grouping(_) => ExpressionType::Grouping,
            Expression::Unary(_) => ExpressionType::Unary,
            Expression::Binary(_) => ExpressionType::Binary,
            Expression::UnknownExpression(_) => ExpressionType::UnknownExpression,
        }
    }

    /// The expression written out.
    pub fn to_text(&self) -> (out: String)
        ensures
            out@ == expression_text(*self),
        decreases self,
    {
        let mut out = String::new();
        match self {
            Expression::Literal(l) => {
                let lexeme = l.token.get_lexeme();
                push_str_of(&mut out, &lexeme);
            },
            Expression::Grouping(g) => {
                out.append("( grouping ");
                let inner = g.expr.to_text();
                push_str_of(&mut out, &inner);
                out.append(" )");
            },
            Expression::Unary(u) => {
                out.append("( ");
                let lexeme = u.operator.get_lexeme();
                push_str_of(&mut out, &lexeme);
                out.append(" ");
                let right = u.right.to_text();
                push_str_of(&mut out, &right);
                out.append(" )");
            },
            Expression::Binary(b) => {
                out.append("( ");
                let lexeme = b.operator.get_lexeme();
                push_str_of(&mut out, &lexeme);
                out.append(" ");
                let left = b.left.to_text();
                push_str_of(&mut out, &left);
                out.append(" ");
                let right = b.right.to_text();
                push_str_of(&mut out, &right);
                out.append(" )");
            },
            Expression::UnknownExpression(_) => {
                out.append("( found unknown expression )");
            },
        }
        assert(out@ =~= expression_text(*self));
        out
    }
}

/// The message for an operator applied to operands it is not defined on.
pub open spec fn unsupported_text(operator: TokenType, l: EvaluationType, r: EvaluationType) -> Seq<
    char,
> {
    "TypeError: unsupported operand type(s) for "@ + operator.text() + ": "@ + l.text() + " and "@
        + r.text()
}

pub open spec fn division_text() -> Seq<char> {
    "ValueError: Division by zero is not allowed"@
}

/// The text of a truth value.
pub open spec fn bool_text(b: bool) -> Seq<char> {
    if b {
        "true"@
    } else {
        "false"@
    }
}

/// The text of a small integer.
pub open spec fn integer_text(n: int) -> Seq<char> {
    if n < 0 {
        "-"@ + decimal((-n) as nat)
    } else {
        decimal(n as nat)
    }
}

pub open spec fn truth(value: Seq<char>) -> bool {
    value == "true"@
}

/// Whether `value` is the text of a truth value.
pub open spec fn is_truth_text(value: Seq<char>) -> bool {
    value == "true"@ || value == "false"@
}

/// Whether `v` can be asked what it counts as: a truth value that is not
/// empty must be written `true` or `false`.
pub open spec fn is_judgeable(v: EvaluateModel) -> bool {
    !v.is_empty && v.eval_type == EvaluationType::Bool ==> is_truth_text(v.value)
}

pub open spec fn bool_model(b: bool) -> EvaluateModel {
    EvaluateModel { eval_type: EvaluationType::Bool, is_empty: false, value: bool_text(b) }
}

pub open spec fn integer_model(n: int) -> EvaluateModel {
    EvaluateModel { eval_type: EvaluationType::Number, is_empty: false, value: integer_text(n) }
}

/// What a literal evaluates to: its text, tagged with the type that the
/// kind of its token gives it. Only numbers, strings, `true`, `false` and
/// `nil` are literals.
pub open spec fn literal_value(kind: TokenType, lexeme: Seq<char>) -> Result<
    EvaluateModel,
    Seq<char>,
> {
    match kind {
        TokenType::Number => Ok(
            EvaluateModel {
                eval_type: EvaluationType::Number,
                is_empty: lexeme.len() == 0,
                value: lexeme,
            },
        ),
        TokenType::String => Ok(
            EvaluateModel {
                eval_type: EvaluationType::String,
                is_empty: lexeme.len() == 0,
                value: lexeme,
            },
        ),
        TokenType::True | TokenType::False => Ok(
            EvaluateModel {
                eval_type: EvaluationType::Bool,
                is_empty: lexeme.len() == 0,
                value: lexeme,
            },
        ),
        TokenType::Nil => Ok(
            EvaluateModel { eval_type: EvaluationType::Nil, is_empty: true, value: lexeme },
        ),
        _ => Err("invalid literal: "@ + kind.text()),
    }
}

/// An operator on two strings: `+` joins them, `==` and `!=` compare them.
pub open spec fn string_result(l: EvaluateModel, r: EvaluateModel, operator: TokenType) -> Result<
    EvaluateModel,
    Seq<char>,
> {
    match operator {
        TokenType::Plus => Ok(
            EvaluateModel {
                eval_type: EvaluationType::String,
                is_empty: (l.value + r.value).len() == 0,
                value: l.value + r.value,
            },
        ),
        TokenType::EqualEqual => Ok(bool_model(l.value == r.value)),
        TokenType::BangEqual => Ok(bool_model(l.value != r.value)),
        _ => Err(unsupported_text(operator, l.eval_type, r.eval_type)),
    }
}

/// The number that a truth value counts as: one for true, zero for false.
pub open spec fn bit(b: bool) -> int {
    if b {
        1
    } else {
        0
    }
}

/// An operator on two truth values. In arithmetic and in comparisons true
/// counts as one and false as zero; nothing is divided by false.
pub open spec fn bool_result(l: EvaluateModel, r: EvaluateModel, operator: TokenType) -> Result<
    EvaluateModel,
    Seq<char>,
> {
    let a = truth(l.value);
    let b = truth(r.value);
    match operator {
        TokenType::Plus => Ok(integer_model(bit(a) + bit(b))),
        TokenType::Minus => Ok(integer_model(bit(a) - bit(b))),
        TokenType::Star => Ok(integer_model(bit(a) * bit(b))),
        TokenType::Slash => if b {
            Ok(integer_model(bit(a)))
        } else {
            Err(division_text())
        },
        TokenType::EqualEqual => Ok(bool_model(a == b)),
        TokenType::BangEqual => Ok(bool_model(a != b)),
        TokenType::Less => Ok(bool_model(bit(a) < bit(b))),
        TokenType::LessEqual => Ok(bool_model(bit(a) <= bit(b))),
        TokenType::Greater => Ok(bool_model(bit(a) > bit(b))),
        TokenType::GreaterEqual => Ok(bool_model(bit(a) >= bit(b))),
        _ => Err(unsupported_text(operator, l.eval_type, r.eval_type)),
    }
}

/// An operator on nil and nil: they are equal, and nothing else is defined.
pub open spec fn nil_result(l: EvaluateModel, r: EvaluateModel, operator: TokenType) -> Result<
    EvaluateModel,
    Seq<char>,
> {
    match operator {
        TokenType::EqualEqual => Ok(bool_model(true)),
        TokenType::BangEqual => Ok(
            EvaluateModel { eval_type: EvaluationType::Bool, is_empty: true, value: bool_text(false) },
        ),
        _ => Err(unsupported_text(operator, l.eval_type, r.eval_type)),
    }
}

/// Whether a value counts as true, for every value but a number that is
/// not empty: whether such a number is zero is for the host to say.
pub open spec fn truthiness(v: EvaluateModel) -> Option<bool> {
    if v.is_empty {
        Some(false)
    } else {
        match v.eval_type {
            EvaluationType::Bool => Some(truth(v.value)),
            EvaluationType::Number => None,
            EvaluationType::String => Some(v.value.len() != 0),
            EvaluationType::Nil => Some(false),
        }
    }
}

/// What applying an operator to evaluated operands comes to.
#[derive(Debug)]
pub enum Outcome {
    /// The value of the expression.
    Value(EvaluateValue),
    /// The expression has no value, for the reason given.
    Error(String),
    /// The expression has no value, and nothing is to be said about it.
    Nothing,
    /// The operands are numbers: the host computes the value.
    Numbers,
}

pub enum OutcomeModel {
    Value(EvaluateModel),
    Error(Seq<char>),
    Nothing,
    Numbers,
}

impl View for Outcome {
    type V = OutcomeModel;

    open spec fn view(&self) -> OutcomeModel {
        match self {
            Outcome::Value(v) => OutcomeModel::Value(v@),
            Outcome::Error(e) => OutcomeModel::Error(e@),
            Outcome::Nothing => OutcomeModel::Nothing,
            Outcome::Numbers => OutcomeModel::Numbers,
        }
    }
}

/// The outcome that a result stands for.
pub open spec fn outcome_of(r: Result<EvaluateModel, Seq<char>>) -> OutcomeModel {
    match r {
        Ok(v) => OutcomeModel::Value(v),
        Err(e) => OutcomeModel::Error(e),
    }
}

/// A binary operator applied to the values of its operands. Operands of
/// different types are a type error; operands of one type are combined as
/// that type has it, numbers by the host.
pub open spec fn combined(l: EvaluateModel, r: EvaluateModel, operator: TokenType) -> OutcomeModel {
    if l.eval_type != r.eval_type {
        OutcomeModel::Error(unsupported_text(operator, l.eval_type, r.eval_type))
    } else {
        match l.eval_type {
            EvaluationType::String => outcome_of(string_result(l, r, operator)),
            EvaluationType::Number => OutcomeModel::Numbers,
            EvaluationType::Nil => outcome_of(nil_result(l, r, operator)),
            EvaluationType::Bool => outcome_of(bool_result(l, r, operator)),
        }
    }
}

/// A unary operator applied to the value of its operand. `!` gives the
/// opposite of what the operand counts as; `-` is for numbers, and gives
/// nothing for anything else; no other operator is unary.
pub open spec fn applied_unary(operator: TokenType, right: EvaluateModel) -> OutcomeModel {
    match operator {
        TokenType::Bang => match truthiness(right) {
            Some(b) => OutcomeModel::Value(bool_model(!b)),
            None => OutcomeModel::Numbers,
        },
        TokenType::Minus => if right.eval_type == EvaluationType::Number {
            OutcomeModel::Numbers
        } else {
            OutcomeModel::Nothing
        },
        _ => OutcomeModel::Error("invalid operation for unary: "@ + operator.text()),
    }
}

/// Whether the result of a function is the one that `model` describes.
pub open spec fn agrees(out: Result<EvaluateValue, String>, model: Result<EvaluateModel, Seq<char>>) -> bool {
    match model {
        Ok(v) => out is Ok && out->Ok_0@ == v,
        Err(e) => out is Err && out->Err_0@ == e,
    }
}

fn text_of(s: &str) -> (out: String)
    ensures
        out@ == s@,
{
    let mut out = String::new();
    out.append(s);
    assert(out@ =~= s@);
    out
}

fn bool_value(b: bool) -> (out: EvaluateValue)
    ensures
        out@ == bool_model(b),
{
    EvaluateValue::new(
        EvaluationType::Bool,
        false,
        if b {
            text_of("true")
        } else {
            text_of("false")
        },
    )
}

fn integer_value(negative: bool, magnitude: usize) -> (out: EvaluateValue)
    ensures
        out@ == integer_model(
            if negative && magnitude > 0 {
                -(magnitude as int)
            } else {
                magnitude as int
            },
        ),
{
    let mut text = String::new();
    if negative && magnitude > 0 {
        text.append("-");
    }
    let digits = decimal_text(magnitude);
    push_str_of(&mut text, &digits);
    assert(text@ =~= integer_text(
        if negative && magnitude > 0 {
            -(magnitude as int)
        } else {
            magnitude as int
        },
    ));
    EvaluateValue::new(EvaluationType::Number, false, text)
}

fn unsupported(operator: &TokenType, l: &EvaluateValue, r: &EvaluateValue) -> (out: String)
    ensures
        out@ == unsupported_text(*operator, l@.eval_type, r@.eval_type),
{
    let mut out = String::new();
    out.append("TypeError: unsupported operand type(s) for ");
    out.append(operator.as_string());
    out.append(": ");
    out.append(l.eval_type.name());
    out.append(" and ");
    out.append(r.eval_type.name());
    assert(out@ =~= unsupported_text(*operator, l@.eval_type, r@.eval_type));
    out
}

/// Whether `s` is the text `true`.
fn is_true(s: &String) -> (out: bool)
    ensures
        out == truth(s@),
{
    let t = text_of("true");
    *s == t
}

impl Literal {
    /// The value of the literal, or why it has none.
    pub fn evaluate(&self) -> (out: Result<EvaluateValue, String>)
        ensures
            agrees(out, literal_value(self.token@.kind, self.token@.lexeme)),
    {
        let kind = *self.token.get_type();
        let lexeme = self.token.get_lexeme();
        let empty = lexeme.as_str().unicode_len() == 0;
        match kind {
            TokenType::Number => Ok(EvaluateValue::new(EvaluationType::Number, empty, lexeme)),
            TokenType::String => Ok(EvaluateValue::new(EvaluationType::String, empty, lexeme)),
            TokenType::True | TokenType::False => Ok(
                EvaluateValue::new(EvaluationType::Bool, empty, lexeme),
            ),
            TokenType::Nil => Ok(EvaluateValue::new(EvaluationType::Nil, true, lexeme)),
            _ => {
                let mut why = String::new();
                why.append("invalid literal: ");
                why.append(kind.as_string());
                assert(why@ =~= "invalid literal: "@ + kind.text());
                Err(why)
            },
        }
    }
}

impl Binary {
    pub fn new(left: Box<Expression>, token: Token, right: Box<Expression>) -> (out: Self)
        ensures
            out.left == left,
            out.operator == token,
            out.right == right,
    {
        Binary { left, operator: token, right }
    }

    /// `l operator r` for two strings.
    pub fn eval_string(l: &EvaluateValue, r: &EvaluateValue, operator: &TokenType) -> (out: Result<
        EvaluateValue,
        String,
    >)
        ensures
            agrees(out, string_result(l@, r@, *operator)),
    {
        match *operator {
            TokenType::Plus => {
                let mut new_s = l.value.clone();
                push_str_of(&mut new_s, &r.value);
                let empty = new_s.as_str().unicode_len() == 0;
                Ok(EvaluateValue::new(EvaluationType::String, empty, new_s))
            },
            TokenType::EqualEqual => Ok(bool_value(l.value == r.value)),
            TokenType::BangEqual => Ok(bool_value(!(l.value == r.value))),
            _ => Err(unsupported(operator, l, r)),
        }
    }

    /// `l operator r` for two truth values, each written `true` or `false`.
    pub fn eval_bool(l: &EvaluateValue, r: &EvaluateValue, operator: &TokenType) -> (out: Result<
        EvaluateValue,
        String,
    >)
        requires
            is_truth_text(l@.value),
            is_truth_text(r@.value),
        ensures
            agrees(out, bool_result(l@, r@, *operator)),
    {
        // true counts as 1, false as 0
        let l_bool = is_true(&l.value);
        let r_bool = is_true(&r.value);
        let a: usize = if l_bool {
            1
        } else {
            0
        };
        let b: usize = if r_bool {
            1
        } else {
            0
        };
        match *operator {
            TokenType::Plus => Ok(integer_value(false, a + b)),
            TokenType::Minus => {
                if a >= b {
                    Ok(integer_value(false, a - b))
                } else {
                    Ok(integer_value(true, b - a))
                }
            },
            TokenType::Star => {
                assert(bit(l_bool) * bit(r_bool) == if l_bool && r_bool {
                    1int
                } else {
                    0int
                });
                Ok(
                    integer_value(
                        false,
                        if l_bool && r_bool {
                            1
                        } else {
                            0
                        },
                    ),
                )
            },
            TokenType::Slash => {
                if !r_bool {
                    Err(text_of("ValueError: Division by zero is not allowed"))
                } else {
                    Ok(integer_value(false, a))
                }
            },
            TokenType::EqualEqual => Ok(bool_value(l_bool == r_bool)),
            TokenType::BangEqual => Ok(bool_value(l_bool != r_bool)),
            TokenType::Less => Ok(bool_value(a < b)),
            TokenType::LessEqual => Ok(bool_value(a <= b)),
            TokenType::Greater => Ok(bool_value(a > b)),
            TokenType::GreaterEqual => Ok(bool_value(a >= b)),
            _ => Err(unsupported(operator, l, r)),
        }
    }

    /// `l operator r` for nil and nil.
    pub fn eval_nil(l: &EvaluateValue, r: &EvaluateValue, operator: &TokenType) -> (out: Result<
        EvaluateValue,
        String,
    >)
        ensures
            agrees(out, nil_result(l@, r@, *operator)),
    {
        match *operator {
            TokenType::EqualEqual => Ok(bool_value(true)),
            TokenType::BangEqual => Ok(
                EvaluateValue::new(EvaluationType::Bool, true, text_of("false")),
            ),
            _ => Err(unsupported(operator, l, r)),
        }
    }
}

fn outcome(r: Result<EvaluateValue, String>) -> (out: Outcome)
    ensures
        forall|m: Result<EvaluateModel, Seq<char>>| agrees(r, m) ==> out@ == outcome_of(m),
{
    match r {
        Ok(v) => Outcome::Value(v),
        Err(e) => Outcome::Error(e),
    }
}

impl Binary {
    /// `l operator r`, for whatever `l` and `r` are; two truth values must
    /// each be written `true` or `false`.
    pub fn combine(l: &EvaluateValue, r: &EvaluateValue, operator: &TokenType) -> (out: Outcome)
        requires
            l@.eval_type == EvaluationType::Bool && r@.eval_type == EvaluationType::Bool
                ==> is_truth_text(l@.value) && is_truth_text(r@.value),
        ensures
            out@ == combined(l@, r@, *operator),
    {
        if l.eval_type != r.eval_type {
            return Outcome::Error(unsupported(operator, l, r));
        }
        match l.eval_type {
            EvaluationType::String => outcome(Binary::eval_string(l, r, operator)),
            EvaluationType::Number => Outcome::Numbers,
            EvaluationType::Nil => outcome(Binary::eval_nil(l, r, operator)),
            EvaluationType::Bool => outcome(Binary::eval_bool(l, r, operator)),
        }
    }
}

impl Unary {
    /// `operator right`, for whatever `right` is; for `!`, a truth value
    /// that is not empty must be written `true` or `false`.
    pub fn apply(operator: &TokenType, right: &EvaluateValue) -> (out: Outcome)
        requires
            *operator == TokenType::Bang ==> is_judgeable(right@),
        ensures
            out@ == applied_unary(*operator, right@),
    {
        match *operator {
            TokenType::Bang => match is_truthy(right) {
                Some(b) => Outcome::Value(bool_value(!b)),
                None => Outcome::Numbers,
            },
            TokenType::Minus => {
                if right.eval_type == EvaluationType::Number {
                    Outcome::Numbers
                } else {
                    Outcome::Nothing
                }
            },
            _ => {
                let mut why = String::new();
                why.append("invalid operation for unary: ");
                why.append(operator.as_string());
                assert(why@ =~= "invalid operation for unary: "@ + operator.text());
                Outcome::Error(why)
            },
        }
    }
}

/// Whether `s` is the text of a truth value, `true` or `false`.
pub fn is_bool_text(s: &str) -> (out: bool)
    ensures
        out == is_truth_text(s@),
{
    let chars = chars_of(s);
    assert(chars@.subrange(0, chars@.len() as int) == chars@);
    same_text(&chars, 0, chars.len(), "true") || same_text(&chars, 0, chars.len(), "false")
}

/// Whether `eval` counts as true; `None` for a number that is not empty. A
/// truth value that is not empty must be written `true` or `false`.
pub fn is_truthy(eval: &EvaluateValue) -> (out: Option<bool>)
    requires
        is_judgeable(eval@),
    ensures
        out == truthiness(eval@),
{
    if eval.is_empty {
        Some(false)
    } else {
        match eval.eval_type {
            EvaluationType::Bool => Some(is_true(&eval.value)),
            EvaluationType::Number => None,
            EvaluationType::String => Some(eval.value.as_str().unicode_len() != 0),
            EvaluationType::Nil => Some(false),
        }
    }
}

} // verus!
