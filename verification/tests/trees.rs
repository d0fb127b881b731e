use lolang::ast::environment::Environment;
use lolang::ast::interpreter::Interpreter;
use lolang::ast::statements::{ExpressionStat, PrintStat, Statement, VariableStat};
use lolang::ast::{
    is_bool_text, is_truthy, Binary, EvaluateValue, EvaluationType, Expression, ExpressionType, Grouping,
    Literal, Outcome, Unary, UnknownExpression,
};
use lolang::ast_visitors::format_ast;
use lolang::tokens::{Token, TokenType};

fn token(kind: TokenType, lexeme: &str) -> Token {
    Token::new(kind, lexeme.to_string(), 1)
}

fn literal(kind: TokenType, lexeme: &str) -> Box<Expression> {
    Box::new(Expression::Literal(Literal::new(token(kind, lexeme))))
}

fn value(eval_type: EvaluationType, text: &str) -> EvaluateValue {
    EvaluateValue::new(eval_type, text.is_empty(), text.to_string())
}

fn seen(v: &EvaluateValue) -> (EvaluationType, bool, String) {
    (v.eval_type, v.is_empty, v.value.clone())
}

#[test]
fn expressions_know_their_shape() {
    let one = literal(TokenType::Number, "1");
    assert_eq!(one.expr_type(), ExpressionType::Literal);
    let group = Expression::Grouping(Grouping::new(literal(TokenType::Number, "1")));
    assert_eq!(group.expr_type(), ExpressionType::Grouping);
    let unary = Expression::Unary(Unary::new(token(TokenType::Bang, "!"), literal(TokenType::True, "true")));
    assert_eq!(unary.expr_type(), ExpressionType::Unary);
    let binary = Expression::Binary(Binary::new(
        literal(TokenType::Number, "1"),
        token(TokenType::EqualEqual, "=="),
        literal(TokenType::Number, "2"),
    ));
    assert_eq!(binary.expr_type(), ExpressionType::Binary);
    let unknown = Expression::UnknownExpression(UnknownExpression::new());
    assert_eq!(unknown.expr_type(), ExpressionType::UnknownExpression);

    assert_eq!(ExpressionType::Literal.name(), "Literal");
    assert_eq!(ExpressionType::Grouping.name(), "Grouping");
    assert_eq!(ExpressionType::Unary.name(), "Unary");
    assert_eq!(ExpressionType::Binary.name(), "Binary");
    assert_eq!(ExpressionType::UnknownExpression.name(), "Unknown Expression");
    assert_eq!(EvaluationType::Number.name(), "Number");
    assert_eq!(EvaluationType::String.name(), "String");
    assert_eq!(EvaluationType::Bool.name(), "Bool");
    assert_eq!(EvaluationType::Nil.name(), "Nil");
}

#[test]
fn expressions_are_written_with_the_operator_first() {
    let sum = Box::new(Expression::Binary(Binary::new(
        literal(TokenType::Number, "1"),
        token(TokenType::Plus, "+"),
        literal(TokenType::Number, "2"),
    )));
    assert_eq!(format_ast(&sum), "( + 1 2 )");
    let negated = Box::new(Expression::Unary(Unary::new(
        token(TokenType::Minus, "-"),
        Box::new(Expression::Grouping(Grouping::new(sum))),
    )));
    assert_eq!(format_ast(&negated), "( - ( grouping ( + 1 2 ) ) )");
    assert_eq!(lolang::ast::visitors::format_expr_ast(&negated), "( - ( grouping ( + 1 2 ) ) )");
    assert_eq!(lolang::ast::interpreter::format_expr_ast(&negated), "( - ( grouping ( + 1 2 ) ) )");
    assert_eq!(negated.to_text(), "( - ( grouping ( + 1 2 ) ) )");
    let product = Box::new(Expression::Binary(Binary::new(
        negated,
        token(TokenType::Star, "*"),
        Box::new(Expression::UnknownExpression(UnknownExpression::new())),
    )));
    assert_eq!(
        format_ast(&product),
        "( * ( - ( grouping ( + 1 2 ) ) ) ( found unknown expression ) )"
    );
    assert_eq!(format_ast(&literal(TokenType::String, "abcde")), "abcde");
}

#[test]
fn a_literal_keeps_its_token_and_its_text() {
    let l = Literal::new(token(TokenType::String, "abcde"));
    assert_eq!(l.value, "abcde");
    assert_eq!(l.token.get_lexeme(), "abcde");
    assert_eq!(*l.token.get_type(), TokenType::String);
}

#[test]
fn literals_evaluate_to_their_text_with_a_type() {
    let eval = |kind, lexeme: &str| Literal::new(token(kind, lexeme)).evaluate();
    assert_eq!(seen(&eval(TokenType::Number, "12").unwrap()), (EvaluationType::Number, false, "12".into()));
    assert_eq!(seen(&eval(TokenType::String, "ab").unwrap()), (EvaluationType::String, false, "ab".into()));
    assert_eq!(seen(&eval(TokenType::String, "").unwrap()), (EvaluationType::String, true, "".into()));
    assert_eq!(seen(&eval(TokenType::True, "true").unwrap()), (EvaluationType::Bool, false, "true".into()));
    assert_eq!(seen(&eval(TokenType::False, "false").unwrap()), (EvaluationType::Bool, false, "false".into()));
    assert_eq!(seen(&eval(TokenType::Nil, "nil").unwrap()), (EvaluationType::Nil, true, "nil".into()));
    assert_eq!(eval(TokenType::Plus, "+").unwrap_err(), "invalid literal: +");
    assert_eq!(eval(TokenType::Identifier, "x").unwrap_err(), "invalid literal: <Identifier>");
}

#[test]
fn operators_on_strings() {
    let (a, b) = (value(EvaluationType::String, "foo"), value(EvaluationType::String, "bar"));
    let joined = Binary::eval_string(&a, &b, &TokenType::Plus).unwrap();
    assert_eq!(seen(&joined), (EvaluationType::String, false, "foobar".into()));
    let empty = value(EvaluationType::String, "");
    let nothing = Binary::eval_string(&empty, &empty, &TokenType::Plus).unwrap();
    assert_eq!(seen(&nothing), (EvaluationType::String, true, "".into()));
    let eq = |l: &EvaluateValue, r: &EvaluateValue, op| Binary::eval_string(l, r, &op).unwrap().value;
    assert_eq!(eq(&a, &a, TokenType::EqualEqual), "true");
    assert_eq!(eq(&a, &b, TokenType::EqualEqual), "false");
    assert_eq!(eq(&a, &a, TokenType::BangEqual), "false");
    assert_eq!(eq(&a, &b, TokenType::BangEqual), "true");
    assert_eq!(
        Binary::eval_string(&a, &b, &TokenType::Minus).unwrap_err(),
        "TypeError: unsupported operand type(s) for -: String and String"
    );
    assert_eq!(
        Binary::eval_string(&a, &b, &TokenType::Less).unwrap_err(),
        "TypeError: unsupported operand type(s) for <: String and String"
    );
}

#[test]
fn operators_on_truth_values_count_true_as_one() {
    let t = value(EvaluationType::Bool, "true");
    let f = value(EvaluationType::Bool, "false");
    let table = [
        (TokenType::Plus, ["2", "1", "1", "0"], EvaluationType::Number),
        (TokenType::Minus, ["0", "1", "-1", "0"], EvaluationType::Number),
        (TokenType::Star, ["1", "0", "0", "0"], EvaluationType::Number),
        (TokenType::EqualEqual, ["true", "false", "false", "true"], EvaluationType::Bool),
        (TokenType::BangEqual, ["false", "true", "true", "false"], EvaluationType::Bool),
        (TokenType::Less, ["false", "false", "true", "false"], EvaluationType::Bool),
        (TokenType::LessEqual, ["true", "false", "true", "true"], EvaluationType::Bool),
        (TokenType::Greater, ["false", "true", "false", "false"], EvaluationType::Bool),
        (TokenType::GreaterEqual, ["true", "true", "false", "true"], EvaluationType::Bool),
    ];
    for (op, expected, eval_type) in table {
        let pairs = [(&t, &t), (&t, &f), (&f, &t), (&f, &f)];
        for ((l, r), want) in pairs.into_iter().zip(expected) {
            let got = Binary::eval_bool(l, r, &op).unwrap();
            assert_eq!(seen(&got), (eval_type, false, want.to_string()), "{:?}", op);
        }
    }
    assert_eq!(Binary::eval_bool(&t, &t, &TokenType::Slash).unwrap().value, "1");
    assert_eq!(Binary::eval_bool(&f, &t, &TokenType::Slash).unwrap().value, "0");
    assert_eq!(
        Binary::eval_bool(&t, &f, &TokenType::Slash).unwrap_err(),
        "ValueError: Division by zero is not allowed"
    );
    assert_eq!(
        Binary::eval_bool(&f, &f, &TokenType::Slash).unwrap_err(),
        "ValueError: Division by zero is not allowed"
    );
    assert_eq!(
        Binary::eval_bool(&t, &f, &TokenType::Comma).unwrap_err(),
        "TypeError: unsupported operand type(s) for ,: Bool and Bool"
    );
}

#[test]
fn operators_on_nil() {
    let nil = EvaluateValue::new(EvaluationType::Nil, true, "nil".to_string());
    let same = Binary::eval_nil(&nil, &nil, &TokenType::EqualEqual).unwrap();
    assert_eq!(seen(&same), (EvaluationType::Bool, false, "true".into()));
    let other = Binary::eval_nil(&nil, &nil, &TokenType::BangEqual).unwrap();
    assert_eq!(seen(&other), (EvaluationType::Bool, true, "false".into()));
    assert_eq!(
        Binary::eval_nil(&nil, &nil, &TokenType::Plus).unwrap_err(),
        "TypeError: unsupported operand type(s) for +: Nil and Nil"
    );
}

#[test]
fn what_counts_as_true() {
    assert_eq!(is_truthy(&value(EvaluationType::Bool, "true")), Some(true));
    assert_eq!(is_truthy(&value(EvaluationType::Bool, "false")), Some(false));
    assert_eq!(is_truthy(&value(EvaluationType::String, "a")), Some(true));
    assert_eq!(is_truthy(&value(EvaluationType::String, "")), Some(false));
    assert_eq!(is_truthy(&EvaluateValue::new(EvaluationType::Nil, true, "nil".into())), Some(false));
    assert_eq!(is_truthy(&EvaluateValue::new(EvaluationType::Nil, false, "nil".into())), Some(false));
    assert_eq!(is_truthy(&EvaluateValue::new(EvaluationType::Bool, true, "true".into())), Some(false));
    // whether a number is zero is not decided here
    assert_eq!(is_truthy(&value(EvaluationType::Number, "0")), None);
    assert_eq!(is_truthy(&value(EvaluationType::Number, "1")), None);
    assert_eq!(is_truthy(&EvaluateValue::new(EvaluationType::Number, true, "".into())), Some(false));
}

#[test]
fn an_environment_maps_names_to_values() {
    let mut env = Environment::new();
    assert!(env.get("x".to_string()).is_none());
    env.define("x".to_string(), value(EvaluationType::Number, "1"));
    assert_eq!(seen(env.get("x".to_string()).unwrap()), (EvaluationType::Number, false, "1".into()));
    env.define("x".to_string(), value(EvaluationType::String, "two"));
    assert_eq!(seen(env.get("x".to_string()).unwrap()), (EvaluationType::String, false, "two".into()));
    assert!(env.get("y".to_string()).is_none());
    let fresh = Interpreter::new();
    assert!(fresh.env.get("x".to_string()).is_none());
    assert!(Interpreter::default().env.get("x".to_string()).is_none());
}

#[test]
fn statements_are_written_out() {
    let print = Statement::Print(PrintStat::new(literal(TokenType::Number, "1")));
    assert_eq!(print.to_text(), "1");
    let stat = Statement::Expression(ExpressionStat::new(Box::new(Expression::Unary(Unary::new(
        token(TokenType::Bang, "!"),
        literal(TokenType::True, "true"),
    )))));
    assert_eq!(stat.to_text(), "( ! true )");
    let var = Statement::Variable(VariableStat::new(
        token(TokenType::Identifier, "x"),
        Some(literal(TokenType::Number, "1")),
    ));
    assert_eq!(var.to_text(), "var x");
    let bare = VariableStat::new(token(TokenType::Identifier, "y"), None);
    assert!(bare.initializer.is_none());
    assert_eq!(bare.name.get_lexeme(), "y");
}

fn told(outcome: Outcome) -> String {
    match outcome {
        Outcome::Value(v) => format!("{:?} {}", v.eval_type, v.value),
        Outcome::Error(msg) => format!("error: {}", msg),
        Outcome::Nothing => String::from("nothing"),
        Outcome::Numbers => String::from("numbers"),
    }
}

#[test]
fn binary_operators_combine_operands_of_one_type() {
    let text = |s: &str| value(EvaluationType::String, s);
    let truth = |s: &str| value(EvaluationType::Bool, s);
    let number = |s: &str| value(EvaluationType::Number, s);
    let nil = EvaluateValue::new(EvaluationType::Nil, true, "nil".into());
    assert_eq!(told(Binary::combine(&text("a"), &text("b"), &TokenType::Plus)), "String ab");
    assert_eq!(told(Binary::combine(&truth("true"), &truth("true"), &TokenType::Plus)), "Number 2");
    assert_eq!(told(Binary::combine(&nil, &nil, &TokenType::EqualEqual)), "Bool true");
    assert_eq!(told(Binary::combine(&number("1"), &number("2"), &TokenType::Plus)), "numbers");
    assert_eq!(told(Binary::combine(&number("1"), &number("2"), &TokenType::Comma)), "numbers");
    assert_eq!(
        told(Binary::combine(&number("1"), &text("2"), &TokenType::Plus)),
        "error: TypeError: unsupported operand type(s) for +: Number and String"
    );
    assert_eq!(
        told(Binary::combine(&nil, &truth("false"), &TokenType::EqualEqual)),
        "error: TypeError: unsupported operand type(s) for ==: Nil and Bool"
    );
    assert_eq!(
        told(Binary::combine(&truth("true"), &truth("false"), &TokenType::Slash)),
        "error: ValueError: Division by zero is not allowed"
    );
}

#[test]
fn unary_operators_apply_to_an_operand() {
    let nil = EvaluateValue::new(EvaluationType::Nil, true, "nil".into());
    assert_eq!(told(Unary::apply(&TokenType::Bang, &value(EvaluationType::Bool, "true"))), "Bool false");
    assert_eq!(told(Unary::apply(&TokenType::Bang, &value(EvaluationType::Bool, "false"))), "Bool true");
    assert_eq!(told(Unary::apply(&TokenType::Bang, &nil)), "Bool true");
    assert_eq!(told(Unary::apply(&TokenType::Bang, &value(EvaluationType::String, ""))), "Bool true");
    assert_eq!(told(Unary::apply(&TokenType::Bang, &value(EvaluationType::String, "a"))), "Bool false");
    assert_eq!(told(Unary::apply(&TokenType::Bang, &value(EvaluationType::Number, "0"))), "numbers");
    assert_eq!(told(Unary::apply(&TokenType::Minus, &value(EvaluationType::Number, "1"))), "numbers");
    assert_eq!(told(Unary::apply(&TokenType::Minus, &value(EvaluationType::String, "a"))), "nothing");
    assert_eq!(told(Unary::apply(&TokenType::Minus, &nil)), "nothing");
    assert_eq!(
        told(Unary::apply(&TokenType::Plus, &value(EvaluationType::Number, "1"))),
        "error: invalid operation for unary: +"
    );
}

#[test]
fn truth_values_are_written_true_or_false() {
    assert!(is_bool_text("true"));
    assert!(is_bool_text("false"));
    for other in ["", "True", "FALSE", "1", "0", "tru", "truee", "nil", " true", "false "] {
        assert!(!is_bool_text(other), "{:?}", other);
    }
}
