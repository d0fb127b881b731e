//! The parse rules: for each kind of token, how it starts an expression, how
//! it continues one, and how tightly it binds when it does.
use crate::tokens::TokenType;
use vstd::prelude::*;

verus! {

/// Binding strength, from loosest to tightest.
#[derive(Clone, Copy, Debug, PartialEq, Eq, Structural)]
pub enum Precedence {
    PrecNone,
    PrecAssignment,
    PrecOr,
    PrecAnd,
    PrecEquality,
    PrecComparison,
    PrecTerm,
    PrecFactor,
    PrecUnary,
    PrecCall,
    PrecPrimary,
}

impl Precedence {
    /// The rank of the level: 0 for `PrecNone` up to 10 for `PrecPrimary`.
    pub open spec fn level(self) -> nat {
        match self {
            Precedence::PrecNone => 0,
            Precedence::PrecAssignment => 1,
            Precedence::PrecOr => 2,
            Precedence::PrecAnd => 3,
            Precedence::PrecEquality => 4,
            Precedence::PrecComparison => 5,
            Precedence::PrecTerm => 6,
            Precedence::PrecFactor => 7,
            Precedence::PrecUnary => 8,
            Precedence::PrecCall => 9,
            Precedence::PrecPrimary => 10,
        }
    }

    /// The level of rank `value`.
    pub fn from_usize(value: usize) -> (out: Precedence)
        requires
            value <= 10,
        ensures
            out.level() == value,
    {
        if value == 0 {
            Precedence::PrecNone
        } else if value == 1 {
            Precedence::PrecAssignment
        } else if value == 2 {
            Precedence::PrecOr
        } else if value == 3 {
            Precedence::PrecAnd
        } else if value == 4 {
            Precedence::PrecEquality
        } else if value == 5 {
            Precedence::PrecComparison
        } else if value == 6 {
            Precedence::PrecTerm
        } else if value == 7 {
            Precedence::PrecFactor
        } else if value == 8 {
            Precedence::PrecUnary
        } else if value == 9 {
            Precedence::PrecCall
        } else {
            Precedence::PrecPrimary
        }
    }

    /// The rank of the level.
    pub fn to_usize(&self) -> (out: usize)
        ensures
            out == self.level(),
    {
        match self {
            Precedence::PrecNone => 0,
            Precedence::PrecAssignment => 1,
            Precedence::PrecOr => 2,
            Precedence::PrecAnd => 3,
            Precedence::PrecEquality => 4,
            Precedence::PrecComparison => 5,
            Precedence::PrecTerm => 6,
            Precedence::PrecFactor => 7,
            Precedence::PrecUnary => 8,
            Precedence::PrecCall => 9,
            Precedence::PrecPrimary => 10,
        }
    }
}

/// The handler that compiles a construct.
#[derive(Debug, Clone, Copy, PartialEq, Eq, Structural)]
pub enum ParseFn {
    String,
    Literal,
    Number,
    Unary,
    Binary,
    Grouping,
    Variable,
    Null,
}

/// The rule of one kind of token.
#[derive(Debug, Clone, Copy, PartialEq, Eq, Structural)]
pub struct ParseRule {
    pub prefix: ParseFn,
    pub infix: ParseFn,
    pub precedence: Precedence,
}

/// The handler used when a token of kind `kind` starts an expression;
/// `Null` if it cannot start one.
pub open spec fn prefix_of(kind: TokenType) -> ParseFn {
    match kind {
        TokenType::LeftParen => ParseFn::Grouping,
        TokenType::Minus | TokenType::Bang => ParseFn::Unary,
        TokenType::String => ParseFn::String,
        TokenType::Number => ParseFn::Number,
        TokenType::Identifier => ParseFn::Variable,
        TokenType::False | TokenType::Nil | TokenType::True => ParseFn::Literal,
        _ => ParseFn::Null,
    }
}

/// Whether `kind` is one of the ten binary operators.
pub open spec fn is_binary_operator(kind: TokenType) -> bool {
    match kind {
        TokenType::Minus
        | TokenType::Plus
        | TokenType::Slash
        | TokenType::Star
        | TokenType::BangEqual
        | TokenType::EqualEqual
        | TokenType::Greater
        | TokenType::GreaterEqual
        | TokenType::Less
        | TokenType::LessEqual => true,
        _ => false,
    }
}

/// The handler used when a token of kind `kind` continues an expression.
pub open spec fn infix_of(kind: TokenType) -> ParseFn {
    if is_binary_operator(kind) {
        ParseFn::Binary
    } else {
        ParseFn::Null
    }
}

/// How tightly a token of kind `kind` binds as an infix operator;
/// `PrecNone` if it is none.
pub open spec fn precedence_of(kind: TokenType) -> Precedence {
    match kind {
        TokenType::BangEqual | TokenType::EqualEqual => Precedence::PrecEquality,
        TokenType::Greater
        | TokenType::GreaterEqual
        | TokenType::Less
        | TokenType::LessEqual => Precedence::PrecComparison,
        TokenType::Minus | TokenType::Plus => Precedence::PrecTerm,
        TokenType::Slash | TokenType::Star => Precedence::PrecFactor,
        _ => Precedence::PrecNone,
    }
}

pub open spec fn rule_of(kind: TokenType) -> ParseRule {
    ParseRule { prefix: prefix_of(kind), infix: infix_of(kind), precedence: precedence_of(kind) }
}

impl ParseRule {
    pub fn get_rule(token_type: TokenType) -> (out: Self)
        ensures
            out == rule_of(token_type),
    {
        match token_type {
            TokenType::LeftParen => ParseRule {
                prefix: ParseFn::Grouping,
                infix: ParseFn::Null,
                precedence: Precedence::PrecNone,
            },
            TokenType::RightParen => ParseRule {
                prefix: ParseFn::Null,
                infix: ParseFn::Null,
                precedence: Precedence::PrecNone,
            },
            TokenType::LeftBrace => ParseRule {
                prefix: ParseFn::Null,
                infix: ParseFn::Null,
                precedence: Precedence::PrecNone,
            },
            TokenType::RightBrace => ParseRule {
                prefix: ParseFn::Null,
                infix: ParseFn::Null,
                precedence: Precedence::PrecNone,
            },
            TokenType::Comma => ParseRule {
                prefix: ParseFn::Null,
                infix: ParseFn::Null,
                precedence: Precedence::PrecNone,
            },
            TokenType::Dot => ParseRule {
                prefix: ParseFn::Null,
                infix: ParseFn::Null,
                precedence: Precedence::PrecNone,
            },
            TokenType::Minus => ParseRule {
                prefix: ParseFn::Unary,
                infix: ParseFn::Binary,
                precedence: Precedence::PrecTerm,
            },
            TokenType::Plus => ParseRule {
                prefix: ParseFn::Null,
                infix: ParseFn::Binary,
                precedence: Precedence::PrecTerm,
            },
            TokenType::Semicolon => ParseRule {
                prefix: ParseFn::Null,
                infix: ParseFn::Null,
                precedence: Precedence::PrecNone,
            },
            TokenType::Slash => ParseRule {
                prefix: ParseFn::Null,
                infix: ParseFn::Binary,
                precedence: Precedence::PrecFactor,
            },
            TokenType::Star => ParseRule {
                prefix: ParseFn::Null,
                infix: ParseFn::Binary,
                precedence: Precedence::PrecFactor,
            },
            TokenType::Colon => ParseRule {
                prefix: ParseFn::Null,
                infix: ParseFn::Null,
                precedence: Precedence::PrecNone,
            },
            TokenType::QuestionMark => ParseRule {
                prefix: ParseFn::Null,
                infix: ParseFn::Null,
                precedence: Precedence::PrecNone,
            },
            TokenType::Bang => ParseRule {
                prefix: ParseFn::Unary,
                infix: ParseFn::Null,
                precedence: Precedence::PrecNone,
            },
            TokenType::BangEqual => ParseRule {
                prefix: ParseFn::Null,
                infix: ParseFn::Binary,
                precedence: Precedence::PrecEquality,
            },
            TokenType::Equal => ParseRule {
                prefix: ParseFn::Null,
                infix: ParseFn::Null,
                precedence: Precedence::PrecNone,
            },
            TokenType::EqualEqual => ParseRule {
                prefix: ParseFn::Null,
                infix: ParseFn::Binary,
                precedence: Precedence::PrecEquality,
            },
            TokenType::Greater => ParseRule {
                prefix: ParseFn::Null,
                infix: ParseFn::Binary,
                precedence: Precedence::PrecComparison,
            },
            TokenType::GreaterEqual => ParseRule {
                prefix: ParseFn::Null,
                infix: ParseFn::Binary,
                precedence: Precedence::PrecComparison,
            },
            TokenType::Less => ParseRule {
                prefix: ParseFn::Null,
                infix: ParseFn::Binary,
                precedence: Precedence::PrecComparison,
            },
            TokenType::LessEqual => ParseRule {
                prefix: ParseFn::Null,
                infix: ParseFn::Binary,
                precedence: Precedence::PrecComparison,
            },
            TokenType::Identifier => ParseRule {
                prefix: ParseFn::Variable,
                infix: ParseFn::Null,
                precedence: Precedence::PrecNone,
            },
            TokenType::String => ParseRule {
                prefix: ParseFn::String,
                infix: ParseFn::Null,
                precedence: Precedence::PrecNone,
            },
            TokenType::Number => ParseRule {
                prefix: ParseFn::Number,
                infix: ParseFn::Null,
                precedence: Precedence::PrecNone,
            },
            TokenType::And => ParseRule {
                prefix: ParseFn::Null,
                infix: ParseFn::Null,
                precedence: Precedence::PrecNone,
            },
            TokenType::Class => ParseRule {
                prefix: ParseFn::Null,
                infix: ParseFn::Null,
                precedence: Precedence::PrecNone,
            },
            TokenType::Else => ParseRule {
                prefix: ParseFn::Null,
                infix: ParseFn::Null,
                precedence: Precedence::PrecNone,
            },
            TokenType::False => ParseRule {
                prefix: ParseFn::Literal,
                infix: ParseFn::Null,
                precedence: Precedence::PrecNone,
            },
            TokenType::Fun => ParseRule {
                prefix: ParseFn::Null,
                infix: ParseFn::Null,
                precedence: Precedence::PrecNone,
            },
            TokenType::For => ParseRule {
                prefix: ParseFn::Null,
                infix: ParseFn::Null,
                precedence: Precedence::PrecNone,
            },
            TokenType::If => ParseRule {
                prefix: ParseFn::Null,
                infix: ParseFn::Null,
                precedence: Precedence::PrecNone,
            },
            TokenType::Nil => ParseRule {
                prefix: ParseFn::Literal,
                infix: ParseFn::Null,
                precedence: Precedence::PrecNone,
            },
            TokenType::Or => ParseRule {
                prefix: ParseFn::Null,
                infix: ParseFn::Null,
                precedence: Precedence::PrecNone,
            },
            TokenType::Print => ParseRule {
                prefix: ParseFn::Null,
                infix: ParseFn::Null,
                precedence: Precedence::PrecNone,
            },
            TokenType::Return => ParseRule {
                prefix: ParseFn::Null,
                infix: ParseFn::Null,
                precedence: Precedence::PrecNone,
            },
            TokenType::Super => ParseRule {
                prefix: ParseFn::Null,
                infix: ParseFn::Null,
                precedence: Precedence::PrecNone,
            },
            TokenType::This => ParseRule {
                prefix: ParseFn::Null,
                infix: ParseFn::Null,
                precedence: Precedence::PrecNone,
            },
            TokenType::True => ParseRule {
                prefix: ParseFn::Literal,
                infix: ParseFn::Null,
                precedence: Precedence::PrecNone,
            },
            TokenType::Var => ParseRule {
                prefix: ParseFn::Null,
                infix: ParseFn::Null,
                precedence: Precedence::PrecNone,
            },
            TokenType::While => ParseRule {
                prefix: ParseFn::Null,
                infix: ParseFn::Null,
                precedence: Precedence::PrecNone,
            },
            TokenType::EOF => ParseRule {
                prefix: ParseFn::Null,
                infix: ParseFn::Null,
                precedence: Precedence::PrecNone,
            },
            TokenType::ParseError => ParseRule {
                prefix: ParseFn::Null,
                infix: ParseFn::Null,
                precedence: Precedence::PrecNone,
            },
        }
    }
}

/// A token continues an expression only if it is a binary operator, and a
/// binary operator binds strictly tighter than `PrecNone` and strictly
/// looser than `PrecUnary`, so that the level one above it exists.
pub proof fn lemma_infix_binds(kind: TokenType)
    ensures
        precedence_of(kind) != Precedence::PrecNone <==> is_binary_operator(kind),
        is_binary_operator(kind) ==> Precedence::PrecEquality.level() <= precedence_of(
            kind,
        ).level() < Precedence::PrecUnary.level(),
{
}

} // verus!
