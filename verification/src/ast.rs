//! Abstract syntax tree node types and the `Program` root.
//!
//! Every node exclusively owns its children: the tree is strict, with no
//! sharing and no cycles. A `Program` carries, side by side, the statements
//! that parsed and one structured error for each statement that did not; a
//! parse attempt contributes to exactly one of the two lists.

use vstd::prelude::*;
use vstd::string::StringExecFns;
use crate::token::{Token, TokenKind, spec_kind_text, spec_token_text};

verus! {

/// Root node: the statements that parsed, in source order, and the errors
/// collected from the statements that did not, in source order.
#[derive(Debug, PartialEq, Eq)]
pub struct Program {
    pub statments: Vec<Statement>,
    pub errors: Vec<ParseError>,
}

impl Program {
    /// An empty program: no statements and no errors.
    pub fn new() -> (p: Program)
        ensures
            p.statments@ == Seq::<Statement>::empty(),
            p.errors@ == Seq::<ParseError>::empty(),
    {
        Program { statments: Vec::new(), errors: Vec::new() }
    }
}

/// A structured parse failure. Each variant carries the offending token and,
/// where a specific kind was required, the expected alternative, so a caller
/// can render a precise diagnostic at the boundary.
#[derive(Debug, PartialEq, Eq)]
pub enum ParseError {
    /// A parse step required a token of kind `expected` but saw `got`
    /// (`None`: the stream was exhausted).
    UnexpectedToken { expected: TokenKind, got: Option<Token> },
    /// The token cannot begin an expression: no prefix rule exists for it.
    NoPrefixRule { token: Token },
    /// An expression was required but the stream was exhausted.
    UnexpectedEnd,
}

/// The human-readable message of a parse failure, naming the offending token
/// and, where one was required, the expected alternative.
pub open spec fn spec_error_message(e: ParseError) -> Seq<char> {
    match e {
        ParseError::UnexpectedToken { expected, got } => "expected "@ + spec_kind_text(expected)
            + ", got "@ + match got {
            Some(t) => spec_token_text(t),
            None => "end of input"@,
        },
        ParseError::NoPrefixRule { token } => "no prefix parse rule for token "@ + spec_token_text(
            token,
        ),
        ParseError::UnexpectedEnd => "cannot parse expression: end of input"@,
    }
}

impl ParseError {
    /// Renders the failure as text, exactly as [`spec_error_message`]
    /// states.
    pub fn message(&self) -> (s: String)
        ensures
            s@ == spec_error_message(*self),
    {
        match self {
            ParseError::UnexpectedToken { expected, got } => {
                let mut s = String::from_str("expected ");
                s.append(expected.text());
                s.append(", got ");
                match got {
                    Some(t) => {
                        let t_text = t.text();
                        s.append(t_text.as_str());
                    },
                    None => {
                        s.append("end of input");
                    },
                }
                s
            },
            ParseError::NoPrefixRule { token } => {
                let mut s = String::from_str("no prefix parse rule for token ");
                let t_text = token.text();
                s.append(t_text.as_str());
                s
            },
            ParseError::UnexpectedEnd => String::from_str("cannot parse expression: end of input"),
        }
    }
}

#[derive(Debug, PartialEq, Eq)]
pub enum Statement {
    Let(LetStatement),
    Return(ReturnStatement),
    Expression(ExpressionStatement),
    Block(BlockStatement),
}

#[derive(Debug, PartialEq, Eq)]
pub enum Expression {
    Callable(CallableExpression),
    IntegerLiteral(IntegerLiteral),
    BooleanLiteral(BooleanLiteral),
    Prefix(PrefixExpression),
    Infix(InfixExpression),
    If(IfExpression),
    Call(CallExpression),
}

/// What may stand in call position: a name or an inline function literal.
#[derive(Debug, PartialEq, Eq)]
pub enum CallableExpression {
    Identifier(Identifier),
    FunctionLiteral(FunctionLiteral),
}

#[derive(Debug, PartialEq, Eq)]
pub struct CallExpression {
    pub func: CallableExpression,
    pub arguments: Vec<Expression>,
}

/// Binds a name to the value of an expression.
#[derive(Debug, PartialEq, Eq)]
pub struct LetStatement {
    pub name: Identifier,
    pub value: Expression,
}

#[derive(Debug, PartialEq, Eq)]
pub struct ReturnStatement {
    pub value: Expression,
}

#[derive(Debug, PartialEq, Eq)]
pub struct ExpressionStatement {
    pub expression: Expression,
}

#[derive(Debug, PartialEq, Eq)]
pub struct BlockStatement {
    pub statements: Vec<Statement>,
}

#[derive(Debug, PartialEq, Eq)]
pub struct Identifier {
    pub value: String,
}

#[derive(Debug, PartialEq, Eq)]
pub struct IntegerLiteral {
    pub value: i32,
}

#[derive(Debug, PartialEq, Eq)]
pub struct BooleanLiteral {
    pub value: bool,
}

#[derive(Debug, PartialEq, Eq)]
pub struct FunctionLiteral {
    pub body: BlockStatement,
    pub parameters: Vec<Identifier>,
}

/// One operand; the operator is restricted by construction to the
/// unary-capable tags `Bang` and `Minus`.
#[derive(Debug, PartialEq, Eq)]
pub struct PrefixExpression {
    pub right: Box<Expression>,
    pub operator: Operator,
}

#[derive(Debug, PartialEq, Eq)]
pub struct InfixExpression {
    pub left: Box<Expression>,
    pub right: Box<Expression>,
    pub operator: Operator,
}

#[derive(Debug, PartialEq, Eq)]
pub struct IfExpression {
    pub condition: Box<Expression>,
    pub consequence: BlockStatement,
    pub alternative: Option<BlockStatement>,
}

/// The closed set of operator tags. A value is only ever produced by
/// [`Operator::from_token`], so every `Operator` traces back to a source
/// token.
#[derive(Debug, PartialEq, Eq, Clone, Copy)]
pub enum Operator {
    Minus,
    Plus,
    Bang,
    Asterisk,
    Slash,
    Eq,
    NotEq,
    Lt,
    Gt,
    Lparen,
}

/// The operator tag a token denotes, or `None` for a token that denotes no
/// operator.
pub open spec fn spec_operator_of(t: Token) -> Option<Operator> {
    match t {
        Token::Plus => Some(Operator::Plus),
        Token::Minus => Some(Operator::Minus),
        Token::Bang => Some(Operator::Bang),
        Token::Asterisk => Some(Operator::Asterisk),
        Token::Slash => Some(Operator::Slash),
        Token::Lt => Some(Operator::Lt),
        Token::Gt => Some(Operator::Gt),
        Token::Eq => Some(Operator::Eq),
        Token::NotEq => Some(Operator::NotEq),
        Token::Lparen => Some(Operator::Lparen),
        _ => None,
    }
}

impl Operator {
    /// Converts a token into its operator tag; fails on a token with no
    /// corresponding tag.
    pub fn from_token(t: &Token) -> (r: Option<Operator>)
        ensures
            r == spec_operator_of(*t),
    {
        match t {
            Token::Plus => Some(Operator::Plus),
            Token::Minus => Some(Operator::Minus),
            Token::Bang => Some(Operator::Bang),
            Token::Asterisk => Some(Operator::Asterisk),
            Token::Slash => Some(Operator::Slash),
            Token::Lt => Some(Operator::Lt),
            Token::Gt => Some(Operator::Gt),
            Token::Eq => Some(Operator::Eq),
            Token::NotEq => Some(Operator::NotEq),
            Token::Lparen => Some(Operator::Lparen),
            _ => None,
        }
    }
}

} // verus!
