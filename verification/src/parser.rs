//! The Pratt parser engine.
//!
//! The functional behaviour lives in a family of specification-level parsing
//! functions over `Seq<Token>`: a prefix rule, a precedence-climbing loop, the
//! three statement forms, and the statement-by-statement program loop. The
//! executable [`Parser`] mirrors that structure and every method is proved to
//! return exactly what the corresponding spec function returns, leaving the
//! token position exactly where the spec function says.

use vstd::prelude::*;
use crate::ast::{
    CallableExpression, Expression, ExpressionStatement, Identifier, InfixExpression,
    IntegerLiteral, LetStatement, Operator, ParseError, PrefixExpression, Program,
    ReturnStatement, Statement, spec_operator_of,
};
use crate::ast::BooleanLiteral;
use crate::token::{Token, TokenKind};

verus! {

/// Precedence levels, lowest to highest. Higher precedence binds more
/// tightly: an infix operator extends the running expression only while its
/// precedence strictly exceeds the caller's minimum.
pub const PREC_LOWEST: u8 = 0;

pub const PREC_EQUALS: u8 = 1;

pub const PREC_LESSGREATER: u8 = 2;

pub const PREC_SUM: u8 = 3;

pub const PREC_PRODUCT: u8 = 4;

pub const PREC_PREFIX: u8 = 5;

pub const PREC_CALL: u8 = 6;

/// The precedence level of an operator tag when seen in infix position.
/// `Bang` and `Lparen` never extend an expression, so they sit at the lowest
/// level, which the climbing loop never exceeds.
pub open spec fn spec_precedence(op: Operator) -> u8 {
    match op {
        Operator::Eq => PREC_EQUALS,
        Operator::NotEq => PREC_EQUALS,
        Operator::Lt => PREC_LESSGREATER,
        Operator::Gt => PREC_LESSGREATER,
        Operator::Plus => PREC_SUM,
        Operator::Minus => PREC_SUM,
        Operator::Asterisk => PREC_PRODUCT,
        Operator::Slash => PREC_PRODUCT,
        Operator::Bang => PREC_LOWEST,
        Operator::Lparen => PREC_LOWEST,
    }
}

/// Maps an operator tag to its infix precedence level.
pub fn precedence_of(op: Operator) -> (p: u8)
    ensures
        p == spec_precedence(op),
{
    match op {
        Operator::Eq => PREC_EQUALS,
        Operator::NotEq => PREC_EQUALS,
        Operator::Lt => PREC_LESSGREATER,
        Operator::Gt => PREC_LESSGREATER,
        Operator::Plus => PREC_SUM,
        Operator::Minus => PREC_SUM,
        Operator::Asterisk => PREC_PRODUCT,
        Operator::Slash => PREC_PRODUCT,
        Operator::Bang => PREC_LOWEST,
        Operator::Lparen => PREC_LOWEST,
    }
}

/// The token at `pos`, or `None` past the end of the stream; the shape the
/// lookahead window exposes and diagnostics record.
pub open spec fn token_at(toks: Seq<Token>, pos: int) -> Option<Token> {
    if 0 <= pos < toks.len() {
        Some(toks[pos])
    } else {
        None
    }
}

/// A parse step's outcome: the value built and the position of the last
/// token it consumed, or the failure and the position where parsing stopped.
pub open spec fn with_pos<T>(r: Result<T, ParseError>, pos: int) -> Result<(T, int), (
    ParseError,
    int,
)> {
    match r {
        Ok(v) => Ok((v, pos)),
        Err(e) => Err((e, pos)),
    }
}

/// `p` forced into the range `low..=high`. Parsing only ever moves forward
/// and never past the end of the stream, so at every use the clamp is the
/// identity; it exists so that the recursion measures visibly decrease and
/// stay non-negative.
pub open spec fn clamped(p: int, low: int, high: int) -> int {
    if p < low {
        low
    } else if p > high {
        high
    } else {
        p
    }
}

/// The prefix rule for the token at `pos`: identifiers, integer and boolean
/// literals stand for themselves; `!` and `-` consume the operator and parse
/// their operand at `PREC_PREFIX`; `(` parses an inner expression at
/// `PREC_LOWEST` and requires a matching `)`, returning the inner expression
/// unwrapped. Any other token has no prefix rule.
///
/// On success the returned position is that of the expression's last token.
pub open spec fn spec_prefix_parse(toks: Seq<Token>, pos: int) -> Result<(Expression, int), (
    ParseError,
    int,
)>
    recommends
        0 <= pos < toks.len(),
    decreases toks.len() - pos, 0int,
    when 0 <= pos < toks.len()
{
    match toks[pos] {
        Token::Ident(name) => Ok(
            (Expression::Callable(CallableExpression::Identifier(Identifier { value: name })), pos),
        ),
        Token::Int(value) => Ok((Expression::IntegerLiteral(IntegerLiteral { value }), pos)),
        Token::True => Ok((Expression::BooleanLiteral(BooleanLiteral { value: true }), pos)),
        Token::False => Ok((Expression::BooleanLiteral(BooleanLiteral { value: false }), pos)),
        Token::Bang => match spec_parse_expression(toks, pos + 1, PREC_PREFIX) {
            Ok((right, p)) => Ok(
                (
                    Expression::Prefix(
                        PrefixExpression { right: Box::new(right), operator: Operator::Bang },
                    ),
                    p,
                ),
            ),
            Err(e) => Err(e),
        },
        Token::Minus => match spec_parse_expression(toks, pos + 1, PREC_PREFIX) {
            Ok((right, p)) => Ok(
                (
                    Expression::Prefix(
                        PrefixExpression { right: Box::new(right), operator: Operator::Minus },
                    ),
                    p,
                ),
            ),
            Err(e) => Err(e),
        },
        Token::Lparen => match spec_parse_expression(toks, pos + 1, PREC_LOWEST) {
            Ok((inner, p)) => if p + 1 < toks.len() && toks[p + 1] is Rparen {
                Ok((inner, p + 1))
            } else {
                Err(
                    (
                        ParseError::UnexpectedToken {
                            expected: TokenKind::Rparen,
                            got: token_at(toks, p + 1),
                        },
                        p,
                    ),
                )
            },
            Err(e) => Err(e),
        },
        t => Err((ParseError::NoPrefixRule { token: t }, pos)),
    }
}

/// The precedence-climbing loop, with `left` the expression built so far and
/// `pos` the position of its last token. While the current token is not a
/// statement separator and the peek token denotes an operator whose
/// precedence strictly exceeds `min_prec`, the loop steps past the operator,
/// parses the right operand at the operator's own precedence, and folds both
/// sides into an infix node; equal-precedence operators therefore bind left.
///
/// The inner parse only ever moves forward; the bounds on its returned
/// position exist to make the measure decrease.
pub open spec fn spec_infix_loop(
    toks: Seq<Token>,
    pos: int,
    left: Expression,
    min_prec: u8,
) -> Result<(Expression, int), (ParseError, int)>
    decreases toks.len() - pos, 1int,
    when pos >= 0
{
    if pos >= toks.len() || toks[pos] is Semicolon || pos + 1 >= toks.len() {
        Ok((left, pos))
    } else {
        match spec_operator_of(toks[pos + 1]) {
            None => Ok((left, pos)),
            Some(op) => {
                if min_prec >= spec_precedence(op) {
                    Ok((left, pos))
                } else {
                    match spec_parse_expression(toks, pos + 2, spec_precedence(op)) {
                        Ok((right, p)) => {
                            let next = clamped(p, pos + 2, toks.len() as int);
                            spec_infix_loop(
                                toks,
                                next,
                                Expression::Infix(
                                    InfixExpression {
                                        left: Box::new(left),
                                        right: Box::new(right),
                                        operator: op,
                                    },
                                ),
                                min_prec,
                            )
                        },
                        Err(e) => Err(e),
                    }
                }
            },
        }
    }
}

/// One full expression starting at `pos` with minimum precedence `min_prec`:
/// the prefix rule builds the initial left-hand expression, then the climbing
/// loop extends it. Past the end of the stream no expression can start.
pub open spec fn spec_parse_expression(toks: Seq<Token>, pos: int, min_prec: u8) -> Result<
    (Expression, int),
    (ParseError, int),
>
    decreases toks.len() - pos, 2int,
{
    if pos < 0 || pos >= toks.len() {
        Err((ParseError::UnexpectedEnd, pos))
    } else {
        match spec_prefix_parse(toks, pos) {
            Ok((left, p)) => spec_infix_loop(
                toks,
                clamped(p, pos, toks.len() as int),
                left,
                min_prec,
            ),
            Err(e) => Err(e),
        }
    }
}

/// A `let` statement: the token after `let` must be an identifier, the one
/// after that the assignment marker; the bound value is a full expression at
/// the lowest precedence, and a statement separator must follow it. The
/// returned position is that of the separator.
pub open spec fn spec_parse_let_statement(toks: Seq<Token>, pos: int) -> Result<(Statement, int), (
    ParseError,
    int,
)>
    recommends
        0 <= pos < toks.len(),
        toks[pos] is Let,
{
    if !(pos + 1 < toks.len() && toks[pos + 1] is Ident) {
        Err(
            (
                ParseError::UnexpectedToken {
                    expected: TokenKind::Ident,
                    got: token_at(toks, pos + 1),
                },
                pos,
            ),
        )
    } else if !(pos + 2 < toks.len() && toks[pos + 2] is Assign) {
        Err(
            (
                ParseError::UnexpectedToken {
                    expected: TokenKind::Assign,
                    got: token_at(toks, pos + 2),
                },
                pos + 1,
            ),
        )
    } else {
        match spec_parse_expression(toks, pos + 3, PREC_LOWEST) {
            Ok((value, p)) => if p + 1 < toks.len() && toks[p + 1] is Semicolon {
                Ok(
                    (
                        Statement::Let(
                            LetStatement { name: Identifier { value: toks[pos + 1]->Ident_0 }, value },
                        ),
                        p + 1,
                    ),
                )
            } else {
                Err(
                    (
                        ParseError::UnexpectedToken {
                            expected: TokenKind::Semicolon,
                            got: token_at(toks, p + 1),
                        },
                        p,
                    ),
                )
            },
            Err(e) => Err(e),
        }
    }
}

/// A `return` statement: the returned value is a full expression at the
/// lowest precedence, and a statement separator must follow it. The returned
/// position is that of the separator.
pub open spec fn spec_parse_return_statement(toks: Seq<Token>, pos: int) -> Result<
    (Statement, int),
    (ParseError, int),
>
    recommends
        0 <= pos < toks.len(),
        toks[pos] is Return,
{
    match spec_parse_expression(toks, pos + 1, PREC_LOWEST) {
        Ok((value, p)) => if p + 1 < toks.len() && toks[p + 1] is Semicolon {
            Ok((Statement::Return(ReturnStatement { value }), p + 1))
        } else {
            Err(
                (
                    ParseError::UnexpectedToken {
                        expected: TokenKind::Semicolon,
                        got: token_at(toks, p + 1),
                    },
                    p,
                ),
            )
        },
        Err(e) => Err(e),
    }
}

/// An expression statement: one expression at the lowest precedence; a
/// following statement separator is consumed when present but is optional,
/// so a bare trailing expression still forms a statement.
pub open spec fn spec_parse_expression_statement(toks: Seq<Token>, pos: int) -> Result<
    (Statement, int),
    (ParseError, int),
>
    recommends
        0 <= pos < toks.len(),
{
    match spec_parse_expression(toks, pos, PREC_LOWEST) {
        Ok((expression, p)) => if p + 1 < toks.len() && toks[p + 1] is Semicolon {
            Ok((Statement::Expression(ExpressionStatement { expression }), p + 1))
        } else {
            Ok((Statement::Expression(ExpressionStatement { expression }), p))
        },
        Err(e) => Err(e),
    }
}

/// Statement dispatch on the current token's kind: `let` and `return` go to
/// their own rules, anything else parses as an expression statement.
pub open spec fn spec_parse_statement(toks: Seq<Token>, pos: int) -> Result<(Statement, int), (
    ParseError,
    int,
)>
    recommends
        0 <= pos < toks.len(),
{
    match toks[pos] {
        Token::Let => spec_parse_let_statement(toks, pos),
        Token::Return => spec_parse_return_statement(toks, pos),
        _ => spec_parse_statement_default(toks, pos),
    }
}

/// The default branch of statement dispatch, split out so the dispatch match
/// stays total without repeating the expression-statement rule.
pub open spec fn spec_parse_statement_default(toks: Seq<Token>, pos: int) -> Result<
    (Statement, int),
    (ParseError, int),
> {
    spec_parse_expression_statement(toks, pos)
}

/// The program loop from position `pos`: parse one statement, keep it (or
/// its error), then step one token past where the statement ended and go on.
/// Every iteration moves at least one token forward, so a parse is one finite
/// pass; the bound on the statement's returned position exists to make the
/// measure decrease.
pub open spec fn spec_parse_from(toks: Seq<Token>, pos: int) -> (Seq<Statement>, Seq<ParseError>)
    decreases toks.len() - pos,
    when pos >= 0
{
    if pos >= toks.len() {
        (Seq::empty(), Seq::empty())
    } else {
        match spec_parse_statement(toks, pos) {
            Ok((s, p)) => {
                let rest = spec_parse_from(toks, clamped(p + 1, pos + 1, toks.len() as int));
                (seq![s] + rest.0, rest.1)
            },
            Err((e, p)) => {
                let rest = spec_parse_from(toks, clamped(p + 1, pos + 1, toks.len() as int));
                (rest.0, seq![e] + rest.1)
            },
        }
    }
}

/// What parsing a whole token stream yields: the statements that parsed and
/// the errors of those that did not, each in source order.
pub open spec fn spec_parse_program(toks: Seq<Token>) -> (Seq<Statement>, Seq<ParseError>) {
    spec_parse_from(toks, 0)
}

/// The parser engine: a finished token stream and the position of the
/// current token. The two-token lookahead window is the pair of tokens at
/// `pos` and `pos + 1`; a position at or past the end of the stream is the
/// exhausted window.
pub struct Parser {
    tokens: Vec<Token>,
    pos: usize,
}

impl Parser {
    /// The token stream the parser was built over.
    pub closed spec fn toks(&self) -> Seq<Token> {
        self.tokens@
    }

    /// The position of the current token.
    pub closed spec fn pos_spec(&self) -> int {
        self.pos as int
    }

    /// The position never runs past the end of the stream.
    pub closed spec fn wf(&self) -> bool {
        self.pos <= self.tokens@.len()
    }

    /// A parser primed at the start of the given token stream.
    pub fn new(tokens: Vec<Token>) -> (p: Parser)
        ensures
            p.wf(),
            p.toks() == tokens@,
            p.pos_spec() == 0,
    {
        Parser { tokens, pos: 0 }
    }

    /// Shifts the peek token into current position and pulls the next token
    /// into peek position; past the end of the stream both slots stay empty.
    fn next_token(&mut self)
        requires
            old(self).wf(),
        ensures
            final(self).wf(),
            final(self).toks() == old(self).toks(),
            final(self).pos_spec() == if old(self).pos_spec() < old(self).toks().len() {
                old(self).pos_spec() + 1
            } else {
                old(self).pos_spec()
            },
    {
        if self.pos < self.tokens.len() {
            self.pos = self.pos + 1;
        }
    }

    /// Whether a current token exists.
    fn has_current(&self) -> (r: bool)
        ensures
            r == (self.pos_spec() < self.toks().len()),
    {
        self.pos < self.tokens.len()
    }

    /// A copy of the peek token, or `None` past the end of the stream.
    fn peek_dup(&self) -> (r: Option<Token>)
        requires
            self.wf(),
        ensures
            r == token_at(self.toks(), self.pos_spec() + 1),
    {
        if self.tokens.len() - self.pos >= 2 {
            Some(self.tokens[self.pos + 1].duplicate())
        } else {
            None
        }
    }

    /// Whether the peek token is the statement separator.
    fn peek_is_semicolon(&self) -> (r: bool)
        requires
            self.wf(),
        ensures
            r == (self.pos_spec() + 1 < self.toks().len() && self.toks()[self.pos_spec() + 1]
                is Semicolon),
    {
        if self.tokens.len() - self.pos >= 2 {
            match &self.tokens[self.pos + 1] {
                Token::Semicolon => true,
                _ => false,
            }
        } else {
            false
        }
    }

    /// Whether the current token is the statement separator.
    fn current_is_semicolon(&self) -> (r: bool)
        requires
            self.wf(),
        ensures
            r == (self.pos_spec() < self.toks().len() && self.toks()[self.pos_spec()]
                is Semicolon),
    {
        if self.pos < self.tokens.len() {
            match &self.tokens[self.pos] {
                Token::Semicolon => true,
                _ => false,
            }
        } else {
            false
        }
    }

    /// Whether the current token is the `let` keyword.
    fn current_is_let(&self) -> (r: bool)
        requires
            self.wf(),
        ensures
            r == (self.pos_spec() < self.toks().len() && self.toks()[self.pos_spec()] is Let),
    {
        if self.pos < self.tokens.len() {
            match &self.tokens[self.pos] {
                Token::Let => true,
                _ => false,
            }
        } else {
            false
        }
    }

    /// Whether the current token is the `return` keyword.
    fn current_is_return(&self) -> (r: bool)
        requires
            self.wf(),
        ensures
            r == (self.pos_spec() < self.toks().len() && self.toks()[self.pos_spec()] is Return),
    {
        if self.pos < self.tokens.len() {
            match &self.tokens[self.pos] {
                Token::Return => true,
                _ => false,
            }
        } else {
            false
        }
    }

    /// The prefix rule for the current token, exactly as
    /// [`spec_prefix_parse`] states it.
    fn prefix_parse(&mut self) -> (r: Result<Expression, ParseError>)
        requires
            old(self).wf(),
            old(self).pos_spec() < old(self).toks().len(),
        ensures
            final(self).wf(),
            final(self).toks() == old(self).toks(),
            old(self).pos_spec() <= final(self).pos_spec() <= final(self).toks().len(),
            r is Ok ==> final(self).pos_spec() < final(self).toks().len(),
            spec_prefix_parse(old(self).toks(), old(self).pos_spec()) == with_pos(
                r,
                final(self).pos_spec(),
            ),
        decreases old(self).toks().len() - old(self).pos_spec(), 0int,
    {
        let tok = self.tokens[self.pos].duplicate();
        match tok {
            Token::Ident(value) => Ok(
                Expression::Callable(CallableExpression::Identifier(Identifier { value })),
            ),
            Token::Int(value) => Ok(Expression::IntegerLiteral(IntegerLiteral { value })),
            Token::True => Ok(Expression::BooleanLiteral(BooleanLiteral { value: true })),
            Token::False => Ok(Expression::BooleanLiteral(BooleanLiteral { value: false })),
            Token::Bang => {
                self.next_token();
                match self.parse_expression(PREC_PREFIX) {
                    Ok(right) => Ok(
                        Expression::Prefix(
                            PrefixExpression { right: Box::new(right), operator: Operator::Bang },
                        ),
                    ),
                    Err(e) => Err(e),
                }
            },
            Token::Minus => {
                self.next_token();
                match self.parse_expression(PREC_PREFIX) {
                    Ok(right) => Ok(
                        Expression::Prefix(
                            PrefixExpression { right: Box::new(right), operator: Operator::Minus },
                        ),
                    ),
                    Err(e) => Err(e),
                }
            },
            Token::Lparen => {
                self.next_token();
                match self.parse_expression(PREC_LOWEST) {
                    Ok(inner) => {
                        match self.peek_dup() {
                            Some(Token::Rparen) => {
                                self.next_token();
                                Ok(inner)
                            },
                            got => Err(
                                ParseError::UnexpectedToken { expected: TokenKind::Rparen, got },
                            ),
                        }
                    },
                    Err(e) => Err(e),
                }
            },
            t => Err(ParseError::NoPrefixRule { token: t }),
        }
    }

    /// The precedence-climbing step, exactly as [`spec_infix_loop`] states
    /// it: while the peek token is an operator binding tighter than
    /// `min_prec`, fold `left` and the right operand into an infix node.
    fn infix_parse(&mut self, left: Expression, min_prec: u8) -> (r: Result<
        Expression,
        ParseError,
    >)
        requires
            old(self).wf(),
        ensures
            final(self).wf(),
            final(self).toks() == old(self).toks(),
            old(self).pos_spec() <= final(self).pos_spec() <= final(self).toks().len(),
            (old(self).pos_spec() < old(self).toks().len() && r is Ok) ==> final(self).pos_spec()
                < final(self).toks().len(),
            spec_infix_loop(old(self).toks(), old(self).pos_spec(), left, min_prec) == with_pos(
                r,
                final(self).pos_spec(),
            ),
        decreases old(self).toks().len() - old(self).pos_spec(), 1int,
    {
        if !self.has_current() {
            return Ok(left);
        }
        if self.current_is_semicolon() {
            return Ok(left);
        }
        let peek = match self.peek_dup() {
            Some(t) => t,
            None => {
                return Ok(left);
            },
        };
        let op = match Operator::from_token(&peek) {
            Some(op) => op,
            None => {
                return Ok(left);
            },
        };
        let prec = precedence_of(op);
        if min_prec >= prec {
            return Ok(left);
        }
        self.next_token();
        self.next_token();
        let right = match self.parse_expression(prec) {
            Ok(right) => right,
            Err(e) => {
                return Err(e);
            },
        };
        let folded = Expression::Infix(
            InfixExpression { left: Box::new(left), right: Box::new(right), operator: op },
        );
        self.infix_parse(folded, min_prec)
    }

    /// One full expression at minimum precedence `min_prec`, exactly as
    /// [`spec_parse_expression`] states it: the prefix rule builds the
    /// initial expression, the climbing step extends it.
    fn parse_expression(&mut self, min_prec: u8) -> (r: Result<Expression, ParseError>)
        requires
            old(self).wf(),
        ensures
            final(self).wf(),
            final(self).toks() == old(self).toks(),
            old(self).pos_spec() <= final(self).pos_spec() <= final(self).toks().len(),
            r is Ok ==> final(self).pos_spec() < final(self).toks().len(),
            spec_parse_expression(old(self).toks(), old(self).pos_spec(), min_prec) == with_pos(
                r,
                final(self).pos_spec(),
            ),
        decreases old(self).toks().len() - old(self).pos_spec(), 2int,
    {
        if !self.has_current() {
            return Err(ParseError::UnexpectedEnd);
        }
        let left = match self.prefix_parse() {
            Ok(left) => left,
            Err(e) => {
                return Err(e);
            },
        };
        self.infix_parse(left, min_prec)
    }

    /// A `let` statement, exactly as [`spec_parse_let_statement`] states it.
    fn parse_let_statement(&mut self) -> (r: Result<Statement, ParseError>)
        requires
            old(self).wf(),
            old(self).pos_spec() < old(self).toks().len(),
        ensures
            final(self).wf(),
            final(self).toks() == old(self).toks(),
            old(self).pos_spec() <= final(self).pos_spec() <= final(self).toks().len(),
            r is Ok ==> final(self).pos_spec() < final(self).toks().len(),
            spec_parse_let_statement(old(self).toks(), old(self).pos_spec()) == with_pos(
                r,
                final(self).pos_spec(),
            ),
    {
        let name = match self.peek_dup() {
            Some(Token::Ident(value)) => value,
            got => {
                return Err(ParseError::UnexpectedToken { expected: TokenKind::Ident, got });
            },
        };
        self.next_token();
        match self.peek_dup() {
            Some(Token::Assign) => {},
            got => {
                return Err(ParseError::UnexpectedToken { expected: TokenKind::Assign, got });
            },
        }
        self.next_token();
        self.next_token();
        let value = match self.parse_expression(PREC_LOWEST) {
            Ok(value) => value,
            Err(e) => {
                return Err(e);
            },
        };
        match self.peek_dup() {
            Some(Token::Semicolon) => {
                self.next_token();
                Ok(Statement::Let(LetStatement { name: Identifier { value: name }, value }))
            },
            got => Err(ParseError::UnexpectedToken { expected: TokenKind::Semicolon, got }),
        }
    }

    /// A `return` statement, exactly as [`spec_parse_return_statement`]
    /// states it.
    fn parse_return_statement(&mut self) -> (r: Result<Statement, ParseError>)
        requires
            old(self).wf(),
            old(self).pos_spec() < old(self).toks().len(),
        ensures
            final(self).wf(),
            final(self).toks() == old(self).toks(),
            old(self).pos_spec() <= final(self).pos_spec() <= final(self).toks().len(),
            r is Ok ==> final(self).pos_spec() < final(self).toks().len(),
            spec_parse_return_statement(old(self).toks(), old(self).pos_spec()) == with_pos(
                r,
                final(self).pos_spec(),
            ),
    {
        self.next_token();
        let value = match self.parse_expression(PREC_LOWEST) {
            Ok(value) => value,
            Err(e) => {
                return Err(e);
            },
        };
        match self.peek_dup() {
            Some(Token::Semicolon) => {
                self.next_token();
                Ok(Statement::Return(ReturnStatement { value }))
            },
            got => Err(ParseError::UnexpectedToken { expected: TokenKind::Semicolon, got }),
        }
    }

    /// An expression statement, exactly as
    /// [`spec_parse_expression_statement`] states it.
    fn parse_expression_statement(&mut self) -> (r: Result<Statement, ParseError>)
        requires
            old(self).wf(),
        ensures
            final(self).wf(),
            final(self).toks() == old(self).toks(),
            old(self).pos_spec() <= final(self).pos_spec() <= final(self).toks().len(),
            r is Ok ==> final(self).pos_spec() < final(self).toks().len(),
            spec_parse_expression_statement(old(self).toks(), old(self).pos_spec()) == with_pos(
                r,
                final(self).pos_spec(),
            ),
    {
        let expression = match self.parse_expression(PREC_LOWEST) {
            Ok(expression) => expression,
            Err(e) => {
                return Err(e);
            },
        };
        if self.peek_is_semicolon() {
            self.next_token();
        }
        Ok(Statement::Expression(ExpressionStatement { expression }))
    }

    /// Statement dispatch on the current token's kind, exactly as
    /// [`spec_parse_statement`] states it.
    fn parse_statement(&mut self) -> (r: Result<Statement, ParseError>)
        requires
            old(self).wf(),
            old(self).pos_spec() < old(self).toks().len(),
        ensures
            final(self).wf(),
            final(self).toks() == old(self).toks(),
            old(self).pos_spec() <= final(self).pos_spec() <= final(self).toks().len(),
            r is Ok ==> final(self).pos_spec() < final(self).toks().len(),
            spec_parse_statement(old(self).toks(), old(self).pos_spec()) == with_pos(
                r,
                final(self).pos_spec(),
            ),
    {
        if self.current_is_let() {
            self.parse_let_statement()
        } else if self.current_is_return() {
            self.parse_return_statement()
        } else {
            self.parse_expression_statement()
        }
    }

    /// Parses the entire token stream. This never fails: each statement that
    /// parses is kept and each statement that fails contributes exactly one
    /// error, never both, and the loop always advances past the statement, so
    /// one finite pass covers the whole stream.
    pub fn parse_program(self) -> (p: Program)
        requires
            self.wf(),
        ensures
            p.statments@ == spec_parse_from(self.toks(), self.pos_spec()).0,
            p.errors@ == spec_parse_from(self.toks(), self.pos_spec()).1,
    {
        let ghost toks = self.toks();
        let ghost start = self.pos_spec();
        let mut parser = self;
        let mut program = Program::new();
        while parser.has_current()
            invariant
                parser.wf(),
                parser.toks() == toks,
                0 <= parser.pos_spec() <= toks.len(),
                spec_parse_from(toks, start).0 == program.statments@ + spec_parse_from(
                    toks,
                    parser.pos_spec(),
                ).0,
                spec_parse_from(toks, start).1 == program.errors@ + spec_parse_from(
                    toks,
                    parser.pos_spec(),
                ).1,
            decreases toks.len() - parser.pos_spec(),
        {
            let ghost pre = parser.pos_spec();
            match parser.parse_statement() {
                Ok(s) => program.statments.push(s),
                Err(e) => program.errors.push(e),
            }
            let ghost mid = parser.pos_spec();
            parser.next_token();
            proof {
                assert(clamped(mid + 1, pre + 1, toks.len() as int) == parser.pos_spec());
                let rest = spec_parse_from(toks, parser.pos_spec());
                match spec_parse_statement(toks, pre) {
                    Ok((s, p)) => {
                        assert(spec_parse_from(toks, pre).0 == seq![s] + rest.0);
                        assert(program.statments@ =~= program.statments@.drop_last().push(s));
                        assert(program.statments@.drop_last() + (seq![s] + rest.0)
                            =~= program.statments@ + rest.0);
                    },
                    Err((e, p)) => {
                        assert(spec_parse_from(toks, pre).1 == seq![e] + rest.1);
                        assert(program.errors@ =~= program.errors@.drop_last().push(e));
                        assert(program.errors@.drop_last() + (seq![e] + rest.1) =~= program.errors@
                            + rest.1);
                    },
                }
            }
        }
        proof {
            assert(spec_parse_from(toks, parser.pos_spec()).0 =~= Seq::<Statement>::empty());
            assert(spec_parse_from(toks, parser.pos_spec()).1 =~= Seq::<ParseError>::empty());
            assert(program.statments@ + Seq::<Statement>::empty() =~= program.statments@);
            assert(program.errors@ + Seq::<ParseError>::empty() =~= program.errors@);
        }
        program
    }
}

} // verus!
