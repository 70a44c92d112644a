//! A token-level renderer for the syntax tree, and the round-trip law: a
//! rendered program re-parses into a structurally equal tree with no errors.
//!
//! The renderer writes every prefix and infix node fully parenthesised, so
//! the rendered form carries the tree's shape explicitly and no precedence
//! reasoning is needed to read it back.

use vstd::prelude::*;
use crate::ast::{
    CallableExpression, Expression, ExpressionStatement, Identifier, InfixExpression,
    LetStatement, Operator, ParseError, PrefixExpression, Program, ReturnStatement, Statement,
    spec_operator_of,
};
use crate::parser::{
    PREC_LOWEST, PREC_PREFIX, clamped, spec_infix_loop, spec_parse_expression, spec_parse_from,
    spec_parse_program, spec_parse_statement, spec_precedence, spec_prefix_parse,
};
use crate::token::Token;

verus! {

/// The token that denotes an operator tag; the inverse of
/// [`spec_operator_of`].
pub open spec fn operator_token(op: Operator) -> Token {
    match op {
        Operator::Minus => Token::Minus,
        Operator::Plus => Token::Plus,
        Operator::Bang => Token::Bang,
        Operator::Asterisk => Token::Asterisk,
        Operator::Slash => Token::Slash,
        Operator::Eq => Token::Eq,
        Operator::NotEq => Token::NotEq,
        Operator::Lt => Token::Lt,
        Operator::Gt => Token::Gt,
        Operator::Lparen => Token::Lparen,
    }
}

/// Whether the operator tag can stand between two operands.
pub open spec fn infix_capable(op: Operator) -> bool {
    match op {
        Operator::Bang => false,
        Operator::Lparen => false,
        _ => true,
    }
}

/// The expression uses only the node shapes the parser itself produces:
/// identifiers, integer and boolean literals, unary-capable prefix nodes and
/// infix nodes over the binary operators.
pub open spec fn parsed_form_expr(e: Expression) -> bool
    decreases e,
{
    match e {
        Expression::Callable(c) => c is Identifier,
        Expression::IntegerLiteral(il) => true,
        Expression::BooleanLiteral(bl) => true,
        Expression::Prefix(p) => (p.operator is Bang || p.operator is Minus) && parsed_form_expr(
            *p.right,
        ),
        Expression::Infix(ix) => infix_capable(ix.operator) && parsed_form_expr(*ix.left)
            && parsed_form_expr(*ix.right),
        _ => false,
    }
}

/// The statement uses only the statement forms the parser itself produces,
/// over expressions in parsed form.
pub open spec fn parsed_form_stmt(s: Statement) -> bool {
    match s {
        Statement::Let(ls) => parsed_form_expr(ls.value),
        Statement::Return(rs) => parsed_form_expr(rs.value),
        Statement::Expression(es) => parsed_form_expr(es.expression),
        Statement::Block(bs) => false,
    }
}

/// The rendered form of an expression: atoms stand for themselves, every
/// prefix and infix node is fully parenthesised.
pub open spec fn render_expr(e: Expression) -> Seq<Token>
    decreases e,
{
    match e {
        Expression::Callable(c) => match c {
            CallableExpression::Identifier(id) => seq![Token::Ident(id.value)],
            CallableExpression::FunctionLiteral(fl) => Seq::empty(),
        },
        Expression::IntegerLiteral(il) => seq![Token::Int(il.value)],
        Expression::BooleanLiteral(bl) => seq![
            if bl.value {
                Token::True
            } else {
                Token::False
            },
        ],
        Expression::Prefix(p) => seq![Token::Lparen, operator_token(p.operator)] + render_expr(
            *p.right,
        ) + seq![Token::Rparen],
        Expression::Infix(ix) => seq![Token::Lparen] + render_expr(*ix.left) + seq![
            operator_token(ix.operator),
        ] + render_expr(*ix.right) + seq![Token::Rparen],
        _ => Seq::empty(),
    }
}

/// The rendered form of a statement, always ended by the statement
/// separator.
pub open spec fn render_stmt(s: Statement) -> Seq<Token> {
    match s {
        Statement::Let(ls) => seq![Token::Let, Token::Ident(ls.name.value), Token::Assign]
            + render_expr(ls.value) + seq![Token::Semicolon],
        Statement::Return(rs) => seq![Token::Return] + render_expr(rs.value) + seq![
            Token::Semicolon,
        ],
        Statement::Expression(es) => render_expr(es.expression) + seq![Token::Semicolon],
        Statement::Block(bs) => Seq::empty(),
    }
}

/// The rendered form of a sequence of statements, in order.
pub open spec fn render_program(ss: Seq<Statement>) -> Seq<Token>
    decreases ss.len(),
{
    if ss.len() == 0 {
        Seq::empty()
    } else {
        render_stmt(ss[0]) + render_program(ss.subrange(1, ss.len() as int))
    }
}

/// A rendered expression is never empty, never starts with a statement
/// keyword, and never ends on a statement separator.
proof fn lemma_render_expr_shape(e: Expression)
    requires
        parsed_form_expr(e),
    ensures
        render_expr(e).len() >= 1,
        !(render_expr(e)[render_expr(e).len() - 1] is Semicolon),
        !(render_expr(e)[0] is Let),
        !(render_expr(e)[0] is Return),
{
    match e {
        Expression::Prefix(p) => {
            assert(render_expr(e)[render_expr(e).len() - 1] == Token::Rparen);
        },
        Expression::Infix(ix) => {
            assert(render_expr(e)[render_expr(e).len() - 1] == Token::Rparen);
        },
        _ => {},
    }
}

/// The climbing loop stays put when the current token is no separator and
/// the peek token denotes no operator.
proof fn lemma_infix_loop_stops(toks: Seq<Token>, pos: int, left: Expression, min_prec: u8)
    requires
        0 <= pos < toks.len(),
        !(toks[pos] is Semicolon),
        pos + 1 < toks.len() ==> spec_operator_of(toks[pos + 1]) is None,
    ensures
        spec_infix_loop(toks, pos, left, min_prec) == Ok::<(Expression, int), (ParseError, int)>(
            (left, pos),
        ),
{
}

/// Re-parsing a rendered expression: the prefix rule reads back exactly the
/// expression that was rendered, ending on its last token, whatever else
/// follows in the stream.
#[verifier::rlimit(50)]
proof fn lemma_prefix_parse_rendered(toks: Seq<Token>, pos: int, e: Expression)
    requires
        parsed_form_expr(e),
        0 <= pos,
        pos + render_expr(e).len() <= toks.len(),
        forall|i: int| 0 <= i < render_expr(e).len() ==> toks[pos + i] == render_expr(e)[i],
    ensures
        spec_prefix_parse(toks, pos) == Ok::<(Expression, int), (ParseError, int)>(
            (e, pos + render_expr(e).len() - 1),
        ),
    decreases e,
{
    assert(toks[pos + 0] == render_expr(e)[0]);
    match e {
        Expression::Callable(c) => {
            assert(spec_prefix_parse(toks, pos) == Ok::<(Expression, int), (ParseError, int)>(
                (e, pos),
            ));
        },
        Expression::IntegerLiteral(il) => {},
        Expression::BooleanLiteral(bl) => {},
        Expression::Prefix(p) => {
            let r = *p.right;
            let rl = render_expr(r).len() as int;
            lemma_render_expr_shape(r);
            assert(render_expr(e) == seq![Token::Lparen, operator_token(p.operator)] + render_expr(
                r,
            ) + seq![Token::Rparen]);
            assert(toks[pos + 1] == render_expr(e)[1]);
            assert(toks[pos + 1] == operator_token(p.operator));
            assert forall|j: int| 0 <= j < rl implies toks[pos + 2 + j] == render_expr(r)[j] by {
                assert(toks[pos + (2 + j)] == render_expr(e)[2 + j]);
            }
            lemma_prefix_parse_rendered(toks, pos + 2, r);
            let p_r = pos + 1 + rl;
            assert(toks[pos + (2 + rl)] == render_expr(e)[2 + rl]);
            assert(toks[p_r + 1] == Token::Rparen);
            // the operand's climb stops: its last token is no separator and
            // the closing parenthesis denotes no operator
            assert(toks[p_r] == render_expr(r)[rl - 1]);
            assert(clamped(p_r, pos + 2, toks.len() as int) == p_r);
            lemma_infix_loop_stops(toks, p_r, r, PREC_PREFIX);
            assert(spec_parse_expression(toks, pos + 2, PREC_PREFIX)
                == Ok::<(Expression, int), (ParseError, int)>((r, p_r)));
            assert(e == Expression::Prefix(
                PrefixExpression { right: Box::new(r), operator: p.operator },
            ));
            assert(spec_prefix_parse(toks, pos + 1) == Ok::<(Expression, int), (ParseError, int)>(
                (e, p_r),
            ));
            assert(clamped(p_r, pos + 1, toks.len() as int) == p_r);
            lemma_infix_loop_stops(toks, p_r, e, PREC_LOWEST);
            assert(spec_parse_expression(toks, pos + 1, PREC_LOWEST)
                == Ok::<(Expression, int), (ParseError, int)>((e, p_r)));
        },
        Expression::Infix(ix) => {
            let l = *ix.left;
            let r = *ix.right;
            let ll = render_expr(l).len() as int;
            let rl = render_expr(r).len() as int;
            lemma_render_expr_shape(l);
            lemma_render_expr_shape(r);
            assert(render_expr(e) == seq![Token::Lparen] + render_expr(l) + seq![
                operator_token(ix.operator),
            ] + render_expr(r) + seq![Token::Rparen]);
            assert forall|j: int| 0 <= j < ll implies toks[pos + 1 + j] == render_expr(l)[j] by {
                assert(toks[pos + (1 + j)] == render_expr(e)[1 + j]);
            }
            assert forall|j: int| 0 <= j < rl implies toks[pos + 2 + ll + j] == render_expr(r)[j]
                by {
                assert(toks[pos + (2 + ll + j)] == render_expr(e)[2 + ll + j]);
            }
            lemma_prefix_parse_rendered(toks, pos + 1, l);
            lemma_prefix_parse_rendered(toks, pos + 2 + ll, r);
            let p_l = pos + ll;
            let p_r = pos + 1 + ll + rl;
            assert(toks[pos + (1 + ll)] == render_expr(e)[1 + ll]);
            assert(toks[p_l + 1] == operator_token(ix.operator));
            assert(toks[pos + (2 + ll + rl)] == render_expr(e)[2 + ll + rl]);
            assert(toks[p_r + 1] == Token::Rparen);
            assert(toks[p_l] == render_expr(l)[ll - 1]);
            assert(toks[p_r] == render_expr(r)[rl - 1]);
            let op = ix.operator;
            assert(spec_operator_of(operator_token(op)) == Some(op));
            assert(spec_precedence(op) >= 1);
            // the right operand parses and its climb stops at the closing
            // parenthesis
            assert(clamped(p_r, p_l + 2, toks.len() as int) == p_r);
            lemma_infix_loop_stops(toks, p_r, r, spec_precedence(op));
            assert(spec_parse_expression(toks, p_l + 2, spec_precedence(op))
                == Ok::<(Expression, int), (ParseError, int)>((r, p_r)));
            // one climbing step folds the two operands, then stops
            assert(e == Expression::Infix(
                InfixExpression { left: Box::new(l), right: Box::new(r), operator: op },
            ));
            lemma_infix_loop_stops(toks, p_r, e, PREC_LOWEST);
            assert(!(toks[p_l] is Semicolon));
            assert(spec_infix_loop(toks, p_l, l, PREC_LOWEST)
                == Ok::<(Expression, int), (ParseError, int)>((e, p_r)));
            assert(clamped(p_l, pos + 1, toks.len() as int) == p_l);
            assert(spec_parse_expression(toks, pos + 1, PREC_LOWEST)
                == Ok::<(Expression, int), (ParseError, int)>((e, p_r)));
        },
        _ => {},
    }
}

/// Re-parsing a rendered statement: statement dispatch reads back exactly
/// the statement that was rendered, ending on its statement separator.
#[verifier::rlimit(50)]
proof fn lemma_parse_rendered_statement(toks: Seq<Token>, pos: int, s: Statement)
    requires
        parsed_form_stmt(s),
        0 <= pos,
        pos + render_stmt(s).len() <= toks.len(),
        forall|i: int| 0 <= i < render_stmt(s).len() ==> toks[pos + i] == render_stmt(s)[i],
    ensures
        spec_parse_statement(toks, pos) == Ok::<(Statement, int), (ParseError, int)>(
            (s, pos + render_stmt(s).len() - 1),
        ),
        render_stmt(s).len() >= 2,
{
    match s {
        Statement::Let(ls) => {
            let v = ls.value;
            let vl = render_expr(v).len() as int;
            lemma_render_expr_shape(v);
            assert(render_stmt(s) == seq![
                Token::Let,
                Token::Ident(ls.name.value),
                Token::Assign,
            ] + render_expr(v) + seq![Token::Semicolon]);
            assert(toks[pos + 0] == render_stmt(s)[0]);
            assert(toks[pos + 1] == render_stmt(s)[1]);
            assert(toks[pos + 2] == render_stmt(s)[2]);
            assert(toks[pos + 1] == Token::Ident(ls.name.value));
            assert forall|j: int| 0 <= j < vl implies toks[pos + 3 + j] == render_expr(v)[j] by {
                assert(toks[pos + (3 + j)] == render_stmt(s)[3 + j]);
            }
            lemma_prefix_parse_rendered(toks, pos + 3, v);
            let p_v = pos + 2 + vl;
            assert(toks[pos + (3 + vl)] == render_stmt(s)[3 + vl]);
            assert(toks[p_v + 1] == Token::Semicolon);
            assert(toks[p_v] == render_expr(v)[vl - 1]);
            assert(clamped(p_v, pos + 3, toks.len() as int) == p_v);
            lemma_infix_loop_stops(toks, p_v, v, PREC_LOWEST);
            assert(spec_parse_expression(toks, pos + 3, PREC_LOWEST)
                == Ok::<(Expression, int), (ParseError, int)>((v, p_v)));
            assert(s == Statement::Let(
                LetStatement { name: Identifier { value: toks[pos + 1]->Ident_0 }, value: v },
            ));
        },
        Statement::Return(rs) => {
            let v = rs.value;
            let vl = render_expr(v).len() as int;
            lemma_render_expr_shape(v);
            assert(render_stmt(s) == seq![Token::Return] + render_expr(v) + seq![Token::Semicolon]);
            assert(toks[pos + 0] == render_stmt(s)[0]);
            assert forall|j: int| 0 <= j < vl implies toks[pos + 1 + j] == render_expr(v)[j] by {
                assert(toks[pos + (1 + j)] == render_stmt(s)[1 + j]);
            }
            lemma_prefix_parse_rendered(toks, pos + 1, v);
            let p_v = pos + vl;
            assert(toks[pos + (1 + vl)] == render_stmt(s)[1 + vl]);
            assert(toks[p_v + 1] == Token::Semicolon);
            assert(toks[p_v] == render_expr(v)[vl - 1]);
            assert(clamped(p_v, pos + 1, toks.len() as int) == p_v);
            lemma_infix_loop_stops(toks, p_v, v, PREC_LOWEST);
            assert(spec_parse_expression(toks, pos + 1, PREC_LOWEST)
                == Ok::<(Expression, int), (ParseError, int)>((v, p_v)));
            assert(s == Statement::Return(ReturnStatement { value: v }));
        },
        Statement::Expression(es) => {
            let v = es.expression;
            let vl = render_expr(v).len() as int;
            lemma_render_expr_shape(v);
            assert(render_stmt(s) == render_expr(v) + seq![Token::Semicolon]);
            assert forall|j: int| 0 <= j < vl implies toks[pos + j] == render_expr(v)[j] by {
                assert(toks[pos + j] == render_stmt(s)[j]);
            }
            lemma_prefix_parse_rendered(toks, pos, v);
            let p_v = pos + vl - 1;
            assert(toks[pos + vl] == render_stmt(s)[vl]);
            assert(toks[p_v + 1] == Token::Semicolon);
            assert(toks[p_v] == render_expr(v)[vl - 1]);
            // the first rendered token is no statement keyword, so dispatch
            // falls through to the expression statement rule
            assert(toks[pos] == render_expr(v)[0]);
            assert(clamped(p_v, pos, toks.len() as int) == p_v);
            lemma_infix_loop_stops(toks, p_v, v, PREC_LOWEST);
            assert(spec_parse_expression(toks, pos, PREC_LOWEST)
                == Ok::<(Expression, int), (ParseError, int)>((v, p_v)));
            assert(s == Statement::Expression(ExpressionStatement { expression: v }));
        },
        Statement::Block(bs) => {},
    }
}

/// Re-parsing a rendered statement sequence that fills the rest of the
/// stream: the program loop reads back exactly those statements, with no
/// errors.
proof fn lemma_parse_rendered_from(toks: Seq<Token>, pos: int, ss: Seq<Statement>)
    requires
        forall|k: int| 0 <= k < ss.len() ==> parsed_form_stmt(#[trigger] ss[k]),
        0 <= pos,
        pos + render_program(ss).len() == toks.len(),
        forall|i: int| 0 <= i < render_program(ss).len() ==> toks[pos + i] == render_program(ss)[i],
    ensures
        spec_parse_from(toks, pos).0 == ss,
        spec_parse_from(toks, pos).1 == Seq::<ParseError>::empty(),
    decreases ss.len(),
{
    if ss.len() == 0 {
        assert(spec_parse_from(toks, pos).0 =~= ss);
        assert(spec_parse_from(toks, pos).1 =~= Seq::<ParseError>::empty());
    } else {
        let s0 = ss[0];
        let tail = ss.subrange(1, ss.len() as int);
        assert(render_program(ss) == render_stmt(s0) + render_program(tail));
        let sl = render_stmt(s0).len() as int;
        assert forall|i: int| 0 <= i < sl implies toks[pos + i] == render_stmt(s0)[i] by {
            assert(toks[pos + i] == render_program(ss)[i]);
        }
        lemma_parse_rendered_statement(toks, pos, s0);
        let p0 = pos + sl - 1;
        let rl = render_program(tail).len() as int;
        assert forall|i: int| 0 <= i < rl implies toks[pos + sl + i] == render_program(tail)[i] by {
            assert(toks[pos + (sl + i)] == render_program(ss)[sl + i]);
        }
        assert forall|k: int| 0 <= k < tail.len() implies parsed_form_stmt(#[trigger] tail[k]) by {
            assert(tail[k] == ss[k + 1]);
        }
        lemma_parse_rendered_from(toks, pos + sl, tail);
        assert(clamped(p0 + 1, pos + 1, toks.len() as int) == p0 + 1);
        assert(spec_parse_from(toks, pos).0 == seq![s0] + tail);
        assert(seq![s0] + tail =~= ss);
    }
}

/// The round-trip law: rendering a program made of the node shapes the
/// parser produces and re-parsing the rendered tokens yields exactly the
/// same statements and no errors.
pub proof fn theorem_render_round_trip(ss: Seq<Statement>)
    requires
        forall|k: int| 0 <= k < ss.len() ==> parsed_form_stmt(#[trigger] ss[k]),
    ensures
        spec_parse_program(render_program(ss)).0 == ss,
        spec_parse_program(render_program(ss)).1 == Seq::<ParseError>::empty(),
{
    lemma_parse_rendered_from(render_program(ss), 0, ss);
}

/// Whatever the prefix rule builds is in parsed form.
proof fn lemma_prefix_parse_parsed_form(toks: Seq<Token>, pos: int)
    requires
        0 <= pos < toks.len(),
    ensures
        spec_prefix_parse(toks, pos) matches Ok((e, p)) ==> parsed_form_expr(e),
    decreases toks.len() - pos, 0int,
{
    match toks[pos] {
        Token::Bang => {
            lemma_parse_expression_parsed_form(toks, pos + 1, PREC_PREFIX);
        },
        Token::Minus => {
            lemma_parse_expression_parsed_form(toks, pos + 1, PREC_PREFIX);
        },
        Token::Lparen => {
            lemma_parse_expression_parsed_form(toks, pos + 1, PREC_LOWEST);
        },
        _ => {},
    }
}

/// Whatever the climbing loop builds from a parsed-form expression is in
/// parsed form.
proof fn lemma_infix_loop_parsed_form(toks: Seq<Token>, pos: int, left: Expression, min_prec: u8)
    requires
        0 <= pos,
        parsed_form_expr(left),
    ensures
        spec_infix_loop(toks, pos, left, min_prec) matches Ok((e, p)) ==> parsed_form_expr(e),
    decreases toks.len() - pos, 1int,
{
    if pos >= toks.len() || toks[pos] is Semicolon || pos + 1 >= toks.len() {
    } else {
        match spec_operator_of(toks[pos + 1]) {
            None => {},
            Some(op) => {
                if min_prec >= spec_precedence(op) {
                } else {
                    lemma_parse_expression_parsed_form(toks, pos + 2, spec_precedence(op));
                    match spec_parse_expression(toks, pos + 2, spec_precedence(op)) {
                        Ok((right, p)) => {
                            let next = clamped(p, pos + 2, toks.len() as int);
                            let folded = Expression::Infix(
                                InfixExpression {
                                    left: Box::new(left),
                                    right: Box::new(right),
                                    operator: op,
                                },
                            );
                            // an operator that climbed binds tighter than the
                            // lowest level, so it is infix-capable
                            assert(infix_capable(op));
                            lemma_infix_loop_parsed_form(toks, next, folded, min_prec);
                        },
                        Err(e) => {},
                    }
                }
            },
        }
    }
}

/// Whatever an expression parse builds is in parsed form.
proof fn lemma_parse_expression_parsed_form(toks: Seq<Token>, pos: int, min_prec: u8)
    requires
        0 <= pos,
    ensures
        spec_parse_expression(toks, pos, min_prec) matches Ok((e, p)) ==> parsed_form_expr(e),
    decreases toks.len() - pos, 2int,
{
    if pos >= toks.len() {
    } else {
        lemma_prefix_parse_parsed_form(toks, pos);
        match spec_prefix_parse(toks, pos) {
            Ok((left, p)) => {
                lemma_infix_loop_parsed_form(
                    toks,
                    clamped(p, pos, toks.len() as int),
                    left,
                    min_prec,
                );
            },
            Err(e) => {},
        }
    }
}

/// Whatever a statement parse builds is in parsed form.
proof fn lemma_parse_statement_parsed_form(toks: Seq<Token>, pos: int)
    requires
        0 <= pos < toks.len(),
    ensures
        spec_parse_statement(toks, pos) matches Ok((s, p)) ==> parsed_form_stmt(s),
{
    match toks[pos] {
        Token::Let => {
            lemma_parse_expression_parsed_form(toks, pos + 3, PREC_LOWEST);
        },
        Token::Return => {
            lemma_parse_expression_parsed_form(toks, pos + 1, PREC_LOWEST);
        },
        _ => {
            lemma_parse_expression_parsed_form(toks, pos, PREC_LOWEST);
        },
    }
}

proof fn lemma_parse_from_parsed_form(toks: Seq<Token>, pos: int)
    requires
        0 <= pos,
    ensures
        forall|k: int|
            0 <= k < spec_parse_from(toks, pos).0.len() ==> parsed_form_stmt(
                #[trigger] spec_parse_from(toks, pos).0[k],
            ),
    decreases toks.len() - pos,
{
    if pos >= toks.len() {
    } else {
        lemma_parse_statement_parsed_form(toks, pos);
        match spec_parse_statement(toks, pos) {
            Ok((s, p)) => {
                let next = clamped(p + 1, pos + 1, toks.len() as int);
                lemma_parse_from_parsed_form(toks, next);
                let ss = spec_parse_from(toks, pos).0;
                let rest = spec_parse_from(toks, next).0;
                assert(ss == seq![s] + rest);
                assert forall|k: int| 0 <= k < ss.len() implies parsed_form_stmt(
                    #[trigger] ss[k],
                ) by {
                    if k == 0 {
                        assert(ss[k] == s);
                    } else {
                        assert(ss[k] == rest[k - 1]);
                        assert(parsed_form_stmt(rest[k - 1]));
                    }
                }
            },
            Err((e, p)) => {
                let next = clamped(p + 1, pos + 1, toks.len() as int);
                lemma_parse_from_parsed_form(toks, next);
                assert(spec_parse_from(toks, pos).0 == spec_parse_from(toks, next).0);
            },
        }
    }
}

/// Every statement a parse produces is in parsed form, so rendering a parse
/// result and re-parsing the rendered tokens yields exactly the statements
/// the first parse produced, with no errors: the full round trip.
pub proof fn theorem_reparse_rendered_parse(toks: Seq<Token>)
    ensures
        forall|k: int|
            0 <= k < spec_parse_program(toks).0.len() ==> parsed_form_stmt(
                #[trigger] spec_parse_program(toks).0[k],
            ),
        spec_parse_program(render_program(spec_parse_program(toks).0)).0 == spec_parse_program(
            toks,
        ).0,
        spec_parse_program(render_program(spec_parse_program(toks).0)).1 == Seq::<
            ParseError,
        >::empty(),
{
    lemma_parse_from_parsed_form(toks, 0);
    theorem_render_round_trip(spec_parse_program(toks).0);
}

/// The token that denotes an operator tag.
pub fn token_of_operator(op: Operator) -> (t: Token)
    ensures
        t == operator_token(op),
{
    match op {
        Operator::Minus => Token::Minus,
        Operator::Plus => Token::Plus,
        Operator::Bang => Token::Bang,
        Operator::Asterisk => Token::Asterisk,
        Operator::Slash => Token::Slash,
        Operator::Eq => Token::Eq,
        Operator::NotEq => Token::NotEq,
        Operator::Lt => Token::Lt,
        Operator::Gt => Token::Gt,
        Operator::Lparen => Token::Lparen,
    }
}

/// Appends the rendered form of the expression, exactly as [`render_expr`]
/// states it.
pub fn render_expression(e: &Expression, out: &mut Vec<Token>)
    requires
        parsed_form_expr(*e),
    ensures
        final(out)@ == old(out)@ + render_expr(*e),
    decreases e,
{
    match e {
        Expression::Callable(c) => match c {
            CallableExpression::Identifier(id) => {
                out.push(Token::Ident(id.value.clone()));
                proof {
                    assert(out@ =~= old(out)@ + render_expr(*e));
                }
            },
            CallableExpression::FunctionLiteral(fl) => {
                proof {
                    assert(false);
                }
                vstd::pervasive::unreached()
            },
        },
        Expression::IntegerLiteral(il) => {
            out.push(Token::Int(il.value));
            proof {
                assert(out@ =~= old(out)@ + render_expr(*e));
            }
        },
        Expression::BooleanLiteral(bl) => {
            if bl.value {
                out.push(Token::True);
            } else {
                out.push(Token::False);
            }
            proof {
                assert(out@ =~= old(out)@ + render_expr(*e));
            }
        },
        Expression::Prefix(p) => {
            out.push(Token::Lparen);
            out.push(token_of_operator(p.operator));
            render_expression(&p.right, out);
            out.push(Token::Rparen);
            proof {
                assert(render_expr(*e) == seq![Token::Lparen, operator_token(p.operator)]
                    + render_expr(*p.right) + seq![Token::Rparen]);
                assert(out@ =~= old(out)@ + render_expr(*e));
            }
        },
        Expression::Infix(ix) => {
            out.push(Token::Lparen);
            render_expression(&ix.left, out);
            out.push(token_of_operator(ix.operator));
            render_expression(&ix.right, out);
            out.push(Token::Rparen);
            proof {
                assert(render_expr(*e) == seq![Token::Lparen] + render_expr(*ix.left) + seq![
                    operator_token(ix.operator),
                ] + render_expr(*ix.right) + seq![Token::Rparen]);
                assert(out@ =~= old(out)@ + render_expr(*e));
            }
        },
        _ => {
            proof {
                assert(false);
            }
            vstd::pervasive::unreached()
        },
    }
}

/// Appends the rendered form of the statement, exactly as [`render_stmt`]
/// states it.
pub fn render_statement(s: &Statement, out: &mut Vec<Token>)
    requires
        parsed_form_stmt(*s),
    ensures
        final(out)@ == old(out)@ + render_stmt(*s),
{
    match s {
        Statement::Let(ls) => {
            out.push(Token::Let);
            out.push(Token::Ident(ls.name.value.clone()));
            out.push(Token::Assign);
            render_expression(&ls.value, out);
            out.push(Token::Semicolon);
            proof {
                assert(out@ =~= old(out)@ + render_stmt(*s));
            }
        },
        Statement::Return(rs) => {
            out.push(Token::Return);
            render_expression(&rs.value, out);
            out.push(Token::Semicolon);
            proof {
                assert(out@ =~= old(out)@ + render_stmt(*s));
            }
        },
        Statement::Expression(es) => {
            render_expression(&es.expression, out);
            out.push(Token::Semicolon);
            proof {
                assert(out@ =~= old(out)@ + render_stmt(*s));
            }
        },
        Statement::Block(bs) => {
            proof {
                assert(false);
            }
            vstd::pervasive::unreached()
        },
    }
}

/// Appends the rendered form of the statements from index `i` on.
fn render_statements_from(statements: &Vec<Statement>, i: usize, out: &mut Vec<Token>)
    requires
        i <= statements@.len(),
        forall|k: int|
            i <= k < statements@.len() ==> parsed_form_stmt(#[trigger] statements@[k]),
    ensures
        final(out)@ == old(out)@ + render_program(
            statements@.subrange(i as int, statements@.len() as int),
        ),
    decreases statements@.len() - i,
{
    let ghost ss = statements@.subrange(i as int, statements@.len() as int);
    if i < statements.len() {
        render_statement(&statements[i], out);
        render_statements_from(statements, i + 1, out);
        proof {
            assert(ss[0] == statements@[i as int]);
            assert(ss.subrange(1, ss.len() as int) =~= statements@.subrange(
                i as int + 1,
                statements@.len() as int,
            ));
            assert(out@ =~= old(out)@ + render_program(ss));
        }
    } else {
        proof {
            assert(ss =~= Seq::<Statement>::empty());
            assert(out@ =~= old(out)@ + render_program(ss));
        }
    }
}

/// The rendered token stream of a program's statements; re-parsing it gives
/// the same statements back ([`theorem_render_round_trip`]).
pub fn render_tokens(program: &Program) -> (out: Vec<Token>)
    requires
        forall|k: int|
            0 <= k < program.statments@.len() ==> parsed_form_stmt(
                #[trigger] program.statments@[k],
            ),
    ensures
        out@ == render_program(program.statments@),
{
    let mut out: Vec<Token> = Vec::new();
    render_statements_from(&program.statments, 0, &mut out);
    proof {
        assert(program.statments@.subrange(0, program.statments@.len() as int)
            =~= program.statments@);
        assert(out@ =~= render_program(program.statments@));
    }
    out
}

} // verus!
