//! Laws of the parser, proved once and for all over the specification-level
//! parser (and so, through the executable parser's contracts, over every run
//! of [`crate::parser::Parser::parse_program`]).

use vstd::prelude::*;
use crate::ast::{Expression, InfixExpression, Statement, spec_operator_of};
use crate::parser::{
    PREC_LOWEST, PREC_PREFIX, clamped, spec_infix_loop, spec_parse_expression, spec_parse_from,
    spec_parse_program, spec_precedence, spec_prefix_parse,
};
use crate::token::Token;

verus! {

/// A prefix rule never moves backwards, and on success it stops on a real
/// token.
pub proof fn lemma_prefix_parse_progress(toks: Seq<Token>, pos: int)
    requires
        0 <= pos < toks.len(),
    ensures
        match spec_prefix_parse(toks, pos) {
            Ok((e, p)) => pos <= p < toks.len(),
            Err((e, p)) => pos <= p <= toks.len(),
        },
    decreases toks.len() - pos, 0int,
{
    match toks[pos] {
        Token::Bang => {
            lemma_parse_expression_progress(toks, pos + 1, PREC_PREFIX);
        },
        Token::Minus => {
            lemma_parse_expression_progress(toks, pos + 1, PREC_PREFIX);
        },
        Token::Lparen => {
            lemma_parse_expression_progress(toks, pos + 1, PREC_LOWEST);
        },
        _ => {},
    }
}

/// The climbing loop never moves backwards, never runs past the end of the
/// stream, and on success starting from a real token it stops on one.
pub proof fn lemma_infix_loop_progress(toks: Seq<Token>, pos: int, left: Expression, min_prec: u8)
    requires
        0 <= pos <= toks.len(),
    ensures
        match spec_infix_loop(toks, pos, left, min_prec) {
            Ok((e, p)) => pos <= p <= toks.len() && (pos < toks.len() ==> p < toks.len()),
            Err((e, p)) => pos <= p <= toks.len(),
        },
    decreases toks.len() - pos, 1int,
{
    if pos >= toks.len() || toks[pos] is Semicolon || pos + 1 >= toks.len() {
    } else {
        match spec_operator_of(toks[pos + 1]) {
            None => {},
            Some(op) => {
                if min_prec >= spec_precedence(op) {
                } else {
                    lemma_parse_expression_progress(toks, pos + 2, spec_precedence(op));
                    match spec_parse_expression(toks, pos + 2, spec_precedence(op)) {
                        Ok((right, p)) => {
                            let next = clamped(p, pos + 2, toks.len() as int);
                            let folded = Expression::Infix(
                                InfixExpression {
                                    left: Box::new(left),
                                    right: Box::new(right),
                                    operator: op,
                                },
                            );
                            lemma_infix_loop_progress(toks, next, folded, min_prec);
                        },
                        Err(e) => {},
                    }
                }
            },
        }
    }
}

/// An expression parse never moves backwards, never runs past the end of the
/// stream, and on success it stops on the expression's last token.
pub proof fn lemma_parse_expression_progress(toks: Seq<Token>, pos: int, min_prec: u8)
    requires
        0 <= pos <= toks.len(),
    ensures
        match spec_parse_expression(toks, pos, min_prec) {
            Ok((e, p)) => pos <= p < toks.len(),
            Err((e, p)) => pos <= p <= toks.len(),
        },
    decreases toks.len() - pos, 2int,
{
    if pos >= toks.len() {
    } else {
        lemma_prefix_parse_progress(toks, pos);
        match spec_prefix_parse(toks, pos) {
            Ok((left, p)) => {
                lemma_infix_loop_progress(
                    toks,
                    clamped(p, pos, toks.len() as int),
                    left,
                    min_prec,
                );
            },
            Err(e) => {},
        }
    }
}

/// The input from `pos` on consists only of well-formed `return <expr>;`
/// statements: each starts with the `return` keyword, its value parses as a
/// full expression at the lowest precedence, a statement separator follows,
/// and the next statement starts right after it, up to the end of the stream.
pub open spec fn wf_return_statements(toks: Seq<Token>, pos: int) -> bool
    decreases toks.len() - pos,
    when 0 <= pos <= toks.len()
{
    if pos == toks.len() {
        true
    } else {
        &&& toks[pos] is Return
        &&& match spec_parse_expression(toks, pos + 1, PREC_LOWEST) {
            Ok((e, p)) => p + 1 < toks.len() && toks[p + 1] is Semicolon
                && wf_return_statements(toks, clamped(p + 2, pos + 1, toks.len() as int)),
            Err(e) => false,
        }
    }
}

/// How many `return <expr>;` statements the input from `pos` on holds.
pub open spec fn return_statement_count(toks: Seq<Token>, pos: int) -> nat
    decreases toks.len() - pos,
    when 0 <= pos <= toks.len()
{
    if pos == toks.len() {
        0
    } else {
        match spec_parse_expression(toks, pos + 1, PREC_LOWEST) {
            Ok((e, p)) => 1 + return_statement_count(
                toks,
                clamped(p + 2, pos + 1, toks.len() as int),
            ),
            Err(e) => 0,
        }
    }
}

proof fn lemma_return_statements_from(toks: Seq<Token>, pos: int)
    requires
        0 <= pos <= toks.len(),
        wf_return_statements(toks, pos),
    ensures
        spec_parse_from(toks, pos).1.len() == 0,
        spec_parse_from(toks, pos).0.len() == return_statement_count(toks, pos),
        forall|i: int|
            0 <= i < spec_parse_from(toks, pos).0.len() ==> spec_parse_from(toks, pos).0[i]
                is Return,
    decreases toks.len() - pos,
{
    if pos == toks.len() {
    } else {
        lemma_parse_expression_progress(toks, pos + 1, PREC_LOWEST);
        match spec_parse_expression(toks, pos + 1, PREC_LOWEST) {
            Ok((e, p)) => {
                lemma_return_statements_from(toks, p + 2);
                let ss = spec_parse_from(toks, pos).0;
                let rest = spec_parse_from(toks, p + 2).0;
                assert forall|i: int| 0 <= i < ss.len() implies ss[i] is Return by {
                    if i > 0 {
                        assert(ss[i] == rest[i - 1]);
                    }
                }
            },
            Err(e) => {},
        }
    }
}

/// For an input consisting only of well-formed `return <expr>;` statements,
/// parsing yields no errors and exactly one statement per source statement,
/// each tagged `Return`.
pub proof fn theorem_return_statements(toks: Seq<Token>)
    requires
        wf_return_statements(toks, 0),
    ensures
        spec_parse_program(toks).1.len() == 0,
        spec_parse_program(toks).0.len() == return_statement_count(toks, 0),
        forall|i: int|
            0 <= i < spec_parse_program(toks).0.len() ==> spec_parse_program(toks).0[i] is Return,
{
    lemma_return_statements_from(toks, 0);
}

/// The input from `pos` on consists only of well-formed
/// `let <name> = <expr>;` statements: each starts with the `let` keyword
/// followed by an identifier and the assignment marker, the bound value
/// parses as a full expression at the lowest precedence, a statement
/// separator follows, and the next statement starts right after it, up to the
/// end of the stream.
pub open spec fn wf_let_statements(toks: Seq<Token>, pos: int) -> bool
    decreases toks.len() - pos,
    when 0 <= pos <= toks.len()
{
    if pos == toks.len() {
        true
    } else {
        &&& toks[pos] is Let
        &&& pos + 1 < toks.len() && toks[pos + 1] is Ident
        &&& pos + 2 < toks.len() && toks[pos + 2] is Assign
        &&& match spec_parse_expression(toks, pos + 3, PREC_LOWEST) {
            Ok((e, p)) => p + 1 < toks.len() && toks[p + 1] is Semicolon
                && wf_let_statements(toks, clamped(p + 2, pos + 1, toks.len() as int)),
            Err(e) => false,
        }
    }
}

/// The names bound by the `let` statements from `pos` on, in source order.
pub open spec fn let_statement_names(toks: Seq<Token>, pos: int) -> Seq<Seq<char>>
    decreases toks.len() - pos,
    when 0 <= pos <= toks.len()
{
    if pos == toks.len() {
        Seq::empty()
    } else {
        match spec_parse_expression(toks, pos + 3, PREC_LOWEST) {
            Ok((e, p)) => seq![toks[pos + 1]->Ident_0@] + let_statement_names(
                toks,
                clamped(p + 2, pos + 1, toks.len() as int),
            ),
            Err(e) => Seq::empty(),
        }
    }
}

proof fn lemma_let_statements_from(toks: Seq<Token>, pos: int)
    requires
        0 <= pos <= toks.len(),
        wf_let_statements(toks, pos),
    ensures
        spec_parse_from(toks, pos).1.len() == 0,
        spec_parse_from(toks, pos).0.len() == let_statement_names(toks, pos).len(),
        forall|i: int|
            0 <= i < spec_parse_from(toks, pos).0.len() ==> #[trigger] spec_parse_from(
                toks,
                pos,
            ).0[i] is Let && spec_parse_from(toks, pos).0[i]->Let_0.name.value@
                == let_statement_names(toks, pos)[i],
    decreases toks.len() - pos,
{
    if pos == toks.len() {
    } else {
        lemma_parse_expression_progress(toks, pos + 3, PREC_LOWEST);
        match spec_parse_expression(toks, pos + 3, PREC_LOWEST) {
            Ok((e, p)) => {
                lemma_let_statements_from(toks, p + 2);
                let ss = spec_parse_from(toks, pos).0;
                let rest = spec_parse_from(toks, p + 2).0;
                let names = let_statement_names(toks, pos);
                let rest_names = let_statement_names(toks, p + 2);
                assert forall|i: int| 0 <= i < ss.len() implies #[trigger] ss[i] is Let
                    && ss[i]->Let_0.name.value@ == names[i] by {
                    if i > 0 {
                        assert(ss[i] == rest[i - 1]);
                        assert(names[i] == rest_names[i - 1]);
                    }
                }
            },
            Err(e) => {},
        }
    }
}

/// For an input consisting only of well-formed `let <name> = <expr>;`
/// statements, parsing yields no errors and exactly one `Let` statement per
/// source statement, whose bound name matches the source identifier, in
/// order.
pub proof fn theorem_let_statements(toks: Seq<Token>)
    requires
        wf_let_statements(toks, 0),
    ensures
        spec_parse_program(toks).1.len() == 0,
        spec_parse_program(toks).0.len() == let_statement_names(toks, 0).len(),
        forall|i: int|
            0 <= i < spec_parse_program(toks).0.len() ==> #[trigger] spec_parse_program(
                toks,
            ).0[i] is Let && spec_parse_program(toks).0[i]->Let_0.name.value@
                == let_statement_names(toks, 0)[i],
{
    lemma_let_statements_from(toks, 0);
}

} // verus!
