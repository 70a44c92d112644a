use pratt_parser::ast::{
    CallableExpression, Expression, Identifier, Operator, ParseError, Statement,
};
use pratt_parser::parser::Parser;
use pratt_parser::token::{Token, TokenKind};

/// A small tokenizer for the tests: the library itself takes a finished
/// token stream, so the tests play the part of the external lexer.
fn lex(input: &str) -> Vec<Token> {
    let bytes = input.as_bytes();
    let mut tokens = Vec::new();
    let mut i = 0;
    while i < bytes.len() {
        let c = bytes[i] as char;
        if c.is_whitespace() {
            i += 1;
            continue;
        }
        match c {
            '=' => {
                if i + 1 < bytes.len() && bytes[i + 1] == b'=' {
                    tokens.push(Token::Eq);
                    i += 2;
                } else {
                    tokens.push(Token::Assign);
                    i += 1;
                }
            }
            '!' => {
                if i + 1 < bytes.len() && bytes[i + 1] == b'=' {
                    tokens.push(Token::NotEq);
                    i += 2;
                } else {
                    tokens.push(Token::Bang);
                    i += 1;
                }
            }
            '+' => {
                tokens.push(Token::Plus);
                i += 1;
            }
            '-' => {
                tokens.push(Token::Minus);
                i += 1;
            }
            '*' => {
                tokens.push(Token::Asterisk);
                i += 1;
            }
            '/' => {
                tokens.push(Token::Slash);
                i += 1;
            }
            '<' => {
                tokens.push(Token::Lt);
                i += 1;
            }
            '>' => {
                tokens.push(Token::Gt);
                i += 1;
            }
            '(' => {
                tokens.push(Token::Lparen);
                i += 1;
            }
            ')' => {
                tokens.push(Token::Rparen);
                i += 1;
            }
            '{' => {
                tokens.push(Token::Lbrace);
                i += 1;
            }
            '}' => {
                tokens.push(Token::Rbrace);
                i += 1;
            }
            ',' => {
                tokens.push(Token::Comma);
                i += 1;
            }
            ';' => {
                tokens.push(Token::Semicolon);
                i += 1;
            }
            c if c.is_ascii_digit() => {
                let start = i;
                while i < bytes.len() && (bytes[i] as char).is_ascii_digit() {
                    i += 1;
                }
                let value: i32 = input[start..i].parse().unwrap();
                tokens.push(Token::Int(value));
            }
            c if c.is_ascii_alphabetic() || c == '_' => {
                let start = i;
                while i < bytes.len()
                    && ((bytes[i] as char).is_ascii_alphanumeric() || bytes[i] == b'_')
                {
                    i += 1;
                }
                let word = &input[start..i];
                tokens.push(match word {
                    "let" => Token::Let,
                    "return" => Token::Return,
                    "true" => Token::True,
                    "false" => Token::False,
                    "fn" => Token::Function,
                    "if" => Token::If,
                    "else" => Token::Else,
                    _ => Token::Ident(word.to_string()),
                });
            }
            other => panic!("unexpected character in test input: {}", other),
        }
    }
    tokens
}

fn parse(input: &str) -> pratt_parser::ast::Program {
    Parser::new(lex(input)).parse_program()
}

fn ident(name: &str) -> Expression {
    Expression::Callable(CallableExpression::Identifier(Identifier {
        value: name.to_string(),
    }))
}

fn int_lit(value: i32) -> Expression {
    Expression::IntegerLiteral(pratt_parser::ast::IntegerLiteral { value })
}

fn infix(left: Expression, operator: Operator, right: Expression) -> Expression {
    Expression::Infix(pratt_parser::ast::InfixExpression {
        left: Box::new(left),
        right: Box::new(right),
        operator,
    })
}

fn prefix(operator: Operator, right: Expression) -> Expression {
    Expression::Prefix(pratt_parser::ast::PrefixExpression {
        right: Box::new(right),
        operator,
    })
}

fn test_let_statement(statement: &Statement, val: &str) {
    if let Statement::Let(statement) = statement {
        assert_eq!(
            statement.name.value.as_str(),
            val,
            "name value do not match: {}, {}",
            statement.name.value.as_str(),
            val
        );
    } else {
        assert!(false, "statment was not let: {:?}", statement);
    }
}

fn test_int_literal(exp: &Expression, val: i32) {
    match exp {
        Expression::IntegerLiteral(integer) => {
            assert_eq!(integer.value, val);
        }
        _ => panic!("expression is not integer literal"),
    }
}

fn test_bool_literal(exp: &Expression, val: bool) {
    match exp {
        Expression::BooleanLiteral(b) => {
            assert_eq!(b.value, val);
        }
        _ => panic!("expression is not bool literal"),
    }
}

fn test_identifier_exp(exp: &Expression, val: String) {
    match exp {
        Expression::Callable(CallableExpression::Identifier(ident)) => {
            assert_eq!(ident.value, val);
        }
        _ => panic!("expression is not identifier"),
    }
}

#[test]
fn test_return_statements() {
    let input = "
return 5;
return 10;
return 838383;
";
    let program = parse(input);

    assert_eq!(
        3,
        program.statments.len(),
        "invalid number of statements: {}",
        program.statments.len()
    );

    for stmt in program.statments {
        match stmt {
            Statement::Return(_) => continue,
            _ => {
                panic!("Not found return statement")
            }
        };
    }
}

#[test]
fn test_let_statements() {
    let input = "
let x = 5;
let y = 10;
let foobar = 838383;
";
    let program = parse(input);

    assert_eq!(
        3,
        program.statments.len(),
        "invalid number of statements: {}",
        program.statments.len()
    );

    let tests = vec![
        Identifier {
            value: "x".to_string(),
        },
        Identifier {
            value: "y".to_string(),
        },
        Identifier {
            value: "foobar".to_string(),
        },
    ];

    for (i, ident) in tests.iter().enumerate() {
        let stmt = program.statments.get(i).unwrap();
        test_let_statement(stmt, &ident.value);
    }
}

#[test]
fn test_identifier_expression() {
    let program = parse("foobar;");

    assert_eq!(
        1,
        program.statments.len(),
        "invalid number of statements: {}",
        program.statments.len()
    );

    let stmt = program.statments.get(0).unwrap();

    match stmt {
        Statement::Expression(exp) => test_identifier_exp(&exp.expression, "foobar".to_string()),
        _ => panic!("Statment is not identifier expression"),
    }
}

#[test]
fn test_integer_literal_expression() {
    let program = parse("5;");

    assert_eq!(
        1,
        program.statments.len(),
        "invalid number of statements: {}",
        program.statments.len()
    );

    let stmt = program.statments.get(0).unwrap();

    match stmt {
        Statement::Expression(exp) => {
            test_int_literal(&exp.expression, 5);
        }
        _ => panic!("Statment is not identifier expression"),
    }
}

#[test]
fn test_bool_literal_expression() {
    let program = parse("true;");

    assert_eq!(
        1,
        program.statments.len(),
        "invalid number of statements: {}",
        program.statments.len()
    );

    let stmt = program.statments.get(0).unwrap();

    match stmt {
        Statement::Expression(exp) => {
            test_bool_literal(&exp.expression, true);
        }
        _ => panic!("Statment is not identifier expression"),
    }
}

#[test]
fn test_prefix_expressions() {
    let tests = vec![
        ("!5".to_string(), Operator::Bang, 5),
        ("-15".to_string(), Operator::Minus, 15),
    ];

    for (input, operator, value) in tests {
        let program = parse(&input);

        assert_eq!(
            1,
            program.statments.len(),
            "invalid number of statements: {}",
            program.statments.len()
        );

        let stmt = program.statments.get(0).unwrap();

        match stmt {
            Statement::Expression(exp) => match &exp.expression {
                Expression::Prefix(exp) => {
                    assert_eq!(exp.operator, operator);
                    test_int_literal(&exp.right, value);
                }
                _ => panic!("Prefix not found expression"),
            },
            _ => panic!("Statment is not identifier expression"),
        }
    }
}

#[test]
fn test_infix_expressions() {
    let tests = vec![
        ("5 + 5;".to_string(), Operator::Plus, 5, 5),
        ("5 - 5;".to_string(), Operator::Minus, 5, 5),
        ("5 * 5;".to_string(), Operator::Asterisk, 5, 5),
        ("5 / 5;".to_string(), Operator::Slash, 5, 5),
        ("5 > 5;".to_string(), Operator::Gt, 5, 5),
        ("5 < 5;".to_string(), Operator::Lt, 5, 5),
        ("5 != 5;".to_string(), Operator::NotEq, 5, 5),
        ("5 == 5;".to_string(), Operator::Eq, 5, 5),
    ];

    for (input, operator, left, right) in tests {
        let program = parse(&input);

        assert_eq!(
            1,
            program.statments.len(),
            "invalid number of statements: {}",
            program.statments.len()
        );

        let stmt = program.statments.get(0).unwrap();

        match stmt {
            Statement::Expression(exp) => match &exp.expression {
                Expression::Infix(exp) => {
                    assert_eq!(exp.operator, operator);
                    test_int_literal(&exp.right, right);
                    test_int_literal(&exp.left, left);
                }
                _ => panic!("Prefix not found expression"),
            },
            _ => panic!("Statment is not identifier expression"),
        }
    }
}

#[test]
fn test_playground() {
    let program = parse("(-(5 + 5))");

    assert_eq!(
        1,
        program.statments.len(),
        "invalid number of statements: {}",
        program.statments.len()
    );
}

#[test]
fn nested_grouping_shape() {
    let program = parse("(-(5 + 5))");

    assert_eq!(program.errors.len(), 0);
    assert_eq!(program.statments.len(), 1);
    let expected = prefix(Operator::Minus, infix(int_lit(5), Operator::Plus, int_lit(5)));
    match &program.statments[0] {
        Statement::Expression(exp) => assert_eq!(exp.expression, expected),
        _ => panic!("expected an expression statement"),
    }
}

#[test]
fn multiplication_binds_tighter_than_addition() {
    let program = parse("a + b * c");

    assert_eq!(program.errors.len(), 0);
    assert_eq!(program.statments.len(), 1);
    let expected = infix(
        ident("a"),
        Operator::Plus,
        infix(ident("b"), Operator::Asterisk, ident("c")),
    );
    match &program.statments[0] {
        Statement::Expression(exp) => assert_eq!(exp.expression, expected),
        _ => panic!("expected an expression statement"),
    }
}

#[test]
fn equal_precedence_binds_left() {
    let program = parse("a - b - c");

    assert_eq!(program.errors.len(), 0);
    assert_eq!(program.statments.len(), 1);
    let expected = infix(
        infix(ident("a"), Operator::Minus, ident("b")),
        Operator::Minus,
        ident("c"),
    );
    match &program.statments[0] {
        Statement::Expression(exp) => assert_eq!(exp.expression, expected),
        _ => panic!("expected an expression statement"),
    }
}

#[test]
fn grouping_is_structurally_transparent() {
    let program = parse("(a + b) * c");

    assert_eq!(program.errors.len(), 0);
    assert_eq!(program.statments.len(), 1);
    let expected = infix(
        infix(ident("a"), Operator::Plus, ident("b")),
        Operator::Asterisk,
        ident("c"),
    );
    match &program.statments[0] {
        Statement::Expression(exp) => assert_eq!(exp.expression, expected),
        _ => panic!("expected an expression statement"),
    }
}

#[test]
fn comparison_binds_looser_than_arithmetic() {
    let program = parse("a + b > c * d;");

    assert_eq!(program.errors.len(), 0);
    assert_eq!(program.statments.len(), 1);
    let expected = infix(
        infix(ident("a"), Operator::Plus, ident("b")),
        Operator::Gt,
        infix(ident("c"), Operator::Asterisk, ident("d")),
    );
    match &program.statments[0] {
        Statement::Expression(exp) => assert_eq!(exp.expression, expected),
        _ => panic!("expected an expression statement"),
    }
}

#[test]
fn prefix_binds_tighter_than_infix() {
    let program = parse("-a * b;");

    assert_eq!(program.errors.len(), 0);
    assert_eq!(program.statments.len(), 1);
    let expected = infix(
        prefix(Operator::Minus, ident("a")),
        Operator::Asterisk,
        ident("b"),
    );
    match &program.statments[0] {
        Statement::Expression(exp) => assert_eq!(exp.expression, expected),
        _ => panic!("expected an expression statement"),
    }
}

#[test]
fn bang_with_equality() {
    let program = parse("!true == false;");

    assert_eq!(program.errors.len(), 0);
    assert_eq!(program.statments.len(), 1);
    let expected = infix(
        prefix(
            Operator::Bang,
            Expression::BooleanLiteral(pratt_parser::ast::BooleanLiteral { value: true }),
        ),
        Operator::Eq,
        Expression::BooleanLiteral(pratt_parser::ast::BooleanLiteral { value: false }),
    );
    match &program.statments[0] {
        Statement::Expression(exp) => assert_eq!(exp.expression, expected),
        _ => panic!("expected an expression statement"),
    }
}

#[test]
fn let_value_is_parsed_as_full_expression() {
    let program = parse("let x = 1 + 2 * 3;");

    assert_eq!(program.errors.len(), 0);
    assert_eq!(program.statments.len(), 1);
    let expected = infix(
        int_lit(1),
        Operator::Plus,
        infix(int_lit(2), Operator::Asterisk, int_lit(3)),
    );
    match &program.statments[0] {
        Statement::Let(stmt) => {
            assert_eq!(stmt.name.value, "x");
            assert_eq!(stmt.value, expected);
        }
        _ => panic!("expected a let statement"),
    }
}

#[test]
fn return_value_is_parsed_as_full_expression() {
    let program = parse("return 2 + 3;");

    assert_eq!(program.errors.len(), 0);
    assert_eq!(program.statments.len(), 1);
    let expected = infix(int_lit(2), Operator::Plus, int_lit(3));
    match &program.statments[0] {
        Statement::Return(stmt) => assert_eq!(stmt.value, expected),
        _ => panic!("expected a return statement"),
    }
}

#[test]
fn new_program_is_empty() {
    let program = pratt_parser::ast::Program::new();
    assert!(program.statments.is_empty());
    assert!(program.errors.is_empty());
}

#[test]
fn empty_input_yields_empty_program() {
    let program = parse("");

    assert_eq!(program.statments.len(), 0);
    assert_eq!(program.errors.len(), 0);
}

#[test]
fn trailing_expression_without_separator() {
    let program = parse("a");

    assert_eq!(program.errors.len(), 0);
    assert_eq!(program.statments.len(), 1);
    match &program.statments[0] {
        Statement::Expression(exp) => assert_eq!(exp.expression, ident("a")),
        _ => panic!("expected an expression statement"),
    }
}

#[test]
fn malformed_let_missing_assign_is_isolated() {
    let program = parse("let x 5;");

    assert!(!program.errors.is_empty());
    assert_eq!(
        program.errors[0],
        ParseError::UnexpectedToken {
            expected: TokenKind::Assign,
            got: Some(Token::Int(5)),
        }
    );
}

#[test]
fn let_without_identifier_reports_expected_identifier() {
    let program = parse("let = 5;");

    // recovery advances a single token, so the stray `=` also draws a
    // no-prefix-rule error after the let statement's own failure
    assert_eq!(
        program.errors,
        vec![
            ParseError::UnexpectedToken {
                expected: TokenKind::Ident,
                got: Some(Token::Assign),
            },
            ParseError::NoPrefixRule { token: Token::Assign },
        ]
    );
}

#[test]
fn return_without_separator_reports_expected_separator() {
    let program = parse("return 5");

    assert_eq!(program.statments.len(), 0);
    assert_eq!(
        program.errors,
        vec![ParseError::UnexpectedToken {
            expected: TokenKind::Semicolon,
            got: None,
        }]
    );
}

#[test]
fn missing_closing_parenthesis_is_reported() {
    let program = parse("(5");

    assert_eq!(
        program.errors,
        vec![ParseError::UnexpectedToken {
            expected: TokenKind::Rparen,
            got: None,
        }]
    );
}

#[test]
fn token_without_prefix_rule_is_reported() {
    let program = parse("+");

    assert_eq!(program.statments.len(), 0);
    assert_eq!(
        program.errors,
        vec![ParseError::NoPrefixRule { token: Token::Plus }]
    );
}

#[test]
fn dangling_prefix_operator_reports_exhaustion() {
    let program = parse("-");

    assert_eq!(program.statments.len(), 0);
    assert_eq!(program.errors, vec![ParseError::UnexpectedEnd]);
}

#[test]
fn operator_conversion_covers_exactly_the_operator_tokens() {
    assert_eq!(Operator::from_token(&Token::Plus), Some(Operator::Plus));
    assert_eq!(Operator::from_token(&Token::Minus), Some(Operator::Minus));
    assert_eq!(Operator::from_token(&Token::Bang), Some(Operator::Bang));
    assert_eq!(
        Operator::from_token(&Token::Asterisk),
        Some(Operator::Asterisk)
    );
    assert_eq!(Operator::from_token(&Token::Slash), Some(Operator::Slash));
    assert_eq!(Operator::from_token(&Token::Lt), Some(Operator::Lt));
    assert_eq!(Operator::from_token(&Token::Gt), Some(Operator::Gt));
    assert_eq!(Operator::from_token(&Token::Eq), Some(Operator::Eq));
    assert_eq!(Operator::from_token(&Token::NotEq), Some(Operator::NotEq));
    assert_eq!(Operator::from_token(&Token::Lparen), Some(Operator::Lparen));
    assert_eq!(Operator::from_token(&Token::Semicolon), None);
    assert_eq!(Operator::from_token(&Token::Let), None);
    assert_eq!(Operator::from_token(&Token::Ident("x".to_string())), None);
}

#[test]
fn error_messages_name_token_and_expectation() {
    assert_eq!(parse("let x 5;").errors[0].message(), "expected =, got 5");
    assert_eq!(parse("(5").errors[0].message(), "expected ), got end of input");
    assert_eq!(
        parse("+").errors[0].message(),
        "no prefix parse rule for token +"
    );
    assert_eq!(
        parse("-").errors[0].message(),
        "cannot parse expression: end of input"
    );
    assert_eq!(
        parse("let = 1;").errors[0].message(),
        "expected identifier, got ="
    );
    assert_eq!(parse("return 5").errors[0].message(), "expected ;, got end of input");
}

#[test]
fn token_text_spells_tokens() {
    assert_eq!(Token::Ident("foo".to_string()).text(), "foo");
    assert_eq!(Token::Int(7).text(), "7");
    assert_eq!(Token::Int(-42).text(), "-42");
    assert_eq!(Token::NotEq.text(), "!=");
    assert_eq!(Token::Function.text(), "fn");
    assert_eq!(TokenKind::Ident.text(), "identifier");
    assert_eq!(TokenKind::Semicolon.text(), ";");
}

#[test]
fn rendered_program_reparses_identically() {
    let program = parse("let x = 1 + 2 * 3; return (a + b) * c; !true == false; -x / y;");
    assert!(program.errors.is_empty());

    let tokens = pratt_parser::render::render_tokens(&program);
    let reparsed = Parser::new(tokens).parse_program();

    assert!(reparsed.errors.is_empty());
    assert_eq!(reparsed.statments, program.statments);
}

#[test]
fn render_emits_fully_parenthesized_tokens() {
    let program = parse("1 + 2;");
    assert!(program.errors.is_empty());

    let tokens = pratt_parser::render::render_tokens(&program);
    assert_eq!(
        tokens,
        vec![
            Token::Lparen,
            Token::Int(1),
            Token::Plus,
            Token::Int(2),
            Token::Rparen,
            Token::Semicolon,
        ]
    );
}

#[test]
fn failed_statement_contributes_error_not_statement() {
    let program = parse("let x 5; return 7;");

    // the malformed let contributes exactly one error; recovery then picks
    // up again, and the well-formed return statement still parses
    assert_eq!(program.errors.len(), 1);
    assert!(program
        .statments
        .iter()
        .any(|s| matches!(s, Statement::Return(_))));
}
