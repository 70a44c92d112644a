//! Lexical tokens, as handed over by an external tokenizer.
//!
//! Tokenizing raw text is outside this library's scope: a caller runs its own
//! lexer and supplies the finished token stream. The parser only needs to
//! recognise each token's kind and to read the payload of identifier and
//! integer tokens.

use vstd::prelude::*;
use vstd::string::StringExecFns;
use crate::text::{decimal_string, spec_decimal_digits};

verus! {

/// A classified lexical unit: keyword, identifier, literal, operator or
/// delimiter.
#[derive(Debug, PartialEq, Eq)]
pub enum Token {
    Ident(String),
    Int(i32),
    True,
    False,
    Assign,
    Plus,
    Minus,
    Bang,
    Asterisk,
    Slash,
    Lt,
    Gt,
    Eq,
    NotEq,
    Comma,
    Semicolon,
    Lparen,
    Rparen,
    Lbrace,
    Rbrace,
    Let,
    Function,
    Return,
    If,
    Else,
}

/// A token's kind without its payload; diagnostics name the kind a parse
/// step expected to see.
#[derive(Debug, PartialEq, Eq, Clone, Copy)]
pub enum TokenKind {
    Ident,
    Int,
    True,
    False,
    Assign,
    Plus,
    Minus,
    Bang,
    Asterisk,
    Slash,
    Lt,
    Gt,
    Eq,
    NotEq,
    Comma,
    Semicolon,
    Lparen,
    Rparen,
    Lbrace,
    Rbrace,
    Let,
    Function,
    Return,
    If,
    Else,
}

/// The text a token shows in a diagnostic: an identifier by its name, an
/// integer in decimal, every other token by its source spelling.
pub open spec fn spec_token_text(t: Token) -> Seq<char> {
    match t {
        Token::Ident(name) => name@,
        Token::Int(value) => if value < 0 {
            seq!['-'] + spec_decimal_digits((-value) as nat)
        } else {
            spec_decimal_digits(value as nat)
        },
        Token::True => "true"@,
        Token::False => "false"@,
        Token::Assign => "="@,
        Token::Plus => "+"@,
        Token::Minus => "-"@,
        Token::Bang => "!"@,
        Token::Asterisk => "*"@,
        Token::Slash => "/"@,
        Token::Lt => "<"@,
        Token::Gt => ">"@,
        Token::Eq => "=="@,
        Token::NotEq => "!="@,
        Token::Comma => ","@,
        Token::Semicolon => ";"@,
        Token::Lparen => "("@,
        Token::Rparen => ")"@,
        Token::Lbrace => "{"@,
        Token::Rbrace => "}"@,
        Token::Let => "let"@,
        Token::Function => "fn"@,
        Token::Return => "return"@,
        Token::If => "if"@,
        Token::Else => "else"@,
    }
}

/// The text a token kind shows in a diagnostic when a specific kind was
/// required: the payload-carrying kinds by name, the rest by their spelling.
pub open spec fn spec_kind_text(k: TokenKind) -> Seq<char> {
    match k {
        TokenKind::Ident => "identifier"@,
        TokenKind::Int => "integer"@,
        TokenKind::True => "true"@,
        TokenKind::False => "false"@,
        TokenKind::Assign => "="@,
        TokenKind::Plus => "+"@,
        TokenKind::Minus => "-"@,
        TokenKind::Bang => "!"@,
        TokenKind::Asterisk => "*"@,
        TokenKind::Slash => "/"@,
        TokenKind::Lt => "<"@,
        TokenKind::Gt => ">"@,
        TokenKind::Eq => "=="@,
        TokenKind::NotEq => "!="@,
        TokenKind::Comma => ","@,
        TokenKind::Semicolon => ";"@,
        TokenKind::Lparen => "("@,
        TokenKind::Rparen => ")"@,
        TokenKind::Lbrace => "{"@,
        TokenKind::Rbrace => "}"@,
        TokenKind::Let => "let"@,
        TokenKind::Function => "fn"@,
        TokenKind::Return => "return"@,
        TokenKind::If => "if"@,
        TokenKind::Else => "else"@,
    }
}

impl TokenKind {
    /// The kind's diagnostic text, exactly as [`spec_kind_text`] states.
    pub fn text(&self) -> (s: &'static str)
        ensures
            s@ == spec_kind_text(*self),
    {
        match self {
            TokenKind::Ident => "identifier",
            TokenKind::Int => "integer",
            TokenKind::True => "true",
            TokenKind::False => "false",
            TokenKind::Assign => "=",
            TokenKind::Plus => "+",
            TokenKind::Minus => "-",
            TokenKind::Bang => "!",
            TokenKind::Asterisk => "*",
            TokenKind::Slash => "/",
            TokenKind::Lt => "<",
            TokenKind::Gt => ">",
            TokenKind::Eq => "==",
            TokenKind::NotEq => "!=",
            TokenKind::Comma => ",",
            TokenKind::Semicolon => ";",
            TokenKind::Lparen => "(",
            TokenKind::Rparen => ")",
            TokenKind::Lbrace => "{",
            TokenKind::Rbrace => "}",
            TokenKind::Let => "let",
            TokenKind::Function => "fn",
            TokenKind::Return => "return",
            TokenKind::If => "if",
            TokenKind::Else => "else",
        }
    }
}

impl Token {
    /// The token's diagnostic text, exactly as [`spec_token_text`] states.
    pub fn text(&self) -> (s: String)
        ensures
            s@ == spec_token_text(*self),
    {
        match self {
            Token::Ident(name) => name.clone(),
            Token::Int(value) => {
                if *value < 0 {
                    let magnitude: u64 = (-(*value as i64)) as u64;
                    let mut s = String::from_str("-");
                    let digits = decimal_string(magnitude);
                    s.append(digits.as_str());
                    proof {
                        reveal_strlit("-");
                        assert("-"@ =~= seq!['-']);
                        assert(s@ =~= spec_token_text(*self));
                    }
                    s
                } else {
                    decimal_string(*value as u64)
                }
            },
            Token::True => String::from_str("true"),
            Token::False => String::from_str("false"),
            Token::Assign => String::from_str("="),
            Token::Plus => String::from_str("+"),
            Token::Minus => String::from_str("-"),
            Token::Bang => String::from_str("!"),
            Token::Asterisk => String::from_str("*"),
            Token::Slash => String::from_str("/"),
            Token::Lt => String::from_str("<"),
            Token::Gt => String::from_str(">"),
            Token::Eq => String::from_str("=="),
            Token::NotEq => String::from_str("!="),
            Token::Comma => String::from_str(","),
            Token::Semicolon => String::from_str(";"),
            Token::Lparen => String::from_str("("),
            Token::Rparen => String::from_str(")"),
            Token::Lbrace => String::from_str("{"),
            Token::Rbrace => String::from_str("}"),
            Token::Let => String::from_str("let"),
            Token::Function => String::from_str("fn"),
            Token::Return => String::from_str("return"),
            Token::If => String::from_str("if"),
            Token::Else => String::from_str("else"),
        }
    }

    /// An exact copy of the token, known to equal the original.
    pub fn duplicate(&self) -> (t: Token)
        ensures
            t == *self,
    {
        match self {
            Token::Ident(name) => Token::Ident(name.clone()),
            Token::Int(value) => Token::Int(*value),
            Token::True => Token::True,
            Token::False => Token::False,
            Token::Assign => Token::Assign,
            Token::Plus => Token::Plus,
            Token::Minus => Token::Minus,
            Token::Bang => Token::Bang,
            Token::Asterisk => Token::Asterisk,
            Token::Slash => Token::Slash,
            Token::Lt => Token::Lt,
            Token::Gt => Token::Gt,
            Token::Eq => Token::Eq,
            Token::NotEq => Token::NotEq,
            Token::Comma => Token::Comma,
            Token::Semicolon => Token::Semicolon,
            Token::Lparen => Token::Lparen,
            Token::Rparen => Token::Rparen,
            Token::Lbrace => Token::Lbrace,
            Token::Rbrace => Token::Rbrace,
            Token::Let => Token::Let,
            Token::Function => Token::Function,
            Token::Return => Token::Return,
            Token::If => Token::If,
            Token::Else => Token::Else,
        }
    }
}

} // verus!
