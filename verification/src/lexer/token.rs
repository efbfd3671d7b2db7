//! The vocabulary shared by the lexer and the parser.

use vstd::prelude::*;
use vstd::std_specs::cmp::PartialEqSpecImpl;

verus! {

/// The lexical category of a token.
#[derive(Clone, Copy, Debug, PartialEq, Eq, Structural)]
pub enum TokenKind {
    Ident,
    Int,
    Assign,
    Plus,
    Minus,
    Bang,
    Asterisk,
    Slash,
    Lt,
    Gt,
    Eq,
    NotEq,
    Comma,
    Semicolon,
    LParen,
    RParen,
    LBrace,
    RBrace,
    Function,
    Let,
    True,
    False,
    If,
    Else,
    Return,
    Illegal,
    Eof,
}

/// One lexical unit of the source text.
///
/// Identifiers and integer literals carry their spelling; every other
/// token is determined by its category alone.
#[allow(non_camel_case_types)]
#[derive(Debug)]
pub enum Token {
    IDENT(String),
    INT(String),
    ASSIGN,
    PLUS,
    MINUS,
    BANG,
    ASTERISK,
    SLASH,
    LT,
    GT,
    EQ,
    NOT_EQ,
    COMMA,
    SEMICOLON,
    LPAREN,
    RPAREN,
    LBRACE,
    RBRACE,
    FUNCTION,
    LET,
    TRUE,
    FALSE,
    IF,
    ELSE,
    RETURN,
    ILLEGAL,
    EOF,
}

/// The mathematical model of a token: its category and its spelling.
/// The spelling of a token that carries none is empty.
pub struct TokenView {
    pub kind: TokenKind,
    pub text: Seq<char>,
}

impl TokenView {
    /// The token of category `kind` that carries no spelling.
    pub open spec fn plain(kind: TokenKind) -> TokenView {
        TokenView { kind, text: Seq::empty() }
    }

    /// The identifier spelled `text`.
    pub open spec fn identifier(text: Seq<char>) -> TokenView {
        TokenView { kind: TokenKind::Ident, text }
    }

    /// The integer literal with the digits `text`.
    pub open spec fn integer(text: Seq<char>) -> TokenView {
        TokenView { kind: TokenKind::Int, text }
    }
}

impl View for Token {
    type V = TokenView;

    open spec fn view(&self) -> TokenView {
        match self {
            Token::IDENT(s) => TokenView::identifier(s@),
            Token::INT(s) => TokenView::integer(s@),
            Token::ASSIGN => TokenView::plain(TokenKind::Assign),
            Token::PLUS => TokenView::plain(TokenKind::Plus),
            Token::MINUS => TokenView::plain(TokenKind::Minus),
            Token::BANG => TokenView::plain(TokenKind::Bang),
            Token::ASTERISK => TokenView::plain(TokenKind::Asterisk),
            Token::SLASH => TokenView::plain(TokenKind::Slash),
            Token::LT => TokenView::plain(TokenKind::Lt),
            Token::GT => TokenView::plain(TokenKind::Gt),
            Token::EQ => TokenView::plain(TokenKind::Eq),
            Token::NOT_EQ => TokenView::plain(TokenKind::NotEq),
            Token::COMMA => TokenView::plain(TokenKind::Comma),
            Token::SEMICOLON => TokenView::plain(TokenKind::Semicolon),
            Token::LPAREN => TokenView::plain(TokenKind::LParen),
            Token::RPAREN => TokenView::plain(TokenKind::RParen),
            Token::LBRACE => TokenView::plain(TokenKind::LBrace),
            Token::RBRACE => TokenView::plain(TokenKind::RBrace),
            Token::FUNCTION => TokenView::plain(TokenKind::Function),
            Token::LET => TokenView::plain(TokenKind::Let),
            Token::TRUE => TokenView::plain(TokenKind::True),
            Token::FALSE => TokenView::plain(TokenKind::False),
            Token::IF => TokenView::plain(TokenKind::If),
            Token::ELSE => TokenView::plain(TokenKind::Else),
            Token::RETURN => TokenView::plain(TokenKind::Return),
            Token::ILLEGAL => TokenView::plain(TokenKind::Illegal),
            Token::EOF => TokenView::plain(TokenKind::Eof),
        }
    }
}

impl Token {
    /// The category of this token.
    pub fn kind(&self) -> (kind: TokenKind)
        ensures
            kind == self@.kind,
    {
        match self {
            Token::IDENT(_) => TokenKind::Ident,
            Token::INT(_) => TokenKind::Int,
            Token::ASSIGN => TokenKind::Assign,
            Token::PLUS => TokenKind::Plus,
            Token::MINUS => TokenKind::Minus,
            Token::BANG => TokenKind::Bang,
            Token::ASTERISK => TokenKind::Asterisk,
            Token::SLASH => TokenKind::Slash,
            Token::LT => TokenKind::Lt,
            Token::GT => TokenKind::Gt,
            Token::EQ => TokenKind::Eq,
            Token::NOT_EQ => TokenKind::NotEq,
            Token::COMMA => TokenKind::Comma,
            Token::SEMICOLON => TokenKind::Semicolon,
            Token::LPAREN => TokenKind::LParen,
            Token::RPAREN => TokenKind::RParen,
            Token::LBRACE => TokenKind::LBrace,
            Token::RBRACE => TokenKind::RBrace,
            Token::FUNCTION => TokenKind::Function,
            Token::LET => TokenKind::Let,
            Token::TRUE => TokenKind::True,
            Token::FALSE => TokenKind::False,
            Token::IF => TokenKind::If,
            Token::ELSE => TokenKind::Else,
            Token::RETURN => TokenKind::Return,
            Token::ILLEGAL => TokenKind::Illegal,
            Token::EOF => TokenKind::Eof,
        }
    }
}

impl Clone for Token {
    fn clone(&self) -> (copy: Token)
        ensures
            copy@ == self@,
    {
        match self {
            Token::IDENT(s) => Token::IDENT(s.clone()),
            Token::INT(s) => Token::INT(s.clone()),
            Token::ASSIGN => Token::ASSIGN,
            Token::PLUS => Token::PLUS,
            Token::MINUS => Token::MINUS,
            Token::BANG => Token::BANG,
            Token::ASTERISK => Token::ASTERISK,
            Token::SLASH => Token::SLASH,
            Token::LT => Token::LT,
            Token::GT => Token::GT,
            Token::EQ => Token::EQ,
            Token::NOT_EQ => Token::NOT_EQ,
            Token::COMMA => Token::COMMA,
            Token::SEMICOLON => Token::SEMICOLON,
            Token::LPAREN => Token::LPAREN,
            Token::RPAREN => Token::RPAREN,
            Token::LBRACE => Token::LBRACE,
            Token::RBRACE => Token::RBRACE,
            Token::FUNCTION => Token::FUNCTION,
            Token::LET => Token::LET,
            Token::TRUE => Token::TRUE,
            Token::FALSE => Token::FALSE,
            Token::IF => Token::IF,
            Token::ELSE => Token::ELSE,
            Token::RETURN => Token::RETURN,
            Token::ILLEGAL => Token::ILLEGAL,
            Token::EOF => Token::EOF,
        }
    }
}

impl PartialEq for Token {
    /// Two tokens are equal when they have the same category and the same spelling.
    fn eq(&self, other: &Token) -> (equal: bool) {
        match self {
            Token::IDENT(a) => match other {
                Token::IDENT(b) => *a == *b,
                _ => false,
            },
            Token::INT(a) => match other {
                Token::INT(b) => *a == *b,
                _ => false,
            },
            _ => self.kind() == other.kind(),
        }
    }
}

impl PartialEqSpecImpl for Token {
    open spec fn obeys_eq_spec() -> bool {
        true
    }

    open spec fn eq_spec(&self, other: &Token) -> bool {
        self@ == other@
    }
}

} // verus!
