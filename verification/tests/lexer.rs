use script_front::lexer::{Lexer, Token, TokenKind};

#[test]
#[allow(non_snake_case)]
fn TestNextToken() {
    let input = r#"let five = 5;
        let ten = 10;
        let add = fn(x, y) {
        x + y;
        };
        let result = add(five, ten);
        !-/*5;
        5 < 10 > 5;
        if (5 < 10) {
            return true;
        } else {
            return false;
        }

        10 == 10;
        9!=10;
        "#;

    let exp = vec![
        Token::LET,
        Token::IDENT(String::from("five")),
        Token::ASSIGN,
        Token::INT("5".to_string()),
        Token::SEMICOLON,
        Token::LET,
        Token::IDENT(String::from("ten")),
        Token::ASSIGN,
        Token::INT(String::from("10")),
        Token::SEMICOLON,
        Token::LET,
        Token::IDENT(String::from("add")),
        Token::ASSIGN,
        Token::FUNCTION,
        Token::LPAREN,
        Token::IDENT(String::from("x")),
        Token::COMMA,
        Token::IDENT(String::from("y")),
        Token::RPAREN,
        Token::LBRACE,
        Token::IDENT(String::from("x")),
        Token::PLUS,
        Token::IDENT(String::from("y")),
        Token::SEMICOLON,
        Token::RBRACE,
        Token::SEMICOLON,
        Token::LET,
        Token::IDENT(String::from("result")),
        Token::ASSIGN,
        Token::IDENT(String::from("add")),
        Token::LPAREN,
        Token::IDENT(String::from("five")),
        Token::COMMA,
        Token::IDENT(String::from("ten")),
        Token::RPAREN,
        Token::SEMICOLON,
        Token::BANG,
        Token::MINUS,
        Token::SLASH,
        Token::ASTERISK,
        Token::INT("5".to_string()),
        Token::SEMICOLON,
        Token::INT("5".to_string()),
        Token::LT,
        Token::INT("10".to_string()),
        Token::GT,
        Token::INT("5".to_string()),
        Token::SEMICOLON,
        Token::IF,
        Token::LPAREN,
        Token::INT("5".to_string()),
        Token::LT,
        Token::INT("10".to_string()),
        Token::RPAREN,
        Token::LBRACE,
        Token::RETURN,
        Token::TRUE,
        Token::SEMICOLON,
        Token::RBRACE,
        Token::ELSE,
        Token::LBRACE,
        Token::RETURN,
        Token::FALSE,
        Token::SEMICOLON,
        Token::RBRACE,
        Token::INT("10".to_string()),
        Token::EQ,
        Token::INT("10".to_string()),
        Token::SEMICOLON,
        Token::INT("9".to_string()),
        Token::NOT_EQ,
        Token::INT("10".to_string()),
        Token::SEMICOLON,
        Token::EOF,
    ];
    let mut lexer = Lexer::new(input.into());
    for token in exp {
        let next_token = lexer.next_token();
        println!("expected: {:?}, received {:?}", token, next_token);
        assert_eq!(token, next_token);
    }
}

fn tokens(input: &str, count: usize) -> Vec<Token> {
    let mut lexer = Lexer::new(input.to_string());
    let mut out = Vec::new();
    for _ in 0..count {
        out.push(lexer.next_token());
    }
    out
}

fn ident(spelling: &str) -> Token {
    Token::IDENT(spelling.to_string())
}

fn number(digits: &str) -> Token {
    Token::INT(digits.to_string())
}

#[test]
fn let_binding() {
    assert_eq!(
        tokens("let five = 5;", 6),
        vec![Token::LET, ident("five"), Token::ASSIGN, number("5"), Token::SEMICOLON, Token::EOF]
    );
}

#[test]
fn function_literal() {
    assert_eq!(
        tokens("fn(x, y) { x + y; }", 13),
        vec![
            Token::FUNCTION,
            Token::LPAREN,
            ident("x"),
            Token::COMMA,
            ident("y"),
            Token::RPAREN,
            Token::LBRACE,
            ident("x"),
            Token::PLUS,
            ident("y"),
            Token::SEMICOLON,
            Token::RBRACE,
            Token::EOF,
        ]
    );
}

#[test]
fn two_byte_operators() {
    assert_eq!(
        tokens("10 == 10; 9 != 10;", 9),
        vec![
            number("10"),
            Token::EQ,
            number("10"),
            Token::SEMICOLON,
            number("9"),
            Token::NOT_EQ,
            number("10"),
            Token::SEMICOLON,
            Token::EOF,
        ]
    );
}

#[test]
fn adjacent_operators() {
    assert_eq!(
        tokens("!-/*5;", 7),
        vec![
            Token::BANG,
            Token::MINUS,
            Token::SLASH,
            Token::ASTERISK,
            number("5"),
            Token::SEMICOLON,
            Token::EOF,
        ]
    );
}

#[test]
fn end_of_input_repeats() {
    let mut lexer = Lexer::new("x".to_string());
    assert_eq!(lexer.next_token(), ident("x"));
    for _ in 0..100 {
        assert_eq!(lexer.next_token(), Token::EOF);
    }
    let mut empty = Lexer::new(String::new());
    for _ in 0..100 {
        assert_eq!(empty.next_token(), Token::EOF);
    }
    let mut blank = Lexer::new(" \t\r\n ".to_string());
    for _ in 0..100 {
        assert_eq!(blank.next_token(), Token::EOF);
    }
}

#[test]
fn position_stops_at_the_end() {
    let mut lexer = Lexer::new("ab ".to_string());
    assert_eq!(lexer.position(), 0);
    lexer.next_token();
    assert_eq!(lexer.position(), 2);
    for _ in 0..10 {
        lexer.next_token();
        assert_eq!(lexer.position(), 3);
    }
}

#[test]
fn single_operators_and_delimiters() {
    let table = [
        ("=", Token::ASSIGN),
        ("+", Token::PLUS),
        ("-", Token::MINUS),
        ("!", Token::BANG),
        ("*", Token::ASTERISK),
        ("/", Token::SLASH),
        ("<", Token::LT),
        (">", Token::GT),
        (",", Token::COMMA),
        (";", Token::SEMICOLON),
        ("(", Token::LPAREN),
        (")", Token::RPAREN),
        ("{", Token::LBRACE),
        ("}", Token::RBRACE),
    ];
    for (text, token) in table {
        assert_eq!(tokens(text, 2), vec![token, Token::EOF]);
    }
}

#[test]
fn keywords_are_not_identifiers() {
    let table = [
        ("fn", Token::FUNCTION),
        ("let", Token::LET),
        ("true", Token::TRUE),
        ("false", Token::FALSE),
        ("if", Token::IF),
        ("else", Token::ELSE),
        ("return", Token::RETURN),
    ];
    for (text, token) in table {
        assert_eq!(tokens(text, 2), vec![token, Token::EOF]);
    }
}

#[test]
fn other_words_are_identifiers() {
    let words = [
        "Let", "LET", "fnn", "f", "lets", "le", "iff", "_", "_if", "return_", "foo_bar", "True",
    ];
    for text in words {
        assert_eq!(tokens(text, 2), vec![ident(text), Token::EOF]);
    }
}

#[test]
fn digits_do_not_continue_an_identifier() {
    assert_eq!(tokens("x1", 3), vec![ident("x"), number("1"), Token::EOF]);
    assert_eq!(tokens("1x", 3), vec![number("1"), ident("x"), Token::EOF]);
    assert_eq!(tokens("let2", 3), vec![Token::LET, number("2"), Token::EOF]);
}

#[test]
fn digits_are_kept_as_written() {
    assert_eq!(
        tokens("007 18446744073709551616000", 3),
        vec![number("007"), number("18446744073709551616000"), Token::EOF]
    );
}

#[test]
fn whitespace_is_not_a_token() {
    assert_eq!(
        tokens(" \t\r\n a \n\n b\t", 3),
        vec![ident("a"), ident("b"), Token::EOF]
    );
}

#[test]
fn unknown_byte_is_illegal_and_takes_one_byte() {
    assert_eq!(tokens("@", 2), vec![Token::ILLEGAL, Token::EOF]);
    assert_eq!(
        tokens("a#b", 4),
        vec![ident("a"), Token::ILLEGAL, ident("b"), Token::EOF]
    );
    assert_eq!(
        tokens("\"a\"", 4),
        vec![Token::ILLEGAL, ident("a"), Token::ILLEGAL, Token::EOF]
    );
}

#[test]
fn text_beyond_ascii_is_illegal_byte_by_byte() {
    assert_eq!(
        tokens("é", 3),
        vec![Token::ILLEGAL, Token::ILLEGAL, Token::EOF]
    );
    assert_eq!(
        tokens("a€b", 6),
        vec![ident("a"), Token::ILLEGAL, Token::ILLEGAL, Token::ILLEGAL, ident("b"), Token::EOF]
    );
}

#[test]
fn operator_at_the_end_looks_ahead_safely() {
    assert_eq!(tokens("=", 2), vec![Token::ASSIGN, Token::EOF]);
    assert_eq!(tokens("!", 2), vec![Token::BANG, Token::EOF]);
    assert_eq!(tokens("==", 2), vec![Token::EQ, Token::EOF]);
    assert_eq!(tokens("!=", 2), vec![Token::NOT_EQ, Token::EOF]);
    assert_eq!(tokens("===", 3), vec![Token::EQ, Token::ASSIGN, Token::EOF]);
    assert_eq!(tokens("!==", 3), vec![Token::NOT_EQ, Token::ASSIGN, Token::EOF]);
    assert_eq!(tokens("= =", 3), vec![Token::ASSIGN, Token::ASSIGN, Token::EOF]);
    assert_eq!(tokens("=!", 3), vec![Token::ASSIGN, Token::BANG, Token::EOF]);
}

#[test]
fn zero_byte_is_end_of_input_and_takes_one_byte() {
    assert_eq!(
        tokens("a\u{0}b", 5),
        vec![ident("a"), Token::EOF, ident("b"), Token::EOF, Token::EOF]
    );
}

#[test]
fn tokens_are_equal_by_category_and_spelling() {
    assert_eq!(ident("a"), ident("a"));
    assert_ne!(ident("a"), ident("b"));
    assert_ne!(ident("1"), number("1"));
    assert_eq!(number("1"), number("1"));
    assert_ne!(number("1"), number("01"));
    assert_eq!(Token::EQ, Token::EQ);
    assert_ne!(Token::EQ, Token::NOT_EQ);
    assert_ne!(Token::EOF, Token::ILLEGAL);
    assert_eq!(ident("a").clone(), ident("a"));
    assert_eq!(Token::LET.clone(), Token::LET);
}

#[test]
fn token_categories() {
    assert_eq!(ident("a").kind(), TokenKind::Ident);
    assert_eq!(number("1").kind(), TokenKind::Int);
    assert_eq!(Token::NOT_EQ.kind(), TokenKind::NotEq);
    assert_eq!(Token::FUNCTION.kind(), TokenKind::Function);
    assert_eq!(Token::EOF.kind(), TokenKind::Eof);
    assert_eq!(Token::ILLEGAL.kind(), TokenKind::Illegal);
}

#[test]
fn debug_rendering() {
    assert_eq!(format!("{:?}", ident("five")), "IDENT(\"five\")");
    assert_eq!(format!("{:?}", number("5")), "INT(\"5\")");
    assert_eq!(format!("{:?}", Token::NOT_EQ), "NOT_EQ");
}
