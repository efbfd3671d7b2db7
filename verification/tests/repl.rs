use script_front::lexer::Token;
use script_front::repl::tokens_of_line;

#[test]
fn line_is_shown_without_end_of_input() {
    assert_eq!(
        tokens_of_line("let five = 5;\n".to_string()),
        vec![
            Token::LET,
            Token::IDENT("five".to_string()),
            Token::ASSIGN,
            Token::INT("5".to_string()),
            Token::SEMICOLON,
        ]
    );
}

#[test]
fn empty_line_shows_nothing() {
    assert_eq!(tokens_of_line(String::new()), vec![]);
    assert_eq!(tokens_of_line("\n".to_string()), vec![]);
    assert_eq!(tokens_of_line("  \t \r\n".to_string()), vec![]);
}

#[test]
fn illegal_tokens_are_shown() {
    assert_eq!(
        tokens_of_line("a ? b".to_string()),
        vec![Token::IDENT("a".to_string()), Token::ILLEGAL, Token::IDENT("b".to_string())]
    );
}

#[test]
fn zero_byte_cuts_the_line() {
    assert_eq!(
        tokens_of_line("a \u{0} b".to_string()),
        vec![Token::IDENT("a".to_string())]
    );
}
