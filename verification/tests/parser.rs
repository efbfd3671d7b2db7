use script_front::lexer::{Lexer, Token};
use script_front::parser::{Expected, Expression, ParseError, Parser, Program, Statement};

fn parse(input: &str) -> Program {
    let mut lexer = Lexer::new(input.to_string());
    let mut parser = Parser::new(&mut lexer);
    parser.parse_program()
}

fn name(spelling: &str) -> Expression {
    Expression::Identifier {
        token: Token::IDENT(spelling.to_string()),
        value: spelling.to_string(),
    }
}

fn number(digits: &str) -> Expression {
    Expression::IntegerLiteral { token: Token::INT(digits.to_string()), value: digits.to_string() }
}

fn prefix(token: Token, right: Expression) -> Expression {
    Expression::Prefix { token, right: Box::new(right) }
}

fn infix(left: Expression, token: Token, right: Expression) -> Expression {
    Expression::Infix { token, left: Box::new(left), right: Box::new(right) }
}

fn let_statement(target: &str, value: Expression) -> Statement {
    Statement::Let { token: Token::LET, identifier: Box::new(name(target)), value: Box::new(value) }
}

fn expression_statement(token: Token, expression: Expression) -> Statement {
    Statement::Expression { token, expression: Box::new(expression) }
}

fn single_expression(input: &str) -> Expression {
    let program = parse(input);
    assert_eq!(program.errors, vec![]);
    assert_eq!(program.statements.len(), 1);
    match &program.statements[0] {
        Statement::Expression { expression, .. } => (**expression).clone(),
        other => panic!("not an expression statement: {:?}", other),
    }
}

#[test]
#[allow(non_snake_case)]
fn TestLetStatements() {
    let input = r#"
        let x = 5;
        let y = 10;
        let foobar = 838383;
        "#;
    let mut l = Lexer::new(input.to_string());
    let mut parser = Parser::new(&mut l);

    let program = parser.parse_program();
    assert_eq!(program.statements.len(), 3, "amount of statement mismatched");
    let expected_ident = ["x", "y", "foobar"];
    for ind in 0..3 {
        match &program.statements[ind] {
            Statement::Let { token, identifier, .. } => {
                assert_eq!(*token, Token::LET, "statement {ind} parse error");
                assert_eq!(**identifier, name(expected_ident[ind]), "statement {ind} parse error");
            }
            _ => assert!(false, "statement {ind} parse error"),
        }
    }
    assert!(true);
}

#[test]
fn let_statements_keep_their_values() {
    let program = parse("let x = 5; let y = 10; let foobar = 838383;");
    assert_eq!(program.errors, vec![]);
    assert_eq!(
        program.statements,
        vec![
            let_statement("x", number("5")),
            let_statement("y", number("10")),
            let_statement("foobar", number("838383")),
        ]
    );
}

#[test]
fn empty_source_is_the_empty_program() {
    assert_eq!(parse(""), Program::new());
    assert_eq!(parse("  \n\t "), Program::new());
}

#[test]
fn program_new_is_empty() {
    let program = Program::new();
    assert!(program.statements.is_empty());
    assert!(program.errors.is_empty());
}

#[test]
fn semicolon_is_optional() {
    let program = parse("let x = 5 let y = x");
    assert_eq!(program.errors, vec![]);
    assert_eq!(
        program.statements,
        vec![let_statement("x", number("5")), let_statement("y", name("x"))]
    );
}

#[test]
fn return_statement_holds_its_value() {
    let program = parse("return 5; return a + b");
    assert_eq!(program.errors, vec![]);
    assert_eq!(
        program.statements,
        vec![
            Statement::Return { token: Token::RETURN, value: Box::new(number("5")) },
            Statement::Return {
                token: Token::RETURN,
                value: Box::new(infix(name("a"), Token::PLUS, name("b"))),
            },
        ]
    );
}

#[test]
fn expression_statement_keeps_its_first_token() {
    let program = parse("foobar; -5;");
    assert_eq!(program.errors, vec![]);
    assert_eq!(
        program.statements,
        vec![
            expression_statement(Token::IDENT("foobar".to_string()), name("foobar")),
            expression_statement(Token::MINUS, prefix(Token::MINUS, number("5"))),
        ]
    );
}

#[test]
fn prefix_operators() {
    assert_eq!(single_expression("!5;"), prefix(Token::BANG, number("5")));
    assert_eq!(single_expression("-15"), prefix(Token::MINUS, number("15")));
    assert_eq!(
        single_expression("!-a"),
        prefix(Token::BANG, prefix(Token::MINUS, name("a")))
    );
}

#[test]
fn infix_operators() {
    let operators = [
        ("+", Token::PLUS),
        ("-", Token::MINUS),
        ("*", Token::ASTERISK),
        ("/", Token::SLASH),
        ("<", Token::LT),
        (">", Token::GT),
        ("==", Token::EQ),
        ("!=", Token::NOT_EQ),
    ];
    for (text, token) in operators {
        let input = format!("5 {} 6;", text);
        assert_eq!(single_expression(&input), infix(number("5"), token, number("6")));
    }
}

#[test]
fn product_binds_tighter_than_sum() {
    assert_eq!(
        single_expression("a + b * c"),
        infix(name("a"), Token::PLUS, infix(name("b"), Token::ASTERISK, name("c")))
    );
    assert_eq!(
        single_expression("a * b + c"),
        infix(infix(name("a"), Token::ASTERISK, name("b")), Token::PLUS, name("c"))
    );
}

#[test]
fn operators_of_one_level_group_to_the_left() {
    assert_eq!(
        single_expression("a - b - c"),
        infix(infix(name("a"), Token::MINUS, name("b")), Token::MINUS, name("c"))
    );
    assert_eq!(
        single_expression("a / b * c"),
        infix(infix(name("a"), Token::SLASH, name("b")), Token::ASTERISK, name("c"))
    );
}

#[test]
fn comparison_binds_looser_than_arithmetic() {
    assert_eq!(
        single_expression("5 < 4 != 3 + 1 > 2"),
        infix(
            infix(number("5"), Token::LT, number("4")),
            Token::NOT_EQ,
            infix(infix(number("3"), Token::PLUS, number("1")), Token::GT, number("2"))
        )
    );
}

#[test]
fn prefix_binds_tighter_than_any_binary_operator() {
    assert_eq!(
        single_expression("-a * b"),
        infix(prefix(Token::MINUS, name("a")), Token::ASTERISK, name("b"))
    );
    assert_eq!(
        single_expression("!a == b"),
        infix(prefix(Token::BANG, name("a")), Token::EQ, name("b"))
    );
}

#[test]
fn parentheses_group() {
    assert_eq!(
        single_expression("(a + b) * c"),
        infix(infix(name("a"), Token::PLUS, name("b")), Token::ASTERISK, name("c"))
    );
    assert_eq!(
        single_expression("-(5 + 5)"),
        prefix(Token::MINUS, infix(number("5"), Token::PLUS, number("5")))
    );
    assert_eq!(single_expression("((x))"), name("x"));
}

#[test]
fn let_without_a_name_is_reported() {
    let program = parse("let = 5; let y = 10;");
    assert_eq!(
        program.errors,
        vec![ParseError {
            expected: Expected::Token(script_front::lexer::TokenKind::Ident),
            found: Token::ASSIGN,
            position: 4,
        }]
    );
    assert_eq!(program.statements, vec![let_statement("y", number("10"))]);
}

#[test]
fn let_without_assign_is_reported() {
    let program = parse("let x 5;\nlet y = 10;");
    assert_eq!(
        program.errors,
        vec![ParseError {
            expected: Expected::Token(script_front::lexer::TokenKind::Assign),
            found: Token::INT("5".to_string()),
            position: 6,
        }]
    );
    assert_eq!(program.statements, vec![let_statement("y", number("10"))]);
}

#[test]
fn let_without_a_value_is_reported() {
    let program = parse("let x = ; let y = 10;");
    assert_eq!(
        program.errors,
        vec![ParseError { expected: Expected::Expression, found: Token::SEMICOLON, position: 8 }]
    );
    assert_eq!(program.statements, vec![let_statement("y", number("10"))]);
}

#[test]
fn let_cut_short_by_the_end_is_reported() {
    let program = parse("let x =");
    assert_eq!(
        program.errors,
        vec![ParseError { expected: Expected::Expression, found: Token::EOF, position: 7 }]
    );
    assert_eq!(program.statements, vec![]);

    let program = parse("let");
    assert_eq!(
        program.errors,
        vec![ParseError {
            expected: Expected::Token(script_front::lexer::TokenKind::Ident),
            found: Token::EOF,
            position: 3,
        }]
    );
    assert_eq!(program.statements, vec![]);
}

#[test]
fn unclosed_parenthesis_is_reported() {
    let program = parse("(a + b; c");
    assert_eq!(
        program.errors,
        vec![ParseError {
            expected: Expected::Token(script_front::lexer::TokenKind::RParen),
            found: Token::SEMICOLON,
            position: 6,
        }]
    );
    assert_eq!(
        program.statements,
        vec![expression_statement(Token::IDENT("c".to_string()), name("c"))]
    );
}

#[test]
fn missing_right_operand_is_reported() {
    let program = parse("a + ; b");
    assert_eq!(
        program.errors,
        vec![ParseError { expected: Expected::Expression, found: Token::SEMICOLON, position: 4 }]
    );
    assert_eq!(
        program.statements,
        vec![expression_statement(Token::IDENT("b".to_string()), name("b"))]
    );
}

#[test]
fn conditional_is_reported_and_skipped() {
    let program = parse("if (x) { y }; let z = 1;");
    assert_eq!(
        program.errors,
        vec![ParseError { expected: Expected::Statement, found: Token::IF, position: 0 }]
    );
    assert_eq!(program.statements, vec![let_statement("z", number("1"))]);
}

#[test]
fn conditional_alone_does_not_stop_the_run() {
    let program = parse("if");
    assert_eq!(
        program.errors,
        vec![ParseError { expected: Expected::Statement, found: Token::IF, position: 0 }]
    );
    assert_eq!(program.statements, vec![]);
}

#[test]
fn every_faulty_statement_is_reported() {
    let program = parse("let 1; let a = 2; let b 3; fn; let c = 4;");
    assert_eq!(
        program.errors,
        vec![
            ParseError {
                expected: Expected::Token(script_front::lexer::TokenKind::Ident),
                found: Token::INT("1".to_string()),
                position: 4,
            },
            ParseError {
                expected: Expected::Token(script_front::lexer::TokenKind::Assign),
                found: Token::INT("3".to_string()),
                position: 24,
            },
            ParseError { expected: Expected::Expression, found: Token::FUNCTION, position: 27 },
        ]
    );
    assert_eq!(
        program.statements,
        vec![let_statement("a", number("2")), let_statement("c", number("4"))]
    );
}

#[test]
fn peek_expect_compares_categories() {
    let mut lexer = Lexer::new("let x = 5;".to_string());
    let mut parser = Parser::new(&mut lexer);
    assert!(parser.peek_expect(Token::IDENT("y".to_string())));
    assert!(!parser.peek_expect(Token::ASSIGN));
    parser.next_token();
    assert!(parser.peek_expect(Token::ASSIGN));
    assert!(!parser.peek_expect(Token::IDENT("x".to_string())));
}

#[test]
fn parser_starts_where_the_lexer_stands() {
    let mut lexer = Lexer::new("let x = 5; y".to_string());
    for _ in 0..5 {
        lexer.next_token();
    }
    let mut parser = Parser::new(&mut lexer);
    let program = parser.parse_program();
    assert_eq!(program.errors, vec![]);
    assert_eq!(
        program.statements,
        vec![expression_statement(Token::IDENT("y".to_string()), name("y"))]
    );
}

#[test]
fn zero_byte_ends_the_program() {
    let program = parse("a; \u{0} b;");
    assert_eq!(program.errors, vec![]);
    assert_eq!(
        program.statements,
        vec![expression_statement(Token::IDENT("a".to_string()), name("a"))]
    );
}

#[test]
fn zero_byte_in_a_faulty_statement_is_passed_over() {
    let program = parse("let \u{0} b");
    assert_eq!(
        program.errors,
        vec![ParseError {
            expected: Expected::Token(script_front::lexer::TokenKind::Ident),
            found: Token::EOF,
            position: 4,
        }]
    );
    assert_eq!(
        program.statements,
        vec![expression_statement(Token::IDENT("b".to_string()), name("b"))]
    );
}
