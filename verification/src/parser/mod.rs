//! The parser: a recursive-descent parser with two tokens of lookahead.

pub mod ast;
pub mod grammar;
pub mod precedence;

pub use ast::{Expected, Expression, ParseError, Program, Statement};
pub use precedence::Precedence;

use crate::lexer::scan::{lemma_scan_advances, scan, skip_spaces};
use crate::lexer::stream::{lemma_lexemes, lexemes, Lexeme};
use crate::lexer::token::{Token, TokenKind, TokenView};
use crate::lexer::Lexer;
use ast::{ParseErrorView, ProgramView};
use grammar::{
    climb, closing, expect, expression, expression_statement, identifier, infix, integer_literal,
    kind_at, let_statement, lexeme_at, prefix, program, remaining, return_statement, statement,
    to_boundary, unexpected, Outcome,
};
use vstd::prelude::*;

verus! {

/// A parser over the tokens that a lexer hands out.
///
/// It holds the token that the grammar is looking at and the one after it,
/// each with the offset at which it begins in the source.
pub struct Parser<'a> {
    /// Where the tokens come from.
    lexer: &'a mut Lexer,
    /// The token that the grammar is looking at.
    cur_token: Token,
    /// The token after it, read ahead from the lexer.
    peek_token: Token,
    /// The offset of the current token in the source.
    cur_at: usize,
    /// The offset of the token after it.
    peek_at: usize,
    /// Where the lexer stood when the parser was made.
    origin: Ghost<int>,
    /// How many tokens of the stream lie before the current one.
    index: Ghost<int>,
}

/// What is left of a stream from index `i` on; at least its end-of-input.
spec fn rest(ts: Seq<Lexeme>, i: int) -> Seq<Lexeme> {
    if 0 <= i < ts.len() {
        ts.skip(i)
    } else {
        seq![lexeme_at(ts, i)]
    }
}

/// Whether `ts` ends with end-of-input, as the stream of a source does.
spec fn ends_with_eof(ts: Seq<Lexeme>) -> bool {
    ts.len() > 0 && ts.last().token == TokenView::plain(TokenKind::Eof)
}

/// Dropping one lexeme from what is left at `i` gives what is left at
/// `i + 1`.
proof fn lemma_rest(ts: Seq<Lexeme>, i: int)
    requires
        ends_with_eof(ts),
        0 <= i,
    ensures
        ends_with_eof(rest(ts, i)),
        rest(ts, i)[0] == lexeme_at(ts, i),
        rest(rest(ts, i), 1) == rest(ts, i + 1),
{
    if i + 1 < ts.len() {
        assert(ts.skip(i).skip(1) =~= ts.skip(i + 1));
    } else {
        assert(rest(rest(ts, i), 1) =~= rest(ts, i + 1));
    }
}

/// Whether `got` is what the grammar asks for: the same node, or the same
/// diagnostic.
spec fn agrees<T: View>(got: Result<T, ParseError>, asked: Result<T::V, ParseErrorView>) -> bool {
    match got {
        Ok(node) => asked == Ok::<T::V, ParseErrorView>(node@),
        Err(error) => asked == Err::<T::V, ParseErrorView>(error@),
    }
}

/// Reads one token from `lexer`, and says where it begins.
fn fetch(lexer: &mut Lexer) -> (lexeme: (Token, usize))
    requires
        old(lexer).wf(),
    ensures
        final(lexer).wf(),
        final(lexer).source() == old(lexer).source(),
        final(lexer).cursor() == scan(old(lexer).source(), old(lexer).cursor()).next,
        lexeme.0@ == scan(old(lexer).source(), old(lexer).cursor()).token,
        lexeme.1 == skip_spaces(old(lexer).source(), old(lexer).cursor()),
        0 <= old(lexer).cursor() <= old(lexer).source().len(),
{
    proof {
        old(lexer).lemma_cursor_in_source();
        lemma_scan_advances(old(lexer).source(), old(lexer).cursor());
    }
    lexer.skip_whitespace();
    let at: usize = lexer.position();
    let token = lexer.next_token();
    (token, at)
}

impl<'a> Parser<'a> {
    /// The token stream that this parser reads: the tokens of the lexer's
    /// source from where the lexer stood when the parser was made.
    pub closed spec fn stream(&self) -> Seq<Lexeme> {
        lexemes(self.lexer.source(), self.origin@)
    }

    /// The index of the current token in the stream.
    pub closed spec fn index(&self) -> int {
        self.index@
    }

    /// The current token and the one after it are those of the stream at
    /// the index and behind it, and the lexer stands behind both.
    pub closed spec fn wf(&self) -> bool {
        &&& self.lexer.wf()
        &&& 0 <= self.origin@ <= self.lexer.source().len()
        &&& 0 <= self.index@
        &&& lexeme_at(self.stream(), self.index@) == (Lexeme {
            token: self.cur_token@,
            at: self.cur_at as int,
        })
        &&& lexeme_at(self.stream(), self.index@ + 1) == (Lexeme {
            token: self.peek_token@,
            at: self.peek_at as int,
        })
        &&& lexemes(self.lexer.source(), self.lexer.cursor()) == rest(
            self.stream(),
            self.index@ + 2,
        )
    }

    /// A parser over the tokens that `lexer` has yet to hand out. It reads
    /// the first two at once.
    pub fn new(lexer: &'a mut Lexer) -> (parser: Parser<'a>)
        requires
            old(lexer).wf(),
        ensures
            parser.wf(),
            parser.stream() == lexemes(old(lexer).source(), old(lexer).cursor()),
            parser.index() == 0,
    {
        let ghost src = lexer.source();
        let ghost origin = lexer.cursor();
        let (cur_token, cur_at) = fetch(lexer);
        let ghost middle = lexer.cursor();
        let (peek_token, peek_at) = fetch(lexer);
        proof {
            let ts = lexemes(src, origin);
            lemma_lexemes(src, origin);
            lemma_lexemes(src, middle);
            lemma_rest(ts, 0);
            lemma_rest(ts, 1);
            assert(rest(ts, 0) =~= ts);
            assert(lexemes(src, middle) == rest(ts, 1)) by {
                if ts.len() == 1 {
                    assert(rest(ts, 1) =~= ts);
                }
            }
            let us = lexemes(src, middle);
            lemma_rest(us, 0);
            assert(rest(us, 0) =~= us);
            assert(lexemes(src, lexer.cursor()) == rest(us, 1)) by {
                if us.len() == 1 {
                    assert(rest(us, 1) =~= us);
                }
            }
        }
        Parser {
            lexer,
            cur_token,
            peek_token,
            cur_at,
            peek_at,
            origin: Ghost(origin),
            index: Ghost(0),
        }
    }

    /// Moves on by one token: the token after the current one becomes the
    /// current one, and the next is read from the lexer.
    pub fn next_token(&mut self)
        requires
            old(self).wf(),
        ensures
            final(self).wf(),
            final(self).stream() == old(self).stream(),
            final(self).index() == old(self).index() + 1,
    {
        let ghost ts = self.stream();
        let ghost src = self.lexer.source();
        let ghost before = self.lexer.cursor();
        let (token, at) = fetch(self.lexer);
        proof {
            let us = lexemes(src, before);
            lemma_lexemes(src, self.origin@);
            lemma_lexemes(src, before);
            lemma_rest(ts, self.index@ + 2);
            lemma_rest(us, 0);
            assert(rest(us, 0) =~= us);
            assert(lexemes(src, self.lexer.cursor()) == rest(us, 1)) by {
                if us.len() == 1 {
                    assert(rest(us, 1) =~= us);
                }
            }
        }
        self.cur_at = self.peek_at;
        self.peek_at = at;
        std::mem::swap(&mut self.cur_token, &mut self.peek_token);
        self.peek_token = token;
        proof {
            self.index@ = self.index@ + 1;
        }
    }

    /// Whether the token after the current one has the category of `tok`.
    /// The parser does not move.
    pub fn peek_expect(&self, tok: Token) -> (matches: bool)
        requires
            self.wf(),
        ensures
            matches == (kind_at(self.stream(), self.index() + 1) == tok@.kind),
    {
        tok.kind() == self.peek_token.kind()
    }

    /// Whether the parser, having started as `before`, has parsed what
    /// `asked` says: it reads the same stream, has moved on by the steps of
    /// `asked`, and returns `got`.
    spec fn lands<T: View>(
        &self,
        before: &Parser<'a>,
        got: Result<T, ParseError>,
        asked: Outcome<T::V>,
    ) -> bool {
        &&& self.wf()
        &&& self.stream() == before.stream()
        &&& self.index() == before.index() + asked.steps
        &&& agrees(got, asked.result)
    }

    /// The diagnostic that `expected` was asked for where the current token
    /// stands.
    fn unexpected_current(&self, expected: Expected) -> (error: ParseError)
        requires
            self.wf(),
        ensures
            error@ == unexpected(expected, lexeme_at(self.stream(), self.index())),
    {
        ParseError { expected, found: self.cur_token.clone(), position: self.cur_at }
    }

    /// Moves on to the next token if it has the category of `expected`;
    /// reports it, and stays, if it has not.
    fn expect_peek(&mut self, expected: Token) -> (result: Result<(), ParseError>)
        requires
            old(self).wf(),
        ensures
            final(self).lands(
                old(self),
                result,
                expect(old(self).stream(), old(self).index(), expected@.kind),
            ),
    {
        let kind = expected.kind();
        if self.peek_expect(expected) {
            self.next_token();
            Ok(())
        } else {
            Err(
                ParseError {
                    expected: Expected::Token(kind),
                    found: self.peek_token.clone(),
                    position: self.peek_at,
                },
            )
        }
    }

    /// Moves past the semicolon that may end a statement, if one follows.
    fn skip_semicolon(&mut self)
        requires
            old(self).wf(),
        ensures
            final(self).wf(),
            final(self).stream() == old(self).stream(),
            final(self).index() == old(self).index() + closing(
                old(self).stream(),
                old(self).index(),
            ),
    {
        if self.peek_expect(Token::SEMICOLON) {
            self.next_token();
        }
    }

    /// The current token as a name.
    fn parse_identifier(&self) -> (result: Result<Expression, ParseError>)
        requires
            self.wf(),
        ensures
            agrees(result, identifier(self.stream(), self.index())),
    {
        match &self.cur_token {
            Token::IDENT(value) => Ok(
                Expression::Identifier { token: self.cur_token.clone(), value: value.clone() },
            ),
            _ => Err(self.unexpected_current(Expected::Token(TokenKind::Ident))),
        }
    }

    /// The current token as an integer literal.
    fn parse_integer_literal(&self) -> (result: Result<Expression, ParseError>)
        requires
            self.wf(),
        ensures
            agrees(result, integer_literal(self.stream(), self.index())),
    {
        match &self.cur_token {
            Token::INT(value) => Ok(
                Expression::IntegerLiteral { token: self.cur_token.clone(), value: value.clone() },
            ),
            _ => Err(self.unexpected_current(Expected::Token(TokenKind::Int))),
        }
    }

    /// A prefix operator, which is the current token, with its operand.
    fn parse_prefix_expression(&mut self) -> (result: Result<Expression, ParseError>)
        requires
            old(self).wf(),
            kind_at(old(self).stream(), old(self).index()) == TokenKind::Bang || kind_at(
                old(self).stream(),
                old(self).index(),
            ) == TokenKind::Minus,
        ensures
            final(self).lands(old(self), result, prefix(old(self).stream(), old(self).index())),
        decreases remaining(old(self).stream(), old(self).index()), 0nat,
    {
        let token = self.cur_token.clone();
        self.next_token();
        let right = self.parse_expression(Precedence::Prefix)?;
        Ok(Expression::Prefix { token, right: Box::new(right) })
    }

    /// An expression in parentheses; the current token is the opening one.
    fn parse_grouped_expression(&mut self) -> (result: Result<Expression, ParseError>)
        requires
            old(self).wf(),
            kind_at(old(self).stream(), old(self).index()) == TokenKind::LParen,
        ensures
            final(self).lands(old(self), result, prefix(old(self).stream(), old(self).index())),
        decreases remaining(old(self).stream(), old(self).index()), 0nat,
    {
        self.next_token();
        let inner = self.parse_expression(Precedence::Lowest)?;
        self.expect_peek(Token::RPAREN)?;
        Ok(inner)
    }

    /// The expression that begins with the current token, without the
    /// binary operators that may follow it.
    fn parse_prefix(&mut self) -> (result: Result<Expression, ParseError>)
        requires
            old(self).wf(),
        ensures
            final(self).lands(old(self), result, prefix(old(self).stream(), old(self).index())),
        decreases remaining(old(self).stream(), old(self).index()), 1nat,
    {
        match self.cur_token.kind() {
            TokenKind::Ident => self.parse_identifier(),
            TokenKind::Int => self.parse_integer_literal(),
            TokenKind::Bang | TokenKind::Minus => self.parse_prefix_expression(),
            TokenKind::LParen => self.parse_grouped_expression(),
            _ => Err(self.unexpected_current(Expected::Expression)),
        }
    }

    /// A binary operator, which is the current token, with `left` as its
    /// left operand and the expression after it as its right one.
    fn parse_infix(&mut self, left: Expression) -> (result: Result<Expression, ParseError>)
        requires
            old(self).wf(),
            Precedence::of(kind_at(old(self).stream(), old(self).index())).level() > 0,
        ensures
            final(self).lands(
                old(self),
                result,
                infix(old(self).stream(), old(self).index(), left@),
            ),
        decreases remaining(old(self).stream(), old(self).index()), 0nat,
    {
        let token = self.cur_token.clone();
        let precedence = Precedence::binding(token.kind());
        self.next_token();
        let right = self.parse_expression(precedence)?;
        Ok(Expression::Infix { token, left: Box::new(left), right: Box::new(right) })
    }

    /// The expression that begins with the current token, with every
    /// binary operator after it that binds tighter than `precedence`. When
    /// it is parsed, the current token is its last.
    fn parse_expression(&mut self, precedence: Precedence) -> (result: Result<
        Expression,
        ParseError,
    >)
        requires
            old(self).wf(),
        ensures
            final(self).lands(
                old(self),
                result,
                expression(old(self).stream(), old(self).index(), precedence),
            ),
        decreases remaining(old(self).stream(), old(self).index()), 2nat,
    {
        let ghost ts = self.stream();
        let ghost start = self.index();
        let mut left = self.parse_prefix()?;
        let ghost first = prefix(ts, start);
        while precedence.rank() < Precedence::binding(self.peek_token.kind()).rank()
            invariant
                self.wf(),
                self.stream() == ts,
                ts == old(self).stream(),
                start == old(self).index(),
                first == prefix(ts, start),
                first.result is Ok,
                start + first.steps <= self.index(),
                climb(ts, start + first.steps, first.result->Ok_0, precedence) == (Outcome {
                    result: climb(ts, self.index(), left@, precedence).result,
                    steps: (self.index() - start - first.steps + climb(
                        ts,
                        self.index(),
                        left@,
                        precedence,
                    ).steps) as nat,
                }),
            decreases remaining(ts, self.index()),
        {
            self.next_token();
            left = self.parse_infix(left)?;
        }
        Ok(left)
    }

    /// The statement `let` identifier `=` expression; the current token is
    /// `let`.
    fn parse_let_statement(&mut self) -> (result: Result<Statement, ParseError>)
        requires
            old(self).wf(),
        ensures
            final(self).lands(
                old(self),
                result,
                let_statement(old(self).stream(), old(self).index()),
            ),
    {
        proof {
            reveal(let_statement);
        }
        let token = self.cur_token.clone();
        self.next_token();
        let identifier = self.parse_identifier()?;
        self.expect_peek(Token::ASSIGN)?;
        self.next_token();
        let value = self.parse_expression(Precedence::Lowest)?;
        self.skip_semicolon();
        Ok(Statement::Let { token, identifier: Box::new(identifier), value: Box::new(value) })
    }

    /// The statement `return` expression; the current token is `return`.
    fn parse_return_statement(&mut self) -> (result: Result<Statement, ParseError>)
        requires
            old(self).wf(),
        ensures
            final(self).lands(
                old(self),
                result,
                return_statement(old(self).stream(), old(self).index()),
            ),
    {
        proof {
            reveal(return_statement);
        }
        let token = self.cur_token.clone();
        self.next_token();
        let value = self.parse_expression(Precedence::Lowest)?;
        self.skip_semicolon();
        Ok(Statement::Return { token, value: Box::new(value) })
    }

    /// The expression that begins with the current token, as a statement.
    fn parse_expression_statement(&mut self) -> (result: Result<Statement, ParseError>)
        requires
            old(self).wf(),
        ensures
            final(self).lands(
                old(self),
                result,
                expression_statement(old(self).stream(), old(self).index()),
            ),
    {
        proof {
            reveal(expression_statement);
        }
        let token = self.cur_token.clone();
        let expression = self.parse_expression(Precedence::Lowest)?;
        self.skip_semicolon();
        Ok(Statement::Expression { token, expression: Box::new(expression) })
    }

    /// The statement that begins with the current token. When it is parsed,
    /// the current token is its last.
    fn parse_statement(&mut self) -> (result: Result<Statement, ParseError>)
        requires
            old(self).wf(),
        ensures
            final(self).lands(old(self), result, statement(old(self).stream(), old(self).index())),
    {
        proof {
            reveal(statement);
        }
        match self.cur_token.kind() {
            TokenKind::Let => self.parse_let_statement(),
            TokenKind::Return => self.parse_return_statement(),
            TokenKind::If => Err(self.unexpected_current(Expected::Statement)),
            _ => self.parse_expression_statement(),
        }
    }

    /// Moves on to the next token that ends a statement: a semicolon, or
    /// end-of-input. Stays if the current token is one.
    fn synchronize(&mut self)
        requires
            old(self).wf(),
        ensures
            final(self).wf(),
            final(self).stream() == old(self).stream(),
            final(self).index() == old(self).index() + to_boundary(
                old(self).stream(),
                old(self).index(),
            ),
    {
        while self.cur_token.kind() != TokenKind::Semicolon && self.cur_token.kind()
            != TokenKind::Eof
            invariant
                self.wf(),
                self.stream() == old(self).stream(),
                old(self).index() <= self.index(),
                self.index() + to_boundary(self.stream(), self.index()) == old(self).index()
                    + to_boundary(old(self).stream(), old(self).index()),
            decreases remaining(self.stream(), self.index()),
        {
            self.next_token();
        }
    }

    /// Parses the rest of the token stream: statement after statement until
    /// the current token is end-of-input.
    ///
    /// A statement that does not follow the grammar is not part of the
    /// program. Its diagnostic is recorded, and parsing goes on behind the
    /// next semicolon, so that one run reports every faulty statement.
    pub fn parse_program(&mut self) -> (parsed: Program)
        requires
            old(self).wf(),
        ensures
            final(self).wf(),
            final(self).stream() == old(self).stream(),
            parsed@ == program(old(self).stream(), old(self).index()),
            kind_at(final(self).stream(), final(self).index()) == TokenKind::Eof,
    {
        let ghost ts = self.stream();
        let ghost start = self.index();
        let mut parsed = Program::new();
        while self.cur_token.kind() != TokenKind::Eof
            invariant
                self.wf(),
                self.stream() == ts,
                program(ts, start) == (ProgramView {
                    statements: parsed@.statements + program(ts, self.index()).statements,
                    errors: parsed@.errors + program(ts, self.index()).errors,
                }),
            decreases remaining(ts, self.index()),
        {
            let ghost before = parsed@;
            let ghost here = self.index();
            match self.parse_statement() {
                Ok(node) => {
                    parsed.statements.push(node);
                    proof {
                        assert(parsed@.statements =~= before.statements.push(node@));
                        assert(parsed@.errors =~= before.errors);
                    }
                },
                Err(error) => {
                    parsed.errors.push(error);
                    proof {
                        assert(parsed@.errors =~= before.errors.push(error@));
                        assert(parsed@.statements =~= before.statements);
                    }
                    self.synchronize();
                },
            }
            self.next_token();
            proof {
                let rest = program(ts, self.index());
                assert(program(ts, start).statements =~= parsed@.statements + rest.statements);
                assert(program(ts, start).errors =~= parsed@.errors + rest.errors);
            }
        }
        proof {
            assert(program(ts, start).statements =~= parsed@.statements);
            assert(program(ts, start).errors =~= parsed@.errors);
        }
        parsed
    }
}

} // verus!
