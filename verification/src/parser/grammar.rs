//! The grammar: what the parser makes of a token stream.
//!
//! The functions here read a stream by index. Each says what is parsed with
//! the current token at that index, and by how many tokens the parser has
//! moved on when it is done: after an expression or a statement the current
//! token is the last one that belongs to it.

use super::ast::{Expected, ExpressionView, ParseErrorView, ProgramView, StatementView};
use super::precedence::Precedence;
use crate::lexer::stream::Lexeme;
use crate::lexer::token::{TokenKind, TokenView};
use vstd::prelude::*;

verus! {

/// The lexeme at index `i`. Past its last lexeme the stream goes on with
/// end-of-input, at the offset of the last lexeme.
pub open spec fn lexeme_at(ts: Seq<Lexeme>, i: int) -> Lexeme {
    if 0 <= i < ts.len() {
        ts[i]
    } else {
        Lexeme {
            token: TokenView::plain(TokenKind::Eof),
            at: if ts.len() > 0 {
                ts.last().at
            } else {
                0
            },
        }
    }
}

/// The category of the token at index `i`.
pub open spec fn kind_at(ts: Seq<Lexeme>, i: int) -> TokenKind {
    lexeme_at(ts, i).token.kind
}

/// How many lexemes the stream holds from index `i` on.
pub open spec fn remaining(ts: Seq<Lexeme>, i: int) -> nat {
    if i < ts.len() {
        (ts.len() - i) as nat
    } else {
        0
    }
}

/// What parsing one construct comes to: the node or the diagnostic, and the
/// number of tokens by which the parser has moved on.
pub struct Outcome<T> {
    pub result: Result<T, ParseErrorView>,
    pub steps: nat,
}

/// The diagnostic for `found` standing where `expected` should.
pub open spec fn unexpected(expected: Expected, found: Lexeme) -> ParseErrorView {
    ParseErrorView { expected, found: found.token, position: found.at }
}

/// The name at index `i`, or the diagnostic that a name was expected there.
pub open spec fn identifier(ts: Seq<Lexeme>, i: int) -> Result<ExpressionView, ParseErrorView> {
    let here = lexeme_at(ts, i);
    if here.token.kind == TokenKind::Ident {
        Ok(ExpressionView::Identifier { token: here.token, value: here.token.text })
    } else {
        Err(unexpected(Expected::Token(TokenKind::Ident), here))
    }
}

/// The integer literal at index `i`, or the diagnostic that one was
/// expected there. The digits are kept as they are written.
pub open spec fn integer_literal(ts: Seq<Lexeme>, i: int) -> Result<
    ExpressionView,
    ParseErrorView,
> {
    let here = lexeme_at(ts, i);
    if here.token.kind == TokenKind::Int {
        Ok(ExpressionView::IntegerLiteral { token: here.token, value: here.token.text })
    } else {
        Err(unexpected(Expected::Token(TokenKind::Int), here))
    }
}

/// The step over the token after index `i`, which must be of category
/// `kind`: where it is not, the parser stays and the token is reported.
pub open spec fn expect(ts: Seq<Lexeme>, i: int, kind: TokenKind) -> Outcome<()> {
    let next = lexeme_at(ts, i + 1);
    if next.token.kind == kind {
        Outcome { result: Ok(()), steps: 1 }
    } else {
        Outcome { result: Err(unexpected(Expected::Token(kind), next)), steps: 0 }
    }
}

/// The expression that begins at index `i` without the binary operators
/// that may follow it: a name, an integer literal, a prefix operator with
/// its operand, or an expression in parentheses.
pub open spec fn prefix(ts: Seq<Lexeme>, i: int) -> Outcome<ExpressionView>
    decreases remaining(ts, i), 0nat,
{
    let here = lexeme_at(ts, i);
    match here.token.kind {
        TokenKind::Ident => Outcome { result: identifier(ts, i), steps: 0 },
        TokenKind::Int => Outcome { result: integer_literal(ts, i), steps: 0 },
        TokenKind::Bang | TokenKind::Minus => {
            let operand = expression(ts, i + 1, Precedence::Prefix);
            Outcome {
                result: match operand.result {
                    Ok(right) => Ok(
                        ExpressionView::Prefix { token: here.token, right: Box::new(right) },
                    ),
                    Err(error) => Err(error),
                },
                steps: operand.steps + 1,
            }
        },
        TokenKind::LParen => {
            let inner = expression(ts, i + 1, Precedence::Lowest);
            let close = expect(ts, i + 1 + inner.steps, TokenKind::RParen);
            match (inner.result, close.result) {
                (Ok(node), Ok(_)) => Outcome { result: Ok(node), steps: inner.steps + 2 },
                (Ok(_), Err(error)) => Outcome { result: Err(error), steps: inner.steps + 1 },
                (Err(error), _) => Outcome { result: Err(error), steps: inner.steps + 1 },
            }
        },
        _ => Outcome { result: Err(unexpected(Expected::Expression, here)), steps: 0 },
    }
}

/// The expression that begins at index `i`, with every binary operator
/// after it that binds tighter than `min`.
pub open spec fn expression(ts: Seq<Lexeme>, i: int, min: Precedence) -> Outcome<ExpressionView>
    decreases remaining(ts, i), 2nat,
{
    let first = prefix(ts, i);
    match first.result {
        Ok(left) => {
            let whole = climb(ts, i + first.steps, left, min);
            Outcome { result: whole.result, steps: first.steps + whole.steps }
        },
        Err(_) => first,
    }
}

/// The binary operation whose operator stands at index `i` and whose left
/// operand is `left`: its right operand is the expression after the
/// operator, with every operator that binds tighter than this one. A token
/// that is no binary operator leaves `left` as it is.
pub open spec fn infix(ts: Seq<Lexeme>, i: int, left: ExpressionView) -> Outcome<ExpressionView>
    decreases remaining(ts, i), 0nat,
{
    let operator = lexeme_at(ts, i).token;
    if Precedence::of(operator.kind).level() > 0 {
        let operand = expression(ts, i + 1, Precedence::of(operator.kind));
        Outcome {
            result: match operand.result {
                Ok(right) => Ok(
                    ExpressionView::Infix {
                        token: operator,
                        left: Box::new(left),
                        right: Box::new(right),
                    },
                ),
                Err(error) => Err(error),
            },
            steps: operand.steps + 1,
        }
    } else {
        Outcome { result: Ok(left), steps: 0 }
    }
}

/// The expression that `left` grows into, where `left` ends at index `i`:
/// as long as the next token is a binary operator that binds tighter than
/// `min`, what was parsed so far becomes the left operand of that operator.
pub open spec fn climb(
    ts: Seq<Lexeme>,
    i: int,
    left: ExpressionView,
    min: Precedence,
) -> Outcome<ExpressionView>
    decreases remaining(ts, i), 1nat,
{
    if Precedence::of(kind_at(ts, i + 1)).level() > min.level() {
        let grown = infix(ts, i + 1, left);
        match grown.result {
            Ok(node) => {
                let whole = climb(ts, i + 1 + grown.steps, node, min);
                Outcome { result: whole.result, steps: grown.steps + 1 + whole.steps }
            },
            Err(error) => Outcome { result: Err(error), steps: grown.steps + 1 },
        }
    } else {
        Outcome { result: Ok(left), steps: 0 }
    }
}

/// One more step if the token after index `i` is a semicolon: a statement
/// may end with one and need not.
pub open spec fn closing(ts: Seq<Lexeme>, i: int) -> nat {
    if kind_at(ts, i + 1) == TokenKind::Semicolon {
        1
    } else {
        0
    }
}

/// The statement `let` identifier `=` expression, with `let` at index `i`.
#[verifier::opaque]
pub open spec fn let_statement(ts: Seq<Lexeme>, i: int) -> Outcome<StatementView> {
    match (identifier(ts, i + 1), expect(ts, i + 1, TokenKind::Assign).result) {
        (Ok(name), Ok(_)) => {
            let value = expression(ts, i + 3, Precedence::Lowest);
            match value.result {
                Ok(node) => Outcome {
                    result: Ok(
                        StatementView::Let {
                            token: lexeme_at(ts, i).token,
                            identifier: name,
                            value: node,
                        },
                    ),
                    steps: value.steps + 3 + closing(ts, i + 3 + value.steps),
                },
                Err(error) => Outcome { result: Err(error), steps: value.steps + 3 },
            }
        },
        (Ok(_), Err(error)) => Outcome { result: Err(error), steps: 1 },
        (Err(error), _) => Outcome { result: Err(error), steps: 1 },
    }
}

/// The statement `return` expression, with `return` at index `i`.
#[verifier::opaque]
pub open spec fn return_statement(ts: Seq<Lexeme>, i: int) -> Outcome<StatementView> {
    let value = expression(ts, i + 1, Precedence::Lowest);
    match value.result {
        Ok(node) => Outcome {
            result: Ok(StatementView::Return { token: lexeme_at(ts, i).token, value: node }),
            steps: value.steps + 1 + closing(ts, i + 1 + value.steps),
        },
        Err(error) => Outcome { result: Err(error), steps: value.steps + 1 },
    }
}

/// The expression at index `i`, as a statement.
#[verifier::opaque]
pub open spec fn expression_statement(ts: Seq<Lexeme>, i: int) -> Outcome<StatementView> {
    let value = expression(ts, i, Precedence::Lowest);
    match value.result {
        Ok(node) => Outcome {
            result: Ok(
                StatementView::Expression { token: lexeme_at(ts, i).token, expression: node },
            ),
            steps: value.steps + closing(ts, i + value.steps),
        },
        Err(error) => Outcome { result: Err(error), steps: value.steps },
    }
}

/// The statement that begins at index `i`, chosen by its first token. A
/// conditional is not a statement of this grammar: `if` is reported.
///
/// This function and the three that it chooses from are opaque, which keeps
/// proofs about whole programs small: `reveal` them to reason about single
/// statements.
#[verifier::opaque]
pub open spec fn statement(ts: Seq<Lexeme>, i: int) -> Outcome<StatementView> {
    match kind_at(ts, i) {
        TokenKind::Let => let_statement(ts, i),
        TokenKind::Return => return_statement(ts, i),
        TokenKind::If => Outcome {
            result: Err(unexpected(Expected::Statement, lexeme_at(ts, i))),
            steps: 0,
        },
        _ => expression_statement(ts, i),
    }
}

/// The number of tokens from index `i` to the next one that ends a
/// statement: a semicolon, or end-of-input.
pub open spec fn to_boundary(ts: Seq<Lexeme>, i: int) -> nat
    decreases remaining(ts, i),
{
    if kind_at(ts, i) == TokenKind::Semicolon || kind_at(ts, i) == TokenKind::Eof {
        0
    } else {
        to_boundary(ts, i + 1) + 1
    }
}

/// The program from index `i` on: statement after statement, until one
/// would begin with end-of-input. After a statement the parser moves on by
/// one token. A statement that fails leaves its diagnostic and no node, and
/// the parser first moves to the next statement boundary.
pub open spec fn program(ts: Seq<Lexeme>, i: int) -> ProgramView
    decreases remaining(ts, i),
{
    if kind_at(ts, i) == TokenKind::Eof {
        ProgramView { statements: Seq::empty(), errors: Seq::empty() }
    } else {
        let first = statement(ts, i);
        let end = i + first.steps;
        match first.result {
            Ok(node) => {
                let rest = program(ts, end + 1);
                ProgramView { statements: seq![node] + rest.statements, errors: rest.errors }
            },
            Err(error) => {
                let rest = program(ts, end + to_boundary(ts, end) + 1);
                ProgramView { statements: rest.statements, errors: seq![error] + rest.errors }
            },
        }
    }
}

/// Whether `kind` is a reserved word with which no statement of this
/// grammar begins.
pub open spec fn begins_no_statement(kind: TokenKind) -> bool {
    kind == TokenKind::If || kind == TokenKind::Else || kind == TokenKind::Function || kind
        == TokenKind::True || kind == TokenKind::False
}

/// A reserved word with which no statement begins does not stop the parse
/// and is not passed over: the first diagnostic of the program names it, at
/// its offset. `if` is reported as a statement that the grammar lacks, the
/// others as tokens that cannot begin an expression.
pub proof fn lemma_undefined_statement_is_reported(ts: Seq<Lexeme>, i: int)
    requires
        begins_no_statement(kind_at(ts, i)),
    ensures
        program(ts, i).errors.len() >= 1,
        program(ts, i).errors[0] == unexpected(
            if kind_at(ts, i) == TokenKind::If {
                Expected::Statement
            } else {
                Expected::Expression
            },
            lexeme_at(ts, i),
        ),
{
    reveal(statement);
    reveal(expression_statement);
}

/// Nothing is passed over in silence: a stream that does not begin with
/// end-of-input gives at least one statement or one diagnostic.
pub proof fn lemma_first_statement_is_accounted_for(ts: Seq<Lexeme>, i: int)
    requires
        kind_at(ts, i) != TokenKind::Eof,
    ensures
        program(ts, i).statements.len() + program(ts, i).errors.len() >= 1,
{
}

} // verus!
