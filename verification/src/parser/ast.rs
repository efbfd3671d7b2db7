//! The syntax tree that the parser builds, and the diagnostics that it
//! records where the source does not follow the grammar.

use crate::lexer::token::{Token, TokenKind, TokenView};
use vstd::prelude::*;

verus! {

/// An expression. Every node keeps the token that it began with.
#[derive(Debug, PartialEq)]
pub enum Expression {
    /// A name; `value` is its spelling.
    Identifier { token: Token, value: String },
    /// An integer literal; `value` holds its digits as written.
    IntegerLiteral { token: Token, value: String },
    /// A prefix operator, `token`, applied to `right`.
    Prefix { token: Token, right: Box<Expression> },
    /// A binary operator, `token`, between `left` and `right`.
    Infix { token: Token, left: Box<Expression>, right: Box<Expression> },
}

/// A statement.
#[derive(Debug, PartialEq)]
pub enum Statement {
    /// `let` identifier `=` value `;`
    Let { token: Token, identifier: Box<Expression>, value: Box<Expression> },
    /// `return` value `;`
    Return { token: Token, value: Box<Expression> },
    /// An expression that stands as a statement.
    Expression { token: Token, expression: Box<Expression> },
}

/// What the grammar asked for where a diagnostic was recorded.
#[derive(Debug, PartialEq, Eq, Clone, Copy, Structural)]
pub enum Expected {
    /// A token of this category.
    Token(TokenKind),
    /// A token that can begin an expression.
    Expression,
    /// A statement that the grammar defines.
    Statement,
}

/// A diagnostic: what was expected, what stood there instead, and the byte
/// offset of that token in the source.
#[derive(Debug, PartialEq)]
pub struct ParseError {
    pub expected: Expected,
    pub found: Token,
    pub position: usize,
}

/// The result of a parse: the statements in source order, and the
/// diagnostics in the order in which they were recorded.
#[derive(Debug, PartialEq)]
pub struct Program {
    pub statements: Vec<Statement>,
    pub errors: Vec<ParseError>,
}

/// The mathematical model of an expression: what contracts say of one.
pub enum ExpressionView {
    Identifier { token: TokenView, value: Seq<char> },
    IntegerLiteral { token: TokenView, value: Seq<char> },
    Prefix { token: TokenView, right: Box<ExpressionView> },
    Infix { token: TokenView, left: Box<ExpressionView>, right: Box<ExpressionView> },
}

/// The mathematical model of a statement.
pub enum StatementView {
    Let { token: TokenView, identifier: ExpressionView, value: ExpressionView },
    Return { token: TokenView, value: ExpressionView },
    Expression { token: TokenView, expression: ExpressionView },
}

/// The mathematical model of a diagnostic.
pub struct ParseErrorView {
    pub expected: Expected,
    pub found: TokenView,
    pub position: int,
}

/// The mathematical model of a program.
pub struct ProgramView {
    pub statements: Seq<StatementView>,
    pub errors: Seq<ParseErrorView>,
}

impl View for Expression {
    type V = ExpressionView;

    open spec fn view(&self) -> ExpressionView
        decreases self,
    {
        match self {
            Expression::Identifier { token, value } => ExpressionView::Identifier {
                token: token@,
                value: value@,
            },
            Expression::IntegerLiteral { token, value } => ExpressionView::IntegerLiteral {
                token: token@,
                value: value@,
            },
            Expression::Prefix { token, right } => ExpressionView::Prefix {
                token: token@,
                right: Box::new((**right)@),
            },
            Expression::Infix { token, left, right } => ExpressionView::Infix {
                token: token@,
                left: Box::new((**left)@),
                right: Box::new((**right)@),
            },
        }
    }
}

impl View for Statement {
    type V = StatementView;

    open spec fn view(&self) -> StatementView {
        match self {
            Statement::Let { token, identifier, value } => StatementView::Let {
                token: token@,
                identifier: (**identifier)@,
                value: (**value)@,
            },
            Statement::Return { token, value } => StatementView::Return {
                token: token@,
                value: (**value)@,
            },
            Statement::Expression { token, expression } => StatementView::Expression {
                token: token@,
                expression: (**expression)@,
            },
        }
    }
}

impl View for ParseError {
    type V = ParseErrorView;

    open spec fn view(&self) -> ParseErrorView {
        ParseErrorView {
            expected: self.expected,
            found: self.found@,
            position: self.position as int,
        }
    }
}

impl View for Program {
    type V = ProgramView;

    open spec fn view(&self) -> ProgramView {
        ProgramView {
            statements: self.statements@.map_values(|s: Statement| s@),
            errors: self.errors@.map_values(|e: ParseError| e@),
        }
    }
}

impl Expression {
    /// A copy of this expression.
    fn duplicate(&self) -> (copy: Expression)
        ensures
            copy@ == self@,
        decreases self,
    {
        match self {
            Expression::Identifier { token, value } => Expression::Identifier {
                token: token.clone(),
                value: value.clone(),
            },
            Expression::IntegerLiteral { token, value } => Expression::IntegerLiteral {
                token: token.clone(),
                value: value.clone(),
            },
            Expression::Prefix { token, right } => Expression::Prefix {
                token: token.clone(),
                right: Box::new(right.duplicate()),
            },
            Expression::Infix { token, left, right } => Expression::Infix {
                token: token.clone(),
                left: Box::new(left.duplicate()),
                right: Box::new(right.duplicate()),
            },
        }
    }
}

impl Clone for Expression {
    fn clone(&self) -> (copy: Expression)
        ensures
            copy@ == self@,
    {
        self.duplicate()
    }
}

impl Clone for Statement {
    fn clone(&self) -> (copy: Statement)
        ensures
            copy@ == self@,
    {
        match self {
            Statement::Let { token, identifier, value } => Statement::Let {
                token: token.clone(),
                identifier: Box::new(identifier.duplicate()),
                value: Box::new(value.duplicate()),
            },
            Statement::Return { token, value } => Statement::Return {
                token: token.clone(),
                value: Box::new(value.duplicate()),
            },
            Statement::Expression { token, expression } => Statement::Expression {
                token: token.clone(),
                expression: Box::new(expression.duplicate()),
            },
        }
    }
}

impl Clone for ParseError {
    fn clone(&self) -> (copy: ParseError)
        ensures
            copy@ == self@,
    {
        ParseError { expected: self.expected, found: self.found.clone(), position: self.position }
    }
}

impl Program {
    /// The empty program: no statement, no diagnostic.
    pub fn new() -> (program: Program)
        ensures
            program.statements@.len() == 0,
            program.errors@.len() == 0,
            program@ == (ProgramView { statements: Seq::empty(), errors: Seq::empty() }),
    {
        let program = Program { statements: Vec::new(), errors: Vec::new() };
        assert(program@.statements =~= Seq::empty());
        assert(program@.errors =~= Seq::empty());
        program
    }
}

} // verus!
