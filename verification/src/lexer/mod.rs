//! The lexer: a cursor over the source bytes that hands out one token per call.

pub mod scan;
pub mod stream;
pub mod text;
pub mod token;

pub use token::{Token, TokenKind, TokenView};

use scan::{
    byte_at, lemma_scan_advances, run_end, scan, skip_spaces, spelling, word, ByteClass,
};
use stream::{cursor_after, lemma_end_of_input_repeats, only_blank_from};
use text::{is_ascii_bytes, lemma_ascii_text, same_text, text_of};
use vstd::prelude::*;
use vstd::slice::slice_subrange;
use vstd::string::StrSliceExecFns;
use vstd::utf8::{encode_utf8, is_ascii_chars};

verus! {

/// A cursor over the bytes of a source text.
pub struct Lexer {
    /// Position of the byte under examination.
    curr: usize,
    /// Position of the byte after it; it stops at the end of the source.
    next: usize,
    /// The source.
    input: Vec<u8>,
    /// The byte under examination, zero past the end.
    ch: u8,
}

/// Whether `b` is an ASCII letter or the underscore.
fn is_letter(b: u8) -> (yes: bool)
    ensures
        yes == ByteClass::Letter.has(b),
{
    ('a' as u8 <= b && b <= 'z' as u8) || ('A' as u8 <= b && b <= 'Z' as u8) || b == '_' as u8
}

/// Whether `b` is an ASCII digit.
fn is_digit(b: u8) -> (yes: bool)
    ensures
        yes == ByteClass::Digit.has(b),
{
    '0' as u8 <= b && b <= '9' as u8
}

/// Whether `b` is a space, a tab, a line feed or a carriage return.
fn is_space(b: u8) -> (yes: bool)
    ensures
        yes == ByteClass::Space.has(b),
{
    b == ' ' as u8 || b == '\n' as u8 || b == '\r' as u8 || b == '\t' as u8
}

/// The token for a run of letters: a keyword if `id` spells one, else an
/// identifier.
fn lookup_ident(id: String) -> (token: Token)
    requires
        is_ascii_chars(id@),
    ensures
        token@ == word(id@),
{
    proof {
        reveal_strlit("fn");
        reveal_strlit("let");
        reveal_strlit("true");
        reveal_strlit("false");
        reveal_strlit("if");
        reveal_strlit("else");
        reveal_strlit("return");
    }
    if same_text(id.as_str(), "fn") {
        Token::FUNCTION
    } else if same_text(id.as_str(), "let") {
        Token::LET
    } else if same_text(id.as_str(), "true") {
        Token::TRUE
    } else if same_text(id.as_str(), "false") {
        Token::FALSE
    } else if same_text(id.as_str(), "if") {
        Token::IF
    } else if same_text(id.as_str(), "else") {
        Token::ELSE
    } else if same_text(id.as_str(), "return") {
        Token::RETURN
    } else {
        Token::IDENT(id)
    }
}

impl Lexer {
    /// The bytes that are being lexed.
    pub closed spec fn source(&self) -> Seq<u8> {
        self.input@
    }

    /// The position of the cursor: the bytes before it have been consumed.
    pub closed spec fn cursor(&self) -> int {
        self.curr as int
    }

    /// The cursor is inside the source or at its end, the lookahead position
    /// is one byte further unless the end is reached, and the cached byte is
    /// the one under the cursor.
    pub closed spec fn wf(&self) -> bool {
        &&& self.curr <= self.input.len()
        &&& self.next == if self.curr < self.input.len() {
            self.curr + 1
        } else {
            self.curr as int
        }
        &&& self.ch == byte_at(self.input@, self.curr as int)
    }

    /// The cursor of a well-formed lexer is inside the source or at its end.
    pub proof fn lemma_cursor_in_source(&self)
        requires
            self.wf(),
        ensures
            0 <= self.cursor() <= self.source().len(),
    {
    }

    /// A lexer over the bytes of `input`, with its cursor at the start.
    pub fn new(input: String) -> (lexer: Lexer)
        ensures
            lexer.wf(),
            lexer.source() == encode_utf8(input@),
            lexer.cursor() == 0,
    {
        let mut l = Lexer { curr: 0, next: 0, input: input.as_str().as_bytes_vec(), ch: 0 };
        l.read_char();
        l
    }

    /// The position of the cursor, as a byte offset into the source.
    pub fn position(&self) -> (offset: usize)
        ensures
            offset == self.cursor(),
    {
        self.curr
    }

    /// The byte after the one under examination, zero past the end.
    fn peek_char(&self) -> (b: u8)
        requires
            self.wf(),
        ensures
            b == byte_at(self.input@, self.curr + 1),
    {
        if self.next >= self.input.len() {
            return 0;
        }
        self.input[self.next]
    }

    /// Moves the cursor to the lookahead position.
    fn read_char(&mut self)
        requires
            old(self).next <= old(self).input.len(),
        ensures
            final(self).input == old(self).input,
            final(self).curr == old(self).next,
            final(self).wf(),
    {
        if self.next >= self.input.len() {
            self.ch = 0;
            self.curr = self.next;
        } else {
            self.ch = self.input[self.next];
            self.curr = self.next;
            self.next = self.next + 1;
        }
    }

    /// Moves the cursor past whitespace.
    pub(crate) fn skip_whitespace(&mut self)
        requires
            old(self).wf(),
        ensures
            final(self).wf(),
            final(self).source() == old(self).source(),
            final(self).cursor() == skip_spaces(old(self).source(), old(self).cursor()),
    {
        while is_space(self.ch)
            invariant
                self.wf(),
                self.input == old(self).input,
                skip_spaces(self.input@, self.curr as int) == skip_spaces(
                    old(self).input@,
                    old(self).curr as int,
                ),
            decreases self.input.len() - self.curr,
        {
            self.read_char();
        }
    }

    /// Moves the cursor past the run of letters under it and returns their
    /// text.
    fn read_identifier(&mut self) -> (id: String)
        requires
            old(self).wf(),
        ensures
            final(self).wf(),
            final(self).input == old(self).input,
            final(self).curr == run_end(old(self).input@, ByteClass::Letter, old(self).curr as int),
            id@ == spelling(old(self).input@, old(self).curr as int, final(self).curr as int),
            is_ascii_chars(id@),
    {
        let p: usize = self.curr;
        while is_letter(self.ch)
            invariant
                self.wf(),
                self.input == old(self).input,
                p == old(self).curr,
                p <= self.curr <= self.input.len(),
                run_end(self.input@, ByteClass::Letter, self.curr as int) == run_end(
                    self.input@,
                    ByteClass::Letter,
                    p as int,
                ),
                forall|j: int|
                    p <= j < self.curr ==> ByteClass::Letter.has(#[trigger] self.input@[j]),
            decreases self.input.len() - self.curr,
        {
            self.read_char();
        }
        let bytes = slice_subrange(self.input.as_slice(), p, self.curr);
        proof {
            assert(is_ascii_bytes(bytes@));
            lemma_ascii_text(bytes@);
            assert(spelling(bytes@, 0, bytes@.len() as int) =~= spelling(
                self.input@,
                p as int,
                self.curr as int,
            ));
        }
        text_of(bytes)
    }

    /// Moves the cursor past the run of digits under it and returns their
    /// text.
    fn read_number(&mut self) -> (digits: String)
        requires
            old(self).wf(),
        ensures
            final(self).wf(),
            final(self).input == old(self).input,
            final(self).curr == run_end(old(self).input@, ByteClass::Digit, old(self).curr as int),
            digits@ == spelling(old(self).input@, old(self).curr as int, final(self).curr as int),
    {
        let p: usize = self.curr;
        while is_digit(self.ch)
            invariant
                self.wf(),
                self.input == old(self).input,
                p == old(self).curr,
                p <= self.curr <= self.input.len(),
                run_end(self.input@, ByteClass::Digit, self.curr as int) == run_end(
                    self.input@,
                    ByteClass::Digit,
                    p as int,
                ),
                forall|j: int|
                    p <= j < self.curr ==> ByteClass::Digit.has(#[trigger] self.input@[j]),
            decreases self.input.len() - self.curr,
        {
            self.read_char();
        }
        let bytes = slice_subrange(self.input.as_slice(), p, self.curr);
        proof {
            assert(is_ascii_bytes(bytes@));
            lemma_ascii_text(bytes@);
            assert(spelling(bytes@, 0, bytes@.len() as int) =~= spelling(
                self.input@,
                p as int,
                self.curr as int,
            ));
        }
        text_of(bytes)
    }

    /// Reads the next token and moves the cursor past it. The cursor never
    /// moves backwards.
    ///
    /// A byte that begins no token is handed out as the illegal token, and
    /// reading goes on behind it. Once nothing but whitespace and zero bytes
    /// is left, the token is end-of-input, on this call and on every later
    /// one.
    pub fn next_token(&mut self) -> (token: Token)
        requires
            old(self).wf(),
        ensures
            final(self).wf(),
            final(self).source() == old(self).source(),
            token@ == scan(old(self).source(), old(self).cursor()).token,
            final(self).cursor() == scan(old(self).source(), old(self).cursor()).next,
            old(self).cursor() <= final(self).cursor() <= old(self).source().len(),
            only_blank_from(old(self).source(), old(self).cursor()) ==> token@ == TokenView::plain(
                TokenKind::Eof,
            ) && only_blank_from(final(self).source(), final(self).cursor()),
    {
        proof {
            reveal(scan);
            lemma_scan_advances(self.input@, self.curr as int);
            if only_blank_from(self.input@, self.curr as int) {
                lemma_end_of_input_repeats(self.input@, self.curr as int, 1);
                assert(cursor_after(self.input@, self.curr as int, 0) == self.curr);
            }
        }
        self.skip_whitespace();
        let ch: u8 = self.ch;
        if is_letter(ch) {
            let id = self.read_identifier();
            return lookup_ident(id);
        }
        if is_digit(ch) {
            return Token::INT(self.read_number());
        }
        let token = if ch == '=' as u8 {
            if self.peek_char() == '=' as u8 {
                self.read_char();
                Token::EQ
            } else {
                Token::ASSIGN
            }
        } else if ch == '+' as u8 {
            Token::PLUS
        } else if ch == '-' as u8 {
            Token::MINUS
        } else if ch == '!' as u8 {
            if self.peek_char() == '=' as u8 {
                self.read_char();
                Token::NOT_EQ
            } else {
                Token::BANG
            }
        } else if ch == '*' as u8 {
            Token::ASTERISK
        } else if ch == '/' as u8 {
            Token::SLASH
        } else if ch == '<' as u8 {
            Token::LT
        } else if ch == '>' as u8 {
            Token::GT
        } else if ch == ',' as u8 {
            Token::COMMA
        } else if ch == ';' as u8 {
            Token::SEMICOLON
        } else if ch == '(' as u8 {
            Token::LPAREN
        } else if ch == ')' as u8 {
            Token::RPAREN
        } else if ch == '{' as u8 {
            Token::LBRACE
        } else if ch == '}' as u8 {
            Token::RBRACE
        } else if ch == 0 {
            Token::EOF
        } else {
            Token::ILLEGAL
        };
        self.read_char();
        token
    }
}

} // verus!
