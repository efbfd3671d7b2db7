//! What lexing means: the token that starts at a position of the source
//! bytes, and where the cursor stands after it.

use super::token::{TokenKind, TokenView};
use vstd::prelude::*;

verus! {

/// The byte at index `i`, or the zero byte beyond either end of the source.
pub open spec fn byte_at(src: Seq<u8>, i: int) -> u8 {
    if 0 <= i < src.len() {
        src[i]
    } else {
        0
    }
}

/// The kinds of byte that the lexer consumes in runs.
pub enum ByteClass {
    /// Space, tab, line feed, carriage return.
    Space,
    /// An ASCII letter or the underscore.
    Letter,
    /// An ASCII digit.
    Digit,
}

impl ByteClass {
    /// Whether `b` belongs to this class.
    pub open spec fn has(self, b: u8) -> bool {
        match self {
            ByteClass::Space => b == ' ' as u8 || b == '\t' as u8 || b == '\n' as u8 || b
                == '\r' as u8,
            ByteClass::Letter => ('a' as u8 <= b <= 'z' as u8) || ('A' as u8 <= b <= 'Z' as u8)
                || b == '_' as u8,
            ByteClass::Digit => '0' as u8 <= b <= '9' as u8,
        }
    }
}

/// The end of the longest run of bytes of `class` that starts at `i`.
pub open spec fn run_end(src: Seq<u8>, class: ByteClass, i: int) -> int
    decreases src.len() - i,
{
    if 0 <= i < src.len() && class.has(src[i]) {
        run_end(src, class, i + 1)
    } else {
        i
    }
}

/// The first position at or after `i` that holds no whitespace.
pub open spec fn skip_spaces(src: Seq<u8>, i: int) -> int {
    run_end(src, ByteClass::Space, i)
}

/// The bytes from `from` up to `to`, each read as one character.
pub open spec fn spelling(src: Seq<u8>, from: int, to: int) -> Seq<char> {
    Seq::new((to - from) as nat, |k: int| src[from + k] as char)
}

/// The reserved words.
pub open spec fn keyword(text: Seq<char>) -> Option<TokenKind> {
    if text == "fn"@ {
        Some(TokenKind::Function)
    } else if text == "let"@ {
        Some(TokenKind::Let)
    } else if text == "true"@ {
        Some(TokenKind::True)
    } else if text == "false"@ {
        Some(TokenKind::False)
    } else if text == "if"@ {
        Some(TokenKind::If)
    } else if text == "else"@ {
        Some(TokenKind::Else)
    } else if text == "return"@ {
        Some(TokenKind::Return)
    } else {
        None
    }
}

/// The token for a run of letters: its keyword if it spells one, else an
/// identifier with that spelling.
pub open spec fn word(text: Seq<char>) -> TokenView {
    match keyword(text) {
        Some(kind) => TokenView::plain(kind),
        None => TokenView::identifier(text),
    }
}

/// The token for a byte that is neither a letter nor a digit and does not
/// begin a two-byte operator.
pub open spec fn symbol(b: u8) -> TokenKind {
    if b == '=' as u8 {
        TokenKind::Assign
    } else if b == '+' as u8 {
        TokenKind::Plus
    } else if b == '-' as u8 {
        TokenKind::Minus
    } else if b == '!' as u8 {
        TokenKind::Bang
    } else if b == '*' as u8 {
        TokenKind::Asterisk
    } else if b == '/' as u8 {
        TokenKind::Slash
    } else if b == '<' as u8 {
        TokenKind::Lt
    } else if b == '>' as u8 {
        TokenKind::Gt
    } else if b == ',' as u8 {
        TokenKind::Comma
    } else if b == ';' as u8 {
        TokenKind::Semicolon
    } else if b == '(' as u8 {
        TokenKind::LParen
    } else if b == ')' as u8 {
        TokenKind::RParen
    } else if b == '{' as u8 {
        TokenKind::LBrace
    } else if b == '}' as u8 {
        TokenKind::RBrace
    } else if b == 0 {
        TokenKind::Eof
    } else {
        TokenKind::Illegal
    }
}

/// One step of the lexer.
pub struct Scanned {
    /// The token that was read.
    pub token: TokenView,
    /// The position of the cursor after it.
    pub next: int,
}

/// The step that the lexer takes with its cursor at `pos`.
///
/// Whitespace is skipped first. A letter begins the longest run of letters,
/// a digit the longest run of digits. `==` and `!=` take two bytes; every
/// other byte is a token by itself. Past the end of the source the token is
/// end-of-input and the cursor stays where it is.
///
/// The function is opaque, which keeps proofs about streams of tokens small:
/// `reveal` it to reason about single bytes.
#[verifier::opaque]
pub open spec fn scan(src: Seq<u8>, pos: int) -> Scanned {
    let start = skip_spaces(src, pos);
    let b = byte_at(src, start);
    if ByteClass::Letter.has(b) {
        let end = run_end(src, ByteClass::Letter, start);
        Scanned { token: word(spelling(src, start, end)), next: end }
    } else if ByteClass::Digit.has(b) {
        let end = run_end(src, ByteClass::Digit, start);
        Scanned { token: TokenView::integer(spelling(src, start, end)), next: end }
    } else if b == '=' as u8 && byte_at(src, start + 1) == '=' as u8 {
        Scanned { token: TokenView::plain(TokenKind::Eq), next: start + 2 }
    } else if b == '!' as u8 && byte_at(src, start + 1) == '=' as u8 {
        Scanned { token: TokenView::plain(TokenKind::NotEq), next: start + 2 }
    } else {
        Scanned {
            token: TokenView::plain(symbol(b)),
            next: if start < src.len() {
                start + 1
            } else {
                start
            },
        }
    }
}

/// A run ends inside the source, holds only bytes of its class, and cannot
/// be extended.
pub proof fn lemma_run_end(src: Seq<u8>, class: ByteClass, i: int)
    requires
        0 <= i <= src.len(),
    ensures
        i <= run_end(src, class, i) <= src.len(),
        forall|j: int| i <= j < run_end(src, class, i) ==> class.has(#[trigger] src[j]),
        !class.has(byte_at(src, run_end(src, class, i))) || run_end(src, class, i) == src.len(),
        run_end(src, class, run_end(src, class, i)) == run_end(src, class, i),
    decreases src.len() - i,
{
    if i < src.len() && class.has(src[i]) {
        lemma_run_end(src, class, i + 1);
    }
}

/// The cursor never moves backwards nor leaves the source, and every token
/// but the end-of-input at the very end takes at least one byte.
pub proof fn lemma_scan_advances(src: Seq<u8>, pos: int)
    requires
        0 <= pos <= src.len(),
    ensures
        pos <= skip_spaces(src, pos) <= scan(src, pos).next <= src.len(),
        skip_spaces(src, pos) < src.len() ==> skip_spaces(src, pos) < scan(src, pos).next,
        scan(src, pos).token.kind == TokenKind::Eof <==> byte_at(src, skip_spaces(src, pos)) == 0,
        scan(src, pos).token.kind == TokenKind::Eof ==> scan(src, pos).token == TokenView::plain(
            TokenKind::Eof,
        ),
        scan(src, skip_spaces(src, pos)) == scan(src, pos),
{
    reveal(scan);
    let start = skip_spaces(src, pos);
    lemma_run_end(src, ByteClass::Space, pos);
    lemma_run_end(src, ByteClass::Letter, start);
    lemma_run_end(src, ByteClass::Digit, start);
    lemma_keyword_kinds(spelling(src, start, run_end(src, ByteClass::Letter, start)));
}

/// The reserved words, one by one. They are matched letter for letter:
/// another case is another word.
pub proof fn lemma_reserved_words()
    ensures
        keyword("fn"@) == Some(TokenKind::Function),
        keyword("let"@) == Some(TokenKind::Let),
        keyword("true"@) == Some(TokenKind::True),
        keyword("false"@) == Some(TokenKind::False),
        keyword("if"@) == Some(TokenKind::If),
        keyword("else"@) == Some(TokenKind::Else),
        keyword("return"@) == Some(TokenKind::Return),
        keyword("Let"@) is None,
{
    reveal_strlit("fn");
    reveal_strlit("let");
    reveal_strlit("true");
    reveal_strlit("false");
    reveal_strlit("if");
    reveal_strlit("else");
    reveal_strlit("return");
    reveal_strlit("Let");
    assert("fn"@.len() == 2 && "if"@.len() == 2);
    assert("let"@.len() == 3 && "Let"@.len() == 3);
    assert("true"@.len() == 4 && "else"@.len() == 4);
    assert("false"@.len() == 5);
    assert("return"@.len() == 6);
    assert("fn"@[0] != "if"@[0]);
    assert("true"@[0] != "else"@[0]);
    assert("Let"@[0] != "let"@[0]);
}

/// A keyword is never an identifier, a literal or a sentinel.
pub proof fn lemma_keyword_kinds(text: Seq<char>)
    ensures
        keyword(text) matches Some(kind) ==> kind == TokenKind::Function || kind == TokenKind::Let
            || kind == TokenKind::True || kind == TokenKind::False || kind == TokenKind::If || kind
            == TokenKind::Else || kind == TokenKind::Return,
{
}

} // verus!
