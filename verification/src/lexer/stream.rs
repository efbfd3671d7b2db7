//! The token stream of a source: what repeated calls of the lexer return.

use super::scan::{
    keyword, lemma_run_end, lemma_scan_advances, run_end, scan, skip_spaces, spelling, symbol,
    word, ByteClass,
};
use super::token::{TokenKind, TokenView};
use vstd::prelude::*;
use vstd::utf8::{encode_utf8, is_ascii_chars, is_ascii_chars_encode_utf8};

verus! {

/// A token together with the offset of its first byte in the source.
pub struct Lexeme {
    pub token: TokenView,
    pub at: int,
}

/// The tokens from `pos` to the end of the source, each with its offset.
/// The last one is the end-of-input token that is read once nothing but
/// whitespace is left; it stands at the end of the source.
pub open spec fn lexemes(src: Seq<u8>, pos: int) -> Seq<Lexeme>
    decreases src.len() - pos,
    via lexemes_decreases
{
    let first = Lexeme { token: scan(src, pos).token, at: skip_spaces(src, pos) };
    if 0 <= pos && skip_spaces(src, pos) < src.len() {
        seq![first] + lexemes(src, scan(src, pos).next)
    } else {
        seq![first]
    }
}

#[via_fn]
proof fn lexemes_decreases(src: Seq<u8>, pos: int) {
    if 0 <= pos && skip_spaces(src, pos) < src.len() {
        lemma_scan_advances(src, pos);
    }
}

/// The tokens that are read from `pos` before the first end-of-input.
pub open spec fn tokens_before_eof(src: Seq<u8>, pos: int) -> Seq<TokenView>
    decreases src.len() - pos,
    via tokens_before_eof_decreases
{
    if 0 <= pos <= src.len() && scan(src, pos).token.kind != TokenKind::Eof {
        seq![scan(src, pos).token] + tokens_before_eof(src, scan(src, pos).next)
    } else {
        Seq::empty()
    }
}

#[via_fn]
proof fn tokens_before_eof_decreases(src: Seq<u8>, pos: int) {
    if 0 <= pos <= src.len() {
        lemma_scan_advances(src, pos);
    }
}

/// The position of the cursor after `n` tokens have been read from `pos`.
pub open spec fn cursor_after(src: Seq<u8>, pos: int, n: nat) -> int
    decreases n,
{
    if n == 0 {
        pos
    } else {
        scan(src, cursor_after(src, pos, (n - 1) as nat)).next
    }
}

/// The token that the call number `n` returns, counting from zero, when the
/// first call finds the cursor at `pos`.
pub open spec fn nth_token(src: Seq<u8>, pos: int, n: nat) -> TokenView {
    scan(src, cursor_after(src, pos, n)).token
}

/// Whether nothing but whitespace and zero bytes is left from `pos` on.
pub open spec fn only_blank_from(src: Seq<u8>, pos: int) -> bool {
    forall|i: int|
        pos <= i < src.len() ==> ByteClass::Space.has(#[trigger] src[i]) || src[i] == 0
}

/// The stream is never empty, begins with the token that the lexer reads
/// next and ends with end-of-input at the end of the source; what follows
/// the first token is the stream from where the lexer then stands.
pub proof fn lemma_lexemes(src: Seq<u8>, pos: int)
    requires
        0 <= pos <= src.len(),
    ensures
        lexemes(src, pos).len() >= 1,
        lexemes(src, pos)[0] == (Lexeme {
            token: scan(src, pos).token,
            at: skip_spaces(src, pos),
        }),
        lexemes(src, pos).last() == (Lexeme {
            token: TokenView::plain(TokenKind::Eof),
            at: src.len() as int,
        }),
        lexemes(src, pos).len() == 1 <==> skip_spaces(src, pos) == src.len(),
        lexemes(src, pos).len() > 1 ==> lexemes(src, scan(src, pos).next) == lexemes(
            src,
            pos,
        ).skip(1),
        lexemes(src, pos).len() == 1 ==> lexemes(src, scan(src, pos).next) == lexemes(src, pos),
    decreases src.len() - pos,
{
    lemma_scan_advances(src, pos);
    let next = scan(src, pos).next;
    if skip_spaces(src, pos) < src.len() {
        lemma_lexemes(src, next);
        assert(lexemes(src, pos).skip(1) =~= lexemes(src, next));
    } else {
        lemma_run_end(src, ByteClass::Space, next);
    }
}

/// The cursor stays inside the source however many tokens are read.
pub proof fn lemma_cursor_after(src: Seq<u8>, pos: int, n: nat)
    requires
        0 <= pos <= src.len(),
    ensures
        pos <= cursor_after(src, pos, n) <= src.len(),
    decreases n,
{
    if n > 0 {
        lemma_cursor_after(src, pos, (n - 1) as nat);
        lemma_scan_advances(src, cursor_after(src, pos, (n - 1) as nat));
    }
}

/// Exhaustion is idempotent: once nothing but whitespace and zero bytes is
/// left, every call returns end-of-input, however often it is repeated.
pub proof fn lemma_end_of_input_repeats(src: Seq<u8>, pos: int, n: nat)
    requires
        0 <= pos <= src.len(),
        only_blank_from(src, pos),
    ensures
        nth_token(src, pos, n) == TokenView::plain(TokenKind::Eof),
        only_blank_from(src, cursor_after(src, pos, n)),
    decreases n,
{
    if n > 0 {
        lemma_end_of_input_repeats(src, pos, (n - 1) as nat);
        lemma_cursor_after(src, pos, (n - 1) as nat);
    }
    lemma_cursor_after(src, pos, n);
    lemma_blank_scan(src, cursor_after(src, pos, n));
    if n > 0 {
        lemma_blank_scan(src, cursor_after(src, pos, (n - 1) as nat));
    }
}

/// With nothing but whitespace and zero bytes left, the token is
/// end-of-input.
proof fn lemma_blank_scan(src: Seq<u8>, pos: int)
    requires
        0 <= pos <= src.len(),
        only_blank_from(src, pos),
    ensures
        scan(src, pos).token == TokenView::plain(TokenKind::Eof),
        pos <= scan(src, pos).next <= src.len(),
{
    reveal(scan);
    lemma_scan_advances(src, pos);
    lemma_run_end(src, ByteClass::Space, pos);
    let start = skip_spaces(src, pos);
    if start < src.len() {
        assert(ByteClass::Space.has(src[start]) || src[start] == 0);
    }
}

/// In a source without zero bytes, a call that returns end-of-input has
/// reached the end: every later call returns end-of-input too.
pub proof fn lemma_end_of_input_is_final(src: Seq<u8>, pos: int, n: nat, m: nat)
    requires
        0 <= pos <= src.len(),
        forall|i: int| 0 <= i < src.len() ==> #[trigger] src[i] != 0,
        nth_token(src, pos, n).kind == TokenKind::Eof,
        n <= m,
    ensures
        nth_token(src, pos, m) == TokenView::plain(TokenKind::Eof),
{
    let here = cursor_after(src, pos, n);
    lemma_cursor_after(src, pos, n);
    lemma_scan_advances(src, here);
    lemma_run_end(src, ByteClass::Space, here);
    assert(only_blank_from(src, here));
    lemma_end_of_input_repeats(src, here, (m - n) as nat);
    lemma_cursor_after_add(src, pos, n, (m - n) as nat);
}

/// Reading `n` tokens and then `k` more is reading `n + k` tokens.
pub proof fn lemma_cursor_after_add(src: Seq<u8>, pos: int, n: nat, k: nat)
    ensures
        cursor_after(src, cursor_after(src, pos, n), k) == cursor_after(src, pos, n + k),
    decreases k,
{
    if k > 0 {
        lemma_cursor_after_add(src, pos, n, (k - 1) as nat);
    }
}

/// A source that is a single operator or delimiter yields that token,
/// followed by end-of-input.
pub proof fn lemma_single_symbol(c: char)
    requires
        c as u32 <= 0x7f,
        symbol(c as u8) != TokenKind::Eof,
        symbol(c as u8) != TokenKind::Illegal,
    ensures
        encode_utf8(seq![c]) == seq![c as u8],
        lexemes(seq![c as u8], 0) == seq![
            Lexeme { token: TokenView::plain(symbol(c as u8)), at: 0 },
            Lexeme { token: TokenView::plain(TokenKind::Eof), at: 1 },
        ],
{
    reveal(scan);
    let src = seq![c as u8];
    assert(encode_utf8(seq![c]) =~= src) by {
        assert(is_ascii_chars(seq![c]));
        is_ascii_chars_encode_utf8(seq![c]);
    }
    assert(skip_spaces(src, 0) == 0);
    assert(skip_spaces(src, 1) == 1);
    lemma_lexemes(src, 0);
    lemma_lexemes(src, 1);
    assert(scan(src, 0).next == 1);
    assert(lexemes(src, 0) =~= seq![
        Lexeme { token: TokenView::plain(symbol(c as u8)), at: 0 },
        Lexeme { token: TokenView::plain(TokenKind::Eof), at: 1 },
    ]);
}

/// A source that is a run of letters yields one token, followed by
/// end-of-input: the keyword that it spells, or else an identifier that
/// carries the exact spelling.
pub proof fn lemma_single_word(src: Seq<u8>)
    requires
        src.len() > 0,
        forall|i: int| 0 <= i < src.len() ==> ByteClass::Letter.has(#[trigger] src[i]),
    ensures
        lexemes(src, 0) == seq![
            Lexeme { token: word(spelling(src, 0, src.len() as int)), at: 0 },
            Lexeme { token: TokenView::plain(TokenKind::Eof), at: src.len() as int },
        ],
        keyword(spelling(src, 0, src.len() as int)) matches Some(kind) ==> word(
            spelling(src, 0, src.len() as int),
        ) == TokenView::plain(kind) && kind != TokenKind::Ident,
        keyword(spelling(src, 0, src.len() as int)) is None ==> word(
            spelling(src, 0, src.len() as int),
        ) == TokenView::identifier(spelling(src, 0, src.len() as int)),
{
    reveal(scan);
    let end = src.len() as int;
    lemma_run_end(src, ByteClass::Letter, 0);
    lemma_run_end(src, ByteClass::Space, 0);
    lemma_run_end(src, ByteClass::Space, end);
    assert(run_end(src, ByteClass::Letter, 0) == end) by {
        let e = run_end(src, ByteClass::Letter, 0);
        if e < end {
            assert(ByteClass::Letter.has(src[e]));
        }
    }
    assert(skip_spaces(src, 0) == 0);
    lemma_lexemes(src, 0);
    lemma_lexemes(src, end);
    assert(lexemes(src, 0) =~= seq![
        Lexeme { token: word(spelling(src, 0, end)), at: 0 },
        Lexeme { token: TokenView::plain(TokenKind::Eof), at: end },
    ]);
}

} // verus!
