//! What the interactive shell shows for a line of input.

use crate::lexer::scan::lemma_scan_advances;
use crate::lexer::stream::tokens_before_eof;
use crate::lexer::token::{Token, TokenKind, TokenView};
use crate::lexer::Lexer;
use vstd::prelude::*;
use vstd::utf8::encode_utf8;

verus! {

/// The tokens of `line` in order, up to its first end-of-input token, which
/// is left out.
pub fn tokens_of_line(line: String) -> (tokens: Vec<Token>)
    ensures
        tokens@.map_values(|t: Token| t@) == tokens_before_eof(encode_utf8(line@), 0),
{
    let mut lexer = Lexer::new(line);
    let mut tokens: Vec<Token> = Vec::new();
    let ghost src = lexer.source();
    proof {
        lexer.lemma_cursor_in_source();
        assert(tokens@.map_values(|t: Token| t@) =~= Seq::<TokenView>::empty());
    }
    loop
        invariant_except_break
            lexer.wf(),
            lexer.source() == src,
            tokens_before_eof(src, 0) == tokens@.map_values(|t: Token| t@) + tokens_before_eof(
                src,
                lexer.cursor(),
            ),
        ensures
            tokens@.map_values(|t: Token| t@) == tokens_before_eof(src, 0),
        decreases src.len() - lexer.cursor(),
    {
        let ghost shown = tokens@.map_values(|t: Token| t@);
        let ghost before = lexer.cursor();
        proof {
            lexer.lemma_cursor_in_source();
            lemma_scan_advances(src, before);
        }
        let token = lexer.next_token();
        if token.kind() == TokenKind::Eof {
            assert(tokens_before_eof(src, 0) =~= shown);
            break ;
        }
        tokens.push(token);
        proof {
            assert(tokens@.map_values(|t: Token| t@) =~= shown.push(token@));
            assert(tokens_before_eof(src, 0) =~= tokens@.map_values(|t: Token| t@)
                + tokens_before_eof(src, lexer.cursor()));
        }
    }
    tokens
}

} // verus!
