//! The lexer: a cursor over a source, from which tokens are pulled one by one.

use vstd::prelude::*;
use vstd::slice::{slice_subrange, slice_to_vec};
use vstd::utf8::encode_utf8;
use crate::lexer::grammar::{end_of_input, lemma_token_from, lemma_trivia_end, token_from};
use crate::lexer::position::{advance, is_position_of, start_position};
use crate::lexer::scan::{scan_lexeme, skip_trivia};
use crate::lexer::stream::tokens_from;
use crate::lexer::token::{token_views, TokenView};

pub use crate::lexer::token::{LexError, Position, Token, TokenKind};

verus! {

/// A lexer over one source text.
///
/// The lexer owns a copy of the source and a cursor into it. It holds no
/// other state: what a call of `next_token` returns depends on the source and
/// on the offset of the cursor alone.
pub struct Lexer {
    /// The bytes of the source, and behind them one zero byte, which is what
    /// the cursor reads when it has passed the source.
    input: Vec<u8>,
    /// Where the next scan begins.
    cursor: Position,
}

impl Lexer {
    #[verifier::type_invariant]
    spec fn well_formed(self) -> bool {
        &&& self.cursor.offset < self.input@.len()
        &&& self.input@.last() == 0
        &&& is_position_of(self.cursor, self.input@.drop_last(), self.cursor.offset as int)
    }

    /// The bytes of the source.
    pub closed spec fn source(&self) -> Seq<u8> {
        self.input@.drop_last()
    }

    /// The offset of the cursor: how many bytes of the source have been
    /// consumed.
    pub closed spec fn offset(&self) -> int {
        self.cursor.offset as int
    }

    /// A lexer at the beginning of `input`.
    pub fn new(input: String) -> (lexer: Lexer)
        ensures
            lexer.source() == encode_utf8(input@),
            lexer.offset() == 0,
    {
        let mut buffer = input.as_str().as_bytes_vec();
        let ghost source = buffer@;
        buffer.push(0);
        assert(buffer@.drop_last() =~= source);
        Lexer { input: buffer, cursor: start_position() }
    }

    /// The byte under the cursor, and zero where the source has ended.
    pub fn current_char(&self) -> (b: u8)
        ensures
            b == if self.offset() < self.source().len() {
                self.source()[self.offset()]
            } else {
                0
            },
    {
        proof {
            use_type_invariant(self);
        }
        self.input[self.cursor.offset]
    }

    /// Where the cursor stands.
    pub fn position(&self) -> (p: Position)
        ensures
            is_position_of(p, self.source(), self.offset()),
            0 <= self.offset() <= self.source().len(),
    {
        proof {
            use_type_invariant(self);
        }
        self.cursor
    }

    /// Skips whitespace and comments, reads one token and moves the cursor
    /// behind it. Where nothing but whitespace and comments is left, the token
    /// is `EndOfInput` and the cursor goes to the end of the source, where it
    /// stays. Every other token moves the cursor forward.
    pub fn next_token(&mut self) -> (token: Token)
        ensures
            final(self).source() == old(self).source(),
            token@ == token_from(old(self).source(), old(self).offset()),
            final(self).offset() == token@.end(),
            old(self).offset() <= final(self).offset() <= old(self).source().len(),
            token@.kind is EndOfInput ==> token@ == end_of_input(old(self).source())
                && final(self).offset() == old(self).source().len(),
            !(token@.kind is EndOfInput) ==> old(self).offset() < final(self).offset(),
    {
        proof {
            use_type_invariant(&*self);
            lemma_token_from(self.source(), self.offset());
        }
        let src = slice_subrange(self.input.as_slice(), 0, self.input.len() - 1);
        assert(src@ =~= self.source());
        let start = skip_trivia(src, self.cursor.offset);
        let begin = advance(src, self.cursor, start);
        if start == src.len() {
            self.cursor = begin;
            Token { kind: TokenKind::EndOfInput, text: Vec::new(), position: begin }
        } else {
            proof {
                lemma_trivia_end(src@, old(self).offset());
            }
            let (kind, end) = scan_lexeme(src, start);
            let text = slice_to_vec(slice_subrange(src, start, end));
            self.cursor = advance(src, begin, end);
            Token { kind, text, position: begin }
        }
    }

    /// Reads every token that is left, the end of input last, and leaves the
    /// cursor at the end of the source.
    pub fn tokenize(&mut self) -> (tokens: Vec<Token>)
        ensures
            final(self).source() == old(self).source(),
            final(self).offset() == old(self).source().len(),
            token_views(tokens@) == tokens_from(old(self).source(), old(self).offset()).push(
                end_of_input(old(self).source()),
            ),
    {
        proof {
            use_type_invariant(&*self);
        }
        let ghost source = self.source();
        let ghost first = self.offset();
        let mut tokens: Vec<Token> = Vec::new();
        assert(token_views(tokens@) + tokens_from(source, first) =~= tokens_from(source, first));
        loop
            invariant_except_break
                self.source() == source,
                0 <= self.offset() <= source.len(),
                token_views(tokens@) + tokens_from(source, self.offset()) == tokens_from(
                    source,
                    first,
                ),
            ensures
                self.source() == source,
                self.offset() == source.len(),
                token_views(tokens@) == tokens_from(source, first).push(end_of_input(source)),
            decreases source.len() - self.offset(),
        {
            let ghost before = self.offset();
            let ghost seen = token_views(tokens@);
            let token = self.next_token();
            proof {
                lemma_token_from(source, before);
            }
            let done = match token.kind {
                TokenKind::EndOfInput => true,
                _ => false,
            };
            tokens.push(token);
            assert(token_views(tokens@) =~= seen.push(token_from(source, before)));
            if done {
                assert(tokens_from(source, before) =~= Seq::<TokenView>::empty());
                assert(seen =~= tokens_from(source, first));
                break ;
            }
            assert(seen.push(token_from(source, before)) + tokens_from(source, self.offset())
                =~= seen + tokens_from(source, before));
        }
        tokens
    }
}

} // verus!
