//! The stream of tokens that repeated scans yield, and what holds of it.

use vstd::prelude::*;
use crate::lexer::grammar::{end_of_input, lemma_token_from, token_from, trivia_end};
use crate::lexer::token::TokenView;

verus! {

/// The tokens that repeated scans of `s` yield from offset `i` on, up to the
/// end of input and without it.
pub open spec fn tokens_from(s: Seq<u8>, i: int) -> Seq<TokenView>
    decreases s.len() - i,
    via tokens_from_decreases
{
    if 0 <= i <= s.len() && !(token_from(s, i).kind is EndOfInput) {
        seq![token_from(s, i)] + tokens_from(s, token_from(s, i).end())
    } else {
        Seq::empty()
    }
}

#[via_fn]
proof fn tokens_from_decreases(s: Seq<u8>, i: int) {
    if 0 <= i <= s.len() {
        lemma_token_from(s, i);
    }
}

/// Where the cursor stands after `n` scans that began at offset `i`.
pub open spec fn offset_after(s: Seq<u8>, i: int, n: nat) -> int
    decreases n,
{
    if n == 0 {
        i
    } else {
        token_from(s, offset_after(s, i, (n - 1) as nat)).end()
    }
}

/// The token that the scan behind `n` earlier scans yields, the first of them
/// begun at offset `i`.
pub open spec fn nth_token(s: Seq<u8>, i: int, n: nat) -> TokenView {
    token_from(s, offset_after(s, i, n))
}

/// `tokens` tile the source from offset `i` on: the text of each is the span
/// of the source at its offset, the spans follow one another in order, and
/// before, between and behind them lies nothing but whitespace and comments.
pub open spec fn tiles(s: Seq<u8>, i: int, tokens: Seq<TokenView>) -> bool
    decreases tokens.len(),
{
    if tokens.len() == 0 {
        trivia_end(s, i) == s.len()
    } else {
        &&& i <= tokens[0].offset <= tokens[0].end() <= s.len()
        &&& trivia_end(s, i) == tokens[0].offset
        &&& tokens[0].text == s.subrange(tokens[0].offset, tokens[0].end())
        &&& tiles(s, tokens[0].end(), tokens.drop_first())
    }
}

/// The source from offset `i` on, put together again from `tokens`: the text
/// of each token, and before it what the source holds between the end of the
/// token before and the offset that the token has recorded.
pub open spec fn rejoin(s: Seq<u8>, i: int, tokens: Seq<TokenView>) -> Seq<u8>
    decreases tokens.len(),
{
    if tokens.len() == 0 {
        s.subrange(i, s.len() as int)
    } else {
        s.subrange(i, tokens[0].offset) + tokens[0].text + rejoin(
            s,
            tokens[0].end(),
            tokens.drop_first(),
        )
    }
}

/// Coverage: the tokens of a source tile it. No byte is lost and none is read
/// twice: what the tokens leave out is whitespace and comments, and the texts
/// of the tokens, with what was skipped put back between them, are the source
/// again.
pub proof fn lemma_total_coverage(s: Seq<u8>, i: int)
    requires
        0 <= i <= s.len(),
    ensures
        tiles(s, i, tokens_from(s, i)),
        rejoin(s, i, tokens_from(s, i)) == s.subrange(i, s.len() as int),
    decreases s.len() - i,
{
    lemma_token_from(s, i);
    let token = token_from(s, i);
    if !(token.kind is EndOfInput) {
        let rest = tokens_from(s, token.end());
        lemma_total_coverage(s, token.end());
        assert(tokens_from(s, i).drop_first() =~= rest);
        assert(s.subrange(i, token.offset) + token.text + s.subrange(token.end(), s.len() as int)
            =~= s.subrange(i, s.len() as int));
    }
}

/// Termination, counted in tokens: a source yields no more tokens than it has
/// bytes left.
pub proof fn lemma_tokens_bounded(s: Seq<u8>, i: int)
    requires
        0 <= i <= s.len(),
    ensures
        tokens_from(s, i).len() <= s.len() - i,
    decreases s.len() - i,
{
    lemma_token_from(s, i);
    if !(token_from(s, i).kind is EndOfInput) {
        lemma_tokens_bounded(s, token_from(s, i).end());
    }
}

/// Progress: the cursor stays within the source and never goes back, and a
/// scan that does not yield the end of input moves it forward.
pub proof fn lemma_offset_after(s: Seq<u8>, i: int, n: nat)
    requires
        0 <= i <= s.len(),
    ensures
        i <= offset_after(s, i, n) <= s.len(),
        offset_after(s, i, n) <= offset_after(s, i, n + 1),
        !(nth_token(s, i, n).kind is EndOfInput) ==> offset_after(s, i, n) < offset_after(
            s,
            i,
            n + 1,
        ),
        nth_token(s, i, n).kind is EndOfInput ==> offset_after(s, i, n + 1) == s.len(),
        offset_after(s, i, n) >= s.len() || offset_after(s, i, n) >= i + n,
    decreases n,
{
    if n > 0 {
        lemma_offset_after(s, i, (n - 1) as nat);
        lemma_token_from(s, offset_after(s, i, (n - 1) as nat));
    }
    lemma_token_from(s, offset_after(s, i, n));
}

/// Termination, counted in calls: behind as many scans as the source has
/// bytes left, every scan yields the end of input.
pub proof fn lemma_scan_terminates(s: Seq<u8>, i: int, n: nat)
    requires
        0 <= i <= s.len(),
        n >= s.len() - i,
    ensures
        nth_token(s, i, n) == end_of_input(s),
{
    lemma_offset_after(s, i, n);
    lemma_token_from(s, offset_after(s, i, n));
}

/// The end of input repeats: once a scan has yielded it, every later scan
/// yields it again, the very same token at the very same position, and the
/// cursor stays where it is.
pub proof fn lemma_end_of_input_repeats(s: Seq<u8>, i: int, n: nat, m: nat)
    requires
        0 <= i <= s.len(),
        n <= m,
        nth_token(s, i, n).kind is EndOfInput,
    ensures
        nth_token(s, i, m) == nth_token(s, i, n),
        nth_token(s, i, m) == end_of_input(s),
        n < m ==> offset_after(s, i, m) == s.len(),
    decreases m - n,
{
    lemma_offset_after(s, i, n);
    lemma_token_from(s, offset_after(s, i, n));
    if n < m {
        lemma_offset_after(s, i, (n + 1) as nat);
        lemma_token_from(s, offset_after(s, i, (n + 1) as nat));
        lemma_end_of_input_repeats(s, i, (n + 1) as nat, m);
    }
}

/// The stream and the scans agree: the tokens of the stream are what the
/// scans yield one after the other, and the scan behind them yields the end
/// of input.
pub proof fn lemma_stream_is_scans(s: Seq<u8>, i: int, n: nat)
    requires
        0 <= i <= s.len(),
    ensures
        n < tokens_from(s, i).len() ==> tokens_from(s, i)[n as int] == nth_token(s, i, n),
        n == tokens_from(s, i).len() ==> nth_token(s, i, n) == end_of_input(s),
        n <= tokens_from(s, i).len() ==> tokens_from(s, offset_after(s, i, n))
            == tokens_from(s, i).skip(n as int),
    decreases n,
{
    lemma_token_from(s, i);
    if n == 0 {
        assert(tokens_from(s, i).skip(0) =~= tokens_from(s, i));
    } else {
        let k = (n - 1) as nat;
        lemma_stream_is_scans(s, i, k);
        lemma_offset_after(s, i, k);
        let at = offset_after(s, i, k);
        lemma_token_from(s, at);
        if n <= tokens_from(s, i).len() {
            assert(tokens_from(s, at) == tokens_from(s, i).skip(k as int));
            assert(tokens_from(s, at).len() > 0);
            assert(tokens_from(s, offset_after(s, i, n)) =~= tokens_from(s, at).drop_first());
            assert(tokens_from(s, at).drop_first() =~= tokens_from(s, i).skip(n as int));
            let next = offset_after(s, i, n);
            lemma_token_from(s, next);
            if n < tokens_from(s, i).len() {
                assert(tokens_from(s, next).len() > 0);
                assert(tokens_from(s, next)[0] == token_from(s, next));
            } else {
                assert(tokens_from(s, next).len() == 0);
            }
        }
    }
}

} // verus!
